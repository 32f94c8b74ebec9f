//! The workdir-expression parser. A configuration string is either a literal
//! path selector or a `glob("include")` / `glob("include", "exclude")` filter;
//! anything that starts with `glob(` and does not fit that shape is a
//! configuration error, never a silent fallback to path semantics.

use vstd::prelude::*;
use vstd::string::StrSliceExecFns;
use vstd::string::StringExecFns;

use crate::config::ConfigError;
use crate::config::ConfigErrorView;
use crate::pattern::glob_pattern_ok;
use crate::pattern::glob_valid;
use crate::text::starts_with;
use crate::text::str_starts_with;

verus! {

/// A glob filter: entries must match the include pattern, and, when an
/// exclude pattern is present, must not match it.
#[derive(Debug, Clone, PartialEq)]
pub enum GlobExpression {
    Single(String),
    SingleWithExclude(String, String),
}

/// Mathematical image of a [`GlobExpression`].
pub ghost enum GlobExpressionView {
    Single(Seq<char>),
    SingleWithExclude(Seq<char>, Seq<char>),
}

impl View for GlobExpression {
    type V = GlobExpressionView;

    open spec fn view(&self) -> GlobExpressionView {
        match self {
            GlobExpression::Single(p) => GlobExpressionView::Single(p@),
            GlobExpression::SingleWithExclude(p, q) => GlobExpressionView::SingleWithExclude(
                p@,
                q@,
            ),
        }
    }
}

/// A compiled workdir expression: a literal path (a no-op selector) or a glob
/// filter.
#[derive(Debug, Clone, PartialEq)]
pub enum WorkDirExpression {
    Glob(GlobExpression),
    Path(String),
}

/// Mathematical image of a [`WorkDirExpression`].
pub ghost enum WorkDirExpressionView {
    Glob(GlobExpressionView),
    Path(Seq<char>),
}

impl View for WorkDirExpression {
    type V = WorkDirExpressionView;

    open spec fn view(&self) -> WorkDirExpressionView {
        match self {
            WorkDirExpression::Glob(g) => WorkDirExpressionView::Glob(g@),
            WorkDirExpression::Path(p) => WorkDirExpressionView::Path(p@),
        }
    }
}

/// The characters of `glob(`: a raw value starting so is a glob expression.
pub open spec fn glob_prefix() -> Seq<char> {
    seq!['g', 'l', 'o', 'b', '(']
}

/// The characters of `glob("`: the opening of a well-formed glob expression.
pub open spec fn glob_quote_prefix() -> Seq<char> {
    seq!['g', 'l', 'o', 'b', '(', '"']
}

/// Index of the first `'"'` in `s` at or after `i`, or `s.len()` if none.
pub open spec fn find_quote(s: Seq<char>, i: int) -> int
    recommends
        0 <= i <= s.len(),
    decreases s.len() - i when 0 <= i <= s.len()
{
    if i >= s.len() {
        s.len() as int
    } else if s[i] == '"' {
        i
    } else {
        find_quote(s, i + 1)
    }
}

/// The surface form of a glob expression: `glob("` then an include pattern up
/// to the next quote, then either `")` or `", "` followed by an exclude
/// pattern and `")`, consuming the whole string. Yields the two patterns, or
/// nothing when the string has no such shape.
pub open spec fn parse_glob_surface(s: Seq<char>) -> Option<GlobExpressionView> {
    let n = s.len() as int;
    if n < 8 || s.take(6) != glob_quote_prefix() {
        None
    } else {
        let q = find_quote(s, 6);
        if q >= n {
            None
        } else if q == n - 2 {
            if s[n - 1] == ')' {
                Some(GlobExpressionView::Single(s.subrange(6, q)))
            } else {
                None
            }
        } else if q + 3 < n && s[q + 1] == ',' && s[q + 2] == ' ' && s[q + 3] == '"' {
            let q2 = find_quote(s, q + 4);
            if q2 == n - 2 && s[n - 1] == ')' {
                Some(
                    GlobExpressionView::SingleWithExclude(s.subrange(6, q), s.subrange(q + 4, q2)),
                )
            } else {
                None
            }
        } else {
            None
        }
    }
}

/// Whether every pattern of the filter is a valid glob pattern.
pub open spec fn glob_expression_valid(g: GlobExpressionView) -> bool {
    match g {
        GlobExpressionView::Single(p) => glob_valid(p),
        GlobExpressionView::SingleWithExclude(p, q) => glob_valid(p) && glob_valid(q),
    }
}

/// What parsing a raw workdir-expression string yields: a literal path for
/// any string not starting with `glob(`, the compiled filter for a
/// well-formed glob expression with valid patterns, and a
/// `MalformedExpression` error otherwise.
pub open spec fn parse_workdir_spec(s: Seq<char>) -> Result<WorkDirExpressionView, ConfigErrorView> {
    if !starts_with(s, glob_prefix()) {
        Ok(WorkDirExpressionView::Path(s))
    } else {
        match parse_glob_surface(s) {
            Some(g) => if glob_expression_valid(g) {
                Ok(WorkDirExpressionView::Glob(g))
            } else {
                Err(ConfigErrorView::MalformedExpression(s))
            },
            None => Err(ConfigErrorView::MalformedExpression(s)),
        }
    }
}

/// Index of the first `'"'` in `s` at or after `from`, or `s@.len()` if none.
fn find_quote_char(s: &str, from: usize) -> (r: usize)
    requires
        from <= s@.len(),
    ensures
        r == find_quote(s@, from as int),
        from <= r <= s@.len(),
{
    let n = s.unicode_len();
    let mut i: usize = from;
    while i < n && s.get_char(i) != '"'
        invariant
            from <= i <= n,
            n == s@.len(),
            find_quote(s@, from as int) == find_quote(s@, i as int),
        decreases n - i,
    {
        i += 1;
    }
    i
}

/// Parses a raw string already known to start with `glob(` into a glob
/// filter, per the surface grammar, validating each pattern.
fn parse_glob_expression(raw: &str) -> (r: Result<WorkDirExpression, ConfigError>)
    requires
        starts_with(raw@, glob_prefix()),
    ensures
        parse_workdir_spec(raw@) is Ok <==> r is Ok,
        r is Ok ==> r->Ok_0@ == parse_workdir_spec(raw@)->Ok_0,
        r is Err ==> r->Err_0@ == parse_workdir_spec(raw@)->Err_0,
{
    proof {
        reveal_strlit("glob(\"");
        assert(("glob(\"")@ =~= glob_quote_prefix());
    }
    let n = raw.unicode_len();
    if n < 8 || !str_starts_with(raw, "glob(\"") {
        return Err(ConfigError::MalformedExpression(raw.to_owned()));
    }
    proof {
        assert(raw@.take(6) == glob_quote_prefix());
    }
    let q = find_quote_char(raw, 6);
    if q >= n {
        return Err(ConfigError::MalformedExpression(raw.to_owned()));
    }
    if q == n - 2 {
        if raw.get_char(n - 1) == ')' {
            let inc = raw.substring_char(6, q).to_owned();
            if glob_pattern_ok(inc.as_str()) {
                return Ok(WorkDirExpression::Glob(GlobExpression::Single(inc)));
            }
        }
        return Err(ConfigError::MalformedExpression(raw.to_owned()));
    }
    if q < n - 3 && raw.get_char(q + 1) == ',' && raw.get_char(q + 2) == ' ' && raw.get_char(q + 3)
        == '"' {
        let q2 = find_quote_char(raw, q + 4);
        if q2 == n - 2 && raw.get_char(n - 1) == ')' {
            let inc = raw.substring_char(6, q).to_owned();
            let exc = raw.substring_char(q + 4, q2).to_owned();
            if glob_pattern_ok(inc.as_str()) && glob_pattern_ok(exc.as_str()) {
                return Ok(
                    WorkDirExpression::Glob(
                        GlobExpression::SingleWithExclude(inc, exc),
                    ),
                );
            }
        }
        return Err(ConfigError::MalformedExpression(raw.to_owned()));
    }
    Err(ConfigError::MalformedExpression(raw.to_owned()))
}

/// Compiles a raw configuration string into a workdir expression. A string
/// not starting with `glob(` — the empty string included — is a literal path
/// selector; a string starting with `glob(` must fit the glob surface grammar
/// with valid patterns, else a `MalformedExpression` error is returned.
pub fn parse_work_dir_expression(raw: &str) -> (r: Result<WorkDirExpression, ConfigError>)
    ensures
        parse_workdir_spec(raw@) is Ok <==> r is Ok,
        r is Ok ==> r->Ok_0@ == parse_workdir_spec(raw@)->Ok_0,
        r is Err ==> r->Err_0@ == parse_workdir_spec(raw@)->Err_0,
{
    proof {
        reveal_strlit("glob(");
        assert(("glob(")@ =~= glob_prefix());
    }
    if str_starts_with(raw, "glob(") {
        parse_glob_expression(raw)
    } else {
        Ok(WorkDirExpression::Path(raw.to_owned()))
    }
}

/// The raw string a workdir expression re-displays as: a path is its own
/// text, a glob filter is rebuilt from its patterns.
pub open spec fn display_spec(e: WorkDirExpressionView) -> Seq<char> {
    match e {
        WorkDirExpressionView::Path(p) => p,
        WorkDirExpressionView::Glob(GlobExpressionView::Single(p)) => glob_quote_prefix() + p
            + seq!['"', ')'],
        WorkDirExpressionView::Glob(GlobExpressionView::SingleWithExclude(p, q)) =>
            glob_quote_prefix() + p + seq!['"', ',', ' ', '"'] + q + seq!['"', ')'],
    }
}

impl WorkDirExpression {
    /// Re-displays the expression as a raw configuration string.
    pub fn display_string(&self) -> (r: String)
        ensures
            r@ == display_spec(self@),
    {
        proof {
            reveal_strlit("glob(\"");
            reveal_strlit("\")");
            reveal_strlit("\", \"");
            assert(("glob(\"")@ =~= glob_quote_prefix());
            assert(("\")")@ =~= seq!['"', ')']);
            assert(("\", \"")@ =~= seq!['"', ',', ' ', '"']);
        }
        match self {
            WorkDirExpression::Path(p) => p.clone(),
            WorkDirExpression::Glob(GlobExpression::Single(p)) => {
                let mut s = String::from_str("glob(\"");
                s.append(p.as_str());
                s.append("\")");
                s
            },
            WorkDirExpression::Glob(GlobExpression::SingleWithExclude(p, q)) => {
                let mut s = String::from_str("glob(\"");
                s.append(p.as_str());
                s.append("\", \"");
                s.append(q.as_str());
                s.append("\")");
                s
            },
        }
    }
}

} // verus!
