//! The two pattern engines the library leans on: glob matching of tree keys
//! and regex substitution in file contents. Each outside call sits behind a
//! trusted wrapper; what it computes is named by an uninterpreted spec
//! function of the call's arguments.

use vstd::prelude::*;

verus! {

/// Whether `p` is a syntactically valid glob pattern, that is, whether
/// `glob::Pattern::new` accepts it.
pub uninterp spec fn glob_valid(p: Seq<char>) -> bool;

/// Whether the glob pattern `p` matches the whole path `s`, as decided by
/// `glob::Pattern::matches` with the default match options.
pub uninterp spec fn glob_match(p: Seq<char>, s: Seq<char>) -> bool;

/// Whether `p` is a syntactically valid regular expression, that is, whether
/// `regex::Regex::new` accepts it.
pub uninterp spec fn regex_valid(p: Seq<char>) -> bool;

/// The text obtained from `s` by replacing every non-overlapping match of the
/// regex `p` with the literal `rep`, as computed by `regex::Regex::replace_all`
/// with `regex::NoExpand`.
pub uninterp spec fn regex_replace(p: Seq<char>, s: Seq<char>, rep: Seq<char>) -> Seq<char>;

/// Relies on `glob::Pattern::new`: compiling a pattern either succeeds or
/// reports a syntax error, from the pattern string alone.
#[verifier::external_body]
pub(crate) fn glob_pattern_ok(p: &str) -> (r: bool)
    ensures
        r == glob_valid(p@),
{
    glob::Pattern::new(p).is_ok()
}

/// Relies on `glob::Pattern::new` and `glob::Pattern::matches`: whether a
/// compiled pattern matches a path depends on the pattern and path strings
/// alone.
#[verifier::external_body]
pub(crate) fn glob_pattern_matches(p: &str, s: &str) -> (r: bool)
    requires
        glob_valid(p@),
    ensures
        r == glob_match(p@, s@),
{
    match glob::Pattern::new(p) {
        Ok(pattern) => pattern.matches(s),
        Err(_) => false,
    }
}

/// Relies on `regex::Regex::new`: compiling a regex either succeeds or
/// reports a syntax error, from the pattern string alone.
#[verifier::external_body]
pub(crate) fn regex_pattern_ok(p: &str) -> (r: bool)
    ensures
        r == regex_valid(p@),
{
    regex::Regex::new(p).is_ok()
}

/// Relies on `regex::Regex::new` and `regex::Regex::replace_all`: with
/// `regex::NoExpand` every non-overlapping match of the regex in `s` is
/// replaced by the literal `rep`, from the three strings alone.
#[verifier::external_body]
pub(crate) fn regex_replace_all(p: &str, s: &str, rep: &str) -> (r: String)
    requires
        regex_valid(p@),
    ensures
        r@ == regex_replace(p@, s@, rep@),
{
    match regex::Regex::new(p) {
        Ok(re) => re.replace_all(s, regex::NoExpand(rep)).into_owned(),
        Err(_) => s.to_owned(),
    }
}

} // verus!
