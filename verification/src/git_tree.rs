//! The tree model and the engine that works on it: a flat, insertion-ordered
//! mapping from normalized relative path to file node, with the glob-based
//! filter, the move/replace transformation engine and the tree differ.
//!
//! Keys are unique; iteration order is the insertion order, so every
//! operation here is a deterministic function of its inputs. Where a filter
//! or a transformation would make two entries collide on one key, the engine
//! raises a typed error instead of silently overwriting either entry.

use vstd::prelude::*;
use vstd::string::StrSliceExecFns;
use vstd::string::StringExecFns;

use crate::event::Event;
use crate::event::EventView;
use crate::expr::glob_expression_valid;
use crate::expr::GlobExpression;
use crate::expr::GlobExpressionView;
use crate::expr::WorkDirExpression;
use crate::expr::WorkDirExpressionView;
use crate::pattern::glob_match;
use crate::pattern::glob_valid;
use crate::pattern::glob_pattern_matches;
use crate::pattern::glob_pattern_ok;
use crate::pattern::regex_pattern_ok;
use crate::pattern::regex_replace;
use crate::pattern::regex_valid;
use crate::text::starts_with;
use crate::text::str_skip;
use crate::text::str_starts_with;
use crate::transform::Transformation;
use crate::transform::TransformationView;

verus! {

/// One file of a tree: its content, if any, and its remote identity.
#[derive(Debug, PartialEq)]
pub struct Node {
    pub path: String,
    pub content: Option<String>,
    pub git_url: String,
    pub sha: String,
}

/// Mathematical image of a [`Node`].
pub ghost struct NodeView {
    pub path: Seq<char>,
    pub content: Option<Seq<char>>,
    pub git_url: Seq<char>,
    pub sha: Seq<char>,
}

impl View for Node {
    type V = NodeView;

    open spec fn view(&self) -> NodeView {
        NodeView {
            path: self.path@,
            content: match self.content {
                Some(c) => Some(c@),
                None => None,
            },
            git_url: self.git_url@,
            sha: self.sha@,
        }
    }
}

impl Clone for Node {
    fn clone(&self) -> (r: Self)
        ensures
            r@ == self@,
    {
        Node {
            path: self.path.clone(),
            content: match &self.content {
                Some(c) => Some(c.clone()),
                None => None,
            },
            git_url: self.git_url.clone(),
            sha: self.sha.clone(),
        }
    }
}

/// One key/node pair of a tree.
#[derive(Debug, Clone, PartialEq)]
pub struct TreeEntry {
    pub key: String,
    pub node: Node,
}

/// Mathematical image of a [`TreeEntry`].
pub ghost struct TreeEntryView {
    pub key: Seq<char>,
    pub node: NodeView,
}

impl View for TreeEntry {
    type V = TreeEntryView;

    open spec fn view(&self) -> TreeEntryView {
        TreeEntryView { key: self.key@, node: self.node@ }
    }
}

/// An engine invariant violation, surfaced as a typed error rather than a
/// silent overwrite.
#[derive(Debug, Clone, PartialEq)]
pub enum EngineError {
    /// Two retained entries were about to land on the same key.
    DuplicateKey(String),
    /// A filter reached the engine with a glob pattern its engine rejects.
    InvalidGlobPattern(String),
    /// A replace rule reached the engine with a regex its engine rejects.
    InvalidRegexPattern(String),
}

/// Mathematical image of an [`EngineError`].
pub ghost enum EngineErrorView {
    DuplicateKey(Seq<char>),
    InvalidGlobPattern(Seq<char>),
    InvalidRegexPattern(Seq<char>),
}

impl View for EngineError {
    type V = EngineErrorView;

    open spec fn view(&self) -> EngineErrorView {
        match self {
            EngineError::DuplicateKey(k) => EngineErrorView::DuplicateKey(k@),
            EngineError::InvalidGlobPattern(p) => EngineErrorView::InvalidGlobPattern(p@),
            EngineError::InvalidRegexPattern(p) => EngineErrorView::InvalidRegexPattern(p@),
        }
    }
}

/// Index of the first entry keyed `k`, or `s.len()` when no entry is.
pub open spec fn key_index(s: Seq<TreeEntryView>, k: Seq<char>) -> int
    decreases s.len(),
{
    if s.len() == 0 {
        0
    } else if s[0].key == k {
        0
    } else {
        1 + key_index(s.drop_first(), k)
    }
}

/// Whether some entry is keyed `k`.
pub open spec fn contains_key(s: Seq<TreeEntryView>, k: Seq<char>) -> bool {
    key_index(s, k) < s.len()
}

/// The node of the first entry keyed `k`, if any.
pub open spec fn lookup(s: Seq<TreeEntryView>, k: Seq<char>) -> Option<NodeView> {
    if contains_key(s, k) {
        Some(s[key_index(s, k)].node)
    } else {
        None
    }
}

/// No two entries share a key.
pub open spec fn unique_keys(s: Seq<TreeEntryView>) -> bool {
    forall|i: int, j: int| 0 <= i < j < s.len() ==> s[i].key != s[j].key
}

/// `key_index` is the index of a matching entry, and nothing before it
/// matches.
pub proof fn lemma_key_index(s: Seq<TreeEntryView>, k: Seq<char>)
    ensures
        0 <= key_index(s, k) <= s.len(),
        contains_key(s, k) ==> s[key_index(s, k)].key == k,
        forall|j: int| 0 <= j < key_index(s, k) ==> s[j].key != k,
        !contains_key(s, k) ==> forall|j: int| 0 <= j < s.len() ==> s[j].key != k,
    decreases s.len(),
{
    if s.len() > 0 && s[0].key != k {
        lemma_key_index(s.drop_first(), k);
        assert forall|j: int| 0 <= j < key_index(s, k) implies s[j].key != k by {
            if j > 0 {
                assert(s.drop_first()[j - 1].key != k);
            }
        }
    }
}

/// Whether the filter retains an entry keyed `key`: the include pattern must
/// match, and the exclude pattern, when present, must not. Matching is
/// case-sensitive; exclusion is only ever evaluated on included entries.
pub open spec fn matches_glob(g: GlobExpressionView, key: Seq<char>) -> bool {
    match g {
        GlobExpressionView::Single(p) => glob_match(p, key),
        GlobExpressionView::SingleWithExclude(p, q) => glob_match(p, key) && !glob_match(q, key),
    }
}

/// `key` with a literal `root + "/"` prefix stripped once, if present; an
/// empty root strips nothing from a normalized key.
pub open spec fn strip_root(root: Seq<char>, key: Seq<char>) -> Seq<char> {
    let p = root.push('/');
    if starts_with(key, p) {
        key.skip(p.len() as int)
    } else {
        key
    }
}

/// The entries a glob filter retains, in order, their keys re-rooted.
pub open spec fn filter_entries(
    s: Seq<TreeEntryView>,
    g: GlobExpressionView,
    root: Seq<char>,
) -> Seq<TreeEntryView>
    decreases s.len(),
{
    if s.len() == 0 {
        Seq::empty()
    } else {
        let rest = filter_entries(s.drop_last(), g, root);
        if matches_glob(g, s.last().key) {
            rest.push(TreeEntryView { key: strip_root(root, s.last().key), node: s.last().node })
        } else {
            rest
        }
    }
}

/// The key of the first entry that repeats an earlier entry's key, scanning
/// forward; meaningful only when some key repeats.
pub open spec fn first_dup_key(s: Seq<TreeEntryView>) -> Seq<char>
    recommends
        !unique_keys(s),
    decreases s.len(),
{
    if s.len() == 0 {
        Seq::empty()
    } else if unique_keys(s.drop_last()) {
        s.last().key
    } else {
        first_dup_key(s.drop_last())
    }
}

/// Appending to a sequence that already repeats a key keeps the first
/// repeated key what it was.
proof fn lemma_dup_push(s: Seq<TreeEntryView>, e: TreeEntryView)
    requires
        !unique_keys(s),
    ensures
        !unique_keys(s.push(e)),
        first_dup_key(s.push(e)) == first_dup_key(s),
{
    let (i0, j0): (int, int) = choose|i0: int, j0: int|
        0 <= i0 < j0 < s.len() && s[i0].key == s[j0].key;
    assert(s.push(e)[i0].key == s.push(e)[j0].key);
    assert(s.push(e).drop_last() =~= s);
}

/// Once some prefix of the input makes the filter output repeat a key, the
/// whole input does, with the same first repeated key.
proof fn lemma_filter_dup_persists(
    s: Seq<TreeEntryView>,
    g: GlobExpressionView,
    root: Seq<char>,
    j: int,
)
    requires
        0 <= j <= s.len(),
        !unique_keys(filter_entries(s.take(j), g, root)),
    ensures
        !unique_keys(filter_entries(s, g, root)),
        first_dup_key(filter_entries(s, g, root)) == first_dup_key(filter_entries(s.take(j), g, root)),
    decreases s.len() - j,
{
    if j < s.len() {
        assert(s.take(j + 1).drop_last() =~= s.take(j));
        assert(s.take(j + 1).last() == s[j]);
        if matches_glob(g, s[j].key) {
            lemma_dup_push(
                filter_entries(s.take(j), g, root),
                TreeEntryView { key: strip_root(root, s[j].key), node: s[j].node },
            );
        }
        lemma_filter_dup_persists(s, g, root, j + 1);
    } else {
        assert(s.take(j) =~= s);
    }
}

/// The pattern a glob filter is rejected for: the include pattern when it is
/// invalid, else the exclude pattern.
pub open spec fn glob_error_pattern(g: GlobExpressionView) -> Seq<char> {
    match g {
        GlobExpressionView::Single(p) => p,
        GlobExpressionView::SingleWithExclude(p, q) => if !glob_valid(p) {
            p
        } else {
            q
        },
    }
}

/// What filtering a tree yields. A literal path selector passes the tree
/// through unchanged. A glob filter with valid patterns retains exactly the
/// matching entries, re-rooted, unless two retained entries collide on one
/// key, which is a `DuplicateKey` error; invalid patterns are an
/// `InvalidGlobPattern` error.
pub open spec fn transform_tree_spec(
    s: Seq<TreeEntryView>,
    e: WorkDirExpressionView,
    root: Seq<char>,
) -> Result<Seq<TreeEntryView>, EngineErrorView> {
    match e {
        WorkDirExpressionView::Path(_) => Ok(s),
        WorkDirExpressionView::Glob(g) => if !glob_expression_valid(g) {
            Err(EngineErrorView::InvalidGlobPattern(glob_error_pattern(g)))
        } else {
            let f = filter_entries(s, g, root);
            if unique_keys(f) {
                Ok(f)
            } else {
                Err(EngineErrorView::DuplicateKey(first_dup_key(f)))
            }
        },
    }
}

/// Whether a move rule rewrites `key`: an empty `before` prefix matches every
/// path; a non-empty one matches only on a path-segment boundary, that is,
/// when `before + "/"` is a literal prefix of the path.
pub open spec fn move_applies(before: Seq<char>, key: Seq<char>) -> bool {
    before.len() == 0 || starts_with(key, before.push('/'))
}

/// The path a matching move rule rewrites `key` to: `after + "/" + suffix`,
/// where the suffix is the path with the `before + "/"` prefix removed (the
/// whole path when `before` is empty).
pub open spec fn move_result(before: Seq<char>, after: Seq<char>, key: Seq<char>) -> Seq<char> {
    let suffix = if before.len() == 0 {
        key
    } else {
        key.skip(before.len() as int + 1)
    };
    after + seq!['/'] + suffix
}

/// The key an entry lands on after the whole rule list is scanned, in order:
/// every matching move rewrites the key computed from the original path, so
/// the last matching move wins; an entry no move matches keeps its original
/// path.
pub open spec fn moved_key(ts: Seq<TransformationView>, key: Seq<char>) -> Seq<char>
    decreases ts.len(),
{
    if ts.len() == 0 {
        key
    } else {
        match ts.last() {
            TransformationView::Move { before, after } => if move_applies(before, key) {
                move_result(before, after, key)
            } else {
                moved_key(ts.drop_last(), key)
            },
            TransformationView::Replace { .. } => moved_key(ts.drop_last(), key),
        }
    }
}

/// One rule applied to a content text: a replace rule substitutes every
/// non-overlapping regex match with its literal replacement, a move rule
/// leaves content alone.
pub open spec fn replace_one(t: TransformationView, text: Seq<char>) -> Seq<char> {
    match t {
        TransformationView::Replace { before, after } => regex_replace(before, text, after),
        TransformationView::Move { .. } => text,
    }
}

/// A content text after the whole rule list is applied, in order, each
/// replace rule working on the previous result.
pub open spec fn replaced_text(ts: Seq<TransformationView>, text: Seq<char>) -> Seq<char>
    decreases ts.len(),
{
    if ts.len() == 0 {
        text
    } else {
        replace_one(ts.last(), replaced_text(ts.drop_last(), text))
    }
}

/// Absent content stays absent; present content runs through the replace
/// rules.
pub open spec fn replaced_content(
    ts: Seq<TransformationView>,
    c: Option<Seq<char>>,
) -> Option<Seq<char>> {
    match c {
        None => None,
        Some(t) => Some(replaced_text(ts, t)),
    }
}

/// One entry after the rule list: its key moved, its content replaced; the
/// node's own path and remote identity are untouched.
pub open spec fn transform_entry(ts: Seq<TransformationView>, e: TreeEntryView) -> TreeEntryView {
    TreeEntryView {
        key: moved_key(ts, e.key),
        node: NodeView {
            path: e.node.path,
            content: replaced_content(ts, e.node.content),
            git_url: e.node.git_url,
            sha: e.node.sha,
        },
    }
}

/// Every entry after the rule list, in order.
pub open spec fn transformed_entries(
    ts: Seq<TransformationView>,
    s: Seq<TreeEntryView>,
) -> Seq<TreeEntryView> {
    s.map_values(|e: TreeEntryView| transform_entry(ts, e))
}

/// Whether one rule's regex, if it is a replace rule, is valid.
pub open spec fn rule_regex_valid(t: TransformationView) -> bool {
    match t {
        TransformationView::Replace { before, .. } => regex_valid(before),
        TransformationView::Move { .. } => true,
    }
}

/// Every replace rule carries a valid regex.
pub open spec fn replaces_valid(ts: Seq<TransformationView>) -> bool {
    forall|i: int| 0 <= i < ts.len() ==> rule_regex_valid(#[trigger] ts[i])
}

/// The first invalid regex among the replace rules, scanning forward;
/// meaningful only when one is invalid.
pub open spec fn first_invalid_regex(ts: Seq<TransformationView>) -> Seq<char>
    recommends
        !replaces_valid(ts),
    decreases ts.len(),
{
    if ts.len() == 0 {
        Seq::empty()
    } else {
        match ts[0] {
            TransformationView::Replace { before, .. } => if !regex_valid(before) {
                before
            } else {
                first_invalid_regex(ts.drop_first())
            },
            TransformationView::Move { .. } => first_invalid_regex(ts.drop_first()),
        }
    }
}

/// When every rule before position `i` carries a valid regex and the rule at
/// `i` does not, that rule's regex is the first invalid one.
proof fn lemma_first_invalid_at(ts: Seq<TransformationView>, i: int)
    requires
        0 <= i < ts.len(),
        forall|j: int| 0 <= j < i ==> rule_regex_valid(#[trigger] ts[j]),
        ts[i] matches TransformationView::Replace { before, .. } && !regex_valid(before),
    ensures
        !replaces_valid(ts),
        ts[i] matches TransformationView::Replace { before, .. } && first_invalid_regex(ts)
            == before,
    decreases i,
{
    if i > 0 {
        assert forall|j: int| 0 <= j < i - 1 implies rule_regex_valid(
            #[trigger] ts.drop_first()[j],
        ) by {
            assert(ts.drop_first()[j] == ts[j + 1]);
        }
        assert(ts.drop_first()[i - 1] == ts[i]);
        lemma_first_invalid_at(ts.drop_first(), i - 1);
    }
}

/// What applying the rule list yields. Absent rules pass the tree through
/// unchanged. With rules present, every replace regex must be valid, else an
/// `InvalidRegexPattern` error; then every entry's key is moved and its
/// content replaced, unless two entries land on one key, which is a
/// `DuplicateKey` error.
pub open spec fn apply_transformations_spec(
    s: Seq<TreeEntryView>,
    ots: Option<Seq<TransformationView>>,
) -> Result<Seq<TreeEntryView>, EngineErrorView> {
    match ots {
        None => Ok(s),
        Some(ts) => if !replaces_valid(ts) {
            Err(EngineErrorView::InvalidRegexPattern(first_invalid_regex(ts)))
        } else {
            let m = transformed_entries(ts, s);
            if unique_keys(m) {
                Ok(m)
            } else {
                Err(EngineErrorView::DuplicateKey(first_dup_key(m)))
            }
        },
    }
}

/// Once some prefix of the input makes the transformed output repeat a key,
/// the whole input does, with the same first repeated key.
proof fn lemma_transformed_dup_persists(s: Seq<TreeEntryView>, ts: Seq<TransformationView>, j: int)
    requires
        0 <= j <= s.len(),
        !unique_keys(transformed_entries(ts, s.take(j))),
    ensures
        !unique_keys(transformed_entries(ts, s)),
        first_dup_key(transformed_entries(ts, s)) == first_dup_key(
            transformed_entries(ts, s.take(j)),
        ),
    decreases s.len() - j,
{
    if j < s.len() {
        assert(transformed_entries(ts, s.take(j + 1)) =~= transformed_entries(
            ts,
            s.take(j),
        ).push(transform_entry(ts, s[j])));
        lemma_dup_push(transformed_entries(ts, s.take(j)), transform_entry(ts, s[j]));
        lemma_transformed_dup_persists(s, ts, j + 1);
    } else {
        assert(s.take(j) =~= s);
    }
}

/// The views of an event sequence, elementwise.
pub open spec fn events_view(s: Seq<Event>) -> Seq<EventView> {
    s.map_values(|e: Event| e@)
}

/// The event one source entry yields: an `Update` carrying the destination's
/// revision token when the destination holds the key, else a `Create`. The
/// content always comes from the source node; destination content is never
/// compared.
pub open spec fn source_event(dst: Seq<TreeEntryView>, e: TreeEntryView) -> EventView {
    match lookup(dst, e.key) {
        Some(d) => EventView::Update { path: e.key, content: e.node.content, sha: d.sha },
        None => EventView::Create { path: e.key, content: e.node.content },
    }
}

/// One event per source entry, in source order.
pub open spec fn source_events(
    src: Seq<TreeEntryView>,
    dst: Seq<TreeEntryView>,
) -> Seq<EventView> {
    src.map_values(|e: TreeEntryView| source_event(dst, e))
}

/// One `Delete` per destination entry whose key the source lacks, in
/// destination order.
pub open spec fn delete_events(src: Seq<TreeEntryView>, dst: Seq<TreeEntryView>) -> Seq<EventView>
    decreases dst.len(),
{
    if dst.len() == 0 {
        Seq::empty()
    } else {
        let rest = delete_events(src, dst.drop_last());
        if !contains_key(src, dst.last().key) {
            rest.push(EventView::Delete { path: dst.last().key, sha: dst.last().node.sha })
        } else {
            rest
        }
    }
}

/// Every event a diff of source against destination emits: presence is
/// compared by key alone. A key in both trees always yields an `Update`,
/// even with identical content; a key only in the source yields a `Create`;
/// a key only in the destination yields a `Delete`.
pub open spec fn diff_events(src: Seq<TreeEntryView>, dst: Seq<TreeEntryView>) -> Seq<EventView> {
    source_events(src, dst) + delete_events(src, dst)
}

/// A copy of an optional content string.
fn clone_opt_string(c: &Option<String>) -> (r: Option<String>)
    ensures
        ({
            match c {
                Some(s) => r matches Some(x) && x@ == s@,
                None => r is None,
            }
        }),
{
    match c {
        Some(s) => Some(s.clone()),
        None => None,
    }
}

/// `key` with a literal `root + "/"` prefix stripped once, if present.
fn strip_root_prefix(root: &str, key: &str) -> (r: String)
    ensures
        r@ == strip_root(root@, key@),
{
    proof {
        reveal_strlit("/");
    }
    let mut p = root.to_owned();
    p.append("/");
    proof {
        assert(p@ =~= root@.push('/'));
    }
    if str_starts_with(key, p.as_str()) {
        str_skip(key, p.as_str().unicode_len())
    } else {
        key.to_owned()
    }
}

/// A flat, insertion-ordered tree of unique keys.
#[derive(Debug, PartialEq)]
pub struct Tree {
    entries: Vec<TreeEntry>,
}

impl View for Tree {
    type V = Seq<TreeEntryView>;

    closed spec fn view(&self) -> Seq<TreeEntryView> {
        self.entries@.map_values(|e: TreeEntry| e@)
    }
}

impl Tree {
    /// The keys of this tree are unique.
    pub open spec fn well_formed(self) -> bool {
        unique_keys(self@)
    }

    /// The empty tree.
    pub fn new() -> (r: Tree)
        ensures
            r@ == Seq::<TreeEntryView>::empty(),
            r.well_formed(),
    {
        let r = Tree { entries: Vec::new() };
        proof {
            assert(r@ =~= Seq::<TreeEntryView>::empty());
        }
        r
    }

    /// How many entries the tree holds.
    pub fn len(&self) -> (r: usize)
        ensures
            r == self@.len(),
    {
        self.entries.len()
    }

    /// The entry at position `i`, in insertion order.
    pub fn entry_at(&self, i: usize) -> (r: &TreeEntry)
        requires
            i < self@.len(),
        ensures
            r@ == self@[i as int],
    {
        &self.entries[i]
    }

    /// Index of the first entry keyed `key`, or the length when absent.
    fn find_key(&self, key: &str) -> (r: usize)
        ensures
            r == key_index(self@, key@),
    {
        let ghost s = self@;
        let mut i: usize = 0;
        proof {
            assert(s.skip(0) =~= s);
        }
        while i < self.entries.len()
            invariant
                0 <= i <= self.entries.len(),
                s == self@,
                s.len() == self.entries.len(),
                key_index(s, key@) == i + key_index(s.skip(i as int), key@),
                forall|j: int| 0 <= j < i ==> s[j].key != key@,
            decreases self.entries.len() - i,
        {
            proof {
                assert(s.skip(i as int).drop_first() =~= s.skip(i as int + 1));
            }
            if crate::text::str_eq(self.entries[i].key.as_str(), key) {
                return i;
            }
            i += 1;
        }
        proof {
            assert(s.skip(s.len() as int) =~= Seq::<TreeEntryView>::empty());
        }
        i
    }

    /// Whether the tree holds an entry keyed `key`.
    pub fn contains_key(&self, key: &str) -> (r: bool)
        ensures
            r == contains_key(self@, key@),
    {
        self.find_key(key) < self.entries.len()
    }

    /// The node keyed `key`, if any.
    pub fn get(&self, key: &str) -> (r: Option<&Node>)
        ensures
            match r {
                Some(n) => lookup(self@, key@) == Some(n@),
                None => lookup(self@, key@) is None,
            },
    {
        let i = self.find_key(key);
        if i < self.entries.len() {
            Some(&self.entries[i].node)
        } else {
            None
        }
    }

    /// Maps `key` to `node`: replaces the first entry so keyed, in place, or
    /// appends a new entry. Keeps the tree well formed.
    pub fn insert(&mut self, key: String, node: Node)
        ensures
            contains_key(old(self)@, key@) ==> final(self)@ == old(self)@.update(
                key_index(old(self)@, key@),
                TreeEntryView { key: key@, node: node@ },
            ),
            !contains_key(old(self)@, key@) ==> final(self)@ == old(self)@.push(
                TreeEntryView { key: key@, node: node@ },
            ),
            old(self).well_formed() ==> final(self).well_formed(),
    {
        proof {
            lemma_key_index(old(self)@, key@);
        }
        let i = self.find_key(key.as_str());
        let entry = TreeEntry { key, node };
        if i < self.entries.len() {
            self.entries.remove(i);
            self.entries.insert(i, entry);
            proof {
                assert(self@ =~= old(self)@.update(
                    key_index(old(self)@, entry.key@),
                    entry@,
                ));
            }
        } else {
            self.entries.push(entry);
            proof {
                assert(self@ =~= old(self)@.push(entry@));
            }
        }
    }

    /// Filters this tree through a workdir expression, per
    /// [`transform_tree_spec`]: a literal path selector is a deliberate
    /// no-op, a glob filter retains exactly the matching entries with the
    /// `root_path + "/"` prefix stripped once from each retained key.
    #[verifier::loop_isolation(false)]
    pub fn transform_tree(self, origin_files_glob: &WorkDirExpression, root_path: &str) -> (r:
        Result<Tree, EngineError>)
        ensures
            transform_tree_spec(self@, origin_files_glob@, root_path@) is Ok <==> r is Ok,
            r is Ok ==> r->Ok_0@ == transform_tree_spec(self@, origin_files_glob@, root_path@)->Ok_0,
            r is Err ==> r->Err_0@ == transform_tree_spec(
                self@,
                origin_files_glob@,
                root_path@,
            )->Err_0,
            r is Ok && self.well_formed() ==> r->Ok_0.well_formed(),
    {
        let g = match origin_files_glob {
            WorkDirExpression::Path(_) => {
                return Ok(self);
            },
            WorkDirExpression::Glob(g) => g,
        };
        match g {
            GlobExpression::Single(p) => {
                if !glob_pattern_ok(p.as_str()) {
                    return Err(EngineError::InvalidGlobPattern(p.clone()));
                }
            },
            GlobExpression::SingleWithExclude(p, q) => {
                if !glob_pattern_ok(p.as_str()) {
                    return Err(EngineError::InvalidGlobPattern(p.clone()));
                }
                if !glob_pattern_ok(q.as_str()) {
                    return Err(EngineError::InvalidGlobPattern(q.clone()));
                }
            },
        }
        let ghost orig = self@;
        let ghost gv = g@;
        let entries = self.entries;
        let mut out = Tree::new();
        let n = entries.len();
        proof {
            assert(orig.take(0) =~= Seq::<TreeEntryView>::empty());
        }
        let mut i: usize = 0;
        while i < n
            invariant
                0 <= i <= n,
                n == entries.len(),
                orig == entries@.map_values(|e: TreeEntry| e@),
                gv == g@,
                glob_expression_valid(gv),
                out@ == filter_entries(orig.take(i as int), gv, root_path@),
                unique_keys(out@),
            decreases n - i,
        {
            let e = &entries[i];
            proof {
                assert(orig.take(i as int + 1).drop_last() =~= orig.take(i as int));
                assert(orig.take(i as int + 1).last() == orig[i as int]);
            }
            let matched = match g {
                GlobExpression::Single(p) => glob_pattern_matches(p.as_str(), e.key.as_str()),
                GlobExpression::SingleWithExclude(p, q) => glob_pattern_matches(
                    p.as_str(),
                    e.key.as_str(),
                ) && !glob_pattern_matches(q.as_str(), e.key.as_str()),
            };
            if matched {
                let stripped = strip_root_prefix(root_path, e.key.as_str());
                if out.contains_key(stripped.as_str()) {
                    proof {
                        lemma_key_index(out@, stripped@);
                        let fj1 = filter_entries(orig.take(i as int + 1), gv, root_path@);
                        assert(fj1 == out@.push(
                            TreeEntryView { key: stripped@, node: orig[i as int].node },
                        ));
                        assert(fj1[key_index(out@, stripped@)].key == fj1[out@.len() as int].key);
                        assert(!unique_keys(fj1));
                        assert(fj1.drop_last() =~= out@);
                        assert(first_dup_key(fj1) == stripped@);
                        lemma_filter_dup_persists(orig, gv, root_path@, i as int + 1);
                    }
                    return Err(EngineError::DuplicateKey(stripped));
                }
                out.insert(stripped, e.node.clone());
            }
            i += 1;
        }
        proof {
            assert(orig.take(n as int) =~= orig);
        }
        Ok(out)
    }

    /// Applies the compiled rule list to this tree, per
    /// [`apply_transformations_spec`]. Every matching move rewrites an
    /// entry's key from its original path, so the last matching move wins;
    /// an entry no move matches keeps its original path rather than
    /// collapsing onto the empty key. Replace rules rewrite content only.
    #[verifier::loop_isolation(false)]
    pub fn apply_transformations(self, transformations: &Option<Vec<Transformation>>) -> (r: Result<
        Tree,
        EngineError,
    >)
        ensures
            ({
                let spec_r = apply_transformations_spec(
                    self@,
                    match transformations {
                        Some(ts) => Some(ts@.map_values(|t: Transformation| t@)),
                        None => None,
                    },
                );
                &&& spec_r is Ok <==> r is Ok
                &&& r is Ok ==> r->Ok_0@ == spec_r->Ok_0
                &&& r is Err ==> r->Err_0@ == spec_r->Err_0
                &&& r is Ok && self.well_formed() ==> r->Ok_0.well_formed()
            }),
    {
        let ts = match transformations {
            None => {
                return Ok(self);
            },
            Some(ts) => ts,
        };
        let ghost tv = ts@.map_values(|t: Transformation| t@);
        let mut k: usize = 0;
        while k < ts.len()
            invariant
                0 <= k <= ts.len(),
                forall|j: int| 0 <= j < k ==> rule_regex_valid(#[trigger] tv[j]),
            decreases ts.len() - k,
        {
            match &ts[k] {
                Transformation::Replace { args } => {
                    if !regex_pattern_ok(args.before.0.as_str()) {
                        proof {
                            lemma_first_invalid_at(tv, k as int);
                        }
                        return Err(EngineError::InvalidRegexPattern(args.before.0.clone()));
                    }
                },
                Transformation::Move { .. } => {},
            }
            k += 1;
        }
        let ghost orig = self@;
        let entries = self.entries;
        let mut out = Tree::new();
        let n = entries.len();
        proof {
            assert(orig.take(0) =~= Seq::<TreeEntryView>::empty());
        }
        let mut i: usize = 0;
        while i < n
            invariant
                0 <= i <= n,
                out@ == transformed_entries(tv, orig.take(i as int)),
                unique_keys(out@),
            decreases n - i,
        {
            let e = &entries[i];
            let new_key = moved_key_of(ts, e.key.as_str());
            let new_content: Option<String> = match &e.node.content {
                None => None,
                Some(c) => Some(replaced_text_of(ts, c.as_str())),
            };
            let new_node = Node {
                path: e.node.path.clone(),
                content: new_content,
                git_url: e.node.git_url.clone(),
                sha: e.node.sha.clone(),
            };
            proof {
                assert(orig[i as int] == e@);
                assert(TreeEntryView { key: new_key@, node: new_node@ } == transform_entry(
                    tv,
                    orig[i as int],
                ));
                assert(transformed_entries(tv, orig.take(i as int + 1)) =~= transformed_entries(
                    tv,
                    orig.take(i as int),
                ).push(transform_entry(tv, orig[i as int])));
            }
            if out.contains_key(new_key.as_str()) {
                proof {
                    lemma_key_index(out@, new_key@);
                    let m1 = transformed_entries(tv, orig.take(i as int + 1));
                    assert(m1[key_index(out@, new_key@)].key == m1[out@.len() as int].key);
                    assert(!unique_keys(m1));
                    assert(m1.drop_last() =~= out@);
                    assert(first_dup_key(m1) == new_key@);
                    lemma_transformed_dup_persists(orig, tv, i as int + 1);
                }
                return Err(EngineError::DuplicateKey(new_key));
            }
            out.insert(new_key, new_node);
            i += 1;
        }
        proof {
            assert(orig.take(n as int) =~= orig);
        }
        Ok(out)
    }

    /// Diffs this tree, as the transformed source, against a destination
    /// tree, per [`diff_events`]: an `Update` for every source key the
    /// destination also holds, a `Create` for every source key it lacks —
    /// in source order — then a `Delete` for every destination key the
    /// source lacks, in destination order.
    #[verifier::loop_isolation(false)]
    pub fn generate_events(&self, destination_tree: &Tree) -> (events: Vec<Event>)
        ensures
            events_view(events@) == diff_events(self@, destination_tree@),
    {
        let ghost src = self@;
        let ghost dst = destination_tree@;
        let mut events: Vec<Event> = Vec::new();
        proof {
            assert(events_view(events@) =~= source_events(src.take(0), dst));
        }
        let n = self.entries.len();
        let mut i: usize = 0;
        while i < n
            invariant
                0 <= i <= n,
                events_view(events@) == source_events(src.take(i as int), dst),
            decreases n - i,
        {
            let e = &self.entries[i];
            proof {
                assert(src[i as int] == e@);
            }
            let event = match destination_tree.get(e.key.as_str()) {
                Some(destination_node) => Event::Update {
                    sha: destination_node.sha.clone(),
                    path: e.key.clone(),
                    content: clone_opt_string(&e.node.content),
                },
                None => Event::Create {
                    path: e.key.clone(),
                    content: clone_opt_string(&e.node.content),
                },
            };
            proof {
                assert(event@ == source_event(dst, src[i as int]));
            }
            let ghost prev = events@;
            events.push(event);
            proof {
                assert(events@ == prev.push(event));
                assert forall|k: int| 0 <= k < events@.len() implies #[trigger] events_view(events@)[k] == source_events(src.take(i as int + 1), dst)[k] by {
                    assert(src.take(i as int + 1)[k] == src[k]);
                    if k < i {
                        assert(events@[k] == prev[k]);
                        assert(events_view(prev)[k] == prev[k]@);
                        assert(src.take(i as int)[k] == src[k]);
                    }
                }
                assert(events_view(events@) =~= source_events(
                    src.take(i as int + 1),
                    dst,
                ));
            }
            i += 1;
        }
        proof {
            assert(src.take(n as int) =~= src);
            assert(dst.take(0) =~= Seq::<TreeEntryView>::empty());
            assert(events_view(events@) =~= source_events(src, dst) + delete_events(
                src,
                dst.take(0),
            ));
        }
        let m = destination_tree.entries.len();
        let mut j: usize = 0;
        while j < m
            invariant
                0 <= j <= m,
                events_view(events@) == source_events(src, dst) + delete_events(
                    src,
                    dst.take(j as int),
                ),
            decreases m - j,
        {
            let d = &destination_tree.entries[j];
            proof {
                assert(dst[j as int] == d@);
                assert(dst.take(j as int + 1).drop_last() =~= dst.take(j as int));
                assert(dst.take(j as int + 1).last() == dst[j as int]);
            }
            if !self.contains_key(d.key.as_str()) {
                let del_event = Event::Delete { path: d.key.clone(), sha: d.node.sha.clone() };
                let ghost prev = events@;
                events.push(del_event);
                proof {
                    assert(events@ == prev.push(del_event));
                    assert forall|k: int| 0 <= k < events@.len() implies #[trigger] events_view(
                        events@,
                    )[k] == (source_events(src, dst) + delete_events(src, dst.take(j as int + 1)))[k]
                        by {
                        if k < prev.len() {
                            assert(events@[k] == prev[k]);
                            assert(events_view(prev)[k] == prev[k]@);
                        }
                    }
                    assert(events_view(events@) =~= source_events(src, dst)
                        + delete_events(src, dst.take(j as int + 1)));
                }
            }
            j += 1;
        }
        proof {
            assert(dst.take(m as int) =~= dst);
        }
        events
    }
}

/// The key the rule list lands `key` on, scanning every rule in order; the
/// last matching move wins, and each rewrite works from the original path.
#[verifier::loop_isolation(false)]
fn moved_key_of(ts: &Vec<Transformation>, key: &str) -> (r: String)
    ensures
        r@ == moved_key(ts@.map_values(|t: Transformation| t@), key@),
{
    proof {
        reveal_strlit("/");
    }
    let ghost tv = ts@.map_values(|t: Transformation| t@);
    let klen = key.unicode_len();
    let mut candidate = key.to_owned();
    proof {
        assert(tv.take(0) =~= Seq::<TransformationView>::empty());
    }
    let mut k: usize = 0;
    while k < ts.len()
        invariant
            0 <= k <= ts.len(),
            candidate@ == moved_key(tv.take(k as int), key@),
        decreases ts.len() - k,
    {
        proof {
            assert(tv.take(k as int + 1).drop_last() =~= tv.take(k as int));
            assert(tv.take(k as int + 1).last() == tv[k as int]);
        }
        match &ts[k] {
            Transformation::Move { args } => {
                let blen = args.before.as_str().unicode_len();
                let applies = if blen == 0 {
                    true
                } else {
                    let mut p = args.before.clone();
                    p.append("/");
                    proof {
                        assert(p@ =~= args.before@.push('/'));
                    }
                    str_starts_with(key, p.as_str())
                };
                if applies {
                    let suffix: String = if blen == 0 {
                        key.to_owned()
                    } else {
                        str_skip(key, blen + 1)
                    };
                    let mut s = args.after.clone();
                    s.append("/");
                    s.append(suffix.as_str());
                    proof {
                        assert(s@ =~= move_result(args.before@, args.after@, key@));
                    }
                    candidate = s;
                }
            },
            Transformation::Replace { .. } => {},
        }
        k += 1;
    }
    proof {
        assert(tv.take(ts@.len() as int) =~= tv);
    }
    candidate
}

/// A content text after the whole rule list, each replace rule working on
/// the previous result.
#[verifier::loop_isolation(false)]
fn replaced_text_of(ts: &Vec<Transformation>, text: &str) -> (r: String)
    requires
        replaces_valid(ts@.map_values(|t: Transformation| t@)),
    ensures
        r@ == replaced_text(ts@.map_values(|t: Transformation| t@), text@),
{
    let ghost tv = ts@.map_values(|t: Transformation| t@);
    let mut acc = text.to_owned();
    proof {
        assert(tv.take(0) =~= Seq::<TransformationView>::empty());
    }
    let mut k: usize = 0;
    while k < ts.len()
        invariant
            0 <= k <= ts.len(),
            acc@ == replaced_text(tv.take(k as int), text@),
        decreases ts.len() - k,
    {
        proof {
            assert(tv.take(k as int + 1).drop_last() =~= tv.take(k as int));
            assert(tv.take(k as int + 1).last() == tv[k as int]);
        }
        match &ts[k] {
            Transformation::Replace { args } => {
                acc = crate::pattern::regex_replace_all(
                    args.before.0.as_str(),
                    acc.as_str(),
                    args.after.as_str(),
                );
            },
            Transformation::Move { .. } => {},
        }
        k += 1;
    }
    proof {
        assert(tv.take(ts@.len() as int) =~= tv);
    }
    acc
}

} // verus!
