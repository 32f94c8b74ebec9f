//! The engine's laws, stated once and proved from the contracts the public
//! functions carry: parsing round-trips literal selectors, filtering retains
//! exactly the matching entries, a path selector filters nothing, move rules
//! respect segment boundaries, and diffing a tree against itself yields one
//! update per key.

use vstd::prelude::*;

use crate::event::EventView;
use crate::expr::display_spec;
use crate::expr::glob_prefix;
use crate::expr::parse_workdir_spec;
use crate::expr::GlobExpressionView;
use crate::expr::WorkDirExpressionView;
use crate::git_tree::contains_key;
use crate::git_tree::delete_events;
use crate::git_tree::diff_events;
use crate::git_tree::filter_entries;
use crate::git_tree::key_index;
use crate::git_tree::lemma_key_index;
use crate::git_tree::lookup;
use crate::git_tree::matches_glob;
use crate::git_tree::move_result;
use crate::git_tree::moved_key;
use crate::git_tree::source_event;
use crate::git_tree::source_events;
use crate::git_tree::strip_root;
use crate::git_tree::transform_tree_spec;
use crate::git_tree::unique_keys;
use crate::git_tree::TreeEntryView;
use crate::pattern::glob_match;
use crate::text::starts_with;
use crate::transform::TransformationView;

verus! {

/// How appending one entry shifts the first index of a key.
proof fn lemma_key_index_push(s: Seq<TreeEntryView>, e: TreeEntryView, k: Seq<char>)
    ensures
        contains_key(s, k) ==> key_index(s.push(e), k) == key_index(s, k),
        !contains_key(s, k) && e.key == k ==> key_index(s.push(e), k) == s.len(),
        !contains_key(s, k) && e.key != k ==> key_index(s.push(e), k) == s.len() + 1,
        contains_key(s.push(e), k) <==> (contains_key(s, k) || e.key == k),
        lookup(s.push(e), k) == (if contains_key(s, k) {
            lookup(s, k)
        } else if e.key == k {
            Some(e.node)
        } else {
            None
        }),
    decreases s.len(),
{
    lemma_key_index(s, k);
    lemma_key_index(s.push(e), k);
    if s.len() == 0 {
        assert(s.push(e)[0] == e);
        assert(s.push(e).drop_first() =~= Seq::<TreeEntryView>::empty());
    } else {
        assert(s.push(e)[0] == s[0]);
        assert(s.push(e).drop_first() =~= s.drop_first().push(e));
        lemma_key_index_push(s.drop_first(), e, k);
    }
}

/// A glob filter of an already-rooted tree retains exactly the entries whose
/// keys it matches, with their nodes untouched: with an empty root prefix,
/// no normalized key is rewritten, so the filtered tree holds a key if and
/// only if the input holds it and the filter matches it.
pub proof fn lemma_filter_retains_exactly(t: Seq<TreeEntryView>, g: GlobExpressionView)
    requires
        unique_keys(t),
        forall|i: int| 0 <= i < t.len() ==> !starts_with(#[trigger] t[i].key, seq!['/']),
    ensures
        forall|k: Seq<char>|
            contains_key(#[trigger] filter_entries(t, g, Seq::empty()), k) <==> (contains_key(t, k)
                && matches_glob(g, k)),
        forall|k: Seq<char>|
            contains_key(filter_entries(t, g, Seq::empty()), k) ==> #[trigger] lookup(
                filter_entries(t, g, Seq::empty()),
                k,
            ) == lookup(t, k),
    decreases t.len(),
{
    let root = Seq::<char>::empty();
    let f = filter_entries(t, g, root);
    if t.len() > 0 {
        let t0 = t.drop_last();
        let last = t.last();
        assert forall|i: int| 0 <= i < t0.len() implies !starts_with(
            #[trigger] t0[i].key,
            seq!['/'],
        ) by {
            assert(t0[i] == t[i]);
        }
        lemma_filter_retains_exactly(t0, g);
        let f0 = filter_entries(t0, g, root);
        assert(root.push('/') =~= seq!['/']);
        assert(strip_root(root, last.key) == last.key);
        assert(t0.push(last) =~= t);
        assert forall|k: Seq<char>|
            (contains_key(#[trigger] filter_entries(t, g, Seq::empty()), k) <==> (contains_key(t, k)
                && matches_glob(g, k))) && (contains_key(filter_entries(t, g, Seq::empty()), k)
                ==> lookup(filter_entries(t, g, Seq::empty()), k) == lookup(t, k)) by {
            lemma_key_index_push(t0, last, k);
            if matches_glob(g, last.key) {
                assert(f == f0.push(TreeEntryView { key: last.key, node: last.node }));
                lemma_key_index_push(f0, TreeEntryView { key: last.key, node: last.node }, k);
            }
            if contains_key(t0, k) {
                lemma_key_index(t0, k);
            }
        }
    }
}

/// `filter(T, Include(p), "")` is exactly the subset of `T` whose keys
/// glob-match `p`.
pub proof fn lemma_filter_include_exact(t: Seq<TreeEntryView>, p: Seq<char>)
    requires
        unique_keys(t),
        forall|i: int| 0 <= i < t.len() ==> !starts_with(#[trigger] t[i].key, seq!['/']),
    ensures
        forall|k: Seq<char>|
            contains_key(
                #[trigger] filter_entries(t, GlobExpressionView::Single(p), Seq::empty()),
                k,
            ) <==> (contains_key(t, k) && glob_match(p, k)),
        forall|k: Seq<char>|
            contains_key(filter_entries(t, GlobExpressionView::Single(p), Seq::empty()), k)
                ==> #[trigger] lookup(
                filter_entries(t, GlobExpressionView::Single(p), Seq::empty()),
                k,
            ) == lookup(t, k),
{
    lemma_filter_retains_exactly(t, GlobExpressionView::Single(p));
}

/// `filter(T, IncludeExclude(p, q), "")` is `filter(T, Include(p), "")` with
/// every `q`-match removed: a subset, by keys and by nodes.
pub proof fn lemma_filter_exclude_subset(t: Seq<TreeEntryView>, p: Seq<char>, q: Seq<char>)
    requires
        unique_keys(t),
        forall|i: int| 0 <= i < t.len() ==> !starts_with(#[trigger] t[i].key, seq!['/']),
    ensures
        forall|k: Seq<char>|
            contains_key(
                #[trigger] filter_entries(
                    t,
                    GlobExpressionView::SingleWithExclude(p, q),
                    Seq::empty(),
                ),
                k,
            ) <==> (contains_key(
                filter_entries(t, GlobExpressionView::Single(p), Seq::empty()),
                k,
            ) && !glob_match(q, k)),
        forall|k: Seq<char>|
            contains_key(filter_entries(t, GlobExpressionView::SingleWithExclude(p, q), Seq::empty()), k)
                ==> #[trigger] lookup(
                filter_entries(t, GlobExpressionView::SingleWithExclude(p, q), Seq::empty()),
                k,
            ) == lookup(filter_entries(t, GlobExpressionView::Single(p), Seq::empty()), k),
{
    lemma_filter_retains_exactly(t, GlobExpressionView::SingleWithExclude(p, q));
    lemma_filter_retains_exactly(t, GlobExpressionView::Single(p));
    let f_ie = filter_entries(t, GlobExpressionView::SingleWithExclude(p, q), Seq::empty());
    let f_inc = filter_entries(t, GlobExpressionView::Single(p), Seq::empty());
    assert forall|k: Seq<char>|
        contains_key(#[trigger] filter_entries(t, GlobExpressionView::SingleWithExclude(p, q), Seq::empty()), k)
            <==> (contains_key(f_inc, k) && !glob_match(q, k)) by {
        assert(contains_key(f_ie, k) <==> (contains_key(t, k) && matches_glob(
            GlobExpressionView::SingleWithExclude(p, q),
            k,
        )));
        assert(contains_key(f_inc, k) <==> (contains_key(t, k) && matches_glob(
            GlobExpressionView::Single(p),
            k,
        )));
    }
}

/// Parsing round-trips literal selectors: any raw string not starting with
/// `glob(` parses to a path expression that re-displays as the same string.
pub proof fn lemma_parse_round_trips_literal(s: Seq<char>)
    requires
        !starts_with(s, glob_prefix()),
    ensures
        parse_workdir_spec(s) matches Ok(e) && display_spec(e) == s,
{
}

/// A literal path selector filters nothing: for every tree and root, the
/// filtered tree is the input tree.
pub proof fn lemma_filter_path_identity(t: Seq<TreeEntryView>, x: Seq<char>, root: Seq<char>)
    ensures
        transform_tree_spec(t, WorkDirExpressionView::Path(x), root) == Ok::<_, crate::git_tree::EngineErrorView>(t),
{
}

/// A move rule with a non-empty prefix never rewrites across a partial
/// segment: unless `before + "/"` is a literal prefix of the path, the path
/// is left alone.
pub proof fn lemma_move_segment_boundary(before: Seq<char>, after: Seq<char>, key: Seq<char>)
    requires
        before.len() > 0,
        !starts_with(key, before.push('/')),
    ensures
        moved_key(seq![TransformationView::Move { before, after }], key) == key,
{
    assert(seq![TransformationView::Move { before, after }].last() == TransformationView::Move {
        before,
        after,
    });
    assert(seq![TransformationView::Move { before, after }].drop_last() =~= Seq::<
        TransformationView,
    >::empty());
    assert(moved_key(Seq::<TransformationView>::empty(), key) == key);
}

/// A move rule whose prefix does match on a segment boundary re-roots the
/// path under `after`.
pub proof fn lemma_move_on_boundary(before: Seq<char>, after: Seq<char>, key: Seq<char>)
    requires
        before.len() == 0 || starts_with(key, before.push('/')),
    ensures
        moved_key(seq![TransformationView::Move { before, after }], key) == move_result(
            before,
            after,
            key,
        ),
{
}

/// Under unique keys, the first index of the key of entry `i` is `i` itself.
proof fn lemma_key_index_self(t: Seq<TreeEntryView>, i: int)
    requires
        unique_keys(t),
        0 <= i < t.len(),
    ensures
        key_index(t, t[i].key) == i,
        lookup(t, t[i].key) == Some(t[i].node),
{
    lemma_key_index(t, t[i].key);
}

/// Diffing a tree against itself deletes nothing.
proof fn lemma_delete_self(t: Seq<TreeEntryView>, j: int)
    requires
        unique_keys(t),
        0 <= j <= t.len(),
    ensures
        delete_events(t, t.take(j)) == Seq::<EventView>::empty(),
    decreases j,
{
    if j > 0 {
        assert(t.take(j).drop_last() =~= t.take(j - 1));
        assert(t.take(j).last() == t[j - 1]);
        lemma_key_index_self(t, j - 1);
        lemma_delete_self(t, j - 1);
    } else {
        assert(t.take(0) =~= Seq::<TreeEntryView>::empty());
    }
}

/// Diffing a tree against itself — revisions included — yields exactly one
/// update per entry, carrying that entry's content and revision, and no
/// create or delete.
pub proof fn lemma_diff_identical(t: Seq<TreeEntryView>)
    requires
        unique_keys(t),
    ensures
        diff_events(t, t).len() == t.len(),
        forall|i: int|
            0 <= i < t.len() ==> #[trigger] diff_events(t, t)[i] == (EventView::Update {
                path: t[i].key,
                content: t[i].node.content,
                sha: t[i].node.sha,
            }),
{
    lemma_delete_self(t, t.len() as int);
    assert(t.take(t.len() as int) =~= t);
    assert(diff_events(t, t) =~= source_events(t, t));
    assert forall|i: int| 0 <= i < t.len() implies #[trigger] diff_events(t, t)[i]
        == (EventView::Update {
        path: t[i].key,
        content: t[i].node.content,
        sha: t[i].node.sha,
    }) by {
        lemma_key_index_self(t, i);
        assert(source_events(t, t)[i] == source_event(t, t[i]));
    }
}

} // verus!
