//! Layout of the flattened tree: which entry is the last of its siblings,
//! and the box-drawing prefix in front of each name.

use super::{entry_models, EntryModel, TreeEntry};
use crate::text::{clone_opt_text, control_free, lemma_concat_control_free, opt_text};
use vstd::prelude::*;
use vstd::string::StringExecFns;

verus! {

/// What the walk found at one place, before the layout is computed.
#[derive(Debug, Clone, PartialEq)]
pub struct RawEntry {
    /// Nesting depth; the children of the root have depth 1.
    pub depth: usize,
    /// Display name.
    pub name: String,
    /// Full path.
    pub path: String,
    /// Whether the entry is a directory.
    pub is_dir: bool,
    /// Whether the entry is a symbolic link.
    pub is_symlink: bool,
    /// Where the link points, if the entry is a link.
    pub symlink_target: Option<String>,
    /// Why the entry could not be read, if it could not.
    pub error: Option<String>,
}

/// What a `RawEntry` holds, as plain values.
pub ghost struct RawModel {
    pub depth: usize,
    pub name: Seq<char>,
    pub path: Seq<char>,
    pub is_dir: bool,
    pub is_symlink: bool,
    pub symlink_target: Option<Seq<char>>,
    pub error: Option<Seq<char>>,
}

impl View for RawEntry {
    type V = RawModel;

    open spec fn view(&self) -> RawModel {
        RawModel {
            depth: self.depth,
            name: self.name@,
            path: self.path@,
            is_dir: self.is_dir,
            is_symlink: self.is_symlink,
            symlink_target: opt_text(self.symlink_target),
            error: opt_text(self.error),
        }
    }
}

/// The models of a list of raw entries, in order.
pub open spec fn raw_models(raw: Seq<RawEntry>) -> Seq<RawModel> {
    Seq::new(raw.len(), |i: int| raw[i]@)
}

/// The depths of the raw entries, in order.
pub open spec fn raw_depths(raw: Seq<RawModel>) -> Seq<usize> {
    Seq::new(raw.len(), |i: int| raw[i].depth)
}

/// The depth and last-sibling flag of each entry, in order: all that the
/// prefixes depend on.
pub open spec fn marks_of(entries: Seq<EntryModel>) -> Seq<(usize, bool)> {
    Seq::new(entries.len(), |i: int| (entries[i].depth, entries[i].is_last))
}

/// Entry `i` is the last of its siblings: no later entry has its depth
/// before the list ends or a shallower entry closes the group.
pub open spec fn is_last_at(depths: Seq<usize>, i: int) -> bool {
    !exists|j: int|
        i < j < depths.len() && #[trigger] depths[j] == depths[i] && forall|k: int|
            i < k < j ==> #[trigger] depths[k] > depths[i]
}

/// Whether the nearest ancestor of entry `i` at `level` was the last of its
/// siblings. The ancestor is the closest earlier entry at that depth; a
/// shallower entry in between, or no earlier entry at all, means that the
/// level was skipped, which counts as not last.
pub open spec fn ancestor_flag(marks: Seq<(usize, bool)>, i: int, level: int) -> bool
    decreases i,
{
    if i <= 0 || i > marks.len() {
        false
    } else if marks[i - 1].0 == level {
        marks[i - 1].1
    } else if marks[i - 1].0 < level {
        false
    } else {
        ancestor_flag(marks, i - 1, level)
    }
}

/// The continuation segment under an ancestor: blank under one that was the
/// last of its siblings, a vertical bar under any other.
pub open spec fn segment(ancestor_was_last: bool) -> Seq<char> {
    if ancestor_was_last {
        "    "@
    } else {
        "\u{2502}   "@
    }
}

/// The connector in front of a name: the corner for the last sibling, the
/// tee for any other.
pub open spec fn connector(is_last: bool) -> Seq<char> {
    if is_last {
        "\u{2514}\u{2500}\u{2500} "@
    } else {
        "\u{251c}\u{2500}\u{2500} "@
    }
}

/// The continuation segments of entry `i` for the levels from 1 up to, but
/// not including, `upto`.
pub open spec fn indent(marks: Seq<(usize, bool)>, i: int, upto: int) -> Seq<char>
    decreases upto,
{
    if upto <= 1 {
        Seq::empty()
    } else {
        indent(marks, i, upto - 1) + segment(ancestor_flag(marks, i, upto - 1))
    }
}

/// The prefix of entry `i`: one segment for each ancestor level, then the
/// entry's own connector. An entry at depth 0 has no prefix.
pub open spec fn prefix_at(marks: Seq<(usize, bool)>, i: int) -> Seq<char> {
    if marks[i].0 == 0 {
        Seq::empty()
    } else {
        indent(marks, i, marks[i].0 as int) + connector(marks[i].1)
    }
}

/// The entries with each prefix computed anew from the depths and
/// last-sibling flags; nothing else changes.
pub open spec fn with_prefixes(entries: Seq<EntryModel>) -> Seq<EntryModel> {
    Seq::new(
        entries.len(),
        |i: int| EntryModel { prefix: prefix_at(marks_of(entries), i), ..entries[i] },
    )
}

/// The raw entries with their last-sibling flags, and no prefixes yet.
pub open spec fn with_last_flags(raw: Seq<RawModel>) -> Seq<EntryModel> {
    Seq::new(
        raw.len(),
        |i: int|
            EntryModel {
                name: raw[i].name,
                path: raw[i].path,
                depth: raw[i].depth,
                is_dir: raw[i].is_dir,
                is_symlink: raw[i].is_symlink,
                symlink_target: raw[i].symlink_target,
                is_last: is_last_at(raw_depths(raw), i),
                prefix: Seq::empty(),
                error: raw[i].error,
            },
    )
}

/// The layout of a flattened walk: every field of the walk is kept, each
/// last-sibling flag follows from the depths, and each prefix from the
/// depths and flags.
pub open spec fn layout(raw: Seq<RawModel>) -> Seq<EntryModel> {
    with_prefixes(with_last_flags(raw))
}

/// Entries `i` and `j` are siblings: they have one depth, and nothing
/// shallower stands between them.
pub open spec fn same_group(depths: Seq<usize>, i: int, j: int) -> bool {
    &&& 0 <= i < depths.len()
    &&& 0 <= j < depths.len()
    &&& depths[i] == depths[j]
    &&& forall|k: int| (i < k < j || j < k < i) ==> #[trigger] depths[k] >= depths[i]
}

/// The last sibling of entry `i`, found by scanning on from `j`.
spec fn group_end(depths: Seq<usize>, i: int, j: int) -> int
    decreases depths.len() - j,
{
    if j >= depths.len() || j <= i || i < 0 || depths[j] < depths[i] {
        i
    } else if depths[j] == depths[i] {
        group_end(depths, j, j + 1)
    } else {
        group_end(depths, i, j + 1)
    }
}

proof fn lemma_group_end(depths: Seq<usize>, i: int, j: int)
    requires
        0 <= i < j <= depths.len(),
        forall|k: int| i < k < j ==> #[trigger] depths[k] > depths[i],
    ensures
        i <= group_end(depths, i, j),
        same_group(depths, i, group_end(depths, i, j)),
        is_last_at(depths, group_end(depths, i, j)),
    decreases depths.len() - j,
{
    if j >= depths.len() || depths[j] < depths[i] {
        assert forall|m: int|
            i < m < depths.len() && #[trigger] depths[m] == depths[i] implies !(forall|k: int|
            i < k < m ==> #[trigger] depths[k] > depths[i]) by {
            if m > j {
                assert(!(depths[j] > depths[i]));
            }
        }
    } else if depths[j] == depths[i] {
        lemma_group_end(depths, j, j + 1);
    } else {
        lemma_group_end(depths, i, j + 1);
    }
}

/// An entry that has a sibling after it is not the last of its siblings.
proof fn lemma_earlier_sibling_not_last(depths: Seq<usize>, a: int, b: int)
    requires
        a < b,
        same_group(depths, a, b),
    ensures
        !is_last_at(depths, a),
    decreases b - a,
{
    if forall|k: int| a < k < b ==> #[trigger] depths[k] > depths[a] {
        assert(depths[b] == depths[a]);
    } else {
        let c = choose|k: int| a < k < b && !(#[trigger] depths[k] > depths[a]);
        assert(depths[c] >= depths[a]);
        lemma_earlier_sibling_not_last(depths, a, c);
    }
}

/// Among the siblings of any entry, exactly one is marked as the last.
pub proof fn lemma_one_last_per_group(depths: Seq<usize>, i: int)
    requires
        0 <= i < depths.len(),
    ensures
        exists|j: int|
            {
                &&& same_group(depths, i, j)
                &&& is_last_at(depths, j)
                &&& forall|k: int| same_group(depths, i, k) && is_last_at(depths, k) ==> k == j
            },
{
    let j = group_end(depths, i, i + 1);
    lemma_group_end(depths, i, i + 1);
    assert forall|k: int| same_group(depths, i, k) && is_last_at(depths, k) implies k == j by {
        if k < j {
            assert(same_group(depths, k, j));
            lemma_earlier_sibling_not_last(depths, k, j);
        } else if k > j {
            assert(same_group(depths, j, k));
            lemma_earlier_sibling_not_last(depths, j, k);
        }
    }
}

/// The prefixes are a function of the depths and last-sibling flags alone:
/// two lists that agree on those get the same prefixes, whatever else they
/// hold.
pub proof fn lemma_prefixes_follow_marks(a: Seq<EntryModel>, b: Seq<EntryModel>)
    requires
        marks_of(a) == marks_of(b),
    ensures
        a.len() == b.len(),
        forall|i: int|
            0 <= i < a.len() ==> (#[trigger] with_prefixes(a)[i]).prefix == with_prefixes(b)[i].prefix,
{
    assert(marks_of(a).len() == a.len());
    assert(marks_of(b).len() == b.len());
}

/// Computing the prefixes again changes nothing.
pub proof fn lemma_prefixes_idempotent(a: Seq<EntryModel>)
    ensures
        with_prefixes(with_prefixes(a)) == with_prefixes(a),
{
    assert(marks_of(with_prefixes(a)) =~= marks_of(a));
    assert(with_prefixes(with_prefixes(a)) =~= with_prefixes(a));
}

/// The layout marks exactly one entry of every sibling group as the last,
/// and the flags it stores are those that its prefixes were drawn from.
pub proof fn lemma_layout_one_last_per_group(raw: Seq<RawModel>, i: int)
    requires
        0 <= i < raw.len(),
    ensures
        layout(raw).len() == raw.len(),
        exists|j: int|
            {
                &&& same_group(raw_depths(raw), i, j)
                &&& (#[trigger] layout(raw)[j]).is_last
                &&& forall|k: int|
                    same_group(raw_depths(raw), i, k) && (#[trigger] layout(raw)[k]).is_last ==> k
                        == j
            },
{
    let depths = raw_depths(raw);
    lemma_one_last_per_group(depths, i);
    let j = choose|j: int|
        {
            &&& same_group(depths, i, j)
            &&& is_last_at(depths, j)
            &&& forall|k: int| same_group(depths, i, k) && is_last_at(depths, k) ==> k == j
        };
    assert(layout(raw)[j].is_last);
    assert forall|k: int| same_group(depths, i, k) && (#[trigger] layout(raw)[k]).is_last implies k
        == j by {
        assert(is_last_at(depths, k));
    }
}

/// The pieces that prefixes are made of hold no control character.
proof fn lemma_pieces_control_free()
    ensures
        control_free(segment(true)),
        control_free(segment(false)),
        control_free(connector(true)),
        control_free(connector(false)),
{
    reveal_strlit("    ");
    reveal_strlit("\u{2502}   ");
    reveal_strlit("\u{2514}\u{2500}\u{2500} ");
    reveal_strlit("\u{251c}\u{2500}\u{2500} ");
}

proof fn lemma_indent_control_free(marks: Seq<(usize, bool)>, i: int, upto: int)
    ensures
        control_free(indent(marks, i, upto)),
    decreases upto,
{
    if upto > 1 {
        lemma_indent_control_free(marks, i, upto - 1);
        lemma_pieces_control_free();
        lemma_concat_control_free(
            indent(marks, i, upto - 1),
            segment(ancestor_flag(marks, i, upto - 1)),
        );
    }
}

/// A computed prefix holds box-drawing characters and blanks only, and so
/// no control character.
pub proof fn lemma_prefix_control_free(marks: Seq<(usize, bool)>, i: int)
    requires
        0 <= i < marks.len(),
    ensures
        control_free(prefix_at(marks, i)),
{
    lemma_pieces_control_free();
    lemma_indent_control_free(marks, i, marks[i].0 as int);
    lemma_concat_control_free(indent(marks, i, marks[i].0 as int), connector(marks[i].1));
}

/// Tells whether the entry at index `i` is the last of its siblings.
pub fn is_last_sibling(raw: &[RawEntry], i: usize) -> (r: bool)
    requires
        i < raw.len(),
    ensures
        r == is_last_at(raw_depths(raw_models(raw@)), i as int),
{
    let depth = raw[i].depth;
    let ghost depths = raw_depths(raw_models(raw@));
    let mut j: usize = i + 1;
    while j < raw.len()
        invariant
            i < j <= raw.len(),
            depths == raw_depths(raw_models(raw@)),
            depth == depths[i as int],
            forall|k: int| i < k < j ==> #[trigger] depths[k] > depth,
        decreases raw.len() - j,
    {
        let next_depth = raw[j].depth;
        if next_depth == depth {
            assert(depths[j as int] == depths[i as int]);
            return false;
        }
        if next_depth < depth {
            assert forall|m: int|
                i < m < depths.len() && #[trigger] depths[m] == depths[i as int] implies !(forall|
                k: int,
            | i < k < m ==> #[trigger] depths[k] > depths[i as int]) by {
                if m > j {
                    assert(!(depths[j as int] > depths[i as int]));
                }
            }
            return true;
        }
        j += 1;
    }
    true
}

/// The flags kept for the levels `1..=stack.len()` are those of the nearest
/// ancestors of entry `i`, and no deeper level has one.
spec fn stack_matches(stack: Seq<bool>, marks: Seq<(usize, bool)>, i: int) -> bool {
    &&& forall|l: int| 1 <= l <= stack.len() ==> stack[l - 1] == #[trigger] ancestor_flag(marks, i, l)
    &&& forall|l: int| l > stack.len() ==> !#[trigger] ancestor_flag(marks, i, l)
}

/// Computes the prefix of every entry from the depths and last-sibling
/// flags, and stores it in the entry.
pub fn compute_prefixes(entries: &mut [TreeEntry])
    ensures
        entry_models(final(entries)@) == with_prefixes(entry_models(old(entries)@)),
{
    let ghost before = entry_models(entries@);
    let ghost marks = marks_of(before);
    let mut ancestor_is_last: Vec<bool> = Vec::new();
    let n = entries.len();
    let mut i: usize = 0;
    while i < n
        invariant
            i <= n,
            n == entries.len(),
            before.len() == n,
            marks == marks_of(before),
            stack_matches(ancestor_is_last@, marks, i as int),
            forall|k: int| 0 <= k < i ==> (#[trigger] entries[k])@ == with_prefixes(before)[k],
            forall|k: int| i <= k < n ==> (#[trigger] entries[k])@ == before[k],
        decreases n - i,
    {
        let depth = entries[i].depth;
        let is_last = entries[i].is_last;
        assert(marks[i as int] == (depth, is_last));

        // Bring the stack to the entry's depth: a level that no ancestor
        // filled counts as not last.
        while ancestor_is_last.len() < depth
            invariant
                stack_matches(ancestor_is_last@, marks, i as int),
            decreases depth - ancestor_is_last.len(),
        {
            ancestor_is_last.push(false);
        }
        ancestor_is_last.truncate(depth);
        assert(ancestor_is_last.len() == depth);
        assert(forall|l: int|
            1 <= l <= depth ==> ancestor_is_last@[l - 1] == #[trigger] ancestor_flag(
                marks,
                i as int,
                l,
            ));

        let mut prefix = String::new();
        let mut d: usize = 1;
        while d < depth
            invariant
                1 <= d,
                d <= depth || d == 1,
                ancestor_is_last.len() == depth,
                forall|l: int|
                    1 <= l <= depth ==> ancestor_is_last@[l - 1] == #[trigger] ancestor_flag(
                        marks,
                        i as int,
                        l,
                    ),
                prefix@ == indent(marks, i as int, d as int),
            decreases depth - d,
        {
            if ancestor_is_last[d - 1] {
                prefix.append("    ");
            } else {
                prefix.append("\u{2502}   ");
            }
            d += 1;
        }
        if depth > 0 {
            if is_last {
                prefix.append("\u{2514}\u{2500}\u{2500} ");
            } else {
                prefix.append("\u{251c}\u{2500}\u{2500} ");
            }
        }
        assert(prefix@ =~= prefix_at(marks, i as int));

        entries[i].prefix = prefix;

        let ghost above = ancestor_is_last@;
        if depth > 0 {
            ancestor_is_last.set(depth - 1, is_last);
        }
        proof {
            let stack = ancestor_is_last@;
            assert forall|l: int| 1 <= l <= stack.len() implies stack[l - 1] == #[trigger] ancestor_flag(
                marks,
                i + 1,
                l,
            ) by {
                if l < depth {
                    assert(above[l - 1] == ancestor_flag(marks, i as int, l));
                }
            }
            assert forall|l: int| l > stack.len() implies !#[trigger] ancestor_flag(marks, i + 1, l) by {}
        }
        i += 1;
    }
    assert(entry_models(entries@) =~= with_prefixes(before));
}

/// Lays out a flattened walk: sets each last-sibling flag, then each prefix.
pub fn compute_tree_structure(raw: &[RawEntry]) -> (entries: Vec<TreeEntry>)
    ensures
        entry_models(entries@) == layout(raw_models(raw@)),
{
    let mut entries: Vec<TreeEntry> = Vec::with_capacity(raw.len());
    let mut i: usize = 0;
    while i < raw.len()
        invariant
            i <= raw.len(),
            entries.len() == i,
            forall|k: int| 0 <= k < i ==> (#[trigger] entries[k])@ == with_last_flags(raw_models(raw@))[k],
        decreases raw.len() - i,
    {
        let is_last = is_last_sibling(raw, i);
        let r = &raw[i];
        entries.push(
            TreeEntry {
                name: r.name.clone(),
                path: r.path.clone(),
                depth: r.depth,
                is_dir: r.is_dir,
                is_symlink: r.is_symlink,
                symlink_target: clone_opt_text(&r.symlink_target),
                is_last,
                prefix: String::new(),
                error: clone_opt_text(&r.error),
            },
        );
        i += 1;
    }
    assert(entry_models(entries@) =~= with_last_flags(raw_models(raw@)));
    compute_prefixes(entries.as_mut_slice());
    entries
}

} // verus!
