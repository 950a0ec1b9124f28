//! From a walk of the file system to the tree: which entries the walk may
//! enter, which of those it found are shown, and how many are kept.

use super::glob::{add_glob, build_set, empty_set, new_builder, parse_glob, set_is_match};
use super::glob::{any_glob_matches, builder_globs, glob_valid, set_compiles, set_globs};
use super::layout::{compute_tree_structure, layout, raw_models, RawEntry, RawModel};
use super::{entry_models, TreeConfig, TreeSnapshot};
use crate::text::{has_dot_prefix, opt_text, starts_with_dot, texts};
use globset::{GlobSet, GlobSetBuilder};
use vstd::prelude::*;
use vstd::string::StringExecFns;

verus! {

/// The patterns that are ignored unless the caller asks otherwise.
pub open spec fn default_ignores() -> Seq<Seq<char>> {
    seq![".git"@, "node_modules"@, "__pycache__"@, ".DS_Store"@]
}

/// The patterns of the list that the glob parser accepts, in their order.
pub open spec fn accepted(patterns: Seq<Seq<char>>) -> Seq<Seq<char>>
    decreases patterns.len(),
{
    if patterns.len() == 0 {
        Seq::empty()
    } else if glob_valid(patterns.last()) {
        accepted(patterns.drop_last()).push(patterns.last())
    } else {
        accepted(patterns.drop_last())
    }
}

/// The patterns of the list that the glob parser rejects, in their order.
pub open spec fn rejected(patterns: Seq<Seq<char>>) -> Seq<Seq<char>>
    decreases patterns.len(),
{
    if patterns.len() == 0 {
        Seq::empty()
    } else if glob_valid(patterns.last()) {
        rejected(patterns.drop_last())
    } else {
        rejected(patterns.drop_last()).push(patterns.last())
    }
}

/// The patterns that go into an ignore set: the valid ones among the
/// default patterns, if those are asked for, then the valid ones among the
/// caller's.
pub open spec fn wanted(user_patterns: Seq<Seq<char>>, with_defaults: bool) -> Seq<Seq<char>> {
    if with_defaults {
        accepted(default_ignores()) + accepted(user_patterns)
    } else {
        accepted(user_patterns)
    }
}

/// What an ignore set holds: the wanted patterns if they compile into one
/// set, and nothing if they do not.
pub open spec fn ignore_globs(user_patterns: Seq<Seq<char>>, with_defaults: bool) -> Seq<
    Seq<char>,
> {
    if set_compiles(wanted(user_patterns, with_defaults)) {
        wanted(user_patterns, with_defaults)
    } else {
        Seq::empty()
    }
}

/// An ignore set together with what went wrong on the way to it.
pub struct IgnoreSet {
    /// The set to match paths against.
    pub set: GlobSet,
    /// The patterns that were skipped because they are no valid globs.
    pub invalid: Vec<String>,
    /// Whether the valid patterns could not be compiled, so that the set
    /// is empty.
    pub build_failed: bool,
}

/// Adds the pattern to the builder if it is a valid glob, and to the list
/// of invalid patterns if it is not.
fn add_pattern(builder: &mut GlobSetBuilder, invalid: &mut Vec<String>, pattern: &str)
    ensures
        builder_globs(*final(builder)) == if glob_valid(pattern@) {
            builder_globs(*old(builder)).push(pattern@)
        } else {
            builder_globs(*old(builder))
        },
        texts(final(invalid)@) == if glob_valid(pattern@) {
            texts(old(invalid)@)
        } else {
            texts(old(invalid)@).push(pattern@)
        },
{
    match parse_glob(pattern) {
        Some(glob) => {
            add_glob(builder, glob);
        },
        None => {
            let mut copy = String::new();
            copy.append(pattern);
            invalid.push(copy);
            assert(texts(invalid@) =~= texts(old(invalid)@).push(pattern@));
        },
    }
}

/// The set that a build of the patterns gave, or the empty set if the
/// build failed.
pub fn built_or_empty(built: Option<GlobSet>) -> (r: GlobSet)
    ensures
        match built {
            Some(set) => r == set,
            None => set_globs(r) == Seq::<Seq<char>>::empty(),
        },
{
    match built {
        Some(set) => set,
        None => empty_set(),
    }
}

/// Builds the ignore set from the caller's patterns, after the default
/// ones if `with_defaults` is set. A pattern that is no valid glob is
/// skipped and reported. If the valid ones cannot be compiled, the set is
/// empty and `build_failed` says so.
pub fn compile_ignore_set(user_patterns: &[String], with_defaults: bool) -> (r: IgnoreSet)
    ensures
        texts(r.invalid@) == rejected(texts(user_patterns@)),
        r.build_failed == !set_compiles(wanted(texts(user_patterns@), with_defaults)),
        set_globs(r.set) == ignore_globs(texts(user_patterns@), with_defaults),
{
    let mut builder = new_builder();
    let mut invalid: Vec<String> = Vec::new();
    if with_defaults {
        let mut ignored: Vec<String> = Vec::new();
        add_pattern(&mut builder, &mut ignored, ".git");
        add_pattern(&mut builder, &mut ignored, "node_modules");
        add_pattern(&mut builder, &mut ignored, "__pycache__");
        add_pattern(&mut builder, &mut ignored, ".DS_Store");
        proof {
            let d = default_ignores();
            assert(d.drop_last() =~= seq![".git"@, "node_modules"@, "__pycache__"@]);
            assert(d.drop_last().drop_last() =~= seq![".git"@, "node_modules"@]);
            assert(d.drop_last().drop_last().drop_last() =~= seq![".git"@]);
            assert(d.drop_last().drop_last().drop_last().drop_last() =~= Seq::<Seq<char>>::empty());
            reveal_with_fuel(accepted, 5);
            assert(builder_globs(builder) =~= accepted(d));
        }
    }
    let ghost base = builder_globs(builder);
    let ghost all = texts(user_patterns@);
    assert(texts(invalid@) =~= rejected(all.take(0)));
    assert(base + accepted(all.take(0)) =~= base);
    let mut i: usize = 0;
    while i < user_patterns.len()
        invariant
            i <= user_patterns.len(),
            all == texts(user_patterns@),
            builder_globs(builder) == base + accepted(all.take(i as int)),
            texts(invalid@) == rejected(all.take(i as int)),
        decreases user_patterns.len() - i,
    {
        add_pattern(&mut builder, &mut invalid, user_patterns[i].as_str());
        proof {
            let done = all.take(i + 1);
            assert(done.drop_last() =~= all.take(i as int));
            assert(done.last() == user_patterns@[i as int]@);
            assert(builder_globs(builder) =~= base + accepted(done));
        }
        i += 1;
    }
    assert(all.take(user_patterns@.len() as int) =~= all);
    assert(builder_globs(builder) =~= wanted(all, with_defaults));
    let built = build_set(&builder);
    let build_failed = built.is_none();
    let set = built_or_empty(built);
    IgnoreSet { set, invalid, build_failed }
}

/// The ignore set of the default patterns and the caller's. Invalid
/// patterns are skipped; the set is empty if the valid ones cannot be
/// compiled.
pub fn build_ignore_set(user_patterns: &[String]) -> (set: GlobSet)
    ensures
        set_globs(set) == ignore_globs(texts(user_patterns@), true),
{
    compile_ignore_set(user_patterns, true).set
}

/// The ignore set of the caller's patterns alone. Invalid patterns are
/// skipped; the set is empty if the valid ones cannot be compiled.
pub fn build_ignore_set_no_defaults(user_patterns: &[String]) -> (set: GlobSet)
    ensures
        set_globs(set) == ignore_globs(texts(user_patterns@), false),
{
    compile_ignore_set(user_patterns, false).set
}

/// Whether the walk may show and enter an entry, given whether an ignore
/// pattern matches it. The root always passes. Below it, an entry whose
/// name starts with a dot is left out unless hidden entries are shown, and
/// an ignored entry is left out always.
pub open spec fn passes_filter(
    depth: usize,
    name: Seq<char>,
    show_hidden: bool,
    ignored: bool,
) -> bool {
    depth == 0 || (!(!show_hidden && starts_with_dot(name)) && !ignored)
}

/// Decides whether the walk may show and enter an entry, given whether an
/// ignore pattern matches it.
pub fn keep_entry(depth: usize, name: &str, show_hidden: bool, ignored: bool) -> (r: bool)
    ensures
        r == passes_filter(depth, name@, show_hidden, ignored),
{
    if depth == 0 {
        return true;
    }
    if !show_hidden && has_dot_prefix(name) {
        return false;
    }
    !ignored
}

/// Decides whether the walk may show and enter an entry. What it leaves
/// out, the walk does not descend into. `rel_path` is the entry's path
/// under the root, which the ignore patterns are matched against.
pub fn entry_allowed(depth: usize, name: &str, rel_path: &str, config: &TreeConfig) -> (r: bool)
    ensures
        r == passes_filter(
            depth,
            name@,
            config.show_hidden,
            any_glob_matches(set_globs(config.ignore_patterns), rel_path@),
        ),
{
    if depth == 0 {
        return true;
    }
    if !config.show_hidden && has_dot_prefix(name) {
        return false;
    }
    let ignored = set_is_match(&config.ignore_patterns, rel_path);
    keep_entry(depth, name, config.show_hidden, ignored)
}

/// What the walk reports of one place under the root, or of the root
/// itself, which has depth 0.
#[derive(Debug, Clone, PartialEq)]
pub enum WalkItem {
    /// An entry that the walk could read.
    Found {
        /// Nesting depth; the children of the root have depth 1.
        depth: usize,
        /// The last component of the path.
        name: String,
        /// Full path.
        path: String,
        /// Whether the entry is a directory.
        is_dir: bool,
        /// Whether the entry is a symbolic link.
        is_symlink: bool,
        /// Where the link points, if it is one and could be resolved.
        link_target: Option<String>,
    },
    /// A place that the walk could not read.
    Failed {
        /// Nesting depth of the place.
        depth: usize,
        /// Path of the place; empty if the walk does not know it.
        path: String,
        /// The last component of the path, if it has one.
        file_name: Option<String>,
        /// What went wrong.
        message: String,
    },
}

/// What a `WalkItem` holds, as plain values.
pub ghost enum WalkModel {
    Found {
        depth: usize,
        name: Seq<char>,
        path: Seq<char>,
        is_dir: bool,
        is_symlink: bool,
        link_target: Option<Seq<char>>,
    },
    Failed { depth: usize, path: Seq<char>, file_name: Option<Seq<char>>, message: Seq<char> },
}

impl View for WalkItem {
    type V = WalkModel;

    open spec fn view(&self) -> WalkModel {
        match *self {
            WalkItem::Found { depth, name, path, is_dir, is_symlink, link_target } => WalkModel::Found {
                depth,
                name: name@,
                path: path@,
                is_dir,
                is_symlink,
                link_target: opt_text(link_target),
            },
            WalkItem::Failed { depth, path, file_name, message } => WalkModel::Failed {
                depth,
                path: path@,
                file_name: opt_text(file_name),
                message: message@,
            },
        }
    }
}

/// The models of a list of walk items, in order.
pub open spec fn walk_models(items: Seq<WalkItem>) -> Seq<WalkModel> {
    Seq::new(items.len(), |i: int| items[i]@)
}

impl WalkModel {
    /// The depth of the place.
    pub open spec fn depth(self) -> usize {
        match self {
            WalkModel::Found { depth, .. } => depth,
            WalkModel::Failed { depth, .. } => depth,
        }
    }

    /// Whether the place gets a line in the tree. The root gets none, nor
    /// does anything below the deepest level to show. Where only
    /// directories are shown, an entry that was read and is no directory
    /// gets none; a place that could not be read always counts as one.
    pub open spec fn is_shown(self, dirs_only: bool, max_depth: Option<usize>) -> bool {
        &&& self.depth() > 0
        &&& max_depth matches Some(deepest) ==> self.depth() <= deepest
        &&& self matches WalkModel::Found { is_dir, .. } ==> !dirs_only || is_dir
    }

    /// The raw entry that stands for the place. A link that could not be
    /// resolved points to `?`; a place that could not be read is a
    /// directory with an error, named `???` if its path has no name.
    pub open spec fn raw(self) -> RawModel {
        match self {
            WalkModel::Found { depth, name, path, is_dir, is_symlink, link_target } => RawModel {
                depth,
                name,
                path,
                is_dir,
                is_symlink,
                symlink_target: if is_symlink {
                    Some(
                        match link_target {
                            Some(target) => target,
                            None => "?"@,
                        },
                    )
                } else {
                    None
                },
                error: None,
            },
            WalkModel::Failed { depth, path, file_name, message } => RawModel {
                depth,
                name: match file_name {
                    Some(name) => name,
                    None => "???"@,
                },
                path,
                is_dir: true,
                is_symlink: false,
                symlink_target: None,
                error: Some(message),
            },
        }
    }
}

/// The raw entries of the places that get a line, in the order of the
/// walk.
pub open spec fn selected(
    items: Seq<WalkModel>,
    dirs_only: bool,
    max_depth: Option<usize>,
) -> Seq<RawModel>
    decreases items.len(),
{
    if items.len() == 0 {
        Seq::empty()
    } else if items.last().is_shown(dirs_only, max_depth) {
        selected(items.drop_last(), dirs_only, max_depth).push(items.last().raw())
    } else {
        selected(items.drop_last(), dirs_only, max_depth)
    }
}

/// The first `max_entries` of the entries, or all of them where there is
/// no cap or the cap is not reached.
pub open spec fn capped<T>(entries: Seq<T>, max_entries: Option<usize>) -> Seq<T> {
    match max_entries {
        Some(cap) => if cap < entries.len() {
            entries.take(cap as int)
        } else {
            entries
        },
        None => entries,
    }
}

fn copy_text(s: &str) -> (r: String)
    ensures
        r@ == s@,
{
    let mut r = String::new();
    r.append(s);
    assert(r@ =~= s@);
    r
}

/// The raw entry that stands for a place of the walk.
pub fn raw_entry(item: &WalkItem) -> (raw: RawEntry)
    ensures
        raw@ == item@.raw(),
{
    match item {
        WalkItem::Found { depth, name, path, is_dir, is_symlink, link_target } => {
            let symlink_target = if *is_symlink {
                match link_target {
                    Some(target) => Some(target.clone()),
                    None => Some(copy_text("?")),
                }
            } else {
                None
            };
            RawEntry {
                depth: *depth,
                name: name.clone(),
                path: path.clone(),
                is_dir: *is_dir,
                is_symlink: *is_symlink,
                symlink_target,
                error: None,
            }
        },
        WalkItem::Failed { depth, path, file_name, message } => {
            let name = match file_name {
                Some(name) => name.clone(),
                None => copy_text("???"),
            };
            RawEntry {
                depth: *depth,
                name,
                path: path.clone(),
                is_dir: true,
                is_symlink: false,
                symlink_target: None,
                error: Some(message.clone()),
            }
        },
    }
}

/// Tells whether a place of the walk gets a line in the tree.
pub fn is_shown(item: &WalkItem, config: &TreeConfig) -> (r: bool)
    ensures
        r == item@.is_shown(config.dirs_only, config.max_depth),
{
    let depth = match item {
        WalkItem::Found { depth, .. } => *depth,
        WalkItem::Failed { depth, .. } => *depth,
    };
    if depth == 0 {
        return false;
    }
    match config.max_depth {
        Some(deepest) => {
            if depth > deepest {
                return false;
            }
        },
        None => {},
    }
    match item {
        WalkItem::Found { is_dir, .. } => !config.dirs_only || *is_dir,
        WalkItem::Failed { .. } => true,
    }
}

/// Builds the tree from what the walk found, in the order of the walk:
/// picks the places that get a line, lays them out, and keeps the first
/// `max_entries` of them. `total_entries` counts the lines before the cap.
///
/// The walk is taken as it comes. It is the walker's part to list siblings
/// in the order of `sort_cmp`, and to enter and report only what
/// `entry_allowed` lets pass: an entry that the filter leaves out, or one
/// that lies below such an entry, must not be among `walked`, for nothing
/// here takes it out again.
pub fn build_tree(walked: &[WalkItem], config: &TreeConfig) -> (snapshot: TreeSnapshot)
    ensures
        entry_models(snapshot.entries@) == capped(
            layout(selected(walk_models(walked@), config.dirs_only, config.max_depth)),
            config.max_entries,
        ),
        snapshot.total_entries == selected(
            walk_models(walked@),
            config.dirs_only,
            config.max_depth,
        ).len(),
        snapshot.entries.len() <= snapshot.total_entries,
        config.max_entries matches Some(cap) ==> (cap < snapshot.total_entries
            ==> snapshot.entries.len() == cap),
        config.max_entries is None ==> snapshot.entries.len() == snapshot.total_entries,
{
    let ghost items = walk_models(walked@);
    let mut raw_entries: Vec<RawEntry> = Vec::new();
    let mut i: usize = 0;
    assert(raw_models(raw_entries@) =~= selected(
        items.take(0),
        config.dirs_only,
        config.max_depth,
    ));
    while i < walked.len()
        invariant
            i <= walked.len(),
            items == walk_models(walked@),
            raw_entries.len() <= i,
            raw_models(raw_entries@) == selected(
                items.take(i as int),
                config.dirs_only,
                config.max_depth,
            ),
        decreases walked.len() - i,
    {
        proof {
            let done = items.take(i + 1);
            assert(done.drop_last() =~= items.take(i as int));
            assert(done.last() == walked@[i as int]@);
        }
        let ghost before = raw_models(raw_entries@);
        if is_shown(&walked[i], config) {
            raw_entries.push(raw_entry(&walked[i]));
            assert(raw_models(raw_entries@) =~= before.push(walked@[i as int]@.raw()));
        }
        i += 1;
    }
    assert(items.take(walked@.len() as int) =~= items);
    let mut entries = compute_tree_structure(raw_entries.as_slice());
    let total_entries = entries.len();
    let ghost full = entry_models(entries@);
    assert(full.len() == raw_entries.len());
    match config.max_entries {
        Some(cap) => {
            if cap < entries.len() {
                entries.truncate(cap);
                assert(entry_models(entries@) =~= full.take(cap as int));
            }
        },
        None => {},
    }
    TreeSnapshot { entries, total_entries }
}

} // verus!
