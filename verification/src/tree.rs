//! The directory tree: its entries, the rules by which a walk of the file
//! system becomes a list of them, and their box-drawn layout.

pub mod glob;
pub mod layout;
pub mod order;
pub mod walk;

pub use self::walk::{build_ignore_set, build_ignore_set_no_defaults, build_tree};

use crate::text::opt_text;
use globset::GlobSet;
use vstd::prelude::*;

verus! {

/// One line of the tree: a file, a directory, a link, or a place that could
/// not be read.
#[derive(Debug, Clone, PartialEq)]
pub struct TreeEntry {
    /// Display name: the last component of the path.
    pub name: String,
    /// Full path of the entry.
    pub path: String,
    /// Nesting depth; the children of the root have depth 1.
    pub depth: usize,
    /// Whether the entry is a directory.
    pub is_dir: bool,
    /// Whether the entry is a symbolic link.
    pub is_symlink: bool,
    /// Where the link points, if the entry is a link.
    pub symlink_target: Option<String>,
    /// Whether the entry is the last of its siblings.
    pub is_last: bool,
    /// The box-drawing text in front of the name.
    pub prefix: String,
    /// Why the entry could not be read, if it could not.
    pub error: Option<String>,
}

/// What a `TreeEntry` holds, as plain values.
pub ghost struct EntryModel {
    pub name: Seq<char>,
    pub path: Seq<char>,
    pub depth: usize,
    pub is_dir: bool,
    pub is_symlink: bool,
    pub symlink_target: Option<Seq<char>>,
    pub is_last: bool,
    pub prefix: Seq<char>,
    pub error: Option<Seq<char>>,
}

impl View for TreeEntry {
    type V = EntryModel;

    open spec fn view(&self) -> EntryModel {
        EntryModel {
            name: self.name@,
            path: self.path@,
            depth: self.depth,
            is_dir: self.is_dir,
            is_symlink: self.is_symlink,
            symlink_target: opt_text(self.symlink_target),
            is_last: self.is_last,
            prefix: self.prefix@,
            error: opt_text(self.error),
        }
    }
}

/// The models of a list of entries, in order.
pub open spec fn entry_models(entries: Seq<TreeEntry>) -> Seq<EntryModel> {
    Seq::new(entries.len(), |i: int| entries[i]@)
}

/// The rules of one build of the tree.
pub struct TreeConfig {
    /// Deepest level to show; `None` shows every level.
    pub max_depth: Option<usize>,
    /// Whether entries whose name starts with a dot are shown.
    pub show_hidden: bool,
    /// Whether only directories are shown.
    pub dirs_only: bool,
    /// Whether the walk follows symbolic links.
    pub follow_symlinks: bool,
    /// Entries that match one of these patterns are left out. The set is
    /// meant to come from `build_ignore_set` or one of its kin, which parse
    /// each pattern with globset's default options; what the library says
    /// of matching holds of such a set.
    pub ignore_patterns: GlobSet,
    /// The most entries to keep; `None` keeps all.
    pub max_entries: Option<usize>,
}

/// The result of one build: the entries to show and how many there were
/// before the cap was applied.
#[derive(Debug, Clone, PartialEq)]
pub struct TreeSnapshot {
    /// The entries to show, in display order.
    pub entries: Vec<TreeEntry>,
    /// The number of entries found, shown or not.
    pub total_entries: usize,
}

/// What a `TreeSnapshot` holds, as plain values.
pub ghost struct SnapshotModel {
    pub entries: Seq<EntryModel>,
    pub total_entries: usize,
}

impl View for TreeSnapshot {
    type V = SnapshotModel;

    open spec fn view(&self) -> SnapshotModel {
        SnapshotModel { entries: entry_models(self.entries@), total_entries: self.total_entries }
    }
}

impl std::ops::Deref for TreeSnapshot {
    type Target = [TreeEntry];

    /// The entries to show, as a slice.
    fn deref(&self) -> (entries: &[TreeEntry])
        ensures
            entries@ == self.entries@,
    {
        self.entries.as_slice()
    }
}

/// Something that can build the tree under a root: the walk of the file
/// system in production, a canned tree in a test.
pub trait TreeBuilder {
    /// Builds the tree under `root` by the rules of `config`.
    fn build_tree(&self, root: &str, config: &TreeConfig) -> TreeSnapshot;
}

} // verus!
