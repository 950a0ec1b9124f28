//! The command line's options, once parsed.

use crate::render::RenderConfig;
use crate::tree::glob::{set_compiles, set_globs};
use crate::tree::walk::{compile_ignore_set, ignore_globs, rejected, wanted};
use crate::tree::TreeConfig;
use crate::text::texts;
use vstd::prelude::*;

verus! {

/// The shortest debounce interval, in milliseconds.
pub const MIN_DEBOUNCE_MS: u64 = 50;

/// The options of one run.
#[derive(Debug, Clone, PartialEq)]
pub struct Args {
    /// Directory to watch.
    pub path: String,
    /// Deepest level to show.
    pub max_depth: Option<usize>,
    /// Glob patterns of entries to leave out.
    pub ignore: Vec<String>,
    /// Whether entries whose name starts with a dot are shown.
    pub show_hidden: bool,
    /// Whether only directories are shown.
    pub dirs_only: bool,
    /// Whether symbolic links are followed.
    pub follow_symlinks: bool,
    /// Debounce interval in milliseconds.
    pub debounce_ms: u64,
    /// Whether colors are off.
    pub no_color: bool,
}

/// The rules for building the tree, with what went wrong on the way to
/// the ignore set.
pub struct TreeSetup {
    /// The rules for building the tree.
    pub config: TreeConfig,
    /// The ignore patterns that were skipped because they are no valid
    /// globs.
    pub invalid: Vec<String>,
    /// Whether the valid patterns could not be compiled, so that nothing is
    /// ignored.
    pub build_failed: bool,
}

impl Args {
    /// The options as they hold for the run: the debounce interval is at
    /// least 50 ms, and colors are off if the flag or the environment says
    /// so. `no_color_env` tells whether the environment asks for no color.
    pub fn validated(self, no_color_env: bool) -> (r: Args)
        ensures
            r.debounce_ms == if self.debounce_ms < MIN_DEBOUNCE_MS {
                MIN_DEBOUNCE_MS
            } else {
                self.debounce_ms
            },
            r.no_color == (self.no_color || no_color_env),
            r.path == self.path,
            r.max_depth == self.max_depth,
            r.ignore == self.ignore,
            r.show_hidden == self.show_hidden,
            r.dirs_only == self.dirs_only,
            r.follow_symlinks == self.follow_symlinks,
    {
        let mut args = self;
        if args.debounce_ms < MIN_DEBOUNCE_MS {
            args.debounce_ms = MIN_DEBOUNCE_MS;
        }
        if no_color_env {
            args.no_color = true;
        }
        args
    }

    /// The rules for building the tree that the options ask for. The
    /// ignore set holds the default patterns and the valid ones among the
    /// options'; the invalid ones are handed back, and so is the word that
    /// the set could not be compiled. All entries are kept: the command
    /// line sets no cap.
    pub fn tree_config(&self) -> (r: TreeSetup)
        ensures
            r.config.max_depth == self.max_depth,
            r.config.show_hidden == self.show_hidden,
            r.config.dirs_only == self.dirs_only,
            r.config.follow_symlinks == self.follow_symlinks,
            r.config.max_entries is None,
            set_globs(r.config.ignore_patterns) == ignore_globs(texts(self.ignore@), true),
            r.build_failed == !set_compiles(wanted(texts(self.ignore@), true)),
            texts(r.invalid@) == rejected(texts(self.ignore@)),
    {
        let compiled = compile_ignore_set(self.ignore.as_slice(), true);
        let config = TreeConfig {
            max_depth: self.max_depth,
            show_hidden: self.show_hidden,
            dirs_only: self.dirs_only,
            follow_symlinks: self.follow_symlinks,
            ignore_patterns: compiled.set,
            max_entries: None,
        };
        TreeSetup { config, invalid: compiled.invalid, build_failed: compiled.build_failed }
    }

    /// What the renderer needs to know, for a terminal of the given width.
    pub fn render_config(&self, terminal_width: u16) -> (r: RenderConfig)
        ensures
            r.use_color == !self.no_color,
            r.terminal_width == terminal_width,
    {
        RenderConfig { use_color: !self.no_color, terminal_width }
    }
}

} // verus!
