//! The event loop's decisions: what each event does to the state of the
//! application and what the caller is to do next, and what one frame
//! shows.

use crate::clock::{seconds, Duration, Instant};
use crate::highlight::{HighlightTracker, TrackerModel};
use crate::render::{dim_style, help_text, line_models, plain_style, sanitized, spans_control_free};
use crate::render::{entry_spans, status_style, status_text, truncation_text, SpanModel};
use crate::render::{help_bar_line, sanitize_terminal_text, status_bar_line, tree_to_lines};
use crate::render::{lemma_sanitized_control_free, truncation_line, Line, RenderConfig, Span, Style};
use crate::scroll::{clamped, ScrollState};
use crate::terminal::terminal_size;
use crate::text::{control_free, decimal, lemma_concat_control_free, opt_text, push_decimal};
use crate::text::texts;
use crate::tree::{SnapshotModel, TreeBuilder, TreeConfig, TreeSnapshot};
use crate::watcher::{EventModel, WatchEvent};
use vstd::prelude::*;
use vstd::string::StringExecFns;

verus! {

/// The longest highlight duration that the keys can set, in seconds.
pub const MAX_HIGHLIGHT_SECS: u64 = 3600;

/// The keys that the loop tells apart.
#[derive(Debug, Clone, Copy, PartialEq, Eq)]
pub enum Key {
    Char(char),
    Up,
    Down,
    PageUp,
    PageDown,
    Home,
    End,
    Other,
}

/// What the input reader delivers.
#[derive(Debug, Clone, Copy, PartialEq, Eq)]
pub enum InputEvent {
    /// A key event: which key, whether Control was held, and whether the
    /// key went down rather than up or into repeat.
    Key { key: Key, ctrl: bool, pressed: bool },
    /// The terminal changed its size.
    Resize,
    /// Anything else.
    Other,
}

/// What an input event asks for.
#[derive(Debug, Clone, Copy, PartialEq, Eq)]
pub enum Command {
    Quit,
    ResetHighlights,
    LineUp,
    LineDown,
    PageUp,
    PageDown,
    Home,
    End,
    LongerHighlight,
    ShorterHighlight,
    Redraw,
    Ignore,
}

/// One event of the loop, from whichever source was ready first.
#[derive(Debug, Clone, PartialEq)]
pub enum LoopEvent {
    /// The watcher reported something.
    Watch(WatchEvent),
    /// The watcher's channel is closed: the watcher is gone.
    WatchClosed,
    /// The input reader delivered an event.
    Input(InputEvent),
    /// The input reader's channel is closed: the reader is gone.
    InputClosed,
    /// Nothing arrived within the tick; `interrupted` tells whether the
    /// interrupt signal was seen.
    Tick { interrupted: bool },
}

/// What the caller is to do after an event.
#[derive(Debug, Clone, PartialEq)]
pub enum Action {
    /// Render one frame.
    Render,
    /// Show these lines in place of the tree, then leave the loop.
    Farewell(Vec<Line>),
    /// Tell the user of this error; the loop goes on.
    Report(String),
    /// Leave the loop.
    Exit,
    /// Nothing.
    Nothing,
}

/// Whether the loop goes on.
#[derive(Debug, Clone, Copy, PartialEq, Eq)]
pub enum Phase {
    Running,
    /// The loop is to be left; nothing leads back from here.
    Exiting,
}

/// A loop event as plain values.
pub ghost enum LoopEventModel {
    Watch(EventModel),
    WatchClosed,
    Input(InputEvent),
    InputClosed,
    Tick { interrupted: bool },
}

impl View for LoopEvent {
    type V = LoopEventModel;

    open spec fn view(&self) -> LoopEventModel {
        match *self {
            LoopEvent::Watch(e) => LoopEventModel::Watch(e@),
            LoopEvent::WatchClosed => LoopEventModel::WatchClosed,
            LoopEvent::Input(e) => LoopEventModel::Input(e),
            LoopEvent::InputClosed => LoopEventModel::InputClosed,
            LoopEvent::Tick { interrupted } => LoopEventModel::Tick { interrupted },
        }
    }
}

/// An action as plain values.
pub ghost enum ActionModel {
    Render,
    Farewell(Seq<Seq<SpanModel>>),
    Report(Seq<char>),
    Exit,
    Nothing,
}

impl View for Action {
    type V = ActionModel;

    open spec fn view(&self) -> ActionModel {
        match *self {
            Action::Render => ActionModel::Render,
            Action::Farewell(lines) => ActionModel::Farewell(line_models(lines@)),
            Action::Report(message) => ActionModel::Report(message@),
            Action::Exit => ActionModel::Exit,
            Action::Nothing => ActionModel::Nothing,
        }
    }
}

/// What an input event asks for. Only a key that goes down counts. `q`
/// quits, and so does `c` with Control; `r` resets the highlights; the
/// arrows and `k`, `j` scroll by a line, the page keys by a page, Home and
/// End to either end; `+` and `-` change the highlight duration. A change
/// of the terminal's size asks for a new frame. All else is ignored.
pub open spec fn command_of(input: InputEvent) -> Command {
    match input {
        InputEvent::Key { key, ctrl, pressed } => if !pressed {
            Command::Ignore
        } else {
            match key {
                Key::Char(c) => if c == 'q' {
                    Command::Quit
                } else if c == 'r' {
                    Command::ResetHighlights
                } else if c == 'c' && ctrl {
                    Command::Quit
                } else if c == 'k' {
                    Command::LineUp
                } else if c == 'j' {
                    Command::LineDown
                } else if c == '+' {
                    Command::LongerHighlight
                } else if c == '-' {
                    Command::ShorterHighlight
                } else {
                    Command::Ignore
                },
                Key::Up => Command::LineUp,
                Key::Down => Command::LineDown,
                Key::PageUp => Command::PageUp,
                Key::PageDown => Command::PageDown,
                Key::Home => Command::Home,
                Key::End => Command::End,
                Key::Other => Command::Ignore,
            }
        },
        InputEvent::Resize => Command::Redraw,
        InputEvent::Other => Command::Ignore,
    }
}

/// Tells what an input event asks for.
pub fn key_command(input: InputEvent) -> (command: Command)
    ensures
        command == command_of(input),
{
    match input {
        InputEvent::Key { key, ctrl, pressed } => {
            if !pressed {
                return Command::Ignore;
            }
            match key {
                Key::Char(c) => {
                    if c == 'q' {
                        Command::Quit
                    } else if c == 'r' {
                        Command::ResetHighlights
                    } else if c == 'c' && ctrl {
                        Command::Quit
                    } else if c == 'k' {
                        Command::LineUp
                    } else if c == 'j' {
                        Command::LineDown
                    } else if c == '+' {
                        Command::LongerHighlight
                    } else if c == '-' {
                        Command::ShorterHighlight
                    } else {
                        Command::Ignore
                    }
                },
                Key::Up => Command::LineUp,
                Key::Down => Command::LineDown,
                Key::PageUp => Command::PageUp,
                Key::PageDown => Command::PageDown,
                Key::Home => Command::Home,
                Key::End => Command::End,
                Key::Other => Command::Ignore,
            }
        },
        InputEvent::Resize => Command::Redraw,
        InputEvent::Other => Command::Ignore,
    }
}

/// What `Path::strip_prefix` makes of a path and a base: the rest of the
/// path below the base, if the base is a prefix of it, component by
/// component.
pub uninterp spec fn path_under(path: Seq<char>, base: Seq<char>) -> Option<Seq<char>>;

/// `Path::strip_prefix`: the path without the base, if the path starts
/// with the base.
#[verifier::external_body]
fn strip_prefix(path: &str, base: &str) -> (rest: Option<String>)
    ensures
        opt_text(rest) == path_under(path@, base@),
{
    std::path::Path::new(path).strip_prefix(base).ok().map(|p| p.to_string_lossy().to_string())
}

/// The watched path as the status bar shows it, given the rest of the path
/// below the home directory, if it lies there: `~` for the home directory
/// itself, `~/` and the rest for what lies below it, the path as it is for
/// anything else.
pub open spec fn home_relative_text(path: Seq<char>, under_home: Option<Seq<char>>) -> Seq<char> {
    match under_home {
        Some(rest) => if rest.len() == 0 {
            "~"@
        } else {
            "~/"@ + rest
        },
        None => path,
    }
}

/// The watched path as the status bar shows it, the home directory being
/// `home` if there is one.
pub open spec fn watched_path_text(path: Seq<char>, home: Option<Seq<char>>) -> Seq<char> {
    match home {
        Some(home) => home_relative_text(path, path_under(path, home)),
        None => path,
    }
}

/// Writes the watched path for the status bar, given the rest of the path
/// below the home directory, if it lies there.
pub fn home_relative(path: &str, under_home: Option<String>) -> (shown: String)
    ensures
        shown@ == home_relative_text(path@, opt_text(under_home)),
{
    let mut shown = String::new();
    match under_home {
        Some(rest) => {
            if rest.as_str().is_empty() {
                shown.append("~");
                assert(shown@ =~= "~"@);
            } else {
                shown.append("~/");
                shown.append(rest.as_str());
                assert(shown@ =~= "~/"@ + rest@);
            }
        },
        None => {
            shown.append(path);
            assert(shown@ =~= path@);
        },
    }
    shown
}

/// Writes the watched path for the status bar, with the home directory
/// collapsed to `~`.
pub fn format_watched_path(path: &str, home: Option<&str>) -> (shown: String)
    ensures
        shown@ == watched_path_text(
            path@,
            match home {
                Some(h) => Some(h@),
                None => None,
            },
        ),
{
    match home {
        Some(home) => home_relative(path, strip_prefix(path, home)),
        None => home_relative(path, None),
    }
}

/// The state of the application: all that the loop owns.
pub struct AppState {
    phase: Phase,
    path: String,
    display_path: String,
    last_change: Option<String>,
    use_color: bool,
    quiet: bool,
    scroll: ScrollState,
    highlights: HighlightTracker,
    highlight_duration_secs: u64,
    tree_cache: Option<TreeSnapshot>,
}

/// The state of the application as plain values.
pub ghost struct AppModel {
    /// Whether the loop goes on.
    pub phase: Phase,
    /// The watched path.
    pub path: Seq<char>,
    /// The watched path as the status bar shows it.
    pub display_path: Seq<char>,
    /// The time of day of the last change, if there was one.
    pub last_change: Option<Seq<char>>,
    /// Whether styles carry colors.
    pub use_color: bool,
    /// Whether watcher errors are kept from the user.
    pub quiet: bool,
    /// Where the viewport stands.
    pub scroll: ScrollState,
    /// The recently changed paths.
    pub highlights: TrackerModel,
    /// The highlight duration in whole seconds.
    pub highlight_secs: u64,
    /// The tree of the last build, unless a change has made it stale.
    pub tree_cache: Option<SnapshotModel>,
}

/// The tracker after each of the paths was touched at `now`, in order.
pub open spec fn touch_all(tracker: TrackerModel, paths: Seq<Seq<char>>, now: Instant) -> TrackerModel
    decreases paths.len(),
{
    if paths.len() == 0 {
        tracker
    } else {
        touch_all(tracker, paths.drop_last(), now).touch(paths.last(), now)
    }
}

/// The height of the tree's part of the terminal: all rows but the two of
/// the status bar and the help bar. A terminal whose size is not known
/// counts as 24 rows high.
pub open spec fn tree_height(size: Option<(u16, u16)>) -> usize {
    let rows = match size {
        Some(s) => s.1,
        None => 24u16,
    };
    if rows >= 2 {
        (rows - 2) as usize
    } else {
        0
    }
}

/// The lines shown when the watched directory is gone.
pub open spec fn farewell_lines(path: Seq<char>) -> Seq<Seq<SpanModel>> {
    seq![
        seq![SpanModel { content: "Directory deleted: "@ + sanitized(path), style: plain_style() }],
        seq![SpanModel { content: "Exiting..."@, style: plain_style() }],
    ]
}

/// The offset after a move up by `n` lines.
pub open spec fn moved_up(scroll: ScrollState, n: usize) -> ScrollState {
    ScrollState {
        offset: if scroll.offset >= n {
            (scroll.offset - n) as usize
        } else {
            0
        },
        ..scroll
    }
}

/// The offset after a move down by `n` lines.
pub open spec fn moved_down(scroll: ScrollState, n: usize) -> ScrollState {
    ScrollState {
        offset: if scroll.offset + n > usize::MAX {
            usize::MAX
        } else {
            (scroll.offset + n) as usize
        },
        ..scroll
    }
}

impl AppModel {
    /// The state with another highlight duration.
    pub open spec fn with_highlight_secs(self, secs: u64) -> AppModel {
        AppModel {
            highlight_secs: secs,
            highlights: self.highlights.with_duration(seconds(secs)),
            ..self
        }
    }

    /// The state after a command of the user, and what the caller is to
    /// do. Every command but `Quit` and `Ignore` asks for one frame; none
    /// touches the cached tree.
    pub open spec fn after_command(self, command: Command, page: usize) -> (AppModel, ActionModel) {
        match command {
            Command::Quit => (AppModel { phase: Phase::Exiting, ..self }, ActionModel::Exit),
            Command::ResetHighlights => (
                AppModel { highlights: self.highlights.cleared(), ..self },
                ActionModel::Render,
            ),
            Command::LineUp => (
                AppModel { scroll: moved_up(self.scroll, 1), ..self },
                ActionModel::Render,
            ),
            Command::LineDown => (
                AppModel { scroll: moved_down(self.scroll, 1), ..self },
                ActionModel::Render,
            ),
            Command::PageUp => (
                AppModel { scroll: moved_up(self.scroll, page), ..self },
                ActionModel::Render,
            ),
            Command::PageDown => (
                AppModel { scroll: moved_down(self.scroll, page), ..self },
                ActionModel::Render,
            ),
            Command::Home => (
                AppModel { scroll: ScrollState { offset: 0, ..self.scroll }, ..self },
                ActionModel::Render,
            ),
            Command::End => (
                AppModel { scroll: ScrollState { offset: usize::MAX, ..self.scroll }, ..self },
                ActionModel::Render,
            ),
            Command::LongerHighlight => (
                if self.highlight_secs < MAX_HIGHLIGHT_SECS {
                    self.with_highlight_secs((self.highlight_secs + 1) as u64)
                } else {
                    self
                },
                ActionModel::Render,
            ),
            Command::ShorterHighlight => (
                if self.highlight_secs > 0 {
                    self.with_highlight_secs((self.highlight_secs - 1) as u64)
                } else {
                    self.with_highlight_secs(0)
                },
                ActionModel::Render,
            ),
            Command::Redraw => (self, ActionModel::Render),
            Command::Ignore => (self, ActionModel::Nothing),
        }
    }

    /// The state after a report of the watcher, and what the caller is to
    /// do. A change makes the cached tree stale, highlights the changed
    /// paths and notes the time. The loss of the root ends the loop with a
    /// message. An error is reported unless the user asked for quiet, and
    /// the loop goes on.
    pub open spec fn after_watch(self, event: EventModel, now: Instant, clock: Seq<char>) -> (
        AppModel,
        ActionModel,
    ) {
        match event {
            EventModel::Changed(paths) => (
                AppModel {
                    last_change: Some(clock),
                    tree_cache: None,
                    highlights: touch_all(self.highlights, paths, now),
                    ..self
                },
                ActionModel::Render,
            ),
            EventModel::RootDeleted => (
                AppModel { phase: Phase::Exiting, ..self },
                ActionModel::Farewell(farewell_lines(self.path)),
            ),
            EventModel::Error(message) => (
                self,
                if self.quiet {
                    ActionModel::Nothing
                } else {
                    ActionModel::Report("Watcher error: "@ + sanitized(message))
                },
            ),
        }
    }

    /// The state after an event, and what the caller is to do. `now` is
    /// the time of the event, `clock` the time of day to note for a
    /// change, `size` the size of the terminal if it is known. Once the
    /// loop is to be left, no event changes anything.
    pub open spec fn step(
        self,
        event: LoopEventModel,
        now: Instant,
        clock: Seq<char>,
        size: Option<(u16, u16)>,
    ) -> (AppModel, ActionModel) {
        if self.phase is Exiting {
            (self, ActionModel::Exit)
        } else {
            match event {
                LoopEventModel::Watch(e) => self.after_watch(e, now, clock),
                LoopEventModel::WatchClosed => (
                    AppModel { phase: Phase::Exiting, ..self },
                    ActionModel::Exit,
                ),
                LoopEventModel::Input(e) => self.after_command(command_of(e), tree_height(size)),
                LoopEventModel::InputClosed => (
                    AppModel { phase: Phase::Exiting, ..self },
                    ActionModel::Exit,
                ),
                LoopEventModel::Tick { interrupted } => if interrupted {
                    (AppModel { phase: Phase::Exiting, ..self }, ActionModel::Exit)
                } else {
                    (self, ActionModel::Nothing)
                },
            }
        }
    }

    /// The state with a freshly built tree in its cache.
    pub open spec fn with_tree(self, snapshot: SnapshotModel) -> AppModel {
        AppModel { tree_cache: Some(snapshot), ..self }
    }
}

/// What one frame shows.
#[derive(Debug, Clone, PartialEq)]
pub struct Frame {
    /// The lines of the tree, all of them; the offset tells where the
    /// viewport starts.
    pub tree_lines: Vec<Line>,
    /// The index of the first line in the viewport.
    pub scroll_offset: usize,
    /// The status bar.
    pub status: Line,
    /// The help bar.
    pub help: Line,
}

/// A frame as plain values.
pub ghost struct FrameModel {
    pub tree_lines: Seq<Seq<SpanModel>>,
    pub scroll_offset: usize,
    pub status: Seq<SpanModel>,
    pub help: Seq<SpanModel>,
}

impl View for Frame {
    type V = FrameModel;

    open spec fn view(&self) -> FrameModel {
        FrameModel {
            tree_lines: line_models(self.tree_lines@),
            scroll_offset: self.scroll_offset,
            status: self.status@,
            help: self.help@,
        }
    }
}

/// The lines of the tree: one for each entry, and after them, where the
/// tree was capped, the line that says so.
pub open spec fn tree_lines_of(
    snapshot: SnapshotModel,
    use_color: bool,
    highlights: TrackerModel,
    now: Instant,
) -> Seq<Seq<SpanModel>> {
    let lines = Seq::new(
        snapshot.entries.len(),
        |i: int|
            entry_spans(
                snapshot.entries[i],
                use_color,
                highlights.is_live(snapshot.entries[i].path, now),
            ),
    );
    if snapshot.total_entries > snapshot.entries.len() {
        lines.push(
            seq![
                SpanModel {
                    content: truncation_text(
                        snapshot.entries.len(),
                        snapshot.total_entries as nat,
                    ),
                    style: dim_style(),
                },
            ],
        )
    } else {
        lines
    }
}

/// What the status bar says of the entries: how many are shown of how
/// many where the tree was capped; else, where not all lines fit, how many
/// there are, how many fit and where the viewport stands among its
/// positions, counted from 1; else how many there are.
pub open spec fn entry_count_text(
    shown: nat,
    total: nat,
    total_lines: nat,
    height: nat,
    offset: nat,
) -> Seq<char> {
    if total > shown {
        "showing "@ + decimal(shown) + " of "@ + decimal(total) + " entries (truncated)"@
    } else if total_lines > height {
        decimal(total) + " entries ("@ + decimal(height) + " visible, scroll "@ + decimal(offset + 1)
            + "/"@ + decimal((total_lines - height + 1) as nat) + ")"@
    } else {
        decimal(total) + " entries"@
    }
}

/// The frame of a state at `now` on a terminal of the given size, and the
/// state after it was drawn: the highlights that ran out are forgotten, and
/// the viewport is back within the lines. A state without a tree has no
/// frame.
pub open spec fn frame_of(state: AppModel, size: Option<(u16, u16)>, now: Instant) -> Option<
    (AppModel, FrameModel),
> {
    match state.tree_cache {
        None => None,
        Some(snapshot) => {
            let tree_lines = tree_lines_of(snapshot, state.use_color, state.highlights, now);
            let height = tree_height(size);
            let scroll = ScrollState {
                offset: clamped(state.scroll.offset as int, tree_lines.len() as int, height as int) as usize,
                total_lines: tree_lines.len() as usize,
            };
            let info = entry_count_text(
                snapshot.entries.len(),
                snapshot.total_entries as nat,
                tree_lines.len(),
                height as nat,
                scroll.offset as nat,
            );
            Some(
                (
                    AppModel { highlights: state.highlights.prune(now), scroll, ..state },
                    FrameModel {
                        tree_lines,
                        scroll_offset: scroll.offset,
                        status: seq![
                            SpanModel {
                                content: status_text(state.display_path, info, state.last_change),
                                style: status_style(),
                            },
                        ],
                        help: seq![SpanModel { content: help_text(), style: dim_style() }],
                    },
                ),
            )
        },
    }
}

impl View for AppState {
    type V = AppModel;

    closed spec fn view(&self) -> AppModel {
        AppModel {
            phase: self.phase,
            path: self.path@,
            display_path: self.display_path@,
            last_change: opt_text(self.last_change),
            use_color: self.use_color,
            quiet: self.quiet,
            scroll: self.scroll,
            highlights: self.highlights@,
            highlight_secs: self.highlight_duration_secs,
            tree_cache: match self.tree_cache {
                Some(snapshot) => Some(snapshot@),
                None => None,
            },
        }
    }
}

/// The part of the terminal that shows the tree, in rows.
pub fn visible_height(size: Option<(u16, u16)>) -> (rows: usize)
    ensures
        rows == tree_height(size),
{
    let rows = match size {
        Some(s) => s.1,
        None => 24,
    };
    if rows >= 2 {
        (rows - 2) as usize
    } else {
        0
    }
}

fn raw_line(content: String) -> (line: Line)
    ensures
        line@ == seq![SpanModel { content: content@, style: plain_style() }],
{
    let mut spans: Vec<Span> = Vec::new();
    spans.push(Span { content, style: Style { fg: None, bg: None, bold: false } });
    let line = Line { spans };
    assert(line@ =~= seq![SpanModel { content: content@, style: plain_style() }]);
    line
}

impl AppState {
    /// The state at the start: running, at the top, nothing highlighted,
    /// highlights lasting three seconds, and no tree built yet.
    /// `display_path` is the watched path as the status bar is to show it.
    pub fn new(path: String, display_path: String, use_color: bool, quiet: bool) -> (state: AppState)
        ensures
            state@ == (AppModel {
                phase: Phase::Running,
                path: path@,
                display_path: display_path@,
                last_change: None,
                use_color,
                quiet,
                scroll: ScrollState { offset: 0, total_lines: 0 },
                highlights: TrackerModel { touched: Map::empty(), duration: seconds(3) },
                highlight_secs: 3,
                tree_cache: None,
            }),
    {
        let highlights = HighlightTracker::with_duration(Duration::from_secs(3));
        AppState {
            phase: Phase::Running,
            path,
            display_path,
            last_change: None,
            use_color,
            quiet,
            scroll: ScrollState::new(),
            highlights,
            highlight_duration_secs: 3,
            tree_cache: None,
        }
    }

    /// Whether the loop goes on.
    pub fn is_running(&self) -> (r: bool)
        ensures
            r == (self@.phase is Running),
    {
        match self.phase {
            Phase::Running => true,
            Phase::Exiting => false,
        }
    }

    /// Whether the tree has to be built before the next frame.
    pub fn needs_tree(&self) -> (r: bool)
        ensures
            r == (self@.tree_cache is None),
    {
        self.tree_cache.is_none()
    }

    /// The highlight duration in whole seconds.
    pub fn highlight_secs(&self) -> (secs: u64)
        ensures
            secs == self@.highlight_secs,
    {
        self.highlight_duration_secs
    }

    /// Puts a freshly built tree into the cache.
    pub fn set_tree(&mut self, snapshot: TreeSnapshot)
        ensures
            final(self)@ == old(self)@.with_tree(snapshot@),
    {
        self.tree_cache = Some(snapshot);
    }

    fn set_highlight_secs(&mut self, secs: u64)
        ensures
            final(self)@ == old(self)@.with_highlight_secs(secs),
    {
        self.highlight_duration_secs = secs;
        self.highlights.set_duration(Duration::from_secs(secs));
    }

    fn apply_command(&mut self, command: Command, page: usize) -> (action: Action)
        ensures
            (final(self)@, action@) == old(self)@.after_command(command, page),
    {
        match command {
            Command::Quit => {
                self.phase = Phase::Exiting;
                Action::Exit
            },
            Command::ResetHighlights => {
                self.highlights.clear();
                Action::Render
            },
            Command::LineUp => {
                self.scroll.scroll_up(1);
                Action::Render
            },
            Command::LineDown => {
                self.scroll.scroll_down(1);
                Action::Render
            },
            Command::PageUp => {
                self.scroll.scroll_up(page);
                Action::Render
            },
            Command::PageDown => {
                self.scroll.scroll_down(page);
                Action::Render
            },
            Command::Home => {
                self.scroll.scroll_home();
                Action::Render
            },
            Command::End => {
                self.scroll.scroll_end();
                Action::Render
            },
            Command::LongerHighlight => {
                if self.highlight_duration_secs < MAX_HIGHLIGHT_SECS {
                    let secs = self.highlight_duration_secs + 1;
                    self.set_highlight_secs(secs);
                }
                Action::Render
            },
            Command::ShorterHighlight => {
                if self.highlight_duration_secs > 0 {
                    let secs = self.highlight_duration_secs - 1;
                    self.set_highlight_secs(secs);
                } else {
                    self.set_highlight_secs(0);
                }
                Action::Render
            },
            Command::Redraw => Action::Render,
            Command::Ignore => Action::Nothing,
        }
    }

    fn apply_watch(&mut self, event: WatchEvent, now: Instant, clock: String) -> (action: Action)
        ensures
            (final(self)@, action@) == old(self)@.after_watch(event@, now, clock@),
    {
        match event {
            WatchEvent::Changed(paths) => {
                self.last_change = Some(clock);
                self.tree_cache = None;
                let ghost start = self.highlights@;
                let ghost all = texts(paths@);
                let mut i: usize = 0;
                assert(all.take(0) =~= Seq::<Seq<char>>::empty());
                while i < paths.len()
                    invariant
                        i <= paths.len(),
                        all == texts(paths@),
                        self.highlights@ == touch_all(start, all.take(i as int), now),
                        self.highlight_duration_secs == old(self).highlight_duration_secs,
                        self.phase == old(self).phase,
                        self.path == old(self).path,
                        self.display_path == old(self).display_path,
                        self.last_change == Some(clock),
                        self.use_color == old(self).use_color,
                        self.quiet == old(self).quiet,
                        self.scroll == old(self).scroll,
                        self.tree_cache is None,
                    decreases paths.len() - i,
                {
                    proof {
                        let done = all.take(i + 1);
                        assert(done.drop_last() =~= all.take(i as int));
                        assert(done.last() == paths@[i as int]@);
                    }
                    self.highlights.insert(paths[i].clone(), now);
                    i += 1;
                }
                assert(all.take(paths@.len() as int) =~= all);
                Action::Render
            },
            WatchEvent::RootDeleted => {
                self.phase = Phase::Exiting;
                let safe_path = sanitize_terminal_text(self.path.as_str());
                let mut first = String::new();
                first.append("Directory deleted: ");
                first.append(safe_path.as_str());
                assert(first@ =~= "Directory deleted: "@ + sanitized(self.path@));
                let mut second = String::new();
                second.append("Exiting...");
                assert(second@ =~= "Exiting..."@);
                let mut lines: Vec<Line> = Vec::new();
                lines.push(raw_line(first));
                lines.push(raw_line(second));
                assert(line_models(lines@) =~= farewell_lines(self.path@));
                Action::Farewell(lines)
            },
            WatchEvent::Error(message) => {
                if self.quiet {
                    Action::Nothing
                } else {
                    let safe_message = sanitize_terminal_text(message.as_str());
                    let mut text = String::new();
                    text.append("Watcher error: ");
                    text.append(safe_message.as_str());
                    assert(text@ =~= "Watcher error: "@ + sanitized(message@));
                    Action::Report(text)
                }
            },
        }
    }

    /// Composes one frame from the cached tree, if there is one: prunes
    /// the highlights, renders the lines, brings the viewport back within
    /// them and writes the status bar.
    pub fn frame(&mut self, size: Option<(u16, u16)>, now: Instant) -> (frame: Option<Frame>)
        ensures
            match frame_of(old(self)@, size, now) {
                Some((state, shown)) => final(self)@ == state && frame is Some && frame->0@ == shown,
                None => final(self)@ == old(self)@ && frame is None,
            },
    {
        if self.tree_cache.is_none() {
            return None;
        }
        let ghost before = self@;
        let ghost snapshot_model = before.tree_cache->0;
        let active = self.highlights.active_set(now);
        let dimensions = terminal_size(size);
        let r_cfg = RenderConfig { use_color: self.use_color, terminal_width: dimensions.0 };
        let (mut tree_lines, shown, total) = match &self.tree_cache {
            Some(snapshot) => (
                tree_to_lines(snapshot.entries.as_slice(), &r_cfg, active.as_slice()),
                snapshot.entries.len(),
                snapshot.total_entries,
            ),
            None => (Vec::new(), 0, 0),
        };
        let truncated = total > shown;
        let ghost entry_lines = line_models(tree_lines@);
        if truncated {
            tree_lines.push(truncation_line(shown, total));
            assert(line_models(tree_lines@) =~= entry_lines.push(
                seq![
                    SpanModel {
                        content: truncation_text(shown as nat, total as nat),
                        style: dim_style(),
                    },
                ],
            ));
        }
        assert(line_models(tree_lines@) =~= tree_lines_of(
            snapshot_model,
            before.use_color,
            before.highlights,
            now,
        ));
        let height = visible_height(size);
        self.scroll.update_total_and_clamp(tree_lines.len(), height);
        let scroll_offset = self.scroll.offset();
        let total_lines = tree_lines.len();

        let mut info = String::new();
        if truncated {
            info.append("showing ");
            push_decimal(&mut info, shown as u128);
            info.append(" of ");
            push_decimal(&mut info, total as u128);
            info.append(" entries (truncated)");
        } else if total_lines > height {
            push_decimal(&mut info, total as u128);
            info.append(" entries (");
            push_decimal(&mut info, height as u128);
            info.append(" visible, scroll ");
            push_decimal(&mut info, scroll_offset as u128 + 1);
            info.append("/");
            push_decimal(&mut info, (total_lines - height) as u128 + 1);
            info.append(")");
        } else {
            push_decimal(&mut info, total as u128);
            info.append(" entries");
        }
        assert(info@ =~= entry_count_text(
            shown as nat,
            total as nat,
            total_lines as nat,
            height as nat,
            scroll_offset as nat,
        ));
        let status = match &self.last_change {
            Some(ts) => status_bar_line(self.display_path.as_str(), info.as_str(), Some(ts.as_str())),
            None => status_bar_line(self.display_path.as_str(), info.as_str(), None),
        };
        let help = help_bar_line();
        Some(Frame { tree_lines, scroll_offset, status, help })
    }

    /// Composes one frame, building the tree first if a change has made
    /// the cached one stale.
    pub fn render<B: TreeBuilder>(
        &mut self,
        builder: &B,
        config: &TreeConfig,
        size: Option<(u16, u16)>,
        now: Instant,
    ) -> (frame: Frame)
        ensures
            old(self)@.tree_cache is Some ==> frame_of(old(self)@, size, now) == Some(
                (final(self)@, frame@),
            ),
            old(self)@.tree_cache is None ==> exists|built: SnapshotModel|
                frame_of(#[trigger] old(self)@.with_tree(built), size, now) == Some(
                    (final(self)@, frame@),
                ),
    {
        if self.needs_tree() {
            let snapshot = builder.build_tree(self.path.as_str(), config);
            let ghost built = snapshot@;
            self.set_tree(snapshot);
            let frame = self.frame(size, now);
            assert(frame_of(old(self)@.with_tree(built), size, now) == Some(
                (self@, frame->0@),
            ));
            frame.unwrap()
        } else {
            self.frame(size, now).unwrap()
        }
    }

    /// Takes one event and tells the caller what to do. `now` is the time
    /// of the event, `clock` the time of day to note if the event is a
    /// change, `size` the size of the terminal if it is known.
    pub fn handle_event(
        &mut self,
        event: LoopEvent,
        now: Instant,
        clock: String,
        size: Option<(u16, u16)>,
    ) -> (action: Action)
        ensures
            (final(self)@, action@) == old(self)@.step(event@, now, clock@, size),
    {
        if !self.is_running() {
            return Action::Exit;
        }
        match event {
            LoopEvent::Watch(e) => self.apply_watch(e, now, clock),
            LoopEvent::WatchClosed => {
                self.phase = Phase::Exiting;
                Action::Exit
            },
            LoopEvent::Input(e) => self.apply_command(key_command(e), visible_height(size)),
            LoopEvent::InputClosed => {
                self.phase = Phase::Exiting;
                Action::Exit
            },
            LoopEvent::Tick { interrupted } => {
                if interrupted {
                    self.phase = Phase::Exiting;
                    Action::Exit
                } else {
                    Action::Nothing
                }
            },
        }
    }
}

/// Touching paths does not change how long a highlight lasts.
pub proof fn lemma_touch_all_keeps_duration(tracker: TrackerModel, paths: Seq<Seq<char>>, now: Instant)
    ensures
        touch_all(tracker, paths, now).duration == tracker.duration,
    decreases paths.len(),
{
    if paths.len() > 0 {
        lemma_touch_all_keeps_duration(tracker, paths.drop_last(), now);
    }
}

/// Whether the event is a change in the file system.
pub open spec fn is_change(event: LoopEventModel) -> bool {
    event matches LoopEventModel::Watch(EventModel::Changed(_))
}

/// The command that the event carries; `Ignore` for an event that is no
/// input.
pub open spec fn command_in(event: LoopEventModel) -> Command {
    match event {
        LoopEventModel::Input(e) => command_of(e),
        _ => Command::Ignore,
    }
}

/// Once the loop is to be left, no event leads back: the state stays as it
/// is, and the caller is told to leave.
pub proof fn lemma_exiting_is_final(
    state: AppModel,
    event: LoopEventModel,
    now: Instant,
    clock: Seq<char>,
    size: Option<(u16, u16)>,
)
    requires
        state.phase is Exiting,
    ensures
        state.step(event, now, clock, size) == (state, ActionModel::Exit),
{
}

/// The loop is left exactly on these events: the quit keys, an interrupt
/// seen on a tick, the loss of the watched directory, and the closing of
/// either channel.
pub proof fn lemma_what_ends_the_loop(
    state: AppModel,
    event: LoopEventModel,
    now: Instant,
    clock: Seq<char>,
    size: Option<(u16, u16)>,
)
    requires
        state.phase is Running,
    ensures
        state.step(event, now, clock, size).0.phase is Exiting <==> (event
            == LoopEventModel::Watch(EventModel::RootDeleted) || event is WatchClosed || event
            is InputClosed || event == (LoopEventModel::Tick { interrupted: true }) || command_in(
            event,
        ) is Quit),
{
}

/// Only a change in the file system makes the cached tree stale: after
/// any other event the tree of the last build is still there, so that
/// scrolling and resizing never walk the file system again. Drawing a frame
/// keeps the tree too.
pub proof fn lemma_only_changes_drop_the_tree(
    state: AppModel,
    event: LoopEventModel,
    now: Instant,
    clock: Seq<char>,
    size: Option<(u16, u16)>,
)
    ensures
        !is_change(event) ==> state.step(event, now, clock, size).0.tree_cache == state.tree_cache,
        state.phase is Running && is_change(event) ==> state.step(
            event,
            now,
            clock,
            size,
        ).0.tree_cache is None,
        match frame_of(state, size, now) {
            Some((after, _)) => after.tree_cache == state.tree_cache,
            None => true,
        },
{
}

/// Every event asks for at most one frame, and an event that changes
/// what is shown asks for exactly one: a change in the file system, and
/// every command but quitting.
pub proof fn lemma_one_frame_per_event(
    state: AppModel,
    event: LoopEventModel,
    now: Instant,
    clock: Seq<char>,
    size: Option<(u16, u16)>,
)
    requires
        state.phase is Running,
    ensures
        state.step(event, now, clock, size).1 is Render <==> (is_change(event) || (!(command_in(
            event,
        ) is Quit) && !(command_in(event) is Ignore))),
        state.step(event, now, clock, size).1 is Nothing ==> state.step(event, now, clock, size).0
            == state,
{
}

/// The highlight duration stays between 0 and 3600 seconds, and the
/// tracker's duration is that number of seconds, whatever the events.
pub proof fn lemma_highlight_duration_stays_in_range(
    state: AppModel,
    event: LoopEventModel,
    now: Instant,
    clock: Seq<char>,
    size: Option<(u16, u16)>,
)
    requires
        state.highlight_secs <= MAX_HIGHLIGHT_SECS,
        state.highlights.duration == seconds(state.highlight_secs),
    ensures
        state.step(event, now, clock, size).0.highlight_secs <= MAX_HIGHLIGHT_SECS,
        state.step(event, now, clock, size).0.highlights.duration == seconds(
            state.step(event, now, clock, size).0.highlight_secs,
        ),
{
    if let LoopEventModel::Watch(EventModel::Changed(paths)) = event {
        lemma_touch_all_keeps_duration(state.highlights, paths, now);
    }
}

/// After a frame was drawn the viewport lies within the lines: its offset
/// is at most the number of lines less the height of the tree's part of the
/// terminal, and zero where all lines fit.
pub proof fn lemma_frame_clamps_the_viewport(state: AppModel, size: Option<(u16, u16)>, now: Instant)
    requires
        frame_of(state, size, now) is Some,
        state.tree_cache->0.entries.len() < usize::MAX,
    ensures
        ({
            let (after, frame) = frame_of(state, size, now)->0;
            &&& after.scroll.total_lines == frame.tree_lines.len()
            &&& frame.scroll_offset == after.scroll.offset
            &&& after.scroll.total_lines > tree_height(size) ==> after.scroll.offset
                <= after.scroll.total_lines - tree_height(size)
            &&& after.scroll.total_lines <= tree_height(size) ==> after.scroll.offset == 0
        }),
{
}

/// Every path of a change is highlighted right after the change, where
/// highlights last at all.
pub proof fn lemma_changed_paths_are_highlighted(
    tracker: TrackerModel,
    paths: Seq<Seq<char>>,
    now: Instant,
    i: int,
)
    requires
        0 <= i < paths.len(),
        tracker.duration.nanos > 0,
    ensures
        touch_all(tracker, paths, now).is_live(paths[i], now),
    decreases paths.len(),
{
    lemma_touch_all_keeps_duration(tracker, paths, now);
    lemma_touch_all_keeps_duration(tracker, paths.drop_last(), now);
    if i < paths.len() - 1 {
        lemma_changed_paths_are_highlighted(tracker, paths.drop_last(), now, i);
    }
}

/// Neither the lines shown when the watched directory is gone nor the
/// report of a watcher error hold a control character, whatever the path
/// and the error are.
pub proof fn lemma_messages_control_free(path: Seq<char>, message: Seq<char>)
    ensures
        forall|i: int|
            0 <= i < farewell_lines(path).len() ==> spans_control_free(
                #[trigger] farewell_lines(path)[i],
            ),
        control_free("Watcher error: "@ + sanitized(message)),
{
    reveal_strlit("Directory deleted: ");
    reveal_strlit("Exiting...");
    reveal_strlit("Watcher error: ");
    lemma_sanitized_control_free(path);
    lemma_sanitized_control_free(message);
    lemma_concat_control_free("Directory deleted: "@, sanitized(path));
    lemma_concat_control_free("Watcher error: "@, sanitized(message));
}

} // verus!
