//! Rendering: from tree entries to styled lines of text in which no
//! control character survives.

use crate::text::{contains_run, control_free, is_control, push_decimal, push_two_hex_digits};
use crate::text::{contains_path, holds_path, lemma_concat_control_free, lemma_run_within};
use crate::text::{char_is_control, decimal, two_hex_digits};
use crate::text::{lemma_decimal_control_free, lemma_hex_not_control};
use crate::tree::layout::{layout, lemma_prefix_control_free, marks_of, with_last_flags, RawModel};
use crate::tree::{EntryModel, TreeEntry};
use vstd::prelude::*;
use vstd::string::StringExecFns;

verus! {

/// The colors that the view uses.
#[derive(Debug, Clone, Copy, PartialEq, Eq)]
pub enum Color {
    Blue,
    Cyan,
    Red,
    White,
    DarkGray,
    Rgb(u8, u8, u8),
}

/// How a piece of text is drawn.
#[derive(Debug, Clone, Copy, PartialEq, Eq)]
pub struct Style {
    /// Foreground color; `None` leaves the terminal's own.
    pub fg: Option<Color>,
    /// Background color; `None` leaves the terminal's own.
    pub bg: Option<Color>,
    /// Whether the text is bold.
    pub bold: bool,
}

/// A piece of text with one style.
#[derive(Debug, Clone, PartialEq)]
pub struct Span {
    pub content: String,
    pub style: Style,
}

/// One line of the display: its spans, from left to right.
#[derive(Debug, Clone, PartialEq)]
pub struct Line {
    pub spans: Vec<Span>,
}

/// What the renderer needs to know of the terminal.
pub struct RenderConfig {
    /// Whether styles carry colors.
    pub use_color: bool,
    /// Width of the terminal in columns.
    pub terminal_width: u16,
}

/// A span as plain values.
pub ghost struct SpanModel {
    pub content: Seq<char>,
    pub style: Style,
}

impl View for Span {
    type V = SpanModel;

    open spec fn view(&self) -> SpanModel {
        SpanModel { content: self.content@, style: self.style }
    }
}

impl View for Line {
    type V = Seq<SpanModel>;

    open spec fn view(&self) -> Seq<SpanModel> {
        Seq::new(self.spans@.len(), |i: int| self.spans@[i]@)
    }
}

/// The models of a list of lines, in order.
pub open spec fn line_models(lines: Seq<Line>) -> Seq<Seq<SpanModel>> {
    Seq::new(lines.len(), |i: int| lines[i]@)
}

/// The style of unstyled text.
pub open spec fn plain_style() -> Style {
    Style { fg: None, bg: None, bold: false }
}

/// The style of a directory's name: bold blue.
pub open spec fn dir_style() -> Style {
    Style { fg: Some(Color::Blue), bg: None, bold: true }
}

/// The style of a link's name: cyan.
pub open spec fn symlink_style() -> Style {
    Style { fg: Some(Color::Cyan), bg: None, bold: false }
}

/// The style of an entry that could not be read: red.
pub open spec fn error_style() -> Style {
    Style { fg: Some(Color::Red), bg: None, bold: false }
}

/// The style of the box-drawing prefix: white.
pub open spec fn prefix_style() -> Style {
    Style { fg: Some(Color::White), bg: None, bold: false }
}

/// The style of a recently changed entry that is no directory: bold cyan.
pub open spec fn changed_style() -> Style {
    Style { fg: Some(Color::Cyan), bg: None, bold: true }
}

/// The style of a recently changed directory: bold turquoise, apart from
/// both the blue of a directory and the cyan of a changed file.
pub open spec fn changed_dir_style() -> Style {
    Style { fg: Some(Color::Rgb(64, 224, 208)), bg: None, bold: true }
}

/// The style of informational lines: dark gray.
pub open spec fn dim_style() -> Style {
    Style { fg: Some(Color::DarkGray), bg: None, bold: false }
}

/// The style of the status bar: bold white on dark gray.
pub open spec fn status_style() -> Style {
    Style { fg: Some(Color::White), bg: Some(Color::DarkGray), bold: true }
}

/// What is shown in place of one character: an escape token for a control
/// code, the character itself for any other.
pub open spec fn escape(c: char) -> Seq<char> {
    if c == '\n' {
        seq!['\\', 'n']
    } else if c == '\r' {
        seq!['\\', 'r']
    } else if c == '\t' {
        seq!['\\', 't']
    } else if is_control(c) {
        seq!['\\', 'x'] + two_hex_digits(c as u32 as nat)
    } else {
        seq![c]
    }
}

/// The text with every character replaced by what is shown for it.
pub open spec fn sanitized(s: Seq<char>) -> Seq<char>
    decreases s.len(),
{
    if s.len() == 0 {
        Seq::empty()
    } else {
        sanitized(s.drop_last()) + escape(s.last())
    }
}

/// What is shown for a character holds no control code.
pub proof fn lemma_escape_control_free(c: char)
    ensures
        control_free(escape(c)),
        escape(c).len() >= 1,
{
    if is_control(c) {
        lemma_hex_not_control(((c as u32 as nat) / 16) as int);
        lemma_hex_not_control(((c as u32 as nat) % 16) as int);
    }
}

/// Sanitized text holds no control code, whatever the input.
pub proof fn lemma_sanitized_control_free(s: Seq<char>)
    ensures
        control_free(sanitized(s)),
    decreases s.len(),
{
    if s.len() > 0 {
        lemma_sanitized_control_free(s.drop_last());
        lemma_escape_control_free(s.last());
    }
}

/// Sanitizing a text in two parts and joining the results is sanitizing
/// the whole.
pub proof fn lemma_sanitized_concat(a: Seq<char>, b: Seq<char>)
    ensures
        sanitized(a + b) == sanitized(a) + sanitized(b),
    decreases b.len(),
{
    if b.len() == 0 {
        assert(a + b =~= a);
        assert(sanitized(a) + sanitized(b) =~= sanitized(a));
    } else {
        lemma_sanitized_concat(a, b.drop_last());
        assert((a + b).drop_last() =~= a + b.drop_last());
        assert((a + b).last() == b.last());
        assert(sanitized(a + b) =~= sanitized(a) + sanitized(b));
    }
}

/// For every character of the input, sanitized text holds what is shown
/// for it: the escape token of a control code, or the character itself.
pub proof fn lemma_sanitized_holds_token(s: Seq<char>, i: int)
    requires
        0 <= i < s.len(),
    ensures
        contains_run(sanitized(s), escape(s[i])),
{
    let head = s.subrange(0, i);
    let tail = s.subrange(i + 1, s.len() as int);
    let one = seq![s[i]];
    assert(s =~= head + one + tail);
    lemma_sanitized_concat(head + one, tail);
    lemma_sanitized_concat(head, one);
    assert(one.drop_last() =~= Seq::<char>::empty());
    assert(sanitized(one.drop_last()) =~= Seq::<char>::empty());
    assert(sanitized(one) =~= escape(s[i]));
    let k = sanitized(head).len() as int;
    assert(sanitized(s).subrange(k, k + escape(s[i]).len()) =~= escape(s[i]));
}

/// Copy of `input` in which every control code is written as a visible
/// escape token, so that no text on display can steer the terminal.
pub fn sanitize_terminal_text(input: &str) -> (out: String)
    ensures
        out@ == sanitized(input@),
        control_free(out@),
{
    let mut out = String::new();
    for c in it: input.chars()
        invariant
            it.seq() == input@,
            out@ == sanitized(input@.take(it.index() as int)),
    {
        let ghost before = out@;
        if c == '\n' {
            out.push('\\');
            out.push('n');
        } else if c == '\r' {
            out.push('\\');
            out.push('r');
        } else if c == '\t' {
            out.push('\\');
            out.push('t');
        } else if char_is_control(c) {
            let code: u32 = c as u32;
            out.push('\\');
            out.push('x');
            push_two_hex_digits(&mut out, code as u8);
            assert(out@ =~= before + (seq!['\\', 'x'] + two_hex_digits(c as u32 as nat)));
        } else {
            out.push(c);
        }
        proof {
            let done = input@.take(it.index() + 1);
            assert(done.drop_last() =~= input@.take(it.index() as int));
            assert(done.last() == c);
            assert(out@ =~= before + escape(c));
        }
    }
    proof {
        assert(input@.take(input@.len() as int) =~= input@);
        lemma_sanitized_control_free(input@);
    }
    out
}

/// The span of the prefix: none for an empty prefix, else the prefix in
/// white, or unstyled where colors are off.
pub open spec fn prefix_spans(e: EntryModel, use_color: bool) -> Seq<SpanModel> {
    if e.prefix.len() == 0 {
        Seq::empty()
    } else {
        seq![
            SpanModel {
                content: e.prefix,
                style: if use_color {
                    prefix_style()
                } else {
                    plain_style()
                },
            },
        ]
    }
}

/// The span that shows where a link points, in the given style; none for
/// an entry that is no link or has no target.
pub open spec fn target_spans(e: EntryModel, style: Style) -> Seq<SpanModel> {
    if e.is_symlink && e.symlink_target is Some {
        seq![SpanModel { content: " -> "@ + sanitized(e.symlink_target->0), style }]
    } else {
        Seq::empty()
    }
}

/// `style` where colors are on, no style where they are off.
pub open spec fn colored(style: Style, use_color: bool) -> Style {
    if use_color {
        style
    } else {
        plain_style()
    }
}

/// The spans of the name and what follows it. The first rule that applies
/// decides: recently changed, unreadable, link, directory, plain file.
pub open spec fn name_spans(e: EntryModel, use_color: bool, highlighted: bool) -> Seq<SpanModel> {
    let name = sanitized(e.name);
    if highlighted {
        let style = if e.is_dir {
            changed_dir_style()
        } else {
            changed_style()
        };
        seq![SpanModel { content: name, style }] + target_spans(e, style)
    } else if e.error is Some {
        seq![
            SpanModel {
                content: name + " ["@ + sanitized(e.error->0) + "]"@,
                style: colored(error_style(), use_color),
            },
        ]
    } else if e.is_symlink {
        seq![SpanModel { content: name, style: colored(symlink_style(), use_color) }]
            + target_spans(e, plain_style())
    } else if e.is_dir {
        seq![SpanModel { content: name, style: colored(dir_style(), use_color) }]
    } else {
        seq![SpanModel { content: name, style: plain_style() }]
    }
}

/// The line of one entry. An entry is highlighted when colors are on and
/// its path was recently changed.
pub open spec fn entry_spans(e: EntryModel, use_color: bool, changed: bool) -> Seq<SpanModel> {
    prefix_spans(e, use_color) + name_spans(e, use_color, use_color && changed)
}

/// The text of a line without its styles.
pub open spec fn plain_text(spans: Seq<SpanModel>) -> Seq<char>
    decreases spans.len(),
{
    if spans.len() == 0 {
        Seq::empty()
    } else {
        plain_text(spans.drop_last()) + spans.last().content
    }
}

fn style(fg: Option<Color>, bg: Option<Color>, bold: bool, use_color: bool) -> (r: Style)
    ensures
        r == colored(Style { fg, bg, bold }, use_color),
{
    if use_color {
        Style { fg, bg, bold }
    } else {
        Style { fg: None, bg: None, bold: false }
    }
}

fn target_text(target: &String) -> (r: String)
    ensures
        r@ == " -> "@ + sanitized(target@),
{
    let safe_target = sanitize_terminal_text(target.as_str());
    let mut text = String::new();
    text.append(" -> ");
    text.append(safe_target.as_str());
    assert(text@ =~= " -> "@ + sanitized(target@));
    text
}

/// Renders one entry as a styled line.
pub fn entry_to_line(entry: &TreeEntry, config: &RenderConfig, changed_paths: &[String]) -> (line:
    Line)
    ensures
        line@ == entry_spans(entry@, config.use_color, holds_path(changed_paths@, entry.path@)),
{
    let use_color = config.use_color;
    let is_changed = use_color && contains_path(changed_paths, &entry.path);
    let mut spans: Vec<Span> = Vec::new();
    let safe_name = sanitize_terminal_text(entry.name.as_str());
    let ghost e = entry@;

    if !entry.prefix.as_str().is_empty() {
        spans.push(
            Span {
                content: entry.prefix.clone(),
                style: style(Some(Color::White), None, false, use_color),
            },
        );
    }
    let ghost lead = Seq::new(spans@.len(), |i: int| spans@[i]@);
    assert(lead =~= prefix_spans(e, use_color));

    if is_changed {
        let changed = if entry.is_dir {
            Style { fg: Some(Color::Rgb(64, 224, 208)), bg: None, bold: true }
        } else {
            Style { fg: Some(Color::Cyan), bg: None, bold: true }
        };
        spans.push(Span { content: safe_name, style: changed });
        if entry.is_symlink {
            match &entry.symlink_target {
                Some(target) => {
                    spans.push(Span { content: target_text(target), style: changed });
                },
                None => {},
            }
        }
    } else {
        match &entry.error {
            Some(err) => {
                let safe_err = sanitize_terminal_text(err.as_str());
                let mut text = safe_name;
                text.append(" [");
                text.append(safe_err.as_str());
                text.append("]");
                spans.push(
                    Span { content: text, style: style(Some(Color::Red), None, false, use_color) },
                );
            },
            None => {
                if entry.is_symlink {
                    spans.push(
                        Span {
                            content: safe_name,
                            style: style(Some(Color::Cyan), None, false, use_color),
                        },
                    );
                    match &entry.symlink_target {
                        Some(target) => {
                            spans.push(
                                Span {
                                    content: target_text(target),
                                    style: Style { fg: None, bg: None, bold: false },
                                },
                            );
                        },
                        None => {},
                    }
                } else if entry.is_dir {
                    spans.push(
                        Span {
                            content: safe_name,
                            style: style(Some(Color::Blue), None, true, use_color),
                        },
                    );
                } else {
                    spans.push(
                        Span { content: safe_name, style: Style { fg: None, bg: None, bold: false } },
                    );
                }
            },
        }
    }
    let line = Line { spans };
    assert(line@ =~= lead + name_spans(e, use_color, is_changed));
    line
}

/// Renders the entries, one line for each, in their order.
pub fn tree_to_lines(entries: &[TreeEntry], config: &RenderConfig, changed_paths: &[String]) -> (lines:
    Vec<Line>)
    ensures
        lines.len() == entries.len(),
        forall|i: int|
            0 <= i < entries.len() ==> (#[trigger] lines[i])@ == entry_spans(
                entries[i]@,
                config.use_color,
                holds_path(changed_paths@, entries[i].path@),
            ),
{
    let mut lines: Vec<Line> = Vec::with_capacity(entries.len());
    let mut i: usize = 0;
    while i < entries.len()
        invariant
            i <= entries.len(),
            lines.len() == i,
            forall|k: int|
                0 <= k < i ==> (#[trigger] lines[k])@ == entry_spans(
                    entries[k]@,
                    config.use_color,
                    holds_path(changed_paths@, entries[k].path@),
                ),
        decreases entries.len() - i,
    {
        lines.push(entry_to_line(&entries[i], config, changed_paths));
        i += 1;
    }
    lines
}

/// The text of the line that tells of a capped tree.
pub open spec fn truncation_text(shown: nat, total: nat) -> Seq<char> {
    "... showing "@ + decimal(shown) + " of "@ + decimal(total) + " entries (truncated)"@
}

/// The line that says how many of the entries are shown.
pub fn truncation_line(shown: usize, total: usize) -> (line: Line)
    ensures
        line@ == seq![
            SpanModel { content: truncation_text(shown as nat, total as nat), style: dim_style() },
        ],
{
    let mut msg = String::new();
    msg.append("... showing ");
    push_decimal(&mut msg, shown as u128);
    msg.append(" of ");
    push_decimal(&mut msg, total as u128);
    msg.append(" entries (truncated)");
    assert(msg@ =~= truncation_text(shown as nat, total as nat));
    let mut spans: Vec<Span> = Vec::new();
    spans.push(Span { content: msg, style: Style { fg: Some(Color::DarkGray), bg: None, bold: false } });
    let line = Line { spans };
    assert(line@ =~= seq![
        SpanModel { content: truncation_text(shown as nat, total as nat), style: dim_style() },
    ]);
    line
}

/// The text of the status bar.
pub open spec fn status_text(
    watched_path: Seq<char>,
    entry_info: Seq<char>,
    last_change: Option<Seq<char>>,
) -> Seq<char> {
    " Watching: "@ + sanitized(watched_path) + "  |  "@ + sanitized(entry_info) + "  |  "@ + (
    match last_change {
        Some(ts) => "Last change: "@ + sanitized(ts),
        None => "No changes yet"@,
    })
}

/// The status bar: the watched path, what is shown of it, and when it last
/// changed.
pub fn status_bar_line(watched_path: &str, entry_info: &str, last_change: Option<&str>) -> (line:
    Line)
    ensures
        line@ == seq![
            SpanModel {
                content: status_text(
                    watched_path@,
                    entry_info@,
                    match last_change {
                        Some(ts) => Some(ts@),
                        None => None,
                    },
                ),
                style: status_style(),
            },
        ],
{
    let safe_path = sanitize_terminal_text(watched_path);
    let safe_entry_info = sanitize_terminal_text(entry_info);
    let mut text = String::new();
    text.append(" Watching: ");
    text.append(safe_path.as_str());
    text.append("  |  ");
    text.append(safe_entry_info.as_str());
    text.append("  |  ");
    let ghost shown = match last_change {
        Some(ts) => Some(ts@),
        None => None,
    };
    let ghost head = text@;
    match last_change {
        Some(ts) => {
            let safe_ts = sanitize_terminal_text(ts);
            text.append("Last change: ");
            text.append(safe_ts.as_str());
            assert(text@ =~= head + ("Last change: "@ + sanitized(ts@)));
        },
        None => {
            text.append("No changes yet");
        },
    }
    assert(text@ =~= status_text(watched_path@, entry_info@, shown));
    let mut spans: Vec<Span> = Vec::new();
    spans.push(
        Span {
            content: text,
            style: Style { fg: Some(Color::White), bg: Some(Color::DarkGray), bold: true },
        },
    );
    let line = Line { spans };
    assert(line@ =~= seq![
        SpanModel { content: status_text(watched_path@, entry_info@, shown), style: status_style() },
    ]);
    line
}

/// The text of the help bar.
pub open spec fn help_text() -> Seq<char> {
    " q: Quit  |  r: Reset  |  \u{2191}\u{2193}/jk: Scroll  |  PgUp/PgDn: Page  |  Home/End  |  +/-: Highlight duration"@
}

/// The help bar: the keys that the view answers to.
pub fn help_bar_line() -> (line: Line)
    ensures
        line@ == seq![SpanModel { content: help_text(), style: dim_style() }],
{
    let mut text = String::new();
    text.append(
        " q: Quit  |  r: Reset  |  \u{2191}\u{2193}/jk: Scroll  |  PgUp/PgDn: Page  |  Home/End  |  +/-: Highlight duration",
    );
    assert(text@ =~= help_text());
    let mut spans: Vec<Span> = Vec::new();
    spans.push(Span { content: text, style: Style { fg: Some(Color::DarkGray), bg: None, bold: false } });
    let line = Line { spans };
    assert(line@ =~= seq![SpanModel { content: help_text(), style: dim_style() }]);
    line
}

/// The text of a line, its spans joined without their styles.
pub fn line_to_plain_text(line: &Line) -> (text: String)
    ensures
        text@ == plain_text(line@),
{
    let mut text = String::new();
    let mut i: usize = 0;
    while i < line.spans.len()
        invariant
            i <= line.spans.len(),
            text@ == plain_text(line@.take(i as int)),
        decreases line.spans.len() - i,
    {
        text.append(line.spans[i].content.as_str());
        proof {
            let done = line@.take(i + 1);
            assert(done.drop_last() =~= line@.take(i as int));
            assert(done.last() == line.spans@[i as int]@);
        }
        i += 1;
    }
    assert(line@.take(line.spans@.len() as int) =~= line@);
    text
}

/// The fixed pieces of text that the lines are put together from hold no
/// control code.
proof fn lemma_fixed_text_control_free()
    ensures
        control_free(" -> "@),
        control_free(" ["@),
        control_free("]"@),
        control_free(" Watching: "@),
        control_free("  |  "@),
        control_free("Last change: "@),
        control_free("No changes yet"@),
        control_free("... showing "@),
        control_free(" of "@),
        control_free(" entries (truncated)"@),
{
    reveal_strlit(" -> ");
    reveal_strlit(" [");
    reveal_strlit("]");
    reveal_strlit(" Watching: ");
    reveal_strlit("  |  ");
    reveal_strlit("Last change: ");
    reveal_strlit("No changes yet");
    reveal_strlit("... showing ");
    reveal_strlit(" of ");
    reveal_strlit(" entries (truncated)");
}

/// Whether no span of the line holds a control code.
pub open spec fn spans_control_free(spans: Seq<SpanModel>) -> bool {
    forall|i: int| 0 <= i < spans.len() ==> control_free((#[trigger] spans[i]).content)
}

/// A line whose spans hold no control code shows none.
pub proof fn lemma_plain_text_control_free(spans: Seq<SpanModel>)
    requires
        spans_control_free(spans),
    ensures
        control_free(plain_text(spans)),
    decreases spans.len(),
{
    if spans.len() > 0 {
        assert(spans_control_free(spans.drop_last())) by {
            assert forall|i: int| 0 <= i < spans.drop_last().len() implies control_free(
                (#[trigger] spans.drop_last()[i]).content,
            ) by {
                assert(spans.drop_last()[i] == spans[i]);
            }
        }
        lemma_plain_text_control_free(spans.drop_last());
        lemma_concat_control_free(plain_text(spans.drop_last()), spans.last().content);
    }
}

/// The text of a span is a run of the text of its line.
pub proof fn lemma_span_within_line(spans: Seq<SpanModel>, i: int)
    requires
        0 <= i < spans.len(),
    ensures
        exists|before: Seq<char>, after: Seq<char>| #[trigger]
            (before + spans[i].content + after) == plain_text(spans),
    decreases spans.len(),
{
    let init = spans.drop_last();
    if i == spans.len() - 1 {
        let before = plain_text(init);
        let after = Seq::<char>::empty();
        assert(before + spans[i].content + after =~= plain_text(spans));
    } else {
        lemma_span_within_line(init, i);
        let (before, after) = choose|before: Seq<char>, after: Seq<char>| #[trigger]
            (before + init[i].content + after) == plain_text(init);
        let more = after + spans.last().content;
        assert(before + spans[i].content + more =~= plain_text(spans));
    }
}

/// The line of an entry shows no control code, whatever the entry's name,
/// link target and error text hold, as long as its prefix holds none.
pub proof fn lemma_entry_line_control_free(e: EntryModel, use_color: bool, changed: bool)
    requires
        control_free(e.prefix),
    ensures
        spans_control_free(entry_spans(e, use_color, changed)),
        control_free(plain_text(entry_spans(e, use_color, changed))),
{
    lemma_fixed_text_control_free();
    lemma_sanitized_control_free(e.name);
    if e.symlink_target is Some {
        lemma_sanitized_control_free(e.symlink_target->0);
        lemma_concat_control_free(" -> "@, sanitized(e.symlink_target->0));
    }
    if e.error is Some {
        lemma_sanitized_control_free(e.error->0);
        lemma_concat_control_free(sanitized(e.name), " ["@);
        lemma_concat_control_free(sanitized(e.name) + " ["@, sanitized(e.error->0));
        lemma_concat_control_free(sanitized(e.name) + " ["@ + sanitized(e.error->0), "]"@);
    }
    let spans = entry_spans(e, use_color, changed);
    assert(spans_control_free(spans));
    lemma_plain_text_control_free(spans);
}

/// The line of an entry shows, for every character of the entry's name,
/// what stands for it: the escape token of a control code, or the
/// character itself.
pub proof fn lemma_entry_line_holds_name_tokens(
    e: EntryModel,
    use_color: bool,
    changed: bool,
    i: int,
)
    requires
        0 <= i < e.name.len(),
    ensures
        contains_run(plain_text(entry_spans(e, use_color, changed)), escape(e.name[i])),
{
    let spans = entry_spans(e, use_color, changed);
    let at = prefix_spans(e, use_color).len() as int;
    let token = escape(e.name[i]);
    lemma_sanitized_holds_token(e.name, i);
    assert(0 <= at < spans.len());
    let content = spans[at].content;
    assert(contains_run(content, token)) by {
        if !(use_color && changed) && e.error is Some {
            let rest = " ["@ + sanitized(e.error->0) + "]"@;
            lemma_run_within(Seq::empty(), sanitized(e.name), rest, token);
            assert(Seq::<char>::empty() + sanitized(e.name) + rest =~= content);
        } else {
            assert(content == sanitized(e.name));
        }
    }
    lemma_span_within_line(spans, at);
    let (before, after) = choose|before: Seq<char>, after: Seq<char>| #[trigger]
        (before + spans[at].content + after) == plain_text(spans);
    lemma_run_within(before, content, after, token);
}

/// The status bar shows no control code, whatever its three texts hold.
pub proof fn lemma_status_text_control_free(
    watched_path: Seq<char>,
    entry_info: Seq<char>,
    last_change: Option<Seq<char>>,
)
    ensures
        control_free(status_text(watched_path, entry_info, last_change)),
{
    lemma_fixed_text_control_free();
    lemma_sanitized_control_free(watched_path);
    lemma_sanitized_control_free(entry_info);
    let a = " Watching: "@ + sanitized(watched_path);
    lemma_concat_control_free(" Watching: "@, sanitized(watched_path));
    lemma_concat_control_free(a, "  |  "@);
    lemma_concat_control_free(a + "  |  "@, sanitized(entry_info));
    lemma_concat_control_free(a + "  |  "@ + sanitized(entry_info), "  |  "@);
    let tail = match last_change {
        Some(ts) => "Last change: "@ + sanitized(ts),
        None => "No changes yet"@,
    };
    if last_change is Some {
        lemma_sanitized_control_free(last_change->0);
        lemma_concat_control_free("Last change: "@, sanitized(last_change->0));
    }
    lemma_concat_control_free(a + "  |  "@ + sanitized(entry_info) + "  |  "@, tail);
}

/// The status bar shows, for every character of the watched path, what
/// stands for it.
pub proof fn lemma_status_text_holds_path_tokens(
    watched_path: Seq<char>,
    entry_info: Seq<char>,
    last_change: Option<Seq<char>>,
    i: int,
)
    requires
        0 <= i < watched_path.len(),
    ensures
        contains_run(status_text(watched_path, entry_info, last_change), escape(watched_path[i])),
{
    lemma_sanitized_holds_token(watched_path, i);
    let tail = match last_change {
        Some(ts) => "Last change: "@ + sanitized(ts),
        None => "No changes yet"@,
    };
    let after = "  |  "@ + sanitized(entry_info) + "  |  "@ + tail;
    lemma_run_within(" Watching: "@, sanitized(watched_path), after, escape(watched_path[i]));
    assert(" Watching: "@ + sanitized(watched_path) + after =~= status_text(
        watched_path,
        entry_info,
        last_change,
    ));
}

/// The line that tells of a capped tree shows no control code.
pub proof fn lemma_truncation_text_control_free(shown: nat, total: nat)
    ensures
        control_free(truncation_text(shown, total)),
{
    lemma_fixed_text_control_free();
    lemma_decimal_control_free(shown);
    lemma_decimal_control_free(total);
    lemma_concat_control_free("... showing "@, decimal(shown));
    lemma_concat_control_free("... showing "@ + decimal(shown), " of "@);
    lemma_concat_control_free("... showing "@ + decimal(shown) + " of "@, decimal(total));
    lemma_concat_control_free(
        "... showing "@ + decimal(shown) + " of "@ + decimal(total),
        " entries (truncated)"@,
    );
}

/// Whatever the walk found, no line of the tree that is laid out from it
/// shows a control character: the names, link targets and error texts are
/// sanitized, and the prefixes are the layout's own.
pub proof fn lemma_laid_out_lines_control_free(
    raw: Seq<RawModel>,
    i: int,
    use_color: bool,
    changed: bool,
)
    requires
        0 <= i < raw.len(),
    ensures
        control_free(plain_text(entry_spans(layout(raw)[i], use_color, changed))),
{
    lemma_prefix_control_free(marks_of(with_last_flags(raw)), i);
    lemma_entry_line_control_free(layout(raw)[i], use_color, changed);
}

/// The line of an unreadable entry that is not highlighted shows, for
/// every character of the error text, what stands for it.
pub proof fn lemma_entry_line_holds_error_tokens(
    e: EntryModel,
    use_color: bool,
    changed: bool,
    i: int,
)
    requires
        !(use_color && changed),
        e.error is Some,
        0 <= i < e.error->0.len(),
    ensures
        contains_run(plain_text(entry_spans(e, use_color, changed)), escape(e.error->0[i])),
{
    let spans = entry_spans(e, use_color, changed);
    let at = prefix_spans(e, use_color).len() as int;
    let token = escape(e.error->0[i]);
    lemma_sanitized_holds_token(e.error->0, i);
    let content = spans[at].content;
    lemma_run_within(sanitized(e.name) + " ["@, sanitized(e.error->0), "]"@, token);
    assert(sanitized(e.name) + " ["@ + sanitized(e.error->0) + "]"@ =~= content);
    lemma_span_within_line(spans, at);
    let (before, after) = choose|before: Seq<char>, after: Seq<char>| #[trigger]
        (before + spans[at].content + after) == plain_text(spans);
    lemma_run_within(before, content, after, token);
}

/// The line of a link whose target is shown shows, for every character of
/// the target, what stands for it. The target is shown on a highlighted
/// line and on the line of a link that could be read.
pub proof fn lemma_entry_line_holds_target_tokens(
    e: EntryModel,
    use_color: bool,
    changed: bool,
    i: int,
)
    requires
        e.is_symlink,
        e.symlink_target is Some,
        (use_color && changed) || e.error is None,
        0 <= i < e.symlink_target->0.len(),
    ensures
        contains_run(
            plain_text(entry_spans(e, use_color, changed)),
            escape(e.symlink_target->0[i]),
        ),
{
    let spans = entry_spans(e, use_color, changed);
    let at = prefix_spans(e, use_color).len() as int + 1;
    let token = escape(e.symlink_target->0[i]);
    lemma_sanitized_holds_token(e.symlink_target->0, i);
    assert(0 <= at < spans.len());
    let content = spans[at].content;
    lemma_run_within(" -> "@, sanitized(e.symlink_target->0), Seq::empty(), token);
    assert(" -> "@ + sanitized(e.symlink_target->0) + Seq::<char>::empty() =~= content);
    lemma_span_within_line(spans, at);
    let (before, after) = choose|before: Seq<char>, after: Seq<char>| #[trigger]
        (before + spans[at].content + after) == plain_text(spans);
    lemma_run_within(before, content, after, token);
}

/// The status bar shows, for every character of what it says of the
/// entries and of the time of the last change, what stands for it.
pub proof fn lemma_status_text_holds_info_tokens(
    watched_path: Seq<char>,
    entry_info: Seq<char>,
    last_change: Option<Seq<char>>,
)
    ensures
        forall|i: int|
            0 <= i < entry_info.len() ==> contains_run(
                status_text(watched_path, entry_info, last_change),
                #[trigger] escape(entry_info[i]),
            ),
        last_change is Some ==> forall|i: int|
            0 <= i < last_change->0.len() ==> contains_run(
                status_text(watched_path, entry_info, last_change),
                #[trigger] escape(last_change->0[i]),
            ),
{
    let whole = status_text(watched_path, entry_info, last_change);
    let head = " Watching: "@ + sanitized(watched_path) + "  |  "@;
    let tail = match last_change {
        Some(ts) => "Last change: "@ + sanitized(ts),
        None => "No changes yet"@,
    };
    assert forall|i: int| 0 <= i < entry_info.len() implies contains_run(
        whole,
        #[trigger] escape(entry_info[i]),
    ) by {
        lemma_sanitized_holds_token(entry_info, i);
        lemma_run_within(head, sanitized(entry_info), "  |  "@ + tail, escape(entry_info[i]));
        assert(head + sanitized(entry_info) + ("  |  "@ + tail) =~= whole);
    }
    if last_change is Some {
        let ts = last_change->0;
        assert forall|i: int| 0 <= i < ts.len() implies contains_run(
            whole,
            #[trigger] escape(ts[i]),
        ) by {
            lemma_sanitized_holds_token(ts, i);
            let before = head + sanitized(entry_info) + "  |  "@ + "Last change: "@;
            lemma_run_within(before, sanitized(ts), Seq::empty(), escape(ts[i]));
            assert(before + sanitized(ts) + Seq::<char>::empty() =~= whole);
        }
    }
}

} // verus!
