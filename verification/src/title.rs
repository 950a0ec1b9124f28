//! The title of the terminal window: the name of the watched directory,
//! cleaned of control characters and cut to the width of the terminal.

use crate::text::{char_is_control, chars_of, is_control};
use vstd::prelude::*;
use vstd::string::StringExecFns;

verus! {

/// What `Path::file_name` makes of a path: its last component, unless the
/// path ends in `..` or has no component to name. Which characters part the
/// components is the platform's affair.
pub uninterp spec fn file_name_of(path: Seq<char>) -> Option<Seq<char>>;

/// `Path::file_name`: the final component of the path, if there is one.
#[verifier::external_body]
fn file_name(path: &str) -> (name: Option<String>)
    ensures
        match name {
            Some(n) => file_name_of(path@) == Some(n@),
            None => file_name_of(path@) is None,
        },
{
    std::path::Path::new(path).file_name().map(|n| n.to_string_lossy().to_string())
}

/// The text without its control characters.
pub open spec fn without_controls(s: Seq<char>) -> Seq<char>
    decreases s.len(),
{
    if s.len() == 0 {
        Seq::empty()
    } else if is_control(s.last()) {
        without_controls(s.drop_last())
    } else {
        without_controls(s.drop_last()).push(s.last())
    }
}

/// `n` dots.
pub open spec fn dots(n: nat) -> Seq<char> {
    Seq::new(n, |i: int| '.')
}

/// The text cut to at most `max_cols` characters. A text that fits stays
/// as it is. From a longer one the middle is replaced by three dots, and of
/// what is kept the odd character goes to the front; where there is room
/// for the dots at most, dots alone fill the width.
pub open spec fn truncated_middle(s: Seq<char>, max_cols: nat) -> Seq<char> {
    if s.len() <= max_cols {
        s
    } else if max_cols <= 3 {
        dots(max_cols)
    } else {
        let keep = (max_cols - 3) as nat;
        let front = keep / 2 + keep % 2;
        let back = keep / 2;
        s.take(front as int) + dots(3) + s.skip(s.len() - back)
    }
}

/// The title for a directory called `display`.
pub open spec fn title_text(display: Seq<char>, max_cols: nat) -> Seq<char> {
    truncated_middle(without_controls("Live Tree of "@ + display), max_cols)
}

/// Copy of `input` without its control characters, which have no place in
/// a window title.
pub fn sanitize_title(input: &str) -> (out: String)
    ensures
        out@ == without_controls(input@),
{
    let mut out = String::new();
    for c in it: input.chars()
        invariant
            it.seq() == input@,
            out@ == without_controls(input@.take(it.index() as int)),
    {
        proof {
            let done = input@.take(it.index() + 1);
            assert(done.drop_last() =~= input@.take(it.index() as int));
            assert(done.last() == c);
        }
        if !char_is_control(c) {
            out.push(c);
        }
    }
    assert(input@.take(input@.len() as int) =~= input@);
    out
}

/// Cuts `input` to at most `max_cols` characters, putting three dots in
/// place of the middle of a text that is too long. The cut falls between
/// characters, never inside one.
pub fn truncate_middle(input: &str, max_cols: usize) -> (out: String)
    ensures
        out@ == truncated_middle(input@, max_cols as nat),
        out@.len() <= max_cols,
{
    let chars = chars_of(input);
    let n = chars.len();
    let mut out = String::new();
    if n <= max_cols {
        out.append(input);
        assert(out@ =~= input@);
        return out;
    }
    if max_cols <= 3 {
        let mut i: usize = 0;
        while i < max_cols
            invariant
                i <= max_cols,
                out@ == dots(i as nat),
            decreases max_cols - i,
        {
            out.push('.');
            i += 1;
            assert(out@ =~= dots(i as nat));
        }
        return out;
    }
    let keep = max_cols - 3;
    let front = keep / 2 + keep % 2;
    let back = keep / 2;
    let mut i: usize = 0;
    while i < front
        invariant
            i <= front <= n,
            n == chars.len(),
            chars@ == input@,
            out@ == input@.take(i as int),
        decreases front - i,
    {
        out.push(chars[i]);
        i += 1;
        assert(out@ =~= input@.take(i as int));
    }
    out.push('.');
    out.push('.');
    out.push('.');
    assert(out@ =~= input@.take(front as int) + dots(3));
    let start = n - back;
    let mut j: usize = start;
    while j < n
        invariant
            start <= j <= n,
            n == chars.len(),
            chars@ == input@,
            out@ == input@.take(front as int) + dots(3) + input@.subrange(start as int, j as int),
        decreases n - j,
    {
        out.push(chars[j]);
        j += 1;
        assert(out@ =~= input@.take(front as int) + dots(3) + input@.subrange(
            start as int,
            j as int,
        ));
    }
    assert(input@.subrange(start as int, n as int) =~= input@.skip(input@.len() - back));
    out
}

/// The title for a directory called `display`: `Live Tree of` and the
/// name, without control characters, cut to `max_cols` characters. A
/// terminal without columns gets no title.
pub fn title_for(display: &str, max_cols: usize) -> (title: Option<String>)
    ensures
        max_cols == 0 <==> title is None,
        title matches Some(t) ==> t@ == title_text(display@, max_cols as nat),
{
    if max_cols == 0 {
        return None;
    }
    let mut raw_title = String::new();
    raw_title.append("Live Tree of ");
    raw_title.append(display);
    assert(raw_title@ =~= "Live Tree of "@ + display@);
    let sanitized = sanitize_title(raw_title.as_str());
    Some(truncate_middle(sanitized.as_str(), max_cols))
}

/// The title for the directory at `path`: the directory is called by the
/// last component of its path, or by the whole path where that has none.
pub fn build_terminal_title(path: &str, max_cols: usize) -> (title: Option<String>)
    ensures
        max_cols == 0 <==> title is None,
        title matches Some(t) ==> t@ == title_text(
            match file_name_of(path@) {
                Some(name) => name,
                None => path@,
            },
            max_cols as nat,
        ),
{
    match file_name(path) {
        Some(name) => title_for(name.as_str(), max_cols),
        None => title_for(path, max_cols),
    }
}

/// A title holds no control character, whatever the directory is called.
pub proof fn lemma_without_controls_is_control_free(s: Seq<char>)
    ensures
        crate::text::control_free(without_controls(s)),
    decreases s.len(),
{
    if s.len() > 0 {
        lemma_without_controls_is_control_free(s.drop_last());
    }
}

/// A cut text is never wider than the bound, and a text that fits is not
/// cut.
pub proof fn lemma_truncated_middle_fits(s: Seq<char>, max_cols: nat)
    ensures
        truncated_middle(s, max_cols).len() <= max_cols,
        s.len() <= max_cols ==> truncated_middle(s, max_cols) == s,
        s.len() > max_cols ==> truncated_middle(s, max_cols).len() == max_cols,
{
}

} // verus!
