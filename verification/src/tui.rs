//! What the dashboard does with a key.

use crate::text::{chars_of, string_of};
use crate::tui_state::{index_of_channel, TuiState};
use vstd::prelude::*;

verus! {

/// A key as the dashboard tells keys apart.
#[derive(Clone, Copy, Debug, PartialEq, Eq, Structural)]
pub enum Key {
    Char(char),
    Esc,
    Other,
}

/// A key press.
#[derive(Clone, Copy, Debug, PartialEq, Eq, Structural)]
pub struct KeyPress {
    pub key: Key,
    /// Whether Control was held.
    pub ctrl: bool,
}

/// What the caller does after a key.
#[derive(Clone, Copy, Debug, PartialEq, Eq, Structural)]
pub enum KeyAction {
    /// Nothing besides redrawing.
    Continue,
    /// Stop the run and leave the dashboard.
    Quit,
    /// Suspend the process, then take the terminal back.
    Suspend,
}

/// The channel that a digit key stands for: `1` to `9` stand for channels
/// 0 to 8.
pub open spec fn digit_channel(c: char) -> Option<usize> {
    if '1' <= c <= '9' {
        Some((c as u32 - '1' as u32) as usize)
    } else {
        None
    }
}

/// The selection after a digit key: the key's channel, or none where that
/// channel was selected already. A key for a channel that the dashboard
/// does not have changes nothing.
pub open spec fn toggled_selection(
    selected: Option<usize>,
    has_channel: bool,
    channel: usize,
) -> Option<usize> {
    if !has_channel {
        selected
    } else if selected == Some(channel) {
        None
    } else {
        Some(channel)
    }
}

/// The action for a key, given whether the exit dialog is up.
pub open spec fn key_action(confirm_shown: bool, press: KeyPress) -> KeyAction {
    if confirm_shown {
        if press.key == Key::Char('y') || press.key == Key::Char('Y') {
            KeyAction::Quit
        } else {
            KeyAction::Continue
        }
    } else if press.key == Key::Char('q') || press.key == Key::Esc {
        KeyAction::Continue
    } else if press.key == Key::Char('c') && press.ctrl {
        KeyAction::Quit
    } else if press.key == Key::Char('z') && press.ctrl {
        KeyAction::Suspend
    } else {
        KeyAction::Continue
    }
}

/// Whether the exit dialog is up after a key.
pub open spec fn confirm_after(confirm_shown: bool, press: KeyPress) -> bool {
    if confirm_shown {
        !(press.key == Key::Char('n') || press.key == Key::Char('N') || press.key == Key::Esc)
    } else {
        press.key == Key::Char('q') || press.key == Key::Esc
    }
}

/// The selection for the monitor output after a key.
pub open spec fn selection_after(
    confirm_shown: bool,
    press: KeyPress,
    selected: Option<usize>,
    channels: Seq<crate::tui_state::ChannelState>,
) -> Option<usize> {
    match press.key {
        Key::Char(c) => if !confirm_shown && c != 'q' && !(c == 'c' && press.ctrl) && !(c == 'z'
            && press.ctrl) && digit_channel(c) is Some {
            toggled_selection(
                selected,
                index_of_channel(channels, digit_channel(c)->0) is Some,
                digit_channel(c)->0,
            )
        } else {
            selected
        },
        _ => selected,
    }
}

/// Columns that a character takes on the terminal: one for ASCII, two for
/// anything else.
pub open spec fn char_columns(c: char) -> nat {
    if (c as u32) < 128 {
        1
    } else {
        2
    }
}

/// Columns that a run of characters takes.
pub open spec fn text_columns(s: Seq<char>) -> nat
    decreases s.len(),
{
    if s.len() == 0 {
        0
    } else {
        text_columns(s.drop_last()) + char_columns(s.last())
    }
}

/// Columns that line `k` of a wrapped text may take: the first line shares
/// its row with the timestamp.
pub open spec fn line_limit(k: int, first_width: usize, width: usize) -> nat {
    if k == 0 {
        first_width as nat
    } else {
        width as nat
    }
}

/// The lines one after the other.
pub open spec fn joined(lines: Seq<Seq<char>>) -> Seq<char>
    decreases lines.len(),
{
    if lines.len() == 0 {
        Seq::empty()
    } else {
        joined(lines.drop_last()) + lines.last()
    }
}

/// The lines as sequences of characters.
pub open spec fn line_texts(lines: Seq<String>) -> Seq<Seq<char>> {
    lines.map_values(|l: String| l@)
}

/// Whether `lines` is the text wrapped: the lines joined give the text;
/// every line holds at least one character and, unless it holds just one,
/// fits its width; and no line could have taken the next character too.
/// Without room on the first line nothing is shown.
pub open spec fn is_wrapped(
    text: Seq<char>,
    lines: Seq<Seq<char>>,
    first_width: usize,
    width: usize,
) -> bool {
    if first_width == 0 {
        lines.len() == 0
    } else {
        &&& joined(lines) == text
        &&& forall|k: int|
            0 <= k < lines.len() ==> (#[trigger] lines[k]).len() >= 1 && (lines[k].len() == 1
                || text_columns(lines[k]) <= line_limit(k, first_width, width))
        &&& forall|k: int|
            0 <= k < lines.len() - 1 ==> text_columns(#[trigger] lines[k]) + char_columns(
                lines[k + 1][0],
            ) > line_limit(k, first_width, width)
    }
}

/// Breaks a text into lines for the transcript pane, filling each line as
/// far as its width allows: `first_width` columns for the first line,
/// `width` for the others.
pub fn wrap_text(text: &str, first_width: usize, width: usize) -> (lines: Vec<String>)
    ensures
        is_wrapped(text@, line_texts(lines@), first_width, width),
{
    let chars: Vec<char> = chars_of(text);
    let n: usize = chars.len();
    let mut lines: Vec<String> = Vec::new();
    if first_width == 0 {
        return lines;
    }
    let mut i: usize = 0;
    proof {
        assert(chars@.subrange(0, 0) =~= Seq::<char>::empty());
    }
    while i < n
        invariant
            n == chars.len(),
            chars@ == text@,
            first_width > 0,
            i <= n,
            (i == 0) == (lines@.len() == 0),
            joined(line_texts(lines@)) == chars@.subrange(0, i as int),
            forall|k: int|
                0 <= k < lines@.len() ==> (#[trigger] line_texts(lines@)[k]).len() >= 1 && (
                line_texts(lines@)[k].len() == 1 || text_columns(line_texts(lines@)[k])
                    <= line_limit(k, first_width, width)),
            forall|k: int|
                0 <= k < lines@.len() - 1 ==> text_columns(#[trigger] line_texts(lines@)[k])
                    + char_columns(line_texts(lines@)[k + 1][0]) > line_limit(
                    k,
                    first_width,
                    width,
                ),
            lines@.len() > 0 && i < n ==> text_columns(line_texts(lines@).last()) + char_columns(
                chars@[i as int],
            ) > line_limit(lines@.len() - 1, first_width, width),
        decreases n - i,
    {
        let limit: usize = if lines.len() == 0 {
            first_width
        } else {
            width
        };
        let mut line: Vec<char> = Vec::new();
        let mut used: usize = 0;
        let mut j: usize = i;
        let mut full: bool = false;
        proof {
            assert(chars@.subrange(i as int, i as int) =~= Seq::<char>::empty());
        }
        while j < n && !full
            invariant
                n == chars.len(),
                i <= j <= n,
                line@ == chars@.subrange(i as int, j as int),
                used == text_columns(line@),
                used <= limit,
                full ==> j < n && used + char_columns(chars@[j as int]) > limit,
            decreases n - j + (if full { 0int } else { 1int }),
        {
            let columns: usize = if (chars[j] as u32) < 128 {
                1
            } else {
                2
            };
            if columns > limit - used {
                full = true;
            } else {
                let ghost so_far = line@;
                line.push(chars[j]);
                proof {
                    assert(line@.drop_last() == so_far);
                    assert(line@ == chars@.subrange(i as int, j + 1));
                }
                used = used + columns;
                j = j + 1;
            }
        }
        if j == i {
            // Not even one character fits: the line takes it all the same.
            line.push(chars[i]);
            proof {
                assert(line@.drop_last() =~= Seq::<char>::empty());
                assert(line@ == chars@.subrange(i as int, i + 1));
                assert(text_columns(line@.drop_last()) == 0);
                assert(text_columns(line@) == char_columns(chars@[i as int]));
            }
            j = i + 1;
        }
        let ghost before = lines@;
        let ghost taken = line@;
        let row: String = string_of(&line);
        lines.push(row);
        proof {
            let texts = line_texts(lines@);
            assert(texts == line_texts(before).push(taken));
            assert(texts.drop_last() == line_texts(before));
            assert(joined(texts) == chars@.subrange(0, i as int) + taken);
            assert(chars@.subrange(0, i as int) + taken == chars@.subrange(0, j as int));
            assert(taken[0] == chars@[i as int]);
            assert forall|k: int| 0 <= k < lines@.len() implies (#[trigger] texts[k]).len() >= 1
                && (texts[k].len() == 1 || text_columns(texts[k]) <= line_limit(
                k,
                first_width,
                width,
            )) by {
                if k < before.len() {
                    assert(texts[k] == line_texts(before)[k]);
                }
            }
            assert forall|k: int| 0 <= k < lines@.len() - 1 implies text_columns(
                #[trigger] texts[k],
            ) + char_columns(texts[k + 1][0]) > line_limit(k, first_width, width) by {
                assert(texts[k] == line_texts(before)[k]);
                if k + 1 < before.len() {
                    assert(texts[k + 1] == line_texts(before)[k + 1]);
                }
            }
        }
        i = j;
    }
    proof {
        assert(chars@.subrange(0, n as int) == chars@);
    }
    lines
}

/// The dashboard's own state.
pub struct TuiApp {
    exit_confirm_shown: bool,
}

impl TuiApp {
    /// Whether the exit dialog is up.
    pub closed spec fn confirm_shown(&self) -> bool {
        self.exit_confirm_shown
    }

    /// A dashboard without the exit dialog.
    pub fn new() -> (app: Self)
        ensures
            !app.confirm_shown(),
    {
        TuiApp { exit_confirm_shown: false }
    }

    /// Whether the exit dialog is to be drawn.
    pub fn exit_confirm_shown(&self) -> (shown: bool)
        ensures
            shown == self.confirm_shown(),
    {
        self.exit_confirm_shown
    }

    /// Takes in a key. With the exit dialog up, `y` quits and `n` or
    /// Escape closes the dialog. Without it, `q` or Escape opens the
    /// dialog, Control-C quits at once, Control-Z suspends, and a digit
    /// from 1 to 9 toggles the monitor output for its channel.
    pub fn handle_key(&mut self, press: KeyPress, tui: &mut TuiState) -> (action: KeyAction)
        ensures
            action == key_action(old(self).confirm_shown(), press),
            final(self).confirm_shown() == confirm_after(old(self).confirm_shown(), press),
            final(tui).channels() == old(tui).channels(),
            final(tui).selected() == selection_after(
                old(self).confirm_shown(),
                press,
                old(tui).selected(),
                old(tui).channels(),
            ),
    {
        if self.exit_confirm_shown {
            match press.key {
                Key::Char(c) => {
                    if c == 'y' || c == 'Y' {
                        return KeyAction::Quit;
                    }
                    if c == 'n' || c == 'N' {
                        self.exit_confirm_shown = false;
                    }
                },
                Key::Esc => {
                    self.exit_confirm_shown = false;
                },
                Key::Other => {},
            }
            return KeyAction::Continue;
        }
        match press.key {
            Key::Esc => {
                self.exit_confirm_shown = true;
                KeyAction::Continue
            },
            Key::Other => KeyAction::Continue,
            Key::Char(c) => {
                if c == 'q' {
                    self.exit_confirm_shown = true;
                    KeyAction::Continue
                } else if c == 'c' && press.ctrl {
                    KeyAction::Quit
                } else if c == 'z' && press.ctrl {
                    KeyAction::Suspend
                } else {
                    if '1' <= c && c <= '9' {
                        let channel: usize = (c as u32 - '1' as u32) as usize;
                        if tui.channel_index(channel).is_some() {
                            let selected = tui.get_selected_channel_for_output();
                            let same: bool = match selected {
                                Some(s) => s == channel,
                                None => false,
                            };
                            if same {
                                tui.set_selected_channel_for_output(None);
                            } else {
                                tui.set_selected_channel_for_output(Some(channel));
                            }
                        }
                    }
                    KeyAction::Continue
                }
            },
        }
    }
}

} // verus!
