//! The layout of one line of the two-line, sixteen-column display.
//!
//! A line is always written in full: the message, cut to the width of the
//! display, followed by blanks, so that nothing of an earlier, longer
//! message stays visible.

use vstd::prelude::*;
use vstd::string::StringSliceAdditionalSpecFns;

verus! {

/// The number of character cells in a display line.
pub const LINE_LENGTH: usize = 16;

/// How to write one message to one display line.
#[derive(Clone, Copy, Debug, PartialEq, Eq, Structural)]
pub struct Line {
    /// The cursor position of the first cell of the line.
    pub cursor: u8,
    /// How many bytes of the message to write.
    pub shown: usize,
    /// How many blanks to write after them.
    pub padding: usize,
}

/// The cursor position at which line `line` starts: the second line sits at
/// address 40 of the display memory.
pub open spec fn line_start(line: u8) -> u8 {
    if line == 0 {
        0
    } else {
        40
    }
}

/// The cells of a display line after `message` was written to it.
pub open spec fn cells(message: Seq<u8>) -> Seq<u8> {
    if message.len() <= LINE_LENGTH {
        message + Seq::new((LINE_LENGTH - message.len()) as nat, |i: int| ' ' as u8)
    } else {
        message.take(LINE_LENGTH as int)
    }
}

/// Lays out `message` on display line `line`: where to put the cursor, how
/// much of the message fits, and how many blanks fill the rest of the line.
pub fn write_line(line: u8, message: &str) -> (layout: Line)
    ensures
        layout.cursor == line_start(line),
        layout.shown == if message.spec_bytes().len() <= LINE_LENGTH {
            message.spec_bytes().len()
        } else {
            LINE_LENGTH as nat
        },
        layout.shown + layout.padding == LINE_LENGTH,
        cells(message.spec_bytes()) == message.spec_bytes().take(layout.shown as int) + Seq::new(
            layout.padding as nat,
            |i: int| ' ' as u8,
        ),
{
    let cursor: u8 = if line == 0 {
        0
    } else {
        40
    };
    let length = message.as_bytes().len();
    let shown = if length <= LINE_LENGTH {
        length
    } else {
        LINE_LENGTH
    };
    let layout = Line { cursor, shown, padding: LINE_LENGTH - shown };
    proof {
        let bytes = message.spec_bytes();
        if bytes.len() <= LINE_LENGTH {
            assert(bytes.take(bytes.len() as int) =~= bytes);
        } else {
            assert(Seq::new(0, |i: int| ' ' as u8) =~= Seq::<u8>::empty());
            assert(bytes.take(LINE_LENGTH as int) + Seq::<u8>::empty() =~= bytes.take(
                LINE_LENGTH as int,
            ));
        }
    }
    layout
}

/// A line is always written in full, whatever the length of the message.
pub proof fn lemma_line_is_filled(message: Seq<u8>)
    ensures
        cells(message).len() == LINE_LENGTH,
        message.len() <= LINE_LENGTH ==> message.is_prefix_of(cells(message)),
        message.len() > LINE_LENGTH ==> cells(message).is_prefix_of(message),
{
}

} // verus!
