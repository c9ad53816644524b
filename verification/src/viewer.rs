//! The viewer's state.
//!
//! The state is built once from the loaded text and the command-line
//! options, and is immutable afterwards: the text, the color flag, the poll
//! interval, the newline count, and the number-column width derived from it.

use vstd::prelude::*;
use crate::lines::count_char;
use crate::lines::count_newlines;
use crate::numfmt::dec_digits;
use crate::numfmt::dec_string;
use crate::numfmt::lemma_dec_digits_len_bound;
use crate::render::frame_ops;
use crate::render::ops_view;
use crate::render::render_frame;
use crate::render::RenderOp;

verus! {

/// Everything the viewer holds while it runs.
pub struct State {
    /// Whether styled output is issued; set by the color option.
    pub color: bool,
    /// The poll interval in milliseconds; the redraw cadence equals it.
    pub update_time_ms: u64,
    /// The loaded text, immutable after construction.
    pub buf: String,
    /// The number of newline characters in `buf`.
    pub line_count: usize,
    /// The decimal digit count of `line_count`.
    pub num_width: usize,
}

impl State {
    /// The state's invariant: the newline count and the column width are the
    /// ones derived from the text.
    pub open spec fn wf(&self) -> bool {
        &&& self.line_count as nat == count_char(self.buf@, '\n')
        &&& self.num_width as nat == dec_digits(self.line_count as nat).len()
    }

    /// Builds the state from the loaded text and the parsed options.
    pub fn new(buf: String, nocolor: bool, update_time: u64) -> (s: Self)
        ensures
            s.color == !nocolor,
            s.update_time_ms == update_time,
            s.buf@ == buf@,
            s.line_count as nat == count_char(buf@, '\n'),
            s.num_width as nat == dec_digits(s.line_count as nat).len(),
            s.wf(),
    {
        let line_count = count_newlines(buf.as_str());
        let num_width = dec_string(line_count).as_str().unicode_len();
        State { color: !nocolor, update_time_ms: update_time, buf, line_count, num_width }
    }

    /// Computes the frame to draw: the status bar on the terminal's last
    /// row, then the content with its line numbers.
    pub fn display(&self, rows: u16) -> (ops: Vec<RenderOp>)
        requires
            self.wf(),
            rows >= 1,
            self.buf@.len() < usize::MAX,
        ensures
            ops_view(ops@) == frame_ops(self.buf@, self.color, self.num_width as nat, rows),
    {
        proof {
            lemma_dec_digits_len_bound(self.line_count as nat);
        }
        render_frame(self.buf.as_str(), self.color, self.num_width, rows)
    }
}

/// The diagnostic reported when the file cannot be read.
pub fn open_error_message(path: &str) -> (msg: String)
    ensures
        msg@ == "Could not open file '"@ + path@ + "'"@,
{
    let mut msg = String::from_str("Could not open file '");
    msg.append(path);
    msg.append("'");
    msg
}

} // verus!
