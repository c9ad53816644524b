//! Frame construction.
//!
//! A frame is described as a sequence of terminal operations: cursor moves,
//! styled text for the status bar and the line-number column, and verbatim
//! characters for the file's content. The application executes the
//! operations in order; everything about their layout is decided and proved
//! here.

use vstd::prelude::*;
use crate::lines::count_char;
use crate::numfmt::number_prefix;
use crate::numfmt::render_number_prefix;

verus! {

/// How a piece of text is styled when it is printed.
#[derive(Clone, Copy, Debug, PartialEq, Eq, Structural)]
pub enum Style {
    /// The terminal's default style; nothing is colored.
    Plain,
    /// Black text on a green background, for the status bar.
    BlackOnGreen,
    /// A dim grey, for the line-number column.
    DimGrey,
}

/// One terminal operation of a rendered frame.
#[derive(Clone, Debug, PartialEq, Eq)]
pub enum RenderOp {
    /// Move the cursor to a column and a row.
    MoveTo(u16, u16),
    /// Print a piece of text in a style.
    Text(String, Style),
    /// Print one character of file content verbatim.
    Char(char),
}

/// The mathematical image of one operation.
#[verifier::ext_equal]
pub enum FrameOp {
    MoveTo(u16, u16),
    Text(Seq<char>, Style),
    Char(char),
}

impl View for RenderOp {
    type V = FrameOp;

    open spec fn view(&self) -> FrameOp {
        match self {
            RenderOp::MoveTo(col, row) => FrameOp::MoveTo(*col, *row),
            RenderOp::Text(s, st) => FrameOp::Text(s@, *st),
            RenderOp::Char(c) => FrameOp::Char(*c),
        }
    }
}

/// The images of a sequence of operations.
pub open spec fn ops_view(ops: Seq<RenderOp>) -> Seq<FrameOp> {
    Seq::new(ops.len(), |i: int| ops[i]@)
}

/// The status bar's text.
pub open spec fn status_text() -> Seq<char> {
    "grm v0.1.0 | ? for help"@
}

/// The status bar's style: black on green when color is on.
pub open spec fn status_style(color: bool) -> Style {
    if color {
        Style::BlackOnGreen
    } else {
        Style::Plain
    }
}

/// The number column's style: dim grey when color is on.
pub open spec fn number_style(color: bool) -> Style {
    if color {
        Style::DimGrey
    } else {
        Style::Plain
    }
}

/// A line index clipped to the terminal's row coordinate range. Content past
/// that range is accepted as clipped by the terminal.
pub open spec fn clip_row(line: nat) -> u16 {
    if line > 0xFFFF {
        0xFFFF
    } else {
        line as u16
    }
}

/// The content operation for one verbatim character.
pub open spec fn char_op(c: char) -> FrameOp {
    FrameOp::Char(c)
}

/// The operations for the content after the first line's prefix: each
/// newline moves to the start of the next row and prints that line's number
/// prefix; every other character is printed verbatim. `line` counts the
/// newlines already crossed.
pub open spec fn body_ops(s: Seq<char>, line: nat, color: bool, num_width: nat) -> Seq<FrameOp>
    decreases s.len(),
{
    if s.len() == 0 {
        Seq::empty()
    } else if s[0] == '\n' {
        seq![
            FrameOp::MoveTo(0, clip_row(line + 1)),
            FrameOp::Text(number_prefix(line + 2, num_width), number_style(color)),
        ] + body_ops(s.drop_first(), line + 1, color, num_width)
    } else {
        seq![char_op(s[0])] + body_ops(s.drop_first(), line, color, num_width)
    }
}

/// The operations for the whole content: nothing for an empty buffer,
/// otherwise the first line's number prefix followed by the body.
pub open spec fn content_ops(buf: Seq<char>, color: bool, num_width: nat) -> Seq<FrameOp> {
    if buf.len() == 0 {
        Seq::empty()
    } else {
        seq![FrameOp::Text(number_prefix(1, num_width), number_style(color))] + body_ops(
            buf,
            0,
            color,
            num_width,
        )
    }
}

/// The operations of one full frame: the status bar on the bottom row, then
/// the content from the top-left corner.
pub open spec fn frame_ops(buf: Seq<char>, color: bool, num_width: nat, rows: u16) -> Seq<FrameOp>
    recommends
        rows >= 1,
{
    seq![
        FrameOp::MoveTo(0, (rows - 1) as u16),
        FrameOp::Text(status_text(), status_style(color)),
        FrameOp::MoveTo(0, 0),
    ] + content_ops(buf, color, num_width)
}

/// Builds the status bar's text.
pub fn status_line() -> (s: String)
    ensures
        s@ == status_text(),
{
    String::from_str("grm v0.1.0 | ? for help")
}

fn char_render(c: char) -> (op: RenderOp)
    ensures
        op@ == char_op(c),
{
    RenderOp::Char(c)
}

fn clip_row_exec(line: usize) -> (r: u16)
    ensures
        r == clip_row(line as nat),
{
    if line >= 0xFFFF {
        0xFFFF
    } else {
        line as u16
    }
}

/// Builds the full frame for a buffer.
pub fn render_frame(buf: &str, color: bool, num_width: usize, rows: u16) -> (ops: Vec<RenderOp>)
    requires
        rows >= 1,
        num_width < usize::MAX,
        buf@.len() < usize::MAX,
    ensures
        ops_view(ops@) == frame_ops(buf@, color, num_width as nat, rows),
{
    broadcast use vstd::string::axiom_spec_iter;
    broadcast use vstd::string::next_postcondition;

    let mut ops: Vec<RenderOp> = Vec::new();
    ops.push(RenderOp::MoveTo(0, rows - 1));
    ops.push(
        RenderOp::Text(
            status_line(),
            if color {
                Style::BlackOnGreen
            } else {
                Style::Plain
            },
        ),
    );
    ops.push(RenderOp::MoveTo(0, 0));
    if !buf.is_empty() {
        ops.push(
            RenderOp::Text(
                render_number_prefix(1, num_width),
                if color {
                    Style::DimGrey
                } else {
                    Style::Plain
                },
            ),
        );
    }
    proof {
        assert(ops_view(ops@) + body_ops(buf@, 0, color, num_width as nat) =~= frame_ops(
            buf@,
            color,
            num_width as nat,
            rows,
        ));
        assert(buf@.skip(0) =~= buf@);
    }
    let mut line: usize = 0;
    for c in it: buf.chars()
        invariant
            it.seq() == buf@,
            buf@.len() < usize::MAX,
            num_width < usize::MAX,
            rows >= 1,
            line <= it.index(),
            it.index() <= buf@.len(),
            ops_view(ops@) + body_ops(buf@.skip(it.index() as int), line as nat, color,
                num_width as nat,
            ) == frame_ops(buf@, color, num_width as nat, rows),
    {
        let ghost i = it.index() as int;
        let ghost prev = ops@;
        let ghost prev_line = line as nat;
        proof {
            assert(c == buf@[i]);
            assert(buf@.skip(i)[0] == buf@[i]);
            assert(buf@.skip(i).drop_first() =~= buf@.skip(i + 1));
        }
        if c == '\n' {
            line = line + 1;
            ops.push(RenderOp::MoveTo(0, clip_row_exec(line)));
            ops.push(
                RenderOp::Text(
                    render_number_prefix(line + 1, num_width),
                    if color {
                        Style::DimGrey
                    } else {
                        Style::Plain
                    },
                ),
            );
        } else {
            ops.push(char_render(c));
        }
        proof {
            if c == '\n' {
                assert(body_ops(buf@.skip(i), prev_line, color, num_width as nat) == seq![
                    FrameOp::MoveTo(0, clip_row(prev_line + 1)),
                    FrameOp::Text(number_prefix(prev_line + 2, num_width as nat), number_style(color)),
                ] + body_ops(buf@.skip(i + 1), line as nat, color, num_width as nat));
                assert(ops@ =~= prev.push(ops@[prev.len() as int]).push(ops@[prev.len() as int + 1]));
                assert(ops_view(ops@) =~= ops_view(prev) + seq![
                    FrameOp::MoveTo(0, clip_row(prev_line + 1)),
                    FrameOp::Text(number_prefix(prev_line + 2, num_width as nat), number_style(color)),
                ]);
            } else {
                assert(body_ops(buf@.skip(i), prev_line, color, num_width as nat) == seq![
                    char_op(buf@[i]),
                ] + body_ops(buf@.skip(i + 1), line as nat, color, num_width as nat));
                assert(ops_view(ops@) =~= ops_view(prev) + seq![char_op(c)]);
            }
            assert(ops_view(ops@) + body_ops(buf@.skip(i + 1), line as nat, color,
                num_width as nat,
            ) =~= frame_ops(buf@, color, num_width as nat, rows));
        }
    }
    proof {
        assert(buf@.skip(buf@.len() as int) =~= Seq::<char>::empty());
        assert(ops_view(ops@) =~= frame_ops(buf@, color, num_width as nat, rows));
    }
    ops
}

/// How many number prefixes a sequence of operations prints.
pub open spec fn count_prefix_ops(ops: Seq<FrameOp>) -> nat
    decreases ops.len(),
{
    if ops.len() == 0 {
        0
    } else {
        count_prefix_ops(ops.drop_first()) + if ops[0] is Text {
            1nat
        } else {
            0nat
        }
    }
}

proof fn lemma_count_prefix_single(op: FrameOp)
    ensures
        count_prefix_ops(seq![op]) == if op is Text {
            1nat
        } else {
            0nat
        },
{
    reveal_with_fuel(count_prefix_ops, 3);
    assert(seq![op].drop_first() =~= Seq::<FrameOp>::empty());
}

proof fn lemma_count_prefix_concat(a: Seq<FrameOp>, b: Seq<FrameOp>)
    ensures
        count_prefix_ops(a + b) == count_prefix_ops(a) + count_prefix_ops(b),
    decreases a.len(),
{
    if a.len() == 0 {
        assert(a + b =~= b);
    } else {
        assert((a + b).drop_first() =~= a.drop_first() + b);
        lemma_count_prefix_concat(a.drop_first(), b);
    }
}

proof fn lemma_body_ops_prefix_count(s: Seq<char>, line: nat, color: bool, num_width: nat)
    ensures
        count_prefix_ops(body_ops(s, line, color, num_width)) == count_char(s, '\n'),
    decreases s.len(),
{
    if s.len() > 0 {
        let rest_line: nat = if s[0] == '\n' {
            line + 1
        } else {
            line
        };
        let rest = body_ops(s.drop_first(), rest_line, color, num_width);
        lemma_body_ops_prefix_count(s.drop_first(), rest_line, color, num_width);
        if s[0] == '\n' {
            let mv = FrameOp::MoveTo(0, clip_row(line + 1));
            let tx = FrameOp::Text(number_prefix(line + 2, num_width), number_style(color));
            assert(seq![mv, tx] =~= seq![mv] + seq![tx]);
            lemma_count_prefix_concat(seq![mv] + seq![tx], rest);
            lemma_count_prefix_concat(seq![mv], seq![tx]);
            lemma_count_prefix_single(mv);
            lemma_count_prefix_single(tx);
        } else {
            lemma_count_prefix_concat(seq![char_op(s[0])], rest);
            lemma_count_prefix_single(char_op(s[0]));
        }
    }
}

/// Every line gets exactly one number prefix: a non-empty buffer is rendered
/// with one prefix per newline character plus one for the first line, and an
/// empty buffer with none.
pub proof fn lemma_prefix_count(buf: Seq<char>, color: bool, num_width: nat)
    ensures
        count_prefix_ops(content_ops(buf, color, num_width)) == if buf.len() == 0 {
            0nat
        } else {
            count_char(buf, '\n') + 1nat
        },
{
    if buf.len() > 0 {
        let tx = FrameOp::Text(number_prefix(1, num_width), number_style(color));
        lemma_body_ops_prefix_count(buf, 0, color, num_width);
        lemma_count_prefix_concat(seq![tx], body_ops(buf, 0, color, num_width));
        lemma_count_prefix_single(tx);
    } else {
        assert(count_prefix_ops(Seq::<FrameOp>::empty()) == 0);
    }
}

/// True when an operation carries styling beyond the terminal's default.
pub open spec fn op_styled(op: FrameOp) -> bool {
    match op {
        FrameOp::Text(_, st) => st != Style::Plain,
        _ => false,
    }
}

proof fn lemma_body_ops_unstyled(s: Seq<char>, line: nat, num_width: nat)
    ensures
        forall|i: int|
            0 <= i < body_ops(s, line, false, num_width).len() ==> !op_styled(
                #[trigger] body_ops(s, line, false, num_width)[i],
            ),
    decreases s.len(),
{
    if s.len() > 0 {
        let rest_line: nat = if s[0] == '\n' {
            line + 1
        } else {
            line
        };
        let head: int = if s[0] == '\n' {
            2
        } else {
            1
        };
        lemma_body_ops_unstyled(s.drop_first(), rest_line, num_width);
        let rest = body_ops(s.drop_first(), rest_line, false, num_width);
        let front: Seq<FrameOp> = if s[0] == '\n' {
            seq![
                FrameOp::MoveTo(0, clip_row(line + 1)),
                FrameOp::Text(number_prefix(line + 2, num_width), number_style(false)),
            ]
        } else {
            seq![char_op(s[0])]
        };
        assert(body_ops(s, line, false, num_width) =~= front + rest);
        assert forall|i: int| 0 <= i < body_ops(s, line, false, num_width).len() implies !op_styled(
            body_ops(s, line, false, num_width)[i],
        ) by {
            if i < head {
                assert(!op_styled(front[i]));
            } else {
                assert(body_ops(s, line, false, num_width)[i] == rest[i - head]);
                assert(!op_styled(rest[i - head]));
            }
        }
    }
}

/// With color disabled, nothing in a frame is styled: every text operation
/// is printed in the terminal's default style.
pub proof fn lemma_nocolor_frame_unstyled(buf: Seq<char>, num_width: nat, rows: u16)
    ensures
        forall|i: int|
            0 <= i < frame_ops(buf, false, num_width, rows).len() ==> !op_styled(
                #[trigger] frame_ops(buf, false, num_width, rows)[i],
            ),
{
    lemma_body_ops_unstyled(buf, 0, num_width);
}

} // verus!

