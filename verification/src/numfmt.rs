//! Decimal formatting for the line-number column.
//!
//! A line number is printed right-justified in a column whose width is the
//! digit count of the total line count, plus one leading and one trailing
//! space of padding.

use vstd::prelude::*;

verus! {

/// The character for one decimal digit.
pub open spec fn digit_char(d: nat) -> char
    recommends
        d < 10,
{
    if d == 0 {
        '0'
    } else if d == 1 {
        '1'
    } else if d == 2 {
        '2'
    } else if d == 3 {
        '3'
    } else if d == 4 {
        '4'
    } else if d == 5 {
        '5'
    } else if d == 6 {
        '6'
    } else if d == 7 {
        '7'
    } else if d == 8 {
        '8'
    } else {
        '9'
    }
}

/// The decimal digits of `n`, most significant first.
pub open spec fn dec_digits(n: nat) -> Seq<char>
    decreases n,
{
    if n < 10 {
        seq![digit_char(n)]
    } else {
        dec_digits(n / 10).push(digit_char(n % 10))
    }
}

/// A coarse bound on the digit count, enough to rule out overflow of the
/// column width: `n` written in decimal has at most `n / 10 + 2` digits.
pub proof fn lemma_dec_digits_len_bound(n: nat)
    ensures
        dec_digits(n).len() <= n / 10 + 2,
    decreases n,
{
    if n >= 10 {
        lemma_dec_digits_len_bound(n / 10);
    }
}

fn digit_str(d: usize) -> (s: &'static str)
    requires
        d < 10,
    ensures
        s@ == seq![digit_char(d as nat)],
{
    let s: &'static str = if d == 0 {
        "0"
    } else if d == 1 {
        "1"
    } else if d == 2 {
        "2"
    } else if d == 3 {
        "3"
    } else if d == 4 {
        "4"
    } else if d == 5 {
        "5"
    } else if d == 6 {
        "6"
    } else if d == 7 {
        "7"
    } else if d == 8 {
        "8"
    } else {
        "9"
    };
    proof {
        reveal_strlit("0");
        reveal_strlit("1");
        reveal_strlit("2");
        reveal_strlit("3");
        reveal_strlit("4");
        reveal_strlit("5");
        reveal_strlit("6");
        reveal_strlit("7");
        reveal_strlit("8");
        reveal_strlit("9");
        assert(s@ =~= seq![digit_char(d as nat)]);
    }
    s
}

/// Renders `n` in decimal.
pub fn dec_string(n: usize) -> (s: String)
    ensures
        s@ == dec_digits(n as nat),
    decreases n,
{
    if n < 10 {
        String::from_str(digit_str(n))
    } else {
        let mut s = dec_string(n / 10);
        s.append(digit_str(n % 10));
        proof {
            assert(s@ =~= dec_digits(n as nat));
        }
        s
    }
}

/// `k` spaces.
pub open spec fn spaces(k: nat) -> Seq<char>
    decreases k,
{
    if k == 0 {
        Seq::empty()
    } else {
        spaces((k - 1) as nat).push(' ')
    }
}

fn space_string(k: usize) -> (s: String)
    ensures
        s@ == spaces(k as nat),
{
    let mut s = String::new();
    let mut i: usize = 0;
    while i < k
        invariant
            i <= k,
            s@ == spaces(i as nat),
        decreases k - i,
    {
        s.append(" ");
        proof {
            reveal_strlit(" ");
            assert(s@ =~= spaces((i + 1) as nat));
        }
        i = i + 1;
    }
    s
}

/// `n` in decimal, right-justified with spaces to at least `width` characters.
pub open spec fn padded_number(n: nat, width: nat) -> Seq<char> {
    let ds = dec_digits(n);
    if ds.len() >= width {
        ds
    } else {
        spaces((width - ds.len()) as nat) + ds
    }
}

/// The full prefix printed before a line's content: the line number
/// right-justified in `num_width + 1` columns, then one separating space.
pub open spec fn number_prefix(n: nat, num_width: nat) -> Seq<char> {
    padded_number(n, num_width + 1).push(' ')
}

/// Builds the line-number prefix for line `n`.
pub fn render_number_prefix(n: usize, num_width: usize) -> (s: String)
    requires
        num_width < usize::MAX,
    ensures
        s@ == number_prefix(n as nat, num_width as nat),
{
    let ds = dec_string(n);
    let len = ds.as_str().unicode_len();
    let width = num_width + 1;
    let mut s = if len >= width {
        ds
    } else {
        let mut sp = space_string(width - len);
        sp.append(ds.as_str());
        sp
    };
    s.append(" ");
    proof {
        reveal_strlit(" ");
        assert(s@ =~= number_prefix(n as nat, num_width as nat));
    }
    s
}

} // verus!
