//! Text rendering: numbers in decimal and in upper-case hexadecimal, and
//! columns that are filled up with spaces.

use vstd::arithmetic::div_mod::{
    lemma_div_decreases, lemma_div_pos_is_pos, lemma_mod_bound, lemma_small_mod,
};
use vstd::prelude::*;

verus! {

/// The sixteen digits, in the order of their values.
pub open spec fn digits() -> Seq<char> {
    seq!['0', '1', '2', '3', '4', '5', '6', '7', '8', '9', 'A', 'B', 'C', 'D', 'E', 'F']
}

/// The digit whose value is `d`.
pub open spec fn digit_char(d: nat) -> char
    recommends
        d < 16,
{
    digits()[d as int]
}

/// `n` written in base `base`, without leading zeros.
pub open spec fn numeral(n: nat, base: nat) -> Seq<char>
    recommends
        2 <= base <= 16,
    decreases n,
{
    if n < base || base < 2 {
        seq![digit_char(n)]
    } else {
        proof {
            lemma_div_decreases(n as int, base as int);
            lemma_div_pos_is_pos(n as int, base as int);
        }
        numeral(n / base, base).push(digit_char(n % base))
    }
}

/// `n` in decimal.
pub open spec fn decimal(n: nat) -> Seq<char> {
    numeral(n, 10)
}

/// `n` in upper-case hexadecimal.
pub open spec fn hex(n: nat) -> Seq<char> {
    numeral(n, 16)
}

/// `count` times the character `c`.
pub open spec fn repeat(c: char, count: nat) -> Seq<char> {
    Seq::new(count, |i: int| c)
}

/// `s` with zeros in front of it, as many as it takes to reach `width`
/// characters.
pub open spec fn pad_zeros(s: Seq<char>, width: nat) -> Seq<char> {
    if s.len() < width {
        repeat('0', (width - s.len()) as nat) + s
    } else {
        s
    }
}

/// `s` with spaces behind it, as many as it takes to reach `width`
/// characters. A longer `s` is left as it is.
pub open spec fn pad_right(s: Seq<char>, width: nat) -> Seq<char> {
    if s.len() < width {
        s + repeat(' ', (width - s.len()) as nat)
    } else {
        s
    }
}

/// `n` in upper-case hexadecimal with at least `width` digits.
pub open spec fn hex_padded(n: nat, width: nat) -> Seq<char> {
    pad_zeros(hex(n), width)
}

/// `true` or `false`.
pub open spec fn bool_text(b: bool) -> Seq<char> {
    if b {
        "true"@
    } else {
        "false"@
    }
}

/// The items in decimal, with `, ` between them.
pub open spec fn items_text(items: Seq<u8>) -> Seq<char>
    decreases items.len(),
{
    if items.len() == 0 {
        Seq::empty()
    } else if items.len() == 1 {
        decimal(items[0] as nat)
    } else {
        items_text(items.drop_last()) + ", "@ + decimal(items.last() as nat)
    }
}

/// The items as a bracketed list.
pub open spec fn list_text(items: Seq<u8>) -> Seq<char> {
    "["@ + items_text(items) + "]"@
}

/// The text of one digit.
pub fn digit_text(d: u8) -> (s: &'static str)
    requires
        d < 16,
    ensures
        s@ == seq![digit_char(d as nat)],
{
    proof {
        reveal_strlit("0");
        reveal_strlit("1");
        reveal_strlit("2");
        reveal_strlit("3");
        reveal_strlit("4");
        reveal_strlit("5");
        reveal_strlit("6");
        reveal_strlit("7");
        reveal_strlit("8");
        reveal_strlit("9");
        reveal_strlit("A");
        reveal_strlit("B");
        reveal_strlit("C");
        reveal_strlit("D");
        reveal_strlit("E");
        reveal_strlit("F");
    }
    let s = match d {
        0 => "0",
        1 => "1",
        2 => "2",
        3 => "3",
        4 => "4",
        5 => "5",
        6 => "6",
        7 => "7",
        8 => "8",
        9 => "9",
        10 => "A",
        11 => "B",
        12 => "C",
        13 => "D",
        14 => "E",
        _ => "F",
    };
    assert(s@ =~= seq![digit_char(d as nat)]);
    s
}

/// Appends `n`, written in base `base`, to `out`.
pub fn push_numeral(out: &mut String, n: u64, base: u64)
    requires
        2 <= base <= 16,
    ensures
        final(out)@ == old(out)@ + numeral(n as nat, base as nat),
    decreases n,
{
    proof {
        lemma_mod_bound(n as int, base as int);
    }
    if n >= base {
        proof {
            lemma_div_decreases(n as int, base as int);
            lemma_div_pos_is_pos(n as int, base as int);
        }
        push_numeral(out, n / base, base);
    }
    let digit = (n % base) as u8;
    assert(digit as nat == (n as nat) % (base as nat));
    let ghost before = out@;
    out.append(digit_text(digit));
    proof {
        let tail = numeral(n as nat, base as nat);
        if n >= base {
            let head = numeral((n / base) as nat, base as nat);
            assert(before == old(out)@ + head);
            assert(tail == head.push(digit_char(digit as nat)));
            assert(out@ =~= old(out)@ + tail);
        } else {
            lemma_small_mod(n as nat, base as nat);
            assert(out@ =~= old(out)@ + tail);
        }
    }
}

/// Appends `count` times the text `unit`, which is one character long.
pub fn push_repeat(out: &mut String, unit: &str, count: usize)
    requires
        unit@.len() == 1,
    ensures
        final(out)@ == old(out)@ + repeat(unit@[0], count as nat),
{
    let mut i: usize = 0;
    while i < count
        invariant
            i <= count,
            unit@.len() == 1,
            out@ == old(out)@ + repeat(unit@[0], i as nat),
        decreases count - i,
    {
        out.append(unit);
        i = i + 1;
        assert(out@ =~= old(out)@ + repeat(unit@[0], i as nat));
    }
}

/// Appends `n` in upper-case hexadecimal with at least `width` digits.
pub fn push_hex_padded(out: &mut String, n: u64, width: usize)
    ensures
        final(out)@ == old(out)@ + hex_padded(n as nat, width as nat),
{
    let mut body = String::new();
    push_numeral(&mut body, n, 16);
    assert(body@ =~= hex(n as nat));
    let len = body.as_str().unicode_len();
    if len < width {
        proof {
            reveal_strlit("0");
        }
        push_repeat(out, "0", width - len);
    }
    out.append(body.as_str());
    assert(out@ =~= old(out)@ + hex_padded(n as nat, width as nat));
}

/// Appends `s` and fills the column up to `width` characters with spaces.
pub fn push_column(out: &mut String, s: &str, width: usize)
    ensures
        final(out)@ == old(out)@ + pad_right(s@, width as nat),
{
    out.append(s);
    let len = s.unicode_len();
    if len < width {
        proof {
            reveal_strlit(" ");
        }
        push_repeat(out, " ", width - len);
    }
    assert(out@ =~= old(out)@ + pad_right(s@, width as nat));
}

/// Appends `true` or `false`.
pub fn push_bool(out: &mut String, b: bool)
    ensures
        final(out)@ == old(out)@ + bool_text(b),
{
    if b {
        out.append("true");
    } else {
        out.append("false");
    }
}

/// Appends the items as a bracketed list.
pub fn push_list(out: &mut String, items: &Vec<u8>)
    ensures
        final(out)@ == old(out)@ + list_text(items@),
{
    let mut body = String::new();
    let mut i: usize = 0;
    while i < items.len()
        invariant
            i <= items.len(),
            body@ == items_text(items@.take(i as int)),
        decreases items.len() - i,
    {
        proof {
            assert(items@.take(i as int + 1).drop_last() =~= items@.take(i as int));
        }
        if i > 0 {
            body.append(", ");
        }
        push_numeral(&mut body, items[i] as u64, 10);
        i = i + 1;
        proof {
            if i == 1 {
                assert(body@ =~= items_text(items@.take(i as int)));
            }
        }
    }
    assert(items@.take(i as int) =~= items@);
    out.append("[");
    out.append(body.as_str());
    out.append("]");
}

} // verus!
