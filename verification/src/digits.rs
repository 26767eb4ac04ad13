//! Decimal rendering of integers, for virtual paths and wire framing.

use vstd::prelude::*;

verus! {

/// The decimal digits of `n` without a leading zero; empty for zero.
pub open spec fn spec_dec_digits_rec(n: nat) -> Seq<u8>
    decreases n,
{
    if n == 0 {
        Seq::empty()
    } else {
        spec_dec_digits_rec(n / 10).push((48 + (n % 10)) as u8)
    }
}

/// The decimal byte rendering of `n`; `"0"` for zero.
pub open spec fn spec_dec_bytes(n: nat) -> Seq<u8> {
    if n == 0 {
        seq![48u8]
    } else {
        spec_dec_digits_rec(n)
    }
}

fn append_dec_rec(out: &mut Vec<u8>, n: u64)
    ensures
        final(out)@ == old(out)@ + spec_dec_digits_rec(n as nat),
    decreases n,
{
    if n == 0 {
        proof {
            assert(old(out)@ + Seq::<u8>::empty() =~= old(out)@);
        }
        return ;
    }
    append_dec_rec(out, n / 10);
    let d: u8 = (48 + (n % 10)) as u8;
    out.push(d);
    proof {
        assert(old(out)@ + spec_dec_digits_rec((n / 10) as nat).push(d) =~= (old(out)@
            + spec_dec_digits_rec((n / 10) as nat)).push(d));
    }
}

/// Append the decimal rendering of `n` as ASCII bytes.
pub fn append_u64_dec(out: &mut Vec<u8>, n: u64)
    ensures
        final(out)@ == old(out)@ + spec_dec_bytes(n as nat),
{
    if n == 0 {
        out.push(48);
        proof {
            assert(old(out)@ + spec_dec_bytes(0) =~= old(out)@.push(48u8));
        }
    } else {
        append_dec_rec(out, n);
    }
}

/// The decimal rendering of a signed value: a minus sign, then the
/// magnitude's digits.
pub open spec fn spec_dec_bytes_signed(n: int) -> Seq<u8> {
    if n < 0 {
        seq![45u8] + spec_dec_bytes((-n) as nat)
    } else {
        spec_dec_bytes(n as nat)
    }
}

/// Append the decimal rendering of a signed value as ASCII bytes.
pub fn append_i64_dec(out: &mut Vec<u8>, n: i64)
    ensures
        final(out)@ == old(out)@ + spec_dec_bytes_signed(n as int),
{
    if n < 0 {
        out.push(45);
        let m: u64 = ((-(n as i128)) as u64);
        append_u64_dec(out, m);
        proof {
            assert(old(out)@ + (seq![45u8] + spec_dec_bytes(m as nat)) =~= old(out)@.push(45u8)
                + spec_dec_bytes(m as nat));
        }
    } else {
        append_u64_dec(out, n as u64);
    }
}

/// The character of one decimal digit.
pub open spec fn spec_digit_char(d: int) -> char {
    if d == 0 {
        '0'
    } else if d == 1 {
        '1'
    } else if d == 2 {
        '2'
    } else if d == 3 {
        '3'
    } else if d == 4 {
        '4'
    } else if d == 5 {
        '5'
    } else if d == 6 {
        '6'
    } else if d == 7 {
        '7'
    } else if d == 8 {
        '8'
    } else {
        '9'
    }
}

/// The decimal digit characters of `n` without a leading zero.
pub open spec fn spec_dec_chars_rec(n: nat) -> Seq<char>
    decreases n,
{
    if n == 0 {
        Seq::empty()
    } else {
        spec_dec_chars_rec(n / 10).push(spec_digit_char((n % 10) as int))
    }
}

/// The decimal character rendering of `n`; `"0"` for zero.
pub open spec fn spec_dec_str(n: nat) -> Seq<char> {
    if n == 0 {
        seq!['0']
    } else {
        spec_dec_chars_rec(n)
    }
}

/// One digit as a string slice.
fn digit_str(d: u64) -> (r: &'static str)
    requires
        d < 10,
    ensures
        r@ == seq![spec_digit_char(d as int)],
{
    proof {
        reveal_strlit("0");
        reveal_strlit("1");
        reveal_strlit("2");
        reveal_strlit("3");
        reveal_strlit("4");
        reveal_strlit("5");
        reveal_strlit("6");
        reveal_strlit("7");
        reveal_strlit("8");
        reveal_strlit("9");
    }
    let r = if d == 0 {
        "0"
    } else if d == 1 {
        "1"
    } else if d == 2 {
        "2"
    } else if d == 3 {
        "3"
    } else if d == 4 {
        "4"
    } else if d == 5 {
        "5"
    } else if d == 6 {
        "6"
    } else if d == 7 {
        "7"
    } else {
        "8"
    };
    if d == 9 {
        let r9 = "9";
        proof {
            assert(r9@ =~= seq![spec_digit_char(9)]);
        }
        return r9;
    }
    proof {
        assert(r@ =~= seq![spec_digit_char(d as int)]);
    }
    r
}

fn append_dec_str_rec(out: &mut String, n: u64)
    ensures
        final(out)@ == old(out)@ + spec_dec_chars_rec(n as nat),
    decreases n,
{
    if n == 0 {
        proof {
            assert(old(out)@ + Seq::<char>::empty() =~= old(out)@);
        }
        return ;
    }
    append_dec_str_rec(out, n / 10);
    let d = digit_str(n % 10);
    out.append(d);
    proof {
        assert(old(out)@ + spec_dec_chars_rec((n / 10) as nat).push(
            spec_digit_char((n % 10) as int),
        ) =~= (old(out)@ + spec_dec_chars_rec((n / 10) as nat)) + seq![
            spec_digit_char((n % 10) as int),
        ]);
    }
}

/// Append the decimal rendering of `n` as characters.
pub fn append_u64_dec_str(out: &mut String, n: u64)
    ensures
        final(out)@ == old(out)@ + spec_dec_str(n as nat),
{
    if n == 0 {
        let z = digit_str(0);
        out.append(z);
    } else {
        append_dec_str_rec(out, n);
    }
}

} // verus!
