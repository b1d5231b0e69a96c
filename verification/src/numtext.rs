//! Decimal text for 64-bit integers: formatting, parsing, and the proof
//! that parsing undoes formatting.

use vstd::prelude::*;

verus! {

/// The decimal digit characters.
pub open spec fn is_digit_c(c: char) -> bool {
    48 <= c as u32 <= 57
}

/// The numeric value of a digit character.
pub open spec fn digit_val(c: char) -> int {
    c as u32 - 48
}

/// The digit character for a value below ten.
pub open spec fn digit_char(d: int) -> char {
    if d == 0 {
        '0'
    } else if d == 1 {
        '1'
    } else if d == 2 {
        '2'
    } else if d == 3 {
        '3'
    } else if d == 4 {
        '4'
    } else if d == 5 {
        '5'
    } else if d == 6 {
        '6'
    } else if d == 7 {
        '7'
    } else if d == 8 {
        '8'
    } else {
        '9'
    }
}

/// The canonical decimal text of a natural number.
pub open spec fn u_dec_v(n: nat) -> Seq<char>
    decreases n,
{
    if n < 10 {
        seq![digit_char(n as int)]
    } else {
        u_dec_v(n / 10).push(digit_char((n % 10) as int))
    }
}

/// The canonical decimal text of an integer: a minus sign before the
/// magnitude when negative.
pub open spec fn i_dec_v(n: int) -> Seq<char> {
    if n < 0 {
        seq!['-'] + u_dec_v((-n) as nat)
    } else {
        u_dec_v(n as nat)
    }
}

/// Whether every character from `i` on is a digit.
pub open spec fn all_digits_from(s: Seq<char>, i: int) -> bool {
    forall|j: int| i <= j < s.len() ==> is_digit_c(#[trigger] s[j])
}

/// The value of a digit string.
pub open spec fn digits_val_v(s: Seq<char>) -> nat
    decreases s.len(),
{
    if s.len() == 0 {
        0
    } else {
        digits_val_v(s.subrange(0, s.len() - 1)) * 10 + (
        if digit_val(s.last()) >= 0 {
            digit_val(s.last()) as nat
        } else {
            0
        })
    }
}

/// Whether an atom's spelling makes it a numeral: a leading digit, or a
/// sign immediately followed by a digit.
pub open spec fn atom_is_number(s: Seq<char>) -> bool {
    s.len() > 0 && (is_digit_c(s[0]) || ((s[0] == '+' || s[0] == '-') && s.len() > 1 && is_digit_c(
        s[1],
    )))
}

/// The number an atom spells, if its digits are well formed and the
/// value fits a 64-bit integer.
pub open spec fn parse_num_v(s: Seq<char>) -> Option<i64> {
    let digits = if s.len() > 0 && (s[0] == '+' || s[0] == '-') {
        s.subrange(1, s.len() as int)
    } else {
        s
    };
    let neg = s.len() > 0 && s[0] == '-';
    if !all_digits_from(digits, 0) {
        Option::None
    } else {
        let v = digits_val_v(digits);
        if neg {
            if v <= 0x8000_0000_0000_0000 {
                Option::Some((-(v as int)) as i64)
            } else {
                Option::None
            }
        } else {
            if v <= i64::MAX {
                Option::Some(v as i64)
            } else {
                Option::None
            }
        }
    }
}

// ------------------------------------------------------------------
// Executable formatting.
// ------------------------------------------------------------------

/// Appends the decimal text of `n`.
pub fn push_u_dec(n: u64, out: &mut Vec<char>)
    ensures
        final(out)@ == old(out)@ + u_dec_v(n as nat),
    decreases n,
{
    if n >= 10 {
        push_u_dec(n / 10, out);
    }
    let d: u8 = (n % 10) as u8;
    let c: char = (48 + d) as char;
    proof {
        assert(c == digit_char((n % 10) as int));
        if n < 10 {
            assert(old(out)@ + u_dec_v(n as nat) =~= old(out)@.push(c));
        } else {
            assert(old(out)@ + u_dec_v(n as nat) =~= (old(out)@ + u_dec_v((n / 10) as nat)).push(
                c,
            ));
        }
    }
    out.push(c);
}

/// Appends the decimal text of `n`, sign included.
pub fn push_i_dec(n: i64, out: &mut Vec<char>)
    ensures
        final(out)@ == old(out)@ + i_dec_v(n as int),
{
    if n < 0 {
        out.push('-');
        let mag: u64 = ((-(n + 1)) as u64) + 1;
        proof {
            assert(mag == -(n as int));
        }
        push_u_dec(mag, out);
        proof {
            assert(old(out)@ + i_dec_v(n as int) =~= old(out)@.push('-') + u_dec_v(mag as nat));
        }
    } else {
        push_u_dec(n as u64, out);
    }
}

// ------------------------------------------------------------------
// Executable parsing.
// ------------------------------------------------------------------

/// Reads the digit string starting at `start`; reports its value, or
/// nothing when a non-digit appears or the value exceeds the 64-bit
/// unsigned range.
pub fn parse_digits(chars: &Vec<char>, start: usize) -> (r: Option<u64>)
    requires
        start <= chars@.len(),
    ensures
        ({
            let s = chars@.subrange(start as int, chars@.len() as int);
            match r {
                Option::Some(v) => all_digits_from(s, 0) && digits_val_v(s) == v,
                Option::None => !all_digits_from(s, 0) || digits_val_v(s) > u64::MAX,
            }
        }),
{
    let ghost s = chars@.subrange(start as int, chars@.len() as int);
    let mut acc: u64 = 0;
    let mut sat = false;
    let mut i: usize = start;
    while i < chars.len()
        invariant
            start <= i <= chars@.len(),
            s == chars@.subrange(start as int, chars@.len() as int),
            all_digits_from(chars@.subrange(start as int, i as int), 0),
            !sat ==> acc == digits_val_v(chars@.subrange(start as int, i as int)),
            sat ==> digits_val_v(chars@.subrange(start as int, i as int)) > u64::MAX,
        decreases chars@.len() - i,
    {
        let c = chars[i];
        let cu = c as u32;
        let ghost pre = chars@.subrange(start as int, i as int);
        proof {
            assert(chars@.subrange(start as int, i + 1).subrange(0, i - start as int) =~= pre);
            assert(chars@.subrange(start as int, i + 1).last() == chars@[i as int]);
        }
        if cu < 48 || cu > 57 {
            proof {
                assert(s[i - start] == chars@[i as int]);
                assert(!is_digit_c(s[i - start]));
            }
            return None;
        }
        let d: u64 = (cu - 48) as u64;
        let ghost prev = digits_val_v(pre);
        proof {
            assert(digits_val_v(chars@.subrange(start as int, i + 1)) == prev * 10 + digit_val(
                chars@[i as int],
            ));
        }
        if sat || acc > (u64::MAX - d) / 10 {
            proof {
                if !sat {
                    assert(acc * 10 + d > u64::MAX) by (nonlinear_arith)
                        requires
                            acc > (u64::MAX - d) / 10,
                            d <= 9,
                    ;
                }
                assert(prev * 10 + digit_val(chars@[i as int]) > u64::MAX) by (nonlinear_arith)
                    requires
                        prev * 10 + digit_val(chars@[i as int]) == digits_val_v(
                            chars@.subrange(start as int, i + 1),
                        ) || true,
                        (!sat && prev == acc && acc * 10 + d > u64::MAX && digit_val(
                            chars@[i as int],
                        ) == d) || (sat && prev > u64::MAX && digit_val(chars@[i as int]) >= 0),
                ;
            }
            sat = true;
        } else {
            proof {
                assert(acc * 10 + d <= u64::MAX) by (nonlinear_arith)
                    requires
                        acc <= (u64::MAX - d) / 10,
                        d <= 9,
                ;
            }
            acc = acc * 10 + d;
        }
        i = i + 1;
    }
    proof {
        assert(chars@.subrange(start as int, chars@.len() as int) =~= s);
    }
    if sat {
        None
    } else {
        Some(acc)
    }
}

// ------------------------------------------------------------------
// The round trip: parsing recovers the formatted number.
// ------------------------------------------------------------------

/// Formatted naturals are nonempty digit strings with their own value.
pub proof fn lemma_u_dec_val(n: nat)
    ensures
        u_dec_v(n).len() >= 1,
        all_digits_from(u_dec_v(n), 0),
        digits_val_v(u_dec_v(n)) == n,
    decreases n,
{
    if n < 10 {
        let s = u_dec_v(n);
        assert(s.subrange(0, 0) =~= Seq::<char>::empty());
        assert(digits_val_v(Seq::<char>::empty()) == 0);
        assert(digit_val(digit_char(n as int)) == n);
        assert(digits_val_v(s) == digit_val(digit_char(n as int)));
    } else {
        lemma_u_dec_val(n / 10);
        let x = u_dec_v(n / 10);
        let c = digit_char((n % 10) as int);
        let s = x.push(c);
        assert(s.subrange(0, s.len() - 1) =~= x);
        assert(digits_val_v(s) == digits_val_v(x) * 10 + digit_val(c));
        assert((n / 10) * 10 + n % 10 == n);
        assert forall|j: int| 0 <= j < s.len() implies is_digit_c(#[trigger] s[j]) by {
            if j < x.len() {
                assert(s[j] == x[j]);
            }
        }
    }
}

/// Parsing undoes formatting, for every 64-bit integer.
pub proof fn lemma_parse_i_dec(n: i64)
    ensures
        atom_is_number(i_dec_v(n as int)),
        parse_num_v(i_dec_v(n as int)) == Option::Some(n),
{
    let s = i_dec_v(n as int);
    if n < 0 {
        lemma_u_dec_val((-(n as int)) as nat);
        let mag = u_dec_v((-(n as int)) as nat);
        assert(s == seq!['-'] + mag);
        assert(s[0] == '-');
        assert(s[1] == mag[0]);
        assert(s.subrange(1, s.len() as int) =~= mag);
        assert(digits_val_v(mag) <= 0x8000_0000_0000_0000);
        assert((-(digits_val_v(mag) as int)) as i64 == n);
    } else {
        lemma_u_dec_val(n as nat);
        assert(s == u_dec_v(n as nat));
        assert(is_digit_c(s[0]));
        assert(s[0] != '+' && s[0] != '-') by {
            assert(!is_digit_c('+'));
            assert(!is_digit_c('-'));
        }
        assert(digits_val_v(s) == n as nat);
    }
}

} // verus!
