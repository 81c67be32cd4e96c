//! Decimal numbers as text.
use crate::text;
use vstd::prelude::*;

verus! {

/// The character of a decimal digit.
pub open spec fn digit_char(d: int) -> char {
    if d == 0 {
        '0'
    } else if d == 1 {
        '1'
    } else if d == 2 {
        '2'
    } else if d == 3 {
        '3'
    } else if d == 4 {
        '4'
    } else if d == 5 {
        '5'
    } else if d == 6 {
        '6'
    } else if d == 7 {
        '7'
    } else if d == 8 {
        '8'
    } else {
        '9'
    }
}

/// A natural number in decimal, without leading zeros.
pub open spec fn decimal(n: nat) -> Seq<char>
    decreases n,
{
    if n < 10 {
        seq![digit_char(n as int)]
    } else {
        decimal(n / 10).push(digit_char((n % 10) as int))
    }
}

/// An integer in decimal, with a sign only when it is negative.
pub open spec fn signed_decimal(i: int) -> Seq<char> {
    if i < 0 {
        seq!['-'] + decimal((-i) as nat)
    } else {
        decimal(i as nat)
    }
}

/// A natural number in decimal, with a zero in front of a single digit.
pub open spec fn two_digits(n: nat) -> Seq<char> {
    if n < 10 {
        seq!['0'] + decimal(n)
    } else {
        decimal(n)
    }
}

/// Whether a character is one of the ten ASCII digits.
pub open spec fn is_digit(c: char) -> bool {
    '0' as u32 <= c as u32 <= '9' as u32
}

/// The number that a sequence of digits denotes.
pub open spec fn digits_value(s: Seq<char>) -> nat
    decreases s.len(),
{
    if s.len() == 0 {
        0
    } else {
        digits_value(s.drop_last()) * 10 + (s.last() as u32 - '0' as u32) as nat
    }
}

/// Whether a text is made of digits alone.
pub open spec fn all_digits(s: Seq<char>) -> bool {
    forall|i: int| 0 <= i < s.len() ==> is_digit(#[trigger] s[i])
}

/// Whether a text starts with a sign.
pub open spec fn has_sign(s: Seq<char>) -> bool {
    s.len() > 0 && (s[0] == '-' || s[0] == '+')
}

/// A text without its sign.
pub open spec fn without_sign(s: Seq<char>) -> Seq<char> {
    if has_sign(s) {
        s.skip(1)
    } else {
        s
    }
}

/// The integer that a signed sequence of digits denotes.
pub open spec fn signed_value(s: Seq<char>) -> int {
    if s.len() > 0 && s[0] == '-' {
        -(digits_value(without_sign(s)) as int)
    } else {
        digits_value(without_sign(s)) as int
    }
}

/// The integer of 64 bits that a text denotes: an optional sign, then at least
/// one digit and nothing else, within range.
pub open spec fn parsed_i64(s: Seq<char>) -> Option<i64> {
    if without_sign(s).len() > 0 && all_digits(without_sign(s)) && i64::MIN <= signed_value(s)
        <= i64::MAX {
        Some(signed_value(s) as i64)
    } else {
        None
    }
}

fn digit_text(d: u64) -> (r: &'static str)
    requires
        d < 10,
    ensures
        r@ == seq![digit_char(d as int)],
{
    proof {
        reveal_strlit("0");
        reveal_strlit("1");
        reveal_strlit("2");
        reveal_strlit("3");
        reveal_strlit("4");
        reveal_strlit("5");
        reveal_strlit("6");
        reveal_strlit("7");
        reveal_strlit("8");
        reveal_strlit("9");
    }
    match d {
        0 => "0",
        1 => "1",
        2 => "2",
        3 => "3",
        4 => "4",
        5 => "5",
        6 => "6",
        7 => "7",
        8 => "8",
        _ => "9",
    }
}

/// Writes a number in decimal behind a text.
pub fn append_decimal(out: &mut String, n: u64)
    ensures
        final(out)@ == old(out)@ + decimal(n as nat),
    decreases n,
{
    if n < 10 {
        out.append(digit_text(n));
    } else {
        append_decimal(out, n / 10);
        let ghost mid = out@;
        out.append(digit_text(n % 10));
        proof {
            assert(mid + seq![digit_char((n % 10) as int)] == old(out)@ + decimal(
                (n / 10) as nat,
            ).push(digit_char((n % 10) as int)));
        }
    }
}

/// Writes an integer in decimal behind a text.
pub fn append_signed(out: &mut String, i: i64)
    ensures
        final(out)@ == old(out)@ + signed_decimal(i as int),
{
    if i < 0 {
        let m: u64 = (-(i as i128)) as u64;
        out.append("-");
        proof {
            reveal_strlit("-");
        }
        append_decimal(out, m);
        proof {
            assert(out@ == old(out)@ + signed_decimal(i as int));
        }
    } else {
        append_decimal(out, i as u64);
    }
}

/// Writes a number behind a text, with at least two digits.
pub fn append_two_digits(out: &mut String, n: u64)
    ensures
        final(out)@ == old(out)@ + two_digits(n as nat),
{
    if n < 10 {
        out.append("0");
        proof {
            reveal_strlit("0");
        }
        append_decimal(out, n);
        proof {
            assert(out@ == old(out)@ + two_digits(n as nat));
        }
    } else {
        append_decimal(out, n);
    }
}

/// Reads an integer of 64 bits.
pub fn parse_i64(t: &str) -> (r: Option<i64>)
    ensures
        r == parsed_i64(t@),
{
    let cs = text::chars_of(t);
    let signed = cs.len() > 0 && (cs[0] == '-' || cs[0] == '+');
    let negative = cs.len() > 0 && cs[0] == '-';
    let start: usize = if signed {
        1
    } else {
        0
    };
    let ghost body = t@.skip(start as int);
    proof {
        assert(t@.skip(0) == t@);
    }
    if start == cs.len() {
        return None;
    }
    let limit: u64 = 0x8000_0000_0000_0000;
    let mut acc: u64 = 0;
    let mut big = false;
    let mut i: usize = start;
    while i < cs.len()
        invariant
            cs@ == t@,
            start <= i <= cs@.len(),
            body == t@.skip(start as int),
            body == without_sign(t@),
            limit == 0x8000_0000_0000_0000,
            forall|k: int| 0 <= k < i - start ==> is_digit(#[trigger] body[k]),
            big ==> digits_value(body.take(i - start)) > limit,
            !big ==> acc == digits_value(body.take(i - start)) && acc <= limit,
        decreases cs@.len() - i,
    {
        let c: u32 = cs[i] as u32;
        proof {
            assert(body[i - start] == t@[i as int]);
        }
        if !('0' as u32 <= c && c <= '9' as u32) {
            proof {
                assert(!is_digit(body[i - start]));
                assert(!all_digits(body));
            }
            return None;
        }
        proof {
            assert(body.take(i + 1 - start).drop_last() == body.take(i - start));
            assert(body.take(i + 1 - start).last() == body[i - start]);
            assert(is_digit(body[i - start]));
            assert(digits_value(body.take(i + 1 - start)) == digits_value(body.take(i - start)) * 10
                + (c - '0' as u32));
        }
        if !big {
            let next: u128 = acc as u128 * 10 + (c - '0' as u32) as u128;
            if next > limit as u128 {
                big = true;
            } else {
                acc = next as u64;
            }
        }
        i += 1;
    }
    proof {
        assert(body.take(body.len() as int) == body);
    }
    if big || (!negative && acc == limit) {
        return None;
    }
    if negative {
        Some((-(acc as i128)) as i64)
    } else {
        Some(acc as i64)
    }
}

/// A number that is written is read back as it was.
pub proof fn law_written_numbers_are_read_back(i: i64)
    ensures
        parsed_i64(signed_decimal(i as int)) == Some(i),
{
    let n = if i < 0 {
        -(i as int)
    } else {
        i as int
    };
    lemma_decimal(n as nat);
    let d = decimal(n as nat);
    let t = signed_decimal(i as int);
    if i < 0 {
        assert(t.skip(1) =~= d);
    } else {
        assert(is_digit(d[0]));
    }
    assert(without_sign(t) == d);
}

proof fn lemma_decimal(n: nat)
    ensures
        decimal(n).len() > 0,
        all_digits(decimal(n)),
        digits_value(decimal(n)) == n,
    decreases n,
{
    let d = decimal(n);
    if n < 10 {
        assert(d.drop_last() =~= Seq::<char>::empty());
        assert(digits_value(d.drop_last()) == 0);
    } else {
        lemma_decimal(n / 10);
        let e = decimal(n / 10);
        assert(d.drop_last() =~= e);
        assert forall|k: int| 0 <= k < d.len() implies is_digit(#[trigger] d[k]) by {
            if k < e.len() {
                assert(d[k] == e[k]);
            }
        }
    }
}

/// Digits have their value by their place: each ten times that of the one behind it.
pub proof fn law_places(s: Seq<char>, t: Seq<char>, c: char)
    ensures
        digits_value(s + t) == digits_value(s) * vstd::arithmetic::power::pow(10, t.len())
            + digits_value(t),
        '0' <= c <= '9' ==> digits_value(seq![c]) == c as u32 - '0' as u32,
        digits_value(Seq::empty()) == 0,
    decreases t.len(),
{
    assert(seq![c].drop_last() =~= Seq::<char>::empty());
    assert(digits_value(seq![c].drop_last()) == 0);
    if t.len() == 0 {
        assert(s + t =~= s);
        vstd::arithmetic::power::lemma_pow0(10);
    } else {
        let u = t.drop_last();
        law_places(s, u, c);
        assert((s + t).drop_last() =~= s + u);
        assert((s + t).last() == t.last());
        vstd::arithmetic::power::lemma_pow1(10);
        vstd::arithmetic::power::lemma_pow_adds(10, u.len(), 1);
        let a = digits_value(s) as int;
        let p = vstd::arithmetic::power::pow(10, u.len());
        let b = digits_value(u) as int;
        assert((a * p + b) * 10 == a * (p * 10) + b * 10) by (nonlinear_arith);
    }
}

/// A number is written in digits that have its value, without zeros in front; a sign
/// comes before it only if it is negative. With at least two digits, a zero is put in
/// front of a single one.
pub proof fn law_written_numbers(n: nat)
    ensures
        decimal(n).len() > 0,
        forall|k: int| 0 <= k < decimal(n).len() ==> '0' <= #[trigger] decimal(n)[k] <= '9',
        digits_value(decimal(n)) == n,
        n > 0 ==> decimal(n)[0] != '0',
        n == 0 ==> decimal(n).len() == 1,
        signed_decimal(n as int) == decimal(n),
        n > 0 ==> signed_decimal(-(n as int)) == seq!['-'] + decimal(n),
        digits_value(two_digits(n)) == n,
        n < 10 ==> two_digits(n) == seq!['0'] + decimal(n) && decimal(n).len() == 1,
        n >= 10 ==> two_digits(n) == decimal(n) && decimal(n).len() >= 2,
    decreases n,
{
    lemma_decimal(n);
    let d = decimal(n);
    assert forall|k: int| 0 <= k < d.len() implies '0' <= #[trigger] d[k] <= '9' by {
        assert(is_digit(d[k]));
        lemma_digit(d[k]);
    }
    if n >= 10 {
        law_written_numbers(n / 10);
        assert(d[0] == decimal(n / 10)[0]);
    } else {
        law_places(seq!['0'], d, '0');
        assert(digits_value(seq!['0']) == 0);
        assert(0 * vstd::arithmetic::power::pow(10, d.len()) == 0) by (nonlinear_arith);
    }
}

/// A number is read from digits alone, or from digits behind one sign, if it fits in
/// 64 bits; from anything else none is read.
pub proof fn law_reading_numbers(ds: Seq<char>, t: Seq<char>, k: int)
    requires
        ds.len() > 0,
        forall|i: int| 0 <= i < ds.len() ==> '0' <= #[trigger] ds[i] <= '9',
    ensures
        ({
            let v = digits_value(ds) as int;
            let plain = if v <= i64::MAX {
                Some(v as i64)
            } else {
                None
            };
            &&& parsed_i64(ds) == plain
            &&& parsed_i64(seq!['+'] + ds) == plain
            &&& parsed_i64(seq!['-'] + ds) == if v <= 0x8000_0000_0000_0000 {
                Some((-v) as i64)
            } else {
                None
            }
        }),
        0 <= k < t.len() && !('0' <= t[k] <= '9') && !(k == 0 && t.len() > 1 && (t[0] == '+' || t[0]
            == '-')) ==> parsed_i64(t) is None,
        parsed_i64(Seq::empty()) is None,
{
    assert forall|i: int| 0 <= i < ds.len() implies is_digit(#[trigger] ds[i]) by {
        assert('0' <= ds[i] <= '9');
        lemma_digit(ds[i]);
    }
    assert(ds[0] != '+' && ds[0] != '-') by {
        assert('0' <= ds[0] <= '9');
    }
    assert((seq!['+'] + ds).skip(1) =~= ds);
    assert((seq!['-'] + ds).skip(1) =~= ds);
    if 0 <= k < t.len() && !('0' <= t[k] <= '9') && !(k == 0 && t.len() > 1 && (t[0] == '+' || t[0]
        == '-')) {
        let body = without_sign(t);
        lemma_digit(t[k]);
        if has_sign(t) {
            if k > 0 {
                assert(body[k - 1] == t[k]);
                assert(!is_digit(body[k - 1]));
            } else {
                assert(body.len() == 0);
            }
        } else {
            assert(!is_digit(body[k]));
        }
    }
}

proof fn lemma_digit(c: char)
    ensures
        is_digit(c) <==> '0' <= c <= '9',
{
}

} // verus!
