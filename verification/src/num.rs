//! Decimal representation of `u64` values: the byte-level encoding used by the
//! state document and the control protocol, with its parsing inverse.

use vstd::prelude::*;

verus! {

/// The decimal digit bytes of `n`, most significant first (`0` encodes as `"0"`).
pub open spec fn dec_bytes(n: nat) -> Seq<u8>
    decreases n,
{
    if n < 10 {
        seq![(48 + n) as u8]
    } else {
        dec_bytes(n / 10) + seq![(48 + n % 10) as u8]
    }
}

pub open spec fn is_dec_digit(b: u8) -> bool {
    48 <= b <= 57
}

/// The number denoted by a run of decimal digit bytes, most significant first.
pub open spec fn dec_value(s: Seq<u8>) -> int
    decreases s.len(),
{
    if s.len() == 0 {
        0
    } else {
        dec_value(s.drop_last()) * 10 + (s.last() - 48)
    }
}

/// The first position at or after `pos` that does not hold a decimal digit.
pub open spec fn digit_run_end(s: Seq<u8>, pos: int) -> int
    decreases s.len() - pos,
{
    if pos < 0 || pos >= s.len() || !is_dec_digit(s[pos]) {
        pos
    } else {
        digit_run_end(s, pos + 1)
    }
}

pub proof fn lemma_dec_bytes_digits(n: nat)
    ensures
        dec_bytes(n).len() >= 1,
        forall|i: int| 0 <= i < dec_bytes(n).len() ==> is_dec_digit(#[trigger] dec_bytes(n)[i]),
    decreases n,
{
    if n >= 10 {
        lemma_dec_bytes_digits(n / 10);
    }
}

pub proof fn lemma_dec_value_of_dec_bytes(n: nat)
    ensures
        dec_value(dec_bytes(n)) == n,
    decreases n,
{
    if n < 10 {
        assert(dec_bytes(n).drop_last() =~= Seq::<u8>::empty());
        assert(dec_value(Seq::<u8>::empty()) == 0);
        assert(dec_bytes(n).last() == (48 + n) as u8);
        assert(dec_value(dec_bytes(n)) == 0 * 10 + ((48 + n) as u8 - 48));
    } else {
        lemma_dec_value_of_dec_bytes(n / 10);
        vstd::arithmetic::div_mod::lemma_fundamental_div_mod(n as int, 10);
        assert(dec_bytes(n).drop_last() =~= dec_bytes(n / 10));
        assert(dec_bytes(n).last() == (48 + n % 10) as u8);
        assert(dec_value(dec_bytes(n)) == dec_value(dec_bytes(n / 10)) * 10 + ((48 + n % 10) as u8
            - 48));
    }
}

/// A run of decimal digit bytes denotes a non-negative number.
pub proof fn lemma_dec_value_nonneg(s: Seq<u8>)
    requires
        forall|i: int| 0 <= i < s.len() ==> is_dec_digit(s[i]),
    ensures
        dec_value(s) >= 0,
    decreases s.len(),
{
    if s.len() > 0 {
        lemma_dec_value_nonneg(s.drop_last());
    }
}

/// Appends the decimal digits of `n` to `out`.
pub fn push_dec_u64(out: &mut Vec<u8>, n: u64)
    ensures
        final(out)@ == old(out)@ + dec_bytes(n as nat),
    decreases n,
{
    if n < 10 {
        out.push(48 + n as u8);
        assert(final(out)@ =~= old(out)@ + dec_bytes(n as nat));
    } else {
        push_dec_u64(out, n / 10);
        out.push(48 + (n % 10) as u8);
        assert(final(out)@ =~= old(out)@ + dec_bytes(n as nat));
    }
}

/// Reads the run of decimal digits that starts at `pos`, if there is one and
/// its value fits in a `u64`; returns the value and the position just past the
/// run.
pub fn parse_dec_u64(buf: &Vec<u8>, pos: usize) -> (r: Option<(u64, usize)>)
    requires
        pos <= buf@.len(),
    ensures
        match r {
            Some(p) => {
                &&& p.1 == digit_run_end(buf@, pos as int)
                &&& pos < p.1 <= buf@.len()
                &&& p.0 == dec_value(buf@.subrange(pos as int, p.1 as int))
            },
            None => digit_run_end(buf@, pos as int) == pos || dec_value(
                buf@.subrange(pos as int, digit_run_end(buf@, pos as int)),
            ) > u64::MAX,
        },
{
    let ghost end = digit_run_end(buf@, pos as int);
    proof {
        lemma_digit_run_end_bounds(buf@, pos as int);
    }
    if pos == buf.len() || !(48 <= buf[pos] && buf[pos] <= 57) {
        return None;
    }
    let mut i: usize = pos;
    let mut acc: u64 = 0;
    while i < buf.len() && 48 <= buf[i] && buf[i] <= 57
        invariant
            pos <= i <= buf@.len(),
            end == digit_run_end(buf@, pos as int),
            end == digit_run_end(buf@, i as int),
            i <= end <= buf@.len(),
            acc == dec_value(buf@.subrange(pos as int, i as int)),
        decreases buf@.len() - i,
    {
        let d: u64 = (buf[i] - 48) as u64;
        proof {
            lemma_digit_run_end_bounds(buf@, pos as int);
            assert(buf@.subrange(pos as int, i + 1).drop_last() =~= buf@.subrange(
                pos as int,
                i as int,
            ));
        }
        if acc > (u64::MAX - d) / 10 {
            proof {
                vstd::arithmetic::div_mod::lemma_fundamental_div_mod(
                    u64::MAX - d,
                    10,
                );
                assert(dec_value(buf@.subrange(pos as int, i + 1)) > u64::MAX);
                lemma_dec_value_monotonic(buf@, pos as int, i + 1, end);
            }
            return None;
        }
        acc = acc * 10 + d;
        i = i + 1;
    }
    assert(i == end);
    Some((acc, i))
}

pub proof fn lemma_digit_run_end_bounds(s: Seq<u8>, pos: int)
    requires
        0 <= pos <= s.len(),
    ensures
        pos <= digit_run_end(s, pos) <= s.len(),
        forall|j: int| pos <= j < digit_run_end(s, pos) ==> is_dec_digit(s[j]),
        digit_run_end(s, pos) < s.len() ==> !is_dec_digit(s[digit_run_end(s, pos)]),
    decreases s.len() - pos,
{
    if pos < s.len() && is_dec_digit(s[pos]) {
        lemma_digit_run_end_bounds(s, pos + 1);
    }
}

/// Within a run of digits, a longer prefix denotes at least as large a value.
pub proof fn lemma_dec_value_monotonic(s: Seq<u8>, pos: int, mid: int, end: int)
    requires
        0 <= pos <= mid <= end <= s.len(),
        forall|j: int| pos <= j < end ==> is_dec_digit(s[j]),
    ensures
        0 <= dec_value(s.subrange(pos, mid)) <= dec_value(s.subrange(pos, end)),
    decreases end - mid,
{
    assert forall|i: int| 0 <= i < s.subrange(pos, mid).len() implies is_dec_digit(
        s.subrange(pos, mid)[i],
    ) by {
        assert(s.subrange(pos, mid)[i] == s[pos + i]);
    }
    lemma_dec_value_nonneg(s.subrange(pos, mid));
    if mid < end {
        lemma_dec_value_monotonic(s, pos, mid + 1, end);
        assert(s.subrange(pos, mid + 1).drop_last() =~= s.subrange(pos, mid));
        assert(dec_value(s.subrange(pos, mid + 1)) == dec_value(s.subrange(pos, mid)) * 10 + (
        s.subrange(pos, mid + 1).last() - 48));
    }
}

/// In a buffer that continues with the digits of `n` at `pos`, followed by a
/// non-digit byte or the end of the buffer, the digit run at `pos` is exactly
/// those digits and parses back to `n`.
pub proof fn lemma_digit_run_of_dec_bytes(s: Seq<u8>, pos: int, n: nat)
    requires
        0 <= pos,
        pos + dec_bytes(n).len() <= s.len(),
        s.subrange(pos, pos + dec_bytes(n).len() as int) == dec_bytes(n),
        pos + dec_bytes(n).len() == s.len() || !is_dec_digit(s[pos + dec_bytes(n).len()]),
    ensures
        digit_run_end(s, pos) == pos + dec_bytes(n).len(),
        dec_value(s.subrange(pos, pos + dec_bytes(n).len() as int)) == n,
{
    lemma_dec_bytes_digits(n);
    lemma_dec_value_of_dec_bytes(n);
    assert forall|j: int| pos <= j < pos + dec_bytes(n).len() implies is_dec_digit(s[j]) by {
        assert(s.subrange(pos, pos + dec_bytes(n).len() as int)[j - pos] == s[j]);
    }
    lemma_digit_run_end_stops(s, pos, pos + dec_bytes(n).len() as int);
}

proof fn lemma_digit_run_end_stops(s: Seq<u8>, pos: int, end: int)
    requires
        0 <= pos <= end <= s.len(),
        forall|j: int| pos <= j < end ==> is_dec_digit(s[j]),
        end == s.len() || !is_dec_digit(s[end]),
    ensures
        digit_run_end(s, pos) == end,
    decreases end - pos,
{
    if pos < end {
        lemma_digit_run_end_stops(s, pos + 1, end);
    }
}

} // verus!
