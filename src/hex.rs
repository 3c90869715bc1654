//! Fixed-width lower-case hexadecimal fields, as they appear in trace headers.
use vstd::arithmetic::div_mod::lemma_mod_breakdown;
use vstd::prelude::*;

verus! {

/// Sixteen to the power `n`.
pub open spec fn pow16(n: nat) -> nat
    decreases n,
{
    if n == 0 {
        1
    } else {
        16 * pow16((n - 1) as nat)
    }
}

/// The value of the byte `c` as a lower-case hexadecimal digit.
pub open spec fn digit_value(c: u8) -> Option<nat> {
    if 48 <= c && c <= 57 {
        Some((c - 48) as nat)
    } else if 97 <= c && c <= 102 {
        Some((c - 87) as nat)
    } else {
        None
    }
}

/// The lower-case hexadecimal digit for `d < 16`.
pub open spec fn digit_char(d: nat) -> u8 {
    if d < 10 {
        (48 + d) as u8
    } else {
        (87 + d) as u8
    }
}

/// Every byte of `s` is a lower-case hexadecimal digit.
pub open spec fn is_hex(s: Seq<u8>) -> bool {
    forall|i: int| 0 <= i < s.len() ==> (#[trigger] digit_value(s[i])) is Some
}

/// The number that the digits of `s` spell, most significant first.
pub open spec fn hex_value(s: Seq<u8>) -> nat
    decreases s.len(),
{
    if s.len() == 0 {
        0
    } else {
        hex_value(s.drop_last()) * 16 + digit_value(s.last()).unwrap_or(0)
    }
}

/// The `w` lowest hexadecimal digits of `v`, most significant first.
pub open spec fn hex_of(v: nat, w: nat) -> Seq<u8>
    decreases w,
{
    if w == 0 {
        Seq::empty()
    } else {
        hex_of(v / 16, (w - 1) as nat).push(digit_char(v % 16))
    }
}

pub proof fn lemma_pow16_pos(n: nat)
    ensures
        pow16(n) > 0,
    decreases n,
{
    if n > 0 {
        lemma_pow16_pos((n - 1) as nat);
    }
}

pub proof fn lemma_pow16_values()
    ensures
        pow16(2) == 0x100,
        pow16(16) == 0x1_0000_0000_0000_0000,
        pow16(32) == 0x1_0000_0000_0000_0000_0000_0000_0000_0000,
{
    reveal_with_fuel(pow16, 33);
}

pub proof fn lemma_digit_round_trip(d: nat)
    requires
        d < 16,
    ensures
        digit_value(digit_char(d)) == Some(d),
{
}

/// The digits written for `v` have the width asked for, are all hexadecimal,
/// and read back as `v` reduced to that width.
pub proof fn lemma_hex_of(v: nat, w: nat)
    ensures
        hex_of(v, w).len() == w,
        is_hex(hex_of(v, w)),
        hex_value(hex_of(v, w)) == v % pow16(w),
    decreases w,
{
    if w > 0 {
        let p = (w - 1) as nat;
        lemma_hex_of(v / 16, p);
        lemma_pow16_pos(p);
        lemma_digit_round_trip(v % 16);
        let s = hex_of(v, w);
        assert(s.drop_last() =~= hex_of(v / 16, p));
        assert forall|i: int| 0 <= i < s.len() implies (#[trigger] digit_value(s[i])) is Some by {
            if i < p {
                assert(s[i] == hex_of(v / 16, p)[i]);
            }
        }
        lemma_mod_breakdown(v as int, 16, pow16(p) as int);
    }
}

/// A run of hexadecimal digits spells a number below sixteen to the power of its length.
pub proof fn lemma_hex_value_bound(s: Seq<u8>)
    requires
        is_hex(s),
    ensures
        hex_value(s) < pow16(s.len()),
    decreases s.len(),
{
    if s.len() > 0 {
        let t = s.drop_last();
        assert forall|i: int| 0 <= i < t.len() implies (#[trigger] digit_value(t[i])) is Some by {
            assert(t[i] == s[i]);
        }
        lemma_hex_value_bound(t);
        assert(digit_value(s[s.len() - 1]) is Some);
    }
}

/// Reads one lower-case hexadecimal digit.
pub fn hex_digit(c: u8) -> (r: Option<u8>)
    ensures
        match digit_value(c) {
            Some(v) => r == Some(v as u8),
            None => r is None,
        },
{
    if 48 <= c && c <= 57 {
        Some(c - 48)
    } else if 97 <= c && c <= 102 {
        Some(c - 87)
    } else {
        None
    }
}

/// Appends the `w` lowest hexadecimal digits of `v` to `out`.
pub fn push_hex(v: u128, w: usize, out: &mut Vec<u8>)
    ensures
        final(out)@ == old(out)@ + hex_of(v as nat, w as nat),
    decreases w,
{
    if w > 0 {
        push_hex(v / 16, w - 1, out);
        let d: u128 = v % 16;
        let c: u8 = if d < 10 {
            (48 + d) as u8
        } else {
            (87 + d) as u8
        };
        out.push(c);
        assert(final(out)@ =~= old(out)@ + hex_of(v as nat, w as nat));
    }
}

/// Reads the `w` bytes of `s` from `start` as a hexadecimal number.
pub fn parse_hex(s: &[u8], start: usize, w: usize) -> (r: Option<u128>)
    requires
        start + w <= s@.len(),
        w <= 32,
    ensures
        r is Some <==> is_hex(s@.subrange(start as int, start + w)),
        r matches Some(v) ==> v as nat == hex_value(s@.subrange(start as int, start + w)),
{
    let n = s.len();
    let mut acc: u128 = 0;
    let mut i: usize = 0;
    while i < w
        invariant
            n == s@.len(),
            start + w <= s@.len(),
            w <= 32,
            i <= w,
            is_hex(s@.subrange(start as int, start + i)),
            acc as nat == hex_value(s@.subrange(start as int, start + i)),
        decreases w - i,
    {
        let d: u128 = match hex_digit(s[start + i]) {
            Some(d) => d as u128,
            None => {
                assert(digit_value(s@.subrange(start as int, start + w)[i as int]) is None);
                return None;
            },
        };
        let ghost prev = s@.subrange(start as int, start + i);
        let ghost next = s@.subrange(start as int, start + i + 1);
        proof {
            assert(next.drop_last() =~= prev);
            assert forall|j: int| 0 <= j < next.len() implies (#[trigger] digit_value(next[j])) is Some by {
                if j < i {
                    assert(next[j] == prev[j]);
                }
            }
            lemma_hex_value_bound(next);
            lemma_pow16_values();
            lemma_pow16_monotone((i + 1) as nat, 32);
        }
        acc = acc * 16 + d;
        i = i + 1;
    }
    Some(acc)
}

pub proof fn lemma_pow16_monotone(a: nat, b: nat)
    requires
        a <= b,
    ensures
        pow16(a) <= pow16(b),
    decreases b,
{
    if a < b {
        lemma_pow16_monotone(a, (b - 1) as nat);
        lemma_pow16_pos((b - 1) as nat);
    }
}

} // verus!
