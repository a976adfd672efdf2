//! Parsing of interactive dimension input: ASCII trimming and decimal
//! `u32` parsing, the computational core behind a re-prompting input loop.

use vstd::prelude::*;

verus! {

/// ASCII decimal digit.
pub open spec fn is_ascii_digit(b: u8) -> bool {
    0x30 <= b <= 0x39
}

/// ASCII whitespace as the input loop strips it: space, tab, line feed,
/// carriage return.
pub open spec fn is_ascii_space(b: u8) -> bool {
    b == 0x20 || b == 0x09 || b == 0x0a || b == 0x0d
}

/// Every byte is a decimal digit.
pub open spec fn all_digits(s: Seq<u8>) -> bool {
    forall|i: int| 0 <= i < s.len() ==> is_ascii_digit(#[trigger] s[i])
}

/// Value of a big-endian decimal digit string.
pub open spec fn digits_value(s: Seq<u8>) -> int
    decreases s.len(),
{
    if s.len() == 0 {
        0
    } else {
        digits_value(s.drop_last()) * 10 + (s.last() - 0x30)
    }
}

/// The input with leading whitespace removed.
pub open spec fn trim_front(s: Seq<u8>) -> Seq<u8>
    decreases s.len(),
{
    if s.len() > 0 && is_ascii_space(s[0]) {
        trim_front(s.drop_first())
    } else {
        s
    }
}

/// The input with trailing whitespace removed.
pub open spec fn trim_back(s: Seq<u8>) -> Seq<u8>
    decreases s.len(),
{
    if s.len() > 0 && is_ascii_space(s.last()) {
        trim_back(s.drop_last())
    } else {
        s
    }
}

/// The input with whitespace removed at both ends.
pub open spec fn spec_trim(s: Seq<u8>) -> Seq<u8> {
    trim_back(trim_front(s))
}

/// Once a prefix's value is past the `u32` range, the whole string's value
/// is too: appending any byte at most multiplies by ten and subtracts the
/// digit offset.
proof fn lemma_digits_value_grows(s: Seq<u8>, i: int)
    requires
        0 <= i <= s.len(),
        digits_value(s.subrange(0, i)) > 0xffff_ffff,
    ensures
        digits_value(s) > 0xffff_ffff,
    decreases s.len() - i,
{
    if i == s.len() {
        assert(s.subrange(0, i) =~= s);
    } else {
        let t = s.subrange(0, i + 1);
        assert(t.drop_last() =~= s.subrange(0, i));
        assert(digits_value(t) == digits_value(s.subrange(0, i)) * 10 + (s[i] - 0x30));
        lemma_digits_value_grows(s, i + 1);
    }
}

/// Whether a byte is ASCII whitespace.
fn is_space_byte(b: u8) -> (r: bool)
    ensures
        r == is_ascii_space(b),
{
    b == 0x20 || b == 0x09 || b == 0x0a || b == 0x0d
}

/// Parse a decimal `u32`: succeeds exactly on nonempty all-digit input
/// whose value fits, and then returns that value.
pub fn parse_u32(s: &[u8]) -> (r: Option<u32>)
    ensures
        match r {
            Some(n) => s@.len() >= 1 && all_digits(s@) && digits_value(s@) <= 0xffff_ffff && n
                == digits_value(s@),
            None => s@.len() == 0 || !all_digits(s@) || digits_value(s@) > 0xffff_ffff,
        },
{
    if s.len() == 0 {
        return None;
    }
    let mut acc: u64 = 0;
    let mut i: usize = 0;
    while i < s.len()
        invariant
            i <= s@.len(),
            all_digits(s@.subrange(0, i as int)),
            acc == digits_value(s@.subrange(0, i as int)),
            acc <= 0xffff_ffff,
        decreases s@.len() - i,
    {
        let b = s[i];
        if b < 0x30 || b > 0x39 {
            proof {
                assert(!is_ascii_digit(s@[i as int]));
            }
            return None;
        }
        let next: u64 = acc * 10 + ((b - 0x30) as u64);
        proof {
            let t = s@.subrange(0, i as int + 1);
            assert(t.drop_last() =~= s@.subrange(0, i as int));
            assert(t.last() == s@[i as int]);
            assert forall|k: int| 0 <= k < t.len() implies is_ascii_digit(#[trigger] t[k]) by {
                if k < i as int {
                    assert(t[k] == s@.subrange(0, i as int)[k]);
                }
            }
        }
        if next > 0xffff_ffff {
            proof {
                lemma_digits_value_grows(s@, i as int + 1);
            }
            return None;
        }
        acc = next;
        i = i + 1;
    }
    proof {
        assert(s@.subrange(0, i as int) =~= s@);
    }
    Some(acc as u32)
}

/// Leading whitespace of `s` runs exactly up to `lo`, so trimming the front
/// leaves the tail from `lo`.
proof fn lemma_trim_front_chars(s: Seq<u8>, lo: int)
    requires
        0 <= lo <= s.len(),
        forall|k: int| 0 <= k < lo ==> is_ascii_space(#[trigger] s[k]),
        lo < s.len() ==> !is_ascii_space(s[lo]),
    ensures
        trim_front(s) == s.subrange(lo, s.len() as int),
    decreases lo,
{
    if lo == 0 {
        assert(s.subrange(0, s.len() as int) =~= s);
    } else {
        let tail = s.drop_first();
        assert forall|k: int| 0 <= k < lo - 1 implies is_ascii_space(#[trigger] tail[k]) by {
            assert(tail[k] == s[k + 1]);
        }
        assert(lo - 1 < tail.len() ==> !is_ascii_space(tail[lo - 1]));
        lemma_trim_front_chars(tail, lo - 1);
        assert(tail.subrange(lo - 1, tail.len() as int) =~= s.subrange(lo, s.len() as int));
    }
}

/// Trailing whitespace of `s` runs exactly down to `hi`, so trimming the
/// back leaves the head up to `hi`.
proof fn lemma_trim_back_chars(s: Seq<u8>, hi: int)
    requires
        0 <= hi <= s.len(),
        forall|k: int| hi <= k < s.len() ==> is_ascii_space(#[trigger] s[k]),
        hi > 0 ==> !is_ascii_space(s[hi - 1]),
    ensures
        trim_back(s) == s.subrange(0, hi),
    decreases s.len() - hi,
{
    if hi == s.len() {
        assert(s.subrange(0, hi) =~= s);
    } else {
        let head = s.drop_last();
        assert forall|k: int| hi <= k < head.len() implies is_ascii_space(#[trigger] head[k]) by {
            assert(head[k] == s[k]);
        }
        lemma_trim_back_chars(head, hi);
        assert(head.subrange(0, hi) =~= s.subrange(0, hi));
    }
}

/// Strip ASCII whitespace from both ends of the input.
pub fn trim_ascii_whitespace(s: &[u8]) -> (t: Vec<u8>)
    ensures
        t@ == spec_trim(s@),
{
    let mut lo: usize = 0;
    while lo < s.len() && is_space_byte(s[lo])
        invariant
            lo <= s@.len(),
            forall|k: int| 0 <= k < lo ==> is_ascii_space(#[trigger] s@[k]),
        decreases s@.len() - lo,
    {
        lo = lo + 1;
    }
    let mut hi: usize = s.len();
    while hi > lo && is_space_byte(s[hi - 1])
        invariant
            lo <= hi <= s@.len(),
            forall|k: int| hi <= k < s@.len() ==> is_ascii_space(#[trigger] s@[k]),
        decreases hi,
    {
        hi = hi - 1;
    }
    let mut t: Vec<u8> = Vec::new();
    let mut i: usize = lo;
    while i < hi
        invariant
            lo <= i <= hi <= s@.len(),
            t@ == s@.subrange(lo as int, i as int),
        decreases hi - i,
    {
        let b = s[i];
        t.push(b);
        proof {
            assert(s@.subrange(lo as int, i as int + 1) =~= s@.subrange(lo as int, i as int).push(
                s@[i as int],
            ));
        }
        i = i + 1;
    }
    proof {
        lemma_trim_front_chars(s@, lo as int);
        let front = s@.subrange(lo as int, s@.len() as int);
        assert forall|k: int| hi as int - lo as int <= k < front.len() implies is_ascii_space(
            #[trigger] front[k],
        ) by {
            assert(front[k] == s@[k + lo as int]);
        }
        if hi > lo {
            assert(front[hi as int - lo as int - 1] == s@[hi as int - 1]);
        }
        lemma_trim_back_chars(front, hi as int - lo as int);
        assert(front.subrange(0, hi as int - lo as int) =~= s@.subrange(lo as int, hi as int));
    }
    t
}

/// Parse an interactively entered dimension: trim whitespace, then parse a
/// decimal `u32`. This is the accepting side of a re-prompting input loop;
/// the caller prompts again on `None`.
pub fn parse_dimension(s: &[u8]) -> (r: Option<u32>)
    ensures
        match r {
            Some(n) => spec_trim(s@).len() >= 1 && all_digits(spec_trim(s@)) && digits_value(
                spec_trim(s@),
            ) <= 0xffff_ffff && n == digits_value(spec_trim(s@)),
            None => spec_trim(s@).len() == 0 || !all_digits(spec_trim(s@)) || digits_value(
                spec_trim(s@),
            ) > 0xffff_ffff,
        },
{
    let t = trim_ascii_whitespace(s);
    parse_u32(t.as_slice())
}

} // verus!
