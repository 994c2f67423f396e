use vstd::prelude::*;

verus! {

/// ASCII code of `#`.
pub const HASH: u8 = 0x23;

/// ASCII code of `+`.
pub const PLUS: u8 = 0x2b;

/// Whether `b` is an ASCII hexadecimal digit (`0-9`, `a-f`, `A-F`).
pub open spec fn is_hex_byte(b: u8) -> bool {
    (0x30 <= b <= 0x39) || (0x41 <= b <= 0x46) || (0x61 <= b <= 0x66)
}

/// Numeric value of an ASCII hexadecimal digit.
pub open spec fn hex_byte_value(b: u8) -> int {
    if b <= 0x39 {
        b - 0x30
    } else if b <= 0x46 {
        b - 0x41 + 10
    } else {
        b - 0x61 + 10
    }
}

/// Whether every byte of `s` is a hexadecimal digit.
pub open spec fn all_hex(s: Seq<u8>) -> bool {
    forall|i: int| 0 <= i < s.len() ==> is_hex_byte(#[trigger] s[i])
}

/// Value of a string of hexadecimal digits, most significant first.
pub open spec fn hex_digits_value(s: Seq<u8>) -> int
    decreases s.len(),
{
    if s.len() == 0 {
        0
    } else {
        hex_digits_value(s.drop_last()) * 16 + hex_byte_value(s.last())
    }
}

/// The digits of an unsigned number: the text after one optional leading `+`.
pub open spec fn unsigned_digits(s: Seq<u8>) -> Seq<u8> {
    if s.len() > 0 && s[0] == PLUS {
        s.drop_first()
    } else {
        s
    }
}

/// Hexadecimal reading of `s` as an unsigned number no larger than `max`:
/// one optional `+`, then at least one hexadecimal digit and nothing else.
pub open spec fn parse_hex_bounded(s: Seq<u8>, max: int) -> Option<int> {
    let d = unsigned_digits(s);
    if d.len() > 0 && all_hex(d) && 0 <= hex_digits_value(d) <= max {
        Some(hex_digits_value(d))
    } else {
        None
    }
}

/// What `u32::from_str_radix(s, 16)` gives for the bytes `s`.
pub open spec fn parse_hex_u32(s: Seq<u8>) -> Option<u32> {
    match parse_hex_bounded(s, u32::MAX as int) {
        Some(v) => Some(v as u32),
        None => None,
    }
}

/// What `u8::from_str_radix(s, 16)` gives for the bytes `s`.
pub open spec fn parse_hex_u8(s: Seq<u8>) -> Option<u8> {
    match parse_hex_bounded(s, u8::MAX as int) {
        Some(v) => Some(v as u8),
        None => None,
    }
}

/// `s` without its leading `#` bytes.
pub open spec fn trim_leading_hash(s: Seq<u8>) -> Seq<u8>
    decreases s.len(),
{
    if s.len() > 0 && s[0] == HASH {
        trim_leading_hash(s.drop_first())
    } else {
        s
    }
}

/// Whether a character of UTF-8 text starts at byte `i` (or `i` is the end):
/// the byte there is not a continuation byte.
pub open spec fn starts_char(s: Seq<u8>, i: int) -> bool {
    i == 0 || i == s.len() || (0 < i < s.len() && !(0x80 <= s[i] && s[i] < 0xC0))
}

proof fn lemma_hex_value_nonneg(s: Seq<u8>)
    requires
        all_hex(s),
    ensures
        hex_digits_value(s) >= 0,
    decreases s.len(),
{
    if s.len() > 0 {
        assert(all_hex(s.drop_last()));
        lemma_hex_value_nonneg(s.drop_last());
    }
}

/// Number of leading `#` bytes of `s`.
pub fn leading_hash_count(s: &[u8]) -> (k: usize)
    ensures
        k <= s@.len(),
        trim_leading_hash(s@) == s@.subrange(k as int, s@.len() as int),
{
    let mut k: usize = 0;
    proof {
        assert(s@.subrange(0, s@.len() as int) =~= s@);
    }
    while k < s.len() && s[k] == HASH
        invariant
            k <= s@.len(),
            trim_leading_hash(s@) == trim_leading_hash(s@.subrange(k as int, s@.len() as int)),
        decreases s@.len() - k,
    {
        proof {
            let rest = s@.subrange(k as int, s@.len() as int);
            assert(rest.drop_first() =~= s@.subrange(k + 1, s@.len() as int));
        }
        k += 1;
    }
    proof {
        let rest = s@.subrange(k as int, s@.len() as int);
        assert(rest.len() == 0 || rest[0] != HASH);
    }
    k
}

/// Reads `s[start..end]` as an unsigned hexadecimal number of at most `max`.
pub fn parse_hex_range(s: &[u8], start: usize, end: usize, max: u32) -> (res: Option<u32>)
    requires
        start <= end <= s@.len(),
    ensures
        match parse_hex_bounded(s@.subrange(start as int, end as int), max as int) {
            Some(v) => res == Some(v as u32),
            None => res is None,
        },
{
    let ghost t = s@.subrange(start as int, end as int);
    let mut i = start;
    if i < end && s[i] == PLUS {
        i += 1;
    }
    let ghost d = s@.subrange(i as int, end as int);
    proof {
        assert(d =~= unsigned_digits(t));
    }
    if i == end {
        return None;
    }
    let first = i;
    // `acc` is the value read so far, held at `cap` once it passes `max`.
    let cap: u64 = max as u64 + 1;
    let mut acc: u64 = 0;
    while i < end
        invariant
            start <= first <= i <= end <= s@.len(),
            d == s@.subrange(first as int, end as int),
            t == s@.subrange(start as int, end as int),
            d == unsigned_digits(t),
            cap == max + 1,
            all_hex(s@.subrange(first as int, i as int)),
            acc <= cap,
            acc == if hex_digits_value(s@.subrange(first as int, i as int)) < cap {
                hex_digits_value(s@.subrange(first as int, i as int))
            } else {
                cap as int
            },
        decreases end - i,
    {
        let b = s[i];
        let digit: u64 = if 0x30 <= b && b <= 0x39 {
            (b - 0x30) as u64
        } else if 0x41 <= b && b <= 0x46 {
            (b - 0x41 + 10) as u64
        } else if 0x61 <= b && b <= 0x66 {
            (b - 0x61 + 10) as u64
        } else {
            proof {
                assert(d[i - first] == b);
                assert(!is_hex_byte(d[i - first]));
                assert(!all_hex(d));
                assert(d == unsigned_digits(t));
                assert(parse_hex_bounded(t, max as int) is None);
            }
            return None;
        };
        let ghost prev = s@.subrange(first as int, i as int);
        let ghost next = s@.subrange(first as int, i + 1);
        proof {
            assert(next.drop_last() =~= prev);
            assert(next.last() == b);
            assert(all_hex(next));
            lemma_hex_value_nonneg(prev);
        }
        let grown = acc * 16 + digit;
        acc = if grown < cap { grown } else { cap };
        i += 1;
    }
    proof {
        assert(s@.subrange(first as int, end as int) =~= d);
        lemma_hex_value_nonneg(d);
    }
    if acc <= max as u64 {
        Some(acc as u32)
    } else {
        None
    }
}

} // verus!
