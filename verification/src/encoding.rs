//! Percent-encoding of query values.
//!
//! A value is encoded byte by byte. Letters, digits and the four marks
//! `-`, `.`, `_`, `~` stand for themselves; every other byte becomes `%`
//! followed by its two upper-case hexadecimal digits. Decoding accepts
//! hexadecimal digits of either case and refuses a `%` that is not
//! followed by two of them.

use vstd::prelude::*;

verus! {

/// The byte `%`.
pub const PERCENT: u8 = 0x25;

/// Whether `b` is written as it stands: an ASCII letter, a digit, or one of
/// `-`, `.`, `_`, `~`.
pub open spec fn is_unreserved(b: u8) -> bool {
    ||| 0x41 <= b <= 0x5A
    ||| 0x61 <= b <= 0x7A
    ||| 0x30 <= b <= 0x39
    ||| b == 0x2D
    ||| b == 0x2E
    ||| b == 0x5F
    ||| b == 0x7E
}

/// The upper-case hexadecimal digit for `n`, which is below 16.
pub open spec fn hex_digit(n: u8) -> u8
    recommends
        n < 16,
{
    if n < 10 {
        (0x30 + n) as u8
    } else {
        (0x41 + (n - 10)) as u8
    }
}

/// The value of the hexadecimal digit `c`, in either case, or `None` if `c`
/// is no such digit.
pub open spec fn hex_value(c: u8) -> Option<u8> {
    if 0x30 <= c <= 0x39 {
        Some((c - 0x30) as u8)
    } else if 0x41 <= c <= 0x46 {
        Some((c - 0x41 + 10) as u8)
    } else if 0x61 <= c <= 0x66 {
        Some((c - 0x61 + 10) as u8)
    } else {
        None
    }
}

/// The encoded form of a single byte.
pub open spec fn encode_byte(b: u8) -> Seq<u8> {
    if is_unreserved(b) {
        seq![b]
    } else {
        seq![PERCENT, hex_digit(b / 16), hex_digit(b % 16)]
    }
}

/// The encoded form of `s`: the encoded forms of its bytes, in order.
pub open spec fn spec_percent_encode(s: Seq<u8>) -> Seq<u8>
    decreases s.len(),
{
    if s.len() == 0 {
        Seq::empty()
    } else {
        encode_byte(s[0]) + spec_percent_encode(s.skip(1))
    }
}

/// The bytes that `s` encodes, or `None` if `s` holds a `%` that is not
/// followed by two hexadecimal digits.
pub open spec fn spec_percent_decode(s: Seq<u8>) -> Option<Seq<u8>>
    decreases s.len(),
{
    if s.len() == 0 {
        Some(Seq::empty())
    } else if s[0] == PERCENT {
        if s.len() >= 3 && hex_value(s[1]).is_some() && hex_value(s[2]).is_some() {
            let b = (hex_value(s[1]).unwrap() * 16 + hex_value(s[2]).unwrap()) as u8;
            match spec_percent_decode(s.skip(3)) {
                Some(rest) => Some(seq![b] + rest),
                None => None,
            }
        } else {
            None
        }
    } else {
        match spec_percent_decode(s.skip(1)) {
            Some(rest) => Some(seq![s[0]] + rest),
            None => None,
        }
    }
}

/// Whether `b` can occur in encoded text: an unreserved byte, `%`, or an
/// upper-case hexadecimal digit.
pub open spec fn is_encoded_byte(b: u8) -> bool {
    is_unreserved(b) || b == PERCENT
}

fn unreserved(b: u8) -> (r: bool)
    ensures
        r == is_unreserved(b),
{
    (0x41 <= b && b <= 0x5A) || (0x61 <= b && b <= 0x7A) || (0x30 <= b && b <= 0x39) || b == 0x2D
        || b == 0x2E || b == 0x5F || b == 0x7E
}

fn to_hex_digit(n: u8) -> (c: u8)
    requires
        n < 16,
    ensures
        c == hex_digit(n),
{
    if n < 10 {
        0x30 + n
    } else {
        0x41 + (n - 10)
    }
}

fn from_hex_digit(c: u8) -> (v: Option<u8>)
    ensures
        v == hex_value(c),
        v matches Some(n) ==> n < 16,
{
    if 0x30 <= c && c <= 0x39 {
        Some(c - 0x30)
    } else if 0x41 <= c && c <= 0x46 {
        Some(c - 0x41 + 10)
    } else if 0x61 <= c && c <= 0x66 {
        Some(c - 0x61 + 10)
    } else {
        None
    }
}

/// Encodes `input`.
pub fn percent_encode(input: &[u8]) -> (out: Vec<u8>)
    ensures
        out@ == spec_percent_encode(input@),
{
    let mut out: Vec<u8> = Vec::new();
    let mut i: usize = 0;
    proof {
        assert(input@.skip(0) == input@);
        assert(out@ + spec_percent_encode(input@) == spec_percent_encode(input@));
    }
    while i < input.len()
        invariant
            i <= input@.len(),
            spec_percent_encode(input@) == out@ + spec_percent_encode(input@.skip(i as int)),
        decreases input@.len() - i,
    {
        let b = input[i];
        proof {
            let tail = input@.skip(i as int);
            assert(tail[0] == b);
            assert(tail.skip(1) == input@.skip(i + 1));
            assert(spec_percent_encode(tail) == encode_byte(b) + spec_percent_encode(
                input@.skip(i + 1),
            ));
        }
        let ghost before = out@;
        if unreserved(b) {
            out.push(b);
        } else {
            out.push(PERCENT);
            out.push(to_hex_digit(b / 16));
            out.push(to_hex_digit(b % 16));
        }
        assert(out@ == before + encode_byte(b));
        i += 1;
    }
    assert(input@.skip(i as int) == Seq::<u8>::empty());
    out
}

/// Decodes `input`, or returns `None` where it is malformed.
pub fn percent_decode(input: &[u8]) -> (out: Option<Vec<u8>>)
    ensures
        match out {
            Some(bytes) => spec_percent_decode(input@) == Some(bytes@),
            None => spec_percent_decode(input@) is None,
        },
{
    let mut out: Vec<u8> = Vec::new();
    let mut i: usize = 0;
    proof {
        assert(input@.skip(0) == input@);
        if let Some(rest) = spec_percent_decode(input@) {
            assert(out@ + rest == rest);
        }
    }
    while i < input.len()
        invariant
            i <= input@.len(),
            spec_percent_decode(input@) == match spec_percent_decode(input@.skip(i as int)) {
                Some(rest) => Some(out@ + rest),
                None => None,
            },
        decreases input@.len() - i,
    {
        let ghost tail = input@.skip(i as int);
        let ghost before = out@;
        let b = input[i];
        assert(tail[0] == b);
        if b == PERCENT {
            if input.len() - i < 3 {
                return None;
            }
            assert(tail[1] == input@[i + 1] && tail[2] == input@[i + 2]);
            let hi = match from_hex_digit(input[i + 1]) {
                Some(hi) => hi,
                None => {
                    return None;
                },
            };
            let lo = match from_hex_digit(input[i + 2]) {
                Some(lo) => lo,
                None => {
                    return None;
                },
            };
            assert(tail.skip(3) == input@.skip(i + 3));
            out.push(hi * 16 + lo);
            assert forall|rest: Seq<u8>| before + (seq![(hi * 16 + lo) as u8] + rest) == out@
                + rest by {
                assert(before + (seq![(hi * 16 + lo) as u8] + rest) =~= out@ + rest);
            }
            i += 3;
        } else {
            assert(tail.skip(1) == input@.skip(i + 1));
            out.push(b);
            assert forall|rest: Seq<u8>| before + (seq![b] + rest) == out@ + rest by {
                assert(before + (seq![b] + rest) =~= out@ + rest);
            }
            i += 1;
        }
    }
    assert(input@.skip(i as int) == Seq::<u8>::empty());
    Some(out)
}

/// Decoding undoes encoding: for every byte sequence, the encoded form
/// decodes, and decodes to that sequence.
pub proof fn law_decode_inverts_encode(s: Seq<u8>)
    ensures
        spec_percent_decode(spec_percent_encode(s)) == Some(s),
    decreases s.len(),
{
    if s.len() > 0 {
        let b = s[0];
        let tail = spec_percent_encode(s.skip(1));
        let whole = spec_percent_encode(s);
        law_decode_inverts_encode(s.skip(1));
        assert(seq![b] + s.skip(1) == s);
        if is_unreserved(b) {
            assert(whole.skip(1) == tail);
        } else {
            assert(whole.skip(3) == tail);
            assert(whole[1] == hex_digit(b / 16) && whole[2] == hex_digit(b % 16));
            assert((b / 16) * 16 + b % 16 == b);
        }
    }
}

/// Encoded text is made of unreserved bytes and `%` alone, so it holds no
/// separator of a URL or of a query string.
pub proof fn law_encoded_alphabet(s: Seq<u8>)
    ensures
        forall|i: int|
            0 <= i < spec_percent_encode(s).len() ==> is_encoded_byte(
                #[trigger] spec_percent_encode(s)[i],
            ),
    decreases s.len(),
{
    if s.len() > 0 {
        law_encoded_alphabet(s.skip(1));
        let head = encode_byte(s[0]);
        let tail = spec_percent_encode(s.skip(1));
        assert forall|i: int| 0 <= i < spec_percent_encode(s).len() implies is_encoded_byte(
            #[trigger] spec_percent_encode(s)[i],
        ) by {
            if i < head.len() {
                assert(spec_percent_encode(s)[i] == head[i]);
            } else {
                assert(spec_percent_encode(s)[i] == tail[i - head.len()]);
            }
        }
    }
}

} // verus!
