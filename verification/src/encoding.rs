//! Percent-encoding of identifiers for safe inclusion in URLs and query
//! strings, together with a decoder and a round-trip proof.
//!
//! The encoder works on the UTF-8 bytes of the input text.  A byte is either
//! passed through or replaced by `%` followed by two uppercase hex digits.

use vstd::prelude::*;
use vstd::string::StringSliceAdditionalSpecFns;
use vstd::utf8::encode_utf8;

verus! {

/// Bytes that the encoder escapes: the C0 controls, DEL, every non-ASCII
/// byte, and the reserved characters space, `"`, `#`, `<`, `>`.
pub open spec fn is_escaped_byte(b: u8) -> bool {
    b <= 0x20 || b >= 0x7f || b == 0x22 || b == 0x23 || b == 0x3c || b == 0x3e
}

/// The uppercase hex digit (as an ASCII byte) for a value below 16.
pub open spec fn hex_digit(n: int) -> u8
    recommends
        0 <= n < 16,
{
    if n < 10 {
        (0x30 + n) as u8
    } else {
        (0x37 + n) as u8
    }
}

/// The three-byte escape of one byte: `%` and two uppercase hex digits.
pub open spec fn escape_of(b: u8) -> Seq<u8> {
    seq![0x25u8, hex_digit(b as int / 16), hex_digit(b as int % 16)]
}

/// Percent-encoding of a byte sequence.
pub open spec fn encode_bytes(s: Seq<u8>) -> Seq<u8>
    decreases s.len(),
{
    if s.len() == 0 {
        Seq::empty()
    } else if is_escaped_byte(s[0]) {
        escape_of(s[0]) + encode_bytes(s.drop_first())
    } else {
        seq![s[0]] + encode_bytes(s.drop_first())
    }
}

/// An ASCII hex digit, either case.
pub open spec fn is_hex_byte(b: u8) -> bool {
    (0x30 <= b <= 0x39) || (0x41 <= b <= 0x46) || (0x61 <= b <= 0x66)
}

/// The value of an ASCII hex digit.
pub open spec fn hex_value(b: u8) -> int
    recommends
        is_hex_byte(b),
{
    if 0x30 <= b <= 0x39 {
        b - 0x30
    } else if 0x41 <= b <= 0x46 {
        b - 0x37
    } else {
        b - 0x57
    }
}

/// Percent-decoding of a byte sequence: every `%` must be followed by two
/// hex digits, which yield one byte; any other byte passes through.
pub open spec fn decode_bytes(s: Seq<u8>) -> Option<Seq<u8>>
    decreases s.len(),
{
    if s.len() == 0 {
        Some(Seq::empty())
    } else if s[0] == 0x25 {
        if s.len() >= 3 && is_hex_byte(s[1]) && is_hex_byte(s[2]) {
            match decode_bytes(s.skip(3)) {
                Some(rest) => Some(seq![(hex_value(s[1]) * 16 + hex_value(s[2])) as u8] + rest),
                None => None,
            }
        } else {
            None
        }
    } else {
        match decode_bytes(s.drop_first()) {
            Some(rest) => Some(seq![s[0]] + rest),
            None => None,
        }
    }
}

/// ASCII bytes read as characters, one for one.
pub open spec fn chars_of(s: Seq<u8>) -> Seq<char> {
    s.map_values(|b: u8| b as char)
}

/// The percent-encoded form of a text, as characters: its UTF-8 bytes
/// encoded, each resulting ASCII byte read as one character.
pub open spec fn encoded_chars(s: Seq<char>) -> Seq<char> {
    chars_of(encode_bytes(encode_utf8(s)))
}

/// Encoding distributes over concatenation.
pub proof fn lemma_encode_bytes_app(a: Seq<u8>, b: Seq<u8>)
    ensures
        encode_bytes(a + b) == encode_bytes(a) + encode_bytes(b),
    decreases a.len(),
{
    if a.len() == 0 {
        assert(a + b =~= b);
        assert(encode_bytes(a) + encode_bytes(b) =~= encode_bytes(b));
    } else {
        assert((a + b).drop_first() =~= a.drop_first() + b);
        lemma_encode_bytes_app(a.drop_first(), b);
        assert((a + b)[0] == a[0]);
        if is_escaped_byte(a[0]) {
            assert(escape_of(a[0]) + (encode_bytes(a.drop_first()) + encode_bytes(b)) =~= (
            escape_of(a[0]) + encode_bytes(a.drop_first())) + encode_bytes(b));
        } else {
            assert(seq![a[0]] + (encode_bytes(a.drop_first()) + encode_bytes(b)) =~= (seq![a[0]]
                + encode_bytes(a.drop_first())) + encode_bytes(b));
        }
    }
}

/// Law: every byte of an encoded sequence lies outside the escape set, so
/// the encoded text holds no literal space, quote, `#`, `<`, `>`, control
/// or non-ASCII byte.
pub proof fn lemma_encoded_bytes_clean(s: Seq<u8>)
    ensures
        forall|i: int|
            0 <= i < encode_bytes(s).len() ==> !is_escaped_byte(#[trigger] encode_bytes(s)[i]),
    decreases s.len(),
{
    if s.len() == 0 {
    } else {
        lemma_encoded_bytes_clean(s.drop_first());
        let head = if is_escaped_byte(s[0]) {
            escape_of(s[0])
        } else {
            seq![s[0]]
        };
        assert(encode_bytes(s) == head + encode_bytes(s.drop_first()));
        assert forall|i: int| 0 <= i < encode_bytes(s).len() implies !is_escaped_byte(
            #[trigger] encode_bytes(s)[i],
        ) by {
            if i < head.len() {
                assert(encode_bytes(s)[i] == head[i]);
            } else {
                assert(encode_bytes(s)[i] == encode_bytes(s.drop_first())[i - head.len()]);
            }
        }
    }
}

/// A hex digit written by the encoder reads back as the same value.
proof fn lemma_hex_digit_value(n: int)
    requires
        0 <= n < 16,
    ensures
        is_hex_byte(hex_digit(n)),
        hex_value(hex_digit(n)) == n,
{
}

/// Law: decoding inverts encoding, for every byte sequence that holds no
/// literal `%` byte (a literal `%` is passed through unescaped, so its
/// encoding is not uniquely decodable).
pub proof fn lemma_encode_then_decode(s: Seq<u8>)
    requires
        forall|i: int| 0 <= i < s.len() ==> s[i] != 0x25,
    ensures
        decode_bytes(encode_bytes(s)) == Some(s),
    decreases s.len(),
{
    if s.len() == 0 {
        assert(encode_bytes(s) =~= Seq::<u8>::empty());
    } else {
        let rest = s.drop_first();
        assert(forall|i: int| 0 <= i < rest.len() ==> rest[i] == s[i + 1]);
        lemma_encode_then_decode(rest);
        let e = encode_bytes(s);
        if is_escaped_byte(s[0]) {
            lemma_hex_digit_value(s[0] as int / 16);
            lemma_hex_digit_value(s[0] as int % 16);
            assert(e =~= escape_of(s[0]) + encode_bytes(rest));
            assert(e.skip(3) =~= encode_bytes(rest));
            assert(hex_value(e[1]) * 16 + hex_value(e[2]) == s[0] as int);
            assert(seq![s[0]] + rest =~= s);
        } else {
            assert(e =~= seq![s[0]] + encode_bytes(rest));
            assert(e[0] == s[0] && s[0] != 0x25);
            assert(e.drop_first() =~= encode_bytes(rest));
            assert(seq![s[0]] + rest =~= s);
        }
    }
}

/// The uppercase hex digit for a value below 16.
fn hex_digit_byte(n: u8) -> (r: u8)
    requires
        n < 16,
    ensures
        r == hex_digit(n as int),
{
    if n < 10 {
        0x30 + n
    } else {
        0x37 + n
    }
}

/// The value of an ASCII hex digit, or `None` for any other byte.
fn hex_value_byte(b: u8) -> (r: Option<u8>)
    ensures
        r is Some <==> is_hex_byte(b),
        r matches Some(v) ==> v as int == hex_value(b) && v < 16,
{
    if 0x30 <= b && b <= 0x39 {
        Some(b - 0x30)
    } else if 0x41 <= b && b <= 0x46 {
        Some(b - 0x37)
    } else if 0x61 <= b && b <= 0x66 {
        Some(b - 0x57)
    } else {
        None
    }
}

/// Relies on `String::from_utf8`: bytes below `0x80` are valid UTF-8 and
/// decode to one character each.
#[verifier::external_body]
fn ascii_string(v: Vec<u8>) -> (r: String)
    requires
        forall|i: int| 0 <= i < v@.len() ==> v@[i] < 0x80,
    ensures
        r@ == chars_of(v@),
{
    String::from_utf8(v).unwrap()
}

/// Percent-encodes a text for transport: every control, non-ASCII byte,
/// space, `"`, `#`, `<` and `>` of its UTF-8 form is escaped as `%` and two
/// uppercase hex digits.
pub fn percent_encode(s: &str) -> (r: String)
    ensures
        r@ == encoded_chars(s@),
{
    let bytes: &[u8] = s.as_bytes();
    let n: usize = bytes.len();
    let mut out: Vec<u8> = Vec::new();
    let mut i: usize = 0;
    while i < n
        invariant
            n == bytes@.len(),
            bytes@ == s.spec_bytes(),
            i <= n,
            out@ == encode_bytes(bytes@.take(i as int)),
        decreases n - i,
    {
        let b: u8 = bytes[i];
        if b <= 0x20 || b >= 0x7f || b == 0x22 || b == 0x23 || b == 0x3c || b == 0x3e {
            out.push(0x25);
            out.push(hex_digit_byte(b / 16));
            out.push(hex_digit_byte(b % 16));
        } else {
            out.push(b);
        }
        proof {
            let prefix = bytes@.take(i as int);
            let one = seq![bytes@[i as int]];
            assert(bytes@.take(i + 1) =~= prefix + one);
            lemma_encode_bytes_app(prefix, one);
            assert(one.drop_first() =~= Seq::<u8>::empty());
            assert(encode_bytes(Seq::<u8>::empty()) =~= Seq::<u8>::empty());
            if is_escaped_byte(bytes@[i as int]) {
                assert(encode_bytes(one) =~= escape_of(bytes@[i as int]) + Seq::<u8>::empty());
                assert(encode_bytes(one) =~= escape_of(bytes@[i as int]));
            } else {
                assert(encode_bytes(one) =~= one + Seq::<u8>::empty());
                assert(encode_bytes(one) =~= one);
            }
            assert(out@ =~= encode_bytes(prefix) + encode_bytes(one));
        }
        i += 1;
    }
    proof {
        assert(bytes@.take(n as int) =~= bytes@);
        lemma_encoded_bytes_clean(bytes@);
    }
    ascii_string(out)
}

/// How far a decode at position `i` with output `out` so far determines the
/// decode of the whole sequence.
spec fn decode_step_ok(full: Seq<u8>, i: int, out: Seq<u8>) -> bool {
    match decode_bytes(full.skip(i)) {
        Some(rest) => decode_bytes(full) == Some(out + rest),
        None => decode_bytes(full) is None,
    }
}

/// Percent-decodes a text back into bytes.  Fails exactly when some `%` is
/// not followed by two hex digits.
pub fn percent_decode(s: &str) -> (r: Option<Vec<u8>>)
    ensures
        match r {
            Some(v) => decode_bytes(s.spec_bytes()) == Some(v@),
            None => decode_bytes(s.spec_bytes()) is None,
        },
{
    let bytes: &[u8] = s.as_bytes();
    let n: usize = bytes.len();
    let mut out: Vec<u8> = Vec::new();
    let mut i: usize = 0;
    proof {
        assert(bytes@.skip(0) =~= bytes@);
        if decode_bytes(bytes@) is Some {
            let rest = decode_bytes(bytes@)->Some_0;
            assert(Seq::<u8>::empty() + rest =~= rest);
        }
    }
    while i < n
        invariant
            n == bytes@.len(),
            bytes@ == s.spec_bytes(),
            i <= n,
            decode_step_ok(bytes@, i as int, out@),
        decreases n - i,
    {
        let ghost full = bytes@;
        let ghost tail = bytes@.skip(i as int);
        let ghost sofar = out@;
        let b: u8 = bytes[i];
        if b == 0x25 {
            if n - i < 3 {
                proof {
                    assert(tail[0] == 0x25 && tail.len() < 3);
                    assert(decode_bytes(tail) is None);
                }
                return None;
            }
            let h1: Option<u8> = hex_value_byte(bytes[i + 1]);
            let h2: Option<u8> = hex_value_byte(bytes[i + 2]);
            proof {
                assert(tail[0] == 0x25);
                assert(tail[1] == bytes@[i + 1] && tail[2] == bytes@[i + 2]);
            }
            match (h1, h2) {
                (Some(v1), Some(v2)) => {
                    let v: u8 = v1 * 16 + v2;
                    out.push(v);
                    proof {
                        assert(tail.skip(3) =~= full.skip(i + 3));
                        let dec = seq![(hex_value(tail[1]) * 16 + hex_value(tail[2])) as u8];
                        assert(dec[0] == v);
                        assert(out@ =~= sofar + dec);
                        match decode_bytes(full.skip(i + 3)) {
                            Some(rest) => {
                                assert(decode_bytes(tail) == Some(dec + rest));
                                assert(decode_bytes(full) == Some(sofar + (dec + rest)));
                                assert(sofar + (dec + rest) =~= (sofar + dec) + rest);
                            },
                            None => {
                                assert(decode_bytes(tail) is None);
                            },
                        }
                    }
                    i += 3;
                },
                _ => {
                    proof {
                        assert(decode_bytes(tail) is None);
                    }
                    return None;
                },
            }
        } else {
            out.push(b);
            proof {
                assert(tail[0] == b && b != 0x25);
                assert(tail.drop_first() =~= full.skip(i + 1));
                assert(out@ =~= sofar + seq![b]);
                match decode_bytes(full.skip(i + 1)) {
                    Some(rest) => {
                        assert(decode_bytes(tail) == Some(seq![b] + rest));
                        assert(decode_bytes(full) == Some(sofar + (seq![b] + rest)));
                        assert(sofar + (seq![b] + rest) =~= (sofar + seq![b]) + rest);
                    },
                    None => {
                        assert(decode_bytes(tail) is None);
                    },
                }
            }
            i += 1;
        }
    }
    proof {
        assert(bytes@.skip(n as int) =~= Seq::<u8>::empty());
        assert(decode_bytes(Seq::<u8>::empty()) == Some(Seq::<u8>::empty()));
        assert(out@ + Seq::<u8>::empty() =~= out@);
    }
    Some(out)
}

} // verus!
