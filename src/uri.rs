use vstd::prelude::*;
use vstd::utf8::{decode_utf8, encode_utf8, valid_utf8};

verus! {

/// The value of an ASCII hexadecimal digit, either case.
pub open spec fn hex_digit(c: u8) -> Option<u8> {
    if 48 <= c <= 57 {
        Some((c - 48) as u8)
    } else if 97 <= c <= 102 {
        Some((c - 87) as u8)
    } else if 65 <= c <= 70 {
        Some((c - 55) as u8)
    } else {
        None
    }
}

/// What `u8::from_str_radix(.., 16)` gives for the two characters `h1 h2`:
/// two hex digits, or a `+` sign followed by one.
pub open spec fn hex_pair(h1: u8, h2: u8) -> Option<u8> {
    if h1 == 43 {
        hex_digit(h2)
    } else if hex_digit(h1) is Some && hex_digit(h2) is Some {
        Some((hex_digit(h1)->0 * 16 + hex_digit(h2)->0) as u8)
    } else {
        None
    }
}

/// Percent-decoding of URI bytes: `%XY` becomes the byte it names, `+` becomes a
/// space, a malformed escape is kept as it stands, other bytes pass through.
pub open spec fn percent_decode(b: Seq<u8>) -> Seq<u8>
    decreases b.len(),
{
    if b.len() == 0 {
        Seq::empty()
    } else if b[0] == 37 {
        if b.len() >= 3 {
            match hex_pair(b[1], b[2]) {
                Some(v) => seq![v] + percent_decode(b.skip(3)),
                None => seq![37u8, b[1], b[2]] + percent_decode(b.skip(3)),
            }
        } else {
            b
        }
    } else if b[0] == 43 {
        seq![32u8] + percent_decode(b.skip(1))
    } else {
        seq![b[0]] + percent_decode(b.skip(1))
    }
}

fn hex_value(c: u8) -> (r: Option<u8>)
    ensures
        r == hex_digit(c),
{
    if 48 <= c && c <= 57 {
        Some(c - 48)
    } else if 97 <= c && c <= 102 {
        Some(c - 87)
    } else if 65 <= c && c <= 70 {
        Some(c - 55)
    } else {
        None
    }
}

fn hex_pair_value(h1: u8, h2: u8) -> (r: Option<u8>)
    ensures
        r == hex_pair(h1, h2),
{
    if h1 == 43 {
        return hex_value(h2);
    }
    match (hex_value(h1), hex_value(h2)) {
        (Some(a), Some(b)) => Some(a * 16 + b),
        _ => None,
    }
}

/// Percent-decodes URI bytes.
pub fn percent_decode_bytes(b: &[u8]) -> (r: Vec<u8>)
    ensures
        r@ == percent_decode(b@),
{
    let n = b.len();
    let mut out: Vec<u8> = Vec::new();
    let mut i: usize = 0;
    assert(b@.skip(0) =~= b@);
    assert(out@ + percent_decode(b@) =~= percent_decode(b@));
    while i < n
        invariant
            n == b@.len(),
            0 <= i <= n,
            percent_decode(b@) == out@ + percent_decode(b@.skip(i as int)),
        decreases n - i,
    {
        let ghost rest = b@.skip(i as int);
        let c = b[i];
        if c == 37 {
            if n - i >= 3 {
                assert(rest.skip(3) =~= b@.skip(i + 3));
                let h1 = b[i + 1];
                let h2 = b[i + 2];
                match hex_pair_value(h1, h2) {
                    Some(v) => {
                        out.push(v);
                    },
                    None => {
                        out.push(37);
                        out.push(h1);
                        out.push(h2);
                    },
                }
                i = i + 3;
            } else {
                let ghost before = out@;
                while i < n
                    invariant
                        n == b@.len(),
                        0 <= i <= n,
                        out@ + b@.skip(i as int) == before + rest,
                    decreases n - i,
                {
                    assert(b@.skip(i as int) =~= seq![b@[i as int]] + b@.skip(i + 1));
                    out.push(b[i]);
                    i = i + 1;
                }
                assert(b@.skip(i as int) =~= Seq::<u8>::empty());
                assert(out@ =~= before + rest);
            }
        } else {
            assert(rest.skip(1) =~= b@.skip(i + 1));
            if c == 43 {
                out.push(32);
            } else {
                out.push(c);
            }
            i = i + 1;
        }
    }
    assert(b@.skip(n as int) =~= Seq::<u8>::empty());
    assert(out@ =~= out@ + Seq::<u8>::empty());
    out
}

/// What `String::from_utf8_lossy` makes of a byte string.
pub uninterp spec fn lossy_text(b: Seq<u8>) -> Seq<char>;

/// Relies on `String::from_utf8_lossy`: the text of the bytes, with invalid
/// sequences replaced; well-formed UTF-8 is decoded unchanged.
#[verifier::external_body]
fn text_lossy(b: &[u8]) -> (r: String)
    ensures
        r@ == lossy_text(b@),
        valid_utf8(b@) ==> r@ == decode_utf8(b@),
{
    String::from_utf8_lossy(b).into_owned()
}

/// Percent-decodes a URI component and reads the result as UTF-8, replacing
/// what is not well formed.
pub fn decode_uri_component_to_string(s: &str) -> (r: String)
    ensures
        r@ == lossy_text(percent_decode(encode_utf8(s@))),
{
    let decoded = percent_decode_bytes(s.as_bytes());
    text_lossy(decoded.as_slice())
}

} // verus!
