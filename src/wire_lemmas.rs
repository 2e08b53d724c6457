use vstd::prelude::*;
use vstd::utf8::{
    encode_scalar, encode_utf8, has_width_1_encoding, has_width_2_encoding, has_width_3_encoding,
    is_scalar,
};

use crate::buffer::bytes_content;
use crate::headers::{header_name_ok, header_value_ok, is_control, is_white_space, trims_to_empty};
use crate::response::{decimal, header_block, header_line, status_line, wire, Response};
use crate::status::reason_of;

verus! {

broadcast use vstd::string::group_string_axioms;

/// An ASCII byte that is none of a scalar's value shows up nowhere in its UTF-8 form.
proof fn lemma_scalar_avoids(c: u32, b: u8)
    requires
        is_scalar(c),
        b < 0x80,
        c != b as u32,
    ensures
        forall|j: int| 0 <= j < encode_scalar(c).len() ==> encode_scalar(c)[j] != b,
{
    if has_width_1_encoding(c) {
        assert(((c & 0x7F) as u8) != b) by (bit_vector)
            requires
                c <= 0x7F,
                c != b as u32,
        ;
    } else if has_width_2_encoding(c) {
        assert((0xC0u8 | ((c >> 6) & 0x1F) as u8) >= 0x80) by (bit_vector);
        assert((0x80u8 | (c & 0x3F) as u8) >= 0x80) by (bit_vector);
    } else if has_width_3_encoding(c) {
        assert((0xE0u8 | ((c >> 12) & 0x0F) as u8) >= 0x80) by (bit_vector);
        assert((0x80u8 | ((c >> 6) & 0x3F) as u8) >= 0x80) by (bit_vector);
        assert((0x80u8 | (c & 0x3F) as u8) >= 0x80) by (bit_vector);
    } else {
        assert((0xF0u8 | ((c >> 18) & 0x7) as u8) >= 0x80) by (bit_vector);
        assert((0x80u8 | ((c >> 12) & 0x3F) as u8) >= 0x80) by (bit_vector);
        assert((0x80u8 | ((c >> 6) & 0x3F) as u8) >= 0x80) by (bit_vector);
        assert((0x80u8 | (c & 0x3F) as u8) >= 0x80) by (bit_vector);
    }
}

/// An ASCII byte whose character is absent from `s` is absent from its UTF-8 form.
proof fn lemma_encode_avoids(s: Seq<char>, b: u8)
    requires
        b < 0x80,
        forall|i: int| 0 <= i < s.len() ==> (#[trigger] s[i] as u32) != b as u32,
    ensures
        forall|j: int| 0 <= j < encode_utf8(s).len() ==> encode_utf8(s)[j] != b,
    decreases s.len(),
{
    if s.len() > 0 {
        let c = s[0] as u32;
        vstd::utf8::char_is_scalar(s[0]);
        lemma_scalar_avoids(c, b);
        let d = s.drop_first();
        assert forall|i: int| 0 <= i < d.len() implies (#[trigger] d[i] as u32) != b as u32 by {
            assert(d[i] == s[i + 1]);
        }
        lemma_encode_avoids(d, b);
        let x = encode_scalar(c);
        let y = encode_utf8(d);
        assert(encode_utf8(s) == x + y);
        assert forall|j: int| 0 <= j < (x + y).len() implies (x + y)[j] != b by {
            if j >= x.len() {
                assert((x + y)[j] == y[j - x.len()]);
            }
        }
    }
}

/// The UTF-8 form of a non-empty text is non-empty, and starts with the first
/// character's byte when that character is ASCII.
proof fn lemma_encode_first(s: Seq<char>)
    requires
        s.len() > 0,
    ensures
        encode_utf8(s).len() > 0,
        (s[0] as u32) < 0x80 ==> encode_utf8(s)[0] == s[0] as u32 as u8,
{
    let c = s[0] as u32;
    vstd::utf8::char_is_scalar(s[0]);
    if c < 0x80 {
        assert(((c & 0x7F) as u8) == c as u8) by (bit_vector)
            requires
                c < 0x80,
        ;
    }
    assert(encode_utf8(s) == encode_scalar(c) + encode_utf8(s.drop_first()));
}

/// Where two byte strings agree, and each is a prefix free of byte `b` followed by
/// a part that starts with `b`, the prefixes and the rests agree.
proof fn lemma_split_at(x1: Seq<u8>, y1: Seq<u8>, x2: Seq<u8>, y2: Seq<u8>, b: u8)
    requires
        x1 + y1 == x2 + y2,
        forall|j: int| 0 <= j < x1.len() ==> x1[j] != b,
        forall|j: int| 0 <= j < x2.len() ==> x2[j] != b,
        y1.len() > 0 && y1[0] == b,
        y2.len() > 0 && y2[0] == b,
    ensures
        x1 == x2,
        y1 == y2,
{
    let w = x1 + y1;
    if x1.len() < x2.len() {
        assert(w[x1.len() as int] == y1[0]);
        assert((x2 + y2)[x1.len() as int] == x2[x1.len() as int]);
    } else if x2.len() < x1.len() {
        assert((x2 + y2)[x2.len() as int] == y2[0]);
        assert(w[x2.len() as int] == x1[x2.len() as int]);
    }
    assert(x1 =~= w.take(x1.len() as int));
    assert(x2 =~= (x2 + y2).take(x2.len() as int));
    assert(y1 =~= w.skip(x1.len() as int));
    assert(y2 =~= (x2 + y2).skip(x2.len() as int));
}

/// The UTF-8 form of a two-character ASCII text is its two bytes.
proof fn lemma_ascii_pair(s: Seq<char>)
    requires
        s.len() == 2,
        (s[0] as u32) < 0x80,
        (s[1] as u32) < 0x80,
    ensures
        encode_utf8(s) == seq![s[0] as u32 as u8, s[1] as u32 as u8],
{
    let d = s.drop_first();
    assert(d[0] == s[1]);
    lemma_encode_first(s);
    lemma_encode_first(d);
    vstd::utf8::char_is_scalar(s[0]);
    vstd::utf8::char_is_scalar(s[1]);
    assert(encode_utf8(s) == encode_scalar(s[0] as u32) + encode_utf8(d));
    assert(encode_utf8(d) == encode_scalar(d[0] as u32) + encode_utf8(d.drop_first()));
    assert(d.drop_first().len() == 0);
    assert(encode_utf8(s) =~= seq![s[0] as u32 as u8, s[1] as u32 as u8]);
}

proof fn lemma_separators()
    ensures
        encode_utf8(": "@) == seq![0x3Au8, 0x20u8],
        encode_utf8("\r\n"@) == seq![13u8, 10u8],
{
    reveal_strlit(": ");
    reveal_strlit("\r\n");
    lemma_ascii_pair(": "@);
    lemma_ascii_pair("\r\n"@);
}

/// A valid (name, value) pair.
pub open spec fn entry_ok(e: (Seq<char>, Seq<char>)) -> bool {
    header_name_ok(e.0) && header_value_ok(e.1)
}

/// The characters of a valid pair keep the separators out of its UTF-8 form.
proof fn lemma_entry_bytes(e: (Seq<char>, Seq<char>))
    requires
        entry_ok(e),
    ensures
        encode_utf8(e.0).len() > 0,
        forall|j: int| 0 <= j < encode_utf8(e.0).len() ==> encode_utf8(e.0)[j] != 0x20 && encode_utf8(e.0)[j] != 13,
        forall|j: int| 0 <= j < encode_utf8(e.1).len() ==> encode_utf8(e.1)[j] != 13,
{
    assert(e.0.len() > 0) by {
        if e.0.len() == 0 {
            assert(trims_to_empty(e.0));
        }
    }
    assert forall|i: int| 0 <= i < e.0.len() implies (#[trigger] e.0[i] as u32) != 0x20u8 as u32 && (e.0[i] as u32) != 13u8 as u32 by {
        assert(!is_control(e.0[i]) && !is_white_space(e.0[i]));
    }
    lemma_encode_avoids(e.0, 0x20);
    lemma_encode_avoids(e.0, 13);
    lemma_encode_first(e.0);
    assert forall|i: int| 0 <= i < e.1.len() implies (#[trigger] e.1[i] as u32) != 13u8 as u32 by {
        assert(!is_control(e.1[i]) || e.1[i] == '\t');
    }
    lemma_encode_avoids(e.1, 13);
}

/// Two valid header lines that start equal byte strings are the same line.
proof fn lemma_line_split(e1: (Seq<char>, Seq<char>), r1: Seq<u8>, e2: (Seq<char>, Seq<char>), r2: Seq<u8>)
    requires
        entry_ok(e1),
        entry_ok(e2),
        header_line(e1) + r1 == header_line(e2) + r2,
    ensures
        e1 == e2,
        r1 == r2,
{
    lemma_separators();
    lemma_entry_bytes(e1);
    lemma_entry_bytes(e2);
    let crlf = seq![13u8, 10u8];
    let x1 = encode_utf8(e1.0) + seq![0x3Au8];
    let x2 = encode_utf8(e2.0) + seq![0x3Au8];
    let y1 = seq![0x20u8] + (encode_utf8(e1.1) + (crlf + r1));
    let y2 = seq![0x20u8] + (encode_utf8(e2.1) + (crlf + r2));
    assert(header_line(e1) + r1 =~= x1 + y1);
    assert(header_line(e2) + r2 =~= x2 + y2);
    assert forall|j: int| 0 <= j < x1.len() implies x1[j] != 0x20 by {
        if j < encode_utf8(e1.0).len() {
            assert(x1[j] == encode_utf8(e1.0)[j]);
        }
    }
    assert forall|j: int| 0 <= j < x2.len() implies x2[j] != 0x20 by {
        if j < encode_utf8(e2.0).len() {
            assert(x2[j] == encode_utf8(e2.0)[j]);
        }
    }
    lemma_split_at(x1, y1, x2, y2, 0x20);
    assert(encode_utf8(e1.0) =~= x1.drop_last());
    assert(encode_utf8(e2.0) =~= x2.drop_last());
    vstd::utf8::encode_utf8_decode_utf8(e1.0);
    vstd::utf8::encode_utf8_decode_utf8(e2.0);
    assert(y1.drop_first() =~= encode_utf8(e1.1) + (crlf + r1));
    assert(y2.drop_first() =~= encode_utf8(e2.1) + (crlf + r2));
    lemma_split_at(encode_utf8(e1.1), crlf + r1, encode_utf8(e2.1), crlf + r2, 13);
    vstd::utf8::encode_utf8_decode_utf8(e1.1);
    vstd::utf8::encode_utf8_decode_utf8(e2.1);
    assert(r1 =~= (crlf + r1).skip(2));
    assert(r2 =~= (crlf + r2).skip(2));
}

/// The header block read from the front: the first line, then the others.
proof fn lemma_block_front(e: Seq<(Seq<char>, Seq<char>)>)
    requires
        e.len() > 0,
    ensures
        header_block(e) == header_line(e[0]) + header_block(e.drop_first()),
    decreases e.len(),
{
    if e.len() == 1 {
        assert(e.drop_last().len() == 0);
        assert(e.drop_first().len() == 0);
        assert(header_block(e.drop_last()) == Seq::<u8>::empty());
        assert(header_block(e.drop_first()) == Seq::<u8>::empty());
        assert(e.last() == e[0]);
        assert(header_block(e) == header_block(e.drop_last()) + header_line(e.last()));
        assert(header_block(e) =~= header_line(e[0]) + header_block(e.drop_first()));
    } else {
        let d = e.drop_last();
        lemma_block_front(d);
        assert(d.drop_first() =~= e.drop_first().drop_last());
        assert(d[0] == e[0]);
        let f = e.drop_first();
        assert(f.last() == e.last());
        assert(header_block(e) == header_block(d) + header_line(e.last()));
        assert(header_block(f) == header_block(f.drop_last()) + header_line(f.last()));
        assert(header_block(e) =~= header_line(e[0]) + header_block(f));
    }
}

/// A header block, its end-of-head line and a body are read back uniquely.
#[verifier::rlimit(40)]
proof fn lemma_blocks_equal(
    e1: Seq<(Seq<char>, Seq<char>)>,
    b1: Seq<u8>,
    e2: Seq<(Seq<char>, Seq<char>)>,
    b2: Seq<u8>,
)
    requires
        forall|i: int| 0 <= i < e1.len() ==> entry_ok(#[trigger] e1[i]),
        forall|i: int| 0 <= i < e2.len() ==> entry_ok(#[trigger] e2[i]),
        header_block(e1) + encode_utf8("\r\n"@) + b1 == header_block(e2) + encode_utf8("\r\n"@) + b2,
    ensures
        e1 == e2,
        b1 == b2,
    decreases e1.len() + e2.len(),
{
    lemma_separators();
    let crlf = seq![13u8, 10u8];
    let w = header_block(e1) + crlf + b1;
    if e1.len() == 0 && e2.len() == 0 {
        assert(b1 =~= w.skip(2));
        assert(b2 =~= (header_block(e2) + crlf + b2).skip(2));
        assert(e1 =~= e2);
    } else if e1.len() == 0 || e2.len() == 0 {
        let (e, b, other) = if e1.len() == 0 { (e2, b2, b1) } else { (e1, b1, b2) };
        lemma_block_front(e);
        lemma_entry_bytes(e[0]);
        let v = header_block(e) + crlf + b;
        assert(v =~= encode_utf8(e[0].0) + (v.skip(encode_utf8(e[0].0).len() as int)));
        assert(v[0] == encode_utf8(e[0].0)[0]);
        assert((Seq::<u8>::empty() + crlf + other)[0] == 13);
        assert(header_block(Seq::<(Seq<char>, Seq<char>)>::empty()) == Seq::<u8>::empty());
    } else {
        lemma_block_front(e1);
        lemma_block_front(e2);
        let r1 = header_block(e1.drop_first()) + crlf + b1;
        let r2 = header_block(e2.drop_first()) + crlf + b2;
        assert(w =~= header_line(e1[0]) + r1);
        assert(header_block(e2) + crlf + b2 =~= header_line(e2[0]) + r2);
        lemma_line_split(e1[0], r1, e2[0], r2);
        let d1 = e1.drop_first();
        let d2 = e2.drop_first();
        assert forall|i: int| 0 <= i < d1.len() implies entry_ok(#[trigger] d1[i]) by {
            assert(d1[i] == e1[i + 1]);
        }
        assert forall|i: int| 0 <= i < d2.len() implies entry_ok(#[trigger] d2[i]) by {
            assert(d2[i] == e2[i + 1]);
        }
        lemma_blocks_equal(d1, b1, d2, b2);
        assert(e1 =~= seq![e1[0]] + d1);
        assert(e2 =~= seq![e2[0]] + d2);
    }
}

/// Decimal forms are non-empty and made of ASCII digits.
proof fn lemma_decimal_digits(n: nat)
    ensures
        decimal(n).len() >= 1,
        forall|j: int| 0 <= j < decimal(n).len() ==> 48 <= #[trigger] decimal(n)[j] <= 57,
    decreases n,
{
    if n >= 10 {
        lemma_decimal_digits(n / 10);
        let d = decimal(n / 10);
        assert forall|j: int| 0 <= j < decimal(n).len() implies 48 <= #[trigger] decimal(n)[j] <= 57 by {
            if j < d.len() {
                assert(decimal(n)[j] == d[j]);
            }
        }
    }
}

/// Distinct numbers have distinct decimal forms.
proof fn lemma_decimal_injective(a: nat, b: nat)
    requires
        decimal(a) == decimal(b),
    ensures
        a == b,
    decreases a,
{
    lemma_decimal_digits(a);
    lemma_decimal_digits(b);
    if a >= 10 && b >= 10 {
        lemma_decimal_digits(a / 10);
        lemma_decimal_digits(b / 10);
        assert(decimal(a).last() == (48 + a % 10) as u8);
        assert(decimal(b).last() == (48 + b % 10) as u8);
        assert(a % 10 == b % 10);
        assert(decimal(a / 10) =~= decimal(a).drop_last());
        assert(decimal(b / 10) =~= decimal(b).drop_last());
        lemma_decimal_injective(a / 10, b / 10);
        assert(a == 10 * (a / 10) + a % 10);
        assert(b == 10 * (b / 10) + b % 10);
    } else if a >= 10 {
        lemma_decimal_digits(a / 10);
        assert(decimal(a).len() == decimal(a / 10).len() + 1);
    } else if b >= 10 {
        lemma_decimal_digits(b / 10);
        assert(decimal(b).len() == decimal(b / 10).len() + 1);
    } else {
        assert(decimal(a)[0] == (48 + a) as u8);
        assert(decimal(b)[0] == (48 + b) as u8);
        assert(decimal(a)[0] == decimal(b)[0]);
    }
}

/// The UTF-8 form of a one-character ASCII text is its byte.
proof fn lemma_ascii_one(s: Seq<char>)
    requires
        s.len() == 1,
        (s[0] as u32) < 0x80,
    ensures
        encode_utf8(s) == seq![s[0] as u32 as u8],
{
    lemma_encode_first(s);
    vstd::utf8::char_is_scalar(s[0]);
    assert(encode_utf8(s) == encode_scalar(s[0] as u32) + encode_utf8(s.drop_first()));
    assert(s.drop_first().len() == 0);
    assert(encode_utf8(s) =~= seq![s[0] as u32 as u8]);
}

/// A decimal form, then a part that starts with the ASCII byte `b`, is read back uniquely.
proof fn lemma_number_then(n1: nat, y1: Seq<u8>, n2: nat, y2: Seq<u8>, b: u8)
    requires
        decimal(n1) + y1 == decimal(n2) + y2,
        b < 48 || b > 57,
        y1.len() > 0 && y1[0] == b,
        y2.len() > 0 && y2[0] == b,
    ensures
        n1 == n2,
        y1 == y2,
{
    lemma_decimal_digits(n1);
    lemma_decimal_digits(n2);
    lemma_split_at(decimal(n1), y1, decimal(n2), y2, b);
    lemma_decimal_injective(n1, n2);
}

/// What follows the status code: reason phrase, header block, blank line, body.
spec fn after_code(r: Response) -> Seq<u8> {
    encode_utf8(reason_of(r.status.value())) + encode_utf8("\r\n"@) + (header_block(
        r.headers.entries(),
    ) + encode_utf8("\r\n"@) + bytes_content(r.body))
}

/// What follows the version: a space, the code, a space and the rest.
spec fn after_version(r: Response) -> Seq<u8> {
    encode_utf8(" "@) + (decimal(r.status.value() as nat) + (encode_utf8(" "@) + after_code(r)))
}

proof fn lemma_assoc(a: Seq<u8>, b: Seq<u8>, c: Seq<u8>)
    ensures
        (a + b) + c == a + (b + c),
{
    assert((a + b) + c =~= a + (b + c));
}

/// The wire form, grouped for reading from the front.
proof fn lemma_wire_parts(r: Response)
    ensures
        wire(r) == encode_utf8("HTTP/"@) + (decimal(r.version.0 as nat) + (encode_utf8("."@) + (
        decimal(r.version.1 as nat) + after_version(r)))),
{
    let h = encode_utf8("HTTP/"@);
    let d0 = decimal(r.version.0 as nat);
    let dot = encode_utf8("."@);
    let d1 = decimal(r.version.1 as nat);
    let sp = encode_utf8(" "@);
    let dc = decimal(r.status.value() as nat);
    let er = encode_utf8(reason_of(r.status.value()));
    let cr = encode_utf8("\r\n"@);
    let blk = header_block(r.headers.entries());
    let body = bytes_content(r.body);
    let x2 = h + d0;
    let x3 = x2 + dot;
    let x4 = x3 + d1;
    let x5 = x4 + sp;
    let x6 = x5 + dc;
    let x7 = x6 + sp;
    let x8 = x7 + er;
    let sl = x8 + cr;
    let t = blk + cr + body;
    let a = er + cr + t;
    assert(sl == status_line(r.version, r.status.value()));
    assert(a == after_code(r));
    lemma_assoc(sl + blk, cr, body);
    lemma_assoc(sl, blk, cr + body);
    lemma_assoc(blk, cr, body);
    lemma_assoc(x8, cr, t);
    lemma_assoc(x7, er, cr + t);
    lemma_assoc(er, cr, t);
    lemma_assoc(x6, sp, a);
    lemma_assoc(x5, dc, sp + a);
    lemma_assoc(x4, sp, dc + (sp + a));
    lemma_assoc(x3, d1, after_version(r));
    lemma_assoc(x2, dot, d1 + after_version(r));
    lemma_assoc(h, d0, dot + (d1 + after_version(r)));
}

/// Serializing loses nothing: two responses with valid headers whose wire forms
/// are the same bytes have the same version, status code, headers and body. So
/// reading the status line, the header block and the rest back from the bytes
/// recovers all of them.
pub proof fn lemma_wire_round_trip(r1: Response, r2: Response)
    requires
        r1.headers.wf(),
        r2.headers.wf(),
        wire(r1) == wire(r2),
    ensures
        r1.version == r2.version,
        r1.status.value() == r2.status.value(),
        r1.headers.entries() == r2.headers.entries(),
        r1.headers@ == r2.headers@,
        bytes_content(r1.body) == bytes_content(r2.body),
{
    let e1 = r1.headers.entries();
    let e2 = r2.headers.entries();
    let b1 = bytes_content(r1.body);
    let b2 = bytes_content(r2.body);
    let c1 = r1.status.value();
    let c2 = r2.status.value();
    let crlf = encode_utf8("\r\n"@);
    let dot = encode_utf8("."@);
    let sp = encode_utf8(" "@);
    reveal_strlit(".");
    reveal_strlit(" ");
    lemma_separators();
    lemma_ascii_one("."@);
    lemma_ascii_one(" "@);
    lemma_wire_parts(r1);
    lemma_wire_parts(r2);
    let rest1 = after_code(r1);
    let rest2 = after_code(r2);
    let y1 = after_version(r1);
    let y2 = after_version(r2);
    let w = wire(r1);
    let h = encode_utf8("HTTP/"@);
    assert(w.skip(h.len() as int) =~= decimal(r1.version.0 as nat) + (dot + (decimal(r1.version.1 as nat) + y1)));
    assert(w.skip(h.len() as int) =~= decimal(r2.version.0 as nat) + (dot + (decimal(r2.version.1 as nat) + y2)));
    lemma_number_then(r1.version.0 as nat, dot + (decimal(r1.version.1 as nat) + y1), r2.version.0 as nat, dot + (decimal(r2.version.1 as nat) + y2), 0x2E);
    assert((dot + (decimal(r1.version.1 as nat) + y1)).drop_first() =~= decimal(r1.version.1 as nat) + y1);
    assert((dot + (decimal(r2.version.1 as nat) + y2)).drop_first() =~= decimal(r2.version.1 as nat) + y2);
    lemma_number_then(r1.version.1 as nat, y1, r2.version.1 as nat, y2, 0x20);
    assert(y1.drop_first() =~= decimal(c1 as nat) + (sp + rest1));
    assert(y2.drop_first() =~= decimal(c2 as nat) + (sp + rest2));
    lemma_number_then(c1 as nat, sp + rest1, c2 as nat, sp + rest2, 0x20);
    assert((sp + rest1).drop_first() =~= rest1);
    assert((sp + rest2).drop_first() =~= rest2);
    assert(rest1 == rest2);
    assert(rest1.skip(encode_utf8(reason_of(c1)).len() as int + 2) =~= header_block(e1) + crlf + b1);
    assert(rest2.skip(encode_utf8(reason_of(c2)).len() as int + 2) =~= header_block(e2) + crlf + b2);
    assert forall|i: int| 0 <= i < e1.len() implies entry_ok(#[trigger] e1[i]) by {
        assert(header_name_ok(e1[i].0));
    }
    assert forall|i: int| 0 <= i < e2.len() implies entry_ok(#[trigger] e2[i]) by {
        assert(header_name_ok(e2[i].0));
    }
    lemma_blocks_equal(e1, b1, e2, b2);
}

} // verus!
