//! Wire-format encoding and decoding.
//!
//! Two wire-format variants exist, selected by configuration:
//!
//! - **Binary**: requests are the literal ASCII tags `"init"` and `"poll"`;
//!   a response is exactly eight bytes, four big-endian unsigned 16-bit
//!   fields in channel order.
//! - **Text**: every request is a single zero marker byte; a response is
//!   text of the shape `"a0:a1:a2:a3"` — four unsigned 16-bit decimal
//!   fields separated by colons, optionally whitespace-padded.

use vstd::prelude::*;

use crate::errors::{CodecError, CodecErrorModel};
use crate::values::AnalogValues;

verus! {

/// Which of the two wire formats the device speaks.
#[derive(Clone, Copy, Debug, PartialEq, Eq, Structural)]
pub enum WireVariant {
    Binary,
    Text,
}

/// The two request kinds a client can issue. Only the binary variant
/// distinguishes them on the wire.
#[derive(Clone, Copy, Debug, PartialEq, Eq, Structural)]
pub enum RequestKind {
    Init,
    Poll,
}

/// The ASCII bytes of the binary-variant `"init"` request tag.
pub open spec fn init_tag() -> Seq<u8> {
    seq![105u8, 110u8, 105u8, 116u8]
}

/// The ASCII bytes of the binary-variant `"poll"` request tag.
pub open spec fn poll_tag() -> Seq<u8> {
    seq![112u8, 111u8, 108u8, 108u8]
}

/// What `encode_request` produces: a literal tag for the binary variant,
/// a single zero marker byte for the text variant.
pub open spec fn spec_encode_request(variant: WireVariant, kind: RequestKind) -> Seq<u8> {
    match variant {
        WireVariant::Binary => match kind {
            RequestKind::Init => init_tag(),
            RequestKind::Poll => poll_tag(),
        },
        WireVariant::Text => seq![0u8],
    }
}

/// Encodes one request datagram for the given wire variant.
pub fn encode_request(variant: WireVariant, kind: RequestKind) -> (r: Vec<u8>)
    ensures
        r@ == spec_encode_request(variant, kind),
{
    let mut out: Vec<u8> = Vec::new();
    match variant {
        WireVariant::Binary => {
            match kind {
                RequestKind::Init => {
                    out.push(105);
                    out.push(110);
                    out.push(105);
                    out.push(116);
                    assert(out@ =~= init_tag());
                },
                RequestKind::Poll => {
                    out.push(112);
                    out.push(111);
                    out.push(108);
                    out.push(108);
                    assert(out@ =~= poll_tag());
                },
            }
        },
        WireVariant::Text => {
            out.push(0);
            assert(out@ =~= seq![0u8]);
        },
    }
    out
}

/// The unsigned 16-bit value spelled big-endian by two bytes.
pub open spec fn be16(hi: u8, lo: u8) -> u16 {
    (hi * 256 + lo) as u16
}

/// What decoding a binary response yields: `Truncated` on fewer than eight
/// bytes, otherwise the four big-endian fields of the first eight bytes in
/// channel order. Bytes beyond the eighth are ignored, as a datagram read
/// into a fixed eight-byte buffer would drop them.
pub open spec fn spec_decode_binary(s: Seq<u8>) -> Result<AnalogValues, CodecErrorModel> {
    if s.len() < 8 {
        Err(CodecErrorModel::Truncated)
    } else {
        Ok(
            AnalogValues {
                a0: be16(s[0], s[1]),
                a1: be16(s[2], s[3]),
                a2: be16(s[4], s[5]),
                a3: be16(s[6], s[7]),
            },
        )
    }
}

/// An ASCII whitespace byte: space, tab, line feed or carriage return.
pub open spec fn is_space(b: u8) -> bool {
    b == 32 || b == 9 || b == 10 || b == 13
}

/// `s` without its leading whitespace bytes.
pub open spec fn trim_start(s: Seq<u8>) -> Seq<u8>
    decreases s.len(),
{
    if s.len() > 0 && is_space(s[0]) {
        trim_start(s.drop_first())
    } else {
        s
    }
}

/// `s` without its trailing whitespace bytes.
pub open spec fn trim_end(s: Seq<u8>) -> Seq<u8>
    decreases s.len(),
{
    if s.len() > 0 && is_space(s[s.len() - 1]) {
        trim_end(s.drop_last())
    } else {
        s
    }
}

/// `s` without its surrounding whitespace bytes.
pub open spec fn trimmed(s: Seq<u8>) -> Seq<u8> {
    trim_end(trim_start(s))
}

/// The position of the first colon byte in `s`, if any.
pub open spec fn find_colon(s: Seq<u8>) -> Option<int>
    decreases s.len(),
{
    if s.len() == 0 {
        None
    } else if s[0] == 58 {
        Some(0int)
    } else {
        match find_colon(s.drop_first()) {
            None => None,
            Some(i) => Some(i + 1),
        }
    }
}

/// `find_colon` names the first colon: a colon stands there, none before it,
/// and a `None` means no colon at all.
pub proof fn lemma_find_colon(s: Seq<u8>)
    ensures
        match find_colon(s) {
            Some(i) => 0 <= i < s.len() && s[i] == 58 && (forall|j: int|
                0 <= j < i ==> s[j] != 58),
            None => forall|j: int| 0 <= j < s.len() ==> s[j] != 58,
        },
    decreases s.len(),
{
    if s.len() > 0 && s[0] != 58 {
        let rest = s.drop_first();
        lemma_find_colon(rest);
        match find_colon(rest) {
            Some(i) => {
                assert(s[i + 1] == rest[i]);
                assert forall|j: int| 0 <= j < i + 1 implies s[j] != 58 by {
                    if j > 0 {
                        assert(rest[j - 1] == s[j]);
                    }
                }
            },
            None => {
                assert forall|j: int| 0 <= j < s.len() implies s[j] != 58 by {
                    if j > 0 {
                        assert(rest[j - 1] == s[j]);
                    }
                }
            },
        }
    }
}

/// The fields of `s`, split on colon bytes. A payload with no colon is one
/// single field, so the result always holds at least one field.
pub open spec fn pieces(s: Seq<u8>) -> Seq<Seq<u8>>
    decreases s.len(),
    via pieces_decreases
{
    match find_colon(s) {
        None => seq![s],
        Some(i) => seq![s.take(i)] + pieces(s.skip(i + 1)),
    }
}

#[via_fn]
proof fn pieces_decreases(s: Seq<u8>) {
    lemma_find_colon(s);
}

/// Splitting always yields at least one field.
pub proof fn lemma_pieces_len(s: Seq<u8>)
    ensures
        pieces(s).len() >= 1,
{
    lemma_find_colon(s);
}

/// Splitting a colon-free payload yields that payload as the one field.
pub proof fn lemma_pieces_no_colon(s: Seq<u8>)
    requires
        forall|j: int| 0 <= j < s.len() ==> s[j] != 58,
    ensures
        pieces(s) == seq![s],
{
    lemma_find_colon(s);
    if find_colon(s) is Some {
        let i = find_colon(s)->Some_0;
        assert(s[i] == 58);
        assert(false);
    }
}

/// Splitting at the first colon: the bytes before it form the first field,
/// and the rest of the fields are those of the bytes after it.
pub proof fn lemma_pieces_split(s: Seq<u8>, i: int)
    requires
        0 <= i < s.len(),
        s[i] == 58,
        forall|j: int| 0 <= j < i ==> s[j] != 58,
    ensures
        pieces(s) == seq![s.take(i)] + pieces(s.skip(i + 1)),
{
    lemma_find_colon(s);
    match find_colon(s) {
        None => {
            assert(s[i] == 58);
            assert(false);
        },
        Some(k) => {
            if k < i {
                assert(s[k] != 58);
                assert(false);
            }
            if i < k {
                assert(s[i] != 58);
                assert(false);
            }
        },
    }
}

/// An ASCII decimal digit byte.
pub open spec fn is_digit(b: u8) -> bool {
    48 <= b <= 57
}

/// Every byte of `s` is a decimal digit.
pub open spec fn all_digits(s: Seq<u8>) -> bool {
    forall|i: int| 0 <= i < s.len() ==> is_digit(s[i])
}

/// The value of `s` read as a decimal numeral.
pub open spec fn dec_val(s: Seq<u8>) -> nat
    decreases s.len(),
{
    if s.len() == 0 {
        0
    } else {
        (dec_val(s.drop_last()) * 10 + (s.last() - 48)) as nat
    }
}

/// `s` spells an unsigned 16-bit decimal: non-empty, digits only, and the
/// value fits.
pub open spec fn is_dec_u16(s: Seq<u8>) -> bool {
    s.len() > 0 && all_digits(s) && dec_val(s) <= 65535
}

/// The value of a numeral never falls below the value of any of its
/// prefixes.
pub proof fn lemma_dec_val_prefix(s: Seq<u8>, j: int)
    requires
        0 <= j <= s.len(),
        all_digits(s),
    ensures
        dec_val(s.take(j)) <= dec_val(s),
    decreases s.len() - j,
{
    if j < s.len() {
        assert(s.take(j + 1).drop_last() =~= s.take(j));
        assert(s.take(j + 1).last() == s[j]);
        assert(is_digit(s[j]));
        lemma_dec_val_prefix(s, j + 1);
    } else {
        assert(s.take(j) =~= s);
    }
}

/// What decoding a text response yields. The payload is trimmed of
/// surrounding whitespace and split on colons; the first four fields are
/// read as unsigned 16-bit decimals, left to right and fail-fast: a field
/// the payload ends before is missing, a field that is not such a decimal
/// is invalid. Fields beyond the fourth are ignored.
pub open spec fn spec_decode_text(s: Seq<u8>) -> Result<AnalogValues, CodecErrorModel> {
    let ps = pieces(trimmed(s));
    if !is_dec_u16(ps[0]) {
        Err(CodecErrorModel::InvalidField { channel: 0, raw: ps[0] })
    } else if ps.len() <= 1 {
        Err(CodecErrorModel::MissingField { channel: 1 })
    } else if !is_dec_u16(ps[1]) {
        Err(CodecErrorModel::InvalidField { channel: 1, raw: ps[1] })
    } else if ps.len() <= 2 {
        Err(CodecErrorModel::MissingField { channel: 2 })
    } else if !is_dec_u16(ps[2]) {
        Err(CodecErrorModel::InvalidField { channel: 2, raw: ps[2] })
    } else if ps.len() <= 3 {
        Err(CodecErrorModel::MissingField { channel: 3 })
    } else if !is_dec_u16(ps[3]) {
        Err(CodecErrorModel::InvalidField { channel: 3, raw: ps[3] })
    } else {
        Ok(
            AnalogValues {
                a0: dec_val(ps[0]) as u16,
                a1: dec_val(ps[1]) as u16,
                a2: dec_val(ps[2]) as u16,
                a3: dec_val(ps[3]) as u16,
            },
        )
    }
}

/// The bounds of `payload` with surrounding whitespace removed.
fn trim_bounds(payload: &[u8]) -> (b: (usize, usize))
    ensures
        b.0 <= b.1 <= payload@.len(),
        payload@.subrange(b.0 as int, b.1 as int) == trimmed(payload@),
{
    let n: usize = payload.len();
    proof {
        assert(payload@.skip(0) =~= payload@);
    }
    let mut lo: usize = 0;
    while lo < n && (payload[lo] == 32 || payload[lo] == 9 || payload[lo] == 10 || payload[lo]
        == 13)
        invariant
            lo <= n == payload@.len(),
            trim_start(payload@) == trim_start(payload@.skip(lo as int)),
        decreases n - lo,
    {
        proof {
            assert(payload@.skip(lo as int).drop_first() =~= payload@.skip(lo as int + 1));
        }
        lo += 1;
    }
    proof {
        assert(trim_start(payload@) == payload@.skip(lo as int));
        assert(payload@.subrange(lo as int, n as int) =~= payload@.skip(lo as int));
    }
    let mut hi: usize = n;
    while hi > lo && (payload[hi - 1] == 32 || payload[hi - 1] == 9 || payload[hi - 1] == 10
        || payload[hi - 1] == 13)
        invariant
            lo <= hi <= n == payload@.len(),
            trim_end(payload@.skip(lo as int)) == trim_end(
                payload@.subrange(lo as int, hi as int),
            ),
        decreases hi,
    {
        proof {
            assert(payload@.subrange(lo as int, hi as int).drop_last() =~= payload@.subrange(
                lo as int,
                hi as int - 1,
            ));
        }
        hi -= 1;
    }
    (lo, hi)
}

/// The first colon at or after `from` and before `to`, or `to` if none
/// stands there.
fn scan_colon(payload: &[u8], from: usize, to: usize) -> (c: usize)
    requires
        from <= to <= payload@.len(),
    ensures
        from <= c <= to,
        forall|j: int| from <= j < c ==> payload@[j] != 58,
        c < to ==> payload@[c as int] == 58,
{
    let mut c: usize = from;
    while c < to
        invariant
            from <= c <= to <= payload@.len(),
            forall|j: int| from <= j < c ==> payload@[j] != 58,
        decreases to - c,
    {
        if payload[c] == 58 {
            return c;
        }
        c += 1;
    }
    c
}

/// The bytes of `payload` between `start` and `end`, as an owned vector.
fn copy_range(payload: &[u8], start: usize, end: usize) -> (r: Vec<u8>)
    requires
        start <= end <= payload@.len(),
    ensures
        r@ == payload@.subrange(start as int, end as int),
{
    let mut out: Vec<u8> = Vec::new();
    let mut i: usize = start;
    while i < end
        invariant
            start <= i <= end <= payload@.len(),
            out@ == payload@.subrange(start as int, i as int),
        decreases end - i,
    {
        out.push(payload[i]);
        proof {
            assert(payload@.subrange(start as int, i as int).push(payload@[i as int])
                =~= payload@.subrange(start as int, i as int + 1));
        }
        i += 1;
    }
    out
}

/// Reads the bytes of `payload` between `start` and `end` as an unsigned
/// 16-bit decimal, or nothing if they do not spell one.
fn parse_dec_u16(payload: &[u8], start: usize, end: usize) -> (r: Option<u16>)
    requires
        start <= end <= payload@.len(),
    ensures
        ({
            let p = payload@.subrange(start as int, end as int);
            match r {
                Some(v) => is_dec_u16(p) && v == dec_val(p),
                None => !is_dec_u16(p),
            }
        }),
{
    let ghost p = payload@.subrange(start as int, end as int);
    if start == end {
        return None;
    }
    let mut val: u32 = 0;
    let mut i: usize = start;
    while i < end
        invariant
            start <= i <= end <= payload@.len(),
            p == payload@.subrange(start as int, end as int),
            all_digits(p.take(i - start)),
            val <= 65535,
            val == dec_val(p.take(i - start)),
        decreases end - i,
    {
        let b = payload[i];
        if b < 48 || b > 57 {
            assert(!is_digit(p[i - start]));
            return None;
        }
        proof {
            assert(p.take(i - start + 1).drop_last() =~= p.take(i - start));
            assert(p.take(i - start + 1).last() == p[i - start]);
        }
        val = val * 10 + ((b - 48) as u32);
        i += 1;
        if val > 65535 {
            proof {
                if all_digits(p) {
                    lemma_dec_val_prefix(p, i - start);
                }
            }
            return None;
        }
    }
    proof {
        assert(p.take(end - start) =~= p);
    }
    Some(val as u16)
}

/// Relates a colon scan over one stretch of the payload to the fields of
/// that stretch: the bytes up to the colon form the first field, and the
/// bytes after it carry the remaining fields; with no colon, the stretch is
/// the single last field.
proof fn lemma_piece_at(payload: Seq<u8>, pos: int, c: int, hi: int)
    requires
        0 <= pos <= c <= hi <= payload.len(),
        forall|j: int| pos <= j < c ==> payload[j] != 58,
        c < hi ==> payload[c] == 58,
    ensures
        ({
            let u = payload.subrange(pos, hi);
            if c < hi {
                pieces(u) == seq![payload.subrange(pos, c)] + pieces(payload.subrange(c + 1, hi))
            } else {
                pieces(u) == seq![payload.subrange(pos, c)]
            }
        }),
{
    let u = payload.subrange(pos, hi);
    if c < hi {
        assert(u[c - pos] == 58);
        assert forall|j: int| 0 <= j < c - pos implies u[j] != 58 by {
            assert(u[j] == payload[pos + j]);
        }
        lemma_pieces_split(u, c - pos);
        assert(u.take(c - pos) =~= payload.subrange(pos, c));
        assert(u.skip(c - pos + 1) =~= payload.subrange(c + 1, hi));
    } else {
        assert forall|j: int| 0 <= j < u.len() implies u[j] != 58 by {
            assert(u[j] == payload[pos + j]);
        }
        lemma_pieces_no_colon(u);
        assert(u =~= payload.subrange(pos, c));
    }
}

/// Decodes a text-variant response payload.
pub fn decode_text(payload: &[u8]) -> (r: Result<AnalogValues, CodecError>)
    ensures
        match r {
            Ok(av) => spec_decode_text(payload@) == Ok::<AnalogValues, CodecErrorModel>(av),
            Err(e) => spec_decode_text(payload@) == Err::<AnalogValues, CodecErrorModel>(e@),
        },
{
    let (lo, hi) = trim_bounds(payload);
    let ghost t = trimmed(payload@);
    let ghost ps = pieces(t);

    // field a0
    let c0 = scan_colon(payload, lo, hi);
    proof {
        lemma_piece_at(payload@, lo as int, c0 as int, hi as int);
        if c0 < hi {
            lemma_pieces_len(payload@.subrange(c0 as int + 1, hi as int));
        }
        assert(ps[0] == payload@.subrange(lo as int, c0 as int));
    }
    let v0 = match parse_dec_u16(payload, lo, c0) {
        Some(v) => v,
        None => {
            return Err(CodecError::InvalidField { channel: 0, raw: copy_range(payload, lo, c0) });
        },
    };
    if c0 == hi {
        return Err(CodecError::MissingField { channel: 1 });
    }
    let pos1 = c0 + 1;
    proof {
        assert(ps.skip(1) =~= pieces(payload@.subrange(pos1 as int, hi as int)));
    }

    // field a1
    let c1 = scan_colon(payload, pos1, hi);
    proof {
        lemma_piece_at(payload@, pos1 as int, c1 as int, hi as int);
        if c1 < hi {
            lemma_pieces_len(payload@.subrange(c1 as int + 1, hi as int));
        }
        assert(ps[1] == payload@.subrange(pos1 as int, c1 as int));
    }
    let v1 = match parse_dec_u16(payload, pos1, c1) {
        Some(v) => v,
        None => {
            return Err(
                CodecError::InvalidField { channel: 1, raw: copy_range(payload, pos1, c1) },
            );
        },
    };
    if c1 == hi {
        return Err(CodecError::MissingField { channel: 2 });
    }
    let pos2 = c1 + 1;
    proof {
        assert(ps.skip(2) =~= pieces(payload@.subrange(pos2 as int, hi as int)));
    }

    // field a2
    let c2 = scan_colon(payload, pos2, hi);
    proof {
        lemma_piece_at(payload@, pos2 as int, c2 as int, hi as int);
        if c2 < hi {
            lemma_pieces_len(payload@.subrange(c2 as int + 1, hi as int));
        }
        assert(ps[2] == payload@.subrange(pos2 as int, c2 as int));
    }
    let v2 = match parse_dec_u16(payload, pos2, c2) {
        Some(v) => v,
        None => {
            return Err(
                CodecError::InvalidField { channel: 2, raw: copy_range(payload, pos2, c2) },
            );
        },
    };
    if c2 == hi {
        return Err(CodecError::MissingField { channel: 3 });
    }
    let pos3 = c2 + 1;
    proof {
        assert(ps.skip(3) =~= pieces(payload@.subrange(pos3 as int, hi as int)));
    }

    // field a3; anything after a fourth colon is ignored
    let c3 = scan_colon(payload, pos3, hi);
    proof {
        lemma_piece_at(payload@, pos3 as int, c3 as int, hi as int);
        if c3 < hi {
            lemma_pieces_len(payload@.subrange(c3 as int + 1, hi as int));
        }
        assert(ps[3] == payload@.subrange(pos3 as int, c3 as int));
    }
    let v3 = match parse_dec_u16(payload, pos3, c3) {
        Some(v) => v,
        None => {
            return Err(
                CodecError::InvalidField { channel: 3, raw: copy_range(payload, pos3, c3) },
            );
        },
    };
    Ok(AnalogValues { a0: v0, a1: v1, a2: v2, a3: v3 })
}

/// What decoding a response yields for the given wire variant.
pub open spec fn spec_decode_response(variant: WireVariant, s: Seq<u8>) -> Result<
    AnalogValues,
    CodecErrorModel,
> {
    match variant {
        WireVariant::Binary => spec_decode_binary(s),
        WireVariant::Text => spec_decode_text(s),
    }
}

/// Decodes a response payload for the given wire variant.
pub fn decode_response(variant: WireVariant, payload: &[u8]) -> (r: Result<
    AnalogValues,
    CodecError,
>)
    ensures
        match r {
            Ok(av) => spec_decode_response(variant, payload@) == Ok::<
                AnalogValues,
                CodecErrorModel,
            >(av),
            Err(e) => spec_decode_response(variant, payload@) == Err::<
                AnalogValues,
                CodecErrorModel,
            >(e@),
        },
{
    match variant {
        WireVariant::Binary => decode_binary(payload),
        WireVariant::Text => decode_text(payload),
    }
}

/// Decodes a binary-variant response payload.
pub fn decode_binary(payload: &[u8]) -> (r: Result<AnalogValues, CodecError>)
    ensures
        match r {
            Ok(av) => spec_decode_binary(payload@) == Ok::<AnalogValues, CodecErrorModel>(av),
            Err(e) => spec_decode_binary(payload@) == Err::<AnalogValues, CodecErrorModel>(e@),
        },
{
    if payload.len() < 8 {
        Err(CodecError::Truncated)
    } else {
        Ok(
            AnalogValues {
                a0: (payload[0] as u16) * 256 + (payload[1] as u16),
                a1: (payload[2] as u16) * 256 + (payload[3] as u16),
                a2: (payload[4] as u16) * 256 + (payload[5] as u16),
                a3: (payload[6] as u16) * 256 + (payload[7] as u16),
            },
        )
    }
}

} // verus!
