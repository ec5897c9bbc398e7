//! The four-channel reading and its text rendering.

use vstd::prelude::*;

verus! {

/// A snapshot of the four raw analog channel readings.
///
/// Each channel is a raw unsigned 16-bit reading; a 12-bit sensor reports
/// values in `0..=4095`, but the representation allows the full range.
#[derive(Clone, Copy, Debug, PartialEq, Eq, Structural)]
pub struct AnalogValues {
    pub a0: u16,
    pub a1: u16,
    pub a2: u16,
    pub a3: u16,
}

/// The decimal digit bytes of `n`, most significant first.
pub open spec fn dec_digits(n: nat) -> Seq<u8>
    decreases n,
{
    if n < 10 {
        seq![(48 + n) as u8]
    } else {
        dec_digits(n / 10) + seq![(48 + n % 10) as u8]
    }
}

/// Every byte of `s` is seven-bit ASCII.
pub open spec fn ascii_bytes(s: Seq<u8>) -> bool {
    forall|i: int| 0 <= i < s.len() ==> s[i] < 128
}

/// The bytes of `"(a0: "`.
pub open spec fn text_head() -> Seq<u8> {
    seq![40u8, 97u8, 48u8, 58u8, 32u8]
}

/// The bytes of `", a<k>: "` for channel `k`.
pub open spec fn text_sep(k: u8) -> Seq<u8> {
    seq![44u8, 32u8, 97u8, (48 + k) as u8, 58u8, 32u8]
}

/// The text rendering of a reading:
/// `"(a0: <n>, a1: <n>, a2: <n>, a3: <n>)"` with decimal channel values.
pub open spec fn analog_text(v: AnalogValues) -> Seq<u8> {
    text_head() + dec_digits(v.a0 as nat) + text_sep(1) + dec_digits(v.a1 as nat) + text_sep(2)
        + dec_digits(v.a2 as nat) + text_sep(3) + dec_digits(v.a3 as nat) + seq![41u8]
}

/// Appends the decimal digits of `n` to `out`.
fn push_decimal(out: &mut Vec<u8>, n: u16)
    ensures
        final(out)@ == old(out)@ + dec_digits(n as nat),
    decreases n,
{
    if n >= 10 {
        push_decimal(out, n / 10);
    }
    out.push(48 + (n % 10) as u8);
    proof {
        if n < 10 {
            assert(old(out)@ + dec_digits(n as nat) =~= old(out)@.push((48 + n as nat) as u8));
        } else {
            assert((old(out)@ + dec_digits(n as nat / 10)).push((48 + n as nat % 10) as u8)
                =~= old(out)@ + dec_digits(n as nat));
        }
    }
}

/// Decimal digit bytes are ASCII.
proof fn lemma_dec_digits_ascii(n: nat)
    ensures
        ascii_bytes(dec_digits(n)),
    decreases n,
{
    if n >= 10 {
        lemma_dec_digits_ascii(n / 10);
        assert forall|i: int| 0 <= i < dec_digits(n).len() implies dec_digits(n)[i] < 128 by {
            if i < dec_digits(n / 10).len() {
                assert(dec_digits(n)[i] == dec_digits(n / 10)[i]);
            }
        }
    }
}

/// A concatenation of ASCII byte sequences is ASCII.
proof fn lemma_ascii_concat(a: Seq<u8>, b: Seq<u8>)
    requires
        ascii_bytes(a),
        ascii_bytes(b),
    ensures
        ascii_bytes(a + b),
{
    assert forall|i: int| 0 <= i < (a + b).len() implies (a + b)[i] < 128 by {
        if i < a.len() {
            assert((a + b)[i] == a[i]);
        } else {
            assert((a + b)[i] == b[i - a.len()]);
        }
    }
}

/// The whole text rendering is ASCII.
proof fn lemma_analog_text_ascii(v: AnalogValues)
    ensures
        ascii_bytes(analog_text(v)),
{
    lemma_dec_digits_ascii(v.a0 as nat);
    lemma_dec_digits_ascii(v.a1 as nat);
    lemma_dec_digits_ascii(v.a2 as nat);
    lemma_dec_digits_ascii(v.a3 as nat);
    lemma_ascii_concat(text_head(), dec_digits(v.a0 as nat));
    lemma_ascii_concat(text_head() + dec_digits(v.a0 as nat), text_sep(1));
    lemma_ascii_concat(text_head() + dec_digits(v.a0 as nat) + text_sep(1), dec_digits(v.a1 as nat));
    lemma_ascii_concat(
        text_head() + dec_digits(v.a0 as nat) + text_sep(1) + dec_digits(v.a1 as nat),
        text_sep(2),
    );
    lemma_ascii_concat(
        text_head() + dec_digits(v.a0 as nat) + text_sep(1) + dec_digits(v.a1 as nat) + text_sep(2),
        dec_digits(v.a2 as nat),
    );
    lemma_ascii_concat(
        text_head() + dec_digits(v.a0 as nat) + text_sep(1) + dec_digits(v.a1 as nat) + text_sep(2)
            + dec_digits(v.a2 as nat),
        text_sep(3),
    );
    lemma_ascii_concat(
        text_head() + dec_digits(v.a0 as nat) + text_sep(1) + dec_digits(v.a1 as nat) + text_sep(2)
            + dec_digits(v.a2 as nat) + text_sep(3),
        dec_digits(v.a3 as nat),
    );
    lemma_ascii_concat(
        text_head() + dec_digits(v.a0 as nat) + text_sep(1) + dec_digits(v.a1 as nat) + text_sep(2)
            + dec_digits(v.a2 as nat) + text_sep(3) + dec_digits(v.a3 as nat),
        seq![41u8],
    );
}

/// Relies on `String::from_utf8`: bytes below 128 are valid UTF-8 and
/// decode to exactly those characters, one character per byte.
#[verifier::external_body]
fn ascii_string(bytes: Vec<u8>) -> (r: String)
    requires
        ascii_bytes(bytes@),
    ensures
        r@.len() == bytes@.len(),
        forall|i: int| 0 <= i < bytes@.len() ==> r@[i] == bytes@[i] as char,
{
    String::from_utf8(bytes).unwrap_or_default()
}

impl AnalogValues {
    /// The all-zero reading used as the cache's initial contents before the
    /// first successful poll.
    pub open spec fn spec_sentinel() -> AnalogValues {
        AnalogValues { a0: 0, a1: 0, a2: 0, a3: 0 }
    }

    /// The all-zero reading used as the cache's initial contents.
    pub fn sentinel() -> (r: AnalogValues)
        ensures
            r == AnalogValues::spec_sentinel(),
    {
        AnalogValues { a0: 0, a1: 0, a2: 0, a3: 0 }
    }

    /// The text rendering of the reading, as bytes.
    pub fn render_bytes(&self) -> (r: Vec<u8>)
        ensures
            r@ == analog_text(*self),
    {
        let mut out: Vec<u8> = Vec::new();
        out.push(40);
        out.push(97);
        out.push(48);
        out.push(58);
        out.push(32);
        assert(out@ =~= text_head());
        push_decimal(&mut out, self.a0);
        out.push(44);
        out.push(32);
        out.push(97);
        out.push(49);
        out.push(58);
        out.push(32);
        assert(out@ =~= text_head() + dec_digits(self.a0 as nat) + text_sep(1));
        push_decimal(&mut out, self.a1);
        out.push(44);
        out.push(32);
        out.push(97);
        out.push(50);
        out.push(58);
        out.push(32);
        assert(out@ =~= text_head() + dec_digits(self.a0 as nat) + text_sep(1) + dec_digits(
            self.a1 as nat,
        ) + text_sep(2));
        push_decimal(&mut out, self.a2);
        out.push(44);
        out.push(32);
        out.push(97);
        out.push(51);
        out.push(58);
        out.push(32);
        assert(out@ =~= text_head() + dec_digits(self.a0 as nat) + text_sep(1) + dec_digits(
            self.a1 as nat,
        ) + text_sep(2) + dec_digits(self.a2 as nat) + text_sep(3));
        push_decimal(&mut out, self.a3);
        out.push(41);
        assert(out@ =~= analog_text(*self));
        out
    }

    /// A human-readable rendering of the reading:
    /// `"(a0: <n>, a1: <n>, a2: <n>, a3: <n>)"`.
    pub fn to_text(&self) -> (r: String)
        ensures
            r@.len() == analog_text(*self).len(),
            forall|i: int| 0 <= i < r@.len() ==> r@[i] == analog_text(*self)[i] as char,
    {
        let bytes = self.render_bytes();
        proof {
            lemma_analog_text_ascii(*self);
        }
        ascii_string(bytes)
    }
}

} // verus!
