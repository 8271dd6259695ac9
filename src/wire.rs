//! Byte-level building blocks shared by every payload layout: big-endian
//! integers and the fixed-capacity, NUL-terminated text field.

use vstd::prelude::*;
use vstd::utf8::encode_utf8;

verus! {

/// What can go wrong while decoding a payload.
#[derive(Clone, Copy, Debug, PartialEq, Eq, Structural)]
pub enum CodecError {
    /// No variant of the catalog carries this operation tag.
    UnknownId,
    /// The payload ends before a required field.
    Incomplete,
    /// A field holds a value outside its declared set (an enumeration, a flag).
    InvalidValue,
}

/// Big-endian encoding of a 16-bit value.
pub open spec fn be16(x: u16) -> Seq<u8> {
    seq![(x / 256) as u8, (x % 256) as u8]
}

/// Big-endian encoding of a 32-bit value.
pub open spec fn be32(x: u32) -> Seq<u8> {
    seq![
        (x / 0x100_0000) as u8,
        ((x / 0x1_0000) % 256) as u8,
        ((x / 256) % 256) as u8,
        (x % 256) as u8,
    ]
}

/// The big-endian 16-bit value stored at `p`.
pub open spec fn u16_at(d: Seq<u8>, p: int) -> u16 {
    (d[p] as int * 256 + d[p + 1] as int) as u16
}

/// The big-endian 32-bit value stored at `p`.
pub open spec fn u32_at(d: Seq<u8>, p: int) -> u32 {
    (d[p] as int * 0x100_0000 + d[p + 1] as int * 0x1_0000 + d[p + 2] as int * 256
        + d[p + 3] as int) as u32
}

/// Two's-complement big-endian encoding of a signed 16-bit value.
pub open spec fn be16_signed(x: i16) -> Seq<u8> {
    be16((if x < 0 { x + 0x1_0000 } else { x as int }) as u16)
}

/// The signed big-endian 16-bit value stored at `p`.
pub open spec fn i16_at(d: Seq<u8>, p: int) -> i16 {
    let u = u16_at(d, p) as int;
    (if u >= 0x8000 { u - 0x1_0000 } else { u }) as i16
}

/// The wire byte of a signed 8-bit value (two's complement).
pub open spec fn i8_byte(x: i8) -> u8 {
    (if x < 0 { x + 256 } else { x as int }) as u8
}

/// The signed 8-bit value of a wire byte.
pub open spec fn i8_from(b: u8) -> i8 {
    (if b >= 128 { b - 256 } else { b as int }) as i8
}

/// The bytes of a 32-bit value recombine to it.
pub proof fn lemma_be32_value(x: u32)
    ensures
        be32(x)[0] as int * 0x100_0000 + be32(x)[1] as int * 0x1_0000 + be32(x)[2] as int * 256
            + be32(x)[3] as int == x,
{
    let a = x / 0x100_0000;
    let b = (x / 0x1_0000) % 256;
    let c = (x / 256) % 256;
    let e = x % 256;
    assert(x / 0x1_0000 == a * 256 + b);
    assert(x / 256 == (x / 0x1_0000) * 256 + c);
    assert(x == (x / 256) * 256 + e);
}

/// The wire byte of a flag.
pub open spec fn bool_byte(b: bool) -> u8 {
    if b { 1 } else { 0 }
}

/// A flag read back from its byte: only 0 and 1 are flags.
pub open spec fn bool_from(b: u8) -> Option<bool> {
    if b == 0 {
        Some(false)
    } else if b == 1 {
        Some(true)
    } else {
        None
    }
}

pub fn put_u8(out: &mut Vec<u8>, x: u8)
    ensures
        final(out)@ == old(out)@ + seq![x],
{
    out.push(x);
    assert(final(out)@ =~= old(out)@ + seq![x]);
}

pub fn put_u16(out: &mut Vec<u8>, x: u16)
    ensures
        final(out)@ == old(out)@ + be16(x),
{
    out.push((x / 256) as u8);
    out.push((x % 256) as u8);
    assert(final(out)@ =~= old(out)@ + be16(x));
}

pub fn put_i16(out: &mut Vec<u8>, x: i16)
    ensures
        final(out)@ == old(out)@ + be16_signed(x),
{
    let u: u16 = if x < 0 { (x as i32 + 0x1_0000) as u16 } else { x as u16 };
    put_u16(out, u);
}

pub fn put_u32(out: &mut Vec<u8>, x: u32)
    ensures
        final(out)@ == old(out)@ + be32(x),
{
    out.push((x / 0x100_0000) as u8);
    out.push(((x / 0x1_0000) % 256) as u8);
    out.push(((x / 256) % 256) as u8);
    out.push((x % 256) as u8);
    assert(final(out)@ =~= old(out)@ + be32(x));
}

pub fn put_i8(out: &mut Vec<u8>, x: i8)
    ensures
        final(out)@ == old(out)@ + seq![i8_byte(x)],
{
    let b: u8 = if x < 0 { (x as i16 + 256) as u8 } else { x as u8 };
    put_u8(out, b);
}

pub fn get_i8(b: u8) -> (r: i8)
    ensures
        r == i8_from(b),
{
    if b >= 128 { (b as i16 - 256) as i8 } else { b as i8 }
}

pub fn put_bool(out: &mut Vec<u8>, b: bool)
    ensures
        final(out)@ == old(out)@ + seq![bool_byte(b)],
{
    put_u8(out, if b { 1 } else { 0 });
}

/// Appends every byte of `b`.
pub fn put_bytes(out: &mut Vec<u8>, b: &[u8])
    ensures
        final(out)@ == old(out)@ + b@,
{
    let mut i: usize = 0;
    while i < b.len()
        invariant
            i <= b@.len(),
            out@ == old(out)@ + b@.subrange(0, i as int),
        decreases b@.len() - i,
    {
        out.push(b[i]);
        i += 1;
        assert(out@ =~= old(out)@ + b@.subrange(0, i as int));
    }
    assert(b@.subrange(0, i as int) =~= b@);
}

pub fn get_u16(d: &[u8], p: usize) -> (r: u16)
    requires
        p + 2 <= d.len(),
    ensures
        r == u16_at(d@, p as int),
{
    (d[p] as u16) * 256 + (d[p + 1] as u16)
}

pub fn get_i16(d: &[u8], p: usize) -> (r: i16)
    requires
        p + 2 <= d.len(),
    ensures
        r == i16_at(d@, p as int),
{
    let u = get_u16(d, p);
    if u >= 0x8000 { (u as i32 - 0x1_0000) as i16 } else { u as i16 }
}

pub fn get_u32(d: &[u8], p: usize) -> (r: u32)
    requires
        p + 4 <= d.len(),
    ensures
        r == u32_at(d@, p as int),
{
    (d[p] as u32) * 0x100_0000 + (d[p + 1] as u32) * 0x1_0000 + (d[p + 2] as u32) * 256 + (
    d[p + 3] as u32)
}

pub fn get_bool(b: u8) -> (r: Option<bool>)
    ensures
        r == bool_from(b),
{
    if b == 0 {
        Some(false)
    } else if b == 1 {
        Some(true)
    } else {
        None
    }
}

/// The bytes `d[p..q]` as a fresh vector.
pub fn get_bytes(d: &[u8], p: usize, q: usize) -> (r: Vec<u8>)
    requires
        p <= q <= d@.len(),
    ensures
        r@ == d@.subrange(p as int, q as int),
{
    vstd::slice::slice_to_vec(&d[p..q])
}

pub fn get_array4(d: &[u8], p: usize) -> (r: [u8; 4])
    requires
        p + 4 <= d.len(),
    ensures
        r@ == d@.subrange(p as int, p + 4),
{
    let r = [d[p], d[p + 1], d[p + 2], d[p + 3]];
    assert(r@ =~= d@.subrange(p as int, p + 4));
    r
}

pub fn get_array3(d: &[u8], p: usize) -> (r: [u8; 3])
    requires
        p + 3 <= d.len(),
    ensures
        r@ == d@.subrange(p as int, p + 3),
{
    let r = [d[p], d[p + 1], d[p + 2]];
    assert(r@ =~= d@.subrange(p as int, p + 3));
    r
}

// ---------------------------------------------------------------------------
// Fixed-capacity text
// ---------------------------------------------------------------------------

/// Bytes read from the wire become characters one for one (code points 0 to 255).
pub open spec fn latin1(b: Seq<u8>) -> Seq<char> {
    b.map_values(|x: u8| x as char)
}

/// Wire form of a text field of capacity `cap`: its UTF-8 bytes cut to `cap`,
/// then one NUL when fewer than `cap` bytes are left.
pub open spec fn text_bytes(s: Seq<char>, cap: nat) -> Seq<u8> {
    let b = encode_utf8(s);
    let t = if b.len() > cap { b.subrange(0, cap as int) } else { b };
    if t.len() < cap { t.push(0u8) } else { t }
}

/// The number of characters of the text field at `p`: the bytes before the
/// first NUL, at most `cap`; `None` when the payload ends first.
pub open spec fn cstr_len(d: Seq<u8>, p: int, k: nat, cap: nat) -> Option<nat>
    decreases cap - k,
{
    if k >= cap {
        Some(k)
    } else if p + k >= d.len() {
        None
    } else if d[p + k] == 0 {
        Some(k)
    } else {
        cstr_len(d, p, k + 1, cap)
    }
}

/// The text field of capacity `cap` at `p`, with the position that follows it
/// (after its NUL, when it has one).
pub open spec fn text_at(d: Seq<u8>, p: int, cap: nat) -> Result<(Seq<char>, int), CodecError> {
    match cstr_len(d, p, 0, cap) {
        None => Err(CodecError::Incomplete),
        Some(n) => Ok(
            (latin1(d.subrange(p, p + n)), if n < cap { p + n + 1 } else { p + n }),
        ),
    }
}

/// Text that survives a trip through a field of capacity `cap`: ASCII, with no
/// NUL, and no longer than the field.
pub open spec fn text_fits(s: Seq<char>, cap: nat) -> bool {
    &&& s.len() <= cap
    &&& forall|i: int| 0 <= i < s.len() ==> '\u{1}' <= #[trigger] s[i] <= '\u{7f}'
}

/// Relies on String::push: appends one character at the end.
#[verifier::external_body]
fn push_char(s: &mut String, c: char)
    ensures
        final(s)@ == old(s)@.push(c),
{
    s.push(c)
}

proof fn lemma_cstr_len_step(d: Seq<u8>, p: int, k: nat, cap: nat)
    requires
        k < cap,
        p + k < d.len(),
        d[p + k] != 0,
    ensures
        cstr_len(d, p, k, cap) == cstr_len(d, p, k + 1, cap),
{
}

/// Reads the text field of capacity `cap` at `p`: bytes up to the first NUL or
/// up to `cap` bytes, each taken as one character. Returns the text and the
/// position after the field.
pub fn read_fixed_size_cstr(d: &[u8], p: usize, cap: usize) -> (r: Result<
    (String, usize),
    CodecError,
>)
    requires
        p <= d@.len(),
    ensures
        match r {
            Ok((s, q)) => text_at(d@, p as int, cap as nat) == Ok::<(Seq<char>, int), CodecError>(
                (s@, q as int),
            )
                && p <= q <= d@.len(),
            Err(e) => text_at(d@, p as int, cap as nat) == Err::<(Seq<char>, int), CodecError>(e),
        },
{
    let mut s = String::new();
    let mut k: usize = 0;
    while k < cap
        invariant
            p <= d@.len(),
            k <= cap,
            p + k <= d.len(),
            cstr_len(d@, p as int, k as nat, cap as nat) == cstr_len(d@, p as int, 0, cap as nat),
            s@ == latin1(d@.subrange(p as int, p + k)),
        decreases cap - k,
    {
        if k == d.len() - p {
            return Err(CodecError::Incomplete);
        }
        let b = d[p + k];
        if b == 0 {
            return Ok((s, p + k + 1));
        }
        proof {
            lemma_cstr_len_step(d@, p as int, k as nat, cap as nat);
        }
        push_char(&mut s, b as char);
        k += 1;
        assert(s@ =~= latin1(d@.subrange(p as int, p + k)));
    }
    Ok((s, p + k))
}

/// Appends the text field of capacity `cap` holding `s`.
pub fn write_fixed_size_cstr(out: &mut Vec<u8>, s: &str, cap: usize)
    ensures
        final(out)@ == old(out)@ + text_bytes(s@, cap as nat),
{
    let b = s.as_bytes();
    let n = if b.len() > cap { cap } else { b.len() };
    put_bytes(out, &b[0..n]);
    if n < cap {
        out.push(0u8);
    }
    assert(final(out)@ =~= old(out)@ + text_bytes(s@, cap as nat));
}

/// A text field that fits is read back exactly, wherever it stands.
pub proof fn lemma_text_round_trip(d: Seq<u8>, p: int, s: Seq<char>, cap: nat)
    requires
        text_fits(s, cap),
        0 <= p,
        p + text_bytes(s, cap).len() <= d.len(),
        d.subrange(p, p + text_bytes(s, cap).len()) == text_bytes(s, cap),
    ensures
        text_at(d, p, cap) == Ok::<(Seq<char>, int), CodecError>(
            (s, p + text_bytes(s, cap).len()),
        ),
{
    vstd::utf8::is_ascii_chars_encode_utf8(s);
    assert(vstd::utf8::is_ascii_chars(s));
    let b = encode_utf8(s);
    let tb = text_bytes(s, cap);
    assert(b.len() == s.len());
    assert forall|i: int| 0 <= i < s.len() implies #[trigger] d[p + i] == s[i] as u8 && d[p + i]
        != 0 by {
        assert(tb[i] == b[i]);
        assert(d.subrange(p, p + tb.len())[i] == d[p + i]);
        assert(s[i] as u8 != 0) by {
            assert('\u{1}' <= s[i]);
        }
    }
    if s.len() < cap {
        assert(tb[s.len() as int] == 0);
        assert(d.subrange(p, p + tb.len())[s.len() as int] == d[p + s.len()]);
    }
    lemma_cstr_len_scan(d, p, s.len(), cap, 0);
    assert(latin1(d.subrange(p, p + s.len())) =~= s) by {
        assert forall|i: int| 0 <= i < s.len() implies (d[p + i] as char) == s[i] by {
            let c = s[i];
            assert((c as u8) as char == c) by {
                assert('\u{1}' <= c <= '\u{7f}');
            }
        }
    }
}

proof fn lemma_cstr_len_scan(d: Seq<u8>, p: int, n: nat, cap: nat, k: nat)
    requires
        n <= cap,
        k <= n,
        0 <= p,
        p + n <= d.len(),
        forall|i: int| 0 <= i < n ==> #[trigger] d[p + i] != 0,
        n < cap ==> p + n < d.len() && d[p + n] == 0,
    ensures
        cstr_len(d, p, k, cap) == Some(n),
    decreases n - k,
{
    if k < n {
        assert(d[p + k] != 0);
        lemma_cstr_len_scan(d, p, n, cap, k + 1);
    }
}

} // verus!
