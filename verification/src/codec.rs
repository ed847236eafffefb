//! The binary record format for persisted configuration values.
//!
//! Every configuration domain is stored as one flat byte record. The
//! format is little-endian and length-prefixed throughout; text is
//! stored one code point per 32-bit word, so decoding never depends on
//! the platform's text encoding. Each primitive comes as a triple: a
//! spec-level encoding, a spec-level decoder, and executable
//! counterparts proved against them. Decoders reject out-of-range
//! values, so a corrupt record decodes to `None` rather than to a
//! malformed value.

use vstd::prelude::*;

verus! {

// ----------------------------------------------------------------
// u8
// ----------------------------------------------------------------
/// Spec encoding of one byte: the byte itself.
pub open spec fn spec_enc_u8(x: u8) -> Seq<u8> {
    seq![x]
}

/// Spec decoder for one byte at `pos`: the byte and the next position.
pub open spec fn spec_dec_u8(b: Seq<u8>, pos: int) -> Option<(u8, int)> {
    if 0 <= pos && pos + 1 <= b.len() {
        Some((b[pos], pos + 1))
    } else {
        None
    }
}

/// Appends the encoding of `x` to `out`.
pub fn push_u8(out: &mut Vec<u8>, x: u8)
    ensures
        final(out)@ == old(out)@ + spec_enc_u8(x),
{
    out.push(x);
    assert(out@ =~= old(out)@ + spec_enc_u8(x));
}

/// Reads one byte at `pos`, as the spec decoder does.
pub fn read_u8(b: &[u8], pos: usize) -> (r: Option<(u8, usize)>)
    ensures
        match r {
            Some((x, p)) => spec_dec_u8(b@, pos as int) == Some((x, p as int)),
            None => spec_dec_u8(b@, pos as int) is None,
        },
{
    if pos < b.len() {
        Some((b[pos], pos + 1))
    } else {
        None
    }
}

// ----------------------------------------------------------------
// u32, little-endian
// ----------------------------------------------------------------
/// Spec encoding of a 32-bit word: four bytes, least significant first.
pub open spec fn spec_enc_u32(x: u32) -> Seq<u8> {
    seq![
        (x & 0xff) as u8,
        ((x >> 8) & 0xff) as u8,
        ((x >> 16) & 0xff) as u8,
        ((x >> 24) & 0xff) as u8,
    ]
}

/// Spec-level reassembly of four little-endian bytes.
pub open spec fn spec_u32_of_bytes(b0: u8, b1: u8, b2: u8, b3: u8) -> u32 {
    (b0 as u32) | ((b1 as u32) << 8) | ((b2 as u32) << 16) | ((b3 as u32) << 24)
}

/// Spec decoder for a 32-bit word at `pos`.
pub open spec fn spec_dec_u32(b: Seq<u8>, pos: int) -> Option<(u32, int)> {
    if 0 <= pos && pos + 4 <= b.len() {
        Some((spec_u32_of_bytes(b[pos], b[pos + 1], b[pos + 2], b[pos + 3]), pos + 4))
    } else {
        None
    }
}

/// Appends the encoding of `x` to `out`.
pub fn push_u32(out: &mut Vec<u8>, x: u32)
    ensures
        final(out)@ == old(out)@ + spec_enc_u32(x),
{
    proof {
        lemma_u32_byte_masks(x);
    }
    out.push((x & 0xff) as u8);
    out.push(((x >> 8) & 0xff) as u8);
    out.push(((x >> 16) & 0xff) as u8);
    out.push(((x >> 24) & 0xff) as u8);
    assert(out@ =~= old(out)@ + spec_enc_u32(x));
}

/// Reads a 32-bit word at `pos`, as the spec decoder does.
pub fn read_u32(b: &[u8], pos: usize) -> (r: Option<(u32, usize)>)
    ensures
        match r {
            Some((x, p)) => spec_dec_u32(b@, pos as int) == Some((x, p as int)),
            None => spec_dec_u32(b@, pos as int) is None,
        },
{
    if pos <= b.len() && b.len() - pos >= 4 {
        let x = (b[pos] as u32) | ((b[pos + 1] as u32) << 8) | ((b[pos + 2] as u32) << 16) | ((b[
            pos + 3] as u32) << 24);
        Some((x, pos + 4))
    } else {
        None
    }
}

/// The masked shifts taken by the encoder all fit in one byte.
proof fn lemma_u32_byte_masks(x: u32)
    ensures
        x & 0xff < 256,
        (x >> 8) & 0xff < 256,
        (x >> 16) & 0xff < 256,
        (x >> 24) & 0xff < 256,
{
    assert(x & 0xff < 256 && (x >> 8) & 0xff < 256 && (x >> 16) & 0xff < 256 && (x >> 24) & 0xff
        < 256) by (bit_vector);
}

/// Law: reassembling the four encoded bytes yields the word back.
pub proof fn lemma_u32_round_trip(x: u32, prefix: Seq<u8>, suffix: Seq<u8>)
    ensures
        spec_dec_u32(prefix + spec_enc_u32(x) + suffix, prefix.len() as int) == Some(
            (x, prefix.len() as int + 4),
        ),
{
    let b = prefix + spec_enc_u32(x) + suffix;
    let n = prefix.len() as int;
    assert(b[n] == (x & 0xff) as u8);
    assert(b[n + 1] == ((x >> 8) & 0xff) as u8);
    assert(b[n + 2] == ((x >> 16) & 0xff) as u8);
    assert(b[n + 3] == ((x >> 24) & 0xff) as u8);
    lemma_u32_reassemble(x);
}

/// Bit-level identity behind the 32-bit round trip.
proof fn lemma_u32_reassemble(x: u32)
    ensures
        spec_u32_of_bytes(
            (x & 0xff) as u8,
            ((x >> 8) & 0xff) as u8,
            ((x >> 16) & 0xff) as u8,
            ((x >> 24) & 0xff) as u8,
        ) == x,
{
    assert((((x & 0xff) as u8) as u32) | ((((x >> 8) & 0xff) as u8) as u32) << 8 | ((((x >> 16)
        & 0xff) as u8) as u32) << 16 | ((((x >> 24) & 0xff) as u8) as u32) << 24 == x)
        by (bit_vector);
}

// ----------------------------------------------------------------
// u64, little-endian
// ----------------------------------------------------------------
/// Spec encoding of a 64-bit word: eight bytes, least significant first.
pub open spec fn spec_enc_u64(x: u64) -> Seq<u8> {
    spec_enc_u32((x & 0xffff_ffff) as u32) + spec_enc_u32(((x >> 32) & 0xffff_ffff) as u32)
}

/// Spec decoder for a 64-bit word at `pos`: two 32-bit halves.
pub open spec fn spec_dec_u64(b: Seq<u8>, pos: int) -> Option<(u64, int)> {
    match spec_dec_u32(b, pos) {
        Some((lo, p1)) => match spec_dec_u32(b, p1) {
            Some((hi, p2)) => Some(((lo as u64) | ((hi as u64) << 32), p2)),
            None => None,
        },
        None => None,
    }
}

/// Appends the encoding of `x` to `out`.
pub fn push_u64(out: &mut Vec<u8>, x: u64)
    ensures
        final(out)@ == old(out)@ + spec_enc_u64(x),
{
    proof {
        lemma_u64_halves(x);
    }
    push_u32(out, (x & 0xffff_ffff) as u32);
    push_u32(out, ((x >> 32) & 0xffff_ffff) as u32);
    assert(out@ =~= old(out)@ + spec_enc_u64(x));
}

/// Reads a 64-bit word at `pos`, as the spec decoder does.
pub fn read_u64(b: &[u8], pos: usize) -> (r: Option<(u64, usize)>)
    ensures
        match r {
            Some((x, p)) => spec_dec_u64(b@, pos as int) == Some((x, p as int)),
            None => spec_dec_u64(b@, pos as int) is None,
        },
{
    match read_u32(b, pos) {
        Some((lo, p1)) => match read_u32(b, p1) {
            Some((hi, p2)) => Some(((lo as u64) | ((hi as u64) << 32), p2)),
            None => None,
        },
        None => None,
    }
}

/// The two halves taken by the encoder fit in 32 bits.
proof fn lemma_u64_halves(x: u64)
    ensures
        x & 0xffff_ffff < 0x1_0000_0000,
        (x >> 32) & 0xffff_ffff < 0x1_0000_0000,
{
    assert(x & 0xffff_ffff < 0x1_0000_0000 && (x >> 32) & 0xffff_ffff < 0x1_0000_0000)
        by (bit_vector);
}

/// Law: reassembling the two encoded halves yields the word back.
pub proof fn lemma_u64_round_trip(x: u64, prefix: Seq<u8>, suffix: Seq<u8>)
    ensures
        spec_dec_u64(prefix + spec_enc_u64(x) + suffix, prefix.len() as int) == Some(
            (x, prefix.len() as int + 8),
        ),
{
    lemma_u64_halves(x);
    let lo = (x & 0xffff_ffff) as u32;
    let hi = ((x >> 32) & 0xffff_ffff) as u32;
    let b = prefix + spec_enc_u64(x) + suffix;
    assert(b =~= prefix + spec_enc_u32(lo) + (spec_enc_u32(hi) + suffix));
    lemma_u32_round_trip(lo, prefix, spec_enc_u32(hi) + suffix);
    assert(b =~= (prefix + spec_enc_u32(lo)) + spec_enc_u32(hi) + suffix);
    lemma_u32_round_trip(hi, prefix + spec_enc_u32(lo), suffix);
    assert((lo as u64) | ((hi as u64) << 32) == x) by {
        assert(((x & 0xffff_ffff) as u32 as u64) | ((((x >> 32) & 0xffff_ffff) as u32 as u64)
            << 32) == x) by (bit_vector);
    }
}

// ----------------------------------------------------------------
// text: a 64-bit character count, then one 32-bit word per character
// ----------------------------------------------------------------
/// True when a 32-bit word is a Unicode scalar value, i.e. the code
/// of some `char`.
pub open spec fn is_scalar_word(w: u32) -> bool {
    w < 0xD800 || (0xE000 <= w && w <= 0x10FFFF)
}

/// Relies on `char::from_u32` of core: it returns the character for
/// exactly the Unicode scalar values and nothing otherwise.
pub assume_specification[ char::from_u32 ](w: u32) -> (r: Option<char>)
    ensures
        is_scalar_word(w) ==> r == Some(w as char),
        !is_scalar_word(w) ==> r is None,
;

/// Relies on `String::push` of alloc: it appends one character.
pub assume_specification[ String::push ](s: &mut String, ch: char)
    ensures
        final(s)@ == old(s)@.push(ch),
;

/// True when a piece of text is short enough for its 64-bit count.
pub open spec fn text_fits(s: Seq<char>) -> bool {
    s.len() <= u64::MAX
}

/// Spec encoding of a character sequence: one 32-bit word each.
pub open spec fn spec_enc_chars(s: Seq<char>) -> Seq<u8>
    decreases s.len(),
{
    if s.len() == 0 {
        Seq::empty()
    } else {
        spec_enc_u32(s[0] as u32) + spec_enc_chars(s.drop_first())
    }
}

/// Spec encoding of text: the character count, then the characters.
pub open spec fn spec_enc_text(s: Seq<char>) -> Seq<u8> {
    spec_enc_u64(s.len() as u64) + spec_enc_chars(s)
}

/// Prepends already-decoded characters to a decoder outcome.
pub open spec fn spec_with_prefix(acc: Seq<char>, r: Option<(Seq<char>, int)>) -> Option<
    (Seq<char>, int),
> {
    match r {
        Some(t) => Some((acc + t.0, t.1)),
        None => None,
    }
}

/// Spec decoder for `count` characters at `pos`. A word that is no
/// Unicode scalar value makes the whole record undecodable.
pub open spec fn spec_dec_chars(b: Seq<u8>, pos: int, count: nat) -> Option<(Seq<char>, int)>
    decreases count,
{
    if count == 0 {
        Some((Seq::empty(), pos))
    } else {
        match spec_dec_u32(b, pos) {
            Some((w, p)) => if is_scalar_word(w) {
                spec_with_prefix(seq![w as char], spec_dec_chars(b, p, (count - 1) as nat))
            } else {
                None
            },
            None => None,
        }
    }
}

/// Spec decoder for text at `pos`.
pub open spec fn spec_dec_text(b: Seq<u8>, pos: int) -> Option<(Seq<char>, int)> {
    match spec_dec_u64(b, pos) {
        Some((n, p)) => spec_dec_chars(b, p, n as nat),
        None => None,
    }
}

/// The encoding of a character sequence takes four bytes per character.
pub proof fn lemma_enc_chars_len(s: Seq<char>)
    ensures
        spec_enc_chars(s).len() == 4 * s.len(),
    decreases s.len(),
{
    if s.len() > 0 {
        lemma_enc_chars_len(s.drop_first());
    }
}

/// Appending one character extends the encoding by its word.
proof fn lemma_enc_chars_push(s: Seq<char>, c: char)
    ensures
        spec_enc_chars(s.push(c)) == spec_enc_chars(s) + spec_enc_u32(c as u32),
    decreases s.len(),
{
    vstd::utf8::char_is_scalar(c);
    if s.len() == 0 {
        let t = s.push(c);
        assert(t[0] == c);
        assert(t.drop_first() =~= s);
        assert(spec_enc_chars(t) == spec_enc_u32(c as u32) + spec_enc_chars(t.drop_first()));
        assert(spec_enc_chars(t) =~= spec_enc_chars(s) + spec_enc_u32(c as u32));
    } else {
        assert(s.push(c)[0] == s[0]);
        assert(s.push(c).drop_first() =~= s.drop_first().push(c));
        lemma_enc_chars_push(s.drop_first(), c);
        assert(spec_enc_chars(s.push(c)) == spec_enc_u32(s[0] as u32) + (spec_enc_chars(
            s.drop_first(),
        ) + spec_enc_u32(c as u32)));
        assert(spec_enc_chars(s.push(c)) =~= spec_enc_chars(s) + spec_enc_u32(c as u32));
    }
}

/// Folding one decoded character into the accumulated prefix.
proof fn lemma_with_prefix_fold(acc: Seq<char>, c: char, r: Option<(Seq<char>, int)>)
    ensures
        spec_with_prefix(acc, spec_with_prefix(seq![c], r)) == spec_with_prefix(acc.push(c), r),
{
    match r {
        Some(t) => {
            assert(acc + (seq![c] + t.0) =~= acc.push(c) + t.0);
        },
        None => {},
    }
}

/// Appends the encoding of `s` to `out`.
pub fn push_text(out: &mut Vec<u8>, s: &str)
    ensures
        final(out)@ == old(out)@ + spec_enc_text(s@),
{
    let n = s.unicode_len();
    push_u64(out, n as u64);
    let mut i: usize = 0;
    while i < n
        invariant
            n == s@.len(),
            i <= n,
            out@ == old(out)@ + spec_enc_u64(n as u64) + spec_enc_chars(s@.take(i as int)),
        decreases n - i,
    {
        let c = s.get_char(i);
        push_u32(out, c as u32);
        proof {
            assert(s@.take(i + 1 as int) =~= s@.take(i as int).push(s@[i as int]));
            lemma_enc_chars_push(s@.take(i as int), c);
        }
        i = i + 1;
    }
    proof {
        assert(s@.take(n as int) =~= s@);
    }
}

/// Reads text at `pos`, as the spec decoder does.
pub fn read_text(b: &[u8], pos: usize) -> (r: Option<(String, usize)>)
    ensures
        match r {
            Some((s, p)) => spec_dec_text(b@, pos as int) == Some((s@, p as int)),
            None => spec_dec_text(b@, pos as int) is None,
        },
{
    let (n, start) = match read_u64(b, pos) {
        Some(t) => t,
        None => {
            return None;
        },
    };
    let mut s = String::new();
    let mut p = start;
    let mut i: u64 = 0;
    while i < n
        invariant
            i <= n,
            spec_dec_text(b@, pos as int) == spec_with_prefix(
                s@,
                spec_dec_chars(b@, p as int, (n - i) as nat),
            ),
        decreases n - i,
    {
        let (w, p2) = match read_u32(b, p) {
            Some(t) => t,
            None => {
                return None;
            },
        };
        let c = match char::from_u32(w) {
            Some(c) => c,
            None => {
                return None;
            },
        };
        proof {
            lemma_with_prefix_fold(s@, c, spec_dec_chars(b@, p2 as int, (n - i - 1) as nat));
        }
        s.push(c);
        p = p2;
        i = i + 1;
    }
    proof {
        assert(s@ + Seq::<char>::empty() =~= s@);
    }
    Some((s, p))
}

/// Law: decoding encoded text yields the text back and consumes
/// exactly its encoding.
pub proof fn lemma_text_round_trip(s: Seq<char>, prefix: Seq<u8>, suffix: Seq<u8>)
    requires
        text_fits(s),
    ensures
        spec_dec_text(prefix + spec_enc_text(s) + suffix, prefix.len() as int) == Some(
            (s, prefix.len() as int + spec_enc_text(s).len()),
        ),
{
    let b = prefix + spec_enc_text(s) + suffix;
    let n = s.len() as u64;
    assert(b =~= prefix + spec_enc_u64(n) + (spec_enc_chars(s) + suffix));
    lemma_u64_round_trip(n, prefix, spec_enc_chars(s) + suffix);
    lemma_chars_round_trip(s, prefix + spec_enc_u64(n), suffix);
    assert(prefix + spec_enc_u64(n) + spec_enc_chars(s) + suffix =~= b);
    lemma_enc_chars_len(s);
}

/// Law: decoding `s.len()` encoded characters yields them back.
proof fn lemma_chars_round_trip(s: Seq<char>, prefix: Seq<u8>, suffix: Seq<u8>)
    ensures
        spec_dec_chars(prefix + spec_enc_chars(s) + suffix, prefix.len() as int, s.len()) == Some(
            (s, prefix.len() as int + spec_enc_chars(s).len()),
        ),
    decreases s.len(),
{
    let b = prefix + spec_enc_chars(s) + suffix;
    if s.len() == 0 {
        assert(spec_enc_chars(s) =~= Seq::<u8>::empty());
    } else {
        let c = s[0];
        let rest = s.drop_first();
        assert(b =~= prefix + spec_enc_u32(c as u32) + (spec_enc_chars(rest) + suffix));
        vstd::utf8::char_is_scalar(c);
        vstd::utf8::char_u32_cast(c, c as u32);
        lemma_u32_round_trip(c as u32, prefix, spec_enc_chars(rest) + suffix);
        assert(is_scalar_word(c as u32));
        lemma_chars_round_trip(rest, prefix + spec_enc_u32(c as u32), suffix);
        assert(prefix + spec_enc_u32(c as u32) + spec_enc_chars(rest) + suffix =~= b);
        lemma_enc_chars_len(rest);
        assert(seq![(c as u32) as char] + rest =~= s);
    }
}

/// A decoded text fits the record format's 64-bit count, and ends
/// where its character count says.
pub proof fn lemma_dec_text_fits(b: Seq<u8>, pos: int)
    ensures
        spec_dec_text(b, pos) matches Some(t) ==> text_fits(t.0) && pos >= 0 && t.1 == pos + 8 + 4
            * t.0.len(),
{
    match spec_dec_u64(b, pos) {
        Some((n, p)) => {
            lemma_dec_chars_len(b, p, n as nat);
        },
        None => {},
    }
}

/// A successful character decode yields exactly `count` characters
/// and advances four bytes per character.
proof fn lemma_dec_chars_len(b: Seq<u8>, pos: int, count: nat)
    ensures
        spec_dec_chars(b, pos, count) matches Some(t) ==> t.0.len() == count && t.1
            == pos + 4 * count,
    decreases count,
{
    if count > 0 {
        match spec_dec_u32(b, pos) {
            Some((w, p)) => {
                lemma_dec_chars_len(b, p, (count - 1) as nat);
            },
            None => {},
        }
    }
}

} // verus!
