//! UTF-8 ⟷ UTF-16 transcoding for the clipboard text path.
//!
//! Clipboard text payloads carry UTF-16 code units (stored little-endian,
//! terminated by one zero unit); the crate's callers speak UTF-8. Encoding
//! turns each character into one unit or a surrogate pair; decoding is lossy:
//! an unpaired surrogate becomes the replacement character instead of an
//! error. Decoding then encoding a well-formed stream is proved to be the
//! identity ([`lemma_utf16_round_trip`]).

use vstd::prelude::*;
use vstd::arithmetic::div_mod::lemma_fundamental_div_mod;
use vstd::string::StrSliceExecFns;
use vstd::utf8::char_is_scalar;
use vstd::utf8::char_u32_cast;
use vstd::utf8::is_scalar;

verus! {

/// The replacement character emitted for unpaired surrogates.
pub const REPLACEMENT: char = '\u{FFFD}';

/// The UTF-16 code units of one character: one unit for values below
/// `0x10000`, otherwise a high/low surrogate pair.
pub open spec fn utf16_units(c: char) -> Seq<u16> {
    let v = c as u32;
    if v < 0x10000 {
        seq![v as u16]
    } else {
        seq![
            (0xD800 + ((v - 0x10000) / 0x400)) as u16,
            (0xDC00 + ((v - 0x10000) % 0x400)) as u16,
        ]
    }
}

/// The UTF-16 encoding of a character sequence.
pub open spec fn encode_utf16(s: Seq<char>) -> Seq<u16>
    decreases s.len(),
{
    if s.len() == 0 {
        Seq::<u16>::empty()
    } else {
        utf16_units(s[0]) + encode_utf16(s.drop_first())
    }
}

/// Whether `u` is a high (leading) surrogate.
pub open spec fn is_high_surrogate(u: u16) -> bool {
    0xD800 <= u < 0xDC00
}

/// Whether `u` is a low (trailing) surrogate.
pub open spec fn is_low_surrogate(u: u16) -> bool {
    0xDC00 <= u < 0xE000
}

/// Whether `u` is a surrogate of either kind.
pub open spec fn is_surrogate(u: u16) -> bool {
    0xD800 <= u < 0xE000
}

/// The scalar value encoded by a surrogate pair.
pub open spec fn combine_surrogates(hi: u16, lo: u16) -> u32 {
    (0x10000 + (hi - 0xD800) * 0x400 + (lo - 0xDC00)) as u32
}

/// Lossy UTF-16 decoding: a high surrogate followed by a low surrogate forms
/// one character; any unpaired surrogate becomes [`REPLACEMENT`].
pub open spec fn decode_utf16_lossy(u: Seq<u16>) -> Seq<char>
    decreases u.len(),
{
    if u.len() == 0 {
        Seq::<char>::empty()
    } else if is_high_surrogate(u[0]) && u.len() >= 2 && is_low_surrogate(u[1]) {
        seq![(combine_surrogates(u[0], u[1]) as char)] + decode_utf16_lossy(u.skip(2))
    } else if is_surrogate(u[0]) {
        seq![REPLACEMENT] + decode_utf16_lossy(u.skip(1))
    } else {
        seq![((u[0] as u32) as char)] + decode_utf16_lossy(u.skip(1))
    }
}

/// `s` with a single trailing NUL character removed, if one is present.
/// Stored texts are conventionally NUL-terminated; trimming one terminator
/// is defensive and never touches interior characters.
pub open spec fn trim_trailing_nul(s: Seq<char>) -> Seq<char> {
    if s.len() > 0 && s.last() == '\0' {
        s.drop_last()
    } else {
        s
    }
}

/// The little-endian byte image of a sequence of UTF-16 units.
pub open spec fn le_bytes_of_units(u: Seq<u16>) -> Seq<u8> {
    Seq::<u8>::new(
        2 * u.len(),
        |i: int|
            if i % 2 == 0 {
                (u[i / 2] % 256) as u8
            } else {
                (u[i / 2] / 256) as u8
            },
    )
}

/// The UTF-16 units stored in a little-endian byte image; a trailing odd
/// byte is ignored, as the platform's size-in-bytes division does.
pub open spec fn units_of_le_bytes(b: Seq<u8>) -> Seq<u16> {
    Seq::<u16>::new((b.len() / 2) as nat, |i: int| (b[2 * i] + 256 * b[2 * i + 1]) as u16)
}

/// The byte payload stored for a text `s`: its UTF-16 encoding plus one
/// terminating zero unit, as little-endian bytes.
pub open spec fn wide_payload(s: Seq<char>) -> Seq<u8> {
    le_bytes_of_units(encode_utf16(s).push(0u16))
}

/// Encoding distributes over concatenation.
pub proof fn lemma_encode_utf16_concat(a: Seq<char>, b: Seq<char>)
    ensures
        encode_utf16(a + b) == encode_utf16(a) + encode_utf16(b),
    decreases a.len(),
{
    if a.len() == 0 {
        assert(a + b =~= b);
        assert(encode_utf16(a) + encode_utf16(b) =~= encode_utf16(b));
    } else {
        assert((a + b).drop_first() =~= a.drop_first() + b);
        lemma_encode_utf16_concat(a.drop_first(), b);
        assert(utf16_units(a[0]) + (encode_utf16(a.drop_first()) + encode_utf16(b)) =~= (
        utf16_units(a[0]) + encode_utf16(a.drop_first())) + encode_utf16(b));
    }
}

/// The encoding of a single character is its unit sequence.
pub proof fn lemma_encode_utf16_single(c: char)
    ensures
        encode_utf16(seq![c]) == utf16_units(c),
{
    let s = seq![c];
    assert(s.len() == 1 && s[0] == c);
    assert(s.drop_first() =~= Seq::<char>::empty());
    assert(encode_utf16(Seq::<char>::empty()) == Seq::<u16>::empty());
    assert(encode_utf16(s) == utf16_units(c) + Seq::<u16>::empty());
    assert(utf16_units(c) + Seq::<u16>::empty() =~= utf16_units(c));
}

/// Decoding a well-formed encoding followed by arbitrary trailing units
/// yields the encoded characters followed by the decoding of the tail.
pub proof fn lemma_decode_prepend(s: Seq<char>, tail: Seq<u16>)
    ensures
        decode_utf16_lossy(encode_utf16(s) + tail) == s + decode_utf16_lossy(tail),
    decreases s.len(),
{
    if s.len() == 0 {
        assert(encode_utf16(s) + tail =~= tail);
        assert(s + decode_utf16_lossy(tail) =~= decode_utf16_lossy(tail));
    } else {
        let c = s[0];
        let v = c as u32;
        char_is_scalar(c);
        assert(is_scalar(v));
        let u = encode_utf16(s) + tail;
        assert(encode_utf16(s) == utf16_units(c) + encode_utf16(s.drop_first()));
        let rest = encode_utf16(s.drop_first()) + tail;
        if v < 0x10000 {
            assert(u[0] == (v as u16));
            assert(!is_surrogate(u[0]));
            assert(u.skip(1) =~= rest);
            assert((u[0] as u32) == v);
            char_u32_cast(c, v);
            lemma_decode_prepend(s.drop_first(), tail);
            assert(decode_utf16_lossy(u) == seq![c] + (s.drop_first() + decode_utf16_lossy(
                tail,
            )));
            assert(seq![c] + (s.drop_first() + decode_utf16_lossy(tail)) =~= s
                + decode_utf16_lossy(tail));
        } else {
            let w = v - 0x10000;
            assert(0 <= w <= 0xFFFFF);
            assert(0 <= w / 0x400 <= 0x3FF) by {
                lemma_fundamental_div_mod(w, 0x400);
            }
            assert(0 <= w % 0x400 < 0x400);
            let hi = (0xD800 + w / 0x400) as u16;
            let lo = (0xDC00 + w % 0x400) as u16;
            assert(u[0] == hi && u[1] == lo);
            assert(is_high_surrogate(hi) && is_low_surrogate(lo));
            assert(combine_surrogates(hi, lo) == v) by {
                lemma_fundamental_div_mod(w, 0x400);
            }
            char_u32_cast(c, v);
            assert(u.skip(2) =~= rest);
            lemma_decode_prepend(s.drop_first(), tail);
            assert(decode_utf16_lossy(u) == seq![c] + (s.drop_first() + decode_utf16_lossy(
                tail,
            )));
            assert(seq![c] + (s.drop_first() + decode_utf16_lossy(tail)) =~= s
                + decode_utf16_lossy(tail));
        }
    }
}

/// Decoding inverts encoding: UTF-16 transcoding loses nothing.
pub proof fn lemma_utf16_round_trip(s: Seq<char>)
    ensures
        decode_utf16_lossy(encode_utf16(s)) == s,
{
    lemma_decode_prepend(s, Seq::<u16>::empty());
    assert(encode_utf16(s) + Seq::<u16>::empty() =~= encode_utf16(s));
    assert(s + decode_utf16_lossy(Seq::<u16>::empty()) =~= s);
}

/// Packing units as little-endian bytes and reading them back is the identity.
pub proof fn lemma_units_le_round_trip(u: Seq<u16>)
    ensures
        units_of_le_bytes(le_bytes_of_units(u)) == u,
{
    let b = le_bytes_of_units(u);
    assert(b.len() == 2 * u.len());
    assert forall|i: int| 0 <= i < u.len() implies units_of_le_bytes(b)[i] == u[i] by {
        assert((2 * i) % 2 == 0 && (2 * i) / 2 == i);
        assert((2 * i + 1) % 2 == 1 && (2 * i + 1) / 2 == i);
        assert(b[2 * i] == (u[i] % 256) as u8);
        assert(b[2 * i + 1] == (u[i] / 256) as u8);
        lemma_fundamental_div_mod(u[i] as int, 256);
    }
    assert(units_of_le_bytes(b) =~= u);
}

/// Round trip of the whole text path: store any text as a NUL-terminated
/// little-endian UTF-16 payload, read the payload back, decode it lossily,
/// and trim the one trailing NUL — the very same text returns.
pub proof fn lemma_string_round_trip(s: Seq<char>)
    ensures
        trim_trailing_nul(decode_utf16_lossy(units_of_le_bytes(wide_payload(s)))) == s,
{
    let u = encode_utf16(s).push(0u16);
    lemma_units_le_round_trip(u);
    assert(u =~= encode_utf16(s) + seq![0u16]);
    lemma_decode_prepend(s, seq![0u16]);
    assert(decode_utf16_lossy(seq![0u16]) =~= seq!['\0']) by {
        let z = seq![0u16];
        assert(z.len() == 1 && z[0] == 0u16);
        assert(!is_surrogate(z[0]));
        assert(z.skip(1) =~= Seq::<u16>::empty());
        assert(decode_utf16_lossy(Seq::<u16>::empty()) == Seq::<char>::empty());
        assert(('\0' as u32) == 0u32);
        char_u32_cast('\0', 0u32);
        assert(decode_utf16_lossy(z) == seq!['\0'] + Seq::<char>::empty());
    }
    let d = s + seq!['\0'];
    assert(d.len() > 0 && d.last() == '\0');
    assert(d.drop_last() =~= s);
}

/// UTF-8 encoding distributes over concatenation.
pub proof fn lemma_encode_utf8_concat(a: Seq<char>, b: Seq<char>)
    ensures
        vstd::utf8::encode_utf8(a + b) == vstd::utf8::encode_utf8(a) + vstd::utf8::encode_utf8(
            b,
        ),
    decreases a.len(),
{
    if a.len() == 0 {
        assert(a + b =~= b);
        assert(vstd::utf8::encode_utf8(a) + vstd::utf8::encode_utf8(b) =~= vstd::utf8::encode_utf8(
            b,
        ));
    } else {
        assert((a + b).drop_first() =~= a.drop_first() + b);
        lemma_encode_utf8_concat(a.drop_first(), b);
        assert(vstd::utf8::encode_scalar(a[0] as u32) + (vstd::utf8::encode_utf8(a.drop_first())
            + vstd::utf8::encode_utf8(b)) =~= (vstd::utf8::encode_scalar(a[0] as u32)
            + vstd::utf8::encode_utf8(a.drop_first())) + vstd::utf8::encode_utf8(b));
    }
}

/// Converts a scalar value into the character it denotes.
///
/// Relies on `char::from_u32`: it returns `Some` exactly for valid Unicode
/// scalar values (neither surrogates nor values past the last code point),
/// and the returned character has the given value.
#[verifier::external_body]
fn char_from_u32(v: u32) -> (r: Option<char>)
    ensures
        r matches Some(c) ==> c as u32 == v,
        r is Some <==> (v < 0xD800 || (0xE000 <= v && v < 0x110000)),
{
    char::from_u32(v)
}

/// The length of a string in UTF-8 bytes.
///
/// Relies on `String::len`: it returns the string's length in bytes. The
/// contract adds the machine fact that a live string's byte length always
/// fits the machine word; the standard library's own specification of
/// `str::len` states the length only up to a truncating cast, which is why
/// this one call is taken on trust instead.
#[verifier::external_body]
pub(crate) fn string_byte_len(s: &String) -> (r: usize)
    ensures
        r == vstd::utf8::encode_utf8(s@).len(),
{
    s.len()
}

/// Appends one character to a string.
///
/// Relies on `String::push`: it appends the given character to the end of
/// the string.
#[verifier::external_body]
fn push_char(s: &mut String, c: char)
    ensures
        final(s)@ == old(s)@.push(c),
{
    s.push(c);
}

/// The UTF-16 encoding of `data`, without a terminator.
pub fn encode_wide(data: &str) -> (r: Vec<u16>)
    ensures
        r@ == encode_utf16(data@),
{
    let n = data.unicode_len();
    let mut out: Vec<u16> = Vec::new();
    let mut i: usize = 0;
    proof {
        assert(data@.take(0) =~= Seq::<char>::empty());
    }
    while i < n
        invariant
            n == data@.len(),
            0 <= i <= n,
            out@ == encode_utf16(data@.take(i as int)),
        decreases n - i,
    {
        let c = data.get_char(i);
        let v = c as u32;
        proof {
            char_is_scalar(c);
        }
        if v < 0x10000 {
            out.push(v as u16);
        } else {
            let w = v - 0x10000;
            out.push((0xD800 + w / 0x400) as u16);
            out.push((0xDC00 + w % 0x400) as u16);
        }
        proof {
            assert(data@.take(i + 1int) =~= data@.take(i as int) + seq![c]);
            lemma_encode_utf16_concat(data@.take(i as int), seq![c]);
            lemma_encode_utf16_single(c);
            assert(out@ =~= encode_utf16(data@.take(i as int)) + utf16_units(c));
        }
        i = i + 1;
    }
    proof {
        assert(data@.take(n as int) =~= data@);
    }
    out
}

/// Decodes UTF-16 units lossily and appends every decoded character to
/// `out`. Returns nothing; the contract pins the appended characters.
pub fn decode_wide_append(units: &Vec<u16>, out: &mut String)
    ensures
        final(out)@ == old(out)@ + decode_utf16_lossy(units@),
{
    let n = units.len();
    let mut i: usize = 0;
    let ghost mut taken: Seq<char> = Seq::<char>::empty();
    proof {
        assert(old(out)@ + taken =~= old(out)@);
        assert(units@.skip(0) =~= units@);
        assert(taken + decode_utf16_lossy(units@) =~= decode_utf16_lossy(units@));
    }
    while i < n
        invariant
            n == units@.len(),
            0 <= i <= n,
            out@ == old(out)@ + taken,
            decode_utf16_lossy(units@) == taken + decode_utf16_lossy(units@.skip(i as int)),
        decreases n - i,
    {
        let ghost rest = units@.skip(i as int);
        let u0 = units[i];
        let mut step: usize = 1;
        let c: char;
        if 0xD800 <= u0 && u0 < 0xDC00 && i + 1 < n && 0xDC00 <= units[i + 1] && units[i + 1]
            < 0xE000 {
            let u1 = units[i + 1];
            let v = 0x10000 + (u0 as u32 - 0xD800) * 0x400 + (u1 as u32 - 0xDC00);
            c = match char_from_u32(v) {
                Some(c) => c,
                None => {
                    proof {
                        assert(false);
                    }
                    REPLACEMENT
                },
            };
            step = 2;
            proof {
                assert(rest[0] == u0 && rest[1] == u1);
                assert(rest.len() >= 2);
                assert(is_high_surrogate(rest[0]) && is_low_surrogate(rest[1]));
                assert(v == combine_surrogates(u0, u1));
                assert((combine_surrogates(rest[0], rest[1]) as char) == c) by {
                    char_u32_cast(c, v);
                }
                assert(decode_utf16_lossy(rest) == seq![c] + decode_utf16_lossy(rest.skip(2)));
            }
        } else if 0xD800 <= u0 && u0 < 0xE000 {
            c = REPLACEMENT;
            proof {
                assert(rest[0] == u0);
                assert(is_surrogate(rest[0]));
                if is_high_surrogate(rest[0]) && rest.len() >= 2 && is_low_surrogate(rest[1]) {
                    assert(rest[1] == units@[i + 1]);
                    assert(false);
                }
                assert(decode_utf16_lossy(rest) == seq![REPLACEMENT] + decode_utf16_lossy(
                    rest.skip(1),
                ));
            }
        } else {
            c = match char_from_u32(u0 as u32) {
                Some(c) => c,
                None => {
                    proof {
                        assert(false);
                    }
                    REPLACEMENT
                },
            };
            proof {
                assert(rest[0] == u0);
                assert(!is_surrogate(rest[0]));
                assert((rest[0] as u32) as char == c) by {
                    char_u32_cast(c, u0 as u32);
                }
                assert(decode_utf16_lossy(rest) == seq![c] + decode_utf16_lossy(rest.skip(1)));
            }
        }
        proof {
            assert(rest.skip(step as int) =~= units@.skip(i + step as int));
        }
        push_char(out, c);
        proof {
            assert(decode_utf16_lossy(rest) == seq![c] + decode_utf16_lossy(
                units@.skip(i + step as int),
            ));
            taken = taken.push(c);
            assert(out@ =~= old(out)@ + taken);
            assert(taken + decode_utf16_lossy(units@.skip(i + step as int)) =~= (
            taken.drop_last()) + (seq![c] + decode_utf16_lossy(units@.skip(i + step as int))));
        }
        i = i + step;
    }
    proof {
        assert(units@.skip(n as int) =~= Seq::<u16>::empty());
        assert(taken + Seq::<char>::empty() =~= taken);
        assert(out@ =~= old(out)@ + decode_utf16_lossy(units@));
    }
}

/// The little-endian byte image of a unit buffer.
pub fn le_bytes_vec(units: &Vec<u16>) -> (r: Vec<u8>)
    ensures
        r@ == le_bytes_of_units(units@),
{
    let n = units.len();
    let mut out: Vec<u8> = Vec::new();
    let mut i: usize = 0;
    proof {
        assert(out@ =~= le_bytes_of_units(units@.take(0)));
    }
    while i < n
        invariant
            n == units@.len(),
            0 <= i <= n,
            out@ == le_bytes_of_units(units@.take(i as int)),
        decreases n - i,
    {
        let u = units[i];
        out.push((u % 256) as u8);
        out.push((u / 256) as u8);
        proof {
            assert(out@ =~= le_bytes_of_units(units@.take(i + 1int))) by {
                let prev = le_bytes_of_units(units@.take(i as int));
                let next = le_bytes_of_units(units@.take(i + 1int));
                assert(next.len() == prev.len() + 2);
                assert forall|j: int| 0 <= j < next.len() implies out@[j] == next[j] by {
                    if j < prev.len() {
                        assert(units@.take(i + 1int)[j / 2] == units@.take(i as int)[j / 2]);
                    } else {
                        assert(j / 2 == i as int);
                        assert(units@.take(i + 1int)[i as int] == u);
                    }
                }
            }
        }
        i = i + 1;
    }
    proof {
        assert(units@.take(n as int) =~= units@);
    }
    out
}

/// The UTF-16 units stored in a little-endian byte buffer; a trailing odd
/// byte is ignored.
pub fn units_from_le_bytes(bytes: &Vec<u8>) -> (r: Vec<u16>)
    ensures
        r@ == units_of_le_bytes(bytes@),
{
    let len = bytes.len();
    let n = len / 2;
    let mut out: Vec<u16> = Vec::new();
    let mut i: usize = 0;
    while i < n
        invariant
            len == bytes@.len(),
            n == len / 2,
            0 <= i <= n,
            out@.len() == i,
            forall|j: int| 0 <= j < i ==> out@[j] == units_of_le_bytes(bytes@)[j],
        decreases n - i,
    {
        proof {
            assert(2 * (i as int) + 1 < len as int);
        }
        let lo = bytes[2 * i];
        let hi = bytes[2 * i + 1];
        let u: u16 = lo as u16 + 256 * (hi as u16);
        out.push(u);
        i = i + 1;
    }
    proof {
        assert(out@ =~= units_of_le_bytes(bytes@));
    }
    out
}

/// The prefix of a unit sequence before its first zero unit.
pub open spec fn before_nul_units(u: Seq<u16>) -> Seq<u16>
    decreases u.len(),
{
    if u.len() == 0 {
        u
    } else if u[0] == 0 {
        Seq::<u16>::empty()
    } else {
        seq![u[0]] + before_nul_units(u.drop_first())
    }
}

/// Trimming at the first zero unit skips over a zero-free prefix.
pub proof fn lemma_before_nul_units_concat(a: Seq<u16>, b: Seq<u16>)
    requires
        !a.contains(0u16),
    ensures
        before_nul_units(a + b) == a + before_nul_units(b),
    decreases a.len(),
{
    if a.len() == 0 {
        assert(a + b =~= b);
        assert(a + before_nul_units(b) =~= before_nul_units(b));
    } else {
        assert(a[0] != 0);
        assert((a + b)[0] == a[0]);
        assert((a + b).drop_first() =~= a.drop_first() + b);
        assert(!a.drop_first().contains(0u16)) by {
            if a.drop_first().contains(0u16) {
                let i = choose|i: int|
                    0 <= i < a.drop_first().len() && a.drop_first()[i] == 0u16;
                assert(a[i + 1] == 0u16);
            }
        }
        lemma_before_nul_units_concat(a.drop_first(), b);
        assert(seq![a[0]] + (a.drop_first() + before_nul_units(b)) =~= a + before_nul_units(b));
    }
}

/// The encoding of a NUL-free text contains no zero unit.
pub proof fn lemma_encode_utf16_no_nul(s: Seq<char>)
    requires
        !s.contains('\0'),
    ensures
        !encode_utf16(s).contains(0u16),
    decreases s.len(),
{
    if s.len() > 0 {
        let c = s[0];
        char_is_scalar(c);
        assert(c != '\0');
        assert((c as u32) != 0) by {
            if (c as u32) == 0 {
                char_u32_cast(c, 0u32);
                char_u32_cast('\0', 0u32);
            }
        }
        assert(!utf16_units(c).contains(0u16));
        assert(!s.drop_first().contains('\0')) by {
            if s.drop_first().contains('\0') {
                let i = choose|i: int|
                    0 <= i < s.drop_first().len() && s.drop_first()[i] == '\0';
                assert(s[i + 1] == '\0');
            }
        }
        lemma_encode_utf16_no_nul(s.drop_first());
        assert forall|i: int| 0 <= i < encode_utf16(s).len() implies encode_utf16(s)[i]
            != 0u16 by {
            assert(encode_utf16(s) == utf16_units(c) + encode_utf16(s.drop_first()));
            if i >= utf16_units(c).len() {
                assert(encode_utf16(s.drop_first())[i - utf16_units(c).len()] != 0u16);
            }
        }
    }
}

/// Appending one zero unit appends exactly one NUL character to the lossy
/// decoding: a zero unit never pairs with a preceding surrogate.
pub proof fn lemma_decode_append_zero(v: Seq<u16>)
    ensures
        decode_utf16_lossy(v + seq![0u16]) == decode_utf16_lossy(v).push('\0'),
    decreases v.len(),
{
    let w = v + seq![0u16];
    if v.len() == 0 {
        assert(w =~= seq![0u16]);
        assert(w.len() == 1 && w[0] == 0u16);
        assert(!is_surrogate(w[0]));
        assert(w.skip(1) =~= Seq::<u16>::empty());
        assert(decode_utf16_lossy(Seq::<u16>::empty()) == Seq::<char>::empty());
        char_u32_cast('\0', 0u32);
        assert(decode_utf16_lossy(w) == seq!['\0'] + Seq::<char>::empty());
        assert(seq!['\0'] + Seq::<char>::empty() =~= decode_utf16_lossy(v).push('\0'));
    } else {
        assert(w[0] == v[0]);
        if is_high_surrogate(v[0]) && v.len() >= 2 && is_low_surrogate(v[1]) {
            assert(w[1] == v[1]);
            let c = combine_surrogates(v[0], v[1]) as char;
            assert(w.skip(2) =~= v.skip(2) + seq![0u16]);
            lemma_decode_append_zero(v.skip(2));
            assert(decode_utf16_lossy(w) == seq![c] + decode_utf16_lossy(v.skip(2)).push('\0'));
            assert(seq![c] + decode_utf16_lossy(v.skip(2)).push('\0') =~= (seq![c]
                + decode_utf16_lossy(v.skip(2))).push('\0'));
        } else if is_surrogate(v[0]) {
            assert(!(is_high_surrogate(w[0]) && w.len() >= 2 && is_low_surrogate(w[1]))) by {
                if v.len() >= 2 {
                    assert(w[1] == v[1]);
                } else {
                    assert(w[1] == 0u16);
                    assert(!is_low_surrogate(0u16));
                }
            }
            assert(w.skip(1) =~= v.skip(1) + seq![0u16]);
            lemma_decode_append_zero(v.skip(1));
            assert(decode_utf16_lossy(w) == seq![REPLACEMENT] + decode_utf16_lossy(
                v.skip(1),
            ).push('\0'));
            assert(seq![REPLACEMENT] + decode_utf16_lossy(v.skip(1)).push('\0') =~= (
            seq![REPLACEMENT] + decode_utf16_lossy(v.skip(1))).push('\0'));
        } else {
            let c = (v[0] as u32) as char;
            assert(w.skip(1) =~= v.skip(1) + seq![0u16]);
            lemma_decode_append_zero(v.skip(1));
            assert(decode_utf16_lossy(w) == seq![c] + decode_utf16_lossy(v.skip(1)).push('\0'));
            assert(seq![c] + decode_utf16_lossy(v.skip(1)).push('\0') =~= (seq![c]
                + decode_utf16_lossy(v.skip(1))).push('\0'));
        }
    }
}

/// The lossy decoding of a unit sequence that does not end in a zero unit
/// does not end in a NUL character: a NUL arises only from a zero unit.
pub proof fn lemma_decode_no_trailing_nul(u: Seq<u16>)
    requires
        u.len() > 0,
        u.last() != 0u16,
    ensures
        decode_utf16_lossy(u).len() > 0,
        decode_utf16_lossy(u).last() != '\0',
    decreases u.len(),
{
    let d = decode_utf16_lossy(u);
    if is_high_surrogate(u[0]) && u.len() >= 2 && is_low_surrogate(u[1]) {
        let c = combine_surrogates(u[0], u[1]) as char;
        assert(c != '\0') by {
            assert(combine_surrogates(u[0], u[1]) >= 0x10000);
            if c == '\0' {
                char_u32_cast(c, combine_surrogates(u[0], u[1]));
            }
        }
        let tail = u.skip(2);
        if tail.len() == 0 {
            assert(d =~= seq![c] + decode_utf16_lossy(tail));
            assert(d.last() == c);
        } else {
            assert(tail.last() == u.last());
            lemma_decode_no_trailing_nul(tail);
            assert(d.last() == decode_utf16_lossy(tail).last());
        }
    } else if is_surrogate(u[0]) {
        let tail = u.skip(1);
        if tail.len() == 0 {
            assert(decode_utf16_lossy(tail) == Seq::<char>::empty());
            assert(d =~= seq![REPLACEMENT] + decode_utf16_lossy(tail));
            assert(d.last() == REPLACEMENT);
            assert(REPLACEMENT != '\0');
        } else {
            assert(tail.last() == u.last());
            lemma_decode_no_trailing_nul(tail);
            assert(d.last() == decode_utf16_lossy(tail).last());
        }
    } else {
        let c = (u[0] as u32) as char;
        let tail = u.skip(1);
        if tail.len() == 0 {
            assert(u[0] == u.last());
            assert(u[0] != 0u16);
            assert(c != '\0') by {
                char_u32_cast(c, u[0] as u32);
                if c == '\0' {
                    assert((u[0] as u32) == ('\0' as u32));
                }
            }
            assert(decode_utf16_lossy(tail) == Seq::<char>::empty());
            assert(d =~= seq![c] + decode_utf16_lossy(tail));
            assert(d.last() == c);
        } else {
            assert(tail.last() == u.last());
            lemma_decode_no_trailing_nul(tail);
            assert(d.last() == decode_utf16_lossy(tail).last());
        }
    }
}

/// The character for a decimal digit value.
pub open spec fn digit_char(d: int) -> char {
    ((48 + d) as u32) as char
}

/// The decimal rendering of a non-negative number, most significant digit
/// first, without leading zeros (the number zero renders as one digit).
pub open spec fn spec_decimal(n: int) -> Seq<char>
    decreases n,
{
    if n < 10 {
        seq![digit_char(if n < 0 {
            0
        } else {
            n
        })]
    } else {
        spec_decimal(n / 10).push(digit_char(n % 10))
    }
}

/// Appends the decimal rendering of `n` to `out`.
pub fn push_decimal(out: &mut String, n: u32)
    ensures
        final(out)@ == old(out)@ + spec_decimal(n as int),
    decreases n,
{
    if n >= 10 {
        push_decimal(out, n / 10);
    }
    let d: u32 = 48 + n % 10;
    let c = match char_from_u32(d) {
        Some(c) => c,
        None => {
            proof {
                assert(false);
            }
            REPLACEMENT
        },
    };
    proof {
        char_u32_cast(c, d);
        assert(c == digit_char((n % 10) as int));
    }
    push_char(out, c);
    proof {
        if n < 10 {
            assert(n % 10 == n);
            assert(old(out)@.push(c) =~= old(out)@ + spec_decimal(n as int));
        } else {
            assert((old(out)@ + spec_decimal((n / 10) as int)).push(c) =~= old(out)@
                + spec_decimal(n as int));
        }
    }
}

/// The name units a registration of text `s` interns: the UTF-16 encoding,
/// NUL-terminated on the wire, cut back at the first zero unit.
pub open spec fn reg_name_units(s: Seq<char>) -> Seq<u16> {
    before_nul_units(encode_utf16(s).push(0u16))
}

/// For a NUL-free name, registration interns exactly its UTF-16 encoding.
pub proof fn lemma_reg_name_units(s: Seq<char>)
    requires
        !s.contains('\0'),
    ensures
        reg_name_units(s) == encode_utf16(s),
{
    lemma_encode_utf16_no_nul(s);
    assert(encode_utf16(s).push(0u16) =~= encode_utf16(s) + seq![0u16]);
    lemma_before_nul_units_concat(encode_utf16(s), seq![0u16]);
    assert(before_nul_units(seq![0u16]) =~= Seq::<u16>::empty()) by {
        assert(seq![0u16][0] == 0u16);
    }
    assert(encode_utf16(s) + Seq::<u16>::empty() =~= encode_utf16(s));
}

/// The units of `v` from `from` (inclusive) to `to` (exclusive), as an owned
/// buffer.
pub fn units_subrange(v: &Vec<u16>, from: usize, to: usize) -> (r: Vec<u16>)
    requires
        from <= to <= v@.len(),
    ensures
        r@ == v@.subrange(from as int, to as int),
{
    let mut out: Vec<u16> = Vec::new();
    let mut i: usize = from;
    while i < to
        invariant
            from <= i <= to <= v@.len(),
            out@ == v@.subrange(from as int, i as int),
        decreases to - i,
    {
        let u = v[i];
        out.push(u);
        proof {
            assert(out@ =~= v@.subrange(from as int, i + 1int));
        }
        i = i + 1;
    }
    out
}

} // verus!
