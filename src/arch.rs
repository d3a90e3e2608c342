//! Types defined in the SSH's **architecture** (`SSH-ARCH`) part of the protocol,
//! as defined in the [RFC 4251](https://datatracker.ietf.org/doc/html/rfc4251).
use vstd::prelude::*;
use vstd::utf8::{decode_utf8, encode_utf8, is_ascii_chars, valid_utf8};

use crate::error::Error;
use crate::wire::{be32, be32_value, copy_range, get_u32, lemma_be32_value, lengthed, put_all, put_u32};

verus! {

broadcast use vstd::utf8::decode_utf8_encode_utf8, vstd::utf8::encode_utf8_decode_utf8, vstd::utf8::encode_utf8_valid_utf8;

/// Relies on `String::from_utf8`: it succeeds exactly on valid UTF-8, and the
/// string then holds the characters those bytes encode.
#[verifier::external_body]
fn string_from_utf8(bytes: Vec<u8>) -> (r: Option<String>)
    ensures
        r is Some <==> valid_utf8(bytes@),
        r is Some ==> r->Some_0@ == decode_utf8(bytes@),
{
    String::from_utf8(bytes).ok()
}

/// Decoding a `string` that starts at `at` in `input`: its bytes, and where it ends.
pub open spec fn bytes_at(input: Seq<u8>, at: int) -> Result<(Seq<u8>, int), Error> {
    if input.len() < at + 4 {
        Err(Error::TruncatedInput)
    } else {
        let n = be32_value(input.subrange(at, at + 4));
        if input.len() < at + 4 + n {
            Err(Error::TruncatedInput)
        } else {
            Ok((input.subrange(at + 4, at + 4 + n), at + 4 + n))
        }
    }
}

/// A `string` as defined in the SSH protocol,
/// prefixed with its `size` as a [`u32`].
///
/// see <https://datatracker.ietf.org/doc/html/rfc4251#section-5>.
#[derive(Debug, Default)]
pub struct Bytes {
    payload: Vec<u8>,
}

impl View for Bytes {
    type V = Seq<u8>;

    closed spec fn view(&self) -> Seq<u8> {
        self.payload@
    }
}

impl Bytes {

    /// The wire form of this value.
    pub open spec fn wire(&self) -> Seq<u8> {
        lengthed(self@)
    }

    /// The value is small enough to have a wire form.
    pub open spec fn fits(&self) -> bool {
        self@.len() <= u32::MAX
    }
    /// Create new [`Bytes`] from a [`Vec`].
    pub fn new(value: Vec<u8>) -> (r: Bytes)
        ensures
            r@ == value@,
    {
        Bytes { payload: value }
    }

    /// Create [`Bytes`] from a _vector_.
    pub fn owned(value: Vec<u8>) -> (r: Bytes)
        ensures
            r@ == value@,
    {
        Bytes { payload: value }
    }

    /// Create [`Bytes`] from a copy of a _slice_.
    pub fn borrowed(value: &[u8]) -> (r: Bytes)
        ensures
            r@ == value@,
    {
        Bytes { payload: copy_range(value, 0, value.len()) }
    }

    /// Obtain a copy of these [`Bytes`].
    pub fn as_borrow(&self) -> (r: Bytes)
        ensures
            r@ == self@,
    {
        Bytes { payload: copy_range(self.payload.as_slice(), 0, self.payload.len()) }
    }

    /// View the buffer as a slice.
    pub fn as_slice(&self) -> (r: &[u8])
        ensures
            r@ == self@,
    {
        self.payload.as_slice()
    }

    /// The number of bytes in the buffer.
    pub fn len(&self) -> (r: usize)
        ensures
            r == self@.len(),
    {
        self.payload.len()
    }

    /// Extract the [`Bytes`] into a [`Vec`].
    pub fn into_vec(self) -> (r: Vec<u8>)
        ensures
            r@ == self@,
    {
        self.payload
    }

    /// Append the wire form to `out`: the length as a big-endian `u32`, then the bytes.
    pub fn encode(&self, out: &mut Vec<u8>)
        requires
            self@.len() <= u32::MAX,
        ensures
            final(out)@ == old(out)@ + lengthed(self@),
    {
        put_u32(out, self.payload.len() as u32);
        put_all(out, self.payload.as_slice());
        assert(final(out)@ =~= old(out)@ + lengthed(self@));
    }

    /// Decode the wire form that starts at `at` in `input`, returning the
    /// value and the offset just past it.
    pub fn decode(input: &[u8], at: usize) -> (r: Result<(Bytes, usize), Error>)
        requires
            at <= input@.len(),
        ensures
            match bytes_at(input@, at as int) {
                Ok((b, end)) => r is Ok && r->Ok_0.0@ == b && r->Ok_0.1 == end,
                Err(e) => r == Err::<(Bytes, usize), Error>(e),
            },
    {
        if input.len() - at < 4 {
            return Err(Error::TruncatedInput);
        }
        let n = get_u32(input, at) as usize;
        if input.len() - at - 4 < n {
            return Err(Error::TruncatedInput);
        }
        let payload = copy_range(input, at + 4, at + 4 + n);
        Ok((Bytes { payload }, at + 4 + n))
    }
}

/// Decoding the wire form of any byte buffer gives it back, and takes all of it.
pub proof fn lemma_bytes_round_trip(b: Seq<u8>)
    requires
        b.len() <= u32::MAX,
    ensures
        bytes_at(lengthed(b), 0) == Ok::<(Seq<u8>, int), Error>((b, lengthed(b).len() as int)),
{
    lemma_be32_value(b.len() as u32);
    let w = lengthed(b);
    assert(w.subrange(0, 4) =~= be32(b.len() as u32));
    assert(w.subrange(4, 4 + b.len() as int) =~= b);
}

/// `b` without its leading zero bytes.
pub open spec fn strip_zeros(b: Seq<u8>) -> Seq<u8>
    decreases b.len(),
{
    if b.len() > 0 && b[0] == 0 {
        strip_zeros(b.drop_first())
    } else {
        b
    }
}

/// The minimal two's-complement-positive form of the big-endian integer `b`:
/// redundant leading zero bytes go, and one `0x00` comes first when the
/// leading byte has its high bit set.
pub open spec fn mpint_canonical(b: Seq<u8>) -> Seq<u8> {
    let s = strip_zeros(b);
    if s.len() > 0 && s[0] >= 0x80 {
        seq![0u8] + s
    } else {
        s
    }
}

proof fn lemma_strip_zeros(b: Seq<u8>)
    ensures
        strip_zeros(b).len() > 0 ==> strip_zeros(b)[0] != 0,
        strip_zeros(b).len() <= b.len(),
        strip_zeros(b) == b.subrange(b.len() - strip_zeros(b).len(), b.len() as int),
    decreases b.len(),
{
    if b.len() > 0 && b[0] == 0 {
        lemma_strip_zeros(b.drop_first());
    } else {
        assert(b.subrange(0, b.len() as int) =~= b);
    }
}

/// Canonicalising twice gives what canonicalising once gave; and a buffer
/// without redundant leading zeros is kept as it is, behind one `0x00` exactly
/// when its first byte has the high bit set.
pub proof fn lemma_mpint_canonical_idempotent(b: Seq<u8>)
    ensures
        mpint_canonical(mpint_canonical(b)) == mpint_canonical(b),
        strip_zeros(b) == b ==> mpint_canonical(b) == (if b.len() > 0 && b[0] >= 0x80 {
            seq![0u8] + b
        } else {
            b
        }),
{
    let s = strip_zeros(b);
    lemma_strip_zeros(b);
    if s.len() > 0 && s[0] >= 0x80 {
        let c = seq![0u8] + s;
        assert(c.drop_first() =~= s);
        assert(strip_zeros(c) == strip_zeros(s));
    }
}

/// A `mpint` as defined in the SSH protocol.
///
/// see <https://datatracker.ietf.org/doc/html/rfc4251#section-5>.
#[derive(Debug, Default)]
pub struct MpInt(Bytes);

impl View for MpInt {
    type V = Seq<u8>;

    closed spec fn view(&self) -> Seq<u8> {
        self.0@
    }
}

/// The canonical form of the big-endian integer `value`.
fn canonical_mpint(value: &[u8]) -> (r: Vec<u8>)
    ensures
        r@ == mpint_canonical(value@),
{
    let mut start: usize = 0;
    assert(value@.subrange(0, value@.len() as int) =~= value@);
    while start < value.len() && value[start] == 0
        invariant
            start <= value@.len(),
            strip_zeros(value@) == strip_zeros(value@.subrange(start as int, value@.len() as int)),
        decreases value@.len() - start,
    {
        let ghost rest = value@.subrange(start as int, value@.len() as int);
        assert(rest.drop_first() =~= value@.subrange(start + 1, value@.len() as int));
        start = start + 1;
    }
    let ghost rest = value@.subrange(start as int, value@.len() as int);
    assert(strip_zeros(rest) == rest);
    let mut out: Vec<u8> = Vec::new();
    if start < value.len() && value[start] >= 0x80 {
        out.push(0);
    }
    let digits = copy_range(value, start, value.len());
    put_all(&mut out, digits.as_slice());
    assert(out@ =~= mpint_canonical(value@));
    out
}

impl MpInt {
    /// The wire form of this value: its canonical form, length-prefixed,
    /// whatever bytes it holds.
    pub open spec fn wire(&self) -> Seq<u8> {
        lengthed(mpint_canonical(self@))
    }

    /// The value is small enough to have a wire form.
    pub open spec fn fits(&self) -> bool {
        mpint_canonical(self@).len() <= u32::MAX
    }

    /// Create new [`MpInt`] from big-endian bytes, in canonical form.
    pub fn new(value: Vec<u8>) -> (r: MpInt)
        ensures
            r@ == mpint_canonical(value@),
    {
        MpInt(Bytes { payload: canonical_mpint(value.as_slice()) })
    }

    /// View the big-endian bytes.
    pub fn as_slice(&self) -> (r: &[u8])
        ensures
            r@ == self@,
    {
        self.0.as_slice()
    }

    /// Append the wire form to `out`: the canonical form of the bytes,
    /// length-prefixed, so that a decoded value that was not canonical goes
    /// out canonical.
    pub fn encode(&self, out: &mut Vec<u8>)
        requires
            mpint_canonical(self@).len() <= u32::MAX,
        ensures
            final(out)@ == old(out)@ + lengthed(mpint_canonical(self@)),
    {
        let digits = canonical_mpint(self.0.as_slice());
        put_u32(out, digits.len() as u32);
        put_all(out, digits.as_slice());
        assert(final(out)@ =~= old(out)@ + lengthed(mpint_canonical(self@)));
    }

    /// Decode the wire form that starts at `at` in `input`; the bytes are
    /// taken as they are, canonical or not.
    pub fn decode(input: &[u8], at: usize) -> (r: Result<(MpInt, usize), Error>)
        requires
            at <= input@.len(),
        ensures
            match bytes_at(input@, at as int) {
                Ok((b, end)) => r is Ok && r->Ok_0.0@ == b && r->Ok_0.1 == end,
                Err(e) => r == Err::<(MpInt, usize), Error>(e),
            },
    {
        match Bytes::decode(input, at) {
            Ok((b, end)) => Ok((MpInt(b), end)),
            Err(e) => Err(e),
        }
    }
}

/// A `boolean` as defined in the SSH protocol.
///
/// see <https://datatracker.ietf.org/doc/html/rfc4251#section-5>.
#[derive(Debug, Default, Clone, Copy, PartialEq, Eq)]
pub struct Bool(pub bool);

impl Bool {

    /// The wire form of this value.
    pub open spec fn wire(&self) -> Seq<u8> {
        seq![if self.0 { 1u8 } else { 0u8 }]
    }

    /// The value is small enough to have a wire form.
    pub open spec fn fits(&self) -> bool {
        true
    }
    /// The negation of this [`Bool`].
    pub fn not(self) -> (r: Bool)
        ensures
            r.0 == !self.0,
    {
        Bool(!self.0)
    }

    /// Append the wire form to `out`: exactly `0x00` or `0x01`.
    pub fn encode(&self, out: &mut Vec<u8>)
        ensures
            final(out)@ == old(out)@.push(if self.0 { 1u8 } else { 0u8 }),
    {
        out.push(if self.0 { 1 } else { 0 });
    }

    /// Decode the byte at `at` in `input`: any nonzero byte is `true`.
    pub fn decode(input: &[u8], at: usize) -> (r: Result<(Bool, usize), Error>)
        ensures
            at < input@.len() ==> r == Ok::<(Bool, usize), Error>((Bool(input@[at as int] != 0), (at + 1) as usize)),
            at >= input@.len() ==> r == Err::<(Bool, usize), Error>(Error::TruncatedInput),
    {
        if at >= input.len() {
            return Err(Error::TruncatedInput);
        }
        Ok((Bool(input[at] != 0), at + 1))
    }
}

/// Decoding a UTF-8 `string` that starts at `at` in `input`: its characters,
/// and where it ends.
pub open spec fn utf8_at(input: Seq<u8>, at: int) -> Result<(Seq<char>, int), Error> {
    match bytes_at(input, at) {
        Ok((b, end)) => if valid_utf8(b) {
            Ok((decode_utf8(b), end))
        } else {
            Err(Error::Utf8Validation(at as usize))
        },
        Err(e) => Err(e),
    }
}

/// Decoding an ASCII `string` that starts at `at` in `input`: UTF-8 first,
/// then ASCII.
pub open spec fn ascii_at(input: Seq<u8>, at: int) -> Result<(Seq<char>, int), Error> {
    match utf8_at(input, at) {
        Ok((s, end)) => if is_ascii_chars(s) {
            Ok((s, end))
        } else {
            Err(Error::AsciiValidation(at as usize))
        },
        Err(e) => Err(e),
    }
}

/// A `string` as defined in the SSH protocol,
/// prefixed with its `size` as a [`u32`],
/// restricted to valid **UTF-8**.
///
/// see <https://datatracker.ietf.org/doc/html/rfc4251#section-5>.
#[derive(Debug, Default)]
pub struct StringUtf8 {
    text: String,
}

/// The name under which [`StringUtf8`] is also known.
pub type Utf8 = StringUtf8;

impl View for StringUtf8 {
    type V = Seq<char>;

    closed spec fn view(&self) -> Seq<char> {
        self.text@
    }
}

impl StringUtf8 {

    /// The wire form of this value.
    pub open spec fn wire(&self) -> Seq<u8> {
        lengthed(encode_utf8(self@))
    }

    /// The value is small enough to have a wire form.
    pub open spec fn fits(&self) -> bool {
        encode_utf8(self@).len() <= u32::MAX
    }
    /// Create new [`StringUtf8`] from a [`String`].
    pub fn new(s: String) -> (r: StringUtf8)
        ensures
            r@ == s@,
    {
        StringUtf8 { text: s }
    }

    /// Create an [`Utf8`] string from a [`String`].
    pub fn owned(s: String) -> (r: StringUtf8)
        ensures
            r@ == s@,
    {
        StringUtf8 { text: s }
    }

    /// Create an [`Utf8`] string from a copy of a [`&str`].
    pub fn borrowed(s: &str) -> (r: StringUtf8)
        ensures
            r@ == s@,
    {
        StringUtf8 { text: s.to_owned() }
    }

    /// Obtain a copy of this string.
    pub fn as_borrow(&self) -> (r: StringUtf8)
        ensures
            r@ == self@,
    {
        StringUtf8 { text: self.text.clone() }
    }

    /// Views this [`StringUtf8`] as a UTF-8 str.
    pub fn as_str(&self) -> (r: &str)
        ensures
            r@ == self@,
    {
        self.text.as_str()
    }

    /// Converts the [`StringUtf8`] to a [`String`].
    pub fn into_string(self) -> (r: String)
        ensures
            r@ == self@,
    {
        self.text
    }

    /// Append the wire form to `out`: the UTF-8 bytes, length-prefixed.
    pub fn encode(&self, out: &mut Vec<u8>)
        requires
            encode_utf8(self@).len() <= u32::MAX,
        ensures
            final(out)@ == old(out)@ + lengthed(encode_utf8(self@)),
    {
        let bytes = self.text.as_str().as_bytes();
        put_u32(out, bytes.len() as u32);
        put_all(out, bytes);
        assert(final(out)@ =~= old(out)@ + lengthed(encode_utf8(self@)));
    }

    /// Decode the wire form that starts at `at` in `input`, which must hold
    /// valid UTF-8.
    pub fn decode(input: &[u8], at: usize) -> (r: Result<(StringUtf8, usize), Error>)
        requires
            at <= input@.len(),
        ensures
            match utf8_at(input@, at as int) {
                Ok((s, end)) => r is Ok && r->Ok_0.0@ == s && r->Ok_0.1 == end,
                Err(e) => r == Err::<(StringUtf8, usize), Error>(e),
            },
    {
        match Bytes::decode(input, at) {
            Ok((b, end)) => match string_from_utf8(b.into_vec()) {
                Some(text) => Ok((StringUtf8 { text }, end)),
                None => Err(Error::Utf8Validation(at)),
            },
            Err(e) => Err(e),
        }
    }
}

/// Errors which can occur when attempting to interpret a string as ASCII characters.
#[derive(Debug)]
pub struct AsciiError {}

/// A `string` as defined in the SSH protocol,
/// prefixed with its `size` as a [`u32`],
/// restricted to valid **ASCII**.
///
/// see <https://datatracker.ietf.org/doc/html/rfc4251#section-5>.
#[derive(Debug)]
pub struct StringAscii {
    text: String,
}

impl Default for StringAscii {
    /// The empty string.
    fn default() -> (r: StringAscii)
        ensures
            r.wf(),
            r@ == Seq::<char>::empty(),
    {
        StringAscii { text: String::new() }
    }
}

/// The name under which [`StringAscii`] is also known.
pub type Ascii = StringAscii;

impl View for StringAscii {
    type V = Seq<char>;

    closed spec fn view(&self) -> Seq<char> {
        self.text@
    }
}

/// The ASCII characters of `s`, in order.
pub open spec fn ascii_only(s: Seq<char>) -> Seq<char>
    decreases s.len(),
{
    if s.len() == 0 {
        s
    } else if '\0' <= s.last() <= '\u{7f}' {
        ascii_only(s.drop_last()).push(s.last())
    } else {
        ascii_only(s.drop_last())
    }
}

proof fn lemma_ascii_only(s: Seq<char>)
    ensures
        is_ascii_chars(ascii_only(s)),
        is_ascii_chars(s) ==> ascii_only(s) == s,
    decreases s.len(),
{
    if s.len() > 0 {
        lemma_ascii_only(s.drop_last());
        let prev = ascii_only(s.drop_last());
        if '\0' <= s.last() <= '\u{7f}' {
            let next = prev.push(s.last());
            assert forall|i: int| 0 <= i < next.len() implies ('\0' <= #[trigger] next[i] && next[i] <= '\u{7f}') by {
                if i < prev.len() {
                    assert(next[i] == prev[i]);
                    assert('\0' <= prev[i] <= '\u{7f}');
                } else {
                    assert(next[i] == s.last());
                }
            }
        }
        if is_ascii_chars(s) {
            assert(is_ascii_chars(s.drop_last()));
            assert(s.drop_last().push(s.last()) =~= s);
        }
    }
}

/// The bytes that encode an ASCII character sequence, one per character.
proof fn lemma_ascii_bytes(cs: Seq<char>, bytes: Seq<u8>)
    requires
        is_ascii_chars(cs),
        bytes.len() == cs.len(),
        forall|i: int| 0 <= i < cs.len() ==> bytes[i] == cs[i] as u8,
    ensures
        valid_utf8(bytes),
        decode_utf8(bytes) == cs,
{
    vstd::utf8::is_ascii_chars_encode_utf8(cs);
    assert(bytes =~= encode_utf8(cs));
}

impl StringAscii {

    /// The wire form of this value.
    pub open spec fn wire(&self) -> Seq<u8> {
        lengthed(encode_utf8(self@))
    }

    /// The value is small enough to have a wire form.
    pub open spec fn fits(&self) -> bool {
        encode_utf8(self@).len() <= u32::MAX
    }
    pub closed spec fn wf(&self) -> bool {
        is_ascii_chars(self.text@)
    }

    /// Create new [`StringAscii`] from a [`&str`], stripping any non-ASCII characters.
    pub fn new(s: &str) -> (r: StringAscii)
        ensures
            r.wf(),
            r@ == ascii_only(s@),
    {
        let n = s.unicode_len();
        let mut bytes: Vec<u8> = Vec::new();
        let ghost mut kept: Seq<char> = Seq::empty();
        let mut i: usize = 0;
        while i < n
            invariant
                n == s@.len(),
                i <= n,
                kept == ascii_only(s@.subrange(0, i as int)),
                is_ascii_chars(kept),
                bytes@.len() == kept.len(),
                forall|k: int| 0 <= k < kept.len() ==> bytes@[k] == kept[k] as u8,
            decreases n - i,
        {
            let c = s.get_char(i);
            let ghost prev = s@.subrange(0, i as int);
            assert(s@.subrange(0, i + 1).drop_last() =~= prev);
            if c <= '\u{7f}' {
                bytes.push(c as u8);
                proof {
                    kept = kept.push(c);
                }
            }
            i = i + 1;
            proof {
                lemma_ascii_only(s@.subrange(0, i as int));
            }
        }
        assert(s@.subrange(0, n as int) =~= s@);
        ascii_from_bytes(bytes, Ghost(kept))
    }

    /// Create an [`Ascii`] string from a [`String`], if it only holds ASCII characters.
    pub fn owned(value: String) -> (r: Result<StringAscii, AsciiError>)
        ensures
            r is Ok <==> is_ascii_chars(value@),
            r is Ok ==> r->Ok_0.wf() && r->Ok_0@ == value@,
    {
        if value.is_ascii() {
            Ok(StringAscii { text: value })
        } else {
            Err(AsciiError {  })
        }
    }

    /// Create an [`Ascii`] string from a copy of a [`&str`], if it only holds
    /// ASCII characters.
    pub fn borrowed(value: &str) -> (r: Result<StringAscii, AsciiError>)
        ensures
            r is Ok <==> is_ascii_chars(value@),
            r is Ok ==> r->Ok_0.wf() && r->Ok_0@ == value@,
    {
        if value.is_ascii() {
            Ok(StringAscii { text: value.to_owned() })
        } else {
            Err(AsciiError {  })
        }
    }

    /// Create an [`Ascii`] string from a copy of a [`&str`] known to hold
    /// only ASCII characters.
    pub fn borrowed_unchecked(value: &str) -> (r: StringAscii)
        requires
            is_ascii_chars(value@),
        ensures
            r.wf(),
            r@ == value@,
    {
        StringAscii { text: value.to_owned() }
    }

    /// Obtain a copy of this string.
    pub fn as_borrow(&self) -> (r: StringAscii)
        requires
            self.wf(),
        ensures
            r.wf(),
            r@ == self@,
    {
        StringAscii { text: self.text.clone() }
    }

    /// Views this [`StringAscii`] as a str.
    pub fn as_str(&self) -> (r: &str)
        ensures
            r@ == self@,
    {
        self.text.as_str()
    }

    /// Converts the [`StringAscii`] to a [`String`].
    pub fn into_string(self) -> (r: String)
        ensures
            r@ == self@,
    {
        self.text
    }

    /// Append the wire form to `out`: the ASCII bytes, length-prefixed.
    pub fn encode(&self, out: &mut Vec<u8>)
        requires
            encode_utf8(self@).len() <= u32::MAX,
        ensures
            final(out)@ == old(out)@ + lengthed(encode_utf8(self@)),
    {
        let bytes = self.text.as_str().as_bytes();
        put_u32(out, bytes.len() as u32);
        put_all(out, bytes);
        assert(final(out)@ =~= old(out)@ + lengthed(encode_utf8(self@)));
    }

    /// Decode the wire form that starts at `at` in `input`, which must hold
    /// valid UTF-8 made of ASCII characters only.
    pub fn decode(input: &[u8], at: usize) -> (r: Result<(StringAscii, usize), Error>)
        requires
            at <= input@.len(),
        ensures
            match ascii_at(input@, at as int) {
                Ok((s, end)) => r is Ok && r->Ok_0.0.wf() && r->Ok_0.0@ == s && r->Ok_0.1 == end,
                Err(e) => r == Err::<(StringAscii, usize), Error>(e),
            },
    {
        match StringUtf8::decode(input, at) {
            Ok((s, end)) => {
                if s.as_str().is_ascii() {
                    Ok((StringAscii { text: s.into_string() }, end))
                } else {
                    Err(Error::AsciiValidation(at))
                }
            },
            Err(e) => Err(e),
        }
    }
}

/// Builds a [`StringAscii`] out of the bytes of ASCII characters; those
/// bytes are always valid UTF-8, so the conversion cannot fail.
fn ascii_from_bytes(bytes: Vec<u8>, Ghost(cs): Ghost<Seq<char>>) -> (r: StringAscii)
    requires
        is_ascii_chars(cs),
        bytes@.len() == cs.len(),
        forall|i: int| 0 <= i < cs.len() ==> bytes@[i] == cs[i] as u8,
    ensures
        r.wf(),
        r@ == cs,
{
    proof {
        lemma_ascii_bytes(cs, bytes@);
    }
    match string_from_utf8(bytes) {
        Some(text) => StringAscii { text },
        None => StringAscii { text: String::new() },
    }
}

/// The names so far of a name-list text, and the name being read.
pub open spec fn split_state(s: Seq<char>) -> (Seq<Seq<char>>, Seq<char>)
    decreases s.len(),
{
    if s.len() == 0 {
        (Seq::empty(), Seq::empty())
    } else {
        let (done, cur) = split_state(s.drop_last());
        if s.last() == ',' {
            (if cur.len() > 0 { done.push(cur) } else { done }, Seq::empty())
        } else {
            (done, cur.push(s.last()))
        }
    }
}

/// The names of a name-list text: its `,`-separated tokens, in order,
/// without the empty ones.
pub open spec fn split_names(s: Seq<char>) -> Seq<Seq<char>> {
    let (done, cur) = split_state(s);
    if cur.len() > 0 { done.push(cur) } else { done }
}

/// The non-empty names of `names`, joined with `,`.
pub open spec fn join_names(names: Seq<Seq<char>>) -> Seq<char>
    decreases names.len(),
{
    if names.len() == 0 {
        Seq::empty()
    } else {
        let prev = join_names(names.drop_last());
        let n = names.last();
        if n.len() == 0 {
            prev
        } else if prev.len() == 0 {
            n
        } else {
            prev.push(',') + n
        }
    }
}

/// The first name of `a` that also appears in `b`.
pub open spec fn first_common(a: Seq<Seq<char>>, b: Seq<Seq<char>>) -> Option<Seq<char>>
    decreases a.len(),
{
    if a.len() == 0 {
        None
    } else if b.contains(a[0]) {
        Some(a[0])
    } else {
        first_common(a.drop_first(), b)
    }
}

/// The name that [`first_common`] picks is the first of `a`, in `a`'s order,
/// that appears in `b`, and there is none exactly when they share no name;
/// a non-empty list prefers its own first name against itself.
pub proof fn lemma_first_common(a: Seq<Seq<char>>, b: Seq<Seq<char>>)
    ensures
        first_common(a, b) is None <==> forall|k: int| 0 <= k < a.len() ==> !b.contains(#[trigger] a[k]),
        first_common(a, b) is Some ==> exists|i: int|
            0 <= i < a.len() && a[i] == first_common(a, b)->Some_0 && b.contains(a[i]) && forall|k: int|
                0 <= k < i ==> !b.contains(#[trigger] a[k]),
        a.len() > 0 ==> first_common(a, a) == Some(a[0]),
    decreases a.len(),
{
    if a.len() > 0 {
        assert(a.contains(a[0]));
        lemma_first_common(a.drop_first(), b);
        if !b.contains(a[0]) {
            if first_common(a, b) is Some {
                let j = choose|j: int|
                    0 <= j < a.drop_first().len() && a.drop_first()[j] == first_common(a, b)->Some_0
                        && b.contains(a.drop_first()[j]) && forall|k: int|
                        0 <= k < j ==> !b.contains(#[trigger] a.drop_first()[k]);
                assert(a[j + 1] == a.drop_first()[j]);
                assert forall|k: int| 0 <= k < j + 1 implies !b.contains(#[trigger] a[k]) by {
                    if k > 0 {
                        assert(a[k] == a.drop_first()[k - 1]);
                    }
                }
            } else {
                assert forall|k: int| 0 <= k < a.len() implies !b.contains(#[trigger] a[k]) by {
                    if k > 0 {
                        assert(a[k] == a.drop_first()[k - 1]);
                    }
                }
            }
        }
    }
}

/// A `name-list` as defined in the SSH protocol,
/// a `,`-separated list of **ASCII** identifiers,
/// prefixed with its `size` as a [`u32`].
///
/// see <https://datatracker.ietf.org/doc/html/rfc4251#section-5>.
#[derive(Debug)]
pub struct NameList(StringAscii);

impl Default for NameList {
    /// The empty name-list.
    fn default() -> (r: NameList)
        ensures
            r.wf(),
            r@ == Seq::<char>::empty(),
    {
        NameList(StringAscii::default())
    }
}

impl View for NameList {
    type V = Seq<char>;

    closed spec fn view(&self) -> Seq<char> {
        self.0@
    }
}

impl NameList {

    /// The wire form of this value.
    pub open spec fn wire(&self) -> Seq<u8> {
        lengthed(encode_utf8(self@))
    }

    /// The value is small enough to have a wire form.
    pub open spec fn fits(&self) -> bool {
        encode_utf8(self@).len() <= u32::MAX
    }
    pub closed spec fn wf(&self) -> bool {
        self.0.wf()
    }

    /// Create new [`NameList`] from a list of names: their ASCII characters,
    /// the empty names left out, joined with `,`.
    pub fn new(names: &[&str]) -> (r: NameList)
        ensures
            r.wf(),
            r@ == join_names(names@.map_values(|n: &str| ascii_only(n@))),
    {
        let ghost all = names@.map_values(|n: &str| ascii_only(n@));
        let mut bytes: Vec<u8> = Vec::new();
        let ghost mut text: Seq<char> = Seq::empty();
        let mut i: usize = 0;
        while i < names.len()
            invariant
                i <= names@.len(),
                all == names@.map_values(|n: &str| ascii_only(n@)),
                text == join_names(all.subrange(0, i as int)),
                is_ascii_chars(text),
                bytes@.len() == text.len(),
                forall|k: int| 0 <= k < text.len() ==> bytes@[k] == text[k] as u8,
            decreases names@.len() - i,
        {
            let name = StringAscii::new(names[i]);
            let ghost n = name@;
            assert(all.subrange(0, i + 1).drop_last() =~= all.subrange(0, i as int));
            assert(all.subrange(0, i + 1).last() == n);
            let part = name.as_str().as_bytes();
            proof {
                vstd::utf8::is_ascii_chars_encode_utf8(n);
            }
            if part.len() > 0 {
                let ghost before = text;
                if bytes.len() > 0 {
                    bytes.push(44u8);
                    proof {
                        text = text.push(',');
                    }
                }
                let ghost mid = text;
                put_all(&mut bytes, part);
                proof {
                    text = text + n;
                    assert forall|k: int| 0 <= k < text.len() implies bytes@[k] == text[k] as u8 by {
                        if k >= mid.len() {
                            assert(text[k] == n[k - mid.len()]);
                            assert(bytes@[k] == part@[k - mid.len()]);
                        } else if k < before.len() {
                            assert(text[k] == before[k]);
                        }
                    }
                    assert forall|k: int| 0 <= k < text.len() implies ('\0' <= #[trigger] text[k] && text[k] <= '\u{7f}') by {
                        if k >= mid.len() {
                            assert(text[k] == n[k - mid.len()]);
                        } else if k < before.len() {
                            assert(text[k] == before[k]);
                        }
                    }
                }
            }
            i = i + 1;
        }
        assert(all.subrange(0, names@.len() as int) =~= all);
        NameList(ascii_from_bytes(bytes, Ghost(text)))
    }

    /// The names of the list, in order, without the empty ones.
    pub fn names(&self) -> (r: Vec<StringAscii>)
        requires
            self.wf(),
        ensures
            r@.len() == split_names(self@).len(),
            forall|k: int| 0 <= k < r@.len() ==> (#[trigger] r@[k]).wf() && r@[k]@ == split_names(self@)[k],
    {
        let s = self.0.as_str();
        let n = s.unicode_len();
        let mut done: Vec<StringAscii> = Vec::new();
        let mut cur: Vec<u8> = Vec::new();
        let ghost mut cur_chars: Seq<char> = Seq::empty();
        let mut i: usize = 0;
        while i < n
            invariant
                n == s@.len(),
                s@ == self@,
                is_ascii_chars(s@),
                i <= n,
                split_state(s@.subrange(0, i as int)).1 == cur_chars,
                is_ascii_chars(cur_chars),
                cur@.len() == cur_chars.len(),
                forall|k: int| 0 <= k < cur_chars.len() ==> cur@[k] == cur_chars[k] as u8,
                done@.len() == split_state(s@.subrange(0, i as int)).0.len(),
                forall|k: int| 0 <= k < done@.len() ==> (#[trigger] done@[k]).wf() && done@[k]@ == split_state(s@.subrange(0, i as int)).0[k],
            decreases n - i,
        {
            let c = s.get_char(i);
            let ghost prefix = s@.subrange(0, i + 1);
            assert(prefix.drop_last() =~= s@.subrange(0, i as int));
            assert(prefix.last() == c);
            if c == ',' {
                if cur.len() > 0 {
                    let name = ascii_from_bytes(cur, Ghost(cur_chars));
                    done.push(name);
                }
                cur = Vec::new();
                proof {
                    cur_chars = Seq::empty();
                }
            } else {
                assert('\0' <= s@[i as int] <= '\u{7f}');
                cur.push(c as u8);
                proof {
                    let old_chars = cur_chars;
                    cur_chars = cur_chars.push(c);
                    assert forall|k: int| 0 <= k < cur_chars.len() implies ('\0' <= #[trigger] cur_chars[k] && cur_chars[k] <= '\u{7f}') by {
                        if k < old_chars.len() {
                            assert(cur_chars[k] == old_chars[k]);
                        }
                    }
                }
            }
            i = i + 1;
        }
        assert(s@.subrange(0, n as int) =~= s@);
        if cur.len() > 0 {
            let name = ascii_from_bytes(cur, Ghost(cur_chars));
            done.push(name);
        }
        done
    }

    /// Retrieve the first name from `self` that is also in `other`.
    pub fn preferred_in(&self, other: &NameList) -> (r: Option<StringAscii>)
        requires
            self.wf(),
            other.wf(),
        ensures
            match first_common(split_names(self@), split_names(other@)) {
                Some(n) => r is Some && r->Some_0.wf() && r->Some_0@ == n,
                None => r is None,
            },
    {
        let ours = self.names();
        let theirs = other.names();
        let ghost a = split_names(self@);
        let ghost b = split_names(other@);
        assert(a.subrange(0, a.len() as int) =~= a);
        let mut i: usize = 0;
        while i < ours.len()
            invariant
                a == split_names(self@),
                b == split_names(other@),
                i <= ours@.len(),
                ours@.len() == a.len(),
                forall|k: int| 0 <= k < ours@.len() ==> (#[trigger] ours@[k]).wf() && ours@[k]@ == a[k],
                theirs@.len() == b.len(),
                forall|k: int| 0 <= k < theirs@.len() ==> (#[trigger] theirs@[k])@ == b[k],
                first_common(a, b) == first_common(a.subrange(i as int, a.len() as int), b),
            decreases ours@.len() - i,
        {
            let ghost rest = a.subrange(i as int, a.len() as int);
            assert(rest[0] == a[i as int]);
            assert(rest.drop_first() =~= a.subrange(i + 1, a.len() as int));
            let mut j: usize = 0;
            while j < theirs.len()
                invariant
                    a == split_names(self@),
                    b == split_names(other@),
                    i < ours@.len(),
                    rest.len() > 0,
                    rest[0] == a[i as int],
                    first_common(a, b) == first_common(rest, b),
                    ours@.len() == a.len(),
                    forall|k: int| 0 <= k < ours@.len() ==> (#[trigger] ours@[k]).wf() && ours@[k]@ == a[k],
                    j <= theirs@.len(),
                    theirs@.len() == b.len(),
                    forall|k: int| 0 <= k < theirs@.len() ==> (#[trigger] theirs@[k])@ == b[k],
                    forall|k: int| 0 <= k < j ==> b[k] != a[i as int],
                decreases theirs@.len() - j,
            {
                if ours[i].text == theirs[j].text {
                    assert(b[j as int] == a[i as int]);
                    assert(b.contains(a[i as int]));
                    assert(first_common(rest, b) == Some(a[i as int]));
                    return Some(ours[i].as_borrow());
                }
                j = j + 1;
            }
            assert(!b.contains(a[i as int]));
            i = i + 1;
        }
        None
    }

    /// Retrieve the first name from `self` that is also in `other`.
    pub fn preferred(&self, other: &NameList) -> (r: Option<StringAscii>)
        requires
            self.wf(),
            other.wf(),
        ensures
            match first_common(split_names(self@), split_names(other@)) {
                Some(n) => r is Some && r->Some_0.wf() && r->Some_0@ == n,
                None => r is None,
            },
    {
        self.preferred_in(other)
    }

    /// Append the wire form to `out`: the text as an ASCII `string`.
    pub fn encode(&self, out: &mut Vec<u8>)
        requires
            encode_utf8(self@).len() <= u32::MAX,
        ensures
            final(out)@ == old(out)@ + lengthed(encode_utf8(self@)),
    {
        self.0.encode(out)
    }

    /// Decode the wire form that starts at `at` in `input`.
    pub fn decode(input: &[u8], at: usize) -> (r: Result<(NameList, usize), Error>)
        requires
            at <= input@.len(),
        ensures
            match ascii_at(input@, at as int) {
                Ok((s, end)) => r is Ok && r->Ok_0.0.wf() && r->Ok_0.0@ == s && r->Ok_0.1 == end,
                Err(e) => r == Err::<(NameList, usize), Error>(e),
            },
    {
        match StringAscii::decode(input, at) {
            Ok((s, end)) => Ok((NameList(s), end)),
            Err(e) => Err(e),
        }
    }
}

} // verus!
