use vstd::prelude::*;

use crate::cipher::{CipherCore, Mac, OpeningCipher, SealingCipher};
use crate::error::Error;
use crate::wire::{be32, be32_value, copy_range, get_u32, put_all, put_u32};

verus! {

/// Maximum size for a SSH packet, coincidentally this is
/// the maximum size for a TCP packet.
pub const PACKET_MAX_SIZE: usize = 65535;

/// Minimum size for a SSH packet, coincidentally this is
/// the largest block cipher's block-size.
pub const PACKET_MIN_SIZE: usize = 16;

/// The protocol mandates at least this many bytes of padding.
pub const MIN_PAD_SIZE: usize = 4;

/// Frames are always aligned on at least this many bytes.
pub const MIN_ALIGN: usize = 8;

/// The largest block size for which every padding fits in the one-byte
/// `padding_length` field.
pub const MAX_BLOCK_SIZE: usize = 252;

/// The larger of `a` and `b`.
pub open spec fn max_of(a: int, b: int) -> int {
    if a >= b { a } else { b }
}

/// The alignment of a frame for a cipher of block size `block_size`.
pub open spec fn align_of(block_size: int) -> int {
    max_of(block_size, MIN_ALIGN as int)
}

/// The bytes of a frame that precede the payload and are aligned with it:
/// the `padding_length` byte, and the `packet_length` field too when it
/// gets encrypted (that is, when the MAC is not computed over ciphertext).
pub open spec fn header_of(etm: bool) -> int {
    if etm { 1 } else { 5 }
}

/// The padding length for a payload of `payload` bytes.
pub open spec fn padding_spec(block_size: int, etm: bool, payload: int) -> int {
    let align = align_of(block_size);
    let size = header_of(etm) + payload;
    let first_fit = (align - size % align) % align;
    let with_minimum = if first_fit < MIN_PAD_SIZE { first_fit + align } else { first_fit };
    if size + with_minimum < max_of(block_size, PACKET_MIN_SIZE as int) { with_minimum + align } else { with_minimum }
}

/// Adding to `size` the distance to the next multiple of `align`, possibly
/// plus whole multiples of `align`, lands on a multiple of `align` that is
/// at least `align`.
proof fn lemma_align_step(size: int, align: int, p: int)
    requires
        size >= 1,
        align >= 1,
        p >= 0,
        p % align == (align - size % align) % align,
    ensures
        (size + p) % align == 0,
        size + p >= align,
{
    let r = size % align;
    let q = (align - r) % align;
    vstd::arithmetic::div_mod::lemma_mod_bound(size, align);
    vstd::arithmetic::div_mod::lemma_add_mod_noop(size, p, align);
    assert((size + p) % align == (r + q) % align);
    vstd::arithmetic::div_mod::lemma_mod_self_0(align);
    if r == 0 {
        assert(q == 0);
        vstd::arithmetic::div_mod::lemma_small_mod(0, align as nat);
    } else {
        vstd::arithmetic::div_mod::lemma_small_mod((align - r) as nat, align as nat);
        assert(r + q == align);
    }
    if size + p < align {
        vstd::arithmetic::div_mod::lemma_small_mod((size + p) as nat, align as nat);
    }
}

/// `p % m` does not change when `m` is added to `p`.
proof fn lemma_mod_add_align(p: int, m: int)
    requires
        m >= 1,
    ensures
        (p + m) % m == p % m,
{
    vstd::arithmetic::div_mod::lemma_mod_add_multiples_vanish(p, m);
}

/// The padding that [`padding_spec`] gives fits in the `padding_length`
/// byte, is at least the mandated minimum, aligns the frame and brings it to
/// the minimum packet size.
pub proof fn lemma_padding_spec(block_size: int, etm: bool, payload: int)
    requires
        0 <= block_size <= MAX_BLOCK_SIZE,
        payload >= 0,
    ensures
        MIN_PAD_SIZE <= padding_spec(block_size, etm, payload) <= 255,
        (header_of(etm) + payload + padding_spec(block_size, etm, payload)) % align_of(block_size)
            == 0,
        header_of(etm) + payload + padding_spec(block_size, etm, payload) >= max_of(
            block_size,
            PACKET_MIN_SIZE as int,
        ),
{
    let align = align_of(block_size);
    let size = header_of(etm) + payload;
    let first_fit = (align - size % align) % align;
    let with_minimum = if first_fit < MIN_PAD_SIZE { first_fit + align } else { first_fit };
    let p = padding_spec(block_size, etm, payload);
    vstd::arithmetic::div_mod::lemma_mod_bound(size, align);
    vstd::arithmetic::div_mod::lemma_mod_bound(align - size % align, align);
    vstd::arithmetic::div_mod::lemma_small_mod(first_fit as nat, align as nat);
    lemma_mod_add_align(first_fit, align);
    lemma_mod_add_align(with_minimum, align);
    lemma_align_step(size, align, first_fit);
    lemma_align_step(size, align, with_minimum);
    lemma_align_step(size, align, p);
}

/// Calculate the padding length for a payload of `payload` bytes,
/// framed for a cipher of block size `block_size`, whose MAC is computed over
/// ciphertext (`etm`) or over plaintext.
pub fn padding(block_size: usize, etm: bool, payload: usize) -> (r: u8)
    requires
        block_size <= MAX_BLOCK_SIZE,
    ensures
        r == padding_spec(block_size as int, etm, payload as int),
        MIN_PAD_SIZE <= r,
        (header_of(etm) + payload + r) % align_of(block_size as int) == 0,
        header_of(etm) + payload + r >= max_of(block_size as int, PACKET_MIN_SIZE as int),
{
    let align: usize = if block_size >= MIN_ALIGN { block_size } else { MIN_ALIGN };
    let header: usize = if etm { 1 } else { 5 };
    // (header + payload) % align, without the sum overflowing
    let rem: usize = (header + payload % align) % align;
    let first_fit: usize = (align - rem) % align;
    let with_minimum: usize = if first_fit < MIN_PAD_SIZE { first_fit + align } else { first_fit };
    let floor: usize = if block_size >= PACKET_MIN_SIZE { block_size } else { PACKET_MIN_SIZE };
    let small: bool = payload < floor && header + payload + with_minimum < floor;
    let p: usize = if small { with_minimum + align } else { with_minimum };
    proof {
        let size = header + payload;
        assert(rem == size % (align as int)) by {
            vstd::arithmetic::div_mod::lemma_add_mod_noop(header as int, payload as int, align as int);
            vstd::arithmetic::div_mod::lemma_small_mod(header as nat, align as nat);
        }
        vstd::arithmetic::div_mod::lemma_mod_bound(align - rem, align as int);
        vstd::arithmetic::div_mod::lemma_small_mod(first_fit as nat, align as nat);
        lemma_mod_add_align(first_fit as int, align as int);
        lemma_mod_add_align(with_minimum as int, align as int);
        lemma_align_step(size, align as int, first_fit as int);
        lemma_align_step(size, align as int, with_minimum as int);
        lemma_align_step(size, align as int, p as int);
        if !small && size + with_minimum < floor {
            assert(payload >= floor);
        }
    }
    p as u8
}

/// A SSH 2.0 binary packet in its logical form: the payload of one message.
///
/// see <https://datatracker.ietf.org/doc/html/rfc4253#section-6>.
#[derive(Debug, Clone)]
pub struct Packet {
    /// SSH packet's payload as binary.
    pub payload: Vec<u8>,
}

/// A frame with a `packet_length` of `len` is acceptable for a cipher of
/// block size `block_size`: it holds the `padding_length` byte, stays under
/// the cap and fills at least the first block.
pub open spec fn length_ok(len: int, block_size: int) -> bool {
    1 <= len <= PACKET_MAX_SIZE && block_size <= 4 + len
}

/// The plaintext frame `length ‖ padding_length ‖ payload ‖ padding`.
pub open spec fn frame_spec(payload: Seq<u8>, pad: Seq<u8>) -> Seq<u8> {
    be32((1 + payload.len() + pad.len()) as u32) + seq![pad.len() as u8] + payload + pad
}

/// The payload that the plaintext frame `plain` carries.
pub open spec fn unpad_spec(plain: Seq<u8>) -> Result<Seq<u8>, Error> {
    let len = be32_value(plain);
    let padlen = plain[4];
    if padlen > len - 1 {
        Err(Error::BadLength)
    } else {
        Ok(plain.subrange(5, 4 + len - padlen))
    }
}

/// The first block of a frame as plaintext, and the cipher's state after it.
pub open spec fn head_spec<C: OpeningCipher>(c: C, block: Seq<u8>) -> Result<(Seq<u8>, C), Error> {
    if c.spec_mac().spec_etm() {
        Ok((block, c))
    } else {
        match c.spec_decrypt(block) {
            Ok(plain) => Ok((plain, c.spec_after_decrypt(block))),
            Err(e) => Err(e),
        }
    }
}

/// Strips the padding of the plaintext frame `plain` and decompresses the payload.
pub open spec fn finish_spec<C: OpeningCipher>(c: C, plain: Seq<u8>) -> Result<Seq<u8>, Error> {
    match unpad_spec(plain) {
        Ok(packed) => c.spec_decompress(packed),
        Err(e) => Err(e),
    }
}

/// The payload of the whole `frame` (its first block already as plaintext
/// when the length is encrypted) authenticated by `mac`.
pub open spec fn body_spec<C: OpeningCipher>(c: C, frame: Seq<u8>, mac: Seq<u8>, seq: u32) -> Result<
    Seq<u8>,
    Error,
> {
    let bs = c.spec_block_size() as int;
    if c.spec_mac().spec_etm() {
        if mac != c.spec_tag(seq, frame) {
            Err(Error::MacMismatch)
        } else {
            let data = frame.subrange(4, frame.len() as int);
            match c.spec_decrypt(data) {
                Ok(plain) => finish_spec(
                    c.spec_after_decrypt(data),
                    frame.subrange(0, 4) + plain,
                ),
                Err(e) => Err(e),
            }
        }
    } else {
        let data = frame.subrange(bs, frame.len() as int);
        match c.spec_decrypt(data) {
            Ok(rest) => {
                let plain = frame.subrange(0, bs) + rest;
                let after = c.spec_after_decrypt(data);
                if mac != after.spec_tag(seq, plain) {
                    Err(Error::MacMismatch)
                } else {
                    finish_spec(after, plain)
                }
            },
            Err(e) => Err(e),
        }
    }
}

/// Reading one packet from `input`: its payload and the number of bytes it took.
pub open spec fn read_spec<C: OpeningCipher>(c: C, input: Seq<u8>, seq: u32) -> Result<
    (Seq<u8>, nat),
    Error,
> {
    let bs = c.spec_block_size() as int;
    let m = c.spec_mac().spec_size() as int;
    if input.len() < bs {
        Err(Error::TruncatedInput)
    } else {
        match head_spec(c, input.subrange(0, bs)) {
            Ok((head, after)) => {
                let len = be32_value(head);
                if !length_ok(len, bs) {
                    Err(Error::BadLength)
                } else if input.len() < 4 + len + m {
                    Err(Error::TruncatedInput)
                } else {
                    let frame = head + input.subrange(bs, 4 + len);
                    let mac = input.subrange(4 + len, 4 + len + m);
                    match body_spec(after, frame, mac, seq) {
                        Ok(payload) => Ok((payload, (4 + len + m) as nat)),
                        Err(e) => Err(e),
                    }
                }
            },
            Err(e) => Err(e),
        }
    }
}

/// Writing a packet of `payload`: the frame as it goes on the wire, MAC included.
pub open spec fn write_spec<C: SealingCipher>(c: C, payload: Seq<u8>, seq: u32) -> Result<
    Seq<u8>,
    Error,
> {
    match c.spec_compress(payload) {
        Ok(packed) => {
            let c1 = c.spec_after_compress(payload);
            let etm = c.spec_mac().spec_etm();
            let p = padding_spec(c.spec_block_size() as int, etm, packed.len() as int);
            if 1 + packed.len() + p > PACKET_MAX_SIZE {
                Err(Error::BadLength)
            } else {
                match c1.spec_pad(p as nat) {
                    Ok(pad) => seal_spec(
                        c1.spec_after_pad(p as nat),
                        frame_spec(packed, pad),
                        seq,
                    ),
                    Err(e) => Err(e),
                }
            }
        },
        Err(e) => Err(e),
    }
}

/// Encrypting the plaintext frame `plain` as the cipher's mode asks, and
/// appending its MAC.
pub open spec fn seal_spec<C: SealingCipher>(c: C, plain: Seq<u8>, seq: u32) -> Result<
    Seq<u8>,
    Error,
> {
    if c.spec_mac().spec_etm() {
        let data = plain.subrange(4, plain.len() as int);
        match c.spec_encrypt(data) {
            Ok(sealed) => {
                let wire = plain.subrange(0, 4) + sealed;
                match c.spec_after_encrypt(data).spec_seal(seq, wire) {
                    Ok(tag) => Ok(wire + tag),
                    Err(e) => Err(e),
                }
            },
            Err(e) => Err(e),
        }
    } else {
        match c.spec_seal(seq, plain) {
            Ok(tag) => match c.spec_encrypt(plain) {
                Ok(sealed) => Ok(sealed + tag),
                Err(e) => Err(e),
            },
            Err(e) => Err(e),
        }
    }
}

impl Packet {
    /// Open the first block of a frame, `block`, in place, and check the
    /// `packet_length` it declares: what follows are the number of frame bytes
    /// still to read, then the MAC.
    pub fn read_head<C: OpeningCipher>(cipher: &mut C, block: &mut Vec<u8>) -> (r: Result<
        usize,
        Error,
    >)
        requires
            old(block)@.len() == old(cipher).spec_block_size(),
            4 <= old(cipher).spec_block_size(),
        ensures
            final(cipher).spec_block_size() == old(cipher).spec_block_size(),
            final(cipher).spec_mac() == old(cipher).spec_mac(),
            final(block)@.len() == old(block)@.len(),
            match head_spec(*old(cipher), old(block)@) {
                Ok((head, after)) => {
                    let len = be32_value(head);
                    &&& final(block)@ == head
                    &&& *final(cipher) == after
                    &&& if length_ok(len, old(block)@.len() as int) {
                        r == Ok::<usize, Error>((4 + len - old(block)@.len()) as usize)
                    } else {
                        r == Err::<usize, Error>(Error::BadLength)
                    }
                },
                Err(e) => r == Err::<usize, Error>(e),
            },
    {
        let etm = cipher.mac().etm();
        if !etm {
            assert(old(block)@.subrange(0, old(block)@.len() as int) =~= old(block)@);
            match cipher.decrypt(block, 0) {
                Ok(()) => {},
                Err(e) => {
                    return Err(e);
                },
            }
            assert(old(block)@.subrange(0, 0) =~= seq![]);
        }
        let bs = block.len();
        let len = get_u32(block.as_slice(), 0);
        proof {
            assert(block@.subrange(0, 4) =~= block@.subrange(0, 4));
            assert(be32_value(block@.subrange(0, 4)) == be32_value(block@));
        }
        if len < 1 || len as usize > PACKET_MAX_SIZE || (len as usize) + 4 < bs {
            return Err(Error::BadLength);
        }
        Ok(len as usize + 4 - bs)
    }

    /// Authenticate and open the whole `frame` (its first block as
    /// [`Packet::read_head`] left it) with its `mac`, and extract the payload.
    pub fn read_body<C: OpeningCipher>(
        cipher: &mut C,
        frame: Vec<u8>,
        mac: Vec<u8>,
        seq: u32,
    ) -> (r: Result<Packet, Error>)
        requires
            4 <= old(cipher).spec_block_size(),
            frame@.len() >= 4,
            length_ok(be32_value(frame@), old(cipher).spec_block_size() as int),
            frame@.len() == 4 + be32_value(frame@),
        ensures
            match body_spec(*old(cipher), frame@, mac@, seq) {
                Ok(payload) => r is Ok && r->Ok_0.payload@ == payload,
                Err(e) => r == Err::<Packet, Error>(e),
            },
    {
        let ghost c0 = *cipher;
        let ghost frame0 = frame@;
        let etm = cipher.mac().etm();
        let bs = cipher.block_size();
        let mut frame = frame;
        let ghost len = be32_value(frame0);
        if etm {
            match cipher.open(&frame, &mac, seq) {
                Ok(()) => {},
                Err(e) => {
                    return Err(e);
                },
            }
            match cipher.decrypt(&mut frame, 4) {
                Ok(()) => {},
                Err(e) => {
                    return Err(e);
                },
            }
            assert(frame0.subrange(0, 4) =~= frame@.subrange(0, 4));
        } else {
            match cipher.decrypt(&mut frame, bs) {
                Ok(()) => {},
                Err(e) => {
                    return Err(e);
                },
            }
            match cipher.open(&frame, &mac, seq) {
                Ok(()) => {},
                Err(e) => {
                    return Err(e);
                },
            }
            assert(frame0.subrange(0, 4) =~= frame@.subrange(0, 4)) by {
                assert(frame@.subrange(0, 4) =~= frame0.subrange(0, bs as int).subrange(0, 4));
            }
        }
        // The length field is the same before and after decryption.
        assert(be32_value(frame@) == len) by {
            assert(frame@[0] == frame@.subrange(0, 4)[0]);
            assert(frame@[1] == frame@.subrange(0, 4)[1]);
            assert(frame@[2] == frame@.subrange(0, 4)[2]);
            assert(frame@[3] == frame@.subrange(0, 4)[3]);
            assert(frame0[0] == frame0.subrange(0, 4)[0]);
            assert(frame0[1] == frame0.subrange(0, 4)[1]);
            assert(frame0[2] == frame0.subrange(0, 4)[2]);
            assert(frame0[3] == frame0.subrange(0, 4)[3]);
        }
        let plen = get_u32(frame.as_slice(), 0);
        assert(be32_value(frame@.subrange(0, 4)) == be32_value(frame@));
        let padlen = frame[4];
        if padlen as u32 > plen - 1 {
            return Err(Error::BadLength);
        }
        let end = 4 + plen as usize - padlen as usize;
        let packed = copy_range(frame.as_slice(), 5, end);
        match cipher.decompress(packed) {
            Ok(payload) => Ok(Packet { payload }),
            Err(e) => Err(e),
        }
    }

    /// Read a [`Packet`] from the start of `input`, returning it with the
    /// number of bytes its frame and MAC took.
    pub fn from_bytes<C: OpeningCipher>(input: &[u8], cipher: &mut C, seq: u32) -> (r: Result<
        (Packet, usize),
        Error,
    >)
        requires
            4 <= old(cipher).spec_block_size(),
        ensures
            match read_spec(*old(cipher), input@, seq) {
                Ok((payload, used)) => {
                    &&& r is Ok
                    &&& r->Ok_0.0.payload@ == payload
                    &&& r->Ok_0.1 == used
                },
                Err(e) => r == Err::<(Packet, usize), Error>(e),
            },
    {
        let bs = cipher.block_size();
        if input.len() < bs {
            return Err(Error::TruncatedInput);
        }
        let mut frame = copy_range(input, 0, bs);
        let rest = match Packet::read_head(cipher, &mut frame) {
            Ok(rest) => rest,
            Err(e) => {
                return Err(e);
            },
        };
        let m = cipher.mac().size();
        let ghost len = be32_value(frame@);
        let end = bs + rest;
        assert(end == 4 + len);
        if input.len() < end || input.len() - end < m {
            return Err(Error::TruncatedInput);
        }
        let ghost head = frame@;
        let tail = copy_range(input, bs, end);
        put_all(&mut frame, tail.as_slice());
        let mac = copy_range(input, end, end + m);
        assert(be32_value(frame@) == len) by {
            assert(frame@[0] == head[0]);
            assert(frame@[1] == head[1]);
            assert(frame@[2] == head[2]);
            assert(frame@[3] == head[3]);
        }
        match Packet::read_body(cipher, frame, mac, seq) {
            Ok(packet) => Ok((packet, end + m)),
            Err(e) => Err(e),
        }
    }

    /// Seal the [`Packet`] into the bytes to send to the remote: the frame,
    /// encrypted as the cipher's mode asks, followed by its MAC.
    pub fn to_bytes<C: SealingCipher>(&self, cipher: &mut C, seq: u32) -> (r: Result<
        Vec<u8>,
        Error,
    >)
        requires
            old(cipher).spec_block_size() <= MAX_BLOCK_SIZE,
        ensures
            match write_spec(*old(cipher), self.payload@, seq) {
                Ok(wire) => r is Ok && r->Ok_0@ == wire,
                Err(e) => r == Err::<Vec<u8>, Error>(e),
            },
            r is Ok ==> ({
                let packed = old(cipher).spec_compress(self.payload@)->Ok_0;
                let p = padding_spec(
                    old(cipher).spec_block_size() as int,
                    old(cipher).spec_mac().spec_etm(),
                    packed.len() as int,
                );
                &&& old(cipher).spec_compress(self.payload@) is Ok
                &&& r->Ok_0@.len() == 4 + 1 + packed.len() + p + old(cipher).spec_mac().spec_size()
            }),
    {
        let ghost c0 = *cipher;
        let etm = cipher.mac().etm();
        let bs = cipher.block_size();
        let packed = match cipher.compress(&self.payload) {
            Ok(packed) => packed,
            Err(e) => {
                return Err(e);
            },
        };
        let padlen = padding(bs, etm, packed.len());
        if packed.len() > PACKET_MAX_SIZE || 1 + packed.len() + padlen as usize > PACKET_MAX_SIZE {
            return Err(Error::BadLength);
        }
        let len = (1 + packed.len() + padlen as usize) as u32;
        let mut buf: Vec<u8> = Vec::new();
        put_u32(&mut buf, len);
        buf.push(padlen);
        put_all(&mut buf, packed.as_slice());
        let ghost c1 = *cipher;
        match cipher.pad(&mut buf, padlen) {
            Ok(()) => {},
            Err(e) => {
                return Err(e);
            },
        }
        proof {
            let pad = c1.spec_pad(padlen as nat)->Ok_0;
            assert(pad.len() == padlen);
            assert(buf@ =~= frame_spec(packed@, pad));
        }
        if etm {
            let ghost plain = buf@;
            match cipher.encrypt(&mut buf, 4) {
                Ok(()) => {},
                Err(e) => {
                    return Err(e);
                },
            }
            let tag = match cipher.seal(&buf, seq) {
                Ok(tag) => tag,
                Err(e) => {
                    return Err(e);
                },
            };
            assert(buf@.subrange(0, 4) =~= plain.subrange(0, 4));
            put_all(&mut buf, tag.as_slice());
            Ok(buf)
        } else {
            let tag = match cipher.seal(&buf, seq) {
                Ok(tag) => tag,
                Err(e) => {
                    return Err(e);
                },
            };
            assert(buf@.subrange(0, buf@.len() as int) =~= buf@);
            assert(buf@.subrange(0, 0) =~= seq![]);
            match cipher.encrypt(&mut buf, 0) {
                Ok(()) => {},
                Err(e) => {
                    return Err(e);
                },
            }
            put_all(&mut buf, tag.as_slice());
            Ok(buf)
        }
    }
}

} // verus!
