use vstd::prelude::*;

use crate::checksum::{checksum, xor_all, ChecksumCipher};
use crate::cipher::{CipherCore, Mac, OpeningCipher, SealingCipher};
use crate::error::Error;
use crate::none::NoneCipher;
use crate::packet::{
    body_spec, frame_spec, head_spec, header_of, lemma_padding_spec, length_ok, padding_spec,
    read_spec, seal_spec, unpad_spec, write_spec, MAX_BLOCK_SIZE, PACKET_MAX_SIZE,
};
use crate::wire::{be32, be32_value, lemma_be32_value};

verus! {

/// A sealing cipher that changes nothing: it compresses and encrypts to the
/// same bytes, draws as many padding bytes as asked without failing, seals with an empty MAC, and
/// keeps its state.
pub open spec fn identity_sealer<C: SealingCipher>(c: C) -> bool {
    &&& c.spec_mac().spec_size() == 0
    &&& forall|d: Seq<u8>| #[trigger] c.spec_compress(d) == Ok::<Seq<u8>, Error>(d)
    &&& forall|d: Seq<u8>| #[trigger] c.spec_after_compress(d) == c
    &&& forall|n: nat| #[trigger] c.spec_pad(n) is Ok && c.spec_pad(n)->Ok_0.len() == n
    &&& forall|n: nat| #[trigger] c.spec_after_pad(n) == c
    &&& forall|d: Seq<u8>| #[trigger] c.spec_encrypt(d) == Ok::<Seq<u8>, Error>(d)
    &&& forall|d: Seq<u8>| #[trigger] c.spec_after_encrypt(d) == c
    &&& forall|s: u32, d: Seq<u8>| #[trigger] c.spec_seal(s, d) == Ok::<Seq<u8>, Error>(Seq::empty())
}

/// An opening cipher that changes nothing: it decrypts and decompresses to
/// the same bytes, expects an empty MAC, and keeps its state.
pub open spec fn identity_opener<C: OpeningCipher>(c: C) -> bool {
    &&& c.spec_mac().spec_size() == 0
    &&& forall|d: Seq<u8>| #[trigger] c.spec_decrypt(d) == Ok::<Seq<u8>, Error>(d)
    &&& forall|d: Seq<u8>| #[trigger] c.spec_after_decrypt(d) == c
    &&& forall|s: u32, d: Seq<u8>| #[trigger] c.spec_tag(s, d) == Seq::<u8>::empty()
    &&& forall|d: Seq<u8>| #[trigger] c.spec_decompress(d) == Ok::<Seq<u8>, Error>(d)
}

/// Writing a packet through a cipher that changes nothing and reading the
/// bytes back through another such cipher, with the same block size and
/// mode, gives the payload again, and the reader takes exactly the bytes
/// written. The padding bytes may be anything.
pub proof fn lemma_identity_round_trip<W: SealingCipher, R: OpeningCipher>(
    w: W,
    r: R,
    payload: Seq<u8>,
    seq: u32,
)
    requires
        identity_sealer(w),
        identity_opener(r),
        w.spec_block_size() == r.spec_block_size(),
        4 <= w.spec_block_size() <= MAX_BLOCK_SIZE,
        w.spec_mac().spec_etm() == r.spec_mac().spec_etm(),
        1 + payload.len() + padding_spec(
            w.spec_block_size() as int,
            w.spec_mac().spec_etm(),
            payload.len() as int,
        ) <= PACKET_MAX_SIZE,
    ensures
        write_spec(w, payload, seq) is Ok,
        read_spec(r, write_spec(w, payload, seq)->Ok_0, seq) == Ok::<(Seq<u8>, nat), Error>(
            (payload, write_spec(w, payload, seq)->Ok_0.len()),
        ),
{
    let bs = w.spec_block_size() as int;
    let etm = w.spec_mac().spec_etm();
    let p = padding_spec(bs, etm, payload.len() as int);
    lemma_padding_spec(bs, etm, payload.len() as int);
    assert(w.spec_compress(payload) == Ok::<Seq<u8>, Error>(payload));
    assert(w.spec_after_compress(payload) == w);
    assert(w.spec_pad(p as nat) is Ok);
    let pad = w.spec_pad(p as nat)->Ok_0;
    assert(w.spec_after_pad(p as nat) == w);
    let plain = frame_spec(payload, pad);
    let len = (1 + payload.len() + p) as u32;
    lemma_be32_value(len);
    assert(plain.len() == 4 + len);
    if etm {
        let data = plain.subrange(4, plain.len() as int);
        assert(w.spec_encrypt(data) == Ok::<Seq<u8>, Error>(data));
        assert(w.spec_after_encrypt(data) == w);
        assert(plain.subrange(0, 4) + data =~= plain);
        assert(w.spec_seal(seq, plain) == Ok::<Seq<u8>, Error>(Seq::empty()));
    } else {
        assert(w.spec_seal(seq, plain) == Ok::<Seq<u8>, Error>(Seq::empty()));
        assert(w.spec_encrypt(plain) == Ok::<Seq<u8>, Error>(plain));
    }
    assert(plain + Seq::<u8>::empty() =~= plain);
    assert(seal_spec(w, plain, seq) == Ok::<Seq<u8>, Error>(plain));
    assert(write_spec(w, payload, seq) == Ok::<Seq<u8>, Error>(plain));
    // reading it back
    let block = plain.subrange(0, bs);
    assert(r.spec_decrypt(block) == Ok::<Seq<u8>, Error>(block));
    assert(r.spec_after_decrypt(block) == r);
    assert(head_spec(r, block) == Ok::<(Seq<u8>, R), Error>((block, r)));
    assert(plain.subrange(0, 4) =~= be32(len));
    assert(be32_value(block) == be32_value(be32(len))) by {
        assert(block[0] == plain[0] && block[1] == plain[1]);
        assert(block[2] == plain[2] && block[3] == plain[3]);
    }
    assert(header_of(etm) <= 5);
    assert(length_ok(len as int, bs));
    let frame = block + plain.subrange(bs, 4 + len);
    assert(frame =~= plain);
    assert(plain.subrange(4 + len, 4 + len) =~= Seq::<u8>::empty());
    assert(plain[4] == p as u8);
    assert(plain.subrange(5, 4 + len - p) =~= payload);
    assert(unpad_spec(plain) == Ok::<Seq<u8>, Error>(payload));
    assert(r.spec_decompress(payload) == Ok::<Seq<u8>, Error>(payload));
    assert(r.spec_tag(seq, plain) == Seq::<u8>::empty());
    if etm {
        let data = plain.subrange(4, plain.len() as int);
        assert(r.spec_decrypt(data) == Ok::<Seq<u8>, Error>(data));
        assert(r.spec_after_decrypt(data) == r);
        assert(plain.subrange(0, 4) + data =~= plain);
    } else {
        let data = plain.subrange(bs, plain.len() as int);
        assert(r.spec_decrypt(data) == Ok::<Seq<u8>, Error>(data));
        assert(r.spec_after_decrypt(data) == r);
        assert(plain.subrange(0, bs) + data =~= plain);
    }
    assert(body_spec(r, frame, Seq::empty(), seq) == Ok::<Seq<u8>, Error>(payload));
}

/// Writing a packet through the `none` cipher and reading the bytes back
/// gives the payload again, and the reader takes exactly the bytes written.
pub proof fn lemma_none_round_trip(c: NoneCipher, d: NoneCipher, payload: Seq<u8>, seq: u32)
    requires
        1 + payload.len() + padding_spec(8, false, payload.len() as int) <= PACKET_MAX_SIZE,
    ensures
        write_spec(c, payload, seq) is Ok,
        read_spec(d, write_spec(c, payload, seq)->Ok_0, seq) == Ok::<(Seq<u8>, nat), Error>(
            (payload, write_spec(c, payload, seq)->Ok_0.len()),
        ),
{
    assert(identity_sealer(c));
    assert(identity_opener(d));
    lemma_identity_round_trip(c, d, payload, seq);
}

/// A frame whose first block declares a `packet_length` over the cap is
/// refused with `BadLength`, whatever follows that block: the reader looks at
/// no byte past it.
pub proof fn lemma_oversized_rejected<C: OpeningCipher>(
    c: C,
    block: Seq<u8>,
    rest: Seq<u8>,
    seq: u32,
)
    requires
        block.len() == c.spec_block_size(),
        head_spec(c, block) is Ok,
        be32_value(head_spec(c, block)->Ok_0.0) > PACKET_MAX_SIZE,
    ensures
        read_spec(c, block + rest, seq) == Err::<(Seq<u8>, nat), Error>(Error::BadLength),
{
    assert((block + rest).subrange(0, block.len() as int) =~= block);
}

/// Changing any byte of the MAC of a frame that reads successfully makes the
/// reader fail with `MacMismatch`.
pub proof fn lemma_mac_tamper_detected<C: OpeningCipher>(
    c: C,
    input: Seq<u8>,
    seq: u32,
    i: int,
    b: u8,
)
    requires
        read_spec(c, input, seq) is Ok,
        c.spec_mac().spec_size() > 0,
        read_spec(c, input, seq)->Ok_0.1 - c.spec_mac().spec_size() <= i < read_spec(
            c,
            input,
            seq,
        )->Ok_0.1,
        b != input[i],
    ensures
        read_spec(c, input.update(i, b), seq) == Err::<(Seq<u8>, nat), Error>(Error::MacMismatch),
{
    let bs = c.spec_block_size() as int;
    let m = c.spec_mac().spec_size() as int;
    let tampered = input.update(i, b);
    assert(tampered.subrange(0, bs) =~= input.subrange(0, bs));
    let head = head_spec(c, input.subrange(0, bs))->Ok_0.0;
    let after = head_spec(c, input.subrange(0, bs))->Ok_0.1;
    let len = be32_value(head);
    assert(tampered.subrange(bs, 4 + len) =~= input.subrange(bs, 4 + len));
    let mac = input.subrange(4 + len, 4 + len + m);
    let mac2 = tampered.subrange(4 + len, 4 + len + m);
    assert(mac2[i - 4 - len] != mac[i - 4 - len]);
    assert(mac2 != mac);
}

/// With the MAC computed over ciphertext, changing any byte of a frame that
/// reads successfully, past its length field, makes the reader fail with
/// `MacMismatch` whenever the MAC tells the two frames apart.
pub proof fn lemma_frame_tamper_detected<C: OpeningCipher>(
    c: C,
    input: Seq<u8>,
    seq: u32,
    i: int,
    b: u8,
)
    requires
        4 <= c.spec_block_size(),
        c.spec_mac().spec_etm(),
        read_spec(c, input, seq) is Ok,
        4 <= i < read_spec(c, input, seq)->Ok_0.1 - c.spec_mac().spec_size(),
        c.spec_tag(seq, input.update(i, b).subrange(
            0,
            read_spec(c, input, seq)->Ok_0.1 - c.spec_mac().spec_size(),
        )) != c.spec_tag(
            seq,
            input.subrange(0, read_spec(c, input, seq)->Ok_0.1 - c.spec_mac().spec_size()),
        ),
    ensures
        read_spec(c, input.update(i, b), seq) == Err::<(Seq<u8>, nat), Error>(Error::MacMismatch),
{
    let bs = c.spec_block_size() as int;
    let m = c.spec_mac().spec_size() as int;
    let tampered = input.update(i, b);
    assert(input.len() >= bs);
    let len = be32_value(input.subrange(0, bs));
    assert(be32_value(tampered.subrange(0, bs)) == len) by {
        assert(tampered.subrange(0, bs)[0] == input.subrange(0, bs)[0]);
        assert(tampered.subrange(0, bs)[1] == input.subrange(0, bs)[1]);
        assert(tampered.subrange(0, bs)[2] == input.subrange(0, bs)[2]);
        assert(tampered.subrange(0, bs)[3] == input.subrange(0, bs)[3]);
    }
    assert(input.subrange(0, bs) + input.subrange(bs, 4 + len) =~= input.subrange(0, 4 + len));
    assert(tampered.subrange(0, bs) + tampered.subrange(bs, 4 + len) =~= tampered.subrange(
        0,
        4 + len,
    ));
    assert(tampered.subrange(4 + len, 4 + len + m) =~= input.subrange(4 + len, 4 + len + m));
}

/// The sum of the bytes of `d`.
pub open spec fn byte_sum(d: Seq<u8>) -> int
    decreases d.len(),
{
    if d.len() == 0 {
        0
    } else {
        byte_sum(d.drop_last()) + d.last()
    }
}

proof fn lemma_checksum_sum(seq: u32, d: Seq<u8>)
    ensures
        checksum(seq, d) == (seq % 256 + byte_sum(d)) % 256,
    decreases d.len(),
{
    if d.len() > 0 {
        lemma_checksum_sum(seq, d.drop_last());
        vstd::arithmetic::div_mod::lemma_add_mod_noop(
            seq % 256 + byte_sum(d.drop_last()),
            d.last() as int,
            256,
        );
        vstd::arithmetic::div_mod::lemma_small_mod(d.last() as nat, 256);
    }
}

proof fn lemma_byte_sum_update(d: Seq<u8>, j: int, b: u8)
    requires
        0 <= j < d.len(),
    ensures
        byte_sum(d.update(j, b)) == byte_sum(d) - d[j] + b,
    decreases d.len(),
{
    if j == d.len() - 1 {
        assert(d.update(j, b).drop_last() =~= d.drop_last());
    } else {
        assert(d.update(j, b).drop_last() =~= d.drop_last().update(j, b));
        lemma_byte_sum_update(d.drop_last(), j, b);
    }
}

/// Changing one byte of the data always changes its checksum.
pub proof fn lemma_checksum_detects(seq: u32, d: Seq<u8>, j: int, b: u8)
    requires
        0 <= j < d.len(),
        b != d[j],
    ensures
        checksum(seq, d.update(j, b)) != checksum(seq, d),
{
    lemma_checksum_sum(seq, d);
    lemma_checksum_sum(seq, d.update(j, b));
    lemma_byte_sum_update(d, j, b);
    let x = seq % 256 + byte_sum(d);
    let t = b - d[j];
    vstd::arithmetic::div_mod::lemma_mod_equivalence(x + t, x, 256);
    assert(t % 256 != 0) by {
        if t > 0 {
            vstd::arithmetic::div_mod::lemma_small_mod(t as nat, 256);
        } else {
            vstd::arithmetic::div_mod::lemma_mod_add_multiples_vanish(t, 256);
            vstd::arithmetic::div_mod::lemma_small_mod((t + 256) as nat, 256);
        }
    }
}

/// Through a [`ChecksumCipher`], in either mode, changing any byte of a
/// frame that reads successfully, past its length field and MAC included,
/// makes the reader fail with `MacMismatch`.
pub proof fn lemma_checksum_tamper_detected(
    c: ChecksumCipher,
    input: Seq<u8>,
    seq: u32,
    i: int,
    b: u8,
)
    requires
        read_spec(c, input, seq) is Ok,
        4 <= i < read_spec(c, input, seq)->Ok_0.1,
        b != input[i],
    ensures
        read_spec(c, input.update(i, b), seq) == Err::<(Seq<u8>, nat), Error>(Error::MacMismatch),
{
    let used = read_spec(c, input, seq)->Ok_0.1;
    if i == used - 1 {
        lemma_mac_tamper_detected(c, input, seq, i, b);
    } else {
        let tampered = input.update(i, b);
        let block = input.subrange(0, 8);
        let block2 = tampered.subrange(0, 8);
        let head = head_spec(c, block)->Ok_0.0;
        let head2 = head_spec(c, block2)->Ok_0.0;
        let len = be32_value(head);
        assert(be32_value(head2) == len) by {
            assert(head2[0] == head[0]);
            assert(head2[1] == head[1]);
            assert(head2[2] == head[2]);
            assert(head2[3] == head[3]);
        }
        assert(length_ok(len, 8));
        assert(used == 4 + len + 1);
        let frame = input.subrange(0, 4 + len);
        assert(tampered.subrange(0, 4 + len) =~= frame.update(i, b));
        assert(tampered.subrange(4 + len, 4 + len + 1) =~= input.subrange(4 + len, 4 + len + 1));
        if c.mac.etm {
            lemma_checksum_detects(seq, frame, i, b);
            let t1 = checksum(seq, frame.update(i, b));
            let t2 = checksum(seq, frame);
            assert(seq![t1][0] == t1 && seq![t2][0] == t2);
            assert(c.spec_tag(seq, frame.update(i, b)) != c.spec_tag(seq, frame));
            assert(input.subrange(0, 8) + input.subrange(8, 4 + len) =~= frame);
            lemma_frame_tamper_detected(c, input, seq, i, b);
        } else {
            let plain = xor_all(frame, c.key);
            let plain2 = xor_all(frame.update(i, b), c.key);
            assert(head + xor_all(input.subrange(8, 4 + len), c.key) =~= plain);
            assert(head2 + xor_all(tampered.subrange(8, 4 + len), c.key) =~= plain2);
            let x = input[i];
            let k = c.key;
            assert((b ^ k) != (x ^ k)) by (bit_vector)
                requires
                    b != x,
            ;
            assert(plain2 =~= plain.update(i, b ^ c.key));
            lemma_checksum_detects(seq, plain, i, b ^ c.key);
            let t1 = checksum(seq, plain2);
            let t2 = checksum(seq, plain);
            assert(seq![t1][0] == t1 && seq![t2][0] == t2);
            assert((head + input.subrange(8, 4 + len)).subrange(8, 4 + len) =~= input.subrange(
                8,
                4 + len,
            ));
            assert((head2 + tampered.subrange(8, 4 + len)).subrange(8, 4 + len)
                =~= tampered.subrange(8, 4 + len));
            assert((head + input.subrange(8, 4 + len)).subrange(0, 8) =~= head);
            assert((head2 + tampered.subrange(8, 4 + len)).subrange(0, 8) =~= head2);
            let mac = input.subrange(4 + len, 4 + len + 1);
            assert(mac == seq![t2]);
            assert(mac != seq![t1]);
        }
    }
}

} // verus!
