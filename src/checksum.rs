use vstd::prelude::*;

use crate::cipher::{CipherCore, Mac, OpeningCipher, SealingCipher};
use crate::error::Error;

verus! {

/// Every byte of `data` XORed with `key`.
pub open spec fn xor_all(data: Seq<u8>, key: u8) -> Seq<u8> {
    Seq::new(data.len(), |i: int| data[i] ^ key)
}

/// The sum of the low byte of `seq` and of the bytes of `data`, modulo 256.
pub open spec fn checksum(seq: u32, data: Seq<u8>) -> u8
    decreases data.len(),
{
    if data.len() == 0 {
        (seq % 256) as u8
    } else {
        ((checksum(seq, data.drop_last()) + data.last()) % 256) as u8
    }
}

/// The MAC parameters of a [`ChecksumCipher`]: one byte, computed over
/// plaintext or over ciphertext.
#[derive(Debug, Clone, Copy, PartialEq, Eq)]
pub struct ChecksumMac {
    /// Whether the checksum is computed over ciphertext.
    pub etm: bool,
}

impl Mac for ChecksumMac {
    open spec fn spec_size(&self) -> nat {
        1
    }

    open spec fn spec_etm(&self) -> bool {
        self.etm
    }

    fn size(&self) -> (r: usize) {
        1
    }

    fn etm(&self) -> (r: bool) {
        self.etm
    }
}

/// A cipher for exercising the packet codec without real cryptography: it
/// XORs every byte with a fixed key and authenticates with a one-byte
/// additive checksum, which notices any single flipped bit. It offers no
/// security whatsoever.
#[derive(Debug, Clone, Copy, PartialEq, Eq)]
pub struct ChecksumCipher {
    /// The byte every encrypted byte is XORed with.
    pub key: u8,
    /// The MAC parameters.
    pub mac: ChecksumMac,
}

impl ChecksumCipher {
    /// Create the cipher with the given `key`, with its checksum computed
    /// over ciphertext (`etm`) or over plaintext.
    pub fn new(key: u8, etm: bool) -> (r: ChecksumCipher)
        ensures
            r.key == key,
            r.mac.etm == etm,
    {
        ChecksumCipher { key, mac: ChecksumMac { etm } }
    }
}

fn xor_from(buf: &mut Vec<u8>, from: usize, key: u8)
    requires
        from <= old(buf)@.len(),
    ensures
        final(buf)@ == old(buf)@.subrange(0, from as int) + xor_all(
            old(buf)@.subrange(from as int, old(buf)@.len() as int),
            key,
        ),
{
    let mut i: usize = from;
    while i < buf.len()
        invariant
            from <= i <= buf@.len(),
            buf@.len() == old(buf)@.len(),
            forall|k: int| 0 <= k < from ==> buf@[k] == old(buf)@[k],
            forall|k: int| from <= k < i ==> buf@[k] == old(buf)@[k] ^ key,
            forall|k: int| i <= k < buf@.len() ==> buf@[k] == old(buf)@[k],
        decreases buf@.len() - i,
    {
        let b = buf[i] ^ key;
        buf.set(i, b);
        i = i + 1;
    }
    assert(buf@ =~= old(buf)@.subrange(0, from as int) + xor_all(
        old(buf)@.subrange(from as int, old(buf)@.len() as int),
        key,
    ));
}

fn compute_checksum(buf: &Vec<u8>, seq: u32) -> (r: u8)
    ensures
        r == checksum(seq, buf@),
{
    let mut sum: u8 = (seq % 256) as u8;
    let mut i: usize = 0;
    while i < buf.len()
        invariant
            i <= buf@.len(),
            sum == checksum(seq, buf@.subrange(0, i as int)),
        decreases buf@.len() - i,
    {
        assert(buf@.subrange(0, i + 1).drop_last() =~= buf@.subrange(0, i as int));
        sum = ((sum as u16 + buf[i] as u16) % 256) as u8;
        i = i + 1;
    }
    assert(buf@.subrange(0, buf@.len() as int) =~= buf@);
    sum
}

impl CipherCore for ChecksumCipher {
    type Mac = ChecksumMac;

    open spec fn spec_block_size(&self) -> nat {
        8
    }

    open spec fn spec_mac(&self) -> ChecksumMac {
        self.mac
    }

    fn mac(&self) -> (r: &ChecksumMac) {
        &self.mac
    }

    fn block_size(&self) -> (r: usize) {
        8
    }
}

impl OpeningCipher for ChecksumCipher {
    open spec fn spec_decrypt(&self, data: Seq<u8>) -> Result<Seq<u8>, Error> {
        Ok(xor_all(data, self.key))
    }

    open spec fn spec_after_decrypt(&self, data: Seq<u8>) -> ChecksumCipher {
        *self
    }

    open spec fn spec_tag(&self, seq: u32, data: Seq<u8>) -> Seq<u8> {
        seq![checksum(seq, data)]
    }

    open spec fn spec_decompress(&self, data: Seq<u8>) -> Result<Seq<u8>, Error> {
        Ok(data)
    }

    open spec fn spec_after_decompress(&self, data: Seq<u8>) -> ChecksumCipher {
        *self
    }

    fn decrypt(&mut self, buf: &mut Vec<u8>, from: usize) -> (r: Result<(), Error>) {
        xor_from(buf, from, self.key);
        Ok(())
    }

    fn open(&self, buf: &Vec<u8>, mac: &Vec<u8>, seq: u32) -> (r: Result<(), Error>) {
        let sum = compute_checksum(buf, seq);
        if mac.len() == 1 && mac[0] == sum {
            assert(mac@ =~= seq![sum]);
            Ok(())
        } else {
            Err(Error::MacMismatch)
        }
    }

    fn decompress(&mut self, buf: Vec<u8>) -> (r: Result<Vec<u8>, Error>) {
        Ok(buf)
    }
}

impl SealingCipher for ChecksumCipher {
    open spec fn spec_compress(&self, data: Seq<u8>) -> Result<Seq<u8>, Error> {
        Ok(data)
    }

    open spec fn spec_after_compress(&self, data: Seq<u8>) -> ChecksumCipher {
        *self
    }

    open spec fn spec_pad(&self, n: nat) -> Result<Seq<u8>, Error> {
        Ok(Seq::new(n, |i: int| 0u8))
    }

    open spec fn spec_after_pad(&self, n: nat) -> ChecksumCipher {
        *self
    }

    open spec fn spec_encrypt(&self, data: Seq<u8>) -> Result<Seq<u8>, Error> {
        Ok(xor_all(data, self.key))
    }

    open spec fn spec_after_encrypt(&self, data: Seq<u8>) -> ChecksumCipher {
        *self
    }

    open spec fn spec_seal(&self, seq: u32, data: Seq<u8>) -> Result<Seq<u8>, Error> {
        Ok(seq![checksum(seq, data)])
    }

    fn compress(&mut self, buf: &Vec<u8>) -> (r: Result<Vec<u8>, Error>) {
        Ok(buf.clone())
    }

    fn pad(&mut self, buf: &mut Vec<u8>, padding: u8) -> (r: Result<(), Error>) {
        let mut i: u8 = 0;
        while i < padding
            invariant
                i <= padding,
                buf@ == old(buf)@ + Seq::new(i as nat, |j: int| 0u8),
            decreases padding - i,
        {
            buf.push(0);
            i = i + 1;
            assert(buf@ =~= old(buf)@ + Seq::new(i as nat, |j: int| 0u8));
        }
        Ok(())
    }

    fn encrypt(&mut self, buf: &mut Vec<u8>, from: usize) -> (r: Result<(), Error>) {
        xor_from(buf, from, self.key);
        Ok(())
    }

    fn seal(&self, buf: &Vec<u8>, seq: u32) -> (r: Result<Vec<u8>, Error>) {
        let sum = compute_checksum(buf, seq);
        let mut tag: Vec<u8> = Vec::new();
        tag.push(sum);
        assert(tag@ =~= seq![sum]);
        Ok(tag)
    }
}

} // verus!
