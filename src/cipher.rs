use vstd::prelude::*;

use crate::error::Error;

verus! {

/// The algorithm parameters for the _Message Authentication Code_.
pub trait Mac {
    /// The size of the MAC, in bytes.
    spec fn spec_size(&self) -> nat;

    /// Whether the MAC is computed over ciphertext (encrypt-then-MAC).
    spec fn spec_etm(&self) -> bool;

    /// The size of the MAC at the end of the SSH packet.
    fn size(&self) -> (r: usize)
        ensures
            r == self.spec_size(),
    ;

    /// Whether the MAC is applied over encrypted data.
    fn etm(&self) -> (r: bool)
        ensures
            r == self.spec_etm(),
    ;
}

/// What the [`OpeningCipher`] and [`SealingCipher`] have in common.
///
/// A cipher is modelled as a deterministic state machine: each `spec_*`
/// function says what an operation yields from the current state, and each
/// `spec_after_*` function which state follows it.
pub trait CipherCore {
    /// The _Message Authentication Code_ associated to the cipher.
    type Mac: Mac;

    spec fn spec_block_size(&self) -> nat;

    spec fn spec_mac(&self) -> Self::Mac;

    /// Gets a reference to the _Message Authentication Code_ for this cipher.
    fn mac(&self) -> (r: &Self::Mac)
        ensures
            *r == self.spec_mac(),
    ;

    /// The size of a cipher's block.
    fn block_size(&self) -> (r: usize)
        ensures
            r == self.spec_block_size(),
    ;
}

/// A cipher able to `open` a packet and retrieve its payload.
pub trait OpeningCipher: CipherCore + Sized {
    /// The plaintext of `data`, decrypted from this state.
    spec fn spec_decrypt(&self, data: Seq<u8>) -> Result<Seq<u8>, Error>;

    /// The state after `data` was decrypted.
    spec fn spec_after_decrypt(&self, data: Seq<u8>) -> Self;

    /// The MAC that authenticates `data` under the sequence number `seq`.
    spec fn spec_tag(&self, seq: u32, data: Seq<u8>) -> Seq<u8>;

    /// The decompressed form of `data`.
    spec fn spec_decompress(&self, data: Seq<u8>) -> Result<Seq<u8>, Error>;

    /// The state after `data` was decompressed.
    spec fn spec_after_decompress(&self, data: Seq<u8>) -> Self;

    /// Decrypt `buf[from..]` in place.
    fn decrypt(&mut self, buf: &mut Vec<u8>, from: usize) -> (r: Result<(), Error>)
        requires
            from <= old(buf)@.len(),
        ensures
            final(self).spec_block_size() == old(self).spec_block_size(),
            final(self).spec_mac() == old(self).spec_mac(),
            final(buf)@.len() == old(buf)@.len(),
            ({
                let data = old(buf)@.subrange(from as int, old(buf)@.len() as int);
                match old(self).spec_decrypt(data) {
                    Ok(plain) => {
                        &&& r is Ok
                        &&& final(buf)@ == old(buf)@.subrange(0, from as int) + plain
                        &&& *final(self) == old(self).spec_after_decrypt(data)
                    },
                    Err(e) => r == Err::<(), Error>(e),
                }
            }),
    ;

    /// Compare `buf` against the received _Message Authentication Code_,
    /// with a comparison that takes the same time wherever they differ.
    fn open(&self, buf: &Vec<u8>, mac: &Vec<u8>, seq: u32) -> (r: Result<(), Error>)
        ensures
            r == (if mac@ == self.spec_tag(seq, buf@) {
                Ok::<(), Error>(())
            } else {
                Err(Error::MacMismatch)
            }),
    ;

    /// Decompress the received `buf`.
    fn decompress(&mut self, buf: Vec<u8>) -> (r: Result<Vec<u8>, Error>)
        ensures
            final(self).spec_block_size() == old(self).spec_block_size(),
            final(self).spec_mac() == old(self).spec_mac(),
            match old(self).spec_decompress(buf@) {
                Ok(plain) => {
                    &&& r is Ok
                    &&& r->Ok_0@ == plain
                    &&& *final(self) == old(self).spec_after_decompress(buf@)
                },
                Err(e) => r == Err::<Vec<u8>, Error>(e),
            },
    ;
}

/// A cipher able to `seal` a payload into a packet.
pub trait SealingCipher: CipherCore + Sized {
    /// The compressed form of `data`.
    spec fn spec_compress(&self, data: Seq<u8>) -> Result<Seq<u8>, Error>;

    /// The state after `data` was compressed.
    spec fn spec_after_compress(&self, data: Seq<u8>) -> Self;

    /// The `n` padding bytes this state draws.
    spec fn spec_pad(&self, n: nat) -> Result<Seq<u8>, Error>;

    /// The state after `n` padding bytes were drawn.
    spec fn spec_after_pad(&self, n: nat) -> Self;

    /// The ciphertext of `data`, encrypted from this state.
    spec fn spec_encrypt(&self, data: Seq<u8>) -> Result<Seq<u8>, Error>;

    /// The state after `data` was encrypted.
    spec fn spec_after_encrypt(&self, data: Seq<u8>) -> Self;

    /// The MAC that authenticates `data` under the sequence number `seq`.
    spec fn spec_seal(&self, seq: u32, data: Seq<u8>) -> Result<Seq<u8>, Error>;

    /// Compress the `buf`.
    fn compress(&mut self, buf: &Vec<u8>) -> (r: Result<Vec<u8>, Error>)
        ensures
            final(self).spec_block_size() == old(self).spec_block_size(),
            final(self).spec_mac() == old(self).spec_mac(),
            match old(self).spec_compress(buf@) {
                Ok(packed) => {
                    &&& r is Ok
                    &&& r->Ok_0@ == packed
                    &&& *final(self) == old(self).spec_after_compress(buf@)
                },
                Err(e) => r == Err::<Vec<u8>, Error>(e),
            },
    ;

    /// Append `padding` random bytes to `buf`.
    fn pad(&mut self, buf: &mut Vec<u8>, padding: u8) -> (r: Result<(), Error>)
        ensures
            final(self).spec_block_size() == old(self).spec_block_size(),
            final(self).spec_mac() == old(self).spec_mac(),
            match old(self).spec_pad(padding as nat) {
                Ok(bytes) => {
                    &&& r is Ok
                    &&& bytes.len() == padding
                    &&& final(buf)@ == old(buf)@ + bytes
                    &&& *final(self) == old(self).spec_after_pad(padding as nat)
                },
                Err(e) => r == Err::<(), Error>(e),
            },
    ;

    /// Encrypt `buf[from..]` in place.
    fn encrypt(&mut self, buf: &mut Vec<u8>, from: usize) -> (r: Result<(), Error>)
        requires
            from <= old(buf)@.len(),
        ensures
            final(self).spec_block_size() == old(self).spec_block_size(),
            final(self).spec_mac() == old(self).spec_mac(),
            final(buf)@.len() == old(buf)@.len(),
            ({
                let data = old(buf)@.subrange(from as int, old(buf)@.len() as int);
                match old(self).spec_encrypt(data) {
                    Ok(sealed) => {
                        &&& r is Ok
                        &&& final(buf)@ == old(buf)@.subrange(0, from as int) + sealed
                        &&& *final(self) == old(self).spec_after_encrypt(data)
                    },
                    Err(e) => r == Err::<(), Error>(e),
                }
            }),
    ;

    /// Generate the _Message Authentication Code_ of `buf`.
    fn seal(&self, buf: &Vec<u8>, seq: u32) -> (r: Result<Vec<u8>, Error>)
        ensures
            match self.spec_seal(seq, buf@) {
                Ok(tag) => {
                    &&& r is Ok
                    &&& r->Ok_0@ == tag
                    &&& tag.len() == self.spec_mac().spec_size()
                },
                Err(e) => r == Err::<Vec<u8>, Error>(e),
            },
    ;
}

} // verus!
