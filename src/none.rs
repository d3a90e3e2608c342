use vstd::prelude::*;

use crate::cipher::{CipherCore, Mac, OpeningCipher, SealingCipher};
use crate::error::Error;

verus! {

/// The `none` MAC: no authentication code at all.
#[derive(Debug, Clone, Copy, PartialEq, Eq)]
pub struct NoneMac;

impl Mac for NoneMac {
    open spec fn spec_size(&self) -> nat {
        0
    }

    open spec fn spec_etm(&self) -> bool {
        false
    }

    fn size(&self) -> (r: usize) {
        0
    }

    fn etm(&self) -> (r: bool) {
        false
    }
}

/// The `none` cipher that a connection starts with, before the first key
/// exchange: no encryption, no MAC, no compression, and zeroed padding.
#[derive(Debug, Clone, Copy, PartialEq, Eq)]
pub struct NoneCipher {
    /// The MAC parameters, always `none`.
    pub mac: NoneMac,
}

impl NoneCipher {
    /// Create the `none` cipher.
    pub fn new() -> (r: NoneCipher) {
        NoneCipher { mac: NoneMac }
    }
}

impl CipherCore for NoneCipher {
    type Mac = NoneMac;

    open spec fn spec_block_size(&self) -> nat {
        8
    }

    open spec fn spec_mac(&self) -> NoneMac {
        self.mac
    }

    fn mac(&self) -> (r: &NoneMac) {
        &self.mac
    }

    fn block_size(&self) -> (r: usize) {
        8
    }
}

impl OpeningCipher for NoneCipher {
    open spec fn spec_decrypt(&self, data: Seq<u8>) -> Result<Seq<u8>, Error> {
        Ok(data)
    }

    open spec fn spec_after_decrypt(&self, data: Seq<u8>) -> NoneCipher {
        *self
    }

    open spec fn spec_tag(&self, seq: u32, data: Seq<u8>) -> Seq<u8> {
        Seq::empty()
    }

    open spec fn spec_decompress(&self, data: Seq<u8>) -> Result<Seq<u8>, Error> {
        Ok(data)
    }

    open spec fn spec_after_decompress(&self, data: Seq<u8>) -> NoneCipher {
        *self
    }

    fn decrypt(&mut self, buf: &mut Vec<u8>, from: usize) -> (r: Result<(), Error>) {
        assert(buf@ =~= buf@.subrange(0, from as int) + buf@.subrange(
            from as int,
            buf@.len() as int,
        ));
        Ok(())
    }

    fn open(&self, buf: &Vec<u8>, mac: &Vec<u8>, seq: u32) -> (r: Result<(), Error>) {
        if mac.len() == 0 {
            assert(mac@ =~= Seq::<u8>::empty());
            Ok(())
        } else {
            Err(Error::MacMismatch)
        }
    }

    fn decompress(&mut self, buf: Vec<u8>) -> (r: Result<Vec<u8>, Error>) {
        Ok(buf)
    }
}

impl SealingCipher for NoneCipher {
    open spec fn spec_compress(&self, data: Seq<u8>) -> Result<Seq<u8>, Error> {
        Ok(data)
    }

    open spec fn spec_after_compress(&self, data: Seq<u8>) -> NoneCipher {
        *self
    }

    open spec fn spec_pad(&self, n: nat) -> Result<Seq<u8>, Error> {
        Ok(Seq::new(n, |i: int| 0u8))
    }

    open spec fn spec_after_pad(&self, n: nat) -> NoneCipher {
        *self
    }

    open spec fn spec_encrypt(&self, data: Seq<u8>) -> Result<Seq<u8>, Error> {
        Ok(data)
    }

    open spec fn spec_after_encrypt(&self, data: Seq<u8>) -> NoneCipher {
        *self
    }

    open spec fn spec_seal(&self, seq: u32, data: Seq<u8>) -> Result<Seq<u8>, Error> {
        Ok(Seq::empty())
    }

    fn compress(&mut self, buf: &Vec<u8>) -> (r: Result<Vec<u8>, Error>) {
        Ok(buf.clone())
    }

    fn pad(&mut self, buf: &mut Vec<u8>, padding: u8) -> (r: Result<(), Error>) {
        let mut i: u8 = 0;
        while i < padding
            invariant
                i <= padding,
                buf@ == old(buf)@ + Seq::new(i as nat, |j: int| 0u8),
            decreases padding - i,
        {
            buf.push(0);
            i = i + 1;
            assert(buf@ =~= old(buf)@ + Seq::new(i as nat, |j: int| 0u8));
        }
        Ok(())
    }

    fn encrypt(&mut self, buf: &mut Vec<u8>, from: usize) -> (r: Result<(), Error>) {
        assert(buf@ =~= buf@.subrange(0, from as int) + buf@.subrange(
            from as int,
            buf@.len() as int,
        ));
        Ok(())
    }

    fn seal(&self, buf: &Vec<u8>, seq: u32) -> (r: Result<Vec<u8>, Error>) {
        let tag: Vec<u8> = Vec::new();
        assert(tag@ =~= Seq::<u8>::empty());
        Ok(tag)
    }
}

} // verus!
