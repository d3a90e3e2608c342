//! Helpers for SSH's **kex** part of the protocol, and the data that
//! public key authentication signs.
use vstd::prelude::*;
use vstd::utf8::encode_utf8;

use crate::arch;
use crate::wire::{be32, lengthed, put_all, put_u32};

verus! {

/// The exchange hash for ECDH `kex`, computed as the
/// hash of the concatenation of the following.
///
/// see <https://datatracker.ietf.org/doc/html/rfc5656#section-4>.
#[derive(Debug)]
pub struct EcdhExchange {
    /// Client's identification string (`\r` and `\n` excluded).
    pub v_c: arch::Bytes,
    /// Server's identification string (`\r` and `\n` excluded).
    pub v_s: arch::Bytes,
    /// Payload of the client's `SSH_MSG_KEXINIT` message.
    pub i_c: arch::Bytes,
    /// Payload of the server's `SSH_MSG_KEXINIT` message.
    pub i_s: arch::Bytes,
    /// Server's public host key.
    pub k_s: arch::Bytes,
    /// Client's ephemeral public key octet string.
    pub q_c: arch::Bytes,
    /// Server's ephemeral public key octet string.
    pub q_s: arch::Bytes,
    /// Computed shared secret.
    pub k: arch::MpInt,
}

impl EcdhExchange {
    /// The wire form of this message.
    pub open spec fn wire(&self) -> Seq<u8> {
        self.v_c.wire() + self.v_s.wire() + self.i_c.wire() + self.i_s.wire() + self.k_s.wire() + self.q_c.wire() + self.q_s.wire() + self.k.wire()
    }

    /// Every field is small enough to have a wire form.
    pub open spec fn fits(&self) -> bool {
        self.v_c.fits() && self.v_s.fits() && self.i_c.fits() && self.i_s.fits() && self.k_s.fits() && self.q_c.fits() && self.q_s.fits() && self.k.fits()
    }

    /// Append the wire form of this message to `out`.
    pub fn encode(&self, out: &mut Vec<u8>)
        requires
            self.fits(),
        ensures
            final(out)@ == old(out)@ + self.wire(),
    {
        self.v_c.encode(out);
        self.v_s.encode(out);
        self.i_c.encode(out);
        self.i_s.encode(out);
        self.k_s.encode(out);
        self.q_c.encode(out);
        self.q_s.encode(out);
        self.k.encode(out);
        assert(final(out)@ =~= old(out)@ + self.wire());
    }
}

/// The data that gets _signed_ and _verified_ to prove the possession of the said private key in
/// the `publickey` authentication method, computed from the concatenation of the following.
///
/// see <https://datatracker.ietf.org/doc/html/rfc4252#section-7>.
#[derive(Debug)]
pub struct PublickeySignature {
    /// The session identifier issued by the key-exchange.
    pub session_id: arch::Bytes,
    /// Username for the auth request.
    pub username: arch::StringUtf8,
    /// Service name to query.
    pub service_name: arch::StringAscii,
    /// Public key algorithm's name.
    pub algorithm: arch::Bytes,
    /// Public key blob.
    pub blob: arch::Bytes,
}

impl PublickeySignature {
    /// The bytes to sign: the session identifier, then the
    /// `SSH_MSG_USERAUTH_REQUEST` of a signed `publickey` request.
    pub open spec fn wire(&self) -> Seq<u8> {
        self.session_id.wire() + seq![50u8] + self.username.wire() + self.service_name.wire()
            + lengthed(encode_utf8("publickey"@)) + seq![1u8] + self.algorithm.wire()
            + self.blob.wire()
    }

    /// Every field is small enough to have a wire form.
    pub open spec fn fits(&self) -> bool {
        &&& self.session_id.fits()
        &&& self.username.fits()
        &&& self.service_name.fits()
        &&& self.algorithm.fits()
        &&& self.blob.fits()
    }

    /// Append the bytes to sign to `out`.
    pub fn encode(&self, out: &mut Vec<u8>)
        requires
            self.fits(),
        ensures
            final(out)@ == old(out)@ + self.wire(),
    {
        self.session_id.encode(out);
        out.push(50);
        self.username.encode(out);
        self.service_name.encode(out);
        let method = "publickey".as_bytes();
        proof {
            reveal_strlit("publickey");
        }
        put_u32(out, method.len() as u32);
        put_all(out, method);
        out.push(1);
        self.algorithm.encode(out);
        self.blob.encode(out);
        assert(final(out)@ =~= old(out)@ + self.wire());
    }
}

} // verus!
