//! Messages involved in the SSH's **authentication** (`SSH-USERAUTH`) part of the protocol,
//! as defined in the [RFC 4252](https://datatracker.ietf.org/doc/html/rfc4252) and [RFC 4256](https://datatracker.ietf.org/doc/html/rfc4256).
use vstd::prelude::*;
use vstd::utf8::encode_utf8;

use crate::arch;
use crate::wire::{be32, lengthed, put_all, put_u32};

verus! {

/// The `SSH_MSG_USERAUTH_REQUEST` message.
///
/// see <https://datatracker.ietf.org/doc/html/rfc4252#section-5>.
#[derive(Debug)]
pub struct UserauthRequest {
    /// Username for the auth request.
    pub username: arch::StringUtf8,
    /// Service name to query.
    pub service_name: arch::StringAscii,
    /// Authentication method used.
    pub method: UserauthMethod,
}

impl UserauthRequest {
    /// The wire form of this message.
    pub open spec fn wire(&self) -> Seq<u8> {
        seq![50u8] + self.username.wire() + self.service_name.wire() + self.method.kind_wire() + self.method.wire()
    }

    /// Every field is small enough to have a wire form.
    pub open spec fn fits(&self) -> bool {
        self.username.fits() && self.service_name.fits() && self.method.fits()
    }

    /// Append the wire form of this message to `out`.
    pub fn encode(&self, out: &mut Vec<u8>)
        requires
            self.fits(),
        ensures
            final(out)@ == old(out)@ + self.wire(),
    {
        out.push(50);
        self.username.encode(out);
        self.service_name.encode(out);
        self.method.encode_kind(out);
        self.method.encode(out);
        assert(final(out)@ =~= old(out)@ + self.wire());
    }
}

/// The authentication method in the `SSH_MSG_USERAUTH_REQUEST` message.
#[derive(Debug)]
#[allow(inconsistent_fields)]
pub enum UserauthMethod {
    /// Authenticate using the `none` method,
    /// as defined in [RFC4252 section 5.2](https://datatracker.ietf.org/doc/html/rfc4252#section-5.2).
    NoneMethod,
    /// Authenticate using the `publickey` method,
    /// as defined in [RFC4252 section 7](https://datatracker.ietf.org/doc/html/rfc4252#section-7).
    Publickey {
        /// Public key algorithm's name.
        algorithm: arch::Bytes,
        /// Public key blob.
        blob: arch::Bytes,
        /// The optional signature of the authentication packet,
        /// signed with the according private key.
        signature: Option<arch::Bytes>,
    },
    /// Authenticate using the `password` method,
    /// as defined in [RFC4252 section 8](https://datatracker.ietf.org/doc/html/rfc4252#section-8).
    Password {
        /// Plaintext password.
        password: arch::StringUtf8,
        /// In the case of a the receival of a [`UserauthPasswdChangereq`],
        /// the new password to be set in place of the old one.
        new: Option<arch::StringUtf8>,
    },
    /// Authenticate using the `hostbased` method,
    /// as defined in [RFC4252 section 9](https://datatracker.ietf.org/doc/html/rfc4252#section-9).
    Hostbased {
        /// Public key algorithm for the host key.
        algorithm: arch::Bytes,
        /// Public host key and certificates for client host.
        host_key: arch::Bytes,
        /// Client host name expressed as the FQDN.
        client_fqdn: arch::StringAscii,
        /// User name on the client host.
        username: arch::StringUtf8,
        /// The signature of the authentication packet.
        signature: arch::Bytes,
    },
    /// Authenticate using the `keyboard-interactive` method,
    /// as defined in [RFC4256 section 3.1](https://datatracker.ietf.org/doc/html/rfc4256#section-3.1).
    KeyboardInteractive {
        /// Language tag.
        language: arch::StringAscii,
        /// A hint for the prefered interactive submethod.
        submethods: arch::StringUtf8,
    },
}

impl UserauthMethod {
    /// The SSH identifier of this method.
    pub open spec fn spec_kind(&self) -> Seq<char> {
        match self {
            Self::NoneMethod => "none"@,
            Self::Publickey { .. } => "publickey"@,
            Self::Password { .. } => "password"@,
            Self::Hostbased { .. } => "hostbased"@,
            Self::KeyboardInteractive { .. } => "keyboard-interactive"@,
        }
    }

    /// The wire form of the identifier, as an ASCII `string`.
    pub open spec fn kind_wire(&self) -> Seq<u8> {
        lengthed(encode_utf8(self.spec_kind()))
    }

    /// The wire form of the fields of this method; the flag that announces
    /// an optional field is `true` exactly when the field is present.
    pub open spec fn wire(&self) -> Seq<u8> {
        match self {
            Self::NoneMethod => Seq::empty(),
            Self::Publickey { algorithm, blob, signature } => match signature {
                Some(s) => seq![1u8] + algorithm.wire() + blob.wire() + s.wire(),
                None => seq![0u8] + algorithm.wire() + blob.wire(),
            },
            Self::Password { password, new } => match new {
                Some(n) => seq![1u8] + password.wire() + n.wire(),
                None => seq![0u8] + password.wire(),
            },
            Self::Hostbased { algorithm, host_key, client_fqdn, username, signature } => algorithm.wire()
                + host_key.wire() + client_fqdn.wire() + username.wire() + signature.wire(),
            Self::KeyboardInteractive { language, submethods } => language.wire() + submethods.wire(),
        }
    }

    /// Every field is small enough to have a wire form.
    pub open spec fn fits(&self) -> bool {
        match self {
            Self::NoneMethod => true,
            Self::Publickey { algorithm, blob, signature } => algorithm.fits() && blob.fits() && match signature {
                Some(s) => s.fits(),
                None => true,
            },
            Self::Password { password, new } => password.fits() && match new {
                Some(n) => n.fits(),
                None => true,
            },
            Self::Hostbased { algorithm, host_key, client_fqdn, username, signature } => algorithm.fits()
                && host_key.fits() && client_fqdn.fits() && username.fits() && signature.fits(),
            Self::KeyboardInteractive { language, submethods } => language.fits() && submethods.fits(),
        }
    }

    /// Transforms the [`UserauthMethod`] to its SSH identifier.
    pub fn as_str(&self) -> (r: &'static str)
        ensures
            r@ == self.spec_kind(),
    {
        match self {
            Self::NoneMethod => "none",
            Self::Publickey { .. } => "publickey",
            Self::Password { .. } => "password",
            Self::Hostbased { .. } => "hostbased",
            Self::KeyboardInteractive { .. } => "keyboard-interactive",
        }
    }

    /// Append the wire form of the identifier to `out`.
    pub fn encode_kind(&self, out: &mut Vec<u8>)
        ensures
            final(out)@ == old(out)@ + self.kind_wire(),
    {
        let kind = self.as_str().as_bytes();
        proof {
            reveal_strlit("none");
            reveal_strlit("publickey");
            reveal_strlit("password");
            reveal_strlit("hostbased");
            reveal_strlit("keyboard-interactive");
        }
        put_u32(out, kind.len() as u32);
        put_all(out, kind);
        assert(final(out)@ =~= old(out)@ + self.kind_wire());
    }

    /// Append the wire form of the fields to `out`.
    pub fn encode(&self, out: &mut Vec<u8>)
        requires
            self.fits(),
        ensures
            final(out)@ == old(out)@ + self.wire(),
    {
        match self {
            Self::NoneMethod => {},
            Self::Publickey { algorithm, blob, signature } => {
                match signature {
                    Some(s) => {
                        out.push(1);
                        algorithm.encode(out);
                        blob.encode(out);
                        s.encode(out);
                    },
                    None => {
                        out.push(0);
                        algorithm.encode(out);
                        blob.encode(out);
                    },
                }
            },
            Self::Password { password, new } => {
                match new {
                    Some(n) => {
                        out.push(1);
                        password.encode(out);
                        n.encode(out);
                    },
                    None => {
                        out.push(0);
                        password.encode(out);
                    },
                }
            },
            Self::Hostbased { algorithm, host_key, client_fqdn, username, signature } => {
                algorithm.encode(out);
                host_key.encode(out);
                client_fqdn.encode(out);
                username.encode(out);
                signature.encode(out);
            },
            Self::KeyboardInteractive { language, submethods } => {
                language.encode(out);
                submethods.encode(out);
            },
        }
        assert(final(out)@ =~= old(out)@ + self.wire());
    }
}

/// The `SSH_MSG_USERAUTH_PK_OK` message.
///
/// see <https://datatracker.ietf.org/doc/html/rfc4252#section-7>.
#[derive(Debug)]
pub struct UserauthPkOk {
    /// Public key algorithm name from the request.
    pub algorithm: arch::Bytes,
    /// Public key blob from the request.
    pub blob: arch::Bytes,
}

impl UserauthPkOk {
    /// The wire form of this message.
    pub open spec fn wire(&self) -> Seq<u8> {
        seq![60u8] + self.algorithm.wire() + self.blob.wire()
    }

    /// Every field is small enough to have a wire form.
    pub open spec fn fits(&self) -> bool {
        self.algorithm.fits() && self.blob.fits()
    }

    /// Append the wire form of this message to `out`.
    pub fn encode(&self, out: &mut Vec<u8>)
        requires
            self.fits(),
        ensures
            final(out)@ == old(out)@ + self.wire(),
    {
        out.push(60);
        self.algorithm.encode(out);
        self.blob.encode(out);
        assert(final(out)@ =~= old(out)@ + self.wire());
    }
}

/// The `SSH_MSG_USERAUTH_PASSWD_CHANGEREQ` message.
///
/// see <https://datatracker.ietf.org/doc/html/rfc4252#section-8>.
#[derive(Debug)]
pub struct UserauthPasswdChangereq {
    /// Password change prompt.
    pub prompt: arch::StringUtf8,
    /// Language tag (deprecated).
    pub language: arch::StringAscii,
}

impl UserauthPasswdChangereq {
    /// The wire form of this message.
    pub open spec fn wire(&self) -> Seq<u8> {
        seq![60u8] + self.prompt.wire() + self.language.wire()
    }

    /// Every field is small enough to have a wire form.
    pub open spec fn fits(&self) -> bool {
        self.prompt.fits() && self.language.fits()
    }

    /// Append the wire form of this message to `out`.
    pub fn encode(&self, out: &mut Vec<u8>)
        requires
            self.fits(),
        ensures
            final(out)@ == old(out)@ + self.wire(),
    {
        out.push(60);
        self.prompt.encode(out);
        self.language.encode(out);
        assert(final(out)@ =~= old(out)@ + self.wire());
    }
}

/// The wire form of a list of prompts, one after the other.
pub open spec fn prompts_wire(prompts: Seq<UserauthInfoRequestPrompt>) -> Seq<u8>
    decreases prompts.len(),
{
    if prompts.len() == 0 {
        Seq::empty()
    } else {
        prompts_wire(prompts.drop_last()) + prompts.last().wire()
    }
}

/// The wire form of a list of responses, one after the other.
pub open spec fn responses_wire(responses: Seq<arch::StringUtf8>) -> Seq<u8>
    decreases responses.len(),
{
    if responses.len() == 0 {
        Seq::empty()
    } else {
        responses_wire(responses.drop_last()) + responses.last().wire()
    }
}

/// The `SSH_MSG_USERAUTH_INFO_REQUEST` message.
///
/// see <https://datatracker.ietf.org/doc/html/rfc4256#section-3.2>.
#[derive(Debug)]
pub struct UserauthInfoRequest {
    /// Name of the challenge.
    pub name: arch::StringUtf8,
    /// Instructions for the challenge.
    pub instruction: arch::StringUtf8,
    /// Language tag (deprecated).
    pub language: arch::StringAscii,
    /// The challenge's prompts.
    pub prompts: Vec<UserauthInfoRequestPrompt>,
}

impl UserauthInfoRequest {
    /// The wire form of this message: the prompts are counted by a `u32`.
    pub open spec fn wire(&self) -> Seq<u8> {
        seq![60u8] + self.name.wire() + self.instruction.wire() + self.language.wire() + be32(
            self.prompts@.len() as u32,
        ) + prompts_wire(self.prompts@)
    }

    /// Every field is small enough to have a wire form.
    pub open spec fn fits(&self) -> bool {
        &&& self.name.fits()
        &&& self.instruction.fits()
        &&& self.language.fits()
        &&& self.prompts@.len() <= u32::MAX
        &&& forall|k: int| 0 <= k < self.prompts@.len() ==> (#[trigger] self.prompts@[k]).fits()
    }

    /// Append the wire form of this message to `out`.
    pub fn encode(&self, out: &mut Vec<u8>)
        requires
            self.fits(),
        ensures
            final(out)@ == old(out)@ + self.wire(),
    {
        out.push(60);
        self.name.encode(out);
        self.instruction.encode(out);
        self.language.encode(out);
        put_u32(out, self.prompts.len() as u32);
        let ghost start = out@;
        let mut i: usize = 0;
        while i < self.prompts.len()
            invariant
                self.fits(),
                i <= self.prompts@.len(),
                out@ == start + prompts_wire(self.prompts@.subrange(0, i as int)),
            decreases self.prompts@.len() - i,
        {
            assert(self.prompts@.subrange(0, i + 1).drop_last() =~= self.prompts@.subrange(0, i as int));
            self.prompts[i].encode(out);
            i = i + 1;
            assert(out@ =~= start + prompts_wire(self.prompts@.subrange(0, i as int)));
        }
        assert(self.prompts@.subrange(0, self.prompts@.len() as int) =~= self.prompts@);
        assert(final(out)@ =~= old(out)@ + self.wire());
    }
}

/// The `SSH_MSG_USERAUTH_INFO_RESPONSE` message.
///
/// see <https://datatracker.ietf.org/doc/html/rfc4256#section-3.4>.
#[derive(Debug)]
pub struct UserauthInfoResponse {
    /// Responses to the provided challenge.
    pub responses: Vec<arch::StringUtf8>,
}

impl UserauthInfoResponse {
    /// The wire form of this message: the responses are counted by a `u32`.
    pub open spec fn wire(&self) -> Seq<u8> {
        seq![61u8] + be32(self.responses@.len() as u32) + responses_wire(self.responses@)
    }

    /// Every response is small enough to have a wire form.
    pub open spec fn fits(&self) -> bool {
        &&& self.responses@.len() <= u32::MAX
        &&& forall|k: int| 0 <= k < self.responses@.len() ==> (#[trigger] self.responses@[k]).fits()
    }

    /// Append the wire form of this message to `out`.
    pub fn encode(&self, out: &mut Vec<u8>)
        requires
            self.fits(),
        ensures
            final(out)@ == old(out)@ + self.wire(),
    {
        out.push(61);
        put_u32(out, self.responses.len() as u32);
        let ghost start = out@;
        let mut i: usize = 0;
        while i < self.responses.len()
            invariant
                self.fits(),
                i <= self.responses@.len(),
                out@ == start + responses_wire(self.responses@.subrange(0, i as int)),
            decreases self.responses@.len() - i,
        {
            assert(self.responses@.subrange(0, i + 1).drop_last() =~= self.responses@.subrange(0, i as int));
            self.responses[i].encode(out);
            i = i + 1;
            assert(out@ =~= start + responses_wire(self.responses@.subrange(0, i as int)));
        }
        assert(self.responses@.subrange(0, self.responses@.len() as int) =~= self.responses@);
        assert(final(out)@ =~= old(out)@ + self.wire());
    }
}

/// A prompt in the `SSH_MSG_USERAUTH_INFO_REQUEST` message.
#[derive(Debug)]
pub struct UserauthInfoRequestPrompt {
    /// Challenge prompt text.
    pub prompt: arch::StringUtf8,
    /// Whether the client should echo back typed characters.
    pub echo: arch::Bool,
}

impl UserauthInfoRequestPrompt {
    /// The wire form of this message.
    pub open spec fn wire(&self) -> Seq<u8> {
        self.prompt.wire() + self.echo.wire()
    }

    /// Every field is small enough to have a wire form.
    pub open spec fn fits(&self) -> bool {
        self.prompt.fits()
    }

    /// Append the wire form of this message to `out`.
    pub fn encode(&self, out: &mut Vec<u8>)
        requires
            self.fits(),
        ensures
            final(out)@ == old(out)@ + self.wire(),
    {
        self.prompt.encode(out);
        self.echo.encode(out);
        assert(final(out)@ =~= old(out)@ + self.wire());
    }
}

/// The `SSH_MSG_USERAUTH_FAILURE` message.
///
/// see <https://datatracker.ietf.org/doc/html/rfc4252#section-5.1>.
#[derive(Debug)]
pub struct UserauthFailure {
    /// Authentications that can continue.
    pub continue_with: arch::NameList,
    /// Partial success.
    pub partial_success: arch::Bool,
}

impl UserauthFailure {
    /// The wire form of this message.
    pub open spec fn wire(&self) -> Seq<u8> {
        seq![51u8] + self.continue_with.wire() + self.partial_success.wire()
    }

    /// Every field is small enough to have a wire form.
    pub open spec fn fits(&self) -> bool {
        self.continue_with.fits()
    }

    /// Append the wire form of this message to `out`.
    pub fn encode(&self, out: &mut Vec<u8>)
        requires
            self.fits(),
        ensures
            final(out)@ == old(out)@ + self.wire(),
    {
        out.push(51);
        self.continue_with.encode(out);
        self.partial_success.encode(out);
        assert(final(out)@ =~= old(out)@ + self.wire());
    }
}

/// The `SSH_MSG_USERAUTH_SUCCESS` message.
///
/// see <https://datatracker.ietf.org/doc/html/rfc4252#section-5.1>.
#[derive(Debug)]
pub struct UserauthSuccess;

impl UserauthSuccess {
    /// The wire form of this message.
    pub open spec fn wire(&self) -> Seq<u8> {
        seq![52u8]
    }

    /// Every field is small enough to have a wire form.
    pub open spec fn fits(&self) -> bool {
        true
    }

    /// Append the wire form of this message to `out`.
    pub fn encode(&self, out: &mut Vec<u8>)
        requires
            self.fits(),
        ensures
            final(out)@ == old(out)@ + self.wire(),
    {
        out.push(52);
        assert(final(out)@ =~= old(out)@ + self.wire());
    }
}

/// The `SSH_MSG_USERAUTH_BANNER` message.
///
/// see <https://datatracker.ietf.org/doc/html/rfc4252#section-5.4>.
#[derive(Debug)]
pub struct UserauthBanner {
    /// The auth banner message.
    pub message: arch::StringUtf8,
    /// Language tag.
    pub language: arch::StringAscii,
}

impl UserauthBanner {
    /// The wire form of this message.
    pub open spec fn wire(&self) -> Seq<u8> {
        seq![53u8] + self.message.wire() + self.language.wire()
    }

    /// Every field is small enough to have a wire form.
    pub open spec fn fits(&self) -> bool {
        self.message.fits() && self.language.fits()
    }

    /// Append the wire form of this message to `out`.
    pub fn encode(&self, out: &mut Vec<u8>)
        requires
            self.fits(),
        ensures
            final(out)@ == old(out)@ + self.wire(),
    {
        out.push(53);
        self.message.encode(out);
        self.language.encode(out);
        assert(final(out)@ =~= old(out)@ + self.wire());
    }
}

} // verus!
