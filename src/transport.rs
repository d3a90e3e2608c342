//! Messages involved in the SSH's **transport** part of the protocol,
//! as defined in the [RFC 4253](https://datatracker.ietf.org/doc/html/rfc4253).
use vstd::prelude::*;
use vstd::utf8::encode_utf8;

use crate::arch;
use crate::wire::{be32, lengthed, put_all, put_u32};

verus! {

/// The `SSH_MSG_DISCONNECT` message.
///
/// see <https://datatracker.ietf.org/doc/html/rfc4253#section-11.1>.
#[derive(Debug)]
pub struct Disconnect {
    /// SSH_MSG_DISCONNECT's _reason code_.
    pub reason: DisconnectReason,
    /// SSH_MSG_DISCONNECT's _description_.
    pub description: arch::StringUtf8,
    /// SSH_MSG_DISCONNECT's _language tag_.
    pub language: arch::StringAscii,
}

impl Disconnect {
    /// The wire form of this message.
    pub open spec fn wire(&self) -> Seq<u8> {
        seq![1u8] + self.reason.wire() + self.description.wire() + self.language.wire()
    }

    /// Every field is small enough to have a wire form.
    pub open spec fn fits(&self) -> bool {
        self.reason.fits() && self.description.fits() && self.language.fits()
    }

    /// Append the wire form of this message to `out`.
    pub fn encode(&self, out: &mut Vec<u8>)
        requires
            self.fits(),
        ensures
            final(out)@ == old(out)@ + self.wire(),
    {
        out.push(1);
        self.reason.encode(out);
        self.description.encode(out);
        self.language.encode(out);
        assert(final(out)@ =~= old(out)@ + self.wire());
    }
}

/// The `reason` for disconnect in the `SSH_MSG_DISCONNECT` message.
#[derive(Debug, Clone, Copy, PartialEq, Eq)]
pub enum DisconnectReason {
    /// `SSH_DISCONNECT_HOST_NOT_ALLOWED_TO_CONNECT`.
    HostNotAllowedToConnect,
    /// `SSH_DISCONNECT_PROTOCOL_ERROR`.
    ProtocolError,
    /// `SSH_DISCONNECT_KEY_EXCHANGE_FAILED`.
    KeyExchangeFailed,
    /// `SSH_DISCONNECT_RESERVED`.
    Reserved,
    /// `SSH_DISCONNECT_MAC_ERROR`.
    MacError,
    /// `SSH_DISCONNECT_COMPRESSION_ERROR`.
    CompressionError,
    /// `SSH_DISCONNECT_SERVICE_NOT_AVAILABLE`.
    ServiceNotAvailable,
    /// `SSH_DISCONNECT_PROTOCOL_VERSION_NOT_SUPPORTED`.
    ProtocolVersionNotSupported,
    /// `SSH_DISCONNECT_HOST_KEY_NOT_VERIFIABLE`.
    HostKeyNotVerifiable,
    /// `SSH_DISCONNECT_CONNECTION_LOST`.
    ConnectionLost,
    /// `SSH_DISCONNECT_BY_APPLICATION`.
    ByApplication,
    /// `SSH_DISCONNECT_TOO_MANY_CONNECTIONS`.
    TooManyConnections,
    /// `SSH_DISCONNECT_AUTH_CANCELLED_BY_USER`.
    AuthCancelledByUser,
    /// `SSH_DISCONNECT_NO_MORE_AUTH_METHODS_AVAILABLE`.
    NoMoreAuthMethodsAvailable,
    /// `SSH_DISCONNECT_ILLEGAL_USER_NAME`.
    IllegalUserName,
    /// Any other disconnect reason, may be non-standard.
    ///
    /// The 'reason code' values in the range of `0xFE000000`
    /// through `0xFFFFFFFF` are reserved for PRIVATE USE.
    Other(u32),
}

impl DisconnectReason {
    /// The numeric code of this value.
    pub open spec fn spec_code(&self) -> u32 {
        match self {
            Self::HostNotAllowedToConnect => 1,
            Self::ProtocolError => 2,
            Self::KeyExchangeFailed => 3,
            Self::Reserved => 4,
            Self::MacError => 5,
            Self::CompressionError => 6,
            Self::ServiceNotAvailable => 7,
            Self::ProtocolVersionNotSupported => 8,
            Self::HostKeyNotVerifiable => 9,
            Self::ConnectionLost => 10,
            Self::ByApplication => 11,
            Self::TooManyConnections => 12,
            Self::AuthCancelledByUser => 13,
            Self::NoMoreAuthMethodsAvailable => 14,
            Self::IllegalUserName => 15,
            Self::Other(code) => *code,
        }
    }

    /// The wire form: the code as a big-endian `u32`.
    pub open spec fn wire(&self) -> Seq<u8> {
        be32(self.spec_code())
    }

    /// The value always has a wire form.
    pub open spec fn fits(&self) -> bool {
        true
    }

    /// The numeric code of this value.
    pub fn code(&self) -> (r: u32)
        ensures
            r == self.spec_code(),
    {
        match self {
            Self::HostNotAllowedToConnect => 1,
            Self::ProtocolError => 2,
            Self::KeyExchangeFailed => 3,
            Self::Reserved => 4,
            Self::MacError => 5,
            Self::CompressionError => 6,
            Self::ServiceNotAvailable => 7,
            Self::ProtocolVersionNotSupported => 8,
            Self::HostKeyNotVerifiable => 9,
            Self::ConnectionLost => 10,
            Self::ByApplication => 11,
            Self::TooManyConnections => 12,
            Self::AuthCancelledByUser => 13,
            Self::NoMoreAuthMethodsAvailable => 14,
            Self::IllegalUserName => 15,
            Self::Other(code) => *code,
        }
    }

    /// The value that `code` stands for.
    pub fn from_code(code: u32) -> (r: DisconnectReason)
        ensures
            r.spec_code() == code,
            r is Other <==> !(1 <= code <= 15),
    {
        match code {
            1 => Self::HostNotAllowedToConnect,
            2 => Self::ProtocolError,
            3 => Self::KeyExchangeFailed,
            4 => Self::Reserved,
            5 => Self::MacError,
            6 => Self::CompressionError,
            7 => Self::ServiceNotAvailable,
            8 => Self::ProtocolVersionNotSupported,
            9 => Self::HostKeyNotVerifiable,
            10 => Self::ConnectionLost,
            11 => Self::ByApplication,
            12 => Self::TooManyConnections,
            13 => Self::AuthCancelledByUser,
            14 => Self::NoMoreAuthMethodsAvailable,
            15 => Self::IllegalUserName,
            _ => Self::Other(code),
        }
    }

    /// Append the wire form to `out`.
    pub fn encode(&self, out: &mut Vec<u8>)
        ensures
            final(out)@ == old(out)@ + self.wire(),
    {
        put_u32(out, self.code());
    }
}

/// The `SSH_MSG_IGNORE` message.
///
/// see <https://datatracker.ietf.org/doc/html/rfc4253#section-11.2>.
#[derive(Debug)]
pub struct Ignore {
    /// SSH_MSG_IGNORE's _data_.
    pub data: arch::Bytes,
}

impl Ignore {
    /// The wire form of this message.
    pub open spec fn wire(&self) -> Seq<u8> {
        seq![2u8] + self.data.wire()
    }

    /// Every field is small enough to have a wire form.
    pub open spec fn fits(&self) -> bool {
        self.data.fits()
    }

    /// Append the wire form of this message to `out`.
    pub fn encode(&self, out: &mut Vec<u8>)
        requires
            self.fits(),
        ensures
            final(out)@ == old(out)@ + self.wire(),
    {
        out.push(2);
        self.data.encode(out);
        assert(final(out)@ =~= old(out)@ + self.wire());
    }
}

/// The `SSH_MSG_DEBUG` message.
///
/// see <https://datatracker.ietf.org/doc/html/rfc4253#section-11.3>.
#[derive(Debug)]
pub struct Debug {
    /// SSH_MSG_DEBUG's _always_display_.
    pub always_display: arch::Bool,
    /// SSH_MSG_DEBUG's _message_.
    pub message: arch::StringUtf8,
    /// SSH_MSG_DEBUG's _language_.
    pub language: arch::StringAscii,
}

impl Debug {
    /// The wire form of this message.
    pub open spec fn wire(&self) -> Seq<u8> {
        seq![4u8] + self.always_display.wire() + self.message.wire() + self.language.wire()
    }

    /// Every field is small enough to have a wire form.
    pub open spec fn fits(&self) -> bool {
        self.message.fits() && self.language.fits()
    }

    /// Append the wire form of this message to `out`.
    pub fn encode(&self, out: &mut Vec<u8>)
        requires
            self.fits(),
        ensures
            final(out)@ == old(out)@ + self.wire(),
    {
        out.push(4);
        self.always_display.encode(out);
        self.message.encode(out);
        self.language.encode(out);
        assert(final(out)@ =~= old(out)@ + self.wire());
    }
}

/// The `SSH_MSG_UNIMPLEMENTED` message.
///
/// see <https://datatracker.ietf.org/doc/html/rfc4253#section-11.4>.
#[derive(Debug)]
pub struct Unimplemented {
    /// SSH_MSG_UNIMPLEMENTED's _packet sequence number of rejected message_.
    pub seq: u32,
}

impl Unimplemented {
    /// The wire form of this message.
    pub open spec fn wire(&self) -> Seq<u8> {
        seq![3u8] + be32(self.seq)
    }

    /// Every field is small enough to have a wire form.
    pub open spec fn fits(&self) -> bool {
        true
    }

    /// Append the wire form of this message to `out`.
    pub fn encode(&self, out: &mut Vec<u8>)
        requires
            self.fits(),
        ensures
            final(out)@ == old(out)@ + self.wire(),
    {
        out.push(3);
        put_u32(out, self.seq);
        assert(final(out)@ =~= old(out)@ + self.wire());
    }
}

/// The `SSH_MSG_SERVICE_REQUEST` message.
///
/// see <https://datatracker.ietf.org/doc/html/rfc4253#section-10>.
#[derive(Debug)]
pub struct ServiceRequest {
    /// SSH_MSG_SERVICE_REQUEST's _service name_.
    pub service_name: arch::StringAscii,
}

impl ServiceRequest {
    /// The wire form of this message.
    pub open spec fn wire(&self) -> Seq<u8> {
        seq![5u8] + self.service_name.wire()
    }

    /// Every field is small enough to have a wire form.
    pub open spec fn fits(&self) -> bool {
        self.service_name.fits()
    }

    /// Append the wire form of this message to `out`.
    pub fn encode(&self, out: &mut Vec<u8>)
        requires
            self.fits(),
        ensures
            final(out)@ == old(out)@ + self.wire(),
    {
        out.push(5);
        self.service_name.encode(out);
        assert(final(out)@ =~= old(out)@ + self.wire());
    }
}

/// The `SSH_MSG_SERVICE_ACCEPT` message.
///
/// see <https://datatracker.ietf.org/doc/html/rfc4253#section-10>.
#[derive(Debug)]
pub struct ServiceAccept {
    /// SSH_MSG_SERVICE_ACCEPT's _service name_.
    pub service_name: arch::StringAscii,
}

impl ServiceAccept {
    /// The wire form of this message.
    pub open spec fn wire(&self) -> Seq<u8> {
        seq![6u8] + self.service_name.wire()
    }

    /// Every field is small enough to have a wire form.
    pub open spec fn fits(&self) -> bool {
        self.service_name.fits()
    }

    /// Append the wire form of this message to `out`.
    pub fn encode(&self, out: &mut Vec<u8>)
        requires
            self.fits(),
        ensures
            final(out)@ == old(out)@ + self.wire(),
    {
        out.push(6);
        self.service_name.encode(out);
        assert(final(out)@ =~= old(out)@ + self.wire());
    }
}

/// The `SSH_MSG_KEXINIT` message.
///
/// see <https://datatracker.ietf.org/doc/html/rfc4253#section-7.1>.
#[derive(Debug)]
pub struct KexInit {
    /// SSH_MSG_KEXINIT's _cookie_.
    pub cookie: [u8; 16],
    /// SSH_MSG_KEXINIT's _kex_algorithms_.
    pub kex_algorithms: arch::NameList,
    /// SSH_MSG_KEXINIT's _server_host_key_algorithms_.
    pub server_host_key_algorithms: arch::NameList,
    /// SSH_MSG_KEXINIT's _encryption_algorithms_client_to_server_.
    pub encryption_algorithms_client_to_server: arch::NameList,
    /// SSH_MSG_KEXINIT's _encryption_algorithms_server_to_client_.
    pub encryption_algorithms_server_to_client: arch::NameList,
    /// SSH_MSG_KEXINIT's _mac_algorithms_client_to_server_.
    pub mac_algorithms_client_to_server: arch::NameList,
    /// SSH_MSG_KEXINIT's _mac_algorithms_server_to_client_.
    pub mac_algorithms_server_to_client: arch::NameList,
    /// SSH_MSG_KEXINIT's _compression_algorithms_client_to_server_.
    pub compression_algorithms_client_to_server: arch::NameList,
    /// SSH_MSG_KEXINIT's _compression_algorithms_server_to_client_.
    pub compression_algorithms_server_to_client: arch::NameList,
    /// SSH_MSG_KEXINIT's _languages_client_to_server_.
    pub languages_client_to_server: arch::NameList,
    /// SSH_MSG_KEXINIT's _languages_server_to_client_.
    pub languages_server_to_client: arch::NameList,
    /// SSH_MSG_KEXINIT's _first_kex_packet_follows_.
    pub first_kex_packet_follows: arch::Bool,
}

impl KexInit {
    /// The wire form of this message, ending with the reserved `u32` zero.
    pub open spec fn wire(&self) -> Seq<u8> {
        seq![20u8] + self.cookie@ + self.first_lists_wire() + self.last_lists_wire()
            + self.first_kex_packet_follows.wire() + be32(0)
    }

    /// The wire form of the key exchange, host key, cipher and first MAC name-lists.
    pub open spec fn first_lists_wire(&self) -> Seq<u8> {
        self.kex_algorithms.wire() + self.server_host_key_algorithms.wire()
            + self.encryption_algorithms_client_to_server.wire()
            + self.encryption_algorithms_server_to_client.wire()
            + self.mac_algorithms_client_to_server.wire()
    }

    /// The wire form of the second MAC, compression and language name-lists.
    pub open spec fn last_lists_wire(&self) -> Seq<u8> {
        self.mac_algorithms_server_to_client.wire()
            + self.compression_algorithms_client_to_server.wire()
            + self.compression_algorithms_server_to_client.wire()
            + self.languages_client_to_server.wire() + self.languages_server_to_client.wire()
    }

    /// Every name-list is small enough to have a wire form.
    pub open spec fn fits(&self) -> bool {
        &&& self.kex_algorithms.fits()
        &&& self.server_host_key_algorithms.fits()
        &&& self.encryption_algorithms_client_to_server.fits()
        &&& self.encryption_algorithms_server_to_client.fits()
        &&& self.mac_algorithms_client_to_server.fits()
        &&& self.mac_algorithms_server_to_client.fits()
        &&& self.compression_algorithms_client_to_server.fits()
        &&& self.compression_algorithms_server_to_client.fits()
        &&& self.languages_client_to_server.fits()
        &&& self.languages_server_to_client.fits()
    }

    /// Append the wire form of this message to `out`.
    pub fn encode(&self, out: &mut Vec<u8>)
        requires
            self.fits(),
        ensures
            final(out)@ == old(out)@ + self.wire(),
    {
        out.push(20);
        let ghost start = out@;
        let mut i: usize = 0;
        while i < 16
            invariant
                i <= 16,
                self.cookie@.len() == 16,
                out@ == start + self.cookie@.subrange(0, i as int),
            decreases 16 - i,
        {
            out.push(self.cookie[i]);
            i = i + 1;
            assert(out@ =~= start + self.cookie@.subrange(0, i as int));
        }
        assert(self.cookie@.subrange(0, 16) =~= self.cookie@);
        self.encode_first_lists(out);
        self.encode_last_lists(out);
        self.first_kex_packet_follows.encode(out);
        put_u32(out, 0);
        assert(final(out)@ =~= old(out)@ + self.wire());
    }

    fn encode_first_lists(&self, out: &mut Vec<u8>)
        requires
            self.fits(),
        ensures
            final(out)@ == old(out)@ + self.first_lists_wire(),
    {
        self.kex_algorithms.encode(out);
        self.server_host_key_algorithms.encode(out);
        self.encryption_algorithms_client_to_server.encode(out);
        self.encryption_algorithms_server_to_client.encode(out);
        self.mac_algorithms_client_to_server.encode(out);
        assert(final(out)@ =~= old(out)@ + self.first_lists_wire());
    }

    fn encode_last_lists(&self, out: &mut Vec<u8>)
        requires
            self.fits(),
        ensures
            final(out)@ == old(out)@ + self.last_lists_wire(),
    {
        self.mac_algorithms_server_to_client.encode(out);
        self.compression_algorithms_client_to_server.encode(out);
        self.compression_algorithms_server_to_client.encode(out);
        self.languages_client_to_server.encode(out);
        self.languages_server_to_client.encode(out);
        assert(final(out)@ =~= old(out)@ + self.last_lists_wire());
    }
}

/// The `SSH_MSG_NEWKEYS` message.
///
/// see <https://datatracker.ietf.org/doc/html/rfc4253#section-7.3>.
#[derive(Debug)]
pub struct NewKeys;

impl NewKeys {
    /// The wire form of this message.
    pub open spec fn wire(&self) -> Seq<u8> {
        seq![21u8]
    }

    /// Every field is small enough to have a wire form.
    pub open spec fn fits(&self) -> bool {
        true
    }

    /// Append the wire form of this message to `out`.
    pub fn encode(&self, out: &mut Vec<u8>)
        requires
            self.fits(),
        ensures
            final(out)@ == old(out)@ + self.wire(),
    {
        out.push(21);
        assert(final(out)@ =~= old(out)@ + self.wire());
    }
}

} // verus!
