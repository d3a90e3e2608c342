//! Messages involved in the SSH's **connect** (`SSH-CONNECT`) part of the protocol,
//! as defined in the [RFC 4254](https://datatracker.ietf.org/doc/html/rfc4254).
use vstd::prelude::*;
use vstd::utf8::encode_utf8;

use crate::arch;
use crate::wire::{be32, lengthed, put_all, put_u32};

verus! {

/// The `SSH_MSG_GLOBAL_REQUEST` message.
///
/// see <https://datatracker.ietf.org/doc/html/rfc4254#section-4>.
#[derive(Debug)]
pub struct GlobalRequest {
    /// Whether the sender wants a reply.
    pub want_reply: arch::Bool,
    /// The context of the global request.
    pub context: GlobalRequestContext,
}

impl GlobalRequest {
    /// The wire form of this message.
    pub open spec fn wire(&self) -> Seq<u8> {
        seq![80u8] + self.context.kind_wire() + self.want_reply.wire() + self.context.wire()
    }

    /// Every field is small enough to have a wire form.
    pub open spec fn fits(&self) -> bool {
        self.context.fits()
    }

    /// Append the wire form of this message to `out`.
    pub fn encode(&self, out: &mut Vec<u8>)
        requires
            self.fits(),
        ensures
            final(out)@ == old(out)@ + self.wire(),
    {
        out.push(80);
        self.context.encode_kind(out);
        self.want_reply.encode(out);
        self.context.encode(out);
        assert(final(out)@ =~= old(out)@ + self.wire());
    }
}

/// The `context` in the `SSH_MSG_GLOBAL_REQUEST` message.
#[derive(Debug)]
pub enum GlobalRequestContext {
    /// A request of type `tcpip-forward`,
    /// as defined in [RFC4254 section 7.1](https://datatracker.ietf.org/doc/html/rfc4254#section-7.1).
    TcpipForward {
        /// Address to bind on the remote.
        bind_address: arch::StringAscii,
        /// Port to bind on the remote, randomly chosen if 0.
        bind_port: u32,
    },
    /// A request of type `cancel-tcpip-forward`,
    /// as defined in [RFC4254 section 7.1](https://datatracker.ietf.org/doc/html/rfc4254#section-7.1).
    CancelTcpipForward {
        /// Address that was bound on the remote.
        bind_address: arch::StringAscii,
        /// Port that was bound on the remote.
        bind_port: u32,
    },
}

impl GlobalRequestContext {
    /// The SSH identifier of this variant.
    pub open spec fn spec_kind(&self) -> Seq<char> {
        match self {
            Self::TcpipForward { .. } => "tcpip-forward"@,
            Self::CancelTcpipForward { .. } => "cancel-tcpip-forward"@,
        }
    }

    /// The wire form of the identifier, as an ASCII `string`.
    pub open spec fn kind_wire(&self) -> Seq<u8> {
        lengthed(encode_utf8(self.spec_kind()))
    }

    /// The wire form of the fields of this variant.
    pub open spec fn wire(&self) -> Seq<u8> {
        match self {
            Self::TcpipForward { bind_address, bind_port } => bind_address.wire() + be32(*bind_port),
            Self::CancelTcpipForward { bind_address, bind_port } => bind_address.wire() + be32(*bind_port),
        }
    }

    /// Every field is small enough to have a wire form.
    pub open spec fn fits(&self) -> bool {
        match self {
            Self::TcpipForward { bind_address, bind_port } => bind_address.fits(),
            Self::CancelTcpipForward { bind_address, bind_port } => bind_address.fits(),
        }
    }

    /// Get the [`GlobalRequestContext`]'s SSH identifier.
    pub fn as_str(&self) -> (r: &'static str)
        ensures
            r@ == self.spec_kind(),
    {
        match self {
            Self::TcpipForward { .. } => "tcpip-forward",
            Self::CancelTcpipForward { .. } => "cancel-tcpip-forward",
        }
    }

    /// Append the wire form of the identifier to `out`.
    pub fn encode_kind(&self, out: &mut Vec<u8>)
        ensures
            final(out)@ == old(out)@ + self.kind_wire(),
    {
        let kind = self.as_str().as_bytes();
        proof {
            reveal_strlit("tcpip-forward");
            reveal_strlit("cancel-tcpip-forward");
        }
        put_u32(out, kind.len() as u32);
        put_all(out, kind);
        assert(final(out)@ =~= old(out)@ + self.kind_wire());
    }

    /// Append the wire form of the fields to `out`.
    pub fn encode(&self, out: &mut Vec<u8>)
        requires
            self.fits(),
        ensures
            final(out)@ == old(out)@ + self.wire(),
    {
        match self {
            Self::TcpipForward { bind_address, bind_port } => {
                bind_address.encode(out);
                put_u32(out, *bind_port);
            },
            Self::CancelTcpipForward { bind_address, bind_port } => {
                bind_address.encode(out);
                put_u32(out, *bind_port);
            },
        }
        assert(final(out)@ =~= old(out)@ + self.wire());
    }
}

/// The `SSH_MSG_REQUEST_SUCCESS` message (empty body).
///
/// see <https://datatracker.ietf.org/doc/html/rfc4254#section-4>.
#[derive(Debug)]
pub struct RequestSuccess;

impl RequestSuccess {
    /// The wire form of this message.
    pub open spec fn wire(&self) -> Seq<u8> {
        seq![81u8]
    }

    /// Every field is small enough to have a wire form.
    pub open spec fn fits(&self) -> bool {
        true
    }

    /// Append the wire form of this message to `out`.
    pub fn encode(&self, out: &mut Vec<u8>)
        requires
            self.fits(),
        ensures
            final(out)@ == old(out)@ + self.wire(),
    {
        out.push(81);
        assert(final(out)@ =~= old(out)@ + self.wire());
    }
}

/// The `SSH_MSG_REQUEST_SUCCESS` message in the context of a `tcpip-forward` global request,
/// if the provided port was `0` and `want_reply` was set to `true` in the request.
///
/// see [RFC4254 section 7.1](https://datatracker.ietf.org/doc/html/rfc4254#section-7.1).
#[derive(Debug)]
pub struct ForwardingSuccess {
    /// Port that was bound on the remote.
    pub bound_port: u32,
}

impl ForwardingSuccess {
    /// The wire form of this message.
    pub open spec fn wire(&self) -> Seq<u8> {
        seq![81u8] + be32(self.bound_port)
    }

    /// Every field is small enough to have a wire form.
    pub open spec fn fits(&self) -> bool {
        true
    }

    /// Append the wire form of this message to `out`.
    pub fn encode(&self, out: &mut Vec<u8>)
        requires
            self.fits(),
        ensures
            final(out)@ == old(out)@ + self.wire(),
    {
        out.push(81);
        put_u32(out, self.bound_port);
        assert(final(out)@ =~= old(out)@ + self.wire());
    }
}

/// The `SSH_MSG_REQUEST_FAILURE` message.
///
/// see <https://datatracker.ietf.org/doc/html/rfc4254#section-4>.
#[derive(Debug)]
pub struct RequestFailure;

impl RequestFailure {
    /// The wire form of this message.
    pub open spec fn wire(&self) -> Seq<u8> {
        seq![82u8]
    }

    /// Every field is small enough to have a wire form.
    pub open spec fn fits(&self) -> bool {
        true
    }

    /// Append the wire form of this message to `out`.
    pub fn encode(&self, out: &mut Vec<u8>)
        requires
            self.fits(),
        ensures
            final(out)@ == old(out)@ + self.wire(),
    {
        out.push(82);
        assert(final(out)@ =~= old(out)@ + self.wire());
    }
}

/// The `SSH_MSG_CHANNEL_OPEN` message.
///
/// see <https://datatracker.ietf.org/doc/html/rfc4254#section-5.1>.
#[derive(Debug)]
pub struct ChannelOpen {
    /// Sender channel.
    pub sender_channel: u32,
    /// Initial window size, in bytes.
    pub initial_window_size: u32,
    /// Maximum packet size, in bytes.
    pub maximum_packet_size: u32,
    /// The context of the open request.
    pub context: ChannelOpenContext,
}

impl ChannelOpen {
    /// The wire form of this message.
    pub open spec fn wire(&self) -> Seq<u8> {
        seq![90u8] + self.context.kind_wire() + be32(self.sender_channel) + be32(self.initial_window_size) + be32(self.maximum_packet_size) + self.context.wire()
    }

    /// Every field is small enough to have a wire form.
    pub open spec fn fits(&self) -> bool {
        self.context.fits()
    }

    /// Append the wire form of this message to `out`.
    pub fn encode(&self, out: &mut Vec<u8>)
        requires
            self.fits(),
        ensures
            final(out)@ == old(out)@ + self.wire(),
    {
        out.push(90);
        self.context.encode_kind(out);
        put_u32(out, self.sender_channel);
        put_u32(out, self.initial_window_size);
        put_u32(out, self.maximum_packet_size);
        self.context.encode(out);
        assert(final(out)@ =~= old(out)@ + self.wire());
    }
}

/// The `context` in the `SSH_MSG_CHANNEL_OPEN` message.
#[derive(Debug)]
pub enum ChannelOpenContext {
    /// A channel of type `session`,
    /// as defined in [RFC4254 section 6.1](https://datatracker.ietf.org/doc/html/rfc4254#section-6.1).
    Session,
    /// A channel of type `x11`,
    /// as defined in [RFC4254 section 6.3.2](https://datatracker.ietf.org/doc/html/rfc4254#section-6.3.2).
    X11 {
        /// Originator address.
        originator_address: arch::StringAscii,
        /// Originator port.
        originator_port: u32,
    },
    /// A channel of type `forwarded-tcpip`,
    /// as defined in [RFC4254 section 7.2](https://datatracker.ietf.org/doc/html/rfc4254#section-7.2).
    ForwardedTcpip {
        /// Address that was connected on the remote.
        address: arch::StringAscii,
        /// Port that was connected on the remote.
        port: u32,
        /// Originator address.
        originator_address: arch::StringAscii,
        /// Originator port.
        originator_port: u32,
    },
    /// A channel of type `direct-tcpip`,
    /// as defined in [RFC4254 section 7.2](https://datatracker.ietf.org/doc/html/rfc4254#section-7.2).
    DirectTcpip {
        /// Address to connect to.
        address: arch::StringAscii,
        /// Port to connect to.
        port: u32,
        /// Originator address.
        originator_address: arch::StringAscii,
        /// Originator port.
        originator_port: u32,
    },
}

impl ChannelOpenContext {
    /// The SSH identifier of this variant.
    pub open spec fn spec_kind(&self) -> Seq<char> {
        match self {
            Self::Session => "session"@,
            Self::X11 { .. } => "x11"@,
            Self::ForwardedTcpip { .. } => "forwarded-tcpip"@,
            Self::DirectTcpip { .. } => "direct-tcpip"@,
        }
    }

    /// The wire form of the identifier, as an ASCII `string`.
    pub open spec fn kind_wire(&self) -> Seq<u8> {
        lengthed(encode_utf8(self.spec_kind()))
    }

    /// The wire form of the fields of this variant.
    pub open spec fn wire(&self) -> Seq<u8> {
        match self {
            Self::Session => Seq::empty(),
            Self::X11 { originator_address, originator_port } => originator_address.wire() + be32(*originator_port),
            Self::ForwardedTcpip { address, port, originator_address, originator_port } => address.wire() + be32(*port) + originator_address.wire() + be32(*originator_port),
            Self::DirectTcpip { address, port, originator_address, originator_port } => address.wire() + be32(*port) + originator_address.wire() + be32(*originator_port),
        }
    }

    /// Every field is small enough to have a wire form.
    pub open spec fn fits(&self) -> bool {
        match self {
            Self::Session => true,
            Self::X11 { originator_address, originator_port } => originator_address.fits(),
            Self::ForwardedTcpip { address, port, originator_address, originator_port } => address.fits() && originator_address.fits(),
            Self::DirectTcpip { address, port, originator_address, originator_port } => address.fits() && originator_address.fits(),
        }
    }

    /// Get the [`ChannelOpenContext`]'s SSH identifier.
    pub fn as_str(&self) -> (r: &'static str)
        ensures
            r@ == self.spec_kind(),
    {
        match self {
            Self::Session => "session",
            Self::X11 { .. } => "x11",
            Self::ForwardedTcpip { .. } => "forwarded-tcpip",
            Self::DirectTcpip { .. } => "direct-tcpip",
        }
    }

    /// Append the wire form of the identifier to `out`.
    pub fn encode_kind(&self, out: &mut Vec<u8>)
        ensures
            final(out)@ == old(out)@ + self.kind_wire(),
    {
        let kind = self.as_str().as_bytes();
        proof {
            reveal_strlit("session");
            reveal_strlit("x11");
            reveal_strlit("forwarded-tcpip");
            reveal_strlit("direct-tcpip");
        }
        put_u32(out, kind.len() as u32);
        put_all(out, kind);
        assert(final(out)@ =~= old(out)@ + self.kind_wire());
    }

    /// Append the wire form of the fields to `out`.
    pub fn encode(&self, out: &mut Vec<u8>)
        requires
            self.fits(),
        ensures
            final(out)@ == old(out)@ + self.wire(),
    {
        match self {
            Self::Session => {},
            Self::X11 { originator_address, originator_port } => {
                originator_address.encode(out);
                put_u32(out, *originator_port);
            },
            Self::ForwardedTcpip { address, port, originator_address, originator_port } => {
                address.encode(out);
                put_u32(out, *port);
                originator_address.encode(out);
                put_u32(out, *originator_port);
            },
            Self::DirectTcpip { address, port, originator_address, originator_port } => {
                address.encode(out);
                put_u32(out, *port);
                originator_address.encode(out);
                put_u32(out, *originator_port);
            },
        }
        assert(final(out)@ =~= old(out)@ + self.wire());
    }
}

/// The `SSH_MSG_CHANNEL_OPEN_CONFIRMATION` message.
///
/// see <https://datatracker.ietf.org/doc/html/rfc4254#section-5.1>.
#[derive(Debug)]
pub struct ChannelOpenConfirmation {
    /// Recipient channel.
    pub recipient_channel: u32,
    /// Sender channel.
    pub sender_channel: u32,
    /// Initial window size, in bytes.
    pub initial_window_size: u32,
    /// Maximum packet size, in bytes.
    pub maximum_packet_size: u32,
}

impl ChannelOpenConfirmation {
    /// The wire form of this message.
    pub open spec fn wire(&self) -> Seq<u8> {
        seq![91u8] + be32(self.recipient_channel) + be32(self.sender_channel) + be32(self.initial_window_size) + be32(self.maximum_packet_size)
    }

    /// Every field is small enough to have a wire form.
    pub open spec fn fits(&self) -> bool {
        true
    }

    /// Append the wire form of this message to `out`.
    pub fn encode(&self, out: &mut Vec<u8>)
        requires
            self.fits(),
        ensures
            final(out)@ == old(out)@ + self.wire(),
    {
        out.push(91);
        put_u32(out, self.recipient_channel);
        put_u32(out, self.sender_channel);
        put_u32(out, self.initial_window_size);
        put_u32(out, self.maximum_packet_size);
        assert(final(out)@ =~= old(out)@ + self.wire());
    }
}

/// The `SSH_MSG_CHANNEL_OPEN_FAILURE` message.
///
/// see <https://datatracker.ietf.org/doc/html/rfc4254#section-5.1>.
#[derive(Debug)]
pub struct ChannelOpenFailure {
    /// Recipient channel.
    pub recipient_channel: u32,
    /// Reason for the channel opening failure.
    pub reason: ChannelOpenFailureReason,
    /// Description of the reason.
    pub description: arch::StringUtf8,
    /// Language tag.
    pub language: arch::StringAscii,
}

impl ChannelOpenFailure {
    /// The wire form of this message.
    pub open spec fn wire(&self) -> Seq<u8> {
        seq![92u8] + be32(self.recipient_channel) + self.reason.wire() + self.description.wire() + self.language.wire()
    }

    /// Every field is small enough to have a wire form.
    pub open spec fn fits(&self) -> bool {
        self.reason.fits() && self.description.fits() && self.language.fits()
    }

    /// Append the wire form of this message to `out`.
    pub fn encode(&self, out: &mut Vec<u8>)
        requires
            self.fits(),
        ensures
            final(out)@ == old(out)@ + self.wire(),
    {
        out.push(92);
        put_u32(out, self.recipient_channel);
        self.reason.encode(out);
        self.description.encode(out);
        self.language.encode(out);
        assert(final(out)@ =~= old(out)@ + self.wire());
    }
}

/// The `reason` for failure in the `SSH_MSG_CHANNEL_OPEN_FAILURE` message.
#[derive(Debug, Clone, Copy, PartialEq, Eq)]
pub enum ChannelOpenFailureReason {
    /// `SSH_OPEN_ADMINISTRATIVELY_PROHIBITED`.
    AdministrativelyProhibited,
    /// `SSH_OPEN_CONNECT_FAILED`.
    ConnectFailed,
    /// `SSH_OPEN_UNKNOWN_CHANNEL_TYPE`.
    UnknownChannelType,
    /// `SSH_OPEN_RESOURCE_SHORTAGE`.
    ResourceShortage,
    /// Any other failure reason, may be non-standard.
    ///
    /// The 'reason' values in the range of `0xFE000000`
    /// through `0xFFFFFFFF` are reserved for PRIVATE USE.
    Other(u32),
}

impl ChannelOpenFailureReason {
    /// The numeric code of this value.
    pub open spec fn spec_code(&self) -> u32 {
        match self {
            Self::AdministrativelyProhibited => 1,
            Self::ConnectFailed => 2,
            Self::UnknownChannelType => 3,
            Self::ResourceShortage => 4,
            Self::Other(code) => *code,
        }
    }

    /// The wire form: the code as a big-endian `u32`.
    pub open spec fn wire(&self) -> Seq<u8> {
        be32(self.spec_code())
    }

    /// The value always has a wire form.
    pub open spec fn fits(&self) -> bool {
        true
    }

    /// The numeric code of this value.
    pub fn code(&self) -> (r: u32)
        ensures
            r == self.spec_code(),
    {
        match self {
            Self::AdministrativelyProhibited => 1,
            Self::ConnectFailed => 2,
            Self::UnknownChannelType => 3,
            Self::ResourceShortage => 4,
            Self::Other(code) => *code,
        }
    }

    /// The value that `code` stands for.
    pub fn from_code(code: u32) -> (r: ChannelOpenFailureReason)
        ensures
            r.spec_code() == code,
            r is Other <==> !(1 <= code <= 4),
    {
        match code {
            1 => Self::AdministrativelyProhibited,
            2 => Self::ConnectFailed,
            3 => Self::UnknownChannelType,
            4 => Self::ResourceShortage,
            _ => Self::Other(code),
        }
    }

    /// Append the wire form to `out`.
    pub fn encode(&self, out: &mut Vec<u8>)
        ensures
            final(out)@ == old(out)@ + self.wire(),
    {
        put_u32(out, self.code());
    }
}

/// The `SSH_MSG_CHANNEL_WINDOW_ADJUST` message.
///
/// see <https://datatracker.ietf.org/doc/html/rfc4254#section-5.2>.
#[derive(Debug)]
pub struct ChannelWindowAdjust {
    /// Recipient channel.
    pub recipient_channel: u32,
    /// Bytes to add to the window.
    pub bytes_to_add: u32,
}

impl ChannelWindowAdjust {
    /// The wire form of this message.
    pub open spec fn wire(&self) -> Seq<u8> {
        seq![93u8] + be32(self.recipient_channel) + be32(self.bytes_to_add)
    }

    /// Every field is small enough to have a wire form.
    pub open spec fn fits(&self) -> bool {
        true
    }

    /// Append the wire form of this message to `out`.
    pub fn encode(&self, out: &mut Vec<u8>)
        requires
            self.fits(),
        ensures
            final(out)@ == old(out)@ + self.wire(),
    {
        out.push(93);
        put_u32(out, self.recipient_channel);
        put_u32(out, self.bytes_to_add);
        assert(final(out)@ =~= old(out)@ + self.wire());
    }
}

/// The `SSH_MSG_CHANNEL_DATA` message.
///
/// see <https://datatracker.ietf.org/doc/html/rfc4254#section-5.2>.
#[derive(Debug)]
pub struct ChannelData {
    /// Recipient channel.
    pub recipient_channel: u32,
    /// Data bytes to transport.
    pub data: arch::Bytes,
}

impl ChannelData {
    /// The wire form of this message.
    pub open spec fn wire(&self) -> Seq<u8> {
        seq![94u8] + be32(self.recipient_channel) + self.data.wire()
    }

    /// Every field is small enough to have a wire form.
    pub open spec fn fits(&self) -> bool {
        self.data.fits()
    }

    /// Append the wire form of this message to `out`.
    pub fn encode(&self, out: &mut Vec<u8>)
        requires
            self.fits(),
        ensures
            final(out)@ == old(out)@ + self.wire(),
    {
        out.push(94);
        put_u32(out, self.recipient_channel);
        self.data.encode(out);
        assert(final(out)@ =~= old(out)@ + self.wire());
    }
}

/// The `SSH_MSG_CHANNEL_EXTENDED_DATA` message.
///
/// see <https://datatracker.ietf.org/doc/html/rfc4254#section-5.2>.
#[derive(Debug)]
pub struct ChannelExtendedData {
    /// Recipient channel.
    pub recipient_channel: u32,
    /// Type of the transmitted data.
    pub data_type: ChannelExtendedDataType,
    /// Data bytes to transport.
    pub data: arch::Bytes,
}

impl ChannelExtendedData {
    /// The wire form of this message.
    pub open spec fn wire(&self) -> Seq<u8> {
        seq![95u8] + be32(self.recipient_channel) + self.data_type.wire() + self.data.wire()
    }

    /// Every field is small enough to have a wire form.
    pub open spec fn fits(&self) -> bool {
        self.data_type.fits() && self.data.fits()
    }

    /// Append the wire form of this message to `out`.
    pub fn encode(&self, out: &mut Vec<u8>)
        requires
            self.fits(),
        ensures
            final(out)@ == old(out)@ + self.wire(),
    {
        out.push(95);
        put_u32(out, self.recipient_channel);
        self.data_type.encode(out);
        self.data.encode(out);
        assert(final(out)@ =~= old(out)@ + self.wire());
    }
}

/// The `type` of extended data in the `SSH_MSG_CHANNEL_EXTENDED_DATA` message.
#[derive(Debug, Clone, Copy, PartialEq, Eq)]
pub enum ChannelExtendedDataType {
    /// `SSH_EXTENDED_DATA_STDERR`.
    Stderr,
    /// Any other extended data type, may be non-standard.
    ///
    /// The 'type' values in the range of `0xFE000000`
    /// through `0xFFFFFFFF` are reserved for PRIVATE USE.
    Other(u32),
}

impl ChannelExtendedDataType {
    /// The numeric code of this value.
    pub open spec fn spec_code(&self) -> u32 {
        match self {
            Self::Stderr => 1,
            Self::Other(code) => *code,
        }
    }

    /// The wire form: the code as a big-endian `u32`.
    pub open spec fn wire(&self) -> Seq<u8> {
        be32(self.spec_code())
    }

    /// The value always has a wire form.
    pub open spec fn fits(&self) -> bool {
        true
    }

    /// The numeric code of this value.
    pub fn code(&self) -> (r: u32)
        ensures
            r == self.spec_code(),
    {
        match self {
            Self::Stderr => 1,
            Self::Other(code) => *code,
        }
    }

    /// The value that `code` stands for.
    pub fn from_code(code: u32) -> (r: ChannelExtendedDataType)
        ensures
            r.spec_code() == code,
            r is Other <==> !(1 <= code <= 1),
    {
        match code {
            1 => Self::Stderr,
            _ => Self::Other(code),
        }
    }

    /// Append the wire form to `out`.
    pub fn encode(&self, out: &mut Vec<u8>)
        ensures
            final(out)@ == old(out)@ + self.wire(),
    {
        put_u32(out, self.code());
    }
}

/// The `SSH_MSG_CHANNEL_EOF` message.
///
/// see <https://datatracker.ietf.org/doc/html/rfc4254#section-5.3>.
#[derive(Debug)]
pub struct ChannelEof {
    /// Recipient channel.
    pub recipient_channel: u32,
}

impl ChannelEof {
    /// The wire form of this message.
    pub open spec fn wire(&self) -> Seq<u8> {
        seq![96u8] + be32(self.recipient_channel)
    }

    /// Every field is small enough to have a wire form.
    pub open spec fn fits(&self) -> bool {
        true
    }

    /// Append the wire form of this message to `out`.
    pub fn encode(&self, out: &mut Vec<u8>)
        requires
            self.fits(),
        ensures
            final(out)@ == old(out)@ + self.wire(),
    {
        out.push(96);
        put_u32(out, self.recipient_channel);
        assert(final(out)@ =~= old(out)@ + self.wire());
    }
}

/// The `SSH_MSG_CHANNEL_CLOSE` message.
///
/// see <https://datatracker.ietf.org/doc/html/rfc4254#section-5.3>.
#[derive(Debug)]
pub struct ChannelClose {
    /// Recipient channel.
    pub recipient_channel: u32,
}

impl ChannelClose {
    /// The wire form of this message.
    pub open spec fn wire(&self) -> Seq<u8> {
        seq![97u8] + be32(self.recipient_channel)
    }

    /// Every field is small enough to have a wire form.
    pub open spec fn fits(&self) -> bool {
        true
    }

    /// Append the wire form of this message to `out`.
    pub fn encode(&self, out: &mut Vec<u8>)
        requires
            self.fits(),
        ensures
            final(out)@ == old(out)@ + self.wire(),
    {
        out.push(97);
        put_u32(out, self.recipient_channel);
        assert(final(out)@ =~= old(out)@ + self.wire());
    }
}

/// The `SSH_MSG_CHANNEL_REQUEST` message.
///
/// see <https://datatracker.ietf.org/doc/html/rfc4254#section-5.4>.
#[derive(Debug)]
pub struct ChannelRequest {
    /// Recipient channel.
    pub recipient_channel: u32,
    /// Whether the sender wants a reply.
    pub want_reply: arch::Bool,
    /// The context of the channel request.
    pub context: ChannelRequestContext,
}

impl ChannelRequest {
    /// The wire form of this message.
    pub open spec fn wire(&self) -> Seq<u8> {
        seq![98u8] + be32(self.recipient_channel) + self.context.kind_wire() + self.want_reply.wire() + self.context.wire()
    }

    /// Every field is small enough to have a wire form.
    pub open spec fn fits(&self) -> bool {
        self.context.fits()
    }

    /// Append the wire form of this message to `out`.
    pub fn encode(&self, out: &mut Vec<u8>)
        requires
            self.fits(),
        ensures
            final(out)@ == old(out)@ + self.wire(),
    {
        out.push(98);
        put_u32(out, self.recipient_channel);
        self.context.encode_kind(out);
        self.want_reply.encode(out);
        self.context.encode(out);
        assert(final(out)@ =~= old(out)@ + self.wire());
    }
}

/// The `context` in the `SSH_MSG_CHANNEL_REQUEST` message.
#[derive(Debug)]
pub enum ChannelRequestContext {
    /// A request of type `pty-req`,
    /// as defined in [RFC4254 section 6.2](https://datatracker.ietf.org/doc/html/rfc4254#section-6.2).
    Pty {
        /// Value of the `TERM` environment variable.
        term: arch::Bytes,
        /// Terminal width, in characters.
        width_chars: u32,
        /// Terminal height, in rows.
        height_chars: u32,
        /// Terminal width, in pixels.
        width_pixels: u32,
        /// Terminal height, in pixels.
        height_pixels: u32,
        /// Encoded terminal modes.
        modes: arch::Bytes,
    },
    /// A request of type `x11-req`,
    /// as defined in [RFC4254 section 6.3](https://datatracker.ietf.org/doc/html/rfc4254#section-6.3).
    X11 {
        /// Whether only a single connection should be forwarded.
        single_connection: arch::Bool,
        /// X11 authentication protocol.
        x11_authentication_protocol: arch::Bytes,
        /// X11 authentication cookie.
        x11_authentication_cookie: arch::Bytes,
        /// X11 screen number.
        x11_screen_number: u32,
    },
    /// A request of type `env`,
    /// as defined in [RFC4254 section 6.4](https://datatracker.ietf.org/doc/html/rfc4254#section-6.4).
    Env {
        /// Variable name.
        name: arch::Bytes,
        /// Variable value.
        value: arch::Bytes,
    },
    /// A request of type `shell`,
    /// as defined in [RFC4254 section 6.5](https://datatracker.ietf.org/doc/html/rfc4254#section-6.5).
    Shell,
    /// A request of type `exec`,
    /// as defined in [RFC4254 section 6.5](https://datatracker.ietf.org/doc/html/rfc4254#section-6.5).
    Exec {
        /// Command to execute.
        command: arch::Bytes,
    },
    /// A request of type `subsystem`,
    /// as defined in [RFC4254 section 6.5](https://datatracker.ietf.org/doc/html/rfc4254#section-6.5).
    Subsystem {
        /// Name of the subsystem.
        name: arch::Bytes,
    },
    /// A request of type `window-change`,
    /// as defined in [RFC4254 section 6.7](https://datatracker.ietf.org/doc/html/rfc4254#section-6.7).
    WindowChange {
        /// Terminal width, in characters.
        width_chars: u32,
        /// Terminal height, in rows.
        height_chars: u32,
        /// Terminal width, in pixels.
        width_pixels: u32,
        /// Terminal height, in pixels.
        height_pixels: u32,
    },
    /// A request of type `xon-xoff`,
    /// as defined in [RFC4254 section 6.8](https://datatracker.ietf.org/doc/html/rfc4254#section-6.8).
    XonXoff {
        /// Whether the client can do flow control.
        client_can_do: arch::Bool,
    },
    /// A request of type `signal`,
    /// as defined in [RFC4254 section 6.9](https://datatracker.ietf.org/doc/html/rfc4254#section-6.9).
    Signal {
        /// Signal name, without the `SIG` prefix.
        name: arch::Bytes,
    },
    /// A request of type `exit-status`,
    /// as defined in [RFC4254 section 6.10](https://datatracker.ietf.org/doc/html/rfc4254#section-6.10).
    ExitStatus {
        /// Exit status of the command.
        code: u32,
    },
    /// A request of type `exit-signal`,
    /// as defined in [RFC4254 section 6.10](https://datatracker.ietf.org/doc/html/rfc4254#section-6.10).
    ExitSignal {
        /// Signal name, without the `SIG` prefix.
        name: arch::Bytes,
        /// Whether the core was dumped.
        core_dumped: arch::Bool,
        /// Error message.
        error_message: arch::StringUtf8,
        /// Language tag.
        language: arch::StringAscii,
    },
}

impl ChannelRequestContext {
    /// The SSH identifier of this variant.
    pub open spec fn spec_kind(&self) -> Seq<char> {
        match self {
            Self::Pty { .. } => "pty-req"@,
            Self::X11 { .. } => "x11-req"@,
            Self::Env { .. } => "env"@,
            Self::Shell => "shell"@,
            Self::Exec { .. } => "exec"@,
            Self::Subsystem { .. } => "subsystem"@,
            Self::WindowChange { .. } => "window-change"@,
            Self::XonXoff { .. } => "xon-xoff"@,
            Self::Signal { .. } => "signal"@,
            Self::ExitStatus { .. } => "exit-status"@,
            Self::ExitSignal { .. } => "exit-signal"@,
        }
    }

    /// The wire form of the identifier, as an ASCII `string`.
    pub open spec fn kind_wire(&self) -> Seq<u8> {
        lengthed(encode_utf8(self.spec_kind()))
    }

    /// The wire form of the fields of this variant.
    pub open spec fn wire(&self) -> Seq<u8> {
        match self {
            Self::Pty { term, width_chars, height_chars, width_pixels, height_pixels, modes } => term.wire() + be32(*width_chars) + be32(*height_chars) + be32(*width_pixels) + be32(*height_pixels) + modes.wire(),
            Self::X11 { single_connection, x11_authentication_protocol, x11_authentication_cookie, x11_screen_number } => single_connection.wire() + x11_authentication_protocol.wire() + x11_authentication_cookie.wire() + be32(*x11_screen_number),
            Self::Env { name, value } => name.wire() + value.wire(),
            Self::Shell => Seq::empty(),
            Self::Exec { command } => command.wire(),
            Self::Subsystem { name } => name.wire(),
            Self::WindowChange { width_chars, height_chars, width_pixels, height_pixels } => be32(*width_chars) + be32(*height_chars) + be32(*width_pixels) + be32(*height_pixels),
            Self::XonXoff { client_can_do } => client_can_do.wire(),
            Self::Signal { name } => name.wire(),
            Self::ExitStatus { code } => be32(*code),
            Self::ExitSignal { name, core_dumped, error_message, language } => name.wire() + core_dumped.wire() + error_message.wire() + language.wire(),
        }
    }

    /// Every field is small enough to have a wire form.
    pub open spec fn fits(&self) -> bool {
        match self {
            Self::Pty { term, width_chars, height_chars, width_pixels, height_pixels, modes } => term.fits() && modes.fits(),
            Self::X11 { single_connection, x11_authentication_protocol, x11_authentication_cookie, x11_screen_number } => x11_authentication_protocol.fits() && x11_authentication_cookie.fits(),
            Self::Env { name, value } => name.fits() && value.fits(),
            Self::Shell => true,
            Self::Exec { command } => command.fits(),
            Self::Subsystem { name } => name.fits(),
            Self::WindowChange { width_chars, height_chars, width_pixels, height_pixels } => true,
            Self::XonXoff { client_can_do } => true,
            Self::Signal { name } => name.fits(),
            Self::ExitStatus { code } => true,
            Self::ExitSignal { name, core_dumped, error_message, language } => name.fits() && error_message.fits() && language.fits(),
        }
    }

    /// Get the [`ChannelRequestContext`]'s SSH identifier.
    pub fn as_str(&self) -> (r: &'static str)
        ensures
            r@ == self.spec_kind(),
    {
        match self {
            Self::Pty { .. } => "pty-req",
            Self::X11 { .. } => "x11-req",
            Self::Env { .. } => "env",
            Self::Shell => "shell",
            Self::Exec { .. } => "exec",
            Self::Subsystem { .. } => "subsystem",
            Self::WindowChange { .. } => "window-change",
            Self::XonXoff { .. } => "xon-xoff",
            Self::Signal { .. } => "signal",
            Self::ExitStatus { .. } => "exit-status",
            Self::ExitSignal { .. } => "exit-signal",
        }
    }

    /// Append the wire form of the identifier to `out`.
    pub fn encode_kind(&self, out: &mut Vec<u8>)
        ensures
            final(out)@ == old(out)@ + self.kind_wire(),
    {
        let kind = self.as_str().as_bytes();
        proof {
            reveal_strlit("pty-req");
            reveal_strlit("x11-req");
            reveal_strlit("env");
            reveal_strlit("shell");
            reveal_strlit("exec");
            reveal_strlit("subsystem");
            reveal_strlit("window-change");
            reveal_strlit("xon-xoff");
            reveal_strlit("signal");
            reveal_strlit("exit-status");
            reveal_strlit("exit-signal");
        }
        put_u32(out, kind.len() as u32);
        put_all(out, kind);
        assert(final(out)@ =~= old(out)@ + self.kind_wire());
    }

    /// Append the wire form of the fields to `out`.
    pub fn encode(&self, out: &mut Vec<u8>)
        requires
            self.fits(),
        ensures
            final(out)@ == old(out)@ + self.wire(),
    {
        match self {
            Self::Pty { term, width_chars, height_chars, width_pixels, height_pixels, modes } => {
                term.encode(out);
                put_u32(out, *width_chars);
                put_u32(out, *height_chars);
                put_u32(out, *width_pixels);
                put_u32(out, *height_pixels);
                modes.encode(out);
            },
            Self::X11 { single_connection, x11_authentication_protocol, x11_authentication_cookie, x11_screen_number } => {
                single_connection.encode(out);
                x11_authentication_protocol.encode(out);
                x11_authentication_cookie.encode(out);
                put_u32(out, *x11_screen_number);
            },
            Self::Env { name, value } => {
                name.encode(out);
                value.encode(out);
            },
            Self::Shell => {},
            Self::Exec { command } => {
                command.encode(out);
            },
            Self::Subsystem { name } => {
                name.encode(out);
            },
            Self::WindowChange { width_chars, height_chars, width_pixels, height_pixels } => {
                put_u32(out, *width_chars);
                put_u32(out, *height_chars);
                put_u32(out, *width_pixels);
                put_u32(out, *height_pixels);
            },
            Self::XonXoff { client_can_do } => {
                client_can_do.encode(out);
            },
            Self::Signal { name } => {
                name.encode(out);
            },
            Self::ExitStatus { code } => {
                put_u32(out, *code);
            },
            Self::ExitSignal { name, core_dumped, error_message, language } => {
                name.encode(out);
                core_dumped.encode(out);
                error_message.encode(out);
                language.encode(out);
            },
        }
        assert(final(out)@ =~= old(out)@ + self.wire());
    }
}

/// The `SSH_MSG_CHANNEL_SUCCESS` message.
///
/// see <https://datatracker.ietf.org/doc/html/rfc4254#section-5.4>.
#[derive(Debug)]
pub struct ChannelSuccess {
    /// Recipient channel.
    pub recipient_channel: u32,
}

impl ChannelSuccess {
    /// The wire form of this message.
    pub open spec fn wire(&self) -> Seq<u8> {
        seq![99u8] + be32(self.recipient_channel)
    }

    /// Every field is small enough to have a wire form.
    pub open spec fn fits(&self) -> bool {
        true
    }

    /// Append the wire form of this message to `out`.
    pub fn encode(&self, out: &mut Vec<u8>)
        requires
            self.fits(),
        ensures
            final(out)@ == old(out)@ + self.wire(),
    {
        out.push(99);
        put_u32(out, self.recipient_channel);
        assert(final(out)@ =~= old(out)@ + self.wire());
    }
}

/// The `SSH_MSG_CHANNEL_FAILURE` message.
///
/// see <https://datatracker.ietf.org/doc/html/rfc4254#section-5.4>.
#[derive(Debug)]
pub struct ChannelFailure {
    /// Recipient channel.
    pub recipient_channel: u32,
}

impl ChannelFailure {
    /// The wire form of this message.
    pub open spec fn wire(&self) -> Seq<u8> {
        seq![100u8] + be32(self.recipient_channel)
    }

    /// Every field is small enough to have a wire form.
    pub open spec fn fits(&self) -> bool {
        true
    }

    /// Append the wire form of this message to `out`.
    pub fn encode(&self, out: &mut Vec<u8>)
        requires
            self.fits(),
        ensures
            final(out)@ == old(out)@ + self.wire(),
    {
        out.push(100);
        put_u32(out, self.recipient_channel);
        assert(final(out)@ =~= old(out)@ + self.wire());
    }
}

} // verus!
