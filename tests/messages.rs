use ssh_packet::arch::{Bool, Bytes, NameList, StringAscii, StringUtf8};
use ssh_packet::connect::{
    ChannelData, ChannelExtendedDataType, ChannelOpen, ChannelOpenContext, ChannelOpenFailure,
    ChannelOpenFailureReason, ChannelRequest, ChannelRequestContext, GlobalRequest,
    GlobalRequestContext,
};
use ssh_packet::kex::EcdhExchange;
use ssh_packet::transport::{Disconnect, DisconnectReason, KexInit, NewKeys};
use ssh_packet::userauth::{
    UserauthInfoRequest, UserauthInfoRequestPrompt, UserauthInfoResponse, UserauthMethod,
    UserauthRequest,
};
use ssh_packet::{Error, Id};

fn ascii(s: &str) -> StringAscii {
    StringAscii::borrowed(s).unwrap()
}

#[test]
fn disconnect_encoding() {
    let msg = Disconnect {
        reason: DisconnectReason::ByApplication,
        description: StringUtf8::borrowed("bye"),
        language: ascii(""),
    };
    let mut out = Vec::new();
    msg.encode(&mut out);
    assert_eq!(out, vec![1, 0, 0, 0, 11, 0, 0, 0, 3, b'b', b'y', b'e', 0, 0, 0, 0]);
}

#[test]
fn disconnect_reason_codes() {
    assert_eq!(DisconnectReason::HostNotAllowedToConnect.code(), 1);
    assert_eq!(DisconnectReason::IllegalUserName.code(), 15);
    assert_eq!(DisconnectReason::from_code(5), DisconnectReason::MacError);
    assert_eq!(DisconnectReason::from_code(0xFE000001), DisconnectReason::Other(0xFE000001));
    assert_eq!(ChannelOpenFailureReason::from_code(4), ChannelOpenFailureReason::ResourceShortage);
    assert_eq!(ChannelExtendedDataType::Stderr.code(), 1);
}

#[test]
fn newkeys_is_one_byte() {
    let mut out = Vec::new();
    NewKeys.encode(&mut out);
    assert_eq!(out, vec![21]);
}

#[test]
fn kexinit_layout() {
    let names = |s: &[&str]| NameList::new(s);
    let msg = KexInit {
        cookie: [7u8; 16],
        kex_algorithms: names(&["curve25519-sha256"]),
        server_host_key_algorithms: names(&["ssh-ed25519"]),
        encryption_algorithms_client_to_server: names(&["aes128-ctr"]),
        encryption_algorithms_server_to_client: names(&["aes128-ctr"]),
        mac_algorithms_client_to_server: names(&["hmac-sha2-256"]),
        mac_algorithms_server_to_client: names(&["hmac-sha2-256"]),
        compression_algorithms_client_to_server: names(&["none"]),
        compression_algorithms_server_to_client: names(&["none"]),
        languages_client_to_server: names(&[]),
        languages_server_to_client: names(&[]),
        first_kex_packet_follows: Bool(false),
    };
    let mut out = Vec::new();
    msg.encode(&mut out);
    assert_eq!(out[0], 20);
    assert_eq!(&out[1..17], &[7u8; 16]);
    assert_eq!(&out[17..21], &[0, 0, 0, 17]);
    assert_eq!(&out[21..38], b"curve25519-sha256");
    let expected_len = 1 + 16 + (4 + 17) + (4 + 11) + 2 * (4 + 10) + 2 * (4 + 13) + 2 * (4 + 4) + 2 * 4 + 1 + 4;
    assert_eq!(out.len(), expected_len);
    assert_eq!(&out[out.len() - 5..], &[0, 0, 0, 0, 0]);
}

#[test]
fn global_request_carries_its_kind() {
    let msg = GlobalRequest {
        want_reply: Bool(true),
        context: GlobalRequestContext::TcpipForward { bind_address: ascii("0.0.0.0"), bind_port: 22 },
    };
    assert_eq!(msg.context.as_str(), "tcpip-forward");
    let mut out = Vec::new();
    msg.encode(&mut out);
    let mut expected = vec![80, 0, 0, 0, 13];
    expected.extend_from_slice(b"tcpip-forward");
    expected.push(1);
    expected.extend_from_slice(&[0, 0, 0, 7]);
    expected.extend_from_slice(b"0.0.0.0");
    expected.extend_from_slice(&[0, 0, 0, 22]);
    assert_eq!(out, expected);
}

#[test]
fn channel_open_session() {
    let msg = ChannelOpen {
        sender_channel: 1,
        initial_window_size: 0x200000,
        maximum_packet_size: 0x8000,
        context: ChannelOpenContext::Session,
    };
    let mut out = Vec::new();
    msg.encode(&mut out);
    let mut expected = vec![90, 0, 0, 0, 7];
    expected.extend_from_slice(b"session");
    expected.extend_from_slice(&[0, 0, 0, 1, 0, 0x20, 0, 0, 0, 0, 0x80, 0]);
    assert_eq!(out, expected);
}

#[test]
fn channel_open_failure_layout() {
    let msg = ChannelOpenFailure {
        recipient_channel: 3,
        reason: ChannelOpenFailureReason::ConnectFailed,
        description: StringUtf8::borrowed(""),
        language: ascii("en"),
    };
    let mut out = Vec::new();
    msg.encode(&mut out);
    assert_eq!(out, vec![92, 0, 0, 0, 3, 0, 0, 0, 2, 0, 0, 0, 0, 0, 0, 0, 2, b'e', b'n']);
}

#[test]
fn channel_request_kinds() {
    let exec = ChannelRequestContext::Exec { command: Bytes::new(b"ls".to_vec()) };
    assert_eq!(exec.as_str(), "exec");
    assert_eq!(ChannelRequestContext::Shell.as_str(), "shell");
    let msg = ChannelRequest { recipient_channel: 0, want_reply: Bool(false), context: ChannelRequestContext::ExitStatus { code: 2 } };
    let mut out = Vec::new();
    msg.encode(&mut out);
    let mut expected = vec![98, 0, 0, 0, 0, 0, 0, 0, 11];
    expected.extend_from_slice(b"exit-status");
    expected.push(0);
    expected.extend_from_slice(&[0, 0, 0, 2]);
    assert_eq!(out, expected);
}

#[test]
fn channel_data_layout() {
    let msg = ChannelData { recipient_channel: 258, data: Bytes::new(vec![9, 8]) };
    let mut out = Vec::new();
    msg.encode(&mut out);
    assert_eq!(out, vec![94, 0, 0, 1, 2, 0, 0, 0, 2, 9, 8]);
}

#[test]
fn userauth_password_request() {
    let msg = UserauthRequest {
        username: StringUtf8::borrowed("u"),
        service_name: ascii("ssh-connection"),
        method: UserauthMethod::Password { password: StringUtf8::borrowed("pw"), new: None },
    };
    assert_eq!(msg.method.as_str(), "password");
    let mut out = Vec::new();
    msg.encode(&mut out);
    let mut expected = vec![50, 0, 0, 0, 1, b'u', 0, 0, 0, 14];
    expected.extend_from_slice(b"ssh-connection");
    expected.extend_from_slice(&[0, 0, 0, 8]);
    expected.extend_from_slice(b"password");
    expected.push(0);
    expected.extend_from_slice(&[0, 0, 0, 2, b'p', b'w']);
    assert_eq!(out, expected);
}

#[test]
fn userauth_publickey_flag_follows_signature() {
    let method = UserauthMethod::Publickey {
        algorithm: Bytes::new(b"a".to_vec()),
        blob: Bytes::new(b"b".to_vec()),
        signature: Some(Bytes::new(b"s".to_vec())),
    };
    let mut out = Vec::new();
    method.encode(&mut out);
    assert_eq!(out, vec![1, 0, 0, 0, 1, b'a', 0, 0, 0, 1, b'b', 0, 0, 0, 1, b's']);
    assert_eq!(UserauthMethod::NoneMethod.as_str(), "none");
}

#[test]
fn userauth_info_messages_count_their_items() {
    let req = UserauthInfoRequest {
        name: StringUtf8::borrowed(""),
        instruction: StringUtf8::borrowed(""),
        language: ascii(""),
        prompts: vec![UserauthInfoRequestPrompt { prompt: StringUtf8::borrowed("?"), echo: Bool(true) }],
    };
    let mut out = Vec::new();
    req.encode(&mut out);
    assert_eq!(out, vec![60, 0, 0, 0, 0, 0, 0, 0, 0, 0, 0, 0, 0, 0, 0, 0, 1, 0, 0, 0, 1, b'?', 1]);
    let resp = UserauthInfoResponse { responses: vec![StringUtf8::borrowed("x"), StringUtf8::borrowed("")] };
    let mut out = Vec::new();
    resp.encode(&mut out);
    assert_eq!(out, vec![61, 0, 0, 0, 2, 0, 0, 0, 1, b'x', 0, 0, 0, 0]);
}

#[test]
fn ecdh_exchange_concatenates_fields() {
    let b = |v: &[u8]| Bytes::new(v.to_vec());
    let exchange = EcdhExchange {
        v_c: b(b"c"),
        v_s: b(b"s"),
        i_c: b(&[]),
        i_s: b(&[]),
        k_s: b(&[]),
        q_c: b(&[]),
        q_s: b(&[]),
        k: ssh_packet::arch::MpInt::new(vec![0x80]),
    };
    let mut out = Vec::new();
    exchange.encode(&mut out);
    let mut expected = vec![0, 0, 0, 1, b'c', 0, 0, 0, 1, b's'];
    expected.extend_from_slice(&[0u8; 20]);
    expected.extend_from_slice(&[0, 0, 0, 2, 0, 0x80]);
    assert_eq!(out, expected);
}

#[test]
fn it_parses_valid() {
    for text in [
        "SSH-2.0-billsSSH_3.6.3q3",
        "SSH-1.99-billsSSH_3.6.3q3",
        "SSH-2.0-billsSSH_3.6.3q3 with-comment",
        "SSH-2.0-billsSSH_3.6.3q3 utf∞-comment",
        "SSH-2.0-billsSSH_3.6.3q3 ",
    ] {
        assert!(Id::from_str(text).is_ok(), "{}", text);
    }
    let id = Id::from_str("SSH-2.0-bills-SSH with comment").unwrap();
    assert_eq!(id.protoversion, "2.0");
    assert_eq!(id.softwareversion, "bills-SSH");
    assert_eq!(id.comments, Some("with comment".to_string()));
}

#[test]
fn it_rejects_invalid() {
    for text in ["", "FOO-2.0-billsSSH_3.6.3q3", "-2.0-billsSSH_3.6.3q3", "SSH--billsSSH_3.6.3q3", "SSH-2.0-"] {
        match Id::from_str(text) {
            Err(Error::BadIdentifer(s)) => assert_eq!(s, text),
            _ => panic!("{} was accepted", text),
        }
    }
}

#[test]
fn it_reparses_consistently() {
    for id in [
        Id::v2("billsSSH_3.6.3q3", None),
        Id::v2("billsSSH_utf∞", None),
        Id::v2("billsSSH_3.6.3q3", Some("with-comment")),
        Id::v2("billsSSH_3.6.3q3", Some("utf∞-comment")),
        Id::v2("billsSSH_3.6.3q3", Some("")),
    ] {
        let text = id.to_string();
        let again = Id::from_str(&text).unwrap();
        assert_eq!(again.protoversion, id.protoversion);
        assert_eq!(again.softwareversion, id.softwareversion);
        assert_eq!(again.comments, id.comments);
    }
    assert_eq!(Id::v2("x", Some("y")).to_string(), "SSH-2.0-x y");
}
