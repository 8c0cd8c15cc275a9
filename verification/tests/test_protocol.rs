//! Tests of the wire protocol itself: the envelope codec, the discriminant
//! mapping, forward-compatibility behaviour, and the capability checks.

use ws_com_framework::error::ErrorKind;
use ws_com_framework::{Envelope, InitiatorMessage, Message, ResponderMessage, Role};

#[test]
fn envelope_round_trip() {
    let env = Envelope {
        discriminant: 5,
        payload: vec![8, 42],
    };
    let bytes = env.encode();
    let env2 = Envelope::decode(&bytes).unwrap();
    assert_eq!(env, env2);
}

#[test]
fn envelope_defaults_round_trip() {
    let env = Envelope {
        discriminant: 0,
        payload: vec![],
    };
    let bytes = env.encode();
    assert!(bytes.is_empty());
    let env2 = Envelope::decode(&bytes).unwrap();
    assert_eq!(env, env2);
}

/// Every known discriminant with an empty payload decodes to the default
/// message of its own kind, and no two collide.
#[test]
fn discriminant_bijection_defaults() {
    let expected: Vec<Message> = vec![
        Message::Ack,
        Message::Error {
            kind: ErrorKind::Unknown,
            reason: None,
        },
        Message::UploadTo {
            file_id: 0,
            upload_url: String::new(),
        },
        Message::MetadataReq {
            file_id: 0,
            upload_id: 0,
        },
        Message::MetadataRes {
            file_id: 0,
            exp: 0,
            crt: 0,
            file_size: 0,
            username: String::new(),
            file_name: String::new(),
            upload_id: 0,
        },
        Message::AuthReq { public_id: 0 },
        Message::AuthRes {
            public_id: 0,
            passcode: vec![],
        },
        Message::StatusReq { public_id: 0 },
        Message::StatusRes {
            public_id: 0,
            ready: false,
            uptime: 0,
            message: None,
        },
    ];
    for (d, want) in expected.iter().enumerate() {
        let env = Envelope {
            discriminant: d as i32,
            payload: vec![],
        };
        let got = Message::from_bytes(&env.encode()).unwrap();
        assert_eq!(&got, want);
        for (d2, other) in expected.iter().enumerate() {
            if d != d2 {
                assert_ne!(&got, other);
            }
        }
    }
}

#[test]
fn unknown_discriminant_is_rejected() {
    let env = Envelope {
        discriminant: 9,
        payload: vec![],
    };
    let err = Message::from_bytes(&env.encode()).unwrap_err();
    assert!(err.describe().contains("unrecognised i32 variant"));

    let env = Envelope {
        discriminant: -3,
        payload: vec![1, 2, 3],
    };
    let err = Message::from_bytes(&env.encode()).unwrap_err();
    assert!(err.describe().contains("unrecognised i32 variant"));
}

/// An error payload whose kind code lies outside the known set decodes to
/// `ErrorKind::Unknown`, not to a decode failure.
#[test]
fn unknown_error_kind_degrades_to_unknown() {
    // Field one as a varint holding the unassigned kind code seven.
    let env = Envelope {
        discriminant: 1,
        payload: vec![8, 7],
    };
    let msg = Message::from_bytes(&env.encode()).unwrap();
    assert_eq!(
        msg,
        Message::Error {
            kind: ErrorKind::Unknown,
            reason: None,
        }
    );
    assert_eq!(ErrorKind::from(7), ErrorKind::Unknown);
    assert_eq!(ErrorKind::from(-1), ErrorKind::Unknown);
    assert_eq!(ErrorKind::from(2), ErrorKind::FileDoesntExist);
}

#[test]
fn truncated_input_is_rejected() {
    // A length-delimited field announcing more bytes than follow.
    assert!(Message::from_bytes(&[18, 7, 1, 2]).is_err());
    // A tag with no value behind it.
    assert!(Message::from_bytes(&[8]).is_err());
    // An endless varint.
    assert!(Message::from_bytes(&[0x80, 0x80, 0x80]).is_err());
}

#[test]
fn garbage_input_is_rejected() {
    assert!(Message::from_bytes(&[0xff; 32]).is_err());
    assert!(Message::from_bytes(&[7, 7, 7]).is_err());
}

#[test]
fn invalid_utf8_in_string_field_is_rejected() {
    // An upload-to payload whose url field holds bytes that are not UTF-8.
    let env = Envelope {
        discriminant: 2,
        payload: vec![18, 2, 0xff, 0xfe],
    };
    let err = Message::from_bytes(&env.encode()).unwrap_err();
    assert!(err.describe().contains("failed to decode bytes as valid message"));
}

#[test]
fn non_ascii_strings_round_trip() {
    let msg = Message::UploadTo {
        file_id: 7,
        upload_url: String::from("https://ü.example/展示→🙂"),
    };
    let bytes = msg.clone().into_bytes().unwrap();
    let msg2 = Message::from_bytes(&bytes).unwrap();
    assert_eq!(msg, msg2);
}

/// Decoding accepts fields in any order within a payload.
#[test]
fn field_order_does_not_matter() {
    // An upload-to payload with the url field before the file id field.
    let payload = vec![18, 3, b'a', b'b', b'c', 8, 123];
    let env = Envelope {
        discriminant: 2,
        payload,
    };
    let msg = Message::from_bytes(&env.encode()).unwrap();
    assert_eq!(
        msg,
        Message::UploadTo {
            file_id: 123,
            upload_url: String::from("abc"),
        }
    );
}

/// When a field number repeats, the last occurrence wins.
#[test]
fn repeated_field_last_occurrence_wins() {
    let env = Envelope {
        discriminant: 5,
        payload: vec![8, 1, 8, 2],
    };
    let msg = Message::from_bytes(&env.encode()).unwrap();
    assert_eq!(msg, Message::AuthReq { public_id: 2 });
}

/// Decoders skip fields they do not know, whatever their wire kind.
#[test]
fn unknown_fields_are_skipped() {
    // An auth-req payload carrying unknown fields thirty (varint),
    // thirty-one (fixed32) and thirty-two (delimited) around field one.
    let mut payload = vec![0xf0, 1, 99];
    payload.extend_from_slice(&[0xfd, 1, 1, 2, 3, 4]);
    payload.extend_from_slice(&[8, 5]);
    payload.extend_from_slice(&[0x82, 2, 2, 7, 7]);
    let env = Envelope {
        discriminant: 5,
        payload,
    };
    let msg = Message::from_bytes(&env.encode()).unwrap();
    assert_eq!(msg, Message::AuthReq { public_id: 5 });
}

/// A non-minimal varint still decodes to its value.
#[test]
fn non_minimal_varint_is_accepted() {
    // Field one of the envelope encoded as a two-byte varint holding five.
    let msg = Message::from_bytes(&[8, 0x85, 0x00]).unwrap();
    assert_eq!(msg, Message::AuthReq { public_id: 0 });
}

/// An absent optional string decodes to `None`, never to an empty string.
#[test]
fn status_res_absent_message_stays_none() {
    let msg = Message::StatusRes {
        public_id: 42,
        ready: true,
        uptime: 123,
        message: None,
    };
    let bytes = msg.clone().into_bytes().unwrap();
    let msg2 = Message::from_bytes(&bytes).unwrap();
    assert_eq!(msg, msg2);
    match msg2 {
        Message::StatusRes { message, .. } => assert_eq!(message, None),
        _ => panic!("wrong variant"),
    }
}

/// A present-but-empty optional string stays `Some`, distinguishable from
/// an absent one.
#[test]
fn status_res_empty_message_stays_some() {
    let msg = Message::StatusRes {
        public_id: 42,
        ready: false,
        uptime: 0,
        message: Some(String::new()),
    };
    let bytes = msg.clone().into_bytes().unwrap();
    let msg2 = Message::from_bytes(&bytes).unwrap();
    assert_eq!(msg, msg2);
}

#[test]
fn extreme_values_round_trip() {
    let msg = Message::MetadataRes {
        file_id: u32::MAX,
        exp: u64::MAX,
        crt: 1,
        file_size: u64::MAX - 1,
        username: String::new(),
        file_name: String::from("x"),
        upload_id: u64::MAX,
    };
    let bytes = msg.clone().into_bytes().unwrap();
    let msg2 = Message::from_bytes(&bytes).unwrap();
    assert_eq!(msg, msg2);
}

#[test]
fn empty_passcode_round_trips() {
    let msg = Message::AuthRes {
        public_id: 9,
        passcode: vec![],
    };
    let bytes = msg.clone().into_bytes().unwrap();
    let msg2 = Message::from_bytes(&bytes).unwrap();
    assert_eq!(msg, msg2);
}

#[test]
fn error_reason_none_round_trips() {
    let msg = Message::Error {
        kind: ErrorKind::InvalidSession,
        reason: None,
    };
    let bytes = msg.clone().into_bytes().unwrap();
    let msg2 = Message::from_bytes(&bytes).unwrap();
    assert_eq!(msg, msg2);
}

/// The run-time capability check keeps each role inside its allowed set.
#[test]
fn capability_checks_restrict_roles() {
    let metadata_res = Message::MetadataRes {
        file_id: 1,
        exp: 2,
        crt: 1,
        file_size: 3,
        username: String::from("u"),
        file_name: String::from("f"),
        upload_id: 4,
    };
    let auth_res = Message::AuthRes {
        public_id: 1,
        passcode: vec![1, 2],
    };
    let upload_to = Message::UploadTo {
        file_id: 1,
        upload_url: String::from("https://example.com"),
    };
    let auth_req = Message::AuthReq { public_id: 1 };

    assert!(!Role::Initiator.may_send(&metadata_res));
    assert!(!Role::Initiator.may_send(&auth_res));
    assert!(Role::Initiator.may_send(&upload_to));
    assert!(Role::Initiator.may_send(&auth_req));
    assert!(Role::Initiator.may_send(&Message::Ack));

    assert!(!Role::Responder.may_send(&upload_to));
    assert!(!Role::Responder.may_send(&auth_req));
    assert!(Role::Responder.may_send(&metadata_res));
    assert!(Role::Responder.may_send(&auth_res));
    assert!(Role::Responder.may_send(&Message::Ack));

    // What one role may receive is exactly what the other may send.
    assert!(Role::Initiator.may_receive(&metadata_res));
    assert!(!Role::Initiator.may_receive(&upload_to));
    assert!(Role::Responder.may_receive(&upload_to));
    assert!(!Role::Responder.may_receive(&metadata_res));
}

/// The sealed role types convert one-way into the full message type and
/// always land inside their role's allowed set.
#[test]
fn sealed_role_messages_convert() {
    let m = InitiatorMessage::MetadataReq {
        file_id: 4,
        upload_id: 9,
    }
    .into_message();
    assert_eq!(
        m,
        Message::MetadataReq {
            file_id: 4,
            upload_id: 9,
        }
    );
    assert!(Role::Initiator.may_send(&m));

    let m = ResponderMessage::AuthRes {
        public_id: 3,
        passcode: vec![7],
    }
    .into_message();
    assert_eq!(
        m,
        Message::AuthRes {
            public_id: 3,
            passcode: vec![7],
        }
    );
    assert!(Role::Responder.may_send(&m));
}

/// The fixed wire form of a concrete message, checked byte for byte.
#[test]
fn known_wire_form() {
    let msg = Message::AuthReq { public_id: 300 };
    let bytes = msg.into_bytes().unwrap();
    // Envelope: field one holds discriminant five; field two holds the
    // payload, itself field one holding the varint three hundred.
    assert_eq!(bytes, vec![8, 5, 18, 3, 8, 0xac, 0x02]);
}
