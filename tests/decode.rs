use pgwire::backend::{BackendMessage, DecodeError};
use pgwire::decode::{body_len, decode_body, read_fields, read_message, read_value};
use pgwire::frontend::{write_message, FrontendMessage};

fn frame(tag: u8, payload: &[u8]) -> Vec<u8> {
    let mut v = vec![tag];
    v.extend_from_slice(&((payload.len() + 4) as u32).to_be_bytes());
    v.extend_from_slice(payload);
    v
}

#[test]
fn error_response_single_field() {
    let payload = b"SERROR\0\0";
    match decode_body(b'E', payload).unwrap() {
        BackendMessage::ErrorResponse { fields } => {
            assert_eq!(fields, vec![(b'S', "ERROR".to_string())]);
        }
        m => panic!("unexpected {:?}", m),
    }
}

#[test]
fn error_response_empty_field_list() {
    match decode_body(b'E', &[0]).unwrap() {
        BackendMessage::ErrorResponse { fields } => assert!(fields.is_empty()),
        m => panic!("unexpected {:?}", m),
    }
}

#[test]
fn notice_response_keeps_field_order() {
    let payload = b"SWARNING\0Mhello\0Cxyz\0\0";
    match decode_body(b'N', payload).unwrap() {
        BackendMessage::NoticeResponse { fields } => {
            assert_eq!(
                fields,
                vec![(b'S', "WARNING".to_string()), (b'M', "hello".to_string()), (b'C', "xyz".to_string())]
            );
        }
        m => panic!("unexpected {:?}", m),
    }
}

#[test]
fn read_fields_reports_position_after_terminator() {
    let bytes = b"xxSa\0\0yy";
    let (fields, p) = read_fields(bytes, 2).unwrap();
    assert_eq!(fields, vec![(b'S', "a".to_string())]);
    assert_eq!(p, 6);
    assert!(read_fields(b"Sa\0", 0).is_none());
}

#[test]
fn row_description_and_data_row_pair_up() {
    let mut desc = vec![0, 2];
    for name in ["a", "b"] {
        desc.extend_from_slice(name.as_bytes());
        desc.push(0);
        desc.extend_from_slice(&[0, 0, 0x40, 0x00]); // table oid 16384
        desc.extend_from_slice(&[0, 1]); // column position
        desc.extend_from_slice(&[0, 0, 0, 25]); // type oid
        desc.extend_from_slice(&[0xff, 0xff]); // type size -1
        desc.extend_from_slice(&[0xff, 0xff, 0xff, 0xff]); // type modifier -1
        desc.extend_from_slice(&[0, 0]); // text format
    }
    let cols = match decode_body(b'T', &desc).unwrap() {
        BackendMessage::RowDescription { descriptions } => descriptions,
        m => panic!("unexpected {:?}", m),
    };
    assert_eq!(cols.len(), 2);
    assert_eq!(cols[0].name, "a");
    assert_eq!(cols[1].name, "b");
    assert_eq!(cols[0].table_oid, 16384);
    assert_eq!(cols[0].column_id, 1);
    assert_eq!(cols[0].type_oid, 25);
    assert_eq!(cols[0].type_size, -1);
    assert_eq!(cols[0].type_modifier, -1);
    assert_eq!(cols[0].format, 0);

    let row = [0, 2, 0, 0, 0, 2, b'a', b'b', 0xff, 0xff, 0xff, 0xff];
    match decode_body(b'D', &row).unwrap() {
        BackendMessage::DataRow { row } => {
            assert_eq!(row.len(), cols.len());
            assert_eq!(row, vec![Some(b"ab".to_vec()), None]);
        }
        m => panic!("unexpected {:?}", m),
    }
}

#[test]
fn value_lengths() {
    assert_eq!(read_value(&[0xff, 0xff, 0xff, 0xff], 0), Some((None, 4)));
    assert_eq!(read_value(&[0, 0, 0, 0], 0), Some((Some(vec![]), 4)));
    assert_eq!(read_value(&[0, 0, 0, 3, 7, 8, 9, 10], 0), Some((Some(vec![7, 8, 9]), 7)));
    assert_eq!(read_value(&[0, 0, 0, 3, 7, 8], 0), None);
    assert_eq!(read_value(&[0xff, 0xff, 0xff, 0xfe], 0), None);
}

#[test]
fn simple_markers() {
    assert!(matches!(decode_body(b'1', &[]), Ok(BackendMessage::ParseComplete)));
    assert!(matches!(decode_body(b'2', &[]), Ok(BackendMessage::BindComplete)));
    assert!(matches!(decode_body(b'3', &[]), Ok(BackendMessage::CloseComplete)));
    assert!(matches!(decode_body(b'I', &[]), Ok(BackendMessage::EmptyQueryResponse)));
    assert!(matches!(decode_body(b'n', &[]), Ok(BackendMessage::NoData)));
    assert!(matches!(decode_body(b's', &[]), Ok(BackendMessage::PortalSuspended)));
}

#[test]
fn fixed_shape_messages() {
    match decode_body(b'K', &[0, 0, 1, 0, 0xde, 0xad, 0xbe, 0xef]).unwrap() {
        BackendMessage::BackendKeyData { process_id, secret_key } => {
            assert_eq!(process_id, 256);
            assert_eq!(secret_key, 0xdeadbeef);
        }
        m => panic!("unexpected {:?}", m),
    }
    match decode_body(b'Z', b"I").unwrap() {
        BackendMessage::ReadyForQuery { _state } => assert_eq!(_state, b'I'),
        m => panic!("unexpected {:?}", m),
    }
    match decode_body(b'S', b"client_encoding\0UTF8\0").unwrap() {
        BackendMessage::ParameterStatus { parameter, value } => {
            assert_eq!(parameter, "client_encoding");
            assert_eq!(value, "UTF8");
        }
        m => panic!("unexpected {:?}", m),
    }
    match decode_body(b'C', b"SELECT 1\0").unwrap() {
        BackendMessage::CommandComplete { tag } => assert_eq!(tag, "SELECT 1"),
        m => panic!("unexpected {:?}", m),
    }
}

#[test]
fn notification_and_descriptions() {
    match decode_body(b'A', b"\0\0\0\x2ach\0hi\0").unwrap() {
        BackendMessage::NotificationResponse { pid, channel, payload } => {
            assert_eq!(pid, 42);
            assert_eq!(channel, "ch");
            assert_eq!(payload, "hi");
        }
        m => panic!("unexpected {:?}", m),
    }
    match decode_body(b't', &[0, 2, 0, 0, 0, 23, 0, 0, 0, 25]).unwrap() {
        BackendMessage::ParameterDescription { types } => assert_eq!(types, vec![23, 25]),
        m => panic!("unexpected {:?}", m),
    }
    match decode_body(b'G', &[1, 0, 2, 0, 1, 0, 0]).unwrap() {
        BackendMessage::CopyInResponse { format, column_formats } => {
            assert_eq!(format, 1);
            assert_eq!(column_formats, vec![1, 0]);
        }
        m => panic!("unexpected {:?}", m),
    }
}

#[test]
fn authentication_sub_codes() {
    assert!(matches!(decode_body(b'R', &[0, 0, 0, 0]), Ok(BackendMessage::AuthenticationOk)));
    assert!(matches!(decode_body(b'R', &[0, 0, 0, 2]), Ok(BackendMessage::AuthenticationKerberosV5)));
    assert!(matches!(decode_body(b'R', &[0, 0, 0, 3]), Ok(BackendMessage::AuthenticationCleartextPassword)));
    assert!(matches!(decode_body(b'R', &[0, 0, 0, 6]), Ok(BackendMessage::AuthenticationSCMCredential)));
    assert!(matches!(decode_body(b'R', &[0, 0, 0, 7]), Ok(BackendMessage::AuthenticationGSS)));
    assert!(matches!(decode_body(b'R', &[0, 0, 0, 9]), Ok(BackendMessage::AuthenticationSSPI)));
    match decode_body(b'R', &[0, 0, 0, 5, 1, 2, 3, 4]).unwrap() {
        BackendMessage::AuthenticationMD5Password { salt } => assert_eq!(salt, [1, 2, 3, 4]),
        m => panic!("unexpected {:?}", m),
    }
    assert_eq!(decode_body(b'R', &[0, 0, 0, 10]).unwrap_err(), DecodeError::UnknownAuthentication);
    assert_eq!(decode_body(b'R', &[0, 0, 0, 5, 1, 2]).unwrap_err(), DecodeError::Malformed);
}

#[test]
fn decode_errors() {
    assert_eq!(decode_body(b'?', &[]).unwrap_err(), DecodeError::UnexpectedTag);
    assert_eq!(decode_body(b'1', &[0]).unwrap_err(), DecodeError::TrailingBytes);
    assert_eq!(decode_body(b'K', &[0, 0, 0, 1, 0, 0, 0, 2, 9]).unwrap_err(), DecodeError::TrailingBytes);
    assert_eq!(decode_body(b'K', &[0, 0, 0, 1, 0, 0, 0]).unwrap_err(), DecodeError::Malformed);
    assert_eq!(decode_body(b'C', b"no terminator").unwrap_err(), DecodeError::Malformed);
    assert_eq!(decode_body(b'C', &[0xff, 0xfe, 0]).unwrap_err(), DecodeError::Malformed);
    assert_eq!(decode_body(b'E', b"SERROR\0").unwrap_err(), DecodeError::Malformed);
}

#[test]
fn extra_or_missing_byte_is_rejected() {
    let good = b"SERROR\0\0".to_vec();
    assert!(decode_body(b'E', &good).is_ok());
    let mut extra = good.clone();
    extra.push(b'x');
    assert_eq!(decode_body(b'E', &extra).unwrap_err(), DecodeError::TrailingBytes);
    let missing = &good[..good.len() - 1];
    assert!(decode_body(b'E', missing).is_err());
}

#[test]
fn utf8_strings_decode() {
    match decode_body(b'C', &[0xc3, 0xa9, 0]).unwrap() {
        BackendMessage::CommandComplete { tag } => assert_eq!(tag, "é"),
        m => panic!("unexpected {:?}", m),
    }
}

#[test]
fn whole_frames() {
    let mut buf = frame(b'Z', b"T");
    buf.extend_from_slice(&frame(b'1', &[]));
    let (m, n) = read_message(&buf).unwrap();
    assert!(matches!(m, BackendMessage::ReadyForQuery { _state: b'T' }));
    assert_eq!(n, 6);
    let (m, n) = read_message(&buf[n..]).unwrap();
    assert!(matches!(m, BackendMessage::ParseComplete));
    assert_eq!(n, 5);
}

#[test]
fn frame_errors() {
    assert_eq!(read_message(&[b'Z', 0, 0]).unwrap_err(), DecodeError::Incomplete);
    assert_eq!(read_message(&[b'Z', 0, 0, 0, 3]).unwrap_err(), DecodeError::BadLength);
    assert_eq!(read_message(&[b'Z', 0, 0, 0, 5]).unwrap_err(), DecodeError::Incomplete);
    assert_eq!(read_message(&[b'Z', 0, 0, 0, 4]).unwrap_err(), DecodeError::Malformed);
    assert_eq!(read_message(&[b'Z', 0, 0, 0, 6, b'I', b'I']).unwrap_err(), DecodeError::TrailingBytes);
}

#[test]
fn declared_lengths() {
    assert_eq!(body_len(4), Some(0));
    assert_eq!(body_len(13), Some(9));
    assert_eq!(body_len(3), None);
    assert_eq!(body_len(0), None);
}

#[test]
fn bound_values_read_back_as_row_values() {
    let values = vec![Some(b"ab".to_vec()), None, Some(vec![])];
    let mut buf = Vec::new();
    write_message(&mut buf, &FrontendMessage::Bind {
        portal: "",
        statement: "",
        formats: &[],
        values: &values,
        result_formats: &[],
    })
    .unwrap();
    // tag, length, two empty names, no formats, then the value count
    let mut pos = 1 + 4 + 2 + 2 + 2;
    let mut read = Vec::new();
    for _ in 0..values.len() {
        let (v, p) = read_value(&buf, pos).unwrap();
        read.push(v);
        pos = p;
    }
    assert_eq!(read, values);
    assert_eq!(&buf[pos..], &[0, 0]);
}
