use pgwire::frontend::{write_message, EncodeError, FrontendMessage, CANCEL_CODE, PROTOCOL_VERSION, SSL_CODE};

fn encode(m: &FrontendMessage) -> Vec<u8> {
    let mut buf = Vec::new();
    write_message(&mut buf, m).unwrap();
    buf
}

#[test]
fn query_bytes() {
    let bytes = encode(&FrontendMessage::Query { query: "SELECT 1" });
    let mut want = vec![b'Q', 0, 0, 0, 13];
    want.extend_from_slice(b"SELECT 1\0");
    assert_eq!(bytes, want);
}

#[test]
fn sync_and_terminate_have_empty_payloads() {
    assert_eq!(encode(&FrontendMessage::Sync), vec![b'S', 0, 0, 0, 4]);
    assert_eq!(encode(&FrontendMessage::Terminate), vec![b'X', 0, 0, 0, 4]);
    assert_eq!(encode(&FrontendMessage::CopyDone), vec![b'c', 0, 0, 0, 4]);
}

#[test]
fn ssl_request_is_eight_bytes_without_tag() {
    let bytes = encode(&FrontendMessage::SslRequest { code: SSL_CODE });
    assert_eq!(bytes, vec![0, 0, 0, 8, 0x04, 0xd2, 0x16, 0x2f]);
}

#[test]
fn cancel_request_bytes() {
    let bytes = encode(&FrontendMessage::CancelRequest { code: CANCEL_CODE, process_id: 7, secret_key: 0x01020304 });
    assert_eq!(bytes, vec![0, 0, 0, 16, 0x04, 0xd2, 0x16, 0x2e, 0, 0, 0, 7, 1, 2, 3, 4]);
}

#[test]
fn startup_message_bytes() {
    let params = vec![("user".to_string(), "bob".to_string())];
    let bytes = encode(&FrontendMessage::StartupMessage { version: PROTOCOL_VERSION, parameters: &params });
    let mut want = vec![0, 0, 0, 18, 0, 3, 0, 0];
    want.extend_from_slice(b"user\0bob\0\0");
    assert_eq!(bytes, want);
}

#[test]
fn bind_encodes_null_as_minus_one() {
    let values = vec![Some(vec![0xaa, 0xbb]), None];
    let bytes = encode(&FrontendMessage::Bind {
        portal: "",
        statement: "s1",
        formats: &[1],
        values: &values,
        result_formats: &[],
    });
    let mut want = vec![b'B'];
    let payload: Vec<u8> = vec![
        0, b's', b'1', 0, // portal, statement
        0, 1, 0, 1, // one format: binary
        0, 2, // two values
        0, 0, 0, 2, 0xaa, 0xbb, // first value
        0xff, 0xff, 0xff, 0xff, // NULL, no bytes after it
        0, 0, // no result formats
    ];
    want.extend_from_slice(&((payload.len() + 4) as u32).to_be_bytes());
    want.extend_from_slice(&payload);
    assert_eq!(bytes, want);
}

#[test]
fn parse_execute_describe_close() {
    let bytes = encode(&FrontendMessage::Parse { name: "a", query: "q", param_types: &[23, 25] });
    assert_eq!(bytes, vec![b'P', 0, 0, 0, 18, b'a', 0, b'q', 0, 0, 2, 0, 0, 0, 23, 0, 0, 0, 25]);
    let bytes = encode(&FrontendMessage::Execute { portal: "", max_rows: -2 });
    assert_eq!(bytes, vec![b'E', 0, 0, 0, 9, 0, 0xff, 0xff, 0xff, 0xfe]);
    let bytes = encode(&FrontendMessage::Describe { variant: b'S', name: "x" });
    assert_eq!(bytes, vec![b'D', 0, 0, 0, 7, b'S', b'x', 0]);
    let bytes = encode(&FrontendMessage::Close { variant: b'P', name: "" });
    assert_eq!(bytes, vec![b'C', 0, 0, 0, 6, b'P', 0]);
}

#[test]
fn copy_and_password_messages() {
    let bytes = encode(&FrontendMessage::CopyData { data: &[1, 2, 3] });
    assert_eq!(bytes, vec![b'd', 0, 0, 0, 7, 1, 2, 3]);
    let bytes = encode(&FrontendMessage::CopyFail { message: "no" });
    assert_eq!(bytes, vec![b'f', 0, 0, 0, 7, b'n', b'o', 0]);
    let bytes = encode(&FrontendMessage::PasswordMessage { password: "pw" });
    assert_eq!(bytes, vec![b'p', 0, 0, 0, 7, b'p', b'w', 0]);
}

#[test]
fn utf8_text_is_sent_as_its_bytes() {
    let bytes = encode(&FrontendMessage::Query { query: "é" });
    assert_eq!(bytes, vec![b'Q', 0, 0, 0, 7, 0xc3, 0xa9, 0]);
}

#[test]
fn length_field_counts_itself_and_payload() {
    for q in ["", "a", "SELECT * FROM t"] {
        let bytes = encode(&FrontendMessage::Query { query: q });
        let len = u32::from_be_bytes([bytes[1], bytes[2], bytes[3], bytes[4]]) as usize;
        assert_eq!(len, 4 + q.len() + 1);
        assert_eq!(bytes.len(), 1 + len);
    }
}

#[test]
fn write_appends_to_existing_bytes() {
    let mut buf = vec![9u8];
    write_message(&mut buf, &FrontendMessage::Sync).unwrap();
    assert_eq!(buf, vec![9, b'S', 0, 0, 0, 4]);
}

#[test]
fn too_many_formats_is_refused() {
    let formats = vec![0i16; 70000];
    let mut buf = vec![1u8];
    let r = write_message(&mut buf, &FrontendMessage::Bind {
        portal: "",
        statement: "",
        formats: &formats,
        values: &[],
        result_formats: &[],
    });
    assert_eq!(r, Err(EncodeError::TooLarge));
    assert_eq!(buf, vec![1u8]);
}
