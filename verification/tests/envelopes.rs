use lucky_wol_agent::envelope::{
    decrypt_message, encrypt_message, normalize_des_key, open_frame, pack_message, payload_fits,
    unpack_message, IncomingFrame,
};

const KEY: &str = "lucky666";

fn frame(kind: u8, declared: i64, payload: &[u8]) -> Vec<u8> {
    let mut plain = vec![kind];
    plain.extend_from_slice(&declared.to_be_bytes());
    plain.extend_from_slice(payload);
    plain
}

fn error_of(r: Result<IncomingFrame, String>) -> String {
    match r {
        Ok(_) => panic!("there should be no message"),
        Err(error) => error,
    }
}

#[test]
fn a_key_is_its_first_eight_bytes() {
    assert_eq!(normalize_des_key("lucky666"), *b"lucky666");
    assert_eq!(normalize_des_key("lucky666 and more"), *b"lucky666");
    assert_eq!(normalize_des_key("abc"), *b"abc\0\0\0\0\0");
    assert_eq!(normalize_des_key(""), [0u8; 8]);
    assert_eq!(normalize_des_key("日本語"), [0xe6, 0x97, 0xa5, 0xe6, 0x9c, 0xac, 0xe8, 0xaa]);
}

#[test]
fn keys_with_one_head_read_each_other() {
    let text = pack_message(b'4', b"{}", "lucky666-a").unwrap();
    assert_eq!(text, pack_message(b'4', b"{}", "lucky666-b").unwrap());
    assert!(matches!(unpack_message(&text, "lucky666-b"), Ok(IncomingFrame::ShutDown)));
}

#[test]
fn the_cipher_is_des() {
    let cipher_text = encrypt_message(&[0u8; 8], "").unwrap();
    assert_eq!(cipher_text, [0x8c, 0xa6, 0x4d, 0xe9, 0xc1, 0xb1, 0x23, 0xa7]);
    assert_eq!(decrypt_message(&cipher_text, "").unwrap(), [0u8; 8]);
}

#[test]
fn equal_blocks_are_encrypted_alike() {
    let cipher_text = encrypt_message(b"sameSAMEsameSAME", KEY).unwrap();
    assert_eq!(cipher_text.len(), 16);
    assert_eq!(cipher_text[..8], cipher_text[8..]);
    assert_ne!(cipher_text[..8], *b"sameSAME");
}

#[test]
fn decryption_gives_back_the_padded_text() {
    for len in 0usize..20 {
        let plain: Vec<u8> = (0..len).map(|i| i as u8 + 1).collect();
        let cipher_text = encrypt_message(&plain, KEY).unwrap();
        assert_eq!(cipher_text.len(), (len + 7) / 8 * 8);
        let mut padded = plain.clone();
        padded.resize(cipher_text.len(), 0);
        assert_eq!(decrypt_message(&cipher_text, KEY).unwrap(), padded);
    }
}

#[test]
fn partial_blocks_are_not_decrypted() {
    assert_eq!(
        decrypt_message(&[1, 2, 3], KEY),
        Err("DES cipher text length must be aligned to 8 bytes".to_string())
    );
    assert_eq!(
        error_of(unpack_message("AAAA", KEY)),
        "DES cipher text length must be aligned to 8 bytes"
    );
    assert_eq!(decrypt_message(&[], KEY), Ok(Vec::new()));
}

#[test]
fn a_packed_message_is_unpacked_again() {
    for payload in [&b"{\"Ret\":0}"[..], &b""[..], &b"1234567"[..], &[0u8, 0, 0, 0, 0, 0, 0, 0, 0][..]] {
        let text = pack_message(b'1', payload, KEY).unwrap();
        match unpack_message(&text, KEY) {
            Ok(IncomingFrame::LoginResp(read)) => assert_eq!(read, payload),
            _ => panic!("not an answer to a login"),
        }
        let text = pack_message(b'2', payload, KEY).unwrap();
        match unpack_message(&text, KEY) {
            Ok(IncomingFrame::SyncClientConfigure(read)) => assert_eq!(read, payload),
            _ => panic!("not settings"),
        }
        let text = pack_message(b'3', payload, KEY).unwrap();
        match unpack_message(&text, KEY) {
            Ok(IncomingFrame::ReplyWakeUp(read)) => assert_eq!(read, payload),
            _ => panic!("not a wake-up request"),
        }
        let text = pack_message(b'4', payload, KEY).unwrap();
        assert!(matches!(unpack_message(&text, KEY), Ok(IncomingFrame::ShutDown)));
    }
}

#[test]
fn a_login_is_no_message_for_the_agent() {
    let text = pack_message(b'0', b"{}", KEY).unwrap();
    assert_eq!(error_of(unpack_message(&text, KEY)), "未知的 Lucky 消息类型: 48");
}

#[test]
fn a_packed_message_is_standard_base64() {
    let text = pack_message(b'0', b"{}", KEY).unwrap();
    assert_eq!(text.len(), 24);
    assert!(text.ends_with("=="));
    assert!(text.chars().all(|c| c.is_ascii_alphanumeric() || c == '+' || c == '/' || c == '='));
    assert_eq!(pack_message(b'0', b"{}", KEY).unwrap(), text);
    assert_ne!(pack_message(b'0', b"{}", "another").unwrap(), text);
}

#[test]
fn text_that_is_no_base64_is_refused() {
    assert_eq!(error_of(unpack_message("#AAA", KEY)), "Invalid symbol 35, offset 0.");
    assert_eq!(error_of(unpack_message("AA=", KEY)), "Invalid padding");
}

#[test]
fn an_empty_text_is_too_short() {
    assert_eq!(error_of(unpack_message("", KEY)), "解密后的消息长度过短");
}

#[test]
fn frames_need_more_than_a_header() {
    assert_eq!(error_of(open_frame(&[])), "解密后的消息长度过短");
    assert_eq!(error_of(open_frame(&frame(b'4', 0, b""))), "解密后的消息长度过短");
    assert!(matches!(open_frame(&frame(b'4', 0, b"\0")), Ok(IncomingFrame::ShutDown)));
}

#[test]
fn the_declared_length_is_not_negative() {
    assert_eq!(
        error_of(open_frame(&frame(b'1', -1, b"{}"))),
        "json length must not be negative"
    );
    assert_eq!(
        error_of(open_frame(&frame(b'1', i64::MIN, b"{}"))),
        "json length must not be negative"
    );
}

#[test]
fn the_declared_length_must_be_there() {
    assert_eq!(
        error_of(open_frame(&frame(b'1', 3, b"{}"))),
        "decrypted payload too short: declared json length 3, actual 2"
    );
    assert_eq!(
        error_of(open_frame(&frame(b'1', i64::MAX, b"{}"))),
        "decrypted payload too short: declared json length 9223372036854775807, actual 2"
    );
}

#[test]
fn what_follows_the_declared_length_is_ignored() {
    match open_frame(&frame(b'3', 2, b"{}\0\0\0")) {
        Ok(IncomingFrame::ReplyWakeUp(payload)) => assert_eq!(payload, b"{}"),
        _ => panic!("not a wake-up request"),
    }
}

#[test]
fn unknown_kinds_are_named() {
    assert_eq!(error_of(open_frame(&frame(0, 0, b"x"))), "未知的 Lucky 消息类型: 0");
    assert_eq!(error_of(open_frame(&frame(255, 0, b"x"))), "未知的 Lucky 消息类型: 255");
    assert_eq!(error_of(open_frame(&frame(b'5', 0, b"x"))), "未知的 Lucky 消息类型: 53");
}

#[test]
fn payloads_fit_up_to_the_limits_of_memory() {
    assert!(payload_fits(0));
    assert!(payload_fits(1 << 20));
    assert!(!payload_fits(usize::MAX));
    assert!(!payload_fits(isize::MAX as usize));
}

#[test]
fn blocks_are_encrypted_by_themselves() {
    let blocks = b"first ..second .";
    for rest in [&b""[..], &b"tail"[..], &b"12345678"[..], &b"123456789"[..]] {
        let mut whole = blocks.to_vec();
        whole.extend_from_slice(rest);
        let mut parts = encrypt_message(blocks, KEY).unwrap();
        parts.extend_from_slice(&encrypt_message(rest, KEY).unwrap());
        assert_eq!(encrypt_message(&whole, KEY).unwrap(), parts);
    }
}

#[test]
fn encryption_gives_back_the_cipher_text() {
    let cipher_text: Vec<u8> = (0..32).map(|i| i * 7).collect();
    let plain = decrypt_message(&cipher_text, KEY).unwrap();
    assert_eq!(plain.len(), 32);
    assert_ne!(plain, cipher_text);
    assert_eq!(encrypt_message(&plain, KEY).unwrap(), cipher_text);
}

#[test]
fn a_packed_message_decodes_to_the_padded_frame() {
    let text = pack_message(b'1', b"{}", KEY).unwrap();
    let cipher_text = base64::Engine::decode(&base64::engine::general_purpose::STANDARD, &text).unwrap();
    let mut expected = frame(b'1', 2, b"{}");
    expected.resize(16, 0);
    assert_eq!(decrypt_message(&cipher_text, KEY).unwrap(), expected);
}
