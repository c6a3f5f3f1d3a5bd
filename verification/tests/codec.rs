//! The line codec and the encoding indexes, exercised on the wire.
use paw_irc::codec::line::LineCodec;
use paw_irc::encodings;
use paw_irc::ProtocolError;

#[test]
fn create_utf8() {
    let dec = LineCodec::new("utf-8", 512);
    assert!(dec.is_ok())
}

#[test]
fn line_create_utf8() {
    let dec = LineCodec::new("utf-8", 512);
    assert!(dec.is_ok())
}

#[test]
fn create_cp437() {
    let dec = LineCodec::new("cp437", 512);
    assert!(dec.is_ok())
}

#[test]
fn line_create_cp437() {
    let dec = LineCodec::new("cp437", 512);
    assert!(dec.is_ok())
}

#[test]
fn utf8_decode() {
    let mut input: Vec<u8> = b"Hello World\r\n".to_vec();
    let mut dec = LineCodec::new("utf-8", 512).expect("Failed to construct utf-8 line decoder");
    let out = dec.decode(&mut input);
    assert!(out.is_ok());
    let out = out.unwrap();
    assert_eq!(out, Some("Hello World".to_string()));
}

#[test]
fn line_utf8_decode() {
    let mut input: Vec<u8> = b"Hello World\r\n".to_vec();
    let mut dec = LineCodec::new("utf-8", 512).expect("Failed to construct utf-8 line decoder");
    let out = dec.decode(&mut input);
    assert!(out.is_ok());
    let out = out.unwrap();
    assert_eq!(out, Some("Hello World".to_string()));
}

#[test]
fn unknown_label_refused() {
    match LineCodec::new("martian-7", 512) {
        Err(ProtocolError::UnsupportedEncoding(label)) => assert_eq!(label, "martian-7"),
        _ => panic!("an unknown label must be refused"),
    }
}

#[test]
fn codec_names() {
    assert_eq!(LineCodec::new("UTF-8", 512).unwrap().name(), "utf-8");
    assert_eq!(LineCodec::new("arabic", 512).unwrap().name(), "iso-8859-6");
    assert_eq!(LineCodec::new("ibm437", 512).unwrap().name(), "cp437");
}

#[test]
fn utf8_roundtrip() {
    let mut codec = LineCodec::new("utf-8", 512).unwrap();
    let mut wire: Vec<u8> = Vec::new();
    codec.encode("héllo wörld".to_string(), &mut wire).unwrap();
    let out = codec.decode(&mut wire).unwrap();
    assert_eq!(out, Some("héllo wörld".to_string()));
    assert_eq!(wire.len(), 0);
}

#[test]
fn singlebyte_roundtrip() {
    let mut codec = LineCodec::new("iso-8859-6", 512).unwrap();
    let mut wire: Vec<u8> = Vec::new();
    codec.encode("salam \u{641}\u{644}".to_string(), &mut wire).unwrap();
    assert_eq!(wire[6], 0xE1);
    let out = codec.decode(&mut wire).unwrap();
    assert_eq!(out, Some("salam \u{641}\u{644}".to_string()));
}

#[test]
fn unmappable_becomes_question_mark() {
    let mut codec = LineCodec::new("iso-8859-6", 512).unwrap();
    let mut wire: Vec<u8> = Vec::new();
    codec.encode("a\u{4E2D}b".to_string(), &mut wire).unwrap();
    assert_eq!(wire, vec![b'a', b'?', b'b', 13, 10]);
}

#[test]
fn encode_too_long_fails() {
    let mut codec = LineCodec::new("utf-8", 16).unwrap();
    let mut wire: Vec<u8> = Vec::new();
    let long = "x".repeat(15);
    match codec.encode(long, &mut wire) {
        Err(ProtocolError::MaxLineLengthExceeded) => {}
        _ => panic!("a line over the budget must be refused"),
    }
    assert_eq!(wire.len(), 0);
}

#[test]
fn decode_overlong_fails() {
    let mut codec = LineCodec::new("utf-8", 16).unwrap();
    let mut wire: Vec<u8> = vec![b'y'; 20];
    match codec.decode(&mut wire) {
        Err(ProtocolError::MaxLineLengthExceeded) => {}
        _ => panic!("an unterminated overlong buffer must fail"),
    }
    assert_eq!(wire.len(), 0);
}

#[test]
fn decode_waits_for_terminator() {
    let mut codec = LineCodec::new("utf-8", 512).unwrap();
    let mut wire: Vec<u8> = b"partial".to_vec();
    assert_eq!(codec.decode(&mut wire).unwrap(), None);
    wire.extend_from_slice(b" line\r\nrest");
    // the resume index skips what was already scanned
    assert_eq!(codec.decode(&mut wire).unwrap(), Some("partial line".to_string()));
    assert_eq!(wire, b"rest".to_vec());
}

#[test]
fn forward_tables_match_known_points() {
    assert_eq!(encodings::iso_8859_6::forward(0xE1), 0x641);
    assert_eq!(encodings::cp437::forward(0x80), 0xC7);
    assert_eq!(encodings::windows_1255::forward(0xE0), 0x5D0);
}

#[test]
fn backward_tables_match_known_points() {
    assert_eq!(encodings::iso_8859_6::backward(0x641), 0xE1);
    assert_eq!(encodings::cp437::backward(0xC7), 0x80);
    assert_eq!(encodings::windows_1255::backward(0x5D0), 0xE0);
}

#[test]
fn backward_paths_agree() {
    // the two-level tables and the linear fallback agree over the
    // code points either can map
    for code in 0x80u32..0x2400 {
        assert_eq!(
            encodings::iso_8859_6::backward(code),
            encodings::iso_8859_6::backward_linear(code),
            "iso-8859-6 at {code:#x}"
        );
        assert_eq!(
            encodings::iso_8859_14::backward(code),
            encodings::iso_8859_14::backward_linear(code),
            "iso-8859-14 at {code:#x}"
        );
        assert_eq!(
            encodings::iso_8859_16::backward(code),
            encodings::iso_8859_16::backward_linear(code),
            "iso-8859-16 at {code:#x}"
        );
        assert_eq!(
            encodings::windows_1255::backward(code),
            encodings::windows_1255::backward_linear(code),
            "windows-1255 at {code:#x}"
        );
        assert_eq!(
            encodings::windows_1257::backward(code),
            encodings::windows_1257::backward_linear(code),
            "windows-1257 at {code:#x}"
        );
        assert_eq!(
            encodings::cp437::backward(code),
            encodings::cp437::backward_linear(code),
            "cp437 at {code:#x}"
        );
    }
}

#[test]
fn unassigned_byte_decodes_to_replacement() {
    // 0xA1 carries no character in iso-8859-6
    let mut codec = LineCodec::new("iso-8859-6", 512).unwrap();
    let mut wire: Vec<u8> = vec![b'a', 0xA1, b'b', 13, 10];
    let out = codec.decode(&mut wire).unwrap();
    assert_eq!(out, Some("a\u{FFFD}b".to_string()));
}

#[test]
fn invalid_utf8_decodes_to_replacement() {
    let mut codec = LineCodec::new("utf-8", 512).unwrap();
    let mut wire: Vec<u8> = vec![b'a', 0xFF, b'b', 13, 10];
    let out = codec.decode(&mut wire).unwrap();
    assert_eq!(out, Some("a\u{FFFD}b".to_string()));
}

#[test]
fn encode_truncates_at_embedded_terminator() {
    let mut codec = LineCodec::new("utf-8", 512).unwrap();
    let mut wire: Vec<u8> = Vec::new();
    codec.encode("ab\r\ncd".to_string(), &mut wire).unwrap();
    assert_eq!(wire, b"ab\r\n".to_vec());
}
