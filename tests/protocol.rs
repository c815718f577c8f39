use pradb::codec::{encode_request, parse_length};
use pradb::commands::Request;
use pradb::errors::{AdbSocketError, Response};
use pradb::exchange::{classify, BodyMode, Exchange, FrameConfig, ReadStep, StatusPrefix};

fn run(config: FrameConfig, reads: &[&[u8]]) -> Result<Response, AdbSocketError> {
    let mut ex = Exchange::new(config);
    let mut i = 0;
    loop {
        match ex.next_read() {
            ReadStep::Finished => return Ok(ex.into_response().unwrap()),
            ReadStep::Exact(n) => {
                assert_eq!(reads[i].len(), n);
                ex.feed(reads[i].to_vec())?;
            }
            ReadStep::ToEof => ex.feed(reads[i].to_vec())?,
        }
        i += 1;
    }
}

fn present(body: BodyMode) -> FrameConfig {
    FrameConfig { status: StatusPrefix::Present, body }
}

#[test]
fn encode_pads_length_to_four_upper_case_hex_digits() {
    assert_eq!(encode_request("host:version"), b"000Chost:version".to_vec());
    assert_eq!(encode_request(""), b"0000".to_vec());
}

#[test]
fn encode_counts_bytes_not_characters() {
    let r = encode_request("shell:é");
    assert_eq!(&r[..4], b"0008");
    assert_eq!(&r[4..], "shell:é".as_bytes());
}

#[test]
fn encode_header_reads_back_as_the_length() {
    let cmd = "x".repeat(0xABC);
    let r = encode_request(&cmd);
    assert_eq!(&r[..4], b"0ABC");
    assert_eq!(parse_length(&r[..4]).unwrap(), cmd.len());
    assert_eq!(r.len(), 4 + cmd.len());
    let longest = "y".repeat(0xFFFF);
    let r = encode_request(&longest);
    assert_eq!(&r[..4], b"FFFF");
    assert_eq!(parse_length(&r[..4]).unwrap(), 0xFFFF);
}

#[test]
fn length_field_accepts_either_case() {
    assert_eq!(parse_length(b"001A").unwrap(), 26);
    assert_eq!(parse_length(b"001a").unwrap(), 26);
    assert_eq!(parse_length(b"0000").unwrap(), 0);
}

#[test]
fn length_field_that_is_not_hex_is_invalid_hex() {
    match parse_length(b"00G1") {
        Err(AdbSocketError::InvalidHex(b)) => assert_eq!(b, b"00G1".to_vec()),
        other => panic!("unexpected {:?}", other),
    }
    assert!(matches!(parse_length(b"+FFF"), Err(AdbSocketError::InvalidHex(_))));
    assert!(matches!(parse_length(b"001"), Err(AdbSocketError::InvalidHex(_))));
}

#[test]
fn okay_and_fail_tokens_classify() {
    assert!(matches!(classify(b"OKAY", "v".to_string()), Response::Okay(s) if s == "v"));
    assert!(matches!(classify(b"FAIL", "why".to_string()), Response::Fail(s) if s == "why"));
}

#[test]
fn other_tokens_classify_as_unknown() {
    for token in [&b"OKAX"[..], b"okay", b"fail", b"FAI", b"", b"OKAYY", b"\x00\x00\x00\x00"] {
        assert!(matches!(classify(token, "b".to_string()), Response::Unknown(s) if s == "b"));
    }
}

#[test]
fn length_prefixed_reply_decodes() {
    let r = run(present(BodyMode::LengthPrefixed), &[b"OKAY", b"0005", b"hello"]).unwrap();
    assert!(matches!(r, Response::Okay(s) if s == "hello"));
}

#[test]
fn empty_length_prefixed_body_decodes() {
    let r = run(present(BodyMode::LengthPrefixed), &[b"FAIL", b"0000", b""]).unwrap();
    assert!(matches!(r, Response::Fail(s) if s.is_empty()));
}

#[test]
fn reply_to_end_of_stream_decodes() {
    let r = run(present(BodyMode::ToEof), &[b"OKAY", b"line one\nline two\n"]).unwrap();
    assert!(matches!(r, Response::Okay(s) if s == "line one\nline two\n"));
}

#[test]
fn status_alone_reads_no_body() {
    let mut ex = Exchange::new(present(BodyMode::NoBody));
    assert_eq!(ex.next_read(), ReadStep::Exact(4));
    ex.feed(b"OKAY".to_vec()).unwrap();
    assert_eq!(ex.next_read(), ReadStep::Finished);
    assert!(matches!(ex.into_response(), Some(Response::Okay(s)) if s.is_empty()));
}

#[test]
fn reply_without_status_is_unknown() {
    let config = FrameConfig { status: StatusPrefix::Absent, body: BodyMode::ToEof };
    let r = run(config, &[b"text"]).unwrap();
    assert!(matches!(r, Response::Unknown(s) if s == "text"));
    let config = FrameConfig { status: StatusPrefix::Absent, body: BodyMode::NoBody };
    let ex = Exchange::new(config);
    assert_eq!(ex.next_read(), ReadStep::Finished);
    assert!(matches!(ex.into_response(), Some(Response::Unknown(s)) if s.is_empty()));
}

#[test]
fn unfinished_exchange_has_no_response() {
    let ex = Exchange::new(present(BodyMode::ToEof));
    assert!(ex.into_response().is_none());
}

#[test]
fn status_token_that_is_not_utf8_is_invalid_string() {
    let r = run(present(BodyMode::NoBody), &[b"\xff\xfeAY"]);
    assert!(matches!(r, Err(AdbSocketError::InvalidString(b)) if b == b"\xff\xfeAY".to_vec()));
}

#[test]
fn body_that_is_not_utf8_is_invalid_string() {
    let r = run(present(BodyMode::LengthPrefixed), &[b"OKAY", b"0002", b"\xc3\x28"]);
    assert!(matches!(r, Err(AdbSocketError::InvalidString(_))));
    let r = run(present(BodyMode::ToEof), &[b"OKAY", b"ok\x80"]);
    assert!(matches!(r, Err(AdbSocketError::InvalidString(_))));
}

#[test]
fn bad_length_field_is_invalid_hex() {
    let r = run(present(BodyMode::LengthPrefixed), &[b"OKAY", b"zz12"]);
    assert!(matches!(r, Err(AdbSocketError::InvalidHex(b)) if b == b"zz12".to_vec()));
}

#[test]
fn requests_carry_their_commands_and_framing() {
    let r = Request::version();
    assert_eq!(r.payload, b"000Chost:version".to_vec());
    assert_eq!(r.frame, present(BodyMode::LengthPrefixed));
    let r = Request::devices();
    assert_eq!(r.payload, b"000Chost:devices".to_vec());
    assert_eq!(r.frame, present(BodyMode::LengthPrefixed));
    let r = Request::transport("emulator-5554");
    assert_eq!(r.payload, b"001Chost:transport:emulator-5554".to_vec());
    assert_eq!(r.frame, present(BodyMode::NoBody));
    let r = Request::shell("ls /");
    assert_eq!(r.payload, b"000Ashell:ls /".to_vec());
    assert_eq!(r.frame, present(BodyMode::ToEof));
    let r = Request::properties();
    assert_eq!(r.payload, b"000Eshell:getprop:".to_vec());
    assert_eq!(r.frame, present(BodyMode::ToEof));
    let r = Request::property("ro.serialno");
    assert_eq!(r.payload, b"0019shell:getprop:ro.serialno".to_vec());
    assert_eq!(r.frame, present(BodyMode::NoBody));
    let r = Request::packages();
    assert_eq!(r.payload, b"0023shell:pm list packages 2> /dev/null".to_vec());
    assert_eq!(r.frame, present(BodyMode::ToEof));
}
