use ellocopo2::{
    AnswerBuilder, AnswerCode, BuildError, Msg, ParseMsg, ParserError, RequestBuilder,
    RequestCode, TypeTag, Value, MAX_MSG_SZ, SIGN,
};

#[test]
fn it_works() {
    assert_eq!(2 + 2, 4);
}

#[test]
fn lib_it_works() {
    assert_eq!(2 + 2, 4);
}

#[test]
fn test_request() {
    let mut buf = [0u8; 0x40];

    // op = read, value = None
    let request_sz = RequestBuilder::new(&mut buf)
        .code(RequestCode::READ)
        .path("path/name")
        .build()
        .unwrap();

    let req_slice = &buf[..request_sz];

    assert_eq!(
        req_slice,
        [
            SIGN,
            0x09,
            0x00,
            RequestCode::READ as u8,
            TypeTag::UNIT as u8,
            b'p',
            b'a',
            b't',
            b'h',
            b'/',
            b'n',
            b'a',
            b'm',
            b'e'
        ]
    );

    // op = read, value = u32
    let request_sz = RequestBuilder::new(&mut buf)
        .code(RequestCode::READ)
        .path("path/name")
        .payload(Value::U32(0xDEAD_BEAF))
        .build()
        .unwrap();

    let req_slice = &buf[0..request_sz];

    assert_eq!(
        req_slice,
        [
            SIGN,
            0x09,
            0x04,
            RequestCode::READ as u8,
            TypeTag::U32 as u8,
            b'p',
            b'a',
            b't',
            b'h',
            b'/',
            b'n',
            b'a',
            b'm',
            b'e',
            0xAF,
            0xBE,
            0xAD,
            0xDE
        ]
    );

    // op = write, value = bytes of variable length
    let var_len_value = [0xAF, 0xBE, 0xAD, 0xDE, 0xDE, 0xAD, 0xCE, 0x11];
    let request_sz = RequestBuilder::new(&mut buf)
        .code(RequestCode::WRITE)
        .path("path")
        .payload(Value::BYTES(&var_len_value))
        .build()
        .unwrap();

    let req_slice = &buf[..request_sz];

    assert_eq!(
        req_slice,
        [
            SIGN,
            0x04,
            0x08,
            RequestCode::WRITE as u8,
            TypeTag::BYTES as u8,
            b'p',
            b'a',
            b't',
            b'h',
            0xAF,
            0xBE,
            0xAD,
            0xDE,
            0xDE,
            0xAD,
            0xCE,
            0x11
        ]
    );

    // op = write, value = str
    let request_sz = RequestBuilder::new(&mut buf)
        .code(RequestCode::WRITE)
        .path("path")
        .payload(Value::STR("wof\u{e9}wof"))
        .build()
        .unwrap();

    let req_slice = &buf[..request_sz];

    assert_eq!(
        req_slice,
        [
            SIGN,
            0x04,
            0x08,
            RequestCode::WRITE as u8,
            TypeTag::STR as u8,
            b'p',
            b'a',
            b't',
            b'h',
            b'w',
            b'o',
            b'f',
            0xC3,
            0xA9,
            b'w',
            b'o',
            b'f'
        ]
    );
}

#[test]
fn test_answer() {
    let mut buf = [0u8; 0x40];

    // op = read, value = u8
    let _ = RequestBuilder::new(&mut buf)
        .code(RequestCode::READ)
        .path("path")
        .build();
    let ans_sz = AnswerBuilder::new(&mut buf)
        .payload(Value::U8(0xAD))
        .build()
        .unwrap();
    let ans_slice = &buf[0..ans_sz];
    assert_eq!(
        ans_slice,
        [
            SIGN,
            0x04,
            0x01,
            AnswerCode::OK_READ as u8,
            TypeTag::U8 as u8,
            b'p',
            b'a',
            b't',
            b'h',
            0xAD
        ]
    );

    // op = write, error
    let var_len_value = [0x22, 0xCE, 0x11];
    let req_sz = RequestBuilder::new(&mut buf)
        .code(RequestCode::WRITE)
        .path("boooom/baaaaaam")
        .payload(Value::BYTES(&var_len_value))
        .build()
        .unwrap();

    let req_slice = &buf[..req_sz];
    assert_eq!(
        req_slice,
        [
            SIGN,
            0x0f,
            0x03,
            AnswerCode::OK_WRITE as u8,
            TypeTag::BYTES as u8,
            b'b',
            b'o',
            b'o',
            b'o',
            b'o',
            b'm',
            b'/',
            b'b',
            b'a',
            b'a',
            b'a',
            b'a',
            b'a',
            b'a',
            b'm',
            0x22,
            0xCE,
            0x11,
        ]
    );

    let ans_sz = AnswerBuilder::new(&mut buf)
        .code(AnswerCode::ERR_LOCK)
        .build()
        .unwrap();
    let ans_slice = &buf[0..ans_sz];
    assert_eq!(
        ans_slice,
        [
            SIGN,
            0xf,
            0x0,
            AnswerCode::ERR_LOCK as u8,
            TypeTag::UNIT as u8,
            b'b',
            b'o',
            b'o',
            b'o',
            b'o',
            b'm',
            b'/',
            b'b',
            b'a',
            b'a',
            b'a',
            b'a',
            b'a',
            b'a',
            b'm',
        ]
    );
}

#[test]
fn test_unit() {
    let mut buf = [0u8; 0x40];

    let _ = RequestBuilder::new(&mut buf)
        .code(RequestCode::WRITE)
        .path("path")
        .payload(Value::UNIT(()))
        .build();

    let ans_sz = AnswerBuilder::new(&mut buf)
        .payload(Value::UNIT(()))
        .build()
        .unwrap();
    let ans_slice = &buf[0..ans_sz];

    assert_eq!(
        ans_slice,
        [
            SIGN,
            0x04,
            0x00,
            AnswerCode::OK_WRITE as u8,
            TypeTag::UNIT as u8,
            b'p',
            b'a',
            b't',
            b'h',
        ]
    );
}

#[test]
fn parse_req_short() {
    let mut buf = [0x0u8; MAX_MSG_SZ];
    let msg_orig = Msg(
        AnswerCode::OK_WRITE,
        "/test/something",
        Value::STR("wofwofwof"),
    );
    let req_sz = RequestBuilder::new(&mut buf)
        .code(msg_orig.0.try_into().unwrap())
        .path(msg_orig.1)
        .payload(msg_orig.2)
        .build()
        .unwrap();
    let mut parser = ParseMsg::new();
    let msg = parser.try_parse(&buf[..req_sz]).unwrap();

    assert_eq!(msg, msg_orig)
}

#[test]
fn parse_req_long() {
    let mut buf = [0x0u8; MAX_MSG_SZ];
    let msg_orig = Msg(
        AnswerCode::OK_WRITE,
        "/test/something/somethingsomethingrlylong/приветкакдела",
        Value::STR("/test/something/somethingsomethingrlylong/приветкакдела"),
    );
    let _req_sz = RequestBuilder::new(&mut buf)
        .code(msg_orig.0.try_into().unwrap())
        .path(msg_orig.1)
        .payload(msg_orig.2)
        .build()
        .unwrap();
    let mut parser = ParseMsg::new();
    let mut pos = 0x40;
    let mut chunk = &buf[0..0x40];
    let msg;
    loop {
        match parser.try_parse(chunk) {
            Ok(r) => {
                msg = Some(r);
                break;
            }
            Err(ParserError::NeedMoreData) => {
                println!("NeedMoreData: pos: {}", pos);
                chunk = &buf[0..pos];
                pos += 0x40;
            }
            Err(e) => panic!("{:?}", e),
        };
    }

    println!("Msg: {:?}", &msg.unwrap());
    assert_eq!(msg.unwrap(), msg_orig)
}

#[test]
fn build_read_without_payload() {
    let mut buf = [0xFFu8; 32];
    let n = RequestBuilder::new(&mut buf)
        .code(RequestCode::READ)
        .path("/ctrl/vis")
        .build()
        .unwrap();
    assert_eq!(n, 14);
    assert_eq!(
        &buf[..n],
        [0x8E, 0x09, 0x00, 0x00, 0x00, 0x2F, 0x63, 0x74, 0x72, 0x6C, 0x2F, 0x76, 0x69, 0x73]
    );
    // Nothing behind the message is touched.
    assert!(buf[n..].iter().all(|b| *b == 0xFF));
}

#[test]
fn build_write_bool_true() {
    let mut buf = [0u8; 32];
    let n = RequestBuilder::new(&mut buf)
        .code(RequestCode::WRITE)
        .path("/ctrl/vis")
        .payload(Value::BOOL(true))
        .build()
        .unwrap();
    assert_eq!(&buf[..5], [0x8E, 0x09, 0x01, 0x01, 0x01]);
    assert_eq!(&buf[5..14], "/ctrl/vis".as_bytes());
    assert_eq!(&buf[14..n], [0x01]);
}

#[test]
fn build_numbers_little_endian() {
    let mut buf = [0u8; 32];
    let n = RequestBuilder::new(&mut buf)
        .code(RequestCode::WRITE)
        .path("/a")
        .payload(Value::I32(-2))
        .build()
        .unwrap();
    assert_eq!(&buf[..n], [0x8E, 2, 4, 1, 2, b'/', b'a', 0xFE, 0xFF, 0xFF, 0xFF]);
    let n = RequestBuilder::new(&mut buf)
        .code(RequestCode::WRITE)
        .path("/a")
        .payload(Value::I16(-2))
        .build()
        .unwrap();
    assert_eq!(&buf[..n], [0x8E, 2, 2, 1, 3, b'/', b'a', 0xFE, 0xFF]);
    let n = RequestBuilder::new(&mut buf)
        .code(RequestCode::WRITE)
        .path("/a")
        .payload(Value::U16(0x1234))
        .build()
        .unwrap();
    assert_eq!(&buf[..n], [0x8E, 2, 2, 1, 6, b'/', b'a', 0x34, 0x12]);
    let n = RequestBuilder::new(&mut buf)
        .code(RequestCode::WRITE)
        .path("/a")
        .payload(Value::I8(-1))
        .build()
        .unwrap();
    assert_eq!(&buf[..n], [0x8E, 2, 1, 1, 4, b'/', b'a', 0xFF]);
}

#[test]
fn build_errors() {
    let mut buf = [7u8; 16];
    assert_eq!(
        RequestBuilder::new(&mut buf).path("/a").build(),
        Err(BuildError::MissingField)
    );
    assert_eq!(
        RequestBuilder::new(&mut buf).code(RequestCode::READ).build(),
        Err(BuildError::MissingField)
    );
    let long_path = "p".repeat(252);
    assert_eq!(
        RequestBuilder::new(&mut buf)
            .code(RequestCode::READ)
            .path(&long_path)
            .build(),
        Err(BuildError::Oversize)
    );
    let long_payload = [0u8; 256];
    assert_eq!(
        RequestBuilder::new(&mut buf)
            .code(RequestCode::WRITE)
            .path("/a")
            .payload(Value::BYTES(&long_payload))
            .build(),
        Err(BuildError::Oversize)
    );
    assert_eq!(
        RequestBuilder::new(&mut buf)
            .code(RequestCode::WRITE)
            .path("/a/long/path")
            .payload(Value::U32(1))
            .build(),
        Err(BuildError::BufferTooSmall)
    );
    // A failed build writes nothing.
    assert_eq!(buf, [7u8; 16]);
    let mut small = [0u8; 3];
    assert_eq!(
        AnswerBuilder::new(&mut small).code(AnswerCode::OK_READ).build(),
        Err(BuildError::BufferTooSmall)
    );
    let mut over = [0x8E, 252, 0, 0, 0, 0, 0, 0];
    assert_eq!(
        AnswerBuilder::new(&mut over).build(),
        Err(BuildError::Oversize)
    );
    let mut short = [0x8E, 2, 0, 0, 0, b'/', b'a', 9];
    assert_eq!(
        AnswerBuilder::new(&mut short).payload(Value::U16(1)).build(),
        Err(BuildError::BufferTooSmall)
    );
    assert_eq!(short, [0x8E, 2, 0, 0, 0, b'/', b'a', 9]);
}

#[test]
fn longest_path_and_payload_fit() {
    let mut buf = [0u8; MAX_MSG_SZ];
    let path = "p".repeat(251);
    let payload = [3u8; 255];
    let n = RequestBuilder::new(&mut buf)
        .code(RequestCode::WRITE)
        .path(&path)
        .payload(Value::BYTES(&payload))
        .build()
        .unwrap();
    assert_eq!(n, 5 + 251 + 255);
    let mut parser = ParseMsg::new();
    let msg = parser.try_parse(&buf[..n]).unwrap();
    assert_eq!(msg, Msg(AnswerCode::OK_WRITE, &path, Value::BYTES(&payload)));
}

#[test]
fn parse_every_kind_of_value() {
    let values = [
        Value::UNIT(()),
        Value::BOOL(true),
        Value::BOOL(false),
        Value::I32(-123456),
        Value::I16(-1234),
        Value::I8(-12),
        Value::U32(0xDEAD_BEAF),
        Value::U16(0xBEAF),
        Value::U8(0xAF),
        Value::STR("héllo"),
        Value::BYTES(&[1, 2, 3]),
    ];
    for v in values {
        let mut buf = [0u8; 64];
        let n = RequestBuilder::new(&mut buf)
            .code(RequestCode::WRITE)
            .path("/some/reg")
            .payload(v)
            .build()
            .unwrap();
        let mut parser = ParseMsg::new();
        let msg = parser.try_parse(&buf[..n]).unwrap();
        assert_eq!(msg, Msg(AnswerCode::OK_WRITE, "/some/reg", v));
    }
}

#[test]
fn parse_grows_byte_by_byte() {
    let mut buf = [0u8; 64];
    let n = RequestBuilder::new(&mut buf)
        .code(RequestCode::WRITE)
        .path("/ctrl/vis")
        .payload(Value::U32(77))
        .build()
        .unwrap();
    let mut parser = ParseMsg::new();
    for len in 0..n {
        assert_eq!(parser.try_parse(&buf[..len]), Err(ParserError::NeedMoreData));
    }
    let msg = parser.try_parse(&buf[..n]).unwrap();
    assert_eq!(msg, Msg(AnswerCode::OK_WRITE, "/ctrl/vis", Value::U32(77)));
    // The parser is ready for the next message.
    let msg = parser.try_parse(&buf[..n]).unwrap();
    assert_eq!(msg, Msg(AnswerCode::OK_WRITE, "/ctrl/vis", Value::U32(77)));
}

#[test]
fn parse_errors() {
    let mut p = ParseMsg::new();
    assert_eq!(p.try_parse(&[0x8E, 0, 0]), Err(ParserError::NeedMoreData));
    assert_eq!(p.try_parse(&[0x8F, 0, 0, 0, 0]), Err(ParserError::BadHeader));
    assert_eq!(p.try_parse(&[0x8E, 252, 0, 0, 0]), Err(ParserError::BadPathSz));
    assert_eq!(p.try_parse(&[0x8E, 0, 0, 8, 0]), Err(ParserError::BadCode));
    p.reset();
    assert_eq!(p.try_parse(&[0x8E, 0, 0, 0, 10]), Err(ParserError::BadTypeID));
    p.reset();
    assert_eq!(p.try_parse(&[0x8E, 1, 0, 0, 0, 0xFF]), Err(ParserError::BadValue));
    p.reset();
    assert_eq!(p.try_parse(&[0x8E, 0, 1, 0, 8, 0xFF]), Err(ParserError::BadValue));
    p.reset();
    assert_eq!(p.try_parse(&[0x8E, 0, 1, 0, 5, 1]), Err(ParserError::BadValue));
    p.reset();
    assert_eq!(p.try_parse(&[0x8E, 0, 1, 0, 0, 1]), Err(ParserError::BadValue));
    // A failure leaves the parser where it was: the same bytes fail again.
    assert_eq!(p.try_parse(&[0x8E, 0, 1, 0, 0, 1]), Err(ParserError::BadValue));
    p.reset();
    // Every payload size that a byte can say is within the bound.
    for sz in 0u8..=255 {
        let mut fresh = ParseMsg::new();
        let expected = if sz == 0 {
            Ok(Msg(AnswerCode::OK_READ, "", Value::UNIT(())))
        } else {
            Err(ParserError::NeedMoreData)
        };
        assert_eq!(fresh.try_parse(&[0x8E, 0, sz, 0, 0]), expected);
    }
    // Any byte but zero is a true boolean.
    assert_eq!(
        p.try_parse(&[0x8E, 1, 1, 1, 1, b'/', 7]),
        Ok(Msg(AnswerCode::OK_WRITE, "/", Value::BOOL(true)))
    );
}

#[test]
fn error_codes_for_the_wire() {
    assert_eq!(ParserError::NeedMoreData.answer_code(), None);
    assert_eq!(ParserError::BadHeader.answer_code(), Some(AnswerCode::ERR_BAD_PROTO));
    assert_eq!(ParserError::BadPathSz.answer_code(), Some(AnswerCode::ERR_BAD_FORMAT));
    assert_eq!(ParserError::BadTypeID.answer_code(), Some(AnswerCode::ERR_BAD_FORMAT));
}

#[test]
fn codes_and_tags_as_bytes() {
    for b in 0u8..=255 {
        match TypeTag::from_byte(b) {
            Some(t) => assert_eq!(t.byte(), b),
            None => assert!(b > 9),
        }
        match AnswerCode::from_byte(b) {
            Some(c) => assert_eq!(c.byte(), b),
            None => assert!(b > 7),
        }
        match RequestCode::from_byte(b) {
            Some(c) => assert_eq!(c.byte(), b),
            None => assert!(b > 1),
        }
    }
    assert_eq!(AnswerCode::from(RequestCode::READ), AnswerCode::OK_READ);
    assert_eq!(AnswerCode::from(RequestCode::WRITE), AnswerCode::OK_WRITE);
    assert_eq!(RequestCode::try_from(AnswerCode::OK_WRITE), Ok(RequestCode::WRITE));
    assert_eq!(RequestCode::try_from(AnswerCode::ERR_PATH), Err(()));
    assert_eq!(TypeTag::from(&Value::STR("x")), TypeTag::STR);
    assert_eq!(TypeTag::default(), TypeTag::UNIT);
    assert_eq!(TypeTag::try_from(9u8), Ok(TypeTag::BYTES));
    assert_eq!(TypeTag::try_from(10u8), Err(()));
    assert_eq!(u8::from(TypeTag::STR), 8);
    assert_eq!(AnswerCode::try_from(7u8), Ok(AnswerCode::ERR_USER));
    assert_eq!(AnswerCode::try_from(8u8), Err(()));
    assert_eq!(u8::from(AnswerCode::ERR_PATH), 5);
}
