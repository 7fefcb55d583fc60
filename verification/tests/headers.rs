use witness_tools::headers::{
    missing_colon_message, parse_header_line, parse_rpc_headers, trim, white_space, HeaderError,
};

fn lines(texts: &[&str]) -> Vec<String> {
    texts.iter().map(|t| t.to_string()).collect()
}

#[test]
fn white_space_is_that_of_unicode() {
    for u in 0..=0x10_ffffu32 {
        if let Some(c) = char::from_u32(u) {
            assert_eq!(white_space(c), c.is_whitespace(), "{u:x}");
        }
    }
}

#[test]
fn both_ends_are_trimmed() {
    for text in ["", " ", "a", " a", "a ", "\t a b \n", "\u{3000}x\u{a0}", "\u{200b}x"] {
        assert_eq!(trim(text), text.trim());
    }
}

#[test]
fn a_line_gives_a_header() {
    let (name, value) = parse_header_line(" X-Api-Key :  Se:cret ").ok().unwrap();
    assert_eq!(name.as_str(), "x-api-key");
    assert_eq!(value.as_bytes(), b"Se:cret");
    let (name, value) = parse_header_line("a:").ok().unwrap();
    assert_eq!(name.as_str(), "a");
    assert_eq!(value.as_bytes(), b"");
    let (_, value) = parse_header_line("a:\u{e9}\tb").ok().unwrap();
    assert_eq!(value.as_bytes(), "\u{e9}\tb".as_bytes());
}

#[test]
fn every_character_of_a_name_and_a_value() {
    for u in 0..0x300u32 {
        let c = char::from_u32(u).unwrap();
        if c != ':' {
            let line = format!("x{c}x:v");
            let expected = format!("x{c}x").parse::<http::HeaderName>();
            match (parse_header_line(&line), expected) {
                (Ok((name, _)), Ok(known)) => assert_eq!(name, known),
                (Err(HeaderError::Name(_)), Err(_)) => (),
                _ => panic!("{u:x}"),
            }
        }
        let line = format!("x:v{c}v");
        match (parse_header_line(&line), format!("v{c}v").parse::<http::HeaderValue>()) {
            (Ok((_, value)), Ok(known)) => assert_eq!(value, known),
            (Err(HeaderError::Value(_)), Err(_)) => (),
            _ => panic!("{u:x}"),
        }
    }
}

#[test]
fn token_characters() {
    let line = "!#$%&'*+-.^_`|~09azAZ:v";
    let (name, _) = parse_header_line(line).ok().unwrap();
    assert_eq!(name.as_str(), "!#$%&'*+-.^_`|~09azaz");
    for c in "\"(),/;<=>?@[\\]{} \u{7f}\u{e9}".chars() {
        assert!(matches!(parse_header_line(&format!("a{c}b:v")), Err(HeaderError::Name(_))), "{c}");
    }
}

#[test]
fn longest_name() {
    let longest = "a".repeat(65_535);
    assert!(parse_header_line(&format!("{longest}:v")).is_ok());
    assert!(matches!(parse_header_line(&format!("{longest}a:v")), Err(HeaderError::Name(_))));
}

#[test]
fn faults_of_a_line() {
    match parse_header_line("no colon") {
        Err(HeaderError::MissingColon(line)) => {
            assert_eq!(line, "no colon");
            assert_eq!(missing_colon_message(&line), "bad header: no colon");
        }
        _ => panic!(),
    }
    assert!(matches!(parse_header_line(""), Err(HeaderError::MissingColon(_))));
    assert!(matches!(parse_header_line(": v"), Err(HeaderError::Name(_))));
    assert!(matches!(parse_header_line("a b:v"), Err(HeaderError::Name(_))));
    assert!(matches!(parse_header_line("a:v\nw"), Err(HeaderError::Value(_))));
    assert!(matches!(parse_header_line("a b:v\nw"), Err(HeaderError::Name(_))));
}

#[test]
fn the_last_line_of_a_name_wins() {
    let map = parse_rpc_headers(&lines(&["A:1", "b:2", "a: 3", "C:4"])).ok().unwrap();
    assert_eq!(map.len(), 3);
    assert_eq!(map.get("a").unwrap().as_bytes(), b"3");
    assert_eq!(map.get("b").unwrap().as_bytes(), b"2");
    assert_eq!(map.get("c").unwrap().as_bytes(), b"4");
    assert_eq!(map.get_all("a").iter().count(), 1);
    assert_eq!(parse_rpc_headers(&[]).ok().unwrap().len(), 0);
}

#[test]
fn the_first_fault_is_reported() {
    match parse_rpc_headers(&lines(&["a:1", "bad", "b c:2"])) {
        Err(HeaderError::MissingColon(line)) => assert_eq!(line, "bad"),
        _ => panic!(),
    }
    assert!(matches!(parse_rpc_headers(&lines(&["a b:2", "bad"])), Err(HeaderError::Name(_))));
    assert!(matches!(parse_rpc_headers(&lines(&["a:\u{1}", "bad"])), Err(HeaderError::Value(_))));
}

#[test]
fn room_for_names() {
    let many: Vec<String> = (0..6_554).map(|i| format!("h{i}:{i}")).collect();
    let map = parse_rpc_headers(&many).ok().unwrap();
    assert_eq!(map.len(), 6_554);
    assert_eq!(map.get("h6553").unwrap().as_bytes(), b"6553");
    let too_many: Vec<String> = (0..24_577).map(|i| format!("h{i}:{i}")).collect();
    assert!(matches!(parse_rpc_headers(&too_many), Err(HeaderError::TooMany(_))));
}

#[test]
fn many_lines_of_few_names() {
    let repeated: Vec<String> = (0..7_000).map(|i| format!("h{}:{i}", i % 3)).collect();
    let map = parse_rpc_headers(&repeated).ok().unwrap();
    assert_eq!(map.len(), 3);
    assert_eq!(map.get("h0").unwrap().as_bytes(), b"6999");
    assert_eq!(map.get("h2").unwrap().as_bytes(), b"6998");
}
