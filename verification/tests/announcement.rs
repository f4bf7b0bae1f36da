use lan_transfer::announcement::{encode_announcement, parse_announcement, parse_datagram};

#[test]
fn beacon_is_tag_id_hostname_port() {
    assert_eq!(
        encode_announcement("1b4e28ba-2fa1-4d2b-883f-0016d3cca427", "laptop", 49152),
        "HERE:1b4e28ba-2fa1-4d2b-883f-0016d3cca427:laptop:49152"
    );
    assert_eq!(encode_announcement("", "", 0), "HERE:::0");
    assert_eq!(encode_announcement("id", "hôte", 65535), "HERE:id:hôte:65535");
}

#[test]
fn beacon_is_read_back() {
    for (id, host, port) in [
        ("1b4e28ba-2fa1-4d2b-883f-0016d3cca427", "laptop", 49152u16),
        ("x", "my machine", 1),
        ("", "", 0),
        ("id", "ホスト", 65535),
    ] {
        let text = encode_announcement(id, host, port);
        let a = parse_announcement(&text).unwrap();
        assert_eq!(a.instance_id, id);
        assert_eq!(a.hostname, host);
        assert_eq!(a.tcp_port, port);
        let a = parse_datagram(text.as_bytes()).unwrap();
        assert_eq!(a.instance_id, id);
        assert_eq!(a.hostname, host);
        assert_eq!(a.tcp_port, port);
    }
}

#[test]
fn beacon_with_a_colon_in_the_hostname_is_not_read_back() {
    let text = encode_announcement("id", "a:b", 80);
    assert!(parse_announcement(&text).is_none());
}

#[test]
fn beacon_fields_are_taken_as_they_are() {
    let a = parse_announcement("HERE: id : host :80").unwrap();
    assert_eq!(a.instance_id, " id ");
    assert_eq!(a.hostname, " host ");
    assert_eq!(a.tcp_port, 80);
    let a = parse_announcement("HERE:::+7").unwrap();
    assert_eq!(a.instance_id, "");
    assert_eq!(a.hostname, "");
    assert_eq!(a.tcp_port, 7);
}

#[test]
fn text_with_another_number_of_fields_says_nothing() {
    for text in ["", "HERE", "HERE:id", "HERE:id:host", "HERE:id:host:80:", "HERE:id:host:80:x", "HERE:id:ho:st:80", ":::"] {
        assert!(parse_announcement(text).is_none(), "{:?}", text);
    }
}

#[test]
fn text_with_another_tag_says_nothing() {
    for text in ["HELLO:id:host:80", "here:id:host:80", "HERE :id:host:80", " HERE:id:host:80", ":id:host:80", "HER:id:host:80", "HEREX:id:host:80"] {
        assert!(parse_announcement(text).is_none(), "{:?}", text);
    }
}

#[test]
fn text_with_a_port_that_is_no_port_says_nothing() {
    for port in ["", "http", "80a", "-1", "65536", "8 0", " 80", "80\n", "0x50", "1.5"] {
        let text = format!("HERE:id:host:{}", port);
        assert!(parse_announcement(&text).is_none(), "{:?}", text);
    }
}

#[test]
fn datagram_that_is_not_utf8_says_nothing() {
    assert!(parse_datagram(&[0xff, 0xfe, 0xfd]).is_none());
    let mut bytes = b"HERE:id:ho".to_vec();
    bytes.push(0xff);
    bytes.extend_from_slice(b"st:80");
    assert!(parse_datagram(&bytes).is_none());
    // a truncated multi-byte character
    let mut bytes = b"HERE:id:h".to_vec();
    bytes.push(0xc3);
    bytes.extend_from_slice(b":80");
    assert!(parse_datagram(&bytes).is_none());
    assert!(parse_datagram(&[]).is_none());
}

#[test]
fn datagram_is_read_as_its_text() {
    let a = parse_datagram("HERE:abc:Büro-PC:53030".as_bytes()).unwrap();
    assert_eq!(a.instance_id, "abc");
    assert_eq!(a.hostname, "Büro-PC");
    assert_eq!(a.tcp_port, 53030);
    assert!(parse_datagram(b"<invalid>").is_none());
}
