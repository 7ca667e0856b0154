use procfd::model::IpAddress;

fn v6(groups: [u16; 8]) -> IpAddress {
    let mut bytes = [0u8; 16];
    for i in 0..8 {
        bytes[2 * i] = (groups[i] >> 8) as u8;
        bytes[2 * i + 1] = (groups[i] & 0xff) as u8;
    }
    IpAddress::V6(bytes)
}

#[test]
fn four_bytes_are_dotted_decimal() {
    assert_eq!(IpAddress::V4([127, 0, 0, 1]).to_text(), "127.0.0.1");
    assert_eq!(IpAddress::V4([0, 0, 0, 0]).to_text(), "0.0.0.0");
    assert_eq!(IpAddress::V4([255, 255, 255, 255]).to_text(), "255.255.255.255");
    assert_eq!(IpAddress::V4([192, 168, 1, 10]).to_text(), "192.168.1.10");
}

#[test]
fn the_zero_address_is_a_double_colon() {
    assert_eq!(v6([0, 0, 0, 0, 0, 0, 0, 0]).to_text(), "::");
}

#[test]
fn the_loopback_address_is_compressed() {
    assert_eq!(v6([0, 0, 0, 0, 0, 0, 0, 1]).to_text(), "::1");
}

#[test]
fn a_run_in_the_middle_is_compressed() {
    assert_eq!(v6([0x2001, 0xdb8, 0, 0, 0, 0, 0, 1]).to_text(), "2001:db8::1");
}

#[test]
fn a_run_at_the_end_is_compressed() {
    assert_eq!(v6([1, 0, 0, 0, 0, 0, 0, 0]).to_text(), "1::");
    assert_eq!(v6([0xfe80, 0, 0, 0, 0, 0, 0, 0]).to_text(), "fe80::");
}

#[test]
fn the_longest_run_is_compressed() {
    assert_eq!(v6([1, 0, 0, 2, 0, 0, 0, 3]).to_text(), "1:0:0:2::3");
}

#[test]
fn the_leftmost_of_equal_runs_is_compressed() {
    assert_eq!(v6([1, 0, 0, 2, 0, 0, 3, 4]).to_text(), "1::2:0:0:3:4");
    assert_eq!(v6([0x2001, 0xdb8, 0, 0, 1, 0, 0, 1]).to_text(), "2001:db8::1:0:0:1");
}

#[test]
fn a_single_zero_group_is_not_compressed() {
    assert_eq!(v6([1, 0, 2, 3, 4, 5, 6, 7]).to_text(), "1:0:2:3:4:5:6:7");
    assert_eq!(v6([0, 1, 2, 3, 4, 5, 6, 7]).to_text(), "0:1:2:3:4:5:6:7");
    assert_eq!(v6([1, 2, 3, 4, 5, 6, 7, 0]).to_text(), "1:2:3:4:5:6:7:0");
}

#[test]
fn groups_are_lower_case_without_leading_zeros() {
    assert_eq!(
        v6([0xffff, 0xffff, 0xffff, 0xffff, 0xffff, 0xffff, 0xffff, 0xffff]).to_text(),
        "ffff:ffff:ffff:ffff:ffff:ffff:ffff:ffff"
    );
    assert_eq!(v6([0xABCD, 0x0012, 0x0100, 0x000f, 1, 2, 3, 4]).to_text(), "abcd:12:100:f:1:2:3:4");
    assert_eq!(v6([0, 0, 0, 0, 0, 0xffff, 0x7f00, 1]).to_text(), "::ffff:7f00:1");
}

fn parsed(text: &str) -> Option<IpAddress> {
    procfd::net_parse::parse_ipv6(text)
}

#[test]
fn texts_of_addresses_are_read() {
    assert_eq!(parsed("::"), Some(v6([0, 0, 0, 0, 0, 0, 0, 0])));
    assert_eq!(parsed("::1"), Some(v6([0, 0, 0, 0, 0, 0, 0, 1])));
    assert_eq!(parsed("1::"), Some(v6([1, 0, 0, 0, 0, 0, 0, 0])));
    assert_eq!(parsed("2001:db8::1"), Some(v6([0x2001, 0xdb8, 0, 0, 0, 0, 0, 1])));
    assert_eq!(parsed("1:2:3:4:5:6:7:8"), Some(v6([1, 2, 3, 4, 5, 6, 7, 8])));
    assert_eq!(parsed("1::2:0:0:3:4"), Some(v6([1, 0, 0, 2, 0, 0, 3, 4])));
    assert_eq!(parsed("1:2:3:4:5:6:7::"), Some(v6([1, 2, 3, 4, 5, 6, 7, 0])));
    assert_eq!(parsed("::2:3:4:5:6:7:8"), Some(v6([0, 2, 3, 4, 5, 6, 7, 8])));
    assert_eq!(parsed("ffff:ffff:ffff:ffff:ffff:ffff:ffff:ffff"), Some(v6([0xffff; 8])));
}

#[test]
fn digits_are_read_in_either_case_and_with_leading_zeros() {
    assert_eq!(parsed("2001:DB8::A"), Some(v6([0x2001, 0xdb8, 0, 0, 0, 0, 0, 10])));
    assert_eq!(parsed("0001:0002::000f"), Some(v6([1, 2, 0, 0, 0, 0, 0, 15])));
    assert_eq!(parsed("0:0:0:0:0:0:0:0"), Some(v6([0; 8])));
}

#[test]
fn other_texts_are_refused() {
    for text in [
        "", ":", ":::", "::::", "1", "1:2:3:4:5:6:7", "1:2:3:4:5:6:7:8:9", "1::2::3", "12345::", "g::",
        "1:2:3:4:5:6:7:8::", "::1:2:3:4:5:6:7:8", ":1", "1:", "::1:", ":1::", "[::1]", "1.2.3.4",
        "::ffff:1.2.3.4", " ::1", "::1 ", "\u{e9}::", "1:2:3:4:5:6:7:", ":1:2:3:4:5:6:7",
    ] {
        assert_eq!(parsed(text), None, "{}", text);
    }
}

#[test]
fn the_text_of_an_address_is_read_back_as_the_address() {
    let samples: [[u16; 8]; 12] = [
        [0, 0, 0, 0, 0, 0, 0, 0],
        [0, 0, 0, 0, 0, 0, 0, 1],
        [1, 0, 0, 0, 0, 0, 0, 0],
        [0x2001, 0xdb8, 0, 0, 1, 0, 0, 1],
        [1, 0, 0, 2, 0, 0, 0, 3],
        [1, 0, 0, 2, 0, 0, 3, 4],
        [1, 0, 2, 3, 4, 5, 6, 7],
        [0, 1, 2, 3, 4, 5, 6, 7],
        [1, 2, 3, 4, 5, 6, 7, 0],
        [0xffff, 0xffff, 0xffff, 0xffff, 0xffff, 0xffff, 0xffff, 0xffff],
        [0, 0, 0, 0, 0, 0xffff, 0x7f00, 1],
        [0xfe80, 0, 0, 0, 0x0202, 0xb3ff, 0xfe1e, 0x8329],
    ];
    for groups in samples {
        let address = v6(groups);
        let text = address.to_text();
        let back = parsed(&text).unwrap();
        assert_eq!(back, address);
        assert_eq!(back.to_text(), text);
    }
}
