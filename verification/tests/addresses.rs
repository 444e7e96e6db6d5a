use umbra::text::{push_groups, push_number, IpAddress};

fn number(n: u16, hex: bool) -> String {
    let mut out = Vec::new();
    push_number(&mut out, n, hex);
    String::from_utf8(out).unwrap()
}

#[test]
fn decimal_numbers() {
    assert_eq!(number(0, false), "0");
    assert_eq!(number(7, false), "7");
    assert_eq!(number(10, false), "10");
    assert_eq!(number(80, false), "80");
    assert_eq!(number(8080, false), "8080");
    assert_eq!(number(65535, false), "65535");
}

#[test]
fn hexadecimal_numbers() {
    assert_eq!(number(0, true), "0");
    assert_eq!(number(10, true), "a");
    assert_eq!(number(16, true), "10");
    assert_eq!(number(0xdb8, true), "db8");
    assert_eq!(number(0xffff, true), "ffff");
}

#[test]
fn push_number_appends() {
    let mut out = b"port ".to_vec();
    push_number(&mut out, 443, false);
    assert_eq!(out, b"port 443".to_vec());
}

#[test]
fn groups_are_joined_by_the_separator() {
    let mut out = Vec::new();
    push_groups(&mut out, &[], false, b'.');
    assert!(out.is_empty());
    push_groups(&mut out, &[5], false, b'.');
    assert_eq!(out, b"5".to_vec());
    let mut out = b"x".to_vec();
    push_groups(&mut out, &[1, 20, 300], false, b'-');
    assert_eq!(out, b"x1-20-300".to_vec());
}

#[test]
fn version_four_text_is_dotted_decimal() {
    assert_eq!(IpAddress::V4 { octets: [127, 0, 0, 1] }.to_text(), b"127.0.0.1".to_vec());
    assert_eq!(IpAddress::V4 { octets: [0, 0, 0, 0] }.to_text(), b"0.0.0.0".to_vec());
    assert_eq!(
        IpAddress::V4 { octets: [255, 255, 255, 255] }.to_text(),
        b"255.255.255.255".to_vec()
    );
    assert_eq!(IpAddress::V4 { octets: [192, 168, 10, 9] }.to_text(), b"192.168.10.9".to_vec());
}

fn v6(groups: [u16; 8]) -> String {
    String::from_utf8(IpAddress::V6 { groups }.to_text()).unwrap()
}

#[test]
fn version_six_text_leaves_out_the_longest_zero_run() {
    assert_eq!(v6([0, 0, 0, 0, 0, 0, 0, 0]), "::");
    assert_eq!(v6([0, 0, 0, 0, 0, 0, 0, 1]), "::1");
    assert_eq!(v6([1, 0, 0, 0, 0, 0, 0, 0]), "1::");
    assert_eq!(v6([0x2001, 0xdb8, 0, 0, 0, 0, 0, 1]), "2001:db8::1");
    assert_eq!(v6([0x2001, 0xdb8, 0, 0x1, 0xabcd, 0, 0xffff, 0x10]), "2001:db8:0:1:abcd:0:ffff:10");
    assert_eq!(v6([1, 0, 0, 2, 0, 0, 0, 3]), "1:0:0:2::3");
    assert_eq!(v6([1, 0, 0, 2, 0, 0, 3, 4]), "1::2:0:0:3:4");
    assert_eq!(v6([1, 0, 2, 0, 3, 0, 4, 0]), "1:0:2:0:3:0:4:0");
    assert_eq!(v6([0xfe80, 0, 0, 0, 0xa, 0xb, 0xc, 0xd]), "fe80::a:b:c:d");
    assert_eq!(v6([1, 2, 3, 4, 5, 6, 0, 0]), "1:2:3:4:5:6::");
    assert_eq!(v6([0, 0, 1, 2, 3, 4, 5, 6]), "::1:2:3:4:5:6");
    assert_eq!(v6([1, 2, 3, 4, 5, 6, 7, 8]), "1:2:3:4:5:6:7:8");
}

#[test]
fn mapped_version_four_address_is_dotted() {
    assert_eq!(v6([0, 0, 0, 0, 0, 0xffff, 0xc000, 0x0201]), "::ffff:192.0.2.1");
    assert_eq!(v6([0, 0, 0, 0, 0, 0xffff, 0, 0]), "::ffff:0.0.0.0");
    assert_eq!(v6([0, 0, 0, 0, 0, 0xffff, 0xffff, 0xffff]), "::ffff:255.255.255.255");
    assert_eq!(v6([0, 0, 0, 0, 1, 0xffff, 0xc000, 0x0201]), "::1:ffff:c000:201");
}

#[test]
fn write_text_appends() {
    let mut out = b"for=".to_vec();
    IpAddress::V4 { octets: [10, 0, 0, 2] }.write_text(&mut out);
    assert_eq!(out, b"for=10.0.0.2".to_vec());
}
