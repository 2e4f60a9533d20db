use cgi_server::client::{get_req_uri, response_head, ConnInfo};
use cgi_server::text::{
    ascii_to_upper, parse_u16_bytes, parse_u16_str, parse_u32_str, trim_bytes, u16_to_dec_string,
    u32_to_dec_string,
};

#[test]
fn decimal_rendering() {
    assert_eq!(u32_to_dec_string(0), "0");
    assert_eq!(u32_to_dec_string(7), "7");
    assert_eq!(u32_to_dec_string(1234), "1234");
    assert_eq!(u32_to_dec_string(4294967295), "4294967295");
    assert_eq!(u16_to_dec_string(8080), "8080");
}

#[test]
fn decimal_parsing() {
    assert_eq!(parse_u32_str("0"), Some(0));
    assert_eq!(parse_u32_str("007"), Some(7));
    assert_eq!(parse_u32_str("+80"), Some(80));
    assert_eq!(parse_u32_str(""), None);
    assert_eq!(parse_u32_str("+"), None);
    assert_eq!(parse_u32_str("12a"), None);
    assert_eq!(parse_u32_str("-1"), None);
    assert_eq!(parse_u32_str("4294967295"), Some(4294967295));
    assert_eq!(parse_u32_str("4294967296"), None);
    assert_eq!(parse_u16_str("65535"), Some(65535));
    assert_eq!(parse_u16_str("65536"), None);
    assert_eq!(parse_u16_bytes(b"8080"), Some(8080));
    assert_eq!(parse_u16_bytes(b"70000"), None);
    assert_eq!(parse_u16_bytes(b"20 0"), None);
}

#[test]
fn upper_casing_ascii() {
    assert_eq!(ascii_to_upper("content-type"), "CONTENT-TYPE");
    assert_eq!(ascii_to_upper("X-Foo_1"), "X-FOO_1");
    assert_eq!(ascii_to_upper(""), "");
}

#[test]
fn trimming_bytes() {
    assert_eq!(trim_bytes(b"  a b \r\n"), b"a b".to_vec());
    assert_eq!(trim_bytes(b"\t\r\n "), Vec::<u8>::new());
    assert_eq!(trim_bytes(b"x"), b"x".to_vec());
}

#[test]
fn request_uri_reassembly() {
    assert_eq!(
        get_req_uri(&"/app".to_string(), &"/x".to_string(), Some(&"a=1".to_string())),
        "/app/x?a=1"
    );
    assert_eq!(get_req_uri(&"".to_string(), &"/x".to_string(), None), "/x");
}

#[test]
fn response_head_serialization() {
    let headers = vec![("Content-Type".to_string(), "text/plain".to_string())];
    assert_eq!(
        response_head(200, &"OK".to_string(), &headers),
        "Status: 200 OK\r\nContent-Type: text/plain\r\n\r\n"
    );
    assert_eq!(response_head(302, &"Found".to_string(), &Vec::new()), "Status: 302 Found\r\n\r\n");
}

#[test]
fn conn_info_carries_the_ends() {
    let c = ConnInfo {
        remote_addr: "10.0.0.1".to_string(),
        remote_port: 55000,
        local_port: 8080,
        local_addr: "server".to_string(),
    };
    assert_eq!(c.remote_addr, "10.0.0.1");
    assert_eq!(c.remote_port, 55000);
    assert_eq!(c.local_port, 8080);
    assert_eq!(c.local_addr, "server");
}
