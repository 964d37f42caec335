use rbd::codec::{
    base58_encode, hex_decode, hex_encode, md5_hex, sha1_hex, url_decode_component,
    url_encode_component, HexError,
};

#[test]
fn test_hex_round_trip() {
    let data = b"hello world";
    let enc = hex_encode(data);
    let dec = hex_decode(&enc).unwrap();
    assert_eq!(data, dec.as_slice());
}

#[test]
fn test_url_encode() {
    assert_eq!(url_encode_component("hello world"), "hello%20world");
    assert_eq!(url_encode_component("a=b&c=d"), "a%3Db%26c%3Dd");
    assert_eq!(url_encode_component("hello-world_~"), "hello-world_~");
}

#[test]
fn test_url_decode() {
    assert_eq!(url_decode_component("hello%20world").unwrap(), "hello world");
    assert_eq!(url_decode_component("a%3Db").unwrap(), "a=b");
}

#[test]
fn test_md5() {
    assert_eq!(md5_hex(b""), "d41d8cd98f00b204e9800998ecf8427e");
    assert_eq!(md5_hex(b"abc"), "900150983cd24fb0d6963f7d28e17f72");
}

#[test]
fn test_sha1() {
    assert_eq!(sha1_hex(b"abc"), "a9993e364706816aba3e25717850c26c9cd0d89d");
}

#[test]
fn hex_encode_is_lowercase() {
    assert_eq!(hex_encode(&[0x00, 0xab, 0xff, 0x10]), "00abff10");
}

#[test]
fn hex_decode_errors() {
    assert_eq!(hex_decode("abc"), Err(HexError::OddLength));
    assert_eq!(hex_decode("zz"), Err(HexError::InvalidDigit));
    assert_eq!(hex_decode("AbCd").unwrap(), vec![0xab, 0xcd]);
    assert_eq!(hex_decode("+f"), Err(HexError::InvalidDigit));
    assert_eq!(hex_decode("a\u{e9}a"), Err(HexError::InvalidDigit));
    assert_eq!(hex_decode("\u{e9}"), Err(HexError::InvalidDigit));
    assert_eq!(hex_decode("").unwrap(), Vec::<u8>::new());
}

#[test]
fn url_encode_multibyte_and_kept_marks() {
    assert_eq!(url_encode_component("中"), "%E4%B8%AD");
    assert_eq!(url_encode_component("!*()'"), "!*()'");
    assert_eq!(url_encode_component("a.b"), "a.b");
}

#[test]
fn url_decode_invalid_utf8() {
    assert!(url_decode_component("%FF").is_err());
    assert_eq!(url_decode_component("%zz").unwrap(), "%zz");
}

#[test]
fn base58_examples() {
    assert_eq!(base58_encode(&[]), "");
    assert_eq!(base58_encode(&[0, 0]), "FF");
    assert_eq!(base58_encode(&[57]), "f");
    assert_eq!(base58_encode(&[58]), "cF");
    assert_eq!(base58_encode(&[0, 1]), "Fc");
}

#[test]
fn url_decoding_undoes_encoding() {
    for s in ["", "hello world", "番剧 第1话", "100%", "a.b/c?d=e&f", "emoji 😀 ~!*()'"] {
        assert_eq!(url_decode_component(&url_encode_component(s)).unwrap(), s);
    }
}

#[test]
fn base58_of_numbers_wider_than_64_bits() {
    assert_eq!(base58_encode(&[1, 0, 0, 0, 0, 0, 0, 0, 0]), "CUh3YBqLzbs");
    assert_eq!(base58_encode(&[0, 0, 1, 255, 255, 255, 255, 255, 255, 255, 255, 255, 255]), "FFb1H1gpevNJiD56");
    assert_eq!(base58_encode(&[0]), "F");
}
