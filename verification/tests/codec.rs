use ccm_dsm::codec::{decode_base64, decode_hex};
use ccm_dsm::text::{
    find, join, same_text, split_once, strip_prefix, to_decimal, trim, trim_trailing_slashes,
};

#[test]
fn base64_is_padded_and_canonical() {
    for (text, bytes) in [
        ("", vec![]),
        ("AA==", vec![0]),
        ("AAE=", vec![0, 1]),
        ("AAEC", vec![0, 1, 2]),
        ("+/+/", vec![0xfb, 0xff, 0xbf]),
        ("Zm9vYmFy", b"foobar".to_vec()),
    ] {
        assert_eq!(decode_base64(text), Ok(bytes));
    }
    for text in ["AA", "AA=", "AB==", "AAE", "AAF=", "A", "-_-_", "AA==\n", "AA==AA=="] {
        assert!(decode_base64(text).is_err(), "{text}");
    }
    assert_eq!(decode_base64("!AAA"), Err("InvalidByte(0, 33)".to_string()));
}

#[test]
fn hexadecimal_has_either_case() {
    assert_eq!(decode_hex(""), Ok(vec![]));
    assert_eq!(decode_hex("00fFa9"), Ok(vec![0, 255, 169]));
    assert_eq!(decode_hex("abc"), Err("Odd number of digits".to_string()));
    assert_eq!(decode_hex("0g"), Err("Invalid character 'g' at position 1".to_string()));
}

#[test]
fn text_is_divided_at_the_first_match() {
    assert_eq!(find("a::b::c", "::"), Some(1));
    assert_eq!(find("\u{e9}::", "::"), Some(1));
    assert_eq!(find("abc", "::"), None);
    assert_eq!(split_once("a=b=c", "="), Some(("a", "b=c")));
    assert_eq!(split_once("abc", "="), None);
    assert_eq!(strip_prefix("kbs:///x", "kbs:///"), Some("x"));
    assert_eq!(strip_prefix("kbs://x", "kbs:///"), None);
    assert!(same_text("a", "a"));
    assert!(!same_text("a", "b"));
}

#[test]
fn text_is_trimmed_and_joined() {
    assert_eq!(trim("\u{85}\u{3000} a b\t"), "a b");
    assert_eq!(trim_trailing_slashes("https://a//"), "https://a");
    assert_eq!(trim_trailing_slashes("//"), "");
    assert_eq!(join(&vec!["a".to_string(), "b".to_string()], ","), "a,b");
    assert_eq!(join(&vec![], ","), "");
    assert_eq!(to_decimal(0), "0");
    assert_eq!(to_decimal(1907), "1907");
}
