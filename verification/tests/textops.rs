use enjoi::codec::unwrap_search_envelope;
use enjoi::text::{first_token_str, last_path_segment, parse_usize, slugify, usize_to_string};

#[test]
fn test_unwrap_search_envelope() {
    let json = r#"{"content":"<b>hi<\/b>"}"#;
    assert_eq!(unwrap_search_envelope(json).unwrap(), "<b>hi</b>".to_string());
}

#[test]
fn test_envelope_round_trip() {
    // A fragment with no literal escape pair: escaping its slashes and
    // quotes, wrapping it in a twelve-character prefix and a two-character
    // suffix, and unwrapping yields the fragment back exactly.
    let fragment = r#"<b a="x">y</b>"#;
    let escaped = r#"<b a=\"x\">y<\/b>"#;
    let wrapped = format!("{}{}{}", r#"{"content":""#, escaped, r#""}"#);
    assert_eq!(unwrap_search_envelope(&wrapped).unwrap(), fragment.to_string());
}

#[test]
fn test_slugify() {
    assert_eq!(slugify("One Piece"), "one-piece".to_string());
    assert_eq!(slugify("Dr. STONE: New World"), "dr-stone-new-world".to_string());
    assert_eq!(slugify("86"), "86".to_string());
}

#[test]
fn test_parse_usize_values() {
    assert_eq!(parse_usize("0"), Some(0));
    assert_eq!(parse_usize("142"), Some(142));
    assert_eq!(parse_usize(""), None);
    assert_eq!(parse_usize("12a"), None);
    assert_eq!(parse_usize("99999999999999999999999999"), None);
}

#[test]
fn test_usize_to_string() {
    assert_eq!(usize_to_string(0), "0".to_string());
    assert_eq!(usize_to_string(12345), "12345".to_string());
}

#[test]
fn test_last_path_segment() {
    assert_eq!(last_path_segment("/anime/naruto"), "naruto".to_string());
    assert_eq!(last_path_segment("naruto"), "naruto".to_string());
    assert_eq!(last_path_segment("/anime/"), "".to_string());
}

#[test]
fn test_first_token() {
    assert_eq!(first_token_str("vidcdn active"), Some("vidcdn".to_string()));
    assert_eq!(first_token_str("  solo  "), Some("solo".to_string()));
    assert_eq!(first_token_str("   "), None);
}
