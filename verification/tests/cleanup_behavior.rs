use uppy::cleanup::md5_hex;
use uppy::cleanup::md5_hex_chunked;
use uppy::cleanup::parse_choice;
use uppy::cleanup::temp_file_name;
use uppy::cleanup::DeletionChoice;

#[test]
fn digest_of_known_content() {
    let bytes = b"0123456789".to_vec();
    assert_eq!(md5_hex(&bytes), "781e5e245d69b566979b86e28d23f2c7");
}

#[test]
fn digest_of_empty_content() {
    let bytes: Vec<u8> = Vec::new();
    assert_eq!(md5_hex(&bytes), "d41d8cd98f00b204e9800998ecf8427e");
}

#[test]
fn temp_name_is_digest_with_suffix() {
    let bytes = b"0123456789".to_vec();
    assert_eq!(temp_file_name(&bytes), "781e5e245d69b566979b86e28d23f2c7.tmp");
}

#[test]
fn chunk_size_does_not_affect_the_digest() {
    let whole = b"0123456789".to_vec();
    let expected = md5_hex(&whole);
    let by_one: Vec<Vec<u8>> = whole.iter().map(|b| vec![*b]).collect();
    assert_eq!(md5_hex_chunked(&by_one), expected);
    let by_three = vec![b"012".to_vec(), b"345".to_vec(), b"678".to_vec(), b"9".to_vec()];
    assert_eq!(md5_hex_chunked(&by_three), expected);
    let by_many = vec![whole.clone()];
    assert_eq!(md5_hex_chunked(&by_many), expected);
}

#[test]
fn affirmative_answers() {
    assert_eq!(parse_choice("y"), DeletionChoice::Yes);
    assert_eq!(parse_choice("Y\n"), DeletionChoice::Yes);
    assert_eq!(parse_choice(" yes \r\n"), DeletionChoice::Yes);
    assert_eq!(parse_choice("YES"), DeletionChoice::Yes);
}

#[test]
fn negative_answers() {
    assert_eq!(parse_choice("n"), DeletionChoice::No);
    assert_eq!(parse_choice("No\n"), DeletionChoice::No);
    assert_eq!(parse_choice("\tNO "), DeletionChoice::No);
}

#[test]
fn answers_trimmed_of_unicode_whitespace() {
    assert_eq!(parse_choice("\u{00A0}no\u{00A0}"), DeletionChoice::No);
    assert_eq!(parse_choice(" yes\u{2003}"), DeletionChoice::Yes);
    assert_eq!(parse_choice("\u{3000}Y\u{0085}"), DeletionChoice::Yes);
}

#[test]
fn invalid_answers() {
    assert_eq!(parse_choice(""), DeletionChoice::Invalid);
    assert_eq!(parse_choice("\n"), DeletionChoice::Invalid);
    assert_eq!(parse_choice("yess"), DeletionChoice::Invalid);
    assert_eq!(parse_choice("nah"), DeletionChoice::Invalid);
    assert_eq!(parse_choice("y e s"), DeletionChoice::Invalid);
}
