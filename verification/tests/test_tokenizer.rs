use crabml_core::error::ErrorKind;
use crabml_core::tokenizer::Tokenizer;
use crabml_core::tokenizer::Utf8Buf;
use crabml_core::tokenizer::is_utf8_start;

fn sample_tokenizer() -> Tokenizer {
    let tokens: Vec<String> =
        ["<s>", "</s>", "a", "b", "ab", "abc", "é"].iter().map(|s| s.to_string()).collect();
    Tokenizer::new(tokens, 0, 1)
}

#[test]
fn test_tokenizer_vocab_and_lookup() {
    let t = sample_tokenizer();
    assert_eq!(t.vocab().len(), 7);
    assert_eq!(t.eos_token(), 1);
    assert_eq!(t.token(4), "ab");
    assert_eq!(t.token(6), "é");
}

#[test]
fn test_tokenizer_encode_greedy_longest_match() {
    let t = sample_tokenizer();
    // "abca" = longest match "abc", then "a"
    assert_eq!(t.encode("abca", false, false).unwrap(), vec![5, 2]);
    // with sentinels framed around the ids
    assert_eq!(t.encode("ab", true, true).unwrap(), vec![0, 4, 1]);
    // a byte no token matches is skipped
    assert_eq!(t.encode("a!b", false, false).unwrap(), vec![2, 3]);
    assert_eq!(t.encode("", false, false).unwrap(), Vec::<usize>::new());
}

#[test]
fn test_tokenizer_decode() {
    let mut t = sample_tokenizer();
    assert_eq!(t.decode(2).unwrap(), "a");
    assert_eq!(t.decode(6).unwrap(), "é");
    assert_eq!(t.decode(7).unwrap_err(), ErrorKind::InvalidArgument);
}

#[test]
fn test_utf8_buf_passes_valid_bytes_through() {
    let mut buf = Utf8Buf::new();
    assert!(buf.is_valid());
    assert_eq!(buf.step(b"hello"), "hello");
    assert_eq!(buf.step("é".as_bytes()), "é");
}

#[test]
fn test_utf8_buf_joins_split_character() {
    // "é" is [0xC3, 0xA9]; split across two steps the first half is
    // withheld and the pair released once complete
    let mut buf = Utf8Buf::new();
    assert_eq!(buf.step(&[0xC3]), "");
    assert!(!buf.is_valid());
    assert_eq!(buf.step(&[0xA9]), "é");
    assert!(buf.is_valid());
}

#[test]
fn test_utf8_buf_flushes_hopeless_bytes() {
    // four buffered bytes that never complete a character come out as
    // replacement characters
    let mut buf = Utf8Buf::new();
    assert_eq!(buf.step(&[0xFF]), "");
    assert_eq!(buf.step(&[0xFF]), "");
    assert_eq!(buf.step(&[0xFF]), "");
    assert_eq!(buf.step(&[0xFF]), "\u{FFFD}\u{FFFD}\u{FFFD}\u{FFFD}");
    // the buffer is clean again afterwards
    assert_eq!(buf.step(b"ok"), "ok");
    assert!(buf.is_valid());
}

#[test]
fn test_is_utf8_start() {
    assert!(is_utf8_start(b'a'));
    assert!(is_utf8_start(0xC3));
    assert!(is_utf8_start(0xF0));
    assert!(!is_utf8_start(0x80));
    assert!(!is_utf8_start(0xA9));
    assert!(!is_utf8_start(0xBF));
}
