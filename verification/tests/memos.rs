use zcashlc::memo::{memo_or_default, memo_text, MEMO_LEN};

fn padded(text: &[u8]) -> Vec<u8> {
    let mut memo = text.to_vec();
    memo.resize(MEMO_LEN, 0);
    memo
}

#[test]
fn memo_text_reads_text() {
    assert_eq!(memo_text(Some(&padded(b"thanks"))), "thanks");
    assert_eq!(memo_text(Some(b"thanks")), "thanks");
    assert_eq!(memo_text(Some("gr\u{fc}\u{df}e".as_bytes())), "gr\u{fc}\u{df}e");
    assert_eq!(memo_text(Some(&padded(b"a\0b"))), "a\0b");
}

#[test]
fn memo_text_is_empty_without_text() {
    assert_eq!(memo_text(None), "");
    assert_eq!(memo_text(Some(b"")), "");
    assert_eq!(memo_text(Some(&padded(b""))), "");
    let mut empty = padded(b"");
    empty[0] = 0xF6;
    assert_eq!(memo_text(Some(&empty)), "");
    let mut arbitrary = padded(b"xabc");
    arbitrary[0] = 0xFF;
    assert_eq!(memo_text(Some(&arbitrary)), "");
    let mut future = padded(b"xabc");
    future[0] = 0xF5;
    assert_eq!(memo_text(Some(&future)), "");
    assert_eq!(memo_text(Some(&vec![b'a'; 513])), "");
}

#[test]
fn memo_with_invalid_utf8_is_shown_as_empty() {
    assert_eq!(memo_text(Some(&padded(&[b'a', 0xC3]))), "");
    assert_eq!(memo_text(Some(&padded(&[0x80, b'a']))), "");
    assert_eq!(memo_text(Some(&[0xE2, 0x82])), "");
    assert_eq!(memo_text(Some(&[0xF4, 0x90, 0x80, 0x80])), "");
}

#[test]
fn memo_or_default_gives_the_text_or_nothing() {
    assert_eq!(memo_or_default(Some(String::from("x"))), "x");
    assert_eq!(memo_or_default(None), "");
}
