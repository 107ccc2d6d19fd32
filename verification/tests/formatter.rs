use rv8803::formatter::ByteMutWriter;
use rv8803::models::{common_padding, left_pad, pad_year, Year};

#[test]
fn a_new_writer_is_empty() {
    let mut buf = [0u8; 4];
    let writer = ByteMutWriter::new(&mut buf[..]);
    assert_eq!(writer.capacity(), 4);
    assert_eq!(writer.len(), 0);
    assert!(writer.empty());
    assert!(!writer.full());
    assert_eq!(writer.as_str(), "");
}

#[test]
fn write_str_appends() {
    let mut buf = [0u8; 8];
    let mut writer = ByteMutWriter::new(&mut buf[..]);
    writer.write_str("ab");
    assert_eq!(writer.as_str(), "ab");
    assert_eq!(writer.len(), 2);
    writer.write_str("cde");
    assert_eq!(writer.as_str(), "abcde");
    assert_eq!(writer.len(), 5);
    assert!(!writer.empty());
    assert!(!writer.full());
}

#[test]
fn write_str_drops_what_does_not_fit() {
    let mut buf = [0u8; 4];
    let mut writer = ByteMutWriter::new(&mut buf[..]);
    writer.write_str("abc");
    writer.write_str("defg");
    assert_eq!(writer.as_str(), "abcd");
    assert_eq!(writer.len(), 4);
    assert!(writer.full());
    writer.write_str("h");
    assert_eq!(writer.as_str(), "abcd");
    assert_eq!(buf, [b'a', b'b', b'c', b'd']);
}

#[test]
fn write_byte_appends_until_full() {
    let mut buf = [0u8; 2];
    let mut writer = ByteMutWriter::new(&mut buf[..]);
    writer.write_byte(b'x');
    writer.write_byte(b'y');
    writer.write_byte(b'z');
    assert_eq!(writer.as_str(), "xy");
    assert!(writer.full());
}

#[test]
fn clear_starts_over_and_keeps_the_bytes() {
    let mut buf = [0u8; 4];
    let mut writer = ByteMutWriter::new(&mut buf[..]);
    writer.write_str("abcd");
    writer.clear();
    assert!(writer.empty());
    assert_eq!(writer.len(), 0);
    assert_eq!(writer.as_str(), "");
    writer.write_str("xy");
    assert_eq!(writer.as_str(), "xy");
    assert_eq!(buf, [b'x', b'y', b'c', b'd']);
}

#[test]
fn as_str_returns_text_of_more_than_one_byte_per_character() {
    let mut buf = [0u8; 8];
    let mut writer = ByteMutWriter::new(&mut buf[..]);
    writer.write_str("é°");
    assert_eq!(writer.as_str(), "é°");
    assert_eq!(writer.len(), 4);
}

#[test]
fn an_empty_buffer_is_always_full() {
    let mut buf = [0u8; 0];
    let mut writer = ByteMutWriter::new(&mut buf[..]);
    assert!(writer.full());
    assert!(writer.empty());
    writer.write_str("abc");
    assert_eq!(writer.as_str(), "");
}

#[test]
fn common_padding_pads_single_digits() {
    assert_eq!(common_padding(0), "0");
    assert_eq!(common_padding(9), "0");
    assert_eq!(common_padding(10), "");
    assert_eq!(common_padding(255), "");
}

#[test]
fn left_pad_writes_two_digits() {
    let mut buf = [0u8; 2];
    let mut writer = ByteMutWriter::new(&mut buf[..]);
    assert_eq!(left_pad(&mut writer, 0), "00");
    assert_eq!(left_pad(&mut writer, 5), "05");
    assert_eq!(left_pad(&mut writer, 10), "10");
    assert_eq!(left_pad(&mut writer, 59), "59");
    assert_eq!(left_pad(&mut writer, 99), "99");
}

#[test]
fn left_pad_cuts_what_does_not_fit() {
    let mut buf = [0u8; 2];
    let mut writer = ByteMutWriter::new(&mut buf[..]);
    assert_eq!(left_pad(&mut writer, 123), "12");
    assert_eq!(left_pad(&mut writer, 255), "25");
    let mut wide = [0u8; 3];
    let mut writer = ByteMutWriter::new(&mut wide[..]);
    assert_eq!(left_pad(&mut writer, 123), "123");
    assert_eq!(left_pad(&mut writer, 7), "07");
    let mut narrow = [0u8; 1];
    let mut writer = ByteMutWriter::new(&mut narrow[..]);
    assert_eq!(left_pad(&mut writer, 7), "0");
}

#[test]
fn pad_year_writes_the_century_first() {
    let mut buf = [0u8; 4];
    let mut writer = ByteMutWriter::new(&mut buf[..]);
    assert_eq!(pad_year(&mut writer, 23, Year::TwentyFirstCentury(20)), "2023");
    assert_eq!(pad_year(&mut writer, 5, Year::TwentyFirstCentury(20)), "2005");
    assert_eq!(pad_year(&mut writer, 99, Year::TwentiethCentury(19)), "1999");
    assert_eq!(pad_year(&mut writer, 70, Year::TwentiethCentury(0)), "1970");
    assert_eq!(pad_year(&mut writer, 100, Year::TwentyFirstCentury(20)), "2010");
}
