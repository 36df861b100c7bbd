use revolute::rlog::color::{Color, ParseColorError};
use revolute::rlog::line::{decimal_len, LINE_CAPACITY};
use revolute::rlog::text::{same_text, text_len};
use revolute::rlog::Message;
use std::str::FromStr;

#[test]
fn colors_make_their_escape_sequences() {
    assert_eq!(Color::Red.make(), "\x1b[31m");
    assert_eq!(Color::Green.make(), "\x1b[32m");
    assert_eq!(Color::Blue.make(), "\x1b[34m");
    assert_eq!(Color::Reset.make(), "\x1b[0m");
}

#[test]
fn colors_name_their_severity() {
    assert_eq!(Color::Red.to_log_severity(), "ERROR");
    assert_eq!(Color::Green.to_log_severity(), "LOG");
    assert_eq!(Color::Blue.to_log_severity(), "WARNING");
}

#[test]
fn parsing_inverts_make() {
    for color in [Color::Red, Color::Green, Color::Blue, Color::Reset] {
        assert_eq!(Color::parse(color.make()), Ok(color));
        assert_eq!(Color::from_str(color.make()), Ok(color));
        assert_eq!(color.make().parse::<Color>(), Ok(color));
    }
}

#[test]
fn other_strings_are_no_color() {
    for s in ["", "red", "\x1b[33m", "\x1b[31", "\x1b[31m ", "\x1b[0m\x1b[0m", "\u{1b}[3\u{661}m"] {
        assert_eq!(Color::parse(s), Err(ParseColorError {}));
        assert_eq!(Color::from_str(s), Err(ParseColorError {}));
    }
}

#[test]
fn text_is_compared_and_measured_in_bytes() {
    assert!(same_text("", ""));
    assert!(same_text("abc", "abc"));
    assert!(!same_text("abc", "abd"));
    assert!(!same_text("abc", "ab"));
    assert!(!same_text("ab", "abc"));
    assert!(same_text("\u{e9}t\u{e9}", "\u{e9}t\u{e9}"));
    assert_eq!(text_len(""), 0);
    assert_eq!(text_len("abc"), 3);
    assert_eq!(text_len("\u{e9}t\u{e9}"), 5);
}

#[test]
fn decimal_len_counts_digits() {
    assert_eq!(decimal_len(0), 1);
    assert_eq!(decimal_len(9), 1);
    assert_eq!(decimal_len(10), 2);
    assert_eq!(decimal_len(99), 2);
    assert_eq!(decimal_len(100), 3);
    assert_eq!(decimal_len(18_446_744_073_709_551_615), 20);
}

#[test]
fn a_line_carries_color_severity_time_and_text() {
    let line = Message::new("\"da\"", Color::Green).fmt_at(12);
    assert_eq!(line.as_str(), "\x1b[32mLOG\x1b[0m 12s: \"da\"\n");
    let line = Message::new("overrun", Color::Red).fmt_at(0);
    assert_eq!(line.as_str(), "\x1b[31mERROR\x1b[0m 0s: overrun\n");
    let line = Message::new("", Color::Blue).fmt_at(18_446_744_073_709_551_615);
    assert_eq!(
        line.as_str(),
        "\x1b[34mWARNING\x1b[0m 18446744073709551615s: \n"
    );
    let line = Message::new("x", Color::Green).fmt_at(1_000_000);
    assert_eq!(line.as_str(), "\x1b[32mLOG\x1b[0m 1000000s: x\n");
}

#[test]
fn a_line_is_what_format_gives() {
    for (secs, text) in [(0u64, "a"), (7, "\"da\""), (10, ""), (4_294_967_296, "tick")] {
        let line = Message::new(text, Color::Blue).fmt_at(secs);
        assert_eq!(
            line.as_str(),
            format!("\x1b[34mWARNING\x1b[0m {}s: {}\n", secs, text)
        );
    }
}

#[test]
fn a_line_holds_at_most_its_capacity() {
    assert_eq!(LINE_CAPACITY, 48);
    // 5 + 3 + 4 + 1 + 1 + 3 + 1 = 18 bytes around the text
    let fitting = "012345678901234567890123456789";
    assert_eq!(fitting.len(), 30);
    let message = Message::new(fitting, Color::Green);
    assert!(message.fits(5));
    let line = message.fmt_at(5);
    assert_eq!(line.len(), 48);
    assert_eq!(
        line.as_str(),
        "\x1b[32mLOG\x1b[0m 5s: 012345678901234567890123456789\n"
    );
    // one more digit of time is one byte too many
    assert!(!message.fits(10));
    // and so is one more byte of text
    let long = "0123456789012345678901234567890";
    assert_eq!(long.len(), 31);
    assert!(!Message::new(long, Color::Green).fits(5));
    // bytes count, not characters
    let accented = "\u{e9}\u{e9}\u{e9}\u{e9}\u{e9}\u{e9}\u{e9}\u{e9}\u{e9}\u{e9}\u{e9}\u{e9}\u{e9}\u{e9}\u{e9}";
    assert_eq!(accented.chars().count(), 15);
    assert!(Message::new(accented, Color::Green).fits(5));
    assert_eq!(
        Message::new(accented, Color::Green).fmt_at(5).len(),
        48
    );
    assert!(!Message::new(accented, Color::Red).fits(5));
}

#[test]
fn a_line_sent_now_carries_the_uptime() {
    let line = Message::new("\"da\"", Color::Green).fmt().unwrap();
    let text = line.as_str();
    assert!(text.starts_with("\x1b[32mLOG\x1b[0m "));
    assert!(text.ends_with("s: \"da\"\n"));
    let secs = &text["\x1b[32mLOG\x1b[0m ".len()..text.len() - "s: \"da\"\n".len()];
    assert!(secs.parse::<u64>().is_ok());
    let long = "0123456789012345678901234567890123456789";
    assert!(Message::new(long, Color::Green).fmt().is_none());
}
