//! Log lines for a remote viewer.
//!
//! A [`Message`] is a text with the color that tells its severity. It is
//! turned into a line only when it is sent, and carries the time of that
//! moment: `<color><severity><reset> <seconds>s: <text>` and a line feed,
//! in at most 48 bytes.
use crate::clock::uptime_micros;
use color::Color;
use line::{
    decimal, decimal_len, lemma_decimal_is_ascii, line_new, line_push_decimal, line_push_str,
    line_text, LINE_CAPACITY,
};
use text::{byte_len, lemma_bytes_of_concat, text_len};
use vstd::prelude::*;

pub mod color;
pub mod line;
pub mod text;

verus! {

/// What a message says, and in which color.
pub struct MessageView {
    pub msg: Seq<char>,
    pub color: Color,
}

impl MessageView {
    /// The line for this message when it is sent `secs` seconds after
    /// start-up.
    pub open spec fn line(self, secs: nat) -> Seq<char> {
        self.color.code() + self.color.severity() + Color::Reset.code() + " "@ + decimal(secs)
            + "s: "@ + self.msg + "\n"@
    }

    /// Whether that line fits into the buffer of a line.
    pub open spec fn fits(self, secs: nat) -> bool {
        byte_len(self.line(secs)) <= LINE_CAPACITY
    }

    /// The bytes of the line are the bytes of its parts.
    pub proof fn lemma_line_len(self, secs: nat)
        ensures
            byte_len(self.line(secs)) == byte_len(self.color.code()) + byte_len(
                self.color.severity(),
            ) + byte_len(Color::Reset.code()) + byte_len(" "@) + decimal(secs).len() + byte_len(
                "s: "@,
            ) + byte_len(self.msg) + byte_len("\n"@),
    {
        let t1: Seq<char> = self.color.code();
        let t2: Seq<char> = t1 + self.color.severity();
        let t3: Seq<char> = t2 + Color::Reset.code();
        let t4: Seq<char> = t3 + " "@;
        let t5: Seq<char> = t4 + decimal(secs);
        let t6: Seq<char> = t5 + "s: "@;
        let t7: Seq<char> = t6 + self.msg;
        lemma_bytes_of_concat(t1, self.color.severity());
        lemma_bytes_of_concat(t2, Color::Reset.code());
        lemma_bytes_of_concat(t3, " "@);
        lemma_bytes_of_concat(t4, decimal(secs));
        lemma_bytes_of_concat(t5, "s: "@);
        lemma_bytes_of_concat(t6, self.msg);
        lemma_bytes_of_concat(t7, "\n"@);
        lemma_decimal_is_ascii(secs);
    }
}

/// A text to log, with the color that tells its severity.
pub struct Message<'a> {
    msg: &'a str,
    color: Color,
}

impl<'a> View for Message<'a> {
    type V = MessageView;

    closed spec fn view(&self) -> MessageView {
        MessageView { msg: self.msg@, color: self.color }
    }
}

impl<'a> Message<'a> {
    pub fn new(msg: &'a str, color: Color) -> (message: Self)
        ensures
            message@ == (MessageView { msg: msg@, color }),
    {
        Message { msg, color }
    }

    /// Whether the line for this message, sent `secs` seconds after
    /// start-up, fits into the buffer of a line.
    pub fn fits(&self, secs: u64) -> (fits: bool)
        requires
            !(self@.color is Reset),
        ensures
            fits == self@.fits(secs as nat),
    {
        proof {
            self@.lemma_line_len(secs as nat);
        }
        let reset = Color::Reset;
        let total: u128 = text_len(self.color.make()) as u128 + text_len(
            self.color.to_log_severity(),
        ) as u128 + text_len(reset.make()) as u128 + text_len(" ") as u128 + decimal_len(
            secs,
        ) as u128 + text_len("s: ") as u128 + text_len(self.msg) as u128 + text_len("\n") as u128;
        total <= LINE_CAPACITY as u128
    }

    /// The line for this message, sent `secs` seconds after start-up. The
    /// line has to fit into its buffer.
    pub fn fmt_at(&self, secs: u64) -> (line: heapless::String<48>)
        requires
            !(self@.color is Reset),
            self@.fits(secs as nat),
        ensures
            line_text(line) == self@.line(secs as nat),
    {
        let reset = Color::Reset;
        let ghost t1: Seq<char> = self@.color.code();
        let ghost t2: Seq<char> = t1 + self@.color.severity();
        let ghost t3: Seq<char> = t2 + Color::Reset.code();
        let ghost t4: Seq<char> = t3 + " "@;
        let ghost t5: Seq<char> = t4 + decimal(secs as nat);
        let ghost t6: Seq<char> = t5 + "s: "@;
        let ghost t7: Seq<char> = t6 + self@.msg;
        proof {
            self@.lemma_line_len(secs as nat);
            lemma_bytes_of_concat(t1, self@.color.severity());
            lemma_bytes_of_concat(t2, Color::Reset.code());
            lemma_bytes_of_concat(t3, " "@);
            lemma_bytes_of_concat(t4, decimal(secs as nat));
            lemma_bytes_of_concat(t5, "s: "@);
            lemma_bytes_of_concat(t6, self@.msg);
            lemma_decimal_is_ascii(secs as nat);
            assert(byte_len(Seq::<char>::empty()) == 0);
        }
        let mut line = line_new();
        let pushed = line_push_str(&mut line, self.color.make());
        assert(pushed && line_text(line) =~= t1);
        let pushed = line_push_str(&mut line, self.color.to_log_severity());
        assert(pushed && line_text(line) == t2);
        let pushed = line_push_str(&mut line, reset.make());
        assert(pushed && line_text(line) == t3);
        let pushed = line_push_str(&mut line, " ");
        assert(pushed && line_text(line) == t4);
        line_push_decimal(&mut line, secs);
        assert(line_text(line) == t5);
        let pushed = line_push_str(&mut line, "s: ");
        assert(pushed && line_text(line) == t6);
        let pushed = line_push_str(&mut line, self.msg);
        assert(pushed && line_text(line) == t7);
        let pushed = line_push_str(&mut line, "\n");
        assert(pushed);
        line
    }

    /// Reads the clock and gives the line for this message as sent now, or
    /// nothing where that line does not fit into its buffer.
    pub fn fmt(&self) -> (line: Option<heapless::String<48>>)
        requires
            !(self@.color is Reset),
        ensures
            exists|secs: nat|
                {
                    &&& secs <= u64::MAX
                    &&& line is Some == #[trigger] self@.fits(secs)
                    &&& line matches Some(l) ==> line_text(l) == self@.line(secs)
                },
    {
        let secs: u64 = uptime_micros() / 1_000_000;
        if self.fits(secs) {
            let line = self.fmt_at(secs);
            assert(self@.fits(secs as nat));
            Some(line)
        } else {
            assert(!self@.fits(secs as nat));
            None
        }
    }
}

} // verus!
