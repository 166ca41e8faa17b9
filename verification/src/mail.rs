//! The trusted boundary to the mail-parsing and date-handling crates.
//!
//! The receiver's logic works on the plain fields gathered here; parsing
//! the raw message bytes and interpreting date strings is delegated to the
//! outside crates, behind contracts that name their results.

use vstd::prelude::*;

verus! {

/// The fields of one parsed message that the receiver's logic reads.
pub struct ParsedEmail {
    /// The first sender address, or empty when the message has none.
    pub from: String,
    /// The subject, or empty when the message has none.
    pub subject: String,
    /// The first plain text body part, or, when no plain text part
    /// exists, the first HTML body part, or empty.
    pub body: String,
    /// The message date in RFC822 form, when the message carries one.
    pub date_rfc822: Option<String>,
}

/// The mathematical value of a [`ParsedEmail`].
pub ghost struct ParsedEmailView {
    pub from: Seq<char>,
    pub subject: Seq<char>,
    pub body: Seq<char>,
    pub date_rfc822: Option<Seq<char>>,
}

impl View for ParsedEmail {
    type V = ParsedEmailView;

    open spec fn view(&self) -> ParsedEmailView {
        ParsedEmailView {
            from: self.from@,
            subject: self.subject@,
            body: self.body@,
            date_rfc822: match self.date_rfc822 {
                Some(s) => Some(s@),
                None => None,
            },
        }
    }
}

/// What the mail parser yields on given raw message bytes, a function of
/// the bytes alone: nothing when no headers can be found, otherwise the
/// sender, subject, body and date fields as [`ParsedEmailView`] lays them
/// out.
pub uninterp spec fn parsed_email_of(bytes: Seq<u8>) -> Option<ParsedEmailView>;

/// Relies on mail_parser's MessageParser::parse, which returns None when
/// no headers are found, and on the accessors Message::from (with
/// Address::first and Addr::address), Message::subject, Message::body_text,
/// Message::body_html and Message::date (with DateTime::to_rfc822), all
/// pure functions of the raw bytes. Absent fields default to the empty
/// string; the body falls back to the first HTML part when no plain text
/// part exists.
#[verifier::external_body]
pub(crate) fn parse_email(bytes: &Vec<u8>) -> (r: Option<ParsedEmail>)
    ensures
        match r {
            Some(p) => parsed_email_of(bytes@) == Some(p@),
            None => parsed_email_of(bytes@) is None,
        },
{
    let message = mail_parser::MessageParser::new().parse(bytes.as_slice())?;
    let from =
        message.from().and_then(|a| a.first()).and_then(|a| a.address()).unwrap_or("").to_owned();
    let subject = message.subject().unwrap_or("").to_owned();
    let body = match message.body_text(0) {
        Some(s) => s.into_owned(),
        None => message.body_html(0).map(|s| s.into_owned()).unwrap_or_default(),
    };
    let date_rfc822 = message.date().map(|d| d.to_rfc822());
    Some(ParsedEmail { from, subject, body, date_rfc822 })
}

/// What chrono computes from an RFC2822 date string, a function of the
/// string alone: the epoch milliseconds, or nothing when the string does
/// not parse as such a date.
pub uninterp spec fn rfc2822_millis_of(s: Seq<char>) -> Option<i64>;

/// Relies on chrono's DateTime::parse_from_rfc2822 and
/// DateTime::timestamp_millis, both pure functions of the string.
#[verifier::external_body]
pub(crate) fn rfc2822_to_millis(s: &str) -> (r: Option<i64>)
    ensures
        r == rfc2822_millis_of(s@),
{
    chrono::DateTime::parse_from_rfc2822(s).ok().map(|dt| dt.timestamp_millis())
}

/// Relies on chrono's Utc::now and DateTime::timestamp_millis to read the
/// clock. Nothing is assumed of the value returned.
#[verifier::external_body]
pub(crate) fn now_millis() -> i64 {
    chrono::Utc::now().timestamp_millis()
}

} // verus!
