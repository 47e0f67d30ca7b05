//! The errors that a request is answered with.
use serde_json::Value;
use vstd::prelude::*;

use crate::json::{json_bool, json_content, json_object, json_set, json_text, JsonView};
use crate::reply::{print_reply, Reply};
use crate::text::{all_digits, is_digit};

verus! {

/// An error that a request is answered with.
#[derive(Debug)]
pub struct AppError {
    pub status_code: u16,
    pub error_code: &'static str,
    pub message: String,
    pub details: Value,
    pub storage_name: Option<String>,
}

/// The shape of a year: four digits, or a sign and four digits at least.
pub open spec fn is_year(s: Seq<char>) -> bool {
    ||| s.len() == 4 && all_digits(s)
    ||| s.len() >= 5 && (s[0] == '+' || s[0] == '-') && all_digits(s.skip(1))
}

/// The shape of a date and a time of day: a year, then `/MM/DD HH:MM:SS` with two digits
/// for each pair of letters.
pub open spec fn is_timestamp(s: Seq<char>) -> bool {
    let n = s.len() as int;
    &&& n >= 19
    &&& is_year(s.subrange(0, n - 15))
    &&& s[n - 15] == '/'
    &&& is_digit(s[n - 14]) && is_digit(s[n - 13])
    &&& s[n - 12] == '/'
    &&& is_digit(s[n - 11]) && is_digit(s[n - 10])
    &&& s[n - 9] == ' '
    &&& is_digit(s[n - 8]) && is_digit(s[n - 7])
    &&& s[n - 6] == ':'
    &&& is_digit(s[n - 5]) && is_digit(s[n - 4])
    &&& s[n - 3] == ':'
    &&& is_digit(s[n - 2]) && is_digit(s[n - 1])
}

/// `chrono::Local::now` and `format`: the local time, written by the pattern. With
/// this pattern the month, the day and the time have two digits each. The year has four
/// digits, or a sign and four digits at least where four do not hold it. What time it is
/// is left open.
#[verifier::external_body]
fn local_time(pattern: &str) -> (r: String)
    requires
        pattern@ == "%Y/%m/%d %H:%M:%S"@,
    ensures
        is_timestamp(r@),
{
    chrono::Local::now().format(pattern).to_string()
}

impl AppError {
    /// The error says just this, with no name of a storage.
    pub open spec fn says(
        self,
        status_code: u16,
        error_code: Seq<char>,
        message: Seq<char>,
        details: JsonView,
    ) -> bool {
        &&& self.status_code == status_code
        &&& self.error_code@ == error_code
        &&& self.message@ == message
        &&& json_content(self.details) == details
        &&& self.storage_name is None
    }

    /// An error without details.
    pub fn new(status_code: u16, error_code: &'static str, message: &str) -> (r: Self)
        ensures
            r.says(status_code, error_code@, message@, JsonView::Object(Map::empty())),
    {
        AppError {
            status_code,
            error_code,
            message: message.to_owned(),
            details: json_object(),
            storage_name: None,
        }
    }

    /// An error with details.
    pub fn with_details(
        status_code: u16,
        error_code: &'static str,
        message: &str,
        details: Value,
    ) -> (r: Self)
        ensures
            r.says(status_code, error_code@, message@, json_content(details)),
    {
        AppError {
            status_code,
            error_code,
            message: message.to_owned(),
            details,
            storage_name: None,
        }
    }

    /// The body of the answer: the error, the time, and the storage where it has a
    /// name.
    pub open spec fn body_view(self, timestamp: Seq<char>) -> JsonView {
        let body = Map::empty().insert("error"@, JsonView::Bool(true)).insert(
            "code"@,
            JsonView::Text(self.error_code@),
        ).insert("message"@, JsonView::Text(self.message@)).insert(
            "timestamp"@,
            JsonView::Text(timestamp),
        ).insert("details"@, json_content(self.details));
        JsonView::Object(
            match self.storage_name {
                Some(name) => body.insert("storage"@, JsonView::Text(name@)),
                None => body,
            },
        )
    }

    /// The reply is the answer at the time that `timestamp` writes.
    pub open spec fn is_answered_at(
        self,
        timestamp: Seq<char>,
        r: Reply,
    ) -> bool {
        r.is_json(self.status_code, self.body_view(timestamp))
    }

    /// The answer at the time that `timestamp` writes.
    pub fn reply_at(self, timestamp: &str) -> (r: Reply)
        ensures
            self.is_answered_at(timestamp@, r),
    {
        let mut body: Value = json_object();
        json_set(&mut body, "error", json_bool(true));
        json_set(&mut body, "code", json_text(self.error_code));
        json_set(&mut body, "message", json_text(self.message.as_str()));
        json_set(&mut body, "timestamp", json_text(timestamp));
        json_set(&mut body, "details", self.details);
        match &self.storage_name {
            Some(name) => {
                json_set(&mut body, "storage", json_text(name.as_str()));
            },
            None => {},
        }
        print_reply(self.status_code, &body)
    }

    /// The answer, with the local time in it.
    pub fn into_response(self) -> (r: Reply)
        ensures
            exists|timestamp: Seq<char>| #[trigger]
                is_timestamp(timestamp) && r.is_json(self.status_code, self.body_view(timestamp)),
    {
        let timestamp: String = local_time("%Y/%m/%d %H:%M:%S");
        let ghost t = timestamp@;
        let r: Reply = self.reply_at(timestamp.as_str());
        assert(is_timestamp(t));
        r
    }
}

// ===================== Laws =====================
/// A refused request is answered with the status of the error and an object that says
/// that there was an error, which one, and when.
pub proof fn law_error_is_told(e: AppError, timestamp: Seq<char>, reply: Reply)
    requires
        reply.is_json(e.status_code, e.body_view(timestamp)),
    ensures
        reply.status == e.status_code,
        e.body_view(timestamp) matches JsonView::Object(body) && {
            &&& body.contains_pair("error"@, JsonView::Bool(true))
            &&& body.contains_pair("code"@, JsonView::Text(e.error_code@))
            &&& body.contains_pair("message"@, JsonView::Text(e.message@))
            &&& body.contains_pair("timestamp"@, JsonView::Text(timestamp))
            &&& body.contains_pair("details"@, json_content(e.details))
            &&& body.contains_key("storage"@) == e.storage_name is Some
            &&& forall|key: Seq<char>| #[trigger]
                body.contains_key(key) ==> key == "error"@ || key == "code"@ || key == "message"@
                    || key == "timestamp"@ || key == "details"@ || key == "storage"@
            &&& e.storage_name matches Some(name) ==> body.contains_pair(
                "storage"@,
                JsonView::Text(name@),
            )
        },
{
    reveal_strlit("error");
    reveal_strlit("code");
    reveal_strlit("message");
    reveal_strlit("timestamp");
    reveal_strlit("details");
    reveal_strlit("storage");
    assert("error"@.len() == 5 && "code"@.len() == 4 && "message"@.len() == 7);
    assert("timestamp"@.len() == 9 && "details"@.len() == 7 && "storage"@.len() == 7);
    assert("message"@[0] == 'm' && "details"@[0] == 'd' && "storage"@[0] == 's');
}

/// An error says what it was made of, and an answer has its status.
pub proof fn law_error_says(
    e: AppError,
    status_code: u16,
    error_code: Seq<char>,
    message: Seq<char>,
    details: JsonView,
    timestamp: Seq<char>,
    reply: Reply,
)
    requires
        e.says(status_code, error_code, message, details),
        e.is_answered_at(timestamp, reply),
    ensures
        e.status_code == status_code,
        e.error_code@ == error_code,
        e.message@ == message,
        json_content(e.details) == details,
        reply.status == status_code,
        reply.is_json(status_code, e.body_view(timestamp)),
{
}

} // verus!
