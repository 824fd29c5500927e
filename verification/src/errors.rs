//! Errors, and how they are answered.

use vstd::prelude::*;
use vstd::string::*;

use crate::json::{push_field, push_text_field, Value, ValueView};
use crate::string_map::Duplicate;
use crate::text::{concat3, contains_text};

verus! {

/// Why a request fails.
#[derive(Debug, Clone)]
pub enum AppError {
    NotFound(String),
    BadRequest(String),
    Conflict(String),
    Unauthorized(String),
    Internal(String),
}

/// What an [`AppError`] stands for.
#[verifier::ext_equal]
pub enum AppErrorView {
    NotFound(Seq<char>),
    BadRequest(Seq<char>),
    Conflict(Seq<char>),
    Unauthorized(Seq<char>),
    Internal(Seq<char>),
}

impl DeepView for AppError {
    type V = AppErrorView;

    open spec fn deep_view(&self) -> AppErrorView {
        match self {
            AppError::NotFound(inner) => AppErrorView::NotFound(inner@),
            AppError::BadRequest(inner) => AppErrorView::BadRequest(inner@),
            AppError::Conflict(inner) => AppErrorView::Conflict(inner@),
            AppError::Unauthorized(inner) => AppErrorView::Unauthorized(inner@),
            AppError::Internal(inner) => AppErrorView::Internal(inner@),
        }
    }
}

impl Duplicate for AppError {
    fn duplicate(&self) -> (copy: Self) {
        match self {
            AppError::NotFound(inner) => AppError::NotFound(inner.clone()),
            AppError::BadRequest(inner) => AppError::BadRequest(inner.clone()),
            AppError::Conflict(inner) => AppError::Conflict(inner.clone()),
            AppError::Unauthorized(inner) => AppError::Unauthorized(inner.clone()),
            AppError::Internal(inner) => AppError::Internal(inner.clone()),
        }
    }
}

/// The answer to a request that fails.
#[derive(Debug, Clone)]
pub struct ErrorReply {
    /// HTTP status.
    pub status: u16,
    /// Machine-readable code for callers to branch on.
    pub code: String,
    pub message: String,
    /// Whether the caller should try again.
    pub retry: bool,
}

/// What an [`ErrorReply`] stands for.
#[verifier::ext_equal]
pub struct ErrorReplyView {
    pub status: u16,
    pub code: Seq<char>,
    pub message: Seq<char>,
    pub retry: bool,
}

impl DeepView for ErrorReply {
    type V = ErrorReplyView;

    open spec fn deep_view(&self) -> ErrorReplyView {
        ErrorReplyView {
            status: self.status,
            code: self.code@,
            message: self.message@,
            retry: self.retry,
        }
    }
}

/// The machine-readable code of an error.
pub open spec fn error_code(error: AppErrorView) -> Seq<char> {
    match error {
        AppErrorView::NotFound(_) => "NOT_FOUND"@,
        AppErrorView::BadRequest(_) => "BAD_REQUEST"@,
        AppErrorView::Conflict(_) => "CONFLICT"@,
        AppErrorView::Unauthorized(_) => "UNAUTHORIZED"@,
        AppErrorView::Internal(_) => "INTERNAL_ERROR"@,
    }
}

/// The HTTP status of an error.
pub open spec fn error_status(error: AppErrorView) -> u16 {
    match error {
        AppErrorView::NotFound(_) => 404,
        AppErrorView::BadRequest(_) => 400,
        AppErrorView::Conflict(_) => 409,
        AppErrorView::Unauthorized(_) => 401,
        AppErrorView::Internal(_) => 500,
    }
}

/// The message of an error.
pub open spec fn error_message(error: AppErrorView) -> Seq<char> {
    match error {
        AppErrorView::NotFound(message) => message,
        AppErrorView::BadRequest(message) => message,
        AppErrorView::Conflict(message) => message,
        AppErrorView::Unauthorized(message) => message,
        AppErrorView::Internal(message) => message,
    }
}

/// Whether a request that failed is worth another try.
pub open spec fn error_retry(error: AppErrorView) -> bool {
    error is Conflict || error is Internal
}

/// The answer to an error.
pub open spec fn error_reply(error: AppErrorView) -> ErrorReplyView {
    ErrorReplyView {
        status: error_status(error),
        code: error_code(error),
        message: error_message(error),
        retry: error_retry(error),
    }
}

/// An error as a line of text.
pub open spec fn error_text(error: AppErrorView) -> Seq<char> {
    error_code(error) + ": "@ + error_message(error)
}

/// The body of an answer: `{"error": {"code": .., "message": .., "retry": ..}}`.
pub open spec fn reply_body(reply: ErrorReplyView) -> ValueView {
    ValueView::Object(
        Map::<Seq<char>, ValueView>::empty().insert(
            "error"@,
            ValueView::Object(
                Map::<Seq<char>, ValueView>::empty().insert(
                    "code"@,
                    ValueView::String(reply.code),
                ).insert("message"@, ValueView::String(reply.message)).insert(
                    "retry"@,
                    ValueView::Bool(reply.retry),
                ),
            ),
        ),
    )
}

impl AppError {
    /// The machine-readable code of the error.
    pub fn code(&self) -> (code: &'static str)
        ensures
            code@ == error_code(self.deep_view()),
    {
        match self {
            AppError::NotFound(_) => "NOT_FOUND",
            AppError::BadRequest(_) => "BAD_REQUEST",
            AppError::Conflict(_) => "CONFLICT",
            AppError::Unauthorized(_) => "UNAUTHORIZED",
            AppError::Internal(_) => "INTERNAL_ERROR",
        }
    }

    /// The HTTP status of the error.
    pub fn status(&self) -> (status: u16)
        ensures
            status == error_status(self.deep_view()),
    {
        match self {
            AppError::NotFound(_) => 404,
            AppError::BadRequest(_) => 400,
            AppError::Conflict(_) => 409,
            AppError::Unauthorized(_) => 401,
            AppError::Internal(_) => 500,
        }
    }

    /// The message of the error.
    pub fn message(&self) -> (message: &str)
        ensures
            message@ == error_message(self.deep_view()),
    {
        match self {
            AppError::NotFound(message) => message.as_str(),
            AppError::BadRequest(message) => message.as_str(),
            AppError::Conflict(message) => message.as_str(),
            AppError::Unauthorized(message) => message.as_str(),
            AppError::Internal(message) => message.as_str(),
        }
    }

    /// Whether the request is worth another try.
    pub fn retry(&self) -> (retry: bool)
        ensures
            retry == error_retry(self.deep_view()),
    {
        matches!(self, AppError::Conflict(_) | AppError::Internal(_))
    }

    /// The error as a line of text.
    pub fn to_text(&self) -> (text: String)
        ensures
            text@ == error_text(self.deep_view()),
    {
        concat3(self.code(), ": ", self.message())
    }

    /// The answer to the error.
    pub fn reply(&self) -> (reply: ErrorReply)
        ensures
            reply.deep_view() == error_reply(self.deep_view()),
    {
        ErrorReply {
            status: self.status(),
            code: self.code().to_owned(),
            message: self.message().to_owned(),
            retry: self.retry(),
        }
    }

    /// The error for a failed database call, of which `detail` tells more.
    pub fn database(detail: &str) -> (error: AppError)
        ensures
            error.deep_view() == AppErrorView::Internal("Database error: "@ + detail@),
    {
        AppError::Internal("Database error: ".to_owned().concat(detail))
    }

    /// The error for a value that cannot be written or read, of which `detail` tells more.
    pub fn serialization(detail: &str) -> (error: AppError)
        ensures
            error.deep_view() == AppErrorView::Internal("Serialization error: "@ + detail@),
    {
        AppError::Internal("Serialization error: ".to_owned().concat(detail))
    }

    /// The error for a row that could not be inserted: a conflict where the database says that the
    /// key is taken.
    pub fn insertion(detail: &str, conflict: String) -> (error: AppError)
        ensures
            error.deep_view() == if is_duplicate_key(detail@) {
                AppErrorView::Conflict(conflict@)
            } else {
                AppErrorView::Internal("Database error: "@ + detail@)
            },
    {
        if contains_text(detail, "UNIQUE constraint") || contains_text(detail, "PRIMARY KEY") {
            AppError::Conflict(conflict)
        } else {
            AppError::database(detail)
        }
    }
}

/// Whether the database's complaint is that a key is taken.
pub open spec fn is_duplicate_key(detail: Seq<char>) -> bool {
    crate::text::occurs_in("UNIQUE constraint"@, detail) || crate::text::occurs_in(
        "PRIMARY KEY"@,
        detail,
    )
}

impl ErrorReply {
    /// The body of the answer.
    pub fn body(&self) -> (body: Value)
        ensures
            body.deep_view() == reply_body(self.deep_view()),
    {
        let mut inner: Vec<(String, Value)> = Vec::new();
        push_text_field(&mut inner, "code", self.code.as_str());
        push_text_field(&mut inner, "message", self.message.as_str());
        push_field(&mut inner, "retry", Value::Bool(self.retry));
        let mut outer: Vec<(String, Value)> = Vec::new();
        push_field(&mut outer, "error", Value::Object(inner));
        Value::Object(outer)
    }
}

/// A caller is told to try again exactly after a conflict or an internal failure.
pub proof fn law_retry_follows_status(error: AppErrorView)
    ensures
        error_retry(error) <==> error_status(error) == 409 || error_status(error) == 500,
{
}

/// The code and the status of an error tell the same about it.
pub proof fn law_code_and_status_agree(a: AppErrorView, b: AppErrorView)
    ensures
        error_code(a) == error_code(b) <==> error_status(a) == error_status(b),
{
    reveal_strlit("NOT_FOUND");
    reveal_strlit("BAD_REQUEST");
    reveal_strlit("CONFLICT");
    reveal_strlit("UNAUTHORIZED");
    reveal_strlit("INTERNAL_ERROR");
    if error_code(a) == error_code(b) {
        assert(error_code(a).len() == error_code(b).len());
        assert(error_code(a)[0] == error_code(b)[0]);
    }
}

} // verus!
