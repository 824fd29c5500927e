//! Who may use the service.

use vstd::prelude::*;
use vstd::string::*;

use crate::errors::{ErrorReply, ErrorReplyView};
use crate::text::{has_prefix, same_text};

verus! {

/// The key that callers have to present. Without one the service is open to everyone.
#[derive(Debug, Clone)]
pub struct ApiKey(pub String);

/// Whether a request may go on.
#[derive(Debug, Clone)]
pub enum Access {
    Granted,
    Denied(ErrorReply),
}

/// What an [`Access`] stands for.
#[verifier::ext_equal]
pub enum AccessView {
    Granted,
    Denied(ErrorReplyView),
}

impl DeepView for Access {
    type V = AccessView;

    open spec fn deep_view(&self) -> AccessView {
        match self {
            Access::Granted => AccessView::Granted,
            Access::Denied(inner) => AccessView::Denied(inner.deep_view()),
        }
    }
}

/// The answer to a caller who is not known.
pub open spec fn unauthorized(message: Seq<char>) -> ErrorReplyView {
    ErrorReplyView { status: 401, code: "UNAUTHORIZED"@, message, retry: false }
}

/// Whether a request may go on, given the configured key and the `Authorization` header.
pub open spec fn access(key: Option<Seq<char>>, header: Option<Seq<char>>) -> AccessView {
    match (key, header) {
        (None, _) => AccessView::Denied(
            ErrorReplyView {
                status: 500,
                code: "INTERNAL_ERROR"@,
                message: "Auth not configured"@,
                retry: false,
            },
        ),
        (Some(k), _) if k.len() == 0 => AccessView::Granted,
        (Some(k), Some(h)) if "Bearer "@.is_prefix_of(h) => if h == "Bearer "@ + k {
            AccessView::Granted
        } else {
            AccessView::Denied(unauthorized("Invalid API key"@))
        },
        _ => AccessView::Denied(unauthorized("Missing Authorization: Bearer <token> header"@)),
    }
}

/// The answer to a caller who is not known.
fn deny(message: &str) -> (access: Access)
    ensures
        access.deep_view() == AccessView::Denied(unauthorized(message@)),
{
    Access::Denied(
        ErrorReply {
            status: 401,
            code: "UNAUTHORIZED".to_owned(),
            message: message.to_owned(),
            retry: false,
        },
    )
}

/// Whether a request may go on, given the configured key and the `Authorization` header: where a
/// key is configured, the header has to be `Bearer` and the key.
pub fn require_auth(api_key: Option<&ApiKey>, header: Option<&str>) -> (granted: Access)
    ensures
        granted.deep_view() == access(
            match api_key {
                Some(key) => Some(key.0@),
                None => None,
            },
            header.deep_view(),
        ),
{
    let key: &String = match api_key {
        Some(key) => &key.0,
        None => {
            return Access::Denied(
                ErrorReply {
                    status: 500,
                    code: "INTERNAL_ERROR".to_owned(),
                    message: "Auth not configured".to_owned(),
                    retry: false,
                },
            );
        },
    };
    if key.as_str().is_empty() {
        return Access::Granted;
    }
    match header {
        Some(text) if has_prefix(text, "Bearer ") => {
            let expected = "Bearer ".to_owned().concat(key.as_str());
            if same_text(text, expected.as_str()) {
                Access::Granted
            } else {
                deny("Invalid API key")
            }
        },
        _ => deny("Missing Authorization: Bearer <token> header"),
    }
}

/// Where a key is configured, exactly the callers who present it may go on.
pub proof fn law_only_the_key_opens(key: Seq<char>, header: Option<Seq<char>>)
    requires
        key.len() > 0,
    ensures
        access(Some(key), header) == AccessView::Granted <==> header == Some("Bearer "@ + key),
{
    if header == Some("Bearer "@ + key) {
        assert("Bearer "@ =~= ("Bearer "@ + key).subrange(0, "Bearer "@.len() as int));
    }
}

/// A request that may not go on is answered with an error status, and the caller is not told to
/// try again.
pub proof fn law_denials_are_final(key: Option<Seq<char>>, header: Option<Seq<char>>)
    ensures
        access(key, header) matches AccessView::Denied(reply) ==> !reply.retry && (if key is None {
            reply.status == 500
        } else {
            reply.status == 401
        }),
{
}

} // verus!
