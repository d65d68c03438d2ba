//! How a failed database request is answered over HTTP.

use vstd::prelude::*;
use vstd::string::*;

verus! {

/// What the service can tell apart about a failed database request.
pub enum DbFailure {
    /// The database refused the statement; `code` is its SQLSTATE, when it gave one.
    Database { code: Option<String> },
    /// A query that had to return one row returned none.
    RowNotFound,
    /// Any other failure (connection, protocol, decoding, ...).
    Other,
}

/// The body of an error reply.
pub enum ErrorBody {
    /// A JSON object `{"message": .., "origin": ..}`.
    Json { message: String, origin: String },
    /// A plain-text body.
    Text(String),
}

/// An HTTP error reply: a status code and a body.
pub struct ErrorReply {
    pub status: u16,
    pub body: ErrorBody,
}

/// The mathematical content of an [`ErrorBody`].
pub enum ErrorBodyView {
    Json { message: Seq<char>, origin: Seq<char> },
    Text(Seq<char>),
}

impl View for ErrorBody {
    type V = ErrorBodyView;

    open spec fn view(&self) -> ErrorBodyView {
        match self {
            ErrorBody::Json { message, origin } => ErrorBodyView::Json {
                message: message@,
                origin: origin@,
            },
            ErrorBody::Text(t) => ErrorBodyView::Text(t@),
        }
    }
}

/// SQLSTATE of a foreign-key violation: the referral code names no user.
pub open spec fn foreign_key_violation() -> Seq<char> {
    "23503"@
}

/// SQLSTATE of a unique violation: the username (or invite code) is taken.
pub open spec fn unique_violation() -> Seq<char> {
    "23505"@
}

/// The code a database failure is judged by: its SQLSTATE, or the empty string.
pub open spec fn code_or_empty(code: Option<String>) -> Seq<char> {
    match code {
        Some(c) => c@,
        None => Seq::empty(),
    }
}

/// The reply for a failure that none of the known cases covers.
pub open spec fn internal_error_reply() -> (u16, ErrorBodyView) {
    (500, ErrorBodyView::Text("An error occurred while logging you in"@))
}

/// The reply owed for each database failure: status code and body.
pub open spec fn reply_for(e: DbFailure) -> (u16, ErrorBodyView) {
    match e {
        DbFailure::Database { code } => {
            if code_or_empty(code) == foreign_key_violation() {
                (400, ErrorBodyView::Json { message: "`referral_code` is invalid"@, origin: "Postgres error"@ })
            } else if code_or_empty(code) == unique_violation() {
                (409, ErrorBodyView::Json { message: "User already exists"@, origin: "Postgres error"@ })
            } else {
                internal_error_reply()
            }
        },
        DbFailure::RowNotFound => (404, ErrorBodyView::Json { message: "User not found"@, origin: "Postgres error"@ }),
        DbFailure::Other => internal_error_reply(),
    }
}

fn postgres_error(message: &str) -> (r: ErrorBody)
    ensures
        r@ == (ErrorBodyView::Json { message: message@, origin: "Postgres error"@ }),
{
    ErrorBody::Json { message: String::from_str(message), origin: String::from_str("Postgres error") }
}

fn internal_error() -> (r: ErrorReply)
    ensures
        (r.status, r.body@) == internal_error_reply(),
{
    ErrorReply {
        status: 500,
        body: ErrorBody::Text(String::from_str("An error occurred while logging you in")),
    }
}

/// Turns a failed database request into the HTTP reply sent to the client:
/// an invalid referral code is a 400, a taken username a 409, a missing user
/// a 404, and anything else a 500 with a plain-text body.
pub fn map_err(e: DbFailure) -> (r: ErrorReply)
    ensures
        (r.status, r.body@) == reply_for(e),
        e is RowNotFound ==> r.status == 404 && r.body@ == (ErrorBodyView::Json {
            message: "User not found"@,
            origin: "Postgres error"@,
        }),
        e is Other ==> r.status == 500 && r.body@ == ErrorBodyView::Text(
            "An error occurred while logging you in"@,
        ),
        forall|code: String|
            e == (DbFailure::Database { code: Some(code) }) && code@ == "23503"@ ==> r.status == 400
                && r.body@ == (ErrorBodyView::Json {
                message: "`referral_code` is invalid"@,
                origin: "Postgres error"@,
            }),
        forall|code: String|
            e == (DbFailure::Database { code: Some(code) }) && code@ == "23505"@ ==> r.status == 409
                && r.body@ == (ErrorBodyView::Json {
                message: "User already exists"@,
                origin: "Postgres error"@,
            }),
        forall|code: Option<String>|
            e == (DbFailure::Database { code }) && !(code matches Some(c) && (c@ == "23503"@ || c@
                == "23505"@)) ==> r.status == 500 && r.body@ == ErrorBodyView::Text(
                "An error occurred while logging you in"@,
            ),
{
    proof {
        reveal_strlit("23503");
        reveal_strlit("23505");
        assert("23503"@[4] != "23505"@[4]);
        assert("23503"@ != "23505"@);
        assert("23503"@.len() == 5 && "23505"@.len() == 5);
    }
    match e {
        DbFailure::Database { code } => {
            let c = match code {
                Some(c) => c,
                None => String::new(),
            };
            let fk = String::from_str("23503");
            let unique = String::from_str("23505");
            if c == fk {
                ErrorReply { status: 400, body: postgres_error("`referral_code` is invalid") }
            } else if c == unique {
                ErrorReply { status: 409, body: postgres_error("User already exists") }
            } else {
                internal_error()
            }
        },
        DbFailure::RowNotFound => ErrorReply { status: 404, body: postgres_error("User not found") },
        DbFailure::Other => internal_error(),
    }
}

} // verus!
