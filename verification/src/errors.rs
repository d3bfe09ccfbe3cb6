//! Domain error taxonomy: the state codes the HTTP layer reports, their
//! stable machine-readable codes and human messages, and the error values
//! the repository operations return.

use vstd::prelude::*;
use vstd::string::{StrSliceExecFns, StringExecFns};

verus! {

/// Repository-level errors, as the store operations return them.
///
/// `DBError` carries the backend's message; here it stands for a failure of
/// the underlying store (including rejected pagination parameters).
#[derive(Debug)]
pub enum Error {
    DBError(String),
    BadRequest(String),
    InternalServerError(String),
    NotFound(String),
    HttpRequest(String),
    DuplicationError,
    DeletedDuplicationError,
}

/// Handler-level error payloads, one per HTTP failure shape: a list of
/// violations for a bad submission, or a single coded error otherwise.
#[derive(Debug)]
pub enum Errors {
    BadReq(Vec<ErrorCode>),
    BadRequest(ErrorCode),
    InternalServerError(ErrorCode),
    NotFound(ErrorCode),
}

/// A stable machine-readable error code together with its human message.
#[derive(Debug)]
pub struct ErrorCode {
    pub error_code: String,
    pub message: String,
}

/// The fixed vocabulary of failure states a handler can report.
#[derive(Debug)]
pub enum StateCode {
    InternalServerError,
    NotFound,
    DBError,
    PaginationError,
    DuplicationError,
}

impl Clone for StateCode {
    fn clone(&self) -> (r: Self)
        ensures
            r == *self,
    {
        match self {
            Self::InternalServerError => Self::InternalServerError,
            Self::NotFound => Self::NotFound,
            Self::DBError => Self::DBError,
            Self::PaginationError => Self::PaginationError,
            Self::DuplicationError => Self::DuplicationError,
        }
    }
}

/// The machine-readable code of each failure state.
pub open spec fn spec_code_of(s: StateCode) -> Seq<char> {
    match s {
        StateCode::InternalServerError => "internal-server-error"@,
        StateCode::NotFound => "not-found"@,
        StateCode::DBError => "db-error"@,
        StateCode::PaginationError => "pagination-error"@,
        StateCode::DuplicationError => "duplication-error"@,
    }
}

/// The human message of each failure state.
pub open spec fn spec_message_of(s: StateCode) -> Seq<char> {
    match s {
        StateCode::InternalServerError => "Internal server error"@,
        StateCode::NotFound => "Cannot find the object in the Server."@,
        StateCode::DBError => "There is an error in dealing with Database."@,
        StateCode::PaginationError => "Paginated Data is not valid."@,
        StateCode::DuplicationError => "The object is duplicated."@,
    }
}

impl StateCode {
    pub fn get_code(&self) -> (r: &'static str)
        ensures
            r@ == spec_code_of(*self),
    {
        match self {
            Self::InternalServerError => "internal-server-error",
            Self::NotFound => "not-found",
            Self::DBError => "db-error",
            Self::PaginationError => "pagination-error",
            Self::DuplicationError => "duplication-error",
        }
    }

    pub fn get_message(&self) -> (r: &'static str)
        ensures
            r@ == spec_message_of(*self),
    {
        match self {
            Self::InternalServerError => "Internal server error",
            Self::NotFound => "Cannot find the object in the Server.",
            Self::DBError => "There is an error in dealing with Database.",
            Self::PaginationError => "Paginated Data is not valid.",
            Self::DuplicationError => "The object is duplicated.",
        }
    }
}

/// The code/message view of an `ErrorCode`, for stating contracts.
pub open spec fn ec_view(e: ErrorCode) -> (Seq<char>, Seq<char>) {
    (e.error_code@, e.message@)
}

/// The code/message views of a list of error codes.
pub open spec fn ec_views(s: Seq<ErrorCode>) -> Seq<(Seq<char>, Seq<char>)> {
    s.map_values(|e: ErrorCode| ec_view(e))
}

/// The violation reported when a name's length is out of range.
pub open spec fn length_violation() -> (Seq<char>, Seq<char>) {
    ("name-length-error"@, "Name must be between 3 and 49 characters long."@)
}

/// The violation reported when a name holds a disallowed character.
pub open spec fn charset_violation() -> (Seq<char>, Seq<char>) {
    ("regex"@, "Name may contain only letters, spaces, dots, underscores and hyphens."@)
}

/// Every violation of the name rules by `s`, in a fixed order: the length
/// rule first, the character-set rule second; empty exactly when `s` is a
/// valid name.
pub open spec fn spec_name_violations(s: Seq<char>) -> Seq<(Seq<char>, Seq<char>)> {
    (if !crate::model::spec_name_len_ok(s) {
        seq![length_violation()]
    } else {
        Seq::<(Seq<char>, Seq<char>)>::empty()
    }) + (if !crate::model::spec_name_charset_ok(s) {
        seq![charset_violation()]
    } else {
        Seq::<(Seq<char>, Seq<char>)>::empty()
    })
}

impl ErrorCode {
    /// Checks `name` against the name rules and appends one coded violation
    /// per broken rule — all of them, not only the first — to `errors`.
    pub fn validate_errors(name: &str, errors: &mut Vec<ErrorCode>)
        ensures
            ec_views(final(errors)@) == ec_views(old(errors)@) + spec_name_violations(name@),
    {
        let n = name.unicode_len();
        let len_ok = 3 <= n && n <= 49;
        let mut charset_ok = true;
        let mut i: usize = 0;
        while i < n
            invariant
                i <= n,
                n == name@.len(),
                charset_ok <==> (forall|q: int|
                    0 <= q < i ==> crate::model::allowed_name_char(#[trigger] name@[q])),
            decreases n - i,
        {
            let c = name.get_char(i);
            if !crate::model::is_allowed_name_char(c) {
                charset_ok = false;
            }
            i = i + 1;
        }
        assert(len_ok == crate::model::spec_name_len_ok(name@));
        assert(charset_ok == crate::model::spec_name_charset_ok(name@));
        if !len_ok {
            errors.push(
                ErrorCode {
                    error_code: String::from_str("name-length-error"),
                    message: String::from_str("Name must be between 3 and 49 characters long."),
                },
            );
        }
        if !charset_ok {
            errors.push(
                ErrorCode {
                    error_code: String::from_str("regex"),
                    message: String::from_str(
                        "Name may contain only letters, spaces, dots, underscores and hyphens.",
                    ),
                },
            );
        }
        proof {
            assert(ec_views(errors@) =~= ec_views(old(errors)@) + spec_name_violations(name@));
        }
    }
}

impl From<StateCode> for ErrorCode {
    fn from(item: StateCode) -> (r: Self)
        ensures
            r.error_code@ == spec_code_of(item),
            r.message@ == spec_message_of(item),
    {
        Self {
            error_code: String::from_str(item.get_code()),
            message: String::from_str(item.get_message()),
        }
    }
}

impl vstd::std_specs::convert::FromSpecImpl<StateCode> for ErrorCode {
    open spec fn obeys_from_spec() -> bool {
        false
    }

    open spec fn from_spec(item: StateCode) -> Self {
        vstd::pervasive::arbitrary()
    }
}

impl From<String> for Error {
    fn from(req: String) -> (r: Self)
        ensures
            r == Error::HttpRequest(req),
    {
        Error::HttpRequest(req)
    }
}

impl vstd::std_specs::convert::FromSpecImpl<String> for Error {
    open spec fn obeys_from_spec() -> bool {
        true
    }

    open spec fn from_spec(req: String) -> Self {
        Error::HttpRequest(req)
    }
}

} // verus!
