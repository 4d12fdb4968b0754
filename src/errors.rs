use vstd::prelude::*;

verus! {

/// Failures of the game's operations, each reported with one HTTP status.
#[derive(Clone, Debug, PartialEq)]
pub enum Error {
    BadRequest(String),
    CannotDecodeJwtToken(String),
    CannotEncodeJwtToken(String),
    InternalServerError(String),
    Unauthorized,
    Forbidden,
    NotFound(String),
    PoolError(String),
    ValidationError(Vec<String>),
    UnprocessableEntity(String),
    BlockingError(String),
}

/// The body sent to a client for a failed request.
#[derive(Clone, Debug, PartialEq)]
pub struct ErrorResponse {
    pub errors: Vec<String>,
}

pub open spec fn status_of(e: &Error) -> u16 {
    match e {
        Error::ValidationError(_) => 422,
        Error::UnprocessableEntity(_) => 422,
        Error::BadRequest(_) => 400,
        Error::NotFound(_) => 404,
        Error::Forbidden => 403,
        Error::Unauthorized => 401,
        _ => 500,
    }
}

/// The messages a client is shown for `e`: internal failures are not disclosed.
pub open spec fn messages_of(e: &Error) -> Seq<Seq<char>> {
    match e {
        Error::ValidationError(list) => list@.map_values(|s: String| s@),
        Error::BadRequest(m) => seq![m@],
        Error::NotFound(m) => seq![m@],
        Error::UnprocessableEntity(m) => seq![m@],
        Error::Forbidden => seq!["Forbidden"@],
        Error::Unauthorized => seq!["Unauthorized"@],
        _ => seq!["Internal Server Error"@],
    }
}

pub open spec fn views_of(v: Seq<String>) -> Seq<Seq<char>> {
    v.map_values(|s: String| s@)
}

/// Clones a list of strings, keeping every element.
pub fn clone_strings(v: &Vec<String>) -> (r: Vec<String>)
    ensures
        views_of(r@) == views_of(v@),
{
    let mut r: Vec<String> = Vec::new();
    let mut i: usize = 0;
    while i < v.len()
        invariant
            i <= v.len(),
            r@.len() == i,
            forall|j: int| 0 <= j < i ==> #[trigger] r@[j]@ == v@[j]@,
        decreases v.len() - i,
    {
        r.push(v[i].clone());
        i = i + 1;
    }
    proof {
        assert(views_of(r@) =~= views_of(v@));
    }
    r
}

impl ErrorResponse {
    /// A response carrying a single message.
    pub fn from_message(message: &str) -> (r: ErrorResponse)
        ensures
            views_of(r.errors@) == seq![message@],
    {
        let mut errors: Vec<String> = Vec::new();
        errors.push(message.to_string());
        proof {
            assert(views_of(errors@) =~= seq![message@]);
        }
        ErrorResponse { errors }
    }
}

impl From<Vec<String>> for ErrorResponse {
    fn from(errors: Vec<String>) -> (r: ErrorResponse)
        ensures
            r.errors == errors,
    {
        ErrorResponse { errors }
    }
}

impl vstd::std_specs::convert::FromSpecImpl<Vec<String>> for ErrorResponse {
    open spec fn obeys_from_spec() -> bool {
        true
    }

    open spec fn from_spec(errors: Vec<String>) -> ErrorResponse {
        ErrorResponse { errors }
    }
}

impl Error {
    /// The HTTP status that this failure is reported with.
    pub fn status_code(&self) -> (r: u16)
        ensures
            r == status_of(self),
    {
        match self {
            Error::ValidationError(_) => 422,
            Error::UnprocessableEntity(_) => 422,
            Error::BadRequest(_) => 400,
            Error::NotFound(_) => 404,
            Error::Forbidden => 403,
            Error::Unauthorized => 401,
            _ => 500,
        }
    }

    /// The body that this failure is reported with.
    pub fn error_response(&self) -> (r: ErrorResponse)
        ensures
            views_of(r.errors@) == messages_of(self),
    {
        match self {
            Error::ValidationError(list) => ErrorResponse { errors: clone_strings(list) },
            Error::BadRequest(m) => ErrorResponse::from_message(m.as_str()),
            Error::NotFound(m) => ErrorResponse::from_message(m.as_str()),
            Error::UnprocessableEntity(m) => ErrorResponse::from_message(m.as_str()),
            Error::Forbidden => ErrorResponse::from_message("Forbidden"),
            Error::Unauthorized => ErrorResponse::from_message("Unauthorized"),
            _ => ErrorResponse::from_message("Internal Server Error"),
        }
    }
}

} // verus!
