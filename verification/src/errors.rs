use vstd::prelude::*;

verus! {

/// Errors raised by the job service and by the HTTP layer around it.
#[derive(Debug, Clone)]
pub enum AppError {
    Configuration(String),
    Connection(String),
    Job(String),
    Validation(String),
    BadRequest(String),
    Unauthorized(String),
    Forbidden(String),
    NotFound(String),
    Conflict(String),
    Internal(String),
}

/// The prefix that the displayed form of each variant starts with.
pub open spec fn error_prefix(e: AppError) -> Seq<char> {
    match e {
        AppError::Configuration(_) => "Configuration error: "@,
        AppError::Connection(_) => "Connection error: "@,
        AppError::Job(_) => "Job error: "@,
        AppError::Validation(_) => "Validation error: "@,
        AppError::BadRequest(_) => "Bad request: "@,
        AppError::Unauthorized(_) => "Unauthorized: "@,
        AppError::Forbidden(_) => "Forbidden: "@,
        AppError::NotFound(_) => "Not found: "@,
        AppError::Conflict(_) => "Conflict: "@,
        AppError::Internal(_) => "Internal error: "@,
    }
}

/// The message that an error carries.
pub open spec fn error_message(e: AppError) -> Seq<char> {
    match e {
        AppError::Configuration(m) => m@,
        AppError::Connection(m) => m@,
        AppError::Job(m) => m@,
        AppError::Validation(m) => m@,
        AppError::BadRequest(m) => m@,
        AppError::Unauthorized(m) => m@,
        AppError::Forbidden(m) => m@,
        AppError::NotFound(m) => m@,
        AppError::Conflict(m) => m@,
        AppError::Internal(m) => m@,
    }
}

impl AppError {
    /// The message carried by the error, without its prefix.
    pub fn message(&self) -> (r: String)
        ensures
            r@ == error_message(*self),
    {
        match self {
            AppError::Configuration(m) => m.clone(),
            AppError::Connection(m) => m.clone(),
            AppError::Job(m) => m.clone(),
            AppError::Validation(m) => m.clone(),
            AppError::BadRequest(m) => m.clone(),
            AppError::Unauthorized(m) => m.clone(),
            AppError::Forbidden(m) => m.clone(),
            AppError::NotFound(m) => m.clone(),
            AppError::Conflict(m) => m.clone(),
            AppError::Internal(m) => m.clone(),
        }
    }

    /// The displayed form of the error: its kind, a colon and its message.
    pub fn to_string(&self) -> (r: String)
        ensures
            r@ == error_prefix(*self) + error_message(*self),
    {
        let mut s = match self {
            AppError::Configuration(_) => String::from_str("Configuration error: "),
            AppError::Connection(_) => String::from_str("Connection error: "),
            AppError::Job(_) => String::from_str("Job error: "),
            AppError::Validation(_) => String::from_str("Validation error: "),
            AppError::BadRequest(_) => String::from_str("Bad request: "),
            AppError::Unauthorized(_) => String::from_str("Unauthorized: "),
            AppError::Forbidden(_) => String::from_str("Forbidden: "),
            AppError::NotFound(_) => String::from_str("Not found: "),
            AppError::Conflict(_) => String::from_str("Conflict: "),
            AppError::Internal(_) => String::from_str("Internal error: "),
        };
        let m = self.message();
        s.append(m.as_str());
        s
    }
}

impl From<String> for AppError {
    fn from(msg: String) -> (r: AppError) {
        AppError::Job(msg)
    }
}

impl vstd::std_specs::convert::FromSpecImpl<String> for AppError {
    open spec fn obeys_from_spec() -> bool {
        true
    }

    open spec fn from_spec(msg: String) -> AppError {
        AppError::Job(msg)
    }
}

} // verus!
