//! The application's error taxonomy.  Errors arriving from outside calls
//! are carried as their rendered text.
use vstd::prelude::*;

verus! {

/// A typed, user-displayable error.
#[derive(Debug, Clone, PartialEq, Eq)]
pub enum AppError {
    Store(String),
    Io(String),
    Http(String),
    Zip(String),
    Toml(String),
    Serde(String),
    Other(String),
}

/// The text the variant carries.
pub open spec fn spec_detail(e: AppError) -> Seq<char> {
    match e {
        AppError::Store(s) => s@,
        AppError::Io(s) => s@,
        AppError::Http(s) => s@,
        AppError::Zip(s) => s@,
        AppError::Toml(s) => s@,
        AppError::Serde(s) => s@,
        AppError::Other(s) => s@,
    }
}

/// The display prefix of the variant.
pub open spec fn spec_prefix(e: AppError) -> Seq<char> {
    match e {
        AppError::Store(_) => "Store error: "@,
        AppError::Io(_) => "IO error: "@,
        AppError::Http(_) => "HTTP error: "@,
        AppError::Zip(_) => "Zip error: "@,
        AppError::Toml(_) => "TOML error: "@,
        AppError::Serde(_) => "Serde error: "@,
        AppError::Other(_) => "Other: "@,
    }
}

impl AppError {
    /// The user-displayable text: the variant's prefix followed by its
    /// detail.
    pub fn message(&self) -> (r: String)
        ensures
            r@ == spec_prefix(*self) + spec_detail(*self),
    {
        let (prefix, detail): (&str, &String) = match self {
            AppError::Store(s) => ("Store error: ", s),
            AppError::Io(s) => ("IO error: ", s),
            AppError::Http(s) => ("HTTP error: ", s),
            AppError::Zip(s) => ("Zip error: ", s),
            AppError::Toml(s) => ("TOML error: ", s),
            AppError::Serde(s) => ("Serde error: ", s),
            AppError::Other(s) => ("Other: ", s),
        };
        let mut out = prefix.to_owned();
        out.append(detail.as_str());
        out
    }
}

} // verus!
