//! The transport scheme of a request. It affects only URL construction,
//! never the signature.

use vstd::prelude::*;
use vstd::string::StringExecFns;

use crate::text::lower_chars;
use crate::text::lower_str;
use crate::text::str_eq;

verus! {

/// The transport scheme: plain HTTP or HTTPS.
#[derive(Clone, Copy, Debug, PartialEq, Eq, Structural)]
pub enum Schema {
    Http,
    Https,
}

/// The scheme's lower-case wire text.
pub open spec fn schema_chars(s: Schema) -> Seq<char> {
    match s {
        Schema::Http => "http"@,
        Schema::Https => "https"@,
    }
}

impl Schema {
    /// The scheme as it appears in a URL.
    pub fn as_str(&self) -> (r: &'static str)
        ensures
            r@ == schema_chars(*self),
    {
        match self {
            Schema::Http => "http",
            Schema::Https => "https",
        }
    }

    /// Parses a scheme name, ignoring ASCII case: exactly `http` and `https`
    /// are accepted; anything else is rejected.
    pub fn parse(s: &str) -> (r: Result<Schema, ParseSchemaError>)
        ensures
            match r {
                Ok(schema) => lower_chars(s@) == schema_chars(schema),
                Err(e) => lower_chars(s@) != "http"@ && lower_chars(s@) != "https"@ && e@
                    == "Invalid OSS Schema: "@ + s@ + ", "@,
            },
    {
        let lowered = lower_str(s);
        if str_eq(lowered.as_str(), "http") {
            Ok(Schema::Http)
        } else if str_eq(lowered.as_str(), "https") {
            Ok(Schema::Https)
        } else {
            Err(ParseSchemaError::new(s))
        }
    }
}

impl Default for Schema {
    /// The default scheme is HTTPS.
    fn default() -> (r: Schema)
        ensures
            r == Schema::Https,
    {
        Schema::Https
    }
}

impl core::str::FromStr for Schema {
    type Err = ParseSchemaError;

    fn from_str(s: &str) -> Result<Schema, ParseSchemaError> {
        Schema::parse(s)
    }
}

/// The error returned for a scheme name that is neither `http` nor `https`.
#[derive(Debug, PartialEq)]
pub struct ParseSchemaError {
    message: String,
}

impl View for ParseSchemaError {
    type V = Seq<char>;

    /// The error is its message text.
    closed spec fn view(&self) -> Seq<char> {
        self.message@
    }
}

impl ParseSchemaError {
    /// Builds the error for the rejected input.
    pub fn new(input: &str) -> (r: Self)
        ensures
            r@ == "Invalid OSS Schema: "@ + input@ + ", "@,
    {
        let mut message = String::from_str("Invalid OSS Schema: ");
        message.append(input);
        message.append(", ");
        ParseSchemaError { message }
    }

    /// The error's message text.
    pub fn message(&self) -> (r: &str)
        ensures
            r@ == self@,
    {
        self.message.as_str()
    }
}

} // verus!
