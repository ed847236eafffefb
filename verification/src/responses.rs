//! The management surface's response payloads: an error message, a
//! success message, or a piece of data. The surrounding HTTP glue
//! turns these into wire responses.

use vstd::prelude::*;

verus! {

/// A failure reported to a management client.
pub struct ErrorResponse {
    message: String,
}

impl ErrorResponse {
    /// An error response carrying the given message.
    pub fn new(message: &str) -> (r: ErrorResponse)
        ensures
            r.spec_message() == message@,
    {
        ErrorResponse { message: message.to_owned() }
    }

    /// The carried message.
    pub closed spec fn spec_message(&self) -> Seq<char> {
        self.message@
    }

    /// The carried message.
    pub fn message(&self) -> (r: &str)
        ensures
            r@ == self.spec_message(),
    {
        self.message.as_str()
    }
}

/// An error response for a failure on the appliance's side.
pub fn server_error(message: &str) -> (r: ErrorResponse)
    ensures
        r.spec_message() == message@,
{
    ErrorResponse::new(message)
}

/// A piece of data reported to a management client.
pub struct DataReponse<T> {
    data: T,
}

impl<T> DataReponse<T> {
    /// A data response carrying the given value.
    pub fn new(data: T) -> (r: DataReponse<T>)
        ensures
            r.spec_data() == data,
    {
        DataReponse { data }
    }

    /// The carried value.
    pub closed spec fn spec_data(&self) -> T {
        self.data
    }

    /// The carried value.
    pub fn data(&self) -> (r: &T)
        ensures
            *r == self.spec_data(),
    {
        &self.data
    }
}

/// A data response carrying the given value.
pub fn data<T>(value: T) -> (r: DataReponse<T>)
    ensures
        r.spec_data() == value,
{
    DataReponse::new(value)
}

/// A success report to a management client.
pub struct SuccessResponse {
    message: String,
}

impl SuccessResponse {
    /// A success response carrying the given message.
    pub fn new(message: &str) -> (r: SuccessResponse)
        ensures
            r.spec_message() == message@,
    {
        SuccessResponse { message: message.to_owned() }
    }

    /// The carried message.
    pub closed spec fn spec_message(&self) -> Seq<char> {
        self.message@
    }

    /// The carried message.
    pub fn message(&self) -> (r: &str)
        ensures
            r@ == self.spec_message(),
    {
        self.message.as_str()
    }
}

/// A success response carrying the given message.
pub fn success(message: &str) -> (r: SuccessResponse)
    ensures
        r.spec_message() == message@,
{
    SuccessResponse::new(message)
}

} // verus!
