//! The body of every reply.

use vstd::prelude::*;

verus! {

/// A reply: whether the request succeeded, what it gave, and a message.
#[derive(Debug)]
pub struct ApiResponse<T> {
    pub success: bool,
    pub data: Option<T>,
    pub message: String,
}

/// A reply with text for data, such as that of the health check.
#[derive(Debug)]
pub struct ApiResponseString {
    pub success: bool,
    pub data: Option<String>,
    pub message: String,
}

/// A reply without data, such as that of controlling a light.
#[derive(Debug)]
pub struct ApiResponseNull {
    pub success: bool,
    pub data: Option<()>,
    pub message: String,
}

} // verus!
