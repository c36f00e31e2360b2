//! Response codes
use vstd::prelude::*;

pub use crate::msg::Code;

verus! {

/// 2.01 Created
pub fn created() -> (r: Code)
    ensures
        r == (Code { class: 2, detail: 1 }),
{
    Code::new(2, 1)
}

/// 2.02 Deleted
pub fn deleted() -> (r: Code)
    ensures
        r == (Code { class: 2, detail: 2 }),
{
    Code::new(2, 2)
}

/// 2.03 Valid
pub fn valid() -> (r: Code)
    ensures
        r == (Code { class: 2, detail: 3 }),
{
    Code::new(2, 3)
}

/// 2.04 Changed
pub fn changed() -> (r: Code)
    ensures
        r == (Code { class: 2, detail: 4 }),
{
    Code::new(2, 4)
}

/// 2.05 Content
pub fn content() -> (r: Code)
    ensures
        r == (Code { class: 2, detail: 5 }),
{
    Code::new(2, 5)
}

/// 2.31 Continue: this block of a block-wise request body was received, and the server encourages sending further blocks
pub fn continue_() -> (r: Code)
    ensures
        r == (Code { class: 2, detail: 31 }),
{
    Code::new(2, 31)
}

/// 4.00 Bad Request
pub fn bad_request() -> (r: Code)
    ensures
        r == (Code { class: 4, detail: 0 }),
{
    Code::new(4, 0)
}

/// 4.01 Unauthorized
pub fn unauthorized() -> (r: Code)
    ensures
        r == (Code { class: 4, detail: 1 }),
{
    Code::new(4, 1)
}

/// 4.02 Bad Option
pub fn bad_option() -> (r: Code)
    ensures
        r == (Code { class: 4, detail: 2 }),
{
    Code::new(4, 2)
}

/// 4.03 Forbidden
pub fn forbidden() -> (r: Code)
    ensures
        r == (Code { class: 4, detail: 3 }),
{
    Code::new(4, 3)
}

/// 4.04 Not Found
pub fn not_found() -> (r: Code)
    ensures
        r == (Code { class: 4, detail: 4 }),
{
    Code::new(4, 4)
}

/// 4.05 Method Not Allowed
pub fn method_not_allowed() -> (r: Code)
    ensures
        r == (Code { class: 4, detail: 5 }),
{
    Code::new(4, 5)
}

/// 4.06 Not Acceptable
pub fn not_acceptable() -> (r: Code)
    ensures
        r == (Code { class: 4, detail: 6 }),
{
    Code::new(4, 6)
}

/// 4.08 Request Entity Incomplete: the server has not received the blocks of the request body that it needs to proceed
pub fn request_entity_incomplete() -> (r: Code)
    ensures
        r == (Code { class: 4, detail: 8 }),
{
    Code::new(4, 8)
}

/// 4.12 Precondition Failed
pub fn precondition_failed() -> (r: Code)
    ensures
        r == (Code { class: 4, detail: 12 }),
{
    Code::new(4, 12)
}

/// 4.13 Request Entity Too Large
pub fn request_entity_too_large() -> (r: Code)
    ensures
        r == (Code { class: 4, detail: 13 }),
{
    Code::new(4, 13)
}

/// 4.15 Unsupported Content-Format
pub fn unsupported_content_format() -> (r: Code)
    ensures
        r == (Code { class: 4, detail: 15 }),
{
    Code::new(4, 15)
}

/// 5.00 Internal Server Error
pub fn internal_server_error() -> (r: Code)
    ensures
        r == (Code { class: 5, detail: 0 }),
{
    Code::new(5, 0)
}

/// 5.01 Not Implemented
pub fn not_implemented() -> (r: Code)
    ensures
        r == (Code { class: 5, detail: 1 }),
{
    Code::new(5, 1)
}

/// 5.02 Bad Gateway
pub fn bad_gateway() -> (r: Code)
    ensures
        r == (Code { class: 5, detail: 2 }),
{
    Code::new(5, 2)
}

/// 5.03 Service Unavailable
pub fn service_unavailable() -> (r: Code)
    ensures
        r == (Code { class: 5, detail: 3 }),
{
    Code::new(5, 3)
}

/// 5.04 Gateway Timeout
pub fn gateway_timeout() -> (r: Code)
    ensures
        r == (Code { class: 5, detail: 4 }),
{
    Code::new(5, 4)
}

/// 5.05 Proxying Not Supported
pub fn proxying_not_supported() -> (r: Code)
    ensures
        r == (Code { class: 5, detail: 5 }),
{
    Code::new(5, 5)
}

} // verus!
