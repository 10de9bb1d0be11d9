use vstd::prelude::*;

verus! {

/// The current time rendered as an RFC 3339 string.
///
/// Relies on chrono::Utc::now and chrono::DateTime::to_rfc3339: reads the
/// system clock and formats it; nothing is promised of the result, which
/// depends on the clock. The underlying call aborts on a machine whose clock
/// is set before the Unix epoch.
#[verifier::external_body]
fn rfc3339_now() -> String {
    chrono::Utc::now().to_rfc3339()
}

/// The error payload every failing operation answers with.
pub struct ApiErrorResponse {
    pub message: String,
    pub timestamp: String,
}

impl ApiErrorResponse {
    /// Wraps a message with the moment it was produced.
    pub fn new(message: String) -> (r: ApiErrorResponse)
        ensures
            r.message == message,
    {
        ApiErrorResponse { message, timestamp: rfc3339_now() }
    }
}

/// The pagination envelope; present in the response shape but unused by any
/// current operation.
pub struct PaginationMeta {
    pub total: usize,
    pub page: usize,
    pub limit: usize,
    pub total_pages: usize,
    pub has_next_page: bool,
    pub has_previous_page: bool,
}

/// The payload envelope every successful operation answers with.
pub struct ApiResponse<T> {
    pub data: T,
    pub meta: Option<PaginationMeta>,
    pub timestamp: String,
}

impl<T> ApiResponse<T> {
    /// A successful response without pagination.
    pub fn success(data: T) -> (r: ApiResponse<T>)
        ensures
            r.data == data,
            r.meta is None,
    {
        ApiResponse { data, meta: None, timestamp: rfc3339_now() }
    }

    /// A successful response carrying a pagination envelope.
    pub fn with_pagination(data: T, meta: PaginationMeta) -> (r: ApiResponse<T>)
        ensures
            r.data == data,
            r.meta == Some(meta),
    {
        ApiResponse { data, meta: Some(meta), timestamp: rfc3339_now() }
    }
}

} // verus!
