//! The answers of the file tools.

use vstd::prelude::*;

use crate::text::{optional_text, same_text};

verus! {

/// What a file tool answers.
#[derive(Debug)]
pub struct FsResponse {
    pub success: bool,
    pub data: Option<String>,
    pub error: Option<String>,
}

/// The content of an `FsResponse`.
pub struct FsResponseView {
    pub success: bool,
    pub data: Option<Seq<char>>,
    pub error: Option<Seq<char>>,
}

impl View for FsResponse {
    type V = FsResponseView;

    open spec fn view(&self) -> FsResponseView {
        FsResponseView {
            success: self.success,
            data: optional_text(self.data),
            error: optional_text(self.error),
        }
    }
}

/// The answer to a request that changes a file, from the status that the host
/// gives: the status "ok" is success, any other is passed on as the error.
pub open spec fn status_response(status: Seq<char>) -> FsResponseView {
    if status == "ok"@ {
        FsResponseView { success: true, data: None, error: None }
    } else {
        FsResponseView { success: false, data: None, error: Some(status) }
    }
}

/// The answer to a request for a file, from the content that the host gives.
pub fn read_file(content: String) -> (response: FsResponse)
    ensures
        response@ == (FsResponseView { success: true, data: Some(content@), error: None }),
{
    FsResponse { success: true, data: Some(content), error: None }
}

/// The answer to a request that writes a file.
pub fn write_file(status: String) -> (response: FsResponse)
    ensures
        response@ == status_response(status@),
{
    if same_text(status.as_str(), "ok") {
        FsResponse { success: true, data: None, error: None }
    } else {
        FsResponse { success: false, data: None, error: Some(status) }
    }
}

/// The answer to a request that deletes a file.
pub fn delete_file(status: String) -> (response: FsResponse)
    ensures
        response@ == status_response(status@),
{
    if same_text(status.as_str(), "ok") {
        FsResponse { success: true, data: None, error: None }
    } else {
        FsResponse { success: false, data: None, error: Some(status) }
    }
}

/// An answer to a change tells of success exactly where it tells of no error,
/// and the error is the host's own word.
pub proof fn law_failure_names_its_status(status: Seq<char>)
    ensures
        status_response(status).success <==> status_response(status).error is None,
        status_response(status).error matches Some(error) ==> error == status,
{
}

/// A change has succeeded exactly if the host says "ok" and nothing else.
pub proof fn law_only_ok_is_success(status: Seq<char>)
    ensures
        status_response(status).success <==> status == seq!['o', 'k'],
        status_response(status).data is None,
        status != seq!['o', 'k'] ==> status_response(status).error == Some(status),
{
    reveal_strlit("ok");
    assert("ok"@ == seq!['o', 'k']);
}

} // verus!
