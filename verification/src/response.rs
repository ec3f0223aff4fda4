//! The response writer: from a response status to the bytes on the wire.
//!
//! Writing a response needs two answers from the content store, its listing
//! and the bytes of one resource. The store is not reached from here.
//! [`send_response`] is one step of the procedure: given the status being
//! answered and the latest word from the store, it says what to do next.
//! The caller performs that action and comes back with the store's answer.

use crate::text::{decimal, push_decimal, text_eq};
use vstd::prelude::*;
use vstd::string::*;

verus! {

/// The outcome of handling a request: success with the requested path, or
/// one of three failures.
#[derive(Clone, Copy, Debug, PartialEq, Eq)]
pub enum ResponseStatus<'a> {
    Ok200(&'a str),
    Bad400,
    Bad404,
    Fail500,
}

/// A response status as a mathematical value; the requested path is a
/// sequence of characters.
pub enum StatusModel {
    Success(Seq<char>),
    BadRequest,
    NotFound,
    ServerError,
}

impl<'a> View for ResponseStatus<'a> {
    type V = StatusModel;

    open spec fn view(&self) -> StatusModel {
        match *self {
            ResponseStatus::Ok200(path) => StatusModel::Success(path@),
            ResponseStatus::Bad400 => StatusModel::BadRequest,
            ResponseStatus::Bad404 => StatusModel::NotFound,
            ResponseStatus::Fail500 => StatusModel::ServerError,
        }
    }
}

/// The status line that announces `status`, without its line terminator.
pub open spec fn status_text(status: StatusModel) -> Seq<char> {
    match status {
        StatusModel::Success(_) => "HTTP/1.1 200 OK"@,
        StatusModel::BadRequest => "HTTP/1.1 400 BAD REQUEST"@,
        StatusModel::NotFound => "HTTP/1.1 404 NOT FOUND"@,
        StatusModel::ServerError => "HTTP/1.1 500 INTERNAL SERVER ERROR"@,
    }
}

/// The name of the resource that answers `status`: the index document for
/// the root path, any other requested path without its first character, and
/// a fixed error document for each failure.
pub open spec fn resource_name(status: StatusModel) -> Seq<char> {
    match status {
        StatusModel::Success(path) => if path == "/"@ {
            "index.html"@
        } else if path.len() == 0 {
            path
        } else {
            path.subrange(1, path.len() as int)
        },
        StatusModel::BadRequest => "400.html"@,
        StatusModel::NotFound => "404.html"@,
        StatusModel::ServerError => "500.html"@,
    }
}

/// Whether `name` holds two dots in a row, the marker of a parent directory.
pub open spec fn has_parent_marker(name: Seq<char>) -> bool {
    exists|i: int| 0 <= i && i + 1 < name.len() && #[trigger] name[i] == '.' && name[i + 1] == '.'
}

/// Whether `name` is, character for character, one of the entries of
/// `listing`.
pub open spec fn is_listed(listing: Seq<String>, name: Seq<char>) -> bool {
    exists|i: int| 0 <= i < listing.len() && (#[trigger] listing[i])@ == name
}

/// What precedes the body on the wire: the status line, the length header
/// with the body's exact byte count, and the blank line.
pub open spec fn head_text(status_line: Seq<char>, length: nat) -> Seq<char> {
    status_line + "\r\n"@ + "Content-Length: "@ + decimal(length) + "\r\n\r\n"@
}

impl<'a> ResponseStatus<'a> {
    /// The status line for this status, without its line terminator.
    pub fn status_line(&self) -> (line: &'static str)
        ensures
            line@ == status_text(self@),
    {
        match self {
            ResponseStatus::Ok200(_) => "HTTP/1.1 200 OK",
            ResponseStatus::Bad400 => "HTTP/1.1 400 BAD REQUEST",
            ResponseStatus::Bad404 => "HTTP/1.1 404 NOT FOUND",
            ResponseStatus::Fail500 => "HTTP/1.1 500 INTERNAL SERVER ERROR",
        }
    }

    /// The name of the resource that answers this status.
    pub fn resource_name(&self) -> (name: &'a str)
        ensures
            name@ == resource_name(self@),
    {
        match *self {
            ResponseStatus::Ok200(path) => {
                if text_eq(path, "/") {
                    "index.html"
                } else {
                    let length = path.unicode_len();
                    if length == 0 {
                        path
                    } else {
                        path.substring_char(1, length)
                    }
                }
            },
            ResponseStatus::Bad400 => "400.html",
            ResponseStatus::Bad404 => "404.html",
            ResponseStatus::Fail500 => "500.html",
        }
    }
}

/// Whether `name` holds a parent-directory marker.
pub fn contains_parent_marker(name: &str) -> (found: bool)
    ensures
        found == has_parent_marker(name@),
{
    broadcast use vstd::string::group_string_axioms;

    let mut after_dot = false;
    for c in it: name.chars()
        invariant
            it.seq() == name@,
            after_dot == (it.index() > 0 && name@[it.index() - 1] == '.'),
            forall|i: int|
                0 <= i && i + 1 < it.index() ==> !(#[trigger] name@[i] == '.' && name@[i + 1]
                    == '.'),
    {
        if c == '.' {
            if after_dot {
                assert(name@[it.index() - 1] == '.' && name@[it.index() - 1 + 1] == '.');
                return true;
            }
            after_dot = true;
        } else {
            after_dot = false;
        }
    }
    false
}

/// Whether `name` is one of the entries of `listing`.
pub fn listing_contains(listing: &Vec<String>, name: &str) -> (found: bool)
    ensures
        found == is_listed(listing@, name@),
{
    let mut k: usize = 0;
    while k < listing.len()
        invariant
            k <= listing.len(),
            forall|i: int| 0 <= i < k ==> (#[trigger] listing@[i])@ != name@,
        decreases listing.len() - k,
    {
        if text_eq(listing[k].as_str(), name) {
            return true;
        }
        k += 1;
    }
    false
}

/// The head of a response: status line, length header and blank line.
pub fn response_head(status_line: &str, length: usize) -> (head: String)
    ensures
        head@ == head_text(status_line@, length as nat),
{
    let mut head = String::from_str(status_line);
    head.append("\r\n");
    head.append("Content-Length: ");
    push_decimal(&mut head, length);
    head.append("\r\n\r\n");
    head
}

/// The latest word from the content store, as the caller reports it.
#[derive(Debug, PartialEq, Eq)]
pub enum StoreEvent {
    /// Nothing has been asked of the store yet.
    Begin,
    /// The store listed its entries by name.
    Listed(Vec<String>),
    /// The store could not be listed.
    ListFailed,
    /// The store returned the bytes of the resource.
    Found(Vec<u8>),
    /// The store holds no resource of that name.
    Absent,
    /// Reading the resource failed for another reason.
    ReadFailed,
}

/// What the caller does next.
#[derive(Debug, PartialEq, Eq)]
pub enum Step<'a> {
    /// Give up on this status and answer the given one instead, from the
    /// beginning.
    Retry(ResponseStatus<'a>),
    /// Ask the store for its listing.
    List,
    /// Ask the store for the bytes of the named resource.
    Read(&'a str),
    /// Write the head, then the body, then flush; the exchange is over.
    Send(String, Vec<u8>),
}

/// A step as a mathematical value.
pub enum StepModel {
    Retry(StatusModel),
    List,
    Read(Seq<char>),
    Send(Seq<char>, Seq<u8>),
}

impl<'a> View for Step<'a> {
    type V = StepModel;

    open spec fn view(&self) -> StepModel {
        match *self {
            Step::Retry(status) => StepModel::Retry(status@),
            Step::List => StepModel::List,
            Step::Read(name) => StepModel::Read(name@),
            Step::Send(head, body) => StepModel::Send(head@, body@),
        }
    }
}

/// The step that answers `event` while `status` is being sent.
///
/// A resource name with a parent-directory marker is turned away before
/// anything else is looked at, whatever the store has said. Otherwise the
/// listing is asked for first; a name that the listing holds is read; a name
/// that it lacks, a listing that failed and a resource that is absent all
/// fall back to the not-found status; any other read failure falls back to
/// the bad-request status; and bytes that were read are framed and sent.
pub open spec fn next_step(status: StatusModel, event: StoreEvent) -> StepModel {
    let name = resource_name(status);
    if has_parent_marker(name) {
        StepModel::Retry(StatusModel::NotFound)
    } else {
        match event {
            StoreEvent::Begin => StepModel::List,
            StoreEvent::Listed(listing) => if is_listed(listing@, name) {
                StepModel::Read(name)
            } else {
                StepModel::Retry(StatusModel::NotFound)
            },
            StoreEvent::ListFailed => StepModel::Retry(StatusModel::NotFound),
            StoreEvent::Found(body) => StepModel::Send(
                head_text(status_text(status), body@.len()),
                body@,
            ),
            StoreEvent::Absent => StepModel::Retry(StatusModel::NotFound),
            StoreEvent::ReadFailed => StepModel::Retry(StatusModel::BadRequest),
        }
    }
}

/// One step of sending the response for `status`.
///
/// The store is only ever asked about a name that is free of
/// parent-directory markers, and only read for a name that its own listing
/// holds.
pub fn send_response<'a>(status: ResponseStatus<'a>, event: StoreEvent) -> (step: Step<'a>)
    ensures
        step@ == next_step(status@, event),
        has_parent_marker(resource_name(status@)) ==> step@ == StepModel::Retry(
            StatusModel::NotFound,
        ),
        event matches StoreEvent::Listed(listing) && !is_listed(listing@, resource_name(status@))
            ==> step@ == StepModel::Retry(StatusModel::NotFound),
        step@ matches StepModel::Read(name) ==> !has_parent_marker(name) && name == resource_name(
            status@,
        ) && (event matches StoreEvent::Listed(listing) && is_listed(listing@, name)),
{
    let name = status.resource_name();
    if contains_parent_marker(name) {
        return Step::Retry(ResponseStatus::Bad404);
    }
    match event {
        StoreEvent::Begin => Step::List,
        StoreEvent::Listed(listing) => {
            if listing_contains(&listing, name) {
                Step::Read(name)
            } else {
                Step::Retry(ResponseStatus::Bad404)
            }
        },
        StoreEvent::ListFailed => Step::Retry(ResponseStatus::Bad404),
        StoreEvent::Found(body) => {
            let head = response_head(status.status_line(), body.len());
            Step::Send(head, body)
        },
        StoreEvent::Absent => Step::Retry(ResponseStatus::Bad404),
        StoreEvent::ReadFailed => Step::Retry(ResponseStatus::Bad400),
    }
}

/// The index document and the three error documents pass the guard
/// against parent-directory markers: a status that was fallen back to is
/// never turned away for its name.
pub proof fn lemma_fixed_documents_pass(status: StatusModel)
    requires
        status is Success ==> status == StatusModel::Success("/"@),
    ensures
        !has_parent_marker(resource_name(status)),
        next_step(status, StoreEvent::Begin) == StepModel::List,
{
    reveal_strlit("index.html");
    reveal_strlit("400.html");
    reveal_strlit("404.html");
    reveal_strlit("500.html");
    let name = resource_name(status);
    assert forall|i: int| 0 <= i && i + 1 < name.len() implies !(#[trigger] name[i] == '.' && name[i
        + 1] == '.') by {
        if name[i] == '.' {
            assert(name[i + 1] == 'h');
        }
    }
}

} // verus!
