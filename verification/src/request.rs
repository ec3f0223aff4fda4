//! The connection handler: from the first line of a request to the status
//! that answers it.

use crate::response::{ResponseStatus, StatusModel};
use crate::text::{is_ascii_space, is_space, text_eq, to_chars};
use vstd::prelude::*;
use vstd::string::*;

verus! {

/// The request methods that the handler recognises.
#[derive(Clone, Copy, Debug, PartialEq, Eq, Structural)]
pub enum RequestType {
    GET,
    POST,
    HEAD,
    PUT,
    DELETE,
    CONNECT,
    OPTIONS,
    TRACE,
    PATCH,
}

impl RequestType {
    /// The token that names this method on the request line.
    pub open spec fn name(self) -> Seq<char> {
        match self {
            RequestType::GET => "GET"@,
            RequestType::POST => "POST"@,
            RequestType::HEAD => "HEAD"@,
            RequestType::PUT => "PUT"@,
            RequestType::DELETE => "DELETE"@,
            RequestType::CONNECT => "CONNECT"@,
            RequestType::OPTIONS => "OPTIONS"@,
            RequestType::TRACE => "TRACE"@,
            RequestType::PATCH => "PATCH"@,
        }
    }

    /// The method that `token` names, if any. Names are matched exactly, in
    /// upper case.
    pub open spec fn recognize(token: Seq<char>) -> Option<RequestType> {
        if token == RequestType::GET.name() {
            Some(RequestType::GET)
        } else if token == RequestType::POST.name() {
            Some(RequestType::POST)
        } else if token == RequestType::HEAD.name() {
            Some(RequestType::HEAD)
        } else if token == RequestType::PUT.name() {
            Some(RequestType::PUT)
        } else if token == RequestType::DELETE.name() {
            Some(RequestType::DELETE)
        } else if token == RequestType::CONNECT.name() {
            Some(RequestType::CONNECT)
        } else if token == RequestType::OPTIONS.name() {
            Some(RequestType::OPTIONS)
        } else if token == RequestType::TRACE.name() {
            Some(RequestType::TRACE)
        } else if token == RequestType::PATCH.name() {
            Some(RequestType::PATCH)
        } else {
            None
        }
    }

    /// The token that names this method.
    pub fn as_str(&self) -> (text: &'static str)
        ensures
            text@ == self.name(),
    {
        match self {
            RequestType::GET => "GET",
            RequestType::POST => "POST",
            RequestType::HEAD => "HEAD",
            RequestType::PUT => "PUT",
            RequestType::DELETE => "DELETE",
            RequestType::CONNECT => "CONNECT",
            RequestType::OPTIONS => "OPTIONS",
            RequestType::TRACE => "TRACE",
            RequestType::PATCH => "PATCH",
        }
    }

    /// The method that `token` names, if it names one.
    pub fn parse(token: &str) -> (method: Option<RequestType>)
        ensures
            method == RequestType::recognize(token@),
    {
        if text_eq(token, RequestType::GET.as_str()) {
            Some(RequestType::GET)
        } else if text_eq(token, RequestType::POST.as_str()) {
            Some(RequestType::POST)
        } else if text_eq(token, RequestType::HEAD.as_str()) {
            Some(RequestType::HEAD)
        } else if text_eq(token, RequestType::PUT.as_str()) {
            Some(RequestType::PUT)
        } else if text_eq(token, RequestType::DELETE.as_str()) {
            Some(RequestType::DELETE)
        } else if text_eq(token, RequestType::CONNECT.as_str()) {
            Some(RequestType::CONNECT)
        } else if text_eq(token, RequestType::OPTIONS.as_str()) {
            Some(RequestType::OPTIONS)
        } else if text_eq(token, RequestType::TRACE.as_str()) {
            Some(RequestType::TRACE)
        } else if text_eq(token, RequestType::PATCH.as_str()) {
            Some(RequestType::PATCH)
        } else {
            None
        }
    }
}

/// Every method is recognised by its own name, and by no other method's.
pub proof fn lemma_recognize_name(method: RequestType)
    ensures
        RequestType::recognize(method.name()) == Some(method),
{
    reveal_strlit("GET");
    reveal_strlit("POST");
    reveal_strlit("HEAD");
    reveal_strlit("PUT");
    reveal_strlit("DELETE");
    reveal_strlit("CONNECT");
    reveal_strlit("OPTIONS");
    reveal_strlit("TRACE");
    reveal_strlit("PATCH");
    let name = method.name();
    assert(name.len() >= 3);
    assert("GET"@[0] == 'G' && "POST"@[1] == 'O' && "HEAD"@[0] == 'H' && "PUT"@[1] == 'U');
    assert("DELETE"@[0] == 'D' && "CONNECT"@[0] == 'C' && "OPTIONS"@[1] == 'P' && "TRACE"@[0]
        == 'T' && "PATCH"@[1] == 'A');
}

/// Where the token that holds position `from` ends: the first position at
/// or after `from` that holds whitespace, or the end of the line.
pub open spec fn token_end(line: Seq<char>, from: int) -> int
    decreases line.len() - from,
{
    if 0 <= from < line.len() && !is_space(line[from]) {
        token_end(line, from + 1)
    } else {
        from
    }
}

/// The tokens of `line` that start at or after `from`: the maximal runs of
/// characters other than whitespace, in order.
pub open spec fn tokens_from(line: Seq<char>, from: int) -> Seq<Seq<char>>
    decreases line.len() - from,
    via tokens_from_decreases
{
    if from < 0 || from >= line.len() {
        Seq::empty()
    } else if is_space(line[from]) {
        tokens_from(line, from + 1)
    } else {
        seq![line.subrange(from, token_end(line, from + 1))] + tokens_from(
            line,
            token_end(line, from + 1),
        )
    }
}

#[via_fn]
proof fn tokens_from_decreases(line: Seq<char>, from: int) {
    if 0 <= from < line.len() && !is_space(line[from]) {
        lemma_token_end(line, from + 1);
    }
}

/// The tokens of `line`.
pub open spec fn tokens(line: Seq<char>) -> Seq<Seq<char>> {
    tokens_from(line, 0)
}

/// A token runs up to the end of the line or to the next whitespace, and
/// holds no whitespace itself.
pub proof fn lemma_token_end(line: Seq<char>, from: int)
    requires
        0 <= from <= line.len(),
    ensures
        from <= token_end(line, from) <= line.len(),
        token_end(line, from) < line.len() ==> is_space(line[token_end(line, from)]),
        forall|i: int| from <= i < token_end(line, from) ==> !is_space(#[trigger] line[i]),
    decreases line.len() - from,
{
    if from < line.len() && !is_space(line[from]) {
        lemma_token_end(line, from + 1);
    }
}

/// The status that answers a request line.
///
/// A line without tokens is a server error. A first token that names no
/// method is a bad request, and so is a line with fewer than three tokens.
/// With three tokens or more, the read method succeeds with the second token
/// as its path, and every other method is a server error.
pub open spec fn request_status(line: Seq<char>) -> StatusModel {
    let words = tokens(line);
    if words.len() == 0 {
        StatusModel::ServerError
    } else if RequestType::recognize(words[0]) is None {
        StatusModel::BadRequest
    } else if words.len() < 3 {
        StatusModel::BadRequest
    } else if RequestType::recognize(words[0]) == Some(RequestType::GET) {
        StatusModel::Success(words[1])
    } else {
        StatusModel::ServerError
    }
}

/// The bounds of the first token of `line` at or after `from`, if there is
/// one.
fn next_token(line: &Vec<char>, from: usize) -> (bounds: Option<(usize, usize)>)
    requires
        from <= line.len(),
    ensures
        match bounds {
            None => tokens_from(line@, from as int).len() == 0,
            Some((start, end)) => {
                &&& from <= start < end <= line.len()
                &&& tokens_from(line@, from as int) == seq![
                    line@.subrange(start as int, end as int),
                ] + tokens_from(line@, end as int)
            },
        },
{
    let mut start = from;
    while start < line.len() && is_ascii_space(line[start])
        invariant
            from <= start <= line.len(),
            tokens_from(line@, from as int) == tokens_from(line@, start as int),
        decreases line.len() - start,
    {
        start += 1;
    }
    if start == line.len() {
        return None;
    }
    let mut end = start + 1;
    while end < line.len() && !is_ascii_space(line[end])
        invariant
            start < end <= line.len(),
            token_end(line@, start as int + 1) == token_end(line@, end as int),
        decreases line.len() - end,
    {
        end += 1;
    }
    Some((start, end))
}

/// Decides how to answer a connection from what was read of it.
///
/// `request` is the first line of the connection, without its terminator,
/// or `None` where no line could be read: the peer closed the connection
/// first, or the read failed. Without a line there is nothing to answer.
/// With one, the answer is the status of that line.
pub fn handle_connection<'a>(request: Option<&'a str>) -> (answer: Option<ResponseStatus<'a>>)
    ensures
        match request {
            None => answer is None,
            Some(line) => answer matches Some(status) && status@ == request_status(line@),
        },
{
    let line = match request {
        None => {
            return None;
        },
        Some(line) => line,
    };
    let chars = to_chars(line);
    let (method_start, method_end) = match next_token(&chars, 0) {
        None => {
            return Some(ResponseStatus::Fail500);
        },
        Some(bounds) => bounds,
    };
    let method = match RequestType::parse(line.substring_char(method_start, method_end)) {
        None => {
            return Some(ResponseStatus::Bad400);
        },
        Some(method) => method,
    };
    let (path_start, path_end) = match next_token(&chars, method_end) {
        None => {
            return Some(ResponseStatus::Bad400);
        },
        Some(bounds) => bounds,
    };
    if next_token(&chars, path_end).is_none() {
        return Some(ResponseStatus::Bad400);
    }
    match method {
        RequestType::GET => Some(ResponseStatus::Ok200(line.substring_char(path_start, path_end))),
        _ => Some(ResponseStatus::Fail500),
    }
}

} // verus!
