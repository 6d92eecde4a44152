use vstd::prelude::*;

verus! {

/// What a single HTTP exchange produced: a transport failure with its
/// message, or a status code and the body text.
pub enum HttpReply {
    Failed(String),
    Received { status: u16, body: String },
}

pub enum HttpReplyView {
    Failed(Seq<char>),
    Received { status: u16, body: Seq<char> },
}

impl View for HttpReply {
    type V = HttpReplyView;

    open spec fn view(&self) -> HttpReplyView {
        match self {
            HttpReply::Failed(m) => HttpReplyView::Failed(m@),
            HttpReply::Received { status, body } => HttpReplyView::Received {
                status: *status,
                body: body@,
            },
        }
    }
}

/// A 2xx status.
pub open spec fn is_success(status: u16) -> bool {
    200 <= status < 300
}

pub fn status_is_success(status: u16) -> (r: bool)
    ensures
        r == is_success(status),
{
    200 <= status && status < 300
}

/// Why a collection fetch failed. Each names the page address that failed.
pub enum FetchError {
    Transport { url: String, message: String },
    Status { url: String, status: u16 },
}

pub enum FetchErrorView {
    Transport { url: Seq<char>, message: Seq<char> },
    Status { url: Seq<char>, status: u16 },
}

impl View for FetchError {
    type V = FetchErrorView;

    open spec fn view(&self) -> FetchErrorView {
        match self {
            FetchError::Transport { url, message } => FetchErrorView::Transport {
                url: url@,
                message: message@,
            },
            FetchError::Status { url, status } => FetchErrorView::Status {
                url: url@,
                status: *status,
            },
        }
    }
}

} // verus!
