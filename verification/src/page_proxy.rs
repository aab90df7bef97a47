//! The standalone page proxy: fetch a URL and hand the page back to the
//! browser front end.
use vstd::prelude::*;

verus! {

/// A page fetched for the front end, with the remote server's status.
#[derive(Debug, PartialEq, Eq)]
pub struct ProxyResponse {
    pub html: String,
    pub status: u16,
}

/// How fetching the page went.
#[derive(Debug, PartialEq, Eq)]
pub enum PageFetch {
    /// The remote server answered with `status` and the body read as `html`.
    Fetched { status: u16, html: String },
    /// The remote server answered but its body could not be read as text.
    BodyUnreadable,
    /// The request could not be made.
    Unreachable,
}

/// The JSON body of the reply.
#[derive(Debug, PartialEq, Eq)]
pub enum PageBody {
    Page(ProxyResponse),
    /// `{"error": ...}`
    Error(String),
}

/// The reply to the front end: an HTTP status and a JSON body.
#[derive(Debug, PartialEq, Eq)]
pub struct PageReply {
    pub http_status: u16,
    pub body: PageBody,
}

/// The reply for each way fetching the page can go: the page with 200, an
/// unreadable body with 500, an unreachable URL with 400.
pub fn page_reply(outcome: PageFetch) -> (r: PageReply)
    ensures
        outcome matches PageFetch::Fetched { status, html } ==> r == (PageReply {
            http_status: 200,
            body: PageBody::Page(ProxyResponse { html, status }),
        }),
        outcome is BodyUnreadable ==> (r.http_status == 500 && (r.body matches PageBody::Error(e)
            && e@ == "Failed to read response body"@)),
        outcome is Unreachable ==> (r.http_status == 400 && (r.body matches PageBody::Error(e) && e@
            == "Failed to fetch the URL"@)),
{
    match outcome {
        PageFetch::Fetched { status, html } => PageReply {
            http_status: 200,
            body: PageBody::Page(ProxyResponse { html, status }),
        },
        PageFetch::BodyUnreadable => PageReply {
            http_status: 500,
            body: PageBody::Error("Failed to read response body".to_owned()),
        },
        PageFetch::Unreachable => PageReply {
            http_status: 400,
            body: PageBody::Error("Failed to fetch the URL".to_owned()),
        },
    }
}

} // verus!
