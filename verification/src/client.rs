//! The client of the HTTP API: where each request goes, how long it may take, and what
//! can go wrong.

use vstd::prelude::*;
use crate::db::{id_text, quote, quoted, uuid_written};
use crate::scrape::generic::{join_url, joined_url};
use crate::text::{nat_text, u64_text};

verus! {

/// Seconds that a data request may take: generous for a server on the LAN, short enough
/// that an unreachable one fails the page fast.
pub const DATA_TIMEOUT: u64 = 8;

/// Seconds that the health probe may take.
pub const HEALTH_TIMEOUT: u64 = 3;

/// Seconds that a request may take that waits for a slow local LLM.
pub const LLM_TIMEOUT: u64 = 330;

/// Seconds that listing the models of an endpoint may take.
pub const MODELS_TIMEOUT: u64 = 15;

/// Seconds that testing an endpoint may take.
pub const TEST_TIMEOUT: u64 = 120;

/// What can go wrong with a request.
#[derive(Debug, PartialEq, Eq)]
pub enum ClientError {
    Transport(String),
    Api { status: u16, message: String },
    Decode(String),
}

/// What `ClientError` holds.
#[verifier::ext_equal]
pub enum ClientErrorView {
    Transport(Seq<char>),
    Api { status: u16, message: Seq<char> },
    Decode(Seq<char>),
}

impl DeepView for ClientError {
    type V = ClientErrorView;

    open spec fn deep_view(&self) -> ClientErrorView {
        match self {
            ClientError::Transport(m) => ClientErrorView::Transport(m@),
            ClientError::Api { status, message } => ClientErrorView::Api {
                status: *status,
                message: message@,
            },
            ClientError::Decode(m) => ClientErrorView::Decode(m@),
        }
    }
}

/// What an error says.
pub open spec fn client_error_text(e: ClientErrorView) -> Seq<char> {
    match e {
        ClientErrorView::Transport(m) => "request failed: "@ + m,
        ClientErrorView::Api { status, message } => "server returned "@ + nat_text(status as nat)
            + ": "@ + message,
        ClientErrorView::Decode(m) => "invalid response body: "@ + m,
    }
}

impl ClientError {
    /// What the error says.
    pub fn message(&self) -> (r: String)
        ensures
            r@ == client_error_text(self.deep_view()),
    {
        match self {
            ClientError::Transport(m) => {
                let mut out = "request failed: ".to_owned();
                out.append(m.as_str());
                out
            },
            ClientError::Api { status, message } => {
                let mut out = "server returned ".to_owned();
                out.append(u64_text(*status as u64).as_str());
                out.append(": ");
                out.append(message.as_str());
                out
            },
            ClientError::Decode(m) => {
                let mut out = "invalid response body: ".to_owned();
                out.append(m.as_str());
                out
            },
        }
    }
}

/// The body of a response with a success status; the server's own message with another.
pub fn check_status(status: u16, body: String) -> (r: Result<String, ClientError>)
    ensures
        match r {
            Ok(b) => 200 <= status < 300 && b@ == body@,
            Err(e) => !(200 <= status < 300) && e.deep_view() == (ClientErrorView::Api {
                status,
                message: body@,
            }),
        },
{
    if status >= 200 && status < 300 {
        Ok(body)
    } else {
        Err(ClientError::Api { status, message: body })
    }
}

/// The client of one server.
#[derive(Debug, PartialEq, Eq)]
pub struct FerretClient {
    base: String,
}

impl View for FerretClient {
    type V = Seq<char>;

    closed spec fn view(&self) -> Seq<char> {
        self.base@
    }
}

/// What the address of a request holds.
pub open spec fn url_result(r: Result<String, ClientError>) -> Result<Seq<char>, ClientErrorView> {
    match r {
        Ok(u) => Ok(u@),
        Err(e) => Err(e.deep_view()),
    }
}

/// The address of a request on the server at `base`.
pub open spec fn request_url(base: Seq<char>, path: Seq<char>) -> Result<
    Seq<char>,
    ClientErrorView,
> {
    match joined_url(base, path) {
        Ok(u) => Ok(u),
        Err(e) => Err(ClientErrorView::Transport("bad url "@ + quoted(path) + ": "@ + e)),
    }
}

impl FerretClient {
    /// The client of the server at `base`, without the `/api` prefix.
    pub fn new(base: String) -> (r: FerretClient)
        ensures
            r@ == base@,
    {
        FerretClient { base }
    }

    /// The address of the server.
    pub fn base(&self) -> (r: &str)
        ensures
            r@ == self@,
    {
        self.base.as_str()
    }

    /// The address of a request.
    pub fn url(&self, path: &str) -> (r: Result<String, ClientError>)
        ensures
            url_result(r) == request_url(self@, path@),
    {
        match join_url(self.base.as_str(), path) {
            Ok(u) => Ok(u),
            Err(e) => {
                let mut m = "bad url ".to_owned();
                m.append(quote(path).as_str());
                m.append(": ");
                m.append(e.as_str());
                Err(ClientError::Transport(m))
            },
        }
    }
}

/// The path of a watch.
pub fn watch_path(id: u128) -> (r: String)
    ensures
        r@ == "api/watches/"@ + uuid_written(id),
{
    let mut out = "api/watches/".to_owned();
    out.append(id_text(id).as_str());
    out
}

/// The path of the price history of a watch.
pub fn watch_prices_path(id: u128) -> (r: String)
    ensures
        r@ == "api/watches/"@ + uuid_written(id) + "/prices"@,
{
    let mut out = watch_path(id);
    out.append("/prices");
    out
}

/// The path of a list of deals.
pub open spec fn deals_at(watch_id: Option<u128>, hidden: bool) -> Seq<char> {
    match watch_id {
        Some(id) => "api/deals?watch_id="@ + uuid_written(id) + "&hidden="@ + (if hidden {
            "true"@
        } else {
            "false"@
        }),
        None => if hidden {
            "api/deals?hidden=true"@
        } else {
            "api/deals"@
        },
    }
}

/// The path of a list of deals: all of them, or one watch's matches; with `hidden`, only
/// those that the user dismissed or banned.
pub fn deals_path(watch_id: Option<u128>, hidden: bool) -> (r: String)
    ensures
        r@ == deals_at(watch_id, hidden),
{
    match watch_id {
        Some(id) => {
            let mut out = "api/deals?watch_id=".to_owned();
            out.append(id_text(id).as_str());
            out.append("&hidden=");
            if hidden {
                out.append("true");
            } else {
                out.append("false");
            }
            out
        },
        None => {
            if hidden {
                "api/deals?hidden=true".to_owned()
            } else {
                "api/deals".to_owned()
            }
        },
    }
}

/// The path of what the user decides about a deal.
pub fn moderation_path(deal_id: u128) -> (r: String)
    ensures
        r@ == "api/deals/"@ + uuid_written(deal_id) + "/moderation"@,
{
    let mut out = "api/deals/".to_owned();
    out.append(id_text(deal_id).as_str());
    out.append("/moderation");
    out
}

/// The path of the price history of a deal.
pub fn deal_prices_path(deal_id: u128) -> (r: String)
    ensures
        r@ == "api/deals/"@ + uuid_written(deal_id) + "/prices"@,
{
    let mut out = "api/deals/".to_owned();
    out.append(id_text(deal_id).as_str());
    out.append("/prices");
    out
}

/// The path of a category.
pub fn category_path(slug: &str) -> (r: String)
    ensures
        r@ == "api/categories/"@ + slug@,
{
    let mut out = "api/categories/".to_owned();
    out.append(slug);
    out
}

/// The path of an ad-hoc search.
pub fn search_path(id: u128) -> (r: String)
    ensures
        r@ == "api/searches/"@ + uuid_written(id),
{
    let mut out = "api/searches/".to_owned();
    out.append(id_text(id).as_str());
    out
}

/// What each error of a client says.
pub proof fn client_errors_are_told(message: Seq<char>, status: u16)
    ensures
        client_error_text(ClientErrorView::Transport(message)) == "request failed: "@ + message,
        client_error_text(ClientErrorView::Api { status, message }) == "server returned "@ + nat_text(
            status as nat,
        ) + ": "@ + message,
        client_error_text(ClientErrorView::Decode(message)) == "invalid response body: "@ + message,
{
}

/// Deals are asked for by watch, where one is given, and with the hidden ones where they
/// are wanted.
pub proof fn deals_are_asked_for(id: u128)
    ensures
        deals_at(None, false) == "api/deals"@,
        deals_at(None, true) == "api/deals?hidden=true"@,
        deals_at(Some(id), true) == "api/deals?watch_id="@ + uuid_written(id) + "&hidden=true"@,
        deals_at(Some(id), false) == "api/deals?watch_id="@ + uuid_written(id) + "&hidden=false"@,
{
    reveal_strlit("&hidden=");
    reveal_strlit("true");
    reveal_strlit("false");
    reveal_strlit("&hidden=true");
    reveal_strlit("&hidden=false");
    assert("&hidden="@ + "true"@ =~= "&hidden=true"@);
    assert("&hidden="@ + "false"@ =~= "&hidden=false"@);
    let front = "api/deals?watch_id="@ + uuid_written(id);
    assert(front + "&hidden="@ + "true"@ =~= front + "&hidden=true"@);
    assert(front + "&hidden="@ + "false"@ =~= front + "&hidden=false"@);
}

/// A request goes to its path on the server, or fails before it is sent.
pub proof fn requests_go_to_the_server(base: Seq<char>, path: Seq<char>)
    ensures
        match joined_url(base, path) {
            Ok(url) => request_url(base, path) == Ok::<Seq<char>, ClientErrorView>(url),
            Err(e) => request_url(base, path) == Err::<Seq<char>, ClientErrorView>(
                ClientErrorView::Transport("bad url "@ + quoted(path) + ": "@ + e),
            ),
        },
{
}

} // verus!
