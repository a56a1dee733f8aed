//! Picks: what a gateway asks an endpoint picker, and what it is told.
use vstd::prelude::*;

verus! {

/// A request that the gateway wants routed.
#[derive(Debug)]
pub struct RequestInfo {
    pub request_id: String,
    pub body: Vec<u8>,
}

/// Why a request is not routed.
#[derive(Debug, PartialEq, Eq)]
pub enum PickError {
    NoEndpoints,
    RoutingFailed(String),
    TokenizationFailed(String),
}

/// What a [`PickError`] says.
pub enum PickErrorView {
    NoEndpoints,
    RoutingFailed(Seq<char>),
    TokenizationFailed(Seq<char>),
}

impl View for PickError {
    type V = PickErrorView;

    open spec fn view(&self) -> PickErrorView {
        match self {
            PickError::NoEndpoints => PickErrorView::NoEndpoints,
            PickError::RoutingFailed(text) => PickErrorView::RoutingFailed(text@),
            PickError::TokenizationFailed(text) => PickErrorView::TokenizationFailed(text@),
        }
    }
}

/// Where a request goes, with the headers that say so.
#[derive(Debug)]
pub struct PickResult {
    pub endpoint: String,
    pub headers: Vec<(String, String)>,
    /// Tokens to inject into the forwarded request.
    pub token_ids: Option<Vec<u32>>,
}

/// What a [`PickResult`] says.
#[verifier::ext_equal]
pub struct PickResultView {
    pub endpoint: Seq<char>,
    pub headers: Seq<(Seq<char>, Seq<char>)>,
    pub token_ids: Option<Seq<u32>>,
}

impl View for PickResult {
    type V = PickResultView;

    open spec fn view(&self) -> PickResultView {
        PickResultView {
            endpoint: self.endpoint@,
            headers: self.headers@.map_values(|h: (String, String)| (h.0@, h.1@)),
            token_ids: match self.token_ids {
                Some(tokens) => Some(tokens@),
                None => None,
            },
        }
    }
}

} // verus!
