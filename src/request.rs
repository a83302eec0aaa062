use vstd::prelude::*;

use crate::error::StreamError;

verus! {

/// What a caller asks to stream: a ticker symbol and the credential token of
/// the feed. Both are non-empty; neither changes once a session starts.
pub struct StreamRequest {
    ticker: String,
    api_token: String,
}

impl StreamRequest {
    /// Both fields are non-empty.
    pub open spec fn wf(&self) -> bool {
        self.spec_ticker().len() > 0 && self.spec_api_token().len() > 0
    }

    pub closed spec fn spec_ticker(&self) -> Seq<char> {
        self.ticker@
    }

    pub closed spec fn spec_api_token(&self) -> Seq<char> {
        self.api_token@
    }

    /// Validates a request: an empty ticker or an empty token is refused with
    /// `InvalidArgument`, and nothing else is.
    pub fn new(ticker: String, api_token: String) -> (r: Result<StreamRequest, StreamError>)
        ensures
            r is Err <==> (ticker@.len() == 0 || api_token@.len() == 0),
            r is Err ==> r == Err::<StreamRequest, StreamError>(StreamError::InvalidArgument),
            r is Ok ==> r->Ok_0.spec_ticker() == ticker@ && r->Ok_0.spec_api_token() == api_token@
                && r->Ok_0.wf(),
    {
        if ticker.as_str().is_empty() || api_token.as_str().is_empty() {
            return Err(StreamError::InvalidArgument);
        }
        Ok(StreamRequest { ticker, api_token })
    }

    pub fn ticker(&self) -> (r: &String)
        ensures
            r@ == self.spec_ticker(),
    {
        &self.ticker
    }

    pub fn api_token(&self) -> (r: &String)
        ensures
            r@ == self.spec_api_token(),
    {
        &self.api_token
    }
}

} // verus!
