use crate::utils::digest::{hex, hex_text, hmac_sha256, mac};
use crate::utils::params::{joined, with, ParamMap};
use crate::utils::{get_timestamp, numeral, numeral_text};
use vstd::prelude::*;
use vstd::string::StringExecFns;
use vstd::utf8::encode_utf8;

verus! {

/// For how many milliseconds after its timestamp the venue takes a request.
pub const DEFAULT_RECV_WINDOW: usize = 5000;

/// How to reach the REST interface of the venue.
pub struct Client {
    api_key: String,
    api_secret: String,
}

impl Client {
    pub closed spec fn api_key(&self) -> Seq<char> {
        self.api_key@
    }

    pub closed spec fn api_secret(&self) -> Seq<char> {
        self.api_secret@
    }

    /// The bytes of the secret that signs requests.
    pub closed spec fn secret_bytes(&self) -> Seq<u8> {
        encode_utf8(self.api_secret@)
    }

    /// `params` with the receive window and `timestamp`, as a query string.
    pub open spec fn param_text(params: Seq<(Seq<char>, Seq<char>)>, timestamp: u64) -> Seq<char> {
        joined(
            with(
                with(params, "recvWindow"@, numeral(DEFAULT_RECV_WINDOW as nat)),
                "timestamp"@,
                numeral(timestamp as nat),
            ),
        )
    }

    /// `params` with their signature under `secret` appended.
    pub open spec fn signed_text(params: Seq<char>, secret: Seq<u8>) -> Seq<char> {
        params + "&signature="@ + hex(hmac_sha256(secret, encode_utf8(params)))
    }

    /// The address for a request to `endpoint` with the query string
    /// `query`, signed where there is a secret to sign it with.
    pub open spec fn address(endpoint: Seq<char>, query: Seq<char>, secret: Option<Seq<u8>>) -> Seq<
        char,
    > {
        "https://trade.mandala.exchange"@ + endpoint + "?"@ + match secret {
            Some(secret) => Self::signed_text(query, secret),
            None => query,
        }
    }

    pub fn new(api_key: String, api_secret: String) -> (client: Client)
        ensures
            client.api_key() == api_key@,
            client.api_secret() == api_secret@,
    {
        Client { api_key, api_secret }
    }

    /// The key to send in the header of every request.
    pub fn key(&self) -> (key: &String)
        ensures
            key@ == self.api_key(),
    {
        &self.api_key
    }

    /// Appends to a query string its HMAC-SHA256 under the secret, in
    /// hexadecimal digits.
    pub fn sign_params(&self, params: String) -> (signed: String)
        ensures
            signed@ == Self::signed_text(params@, self.secret_bytes()),
    {
        let code = mac(self.api_secret.as_str().as_bytes(), params.as_str().as_bytes());
        let signature = hex_text(code.as_slice());
        let mut signed = params;
        signed.append("&signature=");
        signed.append(signature.as_str());
        signed
    }

    /// The query string for `params` at the time `timestamp`: the receive
    /// window and the timestamp are added, and the parameters joined in the
    /// order of their keys.
    pub fn param_string_at(params: ParamMap, timestamp: u64) -> (text: String)
        requires
            params.wf(),
        ensures
            text@ == Self::param_text(params@, timestamp),
    {
        let mut params = params;
        params.insert(String::from_str("recvWindow"), numeral_text(DEFAULT_RECV_WINDOW as u64));
        params.insert(String::from_str("timestamp"), numeral_text(timestamp));
        params.query()
    }

    /// The query string for `params`, stamped with the time.
    pub fn create_param_string(params: ParamMap) -> (text: String)
        requires
            params.wf(),
        ensures
            exists|timestamp: u64| text@ == #[trigger] Self::param_text(params@, timestamp),
    {
        let timestamp = get_timestamp();
        let text = Self::param_string_at(params, timestamp);
        assert(text@ == Self::param_text(params@, timestamp));
        text
    }

    /// The secret to sign with, where signing is asked for.
    pub open spec fn signer(&self, signed: bool) -> Option<Seq<u8>> {
        if signed {
            Some(self.secret_bytes())
        } else {
            None
        }
    }

    /// The address to send a request for `endpoint` with `params` to at the
    /// time `timestamp`: the venue's, the endpoint, and the query string,
    /// signed where asked.
    pub fn request_at(&self, endpoint: &String, params: ParamMap, signed: bool, timestamp: u64) -> (url:
        String)
        requires
            params.wf(),
        ensures
            url@ == Self::address(
                endpoint@,
                Self::param_text(params@, timestamp),
                self.signer(signed),
            ),
    {
        let query = Self::param_string_at(params, timestamp);
        let query = if signed {
            self.sign_params(query)
        } else {
            query
        };
        let mut url = String::from_str("https://trade.mandala.exchange");
        url.append(endpoint.as_str());
        url.append("?");
        url.append(query.as_str());
        url
    }

    /// The address to send a request for `endpoint` with `params` to,
    /// stamped with the time.
    pub fn request(&self, endpoint: &String, params: ParamMap, signed: bool) -> (url: String)
        requires
            params.wf(),
        ensures
            exists|timestamp: u64|
                url@ == Self::address(
                    endpoint@,
                    #[trigger] Self::param_text(params@, timestamp),
                    self.signer(signed),
                ),
    {
        let timestamp = get_timestamp();
        let url = self.request_at(endpoint, params, signed, timestamp);
        assert(url@ == Self::address(
            endpoint@,
            Self::param_text(params@, timestamp),
            self.signer(signed),
        ));
        url
    }
}

} // verus!
