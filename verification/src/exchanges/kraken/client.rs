use crate::bot::now_millis;
use crate::utils::digest::{base64, base64_bytes, base64_decode, base64_text, digest, hmac_sha256, mac, sha256};
use crate::utils::params::{joined, with, ParamMap};
use crate::utils::{integer, integer_text};
use vstd::prelude::*;
use vstd::string::StringExecFns;
use vstd::utf8::encode_utf8;

verus! {

/// Whether a request goes to the open or to the signed interface.
#[derive(Debug, Clone, Copy, PartialEq, Eq, Structural)]
pub enum MessageType {
    Public,
    Private,
}

/// A request, ready to be sent.
#[derive(Debug)]
pub struct Prepared {
    /// The address to send to.
    pub uri: String,
    /// What to post; a request without a body is fetched.
    pub body: Option<String>,
    /// The headers to send along.
    pub headers: Vec<(String, String)>,
}

/// How to reach the REST interface of the venue.
pub struct Client {
    api_key: String,
    api_secret: String,
}

impl Client {
    pub closed spec fn api_key(&self) -> Seq<char> {
        self.api_key@
    }

    pub closed spec fn api_secret(&self) -> Seq<char> {
        self.api_secret@
    }

    /// The signature of a request: the HMAC-SHA256, under the secret that
    /// the base64 text `secret` stands for, of the path followed by the
    /// SHA-256 digest of nonce and body, in base64. There is none where the
    /// secret is not base64.
    pub open spec fn signature(secret: Seq<char>, path: Seq<char>, nonce: i64, body: Seq<char>) -> Option<
        Seq<char>,
    > {
        match base64_bytes(encode_utf8(secret)) {
            Some(key) => Some(
                base64(
                    hmac_sha256(
                        key,
                        encode_utf8(path) + sha256(encode_utf8(integer(nonce as int) + body)),
                    ),
                ),
            ),
            None => None,
        }
    }

    pub fn new(api_key: String, api_secret: String) -> (client: Client)
        ensures
            client.api_key() == api_key@,
            client.api_secret() == api_secret@,
    {
        Client { api_key, api_secret }
    }

    /// The parameters as a query string.
    pub fn create_param_string(&self, params: ParamMap) -> (text: String)
        ensures
            text@ == joined(params@),
    {
        params.query()
    }

    /// The headers of a signed request.
    pub fn get_headers(&self, signature: String) -> (headers: Vec<(String, String)>)
        ensures
            headers@.len() == 2,
            headers@[0].0@ == "API-Key"@,
            headers@[0].1@ == self.api_key(),
            headers@[1].0@ == "API-Sign"@,
            headers@[1].1@ == signature@,
    {
        let mut headers: Vec<(String, String)> = Vec::new();
        headers.push((String::from_str("API-Key"), self.api_key.clone()));
        headers.push((String::from_str("API-Sign"), signature));
        headers
    }

    /// Signs a request to `path` with the given nonce and body.
    pub fn create_signature(&self, path: String, nonce: i64, body: String) -> (signature: Option<
        String,
    >)
        ensures
            crate::database::text(signature) == Self::signature(self.api_secret(), path@, nonce, body@),
    {
        let key = match base64_decode(self.api_secret.as_str().as_bytes()) {
            None => {
                return None;
            },
            Some(key) => key,
        };
        let mut message = integer_text(nonce);
        message.append(body.as_str());
        let hash = digest(message.as_str().as_bytes());
        let mut cheese: Vec<u8> = Vec::new();
        let path_bytes = path.as_str().as_bytes();
        let mut i: usize = 0;
        while i < path_bytes.len()
            invariant
                i <= path_bytes.len(),
                cheese@ == path_bytes@.take(i as int),
            decreases path_bytes.len() - i,
        {
            cheese.push(path_bytes[i]);
            assert(path_bytes@.take(i + 1) =~= path_bytes@.take(i as int).push(path_bytes@[i as int]));
            i += 1;
        }
        assert(path_bytes@.take(i as int) =~= path_bytes@);
        let mut k: usize = 0;
        while k < hash.len()
            invariant
                k <= hash.len(),
                cheese@ == path_bytes@ + hash@.take(k as int),
            decreases hash.len() - k,
        {
            cheese.push(hash[k]);
            assert(hash@.take(k + 1) =~= hash@.take(k as int).push(hash@[k as int]));
            assert(path_bytes@ + hash@.take(k + 1) =~= (path_bytes@ + hash@.take(k as int)).push(
                hash@[k as int],
            ));
            k += 1;
        }
        assert(hash@.take(k as int) =~= hash@);
        let code = mac(key.as_slice(), cheese.as_slice());
        Some(base64_text(code.as_slice()))
    }

    /// The time in milliseconds, which serves as the nonce of a request.
    pub fn get_nonce(&self) -> i64 {
        now_millis()
    }

    /// What `send` prepares for a request with the nonce `nonce`.
    pub open spec fn prepared(
        &self,
        message_type: MessageType,
        base: Seq<char>,
        endpoint: Seq<char>,
        params: Seq<(Seq<char>, Seq<char>)>,
        nonce: i64,
    ) -> Option<(Seq<char>, Option<Seq<char>>, Option<Seq<char>>)> {
        let uri = base + endpoint;
        match message_type {
            MessageType::Public => Some(
                (
                    if params.len() == 0 {
                        uri
                    } else {
                        uri + "?"@ + joined(params)
                    },
                    None,
                    None,
                ),
            ),
            MessageType::Private => {
                let body = joined(with(params, "nonce"@, integer(nonce as int)));
                match Self::signature(self.api_secret(), uri, nonce, body) {
                    Some(signature) => Some((uri, Some(body), Some(signature))),
                    None => None,
                }
            },
        }
    }

    /// The request carries address, body and signature as given: the
    /// signature, where there is one, in the second of two headers, behind
    /// the key.
    pub open spec fn carries(
        &self,
        request: Option<Prepared>,
        parts: Option<(Seq<char>, Option<Seq<char>>, Option<Seq<char>>)>,
    ) -> bool {
        match (request, parts) {
            (Some(request), Some((uri, body, signature))) => {
                &&& request.uri@ == uri
                &&& crate::database::text(request.body) == body
                &&& match signature {
                    Some(signature) => {
                        &&& request.headers@.len() == 2
                        &&& request.headers@[0].0@ == "API-Key"@
                        &&& request.headers@[0].1@ == self.api_key()
                        &&& request.headers@[1].0@ == "API-Sign"@
                        &&& request.headers@[1].1@ == signature
                    },
                    None => request.headers@.len() == 0,
                }
            },
            (None, None) => true,
            _ => false,
        }
    }

    /// Prepares a request to `endpoint` under the address `base`, with the
    /// nonce `nonce` where it is signed: an open request carries its
    /// parameters in the address; a signed one posts them with the nonce
    /// and carries key and signature in its headers. Nothing can be
    /// prepared where the secret to sign with is not base64.
    pub fn send_at(
        &self,
        message_type: MessageType,
        base: &String,
        endpoint: &String,
        params: ParamMap,
        nonce: i64,
    ) -> (request: Option<Prepared>)
        requires
            params.wf(),
        ensures
            self.carries(request, self.prepared(message_type, base@, endpoint@, params@, nonce)),
    {
        let mut uri = base.clone();
        uri.append(endpoint.as_str());
        match message_type {
            MessageType::Public => {
                if params.len() != 0 {
                    uri.append("?");
                    uri.append(self.create_param_string(params).as_str());
                }
                Some(Prepared { uri, body: None, headers: Vec::new() })
            },
            MessageType::Private => {
                let mut params = params;
                params.insert(String::from_str("nonce"), integer_text(nonce));
                let body = self.create_param_string(params);
                match self.create_signature(uri.clone(), nonce, body.clone()) {
                    None => None,
                    Some(signature) => Some(
                        Prepared { uri, body: Some(body), headers: self.get_headers(signature) },
                    ),
                }
            },
        }
    }

    /// Prepares a request, with the time as its nonce where it is signed.
    pub fn send(&self, message_type: MessageType, base: &String, endpoint: &String, params: ParamMap) -> (
    request: Option<Prepared>)
        requires
            params.wf(),
        ensures
            exists|nonce: i64|
                self.carries(
                    request,
                    #[trigger] self.prepared(message_type, base@, endpoint@, params@, nonce),
                ),
    {
        let nonce = self.get_nonce();
        let ghost wanted = self.prepared(message_type, base@, endpoint@, params@, nonce);
        let request = self.send_at(message_type, base, endpoint, params, nonce);
        assert(self.carries(request, wanted));
        request
    }
}

} // verus!
