//! The provider: where requests go, with which headers and which body, and what
//! the status of a reply means.

use vstd::prelude::*;
use vstd::string::*;

use crate::json::Json;
use crate::request::MessagesRequest;
use crate::response::parse_messages_response;
use crate::text::trim_end_matches;
use crate::types::{ModelId, ProviderError, Request, Response};

verus! {

/// Where the API is reached by default.
pub const API_BASE: &'static str = "https://api.anthropic.com";

/// The version of the API that requests are written for.
pub const API_VERSION: &'static str = "2023-06-01";

/// A provider for the Anthropic Messages API.
pub struct AnthropicProvider {
    api_key: String,
    base_url: String,
    model: ModelId,
    extra_headers: Vec<(String, String)>,
}

/// What a provider is made of.
pub struct ProviderView {
    pub api_key: Seq<char>,
    pub base_url: Seq<char>,
    pub model: Seq<char>,
    pub extra_headers: Seq<(Seq<char>, Seq<char>)>,
}

/// What each header of a list says.
pub open spec fn header_views(headers: Seq<(String, String)>) -> Seq<(Seq<char>, Seq<char>)> {
    headers.map_values(|h: (String, String)| (h.0@, h.1@))
}

impl View for AnthropicProvider {
    type V = ProviderView;

    closed spec fn view(&self) -> ProviderView {
        ProviderView {
            api_key: self.api_key@,
            base_url: self.base_url@,
            model: self.model@,
            extra_headers: header_views(self.extra_headers@),
        }
    }
}

/// True of an address that paths can be appended to: it does not end in a slash.
pub open spec fn bare_url(url: Seq<char>) -> bool {
    url.len() > 0 ==> url.last() != '/'
}

impl ProviderView {
    /// The headers of every request, in order.
    pub open spec fn headers(self) -> Seq<(Seq<char>, Seq<char>)> {
        seq![
            ("x-api-key"@, self.api_key),
            ("anthropic-version"@, API_VERSION@),
            ("content-type"@, "application/json"@),
        ] + self.extra_headers
    }

    /// Where requests go.
    pub open spec fn url(self) -> Seq<char> {
        self.base_url + "/v1/messages"@
    }
}

/// Slashes at the end of the base address make no difference.
pub proof fn law_trailing_slashes(base: Seq<char>)
    ensures
        crate::text::without_trailing(base.push('/'), '/') == crate::text::without_trailing(
            base,
            '/',
        ),
        crate::text::without_trailing(crate::text::without_trailing(base, '/'), '/')
            == crate::text::without_trailing(base, '/'),
        bare_url(crate::text::without_trailing(base, '/')),
{
    crate::text::lemma_without_trailing(base, '/');
    assert(base.push('/').drop_last() == base);
}

/// A request that is ready to be sent.
pub struct OutgoingRequest {
    pub url: String,
    pub headers: Vec<(String, String)>,
    pub body: Json,
}

/// True of what is sent for a request, streamed or not: it goes to the provider's
/// address with the provider's headers, and its body is the request to the API.
pub open spec fn is_outgoing(
    r: OutgoingRequest,
    p: ProviderView,
    req: Request,
    stream: bool,
) -> bool {
    &&& r.url@ == p.url()
    &&& header_views(r.headers@) == p.headers()
    &&& r.body@ == crate::request::built_request(req, p.model, stream).document()
}

/// What is to be read of a reply.
#[derive(Clone, Copy, Debug, PartialEq, Eq, Structural)]
pub enum ReplyKind {
    /// The answer.
    Answer,
    /// The text that says what went wrong.
    Failure,
}

/// Whether a status is one of success.
pub open spec fn success_status(status: u16) -> bool {
    200 <= status < 300
}

/// What is to be read of a reply with the given status.
pub fn reply_kind(status: u16) -> (r: ReplyKind)
    ensures
        r == if success_status(status) {
            ReplyKind::Answer
        } else {
            ReplyKind::Failure
        },
{
    if 200 <= status && status < 300 {
        ReplyKind::Answer
    } else {
        ReplyKind::Failure
    }
}

/// The error for a refused request: its status, and the text of the reply if that
/// could be read.
pub fn api_error(status: u16, text: Option<String>) -> (r: ProviderError)
    ensures
        match r {
            ProviderError::Api { status: s, message } => s == status && message@ == match text {
                Some(t) => t@,
                None => Seq::empty(),
            },
        },
{
    let message = match text {
        Some(t) => t,
        None => String::new(),
    };
    ProviderError::Api { status, message }
}

/// A header.
fn header(name: &str, value: &str) -> (r: (String, String))
    ensures
        (r.0@, r.1@) == (name@, value@),
{
    (name.to_owned(), value.to_owned())
}

impl AnthropicProvider {
    #[verifier::type_invariant]
    spec fn well_formed(self) -> bool {
        bare_url(self.base_url@)
    }

    /// A provider for the given key and model at the API's own address.
    pub fn new(api_key: &str, model: &str) -> (r: AnthropicProvider)
        ensures
            r@ == (ProviderView {
                api_key: api_key@,
                base_url: API_BASE@,
                model: model@,
                extra_headers: Seq::empty(),
            }),
    {
        proof {
            reveal_strlit("https://api.anthropic.com");
        }
        let base_url = API_BASE.to_owned();
        assert(base_url@.last() == 'm');
        let extra_headers: Vec<(String, String)> = Vec::new();
        assert(header_views(extra_headers@) == Seq::<(Seq<char>, Seq<char>)>::empty());
        AnthropicProvider {
            api_key: api_key.to_owned(),
            base_url,
            model: ModelId::new(model),
            extra_headers,
        }
    }

    /// A provider that reaches the API at another address. Slashes at its end are
    /// dropped.
    pub fn with_base_url(api_key: &str, model: &str, base_url: &str) -> (r: AnthropicProvider)
        ensures
            r@ == (ProviderView {
                api_key: api_key@,
                base_url: crate::text::without_trailing(base_url@, '/'),
                model: model@,
                extra_headers: Seq::empty(),
            }),
    {
        proof {
            law_trailing_slashes(base_url@);
        }
        let extra_headers: Vec<(String, String)> = Vec::new();
        assert(header_views(extra_headers@) == Seq::<(Seq<char>, Seq<char>)>::empty());
        AnthropicProvider {
            api_key: api_key.to_owned(),
            base_url: trim_end_matches(base_url, '/'),
            model: ModelId::new(model),
            extra_headers,
        }
    }

    /// Add a header to every request this provider sends, e.g.
    /// `anthropic-workspace-id` for API keys that are not scoped to a single
    /// workspace, or an `anthropic-beta` feature flag.
    pub fn with_extra_header(self, name: &str, value: &str) -> (r: AnthropicProvider)
        ensures
            r@ == (ProviderView {
                extra_headers: self@.extra_headers.push((name@, value@)),
                ..self@
            }),
    {
        proof {
            use_type_invariant(&self);
        }
        let ghost before = header_views(self.extra_headers@);
        let mut extra_headers = self.extra_headers;
        extra_headers.push(header(name, value));
        assert(header_views(extra_headers@) == before.push((name@, value@)));
        AnthropicProvider {
            api_key: self.api_key,
            base_url: self.base_url,
            model: self.model,
            extra_headers,
        }
    }

    /// The address that requests go to, without the path.
    pub fn base_url(&self) -> (r: &str)
        ensures
            r@ == self@.base_url,
            bare_url(r@),
    {
        proof {
            use_type_invariant(self);
        }
        self.base_url.as_str()
    }

    /// The model that a request goes to that names none.
    pub fn model_id(&self) -> (r: &ModelId)
        ensures
            r@ == self@.model,
    {
        &self.model
    }

    /// Where requests go.
    pub fn messages_url(&self) -> (r: String)
        ensures
            r@ == self@.url(),
    {
        let mut url = self.base_url.clone();
        url.append("/v1/messages");
        url
    }

    /// The headers of every request: the fixed ones, then those that were added, in
    /// the order in which they were.
    pub fn request_headers(&self) -> (r: Vec<(String, String)>)
        ensures
            header_views(r@) == self@.headers(),
    {
        let mut headers: Vec<(String, String)> = vec![
            header("x-api-key", self.api_key.as_str()),
            header("anthropic-version", API_VERSION),
            header("content-type", "application/json"),
        ];
        let ghost fixed = header_views(headers@);
        assert(fixed == self@.headers().take(3));
        let mut i: usize = 0;
        while i < self.extra_headers.len()
            invariant
                i <= self.extra_headers@.len(),
                fixed.len() == 3,
                header_views(headers@) == fixed + self@.extra_headers.take(i as int),
            decreases self.extra_headers@.len() - i,
        {
            let ghost before = header_views(headers@);
            let ghost next = self@.extra_headers[i as int];
            headers.push(
                header(self.extra_headers[i].0.as_str(), self.extra_headers[i].1.as_str()),
            );
            assert(header_views(headers@) == before.push(next));
            assert(before.push(next) == fixed + self@.extra_headers.take(i + 1));
            i += 1;
        }
        assert(header_views(headers@) == self@.headers());
        headers
    }

    /// The request to send for a request, streamed or not.
    pub fn outgoing(&self, req: &Request, stream: bool) -> (r: OutgoingRequest)
        ensures
            r.url@ == self@.url(),
            header_views(r.headers@) == self@.headers(),
            r.body@ == crate::request::built_request(*req, self@.model, stream).document(),
            is_outgoing(r, self@, *req, stream),
    {
        OutgoingRequest {
            url: self.messages_url(),
            headers: self.request_headers(),
            body: MessagesRequest::from_request(req, &self.model, stream).to_json(),
        }
    }

    /// Read the answer to a request that was not streamed.
    pub fn read_answer(&self, raw: Json, latency: core::time::Duration) -> (r: Result<
        Response,
        ProviderError,
    >)
        ensures
            r matches Ok(resp) && crate::response::is_response_to(
                resp,
                raw@,
                self@.model,
                latency,
            ),
    {
        parse_messages_response(raw, &self.model, latency)
    }
}

} // verus!
