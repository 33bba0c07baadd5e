//! Where requests go, with which headers, and what a status means.

use vstd::prelude::*;

use crate::json::JsonView;
use crate::provider::{OutgoingRequest, ProviderView};
use crate::types::{Request, Role};

verus! {

/// Requests go to `/v1/messages` behind the base address.
pub proof fn law_address(p: ProviderView)
    ensures
        p.url().len() == p.base_url.len() + "/v1/messages"@.len(),
        p.base_url.is_prefix_of(p.url()),
        p.url().skip(p.base_url.len() as int) == "/v1/messages"@,
{
    assert(p.url().subrange(0, p.base_url.len() as int) =~= p.base_url);
    assert(p.url().skip(p.base_url.len() as int) =~= "/v1/messages"@);
}

/// A request carries the key, the version of the API and the type of its body, and
/// then the headers that were added, in the order in which they were; no others.
pub proof fn law_headers(p: ProviderView)
    ensures
        p.headers().len() == 3 + p.extra_headers.len(),
        p.headers()[0] == ("x-api-key"@, p.api_key),
        p.headers()[1] == ("anthropic-version"@, "2023-06-01"@),
        p.headers()[2] == ("content-type"@, "application/json"@),
        forall|i: int|
            0 <= i < p.extra_headers.len() ==> p.headers()[3 + i] == #[trigger] p.extra_headers[i],
{
}

/// What is sent for a request: it goes to `/v1/messages` behind the base address,
/// with the key first among its headers and the added ones last; its body says
/// whether it is to be streamed, names the provider's model where the request names
/// `default`, has the turns of the conversation under their speakers' names, and as
/// many tools as the request.
pub proof fn law_what_is_sent(r: OutgoingRequest, p: ProviderView, req: Request, stream: bool)
    requires
        crate::provider::is_outgoing(r, p, req, stream),
    ensures
        r.url@ == p.base_url + "/v1/messages"@,
        r.headers@.len() == 3 + p.extra_headers.len(),
        r.headers@[0].0@ == "x-api-key"@ && r.headers@[0].1@ == p.api_key,
        r.headers@[1].0@ == "anthropic-version"@ && r.headers@[1].1@ == "2023-06-01"@,
        r.headers@[2].0@ == "content-type"@ && r.headers@[2].1@ == "application/json"@,
        forall|i: int|
            0 <= i < p.extra_headers.len() ==> #[trigger] p.extra_headers[i] == (
                r.headers@[3 + i].0@,
                r.headers@[3 + i].1@,
            ),
        r.body@.member("stream"@) == Some(JsonView::Bool(stream)),
        req.model@ == "default"@ ==> r.body@.member("model"@) == Some(JsonView::String(p.model)),
        req.model@ != "default"@ ==> r.body@.member("model"@) == Some(
            JsonView::String(req.model@),
        ),
        ({
            let said = crate::laws::requests::turns(req.messages@);
            &&& r.body@.member("messages"@) matches Some(JsonView::Array(items))
            &&& items.len() == said.len()
            &&& forall|i: int|
                0 <= i < said.len() ==> items[i].member("role"@) == Some(
                    JsonView::String(
                        if (#[trigger] said[i]).role == Role::User {
                            "user"@
                        } else {
                            "assistant"@
                        },
                    ),
                )
        }),
        req.tools@.len() == 0 ==> r.body@.member("tools"@) is None,
        req.tools@.len() > 0 ==> (r.body@.member("tools"@) matches Some(JsonView::Array(items))
            && items.len() == req.tools@.len()),
{
    let sent = crate::provider::header_views(r.headers@);
    assert(sent.len() == r.headers@.len());
    assert forall|i: int| 0 <= i < sent.len() implies #[trigger] sent[i] == (
        r.headers@[i].0@,
        r.headers@[i].1@,
    ) by {}
    law_headers(p);
    assert(sent[0] == p.headers()[0] && sent[1] == p.headers()[1] && sent[2] == p.headers()[2]);
    assert forall|i: int| 0 <= i < p.extra_headers.len() implies #[trigger] p.extra_headers[i] == (
        r.headers@[3 + i].0@,
        r.headers@[3 + i].1@,
    ) by {
        assert(sent[3 + i] == p.headers()[3 + i]);
    }
    crate::laws::requests::law_model_limit_and_stream(req, p.model, stream);
    crate::laws::requests::law_turns_are_sent(req, p.model, stream);
    crate::laws::requests::law_tools_are_offered(req, p.model, stream);
}

/// The API's own address, and the version that requests are written for.
pub proof fn law_defaults()
    ensures
        crate::provider::API_BASE@ == "https://api.anthropic.com"@,
        crate::provider::API_VERSION@ == "2023-06-01"@,
{
}

/// A base address is used without the slashes at its end, however many there are.
pub proof fn law_base_address(base: Seq<char>, slashes: nat)
    requires
        base.len() > 0 ==> base.last() != '/',
    ensures
        crate::text::without_trailing(base + Seq::new(slashes, |i: int| '/'), '/') == base,
        crate::provider::bare_url(base),
    decreases slashes,
{
    let all = base + Seq::new(slashes, |i: int| '/');
    if slashes == 0 {
        assert(all =~= base);
    } else {
        let fewer = (slashes - 1) as nat;
        assert(all.drop_last() =~= base + Seq::new(fewer, |i: int| '/'));
        law_base_address(base, fewer);
    }
}

/// An address is bare exactly if it does not end in a slash.
pub proof fn law_bare_address(url: Seq<char>)
    ensures
        crate::provider::bare_url(url) <==> !(exists|before: Seq<char>|
            url == #[trigger] before.push('/')),
{
    if url.len() > 0 && url.last() == '/' {
        assert(url =~= url.drop_last().push('/'));
    }
}

/// The statuses of success are those from 200 to 299.
pub proof fn law_success(status: u16)
    ensures
        crate::provider::success_status(status) <==> status / 100 == 2,
{
}

/// What each header of a list says, its name first, stands in its place.
pub proof fn law_headers_in_memory(list: Seq<(String, String)>, i: int)
    ensures
        crate::provider::header_views(list).len() == list.len(),
        0 <= i < list.len() ==> crate::provider::header_views(list)[i] == (list[i].0@, list[i].1@),
{
}

} // verus!
