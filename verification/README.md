# anthropic_provider

A provider for the Anthropic Messages API. The library under `src/` holds the
logic, each function proved by Verus against its contract: building the body, the
headers and the address of a request; reading an answer; and turning the bytes of
a streamed answer into chunks. The laws that hold across functions are the public
proof functions named `law_...`.

The boundaries at which the bytes of a streamed answer arrive make no difference
to what a consumer gets, with two exceptions. Of bytes that are not valid UTF-8,
text that arrives together with the bad bytes is lost. Behind a frame whose data
has to be read and is not JSON, the stream waits for more bytes before it looks at
the next frame.

`app/` is the part that touches the network: it owns the HTTP client, awaits, and
does what the library says.

What is believed without proof: that `core::str::from_utf8` accepts exactly valid
UTF-8, that `serde_json::from_str` is a function of its text, and what
`serde_json::Value` hands out of a document.
