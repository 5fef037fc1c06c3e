//! Connection descriptors and the effective address that a storage element
//! is configured with.

use crate::encoding::{
    base32_decoded, base32_unpadded, encode_unpadded, lemma_base32_has_no_separator,
    lemma_base32_round_trip,
};
use crate::template::{has_placeholder, placeholder_at};
use crate::text::text_of;
use vstd::prelude::*;
use vstd::string::*;
use vstd::utf8::*;

verus! {

/// One storage location together with the credentials to reach it.
#[derive(Clone, Debug, PartialEq, Eq)]
pub struct Rusoto {
    pub uri: String,
    pub region: String,
    pub endpoint: Option<String>,
    pub access_key_id: Option<String>,
    pub secret_access_key: Option<String>,
    pub blocksize: Option<u32>,
}

/// A connection descriptor as plain values.
pub struct RusotoView {
    pub uri: Seq<char>,
    pub region: Seq<char>,
    pub endpoint: Option<Seq<char>>,
    pub access_key_id: Option<Seq<char>>,
    pub secret_access_key: Option<Seq<char>>,
    pub blocksize: Option<u32>,
}

impl View for Rusoto {
    type V = RusotoView;

    open spec fn view(&self) -> RusotoView {
        RusotoView {
            uri: self.uri@,
            region: self.region@,
            endpoint: text_of(self.endpoint),
            access_key_id: text_of(self.access_key_id),
            secret_access_key: text_of(self.secret_access_key),
            blocksize: self.blocksize,
        }
    }
}

/// The region that a descriptor falls back to when neither the request nor
/// the process configuration names one.
pub open spec fn fallback_region() -> Seq<char> {
    "us-west-2"@
}

/// The canonical storage scheme prefix, `s3://`.
pub open spec fn scheme() -> Seq<char> {
    "s3://"@
}

/// `uri` without a leading storage scheme prefix.
pub open spec fn strip_scheme(uri: Seq<char>) -> Seq<char> {
    if scheme().is_prefix_of(uri) {
        uri.skip(scheme().len() as int)
    } else {
        uri
    }
}

/// Region and endpoint packed into one region field: each is base32 encoded
/// without padding, and a `+` stands between the two.
pub open spec fn pseudo_region(region: Seq<char>, endpoint: Seq<char>) -> Seq<char> {
    base32_unpadded(encode_utf8(region)) + seq!['+'] + base32_unpadded(encode_utf8(endpoint))
}

/// The authority segment of the effective address.
pub open spec fn effective_region(region: Seq<char>, endpoint: Option<Seq<char>>) -> Seq<char> {
    match endpoint {
        Some(endpoint) => pseudo_region(region, endpoint),
        None => region,
    }
}

/// The effective address of a descriptor: the scheme, the authority segment,
/// a slash, and the uri without its scheme prefix.
pub open spec fn effective_address(rusoto: RusotoView) -> Seq<char> {
    scheme() + effective_region(rusoto.region, rusoto.endpoint) + seq!['/'] + strip_scheme(
        rusoto.uri,
    )
}

/// The region to use where the request names none: the configured one, or
/// `us-west-2`.
pub fn default_region(configured: Option<String>) -> (region: String)
    ensures
        region@ == match configured {
            Some(name) => name@,
            None => fallback_region(),
        },
{
    match configured {
        Some(name) => name,
        None => String::from_str("us-west-2"),
    }
}

/// Drops a leading `s3://` from `uri`.
fn without_scheme(uri: &str) -> (path: &str)
    ensures
        path@ == strip_scheme(uri@),
{
    proof {
        reveal_strlit("s3://");
    }
    let len = uri.unicode_len();
    if len >= 5 && uri.get_char(0) == 's' && uri.get_char(1) == '3' && uri.get_char(2) == ':'
        && uri.get_char(3) == '/' && uri.get_char(4) == '/' {
        assert(scheme().is_prefix_of(uri@)) by {
            assert(uri@.subrange(0, 5) =~= scheme());
        }
        uri.substring_char(5, len)
    } else {
        assert(!scheme().is_prefix_of(uri@)) by {
            if scheme().is_prefix_of(uri@) {
                let head = uri@.subrange(0, 5);
                assert(head[0] == 's' && head[1] == '3' && head[2] == ':' && head[3] == '/'
                    && head[4] == '/');
            }
        }
        uri
    }
}

/// Resolves a connection descriptor to its effective address.
pub fn to_rusoto_region_with_endpoint(rusoto: &Rusoto) -> (address: String)
    ensures
        address@ == effective_address(rusoto@),
{
    let region = match &rusoto.endpoint {
        Some(endpoint) => {
            let region = encode_unpadded(rusoto.region.as_str().as_bytes());
            let endpoint = encode_unpadded(endpoint.as_str().as_bytes());
            proof {
                reveal_strlit("+");
                assert("+"@ =~= seq!['+']);
            }
            region.concat("+").concat(endpoint.as_str())
        },
        None => rusoto.region.clone(),
    };
    let path = without_scheme(rusoto.uri.as_str());
    proof {
        reveal_strlit("/");
        assert("/"@ =~= seq!['/']);
    }
    String::from_str("s3://").concat(region.as_str()).concat("/").concat(path)
}

/// Place of the first `+` in `text`, or the length of `text` where it holds
/// none.
pub open spec fn separator_index(text: Seq<char>) -> int
    decreases text.len(),
{
    if text.len() == 0 {
        0
    } else if text[0] == '+' {
        0
    } else {
        1 + separator_index(text.skip(1))
    }
}

/// Region and endpoint that a packed region field carries: the field is split
/// at its first `+`, each half is base32 decoded and read as UTF-8. `None`
/// where the field has no `+` or a half does not decode.
pub open spec fn unpack_pseudo_region(text: Seq<char>) -> Option<(Seq<char>, Seq<char>)> {
    let at = separator_index(text);
    if at >= text.len() {
        None
    } else {
        match (base32_decoded(text.take(at)), base32_decoded(text.skip(at + 1))) {
            (Some(region), Some(endpoint)) => if valid_utf8(region) && valid_utf8(endpoint) {
                Some((decode_utf8(region), decode_utf8(endpoint)))
            } else {
                None
            },
            _ => None,
        }
    }
}

/// Where `head` holds no `+`, the first `+` of `head + "+" + tail` is the one
/// that follows `head`.
pub proof fn lemma_separator_follows_head(head: Seq<char>, tail: Seq<char>)
    requires
        forall|k: int| 0 <= k < head.len() ==> #[trigger] head[k] != '+',
    ensures
        separator_index(head + seq!['+'] + tail) == head.len(),
    decreases head.len(),
{
    let text = head + seq!['+'] + tail;
    if head.len() == 0 {
        assert(text[0] == '+');
    } else {
        assert(text[0] == head[0]);
        let rest = head.skip(1);
        assert(text.skip(1) =~= rest + seq!['+'] + tail);
        assert forall|k: int| 0 <= k < rest.len() implies #[trigger] rest[k] != '+' by {
            assert(rest[k] == head[k + 1]);
        }
        lemma_separator_follows_head(rest, tail);
    }
}

/// The address of a descriptor is a function of its uri, region and endpoint:
/// two descriptors that agree on these resolve to the same address, whatever
/// their credentials and block size. In particular resolving one descriptor
/// twice gives one address.
pub proof fn lemma_effective_address_deterministic(first: RusotoView, second: RusotoView)
    requires
        first.uri == second.uri,
        first.region == second.region,
        first.endpoint == second.endpoint,
    ensures
        effective_address(first) == effective_address(second),
{
}

/// Unpacking a packed region field recovers the region and the endpoint that
/// went into it.
pub proof fn lemma_pseudo_region_round_trip(region: Seq<char>, endpoint: Seq<char>)
    ensures
        unpack_pseudo_region(pseudo_region(region, endpoint)) == Some((region, endpoint)),
{
    let head = base32_unpadded(encode_utf8(region));
    let tail = base32_unpadded(encode_utf8(endpoint));
    let text = pseudo_region(region, endpoint);
    lemma_base32_has_no_separator(encode_utf8(region));
    lemma_separator_follows_head(head, tail);
    assert(text.take(head.len() as int) =~= head);
    assert(text.skip(head.len() as int + 1) =~= tail);
    lemma_base32_round_trip(encode_utf8(region));
    lemma_base32_round_trip(encode_utf8(endpoint));
    encode_utf8_valid_utf8(region);
    encode_utf8_valid_utf8(endpoint);
    encode_utf8_decode_utf8(region);
    encode_utf8_decode_utf8(endpoint);
}

/// Resolving keeps the placeholder: where the uri of a descriptor holds one,
/// so does its effective address.
pub proof fn lemma_address_keeps_placeholder(rusoto: RusotoView)
    requires
        has_placeholder(rusoto.uri),
    ensures
        has_placeholder(effective_address(rusoto)),
{
    reveal_strlit("s3://");
    let uri = rusoto.uri;
    let at = choose|at: int| placeholder_at(uri, at);
    let path = strip_scheme(uri);
    let shift = uri.len() - path.len();
    assert(at >= shift && path[at - shift] == uri[at] && path[at - shift + 1] == uri[at + 1]) by {
        if scheme().is_prefix_of(uri) {
            assert(uri.subrange(0, 5) == scheme());
            if at < 5 {
                assert(uri.subrange(0, 5)[at] == uri[at]);
            }
        }
    }
    let front = scheme() + effective_region(rusoto.region, rusoto.endpoint) + seq!['/'];
    let address = effective_address(rusoto);
    assert(address =~= front + path);
    assert(placeholder_at(address, front.len() + at - shift));
}

} // verus!
