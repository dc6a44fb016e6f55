//! The request for a short URL: a long URL, an alias if one is wanted, and
//! the URL that asks the service for it.

use crate::form::encoded;
use crate::form::is_free_of;
use crate::form::pair_text;
use crate::form::pairs;
use crate::form::query_of;
use crate::outcome::ShortenError;
use crate::web::append_pair;
use crate::web::parsed;
use crate::web::url_parts;
use crate::web::UrlParts;
use url::ParseError;
use url::Url;
use vstd::prelude::*;
use vstd::utf8::decode_utf8;
use vstd::utf8::encode_utf8;

verus! {

/// Where the service takes its requests.
pub const ENDPOINT: &'static str = "https://tinyurl.com/api-create.php";

/// The query parameter that carries the long URL.
pub const URL_PARAMETER: &'static str = "url";

/// The query parameter that carries the alias.
pub const ALIAS_PARAMETER: &'static str = "alias";

/// What a request asks for.
pub struct ShortenRequest {
    /// The URL to be shortened.
    pub long_url: Seq<char>,
    /// The name wanted for the short URL, if any.
    pub alias: Option<Seq<char>>,
}

impl ShortenRequest {
    /// The same request with `alias` as its alias, whatever it had before.
    pub open spec fn with_alias(self, alias: Seq<char>) -> ShortenRequest {
        ShortenRequest { long_url: self.long_url, alias: Some(alias) }
    }

    /// The query of the request: the long URL under `url` and then, behind
    /// `&`, the alias under `alias` if there is one.
    pub open spec fn query_text(self) -> Seq<char> {
        pair_text(URL_PARAMETER@, self.long_url) + (match self.alias {
            Some(a) => seq!['&'] + pair_text(ALIAS_PARAMETER@, a),
            None => Seq::empty(),
        })
    }

    /// The parameters of the request by name and value: the long URL under
    /// `url` and then the alias under `alias`, if there is one.
    pub open spec fn parameters(self) -> Seq<(Seq<char>, Seq<char>)> {
        seq![(URL_PARAMETER@, self.long_url)] + (match self.alias {
            Some(a) => seq![(ALIAS_PARAMETER@, a)],
            None => Seq::empty(),
        })
    }

    /// The URL of the request: the endpoint, `?`, and the query.
    pub open spec fn request_text(self) -> Seq<char> {
        ENDPOINT@ + seq!['?'] + self.query_text()
    }
}

/// Whether the parser's answer on the endpoint can be built on: it is a URL,
/// and its text is the endpoint as it is written here.
pub open spec fn is_endpoint(answer: Result<Url, ParseError>) -> bool {
    answer matches Ok(u) && url_parts(u).text() == ENDPOINT@
}

/// A request to shorten one URL.
#[derive(Debug)]
pub struct TinyURL<'u> {
    uri: &'u str,
    alias: Option<&'u str>,
}

impl<'u> View for TinyURL<'u> {
    type V = ShortenRequest;

    closed spec fn view(&self) -> ShortenRequest {
        ShortenRequest {
            long_url: self.uri@,
            alias: match self.alias {
                Some(a) => Some(a@),
                None => None,
            },
        }
    }
}

impl<'u> TinyURL<'u> {
    /// Every request has a long URL that is not empty.
    #[verifier::type_invariant]
    spec fn has_long_url(self) -> bool {
        self.uri@.len() > 0
    }

    /// A request for `uri`, without an alias.
    pub fn new(uri: &'u str) -> (r: TinyURL<'u>)
        requires
            uri@.len() > 0,
        ensures
            r@ == (ShortenRequest { long_url: uri@, alias: None }),
    {
        TinyURL { uri, alias: None }
    }

    /// The request with `alias` in place of any alias it had.
    pub fn alias(self, alias: &'u str) -> (r: TinyURL<'u>)
        ensures
            r@ == self@.with_alias(alias@),
    {
        proof {
            use_type_invariant(&self);
        }
        TinyURL { uri: self.uri, alias: Some(alias) }
    }

    /// The URL of this request, built on what the parser answered for the
    /// endpoint. Any answer but the endpoint itself is a configuration error.
    pub fn request_from(&self, answer: Result<Url, ParseError>) -> (r: Result<String, ShortenError>)
        ensures
            is_endpoint(answer) ==> (r matches Ok(text) && text@ == self@.request_text()),
            !is_endpoint(answer) ==> r == Err::<String, ShortenError>(ShortenError::Configuration),
    {
        match answer {
            Err(_) => Err(ShortenError::Configuration),
            Ok(mut url) => {
                let written: String = url.as_str().to_owned();
                let wanted: String = ENDPOINT.to_owned();
                if written != wanted {
                    return Err(ShortenError::Configuration);
                }
                proof {
                    lemma_endpoint_parts(url_parts(url));
                }
                append_pair(&mut url, URL_PARAMETER, self.uri);
                match self.alias {
                    Some(a) => {
                        assert(pair_text(URL_PARAMETER@, self.uri@).len() > 0);
                        append_pair(&mut url, ALIAS_PARAMETER, a);
                    },
                    None => {},
                }
                let text: String = url.as_str().to_owned();
                assert(text@ =~= self@.request_text());
                Ok(text)
            },
        }
    }

    /// The URL of this request. It is there whenever the parser gives the
    /// endpoint back as it is written; a configuration error says that it did
    /// not.
    pub fn request_url(&self) -> (r: Result<String, ShortenError>)
        ensures
            match r {
                Ok(text) => text@ == self@.request_text(),
                Err(e) => e == ShortenError::Configuration,
            },
            r is Ok <==> parsed(ENDPOINT@) == Some(ENDPOINT@),
    {
        self.request_from(Url::parse(ENDPOINT))
    }
}

impl<'u> Default for TinyURL<'u> {
    /// A request for `https://google.com`, without an alias.
    fn default() -> (r: Self)
        ensures
            r@ == (ShortenRequest { long_url: "https://google.com"@, alias: None }),
    {
        proof {
            reveal_strlit("https://google.com");
        }
        TinyURL { uri: "https://google.com", alias: None }
    }
}

/// The endpoint has neither `?` nor `#` in it.
pub proof fn lemma_endpoint_is_plain()
    ensures
        is_free_of(ENDPOINT@, '?'),
        is_free_of(ENDPOINT@, '#'),
{
    reveal_strlit("https://tinyurl.com/api-create.php");
}

/// Parts whose text is the endpoint are the endpoint as head, with no query
/// and no fragment.
pub proof fn lemma_endpoint_parts(parts: UrlParts)
    requires
        parts.text() == ENDPOINT@,
    ensures
        parts.head == ENDPOINT@,
        parts.head.len() == 34,
        parts.query is None,
        parts.fragment is None,
{
    reveal_strlit("https://tinyurl.com/api-create.php");
    lemma_endpoint_is_plain();
    let text = parts.text();
    if parts.query is Some {
        assert(text[parts.head.len() as int] == '?');
    } else if parts.fragment is Some {
        assert(text[parts.head.len() as int] == '#');
    } else {
        assert(text =~= parts.head);
    }
}

/// The two parameter names are written into a query as they stand.
pub proof fn lemma_parameter_names(value: Seq<char>)
    ensures
        URL_PARAMETER@ == seq!['u', 'r', 'l'],
        ALIAS_PARAMETER@ == seq!['a', 'l', 'i', 'a', 's'],
        pair_text(URL_PARAMETER@, value) == seq!['u', 'r', 'l', '='] + encoded(encode_utf8(value)),
        pair_text(ALIAS_PARAMETER@, value) == seq!['a', 'l', 'i', 'a', 's', '='] + encoded(
            encode_utf8(value),
        ),
{
    reveal_strlit("url");
    reveal_strlit("alias");
    assert(URL_PARAMETER@ =~= seq!['u', 'r', 'l']);
    assert(ALIAS_PARAMETER@ =~= seq!['a', 'l', 'i', 'a', 's']);
    crate::form::lemma_plain_text_unchanged(URL_PARAMETER@);
    crate::form::lemma_plain_text_unchanged(ALIAS_PARAMETER@);
    assert(pair_text(URL_PARAMETER@, value) =~= seq!['u', 'r', 'l', '='] + encoded(
        encode_utf8(value),
    ));
    assert(pair_text(ALIAS_PARAMETER@, value) =~= seq!['a', 'l', 'i', 'a', 's', '='] + encoded(
        encode_utf8(value),
    ));
}

/// Setting an alias twice leaves the second alias alone: the request, and
/// with it the URL that asks for it, is the one that the second alias gives.
pub proof fn lemma_last_alias_wins(request: ShortenRequest, first: Seq<char>, second: Seq<char>)
    ensures
        request.with_alias(first).with_alias(second) == request.with_alias(second),
        request.with_alias(first).with_alias(second).request_text() == request.with_alias(
            second,
        ).request_text(),
        request.with_alias(first).with_alias(second).parameters() == seq![
            (URL_PARAMETER@, request.long_url),
            (ALIAS_PARAMETER@, second),
        ],
{
    assert(request.with_alias(second).parameters() =~= seq![
        (URL_PARAMETER@, request.long_url),
        (ALIAS_PARAMETER@, second),
    ]);
}

/// The query of a request's URL, as a reader of URLs finds it, is the query
/// that the request wrote.
pub proof fn lemma_request_query(request: ShortenRequest)
    ensures
        query_of(request.request_text()) == Some(request.query_text()),
{
    let query = request.query_text();
    let text = request.request_text();
    lemma_endpoint_is_plain();
    lemma_query_is_free(request);
    assert(is_free_of(text, '#')) by {
        assert forall|i: int| 0 <= i < text.len() implies #[trigger] text[i] != '#' by {
            if i < ENDPOINT@.len() {
                assert(text[i] == ENDPOINT@[i]);
            } else if i > ENDPOINT@.len() {
                assert(text[i] == query[i - ENDPOINT@.len() - 1]);
            }
        }
    }
    crate::form::lemma_position_absent(text, '#');
    crate::form::lemma_position_after(ENDPOINT@, '?', query);
    assert(text.skip(ENDPOINT@.len() as int + 1) =~= query);
}

/// The query of a request holds neither `?` nor `#`.
pub proof fn lemma_query_is_free(request: ShortenRequest)
    ensures
        is_free_of(request.query_text(), '?'),
        is_free_of(request.query_text(), '#'),
{
    let first = pair_text(URL_PARAMETER@, request.long_url);
    let query = request.query_text();
    crate::form::lemma_pair_of_pair_text(URL_PARAMETER@, request.long_url);
    match request.alias {
        Some(a) => {
            let second = pair_text(ALIAS_PARAMETER@, a);
            crate::form::lemma_pair_of_pair_text(ALIAS_PARAMETER@, a);
            assert forall|i: int| 0 <= i < query.len() implies #[trigger] query[i] != '?'
                && query[i] != '#' by {
                if i < first.len() {
                    assert(query[i] == first[i]);
                } else if i > first.len() {
                    assert(query[i] == second[i - first.len() - 1]);
                }
            }
        },
        None => {
            assert(query =~= first);
        },
    }
}

/// Reading a request's query gives back what went into it: its pairs are the
/// request's parameters, in order and as UTF-8, and the text of each name and
/// value is the text that the request was made of.
pub proof fn lemma_request_round_trip(request: ShortenRequest)
    ensures
        pairs(request.query_text()).len() == request.parameters().len(),
        forall|i: int|
            0 <= i < request.parameters().len() ==> {
                &&& (#[trigger] pairs(request.query_text())[i]).0 == encode_utf8(
                    request.parameters()[i].0,
                )
                &&& pairs(request.query_text())[i].1 == encode_utf8(request.parameters()[i].1)
                &&& decode_utf8(pairs(request.query_text())[i].0) == request.parameters()[i].0
                &&& decode_utf8(pairs(request.query_text())[i].1) == request.parameters()[i].1
            },
{
    let first = pair_text(URL_PARAMETER@, request.long_url);
    let query = request.query_text();
    crate::form::lemma_pair_of_pair_text(URL_PARAMETER@, request.long_url);
    vstd::utf8::encode_utf8_decode_utf8(URL_PARAMETER@);
    vstd::utf8::encode_utf8_decode_utf8(request.long_url);
    match request.alias {
        Some(a) => {
            let second = pair_text(ALIAS_PARAMETER@, a);
            crate::form::lemma_pair_of_pair_text(ALIAS_PARAMETER@, a);
            vstd::utf8::encode_utf8_decode_utf8(ALIAS_PARAMETER@);
            vstd::utf8::encode_utf8_decode_utf8(a);
            assert(query =~= first + seq!['&'] + second);
            crate::form::lemma_pairs_joined(first, second);
            crate::form::lemma_pairs_single(second);
            assert(pairs(query) =~= seq![
                (encode_utf8(URL_PARAMETER@), encode_utf8(request.long_url)),
                (encode_utf8(ALIAS_PARAMETER@), encode_utf8(a)),
            ]);
        },
        None => {
            assert(query =~= first);
            crate::form::lemma_pairs_single(first);
            assert(pairs(query) =~= seq![
                (encode_utf8(URL_PARAMETER@), encode_utf8(request.long_url)),
            ]);
        },
    }
}

/// A request without an alias asks with the long URL alone: its query is
/// `url=` and the written long URL, and no pair of it is named `alias`.
pub proof fn lemma_query_without_alias(request: ShortenRequest)
    requires
        request.alias is None,
    ensures
        request.query_text() == seq!['u', 'r', 'l', '='] + encoded(encode_utf8(request.long_url)),
        pairs(request.query_text()).len() == 1,
        forall|i: int|
            0 <= i < pairs(request.query_text()).len() ==> (#[trigger] pairs(
                request.query_text(),
            )[i]).0 != encode_utf8(ALIAS_PARAMETER@),
{
    lemma_parameter_names(request.long_url);
    lemma_request_round_trip(request);
    assert(request.query_text() =~= pair_text(URL_PARAMETER@, request.long_url));
    assert(request.parameters()[0].0 == URL_PARAMETER@);
    vstd::utf8::encode_utf8_decode_utf8(URL_PARAMETER@);
    vstd::utf8::encode_utf8_decode_utf8(ALIAS_PARAMETER@);
    assert(URL_PARAMETER@.len() != ALIAS_PARAMETER@.len());
}

/// A request with an alias asks with both: its query is `url=` and the
/// written long URL, then `&alias=` and the written alias.
pub proof fn lemma_query_with_alias(request: ShortenRequest)
    requires
        request.alias is Some,
    ensures
        request.query_text() == seq!['u', 'r', 'l', '='] + encoded(encode_utf8(request.long_url))
            + seq!['&', 'a', 'l', 'i', 'a', 's', '='] + encoded(encode_utf8(request.alias->0)),
        pairs(request.query_text()).len() == 2,
{
    lemma_parameter_names(request.long_url);
    lemma_parameter_names(request.alias->0);
    lemma_request_round_trip(request);
    assert(request.query_text() =~= seq!['u', 'r', 'l', '='] + encoded(
        encode_utf8(request.long_url),
    ) + seq!['&', 'a', 'l', 'i', 'a', 's', '='] + encoded(encode_utf8(request.alias->0)));
}

} // verus!
