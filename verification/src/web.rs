//! What this library takes from the `url` crate, and what it trusts of it.
//!
//! A `Url` is opaque here. The contracts below speak of it through
//! [`url_parts`], the three parts of its text that a query stands between.

use crate::form::pair_text;
use url::ParseError;
use url::Url;
use vstd::prelude::*;

verus! {

/// `url::Url`, a parsed URL. Its fields are private to its crate.
#[verifier::external_type_specification]
#[verifier::external_body]
pub struct ExUrl(Url);

/// `url::ParseError`, the reason why a text is not a URL.
#[verifier::external_type_specification]
#[verifier::external_body]
pub struct ExParseError(ParseError);

/// The text of a URL in three parts.
pub struct UrlParts {
    /// Scheme, authority and path: all that stands before the query.
    pub head: Seq<char>,
    /// The query, without its leading `?`.
    pub query: Option<Seq<char>>,
    /// The fragment, without its leading `#`.
    pub fragment: Option<Seq<char>>,
}

impl UrlParts {
    /// The whole text: the head, then `?` and the query, then `#` and the
    /// fragment, each only if it is there.
    pub open spec fn text(self) -> Seq<char> {
        self.head + (match self.query {
            Some(q) => seq!['?'] + q,
            None => Seq::empty(),
        }) + (match self.fragment {
            Some(f) => seq!['#'] + f,
            None => Seq::empty(),
        })
    }

    /// These parts with one more pair at the end of the query. The pair
    /// follows `&` where the query already holds something, and makes up the
    /// whole query where there was none or an empty one.
    pub open spec fn with_pair(self, name: Seq<char>, value: Seq<char>) -> UrlParts {
        UrlParts {
            head: self.head,
            query: Some(
                match self.query {
                    Some(q) => if q.len() > 0 {
                        q + seq!['&'] + pair_text(name, value)
                    } else {
                        pair_text(name, value)
                    },
                    None => pair_text(name, value),
                },
            ),
            fragment: self.fragment,
        }
    }
}

/// The parts of a `Url`: `query` and `fragment` are what `Url::query` and
/// `Url::fragment` return, and `head` is the text before them.
pub uninterp spec fn url_parts(u: Url) -> UrlParts;

/// The text of the URL that `Url::parse` makes of `input`; `None` where it
/// returns an error.
pub uninterp spec fn parsed(input: Seq<char>) -> Option<Seq<char>>;

/// `Url::parse` is trusted to be a function of its input alone: the text of
/// the URL it returns, or that it returns an error, is what [`parsed`] names.
/// Nothing is claimed of which inputs it accepts.
pub assume_specification[ Url::parse ](input: &str) -> (r: Result<Url, ParseError>)
    ensures
        match r {
            Ok(u) => parsed(input@) == Some(url_parts(u).text()),
            Err(_) => parsed(input@) is None,
        },
;

/// `Url::as_str` is trusted to return the URL's text, which is its head,
/// its query behind `?` and its fragment behind `#`.
pub assume_specification<'a>[ Url::as_str ](u: &'a Url) -> (r: &'a str)
    ensures
        r@ == url_parts(*u).text(),
;

/// Calls `Url::query_pairs_mut` and, on what that returns,
/// `form_urlencoded::Serializer::append_pair`. For a URL without a fragment
/// this is trusted to leave the head alone and to write the pair at the end of
/// the query as [`UrlParts::with_pair`] says, name and value each in the
/// form-urlencoded writing of its UTF-8 bytes.
///
/// A URL with a fragment is left out: the crate takes the fragment off and
/// puts it back behind the longer text, and fails if that text has outgrown
/// 32 bits. For the same reason a URL that has no query yet must be short
/// enough for its `?` to get a 32-bit position, at four bytes a character.
#[verifier::external_body]
pub(crate) fn append_pair(url: &mut Url, name: &str, value: &str)
    requires
        url_parts(*old(url)).fragment is None,
        url_parts(*old(url)).query is None ==> 4 * url_parts(*old(url)).head.len() <= u32::MAX,
    ensures
        url_parts(*final(url)) == url_parts(*old(url)).with_pair(name@, value@),
{
    url.query_pairs_mut().append_pair(name, value);
}

} // verus!
