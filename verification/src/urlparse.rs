//! Decomposition of a URL string into its scheme and domain, so that
//! configuration keys scoped to `protocol://host` can be formed. A string
//! that is no URL decomposes into nothing at all: discovery treats the URL
//! only as a lookup key and must not fail on it.
use vstd::prelude::*;

verus! {

/// The scheme and domain that URL parsing extracts from a string: nothing at
/// all when the string is not a URL, and no domain when the URL's host is
/// missing or is an IP address rather than a name. The outcome depends on
/// the string alone.
pub uninterp spec fn url_parts(s: Seq<char>) -> (Option<Seq<char>>, Option<Seq<char>>);

/// Relies on `url::Url::parse`, `Url::scheme` and `Url::host`: parsing
/// either fails, or yields a URL with a scheme and possibly a domain host,
/// all determined by the input text alone.
#[verifier::external_body]
pub(crate) fn split_url(url: &str) -> (ret: (Option<String>, Option<String>))
    ensures
        ret.deep_view() == url_parts(url@),
{
    match url::Url::parse(url) {
        Ok(parsed) => {
            let scheme = Some(parsed.scheme().to_string());
            let host = match parsed.host() {
                Some(url::Host::Domain(d)) => Some(d.to_string()),
                _ => None,
            };
            (scheme, host)
        },
        Err(_) => (None, None),
    }
}

} // verus!
