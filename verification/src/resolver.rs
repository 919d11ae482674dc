//! Resolution of a proxied path to the HTTPS URL that it names.

use crate::text::strip_prefix;
use vstd::prelude::*;
use vstd::string::StringExecFns;

verus! {

/// `url::Url`, a parsed URL; it is carried and never looked into.
#[verifier::external_type_specification]
#[verifier::external_body]
pub struct ExUrl(url::Url);

/// `url::ParseError`, the parser's error; it is carried and never looked into.
#[verifier::external_type_specification]
#[verifier::external_body]
pub struct ExParseError(url::ParseError);

/// Whether the URL parser accepts `text` as an absolute URL.
pub uninterp spec fn url_parses(text: Seq<char>) -> bool;

/// `url::Url::parse`: whether it succeeds depends on the text alone. Nothing
/// is said of the URL or the error that it hands back.
pub assume_specification[ url::Url::parse ](input: &str) -> (parsed: Result<
    url::Url,
    url::ParseError,
>)
    ensures
        parsed is Ok == url_parses(input@),
;

/// The scheme that every target has.
pub open spec fn scheme() -> Seq<char> {
    "https://"@
}

/// The URL text that the path `path` names: the scheme, then the path as it is.
pub open spec fn resolved(path: Seq<char>) -> Seq<char> {
    scheme() + path
}

/// The path that the URL text `url` was resolved from.
pub open spec fn path_of(url: Seq<char>) -> Seq<char> {
    url.skip(scheme().len() as int)
}

/// Why a path names no target.
#[derive(Debug, Clone, Copy, PartialEq, Eq, Structural)]
pub enum ProxyError {
    /// The scheme and the path together are not a URL.
    InvalidUrl,
}

/// A resolved target: an HTTPS URL that the parser has accepted, held as the
/// text it was built from.
#[derive(Debug, PartialEq, Eq)]
pub struct ProxyTarget {
    url: String,
}

impl View for ProxyTarget {
    type V = Seq<char>;

    closed spec fn view(&self) -> Seq<char> {
        self.url@
    }
}

impl Clone for ProxyTarget {
    fn clone(&self) -> (copy: Self)
        ensures
            copy@ == self@,
    {
        proof {
            use_type_invariant(self);
        }
        ProxyTarget { url: self.url.clone() }
    }
}

impl ProxyTarget {
    #[verifier::type_invariant]
    spec fn well_formed(self) -> bool {
        scheme().is_prefix_of(self.url@) && url_parses(self.url@)
    }

    /// The URL text.
    pub fn as_str(&self) -> (url: &str)
        ensures
            url@ == self@,
            url@ == resolved(path_of(self@)),
            url_parses(url@),
    {
        proof {
            use_type_invariant(self);
            assert(self.url@ =~= resolved(path_of(self.url@)));
        }
        self.url.as_str()
    }

    /// The path that this target was resolved from.
    pub fn path(&self) -> (path: &str)
        ensures
            path@ == path_of(self@),
            resolved(path@) == self@,
    {
        proof {
            use_type_invariant(self);
            assert(self.url@ =~= resolved(path_of(self.url@)));
        }
        match strip_prefix(self.url.as_str(), "https://") {
            Some(path) => path,
            None => "",
        }
    }
}

/// Resolves the path captured behind the proxy mount to its target: the
/// scheme is put in front of the path, nothing in the path is changed, and
/// the result is a target only if the URL parser accepts it.
pub fn get_url(path: &str) -> (target: Result<ProxyTarget, ProxyError>)
    ensures
        match target {
            Ok(t) => url_parses(resolved(path@)) && t@ == resolved(path@),
            Err(e) => !url_parses(resolved(path@)) && e == ProxyError::InvalidUrl,
        },
{
    let url = String::from_str("https://").concat(path);
    match url::Url::parse(url.as_str()) {
        Ok(_) => {
            assert(scheme().is_prefix_of(url@));
            Ok(ProxyTarget { url })
        },
        Err(_) => Err(ProxyError::InvalidUrl),
    }
}

/// Resolution changes nothing: the path can be read back from the URL text.
pub proof fn lemma_resolution_round_trip(path: Seq<char>)
    ensures
        path_of(resolved(path)) == path,
{
    assert(resolved(path).skip(scheme().len() as int) =~= path);
}

/// Two paths that resolve to the same URL text are the same path.
pub proof fn lemma_resolution_injective(p: Seq<char>, q: Seq<char>)
    requires
        resolved(p) == resolved(q),
    ensures
        p == q,
{
    lemma_resolution_round_trip(p);
    lemma_resolution_round_trip(q);
}

} // verus!
