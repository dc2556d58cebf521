//! Links: URLs that have been parsed and are held in their serialized form.

use vstd::prelude::*;

verus! {

/// The serialization of the URL that `input` parses to; `None` where `input`
/// is no absolute URL.
pub uninterp spec fn url_serialization(input: Seq<char>) -> Option<Seq<char>>;

/// Calls `url::Url::parse` and hands back the parsed URL's serialization.
///
/// Trusted: the result is a function of `input` alone, named
/// [`url_serialization`], and the serialization of a parsed URL parses to
/// itself (the URL library holds this as one of its invariants).
#[verifier::external_body]
fn parse_url(input: &str) -> (r: Option<String>)
    ensures
        match r {
            Some(s) => url_serialization(input@) == Some(s@) && url_serialization(s@) == Some(s@),
            None => url_serialization(input@) is None,
        },
{
    url::Url::parse(input).ok().map(String::from)
}

/// A parsed URL.
#[derive(Debug)]
pub struct Url {
    serialization: String,
}

impl View for Url {
    type V = Seq<char>;

    closed spec fn view(&self) -> Seq<char> {
        self.serialization@
    }
}

impl Url {
    /// A URL's text parses to that same URL.
    #[verifier::type_invariant]
    spec fn stable(&self) -> bool {
        url_serialization(self.serialization@) == Some(self.serialization@)
    }

    /// Parses `input` as an absolute URL.
    pub fn parse(input: &str) -> (r: Option<Url>)
        ensures
            match r {
                Some(url) => url_serialization(input@) == Some(url@),
                None => url_serialization(input@) is None,
            },
    {
        match parse_url(input) {
            Some(serialization) => Some(Url { serialization }),
            None => None,
        }
    }

    /// The URL as text.
    pub fn as_str(&self) -> (r: &str)
        ensures
            r@ == self@,
            url_serialization(self@) == Some(self@),
    {
        proof {
            use_type_invariant(self);
        }
        self.serialization.as_str()
    }

    /// Whether `self` and `other` are the same URL.
    pub fn same(&self, other: &Url) -> (r: bool)
        ensures
            r == (self@ == other@),
    {
        self.serialization == other.serialization
    }

    /// A copy of this URL.
    pub fn duplicate(&self) -> (r: Url)
        ensures
            r@ == self@,
    {
        proof {
            use_type_invariant(self);
        }
        Url { serialization: self.serialization.clone() }
    }
}

impl Clone for Url {
    fn clone(&self) -> (r: Url)
        ensures
            r@ == self@,
    {
        self.duplicate()
    }
}

} // verus!
