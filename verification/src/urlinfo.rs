use vstd::prelude::*;

verus! {

/// What `url::Url::parse` and `Url::host_str` yield for a URL text: `None`
/// when the text does not parse as a URL, `Some(None)` when it parses but
/// has no host, and `Some(Some(h))` with the host text otherwise. The parse
/// depends on the text alone, so the result can be given a name.
pub uninterp spec fn host_of(s: Seq<char>) -> Option<Option<Seq<char>>>;

/// Relies on `url::Url::parse` and `Url::host_str`: both are functions of
/// the URL text alone.
#[verifier::external_body]
pub(crate) fn url_host(s: &str) -> (r: Option<Option<String>>)
    ensures
        match r {
            None => host_of(s@) == None::<Option<Seq<char>>>,
            Some(None) => host_of(s@) == Some(None::<Seq<char>>),
            Some(Some(h)) => host_of(s@) == Some(Some(h@)),
        },
{
    match url::Url::parse(s) {
        Ok(u) => Some(u.host_str().map(|h| h.to_string())),
        Err(_) => None,
    }
}

} // verus!
