//! Parsed URLs: the parts of a URL that the rules read.
use vstd::prelude::*;

verus! {

/// A URL that parsed: its text as the parser writes it out, its host where
/// it has one, and its path.
#[derive(Debug, PartialEq, Eq)]
pub struct Location {
    pub text: String,
    pub host: Option<String>,
    pub path: String,
}

/// The mathematical value of a `Location`.
pub struct LocationView {
    pub text: Seq<char>,
    pub host: Option<Seq<char>>,
    pub path: Seq<char>,
}

impl View for Location {
    type V = LocationView;

    open spec fn view(&self) -> LocationView {
        LocationView { text: self.text@, host: self.host.deep_view(), path: self.path@ }
    }
}

/// What parsing `input` as an absolute URL gives: the URL as the parser writes
/// it out, its host and its path. `None` where `input` does not parse.
pub uninterp spec fn url_parsed(input: Seq<char>) -> Option<LocationView>;

/// What resolving `input` against the URL `base` gives: `None` where `base`
/// is no absolute URL or `input` does not resolve against it.
pub uninterp spec fn url_joined(base: Seq<char>, input: Seq<char>) -> Option<LocationView>;

/// Calls `url::Url::parse`, and reads the result with `Url::as_str`,
/// `Url::host_str` and `Url::path`. Nothing is claimed of the outcome but
/// that it is the one `url_parsed` names: the same input parses the same way.
#[verifier::external_body]
pub(crate) fn parse_url(input: &str) -> (r: Option<Location>)
    ensures
        r is Some <==> url_parsed(input@) is Some,
        r is Some ==> url_parsed(input@) == Some(r.unwrap()@),
{
    match url::Url::parse(input) {
        Ok(u) => Some(
            Location {
                text: u.as_str().to_owned(),
                host: u.host_str().map(str::to_owned),
                path: u.path().to_owned(),
            },
        ),
        Err(_) => None,
    }
}

/// Calls `url::Url::join` on the URL that `url::Url::parse` makes of `base`,
/// and reads the result as `parse_url` does. Nothing is claimed of the
/// outcome but that it is the one `url_joined` names.
#[verifier::external_body]
pub(crate) fn join_url(base: &str, input: &str) -> (r: Option<Location>)
    ensures
        r is Some <==> url_joined(base@, input@) is Some,
        r is Some ==> url_joined(base@, input@) == Some(r.unwrap()@),
{
    match url::Url::parse(base) {
        Ok(b) => match b.join(input) {
            Ok(u) => Some(
                Location {
                    text: u.as_str().to_owned(),
                    host: u.host_str().map(str::to_owned),
                    path: u.path().to_owned(),
                },
            ),
            Err(_) => None,
        },
        Err(_) => None,
    }
}

} // verus!
