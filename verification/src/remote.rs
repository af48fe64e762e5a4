//! The remote address of a checkout, as far as the manifest needs it: its host
//! and its path. Reading an address is left to the `url` crate.

use vstd::prelude::*;
use vstd::string::*;

verus! {

/// The error of the `url` crate's parser. Nothing is known of a value of it.
#[verifier::external_type_specification]
#[verifier::external_body]
pub struct ExParseError(url::ParseError);

/// Whether `url::Url::parse` accepts `input` as an absolute address.
pub uninterp spec fn url_parses(input: Seq<char>) -> bool;

/// What `url::Url::host_str` gives for the address parsed from `input`: the
/// host as the parser wrote it down, or `None` for an address without one.
pub uninterp spec fn url_host_str(input: Seq<char>) -> Option<Seq<char>>;

/// What `url::Url::path` gives for the address parsed from `input`.
pub uninterp spec fn url_path(input: Seq<char>) -> Seq<char>;

/// The host and the path of a parsed address.
#[derive(Clone, Debug, PartialEq, Eq)]
pub struct RemoteUrl {
    pub host: Option<String>,
    pub path: String,
}

/// A [`RemoteUrl`] as a mathematical value.
pub struct RemoteUrlView {
    pub host: Option<Seq<char>>,
    pub path: Seq<char>,
}

impl View for RemoteUrl {
    type V = RemoteUrlView;

    open spec fn view(&self) -> RemoteUrlView {
        RemoteUrlView { host: self.host.deep_view(), path: self.path@ }
    }
}

/// What parsing `input` gives: its host and path where the parser accepts it.
pub open spec fn parsed(input: Seq<char>) -> Option<RemoteUrlView> {
    if url_parses(input) {
        Some(RemoteUrlView { host: url_host_str(input), path: url_path(input) })
    } else {
        None
    }
}

/// Calls `url::Url::parse` on `input` and, where that succeeds, `Url::host_str`
/// and `Url::path` on the address it returns. The contract claims no more than
/// that the three are functions of `input` alone: the outcome is given the names
/// [`url_parses`], [`url_host_str`] and [`url_path`], and nothing is said of
/// what they are on any input.
#[verifier::external_body]
fn parse_url(input: &str) -> (r: Result<RemoteUrl, url::ParseError>)
    ensures
        r is Ok <==> url_parses(input@),
        r matches Ok(remote) ==> remote@.host == url_host_str(input@) && remote@.path
            == url_path(input@),
{
    match url::Url::parse(input) {
        Ok(address) => {
            let host = match address.host_str() {
                Some(host) => Some(host.to_owned()),
                None => None,
            };
            Ok(RemoteUrl { host, path: address.path().to_owned() })
        },
        Err(error) => Err(error),
    }
}

impl RemoteUrl {
    /// The host and the path of the address written in `input`, or `None` where
    /// it is no absolute address.
    pub fn parse(input: &str) -> (r: Option<RemoteUrl>)
        ensures
            r.is_some() == url_parses(input@),
            match r {
                Some(remote) => parsed(input@) == Some(remote@),
                None => parsed(input@) is None,
            },
    {
        match parse_url(input) {
            Ok(remote) => Some(remote),
            Err(_) => None,
        }
    }
}

} // verus!
