//! Indexer search results and the resolution of a result's link to
//! torrent-file bytes.
use vstd::prelude::*;
use lava_torrent::LavaTorrentError;

verus! {

#[verifier::external_type_specification]
#[verifier::external_body]
pub struct ExReqwestError(reqwest::Error);

#[verifier::external_type_specification]
#[verifier::external_body]
pub struct ExRssItem(rss::Item);

/// Why a search result could not be used.
#[derive(Clone, Copy, Debug, PartialEq, Eq, Structural)]
pub enum ResultError {
    MissingTitle,
    MissingLink,
    /// A redirect without a target.
    InvalidRedirect,
    /// More redirects than `MAX_REDIRECTS`.
    TooManyRedirects,
    /// The link is a magnet link, which cannot be resolved to metadata.
    UnsupportedMagnet,
}

/// Failure of an indexer search or of resolving a result.
#[derive(Debug)]
pub enum ClientError {
    HttpError(reqwest::Error),
    SearchResultError(ResultError),
    TorrentError(LavaTorrentError),
    /// The indexer's answer is not a readable search feed.
    MalformedResponse,
}

impl From<ResultError> for ClientError {
    fn from(e: ResultError) -> (r: Self)
        ensures
            r == ClientError::SearchResultError(e),
    {
        ClientError::SearchResultError(e)
    }
}

impl vstd::std_specs::convert::FromSpecImpl<ResultError> for ClientError {
    open spec fn obeys_from_spec() -> bool {
        true
    }

    open spec fn from_spec(e: ResultError) -> Self {
        ClientError::SearchResultError(e)
    }
}

impl From<reqwest::Error> for ClientError {
    fn from(e: reqwest::Error) -> (r: Self)
        ensures
            r == ClientError::HttpError(e),
    {
        ClientError::HttpError(e)
    }
}

impl vstd::std_specs::convert::FromSpecImpl<reqwest::Error> for ClientError {
    open spec fn obeys_from_spec() -> bool {
        true
    }

    open spec fn from_spec(e: reqwest::Error) -> Self {
        ClientError::HttpError(e)
    }
}

impl From<LavaTorrentError> for ClientError {
    fn from(e: LavaTorrentError) -> (r: Self)
        ensures
            r == ClientError::TorrentError(e),
    {
        ClientError::TorrentError(e)
    }
}

impl vstd::std_specs::convert::FromSpecImpl<LavaTorrentError> for ClientError {
    open spec fn obeys_from_spec() -> bool {
        true
    }

    open spec fn from_spec(e: LavaTorrentError) -> Self {
        ClientError::TorrentError(e)
    }
}

/// Failure of a search on one indexer.
#[derive(Debug)]
pub enum IndexerSearchError {
    TorznabError(ClientError),
}

impl From<ClientError> for IndexerSearchError {
    fn from(e: ClientError) -> (r: Self)
        ensures
            r == IndexerSearchError::TorznabError(e),
    {
        IndexerSearchError::TorznabError(e)
    }
}

impl vstd::std_specs::convert::FromSpecImpl<ClientError> for IndexerSearchError {
    open spec fn obeys_from_spec() -> bool {
        true
    }

    open spec fn from_spec(e: ClientError) -> Self {
        IndexerSearchError::TorznabError(e)
    }
}

/// One search hit: a title and a link that resolves to the release.
#[derive(Clone, Debug, PartialEq, Eq)]
pub struct TorrentResult {
    pub name: String,
    pub link: String,
}

/// Relies on `rss::Item::title`.
#[verifier::external_body]
fn item_title(item: &rss::Item) -> (r: Option<String>) {
    item.title().map(|t| t.to_string())
}

/// Relies on `rss::Item::link`.
#[verifier::external_body]
fn item_link(item: &rss::Item) -> (r: Option<String>) {
    item.link().map(|l| l.to_string())
}

/// The most redirects followed while resolving one link.
pub const MAX_REDIRECTS: u32 = 5;

/// Whether `s` is a magnet link (`magnet:?` prefix).
pub open spec fn is_magnet_spec(s: Seq<char>) -> bool {
    s.len() >= 8 && s.subrange(0, 8) == seq!['m', 'a', 'g', 'n', 'e', 't', ':', '?']
}

/// Whether an HTTP status is a redirect that names its target.
pub open spec fn is_redirect_spec(status: u16) -> bool {
    status == 301 || status == 302 || status == 303 || status == 307 || status == 308
}

/// What to do after a response while resolving a link.
#[derive(Debug, PartialEq, Eq)]
pub enum ResolveStep {
    /// Request this URL next.
    Follow(String),
    /// The response body is the torrent file.
    Decode,
    /// Give up.
    Fail(ResultError),
}

/// The step after a response, once `hops` redirects have been followed.
pub open spec fn resolve_step_spec(hops: u32, status: u16, location: Option<Seq<char>>) -> Result<
    Option<Seq<char>>,
    ResultError,
> {
    if !is_redirect_spec(status) {
        Ok(None)
    } else {
        match location {
            None => Err(ResultError::InvalidRedirect),
            Some(l) => if hops >= MAX_REDIRECTS {
                Err(ResultError::TooManyRedirects)
            } else if is_magnet_spec(l) {
                Err(ResultError::UnsupportedMagnet)
            } else {
                Ok(Some(l))
            },
        }
    }
}

/// Returns whether `url` is a magnet link.
pub fn is_magnet(url: &String) -> (r: bool)
    ensures
        r == is_magnet_spec(url@),
{
    let s = url.as_str();
    let n = s.unicode_len();
    if n < 8 {
        return false;
    }
    let r = s.get_char(0) == 'm' && s.get_char(1) == 'a' && s.get_char(2) == 'g' && s.get_char(3)
        == 'n' && s.get_char(4) == 'e' && s.get_char(5) == 't' && s.get_char(6) == ':'
        && s.get_char(7) == '?';
    proof {
        let v = url@;
        let m = seq!['m', 'a', 'g', 'n', 'e', 't', ':', '?'];
        if r {
            assert(v.subrange(0, 8) =~= m);
        } else if v.subrange(0, 8) == m {
            assert forall|i: int| 0 <= i < 8 implies v[i] == m[i] by {
                assert(v.subrange(0, 8)[i] == v[i]);
            }
        }
    }
    r
}

/// Decides the next step of resolving a link from the last response: a
/// redirect with a target is followed unless `MAX_REDIRECTS` have been
/// followed already or the target is a magnet link; any other response is
/// decoded.
pub fn next_resolve_step(hops: u32, status: u16, location: Option<String>) -> (r: ResolveStep)
    ensures
        match resolve_step_spec(
            hops,
            status,
            match location {
                Some(l) => Some(l@),
                None => None,
            },
        ) {
            Ok(None) => r == ResolveStep::Decode,
            Ok(Some(l)) => r matches ResolveStep::Follow(u) && u@ == l,
            Err(e) => r == ResolveStep::Fail(e),
        },
{
    if !(status == 301 || status == 302 || status == 303 || status == 307 || status == 308) {
        return ResolveStep::Decode;
    }
    match location {
        None => ResolveStep::Fail(ResultError::InvalidRedirect),
        Some(l) => {
            if hops >= MAX_REDIRECTS {
                ResolveStep::Fail(ResultError::TooManyRedirects)
            } else if is_magnet(&l) {
                ResolveStep::Fail(ResultError::UnsupportedMagnet)
            } else {
                ResolveStep::Follow(l)
            }
        },
    }
}

impl TorrentResult {
    /// A result from an item's title and link, either of which may be
    /// missing.
    pub fn from_parts(title: Option<String>, link: Option<String>) -> (r: Result<
        TorrentResult,
        ResultError,
    >)
        ensures
            match (title, link) {
                (None, _) => r == Err::<TorrentResult, ResultError>(ResultError::MissingTitle),
                (Some(_), None) => r == Err::<TorrentResult, ResultError>(
                    ResultError::MissingLink,
                ),
                (Some(t), Some(l)) => r matches Ok(res) && res.name@ == t@ && res.link@ == l@,
            },
    {
        match title {
            None => Err(ResultError::MissingTitle),
            Some(name) => match link {
                None => Err(ResultError::MissingLink),
                Some(link) => Ok(TorrentResult { name, link }),
            },
        }
    }

    /// A result from an RSS item of a search response.
    pub fn from_item(item: rss::Item) -> (r: Result<TorrentResult, ResultError>)
        ensures
            r matches Err(e) ==> e == ResultError::MissingTitle || e == ResultError::MissingLink,
    {
        TorrentResult::from_parts(item_title(&item), item_link(&item))
    }

    /// The first request made to resolve this result, or why there is none.
    pub fn first_request(&self) -> (r: Result<String, ResultError>)
        ensures
            is_magnet_spec(self.link@) ==> r == Err::<String, ResultError>(
                ResultError::UnsupportedMagnet,
            ),
            !is_magnet_spec(self.link@) ==> (r matches Ok(u) && u@ == self.link@),
    {
        if is_magnet(&self.link) {
            Err(ResultError::UnsupportedMagnet)
        } else {
            Ok(self.link.clone())
        }
    }
}

/// The first result of a search, which is taken as the match.
pub fn first_result(results: &Vec<TorrentResult>) -> (r: Option<&TorrentResult>)
    ensures
        results.len() == 0 ==> r.is_none(),
        results.len() > 0 ==> r == Some(&results[0]),
{
    if results.len() == 0 {
        None
    } else {
        Some(&results[0])
    }
}

} // verus!
