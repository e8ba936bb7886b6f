//! Downloading within limits.

use crate::error::{ManagerError, ManagerErrorView};
use crate::outside::UrlView;
use crate::ports::{DownloadRequest, DownloadRequestView, Release, ReleaseView};
use crate::outside;
use crate::text;
use vstd::prelude::*;

verus! {

/// The limits of a client.
#[derive(Debug, Clone, Copy, PartialEq, Eq, Structural)]
pub struct HttpClient {
    pub max_redirects: usize,
    pub connect_timeout_seconds: u64,
}

impl HttpClient {
    /// A client that waits ten seconds for a connection.
    pub fn new(max_redirects: usize) -> (r: HttpClient)
        ensures
            r == (HttpClient { max_redirects, connect_timeout_seconds: 10 }),
    {
        HttpClient::with_connect_timeout(max_redirects, 10)
    }

    /// A client that waits so many seconds for a connection.
    pub fn with_connect_timeout(max_redirects: usize, connect_timeout_seconds: u64) -> (r:
        HttpClient)
        ensures
            r == (HttpClient { max_redirects, connect_timeout_seconds }),
    {
        HttpClient { max_redirects, connect_timeout_seconds }
    }

    /// How many redirects a request may take: as many as it and the client both allow.
    pub fn redirect_limit(&self, request: &DownloadRequest) -> (r: usize)
        ensures
            r == vstd::math::min(request@.max_redirects as int, self.max_redirects as int),
    {
        if request.max_redirects < self.max_redirects {
            request.max_redirects
        } else {
            self.max_redirects
        }
    }
}

/// What becomes of a redirect.
#[derive(Debug, Clone, Copy, PartialEq, Eq, Structural)]
pub enum Redirect {
    Follow,
    TooMany,
    Downgrade,
}

/// What becomes of a redirect after `taken` others, from the scheme of the
/// last address to another. HTTPS is never left.
pub open spec fn redirect_decision(
    taken: nat,
    limit: nat,
    from: Option<Seq<char>>,
    to: Seq<char>,
) -> Redirect {
    if taken >= limit {
        Redirect::TooMany
    } else if from == Some("https"@) && to != "https"@ {
        Redirect::Downgrade
    } else {
        Redirect::Follow
    }
}

/// Decides on a redirect.
pub fn decide_redirect(taken: usize, limit: usize, from: &Option<String>, to: &str) -> (r: Redirect)
    ensures
        r == redirect_decision(taken as nat, limit as nat, text::opt_text(*from), to@),
{
    if taken >= limit {
        return Redirect::TooMany;
    }
    let secure = match from {
        Some(scheme) => text::same(scheme.as_str(), "https"),
        None => false,
    };
    if secure && !text::same(to, "https") {
        Redirect::Downgrade
    } else {
        Redirect::Follow
    }
}

/// The hop to the address `i` of a chain of redirects is followed.
pub open spec fn hop_followed(schemes: Seq<Seq<char>>, i: int, limit: nat) -> bool {
    redirect_decision(i as nat, limit, Some(schemes[i - 1]), schemes[i]) == Redirect::Follow
}

/// The schemes that a chain of followed redirects leads through, beginning
/// with HTTPS, are HTTPS throughout, and the chain is limited.
pub proof fn law_redirects_stay_on_https(schemes: Seq<Seq<char>>, limit: nat)
    requires
        schemes.len() > 0,
        schemes[0] == "https"@,
        forall|i: int| 1 <= i < schemes.len() ==> #[trigger] hop_followed(schemes, i, limit),
    ensures
        forall|i: int| 0 <= i < schemes.len() ==> #[trigger] schemes[i] == "https"@,
        schemes.len() <= limit || schemes.len() == 1,
{
    assert forall|i: int| 0 <= i < schemes.len() implies #[trigger] schemes[i] == "https"@ by {
        lemma_hops(schemes, limit, i);
    }
    if schemes.len() > 1 {
        assert(hop_followed(schemes, schemes.len() - 1, limit));
    }
}

proof fn lemma_hops(schemes: Seq<Seq<char>>, limit: nat, i: int)
    requires
        0 <= i < schemes.len(),
        schemes[0] == "https"@,
        forall|i: int| 1 <= i < schemes.len() ==> #[trigger] hop_followed(schemes, i, limit),
    ensures
        schemes[i] == "https"@,
    decreases i,
{
    if i > 0 {
        lemma_hops(schemes, limit, i - 1);
        assert(hop_followed(schemes, i, limit));
    }
}

/// Why an address is not downloaded from.
pub open spec fn address_problem(url: Result<UrlView, Seq<char>>) -> Option<Seq<char>> {
    match url {
        Err(_) => Some("invalid download URL"@),
        Ok(u) => if u.scheme != "https"@ {
            Some("only HTTPS is allowed"@)
        } else {
            None
        },
    }
}

/// Checks the address of a download: only HTTPS is allowed.
pub fn check_address(url: &str) -> (r: Result<(), ManagerError>)
    ensures
        match r {
            Ok(_) => address_problem(outside::read_url(url@)) is None,
            Err(e) => address_problem(outside::read_url(url@)) is Some && e@ == ManagerErrorView::Download(
                address_problem(outside::read_url(url@))->0,
            ),
        },
{
    match outside::parse_url(url) {
        Err(_) => Err(ManagerError::Download(text::owned("invalid download URL"))),
        Ok(parts) => check_scheme(parts.scheme.as_str()),
    }
}

/// Checks the scheme of a download address.
pub fn check_scheme(scheme: &str) -> (r: Result<(), ManagerError>)
    ensures
        match r {
            Ok(_) => scheme@ == "https"@,
            Err(e) => scheme@ != "https"@ && e@ == ManagerErrorView::Download(
                "only HTTPS is allowed"@,
            ),
        },
{
    if text::same(scheme, "https") {
        Ok(())
    } else {
        Err(ManagerError::Download(text::owned("only HTTPS is allowed")))
    }
}

/// Why a response is refused before its body is read.
pub open spec fn response_problem(
    code: u16,
    shown: Seq<char>,
    length: Option<u64>,
    max: u64,
) -> Option<Seq<char>> {
    if code != 200 {
        Some("server returned "@ + shown)
    } else if length matches Some(n) && n > max {
        Some("size limit exceeded"@)
    } else {
        None
    }
}

/// Checks the status of a response, shown as `shown`, and the length that it declares.
pub fn check_response(code: u16, shown: &str, length: Option<u64>, max: u64) -> (r: Result<
    (),
    ManagerError,
>)
    ensures
        match r {
            Ok(_) => response_problem(code, shown@, length, max) is None,
            Err(e) => response_problem(code, shown@, length, max) is Some && e@
                == ManagerErrorView::Download(response_problem(code, shown@, length, max)->0),
        },
{
    if code != 200 {
        return Err(ManagerError::Download(text::concat("server returned ", shown)));
    }
    match length {
        Some(n) => if n > max {
            Err(ManagerError::Download(text::owned("size limit exceeded")))
        } else {
            Ok(())
        },
        None => Ok(()),
    }
}

/// A body with one more part, unless it grows over the limit.
pub open spec fn grown(body: Seq<u8>, chunk: Seq<u8>, max: nat) -> Option<Seq<u8>> {
    if body.len() + chunk.len() <= max {
        Some(body + chunk)
    } else {
        None
    }
}

/// Takes in a part of a body, unless the body grows over the limit.
pub fn take_chunk(body: &mut Vec<u8>, chunk: &Vec<u8>, max: u64) -> (r: Result<(), ManagerError>)
    ensures
        match r {
            Ok(_) => grown(old(body)@, chunk@, max as nat) == Some(final(body)@),
            Err(e) => final(body)@ == old(body)@ && (if old(body)@.len() + chunk@.len()
                > usize::MAX {
                e@ == ManagerErrorView::Download("size overflow"@)
            } else {
                grown(old(body)@, chunk@, max as nat) is None && e@ == ManagerErrorView::Download(
                    "size limit exceeded"@,
                )
            }),
        },
{
    let next: usize = match body.len().checked_add(chunk.len()) {
        Some(next) => next,
        None => {
            return Err(ManagerError::Download(text::owned("size overflow")));
        },
    };
    if next as u64 > max {
        return Err(ManagerError::Download(text::owned("size limit exceeded")));
    }
    body.extend_from_slice(chunk.as_slice());
    assert(body@ =~= old(body)@ + chunk@);
    Ok(())
}

/// What a body comes to whose parts arrive in order.
pub open spec fn body_of(chunks: Seq<Seq<u8>>, max: nat) -> Option<Seq<u8>>
    decreases chunks.len(),
{
    if chunks.len() == 0 {
        Some(Seq::empty())
    } else {
        match body_of(chunks.drop_last(), max) {
            Some(b) => grown(b, chunks.last(), max),
            None => None,
        }
    }
}

/// A body that is taken in is never longer than the limit, and is the whole
/// of its parts.
pub proof fn law_body_is_bounded(chunks: Seq<Seq<u8>>, max: nat)
    ensures
        body_of(chunks, max) is Some <==> chunks.flatten().len() <= max,
        body_of(chunks, max) matches Some(b) ==> b =~= chunks.flatten() && b.len() <= max,
    decreases chunks.len(),
{
    if chunks.len() == 0 {
        assert(chunks.flatten() =~= Seq::<u8>::empty());
    } else {
        law_body_is_bounded(chunks.drop_last(), max);
        chunks.lemma_flatten_and_flatten_alt_are_equivalent();
        chunks.drop_last().lemma_flatten_and_flatten_alt_are_equivalent();
        assert(chunks.flatten() =~= chunks.drop_last().flatten() + chunks.last());
    }
}

/// Asks GitHub for releases.
#[derive(Debug, Clone, Copy, PartialEq, Eq, Structural)]
pub struct GithubReleaseProvider {
    pub client: HttpClient,
}

impl GithubReleaseProvider {
    /// A provider that downloads with this client.
    pub fn new(client: HttpClient) -> (r: GithubReleaseProvider)
        ensures
            r.client == client,
    {
        GithubReleaseProvider { client }
    }

    /// The request for the releases of a repository.
    pub fn request(&self, repository: &str) -> (r: DownloadRequest)
        ensures
            r@ == (DownloadRequestView {
                url: "https://api.github.com/repos/"@ + repository@ + "/releases"@,
                max_bytes: 10485760,
                timeout_seconds: 20,
                max_redirects: 5,
            }),
    {
        DownloadRequest {
            url: text::concat3("https://api.github.com/repos/", repository, "/releases"),
            max_bytes: 10485760,
            timeout_seconds: 20,
            max_redirects: 5,
        }
    }
}

pub open spec fn release_views(v: Seq<Release>) -> Seq<ReleaseView> {
    v.map_values(|x: Release| x@)
}

/// The release at `i` is the first that is no prerelease.
pub open spec fn first_stable(releases: Seq<ReleaseView>, i: int) -> bool {
    &&& 0 <= i < releases.len()
    &&& !releases[i].prerelease
    &&& forall|j: int| 0 <= j < i ==> (#[trigger] releases[j]).prerelease
}

/// Picks the first release that is no prerelease.
pub fn stable_release(releases: &Vec<Release>) -> (r: Result<Release, ManagerError>)
    ensures
        match r {
            Ok(x) => exists|i: int| #[trigger]
                first_stable(release_views(releases@), i) && x@ == release_views(releases@)[i],
            Err(e) => (forall|i: int|
                0 <= i < releases@.len() ==> (#[trigger] release_views(releases@)[i]).prerelease)
                && e@ == ManagerErrorView::Download("no stable release found"@),
        },
{
    let ghost all = release_views(releases@);
    let mut i: usize = 0;
    while i < releases.len()
        invariant
            i <= releases@.len(),
            all == release_views(releases@),
            forall|j: int| 0 <= j < i ==> (#[trigger] all[j]).prerelease,
        decreases releases@.len() - i,
    {
        assert(all[i as int] == releases@[i as int]@);
        if !releases[i].prerelease {
            assert(first_stable(all, i as int));
            return Ok(releases[i].clone());
        }
        i += 1;
    }
    Err(ManagerError::Download(text::owned("no stable release found")))
}

} // verus!
