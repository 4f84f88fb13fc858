//! Talking to the GitHub releases API: where to ask, how to read the
//! answer's status, and how a release record becomes a `Release`.

use vstd::prelude::*;
use vstd::string::*;
use crate::github::release::{Release, ReleaseAsset};
use crate::text::owned;

verus! {

/// A release as the GitHub API returns it.
#[derive(Clone, Debug)]
pub struct ApiRelease {
    /// The git tag.
    pub tag_name: String,
    /// Release title, if any.
    pub name: Option<String>,
    /// Release notes, if any.
    pub body: Option<String>,
    /// The release's web page.
    pub html_url: String,
    /// Publication time, if any.
    pub published_at: Option<String>,
    /// Attached files.
    pub assets: Vec<ApiAsset>,
}

/// A release asset as the GitHub API returns it.
#[derive(Clone, Debug)]
pub struct ApiAsset {
    /// File name.
    pub name: String,
    /// Where to download it.
    pub browser_download_url: String,
    /// Size in bytes.
    pub size: u64,
}

/// Why fetching the latest release failed.
#[derive(Clone, Debug)]
pub enum FetchError {
    /// The request could not be built or sent, or its body could not be read.
    Transport(String),
    /// GitHub answered 404: the repository has no release yet.
    NoReleases { owner: String, repo: String },
    /// GitHub answered with another status that is not a success.
    Status { code: u16, owner: String, repo: String },
    /// The answer was not a release record.
    Parse(String),
}

/// The text of an optional field, empty when absent.
pub open spec fn text_or_empty(s: Option<String>) -> Seq<char> {
    match s {
        Some(t) => t@,
        None => Seq::empty(),
    }
}

fn or_empty(s: Option<String>) -> (r: String)
    ensures
        r@ == text_or_empty(s),
{
    match s {
        Some(t) => t,
        None => String::new(),
    }
}

impl Release {
    /// The release for an API record: absent title, notes and publication
    /// time become empty text; the assets keep their order and fields.
    pub fn from_api(api: ApiRelease) -> (r: Release)
        ensures
            r.tag_name == api.tag_name,
            r.name@ == text_or_empty(api.name),
            r.body@ == text_or_empty(api.body),
            r.html_url == api.html_url,
            r.published_at@ == text_or_empty(api.published_at),
            r.assets@.len() == api.assets@.len(),
            forall|i: int|
                0 <= i < r.assets@.len() ==> {
                    &&& #[trigger] r.assets@[i].name == api.assets@[i].name
                    &&& r.assets@[i].browser_download_url == api.assets@[i].browser_download_url
                    &&& r.assets@[i].size == api.assets@[i].size
                },
    {
        let ghost given = api.assets@;
        let ApiRelease { tag_name, name, body, html_url, published_at, assets } = api;
        let mut rest = assets;
        let mut out: Vec<ReleaseAsset> = Vec::new();
        let total = rest.len();
        while rest.len() > 0
            invariant
                out@.len() + rest@.len() == given.len(),
                total == given.len(),
                rest@ == given.subrange(out@.len() as int, given.len() as int),
                forall|i: int|
                    0 <= i < out@.len() ==> {
                        &&& #[trigger] out@[i].name == given[i].name
                        &&& out@[i].browser_download_url == given[i].browser_download_url
                        &&& out@[i].size == given[i].size
                    },
            decreases rest@.len(),
        {
            let a = rest.remove(0);
            proof {
                assert(a == given[out@.len() as int]);
            }
            out.push(ReleaseAsset { name: a.name, browser_download_url: a.browser_download_url, size: a.size });
            proof {
                assert(rest@ =~= given.subrange(out@.len() as int, given.len() as int));
            }
        }
        Release {
            tag_name,
            name: or_empty(name),
            body: or_empty(body),
            html_url,
            published_at: or_empty(published_at),
            assets: out,
        }
    }
}

/// The API address of the latest release of `owner/repo`.
pub fn release_url(owner: &str, repo: &str) -> (url: String)
    ensures
        url@ == "https://api.github.com/repos/"@ + owner@ + "/"@ + repo@ + "/releases/latest"@,
{
    let mut url = owned("https://api.github.com/repos/");
    url.append(owner);
    url.append("/");
    url.append(repo);
    url.append("/releases/latest");
    url
}

/// Whether an HTTP status is a success (200 to 299).
pub open spec fn is_success(status: u16) -> bool {
    200 <= status <= 299
}

/// Reads the status of GitHub's answer for `owner/repo`: a success lets the
/// body be read; 404 means the repository has no release yet; any other
/// status is an error that carries it.
pub fn check_status(status: u16, owner: &str, repo: &str) -> (r: Result<(), FetchError>)
    ensures
        is_success(status) <==> r is Ok,
        status == 404 ==> (r matches Err(FetchError::NoReleases { owner: o, repo: p })
            && o@ == owner@ && p@ == repo@),
        !is_success(status) && status != 404 ==> (r matches Err(FetchError::Status { code, owner: o, repo: p })
            && code == status && o@ == owner@ && p@ == repo@),
{
    if 200 <= status && status <= 299 {
        Ok(())
    } else if status == 404 {
        Err(FetchError::NoReleases { owner: owned(owner), repo: owned(repo) })
    } else {
        Err(FetchError::Status { code: status, owner: owned(owner), repo: owned(repo) })
    }
}

} // verus!
