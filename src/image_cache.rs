//! Decision steps of the image cache: content types, remote URLs, and what a
//! lookup, a download and a bulk prefetch do to the cache directory.

use vstd::prelude::*;
use crate::text::{ends_with, str_ends_with};
use crate::client::is_success;

verus! {

/// Content type inferred from the literal, case-sensitive suffix of `path`.
pub open spec fn mime_of(path: Seq<char>) -> Seq<char> {
    if ends_with(path, ".png"@) {
        "image/png"@
    } else if ends_with(path, ".jpg"@) || ends_with(path, ".jpeg"@) {
        "image/jpeg"@
    } else if ends_with(path, ".webp"@) {
        "image/webp"@
    } else {
        "application/octet-stream"@
    }
}

/// Content type of an asset, from its file extension alone.
pub fn mime_for(path: &str) -> (r: &'static str)
    ensures
        r@ == mime_of(path@),
{
    if str_ends_with(path, ".png") {
        "image/png"
    } else if str_ends_with(path, ".jpg") || str_ends_with(path, ".jpeg") {
        "image/jpeg"
    } else if str_ends_with(path, ".webp") {
        "image/webp"
    } else {
        "application/octet-stream"
    }
}


/// The remote source of an asset: `base + "/images/game/" + relative`.
pub open spec fn image_url_spec(base: Seq<char>, relative: Seq<char>) -> Seq<char> {
    base + "/images/game/"@ + relative
}

/// Builds the remote URL of an asset.
pub fn image_url(base: &str, relative: &str) -> (r: String)
    ensures
        r@ == image_url_spec(base@, relative@),
{
    let mut url = String::from_str(base);
    url.append("/images/game/");
    url.append(relative);
    url
}

/// What a lookup does: `None` serves the local copy, `Some(url)` downloads.
pub open spec fn lookup_spec(present: bool, base: Seq<char>, relative: Seq<char>) -> Option<
    Seq<char>,
> {
    if present {
        None
    } else {
        Some(image_url_spec(base, relative))
    }
}

/// The first step of serving an asset.
#[derive(Debug)]
pub enum CacheStep {
    /// The asset is cached: read it from disk, no network.
    ServeLocal,
    /// The asset is missing: download it from this URL.
    Download(String),
}

/// The view of a cache step.
pub open spec fn step_view(c: CacheStep) -> Option<Seq<char>> {
    match c {
        CacheStep::ServeLocal => None,
        CacheStep::Download(u) => Some(u@),
    }
}

/// Decides how to serve `relative`, given whether the cache holds it.
pub fn lookup(present: bool, base: &str, relative: &str) -> (r: CacheStep)
    ensures
        step_view(r) == lookup_spec(present, base@, relative@),
{
    if present {
        CacheStep::ServeLocal
    } else {
        CacheStep::Download(image_url(base, relative))
    }
}

/// What a download yields: the body on a success status, else a miss (a
/// failed transfer has no body).
pub open spec fn download_answer(status: u16, body: Option<Seq<u8>>) -> Option<Seq<u8>> {
    if is_success(status) {
        body
    } else {
        None
    }
}

/// The end of a download: the bytes to store under `relative` and serve,
/// with their content type, or a miss.
pub fn finish_download(relative: &str, status: u16, body: Option<Vec<u8>>) -> (r: Option<
    (Vec<u8>, &'static str),
>)
    ensures
        match r {
            Some((b, t)) => download_answer(status, body_bytes(body)) == Some(b@) && t@ == mime_of(
                relative@,
            ),
            None => download_answer(status, body_bytes(body)) is None,
        },
{
    if 200 <= status && status <= 299 {
        match body {
            Some(b) => Some((b, mime_for(relative))),
            None => None,
        }
    } else {
        None
    }
}

/// The view of an optional body.
pub open spec fn body_bytes(b: Option<Vec<u8>>) -> Option<Seq<u8>> {
    match b {
        Some(v) => Some(v@),
        None => None,
    }
}

/// The prefetch count after one more download that answered `answer`.
pub open spec fn record_spec(count: nat, answer: Option<Seq<u8>>) -> nat {
    if answer is Some {
        count + 1
    } else {
        count
    }
}

/// One download of a bulk prefetch: the new count of stored assets, and the
/// bytes to store under `relative` with their content type, or a miss.
pub fn prefetch_record(count: u32, relative: &str, status: u16, body: Option<Vec<u8>>) -> (r: (
    u32,
    Option<(Vec<u8>, &'static str)>,
))
    requires
        count < u32::MAX,
    ensures
        r.0 == record_spec(count as nat, download_answer(status, body_bytes(body))),
        match r.1 {
            Some((b, t)) => download_answer(status, body_bytes(body)) == Some(b@) && t@ == mime_of(
                relative@,
            ),
            None => download_answer(status, body_bytes(body)) is None,
        },
{
    match finish_download(relative, status, body) {
        Some(stored) => (count + 1, Some(stored)),
        None => (count, None),
    }
}

/// The count of a bulk prefetch over `paths` in order, where `present[k]`
/// says whether path `k` was cached when its turn came and `answers[k]` is
/// what its download answered: a cached path is skipped by `lookup`, and
/// every download is recorded by `prefetch_record`.
pub open spec fn prefetch_count(
    base: Seq<char>,
    paths: Seq<Seq<char>>,
    present: Seq<bool>,
    answers: Seq<Option<Seq<u8>>>,
) -> nat
    decreases paths.len(),
{
    if paths.len() == 0 {
        0
    } else {
        let k = paths.len() - 1;
        let before = prefetch_count(base, paths.drop_last(), present, answers);
        match lookup_spec(present[k], base, paths[k]) {
            None => before,
            Some(_) => record_spec(before, answers[k]),
        }
    }
}

/// A prefetch of a cached asset and of a missing one whose download answers
/// bytes counts exactly one new asset.
pub proof fn lemma_prefetch_counts_new_downloads(
    base: Seq<char>,
    cached: Seq<char>,
    missing: Seq<char>,
    first: Option<Seq<u8>>,
    bytes: Seq<u8>,
)
    ensures
        prefetch_count(
            base,
            seq![cached, missing],
            seq![true, false],
            seq![first, Some(bytes)],
        ) == 1,
{
    reveal_with_fuel(prefetch_count, 3);
    let paths = seq![cached, missing];
    assert(paths.drop_last() =~= seq![cached]);
    assert(paths.drop_last().drop_last() =~= Seq::<Seq<char>>::empty());
}

/// A cached asset is served from disk: no download is made.
pub proof fn lemma_cached_asset_needs_no_network(base: Seq<char>, relative: Seq<char>)
    ensures
        lookup_spec(true, base, relative) is None,
{
}

/// A missing asset, and so every asset after the cache was cleared, is
/// downloaded from its remote URL.
pub proof fn lemma_absent_asset_is_downloaded(base: Seq<char>, relative: Seq<char>)
    ensures
        lookup_spec(false, base, relative) == Some(image_url_spec(base, relative)),
{
}

/// A successful download hands back exactly the fetched bytes, which are
/// what is stored and served.
pub proof fn lemma_download_is_served_exactly(status: u16, bytes: Seq<u8>)
    requires
        is_success(status),
    ensures
        download_answer(status, Some(bytes)) == Some(bytes),
{
}

/// A non-success status (a 404, say) is a miss whatever the body: nothing
/// is stored and nothing is counted.
pub proof fn lemma_error_status_is_miss(status: u16, body: Option<Seq<u8>>, count: nat)
    requires
        !is_success(status),
    ensures
        download_answer(status, body) is None,
        record_spec(count, download_answer(status, body)) == count,
{
}

} // verus!
