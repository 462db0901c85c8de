//! Album-art resolution: the deterministic cache path derived from the album
//! name, the cache-or-download decision, and the fallback to the default
//! image.
use vstd::prelude::*;
use vstd::string::*;
use crate::text::{is_alnum, to_chars, from_chars, char_is_alphanumeric};
use crate::track::{TrackMetadata, spec_album_usable, album_usable};

verus! {

broadcast use vstd::seq::group_seq_axioms;

/// The album name with every non-alphanumeric character replaced by `_`.
pub open spec fn spec_sanitize(s: Seq<char>) -> Seq<char> {
    Seq::new(s.len(), |i: int| if is_alnum(s[i]) {
        s[i]
    } else {
        '_'
    })
}

/// The cache path of an album's art: the fixed directory prefix followed by
/// the sanitized album name. The same album name always yields the same
/// path.
pub open spec fn spec_art_path(album: Seq<char>) -> Seq<char> {
    "/tmp/album-"@ + spec_sanitize(album)
}

/// Replaces every non-alphanumeric character of the album name by `_`.
pub fn sanitize(s: &str) -> (r: String)
    ensures
        r@ == spec_sanitize(s@),
{
    let v = to_chars(s);
    let mut out: Vec<char> = Vec::new();
    let mut i: usize = 0;
    while i < v.len()
        invariant
            i <= v@.len(),
            v@ == s@,
            out@.len() == i,
            forall|j: int| 0 <= j < i ==> out@[j] == (if is_alnum(s@[j]) {
                s@[j]
            } else {
                '_'
            }),
        decreases v@.len() - i,
    {
        let c = v[i];
        if char_is_alphanumeric(c) {
            out.push(c);
        } else {
            out.push('_');
        }
        i = i + 1;
    }
    proof {
        assert(out@ =~= spec_sanitize(s@));
    }
    from_chars(&out)
}

/// The on-disk cache path for this album's art.
pub fn art_path(album: &str) -> (r: String)
    ensures
        r@ == spec_art_path(album@),
{
    let mut r = String::from_str("/tmp/album-");
    let s = sanitize(album);
    r.append(s.as_str());
    r
}

/// The first resolver step: the cache path to consult when the album name is
/// usable; nothing otherwise, and resolution fails.
pub fn art_request(m: &TrackMetadata) -> (r: Option<String>)
    ensures
        spec_album_usable(*m) ==> (r matches Some(p) && p@ == spec_art_path(m.album->0@)),
        !spec_album_usable(*m) ==> r is None,
{
    if album_usable(m) {
        match &m.album {
            Some(a) => Some(art_path(a.as_str())),
            None => None,
        }
    } else {
        None
    }
}

/// Where the album art is to come from once the cache was consulted.
pub enum ArtSource {
    /// The file already cached at the computed path serves as it is.
    Cached,
    /// The art must be fetched from this URL to the computed path.
    Download(String),
    /// No cached file and no URL: resolution fails.
    Unavailable,
}

/// The second resolver step. A present cache file is returned as it is and
/// the downloader is never consulted; otherwise the art URL, when present,
/// is to be downloaded; without it resolution fails.
pub fn art_source(cached: bool, art_url: &Option<String>) -> (r: ArtSource)
    ensures
        cached ==> r is Cached,
        !cached && art_url is Some ==> (r matches ArtSource::Download(u) && u@ == art_url->0@),
        !cached && art_url is None ==> r is Unavailable,
{
    if cached {
        ArtSource::Cached
    } else {
        match art_url {
            Some(u) => ArtSource::Download(u.clone()),
            None => ArtSource::Unavailable,
        }
    }
}

/// The last resolver step: the computed path when the downloader succeeded,
/// nothing when it reported failure.
pub fn art_after_download(path: String, ok: bool) -> (r: Option<String>)
    ensures
        ok ==> (r matches Some(p) && p == path),
        !ok ==> r is None,
{
    if ok {
        Some(path)
    } else {
        None
    }
}

/// The image finally rendered: the resolved art path, or the fixed default
/// when resolution failed anywhere along the way.
pub fn image_path(resolved: Option<String>) -> (r: String)
    ensures
        (resolved matches Some(p) ==> r == p),
        resolved is None ==> r@ == "/home/flora/Downloads/moon.jpg"@,
{
    match resolved {
        Some(p) => p,
        None => String::from_str("/home/flora/Downloads/moon.jpg"),
    }
}

} // verus!
