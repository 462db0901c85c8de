//! Track metadata as the media-player bus reports it, and the rules that
//! decide whether it yields a track line and a usable album name.
use vstd::prelude::*;
use vstd::string::*;

verus! {

/// Metadata of the current track. Each field may be missing; the bus itself
/// may be unavailable, in which case there is no metadata at all.
pub struct TrackMetadata {
    pub title: Option<String>,
    pub album: Option<String>,
    pub art_url: Option<String>,
}

/// An album name is usable when it is present and non-empty.
pub open spec fn spec_album_usable(m: TrackMetadata) -> bool {
    m.album is Some && m.album->0@.len() > 0
}

/// The title and album of the current song, when the metadata is there,
/// holds a title, and its album name is usable; nothing otherwise.
pub open spec fn spec_current_song(m: Option<TrackMetadata>) -> Option<(String, String)> {
    match m {
        Some(md) => if md.title is Some && spec_album_usable(md) {
            Some((md.title->0, md.album->0))
        } else {
            None
        },
        None => None,
    }
}

/// Whether the album name is present and non-empty.
pub fn album_usable(m: &TrackMetadata) -> (r: bool)
    ensures
        r == spec_album_usable(*m),
{
    match &m.album {
        Some(a) => !a.as_str().is_empty(),
        None => false,
    }
}

/// The title and album of the current song: present exactly when the bus
/// answered, the title is there and the album name is usable.
pub fn current_song(m: &Option<TrackMetadata>) -> (r: Option<(String, String)>)
    ensures
        r == spec_current_song(*m),
{
    match m {
        Some(md) => match (&md.title, &md.album) {
            (Some(t), Some(a)) => {
                if !a.as_str().is_empty() {
                    Some((t.clone(), a.clone()))
                } else {
                    None
                }
            },
            _ => None,
        },
        None => None,
    }
}

} // verus!
