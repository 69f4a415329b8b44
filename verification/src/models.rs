//! The typed shapes this service works with: the upstream payload, made of
//! explicit optional fields, and the flat response handed to clients.
use vstd::prelude::*;

verus! {

/// The body of a successful token exchange.
#[derive(Debug, PartialEq, Eq)]
pub struct TokenResponse {
    pub access_token: String,
}

#[derive(Debug, PartialEq, Eq)]
pub struct Artist {
    pub name: String,
}

#[derive(Debug, PartialEq, Eq)]
pub struct Image {
    pub url: String,
}

#[derive(Debug, PartialEq, Eq)]
pub struct Album {
    pub name: String,
    pub images: Vec<Image>,
}

#[derive(Debug, PartialEq, Eq)]
pub struct ExternalUrls {
    pub spotify: String,
}

/// One track of the upstream payload. The track name and artist list must be
/// present upstream; album and share link are best effort.
#[derive(Debug, PartialEq, Eq)]
pub struct Track {
    pub name: String,
    pub artists: Vec<Artist>,
    pub album: Option<Album>,
    pub external_urls: Option<ExternalUrls>,
}

/// The upstream playback payload.
#[derive(Debug, PartialEq, Eq)]
pub struct CurrentlyPlaying {
    pub is_playing: bool,
    pub item: Option<Track>,
}

/// The mathematical shape of an album: its name and its image addresses.
pub struct AlbumV {
    pub name: Seq<char>,
    pub image_urls: Seq<Seq<char>>,
}

/// The mathematical shape of a track.
pub struct TrackV {
    pub name: Seq<char>,
    pub artist_names: Seq<Seq<char>>,
    pub album: Option<AlbumV>,
    pub song_url: Option<Seq<char>>,
}

/// The mathematical shape of the upstream payload.
pub struct PlayingV {
    pub is_playing: bool,
    pub item: Option<TrackV>,
}

impl View for Album {
    type V = AlbumV;

    open spec fn view(&self) -> AlbumV {
        AlbumV {
            name: self.name@,
            image_urls: Seq::new(self.images@.len(), |i: int| self.images@[i].url@),
        }
    }
}

impl View for Track {
    type V = TrackV;

    open spec fn view(&self) -> TrackV {
        TrackV {
            name: self.name@,
            artist_names: Seq::new(self.artists@.len(), |i: int| self.artists@[i].name@),
            album: match self.album {
                Some(a) => Some(a@),
                None => None,
            },
            song_url: match self.external_urls {
                Some(u) => Some(u.spotify@),
                None => None,
            },
        }
    }
}

impl View for CurrentlyPlaying {
    type V = PlayingV;

    open spec fn view(&self) -> PlayingV {
        PlayingV {
            is_playing: self.is_playing,
            item: match self.item {
                Some(t) => Some(t@),
                None => None,
            },
        }
    }
}

/// A normalized "now playing" answer: either nothing is playing, or a track
/// with its title, joined artist names, and best-effort album metadata.
#[derive(Debug, PartialEq, Eq)]
pub struct NowPlayingResponse {
    pub is_playing: bool,
    pub title: Option<String>,
    pub artist: Option<String>,
    pub album: Option<String>,
    pub album_image_url: Option<String>,
    pub song_url: Option<String>,
}

/// The mathematical shape of a normalized answer.
pub struct RespV {
    pub is_playing: bool,
    pub title: Option<Seq<char>>,
    pub artist: Option<Seq<char>>,
    pub album: Option<Seq<char>>,
    pub album_image_url: Option<Seq<char>>,
    pub song_url: Option<Seq<char>>,
}

pub open spec fn opt_view(o: Option<String>) -> Option<Seq<char>> {
    match o {
        Some(s) => Some(s@),
        None => None,
    }
}

impl View for NowPlayingResponse {
    type V = RespV;

    open spec fn view(&self) -> RespV {
        RespV {
            is_playing: self.is_playing,
            title: opt_view(self.title),
            artist: opt_view(self.artist),
            album: opt_view(self.album),
            album_image_url: opt_view(self.album_image_url),
            song_url: opt_view(self.song_url),
        }
    }
}

impl RespV {
    /// The canonical "nothing is playing" shape.
    pub open spec fn not_playing() -> RespV {
        RespV {
            is_playing: false,
            title: None,
            artist: None,
            album: None,
            album_image_url: None,
            song_url: None,
        }
    }

    /// The shape invariant: a not-playing answer carries nothing else, and a
    /// playing answer always carries a title and an artist.
    pub open spec fn wf(self) -> bool {
        &&& (!self.is_playing ==> self == RespV::not_playing())
        &&& (self.is_playing ==> self.title is Some && self.artist is Some)
    }
}

impl NowPlayingResponse {
    pub fn not_playing() -> (r: NowPlayingResponse)
        ensures
            r@ == RespV::not_playing(),
    {
        NowPlayingResponse {
            is_playing: false,
            title: None,
            artist: None,
            album: None,
            album_image_url: None,
            song_url: None,
        }
    }
}

} // verus!
