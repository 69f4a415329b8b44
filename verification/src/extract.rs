//! Reading the upstream JSON shapes into the typed payload: the token body
//! and the playback payload, with explicit, tolerant handling of optional
//! parts.
use crate::json::{jview_elems, jview_members, lemma_jview_elems, lemma_jview_members, Json, JsonV,
    Member};
use crate::models::{Album, AlbumV, Artist, CurrentlyPlaying, ExternalUrls, Image, PlayingV,
    TokenResponse, Track, TrackV};
use vstd::prelude::*;

verus! {

/// The value of the first member with the given key, if any.
pub open spec fn spec_obj_get(ms: Seq<(Seq<char>, JsonV)>, key: Seq<char>) -> Option<JsonV>
    decreases ms.len(),
{
    if ms.len() == 0 {
        None
    } else if ms[0].0 == key {
        Some(ms[0].1)
    } else {
        spec_obj_get(ms.subrange(1, ms.len() as int), key)
    }
}

/// Looking a key up in joined member lists takes the left list first.
pub proof fn lemma_obj_get_concat(
    a: Seq<(Seq<char>, JsonV)>,
    b: Seq<(Seq<char>, JsonV)>,
    key: Seq<char>,
)
    ensures
        spec_obj_get(a + b, key) == if spec_obj_get(a, key) is Some {
            spec_obj_get(a, key)
        } else {
            spec_obj_get(b, key)
        },
    decreases a.len(),
{
    if a.len() == 0 {
        assert(a + b =~= b);
    } else {
        let s = a + b;
        assert(s.len() > 0);
        assert(s[0] == a[0]);
        assert(s.subrange(1, s.len() as int) =~= a.subrange(1, a.len() as int) + b);
        lemma_obj_get_concat(a.subrange(1, a.len() as int), b, key);
    }
}

/// Looking a key up in a one-member list finds it exactly on that key.
pub proof fn lemma_obj_get_single(k: Seq<char>, v: JsonV, key: Seq<char>)
    ensures
        spec_obj_get(seq![(k, v)], key) == if key == k {
            Some(v)
        } else {
            None::<JsonV>
        },
{
    let s = seq![(k, v)];
    assert(s[0] == (k, v));
    if key != k {
        assert(s.subrange(1, 1) =~= Seq::<(Seq<char>, JsonV)>::empty());
        assert(spec_obj_get(s.subrange(1, 1), key) is None);
    }
}

fn str_eq(a: &str, b: &str) -> (r: bool)
    ensures
        r == (a@ == b@),
{
    let n = a.unicode_len();
    let m = b.unicode_len();
    if n != m {
        return false;
    }
    let mut i: usize = 0;
    while i < n
        invariant
            0 <= i <= n,
            n == a@.len(),
            n == b@.len(),
            forall|k: int| 0 <= k < i ==> a@[k] == b@[k],
        decreases n - i,
    {
        if a.get_char(i) != b.get_char(i) {
            return false;
        }
        i = i + 1;
    }
    proof {
        assert(a@ =~= b@);
    }
    true
}

fn obj_get_from<'a>(ms: &'a Vec<Member>, i: usize, key: &str) -> (r: Option<&'a Json>)
    requires
        i <= ms@.len(),
    ensures
        match r {
            Some(j) => spec_obj_get(jview_members(ms, i as int), key@) == Some(j@),
            None => spec_obj_get(jview_members(ms, i as int), key@) is None,
        },
    decreases ms@.len() - i,
{
    if i == ms.len() {
        None
    } else {
        proof {
            let mv = jview_members(ms, i as int);
            assert(mv == seq![(ms@[i as int].key@, ms@[i as int].value@)] + jview_members(
                ms,
                i as int + 1,
            ));
            assert(mv[0] == (ms@[i as int].key@, ms@[i as int].value@));
            assert(mv.subrange(1, mv.len() as int) =~= jview_members(ms, i as int + 1));
        }
        let m = &ms[i];
        if str_eq(m.key.as_str(), key) {
            Some(&m.value)
        } else {
            obj_get_from(ms, i + 1, key)
        }
    }
}

/// Looks a key up among an object's members.
pub fn obj_get<'a>(ms: &'a Vec<Member>, key: &str) -> (r: Option<&'a Json>)
    ensures
        match r {
            Some(j) => spec_obj_get(jview_members(ms, 0), key@) == Some(j@),
            None => spec_obj_get(jview_members(ms, 0), key@) is None,
        },
{
    obj_get_from(ms, 0, key)
}

/// The bearer token of a token-exchange body: its `access_token` string.
pub open spec fn spec_token_of(j: JsonV) -> Option<Seq<char>> {
    match j {
        JsonV::Obj(ms) => match spec_obj_get(ms, "access_token"@) {
            Some(JsonV::Str(s)) => Some(s),
            _ => None,
        },
        _ => None,
    }
}

/// Reads the token-exchange body shape.
pub fn token_of(j: &Json) -> (r: Option<TokenResponse>)
    ensures
        match r {
            Some(t) => spec_token_of(j@) == Some(t.access_token@),
            None => spec_token_of(j@) is None,
        },
{
    match j {
        Json::Obj(ms) => match obj_get(ms, "access_token") {
            Some(Json::Str(s)) => Some(TokenResponse { access_token: s.clone() }),
            _ => None,
        },
        _ => None,
    }
}

/// The artist names of the `artists` array; `None` if any element lacks a
/// string `name`.
pub open spec fn spec_artist_names_of(arts: Seq<JsonV>) -> Option<Seq<Seq<char>>>
    decreases arts.len(),
{
    if arts.len() == 0 {
        Some(Seq::empty())
    } else {
        match arts[0] {
            JsonV::Obj(ams) => match spec_obj_get(ams, "name"@) {
                Some(JsonV::Str(n)) => match spec_artist_names_of(
                    arts.subrange(1, arts.len() as int),
                ) {
                    Some(rest) => Some(seq![n] + rest),
                    None => None,
                },
                _ => None,
            },
            _ => None,
        }
    }
}

/// The image addresses of an album object's `images` array; elements without
/// a string `url` are passed over, a missing or malformed array is empty.
pub open spec fn spec_urls_of(imgs: Seq<JsonV>) -> Seq<Seq<char>>
    decreases imgs.len(),
{
    if imgs.len() == 0 {
        Seq::empty()
    } else {
        let rest = spec_urls_of(imgs.subrange(1, imgs.len() as int));
        match imgs[0] {
            JsonV::Obj(ims) => match spec_obj_get(ims, "url"@) {
                Some(JsonV::Str(u)) => seq![u] + rest,
                _ => rest,
            },
            _ => rest,
        }
    }
}

pub open spec fn spec_image_urls_of(ams: Seq<(Seq<char>, JsonV)>) -> Seq<Seq<char>> {
    match spec_obj_get(ams, "images"@) {
        Some(JsonV::Arr(imgs)) => spec_urls_of(imgs),
        _ => Seq::empty(),
    }
}

/// The album of a track object, if it is present and carries a string name.
pub open spec fn spec_album_of(tms: Seq<(Seq<char>, JsonV)>) -> Option<AlbumV> {
    match spec_obj_get(tms, "album"@) {
        Some(JsonV::Obj(ams)) => match spec_obj_get(ams, "name"@) {
            Some(JsonV::Str(n)) => Some(AlbumV { name: n, image_urls: spec_image_urls_of(ams) }),
            _ => None,
        },
        _ => None,
    }
}

/// The share address of a track object, if present.
pub open spec fn spec_song_url_of(tms: Seq<(Seq<char>, JsonV)>) -> Option<Seq<char>> {
    match spec_obj_get(tms, "external_urls"@) {
        Some(JsonV::Obj(ems)) => match spec_obj_get(ems, "spotify"@) {
            Some(JsonV::Str(u)) => Some(u),
            _ => None,
        },
        _ => None,
    }
}

/// A track object: name and artists are required, the rest is best effort.
pub open spec fn spec_track_of(tms: Seq<(Seq<char>, JsonV)>) -> Option<TrackV> {
    match (spec_obj_get(tms, "name"@), spec_obj_get(tms, "artists"@)) {
        (Some(JsonV::Str(nm)), Some(JsonV::Arr(arts))) => match spec_artist_names_of(arts) {
            Some(ns) => Some(
                TrackV {
                    name: nm,
                    artist_names: ns,
                    album: spec_album_of(tms),
                    song_url: spec_song_url_of(tms),
                },
            ),
            None => None,
        },
        _ => None,
    }
}

/// The playback payload: `is_playing` must be a boolean; a missing or null
/// `item` means no track.
pub open spec fn spec_payload_of(j: JsonV) -> Option<PlayingV> {
    match j {
        JsonV::Obj(ms) => match spec_obj_get(ms, "is_playing"@) {
            Some(JsonV::Bool(b)) => match spec_obj_get(ms, "item"@) {
                None => Some(PlayingV { is_playing: b, item: None }),
                Some(JsonV::Null) => Some(PlayingV { is_playing: b, item: None }),
                Some(JsonV::Obj(tms)) => match spec_track_of(tms) {
                    Some(t) => Some(PlayingV { is_playing: b, item: Some(t) }),
                    None => None,
                },
                Some(_) => None,
            },
            _ => None,
        },
        _ => None,
    }
}

fn artists_from(v: &Vec<Json>, i: usize) -> (r: Option<Vec<Artist>>)
    requires
        i <= v@.len(),
    ensures
        match r {
            Some(arts) => spec_artist_names_of(jview_elems(v, i as int)) == Some(
                Seq::new(arts@.len(), |k: int| arts@[k].name@),
            ),
            None => spec_artist_names_of(jview_elems(v, i as int)) is None,
        },
    decreases v@.len() - i,
{
    if i == v.len() {
        let arts: Vec<Artist> = Vec::new();
        proof {
            assert(Seq::new(arts@.len(), |k: int| arts@[k].name@) =~= Seq::<Seq<char>>::empty());
        }
        Some(arts)
    } else {
        proof {
            let ev = jview_elems(v, i as int);
            assert(ev == seq![v@[i as int]@] + jview_elems(v, i as int + 1));
            assert(ev[0] == v@[i as int]@);
            assert(ev.subrange(1, ev.len() as int) =~= jview_elems(v, i as int + 1));
        }
        match &v[i] {
            Json::Obj(ams) => match obj_get(ams, "name") {
                Some(Json::Str(nm)) => match artists_from(v, i + 1) {
                    Some(mut arts) => {
                        let ghost arts0 = arts;
                        arts.insert(0, Artist { name: nm.clone() });
                        proof {
                            assert(Seq::new(arts@.len(), |k: int| arts@[k].name@) =~= seq![nm@]
                                + Seq::new(arts0@.len(), |k: int| arts0@[k].name@));
                        }
                        Some(arts)
                    },
                    None => None,
                },
                _ => None,
            },
            _ => None,
        }
    }
}

fn images_from(v: &Vec<Json>, i: usize) -> (r: Vec<Image>)
    requires
        i <= v@.len(),
    ensures
        Seq::new(r@.len(), |k: int| r@[k].url@) == spec_urls_of(jview_elems(v, i as int)),
    decreases v@.len() - i,
{
    if i == v.len() {
        let imgs: Vec<Image> = Vec::new();
        proof {
            assert(Seq::new(imgs@.len(), |k: int| imgs@[k].url@) =~= Seq::<Seq<char>>::empty());
        }
        imgs
    } else {
        proof {
            let ev = jview_elems(v, i as int);
            assert(ev == seq![v@[i as int]@] + jview_elems(v, i as int + 1));
            assert(ev[0] == v@[i as int]@);
            assert(ev.subrange(1, ev.len() as int) =~= jview_elems(v, i as int + 1));
        }
        let mut rest = images_from(v, i + 1);
        let ghost rest0 = rest;
        match &v[i] {
            Json::Obj(ims) => match obj_get(ims, "url") {
                Some(Json::Str(u)) => {
                    rest.insert(0, Image { url: u.clone() });
                    proof {
                        assert(Seq::new(rest@.len(), |k: int| rest@[k].url@) =~= seq![u@]
                            + Seq::new(rest0@.len(), |k: int| rest0@[k].url@));
                    }
                },
                _ => {},
            },
            _ => {},
        }
        rest
    }
}

fn album_from(tms: &Vec<Member>) -> (r: Option<Album>)
    ensures
        match r {
            Some(a) => spec_album_of(jview_members(tms, 0)) == Some(a@),
            None => spec_album_of(jview_members(tms, 0)) is None,
        },
{
    match obj_get(tms, "album") {
        Some(Json::Obj(ams)) => match obj_get(ams, "name") {
            Some(Json::Str(n)) => {
                let images = match obj_get(ams, "images") {
                    Some(Json::Arr(imgs)) => images_from(imgs, 0),
                    _ => {
                        let e: Vec<Image> = Vec::new();
                        proof {
                            assert(Seq::new(e@.len(), |k: int| e@[k].url@)
                                =~= Seq::<Seq<char>>::empty());
                        }
                        e
                    },
                };
                Some(Album { name: n.clone(), images })
            },
            _ => None,
        },
        _ => None,
    }
}

fn song_url_from(tms: &Vec<Member>) -> (r: Option<ExternalUrls>)
    ensures
        match r {
            Some(u) => spec_song_url_of(jview_members(tms, 0)) == Some(u.spotify@),
            None => spec_song_url_of(jview_members(tms, 0)) is None,
        },
{
    match obj_get(tms, "external_urls") {
        Some(Json::Obj(ems)) => match obj_get(ems, "spotify") {
            Some(Json::Str(u)) => Some(ExternalUrls { spotify: u.clone() }),
            _ => None,
        },
        _ => None,
    }
}

fn track_from(tms: &Vec<Member>) -> (r: Option<Track>)
    ensures
        match r {
            Some(t) => spec_track_of(jview_members(tms, 0)) == Some(t@),
            None => spec_track_of(jview_members(tms, 0)) is None,
        },
{
    match (obj_get(tms, "name"), obj_get(tms, "artists")) {
        (Some(Json::Str(nm)), Some(Json::Arr(arts))) => match artists_from(arts, 0) {
            Some(artists) => {
                let album = album_from(tms);
                let external_urls = song_url_from(tms);
                Some(Track { name: nm.clone(), artists, album, external_urls })
            },
            None => None,
        },
        _ => None,
    }
}

/// Reads the playback payload shape out of a parsed body.
pub fn payload_of(j: &Json) -> (r: Option<CurrentlyPlaying>)
    ensures
        match r {
            Some(p) => spec_payload_of(j@) == Some(p@),
            None => spec_payload_of(j@) is None,
        },
{
    match j {
        Json::Obj(ms) => match obj_get(ms, "is_playing") {
            Some(Json::Bool(b)) => match obj_get(ms, "item") {
                None => Some(CurrentlyPlaying { is_playing: *b, item: None }),
                Some(Json::Null) => Some(CurrentlyPlaying { is_playing: *b, item: None }),
                Some(Json::Obj(tms)) => match track_from(tms) {
                    Some(t) => Some(CurrentlyPlaying { is_playing: *b, item: Some(t) }),
                    None => None,
                },
                Some(_) => None,
            },
            _ => None,
        },
        _ => None,
    }
}

} // verus!
