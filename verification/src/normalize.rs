//! Turning the upstream playback payload into the flat client answer.
use crate::models::{Artist, CurrentlyPlaying, NowPlayingResponse, PlayingV, RespV};
use vstd::prelude::*;
use vstd::string::StringExecFns;

verus! {

/// The given names joined with a comma and no space, in their order.
pub open spec fn spec_join(names: Seq<Seq<char>>) -> Seq<char>
    decreases names.len(),
{
    if names.len() == 0 {
        Seq::empty()
    } else if names.len() == 1 {
        names[0]
    } else {
        names[0] + seq![','] + spec_join(names.subrange(1, names.len() as int))
    }
}

/// What the normalizer answers for a given payload: the canonical not-playing
/// shape when nothing plays or no track came, and otherwise the track's data
/// with artists joined and absent parts left out.
pub open spec fn spec_normalize(pv: PlayingV) -> RespV {
    if !pv.is_playing || pv.item is None {
        RespV::not_playing()
    } else {
        let t = pv.item.unwrap();
        RespV {
            is_playing: true,
            title: Some(t.name),
            artist: Some(spec_join(t.artist_names)),
            album: match t.album {
                Some(a) => Some(a.name),
                None => None,
            },
            album_image_url: match t.album {
                Some(a) => if a.image_urls.len() > 0 {
                    Some(a.image_urls[0])
                } else {
                    None
                },
                None => None,
            },
            song_url: t.song_url,
        }
    }
}

proof fn lemma_join_snoc(a: Seq<Seq<char>>, x: Seq<char>)
    ensures
        a.len() == 0 ==> spec_join(a.push(x)) == x,
        a.len() > 0 ==> spec_join(a.push(x)) == spec_join(a) + seq![','] + x,
    decreases a.len(),
{
    let s = a.push(x);
    if a.len() == 0 {
        assert(s.len() == 1);
        assert(s[0] == x);
    } else {
        assert(s[0] == a[0]);
        assert(s.subrange(1, s.len() as int) =~= a.subrange(1, a.len() as int).push(x));
        lemma_join_snoc(a.subrange(1, a.len() as int), x);
        if a.len() == 1 {
            assert(spec_join(s) =~= spec_join(a) + seq![','] + x);
        } else {
            assert(spec_join(s) =~= spec_join(a) + seq![','] + x);
        }
    }
}

/// Joins the artist names with commas, in their given order.
pub fn join_artists(artists: &Vec<Artist>) -> (out: String)
    ensures
        out@ == spec_join(Seq::new(artists@.len(), |i: int| artists@[i].name@)),
{
    let ghost names = Seq::new(artists@.len(), |i: int| artists@[i].name@);
    let mut out = String::new();
    let n = artists.len();
    let mut i: usize = 0;
    proof {
        assert(names.subrange(0, 0) =~= Seq::<Seq<char>>::empty());
        assert(out@ =~= spec_join(names.subrange(0, 0)));
    }
    while i < n
        invariant
            0 <= i <= n,
            n == artists@.len(),
            names == Seq::new(artists@.len(), |k: int| artists@[k].name@),
            out@ == spec_join(names.subrange(0, i as int)),
        decreases n - i,
    {
        if i > 0 {
            crate::json::push_char(&mut out, ',');
        }
        out.append(artists[i].name.as_str());
        proof {
            assert(names[i as int] == artists@[i as int].name@);
            assert(names.subrange(0, i as int + 1) =~= names.subrange(0, i as int).push(
                names[i as int],
            ));
            lemma_join_snoc(names.subrange(0, i as int), names[i as int]);
            assert(out@ =~= spec_join(names.subrange(0, i as int + 1)));
        }
        i = i + 1;
    }
    proof {
        assert(names.subrange(0, n as int) =~= names);
    }
    out
}

/// Normalizes the upstream payload into the client answer.
pub fn normalize(p: &CurrentlyPlaying) -> (r: NowPlayingResponse)
    ensures
        r@ == spec_normalize(p@),
{
    if !p.is_playing {
        return NowPlayingResponse::not_playing();
    }
    match &p.item {
        None => NowPlayingResponse::not_playing(),
        Some(track) => {
            let artist = join_artists(&track.artists);
            let (album, album_image_url) = match &track.album {
                Some(a) => {
                    let image = if a.images.len() > 0 {
                        Some(a.images[0].url.clone())
                    } else {
                        None
                    };
                    (Some(a.name.clone()), image)
                },
                None => (None, None),
            };
            let song_url = match &track.external_urls {
                Some(u) => Some(u.spotify.clone()),
                None => None,
            };
            NowPlayingResponse {
                is_playing: true,
                title: Some(track.name.clone()),
                artist: Some(artist),
                album,
                album_image_url,
                song_url,
            }
        },
    }
}

/// Law: a payload that is not playing, or carries no track, normalizes to the
/// canonical not-playing shape, whatever its other fields hold.
pub proof fn lemma_not_playing_is_canonical(pv: PlayingV)
    requires
        !pv.is_playing || pv.item is None,
    ensures
        spec_normalize(pv) == RespV::not_playing(),
{
}

/// Law: for a playing payload with a track, the artist field is exactly the
/// artist names joined with commas in their original order.
pub proof fn lemma_artist_is_joined(pv: PlayingV)
    requires
        pv.is_playing,
        pv.item is Some,
    ensures
        spec_normalize(pv).artist == Some(spec_join(pv.item.unwrap().artist_names)),
{
}

/// Law: normalizing always yields a well-formed answer: not-playing answers
/// carry nothing else, playing answers always carry a title and an artist.
pub proof fn lemma_normalize_wf(pv: PlayingV)
    ensures
        spec_normalize(pv).wf(),
{
}

} // verus!
