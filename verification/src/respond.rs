//! Framing the client answer and the error envelope as JSON text, and
//! reading such text back.
use crate::error::AppError;
use crate::extract::spec_obj_get;
use crate::json::{jview_members, lemma_jview_members, render_flat_obj, spec_render, Json, JsonV,
    Member};
use crate::models::{NowPlayingResponse, RespV};
use vstd::prelude::*;
use vstd::string::StringExecFns;

verus! {

/// The members of the serialized answer, in their fixed order; absent
/// optional fields contribute nothing.
pub open spec fn spec_resp_members(rv: RespV) -> Seq<(Seq<char>, JsonV)> {
    seq![("isPlaying"@, JsonV::Bool(rv.is_playing))] + (match rv.title {
        Some(t) => seq![("title"@, JsonV::Str(t))],
        None => Seq::empty(),
    }) + (match rv.artist {
        Some(t) => seq![("artist"@, JsonV::Str(t))],
        None => Seq::empty(),
    }) + (match rv.album {
        Some(t) => seq![("album"@, JsonV::Str(t))],
        None => Seq::empty(),
    }) + (match rv.album_image_url {
        Some(t) => seq![("albumImageUrl"@, JsonV::Str(t))],
        None => Seq::empty(),
    }) + (match rv.song_url {
        Some(t) => seq![("songUrl"@, JsonV::Str(t))],
        None => Seq::empty(),
    })
}

pub open spec fn spec_resp_json(rv: RespV) -> JsonV {
    JsonV::Obj(spec_resp_members(rv))
}

/// The exact serialized text of an answer.
pub open spec fn spec_resp_text(rv: RespV) -> Seq<char> {
    spec_render(spec_resp_json(rv))
}

/// Serializes the answer, renaming fields to their wire names and leaving
/// absent optional fields out entirely.
pub fn to_json(r: &NowPlayingResponse) -> (out: String)
    ensures
        out@ == spec_resp_text(r@),
{
    let mut ms: Vec<Member> = Vec::new();
    ms.push(Member { key: String::from_str("isPlaying"), value: Json::Bool(r.is_playing) });
    if let Some(t) = &r.title {
        ms.push(Member { key: String::from_str("title"), value: Json::Str(t.clone()) });
    }
    if let Some(t) = &r.artist {
        ms.push(Member { key: String::from_str("artist"), value: Json::Str(t.clone()) });
    }
    if let Some(t) = &r.album {
        ms.push(Member { key: String::from_str("album"), value: Json::Str(t.clone()) });
    }
    if let Some(t) = &r.album_image_url {
        ms.push(Member { key: String::from_str("albumImageUrl"), value: Json::Str(t.clone()) });
    }
    if let Some(t) = &r.song_url {
        ms.push(Member { key: String::from_str("songUrl"), value: Json::Str(t.clone()) });
    }
    proof {
        lemma_jview_members(&ms, 0);
        assert(jview_members(&ms, 0) =~= spec_resp_members(r@));
    }
    render_flat_obj(&ms)
}

/// The exact serialized text of an error envelope.
pub open spec fn spec_error_text(e: AppError) -> Seq<char> {
    spec_render(JsonV::Obj(seq![("error"@, JsonV::Str(e.spec_message()))]))
}

/// Serializes the error envelope: one `error` field with the message.
pub fn error_body(e: &AppError) -> (out: String)
    ensures
        out@ == spec_error_text(*e),
{
    let mut ms: Vec<Member> = Vec::new();
    ms.push(Member { key: String::from_str("error"), value: Json::Str(e.message()) });
    proof {
        lemma_jview_members(&ms, 0);
        assert(jview_members(&ms, 0) =~= seq![("error"@, JsonV::Str(e.spec_message()))]);
    }
    render_flat_obj(&ms)
}

/// Reads a serialized answer's shape back from a parsed tree.
pub open spec fn spec_resp_of(j: JsonV) -> Option<RespV> {
    match j {
        JsonV::Obj(ms) => match spec_obj_get(ms, "isPlaying"@) {
            Some(JsonV::Bool(b)) => Some(
                RespV {
                    is_playing: b,
                    title: spec_str_field(ms, "title"@),
                    artist: spec_str_field(ms, "artist"@),
                    album: spec_str_field(ms, "album"@),
                    album_image_url: spec_str_field(ms, "albumImageUrl"@),
                    song_url: spec_str_field(ms, "songUrl"@),
                },
            ),
            _ => None,
        },
        _ => None,
    }
}

pub open spec fn spec_str_field(ms: Seq<(Seq<char>, JsonV)>, key: Seq<char>) -> Option<Seq<char>> {
    match spec_obj_get(ms, key) {
        Some(JsonV::Str(s)) => Some(s),
        _ => None,
    }
}

fn str_field(ms: &Vec<Member>, key: &str) -> (r: Option<String>)
    ensures
        match r {
            Some(s) => spec_str_field(jview_members(ms, 0), key@) == Some(s@),
            None => spec_str_field(jview_members(ms, 0), key@) is None,
        },
{
    match crate::extract::obj_get(ms, key) {
        Some(Json::Str(s)) => Some(s.clone()),
        _ => None,
    }
}

/// Reads a serialized answer back into the response type.
pub fn resp_of_json(j: &Json) -> (r: Option<NowPlayingResponse>)
    ensures
        match r {
            Some(n) => spec_resp_of(j@) == Some(n@),
            None => spec_resp_of(j@) is None,
        },
{
    match j {
        Json::Obj(ms) => match crate::extract::obj_get(ms, "isPlaying") {
            Some(Json::Bool(b)) => Some(
                NowPlayingResponse {
                    is_playing: *b,
                    title: str_field(ms, "title"),
                    artist: str_field(ms, "artist"),
                    album: str_field(ms, "album"),
                    album_image_url: str_field(ms, "albumImageUrl"),
                    song_url: str_field(ms, "songUrl"),
                },
            ),
            _ => None,
        },
        _ => None,
    }
}

/// Turns the outcome of a request into its status code and JSON body: a
/// normalized answer serializes under status 200, an error becomes its JSON
/// envelope under its own status.
pub fn respond(r: &Result<NowPlayingResponse, AppError>) -> (out: (u16, String))
    ensures
        r matches Ok(n) ==> out.0 == 200 && out.1@ == spec_resp_text(n@),
        r matches Err(e) ==> out.0 == e.spec_status() && out.1@ == spec_error_text(*e),
{
    match r {
        Ok(n) => (200, to_json(n)),
        Err(e) => (e.status_code(), error_body(e)),
    }
}

/// What looking any key up among a serialized answer's members yields.
proof fn lemma_resp_get(rv: RespV, key: Seq<char>)
    ensures
        spec_obj_get(spec_resp_members(rv), key) == if key == "isPlaying"@ {
            Some(JsonV::Bool(rv.is_playing))
        } else if key == "title"@ && rv.title is Some {
            Some(JsonV::Str(rv.title.unwrap()))
        } else if key == "artist"@ && rv.artist is Some {
            Some(JsonV::Str(rv.artist.unwrap()))
        } else if key == "album"@ && rv.album is Some {
            Some(JsonV::Str(rv.album.unwrap()))
        } else if key == "albumImageUrl"@ && rv.album_image_url is Some {
            Some(JsonV::Str(rv.album_image_url.unwrap()))
        } else if key == "songUrl"@ && rv.song_url is Some {
            Some(JsonV::Str(rv.song_url.unwrap()))
        } else {
            None::<JsonV>
        },
{
    let m0 = seq![("isPlaying"@, JsonV::Bool(rv.is_playing))];
    let t1 = match rv.title {
        Some(t) => seq![("title"@, JsonV::Str(t))],
        None => Seq::<(Seq<char>, JsonV)>::empty(),
    };
    let t2 = match rv.artist {
        Some(t) => seq![("artist"@, JsonV::Str(t))],
        None => Seq::<(Seq<char>, JsonV)>::empty(),
    };
    let t3 = match rv.album {
        Some(t) => seq![("album"@, JsonV::Str(t))],
        None => Seq::<(Seq<char>, JsonV)>::empty(),
    };
    let t4 = match rv.album_image_url {
        Some(t) => seq![("albumImageUrl"@, JsonV::Str(t))],
        None => Seq::<(Seq<char>, JsonV)>::empty(),
    };
    let t5 = match rv.song_url {
        Some(t) => seq![("songUrl"@, JsonV::Str(t))],
        None => Seq::<(Seq<char>, JsonV)>::empty(),
    };
    assert(spec_resp_members(rv) == m0 + t1 + t2 + t3 + t4 + t5);
    crate::extract::lemma_obj_get_concat(m0 + t1 + t2 + t3 + t4, t5, key);
    crate::extract::lemma_obj_get_concat(m0 + t1 + t2 + t3, t4, key);
    crate::extract::lemma_obj_get_concat(m0 + t1 + t2, t3, key);
    crate::extract::lemma_obj_get_concat(m0 + t1, t2, key);
    crate::extract::lemma_obj_get_concat(m0, t1, key);
    crate::extract::lemma_obj_get_single("isPlaying"@, JsonV::Bool(rv.is_playing), key);
    if rv.title is Some {
        crate::extract::lemma_obj_get_single("title"@, JsonV::Str(rv.title.unwrap()), key);
    }
    if rv.artist is Some {
        crate::extract::lemma_obj_get_single("artist"@, JsonV::Str(rv.artist.unwrap()), key);
    }
    if rv.album is Some {
        crate::extract::lemma_obj_get_single("album"@, JsonV::Str(rv.album.unwrap()), key);
    }
    if rv.album_image_url is Some {
        crate::extract::lemma_obj_get_single(
            "albumImageUrl"@,
            JsonV::Str(rv.album_image_url.unwrap()),
            key,
        );
    }
    if rv.song_url is Some {
        crate::extract::lemma_obj_get_single("songUrl"@, JsonV::Str(rv.song_url.unwrap()), key);
    }
}

/// The six wire names are pairwise distinct.
proof fn lemma_keys_distinct()
    ensures
        "isPlaying"@ != "title"@ && "isPlaying"@ != "artist"@ && "isPlaying"@ != "album"@
            && "isPlaying"@ != "albumImageUrl"@ && "isPlaying"@ != "songUrl"@,
        "title"@ != "artist"@ && "title"@ != "album"@ && "title"@ != "albumImageUrl"@
            && "title"@ != "songUrl"@,
        "artist"@ != "album"@ && "artist"@ != "albumImageUrl"@ && "artist"@ != "songUrl"@,
        "album"@ != "albumImageUrl"@ && "album"@ != "songUrl"@,
        "albumImageUrl"@ != "songUrl"@,
{
    reveal_strlit("isPlaying");
    reveal_strlit("title");
    reveal_strlit("artist");
    reveal_strlit("album");
    reveal_strlit("albumImageUrl");
    reveal_strlit("songUrl");
    assert("isPlaying"@.len() == 9);
    assert("title"@.len() == 5);
    assert("artist"@.len() == 6);
    assert("album"@.len() == 5);
    assert("albumImageUrl"@.len() == 13);
    assert("songUrl"@.len() == 7);
    assert("title"@[0] == 't');
    assert("album"@[0] == 'a');
}

/// Law: reading a serialized answer's members back recovers every field
/// under its wire name.
pub proof fn lemma_resp_tree_round_trip(rv: RespV)
    ensures
        spec_resp_of(spec_resp_json(rv)) == Some(rv),
{
    lemma_keys_distinct();
    lemma_resp_get(rv, "isPlaying"@);
    lemma_resp_get(rv, "title"@);
    lemma_resp_get(rv, "artist"@);
    lemma_resp_get(rv, "album"@);
    lemma_resp_get(rv, "albumImageUrl"@);
    lemma_resp_get(rv, "songUrl"@);
    let ms = spec_resp_members(rv);
    assert(spec_str_field(ms, "title"@) == rv.title);
    assert(spec_str_field(ms, "artist"@) == rv.artist);
    assert(spec_str_field(ms, "album"@) == rv.album);
    assert(spec_str_field(ms, "albumImageUrl"@) == rv.album_image_url);
    assert(spec_str_field(ms, "songUrl"@) == rv.song_url);
}

proof fn lemma_resp_members_flat(rv: RespV)
    ensures
        spec_resp_members(rv).len() > 0,
        crate::json::flat_members(spec_resp_members(rv)),
{
    let ms = spec_resp_members(rv);
    assert forall|i: int| 0 <= i < ms.len() implies crate::json::flat_value(ms[i].1) by {}
}

/// Law: serializing an answer and parsing the text back recovers the same
/// tree, and reading that tree recovers every field of the answer.
pub proof fn lemma_serialize_parse_round_trip(rv: RespV)
    ensures
        crate::json::spec_parse_text(spec_resp_text(rv)) == Some(spec_resp_json(rv)),
        spec_resp_of(spec_resp_json(rv)) == Some(rv),
{
    lemma_resp_members_flat(rv);
    crate::json::lemma_parse_render_obj(spec_resp_members(rv));
    lemma_resp_tree_round_trip(rv);
}

/// Law: when the normalized answer has no album image — in particular when
/// the album's image list is empty — the serialized members carry no
/// `albumImageUrl` key at all.
pub proof fn lemma_absent_image_absent_key(rv: RespV)
    requires
        rv.album_image_url is None,
    ensures
        spec_obj_get(spec_resp_members(rv), "albumImageUrl"@) is None,
{
    lemma_keys_distinct();
    lemma_resp_get(rv, "albumImageUrl"@);
}

/// Law: a playing payload whose album has no images normalizes and
/// serializes without an `albumImageUrl` member.
pub proof fn lemma_empty_images_no_image_member(pv: crate::models::PlayingV)
    requires
        pv.item matches Some(t) ==> (t.album is None || t.album.unwrap().image_urls.len() == 0),
    ensures
        spec_obj_get(
            spec_resp_members(crate::normalize::spec_normalize(pv)),
            "albumImageUrl"@,
        ) is None,
{
    lemma_absent_image_absent_key(crate::normalize::spec_normalize(pv));
}

/// Parses a serialized answer back from text.
pub fn parse_now_playing(s: &str) -> (r: Option<NowPlayingResponse>)
    ensures
        match r {
            Some(n) => (match crate::json::spec_parse_text(s@) {
                Some(j) => spec_resp_of(j),
                None => None,
            }) == Some(n@),
            None => (match crate::json::spec_parse_text(s@) {
                Some(j) => spec_resp_of(j),
                None => None,
            }) is None,
        },
{
    match crate::json::parse_text(s) {
        Some(j) => resp_of_json(&j),
        None => None,
    }
}

} // verus!
