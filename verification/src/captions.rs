//! The choice of a caption track among those that yt-dlp lists for a video.
use crate::json::{Json, JsonTree};
use vstd::prelude::*;

verus! {

/// Whether a language code is one of English.
pub open spec fn is_english(code: Seq<char>) -> bool {
    crate::text::occurs_at("en"@, code, 0)
}

/// Whether one of the members has a key.
pub open spec fn has_key(members: Seq<(Seq<char>, JsonTree)>, key: Seq<char>) -> bool {
    exists|i: int| 0 <= i < members.len() && (#[trigger] members[i]).0 == key
}

/// Whether a key is the one to take: the first of those of English in their order,
/// or the first of all where none is of English.
pub open spec fn is_preferred(members: Seq<(Seq<char>, JsonTree)>, key: Seq<char>) -> bool {
    &&& has_key(members, key)
    &&& forall|i: int|
        0 <= i < members.len() ==> {
            let other = (#[trigger] members[i]).0;
            &&& is_english(other) ==> is_english(key)
            &&& is_english(other) == is_english(key) ==> !crate::text::lex_less(other, key)
        }
}

/// The address of the first track that has one; with `only_vtt`, of the first one
/// in the format `vtt`.
pub open spec fn first_address(tracks: Seq<JsonTree>, only_vtt: bool) -> Option<Seq<char>>
    decreases tracks.len(),
{
    if tracks.len() == 0 {
        None
    } else if tracks[0].str_at("url"@) is Some && (!only_vtt || tracks[0].str_at("ext"@) == Some(
        "vtt"@,
    )) {
        tracks[0].str_at("url"@)
    } else {
        first_address(tracks.skip(1), only_vtt)
    }
}

/// The address of the track to take from a list of languages: in the preferred
/// language, one in the format `vtt` before any other.
pub open spec fn track_in(languages: JsonTree) -> Option<Seq<char>> {
    match languages {
        JsonTree::Object(members) => if members.len() == 0 {
            None
        } else {
            match JsonTree::member(members, choose|key: Seq<char>| is_preferred(members, key)) {
                Some(JsonTree::Array(tracks)) => match first_address(tracks, true) {
                    Some(address) => Some(address),
                    None => first_address(tracks, false),
                },
                _ => None,
            }
        },
        _ => None,
    }
}

/// The address of the track to take from the member with a key.
pub open spec fn track_at(info: JsonTree, key: Seq<char>) -> Option<Seq<char>> {
    match info.get(key) {
        Some(languages) => track_in(languages),
        None => None,
    }
}

/// The address of the captions of a video: of its subtitles, or else of its
/// automatic captions.
pub open spec fn captions_address(info: Option<JsonTree>) -> Option<Seq<char>> {
    match info {
        None => None,
        Some(tree) => match track_at(tree, "subtitles"@) {
            Some(address) => Some(address),
            None => track_at(tree, "automatic_captions"@),
        },
    }
}

/// At most one key is the one to take.
proof fn lemma_one_is_preferred(members: Seq<(Seq<char>, JsonTree)>, a: Seq<char>, b: Seq<char>)
    requires
        is_preferred(members, a),
        is_preferred(members, b),
    ensures
        a == b,
{
    let i = choose|i: int| 0 <= i < members.len() && (#[trigger] members[i]).0 == a;
    let j = choose|j: int| 0 <= j < members.len() && (#[trigger] members[j]).0 == b;
    assert(members[i].0 == a && members[j].0 == b);
    crate::text::lemma_lex_order(a, b);
}

/// The position of the member whose key is the one to take.
fn preferred_index(members: &Vec<(String, Json)>, Ghost(all): Ghost<Seq<(Seq<char>, JsonTree)>>) -> (r:
    usize)
    requires
        members.len() > 0,
        all == Json::Object(*members).tree()->Object_0,
    ensures
        r < members.len(),
        is_preferred(all, members@[r as int].0@),
{
    let mut best: usize = 0;
    let mut i: usize = 1;
    proof {
        crate::text::lemma_lex_order(members@[0].0@, members@[0].0@);
        assert(all[0].0 == members@[0].0@);
        assert(all.take(1).len() == 1);
        assert(all.take(1)[0] == all[0]);
        assert(is_preferred(all.take(1), members@[0].0@));
    }
    while i < members.len()
        invariant
            1 <= i <= members.len(),
            best < i,
            all == Json::Object(*members).tree()->Object_0,
            all.len() == members.len(),
            is_preferred(all.take(i as int), members@[best as int].0@),
        decreases members.len() - i,
    {
        let key = members[i].0.as_str();
        let held = members[best].0.as_str();
        let english = crate::text::starts_with(key, "en");
        let held_english = crate::text::starts_with(held, "en");
        let ghost before = all.take(i as int);
        let ghost after = all.take(i + 1);
        assert(all[i as int].0 == key@);
        assert(all[best as int].0 == held@);
        assert(forall|j: int| 0 <= j < i ==> before[j] == after[j]);
        assert(after[i as int].0 == key@);
        if (english && !held_english) || (english == held_english && crate::text::comes_before(
            key,
            held,
        )) {
            assert forall|j: int| 0 <= j < after.len() implies {
                let other = (#[trigger] after[j]).0;
                &&& is_english(other) ==> is_english(key@)
                &&& is_english(other) == is_english(key@) ==> !crate::text::lex_less(other, key@)
            } by {
                let other = after[j].0;
                crate::text::lemma_lex_order(key@, key@);
                if j < i {
                    assert(before[j].0 == other);
                    if crate::text::lex_less(other, key@) && is_english(other) == is_english(key@) {
                        crate::text::lemma_lex_chain(other, key@, held@);
                    }
                }
            }
            best = i;
        } else {
            assert forall|j: int| 0 <= j < after.len() implies {
                let other = (#[trigger] after[j]).0;
                &&& is_english(other) ==> is_english(held@)
                &&& is_english(other) == is_english(held@) ==> !crate::text::lex_less(other, held@)
            } by {
                if j < i {
                    assert(before[j].0 == after[j].0);
                }
            }
            assert(after[best as int].0 == held@);
        }
        i += 1;
    }
    assert(all.take(i as int) =~= all);
    best
}

fn find_address(tracks: &Vec<Json>, only_vtt: bool) -> (r: Option<String>)
    ensures
        r.deep_view() == first_address(Json::Array(*tracks).tree()->Array_0, only_vtt),
{
    let ghost all = Json::Array(*tracks).tree()->Array_0;
    let mut i: usize = 0;
    assert(all.skip(0) =~= all);
    while i < tracks.len()
        invariant
            i <= tracks.len(),
            all == Json::Array(*tracks).tree()->Array_0,
            all.len() == tracks.len(),
            first_address(all, only_vtt) == first_address(all.skip(i as int), only_vtt),
        decreases tracks.len() - i,
    {
        assert(all[i as int] == tracks@[i as int].tree());
        let address = tracks[i].str_at("url");
        let fits = !only_vtt || match tracks[i].str_at("ext") {
            Some(ext) => crate::text::same(ext.as_str(), "vtt"),
            None => false,
        };
        if address.is_some() && fits {
            return address;
        }
        assert(all.skip(i as int).skip(1) =~= all.skip(i + 1));
        i += 1;
    }
    None
}

fn select(languages: &Json) -> (r: Option<String>)
    ensures
        r.deep_view() == track_in(languages.tree()),
{
    match languages {
        Json::Object(members) => {
            if members.len() == 0 {
                return None;
            }
            let ghost all = languages.tree()->Object_0;
            let at = preferred_index(members, Ghost(all));
            proof {
                lemma_one_is_preferred(
                    all,
                    members@[at as int].0@,
                    choose|key: Seq<char>| is_preferred(all, key),
                );
            }
            match languages.get(members[at].0.as_str()) {
                Some(Json::Array(tracks)) => match find_address(tracks, true) {
                    Some(address) => Some(address),
                    None => find_address(tracks, false),
                },
                _ => None,
            }
        },
        _ => None,
    }
}

/// Picks the captions of a video: those made by people before automatic ones,
/// English before other languages, the format `vtt` before others.
pub fn pick_best_vtt_url(json: Option<&Json>) -> (r: Option<String>)
    ensures
        r.deep_view() == captions_address(crate::json::borrowed_tree(json)),
{
    let info = match json {
        Some(info) => info,
        None => return None,
    };
    if let Some(subtitles) = info.get("subtitles") {
        if let Some(address) = select(subtitles) {
            return Some(address);
        }
    }
    match info.get("automatic_captions") {
        Some(automatic) => select(automatic),
        None => None,
    }
}

/// There is always a language to take from a list that is not empty.
pub proof fn some_language_is_preferred(members: Seq<(Seq<char>, JsonTree)>)
    requires
        members.len() > 0,
    ensures
        exists|key: Seq<char>| is_preferred(members, key),
    decreases members.len(),
{
    let last = members.last().0;
    crate::text::lemma_lex_order(last, last);
    if members.len() == 1 {
        assert(members[0].0 == last);
        assert(is_preferred(members, last));
    } else {
        let rest = members.drop_last();
        some_language_is_preferred(rest);
        let held = choose|key: Seq<char>| is_preferred(rest, key);
        let at = choose|i: int| 0 <= i < rest.len() && (#[trigger] rest[i]).0 == held;
        assert(members[at].0 == held);
        assert(members[members.len() - 1].0 == last);
        crate::text::lemma_lex_order(last, held);
        if (is_english(last) && !is_english(held)) || (is_english(last) == is_english(held)
            && crate::text::lex_less(last, held)) {
            assert forall|j: int| 0 <= j < members.len() implies {
                let other = (#[trigger] members[j]).0;
                &&& is_english(other) ==> is_english(last)
                &&& is_english(other) == is_english(last) ==> !crate::text::lex_less(other, last)
            } by {
                let other = members[j].0;
                if j < rest.len() {
                    assert(rest[j].0 == other);
                    if crate::text::lex_less(other, last) && is_english(other) == is_english(last) {
                        crate::text::lemma_lex_chain(other, last, held);
                    }
                }
            }
            assert(is_preferred(members, last));
        } else {
            assert forall|j: int| 0 <= j < members.len() implies {
                let other = (#[trigger] members[j]).0;
                &&& is_english(other) ==> is_english(held)
                &&& is_english(other) == is_english(held) ==> !crate::text::lex_less(other, held)
            } by {
                if j < rest.len() {
                    assert(rest[j].0 == members[j].0);
                }
            }
            assert(is_preferred(members, held));
        }
    }
}

/// The language to take is one of English whenever there is one, and exactly one
/// language is the one to take.
pub proof fn english_is_preferred(
    members: Seq<(Seq<char>, JsonTree)>,
    key: Seq<char>,
    other: Seq<char>,
)
    requires
        is_preferred(members, key),
    ensures
        has_key(members, other) && is_english(other) ==> is_english(key),
        is_preferred(members, other) ==> other == key,
{
    if is_preferred(members, other) {
        lemma_one_is_preferred(members, key, other);
    }
}

/// Automatic captions are taken only if there are no subtitles to take.
pub proof fn subtitles_are_preferred(info: JsonTree)
    ensures
        track_at(info, "subtitles"@) is Some ==> captions_address(Some(info)) == track_at(
            info,
            "subtitles"@,
        ),
        track_at(info, "subtitles"@) is None ==> captions_address(Some(info)) == track_at(
            info,
            "automatic_captions"@,
        ),
{
}

/// Whether the code of a language begins with the letters of English.
pub open spec fn begins_e_n(code: Seq<char>) -> bool {
    code.len() >= 2 && code[0] == 'e' && code[1] == 'n'
}

proof fn lemma_english_begins_e_n(code: Seq<char>)
    ensures
        is_english(code) == begins_e_n(code),
{
    reveal_strlit("en");
    if begins_e_n(code) {
        assert(code.subrange(0, 2) =~= "en"@);
    }
    if is_english(code) {
        assert(code.subrange(0, 2)[0] == 'e');
        assert(code.subrange(0, 2)[1] == 'n');
    }
}

/// If a list has a language whose code begins with `en`, the code that is taken begins
/// with `en`; it is one of the list, and of those the first.
pub proof fn codes_that_begin_e_n_are_taken(
    members: Seq<(Seq<char>, JsonTree)>,
    key: Seq<char>,
    at: int,
)
    requires
        is_preferred(members, key),
        0 <= at < members.len(),
    ensures
        exists|i: int| 0 <= i < members.len() && (#[trigger] members[i]).0 == key,
        begins_e_n(members[at].0) ==> begins_e_n(key),
        begins_e_n(members[at].0) == begins_e_n(key) && members[at].0 != key
            ==> crate::text::lex_less(key, members[at].0),
{
    lemma_english_begins_e_n(key);
    lemma_english_begins_e_n(members[at].0);
    crate::text::lemma_lex_order(key, members[at].0);
}

/// Whether a language is the one to take from a list of distinct ones: its code begins
/// with `en` or none does, and it comes before the others of which that is true.
pub open spec fn is_first_choice(members: Seq<(Seq<char>, JsonTree)>, at: int) -> bool {
    &&& 0 <= at < members.len()
    &&& forall|i: int|
        0 <= i < members.len() && i != at ==> {
            let other = (#[trigger] members[i]).0;
            ||| begins_e_n(members[at].0) && !begins_e_n(other)
            ||| begins_e_n(members[at].0) == begins_e_n(other) && crate::text::lex_less(
                members[at].0,
                other,
            )
        }
}

/// Whether a track is at an address, and in the format `vtt` if that is demanded.
pub open spec fn is_at(track: JsonTree, address: Seq<char>, in_vtt: bool) -> bool {
    &&& track.get("url"@) == Some(JsonTree::Str(address))
    &&& in_vtt ==> track.get("ext"@) == Some(JsonTree::Str("vtt"@))
}

proof fn lemma_first_address(tracks: Seq<JsonTree>, in_vtt: bool)
    ensures
        match first_address(tracks, in_vtt) {
            Some(address) => exists|at: int|
                {
                    &&& 0 <= at < tracks.len()
                    &&& is_at(#[trigger] tracks[at], address, in_vtt)
                    &&& forall|i: int, other: Seq<char>|
                        0 <= i < at ==> !(#[trigger] is_at(tracks[i], other, in_vtt))
                },
            None => forall|i: int, other: Seq<char>|
                0 <= i < tracks.len() ==> !(#[trigger] is_at(tracks[i], other, in_vtt)),
        },
    decreases tracks.len(),
{
    if tracks.len() > 0 {
        let rest = tracks.skip(1);
        lemma_first_address(rest, in_vtt);
        if tracks[0].str_at("url"@) is Some && (!in_vtt || tracks[0].str_at("ext"@) == Some(
            "vtt"@,
        )) {
            let address = tracks[0].str_at("url"@)->0;
            assert(is_at(tracks[0], address, in_vtt));
        } else {
            assert forall|other: Seq<char>| !is_at(tracks[0], other, in_vtt) by {}
            match first_address(rest, in_vtt) {
                Some(address) => {
                    let at = choose|at: int|
                        {
                            &&& 0 <= at < rest.len()
                            &&& is_at(#[trigger] rest[at], address, in_vtt)
                            &&& forall|i: int, other: Seq<char>|
                                0 <= i < at ==> !(#[trigger] is_at(rest[i], other, in_vtt))
                        };
                    assert(rest[at] == tracks[at + 1]);
                    assert forall|i: int, other: Seq<char>| 0 <= i < at + 1 implies !(
                    #[trigger] is_at(tracks[i], other, in_vtt)) by {
                        if i > 0 {
                            assert(tracks[i] == rest[i - 1]);
                            assert(!is_at(rest[i - 1], other, in_vtt));
                        }
                    }
                    assert(is_at(tracks[at + 1], address, in_vtt));
                },
                None => {
                    assert forall|i: int, other: Seq<char>| 0 <= i < tracks.len() implies !(
                    #[trigger] is_at(tracks[i], other, in_vtt)) by {
                        if i > 0 {
                            assert(tracks[i] == rest[i - 1]);
                            assert(!is_at(rest[i - 1], other, in_vtt));
                        }
                    }
                },
            }
        }
    }
}

proof fn lemma_track_of_choice(
    members: Seq<(Seq<char>, JsonTree)>,
    at: int,
    tracks: Seq<JsonTree>,
)
    requires
        is_first_choice(members, at),
        members[at].1 == JsonTree::Array(tracks),
    ensures
        track_in(JsonTree::Object(members)) == match first_address(tracks, true) {
            Some(address) => Some(address),
            None => first_address(tracks, false),
        },
{
    let key = members[at].0;
    lemma_english_begins_e_n(key);
    crate::text::lemma_lex_order(key, key);
    assert forall|i: int| 0 <= i < members.len() implies {
        let other = (#[trigger] members[i]).0;
        &&& is_english(other) ==> is_english(key)
        &&& is_english(other) == is_english(key) ==> !crate::text::lex_less(other, key)
    } by {
        let other = members[i].0;
        lemma_english_begins_e_n(other);
        crate::text::lemma_lex_order(key, other);
    }
    assert(is_preferred(members, key));
    lemma_one_is_preferred(members, key, choose|key: Seq<char>| is_preferred(members, key));
    assert forall|i: int| 0 <= i < at implies (#[trigger] members[i]).0 != key by {
        crate::text::lemma_lex_order(key, members[i].0);
    }
    crate::json::the_first_member_is_found(members, key, at);
}

/// In the language to take, the first track in the format `vtt` is taken, and if none is
/// in that format, the first one at all: from the subtitles if there are any, and else
/// from the automatic captions.
pub proof fn tracks_are_taken_in_order(
    info: JsonTree,
    members: Seq<(Seq<char>, JsonTree)>,
    language: int,
    tracks: Seq<JsonTree>,
    at: int,
    address: Seq<char>,
)
    requires
        ({
            ||| info.get("subtitles"@) == Some(JsonTree::Object(members))
            ||| info.get("automatic_captions"@) == Some(JsonTree::Object(members)) && !(info.get(
                "subtitles"@,
            ) is Some && info.get("subtitles"@)->0 is Object && info.get(
                "subtitles"@,
            )->0->Object_0.len() > 0)
        }),
        is_first_choice(members, language),
        members[language].1 == JsonTree::Array(tracks),
        0 <= at < tracks.len(),
        is_at(tracks[at], address, false),
        ({
            ||| is_at(tracks[at], address, true) && forall|i: int, other: Seq<char>|
                0 <= i < at ==> !(#[trigger] is_at(tracks[i], other, true))
            ||| (forall|i: int, other: Seq<char>|
                0 <= i < tracks.len() ==> !(#[trigger] is_at(tracks[i], other, true))) && (forall|
                i: int,
                other: Seq<char>,
            |
                0 <= i < at ==> !(#[trigger] is_at(tracks[i], other, false)))
        }),
    ensures
        captions_address(Some(info)) == Some(address),
{
    lemma_track_of_choice(members, language, tracks);
    lemma_first_address(tracks, true);
    lemma_first_address(tracks, false);
}

/// What is taken is the address of a track of some language, among the subtitles or the
/// automatic captions.
pub proof fn addresses_are_those_of_tracks(info: JsonTree)
    ensures
        captions_address(Some(info)) matches Some(address) ==> exists|
            list: Seq<(Seq<char>, JsonTree)>,
            language: int,
            at: int,
        |
            {
                &&& info.get("subtitles"@) == Some(JsonTree::Object(list)) || info.get(
                    "automatic_captions"@,
                ) == Some(JsonTree::Object(list))
                &&& 0 <= language < list.len()
                &&& (#[trigger] list[language]).1 is Array
                &&& 0 <= at < list[language].1->Array_0.len()
                &&& #[trigger] is_at(list[language].1->Array_0[at], address, false)
            },
{
    if captions_address(Some(info)) is Some {
        let address = captions_address(Some(info))->0;
        let languages = if track_at(info, "subtitles"@) is Some {
            info.get("subtitles"@)->0
        } else {
            info.get("automatic_captions"@)->0
        };
        let list = languages->Object_0;
        let key = choose|key: Seq<char>| is_preferred(list, key);
        let found = JsonTree::member(list, key)->0;
        let tracks = found->Array_0;
        lemma_first_address(tracks, true);
        lemma_first_address(tracks, false);
        let at = choose|at: int|
            0 <= at < tracks.len() && is_at(#[trigger] tracks[at], address, false);
        let language = lemma_member_is_somewhere(list, key);
        assert(list[language].1 == found);
        assert(is_at(list[language].1->Array_0[at], address, false));
    }
}

proof fn lemma_member_is_somewhere(members: Seq<(Seq<char>, JsonTree)>, key: Seq<char>) -> (at: int)
    requires
        JsonTree::member(members, key) is Some,
    ensures
        0 <= at < members.len(),
        JsonTree::member(members, key) == Some(members[at].1),
    decreases members.len(),
{
    if members[0].0 == key {
        0
    } else {
        let at = lemma_member_is_somewhere(members.skip(1), key);
        assert(members.skip(1)[at] == members[at + 1]);
        at + 1
    }
}

/// The captions that are picked are those at the address of the track to take, in the
/// language to take: from the subtitles if there are any, and else from the automatic
/// captions. Of no document none are picked.
pub proof fn captions_are_picked_in_order(
    info: &Json,
    members: Seq<(Seq<char>, JsonTree)>,
    language: int,
    tracks: Seq<JsonTree>,
    at: int,
    address: Seq<char>,
    r: Option<String>,
    none: Option<String>,
)
    requires
        call_ensures(pick_best_vtt_url, (Some(info),), r),
        call_ensures(pick_best_vtt_url, (None::<&Json>,), none),
        ({
            ||| info.tree().get("subtitles"@) == Some(JsonTree::Object(members))
            ||| info.tree().get("automatic_captions"@) == Some(JsonTree::Object(members)) && !(
            info.tree().get("subtitles"@) is Some && info.tree().get("subtitles"@)->0 is Object
                && info.tree().get("subtitles"@)->0->Object_0.len() > 0)
        }),
        is_first_choice(members, language),
        members[language].1 == JsonTree::Array(tracks),
        0 <= at < tracks.len(),
        is_at(tracks[at], address, false),
        ({
            ||| is_at(tracks[at], address, true) && forall|i: int, other: Seq<char>|
                0 <= i < at ==> !(#[trigger] is_at(tracks[i], other, true))
            ||| (forall|i: int, other: Seq<char>|
                0 <= i < tracks.len() ==> !(#[trigger] is_at(tracks[i], other, true))) && (forall|
                i: int,
                other: Seq<char>,
            |
                0 <= i < at ==> !(#[trigger] is_at(tracks[i], other, false)))
        }),
    ensures
        r is Some && r->0@ == address,
        none is None,
{
    tracks_are_taken_in_order(info.tree(), members, language, tracks, at, address);
}

} // verus!
