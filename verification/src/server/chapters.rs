//! Requests for the chapters of a video.
use crate::json::{Json, JsonTree};
use crate::server::reply::THIRTY_DAYS;
use crate::server::store::{Ask, AskModel};
use vstd::prelude::*;

verus! {

/// `Clone` of `serde_json::Number` gives the same number.
pub assume_specification[ <serde_json::Number as Clone>::clone ](n: &serde_json::Number) -> (r:
    serde_json::Number)
    ensures
        r == *n,
;

/// The type of a list of chapters.
pub const CHAPTERS_TYPE: &'static str = "application/json+chapters";

/// The request for the chapters of a video as the store sees it.
pub open spec fn chapters_ask_of(is_head: bool, video_id: Seq<char>) -> AskModel {
    AskModel {
        is_head,
        content_type: CHAPTERS_TYPE@,
        key: "yt:chapters:"@ + video_id,
        seconds: THIRTY_DAYS,
    }
}

/// The request for the chapters of a video as the store sees it.
pub fn chapters_ask(is_head: bool, video_id: &str) -> (r: Ask)
    ensures
        r.deep_view() == chapters_ask_of(is_head, video_id@),
{
    Ask {
        is_head,
        content_type: CHAPTERS_TYPE.to_string(),
        key: crate::text::join("yt:chapters:", video_id),
        seconds: THIRTY_DAYS,
    }
}

/// What yt-dlp is asked, to print what is known of a video.
pub fn chapters_arguments(video_id: &str) -> (r: Vec<String>)
    ensures
        r.deep_view() == seq![
            "-j"@,
            "--no-playlist"@,
            crate::playlist::watch_address(video_id@),
        ],
{
    let r: Vec<String> = vec![
        "-j".to_string(),
        "--no-playlist".to_string(),
        crate::text::join("https://www.youtube.com/watch?v=", video_id),
    ];
    assert(r.deep_view() =~= seq![
        "-j"@,
        "--no-playlist"@,
        crate::playlist::watch_address(video_id@),
    ]);
    r
}

/// The largest whole number up to which every whole number is a number of double
/// precision.
pub const EXACT_LIMIT: u64 = 9_007_199_254_740_992;

/// When a chapter starts.
#[derive(Debug, PartialEq, Eq)]
pub enum StartTime {
    /// At a whole number of seconds.
    Exact(u64),
    /// At a whole number of seconds that double precision may round.
    Large(u64),
    /// At any other number of seconds.
    Other(serde_json::Number),
}

/// When a chapter starts: at once if it does not say.
pub open spec fn start_of(chapter: JsonTree) -> StartTime {
    match chapter.get("start_time"@) {
        Some(JsonTree::UInt(n)) => if n <= EXACT_LIMIT {
            StartTime::Exact(n)
        } else {
            StartTime::Large(n)
        },
        Some(JsonTree::Number(n)) => StartTime::Other(n),
        _ => StartTime::Exact(0),
    }
}

/// The second in which a chapter starts that starts at a whole number of seconds.
pub open spec fn exact_second(start: StartTime) -> Option<u64> {
    match start {
        StartTime::Exact(n) => Some(n),
        _ => None,
    }
}

/// The second in which a chapter starts that starts at a whole number of seconds.
pub fn second_of(start: &StartTime) -> (r: Option<u64>)
    ensures
        r == exact_second(*start),
{
    match start {
        StartTime::Exact(n) => Some(*n),
        _ => None,
    }
}

/// The second in which a chapter starts: its own if that is a whole number, and else
/// the one that its time was rounded to.
pub open spec fn second_in(chapter: JsonTree, rounded: u64) -> u64 {
    match exact_second(start_of(chapter)) {
        Some(n) => n,
        None => rounded,
    }
}

/// The chapters of a video.
pub open spec fn chapters_of(info: Option<JsonTree>) -> Seq<JsonTree> {
    match info {
        Some(tree) => match tree.get("chapters"@) {
            Some(JsonTree::Array(chapters)) => chapters,
            _ => Seq::empty(),
        },
        None => Seq::empty(),
    }
}

/// When the chapters of a video start.
pub open spec fn starts_of(info: Option<JsonTree>) -> Seq<StartTime> {
    chapters_of(info).map_values(|chapter: JsonTree| start_of(chapter))
}

/// A chapter as it is listed.
pub open spec fn listed_chapter(chapter: JsonTree, seconds: u64) -> JsonTree {
    JsonTree::Object(
        seq![
            (
                "startTime"@,
                JsonTree::Str(crate::duration::seconds_text(seconds as nat)),
            ),
            ("title"@, JsonTree::Str(crate::text::or_empty(chapter.str_at("title"@)))),
        ],
    )
}

/// The chapters of a video as they are listed, given the seconds that their times were
/// rounded to.
pub open spec fn listed_chapters(chapters: Seq<JsonTree>, rounded: Seq<u64>) -> Seq<JsonTree> {
    Seq::new(
        chapters.len(),
        |i: int| listed_chapter(chapters[i], second_in(chapters[i], rounded[i])),
    )
}

/// A list of chapters.
pub open spec fn chapter_list(chapters: Seq<JsonTree>, rounded: Seq<u64>) -> JsonTree {
    JsonTree::Object(
        seq![
            ("chapters"@, JsonTree::Array(listed_chapters(chapters, rounded))),
            ("version"@, JsonTree::Str("1.2.0"@)),
        ],
    )
}

proof fn lemma_list_is_plain(chapters: Seq<JsonTree>, rounded: Seq<u64>)
    ensures
        chapter_list(chapters, rounded).is_plain(),
{
    reveal_strlit("startTime");
    reveal_strlit("title");
    reveal_strlit("chapters");
    reveal_strlit("version");
    reveal_with_fuel(JsonTree::is_plain, 4);
    assert(crate::text::lex_less("startTime"@, "title"@));
    assert(crate::text::lex_less("chapters"@, "version"@));
    assert forall|i: int| 0 <= i < chapters.len() implies (#[trigger] listed_chapters(
        chapters,
        rounded,
    )[i]).is_plain() by {
        assert(listed_chapter(chapters[i], second_in(chapters[i], rounded[i])).is_plain());
    }
    assert(JsonTree::Array(listed_chapters(chapters, rounded)).is_plain());
}

fn members(info: Option<&Json>) -> (r: Option<&Vec<Json>>)
    ensures
        match r {
            Some(chapters) => crate::json::trees(chapters@) == chapters_of(
                crate::json::borrowed_tree(info),
            ),
            None => chapters_of(crate::json::borrowed_tree(info)) == Seq::<JsonTree>::empty(),
        },
{
    match info {
        Some(document) => match document.get("chapters") {
            Some(Json::Array(chapters)) => {
                assert(crate::json::trees(chapters@) =~= chapters_of(
                    crate::json::borrowed_tree(info),
                ));
                Some(chapters)
            },
            _ => None,
        },
        None => None,
    }
}

fn read_start(chapter: &Json) -> (r: StartTime)
    ensures
        r == start_of(chapter.tree()),
{
    match chapter.get("start_time") {
        Some(Json::UInt(n)) => if *n <= EXACT_LIMIT {
            StartTime::Exact(*n)
        } else {
            StartTime::Large(*n)
        },
        Some(Json::Number(n)) => StartTime::Other(n.clone()),
        _ => StartTime::Exact(0),
    }
}

/// When the chapters of a video start.
pub fn chapter_starts(info: Option<&Json>) -> (r: Vec<StartTime>)
    ensures
        r@ == starts_of(crate::json::borrowed_tree(info)),
{
    let mut starts: Vec<StartTime> = Vec::new();
    let ghost all = chapters_of(crate::json::borrowed_tree(info));
    if let Some(chapters) = members(info) {
        let mut i: usize = 0;
        while i < chapters.len()
            invariant
                i <= chapters.len(),
                crate::json::trees(chapters@) == all,
                starts.len() == i,
                forall|j: int| 0 <= j < i ==> starts@[j] == start_of(#[trigger] all[j]),
            decreases chapters.len() - i,
        {
            assert(all[i as int] == chapters@[i as int].tree());
            starts.push(read_start(&chapters[i]));
            i += 1;
        }
    }
    assert(starts@ =~= starts_of(crate::json::borrowed_tree(info)));
    starts
}

fn list_chapter(chapter: &Json, seconds: u64) -> (r: Json)
    ensures
        r.tree() == listed_chapter(chapter.tree(), seconds),
{
    let start = crate::duration::write_seconds(seconds);
    let title = crate::text::text_or_empty(chapter.str_at("title"));
    let members: Vec<(String, Json)> = vec![
        ("startTime".to_string(), Json::Str(start)),
        ("title".to_string(), Json::Str(title)),
    ];
    let r = Json::Object(members);
    proof {
        reveal_with_fuel(Json::tree, 2);
        assert(r.tree()->Object_0 =~= listed_chapter(chapter.tree(), seconds)->Object_0);
    }
    r
}

/// The list of a video's chapters, given the seconds that their times were rounded to.
/// Those of chapters that start at a whole number of seconds do not count.
pub fn chapters_payload(info: Option<&Json>, rounded: &Vec<u64>) -> (r: String)
    requires
        rounded.len() == chapters_of(crate::json::borrowed_tree(info)).len(),
    ensures
        r@ == chapter_list(
            chapters_of(crate::json::borrowed_tree(info)),
            rounded@,
        ).written(),
{
    let mut listed: Vec<Json> = Vec::new();
    let ghost all = chapters_of(crate::json::borrowed_tree(info));
    if let Some(chapters) = members(info) {
        let mut i: usize = 0;
        while i < chapters.len()
            invariant
                i <= chapters.len(),
                rounded.len() == chapters.len(),
                crate::json::trees(chapters@) == all,
                listed.len() == i,
                forall|j: int|
                    0 <= j < i ==> (#[trigger] listed@[j]).tree() == listed_chapter(
                        all[j],
                        second_in(all[j], rounded@[j]),
                    ),
            decreases chapters.len() - i,
        {
            assert(all[i as int] == chapters@[i as int].tree());
            let second = match second_of(&read_start(&chapters[i])) {
                Some(n) => n,
                None => rounded[i],
            };
            listed.push(list_chapter(&chapters[i], second));
            i += 1;
        }
    }
    let members: Vec<(String, Json)> = vec![
        ("chapters".to_string(), Json::Array(listed)),
        ("version".to_string(), Json::Str("1.2.0".to_string())),
    ];
    let list = Json::Object(members);
    proof {
        reveal_with_fuel(Json::tree, 3);
        assert(Json::Array(listed).tree()->Array_0 =~= listed_chapters(all, rounded@));
        assert(list.tree()->Object_0 =~= chapter_list(all, rounded@)->Object_0);
        lemma_list_is_plain(all, rounded@);
    }
    crate::json::write_json(&list)
}

/// A chapter that starts at a whole number of seconds is listed at that second,
/// whatever the times of chapters were rounded to.
pub proof fn whole_starts_are_listed(info: Option<JsonTree>, rounded: Seq<u64>, at: int, n: u64)
    requires
        0 <= at < chapters_of(info).len(),
        starts_of(info)[at] == StartTime::Exact(n),
    ensures
        listed_chapters(chapters_of(info), rounded)[at].str_at("startTime"@) == Some(
            crate::duration::seconds_text(n as nat),
        ),
{
    assert(start_of(chapters_of(info)[at]) == StartTime::Exact(n));
}

/// Chapters are kept for thirty days under a key that ends in their video, and are asked
/// for at the address of the video.
pub proof fn chapters_are_kept_by_video(
    is_head: bool,
    video_id: &str,
    ask: Ask,
    words: Vec<String>,
)
    requires
        call_ensures(chapters_ask, (is_head, video_id), ask),
        call_ensures(chapters_arguments, (video_id,), words),
    ensures
        ask.is_head == is_head,
        ask.content_type@ == "application/json+chapters"@,
        ask.key@ == "yt:chapters:"@ + video_id@,
        ask.seconds == 30 * 24 * 60 * 60,
        words@.len() == 3,
        words@[0]@ == "-j"@ && words@[1]@ == "--no-playlist"@,
        words@[2]@ == "https://www.youtube.com/watch?v="@ + video_id@,
{
    let seen = words.deep_view();
    assert(seen.len() == words@.len());
    assert(seen[0] == words@[0]@ && seen[1] == words@[1]@ && seen[2] == words@[2]@);
}

/// Whether a list of chapters is that of a video: as long, in the same order, each chapter
/// with its title, if it has one, and with the clock of the second in which it starts. That
/// is the whole number under `start_time` up to two to the 53rd, zero if there is no number,
/// and else the one that the time was rounded to.
pub open spec fn is_list_of(list: JsonTree, chapters: Seq<JsonTree>, rounded: Seq<u64>) -> bool {
    &&& list.get("version"@) == Some(JsonTree::Str("1.2.0"@))
    &&& list.get("chapters"@) matches Some(JsonTree::Array(listed))
    &&& listed.len() == chapters.len()
    &&& forall|i: int|
        0 <= i < listed.len() ==> {
            let second = match chapters[i].get("start_time"@) {
                Some(JsonTree::UInt(n)) => if n <= 9_007_199_254_740_992 {
                    n
                } else {
                    rounded[i]
                },
                Some(JsonTree::Number(_)) => rounded[i],
                _ => 0,
            };
            &&& (#[trigger] listed[i]).get("startTime"@) == Some(
                JsonTree::Str(crate::duration::seconds_text(second as nat)),
            )
            &&& listed[i].get("title"@) == Some(
                JsonTree::Str(
                    match chapters[i].get("title"@) {
                        Some(JsonTree::Str(title)) => title,
                        _ => Seq::empty(),
                    },
                ),
            )
        }
}

/// The payload is the list of the video's chapters, and of a video without chapters an
/// empty list.
pub proof fn all_chapters_are_listed(
    info: Option<&Json>,
    rounded: &Vec<u64>,
    r: String,
    starts: Vec<StartTime>,
)
    requires
        call_ensures(chapters_payload, (info, rounded), r),
        call_ensures(chapter_starts, (info,), starts),
    ensures
        ({
            let chapters = match info {
                Some(document) => match document.tree().get("chapters"@) {
                    Some(JsonTree::Array(chapters)) => chapters,
                    _ => Seq::empty(),
                },
                None => Seq::empty(),
            };
            &&& exists|list: JsonTree|
                is_list_of(list, chapters, rounded@) && r@ == #[trigger] list.written()
            &&& starts@.len() == chapters.len()
            &&& forall|i: int|
                0 <= i < chapters.len() ==> match chapters[i].get("start_time"@) {
                    Some(JsonTree::UInt(n)) => if n <= 9_007_199_254_740_992 {
                        #[trigger] starts@[i] == StartTime::Exact(n)
                    } else {
                        starts@[i] == StartTime::Large(n)
                    },
                    Some(JsonTree::Number(n)) => starts@[i] == StartTime::Other(n),
                    _ => starts@[i] == StartTime::Exact(0),
                }
        }),
{
    let chapters = chapters_of(crate::json::borrowed_tree(info));
    let list = chapter_list(chapters, rounded@);
    reveal_strlit("startTime");
    reveal_strlit("title");
    reveal_strlit("chapters");
    reveal_strlit("version");
    assert("startTime"@.len() == 9 && "title"@.len() == 5);
    assert("chapters"@.len() == 8 && "version"@.len() == 7);
    crate::json::the_first_member_is_found(list->Object_0, "chapters"@, 0);
    crate::json::the_first_member_is_found(list->Object_0, "version"@, 1);
    let listed = listed_chapters(chapters, rounded@);
    assert forall|i: int| 0 <= i < listed.len() implies {
        let members = (#[trigger] listed[i])->Object_0;
        &&& listed[i].get("startTime"@) == Some(members[0].1)
        &&& listed[i].get("title"@) == Some(members[1].1)
    } by {
        let members = listed[i]->Object_0;
        crate::json::the_first_member_is_found(members, "startTime"@, 0);
        crate::json::the_first_member_is_found(members, "title"@, 1);
    }
    assert(is_list_of(list, chapters, rounded@));
}

/// The second of a chapter is known without rounding exactly if it starts at one.
pub proof fn whole_seconds_need_no_rounding(n: u64, start: &StartTime, r: Option<u64>)
    requires
        call_ensures(second_of, (start,), r),
    ensures
        *start == StartTime::Exact(n) <==> r == Some(n),
{
}

} // verus!
