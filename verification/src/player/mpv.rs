//! The decisions around running the player: the stream URL and arguments
//! it gets, which skips apply, reading the position it saved, and when a
//! playback position is written back.

use vstd::prelude::*;
use crate::text;
use crate::json::{self, Json};

verus! {

/// The stream URL with a doubled `https://` or `http://` scheme collapsed.
pub open spec fn normalized_stream_url(url: Seq<char>) -> Seq<char> {
    text::replace(
        text::replace(url, "https://https://"@, "https://"@),
        "http://http://"@,
        "http://"@,
    )
}

/// Collapses a doubled scheme in a stream URL.
pub fn normalize_stream_url(url: &str) -> (r: String)
    ensures
        r@ == normalized_stream_url(url@),
{
    proof {
        reveal_strlit("https://https://");
        reveal_strlit("http://http://");
    }
    let a = text::replace_chars(
        &text::to_chars(url),
        &text::to_chars("https://https://"),
        &text::to_chars("https://"),
    );
    let b = text::replace_chars(&a, &text::to_chars("http://http://"), &text::to_chars("http://"));
    text::from_chars(&b)
}

/// Streams from these hosts and playlists are only served with the
/// AllAnime referer.
pub open spec fn referer_needed(url: Seq<char>) -> bool {
    text::contains(url, "fast4speed"@) || text::contains(url, "clock.json"@) || text::contains(
        url,
        ".m3u8"@,
    )
}

/// Whether the player must send the AllAnime referer for this stream.
pub fn needs_referer(url: &str) -> (r: bool)
    ensures
        r == referer_needed(url@),
{
    let u = text::to_chars(url);
    text::contains_chars(&u, &text::to_chars("fast4speed")) || text::contains_chars(
        &u,
        &text::to_chars("clock.json"),
    ) || text::contains_chars(&u, &text::to_chars(".m3u8"))
}

/// Which segments the skip setting skips: the intro for `intro` and `both`,
/// the outro for `outro` and `both`.
pub fn skip_flags(setting: &str) -> (r: (bool, bool))
    ensures
        r.0 == (setting@ == "intro"@ || setting@ == "both"@),
        r.1 == (setting@ == "outro"@ || setting@ == "both"@),
{
    let s = text::to_chars(setting);
    let both = text::eq_chars(&s, &text::to_chars("both"));
    (
        both || text::eq_chars(&s, &text::to_chars("intro")),
        both || text::eq_chars(&s, &text::to_chars("outro")),
    )
}

/// The player's command-line arguments before the resume position and skip
/// options: the stream, saving the position on quit into `watch_dir` (start
/// position only), the IPC server on `socket`, no idling, the user agent,
/// and the AllAnime referer when the stream needs it.
pub open spec fn base_args(
    url: Seq<char>,
    watch_dir: Seq<char>,
    socket: Seq<char>,
    agent: Seq<char>,
) -> Seq<Seq<char>> {
    let args = seq![
        url,
        "--save-position-on-quit"@,
        "--watch-later-dir="@ + watch_dir,
        "--watch-later-options=start"@,
        "--input-ipc-server="@ + socket,
        "--idle=no"@,
        "--http-header-fields-append=User-Agent: "@ + agent,
    ];
    if referer_needed(url) {
        args.push("--http-header-fields-append=Referer: https://allmanga.to"@)
    } else {
        args
    }
}

fn concat(a: &str, b: &str) -> (r: String)
    ensures
        r@ == a@ + b@,
{
    let mut v = text::to_chars(a);
    text::extend_chars(&mut v, &text::to_chars(b));
    text::from_chars(&v)
}

/// The player's first arguments for a stream.
pub fn mpv_base_args(url: &str, watch_dir: &str, socket: &str, agent: &str) -> (r: Vec<String>)
    ensures
        r@.map_values(|s: String| s@) == base_args(url@, watch_dir@, socket@, agent@),
{
    let mut args: Vec<String> = Vec::new();
    args.push(url.to_owned());
    args.push("--save-position-on-quit".to_owned());
    args.push(concat("--watch-later-dir=", watch_dir));
    args.push("--watch-later-options=start".to_owned());
    args.push(concat("--input-ipc-server=", socket));
    args.push("--idle=no".to_owned());
    args.push(concat("--http-header-fields-append=User-Agent: ", agent));
    if needs_referer(url) {
        args.push("--http-header-fields-append=Referer: https://allmanga.to".to_owned());
    }
    assert(args@.map_values(|s: String| s@) =~= base_args(url@, watch_dir@, socket@, agent@));
    args
}

/// The value of the first `start=` line of a saved-position file, trimmed.
pub open spec fn saved_start(content: Seq<char>) -> Option<Seq<char>> {
    first_start(text::lines(content))
}

pub open spec fn first_start(ls: Seq<Seq<char>>) -> Option<Seq<char>>
    decreases ls.len(),
{
    if ls.len() == 0 {
        None
    } else if text::starts_with(ls[0], "start="@) {
        Some(text::trim(ls[0].skip(6)))
    } else {
        first_start(ls.skip(1))
    }
}

/// The saved start position's text in a saved-position file, if it has one.
pub fn watch_later_start(content: &str) -> (r: Option<String>)
    ensures
        r matches Some(s) ==> saved_start(content@) == Some(s@),
        r is None ==> saved_start(content@) is None,
{
    proof {
        reveal_strlit("start=");
    }
    let ls = text::lines_chars(&text::to_chars(content));
    let ghost lv = ls@.map_values(|v: Vec<char>| v@);
    let pre = text::to_chars("start=");
    let mut i: usize = 0;
    assert(lv.skip(0) =~= lv);
    while i < ls.len()
        invariant
            i <= ls@.len(),
            lv == ls@.map_values(|v: Vec<char>| v@),
            lv == text::lines(content@),
            pre@ == "start="@,
            pre@.len() == 6,
            first_start(lv) == first_start(lv.skip(i as int)),
        decreases ls@.len() - i,
    {
        assert(lv.skip(i as int)[0] == ls@[i as int]@);
        assert(lv.skip(i as int).skip(1) =~= lv.skip(i + 1));
        if text::starts_with_chars(&ls[i], &pre) {
            let rest = text::sub_chars(&ls[i], 6, ls[i].len());
            assert(rest@ =~= ls@[i as int]@.skip(6));
            return Some(text::from_chars(&text::trim_chars(&rest)));
        }
        i += 1;
    }
    None
}

/// Whether a position update is written to the store: every thirty
/// seconds.
pub fn checkpoint_due(elapsed_secs: u64) -> (r: bool)
    ensures
        r == (elapsed_secs >= 30),
{
    elapsed_secs >= 30
}

/// A skippable segment of an episode.
#[derive(Debug, Clone, Copy, PartialEq, Eq, Structural)]
pub enum Segment {
    Intro,
    Outro,
}

/// The segment a skip-time type names: `op` and `mixed-op` are the intro,
/// `ed` and `mixed-ed` the outro; other types name none.
pub fn segment_of(skip_type: &str) -> (r: Option<Segment>)
    ensures
        r == if skip_type@ == "op"@ || skip_type@ == "mixed-op"@ {
            Some(Segment::Intro)
        } else if skip_type@ == "ed"@ || skip_type@ == "mixed-ed"@ {
            Some(Segment::Outro)
        } else {
            None
        },
{
    let t = text::to_chars(skip_type);
    if text::eq_chars(&t, &text::to_chars("op")) || text::eq_chars(&t, &text::to_chars("mixed-op")) {
        Some(Segment::Intro)
    } else if text::eq_chars(&t, &text::to_chars("ed")) || text::eq_chars(
        &t,
        &text::to_chars("mixed-ed"),
    ) {
        Some(Segment::Outro)
    } else {
        None
    }
}

/// The segment a skip-time type names, as `segment_of` gives it.
pub open spec fn segment_named(t: Seq<char>) -> Option<Segment> {
    if t == "op"@ || t == "mixed-op"@ {
        Some(Segment::Intro)
    } else if t == "ed"@ || t == "mixed-ed"@ {
        Some(Segment::Outro)
    } else {
        None
    }
}

/// The skip type of a skip-time entry: its `skipType` text, or empty.
pub open spec fn skip_type_of(e: Json) -> Seq<char> {
    match json::as_str(json::get(e, "skipType"@)) {
        Some(t) => t,
        None => Seq::empty(),
    }
}

/// The start and end of a skip-time entry: the texts of `interval.startTime`
/// and `interval.endTime`, when both are numbers.
pub open spec fn interval_of(e: Json) -> Option<(Seq<char>, Seq<char>)> {
    let iv = json::get(e, "interval"@);
    match (json::lookup(iv, "startTime"@), json::lookup(iv, "endTime"@)) {
        (Some(Json::Number(start)), Some(Json::Number(end))) => Some((start@, end@)),
        _ => None,
    }
}

/// The interval of the first entry that names the segment and has a start
/// and an end.
pub open spec fn first_pick(entries: Seq<Json>, seg: Segment) -> Option<(Seq<char>, Seq<char>)>
    decreases entries.len(),
{
    if entries.len() == 0 {
        None
    } else if segment_named(skip_type_of(entries[0])) == Some(seg) && interval_of(entries[0]) is Some {
        interval_of(entries[0])
    } else {
        first_pick(entries.skip(1), seg)
    }
}

proof fn lemma_first_pick_at(entries: Seq<Json>, seg: Segment, k: int)
    requires
        0 <= k < entries.len(),
        segment_named(skip_type_of(entries[k])) == Some(seg),
        interval_of(entries[k]) is Some,
        forall|j: int|
            #![trigger entries[j]]
            0 <= j < k ==> !(segment_named(skip_type_of(entries[j])) == Some(seg) && interval_of(
                entries[j],
            ) is Some),
    ensures
        first_pick(entries, seg) == interval_of(entries[k]),
    decreases k,
{
    if k > 0 {
        let rest = entries.skip(1);
        assert(entries[0] == entries[0]);
        assert forall|j: int| #![trigger rest[j]] 0 <= j < k - 1 implies !(segment_named(
            skip_type_of(rest[j]),
        ) == Some(seg) && interval_of(rest[j]) is Some) by {
            assert(rest[j] == entries[j + 1]);
        }
        assert(rest[k - 1] == entries[k]);
        lemma_first_pick_at(rest, seg, k - 1);
    }
}

proof fn lemma_first_pick_none(entries: Seq<Json>, seg: Segment)
    requires
        forall|j: int|
            #![trigger entries[j]]
            0 <= j < entries.len() ==> !(segment_named(skip_type_of(entries[j])) == Some(seg)
                && interval_of(entries[j]) is Some),
    ensures
        first_pick(entries, seg) is None,
    decreases entries.len(),
{
    if entries.len() > 0 {
        let rest = entries.skip(1);
        assert(entries[0] == entries[0]);
        assert forall|j: int| #![trigger rest[j]] 0 <= j < rest.len() implies !(segment_named(
            skip_type_of(rest[j]),
        ) == Some(seg) && interval_of(rest[j]) is Some) by {
            assert(rest[j] == entries[j + 1]);
        }
        lemma_first_pick_none(rest, seg);
    }
}

/// The outro of a reply that was found is the interval of the first result
/// whose `skipType` is `ed` or `mixed-ed` and whose `interval.startTime` and
/// `interval.endTime` are numbers, as the texts of those numbers.
pub proof fn lemma_outro_is_first_ending(
    resp: Json,
    results: Seq<Json>,
    k: int,
    start: String,
    end: String,
)
    requires
        json::get(resp, "found"@) == Some(Json::Bool(true)),
        json::as_array(json::get(resp, "results"@)) == Some(results),
        0 <= k < results.len(),
        json::as_str(json::get(results[k], "skipType"@)) == Some("ed"@) || json::as_str(
            json::get(results[k], "skipType"@),
        ) == Some("mixed-ed"@),
        json::lookup(json::get(results[k], "interval"@), "startTime"@) == Some(Json::Number(start)),
        json::lookup(json::get(results[k], "interval"@), "endTime"@) == Some(Json::Number(end)),
        forall|j: int|
            #![trigger results[j]]
            0 <= j < k ==> !((json::as_str(json::get(results[j], "skipType"@)) == Some("ed"@)
                || json::as_str(json::get(results[j], "skipType"@)) == Some("mixed-ed"@))
                && (json::lookup(json::get(results[j], "interval"@), "startTime"@) matches Some(
                Json::Number(_),
            )) && (json::lookup(json::get(results[j], "interval"@), "endTime"@) matches Some(
                Json::Number(_),
            ))),
    ensures
        skip_picks_of(resp).1 == Some((start@, end@)),
{
    reveal_strlit("op");
    reveal_strlit("mixed-op");
    reveal_strlit("ed");
    reveal_strlit("mixed-ed");
    assert forall|j: int| #![trigger results[j]] 0 <= j < k implies !(segment_named(
        skip_type_of(results[j]),
    ) == Some(Segment::Outro) && interval_of(results[j]) is Some) by {
        if segment_named(skip_type_of(results[j])) == Some(Segment::Outro) {
            assert(skip_type_of(results[j]) == "ed"@ || skip_type_of(results[j]) == "mixed-ed"@);
            assert(skip_type_of(results[j]).len() > 0);
        }
    }
    assert("ed"@[0] != "op"@[0]);
    assert("mixed-ed"@[6] != "mixed-op"@[6]);
    assert("ed"@ != "op"@ && "ed"@ != "mixed-op"@ && "mixed-ed"@ != "op"@ && "mixed-ed"@ != "mixed-op"@);
    lemma_first_pick_at(results, Segment::Outro, k);
}

/// A reply that was found but has no result whose `skipType` is `ed` or
/// `mixed-ed` with numeric start and end gives no outro.
pub proof fn lemma_no_ending_no_outro(resp: Json, results: Seq<Json>)
    requires
        json::as_array(json::get(resp, "results"@)) == Some(results),
        forall|j: int|
            #![trigger results[j]]
            0 <= j < results.len() ==> !((json::as_str(json::get(results[j], "skipType"@)) == Some(
                "ed"@,
            ) || json::as_str(json::get(results[j], "skipType"@)) == Some("mixed-ed"@))
                && (json::lookup(json::get(results[j], "interval"@), "startTime"@) matches Some(
                Json::Number(_),
            )) && (json::lookup(json::get(results[j], "interval"@), "endTime"@) matches Some(
                Json::Number(_),
            ))),
    ensures
        skip_picks_of(resp).1 is None,
{
    reveal_strlit("op");
    reveal_strlit("mixed-op");
    reveal_strlit("ed");
    reveal_strlit("mixed-ed");
    assert forall|j: int| #![trigger results[j]] 0 <= j < results.len() implies !(segment_named(
        skip_type_of(results[j]),
    ) == Some(Segment::Outro) && interval_of(results[j]) is Some) by {
        if segment_named(skip_type_of(results[j])) == Some(Segment::Outro) {
            assert(skip_type_of(results[j]) == "ed"@ || skip_type_of(results[j]) == "mixed-ed"@);
            assert(skip_type_of(results[j]).len() > 0);
        }
    }
    lemma_first_pick_none(results, Segment::Outro);
}

/// The intro of a reply that was found is the interval of the first result
/// whose `skipType` is `op` or `mixed-op` and whose `interval.startTime` and
/// `interval.endTime` are numbers, as the texts of those numbers.
pub proof fn lemma_intro_is_first_opening(
    resp: Json,
    results: Seq<Json>,
    k: int,
    start: String,
    end: String,
)
    requires
        json::get(resp, "found"@) == Some(Json::Bool(true)),
        json::as_array(json::get(resp, "results"@)) == Some(results),
        0 <= k < results.len(),
        json::as_str(json::get(results[k], "skipType"@)) == Some("op"@) || json::as_str(
            json::get(results[k], "skipType"@),
        ) == Some("mixed-op"@),
        json::lookup(json::get(results[k], "interval"@), "startTime"@) == Some(Json::Number(start)),
        json::lookup(json::get(results[k], "interval"@), "endTime"@) == Some(Json::Number(end)),
        forall|j: int|
            #![trigger results[j]]
            0 <= j < k ==> !((json::as_str(json::get(results[j], "skipType"@)) == Some("op"@)
                || json::as_str(json::get(results[j], "skipType"@)) == Some("mixed-op"@))
                && (json::lookup(json::get(results[j], "interval"@), "startTime"@) matches Some(
                Json::Number(_),
            )) && (json::lookup(json::get(results[j], "interval"@), "endTime"@) matches Some(
                Json::Number(_),
            ))),
    ensures
        skip_picks_of(resp).0 == Some((start@, end@)),
{
    reveal_strlit("op");
    reveal_strlit("mixed-op");
    reveal_strlit("ed");
    reveal_strlit("mixed-ed");
    assert forall|j: int| #![trigger results[j]] 0 <= j < k implies !(segment_named(
        skip_type_of(results[j]),
    ) == Some(Segment::Intro) && interval_of(results[j]) is Some) by {
        if segment_named(skip_type_of(results[j])) == Some(Segment::Intro) {
            assert(skip_type_of(results[j]) == "op"@ || skip_type_of(results[j]) == "mixed-op"@);
            assert(skip_type_of(results[j]).len() > 0);
        }
    }
    lemma_first_pick_at(results, Segment::Intro, k);
}

/// A reply that was found but has no result whose `skipType` is `op` or
/// `mixed-op` with numeric start and end gives no intro.
pub proof fn lemma_no_opening_no_intro(resp: Json, results: Seq<Json>)
    requires
        json::as_array(json::get(resp, "results"@)) == Some(results),
        forall|j: int|
            #![trigger results[j]]
            0 <= j < results.len() ==> !((json::as_str(json::get(results[j], "skipType"@)) == Some(
                "op"@,
            ) || json::as_str(json::get(results[j], "skipType"@)) == Some("mixed-op"@))
                && (json::lookup(json::get(results[j], "interval"@), "startTime"@) matches Some(
                Json::Number(_),
            )) && (json::lookup(json::get(results[j], "interval"@), "endTime"@) matches Some(
                Json::Number(_),
            ))),
    ensures
        skip_picks_of(resp).0 is None,
{
    reveal_strlit("op");
    reveal_strlit("mixed-op");
    reveal_strlit("ed");
    reveal_strlit("mixed-ed");
    assert forall|j: int| #![trigger results[j]] 0 <= j < results.len() implies !(segment_named(
        skip_type_of(results[j]),
    ) == Some(Segment::Intro) && interval_of(results[j]) is Some) by {
        if segment_named(skip_type_of(results[j])) == Some(Segment::Intro) {
            assert(skip_type_of(results[j]) == "op"@ || skip_type_of(results[j]) == "mixed-op"@);
            assert(skip_type_of(results[j]).len() > 0);
        }
    }
    lemma_first_pick_none(results, Segment::Intro);
}

/// A reply whose `found` is not `true` gives neither an intro nor an outro.
pub proof fn lemma_not_found_no_picks(resp: Json)
    requires
        json::get(resp, "found"@) != Some(Json::Bool(true)),
    ensures
        skip_picks_of(resp) == (None::<(Seq<char>, Seq<char>)>, None::<(Seq<char>, Seq<char>)>),
{
}

/// The intro and the outro an AniSkip reply gives: none unless `found` is
/// true and `results` is an array; otherwise the first intro (`op` or
/// `mixed-op`) and the first outro (`ed` or `mixed-ed`) entry whose start
/// and end are both numbers, as the texts of those numbers.
pub open spec fn skip_picks_of(resp: Json) -> (
    Option<(Seq<char>, Seq<char>)>,
    Option<(Seq<char>, Seq<char>)>,
) {
    if json::get(resp, "found"@) == Some(Json::Bool(true)) {
        match json::as_array(json::get(resp, "results"@)) {
            Some(entries) => (first_pick(entries, Segment::Intro), first_pick(entries, Segment::Outro)),
            None => (None, None),
        }
    } else {
        (None, None)
    }
}

/// The texts of a picked interval.
pub open spec fn pick_view(p: Option<(String, String)>) -> Option<(Seq<char>, Seq<char>)> {
    match p {
        Some((a, b)) => Some((a@, b@)),
        None => None,
    }
}

fn interval_texts(e: &Json) -> (r: Option<(String, String)>)
    ensures
        pick_view(r) == interval_of(*e),
{
    let iv = e.get("interval");
    match (json::get_in(iv, "startTime"), json::get_in(iv, "endTime")) {
        (Some(Json::Number(start)), Some(Json::Number(end))) => Some(
            (text::from_chars(&text::to_chars(start.as_str())), text::from_chars(&text::to_chars(end.as_str()))),
        ),
        _ => None,
    }
}

fn skip_type_text(e: &Json) -> (r: String)
    ensures
        r@ == skip_type_of(*e),
{
    match e.get("skipType") {
        Some(v) => match v.as_str() {
            Some(t) => text::from_chars(&text::to_chars(t)),
            None => String::new(),
        },
        None => String::new(),
    }
}

/// The start and end texts of the intro and the outro an AniSkip reply
/// gives.
pub fn skip_picks(resp: &Json) -> (r: (Option<(String, String)>, Option<(String, String)>))
    ensures
        (pick_view(r.0), pick_view(r.1)) == skip_picks_of(*resp),
{
    proof {
        reveal_strlit("op");
        reveal_strlit("mixed-op");
        reveal_strlit("ed");
        reveal_strlit("mixed-ed");
    }
    let found = match resp.get("found") {
        Some(Json::Bool(b)) => *b,
        _ => false,
    };
    if !found {
        return (None, None);
    }
    let entries = match json::get_in(Some(resp), "results") {
        Some(v) => match v.as_array() {
            Some(a) => a,
            None => {
                return (None, None);
            },
        },
        None => {
            return (None, None);
        },
    };
    let ghost all = entries@;
    let mut intro: Option<(String, String)> = None;
    let mut outro: Option<(String, String)> = None;
    let mut i: usize = 0;
    assert(all.skip(0) =~= all);
    while i < entries.len()
        invariant
            all == entries@,
            i <= all.len(),
            intro is Some ==> pick_view(intro) == first_pick(all, Segment::Intro),
            intro is None ==> first_pick(all, Segment::Intro) == first_pick(all.skip(i as int), Segment::Intro),
            outro is Some ==> pick_view(outro) == first_pick(all, Segment::Outro),
            outro is None ==> first_pick(all, Segment::Outro) == first_pick(all.skip(i as int), Segment::Outro),
        decreases all.len() - i,
    {
        let e = &entries[i];
        assert(all.skip(i as int)[0] == *e);
        assert(all.skip(i as int).skip(1) =~= all.skip(i + 1));
        let seg = segment_of(skip_type_text(e).as_str());
        let iv = interval_texts(e);
        if iv.is_some() {
            match seg {
                Some(Segment::Intro) => {
                    if intro.is_none() {
                        intro = iv;
                    }
                },
                Some(Segment::Outro) => {
                    if outro.is_none() {
                        outro = iv;
                    }
                },
                None => {},
            }
        }
        i += 1;
    }
    proof {
        assert(all.skip(all.len() as int) =~= Seq::<Json>::empty());
    }
    (intro, outro)
}

} // verus!
