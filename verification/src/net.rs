//! Fetching through the challenge solver: request URLs, the domain that
//! session cookies are kept under, recognising challenge pages, unwrapping
//! JSON that arrives inside an HTML page, and the order in which the fetch
//! tiers are tried.

use vstd::prelude::*;
use vstd::string::StringSliceAdditionalSpecFns;
use vstd::utf8::encode_utf8;
use crate::player::links::between;
use crate::text;
use crate::json::{self, Json};

verus! {

// ── Request URLs ─────────────────────────────────────────────────────────────

/// A byte that URL encoding leaves as it is: an ASCII letter or digit, or
/// one of `-`, `.`, `_`, `~`.
pub open spec fn url_safe_byte(b: u8) -> bool {
    (0x30 <= b && b <= 0x39) || (0x41 <= b && b <= 0x5a) || (0x61 <= b && b <= 0x7a) || b == 0x2d
        || b == 0x2e || b == 0x5f || b == 0x7e
}

/// An upper-case hexadecimal digit for `d < 16`.
pub open spec fn hex_upper(d: u8) -> char {
    if d < 10 {
        (0x30 + d) as char
    } else {
        (0x41 - 10 + d) as char
    }
}

/// The bytes percent-encoded: safe bytes as they are, every other byte as
/// `%` and two upper-case hexadecimal digits.
pub open spec fn percent_encoded(b: Seq<u8>) -> Seq<char>
    decreases b.len(),
{
    if b.len() == 0 {
        Seq::empty()
    } else {
        let x = b.last();
        percent_encoded(b.drop_last()) + if url_safe_byte(x) {
            seq![x as char]
        } else {
            seq!['%', hex_upper(x / 16), hex_upper(x % 16)]
        }
    }
}

/// Calls `urlencoding::encode`, which percent-encodes every UTF-8 byte of
/// the text except ASCII letters, digits and `-`, `.`, `_`, `~`, with
/// upper-case hexadecimal digits.
#[verifier::external_body]
fn url_encode(s: &str) -> (r: String)
    ensures
        r@ == percent_encoded(s.spec_bytes()),
{
    urlencoding::encode(s).into_owned()
}

// ── The MyAnimeList id of a title ────────────────────────────────────────────

/// The Jikan search for the first anime matching a title.
pub fn jikan_search_url(title: &str) -> (r: String)
    ensures
        r@ == "https://api.jikan.moe/v4/anime?q="@ + percent_encoded(title.spec_bytes())
            + "&limit=1&sfw=false"@,
{
    let mut out = text::to_chars("https://api.jikan.moe/v4/anime?q=");
    text::extend_chars(&mut out, &text::to_chars(url_encode(title).as_str()));
    text::extend_chars(&mut out, &text::to_chars("&limit=1&sfw=false"));
    text::from_chars(&out)
}

/// The value of a number's text when it is a whole number from 0 to
/// `u64::MAX` written in decimal digits.
pub open spec fn u64_text(t: Seq<char>) -> Option<nat> {
    if t.len() > 0 && t[0] == '+' {
        None
    } else {
        text::parse_unsigned(t, 10, u64::MAX as nat)
    }
}

/// The MyAnimeList id a Jikan search gives: `data[0].mal_id` when it is a
/// whole number within `u64`, cut to its low 32 bits.
pub open spec fn mal_id_in(resp: Json) -> Option<u32> {
    match json::as_array(json::get(resp, "data"@)) {
        Some(items) => if items.len() > 0 {
            match json::get(items[0], "mal_id"@) {
                Some(Json::Number(t)) => match u64_text(t@) {
                    Some(v) => Some((v % 0x1_0000_0000) as u32),
                    None => None,
                },
                _ => None,
            }
        } else {
            None
        },
        None => None,
    }
}

/// The MyAnimeList id a Jikan search reply gives.
pub fn mal_id_of(resp: &Json) -> (r: Option<u32>)
    ensures
        r == mal_id_in(*resp),
{
    let items = match json::get_in(Some(resp), "data") {
        Some(v) => match v.as_array() {
            Some(a) => a,
            None => {
                return None;
            },
        },
        None => {
            return None;
        },
    };
    if items.len() == 0 {
        return None;
    }
    match items[0].get("mal_id") {
        Some(Json::Number(t)) => {
            let c = text::to_chars(t.as_str());
            if c.len() > 0 && c[0] == '+' {
                return None;
            }
            match text::parse_unsigned_chars(&c, 10, 0xffff_ffff_ffff_ffff) {
                Some(v) => Some((v % 0x1_0000_0000) as u32),
                None => None,
            }
        },
        _ => None,
    }
}

/// The query pairs `key=value`, both percent-encoded, joined by `&`.
pub open spec fn query_string(q: Seq<(Seq<u8>, Seq<u8>)>) -> Seq<char>
    decreases q.len(),
{
    if q.len() == 0 {
        Seq::empty()
    } else {
        let pair = percent_encoded(q.last().0) + "="@ + percent_encoded(q.last().1);
        if q.len() == 1 {
            pair
        } else {
            query_string(q.drop_last()) + "&"@ + pair
        }
    }
}

pub open spec fn query_bytes(q: Seq<(String, String)>) -> Seq<(Seq<u8>, Seq<u8>)> {
    q.map_values(|p: (String, String)| (encode_utf8(p.0@), encode_utf8(p.1@)))
}

/// A request URL: the base alone without query pairs, else the base, `?`
/// and the query string.
pub open spec fn request_url(base: Seq<char>, q: Seq<(Seq<u8>, Seq<u8>)>) -> Seq<char> {
    if q.len() == 0 {
        base
    } else {
        base + "?"@ + query_string(q)
    }
}

/// The URL for a request with query pairs.
pub fn build_url(base: &str, query: &[(String, String)]) -> (r: String)
    ensures
        r@ == request_url(base@, query_bytes(query@)),
{
    proof {
        reveal_strlit("=");
        reveal_strlit("&");
        reveal_strlit("?");
    }
    let ghost qb = query_bytes(query@);
    let mut out = text::to_chars(base);
    if query.len() == 0 {
        return text::from_chars(&out);
    }
    text::extend_chars(&mut out, &text::to_chars("?"));
    let ghost prefix = out@;
    let mut i: usize = 0;
    while i < query.len()
        invariant
            i <= query@.len(),
            qb == query_bytes(query@),
            prefix == base@ + "?"@,
            out@ == prefix + query_string(qb.take(i as int)),
        decreases query@.len() - i,
    {
        let ghost before = out@;
        if i > 0 {
            text::extend_chars(&mut out, &text::to_chars("&"));
        }
        text::extend_chars(&mut out, &text::to_chars(url_encode(query[i].0.as_str()).as_str()));
        text::extend_chars(&mut out, &text::to_chars("="));
        text::extend_chars(&mut out, &text::to_chars(url_encode(query[i].1.as_str()).as_str()));
        proof {
            let t = qb.take(i + 1);
            assert(t.drop_last() =~= qb.take(i as int));
            assert(t.last() == qb[i as int]);
            if i == 0 {
                assert(query_string(qb.take(0)) =~= Seq::<char>::empty());
            }
            assert(out@ =~= prefix + query_string(t));
        }
        i += 1;
    }
    assert(qb.take(query@.len() as int) =~= qb);
    text::from_chars(&out)
}

// ── Domains ──────────────────────────────────────────────────────────────────

/// The host a URL names: the URL without leading `https://` and `http://`,
/// up to its first `/`.
pub open spec fn domain_of(url: Seq<char>) -> Seq<char> {
    text::before_first(
        text::trim_start_matches(text::trim_start_matches(url, "https://"@), "http://"@),
        "/"@,
    )
}

/// The domain a URL's session cookies are kept under.
pub fn extract_domain(url: &str) -> (r: String)
    ensures
        r@ == domain_of(url@),
{
    let a = text::trim_start_matches_chars(&text::to_chars(url), &text::to_chars("https://"));
    let b = text::trim_start_matches_chars(&a, &text::to_chars("http://"));
    let d = match text::find_chars(&b, &text::to_chars("/")) {
        Some(i) => {
            proof {
                text::lemma_find_from(b@, "/"@, 0);
            }
            text::sub_chars(&b, 0, i)
        },
        None => text::sub_chars(&b, 0, b.len()),
    };
    assert(d@ =~= domain_of(url@));
    text::from_chars(&d)
}

// ── Challenge pages ──────────────────────────────────────────────────────────

/// A response body that is a bot-challenge page: in ASCII lower case it
/// contains a challenge marker.
pub open spec fn is_challenge(body: Seq<char>) -> bool {
    let low = text::to_ascii_lowercase(body);
    text::contains(low, "cf-chl"@) || text::contains(low, "captcha"@) || text::contains(
        low,
        "attention required"@,
    ) || text::contains(low, "/cdn-cgi/challenge-platform"@) || text::contains(
        low,
        "just a moment"@,
    ) || text::contains(low, "verifying you are human"@) || text::contains(low, "please wait"@)
}

/// Whether a response body is a bot-challenge page.
pub fn looks_like_bot_challenge(body: &str) -> (r: bool)
    ensures
        r == is_challenge(body@),
{
    let low = text::to_ascii_lowercase_chars(&text::to_chars(body));
    text::contains_chars(&low, &text::to_chars("cf-chl")) || text::contains_chars(
        &low,
        &text::to_chars("captcha"),
    ) || text::contains_chars(&low, &text::to_chars("attention required"))
        || text::contains_chars(&low, &text::to_chars("/cdn-cgi/challenge-platform"))
        || text::contains_chars(&low, &text::to_chars("just a moment"))
        || text::contains_chars(&low, &text::to_chars("verifying you are human"))
        || text::contains_chars(&low, &text::to_chars("please wait"))
}

// ── JSON inside HTML ─────────────────────────────────────────────────────────

/// The content of a page's `<body>` element when the trimmed rest of the page
/// after `<body>` ends in `</body></html>`, trimmed.
pub open spec fn body_content(page: Seq<char>) -> Option<Seq<char>> {
    match text::find(page, "<body>"@) {
        Some(i) => {
            let t = text::trim(page.skip(i + 6));
            if text::ends_with(t, "</body></html>"@) {
                Some(text::trim(t.take(t.len() - 14)))
            } else {
                None
            }
        },
        None => None,
    }
}

/// The JSON a response carries: the body itself unless it starts (after
/// whitespace) with `<`; for a page, the content of its first `<pre>`
/// element, else the content of its `<body>`, else the page.
pub open spec fn unwrapped_json(body: Seq<char>) -> Seq<char> {
    if !text::starts_with(text::trim_start(body), "<"@) {
        body
    } else {
        match between(body, "<pre>"@, "</pre>"@) {
            Some(c) => c,
            None => match body_content(body) {
                Some(c) => c,
                None => body,
            },
        }
    }
}

fn trim_start_exec(s: &[char]) -> (r: Vec<char>)
    ensures
        r@ == text::trim_start(s@),
{
    let mut i: usize = 0;
    assert(s@.skip(0) =~= s@);
    while i < s.len() && text::is_whitespace_char(s[i])
        invariant
            i <= s@.len(),
            text::trim_start(s@) == text::trim_start(s@.skip(i as int)),
        decreases s@.len() - i,
    {
        assert(s@.skip(i as int).skip(1) =~= s@.skip(i + 1));
        i += 1;
    }
    text::sub_chars(s, i, s.len())
}

/// The JSON inside a response that may arrive wrapped in an HTML page.
pub fn extract_json_from_html(body: &str) -> (r: String)
    ensures
        r@ == unwrapped_json(body@),
{
    proof {
        reveal_strlit("<body>");
        reveal_strlit("</body></html>");
    }
    let b = text::to_chars(body);
    if !text::starts_with_chars(&trim_start_exec(&b), &text::to_chars("<")) {
        return text::from_chars(&b);
    }
    match crate::player::links::between_chars(&b, &text::to_chars("<pre>"), &text::to_chars("</pre>")) {
        Some(c) => {
            return text::from_chars(&c);
        },
        None => {},
    }
    match text::find_chars(&b, &text::to_chars("<body>")) {
        Some(i) => {
            proof {
                text::lemma_find_from(b@, "<body>"@, 0);
            }
            let after = text::sub_chars(&b, i + 6, b.len());
            assert(after@ =~= b@.skip(i + 6));
            let t = text::trim_chars(&after);
            if text::ends_with_chars(&t, &text::to_chars("</body></html>")) {
                let inner = text::sub_chars(&t, 0, t.len() - 14);
                assert(inner@ =~= t@.take(t@.len() - 14));
                return text::from_chars(&text::trim_chars(&inner));
            }
        },
        None => {},
    }
    text::from_chars(&b)
}

// ── Solver settings ──────────────────────────────────────────────────────────

/// The solver's time budget in milliseconds: the configured value when it is
/// an unsigned 64-bit number, else one minute.
pub open spec fn solver_timeout_ms(setting: Option<Seq<char>>) -> nat {
    match setting {
        Some(s) => match text::parse_unsigned(s, 10, u64::MAX as nat) {
            Some(v) => v,
            None => 60000,
        },
        None => 60000,
    }
}

/// The solver's time budget for an optional configured value.
pub fn solver_timeout(setting: Option<&str>) -> (r: u64)
    ensures
        r as nat == solver_timeout_ms(
            match setting {
                Some(s) => Some(s@),
                None => None,
            },
        ),
{
    match setting {
        Some(s) => match text::parse_unsigned_chars(&text::to_chars(s), 10, 0xffff_ffff_ffff_ffff) {
            Some(v) => v,
            None => 60000,
        },
        None => 60000,
    }
}

// ── The order of the fetch tiers ─────────────────────────────────────────────

/// Where a fetch stands.
#[derive(PartialEq, Eq, Structural, Clone, Copy, Debug)]
pub enum FetchStage {
    /// Nothing asked yet.
    Start,
    /// The solver was asked, with the saved session cookies.
    WithCookies,
    /// The solver was asked again, with a fresh session.
    Fresh,
}

/// What came back from the last thing done.
pub enum FetchReply {
    /// Whether the solver service is up.
    SolverUp(bool),
    /// The solver fetched a page.
    Page(String),
    /// The solver failed.
    Failed,
}

/// What to do next.
pub enum FetchAction {
    /// Ask whether the solver service is up.
    CheckSolver,
    /// Fetch through the solver with the saved session cookies.
    FetchWithCookies,
    /// Fetch through the solver with a fresh session.
    FetchFresh,
    /// Keep the session's cookies and answer with this text.
    Answer(String),
    /// The solver could not get past the challenge.
    GiveUp,
    /// The solver is not running: fetch with a visible browser.
    UseBrowser,
}

/// The next stage and action of a fetch, after a reply at a stage. A page
/// that is not a challenge is answered with the JSON it carries; a challenge
/// under the saved cookies is retried once with a fresh session; a failure
/// with the saved cookies, or anything but a clean page on the fresh try,
/// gives up.
pub fn fetch_step(stage: FetchStage, reply: Option<FetchReply>) -> (r: (FetchStage, FetchAction))
    ensures
        match (stage, reply) {
            (FetchStage::Start, None) => r.0 == FetchStage::Start && r.1 is CheckSolver,
            (FetchStage::Start, Some(FetchReply::SolverUp(true))) => r.0 == FetchStage::WithCookies
                && r.1 is FetchWithCookies,
            (FetchStage::Start, Some(FetchReply::SolverUp(false))) => r.0 == FetchStage::Start
                && r.1 is UseBrowser,
            (FetchStage::WithCookies, Some(FetchReply::Page(p))) => if is_challenge(p@) {
                r.0 == FetchStage::Fresh && r.1 is FetchFresh
            } else {
                r.0 == FetchStage::WithCookies && (r.1 matches FetchAction::Answer(a) && a@
                    == unwrapped_json(p@))
            },
            (FetchStage::Fresh, Some(FetchReply::Page(p))) => r.0 == FetchStage::Fresh && (if is_challenge(p@) {
                r.1 is GiveUp
            } else {
                r.1 matches FetchAction::Answer(a) && a@ == unwrapped_json(p@)
            }),
            _ => r.0 == stage && r.1 is GiveUp,
        },
{
    match (stage, reply) {
        (FetchStage::Start, None) => (FetchStage::Start, FetchAction::CheckSolver),
        (FetchStage::Start, Some(FetchReply::SolverUp(true))) => (
            FetchStage::WithCookies,
            FetchAction::FetchWithCookies,
        ),
        (FetchStage::Start, Some(FetchReply::SolverUp(false))) => (
            FetchStage::Start,
            FetchAction::UseBrowser,
        ),
        (FetchStage::WithCookies, Some(FetchReply::Page(p))) => {
            if looks_like_bot_challenge(p.as_str()) {
                (FetchStage::Fresh, FetchAction::FetchFresh)
            } else {
                (FetchStage::WithCookies, FetchAction::Answer(extract_json_from_html(p.as_str())))
            }
        },
        (FetchStage::Fresh, Some(FetchReply::Page(p))) => {
            if looks_like_bot_challenge(p.as_str()) {
                (FetchStage::Fresh, FetchAction::GiveUp)
            } else {
                (FetchStage::Fresh, FetchAction::Answer(extract_json_from_html(p.as_str())))
            }
        },
        (s, _) => (s, FetchAction::GiveUp),
    }
}

} // verus!
