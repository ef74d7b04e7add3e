//! The providers an episode-source response lists: read from the parsed
//! response when it parses, else scanned out of its text.

use vstd::prelude::*;
use crate::json::{self, Json, get, lookup, as_str, as_array, deref};
use crate::player::links::between;
use crate::text;

verus! {

/// A provider: its name and its encoded path.
pub type Provider = (String, String);

pub open spec fn providers_view(v: Seq<Provider>) -> Seq<(Seq<char>, Seq<char>)> {
    v.map_values(|p: Provider| (p.0@, p.1@))
}

// ── From the parsed response ─────────────────────────────────────────────────

/// The provider one source entry names: its `sourceName`, and its
/// `sourceUrl` without the `--` that marks an encoded path. `None` when
/// either is missing or the URL is not encoded.
pub open spec fn entry_provider(e: Json) -> Option<(Seq<char>, Seq<char>)> {
    match (as_str(get(e, "sourceName"@)), as_str(get(e, "sourceUrl"@))) {
        (Some(n), Some(u)) => if text::starts_with(u, "--"@) {
            Some((n, u.skip(2)))
        } else {
            None
        },
        _ => None,
    }
}

/// The providers of the source entries, in order.
pub open spec fn entries_providers(es: Seq<Json>) -> Seq<(Seq<char>, Seq<char>)>
    decreases es.len(),
{
    if es.len() == 0 {
        Seq::empty()
    } else {
        entries_providers(es.drop_last()) + match entry_provider(es.last()) {
            Some(p) => seq![p],
            None => Seq::empty(),
        }
    }
}

/// The providers of entries `a` followed by entries `b` are those of `a`
/// followed by those of `b`: no entry's provider is lost or repeated.
pub proof fn lemma_entries_providers_append(a: Seq<Json>, b: Seq<Json>)
    ensures
        entries_providers(a + b) == entries_providers(a) + entries_providers(b),
    decreases b.len(),
{
    if b.len() == 0 {
        assert(a + b =~= a);
        assert(entries_providers(a) + entries_providers(b) =~= entries_providers(a));
    } else {
        lemma_entries_providers_append(a, b.drop_last());
        assert((a + b).drop_last() =~= a + b.drop_last());
        assert((a + b).last() == b.last());
        let tail = match entry_provider(b.last()) {
            Some(p) => seq![p],
            None => Seq::<(Seq<char>, Seq<char>)>::empty(),
        };
        assert(entries_providers(a) + entries_providers(b.drop_last()) + tail =~= entries_providers(a)
            + (entries_providers(b.drop_last()) + tail));
    }
}

/// An entry with a string `sourceName` and a string `sourceUrl` that starts
/// with `--` adds one provider after those of the entries before it: the
/// name, and the URL without its `--`.
pub proof fn lemma_entry_adds_provider(es: Seq<Json>, e: Json, name: Seq<char>, url: Seq<char>)
    requires
        as_str(get(e, "sourceName"@)) == Some(name),
        as_str(get(e, "sourceUrl"@)) == Some(url),
        url.len() >= 2,
        url[0] == '-',
        url[1] == '-',
    ensures
        entries_providers(es.push(e)) == entries_providers(es).push((name, url.skip(2))),
{
    reveal_strlit("--");
    assert(url.subrange(0, 2) =~= "--"@);
    assert(es.push(e).drop_last() =~= es);
    assert(entries_providers(es) + seq![(name, url.skip(2))] =~= entries_providers(es).push(
        (name, url.skip(2)),
    ));
}

/// Any other entry (no string `sourceName`, no string `sourceUrl`, or a URL
/// that does not start with `--`) adds no provider.
pub proof fn lemma_entry_adds_nothing(es: Seq<Json>, e: Json)
    requires
        !(as_str(get(e, "sourceName"@)) is Some && (as_str(get(e, "sourceUrl"@)) matches Some(u) && u.len()
            >= 2 && u[0] == '-' && u[1] == '-')),
    ensures
        entries_providers(es.push(e)) == entries_providers(es),
{
    reveal_strlit("--");
    assert(es.push(e).drop_last() =~= es);
    match (as_str(get(e, "sourceName"@)), as_str(get(e, "sourceUrl"@))) {
        (Some(n), Some(u)) => {
            if text::starts_with(u, "--"@) {
                assert(u.subrange(0, 2)[0] == u[0]);
                assert(u.subrange(0, 2)[1] == u[1]);
            }
        },
        _ => {},
    }
    assert(entries_providers(es) + Seq::<(Seq<char>, Seq<char>)>::empty() =~= entries_providers(es));
}

/// There are as many providers as entries with a string `sourceName` and a
/// string `sourceUrl` that starts with `--`.
pub proof fn lemma_providers_count(es: Seq<Json>)
    ensures
        entries_providers(es).len() == es.filter(
            |e: Json|
                as_str(get(e, "sourceName"@)) is Some && (as_str(get(e, "sourceUrl"@)) matches Some(u)
                    && u.len() >= 2 && u[0] == '-' && u[1] == '-'),
        ).len(),
    decreases es.len(),
{
    reveal(Seq::filter);
    let f = |e: Json|
        as_str(get(e, "sourceName"@)) is Some && (as_str(get(e, "sourceUrl"@)) matches Some(u) && u.len()
            >= 2 && u[0] == '-' && u[1] == '-');
    if es.len() > 0 {
        lemma_providers_count(es.drop_last());
        assert(es.drop_last().push(es.last()) =~= es);
        let e = es.last();
        if f(e) {
            let n = as_str(get(e, "sourceName"@)).unwrap();
            let u = as_str(get(e, "sourceUrl"@)).unwrap();
            lemma_entry_adds_provider(es.drop_last(), e, n, u);
        } else {
            lemma_entry_adds_nothing(es.drop_last(), e);
        }
    }
}

/// The encrypted payload (`data.tobeparsed`) of a response in the newer
/// format.
pub open spec fn payload(resp: Json) -> Option<Seq<char>> {
    as_str(lookup(get(resp, "data"@), "tobeparsed"@))
}

/// The source entries of a decrypted payload: `episode.sourceUrls`, else the
/// payload itself when it is an array, else `sourceUrls`.
pub open spec fn payload_entries(d: Json) -> Option<Seq<Json>> {
    match as_array(lookup(get(d, "episode"@), "sourceUrls"@)) {
        Some(a) => Some(a),
        None => match as_array(Some(d)) {
            Some(a) => Some(a),
            None => as_array(get(d, "sourceUrls"@)),
        },
    }
}

/// The source entries of a response: those of its decrypted payload when it
/// has one (`deciphered` being that payload, parsed), else
/// `data.episode.sourceUrls`.
pub open spec fn source_entries(resp: Json, deciphered: Option<Json>) -> Seq<Json> {
    if payload(resp) is Some {
        match deciphered {
            Some(d) => match payload_entries(d) {
                Some(a) => a,
                None => Seq::empty(),
            },
            None => Seq::empty(),
        }
    } else {
        match as_array(lookup(lookup(get(resp, "data"@), "episode"@), "sourceUrls"@)) {
            Some(a) => a,
            None => Seq::empty(),
        }
    }
}

// ── From the response text ───────────────────────────────────────────────────

/// The response text with braces turned into line breaks, `\u002F` into `/`
/// and backslashes removed.
pub open spec fn normalized(t: Seq<char>) -> Seq<char> {
    text::replace(
        text::replace(
            text::replace(text::replace(t, "{"@, "\n"@), "}"@, "\n"@),
            "\\u002F"@,
            "/"@,
        ),
        "\\"@,
        Seq::empty(),
    )
}

/// The provider a line of the normalized text names, if it names both an
/// encoded `sourceUrl` and a `sourceName`.
pub open spec fn line_provider(l: Seq<char>) -> Option<(Seq<char>, Seq<char>)> {
    match (between(l, "\"sourceUrl\":\"--"@, "\""@), between(l, "\"sourceName\":\""@, "\""@)) {
        (Some(u), Some(n)) => Some((n, u)),
        _ => None,
    }
}

pub open spec fn lines_providers(ls: Seq<Seq<char>>) -> Seq<(Seq<char>, Seq<char>)>
    decreases ls.len(),
{
    if ls.len() == 0 {
        Seq::empty()
    } else {
        lines_providers(ls.drop_last()) + match line_provider(ls.last()) {
            Some(p) => seq![p],
            None => Seq::empty(),
        }
    }
}

/// The providers found by scanning the response text line by line.
pub open spec fn text_providers(t: Seq<char>) -> Seq<(Seq<char>, Seq<char>)> {
    lines_providers(text::lines(normalized(t)))
}

/// The providers of an episode-source response: those of its parsed form
/// (`resp`, when the text parsed), or, when that gives none, those scanned
/// out of its text.
pub open spec fn episode_providers(
    t: Seq<char>,
    resp: Option<Json>,
    deciphered: Option<Json>,
) -> Seq<(Seq<char>, Seq<char>)> {
    let from_json = match resp {
        Some(j) => entries_providers(source_entries(j, deciphered)),
        None => Seq::empty(),
    };
    if from_json.len() > 0 {
        from_json
    } else {
        text_providers(t)
    }
}

// ── Executable ───────────────────────────────────────────────────────────────

/// The encrypted payload of a response, if it has one.
pub fn episode_payload(resp: &Json) -> (r: Option<String>)
    ensures
        r matches Some(s) ==> payload(*resp) == Some(s@),
        r is None ==> payload(*resp) is None,
{
    match json::get_in(resp.get("data"), "tobeparsed") {
        Some(v) => match v.as_str() {
            Some(s) => Some(text::from_chars(&text::to_chars(s))),
            None => None,
        },
        None => None,
    }
}

fn entry_provider_exec(e: &Json) -> (r: Option<Provider>)
    ensures
        r matches Some(p) ==> entry_provider(*e) == Some((p.0@, p.1@)),
        r is None ==> entry_provider(*e) is None,
{
    proof {
        reveal_strlit("--");
    }
    let name = match e.get("sourceName") {
        Some(v) => v.as_str(),
        None => None,
    };
    let url = match e.get("sourceUrl") {
        Some(v) => v.as_str(),
        None => None,
    };
    match (name, url) {
        (Some(n), Some(u)) => {
            let uc = text::to_chars(u);
            if text::starts_with_chars(&uc, &text::to_chars("--")) {
                let rest = text::sub_chars(&uc, 2, uc.len());
                assert(rest@ =~= u@.skip(2));
                Some((text::from_chars(&text::to_chars(n)), text::from_chars(&rest)))
            } else {
                None
            }
        },
        _ => None,
    }
}

fn push_entries_providers(out: &mut Vec<Provider>, es: &Vec<Json>)
    ensures
        providers_view(final(out)@) == providers_view(old(out)@) + entries_providers(es@),
{
    let ghost start = providers_view(out@);
    let mut i: usize = 0;
    while i < es.len()
        invariant
            i <= es@.len(),
            providers_view(out@) == start + entries_providers(es@.take(i as int)),
        decreases es@.len() - i,
    {
        assert(es@.take(i + 1).drop_last() =~= es@.take(i as int));
        assert(es@.take(i + 1).last() == es@[i as int]);
        let ghost before = providers_view(out@);
        match entry_provider_exec(&es[i]) {
            Some(p) => {
                out.push(p);
                assert(providers_view(out@) =~= before + seq![(p.0@, p.1@)]);
            },
            None => {
                assert(providers_view(out@) =~= before + Seq::<(Seq<char>, Seq<char>)>::empty());
            },
        }
        i += 1;
    }
    assert(es@.take(es@.len() as int) =~= es@);
}

fn entries_of_payload<'a>(d: &'a Json) -> (r: Option<&'a Vec<Json>>)
    ensures
        r matches Some(a) ==> payload_entries(*d) == Some(a@),
        r is None ==> payload_entries(*d) is None,
{
    match json::get_in(d.get("episode"), "sourceUrls") {
        Some(v) => match v.as_array() {
            Some(a) => {
                return Some(a);
            },
            None => {},
        },
        None => {},
    }
    match d.as_array() {
        Some(a) => {
            return Some(a);
        },
        None => {},
    }
    match d.get("sourceUrls") {
        Some(v) => v.as_array(),
        None => None,
    }
}

fn json_providers(resp: &Json, deciphered: Option<&Json>) -> (r: Vec<Provider>)
    ensures
        providers_view(r@) == entries_providers(source_entries(*resp, deref(deciphered))),
{
    let mut out: Vec<Provider> = Vec::new();
    let payload = episode_payload(resp);
    if payload.is_some() {
        match deciphered {
            Some(d) => match entries_of_payload(d) {
                Some(a) => {
                    push_entries_providers(&mut out, a);
                },
                None => {},
            },
            None => {},
        }
    } else {
        match json::get_in(json::get_in(resp.get("data"), "episode"), "sourceUrls") {
            Some(v) => match v.as_array() {
                Some(a) => {
                    push_entries_providers(&mut out, a);
                },
                None => {},
            },
            None => {},
        }
    }
    assert(providers_view(out@) =~= entries_providers(source_entries(*resp, deref(deciphered))));
    out
}

fn normalized_exec(t: &str) -> (r: Vec<char>)
    ensures
        r@ == normalized(t@),
{
    proof {
        reveal_strlit("{");
        reveal_strlit("}");
        reveal_strlit("\\u002F");
        reveal_strlit("\\");
    }
    let a = text::replace_chars(&text::to_chars(t), &text::to_chars("{"), &text::to_chars("\n"));
    let b = text::replace_chars(&a, &text::to_chars("}"), &text::to_chars("\n"));
    let c = text::replace_chars(&b, &text::to_chars("\\u002F"), &text::to_chars("/"));
    let empty: Vec<char> = Vec::new();
    let d = text::replace_chars(&c, &text::to_chars("\\"), &empty);
    assert(empty@ =~= Seq::<char>::empty());
    d
}

fn text_providers_exec(t: &str) -> (r: Vec<Provider>)
    ensures
        providers_view(r@) == text_providers(t@),
{
    let ls = text::lines_chars(&normalized_exec(t));
    let ghost lv = ls@.map_values(|v: Vec<char>| v@);
    let url_start = text::to_chars("\"sourceUrl\":\"--");
    let name_start = text::to_chars("\"sourceName\":\"");
    let quote = text::to_chars("\"");
    let mut out: Vec<Provider> = Vec::new();
    let mut i: usize = 0;
    while i < ls.len()
        invariant
            i <= ls@.len(),
            lv == ls@.map_values(|v: Vec<char>| v@),
            lv == text::lines(normalized(t@)),
            url_start@ == "\"sourceUrl\":\"--"@,
            name_start@ == "\"sourceName\":\""@,
            quote@ == "\""@,
            providers_view(out@) == lines_providers(lv.take(i as int)),
        decreases ls@.len() - i,
    {
        assert(lv.take(i + 1).drop_last() =~= lv.take(i as int));
        assert(lv.take(i + 1).last() == ls@[i as int]@);
        let ghost before = providers_view(out@);
        let u = crate::player::links::between_chars(&ls[i], &url_start, &quote);
        let n = crate::player::links::between_chars(&ls[i], &name_start, &quote);
        match (u, n) {
            (Some(u), Some(n)) => {
                let p = (text::from_chars(&n), text::from_chars(&u));
                out.push(p);
                assert(providers_view(out@) =~= before + seq![(n@, u@)]);
            },
            _ => {
                assert(providers_view(out@) =~= before + Seq::<(Seq<char>, Seq<char>)>::empty());
            },
        }
        i += 1;
    }
    assert(lv.take(ls@.len() as int) =~= lv);
    out
}

/// The providers an episode-source response lists. `resp` is the response
/// text parsed, when it parses; `deciphered` is its decrypted payload,
/// parsed, when it has one that decrypts and parses.
pub fn collect_providers(t: &str, resp: Option<&Json>, deciphered: Option<&Json>) -> (r: Vec<
    Provider,
>)
    ensures
        providers_view(r@) == episode_providers(t@, deref(resp), deref(deciphered)),
{
    let from_json = match resp {
        Some(j) => json_providers(j, deciphered),
        None => Vec::new(),
    };
    if from_json.len() > 0 {
        from_json
    } else {
        text_providers_exec(t)
    }
}


// ── Episode lists ────────────────────────────────────────────────────────────

/// The episode strings an episode-list response gives for a translation
/// mode: the strings of `data.show.availableEpisodesDetail.<mode>`, in
/// order, other values skipped; none when it is not an array.
pub open spec fn available_episodes_of(resp: Json, mode: Seq<char>) -> Seq<Seq<char>> {
    match as_array(lookup(lookup(lookup(get(resp, "data"@), "show"@), "availableEpisodesDetail"@), mode)) {
        Some(a) => strings_in(a),
        None => Seq::empty(),
    }
}

/// The string values among `a`, in order.
pub open spec fn strings_in(a: Seq<Json>) -> Seq<Seq<char>>
    decreases a.len(),
{
    if a.len() == 0 {
        Seq::empty()
    } else {
        strings_in(a.drop_last()) + match as_str(Some(a.last())) {
            Some(s) => seq![s],
            None => Seq::empty(),
        }
    }
}

/// The episode strings of an episode-list response, for a mode.
pub fn available_episodes(resp: &Json, mode: &str) -> (r: Vec<String>)
    ensures
        r@.map_values(|s: String| s@) == available_episodes_of(*resp, mode@),
{
    let mut out: Vec<String> = Vec::new();
    let arr = json::get_in(json::get_in(json::get_in(resp.get("data"), "show"), "availableEpisodesDetail"), mode);
    let a = match arr {
        Some(v) => match v.as_array() {
            Some(a) => a,
            None => {
                assert(out@.map_values(|s: String| s@) =~= Seq::<Seq<char>>::empty());
                return out;
            },
        },
        None => {
            assert(out@.map_values(|s: String| s@) =~= Seq::<Seq<char>>::empty());
            return out;
        },
    };
    let mut i: usize = 0;
    while i < a.len()
        invariant
            i <= a@.len(),
            out@.map_values(|s: String| s@) == strings_in(a@.take(i as int)),
        decreases a@.len() - i,
    {
        assert(a@.take(i + 1).drop_last() =~= a@.take(i as int));
        assert(a@.take(i + 1).last() == a@[i as int]);
        let ghost before = out@.map_values(|s: String| s@);
        match a[i].as_str() {
            Some(s) => {
                out.push(text::from_chars(&text::to_chars(s)));
                assert(out@.map_values(|s: String| s@) =~= before + seq![s@]);
            },
            None => {
                assert(before + Seq::<Seq<char>>::empty() =~= before);
            },
        }
        i += 1;
    }
    assert(a@.take(a@.len() as int) =~= a@);
    out
}

} // verus!
