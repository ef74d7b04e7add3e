//! Reading provider responses and master playlists into playable links, and
//! choosing the link to play.

use vstd::prelude::*;
use vstd::string::StrSliceExecFns;
use crate::text;

verus! {

/// A playable link: resolution label, URL, and the referer it needs.
pub type Link = (String, String, Option<String>);

/// The characters of a link's three parts.
pub type LinkView = (Seq<char>, Seq<char>, Option<Seq<char>>);

pub open spec fn opt_str_view(o: Option<String>) -> Option<Seq<char>> {
    match o {
        Some(s) => Some(s@),
        None => None,
    }
}

pub open spec fn link_view(l: Link) -> LinkView {
    (l.0@, l.1@, opt_str_view(l.2))
}

pub open spec fn links_view(v: Seq<Link>) -> Seq<LinkView> {
    v.map_values(|l: Link| link_view(l))
}

// ── Delimited fields ─────────────────────────────────────────────────────────

/// The text between the first `start` in `s` and the first `end` after it.
pub open spec fn between(s: Seq<char>, start: Seq<char>, end: Seq<char>) -> Option<Seq<char>> {
    match text::find(s, start) {
        None => None,
        Some(i) => {
            let k = i + start.len();
            match text::find(s.skip(k), end) {
                None => None,
                Some(j) => Some(s.subrange(k, k + j)),
            }
        },
    }
}

pub fn between_chars(s: &[char], start: &[char], end: &[char]) -> (r: Option<Vec<char>>)
    ensures
        r is Some == between(s@, start@, end@) is Some,
        r matches Some(v) ==> between(s@, start@, end@) == Some(v@),
{
    match text::find_chars(s, start) {
        None => None,
        Some(i) => {
            proof {
                text::lemma_find_from(s@, start@, 0);
            }
            let n = s.len();
            let k = i + start.len();
            let rest = text::sub_chars(s, k, n);
            assert(rest@ =~= s@.skip(k as int));
            match text::find_chars(&rest, end) {
                None => None,
                Some(j) => {
                    proof {
                        text::lemma_find_from(rest@, end@, 0);
                    }
                    Some(text::sub_chars(s, k, k + j))
                },
            }
        },
    }
}

/// The text of `s` between `start` and the next `end`.
pub fn extract_between<'a>(s: &'a str, start: &str, end: &str) -> (r: Option<&'a str>)
    ensures
        r is Some == between(s@, start@, end@) is Some,
        r matches Some(v) ==> between(s@, start@, end@) == Some(v@),
{
    let cs = text::to_chars(s);
    let st = text::to_chars(start);
    let en = text::to_chars(end);
    match text::find_chars(&cs, &st) {
        None => None,
        Some(i) => {
            proof {
                text::lemma_find_from(cs@, st@, 0);
            }
            let n = cs.len();
            let k = i + st.len();
            let rest = text::sub_chars(&cs, k, n);
            assert(rest@ =~= cs@.skip(k as int));
            match text::find_chars(&rest, &en) {
                None => None,
                Some(j) => {
                    proof {
                        text::lemma_find_from(rest@, en@, 0);
                    }
                    Some(s.substring_char(k, k + j))
                },
            }
        },
    }
}

// ── Wix media links ──────────────────────────────────────────────────────────

/// The links of one resolution list, in order: each non-empty resolution `r`
/// gives `https://{host_path}/{r}{suffix}`.
pub open spec fn wixmp_entries(
    pieces: Seq<Seq<char>>,
    host_path: Seq<char>,
    suffix: Seq<char>,
) -> Seq<LinkView>
    decreases pieces.len(),
{
    if pieces.len() == 0 {
        Seq::empty()
    } else {
        let prev = wixmp_entries(pieces.drop_last(), host_path, suffix);
        let r = pieces.last();
        if r.len() > 0 {
            prev.push((r, "https://"@ + host_path + "/"@ + r + suffix, None))
        } else {
            prev
        }
    }
}

/// The per-resolution links a `repackager.wixmp.com` URL stands for:
/// `https://host/path/,480p,720p,/file.mp4.urlset/...` becomes one link per
/// listed resolution, `https://host/path/{res}/file.mp4`.
pub open spec fn wixmp_links(url: Seq<char>) -> Seq<LinkView> {
    let stripped = text::replace(url, "repackager.wixmp.com/"@, Seq::empty());
    let base = text::before_first(stripped, ".urlset"@);
    match text::find(base, "/,"@) {
        None => Seq::empty(),
        Some(rs) => {
            let resolutions = base.skip(rs + 2);
            match text::find(resolutions, "/"@) {
                None => Seq::empty(),
                Some(re) => {
                    let base_path = base.take(rs);
                    let suffix = resolutions.skip(re);
                    let host_path = text::trim_start_matches(
                        text::trim_start_matches(base_path, "https://"@),
                        "http://"@,
                    );
                    wixmp_entries(text::split(resolutions.take(re), ","@), host_path, suffix)
                },
            }
        },
    }
}

fn lit(s: &str) -> (v: Vec<char>)
    ensures
        v@ == s@,
{
    text::to_chars(s)
}

/// Expands a Wix media URL into one link per resolution it lists.
pub fn expand_wixmp(url: &str) -> (r: Vec<Link>)
    ensures
        links_view(r@) == wixmp_links(url@),
{
    proof {
        reveal_strlit("repackager.wixmp.com/");
        reveal_strlit(".urlset");
        reveal_strlit("/,");
        reveal_strlit("/");
        reveal_strlit(",");
        assert(""@ =~= Seq::<char>::empty()) by {
            reveal_strlit("");
        }
    }
    let u = lit(url);
    let stripped = text::replace_chars(&u, &lit("repackager.wixmp.com/"), &lit(""));
    let base = match text::find_chars(&stripped, &lit(".urlset")) {
        Some(i) => text::sub_chars(&stripped, 0, i),
        None => text::sub_chars(&stripped, 0, stripped.len()),
    };
    proof {
        text::lemma_find_from(stripped@, ".urlset"@, 0);
    }
    assert(base@ =~= text::before_first(stripped@, ".urlset"@));
    let res_start = match text::find_chars(&base, &lit("/,")) {
        Some(i) => i,
        None => {
            return Vec::new();
        },
    };
    proof {
        text::lemma_find_from(base@, "/,"@, 0);
    }
    let resolutions = text::sub_chars(&base, res_start + 2, base.len());
    assert(resolutions@ =~= base@.skip(res_start + 2));
    let res_end = match text::find_chars(&resolutions, &lit("/")) {
        Some(i) => i,
        None => {
            return Vec::new();
        },
    };
    proof {
        text::lemma_find_from(resolutions@, "/"@, 0);
    }
    let base_path = text::sub_chars(&base, 0, res_start);
    assert(base_path@ =~= base@.take(res_start as int));
    let suffix = text::sub_chars(&resolutions, res_end, resolutions.len());
    assert(suffix@ =~= resolutions@.skip(res_end as int));
    let host_path = text::trim_start_matches_chars(
        &text::trim_start_matches_chars(&base_path, &lit("https://")),
        &lit("http://"),
    );
    let list = text::sub_chars(&resolutions, 0, res_end);
    assert(list@ =~= resolutions@.take(res_end as int));
    let pieces = text::split_chars(&list, &lit(","));
    let ghost pv = pieces@.map_values(|v: Vec<char>| v@);
    let prefix = lit("https://");
    let slash = lit("/");
    let mut out: Vec<Link> = Vec::new();
    let mut i: usize = 0;
    while i < pieces.len()
        invariant
            i <= pieces@.len(),
            pv == pieces@.map_values(|v: Vec<char>| v@),
            prefix@ == "https://"@,
            slash@ == "/"@,
            links_view(out@) == wixmp_entries(pv.take(i as int), host_path@, suffix@),
        decreases pieces@.len() - i,
    {
        assert(pv.take(i + 1).drop_last() =~= pv.take(i as int));
        assert(pv.take(i + 1).last() == pieces@[i as int]@);
        let r = &pieces[i];
        if r.len() > 0 {
            let mut full: Vec<char> = Vec::new();
            text::extend_chars(&mut full, &prefix);
            text::extend_chars(&mut full, &host_path);
            text::extend_chars(&mut full, &slash);
            text::extend_chars(&mut full, r);
            text::extend_chars(&mut full, &suffix);
            let ghost before = out@;
            out.push((text::from_chars(r), text::from_chars(&full), None));
            assert(links_view(out@) =~= links_view(before).push(
                (r@, "https://"@ + host_path@ + "/"@ + r@ + suffix@, None),
            ));
        }
        i += 1;
    }
    assert(pv.take(pieces@.len() as int) =~= pv);
    out
}


/// A Wix repackager URL of the usual shape,
/// `https://repackager.wixmp.com/{host_path}/,{list}/{file}.urlset{tail}`,
/// stands for one link per non-empty comma-separated resolution `r` of
/// `list`, in order: `https://{host_path}/{r}/{file}`, labelled `r`. The
/// shape asks that the repackager host occurs only there, that `.urlset` and
/// `/,` first occur where the shape puts them, and that the list has no `/`.
pub proof fn lemma_wixmp_standard_shape(
    url: Seq<char>,
    host_path: Seq<char>,
    list: Seq<char>,
    file: Seq<char>,
    tail: Seq<char>,
)
    requires
        url == "https://"@ + "repackager.wixmp.com/"@ + host_path + "/,"@ + list + "/"@ + file
            + ".urlset"@ + tail,
        !text::contains(
            host_path + "/,"@ + list + "/"@ + file + ".urlset"@ + tail,
            "repackager.wixmp.com/"@,
        ),
        text::find("https://"@ + host_path + "/,"@ + list + "/"@ + file + ".urlset"@, ".urlset"@)
            == Some((8 + host_path.len() + 2 + list.len() + 1 + file.len()) as int),
        text::find("https://"@ + host_path + "/,"@, "/,"@) == Some(8 + host_path.len() as int),
        forall|i: int| 0 <= i < list.len() ==> list[i] != '/',
        !text::starts_with(host_path, "https://"@),
        !text::starts_with(host_path, "http://"@),
    ensures
        wixmp_links(url) == wixmp_entries(text::split(list, ","@), host_path, "/"@ + file),
{
    reveal_strlit("https://");
    reveal_strlit("http://");
    reveal_strlit("repackager.wixmp.com/");
    reveal_strlit(".urlset");
    reveal_strlit("/,");
    reveal_strlit("/");
    let scheme = "https://"@;
    let marker = "repackager.wixmp.com/"@;
    let rest = host_path + "/,"@ + list + "/"@ + file + ".urlset"@ + tail;
    assert(url =~= scheme + (marker + rest));
    assert forall|j: int| 0 <= j < scheme.len() implies !text::occurs_at(scheme + (marker + rest), marker, j) by {
        if text::occurs_at(scheme + (marker + rest), marker, j) {
            assert((scheme + (marker + rest)).subrange(j, j + 21)[0] == scheme[j]);
        }
    }
    text::lemma_replace_keep_prefix(scheme, marker + rest, marker, Seq::empty());
    assert(text::occurs_at(marker + rest, marker, 0)) by {
        assert((marker + rest).subrange(0, 21) =~= marker);
    }
    assert((marker + rest).skip(21) =~= rest);
    text::lemma_replace_none(rest, marker, Seq::empty());
    assert(text::replace(marker + rest, marker, Seq::empty()) == Seq::<char>::empty() + rest);
    let stripped = text::replace(url, marker, Seq::empty());
    let x = scheme + host_path + "/,"@ + list + "/"@ + file;
    assert(stripped =~= (x + ".urlset"@) + tail);
    text::lemma_find_in_prefix(x + ".urlset"@, tail, ".urlset"@, x.len() as int);
    let base = text::before_first(stripped, ".urlset"@);
    assert(base =~= x);
    let head = scheme + host_path + "/,"@;
    assert(x =~= head + (list + "/"@ + file));
    text::lemma_find_in_prefix(head, list + "/"@ + file, "/,"@, 8 + host_path.len() as int);
    let rs: int = 8 + host_path.len() as int;
    let resolutions = base.skip(rs + 2);
    assert(resolutions =~= list + "/"@ + file);
    assert(text::occurs_at(resolutions, "/"@, list.len() as int)) by {
        assert(resolutions.subrange(list.len() as int, list.len() as int + 1) =~= "/"@);
    }
    assert forall|j: int| 0 <= j < list.len() implies !text::occurs_at(resolutions, "/"@, j) by {
        if text::occurs_at(resolutions, "/"@, j) {
            assert(resolutions.subrange(j, j + 1)[0] == resolutions[j]);
            assert(resolutions[j] == list[j]);
        }
    }
    text::lemma_find_first_at(resolutions, "/"@, list.len() as int);
    let base_path = base.take(rs);
    assert(base_path =~= scheme + host_path);
    assert(text::starts_with(base_path, scheme)) by {
        assert(base_path.subrange(0, 8) =~= scheme);
    }
    assert(base_path.skip(8) =~= host_path);
    assert(text::trim_start_matches(host_path, scheme) == host_path);
    assert(text::trim_start_matches(base_path, scheme) == host_path);
    assert(text::trim_start_matches(host_path, "http://"@) == host_path);
    assert(resolutions.skip(list.len() as int) =~= "/"@ + file);
    assert(resolutions.take(list.len() as int) =~= list);
}

// ── Provider responses ───────────────────────────────────────────────────────

/// A link with `\u002F` and `\/` turned back into `/`.
pub open spec fn unescape_slashes(l: Seq<char>) -> Seq<char> {
    text::replace(text::replace(l, "\\u002F"@, "/"@), "\\/"@, "/"@)
}

/// The referer named by the last line that names one.
pub open spec fn last_referer(ls: Seq<Seq<char>>) -> Option<Seq<char>>
    decreases ls.len(),
{
    if ls.len() == 0 {
        None
    } else {
        match between(ls.last(), "\"Referer\":\""@, "\""@) {
            Some(r) => Some(r),
            None => last_referer(ls.drop_last()),
        }
    }
}

/// The links one record of a provider response yields: its `link` (expanded
/// when it is a Wix media URL) labelled with its `resolutionStr`, and, for an
/// English hard-subbed HLS record, its `url` as a 1080p link that carries the
/// playlist referer.
pub open spec fn chunk_links(chunk: Seq<char>, refr: Option<Seq<char>>) -> Seq<LinkView> {
    let direct = match (
        between(chunk, "\"link\":\""@, "\""@),
        between(chunk, "\"resolutionStr\":\""@, "\""@),
    ) {
        (Some(l), Some(r)) => {
            let u = unescape_slashes(l);
            if text::starts_with(u, "http"@) {
                if text::contains(u, "repackager.wixmp.com"@) {
                    wixmp_links(u)
                } else {
                    seq![(r, u, None::<Seq<char>>)]
                }
            } else {
                Seq::empty()
            }
        },
        _ => Seq::empty(),
    };
    let hls = if text::contains(chunk, "\"hls\""@) && text::contains(
        chunk,
        "\"hardsub_lang\":\"en-US\""@,
    ) {
        match between(chunk, "\"url\":\""@, "\""@) {
            Some(h) => {
                let u = unescape_slashes(h);
                if text::starts_with(u, "http"@) {
                    seq![("1080p"@, u, refr)]
                } else {
                    Seq::empty()
                }
            },
            None => Seq::empty(),
        }
    } else {
        Seq::empty()
    };
    direct + hls
}

/// A record whose `link`, unescaped, is an `http` URL of the Wix repackager
/// yields the per-resolution links of that URL's expansion first, and at most
/// one link (its English hard-sub HLS stream) after them; a record without an
/// HLS part yields exactly the expansion.
pub proof fn lemma_wix_record_expanded(
    chunk: Seq<char>,
    refr: Option<Seq<char>>,
    l: Seq<char>,
    r: Seq<char>,
)
    requires
        between(chunk, "\"link\":\""@, "\""@) == Some(l),
        between(chunk, "\"resolutionStr\":\""@, "\""@) == Some(r),
        text::starts_with(unescape_slashes(l), "http"@),
        text::contains(unescape_slashes(l), "repackager.wixmp.com"@),
    ensures
        chunk_links(chunk, refr).take(wixmp_links(unescape_slashes(l)).len() as int) == wixmp_links(
            unescape_slashes(l),
        ),
        chunk_links(chunk, refr).len() <= wixmp_links(unescape_slashes(l)).len() + 1,
        !text::contains(chunk, "\"hls\""@) ==> chunk_links(chunk, refr) == wixmp_links(
            unescape_slashes(l),
        ),
{
    let direct = wixmp_links(unescape_slashes(l));
    let all = chunk_links(chunk, refr);
    let hls = all.skip(direct.len() as int);
    assert(all =~= direct + hls);
    assert(all.take(direct.len() as int) =~= direct);
    if !text::contains(chunk, "\"hls\""@) {
        assert(all =~= direct + Seq::<LinkView>::empty());
    }
}

pub open spec fn chunks_links(chunks: Seq<Seq<char>>, refr: Option<Seq<char>>) -> Seq<LinkView>
    decreases chunks.len(),
{
    if chunks.len() == 0 {
        Seq::empty()
    } else {
        chunks_links(chunks.drop_last(), refr) + chunk_links(chunks.last(), refr)
    }
}

/// The links of a provider response, in order, and the playlist referer it
/// names: the response is cut into records at every `},{`.
pub open spec fn provider_response(response: Seq<char>) -> (Seq<LinkView>, Option<Seq<char>>) {
    let separated = text::replace(response, "},{"@, "\n"@);
    let refr = last_referer(text::lines(separated));
    (chunks_links(text::split(separated, "\n"@), refr), refr)
}

pub open spec fn opt_chars_view(o: Option<Vec<char>>) -> Option<Seq<char>> {
    match o {
        Some(v) => Some(v@),
        None => None,
    }
}

fn opt_from_chars(o: &Option<Vec<char>>) -> (r: Option<String>)
    ensures
        opt_str_view(r) == (opt_chars_view(*o)),
{
    match o {
        Some(v) => Some(text::from_chars(v)),
        None => None,
    }
}

fn unescape_slashes_chars(l: &[char]) -> (r: Vec<char>)
    ensures
        r@ == unescape_slashes(l@),
{
    proof {
        reveal_strlit("\\u002F");
        reveal_strlit("\\/");
    }
    let a = text::replace_chars(l, &lit("\\u002F"), &lit("/"));
    text::replace_chars(&a, &lit("\\/"), &lit("/"))
}

fn chunk_links_exec(chunk: &[char], refr: &Option<Vec<char>>) -> (r: Vec<Link>)
    ensures
        links_view(r@) == chunk_links(
            chunk@,
            opt_chars_view(*refr),
        ),
{
    let ghost rv = opt_chars_view(*refr);
    let mut out: Vec<Link> = Vec::new();
    let link = between_chars(chunk, &lit("\"link\":\""), &lit("\""));
    let res = between_chars(chunk, &lit("\"resolutionStr\":\""), &lit("\""));
    match (link, res) {
        (Some(l), Some(r)) => {
            let u = unescape_slashes_chars(&l);
            if text::starts_with_chars(&u, &lit("http")) {
                if text::contains_chars(&u, &lit("repackager.wixmp.com")) {
                    let us = text::from_chars(&u);
                    out = expand_wixmp(us.as_str());
                } else {
                    out.push((text::from_chars(&r), text::from_chars(&u), None));
                    assert(links_view(out@) =~= seq![(r@, u@, None::<Seq<char>>)]);
                }
            } else {
                assert(links_view(out@) =~= Seq::<LinkView>::empty());
            }
        },
        _ => {
            assert(links_view(out@) =~= Seq::<LinkView>::empty());
        },
    }
    let ghost direct = links_view(out@);
    if text::contains_chars(chunk, &lit("\"hls\"")) && text::contains_chars(
        chunk,
        &lit("\"hardsub_lang\":\"en-US\""),
    ) {
        match between_chars(chunk, &lit("\"url\":\""), &lit("\"")) {
            Some(h) => {
                let u = unescape_slashes_chars(&h);
                if text::starts_with_chars(&u, &lit("http")) {
                    out.push((text::from_chars(&lit("1080p")), text::from_chars(&u), opt_from_chars(refr)));
                    assert(links_view(out@) =~= direct + seq![("1080p"@, u@, rv)]);
                } else {
                    assert(links_view(out@) =~= direct + Seq::<LinkView>::empty());
                }
            },
            None => {
                assert(links_view(out@) =~= direct + Seq::<LinkView>::empty());
            },
        }
    } else {
        assert(links_view(out@) =~= direct + Seq::<LinkView>::empty());
    }
    out
}

/// Reads a provider response into links and the playlist referer it names.
pub fn provider_links(response: &str) -> (r: (Vec<Link>, Option<String>))
    ensures
        (links_view(r.0@), opt_str_view(r.1)) == provider_response(response@),
{
    proof {
        reveal_strlit("},{");
    }
    let separated = text::replace_chars(&lit(response), &lit("},{"), &lit("\n"));
    let ls = text::lines_chars(&separated);
    let ghost lv = ls@.map_values(|v: Vec<char>| v@);
    let mut refr: Option<Vec<char>> = None;
    let mut i: usize = 0;
    while i < ls.len()
        invariant
            i <= ls@.len(),
            lv == ls@.map_values(|v: Vec<char>| v@),
            last_referer(lv.take(i as int)) == (opt_chars_view(refr)),
        decreases ls@.len() - i,
    {
        assert(lv.take(i + 1).drop_last() =~= lv.take(i as int));
        assert(lv.take(i + 1).last() == ls@[i as int]@);
        match between_chars(&ls[i], &lit("\"Referer\":\""), &lit("\"")) {
            Some(r) => {
                refr = Some(r);
            },
            None => {},
        }
        i += 1;
    }
    assert(lv.take(ls@.len() as int) =~= lv);
    let ghost rv = opt_chars_view(refr);
    let nl = lit("\n");
    assert(nl@ =~= seq!['\n']) by {
        reveal_strlit("\n");
    }
    let chunks = text::split_chars(&separated, &nl);
    let ghost cv = chunks@.map_values(|v: Vec<char>| v@);
    let mut links: Vec<Link> = Vec::new();
    let mut k: usize = 0;
    while k < chunks.len()
        invariant
            k <= chunks@.len(),
            cv == chunks@.map_values(|v: Vec<char>| v@),
            rv == (opt_chars_view(refr)),
            links_view(links@) == chunks_links(cv.take(k as int), rv),
        decreases chunks@.len() - k,
    {
        assert(cv.take(k + 1).drop_last() =~= cv.take(k as int));
        assert(cv.take(k + 1).last() == chunks@[k as int]@);
        let mut more = chunk_links_exec(&chunks[k], &refr);
        let ghost before = links@;
        let ghost added = more@;
        links.append(&mut more);
        assert(links@ =~= before + added);
        assert(links_view(links@) =~= links_view(before) + links_view(added));
        k += 1;
    }
    assert(cv.take(chunks@.len() as int) =~= cv);
    (links, opt_from_chars(&refr))
}


// ── Links after a provider response ──────────────────────────────────────────

/// The URL of the first link that is an HLS master playlist.
pub open spec fn master_playlist_url(links: Seq<LinkView>) -> Option<Seq<char>>
    decreases links.len(),
{
    if links.len() == 0 {
        None
    } else if text::contains(links[0].1, "master.m3u8"@) {
        Some(links[0].1)
    } else {
        master_playlist_url(links.skip(1))
    }
}

/// The first link whose URL is an HLS master playlist.
pub fn master_playlist(links: &[Link]) -> (r: Option<String>)
    ensures
        opt_str_view(r) == master_playlist_url(links_view(links@)),
{
    let pat = lit("master.m3u8");
    let mut i: usize = 0;
    assert(links_view(links@).skip(0) =~= links_view(links@));
    while i < links.len()
        invariant
            i <= links@.len(),
            pat@ == "master.m3u8"@,
            master_playlist_url(links_view(links@)) == master_playlist_url(
                links_view(links@).skip(i as int),
            ),
        decreases links@.len() - i,
    {
        let ghost rest = links_view(links@).skip(i as int);
        assert(rest.skip(1) =~= links_view(links@).skip(i + 1));
        assert(rest[0] == link_view(links@[i as int]));
        if text::contains_chars(&lit(links[i].1.as_str()), &pat) {
            return Some(links[i].1.clone());
        }
        i += 1;
    }
    None
}

/// The URL a deciphered provider path is fetched from: absolute paths as
/// they are, others on the AllAnime host.
pub open spec fn provider_url_of(path: Seq<char>) -> Seq<char> {
    if text::starts_with(path, "http"@) {
        path
    } else {
        "https://allanime.day"@ + path
    }
}

pub fn provider_url(path: &str) -> (r: String)
    ensures
        r@ == provider_url_of(path@),
{
    let p = lit(path);
    if text::starts_with_chars(&p, &lit("http")) {
        text::from_chars(&p)
    } else {
        let mut u = lit("https://allanime.day");
        text::extend_chars(&mut u, &p);
        text::from_chars(&u)
    }
}

/// The links a provider finally offers: when a `tools.fast4speed.rsvp`
/// provider gave none, its own URL with the AllAnime referer.
pub open spec fn finished_links(url: Seq<char>, links: Seq<LinkView>) -> Seq<LinkView> {
    if text::contains(url, "tools.fast4speed.rsvp"@) && links.len() == 0 {
        seq![("Yt"@, url, Some("https://allmanga.to"@))]
    } else {
        links
    }
}

pub fn finish_links(url: &str, links: Vec<Link>) -> (r: Vec<Link>)
    ensures
        links_view(r@) == finished_links(url@, links_view(links@)),
{
    if links.len() == 0 && text::contains_chars(&lit(url), &lit("tools.fast4speed.rsvp")) {
        let mut v: Vec<Link> = Vec::new();
        v.push(
            (
                text::from_chars(&lit("Yt")),
                text::from_chars(&lit(url)),
                Some(text::from_chars(&lit("https://allmanga.to"))),
            ),
        );
        assert(links_view(v@) =~= seq![("Yt"@, url@, Some("https://allmanga.to"@))]);
        v
    } else {
        links
    }
}

// ── Master playlists ─────────────────────────────────────────────────────────

/// `u` up to (not including) its last `/`, or all of `u` if it has none.
pub open spec fn before_last_slash(u: Seq<char>) -> Seq<char> {
    let pieces = text::split(u, "/"@);
    if pieces.len() >= 2 {
        u.take(u.len() - pieces.last().len() - 1)
    } else {
        u
    }
}

/// The resolution label an `#EXT-X-STREAM-INF` line gives: the height after
/// the last `x` of its `RESOLUTION=` value, with a `p`; `unknown` if the
/// line has no resolution.
pub open spec fn stream_inf_resolution(line: Seq<char>) -> Seq<char> {
    let parts = text::split(line, "RESOLUTION="@);
    if parts.len() >= 2 {
        text::split(text::before_first(parts[1], ","@), "x"@).last() + "p"@
    } else {
        "unknown"@
    }
}

/// In an `#EXT-X-STREAM-INF` line whose first `RESOLUTION=` attribute is
/// `WxH` followed by more attributes, the variant's label is the decimal text
/// of `H` with a `p` (none of the later attributes' text is in it), and its
/// resolution key is `H`.
pub proof fn lemma_stream_inf_height(
    line: Seq<char>,
    pre: Seq<char>,
    w: nat,
    h: nat,
    rest: Seq<char>,
)
    requires
        line == pre + "RESOLUTION="@ + text::decimal(w) + "x"@ + text::decimal(h) + ","@ + rest,
        text::find(line, "RESOLUTION="@) == Some(pre.len() as int),
    ensures
        stream_inf_resolution(line) == text::decimal(h) + "p"@,
        !text::contains(stream_inf_resolution(line), ","@),
        h <= u32::MAX ==> crate::player::select::res_key(stream_inf_resolution(line)) == h,
{
    reveal_strlit("RESOLUTION=");
    reveal_strlit("x");
    reveal_strlit(",");
    reveal_strlit("p");
    let rr = "RESOLUTION="@;
    let ww = text::decimal(w);
    let hh = text::decimal(h);
    text::lemma_decimal_digits(w);
    text::lemma_decimal_digits(h);
    let s2 = ww + "x"@ + hh + ","@ + rest;
    let m: int = ww.len() as int + 1 + hh.len() as int;
    assert(line.skip(pre.len() as int + 11) =~= s2);
    assert(line.take(pre.len() as int) =~= pre);
    text::lemma_split_nonempty(s2, rr);
    text::lemma_split_first(s2, rr);
    let parts = text::split(line, rr);
    assert(parts == seq![line.take(pre.len() as int)] + text::split(s2, rr));
    assert(parts.len() >= 2);
    assert(parts[1] == text::before_first(s2, rr));
    assert forall|j: int| 0 <= j <= m implies !text::occurs_at(s2, rr, j) by {
        if text::occurs_at(s2, rr, j) {
            assert(s2.subrange(j, j + 11)[0] == s2[j]);
            assert(rr[0] == 'R');
            if j < ww.len() {
                assert(s2[j] == ww[j]);
            } else if j == ww.len() {
                assert(s2[j] == 'x');
            } else if j < m {
                assert(s2[j] == hh[j - ww.len() - 1]);
            } else {
                assert(s2[j] == ',');
            }
        }
    }
    text::lemma_find_from(s2, rr, 0);
    let p1 = parts[1];
    assert(p1.len() > m);
    assert(forall|j: int| 0 <= j <= m ==> p1[j] == s2[j]);
    assert(text::occurs_at(p1, ","@, m)) by {
        assert(p1.subrange(m, m + 1) =~= ","@);
    }
    assert forall|j: int| 0 <= j < m implies !text::occurs_at(p1, ","@, j) by {
        if text::occurs_at(p1, ","@, j) {
            assert(p1.subrange(j, j + 1)[0] == p1[j]);
            if j < ww.len() {
                assert(s2[j] == ww[j]);
            } else if j == ww.len() {
                assert(s2[j] == 'x');
            } else {
                assert(s2[j] == hh[j - ww.len() - 1]);
            }
        }
    }
    text::lemma_find_first_at(p1, ","@, m);
    let q = text::before_first(p1, ","@);
    assert(q =~= ww + "x"@ + hh);
    assert(text::occurs_at(q, "x"@, ww.len() as int)) by {
        assert(q.subrange(ww.len() as int, ww.len() as int + 1) =~= "x"@);
    }
    assert forall|j: int| 0 <= j < ww.len() implies !text::occurs_at(q, "x"@, j) by {
        if text::occurs_at(q, "x"@, j) {
            assert(q.subrange(j, j + 1)[0] == q[j]);
            assert(q[j] == ww[j]);
        }
    }
    text::lemma_find_first_at(q, "x"@, ww.len() as int);
    assert(q.skip(ww.len() as int + 1) =~= hh);
    text::lemma_find_from(hh, "x"@, 0);
    match text::find(hh, "x"@) {
        Some(k) => {
            assert(hh.subrange(k, k + 1)[0] == hh[k]);
        },
        None => {},
    }
    assert(text::split(hh, "x"@) == seq![hh]);
    assert(text::split(q, "x"@) == seq![q.take(ww.len() as int)] + seq![hh]);
    let label = hh + "p"@;
    assert(stream_inf_resolution(line) == label);
    text::lemma_find_from(label, ","@, 0);
    match text::find(label, ","@) {
        Some(k) => {
            assert(label.subrange(k, k + 1)[0] == label[k]);
            if k < hh.len() {
                assert(label[k] == hh[k]);
            }
        },
        None => {},
    }
    assert(label.drop_last() =~= hh);
    crate::player::select::lemma_without_p_none(hh);
    assert(crate::player::select::without_p(label) == hh);
    assert(text::all_digits(hh, 10)) by {
        assert forall|i: int| 0 <= i < hh.len() implies (#[trigger] text::digit_value(hh[i], 10)) is Some by {
            assert(48 <= hh[i] as u32 <= 57);
        }
    }
}

/// The links of playlist lines, `cur` being the resolution label in force:
/// every non-empty line that is not a `#` tag is a variant URL, relative to
/// `base` unless it is absolute.
pub open spec fn playlist_links(
    ls: Seq<Seq<char>>,
    base: Seq<char>,
    refr: Option<Seq<char>>,
    cur: Seq<char>,
) -> Seq<LinkView>
    decreases ls.len(),
{
    if ls.len() == 0 {
        Seq::empty()
    } else {
        let l = ls[0];
        if text::starts_with(l, "#EXT-X-STREAM-INF"@) {
            playlist_links(ls.skip(1), base, refr, stream_inf_resolution(l))
        } else if !text::starts_with(l, "#"@) && l.len() > 0 {
            let full = if text::starts_with(l, "http"@) {
                l
            } else {
                base + l
            };
            seq![(cur, full, refr)] + playlist_links(ls.skip(1), base, refr, cur)
        } else {
            playlist_links(ls.skip(1), base, refr, cur)
        }
    }
}

/// The variant URI line right after an `#EXT-X-STREAM-INF` line whose first
/// `RESOLUTION=` attribute is `WxH` followed by more attributes becomes a link
/// labelled with the height `H` and a `p`, its URL made absolute against
/// `base`, carrying the referer.
pub proof fn lemma_variant_labelled_by_height(
    inf: Seq<char>,
    pre: Seq<char>,
    w: nat,
    h: nat,
    rest: Seq<char>,
    uri: Seq<char>,
    more: Seq<Seq<char>>,
    base: Seq<char>,
    refr: Option<Seq<char>>,
    cur: Seq<char>,
)
    requires
        inf == pre + "RESOLUTION="@ + text::decimal(w) + "x"@ + text::decimal(h) + ","@ + rest,
        text::find(inf, "RESOLUTION="@) == Some(pre.len() as int),
        text::starts_with(inf, "#EXT-X-STREAM-INF"@),
        uri.len() > 0,
        !text::starts_with(uri, "#"@),
    ensures
        playlist_links(seq![inf, uri] + more, base, refr, cur).len() >= 1,
        playlist_links(seq![inf, uri] + more, base, refr, cur)[0] == (
            text::decimal(h) + "p"@,
            if text::starts_with(uri, "http"@) {
                uri
            } else {
                base + uri
            },
            refr,
        ),
{
    reveal_strlit("#EXT-X-STREAM-INF");
    reveal_strlit("#");
    lemma_stream_inf_height(inf, pre, w, h, rest);
    let label = text::decimal(h) + "p"@;
    let ls = seq![inf, uri] + more;
    let tl = seq![uri] + more;
    assert(ls[0] == inf);
    assert(ls.skip(1) =~= tl);
    assert(playlist_links(ls, base, refr, cur) == playlist_links(tl, base, refr, label));
    assert(tl[0] == uri);
    assert(tl.skip(1) =~= more);
    if text::starts_with(uri, "#EXT-X-STREAM-INF"@) {
        assert(uri.subrange(0, 17)[0] == uri[0]);
        assert(uri.subrange(0, 1) =~= "#"@);
    }
    let full = if text::starts_with(uri, "http"@) {
        uri
    } else {
        base + uri
    };
    assert(playlist_links(tl, base, refr, label) == seq![(label, full, refr)] + playlist_links(
        more,
        base,
        refr,
        label,
    ));
}

/// The variant links of a master playlist fetched from `url`, in playlist
/// order, each carrying the referer `refr`.
pub open spec fn master_playlist_links(
    url: Seq<char>,
    body: Seq<char>,
    refr: Option<Seq<char>>,
) -> Seq<LinkView> {
    playlist_links(text::lines(body), before_last_slash(url) + "/"@, refr, "unknown"@)
}

fn last_piece_len(pieces: &Vec<Vec<char>>) -> (r: usize)
    requires
        pieces@.len() >= 1,
    ensures
        r == pieces@.last()@.len(),
{
    pieces[pieces.len() - 1].len()
}

fn stream_inf_resolution_exec(line: &[char]) -> (r: Vec<char>)
    ensures
        r@ == stream_inf_resolution(line@),
{
    proof {
        reveal_strlit("RESOLUTION=");
        reveal_strlit(",");
        reveal_strlit("x");
    }
    let parts = text::split_chars(line, &lit("RESOLUTION="));
    let ghost pv = parts@.map_values(|v: Vec<char>| v@);
    if parts.len() >= 2 {
        assert(pv[1] == parts@[1]@);
        let first = match text::find_chars(&parts[1], &lit(",")) {
            Some(i) => text::sub_chars(&parts[1], 0, i),
            None => text::sub_chars(&parts[1], 0, parts[1].len()),
        };
        assert(first@ =~= text::before_first(pv[1], ","@));
        let hs = text::split_chars(&first, &lit("x"));
        proof {
            text::lemma_split_nonempty(first@, "x"@);
        }
        let ghost hv = hs@.map_values(|v: Vec<char>| v@);
        assert(hv.last() == hs@[hs@.len() - 1]@);
        let mut h = text::sub_chars(&hs[hs.len() - 1], 0, hs[hs.len() - 1].len());
        assert(h@ =~= hv.last());
        text::extend_chars(&mut h, &lit("p"));
        h
    } else {
        lit("unknown")
    }
}

/// Reads the body of a master playlist fetched from `url` into one link per
/// variant stream, in playlist order.
pub fn playlist_variants(url: &str, body: &str, refr: Option<&str>) -> (r: Vec<Link>)
    ensures
        links_view(r@) == master_playlist_links(
            url@,
            body@,
            match refr {
                Some(s) => Some(s@),
                None => None,
            },
        ),
{
    proof {
        reveal_strlit("/");
    }
    let ghost rv = match refr {
        Some(s) => Some(s@),
        None => None::<Seq<char>>,
    };
    let u = lit(url);
    let pieces = text::split_chars(&u, &lit("/"));
    let ghost pv = pieces@.map_values(|v: Vec<char>| v@);
    proof {
        text::lemma_split_nonempty(u@, "/"@);
        text::lemma_split_lengths(u@, "/"@);
    }
    let mut base = if pieces.len() >= 2 {
        let last_len = last_piece_len(&pieces);
        assert(pv.last() == pieces@.last()@);
        text::sub_chars(&u, 0, u.len() - last_len - 1)
    } else {
        text::sub_chars(&u, 0, u.len())
    };
    assert(base@ =~= before_last_slash(u@));
    text::extend_chars(&mut base, &lit("/"));
    let ls = text::lines_chars(&lit(body));
    let ghost lv = ls@.map_values(|v: Vec<char>| v@);
    let mut cur = lit("unknown");
    let mut out: Vec<Link> = Vec::new();
    let mut i: usize = 0;
    assert(lv.skip(0) =~= lv);
    while i < ls.len()
        invariant
            i <= ls@.len(),
            lv == ls@.map_values(|v: Vec<char>| v@),
            master_playlist_links(url@, body@, rv) == links_view(out@) + playlist_links(
                lv.skip(i as int),
                base@,
                rv,
                cur@,
            ),
            lv == text::lines(body@),
            base@ == before_last_slash(url@) + "/"@,
            rv == (match refr {
                Some(s) => Some(s@),
                None => None::<Seq<char>>,
            }),
        decreases ls@.len() - i,
    {
        let l = &ls[i];
        let ghost rest = lv.skip(i as int);
        assert(rest[0] == l@);
        assert(rest.skip(1) =~= lv.skip(i + 1));
        if text::starts_with_chars(l, &lit("#EXT-X-STREAM-INF")) {
            cur = stream_inf_resolution_exec(l);
        } else if !text::starts_with_chars(l, &lit("#")) && l.len() > 0 {
            let full = if text::starts_with_chars(l, &lit("http")) {
                text::sub_chars(l, 0, l.len())
            } else {
                let mut f = text::sub_chars(&base, 0, base.len());
                text::extend_chars(&mut f, l);
                f
            };
            assert(full@ =~= (if text::starts_with(l@, "http"@) {
                l@
            } else {
                base@ + l@
            }));
            let rf: Option<String> = match refr {
                Some(s) => Some(text::from_chars(&lit(s))),
                None => None,
            };
            assert(opt_str_view(rf) == rv);
            let ghost before = links_view(out@);
            out.push((text::from_chars(&cur), text::from_chars(&full), rf));
            assert(links_view(out@) =~= before.push((cur@, full@, rv)));
            assert(before.push((cur@, full@, rv)) + playlist_links(lv.skip(i + 1), base@, rv, cur@)
                =~= before + (seq![(cur@, full@, rv)] + playlist_links(
                lv.skip(i + 1),
                base@,
                rv,
                cur@,
            )));
        }
        i += 1;
    }
    assert(links_view(out@) + Seq::<LinkView>::empty() =~= links_view(out@));
    out
}

/// Reads the body of a master playlist fetched from `url` into one link per
/// variant stream, from the highest resolution to the lowest.
pub fn parse_master_playlist(url: &str, body: &str, refr: Option<&str>) -> (r: Vec<Link>)
    ensures
        links_view(r@) == crate::player::select::sort_by_res(
            master_playlist_links(
                url@,
                body@,
                match refr {
                    Some(s) => Some(s@),
                    None => None,
                },
            ),
        ),
{
    let variants = playlist_variants(url, body, refr);
    crate::player::select::sort_links(&variants)
}

} // verus!
