//! AllAnime catalogue entries: the single source for anime search and
//! streaming, and how a raw search record becomes one.

use vstd::prelude::*;
use crate::text;

verus! {

/// One AllAnime show.
#[derive(Clone)]
pub struct AllAnimeItem {
    /// AllAnime `_id`, used for episode lists and streaming.
    pub id: String,
    /// MyAnimeList id, used for skip times.
    pub mal_id: Option<u32>,
    /// Primary (romaji) name.
    pub name: String,
    pub english_name: Option<String>,
    pub thumbnail: Option<String>,
    pub banner: Option<String>,
    pub episodes_sub: u32,
    pub episodes_dub: u32,
    pub year: Option<i32>,
    pub status: Option<String>,
    pub description: Option<String>,
    pub genres: Vec<String>,
    /// Score in hundredths of a point (8.5 is 850).
    pub score_centi: Option<u32>,
    pub studios: Vec<String>,
    /// "TV", "Movie", "OVA", ...
    pub show_type: Option<String>,
}

impl AllAnimeItem {
    /// The title shown to the user: the English name if there is one,
    /// otherwise the primary name.
    pub open spec fn display_title_view(&self) -> Seq<char> {
        match self.english_name {
            Some(e) => e@,
            None => self.name@,
        }
    }

    /// Best display title: English if available, otherwise the romaji name.
    pub fn display_title(&self) -> (r: &str)
        ensures
            r@ == self.display_title_view(),
    {
        match &self.english_name {
            Some(e) => e.as_str(),
            None => self.name.as_str(),
        }
    }

    /// Total available episodes (sub or dub, whichever is higher).
    pub fn total_episodes(&self) -> (r: u32)
        ensures
            r == (if self.episodes_sub >= self.episodes_dub {
                self.episodes_sub
            } else {
                self.episodes_dub
            }),
    {
        if self.episodes_sub >= self.episodes_dub {
            self.episodes_sub
        } else {
            self.episodes_dub
        }
    }
}


/// Episode counts of a raw search record.
pub struct RawEpisodes {
    pub sub: Option<u32>,
    pub dub: Option<u32>,
}

/// Air date of a raw search record.
pub struct RawDate {
    pub year: Option<i32>,
}

/// One show as the AllAnime search API returns it, every field optional.
pub struct RawShow {
    pub id: String,
    pub name: Option<String>,
    pub english_name: Option<String>,
    pub thumbnail: Option<String>,
    pub banner: Option<String>,
    pub available_episodes: Option<RawEpisodes>,
    pub aired_start: Option<RawDate>,
    pub status: Option<String>,
    pub description: Option<String>,
    pub genres: Option<Vec<String>>,
    /// Score in hundredths of a point.
    pub score_centi: Option<u32>,
    pub studios: Option<Vec<String>>,
    pub show_type: Option<String>,
}

pub open spec fn opt_view(o: Option<String>) -> Option<Seq<char>> {
    match o {
        Some(s) => Some(s@),
        None => None,
    }
}

pub open spec fn strings_view(v: Seq<String>) -> Seq<Seq<char>> {
    v.map_values(|s: String| s@)
}

impl AllAnimeItem {
    /// The item a raw record becomes: missing counts are 0, missing lists
    /// empty, a missing name empty, the description stripped of HTML, and the
    /// MyAnimeList id not yet known.
    pub open spec fn from_raw_spec(self, r: RawShow) -> bool {
        &&& self.id@ == r.id@
        &&& self.mal_id is None
        &&& self.name@ == (match r.name {
            Some(n) => n@,
            None => Seq::<char>::empty(),
        })
        &&& opt_view(self.english_name) == opt_view(r.english_name)
        &&& opt_view(self.thumbnail) == opt_view(r.thumbnail)
        &&& opt_view(self.banner) == opt_view(r.banner)
        &&& self.episodes_sub == (match r.available_episodes {
            Some(e) => match e.sub {
                Some(n) => n,
                None => 0,
            },
            None => 0,
        })
        &&& self.episodes_dub == (match r.available_episodes {
            Some(e) => match e.dub {
                Some(n) => n,
                None => 0,
            },
            None => 0,
        })
        &&& self.year == (match r.aired_start {
            Some(d) => d.year,
            None => None,
        })
        &&& opt_view(self.status) == opt_view(r.status)
        &&& opt_view(self.description) == (match r.description {
            Some(d) => Some(html_to_text(d@)),
            None => None,
        })
        &&& strings_view(self.genres@) == (match r.genres {
            Some(g) => strings_view(g@),
            None => Seq::<Seq<char>>::empty(),
        })
        &&& self.score_centi == r.score_centi
        &&& strings_view(self.studios@) == (match r.studios {
            Some(g) => strings_view(g@),
            None => Seq::<Seq<char>>::empty(),
        })
        &&& opt_view(self.show_type) == opt_view(r.show_type)
    }

    /// Converts a raw search record into an item.
    pub fn from_raw(r: RawShow) -> (item: AllAnimeItem)
        ensures
            item.from_raw_spec(r),
    {
        let ghost r0 = r;
        let (sub, dub) = match r.available_episodes {
            Some(e) => (
                match e.sub {
                    Some(n) => n,
                    None => 0,
                },
                match e.dub {
                    Some(n) => n,
                    None => 0,
                },
            ),
            None => (0, 0),
        };
        let description = match r.description {
            Some(d) => Some(strip_html(d.as_str())),
            None => None,
        };
        let item = AllAnimeItem {
            id: r.id,
            mal_id: None,
            name: match r.name {
                Some(n) => n,
                None => String::new(),
            },
            english_name: r.english_name,
            thumbnail: r.thumbnail,
            banner: r.banner,
            episodes_sub: sub,
            episodes_dub: dub,
            year: match r.aired_start {
                Some(d) => d.year,
                None => None,
            },
            status: r.status,
            description,
            genres: match r.genres {
                Some(g) => g,
                None => Vec::new(),
            },
            score_centi: r.score_centi,
            studios: match r.studios {
                Some(g) => g,
                None => Vec::new(),
            },
            show_type: r.show_type,
        };
        assert(strings_view(Seq::<String>::empty()) =~= Seq::<Seq<char>>::empty());
        item
    }
}

// ── HTML to text ─────────────────────────────────────────────────────────────

/// The characters of `s` outside `<...>` tags, `in_tag` telling whether the
/// scan starts inside a tag.
pub open spec fn strip_tags_from(s: Seq<char>, in_tag: bool) -> Seq<char>
    decreases s.len(),
{
    if s.len() == 0 {
        Seq::empty()
    } else if s[0] == '<' {
        strip_tags_from(s.skip(1), true)
    } else if s[0] == '>' {
        strip_tags_from(s.skip(1), false)
    } else if !in_tag {
        seq![s[0]] + strip_tags_from(s.skip(1), false)
    } else {
        strip_tags_from(s.skip(1), true)
    }
}

/// The common HTML entities decoded, in this order, and `<br>` made a newline.
pub open spec fn unescape_entities(t: Seq<char>) -> Seq<char> {
    let t1 = text::replace(t, "&amp;"@, "&"@);
    let t2 = text::replace(t1, "&lt;"@, "<"@);
    let t3 = text::replace(t2, "&gt;"@, ">"@);
    let t4 = text::replace(t3, "&quot;"@, "\""@);
    let t5 = text::replace(t4, "&#039;"@, "'"@);
    let t6 = text::replace(t5, "&apos;"@, "'"@);
    let t7 = text::replace(t6, "&#x2014;"@, "—"@);
    text::replace(t7, "<br>"@, "\n"@)
}

/// Plain text of an HTML description.
pub open spec fn html_to_text(s: Seq<char>) -> Seq<char> {
    unescape_entities(strip_tags_from(s, false))
}

fn replace_lit(t: Vec<char>, p: &str, r: &str) -> (out: Vec<char>)
    requires
        p@.len() > 0,
    ensures
        out@ == text::replace(t@, p@, r@),
{
    text::replace_chars(&t, &text::to_chars(p), &text::to_chars(r))
}

/// Removes HTML tags from `s` and decodes the common entities.
pub fn strip_html(s: &str) -> (out: String)
    ensures
        out@ == html_to_text(s@),
{
    let cs = text::to_chars(s);
    let mut out: Vec<char> = Vec::new();
    let mut in_tag = false;
    let mut i: usize = 0;
    assert(cs@.skip(0) =~= cs@);
    while i < cs.len()
        invariant
            i <= cs@.len(),
            strip_tags_from(cs@, false) == out@ + strip_tags_from(cs@.skip(i as int), in_tag),
        decreases cs@.len() - i,
    {
        let c = cs[i];
        assert(cs@.skip(i as int).skip(1) =~= cs@.skip(i + 1));
        if c == '<' {
            in_tag = true;
        } else if c == '>' {
            in_tag = false;
        } else if !in_tag {
            out.push(c);
            assert(out@ =~= out@.drop_last() + seq![c]);
        }
        i += 1;
    }
    assert(out@ + Seq::<char>::empty() =~= out@);
    proof {
        reveal_strlit("&amp;");
        reveal_strlit("&lt;");
        reveal_strlit("&gt;");
        reveal_strlit("&quot;");
        reveal_strlit("&#039;");
        reveal_strlit("&apos;");
        reveal_strlit("&#x2014;");
        reveal_strlit("<br>");
    }
    let t = replace_lit(out, "&amp;", "&");
    let t = replace_lit(t, "&lt;", "<");
    let t = replace_lit(t, "&gt;", ">");
    let t = replace_lit(t, "&quot;", "\"");
    let t = replace_lit(t, "&#039;", "'");
    let t = replace_lit(t, "&apos;", "'");
    let t = replace_lit(t, "&#x2014;", "—");
    let t = replace_lit(t, "<br>", "\n");
    text::from_chars(&t)
}


// ── Ranking ──────────────────────────────────────────────────────────────────

/// The title part of a result's rank: an exact title match counts 300, a
/// title that starts with the query 150, one that contains it 50.
pub open spec fn title_bonus_of(t: Seq<char>, q: Seq<char>) -> nat {
    if t == q {
        300
    } else if text::starts_with(t, q) {
        150
    } else if text::contains(t, q) {
        50
    } else {
        0
    }
}

/// The better title bonus of the lower-cased primary and English names
/// against the (already lower-case) query.
pub open spec fn item_title_bonus(item: AllAnimeItem, q: Seq<char>) -> nat {
    let a = title_bonus_of(text::unicode_lowercase(item.name@), q);
    let b = title_bonus_of(
        text::unicode_lowercase(
            match item.english_name {
                Some(e) => e@,
                None => Seq::<char>::empty(),
            },
        ),
        q,
    );
    if a >= b {
        a
    } else {
        b
    }
}

fn bonus_chars(t: &[char], q: &[char]) -> (r: u32)
    ensures
        r == title_bonus_of(t@, q@),
{
    proof {
        if t@ == q@ {
            assert(t@.subrange(0, q@.len() as int) =~= t@);
        }
    }
    if t.len() == q.len() && text::matches_at(t, q, 0) {
        assert(t@.subrange(0, q@.len() as int) =~= t@);
        300
    } else if text::starts_with_chars(t, q) {
        proof {
            if t@ == q@ {
                assert(t@.subrange(0, q@.len() as int) =~= t@);
            }
        }
        150
    } else if text::contains_chars(t, q) {
        50
    } else {
        0
    }
}

/// Title bonus of `item` for the lower-case query `q`: the part of the
/// search ranking that does not depend on the score.
pub fn title_bonus(item: &AllAnimeItem, q: &str) -> (r: u32)
    ensures
        r == item_title_bonus(*item, q@),
{
    let qc = text::to_chars(q);
    let name = text::to_chars(&text::to_lowercase(item.name.as_str()));
    let eng_src: &str = match &item.english_name {
        Some(e) => e.as_str(),
        None => "",
    };
    proof {
        reveal_strlit("");
        assert(""@ =~= Seq::<char>::empty());
    }
    let eng = text::to_chars(&text::to_lowercase(eng_src));
    let a = bonus_chars(&name, &qc);
    let b = bonus_chars(&eng, &qc);
    if a >= b {
        a
    } else {
        b
    }
}

} // verus!
