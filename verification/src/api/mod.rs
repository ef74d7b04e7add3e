//! Catalogue items: what a search returns and what the rest of the client
//! reads from a result.

pub mod allanime;
pub mod queries;

use vstd::prelude::*;
use crate::text;

verus! {

/// One search result.
#[derive(Clone)]
pub enum ContentItem {
    Anime(allanime::AllAnimeItem),
}

/// The kind of media an item is.
#[derive(Debug, Clone, Copy, PartialEq, Eq, Structural)]
pub enum MediaType {
    Anime,
}

impl MediaType {
    /// The name of the variant (as its `Debug` output).
    pub fn name(&self) -> (r: &'static str)
        ensures
            r@ == "Anime"@,
    {
        "Anime"
    }
}

/// What `episodes_or_chapters` reports for the given sub and dub counts.
pub open spec fn episodes_label(sub: nat, dub: nat) -> Option<Seq<char>> {
    if sub == 0 && dub == 0 {
        None
    } else if dub == 0 {
        Some(text::decimal(sub) + " eps (SUB)"@)
    } else if sub == 0 {
        Some(text::decimal(dub) + " eps (DUB)"@)
    } else {
        Some(text::decimal(sub) + " eps (SUB) · "@ + text::decimal(dub) + " eps (DUB)"@)
    }
}

impl ContentItem {
    pub open spec fn anime(&self) -> allanime::AllAnimeItem {
        match self {
            ContentItem::Anime(a) => *a,
        }
    }

    pub fn id(&self) -> (r: &str)
        ensures
            r@ == self.anime().id@,
    {
        match self {
            ContentItem::Anime(a) => a.id.as_str(),
        }
    }

    pub fn title(&self) -> (r: &str)
        ensures
            r@ == self.anime().display_title_view(),
    {
        match self {
            ContentItem::Anime(a) => a.display_title(),
        }
    }

    pub fn cover_url(&self) -> (r: Option<&str>)
        ensures
            r is Some == self.anime().thumbnail is Some,
            r matches Some(u) ==> u@ == self.anime().thumbnail->0@,
    {
        match self {
            ContentItem::Anime(a) => match &a.thumbnail {
                Some(t) => Some(t.as_str()),
                None => None,
            },
        }
    }

    pub fn synopsis(&self) -> (r: &str)
        ensures
            r@ == (match self.anime().description {
                Some(d) => d@,
                None => "No synopsis available."@,
            }),
    {
        match self {
            ContentItem::Anime(a) => match &a.description {
                Some(d) => d.as_str(),
                None => "No synopsis available.",
            },
        }
    }

    /// The score, in hundredths of a point.
    pub fn score_centi(&self) -> (r: Option<u32>)
        ensures
            r == self.anime().score_centi,
    {
        match self {
            ContentItem::Anime(a) => a.score_centi,
        }
    }

    pub fn year(&self) -> (r: Option<i32>)
        ensures
            r == self.anime().year,
    {
        match self {
            ContentItem::Anime(a) => a.year,
        }
    }

    pub fn genres(&self) -> (r: Vec<&str>)
        ensures
            r@.len() == self.anime().genres@.len(),
            forall|i: int| 0 <= i < r@.len() ==> (#[trigger] r@[i])@ == self.anime().genres@[i]@,
    {
        match self {
            ContentItem::Anime(a) => {
                let mut r: Vec<&str> = Vec::new();
                let mut i: usize = 0;
                while i < a.genres.len()
                    invariant
                        i <= a.genres@.len(),
                        r@.len() == i,
                        forall|k: int| 0 <= k < i ==> (#[trigger] r@[k])@ == a.genres@[k]@,
                    decreases a.genres@.len() - i,
                {
                    r.push(a.genres[i].as_str());
                    i += 1;
                }
                r
            },
        }
    }

    pub fn episodes_or_chapters(&self) -> (r: Option<String>)
        ensures
            r is Some == episodes_label(
                self.anime().episodes_sub as nat,
                self.anime().episodes_dub as nat,
            ) is Some,
            r matches Some(s) ==> Some(s@) == episodes_label(
                self.anime().episodes_sub as nat,
                self.anime().episodes_dub as nat,
            ),
    {
        match self {
            ContentItem::Anime(a) => {
                let sub = a.episodes_sub;
                let dub = a.episodes_dub;
                if sub == 0 && dub == 0 {
                    return None;
                }
                let mut out: Vec<char> = Vec::new();
                if dub == 0 {
                    text::push_decimal(&mut out, sub as u64);
                    text::extend_chars(&mut out, &text::to_chars(" eps (SUB)"));
                } else if sub == 0 {
                    text::push_decimal(&mut out, dub as u64);
                    text::extend_chars(&mut out, &text::to_chars(" eps (DUB)"));
                } else {
                    text::push_decimal(&mut out, sub as u64);
                    text::extend_chars(&mut out, &text::to_chars(" eps (SUB) · "));
                    text::push_decimal(&mut out, dub as u64);
                    text::extend_chars(&mut out, &text::to_chars(" eps (DUB)"));
                }
                Some(text::from_chars(&out))
            },
        }
    }

    pub fn status(&self) -> (r: Option<&str>)
        ensures
            r is Some == self.anime().status is Some,
            r matches Some(s) ==> s@ == self.anime().status->0@,
    {
        match self {
            ContentItem::Anime(a) => match &a.status {
                Some(s) => Some(s.as_str()),
                None => None,
            },
        }
    }

    pub fn media_type(&self) -> (r: MediaType)
        ensures
            r == MediaType::Anime,
    {
        match self {
            ContentItem::Anime(_) => MediaType::Anime,
        }
    }

    pub fn source_badge(&self) -> (r: &str)
        ensures
            r@ == "AllAnime"@,
    {
        match self {
            ContentItem::Anime(_) => "AllAnime",
        }
    }
}

} // verus!
