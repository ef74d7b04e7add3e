//! Ordering links by resolution and choosing the one to play.

use vstd::prelude::*;
use crate::player::links::{Link, LinkView, link_view, links_view, opt_str_view};
use crate::text;

verus! {

broadcast use vstd::seq_lib::group_to_multiset_ensures;

// ── Resolution keys ──────────────────────────────────────────────────────────

/// A resolution label without its `p` characters.
pub open spec fn without_p(s: Seq<char>) -> Seq<char>
    decreases s.len(),
{
    if s.len() == 0 {
        s
    } else if s.last() == 'p' {
        without_p(s.drop_last())
    } else {
        without_p(s.drop_last()).push(s.last())
    }
}

/// A label without `p` characters is its own `without_p`.
pub proof fn lemma_without_p_none(s: Seq<char>)
    requires
        forall|i: int| 0 <= i < s.len() ==> s[i] != 'p',
    ensures
        without_p(s) == s,
    decreases s.len(),
{
    if s.len() > 0 {
        lemma_without_p_none(s.drop_last());
        assert(s.drop_last().push(s.last()) =~= s);
    }
}

/// The number a resolution label stands for: the label without `p`, read as
/// an unsigned 32-bit number, and 0 when it is not one (`"1080p"` is 1080,
/// `"unknown"` is 0).
pub open spec fn res_key(res: Seq<char>) -> nat {
    match text::parse_unsigned(without_p(res), 10, u32::MAX as nat) {
        Some(v) => v,
        None => 0,
    }
}

/// The resolution key of a label.
pub fn resolution_key(res: &str) -> (k: u32)
    ensures
        k as nat == res_key(res@),
{
    let cs = text::to_chars(res);
    let mut d: Vec<char> = Vec::new();
    let mut i: usize = 0;
    while i < cs.len()
        invariant
            i <= cs@.len(),
            d@ == without_p(cs@.take(i as int)),
        decreases cs@.len() - i,
    {
        assert(cs@.take(i + 1).drop_last() =~= cs@.take(i as int));
        if cs[i] != 'p' {
            d.push(cs[i]);
        }
        i += 1;
    }
    assert(cs@.take(cs@.len() as int) =~= cs@);
    match text::parse_unsigned_chars(&d, 10, 0xffff_ffff) {
        Some(v) => v as u32,
        None => 0,
    }
}

// ── Ordering ─────────────────────────────────────────────────────────────────

/// How many links lead `sorted` with a key of at least `k`: where a link
/// with key `k` is placed.
pub open spec fn insert_pos(sorted: Seq<LinkView>, k: nat) -> int
    decreases sorted.len(),
{
    if sorted.len() == 0 {
        0
    } else if res_key(sorted[0].0) >= k {
        1 + insert_pos(sorted.skip(1), k)
    } else {
        0
    }
}

/// `x` placed after every leading link whose key is at least its own.
pub open spec fn insert_desc(sorted: Seq<LinkView>, x: LinkView) -> Seq<LinkView> {
    let j = insert_pos(sorted, res_key(x.0));
    sorted.take(j) + seq![x] + sorted.skip(j)
}

/// The links from the highest resolution key to the lowest; links with equal
/// keys keep their order (a stable sort, as `sort_by` with the keys compared
/// in reverse).
pub open spec fn sort_by_res(links: Seq<LinkView>) -> Seq<LinkView>
    decreases links.len(),
{
    if links.len() == 0 {
        links
    } else {
        insert_desc(sort_by_res(links.drop_last()), links.last())
    }
}

/// Keys never increase along the sequence.
pub open spec fn descending(s: Seq<LinkView>) -> bool {
    forall|i: int, j: int| 0 <= i < j < s.len() ==> res_key(#[trigger] s[i].0) >= res_key(
        #[trigger] s[j].0,
    )
}

proof fn lemma_insert_pos_bounds(s: Seq<LinkView>, k: nat)
    ensures
        0 <= insert_pos(s, k) <= s.len(),
        forall|i: int| 0 <= i < insert_pos(s, k) ==> res_key(#[trigger] s[i].0) >= k,
        insert_pos(s, k) < s.len() ==> res_key(s[insert_pos(s, k)].0) < k,
    decreases s.len(),
{
    if s.len() > 0 && res_key(s[0].0) >= k {
        lemma_insert_pos_bounds(s.skip(1), k);
        assert forall|i: int| 0 <= i < insert_pos(s, k) implies res_key(#[trigger] s[i].0) >= k by {
            if i > 0 {
                assert(s[i] == s.skip(1)[i - 1]);
            }
        }
        if insert_pos(s, k) < s.len() {
            assert(s[insert_pos(s, k)] == s.skip(1)[insert_pos(s.skip(1), k)]);
        }
    }
}

proof fn lemma_insert_keeps_descending(s: Seq<LinkView>, x: LinkView)
    requires
        descending(s),
    ensures
        descending(insert_desc(s, x)),
        insert_desc(s, x).to_multiset() =~= s.to_multiset().insert(x),
        insert_desc(s, x).len() == s.len() + 1,
{
    let k = res_key(x.0);
    let j = insert_pos(s, k);
    lemma_insert_pos_bounds(s, k);
    let r = insert_desc(s, x);
    assert forall|a: int, b: int| 0 <= a < b < r.len() implies res_key(#[trigger] r[a].0) >= res_key(
        #[trigger] r[b].0,
    ) by {
        if b < j {
            assert(r[a] == s[a] && r[b] == s[b]);
        } else if b == j {
            assert(r[a] == s[a]);
        } else if a < j {
            assert(r[a] == s[a] && r[b] == s[b - 1]);
        } else if a == j {
            assert(r[b] == s[b - 1]);
            if j < s.len() {
                assert(res_key(s[j].0) >= res_key(s[b - 1].0) || b - 1 == j);
            }
        } else {
            assert(r[a] == s[a - 1] && r[b] == s[b - 1]);
        }
    }
    vstd::seq_lib::lemma_multiset_commutative(s.take(j) + seq![x], s.skip(j));
    vstd::seq_lib::lemma_multiset_commutative(s.take(j), seq![x]);
    vstd::seq_lib::lemma_multiset_commutative(s.take(j), s.skip(j));
    assert(s.take(j) + s.skip(j) =~= s);
    assert(seq![x] =~= Seq::<LinkView>::empty().push(x));
}

/// Ordering links by resolution leaves their keys in descending order and
/// keeps exactly the links it was given, each as often as it was given.
pub proof fn lemma_sort_by_res(links: Seq<LinkView>)
    ensures
        descending(sort_by_res(links)),
        sort_by_res(links).to_multiset() =~= links.to_multiset(),
        sort_by_res(links).len() == links.len(),
    decreases links.len(),
{
    if links.len() > 0 {
        lemma_sort_by_res(links.drop_last());
        lemma_insert_keeps_descending(sort_by_res(links.drop_last()), links.last());
        assert(links.drop_last().push(links.last()) =~= links);
    }
}

/// A copy of a link.
fn copy_link(l: &Link) -> (r: Link)
    ensures
        link_view(r) == link_view(*l),
{
    let refr = match &l.2 {
        Some(s) => Some(s.clone()),
        None => None,
    };
    (l.0.clone(), l.1.clone(), refr)
}

proof fn lemma_insert_at(
    before: Seq<Link>,
    before_keys: Seq<u32>,
    j: int,
    x: Link,
    k: u32,
    after: Seq<Link>,
    after_keys: Seq<u32>,
)
    requires
        0 <= j <= before.len(),
        before_keys.len() == before.len(),
        forall|m: int|
            0 <= m < before_keys.len() ==> before_keys[m] as nat == res_key(#[trigger] before[m].0@),
        k as nat == res_key(x.0@),
        after == before.insert(j, x),
        after_keys == before_keys.insert(j, k),
    ensures
        links_view(after) == links_view(before).take(j) + seq![link_view(x)] + links_view(
            before,
        ).skip(j),
        after_keys.len() == after.len(),
        forall|m: int|
            0 <= m < after_keys.len() ==> after_keys[m] as nat == res_key(#[trigger] after[m].0@),
{
    let sv = links_view(before);
    assert forall|m: int| 0 <= m < after.len() implies links_view(after)[m] == (sv.take(j) + seq![
        link_view(x),
    ] + sv.skip(j))[m] by {
        if m < j {
            assert(after[m] == before[m]);
        } else if m > j {
            assert(after[m] == before[m - 1]);
        }
    }
    assert(links_view(after) =~= sv.take(j) + seq![link_view(x)] + sv.skip(j));
    assert forall|m: int| 0 <= m < after_keys.len() implies after_keys[m] as nat == res_key(
        #[trigger] after[m].0@,
    ) by {
        if m < j {
            assert(after[m] == before[m]);
        } else if m > j {
            assert(after[m] == before[m - 1]);
        }
    }
}

/// The links ordered from the highest resolution to the lowest, links of
/// equal resolution in the order given.
pub fn sort_links(links: &[Link]) -> (r: Vec<Link>)
    ensures
        links_view(r@) == sort_by_res(links_view(links@)),
{
    let mut out: Vec<Link> = Vec::new();
    let mut keys: Vec<u32> = Vec::new();
    let ghost lv = links_view(links@);
    let mut i: usize = 0;
    while i < links.len()
        invariant
            i <= links@.len(),
            lv == links_view(links@),
            links_view(out@) == sort_by_res(lv.take(i as int)),
            keys@.len() == out@.len(),
            forall|m: int| 0 <= m < keys@.len() ==> keys@[m] as nat == res_key(#[trigger] out@[m].0@),
        decreases links@.len() - i,
    {
        let x = copy_link(&links[i]);
        let k = resolution_key(x.0.as_str());
        let ghost sv = links_view(out@);
        let mut j: usize = 0;
        assert(sv.skip(0) =~= sv);
        while j < out.len() && keys[j] >= k
            invariant
                j <= out@.len(),
                sv == links_view(out@),
                keys@.len() == out@.len(),
                forall|m: int| 0 <= m < keys@.len() ==> keys@[m] as nat == res_key(#[trigger] out@[m].0@),
                insert_pos(sv, k as nat) == j + insert_pos(sv.skip(j as int), k as nat),
            decreases out@.len() - j,
        {
            assert(sv.skip(j as int).skip(1) =~= sv.skip(j + 1));
            assert(sv.skip(j as int)[0] == link_view(out@[j as int]));
            j += 1;
        }
        proof {
            if j < out@.len() {
                assert(sv.skip(j as int)[0] == link_view(out@[j as int]));
            }
            assert(insert_pos(sv, k as nat) == j);
            assert(lv.take(i + 1).drop_last() =~= lv.take(i as int));
            assert(lv.take(i + 1).last() == link_view(x));
        }
        let ghost before = out@;
        let ghost before_keys = keys@;
        out.insert(j, x);
        keys.insert(j, k);
        proof {
            lemma_insert_at(before, before_keys, j as int, x, k, out@, keys@);
        }
        i += 1;
    }
    assert(lv.take(links@.len() as int) =~= lv);
    out
}

// ── Choosing ─────────────────────────────────────────────────────────────────

/// The index of the first link whose resolution label contains `q`.
pub open spec fn first_with_res(s: Seq<LinkView>, q: Seq<char>) -> Option<int>
    decreases s.len(),
{
    if s.len() == 0 {
        None
    } else if text::contains(s[0].0, q) {
        Some(0)
    } else {
        match first_with_res(s.skip(1), q) {
            Some(i) => Some(i + 1),
            None => None,
        }
    }
}

/// Which of the ordered links a quality setting picks: `"best"` the first,
/// `"worst"` the last, any other setting the first whose label contains it,
/// or else the first.
pub open spec fn chosen_index(sorted: Seq<LinkView>, quality: Seq<char>) -> Option<int> {
    if sorted.len() == 0 {
        None
    } else if quality == "best"@ {
        Some(0)
    } else if quality == "worst"@ {
        Some(sorted.len() - 1)
    } else {
        match first_with_res(sorted, quality) {
            Some(i) => Some(i),
            None => Some(0),
        }
    }
}

proof fn lemma_first_with_res(s: Seq<LinkView>, q: Seq<char>)
    ensures
        first_with_res(s, q) matches Some(i) ==> 0 <= i < s.len() && text::contains(s[i].0, q),
    decreases s.len(),
{
    if s.len() > 0 && !text::contains(s[0].0, q) {
        lemma_first_with_res(s.skip(1), q);
    }
}

/// The index in the ordered links that the quality setting picks.
pub fn select_index(sorted: &[Link], quality: &str) -> (r: Option<usize>)
    ensures
        r matches Some(i) ==> chosen_index(links_view(sorted@), quality@) == Some(i as int),
        r is None ==> chosen_index(links_view(sorted@), quality@) is None,
{
    let ghost sv = links_view(sorted@);
    if sorted.len() == 0 {
        return None;
    }
    let q = text::to_chars(quality);
    let best = text::to_chars("best");
    let worst = text::to_chars("worst");
    if text::eq_chars(&q, &best) {
        return Some(0);
    }
    if text::eq_chars(&q, &worst) {
        return Some(sorted.len() - 1);
    }
    let mut i: usize = 0;
    assert(sv.skip(0) =~= sv);
    while i < sorted.len()
        invariant
            i <= sorted@.len(),
            sv == links_view(sorted@),
            q@ == quality@,
            quality@ != "best"@,
            quality@ != "worst"@,
            first_with_res(sv, q@) == (match first_with_res(sv.skip(i as int), q@) {
                Some(j) => Some(j + i),
                None => None,
            }),
        decreases sorted@.len() - i,
    {
        let ghost rest = sv.skip(i as int);
        assert(rest.skip(1) =~= sv.skip(i + 1));
        assert(rest[0] == link_view(sorted@[i as int]));
        if text::contains_chars(&text::to_chars(sorted[i].0.as_str()), &q) {
            assert(first_with_res(rest, q@) == Some(0int));
            return Some(i);
        }
        i += 1;
    }
    Some(0)
}

/// The URL and referer of the link that the quality setting picks among
/// the links, once they are ordered by resolution; `None` for no links.
pub fn choose_link(links: &[Link], quality: &str) -> (r: Option<(String, Option<String>)>)
    ensures
        r is Some == (links@.len() > 0),
        r matches Some(c) ==> ({
            let sorted = sort_by_res(links_view(links@));
            let i = chosen_index(sorted, quality@)->0;
            c.0@ == sorted[i].1 && opt_str_view(c.1) == sorted[i].2
        }),
{
    let sorted = sort_links(links);
    proof {
        lemma_sort_by_res(links_view(links@));
    }
    match select_index(&sorted, quality) {
        Some(i) => {
            proof {
                lemma_first_with_res(links_view(sorted@), quality@);
            }
            let l = copy_link(&sorted[i]);
            Some((l.1, l.2))
        },
        None => None,
    }
}

/// With the quality setting `"best"`, the chosen link has the highest
/// resolution key of all the links.
pub proof fn lemma_best_is_highest(links: Seq<LinkView>)
    requires
        links.len() > 0,
    ensures
        ({
            let sorted = sort_by_res(links);
            let i = chosen_index(sorted, "best"@)->0;
            forall|m: int| 0 <= m < links.len() ==> res_key(sorted[i].0) >= res_key(#[trigger] links[m].0)
        }),
{
    let sorted = sort_by_res(links);
    lemma_sort_by_res(links);
    assert forall|m: int| 0 <= m < links.len() implies res_key(sorted[0].0) >= res_key(
        #[trigger] links[m].0,
    ) by {
        assert(links.to_multiset().count(links[m]) > 0);
        assert(sorted.to_multiset().count(links[m]) > 0);
        assert(sorted.contains(links[m]));
        let w = choose|w: int| 0 <= w < sorted.len() && sorted[w] == links[m];
        if w > 0 {
            assert(res_key(sorted[0].0) >= res_key(sorted[w].0));
        }
    }
}

/// With the quality setting `"worst"`, the chosen link has the lowest
/// resolution key of all the links.
pub proof fn lemma_worst_is_lowest(links: Seq<LinkView>)
    requires
        links.len() > 0,
    ensures
        ({
            let sorted = sort_by_res(links);
            let i = chosen_index(sorted, "worst"@)->0;
            forall|m: int| 0 <= m < links.len() ==> res_key(sorted[i].0) <= res_key(#[trigger] links[m].0)
        }),
{
    let sorted = sort_by_res(links);
    lemma_sort_by_res(links);
    reveal_strlit("best");
    reveal_strlit("worst");
    assert("worst"@ != "best"@) by {
        assert("worst"@.len() != "best"@.len());
    }
    let last = sorted.len() - 1;
    assert forall|m: int| 0 <= m < links.len() implies res_key(sorted[last].0) <= res_key(
        #[trigger] links[m].0,
    ) by {
        assert(links.to_multiset().count(links[m]) > 0);
        assert(sorted.to_multiset().count(links[m]) > 0);
        assert(sorted.contains(links[m]));
        let w = choose|w: int| 0 <= w < sorted.len() && sorted[w] == links[m];
        if w < last {
            assert(res_key(sorted[w].0) >= res_key(sorted[last].0));
        }
    }
}

} // verus!
