//! Fuzzy search over sticker names and pack (folder) names, ranked by how well
//! each sticker matches the query.
use vstd::prelude::*;
use crate::text::{chars_of, contains_text, has_prefix, lower_ascii, lower_ascii_exec, occurs_in, same_text};

verus! {

/// Whether the characters of `q` appear in `t` in the same order, possibly with
/// other characters between them.
pub open spec fn in_order(q: Seq<char>, t: Seq<char>) -> bool
    decreases t.len(),
{
    if q.len() == 0 {
        true
    } else if t.len() == 0 {
        false
    } else if q[0] == t[0] {
        in_order(q.drop_first(), t.drop_first())
    } else {
        in_order(q, t.drop_first())
    }
}

/// How well a lower-cased query matches a lower-cased text: 4 for the whole
/// text, 3 for a prefix, 2 for a contiguous run inside it, 1 for its characters
/// in order with gaps, 0 for no match.
pub open spec fn match_level(q: Seq<char>, t: Seq<char>) -> int {
    if t == q {
        4
    } else if q.is_prefix_of(t) {
        3
    } else if occurs_in(q, t) {
        2
    } else if in_order(q, t) {
        1
    } else {
        0
    }
}

/// `match_level` of a query against a text, both compared without regard to
/// ASCII case.
pub open spec fn text_score(q: Seq<char>, t: Seq<char>) -> int {
    match_level(lower_ascii(q), lower_ascii(t))
}

/// The match quality of a sticker from the levels of its name and its pack: a
/// name match ranks above a pack match of the same level (2, 4, 6, 8 for names,
/// 1, 3, 5, 7 for packs), and the better of the two counts; 0 is no match.
pub open spec fn quality(name_level: int, pack_level: int) -> int {
    if name_level == 0 && pack_level == 0 {
        0
    } else if 2 * name_level >= 2 * pack_level - 1 {
        2 * name_level
    } else {
        2 * pack_level - 1
    }
}

/// A sticker as the search sees it.
pub struct SearchEntry {
    pub name: String,
    pub pack: String,
    /// Whether the sticker's file still exists; read only for the Favorites tab.
    pub on_disk: bool,
}

/// The rank of one sticker in a tab's search. `Recents` keeps every row (in the
/// order of last use) whatever the query. `Favorites` drops stickers whose file
/// is gone and matches the query against names and packs; `All` matches names
/// and packs; a pack's own tab matches names only.
pub open spec fn entry_score(q: Seq<char>, tab: Seq<char>, e: SearchEntry) -> int {
    if tab == "Recents"@ {
        1
    } else if tab == "Favorites"@ && !e.on_disk {
        0
    } else if tab == "Favorites"@ || tab == "All"@ {
        quality(text_score(q, e.name@), text_score(q, e.pack@))
    } else {
        quality(text_score(q, e.name@), 0)
    }
}

/// The rank of every entry, in entry order.
pub open spec fn entry_scores(q: Seq<char>, tab: Seq<char>, entries: Seq<SearchEntry>) -> Seq<int> {
    Seq::new(entries.len(), |k: int| entry_score(q, tab, entries[k]))
}

/// The positions whose rank is `l`, in increasing order.
pub open spec fn at_level(s: Seq<int>, l: int) -> Seq<int>
    decreases s.len(),
{
    if s.len() == 0 {
        Seq::empty()
    } else {
        let rest = at_level(s.drop_last(), l);
        if s.last() == l {
            rest.push(s.len() - 1)
        } else {
            rest
        }
    }
}

/// The positions ranked `lvl` to 8: the best first, and positions of equal rank
/// in their own order.
pub open spec fn ranked_from(s: Seq<int>, lvl: int) -> Seq<int>
    decreases 9 - lvl,
{
    if lvl > 8 {
        Seq::empty()
    } else {
        ranked_from(s, lvl + 1) + at_level(s, lvl)
    }
}

/// Every position with a positive rank, best first.
pub open spec fn ranked(s: Seq<int>) -> Seq<int> {
    ranked_from(s, 1)
}

/// The first `limit` items of `s` (all of them when there are fewer).
pub open spec fn truncated(s: Seq<int>, limit: int) -> Seq<int> {
    if s.len() <= limit {
        s
    } else {
        s.take(limit)
    }
}

/// Whether the characters of `q` appear in `t` in order.
fn in_order_exec(q: &Vec<char>, t: &Vec<char>) -> (r: bool)
    ensures
        r == in_order(q@, t@),
{
    let mut i: usize = 0;
    let mut j: usize = 0;
    assert(q@.subrange(0, q@.len() as int) =~= q@);
    assert(t@.subrange(0, t@.len() as int) =~= t@);
    while i < q.len() && j < t.len()
        invariant
            i <= q@.len(),
            j <= t@.len(),
            in_order(q@, t@) == in_order(
                q@.subrange(i as int, q@.len() as int),
                t@.subrange(j as int, t@.len() as int),
            ),
        decreases t.len() - j,
    {
        proof {
            let qs = q@.subrange(i as int, q@.len() as int);
            let ts = t@.subrange(j as int, t@.len() as int);
            assert(qs.drop_first() =~= q@.subrange(i + 1, q@.len() as int));
            assert(ts.drop_first() =~= t@.subrange(j + 1, t@.len() as int));
            assert(qs[0] == q@[i as int]);
            assert(ts[0] == t@[j as int]);
        }
        if q[i] == t[j] {
            i = i + 1;
        }
        j = j + 1;
    }
    proof {
        let qs = q@.subrange(i as int, q@.len() as int);
        let ts = t@.subrange(j as int, t@.len() as int);
        if i < q.len() {
            assert(ts.len() == 0);
            assert(qs.len() > 0);
        }
    }
    i == q.len()
}

/// `match_level` of the lower-cased query `ql` (whose characters are `qv`)
/// against the lower-cased `t`.
fn text_score_exec(ql: &str, qv: &Vec<char>, t: &str) -> (r: u8)
    requires
        qv@ == ql@,
    ensures
        r as int == match_level(ql@, lower_ascii(t@)),
{
    let tl = lower_ascii_exec(t);
    if same_text(tl.as_str(), ql) {
        4
    } else if has_prefix(tl.as_str(), ql) {
        3
    } else if contains_text(tl.as_str(), ql) {
        2
    } else {
        let tv = chars_of(tl.as_str());
        if in_order_exec(qv, &tv) {
            1
        } else {
            0
        }
    }
}

/// Combines the name and pack levels as `quality` does.
fn quality_exec(name_level: u8, pack_level: u8) -> (r: u8)
    requires
        name_level <= 4,
        pack_level <= 4,
    ensures
        r as int == quality(name_level as int, pack_level as int),
        r <= 8,
{
    if name_level == 0 && pack_level == 0 {
        0
    } else if 2 * name_level + 1 >= 2 * pack_level {
        2 * name_level
    } else {
        2 * pack_level - 1
    }
}

proof fn lemma_match_level_bounded(q: Seq<char>, t: Seq<char>)
    ensures
        0 <= match_level(q, t) <= 4,
{
}

/// Ranks one entry as `entry_score` says.
fn entry_score_exec(
    query: &str,
    tab: &str,
    ql: &str,
    qv: &Vec<char>,
    recents: bool,
    favorites: bool,
    all: bool,
    e: &SearchEntry,
) -> (r: u8)
    requires
        ql@ == lower_ascii(query@),
        qv@ == ql@,
        recents == (tab@ == "Recents"@),
        favorites == (tab@ == "Favorites"@),
        all == (tab@ == "All"@),
    ensures
        r as int == entry_score(query@, tab@, *e),
        r <= 8,
{
    if recents {
        1
    } else if favorites && !e.on_disk {
        0
    } else {
        let n = text_score_exec(ql, qv, e.name.as_str());
        proof {
            lemma_match_level_bounded(ql@, lower_ascii(e.name@));
        }
        if favorites || all {
            let p = text_score_exec(ql, qv, e.pack.as_str());
            proof {
                lemma_match_level_bounded(ql@, lower_ascii(e.pack@));
            }
            quality_exec(n, p)
        } else {
            quality_exec(n, 0)
        }
    }
}

/// Truncating after appending one item.
proof fn lemma_truncated_push(s: Seq<int>, x: int, limit: int)
    requires
        limit >= 0,
    ensures
        truncated(s, limit).len() == if s.len() <= limit {
            s.len() as int
        } else {
            limit
        },
        s.len() < limit ==> truncated(s.push(x), limit) == truncated(s, limit).push(x),
        s.len() >= limit ==> truncated(s.push(x), limit) == truncated(s, limit),
{
    if s.len() >= limit {
        assert(s.push(x).take(limit) =~= s.take(limit));
        if s.len() == limit {
            assert(s.take(limit) =~= s);
        }
    }
}

/// The positions of the entries that match `query` in `tab`, best match first
/// and, among equal matches, in entry order; at most `limit` of them.
pub fn search_ranking(query: &str, tab: &str, entries: &Vec<SearchEntry>, limit: usize) -> (r: Vec<
    usize,
>)
    ensures
        r@.map_values(|x: usize| x as int) == truncated(
            ranked(entry_scores(query@, tab@, entries@)),
            limit as int,
        ),
{
    let n = entries.len();
    let ql = lower_ascii_exec(query);
    let qv = chars_of(ql.as_str());
    let recents = same_text(tab, "Recents");
    let favorites = same_text(tab, "Favorites");
    let all = same_text(tab, "All");
    let ghost sc = entry_scores(query@, tab@, entries@);
    let mut scores: Vec<u8> = Vec::new();
    let mut k: usize = 0;
    while k < n
        invariant
            n == entries@.len(),
            sc == entry_scores(query@, tab@, entries@),
            ql@ == lower_ascii(query@),
            qv@ == ql@,
            recents == (tab@ == "Recents"@),
            favorites == (tab@ == "Favorites"@),
            all == (tab@ == "All"@),
            k <= n,
            scores@.len() == k,
            forall|m: int| 0 <= m < k ==> scores@[m] as int == sc[m] && scores@[m] <= 8,
        decreases n - k,
    {
        let s = entry_score_exec(query, tab, ql.as_str(), &qv, recents, favorites, all, &entries[k]);
        scores.push(s);
        k = k + 1;
    }
    let mut out: Vec<usize> = Vec::new();
    let mut lvl: u8 = 8;
    proof {
        assert(out@.map_values(|x: usize| x as int) =~= truncated(ranked_from(sc, 9), limit as int));
    }
    while lvl >= 1
        invariant
            n == entries@.len(),
            sc.len() == n,
            scores@.len() == n,
            forall|m: int| 0 <= m < n ==> scores@[m] as int == sc[m],
            lvl <= 8,
            out@.map_values(|x: usize| x as int) == truncated(
                ranked_from(sc, lvl + 1),
                limit as int,
            ),
        decreases lvl,
    {
        let mut i: usize = 0;
        proof {
            assert(sc.take(0) =~= Seq::<int>::empty());
            assert(ranked_from(sc, lvl + 1) + at_level(sc.take(0), lvl as int) =~= ranked_from(
                sc,
                lvl + 1,
            ));
        }
        while i < n
            invariant
                n == entries@.len(),
                sc.len() == n,
                scores@.len() == n,
                forall|m: int| 0 <= m < n ==> scores@[m] as int == sc[m],
                1 <= lvl <= 8,
                i <= n,
                out@.map_values(|x: usize| x as int) == truncated(
                    ranked_from(sc, lvl + 1) + at_level(sc.take(i as int), lvl as int),
                    limit as int,
                ),
            decreases n - i,
        {
            let ghost before = ranked_from(sc, lvl + 1) + at_level(sc.take(i as int), lvl as int);
            proof {
                assert(sc.take(i + 1).drop_last() =~= sc.take(i as int));
                assert(sc.take(i + 1).last() == sc[i as int]);
                lemma_truncated_push(before, i as int, limit as int);
            }
            if scores[i] == lvl {
                assert(ranked_from(sc, lvl + 1) + at_level(sc.take(i + 1), lvl as int) =~= before.push(
                    i as int,
                ));
                if out.len() < limit {
                    let ghost o = out@;
                    out.push(i);
                    assert(out@.map_values(|x: usize| x as int) =~= o.map_values(|x: usize| x as int).push(
                        i as int,
                    ));
                }
            } else {
                assert(ranked_from(sc, lvl + 1) + at_level(sc.take(i + 1), lvl as int) =~= before);
            }
            i = i + 1;
        }
        proof {
            assert(sc.take(n as int) =~= sc);
        }
        lvl = lvl - 1;
    }
    out
}

/// What `at_level` holds: exactly the positions ranked `l`, increasing.
proof fn lemma_at_level(s: Seq<int>, l: int)
    ensures
        forall|m: int|
            0 <= m < at_level(s, l).len() ==> 0 <= #[trigger] at_level(s, l)[m] < s.len() && s[at_level(
                s,
                l,
            )[m]] == l,
        forall|m1: int, m2: int|
            0 <= m1 < m2 < at_level(s, l).len() ==> #[trigger] at_level(s, l)[m1] < #[trigger] at_level(
                s,
                l,
            )[m2],
        forall|k: int| 0 <= k < s.len() && s[k] == l ==> #[trigger] at_level(s, l).contains(k),
    decreases s.len(),
{
    if s.len() > 0 {
        let d = s.drop_last();
        lemma_at_level(d, l);
        let rest = at_level(d, l);
        let a = at_level(s, l);
        assert forall|m: int| 0 <= m < a.len() implies 0 <= #[trigger] a[m] < s.len() && s[a[m]] == l by {
            if m < rest.len() {
                assert(a[m] == rest[m]);
                assert(d[rest[m]] == s[rest[m]]);
            }
        }
        assert forall|m1: int, m2: int| 0 <= m1 < m2 < a.len() implies #[trigger] a[m1] < #[trigger] a[m2] by {
            if m2 < rest.len() {
                assert(a[m1] == rest[m1] && a[m2] == rest[m2]);
            } else {
                assert(a[m1] == rest[m1]);
            }
        }
        assert forall|k: int| 0 <= k < s.len() && s[k] == l implies #[trigger] a.contains(k) by {
            if k < s.len() - 1 {
                assert(d[k] == s[k]);
                assert(rest.contains(k));
                let m = choose|m: int| 0 <= m < rest.len() && rest[m] == k;
                assert(a[m] == k);
            } else {
                assert(a[a.len() - 1] == k);
            }
        }
    }
}

/// What `ranked_from` holds: exactly the positions ranked `lvl` to 8, the
/// better rank first and equal ranks in increasing position.
proof fn lemma_ranked_from(s: Seq<int>, lvl: int)
    requires
        1 <= lvl <= 9,
    ensures
        forall|m: int|
            0 <= m < ranked_from(s, lvl).len() ==> 0 <= #[trigger] ranked_from(s, lvl)[m] < s.len()
                && lvl <= s[ranked_from(s, lvl)[m]] <= 8,
        forall|k: int|
            0 <= k < s.len() && lvl <= s[k] <= 8 ==> #[trigger] ranked_from(s, lvl).contains(k),
        forall|m1: int, m2: int|
            0 <= m1 < m2 < ranked_from(s, lvl).len() ==> s[#[trigger] ranked_from(s, lvl)[m1]] > s[
                #[trigger] ranked_from(s, lvl)[m2]] || (s[ranked_from(s, lvl)[m1]] == s[ranked_from(
                s,
                lvl,
            )[m2]] && ranked_from(s, lvl)[m1] < ranked_from(s, lvl)[m2]),
    decreases 9 - lvl,
{
    if lvl <= 8 {
        lemma_ranked_from(s, lvl + 1);
        lemma_at_level(s, lvl);
        let b = ranked_from(s, lvl + 1);
        let t = at_level(s, lvl);
        let a = ranked_from(s, lvl);
        assert(a == b + t);
        assert forall|m: int| 0 <= m < a.len() implies 0 <= #[trigger] a[m] < s.len() && lvl <= s[a[m]]
            <= 8 by {
            if m < b.len() {
                assert(a[m] == b[m]);
            } else {
                assert(a[m] == t[m - b.len()]);
            }
        }
        assert forall|k: int| 0 <= k < s.len() && lvl <= s[k] <= 8 implies #[trigger] a.contains(k) by {
            if s[k] == lvl {
                assert(t.contains(k));
                let m = choose|m: int| 0 <= m < t.len() && t[m] == k;
                assert(a[b.len() + m] == k);
            } else {
                assert(b.contains(k));
                let m = choose|m: int| 0 <= m < b.len() && b[m] == k;
                assert(a[m] == k);
            }
        }
        assert forall|m1: int, m2: int| 0 <= m1 < m2 < a.len() implies s[#[trigger] a[m1]] > s[#[trigger] a[m2]]
            || (s[a[m1]] == s[a[m2]] && a[m1] < a[m2]) by {
            if m2 < b.len() {
                assert(a[m1] == b[m1] && a[m2] == b[m2]);
            } else if m1 < b.len() {
                assert(a[m1] == b[m1] && a[m2] == t[m2 - b.len()]);
            } else {
                assert(a[m1] == t[m1 - b.len()] && a[m2] == t[m2 - b.len()]);
            }
        }
    }
}

/// A search keeps exactly the matching entries: in the Favorites and All tabs a
/// sticker matches when the query matches its name or its pack, in a pack's tab
/// when it matches its name, and a favourite whose file is gone never matches.
/// Better matches come first, and equal matches keep the entries' order.
pub proof fn law_search_ranks_by_quality(q: Seq<char>, tab: Seq<char>, entries: Seq<SearchEntry>)
    ensures
        ({
            let s = entry_scores(q, tab, entries);
            let r = ranked(s);
            &&& forall|k: int|
                0 <= k < entries.len() ==> (r.contains(k) <==> entry_score(
                    q,
                    tab,
                    #[trigger] entries[k],
                ) > 0)
            &&& forall|m1: int, m2: int|
                0 <= m1 < m2 < r.len() ==> s[#[trigger] r[m1]] > s[#[trigger] r[m2]] || (s[r[m1]]
                    == s[r[m2]] && r[m1] < r[m2])
        }),
        tab == "Favorites"@ ==> forall|k: int|
            0 <= k < entries.len() && !(#[trigger] entries[k]).on_disk ==> entry_score(
                q,
                tab,
                entries[k],
            ) == 0,
        (tab == "Favorites"@ || tab == "All"@) ==> forall|k: int|
            0 <= k < entries.len() && (tab == "All"@ || entries[k].on_disk) ==> (entry_score(
                q,
                tab,
                #[trigger] entries[k],
            ) > 0 <==> (text_score(q, entries[k].name@) > 0 || text_score(q, entries[k].pack@)
                > 0)),
{
    reveal_strlit("Recents");
    reveal_strlit("Favorites");
    reveal_strlit("All");
    assert("Recents"@[0] != "Favorites"@[0]);
    assert("Recents"@[0] != "All"@[0]);
    assert("Favorites"@[0] != "All"@[0]);
    let s = entry_scores(q, tab, entries);
    assert forall|k: int| 0 <= k < s.len() implies 0 <= #[trigger] s[k] <= 8 by {
        lemma_match_level_bounded(lower_ascii(q), lower_ascii(entries[k].name@));
        lemma_match_level_bounded(lower_ascii(q), lower_ascii(entries[k].pack@));
    }
    lemma_ranked_from(s, 1);
    let r = ranked(s);
    assert forall|k: int| 0 <= k < entries.len() implies (r.contains(k) <==> entry_score(
        q,
        tab,
        #[trigger] entries[k],
    ) > 0) by {
        assert(s[k] == entry_score(q, tab, entries[k]));
        if r.contains(k) {
            let m = choose|m: int| 0 <= m < r.len() && r[m] == k;
            assert(1 <= s[r[m]]);
        }
    }
    assert forall|k: int|
        0 <= k < entries.len() && (tab == "Favorites"@ || tab == "All"@) && (tab == "All"@
            || entries[k].on_disk) implies (entry_score(q, tab, #[trigger] entries[k]) > 0 <==> (
    text_score(q, entries[k].name@) > 0 || text_score(q, entries[k].pack@) > 0)) by {
        lemma_match_level_bounded(lower_ascii(q), lower_ascii(entries[k].name@));
        lemma_match_level_bounded(lower_ascii(q), lower_ascii(entries[k].pack@));
    }
}

/// `idx` picks, for each character of `q` in turn, a position of `t` holding
/// that character, the positions strictly increasing.
pub open spec fn picks(q: Seq<char>, t: Seq<char>, idx: Seq<int>) -> bool {
    &&& idx.len() == q.len()
    &&& forall|i: int| 0 <= i < idx.len() ==> 0 <= #[trigger] idx[i] < t.len() && t[idx[i]] == q[i]
    &&& forall|i: int, j: int| 0 <= i < j < idx.len() ==> #[trigger] idx[i] < #[trigger] idx[j]
}

proof fn lemma_in_order_picks(q: Seq<char>, t: Seq<char>)
    requires
        in_order(q, t),
    ensures
        exists|idx: Seq<int>| picks(q, t, idx),
    decreases t.len(),
{
    if q.len() == 0 {
        assert(picks(q, t, Seq::<int>::empty()));
    } else if q[0] == t[0] {
        lemma_in_order_picks(q.drop_first(), t.drop_first());
        let inner = choose|idx: Seq<int>| picks(q.drop_first(), t.drop_first(), idx);
        let idx = seq![0int] + Seq::new(inner.len(), |i: int| inner[i] + 1);
        assert forall|i: int| 0 <= i < idx.len() implies 0 <= #[trigger] idx[i] < t.len() && t[idx[i]]
            == q[i] by {
            if i > 0 {
                assert(idx[i] == inner[i - 1] + 1);
                assert(t.drop_first()[inner[i - 1]] == q.drop_first()[i - 1]);
            }
        }
        assert forall|i: int, j: int| 0 <= i < j < idx.len() implies #[trigger] idx[i] < #[trigger] idx[j] by {
            if i > 0 {
                assert(idx[i] == inner[i - 1] + 1 && idx[j] == inner[j - 1] + 1);
            } else {
                assert(idx[j] == inner[j - 1] + 1);
                assert(0 <= inner[j - 1]);
            }
        }
        assert(picks(q, t, idx));
    } else {
        lemma_in_order_picks(q, t.drop_first());
        let inner = choose|idx: Seq<int>| picks(q, t.drop_first(), idx);
        let idx = Seq::new(inner.len(), |i: int| inner[i] + 1);
        assert forall|i: int| 0 <= i < idx.len() implies 0 <= #[trigger] idx[i] < t.len() && t[idx[i]]
            == q[i] by {
            assert(t.drop_first()[inner[i]] == q[i]);
        }
        assert forall|i: int, j: int| 0 <= i < j < idx.len() implies #[trigger] idx[i] < #[trigger] idx[j] by {
            assert(inner[i] < inner[j]);
        }
        assert(picks(q, t, idx));
    }
}

proof fn lemma_picks_in_order(q: Seq<char>, t: Seq<char>, idx: Seq<int>)
    requires
        picks(q, t, idx),
    ensures
        in_order(q, t),
    decreases t.len(),
{
    if q.len() == 0 {
    } else if t.len() == 0 {
        assert(0 <= idx[0] < t.len());
    } else if q[0] == t[0] {
        let rest = Seq::new((idx.len() - 1) as nat, |i: int| idx[i + 1] - 1);
        assert forall|i: int| 0 <= i < rest.len() implies 0 <= #[trigger] rest[i] < t.drop_first().len()
            && t.drop_first()[rest[i]] == q.drop_first()[i] by {
            assert(idx[0] < idx[i + 1]);
            assert(0 <= idx[0]);
            assert(t[idx[i + 1]] == q[i + 1]);
        }
        assert forall|i: int, j: int| 0 <= i < j < rest.len() implies #[trigger] rest[i] < #[trigger] rest[j] by {
            assert(idx[i + 1] < idx[j + 1]);
        }
        lemma_picks_in_order(q.drop_first(), t.drop_first(), rest);
    } else {
        assert(t[idx[0]] == q[0]);
        assert(idx[0] != 0);
        let rest = Seq::new(idx.len(), |i: int| idx[i] - 1);
        assert forall|i: int| 0 <= i < rest.len() implies 0 <= #[trigger] rest[i] < t.drop_first().len()
            && t.drop_first()[rest[i]] == q[i] by {
            if i > 0 {
                assert(idx[0] < idx[i]);
            }
            assert(t[idx[i]] == q[i]);
        }
        assert forall|i: int, j: int| 0 <= i < j < rest.len() implies #[trigger] rest[i] < #[trigger] rest[j] by {
            assert(idx[i] < idx[j]);
        }
        lemma_picks_in_order(q, t.drop_first(), rest);
    }
}

/// The fuzzy test finds a query exactly when its characters can be picked out
/// of the text at increasing positions (the query is a subsequence of the text).
pub proof fn law_fuzzy_match_is_subsequence(q: Seq<char>, t: Seq<char>)
    ensures
        in_order(q, t) <==> exists|idx: Seq<int>| picks(q, t, idx),
{
    if in_order(q, t) {
        lemma_in_order_picks(q, t);
    }
    if exists|idx: Seq<int>| picks(q, t, idx) {
        let idx = choose|idx: Seq<int>| picks(q, t, idx);
        lemma_picks_in_order(q, t, idx);
    }
}

/// A text that matches a query in any way (whole, as a prefix, as a run or
/// with gaps) gets a positive level, and exactly then: a query matches when it
/// is a subsequence of the text, and an equal text ranks highest.
pub proof fn law_match_levels(q: Seq<char>, t: Seq<char>)
    ensures
        match_level(q, t) > 0 <==> exists|idx: Seq<int>| picks(q, t, idx),
        t == q ==> match_level(q, t) == 4,
        t != q ==> match_level(q, t) < 4,
        q.is_prefix_of(t) && t != q ==> match_level(q, t) == 3,
{
    law_fuzzy_match_is_subsequence(q, t);
    if q.is_prefix_of(t) {
        let idx = Seq::new(q.len(), |i: int| i);
        assert(picks(q, t, idx));
    }
    if occurs_in(q, t) {
        let k = choose|k: int| 0 <= k <= t.len() - q.len() && #[trigger] t.subrange(k, k + q.len()) == q;
        let idx = Seq::new(q.len(), |i: int| k + i);
        assert forall|i: int| 0 <= i < idx.len() implies 0 <= #[trigger] idx[i] < t.len() && t[idx[i]]
            == q[i] by {
            assert(t.subrange(k, k + q.len())[i] == q[i]);
        }
        assert(picks(q, t, idx));
    }
}

} // verus!
