//! Indexing the sticker folder: which files are stickers, which need a (new)
//! thumbnail, which index rows are gone, and what each new row holds.
use vstd::prelude::*;
use vstd::hash_set::StringHashSet;
use crate::database::{SqlStatement, insert_statement, thumbnail_update_statement};
use crate::media::{MAX_STICKER_SIZE, MediaKind};
use crate::text::{chars_of, lower_ascii, lower_ascii_exec, same_text, string_of};

verus! {

/// Whether a scanned file is indexed: it has a sticker extension, and a video
/// is also within the size limit (when its size is known) and known to be at
/// most fifteen seconds long (`duration_ok`).
pub open spec fn entry_is_sticker(
    kind: Option<MediaKind>,
    size: Option<u64>,
    duration_ok: Option<bool>,
) -> bool {
    match kind {
        None => false,
        Some(MediaKind::Video) => !(size matches Some(s) && s > MAX_STICKER_SIZE) && duration_ok
            == Some(true),
        Some(_) => true,
    }
}

/// Which scanned files are indexed: a file without a sticker extension never; a
/// still image, GIF or WebP always; a video only when it is at most 25 MiB
/// (26214400 bytes) when its size is known and is known to be short enough.
pub proof fn law_indexed_entries(kind: Option<MediaKind>, size: Option<u64>, duration_ok: Option<bool>)
    ensures
        kind is None ==> !entry_is_sticker(kind, size, duration_ok),
        (kind == Some(MediaKind::Still) || kind == Some(MediaKind::Gif) || kind == Some(
            MediaKind::Webp,
        )) ==> entry_is_sticker(kind, size, duration_ok),
        kind == Some(MediaKind::Video) ==> (entry_is_sticker(kind, size, duration_ok) <==> (
        !(size matches Some(s) && s > 26214400) && duration_ok == Some(true))),
{
}

/// Decides `entry_is_sticker`.
pub fn entry_accepted(kind: Option<MediaKind>, size: Option<u64>, duration_ok: Option<bool>) -> (r:
    bool)
    ensures
        r == entry_is_sticker(kind, size, duration_ok),
{
    match kind {
        None => false,
        Some(MediaKind::Video) => {
            let small = match size {
                Some(s) => s <= MAX_STICKER_SIZE,
                None => true,
            };
            small && match duration_ok {
                Some(true) => true,
                _ => false,
            }
        },
        Some(_) => true,
    }
}

/// A file to process in this indexing run.
pub struct Candidate {
    pub path: String,
    /// Not in the index yet (else it only needs a new thumbnail).
    pub is_new: bool,
}

/// A candidate as the contracts see it.
pub open spec fn candidate_view(c: Candidate) -> (Seq<char>, bool) {
    (c.path@, c.is_new)
}

/// The paths of `existing` that are not in `found`, in order.
pub open spec fn stale_paths(existing: Seq<Seq<char>>, found: Set<Seq<char>>) -> Seq<Seq<char>>
    decreases existing.len(),
{
    if existing.len() == 0 {
        Seq::empty()
    } else {
        let rest = stale_paths(existing.drop_last(), found);
        if found.contains(existing.last()) {
            rest
        } else {
            rest.push(existing.last())
        }
    }
}

/// An indexing run in progress: the indexed paths, the sticker files seen so
/// far, and the files that need processing.
pub struct IndexScan {
    known_list: Vec<String>,
    known: StringHashSet,
    found: StringHashSet,
    candidates: Vec<Candidate>,
}

impl IndexScan {
    /// The indexed paths, in the order the index gave them.
    pub closed spec fn known_paths(&self) -> Seq<Seq<char>> {
        self.known_list.deep_view()
    }

    /// The sticker files seen so far.
    pub closed spec fn found_paths(&self) -> Set<Seq<char>> {
        self.found@
    }

    /// The files to process, in the order they were seen.
    pub closed spec fn pending(&self) -> Seq<(Seq<char>, bool)> {
        self.candidates@.map_values(|c: Candidate| candidate_view(c))
    }

    /// Every sticker file seen so far either is in the index already or waits to
    /// be added as new: no file on disk is left out of the index.
    pub open spec fn covers_found(&self) -> bool {
        forall|p: Seq<char>|
            #[trigger] self.found_paths().contains(p) ==> self.known_paths().contains(p) || self.pending().contains(
                (p, true),
            )
    }

    /// Internal consistency: the set of indexed paths is the list's set.
    pub closed spec fn wf(&self) -> bool {
        forall|p: Seq<char>| self.known@.contains(p) <==> self.known_list.deep_view().contains(p)
    }

    /// Starts a run over the paths already in the index.
    pub fn new(existing: Vec<String>) -> (r: IndexScan)
        ensures
            r.wf(),
            r.covers_found(),
            r.known_paths() == existing.deep_view(),
            r.found_paths() == Set::<Seq<char>>::empty(),
            r.pending() == Seq::<(Seq<char>, bool)>::empty(),
    {
        let mut known = StringHashSet::new();
        let mut i: usize = 0;
        while i < existing.len()
            invariant
                i <= existing@.len(),
                forall|p: Seq<char>| known@.contains(p) <==> existing.deep_view().subrange(
                    0,
                    i as int,
                ).contains(p),
            decreases existing.len() - i,
        {
            let ghost before = known@;
            known.insert(existing[i].clone());
            proof {
                let dv = existing.deep_view();
                assert(dv.subrange(0, i + 1) =~= dv.subrange(0, i as int).push(dv[i as int]));
                assert forall|p: Seq<char>| known@.contains(p) <==> dv.subrange(0, i + 1).contains(
                    p,
                ) by {
                    if dv.subrange(0, i + 1).contains(p) {
                        let k = choose|k: int| 0 <= k < i + 1 && #[trigger] dv.subrange(0, i + 1)[k] == p;
                        if k < i {
                            assert(dv.subrange(0, i as int)[k] == p);
                        }
                    }
                    if known@.contains(p) && p != dv[i as int] {
                        assert(before.contains(p));
                        let k = choose|k: int| 0 <= k < i && #[trigger] dv.subrange(0, i as int)[k] == p;
                        assert(dv.subrange(0, i + 1)[k] == p);
                    }
                    if p == dv[i as int] {
                        assert(dv.subrange(0, i + 1)[i as int] == p);
                    }
                }
            }
            i = i + 1;
        }
        proof {
            assert(existing.deep_view().subrange(0, existing@.len() as int) =~= existing.deep_view());
        }
        let r = IndexScan { known_list: existing, known, found: StringHashSet::new(), candidates: Vec::new() };
        assert(r.pending() =~= Seq::<(Seq<char>, bool)>::empty());
        r
    }

    /// Whether a path is in the index.
    pub fn is_known(&self, path: &str) -> (r: bool)
        requires
            self.wf(),
        ensures
            r == self.known_paths().contains(path@),
    {
        self.known.contains(path)
    }

    /// Records a sticker file seen on disk. A file not in the index is processed
    /// as new; an indexed file is processed again only when its thumbnail is
    /// missing (`thumbnail_present` is not consulted for new files).
    pub fn record(&mut self, path: String, thumbnail_present: bool)
        requires
            old(self).wf(),
        ensures
            final(self).wf(),
            old(self).covers_found() ==> final(self).covers_found(),
            final(self).known_paths() == old(self).known_paths(),
            final(self).found_paths() == old(self).found_paths().insert(path@),
            final(self).pending() == if !old(self).known_paths().contains(path@) {
                old(self).pending().push((path@, true))
            } else if !thumbnail_present {
                old(self).pending().push((path@, false))
            } else {
                old(self).pending()
            },
    {
        let known = self.known.contains(path.as_str());
        let ghost p = path@;
        let ghost before = self.candidates@;
        let ghost old_cov = self.covers_found();
        let ghost old_pending = self.pending();
        let ghost old_known = self.known_paths();
        let ghost old_found_paths = self.found_paths();
        if !known {
            self.found.insert(path.clone());
            self.candidates.push(Candidate { path, is_new: true });
        } else if !thumbnail_present {
            self.found.insert(path.clone());
            self.candidates.push(Candidate { path, is_new: false });
        } else {
            self.found.insert(path);
        }
        proof {
            let pend = before.map_values(|c: Candidate| candidate_view(c));
            assert(self.candidates@.map_values(|c: Candidate| candidate_view(c)) =~= if !known {
                pend.push((p, true))
            } else if !thumbnail_present {
                pend.push((p, false))
            } else {
                pend
            });
            let now = self.pending();
            assert forall|q: Seq<char>| pend.contains((q, true)) implies now.contains((q, true)) by {
                let k = choose|k: int| 0 <= k < pend.len() && pend[k] == (q, true);
                assert(now[k] == (q, true));
            }
            if !known {
                assert(now[now.len() - 1] == (p, true));
            }
            if old_cov {
                assert forall|q: Seq<char>| #[trigger] self.found_paths().contains(q) implies self.known_paths().contains(q)
                    || self.pending().contains((q, true)) by {
                    if q != p {
                        assert(old_found_paths.contains(q));
                        assert(old_known.contains(q) || old_pending.contains((q, true)));
                        assert(old_pending == pend);
                    }
                }
            }
        }
    }

    /// Ends the scan: the indexed paths that were not seen again (to be removed
    /// from the index), and the files to process.
    pub fn finish(self) -> (r: (Vec<String>, Vec<Candidate>))
        requires
            self.wf(),
        ensures
            r.0.deep_view() == stale_paths(self.known_paths(), self.found_paths()),
            r.1@.map_values(|c: Candidate| candidate_view(c)) == self.pending(),
    {
        let ghost all = self.known_list.deep_view();
        let ghost found = self.found@;
        let mut gone: Vec<String> = Vec::new();
        let mut i: usize = 0;
        while i < self.known_list.len()
            invariant
                all == self.known_list.deep_view(),
                found == self.found@,
                i <= all.len(),
                gone.deep_view() == stale_paths(all.subrange(0, i as int), found),
            decreases self.known_list.len() - i,
        {
            proof {
                assert(all.subrange(0, i + 1).drop_last() =~= all.subrange(0, i as int));
            }
            let keep = !self.found.contains(self.known_list[i].as_str());
            if keep {
                let ghost g = gone.deep_view();
                gone.push(self.known_list[i].clone());
                assert(gone.deep_view() =~= g.push(all[i as int]));
            }
            i = i + 1;
        }
        proof {
            assert(all.subrange(0, all.len() as int) =~= all);
        }
        (gone, self.candidates)
    }
}

/// The paths among a run's files (each a path and whether its thumbnail exists).
pub open spec fn found_set(files: Seq<(Seq<char>, bool)>) -> Set<Seq<char>>
    decreases files.len(),
{
    if files.len() == 0 {
        Set::empty()
    } else {
        found_set(files.drop_last()).insert(files.last().0)
    }
}

/// The files a run over `files` processes, given the indexed paths `known`: each
/// file not in the index as new, and each indexed file without a thumbnail for
/// a new thumbnail, in the order the files were seen.
pub open spec fn run_pending(known: Seq<Seq<char>>, files: Seq<(Seq<char>, bool)>) -> Seq<
    (Seq<char>, bool),
>
    decreases files.len(),
{
    if files.len() == 0 {
        Seq::empty()
    } else {
        let rest = run_pending(known, files.drop_last());
        let f = files.last();
        if !known.contains(f.0) {
            rest.push((f.0, true))
        } else if !f.1 {
            rest.push((f.0, false))
        } else {
            rest
        }
    }
}

/// A scanned file as the contracts see it.
pub open spec fn file_view(f: (String, bool)) -> (Seq<char>, bool) {
    (f.0@, f.1)
}

/// A whole indexing run: starts from the indexed paths `existing`, records every
/// sticker file found (its path and whether its thumbnail exists), and returns
/// the indexed paths to remove and the files to process.
pub fn index_run(existing: Vec<String>, files: &Vec<(String, bool)>) -> (r: (Vec<String>, Vec<
    Candidate,
>))
    ensures
        r.0.deep_view() == stale_paths(
            existing.deep_view(),
            found_set(files@.map_values(|f: (String, bool)| file_view(f))),
        ),
        r.1@.map_values(|c: Candidate| candidate_view(c)) == run_pending(
            existing.deep_view(),
            files@.map_values(|f: (String, bool)| file_view(f)),
        ),
{
    let ghost ex = existing.deep_view();
    let ghost fv = files@.map_values(|f: (String, bool)| file_view(f));
    let mut scan = IndexScan::new(existing);
    let mut i: usize = 0;
    proof {
        assert(fv.take(0) =~= Seq::<(Seq<char>, bool)>::empty());
        assert(found_set(fv.take(0)) =~= Set::<Seq<char>>::empty());
    }
    while i < files.len()
        invariant
            scan.wf(),
            scan.known_paths() == ex,
            fv == files@.map_values(|f: (String, bool)| file_view(f)),
            i <= files@.len(),
            scan.found_paths() == found_set(fv.take(i as int)),
            scan.pending() == run_pending(ex, fv.take(i as int)),
        decreases files.len() - i,
    {
        proof {
            assert(fv.take(i + 1).drop_last() =~= fv.take(i as int));
            assert(fv.take(i + 1).last() == fv[i as int]);
        }
        let path = files[i].0.clone();
        scan.record(path, files[i].1);
        i = i + 1;
    }
    proof {
        assert(fv.take(files@.len() as int) =~= fv);
    }
    scan.finish()
}

proof fn lemma_found_set(files: Seq<(Seq<char>, bool)>, p: Seq<char>)
    ensures
        found_set(files).contains(p) <==> exists|i: int| 0 <= i < files.len() && #[trigger] files[i].0 == p,
    decreases files.len(),
{
    if files.len() > 0 {
        let d = files.drop_last();
        lemma_found_set(d, p);
        if found_set(d).contains(p) {
            let i = choose|i: int| 0 <= i < d.len() && #[trigger] d[i].0 == p;
            assert(files[i].0 == p);
        }
        if exists|i: int| 0 <= i < files.len() && #[trigger] files[i].0 == p {
            let i = choose|i: int| 0 <= i < files.len() && #[trigger] files[i].0 == p;
            if i < files.len() - 1 {
                assert(d[i].0 == p);
            }
        }
    }
}

proof fn lemma_run_pending_new(known: Seq<Seq<char>>, files: Seq<(Seq<char>, bool)>, p: Seq<char>)
    ensures
        run_pending(known, files).contains((p, true)) <==> (found_set(files).contains(p)
            && !known.contains(p)),
        forall|m: int|
            0 <= m < run_pending(known, files).len() ==> found_set(files).contains(
                #[trigger] run_pending(known, files)[m].0,
            ),
    decreases files.len(),
{
    if files.len() > 0 {
        let d = files.drop_last();
        lemma_run_pending_new(known, d, p);
        let rest = run_pending(known, d);
        let all = run_pending(known, files);
        let f = files.last();
        assert forall|m: int| 0 <= m < all.len() implies found_set(files).contains(
            #[trigger] all[m].0,
        ) by {
            if m < rest.len() {
                assert(all[m] == rest[m]);
            }
        }
        if all.contains((p, true)) {
            let m = choose|m: int| 0 <= m < all.len() && all[m] == (p, true);
            if m < rest.len() {
                assert(rest[m] == (p, true));
            }
        }
        if found_set(files).contains(p) && !known.contains(p) {
            if found_set(d).contains(p) {
                let m = choose|m: int| 0 <= m < rest.len() && rest[m] == (p, true);
                assert(all[m] == (p, true));
            } else {
                assert(f.0 == p);
                assert(all[all.len() - 1] == (p, true));
            }
        }
    }
}

proof fn lemma_run_pending_none(known: Seq<Seq<char>>, files: Seq<(Seq<char>, bool)>)
    requires
        forall|i: int| 0 <= i < files.len() ==> known.contains(#[trigger] files[i].0) && files[i].1,
    ensures
        run_pending(known, files) == Seq::<(Seq<char>, bool)>::empty(),
    decreases files.len(),
{
    if files.len() > 0 {
        let d = files.drop_last();
        assert forall|i: int| 0 <= i < d.len() implies known.contains(#[trigger] d[i].0) && d[i].1 by {
            assert(d[i] == files[i]);
        }
        lemma_run_pending_none(known, d);
        assert(files.last() == files[files.len() - 1]);
    }
}

/// What an indexing run leaves in the index: the indexed paths it did not
/// remove, and the new files it added.
pub open spec fn index_after(existing: Seq<Seq<char>>, files: Seq<(Seq<char>, bool)>) -> Set<
    Seq<char>,
> {
    Set::new(
        |p: Seq<char>|
            (existing.contains(p) && !stale_paths(existing, found_set(files)).contains(p))
                || run_pending(existing, files).contains((p, true)),
    )
}

/// Indexing an unchanged folder a second time changes nothing: when the index
/// holds what a first run left in it, and the second run finds the same files,
/// it adds no sticker and removes no path; the only files it processes are
/// indexed ones whose thumbnail is missing (to make the thumbnail again), and
/// with every thumbnail in place it processes none.
pub proof fn law_second_run_changes_nothing(
    existing: Seq<Seq<char>>,
    first: Seq<(Seq<char>, bool)>,
    index: Seq<Seq<char>>,
    second: Seq<(Seq<char>, bool)>,
)
    requires
        forall|p: Seq<char>| #[trigger] index.contains(p) <==> index_after(existing, first).contains(p),
        second.len() == first.len(),
        forall|i: int| 0 <= i < second.len() ==> (#[trigger] second[i]).0 == first[i].0,
    ensures
        forall|m: int|
            0 <= m < run_pending(index, second).len() ==> !(#[trigger] run_pending(index, second)[m]).1,
        (forall|i: int| 0 <= i < second.len() ==> (#[trigger] second[i]).1) ==> run_pending(
            index,
            second,
        ) == Seq::<(Seq<char>, bool)>::empty(),
        stale_paths(index, found_set(second)) == Seq::<Seq<char>>::empty(),
{
    assert forall|p: Seq<char>| #[trigger] found_set(second).contains(p) <==> found_set(first).contains(p) by {
        lemma_found_set(first, p);
        lemma_found_set(second, p);
        if exists|i: int| 0 <= i < second.len() && #[trigger] second[i].0 == p {
            let i = choose|i: int| 0 <= i < second.len() && #[trigger] second[i].0 == p;
            assert(first[i].0 == p);
        }
        if exists|i: int| 0 <= i < first.len() && #[trigger] first[i].0 == p {
            let i = choose|i: int| 0 <= i < first.len() && #[trigger] first[i].0 == p;
            assert(second[i].0 == p);
        }
    }
    assert forall|p: Seq<char>| #[trigger] index.contains(p) <==> found_set(first).contains(p) by {
        law_removed_iff_indexed_and_missing(existing, found_set(first), p);
        lemma_run_pending_new(existing, first, p);
    }
    let pend = run_pending(index, second);
    assert forall|m: int| 0 <= m < pend.len() implies !(#[trigger] pend[m]).1 by {
        let p = pend[m].0;
        lemma_run_pending_new(index, second, p);
        if pend[m].1 {
            assert(pend[m] == (p, true));
            assert(pend.contains((p, true)));
        }
    }
    if forall|i: int| 0 <= i < second.len() ==> (#[trigger] second[i]).1 {
        assert forall|i: int| 0 <= i < second.len() implies index.contains(#[trigger] second[i].0)
            && second[i].1 by {
            lemma_found_set(second, second[i].0);
            assert(found_set(second).contains(second[i].0));
        }
        lemma_run_pending_none(index, second);
    }
    let st = stale_paths(index, found_set(second));
    if st.len() > 0 {
        law_removed_iff_indexed_and_missing(index, found_set(second), st[0]);
        assert(st.contains(st[0]));
    }
    assert(st =~= Seq::<Seq<char>>::empty());
}

/// A path is removed from the index exactly when it was indexed and is no
/// longer found on disk.
pub proof fn law_removed_iff_indexed_and_missing(existing: Seq<Seq<char>>, found: Set<Seq<char>>, p: Seq<char>)
    ensures
        stale_paths(existing, found).contains(p) <==> (existing.contains(p) && !found.contains(p)),
    decreases existing.len(),
{
    if existing.len() > 0 {
        law_removed_iff_indexed_and_missing(existing.drop_last(), found, p);
        let rest = stale_paths(existing.drop_last(), found);
        let all = stale_paths(existing, found);
        if all.contains(p) {
            let k = choose|k: int| 0 <= k < all.len() && #[trigger] all[k] == p;
            if k < rest.len() {
                assert(rest[k] == p);
                let j = choose|j: int| 0 <= j < existing.drop_last().len() && #[trigger] existing.drop_last()[j] == p;
                assert(existing[j] == p);
            } else {
                assert(existing[existing.len() - 1] == p);
            }
        }
        if existing.contains(p) && !found.contains(p) {
            let j = choose|j: int| 0 <= j < existing.len() && #[trigger] existing[j] == p;
            if j < existing.len() - 1 {
                assert(existing.drop_last()[j] == p);
                let k = choose|k: int| 0 <= k < rest.len() && #[trigger] rest[k] == p;
                assert(all[k] == p);
            } else {
                assert(all[all.len() - 1] == p);
            }
        }
    }
}

/// The name a sticker file shows: its stem, without a trailing `.heic` and then
/// without a trailing `.heif` (compared without regard to ASCII case).
pub open spec fn strip_suffix_ci(s: Seq<char>, suffix: Seq<char>) -> Seq<char> {
    if s.len() >= suffix.len() && lower_ascii(s.subrange(s.len() - suffix.len(), s.len() as int))
        == suffix {
        s.subrange(0, s.len() - suffix.len())
    } else {
        s
    }
}

/// The displayed name of a sticker whose file stem is `stem`.
pub open spec fn display_name(stem: Seq<char>) -> Seq<char> {
    strip_suffix_ci(strip_suffix_ci(stem, ".heic"@), ".heif"@)
}


/// A sticker's shown name drops one trailing `.heic` or `.heif` (in any ASCII
/// case) from its file stem, and leaves a stem without such an ending as it is.
pub proof fn law_display_name(base: Seq<char>, x: Seq<char>)
    requires
        x.len() == 5,
        lower_ascii(x) == seq!['.', 'h', 'e', 'i', 'c'] || lower_ascii(x) == seq!['.', 'h', 'e', 'i', 'f'],
        !(base.len() >= 5 && (lower_ascii(base.subrange(base.len() - 5, base.len() as int)) == seq![
            '.',
            'h',
            'e',
            'i',
            'c',
        ] || lower_ascii(base.subrange(base.len() - 5, base.len() as int)) == seq!['.', 'h', 'e', 'i', 'f'])),
    ensures
        display_name(base + x) == base,
        display_name(base) == base,
{
    reveal_strlit(".heic");
    reveal_strlit(".heif");
    assert(".heic"@ =~= seq!['.', 'h', 'e', 'i', 'c']);
    assert(".heif"@ =~= seq!['.', 'h', 'e', 'i', 'f']);
    let s = base + x;
    assert(s.subrange(s.len() - 5, s.len() as int) =~= x);
    assert(s.subrange(0, s.len() - 5) =~= base);
    assert(seq!['.', 'h', 'e', 'i', 'c'][4] != seq!['.', 'h', 'e', 'i', 'f'][4]);
}

/// Removes a case-insensitive five-character suffix.
fn strip_suffix_exec(s: Vec<char>, suffix: &str) -> (r: Vec<char>)
    requires
        suffix@.len() == 5,
    ensures
        r@ == strip_suffix_ci(s@, suffix@),
{
    let n = s.len();
    if n < 5 {
        return s;
    }
    let mut tail: Vec<char> = Vec::new();
    let mut i: usize = n - 5;
    while i < n
        invariant
            n == s@.len(),
            n >= 5,
            n - 5 <= i <= n,
            tail@ == s@.subrange(n - 5, i as int),
        decreases n - i,
    {
        tail.push(s[i]);
        i = i + 1;
    }
    let t = string_of(&tail);
    let lower = lower_ascii_exec(t.as_str());
    if same_text(lower.as_str(), suffix) {
        let mut out: Vec<char> = Vec::new();
        let mut j: usize = 0;
        while j < n - 5
            invariant
                n == s@.len(),
                n >= 5,
                j <= n - 5,
                out@ == s@.subrange(0, j as int),
            decreases n - 5 - j,
        {
            out.push(s[j]);
            j = j + 1;
        }
        out
    } else {
        s
    }
}

/// The displayed name of a sticker, as `display_name` says.
pub fn sticker_name(stem: &str) -> (r: String)
    ensures
        r@ == display_name(stem@),
{
    let cs = chars_of(stem);
    proof {
        reveal_strlit(".heic");
        reveal_strlit(".heif");
    }
    let once = strip_suffix_exec(cs, ".heic");
    let twice = strip_suffix_exec(once, ".heif");
    string_of(&twice)
}

/// The index row of a processed file: its path, displayed name, pack (the name
/// of its folder), lower-cased extension and thumbnail.
pub struct IndexRecord {
    pub path: String,
    pub name: String,
    pub pack: String,
    pub format: String,
    pub thumbnail: String,
    pub is_new: bool,
}

/// Assembles the row of a processed file from its path's parts.
pub fn index_record(
    path: String,
    stem: &str,
    folder_name: String,
    ext: &str,
    thumbnail: String,
    is_new: bool,
) -> (r: IndexRecord)
    ensures
        r.path == path,
        r.name@ == display_name(stem@),
        r.pack == folder_name,
        r.format@ == lower_ascii(ext@),
        r.thumbnail == thumbnail,
        r.is_new == is_new,
{
    IndexRecord {
        path,
        name: sticker_name(stem),
        pack: folder_name,
        format: lower_ascii_exec(ext),
        thumbnail,
        is_new,
    }
}

/// The statement that stores a processed file: a new file is inserted, a known
/// one gets its new thumbnail.
pub fn record_statement(rec: &IndexRecord) -> (r: SqlStatement)
    ensures
        rec.is_new ==> r@ == insert_statement_spec(rec),
        !rec.is_new ==> r@ == (
            "UPDATE stickers SET thumbnail_path = ?1 WHERE path = ?2"@,
            seq![
                crate::database::Param::Text(rec.thumbnail@),
                crate::database::Param::Text(rec.path@),
            ],
        ),
{
    if rec.is_new {
        insert_statement(
            rec.path.as_str(),
            rec.name.as_str(),
            rec.pack.as_str(),
            rec.format.as_str(),
            rec.thumbnail.as_str(),
        )
    } else {
        thumbnail_update_statement(rec.path.as_str(), rec.thumbnail.as_str())
    }
}

/// The insert of a new row.
pub open spec fn insert_statement_spec(rec: &IndexRecord) -> (Seq<char>, Seq<crate::database::Param>) {
    (
        "INSERT INTO stickers (path, name, pack, format, thumbnail_path) VALUES (?1, ?2, ?3, ?4, ?5)"@,
        seq![
            crate::database::Param::Text(rec.path@),
            crate::database::Param::Text(rec.name@),
            crate::database::Param::Text(rec.pack@),
            crate::database::Param::Text(rec.format@),
            crate::database::Param::Text(rec.thumbnail@),
        ],
    )
}

/// Whether the progress reporter stops: every candidate has been processed.
pub fn progress_complete(current: usize, total: usize) -> (r: bool)
    ensures
        r == (current >= total),
{
    current >= total
}

} // verus!
