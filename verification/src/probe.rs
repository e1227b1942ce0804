//! Reading the duration out of the report ffmpeg prints about a media file.
use vstd::prelude::*;
use crate::webp::{slice_range, tag_at, tag_at_exec};

verus! {

/// `Duration: `, as bytes.
pub open spec fn duration_tag() -> Seq<u8> {
    seq![0x44u8, 0x75u8, 0x72u8, 0x61u8, 0x74u8, 0x69u8, 0x6Fu8, 0x6Eu8, 0x3Au8, 0x20u8]
}

/// The first offset at or after `k` where `t` stands in `b`.
pub open spec fn find_from(b: Seq<u8>, t: Seq<u8>, k: int) -> Option<int>
    decreases b.len() + 1 - k,
{
    if k < 0 || k + t.len() > b.len() {
        None
    } else if tag_at(b, k, t) {
        Some(k)
    } else {
        find_from(b, t, k + 1)
    }
}

/// The positions of the colons of `w`, in increasing order.
pub open spec fn colons(w: Seq<u8>) -> Seq<int>
    decreases w.len(),
{
    if w.len() == 0 {
        Seq::empty()
    } else {
        let rest = colons(w.drop_last());
        if w.last() == 0x3Au8 {
            rest.push(w.len() - 1)
        } else {
            rest
        }
    }
}

/// `w` split at its colons, when that gives exactly three parts.
pub open spec fn split_three(w: Seq<u8>) -> Option<(Seq<u8>, Seq<u8>, Seq<u8>)> {
    let c = colons(w);
    if c.len() == 2 {
        Some((w.subrange(0, c[0]), w.subrange(c[0] + 1, c[1]), w.subrange(c[1] + 1, w.len() as int)))
    } else {
        None
    }
}

/// The hours, minutes and seconds fields of a report: the eleven bytes after the
/// first `Duration: `, split at their colons into exactly three parts. `None`
/// when there is no `Duration: `, fewer than eleven bytes follow it, or the
/// split does not give three parts.
pub open spec fn report_duration(b: Seq<u8>) -> Option<(Seq<u8>, Seq<u8>, Seq<u8>)> {
    match find_from(b, duration_tag(), 0) {
        None => None,
        Some(k) => if k + 10 + 11 <= b.len() {
            split_three(b.subrange(k + 10, k + 21))
        } else {
            None
        },
    }
}

proof fn lemma_colons(w: Seq<u8>)
    ensures
        forall|m: int| 0 <= m < colons(w).len() ==> 0 <= #[trigger] colons(w)[m] < w.len(),
        forall|m1: int, m2: int|
            0 <= m1 < m2 < colons(w).len() ==> #[trigger] colons(w)[m1] < #[trigger] colons(w)[m2],
    decreases w.len(),
{
    if w.len() > 0 {
        let d = w.drop_last();
        lemma_colons(d);
        let rest = colons(d);
        let c = colons(w);
        assert forall|m: int| 0 <= m < c.len() implies 0 <= #[trigger] c[m] < w.len() by {
            if m < rest.len() {
                assert(c[m] == rest[m]);
            }
        }
        assert forall|m1: int, m2: int| 0 <= m1 < m2 < c.len() implies #[trigger] c[m1] < #[trigger] c[m2] by {
            if m2 < rest.len() {
                assert(c[m1] == rest[m1] && c[m2] == rest[m2]);
            } else {
                assert(c[m1] == rest[m1]);
            }
        }
    }
}

/// The duration fields of ffmpeg's report `report`, as `report_duration` says.
pub fn duration_fields(report: &[u8]) -> (r: Option<(Vec<u8>, Vec<u8>, Vec<u8>)>)
    ensures
        r is None <==> report_duration(report@) is None,
        r matches Some((h, m, s)) ==> report_duration(report@) == Some((h@, m@, s@)),
{
    let tag: Vec<u8> = vec![0x44u8, 0x75u8, 0x72u8, 0x61u8, 0x74u8, 0x69u8, 0x6Fu8, 0x6Eu8, 0x3Au8, 0x20u8];
    assert(tag@ =~= duration_tag());
    let n = report.len();
    if n < 10 {
        return None;
    }
    let mut k: usize = 0;
    let mut found = false;
    while !found && k <= n - 10
        invariant
            n == report@.len(),
            10 <= n,
            tag@ == duration_tag(),
            k + 10 <= n + 1,
            found ==> k + 10 <= n && tag_at(report@, k as int, duration_tag()),
            find_from(report@, duration_tag(), 0) == find_from(report@, duration_tag(), k as int),
        decreases n + 1 - k + if found {
            0int
        } else {
            1int
        },
    {
        if tag_at_exec(report, k, tag.as_slice()) {
            found = true;
        } else {
            k = k + 1;
        }
    }
    if !found {
        return None;
    }
    assert(find_from(report@, duration_tag(), 0) == Some(k as int));
    if n - k < 21 {
        return None;
    }
    let window = slice_range(report, k + 10, k + 21);
    let ghost w = window@;
    let mut pos: Vec<usize> = Vec::new();
    let mut i: usize = 0;
    while i < window.len()
        invariant
            w == window@,
            i <= w.len(),
            pos@.len() == colons(w.take(i as int)).len(),
            forall|m: int| 0 <= m < pos@.len() ==> pos@[m] as int == colons(w.take(i as int))[m],
        decreases window.len() - i,
    {
        proof {
            assert(w.take(i + 1).drop_last() =~= w.take(i as int));
            assert(w.take(i + 1).last() == w[i as int]);
        }
        if window[i] == 0x3Au8 {
            pos.push(i);
        }
        i = i + 1;
    }
    proof {
        assert(w.take(w.len() as int) =~= w);
        lemma_colons(w);
    }
    if pos.len() != 2 {
        return None;
    }
    let a = pos[0];
    let b = pos[1];
    let h = slice_range(window.as_slice(), 0, a);
    let m = slice_range(window.as_slice(), a + 1, b);
    let s = slice_range(window.as_slice(), b + 1, window.len());
    Some((h, m, s))
}

} // verus!
