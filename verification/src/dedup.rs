//! Ranked search hits and deduplication by external key.
//!
//! A snapshot may hold several physical documents for one logical row. The
//! only disambiguator available without visibility metadata is the document
//! address: among entries sharing a key, the lexicographically greatest
//! address is kept, and keys are emitted in their first-seen order from the
//! ranked sequence, so the caller's perceived relevance ordering survives for
//! non-colliding keys.

use vstd::prelude::*;

verus! {

/// A document's locator within one immutable snapshot: the segment ordinal
/// and the document id local to that segment, ordered lexicographically.
#[derive(Clone, Copy, PartialEq, Eq, Structural, Debug)]
pub struct DocAddr {
    pub segment: u32,
    pub doc: u32,
}

/// One ranked result: the external key of the document and its address.
#[derive(Clone, Copy, PartialEq, Eq, Structural, Debug)]
pub struct SearchHit {
    pub key: i64,
    pub addr: DocAddr,
}

/// Lexicographic order on document addresses: segment first, then local id.
pub open spec fn spec_addr_lt(a: DocAddr, b: DocAddr) -> bool {
    a.segment < b.segment || (a.segment == b.segment && a.doc < b.doc)
}

/// Compares two document addresses lexicographically.
pub fn addr_lt(a: DocAddr, b: DocAddr) -> (r: bool)
    ensures
        r == spec_addr_lt(a, b),
{
    a.segment < b.segment || (a.segment == b.segment && a.doc < b.doc)
}

/// The index of the first entry of `s` carrying key `k`, or a negative value
/// when no entry does.
pub open spec fn find_key(s: Seq<SearchHit>, k: i64) -> int
    decreases s.len(),
{
    if s.len() == 0 {
        -1
    } else if s[0].key == k {
        0
    } else {
        let r = find_key(s.drop_first(), k);
        if r < 0 {
            -1
        } else {
            r + 1
        }
    }
}

/// Folding one ranked entry into the deduplicated prefix: a new key is
/// appended; a known key keeps whichever entry has the greater address.
pub open spec fn dedup_step(acc: Seq<SearchHit>, h: SearchHit) -> Seq<SearchHit> {
    let j = find_key(acc, h.key);
    if j < 0 {
        acc.push(h)
    } else if spec_addr_lt(acc[j].addr, h.addr) {
        acc.update(j, h)
    } else {
        acc
    }
}

/// The deduplicated form of a ranked sequence: one entry per key, the
/// greatest address winning, keys in first-seen order.
pub open spec fn spec_dedup(s: Seq<SearchHit>) -> Seq<SearchHit>
    decreases s.len(),
{
    if s.len() == 0 {
        Seq::empty()
    } else {
        dedup_step(spec_dedup(s.drop_last()), s.last())
    }
}

/// No two entries share a key.
pub open spec fn distinct_keys(s: Seq<SearchHit>) -> bool {
    forall|i: int, j: int| 0 <= i < j < s.len() ==> s[i].key != s[j].key
}

/// No two entries share a document address.
pub open spec fn distinct_addrs(s: Seq<SearchHit>) -> bool {
    forall|i: int, j: int| 0 <= i < j < s.len() ==> s[i].addr != s[j].addr
}

/// Every entry of `out` is an entry of `inp`.
pub open spec fn entries_from(out: Seq<SearchHit>, inp: Seq<SearchHit>) -> bool {
    forall|i: int| 0 <= i < out.len() ==> inp.contains(#[trigger] out[i])
}

/// Every key of `out` occurs in `inp`.
pub open spec fn keys_from(out: Seq<SearchHit>, inp: Seq<SearchHit>) -> bool {
    forall|i: int|
        0 <= i < out.len() ==> exists|m: int|
            0 <= m < inp.len() && inp[m].key == (#[trigger] out[i]).key
}

/// Every key of `inp` occurs in `out`.
pub open spec fn keys_cover(out: Seq<SearchHit>, inp: Seq<SearchHit>) -> bool {
    forall|m: int|
        0 <= m < inp.len() ==> exists|i: int|
            0 <= i < out.len() && out[i].key == (#[trigger] inp[m]).key
}

/// The keys of `out` stand in the order of their first occurrence in `inp`.
pub open spec fn first_seen_ordered(out: Seq<SearchHit>, inp: Seq<SearchHit>) -> bool {
    forall|a: int, b: int|
        0 <= a < b < out.len() ==> 0 <= find_key(inp, (#[trigger] out[a]).key) < find_key(
            inp,
            (#[trigger] out[b]).key,
        )
}

/// Among entries of `inp` sharing a key with an entry of `out`, that entry
/// of `out` carries the greatest address.
pub open spec fn greatest_addresses(out: Seq<SearchHit>, inp: Seq<SearchHit>) -> bool {
    forall|i: int, m: int|
        0 <= i < out.len() && 0 <= m < inp.len() && (#[trigger] inp[m]).key == (
        #[trigger] out[i]).key ==> !spec_addr_lt(out[i].addr, inp[m].addr)
}

/// `find_key` is sound and complete: a non-negative result is the first
/// index carrying the key, and a negative result means no entry carries it.
pub proof fn lemma_find_key(s: Seq<SearchHit>, k: i64)
    ensures
        find_key(s, k) >= 0 ==> 0 <= find_key(s, k) < s.len() && s[find_key(s, k)].key == k,
        find_key(s, k) >= 0 ==> forall|i: int| 0 <= i < find_key(s, k) ==> s[i].key != k,
        find_key(s, k) < 0 ==> forall|i: int| 0 <= i < s.len() ==> s[i].key != k,
    decreases s.len(),
{
    if s.len() == 0 {
    } else if s[0].key == k {
    } else {
        let d = s.drop_first();
        lemma_find_key(d, k);
        assert forall|i: int| 1 <= i < s.len() implies s[i] == d[i - 1] by {}
        if find_key(d, k) < 0 {
            assert forall|i: int| 0 <= i < s.len() implies s[i].key != k by {
                if i >= 1 {
                    assert(s[i] == d[i - 1]);
                }
            }
        } else {
            let fd = find_key(d, k);
            assert(s[fd + 1] == d[fd]);
            assert forall|i: int| 0 <= i < fd + 1 implies s[i].key != k by {
                if i >= 1 {
                    assert(s[i] == d[i - 1]);
                }
            }
        }
    }
}

/// The deduplicated sequence never repeats a key.
pub proof fn lemma_dedup_distinct(s: Seq<SearchHit>)
    ensures
        distinct_keys(spec_dedup(s)),
    decreases s.len(),
{
    if s.len() > 0 {
        let dl = s.drop_last();
        let h = s.last();
        let d = spec_dedup(dl);
        let out = spec_dedup(s);
        lemma_dedup_distinct(dl);
        lemma_find_key(d, h.key);
        let j = find_key(d, h.key);
        if j < 0 {
            assert forall|a: int, b: int| 0 <= a < b < out.len() implies out[a].key != out[b].key
                by {
                if b < d.len() {
                    assert(out[a] == d[a] && out[b] == d[b]);
                } else {
                    assert(out[b] == h);
                    assert(out[a] == d[a]);
                    assert(d[a].key != h.key);
                }
            }
        } else {
            assert forall|a: int, b: int| 0 <= a < b < out.len() implies out[a].key != out[b].key
                by {
                assert(out[a].key == d[a].key);
                assert(out[b].key == d[b].key);
            }
        }
    }
}

/// The deduplicated sequence is no longer than its input.
pub proof fn lemma_dedup_len(s: Seq<SearchHit>)
    ensures
        spec_dedup(s).len() <= s.len(),
    decreases s.len(),
{
    if s.len() > 0 {
        let dl = s.drop_last();
        let d = spec_dedup(dl);
        let h = s.last();
        lemma_dedup_len(dl);
        lemma_find_key(d, h.key);
        let j = find_key(d, h.key);
        if j < 0 {
            assert(spec_dedup(s).len() == d.len() + 1);
        } else {
            assert(spec_dedup(s).len() == d.len());
        }
    }
}

/// Every key of the deduplicated sequence comes from the input.
pub proof fn lemma_dedup_keys_from(s: Seq<SearchHit>)
    ensures
        keys_from(spec_dedup(s), s),
    decreases s.len(),
{
    if s.len() > 0 {
        let dl = s.drop_last();
        let h = s.last();
        let d = spec_dedup(dl);
        let out = spec_dedup(s);
        lemma_dedup_keys_from(dl);
        lemma_find_key(d, h.key);
        let last = s.len() - 1;
        let j = find_key(d, h.key);
        assert forall|i: int| 0 <= i < out.len() implies exists|m: int|
            0 <= m < s.len() && s[m].key == (#[trigger] out[i]).key by {
            if j >= 0 && spec_addr_lt(d[j].addr, h.addr) && i == j {
                assert(out[i] == h);
                assert(s[last].key == out[i].key);
            } else if i < d.len() {
                assert(out[i] == d[i]);
                assert(exists|m: int| 0 <= m < dl.len() && dl[m].key == d[i].key);
                let m = choose|m: int| 0 <= m < dl.len() && dl[m].key == d[i].key;
                assert(s[m] == dl[m]);
                assert(s[m].key == out[i].key);
            } else {
                assert(out[i] == h);
                assert(s[last].key == out[i].key);
            }
        }
    }
}

/// Every key of the input survives into the deduplicated sequence.
pub proof fn lemma_dedup_keys_cover(s: Seq<SearchHit>)
    ensures
        keys_cover(spec_dedup(s), s),
    decreases s.len(),
{
    if s.len() > 0 {
        let dl = s.drop_last();
        let h = s.last();
        let d = spec_dedup(dl);
        let out = spec_dedup(s);
        lemma_dedup_keys_cover(dl);
        lemma_find_key(d, h.key);
        let last = s.len() - 1;
        let j = find_key(d, h.key);
        assert forall|m: int| 0 <= m < s.len() implies exists|i: int|
            0 <= i < out.len() && out[i].key == (#[trigger] s[m]).key by {
            if m < last {
                assert(dl[m] == s[m]);
                assert(exists|i: int| 0 <= i < d.len() && d[i].key == dl[m].key);
                let i = choose|i: int| 0 <= i < d.len() && d[i].key == dl[m].key;
                assert(out[i].key == d[i].key);
            } else {
                assert(s[m] == h);
                if j < 0 {
                    assert(out[d.len() as int] == h);
                } else {
                    assert(out[j].key == d[j].key);
                }
            }
        }
    }
}

/// Every entry of the deduplicated sequence is an entry of the input.
pub proof fn lemma_dedup_entries_from(s: Seq<SearchHit>)
    ensures
        entries_from(spec_dedup(s), s),
    decreases s.len(),
{
    if s.len() > 0 {
        let dl = s.drop_last();
        let h = s.last();
        let d = spec_dedup(dl);
        let out = spec_dedup(s);
        lemma_dedup_entries_from(dl);
        lemma_find_key(d, h.key);
        let last = s.len() - 1;
        let j = find_key(d, h.key);
        assert forall|i: int| 0 <= i < out.len() implies s.contains(#[trigger] out[i]) by {
            if (j < 0 && i == d.len()) || (j >= 0 && spec_addr_lt(d[j].addr, h.addr) && i == j) {
                assert(out[i] == h);
                assert(s[last] == out[i]);
            } else {
                assert(out[i] == d[i]);
                assert(dl.contains(d[i]));
                let m = choose|m: int| 0 <= m < dl.len() && dl[m] == d[i];
                assert(s[m] == out[i]);
            }
        }
    }
}

/// Every surviving entry carries the greatest address among the input
/// entries that share its key.
pub proof fn lemma_dedup_greatest_address(s: Seq<SearchHit>)
    ensures
        greatest_addresses(spec_dedup(s), s),
    decreases s.len(),
{
    if s.len() > 0 {
        let dl = s.drop_last();
        let h = s.last();
        let d = spec_dedup(dl);
        let out = spec_dedup(s);
        lemma_dedup_greatest_address(dl);
        lemma_dedup_distinct(dl);
        lemma_dedup_keys_cover(dl);
        lemma_find_key(d, h.key);
        let last = s.len() - 1;
        let j = find_key(d, h.key);
        assert forall|i: int, m: int|
            0 <= i < out.len() && 0 <= m < s.len() && (#[trigger] s[m]).key == (
            #[trigger] out[i]).key implies !spec_addr_lt(out[i].addr, s[m].addr) by {
            if j < 0 {
                if i < d.len() {
                    assert(out[i] == d[i]);
                    if m == last {
                        assert(s[m] == h);
                        assert(d[i].key != h.key);
                    } else {
                        assert(dl[m] == s[m]);
                        assert(dl[m].key == d[i].key);
                    }
                } else {
                    assert(out[i] == h);
                    if m < last {
                        assert(dl[m] == s[m]);
                        assert(exists|q: int| 0 <= q < d.len() && d[q].key == dl[m].key);
                        let q = choose|q: int| 0 <= q < d.len() && d[q].key == dl[m].key;
                        assert(d[q].key == h.key);
                        assert(false);
                    }
                }
            } else if spec_addr_lt(d[j].addr, h.addr) {
                if i != j {
                    assert(out[i] == d[i]);
                    if i < j {
                        assert(d[i].key != d[j].key);
                    } else {
                        assert(d[j].key != d[i].key);
                    }
                    if m == last {
                        assert(s[m] == h);
                        assert(d[j].key == h.key);
                        assert(false);
                    } else {
                        assert(dl[m] == s[m]);
                        assert(dl[m].key == d[i].key);
                    }
                } else {
                    assert(out[j] == h);
                    if m < last {
                        assert(dl[m] == s[m]);
                        assert(dl[m].key == d[j].key);
                        assert(!spec_addr_lt(d[j].addr, dl[m].addr));
                    }
                }
            } else {
                assert(out == d);
                assert(out[i] == d[i]);
                if m == last {
                    assert(s[m] == h);
                    assert(d[i].key == h.key);
                    if i < j {
                        assert(d[i].key != d[j].key);
                    } else if j < i {
                        assert(d[j].key != d[i].key);
                    }
                    assert(i == j);
                } else {
                    assert(dl[m] == s[m]);
                    assert(dl[m].key == d[i].key);
                }
            }
        }
    }
}

/// Appending an entry does not move a key's first occurrence: a key already
/// present keeps its position, and a fresh key first occurs at the appended
/// position when the new entry carries it.
proof fn lemma_find_key_push(s: Seq<SearchHit>, h: SearchHit, k: i64)
    ensures
        find_key(s, k) >= 0 ==> find_key(s.push(h), k) == find_key(s, k),
        find_key(s, k) < 0 && h.key == k ==> find_key(s.push(h), k) == s.len(),
        find_key(s, k) < 0 && h.key != k ==> find_key(s.push(h), k) < 0,
    decreases s.len(),
{
    let t = s.push(h);
    if s.len() == 0 {
        assert(t[0] == h);
        if h.key != k {
            assert(t.drop_first() =~= Seq::<SearchHit>::empty());
            assert(find_key(Seq::<SearchHit>::empty(), k) == -1);
        }
    } else {
        assert(t[0] == s[0]);
        assert(t.drop_first() =~= s.drop_first().push(h));
        lemma_find_key_push(s.drop_first(), h, k);
        assert(find_key(t.drop_first(), k) == find_key(s.drop_first().push(h), k));
    }
}

/// A key that occurs in the prefix keeps its first position when an entry is
/// appended.
proof fn lemma_first_seen_kept(dl: Seq<SearchHit>, h: SearchHit, k: i64)
    requires
        exists|m: int| 0 <= m < dl.len() && dl[m].key == k,
    ensures
        0 <= find_key(dl.push(h), k) < dl.len(),
        find_key(dl.push(h), k) == find_key(dl, k),
{
    lemma_find_key(dl, k);
    lemma_find_key_push(dl, h, k);
}

/// A key that is new to the prefix first occurs at the appended position.
proof fn lemma_first_seen_fresh(dl: Seq<SearchHit>, h: SearchHit)
    requires
        forall|m: int| 0 <= m < dl.len() ==> dl[m].key != h.key,
    ensures
        find_key(dl.push(h), h.key) == dl.len(),
{
    lemma_find_key(dl, h.key);
    lemma_find_key_push(dl, h, h.key);
}

/// Keys stand in the deduplicated sequence in the order of their first
/// occurrence in the input.
#[verifier::rlimit(100)]
#[verifier::spinoff_prover]
pub proof fn lemma_dedup_first_seen_order(s: Seq<SearchHit>)
    ensures
        first_seen_ordered(spec_dedup(s), s),
    decreases s.len(),
{
    if s.len() == 0 {
        assert(spec_dedup(s).len() == 0);
    } else {
        let dl = s.drop_last();
        let h = s.last();
        let d = spec_dedup(dl);
        let out = spec_dedup(s);
        lemma_dedup_first_seen_order(dl);
        lemma_dedup_keys_from(dl);
        lemma_dedup_keys_cover(dl);
        lemma_find_key(d, h.key);
        let j = find_key(d, h.key);
        assert(s =~= dl.push(h));
        assert forall|a: int, b: int| 0 <= a < b < spec_dedup(s).len() implies 0 <= find_key(
            s,
            (#[trigger] spec_dedup(s)[a]).key,
        ) < find_key(s, (#[trigger] spec_dedup(s)[b]).key) by {
            assert(out == spec_dedup(s));
            let ka = out[a].key;
            let kb = out[b].key;
            if j < 0 && b == d.len() {
                assert(out[a] == d[a]);
                assert(out[b] == h);
                // `a`'s key occurs in the prefix and keeps its position
                assert(exists|m: int| 0 <= m < dl.len() && dl[m].key == d[a].key);
                lemma_first_seen_kept(dl, h, ka);
                // the appended key is fresh: a prefix occurrence would have
                // survived into the deduplicated prefix
                assert forall|m: int| 0 <= m < dl.len() implies dl[m].key != kb by {
                    if dl[m].key == kb {
                        assert(exists|i: int| 0 <= i < d.len() && d[i].key == kb);
                    }
                }
                lemma_first_seen_fresh(dl, h);
            } else {
                // both keys come from the deduplicated prefix, whose keys are
                // pointwise unchanged by the fold step
                assert(out[a].key == d[a].key);
                assert(out[b].key == d[b].key);
                assert(exists|m: int| 0 <= m < dl.len() && dl[m].key == d[a].key);
                assert(exists|m: int| 0 <= m < dl.len() && dl[m].key == d[b].key);
                lemma_find_key(dl, ka);
                lemma_find_key(dl, kb);
                assert(0 <= find_key(dl, ka) < find_key(dl, kb));
                lemma_first_seen_kept(dl, h, ka);
                lemma_first_seen_kept(dl, h, kb);
            }
        }
    }
}

/// Finds the entry of `out` that already carries key `k`, if any.
fn find_key_exec(out: &Vec<SearchHit>, k: i64) -> (r: Option<usize>)
    ensures
        r matches Some(j) ==> j as int == find_key(out@, k),
        r is None ==> find_key(out@, k) < 0,
{
    proof {
        lemma_find_key(out@, k);
    }
    let mut i: usize = 0;
    while i < out.len()
        invariant
            0 <= i <= out@.len(),
            forall|m: int| 0 <= m < i ==> out@[m].key != k,
            find_key(out@, k) >= 0 ==> 0 <= find_key(out@, k) < out@.len() && out@[find_key(
                out@,
                k,
            )].key == k,
            find_key(out@, k) >= 0 ==> forall|m: int|
                0 <= m < find_key(out@, k) ==> out@[m].key != k,
            find_key(out@, k) < 0 ==> forall|m: int| 0 <= m < out@.len() ==> out@[m].key != k,
        decreases out@.len() - i,
    {
        if out[i].key == k {
            return Some(i);
        }
        i += 1;
    }
    None
}

/// Folds a ranked sequence by key: the first occurrence of each key fixes
/// its position, and among entries sharing a key the one with the greatest
/// address survives.
pub fn dedup_by_key(hits: Vec<SearchHit>) -> (r: Vec<SearchHit>)
    ensures
        r@ == spec_dedup(hits@),
{
    let mut out: Vec<SearchHit> = Vec::new();
    let mut i: usize = 0;
    proof {
        assert(hits@.take(0) =~= Seq::<SearchHit>::empty());
    }
    while i < hits.len()
        invariant
            0 <= i <= hits@.len(),
            out@ == spec_dedup(hits@.take(i as int)),
        decreases hits@.len() - i,
    {
        let h = hits[i];
        proof {
            assert(hits@.take(i as int + 1).drop_last() =~= hits@.take(i as int));
            assert(hits@.take(i as int + 1).last() == hits@[i as int]);
        }
        match find_key_exec(&out, h.key) {
            None => {
                out.push(h);
            },
            Some(j) => {
                proof {
                    lemma_find_key(out@, h.key);
                }
                let cur = out[j];
                if addr_lt(cur.addr, h.addr) {
                    out.set(j, h);
                } else {
                    proof {
                        assert(out@ == dedup_step(out@, hits@[i as int]));
                    }
                }
            },
        }
        i += 1;
    }
    proof {
        assert(hits@.take(hits@.len() as int) =~= hits@);
    }
    out
}

} // verus!
