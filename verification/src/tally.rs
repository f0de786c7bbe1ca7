//! Counting how often each name occurs in a list, the most frequent first.
use vstd::prelude::*;
use crate::order::{is_permutation, sort_indices_by_counts_desc, sorted_by_counts_desc};
use crate::text::equal_str;

verus! {

/// The names of `s`, each once, in order of first appearance.
pub open spec fn distinct_in_order(s: Seq<Seq<char>>) -> Seq<Seq<char>>
    decreases s.len(),
{
    if s.len() == 0 {
        seq![]
    } else {
        let before = distinct_in_order(s.drop_last());
        if before.contains(s.last()) {
            before
        } else {
            before.push(s.last())
        }
    }
}

/// How often `x` occurs in `s`.
pub open spec fn occurrences(s: Seq<Seq<char>>, x: Seq<char>) -> nat
    decreases s.len(),
{
    if s.len() == 0 {
        0
    } else {
        occurrences(s.drop_last(), x) + if s.last() == x { 1nat } else { 0nat }
    }
}

/// A name that does not occur among the distinct names does not occur at all.
pub proof fn lemma_absent_never_occurs(s: Seq<Seq<char>>, x: Seq<char>)
    requires
        !distinct_in_order(s).contains(x),
    ensures
        occurrences(s, x) == 0,
    decreases s.len(),
{
    if s.len() > 0 {
        let before = distinct_in_order(s.drop_last());
        if before.contains(x) {
            if !before.contains(s.last()) {
                let k = choose|k: int| 0 <= k < before.len() && before[k] == x;
                assert(before.push(s.last())[k] == x);
            }
        }
        if s.last() == x && !before.contains(x) {
            assert(before.push(s.last())[before.len() as int] == x);
        }
        lemma_absent_never_occurs(s.drop_last(), x);
    }
}

/// The distinct names are distinct.
pub proof fn lemma_distinct_in_order(s: Seq<Seq<char>>)
    ensures
        distinct_in_order(s).no_duplicates(),
    decreases s.len(),
{
    if s.len() > 0 {
        lemma_distinct_in_order(s.drop_last());
    }
}

/// The distinct names are exactly the names of `s`, each once: as many as
/// there are different names in `s`.
pub proof fn law_distinct_names_are_the_names(s: Seq<Seq<char>>)
    ensures
        distinct_in_order(s).to_set() == s.to_set(),
        distinct_in_order(s).len() == s.to_set().len(),
    decreases s.len(),
{
    let d = distinct_in_order(s);
    if s.len() > 0 {
        let t = s.drop_last();
        let before = distinct_in_order(t);
        law_distinct_names_are_the_names(t);
        assert(before.to_set() == t.to_set());
        assert forall|x: Seq<char>| d.contains(x) <==> s.contains(x) by {
            if d.contains(x) {
                let k = choose|k: int| 0 <= k < d.len() && d[k] == x;
                if k < before.len() {
                    assert(before[k] == x);
                    assert(before.to_set().contains(x));
                    let j = choose|j: int| 0 <= j < t.len() && t[j] == x;
                    assert(s[j] == x);
                } else {
                    assert(s[s.len() - 1] == x);
                }
            }
            if s.contains(x) {
                let j = choose|j: int| 0 <= j < s.len() && s[j] == x;
                if j < s.len() - 1 {
                    assert(t[j] == x);
                    assert(t.to_set().contains(x));
                    let k = choose|k: int| 0 <= k < before.len() && before[k] == x;
                    if !before.contains(s.last()) {
                        assert(d[k] == x);
                    }
                } else if !before.contains(s.last()) {
                    assert(d[before.len() as int] == x);
                }
            }
        }
    }
    assert(d.to_set() =~= s.to_set());
    lemma_distinct_in_order(s);
    d.unique_seq_to_set();
}

/// Every name that the tally lists occurs at least once.
pub proof fn law_listed_names_occur(s: Seq<Seq<char>>, x: Seq<char>)
    requires
        distinct_in_order(s).contains(x),
    ensures
        occurrences(s, x) >= 1,
    decreases s.len(),
{
    if s.len() > 0 {
        let before = distinct_in_order(s.drop_last());
        if before.contains(x) {
            law_listed_names_occur(s.drop_last(), x);
        } else {
            if !before.contains(s.last()) {
                let k = choose|k: int| 0 <= k < before.len() + 1 && before.push(s.last())[k] == x;
                if k < before.len() {
                    assert(before[k] == x);
                }
            }
        }
    }
}

/// A name and the number of times it occurs.
#[derive(Debug)]
pub struct NameCount {
    pub name: String,
    pub count: usize,
}

/// The counts as plain values.
pub open spec fn count_views(c: Seq<NameCount>) -> Seq<(Seq<char>, nat)> {
    c.map_values(|x: NameCount| (x.name@, x.count as nat))
}

/// The distinct names of `s` with how often each occurs, in the order `perm`.
pub open spec fn counted(s: Seq<Seq<char>>, perm: Seq<usize>) -> Seq<(Seq<char>, nat)> {
    perm.map_values(|g: usize| (distinct_in_order(s)[g as int], occurrences(s, distinct_in_order(s)[g as int])))
}

/// `res` holds each distinct name of `s` once with how often it occurs, the
/// most frequent first.
pub open spec fn is_tally(res: Seq<(Seq<char>, nat)>, s: Seq<Seq<char>>) -> bool {
    &&& exists|perm: Seq<usize>| #![trigger counted(s, perm)]
        is_permutation(perm, distinct_in_order(s).len()) && res == counted(s, perm)
    &&& forall|a: int, b: int| 0 <= a < b < res.len() ==> res[b].1 <= res[a].1
}

/// Each distinct name of `names` with how often it occurs, the most frequent
/// first (names of equal count in no promised order).
pub fn tally(names: &Vec<String>) -> (res: Vec<NameCount>)
    ensures
        is_tally(count_views(res@), names@.map_values(|n: String| n@)),
{
    let ghost sv = names@.map_values(|n: String| n@);
    let mut seen: Vec<String> = Vec::new();
    let mut counts: Vec<usize> = Vec::new();
    let mut i: usize = 0;
    while i < names.len()
        invariant
            i <= names@.len(),
            sv == names@.map_values(|n: String| n@),
            seen@.map_values(|n: String| n@) == distinct_in_order(sv.take(i as int)),
            counts@.len() == seen@.len(),
            forall|j: int| 0 <= j < counts@.len() ==> #[trigger] counts@[j] == occurrences(sv.take(i as int), seen@[j]@),
            forall|j: int| 0 <= j < counts@.len() ==> #[trigger] counts@[j] <= i,
        decreases names@.len() - i,
    {
        let ghost prev = sv.take(i as int);
        let ghost next = sv.take(i + 1);
        assert(next.drop_last() =~= prev);
        assert(next.last() == names@[i as int]@);
        let ghost nv = seen@.map_values(|n: String| n@);
        let ghost x = names@[i as int]@;
        let mut j: usize = 0;
        let mut found = false;
        while j < seen.len()
            invariant
                i < names@.len(),
                j <= seen.len(),
                nv == seen@.map_values(|n: String| n@),
                x == names@[i as int]@,
                !found ==> forall|q: int| 0 <= q < j ==> nv[q] != x,
                found ==> j < seen.len() && nv[j as int] == x,
            ensures
                found || j == seen.len(),
            decreases seen.len() - j,
        {
            if equal_str(seen[j].as_str(), names[i].as_str()) {
                found = true;
                break;
            }
            j = j + 1;
        }
        if found {
            assert(nv.contains(x));
            let c = counts[j] + 1;
            counts.set(j, c);
            assert forall|q: int| 0 <= q < counts@.len() implies #[trigger] counts@[q] == occurrences(next, seen@[q]@) by {
                if q != j {
                    lemma_distinct_in_order(prev);
                    assert(nv[q] != nv[j as int]);
                }
            }
            assert(distinct_in_order(next) == distinct_in_order(prev));
        } else {
            assert(!nv.contains(x)) by {
                if nv.contains(x) {
                    let q = choose|q: int| 0 <= q < nv.len() && nv[q] == x;
                }
            }
            proof {
                lemma_absent_never_occurs(prev, x);
            }
            let name = names[i].clone();
            seen.push(name);
            counts.push(1);
            assert(seen@.map_values(|n: String| n@) =~= nv.push(x));
            assert forall|q: int| 0 <= q < counts@.len() implies #[trigger] counts@[q] == occurrences(next, seen@[q]@) by {
                if q < nv.len() {
                    assert(seen@[q]@ == nv[q]);
                    assert(nv[q] != x);
                }
            }
        }
        i = i + 1;
    }
    assert(sv.take(names@.len() as int) =~= sv);
    let perm = sort_indices_by_counts_desc(&counts);
    let mut out: Vec<NameCount> = Vec::new();
    let mut g: usize = 0;
    let ghost base = distinct_in_order(sv);
    while g < perm.len()
        invariant
            g <= perm@.len(),
            is_permutation(perm@, counts@.len()),
            sorted_by_counts_desc(perm@, counts@),
            counts@.len() == seen@.len(),
            seen@.map_values(|n: String| n@) == base,
            base == distinct_in_order(sv),
            forall|j: int| 0 <= j < counts@.len() ==> #[trigger] counts@[j] == occurrences(sv, seen@[j]@),
            count_views(out@) == counted(sv, perm@.take(g as int)),
            forall|a: int| 0 <= a < g ==> #[trigger] out@[a].count == counts@[perm@[a] as int],
        decreases perm@.len() - g,
    {
        let k = perm[g];
        assert(perm@[g as int] < counts@.len());
        let ghost before = count_views(out@);
        out.push(NameCount { name: seen[k].clone(), count: counts[k] });
        assert(seen@[k as int]@ == base[k as int]);
        let ghost item = (base[k as int], occurrences(sv, base[k as int]));
        assert(count_views(out@) =~= before.push(item));
        assert(perm@.take(g + 1) =~= perm@.take(g as int).push(k));
        assert(counted(sv, perm@.take(g + 1)) =~= counted(sv, perm@.take(g as int)).push(item));
        g = g + 1;
    }
    assert(perm@.take(perm@.len() as int) =~= perm@);
    assert forall|a: int, b: int| 0 <= a < b < count_views(out@).len() implies count_views(out@)[b].1 <= count_views(out@)[a].1 by {
        assert(counts@[perm@[b] as int] <= counts@[perm@[a] as int]);
    }
    assert(is_permutation(perm@, distinct_in_order(sv).len()) && count_views(out@) == counted(sv, perm@));
    out
}

/// The names of `names`, each once, in order of first appearance.
pub fn distinct_names(names: &Vec<String>) -> (res: Vec<String>)
    ensures
        res@.map_values(|n: String| n@) == distinct_in_order(names@.map_values(|n: String| n@)),
{
    let ghost sv = names@.map_values(|n: String| n@);
    let mut seen: Vec<String> = Vec::new();
    let mut i: usize = 0;
    while i < names.len()
        invariant
            i <= names@.len(),
            sv == names@.map_values(|n: String| n@),
            seen@.map_values(|n: String| n@) == distinct_in_order(sv.take(i as int)),
        decreases names@.len() - i,
    {
        let ghost prev = sv.take(i as int);
        let ghost next = sv.take(i + 1);
        assert(next.drop_last() =~= prev);
        assert(next.last() == names@[i as int]@);
        let ghost nv = seen@.map_values(|n: String| n@);
        let ghost x = names@[i as int]@;
        let mut j: usize = 0;
        let mut found = false;
        while j < seen.len()
            invariant
                i < names@.len(),
                j <= seen.len(),
                nv == seen@.map_values(|n: String| n@),
                x == names@[i as int]@,
                !found ==> forall|q: int| 0 <= q < j ==> nv[q] != x,
                found ==> j < seen.len() && nv[j as int] == x,
            ensures
                found || j == seen.len(),
            decreases seen.len() - j,
        {
            if equal_str(seen[j].as_str(), names[i].as_str()) {
                found = true;
                break;
            }
            j = j + 1;
        }
        if found {
            assert(nv.contains(x));
        } else {
            assert(!nv.contains(x)) by {
                if nv.contains(x) {
                    let q = choose|q: int| 0 <= q < nv.len() && nv[q] == x;
                }
            }
            seen.push(names[i].clone());
            assert(seen@.map_values(|n: String| n@) =~= nv.push(x));
        }
        i = i + 1;
    }
    assert(sv.take(names@.len() as int) =~= sv);
    seen
}

} // verus!
