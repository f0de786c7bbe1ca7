use vstd::prelude::*;

verus! {

/// `a` sorts before `b` in the order of `str`'s `Ord`: characters are compared
/// by code point, and a proper prefix comes first.
pub open spec fn lex_less(a: Seq<char>, b: Seq<char>) -> bool
    decreases a.len(),
{
    if a.len() == 0 {
        b.len() > 0
    } else if b.len() == 0 {
        false
    } else if a[0] < b[0] {
        true
    } else if a[0] > b[0] {
        false
    } else {
        lex_less(a.skip(1), b.skip(1))
    }
}

/// No sequence sorts before itself, and two sequences cannot each sort before the other.
pub proof fn lemma_lex_asymmetric(a: Seq<char>, b: Seq<char>)
    ensures
        !(lex_less(a, b) && lex_less(b, a)),
        !lex_less(a, a),
    decreases a.len(),
{
    if a.len() > 0 && b.len() > 0 && a[0] == b[0] {
        lemma_lex_asymmetric(a.skip(1), b.skip(1));
    }
    if a.len() > 0 {
        lemma_lex_asymmetric(a.skip(1), a.skip(1));
    }
}

/// The order is transitive.
pub proof fn lemma_lex_transitive(a: Seq<char>, b: Seq<char>, c: Seq<char>)
    requires
        lex_less(a, b),
        lex_less(b, c),
    ensures
        lex_less(a, c),
    decreases a.len(),
{
    if a.len() > 0 && b.len() > 0 && c.len() > 0 && a[0] == b[0] && b[0] == c[0] {
        lemma_lex_transitive(a.skip(1), b.skip(1), c.skip(1));
    }
}

/// Two different sequences are ordered one way or the other.
pub proof fn lemma_lex_total(a: Seq<char>, b: Seq<char>)
    requires
        a != b,
    ensures
        lex_less(a, b) || lex_less(b, a),
    decreases a.len(),
{
    if a.len() > 0 && b.len() > 0 && a[0] == b[0] {
        if a.skip(1) == b.skip(1) {
            assert(a =~= seq![a[0]] + a.skip(1));
            assert(b =~= seq![b[0]] + b.skip(1));
        }
        lemma_lex_total(a.skip(1), b.skip(1));
    } else if a.len() == 0 && b.len() == 0 {
        assert(a =~= b);
    }
}

/// Whether `a` sorts before `b`.
pub fn lex_less_chars(a: &[char], b: &[char]) -> (res: bool)
    ensures
        res == lex_less(a@, b@),
{
    let mut k: usize = 0;
    assert(a@.skip(0) =~= a@);
    assert(b@.skip(0) =~= b@);
    while k < a.len() && k < b.len() && a[k] == b[k]
        invariant
            k <= a.len(),
            k <= b.len(),
            lex_less(a@, b@) == lex_less(a@.skip(k as int), b@.skip(k as int)),
        decreases a.len() - k,
    {
        assert(a@.skip(k as int).skip(1) =~= a@.skip(k + 1));
        assert(b@.skip(k as int).skip(1) =~= b@.skip(k + 1));
        k = k + 1;
    }
    let ghost ra = a@.skip(k as int);
    let ghost rb = b@.skip(k as int);
    if k == a.len() {
        assert(ra.len() == 0);
        k < b.len()
    } else if k == b.len() {
        assert(rb.len() == 0);
        false
    } else {
        assert(ra[0] == a@[k as int] && rb[0] == b@[k as int]);
        a[k] < b[k]
    }
}

/// `perm` lists each index below `n` exactly once.
pub open spec fn is_permutation(perm: Seq<usize>, n: nat) -> bool {
    &&& perm.len() == n
    &&& forall|i: int| 0 <= i < perm.len() ==> #[trigger] perm[i] < n
    &&& forall|i: int, j: int| 0 <= i < j < perm.len() ==> perm[i] != perm[j]
    &&& forall|j: int| 0 <= j < n ==> 0 <= #[trigger] position_of(perm, j) < perm.len() && perm[position_of(perm, j)] == j
}

/// `j` stands somewhere in `perm`.
pub open spec fn holds_index(perm: Seq<usize>, j: int) -> bool {
    exists|q: int| 0 <= q < perm.len() && perm[q] == j
}

/// Where `j` stands in `perm`.
pub open spec fn position_of(perm: Seq<usize>, j: int) -> int {
    choose|p: int| 0 <= p < perm.len() && perm[p] == j
}

/// The keys, read in the order of `perm`, never go down.
pub open spec fn sorted_by_keys(perm: Seq<usize>, keys: Seq<Seq<char>>) -> bool {
    forall|i: int, j: int|
        0 <= i < j < perm.len() ==> !lex_less(#[trigger] keys[perm[j] as int], #[trigger] keys[perm[i] as int])
}

/// The counts, read in the order of `perm`, never go up.
pub open spec fn sorted_by_counts_desc(perm: Seq<usize>, counts: Seq<usize>) -> bool {
    forall|i: int, j: int|
        0 <= i < j < perm.len() ==> #[trigger] counts[perm[j] as int] <= #[trigger] counts[perm[i] as int]
}

/// Inserting the index `i`, larger than every index held, keeps the indices distinct.
proof fn lemma_insert_fresh(perm: Seq<usize>, p: int, i: usize)
    requires
        0 <= p <= perm.len(),
        forall|a: int| 0 <= a < perm.len() ==> #[trigger] perm[a] < i,
        forall|a: int, b: int| 0 <= a < b < perm.len() ==> perm[a] != perm[b],
    ensures
        forall|a: int, b: int| 0 <= a < b < perm.len() + 1 ==> perm.insert(p, i)[a] != perm.insert(p, i)[b],
        forall|a: int| 0 <= a < perm.len() + 1 ==> #[trigger] perm.insert(p, i)[a] <= i,
{
    let q = perm.insert(p, i);
    assert forall|a: int, b: int| 0 <= a < b < perm.len() + 1 implies q[a] != q[b] by {
        if a < p && b < p {
            assert(q[a] == perm[a] && q[b] == perm[b]);
        } else if a < p && b == p {
            assert(q[a] == perm[a]);
        } else if a < p {
            assert(q[a] == perm[a] && q[b] == perm[b - 1]);
        } else if a == p {
            assert(q[b] == perm[b - 1]);
        } else {
            assert(q[a] == perm[a - 1] && q[b] == perm[b - 1]);
        }
    }
    assert forall|a: int| 0 <= a < perm.len() + 1 implies #[trigger] q[a] <= i by {
        if a < p {
            assert(q[a] == perm[a]);
        } else if a > p {
            assert(q[a] == perm[a - 1]);
        }
    }
}

/// Inserting `i` into a list that holds every index below `i` makes it hold
/// every index up to `i`.
proof fn lemma_insert_covers(perm: Seq<usize>, p: int, i: usize)
    requires
        0 <= p <= perm.len(),
        forall|j: int| 0 <= j < i ==> #[trigger] holds_index(perm, j),
    ensures
        forall|j: int| 0 <= j < i + 1 ==> #[trigger] holds_index(perm.insert(p, i), j),
{
    let t = perm.insert(p, i);
    assert forall|j: int| 0 <= j < i + 1 implies #[trigger] holds_index(t, j) by {
        if j == i {
            assert(t[p] == i);
        } else {
            assert(holds_index(perm, j));
            let q = choose|q: int| 0 <= q < perm.len() && perm[q] == j;
            if q < p {
                assert(t[q] == j);
            } else {
                assert(t[q + 1] == j);
            }
        }
    }
}

/// A list that holds every index below `n` names, for each, a position.
proof fn lemma_covers_permutation(perm: Seq<usize>, n: nat)
    requires
        forall|j: int| 0 <= j < n ==> #[trigger] holds_index(perm, j),
    ensures
        forall|j: int| 0 <= j < n ==> #[trigger] position_of(perm, j) < perm.len() && perm[position_of(perm, j)] == j
            && 0 <= position_of(perm, j),
{
    assert forall|j: int| 0 <= j < n implies #[trigger] position_of(perm, j) < perm.len() && perm[position_of(perm, j)] == j
        && 0 <= position_of(perm, j) by {
        assert(holds_index(perm, j));
    }
}

/// An order of the indices of `keys` under which the keys never go down; equal
/// keys keep their original order.
pub fn sort_indices_by_keys(keys: &Vec<Vec<char>>) -> (perm: Vec<usize>)
    ensures
        is_permutation(perm@, keys@.len()),
        sorted_by_keys(perm@, keys@.map_values(|k: Vec<char>| k@)),
{
    let ghost ks = keys@.map_values(|k: Vec<char>| k@);
    let mut perm: Vec<usize> = Vec::new();
    let mut i: usize = 0;
    while i < keys.len()
        invariant
            i <= keys.len(),
            ks == keys@.map_values(|k: Vec<char>| k@),
            perm@.len() == i,
            forall|a: int| 0 <= a < perm@.len() ==> #[trigger] perm@[a] < i,
            forall|a: int, b: int| 0 <= a < b < perm@.len() ==> perm@[a] != perm@[b],
            forall|j: int| 0 <= j < i ==> #[trigger] holds_index(perm@, j),
            sorted_by_keys(perm@, ks),
        decreases keys.len() - i,
    {
        let mut p: usize = 0;
        while p < perm.len() && !lex_less_chars(keys[i].as_slice(), keys[perm[p]].as_slice())
            invariant
                p <= perm@.len(),
                perm@.len() == i,
                i < keys.len(),
                ks == keys@.map_values(|k: Vec<char>| k@),
                forall|a: int| 0 <= a < perm@.len() ==> #[trigger] perm@[a] < i,
                forall|q: int| 0 <= q < p ==> !lex_less(ks[i as int], #[trigger] ks[perm@[q] as int]),
            decreases perm@.len() - p,
        {
            p = p + 1;
        }
        let ghost old_perm = perm@;
        proof {
            lemma_insert_fresh(old_perm, p as int, i);
            assert forall|a: int, b: int| 0 <= a < b < old_perm.len() + 1 implies !lex_less(
                #[trigger] ks[old_perm.insert(p as int, i)[b] as int],
                #[trigger] ks[old_perm.insert(p as int, i)[a] as int],
            ) by {
                let q = old_perm.insert(p as int, i);
                if a < p && b < p {
                    assert(q[a] == old_perm[a] && q[b] == old_perm[b]);
                } else if a < p && b == p {
                    assert(q[a] == old_perm[a]);
                } else if a < p {
                    assert(q[a] == old_perm[a] && q[b] == old_perm[b - 1]);
                } else if a == p {
                    assert(q[b] == old_perm[b - 1]);
                    assert(lex_less(ks[i as int], ks[old_perm[p as int] as int]));
                    if b - 1 > p {
                        assert(!lex_less(ks[old_perm[b - 1] as int], ks[old_perm[p as int] as int]));
                        if ks[old_perm[b - 1] as int] != ks[old_perm[p as int] as int] {
                            lemma_lex_total(ks[old_perm[b - 1] as int], ks[old_perm[p as int] as int]);
                            lemma_lex_transitive(ks[i as int], ks[old_perm[p as int] as int], ks[old_perm[b - 1] as int]);
                        }
                    }
                    lemma_lex_asymmetric(ks[i as int], ks[old_perm[b - 1] as int]);
                } else {
                    assert(q[a] == old_perm[a - 1] && q[b] == old_perm[b - 1]);
                }
            }
        }
        perm.insert(p, i);
        proof {
            lemma_insert_covers(old_perm, p as int, i);
        }
        i = i + 1;
    }
    proof {
        lemma_covers_permutation(perm@, i as nat);
    }
    perm
}

/// An order of the indices of `counts` under which the counts never go up;
/// equal counts keep their original order.
pub fn sort_indices_by_counts_desc(counts: &Vec<usize>) -> (perm: Vec<usize>)
    ensures
        is_permutation(perm@, counts@.len()),
        sorted_by_counts_desc(perm@, counts@),
{
    let mut perm: Vec<usize> = Vec::new();
    let mut i: usize = 0;
    while i < counts.len()
        invariant
            i <= counts.len(),
            perm@.len() == i,
            forall|a: int| 0 <= a < perm@.len() ==> #[trigger] perm@[a] < i,
            forall|a: int, b: int| 0 <= a < b < perm@.len() ==> perm@[a] != perm@[b],
            forall|j: int| 0 <= j < i ==> #[trigger] holds_index(perm@, j),
            sorted_by_counts_desc(perm@, counts@),
        decreases counts.len() - i,
    {
        let mut p: usize = 0;
        while p < perm.len() && counts[perm[p]] >= counts[i]
            invariant
                p <= perm@.len(),
                perm@.len() == i,
                i < counts.len(),
                forall|a: int| 0 <= a < perm@.len() ==> #[trigger] perm@[a] < i,
                forall|q: int| 0 <= q < p ==> counts@[i as int] <= #[trigger] counts@[perm@[q] as int],
            decreases perm@.len() - p,
        {
            p = p + 1;
        }
        let ghost old_perm = perm@;
        proof {
            lemma_insert_fresh(old_perm, p as int, i);
            assert forall|a: int, b: int| 0 <= a < b < old_perm.len() + 1 implies
                #[trigger] counts@[old_perm.insert(p as int, i)[b] as int]
                <= #[trigger] counts@[old_perm.insert(p as int, i)[a] as int] by {
                let q = old_perm.insert(p as int, i);
                if a < p && b < p {
                    assert(q[a] == old_perm[a] && q[b] == old_perm[b]);
                } else if a < p && b == p {
                    assert(q[a] == old_perm[a]);
                } else if a < p {
                    assert(q[a] == old_perm[a] && q[b] == old_perm[b - 1]);
                } else if a == p {
                    assert(q[b] == old_perm[b - 1]);
                    if b - 1 > p {
                        assert(counts@[old_perm[b - 1] as int] <= counts@[old_perm[p as int] as int]);
                    }
                } else {
                    assert(q[a] == old_perm[a - 1] && q[b] == old_perm[b - 1]);
                }
            }
        }
        perm.insert(p, i);
        proof {
            lemma_insert_covers(old_perm, p as int, i);
        }
        i = i + 1;
    }
    proof {
        lemma_covers_permutation(perm@, i as nat);
    }
    perm
}

} // verus!
