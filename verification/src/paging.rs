//! Newest-first pages: the listing order of the stores, by a time and then
//! by an identifier.
use vstd::prelude::*;

verus! {

/// What a listing orders by: a stored time and a row identifier.
pub type ListingKey = (i64, u128);

/// No two keys carry one identifier.
pub open spec fn distinct_ids(keys: Seq<ListingKey>) -> bool {
    forall|i: int, j: int|
        0 <= i < keys.len() && 0 <= j < keys.len() && i != j ==> #[trigger] keys[i].1
            != #[trigger] keys[j].1
}

/// `a` is listed before `b`: it is later, or as late with the larger
/// identifier (canonical UUID text orders as the integer).
pub open spec fn newer(a: ListingKey, b: ListingKey) -> bool {
    a.0 > b.0 || (a.0 == b.0 && a.1 > b.1)
}

/// `picked` indexes the newest `limit` keys, newest first.
pub open spec fn newest_page(keys: Seq<ListingKey>, limit: nat, picked: Seq<usize>) -> bool {
    &&& picked.len() <= limit
    &&& forall|k: int| 0 <= k < picked.len() ==> #[trigger] picked[k] < keys.len()
    &&& forall|a: int, b: int|
        0 <= a < b < picked.len() ==> newer(keys[#[trigger] picked[a] as int], keys[#[trigger] picked[b] as int])
    &&& picked.len() < limit ==> forall|j: usize| j < keys.len() ==> #[trigger] picked.contains(j)
    &&& picked.len() > 0 ==> forall|j: int|
        0 <= j < keys.len() && !picked.contains(j as usize) ==> newer(
            keys[picked.last() as int],
            #[trigger] keys[j],
        )
}

fn is_newer(a: &ListingKey, b: &ListingKey) -> (r: bool)
    ensures
        r == newer(*a, *b),
{
    a.0 > b.0 || (a.0 == b.0 && a.1 > b.1)
}

/// Picks the newest `limit` keys, newest first.
pub fn select_newest(keys: &Vec<ListingKey>, limit: usize) -> (r: Vec<usize>)
    ensures
        r@.len() <= limit,
        forall|k: int| 0 <= k < r@.len() ==> #[trigger] r@[k] < keys@.len(),
        distinct_ids(keys@) ==> newest_page(keys@, limit as nat, r@),
{
    let mut picked: Vec<usize> = Vec::new();
    let mut exhausted = false;
    while !exhausted && picked.len() < limit
        invariant
            picked@.len() <= limit,
            forall|k: int| 0 <= k < picked@.len() ==> #[trigger] picked@[k] < keys@.len(),
            forall|a: int, b: int|
                0 <= a < b < picked@.len() ==> newer(
                    keys@[#[trigger] picked@[a] as int],
                    keys@[#[trigger] picked@[b] as int],
                ),
            distinct_ids(keys@) && picked@.len() > 0 ==> forall|j: int|
                0 <= j < keys@.len() && !newer(keys@[picked@.last() as int], #[trigger] keys@[j])
                    ==> picked@.contains(j as usize),
            exhausted ==> (keys@.len() > 0 ==> picked@.len() > 0),
            exhausted && picked@.len() > 0 ==> forall|j: int|
                0 <= j < keys@.len() ==> !newer(keys@[picked@.last() as int], #[trigger] keys@[j]),
        decreases limit - picked@.len(), if exhausted { 0int } else { 1int },
    {
        let mut best: Option<usize> = None;
        let mut i: usize = 0;
        while i < keys.len()
            invariant
                0 <= i <= keys@.len(),
                forall|k: int| 0 <= k < picked@.len() ==> #[trigger] picked@[k] < keys@.len(),
                match best {
                    Some(b) => b < i && (picked@.len() > 0 ==> newer(
                        keys@[picked@.last() as int],
                        keys@[b as int],
                    )) && (picked@.len() == 0 ==> forall|j: int|
                        0 <= j < i ==> !newer(#[trigger] keys@[j], keys@[b as int])) && (
                    picked@.len() > 0 ==> forall|j: int|
                        0 <= j < i && newer(keys@[picked@.last() as int], #[trigger] keys@[j])
                            ==> !newer(keys@[j], keys@[b as int])),
                    None => (i > 0 ==> picked@.len() > 0) && (picked@.len() > 0 ==> forall|j: int|
                        0 <= j < i ==> !newer(keys@[picked@.last() as int], #[trigger] keys@[j])),
                },
            decreases keys@.len() - i,
        {
            let below = if picked.len() == 0 {
                true
            } else {
                is_newer(&keys[picked[picked.len() - 1]], &keys[i])
            };
            if below {
                let take = match best {
                    None => true,
                    Some(b) => is_newer(&keys[i], &keys[b]),
                };
                if take {
                    proof {
                        if let Some(b) = best {
                            if picked@.len() == 0 {
                                assert forall|j: int| 0 <= j < i implies !newer(
                                    #[trigger] keys@[j],
                                    keys@[i as int],
                                ) by {
                                    if newer(keys@[j], keys@[i as int]) {
                                        lemma_newer_transitive(keys@[j], keys@[i as int], keys@[b as int]);
                                    }
                                }
                            } else {
                                assert forall|j: int|
                                    0 <= j < i && newer(keys@[picked@.last() as int], #[trigger] keys@[j])
                                        implies !newer(keys@[j], keys@[i as int]) by {
                                    if newer(keys@[j], keys@[i as int]) {
                                        lemma_newer_transitive(keys@[j], keys@[i as int], keys@[b as int]);
                                    }
                                }
                            }
                        }
                    }
                    best = Some(i);
                }
            }
            i = i + 1;
        }
        match best {
            None => {
                exhausted = true;
            },
            Some(b) => {
                let ghost before = picked@;
                picked.push(b);
                proof {
                    assert(picked@.last() == b);
                    assert forall|a: int, c: int|
                        0 <= a < c < picked@.len() implies newer(
                        keys@[#[trigger] picked@[a] as int],
                        keys@[#[trigger] picked@[c] as int],
                    ) by {
                        if c < before.len() {
                            assert(picked@[a] == before[a] && picked@[c] == before[c]);
                        } else if before.len() > 0 {
                            assert(picked@[a] == before[a]);
                            if a < before.len() - 1 {
                                assert(newer(keys@[before[a] as int], keys@[before.last() as int]));
                                lemma_newer_transitive(
                                    keys@[before[a] as int],
                                    keys@[before.last() as int],
                                    keys@[b as int],
                                );
                            }
                        }
                    }
                    if distinct_ids(keys@) {
                        assert forall|j: int|
                            0 <= j < keys@.len() && !newer(keys@[b as int], #[trigger] keys@[j])
                                implies picked@.contains(j as usize) by {
                            if before.len() > 0 && !newer(keys@[before.last() as int], keys@[j]) {
                                assert(before.contains(j as usize));
                                let k = choose|k: int| 0 <= k < before.len() && before[k] == j as usize;
                                assert(picked@[k] == j as usize);
                            } else {
                                assert(!newer(keys@[j], keys@[b as int]));
                                if j != b {
                                    assert(keys@[j].1 != keys@[b as int].1);
                                }
                                assert(picked@[picked@.len() - 1] == j as usize);
                            }
                        }
                    }
                }
            },
        }
    }
    proof {
        if distinct_ids(keys@) {
            lemma_page_closure(keys@, limit as nat, picked@);
        }
    }
    picked
}

proof fn lemma_newer_transitive(a: ListingKey, b: ListingKey, c: ListingKey)
    requires
        newer(a, b),
        newer(b, c),
    ensures
        newer(a, c),
{
}

proof fn lemma_page_closure(keys: Seq<ListingKey>, limit: nat, picked: Seq<usize>)
    requires
        distinct_ids(keys),
        picked.len() <= limit,
        forall|k: int| 0 <= k < picked.len() ==> #[trigger] picked[k] < keys.len(),
        forall|a: int, b: int|
            0 <= a < b < picked.len() ==> newer(keys[#[trigger] picked[a] as int], keys[#[trigger] picked[b] as int]),
        picked.len() > 0 ==> forall|j: int|
            0 <= j < keys.len() && !newer(keys[picked.last() as int], #[trigger] keys[j])
                ==> picked.contains(j as usize),
        picked.len() < limit ==> (keys.len() > 0 ==> picked.len() > 0),
        picked.len() < limit && picked.len() > 0 ==> forall|j: int|
            0 <= j < keys.len() ==> !newer(keys[picked.last() as int], #[trigger] keys[j]),
    ensures
        newest_page(keys, limit, picked),
{
    if picked.len() < limit {
        assert forall|j: usize| j < keys.len() implies #[trigger] picked.contains(j) by {
            let jj = j as int;
            assert(0 <= jj < keys.len());
            assert(!newer(keys[picked.last() as int], keys[jj]));
        }
    }
    if picked.len() > 0 {
        assert forall|j: int|
            0 <= j < keys.len() && !picked.contains(j as usize) implies newer(
            keys[picked.last() as int],
            #[trigger] keys[j],
        ) by {}
    }
}

// ----------------------------------------------------------------------------
// Pages behind a cursor
// ----------------------------------------------------------------------------

/// The key lies strictly behind the cursor; without a cursor, every key does.
pub open spec fn behind(key: ListingKey, bound: Option<ListingKey>) -> bool {
    match bound {
        Some(b) => newer(b, key),
        None => true,
    }
}

/// `cands` lists, in order, every key behind the cursor.
pub open spec fn candidates(keys: Seq<ListingKey>, bound: Option<ListingKey>, cands: Seq<usize>) -> bool {
    &&& forall|a: int, b: int| 0 <= a < b < cands.len() ==> #[trigger] cands[a] < #[trigger] cands[b]
    &&& forall|k: int|
        0 <= k < cands.len() ==> #[trigger] cands[k] < keys.len() && behind(
            keys[cands[k] as int],
            bound,
        )
    &&& forall|j: usize| j < keys.len() && behind(keys[j as int], bound) ==> #[trigger] cands.contains(j)
}

/// The keys of the candidates.
pub open spec fn candidate_keys(keys: Seq<ListingKey>, cands: Seq<usize>) -> Seq<ListingKey> {
    cands.map_values(|j: usize| keys[j as int])
}

/// `picked` indexes into `cands` the newest `limit` keys behind the cursor,
/// newest first.
pub open spec fn page_before(
    keys: Seq<ListingKey>,
    bound: Option<ListingKey>,
    limit: nat,
    cands: Seq<usize>,
    picked: Seq<usize>,
) -> bool {
    candidates(keys, bound, cands) && newest_page(candidate_keys(keys, cands), limit, picked)
}

fn is_behind(key: ListingKey, bound: Option<ListingKey>) -> (r: bool)
    ensures
        r == behind(key, bound),
{
    match bound {
        Some(b) => is_newer(&b, &key),
        None => true,
    }
}

/// Picks the newest `limit` keys strictly behind the cursor, newest first:
/// the candidates in order, and the page as indices into them.
pub fn select_page_before(keys: &Vec<ListingKey>, bound: Option<ListingKey>, limit: usize) -> (r: (
    Vec<usize>,
    Vec<usize>,
))
    ensures
        candidates(keys@, bound, r.0@),
        r.1@.len() <= limit,
        forall|m: int| 0 <= m < r.1@.len() ==> #[trigger] r.1@[m] < r.0@.len(),
        distinct_ids(keys@) ==> page_before(keys@, bound, limit as nat, r.0@, r.1@),
{
    let mut cands: Vec<usize> = Vec::new();
    let mut chosen: Vec<ListingKey> = Vec::new();
    let mut i: usize = 0;
    while i < keys.len()
        invariant
            0 <= i <= keys@.len(),
            forall|a: int, b: int|
                0 <= a < b < cands@.len() ==> #[trigger] cands@[a] < #[trigger] cands@[b],
            forall|k: int|
                0 <= k < cands@.len() ==> #[trigger] cands@[k] < i && behind(
                    keys@[cands@[k] as int],
                    bound,
                ),
            forall|j: usize| j < i && behind(keys@[j as int], bound) ==> #[trigger] cands@.contains(j),
            chosen@ == candidate_keys(keys@, cands@),
        decreases keys@.len() - i,
    {
        if is_behind(keys[i], bound) {
            let ghost before = cands@;
            cands.push(i);
            chosen.push(keys[i]);
            proof {
                assert(chosen@ =~= candidate_keys(keys@, cands@));
                assert forall|j: usize| j < i + 1 && behind(keys@[j as int], bound) implies #[trigger] cands@.contains(j) by {
                    if j == i {
                        assert(cands@[before.len() as int] == j);
                    } else {
                        assert(before.contains(j));
                        let k = choose|k: int| 0 <= k < before.len() && before[k] == j;
                        assert(cands@[k] == j);
                    }
                }
            }
        }
        i = i + 1;
    }
    proof {
        if distinct_ids(keys@) {
            assert forall|a: int, b: int|
                0 <= a < chosen@.len() && 0 <= b < chosen@.len() && a != b implies #[trigger] chosen@[a].1
                != #[trigger] chosen@[b].1 by {
                assert(cands@[a] != cands@[b]) by {
                    if a < b {
                        assert(cands@[a] < cands@[b]);
                    } else {
                        assert(cands@[b] < cands@[a]);
                    }
                }
            }
        }
    }
    let picked = select_newest(&chosen, limit);
    (cands, picked)
}

proof fn lemma_increasing_index_bound(cands: Seq<usize>, k: int)
    requires
        forall|a: int, b: int| 0 <= a < b < cands.len() ==> #[trigger] cands[a] < #[trigger] cands[b],
        0 <= k < cands.len(),
    ensures
        cands[k] >= k,
    decreases k,
{
    if k > 0 {
        lemma_increasing_index_bound(cands, k - 1);
        assert(cands[k - 1] < cands[k]);
    }
}

/// Paging by cursor neither skips nor repeats: once a first page is listed,
/// a key lies behind its last one exactly when the page did not list it.
pub proof fn law_cursor_resumes_after_the_page(
    keys: Seq<ListingKey>,
    limit: nat,
    cands: Seq<usize>,
    picked: Seq<usize>,
)
    requires
        candidates(keys, None, cands),
        newest_page(candidate_keys(keys, cands), limit, picked),
        picked.len() > 0,
    ensures
        forall|j: usize|
            j < keys.len() ==> (behind(
                #[trigger] keys[j as int],
                Some(keys[cands[picked.last() as int] as int]),
            ) <==> !exists|k: int| 0 <= k < picked.len() && cands[picked[k] as int] == j),
{
    let chosen = candidate_keys(keys, cands);
    let last = picked.last() as int;
    let bound = keys[cands[last] as int];
    assert forall|j: usize| j < keys.len() implies (behind(
        #[trigger] keys[j as int],
        Some(bound),
    ) <==> !exists|k: int| 0 <= k < picked.len() && cands[picked[k] as int] == j) by {
        if exists|k: int| 0 <= k < picked.len() && cands[picked[k] as int] == j {
            let k = choose|k: int| 0 <= k < picked.len() && cands[picked[k] as int] == j;
            assert(chosen[picked[k] as int] == keys[j as int]);
            assert(chosen[picked[picked.len() - 1] as int] == bound);
            if k < picked.len() - 1 {
                assert(newer(chosen[picked[k] as int], chosen[picked[picked.len() - 1] as int]));
            }
        } else {
            assert(cands.contains(j));
            let m = choose|m: int| 0 <= m < cands.len() && cands[m] == j;
            lemma_increasing_index_bound(cands, m);
            if picked.contains(m as usize) {
                let k = choose|k: int| 0 <= k < picked.len() && picked[k] == m as usize;
                assert(cands[picked[k] as int] == j);
            }
            assert(chosen[m] == keys[j as int]);
            assert(newer(chosen[last], chosen[m]));
        }
    }
}

// ----------------------------------------------------------------------------
// Oldest first
// ----------------------------------------------------------------------------

/// `order` lists every key once, oldest first: no key is newer than one
/// listed after it.
pub open spec fn oldest_first(keys: Seq<ListingKey>, order: Seq<usize>) -> bool {
    &&& order.len() == keys.len()
    &&& forall|k: int| 0 <= k < order.len() ==> #[trigger] order[k] < keys.len()
    &&& forall|j: usize| j < keys.len() ==> #[trigger] order.contains(j)
    &&& forall|a: int, b: int|
        0 <= a < b < order.len() ==> !newer(keys[#[trigger] order[a] as int], keys[#[trigger] order[b] as int])
}

/// The indices of the keys, oldest first.
pub fn sorted_oldest_first(keys: &Vec<ListingKey>) -> (r: Vec<usize>)
    ensures
        oldest_first(keys@, r@),
{
    let mut order: Vec<usize> = Vec::new();
    let mut i: usize = 0;
    while i < keys.len()
        invariant
            0 <= i <= keys@.len(),
            order@.len() == i,
            forall|k: int| 0 <= k < order@.len() ==> #[trigger] order@[k] < i,
            forall|j: usize| j < i ==> #[trigger] order@.contains(j),
            forall|a: int, b: int|
                0 <= a < b < order@.len() ==> !newer(
                    keys@[#[trigger] order@[a] as int],
                    keys@[#[trigger] order@[b] as int],
                ),
        decreases keys@.len() - i,
    {
        let key = keys[i];
        let mut p: usize = 0;
        while p < order.len() && !is_newer(&keys[order[p]], &key)
            invariant
                0 <= p <= order@.len(),
                forall|k: int| 0 <= k < order@.len() ==> #[trigger] order@[k] < i,
                i < keys@.len(),
                key == keys@[i as int],
                forall|k: int| 0 <= k < p ==> !newer(keys@[#[trigger] order@[k] as int], key),
            decreases order@.len() - p,
        {
            p = p + 1;
        }
        let ghost before = order@;
        proof {
            assert forall|k: int| p <= k < before.len() implies !newer(
                key,
                keys@[#[trigger] before[k] as int],
            ) by {
                let kp = keys@[before[p as int] as int];
                let kk = keys@[before[k] as int];
                assert(newer(kp, key));
                if newer(key, kk) {
                    if k > p {
                        assert(!newer(kp, kk));
                    }
                }
            }
        }
        order.insert(p, i);
        proof {
            before.insert_ensures(p as int, i);
            assert forall|k: int| 0 <= k < order@.len() implies #[trigger] order@[k] < i + 1 by {
                if k < p {
                    assert(order@[k] == before[k]);
                } else if k > p {
                    assert(order@[k] == before[k - 1]);
                }
            }
            assert forall|j: usize| j < i + 1 implies #[trigger] order@.contains(j) by {
                if j == i {
                    assert(order@[p as int] == i);
                } else {
                    assert(before.contains(j));
                    let k = choose|k: int| 0 <= k < before.len() && before[k] == j;
                    if k < p {
                        assert(order@[k] == j);
                    } else {
                        assert(order@[k + 1] == j);
                    }
                }
            }
            assert forall|a: int, b: int| 0 <= a < b < order@.len() implies !newer(
                keys@[#[trigger] order@[a] as int],
                keys@[#[trigger] order@[b] as int],
            ) by {
                if b < p {
                    assert(order@[a] == before[a] && order@[b] == before[b]);
                } else if b == p {
                    assert(order@[a] == before[a]);
                } else if a < p {
                    assert(order@[a] == before[a] && order@[b] == before[b - 1]);
                } else if a == p {
                    assert(order@[b] == before[b - 1]);
                } else {
                    assert(order@[a] == before[a - 1] && order@[b] == before[b - 1]);
                }
            }
        }
        i = i + 1;
    }
    order
}

} // verus!
