//! Canonical capability lists of program grants and Skill states.
//!
//! A canonical list is sorted by byte-wise string order and holds every
//! capability once; a request that names one twice is rejected.
use crate::error::SqlitePersistenceError;
use crate::records::{identifier, validate_skill_identity, ProgramPermissionGrant, SkillStateRecord};
use crate::text::{blank, is_blank};
use vstd::prelude::*;
use vstd::string::StringSliceAdditionalSpecFns;
use vstd::utf8::encode_utf8;

verus! {

// ----------------------------------------------------------------------------
// Byte-wise string order
// ----------------------------------------------------------------------------

/// `a` sorts strictly before `b` in lexicographic byte order.
pub open spec fn lex_less(a: Seq<u8>, b: Seq<u8>) -> bool
    decreases a.len(),
{
    if a.len() == 0 {
        b.len() > 0
    } else if b.len() == 0 {
        false
    } else if a[0] != b[0] {
        a[0] < b[0]
    } else {
        lex_less(a.drop_first(), b.drop_first())
    }
}

/// String `a` sorts strictly before string `b` (byte-wise, as `str` orders).
pub open spec fn str_less(a: Seq<char>, b: Seq<char>) -> bool {
    lex_less(encode_utf8(a), encode_utf8(b))
}

pub(crate) proof fn lemma_lex_irreflexive(a: Seq<u8>)
    ensures
        !lex_less(a, a),
    decreases a.len(),
{
    if a.len() > 0 {
        lemma_lex_irreflexive(a.drop_first());
    }
}

pub(crate) proof fn lemma_lex_transitive(a: Seq<u8>, b: Seq<u8>, c: Seq<u8>)
    requires
        lex_less(a, b),
        lex_less(b, c),
    ensures
        lex_less(a, c),
    decreases a.len(),
{
    if a.len() > 0 && b.len() > 0 && c.len() > 0 && a[0] == b[0] && b[0] == c[0] {
        lemma_lex_transitive(a.drop_first(), b.drop_first(), c.drop_first());
    }
}

pub(crate) proof fn lemma_lex_total(a: Seq<u8>, b: Seq<u8>)
    requires
        a != b,
    ensures
        lex_less(a, b) || lex_less(b, a),
    decreases a.len(),
{
    if a.len() > 0 && b.len() > 0 && a[0] == b[0] {
        if a.drop_first() == b.drop_first() {
            assert(a =~= seq![a[0]] + a.drop_first());
            assert(b =~= seq![b[0]] + b.drop_first());
        }
        lemma_lex_total(a.drop_first(), b.drop_first());
    } else if a.len() == 0 && b.len() == 0 {
        assert(a =~= b);
    }
}

pub(crate) proof fn lemma_lex_asymmetric(a: Seq<u8>, b: Seq<u8>)
    requires
        lex_less(a, b),
    ensures
        !lex_less(b, a),
{
    if lex_less(b, a) {
        lemma_lex_transitive(a, b, a);
        lemma_lex_irreflexive(a);
    }
}

/// Distinct strings have distinct encodings.
pub(crate) proof fn lemma_encode_injective(a: Seq<char>, b: Seq<char>)
    requires
        a != b,
    ensures
        encode_utf8(a) != encode_utf8(b),
{
    vstd::utf8::encode_utf8_decode_utf8(a);
    vstd::utf8::encode_utf8_decode_utf8(b);
}

/// Whether `a` sorts strictly before `b`, byte-wise.
pub(crate) fn string_less(a: &str, b: &str) -> (r: bool)
    ensures
        r == str_less(a@, b@),
{
    let x = a.as_bytes();
    let y = b.as_bytes();
    let mut i: usize = 0;
    assert(x@.skip(0) =~= x@ && y@.skip(0) =~= y@);
    while i < x.len() && i < y.len()
        invariant
            0 <= i <= x@.len(),
            i <= y@.len(),
            x@ == a.spec_bytes(),
            y@ == b.spec_bytes(),
            lex_less(x@, y@) == lex_less(x@.skip(i as int), y@.skip(i as int)),
        decreases x@.len() - i,
    {
        proof {
            assert(x@.skip(i as int).drop_first() =~= x@.skip(i + 1));
            assert(y@.skip(i as int).drop_first() =~= y@.skip(i + 1));
        }
        if x[i] != y[i] {
            return x[i] < y[i];
        }
        i = i + 1;
    }
    x.len() < y.len()
}

// ----------------------------------------------------------------------------
// Sorting without duplicates
// ----------------------------------------------------------------------------

/// The characters of each string.
pub open spec fn texts(strings: Seq<String>) -> Seq<Seq<char>> {
    strings.map_values(|s: String| s@)
}

/// No string occurs twice.
pub open spec fn all_distinct(s: Seq<Seq<char>>) -> bool {
    forall|a: int, b: int| 0 <= a < b < s.len() ==> #[trigger] s[a] != #[trigger] s[b]
}

/// Strictly ascending in byte-wise string order.
pub open spec fn strictly_sorted(s: Seq<Seq<char>>) -> bool {
    forall|a: int, b: int| 0 <= a < b < s.len() ==> str_less(#[trigger] s[a], #[trigger] s[b])
}

/// `sorted` is `input` in ascending order: the same strings, each once.
pub open spec fn sorted_permutation(input: Seq<Seq<char>>, sorted: Seq<Seq<char>>) -> bool {
    &&& sorted.len() == input.len()
    &&& strictly_sorted(sorted)
    &&& forall|x: Seq<char>| sorted.contains(x) <==> input.contains(x)
}

/// The strings in ascending byte-wise order, or `None` when one occurs twice.
pub fn sorted_distinct(strings: &Vec<String>) -> (r: Option<Vec<String>>)
    ensures
        match r {
            Some(sorted) => all_distinct(texts(strings@)) && sorted_permutation(
                texts(strings@),
                texts(sorted@),
            ),
            None => !all_distinct(texts(strings@)),
        },
{
    let mut out: Vec<String> = Vec::new();
    let mut i: usize = 0;
    while i < strings.len()
        invariant
            0 <= i <= strings@.len(),
            out@.len() == i,
            all_distinct(texts(strings@.take(i as int))),
            strictly_sorted(texts(out@)),
            forall|x: Seq<char>|
                texts(out@).contains(x) <==> texts(strings@.take(i as int)).contains(x),
        decreases strings@.len() - i,
    {
        let item = strings[i].clone();
        let ghost prev = texts(strings@.take(i as int));
        let ghost next = texts(strings@.take(i + 1));
        proof {
            assert(next =~= prev.push(item@));
        }
        let mut p: usize = 0;
        while p < out.len() && string_less(out[p].as_str(), item.as_str())
            invariant
                0 <= p <= out@.len(),
                forall|k: int| 0 <= k < p ==> str_less(#[trigger] texts(out@)[k], item@),
            decreases out@.len() - p,
        {
            p = p + 1;
        }
        if p < out.len() && string_less(item.as_str(), out[p].as_str()) == false {
            proof {
                let o = texts(out@);
                if o[p as int] != item@ {
                    lemma_encode_injective(o[p as int], item@);
                    lemma_lex_total(encode_utf8(o[p as int]), encode_utf8(item@));
                }
                assert(o.contains(item@));
                assert(prev.contains(item@));
                let k = choose|k: int| 0 <= k < prev.len() && prev[k] == item@;
                assert(next[k] == next[i as int]);
                assert(texts(strings@)[k] == next[k]);
                assert(texts(strings@)[i as int] == next[i as int]);
            }
            return None;
        }
        let ghost old_out = texts(out@);
        proof {
            assert forall|x: Seq<char>| old_out.contains(x) <==> prev.contains(x) by {
                assert(texts(out@).contains(x) <==> texts(strings@.take(i as int)).contains(x));
            }
            assert forall|k: int| p <= k < old_out.len() implies str_less(
                item@,
                #[trigger] old_out[k],
            ) by {
                if k > p {
                    assert(str_less(old_out[p as int], old_out[k]));
                    lemma_lex_transitive(
                        encode_utf8(item@),
                        encode_utf8(old_out[p as int]),
                        encode_utf8(old_out[k]),
                    );
                }
            }
            assert(!prev.contains(item@)) by {
                if prev.contains(item@) {
                    assert(old_out.contains(item@));
                    let k = choose|k: int| 0 <= k < old_out.len() && old_out[k] == item@;
                    if k < p {
                        lemma_lex_irreflexive(encode_utf8(item@));
                    } else {
                        lemma_lex_irreflexive(encode_utf8(item@));
                    }
                }
            }
        }
        out.insert(p, item);
        proof {
            let o = texts(out@);
            assert(o =~= old_out.insert(p as int, item@));
            old_out.insert_ensures(p as int, item@);
            assert forall|a: int, b: int| 0 <= a < b < next.len() implies #[trigger] next[a]
                != #[trigger] next[b] by {
                if b == i {
                    assert(next[a] == prev[a]);
                    assert(prev.contains(prev[a]));
                } else {
                    assert(next[a] == prev[a] && next[b] == prev[b]);
                }
            }
            assert forall|a: int, b: int| 0 <= a < b < o.len() implies str_less(
                #[trigger] o[a],
                #[trigger] o[b],
            ) by {
                if b < p {
                    assert(o[a] == old_out[a] && o[b] == old_out[b]);
                } else if b == p {
                    assert(o[a] == old_out[a]);
                } else if a < p {
                    assert(o[a] == old_out[a] && o[b] == old_out[b - 1]);
                    assert(str_less(old_out[a], item@));
                    lemma_lex_transitive(
                        encode_utf8(old_out[a]),
                        encode_utf8(item@),
                        encode_utf8(old_out[b - 1]),
                    );
                } else if a == p {
                    assert(o[b] == old_out[b - 1]);
                } else {
                    assert(o[a] == old_out[a - 1] && o[b] == old_out[b - 1]);
                }
            }
            assert forall|x: Seq<char>| o.contains(x) <==> next.contains(x) by {
                if o.contains(x) {
                    let k = choose|k: int| 0 <= k < o.len() && o[k] == x;
                    if k < p {
                        assert(old_out[k] == x);
                        assert(old_out.contains(x));
                        let j = choose|j: int| 0 <= j < prev.len() && prev[j] == x;
                        assert(next[j] == x);
                    } else if k > p {
                        assert(old_out[k - 1] == x);
                        assert(old_out.contains(x));
                        let j = choose|j: int| 0 <= j < prev.len() && prev[j] == x;
                        assert(next[j] == x);
                    } else {
                        assert(next[i as int] == x);
                    }
                }
                if next.contains(x) {
                    let k = choose|k: int| 0 <= k < next.len() && next[k] == x;
                    if k < i {
                        assert(prev[k] == x);
                        assert(prev.contains(x));
                        let j = choose|j: int| 0 <= j < old_out.len() && old_out[j] == x;
                        if j < p {
                            assert(o[j] == x);
                        } else {
                            assert(o[j + 1] == x);
                        }
                    } else {
                        assert(o[p as int] == x);
                    }
                }
            }
        }
        i = i + 1;
    }
    proof {
        assert(strings@.take(strings@.len() as int) =~= strings@);
    }
    Some(out)
}

// ----------------------------------------------------------------------------
// Listing order of keyed rows
// ----------------------------------------------------------------------------

/// `order` lists every key once, ascending byte-wise (as storage orders
/// text); equal keys keep their places.
pub open spec fn ascending_indices(keys: Seq<Seq<char>>, order: Seq<usize>) -> bool {
    &&& order.len() == keys.len()
    &&& forall|k: int| 0 <= k < order.len() ==> #[trigger] order[k] < keys.len()
    &&& forall|j: usize| j < keys.len() ==> #[trigger] order.contains(j)
    &&& forall|a: int, b: int|
        0 <= a < b < order.len() ==> !str_less(
            keys[#[trigger] order[b] as int],
            keys[#[trigger] order[a] as int],
        )
}

/// The indices of the keys in ascending byte-wise order.
pub fn sorted_indices(keys: &Vec<String>) -> (r: Vec<usize>)
    ensures
        ascending_indices(texts(keys@), r@),
{
    let mut order: Vec<usize> = Vec::new();
    let mut i: usize = 0;
    while i < keys.len()
        invariant
            0 <= i <= keys@.len(),
            order@.len() == i,
            forall|k: int| 0 <= k < order@.len() ==> #[trigger] order@[k] < i,
            forall|j: usize| j < i ==> #[trigger] order@.contains(j),
            forall|a: int, b: int|
                0 <= a < b < order@.len() ==> !str_less(
                    texts(keys@)[#[trigger] order@[b] as int],
                    texts(keys@)[#[trigger] order@[a] as int],
                ),
        decreases keys@.len() - i,
    {
        let key = keys[i].as_str();
        let mut p: usize = 0;
        while p < order.len() && !string_less(key, keys[order[p]].as_str())
            invariant
                0 <= p <= order@.len(),
                forall|k: int| 0 <= k < order@.len() ==> #[trigger] order@[k] < i,
                i < keys@.len(),
                key@ == texts(keys@)[i as int],
                forall|k: int|
                    0 <= k < p ==> !str_less(key@, texts(keys@)[#[trigger] order@[k] as int]),
            decreases order@.len() - p,
        {
            p = p + 1;
        }
        let ghost before = order@;
        proof {
            assert forall|k: int| p <= k < before.len() implies !str_less(
                texts(keys@)[#[trigger] before[k] as int],
                key@,
            ) by {
                let kp = texts(keys@)[before[p as int] as int];
                let kk = texts(keys@)[before[k] as int];
                if str_less(kk, key@) {
                    lemma_lex_transitive(encode_utf8(kk), encode_utf8(key@), encode_utf8(kp));
                    if k > p {
                        assert(!str_less(kk, kp));
                    } else {
                        lemma_lex_irreflexive(encode_utf8(kk));
                    }
                }
            }
        }
        order.insert(p, i);
        proof {
            before.insert_ensures(p as int, i);
            assert forall|k: int| 0 <= k < order@.len() implies #[trigger] order@[k] < i + 1 by {
                if k < p {
                    assert(order@[k] == before[k]);
                } else if k > p {
                    assert(order@[k] == before[k - 1]);
                }
            }
            assert forall|j: usize| j < i + 1 implies #[trigger] order@.contains(j) by {
                if j == i {
                    assert(order@[p as int] == i);
                } else {
                    assert(before.contains(j));
                    let k = choose|k: int| 0 <= k < before.len() && before[k] == j;
                    if k < p {
                        assert(order@[k] == j);
                    } else {
                        assert(order@[k + 1] == j);
                    }
                }
            }
            assert forall|a: int, b: int| 0 <= a < b < order@.len() implies !str_less(
                texts(keys@)[#[trigger] order@[b] as int],
                texts(keys@)[#[trigger] order@[a] as int],
            ) by {
                if b < p {
                    assert(order@[a] == before[a] && order@[b] == before[b]);
                } else if b == p {
                    assert(order@[a] == before[a]);
                } else if a < p {
                    assert(order@[a] == before[a] && order@[b] == before[b - 1]);
                } else if a == p {
                    assert(order@[b] == before[b - 1]);
                } else {
                    assert(order@[a] == before[a - 1] && order@[b] == before[b - 1]);
                }
            }
        }
        i = i + 1;
    }
    order
}

// ----------------------------------------------------------------------------
// Grants and Skill states
// ----------------------------------------------------------------------------

/// Every capability is non-blank and, when `max` is given, at most `max`
/// UTF-8 bytes long.
pub open spec fn capabilities_ok(capabilities: Seq<String>, max: Option<int>) -> bool {
    forall|k: int|
        0 <= k < capabilities.len() ==> {
            let c = #[trigger] capabilities[k];
            !blank(c@) && match max {
                Some(m) => encode_utf8(c@).len() <= m,
                None => true,
            }
        }
}

/// Whether every capability is non-blank and, when `max` is given, at most
/// `max` bytes long.
fn capabilities_valid(capabilities: &Vec<String>, max: Option<usize>) -> (r: bool)
    ensures
        r == capabilities_ok(
            capabilities@,
            match max {
                Some(m) => Some(m as int),
                None => None,
            },
        ),
{
    let ghost bound = match max {
        Some(m) => Some(m as int),
        None => None::<int>,
    };
    let mut i: usize = 0;
    while i < capabilities.len()
        invariant
            0 <= i <= capabilities@.len(),
            bound == match max {
                Some(m) => Some(m as int),
                None => None::<int>,
            },
            capabilities_ok(capabilities@.take(i as int), bound),
        decreases capabilities@.len() - i,
    {
        let c = capabilities[i].as_str();
        let fits = match max {
            Some(m) => c.as_bytes().len() <= m,
            None => true,
        };
        if is_blank(c) || !fits {
            proof {
                assert(capabilities@[i as int]@ == c@);
            }
            return false;
        }
        proof {
            assert forall|k: int| 0 <= k < i + 1 implies {
                let x = #[trigger] capabilities@.take(i + 1)[k];
                !blank(x@) && match bound {
                    Some(m) => encode_utf8(x@).len() <= m,
                    None => true,
                }
            } by {
                if k < i {
                    assert(capabilities@.take(i + 1)[k] == capabilities@.take(i as int)[k]);
                }
            }
        }
        i = i + 1;
    }
    proof {
        assert(capabilities@.take(capabilities@.len() as int) =~= capabilities@);
    }
    true
}

/// A grant that can be stored: named program and version, non-blank
/// capabilities, none twice.
pub open spec fn grant_ok(grant: ProgramPermissionGrant) -> bool {
    &&& !blank(grant.program_id@)
    &&& !blank(grant.version@)
    &&& capabilities_ok(grant.capabilities@, None)
    &&& all_distinct(texts(grant.capabilities@))
}

/// The capabilities of a grant in canonical order.
///
/// # Errors
///
/// Returns [`SqlitePersistenceError::InvalidPermissionGrant`] unless
/// [`grant_ok`] holds.
pub fn canonical_capabilities(grant: &ProgramPermissionGrant) -> (r: Result<
    Vec<String>,
    SqlitePersistenceError,
>)
    ensures
        r is Ok <==> grant_ok(*grant),
        r matches Ok(sorted) ==> sorted_permutation(
            texts(grant.capabilities@),
            texts(sorted@),
        ),
        r is Err ==> r == Err::<Vec<String>, SqlitePersistenceError>(
            SqlitePersistenceError::InvalidPermissionGrant,
        ),
{
    if is_blank(grant.program_id.as_str()) || is_blank(grant.version.as_str()) {
        return Err(SqlitePersistenceError::InvalidPermissionGrant);
    }
    if !capabilities_valid(&grant.capabilities, None) {
        return Err(SqlitePersistenceError::InvalidPermissionGrant);
    }
    match sorted_distinct(&grant.capabilities) {
        Some(sorted) => Ok(sorted),
        None => Err(SqlitePersistenceError::InvalidPermissionGrant),
    }
}

/// A Skill state that can be stored: a valid identifier, a non-blank version
/// of at most 128 bytes, enabled only when authorized, and non-blank
/// capabilities of at most 128 bytes, none twice.
pub open spec fn skill_state_ok(record: SkillStateRecord) -> bool {
    &&& identifier(encode_utf8(record.skill_id@))
    &&& !blank(record.version@)
    &&& encode_utf8(record.version@).len() <= 128
    &&& !(record.enabled && !record.authorized)
    &&& capabilities_ok(record.capabilities@, Some(128))
    &&& all_distinct(texts(record.capabilities@))
}

/// The capabilities of a Skill state in canonical order.
///
/// # Errors
///
/// Returns [`SqlitePersistenceError::InvalidSkillState`] unless
/// [`skill_state_ok`] holds.
pub fn canonical_skill_capabilities(record: &SkillStateRecord) -> (r: Result<
    Vec<String>,
    SqlitePersistenceError,
>)
    ensures
        r is Ok <==> skill_state_ok(*record),
        r matches Ok(sorted) ==> sorted_permutation(
            texts(record.capabilities@),
            texts(sorted@),
        ),
        r is Err ==> r == Err::<Vec<String>, SqlitePersistenceError>(
            SqlitePersistenceError::InvalidSkillState,
        ),
{
    match validate_skill_identity(record.skill_id.as_str()) {
        Ok(()) => {},
        Err(e) => return Err(e),
    }
    if is_blank(record.version.as_str()) || record.version.as_str().as_bytes().len() > 128 || (
    record.enabled && !record.authorized) {
        return Err(SqlitePersistenceError::InvalidSkillState);
    }
    if !capabilities_valid(&record.capabilities, Some(128)) {
        return Err(SqlitePersistenceError::InvalidSkillState);
    }
    match sorted_distinct(&record.capabilities) {
        Some(sorted) => Ok(sorted),
        None => Err(SqlitePersistenceError::InvalidSkillState),
    }
}

/// Law: the canonical order is unique. Two strictly ascending lists that hold
/// the same strings are equal; so canonicalizing a canonical list gives it
/// back, and two grants name the same capabilities exactly when their
/// canonical lists are equal.
pub proof fn law_canonical_order_unique(a: Seq<Seq<char>>, b: Seq<Seq<char>>)
    requires
        strictly_sorted(a),
        strictly_sorted(b),
        forall|x: Seq<char>| a.contains(x) <==> b.contains(x),
    ensures
        a == b,
    decreases a.len() + b.len(),
{
    if a.len() == 0 || b.len() == 0 {
        if a.len() > 0 {
            assert(a.contains(a[0]));
        }
        if b.len() > 0 {
            assert(b.contains(b[0]));
        }
        assert(a =~= b);
    } else {
        // Both lists start with the least string of the common set.
        assert(a.contains(a[0]));
        assert(b.contains(b[0]));
        let i = choose|i: int| 0 <= i < b.len() && b[i] == a[0];
        let j = choose|j: int| 0 <= j < a.len() && a[j] == b[0];
        if i > 0 {
            assert(str_less(b[0], b[i]));
            if j > 0 {
                assert(str_less(a[0], a[j]));
                lemma_lex_asymmetric(encode_utf8(b[0]), encode_utf8(a[0]));
            } else {
                lemma_lex_irreflexive(encode_utf8(b[0]));
            }
        }
        assert(b[0] == a[0]);
        let ra = a.drop_first();
        let rb = b.drop_first();
        assert forall|x: Seq<char>| ra.contains(x) <==> rb.contains(x) by {
            if ra.contains(x) {
                let k = choose|k: int| 0 <= k < ra.len() && ra[k] == x;
                assert(a[k + 1] == x);
                assert(a.contains(x));
                let m = choose|m: int| 0 <= m < b.len() && b[m] == x;
                if m == 0 {
                    assert(str_less(a[0], a[k + 1]));
                    lemma_lex_irreflexive(encode_utf8(x));
                }
                assert(rb[m - 1] == x);
            }
            if rb.contains(x) {
                let k = choose|k: int| 0 <= k < rb.len() && rb[k] == x;
                assert(b[k + 1] == x);
                assert(b.contains(x));
                let m = choose|m: int| 0 <= m < a.len() && a[m] == x;
                if m == 0 {
                    assert(str_less(b[0], b[k + 1]));
                    lemma_lex_irreflexive(encode_utf8(x));
                }
                assert(ra[m - 1] == x);
            }
        }
        assert forall|p: int, q: int| 0 <= p < q < ra.len() implies str_less(
            #[trigger] ra[p],
            #[trigger] ra[q],
        ) by {
            assert(ra[p] == a[p + 1] && ra[q] == a[q + 1]);
        }
        assert forall|p: int, q: int| 0 <= p < q < rb.len() implies str_less(
            #[trigger] rb[p],
            #[trigger] rb[q],
        ) by {
            assert(rb[p] == b[p + 1] && rb[q] == b[q + 1]);
        }
        law_canonical_order_unique(ra, rb);
        assert(a =~= seq![a[0]] + ra);
        assert(b =~= seq![b[0]] + rb);
    }
}

} // verus!
