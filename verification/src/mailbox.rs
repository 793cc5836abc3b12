//! Which messages of an IMAP mailbox are fetched, and in what order.
use vstd::prelude::*;
use vstd::relations::{sorted_by, total_ordering};
use crate::text::{concat, decimal, u64_to_decimal};

verus! {

broadcast use vstd::string::group_string_axioms, vstd::seq_lib::group_to_multiset_ensures;

/// The ascending order on message UIDs.
pub open spec fn uid_leq() -> spec_fn(u32, u32) -> bool {
    |a: u32, b: u32| a <= b
}

/// The UIDs in ascending order.
pub open spec fn sorted_uids(uids: Seq<u32>) -> Seq<u32> {
    uids.sort_by(uid_leq())
}

/// The UIDs to fetch: all found ones in ascending order, cut to the first
/// `limit` when `limit` is not zero.
pub open spec fn selected_uids(uids: Seq<u32>, limit: u32) -> Seq<u32> {
    let s = sorted_uids(uids);
    if limit > 0 && limit < s.len() {
        s.take(limit as int)
    } else {
        s
    }
}

/// The IMAP search criterion: the UIDs above `since`, or every message.
pub open spec fn uid_search_criterion(since: Option<u32>) -> Seq<char> {
    match since {
        Some(uid) => "UID "@ + decimal((uid + 1) as nat) + ":*"@,
        None => "ALL"@,
    }
}

/// The UID order is a total order.
pub proof fn lemma_uid_leq_total()
    ensures
        total_ordering(uid_leq()),
{
}

/// The IMAP search criterion for the messages after `since`.
pub fn uid_search_query(since: Option<u32>) -> (r: String)
    requires
        since != Some(u32::MAX),
    ensures
        r@ == uid_search_criterion(since),
{
    match since {
        Some(uid) => {
            let next: u32 = uid + 1;
            let digits = u64_to_decimal(next as u64);
            let head = concat("UID ", digits.as_str());
            concat(head.as_str(), ":*")
        },
        None => String::from_str("ALL"),
    }
}

/// The position at which `x` keeps `v` sorted: after every element not above it.
fn insertion_point(v: &Vec<u32>, x: u32) -> (p: usize)
    requires
        sorted_by(v@, uid_leq()),
    ensures
        p <= v.len(),
        forall|i: int| 0 <= i < p ==> v@[i] <= x,
        forall|i: int| p <= i < v.len() ==> x < v@[i],
{
    let mut p: usize = 0;
    while p < v.len() && v[p] <= x
        invariant
            p <= v.len(),
            sorted_by(v@, uid_leq()),
            forall|i: int| 0 <= i < p ==> v@[i] <= x,
        decreases v.len() - p,
    {
        p = p + 1;
    }
    if p < v.len() {
        assert forall|i: int| p <= i < v.len() implies x < v@[i] by {
            if i > p {
                assert(uid_leq()(v@[p as int], v@[i]));
            }
        }
    }
    p
}

/// The UIDs in ascending order.
pub fn sort_uids(uids: &Vec<u32>) -> (r: Vec<u32>)
    ensures
        r@ == sorted_uids(uids@),
{
    let mut sorted: Vec<u32> = Vec::new();
    let mut i: usize = 0;
    while i < uids.len()
        invariant
            i <= uids.len(),
            sorted_by(sorted@, uid_leq()),
            sorted@.to_multiset() == uids@.take(i as int).to_multiset(),
        decreases uids.len() - i,
    {
        let x = uids[i];
        let p = insertion_point(&sorted, x);
        let ghost before = sorted@;
        sorted.insert(p, x);
        assert(sorted@ == before.insert(p as int, x));
        assert forall|a: int, b: int| 0 <= a < b < sorted@.len() implies #[trigger] uid_leq()(
            sorted@[a],
            sorted@[b],
        ) by {
            if b < p {
                assert(uid_leq()(before[a], before[b]));
            } else if b == p {
                assert(before[a] <= x);
            } else if a < p {
                assert(before[a] <= x && x < before[b - 1]);
            } else if a == p {
                assert(x < before[b - 1]);
            } else {
                assert(uid_leq()(before[a - 1], before[b - 1]));
            }
        }
        assert(uids@.take(i + 1) =~= uids@.take(i as int).push(x));
        i = i + 1;
    }
    assert(uids@.take(uids.len() as int) =~= uids@);
    proof {
        lemma_uid_leq_total();
        uids@.lemma_sort_by_ensures(uid_leq());
        vstd::seq_lib::lemma_sorted_unique(sorted@, sorted_uids(uids@), uid_leq());
    }
    sorted
}

/// The UIDs to fetch: ascending, cut to the first `limit` when `limit` is not zero.
pub fn select_uids(uids: &Vec<u32>, limit: u32) -> (r: Vec<u32>)
    ensures
        r@ == selected_uids(uids@, limit),
{
    let mut sorted = sort_uids(uids);
    if limit > 0 && (limit as usize) < sorted.len() {
        sorted.truncate(limit as usize);
    }
    sorted
}

/// Every selected UID is one of the UIDs found, the selection is in
/// ascending order, and no more than `limit` of them are taken when
/// `limit` is not zero.
pub proof fn lemma_selection_sound(uids: Seq<u32>, limit: u32)
    ensures
        sorted_by(selected_uids(uids, limit), uid_leq()),
        forall|k: int|
            0 <= k < selected_uids(uids, limit).len() ==> uids.contains(
                #[trigger] selected_uids(uids, limit)[k],
            ),
        limit > 0 ==> selected_uids(uids, limit).len() <= limit,
        limit == 0 ==> selected_uids(uids, limit).len() == uids.len(),
        limit >= uids.len() ==> selected_uids(uids, limit).len() == uids.len(),
{
    lemma_uid_leq_total();
    uids.lemma_sort_by_ensures(uid_leq());
    let s = sorted_uids(uids);
    assert(s.to_multiset().len() == uids.to_multiset().len());
    assert forall|k: int| 0 <= k < selected_uids(uids, limit).len() implies uids.contains(
        #[trigger] selected_uids(uids, limit)[k],
    ) by {
        let x = selected_uids(uids, limit)[k];
        assert(s[k] == x);
        assert(s.contains(x));
    }
}

/// The selection is the lowest UIDs: it is a prefix of the UIDs in
/// ascending order, of length `limit` when `limit` is not zero and fewer
/// UIDs exist, and every UID found below a selected one is selected too.
pub proof fn lemma_selection_takes_lowest(uids: Seq<u32>, limit: u32)
    ensures
        selected_uids(uids, limit).len() == if limit > 0 && limit < uids.len() {
            limit as nat
        } else {
            uids.len()
        },
        forall|k: int|
            0 <= k < selected_uids(uids, limit).len() ==> #[trigger] selected_uids(uids, limit)[k]
                == sorted_uids(uids)[k],
        forall|k: int, i: int|
            0 <= k < selected_uids(uids, limit).len() && 0 <= i < uids.len() && uids[i]
                < #[trigger] selected_uids(uids, limit)[k] ==> selected_uids(uids, limit).contains(
                #[trigger] uids[i],
            ),
{
    lemma_uid_leq_total();
    uids.lemma_sort_by_ensures(uid_leq());
    let s = sorted_uids(uids);
    let sel = selected_uids(uids, limit);
    assert(s.to_multiset().len() == uids.to_multiset().len());
    assert forall|k: int, i: int|
        0 <= k < sel.len() && 0 <= i < uids.len() && uids[i] < #[trigger] sel[k] implies sel.contains(
        #[trigger] uids[i],
    ) by {
        let x = uids[i];
        assert(uids.contains(x));
        assert(uids.to_multiset().count(x) > 0);
        assert(s.to_multiset().count(x) > 0);
        assert(s.contains(x));
        let p = choose|p: int| 0 <= p < s.len() && s[p] == x;
        assert(sel[k] == s[k]);
        if p >= k {
            if p > k {
                assert(uid_leq()(s[k], s[p]));
            }
            assert(false);
        }
        assert(sel[p] == x);
    }
}

} // verus!
