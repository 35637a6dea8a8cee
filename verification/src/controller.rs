//! Order-book mechanics: sorted insertion, removal by identity, best-offer
//! queries, and the laws that every sequence of book operations obeys.
//!
//! Each collection keeps two books. The lending book is ascending by value
//! and the borrowing book descending, so for both sides the tail element is
//! the best resting offer. Ties are stable: a new offer of an already
//! present value is placed before the existing equals, which therefore stay
//! nearer the tail and keep their priority.

use vstd::prelude::*;

use crate::{Error, LendingNftCollateral, Offer, OfferView};

verus! {

/// Ascending by value: the tail is the highest, best, bid.
pub open spec fn lending_sorted(s: Seq<OfferView>) -> bool {
    forall|i: int, j: int| 0 <= i <= j < s.len() ==> s[i].value <= s[j].value
}

/// Descending by value: the tail is the lowest, best, ask.
pub open spec fn borrowing_sorted(s: Seq<OfferView>) -> bool {
    forall|i: int, j: int| 0 <= i <= j < s.len() ==> s[i].value >= s[j].value
}

/// A well-formed lending book: sorted for its side, and no offer carries a
/// collateral token.
pub open spec fn lending_book_wf(s: Seq<OfferView>) -> bool {
    lending_sorted(s) && forall|i: int| 0 <= i < s.len() ==> (#[trigger] s[i].token_id) is None
}

/// A well-formed borrowing book: sorted for its side, and every offer
/// carries its collateral token.
pub open spec fn borrowing_book_wf(s: Seq<OfferView>) -> bool {
    borrowing_sorted(s) && forall|i: int| 0 <= i < s.len() ==> (#[trigger] s[i].token_id) is Some
}

/// Where a lending offer of value `v` goes: before the first resting offer
/// of value at least `v`, so after every strictly cheaper one and before
/// the existing equals.
pub open spec fn lending_insert_pos(s: Seq<OfferView>, v: u128) -> int
    decreases s.len(),
{
    if s.len() == 0 {
        0
    } else if s[0].value >= v {
        0
    } else {
        1 + lending_insert_pos(s.drop_first(), v)
    }
}

/// Where a borrowing offer of value `v` goes: before the first resting
/// offer of value at most `v`.
pub open spec fn borrowing_insert_pos(s: Seq<OfferView>, v: u128) -> int
    decreases s.len(),
{
    if s.len() == 0 {
        0
    } else if s[0].value <= v {
        0
    } else {
        1 + borrowing_insert_pos(s.drop_first(), v)
    }
}

/// The lending book after queueing `o`.
pub open spec fn insert_lending(s: Seq<OfferView>, o: OfferView) -> Seq<OfferView> {
    s.insert(lending_insert_pos(s, o.value), o)
}

/// The borrowing book after queueing `o`.
pub open spec fn insert_borrowing(s: Seq<OfferView>, o: OfferView) -> Seq<OfferView> {
    s.insert(borrowing_insert_pos(s, o.value), o)
}

/// The position of the offer named `id`, scanning from the tail; `-1` if no
/// offer carries that identifier.
pub open spec fn find_offer_from_tail(s: Seq<OfferView>, id: Seq<char>) -> int
    decreases s.len(),
{
    if s.len() == 0 {
        -1
    } else if s.last().offer_id == id {
        s.len() - 1
    } else {
        find_offer_from_tail(s.drop_last(), id)
    }
}

/// The book without the offer named `id`; the book itself if none carries
/// that identifier.
pub open spec fn remove_offer(s: Seq<OfferView>, id: Seq<char>) -> Seq<OfferView> {
    let i = find_offer_from_tail(s, id);
    if i >= 0 {
        s.remove(i)
    } else {
        s
    }
}

/// What characterizes [`lending_insert_pos`]: everything before it is
/// strictly cheaper than `v`, and the element at it, if any, is not.
pub proof fn lemma_lending_insert_pos(s: Seq<OfferView>, v: u128)
    ensures
        0 <= lending_insert_pos(s, v) <= s.len(),
        forall|k: int| 0 <= k < lending_insert_pos(s, v) ==> (#[trigger] s[k]).value < v,
        lending_insert_pos(s, v) < s.len() ==> s[lending_insert_pos(s, v)].value >= v,
    decreases s.len(),
{
    if s.len() == 0 || s[0].value >= v {
    } else {
        lemma_lending_insert_pos(s.drop_first(), v);
        let p = lending_insert_pos(s, v);
        assert forall|k: int| 0 <= k < p implies (#[trigger] s[k]).value < v by {
            if k > 0 {
                assert(s.drop_first()[k - 1] == s[k]);
            }
        }
        if p < s.len() {
            assert(s.drop_first()[p - 1] == s[p]);
        }
    }
}

/// What characterizes [`borrowing_insert_pos`]: everything before it is
/// strictly dearer than `v`, and the element at it, if any, is not.
pub proof fn lemma_borrowing_insert_pos(s: Seq<OfferView>, v: u128)
    ensures
        0 <= borrowing_insert_pos(s, v) <= s.len(),
        forall|k: int| 0 <= k < borrowing_insert_pos(s, v) ==> (#[trigger] s[k]).value > v,
        borrowing_insert_pos(s, v) < s.len() ==> s[borrowing_insert_pos(s, v)].value <= v,
    decreases s.len(),
{
    if s.len() == 0 || s[0].value <= v {
    } else {
        lemma_borrowing_insert_pos(s.drop_first(), v);
        let p = borrowing_insert_pos(s, v);
        assert forall|k: int| 0 <= k < p implies (#[trigger] s[k]).value > v by {
            if k > 0 {
                assert(s.drop_first()[k - 1] == s[k]);
            }
        }
        if p < s.len() {
            assert(s.drop_first()[p - 1] == s[p]);
        }
    }
}

/// Queueing keeps a lending book well formed, provided the new offer
/// carries no collateral token.
pub proof fn lemma_insert_lending_book_wf(s: Seq<OfferView>, o: OfferView)
    requires
        lending_book_wf(s),
        o.token_id is None,
    ensures
        lending_book_wf(insert_lending(s, o)),
        insert_lending(s, o).len() == s.len() + 1,
{
    lemma_lending_insert_pos(s, o.value);
    let p = lending_insert_pos(s, o.value);
    s.insert_ensures(p, o);
    let t = insert_lending(s, o);
    assert forall|i: int, j: int| 0 <= i <= j < t.len() implies t[i].value <= t[j].value by {
        if i < p && j > p {
            assert(t[i] == s[i] && t[j] == s[j - 1]);
        } else if i == p && j > p {
            assert(t[j] == s[j - 1] && s[p].value <= s[j - 1].value);
        } else if i > p {
            assert(t[i] == s[i - 1] && t[j] == s[j - 1]);
        }
    }
    assert forall|i: int| 0 <= i < t.len() implies (#[trigger] t[i].token_id) is None by {
        if i < p {
            assert(t[i] == s[i]);
        } else if i > p {
            assert(t[i] == s[i - 1]);
        }
    }
}

/// Queueing keeps a borrowing book well formed, provided the new offer
/// carries its collateral token.
pub proof fn lemma_insert_borrowing_book_wf(s: Seq<OfferView>, o: OfferView)
    requires
        borrowing_book_wf(s),
        o.token_id is Some,
    ensures
        borrowing_book_wf(insert_borrowing(s, o)),
        insert_borrowing(s, o).len() == s.len() + 1,
{
    lemma_borrowing_insert_pos(s, o.value);
    let p = borrowing_insert_pos(s, o.value);
    s.insert_ensures(p, o);
    let t = insert_borrowing(s, o);
    assert forall|i: int, j: int| 0 <= i <= j < t.len() implies t[i].value >= t[j].value by {
        if i < p && j > p {
            assert(t[i] == s[i] && t[j] == s[j - 1]);
        } else if i == p && j > p {
            assert(t[j] == s[j - 1] && s[p].value >= s[j - 1].value);
        } else if i > p {
            assert(t[i] == s[i - 1] && t[j] == s[j - 1]);
        }
    }
    assert forall|i: int| 0 <= i < t.len() implies (#[trigger] t[i].token_id) is Some by {
        if i < p {
            assert(t[i] == s[i]);
        } else if i > p {
            assert(t[i] == s[i - 1]);
        }
    }
}

/// What characterizes [`find_offer_from_tail`]: it points at an offer named
/// `id` with none after it, or reports that no offer is so named.
pub proof fn lemma_find_offer_from_tail(s: Seq<OfferView>, id: Seq<char>)
    ensures
        -1 <= find_offer_from_tail(s, id) < s.len(),
        find_offer_from_tail(s, id) >= 0 ==> s[find_offer_from_tail(s, id)].offer_id == id,
        find_offer_from_tail(s, id) >= 0 ==> forall|k: int|
            find_offer_from_tail(s, id) < k < s.len() ==> (#[trigger] s[k]).offer_id != id,
        find_offer_from_tail(s, id) == -1 ==> forall|k: int|
            0 <= k < s.len() ==> (#[trigger] s[k]).offer_id != id,
    decreases s.len(),
{
    if s.len() > 0 && s.last().offer_id != id {
        lemma_find_offer_from_tail(s.drop_last(), id);
        let i = find_offer_from_tail(s, id);
        if i >= 0 {
            assert(s.drop_last()[i] == s[i]);
            assert forall|k: int| i < k < s.len() implies (#[trigger] s[k]).offer_id != id by {
                if k < s.len() - 1 {
                    assert(s.drop_last()[k] == s[k]);
                }
            }
        } else {
            assert forall|k: int| 0 <= k < s.len() implies (#[trigger] s[k]).offer_id != id by {
                if k < s.len() - 1 {
                    assert(s.drop_last()[k] == s[k]);
                }
            }
        }
    }
}

/// Dropping any one element keeps a lending book well formed.
pub proof fn lemma_remove_index_lending_book_wf(s: Seq<OfferView>, i: int)
    requires
        lending_book_wf(s),
        0 <= i < s.len(),
    ensures
        lending_book_wf(s.remove(i)),
{
    s.remove_ensures(i);
    let t = s.remove(i);
    assert forall|p: int, q: int| 0 <= p <= q < t.len() implies t[p].value <= t[q].value by {
        if p < i && q >= i {
            assert(t[p] == s[p] && t[q] == s[q + 1]);
        } else if p >= i {
            assert(t[p] == s[p + 1] && t[q] == s[q + 1]);
        }
    }
    assert forall|k: int| 0 <= k < t.len() implies (#[trigger] t[k].token_id) is None by {
        if k < i {
            assert(t[k] == s[k]);
        } else {
            assert(t[k] == s[k + 1]);
        }
    }
}

/// Dropping any one element keeps a borrowing book well formed.
pub proof fn lemma_remove_index_borrowing_book_wf(s: Seq<OfferView>, i: int)
    requires
        borrowing_book_wf(s),
        0 <= i < s.len(),
    ensures
        borrowing_book_wf(s.remove(i)),
{
    s.remove_ensures(i);
    let t = s.remove(i);
    assert forall|p: int, q: int| 0 <= p <= q < t.len() implies t[p].value >= t[q].value by {
        if p < i && q >= i {
            assert(t[p] == s[p] && t[q] == s[q + 1]);
        } else if p >= i {
            assert(t[p] == s[p + 1] && t[q] == s[q + 1]);
        }
    }
    assert forall|k: int| 0 <= k < t.len() implies (#[trigger] t[k].token_id) is Some by {
        if k < i {
            assert(t[k] == s[k]);
        } else {
            assert(t[k] == s[k + 1]);
        }
    }
}

/// Cancellation preserves order: removing the offer named `id` leaves the
/// remaining offers exactly as they stood, the prefix before it followed by
/// the suffix after it.
pub proof fn lemma_remove_preserves_order(s: Seq<OfferView>, id: Seq<char>)
    requires
        find_offer_from_tail(s, id) >= 0,
    ensures
        remove_offer(s, id) == s.subrange(0, find_offer_from_tail(s, id)) + s.subrange(
            find_offer_from_tail(s, id) + 1,
            s.len() as int,
        ),
{
    lemma_find_offer_from_tail(s, id);
}

/// One operation on one book: queueing an offer or removing one by
/// identifier.
pub enum BookOp {
    Insert { offer: OfferView },
    Remove { offer_id: Seq<char> },
}

/// A lending book after one operation.
pub open spec fn apply_lending_op(s: Seq<OfferView>, op: BookOp) -> Seq<OfferView> {
    match op {
        BookOp::Insert { offer } => insert_lending(s, offer),
        BookOp::Remove { offer_id } => remove_offer(s, offer_id),
    }
}

/// A borrowing book after one operation.
pub open spec fn apply_borrowing_op(s: Seq<OfferView>, op: BookOp) -> Seq<OfferView> {
    match op {
        BookOp::Insert { offer } => insert_borrowing(s, offer),
        BookOp::Remove { offer_id } => remove_offer(s, offer_id),
    }
}

/// A lending book after a whole sequence of operations, applied in order.
pub open spec fn apply_lending_ops(s: Seq<OfferView>, ops: Seq<BookOp>) -> Seq<OfferView>
    decreases ops.len(),
{
    if ops.len() == 0 {
        s
    } else {
        apply_lending_op(apply_lending_ops(s, ops.drop_last()), ops.last())
    }
}

/// A borrowing book after a whole sequence of operations, applied in order.
pub open spec fn apply_borrowing_ops(s: Seq<OfferView>, ops: Seq<BookOp>) -> Seq<OfferView>
    decreases ops.len(),
{
    if ops.len() == 0 {
        s
    } else {
        apply_borrowing_op(apply_borrowing_ops(s, ops.drop_last()), ops.last())
    }
}

/// The sort invariant: starting from a sorted lending book, every sequence
/// of insertions and removals leaves the book sorted ascending by value —
/// and since every prefix of `ops` is itself such a sequence, the book is
/// sorted at every observation point along the way.
pub proof fn lemma_lending_sort_invariant(s: Seq<OfferView>, ops: Seq<BookOp>)
    requires
        lending_sorted(s),
    ensures
        lending_sorted(apply_lending_ops(s, ops)),
    decreases ops.len(),
{
    if ops.len() > 0 {
        lemma_lending_sort_invariant(s, ops.drop_last());
        let t = apply_lending_ops(s, ops.drop_last());
        match ops.last() {
            BookOp::Insert { offer } => {
                lemma_lending_insert_pos(t, offer.value);
                let p = lending_insert_pos(t, offer.value);
                t.insert_ensures(p, offer);
                let u = insert_lending(t, offer);
                assert forall|i: int, j: int|
                    0 <= i <= j < u.len() implies u[i].value <= u[j].value by {
                    if i < p && j > p {
                        assert(u[i] == t[i] && u[j] == t[j - 1]);
                    } else if i == p && j > p {
                        assert(u[j] == t[j - 1] && t[p].value <= t[j - 1].value);
                    } else if i > p {
                        assert(u[i] == t[i - 1] && u[j] == t[j - 1]);
                    }
                }
            },
            BookOp::Remove { offer_id } => {
                lemma_find_offer_from_tail(t, offer_id);
                let i = find_offer_from_tail(t, offer_id);
                if i >= 0 {
                    t.remove_ensures(i);
                    let u = t.remove(i);
                    assert forall|p: int, q: int|
                        0 <= p <= q < u.len() implies u[p].value <= u[q].value by {
                        if p < i && q >= i {
                            assert(u[p] == t[p] && u[q] == t[q + 1]);
                        } else if p >= i {
                            assert(u[p] == t[p + 1] && u[q] == t[q + 1]);
                        }
                    }
                }
            },
        }
    }
}

/// The sort invariant for the borrowing side: every sequence of insertions
/// and removals leaves the book sorted descending by value.
pub proof fn lemma_borrowing_sort_invariant(s: Seq<OfferView>, ops: Seq<BookOp>)
    requires
        borrowing_sorted(s),
    ensures
        borrowing_sorted(apply_borrowing_ops(s, ops)),
    decreases ops.len(),
{
    if ops.len() > 0 {
        lemma_borrowing_sort_invariant(s, ops.drop_last());
        let t = apply_borrowing_ops(s, ops.drop_last());
        match ops.last() {
            BookOp::Insert { offer } => {
                lemma_borrowing_insert_pos(t, offer.value);
                let p = borrowing_insert_pos(t, offer.value);
                t.insert_ensures(p, offer);
                let u = insert_borrowing(t, offer);
                assert forall|i: int, j: int|
                    0 <= i <= j < u.len() implies u[i].value >= u[j].value by {
                    if i < p && j > p {
                        assert(u[i] == t[i] && u[j] == t[j - 1]);
                    } else if i == p && j > p {
                        assert(u[j] == t[j - 1] && t[p].value >= t[j - 1].value);
                    } else if i > p {
                        assert(u[i] == t[i - 1] && u[j] == t[j - 1]);
                    }
                }
            },
            BookOp::Remove { offer_id } => {
                lemma_find_offer_from_tail(t, offer_id);
                let i = find_offer_from_tail(t, offer_id);
                if i >= 0 {
                    t.remove_ensures(i);
                    let u = t.remove(i);
                    assert forall|p: int, q: int|
                        0 <= p <= q < u.len() implies u[p].value >= u[q].value by {
                        if p < i && q >= i {
                            assert(u[p] == t[p] && u[q] == t[q + 1]);
                        } else if p >= i {
                            assert(u[p] == t[p + 1] && u[q] == t[q + 1]);
                        }
                    }
                }
            },
        }
    }
}

/// The position of the offer named `offer_id`, scanning from the tail.
pub fn find_offer_index_from_tail(v: &Vec<Offer>, offer_id: &String) -> (r: Option<usize>)
    ensures
        match r {
            Some(i) => i < v@.len() && i as int == find_offer_from_tail(v.deep_view(), offer_id@),
            None => find_offer_from_tail(v.deep_view(), offer_id@) == -1,
        },
{
    let ghost dv = v.deep_view();
    let ghost id = offer_id@;
    let mut i: usize = v.len();
    while i > 0
        invariant
            dv == v.deep_view(),
            i <= dv.len(),
            dv.len() == v@.len(),
            id == offer_id@,
            forall|k: int| i <= k < dv.len() ==> (#[trigger] dv[k]).offer_id != id,
        decreases i,
    {
        let j: usize = i - 1;
        if v[j].offer_id == *offer_id {
            proof {
                lemma_find_offer_from_tail(dv, id);
                let f = find_offer_from_tail(dv, id);
                assert(dv[j as int] == v@[j as int].deep_view());
                assert(dv[j as int].offer_id == id);
                assert(f >= 0);
                if f < j as int {
                    assert(dv[j as int].offer_id != id);
                }
                if f > j as int {
                    assert(dv[f].offer_id != id);
                }
            }
            return Some(j);
        }
        i = j;
    }
    proof {
        lemma_find_offer_from_tail(dv, id);
        if find_offer_from_tail(dv, id) >= 0 {
            assert(dv[find_offer_from_tail(dv, id)].offer_id != id);
        }
    }
    None
}

/// Copies a vector of offers.
pub fn clone_offers(v: &Vec<Offer>) -> (r: Vec<Offer>)
    ensures
        r.deep_view() == v.deep_view(),
{
    let mut r: Vec<Offer> = Vec::new();
    let n: usize = v.len();
    let mut i: usize = 0;
    while i < n
        invariant
            n == v@.len(),
            i <= n,
            r.deep_view() =~= v.deep_view().subrange(0, i as int),
        decreases n - i,
    {
        let ghost rdv = r.deep_view();
        let o = v[i].clone();
        let ghost ov = o@;
        r.push(o);
        proof {
            assert(v.deep_view()[i as int] == v@[i as int].deep_view());
            assert(r.deep_view() =~= rdv.push(ov));
            assert(rdv.push(ov) =~= v.deep_view().subrange(0, i + 1));
        }
        i = i + 1;
    }
    proof {
        assert(v.deep_view().subrange(0, n as int) =~= v.deep_view());
    }
    r
}

impl LendingNftCollateral {
    /// Whether a lending offer of `lending_offer_value` would cross the
    /// borrowing book of `nft_collection_id` right now.
    pub fn evaluate_lending_offer_possible_match(
        &self,
        nft_collection_id: &String,
        lending_offer_value: u128,
    ) -> (b: bool)
        requires
            self.wf(),
        ensures
            b == self.lending_offer_matches(nft_collection_id@, lending_offer_value),
    {
        match self.borrowing_offers_vecs.get(nft_collection_id) {
            Some(v) => {
                if v.len() == 0 {
                    false
                } else {
                    lending_offer_value >= v[v.len() - 1].value
                }
            },
            None => false,
        }
    }

    /// Whether a borrowing offer of `borrowing_offer_value` would cross the
    /// lending book of `nft_collection_id` right now.
    pub fn evaluate_borrowing_offer_possible_match(
        &self,
        nft_collection_id: &String,
        borrowing_offer_value: u128,
    ) -> (b: bool)
        requires
            self.wf(),
        ensures
            b == self.borrowing_offer_matches(nft_collection_id@, borrowing_offer_value),
    {
        match self.lending_offers_vecs.get(nft_collection_id) {
            Some(v) => {
                if v.len() == 0 {
                    false
                } else {
                    borrowing_offer_value <= v[v.len() - 1].value
                }
            },
            None => false,
        }
    }

    /// The lending book of `nft_collection_id` as a vector, empty if none
    /// was created yet.
    pub fn get_lending_offers_vec_from_nft_collection(
        &self,
        nft_collection_id: String,
    ) -> (r: Vec<Offer>)
        requires
            self.wf(),
        ensures
            r.deep_view() == self.lending_book(nft_collection_id@),
    {
        match self.lending_offers_vecs.get(&nft_collection_id) {
            Some(v) => clone_offers(v),
            None => Vec::new(),
        }
    }

    /// The borrowing book of `nft_collection_id` as a vector, empty if none
    /// was created yet.
    pub fn get_borrowing_offers_vec_from_nft_collection(
        &self,
        nft_collection_id: String,
    ) -> (r: Vec<Offer>)
        requires
            self.wf(),
        ensures
            r.deep_view() == self.borrowing_book(nft_collection_id@),
    {
        match self.borrowing_offers_vecs.get(&nft_collection_id) {
            Some(v) => clone_offers(v),
            None => Vec::new(),
        }
    }

    /// Queues `new_offer` into a lending book, keeping the ascending order
    /// and placing it before any resting offer of equal value.
    pub fn sort_order_lending_offer_vec(
        &self,
        lending_offers_vec: Vec<Offer>,
        new_offer: Offer,
    ) -> (r: Vec<Offer>)
        ensures
            r.deep_view() == insert_lending(lending_offers_vec.deep_view(), new_offer@),
    {
        let ghost dv = lending_offers_vec.deep_view();
        let ghost o = new_offer@;
        let mut v = lending_offers_vec;
        let mut i: usize = 0;
        while i < v.len() && v[i].value < new_offer.value
            invariant
                v.deep_view() == dv,
                o == new_offer@,
                i <= dv.len(),
                forall|k: int| 0 <= k < i ==> (#[trigger] dv[k]).value < o.value,
            decreases dv.len() - i,
        {
            i = i + 1;
        }
        proof {
            lemma_lending_insert_pos(dv, o.value);
            let p = lending_insert_pos(dv, o.value);
            if (i as int) < p {
                assert(dv[i as int].value < o.value);
            }
            if p < (i as int) {
                assert(dv[p].value < o.value);
            }
            assert(i as int == p);
        }
        let ghost before = v@;
        v.insert(i, new_offer);
        proof {
            before.insert_ensures(i as int, new_offer);
            dv.insert_ensures(i as int, o);
            assert(v.deep_view() =~= dv.insert(i as int, o));
        }
        v
    }

    /// Queues `new_offer` into a borrowing book, keeping the descending
    /// order and placing it before any resting offer of equal value.
    pub fn sort_order_borrowing_offer_vec(
        &self,
        borrowing_offers_vec: Vec<Offer>,
        new_offer: Offer,
    ) -> (r: Vec<Offer>)
        ensures
            r.deep_view() == insert_borrowing(borrowing_offers_vec.deep_view(), new_offer@),
    {
        let ghost dv = borrowing_offers_vec.deep_view();
        let ghost o = new_offer@;
        let mut v = borrowing_offers_vec;
        let mut i: usize = 0;
        while i < v.len() && v[i].value > new_offer.value
            invariant
                v.deep_view() == dv,
                o == new_offer@,
                i <= dv.len(),
                forall|k: int| 0 <= k < i ==> (#[trigger] dv[k]).value > o.value,
            decreases dv.len() - i,
        {
            i = i + 1;
        }
        proof {
            lemma_borrowing_insert_pos(dv, o.value);
            let p = borrowing_insert_pos(dv, o.value);
            if (i as int) < p {
                assert(dv[i as int].value > o.value);
            }
            if p < (i as int) {
                assert(dv[p].value > o.value);
            }
            assert(i as int == p);
        }
        let ghost before = v@;
        v.insert(i, new_offer);
        proof {
            before.insert_ensures(i as int, new_offer);
            dv.insert_ensures(i as int, o);
            assert(v.deep_view() =~= dv.insert(i as int, o));
        }
        v
    }

    /// Removes the offer with `offer_to_remove`'s identifier from a book,
    /// scanning from the tail and leaving the remaining offers in their
    /// original relative order. Fails, changing nothing, if no offer
    /// carries that identifier.
    pub fn reorder_vec_without_specific_offer(
        &self,
        offers_vec: &mut Vec<Offer>,
        offer_to_remove: Offer,
    ) -> (r: Result<(), Error>)
        ensures
            final(offers_vec).deep_view() == remove_offer(
                old(offers_vec).deep_view(),
                offer_to_remove@.offer_id,
            ),
            r is Ok <==> find_offer_from_tail(old(offers_vec).deep_view(), offer_to_remove@.offer_id)
                >= 0,
            r is Err ==> r == Err::<(), Error>(Error::OfferNotFound) && *final(offers_vec) == *old(
                offers_vec,
            ),
    {
        let ghost v0 = *offers_vec;
        let ghost dv = offers_vec.deep_view();
        let ghost id = offer_to_remove@.offer_id;
        proof {
            lemma_find_offer_from_tail(dv, id);
        }
        let mut i: usize = offers_vec.len();
        while i > 0
            invariant
                v0 == *old(offers_vec),
                dv == old(offers_vec).deep_view(),
                *offers_vec == v0,
                offers_vec.deep_view() == dv,
                offers_vec@.len() == dv.len(),
                i <= dv.len(),
                id == offer_to_remove@.offer_id,
                forall|k: int| i <= k < dv.len() ==> (#[trigger] dv[k]).offer_id != id,
            decreases i,
        {
            let j: usize = i - 1;
            if offers_vec[j].offer_id == offer_to_remove.offer_id {
                proof {
                    lemma_find_offer_from_tail(dv, id);
                    let f = find_offer_from_tail(dv, id);
                    assert(dv[j as int] == offers_vec@[j as int].deep_view());
                    assert(dv[j as int].offer_id == id);
                    assert(f >= 0);
                    if f < j as int {
                        assert(dv[j as int].offer_id != id);
                    }
                    if f > j as int {
                        assert(dv[f].offer_id != id);
                    }
                    assert(f == j as int);
                }
                let ghost before = offers_vec@;
                offers_vec.remove(j);
                proof {
                    before.remove_ensures(j as int);
                    dv.remove_ensures(j as int);
                    assert(offers_vec.deep_view() =~= dv.remove(j as int));
                }
                return Ok(());
            }
            i = j;
        }
        proof {
            lemma_find_offer_from_tail(dv, id);
            if find_offer_from_tail(dv, id) >= 0 {
                assert(dv[find_offer_from_tail(dv, id)].offer_id != id);
            }
        }
        Err(Error::OfferNotFound)
    }

    /// Settles the storage-rent delta of one operation against `caller`'s
    /// escrow balance: a debit of `storage_byte_cost` per byte grown, or a
    /// credit per byte shrunk. A debit the balance cannot cover fails with
    /// `InsufficientBalance` and changes nothing — the caller must then
    /// also discard the operation that grew the storage.
    pub fn set_storage(
        &mut self,
        caller: &String,
        initial_storage: u128,
        final_storage: u128,
        storage_byte_cost: u128,
    ) -> (r: Result<(), Error>)
        requires
            old(self).wf(),
            final_storage > initial_storage ==> (final_storage - initial_storage)
                * storage_byte_cost <= u128::MAX,
            final_storage <= initial_storage ==> old(self).balance_of(caller@) + (initial_storage
                - final_storage) * storage_byte_cost <= u128::MAX,
        ensures
            final(self).wf(),
            final_storage > initial_storage ==> {
                &&& r is Ok <==> (final_storage - initial_storage) * storage_byte_cost <= old(
                    self,
                ).balance_of(caller@)
                &&& r is Ok ==> final(self).balance_of(caller@) == old(self).balance_of(caller@)
                    - (final_storage - initial_storage) * storage_byte_cost
                &&& r is Err ==> r == Err::<(), Error>(Error::InsufficientBalance) && *final(self)
                    == *old(self)
            },
            final_storage <= initial_storage ==> r is Ok && final(self).balance_of(caller@) == old(
                self,
            ).balance_of(caller@) + (initial_storage - final_storage) * storage_byte_cost,
            forall|a: Seq<char>|
                a != caller@ ==> final(self).balance_of(a) == old(self).balance_of(a),
            Self::same_config(*old(self), *final(self)),
            Self::same_books(*old(self), *final(self)),
            final(self).loans@ == old(self).loans@,
            final(self).nft_collections@ == old(self).nft_collections@,
            final(self).token_id_counter == old(self).token_id_counter,
    {
        if final_storage > initial_storage {
            self.reduce_balance(caller, (final_storage - initial_storage) * storage_byte_cost)
        } else {
            self.increase_balance(caller, (initial_storage - final_storage) * storage_byte_cost);
            Ok(())
        }
    }
}

} // verus!
