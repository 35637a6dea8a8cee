//! A peer-to-peer, NFT-collateralized lending marketplace engine.
//!
//! Lenders post offers to supply capital, borrowers post offers backed by a
//! specific non-fungible token as collateral, and the engine either matches
//! crossing offers immediately into a loan or queues the offer in a priced
//! order book for later matching. Loans then run through repayment or
//! expiration-triggered default, settled against an internal escrow ledger.
//!
//! Every state change is computed here on plain values. What only the
//! surrounding runtime can do — identify the caller, read the clock, move
//! attached funds, talk to the non-fungible-token contracts that hold the
//! collateral and the note/receipt claim tokens — enters as arguments and
//! leaves as [`ExternalAction`] values for the runtime to perform.

use vstd::prelude::*;

pub mod balance;
pub mod controller;
pub mod decimal;
pub mod loan;
pub mod lookup_map;
pub mod nft_collections;
pub mod nft_on_impl;

use crate::controller::{
    borrowing_book_wf, clone_offers, find_offer_from_tail, find_offer_index_from_tail,
    insert_borrowing, insert_lending, lemma_find_offer_from_tail, lemma_insert_borrowing_book_wf,
    lemma_insert_lending_book_wf, lemma_remove_index_borrowing_book_wf,
    lemma_remove_index_lending_book_wf, lending_book_wf, remove_offer,
};
use crate::decimal::{dec_str, u128_to_dec_string};
use crate::loan::loan_value_after;
use crate::lookup_map::LookupMap;

verus! {

/// Seconds in one year, the unit of the simple-interest formula.
pub const SECONDS_IN_A_YEAR: u128 = 31_536_000;

/// Why an operation was rejected. Every rejection leaves the contract state
/// exactly as it was.
#[derive(Clone, Copy, Debug, PartialEq, Eq, Structural)]
pub enum Error {
    /// The named collateral collection was never registered.
    UnknownCollection,
    /// The order book already holds its configured maximum of resting offers.
    BookFull,
    /// No resting offer or live loan carries the given identifier.
    OfferNotFound,
    /// The caller is not the party this operation belongs to.
    Unauthorized,
    /// The escrow balance is too small for the requested debit.
    InsufficientBalance,
    /// Default was claimed before the loan's expiration time passed.
    NotYetExpired,
    /// Repayment was attempted after the loan's expiration time passed.
    LoanExpired,
    /// An inbound token-transfer message did not decode to an instruction.
    MalformedInstruction,
}

/// A resting request to lend or borrow at a stated value.
///
/// `token_id` carries the collateral token and is present exactly on
/// borrowing offers.
pub struct Offer {
    pub offer_id: String,
    pub owner_id: String,
    pub value: u128,
    pub token_id: Option<String>,
}

/// The mathematical value of an [`Offer`]: the same record over character
/// sequences.
pub struct OfferView {
    pub offer_id: Seq<char>,
    pub owner_id: Seq<char>,
    pub value: u128,
    pub token_id: Option<Seq<char>>,
}

impl View for Offer {
    type V = OfferView;

    open spec fn view(&self) -> OfferView {
        OfferView {
            offer_id: self.offer_id@,
            owner_id: self.owner_id@,
            value: self.value,
            token_id: match self.token_id {
                Some(t) => Some(t@),
                None => None,
            },
        }
    }
}

impl DeepView for Offer {
    type V = OfferView;

    open spec fn deep_view(&self) -> OfferView {
        self.view()
    }
}

impl Clone for Offer {
    fn clone(&self) -> (res: Self)
        ensures
            res@ == self@,
    {
        Offer {
            offer_id: self.offer_id.clone(),
            owner_id: self.owner_id.clone(),
            value: self.value,
            token_id: match &self.token_id {
                Some(t) => Some(t.clone()),
                None => None,
            },
        }
    }
}

/// The accepted agreement between a matched lender and borrower.
///
/// `value_before` is the principal at origination; `value_after` is what
/// repayment costs at any time before `expiration_time`. The collateral
/// token `warranty_token_id` of collection `warranty_collection` is held in
/// custody while the loan is live.
pub struct Loan {
    pub value_before: u128,
    pub value_after: u128,
    pub expiration_time: u128,
    pub warranty_collection: String,
    pub warranty_token_id: String,
}

/// The mathematical value of a [`Loan`].
pub struct LoanView {
    pub value_before: u128,
    pub value_after: u128,
    pub expiration_time: u128,
    pub warranty_collection: Seq<char>,
    pub warranty_token_id: Seq<char>,
}

impl View for Loan {
    type V = LoanView;

    open spec fn view(&self) -> LoanView {
        LoanView {
            value_before: self.value_before,
            value_after: self.value_after,
            expiration_time: self.expiration_time,
            warranty_collection: self.warranty_collection@,
            warranty_token_id: self.warranty_token_id@,
        }
    }
}

impl DeepView for Loan {
    type V = LoanView;

    open spec fn deep_view(&self) -> LoanView {
        self.view()
    }
}

impl Clone for Loan {
    fn clone(&self) -> (res: Self)
        ensures
            res@ == self@,
    {
        Loan {
            value_before: self.value_before,
            value_after: self.value_after,
            expiration_time: self.expiration_time,
            warranty_collection: self.warranty_collection.clone(),
            warranty_token_id: self.warranty_token_id.clone(),
        }
    }
}

/// One effect on an external collaborator, for the runtime to perform after
/// the state change that produced it is committed.
pub enum ExternalAction {
    /// Mint a claim token (`token_id`, describing the loan) on the contract
    /// `contract_id`, owned by `receiver_id`.
    NftMint {
        contract_id: String,
        token_id: String,
        receiver_id: String,
        loan_value: u128,
        warranty_collection: String,
        warranty_token_id: String,
    },
    /// Burn the claim token `token_id` on the contract `contract_id`.
    NftBurn { contract_id: String, token_id: String },
    /// Transfer token `token_id` of the contract `contract_id` to
    /// `receiver_id`.
    NftTransfer { contract_id: String, receiver_id: String, token_id: String },
    /// Send `amount` of the ledger's native value to `receiver_id`.
    ValueTransfer { receiver_id: String, amount: u128 },
}

/// The mathematical value of an [`ExternalAction`].
pub enum ActionView {
    NftMint {
        contract_id: Seq<char>,
        token_id: Seq<char>,
        receiver_id: Seq<char>,
        loan_value: u128,
        warranty_collection: Seq<char>,
        warranty_token_id: Seq<char>,
    },
    NftBurn { contract_id: Seq<char>, token_id: Seq<char> },
    NftTransfer { contract_id: Seq<char>, receiver_id: Seq<char>, token_id: Seq<char> },
    ValueTransfer { receiver_id: Seq<char>, amount: u128 },
}

impl View for ExternalAction {
    type V = ActionView;

    open spec fn view(&self) -> ActionView {
        match self {
            ExternalAction::NftMint {
                contract_id,
                token_id,
                receiver_id,
                loan_value,
                warranty_collection,
                warranty_token_id,
            } => ActionView::NftMint {
                contract_id: contract_id@,
                token_id: token_id@,
                receiver_id: receiver_id@,
                loan_value: *loan_value,
                warranty_collection: warranty_collection@,
                warranty_token_id: warranty_token_id@,
            },
            ExternalAction::NftBurn { contract_id, token_id } => ActionView::NftBurn {
                contract_id: contract_id@,
                token_id: token_id@,
            },
            ExternalAction::NftTransfer { contract_id, receiver_id, token_id } => (
            ActionView::NftTransfer {
                contract_id: contract_id@,
                receiver_id: receiver_id@,
                token_id: token_id@,
            }),
            ExternalAction::ValueTransfer { receiver_id, amount } => ActionView::ValueTransfer {
                receiver_id: receiver_id@,
                amount: *amount,
            },
        }
    }
}

impl DeepView for ExternalAction {
    type V = ActionView;

    open spec fn deep_view(&self) -> ActionView {
        self.view()
    }
}

/// What [`LendingNftCollateral::post_borrowing_offer`] may assume: for a
/// registered collection, the loan arithmetic and the fresh identifiers
/// must stay representable.
pub open spec fn post_borrowing_offer_pre(
    pre: LendingNftCollateral,
    nft_collection_id: Seq<char>,
    value_offered: u128,
    now: u128,
) -> bool {
    pre.is_registered(nft_collection_id) ==> {
        &&& now + pre.loan_expiration_seconds_limit <= u128::MAX
        &&& pre.token_id_counter < u128::MAX
        &&& loan_value_after(
            value_offered,
            pre.interest_of(nft_collection_id),
            pre.loan_expiration_seconds_limit,
        ) <= u128::MAX
        &&& pre.next_borrowing_offer_id(nft_collection_id) < u128::MAX
    }
}

/// Everything [`LendingNftCollateral::post_borrowing_offer`] promises of
/// the state `post` it leaves and the result `r` it returns, given the
/// state `pre` it started from.
pub open spec fn post_borrowing_offer_post(
    pre: LendingNftCollateral,
    post: LendingNftCollateral,
    r: Result<(bool, Vec<ExternalAction>), Error>,
    nft_collection_id: Seq<char>,
    value_offered: u128,
    collateral_nft: Seq<char>,
    nft_owner_id: Seq<char>,
    now: u128,
) -> bool {
    &&& (r is Err ==> post == pre)
    &&& (!pre.is_registered(nft_collection_id) ==> r == Err::<(bool, Vec<ExternalAction>), Error>(
        Error::UnknownCollection,
    ))
    &&& (pre.is_registered(nft_collection_id) && pre.borrowing_book(nft_collection_id).len()
        >= pre.borrowing_offers_quantity_limit ==> r == Err::<(bool, Vec<ExternalAction>), Error>(
        Error::BookFull,
    ))
    &&& (r is Ok <==> pre.is_registered(nft_collection_id) && pre.borrowing_book(
        nft_collection_id,
    ).len() < pre.borrowing_offers_quantity_limit)
    &&& (r is Ok && pre.borrowing_offer_matches(nft_collection_id, value_offered) ==> ({
        let best = pre.spec_best_lending_offer(nft_collection_id).unwrap();
        &&& r.unwrap().0 == false
        &&& post.loans@ == pre.loans@.insert(
            dec_str(pre.token_id_counter as nat),
            (LoanView {
                value_before: value_offered,
                value_after: loan_value_after(
                    value_offered,
                    pre.interest_of(nft_collection_id),
                    pre.loan_expiration_seconds_limit,
                ) as u128,
                expiration_time: (now + pre.loan_expiration_seconds_limit) as u128,
                warranty_collection: nft_collection_id,
                warranty_token_id: collateral_nft,
            }),
        )
        &&& post.token_id_counter == pre.token_id_counter + 1
        &&& post.lending_offers_vecs@ == pre.lending_offers_vecs@.insert(
            nft_collection_id,
            pre.lending_book(nft_collection_id).drop_last(),
        )
        &&& post.borrowing_offers_vecs@ == pre.borrowing_offers_vecs@
        &&& post.current_lending_offer_id@ == pre.current_lending_offer_id@
        &&& post.current_borrowing_offer_id@ == pre.current_borrowing_offer_id@
        &&& r.unwrap().1.deep_view() =~= seq![
            (ActionView::NftMint {
                contract_id: pre.note_address@,
                token_id: dec_str(pre.token_id_counter as nat),
                receiver_id: best.owner_id,
                loan_value: value_offered,
                warranty_collection: nft_collection_id,
                warranty_token_id: collateral_nft,
            }),
            (ActionView::NftMint {
                contract_id: pre.receipt_address@,
                token_id: dec_str(pre.token_id_counter as nat),
                receiver_id: nft_owner_id,
                loan_value: value_offered,
                warranty_collection: nft_collection_id,
                warranty_token_id: collateral_nft,
            }),
        ]
    }))
    &&& (r is Ok && !pre.borrowing_offer_matches(nft_collection_id, value_offered) ==> ({
        let o = (OfferView {
            offer_id: dec_str(pre.next_borrowing_offer_id(nft_collection_id) as nat),
            owner_id: nft_owner_id,
            value: value_offered,
            token_id: Some(collateral_nft),
        });
        &&& r.unwrap().0 == true
        &&& r.unwrap().1@.len() == 0
        &&& post.borrowing_offers_vecs@ == pre.borrowing_offers_vecs@.insert(
            nft_collection_id,
            insert_borrowing(pre.borrowing_book(nft_collection_id), o),
        )
        &&& post.current_borrowing_offer_id@ == pre.current_borrowing_offer_id@.insert(
            nft_collection_id,
            (pre.next_borrowing_offer_id(nft_collection_id) + 1) as u128,
        )
        &&& post.lending_offers_vecs@ == pre.lending_offers_vecs@
        &&& post.current_lending_offer_id@ == pre.current_lending_offer_id@
        &&& post.loans@ == pre.loans@
        &&& post.token_id_counter == pre.token_id_counter
    }))
    &&& post.balances@ == pre.balances@
    &&& post.nft_collections@ == pre.nft_collections@
    &&& LendingNftCollateral::same_config(pre, post)
}

/// The marketplace: per-collection order books and offer-id counters, the
/// loan table keyed by claim-token identifier, the escrow ledger, and the
/// registry of collateral collections.
pub struct LendingNftCollateral {
    pub lending_offers_quantity_limit: u64,
    pub borrowing_offers_quantity_limit: u64,
    pub owner_id: String,
    /// Next offer identifier, per collection and side.
    pub current_lending_offer_id: LookupMap<u128>,
    pub current_borrowing_offer_id: LookupMap<u128>,
    /// The order books: per collection, the lending side ascending by value
    /// and the borrowing side descending by value, best offer at the tail.
    pub lending_offers_vecs: LookupMap<Vec<Offer>>,
    pub borrowing_offers_vecs: LookupMap<Vec<Offer>>,
    /// Next claim-token identifier, shared by notes and receipts.
    pub token_id_counter: u128,
    /// Live loans, keyed by the decimal text of their claim-token identifier.
    pub loans: LookupMap<Loan>,
    pub loan_expiration_seconds_limit: u128,
    pub note_address: String,
    pub receipt_address: String,
    /// The escrow ledger: spendable funds per account.
    pub balances: LookupMap<u128>,
    /// Registered collateral collections and their interest rate.
    pub nft_collections: LookupMap<u128>,
}

impl LendingNftCollateral {
    /// The contract's internal invariant: every table has distinct keys and
    /// every order book is sorted for its side, lending offers without and
    /// borrowing offers with a collateral token.
    pub open spec fn wf(self) -> bool {
        &&& self.current_lending_offer_id.wf()
        &&& self.current_borrowing_offer_id.wf()
        &&& self.lending_offers_vecs.wf()
        &&& self.borrowing_offers_vecs.wf()
        &&& self.loans.wf()
        &&& self.balances.wf()
        &&& self.nft_collections.wf()
        &&& forall|cid: Seq<char>|
            self.lending_offers_vecs@.contains_key(cid) ==> lending_book_wf(
                #[trigger] self.lending_offers_vecs@[cid],
            )
        &&& forall|cid: Seq<char>|
            self.borrowing_offers_vecs@.contains_key(cid) ==> borrowing_book_wf(
                #[trigger] self.borrowing_offers_vecs@[cid],
            )
    }

    /// The lending book of `cid`, empty if none was created yet.
    pub open spec fn lending_book(self, cid: Seq<char>) -> Seq<OfferView> {
        if self.lending_offers_vecs@.contains_key(cid) {
            self.lending_offers_vecs@[cid]
        } else {
            Seq::empty()
        }
    }

    /// The borrowing book of `cid`, empty if none was created yet.
    pub open spec fn borrowing_book(self, cid: Seq<char>) -> Seq<OfferView> {
        if self.borrowing_offers_vecs@.contains_key(cid) {
            self.borrowing_offers_vecs@[cid]
        } else {
            Seq::empty()
        }
    }

    /// The escrow balance of `account`, zero if it never appeared.
    pub open spec fn balance_of(self, account: Seq<char>) -> u128 {
        if self.balances@.contains_key(account) {
            self.balances@[account]
        } else {
            0
        }
    }

    /// Whether `cid` was registered as a collateral collection.
    pub open spec fn is_registered(self, cid: Seq<char>) -> bool {
        self.nft_collections@.contains_key(cid)
    }

    /// The interest rate of `cid`, zero if it was never registered.
    pub open spec fn interest_of(self, cid: Seq<char>) -> u128 {
        if self.nft_collections@.contains_key(cid) {
            self.nft_collections@[cid]
        } else {
            0
        }
    }

    /// The live loan keyed by `token_id`, if any.
    pub open spec fn loan_of(self, token_id: Seq<char>) -> Option<LoanView> {
        if self.loans@.contains_key(token_id) {
            Some(self.loans@[token_id])
        } else {
            None
        }
    }

    /// The next offer identifier of the lending side of `cid`.
    pub open spec fn next_lending_offer_id(self, cid: Seq<char>) -> u128 {
        if self.current_lending_offer_id@.contains_key(cid) {
            self.current_lending_offer_id@[cid]
        } else {
            0
        }
    }

    /// The next offer identifier of the borrowing side of `cid`.
    pub open spec fn next_borrowing_offer_id(self, cid: Seq<char>) -> u128 {
        if self.current_borrowing_offer_id@.contains_key(cid) {
            self.current_borrowing_offer_id@[cid]
        } else {
            0
        }
    }

    /// The best resting lending offer of `cid`: the tail of the ascending
    /// book, so the highest value offered.
    pub open spec fn spec_best_lending_offer(self, cid: Seq<char>) -> Option<OfferView> {
        if self.lending_book(cid).len() == 0 {
            None
        } else {
            Some(self.lending_book(cid).last())
        }
    }

    /// The best resting borrowing offer of `cid`: the tail of the descending
    /// book, so the lowest value asked.
    pub open spec fn spec_best_borrowing_offer(self, cid: Seq<char>) -> Option<OfferView> {
        if self.borrowing_book(cid).len() == 0 {
            None
        } else {
            Some(self.borrowing_book(cid).last())
        }
    }

    /// Whether a lending offer of `value` crosses the borrowing book of
    /// `cid`: it does when the best (lowest) resting ask is at most `value`.
    pub open spec fn lending_offer_matches(self, cid: Seq<char>, value: u128) -> bool {
        match self.spec_best_borrowing_offer(cid) {
            Some(o) => value >= o.value,
            None => false,
        }
    }

    /// Whether a borrowing offer of `value` crosses the lending book of
    /// `cid`: it does when the best (highest) resting bid is at least
    /// `value`.
    pub open spec fn borrowing_offer_matches(self, cid: Seq<char>, value: u128) -> bool {
        match self.spec_best_lending_offer(cid) {
            Some(o) => value <= o.value,
            None => false,
        }
    }

    /// The configuration fields that no marketplace operation changes.
    pub open spec fn same_config(a: Self, b: Self) -> bool {
        &&& a.lending_offers_quantity_limit == b.lending_offers_quantity_limit
        &&& a.borrowing_offers_quantity_limit == b.borrowing_offers_quantity_limit
        &&& a.owner_id == b.owner_id
        &&& a.loan_expiration_seconds_limit == b.loan_expiration_seconds_limit
        &&& a.note_address == b.note_address
        &&& a.receipt_address == b.receipt_address
    }

    /// Both sides' books and offer-id counters agree between `a` and `b`.
    pub open spec fn same_books(a: Self, b: Self) -> bool {
        &&& a.lending_offers_vecs@ == b.lending_offers_vecs@
        &&& a.borrowing_offers_vecs@ == b.borrowing_offers_vecs@
        &&& a.current_lending_offer_id@ == b.current_lending_offer_id@
        &&& a.current_borrowing_offer_id@ == b.current_borrowing_offer_id@
    }

    /// A fresh marketplace: empty tables, counter at zero, twenty resting
    /// offers allowed per book, and a fifteen-day loan term in seconds.
    pub fn new(owner_id: String, note_address: String, receipt_address: String) -> (c: Self)
        ensures
            c.wf(),
            c.token_id_counter == 0,
            c.lending_offers_quantity_limit == 20,
            c.borrowing_offers_quantity_limit == 20,
            c.loan_expiration_seconds_limit == 1296000,
            c.owner_id@ == owner_id@,
            c.note_address@ == note_address@,
            c.receipt_address@ == receipt_address@,
            c.lending_offers_vecs@ == Map::<Seq<char>, Seq<OfferView>>::empty(),
            c.borrowing_offers_vecs@ == Map::<Seq<char>, Seq<OfferView>>::empty(),
            c.current_lending_offer_id@ == Map::<Seq<char>, u128>::empty(),
            c.current_borrowing_offer_id@ == Map::<Seq<char>, u128>::empty(),
            c.loans@ == Map::<Seq<char>, LoanView>::empty(),
            c.balances@ == Map::<Seq<char>, u128>::empty(),
            c.nft_collections@ == Map::<Seq<char>, u128>::empty(),
    {
        LendingNftCollateral {
            token_id_counter: 0,
            lending_offers_quantity_limit: 20,
            borrowing_offers_quantity_limit: 20,
            owner_id,
            current_lending_offer_id: LookupMap::new(),
            current_borrowing_offer_id: LookupMap::new(),
            lending_offers_vecs: LookupMap::new(),
            borrowing_offers_vecs: LookupMap::new(),
            loans: LookupMap::new(),
            // fifteen days in seconds
            loan_expiration_seconds_limit: 1296000,
            note_address,
            receipt_address,
            balances: LookupMap::new(),
            nft_collections: LookupMap::new(),
        }
    }

    /// The best resting lending offer of `nft_collection_id`: the tail of
    /// the ascending book, the highest bid; nothing when the book is empty.
    pub fn get_best_lending_offer(&self, nft_collection_id: String) -> (r: Option<Offer>)
        requires
            self.wf(),
        ensures
            match r {
                Some(o) => self.spec_best_lending_offer(nft_collection_id@) == Some(o@),
                None => self.spec_best_lending_offer(nft_collection_id@) is None,
            },
    {
        match self.lending_offers_vecs.get(&nft_collection_id) {
            Some(v) => {
                if v.len() == 0 {
                    None
                } else {
                    let o = v[v.len() - 1].clone();
                    proof {
                        assert(v.deep_view()[v@.len() - 1] == v@[v@.len() - 1].deep_view());
                    }
                    Some(o)
                }
            },
            None => None,
        }
    }

    /// The best resting borrowing offer of `nft_collection_id`: the tail of
    /// the descending book, the lowest ask; nothing when the book is empty.
    pub fn get_best_borrowing_offer(&self, nft_collection_id: String) -> (r: Option<Offer>)
        requires
            self.wf(),
        ensures
            match r {
                Some(o) => self.spec_best_borrowing_offer(nft_collection_id@) == Some(o@),
                None => self.spec_best_borrowing_offer(nft_collection_id@) is None,
            },
    {
        match self.borrowing_offers_vecs.get(&nft_collection_id) {
            Some(v) => {
                if v.len() == 0 {
                    None
                } else {
                    let o = v[v.len() - 1].clone();
                    proof {
                        assert(v.deep_view()[v@.len() - 1] == v@[v@.len() - 1].deep_view());
                    }
                    Some(o)
                }
            },
            None => None,
        }
    }

    /// Cancels the resting lending offer named `offer_id`. Only the offer's
    /// owner may cancel: anyone else is turned away with `Unauthorized`,
    /// and an identifier no resting offer carries fails with
    /// `OfferNotFound`; either way nothing changes. On success the offer
    /// leaves the book and the remaining offers keep their order.
    pub fn cancel_specific_lending_offer(
        &mut self,
        offer_id: String,
        nft_collection_id: String,
        caller: &String,
    ) -> (r: Result<(), Error>)
        requires
            old(self).wf(),
        ensures
            final(self).wf(),
            r is Err ==> *final(self) == *old(self),
            ({
                let book = old(self).lending_book(nft_collection_id@);
                let f = find_offer_from_tail(book, offer_id@);
                &&& f == -1 ==> r == Err::<(), Error>(Error::OfferNotFound)
                &&& f >= 0 && book[f].owner_id != caller@ ==> r == Err::<(), Error>(
                    Error::Unauthorized,
                )
                &&& r is Ok <==> f >= 0 && book[f].owner_id == caller@
                &&& r is Ok ==> final(self).lending_offers_vecs@ == old(
                    self,
                ).lending_offers_vecs@.insert(nft_collection_id@, remove_offer(book, offer_id@))
            }),
            final(self).borrowing_offers_vecs@ == old(self).borrowing_offers_vecs@,
            final(self).current_lending_offer_id@ == old(self).current_lending_offer_id@,
            final(self).current_borrowing_offer_id@ == old(self).current_borrowing_offer_id@,
            final(self).loans@ == old(self).loans@,
            final(self).balances@ == old(self).balances@,
            final(self).nft_collections@ == old(self).nft_collections@,
            final(self).token_id_counter == old(self).token_id_counter,
            Self::same_config(*old(self), *final(self)),
    {
        let ghost book = old(self).lending_book(nft_collection_id@);
        let mut removed_book: Vec<Offer>;
        let idx: usize;
        match self.lending_offers_vecs.get(&nft_collection_id) {
            Some(v) => {
                match find_offer_index_from_tail(v, &offer_id) {
                    Some(i) => {
                        proof {
                            assert(v.deep_view()[i as int] == v@[i as int].deep_view());
                        }
                        if !(v[i].owner_id == *caller) {
                            return Err(Error::Unauthorized);
                        }
                        idx = i;
                        removed_book = clone_offers(v);
                    },
                    None => {
                        return Err(Error::OfferNotFound);
                    },
                }
            },
            None => {
                return Err(Error::OfferNotFound);
            },
        }
        proof {
            lemma_find_offer_from_tail(book, offer_id@);
            lemma_remove_index_lending_book_wf(book, idx as int);
        }
        let ghost before = removed_book@;
        removed_book.remove(idx);
        proof {
            before.remove_ensures(idx as int);
            book.remove_ensures(idx as int);
            assert(removed_book.deep_view() =~= book.remove(idx as int));
        }
        self.lending_offers_vecs.insert(nft_collection_id, removed_book);
        Ok(())
    }

    /// Cancels the resting borrowing offer named `offer_id` and hands back
    /// the return of its collateral token to the offer's owner. Only the
    /// owner may cancel (`Unauthorized`); an identifier no resting offer
    /// carries fails with `OfferNotFound`; either way nothing changes. On
    /// success the offer leaves the book and the remaining offers keep
    /// their order.
    pub fn cancel_specific_borrowing_offer(
        &mut self,
        offer_id: String,
        nft_collection_id: String,
        caller: &String,
    ) -> (r: Result<ExternalAction, Error>)
        requires
            old(self).wf(),
        ensures
            final(self).wf(),
            r is Err ==> *final(self) == *old(self),
            ({
                let book = old(self).borrowing_book(nft_collection_id@);
                let f = find_offer_from_tail(book, offer_id@);
                &&& f == -1 ==> r == Err::<ExternalAction, Error>(Error::OfferNotFound)
                &&& f >= 0 && book[f].owner_id != caller@ ==> r == Err::<ExternalAction, Error>(
                    Error::Unauthorized,
                )
                &&& r is Ok <==> f >= 0 && book[f].owner_id == caller@
                &&& r is Ok ==> final(self).borrowing_offers_vecs@ == old(
                    self,
                ).borrowing_offers_vecs@.insert(nft_collection_id@, remove_offer(book, offer_id@))
                &&& r matches Ok(a) ==> a@ == (ActionView::NftTransfer {
                    contract_id: nft_collection_id@,
                    receiver_id: book[f].owner_id,
                    token_id: book[f].token_id.unwrap(),
                })
            }),
            final(self).lending_offers_vecs@ == old(self).lending_offers_vecs@,
            final(self).current_lending_offer_id@ == old(self).current_lending_offer_id@,
            final(self).current_borrowing_offer_id@ == old(self).current_borrowing_offer_id@,
            final(self).loans@ == old(self).loans@,
            final(self).balances@ == old(self).balances@,
            final(self).nft_collections@ == old(self).nft_collections@,
            final(self).token_id_counter == old(self).token_id_counter,
            Self::same_config(*old(self), *final(self)),
    {
        let ghost book = old(self).borrowing_book(nft_collection_id@);
        let mut removed_book: Vec<Offer>;
        let idx: usize;
        let owner: String;
        let warranty_token: String;
        match self.borrowing_offers_vecs.get(&nft_collection_id) {
            Some(v) => {
                match find_offer_index_from_tail(v, &offer_id) {
                    Some(i) => {
                        proof {
                            assert(v.deep_view()[i as int] == v@[i as int].deep_view());
                        }
                        if !(v[i].owner_id == *caller) {
                            return Err(Error::Unauthorized);
                        }
                        idx = i;
                        owner = v[i].owner_id.clone();
                        warranty_token = match &v[i].token_id {
                            Some(t) => t.clone(),
                            None => {
                                proof {
                                    assert(false);
                                }
                                return Err(Error::OfferNotFound);
                            },
                        };
                        removed_book = clone_offers(v);
                    },
                    None => {
                        return Err(Error::OfferNotFound);
                    },
                }
            },
            None => {
                return Err(Error::OfferNotFound);
            },
        }
        proof {
            lemma_find_offer_from_tail(book, offer_id@);
            lemma_remove_index_borrowing_book_wf(book, idx as int);
        }
        let ghost before = removed_book@;
        removed_book.remove(idx);
        proof {
            before.remove_ensures(idx as int);
            book.remove_ensures(idx as int);
            assert(removed_book.deep_view() =~= book.remove(idx as int));
        }
        self.borrowing_offers_vecs.insert(nft_collection_id.clone(), removed_book);
        // hand the collateral token back to the offer's owner
        Ok(
            ExternalAction::NftTransfer {
                contract_id: nft_collection_id,
                receiver_id: owner,
                token_id: warranty_token,
            },
        )
    }

    /// Accepts one named resting lending offer directly, bypassing
    /// best-price matching: creates a loan of that offer's value between
    /// its owner (the lender) and the caller (the borrower, whose
    /// collateral token `token_id` backs it), and removes the offer from
    /// its book. Fails with `OfferNotFound`, changing nothing, when no
    /// resting lending offer carries `offer_id`.
    pub fn choose_specific_lending_offer(
        &mut self,
        nft_collection_id: String,
        offer_id: String,
        token_id: String,
        caller: &String,
        now: u128,
    ) -> (r: Result<Vec<ExternalAction>, Error>)
        requires
            old(self).wf(),
            now + old(self).loan_expiration_seconds_limit <= u128::MAX,
            old(self).token_id_counter < u128::MAX,
            ({
                let book = old(self).lending_book(nft_collection_id@);
                let f = find_offer_from_tail(book, offer_id@);
                f >= 0 ==> loan_value_after(
                    book[f].value,
                    old(self).interest_of(nft_collection_id@),
                    old(self).loan_expiration_seconds_limit,
                ) <= u128::MAX
            }),
        ensures
            final(self).wf(),
            r is Err ==> *final(self) == *old(self) && r == Err::<Vec<ExternalAction>, Error>(
                Error::OfferNotFound,
            ),
            ({
                let book = old(self).lending_book(nft_collection_id@);
                let f = find_offer_from_tail(book, offer_id@);
                &&& r is Ok <==> f >= 0
                &&& r is Ok ==> ({
                    let o = book[f];
                    &&& final(self).loans@ == old(self).loans@.insert(
                        dec_str(old(self).token_id_counter as nat),
                        (LoanView {
                            value_before: o.value,
                            value_after: loan_value_after(
                                o.value,
                                old(self).interest_of(nft_collection_id@),
                                old(self).loan_expiration_seconds_limit,
                            ) as u128,
                            expiration_time: (now + old(self).loan_expiration_seconds_limit)
                                as u128,
                            warranty_collection: nft_collection_id@,
                            warranty_token_id: token_id@,
                        }),
                    )
                    &&& final(self).token_id_counter == old(self).token_id_counter + 1
                    &&& final(self).lending_offers_vecs@ == old(
                        self,
                    ).lending_offers_vecs@.insert(nft_collection_id@, remove_offer(book, offer_id@))
                    &&& r.unwrap().deep_view() =~= seq![
                        (ActionView::NftMint {
                            contract_id: old(self).note_address@,
                            token_id: dec_str(old(self).token_id_counter as nat),
                            receiver_id: o.owner_id,
                            loan_value: o.value,
                            warranty_collection: nft_collection_id@,
                            warranty_token_id: token_id@,
                        }),
                        (ActionView::NftMint {
                            contract_id: old(self).receipt_address@,
                            token_id: dec_str(old(self).token_id_counter as nat),
                            receiver_id: caller@,
                            loan_value: o.value,
                            warranty_collection: nft_collection_id@,
                            warranty_token_id: token_id@,
                        }),
                    ]
                })
            }),
            final(self).borrowing_offers_vecs@ == old(self).borrowing_offers_vecs@,
            final(self).current_lending_offer_id@ == old(self).current_lending_offer_id@,
            final(self).current_borrowing_offer_id@ == old(self).current_borrowing_offer_id@,
            final(self).balances@ == old(self).balances@,
            final(self).nft_collections@ == old(self).nft_collections@,
            Self::same_config(*old(self), *final(self)),
    {
        let ghost book = old(self).lending_book(nft_collection_id@);
        let mut removed_book: Vec<Offer>;
        let idx: usize;
        let offer_owner: String;
        let offer_value: u128;
        match self.lending_offers_vecs.get(&nft_collection_id) {
            Some(v) => {
                match find_offer_index_from_tail(v, &offer_id) {
                    Some(i) => {
                        proof {
                            assert(v.deep_view()[i as int] == v@[i as int].deep_view());
                        }
                        idx = i;
                        offer_owner = v[i].owner_id.clone();
                        offer_value = v[i].value;
                        removed_book = clone_offers(v);
                    },
                    None => {
                        return Err(Error::OfferNotFound);
                    },
                }
            },
            None => {
                return Err(Error::OfferNotFound);
            },
        }
        let actions = self.post_loan(
            offer_owner,
            caller.clone(),
            nft_collection_id.clone(),
            token_id,
            offer_value,
            now,
        );
        proof {
            lemma_find_offer_from_tail(book, offer_id@);
            lemma_remove_index_lending_book_wf(book, idx as int);
        }
        let ghost before = removed_book@;
        removed_book.remove(idx);
        proof {
            before.remove_ensures(idx as int);
            book.remove_ensures(idx as int);
            assert(removed_book.deep_view() =~= book.remove(idx as int));
        }
        self.lending_offers_vecs.insert(nft_collection_id, removed_book);
        Ok(actions)
    }

    /// Accepts one named resting borrowing offer directly, bypassing
    /// best-price matching: creates a loan of that offer's value between
    /// the caller (the lender) and the offer's owner (the borrower, whose
    /// resting collateral token backs it), and removes the offer from its
    /// book. Fails with `OfferNotFound`, changing nothing, when no resting
    /// borrowing offer carries `offer_id`.
    pub fn choose_specific_borrowing_offer(
        &mut self,
        nft_collection_id: String,
        offer_id: String,
        caller: &String,
        now: u128,
    ) -> (r: Result<Vec<ExternalAction>, Error>)
        requires
            old(self).wf(),
            now + old(self).loan_expiration_seconds_limit <= u128::MAX,
            old(self).token_id_counter < u128::MAX,
            ({
                let book = old(self).borrowing_book(nft_collection_id@);
                let f = find_offer_from_tail(book, offer_id@);
                f >= 0 ==> loan_value_after(
                    book[f].value,
                    old(self).interest_of(nft_collection_id@),
                    old(self).loan_expiration_seconds_limit,
                ) <= u128::MAX
            }),
        ensures
            final(self).wf(),
            r is Err ==> *final(self) == *old(self) && r == Err::<Vec<ExternalAction>, Error>(
                Error::OfferNotFound,
            ),
            ({
                let book = old(self).borrowing_book(nft_collection_id@);
                let f = find_offer_from_tail(book, offer_id@);
                &&& r is Ok <==> f >= 0
                &&& r is Ok ==> ({
                    let o = book[f];
                    &&& final(self).loans@ == old(self).loans@.insert(
                        dec_str(old(self).token_id_counter as nat),
                        (LoanView {
                            value_before: o.value,
                            value_after: loan_value_after(
                                o.value,
                                old(self).interest_of(nft_collection_id@),
                                old(self).loan_expiration_seconds_limit,
                            ) as u128,
                            expiration_time: (now + old(self).loan_expiration_seconds_limit)
                                as u128,
                            warranty_collection: nft_collection_id@,
                            warranty_token_id: o.token_id.unwrap(),
                        }),
                    )
                    &&& final(self).token_id_counter == old(self).token_id_counter + 1
                    &&& final(self).borrowing_offers_vecs@ == old(
                        self,
                    ).borrowing_offers_vecs@.insert(
                        nft_collection_id@,
                        remove_offer(book, offer_id@),
                    )
                    &&& r.unwrap().deep_view() =~= seq![
                        (ActionView::NftMint {
                            contract_id: old(self).note_address@,
                            token_id: dec_str(old(self).token_id_counter as nat),
                            receiver_id: caller@,
                            loan_value: o.value,
                            warranty_collection: nft_collection_id@,
                            warranty_token_id: o.token_id.unwrap(),
                        }),
                        (ActionView::NftMint {
                            contract_id: old(self).receipt_address@,
                            token_id: dec_str(old(self).token_id_counter as nat),
                            receiver_id: o.owner_id,
                            loan_value: o.value,
                            warranty_collection: nft_collection_id@,
                            warranty_token_id: o.token_id.unwrap(),
                        }),
                    ]
                })
            }),
            final(self).lending_offers_vecs@ == old(self).lending_offers_vecs@,
            final(self).current_lending_offer_id@ == old(self).current_lending_offer_id@,
            final(self).current_borrowing_offer_id@ == old(self).current_borrowing_offer_id@,
            final(self).balances@ == old(self).balances@,
            final(self).nft_collections@ == old(self).nft_collections@,
            Self::same_config(*old(self), *final(self)),
    {
        let ghost book = old(self).borrowing_book(nft_collection_id@);
        let mut removed_book: Vec<Offer>;
        let idx: usize;
        let offer_owner: String;
        let offer_value: u128;
        let warranty_token: String;
        match self.borrowing_offers_vecs.get(&nft_collection_id) {
            Some(v) => {
                match find_offer_index_from_tail(v, &offer_id) {
                    Some(i) => {
                        proof {
                            assert(v.deep_view()[i as int] == v@[i as int].deep_view());
                        }
                        idx = i;
                        offer_owner = v[i].owner_id.clone();
                        offer_value = v[i].value;
                        warranty_token = match &v[i].token_id {
                            Some(t) => t.clone(),
                            None => {
                                proof {
                                    assert(false);
                                }
                                return Err(Error::OfferNotFound);
                            },
                        };
                        removed_book = clone_offers(v);
                    },
                    None => {
                        return Err(Error::OfferNotFound);
                    },
                }
            },
            None => {
                return Err(Error::OfferNotFound);
            },
        }
        let actions = self.post_loan(
            caller.clone(),
            offer_owner,
            nft_collection_id.clone(),
            warranty_token,
            offer_value,
            now,
        );
        proof {
            lemma_find_offer_from_tail(book, offer_id@);
            lemma_remove_index_borrowing_book_wf(book, idx as int);
        }
        let ghost before = removed_book@;
        removed_book.remove(idx);
        proof {
            before.remove_ensures(idx as int);
            book.remove_ensures(idx as int);
            assert(removed_book.deep_view() =~= book.remove(idx as int));
        }
        self.borrowing_offers_vecs.insert(nft_collection_id, removed_book);
        Ok(actions)
    }

    /// Posts a lending offer of `value_offered` by `caller`. When the
    /// offer crosses the borrowing book's best (lowest) ask — the ask is
    /// at most `value_offered` — a loan over the incoming offer's value is
    /// created at once between the caller and that best offer's owner, the
    /// matched offer leaves its book, and no resting offer is created: the
    /// result is `Ok((false, mints))`. Otherwise the offer is queued in
    /// sorted position under a fresh identifier and the result is
    /// `Ok((true, ...))` with no external action. Fails, changing nothing,
    /// when the collection is unknown (`UnknownCollection`) or its lending
    /// book is at its cap (`BookFull`).
    pub fn post_lending_offer(
        &mut self,
        nft_collection_id: String,
        value_offered: u128,
        caller: &String,
        now: u128,
    ) -> (r: Result<(bool, Vec<ExternalAction>), Error>)
        requires
            old(self).wf(),
            old(self).is_registered(nft_collection_id@) ==> {
                &&& now + old(self).loan_expiration_seconds_limit <= u128::MAX
                &&& old(self).token_id_counter < u128::MAX
                &&& loan_value_after(
                    value_offered,
                    old(self).interest_of(nft_collection_id@),
                    old(self).loan_expiration_seconds_limit,
                ) <= u128::MAX
                &&& old(self).next_lending_offer_id(nft_collection_id@) < u128::MAX
            },
        ensures
            final(self).wf(),
            r is Err ==> *final(self) == *old(self),
            !old(self).is_registered(nft_collection_id@) ==> r == Err::<
                (bool, Vec<ExternalAction>),
                Error,
            >(Error::UnknownCollection),
            old(self).is_registered(nft_collection_id@) && old(self).lending_book(
                nft_collection_id@,
            ).len() >= old(self).lending_offers_quantity_limit ==> r == Err::<
                (bool, Vec<ExternalAction>),
                Error,
            >(Error::BookFull),
            r is Ok <==> old(self).is_registered(nft_collection_id@) && old(self).lending_book(
                nft_collection_id@,
            ).len() < old(self).lending_offers_quantity_limit,
            r is Ok && old(self).lending_offer_matches(nft_collection_id@, value_offered) ==> ({
                let best = old(self).spec_best_borrowing_offer(nft_collection_id@).unwrap();
                &&& r.unwrap().0 == false
                &&& final(self).loans@ == old(self).loans@.insert(
                    dec_str(old(self).token_id_counter as nat),
                    (LoanView {
                        value_before: value_offered,
                        value_after: loan_value_after(
                            value_offered,
                            old(self).interest_of(nft_collection_id@),
                            old(self).loan_expiration_seconds_limit,
                        ) as u128,
                        expiration_time: (now + old(self).loan_expiration_seconds_limit) as u128,
                        warranty_collection: nft_collection_id@,
                        warranty_token_id: best.token_id.unwrap(),
                    }),
                )
                &&& final(self).token_id_counter == old(self).token_id_counter + 1
                &&& final(self).borrowing_offers_vecs@ == old(
                    self,
                ).borrowing_offers_vecs@.insert(
                    nft_collection_id@,
                    old(self).borrowing_book(nft_collection_id@).drop_last(),
                )
                &&& final(self).lending_offers_vecs@ == old(self).lending_offers_vecs@
                &&& final(self).current_lending_offer_id@ == old(self).current_lending_offer_id@
                &&& final(self).current_borrowing_offer_id@ == old(
                    self,
                ).current_borrowing_offer_id@
                &&& r.unwrap().1.deep_view() =~= seq![
                    (ActionView::NftMint {
                        contract_id: old(self).note_address@,
                        token_id: dec_str(old(self).token_id_counter as nat),
                        receiver_id: caller@,
                        loan_value: value_offered,
                        warranty_collection: nft_collection_id@,
                        warranty_token_id: best.token_id.unwrap(),
                    }),
                    (ActionView::NftMint {
                        contract_id: old(self).receipt_address@,
                        token_id: dec_str(old(self).token_id_counter as nat),
                        receiver_id: best.owner_id,
                        loan_value: value_offered,
                        warranty_collection: nft_collection_id@,
                        warranty_token_id: best.token_id.unwrap(),
                    }),
                ]
            }),
            r is Ok && !old(self).lending_offer_matches(nft_collection_id@, value_offered) ==> ({
                let o = (OfferView {
                    offer_id: dec_str(old(self).next_lending_offer_id(nft_collection_id@) as nat),
                    owner_id: caller@,
                    value: value_offered,
                    token_id: None,
                });
                &&& r.unwrap().0 == true
                &&& r.unwrap().1@.len() == 0
                &&& final(self).lending_offers_vecs@ == old(self).lending_offers_vecs@.insert(
                    nft_collection_id@,
                    insert_lending(old(self).lending_book(nft_collection_id@), o),
                )
                &&& final(self).current_lending_offer_id@ == old(
                    self,
                ).current_lending_offer_id@.insert(
                    nft_collection_id@,
                    (old(self).next_lending_offer_id(nft_collection_id@) + 1) as u128,
                )
                &&& final(self).borrowing_offers_vecs@ == old(self).borrowing_offers_vecs@
                &&& final(self).current_borrowing_offer_id@ == old(
                    self,
                ).current_borrowing_offer_id@
                &&& final(self).loans@ == old(self).loans@
                &&& final(self).token_id_counter == old(self).token_id_counter
            }),
            final(self).balances@ == old(self).balances@,
            final(self).nft_collections@ == old(self).nft_collections@,
            Self::same_config(*old(self), *final(self)),
    {
        if !self.nft_collections.contains_key(&nft_collection_id) {
            return Err(Error::UnknownCollection);
        }
        let book_len: usize = match self.lending_offers_vecs.get(&nft_collection_id) {
            Some(v) => v.len(),
            None => 0,
        };
        if book_len as u128 >= self.lending_offers_quantity_limit as u128 {
            return Err(Error::BookFull);
        }
        if self.evaluate_lending_offer_possible_match(&nft_collection_id, value_offered) {
            let best = match self.get_best_borrowing_offer(nft_collection_id.clone()) {
                Some(o) => o,
                None => {
                    proof {
                        assert(false);
                    }
                    return Err(Error::UnknownCollection);
                },
            };
            let warranty_token = match &best.token_id {
                Some(t) => t.clone(),
                None => {
                    proof {
                        assert(false);
                    }
                    return Err(Error::UnknownCollection);
                },
            };
            let actions = self.post_loan(
                caller.clone(),
                best.owner_id,
                nft_collection_id.clone(),
                warranty_token,
                value_offered,
                now,
            );
            let ghost bbook = old(self).borrowing_book(nft_collection_id@);
            let mut popped_book = match self.borrowing_offers_vecs.get(&nft_collection_id) {
                Some(v) => clone_offers(v),
                None => {
                    proof {
                        assert(false);
                    }
                    Vec::new()
                },
            };
            let ghost before = popped_book@;
            popped_book.pop();
            proof {
                lemma_remove_index_borrowing_book_wf(bbook, bbook.len() - 1);
                assert(bbook.remove(bbook.len() - 1) =~= bbook.drop_last());
                assert(popped_book.deep_view() =~= bbook.drop_last());
            }
            self.borrowing_offers_vecs.insert(nft_collection_id, popped_book);
            Ok((false, actions))
        } else {
            let offer_id_num: u128 = match self.current_lending_offer_id.get(&nft_collection_id) {
                Some(v) => *v,
                None => 0,
            };
            let offer = Offer {
                offer_id: u128_to_dec_string(offer_id_num),
                owner_id: caller.clone(),
                value: value_offered,
                token_id: None,
            };
            let ghost o = offer@;
            let book_vec = self.get_lending_offers_vec_from_nft_collection(
                nft_collection_id.clone(),
            );
            let ordered = self.sort_order_lending_offer_vec(book_vec, offer);
            proof {
                lemma_insert_lending_book_wf(old(self).lending_book(nft_collection_id@), o);
            }
            self.lending_offers_vecs.insert(nft_collection_id.clone(), ordered);
            self.current_lending_offer_id.insert(nft_collection_id, offer_id_num + 1);
            Ok((true, Vec::new()))
        }
    }

    /// Posts a borrowing offer of `value_offered` backed by the collateral
    /// token `collateral_nft`, owned by `nft_owner_id`. When the offer
    /// crosses the lending book's best (highest) bid — the bid is at least
    /// `value_offered` — a loan over the incoming offer's value is created
    /// at once between that best offer's owner and `nft_owner_id`, the
    /// matched offer leaves its book, and no resting offer is created: the
    /// result is `Ok((false, mints))`. Otherwise the offer is queued in
    /// sorted position under a fresh identifier and the result is
    /// `Ok((true, ...))` with no external action. Fails, changing nothing,
    /// when the collection is unknown (`UnknownCollection`) or its
    /// borrowing book is at its cap (`BookFull`).
    pub fn post_borrowing_offer(
        &mut self,
        nft_collection_id: String,
        value_offered: u128,
        collateral_nft: String,
        nft_owner_id: String,
        now: u128,
    ) -> (r: Result<(bool, Vec<ExternalAction>), Error>)
        requires
            old(self).wf(),
            post_borrowing_offer_pre(*old(self), nft_collection_id@, value_offered, now),
        ensures
            final(self).wf(),
            post_borrowing_offer_post(
                *old(self),
                *final(self),
                r,
                nft_collection_id@,
                value_offered,
                collateral_nft@,
                nft_owner_id@,
                now,
            ),
    {
        if !self.nft_collections.contains_key(&nft_collection_id) {
            return Err(Error::UnknownCollection);
        }
        let book_len: usize = match self.borrowing_offers_vecs.get(&nft_collection_id) {
            Some(v) => v.len(),
            None => 0,
        };
        if book_len as u128 >= self.borrowing_offers_quantity_limit as u128 {
            return Err(Error::BookFull);
        }
        if self.evaluate_borrowing_offer_possible_match(&nft_collection_id, value_offered) {
            let best = match self.get_best_lending_offer(nft_collection_id.clone()) {
                Some(o) => o,
                None => {
                    proof {
                        assert(false);
                    }
                    return Err(Error::UnknownCollection);
                },
            };
            let actions = self.post_loan(
                best.owner_id,
                nft_owner_id,
                nft_collection_id.clone(),
                collateral_nft,
                value_offered,
                now,
            );
            let ghost lbook = old(self).lending_book(nft_collection_id@);
            let mut popped_book = match self.lending_offers_vecs.get(&nft_collection_id) {
                Some(v) => clone_offers(v),
                None => {
                    proof {
                        assert(false);
                    }
                    Vec::new()
                },
            };
            let ghost before = popped_book@;
            popped_book.pop();
            proof {
                lemma_remove_index_lending_book_wf(lbook, lbook.len() - 1);
                assert(lbook.remove(lbook.len() - 1) =~= lbook.drop_last());
                assert(popped_book.deep_view() =~= lbook.drop_last());
            }
            self.lending_offers_vecs.insert(nft_collection_id, popped_book);
            Ok((false, actions))
        } else {
            let offer_id_num: u128 = match self.current_borrowing_offer_id.get(
                &nft_collection_id,
            ) {
                Some(v) => *v,
                None => 0,
            };
            let offer = Offer {
                offer_id: u128_to_dec_string(offer_id_num),
                owner_id: nft_owner_id,
                value: value_offered,
                token_id: Some(collateral_nft),
            };
            let ghost o = offer@;
            let book_vec = self.get_borrowing_offers_vec_from_nft_collection(
                nft_collection_id.clone(),
            );
            let ordered = self.sort_order_borrowing_offer_vec(book_vec, offer);
            proof {
                lemma_insert_borrowing_book_wf(old(self).borrowing_book(nft_collection_id@), o);
            }
            self.borrowing_offers_vecs.insert(nft_collection_id.clone(), ordered);
            self.current_borrowing_offer_id.insert(nft_collection_id, offer_id_num + 1);
            Ok((true, Vec::new()))
        }
    }
}

} // verus!
