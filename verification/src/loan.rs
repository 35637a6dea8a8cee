//! The loan lifecycle: creation on a match, repayment through the receipt
//! claim, and expiration-triggered default through the note claim.
//!
//! A loan lives in the loan table from creation until it is settled —
//! repaid or defaulted — and settling removes its record, so a settled loan
//! can never be settled again: both settlement paths fail with
//! `OfferNotFound` once the record is gone.

use vstd::prelude::*;

use crate::decimal::{dec_str, u128_to_dec_string};
use crate::{
    ActionView, Error, ExternalAction, LendingNftCollateral, Loan, LoanView, SECONDS_IN_A_YEAR,
};

verus! {

/// The payoff owed on a loan of `value_before` at `interest` per year over
/// `duration_seconds`: linear simple interest, with the duration counted in
/// whole years (integer division, so a term shorter than a year owes
/// nothing beyond repayment of zero — the registry's rate and term choose
/// the pricing).
pub open spec fn loan_value_after(value_before: u128, interest: u128, duration_seconds: u128) -> int {
    value_before * interest * (duration_seconds / SECONDS_IN_A_YEAR)
}

/// Whether the loan keyed `token_id` is live, so may still be settled.
pub open spec fn settle_allowed(loans: Map<Seq<char>, LoanView>, token_id: Seq<char>) -> bool {
    loans.contains_key(token_id)
}

/// The loan table after settling `token_id`: its record is removed.
pub open spec fn settle_loan(loans: Map<Seq<char>, LoanView>, token_id: Seq<char>) -> Map<
    Seq<char>,
    LoanView,
> {
    loans.remove(token_id)
}

/// Loan terminality: settling a loan — repaying it or defaulting it —
/// removes its record, and every settlement requires the record, so a loan
/// settled once can never be repaid or defaulted again; nor does settling
/// any other loan bring a settled one back.
pub proof fn lemma_loan_terminality(
    loans: Map<Seq<char>, LoanView>,
    token_id: Seq<char>,
    other: Seq<char>,
)
    ensures
        !settle_allowed(settle_loan(loans, token_id), token_id),
        !settle_allowed(loans, token_id) ==> !settle_allowed(
            settle_loan(loans, other),
            token_id,
        ),
{
}

/// What [`LendingNftCollateral::pay_loan`] may assume: when the debited and
/// credited parties differ, the credit must stay representable.
pub open spec fn pay_loan_pre(
    pre: LendingNftCollateral,
    token_id: Seq<char>,
    receipt_owner_id: Seq<char>,
    note_owner_id: Seq<char>,
) -> bool {
    note_owner_id != receipt_owner_id ==> match pre.loan_of(token_id) {
        Some(l) => pre.balance_of(note_owner_id) + l.value_after <= u128::MAX,
        None => true,
    }
}

/// Everything [`LendingNftCollateral::pay_loan`] promises of the state
/// `post` it leaves and the result `r` it returns, given the state `pre` it
/// started from.
pub open spec fn pay_loan_post(
    pre: LendingNftCollateral,
    post: LendingNftCollateral,
    r: Result<Vec<ExternalAction>, Error>,
    caller: Seq<char>,
    token_id: Seq<char>,
    receipt_owner_id: Seq<char>,
    note_owner_id: Seq<char>,
    now: u128,
) -> bool {
    &&& (r is Err ==> post == pre)
    &&& (caller != pre.receipt_address@ ==> r == Err::<Vec<ExternalAction>, Error>(
        Error::Unauthorized,
    ))
    &&& (caller == pre.receipt_address@ && !settle_allowed(pre.loans@, token_id) ==> r == Err::<
        Vec<ExternalAction>,
        Error,
    >(Error::OfferNotFound))
    &&& (caller == pre.receipt_address@ && (match pre.loan_of(token_id) {
        Some(l) => now > l.expiration_time,
        None => false,
    }) ==> r == Err::<Vec<ExternalAction>, Error>(Error::LoanExpired))
    &&& (caller == pre.receipt_address@ && (match pre.loan_of(token_id) {
        Some(l) => now <= l.expiration_time && pre.balance_of(receipt_owner_id) < l.value_after,
        None => false,
    }) ==> r == Err::<Vec<ExternalAction>, Error>(Error::InsufficientBalance))
    &&& (r is Ok <==> caller == pre.receipt_address@ && (match pre.loan_of(token_id) {
        Some(l) => now <= l.expiration_time && pre.balance_of(receipt_owner_id) >= l.value_after,
        None => false,
    }))
    &&& (r is Ok ==> ({
        let l = pre.loan_of(token_id).unwrap();
        &&& post.loans@ == settle_loan(pre.loans@, token_id)
        &&& (if note_owner_id == receipt_owner_id {
            post.balance_of(receipt_owner_id) == pre.balance_of(receipt_owner_id)
        } else {
            post.balance_of(receipt_owner_id) == pre.balance_of(receipt_owner_id) - l.value_after
                && post.balance_of(note_owner_id) == pre.balance_of(note_owner_id) + l.value_after
        })
        &&& forall|a: Seq<char>|
            a != receipt_owner_id && a != note_owner_id ==> post.balance_of(a) == pre.balance_of(a)
        &&& r.unwrap().deep_view() =~= seq![
            (ActionView::NftTransfer {
                contract_id: l.warranty_collection,
                receiver_id: receipt_owner_id,
                token_id: l.warranty_token_id,
            }),
            (ActionView::NftBurn { contract_id: pre.note_address@, token_id: token_id }),
            (ActionView::NftBurn { contract_id: pre.receipt_address@, token_id: token_id }),
        ]
    }))
    &&& LendingNftCollateral::same_config(pre, post)
    &&& LendingNftCollateral::same_books(pre, post)
    &&& post.nft_collections@ == pre.nft_collections@
    &&& post.token_id_counter == pre.token_id_counter
}

/// Everything [`LendingNftCollateral::transfer_warranty_loan`] promises of
/// the state `post` it leaves and the result `r` it returns, given the
/// state `pre` it started from.
pub open spec fn transfer_warranty_loan_post(
    pre: LendingNftCollateral,
    post: LendingNftCollateral,
    r: Result<Vec<ExternalAction>, Error>,
    caller: Seq<char>,
    token_id: Seq<char>,
    sender_owner_id: Seq<char>,
    now: u128,
) -> bool {
    &&& (r is Err ==> post == pre)
    &&& (caller != pre.note_address@ ==> r == Err::<Vec<ExternalAction>, Error>(
        Error::Unauthorized,
    ))
    &&& (caller == pre.note_address@ && !settle_allowed(pre.loans@, token_id) ==> r == Err::<
        Vec<ExternalAction>,
        Error,
    >(Error::OfferNotFound))
    &&& (caller == pre.note_address@ && (match pre.loan_of(token_id) {
        Some(l) => now <= l.expiration_time,
        None => false,
    }) ==> r == Err::<Vec<ExternalAction>, Error>(Error::NotYetExpired))
    &&& (r is Ok <==> caller == pre.note_address@ && (match pre.loan_of(token_id) {
        Some(l) => now > l.expiration_time,
        None => false,
    }))
    &&& (r is Ok ==> ({
        let l = pre.loan_of(token_id).unwrap();
        &&& post.loans@ == settle_loan(pre.loans@, token_id)
        &&& r.unwrap().deep_view() =~= seq![
            (ActionView::NftTransfer {
                contract_id: l.warranty_collection,
                receiver_id: sender_owner_id,
                token_id: l.warranty_token_id,
            }),
            (ActionView::NftBurn { contract_id: pre.note_address@, token_id: token_id }),
            (ActionView::NftBurn { contract_id: pre.receipt_address@, token_id: token_id }),
        ]
    }))
    &&& post.balances@ == pre.balances@
    &&& LendingNftCollateral::same_config(pre, post)
    &&& LendingNftCollateral::same_books(pre, post)
    &&& post.nft_collections@ == pre.nft_collections@
    &&& post.token_id_counter == pre.token_id_counter
}

impl LendingNftCollateral {
    /// Creates a loan of `loan_value` between the matched parties: persists
    /// the record under the next claim-token identifier, advances the
    /// counter, and hands back the minting of the two claim tokens — the
    /// note to the lender, the receipt to the borrower.
    pub fn post_loan(
        &mut self,
        lender_account_id: String,
        borrower_account_id: String,
        warranty_collection: String,
        warranty_token_id: String,
        loan_value: u128,
        now: u128,
    ) -> (r: Vec<ExternalAction>)
        requires
            old(self).wf(),
            now + old(self).loan_expiration_seconds_limit <= u128::MAX,
            loan_value_after(
                loan_value,
                old(self).interest_of(warranty_collection@),
                old(self).loan_expiration_seconds_limit,
            ) <= u128::MAX,
            old(self).token_id_counter < u128::MAX,
        ensures
            final(self).wf(),
            final(self).token_id_counter == old(self).token_id_counter + 1,
            final(self).loans@ == old(self).loans@.insert(
                dec_str(old(self).token_id_counter as nat),
                (LoanView {
                    value_before: loan_value,
                    value_after: loan_value_after(
                        loan_value,
                        old(self).interest_of(warranty_collection@),
                        old(self).loan_expiration_seconds_limit,
                    ) as u128,
                    expiration_time: (now + old(self).loan_expiration_seconds_limit) as u128,
                    warranty_collection: warranty_collection@,
                    warranty_token_id: warranty_token_id@,
                }),
            ),
            r.deep_view() =~= seq![
                (ActionView::NftMint {
                    contract_id: old(self).note_address@,
                    token_id: dec_str(old(self).token_id_counter as nat),
                    receiver_id: lender_account_id@,
                    loan_value: loan_value,
                    warranty_collection: warranty_collection@,
                    warranty_token_id: warranty_token_id@,
                }),
                (ActionView::NftMint {
                    contract_id: old(self).receipt_address@,
                    token_id: dec_str(old(self).token_id_counter as nat),
                    receiver_id: borrower_account_id@,
                    loan_value: loan_value,
                    warranty_collection: warranty_collection@,
                    warranty_token_id: warranty_token_id@,
                }),
            ],
            Self::same_config(*old(self), *final(self)),
            Self::same_books(*old(self), *final(self)),
            final(self).balances@ == old(self).balances@,
            final(self).nft_collections@ == old(self).nft_collections@,
    {
        let nft_collection_interest = self.get_nft_collection_interest(warranty_collection.clone());
        let expiration_time: u128 = now + self.loan_expiration_seconds_limit;
        let factor: u128 = self.loan_expiration_seconds_limit / SECONDS_IN_A_YEAR;
        let value_after: u128 = if factor == 0 {
            proof {
                assert(loan_value * nft_collection_interest * factor == 0) by (nonlinear_arith)
                    requires
                        factor == 0,
                ;
            }
            0
        } else {
            proof {
                assert(loan_value * nft_collection_interest <= u128::MAX) by (nonlinear_arith)
                    requires
                        factor >= 1,
                        loan_value * nft_collection_interest * factor <= u128::MAX,
                        loan_value >= 0,
                        nft_collection_interest >= 0,
                ;
                assert(loan_value * nft_collection_interest * factor >= 0) by (nonlinear_arith)
                    requires
                        loan_value >= 0,
                        nft_collection_interest >= 0,
                        factor >= 0,
                ;
            }
            loan_value * nft_collection_interest * factor
        };
        proof {
            assert(value_after == loan_value_after(
                loan_value,
                old(self).interest_of(warranty_collection@),
                old(self).loan_expiration_seconds_limit,
            ) as u128);
        }
        let token_id = u128_to_dec_string(self.token_id_counter);
        let loan = Loan {
            value_before: loan_value,
            value_after,
            expiration_time,
            warranty_collection: warranty_collection.clone(),
            warranty_token_id: warranty_token_id.clone(),
        };
        self.loans.insert(token_id.clone(), loan);
        let mut actions: Vec<ExternalAction> = Vec::new();
        actions.push(
            ExternalAction::NftMint {
                contract_id: self.note_address.clone(),
                token_id: token_id.clone(),
                receiver_id: lender_account_id,
                loan_value,
                warranty_collection: warranty_collection.clone(),
                warranty_token_id: warranty_token_id.clone(),
            },
        );
        actions.push(
            ExternalAction::NftMint {
                contract_id: self.receipt_address.clone(),
                token_id,
                receiver_id: borrower_account_id,
                loan_value,
                warranty_collection,
                warranty_token_id,
            },
        );
        self.token_id_counter = self.token_id_counter + 1;
        actions
    }

    /// Repays the live loan keyed `token_id`. Only the receipt contract may
    /// call this, for the receipt's holder `receipt_owner_id` (the borrower
    /// side); `note_owner_id` is the note's holder (the lender side), as
    /// the runtime resolved it. Debits the payoff from the receipt holder's
    /// escrow balance, credits it to the note holder, removes the loan, and
    /// hands back the return of the collateral to the receipt holder and
    /// the burning of both claim tokens. Fails, changing nothing, when the
    /// caller is not the receipt contract (`Unauthorized`), the loan is not
    /// live (`OfferNotFound`), its expiration has passed (`LoanExpired` —
    /// expiry is a hard deadline, the collateral then belongs to the
    /// default path), or the balance cannot cover the payoff
    /// (`InsufficientBalance`).
    pub fn pay_loan(
        &mut self,
        caller: &String,
        token_id: String,
        receipt_owner_id: &String,
        note_owner_id: &String,
        now: u128,
    ) -> (r: Result<Vec<ExternalAction>, Error>)
        requires
            old(self).wf(),
            pay_loan_pre(*old(self), token_id@, receipt_owner_id@, note_owner_id@),
        ensures
            final(self).wf(),
            pay_loan_post(
                *old(self),
                *final(self),
                r,
                caller@,
                token_id@,
                receipt_owner_id@,
                note_owner_id@,
                now,
            ),
    {
        // only the receipt contract can call this function
        if !(*caller == self.receipt_address) {
            return Err(Error::Unauthorized);
        }
        let loan = match self.loans.get(&token_id) {
            Some(l) => l.clone(),
            None => {
                return Err(Error::OfferNotFound);
            },
        };
        // expiry is a hard deadline: past it, only default may settle
        if now > loan.expiration_time {
            return Err(Error::LoanExpired);
        }
        match self.reduce_balance(receipt_owner_id, loan.value_after) {
            Ok(()) => (),
            Err(e) => {
                return Err(e);
            },
        }
        self.increase_balance(note_owner_id, loan.value_after);
        self.loans.remove(&token_id);
        let mut actions: Vec<ExternalAction> = Vec::new();
        actions.push(
            ExternalAction::NftTransfer {
                contract_id: loan.warranty_collection,
                receiver_id: receipt_owner_id.clone(),
                token_id: loan.warranty_token_id,
            },
        );
        actions.push(
            ExternalAction::NftBurn {
                contract_id: self.note_address.clone(),
                token_id: token_id.clone(),
            },
        );
        actions.push(
            ExternalAction::NftBurn { contract_id: self.receipt_address.clone(), token_id },
        );
        Ok(actions)
    }

    /// Claims default on the expired loan keyed `token_id`: transfers the
    /// collateral to `sender_owner_id` (the note's holder, the lender
    /// side), removes the loan, and hands back the burning of both claim
    /// tokens. Only the note contract may call this. Fails, changing
    /// nothing, when the caller is not the note contract (`Unauthorized`),
    /// the loan is not live (`OfferNotFound`), or its expiration has not
    /// passed yet (`NotYetExpired`).
    pub fn transfer_warranty_loan(
        &mut self,
        caller: &String,
        token_id: String,
        sender_owner_id: &String,
        now: u128,
    ) -> (r: Result<Vec<ExternalAction>, Error>)
        requires
            old(self).wf(),
        ensures
            final(self).wf(),
            transfer_warranty_loan_post(
                *old(self),
                *final(self),
                r,
                caller@,
                token_id@,
                sender_owner_id@,
                now,
            ),
    {
        // only the note contract can call this function
        if !(*caller == self.note_address) {
            return Err(Error::Unauthorized);
        }
        let loan = match self.loans.get(&token_id) {
            Some(l) => l.clone(),
            None => {
                return Err(Error::OfferNotFound);
            },
        };
        if loan.expiration_time >= now {
            return Err(Error::NotYetExpired);
        }
        self.loans.remove(&token_id);
        let mut actions: Vec<ExternalAction> = Vec::new();
        actions.push(
            ExternalAction::NftTransfer {
                contract_id: loan.warranty_collection,
                receiver_id: sender_owner_id.clone(),
                token_id: loan.warranty_token_id,
            },
        );
        actions.push(
            ExternalAction::NftBurn {
                contract_id: self.note_address.clone(),
                token_id: token_id.clone(),
            },
        );
        actions.push(
            ExternalAction::NftBurn { contract_id: self.receipt_address.clone(), token_id },
        );
        Ok(actions)
    }
}

} // verus!
