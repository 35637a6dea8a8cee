//! The escrow ledger: per-account spendable funds used to settle loans and
//! absorb storage-rent deltas.
//!
//! Balances are unsigned and every debit checks the funds first, so no
//! sequence of operations can drive a balance below zero: an operation that
//! would do so fails and leaves the ledger exactly as it was.

use vstd::prelude::*;

use crate::{ActionView, Error, ExternalAction, LendingNftCollateral};

verus! {

/// One escrow-ledger operation: a credit or a debit of one account.
pub enum LedgerOp {
    Credit { account: Seq<char>, amount: u128 },
    Debit { account: Seq<char>, amount: u128 },
}

/// The balance of `account` in the ledger `m`, zero when the account never
/// appeared.
pub open spec fn ledger_balance(m: Map<Seq<char>, u128>, account: Seq<char>) -> u128 {
    if m.contains_key(account) {
        m[account]
    } else {
        0
    }
}

/// One operation applied to the ledger. A debit of more than the account
/// holds, or a credit past the representable maximum, fails and leaves the
/// ledger unchanged.
pub open spec fn apply_ledger_op(m: Map<Seq<char>, u128>, op: LedgerOp) -> Map<Seq<char>, u128> {
    match op {
        LedgerOp::Credit { account, amount } => {
            if ledger_balance(m, account) + amount <= u128::MAX {
                m.insert(account, (ledger_balance(m, account) + amount) as u128)
            } else {
                m
            }
        },
        LedgerOp::Debit { account, amount } => {
            if amount <= ledger_balance(m, account) {
                m.insert(account, (ledger_balance(m, account) - amount) as u128)
            } else {
                m
            }
        },
    }
}

/// The ledger after a whole sequence of operations, applied in order.
pub open spec fn apply_ledger_ops(m: Map<Seq<char>, u128>, ops: Seq<LedgerOp>) -> Map<
    Seq<char>,
    u128,
>
    decreases ops.len(),
{
    if ops.len() == 0 {
        m
    } else {
        apply_ledger_op(apply_ledger_ops(m, ops.drop_last()), ops.last())
    }
}

/// Balance non-negativity: no sequence of credits and debits — deposits,
/// withdrawals, storage charges and refunds, loan settlements — drives any
/// account's balance below zero. Balances are unsigned, and the one
/// operation that could sink below zero, an uncovered debit, fails without
/// touching the ledger, as [`lemma_failed_op_changes_nothing`] states.
pub proof fn lemma_balance_non_negative(
    m: Map<Seq<char>, u128>,
    ops: Seq<LedgerOp>,
    account: Seq<char>,
)
    ensures
        0 <= ledger_balance(apply_ledger_ops(m, ops), account),
{
}

/// An operation that cannot be honoured — an uncovered debit, or a credit
/// past the representable maximum — leaves the ledger exactly as it was.
pub proof fn lemma_failed_op_changes_nothing(m: Map<Seq<char>, u128>, op: LedgerOp)
    requires
        match op {
            LedgerOp::Credit { account, amount } => ledger_balance(m, account) + amount
                > u128::MAX,
            LedgerOp::Debit { account, amount } => amount > ledger_balance(m, account),
        },
    ensures
        apply_ledger_op(m, op) == m,
{
}

impl LendingNftCollateral {
    /// The escrow balance of `owner_id`, zero if the account never
    /// appeared.
    pub fn get_balance_value(&self, owner_id: String) -> (r: u128)
        requires
            self.wf(),
        ensures
            r == self.balance_of(owner_id@),
    {
        match self.balances.get(&owner_id) {
            Some(v) => *v,
            None => 0,
        }
    }

    /// Credits `value` to `caller`'s escrow balance.
    pub fn increase_balance(&mut self, caller: &String, value: u128)
        requires
            old(self).wf(),
            old(self).balance_of(caller@) + value <= u128::MAX,
        ensures
            final(self).wf(),
            final(self).balances@ == apply_ledger_op(
                old(self).balances@,
                LedgerOp::Credit { account: caller@, amount: value },
            ),
            final(self).balance_of(caller@) == old(self).balance_of(caller@) + value,
            forall|a: Seq<char>|
                a != caller@ ==> final(self).balance_of(a) == old(self).balance_of(a),
            Self::same_config(*old(self), *final(self)),
            Self::same_books(*old(self), *final(self)),
            final(self).loans@ == old(self).loans@,
            final(self).nft_collections@ == old(self).nft_collections@,
            final(self).token_id_counter == old(self).token_id_counter,
    {
        let current: u128 = self.get_balance_value(caller.clone());
        self.balances.insert(caller.clone(), current + value);
    }

    /// Deposits the value the caller attached to the call into their escrow
    /// balance.
    pub fn deposit_balance(&mut self, caller: &String, attached_deposit: u128)
        requires
            old(self).wf(),
            old(self).balance_of(caller@) + attached_deposit <= u128::MAX,
        ensures
            final(self).wf(),
            final(self).balance_of(caller@) == old(self).balance_of(caller@) + attached_deposit,
            forall|a: Seq<char>|
                a != caller@ ==> final(self).balance_of(a) == old(self).balance_of(a),
            Self::same_config(*old(self), *final(self)),
            Self::same_books(*old(self), *final(self)),
            final(self).loans@ == old(self).loans@,
            final(self).nft_collections@ == old(self).nft_collections@,
            final(self).token_id_counter == old(self).token_id_counter,
    {
        self.increase_balance(caller, attached_deposit);
    }

    /// Debits `value_to_reduce` from `caller`'s escrow balance. Fails with
    /// `InsufficientBalance`, changing nothing, when the balance is
    /// smaller.
    pub fn reduce_balance(&mut self, caller: &String, value_to_reduce: u128) -> (r: Result<
        (),
        Error,
    >)
        requires
            old(self).wf(),
        ensures
            final(self).wf(),
            r is Ok <==> value_to_reduce <= old(self).balance_of(caller@),
            r is Err ==> r == Err::<(), Error>(Error::InsufficientBalance)
                && *final(self) == *old(self),
            final(self).balances@ == apply_ledger_op(
                old(self).balances@,
                LedgerOp::Debit { account: caller@, amount: value_to_reduce },
            ),
            r is Ok ==> final(self).balance_of(caller@) == old(self).balance_of(caller@)
                - value_to_reduce,
            forall|a: Seq<char>|
                a != caller@ ==> final(self).balance_of(a) == old(self).balance_of(a),
            Self::same_config(*old(self), *final(self)),
            Self::same_books(*old(self), *final(self)),
            final(self).loans@ == old(self).loans@,
            final(self).nft_collections@ == old(self).nft_collections@,
            final(self).token_id_counter == old(self).token_id_counter,
    {
        let current: u128 = self.get_balance_value(caller.clone());
        if value_to_reduce <= current {
            self.balances.insert(caller.clone(), current - value_to_reduce);
            Ok(())
        } else {
            Err(Error::InsufficientBalance)
        }
    }

    /// Debits `value_to_reduce` from `caller`'s escrow balance and hands
    /// back the transfer of that value to the caller, for the runtime to
    /// perform. Fails with `InsufficientBalance`, changing nothing, when
    /// the balance is smaller.
    pub fn reduce_and_withdraw_balance(&mut self, caller: &String, value_to_reduce: u128) -> (r:
        Result<ExternalAction, Error>)
        requires
            old(self).wf(),
        ensures
            final(self).wf(),
            r is Ok <==> value_to_reduce <= old(self).balance_of(caller@),
            r is Err ==> r == Err::<ExternalAction, Error>(Error::InsufficientBalance)
                && *final(self) == *old(self),
            r matches Ok(a) ==> a@ == (ActionView::ValueTransfer {
                receiver_id: caller@,
                amount: value_to_reduce,
            }),
            r is Ok ==> final(self).balance_of(caller@) == old(self).balance_of(caller@)
                - value_to_reduce,
            forall|a: Seq<char>|
                a != caller@ ==> final(self).balance_of(a) == old(self).balance_of(a),
            Self::same_config(*old(self), *final(self)),
            Self::same_books(*old(self), *final(self)),
            final(self).loans@ == old(self).loans@,
            final(self).nft_collections@ == old(self).nft_collections@,
            final(self).token_id_counter == old(self).token_id_counter,
    {
        match self.reduce_balance(caller, value_to_reduce) {
            Ok(()) => Ok(
                ExternalAction::ValueTransfer {
                    receiver_id: caller.clone(),
                    amount: value_to_reduce,
                },
            ),
            Err(e) => Err(e),
        }
    }
}

} // verus!
