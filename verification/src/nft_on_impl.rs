//! The inbound trigger from a non-fungible-token contract: a token arrives
//! together with an instruction, and the engine posts a borrowing offer
//! backed by it, repays the loan it is the receipt of, or claims default on
//! the loan it is the note of.
//!
//! The runtime decodes the transfer's message into an [`Instruction`]
//! before calling in; a message that decodes to no instruction fails the
//! whole inbound call with `MalformedInstruction`.

use vstd::prelude::*;

use crate::loan::{pay_loan_post, pay_loan_pre, transfer_warranty_loan_post};
use crate::{
    post_borrowing_offer_post, post_borrowing_offer_pre, Error, ExternalAction,
    LendingNftCollateral,
};

verus! {

/// One decoded inbound instruction, carried by the message of a token
/// transfer.
pub enum Instruction {
    /// Post a borrowing offer of `value_offered`, backed by the
    /// transferred token as collateral.
    PostBorrowingOffer { value_offered: u128 },
    /// Repay the loan whose receipt is the transferred token;
    /// `note_owner_id` is the note's holder, to be credited with the
    /// payoff.
    PayLoan { note_owner_id: String },
    /// Claim default on the expired loan whose note is the transferred
    /// token.
    TransferWarranty,
}

impl LendingNftCollateral {
    /// Handles a token transferred into the contract: dispatches on the
    /// decoded instruction. The caller is the token's contract —
    /// collateral arrives from its collection, a receipt from the receipt
    /// contract, a note from the note contract — and `previous_owner_id`
    /// is who held the token before the transfer. On success the first
    /// component is `false`: the engine keeps the token. A message that
    /// decoded to no instruction fails with `MalformedInstruction`, and a
    /// failure of the dispatched operation is the failure of the whole
    /// inbound call; either way nothing changes.
    pub fn nft_on_transfer(
        &mut self,
        sender_id: String,
        previous_owner_id: String,
        token_id: String,
        instruction: Option<Instruction>,
        caller: &String,
        now: u128,
    ) -> (r: Result<(bool, Vec<ExternalAction>), Error>)
        requires
            old(self).wf(),
            instruction matches Some(Instruction::PostBorrowingOffer { value_offered })
                ==> post_borrowing_offer_pre(*old(self), caller@, value_offered, now),
            instruction matches Some(Instruction::PayLoan { note_owner_id }) ==> pay_loan_pre(
                *old(self),
                token_id@,
                previous_owner_id@,
                note_owner_id@,
            ),
        ensures
            final(self).wf(),
            r is Err ==> *final(self) == *old(self),
            r matches Ok(p) ==> p.0 == false,
            instruction is None ==> r == Err::<(bool, Vec<ExternalAction>), Error>(
                Error::MalformedInstruction,
            ),
            instruction matches Some(Instruction::PostBorrowingOffer { value_offered })
                ==> post_borrowing_offer_post(
                *old(self),
                *final(self),
                (match r {
                    Ok(p) => Ok::<(bool, Vec<ExternalAction>), Error>(
                        (
                            !old(self).borrowing_offer_matches(caller@, value_offered),
                            p.1,
                        ),
                    ),
                    Err(e) => Err(e),
                }),
                caller@,
                value_offered,
                token_id@,
                previous_owner_id@,
                now,
            ),
            instruction matches Some(Instruction::PayLoan { note_owner_id }) ==> pay_loan_post(
                *old(self),
                *final(self),
                (match r {
                    Ok(p) => Ok(p.1),
                    Err(e) => Err(e),
                }),
                caller@,
                token_id@,
                previous_owner_id@,
                note_owner_id@,
                now,
            ),
            instruction matches Some(Instruction::TransferWarranty)
                ==> transfer_warranty_loan_post(
                *old(self),
                *final(self),
                (match r {
                    Ok(p) => Ok(p.1),
                    Err(e) => Err(e),
                }),
                caller@,
                token_id@,
                sender_id@,
                now,
            ),
    {
        match instruction {
            Some(Instruction::PostBorrowingOffer { value_offered }) => {
                match self.post_borrowing_offer(
                    caller.clone(),
                    value_offered,
                    token_id,
                    previous_owner_id,
                    now,
                ) {
                    Ok((_, actions)) => Ok((false, actions)),
                    Err(e) => Err(e),
                }
            },
            Some(Instruction::PayLoan { note_owner_id }) => {
                match self.pay_loan(caller, token_id, &previous_owner_id, &note_owner_id, now) {
                    Ok(actions) => Ok((false, actions)),
                    Err(e) => Err(e),
                }
            },
            Some(Instruction::TransferWarranty) => {
                match self.transfer_warranty_loan(caller, token_id, &sender_id, now) {
                    Ok(actions) => Ok((false, actions)),
                    Err(e) => Err(e),
                }
            },
            None => Err(Error::MalformedInstruction),
        }
    }
}

} // verus!
