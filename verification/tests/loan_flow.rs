use lending_contract::nft_on_impl::Instruction;
use lending_contract::{Error, ExternalAction, LendingNftCollateral, SECONDS_IN_A_YEAR};

const NOTE: &str = "charlie";
const RECEIPT: &str = "danny";

fn fresh() -> LendingNftCollateral {
    LendingNftCollateral::new("bob".to_string(), NOTE.to_string(), RECEIPT.to_string())
}

#[test]
fn test_matching_crosses_best_borrowing_offer() {
    let mut contract = fresh();
    let cid = "nft_collection_test".to_string();
    contract.insert_new_nft_collection(cid.clone(), 1);
    // resting borrowing offers valued 20 and 10 (descending, best = 10)
    contract
        .post_borrowing_offer(cid.clone(), 20, "token_a".to_string(), "eugene".to_string(), 0)
        .unwrap();
    contract
        .post_borrowing_offer(cid.clone(), 10, "token_b".to_string(), "fargo".to_string(), 0)
        .unwrap();

    // a lending offer of 15 crosses the best ask of 10
    let alice = "alice".to_string();
    let (queued, actions) = contract.post_lending_offer(cid.clone(), 15, &alice, 0).unwrap();
    assert_eq!(queued, false);
    // the loan is created over the incoming offer's value
    let loan = contract.loans.get(&"0".to_string()).unwrap();
    assert_eq!(loan.value_before, 15);
    assert_eq!(loan.warranty_token_id, "token_b");
    // the matched offer left its book; no resting lending offer appeared
    let bbook = contract.get_borrowing_offers_vec_from_nft_collection(cid.clone());
    assert_eq!(bbook.len(), 1);
    assert_eq!(bbook[0].value, 20);
    assert!(contract
        .get_lending_offers_vec_from_nft_collection(cid.clone())
        .is_empty());
    // both claim tokens are minted: the note to the lender, the receipt to
    // the borrower
    assert_eq!(actions.len(), 2);
    match &actions[0] {
        ExternalAction::NftMint { contract_id, receiver_id, token_id, .. } => {
            assert_eq!(contract_id, NOTE);
            assert_eq!(receiver_id, "alice");
            assert_eq!(token_id, "0");
        }
        _ => panic!("expected a mint"),
    }
    match &actions[1] {
        ExternalAction::NftMint { contract_id, receiver_id, .. } => {
            assert_eq!(contract_id, RECEIPT);
            assert_eq!(receiver_id, "fargo");
        }
        _ => panic!("expected a mint"),
    }
}

#[test]
fn test_lower_lending_offer_rests_instead_of_matching() {
    let mut contract = fresh();
    let cid = "nft_collection_test".to_string();
    contract.insert_new_nft_collection(cid.clone(), 1);
    contract
        .post_borrowing_offer(cid.clone(), 20, "token_a".to_string(), "eugene".to_string(), 0)
        .unwrap();
    // best ask is 20; a lending offer of 15 does not cross and rests
    let alice = "alice".to_string();
    let (queued, actions) = contract.post_lending_offer(cid.clone(), 15, &alice, 0).unwrap();
    assert_eq!(queued, true);
    assert!(actions.is_empty());
    let book = contract.get_lending_offers_vec_from_nft_collection(cid);
    assert_eq!(book.len(), 1);
    assert_eq!(book[0].value, 15);
    assert_eq!(book[0].owner_id, "alice");
}

#[test]
fn test_loan_value_after_one_year() {
    let mut contract = fresh();
    let cid = "collection".to_string();
    contract.insert_new_nft_collection(cid.clone(), 1);
    // a term of exactly one year at rate 1: repaying 100 costs 100
    contract.loan_expiration_seconds_limit = SECONDS_IN_A_YEAR;
    contract.post_loan(
        "lender".to_string(),
        "borrower".to_string(),
        cid,
        "token".to_string(),
        100,
        0,
    );
    let loan = contract.loans.get(&"0".to_string()).unwrap();
    assert_eq!(loan.value_before, 100);
    assert_eq!(loan.value_after, 100);
    assert_eq!(loan.expiration_time, SECONDS_IN_A_YEAR);
}

#[test]
fn test_loan_value_after_multi_year_and_rate() {
    let mut contract = fresh();
    let cid = "collection".to_string();
    contract.insert_new_nft_collection(cid.clone(), 3);
    // two years at rate 3: repaying 100 costs 100 * 3 * 2 = 600
    contract.loan_expiration_seconds_limit = 2 * SECONDS_IN_A_YEAR;
    contract.post_loan(
        "lender".to_string(),
        "borrower".to_string(),
        cid,
        "token".to_string(),
        100,
        0,
    );
    let loan = contract.loans.get(&"0".to_string()).unwrap();
    assert_eq!(loan.value_after, 600);
}

#[test]
fn test_loan_value_after_short_term_truncates_to_zero() {
    let mut contract = fresh();
    let cid = "collection".to_string();
    contract.insert_new_nft_collection(cid.clone(), 1);
    // the default fifteen-day term is under a year: whole-year interest
    // truncates to nothing
    contract.post_loan(
        "lender".to_string(),
        "borrower".to_string(),
        cid,
        "token".to_string(),
        100,
        0,
    );
    let loan = contract.loans.get(&"0".to_string()).unwrap();
    assert_eq!(loan.value_after, 0);
}

#[test]
fn test_pay_loan_settles_and_removes() {
    let mut contract = fresh();
    let cid = "collection".to_string();
    contract.insert_new_nft_collection(cid.clone(), 1);
    contract.loan_expiration_seconds_limit = SECONDS_IN_A_YEAR;
    contract.post_loan(
        "lender".to_string(),
        "borrower".to_string(),
        cid,
        "token".to_string(),
        100,
        0,
    );
    let borrower = "borrower".to_string();
    let lender = "lender".to_string();
    contract.deposit_balance(&borrower, 100);

    let receipt = RECEIPT.to_string();
    let actions = contract
        .pay_loan(&receipt, "0".to_string(), &borrower, &lender, 10)
        .unwrap();
    // the payoff moved from the borrower to the lender
    assert_eq!(contract.get_balance_value(borrower.clone()), 0);
    assert_eq!(contract.get_balance_value(lender.clone()), 100);
    // the collateral returns and both claim tokens burn
    assert_eq!(actions.len(), 3);
    match &actions[0] {
        ExternalAction::NftTransfer { contract_id, receiver_id, token_id } => {
            assert_eq!(contract_id, "collection");
            assert_eq!(receiver_id, "borrower");
            assert_eq!(token_id, "token");
        }
        _ => panic!("expected a transfer"),
    }
    assert!(matches!(&actions[1], ExternalAction::NftBurn { contract_id, .. } if contract_id == NOTE));
    assert!(matches!(&actions[2], ExternalAction::NftBurn { contract_id, .. } if contract_id == RECEIPT));
    // the loan record is gone: repaying again fails
    assert!(contract.loans.get(&"0".to_string()).is_none());
    let again = contract.pay_loan(&receipt, "0".to_string(), &borrower, &lender, 10);
    assert!(matches!(again, Err(Error::OfferNotFound)));
}

#[test]
fn test_pay_loan_insufficient_balance() {
    let mut contract = fresh();
    let cid = "collection".to_string();
    contract.insert_new_nft_collection(cid.clone(), 1);
    contract.loan_expiration_seconds_limit = SECONDS_IN_A_YEAR;
    contract.post_loan(
        "lender".to_string(),
        "borrower".to_string(),
        cid,
        "token".to_string(),
        100,
        0,
    );
    let borrower = "borrower".to_string();
    let lender = "lender".to_string();
    contract.deposit_balance(&borrower, 99);
    let receipt = RECEIPT.to_string();
    let r = contract.pay_loan(&receipt, "0".to_string(), &borrower, &lender, 10);
    assert!(matches!(r, Err(Error::InsufficientBalance)));
    // nothing moved and the loan is still live
    assert_eq!(contract.get_balance_value(borrower), 99);
    assert!(contract.loans.get(&"0".to_string()).is_some());
}

#[test]
fn test_pay_loan_unauthorized_and_expired() {
    let mut contract = fresh();
    let cid = "collection".to_string();
    contract.insert_new_nft_collection(cid.clone(), 1);
    contract.loan_expiration_seconds_limit = 1000;
    contract.post_loan(
        "lender".to_string(),
        "borrower".to_string(),
        cid,
        "token".to_string(),
        100,
        0,
    );
    let borrower = "borrower".to_string();
    let lender = "lender".to_string();
    contract.deposit_balance(&borrower, 100);

    // only the receipt contract may trigger repayment
    let stranger = "eugene".to_string();
    let r = contract.pay_loan(&stranger, "0".to_string(), &borrower, &lender, 10);
    assert!(matches!(r, Err(Error::Unauthorized)));

    // past the expiration the loan can no longer be repaid
    let receipt = RECEIPT.to_string();
    let r = contract.pay_loan(&receipt, "0".to_string(), &borrower, &lender, 1001);
    assert!(matches!(r, Err(Error::LoanExpired)));
    assert!(contract.loans.get(&"0".to_string()).is_some());
}

#[test]
fn test_claim_default_only_after_expiration() {
    let mut contract = fresh();
    let cid = "collection".to_string();
    contract.insert_new_nft_collection(cid.clone(), 1);
    contract.loan_expiration_seconds_limit = 1000;
    contract.post_loan(
        "lender".to_string(),
        "borrower".to_string(),
        cid,
        "token".to_string(),
        100,
        0,
    );
    let note = NOTE.to_string();
    let lender = "lender".to_string();

    // before the expiration time passes, default cannot be claimed
    let r = contract.transfer_warranty_loan(&note, "0".to_string(), &lender, 1000);
    assert!(matches!(r, Err(Error::NotYetExpired)));
    assert!(contract.loans.get(&"0".to_string()).is_some());

    // only the note contract may claim it
    let stranger = "eugene".to_string();
    let r = contract.transfer_warranty_loan(&stranger, "0".to_string(), &lender, 1001);
    assert!(matches!(r, Err(Error::Unauthorized)));

    // after expiration the collateral goes to the claimant and the loan is
    // removed
    let actions = contract
        .transfer_warranty_loan(&note, "0".to_string(), &lender, 1001)
        .unwrap();
    assert_eq!(actions.len(), 3);
    match &actions[0] {
        ExternalAction::NftTransfer { contract_id, receiver_id, token_id } => {
            assert_eq!(contract_id, "collection");
            assert_eq!(receiver_id, "lender");
            assert_eq!(token_id, "token");
        }
        _ => panic!("expected a transfer"),
    }
    assert!(contract.loans.get(&"0".to_string()).is_none());
    // a settled loan can never be defaulted again
    let again = contract.transfer_warranty_loan(&note, "0".to_string(), &lender, 1002);
    assert!(matches!(again, Err(Error::OfferNotFound)));
}

#[test]
fn test_nft_on_transfer_posts_borrowing_offer() {
    let mut contract = fresh();
    let cid = "collection".to_string();
    contract.insert_new_nft_collection(cid.clone(), 1);
    let r = contract
        .nft_on_transfer(
            "eugene".to_string(),
            "fargo".to_string(),
            "token_7".to_string(),
            Some(Instruction::PostBorrowingOffer { value_offered: 42 }),
            &cid,
            0,
        )
        .unwrap();
    // the engine keeps the token as collateral of the resting offer
    assert_eq!(r.0, false);
    let book = contract.get_borrowing_offers_vec_from_nft_collection(cid);
    assert_eq!(book.len(), 1);
    assert_eq!(book[0].value, 42);
    assert_eq!(book[0].owner_id, "fargo");
    assert_eq!(book[0].token_id.as_deref(), Some("token_7"));
}

#[test]
fn test_nft_on_transfer_pays_loan() {
    let mut contract = fresh();
    let cid = "collection".to_string();
    contract.insert_new_nft_collection(cid.clone(), 1);
    contract.loan_expiration_seconds_limit = SECONDS_IN_A_YEAR;
    contract.post_loan(
        "lender".to_string(),
        "borrower".to_string(),
        cid,
        "token".to_string(),
        100,
        0,
    );
    let borrower = "borrower".to_string();
    contract.deposit_balance(&borrower, 100);
    // the borrower sends the receipt token back with a repay instruction
    let receipt = RECEIPT.to_string();
    let r = contract
        .nft_on_transfer(
            "borrower".to_string(),
            "borrower".to_string(),
            "0".to_string(),
            Some(Instruction::PayLoan { note_owner_id: "lender".to_string() }),
            &receipt,
            10,
        )
        .unwrap();
    assert_eq!(r.0, false);
    assert!(contract.loans.get(&"0".to_string()).is_none());
    assert_eq!(contract.get_balance_value("lender".to_string()), 100);
}

#[test]
fn test_nft_on_transfer_claims_default() {
    let mut contract = fresh();
    let cid = "collection".to_string();
    contract.insert_new_nft_collection(cid.clone(), 1);
    contract.loan_expiration_seconds_limit = 1000;
    contract.post_loan(
        "lender".to_string(),
        "borrower".to_string(),
        cid,
        "token".to_string(),
        100,
        0,
    );
    // the lender sends the note token back to claim the collateral
    let note = NOTE.to_string();
    let r = contract
        .nft_on_transfer(
            "lender".to_string(),
            "lender".to_string(),
            "0".to_string(),
            Some(Instruction::TransferWarranty),
            &note,
            1001,
        )
        .unwrap();
    assert_eq!(r.0, false);
    assert!(contract.loans.get(&"0".to_string()).is_none());
}

#[test]
fn test_nft_on_transfer_malformed_instruction() {
    let mut contract = fresh();
    let cid = "collection".to_string();
    contract.insert_new_nft_collection(cid.clone(), 1);
    let r = contract.nft_on_transfer(
        "eugene".to_string(),
        "fargo".to_string(),
        "token_7".to_string(),
        None,
        &cid,
        0,
    );
    assert!(matches!(r, Err(Error::MalformedInstruction)));
    assert!(contract
        .get_borrowing_offers_vec_from_nft_collection(cid)
        .is_empty());
}
