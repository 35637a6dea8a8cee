use lending_contract::decimal::u128_to_dec_string;
use lending_contract::{LendingNftCollateral, Offer};

fn fresh() -> LendingNftCollateral {
    LendingNftCollateral::new("bob".to_string(), "charlie".to_string(), "danny".to_string())
}

fn lending_offer(offer_id: &str, owner: &str, value: u128) -> Offer {
    Offer {
        offer_id: offer_id.to_string(),
        owner_id: owner.to_string(),
        value,
        token_id: None,
    }
}

fn borrowing_offer(offer_id: &str, owner: &str, value: u128, token: &str) -> Offer {
    Offer {
        offer_id: offer_id.to_string(),
        owner_id: owner.to_string(),
        value,
        token_id: Some(token.to_string()),
    }
}

#[test]
fn test_evaluate_lending_offer_possible_match() {
    let mut contract = fresh();
    let nft_collection_id = "nft_collection_test".to_string();
    let new_vec = vec![
        borrowing_offer("offer_id_test1", "bob", 20, "token_id_test1"),
        borrowing_offer("offer_id_test2", "bob", 10, "token_id_test2"),
    ];
    contract
        .borrowing_offers_vecs
        .insert(nft_collection_id.clone(), new_vec);

    let result_true = contract.evaluate_lending_offer_possible_match(&nft_collection_id, 10);
    let result_true2 = contract.evaluate_lending_offer_possible_match(&nft_collection_id, 15);
    let result_false = contract.evaluate_lending_offer_possible_match(&nft_collection_id, 5);
    assert_eq!(result_true, true);
    assert_eq!(result_true2, true);
    assert_eq!(result_false, false);
}

#[test]
fn test_evaluate_borrowing_offer_possible_match() {
    let mut contract = fresh();
    let nft_collection_id = "nft_collection_test".to_string();
    let new_vec = vec![
        lending_offer("offer_id_test1", "bob", 20),
        lending_offer("offer_id_test2", "bob", 10),
    ];
    contract
        .lending_offers_vecs
        .insert(nft_collection_id.clone(), new_vec);

    let result_true = contract.evaluate_borrowing_offer_possible_match(&nft_collection_id, 10);
    let result_false = contract.evaluate_borrowing_offer_possible_match(&nft_collection_id, 15);
    let result_true2 = contract.evaluate_borrowing_offer_possible_match(&nft_collection_id, 5);
    assert_eq!(result_true, true);
    assert_eq!(result_true2, true);
    assert_eq!(result_false, false);
}

#[test]
fn test_reorder_vec_without_specific_lending_offer() {
    let contract = fresh();
    let mut offers_vec = vec![
        lending_offer("offer_id_test1", "bob", 3),
        lending_offer("offer_id_test2", "bob", 5),
        lending_offer("offer_id_test3", "bob", 10),
        lending_offer("offer_id_test4", "bob", 20),
    ];
    let removed = lending_offer("offer_id_test3", "bob", 10);
    contract
        .reorder_vec_without_specific_offer(&mut offers_vec, removed)
        .unwrap();
    // the removed offer is gone and the rest keep their order
    assert_eq!(offers_vec.len(), 3);
    assert_eq!(offers_vec[0].value, 3);
    assert_eq!(offers_vec[1].value, 5);
    assert_eq!(offers_vec[2].value, 20);
}

#[test]
fn test_reorder_vec_without_specific_borrowing_offer() {
    let contract = fresh();
    let mut offers_vec = vec![
        borrowing_offer("offer_id_test1", "bob", 50, "token_id1"),
        borrowing_offer("offer_id_test2", "bob", 20, "token_id2"),
        borrowing_offer("offer_id_test3", "bob", 15, "token_id3"),
        borrowing_offer("offer_id_test4", "bob", 8, "token_id4"),
    ];
    let removed = borrowing_offer("offer_id_test2", "bob", 20, "token_id2");
    contract
        .reorder_vec_without_specific_offer(&mut offers_vec, removed)
        .unwrap();
    assert_eq!(offers_vec[0].value, 50);
    assert_eq!(offers_vec[1].value, 15);
    assert_eq!(offers_vec[2].value, 8);
}

#[test]
fn test_reorder_vec_without_missing_offer_changes_nothing() {
    let contract = fresh();
    let mut offers_vec = vec![
        lending_offer("offer_id_test1", "bob", 3),
        lending_offer("offer_id_test2", "bob", 5),
    ];
    let removed = lending_offer("offer_id_test9", "bob", 5);
    let r = contract.reorder_vec_without_specific_offer(&mut offers_vec, removed);
    assert!(r.is_err());
    assert_eq!(offers_vec.len(), 2);
    assert_eq!(offers_vec[0].offer_id, "offer_id_test1");
    assert_eq!(offers_vec[1].offer_id, "offer_id_test2");
}

#[test]
fn test_get_lending_offers_vec_from_nft_collection() {
    let mut contract = fresh();
    let nft_collection_id = "nft_collection_test".to_string();
    let offer = lending_offer("offer_id_test", "bob", 10);
    contract
        .lending_offers_vecs
        .insert(nft_collection_id.clone(), vec![offer]);
    let result_lending_offers =
        contract.get_lending_offers_vec_from_nft_collection(nft_collection_id);
    assert_eq!(result_lending_offers[0].offer_id, "offer_id_test");
    assert_eq!(result_lending_offers[0].owner_id, "bob");
    assert_eq!(result_lending_offers[0].value, 10);
}

#[test]
fn test_get_borrowing_offers_vec_from_nft_collection() {
    let mut contract = fresh();
    let nft_collection_id = "nft_collection_test".to_string();
    let offer = lending_offer("offer_id_test", "bob", 10);
    contract
        .borrowing_offers_vecs
        .insert(nft_collection_id.clone(), vec![offer]);
    let result_borrowing_offers =
        contract.get_borrowing_offers_vec_from_nft_collection(nft_collection_id);
    assert_eq!(result_borrowing_offers[0].offer_id, "offer_id_test");
    assert_eq!(result_borrowing_offers[0].owner_id, "bob");
    assert_eq!(result_borrowing_offers[0].value, 10);
}

#[test]
fn test_sort_order_lending_offer_vec() {
    let contract = fresh();
    let new_vec: Vec<Offer> = Vec::new();
    let offer = lending_offer("offer_id_test", "bob", 10);

    // test with empty vector
    let ordered_offer_vec = contract.sort_order_lending_offer_vec(new_vec, offer);
    assert_eq!(ordered_offer_vec[0].value, 10);

    // test with a lower value
    let offer2 = lending_offer("offer_id_test", "bob", 5);
    let ordered_offer_vec2 = contract.sort_order_lending_offer_vec(ordered_offer_vec, offer2);
    assert_eq!(ordered_offer_vec2[0].value, 5);
    assert_eq!(ordered_offer_vec2[1].value, 10);

    // test with a higher value
    let offer3 = lending_offer("offer_id_test", "bob", 20);
    let ordered_offer_vec3 = contract.sort_order_lending_offer_vec(ordered_offer_vec2, offer3);
    assert_eq!(ordered_offer_vec3[0].value, 5);
    assert_eq!(ordered_offer_vec3[1].value, 10);
    assert_eq!(ordered_offer_vec3[2].value, 20);
}

#[test]
fn test_sort_order_borrowing_offer_vec() {
    let contract = fresh();
    let new_vec: Vec<Offer> = Vec::new();
    let offer = borrowing_offer("offer_id_test1", "bob", 10, "token_id1");

    // test with empty vector
    let ordered_offer_vec = contract.sort_order_borrowing_offer_vec(new_vec, offer);
    assert_eq!(ordered_offer_vec[0].value, 10);

    // test with a lower value
    let offer2 = borrowing_offer("offer_id_test2", "bob", 5, "token_id2");
    let ordered_offer_vec2 = contract.sort_order_borrowing_offer_vec(ordered_offer_vec, offer2);
    assert_eq!(ordered_offer_vec2[0].value, 10);
    assert_eq!(ordered_offer_vec2[1].value, 5);

    // test with a higher value
    let offer3 = borrowing_offer("offer_id_test3", "bob", 20, "token_id3");
    let ordered_offer_vec3 = contract.sort_order_borrowing_offer_vec(ordered_offer_vec2, offer3);
    assert_eq!(ordered_offer_vec3[0].value, 20);
    assert_eq!(ordered_offer_vec3[1].value, 10);
    assert_eq!(ordered_offer_vec3[2].value, 5);
}

#[test]
fn test_sort_order_stable_tie_break() {
    let contract = fresh();
    // a new offer of an already present value goes before the resting
    // equals, which stay nearer the tail and keep their priority
    let v1 = contract.sort_order_lending_offer_vec(Vec::new(), lending_offer("0", "bob", 10));
    let v2 = contract.sort_order_lending_offer_vec(v1, lending_offer("1", "bob", 10));
    assert_eq!(v2[0].offer_id, "1");
    assert_eq!(v2[1].offer_id, "0");
}

#[test]
fn test_u128_to_dec_string() {
    assert_eq!(u128_to_dec_string(0), "0");
    assert_eq!(u128_to_dec_string(7), "7");
    assert_eq!(u128_to_dec_string(10), "10");
    assert_eq!(u128_to_dec_string(12345), "12345");
    assert_eq!(u128_to_dec_string(u128::MAX), "340282366920938463463374607431768211455");
}
