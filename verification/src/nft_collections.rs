//! The registry of collateral collections: per-collection interest rate
//! and book creation at registration.

use vstd::prelude::*;

use crate::{LendingNftCollateral, Offer, OfferView};

verus! {

impl LendingNftCollateral {
    /// The interest rate of `nft_collection_id`, zero if it was never
    /// registered.
    pub fn get_nft_collection_interest(&self, nft_collection_id: String) -> (r: u128)
        requires
            self.wf(),
        ensures
            r == self.interest_of(nft_collection_id@),
    {
        match self.nft_collections.get(&nft_collection_id) {
            Some(v) => *v,
            None => 0,
        }
    }

    /// Sets the interest rate of `nft_collection_id`, registering the
    /// collection if it was unknown.
    pub fn set_nft_collection_interest(&mut self, nft_collection_id: String, interest: u128)
        requires
            old(self).wf(),
        ensures
            final(self).wf(),
            final(self).nft_collections@ == old(self).nft_collections@.insert(
                nft_collection_id@,
                interest,
            ),
            Self::same_config(*old(self), *final(self)),
            Self::same_books(*old(self), *final(self)),
            final(self).loans@ == old(self).loans@,
            final(self).balances@ == old(self).balances@,
            final(self).token_id_counter == old(self).token_id_counter,
    {
        self.nft_collections.insert(nft_collection_id, interest);
    }

    /// Registers a collateral collection: records its interest rate and
    /// gives it two empty order books.
    pub fn insert_new_nft_collection(&mut self, nft_collection_id: String, interest: u128)
        requires
            old(self).wf(),
        ensures
            final(self).wf(),
            final(self).nft_collections@ == old(self).nft_collections@.insert(
                nft_collection_id@,
                interest,
            ),
            final(self).lending_offers_vecs@ == old(self).lending_offers_vecs@.insert(
                nft_collection_id@,
                Seq::<OfferView>::empty(),
            ),
            final(self).borrowing_offers_vecs@ == old(self).borrowing_offers_vecs@.insert(
                nft_collection_id@,
                Seq::<OfferView>::empty(),
            ),
            final(self).current_lending_offer_id@ == old(self).current_lending_offer_id@,
            final(self).current_borrowing_offer_id@ == old(self).current_borrowing_offer_id@,
            Self::same_config(*old(self), *final(self)),
            final(self).loans@ == old(self).loans@,
            final(self).balances@ == old(self).balances@,
            final(self).token_id_counter == old(self).token_id_counter,
    {
        self.set_nft_collection_interest(nft_collection_id.clone(), interest);
        let new_lending_vec: Vec<Offer> = Vec::new();
        proof {
            assert(new_lending_vec.deep_view() =~= Seq::<OfferView>::empty());
        }
        self.lending_offers_vecs.insert(nft_collection_id.clone(), new_lending_vec);
        let new_borrowing_vec: Vec<Offer> = Vec::new();
        proof {
            assert(new_borrowing_vec.deep_view() =~= Seq::<OfferView>::empty());
        }
        self.borrowing_offers_vecs.insert(nft_collection_id, new_borrowing_vec);
    }
}

} // verus!
