//! Walking a storage's stripe directory.
use vstd::prelude::*;
use crate::proto_structs::Stripe;
use crate::storage::Storage;

verus! {

/// A stripe of a storage: the storage, and the stripe's directory entry.
pub struct StripeReference<'a> {
    pub storage: &'a Storage,
    pub stripe: Stripe,
}

/// Hands out a storage's stripes in directory order.
pub struct StorageStripeIterator<'a> {
    current_stripe: usize,
    storage: &'a Storage,
}

impl<'a> StorageStripeIterator<'a> {
    pub closed spec fn position(&self) -> nat {
        self.current_stripe as nat
    }

    pub closed spec fn spec_storage(&self) -> Storage {
        *self.storage
    }

    /// Starts before the first stripe of `storage`.
    pub fn new(storage: &'a Storage) -> (r: StorageStripeIterator<'a>)
        ensures
            r.position() == 0,
            r.spec_storage() == *storage,
    {
        StorageStripeIterator { current_stripe: 0, storage }
    }

    /// The next stripe, or `None` once every stripe has been handed out.
    pub fn next(&mut self) -> (r: Option<StripeReference<'a>>)
        ensures
            final(self).spec_storage() == old(self).spec_storage(),
            old(self).position() < old(self).spec_storage().spec_stripes().len() ==> {
                &&& r matches Some(s) && *s.storage == old(self).spec_storage()
                    && s.stripe == old(self).spec_storage().spec_stripes()[old(self).position() as int]
                &&& final(self).position() == old(self).position() + 1
            },
            old(self).position() >= old(self).spec_storage().spec_stripes().len() ==> r is None
                && final(self).position() == old(self).position(),
    {
        let stripes = self.storage.stripes();
        if self.current_stripe >= stripes.len() {
            None
        } else {
            let stripe = stripes[self.current_stripe];
            self.current_stripe = self.current_stripe + 1;
            Some(StripeReference { storage: self.storage, stripe })
        }
    }
}

} // verus!
