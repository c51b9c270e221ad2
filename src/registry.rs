use vstd::prelude::*;

use crate::model::{
    confirmation_text, create_allowed, spec_create, spec_update, spec_verify, update_allowed, verify_matches,
    DidView, RegistryView,
};

verus! {

/// A DID record: a wallet bound to an enrolled biometric hash.
pub struct BiometricDID {
    pub wallet_address: String,
    pub biometric_hash: String,
    pub created_at: u64,
    pub is_verified: bool,
}

impl View for BiometricDID {
    type V = DidView;

    open spec fn view(&self) -> DidView {
        DidView {
            identity: self.wallet_address@,
            credential_hash: self.biometric_hash@,
            created_at: self.created_at,
            verified: self.is_verified,
        }
    }
}

impl BiometricDID {
    /// A field-by-field copy of the record.
    pub fn copy(&self) -> (r: BiometricDID)
        ensures
            r@ == self@,
    {
        BiometricDID {
            wallet_address: self.wallet_address.clone(),
            biometric_hash: self.biometric_hash.clone(),
            created_at: self.created_at,
            is_verified: self.is_verified,
        }
    }
}

/// Why a creation was refused.
#[derive(PartialEq, Eq, Structural, Debug, Clone, Copy)]
pub enum DidError {
    AlreadyExists,
}

/// The identity registry: at most one record per wallet.
pub struct BiometricContract {
    records: Vec<BiometricDID>,
}

impl View for BiometricContract {
    type V = RegistryView;

    closed spec fn view(&self) -> RegistryView {
        Map::new(
            |k: Seq<char>| exists|i: int| 0 <= i < self.records.len() && self.records[i].wallet_address@ == k,
            |k: Seq<char>|
                self.records[choose|i: int| 0 <= i < self.records.len() && self.records[i].wallet_address@ == k]@,
        )
    }
}

impl BiometricContract {
    /// Well-formedness: no two records share a wallet.
    pub closed spec fn wf(&self) -> bool {
        forall|i: int, j: int|
            0 <= i < self.records.len() && 0 <= j < self.records.len() && i != j
                ==> self.records[i].wallet_address@ != self.records[j].wallet_address@
    }

    proof fn lemma_view_at(&self, i: int)
        requires
            self.wf(),
            0 <= i < self.records.len(),
        ensures
            self@.contains_key(self.records[i].wallet_address@),
            self@[self.records[i].wallet_address@] == self.records[i]@,
    {
        let k = self.records[i].wallet_address@;
        assert(0 <= i < self.records.len() && self.records[i].wallet_address@ == k);
        let j = choose|j: int| 0 <= j < self.records.len() && self.records[j].wallet_address@ == k;
        assert(j == i);
    }

    proof fn lemma_view_push(a: &Self, b: &Self, rec: BiometricDID)
        requires
            a.wf(),
            !a@.contains_key(rec.wallet_address@),
            b.records@ == a.records@.push(rec),
        ensures
            b.wf(),
            b@ == a@.insert(rec.wallet_address@, rec@),
    {
        let n = a.records.len() as int;
        assert forall|i: int| 0 <= i < n implies a.records[i].wallet_address@ != rec.wallet_address@ by {
            a.lemma_view_at(i);
        }
        assert(b.wf());
        assert forall|k: Seq<char>| b@.contains_key(k) <==> a@.insert(rec.wallet_address@, rec@).contains_key(k) by {
            if a@.contains_key(k) {
                let j = choose|j: int| 0 <= j < n && a.records[j].wallet_address@ == k;
                assert(b.records[j] == a.records[j]);
            }
            if k == rec.wallet_address@ {
                assert(b.records[n] == rec);
            }
        }
        assert forall|k: Seq<char>| #[trigger] b@.contains_key(k) implies b@[k] == a@.insert(rec.wallet_address@, rec@)[k] by {
            let j = choose|j: int| 0 <= j < n + 1 && b.records[j].wallet_address@ == k;
            b.lemma_view_at(j);
            if j < n {
                assert(b.records[j] == a.records[j]);
                a.lemma_view_at(j);
            }
        }
        assert(b@ =~= a@.insert(rec.wallet_address@, rec@));
    }

    proof fn lemma_view_set(a: &Self, b: &Self, i: int, rec: BiometricDID)
        requires
            a.wf(),
            0 <= i < a.records.len(),
            rec.wallet_address@ == a.records[i].wallet_address@,
            b.records@ == a.records@.update(i, rec),
        ensures
            b.wf(),
            b@ == a@.insert(rec.wallet_address@, rec@),
    {
        let n = a.records.len() as int;
        assert(b.wf());
        assert forall|k: Seq<char>| b@.contains_key(k) <==> a@.insert(rec.wallet_address@, rec@).contains_key(k) by {
            if a@.contains_key(k) {
                let j = choose|j: int| 0 <= j < n && a.records[j].wallet_address@ == k;
                assert(b.records[j].wallet_address@ == k);
            }
            if b@.contains_key(k) {
                let j = choose|j: int| 0 <= j < n && b.records[j].wallet_address@ == k;
                assert(a.records[j].wallet_address@ == k);
            }
            if k == rec.wallet_address@ {
                assert(b.records[i] == rec);
            }
        }
        assert forall|k: Seq<char>| #[trigger] b@.contains_key(k) implies b@[k] == a@.insert(rec.wallet_address@, rec@)[k] by {
            let j = choose|j: int| 0 <= j < n && b.records[j].wallet_address@ == k;
            b.lemma_view_at(j);
            if j != i {
                assert(b.records[j] == a.records[j]);
                a.lemma_view_at(j);
            }
        }
        assert(b@ =~= a@.insert(rec.wallet_address@, rec@));
    }

    /// Position of the record filed under the wallet, if any.
    fn find(&self, wallet_address: &String) -> (r: Option<usize>)
        requires
            self.wf(),
        ensures
            match r {
                Some(i) => i < self.records.len() && self.records[i as int].wallet_address@ == wallet_address@,
                None => !self@.contains_key(wallet_address@),
            },
    {
        let mut i: usize = 0;
        while i < self.records.len()
            invariant
                i <= self.records.len(),
                forall|j: int| 0 <= j < i ==> self.records[j].wallet_address@ != wallet_address@,
            decreases self.records.len() - i,
        {
            if self.records[i].wallet_address == *wallet_address {
                return Some(i);
            }
            i = i + 1;
        }
        None
    }

    /// An empty registry.
    pub fn new() -> (r: Self)
        ensures
            r.wf(),
            r@ == RegistryView::empty(),
    {
        let r = BiometricContract { records: Vec::new() };
        assert(r@ =~= RegistryView::empty());
        r
    }

    /// Files a new record for the wallet, unverified and stamped with `now`;
    /// refused when the wallet already has one.
    pub fn create_did(&mut self, wallet_address: String, biometric_hash: String, now: u64) -> (r: Result<String, DidError>)
        requires
            old(self).wf(),
        ensures
            final(self).wf(),
            final(self)@ == spec_create(old(self)@, wallet_address@, biometric_hash@, now),
            match r {
                Ok(s) => create_allowed(old(self)@, wallet_address@) && s@ == confirmation_text(),
                Err(e) => !create_allowed(old(self)@, wallet_address@) && e == DidError::AlreadyExists,
            },
    {
        match self.find(&wallet_address) {
            Some(i) => {
                proof {
                    self.lemma_view_at(i as int);
                }
                Err(DidError::AlreadyExists)
            },
            None => {
                let rec = BiometricDID { wallet_address, biometric_hash, created_at: now, is_verified: false };
                let ghost before = *self;
                self.records.push(rec);
                proof {
                    Self::lemma_view_push(&before, self, rec);
                }
                Ok("DID created successfully".to_owned())
            },
        }
    }

    /// Compares the presented hash with the stored one; on a match the record
    /// becomes verified. Returns whether they matched.
    pub fn verify_biometrics(&mut self, wallet_address: &String, new_biometric_hash: &String) -> (r: bool)
        requires
            old(self).wf(),
        ensures
            final(self).wf(),
            r == verify_matches(old(self)@, wallet_address@, new_biometric_hash@),
            final(self)@ == spec_verify(old(self)@, wallet_address@, new_biometric_hash@),
    {
        match self.find(wallet_address) {
            Some(i) => {
                proof {
                    self.lemma_view_at(i as int);
                }
                let is_match = self.records[i].biometric_hash == *new_biometric_hash;
                if is_match && !self.records[i].is_verified {
                    let mut rec = self.records[i].copy();
                    rec.is_verified = true;
                    let ghost before = *self;
                    self.records.set(i, rec);
                    proof {
                        Self::lemma_view_set(&before, self, i as int, rec);
                        assert(rec@ == (DidView { verified: true, ..before@[wallet_address@] }));
                    }
                } else if is_match {
                    proof {
                        assert(self@.insert(wallet_address@, DidView { verified: true, ..self@[wallet_address@] }) =~= self@);
                    }
                }
                is_match
            },
            None => false,
        }
    }

    /// Replaces the stored hash while the record is unverified. Returns whether
    /// it did.
    pub fn update_biometric_hash(&mut self, wallet_address: &String, new_biometric_hash: String) -> (r: bool)
        requires
            old(self).wf(),
        ensures
            final(self).wf(),
            r == update_allowed(old(self)@, wallet_address@),
            final(self)@ == spec_update(old(self)@, wallet_address@, new_biometric_hash@),
    {
        match self.find(wallet_address) {
            Some(i) => {
                proof {
                    self.lemma_view_at(i as int);
                }
                if !self.records[i].is_verified {
                    let mut rec = self.records[i].copy();
                    rec.biometric_hash = new_biometric_hash;
                    let ghost before = *self;
                    self.records.set(i, rec);
                    proof {
                        Self::lemma_view_set(&before, self, i as int, rec);
                        assert(rec@ == (DidView { credential_hash: new_biometric_hash@, ..before@[wallet_address@] }));
                    }
                    true
                } else {
                    false
                }
            },
            None => false,
        }
    }

    /// The stored hash of the wallet's record, if there is one.
    pub fn get_biometric_hash(&self, wallet_address: &String) -> (r: Option<String>)
        requires
            self.wf(),
        ensures
            match r {
                Some(h) => self@.contains_key(wallet_address@) && h@ == self@[wallet_address@].credential_hash,
                None => !self@.contains_key(wallet_address@),
            },
    {
        match self.find(wallet_address) {
            Some(i) => {
                proof {
                    self.lemma_view_at(i as int);
                }
                Some(self.records[i].biometric_hash.clone())
            },
            None => None,
        }
    }

    /// Whether the wallet's record exists and is verified.
    pub fn is_verified(&self, wallet_address: &String) -> (r: bool)
        requires
            self.wf(),
        ensures
            r == (self@.contains_key(wallet_address@) && self@[wallet_address@].verified),
    {
        match self.find(wallet_address) {
            Some(i) => {
                proof {
                    self.lemma_view_at(i as int);
                }
                self.records[i].is_verified
            },
            None => false,
        }
    }

    /// A copy of the wallet's record, if there is one.
    pub fn get_did(&self, wallet_address: &String) -> (r: Option<BiometricDID>)
        requires
            self.wf(),
        ensures
            match r {
                Some(d) => self@.contains_key(wallet_address@) && d@ == self@[wallet_address@],
                None => !self@.contains_key(wallet_address@),
            },
    {
        match self.find(wallet_address) {
            Some(i) => {
                proof {
                    self.lemma_view_at(i as int);
                }
                Some(self.records[i].copy())
            },
            None => None,
        }
    }

    /// Whether the wallet has a record.
    pub fn has_did(&self, wallet_address: &String) -> (r: bool)
        requires
            self.wf(),
        ensures
            r == self@.contains_key(wallet_address@),
    {
        match self.find(wallet_address) {
            Some(i) => {
                proof {
                    self.lemma_view_at(i as int);
                }
                true
            },
            None => false,
        }
    }
}

} // verus!
