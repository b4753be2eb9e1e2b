//! Merchant registry: admin-gated registration and activation toggling of
//! merchant records, with name validation. A merchant unknown to the
//! registry is simply inactive. Authentication of the admin and event
//! emission are the host's concern.

use vstd::prelude::*;

verus! {

#[derive(Clone, Copy, Debug, PartialEq, Eq, Structural)]
pub enum RegistryError {
    AlreadyInitialized,
    NotInitialized,
    NotAdmin,
    MerchantAlreadyRegistered,
    MerchantNotFound,
    InvalidName,
}

/// A merchant's stored record. The name is kept as bytes, one to 64 of
/// them.
#[derive(Clone, Debug)]
pub struct MerchantInfo {
    pub name: Vec<u8>,
    pub registration_date: u64,
    pub active: bool,
    pub total_sales: u64,
}

/// The record stored for account `a`: the value of the first entry with
/// key `a`, or `None` when no entry carries that key.
pub open spec fn merchant_lookup(s: Seq<(u64, MerchantInfo)>, a: u64) -> Option<MerchantInfo>
    decreases s.len(),
{
    if s.len() == 0 {
        None
    } else if s[0].0 == a {
        Some(s[0].1)
    } else {
        merchant_lookup(s.drop_first(), a)
    }
}

/// The merchant registry contract's stored state.
pub struct MerchantRegistryContract {
    pub admin: Option<u64>,
    pub merchants: Vec<(u64, MerchantInfo)>,
}

impl MerchantRegistryContract {
    /// Keys are unique and every stored name has one to 64 bytes.
    pub open spec fn wf(self) -> bool {
        &&& forall|i: int, j: int|
            0 <= i < j < self.merchants@.len() ==> (#[trigger] self.merchants@[i]).0 != (
            #[trigger] self.merchants@[j]).0
        &&& forall|i: int|
            0 <= i < self.merchants@.len() ==> 1 <= (
            #[trigger] self.merchants@[i]).1.name@.len() <= 64
    }

    /// A fresh, uninitialized, empty registry.
    pub fn new() -> (r: Self)
        ensures
            r.wf(),
            r.admin is None,
            r.merchants@.len() == 0,
            forall|a: u64| merchant_lookup(r.merchants@, a) is None,
    {
        MerchantRegistryContract { admin: None, merchants: Vec::new() }
    }

    /// One-shot setup of the admin.
    pub fn initialize(&mut self, admin: u64) -> (r: Result<(), RegistryError>)
        ensures
            old(self).admin is Some ==> r == Err::<(), _>(RegistryError::AlreadyInitialized)
                && *final(self) == *old(self),
            old(self).admin is None ==> r is Ok && *final(self) == (MerchantRegistryContract {
                admin: Some(admin),
                ..*old(self)
            }),
            old(self).wf() ==> final(self).wf(),
    {
        if self.admin.is_some() {
            return Err(RegistryError::AlreadyInitialized);
        }
        self.admin = Some(admin);
        Ok(())
    }

    /// `Ok` exactly when the registry is initialized and `caller` is the
    /// stored admin.
    fn require_admin(&self, caller: u64) -> (r: Result<(), RegistryError>)
        ensures
            self.admin is None ==> r == Err::<(), _>(RegistryError::NotInitialized),
            self.admin is Some && self.admin->0 != caller ==> r == Err::<(), _>(
                RegistryError::NotAdmin,
            ),
            self.admin == Some(caller) ==> r is Ok,
    {
        match self.admin {
            None => Err(RegistryError::NotInitialized),
            Some(a) => if a == caller {
                Ok(())
            } else {
                Err(RegistryError::NotAdmin)
            },
        }
    }

    /// Index of the entry for `merchant`, if there is one.
    #[verifier::loop_isolation(false)]
    fn find(&self, merchant: u64) -> (r: Option<usize>)
        ensures
            r matches Some(i) ==> 0 <= i < self.merchants@.len() && self.merchants@[i as int].0
                == merchant && merchant_lookup(self.merchants@, merchant) == Some(
                self.merchants@[i as int].1,
            ),
            r is None ==> merchant_lookup(self.merchants@, merchant) is None,
    {
        let n = self.merchants.len();
        let mut i: usize = 0;
        while i < n
            invariant
                0 <= i <= n,
                forall|k: int| 0 <= k < i ==> (#[trigger] self.merchants@[k]).0 != merchant,
            decreases n - i,
        {
            if self.merchants[i].0 == merchant {
                proof {
                    lemma_lookup_at_index(self.merchants@, i as int, merchant);
                }
                return Some(i);
            }
            i = i + 1;
        }
        proof {
            lemma_lookup_absent(self.merchants@, merchant);
        }
        None
    }

    /// Register a new merchant as active, stamped with the current ledger
    /// time and zero sales; admin only, and the name must have one to 64
    /// bytes.
    pub fn register_merchant(&mut self, caller: u64, merchant: u64, name: Vec<u8>, now: u64) -> (r:
        Result<(), RegistryError>)
        requires
            old(self).wf(),
        ensures
            final(self).wf(),
            r is Err ==> *final(self) == *old(self),
            old(self).admin is None ==> r == Err::<(), _>(RegistryError::NotInitialized),
            old(self).admin is Some && old(self).admin->0 != caller ==> r == Err::<(), _>(
                RegistryError::NotAdmin,
            ),
            old(self).admin == Some(caller) && merchant_lookup(old(self).merchants@, merchant)
                is Some ==> r == Err::<(), _>(RegistryError::MerchantAlreadyRegistered),
            old(self).admin == Some(caller) && merchant_lookup(old(self).merchants@, merchant)
                is None && !(1 <= name@.len() <= 64) ==> r == Err::<(), _>(
                RegistryError::InvalidName,
            ),
            old(self).admin == Some(caller) && merchant_lookup(old(self).merchants@, merchant)
                is None && 1 <= name@.len() <= 64 ==> ({
                &&& r is Ok
                &&& final(self).merchants@.len() == old(self).merchants@.len() + 1
                &&& merchant_lookup(final(self).merchants@, merchant) == Some(
                    MerchantInfo { name, registration_date: now, active: true, total_sales: 0 },
                )
                &&& forall|b: u64|
                    b != merchant ==> merchant_lookup(final(self).merchants@, b) == merchant_lookup(
                        old(self).merchants@,
                        b,
                    )
                &&& final(self).admin == old(self).admin
            }),
    {
        self.require_admin(caller)?;
        if self.find(merchant).is_some() {
            return Err(RegistryError::MerchantAlreadyRegistered);
        }
        if name.len() == 0 || name.len() > 64 {
            return Err(RegistryError::InvalidName);
        }
        let info = MerchantInfo { name, registration_date: now, active: true, total_sales: 0 };
        let ghost orig = self.merchants@;
        proof {
            lemma_lookup_absent_keys(orig, merchant);
            lemma_push_effects(orig, merchant, info);
        }
        self.merchants.push((merchant, info));
        proof {
            assert(self.merchants@ =~= orig.push((merchant, info)));
            assert forall|p: int, q: int|
                0 <= p < q < self.merchants@.len() implies (#[trigger] self.merchants@[p]).0 != (
            #[trigger] self.merchants@[q]).0 by {
                assert(self.merchants@[p] == orig[p]);
                if q == orig.len() {
                    assert(self.merchants@[q] == (merchant, info));
                    assert(orig[p].0 != merchant);
                } else {
                    assert(self.merchants@[q] == orig[q]);
                }
            }
        }
        Ok(())
    }

    /// Flip the stored activation flag of `merchant` to `active`; admin
    /// only. Everything else in the record is kept.
    fn set_active_flag(&mut self, caller: u64, merchant: u64, active: bool) -> (r: Result<
        (),
        RegistryError,
    >)
        requires
            old(self).wf(),
        ensures
            final(self).wf(),
            r is Err ==> *final(self) == *old(self),
            old(self).admin is None ==> r == Err::<(), _>(RegistryError::NotInitialized),
            old(self).admin is Some && old(self).admin->0 != caller ==> r == Err::<(), _>(
                RegistryError::NotAdmin,
            ),
            old(self).admin == Some(caller) && merchant_lookup(old(self).merchants@, merchant)
                is None ==> r == Err::<(), _>(RegistryError::MerchantNotFound),
            merchant_lookup(old(self).merchants@, merchant) matches Some(before) ==> (old(
                self,
            ).admin == Some(caller) ==> {
                &&& r is Ok
                &&& final(self).merchants@.len() == old(self).merchants@.len()
                &&& merchant_lookup(final(self).merchants@, merchant) == Some(
                    MerchantInfo { active, ..before },
                )
                &&& forall|b: u64|
                    b != merchant ==> merchant_lookup(final(self).merchants@, b) == merchant_lookup(
                        old(self).merchants@,
                        b,
                    )
                &&& final(self).admin == old(self).admin
            }),
    {
        self.require_admin(caller)?;
        let idx = match self.find(merchant) {
            Some(i) => i,
            None => { return Err(RegistryError::MerchantNotFound) },
        };
        let ghost orig = self.merchants@;
        let mut entry = self.merchants.remove(idx);
        entry.1.active = active;
        proof {
            lemma_update_effects(orig, idx as int, entry.1);
        }
        self.merchants.insert(idx, entry);
        proof {
            assert(self.merchants@ =~= orig.update(idx as int, (orig[idx as int].0, entry.1)));
        }
        Ok(())
    }

    /// Deactivate an existing merchant; admin only.
    pub fn deactivate_merchant(&mut self, caller: u64, merchant: u64) -> (r: Result<
        (),
        RegistryError,
    >)
        requires
            old(self).wf(),
        ensures
            final(self).wf(),
            r is Err ==> *final(self) == *old(self),
            old(self).admin is None ==> r == Err::<(), _>(RegistryError::NotInitialized),
            old(self).admin is Some && old(self).admin->0 != caller ==> r == Err::<(), _>(
                RegistryError::NotAdmin,
            ),
            old(self).admin == Some(caller) && merchant_lookup(old(self).merchants@, merchant)
                is None ==> r == Err::<(), _>(RegistryError::MerchantNotFound),
            merchant_lookup(old(self).merchants@, merchant) matches Some(before) ==> (old(
                self,
            ).admin == Some(caller) ==> {
                &&& r is Ok
                &&& final(self).merchants@.len() == old(self).merchants@.len()
                &&& merchant_lookup(final(self).merchants@, merchant) == Some(
                    MerchantInfo { active: false, ..before },
                )
                &&& forall|b: u64|
                    b != merchant ==> merchant_lookup(final(self).merchants@, b) == merchant_lookup(
                        old(self).merchants@,
                        b,
                    )
                &&& final(self).admin == old(self).admin
            }),
    {
        self.set_active_flag(caller, merchant, false)
    }

    /// Reactivate an existing merchant; admin only.
    pub fn activate_merchant(&mut self, caller: u64, merchant: u64) -> (r: Result<
        (),
        RegistryError,
    >)
        requires
            old(self).wf(),
        ensures
            final(self).wf(),
            r is Err ==> *final(self) == *old(self),
            old(self).admin is None ==> r == Err::<(), _>(RegistryError::NotInitialized),
            old(self).admin is Some && old(self).admin->0 != caller ==> r == Err::<(), _>(
                RegistryError::NotAdmin,
            ),
            old(self).admin == Some(caller) && merchant_lookup(old(self).merchants@, merchant)
                is None ==> r == Err::<(), _>(RegistryError::MerchantNotFound),
            merchant_lookup(old(self).merchants@, merchant) matches Some(before) ==> (old(
                self,
            ).admin == Some(caller) ==> {
                &&& r is Ok
                &&& final(self).merchants@.len() == old(self).merchants@.len()
                &&& merchant_lookup(final(self).merchants@, merchant) == Some(
                    MerchantInfo { active: true, ..before },
                )
                &&& forall|b: u64|
                    b != merchant ==> merchant_lookup(final(self).merchants@, b) == merchant_lookup(
                        old(self).merchants@,
                        b,
                    )
                &&& final(self).admin == old(self).admin
            }),
    {
        self.set_active_flag(caller, merchant, true)
    }

    /// Whether `merchant` is registered and active; an unknown merchant is
    /// inactive.
    pub fn is_active(&self, merchant: u64) -> (r: bool)
        ensures
            r == (merchant_lookup(self.merchants@, merchant) matches Some(m) && m.active),
    {
        match self.find(merchant) {
            Some(i) => self.merchants[i].1.active,
            None => false,
        }
    }

    /// The stored record of `merchant`.
    pub fn get_merchant_info(&self, merchant: u64) -> (r: Result<&MerchantInfo, RegistryError>)
        ensures
            r is Ok <==> merchant_lookup(self.merchants@, merchant) is Some,
            r matches Ok(m) ==> Some(*m) == merchant_lookup(self.merchants@, merchant),
            r is Err ==> r == Err::<&MerchantInfo, _>(RegistryError::MerchantNotFound),
    {
        match self.find(merchant) {
            Some(i) => Ok(&self.merchants[i].1),
            None => Err(RegistryError::MerchantNotFound),
        }
    }

    /// How many merchants have ever been registered.
    pub fn get_merchant_count(&self) -> (r: u64)
        ensures
            r == self.merchants@.len(),
    {
        self.merchants.len() as u64
    }
}

/// When entry `i` carries key `a` and no earlier entry does, the lookup of
/// `a` gives exactly that entry's record.
proof fn lemma_lookup_at_index(s: Seq<(u64, MerchantInfo)>, i: int, a: u64)
    requires
        0 <= i < s.len(),
        s[i].0 == a,
        forall|k: int| 0 <= k < i ==> (#[trigger] s[k]).0 != a,
    ensures
        merchant_lookup(s, a) == Some(s[i].1),
    decreases s.len(),
{
    if i > 0 {
        lemma_lookup_at_index(s.drop_first(), i - 1, a);
    }
}

/// A key that appears in no entry has no record.
proof fn lemma_lookup_absent(s: Seq<(u64, MerchantInfo)>, a: u64)
    requires
        forall|k: int| 0 <= k < s.len() ==> (#[trigger] s[k]).0 != a,
    ensures
        merchant_lookup(s, a) is None,
    decreases s.len(),
{
    if s.len() > 0 {
        lemma_lookup_absent(s.drop_first(), a);
    }
}

/// Conversely, when the lookup finds nothing, no entry carries the key.
proof fn lemma_lookup_absent_keys(s: Seq<(u64, MerchantInfo)>, a: u64)
    requires
        merchant_lookup(s, a) is None,
    ensures
        forall|k: int| 0 <= k < s.len() ==> (#[trigger] s[k]).0 != a,
    decreases s.len(),
{
    if s.len() > 0 {
        lemma_lookup_absent_keys(s.drop_first(), a);
        assert forall|k: int| 0 <= k < s.len() implies (#[trigger] s[k]).0 != a by {
            if k > 0 {
                assert(s.drop_first()[k - 1] == s[k]);
            }
        }
    }
}

/// Overwriting the record at index `i` (keeping its key) rewrites the
/// lookup of that key when keys are unique and leaves every other lookup
/// alone.
proof fn lemma_update_effects(s: Seq<(u64, MerchantInfo)>, i: int, v: MerchantInfo)
    requires
        0 <= i < s.len(),
        forall|p: int, q: int| 0 <= p < q < s.len() ==> (#[trigger] s[p]).0 != (#[trigger] s[q]).0,
    ensures
        merchant_lookup(s.update(i, (s[i].0, v)), s[i].0) == Some(v),
        forall|b: u64|
            b != s[i].0 ==> merchant_lookup(s.update(i, (s[i].0, v)), b) == merchant_lookup(s, b),
    decreases s.len(),
{
    let t = s.update(i, (s[i].0, v));
    if i == 0 {
        assert(t.drop_first() =~= s.drop_first());
    } else {
        lemma_update_effects(s.drop_first(), i - 1, v);
        assert(t.drop_first() =~= s.drop_first().update(i - 1, (s[i].0, v)));
        assert forall|b: u64| b != s[i].0 implies merchant_lookup(t, b) == merchant_lookup(s, b) by {
            assert(merchant_lookup(t, b) == if t[0].0 == b {
                Some(t[0].1)
            } else {
                merchant_lookup(t.drop_first(), b)
            });
            assert(merchant_lookup(s, b) == if s[0].0 == b {
                Some(s[0].1)
            } else {
                merchant_lookup(s.drop_first(), b)
            });
        }
    }
}

/// Appending an entry for a key absent so far records it and leaves every
/// other lookup alone.
proof fn lemma_push_effects(s: Seq<(u64, MerchantInfo)>, a: u64, v: MerchantInfo)
    requires
        forall|k: int| 0 <= k < s.len() ==> (#[trigger] s[k]).0 != a,
    ensures
        merchant_lookup(s.push((a, v)), a) == Some(v),
        forall|b: u64| b != a ==> merchant_lookup(s.push((a, v)), b) == merchant_lookup(s, b),
    decreases s.len(),
{
    let t = s.push((a, v));
    if s.len() == 0 {
        assert(t.drop_first() =~= s);
    } else {
        lemma_push_effects(s.drop_first(), a, v);
        assert(t.drop_first() =~= s.drop_first().push((a, v)));
        assert forall|b: u64| b != a implies merchant_lookup(t, b) == merchant_lookup(s, b) by {
            assert(merchant_lookup(t, b) == if t[0].0 == b {
                Some(t[0].1)
            } else {
                merchant_lookup(t.drop_first(), b)
            });
            assert(merchant_lookup(s, b) == if s[0].0 == b {
                Some(s[0].1)
            } else {
                merchant_lookup(s.drop_first(), b)
            });
        }
        assert(merchant_lookup(t, a) == Some(v));
    }
}

} // verus!
