//! The record store: users, their wallets and the wallets' addresses, with
//! generated ids, insert-time timestamps and referential integrity between
//! the three tables (user -> wallet -> address, deleted in cascade).

use vstd::prelude::*;

verus! {

broadcast use vstd::seq_lib::group_seq_properties;

/// A user: the identity that wallets attach to.
#[derive(Clone, Copy, Debug, PartialEq, Eq, Structural)]
pub struct UserRecord {
    pub id: i32,
    pub created_at: i64,
    pub updated_at: i64,
}

/// A wallet owned by one user, looked up on chain by its stake credential.
#[derive(Debug)]
pub struct WalletRecord {
    pub id: i32,
    pub user_id: i32,
    pub stake_key: String,
    pub wallet_type: String,
    pub created_at: i64,
    pub updated_at: i64,
}

/// A chain address belonging to one wallet.
#[derive(Debug)]
pub struct AddressRecord {
    pub id: i32,
    pub wallet_id: i32,
    pub address: String,
    pub created_at: i64,
    pub updated_at: i64,
}

/// Why a store operation did not take place.
#[derive(Clone, Copy, Debug, PartialEq, Eq, Structural)]
pub enum StoreError {
    /// No record has the id asked for.
    NotFound,
    /// The parent record that a new row would reference does not exist.
    ForeignKeyViolation,
    /// The store cannot take the row (here: its id space is used up).
    Storage,
}

impl WalletRecord {
    /// A field-by-field copy.
    pub fn duplicate(&self) -> (r: WalletRecord)
        ensures
            r == *self,
    {
        WalletRecord {
            id: self.id,
            user_id: self.user_id,
            stake_key: self.stake_key.clone(),
            wallet_type: self.wallet_type.clone(),
            created_at: self.created_at,
            updated_at: self.updated_at,
        }
    }
}

impl AddressRecord {
    /// A field-by-field copy.
    pub fn duplicate(&self) -> (r: AddressRecord)
        ensures
            r == *self,
    {
        AddressRecord {
            id: self.id,
            wallet_id: self.wallet_id,
            address: self.address.clone(),
            created_at: self.created_at,
            updated_at: self.updated_at,
        }
    }
}

pub open spec fn has_user(users: Seq<UserRecord>, id: i32) -> bool {
    exists|i: int| 0 <= i < users.len() && (#[trigger] users[i]).id == id
}

pub open spec fn has_wallet(wallets: Seq<WalletRecord>, id: i32) -> bool {
    exists|i: int| 0 <= i < wallets.len() && (#[trigger] wallets[i]).id == id
}

/// Some wallet with id `wallet_id` belongs to user `user_id`.
pub open spec fn wallet_owned_by(wallets: Seq<WalletRecord>, wallet_id: i32, user_id: i32) -> bool {
    exists|i: int|
        0 <= i < wallets.len() && (#[trigger] wallets[i]).id == wallet_id && wallets[i].user_id
            == user_id
}

pub open spec fn user_ids_increasing(users: Seq<UserRecord>) -> bool {
    forall|a: int, b: int| 0 <= a < b < users.len() ==> users[a].id < users[b].id
}

pub open spec fn wallet_ids_increasing(wallets: Seq<WalletRecord>) -> bool {
    forall|a: int, b: int| 0 <= a < b < wallets.len() ==> wallets[a].id < wallets[b].id
}

pub open spec fn address_ids_increasing(addresses: Seq<AddressRecord>) -> bool {
    forall|a: int, b: int| 0 <= a < b < addresses.len() ==> addresses[a].id < addresses[b].id
}

/// The wallet with the given id, if there is one.
pub open spec fn wallet_by_id(wallets: Seq<WalletRecord>, id: i32) -> Option<WalletRecord> {
    if has_wallet(wallets, id) {
        Some(wallets[choose|i: int| 0 <= i < wallets.len() && (#[trigger] wallets[i]).id == id])
    } else {
        None
    }
}

/// Index `i` holds the first wallet whose stake credential is exactly `key`.
pub open spec fn first_with_key(wallets: Seq<WalletRecord>, key: Seq<char>, i: int) -> bool {
    &&& 0 <= i < wallets.len()
    &&& wallets[i].stake_key@ == key
    &&& forall|j: int| 0 <= j < i ==> (#[trigger] wallets[j]).stake_key@ != key
}

/// The first wallet, in order of creation, whose stake credential is exactly
/// `key` (no case folding or other normalisation).
pub open spec fn wallet_by_stake_key(wallets: Seq<WalletRecord>, key: Seq<char>) -> Option<
    WalletRecord,
> {
    if exists|i: int| first_with_key(wallets, key, i) {
        Some(wallets[choose|i: int| first_with_key(wallets, key, i)])
    } else {
        None
    }
}

pub open spec fn user_not(user_id: i32) -> spec_fn(UserRecord) -> bool {
    |u: UserRecord| u.id != user_id
}

pub open spec fn wallet_not_of(user_id: i32) -> spec_fn(WalletRecord) -> bool {
    |w: WalletRecord| w.user_id != user_id
}

pub open spec fn address_in(wallets: Seq<WalletRecord>) -> spec_fn(AddressRecord) -> bool {
    |a: AddressRecord| has_wallet(wallets, a.wallet_id)
}

/// The three tables of the store. Ids are handed out in increasing order and
/// never reused.
pub struct RecordStore {
    users: Vec<UserRecord>,
    wallets: Vec<WalletRecord>,
    addresses: Vec<AddressRecord>,
    next_user_id: i32,
    next_wallet_id: i32,
    next_address_id: i32,
}

impl RecordStore {
    pub closed spec fn users(&self) -> Seq<UserRecord> {
        self.users@
    }

    pub closed spec fn wallets(&self) -> Seq<WalletRecord> {
        self.wallets@
    }

    pub closed spec fn addresses(&self) -> Seq<AddressRecord> {
        self.addresses@
    }

    /// The id that the next user will get.
    pub closed spec fn next_user_id(&self) -> i32 {
        self.next_user_id
    }

    pub closed spec fn next_wallet_id(&self) -> i32 {
        self.next_wallet_id
    }

    pub closed spec fn next_address_id(&self) -> i32 {
        self.next_address_id
    }

    /// Ids are increasing and below the next id of their table, every wallet
    /// references an existing user and every address an existing wallet.
    pub open spec fn wf(&self) -> bool {
        &&& user_ids_increasing(self.users())
        &&& wallet_ids_increasing(self.wallets())
        &&& address_ids_increasing(self.addresses())
        &&& forall|i: int|
            0 <= i < self.users().len() ==> (#[trigger] self.users()[i]).id < self.next_user_id()
        &&& forall|i: int|
            0 <= i < self.wallets().len() ==> (#[trigger] self.wallets()[i]).id
                < self.next_wallet_id()
        &&& forall|i: int|
            0 <= i < self.addresses().len() ==> (#[trigger] self.addresses()[i]).id
                < self.next_address_id()
        &&& forall|i: int|
            0 <= i < self.wallets().len() ==> has_user(
                self.users(),
                (#[trigger] self.wallets()[i]).user_id,
            )
        &&& forall|i: int|
            0 <= i < self.addresses().len() ==> has_wallet(
                self.wallets(),
                (#[trigger] self.addresses()[i]).wallet_id,
            )
    }

    /// Whether a user with this id exists.
    pub fn user_exists(&self, user_id: i32) -> (r: bool)
        ensures
            r == has_user(self.users(), user_id),
    {
        let mut i: usize = 0;
        while i < self.users.len()
            invariant
                i <= self.users@.len(),
                forall|j: int| 0 <= j < i ==> (#[trigger] self.users@[j]).id != user_id,
            decreases self.users@.len() - i,
        {
            if self.users[i].id == user_id {
                return true;
            }
            i += 1;
        }
        false
    }

    /// Whether a wallet with this id exists.
    pub fn wallet_exists(&self, wallet_id: i32) -> (r: bool)
        ensures
            r == has_wallet(self.wallets(), wallet_id),
    {
        wallet_id_in(&self.wallets, wallet_id)
    }

    /// Inserts a user with generated id and timestamps `now`.
    pub fn create_user(&mut self, now: i64) -> (r: Result<UserRecord, StoreError>)
        requires
            old(self).wf(),
        ensures
            final(self).wf(),
            match r {
                Ok(u) => {
                    &&& old(self).next_user_id() < i32::MAX
                    &&& u == (UserRecord {
                        id: old(self).next_user_id(),
                        created_at: now,
                        updated_at: now,
                    })
                    &&& final(self).users() == old(self).users().push(u)
                    &&& final(self).wallets() == old(self).wallets()
                    &&& final(self).addresses() == old(self).addresses()
                    &&& final(self).next_wallet_id() == old(self).next_wallet_id()
                },
                Err(e) => {
                    &&& e == StoreError::Storage
                    &&& old(self).next_user_id() == i32::MAX
                    &&& *final(self) == *old(self)
                },
            },
    {
        if self.next_user_id == i32::MAX {
            return Err(StoreError::Storage);
        }
        let u = UserRecord { id: self.next_user_id, created_at: now, updated_at: now };
        proof {
            let (us, ws) = (self.users@, self.wallets@);
            assert forall|i: int| 0 <= i < ws.len() implies has_user(
                us.push(u),
                (#[trigger] ws[i]).user_id,
            ) by {
                let k = choose|k: int| 0 <= k < us.len() && (#[trigger] us[k]).id == ws[i].user_id;
                assert(us.push(u)[k] == us[k]);
            }
        }
        self.users.push(u);
        self.next_user_id = self.next_user_id + 1;
        Ok(u)
    }

    /// Inserts a wallet for an existing user, with generated id and
    /// timestamps `now`. Nothing is stored when the user does not exist.
    pub fn create_wallet(&mut self, user_id: i32, stake_key: String, wallet_type: String, now: i64) -> (r:
        Result<WalletRecord, StoreError>)
        requires
            old(self).wf(),
        ensures
            final(self).wf(),
            match r {
                Ok(w) => wallet_inserted(
                    *old(self),
                    *final(self),
                    user_id,
                    stake_key,
                    wallet_type,
                    now,
                    w,
                ),
                Err(e) => {
                    &&& *final(self) == *old(self)
                    &&& e == if has_user(old(self).users(), user_id) {
                        StoreError::Storage
                    } else {
                        StoreError::ForeignKeyViolation
                    }
                    &&& e == StoreError::Storage ==> old(self).next_wallet_id() == i32::MAX
                },
            },
    {
        if !self.user_exists(user_id) {
            return Err(StoreError::ForeignKeyViolation);
        }
        if self.next_wallet_id == i32::MAX {
            return Err(StoreError::Storage);
        }
        let w = WalletRecord {
            id: self.next_wallet_id,
            user_id,
            stake_key,
            wallet_type,
            created_at: now,
            updated_at: now,
        };
        let stored = w.duplicate();
        proof {
            let (ws, ads) = (self.wallets@, self.addresses@);
            assert forall|i: int| 0 <= i < ads.len() implies has_wallet(
                ws.push(stored),
                (#[trigger] ads[i]).wallet_id,
            ) by {
                let k = choose|k: int|
                    0 <= k < ws.len() && (#[trigger] ws[k]).id == ads[i].wallet_id;
                assert(ws.push(stored)[k] == ws[k]);
            }
        }
        self.wallets.push(stored);
        self.next_wallet_id = self.next_wallet_id + 1;
        Ok(w)
    }

    /// Inserts an address for an existing wallet, with generated id and
    /// timestamps `now`. Nothing is stored when the wallet does not exist.
    pub fn create_address(&mut self, wallet_id: i32, address: String, now: i64) -> (r: Result<
        AddressRecord,
        StoreError,
    >)
        requires
            old(self).wf(),
        ensures
            final(self).wf(),
            match r {
                Ok(a) => {
                    &&& has_wallet(old(self).wallets(), wallet_id)
                    &&& old(self).next_address_id() < i32::MAX
                    &&& a == (AddressRecord {
                        id: old(self).next_address_id(),
                        wallet_id,
                        address,
                        created_at: now,
                        updated_at: now,
                    })
                    &&& final(self).addresses() == old(self).addresses().push(a)
                    &&& final(self).users() == old(self).users()
                    &&& final(self).wallets() == old(self).wallets()
                },
                Err(e) => {
                    &&& *final(self) == *old(self)
                    &&& e == if has_wallet(old(self).wallets(), wallet_id) {
                        StoreError::Storage
                    } else {
                        StoreError::ForeignKeyViolation
                    }
                    &&& e == StoreError::Storage ==> old(self).next_address_id() == i32::MAX
                },
            },
    {
        if !self.wallet_exists(wallet_id) {
            return Err(StoreError::ForeignKeyViolation);
        }
        if self.next_address_id == i32::MAX {
            return Err(StoreError::Storage);
        }
        let a = AddressRecord {
            id: self.next_address_id,
            wallet_id,
            address,
            created_at: now,
            updated_at: now,
        };
        self.addresses.push(a.duplicate());
        self.next_address_id = self.next_address_id + 1;
        Ok(a)
    }

    /// The wallet with this id.
    pub fn find_wallet_by_id(&self, wallet_id: i32) -> (r: Option<WalletRecord>)
        requires
            self.wf(),
        ensures
            r == wallet_by_id(self.wallets(), wallet_id),
    {
        let mut i: usize = 0;
        while i < self.wallets.len()
            invariant
                i <= self.wallets@.len(),
                wallet_ids_increasing(self.wallets@),
                forall|j: int| 0 <= j < i ==> (#[trigger] self.wallets@[j]).id != wallet_id,
            decreases self.wallets@.len() - i,
        {
            if self.wallets[i].id == wallet_id {
                proof {
                    let ws = self.wallets@;
                    assert(has_wallet(ws, wallet_id));
                    let k = choose|k: int| 0 <= k < ws.len() && (#[trigger] ws[k]).id == wallet_id;
                    assert(k == i);
                }
                return Some(self.wallets[i].duplicate());
            }
            i += 1;
        }
        None
    }

    /// The first wallet, in order of creation, whose stake credential is
    /// exactly `stake_key`.
    pub fn find_wallet_by_stake_key(&self, stake_key: &String) -> (r: Option<WalletRecord>)
        ensures
            r == wallet_by_stake_key(self.wallets(), stake_key@),
    {
        let mut i: usize = 0;
        while i < self.wallets.len()
            invariant
                i <= self.wallets@.len(),
                forall|j: int| 0 <= j < i ==> (#[trigger] self.wallets@[j]).stake_key@ != stake_key@,
            decreases self.wallets@.len() - i,
        {
            if self.wallets[i].stake_key == *stake_key {
                proof {
                    let ws = self.wallets@;
                    assert(first_with_key(ws, stake_key@, i as int));
                    let k = choose|k: int| first_with_key(ws, stake_key@, k);
                    assert(k == i);
                }
                return Some(self.wallets[i].duplicate());
            }
            i += 1;
        }
        proof {
            let ws = self.wallets@;
            assert forall|k: int| !first_with_key(ws, stake_key@, k) by {
                if 0 <= k < ws.len() {
                    assert(ws[k].stake_key@ != stake_key@);
                }
            }
        }
        None
    }

    /// Deletes a user together with all of its wallets and, through them, all
    /// of their addresses.
    pub fn delete_user(&mut self, user_id: i32) -> (r: Result<(), StoreError>)
        requires
            old(self).wf(),
        ensures
            final(self).wf(),
            r is Ok <==> has_user(old(self).users(), user_id),
            r is Err ==> r == Err::<(), StoreError>(StoreError::NotFound) && *final(self)
                == *old(self),
            r is Ok ==> {
                &&& final(self).users() == old(self).users().filter(user_not(user_id))
                &&& final(self).wallets() == old(self).wallets().filter(wallet_not_of(user_id))
                &&& final(self).addresses() == old(self).addresses().filter(
                    address_in(final(self).wallets()),
                )
                &&& !has_user(final(self).users(), user_id)
                &&& forall|i: int|
                    0 <= i < final(self).wallets().len() ==> (
                    #[trigger] final(self).wallets()[i]).user_id != user_id
                &&& forall|i: int|
                    0 <= i < final(self).addresses().len() ==> !wallet_owned_by(
                        old(self).wallets(),
                        (#[trigger] final(self).addresses()[i]).wallet_id,
                        user_id,
                    )
            },
    {
        if !self.user_exists(user_id) {
            return Err(StoreError::NotFound);
        }
        let ghost (us0, ws0, ads0) = (self.users@, self.wallets@, self.addresses@);
        let users = users_without(&self.users, user_id);
        let wallets = wallets_without(&self.wallets, user_id);
        let addresses = addresses_within(&self.addresses, &wallets);
        proof {
            broadcast use vstd::seq_lib::group_filter_ensures;

            assert forall|i: int| 0 <= i < users@.len() implies (#[trigger] users@[i]).id
                < self.next_user_id by {
                assert(users@.contains(users@[i]));
                us0.lemma_filter_contains_rev(user_not(user_id), users@[i]);
            }
            assert forall|i: int| 0 <= i < wallets@.len() implies (#[trigger] wallets@[i]).id
                < self.next_wallet_id && has_user(users@, wallets@[i].user_id) by {
                let w = wallets@[i];
                assert(wallets@.contains(w));
                ws0.lemma_filter_contains_rev(wallet_not_of(user_id), w);
                let k = choose|k: int| 0 <= k < ws0.len() && ws0[k] == w;
                assert(has_user(us0, ws0[k].user_id));
                let m = choose|m: int| 0 <= m < us0.len() && (#[trigger] us0[m]).id == w.user_id;
                assert(user_not(user_id)(us0[m]));
                assert(users@.contains(us0[m]));
            }
            assert forall|i: int| 0 <= i < addresses@.len() implies (#[trigger] addresses@[i]).id
                < self.next_address_id by {
                assert(addresses@.contains(addresses@[i]));
                ads0.lemma_filter_contains_rev(address_in(wallets@), addresses@[i]);
            }
            assert forall|i: int| 0 <= i < users@.len() implies (#[trigger] users@[i]).id
                != user_id by {
                assert(user_not(user_id)(users@[i]));
            }
            assert(!has_user(users@, user_id));
            assert forall|i: int| 0 <= i < addresses@.len() implies !wallet_owned_by(
                ws0,
                (#[trigger] addresses@[i]).wallet_id,
                user_id,
            ) by {
                let a = addresses@[i];
                assert(address_in(wallets@)(a));
                let k = choose|k: int| 0 <= k < wallets@.len() && (#[trigger] wallets@[k]).id == a.wallet_id;
                assert(wallet_not_of(user_id)(wallets@[k]));
                assert(wallets@.contains(wallets@[k]));
                ws0.lemma_filter_contains_rev(wallet_not_of(user_id), wallets@[k]);
                let n = choose|n: int| 0 <= n < ws0.len() && ws0[n] == wallets@[k];
                if wallet_owned_by(ws0, a.wallet_id, user_id) {
                    let m = choose|m: int|
                        0 <= m < ws0.len() && (#[trigger] ws0[m]).id == a.wallet_id
                            && ws0[m].user_id == user_id;
                    assert(m == n);
                }
            }
        }
        self.users = users;
        self.wallets = wallets;
        self.addresses = addresses;
        Ok(())
    }

    pub fn user_count(&self) -> (r: usize)
        ensures
            r == self.users().len(),
    {
        self.users.len()
    }

    pub fn wallet_count(&self) -> (r: usize)
        ensures
            r == self.wallets().len(),
    {
        self.wallets.len()
    }

    pub fn address_count(&self) -> (r: usize)
        ensures
            r == self.addresses().len(),
    {
        self.addresses.len()
    }

    /// An empty store; ids start at 1.
    pub fn new() -> (s: RecordStore)
        ensures
            s.wf(),
            s.users() == Seq::<UserRecord>::empty(),
            s.wallets() == Seq::<WalletRecord>::empty(),
            s.addresses() == Seq::<AddressRecord>::empty(),
            s.next_user_id() == 1,
            s.next_wallet_id() == 1,
            s.next_address_id() == 1,
    {
        RecordStore {
            users: Vec::new(),
            wallets: Vec::new(),
            addresses: Vec::new(),
            next_user_id: 1,
            next_wallet_id: 1,
            next_address_id: 1,
        }
    }
}

/// `after` is `before` with one wallet added, `w`: it has the next wallet
/// id, the given fields and `now` as both timestamps, and belongs to an
/// existing user. The other tables are untouched.
pub open spec fn wallet_inserted(
    before: RecordStore,
    after: RecordStore,
    user_id: i32,
    stake_key: String,
    wallet_type: String,
    now: i64,
    w: WalletRecord,
) -> bool {
    &&& has_user(before.users(), user_id)
    &&& before.next_wallet_id() < i32::MAX
    &&& w == (WalletRecord {
        id: before.next_wallet_id(),
        user_id,
        stake_key,
        wallet_type,
        created_at: now,
        updated_at: now,
    })
    &&& after.wallets() == before.wallets().push(w)
    &&& after.users() == before.users()
    &&& after.addresses() == before.addresses()
}

/// A wallet that was just created is found again by its id, and carries the
/// stake credential and the wallet kind it was created with.
pub proof fn lemma_created_wallet_found_by_id(
    before: RecordStore,
    after: RecordStore,
    user_id: i32,
    stake_key: String,
    wallet_type: String,
    now: i64,
    w: WalletRecord,
)
    requires
        before.wf(),
        after.wf(),
        wallet_inserted(before, after, user_id, stake_key, wallet_type, now, w),
    ensures
        wallet_by_id(after.wallets(), w.id) == Some(w),
        w.stake_key == stake_key,
        w.wallet_type == wallet_type,
{
    let ws = after.wallets();
    let last = before.wallets().len() as int;
    assert(ws[last] == w);
    assert(has_wallet(ws, w.id));
    let k = choose|k: int| 0 <= k < ws.len() && (#[trigger] ws[k]).id == w.id;
    if k < last {
        assert(before.wallets()[k].id < before.next_wallet_id());
    }
}

/// Whether some wallet of `wallets` has this id.
fn wallet_id_in(wallets: &Vec<WalletRecord>, wallet_id: i32) -> (r: bool)
    ensures
        r == has_wallet(wallets@, wallet_id),
{
    let mut i: usize = 0;
    while i < wallets.len()
        invariant
            i <= wallets@.len(),
            forall|j: int| 0 <= j < i ==> (#[trigger] wallets@[j]).id != wallet_id,
        decreases wallets@.len() - i,
    {
        if wallets[i].id == wallet_id {
            return true;
        }
        i += 1;
    }
    false
}

/// The users other than `user_id`, in their order.
fn users_without(users: &Vec<UserRecord>, user_id: i32) -> (kept: Vec<UserRecord>)
    requires
        user_ids_increasing(users@),
    ensures
        kept@ == users@.filter(user_not(user_id)),
        user_ids_increasing(kept@),
{
    let mut kept: Vec<UserRecord> = Vec::new();
    let mut i: usize = 0;
    while i < users.len()
        invariant
            i <= users@.len(),
            user_ids_increasing(users@),
            kept@ == users@.take(i as int).filter(user_not(user_id)),
            user_ids_increasing(kept@),
            forall|k: int, j: int|
                0 <= k < kept@.len() && i <= j < users@.len() ==> kept@[k].id < users@[j].id,
        decreases users@.len() - i,
    {
        proof {
            assert(users@.take(i + 1) == users@.take(i as int).push(users@[i as int]));
            users@.take(i as int).lemma_filter_push(users@[i as int], user_not(user_id));
        }
        if users[i].id != user_id {
            kept.push(users[i]);
        }
        i += 1;
    }
    assert(users@.take(users@.len() as int) == users@);
    kept
}

/// The wallets of users other than `user_id`, in their order.
fn wallets_without(wallets: &Vec<WalletRecord>, user_id: i32) -> (kept: Vec<WalletRecord>)
    requires
        wallet_ids_increasing(wallets@),
    ensures
        kept@ == wallets@.filter(wallet_not_of(user_id)),
        wallet_ids_increasing(kept@),
{
    let mut kept: Vec<WalletRecord> = Vec::new();
    let mut i: usize = 0;
    while i < wallets.len()
        invariant
            i <= wallets@.len(),
            wallet_ids_increasing(wallets@),
            kept@ == wallets@.take(i as int).filter(wallet_not_of(user_id)),
            wallet_ids_increasing(kept@),
            forall|k: int, j: int|
                0 <= k < kept@.len() && i <= j < wallets@.len() ==> kept@[k].id < wallets@[j].id,
        decreases wallets@.len() - i,
    {
        proof {
            assert(wallets@.take(i + 1) == wallets@.take(i as int).push(wallets@[i as int]));
            wallets@.take(i as int).lemma_filter_push(wallets@[i as int], wallet_not_of(user_id));
        }
        if wallets[i].user_id != user_id {
            kept.push(wallets[i].duplicate());
        }
        i += 1;
    }
    assert(wallets@.take(wallets@.len() as int) == wallets@);
    kept
}

/// The addresses whose wallet is among `wallets`, in their order.
fn addresses_within(addresses: &Vec<AddressRecord>, wallets: &Vec<WalletRecord>) -> (kept: Vec<
    AddressRecord,
>)
    requires
        address_ids_increasing(addresses@),
    ensures
        kept@ == addresses@.filter(address_in(wallets@)),
        address_ids_increasing(kept@),
{
    let mut kept: Vec<AddressRecord> = Vec::new();
    let mut i: usize = 0;
    while i < addresses.len()
        invariant
            i <= addresses@.len(),
            address_ids_increasing(addresses@),
            kept@ == addresses@.take(i as int).filter(address_in(wallets@)),
            address_ids_increasing(kept@),
            forall|k: int, j: int|
                0 <= k < kept@.len() && i <= j < addresses@.len() ==> kept@[k].id
                    < addresses@[j].id,
        decreases addresses@.len() - i,
    {
        proof {
            assert(addresses@.take(i + 1) == addresses@.take(i as int).push(addresses@[i as int]));
            addresses@.take(i as int).lemma_filter_push(addresses@[i as int], address_in(wallets@));
        }
        if wallet_id_in(wallets, addresses[i].wallet_id) {
            kept.push(addresses[i].duplicate());
        }
        i += 1;
    }
    assert(addresses@.take(addresses@.len() as int) == addresses@);
    kept
}

} // verus!
