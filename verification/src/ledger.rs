//! The executable record store. Records are held in a vector and located
//! by the derived address of their title and owner; the store's view is
//! the map from derived address to record image, and every operation's
//! contract is stated against the functional semantics of the lifecycle.

use vstd::prelude::*;

use crate::addr::address_of;
use crate::addr::lemma_address_injective;
use crate::entry::CreateEntry;
use crate::entry::DeleteEntry;
use crate::entry::EntryView;
use crate::entry::Error;
use crate::entry::JournalEntryState;
use crate::entry::UpdateEntry;
use crate::entry::HEADER_SIZE;
use crate::entry::MAX_MESSAGE_LEN;
use crate::entry::MAX_TITLE_LEN;
use crate::semantics::create_result;
use crate::semantics::create_store;
use crate::semantics::delete_result;
use crate::semantics::delete_store;
use crate::semantics::update_result;
use crate::semantics::update_store;
use crate::semantics::Store;

verus! {

/// One stored record together with the storage currently reserved for it,
/// in bytes.
struct StoredRecord {
    entry: JournalEntryState,
    space: usize,
}

/// The record store: an in-memory realization of the ledger, one slot per
/// initialized address.
pub struct Ledger {
    records: Vec<StoredRecord>,
}

/// The derived address a stored record lives at.
spec fn rec_addr(r: StoredRecord) -> Seq<u8> {
    address_of(r.entry.title@, r.entry.owner@)
}

/// The mathematical image of a stored record.
spec fn rec_view(r: StoredRecord) -> EntryView {
    EntryView {
        owner: r.entry.owner@,
        title: r.entry.title@,
        message: r.entry.message@,
        space: r.space as nat,
    }
}

/// A stored record's text fields are within their declared maxima.
spec fn rec_ok(r: StoredRecord) -> bool {
    &&& r.entry.title@.len() <= MAX_TITLE_LEN
    &&& r.entry.message@.len() <= MAX_MESSAGE_LEN
}

/// No two records share a derived address.
spec fn uniq_addrs(rs: Seq<StoredRecord>) -> bool {
    forall|i: int, j: int|
        0 <= i < j < rs.len() ==> rec_addr(rs[i]) != rec_addr(rs[j])
}

/// The map from derived address to record image that a sequence of stored
/// records realizes.
spec fn store_of(rs: Seq<StoredRecord>) -> Store
    decreases rs.len(),
{
    if rs.len() == 0 {
        Map::empty()
    } else {
        store_of(rs.drop_last()).insert(rec_addr(rs.last()), rec_view(rs.last()))
    }
}

/// An address is in the realized map exactly when some record lives at it.
proof fn lemma_store_of_contains(rs: Seq<StoredRecord>, a: Seq<u8>)
    ensures
        store_of(rs).contains_key(a) <==> exists|i: int|
            0 <= i < rs.len() && rec_addr(#[trigger] rs[i]) == a,
    decreases rs.len(),
{
    if rs.len() > 0 {
        lemma_store_of_contains(rs.drop_last(), a);
        if rec_addr(rs.last()) == a {
            assert(rec_addr(rs[rs.len() - 1]) == a);
        } else if store_of(rs).contains_key(a) {
            let i = choose|i: int|
                0 <= i < rs.drop_last().len() && rec_addr(#[trigger] rs.drop_last()[i]) == a;
            assert(rec_addr(rs[i]) == a);
        } else {
            assert(forall|i: int|
                0 <= i < rs.len() - 1 ==> rec_addr(#[trigger] rs[i]) == rec_addr(
                    rs.drop_last()[i],
                ));
        }
    }
}

/// Under distinct addresses, the realized map sends each record's address
/// to that record's image.
proof fn lemma_store_of_index(rs: Seq<StoredRecord>, i: int)
    requires
        uniq_addrs(rs),
        0 <= i < rs.len(),
    ensures
        store_of(rs).contains_key(rec_addr(rs[i])),
        store_of(rs)[rec_addr(rs[i])] == rec_view(rs[i]),
    decreases rs.len(),
{
    if i == rs.len() - 1 {
    } else {
        assert(uniq_addrs(rs.drop_last())) by {
            assert(forall|k: int|
                0 <= k < rs.len() - 1 ==> rs.drop_last()[k] == rs[k]);
        }
        lemma_store_of_index(rs.drop_last(), i);
        assert(rec_addr(rs[i]) != rec_addr(rs[rs.len() - 1]));
    }
}

/// Under distinct addresses, removing a record from the vector removes
/// exactly its address from the realized map.
proof fn lemma_store_of_remove(rs: Seq<StoredRecord>, i: int)
    requires
        uniq_addrs(rs),
        0 <= i < rs.len(),
    ensures
        store_of(rs.remove(i)) == store_of(rs).remove(rec_addr(rs[i])),
    decreases rs.len(),
{
    let a = rec_addr(rs[i]);
    if i == rs.len() - 1 {
        assert(rs.remove(i) =~= rs.drop_last());
        lemma_store_of_contains(rs.drop_last(), a);
        assert(forall|k: int|
            0 <= k < rs.len() - 1 ==> rs.drop_last()[k] == rs[k]);
        assert(!store_of(rs.drop_last()).contains_key(a));
        assert(store_of(rs.drop_last()) =~= store_of(rs).remove(a));
    } else {
        let dl = rs.drop_last();
        assert(forall|k: int| 0 <= k < rs.len() - 1 ==> dl[k] == rs[k]);
        assert(uniq_addrs(dl));
        lemma_store_of_remove(dl, i);
        assert(rs.remove(i).last() == rs.last());
        assert(rs.remove(i).drop_last() =~= dl.remove(i));
        assert(store_of(rs.remove(i)) == store_of(dl.remove(i)).insert(
            rec_addr(rs.last()),
            rec_view(rs.last()),
        ));
        assert(a != rec_addr(rs.last()));
        assert(store_of(dl).remove(a).insert(rec_addr(rs.last()), rec_view(rs.last()))
            =~= store_of(dl).insert(rec_addr(rs.last()), rec_view(rs.last())).remove(a));
    }
}

/// True when the two byte vectors hold the same bytes.
fn bytes_eq(a: &Vec<u8>, b: &Vec<u8>) -> (r: bool)
    ensures
        r <==> a@ == b@,
{
    if a.len() != b.len() {
        return false;
    }
    let mut i: usize = 0;
    while i < a.len()
        invariant
            i <= a.len(),
            a.len() == b.len(),
            forall|k: int| 0 <= k < i ==> a@[k] == b@[k],
        decreases a.len() - i,
    {
        if a[i] != b[i] {
            return false;
        }
        i = i + 1;
    }
    proof {
        assert(a@ =~= b@);
    }
    true
}

/// True when the two 32-byte identities are the same.
fn owner_eq(a: &[u8; 32], b: &[u8; 32]) -> (r: bool)
    ensures
        r <==> a@ == b@,
{
    let mut i: usize = 0;
    while i < 32
        invariant
            i <= 32,
            forall|k: int| 0 <= k < i ==> a@[k] == b@[k],
        decreases 32 - i,
    {
        if a[i] != b[i] {
            return false;
        }
        i = i + 1;
    }
    proof {
        assert(a@ =~= b@);
    }
    true
}

impl Ledger {
    /// Every stored record is within its length bounds and no two records
    /// share a derived address.
    pub closed spec fn wf(&self) -> bool {
        &&& forall|i: int| 0 <= i < self.records@.len() ==> rec_ok(#[trigger] self.records@[i])
        &&& uniq_addrs(self.records@)
    }

    /// An empty store: no address is initialized.
    pub fn new() -> (r: Ledger)
        ensures
            r.wf(),
            r@ == Map::<Seq<u8>, EntryView>::empty(),
    {
        Ledger { records: Vec::new() }
    }

    /// The slot holding the record at the derived address of `title` and
    /// `owner`, if one is initialized there.
    fn find_index(&self, title: &Vec<u8>, owner: &[u8; 32]) -> (r: Option<usize>)
        requires
            self.wf(),
        ensures
            match r {
                Some(i) => i < self.records@.len() && rec_addr(self.records@[i as int])
                    == address_of(title@, owner@),
                None => !self@.contains_key(address_of(title@, owner@)),
            },
    {
        let ghost a = address_of(title@, owner@);
        let mut i: usize = 0;
        while i < self.records.len()
            invariant
                self.wf(),
                a == address_of(title@, owner@),
                i <= self.records@.len(),
                forall|k: int| 0 <= k < i ==> rec_addr(#[trigger] self.records@[k]) != a,
            decreases self.records@.len() - i,
        {
            let matches_title = bytes_eq(&self.records[i].entry.title, title);
            let matches_owner = owner_eq(&self.records[i].entry.owner, owner);
            if matches_title && matches_owner {
                return Some(i);
            }
            proof {
                if rec_addr(self.records@[i as int]) == a {
                    lemma_address_injective(
                        self.records@[i as int].entry.title@,
                        self.records@[i as int].entry.owner@,
                        title@,
                        owner@,
                    );
                }
            }
            i = i + 1;
        }
        proof {
            lemma_store_of_contains(self.records@, a);
        }
        None
    }

    /// Creates the record identified by `title` and the signer: fails with
    /// `LengthExceeded` if a text field is over its maximum, with
    /// `AlreadyExists` if the derived address is occupied, and otherwise
    /// initializes a record owned by the signer, reserving worst-case
    /// storage charged to the signer as payer.
    pub fn create_journal_entry(
        &mut self,
        ctx: CreateEntry,
        title: Vec<u8>,
        message: Vec<u8>,
    ) -> (r: Result<(), Error>)
        requires
            old(self).wf(),
        ensures
            final(self).wf(),
            r == create_result(old(self)@, title@, ctx.owner@, message@),
            final(self)@ == create_store(old(self)@, title@, ctx.owner@, message@),
    {
        if title.len() > MAX_TITLE_LEN || message.len() > MAX_MESSAGE_LEN {
            return Err(Error::LengthExceeded);
        }
        match self.find_index(&title, &ctx.owner) {
            Some(i) => {
                proof {
                    lemma_store_of_index(self.records@, i as int);
                }
                Err(Error::AlreadyExists)
            },
            None => {
                let space: usize = HEADER_SIZE + MAX_TITLE_LEN + MAX_MESSAGE_LEN;
                let ghost rs0 = self.records@;
                let ghost t0 = title@;
                let ghost a = address_of(title@, ctx.owner@);
                let rec = StoredRecord {
                    entry: JournalEntryState { owner: ctx.owner, title, message },
                    space,
                };
                proof {
                    lemma_store_of_contains(rs0, a);
                }
                self.records.push(rec);
                proof {
                    assert(self.records@.drop_last() =~= rs0);
                    assert(forall|k: int|
                        0 <= k < rs0.len() ==> rec_addr(#[trigger] rs0[k]) != a);
                    assert(forall|k: int|
                        0 <= k < rs0.len() ==> self.records@[k] == rs0[k]);
                    assert(final(self)@ =~= create_store(old(self)@, t0, ctx.owner@, rec.entry.message@));
                }
                Ok(())
            },
        }
    }

    /// Updates the message of the record identified by `title` and the
    /// signer: fails with `LengthExceeded` if the message is over its
    /// maximum, with `NotFound` if no record lives at the derived address,
    /// and with `Unauthorized` if the stored owner is not the signer;
    /// otherwise rewrites the message, leaving owner and title unchanged,
    /// and compacts storage to exact content size, refunding the signer
    /// for the freed space.
    pub fn update_journal_entry(
        &mut self,
        ctx: UpdateEntry,
        title: Vec<u8>,
        message: Vec<u8>,
    ) -> (r: Result<(), Error>)
        requires
            old(self).wf(),
        ensures
            final(self).wf(),
            r == update_result(old(self)@, title@, ctx.owner@, message@),
            final(self)@ == update_store(old(self)@, title@, ctx.owner@, message@),
    {
        if message.len() > MAX_MESSAGE_LEN {
            return Err(Error::LengthExceeded);
        }
        match self.find_index(&title, &ctx.owner) {
            None => Err(Error::NotFound),
            Some(i) => {
                proof {
                    lemma_store_of_index(self.records@, i as int);
                }
                let authorized = owner_eq(&self.records[i].entry.owner, &ctx.owner);
                if !authorized {
                    return Err(Error::Unauthorized);
                }
                let ghost rs0 = self.records@;
                let ghost a = address_of(title@, ctx.owner@);
                proof {
                    lemma_store_of_remove(rs0, i as int);
                    rs0.remove_ensures(i as int);
                    lemma_store_of_contains(rs0.remove(i as int), a);
                }
                let mut rec = self.records.remove(i);
                let space: usize = HEADER_SIZE + rec.entry.title.len() + message.len();
                rec.entry.message = message;
                rec.space = space;
                let ghost rs1 = self.records@;
                proof {
                    assert(uniq_addrs(rs1));
                    assert(forall|k: int|
                        0 <= k < rs1.len() ==> rec_ok(#[trigger] rs1[k]));
                    assert(forall|k: int|
                        0 <= k < rs1.len() ==> rec_addr(#[trigger] rs1[k]) != a);
                }
                self.records.push(rec);
                proof {
                    assert(self.records@.drop_last() =~= rs1);
                    assert(forall|k: int|
                        0 <= k < rs1.len() ==> self.records@[k] == rs1[k]);
                    assert(final(self)@ =~= update_store(old(self)@, title@, ctx.owner@, rec.entry.message@));
                }
                Ok(())
            },
        }
    }

    /// Deletes the record identified by `title` and the signer: fails with
    /// `NotFound` if no record lives at the derived address, and with
    /// `Unauthorized` if the stored owner is not the signer; otherwise
    /// releases the record's entire storage, returning the full deposit to
    /// the signer, and frees the address for a future create.
    pub fn delete_journal_entry(&mut self, ctx: DeleteEntry, title: Vec<u8>) -> (r: Result<
        (),
        Error,
    >)
        requires
            old(self).wf(),
        ensures
            final(self).wf(),
            r == delete_result(old(self)@, title@, ctx.owner@),
            final(self)@ == delete_store(old(self)@, title@, ctx.owner@),
    {
        match self.find_index(&title, &ctx.owner) {
            None => Err(Error::NotFound),
            Some(i) => {
                proof {
                    lemma_store_of_index(self.records@, i as int);
                }
                let authorized = owner_eq(&self.records[i].entry.owner, &ctx.owner);
                if !authorized {
                    return Err(Error::Unauthorized);
                }
                proof {
                    lemma_store_of_remove(self.records@, i as int);
                    self.records@.remove_ensures(i as int);
                }
                self.records.remove(i);
                Ok(())
            },
        }
    }

    /// The record at the derived address of `title` and `owner`, if one is
    /// initialized there; reads at an uninitialized address fail, never
    /// default.
    pub fn read_journal_entry(&self, title: &Vec<u8>, owner: &[u8; 32]) -> (r: Option<
        &JournalEntryState,
    >)
        requires
            self.wf(),
        ensures
            match r {
                Some(e) => {
                    &&& self@.contains_key(address_of(title@, owner@))
                    &&& e.owner@ == self@[address_of(title@, owner@)].owner
                    &&& e.title@ == self@[address_of(title@, owner@)].title
                    &&& e.message@ == self@[address_of(title@, owner@)].message
                },
                None => !self@.contains_key(address_of(title@, owner@)),
            },
    {
        match self.find_index(title, owner) {
            None => None,
            Some(i) => {
                proof {
                    lemma_store_of_index(self.records@, i as int);
                }
                Some(&self.records[i].entry)
            },
        }
    }

    /// The storage in bytes currently reserved for the record at the
    /// derived address of `title` and `owner`, if one is initialized there.
    pub fn storage_size(&self, title: &Vec<u8>, owner: &[u8; 32]) -> (r: Option<usize>)
        requires
            self.wf(),
        ensures
            match r {
                Some(n) => self@.contains_key(address_of(title@, owner@)) && n as nat
                    == self@[address_of(title@, owner@)].space,
                None => !self@.contains_key(address_of(title@, owner@)),
            },
    {
        match self.find_index(title, owner) {
            None => None,
            Some(i) => {
                proof {
                    lemma_store_of_index(self.records@, i as int);
                }
                Some(self.records[i].space)
            },
        }
    }
}

impl View for Ledger {
    type V = Map<Seq<u8>, EntryView>;

    closed spec fn view(&self) -> Map<Seq<u8>, EntryView> {
        store_of(self.records@)
    }
}

} // verus!
