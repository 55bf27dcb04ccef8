//! The functional semantics of the record lifecycle: what each operation
//! returns, and how it transforms the store, stated over a map from derived
//! address to record image. The executable ledger's contracts are phrased
//! in terms of these functions, and the lifecycle laws are proved of them.

use vstd::prelude::*;

use crate::addr::address_of;
use crate::addr::lemma_address_distinct;
use crate::entry::EntryView;
use crate::entry::Error;
use crate::entry::HEADER_SIZE;
use crate::entry::MAX_MESSAGE_LEN;
use crate::entry::MAX_TITLE_LEN;

verus! {

/// The abstract state of the store: each initialized address holds one
/// record image.
pub type Store = Map<Seq<u8>, EntryView>;

/// The storage reserved when a record is created: worst-case space for
/// both text fields, so a later update never needs a larger allocation
/// than was originally budgeted.
pub open spec fn create_space() -> nat {
    (HEADER_SIZE + MAX_TITLE_LEN + MAX_MESSAGE_LEN) as nat
}

/// The storage held after an update: exact content size, compacted down
/// from whatever was reserved before.
pub open spec fn updated_space(title: Seq<u8>, message: Seq<u8>) -> nat {
    (HEADER_SIZE + title.len() + message.len()) as nat
}

/// What a create call returns: `LengthExceeded` if a text field is over
/// its maximum, `AlreadyExists` if the derived address is occupied, and
/// success otherwise.
pub open spec fn create_result(
    s: Store,
    title: Seq<u8>,
    owner: Seq<u8>,
    message: Seq<u8>,
) -> Result<(), Error> {
    if title.len() > MAX_TITLE_LEN || message.len() > MAX_MESSAGE_LEN {
        Err(Error::LengthExceeded)
    } else if s.contains_key(address_of(title, owner)) {
        Err(Error::AlreadyExists)
    } else {
        Ok(())
    }
}

/// The store after a create call: on success a fresh record owned by the
/// signer, budgeted at the worst-case size, at the derived address; on
/// failure the store is unchanged.
pub open spec fn create_store(
    s: Store,
    title: Seq<u8>,
    owner: Seq<u8>,
    message: Seq<u8>,
) -> Store {
    if create_result(s, title, owner, message) is Ok {
        s.insert(
            address_of(title, owner),
            EntryView { owner, title, message, space: create_space() },
        )
    } else {
        s
    }
}

/// What an update call returns: `LengthExceeded` if the message is over
/// its maximum, `NotFound` if nothing lives at the derived address,
/// `Unauthorized` if the stored owner is not the signer, and success
/// otherwise.
pub open spec fn update_result(
    s: Store,
    title: Seq<u8>,
    signer: Seq<u8>,
    message: Seq<u8>,
) -> Result<(), Error> {
    if message.len() > MAX_MESSAGE_LEN {
        Err(Error::LengthExceeded)
    } else if !s.contains_key(address_of(title, signer)) {
        Err(Error::NotFound)
    } else if s[address_of(title, signer)].owner != signer {
        Err(Error::Unauthorized)
    } else {
        Ok(())
    }
}

/// The store after an update call: on success the record at the derived
/// address keeps its owner and title, carries the new message, and is
/// compacted to exact content size; on failure the store is unchanged.
pub open spec fn update_store(
    s: Store,
    title: Seq<u8>,
    signer: Seq<u8>,
    message: Seq<u8>,
) -> Store {
    if update_result(s, title, signer, message) is Ok {
        let a = address_of(title, signer);
        let e = s[a];
        s.insert(
            a,
            EntryView {
                owner: e.owner,
                title: e.title,
                message,
                space: updated_space(e.title, message),
            },
        )
    } else {
        s
    }
}

/// What a delete call returns: `NotFound` if nothing lives at the derived
/// address, `Unauthorized` if the stored owner is not the signer, and
/// success otherwise.
pub open spec fn delete_result(s: Store, title: Seq<u8>, signer: Seq<u8>) -> Result<(), Error> {
    if !s.contains_key(address_of(title, signer)) {
        Err(Error::NotFound)
    } else if s[address_of(title, signer)].owner != signer {
        Err(Error::Unauthorized)
    } else {
        Ok(())
    }
}

/// The store after a delete call: on success the derived address is freed
/// entirely; on failure the store is unchanged.
pub open spec fn delete_store(s: Store, title: Seq<u8>, signer: Seq<u8>) -> Store {
    if delete_result(s, title, signer) is Ok {
        s.remove(address_of(title, signer))
    } else {
        s
    }
}

/// After a successful create, a direct read at the derived address yields
/// a record with exactly the given owner, title and message, and the
/// worst-case storage budget; every other address is untouched.
pub proof fn lemma_create_then_read(s: Store, title: Seq<u8>, owner: Seq<u8>, message: Seq<u8>)
    requires
        create_result(s, title, owner, message) is Ok,
    ensures
        ({
            let s1 = create_store(s, title, owner, message);
            &&& s1.contains_key(address_of(title, owner))
            &&& s1[address_of(title, owner)] == (EntryView {
                owner,
                title,
                message,
                space: create_space(),
            })
            &&& forall|b: Seq<u8>|
                b != address_of(title, owner) && s.contains_key(b) ==> s1.contains_key(b)
                    && s1[b] == s[b]
        }),
{
}

/// A second create at an occupied address fails with `AlreadyExists`,
/// whatever message it carries, and leaves the store unchanged.
pub proof fn lemma_no_double_create(
    s: Store,
    title: Seq<u8>,
    owner: Seq<u8>,
    m1: Seq<u8>,
    m2: Seq<u8>,
)
    requires
        create_result(s, title, owner, m1) is Ok,
        m2.len() <= MAX_MESSAGE_LEN,
    ensures
        ({
            let s1 = create_store(s, title, owner, m1);
            &&& create_result(s1, title, owner, m2) == Err::<(), Error>(Error::AlreadyExists)
            &&& create_store(s1, title, owner, m2) == s1
        }),
{
}

/// A successful update changes the message and compacts storage to exact
/// content size, but leaves the record's owner and title — and every
/// other address — unchanged; no address appears or disappears.
pub proof fn lemma_update_preserves_identity(
    s: Store,
    title: Seq<u8>,
    signer: Seq<u8>,
    message: Seq<u8>,
)
    requires
        update_result(s, title, signer, message) is Ok,
    ensures
        ({
            let a = address_of(title, signer);
            let s1 = update_store(s, title, signer, message);
            &&& s1.contains_key(a)
            &&& s1[a].owner == s[a].owner
            &&& s1[a].title == s[a].title
            &&& s1[a].message == message
            &&& s1[a].space == HEADER_SIZE + s[a].title.len() + message.len()
            &&& forall|b: Seq<u8>| b != a && s.contains_key(b) ==> s1.contains_key(b) && s1[b] == s[b]
            &&& s1.dom() == s.dom()
        }),
{
    let a = address_of(title, signer);
    let s1 = update_store(s, title, signer, message);
    assert(s1.dom() =~= s.dom());
}

/// An update signed by an identity other than a record's owner cannot
/// touch that record: the entry at the owner's derived address is
/// unchanged, and where the signer has no record of their own under the
/// same title, the call is rejected with `NotFound`.
pub proof fn lemma_update_wrong_signer(
    s: Store,
    title: Seq<u8>,
    owner: Seq<u8>,
    signer: Seq<u8>,
    message: Seq<u8>,
)
    requires
        owner.len() == 32,
        signer.len() == 32,
        signer != owner,
        s.contains_key(address_of(title, owner)),
    ensures
        ({
            let a = address_of(title, owner);
            let s1 = update_store(s, title, signer, message);
            &&& s1.contains_key(a)
            &&& s1[a] == s[a]
            &&& (!s.contains_key(address_of(title, signer)) && message.len() <= MAX_MESSAGE_LEN
                ==> update_result(s, title, signer, message) == Err::<(), Error>(Error::NotFound))
        }),
{
    lemma_address_distinct(title, owner, title, signer);
}

/// A successful delete frees the derived address: a subsequent create for
/// the same title and owner succeeds and produces a fresh record with the
/// new message and a fresh worst-case storage budget.
pub proof fn lemma_delete_frees_address(
    s: Store,
    title: Seq<u8>,
    owner: Seq<u8>,
    message: Seq<u8>,
)
    requires
        delete_result(s, title, owner) is Ok,
        title.len() <= MAX_TITLE_LEN,
        message.len() <= MAX_MESSAGE_LEN,
    ensures
        ({
            let s1 = delete_store(s, title, owner);
            &&& !s1.contains_key(address_of(title, owner))
            &&& create_result(s1, title, owner, message) is Ok
            &&& create_store(s1, title, owner, message)[address_of(title, owner)] == (EntryView {
                owner,
                title,
                message,
                space: create_space(),
            })
        }),
{
}

} // verus!
