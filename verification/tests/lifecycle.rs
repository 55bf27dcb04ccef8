use journal::addr::derive_address;
use journal::entry::CreateEntry;
use journal::entry::DeleteEntry;
use journal::entry::Error;
use journal::entry::UpdateEntry;
use journal::ledger::Ledger;

const OWNER: [u8; 32] = [1u8; 32];
const OTHER: [u8; 32] = [2u8; 32];

fn create(l: &mut Ledger, title: &str, message: &str, owner: [u8; 32]) -> Result<(), Error> {
    l.create_journal_entry(
        CreateEntry { owner },
        title.as_bytes().to_vec(),
        message.as_bytes().to_vec(),
    )
}

fn update(l: &mut Ledger, title: &str, message: &str, owner: [u8; 32]) -> Result<(), Error> {
    l.update_journal_entry(
        UpdateEntry { owner },
        title.as_bytes().to_vec(),
        message.as_bytes().to_vec(),
    )
}

fn delete(l: &mut Ledger, title: &str, owner: [u8; 32]) -> Result<(), Error> {
    l.delete_journal_entry(DeleteEntry { owner }, title.as_bytes().to_vec())
}

#[test]
fn derive_address_is_deterministic() {
    let a1 = derive_address(&b"Day 1".to_vec(), &OWNER);
    let a2 = derive_address(&b"Day 1".to_vec(), &OWNER);
    assert_eq!(a1, a2);
    let b = derive_address(&b"Day 2".to_vec(), &OWNER);
    assert_ne!(a1, b);
    let c = derive_address(&b"Day 1".to_vec(), &OTHER);
    assert_ne!(a1, c);
}

#[test]
fn derive_address_layout() {
    let a = derive_address(&b"ab".to_vec(), &OWNER);
    let mut expected = b"ab".to_vec();
    expected.extend_from_slice(&[1u8; 32]);
    assert_eq!(a, expected);
}

#[test]
fn create_then_read() {
    let mut l = Ledger::new();
    assert_eq!(create(&mut l, "Day 1", "Hello", OWNER), Ok(()));
    let e = l
        .read_journal_entry(&b"Day 1".to_vec(), &OWNER)
        .expect("record should exist after create");
    assert_eq!(e.owner, OWNER);
    assert_eq!(e.title, b"Day 1".to_vec());
    assert_eq!(e.message, b"Hello".to_vec());
}

#[test]
fn create_reserves_max_storage() {
    let mut l = Ledger::new();
    assert_eq!(create(&mut l, "Day 1", "Hello", OWNER), Ok(()));
    let space = l
        .storage_size(&b"Day 1".to_vec(), &OWNER)
        .expect("record should exist after create");
    assert_eq!(space, 48 + 50 + 1000);
}

#[test]
fn no_double_create() {
    let mut l = Ledger::new();
    assert_eq!(create(&mut l, "Day 1", "Hello", OWNER), Ok(()));
    assert_eq!(
        create(&mut l, "Day 1", "Something else", OWNER),
        Err(Error::AlreadyExists)
    );
    let e = l
        .read_journal_entry(&b"Day 1".to_vec(), &OWNER)
        .expect("original record should remain");
    assert_eq!(e.message, b"Hello".to_vec());
}

#[test]
fn update_preserves_identity_fields() {
    let mut l = Ledger::new();
    assert_eq!(create(&mut l, "Day 1", "Hello", OWNER), Ok(()));
    assert_eq!(update(&mut l, "Day 1", "Updated", OWNER), Ok(()));
    let e = l
        .read_journal_entry(&b"Day 1".to_vec(), &OWNER)
        .expect("record should exist after update");
    assert_eq!(e.owner, OWNER);
    assert_eq!(e.title, b"Day 1".to_vec());
    assert_eq!(e.message, b"Updated".to_vec());
}

#[test]
fn update_compacts_storage_to_content_size() {
    let mut l = Ledger::new();
    assert_eq!(create(&mut l, "Day 1", "Hello", OWNER), Ok(()));
    assert_eq!(update(&mut l, "Day 1", "Updated", OWNER), Ok(()));
    let space = l
        .storage_size(&b"Day 1".to_vec(), &OWNER)
        .expect("record should exist after update");
    assert_eq!(space, 48 + "Day 1".len() + "Updated".len());
}

#[test]
fn authorization_boundary() {
    let mut l = Ledger::new();
    assert_eq!(create(&mut l, "Day 1", "Hello", OWNER), Ok(()));
    // The derived address is keyed by the signer, so a different signer's
    // update misses the record entirely.
    assert_eq!(update(&mut l, "Day 1", "X", OTHER), Err(Error::NotFound));
    assert_eq!(delete(&mut l, "Day 1", OTHER), Err(Error::NotFound));
    let e = l
        .read_journal_entry(&b"Day 1".to_vec(), &OWNER)
        .expect("record should be untouched by another signer");
    assert_eq!(e.owner, OWNER);
    assert_eq!(e.message, b"Hello".to_vec());
}

#[test]
fn delete_frees_the_address() {
    let mut l = Ledger::new();
    assert_eq!(create(&mut l, "Day 1", "Hello", OWNER), Ok(()));
    assert_eq!(delete(&mut l, "Day 1", OWNER), Ok(()));
    assert!(l.read_journal_entry(&b"Day 1".to_vec(), &OWNER).is_none());
    assert_eq!(create(&mut l, "Day 1", "New", OWNER), Ok(()));
    let e = l
        .read_journal_entry(&b"Day 1".to_vec(), &OWNER)
        .expect("address should be reusable after delete");
    assert_eq!(e.message, b"New".to_vec());
    let space = l
        .storage_size(&b"Day 1".to_vec(), &OWNER)
        .expect("fresh record should exist");
    assert_eq!(space, 48 + 50 + 1000);
}

#[test]
fn title_length_boundary() {
    let mut l = Ledger::new();
    let long = "t".repeat(51);
    assert_eq!(create(&mut l, &long, "Hello", OWNER), Err(Error::LengthExceeded));
    let max = "t".repeat(50);
    assert_eq!(create(&mut l, &max, "Hello", OWNER), Ok(()));
}

#[test]
fn message_length_boundary_on_create() {
    let mut l = Ledger::new();
    let long = "m".repeat(1001);
    assert_eq!(create(&mut l, "Day 1", &long, OWNER), Err(Error::LengthExceeded));
    let max = "m".repeat(1000);
    assert_eq!(create(&mut l, "Day 1", &max, OWNER), Ok(()));
}

#[test]
fn message_length_boundary_on_update() {
    let mut l = Ledger::new();
    assert_eq!(create(&mut l, "Day 1", "Hello", OWNER), Ok(()));
    let long = "m".repeat(1001);
    assert_eq!(update(&mut l, "Day 1", &long, OWNER), Err(Error::LengthExceeded));
    let e = l
        .read_journal_entry(&b"Day 1".to_vec(), &OWNER)
        .expect("record should survive a rejected update");
    assert_eq!(e.message, b"Hello".to_vec());
    let max = "m".repeat(1000);
    assert_eq!(update(&mut l, "Day 1", &max, OWNER), Ok(()));
    let e2 = l
        .read_journal_entry(&b"Day 1".to_vec(), &OWNER)
        .expect("record should exist after update");
    assert_eq!(e2.message, max.as_bytes().to_vec());
}

#[test]
fn empty_title_and_message_are_allowed() {
    let mut l = Ledger::new();
    assert_eq!(create(&mut l, "", "", OWNER), Ok(()));
    let e = l
        .read_journal_entry(&b"".to_vec(), &OWNER)
        .expect("empty title should still address a record");
    assert_eq!(e.title, Vec::<u8>::new());
    assert_eq!(e.message, Vec::<u8>::new());
}

#[test]
fn update_missing_record_fails() {
    let mut l = Ledger::new();
    assert_eq!(update(&mut l, "Day 1", "X", OWNER), Err(Error::NotFound));
}

#[test]
fn delete_missing_record_fails() {
    let mut l = Ledger::new();
    assert_eq!(delete(&mut l, "Day 1", OWNER), Err(Error::NotFound));
    assert_eq!(create(&mut l, "Day 1", "Hello", OWNER), Ok(()));
    assert_eq!(delete(&mut l, "Day 1", OWNER), Ok(()));
    assert_eq!(delete(&mut l, "Day 1", OWNER), Err(Error::NotFound));
}

#[test]
fn records_with_distinct_keys_coexist() {
    let mut l = Ledger::new();
    assert_eq!(create(&mut l, "Day 1", "mine", OWNER), Ok(()));
    assert_eq!(create(&mut l, "Day 1", "theirs", OTHER), Ok(()));
    assert_eq!(create(&mut l, "Day 2", "later", OWNER), Ok(()));
    assert_eq!(update(&mut l, "Day 1", "still mine", OWNER), Ok(()));
    let mine = l
        .read_journal_entry(&b"Day 1".to_vec(), &OWNER)
        .expect("first record should exist");
    assert_eq!(mine.message, b"still mine".to_vec());
    let theirs = l
        .read_journal_entry(&b"Day 1".to_vec(), &OTHER)
        .expect("second record should exist");
    assert_eq!(theirs.message, b"theirs".to_vec());
    let later = l
        .read_journal_entry(&b"Day 2".to_vec(), &OWNER)
        .expect("third record should exist");
    assert_eq!(later.message, b"later".to_vec());
}
