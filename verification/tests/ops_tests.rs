//! Tests for the operations the interface drives: new-item validation and
//! insertion, revealing a secret, search patterns, focus cycling, and
//! error annotation.

use steelsafe::aad::Timestamp;
use steelsafe::db::Database;
use steelsafe::error::{Error, ResultExt};
use steelsafe::ops::{add_secret_item, make_search_pattern, reveal_secret, FocusedTextArea};

fn test_timestamp() -> Timestamp {
    Timestamp { year: 2025, month: 7, day: 4, hour: 16, minute: 20, second: 0 }
}

fn lines(strs: &[&str]) -> Vec<Vec<u8>> {
    strs.iter().map(|s| s.as_bytes().to_vec()).collect()
}

#[test]
fn new_item_validation_rejects_bad_fields() -> Result<(), Error> {
    let mut db = Database::open(None, vec![])?;
    let good_label = lines(&["a label"]);
    let good_account = lines(&["who@where"]);
    let good_secret = lines(&["the secret"]);
    let good_pass = lines(&["the password"]);
    let now = test_timestamp();

    // Label: required, one line, with visible content.
    for bad_label in [lines(&[]), lines(&["  "]), lines(&["a", "b"])] {
        let r = add_secret_item(
            &mut db, &bad_label, &good_account, &good_secret, &good_pass, &good_pass, now,
        );
        assert!(matches!(r, Err(Error::LabelRequired)), "unexpected: {:?}", r);
    }

    // Account: a single line at most.
    let r = add_secret_item(
        &mut db, &good_label, &lines(&["a", "b"]), &good_secret, &good_pass, &good_pass, now,
    );
    assert!(matches!(r, Err(Error::AccountNameSingleLine)), "unexpected: {:?}", r);

    // Secret: required.
    for bad_secret in [lines(&[]), lines(&[""])] {
        let r = add_secret_item(
            &mut db, &good_label, &good_account, &bad_secret, &good_pass, &good_pass, now,
        );
        assert!(matches!(r, Err(Error::SecretRequired)), "unexpected: {:?}", r);
    }

    // Encryption password: required, one non-empty line.
    for bad_pass in [lines(&[]), lines(&[""]), lines(&["a", "b"])] {
        let r = add_secret_item(
            &mut db, &good_label, &good_account, &good_secret, &bad_pass, &bad_pass, now,
        );
        assert!(matches!(r, Err(Error::EncryptionPasswordRequired)), "unexpected: {:?}", r);
    }

    // Confirmation must match the password.
    let r = add_secret_item(
        &mut db,
        &good_label,
        &good_account,
        &good_secret,
        &good_pass,
        &lines(&["the passwurd"]),
        now,
    );
    assert!(matches!(r, Err(Error::ConfirmPasswordMismatch)), "unexpected: {:?}", r);

    // Nothing was stored along the way.
    assert_eq!(db.list_items_for_display(None).len(), 0);
    Ok(())
}

#[test]
fn added_item_round_trips_through_the_store() -> Result<(), Error> {
    let mut db = Database::open(None, vec![])?;
    let now = test_timestamp();

    let item = add_secret_item(
        &mut db,
        &lines(&["  my email  "]),
        &lines(&["bob@example.com"]),
        &lines(&["first line", "second line"]),
        &lines(&["a strong password"]),
        &lines(&["a strong password"]),
        now,
    )?;

    // The label was trimmed; the timestamp was taken as given.
    assert_eq!(item.label, b"my email".to_vec());
    assert_eq!(item.account, Some(b"bob@example.com".to_vec()));
    assert_eq!(item.last_modified_at, now);

    // Multi-line secrets are joined with a line feed, and come back
    // through the full fetch-and-decrypt path.
    let secret = reveal_secret(&db, item.uid, b"a strong password")?;
    assert_eq!(secret, b"first line\nsecond line".to_vec());

    // The wrong password does not reveal anything.
    let r = reveal_secret(&db, item.uid, b"a wrong password");
    assert!(matches!(r, Err(Error::AuthenticationFailed)), "unexpected: {:?}", r);

    // A missing unique id is reported as such.
    let r = reveal_secret(&db, item.uid + 1, b"a strong password");
    assert!(matches!(r, Err(Error::NotFound)), "unexpected: {:?}", r);

    // A second item under the same label is refused by the store.
    let r = add_secret_item(
        &mut db,
        &lines(&["my email"]),
        &lines(&[]),
        &lines(&["another secret"]),
        &lines(&["pw"]),
        &lines(&["pw"]),
        now,
    );
    assert!(matches!(r, Err(Error::ConstraintViolation)), "unexpected: {:?}", r);

    Ok(())
}

#[test]
fn blank_account_becomes_absent() -> Result<(), Error> {
    let mut db = Database::open(None, vec![])?;
    let item = add_secret_item(
        &mut db,
        &lines(&["labelled"]),
        &lines(&["   "]),
        &lines(&["secret"]),
        &lines(&["pw"]),
        &lines(&["pw"]),
        test_timestamp(),
    )?;
    assert_eq!(item.account, None);
    Ok(())
}

#[test]
fn search_pattern_wraps_trimmed_term() {
    assert_eq!(make_search_pattern(b"  bank "), b"%bank%".to_vec());
    assert_eq!(make_search_pattern(b""), b"%%".to_vec());
    assert_eq!(make_search_pattern(b"a b"), b"%a b%".to_vec());
}

#[test]
fn focus_cycles_through_all_fields() {
    let start = FocusedTextArea::default();
    assert_eq!(start, FocusedTextArea::Label);

    // Five steps forward return to the start, visiting every field once.
    let mut focus = start;
    let mut seen = vec![focus];
    for _ in 0..4 {
        focus = focus.next();
        assert!(!seen.contains(&focus));
        seen.push(focus);
    }
    assert_eq!(focus.next(), start);

    // Backward is the inverse of forward.
    for &field in &seen {
        assert_eq!(field.next().prev(), field);
        assert_eq!(field.prev().next(), field);
    }
}

#[test]
fn context_wraps_errors_and_passes_successes() {
    let ok: Result<u32, Error> = Ok(7);
    assert_eq!(ok.context(String::from("reading the store")), Ok(7));

    let err: Result<u32, Error> = Err(Error::NotFound);
    let wrapped = err.context(String::from("reading the store")).unwrap_err();
    match wrapped {
        Error::Context { message, source } => {
            assert_eq!(message, "reading the store");
            assert!(matches!(*source, Error::NotFound));
        },
        other => panic!("unexpected error: {:?}", other),
    }
}
