//! Operations the surrounding interface drives: validating new-item input,
//! adding an item through the whole encryption pipeline, revealing a stored
//! secret, and the small pieces of interface state worth getting right.
//!
//! The interface hands these functions plain values (lines of bytes, ids,
//! passwords) and gets plain values back; rendering, key routing and
//! clipboard access stay outside.

use vstd::prelude::*;

use crate::aad::Timestamp;
use crate::crypto::{
    opt_view, sealed_package, EncryptionInput, MAX_PASSWORD_LEN, PLAINTEXT_MAX,
};
use crate::db::{next_uid, same_item, AddItemInput, Database, Item};
use crate::error::Error;

verus! {

/// ASCII whitespace: space, tab, line feed, vertical tab, form feed,
/// carriage return.
pub open spec fn is_space(b: u8) -> bool {
    b == 0x20 || (0x09 <= b <= 0x0d)
}

/// `s` without its leading whitespace.
pub open spec fn trim_start_spec(s: Seq<u8>) -> Seq<u8>
    decreases s.len(),
{
    if s.len() > 0 && is_space(s[0]) {
        trim_start_spec(s.skip(1))
    } else {
        s
    }
}

/// `s` without its trailing whitespace.
pub open spec fn trim_end_spec(s: Seq<u8>) -> Seq<u8>
    decreases s.len(),
{
    if s.len() > 0 && is_space(s.last()) {
        trim_end_spec(s.drop_last())
    } else {
        s
    }
}

/// `s` without leading and trailing whitespace.
pub open spec fn trim_spec(s: Seq<u8>) -> Seq<u8> {
    trim_end_spec(trim_start_spec(s))
}

/// The lines joined with a line feed between each pair.
pub open spec fn join_spec(lines: Seq<Seq<u8>>) -> Seq<u8>
    decreases lines.len(),
{
    if lines.len() == 0 {
        Seq::empty()
    } else if lines.len() == 1 {
        lines[0]
    } else {
        join_spec(lines.drop_last()) + seq![0x0au8] + lines.last()
    }
}

/// The lines of a text field, each as its byte sequence.
pub open spec fn lines_view(lines: &[Vec<u8>]) -> Seq<Seq<u8>> {
    Seq::new(lines@.len(), |i: int| lines@[i]@)
}

/// Whether the byte is ASCII whitespace.
fn is_space_byte(b: u8) -> (r: bool)
    ensures
        r == is_space(b),
{
    b == 0x20 || (0x09 <= b && b <= 0x0d)
}

/// An owned copy of `s` without leading and trailing whitespace.
pub fn trim(s: &[u8]) -> (out: Vec<u8>)
    ensures
        out@ == trim_spec(s@),
{
    let mut start: usize = 0;
    proof {
        assert(s@.skip(0) =~= s@);
    }
    while start < s.len() && is_space_byte(s[start])
        invariant
            start <= s@.len(),
            trim_start_spec(s@) == trim_start_spec(s@.skip(start as int)),
            forall|k: int| 0 <= k < start ==> is_space(s@[k]),
        decreases s@.len() - start,
    {
        proof {
            assert(s@.skip(start as int)[0] == s@[start as int]);
            assert(s@.skip(start as int).skip(1) =~= s@.skip(start as int + 1));
        }
        start = start + 1;
    }
    proof {
        assert(trim_start_spec(s@.skip(start as int)) == s@.skip(start as int));
    }
    let mut end: usize = s.len();
    while end > start && is_space_byte(s[end - 1])
        invariant
            start <= end <= s@.len(),
            trim_start_spec(s@) == s@.skip(start as int),
            trim_end_spec(s@.skip(start as int)) == trim_end_spec(
                s@.subrange(start as int, end as int),
            ),
        decreases end,
    {
        proof {
            let t = s@.subrange(start as int, end as int);
            assert(t.last() == s@[end - 1]);
            assert(t.drop_last() =~= s@.subrange(start as int, end as int - 1));
        }
        end = end - 1;
    }
    proof {
        let t = s@.subrange(start as int, end as int);
        assert(trim_end_spec(t) == t);
    }
    let mut out: Vec<u8> = Vec::with_capacity(end - start);
    let mut i: usize = start;
    while i < end
        invariant
            start <= i <= end <= s@.len(),
            out@ == s@.subrange(start as int, i as int),
        decreases end - i,
    {
        out.push(s[i]);
        proof {
            assert(out@ =~= s@.subrange(start as int, i as int + 1));
        }
        i = i + 1;
    }
    proof {
        assert(s@.skip(start as int) =~= s@.subrange(start as int, s@.len() as int));
    }
    out
}

/// The lines joined into one buffer with a line feed between each pair.
pub fn join_lines(lines: &[Vec<u8>]) -> (out: Vec<u8>)
    ensures
        out@ == join_spec(lines_view(lines)),
{
    let mut out: Vec<u8> = Vec::new();
    let mut i: usize = 0;
    while i < lines.len()
        invariant
            i <= lines@.len(),
            out@ == join_spec(lines_view(lines).take(i as int)),
        decreases lines@.len() - i,
    {
        if i > 0 {
            out.push(0x0a);
        }
        let line = &lines[i];
        let mut j: usize = 0;
        while j < line.len()
            invariant
                j <= line@.len(),
                out@ == if i > 0 {
                    join_spec(lines_view(lines).take(i as int)) + seq![0x0au8] + line@.take(
                        j as int,
                    )
                } else {
                    line@.take(j as int)
                },
                i < lines@.len(),
                line == &lines@[i as int],
            decreases line@.len() - j,
        {
            out.push(line[j]);
            proof {
                assert(line@.take(j as int + 1) =~= line@.take(j as int).push(line@[j as int]));
            }
            j = j + 1;
        }
        proof {
            let dv = lines_view(lines);
            assert(line@.take(line@.len() as int) =~= line@);
            assert(dv.take(i + 1).drop_last() =~= dv.take(i as int));
            assert(dv.take(i + 1).last() == dv[i as int]);
            if i == 0 {
                assert(join_spec(dv.take(1)) == dv[0]);
            }
        }
        i = i + 1;
    }
    proof {
        assert(lines_view(lines).take(lines@.len() as int) =~= lines_view(lines));
    }
    out
}

/// The label input is one line with visible content.
pub open spec fn valid_label(lines: Seq<Seq<u8>>) -> bool {
    lines.len() == 1 && trim_spec(lines[0]).len() > 0
}

/// The account input fits on one line (it may be empty).
pub open spec fn valid_account(lines: Seq<Seq<u8>>) -> bool {
    lines.len() <= 1
}

/// The account value: absent when the input is empty after trimming.
pub open spec fn account_value(lines: Seq<Seq<u8>>) -> Option<Seq<u8>> {
    if lines.len() == 0 || trim_spec(lines[0]).len() == 0 {
        None
    } else {
        Some(trim_spec(lines[0]))
    }
}

/// The secret input holds at least one non-empty line.
pub open spec fn valid_secret(lines: Seq<Seq<u8>>) -> bool {
    !(lines.len() == 0 || (lines.len() == 1 && lines[0].len() == 0))
}

/// The encryption password is exactly one non-empty line.
pub open spec fn valid_enc_pass(lines: Seq<Seq<u8>>) -> bool {
    lines.len() == 1 && lines[0].len() > 0
}

/// Every input field of the new-item dialog is valid and the password
/// confirmation matches.
pub open spec fn valid_new_item(
    label_lines: Seq<Seq<u8>>,
    account_lines: Seq<Seq<u8>>,
    secret_lines: Seq<Seq<u8>>,
    enc_pass_lines: Seq<Seq<u8>>,
    confirm_lines: Seq<Seq<u8>>,
) -> bool {
    &&& valid_label(label_lines)
    &&& valid_account(account_lines)
    &&& valid_secret(secret_lines)
    &&& valid_enc_pass(enc_pass_lines)
    &&& enc_pass_lines[0] == join_spec(confirm_lines)
}

/// The dialog's fields are all valid and both machine bounds hold: the
/// joined secret fits the cipher and the password fits the KDF.
pub open spec fn acceptable_new_item(
    label_lines: Seq<Seq<u8>>,
    account_lines: Seq<Seq<u8>>,
    secret_lines: Seq<Seq<u8>>,
    enc_pass_lines: Seq<Seq<u8>>,
    confirm_lines: Seq<Seq<u8>>,
) -> bool {
    &&& valid_new_item(label_lines, account_lines, secret_lines, enc_pass_lines, confirm_lines)
    &&& join_spec(secret_lines).len() <= PLAINTEXT_MAX
    &&& enc_pass_lines[0].len() <= MAX_PASSWORD_LEN
}

/// Validates the five input fields of the new-item dialog, encrypts the
/// secret under the encryption password, and inserts the encrypted item
/// into the store.
///
/// Validation failures surface field by field, in a fixed order, exactly
/// when the field is invalid, before the store or the crypto engine is
/// touched; on every failure the store is unchanged.  On acceptable input
/// the call succeeds, except that a freshly drawn salt or nonce (or the
/// label) may collide with a stored row - the store's defense-in-depth
/// check - or the unique-id space may be exhausted.  On success, the new
/// item's ciphertext is exactly the pipeline's sealing of the joined
/// secret lines under the freshly drawn salt and nonce carried in the
/// item itself.
pub fn add_secret_item(
    db: &mut Database,
    label_lines: &[Vec<u8>],
    account_lines: &[Vec<u8>],
    secret_lines: &[Vec<u8>],
    enc_pass_lines: &[Vec<u8>],
    confirm_lines: &[Vec<u8>],
    now: Timestamp,
) -> (r: Result<Item, Error>)
    requires
        old(db).inv(),
        now.wf(),
    ensures
        final(db).inv(),
        r is Err ==> final(db).items@ == old(db).items@,
        r == Err::<Item, Error>(Error::LabelRequired) <==> !valid_label(lines_view(label_lines)),
        r == Err::<Item, Error>(Error::AccountNameSingleLine) <==> valid_label(
            lines_view(label_lines),
        ) && !valid_account(lines_view(account_lines)),
        r == Err::<Item, Error>(Error::SecretRequired) <==> valid_label(lines_view(label_lines))
            && valid_account(lines_view(account_lines)) && !valid_secret(
            lines_view(secret_lines),
        ),
        r == Err::<Item, Error>(Error::EncryptionPasswordRequired) <==> valid_label(
            lines_view(label_lines),
        ) && valid_account(lines_view(account_lines)) && valid_secret(lines_view(secret_lines))
            && !valid_enc_pass(lines_view(enc_pass_lines)),
        r == Err::<Item, Error>(Error::ConfirmPasswordMismatch) <==> valid_label(
            lines_view(label_lines),
        ) && valid_account(lines_view(account_lines)) && valid_secret(lines_view(secret_lines))
            && valid_enc_pass(lines_view(enc_pass_lines)) && lines_view(enc_pass_lines)[0]
            != join_spec(lines_view(confirm_lines)),
        r == Err::<Item, Error>(Error::AuthenticationFailed) <==> valid_new_item(
            lines_view(label_lines),
            lines_view(account_lines),
            lines_view(secret_lines),
            lines_view(enc_pass_lines),
            lines_view(confirm_lines),
        ) && join_spec(lines_view(secret_lines)).len() > PLAINTEXT_MAX,
        r == Err::<Item, Error>(Error::Hashing) <==> valid_new_item(
            lines_view(label_lines),
            lines_view(account_lines),
            lines_view(secret_lines),
            lines_view(enc_pass_lines),
            lines_view(confirm_lines),
        ) && join_spec(lines_view(secret_lines)).len() <= PLAINTEXT_MAX && lines_view(
            enc_pass_lines,
        )[0].len() > MAX_PASSWORD_LEN,
        acceptable_new_item(
            lines_view(label_lines),
            lines_view(account_lines),
            lines_view(secret_lines),
            lines_view(enc_pass_lines),
            lines_view(confirm_lines),
        ) ==> (r is Ok || r == Err::<Item, Error>(Error::ConstraintViolation) || r == Err::<
            Item,
            Error,
        >(Error::StorageFull)),
        r == Err::<Item, Error>(Error::ConstraintViolation) ==> old(db).items@.len() > 0,
        next_uid(old(db).items@) <= u64::MAX ==> r != Err::<Item, Error>(Error::StorageFull),
        acceptable_new_item(
            lines_view(label_lines),
            lines_view(account_lines),
            lines_view(secret_lines),
            lines_view(enc_pass_lines),
            lines_view(confirm_lines),
        ) && old(db).items@.len() == 0 ==> r is Ok,
        r matches Ok(item) ==> {
            &&& acceptable_new_item(
                lines_view(label_lines),
                lines_view(account_lines),
                lines_view(secret_lines),
                lines_view(enc_pass_lines),
                lines_view(confirm_lines),
            )
            &&& item.label@ == trim_spec(lines_view(label_lines)[0])
            &&& opt_view(item.account) == account_value(lines_view(account_lines))
            &&& item.last_modified_at == now
            &&& sealed_package(
                item.encrypted_secret@,
                item.kdf_salt@,
                item.auth_nonce@,
                trim_spec(lines_view(label_lines)[0]),
                account_value(lines_view(account_lines)),
                now,
                lines_view(enc_pass_lines)[0],
                join_spec(lines_view(secret_lines)),
            )
            &&& final(db).items@.len() == old(db).items@.len() + 1
            &&& same_item(final(db).items@.last(), item)
        },
        r matches Err(e) ==> (e == Error::LabelRequired || e == Error::AccountNameSingleLine || e
            == Error::SecretRequired || e == Error::EncryptionPasswordRequired || e
            == Error::ConfirmPasswordMismatch || e == Error::Hashing
            || e == Error::AuthenticationFailed || e == Error::ConstraintViolation || e
            == Error::StorageFull),
{
    // Validate the label: one line with visible content, used trimmed.
    if label_lines.len() != 1 {
        return Err(Error::LabelRequired);
    }
    let label = trim(label_lines[0].as_slice());
    if label.len() == 0 {
        return Err(Error::LabelRequired);
    }

    // Validate the account: at most one line; blank means not applicable.
    if account_lines.len() > 1 {
        return Err(Error::AccountNameSingleLine);
    }
    let account: Option<Vec<u8>> = if account_lines.len() == 0 {
        None
    } else {
        let trimmed = trim(account_lines[0].as_slice());
        if trimmed.len() == 0 {
            None
        } else {
            Some(trimmed)
        }
    };

    // Validate the secret: it must have some content.
    if secret_lines.len() == 0 || (secret_lines.len() == 1 && secret_lines[0].len() == 0) {
        return Err(Error::SecretRequired);
    }
    let secret = join_lines(secret_lines);

    // Validate the encryption password: exactly one non-empty line.
    if enc_pass_lines.len() != 1 || enc_pass_lines[0].len() == 0 {
        return Err(Error::EncryptionPasswordRequired);
    }
    let confirm = join_lines(confirm_lines);
    if !crate::bytes::bytes_eq(enc_pass_lines[0].as_slice(), confirm.as_slice()) {
        return Err(Error::ConfirmPasswordMismatch);
    }

    // The cipher cannot seal arbitrarily long messages; refuse the same
    // way a failing cipher construction would surface.
    if secret.len() > PLAINTEXT_MAX {
        return Err(Error::AuthenticationFailed);
    }

    let encryption_input = EncryptionInput {
        plaintext_secret: secret,
        label,
        account,
        last_modified_at: now,
    };
    let encryption_output = match encryption_input.encrypt_and_authenticate(
        enc_pass_lines[0].as_slice(),
    ) {
        Ok(output) => output,
        Err(e) => {
            return Err(e);
        },
    };

    db.add_item(
        AddItemInput {
            label: encryption_input.label,
            account: encryption_input.account,
            last_modified_at: encryption_input.last_modified_at,
            encrypted_secret: encryption_output.encrypted_secret,
            kdf_salt: encryption_output.kdf_salt,
            auth_nonce: encryption_output.auth_nonce,
        },
    )
}

/// Fetches the item with the given unique id and decrypts its secret with
/// the supplied password.
///
/// Whenever the stored ciphertext is exactly what encrypting some
/// plaintext with this password and the item's stored metadata produced,
/// that plaintext comes back; otherwise decryption fails as the pipeline
/// does.
pub fn reveal_secret(db: &Database, uid: u64, password: &[u8]) -> (r: Result<Vec<u8>, Error>)
    requires
        db.inv(),
    ensures
        r == Err::<Vec<u8>, Error>(Error::NotFound) <==> !exists|k: int|
            0 <= k < db.items@.len() && #[trigger] db.items@[k].uid == uid,
        r == Err::<Vec<u8>, Error>(Error::Hashing) <==> (exists|k: int|
            0 <= k < db.items@.len() && #[trigger] db.items@[k].uid == uid) && password@.len()
            > MAX_PASSWORD_LEN,
        r matches Err(e) ==> (e == Error::NotFound || e == Error::Hashing || e
            == Error::AuthenticationFailed || e == Error::Unpad),
        forall|k: int, pt: Seq<u8>|
            #![trigger sealed_package(
                db.items@[k].encrypted_secret@,
                db.items@[k].kdf_salt@,
                db.items@[k].auth_nonce@,
                db.items@[k].label@,
                opt_view(db.items@[k].account),
                db.items@[k].last_modified_at,
                password@,
                pt,
            )]
            (0 <= k < db.items@.len() && db.items@[k].uid == uid && sealed_package(
                db.items@[k].encrypted_secret@,
                db.items@[k].kdf_salt@,
                db.items@[k].auth_nonce@,
                db.items@[k].label@,
                opt_view(db.items@[k].account),
                db.items@[k].last_modified_at,
                password@,
                pt,
            ) && password@.len() <= MAX_PASSWORD_LEN) ==> (r matches Ok(p) && p@ == pt),
{
    let item = match db.item_by_id(uid) {
        Ok(item) => item,
        Err(e) => {
            return Err(e);
        },
    };
    let input = crate::crypto::DecryptionInput {
        encrypted_secret: item.encrypted_secret,
        kdf_salt: item.kdf_salt,
        auth_nonce: item.auth_nonce,
        label: item.label,
        account: item.account,
        last_modified_at: item.last_modified_at,
    };
    let result = input.decrypt_and_verify(password);
    proof {
        let k0 = choose|k0: int|
            0 <= k0 < db.items@.len() && same_item(#[trigger] db.items@[k0], item);
        assert forall|k: int, pt: Seq<u8>|
            #![trigger sealed_package(
                db.items@[k].encrypted_secret@,
                db.items@[k].kdf_salt@,
                db.items@[k].auth_nonce@,
                db.items@[k].label@,
                opt_view(db.items@[k].account),
                db.items@[k].last_modified_at,
                password@,
                pt,
            )]
            (0 <= k < db.items@.len() && db.items@[k].uid == uid && sealed_package(
                db.items@[k].encrypted_secret@,
                db.items@[k].kdf_salt@,
                db.items@[k].auth_nonce@,
                db.items@[k].label@,
                opt_view(db.items@[k].account),
                db.items@[k].last_modified_at,
                password@,
                pt,
            ) && password@.len() <= MAX_PASSWORD_LEN) implies (result matches Ok(p) && p@
            == pt) by {
            // Strictly increasing unique ids: the id picks out one item,
            // so the row found is the row the premise speaks of.
            if k < k0 {
                assert(db.items@[k].uid < db.items@[k0].uid);
            }
            if k0 < k {
                assert(db.items@[k0].uid < db.items@[k].uid);
            }
            assert(k == k0);
            assert(sealed_package(
                input.encrypted_secret@,
                input.kdf_salt@,
                input.auth_nonce@,
                input.label@,
                opt_view(input.account),
                input.last_modified_at,
                password@,
                pt,
            ));
        }
    }
    result
}

/// The search pattern for a search box line: the trimmed line wrapped in
/// `%` wildcards, so that any label or account containing it matches.
pub fn make_search_pattern(line: &[u8]) -> (r: Vec<u8>)
    ensures
        r@ == seq![0x25u8] + trim_spec(line@) + seq![0x25u8],
{
    let trimmed = trim(line);
    let mut out: Vec<u8> = Vec::new();
    out.push(0x25);
    let mut i: usize = 0;
    while i < trimmed.len()
        invariant
            i <= trimmed@.len(),
            out@ == seq![0x25u8] + trimmed@.take(i as int),
        decreases trimmed@.len() - i,
    {
        out.push(trimmed[i]);
        proof {
            assert(trimmed@.take(i as int + 1) =~= trimmed@.take(i as int).push(
                trimmed@[i as int],
            ));
        }
        i = i + 1;
    }
    proof {
        assert(trimmed@.take(trimmed@.len() as int) =~= trimmed@);
    }
    out.push(0x25);
    proof {
        assert(out@ =~= seq![0x25u8] + trim_spec(line@) + seq![0x25u8]);
    }
    out
}

/// The input field of the new-item dialog that holds keyboard focus.
#[derive(Debug, Clone, Copy, PartialEq, Eq, Structural)]
pub enum FocusedTextArea {
    Label,
    Account,
    Secret,
    EncPass,
    Confirm,
}

/// The field after `which`, wrapping around.
pub open spec fn next_spec(which: FocusedTextArea) -> FocusedTextArea {
    match which {
        FocusedTextArea::Label => FocusedTextArea::Account,
        FocusedTextArea::Account => FocusedTextArea::Secret,
        FocusedTextArea::Secret => FocusedTextArea::EncPass,
        FocusedTextArea::EncPass => FocusedTextArea::Confirm,
        FocusedTextArea::Confirm => FocusedTextArea::Label,
    }
}

/// The field before `which`, wrapping around.
pub open spec fn prev_spec(which: FocusedTextArea) -> FocusedTextArea {
    match which {
        FocusedTextArea::Label => FocusedTextArea::Confirm,
        FocusedTextArea::Account => FocusedTextArea::Label,
        FocusedTextArea::Secret => FocusedTextArea::Account,
        FocusedTextArea::EncPass => FocusedTextArea::Secret,
        FocusedTextArea::Confirm => FocusedTextArea::EncPass,
    }
}

impl Default for FocusedTextArea {
    /// The dialog opens with the label field focused.
    fn default() -> (r: Self)
        ensures
            r == FocusedTextArea::Label,
    {
        FocusedTextArea::Label
    }
}

impl FocusedTextArea {
    /// Cycles focus forward through the dialog's fields.
    pub fn next(self) -> (r: Self)
        ensures
            r == next_spec(self),
    {
        match self {
            FocusedTextArea::Label => FocusedTextArea::Account,
            FocusedTextArea::Account => FocusedTextArea::Secret,
            FocusedTextArea::Secret => FocusedTextArea::EncPass,
            FocusedTextArea::EncPass => FocusedTextArea::Confirm,
            FocusedTextArea::Confirm => FocusedTextArea::Label,
        }
    }

    /// Cycles focus backward through the dialog's fields.
    pub fn prev(self) -> (r: Self)
        ensures
            r == prev_spec(self),
    {
        match self {
            FocusedTextArea::Label => FocusedTextArea::Confirm,
            FocusedTextArea::Account => FocusedTextArea::Label,
            FocusedTextArea::Secret => FocusedTextArea::Account,
            FocusedTextArea::EncPass => FocusedTextArea::Secret,
            FocusedTextArea::Confirm => FocusedTextArea::EncPass,
        }
    }
}

/// Cycling forward then backward, or backward then forward, lands on the
/// field it started from.
pub proof fn lemma_focus_cycle_inverse(which: FocusedTextArea)
    ensures
        prev_spec(next_spec(which)) == which,
        next_spec(prev_spec(which)) == which,
{
}

} // verus!
