//! The tamper-evident persistent store over encrypted items.
//!
//! The store enforces, independently of the random-generation layer, that
//! labels, KDF salts and authentication nonces stay unique across all
//! items, and refuses to open data recorded under a schema version newer
//! than this build supports.  Reading rows from disk and writing them back
//! is the surrounding application's concern; this module owns the rules.

use vstd::prelude::*;

use crate::aad::Timestamp;
use crate::bytes::{bytes_eq, copy_bytes};
use crate::crypto::{opt_view, NONCE_LEN, RECOMMENDED_SALT_LEN};
use crate::error::Error;

verus! {

/// The current version of the database schema.
pub const SCHEMA_VERSION: i64 = 1;

/// A secret item, as persisted.
#[derive(Debug, PartialEq, Eq)]
pub struct Item {
    /// Unique identifier of the item.
    pub uid: u64,
    /// Human-readable identifier of the item; unique across all items.
    pub label: Vec<u8>,
    /// Username, email address, etc.; `None` if not applicable.
    pub account: Option<Vec<u8>>,
    /// Last modification date of the item; the creation date if never
    /// modified.
    pub last_modified_at: Timestamp,
    /// The encrypted and authenticated secret.  The remaining fields are
    /// bound into its authentication tag for tamper protection.
    pub encrypted_secret: Vec<u8>,
    /// The salt for the key derivation function.  Unique across all items,
    /// as an additional line of defense against salt re-use, which would
    /// derive identical keys for identical passwords.
    pub kdf_salt: [u8; RECOMMENDED_SALT_LEN],
    /// The nonce for the AEAD cipher.  Unique across all items, as an
    /// additional line of defense against nonce re-use, which would break
    /// the encryption.
    pub auth_nonce: [u8; NONCE_LEN],
}

/// Used for adding an encrypted secret item to the store; the unique id is
/// assigned by the store itself.
#[derive(Debug)]
pub struct AddItemInput {
    pub label: Vec<u8>,
    pub account: Option<Vec<u8>>,
    pub last_modified_at: Timestamp,
    pub encrypted_secret: Vec<u8>,
    pub kdf_salt: [u8; RECOMMENDED_SALT_LEN],
    pub auth_nonce: [u8; NONCE_LEN],
}

/// Human-readable projection of an [`Item`]: no encrypted secret, salt or
/// nonce.
#[derive(Debug, PartialEq, Eq)]
pub struct DisplayItem {
    pub uid: u64,
    pub label: Vec<u8>,
    pub account: Option<Vec<u8>>,
    pub last_modified_at: Timestamp,
}

/// The two items collide on no unique column.
pub open spec fn no_collision(a: Item, b: Item) -> bool {
    &&& a.label@ != b.label@
    &&& a.kdf_salt@ != b.kdf_salt@
    &&& a.auth_nonce@ != b.auth_nonce@
}

/// The input reuses one of the item's unique columns.
pub open spec fn collides_with(item: Item, input: AddItemInput) -> bool {
    ||| item.label@ == input.label@
    ||| item.kdf_salt@ == input.kdf_salt@
    ||| item.auth_nonce@ == input.auth_nonce@
}

/// The item `b` holds the same data as `a`, field for field.
pub open spec fn same_item(a: Item, b: Item) -> bool {
    &&& a.uid == b.uid
    &&& a.label@ == b.label@
    &&& opt_view(a.account) == opt_view(b.account)
    &&& a.last_modified_at == b.last_modified_at
    &&& a.encrypted_secret@ == b.encrypted_secret@
    &&& a.kdf_salt@ == b.kdf_salt@
    &&& a.auth_nonce@ == b.auth_nonce@
}

/// The item `item` was built from `input` with unique id `uid`.
pub open spec fn item_from_input(item: Item, input: AddItemInput, uid: u64) -> bool {
    &&& item.uid == uid
    &&& item.label@ == input.label@
    &&& opt_view(item.account) == opt_view(input.account)
    &&& item.last_modified_at == input.last_modified_at
    &&& item.encrypted_secret@ == input.encrypted_secret@
    &&& item.kdf_salt@ == input.kdf_salt@
    &&& item.auth_nonce@ == input.auth_nonce@
}

/// The store's structural invariant: no two items collide on a unique
/// column, and unique ids are strictly increasing (insertion order).
pub open spec fn store_inv(items: Seq<Item>) -> bool {
    &&& forall|i: int, j: int|
        0 <= i < j < items.len() ==> #[trigger] no_collision(items[i], items[j])
    &&& forall|i: int, j: int|
        #![trigger items[i].uid, items[j].uid]
        0 <= i < j < items.len() ==> items[i].uid < items[j].uid
}

/// The unique id the store assigns to the next inserted item.
pub open spec fn next_uid(items: Seq<Item>) -> int {
    if items.len() == 0 {
        1
    } else {
        items.last().uid + 1
    }
}

/// The schema version a freshly opened store runs under: the recorded one,
/// or the running build's version when nothing was recorded yet.
pub open spec fn effective_version(recorded_version: Option<i64>) -> int {
    match recorded_version {
        Option::None => SCHEMA_VERSION as int,
        Option::Some(v) => v as int,
    }
}

/// Handle for the secrets store.
#[derive(Debug)]
pub struct Database {
    /// The items, in insertion order.
    pub items: Vec<Item>,
    /// The schema version recorded for this store.
    pub schema_version: i64,
}

impl Database {
    /// The store is well formed.
    pub open spec fn inv(&self) -> bool {
        &&& store_inv(self.items@)
        &&& self.schema_version <= SCHEMA_VERSION
    }

    /// Opens a store over rows previously persisted (none for a fresh
    /// store), with the schema version recorded alongside them.
    ///
    /// Bootstrap has insert-if-absent semantics: a store without a recorded
    /// version receives the running build's version; a recorded version is
    /// left untouched.  A store recording a version newer than this build
    /// supports is refused outright, and rows violating the uniqueness
    /// rules are refused as corrupt.
    pub fn open(recorded_version: Option<i64>, items: Vec<Item>) -> (r: Result<Database, Error>)
        ensures
            r matches Ok(db) ==> {
                &&& db.inv()
                &&& db.items@ == items@
                &&& db.schema_version == effective_version(recorded_version)
            },
            r is Ok <==> effective_version(recorded_version) <= SCHEMA_VERSION && store_inv(
                items@,
            ),
            effective_version(recorded_version) > SCHEMA_VERSION ==> r == Err::<Database, Error>(
                Error::SchemaVersionMismatch {
                    expected: SCHEMA_VERSION,
                    actual: effective_version(recorded_version) as i64,
                },
            ),
            (effective_version(recorded_version) <= SCHEMA_VERSION && !store_inv(items@)) ==> r
                == Err::<Database, Error>(Error::ConstraintViolation),
    {
        let schema_version: i64 = match recorded_version {
            Some(v) => v,
            None => SCHEMA_VERSION,
        };
        if SCHEMA_VERSION < schema_version {
            return Err(Error::SchemaVersionMismatch {
                expected: SCHEMA_VERSION,
                actual: schema_version,
            });
        }
        // Validate the uniqueness rules over the given rows: they come from
        // storage this build does not control.
        let n = items.len();
        let mut i: usize = 0;
        while i < n
            invariant
                n == items@.len(),
                i <= n,
                effective_version(recorded_version) <= SCHEMA_VERSION,
                forall|x: int, y: int|
                    0 <= x < y < i ==> #[trigger] no_collision(items@[x], items@[y]),
                forall|x: int, y: int|
                    #![trigger items@[x].uid, items@[y].uid]
                    0 <= x < y < i ==> items@[x].uid < items@[y].uid,
            decreases n - i,
        {
            let mut j: usize = 0;
            while j < i
                invariant
                    n == items@.len(),
                    i < n,
                    j <= i,
                    effective_version(recorded_version) <= SCHEMA_VERSION,
                    forall|x: int|
                        0 <= x < j ==> #[trigger] no_collision(items@[x], items@[i as int]),
                    forall|x: int|
                        #![trigger items@[x].uid]
                        0 <= x < j ==> items@[x].uid < items@[i as int].uid,
                decreases i - j,
            {
                let earlier = &items[j];
                let current = &items[i];
                if bytes_eq(earlier.label.as_slice(), current.label.as_slice()) || bytes_eq(
                    earlier.kdf_salt.as_slice(),
                    current.kdf_salt.as_slice(),
                ) || bytes_eq(earlier.auth_nonce.as_slice(), current.auth_nonce.as_slice())
                    || earlier.uid >= current.uid {
                    proof {
                        assert(!no_collision(items@[j as int], items@[i as int]) || items@[j as int].uid
                            >= items@[i as int].uid);
                        assert(!store_inv(items@));
                    }
                    return Err(Error::ConstraintViolation);
                }
                j = j + 1;
            }
            i = i + 1;
        }
        Ok(Database { items, schema_version })
    }

    /// Creates a new entry in the store from an already-encrypted secret,
    /// assigning it a fresh unique id.
    ///
    /// Fails with [`Error::ConstraintViolation`] exactly when the input's
    /// label, KDF salt, or authentication nonce collides with an existing
    /// item; the salt and nonce checks are a structural second line of
    /// defense against random-value re-use, independent of the CSPRNG's
    /// freshness guarantee.  On failure the store is unchanged.
    pub fn add_item(&mut self, input: AddItemInput) -> (r: Result<Item, Error>)
        requires
            old(self).inv(),
        ensures
            final(self).inv(),
            final(self).schema_version == old(self).schema_version,
            r matches Ok(item) ==> {
                &&& item_from_input(item, input, item.uid)
                &&& item.uid == next_uid(old(self).items@)
                &&& final(self).items@.len() == old(self).items@.len() + 1
                &&& item_from_input(final(self).items@.last(), input, item.uid)
                &&& forall|k: int|
                    0 <= k < old(self).items@.len() ==> final(self).items@[k] == old(
                        self,
                    ).items@[k]
            },
            r is Err ==> final(self).items@ == old(self).items@,
            (r == Err::<Item, Error>(Error::ConstraintViolation)) <==> exists|k: int|
                0 <= k < old(self).items@.len() && collides_with(
                    #[trigger] old(self).items@[k],
                    input,
                ),
            r is Ok <==> (!exists|k: int|
                0 <= k < old(self).items@.len() && collides_with(
                    #[trigger] old(self).items@[k],
                    input,
                )) && next_uid(old(self).items@) <= u64::MAX,
            (r == Err::<Item, Error>(Error::StorageFull)) <==> (!exists|k: int|
                0 <= k < old(self).items@.len() && collides_with(
                    #[trigger] old(self).items@[k],
                    input,
                )) && next_uid(old(self).items@) > u64::MAX,
    {
        let n = self.items.len();
        let mut k: usize = 0;
        while k < n
            invariant
                n == self.items@.len(),
                k <= n,
                forall|x: int|
                    0 <= x < k ==> !collides_with(#[trigger] self.items@[x], input),
                self == old(self),
                old(self).inv(),
            decreases n - k,
        {
            let existing = &self.items[k];
            if bytes_eq(existing.label.as_slice(), input.label.as_slice()) || bytes_eq(
                existing.kdf_salt.as_slice(),
                input.kdf_salt.as_slice(),
            ) || bytes_eq(existing.auth_nonce.as_slice(), input.auth_nonce.as_slice()) {
                return Err(Error::ConstraintViolation);
            }
            k = k + 1;
        }
        let uid: u64 = if n == 0 {
            1
        } else {
            let last_uid = self.items[n - 1].uid;
            if last_uid == u64::MAX {
                return Err(Error::StorageFull);
            }
            last_uid + 1
        };
        let item = Item {
            uid,
            label: input.label,
            account: input.account,
            last_modified_at: input.last_modified_at,
            encrypted_secret: input.encrypted_secret,
            kdf_salt: input.kdf_salt,
            auth_nonce: input.auth_nonce,
        };
        let returned = item.duplicate();
        proof {
            // Every existing unique id sits below the last one, so the
            // fresh id is above them all.
            assert forall|x: int| 0 <= x < old(self).items@.len() implies old(
                self,
            ).items@[x].uid < uid by {
                if x < old(self).items@.len() - 1 {
                    assert(old(self).items@[x].uid < old(self).items@[old(
                        self,
                    ).items@.len() - 1].uid);
                }
            }
        }
        self.items.push(item);
        Ok(returned)
    }

    /// Retrieves a full item based on its unique id, including the
    /// encrypted secret, KDF salt and authentication nonce, for use
    /// immediately before a decrypt call.
    pub fn item_by_id(&self, uid: u64) -> (r: Result<Item, Error>)
        ensures
            r matches Ok(item) ==> item.uid == uid && exists|k: int|
                0 <= k < self.items@.len() && same_item(#[trigger] self.items@[k], item),
            r is Ok <==> exists|k: int|
                0 <= k < self.items@.len() && #[trigger] self.items@[k].uid == uid,
            r is Err ==> r == Err::<Item, Error>(Error::NotFound),
    {
        let n = self.items.len();
        let mut k: usize = 0;
        while k < n
            invariant
                n == self.items@.len(),
                k <= n,
                forall|x: int| 0 <= x < k ==> #[trigger] self.items@[x].uid != uid,
            decreases n - k,
        {
            if self.items[k].uid == uid {
                return Ok(self.items[k].duplicate());
            }
            k = k + 1;
        }
        Err(Error::NotFound)
    }

    /// Returns the list of items matching the optional search term, in
    /// insertion (unique id) order, as human-readable projections: no
    /// encrypted secret, KDF salt or authentication nonce.
    ///
    /// With no search term every item is returned; with one, items whose
    /// label or account name matches it (SQL `LIKE` semantics) are.
    pub fn list_items_for_display(&self, search_term: Option<&[u8]>) -> (r: Vec<DisplayItem>)
        ensures
            r@.len() == matching_items(self.items@, opt_pattern_view(search_term)).len(),
            forall|k: int|
                0 <= k < r@.len() ==> displays(
                    #[trigger] matching_items(self.items@, opt_pattern_view(search_term))[k],
                    r@[k],
                ),
    {
        let n = self.items.len();
        let mut out: Vec<DisplayItem> = Vec::new();
        let mut i: usize = 0;
        while i < n
            invariant
                n == self.items@.len(),
                i <= n,
                out@.len() == matching_items(
                    self.items@.take(i as int),
                    opt_pattern_view(search_term),
                ).len(),
                forall|k: int|
                    0 <= k < out@.len() ==> displays(
                        #[trigger] matching_items(
                            self.items@.take(i as int),
                            opt_pattern_view(search_term),
                        )[k],
                        out@[k],
                    ),
            decreases n - i,
        {
            let item = &self.items[i];
            proof {
                assert(self.items@.take(i + 1).drop_last() =~= self.items@.take(i as int));
                assert(self.items@.take(i + 1).last() == self.items@[i as int]);
            }
            if search_matches(item, search_term) {
                out.push(DisplayItem {
                    uid: item.uid,
                    label: copy_bytes(item.label.as_slice()),
                    account: match &item.account {
                        Some(account) => Some(copy_bytes(account.as_slice())),
                        None => None,
                    },
                    last_modified_at: item.last_modified_at,
                });
            }
            i = i + 1;
        }
        proof {
            assert(self.items@.take(n as int) =~= self.items@);
        }
        out
    }
}


/// SQL-`LIKE` pattern matching over bytes: `%` (0x25) matches any run of
/// bytes, `_` (0x5f) matches exactly one byte, and every other byte
/// matches itself.  Matching is case-sensitive.
pub open spec fn like_match(pattern: Seq<u8>, text: Seq<u8>) -> bool
    decreases pattern.len(), text.len(),
{
    if pattern.len() == 0 {
        text.len() == 0
    } else if pattern[0] == 0x25 {
        like_match(pattern.skip(1), text) || (text.len() > 0 && like_match(pattern, text.skip(1)))
    } else if pattern[0] == 0x5f {
        text.len() > 0 && like_match(pattern.skip(1), text.skip(1))
    } else {
        text.len() > 0 && text[0] == pattern[0] && like_match(pattern.skip(1), text.skip(1))
    }
}

/// The view of an optional pattern argument.
pub open spec fn opt_pattern_view(pattern: Option<&[u8]>) -> Option<Seq<u8>> {
    match pattern {
        Option::None => None,
        Option::Some(p) => Some(p@),
    }
}

/// The item matches the optional search pattern: with no pattern every
/// item matches; with one, the label or the account name must match it.
pub open spec fn matches_search(item: Item, pattern: Option<Seq<u8>>) -> bool {
    match pattern {
        Option::None => true,
        Option::Some(p) => like_match(p, item.label@) || match opt_view(item.account) {
            Option::Some(a) => like_match(p, a),
            Option::None => false,
        },
    }
}

/// The items that match the pattern, in their stored order.
pub open spec fn matching_items(items: Seq<Item>, pattern: Option<Seq<u8>>) -> Seq<Item>
    decreases items.len(),
{
    if items.len() == 0 {
        Seq::empty()
    } else {
        let rest = matching_items(items.drop_last(), pattern);
        if matches_search(items.last(), pattern) {
            rest.push(items.last())
        } else {
            rest
        }
    }
}

/// The display projection `d` shows exactly the item's public fields.
pub open spec fn displays(item: Item, d: DisplayItem) -> bool {
    &&& d.uid == item.uid
    &&& d.label@ == item.label@
    &&& opt_view(d.account) == opt_view(item.account)
    &&& d.last_modified_at == item.last_modified_at
}

/// Matches `pattern` from position `pi` against `text` from position `ti`.
fn like_rec(pattern: &[u8], pi: usize, text: &[u8], ti: usize) -> (r: bool)
    requires
        pi <= pattern@.len(),
        ti <= text@.len(),
    ensures
        r == like_match(pattern@.skip(pi as int), text@.skip(ti as int)),
    decreases pattern@.len() - pi, text@.len() - ti,
{
    proof {
        if pi < pattern@.len() {
            assert(pattern@.skip(pi as int)[0] == pattern@[pi as int]);
            assert(pattern@.skip(pi as int).skip(1) =~= pattern@.skip(pi as int + 1));
        }
        if ti < text@.len() {
            assert(text@.skip(ti as int)[0] == text@[ti as int]);
            assert(text@.skip(ti as int).skip(1) =~= text@.skip(ti as int + 1));
        }
    }
    if pi == pattern.len() {
        ti == text.len()
    } else if pattern[pi] == 0x25 {
        if like_rec(pattern, pi + 1, text, ti) {
            true
        } else if ti < text.len() {
            like_rec(pattern, pi, text, ti + 1)
        } else {
            false
        }
    } else if pattern[pi] == 0x5f {
        ti < text.len() && like_rec(pattern, pi + 1, text, ti + 1)
    } else {
        ti < text.len() && text[ti] == pattern[pi] && like_rec(pattern, pi + 1, text, ti + 1)
    }
}

/// Whether the item's label or account matches the optional pattern.
fn search_matches(item: &Item, pattern: Option<&[u8]>) -> (r: bool)
    ensures
        r == matches_search(*item, opt_pattern_view(pattern)),
{
    match pattern {
        None => true,
        Some(p) => {
            proof {
                assert(p@.skip(0) =~= p@);
                assert(item.label@.skip(0) =~= item.label@);
            }
            if like_rec(p, 0, item.label.as_slice(), 0) {
                true
            } else {
                match &item.account {
                    Some(account) => {
                        proof {
                            assert(account@.skip(0) =~= account@);
                        }
                        like_rec(p, 0, account.as_slice(), 0)
                    },
                    None => false,
                }
            }
        },
    }
}

impl Item {
    /// An owned copy of the item, field for field.
    pub fn duplicate(&self) -> (r: Item)
        ensures
            same_item(*self, r),
    {
        Item {
            uid: self.uid,
            label: copy_bytes(self.label.as_slice()),
            account: match &self.account {
                Some(account) => Some(copy_bytes(account.as_slice())),
                None => None,
            },
            last_modified_at: self.last_modified_at,
            encrypted_secret: copy_bytes(self.encrypted_secret.as_slice()),
            kdf_salt: self.kdf_salt,
            auth_nonce: self.auth_nonce,
        }
    }
}

} // verus!
