//! AAD binder: deterministically serializes an item's non-secret metadata
//! into the bytes that the AEAD cipher authenticates but does not encrypt.
//!
//! The serialization is canonical: fields in a fixed (alphabetical) order,
//! the timestamp in a fixed UTC format, string contents escaped, and no
//! incidental whitespace.  Any later alteration of the label, account or
//! timestamp therefore changes the reconstructed bytes and makes decryption
//! fail authentication.

use vstd::prelude::*;

verus! {

/// A UTC timestamp with second precision, held as plain calendar fields.
#[derive(Debug, Clone, Copy, PartialEq, Eq, Structural)]
pub struct Timestamp {
    pub year: u16,
    pub month: u8,
    pub day: u8,
    pub hour: u8,
    pub minute: u8,
    pub second: u8,
}

impl Timestamp {
    /// The fields fit the fixed four/two-digit rendering, on which that
    /// rendering is injective; the encryption pipeline requires this, so
    /// that two distinct timestamps never bind the same metadata bytes.
    pub open spec fn wf(self) -> bool {
        &&& self.year <= 9999
        &&& 1 <= self.month <= 12
        &&& 1 <= self.day <= 31
        &&& self.hour <= 23
        &&& self.minute <= 59
        &&& self.second <= 59
    }
}

/// The ASCII digit for `n % 10`.
pub open spec fn digit(n: nat) -> u8 {
    (0x30 + n % 10) as u8
}

/// `n` rendered as exactly two ASCII digits (modulo 100).
pub open spec fn two_digits(n: nat) -> Seq<u8> {
    seq![digit(n / 10), digit(n)]
}

/// `n` rendered as exactly four ASCII digits (modulo 10000).
pub open spec fn four_digits(n: nat) -> Seq<u8> {
    seq![digit(n / 1000), digit(n / 100), digit(n / 10), digit(n)]
}

/// The timestamp in fixed-precision ISO-8601 UTC form,
/// `YYYY-MM-DDThh:mm:ssZ` (0x2d `-`, 0x54 `T`, 0x3a `:`, 0x5a `Z`).
pub open spec fn timestamp_bytes(ts: Timestamp) -> Seq<u8> {
    four_digits(ts.year as nat) + seq![0x2du8] + two_digits(ts.month as nat) + seq![0x2du8]
        + two_digits(ts.day as nat) + seq![0x54u8] + two_digits(ts.hour as nat) + seq![0x3au8]
        + two_digits(ts.minute as nat) + seq![0x3au8] + two_digits(ts.second as nat)
        + seq![0x5au8]
}

/// The ASCII digit (lower-case) for the hex value `n % 16`.
pub open spec fn hex_digit(n: nat) -> u8 {
    if n % 16 < 10 {
        (0x30 + n % 16) as u8
    } else {
        (0x61 + (n % 16 - 10)) as u8
    }
}

/// How one string byte is escaped: a double quote (0x22) and a backslash
/// (0x5c) get a backslash, control bytes become a `\u00XX` sequence, and
/// all else passes through.
pub open spec fn escape_byte(b: u8) -> Seq<u8> {
    if b == 0x22 {
        seq![0x5cu8, 0x22u8]
    } else if b == 0x5c {
        seq![0x5cu8, 0x5cu8]
    } else if b < 0x20 {
        seq![0x5cu8, 0x75u8, 0x30u8, 0x30u8, hex_digit((b / 16) as nat), hex_digit(b as nat)]
    } else {
        seq![b]
    }
}

/// A whole string escaped byte by byte.
pub open spec fn escape_bytes(s: Seq<u8>) -> Seq<u8>
    decreases s.len(),
{
    if s.len() == 0 {
        Seq::empty()
    } else {
        escape_bytes(s.drop_last()) + escape_byte(s.last())
    }
}

/// A string field value: escaped and surrounded by double quotes.
pub open spec fn quoted(s: Seq<u8>) -> Seq<u8> {
    seq![0x22u8] + escape_bytes(s) + seq![0x22u8]
}

/// The serialized form of an optional string field: `null` when absent.
pub open spec fn optional_quoted(s: Option<Seq<u8>>) -> Seq<u8> {
    match s {
        Option::None => seq![0x6eu8, 0x75u8, 0x6cu8, 0x6cu8],
        Option::Some(v) => quoted(v),
    }
}

/// The ASCII bytes of `"account":`.
pub open spec fn account_key() -> Seq<u8> {
    seq![0x22u8, 0x61u8, 0x63u8, 0x63u8, 0x6fu8, 0x75u8, 0x6eu8, 0x74u8, 0x22u8, 0x3au8]
}

/// The ASCII bytes of `"label":`.
pub open spec fn label_key() -> Seq<u8> {
    seq![0x22u8, 0x6cu8, 0x61u8, 0x62u8, 0x65u8, 0x6cu8, 0x22u8, 0x3au8]
}

/// The ASCII bytes of `"last_modified_at":`.
pub open spec fn last_modified_key() -> Seq<u8> {
    seq![
        0x22u8, 0x6cu8, 0x61u8, 0x73u8, 0x74u8, 0x5fu8, 0x6du8, 0x6fu8, 0x64u8, 0x69u8, 0x66u8,
        0x69u8, 0x65u8, 0x64u8, 0x5fu8, 0x61u8, 0x74u8, 0x22u8, 0x3au8,
    ]
}

/// The canonical bytes bound to an item at encryption time:
/// `{"account":A,"label":L,"last_modified_at":"T"}` with the fields in
/// alphabetical order (0x7b `{`, 0x2c `,`, 0x7d `}`).
pub open spec fn aad_bytes(label: Seq<u8>, account: Option<Seq<u8>>, ts: Timestamp) -> Seq<u8> {
    seq![0x7bu8] + account_key() + optional_quoted(account) + seq![0x2cu8] + label_key() + quoted(
        label,
    ) + seq![0x2cu8] + last_modified_key() + seq![0x22u8] + timestamp_bytes(ts) + seq![
        0x22u8,
        0x7du8,
    ]
}

/// Appends `n` as exactly two ASCII digits (modulo 100).
fn push_two_digits(out: &mut Vec<u8>, n: u8)
    ensures
        final(out)@ == old(out)@ + two_digits(n as nat),
{
    out.push(0x30 + (n / 10) % 10);
    out.push(0x30 + n % 10);
    assert(out@ =~= old(out)@ + two_digits(n as nat));
}

/// Appends `n` as exactly four ASCII digits (modulo 10000).
fn push_four_digits(out: &mut Vec<u8>, n: u16)
    ensures
        final(out)@ == old(out)@ + four_digits(n as nat),
{
    out.push(0x30 + ((n / 1000) % 10) as u8);
    out.push(0x30 + ((n / 100) % 10) as u8);
    out.push(0x30 + ((n / 10) % 10) as u8);
    out.push(0x30 + (n % 10) as u8);
    assert(out@ =~= old(out)@ + four_digits(n as nat));
}

/// Appends the timestamp in its fixed ISO-8601 UTC form.
#[verifier::rlimit(50)]
fn push_timestamp(out: &mut Vec<u8>, ts: Timestamp)
    ensures
        final(out)@ == old(out)@ + timestamp_bytes(ts),
{
    push_four_digits(out, ts.year);
    out.push(0x2d);
    push_two_digits(out, ts.month);
    out.push(0x2d);
    push_two_digits(out, ts.day);
    out.push(0x54);
    push_two_digits(out, ts.hour);
    out.push(0x3a);
    push_two_digits(out, ts.minute);
    out.push(0x3a);
    push_two_digits(out, ts.second);
    out.push(0x5a);
    assert(out@ =~= old(out)@ + timestamp_bytes(ts));
}

/// Appends a string escaped and quoted.
fn push_quoted(out: &mut Vec<u8>, s: &[u8])
    ensures
        final(out)@ == old(out)@ + quoted(s@),
{
    out.push(0x22);
    let mut i: usize = 0;
    while i < s.len()
        invariant
            i <= s@.len(),
            out@ == old(out)@ + seq![0x22u8] + escape_bytes(s@.take(i as int)),
        decreases s@.len() - i,
    {
        let b = s[i];
        if b == 0x22 {
            out.push(0x5c);
            out.push(0x22);
        } else if b == 0x5c {
            out.push(0x5c);
            out.push(0x5c);
        } else if b < 0x20 {
            out.push(0x5c);
            out.push(0x75);
            out.push(0x30);
            out.push(0x30);
            if b / 16 < 10 {
                out.push(0x30 + b / 16);
            } else {
                out.push(0x61 + (b / 16 - 10));
            }
            if b % 16 < 10 {
                out.push(0x30 + b % 16);
            } else {
                out.push(0x61 + (b % 16 - 10));
            }
        } else {
            out.push(b);
        }
        assert(s@.take(i + 1).drop_last() =~= s@.take(i as int));
        assert(s@.take(i + 1).last() == b);
        assert(out@ =~= old(out)@ + seq![0x22u8] + escape_bytes(s@.take(i + 1)));
        i = i + 1;
    }
    assert(s@.take(s@.len() as int) =~= s@);
    out.push(0x22);
    assert(out@ =~= old(out)@ + quoted(s@));
}

/// Appends the ASCII bytes of `"account":`.
fn push_account_key(out: &mut Vec<u8>)
    ensures
        final(out)@ == old(out)@ + account_key(),
{
    out.push(0x22);
    out.push(0x61);
    out.push(0x63);
    out.push(0x63);
    out.push(0x6f);
    out.push(0x75);
    out.push(0x6e);
    out.push(0x74);
    out.push(0x22);
    out.push(0x3a);
    assert(out@ =~= old(out)@ + account_key());
}

/// Appends the ASCII bytes of `"label":`.
fn push_label_key(out: &mut Vec<u8>)
    ensures
        final(out)@ == old(out)@ + label_key(),
{
    out.push(0x22);
    out.push(0x6c);
    out.push(0x61);
    out.push(0x62);
    out.push(0x65);
    out.push(0x6c);
    out.push(0x22);
    out.push(0x3a);
    assert(out@ =~= old(out)@ + label_key());
}

/// Appends the ASCII bytes of `"last_modified_at":`.
fn push_last_modified_key(out: &mut Vec<u8>)
    ensures
        final(out)@ == old(out)@ + last_modified_key(),
{
    out.push(0x22);
    out.push(0x6c);
    out.push(0x61);
    out.push(0x73);
    out.push(0x74);
    out.push(0x5f);
    out.push(0x6d);
    out.push(0x6f);
    out.push(0x64);
    out.push(0x69);
    out.push(0x66);
    out.push(0x69);
    out.push(0x65);
    out.push(0x64);
    out.push(0x5f);
    out.push(0x61);
    out.push(0x74);
    out.push(0x22);
    out.push(0x3a);
    assert(out@ =~= old(out)@ + last_modified_key());
}

/// Builds the canonical authenticated-but-not-encrypted bytes for an item's
/// metadata.  Byte-for-byte reproducible from the same inputs, which is what
/// lets decryption rebuild the exact bytes bound at encryption time.
pub fn build_aad(label: &[u8], account: Option<&[u8]>, ts: Timestamp) -> (out: Vec<u8>)
    ensures
        out@ == aad_bytes(
            label@,
            match account {
                Option::None => None,
                Option::Some(a) => Some(a@),
            },
            ts,
        ),
{
    let mut out: Vec<u8> = Vec::new();
    out.push(0x7b);
    push_account_key(&mut out);
    match account {
        None => {
            out.push(0x6e);
            out.push(0x75);
            out.push(0x6c);
            out.push(0x6c);
        },
        Some(a) => {
            push_quoted(&mut out, a);
        },
    }
    out.push(0x2c);
    push_label_key(&mut out);
    push_quoted(&mut out, label);
    out.push(0x2c);
    push_last_modified_key(&mut out);
    out.push(0x22);
    push_timestamp(&mut out, ts);
    out.push(0x22);
    out.push(0x7d);
    assert(out@ =~= aad_bytes(
        label@,
        match account {
            Option::None => None,
            Option::Some(a) => Some(a@),
        },
        ts,
    ));
    out
}

} // verus!
