//! Data that carries a time stamp and a signature over its fields.

use base58::ToBase58;
use sha2::Digest;
use vstd::prelude::*;
use vstd::string::{StringExecFns, StringSliceAdditionalSpecFns};
use crate::http_server::text::{pairs_view, same_text, without};

verus! {

/// The SHA-256 digest of a text of bytes, as `sha2` computes it.
pub uninterp spec fn sha256_of(data: Seq<u8>) -> Seq<u8>;

/// The Base58 text of a text of bytes, as `base58` writes it.
pub uninterp spec fn base58_of(data: Seq<u8>) -> Seq<char>;

/// Calls `sha2::Sha256::digest`. Trusted: the digest depends on the bytes
/// alone and is 32 bytes long.
#[verifier::external_body]
fn sha256(data: &[u8]) -> (digest: Vec<u8>)
    ensures
        digest@ == sha256_of(data@),
        digest@.len() == 32,
{
    sha2::Sha256::digest(data).to_vec()
}

/// Calls `base58::ToBase58::to_base58`. Trusted: the text depends on the
/// bytes alone. Inputs so long that the size of its buffer cannot be
/// computed are left out.
#[verifier::external_body]
fn base58(data: &[u8]) -> (text: String)
    requires
        data@.len() * 138 <= usize::MAX,
    ensures
        text@ == base58_of(data@),
{
    data.to_base58()
}

/// The name of the field that holds the signature.
pub open spec fn signature_name() -> Seq<char> {
    "__signature___"@
}

/// A field as it is signed: name, `=`, value.
pub open spec fn entry_text(entry: (Seq<char>, Seq<char>)) -> Seq<char> {
    entry.0 + seq!['='] + entry.1
}

/// Fields as they are signed, with `&` between them.
pub open spec fn entries_text(entries: Seq<(Seq<char>, Seq<char>)>) -> Seq<char>
    decreases entries.len(),
{
    if entries.len() == 0 {
        Seq::empty()
    } else if entries.len() == 1 {
        entry_text(entries[0])
    } else {
        entries_text(entries.drop_last()) + seq!['&'] + entry_text(entries.last())
    }
}

/// The text that is signed: the fields other than the signature, in the
/// order given, and behind them the key as the field `__key___`.
pub open spec fn signing_text_of(entries: Seq<(Seq<char>, Seq<char>)>, key: Seq<char>) -> Seq<char> {
    entries_text(without(entries, signature_name())) + "&__key___="@ + key
}

/// The signature of fields under a key: the Base58 text of the SHA-256
/// digest of the text that is signed.
pub open spec fn signature_of(entries: Seq<(Seq<char>, Seq<char>)>, key: Seq<char>) -> Seq<char> {
    base58_of(sha256_of(vstd::utf8::encode_utf8(signing_text_of(entries, key))))
}

/// Writes the text that is signed: see `signing_text_of`.
pub fn signing_text(entries: &Vec<(String, String)>, key: &str) -> (text: String)
    ensures
        text@ == signing_text_of(pairs_view(entries@), key@),
{
    let ghost all = pairs_view(entries@);
    let mut text = String::new();
    let mut first = true;
    let mut i: usize = 0;
    proof {
        reveal_strlit("=");
        reveal_strlit("&");
        assert("="@ =~= seq!['=']);
        assert("&"@ =~= seq!['&']);
        assert(all.take(0) =~= Seq::empty());
    }
    while i < entries.len()
        invariant
            i <= entries@.len(),
            all == pairs_view(entries@),
            "="@ == seq!['='],
            "&"@ == seq!['&'],
            text@ == entries_text(without(all.take(i as int), signature_name())),
            first == (without(all.take(i as int), signature_name()).len() == 0),
        decreases entries@.len() - i,
    {
        let ghost kept = without(all.take(i as int), signature_name());
        proof {
            assert(all.take(i + 1).drop_last() =~= all.take(i as int));
            assert(all.take(i + 1).last() == all[i as int]);
        }
        if !same_text(entries[i].0.as_str(), "__signature___") {
            let ghost before = text@;
            if !first {
                text.append("&");
            }
            text.append(entries[i].0.as_str());
            text.append("=");
            text.append(entries[i].1.as_str());
            proof {
                let now = kept.push(all[i as int]);
                assert(now.drop_last() =~= kept);
                assert(now.last() == all[i as int]);
                if first {
                    assert(before =~= Seq::<char>::empty());
                    assert(text@ =~= entry_text(all[i as int]));
                    assert(now.len() == 1);
                    assert(now[0] == all[i as int]);
                } else {
                    assert(text@ =~= before + seq!['&'] + entry_text(all[i as int]));
                }
            }
            first = false;
        }
        i = i + 1;
    }
    proof {
        assert(all.take(i as int) =~= all);
    }
    text.append("&__key___=");
    text.append(key);
    text
}

/// Computes the signature of fields under a key: see `signature_of`.
pub fn create_signature(entries: &Vec<(String, String)>, key: &str) -> (signature: String)
    ensures
        signature@ == signature_of(pairs_view(entries@), key@),
{
    let text = signing_text(entries, key);
    let digest = sha256(text.as_str().as_bytes());
    base58(digest.as_slice())
}

/// Whether a time stamp is no older than the given number of seconds.
pub open spec fn fresh(timestamp: u64, now: u64, valid_secs: u64) -> bool {
    now - timestamp <= valid_secs
}

/// Data with the second at which it was made and a signature.
///
/// The signature is made over the fields of the whole value as they are
/// written out: the callers hand them in as pairs of name and text, in the
/// order of the names.
pub struct SignedData<T> {
    pub signature: String,
    pub timestamp: u64,
    pub data: T,
}

impl<T> SignedData<T> {
    /// Data made at the second `now`, not signed yet.
    pub fn new(data: T, now: u64) -> (signed: Self)
        ensures
            signed.signature@.len() == 0,
            signed.timestamp == now,
            signed.data == data,
    {
        SignedData { signature: String::new(), timestamp: now, data }
    }

    /// Signs the fields under a key.
    pub fn sign(&mut self, key: &str, entries: &Vec<(String, String)>)
        ensures
            final(self).signature@ == signature_of(pairs_view(entries@), key@),
            final(self).timestamp == old(self).timestamp,
            final(self).data == old(self).data,
    {
        self.signature = create_signature(entries, key);
    }

    /// Whether the signature is that of the fields under the key.
    pub fn verify_signature(&self, key: &str, entries: &Vec<(String, String)>) -> (ok: bool)
        ensures
            ok == (self.signature@ == signature_of(pairs_view(entries@), key@)),
    {
        let signature = create_signature(entries, key);
        same_text(signature.as_str(), self.signature.as_str())
    }

    /// Whether the data is no older than `valid_secs` seconds at the second
    /// `now` and its signature is that of the fields under the key.
    pub fn verify(&self, key: &str, entries: &Vec<(String, String)>, valid_secs: u64, now: u64) -> (ok: bool)
        requires
            self.timestamp <= now,
        ensures
            ok == (fresh(self.timestamp, now, valid_secs) && self.signature@ == signature_of(
                pairs_view(entries@),
                key@,
            )),
    {
        if now - self.timestamp > valid_secs {
            return false;
        }
        self.verify_signature(key, entries)
    }

    /// The data alone.
    pub fn to_data(self) -> (data: T)
        ensures
            data == self.data,
    {
        self.data
    }
}

} // verus!
