use vstd::prelude::*;
use std::io::{Read, Write};
use crate::api::{
    decode_bsdiff_patch, encode_bsdiff_patch, BsdiffPatch, CryptoSecretbox, StateApplyRequest,
    StateApplyResponse, StateDiffRequest, StateDiffResponse,
};
use crate::codec::{bytes_entry, varint_entry};
use crate::contract_error::ContractError;
use crate::wire::{lemma_encode_fields_push, SpecField, SpecFieldValue};
use crate::crypto::ZERO_BYTES;
use crate::state_crypto::{decrypt_state, encrypt_state, SECRETBOX_NONCE_LEN};

verus! {

/// Patch that `bsdiff::diff` writes for turning `old` into `new`.
pub uninterp spec fn bsdiff_delta(old: Seq<u8>, new: Seq<u8>) -> Seq<u8>;

/// Outcome of `bsdiff::patch` applying `patch` to `old`: the new data, or
/// `None` where the patch is malformed for `old`.
pub uninterp spec fn bsdiff_applied(old: Seq<u8>, patch: Seq<u8>) -> Option<Seq<u8>>;

/// Stream that a bzip2 encoder at the default level writes for `data`.
pub uninterp spec fn bz2_compressed(data: Seq<u8>) -> Seq<u8>;

/// Outcome of reading a bzip2 decoder over `data` to the end.
pub uninterp spec fn bz2_decompressed(data: Seq<u8>) -> Option<Seq<u8>>;

/// Calls `bsdiff::diff` into a vector. Its source returns an error only where
/// the writer fails, and writing into a vector does not fail, so the result
/// is always `Ok`; the patch is named.
#[verifier::external_body]
fn bsdiff_diff(old: &[u8], new: &[u8]) -> (r: Result<Vec<u8>, String>)
    ensures
        r is Ok,
        r.unwrap()@ == bsdiff_delta(old@, new@),
{
    let mut patch: Vec<u8> = Vec::new();
    match bsdiff::diff(old, new, &mut patch) {
        Ok(()) => Ok(patch),
        Err(e) => Err(e.to_string()),
    }
}

/// Calls `bsdiff::patch` with `patch` as the reader and an empty output
/// vector. The outcome is named; as the crate's documentation shows, a patch
/// that `bsdiff::diff` made from `old` to some `new` gives back `new`. The
/// text of the error is not stated.
#[verifier::external_body]
fn bsdiff_patch(old: &[u8], patch: &[u8]) -> (r: Result<Vec<u8>, String>)
    ensures
        r is Ok <==> bsdiff_applied(old@, patch@) is Some,
        r is Ok ==> bsdiff_applied(old@, patch@) == Some(r.unwrap()@),
        forall|new: Seq<u8>|
            patch@ == #[trigger] bsdiff_delta(old@, new) ==> r is Ok && r.unwrap()@ == new,
{
    let mut reader = patch;
    let mut new: Vec<u8> = Vec::new();
    match bsdiff::patch(old, &mut reader, &mut new) {
        Ok(()) => Ok(new),
        Err(e) => Err(e.to_string()),
    }
}

/// Compresses `data` with `bzip2::write::BzEncoder` at the default level
/// into a vector and finishes the stream; the stream is named. In the
/// crate's source the encoder's `write_all` and `finish` fail only where the
/// inner writer fails, and writing into a vector does not fail, so the
/// result is always `Ok`.
#[verifier::external_body]
fn bz2_compress(data: &[u8]) -> (r: Result<Vec<u8>, String>)
    ensures
        r is Ok,
        r.unwrap()@ == bz2_compressed(data@),
{
    let mut enc = bzip2::write::BzEncoder::new(Vec::new(), bzip2::Compression::default());
    match enc.write_all(data) {
        Ok(()) => {},
        Err(e) => return Err(e.to_string()),
    }
    match enc.finish() {
        Ok(v) => Ok(v),
        Err(e) => Err(e.to_string()),
    }
}

/// Reads `bzip2::read::BzDecoder` over `data` to the end. The outcome is
/// named; a stream that the encoder wrote for some data decodes to that
/// data. The text of an error is not stated.
#[verifier::external_body]
fn bz2_decompress(data: &[u8]) -> (r: Result<Vec<u8>, String>)
    ensures
        r is Ok <==> bz2_decompressed(data@) is Some,
        r is Ok ==> bz2_decompressed(data@) == Some(r.unwrap()@),
        forall|x: Seq<u8>| data@ == #[trigger] bz2_compressed(x) ==> r is Ok && r.unwrap()@ == x,
{
    let mut dec = bzip2::read::BzDecoder::new(data);
    let mut out: Vec<u8> = Vec::new();
    match dec.read_to_end(&mut out) {
        Ok(_) => Ok(out),
        Err(e) => Err(e.to_string()),
    }
}

/// The serialized patch that turns `old` into `new`: the length of `new` and
/// the compressed bsdiff patch.
pub open spec fn diff_encoding(old: Seq<u8>, new: Seq<u8>) -> Seq<u8> {
    encode_bsdiff_patch(new.len() as u64, bz2_compressed(bsdiff_delta(old, new)))
}

/// Creates a summary of changes that can be applied to `old` to recreate
/// `new`.
pub fn diff_internal(old: &[u8], new: &[u8]) -> (r: Result<Vec<u8>, ContractError>)
    ensures
        r matches Ok(d) && d@ == diff_encoding(old@, new@),
{
    let patch = match bsdiff_diff(old, new) {
        Ok(p) => p,
        Err(message) => return Err(ContractError { message }),
    };
    let patch_bz2 = match bz2_compress(patch.as_slice()) {
        Ok(c) => c,
        Err(message) => return Err(ContractError { message }),
    };
    let m = BsdiffPatch { new_length: new.len() as u64, patch_bz2 };
    Ok(m.write_to_bytes())
}

/// What applying the serialized patch `diff` to `old` gives: `None` where the
/// patch does not parse, does not decompress, does not apply, or gives data
/// of another length than the patch declares.
pub open spec fn apply_outcome(old: Seq<u8>, diff: Seq<u8>) -> Option<Seq<u8>> {
    match decode_bsdiff_patch(diff) {
        Some((n, p)) => match bz2_decompressed(p) {
            Some(d) => match bsdiff_applied(old, d) {
                Some(v) => if v.len() == n {
                    Some(v)
                } else {
                    None
                },
                None => None,
            },
            None => None,
        },
        None => None,
    }
}

/// Whether the serialized patch `diff` decodes, decompresses and applies to
/// `old`, but gives data of another length than it declares.
pub open spec fn patch_length_differs(old: Seq<u8>, diff: Seq<u8>) -> bool {
    match decode_bsdiff_patch(diff) {
        Some((n, p)) => match bz2_decompressed(p) {
            Some(d) => match bsdiff_applied(old, d) {
                Some(v) => v.len() != n,
                None => false,
            },
            None => false,
        },
        None => false,
    }
}

/// A serialized patch is at least as long as the compressed patch it holds.
proof fn lemma_patch_encoding_len(new_length: u64, p: Seq<u8>)
    ensures
        encode_bsdiff_patch(new_length, p).len() >= p.len(),
{
    let e1 = varint_entry(1, new_length);
    let e2 = bytes_entry(2, p);
    if p.len() > 0 {
        let f = SpecField { number: 2, value: SpecFieldValue::Bytes(p) };
        assert(e1 + e2 =~= e1.push(f));
        lemma_encode_fields_push(e1, f);
    }
}

/// Changes `old` as specified by `diff`.
///
/// Applying to `old` the diff from `old` to `new` gives back `new`.
pub fn apply_internal(old: &[u8], diff: &[u8]) -> (r: Result<Vec<u8>, ContractError>)
    ensures
        r is Ok <==> apply_outcome(old@, diff@) is Some,
        r matches Ok(v) ==> apply_outcome(old@, diff@) == Some(v@),
        decode_bsdiff_patch(diff@) is None ==> (r matches Err(e) && e.message@
            == "Malformed message"@),
        patch_length_differs(old@, diff@) ==> (r matches Err(e) && e.message@ == "Corrupt patch"@),
        forall|new: Seq<u8>|
            diff@ == #[trigger] diff_encoding(old@, new) && new.len() <= u64::MAX ==> (r matches Ok(
                v,
            ) && v@ == new),
{
    let diff_len = diff.len();
    assert(diff@.len() <= u64::MAX);
    proof {
        assert forall|new: Seq<u8>|
            diff@ == #[trigger] diff_encoding(old@, new) && new.len() <= u64::MAX implies {
                decode_bsdiff_patch(diff@) == Some(
                    (new.len() as u64, bz2_compressed(bsdiff_delta(old@, new))),
                )
            } by {
            let p = bz2_compressed(bsdiff_delta(old@, new));
            lemma_patch_encoding_len(new.len() as u64, p);
            crate::api::law_bsdiff_patch_roundtrip(
                new.len() as u64,
                bz2_compressed(bsdiff_delta(old@, new)),
            );
        }
    }
    let m = match BsdiffPatch::parse_from_bytes(diff) {
        Some(m) => m,
        None => return Err(ContractError::new("Malformed message")),
    };
    let patch = match bz2_decompress(m.patch_bz2.as_slice()) {
        Ok(p) => p,
        Err(message) => return Err(ContractError { message }),
    };
    match bsdiff_patch(old, patch.as_slice()) {
        Ok(new) => {
            if new.len() as u64 != m.new_length {
                return Err(ContractError::new("Corrupt patch"));
            }
            Ok(new)
        },
        Err(message) => Err(ContractError { message }),
    }
}

/// The serialized state inside an encrypted state box, or `None` where the
/// box does not open under `key`.
pub open spec fn box_state(b: &CryptoSecretbox, key: Seq<u8>) -> Option<Seq<u8>> {
    match crate::crypto::secretbox_unseal(b.ciphertext@, b.nonce@, key) {
        Some(m) => Some(m.subrange(ZERO_BYTES as int, m.len() as int)),
        None => None,
    }
}

/// Opens a state box, stating its result through `box_state`.
fn open_state(key: &[u8; 32], b: &CryptoSecretbox) -> (r: Result<Vec<u8>, ContractError>)
    requires
        b.nonce@.len() == SECRETBOX_NONCE_LEN,
    ensures
        r is Ok <==> box_state(b, key@) is Some,
        r matches Ok(s) ==> box_state(b, key@) == Some(s@),
        r matches Err(e) ==> e.message@ == "Failed to open state box"@,
{
    let r = decrypt_state(key, b);
    proof {
        if let Ok(ref s) = r {
            let m = crate::crypto::secretbox_unseal(b.ciphertext@, b.nonce@, key@).unwrap();
            assert(m == crate::secure_channel::padded(s@));
            assert(m.subrange(ZERO_BYTES as int, m.len() as int) =~= s@);
        }
    }
    r
}

/// Computes the encrypted diff between two encrypted states under the state
/// key.
///
/// Where a box does not open, the call fails with "Failed to open state box".
/// Otherwise the diff is re-encrypted with a fresh random nonce: a diff too
/// long to box fails with "Failed to create state box", and a failing random
/// source with "Random bytes failed"; there is no other error.
pub fn diff(key: &[u8; 32], req: &StateDiffRequest) -> (r: Result<StateDiffResponse, ContractError>)
    requires
        req.old.nonce@.len() == SECRETBOX_NONCE_LEN,
        req.new.nonce@.len() == SECRETBOX_NONCE_LEN,
    ensures
        box_state(&req.old, key@) is None || box_state(&req.new, key@) is None ==> (r matches Err(
            e,
        ) && e.message@ == "Failed to open state box"@),
        r matches Err(e) && e.message@ == "Failed to open state box"@ ==> box_state(&req.old, key@)
            is None || box_state(&req.new, key@) is None,
        match (box_state(&req.old, key@), box_state(&req.new, key@)) {
            (Some(old), Some(new)) => if diff_encoding(old, new).len() + ZERO_BYTES > usize::MAX {
                r matches Err(e) && e.message@ == "Failed to create state box"@
            } else {
                r is Ok || (r matches Err(e) && e.message@ == "Random bytes failed"@)
            },
            _ => true,
        },
        r matches Ok(res) ==> {
            let old = box_state(&req.old, key@).unwrap();
            let new = box_state(&req.new, key@).unwrap();
            &&& box_state(&req.old, key@) is Some
            &&& box_state(&req.new, key@) is Some
            &&& res.diff.nonce@.len() == SECRETBOX_NONCE_LEN
            &&& res.diff.ciphertext@ == crate::crypto::secretbox_seal(
                crate::secure_channel::padded(diff_encoding(old, new)),
                res.diff.nonce@,
                key@,
            )
        },
{
    proof {
        reveal_strlit("Failed to open state box");
        reveal_strlit("Failed to create state box");
        reveal_strlit("Random bytes failed");
        assert("Failed to open state box"@.len() == 24);
        assert("Failed to create state box"@.len() == 26);
        assert("Random bytes failed"@.len() == 19);
    }
    let old = match open_state(key, &req.old) {
        Ok(s) => s,
        Err(e) => {
            return Err(e);
        },
    };
    let new = match open_state(key, &req.new) {
        Ok(s) => s,
        Err(e) => {
            return Err(e);
        },
    };
    let d = match diff_internal(old.as_slice(), new.as_slice()) {
        Ok(d) => d,
        Err(e) => {
            return Err(e);
        },
    };
    if d.len() > usize::MAX - ZERO_BYTES {
        return Err(ContractError::new("Failed to create state box"));
    }
    match encrypt_state(key, d.as_slice()) {
        Ok(diff) => Ok(StateDiffResponse { diff }),
        Err(e) => Err(e),
    }
}

/// Applies an encrypted diff to an encrypted state under the state key.
///
/// Where a box does not open, the call fails with "Failed to open state box".
/// Where the diff does not apply to the state, it fails as `apply_internal`
/// does. Otherwise the new state is re-encrypted with a fresh random nonce:
/// a state too long to box fails with "Failed to create state box", and a
/// failing random source with "Random bytes failed"; there is no other error.
pub fn apply(key: &[u8; 32], req: &StateApplyRequest) -> (r: Result<StateApplyResponse, ContractError>)
    requires
        req.old.nonce@.len() == SECRETBOX_NONCE_LEN,
        req.diff.nonce@.len() == SECRETBOX_NONCE_LEN,
    ensures
        box_state(&req.old, key@) is None || box_state(&req.diff, key@) is None ==> (r matches Err(
            e,
        ) && e.message@ == "Failed to open state box"@),
        r matches Err(e) && e.message@ == "Failed to open state box"@ ==> box_state(&req.old, key@)
            is None || box_state(&req.diff, key@) is None || apply_outcome(
            box_state(&req.old, key@).unwrap(),
            box_state(&req.diff, key@).unwrap(),
        ) is None,
        match (box_state(&req.old, key@), box_state(&req.diff, key@)) {
            (Some(old), Some(diff)) => match apply_outcome(old, diff) {
                None => {
                    &&& r is Err
                    &&& decode_bsdiff_patch(diff) is None ==> (r matches Err(e) && e.message@
                        == "Malformed message"@)
                    &&& patch_length_differs(old, diff) ==> (r matches Err(e) && e.message@
                        == "Corrupt patch"@)
                },
                Some(new) => if new.len() + ZERO_BYTES > usize::MAX {
                    r matches Err(e) && e.message@ == "Failed to create state box"@
                } else {
                    r is Ok || (r matches Err(e) && e.message@ == "Random bytes failed"@)
                },
            },
            _ => true,
        },
        r matches Ok(res) ==> {
            let old = box_state(&req.old, key@).unwrap();
            let diff = box_state(&req.diff, key@).unwrap();
            &&& box_state(&req.old, key@) is Some
            &&& box_state(&req.diff, key@) is Some
            &&& apply_outcome(old, diff) is Some
            &&& res.new.nonce@.len() == SECRETBOX_NONCE_LEN
            &&& res.new.ciphertext@ == crate::crypto::secretbox_seal(
                crate::secure_channel::padded(apply_outcome(old, diff).unwrap()),
                res.new.nonce@,
                key@,
            )
        },
{
    proof {
        reveal_strlit("Failed to open state box");
        reveal_strlit("Failed to create state box");
        reveal_strlit("Random bytes failed");
        assert("Failed to open state box"@.len() == 24);
        assert("Failed to create state box"@.len() == 26);
        assert("Random bytes failed"@.len() == 19);
    }
    let old = match open_state(key, &req.old) {
        Ok(s) => s,
        Err(e) => {
            return Err(e);
        },
    };
    let diff = match open_state(key, &req.diff) {
        Ok(s) => s,
        Err(e) => {
            return Err(e);
        },
    };
    let new = match apply_internal(old.as_slice(), diff.as_slice()) {
        Ok(n) => n,
        Err(e) => {
            return Err(e);
        },
    };
    if new.len() > usize::MAX - ZERO_BYTES {
        return Err(ContractError::new("Failed to create state box"));
    }
    match encrypt_state(key, new.as_slice()) {
        Ok(new) => Ok(StateApplyResponse { new }),
        Err(e) => Err(e),
    }
}

/// The serialized diff from `old` to `new` declares the length of `new` and
/// holds the bzip2-compressed bsdiff patch made from `old` itself to `new`.
pub proof fn law_diff_encodes_delta_from_old(old: Seq<u8>, new: Seq<u8>)
    requires
        new.len() <= u64::MAX,
        bz2_compressed(bsdiff_delta(old, new)).len() <= u64::MAX,
    ensures
        decode_bsdiff_patch(diff_encoding(old, new)) == Some(
            (new.len() as u64, bz2_compressed(bsdiff_delta(old, new))),
        ),
{
    let p = bz2_compressed(bsdiff_delta(old, new));
    lemma_patch_encoding_len(new.len() as u64, p);
    crate::api::law_bsdiff_patch_roundtrip(new.len() as u64, p);
}

/// Applying a serialized diff patches `old` itself: where the diff decodes to
/// the declared length `n` and a compressed patch that decompresses to `d`,
/// and bsdiff applying `d` to `old` gives data of length `n`, that data is
/// the result.
pub proof fn law_apply_patches_old(old: Seq<u8>, diff: Seq<u8>, n: u64, p: Seq<u8>, d: Seq<u8>, v: Seq<u8>)
    requires
        decode_bsdiff_patch(diff) == Some((n, p)),
        bz2_decompressed(p) == Some(d),
        bsdiff_applied(old, d) == Some(v),
        v.len() == n,
    ensures
        apply_outcome(old, diff) == Some(v),
{
}

/// A diff applies to the state it was made from: where bzip2 gives back what
/// it compressed and bsdiff's patch from `old` to `new` gives `new` when
/// applied to `old` (as both crates' documentation states), applying the
/// serialized diff from `old` to `new` to `old` gives `new`.
pub proof fn law_diff_then_apply(old: Seq<u8>, new: Seq<u8>)
    requires
        new.len() <= u64::MAX,
        bz2_compressed(bsdiff_delta(old, new)).len() <= u64::MAX,
        bz2_decompressed(bz2_compressed(bsdiff_delta(old, new))) == Some(bsdiff_delta(old, new)),
        bsdiff_applied(old, bsdiff_delta(old, new)) == Some(new),
    ensures
        apply_outcome(old, diff_encoding(old, new)) == Some(new),
{
    law_diff_encodes_delta_from_old(old, new);
}

} // verus!
