use vstd::prelude::*;
use vstd::utf8::encode_utf8;
use crate::canonical::{signed_message, signed_message_bytes};
use crate::document::{bytes_of, text_bytes, Document, PublicKeyDirectory, SignedData};

verus! {

/// A signature or a key that is not the hex encoding the scheme expects, or a
/// condition text that does not parse.
#[derive(Clone, Copy, Debug, PartialEq, Eq, Structural)]
pub enum EvaluationError {
    MalformedCondition,
    MalformedSignature,
    MalformedKey,
}

/// The value of one hex digit, of either case.
pub open spec fn hex_nibble(c: u8) -> Option<int> {
    if 48 <= c <= 57 {
        Some(c - 48)
    } else if 97 <= c <= 102 {
        Some(c - 87)
    } else if 65 <= c <= 70 {
        Some(c - 55)
    } else {
        None
    }
}

/// The bytes that a hex string encodes, two digits a byte; `None` for an odd length
/// or a character that is not a hex digit.
pub open spec fn hex_decoded(s: Seq<u8>) -> Option<Seq<u8>>
    decreases s.len(),
{
    if s.len() == 0 {
        Some(seq![])
    } else if s.len() == 1 {
        None
    } else {
        match (hex_nibble(s[0]), hex_nibble(s[1]), hex_decoded(s.subrange(2, s.len() as int))) {
            (Some(h), Some(l), Some(r)) => Some(seq![(h * 16 + l) as u8] + r),
            _ => None,
        }
    }
}

/// Relies on `hex::decode`: each pair of hex digits, of either case, becomes one byte;
/// an odd length or any other character is an error.
#[verifier::external_body]
fn decode_hex(s: &[u8]) -> (r: Option<Vec<u8>>)
    ensures
        match hex_decoded(s@) {
            Some(b) => r matches Some(v) && v@ == b,
            None => r is None,
        },
{
    hex::decode(s).ok()
}

/// Whether Ed25519 accepts `signature` over `message` under the public key `key`.
pub uninterp spec fn ed25519_accepts(key: Seq<u8>, message: Seq<u8>, signature: Seq<u8>) -> bool;

/// Relies on ed25519-dalek: `VerifyingKey::try_from` reads the public key (an error
/// where it is not 32 bytes or not a curve point), `Signature::from_slice` reads the
/// signature (an error where it is not 64 bytes), and `VerifyingKey::verify_strict`
/// checks the signature over the message. The outcome depends on the three byte
/// strings alone.
#[verifier::external_body]
fn ed25519_verify(key: &[u8], message: &[u8], signature: &[u8]) -> (r: bool)
    ensures
        r == ed25519_accepts(key@, message@, signature@),
{
    let vk = match ed25519_dalek::VerifyingKey::try_from(key) {
        Ok(k) => k,
        Err(_) => return false,
    };
    let sig = match ed25519_dalek::Signature::from_slice(signature) {
        Ok(s) => s,
        Err(_) => return false,
    };
    vk.verify_strict(message, &sig).is_ok()
}

/// The verdict on one envelope. An empty signature or a signer without a registered
/// key is a plain rejection. Otherwise the signature must be 64 bytes and the key 32
/// bytes, each hex-encoded, or the envelope is malformed; and the verdict is whether
/// Ed25519 accepts the signature over [`signed_message`] under the key.
pub open spec fn signature_check(d: SignedData, dir: Map<Seq<char>, Seq<char>>) -> Result<bool, EvaluationError> {
    if d.signature@.len() == 0 || !dir.contains_key(d.signer@) {
        Ok(false)
    } else {
        match hex_decoded(text_bytes(d.signature)) {
            Some(s) => if s.len() != 64 {
                Err(EvaluationError::MalformedSignature)
            } else {
                match hex_decoded(encode_utf8(dir[d.signer@])) {
                    Some(k) => if k.len() != 32 {
                        Err(EvaluationError::MalformedKey)
                    } else {
                        Ok(ed25519_accepts(k, signed_message(d), s))
                    },
                    None => Err(EvaluationError::MalformedKey),
                }
            },
            None => Err(EvaluationError::MalformedSignature),
        }
    }
}

/// Checks one envelope against the directory.
pub fn verify_signature(d: &SignedData, dir: &PublicKeyDirectory) -> (r: Result<bool, EvaluationError>)
    ensures
        r == signature_check(*d, dir@),
{
    if d.signature.as_str().is_empty() {
        return Ok(false);
    }
    let key = match dir.key_of(&d.signer) {
        Some(k) => k,
        None => return Ok(false),
    };
    let sig = match decode_hex(bytes_of(&d.signature)) {
        Some(s) => s,
        None => return Err(EvaluationError::MalformedSignature),
    };
    if sig.len() != 64 {
        return Err(EvaluationError::MalformedSignature);
    }
    let key_bytes = match decode_hex(bytes_of(key)) {
        Some(k) => k,
        None => return Err(EvaluationError::MalformedKey),
    };
    if key_bytes.len() != 32 {
        return Err(EvaluationError::MalformedKey);
    }
    let message = signed_message_bytes(d);
    Ok(ed25519_verify(key_bytes.as_slice(), message.as_slice(), sig.as_slice()))
}

/// How many documents of the batch carry an accepted signature; the error of the
/// first malformed envelope where there is one.
pub open spec fn count_checked(docs: Seq<Document>, dir: Map<Seq<char>, Seq<char>>) -> Result<nat, EvaluationError>
    decreases docs.len(),
{
    if docs.len() == 0 {
        Ok(0)
    } else {
        match count_checked(docs.drop_last(), dir) {
            Err(e) => Err(e),
            Ok(n) => match signature_check(docs.last().signed_data, dir) {
                Err(e) => Err(e),
                Ok(b) => Ok(n + if b {
                    1nat
                } else {
                    0nat
                }),
            },
        }
    }
}

/// How many documents of the batch name a signer that has a registered key.
pub open spec fn count_registered(docs: Seq<Document>, dir: Map<Seq<char>, Seq<char>>) -> nat
    decreases docs.len(),
{
    if docs.len() == 0 {
        0
    } else {
        count_registered(docs.drop_last(), dir) + if dir.contains_key(docs.last().signed_data.signer@) {
            1nat
        } else {
            0nat
        }
    }
}

proof fn lemma_error_stays(docs: Seq<Document>, dir: Map<Seq<char>, Seq<char>>, j: int, k: int)
    requires
        0 <= j <= k <= docs.len(),
        count_checked(docs.subrange(0, j), dir) is Err,
    ensures
        count_checked(docs.subrange(0, k), dir) == count_checked(docs.subrange(0, j), dir),
    decreases k - j,
{
    if k > j {
        lemma_error_stays(docs, dir, j, k - 1);
        assert(docs.subrange(0, k).drop_last() =~= docs.subrange(0, k - 1));
    }
}

/// Counts the documents whose signature is accepted.
pub fn count_valid_signatures(docs: &Vec<Document>, dir: &PublicKeyDirectory) -> (r: Result<u32, EvaluationError>)
    requires
        docs@.len() <= u32::MAX,
    ensures
        match count_checked(docs@, dir@) {
            Ok(n) => r == Ok::<u32, EvaluationError>(n as u32),
            Err(e) => r == Err::<u32, EvaluationError>(e),
        },
{
    let mut n: u32 = 0;
    let mut i: usize = 0;
    assert(docs@.subrange(0, 0) =~= Seq::<Document>::empty());
    while i < docs.len()
        invariant
            i <= docs@.len() <= u32::MAX,
            count_checked(docs@.subrange(0, i as int), dir@) == Ok::<nat, EvaluationError>(n as nat),
            n <= i,
        decreases docs@.len() - i,
    {
        assert(docs@.subrange(0, i + 1).drop_last() =~= docs@.subrange(0, i as int));
        match verify_signature(&docs[i].signed_data, dir) {
            Ok(b) => {
                if b {
                    n = n + 1;
                }
            },
            Err(e) => {
                proof {
                    lemma_error_stays(docs@, dir@, i + 1, docs@.len() as int);
                    assert(docs@.subrange(0, docs@.len() as int) =~= docs@);
                }
                return Err(e);
            },
        }
        i = i + 1;
    }
    assert(docs@.subrange(0, i as int) =~= docs@);
    Ok(n)
}

/// The signers that the batch names.
pub open spec fn batch_signers(docs: Seq<Document>) -> Set<Seq<char>> {
    Set::new(|s: Seq<char>| exists|i: int| 0 <= i < docs.len() && (#[trigger] docs[i]).signed_data.signer@ == s)
}

/// The part of `keys` that concerns the signers of the batch: the excerpt that an
/// evaluation is handed.
pub fn select_keys(docs: &Vec<Document>, keys: &PublicKeyDirectory) -> (r: PublicKeyDirectory)
    ensures
        r@ == keys@.restrict(batch_signers(docs@)),
{
    let mut r = PublicKeyDirectory::new();
    let mut i: usize = 0;
    assert(r@ =~= keys@.restrict(batch_signers(docs@.subrange(0, 0))));
    while i < docs.len()
        invariant
            i <= docs@.len(),
            r@ == keys@.restrict(batch_signers(docs@.subrange(0, i as int))),
        decreases docs@.len() - i,
    {
        let signer = &docs[i].signed_data.signer;
        let ghost before = batch_signers(docs@.subrange(0, i as int));
        let ghost after = batch_signers(docs@.subrange(0, i + 1));
        assert(after =~= before.insert(signer@)) by {
            assert forall|s: Seq<char>| after.contains(s) <==> before.insert(signer@).contains(s) by {
                if after.contains(s) {
                    let j = choose|j: int| 0 <= j < i + 1 && (#[trigger] docs@.subrange(0, i + 1)[j]).signed_data.signer@ == s;
                    if j < i {
                        assert(docs@.subrange(0, i as int)[j] == docs@.subrange(0, i + 1)[j]);
                    }
                }
                if before.contains(s) {
                    let j = choose|j: int| 0 <= j < i && (#[trigger] docs@.subrange(0, i as int)[j]).signed_data.signer@ == s;
                    assert(docs@.subrange(0, i + 1)[j] == docs@.subrange(0, i as int)[j]);
                }
                if s == signer@ {
                    assert(docs@.subrange(0, i + 1)[i as int] == docs@[i as int]);
                }
            }
        }
        match keys.key_of(signer) {
            Some(k) => {
                r.insert(signer.clone(), k.clone());
                assert(r@ =~= keys@.restrict(after));
            },
            None => {
                assert(r@ =~= keys@.restrict(after));
            },
        }
        i = i + 1;
    }
    assert(docs@.subrange(0, i as int) =~= docs@);
    r
}

} // verus!
