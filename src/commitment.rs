use vstd::prelude::*;
use vstd::string::StringSliceAdditionalSpecFns;
use crate::condition::parse_text;
use crate::document::{Document, PublicKeyDirectory};
use crate::evaluate::{all_hold, all_satisfied};
use crate::parse::parse_conditions;
use crate::signature::{count_checked, count_valid_signatures, EvaluationError};

verus! {

/// The public summary of one evaluation. The directory excerpt is not echoed in it.
#[derive(Clone, Copy, Debug, PartialEq, Eq, Structural)]
pub struct PublicValues {
    pub conditions_verified: bool,
    pub num_signatures_verified: u32,
}

/// The decimal digits of `n`.
pub open spec fn decimal(n: nat) -> Seq<u8>
    decreases n,
{
    if n < 10 {
        seq![(48 + n) as u8]
    } else {
        decimal(n / 10) + seq![(48 + n % 10) as u8]
    }
}

pub open spec fn bool_text(b: bool) -> Seq<u8> {
    if b {
        seq![116u8, 114, 117, 101]
    } else {
        seq![102u8, 97, 108, 115, 101]
    }
}

/// `{"conditions_verified":`
pub open spec fn head_text() -> Seq<u8> {
    seq![123u8, 34, 99, 111, 110, 100, 105, 116, 105, 111, 110, 115, 95, 118, 101, 114, 105, 102, 105,
        101, 100, 34, 58]
}

/// `,"num_signatures_verified":`
pub open spec fn middle_text() -> Seq<u8> {
    seq![44u8, 34, 110, 117, 109, 95, 115, 105, 103, 110, 97, 116, 117, 114, 101, 115, 95, 118, 101,
        114, 105, 102, 105, 101, 100, 34, 58]
}

/// The canonical encoding: a compact JSON object with the two fields in this order,
/// `{"conditions_verified":true,"num_signatures_verified":1}`.
pub open spec fn encoded(pv: PublicValues) -> Seq<u8> {
    head_text() + bool_text(pv.conditions_verified) + middle_text() + decimal(
        pv.num_signatures_verified as nat,
    ) + seq![125u8]
}

/// The summary that an evaluation owes: an error where the condition text is
/// malformed, else the error of the first malformed envelope, if any.
pub open spec fn outcome(text: Seq<u8>, docs: Seq<Document>, dir: Map<Seq<char>, Seq<char>>) -> Result<PublicValues, EvaluationError> {
    match parse_text(text) {
        Some(cs) => match count_checked(docs, dir) {
            Ok(n) => Ok(
                PublicValues { conditions_verified: all_hold(cs, docs), num_signatures_verified: n as u32 },
            ),
            Err(e) => Err(e),
        },
        None => Err(EvaluationError::MalformedCondition),
    }
}

/// The committed bytes that an evaluation owes.
pub open spec fn commitment_bytes(text: Seq<u8>, docs: Seq<Document>, dir: Map<Seq<char>, Seq<char>>) -> Result<Seq<u8>, EvaluationError> {
    match outcome(text, docs, dir) {
        Ok(pv) => Ok(encoded(pv)),
        Err(e) => Err(e),
    }
}

fn push_all(out: &mut Vec<u8>, w: &Vec<u8>)
    ensures
        final(out)@ == old(out)@ + w@,
{
    let mut i: usize = 0;
    while i < w.len()
        invariant
            i <= w@.len(),
            out@ == old(out)@ + w@.subrange(0, i as int),
        decreases w@.len() - i,
    {
        out.push(w[i]);
        assert(out@ =~= old(out)@ + w@.subrange(0, i + 1));
        i = i + 1;
    }
    assert(w@.subrange(0, i as int) =~= w@);
}

/// Appends the decimal digits of `n`.
pub fn push_decimal(out: &mut Vec<u8>, n: u64)
    ensures
        final(out)@ == old(out)@ + decimal(n as nat),
    decreases n,
{
    if n >= 10 {
        push_decimal(out, n / 10);
    }
    out.push(48 + (n % 10) as u8);
    assert(out@ =~= old(out)@ + decimal(n as nat));
}

impl PublicValues {
    /// The canonical encoding of the summary.
    pub fn to_bytes(&self) -> (r: Vec<u8>)
        ensures
            r@ == encoded(*self),
    {
        let head: Vec<u8> = vec![123u8, 34, 99, 111, 110, 100, 105, 116, 105, 111, 110, 115, 95, 118,
            101, 114, 105, 102, 105, 101, 100, 34, 58];
        let middle: Vec<u8> = vec![44u8, 34, 110, 117, 109, 95, 115, 105, 103, 110, 97, 116, 117, 114,
            101, 115, 95, 118, 101, 114, 105, 102, 105, 101, 100, 34, 58];
        let flag: Vec<u8> = if self.conditions_verified {
            vec![116u8, 114, 117, 101]
        } else {
            vec![102u8, 97, 108, 115, 101]
        };
        assert(head@ =~= head_text());
        assert(middle@ =~= middle_text());
        assert(flag@ =~= bool_text(self.conditions_verified));
        let mut out: Vec<u8> = Vec::new();
        push_all(&mut out, &head);
        push_all(&mut out, &flag);
        push_all(&mut out, &middle);
        push_decimal(&mut out, self.num_signatures_verified as u64);
        out.push(125u8);
        assert(out@ =~= encoded(*self));
        out
    }
}

/// Evaluates a batch: counts the accepted signatures and evaluates the condition set.
/// Malformed input is an error, never a false result.
pub fn evaluate(conditions: &str, documents: &Vec<Document>, directory: &PublicKeyDirectory) -> (r: Result<PublicValues, EvaluationError>)
    requires
        documents@.len() <= u32::MAX,
    ensures
        r == outcome(conditions.spec_bytes(), documents@, directory@),
{
    let conds = match parse_conditions(conditions) {
        Ok(c) => c,
        Err(_) => return Err(EvaluationError::MalformedCondition),
    };
    let count = match count_valid_signatures(documents, directory) {
        Ok(n) => n,
        Err(e) => return Err(e),
    };
    let verified = all_satisfied(&conds, documents);
    Ok(PublicValues { conditions_verified: verified, num_signatures_verified: count })
}

/// Evaluates a batch and returns the bytes to commit.
pub fn commit(conditions: &str, documents: &Vec<Document>, directory: &PublicKeyDirectory) -> (r: Result<Vec<u8>, EvaluationError>)
    requires
        documents@.len() <= u32::MAX,
    ensures
        match commitment_bytes(conditions.spec_bytes(), documents@, directory@) {
            Ok(b) => r matches Ok(v) && v@ == b,
            Err(e) => r == Err::<Vec<u8>, EvaluationError>(e),
        },
{
    match evaluate(conditions, documents, directory) {
        Ok(pv) => Ok(pv.to_bytes()),
        Err(e) => Err(e),
    }
}

} // verus!
