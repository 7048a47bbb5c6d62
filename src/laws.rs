use vstd::prelude::*;
use crate::commitment::{commitment_bytes, outcome};
use crate::condition::{parse_text, Comparator, ConditionModel, LiteralModel};
use crate::document::{Document, JsonValue};
use crate::evaluate::{all_hold, compare_number, compare_text, compare_value, condition_holds};
use crate::signature::{batch_signers, count_checked, count_registered, signature_check};

verus! {

/// Identical inputs give identical committed bytes: the commitment depends on the
/// condition text, the batch and the directory alone.
pub proof fn lemma_commitment_deterministic(
    t1: Seq<u8>,
    d1: Seq<Document>,
    k1: Map<Seq<char>, Seq<char>>,
    t2: Seq<u8>,
    d2: Seq<Document>,
    k2: Map<Seq<char>, Seq<char>>,
)
    requires
        t1 == t2,
        d1 == d2,
        k1 == k2,
    ensures
        outcome(t1, d1, k1) == outcome(t2, d2, k2),
        commitment_bytes(t1, d1, k1) == commitment_bytes(t2, d2, k2),
{
}

/// An empty condition text is the empty set, the empty set holds of every batch,
/// and an evaluation of it reports the conditions as verified.
pub proof fn lemma_empty_conditions_hold(docs: Seq<Document>, dir: Map<Seq<char>, Seq<char>>)
    ensures
        parse_text(Seq::<u8>::empty()) == Some(Seq::<ConditionModel>::empty()),
        all_hold(Seq::<ConditionModel>::empty(), docs),
        outcome(Seq::<u8>::empty(), docs, dir) matches Ok(pv) ==> pv.conditions_verified,
{
}

/// A set with one condition that fails does not hold, whatever the others give, and
/// an evaluation of its text reports the conditions as not verified.
pub proof fn lemma_one_failure_fails_all(
    text: Seq<u8>,
    conds: Seq<ConditionModel>,
    docs: Seq<Document>,
    dir: Map<Seq<char>, Seq<char>>,
    i: int,
)
    requires
        parse_text(text) == Some(conds),
        0 <= i < conds.len(),
        !condition_holds(conds[i], docs),
    ensures
        !all_hold(conds, docs),
        outcome(text, docs, dir) matches Ok(pv) ==> !pv.conditions_verified,
{
}

/// The count of accepted signatures is at most the number of documents whose signer
/// has a registered key, which is at most the batch size.
pub proof fn lemma_signature_count_bounded(docs: Seq<Document>, dir: Map<Seq<char>, Seq<char>>)
    ensures
        count_registered(docs, dir) <= docs.len(),
        count_checked(docs, dir) matches Ok(n) ==> n <= count_registered(docs, dir),
    decreases docs.len(),
{
    if docs.len() > 0 {
        lemma_signature_count_bounded(docs.drop_last(), dir);
    }
}

/// A condition on a document index past the end of the batch is false, so an
/// evaluation of a text that holds one reports the conditions as not verified.
pub proof fn lemma_out_of_range_false(
    text: Seq<u8>,
    conds: Seq<ConditionModel>,
    docs: Seq<Document>,
    dir: Map<Seq<char>, Seq<char>>,
    i: int,
)
    requires
        parse_text(text) == Some(conds),
        0 <= i < conds.len(),
        conds[i].document >= docs.len(),
    ensures
        !condition_holds(conds[i], docs),
        outcome(text, docs, dir) matches Ok(pv) ==> !pv.conditions_verified,
{
}

/// A string never compares with a number literal, nor a number with a string literal.
pub proof fn lemma_type_mismatch_false(t: Seq<u8>, n: int, c: Comparator)
    ensures
        !compare_text(t, c, LiteralModel::Number(n)),
        !compare_number(n, c, LiteralModel::Text(t)),
{
}

/// A payload string against a number literal, or a payload number against a string
/// literal, is false.
pub proof fn lemma_value_type_mismatch_false(v: JsonValue, c: Comparator, lit: LiteralModel)
    requires
        (v is Text && lit is Number) || (v is Number && lit is Text),
    ensures
        !compare_value(v, c, lit),
{
}

proof fn lemma_count_within(docs: Seq<Document>, keys: Map<Seq<char>, Seq<char>>, s: Set<Seq<char>>)
    requires
        forall|i: int| 0 <= i < docs.len() ==> s.contains((#[trigger] docs[i]).signed_data.signer@),
    ensures
        count_checked(docs, keys.restrict(s)) == count_checked(docs, keys),
    decreases docs.len(),
{
    if docs.len() > 0 {
        let rest = docs.drop_last();
        assert forall|i: int| 0 <= i < rest.len() implies s.contains((#[trigger] rest[i]).signed_data.signer@) by {
            assert(rest[i] == docs[i]);
        }
        lemma_count_within(rest, keys, s);
        let d = docs.last().signed_data;
        assert(s.contains(docs[docs.len() - 1].signed_data.signer@));
        assert(signature_check(d, keys.restrict(s)) == signature_check(d, keys));
    }
}

/// Handing the evaluation only the keys of the batch's signers leaves the signature
/// verdicts, and so the count, as they are with the whole directory.
pub proof fn lemma_selected_keys_keep_count(docs: Seq<Document>, keys: Map<Seq<char>, Seq<char>>)
    ensures
        count_checked(docs, keys.restrict(batch_signers(docs))) == count_checked(docs, keys),
{
    assert forall|i: int| 0 <= i < docs.len() implies batch_signers(docs).contains(
        (#[trigger] docs[i]).signed_data.signer@,
    ) by {}
    lemma_count_within(docs, keys, batch_signers(docs));
}

} // verus!
