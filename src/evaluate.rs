use vstd::prelude::*;
use vstd::string::StringSliceAdditionalSpecFns;
use crate::condition::{
    conditions_view, parse_text, path_view, Comparator, Condition, ConditionError, ConditionModel,
    Literal, LiteralModel, Step, StepModel,
};
use crate::parse::parse_conditions;
use crate::document::{bytes_of, text_bytes, Document, JsonValue};

verus! {

pub open spec fn word_signed_data() -> Seq<u8> {
    seq![115u8, 105, 103, 110, 101, 100, 95, 100, 97, 116, 97]
}

pub open spec fn word_data() -> Seq<u8> {
    seq![100u8, 97, 116, 97]
}

pub open spec fn word_signature() -> Seq<u8> {
    seq![115u8, 105, 103, 110, 97, 116, 117, 114, 101]
}

pub open spec fn word_signed_at() -> Seq<u8> {
    seq![115u8, 105, 103, 110, 101, 100, 95, 97, 116]
}

pub open spec fn word_signer() -> Seq<u8> {
    seq![115u8, 105, 103, 110, 101, 114]
}

pub open spec fn word_processed_at() -> Seq<u8> {
    seq![112u8, 114, 111, 99, 101, 115, 115, 101, 100, 95, 97, 116]
}

pub open spec fn word_text_length() -> Seq<u8> {
    seq![100u8, 111, 99, 117, 109, 101, 110, 116, 95, 116, 101, 120, 116, 95, 108, 101, 110, 103, 116, 104]
}

/// The value of the first member named `name`.
pub open spec fn member(entries: Seq<(String, JsonValue)>, name: Seq<u8>) -> Option<JsonValue>
    decreases entries.len(),
{
    if entries.len() == 0 {
        None
    } else if text_bytes(entries[0].0) == name {
        Some(entries[0].1)
    } else {
        member(entries.drop_first(), name)
    }
}

/// The value one step below `v`.
pub open spec fn child(v: JsonValue, step: StepModel) -> Option<JsonValue> {
    match (v, step) {
        (JsonValue::Object(m), StepModel::Field(n)) => member(m@, n),
        (JsonValue::Array(a), StepModel::Index(k)) => if k < a@.len() {
            Some(a@[k as int])
        } else {
            None
        },
        _ => None,
    }
}

/// The value that `path` leads to from `v`.
pub open spec fn value_at(v: JsonValue, path: Seq<StepModel>) -> Option<JsonValue>
    decreases path.len(),
{
    if path.len() == 0 {
        Some(v)
    } else {
        match child(v, path[0]) {
            Some(c) => value_at(c, path.drop_first()),
            None => None,
        }
    }
}

/// `a < b` in the order of byte strings.
pub open spec fn lex_less(a: Seq<u8>, b: Seq<u8>) -> bool
    decreases a.len(),
{
    if a.len() == 0 {
        b.len() > 0
    } else if b.len() == 0 {
        false
    } else if a[0] != b[0] {
        a[0] < b[0]
    } else {
        lex_less(a.drop_first(), b.drop_first())
    }
}

pub open spec fn compare_ints(a: int, c: Comparator, b: int) -> bool {
    match c {
        Comparator::Eq => a == b,
        Comparator::Ne => a != b,
        Comparator::Lt => a < b,
        Comparator::Le => a <= b,
        Comparator::Gt => a > b,
        Comparator::Ge => a >= b,
    }
}

/// A number against a literal: false unless the literal is a number.
pub open spec fn compare_number(n: int, c: Comparator, lit: LiteralModel) -> bool {
    match lit {
        LiteralModel::Number(m) => compare_ints(n, c, m),
        _ => false,
    }
}

/// A string against a literal: false unless the literal is a string.
pub open spec fn compare_text(t: Seq<u8>, c: Comparator, lit: LiteralModel) -> bool {
    match lit {
        LiteralModel::Text(u) => match c {
            Comparator::Eq => t == u,
            Comparator::Ne => t != u,
            Comparator::Lt => lex_less(t, u),
            Comparator::Le => !lex_less(u, t),
            Comparator::Gt => lex_less(u, t),
            Comparator::Ge => !lex_less(t, u),
        },
        _ => false,
    }
}

/// A boolean against a literal: only `==` and `!=` against a boolean literal can hold.
pub open spec fn compare_bool(b: bool, c: Comparator, lit: LiteralModel) -> bool {
    match lit {
        LiteralModel::Bool(x) => match c {
            Comparator::Eq => b == x,
            Comparator::Ne => b != x,
            _ => false,
        },
        _ => false,
    }
}

/// A payload value against a literal; null, arrays and objects never compare.
pub open spec fn compare_value(v: JsonValue, c: Comparator, lit: LiteralModel) -> bool {
    match v {
        JsonValue::Number(n) => compare_number(n as int, c, lit),
        JsonValue::Text(t) => compare_text(text_bytes(t), c, lit),
        JsonValue::Bool(b) => compare_bool(b, c, lit),
        _ => false,
    }
}

pub open spec fn is_field(s: StepModel, w: Seq<u8>) -> bool {
    s == StepModel::Field(w)
}

/// Whether the field of `d` that `path` names compares as `c` against `lit`.
/// The document reads as `{"signed_data": {"data", "signature", "signed_at", "signer"},
/// "processed_at", "document_text_length"}`; a path that leads nowhere gives false.
pub open spec fn document_holds(d: Document, path: Seq<StepModel>, c: Comparator, lit: LiteralModel) -> bool {
    if path.len() >= 2 && is_field(path[0], word_signed_data()) && is_field(path[1], word_data()) {
        match value_at(d.signed_data.data, path.subrange(2, path.len() as int)) {
            Some(v) => compare_value(v, c, lit),
            None => false,
        }
    } else if path.len() == 2 && is_field(path[0], word_signed_data()) && is_field(path[1], word_signature()) {
        compare_text(text_bytes(d.signed_data.signature), c, lit)
    } else if path.len() == 2 && is_field(path[0], word_signed_data()) && is_field(path[1], word_signed_at()) {
        compare_text(text_bytes(d.signed_data.signed_at), c, lit)
    } else if path.len() == 2 && is_field(path[0], word_signed_data()) && is_field(path[1], word_signer()) {
        compare_text(text_bytes(d.signed_data.signer), c, lit)
    } else if path.len() == 1 && is_field(path[0], word_processed_at()) {
        compare_text(text_bytes(d.processed_at), c, lit)
    } else if path.len() == 1 && is_field(path[0], word_text_length()) {
        compare_number(d.document_text_length as int, c, lit)
    } else {
        false
    }
}

/// A condition holds where its document exists and the named field compares as stated.
pub open spec fn condition_holds(cond: ConditionModel, docs: Seq<Document>) -> bool {
    cond.document < docs.len() && document_holds(docs[cond.document as int], cond.path, cond.comparator, cond.literal)
}

/// Every condition of the set holds.
pub open spec fn all_hold(conds: Seq<ConditionModel>, docs: Seq<Document>) -> bool {
    forall|i: int| 0 <= i < conds.len() ==> condition_holds(#[trigger] conds[i], docs)
}


/// Whether two byte strings are equal.
pub fn bytes_equal(a: &[u8], b: &[u8]) -> (r: bool)
    ensures
        r == (a@ == b@),
{
    if a.len() != b.len() {
        return false;
    }
    let mut i: usize = 0;
    while i < a.len()
        invariant
            i <= a@.len(),
            a@.len() == b@.len(),
            forall|k: int| 0 <= k < i ==> a@[k] == b@[k],
        decreases a@.len() - i,
    {
        if a[i] != b[i] {
            return false;
        }
        i = i + 1;
    }
    assert(a@ =~= b@);
    true
}

/// Whether `a` comes before `b` in the order of byte strings.
pub fn bytes_less(a: &[u8], b: &[u8]) -> (r: bool)
    ensures
        r == lex_less(a@, b@),
{
    let mut i: usize = 0;
    assert(a@.subrange(0, a@.len() as int) =~= a@);
    assert(b@.subrange(0, b@.len() as int) =~= b@);
    loop
        invariant
            i <= a@.len(),
            i <= b@.len(),
            lex_less(a@, b@) == lex_less(a@.subrange(i as int, a@.len() as int), b@.subrange(i as int, b@.len() as int)),
        decreases a@.len() - i,
    {
        let ghost sa = a@.subrange(i as int, a@.len() as int);
        let ghost sb = b@.subrange(i as int, b@.len() as int);
        if i == a.len() {
            return i < b.len();
        }
        if i == b.len() {
            return false;
        }
        assert(sa[0] == a@[i as int] && sb[0] == b@[i as int]);
        if a[i] != b[i] {
            return a[i] < b[i];
        }
        assert(sa.drop_first() =~= a@.subrange(i + 1, a@.len() as int));
        assert(sb.drop_first() =~= b@.subrange(i + 1, b@.len() as int));
        i = i + 1;
    }
}

/// The value of the first member of `entries` named `name`.
pub fn member_of<'a>(entries: &'a Vec<(String, JsonValue)>, name: &[u8]) -> (r: Option<&'a JsonValue>)
    ensures
        match r {
            Some(x) => member(entries@, name@) == Some(*x),
            None => member(entries@, name@) is None,
        },
{
    let mut i: usize = 0;
    assert(entries@.subrange(0, entries@.len() as int) =~= entries@);
    while i < entries.len()
        invariant
            i <= entries@.len(),
            member(entries@, name@) == member(entries@.subrange(i as int, entries@.len() as int), name@),
        decreases entries@.len() - i,
    {
        let ghost rest = entries@.subrange(i as int, entries@.len() as int);
        assert(rest[0] == entries@[i as int]);
        if bytes_equal(bytes_of(&entries[i].0), name) {
            return Some(&entries[i].1);
        }
        assert(rest.drop_first() =~= entries@.subrange(i + 1, entries@.len() as int));
        i = i + 1;
    }
    None
}

/// The value one step below `v`.
pub fn child_of<'a>(v: &'a JsonValue, step: &Step) -> (r: Option<&'a JsonValue>)
    ensures
        match r {
            Some(x) => child(*v, step@) == Some(*x),
            None => child(*v, step@) is None,
        },
{
    match (v, step) {
        (JsonValue::Object(m), Step::Field(n)) => member_of(m, n.as_slice()),
        (JsonValue::Array(a), Step::Index(k)) => {
            if *k < a.len() as u64 {
                Some(&a[*k as usize])
            } else {
                None
            }
        },
        _ => None,
    }
}

/// The value that the steps of `path` from `start` on lead to from `v`.
pub fn value_from<'a>(v: &'a JsonValue, path: &Vec<Step>, start: usize) -> (r: Option<&'a JsonValue>)
    requires
        start <= path@.len(),
    ensures
        match r {
            Some(x) => value_at(*v, path_view(path@).subrange(start as int, path@.len() as int)) == Some(*x),
            None => value_at(*v, path_view(path@).subrange(start as int, path@.len() as int)) is None,
        },
{
    let ghost pv = path_view(path@);
    let mut cur: &JsonValue = v;
    let mut i: usize = start;
    while i < path.len()
        invariant
            start <= i <= path@.len(),
            pv == path_view(path@),
            value_at(*v, pv.subrange(start as int, path@.len() as int))
                == value_at(*cur, pv.subrange(i as int, path@.len() as int)),
        decreases path@.len() - i,
    {
        let ghost rest = pv.subrange(i as int, path@.len() as int);
        assert(rest[0] == path@[i as int]@);
        assert(rest.drop_first() =~= pv.subrange(i + 1, path@.len() as int));
        match child_of(cur, &path[i]) {
            Some(c) => {
                cur = c;
            },
            None => {
                return None;
            },
        }
        i = i + 1;
    }
    assert(pv.subrange(i as int, path@.len() as int) =~= seq![]);
    Some(cur)
}

fn compare_ints_exec(a: i64, c: Comparator, b: i64) -> (r: bool)
    ensures
        r == compare_ints(a as int, c, b as int),
{
    match c {
        Comparator::Eq => a == b,
        Comparator::Ne => a != b,
        Comparator::Lt => a < b,
        Comparator::Le => a <= b,
        Comparator::Gt => a > b,
        Comparator::Ge => a >= b,
    }
}

/// A number against a literal.
pub fn number_against(n: i64, c: Comparator, lit: &Literal) -> (r: bool)
    ensures
        r == compare_number(n as int, c, lit@),
{
    match lit {
        Literal::Number(m) => compare_ints_exec(n, c, *m),
        _ => false,
    }
}

/// A string against a literal.
pub fn text_against(t: &[u8], c: Comparator, lit: &Literal) -> (r: bool)
    ensures
        r == compare_text(t@, c, lit@),
{
    match lit {
        Literal::Text(u) => {
            let u = u.as_slice();
            match c {
                Comparator::Eq => bytes_equal(t, u),
                Comparator::Ne => !bytes_equal(t, u),
                Comparator::Lt => bytes_less(t, u),
                Comparator::Le => !bytes_less(u, t),
                Comparator::Gt => bytes_less(u, t),
                Comparator::Ge => !bytes_less(t, u),
            }
        },
        _ => false,
    }
}

/// A payload value against a literal.
pub fn value_against(v: &JsonValue, c: Comparator, lit: &Literal) -> (r: bool)
    ensures
        r == compare_value(*v, c, lit@),
{
    match v {
        JsonValue::Number(n) => number_against(*n, c, lit),
        JsonValue::Text(t) => text_against(bytes_of(t), c, lit),
        JsonValue::Bool(b) => match lit {
            Literal::Bool(x) => match c {
                Comparator::Eq => *b == *x,
                Comparator::Ne => *b != *x,
                _ => false,
            },
            _ => false,
        },
        _ => false,
    }
}

fn field_is(step: &Step, w: &Vec<u8>) -> (r: bool)
    ensures
        r == is_field(step@, w@),
{
    match step {
        Step::Field(n) => bytes_equal(n.as_slice(), w.as_slice()),
        Step::Index(_) => false,
    }
}

/// Whether the field of `d` that `path` names compares as `c` against `lit`.
pub fn document_satisfies(d: &Document, path: &Vec<Step>, c: Comparator, lit: &Literal) -> (r: bool)
    ensures
        r == document_holds(*d, path_view(path@), c, lit@),
{
    let w_signed_data: Vec<u8> = vec![115u8, 105, 103, 110, 101, 100, 95, 100, 97, 116, 97];
    let w_data: Vec<u8> = vec![100u8, 97, 116, 97];
    let w_signature: Vec<u8> = vec![115u8, 105, 103, 110, 97, 116, 117, 114, 101];
    let w_signed_at: Vec<u8> = vec![115u8, 105, 103, 110, 101, 100, 95, 97, 116];
    let w_signer: Vec<u8> = vec![115u8, 105, 103, 110, 101, 114];
    let w_processed_at: Vec<u8> = vec![112u8, 114, 111, 99, 101, 115, 115, 101, 100, 95, 97, 116];
    let w_text_length: Vec<u8> = vec![100u8, 111, 99, 117, 109, 101, 110, 116, 95, 116, 101, 120, 116, 95,
        108, 101, 110, 103, 116, 104];
    assert(w_signed_data@ =~= word_signed_data());
    assert(w_data@ =~= word_data());
    assert(w_signature@ =~= word_signature());
    assert(w_signed_at@ =~= word_signed_at());
    assert(w_signer@ =~= word_signer());
    assert(w_processed_at@ =~= word_processed_at());
    assert(w_text_length@ =~= word_text_length());
    let ghost pv = path_view(path@);
    let n = path.len();
    let envelope = n >= 1 && field_is(&path[0], &w_signed_data);
    if n >= 2 && envelope && field_is(&path[1], &w_data) {
        match value_from(&d.signed_data.data, path, 2) {
            Some(v) => value_against(v, c, lit),
            None => false,
        }
    } else if n == 2 && envelope && field_is(&path[1], &w_signature) {
        text_against(bytes_of(&d.signed_data.signature), c, lit)
    } else if n == 2 && envelope && field_is(&path[1], &w_signed_at) {
        text_against(bytes_of(&d.signed_data.signed_at), c, lit)
    } else if n == 2 && envelope && field_is(&path[1], &w_signer) {
        text_against(bytes_of(&d.signed_data.signer), c, lit)
    } else if n == 1 && field_is(&path[0], &w_processed_at) {
        text_against(bytes_of(&d.processed_at), c, lit)
    } else if n == 1 && field_is(&path[0], &w_text_length) {
        number_against(d.document_text_length as i64, c, lit)
    } else {
        false
    }
}

/// Whether one condition holds of the batch.
pub fn condition_satisfied(cond: &Condition, docs: &Vec<Document>) -> (r: bool)
    ensures
        r == condition_holds(cond@, docs@),
{
    if cond.document < docs.len() as u64 {
        document_satisfies(&docs[cond.document as usize], &cond.path, cond.comparator, &cond.literal)
    } else {
        false
    }
}

/// Whether every condition of the set holds of the batch.
pub fn all_satisfied(conds: &Vec<Condition>, docs: &Vec<Document>) -> (r: bool)
    ensures
        r == all_hold(conditions_view(conds@), docs@),
{
    let ghost cv = conditions_view(conds@);
    let mut i: usize = 0;
    while i < conds.len()
        invariant
            i <= conds@.len(),
            cv == conditions_view(conds@),
            forall|k: int| 0 <= k < i ==> condition_holds(#[trigger] cv[k], docs@),
        decreases conds@.len() - i,
    {
        if !condition_satisfied(&conds[i], docs) {
            assert(!condition_holds(cv[i as int], docs@));
            return false;
        }
        i = i + 1;
    }
    true
}

/// Parses the condition text and evaluates the set against the batch.
pub fn evaluate_conditions(text: &str, docs: &Vec<Document>) -> (r: Result<bool, ConditionError>)
    ensures
        match parse_text(text.spec_bytes()) {
            Some(cs) => r == Ok::<bool, ConditionError>(all_hold(cs, docs@)),
            None => r is Err,
        },
{
    match parse_conditions(text) {
        Ok(conds) => Ok(all_satisfied(&conds, docs)),
        Err(e) => Err(e),
    }
}

} // verus!
