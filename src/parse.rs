use vstd::prelude::*;
use vstd::string::StringSliceAdditionalSpecFns;
use crate::condition::{
    conditions_view, in_class, is_digit, max_number, parse_comparator, parse_index, parse_line,
    parse_lines_from, parse_literal, parse_natural, parse_steps, parse_text, path_view, scan, word_at,
    word_documents, word_false, word_true, digits_value, ByteClass, Comparator, Condition,
    ConditionError, ConditionModel, Literal, LiteralModel, Step, StepModel,
};

verus! {

fn byte_in(c: ByteClass, b: u8) -> (r: bool)
    ensures
        r == in_class(c, b),
{
    match c {
        ByteClass::Space => b == 32 || b == 9 || b == 13,
        ByteClass::Digit => 48 <= b && b <= 57,
        ByteClass::Ident => (48 <= b && b <= 57) || (65 <= b && b <= 90) || (97 <= b && b <= 122)
            || b == 95,
        ByteClass::NotQuote => b != 34,
        ByteClass::NotNewline => b != 10,
    }
}

/// Skips the bytes of class `c` from `i` on.
fn scan_class(s: &[u8], i: usize, c: ByteClass) -> (r: usize)
    requires
        i <= s@.len(),
    ensures
        r as nat == scan(s@, i as nat, c),
        i <= r <= s@.len(),
        forall|k: int| i <= k < r ==> in_class(c, #[trigger] s@[k]),
{
    let mut j: usize = i;
    while j < s.len() && byte_in(c, s[j])
        invariant
            i <= j <= s@.len(),
            scan(s@, j as nat, c) == scan(s@, i as nat, c),
            forall|k: int| i <= k < j ==> in_class(c, #[trigger] s@[k]),
        decreases s@.len() - j,
    {
        j = j + 1;
    }
    j
}

/// The bytes `s[a..b]` as a new vector.
fn copy_range(s: &[u8], a: usize, b: usize) -> (r: Vec<u8>)
    requires
        a <= b <= s@.len(),
    ensures
        r@ == s@.subrange(a as int, b as int),
{
    let mut r: Vec<u8> = Vec::new();
    let mut j: usize = a;
    while j < b
        invariant
            a <= j <= b <= s@.len(),
            r@ == s@.subrange(a as int, j as int),
        decreases b - j,
    {
        r.push(s[j]);
        assert(r@ =~= s@.subrange(a as int, j + 1));
        j = j + 1;
    }
    r
}

proof fn lemma_digits_grow(s: Seq<u8>, i: nat, j: nat, k: nat)
    requires
        i <= j <= k <= s.len(),
        forall|m: int| i <= m < k ==> is_digit(#[trigger] s[m]),
    ensures
        0 <= digits_value(s, i, j) <= digits_value(s, i, k),
    decreases k - i,
{
    if k > i {
        let k1 = (k - 1) as nat;
        if j <= k1 {
            lemma_digits_grow(s, i, j, k1);
        } else {
            lemma_digits_grow(s, i, k1, k1);
        }
        assert(is_digit(s[k1 as int]));
    }
}

/// The run of digits at `i`, where its value fits a signed 64-bit integer.
fn natural_at(s: &[u8], i: usize) -> (r: Option<(u64, usize)>)
    requires
        i <= s@.len(),
    ensures
        match r {
            Some((v, e)) => parse_natural(s@, i as nat) == Some((v as nat, e as nat)),
            None => parse_natural(s@, i as nat) is None,
        },
        r matches Some((v, e)) ==> i < e <= s@.len() && v <= max_number(),
{
    let e = scan_class(s, i, ByteClass::Digit);
    if e == i {
        return None;
    }
    let mut v: u64 = 0;
    let mut j: usize = i;
    while j < e
        invariant
            i <= j <= e <= s@.len(),
            e as nat == scan(s@, i as nat, ByteClass::Digit),
            forall|k: int| i <= k < e ==> in_class(ByteClass::Digit, #[trigger] s@[k]),
            v as int == digits_value(s@, i as nat, j as nat),
            v <= max_number(),
        decreases e - j,
    {
        assert(in_class(ByteClass::Digit, s@[j as int]));
        let d: u8 = s[j] - 48;
        let nv: u128 = v as u128 * 10 + d as u128;
        assert(nv as int == digits_value(s@, i as nat, (j + 1) as nat));
        if nv > 0x7fff_ffff_ffff_ffffu128 {
            proof {
                lemma_digits_grow(s@, i as nat, (j + 1) as nat, e as nat);
            }
            return None;
        }
        v = nv as u64;
        j = j + 1;
    }
    Some((v, e))
}

/// `[k]` at `i`.
fn index_at(s: &[u8], i: usize) -> (r: Option<(u64, usize)>)
    requires
        i <= s@.len(),
    ensures
        match r {
            Some((k, e)) => parse_index(s@, i as nat) == Some((k as nat, e as nat)),
            None => parse_index(s@, i as nat) is None,
        },
        r matches Some((k, e)) ==> i < e <= s@.len(),
{
    if i < s.len() && s[i] == 91 {
        match natural_at(s, i + 1) {
            Some((k, e)) => {
                if e < s.len() && s[e] == 93 {
                    Some((k, e + 1))
                } else {
                    None
                }
            },
            None => None,
        }
    } else {
        None
    }
}

pub open spec fn steps_result(r: Option<(Vec<Step>, usize)>) -> Option<(Seq<StepModel>, nat)> {
    match r {
        Some((p, e)) => Some((path_view(p@), e as nat)),
        None => None,
    }
}

/// The steps of a path from `i` on.
fn steps_at(s: &[u8], i: usize) -> (r: Option<(Vec<Step>, usize)>)
    requires
        i <= s@.len(),
    ensures
        steps_result(r) == parse_steps(s@, i as nat),
        r matches Some((p, e)) ==> i <= e <= s@.len(),
    decreases s@.len() - i,
{
    if i < s.len() && s[i] == 46 {
        let e = scan_class(s, i + 1, ByteClass::Ident);
        if e == i + 1 {
            None
        } else {
            match steps_at(s, e) {
                Some((mut rest, k)) => {
                    let name = copy_range(s, i + 1, e);
                    let ghost old_rest = rest@;
                    rest.insert(0, Step::Field(name));
                    assert(path_view(rest@) =~= seq![StepModel::Field(s@.subrange(i + 1 as int, e as int))]
                        + path_view(old_rest));
                    Some((rest, k))
                },
                None => None,
            }
        }
    } else if i < s.len() && s[i] == 91 {
        match index_at(s, i) {
            Some((k, e)) => {
                match steps_at(s, e) {
                    Some((mut rest, j)) => {
                        let ghost old_rest = rest@;
                        rest.insert(0, Step::Index(k));
                        assert(path_view(rest@) =~= seq![StepModel::Index(k as nat)] + path_view(old_rest));
                        Some((rest, j))
                    },
                    None => None,
                }
            },
            None => None,
        }
    } else {
        let r: Vec<Step> = Vec::new();
        assert(path_view(r@) =~= seq![]);
        Some((r, i))
    }
}

fn comparator_at(s: &[u8], i: usize) -> (r: Option<(Comparator, usize)>)
    requires
        i <= s@.len(),
    ensures
        match r {
            Some((c, e)) => parse_comparator(s@, i as nat) == Some((c, e as nat)),
            None => parse_comparator(s@, i as nat) is None,
        },
        r matches Some((c, e)) ==> e <= s@.len(),
{
    if i < s.len() && s.len() - i > 1 && s[i + 1] == 61 && (s[i] == 61 || s[i] == 33 || s[i] == 60 || s[i] == 62) {
        let c = if s[i] == 61 {
            Comparator::Eq
        } else if s[i] == 33 {
            Comparator::Ne
        } else if s[i] == 60 {
            Comparator::Le
        } else {
            Comparator::Ge
        };
        Some((c, i + 2))
    } else if i < s.len() && s[i] == 60 {
        Some((Comparator::Lt, i + 1))
    } else if i < s.len() && s[i] == 62 {
        Some((Comparator::Gt, i + 1))
    } else {
        None
    }
}

/// Whether the bytes of `w` stand in `s` at `i`.
fn word_at_exec(s: &[u8], i: usize, w: &Vec<u8>) -> (r: bool)
    requires
        i <= s@.len(),
    ensures
        r == word_at(s@, i as nat, w@),
{
    if w.len() > s.len() - i {
        return false;
    }
    let mut j: usize = 0;
    while j < w.len()
        invariant
            j <= w@.len(),
            i <= s@.len(),
            s@.len() <= usize::MAX,
            i + w@.len() <= s@.len(),
            forall|m: int| 0 <= m < j ==> s@[i + m] == w@[m],
        decreases w@.len() - j,
    {
        if s[i + j] != w[j] {
            assert(s@.subrange(i as int, i + w@.len())[j as int] != w@[j as int]);
            return false;
        }
        j = j + 1;
    }
    assert(s@.subrange(i as int, i + w@.len()) =~= w@);
    true
}

pub open spec fn literal_result(r: Option<(Literal, usize)>) -> Option<(LiteralModel, nat)> {
    match r {
        Some((l, e)) => Some((l@, e as nat)),
        None => None,
    }
}

fn literal_at(s: &[u8], i: usize) -> (r: Option<(Literal, usize)>)
    requires
        i <= s@.len(),
    ensures
        literal_result(r) == parse_literal(s@, i as nat),
        r matches Some((l, e)) ==> e <= s@.len(),
{
    let t: Vec<u8> = vec![116u8, 114, 117, 101];
    let f: Vec<u8> = vec![102u8, 97, 108, 115, 101];
    assert(t@ =~= word_true());
    assert(f@ =~= word_false());
    if i < s.len() && s[i] == 34 {
        let e = scan_class(s, i + 1, ByteClass::NotQuote);
        if e < s.len() {
            Some((Literal::Text(copy_range(s, i + 1, e)), e + 1))
        } else {
            None
        }
    } else if word_at_exec(s, i, &t) {
        Some((Literal::Bool(true), i + 4))
    } else if word_at_exec(s, i, &f) {
        Some((Literal::Bool(false), i + 5))
    } else if i < s.len() && s[i] == 45 {
        match natural_at(s, i + 1) {
            Some((v, e)) => Some((Literal::Number(-(v as i64)), e)),
            None => None,
        }
    } else {
        match natural_at(s, i) {
            Some((v, e)) => Some((Literal::Number(v as i64), e)),
            None => None,
        }
    }
}

pub open spec fn condition_result(r: Option<Condition>) -> Option<ConditionModel> {
    match r {
        Some(c) => Some(c@),
        None => None,
    }
}

/// Parses one condition line.
pub fn parse_line_bytes(s: &[u8]) -> (r: Option<Condition>)
    ensures
        condition_result(r) == parse_line(s@),
{
    let w: Vec<u8> = vec![100u8, 111, 99, 117, 109, 101, 110, 116, 115];
    assert(w@ =~= word_documents());
    assert(w@.len() == 9);
    let len = s.len();
    let i0 = scan_class(s, 0, ByteClass::Space);
    if !word_at_exec(s, i0, &w) {
        return None;
    }
    let (d, i1) = match index_at(s, i0 + 9) {
        Some(x) => x,
        None => return None,
    };
    let (p, i2) = match steps_at(s, i1) {
        Some(x) => x,
        None => return None,
    };
    let i3 = scan_class(s, i2, ByteClass::Space);
    let (c, i4) = match comparator_at(s, i3) {
        Some(x) => x,
        None => return None,
    };
    let i5 = scan_class(s, i4, ByteClass::Space);
    let (l, i6) = match literal_at(s, i5) {
        Some(x) => x,
        None => return None,
    };
    if scan_class(s, i6, ByteClass::Space) == len {
        Some(Condition { document: d, path: p, comparator: c, literal: l })
    } else {
        None
    }
}

/// Parses condition text into its condition set: one condition per non-blank line.
pub fn parse_conditions(text: &str) -> (r: Result<Vec<Condition>, ConditionError>)
    ensures
        match parse_text(text.spec_bytes()) {
            Some(cs) => r matches Ok(v) && conditions_view(v@) == cs,
            None => r is Err,
        },
{
    let s = text.as_bytes();
    let mut out: Vec<Condition> = Vec::new();
    let mut i: usize = 0;
    assert(conditions_view(out@) + parse_text(s@).unwrap_or(seq![]) =~= parse_text(s@).unwrap_or(seq![]));
    while i < s.len()
        invariant
            i <= s@.len(),
            s@ == text.spec_bytes(),
            parse_text(s@) == match parse_lines_from(s@, i as nat) {
                Some(r) => Some(conditions_view(out@) + r),
                None => None,
            },
        decreases s@.len() - i,
    {
        let e = scan_class(s, i, ByteClass::NotNewline);
        let line = copy_range(s, i, e);
        let ls = line.as_slice();
        let blank = scan_class(ls, 0, ByteClass::Space) == ls.len();
        if !blank {
            match parse_line_bytes(ls) {
                Some(c) => {
                    let ghost before = conditions_view(out@);
                    out.push(c);
                    assert(conditions_view(out@) =~= before + seq![c@]);
                    proof {
                        match parse_lines_from(s@, (e + 1) as nat) {
                            Some(r) => {
                                assert(before + (seq![c@] + r) =~= conditions_view(out@) + r);
                            },
                            None => {},
                        }
                    }
                },
                None => {
                    return Err(ConditionError::Malformed);
                },
            }
        }
        if e >= s.len() {
            proof {
                assert(conditions_view(out@) + seq![] =~= conditions_view(out@));
            }
            i = e;
        } else {
            i = e + 1;
        }
    }
    Ok(out)
}

} // verus!
