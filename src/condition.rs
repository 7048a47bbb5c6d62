use vstd::prelude::*;

verus! {

/// One step of a path into a document.
#[derive(Debug)]
pub enum Step {
    /// `.name`
    Field(Vec<u8>),
    /// `[k]`
    Index(u64),
}

/// The mathematical form of a [`Step`].
pub enum StepModel {
    Field(Seq<u8>),
    Index(nat),
}

impl View for Step {
    type V = StepModel;

    open spec fn view(&self) -> StepModel {
        match self {
            Step::Field(n) => StepModel::Field(n@),
            Step::Index(k) => StepModel::Index(*k as nat),
        }
    }
}

#[derive(Clone, Copy, Debug, PartialEq, Eq, Structural)]
pub enum Comparator {
    Eq,
    Ne,
    Lt,
    Le,
    Gt,
    Ge,
}

/// The right-hand side of a condition.
#[derive(Debug)]
pub enum Literal {
    Number(i64),
    Text(Vec<u8>),
    Bool(bool),
}

/// The mathematical form of a [`Literal`].
pub enum LiteralModel {
    Number(int),
    Text(Seq<u8>),
    Bool(bool),
}

impl View for Literal {
    type V = LiteralModel;

    open spec fn view(&self) -> LiteralModel {
        match self {
            Literal::Number(n) => LiteralModel::Number(*n as int),
            Literal::Text(t) => LiteralModel::Text(t@),
            Literal::Bool(b) => LiteralModel::Bool(*b),
        }
    }
}

/// `documents[document]<path> <comparator> <literal>`
#[derive(Debug)]
pub struct Condition {
    pub document: u64,
    pub path: Vec<Step>,
    pub comparator: Comparator,
    pub literal: Literal,
}

/// The mathematical form of a [`Condition`].
pub struct ConditionModel {
    pub document: nat,
    pub path: Seq<StepModel>,
    pub comparator: Comparator,
    pub literal: LiteralModel,
}

pub open spec fn path_view(p: Seq<Step>) -> Seq<StepModel> {
    p.map_values(|s: Step| s@)
}

impl View for Condition {
    type V = ConditionModel;

    open spec fn view(&self) -> ConditionModel {
        ConditionModel {
            document: self.document as nat,
            path: path_view(self.path@),
            comparator: self.comparator,
            literal: self.literal@,
        }
    }
}

pub open spec fn conditions_view(c: Seq<Condition>) -> Seq<ConditionModel> {
    c.map_values(|x: Condition| x@)
}

/// Condition text that does not follow the grammar.
#[derive(Clone, Copy, Debug, PartialEq, Eq, Structural)]
pub enum ConditionError {
    Malformed,
}

// ---------------------------------------------------------------- lexical classes

#[derive(Clone, Copy)]
pub enum ByteClass {
    /// space, tab, carriage return
    Space,
    Digit,
    /// ASCII letters, digits and `_`
    Ident,
    /// anything but `"`
    NotQuote,
    /// anything but a line feed
    NotNewline,
}

pub open spec fn is_digit(b: u8) -> bool {
    48 <= b <= 57
}

pub open spec fn in_class(c: ByteClass, b: u8) -> bool {
    match c {
        ByteClass::Space => b == 32 || b == 9 || b == 13,
        ByteClass::Digit => is_digit(b),
        ByteClass::Ident => is_digit(b) || (65 <= b <= 90) || (97 <= b <= 122) || b == 95,
        ByteClass::NotQuote => b != 34,
        ByteClass::NotNewline => b != 10,
    }
}

/// The first position at or after `i` whose byte is not in class `c` (or the end).
pub open spec fn scan(s: Seq<u8>, i: nat, c: ByteClass) -> nat
    decreases s.len() - i,
{
    if i < s.len() && in_class(c, s[i as int]) {
        scan(s, i + 1, c)
    } else {
        i
    }
}

/// The decimal value of the digits `s[i..j]`.
pub open spec fn digits_value(s: Seq<u8>, i: nat, j: nat) -> int
    decreases j - i,
{
    if j <= i {
        0
    } else {
        digits_value(s, i, (j - 1) as nat) * 10 + (s[j - 1] as int - 48)
    }
}

pub open spec fn max_number() -> int {
    0x7fff_ffff_ffff_ffff
}

/// A run of digits at `i` whose value fits a signed 64-bit integer: its value and end.
pub open spec fn parse_natural(s: Seq<u8>, i: nat) -> Option<(nat, nat)> {
    let e = scan(s, i, ByteClass::Digit);
    if e == i || digits_value(s, i, e) > max_number() {
        None
    } else {
        Some((digits_value(s, i, e) as nat, e))
    }
}

/// `[k]` at `i`: `k` and the position after `]`.
pub open spec fn parse_index(s: Seq<u8>, i: nat) -> Option<(nat, nat)> {
    if i < s.len() && s[i as int] == 91 {
        match parse_natural(s, i + 1) {
            Some((k, e)) => if e < s.len() && s[e as int] == 93 {
                Some((k, e + 1))
            } else {
                None
            },
            None => None,
        }
    } else {
        None
    }
}

/// The longest run of `.name` and `[k]` steps at `i`, and its end; `None` where a
/// `.` or `[` starts a step that is not well formed.
pub open spec fn parse_steps(s: Seq<u8>, i: nat) -> Option<(Seq<StepModel>, nat)>
    decreases s.len() - i,
{
    if i < s.len() && s[i as int] == 46 {
        let e = scan(s, i + 1, ByteClass::Ident);
        if e <= i + 1 || e > s.len() {
            None
        } else {
            match parse_steps(s, e) {
                Some((rest, k)) => Some((seq![StepModel::Field(s.subrange(i + 1 as int, e as int))] + rest, k)),
                None => None,
            }
        }
    } else if i < s.len() && s[i as int] == 91 {
        match parse_index(s, i) {
            Some((k, e)) => if e <= i || e > s.len() {
                None
            } else {
                match parse_steps(s, e) {
                    Some((rest, j)) => Some((seq![StepModel::Index(k)] + rest, j)),
                    None => None,
                }
            },
            None => None,
        }
    } else {
        Some((seq![], i))
    }
}

pub open spec fn parse_comparator(s: Seq<u8>, i: nat) -> Option<(Comparator, nat)> {
    if i + 1 < s.len() && s[(i + 1) as int] == 61 && (s[i as int] == 61 || s[i as int] == 33
        || s[i as int] == 60 || s[i as int] == 62) {
        let c = if s[i as int] == 61 {
            Comparator::Eq
        } else if s[i as int] == 33 {
            Comparator::Ne
        } else if s[i as int] == 60 {
            Comparator::Le
        } else {
            Comparator::Ge
        };
        Some((c, i + 2))
    } else if i < s.len() && s[i as int] == 60 {
        Some((Comparator::Lt, i + 1))
    } else if i < s.len() && s[i as int] == 62 {
        Some((Comparator::Gt, i + 1))
    } else {
        None
    }
}

pub open spec fn word_true() -> Seq<u8> {
    seq![116u8, 114, 117, 101]
}

pub open spec fn word_false() -> Seq<u8> {
    seq![102u8, 97, 108, 115, 101]
}

pub open spec fn word_documents() -> Seq<u8> {
    seq![100u8, 111, 99, 117, 109, 101, 110, 116, 115]
}

/// Whether `w` stands in `s` at `i`.
pub open spec fn word_at(s: Seq<u8>, i: nat, w: Seq<u8>) -> bool {
    i + w.len() <= s.len() && s.subrange(i as int, (i + w.len()) as int) == w
}

/// A quoted string, `true`, `false`, or an optionally negated number at `i`.
pub open spec fn parse_literal(s: Seq<u8>, i: nat) -> Option<(LiteralModel, nat)> {
    if i < s.len() && s[i as int] == 34 {
        let e = scan(s, i + 1, ByteClass::NotQuote);
        if e < s.len() {
            Some((LiteralModel::Text(s.subrange(i + 1 as int, e as int)), e + 1))
        } else {
            None
        }
    } else if word_at(s, i, word_true()) {
        Some((LiteralModel::Bool(true), i + 4))
    } else if word_at(s, i, word_false()) {
        Some((LiteralModel::Bool(false), i + 5))
    } else if i < s.len() && s[i as int] == 45 {
        match parse_natural(s, i + 1) {
            Some((v, e)) => Some((LiteralModel::Number(-v), e)),
            None => None,
        }
    } else {
        match parse_natural(s, i) {
            Some((v, e)) => Some((LiteralModel::Number(v as int), e)),
            None => None,
        }
    }
}

/// One condition line: `documents[k]` and its steps, a comparator and a literal,
/// with spaces allowed around the comparator and at both ends.
pub open spec fn parse_line(s: Seq<u8>) -> Option<ConditionModel> {
    let i0 = scan(s, 0, ByteClass::Space);
    if !word_at(s, i0, word_documents()) {
        None
    } else {
        match parse_index(s, i0 + 9) {
            None => None,
            Some((d, i1)) => match parse_steps(s, i1) {
                None => None,
                Some((p, i2)) => match parse_comparator(s, scan(s, i2, ByteClass::Space)) {
                    None => None,
                    Some((c, i4)) => match parse_literal(s, scan(s, i4, ByteClass::Space)) {
                        None => None,
                        Some((l, i6)) => if scan(s, i6, ByteClass::Space) == s.len() {
                            Some(ConditionModel { document: d, path: p, comparator: c, literal: l })
                        } else {
                            None
                        },
                    },
                },
            },
        }
    }
}

/// A line that holds only spaces.
pub open spec fn is_blank(line: Seq<u8>) -> bool {
    scan(line, 0, ByteClass::Space) == line.len()
}

/// The conditions of the lines that start at or after `i`, blank lines skipped;
/// `None` where one of them is malformed.
pub open spec fn parse_lines_from(s: Seq<u8>, i: nat) -> Option<Seq<ConditionModel>>
    decreases s.len() - i,
{
    if i >= s.len() {
        Some(seq![])
    } else {
        let e = scan(s, i, ByteClass::NotNewline);
        let line = s.subrange(i as int, e as int);
        let rest = if i <= e < s.len() {
            parse_lines_from(s, e + 1)
        } else {
            Some(seq![])
        };
        if is_blank(line) {
            rest
        } else {
            match parse_line(line) {
                None => None,
                Some(c) => match rest {
                    Some(r) => Some(seq![c] + r),
                    None => None,
                },
            }
        }
    }
}

/// The condition set that a text denotes, one condition per non-blank line.
pub open spec fn parse_text(s: Seq<u8>) -> Option<Seq<ConditionModel>> {
    parse_lines_from(s, 0)
}

} // verus!
