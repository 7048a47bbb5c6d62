use vstd::prelude::*;
use crate::commitment::{bool_text, decimal, push_decimal};
use crate::document::{bytes_of, text_bytes, JsonValue, SignedData};
use crate::evaluate::{word_data, word_signed_at};

verus! {

broadcast use {vstd::std_specs::vec::group_vec_axioms, vstd::seq::group_seq_axioms};

pub open spec fn hex_digit(n: int) -> u8 {
    if n < 10 {
        (48 + n) as u8
    } else {
        (87 + n) as u8
    }
}

/// How one byte of a string stands between quotes: `"` and `\` after a backslash,
/// the usual short escapes, other control bytes as `\u00xx`, anything else as is.
pub open spec fn escape_byte(b: u8) -> Seq<u8> {
    if b == 34 {
        seq![92u8, 34]
    } else if b == 92 {
        seq![92u8, 92]
    } else if b == 8 {
        seq![92u8, 98]
    } else if b == 12 {
        seq![92u8, 102]
    } else if b == 10 {
        seq![92u8, 110]
    } else if b == 13 {
        seq![92u8, 114]
    } else if b == 9 {
        seq![92u8, 116]
    } else if b < 32 {
        seq![92u8, 117, 48, 48, hex_digit(b as int / 16), hex_digit(b as int % 16)]
    } else {
        seq![b]
    }
}

pub open spec fn escaped(s: Seq<u8>) -> Seq<u8>
    decreases s.len(),
{
    if s.len() == 0 {
        seq![]
    } else {
        escaped(s.drop_last()) + escape_byte(s.last())
    }
}

/// A string as a quoted, escaped literal.
pub open spec fn quoted(s: Seq<u8>) -> Seq<u8> {
    seq![34u8] + escaped(s) + seq![34u8]
}

pub open spec fn signed_decimal(n: int) -> Seq<u8> {
    if n < 0 {
        seq![45u8] + decimal((-n) as nat)
    } else {
        decimal(n as nat)
    }
}

/// The canonical rendering of a value: compact JSON with no whitespace, members in
/// their order in the value.
pub open spec fn canonical(v: JsonValue) -> Seq<u8>
    decreases v,
{
    match v {
        JsonValue::Null => seq![110u8, 117, 108, 108],
        JsonValue::Bool(b) => bool_text(b),
        JsonValue::Number(n) => signed_decimal(n as int),
        JsonValue::Text(t) => quoted(text_bytes(t)),
        JsonValue::Array(items) => seq![91u8] + canonical_items(items@) + seq![93u8],
        JsonValue::Object(members) => seq![123u8] + canonical_members(members@) + seq![125u8],
    }
}

/// The renderings of `items`, separated by commas.
pub open spec fn canonical_items(items: Seq<JsonValue>) -> Seq<u8>
    decreases items,
{
    if items.len() == 0 {
        seq![]
    } else if items.len() == 1 {
        canonical(items[0])
    } else {
        canonical_items(items.drop_last()) + seq![44u8] + canonical(items.last())
    }
}

/// The members rendered as `"key":value`, separated by commas.
pub open spec fn canonical_members(members: Seq<(String, JsonValue)>) -> Seq<u8>
    decreases members,
{
    if members.len() == 0 {
        seq![]
    } else if members.len() == 1 {
        quoted(text_bytes(members[0].0)) + seq![58u8] + canonical(members[0].1)
    } else {
        canonical_members(members.drop_last()) + seq![44u8] + quoted(text_bytes(members.last().0))
            + seq![58u8] + canonical(members.last().1)
    }
}


fn push_escaped_byte(out: &mut Vec<u8>, b: u8)
    ensures
        final(out)@ == old(out)@ + escape_byte(b),
{
    if b == 34 || b == 92 {
        out.push(92u8);
        out.push(b);
    } else if b == 8 {
        out.push(92u8);
        out.push(98u8);
    } else if b == 12 {
        out.push(92u8);
        out.push(102u8);
    } else if b == 10 {
        out.push(92u8);
        out.push(110u8);
    } else if b == 13 {
        out.push(92u8);
        out.push(114u8);
    } else if b == 9 {
        out.push(92u8);
        out.push(116u8);
    } else if b < 32 {
        out.push(92u8);
        out.push(117u8);
        out.push(48u8);
        out.push(48u8);
        let hi = b / 16;
        let lo = b % 16;
        out.push(if hi < 10 { 48 + hi } else { 87 + hi });
        out.push(if lo < 10 { 48 + lo } else { 87 + lo });
    } else {
        out.push(b);
    }
    assert(out@ =~= old(out)@ + escape_byte(b));
}

/// Appends `s` as a quoted, escaped string.
pub fn push_quoted(out: &mut Vec<u8>, s: &[u8])
    ensures
        final(out)@ == old(out)@ + quoted(s@),
{
    out.push(34u8);
    let mut i: usize = 0;
    assert(s@.subrange(0, 0) =~= Seq::<u8>::empty());
    while i < s.len()
        invariant
            i <= s@.len(),
            out@ == old(out)@ + seq![34u8] + escaped(s@.subrange(0, i as int)),
        decreases s@.len() - i,
    {
        assert(s@.subrange(0, i + 1).drop_last() =~= s@.subrange(0, i as int));
        push_escaped_byte(out, s[i]);
        i = i + 1;
        assert(out@ =~= old(out)@ + seq![34u8] + escaped(s@.subrange(0, i as int)));
    }
    assert(s@.subrange(0, i as int) =~= s@);
    out.push(34u8);
    assert(out@ =~= old(out)@ + quoted(s@));
}

/// Appends the canonical rendering of `v`.
pub fn push_canonical(out: &mut Vec<u8>, v: &JsonValue)
    ensures
        final(out)@ == old(out)@ + canonical(*v),
    decreases v,
{
    match v {
        JsonValue::Null => {
            out.push(110u8);
            out.push(117u8);
            out.push(108u8);
            out.push(108u8);
            assert(out@ =~= old(out)@ + canonical(*v));
        },
        JsonValue::Bool(b) => {
            if *b {
                out.push(116u8);
                out.push(114u8);
                out.push(117u8);
                out.push(101u8);
            } else {
                out.push(102u8);
                out.push(97u8);
                out.push(108u8);
                out.push(115u8);
                out.push(101u8);
            }
            assert(out@ =~= old(out)@ + canonical(*v));
        },
        JsonValue::Number(n) => {
            if *n < 0 {
                out.push(45u8);
                let m: u64 = (-(*n as i128)) as u64;
                push_decimal(out, m);
            } else {
                push_decimal(out, *n as u64);
            }
            assert(out@ =~= old(out)@ + canonical(*v));
        },
        JsonValue::Text(t) => {
            push_quoted(out, bytes_of(t));
        },
        JsonValue::Array(items) => {
            out.push(91u8);
            let mut i: usize = 0;
            assert(items@.subrange(0, 0) =~= Seq::<JsonValue>::empty());
            while i < items.len()
                invariant
                    i <= items@.len(),
                    *v == JsonValue::Array(*items),
                    out@ == old(out)@ + seq![91u8] + canonical_items(items@.subrange(0, i as int)),
                decreases items@.len() - i,
            {
                let ghost before = out@;
                assert(items@.subrange(0, i + 1).drop_last() =~= items@.subrange(0, i as int));
                assert(items@.subrange(0, i + 1).last() == items@[i as int]);
                if i > 0 {
                    out.push(44u8);
                }
                proof {
                    assert(decreases_to!(*v => v->Array_0));
                    assert(decreases_to!(*items => items@));
                    assert(decreases_to!(items@ => items@[i as int]));
                }
                push_canonical(out, &items[i]);
                i = i + 1;
                assert(out@ =~= old(out)@ + seq![91u8] + canonical_items(items@.subrange(0, i as int)));
            }
            assert(items@.subrange(0, i as int) =~= items@);
            out.push(93u8);
            assert(out@ =~= old(out)@ + canonical(*v));
        },
        JsonValue::Object(members) => {
            out.push(123u8);
            let mut i: usize = 0;
            assert(members@.subrange(0, 0) =~= Seq::<(String, JsonValue)>::empty());
            while i < members.len()
                invariant
                    i <= members@.len(),
                    *v == JsonValue::Object(*members),
                    out@ == old(out)@ + seq![123u8] + canonical_members(members@.subrange(0, i as int)),
                decreases members@.len() - i,
            {
                assert(members@.subrange(0, i + 1).drop_last() =~= members@.subrange(0, i as int));
                assert(members@.subrange(0, i + 1).last() == members@[i as int]);
                if i > 0 {
                    out.push(44u8);
                }
                push_quoted(out, bytes_of(&members[i].0));
                out.push(58u8);
                proof {
                    assert(decreases_to!(*v => v->Object_0));
                    assert(decreases_to!(*members => members@));
                    assert(decreases_to!(members@ => members@[i as int]));
                    assert(decreases_to!(members@[i as int] => members@[i as int].1));
                }
                push_canonical(out, &members[i].1);
                i = i + 1;
                assert(out@ =~= old(out)@ + seq![123u8] + canonical_members(members@.subrange(0, i as int)));
            }
            assert(members@.subrange(0, i as int) =~= members@);
            out.push(125u8);
            assert(out@ =~= old(out)@ + canonical(*v));
        },
    }
}

/// The canonical rendering of a payload value, the bytes that a signature covers.
pub fn canonical_bytes(v: &JsonValue) -> (r: Vec<u8>)
    ensures
        r@ == canonical(*v),
{
    let mut out: Vec<u8> = Vec::new();
    push_canonical(&mut out, v);
    assert(out@ =~= canonical(*v));
    out
}

/// The bytes that a document's signature covers: the canonical rendering of the
/// object `{"data": <data>, "signed_at": <signed_at>}`.
pub open spec fn signed_message(d: SignedData) -> Seq<u8> {
    seq![123u8] + quoted(word_data()) + seq![58u8] + canonical(d.data) + seq![44u8] + quoted(
        word_signed_at(),
    ) + seq![58u8] + quoted(text_bytes(d.signed_at)) + seq![125u8]
}

/// The bytes that a document's signature covers.
pub fn signed_message_bytes(d: &SignedData) -> (r: Vec<u8>)
    ensures
        r@ == signed_message(*d),
{
    let w_data: Vec<u8> = vec![100u8, 97, 116, 97];
    let w_signed_at: Vec<u8> = vec![115u8, 105, 103, 110, 101, 100, 95, 97, 116];
    assert(w_data@ =~= word_data());
    assert(w_signed_at@ =~= word_signed_at());
    let mut out: Vec<u8> = Vec::new();
    out.push(123u8);
    push_quoted(&mut out, w_data.as_slice());
    out.push(58u8);
    push_canonical(&mut out, &d.data);
    out.push(44u8);
    push_quoted(&mut out, w_signed_at.as_slice());
    out.push(58u8);
    push_quoted(&mut out, bytes_of(&d.signed_at));
    out.push(125u8);
    assert(out@ =~= signed_message(*d));
    out
}

} // verus!
