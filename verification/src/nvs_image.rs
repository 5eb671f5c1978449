//! The JSON image in which a virtual NVS partition is persisted:
//! `{"namespaces": {namespace: {key: {"type": .., "value": ..}}}}`, pretty
//! printed with two-space indentation, namespaces and keys in byte order.

use vstd::prelude::*;
use vstd::string::StringSliceAdditionalSpecFns;

use crate::sorted::key_bytes;
use crate::text::chars_of;

verus! {

/// One stored Preferences value.
#[derive(Clone, Debug, PartialEq, Eq)]
pub enum NvsValue {
    Bool(bool),
    String(String),
}

/// The mathematical value of a stored entry.
pub enum NvsValueView {
    Bool(bool),
    Text(Seq<char>),
}

impl View for NvsValue {
    type V = NvsValueView;

    open spec fn view(&self) -> NvsValueView {
        match self {
            NvsValue::Bool(b) => NvsValueView::Bool(*b),
            NvsValue::String(s) => NvsValueView::Text(s@),
        }
    }
}

/// The keys and values of a namespace table.
pub open spec fn entries_view(kvs: Seq<(String, NvsValue)>) -> Seq<(Seq<char>, NvsValueView)> {
    Seq::new(kvs.len(), |i: int| (kvs[i].0@, kvs[i].1@))
}

/// The namespaces, keys and values of a store.
pub open spec fn store_view(nss: Seq<(String, Vec<(String, NvsValue)>)>) -> Seq<(Seq<char>, Seq<(Seq<char>, NvsValueView)>)> {
    Seq::new(nss.len(), |i: int| (nss[i].0@, entries_view(nss[i].1@)))
}

/// Each character taken as one byte (the literals below are ASCII).
pub open spec fn ascii(s: Seq<char>) -> Seq<u8> {
    Seq::new(s.len(), |i: int| s[i] as u8)
}

pub open spec fn hex_lower(n: u8) -> u8 {
    if n < 10 {
        (48 + n) as u8
    } else {
        (87 + n) as u8
    }
}

/// JSON escaping of one byte of a UTF-8 string.
pub open spec fn json_escape_byte(b: u8) -> Seq<u8> {
    if b == 34 {
        seq![92u8, 34u8]
    } else if b == 92 {
        seq![92u8, 92u8]
    } else if b == 8 {
        seq![92u8, 98u8]
    } else if b == 9 {
        seq![92u8, 116u8]
    } else if b == 10 {
        seq![92u8, 110u8]
    } else if b == 12 {
        seq![92u8, 102u8]
    } else if b == 13 {
        seq![92u8, 114u8]
    } else if b < 32 {
        seq![92u8, 117u8, 48u8, 48u8, hex_lower(b / 16), hex_lower(b % 16)]
    } else {
        seq![b]
    }
}

pub open spec fn json_escaped(bytes: Seq<u8>) -> Seq<u8>
    decreases bytes.len(),
{
    if bytes.len() == 0 {
        Seq::empty()
    } else {
        json_escaped(bytes.drop_last()) + json_escape_byte(bytes.last())
    }
}

/// A JSON string literal holding the given UTF-8 bytes.
pub open spec fn json_str(bytes: Seq<u8>) -> Seq<u8> {
    seq![34u8] + json_escaped(bytes) + seq![34u8]
}

/// Separator before the `n`-th member (1-based) of a non-empty object.
pub open spec fn member_sep(n: int) -> Seq<u8> {
    if n == 1 {
        ascii("\n"@)
    } else {
        ascii(",\n"@)
    }
}

pub open spec fn value_json(v: NvsValueView) -> Seq<u8> {
    match v {
        NvsValueView::Bool(b) => ascii("{\n        \"type\": \"bool\",\n        \"value\": "@) + ascii(
            if b {
                "true"@
            } else {
                "false"@
            },
        ) + ascii("\n      }"@),
        NvsValueView::Text(s) => ascii("{\n        \"type\": \"string\",\n        \"value\": "@) + json_str(key_bytes(s)) + ascii("\n      }"@),
    }
}

pub open spec fn key_members(kvs: Seq<(Seq<char>, NvsValueView)>) -> Seq<u8>
    decreases kvs.len(),
{
    if kvs.len() == 0 {
        Seq::empty()
    } else {
        key_members(kvs.drop_last()) + member_sep(kvs.len() as int) + ascii("      "@) + json_str(
            key_bytes(kvs.last().0),
        ) + ascii(": "@) + value_json(kvs.last().1)
    }
}

pub open spec fn keys_json(kvs: Seq<(Seq<char>, NvsValueView)>) -> Seq<u8> {
    if kvs.len() == 0 {
        ascii("{}"@)
    } else {
        ascii("{"@) + key_members(kvs) + ascii("\n    }"@)
    }
}

pub open spec fn namespace_members(nss: Seq<(Seq<char>, Seq<(Seq<char>, NvsValueView)>)>) -> Seq<u8>
    decreases nss.len(),
{
    if nss.len() == 0 {
        Seq::empty()
    } else {
        namespace_members(nss.drop_last()) + member_sep(nss.len() as int) + ascii("    "@) + json_str(
            key_bytes(nss.last().0),
        ) + ascii(": "@) + keys_json(nss.last().1)
    }
}

pub open spec fn namespaces_json(nss: Seq<(Seq<char>, Seq<(Seq<char>, NvsValueView)>)>) -> Seq<u8> {
    if nss.len() == 0 {
        ascii("{}"@)
    } else {
        ascii("{"@) + namespace_members(nss) + ascii("\n  }"@)
    }
}

/// The whole persisted document.
pub open spec fn nvs_image(nss: Seq<(Seq<char>, Seq<(Seq<char>, NvsValueView)>)>) -> Seq<u8> {
    ascii("{\n  \"namespaces\": "@) + namespaces_json(nss) + ascii("\n}"@)
}

fn push_ascii(out: &mut Vec<u8>, s: &str)
    ensures
        final(out)@ == old(out)@ + ascii(s@),
{
    let chars = chars_of(s);
    let mut i: usize = 0;
    while i < chars.len()
        invariant
            chars@ == s@,
            i <= chars@.len(),
            out@ == old(out)@ + ascii(s@.subrange(0, i as int)),
        decreases chars@.len() - i,
    {
        out.push(chars[i] as u8);
        assert(ascii(s@.subrange(0, i + 1)) =~= ascii(s@.subrange(0, i as int)).push(chars@[i as int] as u8));
        i = i + 1;
    }
    assert(s@.subrange(0, i as int) =~= s@);
}

fn hex_lower_byte(n: u8) -> (b: u8)
    requires
        n < 16,
    ensures
        b == hex_lower(n),
{
    if n < 10 {
        48 + n
    } else {
        87 + n
    }
}

fn push_json_str(out: &mut Vec<u8>, bytes: &[u8])
    ensures
        final(out)@ == old(out)@ + json_str(bytes@),
{
    out.push(34);
    let ghost start = out@;
    let mut i: usize = 0;
    while i < bytes.len()
        invariant
            i <= bytes@.len(),
            start == old(out)@.push(34u8),
            out@ == start + json_escaped(bytes@.subrange(0, i as int)),
        decreases bytes@.len() - i,
    {
        let b = bytes[i];
        let ghost before = out@;
        if b == 34 {
            out.push(92);
            out.push(34);
        } else if b == 92 {
            out.push(92);
            out.push(92);
        } else if b == 8 {
            out.push(92);
            out.push(98);
        } else if b == 9 {
            out.push(92);
            out.push(116);
        } else if b == 10 {
            out.push(92);
            out.push(110);
        } else if b == 12 {
            out.push(92);
            out.push(102);
        } else if b == 13 {
            out.push(92);
            out.push(114);
        } else if b < 32 {
            out.push(92);
            out.push(117);
            out.push(48);
            out.push(48);
            let hi = hex_lower_byte(b / 16);
            out.push(hi);
            let lo = hex_lower_byte(b % 16);
            out.push(lo);
        } else {
            out.push(b);
        }
        proof {
            let prefix = bytes@.subrange(0, i + 1);
            assert(prefix.drop_last() =~= bytes@.subrange(0, i as int));
            assert(out@ =~= before + json_escape_byte(b));
        }
        i = i + 1;
    }
    assert(bytes@.subrange(0, i as int) =~= bytes@);
    out.push(34);
    assert(out@ =~= old(out)@ + json_str(bytes@));
}

fn push_value_json(out: &mut Vec<u8>, v: &NvsValue)
    ensures
        final(out)@ == old(out)@ + value_json(v@),
{
    match v {
        NvsValue::Bool(b) => {
            push_ascii(out, "{\n        \"type\": \"bool\",\n        \"value\": ");
            if *b {
                push_ascii(out, "true");
            } else {
                push_ascii(out, "false");
            }
            push_ascii(out, "\n      }");
        },
        NvsValue::String(s) => {
            push_ascii(out, "{\n        \"type\": \"string\",\n        \"value\": ");
            push_json_str(out, s.as_str().as_bytes());
            push_ascii(out, "\n      }");
        },
    }
    assert(out@ =~= old(out)@ + value_json(v@));
}

fn push_keys_json(out: &mut Vec<u8>, kvs: &Vec<(String, NvsValue)>)
    ensures
        final(out)@ == old(out)@ + keys_json(entries_view(kvs@)),
{
    if kvs.len() == 0 {
        push_ascii(out, "{}");
        return;
    }
    push_ascii(out, "{");
    let ghost start = out@;
    let mut i: usize = 0;
    while i < kvs.len()
        invariant
            i <= kvs@.len(),
            kvs@.len() > 0,
            start == old(out)@ + ascii("{"@),
            out@ == start + key_members(entries_view(kvs@).subrange(0, i as int)),
        decreases kvs@.len() - i,
    {
        let ghost before = out@;
        if i == 0 {
            push_ascii(out, "\n");
        } else {
            push_ascii(out, ",\n");
        }
        push_ascii(out, "      ");
        push_json_str(out, kvs[i].0.as_str().as_bytes());
        push_ascii(out, ": ");
        push_value_json(out, &kvs[i].1);
        proof {
            let view = entries_view(kvs@);
            let prefix = view.subrange(0, i + 1);
            assert(prefix.drop_last() =~= view.subrange(0, i as int));
            assert(prefix.last() == view[i as int]);
            assert(out@ =~= before + member_sep(i + 1) + ascii("      "@) + json_str(key_bytes(kvs@[i as int].0@))
                + ascii(": "@) + value_json(kvs@[i as int].1@));
        }
        i = i + 1;
    }
    assert(entries_view(kvs@).subrange(0, i as int) =~= entries_view(kvs@));
    push_ascii(out, "\n    }");
    assert(out@ =~= old(out)@ + keys_json(entries_view(kvs@)));
}

/// The JSON document that persists these namespaces.
pub fn encode_nvs_image(nss: &Vec<(String, Vec<(String, NvsValue)>)>) -> (image: Vec<u8>)
    ensures
        image@ == nvs_image(store_view(nss@)),
{
    let mut out: Vec<u8> = Vec::new();
    push_ascii(&mut out, "{\n  \"namespaces\": ");
    if nss.len() == 0 {
        push_ascii(&mut out, "{}");
    } else {
        push_ascii(&mut out, "{");
        let ghost start = out@;
        let mut i: usize = 0;
        while i < nss.len()
            invariant
                i <= nss@.len(),
                nss@.len() > 0,
                out@ == start + namespace_members(store_view(nss@).subrange(0, i as int)),
            decreases nss@.len() - i,
        {
            let ghost before = out@;
            if i == 0 {
                push_ascii(&mut out, "\n");
            } else {
                push_ascii(&mut out, ",\n");
            }
            push_ascii(&mut out, "    ");
            push_json_str(&mut out, nss[i].0.as_str().as_bytes());
            push_ascii(&mut out, ": ");
            push_keys_json(&mut out, &nss[i].1);
            proof {
                let view = store_view(nss@);
                let prefix = view.subrange(0, i + 1);
                assert(prefix.drop_last() =~= view.subrange(0, i as int));
                assert(prefix.last() == view[i as int]);
                assert(out@ =~= before + member_sep(i + 1) + ascii("    "@) + json_str(key_bytes(nss@[i as int].0@))
                    + ascii(": "@) + keys_json(entries_view(nss@[i as int].1@)));
            }
            i = i + 1;
        }
        assert(store_view(nss@).subrange(0, i as int) =~= store_view(nss@));
        push_ascii(&mut out, "\n  }");
    }
    push_ascii(&mut out, "\n}");
    assert(out@ =~= nvs_image(store_view(nss@)));
    out
}

} // verus!
