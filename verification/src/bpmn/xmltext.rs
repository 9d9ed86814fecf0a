//! Text encodings used inside BPMN attributes: XML escaping, the
//! `name:ty;name2:ty2` list form, and lowercase hexadecimal.

use vstd::prelude::*;
use crate::text::{chars_of, string_from_range, trim, trim_bounds, trimmed};
use vstd::utf8::encode_utf8;
use vstd::string::StringSliceAdditionalSpecFns;

verus! {

/// The replacement text of one character under XML escaping.
pub open spec fn escape_char(c: char) -> Seq<char> {
    if c == '&' {
        "&amp;"@
    } else if c == '<' {
        "&lt;"@
    } else if c == '>' {
        "&gt;"@
    } else if c == '"' {
        "&quot;"@
    } else if c == '\'' {
        "&apos;"@
    } else {
        seq![c]
    }
}

/// XML escaping: every `&`, `<`, `>`, `"` and `'` replaced by its entity.
pub open spec fn spec_xml_escape(s: Seq<char>) -> Seq<char>
    decreases s.len(),
{
    if s.len() == 0 {
        Seq::empty()
    } else {
        spec_xml_escape(s.drop_last()) + escape_char(s.last())
    }
}

/// A character that XML escaping leaves alone.
pub open spec fn xml_plain_char(c: char) -> bool {
    c != '&' && c != '<' && c != '>' && c != '"' && c != '\''
}

/// Text that XML escaping leaves unchanged.
pub open spec fn xml_plain(s: Seq<char>) -> bool {
    forall|i: int| 0 <= i < s.len() ==> xml_plain_char(#[trigger] s[i])
}

/// Escaping text made of plain characters gives it back.
pub proof fn lemma_escape_plain(s: Seq<char>)
    requires
        xml_plain(s),
    ensures
        spec_xml_escape(s) == s,
    decreases s.len(),
{
    if s.len() > 0 {
        assert(xml_plain_char(s[s.len() - 1]));
        assert(xml_plain(s.drop_last()));
        lemma_escape_plain(s.drop_last());
        assert(s.drop_last().push(s.last()) == s);
    }
}

/// Escapes `&`, `<`, `>`, `"` and `'` for use in XML attribute values.
pub fn xml_escape(s: &str) -> (r: String)
    ensures
        r@ == spec_xml_escape(s@),
{
    let cs = chars_of(s);
    let mut out = String::new();
    let mut i: usize = 0;
    while i < cs.len()
        invariant
            i <= cs@.len(),
            cs@ == s@,
            out@ == spec_xml_escape(cs@.subrange(0, i as int)),
        decreases cs@.len() - i,
    {
        let c = cs[i];
        if c == '&' {
            out.push_str("&amp;");
        } else if c == '<' {
            out.push_str("&lt;");
        } else if c == '>' {
            out.push_str("&gt;");
        } else if c == '"' {
            out.push_str("&quot;");
        } else if c == '\'' {
            out.push_str("&apos;");
        } else {
            out.push(c);
        }
        assert(cs@.subrange(0, i + 1).drop_last() == cs@.subrange(0, i as int));
        i += 1;
    }
    assert(cs@.subrange(0, cs@.len() as int) == cs@);
    out
}

/// The views of a list of string pairs.
pub open spec fn pairs_view(v: Seq<(String, String)>) -> Seq<(Seq<char>, Seq<char>)> {
    v.map_values(|p: (String, String)| (p.0@, p.1@))
}

/// One `name:ty` entry.
pub open spec fn kv_entry(p: (Seq<char>, Seq<char>)) -> Seq<char> {
    p.0 + seq![':'] + p.1
}

/// The entries joined by `;`.
pub open spec fn spec_kv_encode(items: Seq<(Seq<char>, Seq<char>)>) -> Seq<char>
    decreases items.len(),
{
    if items.len() == 0 {
        Seq::empty()
    } else if items.len() == 1 {
        kv_entry(items[0])
    } else {
        spec_kv_encode(items.drop_last()) + seq![';'] + kv_entry(items.last())
    }
}

/// Encodes `(name, ty)` pairs as `name:ty;name2:ty2`.
pub fn kv_list_encode(items: &Vec<(String, String)>) -> (r: String)
    ensures
        r@ == spec_kv_encode(pairs_view(items@)),
{
    let mut out = String::new();
    let mut idx: usize = 0;
    while idx < items.len()
        invariant
            idx <= items@.len(),
            out@ == spec_kv_encode(pairs_view(items@.subrange(0, idx as int))),
        decreases items@.len() - idx,
    {
        if idx > 0 {
            out.push(';');
        }
        out.push_str(items[idx].0.as_str());
        out.push(':');
        out.push_str(items[idx].1.as_str());
        proof {
            let pv = pairs_view(items@.subrange(0, idx + 1));
            assert(pv.drop_last() =~= pairs_view(items@.subrange(0, idx as int)));
            assert(pv.last() == (items@[idx as int].0@, items@[idx as int].1@));
            if idx == 0 {
                assert(pv.len() == 1);
            }
        }
        idx += 1;
    }
    assert(items@.subrange(0, items@.len() as int) == items@);
    out
}

/// `str::split` on one separator character: the pieces between separators.
pub open spec fn split_on(s: Seq<char>, sep: char) -> Seq<Seq<char>>
    decreases s.len(),
{
    if s.len() == 0 {
        seq![Seq::empty()]
    } else {
        let r = split_on(s.drop_last(), sep);
        if s.last() == sep {
            r.push(Seq::empty())
        } else {
            r.update(r.len() - 1, r.last().push(s.last()))
        }
    }
}

/// Splitting always yields at least one piece.
pub proof fn lemma_split_nonempty(s: Seq<char>, sep: char)
    ensures
        split_on(s, sep).len() >= 1,
    decreases s.len(),
{
    if s.len() > 0 {
        lemma_split_nonempty(s.drop_last(), sep);
    }
}

/// The text holds no `c`.
pub open spec fn lacks(s: Seq<char>, c: char) -> bool {
    forall|i: int| 0 <= i < s.len() ==> #[trigger] s[i] != c
}

/// Text without the separator is one piece.
pub proof fn lemma_split_single(t: Seq<char>, sep: char)
    requires
        lacks(t, sep),
    ensures
        split_on(t, sep) == seq![t],
    decreases t.len(),
{
    if t.len() > 0 {
        assert(lacks(t.drop_last(), sep)) by {
            assert forall|i: int| 0 <= i < t.drop_last().len() implies #[trigger] t.drop_last()[i] != sep by {
                assert(t.drop_last()[i] == t[i]);
            }
        }
        lemma_split_single(t.drop_last(), sep);
        assert(t.last() == t[t.len() - 1]);
        assert(t.drop_last().push(t.last()) =~= t);
        assert(seq![t.drop_last()].update(0, t.drop_last().push(t.last())) =~= seq![t]);
    } else {
        assert(t =~= Seq::<char>::empty());
    }
}

/// A separator followed by text without one adds that text as a piece.
pub proof fn lemma_split_append(s: Seq<char>, t: Seq<char>, sep: char)
    requires
        lacks(t, sep),
    ensures
        split_on(s + seq![sep] + t, sep) == split_on(s, sep).push(t),
    decreases t.len(),
{
    lemma_split_nonempty(s, sep);
    if t.len() == 0 {
        assert(s + seq![sep] + t =~= s.push(sep));
        assert((s.push(sep)).drop_last() =~= s);
        assert(t =~= Seq::<char>::empty());
    } else {
        let u = t.drop_last();
        assert(lacks(u, sep)) by {
            assert forall|i: int| 0 <= i < u.len() implies #[trigger] u[i] != sep by {
                assert(u[i] == t[i]);
            }
        }
        lemma_split_append(s, u, sep);
        let w = s + seq![sep] + t;
        assert(w.drop_last() =~= s + seq![sep] + u);
        assert(w.last() == t[t.len() - 1]);
        assert(u.push(t.last()) =~= t);
        assert(split_on(s, sep).push(u).update(split_on(s, sep).len() as int, u.push(t.last())) =~= split_on(s, sep).push(t));
    }
}


/// Index of the first occurrence of `c` in `s`, if any.
pub open spec fn first_index(s: Seq<char>, c: char) -> Option<int>
    decreases s.len(),
{
    if s.len() == 0 {
        None
    } else if s[0] == c {
        Some(0)
    } else {
        match first_index(s.drop_first(), c) {
            Some(i) => Some(i + 1),
            None => None,
        }
    }
}

/// Characterises `first_index` by the position it returns.
pub proof fn lemma_first_index(s: Seq<char>, c: char, i: int)
    requires
        0 <= i <= s.len(),
        forall|k: int| 0 <= k < i ==> s[k] != c,
        i == s.len() || s[i] == c,
    ensures
        first_index(s, c) == (if i == s.len() { None::<int> } else { Some(i) }),
    decreases i,
{
    if i > 0 {
        assert forall|k: int| 0 <= k < i - 1 implies s.drop_first()[k] != c by {
            assert(s.drop_first()[k] == s[k + 1]);
        }
        if i < s.len() {
            assert(s.drop_first()[i - 1] == s[i]);
        }
        lemma_first_index(s.drop_first(), c, i - 1);
    }
}

/// One piece of the list decoded: trimmed, and split at its first `:`.
pub open spec fn kv_piece(part: Seq<char>) -> Option<(Seq<char>, Seq<char>)> {
    let p = trim(part);
    if p.len() == 0 {
        None
    } else {
        match first_index(p, ':') {
            Some(i) => Some((trim(p.subrange(0, i)), trim(p.subrange(i + 1, p.len() as int)))),
            None => None,
        }
    }
}

/// The decoded entries of a list of pieces, skipping pieces that decode to nothing.
pub open spec fn kv_pieces(parts: Seq<Seq<char>>) -> Seq<(Seq<char>, Seq<char>)>
    decreases parts.len(),
{
    if parts.len() == 0 {
        Seq::empty()
    } else {
        match kv_piece(parts.last()) {
            Some(e) => kv_pieces(parts.drop_last()).push(e),
            None => kv_pieces(parts.drop_last()),
        }
    }
}

/// The `name:ty;name2:ty2` form read back.
pub open spec fn spec_kv_decode(s: Seq<char>) -> Seq<(Seq<char>, Seq<char>)> {
    let t = trim(s);
    if t.len() == 0 {
        Seq::empty()
    } else {
        kv_pieces(split_on(t, ';'))
    }
}

/// Decodes one piece of the list.
fn decode_kv_piece(part: &[char]) -> (r: Option<(String, String)>)
    ensures
        match r {
            Some(e) => kv_piece(part@) == Some((e.0@, e.1@)),
            None => kv_piece(part@).is_none(),
        },
{
    let (a, b) = trim_bounds(part);
    if a == b {
        return None;
    }
    let ghost p = part@.subrange(a as int, b as int);
    let mut i: usize = a;
    while i < b && part[i] != ':'
        invariant
            a <= i <= b <= part@.len(),
            p == part@.subrange(a as int, b as int),
            forall|k: int| a <= k < i ==> part@[k] != ':',
        decreases b - i,
    {
        i += 1;
    }
    proof {
        assert forall|k: int| 0 <= k < i - a implies p[k] != ':' by {
            assert(p[k] == part@[a + k]);
        }
        if i < b {
            assert(p[i - a] == part@[i as int]);
        }
        lemma_first_index(p, ':', i - a);
    }
    if i == b {
        return None;
    }
    let (ka, kb) = trim_bounds(&part[a..i]);
    let key = string_from_range(&part[a..i], ka, kb);
    let (va, vb) = trim_bounds(&part[i + 1..b]);
    let val = string_from_range(&part[i + 1..b], va, vb);
    proof {
        assert(part@.subrange(a as int, i as int) == p.subrange(0, i - a));
        assert(part@.subrange(i + 1, b as int) == p.subrange(i - a + 1, p.len() as int));
    }
    Some((key, val))
}

/// Decodes `name:ty;name2:ty2`; pieces without a `:` are skipped and
/// names and types are trimmed.
pub fn kv_list_decode(s: &str) -> (r: Vec<(String, String)>)
    ensures
        pairs_view(r@) == spec_kv_decode(s@),
{
    let all = chars_of(s);
    let (a, b) = trim_bounds(all.as_slice());
    let ghost t = all@.subrange(a as int, b as int);
    let mut out: Vec<(String, String)> = Vec::new();
    if a == b {
        assert(pairs_view(out@) =~= Seq::<(Seq<char>, Seq<char>)>::empty());
        return out;
    }
    let mut start: usize = a;
    let mut i: usize = a;
    while i < b
        invariant
            a <= start <= i <= b <= all@.len(),
            t == all@.subrange(a as int, b as int),
            ({
                let sp = split_on(t.subrange(0, i - a), ';');
                &&& sp.len() >= 1
                &&& sp.last() == all@.subrange(start as int, i as int)
                &&& pairs_view(out@) == kv_pieces(sp.drop_last())
            }),
        decreases b - i,
    {
        proof {
            lemma_split_nonempty(t.subrange(0, i - a), ';');
            assert(t.subrange(0, i - a + 1).drop_last() == t.subrange(0, i - a));
            assert(t.subrange(0, i - a + 1).last() == all@[i as int]);
        }
        if all[i] == ';' {
            let piece = decode_kv_piece(&all[start..i]);
            match piece {
                Some(e) => {
                    out.push(e);
                }
                None => {}
            }
            proof {
                let sp0 = split_on(t.subrange(0, i - a), ';');
                let sp1 = split_on(t.subrange(0, i - a + 1), ';');
                assert(sp1 == sp0.push(Seq::empty()));
                assert(sp1.drop_last() == sp0);
                assert(sp0.drop_last().push(sp0.last()) == sp0);
                assert(pairs_view(out@) =~= kv_pieces(sp0));
            }
            start = i + 1;
        } else {
            proof {
                let sp0 = split_on(t.subrange(0, i - a), ';');
                let sp1 = split_on(t.subrange(0, i - a + 1), ';');
                assert(sp1.drop_last() =~= sp0.drop_last());
                assert(sp1.last() =~= all@.subrange(start as int, i + 1));
            }
        }
        i += 1;
    }
    let piece = decode_kv_piece(&all[start..b]);
    match piece {
        Some(e) => {
            out.push(e);
        }
        None => {}
    }
    proof {
        let sp = split_on(t.subrange(0, b - a), ';');
        assert(t.subrange(0, b - a) == t);
        assert(sp.drop_last().push(sp.last()) == sp);
        assert(pairs_view(out@) =~= kv_pieces(sp));
        assert(trim(s@) == t);
    }
    out
}

/// A lowercase hexadecimal digit.
pub open spec fn hex_digit(n: u8) -> char {
    if n < 10 {
        (n + 48) as char
    } else {
        (n + 87) as char
    }
}

/// Lowercase hexadecimal, two digits per byte, high nibble first.
pub open spec fn spec_hex_encode(b: Seq<u8>) -> Seq<char>
    decreases b.len(),
{
    if b.len() == 0 {
        Seq::empty()
    } else {
        spec_hex_encode(b.drop_last()) + seq![hex_digit(b.last() >> 4), hex_digit(b.last() & 15)]
    }
}

fn hex_digit_exec(n: u8) -> (c: char)
    requires
        n < 16,
    ensures
        c == hex_digit(n),
{
    if n == 0 { '0' }
    else if n == 1 { '1' }
    else if n == 2 { '2' }
    else if n == 3 { '3' }
    else if n == 4 { '4' }
    else if n == 5 { '5' }
    else if n == 6 { '6' }
    else if n == 7 { '7' }
    else if n == 8 { '8' }
    else if n == 9 { '9' }
    else if n == 10 { 'a' }
    else if n == 11 { 'b' }
    else if n == 12 { 'c' }
    else if n == 13 { 'd' }
    else if n == 14 { 'e' }
    else { 'f' }
}

/// Encodes bytes as lowercase hexadecimal.
pub fn hex_encode(bytes: &[u8]) -> (r: String)
    ensures
        r@ == spec_hex_encode(bytes@),
{
    let mut out = String::new();
    let mut i: usize = 0;
    while i < bytes.len()
        invariant
            i <= bytes@.len(),
            out@ == spec_hex_encode(bytes@.subrange(0, i as int)),
        decreases bytes@.len() - i,
    {
        let b = bytes[i];
        assert(b >> 4 < 16 && b & 15 < 16) by (bit_vector);
        out.push(hex_digit_exec(b >> 4));
        out.push(hex_digit_exec(b & 15));
        assert(bytes@.subrange(0, i + 1).drop_last() == bytes@.subrange(0, i as int));
        i += 1;
    }
    assert(bytes@.subrange(0, bytes@.len() as int) == bytes@);
    out
}

/// The value of a hexadecimal digit byte, either case.
pub open spec fn hex_val(c: u8) -> Option<u8> {
    if 48 <= c <= 57 {
        Some((c - 48) as u8)
    } else if 97 <= c <= 102 {
        Some((c - 87) as u8)
    } else if 65 <= c <= 70 {
        Some((c - 55) as u8)
    } else {
        None
    }
}

/// The error for a byte that is not a hexadecimal digit.
pub open spec fn hex_char_error(c: u8) -> Seq<char> {
    "invalid hex char: "@ + seq![c as char]
}

/// Decoding of hexadecimal bytes: two digits per byte, the first bad digit reported.
pub open spec fn spec_hex_decode_bytes(b: Seq<u8>) -> Result<Seq<u8>, Seq<char>>
    decreases b.len(),
{
    if b.len() % 2 != 0 {
        Err("hex string must have even length"@)
    } else if b.len() == 0 {
        Ok(Seq::empty())
    } else {
        match hex_val(b[0]) {
            None => Err(hex_char_error(b[0])),
            Some(hi) => match hex_val(b[1]) {
                None => Err(hex_char_error(b[1])),
                Some(lo) => match spec_hex_decode_bytes(b.subrange(2, b.len() as int)) {
                    Ok(rest) => Ok(seq![(hi * 16 + lo) as u8] + rest),
                    Err(e) => Err(e),
                },
            },
        }
    }
}

fn hex_val_exec(c: u8) -> (r: Option<u8>)
    ensures
        r == hex_val(c),
{
    if 48 <= c && c <= 57 {
        Some(c - 48)
    } else if 97 <= c && c <= 102 {
        Some(c - 87)
    } else if 65 <= c && c <= 70 {
        Some(c - 55)
    } else {
        None
    }
}

fn hex_char_error_exec(c: u8) -> (r: String)
    ensures
        r@ == hex_char_error(c),
{
    let mut out = String::new();
    out.push_str("invalid hex char: ");
    out.push(c as char);
    out
}

/// Decodes hexadecimal after trimming white space: an odd number of bytes
/// or a byte that is not a hex digit is an error.
pub fn hex_decode(s: &str) -> (r: Result<Vec<u8>, String>)
    ensures
        match (r, spec_hex_decode_bytes(encode_utf8(trim(s@)))) {
            (Ok(v), Ok(w)) => v@ == w,
            (Err(e), Err(f)) => e@ == f,
            _ => false,
        },
{
    let t = trimmed(s);
    let bytes = t.as_str().as_bytes();
    let ghost all = bytes@;
    assert(all == encode_utf8(trim(s@)));
    if bytes.len() % 2 != 0 {
        let mut e = String::new();
        e.push_str("hex string must have even length");
        return Err(e);
    }
    let mut out: Vec<u8> = Vec::new();
    let mut i: usize = 0;
    assert(all.subrange(0, all.len() as int) == all);
    assert(forall|rest: Seq<u8>| out@ + rest == rest);
    while i < bytes.len()
        invariant
            i <= bytes@.len(),
            bytes@ == all,
            all == encode_utf8(trim(s@)),
            all.len() % 2 == 0,
            i % 2 == 0,
            spec_hex_decode_bytes(all) == (match spec_hex_decode_bytes(all.subrange(i as int, all.len() as int)) {
                Ok(rest) => Ok(out@ + rest),
                Err(e) => Err(e),
            }),
        decreases bytes@.len() - i,
    {
        let ghost tail = all.subrange(i as int, all.len() as int);
        assert(tail.len() % 2 == 0 && tail.len() >= 2);
        assert(tail[0] == bytes@[i as int]);
        assert(tail[1] == bytes@[i + 1]);
        assert(tail.subrange(2, tail.len() as int) == all.subrange(i + 2, all.len() as int));
        let hi = match hex_val_exec(bytes[i]) {
            Some(v) => v,
            None => {
                return Err(hex_char_error_exec(bytes[i]));
            }
        };
        let lo = match hex_val_exec(bytes[i + 1]) {
            Some(v) => v,
            None => {
                return Err(hex_char_error_exec(bytes[i + 1]));
            }
        };
        let byte = hi * 16 + lo;
        let ghost old_out = out@;
        out.push(byte);
        proof {
            match spec_hex_decode_bytes(all.subrange(i + 2, all.len() as int)) {
                Ok(rest) => {
                    assert(old_out + (seq![byte] + rest) == out@ + rest);
                }
                Err(_) => {}
            }
        }
        i += 2;
    }
    assert(all.subrange(all.len() as int, all.len() as int) == Seq::<u8>::empty());
    assert(out@ + Seq::<u8>::empty() == out@);
    Ok(out)
}

} // verus!
