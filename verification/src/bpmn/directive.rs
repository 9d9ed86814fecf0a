//! Task-name directives (`println: ...`, `let: x = 1`, `call: f`, ...)
//! and the identifier and literal checks they rely on.

use vstd::prelude::*;
use crate::text::{
    ascii_lower_seq, ascii_lowercase, chars_eq_str, chars_of, find_char, push_chars,
    string_from_range, trim, trim_bounds,
};
use super::model::opt_view;
use super::xmltext::{first_index, lemma_first_index};

verus! {

pub open spec fn is_ascii_alpha(c: char) -> bool {
    ('a' <= c && c <= 'z') || ('A' <= c && c <= 'Z')
}

pub open spec fn is_ascii_digit(c: char) -> bool {
    '0' <= c && c <= '9'
}

/// ASCII letters, digits and `_`.
pub open spec fn is_ident_char(c: char) -> bool {
    is_ascii_alpha(c) || is_ascii_digit(c) || c == '_'
}

fn ident_char(c: char) -> (r: bool)
    ensures
        r == is_ident_char(c),
{
    ('a' <= c && c <= 'z') || ('A' <= c && c <= 'Z') || ('0' <= c && c <= '9') || c == '_'
}

/// The trimmed text if it is an identifier: a letter or `_` followed by
/// letters, digits or `_`.
pub open spec fn spec_parse_ident(s: Seq<char>) -> Option<Seq<char>> {
    let t = trim(s);
    if t.len() == 0 {
        None
    } else if !(is_ascii_alpha(t[0]) || t[0] == '_') {
        None
    } else if forall|i: int| 0 <= i < t.len() ==> is_ident_char(#[trigger] t[i]) {
        Some(t)
    } else {
        None
    }
}

/// Reads an identifier, ignoring surrounding white space.
pub fn parse_ident(s: &[char]) -> (r: Option<String>)
    ensures
        match r {
            Some(v) => spec_parse_ident(s@) == Some(v@),
            None => spec_parse_ident(s@).is_none(),
        },
{
    let (a, b) = trim_bounds(s);
    let ghost t = s@.subrange(a as int, b as int);
    if a == b {
        return None;
    }
    assert(t[0] == s@[a as int]);
    let c0 = s[a];
    if !(('a' <= c0 && c0 <= 'z') || ('A' <= c0 && c0 <= 'Z') || c0 == '_') {
        return None;
    }
    let mut i: usize = a;
    while i < b
        invariant
            a <= i <= b <= s@.len(),
            t == s@.subrange(a as int, b as int),
            t == trim(s@),
            t.len() > 0,
            is_ascii_alpha(t[0]) || t[0] == '_',
            forall|k: int| 0 <= k < i - a ==> is_ident_char(#[trigger] t[k]),
        decreases b - i,
    {
        assert(t[i - a] == s@[i as int]);
        if !ident_char(s[i]) {
            assert(!is_ident_char(t[i - a]));
            return None;
        }
        i += 1;
    }
    Some(string_from_range(s, a, b))
}

/// A name made usable as a Rust identifier: every character that is not
/// an ASCII letter, digit or `_` becomes `_`; an empty name becomes `_task`.
pub open spec fn spec_sanitize_ident(name: Seq<char>) -> Seq<char> {
    if name.len() == 0 {
        "_task"@
    } else {
        name.map_values(|c: char| if is_ident_char(c) { c } else { '_' })
    }
}

pub fn sanitize_ident(name: &str) -> (r: String)
    ensures
        r@ == spec_sanitize_ident(name@),
{
    let cs = chars_of(name);
    if cs.len() == 0 {
        return "_task".to_owned();
    }
    let mut out = String::new();
    let mut i: usize = 0;
    while i < cs.len()
        invariant
            i <= cs@.len(),
            cs@ == name@,
            out@ == cs@.subrange(0, i as int).map_values(|c: char| if is_ident_char(c) { c } else { '_' }),
        decreases cs@.len() - i,
    {
        if ident_char(cs[i]) {
            out.push(cs[i]);
        } else {
            out.push('_');
        }
        i += 1;
        assert(out@ =~= cs@.subrange(0, i as int).map_values(|c: char| if is_ident_char(c) { c } else { '_' }));
    }
    assert(cs@.subrange(0, cs@.len() as int) == cs@);
    out
}

/// The escape of one character inside a Rust string literal.
pub open spec fn rust_escape_char(c: char) -> Seq<char> {
    if c == '\\' {
        seq!['\\', '\\']
    } else if c == '"' {
        seq!['\\', '"']
    } else if c == '\n' {
        seq!['\\', 'n']
    } else if c == '\r' {
        seq!['\\', 'r']
    } else if c == '\t' {
        seq!['\\', 't']
    } else {
        seq![c]
    }
}

/// Text escaped for a Rust string literal: backslash, quote, newline,
/// carriage return and tab.
pub open spec fn spec_rust_escape(s: Seq<char>) -> Seq<char>
    decreases s.len(),
{
    if s.len() == 0 {
        Seq::empty()
    } else {
        spec_rust_escape(s.drop_last()) + rust_escape_char(s.last())
    }
}

/// Appends `s` escaped for a Rust string literal.
pub fn push_rust_escaped(out: &mut String, s: &[char])
    ensures
        final(out)@ == old(out)@ + spec_rust_escape(s@),
{
    let mut i: usize = 0;
    while i < s.len()
        invariant
            i <= s@.len(),
            out@ == old(out)@ + spec_rust_escape(s@.subrange(0, i as int)),
        decreases s@.len() - i,
    {
        let c = s[i];
        if c == '\\' {
            out.push('\\');
            out.push('\\');
        } else if c == '"' {
            out.push('\\');
            out.push('"');
        } else if c == '\n' {
            out.push('\\');
            out.push('n');
        } else if c == '\r' {
            out.push('\\');
            out.push('r');
        } else if c == '\t' {
            out.push('\\');
            out.push('t');
        } else {
            out.push(c);
        }
        assert(s@.subrange(0, i + 1).drop_last() == s@.subrange(0, i as int));
        i += 1;
    }
    assert(s@.subrange(0, s@.len() as int) == s@);
}

/// Escapes text for a Rust string literal.
pub fn rust_escape_string(s: &str) -> (r: String)
    ensures
        r@ == spec_rust_escape(s@),
{
    let cs = chars_of(s);
    let mut out = String::new();
    push_rust_escaped(&mut out, cs.as_slice());
    out
}

/// A Rust string literal holding the text.
pub open spec fn spec_quote(s: Seq<char>) -> Seq<char> {
    seq!['"'] + spec_rust_escape(s) + seq!['"']
}

pub fn rust_quote_string_literal(s: &[char]) -> (r: String)
    ensures
        r@ == spec_quote(s@),
{
    let mut out = String::new();
    out.push('"');
    push_rust_escaped(&mut out, s);
    out.push('"');
    out
}

/// Every character is an ASCII digit.
pub open spec fn all_digits(s: Seq<char>) -> bool {
    forall|i: int| 0 <= i < s.len() ==> is_ascii_digit(#[trigger] s[i])
}

/// The text without one leading `+` or `-`.
pub open spec fn strip_sign(s: Seq<char>) -> Seq<char> {
    if s.len() > 0 && (s[0] == '+' || s[0] == '-') {
        s.drop_first()
    } else {
        s
    }
}

/// Digits with at most one `.`, and at least one digit.
pub open spec fn mantissa_ok(m: Seq<char>) -> bool {
    match first_index(m, '.') {
        None => m.len() >= 1 && all_digits(m),
        Some(d) => all_digits(m.subrange(0, d)) && all_digits(m.subrange(d + 1, m.len() as int)) && m.len() >= 2,
    }
}

/// An optional sign followed by at least one digit.
pub open spec fn exponent_ok(x: Seq<char>) -> bool {
    strip_sign(x).len() >= 1 && all_digits(strip_sign(x))
}

/// The first `e` or `E`.
pub open spec fn first_e(s: Seq<char>) -> Option<int>
    decreases s.len(),
{
    if s.len() == 0 {
        None
    } else if s[0] == 'e' || s[0] == 'E' {
        Some(0)
    } else {
        match first_e(s.drop_first()) {
            Some(i) => Some(i + 1),
            None => None,
        }
    }
}

/// A decimal number with an optional exponent.
pub open spec fn number_ok(t: Seq<char>) -> bool {
    match first_e(t) {
        None => mantissa_ok(t),
        Some(k) => mantissa_ok(t.subrange(0, k)) && exponent_ok(t.subrange(k + 1, t.len() as int)),
    }
}

/// The grammar `str::parse::<f64>` accepts: an optional sign, then `inf`,
/// `infinity` or `nan` in any case, or a decimal number with an optional exponent.
pub open spec fn is_float_literal(s: Seq<char>) -> bool {
    let t = strip_sign(s);
    let l = ascii_lower_seq(t);
    l == "inf"@ || l == "infinity"@ || l == "nan"@ || number_ok(t)
}

fn digits_only(s: &[char], from: usize, to: usize) -> (r: bool)
    requires
        from <= to <= s@.len(),
    ensures
        r == all_digits(s@.subrange(from as int, to as int)),
{
    let mut i = from;
    while i < to
        invariant
            from <= i <= to <= s@.len(),
            forall|k: int| from <= k < i ==> is_ascii_digit(#[trigger] s@[k]),
        decreases to - i,
    {
        if !('0' <= s[i] && s[i] <= '9') {
            assert(s@.subrange(from as int, to as int)[i - from] == s@[i as int]);
            return false;
        }
        i += 1;
    }
    assert forall|k: int| 0 <= k < to - from implies is_ascii_digit(#[trigger] s@.subrange(from as int, to as int)[k]) by {
        assert(s@.subrange(from as int, to as int)[k] == s@[from + k]);
    }
    true
}

fn mantissa_check(s: &[char], from: usize, to: usize) -> (r: bool)
    requires
        from <= to <= s@.len(),
    ensures
        r == mantissa_ok(s@.subrange(from as int, to as int)),
{
    let ghost m = s@.subrange(from as int, to as int);
    let mut i = from;
    while i < to && s[i] != '.'
        invariant
            from <= i <= to <= s@.len(),
            m == s@.subrange(from as int, to as int),
            forall|k: int| from <= k < i ==> s@[k] != '.',
        decreases to - i,
    {
        i += 1;
    }
    proof {
        assert forall|k: int| 0 <= k < i - from implies m[k] != '.' by {
            assert(m[k] == s@[from + k]);
        }
        if i < to {
            assert(m[i - from] == s@[i as int]);
        }
        super::xmltext::lemma_first_index(m, '.', i - from);
    }
    if i == to {
        to - from >= 1 && digits_only(s, from, to)
    } else {
        assert(m.subrange(0, i - from) == s@.subrange(from as int, i as int));
        assert(m.subrange(i - from + 1, m.len() as int) == s@.subrange(i + 1, to as int));
        digits_only(s, from, i) && digits_only(s, i + 1, to) && to - from >= 2
    }
}

fn exponent_check(s: &[char], from: usize, to: usize) -> (r: bool)
    requires
        from <= to <= s@.len(),
    ensures
        r == exponent_ok(s@.subrange(from as int, to as int)),
{
    let ghost x = s@.subrange(from as int, to as int);
    let mut a = from;
    if a < to && (s[a] == '+' || s[a] == '-') {
        assert(x[0] == s@[a as int]);
        a += 1;
        assert(strip_sign(x) == s@.subrange(a as int, to as int));
    } else {
        if a < to {
            assert(x[0] == s@[a as int]);
        }
        assert(strip_sign(x) == s@.subrange(a as int, to as int));
    }
    to - a >= 1 && digits_only(s, a, to)
}

/// Whether the text is accepted by `str::parse::<f64>`.
pub fn is_float_text(s: &[char]) -> (r: bool)
    ensures
        r == is_float_literal(s@),
{
    let n = s.len();
    let mut a: usize = 0;
    if n > 0 && (s[0] == '+' || s[0] == '-') {
        a = 1;
    }
    let ghost t = strip_sign(s@);
    assert(t == s@.subrange(a as int, n as int));
    let lower = ascii_lowercase(&s[a..n]);
    if chars_eq_str(lower.as_slice(), "inf") || chars_eq_str(lower.as_slice(), "infinity")
        || chars_eq_str(lower.as_slice(), "nan") {
        return true;
    }
    let mut k = a;
    while k < n && s[k] != 'e' && s[k] != 'E'
        invariant
            a <= k <= n,
            n == s@.len(),
            forall|j: int| a <= j < k ==> s@[j] != 'e' && s@[j] != 'E',
        decreases n - k,
    {
        k += 1;
    }
    proof {
        lemma_first_e(t, k - a);
    }
    if k == n {
        mantissa_check(s, a, n)
    } else {
        assert(t.subrange(0, k - a) == s@.subrange(a as int, k as int));
        assert(t.subrange(k - a + 1, t.len() as int) == s@.subrange(k + 1, n as int));
        mantissa_check(s, a, k) && exponent_check(s, k + 1, n)
    }
}

proof fn lemma_first_e(t: Seq<char>, i: int)
    requires
        0 <= i <= t.len(),
        forall|k: int| 0 <= k < i ==> t[k] != 'e' && t[k] != 'E',
        i == t.len() || t[i] == 'e' || t[i] == 'E',
    ensures
        first_e(t) == (if i == t.len() { None::<int> } else { Some(i) }),
    decreases i,
{
    if i > 0 {
        assert forall|k: int| 0 <= k < i - 1 implies t.drop_first()[k] != 'e' && t.drop_first()[k] != 'E' by {
            assert(t.drop_first()[k] == t[k + 1]);
        }
        if i < t.len() {
            assert(t.drop_first()[i - 1] == t[i]);
        }
        lemma_first_e(t.drop_first(), i - 1);
    }
}

/// `str::split_once`: the text before and after the first `c`.
pub open spec fn split_once(s: Seq<char>, c: char) -> Option<(Seq<char>, Seq<char>)> {
    match first_index(s, c) {
        None => None,
        Some(i) => Some((s.subrange(0, i), s.subrange(i + 1, s.len() as int))),
    }
}

/// Position of the first `c`, tied to `split_once`.
fn split_point(cs: &[char], c: char) -> (r: Option<usize>)
    ensures
        match r {
            Some(i) => i < cs@.len() && split_once(cs@, c) == Some(
                (cs@.subrange(0, i as int), cs@.subrange(i + 1, cs@.len() as int)),
            ),
            None => split_once(cs@, c).is_none(),
        },
{
    let r = find_char(cs, c);
    proof {
        match r {
            Some(i) => lemma_first_index(cs@, c, i as int),
            None => lemma_first_index(cs@, c, cs@.len() as int),
        }
    }
    r
}

/// The value side of a directive: `true`/`false` in any case (written in
/// lower case), a number as `str::parse::<i64>` or `str::parse::<f64>`
/// accepts it (kept as written), a double-quoted string (re-escaped), or
/// an identifier. White space around it is ignored.
pub open spec fn spec_parse_simple_expr(expr: Seq<char>) -> Option<Seq<char>> {
    let e = trim(expr);
    if e.len() == 0 {
        None
    } else if ascii_lower_seq(e) == "true"@ {
        Some("true"@)
    } else if ascii_lower_seq(e) == "false"@ {
        Some("false"@)
    } else if is_float_literal(e) {
        Some(e)
    } else if e.len() >= 2 && e[0] == '"' && e.last() == '"' {
        Some(spec_quote(e.subrange(1, e.len() - 1)))
    } else {
        spec_parse_ident(e)
    }
}

pub fn parse_simple_expr(expr: &[char]) -> (r: Option<String>)
    ensures
        opt_view(r) == spec_parse_simple_expr(expr@),
{
    let (a, b) = trim_bounds(expr);
    let e = &expr[a..b];
    assert(e@ == trim(expr@));
    if a == b {
        return None;
    }
    let lower = ascii_lowercase(e);
    if chars_eq_str(lower.as_slice(), "true") {
        return Some("true".to_owned());
    }
    if chars_eq_str(lower.as_slice(), "false") {
        return Some("false".to_owned());
    }
    if is_float_text(e) {
        return Some(string_from_range(expr, a, b));
    }
    let n = e.len();
    if n >= 2 && e[0] == '"' && e[n - 1] == '"' {
        let inner = &e[1..n - 1];
        return Some(rust_quote_string_literal(inner));
    }
    parse_ident(e)
}

/// `name = value` with an identifier on the left of the first `=`.
pub open spec fn spec_parse_assignment(tail: Seq<char>) -> Option<(Seq<char>, Seq<char>)> {
    match split_once(tail, '=') {
        None => None,
        Some((l, r)) => match (spec_parse_ident(l), spec_parse_simple_expr(r)) {
            (Some(lhs), Some(rhs)) => Some((lhs, rhs)),
            _ => None,
        },
    }
}

pub fn parse_assignment_rhs(tail: &[char]) -> (r: Option<(String, String)>)
    ensures
        match r {
            Some((l, v)) => spec_parse_assignment(tail@) == Some((l@, v@)),
            None => spec_parse_assignment(tail@).is_none(),
        },
{
    let sp = split_point(tail, '=');
    if sp.is_none() {
        return None;
    }
    let k = sp.unwrap();
    let n = tail.len();
    let lhs = match parse_ident(&tail[0..k]) {
        Some(l) => l,
        None => return None,
    };
    let rhs = match parse_simple_expr(&tail[k + 1..n]) {
        Some(v) => v,
        None => return None,
    };
    Some((lhs, rhs))
}

/// The function a `call: name` directive names.
pub open spec fn spec_call_target(name: Seq<char>) -> Option<Seq<char>> {
    match split_once(trim(name), ':') {
        None => None,
        Some((head, tail)) => if ascii_lower_seq(trim(head)) == "call"@ {
            spec_parse_ident(tail)
        } else {
            None
        },
    }
}

/// The lower-cased, trimmed text of `cs[from..to]`.
fn lowered_trim(cs: &[char], from: usize, to: usize) -> (r: Vec<char>)
    requires
        from <= to <= cs@.len(),
    ensures
        r@ == ascii_lower_seq(trim(cs@.subrange(from as int, to as int))),
{
    let part = &cs[from..to];
    let (a, b) = trim_bounds(part);
    ascii_lowercase(&part[a..b])
}

pub fn parse_call_target(name: &[char]) -> (r: Option<String>)
    ensures
        opt_view(r) == spec_call_target(name@),
{
    let (a, b) = trim_bounds(name);
    let t = &name[a..b];
    assert(t@ == trim(name@));
    let sp = split_point(t, ':');
    if sp.is_none() {
        return None;
    }
    let k = sp.unwrap();
    let head = lowered_trim(t, 0, k);
    if chars_eq_str(head.as_slice(), "call") {
        parse_ident(&t[k + 1..t.len()])
    } else {
        None
    }
}

/// The Rust line a task directive stands for: `println`/`print`/
/// `console.log`/`log: text`, `println_var: x`, `let: x = v`,
/// `letmut`/`let_mut`/`let-mut: x = v`, `set: x = v`, `call: f` or
/// `comment: text`. The head is matched in any case; the text after the
/// first `:` is trimmed and must not be empty.
pub open spec fn spec_task_line(name: Seq<char>) -> Option<Seq<char>> {
    match split_once(trim(name), ':') {
        None => None,
        Some((h, t)) => {
            let head = ascii_lower_seq(trim(h));
            let tail = trim(t);
            if tail.len() == 0 {
                None
            } else if head == "println"@ || head == "print"@ || head == "console.log"@ || head
                == "log"@ {
                Some("println!(\""@ + spec_rust_escape(tail) + "\");"@)
            } else if head == "println_var"@ {
                match spec_parse_ident(tail) {
                    Some(id) => Some("println!(\"{}\", "@ + id + ");"@),
                    None => None,
                }
            } else if head == "let"@ {
                match spec_parse_assignment(tail) {
                    Some((l, v)) => Some("let "@ + l + " = "@ + v + ";"@),
                    None => None,
                }
            } else if head == "letmut"@ || head == "let_mut"@ || head == "let-mut"@ {
                match spec_parse_assignment(tail) {
                    Some((l, v)) => Some("let mut "@ + l + " = "@ + v + ";"@),
                    None => None,
                }
            } else if head == "set"@ {
                match spec_parse_assignment(tail) {
                    Some((l, v)) => Some(l + " = "@ + v + ";"@),
                    None => None,
                }
            } else if head == "call"@ {
                match spec_parse_ident(tail) {
                    Some(id) => Some(id + "();"@),
                    None => None,
                }
            } else if head == "comment"@ {
                Some("// "@ + tail)
            } else {
                None
            }
        },
    }
}

/// `let`/`let mut`/assignment line built from a parsed `name = value`.
fn assignment_line(prefix: &str, l: &String, v: &String) -> (r: String)
    ensures
        r@ == prefix@ + l@ + " = "@ + v@ + ";"@,
{
    let mut out = String::new();
    out.push_str(prefix);
    out.push_str(l.as_str());
    out.push_str(" = ");
    out.push_str(v.as_str());
    out.push_str(";");
    out
}

/// The lines a task directive stands for (always one), or `None` when the
/// task name is no directive.
pub fn parse_task_directive(name: &[char]) -> (r: Option<Vec<String>>)
    ensures
        match r {
            Some(lines) => lines@.len() == 1 && spec_task_line(name@) == Some(lines@[0]@),
            None => spec_task_line(name@).is_none(),
        },
{
    let (a, b) = trim_bounds(name);
    let t = &name[a..b];
    assert(t@ == trim(name@));
    let sp = split_point(t, ':');
    if sp.is_none() {
        return None;
    }
    let k = sp.unwrap();
    let head = lowered_trim(t, 0, k);
    let rest = &t[k + 1..t.len()];
    let (c, d) = trim_bounds(rest);
    let tail = &rest[c..d];
    assert(tail@ == trim(rest@));
    if c == d {
        return None;
    }
    let h = head.as_slice();
    let line: String;
    if chars_eq_str(h, "println") || chars_eq_str(h, "print") || chars_eq_str(h, "console.log")
        || chars_eq_str(h, "log") {
        let mut out = String::new();
        out.push_str("println!(\"");
        push_rust_escaped(&mut out, tail);
        out.push_str("\");");
        line = out;
    } else if chars_eq_str(h, "println_var") {
        let id = match parse_ident(tail) {
            Some(id) => id,
            None => return None,
        };
        let mut out = String::new();
        out.push_str("println!(\"{}\", ");
        out.push_str(id.as_str());
        out.push_str(");");
        line = out;
    } else if chars_eq_str(h, "let") {
        let (l, v) = match parse_assignment_rhs(tail) {
            Some(p) => p,
            None => return None,
        };
        line = assignment_line("let ", &l, &v);
    } else if chars_eq_str(h, "letmut") || chars_eq_str(h, "let_mut") || chars_eq_str(h, "let-mut") {
        let (l, v) = match parse_assignment_rhs(tail) {
            Some(p) => p,
            None => return None,
        };
        line = assignment_line("let mut ", &l, &v);
    } else if chars_eq_str(h, "set") {
        let (l, v) = match parse_assignment_rhs(tail) {
            Some(p) => p,
            None => return None,
        };
        line = assignment_line("", &l, &v);
        proof {
            reveal_strlit("");
            assert(line@ == l@ + " = "@ + v@ + ";"@);
        }
    } else if chars_eq_str(h, "call") {
        let id = match parse_ident(tail) {
            Some(id) => id,
            None => return None,
        };
        let mut out = String::new();
        out.push_str(id.as_str());
        out.push_str("();");
        line = out;
    } else if chars_eq_str(h, "comment") {
        let mut out = String::new();
        out.push_str("// ");
        push_chars(&mut out, tail);
        line = out;
    } else {
        return None;
    }
    let mut lines: Vec<String> = Vec::new();
    lines.push(line);
    Some(lines)
}

} // verus!
