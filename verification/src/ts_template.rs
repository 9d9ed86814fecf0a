//! TypeScript template strings built from Rust `format!`-style strings.

use vstd::prelude::*;
use crate::bpmn::xmltext::first_index;
use crate::text::{chars_of, str_eq};

verus! {

/// `first_index` finds a position inside the text.
pub proof fn lemma_first_index_bounds(s: Seq<char>, c: char)
    ensures
        first_index(s, c) matches Some(i) ==> 0 <= i < s.len(),
    decreases s.len(),
{
    if s.len() > 0 && s[0] != c {
        lemma_first_index_bounds(s.drop_first(), c);
    }
}

/// A literal character of a template: backticks and `$` are escaped.
pub open spec fn template_char(c: char) -> Seq<char> {
    if c == '`' {
        seq!['\\', '`']
    } else if c == '$' {
        seq!['\\', '$']
    } else {
        seq![c]
    }
}

/// The template text from position `i`, with `k` arguments used: `{{`
/// and `}}` are escaped braces and give one literal brace; a `{` up to the
/// next `}` is a placeholder that takes the next argument as `${arg}` (or
/// stays `{}` once the arguments are used up); other characters are
/// copied, escaped.
pub open spec fn template_from(cs: Seq<char>, i: nat, args: Seq<Seq<char>>, k: nat) -> Seq<char>
    decreases cs.len() - i,
{
    if i >= cs.len() {
        Seq::empty()
    } else if cs[i as int] == '{' && i + 1 < cs.len() && cs[i + 1 as int] == '{' {
        seq!['{'] + template_from(cs, i + 2, args, k)
    } else if cs[i as int] == '}' && i + 1 < cs.len() && cs[i + 1 as int] == '}' {
        seq!['}'] + template_from(cs, i + 2, args, k)
    } else if cs[i as int] == '{' && first_index(cs.subrange((i + 1) as int, cs.len() as int), '}') is Some {
        let j = i + 1 + first_index(cs.subrange((i + 1) as int, cs.len() as int), '}')->0;
        proof {
            lemma_first_index_bounds(cs.subrange((i + 1) as int, cs.len() as int), '}');
        }
        if k < args.len() {
            "${"@ + args[k as int] + "}"@ + template_from(cs, (j + 1) as nat, args, k + 1)
        } else {
            "{}"@ + template_from(cs, (j + 1) as nat, args, k)
        }
    } else {
        template_char(cs[i as int]) + template_from(cs, i + 1, args, k)
    }
}

/// The TypeScript template string for a format string and its argument
/// expressions: placeholders are filled and braces unescaped as
/// [`template_from`] says, inside backticks.
pub open spec fn spec_template(fmt: Seq<char>, args: Seq<Seq<char>>) -> Seq<char> {
    "`"@ + template_from(fmt, 0, args, 0) + "`"@
}

pub fn build_ts_template_string(fmt: &str, args: &[String]) -> (r: String)
    ensures
        r@ == spec_template(fmt@, args@.map_values(|a: String| a@)),
{
    let ghost av = args@.map_values(|a: String| a@);
    let cs = chars_of(fmt);
    let n = cs.len();
    let mut body = String::new();
    let mut k: usize = 0;
    let mut i: usize = 0;
    while i < n
        invariant
            i <= n == cs@.len(),
            cs@ == fmt@,
            k <= args@.len(),
            av == args@.map_values(|a: String| a@),
            body@ + template_from(cs@, i as nat, av, k as nat) == template_from(cs@, 0, av, 0),
        decreases n - i,
    {
        let ghost before = body@;
        let c = cs[i];
        if (c == '{' || c == '}') && i + 1 < n && cs[i + 1] == c {
            body.push(c);
            assert(before + (seq![c] + template_from(cs@, (i + 2) as nat, av, k as nat)) =~= body@
                + template_from(cs@, (i + 2) as nat, av, k as nat));
            i += 2;
        } else if c == '{' {
            let mut j = i + 1;
            while j < n && cs[j] != '}'
                invariant
                    i < j <= n == cs@.len(),
                    forall|q: int| i < q < j ==> cs@[q] != '}',
                decreases n - j,
            {
                j += 1;
            }
            proof {
                let rest = cs@.subrange(i + 1, n as int);
                if j < n {
                    assert(rest[j - i - 1] == cs@[j as int]);
                }
                assert forall|q: int| 0 <= q < j - i - 1 implies rest[q] != '}' by {
                    assert(rest[q] == cs@[i + 1 + q]);
                }
                crate::bpmn::xmltext::lemma_first_index(rest, '}', j - i - 1);
            }
            if j < n {
                if k < args.len() {
                    body.push_str("${");
                    body.push_str(args[k].as_str());
                    body.push_str("}");
                    assert(before + ("${"@ + av[k as int] + "}"@ + template_from(cs@, (j + 1) as nat, av, (k + 1) as nat)) =~= body@
                        + template_from(cs@, (j + 1) as nat, av, (k + 1) as nat));
                    k += 1;
                } else {
                    body.push_str("{}");
                    assert(before + ("{}"@ + template_from(cs@, (j + 1) as nat, av, k as nat)) =~= body@
                        + template_from(cs@, (j + 1) as nat, av, k as nat));
                }
                i = j + 1;
            } else {
                body.push('{');
                assert(before + (template_char(c) + template_from(cs@, (i + 1) as nat, av, k as nat)) =~= body@
                    + template_from(cs@, (i + 1) as nat, av, k as nat));
                i += 1;
            }
        } else {
            if c == '`' {
                body.push_str("\\`");
            } else if c == '$' {
                body.push_str("\\$");
            } else {
                body.push(c);
            }
            proof {
                reveal_strlit("\\`");
                reveal_strlit("\\$");
            }
            assert(before + (template_char(c) + template_from(cs@, (i + 1) as nat, av, k as nat)) =~= body@
                + template_from(cs@, (i + 1) as nat, av, k as nat));
            i += 1;
        }
    }
    let mut result = String::new();
    result.push_str("`");
    result.push_str(body.as_str());
    result.push_str("`");
    assert(body@ + Seq::<char>::empty() =~= body@);
    result
}

/// Directories the directory walk skips: `target`, `.git`, `node_modules`.
pub fn is_ignored_dir(name: &str) -> (r: bool)
    ensures
        r == (name@ == "target"@ || name@ == ".git"@ || name@ == "node_modules"@),
{
    str_eq(name, "target") || str_eq(name, ".git") || str_eq(name, "node_modules")
}

} // verus!
