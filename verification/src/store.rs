//! The lock store: the locked configuration as canonical structured text.
//!
//! The format is line-based: the frozen settings inlined at the top, then
//! one block per named template and one per locked plugin.  Strings are
//! quoted, with backslash, quote, newline, carriage return and tab escaped,
//! so every value round-trips.  The serializer is exact — its output equals
//! the spec-level text — and the format is proved invertible: reading the
//! canonical text of any configuration, as specified here, gives back
//! exactly its value.  The parser accepts this canonical shape and reports
//! anything else as corrupt.

use vstd::prelude::*;
use vstd::string::*;

use crate::config::{Template, TemplateView};
use crate::error::Error;
use crate::lock::{LockedConfig, LockedConfigView, LockedPlugin, LockedPluginView, LockedSettingsView, templates_view};
use crate::util::starts_with_spec;
use crate::util::push_char;

verus! {

/// How one character is written inside a quoted string.
pub open spec fn esc_char(c: char) -> Seq<char> {
    if c == '\\' {
        seq!['\\', '\\']
    } else if c == '"' {
        seq!['\\', '"']
    } else if c == '\n' {
        seq!['\\', 'n']
    } else if c == '\r' {
        seq!['\\', 'r']
    } else if c == '\t' {
        seq!['\\', 't']
    } else {
        seq![c]
    }
}

/// The escaped form of a string's characters.
pub open spec fn escape_spec(s: Seq<char>) -> Seq<char>
    decreases s.len(),
{
    if s.len() == 0 {
        Seq::empty()
    } else {
        esc_char(s.first()) + escape_spec(s.drop_first())
    }
}

/// Escaping a concatenation escapes the parts.
proof fn lemma_escape_append(a: Seq<char>, b: Seq<char>)
    ensures
        escape_spec(a + b) == escape_spec(a) + escape_spec(b),
    decreases a.len(),
{
    if a.len() == 0 {
        assert(a + b =~= b);
        assert(escape_spec(a) + escape_spec(b) =~= escape_spec(b));
    } else {
        lemma_escape_append(a.drop_first(), b);
        assert((a + b).drop_first() =~= a.drop_first() + b);
        assert(escape_spec(a + b) =~= escape_spec(a) + escape_spec(b));
    }
}

/// What an escape character stands for.
pub open spec fn unesc_char(c: char) -> Option<char> {
    if c == '\\' {
        Some('\\')
    } else if c == '"' {
        Some('"')
    } else if c == 'n' {
        Some('\n')
    } else if c == 'r' {
        Some('\r')
    } else if c == 't' {
        Some('\t')
    } else {
        None
    }
}

/// What reading a quoted string's remainder returns: the unescaped value and
/// everything after the closing quote, or nothing when the text is not a
/// well-formed quoted string.
pub open spec fn parse_string_spec(s: Seq<char>) -> Option<(Seq<char>, Seq<char>)>
    decreases s.len(),
{
    if s.len() == 0 {
        None
    } else if s.first() == '"' {
        Some((Seq::empty(), s.drop_first()))
    } else if s.first() == '\\' {
        if s.len() < 2 {
            None
        } else {
            match unesc_char(s[1]) {
                None => None,
                Some(c) => match parse_string_spec(s.skip(2)) {
                    None => None,
                    Some((v, rest)) => Some((seq![c] + v, rest)),
                },
            }
        }
    } else {
        match parse_string_spec(s.drop_first()) {
            None => None,
            Some((v, rest)) => Some((seq![s.first()] + v, rest)),
        }
    }
}

/// Escaping round-trips: reading an escaped string up to its closing quote
/// gives back the original value and what follows the quote.
pub proof fn lemma_escape_round(v: Seq<char>, rest: Seq<char>)
    ensures
        parse_string_spec(escape_spec(v) + seq!['"'] + rest) == Some((v, rest)),
    decreases v.len(),
{
    let input = escape_spec(v) + seq!['"'] + rest;
    if v.len() == 0 {
        assert(input.first() == '"');
        assert(input.drop_first() =~= rest);
    } else {
        let c = v.first();
        let e = esc_char(c);
        lemma_escape_round(v.drop_first(), rest);
        let tail = escape_spec(v.drop_first()) + seq!['"'] + rest;
        if c == '\\' || c == '"' || c == '\n' || c == '\r' || c == '\t' {
            assert(e.len() == 2 && e[0] == '\\');
            assert(input.len() >= 2);
            assert(input.first() == '\\');
            assert(input[1] == e[1]);
            assert(unesc_char(e[1]) == Some(c));
            assert(input.skip(2) =~= tail);
            assert(seq![c] + v.drop_first() =~= v);
        } else {
            assert(e =~= seq![c]);
            assert(input.first() == c);
            assert(c != '"' && c != '\\');
            assert(input.drop_first() =~= tail);
            assert(seq![c] + v.drop_first() =~= v);
        }
    }
}

/// Appends the escaped form of `s`.
#[verifier::loop_isolation(false)]
fn emit_escaped(out: &mut String, s: &str)
    ensures
        final(out)@ == old(out)@ + escape_spec(s@),
{
    let n = s.unicode_len();
    let mut i: usize = 0;
    while i < n
        invariant
            i <= n,
            n == s@.len(),
            out@ == old(out)@ + escape_spec(s@.take(i as int)),
        decreases n - i,
    {
        let c = s.get_char(i);
        if c == '\\' {
            out.append("\\\\");
            proof {
                reveal_strlit("\\\\");
                assert("\\\\"@ =~= esc_char(c));
            }
        } else if c == '"' {
            out.append("\\\"");
            proof {
                reveal_strlit("\\\"");
                assert("\\\""@ =~= esc_char(c));
            }
        } else if c == '\n' {
            out.append("\\n");
            proof {
                reveal_strlit("\\n");
                assert("\\n"@ =~= esc_char(c));
            }
        } else if c == '\r' {
            out.append("\\r");
            proof {
                reveal_strlit("\\r");
                assert("\\r"@ =~= esc_char(c));
            }
        } else if c == '\t' {
            out.append("\\t");
            proof {
                reveal_strlit("\\t");
                assert("\\t"@ =~= esc_char(c));
            }
        } else {
            push_char(out, c);
            proof {
                assert(seq![c] =~= esc_char(c));
            }
        }
        proof {
            lemma_escape_append(s@.take(i as int), seq![s@[i as int]]);
            assert(s@.take(i + 1) =~= s@.take(i as int) + seq![s@[i as int]]);
            assert(seq![s@[i as int]].first() == s@[i as int]);
            assert(seq![s@[i as int]].drop_first() =~= Seq::<char>::empty());
            assert(escape_spec(Seq::<char>::empty()) =~= Seq::<char>::empty());
            assert(escape_spec(seq![s@[i as int]]) =~= esc_char(s@[i as int]));
            assert(out@ =~= old(out)@ + escape_spec(s@.take(i + 1)));
        }
        i = i + 1;
    }
    proof {
        assert(s@.take(n as int) =~= s@);
    }
}

/// One `key = "value"` line.
pub open spec fn ser_kv(key: Seq<char>, v: Seq<char>) -> Seq<char> {
    key + seq![' ', '=', ' ', '"'] + escape_spec(v) + seq!['"', '\n']
}

/// The quoted elements of a list, separated by commas.
pub open spec fn ser_elems(vs: Seq<Seq<char>>) -> Seq<char>
    decreases vs.len(),
{
    if vs.len() == 0 {
        Seq::empty()
    } else {
        ser_elems(vs.drop_last()) + (if vs.len() == 1 {
            Seq::<char>::empty()
        } else {
            seq![',', ' ']
        }) + seq!['"'] + escape_spec(vs.last()) + seq!['"']
    }
}

/// One `key = ["a", "b"]` line.
pub open spec fn ser_list(key: Seq<char>, vs: Seq<Seq<char>>) -> Seq<char> {
    key + seq![' ', '=', ' ', '['] + ser_elems(vs) + seq![']', '\n']
}

/// A boolean's text.
pub open spec fn ser_bool(b: bool) -> Seq<char> {
    if b {
        seq!['t', 'r', 'u', 'e']
    } else {
        seq!['f', 'a', 'l', 's', 'e']
    }
}

/// One template block.
pub open spec fn ser_template(t: (Seq<char>, TemplateView)) -> Seq<char> {
    "[[templates]]"@ + seq!['\n'] + ser_kv("name"@, t.0) + ser_kv("value"@, t.1.value)
        + "each = "@ + ser_bool(t.1.each) + seq!['\n']
}

/// All template blocks, in order.
pub open spec fn ser_templates(ts: Seq<(Seq<char>, TemplateView)>) -> Seq<char>
    decreases ts.len(),
{
    if ts.len() == 0 {
        Seq::empty()
    } else {
        ser_templates(ts.drop_last()) + ser_template(ts.last())
    }
}

/// One plugin block.
pub open spec fn ser_plugin(p: LockedPluginView) -> Seq<char> {
    "[[plugins]]"@ + seq!['\n'] + ser_kv("name"@, p.name) + ser_kv("directory"@, p.directory)
        + ser_list("filenames"@, p.filenames) + ser_list("apply"@, p.apply)
}

/// All plugin blocks, in order.
pub open spec fn ser_plugins(ps: Seq<LockedPluginView>) -> Seq<char>
    decreases ps.len(),
{
    if ps.len() == 0 {
        Seq::empty()
    } else {
        ser_plugins(ps.drop_last()) + ser_plugin(ps.last())
    }
}

/// The whole lock file: the frozen settings inlined, then the templates,
/// then the plugins.  The transient errors are never written.
pub open spec fn ser_spec(lc: LockedConfigView) -> Seq<char> {
    ser_kv("version"@, lc.settings.version) + ser_kv("home"@, lc.settings.home) + ser_kv(
        "root"@,
        lc.settings.root,
    ) + ser_kv("config_file"@, lc.settings.config_file) + ser_kv(
        "lock_file"@,
        lc.settings.lock_file,
    ) + ser_templates(lc.templates) + ser_plugins(lc.plugins)
}

/// Appends one `key = "value"` line.
fn emit_kv(out: &mut String, key: &str, v: &str)
    ensures
        final(out)@ == old(out)@ + ser_kv(key@, v@),
{
    out.append(key);
    out.append(" = \"");
    emit_escaped(out, v);
    out.append("\"\n");
    proof {
        reveal_strlit(" = \"");
        reveal_strlit("\"\n");
        assert(" = \""@ =~= seq![' ', '=', ' ', '"']);
        assert("\"\n"@ =~= seq!['"', '\n']);
        assert(out@ =~= old(out)@ + ser_kv(key@, v@));
    }
}

/// Appends one `key = ["a", "b"]` line.
#[verifier::loop_isolation(false)]
fn emit_list(out: &mut String, key: &str, vs: &Vec<String>)
    ensures
        final(out)@ == old(out)@ + ser_list(key@, vs.deep_view()),
{
    out.append(key);
    out.append(" = [");
    let n = vs.len();
    let mut i: usize = 0;
    let ghost mid = out@;
    while i < n
        invariant
            i <= n,
            n == vs@.len(),
            out@ == mid + ser_elems(vs.deep_view().take(i as int)),
        decreases n - i,
    {
        if i > 0 {
            out.append(", ");
            proof {
                reveal_strlit(", ");
                assert(", "@ =~= seq![',', ' ']);
            }
        }
        out.append("\"");
        emit_escaped(out, vs[i].as_str());
        out.append("\"");
        proof {
            reveal_strlit("\"");
            assert("\""@ =~= seq!['"']);
            assert(vs.deep_view().take(i + 1).drop_last() =~= vs.deep_view().take(i as int));
            assert(vs.deep_view().take(i + 1).last() == vs.deep_view()[i as int]);
            assert(vs.deep_view()[i as int] == vs@[i as int]@);
            assert(out@ =~= mid + ser_elems(vs.deep_view().take(i + 1)));
        }
        i = i + 1;
    }
    out.append("]\n");
    proof {
        reveal_strlit(" = [");
        reveal_strlit("]\n");
        assert(" = ["@ =~= seq![' ', '=', ' ', '[']);
        assert("]\n"@ =~= seq![']', '\n']);
        assert(vs.deep_view().take(n as int) =~= vs.deep_view());
        assert(out@ =~= old(out)@ + ser_list(key@, vs.deep_view()));
    }
}

/// Appends one template block.
fn emit_template(out: &mut String, name: &String, t: &Template)
    ensures
        final(out)@ == old(out)@ + ser_template((name@, t@)),
{
    out.append("[[templates]]\n");
    emit_kv(out, "name", name.as_str());
    emit_kv(out, "value", t.value.as_str());
    out.append("each = ");
    if t.each {
        out.append("true");
    } else {
        out.append("false");
    }
    out.append("\n");
    proof {
        reveal_strlit("[[templates]]\n");
        reveal_strlit("[[templates]]");
        reveal_strlit("each = ");
        reveal_strlit("true");
        reveal_strlit("false");
        reveal_strlit("\n");
        assert("[[templates]]\n"@ =~= "[[templates]]"@ + seq!['\n']);
        assert("true"@ =~= ser_bool(true));
        assert("false"@ =~= ser_bool(false));
        assert("\n"@ =~= seq!['\n']);
        assert(out@ =~= old(out)@ + ser_template((name@, t@)));
    }
}

/// Appends one plugin block.
fn emit_plugin(out: &mut String, p: &LockedPlugin)
    ensures
        final(out)@ == old(out)@ + ser_plugin(p@),
{
    out.append("[[plugins]]\n");
    emit_kv(out, "name", p.name.as_str());
    emit_kv(out, "directory", p.directory.as_str());
    emit_list(out, "filenames", &p.filenames);
    emit_list(out, "apply", &p.apply);
    proof {
        reveal_strlit("[[plugins]]\n");
        reveal_strlit("[[plugins]]");
        assert("[[plugins]]\n"@ =~= "[[plugins]]"@ + seq!['\n']);
        assert(out@ =~= old(out)@ + ser_plugin(p@));
    }
}

impl LockedConfig {
    /// Serializes this configuration to the canonical text, exactly.
    #[verifier::loop_isolation(false)]
    pub fn serialize(&self) -> (r: String)
        ensures
            r@ == ser_spec(self@),
    {
        let mut out = String::new();
        emit_kv(&mut out, "version", self.settings.version.as_str());
        emit_kv(&mut out, "home", self.settings.home.as_str());
        emit_kv(&mut out, "root", self.settings.root.as_str());
        emit_kv(&mut out, "config_file", self.settings.config_file.as_str());
        emit_kv(&mut out, "lock_file", self.settings.lock_file.as_str());
        let ghost ts = templates_view(self.templates@);
        let mut i: usize = 0;
        let ghost mid = out@;
        while i < self.templates.len()
            invariant
                i <= ts.len(),
                ts.len() == self.templates@.len(),
                out@ == mid + ser_templates(ts.take(i as int)),
            decreases ts.len() - i,
        {
            let entry = &self.templates[i];
            emit_template(&mut out, &entry.0, &entry.1);
            proof {
                assert(ts.take(i + 1).drop_last() =~= ts.take(i as int));
                assert(ts.take(i + 1).last() == ts[i as int]);
                assert(ts[i as int].0 == entry.0@ && ts[i as int].1 == entry.1@);
                assert(out@ =~= mid + ser_templates(ts.take(i + 1)));
            }
            i = i + 1;
        }
        proof {
            assert(ts.take(ts.len() as int) =~= ts);
        }
        let ghost ps = self@.plugins;
        let mut j: usize = 0;
        let ghost mid2 = out@;
        while j < self.plugins.len()
            invariant
                j <= ps.len(),
                ps.len() == self.plugins@.len(),
                out@ == mid2 + ser_plugins(ps.take(j as int)),
            decreases ps.len() - j,
        {
            let p = &self.plugins[j];
            emit_plugin(&mut out, p);
            proof {
                assert(ps.take(j + 1).drop_last() =~= ps.take(j as int));
                assert(ps.take(j + 1).last() == ps[j as int]);
                assert(out@ =~= mid2 + ser_plugins(ps.take(j + 1)));
            }
            j = j + 1;
        }
        proof {
            assert(ps.take(ps.len() as int) =~= ps);
        }
        out
    }
}


/// Reads one escape character.
fn unescape_exec(c: char) -> (r: Option<char>)
    ensures
        r == unesc_char(c),
{
    if c == '\\' {
        Some('\\')
    } else if c == '"' {
        Some('"')
    } else if c == 'n' {
        Some('\n')
    } else if c == 'r' {
        Some('\r')
    } else if c == 't' {
        Some('\t')
    } else {
        None
    }
}

/// A value with everything before it already consumed.
pub open spec fn opt_prepend(a: Seq<char>, o: Option<(Seq<char>, Seq<char>)>) -> Option<
    (Seq<char>, Seq<char>),
> {
    match o {
        Some(p) => Some((a + p.0, p.1)),
        None => None,
    }
}

/// Reads a quoted string's remainder starting at `pos` (just after the
/// opening quote): the unescaped value and the position after the closing
/// quote.
#[verifier::loop_isolation(false)]
fn parse_quoted(s: &str, pos: usize) -> (r: Option<(String, usize)>)
    requires
        pos <= s@.len(),
    ensures
        match r {
            Some((v, p)) => pos < p <= s@.len() && parse_string_spec(s@.skip(pos as int))
                == Some((v@, s@.skip(p as int))),
            None => parse_string_spec(s@.skip(pos as int)) is None,
        },
{
    let n = s.unicode_len();
    let mut idx = pos;
    let mut acc = String::new();
    while idx < n
        invariant
            pos <= idx <= n,
            parse_string_spec(s@.skip(pos as int)) == opt_prepend(
                acc@,
                parse_string_spec(s@.skip(idx as int)),
            ),
        decreases n - idx,
    {
        let c = s.get_char(idx);
        proof {
            assert(s@.skip(idx as int).first() == c);
        }
        if c == '"' {
            proof {
                assert(s@.skip(idx as int).drop_first() =~= s@.skip(idx + 1));
                assert(acc@ + Seq::<char>::empty() =~= acc@);
            }
            return Some((acc, idx + 1));
        } else if c == '\\' {
            if idx + 1 >= n {
                proof {
                    assert(s@.skip(idx as int).len() < 2);
                }
                return None;
            }
            let d = s.get_char(idx + 1);
            proof {
                assert(s@.skip(idx as int)[1] == d);
            }
            match unescape_exec(d) {
                None => {
                    return None;
                },
                Some(u) => {
                    let ghost acc0 = acc@;
                    push_char(&mut acc, u);
                    proof {
                        assert(s@.skip(idx as int).skip(2) =~= s@.skip(idx + 2));
                        if let Some((v, rr)) = parse_string_spec(s@.skip(idx + 2)) {
                            assert(acc@ + v =~= acc0 + (seq![u] + v));
                        }
                    }
                    idx = idx + 2;
                },
            }
        } else {
            let ghost acc0 = acc@;
            push_char(&mut acc, c);
            proof {
                assert(s@.skip(idx as int).drop_first() =~= s@.skip(idx + 1));
                if let Some((v, rr)) = parse_string_spec(s@.skip(idx + 1)) {
                    assert(acc@ + v =~= acc0 + (seq![c] + v));
                }
            }
            idx = idx + 1;
        }
    }
    proof {
        assert(s@.skip(idx as int).len() == 0);
    }
    None
}

/// Consumes the exact literal at `pos`: it is there if and only if this
/// succeeds.
#[verifier::loop_isolation(false)]
fn expect_lit(s: &str, pos: usize, lit: &str) -> (r: Option<usize>)
    ensures
        r matches Some(p) ==> pos <= p <= s@.len() && p == pos + lit@.len() && s@.subrange(
            pos as int,
            p as int,
        ) == lit@,
        r is None ==> !(pos + lit@.len() <= s@.len() && s@.subrange(
            pos as int,
            pos + lit@.len(),
        ) == lit@),
{
    let n = s.unicode_len();
    let m = lit.unicode_len();
    if pos > n || m > n - pos {
        return None;
    }
    let mut i: usize = 0;
    while i < m
        invariant
            i <= m,
            pos + m <= n,
            forall|j: int| 0 <= j < i ==> s@[pos + j] == lit@[j],
        decreases m - i,
    {
        if s.get_char(pos + i) != lit.get_char(i) {
            proof {
                assert(s@.subrange(pos as int, pos + lit@.len())[i as int] != lit@[i as int]);
            }
            return None;
        }
        i = i + 1;
    }
    proof {
        assert(s@.subrange(pos as int, pos + lit@.len()) =~= lit@);
    }
    Some(pos + m)
}

/// A literal stands at `pos` exactly when the text there equals it.
proof fn lemma_prefix_at(s: Seq<char>, pos: int, lit: Seq<char>)
    requires
        0 <= pos <= s.len(),
    ensures
        starts_with_spec(s.skip(pos), lit) <==> (pos + lit.len() <= s.len() && s.subrange(
            pos,
            pos + lit.len(),
        ) == lit),
{
    if pos + lit.len() <= s.len() {
        assert(s.skip(pos).take(lit.len() as int) =~= s.subrange(pos, pos + lit.len()));
    }
}

/// A concatenation stands at the front exactly when its parts do, in order.
proof fn lemma_prefix_concat(s: Seq<char>, a: Seq<char>, b: Seq<char>)
    ensures
        starts_with_spec(s, a + b) <==> (starts_with_spec(s, a) && starts_with_spec(
            s.skip(a.len() as int),
            b,
        )),
{
    if s.len() >= a.len() + b.len() {
        if s.take((a.len() + b.len()) as int) == a + b {
            assert forall|i: int| 0 <= i < a.len() implies s.take(a.len() as int)[i] == a[i] by {
                assert(s.take((a.len() + b.len()) as int)[i] == s[i]);
                assert((a + b)[i] == a[i]);
            }
            assert(s.take(a.len() as int) =~= a);
            assert forall|i: int|
                0 <= i < b.len() implies s.skip(a.len() as int).take(b.len() as int)[i]
                == b[i] by {
                assert(s.take((a.len() + b.len()) as int)[a.len() + i] == s[a.len() + i]);
                assert((a + b)[a.len() + i] == b[i]);
            }
            assert(s.skip(a.len() as int).take(b.len() as int) =~= b);
        }
        if s.take(a.len() as int) == a && s.skip(a.len() as int).take(b.len() as int) == b {
            assert(s.take((a.len() + b.len()) as int) =~= a + b);
        }
    } else {
        if starts_with_spec(s, a) && starts_with_spec(s.skip(a.len() as int), b) {
            assert(s.skip(a.len() as int).len() == s.len() - a.len());
        }
    }
}

/// Reading a quoted string consumes at least its closing quote.
proof fn lemma_string_shrinks(s: Seq<char>)
    ensures
        parse_string_spec(s) matches Some(p) ==> p.1.len() < s.len(),
    decreases s.len(),
{
    if s.len() == 0 {
    } else if s.first() == '"' {
    } else if s.first() == '\\' {
        if s.len() >= 2 && unesc_char(s[1]) is Some {
            lemma_string_shrinks(s.skip(2));
        }
    } else {
        lemma_string_shrinks(s.drop_first());
    }
}

/// Reading a `key = "value"` line consumes at least one character.
proof fn lemma_kv_shrinks(s: Seq<char>, key: Seq<char>)
    ensures
        parse_kv_spec(s, key) matches Some(p) ==> p.1.len() < s.len(),
{
    let pre = key + seq![' ', '=', ' ', '"'];
    if starts_with_spec(s, pre) {
        lemma_string_shrinks(s.skip(pre.len() as int));
    }
}

/// Reading an `each = ...` line consumes at least one character.
proof fn lemma_bool_shrinks(s: Seq<char>)
    ensures
        parse_bool_spec(s) matches Some(p) ==> p.1.len() < s.len(),
{
    assert(ser_bool(true).len() == 4);
    assert(ser_bool(false).len() == 5);
}

/// Reading list elements consumes at least the closing bracket.
proof fn lemma_elems_shrinks(s: Seq<char>, fuel: nat)
    ensures
        parse_elems_spec(s, fuel) matches Some(p) ==> p.1.len() < s.len(),
    decreases fuel,
{
    if s.len() > 0 && s.first() == '"' {
        lemma_string_shrinks(s.drop_first());
        if let Some((v, rest)) = parse_string_spec(s.drop_first()) {
            if starts_with_spec(rest, seq![',', ' ']) {
                if fuel > 0 {
                    lemma_elems_shrinks(rest.skip(2), (fuel - 1) as nat);
                }
            }
        }
    }
}

/// Reading a list line consumes at least one character.
proof fn lemma_list_shrinks(s: Seq<char>, key: Seq<char>, fuel: nat)
    ensures
        parse_list_spec(s, key, fuel) matches Some(p) ==> p.1.len() < s.len(),
{
    let pre = key + seq![' ', '=', ' ', '['];
    if starts_with_spec(s, pre) {
        lemma_elems_shrinks(s.skip(pre.len() as int), fuel);
    }
}

/// Any fuel at least the text's length reads list elements the same way.
proof fn lemma_elems_fuel(s: Seq<char>, f1: nat, f2: nat)
    requires
        f1 >= s.len(),
        f2 >= s.len(),
    ensures
        parse_elems_spec(s, f1) == parse_elems_spec(s, f2),
    decreases s.len(),
{
    if s.len() > 0 && s.first() == '"' {
        lemma_string_shrinks(s.drop_first());
        if let Some((v, rest)) = parse_string_spec(s.drop_first()) {
            if starts_with_spec(rest, seq![',', ' ']) {
                assert(rest.len() < s.len());
                lemma_elems_fuel(rest.skip(2), (f1 - 1) as nat, (f2 - 1) as nat);
            }
        }
    }
}

/// Any fuel at least the text's length reads the template blocks the same
/// way.
proof fn lemma_templates_fuel(s: Seq<char>, f1: nat, f2: nat)
    requires
        f1 >= s.len(),
        f2 >= s.len(),
    ensures
        parse_templates_spec(s, f1) == parse_templates_spec(s, f2),
    decreases s.len(),
{
    let header = "[[templates]]"@ + seq!['\n'];
    if starts_with_spec(s, header) {
        let s1 = s.skip(header.len() as int);
        assert(s1.len() < s.len() || header.len() == 0);
        lemma_kv_shrinks(s1, "name"@);
        if let Some((name, s2)) = parse_kv_spec(s1, "name"@) {
            lemma_kv_shrinks(s2, "value"@);
            if let Some((value, s3)) = parse_kv_spec(s2, "value"@) {
                lemma_bool_shrinks(s3);
                if let Some((each, s4)) = parse_bool_spec(s3) {
                    assert(s4.len() < s.len());
                    lemma_templates_fuel(s4, (f1 - 1) as nat, (f2 - 1) as nat);
                }
            }
        }
    }
}

/// Any fuel at least the text's length reads the plugin blocks the same way.
proof fn lemma_plugins_fuel(s: Seq<char>, f1: nat, f2: nat)
    requires
        f1 >= s.len(),
        f2 >= s.len(),
    ensures
        parse_plugins_spec(s, f1) == parse_plugins_spec(s, f2),
    decreases s.len(),
{
    let header = "[[plugins]]"@ + seq!['\n'];
    if s.len() > 0 && starts_with_spec(s, header) {
        let s1 = s.skip(header.len() as int);
        lemma_kv_shrinks(s1, "name"@);
        if let Some((name, s2)) = parse_kv_spec(s1, "name"@) {
            lemma_kv_shrinks(s2, "directory"@);
            if let Some((directory, s3)) = parse_kv_spec(s2, "directory"@) {
                lemma_list_shrinks(s3, "filenames"@, s3.len());
                if let Some((filenames, s4)) = parse_list_spec(s3, "filenames"@, s3.len()) {
                    lemma_list_shrinks(s4, "apply"@, s4.len());
                    if let Some((apply, s5)) = parse_list_spec(s4, "apply"@, s4.len()) {
                        assert(s5.len() < s.len());
                        lemma_plugins_fuel(s5, (f1 - 1) as nat, (f2 - 1) as nat);
                    }
                }
            }
        }
    }
}

/// Reads one `key = "value"` line, exactly as specified.
fn parse_kv(s: &str, pos: usize, key: &str) -> (r: Option<(String, usize)>)
    requires
        key@.len() > 0,
        pos <= s@.len(),
    ensures
        match r {
            Some((v, p)) => pos < p <= s@.len() && parse_kv_spec(s@.skip(pos as int), key@)
                == Some((v@, s@.skip(p as int))),
            None => parse_kv_spec(s@.skip(pos as int), key@) is None,
        },
{
    proof {
        reveal_strlit(" = \"");
        reveal_strlit("\n");
        assert(" = \""@ =~= seq![' ', '=', ' ', '"']);
        assert("\n"@ =~= seq!['\n']);
        lemma_prefix_at(s@, pos as int, key@);
        lemma_prefix_concat(s@.skip(pos as int), key@, seq![' ', '=', ' ', '"']);
    }
    let p1 = match expect_lit(s, pos, key) {
        Some(p) => p,
        None => {
            return None;
        },
    };
    proof {
        lemma_prefix_at(s@, p1 as int, " = \""@);
        assert(s@.skip(pos as int).skip(key@.len() as int) =~= s@.skip(p1 as int));
    }
    let p2 = match expect_lit(s, p1, " = \"") {
        Some(p) => p,
        None => {
            return None;
        },
    };
    proof {
        assert(s@.skip(pos as int).skip((key@ + seq![' ', '=', ' ', '"']).len() as int)
            =~= s@.skip(p2 as int));
    }
    let (v, p3) = match parse_quoted(s, p2) {
        Some(x) => x,
        None => {
            return None;
        },
    };
    proof {
        lemma_prefix_at(s@, p3 as int, "\n"@);
    }
    let p4 = match expect_lit(s, p3, "\n") {
        Some(p) => p,
        None => {
            proof {
                let rest = s@.skip(p3 as int);
                if rest.len() >= 1 && rest.first() == '\n' {
                    assert(s@.subrange(p3 as int, p3 + 1) =~= seq![s@[p3 as int]]);
                }
            }
            return None;
        },
    };
    proof {
        let rest = s@.skip(p3 as int);
        assert(s@.subrange(p3 as int, p4 as int)[0] == s@[p3 as int]);
        assert(rest.len() >= 1 && rest.first() == '\n');
        assert(rest.drop_first() =~= s@.skip(p4 as int));
    }
    Some((v, p4))
}

/// Reads one `each = true|false` line, exactly as specified.
fn parse_bool_line(s: &str, pos: usize) -> (r: Option<(bool, usize)>)
    requires
        pos <= s@.len(),
    ensures
        match r {
            Some((b, p)) => pos < p <= s@.len() && parse_bool_spec(s@.skip(pos as int)) == Some(
                (b, s@.skip(p as int)),
            ),
            None => parse_bool_spec(s@.skip(pos as int)) is None,
        },
{
    proof {
        reveal_strlit("each = ");
        reveal_strlit("each = true\n");
        reveal_strlit("each = false\n");
        assert("each = true\n"@ =~= "each = "@ + ser_bool(true) + seq!['\n']);
        assert("each = false\n"@ =~= "each = "@ + ser_bool(false) + seq!['\n']);
        lemma_prefix_at(s@, pos as int, "each = true\n"@);
        lemma_prefix_at(s@, pos as int, "each = false\n"@);
    }
    match expect_lit(s, pos, "each = true\n") {
        Some(p) => {
            proof {
                assert(s@.skip(pos as int).skip(("each = "@ + ser_bool(true)
                    + seq!['\n']).len() as int) =~= s@.skip(p as int));
            }
            return Some((true, p));
        },
        None => {},
    }
    match expect_lit(s, pos, "each = false\n") {
        Some(p) => {
            proof {
                assert(s@.skip(pos as int).skip(("each = "@ + ser_bool(false)
                    + seq!['\n']).len() as int) =~= s@.skip(p as int));
            }
            Some((false, p))
        },
        None => None,
    }
}

/// A list with everything before it already consumed.
pub open spec fn opt_prepend_elems(a: Seq<Seq<char>>, o: Option<(Seq<Seq<char>>, Seq<char>)>) -> Option<(Seq<Seq<char>>, Seq<char>)> {
    match o {
        Some(p) => Some((a + p.0, p.1)),
        None => None,
    }
}

/// Reads one `key = ["a", "b"]` line, exactly as specified with the
/// remaining text's length as fuel.
#[verifier::loop_isolation(false)]
fn parse_list(s: &str, pos: usize, key: &str) -> (r: Option<(Vec<String>, usize)>)
    requires
        key@.len() > 0,
        pos <= s@.len(),
    ensures
        match r {
            Some((vs, p)) => pos < p <= s@.len() && parse_list_spec(
                s@.skip(pos as int),
                key@,
                (s@.len() - pos) as nat,
            ) == Some((vs.deep_view(), s@.skip(p as int))),
            None => parse_list_spec(s@.skip(pos as int), key@, (s@.len() - pos) as nat) is None,
        },
{
    broadcast use vstd::std_specs::vec::group_vec_axioms;

    proof {
        reveal_strlit(" = [");
        reveal_strlit("]\n");
        reveal_strlit("\"");
        reveal_strlit(", ");
        assert(" = ["@ =~= seq![' ', '=', ' ', '[']);
        assert("]\n"@ =~= seq![']', '\n']);
        assert("\""@ =~= seq!['"']);
        assert(", "@ =~= seq![',', ' ']);
        lemma_prefix_at(s@, pos as int, key@);
        lemma_prefix_concat(s@.skip(pos as int), key@, seq![' ', '=', ' ', '[']);
    }
    let p1 = match expect_lit(s, pos, key) {
        Some(p) => p,
        None => {
            return None;
        },
    };
    proof {
        lemma_prefix_at(s@, p1 as int, " = ["@);
        assert(s@.skip(pos as int).skip(key@.len() as int) =~= s@.skip(p1 as int));
    }
    let p2 = match expect_lit(s, p1, " = [") {
        Some(p) => p,
        None => {
            return None;
        },
    };
    proof {
        assert(s@.skip(pos as int).skip((key@ + seq![' ', '=', ' ', '[']).len() as int)
            =~= s@.skip(p2 as int));
        lemma_prefix_at(s@, p2 as int, "]\n"@);
    }
    match expect_lit(s, p2, "]\n") {
        Some(p) => {
            let empty: Vec<String> = Vec::new();
            proof {
                assert(s@.skip(p2 as int).skip(2) =~= s@.skip(p as int));
                assert(empty.deep_view() =~= Seq::<Seq<char>>::empty());
            }
            return Some((empty, p));
        },
        None => {},
    }
    proof {
        lemma_elems_fuel(s@.skip(p2 as int), (s@.len() - pos) as nat, (s@.len() - p2) as nat);
    }
    let mut out: Vec<String> = Vec::new();
    let mut cur = p2;
    loop
        invariant
            p2 <= cur <= s@.len(),
            parse_elems_spec(s@.skip(p2 as int), (s@.len() - p2) as nat) == opt_prepend_elems(
                out.deep_view(),
                parse_elems_spec(s@.skip(cur as int), (s@.len() - cur) as nat),
            ),
        decreases s@.len() - cur,
    {
        proof {
            lemma_prefix_at(s@, cur as int, "\""@);
        }
        let pq = match expect_lit(s, cur, "\"") {
            Some(p) => p,
            None => {
                proof {
                    let here = s@.skip(cur as int);
                    if here.len() > 0 && here.first() == '"' {
                        assert(s@.subrange(cur as int, cur + 1) =~= seq![s@[cur as int]]);
                    }
                }
                return None;
            },
        };
        proof {
            assert(s@.subrange(cur as int, pq as int)[0] == s@[cur as int]);
            assert(s@.skip(cur as int).len() > 0 && s@.skip(cur as int).first() == '"');
            assert(s@.skip(cur as int).drop_first() =~= s@.skip(pq as int));
        }
        let (v, pv) = match parse_quoted(s, pq) {
            Some(x) => x,
            None => {
                return None;
            },
        };
        let ghost out_pre = out.deep_view();
        let ghost vv = v@;
        out.push(v);
        proof {
            assert(out.deep_view() =~~= out_pre.push(vv));
            lemma_prefix_at(s@, pv as int, ", "@);
            lemma_prefix_at(s@, pv as int, "]\n"@);
        }
        match expect_lit(s, pv, ", ") {
            Some(pn) => {
                proof {
                    assert(s@.skip(pv as int).skip(2) =~= s@.skip(pn as int));
                    lemma_elems_fuel(
                        s@.skip(pn as int),
                        ((s@.len() - cur) - 1) as nat,
                        (s@.len() - pn) as nat,
                    );
                    if let Some((vs2, r2)) = parse_elems_spec(
                        s@.skip(pn as int),
                        (s@.len() - pn) as nat,
                    ) {
                        assert(out_pre + (seq![vv] + vs2) =~= out_pre.push(vv) + vs2);
                    }
                }
                cur = pn;
            },
            None => {
                match expect_lit(s, pv, "]\n") {
                    Some(pe) => {
                        proof {
                            assert(s@.skip(pv as int).skip(2) =~= s@.skip(pe as int));
                            assert(out_pre + seq![vv] =~= out_pre.push(vv));
                        }
                        return Some((out, pe));
                    },
                    None => {
                        return None;
                    },
                }
            },
        }
    }
}

/// Template blocks with everything before them already consumed.
pub open spec fn opt_prepend_templates(a: Seq<(Seq<char>, TemplateView)>, o: Option<(Seq<(Seq<char>, TemplateView)>, Seq<char>)>) -> Option<(Seq<(Seq<char>, TemplateView)>, Seq<char>)> {
    match o {
        Some(p) => Some((a + p.0, p.1)),
        None => None,
    }
}

/// Plugin blocks with everything before them already consumed.
pub open spec fn opt_prepend_plugins(a: Seq<LockedPluginView>, o: Option<Seq<LockedPluginView>>) -> Option<Seq<LockedPluginView>> {
    match o {
        Some(ps) => Some(a + ps),
        None => None,
    }
}

/// Reads the template blocks, exactly as specified with the remaining
/// text's length as fuel.
#[verifier::loop_isolation(false)]
#[verifier::rlimit(100)]
fn parse_templates(s: &str, pos: usize) -> (r: Result<(Vec<(String, Template)>, usize), Error>)
    requires
        pos <= s@.len(),
    ensures
        match r {
            Ok((ts, p)) => pos <= p <= s@.len() && parse_templates_spec(
                s@.skip(pos as int),
                (s@.len() - pos) as nat,
            ) == Some((templates_view(ts@), s@.skip(p as int))),
            Err(e) => parse_templates_spec(s@.skip(pos as int), (s@.len() - pos) as nat)
                is None && e matches Error::LockCorrupt { .. },
        },
{
    broadcast use vstd::std_specs::vec::group_vec_axioms;

    proof {
        reveal_strlit("[[templates]]\n");
        reveal_strlit("[[templates]]");
        reveal_strlit("name");
        reveal_strlit("value");
        assert("[[templates]]\n"@ =~= "[[templates]]"@ + seq!['\n']);
    }
    let n = s.unicode_len();
    let ghost pt = pos as int;
    let mut templates: Vec<(String, Template)> = Vec::new();
    let mut cur = pos;
    proof {
        assert(templates_view(templates@) =~= Seq::<(Seq<char>, TemplateView)>::empty());
    }
    while cur < n
        invariant
            pt <= cur <= n,
            parse_templates_spec(s@.skip(pt), (s@.len() - pt) as nat) == opt_prepend_templates(
                templates_view(templates@),
                parse_templates_spec(s@.skip(cur as int), (s@.len() - cur) as nat),
            ),
        decreases n - cur,
    {
        proof {
            lemma_prefix_at(s@, cur as int, "[[templates]]\n"@);
        }
        match expect_lit(s, cur, "[[templates]]\n") {
            Some(ph) => {
                proof {
                    assert(s@.skip(cur as int).skip(("[[templates]]"@
                        + seq!['\n']).len() as int) =~= s@.skip(ph as int));
                }
                let (name, p1) = match parse_kv(s, ph, "name") {
                    Some(x) => x,
                    None => {
                        return Err(Error::LockCorrupt { at: ph });
                    },
                };
                let (value, p2) = match parse_kv(s, p1, "value") {
                    Some(x) => x,
                    None => {
                        return Err(Error::LockCorrupt { at: p1 });
                    },
                };
                let (each, p3) = match parse_bool_line(s, p2) {
                    Some(x) => x,
                    None => {
                        return Err(Error::LockCorrupt { at: p2 });
                    },
                };
                let ghost tv_pre = templates_view(templates@);
                let ghost entry_v = (name@, TemplateView { value: value@, each });
                templates.push((name, Template { value, each }));
                proof {
                    assert(templates_view(templates@) =~= tv_pre.push(entry_v));
                    lemma_templates_fuel(
                        s@.skip(p3 as int),
                        ((s@.len() - cur) - 1) as nat,
                        (s@.len() - p3) as nat,
                    );
                    if let Some((es, rr)) = parse_templates_spec(
                        s@.skip(p3 as int),
                        (s@.len() - p3) as nat,
                    ) {
                        assert(tv_pre + (seq![entry_v] + es) =~= tv_pre.push(entry_v) + es);
                    }
                }
                cur = p3;
            },
            None => {
                break;
            },
        }
    }
    proof {
        if cur == n {
            assert(s@.skip(cur as int).len() == 0);
            assert(!starts_with_spec(s@.skip(cur as int), "[[templates]]"@ + seq!['\n']));
        }
        assert(templates_view(templates@) + Seq::<(Seq<char>, TemplateView)>::empty()
            =~= templates_view(templates@));
    }
    Ok((templates, cur))
}

/// Reads the plugin blocks to the end of the text, exactly as specified with
/// the remaining text's length as fuel.
#[verifier::loop_isolation(false)]
#[verifier::rlimit(100)]
fn parse_plugins(s: &str, pos: usize) -> (r: Result<Vec<LockedPlugin>, Error>)
    requires
        pos <= s@.len(),
    ensures
        match r {
            Ok(ps) => parse_plugins_spec(s@.skip(pos as int), (s@.len() - pos) as nat) == Some(
                ps.deep_view(),
            ),
            Err(e) => parse_plugins_spec(s@.skip(pos as int), (s@.len() - pos) as nat) is None
                && e matches Error::LockCorrupt { .. },
        },
{
    broadcast use vstd::std_specs::vec::group_vec_axioms;

    proof {
        reveal_strlit("[[plugins]]\n");
        reveal_strlit("[[plugins]]");
        reveal_strlit("name");
        reveal_strlit("directory");
        reveal_strlit("filenames");
        reveal_strlit("apply");
        assert("[[plugins]]\n"@ =~= "[[plugins]]"@ + seq!['\n']);
    }
    let n = s.unicode_len();
    let ghost pp = pos as int;
    let mut plugins: Vec<LockedPlugin> = Vec::new();
    let mut cur = pos;
    proof {
        assert(plugins.deep_view() =~= Seq::<LockedPluginView>::empty());
    }
    while cur < n
        invariant
            pp <= cur <= n,
            parse_plugins_spec(s@.skip(pp), (s@.len() - pp) as nat) == opt_prepend_plugins(
                plugins.deep_view(),
                parse_plugins_spec(s@.skip(cur as int), (s@.len() - cur) as nat),
            ),
        decreases n - cur,
    {
        proof {
            lemma_prefix_at(s@, cur as int, "[[plugins]]\n"@);
        }
        match expect_lit(s, cur, "[[plugins]]\n") {
            Some(ph) => {
                proof {
                    assert(s@.skip(cur as int).skip(("[[plugins]]"@
                        + seq!['\n']).len() as int) =~= s@.skip(ph as int));
                }
                let (name, p1) = match parse_kv(s, ph, "name") {
                    Some(x) => x,
                    None => {
                        return Err(Error::LockCorrupt { at: ph });
                    },
                };
                let (directory, p2) = match parse_kv(s, p1, "directory") {
                    Some(x) => x,
                    None => {
                        return Err(Error::LockCorrupt { at: p1 });
                    },
                };
                let (filenames, p3) = match parse_list(s, p2, "filenames") {
                    Some(x) => x,
                    None => {
                        return Err(Error::LockCorrupt { at: p2 });
                    },
                };
                let (apply, p4) = match parse_list(s, p3, "apply") {
                    Some(x) => x,
                    None => {
                        return Err(Error::LockCorrupt { at: p3 });
                    },
                };
                let ghost ps_pre = plugins.deep_view();
                let ghost entry_v = LockedPluginView {
                    name: name@,
                    directory: directory@,
                    filenames: filenames.deep_view(),
                    apply: apply.deep_view(),
                };
                plugins.push(LockedPlugin { name, directory, filenames, apply });
                proof {
                    assert(plugins.deep_view() =~~= ps_pre.push(entry_v));
                    lemma_plugins_fuel(
                        s@.skip(p4 as int),
                        ((s@.len() - cur) - 1) as nat,
                        (s@.len() - p4) as nat,
                    );
                    if let Some(ps2) = parse_plugins_spec(
                        s@.skip(p4 as int),
                        (s@.len() - p4) as nat,
                    ) {
                        assert(ps_pre + (seq![entry_v] + ps2) =~= ps_pre.push(entry_v) + ps2);
                    }
                }
                cur = p4;
            },
            None => {
                return Err(Error::LockCorrupt { at: cur });
            },
        }
    }
    proof {
        assert(s@.skip(cur as int).len() == 0);
        assert(plugins.deep_view() + Seq::<LockedPluginView>::empty() =~= plugins.deep_view());
    }
    Ok(plugins)
}

impl LockedConfig {
    /// Parses the canonical text back into a locked configuration, exactly
    /// as [`parse_config_spec`] reads it: together with
    /// [`lemma_store_round_trip`], parsing what [`LockedConfig::serialize`]
    /// wrote gives back the same value.  Anything that is not in the
    /// canonical shape is corrupt, reporting where reading stopped; a parsed
    /// configuration carries no errors.
    #[verifier::loop_isolation(false)]
    #[verifier::rlimit(100)]
    pub fn parse(s: &str) -> (r: Result<LockedConfig, Error>)
        ensures
            r matches Ok(lc) ==> parse_config_spec(s@) == Some(lc@) && lc.errors@.len() == 0,
            r matches Err(e) ==> parse_config_spec(s@) is None && e matches Error::LockCorrupt {
                ..
            },
    {
        proof {
            reveal_strlit("version");
            reveal_strlit("home");
            reveal_strlit("root");
            reveal_strlit("config_file");
            reveal_strlit("lock_file");
            assert(s@.skip(0) =~= s@);
        }
        let (version, p) = match parse_kv(s, 0, "version") {
            Some(x) => x,
            None => {
                return Err(Error::LockCorrupt { at: 0 });
            },
        };
        let (home, p) = match parse_kv(s, p, "home") {
            Some(x) => x,
            None => {
                return Err(Error::LockCorrupt { at: p });
            },
        };
        let (root, p) = match parse_kv(s, p, "root") {
            Some(x) => x,
            None => {
                return Err(Error::LockCorrupt { at: p });
            },
        };
        let (config_file, p) = match parse_kv(s, p, "config_file") {
            Some(x) => x,
            None => {
                return Err(Error::LockCorrupt { at: p });
            },
        };
        let (lock_file, p) = match parse_kv(s, p, "lock_file") {
            Some(x) => x,
            None => {
                return Err(Error::LockCorrupt { at: p });
            },
        };
        let (templates, p) = match parse_templates(s, p) {
            Ok(x) => x,
            Err(e) => {
                return Err(e);
            },
        };
        let plugins = match parse_plugins(s, p) {
            Ok(x) => x,
            Err(e) => {
                return Err(e);
            },
        };
        let lc = LockedConfig {
            settings: crate::lock::LockedSettings {
                version,
                home,
                root,
                config_file,
                lock_file,
            },
            templates,
            plugins,
            errors: Vec::new(),
        };
        proof {
            assert(parse_config_spec(s@) == Some(lc@));
        }
        Ok(lc)
    }
}

/// What reading one `key = "value"` line returns: the value and the rest of
/// the text after the line.
pub open spec fn parse_kv_spec(s: Seq<char>, key: Seq<char>) -> Option<(Seq<char>, Seq<char>)> {
    let pre = key + seq![' ', '=', ' ', '"'];
    if starts_with_spec(s, pre) {
        match parse_string_spec(s.skip(pre.len() as int)) {
            Some((v, rest)) => if rest.len() >= 1 && rest.first() == '\n' {
                Some((v, rest.drop_first()))
            } else {
                None
            },
            None => None,
        }
    } else {
        None
    }
}

/// What reading one `each = true|false` line returns.
pub open spec fn parse_bool_spec(s: Seq<char>) -> Option<(bool, Seq<char>)> {
    let t = "each = "@ + ser_bool(true) + seq!['\n'];
    let f = "each = "@ + ser_bool(false) + seq!['\n'];
    if starts_with_spec(s, t) {
        Some((true, s.skip(t.len() as int)))
    } else if starts_with_spec(s, f) {
        Some((false, s.skip(f.len() as int)))
    } else {
        None
    }
}

/// What reading the quoted elements of a non-empty list returns: the values
/// and the rest of the text after the closing bracket and newline.
pub open spec fn parse_elems_spec(s: Seq<char>, fuel: nat) -> Option<(Seq<Seq<char>>, Seq<char>)>
    decreases fuel,
{
    if s.len() == 0 || s.first() != '"' {
        None
    } else {
        match parse_string_spec(s.drop_first()) {
            None => None,
            Some((v, rest)) => if starts_with_spec(rest, seq![',', ' ']) {
                if fuel == 0 {
                    None
                } else {
                    match parse_elems_spec(rest.skip(2), (fuel - 1) as nat) {
                        Some((vs, r)) => Some((seq![v] + vs, r)),
                        None => None,
                    }
                }
            } else if starts_with_spec(rest, seq![']', '\n']) {
                Some((seq![v], rest.skip(2)))
            } else {
                None
            },
        }
    }
}

/// What reading one `key = ["a", "b"]` line returns.
pub open spec fn parse_list_spec(s: Seq<char>, key: Seq<char>, fuel: nat) -> Option<
    (Seq<Seq<char>>, Seq<char>),
> {
    let pre = key + seq![' ', '=', ' ', '['];
    if starts_with_spec(s, pre) {
        let s1 = s.skip(pre.len() as int);
        if starts_with_spec(s1, seq![']', '\n']) {
            Some((Seq::empty(), s1.skip(2)))
        } else {
            parse_elems_spec(s1, fuel)
        }
    } else {
        None
    }
}

/// What reading the template blocks returns: every block up to the first
/// text that is not a template block, and that text.
pub open spec fn parse_templates_spec(s: Seq<char>, fuel: nat) -> Option<
    (Seq<(Seq<char>, TemplateView)>, Seq<char>),
>
    decreases fuel,
{
    let header = "[[templates]]"@ + seq!['\n'];
    if !starts_with_spec(s, header) {
        Some((Seq::empty(), s))
    } else if fuel == 0 {
        None
    } else {
        let s1 = s.skip(header.len() as int);
        match parse_kv_spec(s1, "name"@) {
            None => None,
            Some((name, s2)) => match parse_kv_spec(s2, "value"@) {
                None => None,
                Some((value, s3)) => match parse_bool_spec(s3) {
                    None => None,
                    Some((each, s4)) => match parse_templates_spec(s4, (fuel - 1) as nat) {
                        None => None,
                        Some((entries, rest)) => Some(
                            (seq![(name, TemplateView { value, each })] + entries, rest),
                        ),
                    },
                },
            },
        }
    }
}

/// What reading the plugin blocks returns; they run to the end of the text.
pub open spec fn parse_plugins_spec(s: Seq<char>, fuel: nat) -> Option<Seq<LockedPluginView>>
    decreases fuel,
{
    let header = "[[plugins]]"@ + seq!['\n'];
    if s.len() == 0 {
        Some(Seq::empty())
    } else if !starts_with_spec(s, header) || fuel == 0 {
        None
    } else {
        let s1 = s.skip(header.len() as int);
        match parse_kv_spec(s1, "name"@) {
            None => None,
            Some((name, s2)) => match parse_kv_spec(s2, "directory"@) {
                None => None,
                Some((directory, s3)) => match parse_list_spec(s3, "filenames"@, s3.len()) {
                    None => None,
                    Some((filenames, s4)) => match parse_list_spec(s4, "apply"@, s4.len()) {
                        None => None,
                        Some((apply, s5)) => match parse_plugins_spec(s5, (fuel - 1) as nat) {
                            None => None,
                            Some(rest) => Some(
                                seq![LockedPluginView { name, directory, filenames, apply }]
                                    + rest,
                            ),
                        },
                    },
                },
            },
        }
    }
}

/// What reading a whole lock file returns: the settings lines, the template
/// blocks, then the plugin blocks, with nothing left over.
pub open spec fn parse_config_spec(s: Seq<char>) -> Option<LockedConfigView> {
    match parse_kv_spec(s, "version"@) {
        None => None,
        Some((version, s1)) => match parse_kv_spec(s1, "home"@) {
            None => None,
            Some((home, s2)) => match parse_kv_spec(s2, "root"@) {
                None => None,
                Some((root, s3)) => match parse_kv_spec(s3, "config_file"@) {
                    None => None,
                    Some((config_file, s4)) => match parse_kv_spec(s4, "lock_file"@) {
                        None => None,
                        Some((lock_file, s5)) => match parse_templates_spec(s5, s5.len()) {
                            None => None,
                            Some((templates, s6)) => match parse_plugins_spec(s6, s6.len()) {
                                None => None,
                                Some(plugins) => Some(
                                    LockedConfigView {
                                        settings: LockedSettingsView {
                                            version,
                                            home,
                                            root,
                                            config_file,
                                            lock_file,
                                        },
                                        templates,
                                        plugins,
                                    },
                                ),
                            },
                        },
                    },
                },
            },
        },
    }
}

/// Reading a serialized `key = "value"` line gives back the value.
proof fn lemma_kv_round(key: Seq<char>, v: Seq<char>, rest: Seq<char>)
    ensures
        parse_kv_spec(ser_kv(key, v) + rest, key) == Some((v, rest)),
{
    let pre = key + seq![' ', '=', ' ', '"'];
    let s = ser_kv(key, v) + rest;
    assert(s.take(pre.len() as int) =~= pre);
    assert(s.skip(pre.len() as int) =~= escape_spec(v) + seq!['"'] + (seq!['\n'] + rest));
    lemma_escape_round(v, seq!['\n'] + rest);
    assert((seq!['\n'] + rest).drop_first() =~= rest);
}

/// Reading a serialized `each = ...` line gives back the flag.
proof fn lemma_bool_round(b: bool, rest: Seq<char>)
    ensures
        parse_bool_spec("each = "@ + ser_bool(b) + seq!['\n'] + rest) == Some((b, rest)),
{
    let t = "each = "@ + ser_bool(true) + seq!['\n'];
    let f = "each = "@ + ser_bool(false) + seq!['\n'];
    let s = "each = "@ + ser_bool(b) + seq!['\n'] + rest;
    if b {
        assert(s.take(t.len() as int) =~= t);
        assert(s.skip(t.len() as int) =~= rest);
    } else {
        assert(t.len() == "each = "@.len() + 5);
        assert(s.take(f.len() as int) =~= f);
        assert(s.skip(f.len() as int) =~= rest);
        assert(!starts_with_spec(s, t)) by {
            reveal_strlit("true");
            reveal_strlit("false");
            if starts_with_spec(s, t) {
                let k = "each = "@.len() as int;
                assert(s.take(t.len() as int)[k] == t[k]);
                assert(s[k] == 'f' && t[k] == 't');
            }
        }
    }
}

/// A serialized non-empty list's elements read back exactly, for any fuel at
/// least the number of elements.
proof fn lemma_elems_round(vs: Seq<Seq<char>>, rest: Seq<char>, fuel: nat)
    requires
        vs.len() >= 1,
        fuel >= vs.len(),
    ensures
        parse_elems_spec(ser_elems(vs) + seq![']', '\n'] + rest, fuel) == Some((vs, rest)),
    decreases vs.len(),
{
    let s = ser_elems(vs) + seq![']', '\n'] + rest;
    lemma_ser_elems_front(vs);
    if vs.len() == 1 {
        assert(s.first() == '"');
        assert(s.drop_first() =~= escape_spec(vs[0]) + seq!['"'] + (seq![']', '\n'] + rest));
        lemma_escape_round(vs[0], seq![']', '\n'] + rest);
        let after = seq![']', '\n'] + rest;
        assert(!starts_with_spec(after, seq![',', ' '])) by {
            if starts_with_spec(after, seq![',', ' ']) {
                assert(after.take(2)[0] == ',');
                assert(after[0] == ']');
            }
        }
        assert(starts_with_spec(after, seq![']', '\n'])) by {
            assert(after.take(2) =~= seq![']', '\n']);
        }
        assert(after.skip(2) =~= rest);
        assert(seq![vs[0]] =~= vs);
    } else {
        let tail_text = ser_elems(vs.drop_first()) + seq![']', '\n'] + rest;
        assert(s.first() == '"');
        assert(s.drop_first() =~= escape_spec(vs.first()) + seq!['"'] + (seq![',', ' ']
            + tail_text));
        lemma_escape_round(vs.first(), seq![',', ' '] + tail_text);
        let after = seq![',', ' '] + tail_text;
        assert(starts_with_spec(after, seq![',', ' '])) by {
            assert(after.take(2) =~= seq![',', ' ']);
        }
        assert(after.skip(2) =~= tail_text);
        lemma_elems_round(vs.drop_first(), rest, (fuel - 1) as nat);
        assert(seq![vs.first()] + vs.drop_first() =~= vs);
    }
}

/// A non-empty list's serialized elements begin with the first element.
proof fn lemma_ser_elems_front(vs: Seq<Seq<char>>)
    requires
        vs.len() >= 1,
    ensures
        vs.len() == 1 ==> ser_elems(vs) == seq!['"'] + escape_spec(vs.first()) + seq!['"'],
        vs.len() > 1 ==> ser_elems(vs) == seq!['"'] + escape_spec(vs.first()) + seq!['"']
            + seq![',', ' '] + ser_elems(vs.drop_first()),
    decreases vs.len(),
{
    if vs.len() == 1 {
        assert(ser_elems(vs.drop_last()) =~= Seq::<char>::empty());
        assert(ser_elems(vs) =~= seq!['"'] + escape_spec(vs.first()) + seq!['"']);
    } else {
        lemma_ser_elems_front(vs.drop_last());
        assert(vs.drop_last().first() == vs.first());
        assert(vs.drop_first().drop_last() =~= vs.drop_last().drop_first());
        assert(vs.drop_first().last() == vs.last());
        if vs.len() == 2 {
            // One element remains after the first: unfold its serialization.
            assert(ser_elems(vs.drop_first().drop_last()) =~= Seq::<char>::empty());
            assert(ser_elems(vs.drop_first()) =~= seq!['"'] + escape_spec(
                vs.drop_first().first(),
            ) + seq!['"']);
            assert(ser_elems(vs.drop_last()) =~= seq!['"'] + escape_spec(vs.first())
                + seq!['"']);
            assert(ser_elems(vs) =~= seq!['"'] + escape_spec(vs.first()) + seq!['"']
                + seq![',', ' '] + ser_elems(vs.drop_first()));
        } else {
            // Unfold one step of both serializations and re-associate.
            assert(ser_elems(vs) =~= ser_elems(vs.drop_last()) + seq![',', ' '] + seq!['"']
                + escape_spec(vs.last()) + seq!['"']);
            assert(ser_elems(vs.drop_first()) =~= ser_elems(vs.drop_first().drop_last())
                + seq![',', ' '] + seq!['"'] + escape_spec(vs.last()) + seq!['"']);
            assert(ser_elems(vs.drop_last()) =~= seq!['"'] + escape_spec(vs.first())
                + seq!['"'] + seq![',', ' '] + ser_elems(vs.drop_last().drop_first()));
            assert(ser_elems(vs) =~= seq!['"'] + escape_spec(vs.first()) + seq!['"']
                + seq![',', ' '] + ser_elems(vs.drop_first()));
        }
    }
}

/// A serialized list line reads back exactly.
proof fn lemma_list_round(key: Seq<char>, vs: Seq<Seq<char>>, rest: Seq<char>, fuel: nat)
    requires
        fuel >= vs.len(),
    ensures
        parse_list_spec(ser_list(key, vs) + rest, key, fuel) == Some((vs, rest)),
{
    let pre = key + seq![' ', '=', ' ', '['];
    let s = ser_list(key, vs) + rest;
    assert(s.take(pre.len() as int) =~= pre);
    let s1 = s.skip(pre.len() as int);
    assert(s1 =~= ser_elems(vs) + seq![']', '\n'] + rest);
    if vs.len() == 0 {
        assert(ser_elems(vs) =~= Seq::<char>::empty());
        assert(starts_with_spec(s1, seq![']', '\n'])) by {
            assert(s1.take(2) =~= seq![']', '\n']);
        }
        assert(s1.skip(2) =~= rest);
    } else {
        lemma_ser_elems_front(vs);
        assert(!starts_with_spec(s1, seq![']', '\n'])) by {
            if starts_with_spec(s1, seq![']', '\n']) {
                assert(s1.take(2)[0] == ']');
                assert(s1[0] == '"');
            }
        }
        lemma_elems_round(vs, rest, fuel);
    }
}

/// Serialized elements hold at least one character per element.
proof fn lemma_ser_elems_len(vs: Seq<Seq<char>>)
    ensures
        ser_elems(vs).len() >= vs.len(),
    decreases vs.len(),
{
    if vs.len() > 0 {
        lemma_ser_elems_len(vs.drop_last());
    }
}

/// A serialized template block holds at least one character per block, and
/// so does a serialized plugin block.
proof fn lemma_ser_blocks_len(ts: Seq<(Seq<char>, TemplateView)>, ps: Seq<LockedPluginView>)
    ensures
        ser_templates(ts).len() >= ts.len(),
        ser_plugins(ps).len() >= ps.len(),
    decreases ts.len() + ps.len(),
{
    reveal_strlit("[[templates]]");
    reveal_strlit("[[plugins]]");
    if ts.len() > 0 {
        lemma_ser_blocks_len(ts.drop_last(), ps);
    } else if ps.len() > 0 {
        lemma_ser_blocks_len(ts, ps.drop_last());
        lemma_ser_elems_len(ps.last().filenames);
        lemma_ser_elems_len(ps.last().apply);
    }
}

/// Plugin blocks do not look like a template block.
proof fn lemma_plugins_text_not_templates(ps: Seq<LockedPluginView>, s: Seq<char>)
    requires
        s == ser_plugins(ps) + Seq::<char>::empty() || s == ser_plugins(ps),
    ensures
        ps.len() > 0 ==> !starts_with_spec(s, "[[templates]]"@ + seq!['\n']),
    decreases ps.len(),
{
    reveal_strlit("[[templates]]");
    reveal_strlit("[[plugins]]");
    if ps.len() > 0 {
        let header = "[[templates]]"@ + seq!['\n'];
        if starts_with_spec(s, header) {
            assert(ser_plugins(ps).len() >= 1) by {
                lemma_ser_blocks_len(Seq::empty(), ps);
            }
            lemma_ser_plugins_front(ps);
            assert(s.take(header.len() as int)[2] == header[2]);
            assert(s[2] == 'p' && header[2] == 't');
        }
    }
}

/// Serialized template blocks begin with the first block, and serialized
/// plugin blocks begin with the first block.
proof fn lemma_ser_templates_front(ts: Seq<(Seq<char>, TemplateView)>)
    requires
        ts.len() >= 1,
    ensures
        ser_templates(ts) == ser_template(ts.first()) + ser_templates(ts.drop_first()),
    decreases ts.len(),
{
    if ts.len() == 1 {
        assert(ser_templates(ts.drop_last()) =~= Seq::<char>::empty());
        assert(ser_templates(ts.drop_first()) =~= Seq::<char>::empty());
        assert(ser_templates(ts) =~= ser_template(ts.first()) + ser_templates(ts.drop_first()));
    } else {
        lemma_ser_templates_front(ts.drop_last());
        assert(ts.drop_last().first() == ts.first());
        assert(ts.drop_last().drop_first() =~= ts.drop_first().drop_last());
        assert(ser_templates(ts) =~= ser_template(ts.first()) + ser_templates(ts.drop_first()));
    }
}

proof fn lemma_ser_plugins_front(ps: Seq<LockedPluginView>)
    requires
        ps.len() >= 1,
    ensures
        ser_plugins(ps) == ser_plugin(ps.first()) + ser_plugins(ps.drop_first()),
    decreases ps.len(),
{
    if ps.len() == 1 {
        assert(ser_plugins(ps.drop_last()) =~= Seq::<char>::empty());
        assert(ser_plugins(ps.drop_first()) =~= Seq::<char>::empty());
        assert(ser_plugins(ps) =~= ser_plugin(ps.first()) + ser_plugins(ps.drop_first()));
    } else {
        lemma_ser_plugins_front(ps.drop_last());
        assert(ps.drop_last().first() == ps.first());
        assert(ps.drop_last().drop_first() =~= ps.drop_first().drop_last());
        assert(ser_plugins(ps) =~= ser_plugin(ps.first()) + ser_plugins(ps.drop_first()));
    }
}

/// Serialized template blocks followed by plugin blocks read back exactly.
#[verifier::rlimit(100)]
proof fn lemma_templates_round(
    ts: Seq<(Seq<char>, TemplateView)>,
    tail: Seq<char>,
    ps: Seq<LockedPluginView>,
    fuel: nat,
)
    requires
        fuel >= ts.len(),
        tail == ser_plugins(ps),
    ensures
        parse_templates_spec(ser_templates(ts) + tail, fuel) == Some((ts, tail)),
    decreases ts.len(),
{
    reveal_strlit("[[templates]]");
    let header = "[[templates]]"@ + seq!['\n'];
    let s = ser_templates(ts) + tail;
    if ts.len() == 0 {
        assert(s =~= tail);
        if ps.len() == 0 {
            assert(tail =~= Seq::<char>::empty());
            assert(!starts_with_spec(s, header));
        } else {
            lemma_plugins_text_not_templates(ps, tail);
        }
        assert(parse_templates_spec(s, fuel) == Some((Seq::<(Seq<char>, TemplateView)>::empty(), tail)));
        assert(ts =~= Seq::<(Seq<char>, TemplateView)>::empty());
    } else {
        lemma_ser_templates_front(ts);
        let t = ts.first();
        let rest_text = ser_templates(ts.drop_first()) + tail;
        assert(s =~= header + (ser_kv("name"@, t.0) + (ser_kv("value"@, t.1.value) + ("each = "@
            + ser_bool(t.1.each) + seq!['\n'] + rest_text))));
        assert(starts_with_spec(s, header)) by {
            assert(s.take(header.len() as int) =~= header);
        }
        let s1 = s.skip(header.len() as int);
        assert(s1 =~= ser_kv("name"@, t.0) + (ser_kv("value"@, t.1.value) + ("each = "@
            + ser_bool(t.1.each) + seq!['\n'] + rest_text)));
        lemma_kv_round("name"@, t.0, ser_kv("value"@, t.1.value) + ("each = "@
            + ser_bool(t.1.each) + seq!['\n'] + rest_text));
        lemma_kv_round("value"@, t.1.value, "each = "@ + ser_bool(t.1.each) + seq!['\n']
            + rest_text);
        lemma_bool_round(t.1.each, rest_text);
        lemma_templates_round(ts.drop_first(), tail, ps, (fuel - 1) as nat);
        assert(seq![(t.0, TemplateView { value: t.1.value, each: t.1.each })] + ts.drop_first()
            =~= ts);
    }
}

/// One serialized plugin block parses line by line down to what follows it.
#[verifier::rlimit(100)]
proof fn lemma_plugin_block_parses(p: LockedPluginView, rest_text: Seq<char>)
    ensures
        (ser_plugin(p) + rest_text).len() >= 1,
        starts_with_spec(ser_plugin(p) + rest_text, "[[plugins]]"@ + seq!['\n']),
        (ser_plugin(p) + rest_text).skip(("[[plugins]]"@ + seq!['\n']).len() as int) == ser_kv(
            "name"@,
            p.name,
        ) + (ser_kv("directory"@, p.directory) + (ser_list("filenames"@, p.filenames) + (
        ser_list("apply"@, p.apply) + rest_text))),
        parse_kv_spec(
            ser_kv("name"@, p.name) + (ser_kv("directory"@, p.directory) + (ser_list(
                "filenames"@,
                p.filenames,
            ) + (ser_list("apply"@, p.apply) + rest_text))),
            "name"@,
        ) == Some(
            (
                p.name,
                ser_kv("directory"@, p.directory) + (ser_list("filenames"@, p.filenames) + (
                ser_list("apply"@, p.apply) + rest_text)),
            ),
        ),
        parse_kv_spec(
            ser_kv("directory"@, p.directory) + (ser_list("filenames"@, p.filenames) + (ser_list(
                "apply"@,
                p.apply,
            ) + rest_text)),
            "directory"@,
        ) == Some(
            (
                p.directory,
                ser_list("filenames"@, p.filenames) + (ser_list("apply"@, p.apply) + rest_text),
            ),
        ),
        parse_list_spec(
            ser_list("filenames"@, p.filenames) + (ser_list("apply"@, p.apply) + rest_text),
            "filenames"@,
            (ser_list("filenames"@, p.filenames) + (ser_list("apply"@, p.apply)
                + rest_text)).len(),
        ) == Some((p.filenames, ser_list("apply"@, p.apply) + rest_text)),
        parse_list_spec(
            ser_list("apply"@, p.apply) + rest_text,
            "apply"@,
            (ser_list("apply"@, p.apply) + rest_text).len(),
        ) == Some((p.apply, rest_text)),
{
    reveal_strlit("[[plugins]]");
    let header = "[[plugins]]"@ + seq!['\n'];
    let s = ser_plugin(p) + rest_text;
    let a = ser_kv("name"@, p.name);
    let b = ser_kv("directory"@, p.directory);
    let c = ser_list("filenames"@, p.filenames);
    let d = ser_list("apply"@, p.apply);
    assert(s =~= header + (a + (b + (c + (d + rest_text)))));
    assert(starts_with_spec(s, header)) by {
        assert(s.take(header.len() as int) =~= header);
    }
    assert(s.skip(header.len() as int) =~= a + (b + (c + (d + rest_text))));
    lemma_kv_round("name"@, p.name, b + (c + (d + rest_text)));
    lemma_kv_round("directory"@, p.directory, c + (d + rest_text));
    assert((c + (d + rest_text)).len() >= p.filenames.len()) by {
        lemma_ser_elems_len(p.filenames);
    }
    lemma_list_round("filenames"@, p.filenames, d + rest_text, (c + (d + rest_text)).len());
    assert((d + rest_text).len() >= p.apply.len()) by {
        lemma_ser_elems_len(p.apply);
    }
    lemma_list_round("apply"@, p.apply, rest_text, (d + rest_text).len());
}

/// Serialized plugin blocks read back exactly.
#[verifier::rlimit(100)]
proof fn lemma_plugins_round(ps: Seq<LockedPluginView>, fuel: nat)
    requires
        fuel >= ps.len(),
    ensures
        parse_plugins_spec(ser_plugins(ps), fuel) == Some(ps),
    decreases ps.len(),
{
    let s = ser_plugins(ps);
    if ps.len() == 0 {
        assert(s =~= Seq::<char>::empty());
        assert(ps =~= Seq::<LockedPluginView>::empty());
    } else {
        lemma_ser_plugins_front(ps);
        let p = ps.first();
        let rest_text = ser_plugins(ps.drop_first());
        lemma_plugin_block_parses(p, rest_text);
        lemma_plugins_round(ps.drop_first(), (fuel - 1) as nat);
        let header = "[[plugins]]"@ + seq!['\n'];
        let s1 = s.skip(header.len() as int);
        let t2 = ser_kv("directory"@, p.directory) + (ser_list("filenames"@, p.filenames) + (
        ser_list("apply"@, p.apply) + rest_text));
        let t3 = ser_list("filenames"@, p.filenames) + (ser_list("apply"@, p.apply) + rest_text);
        let t4 = ser_list("apply"@, p.apply) + rest_text;
        assert(parse_kv_spec(s1, "name"@) == Some((p.name, t2)));
        assert(parse_kv_spec(t2, "directory"@) == Some((p.directory, t3)));
        assert(parse_list_spec(t3, "filenames"@, t3.len()) == Some((p.filenames, t4)));
        assert(parse_list_spec(t4, "apply"@, t4.len()) == Some((p.apply, rest_text)));
        assert(parse_plugins_spec(rest_text, (fuel - 1) as nat) == Some(ps.drop_first()));
        assert(seq![LockedPluginView {
            name: p.name,
            directory: p.directory,
            filenames: p.filenames,
            apply: p.apply,
        }] + ps.drop_first() =~= ps);
        assert(parse_plugins_spec(s, fuel) == Some(ps));
    }
}

/// Round trip: reading the canonical text of any locked configuration gives
/// back exactly its value, so the lock store loses nothing.
pub proof fn lemma_store_round_trip(lc: LockedConfigView)
    ensures
        parse_config_spec(ser_spec(lc)) == Some(lc),
{
    let s = ser_spec(lc);
    let ts_text = ser_templates(lc.templates);
    let ps_text = ser_plugins(lc.plugins);
    let s1 = ser_kv("home"@, lc.settings.home) + (ser_kv("root"@, lc.settings.root) + (ser_kv(
        "config_file"@,
        lc.settings.config_file,
    ) + (ser_kv("lock_file"@, lc.settings.lock_file) + (ts_text + ps_text))));
    assert(s =~= ser_kv("version"@, lc.settings.version) + s1);
    lemma_kv_round("version"@, lc.settings.version, s1);
    let s2 = ser_kv("root"@, lc.settings.root) + (ser_kv("config_file"@, lc.settings.config_file)
        + (ser_kv("lock_file"@, lc.settings.lock_file) + (ts_text + ps_text)));
    lemma_kv_round("home"@, lc.settings.home, s2);
    let s3 = ser_kv("config_file"@, lc.settings.config_file) + (ser_kv(
        "lock_file"@,
        lc.settings.lock_file,
    ) + (ts_text + ps_text));
    lemma_kv_round("root"@, lc.settings.root, s3);
    let s4 = ser_kv("lock_file"@, lc.settings.lock_file) + (ts_text + ps_text);
    lemma_kv_round("config_file"@, lc.settings.config_file, s4);
    let s5 = ts_text + ps_text;
    lemma_kv_round("lock_file"@, lc.settings.lock_file, s5);
    assert(s5.len() >= lc.templates.len()) by {
        lemma_ser_blocks_len(lc.templates, lc.plugins);
    }
    lemma_templates_round(lc.templates, ps_text, lc.plugins, s5.len());
    assert(ps_text.len() >= lc.plugins.len()) by {
        lemma_ser_blocks_len(lc.templates, lc.plugins);
    }
    lemma_plugins_round(lc.plugins, ps_text.len());
    assert(parse_config_spec(s) == Some(
        LockedConfigView {
            settings: LockedSettingsView {
                version: lc.settings.version,
                home: lc.settings.home,
                root: lc.settings.root,
                config_file: lc.settings.config_file,
                lock_file: lc.settings.lock_file,
            },
            templates: lc.templates,
            plugins: lc.plugins,
        },
    ));
}

} // verus!
