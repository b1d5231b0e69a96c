//! Serializing values back to text.  In readable mode strings are
//! escaped so that reading the text reproduces the exact value; in
//! display mode string contents are emitted raw.

use vstd::prelude::*;
use vstd::string::StringExecFns;
use crate::types::{
    FuncV, KeyV, Mal, MalFunc, MalV, MapKey, Symbol, chars_to_string, native_name, native_name_v,
    push_str_chars, view_entry_seq, view_mal_seq, view_sym_seq, group_view_lemmas,
    lemma_view_entry_seq_index, lemma_view_entry_seq_len, lemma_view_mal_seq_index,
    lemma_view_mal_seq_len,
};
use crate::numtext::{i_dec_v, push_i_dec};

verus! {

// ------------------------------------------------------------------
// What printing means.
// ------------------------------------------------------------------

/// The escape of one character inside a readable string literal.
pub open spec fn escape_char_v(c: char) -> Seq<char> {
    if c == '"' {
        seq!['\\', '"']
    } else if c == '\\' {
        seq!['\\', '\\']
    } else if c == '\n' {
        seq!['\\', 'n']
    } else {
        seq![c]
    }
}

/// The escape of a whole string body.
pub open spec fn escape_str_v(s: Seq<char>) -> Seq<char>
    decreases s.len(),
{
    if s.len() == 0 {
        Seq::empty()
    } else {
        escape_str_v(s.subrange(0, s.len() - 1)) + escape_char_v(s.last())
    }
}

/// String contents: quoted and escaped in readable mode, raw otherwise.
pub open spec fn print_str_v(s: Seq<char>, readable: bool) -> Seq<char> {
    if readable {
        seq!['"'] + escape_str_v(s) + seq!['"']
    } else {
        s
    }
}

/// A map key: a string, or a colon-prefixed keyword.
pub open spec fn print_key_v(k: KeyV, readable: bool) -> Seq<char> {
    match k {
        KeyV::Str(s) => print_str_v(s, readable),
        KeyV::Kw(s) => seq![':'] + s,
    }
}

/// A parameter list, single-space separated.
pub open spec fn join_params_v(params: Seq<Seq<char>>, i: int) -> Seq<char>
    decreases params.len() - i,
{
    if 0 <= i < params.len() {
        params[i] + (if i + 1 < params.len() {
            seq![' ']
        } else {
            Seq::empty()
        }) + join_params_v(params, i + 1)
    } else {
        Seq::empty()
    }
}

/// The text of a value.
pub open spec fn print_v(v: MalV, readable: bool) -> Seq<char>
    decreases v, 1int,
{
    match v {
        MalV::Num(n) => i_dec_v(n as int),
        MalV::Sym(s) => s,
        MalV::Str(s) => print_str_v(s, readable),
        MalV::Bool(b) => if b {
            "true"@
        } else {
            "false"@
        },
        MalV::Nil => "nil"@,
        MalV::Kw(s) => seq![':'] + s,
        MalV::List(items) => seq!['('] + print_items_v(items, 0, readable) + seq![')'],
        MalV::Arr(items) => seq!['['] + print_items_v(items, 0, readable) + seq![']'],
        MalV::Dict(entries) => seq!['{'] + print_entries_v(entries, 0, readable) + seq!['}'],
        MalV::Func(f) => print_func_v(f, readable),
    }
}

/// Collection elements, single-space separated.
pub open spec fn print_items_v(items: Seq<MalV>, i: int, readable: bool) -> Seq<char>
    decreases items, items.len() - i,
{
    if 0 <= i < items.len() {
        print_v(items[i], readable) + (if i + 1 < items.len() {
            seq![' ']
        } else {
            Seq::empty()
        }) + print_items_v(items, i + 1, readable)
    } else {
        Seq::empty()
    }
}

/// Map entries: each key, a space, and its value.
pub open spec fn print_entries_v(entries: Seq<(KeyV, MalV)>, i: int, readable: bool) -> Seq<char>
    decreases entries, entries.len() - i,
{
    if 0 <= i < entries.len() {
        print_key_v(entries[i].0, readable) + seq![' '] + print_v(entries[i].1, readable)
            + print_entries_v(entries, i + 1, readable)
    } else {
        Seq::empty()
    }
}

/// A function value: a native prints as its registered name; a closure
/// prints opaquely in display mode and reconstructs a `fn*` form in
/// readable mode.
pub open spec fn print_func_v(f: FuncV, readable: bool) -> Seq<char>
    decreases f, 1int,
{
    match f {
        FuncV::Native(n) => native_name_v(n),
        FuncV::Closure(params, _env, body) => if readable {
            "(fn* ("@ + join_params_v(params, 0) + ") "@ + print_v(*body, readable) + seq![')']
        } else {
            "#<function>"@
        },
        FuncV::NamedClosure(_name, params, _env, body) => if readable {
            "(fn* ("@ + join_params_v(params, 0) + ") "@ + print_v(*body, readable) + seq![')']
        } else {
            "#<function>"@
        },
    }
}

// ------------------------------------------------------------------
// Executable printing.
// ------------------------------------------------------------------

/// Appends a string body, escaped if readable.
fn push_malstr(s: &str, out: &mut Vec<char>, readable: bool)
    ensures
        final(out)@ == old(out)@ + print_str_v(s@, readable),
{
    if !readable {
        push_str_chars(s, out);
        return ;
    }
    out.push('"');
    let n = s.unicode_len();
    let mut i: usize = 0;
    while i < n
        invariant
            n == s@.len(),
            i <= n,
            out@ == old(out)@.push('"') + escape_str_v(s@.subrange(0, i as int)),
        decreases n - i,
    {
        let c = s.get_char(i);
        proof {
            assert(s@.subrange(0, i + 1).subrange(0, i as int) =~= s@.subrange(0, i as int));
            assert(s@.subrange(0, i + 1).last() == s@[i as int]);
        }
        let cu = c as u32;
        if cu == 34 {
            out.push('\\');
            out.push('"');
        } else if cu == 92 {
            out.push('\\');
            out.push('\\');
        } else if cu == 10 {
            out.push('\\');
            out.push('n');
        } else {
            out.push(c);
        }
        proof {
            assert(out@ =~= old(out)@.push('"') + escape_str_v(s@.subrange(0, i + 1)));
        }
        i = i + 1;
    }
    out.push('"');
    proof {
        assert(s@.subrange(0, s@.len() as int) =~= s@);
        assert(out@ =~= old(out)@ + print_str_v(s@, readable));
    }
}

/// Appends the text of a value.
pub fn push_print(m: &Mal, out: &mut Vec<char>, readable: bool)
    ensures
        final(out)@ == old(out)@ + print_v(m@, readable),
    decreases *m, 1int,
{
    match m {
        Mal::Num(n) => {
            push_i_dec(*n, out);
        },
        Mal::Sym(s) => {
            push_str_chars(s.inner.as_str(), out);
        },
        Mal::Str(s) => {
            push_malstr(s.as_str(), out, readable);
        },
        Mal::Bool(b) => {
            if *b {
                push_str_chars("true", out);
            } else {
                push_str_chars("false", out);
            }
        },
        Mal::Nil => {
            push_str_chars("nil", out);
        },
        Mal::Kw(k) => {
            out.push(':');
            push_str_chars(k.sym.as_str(), out);
            proof {
                assert(out@ =~= old(out)@ + (seq![':'] + k.sym@));
            }
        },
        Mal::List(l) => {
            out.push('(');
            push_print_items(&l.items, 0, out, readable);
            out.push(')');
            proof {
                assert(out@ =~= old(out)@ + (seq!['('] + print_items_v(view_mal_seq(l.items@), 0, readable) + seq![')']));
            }
        },
        Mal::Arr(a) => {
            out.push('[');
            push_print_items(&a.items, 0, out, readable);
            out.push(']');
            proof {
                assert(out@ =~= old(out)@ + (seq!['['] + print_items_v(view_mal_seq(a.items@), 0, readable) + seq![']']));
            }
        },
        Mal::Dict(d) => {
            out.push('{');
            push_print_entries(&d.entries, 0, out, readable);
            out.push('}');
            proof {
                assert(out@ =~= old(out)@ + (seq!['{'] + print_entries_v(view_entry_seq(d.entries@), 0, readable) + seq!['}']));
            }
        },
        Mal::Func(f) => {
            push_print_func(f, out, readable);
        },
    }
}

/// Appends collection elements, single-space separated.
fn push_print_items(items: &Vec<Mal>, i: usize, out: &mut Vec<char>, readable: bool)
    requires
        i <= items@.len(),
    ensures
        final(out)@ == old(out)@ + print_items_v(view_mal_seq(items@), i as int, readable),
    decreases *items, items@.len() - i,
{
    proof {
        lemma_view_mal_seq_len(items@);
    }
    if i == items.len() {
        proof {
            assert(old(out)@ + print_items_v(view_mal_seq(items@), i as int, readable) =~= old(
                out,
            )@);
        }
        return ;
    }
    push_print(&items[i], out, readable);
    if i + 1 < items.len() {
        out.push(' ');
    }
    push_print_items(items, i + 1, out, readable);
    proof {
        lemma_view_mal_seq_index(items@, i as int);
        assert(out@ =~= old(out)@ + print_items_v(view_mal_seq(items@), i as int, readable));
    }
}

/// Appends map entries.
fn push_print_entries(entries: &Vec<(MapKey, Mal)>, i: usize, out: &mut Vec<char>, readable: bool)
    requires
        i <= entries@.len(),
    ensures
        final(out)@ == old(out)@ + print_entries_v(view_entry_seq(entries@), i as int, readable),
    decreases *entries, entries@.len() - i,
{
    proof {
        lemma_view_entry_seq_len(entries@);
    }
    if i == entries.len() {
        proof {
            assert(old(out)@ + print_entries_v(view_entry_seq(entries@), i as int, readable)
                =~= old(out)@);
        }
        return ;
    }
    match &entries[i].0 {
        MapKey::Str(s) => {
            push_malstr(s.as_str(), out, readable);
        },
        MapKey::Kw(k) => {
            out.push(':');
            push_str_chars(k.sym.as_str(), out);
        },
    }
    out.push(' ');
    push_print(&entries[i].1, out, readable);
    push_print_entries(entries, i + 1, out, readable);
    proof {
        lemma_view_entry_seq_index(entries@, i as int);
        assert(out@ =~= old(out)@ + print_entries_v(view_entry_seq(entries@), i as int, readable));
    }
}

/// Appends a parameter list, single-space separated.
fn push_params(params: &Vec<Symbol>, i: usize, out: &mut Vec<char>)
    requires
        i <= params@.len(),
    ensures
        final(out)@ == old(out)@ + join_params_v(view_sym_seq(params@), i as int),
    decreases params@.len() - i,
{
    if i == params.len() {
        proof {
            assert(old(out)@ + join_params_v(view_sym_seq(params@), i as int) =~= old(out)@);
        }
        return ;
    }
    push_str_chars(params[i].inner.as_str(), out);
    if i + 1 < params.len() {
        out.push(' ');
    }
    push_params(params, i + 1, out);
    proof {
        assert(out@ =~= old(out)@ + join_params_v(view_sym_seq(params@), i as int));
    }
}

/// Appends the text of a function value.
fn push_print_func(f: &MalFunc, out: &mut Vec<char>, readable: bool)
    ensures
        final(out)@ == old(out)@ + print_func_v(f@, readable),
    decreases *f, 0int,
{
    match f {
        MalFunc::Native(n) => {
            push_str_chars(native_name(*n), out);
        },
        MalFunc::Closure(params, _env, body) => {
            if readable {
                push_str_chars("(fn* (", out);
                push_params(params, 0, out);
                push_str_chars(") ", out);
                push_print(body, out, readable);
                out.push(')');
                proof {
                    assert(out@ =~= old(out)@ + print_func_v(f@, readable));
                }
            } else {
                push_str_chars("#<function>", out);
            }
        },
        MalFunc::NamedClosure(_name, params, _env, body) => {
            if readable {
                push_str_chars("(fn* (", out);
                push_params(params, 0, out);
                push_str_chars(") ", out);
                push_print(body, out, readable);
                out.push(')');
                proof {
                    assert(out@ =~= old(out)@ + print_func_v(f@, readable));
                }
            } else {
                push_str_chars("#<function>", out);
            }
        },
    }
}

/// Appends the text of a value to a string.
pub fn pr_str_into(mal: &Mal, string: &mut String, print_readably: bool)
    ensures
        final(string)@ == old(string)@ + print_v(mal@, print_readably),
{
    let mut buf: Vec<char> = Vec::new();
    push_print(mal, &mut buf, print_readably);
    let tail = chars_to_string(&buf);
    string.append(tail.as_str());
}

/// The text of a value.
pub fn pr_str(mal: &Mal, print_readably: bool) -> (r: String)
    ensures
        r@ == print_v(mal@, print_readably),
{
    let mut buf: Vec<char> = Vec::new();
    push_print(mal, &mut buf, print_readably);
    proof {
        assert(buf@ =~= print_v(mal@, print_readably));
    }
    chars_to_string(&buf)
}

} // verus!

verus! {

/// The escape of a string is at least as long as the string.
pub proof fn lemma_escape_len(s: Seq<char>)
    ensures
        escape_str_v(s).len() >= s.len(),
    decreases s.len(),
{
    if s.len() > 0 {
        lemma_escape_len(s.subrange(0, s.len() - 1));
    }
}

/// An escape can be peeled from the front as well as from the back.
pub proof fn lemma_escape_front(s: Seq<char>)
    requires
        s.len() > 0,
    ensures
        escape_str_v(s) == escape_char_v(s[0]) + escape_str_v(s.subrange(1, s.len() as int)),
    decreases s.len(),
{
    if s.len() == 1 {
        assert(s.subrange(0, 0) =~= Seq::<char>::empty());
        assert(s.subrange(1, 1) =~= Seq::<char>::empty());
        assert(escape_str_v(s) =~= escape_char_v(s[0]) + escape_str_v(s.subrange(1, 1)));
    } else {
        let head = s.subrange(0, s.len() - 1);
        let tail = s.subrange(1, s.len() as int);
        lemma_escape_front(head);
        assert(head[0] == s[0]);
        let tailhead = tail.subrange(0, tail.len() - 1);
        assert(head.subrange(1, head.len() as int) =~= tailhead);
        assert(tail.last() == s.last());
        assert(escape_str_v(tail) == escape_str_v(tailhead) + escape_char_v(s.last()));
        assert(escape_str_v(s) == (escape_char_v(s[0]) + escape_str_v(tailhead)) + escape_char_v(
            s.last(),
        ));
        assert((escape_char_v(s[0]) + escape_str_v(tailhead)) + escape_char_v(s.last())
            =~= escape_char_v(s[0]) + (escape_str_v(tailhead) + escape_char_v(s.last())));
    }
}

} // verus!
