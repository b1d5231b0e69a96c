//! The laws the library states about itself, beyond the contracts of
//! the single functions: scoping, the equality quirk, and snapshot
//! capture.

use vstd::prelude::*;
use crate::env::{env_pop_v, env_push_v, lookup_v};
use crate::errors::FailV;
use crate::eval::{
    apply_form_spec, apply_spec, eval_elems_spec, eval_list_spec, eval_spec, is_special_v,
    lemma_eval_frame, lemma_let_pairs_frame, let_pairs_spec, let_spec,
};
use crate::types::{mal_equal_v, EnvV, FuncV, MalV};

verus! {

broadcast use vstd::string::group_string_axioms;

// ------------------------------------------------------------------
// Scoping: a `let*` form restores the outer environment exactly, on
// every exit path.  A name bound inside it is unbound outside again,
// unless it was independently defined there.
// ------------------------------------------------------------------

/// Evaluating a `let*` form leaves the environment exactly as it was:
/// its bindings, and anything defined while evaluating its parts, are
/// rolled back whether the form returns a value or fails.
pub proof fn lemma_let_env_restored(items: Seq<MalV>, env: EnvV, fuel: nat)
    requires
        items.len() > 0,
        items[0] == MalV::Sym("let*"@),
    ensures
        eval_spec(MalV::List(items), env, fuel).env == env,
{
    reveal_strlit("let*");
    reveal_strlit("def!");
    if fuel > 0 {
        let f1 = (fuel - 1) as nat;
        assert("let*"@ != "def!"@) by {
            assert("let*"@[0] == 'l' && "def!"@[0] == 'd');
        }
        assert(eval_list_spec(items, env, f1) == let_spec(items, env, f1));
        if f1 > 0 && items.len() == 3 {
            let bs = match items[1] {
                MalV::List(bs) => Option::Some(bs),
                MalV::Arr(bs) => Option::Some(bs),
                _ => Option::None,
            };
            match bs {
                Option::Some(bs) => if bs.len() % 2 == 0 {
                    let f2 = (f1 - 1) as nat;
                    lemma_let_pairs_frame(bs, 0, env_push_v(env), f2);
                    let o1 = let_pairs_spec(bs, 0, env_push_v(env), f2);
                    match o1.res {
                        Result::Ok(_x) => {
                            lemma_eval_frame(items[2], o1.env, f2);
                            let o2 = eval_spec(items[2], o1.env, f2);
                            crate::env::lemma_frame_trans(env_push_v(env), o1.env, o2.env);
                            crate::env::lemma_frame_push_pop(env, o2.env);
                        },
                        Result::Err(_f) => {
                            crate::env::lemma_frame_push_pop(env, o1.env);
                        },
                    }
                },
                Option::None => {},
            }
        }
    }
}

// ------------------------------------------------------------------
// The equality quirk: a list and a vector compare exactly as two
// collections of the same variant would, element for element.
// ------------------------------------------------------------------

/// Cross-variant structural equality: whether a list equals a vector
/// is decided by the very same element-wise comparison that decides
/// whether it equals a list.
pub proof fn lemma_cross_variant_equality(s: Seq<MalV>, t: Seq<MalV>)
    ensures
        mal_equal_v(MalV::List(s), MalV::Arr(t)) == mal_equal_v(MalV::List(s), MalV::List(t)),
        mal_equal_v(MalV::Arr(s), MalV::List(t)) == mal_equal_v(MalV::Arr(s), MalV::Arr(t)),
{
}

// ------------------------------------------------------------------
// Snapshot capture: a function value carries its own copy of the
// defining scope, so redefining a symbol afterwards cannot change what
// a call of the function yields.
// ------------------------------------------------------------------

/// Values that reduce to themselves in any environment.
pub open spec fn self_evaluating_v(v: MalV) -> bool {
    match v {
        MalV::Sym(_) => false,
        MalV::List(_) => false,
        MalV::Arr(_) => false,
        MalV::Dict(_) => false,
        _ => true,
    }
}

/// Self-evaluating argument lists reduce the same way in any two
/// environments.
proof fn lemma_self_eval_elems(items: Seq<MalV>, i: int, e1: EnvV, e2: EnvV, fuel: nat)
    requires
        forall|j: int| i <= j < items.len() ==> self_evaluating_v(#[trigger] items[j]),
    ensures
        eval_elems_spec(items, i, e1, fuel).res == eval_elems_spec(items, i, e2, fuel).res,
        eval_elems_spec(items, i, e1, fuel).out == eval_elems_spec(items, i, e2, fuel).out,
    decreases fuel, items.len() - i,
{
    if 0 <= i < items.len() {
        let o1a = eval_spec(items[i], env_push_v(e1), fuel);
        let o1b = eval_spec(items[i], env_push_v(e2), fuel);
        assert(o1a.res == o1b.res && o1a.out == o1b.out);
        match o1a.res {
            Result::Ok(_v) => {
                lemma_self_eval_elems(items, i + 1, env_pop_v(o1a.env), env_pop_v(o1b.env), fuel);
            },
            Result::Err(_f) => {},
        }
    }
}

/// The snapshot-capture invariance: if two environments bind `name` to
/// the same function value, a call of that name on self-evaluating
/// arguments returns the same result and prints the same lines in
/// both, whatever else the two environments bind.  Defining a function
/// and then redefining a symbol it referenced cannot change the
/// function's behaviour.
pub proof fn lemma_snapshot_capture(
    name: Seq<char>,
    args: Seq<MalV>,
    e1: EnvV,
    e2: EnvV,
    fuel: nat,
)
    requires
        !is_special_v(name),
        lookup_v(e1.map, name) == lookup_v(e2.map, name),
        match lookup_v(e1.map, name) {
            Option::Some(f) => f is Func,
            Option::None => false,
        },
        forall|j: int| 0 <= j < args.len() ==> self_evaluating_v(#[trigger] args[j]),
    ensures
        ({
            let call = MalV::List(seq![MalV::Sym(name)] + args);
            &&& eval_spec(call, e1, fuel).res == eval_spec(call, e2, fuel).res
            &&& eval_spec(call, e1, fuel).out == eval_spec(call, e2, fuel).out
        }),
{
    let items = seq![MalV::Sym(name)] + args;
    let call = MalV::List(items);
    assert(items.len() == 1 + args.len());
    assert(items[0] == MalV::Sym(name));
    assert(forall|j: int| 1 <= j < items.len() ==> self_evaluating_v(#[trigger] items[j]));
    if fuel > 0 {
        let f1 = (fuel - 1) as nat;
        assert(eval_spec(call, e1, fuel) == eval_list_spec(items, e1, f1));
        assert(eval_spec(call, e2, fuel) == eval_list_spec(items, e2, f1));
        if f1 > 0 {
            assert(eval_list_spec(items, e1, f1) == apply_form_spec(items, e1, f1));
            assert(eval_list_spec(items, e2, f1) == apply_form_spec(items, e2, f1));
            if f1 > 0 {
                let f2 = (f1 - 1) as nat;
                let h1 = eval_spec(items[0], e1, f2);
                let h2 = eval_spec(items[0], e2, f2);
                assert(h1.res == h2.res && h1.out == h2.out);
                match h1.res {
                    Result::Ok(fv) => match fv {
                        MalV::Func(f) => {
                            lemma_self_eval_elems(items, 1, h1.env, h2.env, f2);
                            let o2a = eval_elems_spec(items, 1, env_push_v(h1.env), f2);
                            let o2b = eval_elems_spec(items, 1, env_push_v(h2.env), f2);
                            lemma_self_eval_elems(
                                items,
                                1,
                                env_push_v(h1.env),
                                env_push_v(h2.env),
                                f2,
                            );
                            assert(o2a.res == o2b.res && o2a.out == o2b.out);
                            match o2a.res {
                                Result::Ok(argsv) => {
                                    assert(apply_form_spec(items, e1, f1).res == apply_spec(
                                        f,
                                        argsv->Arr_0,
                                        f2,
                                    ).res);
                                    assert(apply_form_spec(items, e2, f1).res == apply_spec(
                                        f,
                                        argsv->Arr_0,
                                        f2,
                                    ).res);
                                },
                                Result::Err(_fl) => {},
                            }
                        },
                        _ => {},
                    },
                    Result::Err(_f) => {},
                }
            }
        }
    }
}

} // verus!

verus! {

// ------------------------------------------------------------------
// The round trip: printing an atomic value readably and reading the
// text back yields the value again.
// ------------------------------------------------------------------

/// Characters that can stand in an atom's spelling.
pub open spec fn ident_chars_ok_v(s: Seq<char>) -> bool {
    forall|i: int| 0 <= i < s.len() ==> !crate::reader::is_special_c(#[trigger] s[i])
}

/// The atomic values whose readable printout is again a single atom:
/// numbers, strings, booleans, nil, and keywords and symbols whose
/// spelling the reader accepts back as the same keyword or symbol.
pub open spec fn atom_wf_v(v: MalV) -> bool {
    match v {
        MalV::Num(_n) => true,
        MalV::Str(_s) => true,
        MalV::Bool(_b) => true,
        MalV::Nil => true,
        MalV::Sym(s) => s.len() > 0 && ident_chars_ok_v(s) && !crate::numtext::atom_is_number(s)
            && s[0] != ':' && s != "true"@ && s != "false"@ && s != "nil"@,
        MalV::Kw(s) => ident_chars_ok_v(s),
        _ => false,
    }
}

/// Decimal text is made of atom characters.
proof fn lemma_dec_chars_ok(n: i64)
    ensures
        ident_chars_ok_v(crate::numtext::i_dec_v(n as int)),
        crate::numtext::i_dec_v(n as int).len() > 0,
{
    let s = crate::numtext::i_dec_v(n as int);
    if n < 0 {
        crate::numtext::lemma_u_dec_val((-(n as int)) as nat);
        let mag = crate::numtext::u_dec_v((-(n as int)) as nat);
        assert forall|i: int| 0 <= i < s.len() implies !crate::reader::is_special_c(
            #[trigger] s[i],
        ) by {
            if i == 0 {
                assert(s[0] == '-');
            } else {
                assert(s[i] == mag[i - 1]);
                assert(crate::numtext::is_digit_c(mag[i - 1]));
            }
        }
    } else {
        crate::numtext::lemma_u_dec_val(n as nat);
        assert forall|i: int| 0 <= i < s.len() implies !crate::reader::is_special_c(
            #[trigger] s[i],
        ) by {
            assert(crate::numtext::is_digit_c(s[i]));
        }
    }
}

/// Round trip for every atomic value: reading its readable printout
/// yields the value itself.
pub proof fn lemma_atom_round_trip(v: MalV)
    requires
        atom_wf_v(v),
    ensures
        crate::reader::read_str_v(crate::printer::print_v(v, true)) == Result::<
            MalV,
            crate::errors::ErrV,
        >::Ok(v),
{
    reveal_strlit("true");
    reveal_strlit("false");
    reveal_strlit("nil");
    let text = crate::printer::print_v(v, true);
    match v {
        MalV::Num(n) => {
            lemma_dec_chars_ok(n);
            crate::numtext::lemma_parse_i_dec(n);
            crate::reader::lemma_lex_ident(text);
        },
        MalV::Sym(s) => {
            crate::reader::lemma_lex_ident(s);
        },
        MalV::Kw(s) => {
            assert(text =~= seq![':'] + s);
            assert forall|i: int| 0 <= i < text.len() implies !crate::reader::is_special_c(
                #[trigger] text[i],
            ) by {
                if i == 0 {
                    assert(text[0] == ':');
                } else {
                    assert(text[i] == s[i - 1]);
                }
            }
            crate::reader::lemma_lex_ident(text);
            assert(!crate::numtext::is_digit_c(':'));
            assert(!crate::numtext::atom_is_number(text));
            assert(text.subrange(1, text.len() as int) =~= s);
        },
        MalV::Bool(b) => {
            if b {
                assert(text == "true"@);
                assert(text.len() == 4);
                assert forall|i: int| 0 <= i < text.len() implies !crate::reader::is_special_c(
                    #[trigger] text[i],
                ) by {
                    assert(text[0] == 't' && text[1] == 'r' && text[2] == 'u' && text[3] == 'e');
                }
                crate::reader::lemma_lex_ident(text);
                assert(!crate::numtext::atom_is_number(text));
                assert(text[0] != ':');
            } else {
                assert(text == "false"@);
                assert(text.len() == 5);
                assert forall|i: int| 0 <= i < text.len() implies !crate::reader::is_special_c(
                    #[trigger] text[i],
                ) by {
                    assert(text[0] == 'f' && text[1] == 'a' && text[2] == 'l' && text[3] == 's'
                        && text[4] == 'e');
                }
                crate::reader::lemma_lex_ident(text);
                assert(!crate::numtext::atom_is_number(text));
                assert(text[0] != ':');
                assert(text != "true"@);
            }
        },
        MalV::Nil => {
            assert(text == "nil"@);
            assert(text.len() == 3);
            assert forall|i: int| 0 <= i < text.len() implies !crate::reader::is_special_c(
                #[trigger] text[i],
            ) by {
                assert(text[0] == 'n' && text[1] == 'i' && text[2] == 'l');
            }
            crate::reader::lemma_lex_ident(text);
            assert(!crate::numtext::atom_is_number(text));
            assert(text[0] != ':');
            assert(text != "true"@ && text != "false"@);
        },
        MalV::Str(s) => {
            let esc = crate::printer::escape_str_v(s);
            assert(text == seq!['"'] + esc + seq!['"']);
            crate::printer::lemma_escape_len(s);
            assert(text[0] == '"');
            assert(!crate::reader::is_ws_c('"'));
            assert(crate::reader::skip_ws(text, 0) == 0);
            assert(text.subrange(1, text.len() as int) =~= esc + seq!['"']);
            crate::reader::lemma_scan_escaped(text, 1, s);
        },
        _ => {},
    }
}

} // verus!
