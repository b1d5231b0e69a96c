//! The builtin function library: arithmetic, comparisons, collection
//! queries, structural equality, and the printing primitives, plus the
//! root environment they are registered into.

use vstd::prelude::*;
use vstd::wrapping::i64_specs;
use crate::env::Env;
use crate::errors::{ErrV, MalError};
use crate::printer::print_v;
use crate::types::{
    mal_equal, mal_equal_v, native_name_v, type_err_v, view_mal_seq, FuncV, Mal, MalList, MalV,
    Native, lemma_view_mal_seq_len, lemma_view_mal_seq_index,
};

verus! {

broadcast use vstd::string::group_string_axioms;

// ------------------------------------------------------------------
// What each builtin computes.
// ------------------------------------------------------------------

/// Division truncated toward zero, as the host integer division does.
pub open spec fn div_trunc(a: int, b: int) -> int {
    let q = abs_int(a) / abs_int(b);
    if (a >= 0) == (b >= 0) {
        q
    } else {
        -q
    }
}

pub open spec fn abs_int(a: int) -> int {
    if a >= 0 {
        a
    } else {
        -a
    }
}

/// The arity fault of a builtin that wants at least two arguments.
pub open spec fn arity2_err_v(n: Native, got: nat) -> ErrV {
    ErrV::Arity(native_name_v(n), 2, true, got)
}

/// The arity fault of a builtin that wants exactly one argument.
pub open spec fn arity1_err_v(n: Native, got: nat) -> ErrV {
    ErrV::Arity(native_name_v(n), 1, false, got)
}

/// Folds wrapping addition over the arguments from `i`.
pub open spec fn fold_add_v(args: Seq<MalV>, i: int, acc: i64) -> Result<i64, ErrV>
    decreases args.len() - i,
{
    if 0 <= i < args.len() {
        match args[i] {
            MalV::Num(n) => fold_add_v(args, i + 1, i64_specs::wrapping_add(acc, n)),
            other => Result::Err(type_err_v("number"@, other)),
        }
    } else {
        Result::Ok(acc)
    }
}

/// Folds wrapping subtraction over the arguments from `i`.
pub open spec fn fold_sub_v(args: Seq<MalV>, i: int, acc: i64) -> Result<i64, ErrV>
    decreases args.len() - i,
{
    if 0 <= i < args.len() {
        match args[i] {
            MalV::Num(n) => fold_sub_v(args, i + 1, i64_specs::wrapping_sub(acc, n)),
            other => Result::Err(type_err_v("number"@, other)),
        }
    } else {
        Result::Ok(acc)
    }
}

/// Folds wrapping multiplication over the arguments from `i`.
pub open spec fn fold_mul_v(args: Seq<MalV>, i: int, acc: i64) -> Result<i64, ErrV>
    decreases args.len() - i,
{
    if 0 <= i < args.len() {
        match args[i] {
            MalV::Num(n) => fold_mul_v(args, i + 1, i64_specs::wrapping_mul(acc, n)),
            other => Result::Err(type_err_v("number"@, other)),
        }
    } else {
        Result::Ok(acc)
    }
}

/// Folds truncating division over the arguments from `i`; a zero
/// divisor is a typed fault.
pub open spec fn fold_div_v(args: Seq<MalV>, i: int, acc: i64) -> Result<i64, ErrV>
    decreases args.len() - i,
{
    if 0 <= i < args.len() {
        match args[i] {
            MalV::Num(n) => if n == 0 {
                Result::Err(ErrV::DivisionByZero)
            } else {
                fold_div_v(args, i + 1, i64_specs::signed_crop(div_trunc(acc as int, n as int)))
            },
            other => Result::Err(type_err_v("number"@, other)),
        }
    } else {
        Result::Ok(acc)
    }
}

/// Whether one comparison step holds.
pub open spec fn cmp_holds(n: Native, a: i64, b: i64) -> bool {
    match n {
        Native::Lt => a < b,
        Native::Le => a <= b,
        Native::Gt => a > b,
        Native::Ge => a >= b,
        _ => false,
    }
}

/// Chains a comparison from `i` on; the chain stops with `false` at the
/// first failing step, without looking at what follows.
pub open spec fn fold_cmp_v(n: Native, args: Seq<MalV>, i: int, prev: i64) -> Result<bool, ErrV>
    decreases args.len() - i,
{
    if 0 <= i < args.len() {
        match args[i] {
            MalV::Num(t) => if !cmp_holds(n, prev, t) {
                Result::Ok(false)
            } else {
                fold_cmp_v(n, args, i + 1, t)
            },
            other => Result::Err(type_err_v("number"@, other)),
        }
    } else {
        Result::Ok(true)
    }
}

/// Whether every remaining argument equals the first one.
pub open spec fn all_equal_first_v(args: Seq<MalV>) -> bool {
    forall|i: int| 1 <= i < args.len() ==> mal_equal_v(#[trigger] args[i], args[0])
}

/// The space-or-nothing-separated printout of all arguments.
pub open spec fn print_join_v(args: Seq<MalV>, i: int, readable: bool, spaced: bool) -> Seq<char>
    decreases args.len() - i,
{
    if 0 <= i < args.len() {
        (if i > 0 && spaced {
            seq![' ']
        } else {
            Seq::empty()
        }) + print_v(args[i], readable) + print_join_v(args, i + 1, readable, spaced)
    } else {
        Seq::empty()
    }
}

/// What a builtin returns and prints, for every argument sequence.
pub open spec fn native_apply_v(n: Native, args: Seq<MalV>) -> (Result<MalV, ErrV>, Seq<
    Seq<char>,
>) {
    let silent = Seq::<Seq<char>>::empty();
    match n {
        Native::Add => if args.len() < 2 {
            (Result::Err(arity2_err_v(n, args.len())), silent)
        } else {
            match fold_add_v(args, 0, 0) {
                Result::Ok(v) => (Result::Ok(MalV::Num(v)), silent),
                Result::Err(e) => (Result::Err(e), silent),
            }
        },
        Native::Sub => if args.len() < 2 {
            (Result::Err(arity2_err_v(n, args.len())), silent)
        } else {
            match args[0] {
                MalV::Num(first) => match fold_sub_v(args, 1, first) {
                    Result::Ok(v) => (Result::Ok(MalV::Num(v)), silent),
                    Result::Err(e) => (Result::Err(e), silent),
                },
                other => (Result::Err(type_err_v("number"@, other)), silent),
            }
        },
        Native::Mul => if args.len() < 2 {
            (Result::Err(arity2_err_v(n, args.len())), silent)
        } else {
            match args[0] {
                MalV::Num(first) => match fold_mul_v(args, 1, first) {
                    Result::Ok(v) => (Result::Ok(MalV::Num(v)), silent),
                    Result::Err(e) => (Result::Err(e), silent),
                },
                other => (Result::Err(type_err_v("number"@, other)), silent),
            }
        },
        Native::Div => if args.len() < 2 {
            (Result::Err(arity2_err_v(n, args.len())), silent)
        } else {
            match args[0] {
                MalV::Num(first) => match fold_div_v(args, 1, first) {
                    Result::Ok(v) => (Result::Ok(MalV::Num(v)), silent),
                    Result::Err(e) => (Result::Err(e), silent),
                },
                other => (Result::Err(type_err_v("number"@, other)), silent),
            }
        },
        Native::Lt | Native::Le | Native::Gt | Native::Ge => if args.len() < 2 {
            (Result::Err(arity2_err_v(n, args.len())), silent)
        } else {
            match args[0] {
                MalV::Num(first) => match fold_cmp_v(n, args, 1, first) {
                    Result::Ok(b) => (Result::Ok(MalV::Bool(b)), silent),
                    Result::Err(e) => (Result::Err(e), silent),
                },
                other => (Result::Err(type_err_v("number"@, other)), silent),
            }
        },
        Native::Equal => if args.len() < 2 {
            (Result::Err(arity2_err_v(n, args.len())), silent)
        } else {
            (Result::Ok(MalV::Bool(all_equal_first_v(args))), silent)
        },
        Native::ListFn => (Result::Ok(MalV::List(args)), silent),
        Native::ListP => if args.len() != 1 {
            (Result::Err(arity1_err_v(n, args.len())), silent)
        } else {
            (Result::Ok(MalV::Bool(args[0] is List)), silent)
        },
        Native::EmptyP => if args.len() != 1 {
            (Result::Err(arity1_err_v(n, args.len())), silent)
        } else {
            match args[0] {
                MalV::List(items) => (Result::Ok(MalV::Bool(items.len() == 0)), silent),
                MalV::Arr(items) => (Result::Ok(MalV::Bool(items.len() == 0)), silent),
                MalV::Dict(entries) => (Result::Ok(MalV::Bool(entries.len() == 0)), silent),
                other => (Result::Err(type_err_v("collection"@, other)), silent),
            }
        },
        Native::Count => if args.len() != 1 {
            (Result::Err(arity1_err_v(n, args.len())), silent)
        } else {
            match args[0] {
                MalV::List(items) => (Result::Ok(MalV::Num(items.len() as i64)), silent),
                MalV::Arr(items) => (Result::Ok(MalV::Num(items.len() as i64)), silent),
                MalV::Dict(entries) => (Result::Ok(MalV::Num(entries.len() as i64)), silent),
                MalV::Nil => (Result::Ok(MalV::Num(0)), silent),
                other => (Result::Err(type_err_v("collection or nil"@, other)), silent),
            }
        },
        Native::PrStr => (Result::Ok(MalV::Str(print_join_v(args, 0, true, true))), silent),
        Native::StrFn => (Result::Ok(MalV::Str(print_join_v(args, 0, false, false))), silent),
        Native::Prn => (Result::Ok(MalV::Nil), seq![print_join_v(args, 0, true, true)]),
        Native::PrintLn => (Result::Ok(MalV::Nil), seq![print_join_v(args, 0, false, false)]),
    }
}

} // verus!

verus! {

// ------------------------------------------------------------------
// The executable builtins.
// ------------------------------------------------------------------

/// Appends one output line.
fn push_line(out: &mut Vec<String>, s: String)
    ensures
        final(out).deep_view() == old(out).deep_view() + seq![s@],
{
    let ghost pre = out.deep_view();
    out.push(s);
    proof {
        assert(out.deep_view() =~= pre + seq![s@]);
    }
}

/// Truncating division on the host integers.
fn div_step(a: i64, b: i64) -> (r: i64)
    requires
        b != 0,
    ensures
        r == i64_specs::signed_crop(div_trunc(a as int, b as int)),
{
    let mag_a: u64 = if a < 0 {
        ((-(a + 1)) as u64) + 1
    } else {
        a as u64
    };
    let mag_b: u64 = if b < 0 {
        ((-(b + 1)) as u64) + 1
    } else {
        b as u64
    };
    let q: u64 = mag_a / mag_b;
    proof {
        assert(mag_a == abs_int(a as int) && mag_b == abs_int(b as int));
        assert(q == abs_int(a as int) / abs_int(b as int));
        assert(q <= mag_a) by (nonlinear_arith)
            requires
                q == mag_a as int / mag_b as int,
                mag_b >= 1,
                mag_a >= 0,
        ;
    }
    if (a < 0) == (b < 0) {
        // the quotient is nonnegative; it overflows only for
        // MIN / -1, which wraps back to MIN
        if q == 9223372036854775808u64 {
            i64::MIN
        } else {
            q as i64
        }
    } else {
        if q == 9223372036854775808u64 {
            i64::MIN
        } else {
            -(q as i64)
        }
    }
}

/// Runs a builtin on evaluated arguments; printing builtins append
/// their line to `out`.
pub fn apply_native(n: Native, args: &Vec<Mal>, out: &mut Vec<String>) -> (r: Result<
    Mal,
    MalError,
>)
    ensures
        ({
            let (sr, emitted) = native_apply_v(n, view_mal_seq(args@));
            &&& final(out).deep_view() == old(out).deep_view() + emitted
            &&& match r {
                Ok(m) => sr == Result::<MalV, ErrV>::Ok(m@),
                Err(e) => sr == Result::<MalV, ErrV>::Err(e@),
            }
        }),
{
    proof {
        lemma_view_mal_seq_len(args@);
    }
    let ghost argsv = view_mal_seq(args@);
    match n {
        Native::Add => {
            if args.len() < 2 {
                return Err(arity_err(n, 2, true, args.len()));
            }
            match fold_arith(n, args, 0, 0) {
                Ok(v) => Ok(Mal::Num(v)),
                Err(e) => Err(e),
            }
        },
        Native::Sub | Native::Mul | Native::Div => {
            if args.len() < 2 {
                return Err(arity_err(n, 2, true, args.len()));
            }
            proof {
                lemma_view_mal_seq_index(args@, 0);
            }
            let first = match &args[0] {
                Mal::Num(x) => *x,
                other => {
                    return Err(conv_num_err(other));
                },
            };
            match fold_arith(n, args, 1, first) {
                Ok(v) => Ok(Mal::Num(v)),
                Err(e) => Err(e),
            }
        },
        Native::Lt | Native::Le | Native::Gt | Native::Ge => {
            if args.len() < 2 {
                return Err(arity_err(n, 2, true, args.len()));
            }
            proof {
                lemma_view_mal_seq_index(args@, 0);
            }
            let first = match &args[0] {
                Mal::Num(x) => *x,
                other => {
                    return Err(conv_num_err(other));
                },
            };
            match fold_cmp(n, args, 1, first) {
                Ok(b) => Ok(Mal::Bool(b)),
                Err(e) => Err(e),
            }
        },
        Native::Equal => {
            if args.len() < 2 {
                return Err(arity_err(n, 2, true, args.len()));
            }
            let mut i: usize = 1;
            let mut all = true;
            while i < args.len()
                invariant
                    1 <= i <= args@.len(),
                    argsv == view_mal_seq(args@),
                    argsv.len() == args@.len(),
                    all == (forall|j: int| 1 <= j < i ==> mal_equal_v(#[trigger] argsv[j], argsv[0])),
                decreases args@.len() - i,
            {
                proof {
                    lemma_view_mal_seq_index(args@, 0);
                    lemma_view_mal_seq_index(args@, i as int);
                }
                if !mal_equal(&args[i], &args[0]) {
                    all = false;
                }
                i = i + 1;
            }
            Ok(Mal::Bool(all))
        },
        Native::ListFn => {
            let items = crate::types::clone_mal_vec(args);
            Ok(Mal::List(MalList { items }))
        },
        Native::ListP => {
            if args.len() != 1 {
                return Err(arity_err(n, 1, false, args.len()));
            }
            proof {
                lemma_view_mal_seq_index(args@, 0);
            }
            let is_list = match &args[0] {
                Mal::List(_) => true,
                _ => false,
            };
            Ok(Mal::Bool(is_list))
        },
        Native::EmptyP => {
            if args.len() != 1 {
                return Err(arity_err(n, 1, false, args.len()));
            }
            proof {
                lemma_view_mal_seq_index(args@, 0);
                lemma_view_mal_seq_len(match args@[0] {
                    Mal::List(ref l) => l.items@,
                    Mal::Arr(ref a) => a.items@,
                    _ => Seq::empty(),
                });
                crate::types::lemma_view_entry_seq_len(match args@[0] {
                    Mal::Dict(ref d) => d.entries@,
                    _ => Seq::empty(),
                });
            }
            match &args[0] {
                Mal::List(l) => Ok(Mal::Bool(l.items.len() == 0)),
                Mal::Arr(a) => Ok(Mal::Bool(a.items.len() == 0)),
                Mal::Dict(d) => Ok(Mal::Bool(d.entries.len() == 0)),
                other => Err(MalError::Type {
                    expected: String::from_str("collection"),
                    got: String::from_str(other.kind_name()),
                }),
            }
        },
        Native::Count => {
            if args.len() != 1 {
                return Err(arity_err(n, 1, false, args.len()));
            }
            proof {
                lemma_view_mal_seq_index(args@, 0);
                lemma_view_mal_seq_len(match args@[0] {
                    Mal::List(ref l) => l.items@,
                    Mal::Arr(ref a) => a.items@,
                    _ => Seq::empty(),
                });
                crate::types::lemma_view_entry_seq_len(match args@[0] {
                    Mal::Dict(ref d) => d.entries@,
                    _ => Seq::empty(),
                });
            }
            match &args[0] {
                Mal::List(l) => Ok(Mal::Num(#[verifier::truncate] (l.items.len() as i64))),
                Mal::Arr(a) => Ok(Mal::Num(#[verifier::truncate] (a.items.len() as i64))),
                Mal::Dict(d) => Ok(Mal::Num(#[verifier::truncate] (d.entries.len() as i64))),
                Mal::Nil => Ok(Mal::Num(0)),
                other => Err(MalError::Type {
                    expected: String::from_str("collection or nil"),
                    got: String::from_str(other.kind_name()),
                }),
            }
        },
        Native::PrStr => Ok(Mal::Str(print_join(args, true, true))),
        Native::StrFn => Ok(Mal::Str(print_join(args, false, false))),
        Native::Prn => {
            push_line(out, print_join(args, true, true));
            Ok(Mal::Nil)
        },
        Native::PrintLn => {
            push_line(out, print_join(args, false, false));
            Ok(Mal::Nil)
        },
    }
}

/// The arity fault of a builtin.
fn arity_err(n: Native, expected: usize, at_least: bool, got: usize) -> (e: MalError)
    ensures
        e@ == ErrV::Arity(native_name_v(n), expected as nat, at_least, got as nat),
{
    MalError::Arity {
        name: String::from_str(crate::types::native_name(n)),
        expected,
        at_least,
        got,
    }
}

/// The typed fault of an argument that should have been a number.
fn conv_num_err(other: &Mal) -> (e: MalError)
    ensures
        e@ == type_err_v("number"@, other@),
{
    MalError::Type {
        expected: String::from_str("number"),
        got: String::from_str(other.kind_name()),
    }
}

/// Folds one arithmetic builtin over the arguments from `i`.
fn fold_arith(n: Native, args: &Vec<Mal>, start: usize, init: i64) -> (r: Result<i64, MalError>)
    requires
        start <= args@.len(),
        n == Native::Add || n == Native::Sub || n == Native::Mul || n == Native::Div,
    ensures
        ({
            let sr = match n {
                Native::Add => fold_add_v(view_mal_seq(args@), start as int, init),
                Native::Sub => fold_sub_v(view_mal_seq(args@), start as int, init),
                Native::Mul => fold_mul_v(view_mal_seq(args@), start as int, init),
                _ => fold_div_v(view_mal_seq(args@), start as int, init),
            };
            match r {
                Ok(v) => sr == Result::<i64, ErrV>::Ok(v),
                Err(e) => sr == Result::<i64, ErrV>::Err(e@),
            }
        }),
{
    proof {
        lemma_view_mal_seq_len(args@);
    }
    let ghost argsv = view_mal_seq(args@);
    let mut acc = init;
    let mut i: usize = start;
    while i < args.len()
        invariant
            start <= i <= args@.len(),
            argsv == view_mal_seq(args@),
            argsv.len() == args@.len(),
            n == Native::Add || n == Native::Sub || n == Native::Mul || n == Native::Div,
            match n {
                Native::Add => fold_add_v(argsv, i as int, acc) == fold_add_v(
                    argsv,
                    start as int,
                    init,
                ),
                Native::Sub => fold_sub_v(argsv, i as int, acc) == fold_sub_v(
                    argsv,
                    start as int,
                    init,
                ),
                Native::Mul => fold_mul_v(argsv, i as int, acc) == fold_mul_v(
                    argsv,
                    start as int,
                    init,
                ),
                _ => fold_div_v(argsv, i as int, acc) == fold_div_v(argsv, start as int, init),
            },
        decreases args@.len() - i,
    {
        proof {
            lemma_view_mal_seq_index(args@, i as int);
        }
        let x = match &args[i] {
            Mal::Num(x) => *x,
            other => {
                return Err(conv_num_err(other));
            },
        };
        match n {
            Native::Add => {
                acc = acc.wrapping_add(x);
            },
            Native::Sub => {
                acc = acc.wrapping_sub(x);
            },
            Native::Mul => {
                acc = acc.wrapping_mul(x);
            },
            _ => {
                if x == 0 {
                    return Err(MalError::DivisionByZero);
                }
                acc = div_step(acc, x);
            },
        }
        i = i + 1;
    }
    Ok(acc)
}

/// Chains one comparison builtin over the arguments from `i`.
fn fold_cmp(n: Native, args: &Vec<Mal>, start: usize, init: i64) -> (r: Result<bool, MalError>)
    requires
        start <= args@.len(),
        n == Native::Lt || n == Native::Le || n == Native::Gt || n == Native::Ge,
    ensures
        ({
            let sr = fold_cmp_v(n, view_mal_seq(args@), start as int, init);
            match r {
                Ok(v) => sr == Result::<bool, ErrV>::Ok(v),
                Err(e) => sr == Result::<bool, ErrV>::Err(e@),
            }
        }),
{
    proof {
        lemma_view_mal_seq_len(args@);
    }
    let ghost argsv = view_mal_seq(args@);
    let mut prev = init;
    let mut i: usize = start;
    while i < args.len()
        invariant
            start <= i <= args@.len(),
            argsv == view_mal_seq(args@),
            argsv.len() == args@.len(),
            n == Native::Lt || n == Native::Le || n == Native::Gt || n == Native::Ge,
            fold_cmp_v(n, argsv, i as int, prev) == fold_cmp_v(n, argsv, start as int, init),
        decreases args@.len() - i,
    {
        proof {
            lemma_view_mal_seq_index(args@, i as int);
        }
        let t = match &args[i] {
            Mal::Num(x) => *x,
            other => {
                return Err(conv_num_err(other));
            },
        };
        let holds = match n {
            Native::Lt => prev < t,
            Native::Le => prev <= t,
            Native::Gt => prev > t,
            _ => prev >= t,
        };
        if !holds {
            return Ok(false);
        }
        prev = t;
        i = i + 1;
    }
    Ok(true)
}

/// Prints all arguments into one line, space separated or not.
fn print_join(args: &Vec<Mal>, readable: bool, spaced: bool) -> (r: String)
    ensures
        r@ == print_join_v(view_mal_seq(args@), 0, readable, spaced),
{
    proof {
        lemma_view_mal_seq_len(args@);
    }
    let ghost argsv = view_mal_seq(args@);
    let mut buf: Vec<char> = Vec::new();
    let mut i: usize = 0;
    while i < args.len()
        invariant
            i <= args@.len(),
            argsv == view_mal_seq(args@),
            argsv.len() == args@.len(),
            buf@ + print_join_v(argsv, i as int, readable, spaced) == print_join_v(
                argsv,
                0,
                readable,
                spaced,
            ),
        decreases args@.len() - i,
    {
        proof {
            lemma_view_mal_seq_index(args@, i as int);
        }
        if i > 0 && spaced {
            buf.push(' ');
        }
        crate::printer::push_print(&args[i], &mut buf, readable);
        proof {
            assert(buf@ + print_join_v(argsv, i + 1, readable, spaced) =~= print_join_v(
                argsv,
                0,
                readable,
                spaced,
            ));
        }
        i = i + 1;
    }
    proof {
        assert(buf@ =~= print_join_v(argsv, 0, readable, spaced));
    }
    crate::types::chars_to_string(&buf)
}

} // verus!

verus! {

/// The root environment's bindings: each builtin under its name.
pub open spec fn core_env_v() -> crate::types::EnvV {
    crate::types::EnvV {
        map: seq![
            ("+"@, MalV::Func(FuncV::Native(Native::Add))),
            ("-"@, MalV::Func(FuncV::Native(Native::Sub))),
            ("*"@, MalV::Func(FuncV::Native(Native::Mul))),
            ("/"@, MalV::Func(FuncV::Native(Native::Div))),
            ("list"@, MalV::Func(FuncV::Native(Native::ListFn))),
            ("list?"@, MalV::Func(FuncV::Native(Native::ListP))),
            ("empty?"@, MalV::Func(FuncV::Native(Native::EmptyP))),
            ("count"@, MalV::Func(FuncV::Native(Native::Count))),
            ("="@, MalV::Func(FuncV::Native(Native::Equal))),
            ("<"@, MalV::Func(FuncV::Native(Native::Lt))),
            ("<="@, MalV::Func(FuncV::Native(Native::Le))),
            (">"@, MalV::Func(FuncV::Native(Native::Gt))),
            (">="@, MalV::Func(FuncV::Native(Native::Ge))),
            ("pr-str"@, MalV::Func(FuncV::Native(Native::PrStr))),
            ("str"@, MalV::Func(FuncV::Native(Native::StrFn))),
            ("prn"@, MalV::Func(FuncV::Native(Native::Prn))),
            ("println"@, MalV::Func(FuncV::Native(Native::PrintLn))),
        ],
        history: Seq::empty(),
    }
}

/// Installs one builtin; the names registered here are pairwise
/// distinct, so registration cannot fail.
fn install(env: &mut Env, name: &str, func: Native)
    requires
        crate::env::lookup_v(old(env)@.map, name@) is None,
    ensures
        final(env)@.map == old(env)@.map.push(
            (name@, MalV::Func(FuncV::Native(func))),
        ),
        final(env)@.history == old(env)@.history,
{
    match env.add_native_func(name, func) {
        Ok(_) => {},
        Err(_) => {
            proof {
                assert(false);
            }
        },
    }
}

/// The root environment, with the whole builtin library registered.
pub fn core_env() -> (r: Env)
    ensures
        r@ == core_env_v(),
{
    let mut env = Env::new();
    proof {
        reveal_strlit("+");
        reveal_strlit("-");
        reveal_strlit("*");
        reveal_strlit("/");
        reveal_strlit("list");
        reveal_strlit("list?");
        reveal_strlit("empty?");
        reveal_strlit("count");
        reveal_strlit("=");
        reveal_strlit("<");
        reveal_strlit("<=");
        reveal_strlit(">");
        reveal_strlit(">=");
        reveal_strlit("pr-str");
        reveal_strlit("str");
        reveal_strlit("prn");
        reveal_strlit("println");
        reveal_with_fuel(crate::env::lookup_from_v, 20);
        assert(env@.map.len() == 0);
        assert("+"@.len() == 1);
        assert("+"@[0] == '+');
        assert(crate::env::lookup_from_v(env@.map, "+"@, 0) is None);
        assert(crate::env::lookup_v(env@.map, "+"@) is None);
    }
    install(&mut env, "+", Native::Add);
    proof {
        reveal_strlit("+");
        reveal_strlit("-");
        reveal_strlit("*");
        reveal_strlit("/");
        reveal_strlit("list");
        reveal_strlit("list?");
        reveal_strlit("empty?");
        reveal_strlit("count");
        reveal_strlit("=");
        reveal_strlit("<");
        reveal_strlit("<=");
        reveal_strlit(">");
        reveal_strlit(">=");
        reveal_strlit("pr-str");
        reveal_strlit("str");
        reveal_strlit("prn");
        reveal_strlit("println");
        reveal_with_fuel(crate::env::lookup_from_v, 20);
        assert(env@.map.len() == 1);
        assert(env@.map[0].0 == "+"@);
        assert("-"@.len() == 1);
        assert("-"@[0] == '-');
        assert("+"@.len() == 1);
        assert("+"@[0] == '+');
        assert(crate::env::lookup_from_v(env@.map, "-"@, 1) is None);
        assert(crate::env::lookup_from_v(env@.map, "-"@, 0) is None);
        assert(crate::env::lookup_v(env@.map, "-"@) is None);
    }
    install(&mut env, "-", Native::Sub);
    proof {
        reveal_strlit("+");
        reveal_strlit("-");
        reveal_strlit("*");
        reveal_strlit("/");
        reveal_strlit("list");
        reveal_strlit("list?");
        reveal_strlit("empty?");
        reveal_strlit("count");
        reveal_strlit("=");
        reveal_strlit("<");
        reveal_strlit("<=");
        reveal_strlit(">");
        reveal_strlit(">=");
        reveal_strlit("pr-str");
        reveal_strlit("str");
        reveal_strlit("prn");
        reveal_strlit("println");
        reveal_with_fuel(crate::env::lookup_from_v, 20);
        assert(env@.map.len() == 2);
        assert(env@.map[0].0 == "+"@);
        assert(env@.map[1].0 == "-"@);
        assert("*"@.len() == 1);
        assert("*"@[0] == '*');
        assert("+"@.len() == 1);
        assert("+"@[0] == '+');
        assert("-"@.len() == 1);
        assert("-"@[0] == '-');
        assert(crate::env::lookup_from_v(env@.map, "*"@, 2) is None);
        assert(crate::env::lookup_from_v(env@.map, "*"@, 1) is None);
        assert(crate::env::lookup_from_v(env@.map, "*"@, 0) is None);
        assert(crate::env::lookup_v(env@.map, "*"@) is None);
    }
    install(&mut env, "*", Native::Mul);
    proof {
        reveal_strlit("+");
        reveal_strlit("-");
        reveal_strlit("*");
        reveal_strlit("/");
        reveal_strlit("list");
        reveal_strlit("list?");
        reveal_strlit("empty?");
        reveal_strlit("count");
        reveal_strlit("=");
        reveal_strlit("<");
        reveal_strlit("<=");
        reveal_strlit(">");
        reveal_strlit(">=");
        reveal_strlit("pr-str");
        reveal_strlit("str");
        reveal_strlit("prn");
        reveal_strlit("println");
        reveal_with_fuel(crate::env::lookup_from_v, 20);
        assert(env@.map.len() == 3);
        assert(env@.map[0].0 == "+"@);
        assert(env@.map[1].0 == "-"@);
        assert(env@.map[2].0 == "*"@);
        assert("/"@.len() == 1);
        assert("/"@[0] == '/');
        assert("+"@.len() == 1);
        assert("+"@[0] == '+');
        assert("-"@.len() == 1);
        assert("-"@[0] == '-');
        assert("*"@.len() == 1);
        assert("*"@[0] == '*');
        assert(crate::env::lookup_from_v(env@.map, "/"@, 3) is None);
        assert(crate::env::lookup_from_v(env@.map, "/"@, 2) is None);
        assert(crate::env::lookup_from_v(env@.map, "/"@, 1) is None);
        assert(crate::env::lookup_from_v(env@.map, "/"@, 0) is None);
        assert(crate::env::lookup_v(env@.map, "/"@) is None);
    }
    install(&mut env, "/", Native::Div);
    proof {
        reveal_strlit("+");
        reveal_strlit("-");
        reveal_strlit("*");
        reveal_strlit("/");
        reveal_strlit("list");
        reveal_strlit("list?");
        reveal_strlit("empty?");
        reveal_strlit("count");
        reveal_strlit("=");
        reveal_strlit("<");
        reveal_strlit("<=");
        reveal_strlit(">");
        reveal_strlit(">=");
        reveal_strlit("pr-str");
        reveal_strlit("str");
        reveal_strlit("prn");
        reveal_strlit("println");
        reveal_with_fuel(crate::env::lookup_from_v, 20);
        assert(env@.map.len() == 4);
        assert(env@.map[0].0 == "+"@);
        assert(env@.map[1].0 == "-"@);
        assert(env@.map[2].0 == "*"@);
        assert(env@.map[3].0 == "/"@);
        assert("list"@.len() == 4);
        assert("list"@[0] == 'l');
        assert("list"@[1] == 'i');
        assert("list"@[2] == 's');
        assert("list"@[3] == 't');
        assert(crate::env::lookup_from_v(env@.map, "list"@, 4) is None);
        assert(crate::env::lookup_from_v(env@.map, "list"@, 3) is None);
        assert(crate::env::lookup_from_v(env@.map, "list"@, 2) is None);
        assert(crate::env::lookup_from_v(env@.map, "list"@, 1) is None);
        assert(crate::env::lookup_from_v(env@.map, "list"@, 0) is None);
        assert(crate::env::lookup_v(env@.map, "list"@) is None);
    }
    install(&mut env, "list", Native::ListFn);
    proof {
        reveal_strlit("+");
        reveal_strlit("-");
        reveal_strlit("*");
        reveal_strlit("/");
        reveal_strlit("list");
        reveal_strlit("list?");
        reveal_strlit("empty?");
        reveal_strlit("count");
        reveal_strlit("=");
        reveal_strlit("<");
        reveal_strlit("<=");
        reveal_strlit(">");
        reveal_strlit(">=");
        reveal_strlit("pr-str");
        reveal_strlit("str");
        reveal_strlit("prn");
        reveal_strlit("println");
        reveal_with_fuel(crate::env::lookup_from_v, 20);
        assert(env@.map.len() == 5);
        assert(env@.map[0].0 == "+"@);
        assert(env@.map[1].0 == "-"@);
        assert(env@.map[2].0 == "*"@);
        assert(env@.map[3].0 == "/"@);
        assert(env@.map[4].0 == "list"@);
        assert("list?"@.len() == 5);
        assert("list?"@[0] == 'l');
        assert("list?"@[1] == 'i');
        assert("list?"@[2] == 's');
        assert("list?"@[3] == 't');
        assert("list?"@[4] == '?');
        assert(crate::env::lookup_from_v(env@.map, "list?"@, 5) is None);
        assert(crate::env::lookup_from_v(env@.map, "list?"@, 4) is None);
        assert(crate::env::lookup_from_v(env@.map, "list?"@, 3) is None);
        assert(crate::env::lookup_from_v(env@.map, "list?"@, 2) is None);
        assert(crate::env::lookup_from_v(env@.map, "list?"@, 1) is None);
        assert(crate::env::lookup_from_v(env@.map, "list?"@, 0) is None);
        assert(crate::env::lookup_v(env@.map, "list?"@) is None);
    }
    install(&mut env, "list?", Native::ListP);
    proof {
        reveal_strlit("+");
        reveal_strlit("-");
        reveal_strlit("*");
        reveal_strlit("/");
        reveal_strlit("list");
        reveal_strlit("list?");
        reveal_strlit("empty?");
        reveal_strlit("count");
        reveal_strlit("=");
        reveal_strlit("<");
        reveal_strlit("<=");
        reveal_strlit(">");
        reveal_strlit(">=");
        reveal_strlit("pr-str");
        reveal_strlit("str");
        reveal_strlit("prn");
        reveal_strlit("println");
        reveal_with_fuel(crate::env::lookup_from_v, 20);
        assert(env@.map.len() == 6);
        assert(env@.map[0].0 == "+"@);
        assert(env@.map[1].0 == "-"@);
        assert(env@.map[2].0 == "*"@);
        assert(env@.map[3].0 == "/"@);
        assert(env@.map[4].0 == "list"@);
        assert(env@.map[5].0 == "list?"@);
        assert("empty?"@.len() == 6);
        assert("empty?"@[0] == 'e');
        assert("empty?"@[1] == 'm');
        assert("empty?"@[2] == 'p');
        assert("empty?"@[3] == 't');
        assert("empty?"@[4] == 'y');
        assert("empty?"@[5] == '?');
        assert(crate::env::lookup_from_v(env@.map, "empty?"@, 6) is None);
        assert(crate::env::lookup_from_v(env@.map, "empty?"@, 5) is None);
        assert(crate::env::lookup_from_v(env@.map, "empty?"@, 4) is None);
        assert(crate::env::lookup_from_v(env@.map, "empty?"@, 3) is None);
        assert(crate::env::lookup_from_v(env@.map, "empty?"@, 2) is None);
        assert(crate::env::lookup_from_v(env@.map, "empty?"@, 1) is None);
        assert(crate::env::lookup_from_v(env@.map, "empty?"@, 0) is None);
        assert(crate::env::lookup_v(env@.map, "empty?"@) is None);
    }
    install(&mut env, "empty?", Native::EmptyP);
    proof {
        reveal_strlit("+");
        reveal_strlit("-");
        reveal_strlit("*");
        reveal_strlit("/");
        reveal_strlit("list");
        reveal_strlit("list?");
        reveal_strlit("empty?");
        reveal_strlit("count");
        reveal_strlit("=");
        reveal_strlit("<");
        reveal_strlit("<=");
        reveal_strlit(">");
        reveal_strlit(">=");
        reveal_strlit("pr-str");
        reveal_strlit("str");
        reveal_strlit("prn");
        reveal_strlit("println");
        reveal_with_fuel(crate::env::lookup_from_v, 20);
        assert(env@.map.len() == 7);
        assert(env@.map[0].0 == "+"@);
        assert(env@.map[1].0 == "-"@);
        assert(env@.map[2].0 == "*"@);
        assert(env@.map[3].0 == "/"@);
        assert(env@.map[4].0 == "list"@);
        assert(env@.map[5].0 == "list?"@);
        assert(env@.map[6].0 == "empty?"@);
        assert("count"@.len() == 5);
        assert("count"@[0] == 'c');
        assert("count"@[1] == 'o');
        assert("count"@[2] == 'u');
        assert("count"@[3] == 'n');
        assert("count"@[4] == 't');
        assert("list?"@.len() == 5);
        assert("list?"@[0] == 'l');
        assert("list?"@[1] == 'i');
        assert("list?"@[2] == 's');
        assert("list?"@[3] == 't');
        assert("list?"@[4] == '?');
        assert(crate::env::lookup_from_v(env@.map, "count"@, 7) is None);
        assert(crate::env::lookup_from_v(env@.map, "count"@, 6) is None);
        assert(crate::env::lookup_from_v(env@.map, "count"@, 5) is None);
        assert(crate::env::lookup_from_v(env@.map, "count"@, 4) is None);
        assert(crate::env::lookup_from_v(env@.map, "count"@, 3) is None);
        assert(crate::env::lookup_from_v(env@.map, "count"@, 2) is None);
        assert(crate::env::lookup_from_v(env@.map, "count"@, 1) is None);
        assert(crate::env::lookup_from_v(env@.map, "count"@, 0) is None);
        assert(crate::env::lookup_v(env@.map, "count"@) is None);
    }
    install(&mut env, "count", Native::Count);
    proof {
        reveal_strlit("+");
        reveal_strlit("-");
        reveal_strlit("*");
        reveal_strlit("/");
        reveal_strlit("list");
        reveal_strlit("list?");
        reveal_strlit("empty?");
        reveal_strlit("count");
        reveal_strlit("=");
        reveal_strlit("<");
        reveal_strlit("<=");
        reveal_strlit(">");
        reveal_strlit(">=");
        reveal_strlit("pr-str");
        reveal_strlit("str");
        reveal_strlit("prn");
        reveal_strlit("println");
        reveal_with_fuel(crate::env::lookup_from_v, 20);
        assert(env@.map.len() == 8);
        assert(env@.map[0].0 == "+"@);
        assert(env@.map[1].0 == "-"@);
        assert(env@.map[2].0 == "*"@);
        assert(env@.map[3].0 == "/"@);
        assert(env@.map[4].0 == "list"@);
        assert(env@.map[5].0 == "list?"@);
        assert(env@.map[6].0 == "empty?"@);
        assert(env@.map[7].0 == "count"@);
        assert("="@.len() == 1);
        assert("="@[0] == '=');
        assert("+"@.len() == 1);
        assert("+"@[0] == '+');
        assert("-"@.len() == 1);
        assert("-"@[0] == '-');
        assert("*"@.len() == 1);
        assert("*"@[0] == '*');
        assert("/"@.len() == 1);
        assert("/"@[0] == '/');
        assert(crate::env::lookup_from_v(env@.map, "="@, 8) is None);
        assert(crate::env::lookup_from_v(env@.map, "="@, 7) is None);
        assert(crate::env::lookup_from_v(env@.map, "="@, 6) is None);
        assert(crate::env::lookup_from_v(env@.map, "="@, 5) is None);
        assert(crate::env::lookup_from_v(env@.map, "="@, 4) is None);
        assert(crate::env::lookup_from_v(env@.map, "="@, 3) is None);
        assert(crate::env::lookup_from_v(env@.map, "="@, 2) is None);
        assert(crate::env::lookup_from_v(env@.map, "="@, 1) is None);
        assert(crate::env::lookup_from_v(env@.map, "="@, 0) is None);
        assert(crate::env::lookup_v(env@.map, "="@) is None);
    }
    install(&mut env, "=", Native::Equal);
    proof {
        reveal_strlit("+");
        reveal_strlit("-");
        reveal_strlit("*");
        reveal_strlit("/");
        reveal_strlit("list");
        reveal_strlit("list?");
        reveal_strlit("empty?");
        reveal_strlit("count");
        reveal_strlit("=");
        reveal_strlit("<");
        reveal_strlit("<=");
        reveal_strlit(">");
        reveal_strlit(">=");
        reveal_strlit("pr-str");
        reveal_strlit("str");
        reveal_strlit("prn");
        reveal_strlit("println");
        reveal_with_fuel(crate::env::lookup_from_v, 20);
        assert(env@.map.len() == 9);
        assert(env@.map[0].0 == "+"@);
        assert(env@.map[1].0 == "-"@);
        assert(env@.map[2].0 == "*"@);
        assert(env@.map[3].0 == "/"@);
        assert(env@.map[4].0 == "list"@);
        assert(env@.map[5].0 == "list?"@);
        assert(env@.map[6].0 == "empty?"@);
        assert(env@.map[7].0 == "count"@);
        assert(env@.map[8].0 == "="@);
        assert("<"@.len() == 1);
        assert("<"@[0] == '<');
        assert("+"@.len() == 1);
        assert("+"@[0] == '+');
        assert("-"@.len() == 1);
        assert("-"@[0] == '-');
        assert("*"@.len() == 1);
        assert("*"@[0] == '*');
        assert("/"@.len() == 1);
        assert("/"@[0] == '/');
        assert("="@.len() == 1);
        assert("="@[0] == '=');
        assert(crate::env::lookup_from_v(env@.map, "<"@, 9) is None);
        assert(crate::env::lookup_from_v(env@.map, "<"@, 8) is None);
        assert(crate::env::lookup_from_v(env@.map, "<"@, 7) is None);
        assert(crate::env::lookup_from_v(env@.map, "<"@, 6) is None);
        assert(crate::env::lookup_from_v(env@.map, "<"@, 5) is None);
        assert(crate::env::lookup_from_v(env@.map, "<"@, 4) is None);
        assert(crate::env::lookup_from_v(env@.map, "<"@, 3) is None);
        assert(crate::env::lookup_from_v(env@.map, "<"@, 2) is None);
        assert(crate::env::lookup_from_v(env@.map, "<"@, 1) is None);
        assert(crate::env::lookup_from_v(env@.map, "<"@, 0) is None);
        assert(crate::env::lookup_v(env@.map, "<"@) is None);
    }
    install(&mut env, "<", Native::Lt);
    proof {
        reveal_strlit("+");
        reveal_strlit("-");
        reveal_strlit("*");
        reveal_strlit("/");
        reveal_strlit("list");
        reveal_strlit("list?");
        reveal_strlit("empty?");
        reveal_strlit("count");
        reveal_strlit("=");
        reveal_strlit("<");
        reveal_strlit("<=");
        reveal_strlit(">");
        reveal_strlit(">=");
        reveal_strlit("pr-str");
        reveal_strlit("str");
        reveal_strlit("prn");
        reveal_strlit("println");
        reveal_with_fuel(crate::env::lookup_from_v, 20);
        assert(env@.map.len() == 10);
        assert(env@.map[0].0 == "+"@);
        assert(env@.map[1].0 == "-"@);
        assert(env@.map[2].0 == "*"@);
        assert(env@.map[3].0 == "/"@);
        assert(env@.map[4].0 == "list"@);
        assert(env@.map[5].0 == "list?"@);
        assert(env@.map[6].0 == "empty?"@);
        assert(env@.map[7].0 == "count"@);
        assert(env@.map[8].0 == "="@);
        assert(env@.map[9].0 == "<"@);
        assert("<="@.len() == 2);
        assert("<="@[0] == '<');
        assert("<="@[1] == '=');
        assert(crate::env::lookup_from_v(env@.map, "<="@, 10) is None);
        assert(crate::env::lookup_from_v(env@.map, "<="@, 9) is None);
        assert(crate::env::lookup_from_v(env@.map, "<="@, 8) is None);
        assert(crate::env::lookup_from_v(env@.map, "<="@, 7) is None);
        assert(crate::env::lookup_from_v(env@.map, "<="@, 6) is None);
        assert(crate::env::lookup_from_v(env@.map, "<="@, 5) is None);
        assert(crate::env::lookup_from_v(env@.map, "<="@, 4) is None);
        assert(crate::env::lookup_from_v(env@.map, "<="@, 3) is None);
        assert(crate::env::lookup_from_v(env@.map, "<="@, 2) is None);
        assert(crate::env::lookup_from_v(env@.map, "<="@, 1) is None);
        assert(crate::env::lookup_from_v(env@.map, "<="@, 0) is None);
        assert(crate::env::lookup_v(env@.map, "<="@) is None);
    }
    install(&mut env, "<=", Native::Le);
    proof {
        reveal_strlit("+");
        reveal_strlit("-");
        reveal_strlit("*");
        reveal_strlit("/");
        reveal_strlit("list");
        reveal_strlit("list?");
        reveal_strlit("empty?");
        reveal_strlit("count");
        reveal_strlit("=");
        reveal_strlit("<");
        reveal_strlit("<=");
        reveal_strlit(">");
        reveal_strlit(">=");
        reveal_strlit("pr-str");
        reveal_strlit("str");
        reveal_strlit("prn");
        reveal_strlit("println");
        reveal_with_fuel(crate::env::lookup_from_v, 20);
        assert(env@.map.len() == 11);
        assert(env@.map[0].0 == "+"@);
        assert(env@.map[1].0 == "-"@);
        assert(env@.map[2].0 == "*"@);
        assert(env@.map[3].0 == "/"@);
        assert(env@.map[4].0 == "list"@);
        assert(env@.map[5].0 == "list?"@);
        assert(env@.map[6].0 == "empty?"@);
        assert(env@.map[7].0 == "count"@);
        assert(env@.map[8].0 == "="@);
        assert(env@.map[9].0 == "<"@);
        assert(env@.map[10].0 == "<="@);
        assert(">"@.len() == 1);
        assert(">"@[0] == '>');
        assert("+"@.len() == 1);
        assert("+"@[0] == '+');
        assert("-"@.len() == 1);
        assert("-"@[0] == '-');
        assert("*"@.len() == 1);
        assert("*"@[0] == '*');
        assert("/"@.len() == 1);
        assert("/"@[0] == '/');
        assert("="@.len() == 1);
        assert("="@[0] == '=');
        assert("<"@.len() == 1);
        assert("<"@[0] == '<');
        assert(crate::env::lookup_from_v(env@.map, ">"@, 11) is None);
        assert(crate::env::lookup_from_v(env@.map, ">"@, 10) is None);
        assert(crate::env::lookup_from_v(env@.map, ">"@, 9) is None);
        assert(crate::env::lookup_from_v(env@.map, ">"@, 8) is None);
        assert(crate::env::lookup_from_v(env@.map, ">"@, 7) is None);
        assert(crate::env::lookup_from_v(env@.map, ">"@, 6) is None);
        assert(crate::env::lookup_from_v(env@.map, ">"@, 5) is None);
        assert(crate::env::lookup_from_v(env@.map, ">"@, 4) is None);
        assert(crate::env::lookup_from_v(env@.map, ">"@, 3) is None);
        assert(crate::env::lookup_from_v(env@.map, ">"@, 2) is None);
        assert(crate::env::lookup_from_v(env@.map, ">"@, 1) is None);
        assert(crate::env::lookup_from_v(env@.map, ">"@, 0) is None);
        assert(crate::env::lookup_v(env@.map, ">"@) is None);
    }
    install(&mut env, ">", Native::Gt);
    proof {
        reveal_strlit("+");
        reveal_strlit("-");
        reveal_strlit("*");
        reveal_strlit("/");
        reveal_strlit("list");
        reveal_strlit("list?");
        reveal_strlit("empty?");
        reveal_strlit("count");
        reveal_strlit("=");
        reveal_strlit("<");
        reveal_strlit("<=");
        reveal_strlit(">");
        reveal_strlit(">=");
        reveal_strlit("pr-str");
        reveal_strlit("str");
        reveal_strlit("prn");
        reveal_strlit("println");
        reveal_with_fuel(crate::env::lookup_from_v, 20);
        assert(env@.map.len() == 12);
        assert(env@.map[0].0 == "+"@);
        assert(env@.map[1].0 == "-"@);
        assert(env@.map[2].0 == "*"@);
        assert(env@.map[3].0 == "/"@);
        assert(env@.map[4].0 == "list"@);
        assert(env@.map[5].0 == "list?"@);
        assert(env@.map[6].0 == "empty?"@);
        assert(env@.map[7].0 == "count"@);
        assert(env@.map[8].0 == "="@);
        assert(env@.map[9].0 == "<"@);
        assert(env@.map[10].0 == "<="@);
        assert(env@.map[11].0 == ">"@);
        assert(">="@.len() == 2);
        assert(">="@[0] == '>');
        assert(">="@[1] == '=');
        assert("<="@.len() == 2);
        assert("<="@[0] == '<');
        assert("<="@[1] == '=');
        assert(crate::env::lookup_from_v(env@.map, ">="@, 12) is None);
        assert(crate::env::lookup_from_v(env@.map, ">="@, 11) is None);
        assert(crate::env::lookup_from_v(env@.map, ">="@, 10) is None);
        assert(crate::env::lookup_from_v(env@.map, ">="@, 9) is None);
        assert(crate::env::lookup_from_v(env@.map, ">="@, 8) is None);
        assert(crate::env::lookup_from_v(env@.map, ">="@, 7) is None);
        assert(crate::env::lookup_from_v(env@.map, ">="@, 6) is None);
        assert(crate::env::lookup_from_v(env@.map, ">="@, 5) is None);
        assert(crate::env::lookup_from_v(env@.map, ">="@, 4) is None);
        assert(crate::env::lookup_from_v(env@.map, ">="@, 3) is None);
        assert(crate::env::lookup_from_v(env@.map, ">="@, 2) is None);
        assert(crate::env::lookup_from_v(env@.map, ">="@, 1) is None);
        assert(crate::env::lookup_from_v(env@.map, ">="@, 0) is None);
        assert(crate::env::lookup_v(env@.map, ">="@) is None);
    }
    install(&mut env, ">=", Native::Ge);
    proof {
        reveal_strlit("+");
        reveal_strlit("-");
        reveal_strlit("*");
        reveal_strlit("/");
        reveal_strlit("list");
        reveal_strlit("list?");
        reveal_strlit("empty?");
        reveal_strlit("count");
        reveal_strlit("=");
        reveal_strlit("<");
        reveal_strlit("<=");
        reveal_strlit(">");
        reveal_strlit(">=");
        reveal_strlit("pr-str");
        reveal_strlit("str");
        reveal_strlit("prn");
        reveal_strlit("println");
        reveal_with_fuel(crate::env::lookup_from_v, 20);
        assert(env@.map.len() == 13);
        assert(env@.map[0].0 == "+"@);
        assert(env@.map[1].0 == "-"@);
        assert(env@.map[2].0 == "*"@);
        assert(env@.map[3].0 == "/"@);
        assert(env@.map[4].0 == "list"@);
        assert(env@.map[5].0 == "list?"@);
        assert(env@.map[6].0 == "empty?"@);
        assert(env@.map[7].0 == "count"@);
        assert(env@.map[8].0 == "="@);
        assert(env@.map[9].0 == "<"@);
        assert(env@.map[10].0 == "<="@);
        assert(env@.map[11].0 == ">"@);
        assert(env@.map[12].0 == ">="@);
        assert("pr-str"@.len() == 6);
        assert("pr-str"@[0] == 'p');
        assert("pr-str"@[1] == 'r');
        assert("pr-str"@[2] == '-');
        assert("pr-str"@[3] == 's');
        assert("pr-str"@[4] == 't');
        assert("pr-str"@[5] == 'r');
        assert("empty?"@.len() == 6);
        assert("empty?"@[0] == 'e');
        assert("empty?"@[1] == 'm');
        assert("empty?"@[2] == 'p');
        assert("empty?"@[3] == 't');
        assert("empty?"@[4] == 'y');
        assert("empty?"@[5] == '?');
        assert(crate::env::lookup_from_v(env@.map, "pr-str"@, 13) is None);
        assert(crate::env::lookup_from_v(env@.map, "pr-str"@, 12) is None);
        assert(crate::env::lookup_from_v(env@.map, "pr-str"@, 11) is None);
        assert(crate::env::lookup_from_v(env@.map, "pr-str"@, 10) is None);
        assert(crate::env::lookup_from_v(env@.map, "pr-str"@, 9) is None);
        assert(crate::env::lookup_from_v(env@.map, "pr-str"@, 8) is None);
        assert(crate::env::lookup_from_v(env@.map, "pr-str"@, 7) is None);
        assert(crate::env::lookup_from_v(env@.map, "pr-str"@, 6) is None);
        assert(crate::env::lookup_from_v(env@.map, "pr-str"@, 5) is None);
        assert(crate::env::lookup_from_v(env@.map, "pr-str"@, 4) is None);
        assert(crate::env::lookup_from_v(env@.map, "pr-str"@, 3) is None);
        assert(crate::env::lookup_from_v(env@.map, "pr-str"@, 2) is None);
        assert(crate::env::lookup_from_v(env@.map, "pr-str"@, 1) is None);
        assert(crate::env::lookup_from_v(env@.map, "pr-str"@, 0) is None);
        assert(crate::env::lookup_v(env@.map, "pr-str"@) is None);
    }
    install(&mut env, "pr-str", Native::PrStr);
    proof {
        reveal_strlit("+");
        reveal_strlit("-");
        reveal_strlit("*");
        reveal_strlit("/");
        reveal_strlit("list");
        reveal_strlit("list?");
        reveal_strlit("empty?");
        reveal_strlit("count");
        reveal_strlit("=");
        reveal_strlit("<");
        reveal_strlit("<=");
        reveal_strlit(">");
        reveal_strlit(">=");
        reveal_strlit("pr-str");
        reveal_strlit("str");
        reveal_strlit("prn");
        reveal_strlit("println");
        reveal_with_fuel(crate::env::lookup_from_v, 20);
        assert(env@.map.len() == 14);
        assert(env@.map[0].0 == "+"@);
        assert(env@.map[1].0 == "-"@);
        assert(env@.map[2].0 == "*"@);
        assert(env@.map[3].0 == "/"@);
        assert(env@.map[4].0 == "list"@);
        assert(env@.map[5].0 == "list?"@);
        assert(env@.map[6].0 == "empty?"@);
        assert(env@.map[7].0 == "count"@);
        assert(env@.map[8].0 == "="@);
        assert(env@.map[9].0 == "<"@);
        assert(env@.map[10].0 == "<="@);
        assert(env@.map[11].0 == ">"@);
        assert(env@.map[12].0 == ">="@);
        assert(env@.map[13].0 == "pr-str"@);
        assert("str"@.len() == 3);
        assert("str"@[0] == 's');
        assert("str"@[1] == 't');
        assert("str"@[2] == 'r');
        assert(crate::env::lookup_from_v(env@.map, "str"@, 14) is None);
        assert(crate::env::lookup_from_v(env@.map, "str"@, 13) is None);
        assert(crate::env::lookup_from_v(env@.map, "str"@, 12) is None);
        assert(crate::env::lookup_from_v(env@.map, "str"@, 11) is None);
        assert(crate::env::lookup_from_v(env@.map, "str"@, 10) is None);
        assert(crate::env::lookup_from_v(env@.map, "str"@, 9) is None);
        assert(crate::env::lookup_from_v(env@.map, "str"@, 8) is None);
        assert(crate::env::lookup_from_v(env@.map, "str"@, 7) is None);
        assert(crate::env::lookup_from_v(env@.map, "str"@, 6) is None);
        assert(crate::env::lookup_from_v(env@.map, "str"@, 5) is None);
        assert(crate::env::lookup_from_v(env@.map, "str"@, 4) is None);
        assert(crate::env::lookup_from_v(env@.map, "str"@, 3) is None);
        assert(crate::env::lookup_from_v(env@.map, "str"@, 2) is None);
        assert(crate::env::lookup_from_v(env@.map, "str"@, 1) is None);
        assert(crate::env::lookup_from_v(env@.map, "str"@, 0) is None);
        assert(crate::env::lookup_v(env@.map, "str"@) is None);
    }
    install(&mut env, "str", Native::StrFn);
    proof {
        reveal_strlit("+");
        reveal_strlit("-");
        reveal_strlit("*");
        reveal_strlit("/");
        reveal_strlit("list");
        reveal_strlit("list?");
        reveal_strlit("empty?");
        reveal_strlit("count");
        reveal_strlit("=");
        reveal_strlit("<");
        reveal_strlit("<=");
        reveal_strlit(">");
        reveal_strlit(">=");
        reveal_strlit("pr-str");
        reveal_strlit("str");
        reveal_strlit("prn");
        reveal_strlit("println");
        reveal_with_fuel(crate::env::lookup_from_v, 20);
        assert(env@.map.len() == 15);
        assert(env@.map[0].0 == "+"@);
        assert(env@.map[1].0 == "-"@);
        assert(env@.map[2].0 == "*"@);
        assert(env@.map[3].0 == "/"@);
        assert(env@.map[4].0 == "list"@);
        assert(env@.map[5].0 == "list?"@);
        assert(env@.map[6].0 == "empty?"@);
        assert(env@.map[7].0 == "count"@);
        assert(env@.map[8].0 == "="@);
        assert(env@.map[9].0 == "<"@);
        assert(env@.map[10].0 == "<="@);
        assert(env@.map[11].0 == ">"@);
        assert(env@.map[12].0 == ">="@);
        assert(env@.map[13].0 == "pr-str"@);
        assert(env@.map[14].0 == "str"@);
        assert("prn"@.len() == 3);
        assert("prn"@[0] == 'p');
        assert("prn"@[1] == 'r');
        assert("prn"@[2] == 'n');
        assert("str"@.len() == 3);
        assert("str"@[0] == 's');
        assert("str"@[1] == 't');
        assert("str"@[2] == 'r');
        assert(crate::env::lookup_from_v(env@.map, "prn"@, 15) is None);
        assert(crate::env::lookup_from_v(env@.map, "prn"@, 14) is None);
        assert(crate::env::lookup_from_v(env@.map, "prn"@, 13) is None);
        assert(crate::env::lookup_from_v(env@.map, "prn"@, 12) is None);
        assert(crate::env::lookup_from_v(env@.map, "prn"@, 11) is None);
        assert(crate::env::lookup_from_v(env@.map, "prn"@, 10) is None);
        assert(crate::env::lookup_from_v(env@.map, "prn"@, 9) is None);
        assert(crate::env::lookup_from_v(env@.map, "prn"@, 8) is None);
        assert(crate::env::lookup_from_v(env@.map, "prn"@, 7) is None);
        assert(crate::env::lookup_from_v(env@.map, "prn"@, 6) is None);
        assert(crate::env::lookup_from_v(env@.map, "prn"@, 5) is None);
        assert(crate::env::lookup_from_v(env@.map, "prn"@, 4) is None);
        assert(crate::env::lookup_from_v(env@.map, "prn"@, 3) is None);
        assert(crate::env::lookup_from_v(env@.map, "prn"@, 2) is None);
        assert(crate::env::lookup_from_v(env@.map, "prn"@, 1) is None);
        assert(crate::env::lookup_from_v(env@.map, "prn"@, 0) is None);
        assert(crate::env::lookup_v(env@.map, "prn"@) is None);
    }
    install(&mut env, "prn", Native::Prn);
    proof {
        reveal_strlit("+");
        reveal_strlit("-");
        reveal_strlit("*");
        reveal_strlit("/");
        reveal_strlit("list");
        reveal_strlit("list?");
        reveal_strlit("empty?");
        reveal_strlit("count");
        reveal_strlit("=");
        reveal_strlit("<");
        reveal_strlit("<=");
        reveal_strlit(">");
        reveal_strlit(">=");
        reveal_strlit("pr-str");
        reveal_strlit("str");
        reveal_strlit("prn");
        reveal_strlit("println");
        reveal_with_fuel(crate::env::lookup_from_v, 20);
        assert(env@.map.len() == 16);
        assert(env@.map[0].0 == "+"@);
        assert(env@.map[1].0 == "-"@);
        assert(env@.map[2].0 == "*"@);
        assert(env@.map[3].0 == "/"@);
        assert(env@.map[4].0 == "list"@);
        assert(env@.map[5].0 == "list?"@);
        assert(env@.map[6].0 == "empty?"@);
        assert(env@.map[7].0 == "count"@);
        assert(env@.map[8].0 == "="@);
        assert(env@.map[9].0 == "<"@);
        assert(env@.map[10].0 == "<="@);
        assert(env@.map[11].0 == ">"@);
        assert(env@.map[12].0 == ">="@);
        assert(env@.map[13].0 == "pr-str"@);
        assert(env@.map[14].0 == "str"@);
        assert(env@.map[15].0 == "prn"@);
        assert("println"@.len() == 7);
        assert("println"@[0] == 'p');
        assert("println"@[1] == 'r');
        assert("println"@[2] == 'i');
        assert("println"@[3] == 'n');
        assert("println"@[4] == 't');
        assert("println"@[5] == 'l');
        assert("println"@[6] == 'n');
        assert(crate::env::lookup_from_v(env@.map, "println"@, 16) is None);
        assert(crate::env::lookup_from_v(env@.map, "println"@, 15) is None);
        assert(crate::env::lookup_from_v(env@.map, "println"@, 14) is None);
        assert(crate::env::lookup_from_v(env@.map, "println"@, 13) is None);
        assert(crate::env::lookup_from_v(env@.map, "println"@, 12) is None);
        assert(crate::env::lookup_from_v(env@.map, "println"@, 11) is None);
        assert(crate::env::lookup_from_v(env@.map, "println"@, 10) is None);
        assert(crate::env::lookup_from_v(env@.map, "println"@, 9) is None);
        assert(crate::env::lookup_from_v(env@.map, "println"@, 8) is None);
        assert(crate::env::lookup_from_v(env@.map, "println"@, 7) is None);
        assert(crate::env::lookup_from_v(env@.map, "println"@, 6) is None);
        assert(crate::env::lookup_from_v(env@.map, "println"@, 5) is None);
        assert(crate::env::lookup_from_v(env@.map, "println"@, 4) is None);
        assert(crate::env::lookup_from_v(env@.map, "println"@, 3) is None);
        assert(crate::env::lookup_from_v(env@.map, "println"@, 2) is None);
        assert(crate::env::lookup_from_v(env@.map, "println"@, 1) is None);
        assert(crate::env::lookup_from_v(env@.map, "println"@, 0) is None);
        assert(crate::env::lookup_v(env@.map, "println"@) is None);
    }
    install(&mut env, "println", Native::PrintLn);
    proof {
        assert(env@.map =~= core_env_v().map);
        assert(env@.history =~= core_env_v().history);
        assert(env@ =~= core_env_v());
    }
    env
}

} // verus!
