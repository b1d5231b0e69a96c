//! The value model: the tagged union shared by programs and data, its
//! mathematical view, and structural operations on it.

use vstd::prelude::*;
use vstd::string::StrSliceExecFns;
use vstd::string::StringExecFns;

verus! {

broadcast use vstd::std_specs::vec::group_vec_axioms, vstd::seq::group_seq_axioms;

/// An interned identifier, used both as a name and as a self-evaluating form.
#[derive(Debug)]
pub struct Symbol {
    pub inner: String,
}

/// A colon-prefixed interned name; the colon is not stored.
#[derive(Debug)]
pub struct Keyword {
    pub sym: String,
}

/// An ordered sequence of values written with parentheses.
#[derive(Debug)]
pub struct MalList {
    pub items: Vec<Mal>,
}

/// An ordered sequence of values written with square brackets.
#[derive(Debug)]
pub struct MalArr {
    pub items: Vec<Mal>,
}

/// A key of a map literal: only strings and keywords may key a map.
#[derive(Debug)]
pub enum MapKey {
    Str(String),
    Kw(Keyword),
}

/// A mapping from string/keyword keys to values; insertion order is
/// irrelevant to equality, and keys are never repeated.
#[derive(Debug)]
pub struct MalMap {
    pub entries: Vec<(MapKey, Mal)>,
}

/// The tagged union all data and code share.
#[derive(Debug)]
pub enum Mal {
    List(MalList),
    Arr(MalArr),
    Num(i64),
    Sym(Symbol),
    Str(String),
    Bool(bool),
    Kw(Keyword),
    Dict(MalMap),
    Func(MalFunc),
    Nil,
}

/// The builtin functions the host registers into the root environment.
#[derive(Debug, Clone, Copy, PartialEq, Eq, Structural)]
pub enum Native {
    Add,
    Sub,
    Mul,
    Div,
    ListFn,
    ListP,
    EmptyP,
    Count,
    Equal,
    Lt,
    Le,
    Gt,
    Ge,
    PrStr,
    StrFn,
    Prn,
    PrintLn,
}

/// A function value: a host builtin, or a closure over a captured
/// environment snapshot, optionally knowing its own binding name.
#[derive(Debug)]
pub enum MalFunc {
    Native(Native),
    /// parameter symbols, captured environment, unevaluated body
    Closure(Vec<Symbol>, crate::env::Env, Box<Mal>),
    /// own binding name, parameter symbols, captured environment, body
    NamedClosure(Symbol, Vec<Symbol>, crate::env::Env, Box<Mal>),
}

// ------------------------------------------------------------------
// The mathematical view of a value tree.
// ------------------------------------------------------------------

/// Spec-level mirror of a map key.
#[verifier::ext_equal]
pub enum KeyV {
    Str(Seq<char>),
    Kw(Seq<char>),
}

/// Spec-level mirror of [`Mal`]: sequences in place of vectors,
/// character sequences in place of strings.
#[verifier::ext_equal]
pub enum MalV {
    List(Seq<MalV>),
    Arr(Seq<MalV>),
    Num(i64),
    Sym(Seq<char>),
    Str(Seq<char>),
    Bool(bool),
    Kw(Seq<char>),
    Dict(Seq<(KeyV, MalV)>),
    Func(FuncV),
    Nil,
}

/// Spec-level mirror of [`MalFunc`].
#[verifier::ext_equal]
pub enum FuncV {
    Native(Native),
    Closure(Seq<Seq<char>>, EnvV, Box<MalV>),
    NamedClosure(Seq<char>, Seq<Seq<char>>, EnvV, Box<MalV>),
}

/// Spec-level mirror of an environment: the binding store and the
/// change history used for checkpoint/rollback.
#[verifier::ext_equal]
pub struct EnvV {
    pub map: Seq<(Seq<char>, MalV)>,
    pub history: Seq<ChangeV>,
}

/// Spec-level mirror of one recorded environment change.
#[verifier::ext_equal]
pub enum ChangeV {
    Scope,
    Added(Seq<char>),
    Replaced(Seq<char>, MalV),
}

pub open spec fn view_mal(m: Mal) -> MalV
    decreases m,
{
    match m {
        Mal::List(l) => MalV::List(view_mal_seq(l.items@)),
        Mal::Arr(a) => MalV::Arr(view_mal_seq(a.items@)),
        Mal::Num(n) => MalV::Num(n),
        Mal::Sym(s) => MalV::Sym(s.inner@),
        Mal::Str(s) => MalV::Str(s@),
        Mal::Bool(b) => MalV::Bool(b),
        Mal::Kw(k) => MalV::Kw(k.sym@),
        Mal::Dict(d) => MalV::Dict(view_entry_seq(d.entries@)),
        Mal::Func(f) => MalV::Func(view_func(f)),
        Mal::Nil => MalV::Nil,
    }
}

pub open spec fn view_mal_seq(s: Seq<Mal>) -> Seq<MalV>
    decreases s,
{
    if s.len() == 0 {
        Seq::empty()
    } else {
        view_mal_seq(s.subrange(0, s.len() - 1)).push(view_mal(s[s.len() - 1]))
    }
}

pub open spec fn view_key(k: MapKey) -> KeyV {
    match k {
        MapKey::Str(s) => KeyV::Str(s@),
        MapKey::Kw(k) => KeyV::Kw(k.sym@),
    }
}

pub open spec fn view_entry_seq(s: Seq<(MapKey, Mal)>) -> Seq<(KeyV, MalV)>
    decreases s,
{
    if s.len() == 0 {
        Seq::empty()
    } else {
        view_entry_seq(s.subrange(0, s.len() - 1)).push(
            (view_key(s[s.len() - 1].0), view_mal(s[s.len() - 1].1)),
        )
    }
}

pub open spec fn view_sym_seq(s: Seq<Symbol>) -> Seq<Seq<char>> {
    Seq::new(s.len(), |i: int| s[i].inner@)
}

pub open spec fn view_func(f: MalFunc) -> FuncV
    decreases f,
{
    match f {
        MalFunc::Native(n) => FuncV::Native(n),
        MalFunc::Closure(params, env, body) => FuncV::Closure(
            view_sym_seq(params@),
            view_env(env),
            Box::new(view_mal(*body)),
        ),
        MalFunc::NamedClosure(name, params, env, body) => FuncV::NamedClosure(
            name.inner@,
            view_sym_seq(params@),
            view_env(env),
            Box::new(view_mal(*body)),
        ),
    }
}

pub open spec fn view_bind_seq(s: Seq<(Symbol, Mal)>) -> Seq<(Seq<char>, MalV)>
    decreases s,
{
    if s.len() == 0 {
        Seq::empty()
    } else {
        view_bind_seq(s.subrange(0, s.len() - 1)).push(
            (s[s.len() - 1].0.inner@, view_mal(s[s.len() - 1].1)),
        )
    }
}

pub open spec fn view_change(c: crate::env::EnvChange) -> ChangeV
    decreases c,
{
    match c {
        crate::env::EnvChange::NewScopeEntered => ChangeV::Scope,
        crate::env::EnvChange::BindingAdded(s) => ChangeV::Added(s.inner@),
        crate::env::EnvChange::BindingReplaced(s, m) => ChangeV::Replaced(s.inner@, view_mal(m)),
    }
}

pub open spec fn view_change_seq(s: Seq<crate::env::EnvChange>) -> Seq<ChangeV>
    decreases s,
{
    if s.len() == 0 {
        Seq::empty()
    } else {
        view_change_seq(s.subrange(0, s.len() - 1)).push(view_change(s[s.len() - 1]))
    }
}

pub open spec fn view_env(e: crate::env::Env) -> EnvV
    decreases e,
{
    EnvV { map: view_bind_seq(e.map@), history: view_change_seq(e.history@) }
}

impl View for Mal {
    type V = MalV;

    open spec fn view(&self) -> MalV {
        view_mal(*self)
    }
}

// ------------------------------------------------------------------
// Basic facts about the sequence views.
// ------------------------------------------------------------------

pub broadcast proof fn lemma_view_mal_seq_len(s: Seq<Mal>)
    ensures
        #[trigger] view_mal_seq(s).len() == s.len(),
    decreases s,
{
    if s.len() > 0 {
        lemma_view_mal_seq_len(s.subrange(0, s.len() - 1));
    }
}

pub broadcast proof fn lemma_view_mal_seq_index(s: Seq<Mal>, i: int)
    requires
        0 <= i < s.len(),
    ensures
        #[trigger] view_mal_seq(s)[i] == view_mal(s[i]),
    decreases s,
{
    lemma_view_mal_seq_len(s.subrange(0, s.len() - 1));
    if i < s.len() - 1 {
        lemma_view_mal_seq_index(s.subrange(0, s.len() - 1), i);
    }
}

pub broadcast proof fn lemma_view_mal_seq_push(s: Seq<Mal>, x: Mal)
    ensures
        #[trigger] view_mal_seq(s.push(x)) == view_mal_seq(s).push(view_mal(x)),
{
    assert(s.push(x).subrange(0, s.push(x).len() - 1) =~= s);
}

pub broadcast proof fn lemma_view_entry_seq_len(s: Seq<(MapKey, Mal)>)
    ensures
        #[trigger] view_entry_seq(s).len() == s.len(),
    decreases s,
{
    if s.len() > 0 {
        lemma_view_entry_seq_len(s.subrange(0, s.len() - 1));
    }
}

pub broadcast proof fn lemma_view_entry_seq_index(s: Seq<(MapKey, Mal)>, i: int)
    requires
        0 <= i < s.len(),
    ensures
        #[trigger] view_entry_seq(s)[i] == (view_key(s[i].0), view_mal(s[i].1)),
    decreases s,
{
    lemma_view_entry_seq_len(s.subrange(0, s.len() - 1));
    if i < s.len() - 1 {
        lemma_view_entry_seq_index(s.subrange(0, s.len() - 1), i);
    }
}

pub broadcast proof fn lemma_view_entry_seq_push(s: Seq<(MapKey, Mal)>, x: (MapKey, Mal))
    ensures
        #[trigger] view_entry_seq(s.push(x)) == view_entry_seq(s).push(
            (view_key(x.0), view_mal(x.1)),
        ),
{
    assert(s.push(x).subrange(0, s.push(x).len() - 1) =~= s);
}

pub broadcast proof fn lemma_view_bind_seq_len(s: Seq<(Symbol, Mal)>)
    ensures
        #[trigger] view_bind_seq(s).len() == s.len(),
    decreases s,
{
    if s.len() > 0 {
        lemma_view_bind_seq_len(s.subrange(0, s.len() - 1));
    }
}

pub broadcast proof fn lemma_view_bind_seq_index(s: Seq<(Symbol, Mal)>, i: int)
    requires
        0 <= i < s.len(),
    ensures
        #[trigger] view_bind_seq(s)[i] == (s[i].0.inner@, view_mal(s[i].1)),
    decreases s,
{
    lemma_view_bind_seq_len(s.subrange(0, s.len() - 1));
    if i < s.len() - 1 {
        lemma_view_bind_seq_index(s.subrange(0, s.len() - 1), i);
    }
}

pub broadcast proof fn lemma_view_bind_seq_push(s: Seq<(Symbol, Mal)>, x: (Symbol, Mal))
    ensures
        #[trigger] view_bind_seq(s.push(x)) == view_bind_seq(s).push(
            (x.0.inner@, view_mal(x.1)),
        ),
{
    assert(s.push(x).subrange(0, s.push(x).len() - 1) =~= s);
}

pub broadcast proof fn lemma_view_change_seq_len(s: Seq<crate::env::EnvChange>)
    ensures
        #[trigger] view_change_seq(s).len() == s.len(),
    decreases s,
{
    if s.len() > 0 {
        lemma_view_change_seq_len(s.subrange(0, s.len() - 1));
    }
}

pub broadcast proof fn lemma_view_change_seq_index(s: Seq<crate::env::EnvChange>, i: int)
    requires
        0 <= i < s.len(),
    ensures
        #[trigger] view_change_seq(s)[i] == view_change(s[i]),
    decreases s,
{
    lemma_view_change_seq_len(s.subrange(0, s.len() - 1));
    if i < s.len() - 1 {
        lemma_view_change_seq_index(s.subrange(0, s.len() - 1), i);
    }
}

pub broadcast proof fn lemma_view_change_seq_push(s: Seq<crate::env::EnvChange>, x: crate::env::EnvChange)
    ensures
        #[trigger] view_change_seq(s.push(x)) == view_change_seq(s).push(view_change(x)),
{
    assert(s.push(x).subrange(0, s.push(x).len() - 1) =~= s);
}

pub broadcast group group_view_lemmas {
    lemma_view_mal_seq_len,
    lemma_view_mal_seq_index,
    lemma_view_mal_seq_push,
    lemma_view_entry_seq_len,
    lemma_view_entry_seq_index,
    lemma_view_entry_seq_push,
    lemma_view_bind_seq_len,
    lemma_view_bind_seq_index,
    lemma_view_bind_seq_push,
    lemma_view_change_seq_len,
    lemma_view_change_seq_index,
    lemma_view_change_seq_push,
}

/// Two vectors of values with pointwise equal views have equal sequence
/// views.
pub proof fn lemma_view_mal_seq_ext(a: Seq<Mal>, b: Seq<Mal>)
    requires
        a.len() == b.len(),
        forall|i: int| 0 <= i < a.len() ==> view_mal(#[trigger] a[i]) == view_mal(b[i]),
    ensures
        view_mal_seq(a) == view_mal_seq(b),
{
    broadcast use group_view_lemmas;

    assert(view_mal_seq(a) =~= view_mal_seq(b));
}

// ------------------------------------------------------------------
// Deep copies.  Every value is structurally cloneable, and a clone has
// the same view as the original.
// ------------------------------------------------------------------

impl Clone for Symbol {
    fn clone(&self) -> (r: Symbol)
        ensures
            r@ == self@,
    {
        Symbol { inner: self.inner.clone() }
    }
}

impl Clone for Keyword {
    fn clone(&self) -> (r: Keyword)
        ensures
            r@ == self@,
    {
        Keyword { sym: self.sym.clone() }
    }
}

impl Clone for MapKey {
    fn clone(&self) -> (r: MapKey)
        ensures
            r@ == self@,
    {
        match self {
            MapKey::Str(s) => MapKey::Str(s.clone()),
            MapKey::Kw(k) => MapKey::Kw(k.clone()),
        }
    }
}

/// Deep-copies a value; the copy has the same view as the original.
pub fn clone_mal(m: &Mal) -> (r: Mal)
    ensures
        view_mal(r) == view_mal(*m),
    decreases *m,
{
    match m {
        Mal::List(l) => Mal::List(MalList { items: clone_mal_vec(&l.items) }),
        Mal::Arr(a) => Mal::Arr(MalArr { items: clone_mal_vec(&a.items) }),
        Mal::Num(n) => Mal::Num(*n),
        Mal::Sym(s) => Mal::Sym(s.clone()),
        Mal::Str(s) => Mal::Str(s.clone()),
        Mal::Bool(b) => Mal::Bool(*b),
        Mal::Kw(k) => Mal::Kw(k.clone()),
        Mal::Dict(d) => Mal::Dict(MalMap { entries: clone_entries(&d.entries) }),
        Mal::Func(f) => Mal::Func(clone_func(f)),
        Mal::Nil => Mal::Nil,
    }
}

/// Deep-copies a vector of values.
pub(crate) fn clone_mal_vec(v: &Vec<Mal>) -> (r: Vec<Mal>)
    ensures
        view_mal_seq(r@) == view_mal_seq(v@),
    decreases *v,
{
    broadcast use group_view_lemmas;

    let mut r: Vec<Mal> = Vec::new();
    let mut i: usize = 0;
    while i < v.len()
        invariant
            i <= v.len(),
            view_mal_seq(r@) == view_mal_seq(v@.subrange(0, i as int)),
        decreases v.len() - i,
    {
        let x = clone_mal(&v[i]);
        proof {
            lemma_view_mal_seq_push(r@, x);
            lemma_view_mal_seq_push(v@.subrange(0, i as int), v@[i as int]);
            assert(v@.subrange(0, i + 1) =~= v@.subrange(0, i as int).push(v@[i as int]));
        }
        r.push(x);
        i = i + 1;
    }
    proof {
        assert(v@.subrange(0, v@.len() as int) =~= v@);
    }
    r
}

/// Deep-copies the entries of a map.
pub(crate) fn clone_entries(v: &Vec<(MapKey, Mal)>) -> (r: Vec<(MapKey, Mal)>)
    ensures
        view_entry_seq(r@) == view_entry_seq(v@),
    decreases *v,
{
    broadcast use group_view_lemmas;

    let mut r: Vec<(MapKey, Mal)> = Vec::new();
    let mut i: usize = 0;
    while i < v.len()
        invariant
            i <= v.len(),
            view_entry_seq(r@) == view_entry_seq(v@.subrange(0, i as int)),
        decreases v.len() - i,
    {
        let entry = (v[i].0.clone(), clone_mal(&v[i].1));
        proof {
            lemma_view_entry_seq_push(r@, entry);
            lemma_view_entry_seq_push(v@.subrange(0, i as int), v@[i as int]);
            assert(v@.subrange(0, i + 1) =~= v@.subrange(0, i as int).push(v@[i as int]));
        }
        r.push(entry);
        i = i + 1;
    }
    proof {
        assert(v@.subrange(0, v@.len() as int) =~= v@);
    }
    r
}

/// Deep-copies a function value.
pub(crate) fn clone_func(f: &MalFunc) -> (r: MalFunc)
    ensures
        view_func(r) == view_func(*f),
    decreases *f,
{
    match f {
        MalFunc::Native(n) => MalFunc::Native(*n),
        MalFunc::Closure(params, env, body) => MalFunc::Closure(
            clone_symbols(params),
            crate::env::clone_env(env),
            Box::new(clone_mal(body)),
        ),
        MalFunc::NamedClosure(name, params, env, body) => MalFunc::NamedClosure(
            name.clone(),
            clone_symbols(params),
            crate::env::clone_env(env),
            Box::new(clone_mal(body)),
        ),
    }
}

impl Clone for Mal {
    fn clone(&self) -> (r: Mal)
        ensures
            r@ == self@,
    {
        clone_mal(self)
    }
}

impl Clone for MalList {
    fn clone(&self) -> (r: MalList)
        ensures
            r@ == self@,
    {
        MalList { items: clone_mal_vec(&self.items) }
    }
}

impl Clone for MalArr {
    fn clone(&self) -> (r: MalArr)
        ensures
            r@ == self@,
    {
        MalArr { items: clone_mal_vec(&self.items) }
    }
}

impl Clone for MalMap {
    fn clone(&self) -> (r: MalMap)
        ensures
            r@ == self@,
    {
        MalMap { entries: clone_entries(&self.entries) }
    }
}

impl Clone for MalFunc {
    fn clone(&self) -> (r: MalFunc)
        ensures
            r@ == self@,
    {
        clone_func(self)
    }
}

impl View for MalList {
    type V = Seq<MalV>;

    open spec fn view(&self) -> Seq<MalV> {
        view_mal_seq(self.items@)
    }
}

impl View for MalArr {
    type V = Seq<MalV>;

    open spec fn view(&self) -> Seq<MalV> {
        view_mal_seq(self.items@)
    }
}

impl View for MalMap {
    type V = Seq<(KeyV, MalV)>;

    open spec fn view(&self) -> Seq<(KeyV, MalV)> {
        view_entry_seq(self.entries@)
    }
}

/// Deep-copies a parameter list.
pub(crate) fn clone_symbols(v: &Vec<Symbol>) -> (r: Vec<Symbol>)
    ensures
        view_sym_seq(r@) == view_sym_seq(v@),
{
    let mut r: Vec<Symbol> = Vec::new();
    let mut i: usize = 0;
    while i < v.len()
        invariant
            i <= v.len(),
            r@.len() == i,
            forall|j: int| 0 <= j < i ==> r@[j].inner@ == v@[j].inner@,
        decreases v.len() - i,
    {
        r.push(v[i].clone());
        i = i + 1;
    }
    proof {
        assert(view_sym_seq(r@) =~= view_sym_seq(v@));
    }
    r
}

impl View for Symbol {
    type V = Seq<char>;

    open spec fn view(&self) -> Seq<char> {
        self.inner@
    }
}

impl View for Keyword {
    type V = Seq<char>;

    open spec fn view(&self) -> Seq<char> {
        self.sym@
    }
}

impl View for MapKey {
    type V = KeyV;

    open spec fn view(&self) -> KeyV {
        view_key(*self)
    }
}

impl View for MalFunc {
    type V = FuncV;

    open spec fn view(&self) -> FuncV {
        view_func(*self)
    }
}

} // verus!

verus! {

// ------------------------------------------------------------------
// Character-level string comparison.
// ------------------------------------------------------------------

/// Compares two string slices character by character.
pub fn str_eq(a: &str, b: &str) -> (r: bool)
    ensures
        r == (a@ == b@),
{
    let alen = a.unicode_len();
    if alen != b.unicode_len() {
        return false;
    }
    let mut i: usize = 0;
    while i < alen
        invariant
            alen == a@.len(),
            alen == b@.len(),
            i <= alen,
            forall|j: int| 0 <= j < i ==> a@[j] == b@[j],
        decreases alen - i,
    {
        if a.get_char(i) != b.get_char(i) {
            return false;
        }
        i = i + 1;
    }
    proof {
        assert(a@ =~= b@);
    }
    true
}

// ------------------------------------------------------------------
// Shape queries and conversions.
// ------------------------------------------------------------------

/// The name of a value's variant, as shown in type errors.
pub open spec fn kind_name_v(v: MalV) -> Seq<char> {
    match v {
        MalV::List(_) => "list"@,
        MalV::Arr(_) => "array"@,
        MalV::Num(_) => "number"@,
        MalV::Sym(_) => "symbol"@,
        MalV::Str(_) => "string"@,
        MalV::Bool(_) => "boolean"@,
        MalV::Kw(_) => "keyword"@,
        MalV::Dict(_) => "hashmap"@,
        MalV::Func(_) => "function"@,
        MalV::Nil => "nil"@,
    }
}

/// The typed error produced when `expected` was wanted but `got` arrived.
pub open spec fn type_err_v(expected: Seq<char>, got: MalV) -> crate::errors::ErrV {
    crate::errors::ErrV::Type(expected, kind_name_v(got))
}

impl Mal {
    pub fn kind_name(&self) -> (r: &'static str)
        ensures
            r@ == kind_name_v(self@),
    {
        match *self {
            Mal::List(_) => "list",
            Mal::Arr(_) => "array",
            Mal::Num(_) => "number",
            Mal::Sym(_) => "symbol",
            Mal::Str(_) => "string",
            Mal::Bool(_) => "boolean",
            Mal::Kw(_) => "keyword",
            Mal::Dict(_) => "hashmap",
            Mal::Func(_) => "function",
            Mal::Nil => "nil",
        }
    }

    /// The typed error for a conversion that found this value instead of
    /// a value of the expected shape.
    fn conv_err(&self, expected: &str) -> (e: crate::errors::MalError)
        ensures
            e@ == type_err_v(expected@, self@),
    {
        crate::errors::MalError::Type {
            expected: String::from_str(expected),
            got: String::from_str(self.kind_name()),
        }
    }

    pub fn number(&self) -> (r: Result<i64, crate::errors::MalError>)
        ensures
            match r {
                Ok(n) => self@ == MalV::Num(n),
                Err(e) => !(self@ is Num) && e@ == type_err_v("number"@, self@),
            },
    {
        match self {
            Mal::Num(n) => Ok(*n),
            _ => Err(self.conv_err("number")),
        }
    }

    /// Borrows the items of a list or a vector.
    pub fn as_list_or_array(&self) -> (r: Result<&Vec<Mal>, crate::errors::MalError>)
        ensures
            match r {
                Ok(v) => (self@ == MalV::List(view_mal_seq(v@)) || self@ == MalV::Arr(
                    view_mal_seq(v@),
                )),
                Err(e) => !(self@ is List) && !(self@ is Arr) && e@ == type_err_v(
                    "array or list"@,
                    self@,
                ),
            },
    {
        match self {
            Mal::List(l) => Ok(&l.items),
            Mal::Arr(a) => Ok(&a.items),
            _ => Err(self.conv_err("array or list")),
        }
    }

    /// Borrows the function inside a callable value.
    pub fn as_function(&self) -> (r: Result<&MalFunc, crate::errors::MalError>)
        ensures
            match r {
                Ok(f) => self@ == MalV::Func(f@),
                Err(e) => !(self@ is Func) && e@ == type_err_v("function"@, self@),
            },
    {
        match self {
            Mal::Func(f) => Ok(f),
            _ => Err(self.conv_err("function")),
        }
    }

    pub fn list(self) -> (r: Result<MalList, crate::errors::MalError>)
        ensures
            match r {
                Ok(l) => self@ == MalV::List(l@),
                Err(e) => !(self@ is List) && e@ == type_err_v("list"@, self@),
            },
    {
        match self {
            Mal::List(l) => Ok(l),
            other => Err(other.conv_err("list")),
        }
    }

    pub fn symbol(self) -> (r: Result<Symbol, crate::errors::MalError>)
        ensures
            match r {
                Ok(s) => self@ == MalV::Sym(s@),
                Err(e) => !(self@ is Sym) && e@ == type_err_v("symbol"@, self@),
            },
    {
        match self {
            Mal::Sym(s) => Ok(s),
            other => Err(other.conv_err("symbol")),
        }
    }

    pub fn is_truesy(&self) -> (r: bool)
        ensures
            r == is_truesy_v(self@),
    {
        match self {
            Mal::Nil => false,
            Mal::Bool(b) => *b,
            _ => true,
        }
    }
}

/// Everything but `nil` and `false` counts as true in a condition.
pub open spec fn is_truesy_v(v: MalV) -> bool {
    match v {
        MalV::Nil => false,
        MalV::Bool(b) => b,
        _ => true,
    }
}

// ------------------------------------------------------------------
// Structural equality.  A list and a vector holding equal elements in
// equal order compare equal to each other; maps compare regardless of
// entry order; natives compare by name; closures compare by parameters,
// body and captured bindings (the rollback history is bookkeeping, not
// part of a value's identity).
// ------------------------------------------------------------------

pub open spec fn seqs_equal_from_v(x: Seq<MalV>, y: Seq<MalV>, i: int) -> bool
    decreases x, x.len() - i,
{
    if 0 <= i < x.len() {
        mal_equal_v(x[i], y[i]) && seqs_equal_from_v(x, y, i + 1)
    } else {
        true
    }
}

pub open spec fn dict_lookup_from_v(s: Seq<(KeyV, MalV)>, k: KeyV, i: int) -> Option<MalV>
    decreases s.len() - i,
{
    if 0 <= i < s.len() {
        if s[i].0 == k {
            Option::Some(s[i].1)
        } else {
            dict_lookup_from_v(s, k, i + 1)
        }
    } else {
        Option::None
    }
}

/// The value bound to the first entry with key `k`, if any.
pub open spec fn dict_lookup_v(s: Seq<(KeyV, MalV)>, k: KeyV) -> Option<MalV> {
    dict_lookup_from_v(s, k, 0)
}

pub open spec fn dict_entry_ok_v(entry: (KeyV, MalV), e: Seq<(KeyV, MalV)>) -> bool
    decreases entry, 0int,
{
    match dict_lookup_v(e, entry.0) {
        Option::Some(w) => mal_equal_v(entry.1, w),
        Option::None => false,
    }
}

pub open spec fn dicts_equal_v(d: Seq<(KeyV, MalV)>, e: Seq<(KeyV, MalV)>) -> bool
    decreases d, 0int,
{
    d.len() == e.len() && forall|i: int| 0 <= i < d.len() ==> dict_entry_ok_v(#[trigger] d[i], e)
}

pub open spec fn binds_equal_from_v(
    x: Seq<(Seq<char>, MalV)>,
    y: Seq<(Seq<char>, MalV)>,
    i: int,
) -> bool
    decreases x, x.len() - i,
{
    if 0 <= i < x.len() {
        x[i].0 == y[i].0 && mal_equal_v(x[i].1, y[i].1) && binds_equal_from_v(x, y, i + 1)
    } else {
        true
    }
}

pub open spec fn envs_equal_v(e1: EnvV, e2: EnvV) -> bool
    decreases e1, 0int,
{
    e1.map.len() == e2.map.len() && binds_equal_from_v(e1.map, e2.map, 0)
}

pub open spec fn funcs_equal_v(f: FuncV, g: FuncV) -> bool
    decreases f, 0int,
{
    match f {
        FuncV::Native(n) => g == FuncV::Native(n),
        FuncV::Closure(p, e, b) => match g {
            FuncV::Closure(q, e2, b2) => p == q && mal_equal_v(*b, *b2) && envs_equal_v(e, e2),
            _ => false,
        },
        FuncV::NamedClosure(nm, p, e, b) => match g {
            FuncV::NamedClosure(nm2, q, e2, b2) => nm == nm2 && p == q && mal_equal_v(*b, *b2)
                && envs_equal_v(e, e2),
            _ => false,
        },
    }
}

/// Structural equality of two values, with the cross-variant rule for
/// lists and vectors.
pub open spec fn mal_equal_v(a: MalV, b: MalV) -> bool
    decreases a, 0int,
{
    match a {
        MalV::List(x) => match b {
            MalV::List(y) => x.len() == y.len() && seqs_equal_from_v(x, y, 0),
            MalV::Arr(y) => x.len() == y.len() && seqs_equal_from_v(x, y, 0),
            _ => false,
        },
        MalV::Arr(x) => match b {
            MalV::List(y) => x.len() == y.len() && seqs_equal_from_v(x, y, 0),
            MalV::Arr(y) => x.len() == y.len() && seqs_equal_from_v(x, y, 0),
            _ => false,
        },
        MalV::Num(n) => b == MalV::Num(n),
        MalV::Sym(s) => b == MalV::Sym(s),
        MalV::Str(s) => b == MalV::Str(s),
        MalV::Bool(t) => b == MalV::Bool(t),
        MalV::Kw(s) => b == MalV::Kw(s),
        MalV::Dict(d) => match b {
            MalV::Dict(e) => dicts_equal_v(d, e),
            _ => false,
        },
        MalV::Func(f) => match b {
            MalV::Func(g) => funcs_equal_v(f, g),
            _ => false,
        },
        MalV::Nil => b is Nil,
    }
}

fn seqs_equal(x: &Vec<Mal>, y: &Vec<Mal>) -> (r: bool)
    ensures
        r == (view_mal_seq(x@).len() == view_mal_seq(y@).len() && seqs_equal_from_v(
            view_mal_seq(x@),
            view_mal_seq(y@),
            0,
        )),
    decreases *x, 0int,
{
    proof {
        lemma_view_mal_seq_len(x@);
        lemma_view_mal_seq_len(y@);
    }
    if x.len() != y.len() {
        return false;
    }
    let ghost vx = view_mal_seq(x@);
    let ghost vy = view_mal_seq(y@);
    let mut i: usize = 0;
    while i < x.len()
        invariant
            x@.len() == y@.len(),
            i <= x@.len(),
            vx == view_mal_seq(x@),
            vy == view_mal_seq(y@),
            vx.len() == x@.len(),
            vy.len() == y@.len(),
            seqs_equal_from_v(vx, vy, i as int) == seqs_equal_from_v(vx, vy, 0),
        decreases x@.len() - i,
    {
        proof {
            lemma_view_mal_seq_index(x@, i as int);
            lemma_view_mal_seq_index(y@, i as int);
            assert(seqs_equal_from_v(vx, vy, i as int) == (mal_equal_v(vx[i as int], vy[i as int])
                && seqs_equal_from_v(vx, vy, i + 1)));
        }
        if !mal_equal(&x[i], &y[i]) {
            return false;
        }
        i = i + 1;
    }
    true
}

fn dict_lookup<'a>(e: &'a Vec<(MapKey, Mal)>, k: &MapKey) -> (r: Option<&'a Mal>)
    ensures
        match r {
            Option::Some(m) => dict_lookup_v(view_entry_seq(e@), k@) == Option::Some(view_mal(*m)),
            Option::None => dict_lookup_v(view_entry_seq(e@), k@) is None,
        },
{
    broadcast use group_view_lemmas;

    proof {
        lemma_view_entry_seq_len(e@);
    }
    let ghost ve = view_entry_seq(e@);
    let mut i: usize = 0;
    while i < e.len()
        invariant
            i <= e@.len(),
            ve == view_entry_seq(e@),
            ve.len() == e@.len(),
            dict_lookup_from_v(ve, k@, i as int) == dict_lookup_from_v(ve, k@, 0),
        decreases e@.len() - i,
    {
        proof {
            lemma_view_entry_seq_index(e@, i as int);
            assert(dict_lookup_from_v(ve, k@, i as int) == (if ve[i as int].0 == k@ {
                Option::Some(ve[i as int].1)
            } else {
                dict_lookup_from_v(ve, k@, i + 1)
            }));
        }
        if key_equal(&e[i].0, k) {
            return Some(&e[i].1);
        }
        i = i + 1;
    }
    None
}

fn key_equal(a: &MapKey, b: &MapKey) -> (r: bool)
    ensures
        r == (a@ == b@),
{
    match (a, b) {
        (MapKey::Str(s), MapKey::Str(t)) => str_eq(s.as_str(), t.as_str()),
        (MapKey::Kw(s), MapKey::Kw(t)) => str_eq(s.sym.as_str(), t.sym.as_str()),
        _ => false,
    }
}

fn dicts_equal(d: &Vec<(MapKey, Mal)>, e: &Vec<(MapKey, Mal)>) -> (r: bool)
    ensures
        r == dicts_equal_v(view_entry_seq(d@), view_entry_seq(e@)),
    decreases *d, 0int,
{
    broadcast use group_view_lemmas;

    proof {
        lemma_view_entry_seq_len(d@);
        lemma_view_entry_seq_len(e@);
    }
    if d.len() != e.len() {
        return false;
    }
    let ghost vd = view_entry_seq(d@);
    let ghost ve = view_entry_seq(e@);
    let mut i: usize = 0;
    while i < d.len()
        invariant
            d@.len() == e@.len(),
            i <= d@.len(),
            vd == view_entry_seq(d@),
            ve == view_entry_seq(e@),
            vd.len() == d@.len(),
            ve.len() == e@.len(),
            forall|j: int| 0 <= j < i ==> dict_entry_ok_v(#[trigger] vd[j], ve),
        decreases d@.len() - i,
    {
        proof {
            lemma_view_entry_seq_index(d@, i as int);
        }
        match dict_lookup(e, &d[i].0) {
            Option::None => {
                proof {
                    assert(!dict_entry_ok_v(vd[i as int], ve));
                }
                return false;
            },
            Option::Some(w) => {
                if !mal_equal(&d[i].1, w) {
                    proof {
                        assert(!dict_entry_ok_v(vd[i as int], ve));
                    }
                    return false;
                }
            },
        }
        i = i + 1;
    }
    true
}

fn syms_equal(x: &Vec<Symbol>, y: &Vec<Symbol>) -> (r: bool)
    ensures
        r == (view_sym_seq(x@) == view_sym_seq(y@)),
{
    if x.len() != y.len() {
        proof {
            assert(view_sym_seq(x@).len() != view_sym_seq(y@).len());
        }
        return false;
    }
    let mut i: usize = 0;
    while i < x.len()
        invariant
            x@.len() == y@.len(),
            i <= x@.len(),
            forall|j: int| 0 <= j < i ==> x@[j].inner@ == y@[j].inner@,
        decreases x@.len() - i,
    {
        if !str_eq(x[i].inner.as_str(), y[i].inner.as_str()) {
            proof {
                assert(view_sym_seq(x@)[i as int] != view_sym_seq(y@)[i as int]);
            }
            return false;
        }
        i = i + 1;
    }
    proof {
        assert(view_sym_seq(x@) =~= view_sym_seq(y@));
    }
    true
}

fn envs_equal(e1: &crate::env::Env, e2: &crate::env::Env) -> (r: bool)
    ensures
        r == envs_equal_v(e1@, e2@),
    decreases *e1, 0int,
{
    proof {
        lemma_view_bind_seq_len(e1.map@);
        lemma_view_bind_seq_len(e2.map@);
    }
    if e1.map.len() != e2.map.len() {
        return false;
    }
    let ghost v1 = view_bind_seq(e1.map@);
    let ghost v2 = view_bind_seq(e2.map@);
    let mut i: usize = 0;
    while i < e1.map.len()
        invariant
            e1.map@.len() == e2.map@.len(),
            i <= e1.map@.len(),
            v1 == view_bind_seq(e1.map@),
            v2 == view_bind_seq(e2.map@),
            v1.len() == e1.map@.len(),
            v2.len() == e2.map@.len(),
            binds_equal_from_v(v1, v2, i as int) == binds_equal_from_v(v1, v2, 0),
        decreases e1.map@.len() - i,
    {
        proof {
            lemma_view_bind_seq_index(e1.map@, i as int);
            lemma_view_bind_seq_index(e2.map@, i as int);
            assert(binds_equal_from_v(v1, v2, i as int) == (v1[i as int].0 == v2[i as int].0
                && mal_equal_v(v1[i as int].1, v2[i as int].1) && binds_equal_from_v(
                v1,
                v2,
                i + 1,
            )));
        }
        if !str_eq(e1.map[i].0.inner.as_str(), e2.map[i].0.inner.as_str()) {
            return false;
        }
        if !mal_equal(&e1.map[i].1, &e2.map[i].1) {
            return false;
        }
        i = i + 1;
    }
    true
}

fn funcs_equal(f: &MalFunc, g: &MalFunc) -> (r: bool)
    ensures
        r == funcs_equal_v(f@, g@),
    decreases *f, 0int,
{
    match (f, g) {
        (MalFunc::Native(n), MalFunc::Native(m)) => *n == *m,
        (MalFunc::Closure(p, e, b), MalFunc::Closure(q, e2, b2)) => syms_equal(p, q) && mal_equal(
            &**b,
            &**b2,
        ) && envs_equal(e, e2),
        (
            MalFunc::NamedClosure(nm, p, e, b),
            MalFunc::NamedClosure(nm2, q, e2, b2),
        ) => str_eq(nm.inner.as_str(), nm2.inner.as_str()) && syms_equal(p, q) && mal_equal(
            &**b,
            &**b2,
        ) && envs_equal(e, e2),
        _ => false,
    }
}

/// Structural equality of two values: the meaning of the `=` builtin.
pub fn mal_equal(a: &Mal, b: &Mal) -> (r: bool)
    ensures
        r == mal_equal_v(a@, b@),
    decreases *a, 0int,
{
    broadcast use group_view_lemmas;

    match (a, b) {
        (Mal::List(x), Mal::List(y)) => seqs_equal(&x.items, &y.items),
        (Mal::List(x), Mal::Arr(y)) => seqs_equal(&x.items, &y.items),
        (Mal::Arr(x), Mal::List(y)) => seqs_equal(&x.items, &y.items),
        (Mal::Arr(x), Mal::Arr(y)) => seqs_equal(&x.items, &y.items),
        (Mal::Num(n), Mal::Num(m)) => *n == *m,
        (Mal::Sym(s), Mal::Sym(t)) => str_eq(s.inner.as_str(), t.inner.as_str()),
        (Mal::Str(s), Mal::Str(t)) => str_eq(s.as_str(), t.as_str()),
        (Mal::Bool(p), Mal::Bool(q)) => *p == *q,
        (Mal::Kw(s), Mal::Kw(t)) => str_eq(s.sym.as_str(), t.sym.as_str()),
        (Mal::Dict(d), Mal::Dict(e)) => dicts_equal(&d.entries, &e.entries),
        (Mal::Func(f), Mal::Func(g)) => funcs_equal(f, g),
        (Mal::Nil, Mal::Nil) => true,
        _ => false,
    }
}

} // verus!

verus! {

// ------------------------------------------------------------------
// Views of updated and shortened vectors.
// ------------------------------------------------------------------

pub proof fn lemma_view_bind_seq_update(s: Seq<(Symbol, Mal)>, i: int, x: (Symbol, Mal))
    requires
        0 <= i < s.len(),
    ensures
        view_bind_seq(s.update(i, x)) == view_bind_seq(s).update(i, (x.0.inner@, view_mal(x.1))),
{
    broadcast use group_view_lemmas;

    assert(view_bind_seq(s.update(i, x)) =~= view_bind_seq(s).update(i, (x.0.inner@, view_mal(x.1))));
}

pub proof fn lemma_view_bind_seq_remove(s: Seq<(Symbol, Mal)>, i: int)
    requires
        0 <= i < s.len(),
    ensures
        view_bind_seq(s.remove(i)) == view_bind_seq(s).remove(i),
{
    broadcast use group_view_lemmas;

    assert(view_bind_seq(s.remove(i)) =~= view_bind_seq(s).remove(i));
}

} // verus!

verus! {

/// The name under which each builtin is registered and printed.
pub open spec fn native_name_v(n: Native) -> Seq<char> {
    match n {
        Native::Add => "+"@,
        Native::Sub => "-"@,
        Native::Mul => "*"@,
        Native::Div => "/"@,
        Native::ListFn => "list"@,
        Native::ListP => "list?"@,
        Native::EmptyP => "empty?"@,
        Native::Count => "count"@,
        Native::Equal => "="@,
        Native::Lt => "<"@,
        Native::Le => "<="@,
        Native::Gt => ">"@,
        Native::Ge => ">="@,
        Native::PrStr => "pr-str"@,
        Native::StrFn => "str"@,
        Native::Prn => "prn"@,
        Native::PrintLn => "println"@,
    }
}

pub fn native_name(n: Native) -> (r: &'static str)
    ensures
        r@ == native_name_v(n),
{
    match n {
        Native::Add => "+",
        Native::Sub => "-",
        Native::Mul => "*",
        Native::Div => "/",
        Native::ListFn => "list",
        Native::ListP => "list?",
        Native::EmptyP => "empty?",
        Native::Count => "count",
        Native::Equal => "=",
        Native::Lt => "<",
        Native::Le => "<=",
        Native::Gt => ">",
        Native::Ge => ">=",
        Native::PrStr => "pr-str",
        Native::StrFn => "str",
        Native::Prn => "prn",
        Native::PrintLn => "println",
    }
}

/// Relies on std's `FromIterator` for `String`: collecting characters
/// yields the string of exactly those characters, in order.
#[verifier::external_body]
pub fn chars_to_string(v: &Vec<char>) -> (r: String)
    ensures
        r@ == v@,
{
    v.iter().collect()
}

/// The characters of a string slice, in order.
pub fn str_to_chars(s: &str) -> (r: Vec<char>)
    ensures
        r@ == s@,
{
    let n = s.unicode_len();
    let mut r: Vec<char> = Vec::new();
    let mut i: usize = 0;
    while i < n
        invariant
            n == s@.len(),
            i <= n,
            r@ == s@.subrange(0, i as int),
        decreases n - i,
    {
        r.push(s.get_char(i));
        proof {
            assert(s@.subrange(0, i + 1) =~= s@.subrange(0, i as int).push(s@[i as int]));
        }
        i = i + 1;
    }
    proof {
        assert(s@.subrange(0, s@.len() as int) =~= s@);
    }
    r
}

/// Appends the characters of a string slice.
pub fn push_str_chars(s: &str, out: &mut Vec<char>)
    ensures
        final(out)@ == old(out)@ + s@,
{
    let n = s.unicode_len();
    let mut i: usize = 0;
    while i < n
        invariant
            n == s@.len(),
            i <= n,
            out@ == old(out)@ + s@.subrange(0, i as int),
        decreases n - i,
    {
        out.push(s.get_char(i));
        proof {
            assert(old(out)@ + s@.subrange(0, i + 1) =~= (old(out)@ + s@.subrange(
                0,
                i as int,
            )).push(s@[i as int]));
        }
        i = i + 1;
    }
    proof {
        assert(s@.subrange(0, s@.len() as int) =~= s@);
    }
}

} // verus!

verus! {

// ------------------------------------------------------------------
// Constructors and small accessors.
// ------------------------------------------------------------------

impl Symbol {
    pub fn new(value: &str) -> (r: Symbol)
        ensures
            r@ == value@,
    {
        Symbol { inner: String::from_str(value) }
    }

    pub fn text(&self) -> (r: &str)
        ensures
            r@ == self@,
    {
        self.inner.as_str()
    }

    pub fn into_string(self) -> (r: String)
        ensures
            r@ == self@,
    {
        self.inner
    }
}

impl Keyword {
    pub fn new(symbol: &str) -> (r: Keyword)
        ensures
            r@ == symbol@,
    {
        Keyword { sym: String::from_str(symbol) }
    }

    pub fn symbol(&self) -> (r: &str)
        ensures
            r@ == self@,
    {
        self.sym.as_str()
    }
}

impl MalList {
    /// An empty list.
    pub fn new() -> (r: MalList)
        ensures
            r@ == Seq::<MalV>::empty(),
    {
        MalList { items: Vec::new() }
    }

    /// Borrows the items.
    pub fn inner(&self) -> (r: &Vec<Mal>)
        ensures
            view_mal_seq(r@) == self@,
    {
        &self.items
    }
}

impl MalArr {
    /// An empty vector literal.
    pub fn new() -> (r: MalArr)
        ensures
            r@ == Seq::<MalV>::empty(),
    {
        MalArr { items: Vec::new() }
    }

    /// Borrows the items.
    pub fn inner(&self) -> (r: &Vec<Mal>)
        ensures
            view_mal_seq(r@) == self@,
    {
        &self.items
    }
}

// ------------------------------------------------------------------
// Map updates: the first entry with the key is replaced in place, or a
// new entry is appended, so keys stay unique.
// ------------------------------------------------------------------

pub open spec fn dict_insert_from_v(
    s: Seq<(KeyV, MalV)>,
    k: KeyV,
    v: MalV,
    i: int,
) -> Seq<(KeyV, MalV)>
    decreases s.len() - i,
{
    if 0 <= i < s.len() {
        if s[i].0 == k {
            s.update(i, (k, v))
        } else {
            dict_insert_from_v(s, k, v, i + 1)
        }
    } else {
        s.push((k, v))
    }
}

/// The map with `k` bound to `v`.
pub open spec fn dict_insert_v(s: Seq<(KeyV, MalV)>, k: KeyV, v: MalV) -> Seq<(KeyV, MalV)> {
    dict_insert_from_v(s, k, v, 0)
}

pub proof fn lemma_view_entry_seq_update(s: Seq<(MapKey, Mal)>, i: int, x: (MapKey, Mal))
    requires
        0 <= i < s.len(),
    ensures
        view_entry_seq(s.update(i, x)) == view_entry_seq(s).update(i, (view_key(x.0), view_mal(x.1))),
{
    broadcast use group_view_lemmas;

    assert(view_entry_seq(s.update(i, x)) =~= view_entry_seq(s).update(
        i,
        (view_key(x.0), view_mal(x.1)),
    ));
}

impl MalMap {
    /// An empty map.
    pub fn new() -> (r: MalMap)
        ensures
            r@ == Seq::<(KeyV, MalV)>::empty(),
    {
        MalMap { entries: Vec::new() }
    }

    /// Binds `key` to `value`; hands back the value it replaced, if any.
    pub fn insert(&mut self, key: MapKey, value: Mal) -> (r: Option<Mal>)
        ensures
            final(self)@ == dict_insert_v(old(self)@, key@, value@),
            match r {
                Option::Some(m) => dict_lookup_v(old(self)@, key@) == Option::Some(m@),
                Option::None => dict_lookup_v(old(self)@, key@) is None,
            },
    {
        broadcast use group_view_lemmas;

        let ghost mv = view_entry_seq(self.entries@);
        proof {
            lemma_view_entry_seq_len(self.entries@);
        }
        let mut j: usize = 0;
        while j < self.entries.len()
            invariant
                j <= self.entries@.len(),
                mv == view_entry_seq(self.entries@),
                mv.len() == self.entries@.len(),
                self.entries@ == old(self).entries@,
                dict_lookup_from_v(mv, key@, j as int) == dict_lookup_v(mv, key@),
                forall|v: MalV|
                    dict_insert_from_v(mv, key@, v, j as int) == #[trigger] dict_insert_v(mv, key@, v),
            decreases self.entries@.len() - j,
        {
            proof {
                lemma_view_entry_seq_index(self.entries@, j as int);
            }
            if key_equal(&self.entries[j].0, &key) {
                proof {
                    assert forall|v: MalV| dict_insert_v(mv, key@, v) == mv.update(
                        j as int,
                        (key@, v),
                    ) by {
                        assert(dict_insert_from_v(mv, key@, v, j as int) == mv.update(
                            j as int,
                            (key@, v),
                        ));
                    }
                }
                let ghost oldentries = self.entries@;
                let mut pair = (key, value);
                let ghost newpair = pair;
                self.entries.set_and_swap(j, &mut pair);
                proof {
                    lemma_view_entry_seq_update(oldentries, j as int, newpair);
                }
                return Some(pair.1);
            }
            proof {
                assert forall|v: MalV| dict_insert_from_v(mv, key@, v, j + 1)
                    == dict_insert_v(mv, key@, v) by {
                    assert(dict_insert_from_v(mv, key@, v, j as int) == dict_insert_from_v(
                        mv,
                        key@,
                        v,
                        j + 1,
                    ));
                }
            }
            j = j + 1;
        }
        let entry = (key, value);
        proof {
            lemma_view_entry_seq_push(self.entries@, entry);
        }
        self.entries.push(entry);
        None
    }
}

} // verus!
