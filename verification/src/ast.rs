//! The value and tree representation: atoms, cons pairs, and functions.

use vstd::prelude::*;

verus! {

/// The text representation used throughout the interpreter: a sequence
/// of characters, viewed in specifications as `Seq<char>`.
pub type Text = Vec<char>;

/// A numeric value: the bit pattern of an IEEE-754 binary64 number,
/// together with the decimal text it is rendered as.
#[derive(Debug)]
pub struct Number {
    pub bits: u64,
    pub text: Text,
}

/// The smallest value unit: literal, symbol, quoted expression,
/// function, or nil.  Evaluation results are atoms.
#[derive(Debug)]
pub enum Atom {
    /// A string literal's decoded contents.
    Str(Text),
    /// A number.
    Num(Number),
    /// A quoted expression: data rather than code.
    Quote(Box<SExpr>),
    /// A symbol name.
    Ident(Text),
    /// A function value.
    Function(Box<Function>),
    /// The empty list, also the false sentinel.
    Nil,
}

/// A symbolic expression: an atom, or a cons pair of two atoms.
#[derive(Debug)]
pub enum SExpr {
    Atom(Atom),
    Cons(Atom, Atom),
}

/// A function value: a fresh identity, plus either a user-defined
/// parameter list and body, or a named built-in routine.
#[derive(Debug)]
pub struct Function {
    /// Identity of this function value; equality of functions goes by
    /// this alone.
    pub id: u64,
    pub def: FunDef,
}

#[derive(Debug)]
pub enum FunDef {
    UserDefined { arg_names: Vec<Text>, body: SExpr },
    Lib { name: Text, which: LibFn },
}

/// The closed set of built-in routines.
#[derive(Clone, Copy, PartialEq, Eq, Structural, Debug)]
pub enum LibFn {
    Let,
    Fn,
    LetFn,
    If,
    Eval,
    Cons,
    Car,
    Cdr,
    Eq,
    Add,
    Sub,
    Mul,
    Div,
    Print,
    Dbg,
}

// ---------------------------------------------------------------------
// Specification-level views of the tree types.  Text becomes Seq<char>.
// ---------------------------------------------------------------------

pub struct NumberV {
    pub bits: u64,
    pub text: Seq<char>,
}

pub enum AtomV {
    Str(Seq<char>),
    Num(NumberV),
    Quote(Box<SExprV>),
    Ident(Seq<char>),
    Function(Box<FunctionV>),
    Nil,
}

pub enum SExprV {
    Atom(AtomV),
    Cons(Box<AtomV>, Box<AtomV>),
}

pub struct FunctionV {
    pub id: u64,
    pub def: FunDefV,
}

pub enum FunDefV {
    UserDefined { arg_names: Seq<Seq<char>>, body: SExprV },
    Lib { name: Seq<char>, which: LibFn },
}

pub open spec fn atom_view(a: Atom) -> AtomV
    decreases a,
{
    match a {
        Atom::Str(t) => AtomV::Str(t@),
        Atom::Num(n) => AtomV::Num(NumberV { bits: n.bits, text: n.text@ }),
        Atom::Quote(e) => AtomV::Quote(Box::new(sexpr_view(*e))),
        Atom::Ident(t) => AtomV::Ident(t@),
        Atom::Function(f) => AtomV::Function(Box::new(fun_view(*f))),
        Atom::Nil => AtomV::Nil,
    }
}

pub open spec fn sexpr_view(e: SExpr) -> SExprV
    decreases e,
{
    match e {
        SExpr::Atom(a) => SExprV::Atom(atom_view(a)),
        SExpr::Cons(h, t) => SExprV::Cons(Box::new(atom_view(h)), Box::new(atom_view(t))),
    }
}

pub open spec fn fun_view(f: Function) -> FunctionV
    decreases f,
{
    FunctionV { id: f.id, def: fundef_view(f.def) }
}

pub open spec fn fundef_view(d: FunDef) -> FunDefV
    decreases d,
{
    match d {
        FunDef::UserDefined { arg_names, body } => FunDefV::UserDefined {
            arg_names: arg_names@.map_values(|t: Text| t@),
            body: sexpr_view(body),
        },
        FunDef::Lib { name, which } => FunDefV::Lib { name: name@, which },
    }
}

impl View for Atom {
    type V = AtomV;

    open spec fn view(&self) -> AtomV {
        atom_view(*self)
    }
}

impl View for SExpr {
    type V = SExprV;

    open spec fn view(&self) -> SExprV {
        sexpr_view(*self)
    }
}

impl View for Function {
    type V = FunctionV;

    open spec fn view(&self) -> FunctionV {
        fun_view(*self)
    }
}

} // verus!

verus! {

// ---------------------------------------------------------------------
// Structural size, used as a termination measure by the evaluator.
// ---------------------------------------------------------------------

pub open spec fn atom_size(a: AtomV) -> nat
    decreases a,
{
    match a {
        AtomV::Quote(e) => 1 + sexpr_size(*e),
        AtomV::Function(f) => 1 + fun_size(*f),
        _ => 1,
    }
}

pub open spec fn fun_size(f: FunctionV) -> nat
    decreases f,
{
    1 + fundef_size(f.def)
}

pub open spec fn fundef_size(d: FunDefV) -> nat
    decreases d,
{
    match d {
        FunDefV::UserDefined { body, .. } => 1 + sexpr_size(body),
        FunDefV::Lib { .. } => 1,
    }
}

pub open spec fn sexpr_size(e: SExprV) -> nat
    decreases e,
{
    match e {
        SExprV::Atom(a) => atom_size(a),
        SExprV::Cons(h, t) => 1 + atom_size(*h) + atom_size(*t),
    }
}

// ---------------------------------------------------------------------
// The equality relation of the language: numbers by IEEE-754 value,
// strings and symbols by content, quotes by deep structure, functions
// by identity, nil only equal to nil.
// ---------------------------------------------------------------------

pub open spec fn atom_equal(a: AtomV, b: AtomV) -> bool
    decreases a,
{
    match (a, b) {
        (AtomV::Str(x), AtomV::Str(y)) => x == y,
        (AtomV::Num(x), AtomV::Num(y)) => crate::num::ieee_eq(x.bits, y.bits),
        (AtomV::Quote(x), AtomV::Quote(y)) => sexpr_equal(*x, *y),
        (AtomV::Ident(x), AtomV::Ident(y)) => x == y,
        (AtomV::Function(f), AtomV::Function(g)) => f.id == g.id,
        (AtomV::Nil, AtomV::Nil) => true,
        _ => false,
    }
}

pub open spec fn sexpr_equal(x: SExprV, y: SExprV) -> bool
    decreases x,
{
    match (x, y) {
        (SExprV::Atom(a), SExprV::Atom(b)) => atom_equal(a, b),
        (SExprV::Cons(h1, t1), SExprV::Cons(h2, t2)) => atom_equal(*h1, *h2)
            && atom_equal(*t1, *t2),
        _ => false,
    }
}

// ---------------------------------------------------------------------
// Executable helpers on text.
// ---------------------------------------------------------------------

/// Character-for-character equality of two texts.
pub fn text_eq(a: &Text, b: &Text) -> (r: bool)
    ensures
        r == (a@ == b@),
{
    if a.len() != b.len() {
        proof {
            assert(a@ != b@);
        }
        return false;
    }
    let n = a.len();
    let mut i: usize = 0;
    while i < n
        invariant
            n == a.len() == b.len(),
            i <= n,
            forall|j: int| 0 <= j < i ==> a@[j] == b@[j],
        decreases n - i,
    {
        if a[i] != b[i] {
            return false;
        }
        i += 1;
    }
    proof {
        assert(a@ =~= b@);
    }
    true
}

/// A copy of a text.
pub fn clone_text(t: &Text) -> (r: Text)
    ensures
        r@ == t@,
{
    let mut r: Text = Vec::new();
    let n = t.len();
    let mut i: usize = 0;
    while i < n
        invariant
            n == t.len(),
            i <= n,
            r@ == t@.take(i as int),
        decreases n - i,
    {
        r.push(t[i]);
        proof {
            assert(r@ =~= t@.take(i + 1 as int));
        }
        i += 1;
    }
    proof {
        assert(t@.take(n as int) =~= t@);
    }
    r
}

} // verus!

verus! {

/// The kind of a value, used in diagnostics.
#[derive(Clone, Copy, PartialEq, Eq, Structural, Debug)]
pub enum ValueKind {
    Str,
    Num,
    Quote,
    Ident,
    Function,
    Nil,
}

pub open spec fn atom_kind(a: AtomV) -> ValueKind {
    match a {
        AtomV::Str(_) => ValueKind::Str,
        AtomV::Num(_) => ValueKind::Num,
        AtomV::Quote(_) => ValueKind::Quote,
        AtomV::Ident(_) => ValueKind::Ident,
        AtomV::Function(_) => ValueKind::Function,
        AtomV::Nil => ValueKind::Nil,
    }
}

impl Atom {
    /// The kind of this value.
    pub fn get_type(&self) -> (k: ValueKind)
        ensures
            k == atom_kind(self@),
    {
        match self {
            Atom::Str(_) => ValueKind::Str,
            Atom::Num(_) => ValueKind::Num,
            Atom::Quote(_) => ValueKind::Quote,
            Atom::Ident(_) => ValueKind::Ident,
            Atom::Function(_) => ValueKind::Function,
            Atom::Nil => ValueKind::Nil,
        }
    }

    /// The quoted expression, if this atom is a quote.
    pub fn as_quote(&self) -> (r: Option<&SExpr>)
        ensures
            match r {
                Some(e) => self@ == AtomV::Quote(Box::new(e@)),
                None => !(self@ is Quote),
            },
    {
        if let Atom::Quote(e) = self {
            Some(&**e)
        } else {
            None
        }
    }

    /// The symbol name, if this atom is a symbol.
    pub fn as_ident(&self) -> (r: Option<&Text>)
        ensures
            match r {
                Some(t) => self@ == AtomV::Ident(t@),
                None => !(self@ is Ident),
            },
    {
        if let Atom::Ident(t) = self {
            Some(t)
        } else {
            None
        }
    }

    /// The symbol name if this atom is a symbol, else the atom back.
    pub fn try_into_ident(self) -> (r: Result<Text, Atom>)
        ensures
            match r {
                Ok(t) => self@ == AtomV::Ident(t@),
                Err(a) => a == self && !(self@ is Ident),
            },
    {
        if let Atom::Ident(t) = self {
            Ok(t)
        } else {
            Err(self)
        }
    }

    /// A structurally identical copy of this atom.
    pub fn deep_clone(&self) -> (r: Atom)
        ensures
            r@ == self@,
        decreases atom_size(self@), 0int,
    {
        match self {
            Atom::Str(t) => Atom::Str(clone_text(t)),
            Atom::Num(n) => Atom::Num(Number { bits: n.bits, text: clone_text(&n.text) }),
            Atom::Quote(e) => Atom::Quote(Box::new(e.deep_clone())),
            Atom::Ident(t) => Atom::Ident(clone_text(t)),
            Atom::Function(f) => Atom::Function(Box::new(f.deep_clone())),
            Atom::Nil => Atom::Nil,
        }
    }
}

impl SExpr {
    /// The atom, if this expression is not a cons pair.
    pub fn as_atom(&self) -> (r: Option<&Atom>)
        ensures
            match r {
                Some(a) => self@ == SExprV::Atom(a@),
                None => !(self@ is Atom),
            },
    {
        if let SExpr::Atom(a) = self {
            Some(a)
        } else {
            None
        }
    }

    /// A structurally identical copy of this expression.
    pub fn deep_clone(&self) -> (r: SExpr)
        ensures
            r@ == self@,
        decreases sexpr_size(self@), 1int,
    {
        match self {
            SExpr::Atom(a) => SExpr::Atom(a.deep_clone()),
            SExpr::Cons(h, t) => SExpr::Cons(h.deep_clone(), t.deep_clone()),
        }
    }
}

impl Function {
    /// The declared operand count.
    pub fn arity(&self) -> (n: usize)
        ensures
            n == fun_arity(self@),
    {
        match &self.def {
            FunDef::UserDefined { arg_names, .. } => arg_names.len(),
            FunDef::Lib { which, .. } => lib_arity_exec(*which),
        }
    }

    /// A copy of this function value; the copy keeps the identity.
    pub fn deep_clone(&self) -> (r: Function)
        ensures
            r@ == self@,
        decreases fun_size(self@), 0int,
    {
        Function { id: self.id, def: self.def.deep_clone() }
    }
}

impl FunDef {
    /// A copy of this function definition.
    pub fn deep_clone(&self) -> (r: FunDef)
        ensures
            fundef_view(r) == fundef_view(*self),
        decreases fundef_size(fundef_view(*self)), 0int,
    {
        match self {
            FunDef::UserDefined { arg_names, body } => {
                let mut names: Vec<Text> = Vec::new();
                let n = arg_names.len();
                let mut i: usize = 0;
                while i < n
                    invariant
                        n == arg_names.len(),
                        i <= n,
                        names@.len() == i,
                        forall|j: int| 0 <= j < i ==> names@[j]@ == arg_names@[j]@,
                    decreases n - i,
                {
                    names.push(clone_text(&arg_names[i]));
                    i += 1;
                }
                proof {
                    assert(names@.map_values(|t: Text| t@) =~= arg_names@.map_values(
                        |t: Text| t@,
                    ));
                }
                FunDef::UserDefined { arg_names: names, body: body.deep_clone() }
            },
            FunDef::Lib { name, which } => FunDef::Lib { name: clone_text(name), which: *which },
        }
    }
}

/// The operand count of each built-in routine.
pub open spec fn lib_arity(which: LibFn) -> usize {
    match which {
        LibFn::Let => 2,
        LibFn::Fn => 2,
        LibFn::LetFn => 3,
        LibFn::If => 3,
        LibFn::Eval => 1,
        LibFn::Cons => 2,
        LibFn::Car => 1,
        LibFn::Cdr => 1,
        LibFn::Eq => 2,
        LibFn::Add => 2,
        LibFn::Sub => 2,
        LibFn::Mul => 2,
        LibFn::Div => 2,
        LibFn::Print => 1,
        LibFn::Dbg => 1,
    }
}

/// The operand count of each built-in routine.
pub fn lib_arity_exec(which: LibFn) -> (n: usize)
    ensures
        n == lib_arity(which),
{
    match which {
        LibFn::Let => 2,
        LibFn::Fn => 2,
        LibFn::LetFn => 3,
        LibFn::If => 3,
        LibFn::Eval => 1,
        LibFn::Cons => 2,
        LibFn::Car => 1,
        LibFn::Cdr => 1,
        LibFn::Eq => 2,
        LibFn::Add => 2,
        LibFn::Sub => 2,
        LibFn::Mul => 2,
        LibFn::Div => 2,
        LibFn::Print => 1,
        LibFn::Dbg => 1,
    }
}

/// The declared operand count of a function.
pub open spec fn fun_arity(f: FunctionV) -> usize {
    match f.def {
        FunDefV::UserDefined { arg_names, .. } => arg_names.len() as usize,
        FunDefV::Lib { which, .. } => lib_arity(which),
    }
}

} // verus!

verus! {

/// Whether two atoms are equal per the language's equality.
pub fn atom_eq(a: &Atom, b: &Atom) -> (r: bool)
    ensures
        r == atom_equal(a@, b@),
    decreases atom_size(a@), 0int,
{
    match (a, b) {
        (Atom::Str(x), Atom::Str(y)) => text_eq(x, y),
        (Atom::Num(x), Atom::Num(y)) => crate::num::num_eq(x.bits, y.bits),
        (Atom::Quote(x), Atom::Quote(y)) => sexpr_eq(x, y),
        (Atom::Ident(x), Atom::Ident(y)) => text_eq(x, y),
        (Atom::Function(f), Atom::Function(g)) => f.id == g.id,
        (Atom::Nil, Atom::Nil) => true,
        _ => false,
    }
}

/// Whether two expressions are structurally equal.
pub fn sexpr_eq(x: &SExpr, y: &SExpr) -> (r: bool)
    ensures
        r == sexpr_equal(x@, y@),
    decreases sexpr_size(x@), 1int,
{
    match (x, y) {
        (SExpr::Atom(a), SExpr::Atom(b)) => atom_eq(a, b),
        (SExpr::Cons(h1, t1), SExpr::Cons(h2, t2)) => atom_eq(h1, h2) && atom_eq(t1, t2),
        _ => false,
    }
}

} // verus!
