//! The syntax tree that the evaluator walks, and the values it produces.

use crate::text::{decimal, push_decimal};
use vstd::prelude::*;
use vstd::string::*;

verus! {

/// The mathematical model of a fully evaluated value.
pub enum Value {
    Str(Seq<char>),
    I64(i64),
    Bool(bool),
    Tuple(Seq<Value>),
}

/// A fully evaluated value of the language.
#[derive(Debug)]
pub enum Litteral {
    /// A string, like `"hello"`
    Str(String),
    /// A 64 bit signed integer, like `333`
    I64(i64),
    /// A boolean
    Bool(bool),
    /// A tuple, like `(1, 2)`
    Tuple(Vec<Litteral>),
}

impl View for Litteral {
    type V = Value;

    open spec fn view(&self) -> Value
        decreases self,
    {
        match self {
            Litteral::Str(s) => Value::Str(s@),
            Litteral::I64(i) => Value::I64(*i),
            Litteral::Bool(b) => Value::Bool(*b),
            Litteral::Tuple(items) => Value::Tuple(tuple_view(*items, items.len() as nat)),
        }
    }
}

/// The models of the first `n` values of a vector, in order.
pub open spec fn tuple_view(items: Vec<Litteral>, n: nat) -> Seq<Value>
    decreases items, n,
{
    if n == 0 || n > items.len() {
        Seq::empty()
    } else {
        tuple_view(items, (n - 1) as nat).push(items[n - 1]@)
    }
}

/// The models of a run of values, element by element.
pub open spec fn values_of(items: Seq<Litteral>) -> Seq<Value> {
    Seq::new(items.len(), |i: int| items[i]@)
}

proof fn lemma_tuple_view_prefix(items: Vec<Litteral>, n: nat)
    requires
        n <= items.len(),
    ensures
        tuple_view(items, n) == values_of(items@).take(n as int),
    decreases n,
{
    if n > 0 {
        lemma_tuple_view_prefix(items, (n - 1) as nat);
        assert(values_of(items@).take(n as int) =~= values_of(items@).take(n - 1).push(
            items@[n - 1]@,
        ));
    }
}

/// The model of a tuple is the tuple of its elements' models.
pub proof fn lemma_tuple_view(items: Vec<Litteral>)
    ensures
        Litteral::Tuple(items)@ == Value::Tuple(values_of(items@)),
{
    lemma_tuple_view_prefix(items, items.len() as nat);
    assert(values_of(items@).take(items.len() as int) =~= values_of(items@));
}

/// Whether two values have the same shape and the same leaves: strings,
/// integers and booleans are compared with their like, and tuples element
/// by element.
pub open spec fn same_structure(a: Value, b: Value) -> bool
    decreases a,
{
    match (a, b) {
        (Value::Str(x), Value::Str(y)) => x == y,
        (Value::I64(x), Value::I64(y)) => x == y,
        (Value::Bool(x), Value::Bool(y)) => x == y,
        (Value::Tuple(xs), Value::Tuple(ys)) => xs.len() == ys.len() && forall|i: int|
            0 <= i < xs.len() ==> same_structure(xs[i], #[trigger] ys[i]),
        _ => false,
    }
}

/// Equality of values is structural and recursive: two values are equal
/// exactly when they have the same shape and the same leaves.
pub proof fn lemma_equality_is_structural(a: Value, b: Value)
    ensures
        (a == b) <==> same_structure(a, b),
    decreases a,
{
    match (a, b) {
        (Value::Tuple(xs), Value::Tuple(ys)) => {
            if xs.len() == ys.len() {
                assert forall|i: int| 0 <= i < xs.len() implies (xs[i] == ys[i]
                    <==> same_structure(xs[i], #[trigger] ys[i])) by {
                    lemma_equality_is_structural(xs[i], ys[i]);
                }
                if same_structure(a, b) {
                    assert(xs =~= ys);
                }
            }
        },
        _ => {},
    }
}

/// How a value is shown: a string as its raw content, an integer in
/// decimal, a boolean as `true` or `false`, and a tuple in parentheses with
/// its elements separated by a comma and a space. A tuple of one element
/// carries a trailing comma, as in `(1,)`; the empty tuple is `()`.
pub open spec fn display(v: Value) -> Seq<char>
    decreases v, 0nat,
{
    match v {
        Value::Str(s) => s,
        Value::I64(i) => decimal(i as int),
        Value::Bool(b) => if b {
            "true"@
        } else {
            "false"@
        },
        Value::Tuple(items) => if items.len() == 1 {
            "("@ + display(items[0]) + ",)"@
        } else {
            "("@ + display_joined(items, items.len()) + ")"@
        },
    }
}

/// The first `n` elements of `items` as shown, joined by a comma and a
/// space.
pub open spec fn display_joined(items: Seq<Value>, n: nat) -> Seq<char>
    decreases items, n,
{
    if n == 0 || n > items.len() {
        Seq::empty()
    } else if n == 1 {
        display(items[0])
    } else {
        display_joined(items, (n - 1) as nat) + ", "@ + display(items[n - 1])
    }
}

impl Litteral {
    /// Appends this value, as shown by [`display`], to `out`.
    pub fn write_to(&self, out: &mut String)
        ensures
            final(out)@ == old(out)@ + display(self@),
        decreases self,
    {
        match self {
            Litteral::Str(s) => {
                out.append(s.as_str());
            },
            Litteral::I64(i) => {
                push_decimal(out, *i);
            },
            Litteral::Bool(b) => {
                if *b {
                    out.append("true");
                } else {
                    out.append("false");
                }
            },
            Litteral::Tuple(items) => {
                proof {
                    lemma_tuple_view(*items);
                }
                let ghost before = out@;
                out.append("(");
                let mut i: usize = 0;
                while i < items.len()
                    invariant
                        i <= items.len(),
                        self is Tuple,
                        self->Tuple_0 == *items,
                        out@ == before + "("@ + display_joined(values_of(items@), i as nat),
                    decreases items.len() - i,
                {
                    if i > 0 {
                        out.append(", ");
                    }
                    items[i].write_to(out);
                    i += 1;
                    assert(out@ =~= before + "("@ + display_joined(
                        values_of(items@),
                        i as nat,
                    ));
                }
                if items.len() == 1 {
                    out.append(",)");
                } else {
                    out.append(")");
                }
            },
        }
    }

    /// This value as shown by [`display`].
    pub fn to_string(&self) -> (r: String)
        ensures
            r@ == display(self@),
    {
        let mut out = String::new();
        self.write_to(&mut out);
        out
    }

    /// Structural comparison: two values are the same when they have the
    /// same shape and the same leaves, tuples being compared element by
    /// element.
    pub fn same(&self, other: &Litteral) -> (r: bool)
        ensures
            r == (self@ == other@),
        decreases self,
    {
        match self {
            Litteral::Str(a) => match other {
                Litteral::Str(b) => *a == *b,
                _ => false,
            },
            Litteral::I64(a) => match other {
                Litteral::I64(b) => *a == *b,
                _ => false,
            },
            Litteral::Bool(a) => match other {
                Litteral::Bool(b) => *a == *b,
                _ => false,
            },
            Litteral::Tuple(a) => match other {
                Litteral::Tuple(b) => {
                    proof {
                        lemma_tuple_view(*a);
                        lemma_tuple_view(*b);
                    }
                    if a.len() != b.len() {
                        assert(values_of(a@).len() != values_of(b@).len());
                        return false;
                    }
                    let mut i: usize = 0;
                    while i < a.len()
                        invariant
                            i <= a.len(),
                            a.len() == b.len(),
                            self is Tuple,
                            self->Tuple_0 == *a,
                            other is Tuple,
                            other->Tuple_0 == *b,
                            self@ == Value::Tuple(values_of(a@)),
                            other@ == Value::Tuple(values_of(b@)),
                            forall|j: int| 0 <= j < i ==> a[j]@ == b[j]@,
                        decreases a.len() - i,
                    {
                        if !a[i].same(&b[i]) {
                            assert(values_of(a@)[i as int] != values_of(b@)[i as int]);
                            return false;
                        }
                        i += 1;
                    }
                    assert(values_of(a@) =~= values_of(b@));
                    true
                },
                _ => false,
            },
        }
    }

    /// A deep copy with the same model.
    pub fn duplicate(&self) -> (r: Litteral)
        ensures
            r@ == self@,
        decreases self,
    {
        match self {
            Litteral::Str(s) => Litteral::Str(s.clone()),
            Litteral::I64(i) => Litteral::I64(*i),
            Litteral::Bool(b) => Litteral::Bool(*b),
            Litteral::Tuple(items) => {
                let mut copies: Vec<Litteral> = Vec::new();
                let mut i: usize = 0;
                while i < items.len()
                    invariant
                        i <= items.len(),
                        copies.len() == i,
                        self is Tuple,
                        self->Tuple_0 == *items,
                        forall|j: int| 0 <= j < i ==> copies[j]@ == items[j]@,
                    decreases items.len() - i,
                {
                    let copy = items[i].duplicate();
                    copies.push(copy);
                    i += 1;
                }
                proof {
                    lemma_tuple_view(*items);
                    lemma_tuple_view(copies);
                    assert(values_of(copies@) =~= values_of(items@));
                }
                Litteral::Tuple(copies)
            },
        }
    }
}

impl Clone for Litteral {
    fn clone(&self) -> (r: Self)
        ensures
            r@ == self@,
    {
        self.duplicate()
    }
}

impl PartialEq for Litteral {
    fn eq(&self, other: &Self) -> (r: bool) {
        self.same(other)
    }
}

impl vstd::std_specs::cmp::PartialEqSpecImpl for Litteral {
    open spec fn obeys_eq_spec() -> bool {
        true
    }

    open spec fn eq_spec(&self, other: &Self) -> bool {
        self@ == other@
    }
}

/// The operators that take two evaluated operands.
///
/// Equality and inequality apply to any two values; the others apply to
/// integers only.
#[derive(Clone, Copy, Debug, PartialEq, Eq, Structural)]
pub enum Op {
    /// Check for equality with ==
    Equal,
    /// Check for inequality with !=
    NotEqual,
    /// Compare with <=
    Leq,
    /// Compare with <
    Less,
    /// Compare with >=
    Geq,
    /// Compare with >
    Greater,
    /// Addition
    Add,
    /// Subtraction
    Sub,
    /// Multiplication
    Mul,
    /// Division
    Div,
    /// Modulo
    Mod,
}

/// The operators between booleans that evaluate their right operand only
/// when the left one does not decide the result.
#[derive(Clone, Copy, Debug, PartialEq, Eq, Structural)]
pub enum BoolOp {
    /// The && operator
    And,
    /// The || operator
    Or,
}

/// The mathematical model of an expression.
pub enum ExprView {
    Call(Seq<char>, Seq<ExprView>),
    Litt(Value),
    Declare(Seq<char>, Box<ExprView>),
    Assign(Seq<char>, Box<ExprView>),
    Block(Seq<ExprView>),
    BinOp(Op, Box<ExprView>, Box<ExprView>),
    ConditionalOp(BoolOp, Box<ExprView>, Box<ExprView>),
    IfElse(Box<ExprView>, Seq<ExprView>, Seq<ExprView>),
    Not(Box<ExprView>),
    MakeTuple(Seq<ExprView>),
    Name(Seq<char>),
}

/// An expression of the language. Statements are expressions too: each
/// evaluates to a value.
#[derive(Debug, PartialEq)]
pub enum Expr {
    /// Call a function by name, with argument expressions
    Call(String, Vec<Expr>),
    /// A value written in the source
    Litt(Litteral),
    /// A variable declaration, like `x := 2`
    Declare(String, Box<Expr>),
    /// A variable assignment, like `x = 3`
    Assign(String, Box<Expr>),
    /// A block of expressions, evaluated in a scope of its own
    Block(Vec<Expr>),
    /// A binary operation between two operands
    BinOp(Op, Box<Expr>, Box<Expr>),
    /// A short-circuiting operation between two booleans
    ConditionalOp(BoolOp, Box<Expr>, Box<Expr>),
    /// An if else expression, like `if y { 3 } else { 4 }`
    IfElse(Box<Expr>, Vec<Expr>, Vec<Expr>),
    /// The unary negation operator !
    Not(Box<Expr>),
    /// The tuple constructor
    MakeTuple(Vec<Expr>),
    /// A reference to a variable by name
    Name(String),
}

impl View for Expr {
    type V = ExprView;

    open spec fn view(&self) -> ExprView
        decreases self,
    {
        match self {
            Expr::Call(name, args) => ExprView::Call(name@, run_view(*args, args.len() as nat)),
            Expr::Litt(l) => ExprView::Litt(l@),
            Expr::Declare(name, e) => ExprView::Declare(name@, Box::new((**e)@)),
            Expr::Assign(name, e) => ExprView::Assign(name@, Box::new((**e)@)),
            Expr::Block(exprs) => ExprView::Block(run_view(*exprs, exprs.len() as nat)),
            Expr::BinOp(op, l, r) => ExprView::BinOp(*op, Box::new((**l)@), Box::new((**r)@)),
            Expr::ConditionalOp(op, l, r) => ExprView::ConditionalOp(
                *op,
                Box::new((**l)@),
                Box::new((**r)@),
            ),
            Expr::IfElse(c, t, e) => ExprView::IfElse(
                Box::new((**c)@),
                run_view(*t, t.len() as nat),
                run_view(*e, e.len() as nat),
            ),
            Expr::Not(e) => ExprView::Not(Box::new((**e)@)),
            Expr::MakeTuple(exprs) => ExprView::MakeTuple(run_view(*exprs, exprs.len() as nat)),
            Expr::Name(name) => ExprView::Name(name@),
        }
    }
}

/// The models of the first `n` expressions of a vector, in order.
pub open spec fn run_view(exprs: Vec<Expr>, n: nat) -> Seq<ExprView>
    decreases exprs, n,
{
    if n == 0 || n > exprs.len() {
        Seq::empty()
    } else {
        run_view(exprs, (n - 1) as nat).push(exprs[n - 1]@)
    }
}

/// The models of a run of expressions, element by element.
pub open spec fn exprs_of(exprs: Seq<Expr>) -> Seq<ExprView> {
    Seq::new(exprs.len(), |i: int| exprs[i]@)
}

proof fn lemma_run_view_prefix(exprs: Vec<Expr>, n: nat)
    requires
        n <= exprs.len(),
    ensures
        run_view(exprs, n) == exprs_of(exprs@).take(n as int),
    decreases n,
{
    if n > 0 {
        lemma_run_view_prefix(exprs, (n - 1) as nat);
        assert(exprs_of(exprs@).take(n as int) =~= exprs_of(exprs@).take(n - 1).push(
            exprs@[n - 1]@,
        ));
    }
}

/// A vector of expressions is modelled element by element.
pub proof fn lemma_run_view(exprs: Vec<Expr>)
    ensures
        run_view(exprs, exprs.len() as nat) == exprs_of(exprs@),
{
    lemma_run_view_prefix(exprs, exprs.len() as nat);
}

/// A deep copy of a run of expressions, with the same models.
pub fn duplicate_run(exprs: &Vec<Expr>) -> (r: Vec<Expr>)
    ensures
        exprs_of(r@) == exprs_of(exprs@),
    decreases exprs, 1nat,
{
    let mut copies: Vec<Expr> = Vec::new();
    let mut i: usize = 0;
    while i < exprs.len()
        invariant
            i <= exprs.len(),
            copies.len() == i,
            forall|j: int| 0 <= j < i ==> copies[j]@ == exprs[j]@,
        decreases exprs.len() - i,
    {
        let copy = exprs[i].duplicate();
        copies.push(copy);
        i += 1;
    }
    copies
}

impl Expr {
    /// A deep copy with the same model.
    pub fn duplicate(&self) -> (r: Expr)
        ensures
            r@ == self@,
        decreases self, 0nat,
    {
        match self {
            Expr::Call(name, args) => {
                let copies = duplicate_run(args);
                proof {
                    lemma_run_view(*args);
                    lemma_run_view(copies);
                }
                Expr::Call(name.clone(), copies)
            },
            Expr::Litt(l) => Expr::Litt(l.duplicate()),
            Expr::Declare(name, e) => Expr::Declare(name.clone(), Box::new(e.duplicate())),
            Expr::Assign(name, e) => Expr::Assign(name.clone(), Box::new(e.duplicate())),
            Expr::Block(exprs) => {
                let copies = duplicate_run(exprs);
                proof {
                    lemma_run_view(*exprs);
                    lemma_run_view(copies);
                }
                Expr::Block(copies)
            },
            Expr::BinOp(op, l, r) => Expr::BinOp(
                *op,
                Box::new(l.duplicate()),
                Box::new(r.duplicate()),
            ),
            Expr::ConditionalOp(op, l, r) => Expr::ConditionalOp(
                *op,
                Box::new(l.duplicate()),
                Box::new(r.duplicate()),
            ),
            Expr::IfElse(c, t, e) => {
                let then_part = duplicate_run(t);
                let else_part = duplicate_run(e);
                proof {
                    lemma_run_view(*t);
                    lemma_run_view(then_part);
                    lemma_run_view(*e);
                    lemma_run_view(else_part);
                }
                Expr::IfElse(Box::new(c.duplicate()), then_part, else_part)
            },
            Expr::Not(e) => Expr::Not(Box::new(e.duplicate())),
            Expr::MakeTuple(exprs) => {
                let copies = duplicate_run(exprs);
                proof {
                    lemma_run_view(*exprs);
                    lemma_run_view(copies);
                }
                Expr::MakeTuple(copies)
            },
            Expr::Name(name) => Expr::Name(name.clone()),
        }
    }
}

impl Clone for Expr {
    fn clone(&self) -> (r: Self)
        ensures
            r@ == self@,
    {
        self.duplicate()
    }
}

/// The mathematical model of the name of a type.
pub enum TypeNameView {
    Name(Seq<char>),
    Tuple(Seq<TypeNameView>),
}

/// A name of a type as written in the source; nothing is checked against it.
#[derive(Debug, PartialEq)]
pub enum TypeName {
    /// A raw name of a type
    Name(String),
    /// A tuple of type names
    Tuple(Vec<TypeName>),
}

impl View for TypeName {
    type V = TypeNameView;

    open spec fn view(&self) -> TypeNameView
        decreases self,
    {
        match self {
            TypeName::Name(name) => TypeNameView::Name(name@),
            TypeName::Tuple(parts) => TypeNameView::Tuple(
                type_run_view(*parts, parts.len() as nat),
            ),
        }
    }
}

/// The models of the first `n` names of types of a vector, in order.
pub open spec fn type_run_view(parts: Vec<TypeName>, n: nat) -> Seq<TypeNameView>
    decreases parts, n,
{
    if n == 0 || n > parts.len() {
        Seq::empty()
    } else {
        type_run_view(parts, (n - 1) as nat).push(parts[n - 1]@)
    }
}

impl TypeName {
    /// A deep copy with the same model.
    pub fn duplicate(&self) -> (r: TypeName)
        ensures
            r@ == self@,
        decreases self,
    {
        match self {
            TypeName::Name(name) => TypeName::Name(name.clone()),
            TypeName::Tuple(parts) => {
                let mut copies: Vec<TypeName> = Vec::new();
                let mut i: usize = 0;
                while i < parts.len()
                    invariant
                        i <= parts.len(),
                        copies.len() == i,
                        self is Tuple,
                        self->Tuple_0 == *parts,
                        type_run_view(copies, i as nat) == type_run_view(*parts, i as nat),
                    decreases parts.len() - i,
                {
                    let ghost before = copies;
                    let copy = parts[i].duplicate();
                    copies.push(copy);
                    proof {
                        lemma_type_run_view_grows(before, copies, i as nat);
                    }
                    i += 1;
                }
                TypeName::Tuple(copies)
            },
        }
    }
}

/// The models of the first names of a vector do not depend on what comes
/// after them.
proof fn lemma_type_run_view_grows(short: Vec<TypeName>, long: Vec<TypeName>, n: nat)
    requires
        n <= short.len() <= long.len(),
        forall|i: int| 0 <= i < short.len() ==> short[i] == long[i],
    ensures
        type_run_view(long, n) == type_run_view(short, n),
    decreases n,
{
    if n > 0 {
        lemma_type_run_view_grows(short, long, (n - 1) as nat);
    }
}

impl Clone for TypeName {
    fn clone(&self) -> (r: Self)
        ensures
            r@ == self@,
    {
        self.duplicate()
    }
}

/// The model of the name of a type, where there is one.
pub open spec fn declared_type(name: Option<TypeName>) -> Option<TypeNameView> {
    match name {
        Some(t) => Some(t@),
        None => None,
    }
}

/// The mathematical model of a function definition.
pub struct FunctionView {
    /// The name by which the function is called
    pub name: Seq<char>,
    /// The names of the parameters, in order
    pub params: Seq<Seq<char>>,
    /// The types of the parameters as far as they were declared, in the
    /// order of the parameters
    pub types: Seq<Option<TypeNameView>>,
    /// The return type, if it was declared
    pub ret: Option<TypeNameView>,
    /// The expressions that make up the body
    pub body: Seq<ExprView>,
}

/// A function definition: a name, named parameters, and the expressions to
/// evaluate when it is called.
#[derive(Debug, PartialEq)]
pub struct Function {
    /// The name by which the function is called
    pub name: String,
    /// The parameters, each with the type that the source gave it, if any
    pub args: Vec<(String, Option<TypeName>)>,
    /// The return type that the source declared, if any
    pub ret: Option<TypeName>,
    /// The expressions that make up the body
    pub body: Vec<Expr>,
}

impl View for Function {
    type V = FunctionView;

    open spec fn view(&self) -> FunctionView {
        FunctionView {
            name: self.name@,
            params: Seq::new(self.args@.len(), |i: int| self.args@[i].0@),
            types: Seq::new(self.args@.len(), |i: int| declared_type(self.args@[i].1)),
            ret: declared_type(self.ret),
            body: exprs_of(self.body@),
        }
    }
}

impl Clone for Function {
    fn clone(&self) -> (r: Self)
        ensures
            r@ == self@,
    {
        let mut args: Vec<(String, Option<TypeName>)> = Vec::new();
        let mut i: usize = 0;
        while i < self.args.len()
            invariant
                i <= self.args.len(),
                args.len() == i,
                forall|j: int| 0 <= j < i ==> args[j].0@ == self.args[j].0@,
                forall|j: int|
                    0 <= j < i ==> declared_type(args[j].1) == declared_type(self.args[j].1),
            decreases self.args.len() - i,
        {
            let declared = match &self.args[i].1 {
                Some(t) => Some(t.duplicate()),
                None => None,
            };
            args.push((self.args[i].0.clone(), declared));
            i += 1;
        }
        let ret = match &self.ret {
            Some(t) => Some(t.duplicate()),
            None => None,
        };
        let r = Function { name: self.name.clone(), args, ret, body: duplicate_run(&self.body) };
        assert(r@.params =~= self@.params);
        assert(r@.types =~= self@.types);
        r
    }
}

/// The models of a run of functions, element by element.
pub open spec fn functions_of(functions: Seq<Function>) -> Seq<FunctionView> {
    Seq::new(functions.len(), |i: int| functions[i]@)
}

/// A whole program: its functions in the order of the source.
#[derive(Debug, PartialEq)]
pub struct AST {
    pub functions: Vec<Function>,
}

impl View for AST {
    type V = Seq<FunctionView>;

    open spec fn view(&self) -> Seq<FunctionView> {
        functions_of(self.functions@)
    }
}

impl Clone for AST {
    fn clone(&self) -> (r: Self)
        ensures
            r@ == self@,
    {
        let mut functions: Vec<Function> = Vec::new();
        let mut i: usize = 0;
        while i < self.functions.len()
            invariant
                i <= self.functions.len(),
                functions.len() == i,
                forall|j: int| 0 <= j < i ==> functions[j]@ == self.functions[j]@,
            decreases self.functions.len() - i,
        {
            functions.push(self.functions[i].clone());
            i += 1;
        }
        AST { functions }
    }
}

} // verus!
