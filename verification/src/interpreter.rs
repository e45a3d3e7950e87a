//! The tree-walking evaluator.
//!
//! It walks the syntax tree with a stack of scopes for the variables and a
//! context to print through, and does what [`crate::semantics`] says.

use crate::ast::{
    display, exprs_of, functions_of, lemma_run_view, lemma_tuple_view, values_of, BoolOp, Expr,
    Function, FunctionView, Litteral, Op, Value, AST,
};
use crate::laws::{lemma_call_keeps_scopes, lemma_eval_all_stops, lemma_eval_seq_stops};
use crate::scopes::{
    assign, bind, declare, empty_scope, holder, holder_below, lookup, ScopeView, Scopes,
};
use crate::semantics::{
    apply_op, arity_mismatch, bool_op_name, bound, call, division_by_zero, eval, eval_all,
    eval_seq, expected_bool_operand, expected_int, find_function, find_function_from,
    first_redefinition, first_redefinition_from, op_name, overflow, run, run_within,
    undefined_variable, unit_value, ErrorKind, Fault, Machine, Outcome, CALL_DEPTH,
};
use crate::text::{push_digits, same_text};
use vstd::prelude::*;
use vstd::string::*;

verus! {

/// What the evaluator needs from its surroundings: a place to print to.
///
/// The model of a context is the text that was printed through it so far.
/// An implementation inside of `verus!` defines `output` and proves that
/// `print` appends to it. One in plain Rust keeps the `output` given here;
/// what is stated of the evaluator's printing then rests on the unproved
/// claim that its `print` shows the text it is given after all the text it
/// was given before.
pub trait Context {
    /// All the text printed so far, in order.
    open spec fn output(&self) -> Seq<char> {
        Seq::empty()
    }

    /// Prints a piece of text as it is, without adding a newline.
    fn print(&mut self, data: &str)
        ensures
            final(self).output() == old(self).output() + data@,
    ;
}

/// A context that keeps what is printed in memory.
#[derive(Debug)]
pub struct Capture {
    /// The text printed so far
    pub text: String,
}

impl Capture {
    /// A context through which nothing was printed yet.
    pub fn new() -> (r: Self)
        ensures
            r.output() == Seq::<char>::empty(),
    {
        Capture { text: String::new() }
    }
}

impl Context for Capture {
    open spec fn output(&self) -> Seq<char> {
        self.text@
    }

    fn print(&mut self, data: &str) {
        self.text.append(data);
    }
}

/// An error that stopped the evaluation of a program. Such errors come from
/// the program that is run, not from the evaluator.
#[derive(Debug, PartialEq)]
pub struct InterpreterError {
    /// What kind of error it is
    pub kind: ErrorKind,
    /// The error in words
    pub message: String,
}

impl Clone for InterpreterError {
    fn clone(&self) -> (r: Self)
        ensures
            r@ == self@,
    {
        InterpreterError { kind: self.kind, message: self.message.clone() }
    }
}

impl View for InterpreterError {
    type V = Fault;

    open spec fn view(&self) -> Fault {
        Fault { kind: self.kind, message: self.message@ }
    }
}

/// A result of the evaluator.
pub type InterpreterResult<T> = Result<T, InterpreterError>;

/// The model of the result of an evaluation.
pub open spec fn result_view(r: InterpreterResult<Litteral>) -> Result<Value, Fault> {
    match r {
        Ok(l) => Ok(l@),
        Err(e) => Err(e@),
    }
}

/// The empty tuple, which stands where there is no value to give.
pub fn unit() -> (r: Litteral)
    ensures
        r@ == unit_value(),
{
    let items: Vec<Litteral> = Vec::new();
    proof {
        lemma_tuple_view(items);
    }
    Litteral::Tuple(items)
}

/// The failure of the given kind and message.
pub fn fail<T>(kind: ErrorKind, message: String) -> (r: InterpreterResult<T>)
    ensures
        r matches Err(e) && e@ == (Fault { kind, message: message@ }),
{
    Err(InterpreterError { kind, message })
}

fn name_of_op(op: Op) -> (r: &'static str)
    ensures
        r@ == op_name(op),
{
    match op {
        Op::Equal => "Equal",
        Op::NotEqual => "NotEqual",
        Op::Leq => "Leq",
        Op::Less => "Less",
        Op::Geq => "Geq",
        Op::Greater => "Greater",
        Op::Add => "Add",
        Op::Sub => "Sub",
        Op::Mul => "Mul",
        Op::Div => "Div",
        Op::Mod => "Mod",
    }
}

fn name_of_bool_op(op: BoolOp) -> (r: &'static str)
    ensures
        r@ == bool_op_name(op),
{
    match op {
        BoolOp::And => "And",
        BoolOp::Or => "Or",
    }
}

/// The failure of the given kind whose message is `prefix` followed by
/// `rest`.
fn fail_with<T>(kind: ErrorKind, prefix: &str, rest: &str) -> (r: InterpreterResult<T>)
    ensures
        r matches Err(e) && e@ == (Fault { kind, message: prefix@ + rest@ }),
{
    let mut message = String::from_str(prefix);
    message.append(rest);
    fail(kind, message)
}

fn fail_arity<T>(name: &str, expected: usize, got: usize) -> (r: InterpreterResult<T>)
    ensures
        r matches Err(e) && e@ == arity_mismatch(name@, expected as nat, got as nat),
{
    let mut message = String::from_str("Incorrect number of arguments to function ");
    message.append(name);
    message.append("\n.Expected ");
    push_digits(&mut message, expected as u64);
    message.append(", but got ");
    push_digits(&mut message, got as u64);
    fail(ErrorKind::Arity, message)
}

fn fail_expected_bool_operand<T>(op: BoolOp, found: &Litteral) -> (r: InterpreterResult<T>)
    ensures
        r matches Err(e) && e@ == expected_bool_operand(op, found@),
{
    let mut message = String::from_str("Expected boolean with ");
    message.append(name_of_bool_op(op));
    message.append(", but found ");
    found.write_to(&mut message);
    fail(ErrorKind::ExpectedBool, message)
}

fn fail_expected_int<T>(op: Op, left: &Litteral, right: &Litteral) -> (r: InterpreterResult<T>)
    ensures
        r matches Err(e) && e@ == expected_int(op, left@, right@),
{
    let mut message = String::from_str("Op ");
    message.append(name_of_op(op));
    message.append(" only works on I64, but got ");
    left.write_to(&mut message);
    message.append(" and ");
    right.write_to(&mut message);
    fail(ErrorKind::ExpectedInt, message)
}

fn fail_arithmetic<T>(kind: ErrorKind, op: Op) -> (r: InterpreterResult<T>)
    requires
        kind == ErrorKind::DivisionByZero || kind == ErrorKind::Overflow,
    ensures
        r matches Err(e) && e@ == if kind == ErrorKind::DivisionByZero {
            division_by_zero(op)
        } else {
            overflow(op)
        },
{
    let mut message = String::from_str("Op ");
    message.append(name_of_op(op));
    if kind == ErrorKind::DivisionByZero {
        message.append(" by zero");
    } else {
        message.append(" overflows 64 bits");
    }
    fail(kind, message)
}

/// Applies an operator to two evaluated operands.
pub fn operate(op: Op, left: &Litteral, right: &Litteral) -> (r: InterpreterResult<Litteral>)
    ensures
        result_view(r) == apply_op(op, left@, right@),
{
    match op {
        Op::Equal => Ok(Litteral::Bool(left.same(right))),
        Op::NotEqual => Ok(Litteral::Bool(!left.same(right))),
        _ => {
            let (l, r) = match (left, right) {
                (Litteral::I64(l), Litteral::I64(r)) => (*l, *r),
                _ => {
                    return fail_expected_int(op, left, right);
                },
            };
            let exact = match op {
                Op::Leq => {
                    return Ok(Litteral::Bool(l <= r));
                },
                Op::Less => {
                    return Ok(Litteral::Bool(l < r));
                },
                Op::Geq => {
                    return Ok(Litteral::Bool(l >= r));
                },
                Op::Greater => {
                    return Ok(Litteral::Bool(l > r));
                },
                Op::Add => l.checked_add(r),
                Op::Sub => l.checked_sub(r),
                Op::Mul => l.checked_mul(r),
                Op::Div => {
                    if r == 0 {
                        return fail_arithmetic(ErrorKind::DivisionByZero, op);
                    }
                    l.checked_div(r)
                },
                _ => {
                    if r == 0 {
                        return fail_arithmetic(ErrorKind::DivisionByZero, op);
                    }
                    if r == -1 {
                        Some(0)
                    } else {
                        l.checked_rem(r)
                    }
                },
            };
            match exact {
                Some(v) => Ok(Litteral::I64(v)),
                None => fail_arithmetic(ErrorKind::Overflow, op),
            }
        },
    }
}

/// The model of a scope of values.
pub open spec fn frame(scope: ScopeView<Litteral>) -> ScopeView<Value> {
    ScopeView { nested: scope.nested, vars: scope.vars.map_values(|l: Litteral| l@) }
}

/// The model of a stack of scopes of values.
pub open spec fn frames(scopes: Seq<ScopeView<Litteral>>) -> Seq<ScopeView<Value>> {
    Seq::new(scopes.len(), |i: int| frame(scopes[i]))
}

proof fn lemma_frames_push(scopes: Seq<ScopeView<Litteral>>, nested: bool)
    ensures
        frames(scopes.push(empty_scope(nested))) == frames(scopes).push(empty_scope(nested)),
{
    assert(frame(empty_scope::<Litteral>(nested)).vars =~= empty_scope::<Value>(nested).vars);
}

proof fn lemma_frames_drop_last(scopes: Seq<ScopeView<Litteral>>)
    requires
        scopes.len() > 0,
    ensures
        frames(scopes.drop_last()) == frames(scopes).drop_last(),
{
}

proof fn lemma_frames_holder(scopes: Seq<ScopeView<Litteral>>, n: nat, name: Seq<char>)
    ensures
        holder_below(frames(scopes), n, name) == holder_below(scopes, n, name),
    decreases n,
{
    if n > 0 && n <= scopes.len() {
        lemma_frames_holder(scopes, (n - 1) as nat, name);
    }
}

proof fn lemma_frames_bind(scope: ScopeView<Litteral>, name: Seq<char>, value: Litteral)
    ensures
        frame(bind(scope, name, value)) == bind(frame(scope), name, value@),
{
    assert(frame(bind(scope, name, value)).vars =~= bind(frame(scope), name, value@).vars);
}

proof fn lemma_frames_lookup(scopes: Seq<ScopeView<Litteral>>, name: Seq<char>)
    ensures
        lookup(frames(scopes), name) == match lookup(scopes, name) {
            Some(l) => Some(l@),
            None => None,
        },
{
    lemma_frames_holder(scopes, scopes.len(), name);
    lemma_holder_in_range(scopes, scopes.len(), name);
}

proof fn lemma_frames_assign(scopes: Seq<ScopeView<Litteral>>, name: Seq<char>, value: Litteral)
    ensures
        holder(frames(scopes), name) == holder(scopes, name),
        frames(assign(scopes, name, value)) == assign(frames(scopes), name, value@),
        assign(scopes, name, value).len() == scopes.len(),
{
    lemma_frames_holder(scopes, scopes.len(), name);
    lemma_holder_in_range(scopes, scopes.len(), name);
    match holder(scopes, name) {
        Some(i) => {
            lemma_frames_bind(scopes[i], name, value);
        },
        None => {},
    }
}

proof fn lemma_holder_in_range<T>(scopes: Seq<ScopeView<T>>, n: nat, name: Seq<char>)
    ensures
        holder_below(scopes, n, name) matches Some(i) ==> 0 <= i < n && i < scopes.len()
            && scopes[i].vars.contains_key(name),
    decreases n,
{
    if n > 0 && n <= scopes.len() {
        lemma_holder_in_range(scopes, (n - 1) as nat, name);
    }
}

proof fn lemma_frames_declare(scopes: Seq<ScopeView<Litteral>>, name: Seq<char>, value: Litteral)
    requires
        scopes.len() > 0,
    ensures
        frames(declare(scopes, name, value)) == declare(frames(scopes), name, value@),
{
    lemma_frames_bind(scopes.last(), name, value);
}

/// The evaluator at work: the functions of the program that it runs, and
/// the stack of scopes.
pub struct Interpreter<'a> {
    functions: &'a Vec<Function>,
    scopes: Scopes<Litteral>,
}

impl<'a> Interpreter<'a> {
    /// The program that is run.
    pub closed spec fn prog(&self) -> Seq<FunctionView> {
        functions_of(self.functions@)
    }

    /// The stack of scopes, the last one being the top.
    pub closed spec fn stack(&self) -> Seq<ScopeView<Value>> {
        frames(self.scopes@)
    }

    /// The state of the machine, given the text printed so far.
    pub open spec fn machine(&self, output: Seq<char>) -> Machine {
        Machine { scopes: self.stack(), output }
    }

    /// Whether the evaluator, with `output` printed so far and `res` in
    /// hand, is where the outcome `o` says.
    pub open spec fn settles(
        &self,
        output: Seq<char>,
        res: InterpreterResult<Litteral>,
        o: Outcome,
    ) -> bool {
        &&& self.stack() == o.state.scopes
        &&& output == o.state.output
        &&& result_view(res) == o.result
    }

    /// The evaluator of a program, with no scope entered yet.
    pub fn new(functions: &'a Vec<Function>) -> (r: Self)
        ensures
            r.prog() == functions_of(functions@),
            r.stack() == Seq::<ScopeView<Value>>::empty(),
    {
        Interpreter { functions, scopes: Scopes::new() }
    }

    /// Prints a value as displayed, and a newline after it.
    fn print_litteral<C: Context>(&self, ctx: &mut C, l: &Litteral)
        ensures
            final(ctx).output() == old(ctx).output() + display(l@) + "\n"@,
    {
        let mut line = l.to_string();
        line.append("\n");
        ctx.print(line.as_str());
    }

    /// The value of a variable in sight.
    fn read_name(&self, name: &str) -> (r: InterpreterResult<&Litteral>)
        ensures
            match r {
                Ok(l) => lookup(frames(self.scopes@), name@) == Some(l@),
                Err(e) => lookup(frames(self.scopes@), name@) is None && e@ == undefined_variable(
                    name@,
                ),
            },
    {
        proof {
            lemma_frames_lookup(self.scopes@, name@);
        }
        match self.scopes.get(name) {
            Some(l) => Ok(l),
            None => fail_with(
                ErrorKind::UndefinedVariable,
                "Trying to use undefined variable ",
                name,
            ),
        }
    }

    /// Evaluates a run of expressions one after the other in the scope at
    /// hand, for the value of the last one.
    fn eval_block<C: Context>(&mut self, ctx: &mut C, depth: usize, exprs: &Vec<Expr>) -> (res:
        InterpreterResult<Litteral>)
        requires
            old(self).scopes@.len() > 0,
        ensures
            final(self).prog() == old(self).prog(),
            final(self).scopes@.len() == old(self).scopes@.len(),
            final(self).settles(
                final(ctx).output(),
                res,
                eval_seq(
                    old(self).prog(),
                    depth as nat,
                    old(self).machine(old(ctx).output()),
                    exprs_of(exprs@),
                    exprs@.len(),
                ),
            ),
        decreases depth, 1nat, exprs, 0nat,
    {
        let ghost prog = self.prog();
        let ghost start = self.machine(ctx.output());
        let mut res = unit();
        let mut i: usize = 0;
        while i < exprs.len()
            invariant
                i <= exprs.len(),
                self.scopes@.len() == old(self).scopes@.len(),
                self.scopes@.len() > 0,
                self.prog() == old(self).prog(),
                prog == self.prog(),
                start == old(self).machine(old(ctx).output()),
                self.settles(
                    ctx.output(),
                    Ok(res),
                    eval_seq(prog, depth as nat, start, exprs_of(exprs@), i as nat),
                ),
            decreases exprs.len() - i,
        {
            match self.eval_expr(ctx, depth, &exprs[i]) {
                Ok(v) => {
                    res = v;
                },
                Err(err) => {
                    proof {
                        lemma_eval_seq_stops(
                            prog,
                            depth as nat,
                            start,
                            exprs_of(exprs@),
                            (i + 1) as nat,
                            exprs@.len(),
                        );
                    }
                    return Err(err);
                },
            }
            i += 1;
        }
        Ok(res)
    }

    /// Evaluates a run of expressions one after the other, for all their
    /// values.
    fn eval_all<C: Context>(&mut self, ctx: &mut C, depth: usize, exprs: &Vec<Expr>) -> (res:
        InterpreterResult<Vec<Litteral>>)
        requires
            old(self).scopes@.len() > 0,
        ensures
            final(self).prog() == old(self).prog(),
            final(self).scopes@.len() == old(self).scopes@.len(),
            ({
                let g = eval_all(
                    old(self).prog(),
                    depth as nat,
                    old(self).machine(old(ctx).output()),
                    exprs_of(exprs@),
                    exprs@.len(),
                );
                &&& frames(final(self).scopes@) == g.state.scopes
                &&& final(ctx).output() == g.state.output
                &&& match res {
                    Ok(values) => g.result == Ok::<Seq<Value>, Fault>(values_of(values@)),
                    Err(e) => g.result == Err::<Seq<Value>, Fault>(e@),
                }
            }),
        decreases depth, 1nat, exprs, 0nat,
    {
        let ghost prog = self.prog();
        let ghost start = self.machine(ctx.output());
        let mut litterals: Vec<Litteral> = Vec::new();
        let mut i: usize = 0;
        assert(values_of(litterals@) =~= Seq::<Value>::empty());
        while i < exprs.len()
            invariant
                i <= exprs.len(),
                self.scopes@.len() == old(self).scopes@.len(),
                self.scopes@.len() > 0,
                self.prog() == old(self).prog(),
                prog == self.prog(),
                start == old(self).machine(old(ctx).output()),
                ({
                    let g = eval_all(prog, depth as nat, start, exprs_of(exprs@), i as nat);
                    &&& frames(self.scopes@) == g.state.scopes
                    &&& ctx.output() == g.state.output
                    &&& g.result == Ok::<Seq<Value>, Fault>(values_of(litterals@))
                }),
            decreases exprs.len() - i,
        {
            let ghost before = litterals@;
            match self.eval_expr(ctx, depth, &exprs[i]) {
                Ok(v) => {
                    litterals.push(v);
                    assert(values_of(litterals@) =~= values_of(before).push(v@));
                },
                Err(err) => {
                    proof {
                        lemma_eval_all_stops(
                            prog,
                            depth as nat,
                            start,
                            exprs_of(exprs@),
                            (i + 1) as nat,
                            exprs@.len(),
                        );
                    }
                    return Err(err);
                },
            }
            i += 1;
        }
        Ok(litterals)
    }

    /// Evaluates a binary operation: both operands, the left one first,
    /// then the operator.
    fn eval_bin_op<C: Context>(&mut self, ctx: &mut C, depth: usize, e: &Expr) -> (res:
        InterpreterResult<Litteral>)
        requires
            e is BinOp,
            old(self).scopes@.len() > 0,
        ensures
            final(self).prog() == old(self).prog(),
            final(self).scopes@.len() == old(self).scopes@.len(),
            final(self).settles(
                final(ctx).output(),
                res,
                eval(old(self).prog(), depth as nat, old(self).machine(old(ctx).output()), e@),
            ),
        decreases depth, 1nat, e, 0nat,
    {
        match e {
            Expr::BinOp(op, left, right) => {
                let left = match self.eval_expr(ctx, depth, &**left) {
                    Ok(v) => v,
                    Err(err) => {
                        return Err(err);
                    },
                };
                let right = match self.eval_expr(ctx, depth, &**right) {
                    Ok(v) => v,
                    Err(err) => {
                        return Err(err);
                    },
                };
                operate(*op, &left, &right)
            },
            _ => Ok(unit()),
        }
    }

    /// Evaluates a short-circuiting operation: the right operand only where
    /// the left one does not decide.
    fn eval_conditional_op<C: Context>(&mut self, ctx: &mut C, depth: usize, e: &Expr) -> (res:
        InterpreterResult<Litteral>)
        requires
            e is ConditionalOp,
            old(self).scopes@.len() > 0,
        ensures
            final(self).prog() == old(self).prog(),
            final(self).scopes@.len() == old(self).scopes@.len(),
            final(self).settles(
                final(ctx).output(),
                res,
                eval(old(self).prog(), depth as nat, old(self).machine(old(ctx).output()), e@),
            ),
        decreases depth, 1nat, e, 0nat,
    {
        match e {
            Expr::ConditionalOp(op, left, right) => {
                let left = match self.eval_expr(ctx, depth, &**left) {
                    Ok(Litteral::Bool(b)) => b,
                    Ok(wrong_type) => {
                        return fail_expected_bool_operand(*op, &wrong_type);
                    },
                    Err(err) => {
                        return Err(err);
                    },
                };
                let short = match op {
                    BoolOp::And => false,
                    BoolOp::Or => true,
                };
                if left == short {
                    return Ok(Litteral::Bool(short));
                }
                self.eval_expr(ctx, depth, &**right)
            },
            _ => Ok(unit()),
        }
    }

    /// Evaluates a conditional: the condition, then one of the two runs of
    /// expressions, in the scope at hand.
    fn eval_if_else<C: Context>(&mut self, ctx: &mut C, depth: usize, e: &Expr) -> (res:
        InterpreterResult<Litteral>)
        requires
            e is IfElse,
            old(self).scopes@.len() > 0,
        ensures
            final(self).prog() == old(self).prog(),
            final(self).scopes@.len() == old(self).scopes@.len(),
            final(self).settles(
                final(ctx).output(),
                res,
                eval(old(self).prog(), depth as nat, old(self).machine(old(ctx).output()), e@),
            ),
        decreases depth, 1nat, e, 0nat,
    {
        match e {
            Expr::IfElse(cond, if_part, else_part) => {
                proof {
                    lemma_run_view(*if_part);
                    lemma_run_view(*else_part);
                }
                let cond = match self.eval_expr(ctx, depth, &**cond) {
                    Ok(Litteral::Bool(b)) => b,
                    Ok(wrong_type) => {
                        let mut message = String::from_str(
                            "Expected boolean in condition, but got ",
                        );
                        wrong_type.write_to(&mut message);
                        return fail(ErrorKind::ExpectedBool, message);
                    },
                    Err(err) => {
                        return Err(err);
                    },
                };
                if cond {
                    self.eval_block(ctx, depth, if_part)
                } else {
                    self.eval_block(ctx, depth, else_part)
                }
            },
            _ => Ok(unit()),
        }
    }

    /// Evaluates an expression.
    fn eval_expr<C: Context>(&mut self, ctx: &mut C, depth: usize, e: &Expr) -> (res:
        InterpreterResult<Litteral>)
        requires
            old(self).scopes@.len() > 0,
        ensures
            final(self).prog() == old(self).prog(),
            final(self).scopes@.len() == old(self).scopes@.len(),
            final(self).settles(
                final(ctx).output(),
                res,
                eval(old(self).prog(), depth as nat, old(self).machine(old(ctx).output()), e@),
            ),
        decreases depth, 1nat, e, 1nat,
    {
        match e {
            Expr::Call(name, args) => {
                proof {
                    lemma_run_view(*args);
                }
                match self.eval_all(ctx, depth, args) {
                    Ok(litterals) => {
                        return self.call_function(ctx, depth, name.as_str(), &litterals);
                    },
                    Err(err) => {
                        return Err(err);
                    },
                }
            },
            Expr::Litt(l) => {
                return Ok(l.clone());
            },
            Expr::Name(n) => match self.read_name(n.as_str()) {
                Ok(l) => {
                    return Ok(l.clone());
                },
                Err(err) => {
                    return Err(err);
                },
            },
            Expr::Declare(name, inner) => {
                let result = match self.eval_expr(ctx, depth, &**inner) {
                    Ok(v) => v,
                    Err(err) => {
                        return Err(err);
                    },
                };
                let copy = result.clone();
                proof {
                    lemma_frames_declare(self.scopes@, name@, copy);
                }
                self.scopes.create(name.as_str(), copy);
                return Ok(result);
            },
            Expr::Assign(name, inner) => {
                let result = match self.eval_expr(ctx, depth, &**inner) {
                    Ok(v) => v,
                    Err(err) => {
                        return Err(err);
                    },
                };
                let copy = result.clone();
                proof {
                    lemma_frames_assign(self.scopes@, name@, copy);
                }
                if self.scopes.set(name.as_str(), copy) {
                    return Ok(result);
                } else {
                    return fail_with(
                        ErrorKind::UndeclaredVariable,
                        "Trying to assign to undeclared variable ",
                        name.as_str(),
                    );
                }
            },
            Expr::Block(exprs) => {
                proof {
                    lemma_run_view(*exprs);
                    lemma_frames_push(self.scopes@, true);
                }
                self.scopes.enter(true);
                let res = self.eval_block(ctx, depth, exprs);
                proof {
                    lemma_frames_drop_last(self.scopes@);
                }
                self.scopes.exit();
                return res;
            },
            Expr::BinOp(_, _, _) => {
                return self.eval_bin_op(ctx, depth, e);
            },
            Expr::ConditionalOp(_, _, _) => {
                return self.eval_conditional_op(ctx, depth, e);
            },
            Expr::IfElse(_, _, _) => {
                return self.eval_if_else(ctx, depth, e);
            },
            Expr::Not(inner) => match self.eval_expr(ctx, depth, &**inner) {
                Ok(Litteral::Bool(b)) => {
                    return Ok(Litteral::Bool(!b));
                },
                Ok(wrong_type) => {
                    let mut message = String::from_str(
                        "The operator ! only applies to Bool, but got ",
                    );
                    wrong_type.write_to(&mut message);
                    return fail(ErrorKind::ExpectedBool, message);
                },
                Err(err) => {
                    return Err(err);
                },
            },
            Expr::MakeTuple(exprs) => {
                proof {
                    lemma_run_view(*exprs);
                }
                match self.eval_all(ctx, depth, exprs) {
                    Ok(litterals) => {
                        proof {
                            lemma_tuple_view(litterals);
                        }
                        return Ok(Litteral::Tuple(litterals));
                    },
                    Err(err) => {
                        return Err(err);
                    },
                }
            },
        }
    }

    /// Where the function of the given name stands in the program. The
    /// program is searched from its start: `vstd` has no model of a hash
    /// map keyed by strings, of which a table of the functions by name
    /// would be one.
    fn find(&self, name: &str) -> (r: Option<usize>)
        ensures
            match r {
                Some(i) => i < self.functions@.len() && find_function(self.prog(), name@)
                    == Some(i as int),
                None => find_function(self.prog(), name@) is None,
            },
    {
        let functions = self.functions;
        let mut i: usize = 0;
        while i < functions.len()
            invariant
                i <= functions.len(),
                functions == self.functions,
                find_function(self.prog(), name@) == find_function_from(
                    self.prog(),
                    name@,
                    i as nat,
                ),
            decreases functions.len() - i,
        {
            if same_text(functions[i].name.as_str(), name) {
                return Some(i);
            }
            i += 1;
        }
        None
    }

    /// Calls a function by name on evaluated arguments, where `depth`
    /// further calls may nest.
    ///
    /// The call has a detached scope of its own, which it enters first and
    /// leaves last, whatever happens in between: the stack of scopes is
    /// afterwards what it was before. In particular a call with a number of
    /// arguments other than the number of parameters fails with an error
    /// that names both numbers, binds nothing and prints nothing.
    pub fn call_function<C: Context>(
        &mut self,
        ctx: &mut C,
        depth: usize,
        name: &str,
        args: &Vec<Litteral>,
    ) -> (res: InterpreterResult<Litteral>)
        ensures
            final(self).prog() == old(self).prog(),
            final(self).stack() == old(self).stack(),
            final(self).settles(
                final(ctx).output(),
                res,
                call(
                    old(self).prog(),
                    depth as nat,
                    old(self).machine(old(ctx).output()),
                    name@,
                    values_of(args@),
                ),
            ),
            ({
                let found = find_function(old(self).prog(), name@);
                let f = old(self).prog()[found->0];
                name@ != "print"@ && found is Some && f.params.len() != args@.len() ==> {
                    &&& res matches Err(e) && e@ == arity_mismatch(
                        f.name,
                        f.params.len(),
                        args@.len(),
                    )
                    &&& final(ctx).output() == old(ctx).output()
                }
            }),
        decreases depth, 0nat, args, 1nat,
    {
        proof {
            lemma_frames_push(self.scopes@, false);
            lemma_call_keeps_scopes(
                self.prog(),
                depth as nat,
                self.machine(ctx.output()),
                name@,
                values_of(args@),
            );
        }
        self.scopes.enter(false);
        proof {
            assert(self.scopes@.drop_last() =~= old(self).scopes@);
            assert(frame(self.scopes@.last()).vars =~= empty_scope::<Value>(false).vars);
            lemma_frames_drop_last(self.scopes@);
        }
        let res = self.call_in_scope(ctx, depth, name, args);
        proof {
            lemma_frames_drop_last(self.scopes@);
        }
        self.scopes.exit();
        res
    }

    /// What a call does in the scope that was entered for it: it prints,
    /// or binds the parameters of the function and evaluates its body.
    fn call_in_scope<C: Context>(
        &mut self,
        ctx: &mut C,
        depth: usize,
        name: &str,
        args: &Vec<Litteral>,
    ) -> (res: InterpreterResult<Litteral>)
        requires
            old(self).scopes@.len() > 0,
            frame(old(self).scopes@.last()) == empty_scope::<Value>(false),
        ensures
            final(self).prog() == old(self).prog(),
            final(self).scopes@.len() == old(self).scopes@.len(),
            ({
                let o = call(
                    old(self).prog(),
                    depth as nat,
                    Machine {
                        scopes: frames(old(self).scopes@).drop_last(),
                        output: old(ctx).output(),
                    },
                    name@,
                    values_of(args@),
                );
                &&& frames(final(self).scopes@).drop_last() == o.state.scopes
                &&& final(ctx).output() == o.state.output
                &&& result_view(res) == o.result
            }),
        decreases depth, 0nat, args, 0nat,
    {
        if same_text(name, "print") {
            if args.len() != 1 {
                return fail(
                    ErrorKind::PrintArguments,
                    String::from_str("Not enough arguments to print"),
                );
            }
            self.print_litteral(ctx, &args[0]);
            return Ok(unit());
        }
        let functions = self.functions;
        let f = match self.find(name) {
            Some(i) => &functions[i],
            None => {
                return fail_with(
                    ErrorKind::UndefinedFunction,
                    "Trying to call undefined function ",
                    name,
                );
            },
        };
        if args.len() != f.args.len() {
            return fail_arity(f.name.as_str(), f.args.len(), args.len());
        }
        if depth == 0 {
            return fail_with(
                ErrorKind::DepthExceeded,
                "Calls nested too deeply at function ",
                name,
            );
        }
        let ghost outer = self.scopes@.drop_last();
        let mut k: usize = 0;
        while k < f.args.len()
            invariant
                k <= f.args.len(),
                args.len() == f.args.len(),
                self.prog() == old(self).prog(),
                self.scopes@.len() == outer.len() + 1,
                self.scopes@.drop_last() == outer,
                frame(self.scopes@.last()) == bound(f@.params, values_of(args@), k as nat),
            decreases f.args.len() - k,
        {
            let copy = args[k].clone();
            proof {
                lemma_frames_bind(self.scopes@.last(), f.args[k as int].0@, copy);
            }
            self.scopes.create(f.args[k].0.as_str(), copy);
            k += 1;
        }
        proof {
            lemma_frames_drop_last(old(self).scopes@);
            assert(frames(self.scopes@) =~= frames(outer).push(
                bound(f@.params, values_of(args@), args@.len()),
            ));
        }
        self.eval_block(ctx, depth - 1, &f.body)
    }

    /// The name of the first function of the program that has the name of
    /// an earlier one.
    fn redefined(&self) -> (r: Option<&'a str>)
        ensures
            match r {
                Some(name) => first_redefinition(self.prog()) matches Some(j)
                    && self.prog()[j].name == name@,
                None => first_redefinition(self.prog()) is None,
            },
    {
        let functions = self.functions;
        let mut j: usize = 0;
        while j < functions.len()
            invariant
                j <= functions.len(),
                functions == self.functions,
                first_redefinition(self.prog()) == first_redefinition_from(self.prog(), j as nat),
            decreases functions.len() - j,
        {
            let mut i: usize = 0;
            while i < j
                invariant
                    i <= j < functions.len(),
                    functions == self.functions,
                    first_redefinition(self.prog()) == first_redefinition_from(
                        self.prog(),
                        j as nat,
                    ),
                    forall|h: int| 0 <= h < i ==> self.prog()[h].name != self.prog()[j as int].name,
                decreases j - i,
            {
                if same_text(functions[i].name.as_str(), functions[j].name.as_str()) {
                    assert(self.prog()[i as int].name == self.prog()[j as int].name);
                    return Some(functions[j].name.as_str());
                }
                i += 1;
            }
            j += 1;
        }
        None
    }

    /// Runs the program: the call of `main` without arguments, unless two
    /// functions share a name.
    fn interpret<C: Context>(&mut self, ctx: &mut C, depth: usize) -> (res: InterpreterResult<
        Litteral,
    >)
        requires
            old(self).stack() == Seq::<ScopeView<Value>>::empty(),
        ensures
            final(self).settles(
                final(ctx).output(),
                res,
                run_within(old(self).prog(), old(ctx).output(), depth as nat),
            ),
    {
        if let Some(name) = self.redefined() {
            return fail_with(ErrorKind::Redefinition, "Redefinition of function ", name);
        }
        let args: Vec<Litteral> = Vec::new();
        self.call_function(ctx, depth, "main", &args)
    }
}

/// Runs a program where calls may nest `depth` deep, printing through the
/// given context.
///
/// The result is the value of the call of `main`, or the error that stopped
/// the run; the context has received what the run printed up to there.
/// Where calls nest deeper than `depth`, `main` being the first of them,
/// the run fails with the error `DepthExceeded`.
pub fn interpret_within<C: Context>(ctx: &mut C, ast: &AST, depth: usize) -> (res:
    InterpreterResult<Litteral>)
    ensures
        final(ctx).output() == run_within(ast@, old(ctx).output(), depth as nat).state.output,
        result_view(res) == run_within(ast@, old(ctx).output(), depth as nat).result,
{
    let mut interpreter = Interpreter::new(&ast.functions);
    interpreter.interpret(ctx, depth)
}

/// Runs a program, printing through the given context.
///
/// The result is the value of the call of `main`, or the error that stopped
/// the run; the context has received what the run printed up to there.
/// Calls may nest as deep as the machine can count.
pub fn interpret<C: Context>(ctx: &mut C, ast: &AST) -> (res: InterpreterResult<Litteral>)
    ensures
        final(ctx).output() == run(ast@, old(ctx).output()).state.output,
        result_view(res) == run(ast@, old(ctx).output()).result,
{
    interpret_within(ctx, ast, CALL_DEPTH)
}

} // verus!
