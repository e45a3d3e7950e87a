//! What a program means: the evaluation of expressions and calls as
//! mathematical functions on the state of the machine.
//!
//! The state is the stack of scopes and the text printed so far. Calls may
//! nest up to a given depth; one call more is an error. As the language has
//! no loop, every evaluation ends.

use crate::ast::{display, BoolOp, ExprView, FunctionView, Op, Value};
use crate::scopes::{assign, bind, declare, empty_scope, holder, lookup, ScopeView};
use crate::text::decimal;
use vstd::prelude::*;

verus! {

/// The kinds of error that evaluation reports.
#[derive(Clone, Copy, Debug, PartialEq, Eq, Structural)]
pub enum ErrorKind {
    /// A name was read that no scope in sight binds
    UndefinedVariable,
    /// A name was assigned to that no scope in sight binds
    UndeclaredVariable,
    /// A function was called that the program does not define
    UndefinedFunction,
    /// The program defines two functions of one name
    Redefinition,
    /// `print` was called with a number of arguments other than one
    PrintArguments,
    /// A function was called with a number of arguments other than that of
    /// its parameters
    Arity,
    /// A value other than a boolean stood where a boolean is required
    ExpectedBool,
    /// A value other than an integer was an operand of an operator on
    /// integers
    ExpectedInt,
    /// The divisor of a division or of a modulo was zero
    DivisionByZero,
    /// The result of an operation does not fit in 64 bits
    Overflow,
    /// Calls were nested deeper than the limit
    DepthExceeded,
}

/// The mathematical model of an error: its kind and its message.
pub struct Fault {
    pub kind: ErrorKind,
    pub message: Seq<char>,
}

/// The state of the machine: the stack of scopes, the last being the top,
/// and all the text printed so far.
pub struct Machine {
    pub scopes: Seq<ScopeView<Value>>,
    pub output: Seq<char>,
}

/// What the evaluation of an expression leaves: the state after it, and its
/// value or the error that stopped it.
pub struct Outcome {
    pub state: Machine,
    pub result: Result<Value, Fault>,
}

/// What the evaluation of a run of expressions for their values leaves: the
/// state after it, and the values in order or the error that stopped it.
pub struct Gathered {
    pub state: Machine,
    pub result: Result<Seq<Value>, Fault>,
}

/// The value of an expression that has nothing to say: the empty tuple.
pub open spec fn unit_value() -> Value {
    Value::Tuple(Seq::empty())
}

/// The name of an operator as messages give it.
pub open spec fn op_name(op: Op) -> Seq<char> {
    match op {
        Op::Equal => "Equal"@,
        Op::NotEqual => "NotEqual"@,
        Op::Leq => "Leq"@,
        Op::Less => "Less"@,
        Op::Geq => "Geq"@,
        Op::Greater => "Greater"@,
        Op::Add => "Add"@,
        Op::Sub => "Sub"@,
        Op::Mul => "Mul"@,
        Op::Div => "Div"@,
        Op::Mod => "Mod"@,
    }
}

/// The name of a short-circuiting operator as messages give it.
pub open spec fn bool_op_name(op: BoolOp) -> Seq<char> {
    match op {
        BoolOp::And => "And"@,
        BoolOp::Or => "Or"@,
    }
}

pub open spec fn undefined_variable(name: Seq<char>) -> Fault {
    Fault {
        kind: ErrorKind::UndefinedVariable,
        message: "Trying to use undefined variable "@ + name,
    }
}

pub open spec fn undeclared_variable(name: Seq<char>) -> Fault {
    Fault {
        kind: ErrorKind::UndeclaredVariable,
        message: "Trying to assign to undeclared variable "@ + name,
    }
}

pub open spec fn undefined_function(name: Seq<char>) -> Fault {
    Fault {
        kind: ErrorKind::UndefinedFunction,
        message: "Trying to call undefined function "@ + name,
    }
}

pub open spec fn redefinition(name: Seq<char>) -> Fault {
    Fault { kind: ErrorKind::Redefinition, message: "Redefinition of function "@ + name }
}

pub open spec fn print_arguments() -> Fault {
    Fault { kind: ErrorKind::PrintArguments, message: "Not enough arguments to print"@ }
}

pub open spec fn arity_mismatch(name: Seq<char>, expected: nat, got: nat) -> Fault {
    Fault {
        kind: ErrorKind::Arity,
        message: "Incorrect number of arguments to function "@ + name + "\n.Expected "@
            + decimal(expected as int) + ", but got "@ + decimal(got as int),
    }
}

pub open spec fn expected_bool_operand(op: BoolOp, found: Value) -> Fault {
    Fault {
        kind: ErrorKind::ExpectedBool,
        message: "Expected boolean with "@ + bool_op_name(op) + ", but found "@ + display(found),
    }
}

pub open spec fn expected_bool_condition(found: Value) -> Fault {
    Fault {
        kind: ErrorKind::ExpectedBool,
        message: "Expected boolean in condition, but got "@ + display(found),
    }
}

pub open spec fn expected_bool_negation(found: Value) -> Fault {
    Fault {
        kind: ErrorKind::ExpectedBool,
        message: "The operator ! only applies to Bool, but got "@ + display(found),
    }
}

pub open spec fn expected_int(op: Op, left: Value, right: Value) -> Fault {
    Fault {
        kind: ErrorKind::ExpectedInt,
        message: "Op "@ + op_name(op) + " only works on I64, but got "@ + display(left)
            + " and "@ + display(right),
    }
}

pub open spec fn division_by_zero(op: Op) -> Fault {
    Fault { kind: ErrorKind::DivisionByZero, message: "Op "@ + op_name(op) + " by zero"@ }
}

pub open spec fn overflow(op: Op) -> Fault {
    Fault {
        kind: ErrorKind::Overflow,
        message: "Op "@ + op_name(op) + " overflows 64 bits"@,
    }
}

pub open spec fn depth_exceeded(name: Seq<char>) -> Fault {
    Fault {
        kind: ErrorKind::DepthExceeded,
        message: "Calls nested too deeply at function "@ + name,
    }
}

/// The quotient of a division that rounds towards zero.
pub open spec fn truncated_quotient(a: int, b: int) -> int
    recommends
        b != 0,
{
    if a >= 0 && b > 0 {
        a / b
    } else if a >= 0 {
        -(a / (-b))
    } else if b > 0 {
        -((-a) / b)
    } else {
        (-a) / (-b)
    }
}

/// The remainder that goes with [`truncated_quotient`]; it has the sign of
/// the dividend.
pub open spec fn truncated_remainder(a: int, b: int) -> int
    recommends
        b != 0,
{
    if a >= 0 && b > 0 {
        a % b
    } else if a >= 0 {
        a % (-b)
    } else if b > 0 {
        -((-a) % b)
    } else {
        -((-a) % (-b))
    }
}

/// The result of an arithmetic operator on two integers, as an integer of
/// mathematics.
pub open spec fn arithmetic(op: Op, l: int, r: int) -> int {
    match op {
        Op::Add => l + r,
        Op::Sub => l - r,
        Op::Mul => l * r,
        Op::Div => truncated_quotient(l, r),
        _ => truncated_remainder(l, r),
    }
}

/// What an operator gives on two evaluated operands.
///
/// Equality and inequality compare any two values by structure. The
/// comparisons and the arithmetic operators ask for two integers.
/// Arithmetic is exact: a zero divisor and a result outside of 64 bits are
/// errors.
pub open spec fn apply_op(op: Op, left: Value, right: Value) -> Result<Value, Fault> {
    match op {
        Op::Equal => Ok(Value::Bool(left == right)),
        Op::NotEqual => Ok(Value::Bool(left != right)),
        _ => match (left, right) {
            (Value::I64(l), Value::I64(r)) => match op {
                Op::Leq => Ok(Value::Bool(l <= r)),
                Op::Less => Ok(Value::Bool(l < r)),
                Op::Geq => Ok(Value::Bool(l >= r)),
                Op::Greater => Ok(Value::Bool(l > r)),
                _ => if (op == Op::Div || op == Op::Mod) && r == 0 {
                    Err(division_by_zero(op))
                } else if i64::MIN <= arithmetic(op, l as int, r as int) <= i64::MAX {
                    Ok(Value::I64(arithmetic(op, l as int, r as int) as i64))
                } else {
                    Err(overflow(op))
                },
            },
            _ => Err(expected_int(op, left, right)),
        },
    }
}

/// The boolean that decides a short-circuiting operator without a look at
/// its right operand.
pub open spec fn deciding(op: BoolOp) -> bool {
    match op {
        BoolOp::And => false,
        BoolOp::Or => true,
    }
}

/// The index of the first function of the program, from index `from` on,
/// that has the given name.
pub open spec fn find_function_from(prog: Seq<FunctionView>, name: Seq<char>, from: nat) -> Option<
    int,
>
    decreases prog.len() - from,
{
    if from >= prog.len() {
        None
    } else if prog[from as int].name == name {
        Some(from as int)
    } else {
        find_function_from(prog, name, from + 1)
    }
}

/// The index of the function of the given name.
pub open spec fn find_function(prog: Seq<FunctionView>, name: Seq<char>) -> Option<int> {
    find_function_from(prog, name, 0)
}

/// Whether the function at index `j` has the name of an earlier one.
pub open spec fn redefines(prog: Seq<FunctionView>, j: int) -> bool {
    exists|i: int| 0 <= i < j && prog[i].name == prog[j].name
}

/// The index of the first function, from index `from` on, that has the name
/// of an earlier one.
pub open spec fn first_redefinition_from(prog: Seq<FunctionView>, from: nat) -> Option<int>
    decreases prog.len() - from,
{
    if from >= prog.len() {
        None
    } else if redefines(prog, from as int) {
        Some(from as int)
    } else {
        first_redefinition_from(prog, from + 1)
    }
}

/// The index of the first function that has the name of an earlier one.
pub open spec fn first_redefinition(prog: Seq<FunctionView>) -> Option<int> {
    first_redefinition_from(prog, 0)
}

/// The detached scope of a call in which the first `n` parameters are bound
/// to the arguments in the same positions.
pub open spec fn bound(params: Seq<Seq<char>>, args: Seq<Value>, n: nat) -> ScopeView<Value>
    decreases n,
{
    if n == 0 || n > params.len() || n > args.len() {
        empty_scope(false)
    } else {
        bind(bound(params, args, (n - 1) as nat), params[n - 1], args[n - 1])
    }
}

/// The state `m` with another stack of scopes.
pub open spec fn with_scopes(m: Machine, scopes: Seq<ScopeView<Value>>) -> Machine {
    Machine { scopes, output: m.output }
}

/// What the evaluation of one expression leaves, operands and arguments
/// being evaluated from left to right.
pub open spec fn eval(prog: Seq<FunctionView>, depth: nat, m: Machine, e: ExprView) -> Outcome
    decreases depth, 1nat, e, 0nat,
{
    match e {
        ExprView::Litt(v) => Outcome { state: m, result: Ok(v) },
        ExprView::Name(name) => match lookup(m.scopes, name) {
            Some(v) => Outcome { state: m, result: Ok(v) },
            None => Outcome { state: m, result: Err(undefined_variable(name)) },
        },
        ExprView::Declare(name, inner) => {
            let o = eval(prog, depth, m, *inner);
            match o.result {
                Ok(v) => Outcome {
                    state: with_scopes(o.state, declare(o.state.scopes, name, v)),
                    result: Ok(v),
                },
                Err(_) => o,
            }
        },
        ExprView::Assign(name, inner) => {
            let o = eval(prog, depth, m, *inner);
            match o.result {
                Ok(v) => if holder(o.state.scopes, name) is Some {
                    Outcome {
                        state: with_scopes(o.state, assign(o.state.scopes, name, v)),
                        result: Ok(v),
                    }
                } else {
                    Outcome { state: o.state, result: Err(undeclared_variable(name)) }
                },
                Err(_) => o,
            }
        },
        ExprView::Block(exprs) => {
            let entered = with_scopes(m, m.scopes.push(empty_scope(true)));
            let o = eval_seq(prog, depth, entered, exprs, exprs.len());
            Outcome { state: with_scopes(o.state, o.state.scopes.drop_last()), result: o.result }
        },
        ExprView::IfElse(cond, then_part, else_part) => {
            let c = eval(prog, depth, m, *cond);
            match c.result {
                Ok(Value::Bool(b)) => if b {
                    eval_seq(prog, depth, c.state, then_part, then_part.len())
                } else {
                    eval_seq(prog, depth, c.state, else_part, else_part.len())
                },
                Ok(other) => Outcome {
                    state: c.state,
                    result: Err(expected_bool_condition(other)),
                },
                Err(_) => c,
            }
        },
        ExprView::BinOp(op, left, right) => {
            let l = eval(prog, depth, m, *left);
            match l.result {
                Ok(x) => {
                    let r = eval(prog, depth, l.state, *right);
                    match r.result {
                        Ok(y) => Outcome { state: r.state, result: apply_op(op, x, y) },
                        Err(_) => r,
                    }
                },
                Err(_) => l,
            }
        },
        ExprView::ConditionalOp(op, left, right) => {
            let l = eval(prog, depth, m, *left);
            match l.result {
                Ok(Value::Bool(b)) => if b == deciding(op) {
                    l
                } else {
                    eval(prog, depth, l.state, *right)
                },
                Ok(other) => Outcome {
                    state: l.state,
                    result: Err(expected_bool_operand(op, other)),
                },
                Err(_) => l,
            }
        },
        ExprView::Not(inner) => {
            let o = eval(prog, depth, m, *inner);
            match o.result {
                Ok(Value::Bool(b)) => Outcome { state: o.state, result: Ok(Value::Bool(!b)) },
                Ok(other) => Outcome { state: o.state, result: Err(expected_bool_negation(other)) },
                Err(_) => o,
            }
        },
        ExprView::MakeTuple(exprs) => {
            let g = eval_all(prog, depth, m, exprs, exprs.len());
            match g.result {
                Ok(values) => Outcome { state: g.state, result: Ok(Value::Tuple(values)) },
                Err(fault) => Outcome { state: g.state, result: Err(fault) },
            }
        },
        ExprView::Call(name, args) => {
            let g = eval_all(prog, depth, m, args, args.len());
            match g.result {
                Ok(values) => call(prog, depth, g.state, name, values),
                Err(fault) => Outcome { state: g.state, result: Err(fault) },
            }
        },
    }
}

/// What the evaluation of the first `n` expressions of a run leaves, one
/// after the other in the scope at hand: the value of the last one, the
/// unit for no expression, or the first error.
pub open spec fn eval_seq(
    prog: Seq<FunctionView>,
    depth: nat,
    m: Machine,
    exprs: Seq<ExprView>,
    n: nat,
) -> Outcome
    decreases depth, 1nat, exprs, n,
{
    if n == 0 || n > exprs.len() {
        Outcome { state: m, result: Ok(unit_value()) }
    } else {
        let before = eval_seq(prog, depth, m, exprs, (n - 1) as nat);
        match before.result {
            Ok(_) => eval(prog, depth, before.state, exprs[n - 1]),
            Err(_) => before,
        }
    }
}

/// What the evaluation of the first `n` expressions of a run leaves when
/// all their values are wanted: the values in order, or the first error.
pub open spec fn eval_all(
    prog: Seq<FunctionView>,
    depth: nat,
    m: Machine,
    exprs: Seq<ExprView>,
    n: nat,
) -> Gathered
    decreases depth, 1nat, exprs, n,
{
    if n == 0 || n > exprs.len() {
        Gathered { state: m, result: Ok(Seq::empty()) }
    } else {
        let before = eval_all(prog, depth, m, exprs, (n - 1) as nat);
        match before.result {
            Ok(values) => {
                let o = eval(prog, depth, before.state, exprs[n - 1]);
                match o.result {
                    Ok(v) => Gathered { state: o.state, result: Ok(values.push(v)) },
                    Err(fault) => Gathered { state: o.state, result: Err(fault) },
                }
            },
            Err(_) => before,
        }
    }
}

/// What a call of the function `name` with evaluated arguments leaves,
/// where `depth` further calls may nest.
///
/// `print` takes one argument and appends it, as displayed and followed by
/// a newline, to the output. Any other name is that of a function of the
/// program; its body is evaluated in a detached scope of its own that binds
/// the parameters to the arguments, and that scope is gone afterwards,
/// whether the body failed or not.
pub open spec fn call(
    prog: Seq<FunctionView>,
    depth: nat,
    m: Machine,
    name: Seq<char>,
    args: Seq<Value>,
) -> Outcome
    decreases depth, 0nat,
{
    if name == "print"@ {
        if args.len() == 1 {
            Outcome {
                state: Machine { scopes: m.scopes, output: m.output + display(args[0]) + "\n"@ },
                result: Ok(unit_value()),
            }
        } else {
            Outcome { state: m, result: Err(print_arguments()) }
        }
    } else {
        match find_function(prog, name) {
            None => Outcome { state: m, result: Err(undefined_function(name)) },
            Some(i) => {
                let f = prog[i];
                if args.len() != f.params.len() {
                    Outcome {
                        state: m,
                        result: Err(arity_mismatch(f.name, f.params.len(), args.len())),
                    }
                } else if depth == 0 {
                    Outcome { state: m, result: Err(depth_exceeded(name)) }
                } else {
                    let entered = with_scopes(
                        m,
                        m.scopes.push(bound(f.params, args, args.len())),
                    );
                    let o = eval_seq(prog, (depth - 1) as nat, entered, f.body, f.body.len());
                    Outcome {
                        state: with_scopes(o.state, o.state.scopes.drop_last()),
                        result: o.result,
                    }
                }
            },
        }
    }
}

/// How deep calls may nest in a run that is given no limit of its own: as
/// deep as the machine can count. No program comes near it in practice;
/// the stack of the machine is full long before.
pub const CALL_DEPTH: usize = usize::MAX;

/// What a run of a whole program leaves where calls may nest `depth` deep,
/// `output` being the text printed before it: an error if two functions
/// share a name, and else what the call of `main` without arguments leaves.
pub open spec fn run_within(prog: Seq<FunctionView>, output: Seq<char>, depth: nat) -> Outcome {
    let start = Machine { scopes: Seq::empty(), output };
    match first_redefinition(prog) {
        Some(j) => Outcome { state: start, result: Err(redefinition(prog[j].name)) },
        None => call(prog, depth, start, "main"@, Seq::empty()),
    }
}

/// What a run of a whole program leaves, `output` being the text printed
/// before it.
pub open spec fn run(prog: Seq<FunctionView>, output: Seq<char>) -> Outcome {
    run_within(prog, output, CALL_DEPTH as nat)
}

} // verus!
