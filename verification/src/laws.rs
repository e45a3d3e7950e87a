//! What holds of every evaluation.

use crate::ast::{
    lemma_equality_is_structural, same_structure, BoolOp, ExprView, FunctionView, Op, Value,
};
use crate::scopes::{declare, empty_scope, holder_below, ScopeView};
use crate::semantics::{
    apply_op, arity_mismatch, bound, call, deciding, eval, eval_all, eval_seq, find_function,
    find_function_from, first_redefinition_from, redefines, run_within, with_scopes, Fault,
    Machine, Outcome,
};
use vstd::prelude::*;

verus! {

/// An error stops a run of expressions: once the first `k` of them have
/// failed, evaluating more of them leaves the same.
pub proof fn lemma_eval_seq_stops(
    prog: Seq<FunctionView>,
    depth: nat,
    m: Machine,
    exprs: Seq<ExprView>,
    k: nat,
    n: nat,
)
    requires
        k <= n <= exprs.len(),
        eval_seq(prog, depth, m, exprs, k).result is Err,
    ensures
        eval_seq(prog, depth, m, exprs, n) == eval_seq(prog, depth, m, exprs, k),
    decreases n,
{
    if n > k {
        lemma_eval_seq_stops(prog, depth, m, exprs, k, (n - 1) as nat);
    }
}

/// An error stops the evaluation of a run of expressions for their values:
/// once the first `k` of them have failed, evaluating more of them leaves
/// the same.
pub proof fn lemma_eval_all_stops(
    prog: Seq<FunctionView>,
    depth: nat,
    m: Machine,
    exprs: Seq<ExprView>,
    k: nat,
    n: nat,
)
    requires
        k <= n <= exprs.len(),
        eval_all(prog, depth, m, exprs, k).result is Err,
    ensures
        eval_all(prog, depth, m, exprs, n) == eval_all(prog, depth, m, exprs, k),
    decreases n,
{
    if n > k {
        lemma_eval_all_stops(prog, depth, m, exprs, k, (n - 1) as nat);
    }
}

/// The equality operator holds of two values exactly when they have the
/// same shape and the same leaves, whatever their shape, and the
/// inequality operator exactly when they do not.
pub proof fn lemma_equality_operators(left: Value, right: Value)
    ensures
        apply_op(Op::Equal, left, right) == Ok::<Value, Fault>(
            Value::Bool(same_structure(left, right)),
        ),
        apply_op(Op::NotEqual, left, right) == Ok::<Value, Fault>(
            Value::Bool(!same_structure(left, right)),
        ),
{
    lemma_equality_is_structural(left, right);
}

/// A short-circuiting operator whose left operand decides leaves what the
/// left operand alone leaves: the right operand is not evaluated, so that
/// nothing it would print is printed.
pub proof fn lemma_short_circuit(
    prog: Seq<FunctionView>,
    depth: nat,
    m: Machine,
    op: BoolOp,
    left: ExprView,
    right: ExprView,
)
    requires
        eval(prog, depth, m, left).result == Ok::<Value, Fault>(Value::Bool(deciding(op))),
    ensures
        eval(prog, depth, m, ExprView::ConditionalOp(op, Box::new(left), Box::new(right)))
            == eval(prog, depth, m, left),
{
}

/// A variable declared in a block shadows one of the same name outside of
/// it while the block lasts, and is gone with the block: the block has the
/// value declared in it, and leaves every scope as it was.
pub proof fn lemma_block_shadows(
    prog: Seq<FunctionView>,
    depth: nat,
    m: Machine,
    name: Seq<char>,
    value: Value,
)
    ensures
        eval(
            prog,
            depth,
            m,
            ExprView::Block(
                seq![
                    ExprView::Declare(name, Box::new(ExprView::Litt(value))),
                    ExprView::Name(name),
                ],
            ),
        ) == (Outcome { state: m, result: Ok(value) }),
{
    let exprs = seq![
        ExprView::Declare(name, Box::new(ExprView::Litt(value))),
        ExprView::Name(name),
    ];
    let entered = with_scopes(m, m.scopes.push(empty_scope(true)));
    let declared = with_scopes(entered, declare(entered.scopes, name, value));
    reveal_with_fuel(eval_seq, 3);
    reveal_with_fuel(eval, 3);
    let found = Outcome { state: declared, result: Ok(value) };
    assert(eval(prog, depth, entered, exprs[0]) == found);
    assert(eval_seq(prog, depth, entered, exprs, 2) == found);
    assert(declared.scopes.drop_last() =~= m.scopes);
}

/// A call with a number of arguments other than the number of parameters
/// fails with an error that names both numbers, and changes nothing: no
/// parameter is bound, nothing is printed.
pub proof fn lemma_arity_mismatch(
    prog: Seq<FunctionView>,
    depth: nat,
    m: Machine,
    name: Seq<char>,
    args: Seq<Value>,
)
    requires
        name != "print"@,
        find_function(prog, name) is Some,
        prog[find_function(prog, name)->0].params.len() != args.len(),
    ensures
        call(prog, depth, m, name, args) == (Outcome {
            state: m,
            result: Err(
                arity_mismatch(
                    prog[find_function(prog, name)->0].name,
                    prog[find_function(prog, name)->0].params.len(),
                    args.len(),
                ),
            ),
        }),
{
}

/// Whether a stack of scopes is `before` with nothing changed but bindings
/// in the scopes from index `base` on: no scope has come or gone, none has
/// turned from nested to detached or back, and the scopes below `base` are
/// what they were.
pub open spec fn keeps_below(
    before: Seq<ScopeView<Value>>,
    after: Seq<ScopeView<Value>>,
    base: int,
) -> bool {
    &&& after.len() == before.len()
    &&& forall|i: int| 0 <= i < before.len() ==> #[trigger] after[i].nested == before[i].nested
    &&& forall|i: int| 0 <= i < base && i < before.len() ==> #[trigger] after[i] == before[i]
}

/// A lookup from the top of the stack does not go below a detached scope.
pub proof fn lemma_holder_stays_above<T>(
    scopes: Seq<ScopeView<T>>,
    n: nat,
    name: Seq<char>,
    base: int,
)
    requires
        0 <= base < n <= scopes.len(),
        !scopes[base].nested,
    ensures
        holder_below(scopes, n, name) matches Some(i) ==> base <= i < n,
    decreases n,
{
    if n - 1 > base && !scopes[n - 1].vars.contains_key(name) && scopes[n - 1].nested {
        lemma_holder_stays_above(scopes, (n - 1) as nat, name, base);
    }
}

/// The evaluation of an expression above a detached scope changes nothing
/// but bindings in that scope and in the scopes above it: every scope that
/// it enters it leaves again, and it reaches no variable below.
pub proof fn lemma_eval_keeps_below(
    prog: Seq<FunctionView>,
    depth: nat,
    m: Machine,
    e: ExprView,
    base: int,
)
    requires
        0 <= base < m.scopes.len(),
        !m.scopes[base].nested,
    ensures
        keeps_below(m.scopes, eval(prog, depth, m, e).state.scopes, base),
    decreases depth, 1nat, e, 0nat,
{
    match e {
        ExprView::Litt(_) => {},
        ExprView::Name(_) => {},
        ExprView::Declare(name, inner) => {
            lemma_eval_keeps_below(prog, depth, m, *inner, base);
        },
        ExprView::Assign(name, inner) => {
            lemma_eval_keeps_below(prog, depth, m, *inner, base);
            let o = eval(prog, depth, m, *inner);
            lemma_holder_stays_above(o.state.scopes, o.state.scopes.len(), name, base);
        },
        ExprView::Block(exprs) => {
            let entered = with_scopes(m, m.scopes.push(empty_scope(true)));
            lemma_eval_seq_keeps_below(prog, depth, entered, exprs, exprs.len(), base);
        },
        ExprView::IfElse(cond, then_part, else_part) => {
            lemma_eval_keeps_below(prog, depth, m, *cond, base);
            let c = eval(prog, depth, m, *cond);
            lemma_eval_seq_keeps_below(prog, depth, c.state, then_part, then_part.len(), base);
            lemma_eval_seq_keeps_below(prog, depth, c.state, else_part, else_part.len(), base);
        },
        ExprView::BinOp(_, left, right) => {
            lemma_eval_keeps_below(prog, depth, m, *left, base);
            lemma_eval_keeps_below(prog, depth, eval(prog, depth, m, *left).state, *right, base);
        },
        ExprView::ConditionalOp(_, left, right) => {
            lemma_eval_keeps_below(prog, depth, m, *left, base);
            lemma_eval_keeps_below(prog, depth, eval(prog, depth, m, *left).state, *right, base);
        },
        ExprView::Not(inner) => {
            lemma_eval_keeps_below(prog, depth, m, *inner, base);
        },
        ExprView::MakeTuple(exprs) => {
            lemma_eval_all_keeps_below(prog, depth, m, exprs, exprs.len(), base);
        },
        ExprView::Call(name, args) => {
            lemma_eval_all_keeps_below(prog, depth, m, args, args.len(), base);
            let g = eval_all(prog, depth, m, args, args.len());
            if g.result is Ok {
                lemma_call_keeps_scopes(prog, depth, g.state, name, g.result->Ok_0);
            }
        },
    }
}

/// A run of expressions above a detached scope changes nothing but bindings
/// in that scope and in the scopes above it.
pub proof fn lemma_eval_seq_keeps_below(
    prog: Seq<FunctionView>,
    depth: nat,
    m: Machine,
    exprs: Seq<ExprView>,
    n: nat,
    base: int,
)
    requires
        0 <= base < m.scopes.len(),
        !m.scopes[base].nested,
    ensures
        keeps_below(m.scopes, eval_seq(prog, depth, m, exprs, n).state.scopes, base),
    decreases depth, 1nat, exprs, n,
{
    if n > 0 && n <= exprs.len() {
        lemma_eval_seq_keeps_below(prog, depth, m, exprs, (n - 1) as nat, base);
        let before = eval_seq(prog, depth, m, exprs, (n - 1) as nat);
        lemma_eval_keeps_below(prog, depth, before.state, exprs[n - 1], base);
    }
}

/// A run of expressions evaluated for their values above a detached scope
/// changes nothing but bindings in that scope and in the scopes above it.
pub proof fn lemma_eval_all_keeps_below(
    prog: Seq<FunctionView>,
    depth: nat,
    m: Machine,
    exprs: Seq<ExprView>,
    n: nat,
    base: int,
)
    requires
        0 <= base < m.scopes.len(),
        !m.scopes[base].nested,
    ensures
        keeps_below(m.scopes, eval_all(prog, depth, m, exprs, n).state.scopes, base),
    decreases depth, 1nat, exprs, n,
{
    if n > 0 && n <= exprs.len() {
        lemma_eval_all_keeps_below(prog, depth, m, exprs, (n - 1) as nat, base);
        let before = eval_all(prog, depth, m, exprs, (n - 1) as nat);
        lemma_eval_keeps_below(prog, depth, before.state, exprs[n - 1], base);
    }
}

/// A call leaves the stack of scopes as it found it, whether it fails or
/// not: its own scope is gone, and the callee has not reached a variable
/// of its caller.
pub proof fn lemma_call_keeps_scopes(
    prog: Seq<FunctionView>,
    depth: nat,
    m: Machine,
    name: Seq<char>,
    args: Seq<Value>,
)
    ensures
        call(prog, depth, m, name, args).state.scopes == m.scopes,
    decreases depth, 0nat, name, 0nat,
{
    if name != "print"@ && find_function(prog, name) is Some {
        let f = prog[find_function(prog, name)->0];
        if args.len() == f.params.len() && depth > 0 {
            lemma_bound_is_detached(f.params, args, args.len());
            let entered = with_scopes(m, m.scopes.push(bound(f.params, args, args.len())));
            lemma_eval_seq_keeps_below(
                prog,
                (depth - 1) as nat,
                entered,
                f.body,
                f.body.len(),
                m.scopes.len() as int,
            );
        }
    }
}

/// The scope of a call is detached, whatever it binds.
pub proof fn lemma_bound_is_detached(params: Seq<Seq<char>>, args: Seq<Value>, n: nat)
    ensures
        !bound(params, args, n).nested,
    decreases n,
{
    if n > 0 && n <= params.len() && n <= args.len() {
        lemma_bound_is_detached(params, args, (n - 1) as nat);
    }
}

proof fn lemma_prefix_chain(a: Seq<char>, b: Seq<char>, c: Seq<char>)
    requires
        a.is_prefix_of(b),
        b.is_prefix_of(c),
    ensures
        a.is_prefix_of(c),
{
}

/// What was printed stays printed: the evaluation of an expression only
/// adds to the end of the output.
pub proof fn lemma_eval_extends_output(
    prog: Seq<FunctionView>,
    depth: nat,
    m: Machine,
    e: ExprView,
)
    ensures
        m.output.is_prefix_of(eval(prog, depth, m, e).state.output),
    decreases depth, 1nat, e, 0nat,
{
    let out = eval(prog, depth, m, e).state.output;
    match e {
        ExprView::Litt(_) => {},
        ExprView::Name(_) => {},
        ExprView::Declare(_, inner) => {
            lemma_eval_extends_output(prog, depth, m, *inner);
        },
        ExprView::Assign(_, inner) => {
            lemma_eval_extends_output(prog, depth, m, *inner);
        },
        ExprView::Block(exprs) => {
            let entered = with_scopes(m, m.scopes.push(empty_scope(true)));
            lemma_eval_seq_extends_output(prog, depth, entered, exprs, exprs.len());
        },
        ExprView::IfElse(cond, then_part, else_part) => {
            let c = eval(prog, depth, m, *cond);
            lemma_eval_extends_output(prog, depth, m, *cond);
            lemma_eval_seq_extends_output(prog, depth, c.state, then_part, then_part.len());
            lemma_eval_seq_extends_output(prog, depth, c.state, else_part, else_part.len());
            lemma_prefix_chain(m.output, c.state.output, out);
        },
        ExprView::BinOp(_, left, right) => {
            let l = eval(prog, depth, m, *left);
            lemma_eval_extends_output(prog, depth, m, *left);
            lemma_eval_extends_output(prog, depth, l.state, *right);
            lemma_prefix_chain(m.output, l.state.output, out);
        },
        ExprView::ConditionalOp(_, left, right) => {
            let l = eval(prog, depth, m, *left);
            lemma_eval_extends_output(prog, depth, m, *left);
            lemma_eval_extends_output(prog, depth, l.state, *right);
            lemma_prefix_chain(m.output, l.state.output, out);
        },
        ExprView::Not(inner) => {
            lemma_eval_extends_output(prog, depth, m, *inner);
        },
        ExprView::MakeTuple(exprs) => {
            lemma_eval_all_extends_output(prog, depth, m, exprs, exprs.len());
        },
        ExprView::Call(name, args) => {
            let g = eval_all(prog, depth, m, args, args.len());
            lemma_eval_all_extends_output(prog, depth, m, args, args.len());
            if g.result is Ok {
                lemma_call_extends_output(prog, depth, g.state, name, g.result->Ok_0);
                lemma_prefix_chain(m.output, g.state.output, out);
            }
        },
    }
}

/// A run of expressions only adds to the end of the output.
pub proof fn lemma_eval_seq_extends_output(
    prog: Seq<FunctionView>,
    depth: nat,
    m: Machine,
    exprs: Seq<ExprView>,
    n: nat,
)
    ensures
        m.output.is_prefix_of(eval_seq(prog, depth, m, exprs, n).state.output),
    decreases depth, 1nat, exprs, n,
{
    if n > 0 && n <= exprs.len() {
        let before = eval_seq(prog, depth, m, exprs, (n - 1) as nat);
        lemma_eval_seq_extends_output(prog, depth, m, exprs, (n - 1) as nat);
        lemma_eval_extends_output(prog, depth, before.state, exprs[n - 1]);
        lemma_prefix_chain(
            m.output,
            before.state.output,
            eval_seq(prog, depth, m, exprs, n).state.output,
        );
    }
}

/// A run of expressions evaluated for their values only adds to the end of
/// the output.
pub proof fn lemma_eval_all_extends_output(
    prog: Seq<FunctionView>,
    depth: nat,
    m: Machine,
    exprs: Seq<ExprView>,
    n: nat,
)
    ensures
        m.output.is_prefix_of(eval_all(prog, depth, m, exprs, n).state.output),
    decreases depth, 1nat, exprs, n,
{
    if n > 0 && n <= exprs.len() {
        let before = eval_all(prog, depth, m, exprs, (n - 1) as nat);
        lemma_eval_all_extends_output(prog, depth, m, exprs, (n - 1) as nat);
        lemma_eval_extends_output(prog, depth, before.state, exprs[n - 1]);
        lemma_prefix_chain(
            m.output,
            before.state.output,
            eval_all(prog, depth, m, exprs, n).state.output,
        );
    }
}

/// A call only adds to the end of the output.
pub proof fn lemma_call_extends_output(
    prog: Seq<FunctionView>,
    depth: nat,
    m: Machine,
    name: Seq<char>,
    args: Seq<Value>,
)
    ensures
        m.output.is_prefix_of(call(prog, depth, m, name, args).state.output),
    decreases depth, 0nat, name, 0nat,
{
    if name != "print"@ && find_function(prog, name) is Some {
        let f = prog[find_function(prog, name)->0];
        if args.len() == f.params.len() && depth > 0 {
            let entered = with_scopes(m, m.scopes.push(bound(f.params, args, args.len())));
            lemma_eval_seq_extends_output(
                prog,
                (depth - 1) as nat,
                entered,
                f.body,
                f.body.len(),
            );
        }
    }
}

/// The function that is found by name has that name.
pub proof fn lemma_found_function(prog: Seq<FunctionView>, name: Seq<char>, from: nat)
    ensures
        find_function_from(prog, name, from) matches Some(i) ==> from <= i < prog.len()
            && prog[i].name == name,
    decreases prog.len() - from,
{
    if from < prog.len() {
        lemma_found_function(prog, name, from + 1);
    }
}

/// The function that is found to be defined again has the name of an
/// earlier one.
pub proof fn lemma_found_redefinition(prog: Seq<FunctionView>, from: nat)
    ensures
        first_redefinition_from(prog, from) matches Some(j) ==> from <= j < prog.len()
            && redefines(prog, j),
    decreases prog.len() - from,
{
    if from < prog.len() {
        lemma_found_redefinition(prog, from + 1);
    }
}

/// A function without the types that its definition declares.
pub open spec fn untyped(f: FunctionView) -> FunctionView {
    FunctionView {
        name: f.name,
        params: f.params,
        types: Seq::new(f.types.len(), |i: int| None),
        ret: None,
        body: f.body,
    }
}

/// A program without the types that its functions declare.
pub open spec fn without_types(prog: Seq<FunctionView>) -> Seq<FunctionView> {
    Seq::new(prog.len(), |i: int| untyped(prog[i]))
}

proof fn lemma_types_find(prog: Seq<FunctionView>, name: Seq<char>, from: nat)
    ensures
        find_function_from(without_types(prog), name, from) == find_function_from(prog, name, from),
    decreases prog.len() - from,
{
    if from < prog.len() {
        lemma_types_find(prog, name, from + 1);
    }
}

proof fn lemma_types_redefinition(prog: Seq<FunctionView>, from: nat)
    ensures
        first_redefinition_from(without_types(prog), from) == first_redefinition_from(prog, from),
    decreases prog.len() - from,
{
    if from < prog.len() {
        lemma_types_redefinition(prog, from + 1);
        let plain = without_types(prog);
        let j = from as int;
        if redefines(prog, j) {
            let i = choose|i: int| 0 <= i < j && prog[i].name == prog[j].name;
            assert(plain[i].name == plain[j].name);
        }
        if redefines(plain, j) {
            let i = choose|i: int| 0 <= i < j && plain[i].name == plain[j].name;
        }
    }
}

/// The types that a program declares have no part in the evaluation of an
/// expression.
pub proof fn lemma_types_are_ignored(
    prog: Seq<FunctionView>,
    depth: nat,
    m: Machine,
    e: ExprView,
)
    ensures
        eval(without_types(prog), depth, m, e) == eval(prog, depth, m, e),
    decreases depth, 1nat, e, 0nat,
{
    match e {
        ExprView::Litt(_) => {},
        ExprView::Name(_) => {},
        ExprView::Declare(_, inner) => {
            lemma_types_are_ignored(prog, depth, m, *inner);
        },
        ExprView::Assign(_, inner) => {
            lemma_types_are_ignored(prog, depth, m, *inner);
        },
        ExprView::Block(exprs) => {
            let entered = with_scopes(m, m.scopes.push(empty_scope(true)));
            lemma_types_are_ignored_in_runs(prog, depth, entered, exprs, exprs.len());
        },
        ExprView::IfElse(cond, then_part, else_part) => {
            let c = eval(prog, depth, m, *cond);
            lemma_types_are_ignored(prog, depth, m, *cond);
            lemma_types_are_ignored_in_runs(prog, depth, c.state, then_part, then_part.len());
            lemma_types_are_ignored_in_runs(prog, depth, c.state, else_part, else_part.len());
        },
        ExprView::BinOp(_, left, right) => {
            lemma_types_are_ignored(prog, depth, m, *left);
            lemma_types_are_ignored(prog, depth, eval(prog, depth, m, *left).state, *right);
        },
        ExprView::ConditionalOp(_, left, right) => {
            lemma_types_are_ignored(prog, depth, m, *left);
            lemma_types_are_ignored(prog, depth, eval(prog, depth, m, *left).state, *right);
        },
        ExprView::Not(inner) => {
            lemma_types_are_ignored(prog, depth, m, *inner);
        },
        ExprView::MakeTuple(exprs) => {
            lemma_types_are_ignored_in_lists(prog, depth, m, exprs, exprs.len());
        },
        ExprView::Call(name, args) => {
            let g = eval_all(prog, depth, m, args, args.len());
            lemma_types_are_ignored_in_lists(prog, depth, m, args, args.len());
            if g.result is Ok {
                lemma_types_are_ignored_in_calls(prog, depth, g.state, name, g.result->Ok_0);
            }
        },
    }
}

/// The types that a program declares have no part in the evaluation of a
/// run of expressions.
pub proof fn lemma_types_are_ignored_in_runs(
    prog: Seq<FunctionView>,
    depth: nat,
    m: Machine,
    exprs: Seq<ExprView>,
    n: nat,
)
    ensures
        eval_seq(without_types(prog), depth, m, exprs, n) == eval_seq(prog, depth, m, exprs, n),
    decreases depth, 1nat, exprs, n,
{
    if n > 0 && n <= exprs.len() {
        lemma_types_are_ignored_in_runs(prog, depth, m, exprs, (n - 1) as nat);
        let before = eval_seq(prog, depth, m, exprs, (n - 1) as nat);
        lemma_types_are_ignored(prog, depth, before.state, exprs[n - 1]);
    }
}

/// The types that a program declares have no part in the evaluation of a
/// run of expressions for their values.
pub proof fn lemma_types_are_ignored_in_lists(
    prog: Seq<FunctionView>,
    depth: nat,
    m: Machine,
    exprs: Seq<ExprView>,
    n: nat,
)
    ensures
        eval_all(without_types(prog), depth, m, exprs, n) == eval_all(prog, depth, m, exprs, n),
    decreases depth, 1nat, exprs, n,
{
    if n > 0 && n <= exprs.len() {
        lemma_types_are_ignored_in_lists(prog, depth, m, exprs, (n - 1) as nat);
        let before = eval_all(prog, depth, m, exprs, (n - 1) as nat);
        lemma_types_are_ignored(prog, depth, before.state, exprs[n - 1]);
    }
}

/// The types that a program declares have no part in a call.
pub proof fn lemma_types_are_ignored_in_calls(
    prog: Seq<FunctionView>,
    depth: nat,
    m: Machine,
    name: Seq<char>,
    args: Seq<Value>,
)
    ensures
        call(without_types(prog), depth, m, name, args) == call(prog, depth, m, name, args),
    decreases depth, 0nat, name, 0nat,
{
    lemma_types_find(prog, name, 0);
    lemma_found_function(prog, name, 0);
    if name != "print"@ && find_function(prog, name) is Some {
        let f = prog[find_function(prog, name)->0];
        if args.len() == f.params.len() && depth > 0 {
            let entered = with_scopes(m, m.scopes.push(bound(f.params, args, args.len())));
            lemma_types_are_ignored_in_runs(
                prog,
                (depth - 1) as nat,
                entered,
                f.body,
                f.body.len(),
            );
        }
    }
}

/// The types that a program declares are not enforced: a run of the
/// program without them leaves what a run of the program leaves.
pub proof fn lemma_types_are_ignored_in_a_run(
    prog: Seq<FunctionView>,
    output: Seq<char>,
    depth: nat,
)
    ensures
        run_within(without_types(prog), output, depth) == run_within(prog, output, depth),
{
    lemma_types_redefinition(prog, 0);
    lemma_found_redefinition(prog, 0);
    let start = Machine { scopes: Seq::empty(), output };
    lemma_types_are_ignored_in_calls(prog, depth, start, "main"@, Seq::empty());
}

/// A run leaves no scope behind and only adds to the end of the output.
pub proof fn lemma_run_is_tidy(prog: Seq<FunctionView>, output: Seq<char>, depth: nat)
    ensures
        run_within(prog, output, depth).state.scopes == Seq::<ScopeView<Value>>::empty(),
        output.is_prefix_of(run_within(prog, output, depth).state.output),
{
    let start = Machine { scopes: Seq::empty(), output };
    lemma_call_keeps_scopes(prog, depth, start, "main"@, Seq::empty());
    lemma_call_extends_output(prog, depth, start, "main"@, Seq::empty());
}

} // verus!
