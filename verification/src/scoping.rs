//! Scopes are entered and left in pairs: whatever a program evaluates or
//! executes to its end, it is afterwards in the scope it was in before, as
//! deep in the chain of scopes as it was.

use crate::callable::{Callable, LoxCallable};
use crate::environment::{
    keeps_chains, lemma_depth_follows_chain, lemma_holder_holds, EnvironmentView,
};
use crate::grammar::{Expr, Stmt};
use crate::machine::bind_parameters;
use crate::object::LoxObjectView;
use crate::operators::RequestView;
use crate::semantics::{apply, eval, eval_args, exec, exec_list, print, Outcome, World};
use crate::token::{Token, TokenView};
use vstd::prelude::*;

verus! {

/// True where the program is, in the world `after`, in the scope it was in
/// in the world `before`, and every scope that was there is still there, in
/// the scope it was in.
pub open spec fn same_scope<'a>(before: World<'a>, after: World<'a>) -> bool {
    after.environment.current == before.environment.current && keeps_chains(
        before.environment,
        after.environment,
    )
}

/// True where the outcome `outcome` of something that began in the world
/// `w`, if it is an end, finds the program in the same scope.
pub open spec fn balanced<'a, T>(w: World<'a>, outcome: Outcome<'a, T>) -> bool {
    outcome matches Outcome::Done(_, after) ==> same_scope(w, after)
}

/// Chains that are kept twice are kept.
pub proof fn lemma_keeps_chains_twice<'a>(
    first: EnvironmentView<'a>,
    second: EnvironmentView<'a>,
    third: EnvironmentView<'a>,
)
    requires
        keeps_chains(first, second),
        keeps_chains(second, third),
    ensures
        keeps_chains(first, third),
{
    assert forall|scope: int| 0 <= scope < first.layers.len() implies (#[trigger] third.layers[scope]).parent
        == first.layers[scope].parent by {
        assert(second.layers[scope].parent == first.layers[scope].parent);
    }
}

/// Binding keeps the scope and the chains.
pub proof fn lemma_define_keeps_scope<'a>(
    environment: EnvironmentView<'a>,
    name: Seq<char>,
    value: LoxObjectView<'a>,
)
    ensures
        environment.define(name, value).current == environment.current,
        keeps_chains(environment, environment.define(name, value)),
        environment.assign(name, value).current == environment.current,
        keeps_chains(environment, environment.assign(name, value)),
        environment.capture().current == environment.current,
        keeps_chains(environment, environment.capture()),
        environment.define(name, value).layers.len() == environment.layers.len(),
{
    lemma_holder_holds(environment, environment.current as int, name);
}

/// Binding the parameters of a function keeps the scope and the chains.
pub proof fn lemma_bind_parameters_keeps_scope<'a>(
    environment: EnvironmentView<'a>,
    params: Seq<Token>,
    args: Seq<LoxObjectView<'a>>,
    from: int,
)
    ensures
        bind_parameters(environment, params, args, from).current == environment.current,
        keeps_chains(environment, bind_parameters(environment, params, args, from)),
        bind_parameters(environment, params, args, from).layers.len() == environment.layers.len(),
    decreases params.len() - from,
{
    if 0 <= from < params.len() {
        let next = environment.define(params[from].lexeme@, args[from]);
        lemma_define_keeps_scope(environment, params[from].lexeme@, args[from]);
        lemma_bind_parameters_keeps_scope(next, params, args, from + 1);
        lemma_keeps_chains_twice(
            environment,
            next,
            bind_parameters(environment, params, args, from),
        );
    }
}

/// A scope that was entered from the scope `before.current`, in which the
/// program did what kept the scope and the chains, is left for the scope
/// that the program was in, with the chains still kept.
pub proof fn lemma_leave_is_balanced<'a>(
    before: EnvironmentView<'a>,
    entered: EnvironmentView<'a>,
    inside: EnvironmentView<'a>,
)
    requires
        before.has(before.current as int),
        keeps_chains(before, entered),
        entered.layers.len() == before.layers.len() + 1,
        keeps_chains(entered, inside),
    ensures
        inside.leave(before.current).current == before.current,
        keeps_chains(before, inside.leave(before.current)),
{
    lemma_keeps_chains_twice(before, entered, inside);
}

/// Printing keeps the scope.
pub proof fn lemma_print_scope<'a>(value: LoxObjectView<'a>, w: World<'a>, fuel: nat)
    ensures
        balanced(w, print(value, w, fuel)),
    decreases fuel,
{
    if fuel > 0 {
        if let LoxObjectView::Number(number) = value {
            if let Outcome::Done(text, w1) = w.request(RequestView::Format(number)) {
                lemma_print_scope(text, w1, (fuel - 1) as nat);
                if let Outcome::Done(_, w2) = print(text, w1, (fuel - 1) as nat) {
                    lemma_keeps_chains_twice(w.environment, w1.environment, w2.environment);
                }
            }
        }
    }
}

/// An evaluation that ends leaves the program in the scope it was in.
pub proof fn lemma_eval_scope<'a>(expr: &'a Expr, w: World<'a>, fuel: nat)
    requires
        w.environment.has(w.environment.current as int),
    ensures
        balanced(w, eval(expr, w, fuel)),
    decreases fuel, 1nat,
{
    if fuel > 0 {
        let less = (fuel - 1) as nat;
        match expr {
            Expr::Literal(_) => {},
            Expr::Grouping(grouping) => {
                lemma_eval_scope(&*grouping.expr, w, less);
            },
            Expr::Variable(_) => {},
            Expr::Assignment(assignment) => {
                lemma_eval_scope(&*assignment.expr, w, less);
                if let Outcome::Done(value, w1) = eval(&*assignment.expr, w, less) {
                    lemma_define_keeps_scope(w1.environment, assignment.variable.lexeme@, value);
                    lemma_keeps_chains_twice(
                        w.environment,
                        w1.environment,
                        w1.environment.assign(assignment.variable.lexeme@, value),
                    );
                }
            },
            Expr::Unary(unary) => {
                lemma_eval_scope(&*unary.rhs, w, less);
            },
            Expr::Logical(binary) => {
                lemma_eval_scope(&*binary.lhs, w, less);
                if let Outcome::Done(left, w1) = eval(&*binary.lhs, w, less) {
                    lemma_eval_scope(&*binary.rhs, w1, less);
                    if let Outcome::Done(_, w2) = eval(&*binary.rhs, w1, less) {
                        lemma_keeps_chains_twice(w.environment, w1.environment, w2.environment);
                    }
                }
            },
            Expr::Binary(binary) => {
                lemma_eval_scope(&*binary.lhs, w, less);
                if let Outcome::Done(left, w1) = eval(&*binary.lhs, w, less) {
                    lemma_eval_scope(&*binary.rhs, w1, less);
                    if let Outcome::Done(_, w2) = eval(&*binary.rhs, w1, less) {
                        lemma_keeps_chains_twice(w.environment, w1.environment, w2.environment);
                    }
                }
            },
            Expr::Call(call) => {
                lemma_eval_scope(&*call.callee, w, less);
                if let Outcome::Done(callee, w1) = eval(&*call.callee, w, less) {
                    lemma_eval_args_scope(&call.args, 0, Seq::empty(), w1, less);
                    if let Outcome::Done(args, w2) = eval_args(
                        &call.args,
                        0,
                        Seq::empty(),
                        w1,
                        less,
                    ) {
                        lemma_keeps_chains_twice(w.environment, w1.environment, w2.environment);
                        lemma_apply_scope(callee, args, call.closing_paren@, w2, less);
                        if let Outcome::Done(_, w3) = apply(
                            callee,
                            args,
                            call.closing_paren@,
                            w2,
                            less,
                        ) {
                            lemma_keeps_chains_twice(
                                w.environment,
                                w2.environment,
                                w3.environment,
                            );
                        }
                    }
                }
            },
        }
    }
}

/// The evaluation of arguments that ends leaves the program in the scope
/// it was in.
pub proof fn lemma_eval_args_scope<'a>(
    args: &'a Vec<Expr>,
    from: int,
    done: Seq<LoxObjectView<'a>>,
    w: World<'a>,
    fuel: nat,
)
    requires
        w.environment.has(w.environment.current as int),
    ensures
        balanced(w, eval_args(args, from, done, w, fuel)),
    decreases fuel, 1nat,
{
    if fuel > 0 && 0 <= from < args.len() {
        let less = (fuel - 1) as nat;
        lemma_eval_scope(&args[from], w, less);
        if let Outcome::Done(value, w1) = eval(&args[from], w, less) {
            lemma_eval_args_scope(args, from + 1, done.push(value), w1, less);
            if let Outcome::Done(_, w2) = eval_args(args, from + 1, done.push(value), w1, less) {
                lemma_keeps_chains_twice(w.environment, w1.environment, w2.environment);
            }
        }
    }
}

/// A call that ends leaves the caller in the scope it was in.
pub proof fn lemma_apply_scope<'a>(
    callee: LoxObjectView<'a>,
    args: Seq<LoxObjectView<'a>>,
    paren: TokenView,
    w: World<'a>,
    fuel: nat,
)
    requires
        w.environment.has(w.environment.current as int),
    ensures
        balanced(w, apply(callee, args, paren, w, fuel)),
    decreases fuel, 1nat,
{
    if fuel > 0 {
        let less = (fuel - 1) as nat;
        if let LoxObjectView::Function(callable) = callee {
            if args.len() == callable.spec_arity() {
                match callable {
                    Callable::Print(_) => {
                        lemma_print_scope(args[0], w, less);
                    },
                    Callable::Function(function) => {
                        let entered = w.environment.enter(function.closure);
                        let bound = bind_parameters(
                            entered,
                            function.declaration.params@,
                            args,
                            0,
                        );
                        lemma_bind_parameters_keeps_scope(
                            entered,
                            function.declaration.params@,
                            args,
                            0,
                        );
                        lemma_keeps_chains_twice(w.environment, entered, bound);
                        lemma_exec_list_scope(&function.declaration.body, 0, w.within(bound), less);
                        if let Outcome::Done(_, w1) = exec_list(
                            &function.declaration.body,
                            0,
                            w.within(bound),
                            less,
                        ) {
                            lemma_leave_is_balanced(w.environment, bound, w1.environment);
                        }
                    },
                    _ => {},
                }
            }
        }
    }
}

/// An execution that ends leaves the program in the scope it was in:
/// every scope that a statement enters it leaves again.
pub proof fn lemma_exec_scope<'a>(stmt: &'a Stmt, w: World<'a>, fuel: nat)
    requires
        w.environment.has(w.environment.current as int),
    ensures
        balanced(w, exec(stmt, w, fuel)),
    decreases fuel, 1nat,
{
    if fuel > 0 {
        let less = (fuel - 1) as nat;
        match stmt {
            Stmt::Expression(statement) => {
                lemma_eval_scope(&statement.expr, w, less);
            },
            Stmt::VariableDeclaration(declaration) => {
                match &declaration.initializer {
                    Some(initializer) => {
                        lemma_eval_scope(initializer, w, less);
                        if let Outcome::Done(value, w1) = eval(initializer, w, less) {
                            lemma_define_keeps_scope(
                                w1.environment,
                                declaration.name.lexeme@,
                                value,
                            );
                            lemma_keeps_chains_twice(
                                w.environment,
                                w1.environment,
                                w1.environment.define(declaration.name.lexeme@, value),
                            );
                        }
                    },
                    None => {
                        lemma_define_keeps_scope(
                            w.environment,
                            declaration.name.lexeme@,
                            LoxObjectView::Nil,
                        );
                    },
                }
            },
            Stmt::Block(block) => {
                let entered = w.environment.enter(w.environment.current);
                lemma_exec_list_scope(&block.body, 0, w.within(entered), less);
                if let Outcome::Done(_, w1) = exec_list(&block.body, 0, w.within(entered), less) {
                    lemma_leave_is_balanced(w.environment, entered, w1.environment);
                }
            },
            Stmt::If(statement) => {
                lemma_eval_scope(&statement.condition, w, less);
                if let Outcome::Done(condition, w1) = eval(&statement.condition, w, less) {
                    if condition.is_truthy() {
                        lemma_exec_scope(&*statement.then_branch, w1, less);
                        if let Outcome::Done(_, w2) = exec(&*statement.then_branch, w1, less) {
                            lemma_keeps_chains_twice(
                                w.environment,
                                w1.environment,
                                w2.environment,
                            );
                        }
                    } else if let Some(branch) = &statement.else_branch {
                        lemma_exec_scope(&**branch, w1, less);
                        if let Outcome::Done(_, w2) = exec(&**branch, w1, less) {
                            lemma_keeps_chains_twice(
                                w.environment,
                                w1.environment,
                                w2.environment,
                            );
                        }
                    }
                }
            },
            Stmt::While(statement) => {
                lemma_eval_scope(&statement.condition, w, less);
                if let Outcome::Done(condition, w1) = eval(&statement.condition, w, less) {
                    if condition.is_truthy() {
                        lemma_exec_scope(&*statement.body, w1, less);
                        if let Outcome::Done(signal, w2) = exec(&*statement.body, w1, less) {
                            lemma_keeps_chains_twice(
                                w.environment,
                                w1.environment,
                                w2.environment,
                            );
                            if signal is None {
                                lemma_exec_scope(stmt, w2, less);
                                if let Outcome::Done(_, w3) = exec(stmt, w2, less) {
                                    lemma_keeps_chains_twice(
                                        w.environment,
                                        w2.environment,
                                        w3.environment,
                                    );
                                }
                            }
                        }
                    }
                }
            },
            Stmt::FunctionDeclaration(declaration) => {
                let function = LoxObjectView::Function(
                    Callable::Function(
                        crate::function::LoxFunction {
                            declaration,
                            closure: w.environment.current,
                        },
                    ),
                );
                let defined = w.environment.define(declaration.name.lexeme@, function);
                lemma_define_keeps_scope(w.environment, declaration.name.lexeme@, function);
                lemma_define_keeps_scope(defined, declaration.name.lexeme@, function);
                lemma_keeps_chains_twice(w.environment, defined, defined.capture());
            },
            Stmt::Return(statement) => {
                if let Some(value) = &statement.value {
                    lemma_eval_scope(value, w, less);
                }
            },
        }
    }
}

/// The execution of statements that ends leaves the program in the scope
/// it was in.
pub proof fn lemma_exec_list_scope<'a>(stmts: &'a Vec<Stmt>, from: int, w: World<'a>, fuel: nat)
    requires
        w.environment.has(w.environment.current as int),
    ensures
        balanced(w, exec_list(stmts, from, w, fuel)),
    decreases fuel, 1nat,
{
    if fuel > 0 && 0 <= from < stmts.len() {
        let less = (fuel - 1) as nat;
        lemma_exec_scope(&stmts[from], w, less);
        if let Outcome::Done(signal, w1) = exec(&stmts[from], w, less) {
            if signal is None {
                lemma_exec_list_scope(stmts, from + 1, w1, less);
                if let Outcome::Done(_, w2) = exec_list(stmts, from + 1, w1, less) {
                    lemma_keeps_chains_twice(w.environment, w1.environment, w2.environment);
                }
            }
        }
    }
}

/// After a statement the scope chain is as deep as it was before. A block
/// enters a scope and a call of a function another; both leave it again
/// when they end, whether a `return` ended them or not, and so does
/// everything inside them.
pub proof fn lemma_depth_is_restored<'a>(stmt: &'a Stmt, w: World<'a>, fuel: nat)
    requires
        w.environment.has(w.environment.current as int),
    ensures
        exec(stmt, w, fuel) matches Outcome::Done(_, after) ==> after.environment.current
            == w.environment.current && after.environment.depth(after.environment.current as int)
            == w.environment.depth(w.environment.current as int),
{
    lemma_exec_scope(stmt, w, fuel);
    if let Outcome::Done(_, after) = exec(stmt, w, fuel) {
        lemma_depth_follows_chain(
            w.environment,
            after.environment,
            w.environment.current as int,
        );
    }
}

} // verus!
