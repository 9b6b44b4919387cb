//! What visiting a tree does to a trace.
//!
//! A visit is described as a step from one [`Run`] to the next. It gets stuck where the tree does
//! not tell what the trace needs: a node text with a single backquote where a name is looked for,
//! a call into printing without arguments, or a variable that is set to what a call returns of
//! which the type is not known or cannot be searched. What was traced before that point stays,
//! and nothing is traced after it.

use crate::event::{EventView, PartyView, Transfer};
use crate::hir::{
    Block, Body, Expr, ExprKind, Local, Mutability, Node, Param, Pat, PermissionsBoundary, QPath,
    Stmt, Ty, UnOp,
};
use crate::points::{AccessPointView, ReferenceView, UsageView};
use crate::text;
use vstd::prelude::*;

verus! {

/// What a trace has gathered.
#[verifier::ext_equal]
pub struct State {
    /// The uses of places, by their position in the source.
    pub boundaries: Map<u32, PermissionsBoundary>,
    /// The variables that were declared.
    pub mutability: Map<Seq<char>, Mutability>,
    /// The references, each with the last line on which it is known to be used.
    pub lifetimes: Map<ReferenceView, usize>,
    /// What takes part, each with whether it is known to be out of scope.
    pub access_points: Map<UsageView, bool>,
    /// What was reported, in order.
    pub log: Seq<EventView>,
}

/// A trace on its way: what it has gathered, and whether it goes on.
#[verifier::ext_equal]
pub struct Run {
    pub state: State,
    pub ok: bool,
}

impl State {
    /// Reports `event`.
    pub open spec fn emit(self, event: EventView) -> State {
        State { log: self.log.push(event), ..self }
    }

    /// Lets `usage` take part.
    pub open spec fn mark(self, usage: UsageView) -> State {
        State { access_points: self.access_points.insert(usage, false), ..self }
    }

    /// Takes `reference` as used on `line`.
    pub open spec fn touch(self, reference: ReferenceView, line: usize) -> State {
        let last = if self.lifetimes.contains_key(reference) && self.lifetimes[reference] > line {
            self.lifetimes[reference]
        } else {
            line
        };
        State { lifetimes: self.lifetimes.insert(reference, last), ..self }
    }

    /// Declares the variable `name`.
    pub open spec fn declare(self, name: Seq<char>, mutability: Mutability) -> State {
        State { mutability: self.mutability.insert(name, mutability), ..self }
    }

    /// Reports a transfer.
    pub open spec fn transfer(self, how: Transfer, from: PartyView, to: PartyView) -> State {
        self.emit(EventView::Transfer { how, from, to })
    }

    /// The run that goes on from here.
    pub open spec fn go(self) -> Run {
        Run { state: self, ok: true }
    }

    /// The run that is stuck here.
    pub open spec fn stuck(self) -> Run {
        Run { state: self, ok: false }
    }
}

/// The name of the first segment of the path that `expr` is, where it is a resolved path that has
/// one.
pub open spec fn path_name(expr: Expr) -> Option<Seq<char>> {
    match expr.kind {
        ExprKind::Path(QPath::Resolved(path)) => text::var_name(path.segment@),
        _ => None,
    }
}

/// The text of the first segment closes its quotes, where `expr` is a resolved path.
pub open spec fn path_readable(expr: Expr) -> bool {
    match expr.kind {
        ExprKind::Path(QPath::Resolved(path)) => text::quotes_close(path.segment@),
        _ => true,
    }
}

/// The type that a call of `callee` returns is known, and can be searched for references.
pub open spec fn output_readable(callee: Expr) -> bool {
    callee.output is Some && callee.output->0.spec_searchable()
}

/// A value of type `ty` is copied where it is handed on: the type is `Copy` and no reference is in
/// it.
pub open spec fn copyable(ty: Ty) -> bool {
    !ty.spec_has_ref() && ty.is_copy
}

/// Nothing is in the way of tracing what a variable gets from `rhs`.
pub open spec fn rhs_readable(rhs: Expr) -> bool {
    match rhs.kind {
        ExprKind::Path(_) => path_readable(rhs),
        ExprKind::Call(callee, _) => {
            &&& text::quotes_close(callee.text@)
            &&& text::var_name(callee.text@) is Some ==> output_readable(*callee)
        },
        ExprKind::AddrOf(_, inner) => path_readable(*inner),
        _ => true,
    }
}

/// What `lhs` becomes when it gets the value of the variable `name`, which is used as `boundary`
/// says. From an owner it gets a value of its own; from a reference, the reference.
pub open spec fn take_variable(
    state: State,
    lhs: AccessPointView,
    name: Seq<char>,
    mutability: Mutability,
    boundary: PermissionsBoundary,
    line: usize,
) -> State {
    let owner = UsageView::Owner(AccessPointView { mutability, name });
    let how = if boundary.expected.drop { Transfer::Move } else { Transfer::Copy };
    let told = state.transfer(how, PartyView::Variable(name), PartyView::Variable(lhs.name));
    if state.access_points.contains_key(owner) {
        told.mark(UsageView::Owner(lhs))
    } else if boundary.expected.drop {
        told.mark(UsageView::MutRef(lhs)).touch(ReferenceView::Mut(name), line).touch(
            ReferenceView::Mut(lhs.name),
            line,
        )
    } else {
        told.mark(UsageView::StaticRef(lhs)).touch(ReferenceView::Static(name), line).touch(
            ReferenceView::Static(lhs.name),
            line,
        )
    }
}

/// What `lhs` becomes when it gets what a call of `function` returns, a value of type `output`. Of
/// a call that returns a reference nothing is traced.
pub open spec fn take_output(
    state: State,
    lhs: AccessPointView,
    function: Seq<char>,
    output: Ty,
) -> State {
    if output.spec_is_ref() {
        state
    } else {
        let how = if copyable(output) { Transfer::Copy } else { Transfer::Move };
        state.transfer(how, PartyView::Function(function), PartyView::Variable(lhs.name)).mark(
            UsageView::Owner(lhs),
        ).mark(UsageView::Function(function))
    }
}

/// What `lhs` becomes when it borrows the variable `name`.
pub open spec fn take_borrow(
    state: State,
    lhs: AccessPointView,
    name: Seq<char>,
    mutability: Mutability,
    line: usize,
) -> State {
    let from = PartyView::Variable(name);
    let to = PartyView::Variable(lhs.name);
    match mutability {
        Mutability::Not => state.transfer(Transfer::StaticBorrow, from, to).touch(
            ReferenceView::Static(lhs.name),
            line,
        ).mark(UsageView::StaticRef(lhs)),
        Mutability::Mut => state.transfer(Transfer::MutableBorrow, from, to).touch(
            ReferenceView::Mut(lhs.name),
            line,
        ).mark(UsageView::MutRef(lhs)),
    }
}

/// What `lhs` becomes when it gets the value of `rhs`, a readable one.
pub open spec fn match_rhs_state(state: State, lhs: AccessPointView, rhs: Expr) -> State {
    let line = rhs.span.line;
    match rhs.kind {
        ExprKind::Path(QPath::Resolved(path)) => match text::var_name(path.segment@) {
            Some(name) => if state.boundaries.contains_key(path.span.lo)
                && state.mutability.contains_key(name) {
                take_variable(
                    state,
                    lhs,
                    name,
                    state.mutability[name],
                    state.boundaries[path.span.lo],
                    line,
                )
            } else {
                state
            },
            None => state,
        },
        ExprKind::Call(callee, _) => match text::var_name(callee.text@) {
            Some(function) => take_output(state, lhs, function, callee.output->0),
            None => state,
        },
        ExprKind::Lit => state.emit(EventView::Bind(lhs.name)).mark(UsageView::Owner(lhs)),
        ExprKind::AddrOf(mutability, inner) => match path_name(*inner) {
            Some(name) => take_borrow(state, lhs, name, mutability, line),
            None => state,
        },
        _ => state,
    }
}

/// [`match_rhs_state`], or stuck where `rhs` is not readable.
pub open spec fn match_rhs_run(state: State, lhs: AccessPointView, rhs: Expr) -> Run {
    if rhs_readable(rhs) {
        match_rhs_state(state, lhs, rhs).go()
    } else {
        state.stuck()
    }
}

/// What becomes of a parameter: a reference or an owner from the start.
pub open spec fn param_state(state: State, param: Param) -> State {
    match param.pat {
        Pat::Binding { mutability, name } => {
            let point = AccessPointView { mutability, name: name@ };
            match param.ty.ref_mutability {
                Some(Mutability::Not) => state.emit(EventView::InitRefParam(name@)).touch(
                    ReferenceView::Static(name@),
                    param.span.line,
                ).mark(UsageView::StaticRef(point)),
                Some(Mutability::Mut) => state.emit(EventView::InitRefParam(name@)).touch(
                    ReferenceView::Mut(name@),
                    param.span.line,
                ).mark(UsageView::MutRef(point)),
                None => state.emit(EventView::InitOwnerParam(name@)).mark(UsageView::Owner(point)),
            }
        },
        _ => state,
    }
}

/// The first `n` parameters, one after the other.
pub open spec fn params_state(state: State, params: Seq<Param>, n: nat) -> State
    decreases n,
{
    if n == 0 {
        state
    } else {
        param_state(params_state(state, params, (n - 1) as nat), params[n - 1])
    }
}

/// What it means that the variable `name`, used as `boundary` says, is an argument of a call of
/// `function` on `line`.
pub open spec fn pass_variable(
    state: State,
    name: Seq<char>,
    function: Seq<char>,
    boundary: PermissionsBoundary,
    line: usize,
) -> State {
    let from = PartyView::Variable(name);
    let to = PartyView::Function(function);
    let told = if boundary.expected.drop {
        state.transfer(Transfer::Move, from, to)
    } else if boundary.expected.write {
        state.transfer(Transfer::PassByMutableReference, from, to).touch(
            ReferenceView::Mut(name),
            line,
        )
    } else if boundary.expected.read {
        state.transfer(Transfer::PassByStaticReference, from, to).touch(
            ReferenceView::Static(name),
            line,
        )
    } else {
        state
    };
    told.mark(UsageView::Function(function))
}

/// A name with a brace in it is the source of what a printing macro wrote.
pub open spec fn is_block_name(function: Seq<char>) -> bool {
    text::has_substring(function, "{"@)
}

/// What it means that a borrow of the variable `name` is an argument of a call of `function` on
/// `line`. To print a reference is to use it; any other function borrows for the call alone.
pub open spec fn pass_borrow(
    state: State,
    name: Seq<char>,
    function: Seq<char>,
    mutability: Mutability,
    line: usize,
) -> State {
    let prints = is_block_name(function);
    let called = if prints { "println"@ } else { function };
    let used = if !prints {
        state
    } else if state.lifetimes.contains_key(ReferenceView::Mut(name)) {
        state.touch(ReferenceView::Mut(name), line)
    } else if state.lifetimes.contains_key(ReferenceView::Static(name)) {
        state.touch(ReferenceView::Static(name), line)
    } else {
        state
    };
    let how = match mutability {
        Mutability::Not => Transfer::PassByStaticReference,
        Mutability::Mut => Transfer::PassByMutableReference,
    };
    used.transfer(how, PartyView::Variable(name), PartyView::Function(called)).mark(
        UsageView::Function(called),
    )
}

/// What it means that `arg` is an argument of a call, on `line`, of what goes by the name
/// `function`, if it has a name.
pub open spec fn arg_run(
    run: Run,
    function: Option<Seq<char>>,
    line: usize,
    arg: Expr,
) -> Run {
    let state = run.state;
    if !run.ok {
        run
    } else {
        match arg.kind {
            ExprKind::Path(QPath::Resolved(path)) => if !state.boundaries.contains_key(
                path.span.lo,
            ) {
                run
            } else if !text::quotes_close(path.segment@) {
                state.stuck()
            } else {
                match (text::var_name(path.segment@), function) {
                    (Some(name), Some(function)) => pass_variable(
                        state,
                        name,
                        function,
                        state.boundaries[path.span.lo],
                        line,
                    ).go(),
                    _ => run,
                }
            },
            ExprKind::AddrOf(mutability, inner) => match function {
                Some(function) => if !path_readable(*inner) {
                    state.stuck()
                } else {
                    match path_name(*inner) {
                        Some(name) => pass_borrow(state, name, function, mutability, line).go(),
                        None => run,
                    }
                },
                None => run,
            },
            _ => run,
        }
    }
}

/// The first `n` arguments, one after the other.
pub open spec fn args_run(
    run: Run,
    function: Option<Seq<char>>,
    line: usize,
    args: Seq<Expr>,
    n: nat,
) -> Run
    decreases n,
{
    if n == 0 {
        run
    } else {
        arg_run(
            args_run(run, function, line, args, (n - 1) as nat),
            function,
            line,
            args[n - 1],
        )
    }
}

/// The function named `function` is the one behind the printing macros.
pub open spec fn is_print(function: Option<Seq<char>>) -> bool {
    function is Some && text::has_substring(function->0, "crate::io::_print"@)
}

/// The variable that an assignment to `lhs` sets; the empty name where it sets no named one.
pub open spec fn assigned_name(lhs: Expr) -> Seq<char> {
    match path_name(lhs) {
        Some(name) => name,
        None => Seq::empty(),
    }
}

/// What becomes of the variable that `lhs = rhs` sets, if it was declared.
pub open spec fn assign_run(state: State, lhs: Expr, rhs: Expr) -> Run {
    let name = assigned_name(lhs);
    if !path_readable(lhs) {
        state.stuck()
    } else if state.mutability.contains_key(name) {
        match_rhs_run(state, AccessPointView { mutability: state.mutability[name], name }, rhs)
    } else {
        state.go()
    }
}

/// What it means to come upon the local variable at `path`, which is all of `expr`: to give it up,
/// where its use expects that.
pub open spec fn local_use_run(state: State, expr: Expr, lo: u32) -> Run {
    if !state.boundaries.contains_key(lo) || !state.boundaries[lo].expected.drop {
        state.go()
    } else if !text::quotes_close(expr.text@) {
        state.stuck()
    } else {
        match text::var_name(expr.text@) {
            Some(name) => state.emit(EventView::Blank).emit(
                EventView::OnLine(expr.span.line),
            ).transfer(Transfer::Move, PartyView::Variable(name), PartyView::Nowhere).go(),
            None => state.go(),
        }
    }
}

/// A borrow or a dereference of `inner` is left alone: `inner` is a place that the source itself
/// writes down.
pub open spec fn is_written_place(inner: Expr) -> bool {
    inner.is_syntactic_place && !inner.span.from_expansion
}

/// A visit of `expr`.
pub open spec fn expr_run(run: Run, expr: Expr) -> Run
    decreases expr, 0nat,
{
    if !run.ok {
        run
    } else {
        match expr.kind {
            ExprKind::Call(callee, args) => {
                let told = run.state.emit(EventView::Blank).emit(
                    EventView::FunctionCall(expr.text@),
                ).emit(EventView::OnLine(expr.span.line));
                let function = text::var_name(callee.text@);
                if !text::quotes_close(callee.text@) || (is_print(function) && args@.len() == 0) {
                    told.stuck()
                } else {
                    let printed = if is_print(function) {
                        match args@[0].kind {
                            ExprKind::Call(_, pieces) => exprs_run(
                                told.go(),
                                pieces@,
                                pieces@.len(),
                            ),
                            _ => told.go(),
                        }
                    } else {
                        told.go()
                    };
                    args_run(printed, function, expr.span.line, args@, args@.len())
                }
            },
            ExprKind::MethodCall { receiver, args, span } => if !span.from_expansion
                && receiver.is_place {
                exprs_run(run, args@, args@.len())
            } else {
                exprs_run(expr_run(run, *receiver), args@, args@.len())
            },
            ExprKind::Binary(lhs, rhs) => expr_run(expr_run(run, *lhs), *rhs),
            ExprKind::Lit => run,
            ExprKind::AddrOf(_, inner) => if is_written_place(*inner) {
                run
            } else {
                expr_run(run, *inner)
            },
            ExprKind::Assign(lhs, rhs) => {
                let told = run.state.emit(EventView::Blank).emit(
                    EventView::AssignExpression(expr.text@),
                ).emit(EventView::OnLine(expr.span.line));
                let seen = expr_run(assign_run(told, *lhs, *rhs), *lhs);
                if rhs.kind is Path {
                    seen
                } else {
                    expr_run(seen, *rhs)
                }
            },
            ExprKind::Block(block) => block_run(run, block),
            ExprKind::AssignOp(lhs, _) => expr_run(run, *lhs),
            ExprKind::Unary(op, inner) => if op == UnOp::Deref && is_written_place(*inner) {
                run
            } else {
                expr_run(run, *inner)
            },
            ExprKind::Path(QPath::Resolved(path)) => if path.is_local && !path.span.from_expansion {
                local_use_run(run.state, expr, path.span.lo)
            } else {
                run
            },
            ExprKind::Path(QPath::Other) => run,
            ExprKind::Other(nodes) => nodes_run(run, nodes@, nodes@.len()),
        }
    }
}

/// Visits of the first `n` of `exprs`, one after the other.
pub open spec fn exprs_run(run: Run, exprs: Seq<Expr>, n: nat) -> Run
    decreases exprs, n,
    when n <= exprs.len()
{
    if n == 0 {
        run
    } else {
        expr_run(exprs_run(run, exprs, (n - 1) as nat), exprs[n - 1])
    }
}

/// A visit of `node`.
pub open spec fn node_run(run: Run, node: Node) -> Run
    decreases node, 0nat,
{
    match node {
        Node::Expr(expr) => expr_run(run, expr),
        Node::Block(block) => block_run(run, block),
    }
}

/// Visits of the first `n` of `nodes`, one after the other.
pub open spec fn nodes_run(run: Run, nodes: Seq<Node>, n: nat) -> Run
    decreases nodes, n,
    when n <= nodes.len()
{
    if n == 0 {
        run
    } else {
        node_run(nodes_run(run, nodes, (n - 1) as nat), nodes[n - 1])
    }
}

/// A visit of `block`: its statements, then the expression that it ends in.
pub open spec fn block_run(run: Run, block: Block) -> Run
    decreases block, 0nat,
{
    let done = stmts_run(run, block.stmts@, block.stmts@.len());
    match block.expr {
        Some(expr) => expr_run(done, *expr),
        None => done,
    }
}

/// Visits of the first `n` of `stmts`, one after the other.
pub open spec fn stmts_run(run: Run, stmts: Seq<Stmt>, n: nat) -> Run
    decreases stmts, n,
    when n <= stmts.len()
{
    if n == 0 {
        run
    } else {
        stmt_run(stmts_run(run, stmts, (n - 1) as nat), stmts[n - 1])
    }
}

/// A visit of `stmt`. Items are left alone.
pub open spec fn stmt_run(run: Run, stmt: Stmt) -> Run
    decreases stmt, 0nat,
{
    match stmt {
        Stmt::Local(local) => local_run(run, local),
        Stmt::Item => run,
        Stmt::Expr(expr) => expr_run(run, expr),
        Stmt::Semi(expr) => expr_run(run, expr),
    }
}

/// A visit of `local`: the variable is declared and gets its value, then the value is visited
/// unless it is a path, then the `else` block.
pub open spec fn local_run(run: Run, local: Local) -> Run
    decreases local, 0nat,
{
    if !run.ok {
        run
    } else {
        let told = run.state.emit(EventView::Blank).emit(EventView::Statement(local.text@)).emit(
            EventView::StatementLine(local.span.line),
        );
        let set = match local.pat {
            Pat::Binding { mutability, name } => {
                let declared = told.declare(name@, mutability);
                match local.init {
                    Some(init) => {
                        let taken = match_rhs_run(
                            declared,
                            AccessPointView { mutability, name: name@ },
                            init,
                        );
                        if init.kind is Path {
                            taken
                        } else {
                            expr_run(taken, init)
                        }
                    },
                    None => declared.go(),
                }
            },
            Pat::Path { def_path } => told.emit(EventView::LhsPath(def_path@)).go(),
            Pat::Other => told.emit(EventView::LhsNotListed).go(),
        };
        match local.els {
            Some(block) => block_run(set, block),
            None => set,
        }
    }
}

/// A visit of `body`: its parameters, then its value.
pub open spec fn body_run(run: Run, body: Body) -> Run {
    if !run.ok {
        run
    } else {
        expr_run(params_state(run.state, body.params@, body.params@.len()).go(), body.value)
    }
}

/// Once stuck on an argument, the rest of the arguments change nothing.
pub proof fn lemma_args_stuck(
    run: Run,
    function: Option<Seq<char>>,
    line: usize,
    args: Seq<Expr>,
    i: nat,
    n: nat,
)
    requires
        i <= n,
        !args_run(run, function, line, args, i).ok,
    ensures
        args_run(run, function, line, args, n) == args_run(run, function, line, args, i),
    decreases n - i,
{
    if i < n {
        lemma_args_stuck(run, function, line, args, i, (n - 1) as nat);
    }
}

/// An expression changes nothing in a run that is stuck.
pub proof fn lemma_expr_stuck(run: Run, expr: Expr)
    requires
        !run.ok,
    ensures
        expr_run(run, expr) == run,
{
}

/// Once stuck on an expression, the rest of the expressions change nothing.
pub proof fn lemma_exprs_stuck(run: Run, exprs: Seq<Expr>, i: nat, n: nat)
    requires
        i <= n <= exprs.len(),
        !exprs_run(run, exprs, i).ok,
    ensures
        exprs_run(run, exprs, n) == exprs_run(run, exprs, i),
    decreases n - i,
{
    if i < n {
        lemma_exprs_stuck(run, exprs, i, (n - 1) as nat);
        lemma_expr_stuck(exprs_run(run, exprs, (n - 1) as nat), exprs[n - 1]);
    }
}

/// A statement changes nothing in a run that is stuck.
pub proof fn lemma_stmt_stuck(run: Run, stmt: Stmt)
    requires
        !run.ok,
    ensures
        stmt_run(run, stmt) == run,
{
    match stmt {
        Stmt::Local(local) => {
            assert(local_run(run, local) == run);
        },
        Stmt::Item => {},
        Stmt::Expr(expr) => lemma_expr_stuck(run, expr),
        Stmt::Semi(expr) => lemma_expr_stuck(run, expr),
    }
}

/// Once stuck on a statement, the rest of the statements change nothing.
pub proof fn lemma_stmts_stuck(run: Run, stmts: Seq<Stmt>, i: nat, n: nat)
    requires
        i <= n <= stmts.len(),
        !stmts_run(run, stmts, i).ok,
    ensures
        stmts_run(run, stmts, n) == stmts_run(run, stmts, i),
    decreases n - i,
{
    if i < n {
        lemma_stmts_stuck(run, stmts, i, (n - 1) as nat);
        lemma_stmt_stuck(stmts_run(run, stmts, (n - 1) as nat), stmts[n - 1]);
    }
}

/// A block changes nothing in a run that is stuck.
pub proof fn lemma_block_stuck(run: Run, block: Block)
    requires
        !run.ok,
    ensures
        block_run(run, block) == run,
{
    assert(stmts_run(run, block.stmts@, 0) == run);
    lemma_stmts_stuck(run, block.stmts@, 0, block.stmts@.len());
    if block.expr is Some {
        lemma_expr_stuck(run, *block.expr->0);
    }
}

/// Once stuck on a node, the rest of the nodes change nothing.
pub proof fn lemma_nodes_stuck(run: Run, nodes: Seq<Node>, i: nat, n: nat)
    requires
        i <= n <= nodes.len(),
        !nodes_run(run, nodes, i).ok,
    ensures
        nodes_run(run, nodes, n) == nodes_run(run, nodes, i),
    decreases n - i,
{
    if i < n {
        let before = nodes_run(run, nodes, (n - 1) as nat);
        lemma_nodes_stuck(run, nodes, i, (n - 1) as nat);
        match nodes[n - 1] {
            Node::Expr(expr) => lemma_expr_stuck(before, expr),
            Node::Block(block) => lemma_block_stuck(before, block),
        }
        assert(node_run(before, nodes[n - 1]) == before);
    }
}

} // verus!
