//! What becomes of variables: how each right hand side, parameter and argument is told, and what
//! takes part and lives on by it.

use crate::event::{EventView, PartyView, Transfer};
use crate::hir::{Expr, ExprKind, GenericArg, Mutability, Param, Pat, Path, QPath, Ty};
use crate::points::{
    AccessPoint, AccessPointUsage, AccessPointView, Reference, ReferenceView, UsageView,
};
use crate::semantics;
use crate::semantics::{Run, State};
use crate::text;
use crate::visitor;
use crate::visitor::ExprVisitor;
use vstd::prelude::*;

verus! {

/// From `before` to `after` one reference was used on `line`: it lives until then at least, no
/// shorter than before and no longer than one of the two asks for; all others live as before.
pub open spec fn lives_on(
    before: Map<ReferenceView, usize>,
    after: Map<ReferenceView, usize>,
    reference: ReferenceView,
    line: usize,
) -> bool {
    &&& after.dom() == before.dom().insert(reference)
    &&& after[reference] >= line
    &&& before.contains_key(reference) ==> after[reference] >= before[reference]
    &&& after[reference] == line || (before.contains_key(reference) && after[reference]
        == before[reference])
    &&& forall|other: ReferenceView|
        other != reference && before.contains_key(other) ==> #[trigger] after[other]
            == before[other]
}

/// From `before` to `after` nothing changed but the log, the lifetimes and what takes part.
pub open spec fn same_declarations(before: State, after: State) -> bool {
    after.mutability == before.mutability && after.boundaries == before.boundaries
}

/// `expr` is the variable `name`, at a path whose first segment is a node with that name.
pub open spec fn is_variable_path(expr: Expr, path: Path, name: Seq<char>) -> bool {
    &&& expr.kind == ExprKind::Path(QPath::Resolved(path))
    &&& text::quotes_close(path.segment@)
    &&& text::var_name(path.segment@) == Some(name)
}

/// A noted use of a reference changes its lifetime and nothing else.
pub proof fn law_use_of_reference(state: State, reference: ReferenceView, line: usize)
    ensures
        lives_on(
            state.lifetimes,
            state.touch(reference, line).lifetimes,
            reference,
            line,
        ),
        state.touch(reference, line).lifetimes.contains_key(reference),
        state.touch(reference, line).lifetimes[reference] == (if state.lifetimes.contains_key(
            reference,
        ) && line < state.lifetimes[reference] {
            state.lifetimes[reference]
        } else {
            line
        }),
        forall|other: ReferenceView|
            other != reference ==> {
                &&& #[trigger] state.touch(reference, line).lifetimes.contains_key(other)
                    <==> state.lifetimes.contains_key(other)
                &&& state.lifetimes.contains_key(other) ==> state.touch(
                    reference,
                    line,
                ).lifetimes[other] == state.lifetimes[other]
            },
        state.touch(reference, line).log == state.log,
        state.touch(reference, line).access_points == state.access_points,
        same_declarations(state, state.touch(reference, line)),
{
}

/// A report goes to the end of the log, a participant is added as not out of scope, a declaration
/// gives a variable its mutability, and each changes nothing else. A run goes on or is stuck.
pub proof fn law_steps(
    state: State,
    event: EventView,
    usage: UsageView,
    name: Seq<char>,
    mutability: Mutability,
)
    ensures
        state.emit(event) == (State { log: state.log + seq![event], ..state }),
        state.mark(usage) == (State {
            access_points: state.access_points.insert(usage, false),
            ..state
        }),
        state.declare(name, mutability) == (State {
            mutability: state.mutability.insert(name, mutability),
            ..state
        }),
        state.go() == (Run { state, ok: true }),
        state.stuck() == (Run { state, ok: false }),
{
    assert(state.log.push(event) =~= state.log + seq![event]);
}

/// What takes part, a reference and a visitor stand for what they hold.
pub proof fn law_point_views(
    point: AccessPoint,
    points: Vec<AccessPoint>,
    name: String,
    visitor: ExprVisitor,
    ok: bool,
)
    ensures
        point@.mutability == point.mutability && point@.name == point.name@,
        AccessPointUsage::Owner(point)@ == UsageView::Owner(point@),
        AccessPointUsage::MutRef(point)@ == UsageView::MutRef(point@),
        AccessPointUsage::StaticRef(point)@ == UsageView::StaticRef(point@),
        AccessPointUsage::Function(name)@ == UsageView::Function(name@),
        AccessPointUsage::Struct(points)@ matches UsageView::Struct(all) && all.len()
            == points@.len() && forall|i: int|
            0 <= i < points@.len() ==> #[trigger] all[i] == points@[i]@,
        Reference::Static(name)@ == ReferenceView::Static(name@),
        Reference::Mut(name)@ == ReferenceView::Mut(name@),
        visitor@.boundaries == visitor.boundary_map@,
        visitor@.mutability == visitor.mutability_map@,
        visitor@.lifetimes == visitor.lifetime_map@,
        visitor@.access_points == visitor.access_points@,
        visitor@.log.len() == visitor.log@.len(),
        forall|i: int|
            0 <= i < visitor.log@.len() ==> #[trigger] visitor@.log[i] == visitor.log@[i]@,
        visitor.run(ok).state == visitor@ && visitor.run(ok).ok == ok,
        visitor::name_view(Some(name)) == Some(name@),
        visitor::name_view(None) is None,
{
}

/// A type holds a reference if it is one or a walk of it meets one; what it holds is copied only
/// where it is `Copy` and holds none.
pub proof fn law_types(ty: Ty)
    ensures
        ty.spec_is_ref() <==> ty.ref_mutability is Some,
        ty.spec_has_ref() <==> ty.ref_mutability is Some || ty.parts@.contains(
            GenericArg::Type { is_ref: true },
        ),
        ty.spec_searchable() <==> ty.ref_mutability is Some || forall|i: int|
            0 <= i < ty.parts@.len() && (#[trigger] ty.parts@[i] == GenericArg::Lifetime
                || ty.parts@[i] == GenericArg::Const) ==> ty.parts@.take(i).contains(
                GenericArg::Type { is_ref: true },
            ),
        semantics::copyable(ty) <==> ty.is_copy && ty.ref_mutability is None && !ty.parts@.contains(
            GenericArg::Type { is_ref: true },
        ),
{
    let wanted = GenericArg::Type { is_ref: true };
    if ty.parts@.contains(wanted) {
        assert(ty.part_is_ref(ty.parts@.index_of(wanted)));
    }
    if exists|i: int| ty.part_is_ref(i) {
        let i = choose|i: int| ty.part_is_ref(i);
        assert(ty.parts@[i] == wanted);
    }
    assert forall|i: int| 0 <= i <= ty.parts@.len() implies ((exists|j: int|
        j < i && ty.part_is_ref(j)) <==> #[trigger] ty.parts@.take(i).contains(wanted)) by {
        if exists|j: int| j < i && ty.part_is_ref(j) {
            let j = choose|j: int| j < i && ty.part_is_ref(j);
            assert(ty.parts@.take(i)[j] == wanted);
        }
        if ty.parts@.take(i).contains(wanted) {
            let j = ty.parts@.take(i).index_of(wanted);
            assert(ty.part_is_ref(j));
        }
    }
    if ty.spec_searchable() && !(ty.ref_mutability is Some) {
        assert forall|i: int|
            0 <= i < ty.parts@.len() && (#[trigger] ty.parts@[i] == GenericArg::Lifetime
                || ty.parts@[i] == GenericArg::Const) implies ty.parts@.take(i).contains(
            wanted,
        ) by {
            assert(!(ty.parts@[i] is Type));
        }
    }
}

/// Which right hand sides can be traced: of a path and of a borrowed path, those whose first
/// segment closes its quotes; of a call, those whose callee does, and has no name or returns what
/// can be searched; and all others.
pub proof fn law_which_values_are_readable(
    rhs: Expr,
    path: Path,
    callee: Box<Expr>,
    args: Vec<Expr>,
    borrow: Mutability,
    inner: Box<Expr>,
)
    ensures
        rhs.kind == ExprKind::Path(QPath::Resolved(path)) ==> (semantics::rhs_readable(rhs)
            <==> text::quotes_close(path.segment@)),
        rhs.kind == ExprKind::Path(QPath::Other) ==> semantics::rhs_readable(rhs),
        rhs.kind == ExprKind::Call(callee, args) ==> (semantics::rhs_readable(rhs) <==> (
        text::quotes_close(callee.text@) && (text::var_name(callee.text@) is None || (
        callee.output is Some && callee.output->0.spec_searchable())))),
        rhs.kind == ExprKind::AddrOf(borrow, inner) && inner.kind == ExprKind::Path(
            QPath::Resolved(path),
        ) ==> (semantics::rhs_readable(rhs) <==> text::quotes_close(path.segment@)),
        rhs.kind == ExprKind::AddrOf(borrow, inner) && !(inner.kind matches ExprKind::Path(
            QPath::Resolved(_),
        )) ==> semantics::rhs_readable(rhs),
        !(rhs.kind is Path || rhs.kind is Call || rhs.kind is AddrOf) ==> semantics::rhs_readable(
            rhs,
        ),
        semantics::output_readable(*callee) <==> callee.output is Some
            && callee.output->0.spec_searchable(),
{
}

/// A variable that gets `&x` borrows it statically and lives as a static reference; one that gets
/// `&mut x` borrows it mutably and lives as a mutable one. The mutability of the variable itself
/// has no part in that.
pub proof fn law_borrow_is_told(
    state: State,
    lhs: AccessPointView,
    rhs: Expr,
    borrow: Mutability,
    inner: Box<Expr>,
    path: Path,
    name: Seq<char>,
)
    requires
        rhs.kind == ExprKind::AddrOf(borrow, inner),
        is_variable_path(*inner, path, name),
    ensures
        ({
            let next = semantics::match_rhs_state(state, lhs, rhs);
            let from = PartyView::Variable(name);
            let to = PartyView::Variable(lhs.name);
            &&& same_declarations(state, next)
            &&& borrow == Mutability::Not ==> {
                &&& next.log == state.log + seq![
                    EventView::Transfer { how: Transfer::StaticBorrow, from, to },
                ]
                &&& next.access_points == state.access_points.insert(
                    UsageView::StaticRef(lhs),
                    false,
                )
                &&& lives_on(
                    state.lifetimes,
                    next.lifetimes,
                    ReferenceView::Static(lhs.name),
                    rhs.span.line,
                )
            }
            &&& borrow == Mutability::Mut ==> {
                &&& next.log == state.log + seq![
                    EventView::Transfer { how: Transfer::MutableBorrow, from, to },
                ]
                &&& next.access_points == state.access_points.insert(UsageView::MutRef(lhs), false)
                &&& lives_on(
                    state.lifetimes,
                    next.lifetimes,
                    ReferenceView::Mut(lhs.name),
                    rhs.span.line,
                )
            }
        }),
{
}

/// A variable that gets a literal is bound to it and owns it.
pub proof fn law_literal_is_bound(state: State, lhs: AccessPointView, rhs: Expr)
    requires
        rhs.kind == ExprKind::Lit,
    ensures
        semantics::match_rhs_state(state, lhs, rhs) == (State {
            log: state.log + seq![EventView::Bind(lhs.name)],
            access_points: state.access_points.insert(UsageView::Owner(lhs), false),
            ..state
        }),
{
    assert(semantics::match_rhs_state(state, lhs, rhs) =~= (State {
        log: state.log + seq![EventView::Bind(lhs.name)],
        access_points: state.access_points.insert(UsageView::Owner(lhs), false),
        ..state
    }));
}

/// A variable that gets a declared variable whose use is known has it moved where that use gives
/// it up, and copied where not. It owns what it gets from an owner. From what is no owner it gets a
/// reference, mutable where moved and static where copied, and then both are used on that line.
pub proof fn law_variable_is_moved_or_copied(
    state: State,
    lhs: AccessPointView,
    rhs: Expr,
    path: Path,
    name: Seq<char>,
)
    requires
        is_variable_path(rhs, path, name),
        state.boundaries.contains_key(path.span.lo),
        state.mutability.contains_key(name),
    ensures
        ({
            let next = semantics::match_rhs_state(state, lhs, rhs);
            let line = rhs.span.line;
            let moved = state.boundaries[path.span.lo].expected.drop;
            let owned = state.access_points.contains_key(
                UsageView::Owner(AccessPointView { mutability: state.mutability[name], name }),
            );
            let from = PartyView::Variable(name);
            let to = PartyView::Variable(lhs.name);
            &&& same_declarations(state, next)
            &&& moved ==> next.log == state.log + seq![
                EventView::Transfer { how: Transfer::Move, from, to },
            ]
            &&& !moved ==> next.log == state.log + seq![
                EventView::Transfer { how: Transfer::Copy, from, to },
            ]
            &&& owned ==> {
                &&& next.access_points == state.access_points.insert(UsageView::Owner(lhs), false)
                &&& next.lifetimes == state.lifetimes
            }
            &&& !owned && moved ==> {
                &&& next.access_points == state.access_points.insert(UsageView::MutRef(lhs), false)
                &&& exists|between: Map<ReferenceView, usize>|
                    lives_on(state.lifetimes, between, ReferenceView::Mut(name), line)
                        && #[trigger] lives_on(
                        between,
                        next.lifetimes,
                        ReferenceView::Mut(lhs.name),
                        line,
                    )
            }
            &&& !owned && !moved ==> {
                &&& next.access_points == state.access_points.insert(
                    UsageView::StaticRef(lhs),
                    false,
                )
                &&& exists|between: Map<ReferenceView, usize>|
                    lives_on(state.lifetimes, between, ReferenceView::Static(name), line)
                        && #[trigger] lives_on(
                        between,
                        next.lifetimes,
                        ReferenceView::Static(lhs.name),
                        line,
                    )
            }
        }),
{
    let next = semantics::match_rhs_state(state, lhs, rhs);
    let line = rhs.span.line;
    let m = state.touch(ReferenceView::Mut(name), line).lifetimes;
    let s = state.touch(ReferenceView::Static(name), line).lifetimes;
    if state.boundaries[path.span.lo].expected.drop {
        assert(lives_on(state.lifetimes, m, ReferenceView::Mut(name), line));
        if !state.access_points.contains_key(
            UsageView::Owner(AccessPointView { mutability: state.mutability[name], name }),
        ) {
            assert(lives_on(m, next.lifetimes, ReferenceView::Mut(lhs.name), line));
        }
    } else {
        assert(lives_on(state.lifetimes, s, ReferenceView::Static(name), line));
        if !state.access_points.contains_key(
            UsageView::Owner(AccessPointView { mutability: state.mutability[name], name }),
        ) {
            assert(lives_on(s, next.lifetimes, ReferenceView::Static(lhs.name), line));
        }
    }
}

/// A variable that gets what a named call returns owns it: copied where the type is `Copy` and
/// holds no reference, and else moved. Then the function takes part too. Of a call that returns a
/// reference nothing is told.
pub proof fn law_result_is_moved_or_copied(
    state: State,
    lhs: AccessPointView,
    rhs: Expr,
    callee: Box<Expr>,
    args: Vec<Expr>,
    function: Seq<char>,
    output: Ty,
)
    requires
        rhs.kind == ExprKind::Call(callee, args),
        text::var_name(callee.text@) == Some(function),
        callee.output == Some(output),
    ensures
        ({
            let next = semantics::match_rhs_state(state, lhs, rhs);
            let from = PartyView::Function(function);
            let to = PartyView::Variable(lhs.name);
            let copied = output.is_copy && !output.parts@.contains(
                GenericArg::Type { is_ref: true },
            );
            &&& output.ref_mutability is Some ==> next == state
            &&& output.ref_mutability is None ==> {
                &&& same_declarations(state, next)
                &&& next.lifetimes == state.lifetimes
                &&& next.access_points == state.access_points.insert(
                    UsageView::Owner(lhs),
                    false,
                ).insert(UsageView::Function(function), false)
                &&& copied ==> next.log == state.log + seq![
                    EventView::Transfer { how: Transfer::Copy, from, to },
                ]
                &&& !copied ==> next.log == state.log + seq![
                    EventView::Transfer { how: Transfer::Move, from, to },
                ]
            }
        }),
{
    law_types(output);
}

/// Nothing is told where a variable gets anything else: a path or a borrow of one without a name,
/// of an undeclared variable or of a use that is not known, a call without a name, and what is
/// neither a path, a borrow, a literal nor a call.
pub proof fn law_other_values_are_passed_over(
    state: State,
    lhs: AccessPointView,
    rhs: Expr,
    path: Path,
    callee: Box<Expr>,
    args: Vec<Expr>,
    borrow: Mutability,
    inner: Box<Expr>,
)
    requires
        ({
            ||| rhs.kind == ExprKind::Path(QPath::Other)
            ||| rhs.kind == ExprKind::Path(QPath::Resolved(path)) && {
                ||| text::var_name(path.segment@) is None
                ||| !state.boundaries.contains_key(path.span.lo)
                ||| !state.mutability.contains_key(text::var_name(path.segment@)->0)
            }
            ||| rhs.kind == ExprKind::Call(callee, args) && text::var_name(callee.text@) is None
            ||| rhs.kind == ExprKind::AddrOf(borrow, inner) && inner.kind == ExprKind::Path(
                QPath::Resolved(path),
            ) && text::var_name(path.segment@) is None
            ||| rhs.kind == ExprKind::AddrOf(borrow, inner) && !(inner.kind matches ExprKind::Path(
                QPath::Resolved(_),
            ))
            ||| !(rhs.kind is Path || rhs.kind is Call || rhs.kind is Lit || rhs.kind is AddrOf)
        }),
    ensures
        semantics::match_rhs_state(state, lhs, rhs) == state,
{
}

/// A value that can be read is traced, and the trace is stuck on any other, with nothing told.
pub proof fn law_unreadable_value_stops(state: State, lhs: AccessPointView, rhs: Expr)
    ensures
        semantics::rhs_readable(rhs) ==> semantics::match_rhs_run(state, lhs, rhs) == (Run {
            state: semantics::match_rhs_state(state, lhs, rhs),
            ok: true,
        }),
        !semantics::rhs_readable(rhs) ==> semantics::match_rhs_run(state, lhs, rhs) == (Run {
            state,
            ok: false,
        }),
{
}

/// A parameter of a reference type is a reference from the start, static or mutable as its type
/// is, and used on its line; one of any other type owns its value. Other patterns are passed over.
pub proof fn law_parameter_is_owner_or_reference(
    state: State,
    param: Param,
    mutability: Mutability,
    name: String,
)
    ensures
        ({
            let next = semantics::param_state(state, param);
            let point = AccessPointView { mutability, name: name@ };
            &&& param.pat == (Pat::Binding { mutability, name }) ==> {
                &&& same_declarations(state, next)
                &&& param.ty.ref_mutability is None ==> {
                    &&& next.log == state.log + seq![EventView::InitOwnerParam(name@)]
                    &&& next.access_points == state.access_points.insert(
                        UsageView::Owner(point),
                        false,
                    )
                    &&& next.lifetimes == state.lifetimes
                }
                &&& param.ty.ref_mutability == Some(Mutability::Not) ==> {
                    &&& next.log == state.log + seq![EventView::InitRefParam(name@)]
                    &&& next.access_points == state.access_points.insert(
                        UsageView::StaticRef(point),
                        false,
                    )
                    &&& lives_on(
                        state.lifetimes,
                        next.lifetimes,
                        ReferenceView::Static(name@),
                        param.span.line,
                    )
                }
                &&& param.ty.ref_mutability == Some(Mutability::Mut) ==> {
                    &&& next.log == state.log + seq![EventView::InitRefParam(name@)]
                    &&& next.access_points == state.access_points.insert(
                        UsageView::MutRef(point),
                        false,
                    )
                    &&& lives_on(
                        state.lifetimes,
                        next.lifetimes,
                        ReferenceView::Mut(name@),
                        param.span.line,
                    )
                }
            }
            &&& !(param.pat is Binding) ==> next == state
        }),
{
}

/// A variable that is an argument of a named call is moved into it where its use gives it up;
/// else it is passed by mutable reference where its use writes, and by static reference where its
/// use reads, and is then used on the line of the call as such a reference. The function takes
/// part in any case.
pub proof fn law_variable_argument(
    run: Run,
    function: Seq<char>,
    line: usize,
    arg: Expr,
    path: Path,
    name: Seq<char>,
)
    requires
        run.ok,
        is_variable_path(arg, path, name),
        run.state.boundaries.contains_key(path.span.lo),
    ensures
        ({
            let state = run.state;
            let done = semantics::arg_run(run, Some(function), line, arg);
            let next = done.state;
            let use_of = state.boundaries[path.span.lo].expected;
            let from = PartyView::Variable(name);
            let to = PartyView::Function(function);
            &&& done.ok
            &&& same_declarations(state, next)
            &&& next.access_points == state.access_points.insert(
                UsageView::Function(function),
                false,
            )
            &&& use_of.drop ==> {
                &&& next.log == state.log + seq![
                    EventView::Transfer { how: Transfer::Move, from, to },
                ]
                &&& next.lifetimes == state.lifetimes
            }
            &&& !use_of.drop && use_of.write ==> {
                &&& next.log == state.log + seq![
                    EventView::Transfer { how: Transfer::PassByMutableReference, from, to },
                ]
                &&& lives_on(state.lifetimes, next.lifetimes, ReferenceView::Mut(name), line)
            }
            &&& !use_of.drop && !use_of.write && use_of.read ==> {
                &&& next.log == state.log + seq![
                    EventView::Transfer { how: Transfer::PassByStaticReference, from, to },
                ]
                &&& lives_on(state.lifetimes, next.lifetimes, ReferenceView::Static(name), line)
            }
            &&& !use_of.drop && !use_of.write && !use_of.read ==> {
                &&& next.log == state.log
                &&& next.lifetimes == state.lifetimes
            }
        }),
{
}

/// The report that a borrow of `name` is passed to `function`.
pub open spec fn borrow_passed(
    borrow: Mutability,
    name: Seq<char>,
    function: Seq<char>,
) -> EventView {
    EventView::Transfer {
        how: if borrow == Mutability::Not {
            Transfer::PassByStaticReference
        } else {
            Transfer::PassByMutableReference
        },
        from: PartyView::Variable(name),
        to: PartyView::Function(function),
    }
}

/// A borrow that is an argument of a call with a brace in its name is passed to `println`, which
/// takes part, and is a use of the reference that the variable is, a mutable one before a static
/// one. In any other call it is passed to the function of that name, which takes part, and no
/// lifetime changes.
pub proof fn law_borrowed_argument(
    run: Run,
    function: Seq<char>,
    line: usize,
    arg: Expr,
    borrow: Mutability,
    inner: Box<Expr>,
    path: Path,
    name: Seq<char>,
)
    requires
        run.ok,
        arg.kind == ExprKind::AddrOf(borrow, inner),
        is_variable_path(*inner, path, name),
    ensures
        ({
            let state = run.state;
            let done = semantics::arg_run(run, Some(function), line, arg);
            let next = done.state;
            let as_mut = ReferenceView::Mut(name);
            let as_static = ReferenceView::Static(name);
            &&& done.ok
            &&& same_declarations(state, next)
            &&& function.contains('{') ==> {
                &&& next.log == state.log + seq![borrow_passed(borrow, name, "println"@)]
                &&& next.access_points == state.access_points.insert(
                    UsageView::Function("println"@),
                    false,
                )
                &&& state.lifetimes.contains_key(as_mut) ==> lives_on(
                    state.lifetimes,
                    next.lifetimes,
                    as_mut,
                    line,
                )
                &&& !state.lifetimes.contains_key(as_mut) && state.lifetimes.contains_key(
                    as_static,
                ) ==> lives_on(state.lifetimes, next.lifetimes, as_static, line)
                &&& !state.lifetimes.contains_key(as_mut) && !state.lifetimes.contains_key(
                    as_static,
                ) ==> next.lifetimes == state.lifetimes
            }
            &&& !function.contains('{') ==> {
                &&& next.log == state.log + seq![borrow_passed(borrow, name, function)]
                &&& next.access_points == state.access_points.insert(
                    UsageView::Function(function),
                    false,
                )
                &&& next.lifetimes == state.lifetimes
            }
        }),
{
    crate::laws_text::law_brace_is_a_character(function);
}

/// An argument of which nothing is told: any in a run that is stuck, a path whose use is not known
/// or that has no name, a borrow of what has none, and what is neither. In a call without a name
/// nothing is told of any argument.
pub proof fn law_other_arguments_are_passed_over(
    run: Run,
    function: Option<Seq<char>>,
    line: usize,
    arg: Expr,
    path: Path,
    borrow: Mutability,
    inner: Box<Expr>,
)
    requires
        ({
            ||| !run.ok
            ||| arg.kind == ExprKind::Path(QPath::Other)
            ||| arg.kind == ExprKind::Path(QPath::Resolved(path)) && {
                ||| !run.state.boundaries.contains_key(path.span.lo)
                ||| text::quotes_close(path.segment@) && (function is None || text::var_name(
                    path.segment@,
                ) is None)
            }
            ||| arg.kind == ExprKind::AddrOf(borrow, inner) && {
                ||| function is None
                ||| inner.kind == ExprKind::Path(QPath::Resolved(path)) && text::quotes_close(
                    path.segment@,
                ) && text::var_name(path.segment@) is None
                ||| !(inner.kind matches ExprKind::Path(QPath::Resolved(_)))
            }
            ||| !(arg.kind is Path || arg.kind is AddrOf)
        }),
    ensures
        semantics::arg_run(run, function, line, arg) == run,
{
}

/// An argument whose name is looked for in a text with a single backquote stops the trace there.
pub proof fn law_unreadable_argument_stops(
    run: Run,
    function: Option<Seq<char>>,
    line: usize,
    arg: Expr,
    path: Path,
    borrow: Mutability,
    inner: Box<Expr>,
)
    requires
        run.ok,
        !text::quotes_close(path.segment@),
        ({
            ||| arg.kind == ExprKind::Path(QPath::Resolved(path))
                && run.state.boundaries.contains_key(path.span.lo)
            ||| arg.kind == ExprKind::AddrOf(borrow, inner) && inner.kind == ExprKind::Path(
                QPath::Resolved(path),
            ) && function is Some
        }),
    ensures
        semantics::arg_run(run, function, line, arg) == (Run { state: run.state, ok: false }),
{
}

} // verus!
