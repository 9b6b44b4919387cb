use borrow_print::event::Event;
use borrow_print::hir::{
    Block, Body, Expr, ExprKind, GenericArg, Local, Mutability, Node, Param, Pat, Path,
    Permissions, PermissionsBoundary, QPath, Span, Stmt, Ty, UnOp,
};
use borrow_print::points::{AccessPoint, AccessPointUsage, Reference};
use borrow_print::table::Table;
use borrow_print::visitor::ExprVisitor;
use std::collections::HashMap;

fn span(lo: u32, line: usize) -> Span {
    Span { lo, line, from_expansion: false }
}

fn expr(source: &str, line: usize, kind: ExprKind) -> Expr {
    Expr {
        text: format!("expr `{}`", source),
        span: span(0, line),
        output: None,
        is_place: false,
        is_syntactic_place: false,
        kind,
    }
}

fn lit(line: usize) -> Expr {
    expr("1", line, ExprKind::Lit)
}

/// The variable `name`, used at `lo`.
fn var(name: &str, lo: u32, line: usize) -> Expr {
    let path = Path { span: span(lo, line), segment: format!("path segment `{}`", name), is_local: true };
    let mut e = expr(name, line, ExprKind::Path(QPath::Resolved(path)));
    e.is_place = true;
    e.is_syntactic_place = true;
    e
}

fn borrow(mutability: Mutability, inner: Expr, line: usize) -> Expr {
    expr("&", line, ExprKind::AddrOf(mutability, Box::new(inner)))
}

fn gives(ref_mutability: Option<Mutability>, parts: Vec<GenericArg>, is_copy: bool) -> Option<Ty> {
    Some(Ty { ref_mutability, parts, is_copy })
}

fn call(name: &str, output: Option<Ty>, args: Vec<Expr>, line: usize) -> Expr {
    let mut callee = expr(name, line, ExprKind::Path(QPath::Other));
    callee.output = output;
    expr(&format!("{}()", name), line, ExprKind::Call(Box::new(callee), args))
}

fn binding(name: &str, mutability: Mutability) -> Pat {
    Pat::Binding { mutability, name: name.to_string() }
}

fn local(name: &str, mutability: Mutability, init: Option<Expr>, line: usize) -> Stmt {
    Stmt::Local(Local {
        text: format!("let {}", name),
        span: span(0, line),
        pat: binding(name, mutability),
        init,
        els: None,
    })
}

fn permissions(read: bool, write: bool, drop: bool) -> PermissionsBoundary {
    PermissionsBoundary { expected: Permissions { read, write, drop } }
}

fn moves() -> PermissionsBoundary {
    permissions(true, false, true)
}

fn reads() -> PermissionsBoundary {
    permissions(true, false, false)
}

fn visitor(uses: Vec<(u32, PermissionsBoundary)>) -> ExprVisitor {
    let mut map: HashMap<u32, PermissionsBoundary> = HashMap::new();
    for (lo, boundary) in uses {
        map.insert(lo, boundary);
    }
    ExprVisitor::new(map)
}

fn lines(v: &ExprVisitor) -> Vec<String> {
    v.log.iter().map(|event| event.text()).collect()
}

fn point(name: &str, mutability: Mutability) -> AccessPoint {
    AccessPoint { mutability, name: name.to_string() }
}

fn owner(name: &str, m: Mutability) -> AccessPointUsage {
    AccessPointUsage::Owner(point(name, m))
}

fn function(name: &str) -> AccessPointUsage {
    AccessPointUsage::Function(name.to_string())
}

fn static_life(v: &ExprVisitor, name: &str) -> Option<usize> {
    v.lifetime_map.get(&Reference::Static(name.to_string())).copied()
}

fn mut_life(v: &ExprVisitor, name: &str) -> Option<usize> {
    v.lifetime_map.get(&Reference::Mut(name.to_string())).copied()
}

const NOT: Mutability = Mutability::Not;
const MUT: Mutability = Mutability::Mut;

#[test]
fn later_use_of_a_reference_counts() {
    let mut v = visitor(vec![]);
    v.update_lifetime(Reference::Mut("r".to_string()), 5);
    assert_eq!(mut_life(&v, "r"), Some(5));
    v.update_lifetime(Reference::Mut("r".to_string()), 3);
    assert_eq!(mut_life(&v, "r"), Some(5));
    v.update_lifetime(Reference::Mut("r".to_string()), 9);
    assert_eq!(mut_life(&v, "r"), Some(9));
    assert_eq!(static_life(&v, "r"), None);
}

#[test]
fn uses_of_references_commute() {
    let mut v = visitor(vec![]);
    let mut w = visitor(vec![]);
    v.update_lifetime(Reference::Mut("a".to_string()), 2);
    v.update_lifetime(Reference::Static("b".to_string()), 4);
    w.update_lifetime(Reference::Static("b".to_string()), 4);
    w.update_lifetime(Reference::Mut("a".to_string()), 2);
    assert_eq!(mut_life(&v, "a"), mut_life(&w, "a"));
    assert_eq!(static_life(&v, "b"), static_life(&w, "b"));
}

#[test]
fn literal_is_bound_to_an_owner() {
    let mut v = visitor(vec![]);
    assert!(v.try_visit_stmt(&local("x", NOT, Some(lit(2)), 2)));
    assert_eq!(lines(&v), vec!["", "Statement: let x", "on line: 2", "Bind(x)"]);
    assert_eq!(v.access_points.get(&owner("x", NOT)), Some(&false));
    assert_eq!(v.mutability_map.get(&"x".to_string()), Some(&NOT));
    assert_eq!(v.access_points.len(), 1);
}

#[test]
fn owner_is_moved_to_an_owner() {
    let mut v = visitor(vec![(20, moves())]);
    v.visit_stmt(&local("x", NOT, Some(lit(1)), 1));
    v.visit_stmt(&local("y", MUT, Some(var("x", 20, 2)), 2));
    assert_eq!(lines(&v)[4..], ["", "Statement: let y", "on line: 2", "Move(x->y)"]);
    assert_eq!(v.access_points.get(&owner("y", MUT)), Some(&false));
    assert_eq!(v.lifetime_map.len(), 0);
}

#[test]
fn owner_is_copied_to_an_owner() {
    let mut v = visitor(vec![(20, reads())]);
    v.visit_stmt(&local("x", NOT, Some(lit(1)), 1));
    v.visit_stmt(&local("y", NOT, Some(var("x", 20, 2)), 2));
    assert_eq!(lines(&v).last().unwrap(), "Copy(x->y)");
    assert_eq!(v.access_points.get(&owner("y", NOT)), Some(&false));
}

#[test]
fn moved_reference_is_a_mutable_one() {
    let mut v = visitor(vec![(20, moves())]);
    v.visit_stmt(&local("x", MUT, Some(lit(1)), 1));
    v.visit_stmt(&local("r", NOT, Some(borrow(MUT, var("x", 10, 2), 2)), 2));
    assert_eq!(lines(&v).last().unwrap(), "MutableBorrow(x->r)");
    assert_eq!(mut_life(&v, "r"), Some(2));
    v.visit_stmt(&local("q", NOT, Some(var("r", 20, 3)), 3));
    assert_eq!(lines(&v).last().unwrap(), "Move(r->q)");
    assert_eq!(mut_life(&v, "r"), Some(3));
    assert_eq!(mut_life(&v, "q"), Some(3));
    assert_eq!(v.access_points.get(&AccessPointUsage::MutRef(point("q", NOT))), Some(&false));
}

#[test]
fn copied_reference_is_a_static_one() {
    let mut v = visitor(vec![(20, reads())]);
    v.visit_stmt(&local("x", NOT, Some(lit(1)), 1));
    v.visit_stmt(&local("r", NOT, Some(borrow(NOT, var("x", 10, 2), 2)), 2));
    assert_eq!(lines(&v).last().unwrap(), "StaticBorrow(x->r)");
    v.visit_stmt(&local("q", NOT, Some(var("r", 20, 7)), 7));
    assert_eq!(lines(&v).last().unwrap(), "Copy(r->q)");
    assert_eq!(static_life(&v, "r"), Some(7));
    assert_eq!(static_life(&v, "q"), Some(7));
    assert_eq!(v.access_points.get(&AccessPointUsage::StaticRef(point("q", NOT))), Some(&false));
}

#[test]
fn unknown_variables_and_uses_are_passed_over() {
    let mut v = visitor(vec![(20, moves())]);
    // No variable `x` was declared.
    v.match_rhs(point("y", NOT), &var("x", 20, 1));
    // No use is known at this position.
    v.visit_stmt(&local("x", NOT, None, 1));
    v.match_rhs(point("y", NOT), &var("x", 21, 1));
    // Nothing is traced of other expressions.
    v.match_rhs(point("y", NOT), &expr("[x]", 1, ExprKind::Other(vec![])));
    v.match_rhs(point("y", NOT), &borrow(NOT, lit(1), 1));
    assert_eq!(lines(&v), vec!["", "Statement: let x", "on line: 1"]);
    assert_eq!(v.access_points.len(), 0);
}

#[test]
fn results_of_calls() {
    let mut v = visitor(vec![]);
    v.match_rhs(point("a", NOT), &call("f", gives(None, vec![], true), vec![], 1));
    v.match_rhs(point("b", NOT), &call("g", gives(None, vec![], false), vec![], 1));
    v.match_rhs(point("c", NOT), &call("h", gives(Some(NOT), vec![], true), vec![], 1));
    let has_ref = vec![GenericArg::Type { is_ref: false }, GenericArg::Type { is_ref: true }, GenericArg::Lifetime];
    v.match_rhs(point("d", NOT), &call("i", gives(None, has_ref, true), vec![], 1));
    assert_eq!(lines(&v), vec!["Copy(f()->a)", "Move(g()->b)", "Move(i()->d)"]);
    assert_eq!(v.access_points.get(&function("f")), Some(&false));
    assert_eq!(v.access_points.get(&function("h")), None);
    assert_eq!(v.access_points.get(&owner("d", NOT)), Some(&false));
    assert_eq!(v.access_points.get(&owner("c", NOT)), None);
}

#[test]
fn return_types_are_read() {
    let v = visitor(vec![]);
    let mut f = lit(1);
    f.output = gives(Some(MUT), vec![], false);
    assert!(v.is_return_type_ref(&f));
    assert!(!v.is_return_type_copyable(&f));
    assert!(v.return_type_of(&f).is_some());
    f.output = gives(None, vec![GenericArg::Type { is_ref: false }], true);
    assert!(!v.is_return_type_ref(&f));
    assert!(v.is_return_type_copyable(&f));
}

#[test]
fn trace_is_stuck_on_what_it_cannot_read() {
    let mut v = visitor(vec![]);
    // The callee is no function.
    assert!(!ExprVisitor::can_match_rhs(&call("f", None, vec![], 1)));
    assert!(!v.try_visit_stmt(&local("x", NOT, Some(call("f", None, vec![], 1)), 1)));
    assert_eq!(lines(&v), vec!["", "Statement: let x", "on line: 1"]);
    // A constant comes before any reference in the type.
    let array = gives(None, vec![GenericArg::Type { is_ref: false }, GenericArg::Const], true);
    assert!(!ExprVisitor::can_match_rhs(&call("f", array, vec![], 1)));
    // A call is only visited, not read, where it sets no declared variable.
    let mut w = visitor(vec![]);
    let field = expr("s.x", 1, ExprKind::Other(vec![]));
    let set = expr("s.x = f()", 1, ExprKind::Assign(Box::new(field), Box::new(call("f", None, vec![], 1))));
    assert!(w.try_visit_expr(&set));
    // A callee with one backquote has no readable name.
    let mut odd = call("f", None, vec![], 1);
    if let ExprKind::Call(callee, _) = &mut odd.kind {
        callee.text = "expr `f".to_string();
    }
    let mut u = visitor(vec![]);
    assert!(!u.try_visit_expr(&odd));
    assert_eq!(lines(&u), vec!["", "Function Call: expr `f()`", "On line: 1"]);
    // Printing without arguments.
    let mut p = visitor(vec![]);
    assert!(!p.try_visit_expr(&call("$crate::io::_print", None, vec![], 1)));
}

#[test]
fn arguments_are_moved_or_passed_by_reference() {
    let uses = vec![
        (1, moves()),
        (2, permissions(true, true, false)),
        (3, reads()),
        (4, permissions(false, false, false)),
    ];
    let mut v = visitor(uses);
    let args = vec![var("a", 1, 6), var("b", 2, 6), var("c", 3, 6), var("d", 4, 6), var("e", 5, 6), lit(6)];
    v.visit_expr(&call("f", None, args, 6));
    assert_eq!(
        lines(&v),
        vec![
            "",
            "Function Call: expr `f()`",
            "On line: 6",
            "Move(a->f())",
            "PassByMutableReference(b->f())",
            "PassByStaticReference(c->f())",
        ]
    );
    assert_eq!(mut_life(&v, "b"), Some(6));
    assert_eq!(static_life(&v, "c"), Some(6));
    assert_eq!(mut_life(&v, "a"), None);
    assert_eq!(v.access_points.len(), 1);
    assert_eq!(v.access_points.get(&function("f")), Some(&false));
}

#[test]
fn function_takes_part_though_its_argument_needs_no_permission() {
    let mut v = visitor(vec![(4, permissions(false, false, false))]);
    v.visit_expr(&call("f", None, vec![var("d", 4, 6)], 6));
    assert_eq!(lines(&v).len(), 3);
    assert_eq!(v.access_points.get(&function("f")), Some(&false));
}

#[test]
fn borrows_are_passed() {
    let mut v = visitor(vec![]);
    let args = vec![borrow(NOT, var("a", 1, 6), 6), borrow(MUT, var("b", 2, 6), 6), borrow(NOT, lit(6), 6)];
    v.visit_expr(&call("f", None, args, 6));
    assert_eq!(
        lines(&v)[3..],
        ["PassByStaticReference(a->f())", "PassByMutableReference(b->f())"]
    );
    assert_eq!(v.lifetime_map.len(), 0);
}

#[test]
fn printing_uses_references() {
    let mut v = visitor(vec![]);
    v.update_lifetime(Reference::Mut("m".to_string()), 1);
    v.update_lifetime(Reference::Static("s".to_string()), 1);
    v.update_lifetime(Reference::Static("m".to_string()), 1);
    // println!("{}", m), as its expansion reads.
    let args = vec![
        borrow(NOT, var("m", 1, 8), 8),
        borrow(NOT, var("s", 2, 8), 8),
        borrow(NOT, var("x", 3, 8), 8),
    ];
    let piece = call("{ format }", None, args, 8);
    let inner = call("format_args", None, vec![piece], 8);
    v.visit_expr(&call("$crate::io::_print", None, vec![inner], 8));
    assert_eq!(
        lines(&v),
        vec![
            "",
            "Function Call: expr `$crate::io::_print()`",
            "On line: 8",
            "",
            "Function Call: expr `{ format }()`",
            "On line: 8",
            "PassByStaticReference(m->println())",
            "PassByStaticReference(s->println())",
            "PassByStaticReference(x->println())",
        ]
    );
    assert_eq!(mut_life(&v, "m"), Some(8));
    assert_eq!(static_life(&v, "m"), Some(1));
    assert_eq!(static_life(&v, "s"), Some(8));
    assert_eq!(static_life(&v, "x"), None);
    assert_eq!(v.access_points.get(&function("println")), Some(&false));
    assert_eq!(v.access_points.len(), 1);
}

#[test]
fn assignment_sets_a_declared_variable() {
    let mut v = visitor(vec![]);
    v.visit_stmt(&local("x", MUT, None, 1));
    let set = expr("x = 1", 2, ExprKind::Assign(Box::new(var("x", 9, 2)), Box::new(lit(2))));
    v.visit_expr(&set);
    assert_eq!(
        lines(&v)[3..],
        ["", "Assign Expression: expr `x = 1`", "On line: 2", "Bind(x)"]
    );
    assert_eq!(v.access_points.get(&owner("x", MUT)), Some(&false));
    // An undeclared one is left alone.
    let mut w = visitor(vec![]);
    w.visit_expr(&set);
    assert_eq!(lines(&w), vec!["", "Assign Expression: expr `x = 1`", "On line: 2"]);
}

#[test]
fn local_is_given_up() {
    let mut v = visitor(vec![(5, moves()), (6, reads())]);
    v.visit_expr(&var("x", 5, 4));
    v.visit_expr(&var("x", 6, 4));
    v.visit_expr(&var("x", 7, 4));
    assert_eq!(lines(&v), vec!["", "On line: 4", "Move(x->none)"]);
    // Neither a path that is no local, nor one from a macro.
    let mut other = var("C", 5, 4);
    if let ExprKind::Path(QPath::Resolved(p)) = &mut other.kind {
        p.is_local = false;
    }
    v.visit_expr(&other);
    let mut expanded = var("x", 5, 4);
    if let ExprKind::Path(QPath::Resolved(p)) = &mut expanded.kind {
        p.span.from_expansion = true;
    }
    v.visit_expr(&expanded);
    assert_eq!(v.log.len(), 3);
}

fn gives_up(lo: u32) -> Expr {
    var("x", lo, 1)
}

/// Which of the positions 1, 2, 3 a visit of `kind` comes upon.
fn seen(kind: ExprKind) -> usize {
    let mut v = visitor(vec![(1, moves()), (2, moves()), (3, moves())]);
    v.visit_expr(&expr("e", 1, kind));
    v.log.iter().filter(|event| event.text() == "Move(x->none)").count()
}

#[test]
fn what_each_kind_visits() {
    let b = |lo: u32| Box::new(gives_up(lo));
    let macro_made = || {
        let mut e = gives_up(1);
        e.span.from_expansion = true;
        Box::new(e)
    };
    let no_place = || {
        let mut e = gives_up(1);
        e.is_place = false;
        Box::new(e)
    };
    assert_eq!(seen(ExprKind::Binary(b(1), b(2))), 2);
    assert_eq!(seen(ExprKind::Lit), 0);
    assert_eq!(seen(ExprKind::AddrOf(NOT, b(1))), 0);
    assert_eq!(seen(ExprKind::AddrOf(NOT, macro_made())), 1);
    assert_eq!(seen(ExprKind::Unary(UnOp::Deref, b(1))), 0);
    assert_eq!(seen(ExprKind::Unary(UnOp::Deref, macro_made())), 1);
    assert_eq!(seen(ExprKind::Unary(UnOp::Not, b(1))), 1);
    assert_eq!(seen(ExprKind::Unary(UnOp::Neg, b(1))), 1);
    assert_eq!(seen(ExprKind::AssignOp(b(1), b(2))), 1);
    assert_eq!(seen(ExprKind::Assign(b(1), b(2))), 1);
    assert_eq!(seen(ExprKind::Assign(b(1), Box::new(expr("e", 1, ExprKind::Binary(b(2), b(3)))))), 3);
    assert_eq!(seen(ExprKind::Path(QPath::Other)), 0);
    let method = |receiver: Box<Expr>, from_expansion: bool| {
        let mut s = span(0, 1);
        s.from_expansion = from_expansion;
        ExprKind::MethodCall { receiver, args: vec![gives_up(2), gives_up(3)], span: s }
    };
    assert_eq!(seen(method(b(1), false)), 2);
    assert_eq!(seen(method(no_place(), false)), 3);
    assert_eq!(seen(method(b(1), true)), 3);
    let block = Block { stmts: vec![Stmt::Semi(gives_up(1)), Stmt::Item, Stmt::Expr(gives_up(2))], expr: Some(b(3)) };
    assert_eq!(seen(ExprKind::Block(block)), 3);
    let nodes = vec![
        Node::Expr(gives_up(1)),
        Node::Block(Block { stmts: vec![Stmt::Semi(gives_up(2))], expr: None }),
    ];
    assert_eq!(seen(ExprKind::Other(nodes)), 2);
}

#[test]
fn other_patterns_of_let() {
    let mut v = visitor(vec![(1, moves())]);
    let mut l = Local {
        text: "let C = x".to_string(),
        span: span(0, 4),
        pat: Pat::Path { def_path: "demo::C".to_string() },
        init: Some(gives_up(1)),
        els: Some(Block { stmts: vec![], expr: Some(Box::new(gives_up(1))) }),
    };
    v.visit_local(&l);
    assert_eq!(
        lines(&v),
        vec!["", "Statement: let C = x", "on line: 4", "lhs path: \"demo::C\"", "", "On line: 1", "Move(x->none)"]
    );
    l.pat = Pat::Other;
    l.els = None;
    let mut w = visitor(vec![(1, moves())]);
    w.visit_local(&l);
    assert_eq!(w.log.last(), Some(&Event::LhsNotListed));
}

fn param(name: &str, mutability: Mutability, ref_mutability: Option<Mutability>, line: usize) -> Param {
    Param {
        span: span(0, line),
        ty: Ty { ref_mutability, parts: vec![], is_copy: false },
        pat: binding(name, mutability),
    }
}

#[test]
fn parameters_are_owners_or_references() {
    let mut v = visitor(vec![]);
    let mut params = vec![param("o", MUT, None, 1), param("s", NOT, Some(NOT), 1), param("m", NOT, Some(MUT), 2)];
    params.push(Param { span: span(0, 1), ty: Ty { ref_mutability: None, parts: vec![], is_copy: true }, pat: Pat::Other });
    let body = Body { params, value: expr("{}", 1, ExprKind::Block(Block { stmts: vec![], expr: None })) };
    assert!(v.try_visit_body(&body));
    assert_eq!(lines(&v), vec!["InitOwnerParam(o)", "InitRefParam(s)", "InitRefParam(m)"]);
    assert_eq!(static_life(&v, "s"), Some(1));
    assert_eq!(mut_life(&v, "m"), Some(2));
    assert_eq!(v.access_points.get(&owner("o", MUT)), Some(&false));
    // Parameters are not declared by `let`.
    assert_eq!(v.mutability_map.len(), 0);
    assert_eq!(
        v.print_definitions(),
        vec![
            "",
            "/*--- BEGIN Variable Definitions ---",
            "Owner Mut o;",
            "StaticRef Not s;",
            "MutRef Not m;",
            "--- END Variable Definitions ---*/",
        ]
    );
    assert_eq!(v.print_out_of_scope(), vec!["", "GoOutOfScope(o)", "GoOutOfScope(s)", "GoOutOfScope(m)"]);
    assert_eq!(v.print_lifetimes(), vec!["", "StaticDie(s) at line 1", "MutableDie(m) at line 2"]);
}

#[test]
fn summary_passes_over_structs_and_what_is_gone() {
    let mut v = visitor(vec![]);
    v.access_points.insert(AccessPointUsage::Struct(vec![point("s", NOT)]), false);
    v.access_points.insert(function("f"), false);
    v.access_points.insert(owner("x", NOT), true);
    v.access_points.insert(owner("y", NOT), false);
    v.access_points.insert(AccessPointUsage::Struct(vec![point("s", NOT)]), true);
    assert_eq!(v.access_points.len(), 4);
    assert_eq!(v.print_definitions()[2..5], ["Function f();", "Owner Not x;", "Owner Not y;"]);
    assert_eq!(v.print_definitions().len(), 6);
    assert_eq!(v.print_out_of_scope(), vec!["", "GoOutOfScope(y)"]);
    assert_eq!(v.print_lifetimes(), vec![""]);
}

#[test]
fn summary_does_not_depend_on_the_order() {
    let mut v = visitor(vec![]);
    let mut w = visitor(vec![]);
    v.access_points.insert(owner("x", NOT), false);
    v.access_points.insert(function("f"), false);
    w.access_points.insert(function("f"), false);
    w.access_points.insert(owner("x", NOT), false);
    let mut a = v.print_definitions();
    let mut b = w.print_definitions();
    assert_ne!(a, b);
    a.sort();
    b.sort();
    assert_eq!(a, b);
}

#[test]
fn nothing_is_lost_as_a_trace_goes_on() {
    let mut v = visitor(vec![(20, moves())]);
    v.visit_stmt(&local("x", MUT, Some(lit(1)), 1));
    v.visit_stmt(&local("r", NOT, Some(borrow(MUT, var("x", 10, 2), 2)), 2));
    let before = lines(&v);
    v.visit_stmt(&local("q", NOT, Some(var("r", 20, 3)), 3));
    assert_eq!(lines(&v)[..before.len()], before);
    assert_eq!(v.access_points.get(&owner("x", MUT)), Some(&false));
    assert!(mut_life(&v, "r") >= Some(2));
    // Every reference that takes part dies somewhere.
    assert_eq!(v.print_lifetimes(), vec!["", "MutableDie(r) at line 3", "MutableDie(q) at line 3"]);
    assert_eq!(v.print_out_of_scope().len(), 4);
}

#[test]
fn redeclared_variable_has_its_last_mutability() {
    let mut v = visitor(vec![]);
    v.visit_stmt(&local("x", MUT, Some(lit(1)), 1));
    v.visit_stmt(&local("x", NOT, Some(lit(2)), 2));
    assert_eq!(v.mutability_map.get(&"x".to_string()), Some(&NOT));
    assert_eq!(v.access_points.len(), 2);
}

#[test]
fn table_holds_each_key_once() {
    let mut t: Table<String, usize> = Table::new();
    assert!(!t.contains_key(&"a".to_string()));
    t.insert("a".to_string(), 1);
    t.insert("b".to_string(), 2);
    t.insert("a".to_string(), 3);
    assert_eq!(t.len(), 2);
    assert_eq!(t.get(&"a".to_string()), Some(&3));
    assert_eq!(t.entry(0), (&"a".to_string(), &3));
    assert_eq!(t.entry(1), (&"b".to_string(), &2));
}
