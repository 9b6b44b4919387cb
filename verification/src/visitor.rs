//! The trace of a function body.

use crate::event::{Event, Party, Transfer};
use crate::hir::{
    Block, Body, Expr, ExprKind, Local, Mutability, Node, Param, Pat, PermissionsBoundary, QPath,
    Stmt, Ty, UnOp,
};
use crate::points::{AccessPoint, AccessPointUsage, Reference};
use crate::semantics;
use crate::semantics::{Run, State};
use crate::table::Table;
use crate::text;
use crate::text::{closes_quotes, contains, extract_var_name};
use std::collections::HashMap;
use vstd::prelude::*;

verus! {

/// A trace, with what it has gathered so far.
pub struct ExprVisitor {
    /// The uses of places, by their position in the source.
    pub boundary_map: HashMap<u32, PermissionsBoundary>,
    /// The variables that were declared.
    pub mutability_map: Table<String, Mutability>,
    /// The references, each with the last line on which it is known to be used.
    pub lifetime_map: Table<Reference, usize>,
    /// What takes part, each with whether it is known to be out of scope.
    pub access_points: Table<AccessPointUsage, bool>,
    /// What was reported, in order.
    pub log: Vec<Event>,
}

impl View for ExprVisitor {
    type V = State;

    open spec fn view(&self) -> State {
        State {
            boundaries: self.boundary_map@,
            mutability: self.mutability_map@,
            lifetimes: self.lifetime_map@,
            access_points: self.access_points@,
            log: Seq::new(self.log@.len(), |i: int| self.log@[i]@),
        }
    }
}

impl ExprVisitor {
    /// The trace that is about to begin, of a body with these uses of places.
    pub fn new(boundary_map: HashMap<u32, PermissionsBoundary>) -> (visitor: Self)
        ensures
            visitor@ == (State {
                boundaries: boundary_map@,
                mutability: Map::empty(),
                lifetimes: Map::empty(),
                access_points: Map::empty(),
                log: Seq::empty(),
            }),
    {
        ExprVisitor {
            boundary_map,
            mutability_map: Table::new(),
            lifetime_map: Table::new(),
            access_points: Table::new(),
            log: Vec::new(),
        }
    }

    /// Reports `event`.
    fn emit(&mut self, event: Event)
        ensures
            final(self)@ == old(self)@.emit(event@),
    {
        self.log.push(event);
        assert(self@ =~= old(self)@.emit(event@));
    }

    /// Reports a transfer.
    fn transfer(&mut self, how: Transfer, from: Party, to: Party)
        ensures
            final(self)@ == old(self)@.transfer(how, from@, to@),
    {
        self.emit(Event::Transfer { how, from, to });
    }

    /// Lets `usage` take part.
    fn mark(&mut self, usage: AccessPointUsage)
        ensures
            final(self)@ == old(self)@.mark(usage@),
    {
        self.access_points.insert(usage, false);
        assert(self@ =~= old(self)@.mark(usage@));
    }

    /// Takes `reference` as used on `line`: it lives until then, or longer.
    pub fn update_lifetime(&mut self, reference: Reference, line: usize)
        ensures
            final(self)@ == old(self)@.touch(reference@, line),
    {
        let known: Option<usize> = match self.lifetime_map.get(&reference) {
            Some(old_line) => Some(*old_line),
            None => None,
        };
        match known {
            Some(old_line) => {
                if old_line < line {
                    self.lifetime_map.insert(reference, line);
                }
            },
            None => {
                self.lifetime_map.insert(reference, line);
            },
        }
        assert(self@ =~= old(self)@.touch(reference@, line));
    }

    /// How the place at position `lo` is used.
    fn boundary_at(&self, lo: u32) -> (boundary: Option<PermissionsBoundary>)
        ensures
            match boundary {
                Some(found) => self@.boundaries.contains_key(lo) && self@.boundaries[lo] == found,
                None => !self@.boundaries.contains_key(lo),
            },
    {
        broadcast use vstd::std_specs::hash::group_hash_axioms;

        match self.boundary_map.get(&lo) {
            Some(found) => Some(*found),
            None => None,
        }
    }

    /// The mutability that the variable `name` was declared with.
    fn declared_mutability(&self, name: &String) -> (mutability: Option<Mutability>)
        ensures
            match mutability {
                Some(found) => self@.mutability.contains_key(name@) && self@.mutability[name@]
                    == found,
                None => !self@.mutability.contains_key(name@),
            },
    {
        match self.mutability_map.get(name) {
            Some(found) => Some(*found),
            None => None,
        }
    }

    /// The type that a call of `fn_expr` returns.
    pub fn return_type_of<'b>(&self, fn_expr: &'b Expr) -> (ty: Option<&'b Ty>)
        requires
            fn_expr.output is Some,
        ensures
            ty == Some(&fn_expr.output->0),
    {
        fn_expr.output.as_ref()
    }

    /// Does a call of `fn_expr` return a reference?
    pub fn is_return_type_ref(&self, fn_expr: &Expr) -> (is_ref: bool)
        requires
            fn_expr.output is Some,
        ensures
            is_ref == fn_expr.output->0.spec_is_ref(),
    {
        if let Some(return_type) = self.return_type_of(fn_expr) {
            return_type.is_ref()
        } else {
            false
        }
    }

    /// Is what a call of `fn_expr` returns copied where it is handed on?
    pub fn is_return_type_copyable(&self, fn_expr: &Expr) -> (is_copyable: bool)
        requires
            semantics::output_readable(*fn_expr),
        ensures
            is_copyable == semantics::copyable(fn_expr.output->0),
    {
        if let Some(return_type) = self.return_type_of(fn_expr) {
            if return_type.has_ref() {
                false
            } else {
                return_type.is_copy
            }
        } else {
            false
        }
    }

    /// Is nothing in the way of tracing what a variable gets from `rhs`?
    pub fn can_match_rhs(rhs: &Expr) -> (readable: bool)
        ensures
            readable == semantics::rhs_readable(*rhs),
    {
        match &rhs.kind {
            ExprKind::Path(_) => path_closes_quotes(rhs),
            ExprKind::Call(callee, _) => {
                if !closes_quotes(callee.text.as_str()) {
                    return false;
                }
                match extract_var_name(callee.text.as_str()) {
                    Some(_) => match &callee.output {
                        Some(output) => output.searchable(),
                        None => false,
                    },
                    None => true,
                }
            },
            ExprKind::AddrOf(_, inner) => path_closes_quotes(inner),
            _ => true,
        }
    }

    /// Traces what `lhs` gets from `rhs`.
    pub fn match_rhs(&mut self, lhs: AccessPoint, rhs: &Expr)
        requires
            semantics::rhs_readable(*rhs),
        ensures
            final(self)@ == semantics::match_rhs_state(old(self)@, lhs@, *rhs),
    {
        let lhs_var = lhs.name.clone();
        let line_num: usize = rhs.span.line;
        match &rhs.kind {
            ExprKind::Path(QPath::Resolved(p)) => {
                let boundary = self.boundary_at(p.span.lo);
                if let Some(name) = extract_var_name(p.segment.as_str()) {
                    if let Some(boundary) = boundary {
                        if let Some(rhs_mut) = self.declared_mutability(&name) {
                            self.take_variable(lhs, name, rhs_mut, boundary, line_num);
                        }
                    }
                }
            },
            ExprKind::Call(fn_expr, _) => {
                if let Some(fn_name) = extract_var_name(fn_expr.text.as_str()) {
                    if !self.is_return_type_ref(fn_expr) {
                        let from = Party::Function(fn_name.clone());
                        let to = Party::Variable(lhs_var);
                        if self.is_return_type_copyable(fn_expr) {
                            self.transfer(Transfer::Copy, from, to);
                        } else {
                            self.transfer(Transfer::Move, from, to);
                        }
                        self.mark(AccessPointUsage::Owner(lhs));
                        self.mark(AccessPointUsage::Function(fn_name));
                    }
                }
            },
            ExprKind::Lit => {
                self.emit(Event::Bind(lhs_var));
                self.mark(AccessPointUsage::Owner(lhs));
            },
            ExprKind::AddrOf(mutability, expr) => {
                if let Some(name) = path_var_name(expr) {
                    let from = Party::Variable(name);
                    let to = Party::Variable(lhs_var.clone());
                    match mutability {
                        Mutability::Not => {
                            self.transfer(Transfer::StaticBorrow, from, to);
                            self.update_lifetime(Reference::Static(lhs_var), line_num);
                            self.mark(AccessPointUsage::StaticRef(lhs));
                        },
                        Mutability::Mut => {
                            self.transfer(Transfer::MutableBorrow, from, to);
                            self.update_lifetime(Reference::Mut(lhs_var), line_num);
                            self.mark(AccessPointUsage::MutRef(lhs));
                        },
                    }
                }
            },
            _ => {},
        }
    }

    /// Traces that `lhs` gets the value of the variable `name`.
    fn take_variable(
        &mut self,
        lhs: AccessPoint,
        name: String,
        mutability: Mutability,
        boundary: PermissionsBoundary,
        line: usize,
    )
        ensures
            final(self)@ == semantics::take_variable(
                old(self)@,
                lhs@,
                name@,
                mutability,
                boundary,
                line,
            ),
    {
        let lhs_var = lhs.name.clone();
        let owner = AccessPointUsage::Owner(AccessPoint { mutability, name: name.clone() });
        let from = Party::Variable(name.clone());
        let to = Party::Variable(lhs_var.clone());
        if boundary.expected.drop {
            self.transfer(Transfer::Move, from, to);
            if self.access_points.contains_key(&owner) {
                self.mark(AccessPointUsage::Owner(lhs));
            } else {
                self.mark(AccessPointUsage::MutRef(lhs));
                self.update_lifetime(Reference::Mut(name), line);
                self.update_lifetime(Reference::Mut(lhs_var), line);
            }
        } else {
            self.transfer(Transfer::Copy, from, to);
            if self.access_points.contains_key(&owner) {
                self.mark(AccessPointUsage::Owner(lhs));
            } else {
                self.mark(AccessPointUsage::StaticRef(lhs));
                self.update_lifetime(Reference::Static(name), line);
                self.update_lifetime(Reference::Static(lhs_var), line);
            }
        }
    }

    /// Traces the parameter `param`.
    pub fn visit_param(&mut self, param: &Param)
        ensures
            final(self)@ == semantics::param_state(old(self)@, *param),
    {
        let line_num: usize = param.span.line;
        match &param.pat {
            Pat::Binding { mutability, name } => {
                let point = AccessPoint { mutability: *mutability, name: name.clone() };
                if param.ty.is_ref() {
                    self.emit(Event::InitRefParam(name.clone()));
                    if let Some(mutref) = param.ty.ref_mutability {
                        match mutref {
                            Mutability::Not => {
                                self.update_lifetime(Reference::Static(name.clone()), line_num);
                                self.mark(AccessPointUsage::StaticRef(point));
                            },
                            Mutability::Mut => {
                                self.update_lifetime(Reference::Mut(name.clone()), line_num);
                                self.mark(AccessPointUsage::MutRef(point));
                            },
                        }
                    }
                } else {
                    self.emit(Event::InitOwnerParam(name.clone()));
                    self.mark(AccessPointUsage::Owner(point));
                }
            },
            _ => {},
        }
    }

    /// The trace as a run that goes on where `ok`.
    pub open spec fn run(self, ok: bool) -> Run {
        Run { state: self@, ok }
    }

    /// Traces that `arg` is an argument of a call, on `line`, of what goes by the name `fn_name`.
    /// `false` where the trace gets stuck.
    fn try_visit_arg(&mut self, fn_name: &Option<String>, line: usize, arg: &Expr) -> (ok: bool)
        ensures
            final(self).run(ok) == semantics::arg_run(
                old(self)@.go(),
                name_view(*fn_name),
                line,
                *arg,
            ),
    {
        match &arg.kind {
            ExprKind::Path(QPath::Resolved(p)) => {
                if let Some(boundary) = self.boundary_at(p.span.lo) {
                    if !closes_quotes(p.segment.as_str()) {
                        return false;
                    }
                    if let Some(name) = extract_var_name(p.segment.as_str()) {
                        if let Some(fn_name) = fn_name {
                            self.pass_variable(name, fn_name.clone(), boundary, line);
                        }
                    }
                }
            },
            ExprKind::AddrOf(mutability, inner) => {
                if let Some(fn_name) = fn_name {
                    if !path_closes_quotes(inner) {
                        return false;
                    }
                    if let Some(name) = path_var_name(inner) {
                        self.pass_borrow(name, fn_name.clone(), *mutability, line);
                    }
                }
            },
            _ => {},
        }
        true
    }

    /// Traces that the variable `name` is an argument of a call of `fn_name`.
    fn pass_variable(
        &mut self,
        name: String,
        fn_name: String,
        boundary: PermissionsBoundary,
        line: usize,
    )
        ensures
            final(self)@ == semantics::pass_variable(
                old(self)@,
                name@,
                fn_name@,
                boundary,
                line,
            ),
    {
        let expected = boundary.expected;
        let from = Party::Variable(name.clone());
        let to = Party::Function(fn_name.clone());
        if expected.drop {
            self.transfer(Transfer::Move, from, to);
        } else if expected.write {
            self.transfer(Transfer::PassByMutableReference, from, to);
            self.update_lifetime(Reference::Mut(name), line);
        } else if expected.read {
            self.transfer(Transfer::PassByStaticReference, from, to);
            self.update_lifetime(Reference::Static(name), line);
        }
        self.mark(AccessPointUsage::Function(fn_name));
    }

    /// Traces that a borrow of the variable `name` is an argument of a call of `fn_name`.
    fn pass_borrow(&mut self, name: String, fn_name: String, mutability: Mutability, line: usize)
        ensures
            final(self)@ == semantics::pass_borrow(
                old(self)@,
                name@,
                fn_name@,
                mutability,
                line,
            ),
    {
        let mut called = fn_name;
        if contains(called.as_str(), "{") {
            called = "println".to_owned();
            let mut_reference = Reference::Mut(name.clone());
            let sta_reference = Reference::Static(name.clone());
            if self.lifetime_map.contains_key(&mut_reference) {
                self.update_lifetime(mut_reference, line);
            } else if self.lifetime_map.contains_key(&sta_reference) {
                self.update_lifetime(sta_reference, line);
            }
        }
        let from = Party::Variable(name);
        let to = Party::Function(called.clone());
        match mutability {
            Mutability::Not => self.transfer(Transfer::PassByStaticReference, from, to),
            Mutability::Mut => self.transfer(Transfer::PassByMutableReference, from, to),
        }
        self.mark(AccessPointUsage::Function(called));
    }

    /// Traces the arguments `args` of a call. `false` where the trace gets stuck.
    fn try_visit_args(&mut self, fn_name: &Option<String>, line: usize, args: &Vec<Expr>) -> (ok:
        bool)
        ensures
            final(self).run(ok) == semantics::args_run(
                old(self)@.go(),
                name_view(*fn_name),
                line,
                args@,
                args@.len(),
            ),
    {
        let ghost start = self@.go();
        let ghost function = name_view(*fn_name);
        let mut i: usize = 0;
        while i < args.len()
            invariant
                i <= args@.len(),
                start == old(self)@.go(),
                function == name_view(*fn_name),
                self.run(true) == semantics::args_run(start, function, line, args@, i as nat),
            decreases args@.len() - i,
        {
            if !self.try_visit_arg(fn_name, line, &args[i]) {
                proof {
                    semantics::lemma_args_stuck(
                        start,
                        function,
                        line,
                        args@,
                        (i + 1) as nat,
                        args@.len(),
                    );
                }
                return false;
            }
            i += 1;
        }
        true
    }

    /// Traces `exprs`, one after the other. `false` where the trace gets stuck.
    fn try_visit_exprs(&mut self, exprs: &Vec<Expr>) -> (ok: bool)
        ensures
            final(self).run(ok) == semantics::exprs_run(old(self)@.go(), exprs@, exprs@.len()),
        decreases exprs,
    {
        let ghost start = self@.go();
        let mut i: usize = 0;
        while i < exprs.len()
            invariant
                i <= exprs@.len(),
                start == old(self)@.go(),
                self.run(true) == semantics::exprs_run(start, exprs@, i as nat),
            decreases exprs@.len() - i,
        {
            if !self.try_visit_expr(&exprs[i]) {
                proof {
                    semantics::lemma_exprs_stuck(start, exprs@, (i + 1) as nat, exprs@.len());
                }
                return false;
            }
            i += 1;
        }
        true
    }

    /// Traces `nodes`, one after the other. `false` where the trace gets stuck.
    fn try_visit_nodes(&mut self, nodes: &Vec<Node>) -> (ok: bool)
        ensures
            final(self).run(ok) == semantics::nodes_run(old(self)@.go(), nodes@, nodes@.len()),
        decreases nodes,
    {
        let ghost start = self@.go();
        let mut i: usize = 0;
        while i < nodes.len()
            invariant
                i <= nodes@.len(),
                start == old(self)@.go(),
                self.run(true) == semantics::nodes_run(start, nodes@, i as nat),
            decreases nodes@.len() - i,
        {
            let ok = match &nodes[i] {
                Node::Expr(expr) => self.try_visit_expr(expr),
                Node::Block(block) => self.try_visit_block(block),
            };
            assert(self.run(ok) == semantics::nodes_run(start, nodes@, (i + 1) as nat)) by {
                assert(self.run(ok) == semantics::node_run(
                    semantics::nodes_run(start, nodes@, i as nat),
                    nodes@[i as int],
                ));
            }
            if !ok {
                proof {
                    semantics::lemma_nodes_stuck(start, nodes@, (i + 1) as nat, nodes@.len());
                }
                return false;
            }
            i += 1;
        }
        true
    }

    /// Traces `block`. `false` where the trace gets stuck.
    pub fn try_visit_block(&mut self, block: &Block) -> (ok: bool)
        ensures
            final(self).run(ok) == semantics::block_run(old(self)@.go(), *block),
        decreases block,
    {
        let ghost start = self@.go();
        let mut i: usize = 0;
        while i < block.stmts.len()
            invariant
                i <= block.stmts@.len(),
                start == old(self)@.go(),
                self.run(true) == semantics::stmts_run(start, block.stmts@, i as nat),
            decreases block.stmts@.len() - i,
        {
            if !self.try_visit_stmt(&block.stmts[i]) {
                proof {
                    semantics::lemma_stmts_stuck(
                        start,
                        block.stmts@,
                        (i + 1) as nat,
                        block.stmts@.len(),
                    );
                }
                return false;
            }
            i += 1;
        }
        match &block.expr {
            Some(expr) => self.try_visit_expr(expr),
            None => true,
        }
    }

    /// Traces `statement`. `false` where the trace gets stuck.
    pub fn try_visit_stmt(&mut self, statement: &Stmt) -> (ok: bool)
        ensures
            final(self).run(ok) == semantics::stmt_run(old(self)@.go(), *statement),
        decreases statement,
    {
        match statement {
            Stmt::Local(local) => self.try_visit_local(local),
            Stmt::Item => true,
            Stmt::Expr(expression) => self.try_visit_expr(expression),
            Stmt::Semi(expression) => self.try_visit_expr(expression),
        }
    }

    /// Traces `local`. `false` where the trace gets stuck.
    pub fn try_visit_local(&mut self, local: &Local) -> (ok: bool)
        ensures
            final(self).run(ok) == semantics::local_run(old(self)@.go(), *local),
        decreases local,
    {
        self.emit(Event::Blank);
        self.emit(Event::Statement(local.text.clone()));
        self.emit(Event::StatementLine(local.span.line));
        let ok = match &local.pat {
            Pat::Binding { mutability, name } => {
                self.declare(name.clone(), *mutability);
                match &local.init {
                    Some(expr) => {
                        if !Self::can_match_rhs(expr) {
                            false
                        } else {
                            let lhs = AccessPoint { mutability: *mutability, name: name.clone() };
                            self.match_rhs(lhs, expr);
                            match &expr.kind {
                                ExprKind::Path(_) => true,
                                _ => self.try_visit_expr(expr),
                            }
                        }
                    },
                    None => true,
                }
            },
            Pat::Path { def_path } => {
                self.emit(Event::LhsPath(def_path.clone()));
                true
            },
            Pat::Other => {
                self.emit(Event::LhsNotListed);
                true
            },
        };
        if !ok {
            proof {
                if local.els is Some {
                    semantics::lemma_block_stuck(self.run(false), local.els->0);
                }
            }
            return false;
        }
        match &local.els {
            Some(els) => self.try_visit_block(els),
            None => true,
        }
    }

    /// Declares the variable `name`.
    fn declare(&mut self, name: String, mutability: Mutability)
        ensures
            final(self)@ == old(self)@.declare(name@, mutability),
    {
        self.mutability_map.insert(name, mutability);
        assert(self@ =~= old(self)@.declare(name@, mutability));
    }

    /// Traces `expr`. `false` where the trace gets stuck.
    pub fn try_visit_expr(&mut self, expr: &Expr) -> (ok: bool)
        ensures
            final(self).run(ok) == semantics::expr_run(old(self)@.go(), *expr),
        decreases expr,
    {
        match &expr.kind {
            ExprKind::Call(fn_expr, args) => {
                let line_num: usize = expr.span.line;
                self.emit(Event::Blank);
                self.emit(Event::FunctionCall(expr.text.clone()));
                self.emit(Event::OnLine(line_num));
                if !closes_quotes(fn_expr.text.as_str()) {
                    return false;
                }
                let fn_name = extract_var_name(fn_expr.text.as_str());
                if names_print(&fn_name) {
                    if args.len() == 0 {
                        return false;
                    }
                    match &args[0].kind {
                        ExprKind::Call(_, format_args) => {
                            if !self.try_visit_exprs(format_args) {
                                proof {
                                    semantics::lemma_args_stuck(
                                        self.run(false),
                                        name_view(fn_name),
                                        line_num,
                                        args@,
                                        0,
                                        args@.len(),
                                    );
                                }
                                return false;
                            }
                        },
                        _ => {},
                    }
                }
                self.try_visit_args(&fn_name, line_num, args)
            },
            ExprKind::MethodCall { receiver, args, span } => {
                if span.from_expansion || !receiver.is_place {
                    if !self.try_visit_expr(receiver) {
                        proof {
                            semantics::lemma_exprs_stuck(self.run(false), args@, 0, args@.len());
                        }
                        return false;
                    }
                }
                self.try_visit_exprs(args)
            },
            ExprKind::Binary(lhs, rhs) => {
                if !self.try_visit_expr(lhs) {
                    proof {
                        semantics::lemma_expr_stuck(self.run(false), **rhs);
                    }
                    return false;
                }
                self.try_visit_expr(rhs)
            },
            ExprKind::Lit => true,
            ExprKind::AddrOf(_, inner) => {
                if inner.is_syntactic_place && !inner.span.from_expansion {
                    true
                } else {
                    self.try_visit_expr(inner)
                }
            },
            ExprKind::Assign(lhs, rhs) => {
                self.emit(Event::Blank);
                self.emit(Event::AssignExpression(expr.text.clone()));
                self.emit(Event::OnLine(expr.span.line));
                if !self.try_assign(lhs, rhs) {
                    proof {
                        semantics::lemma_expr_stuck(self.run(false), **lhs);
                        semantics::lemma_expr_stuck(self.run(false), **rhs);
                    }
                    return false;
                }
                if !self.try_visit_expr(lhs) {
                    proof {
                        semantics::lemma_expr_stuck(self.run(false), **rhs);
                    }
                    return false;
                }
                match &rhs.kind {
                    ExprKind::Path(_) => true,
                    _ => self.try_visit_expr(rhs),
                }
            },
            ExprKind::Block(block) => self.try_visit_block(block),
            ExprKind::AssignOp(lhs, _) => self.try_visit_expr(lhs),
            ExprKind::Unary(op, inner) => {
                if *op == UnOp::Deref && inner.is_syntactic_place && !inner.span.from_expansion {
                    true
                } else {
                    self.try_visit_expr(inner)
                }
            },
            ExprKind::Path(QPath::Resolved(path)) => {
                if path.is_local && !path.span.from_expansion {
                    self.try_use_local(expr, path.span.lo)
                } else {
                    true
                }
            },
            ExprKind::Path(QPath::Other) => true,
            ExprKind::Other(nodes) => self.try_visit_nodes(nodes),
        }
    }

    /// Traces what the variable gets that `lhs = rhs` sets. `false` where the trace gets stuck.
    fn try_assign(&mut self, lhs: &Expr, rhs: &Expr) -> (ok: bool)
        ensures
            final(self).run(ok) == semantics::assign_run(old(self)@, *lhs, *rhs),
    {
        if !path_closes_quotes(lhs) {
            return false;
        }
        let lhs_var = match path_var_name(lhs) {
            Some(name) => name,
            None => String::new(),
        };
        if let Some(mutability) = self.declared_mutability(&lhs_var) {
            if !Self::can_match_rhs(rhs) {
                return false;
            }
            self.match_rhs(AccessPoint { mutability, name: lhs_var }, rhs);
        }
        true
    }

    /// Traces that `expr` is a local variable, used at position `lo`. `false` where the trace gets
    /// stuck.
    fn try_use_local(&mut self, expr: &Expr, lo: u32) -> (ok: bool)
        ensures
            final(self).run(ok) == semantics::local_use_run(old(self)@, *expr, lo),
    {
        if let Some(boundary) = self.boundary_at(lo) {
            if boundary.expected.drop {
                if !closes_quotes(expr.text.as_str()) {
                    return false;
                }
                if let Some(name) = extract_var_name(expr.text.as_str()) {
                    self.emit(Event::Blank);
                    self.emit(Event::OnLine(expr.span.line));
                    self.transfer(Transfer::Move, Party::Variable(name), Party::Nowhere);
                }
            }
        }
        true
    }

    /// Traces `body`: its parameters, then its value. `false` where the trace gets stuck.
    pub fn try_visit_body(&mut self, body: &Body) -> (ok: bool)
        ensures
            final(self).run(ok) == semantics::body_run(old(self)@.go(), *body),
    {
        let mut i: usize = 0;
        while i < body.params.len()
            invariant
                i <= body.params@.len(),
                self@ == semantics::params_state(old(self)@, body.params@, i as nat),
            decreases body.params@.len() - i,
        {
            self.visit_param(&body.params[i]);
            i += 1;
        }
        self.try_visit_expr(&body.value)
    }

    /// Traces `expr`.
    pub fn visit_expr(&mut self, expr: &Expr)
        requires
            semantics::expr_run(old(self)@.go(), *expr).ok,
        ensures
            final(self)@ == semantics::expr_run(old(self)@.go(), *expr).state,
    {
        self.try_visit_expr(expr);
    }

    /// Traces `block`.
    pub fn visit_block(&mut self, block: &Block)
        requires
            semantics::block_run(old(self)@.go(), *block).ok,
        ensures
            final(self)@ == semantics::block_run(old(self)@.go(), *block).state,
    {
        self.try_visit_block(block);
    }

    /// Traces `statement`.
    pub fn visit_stmt(&mut self, statement: &Stmt)
        requires
            semantics::stmt_run(old(self)@.go(), *statement).ok,
        ensures
            final(self)@ == semantics::stmt_run(old(self)@.go(), *statement).state,
    {
        self.try_visit_stmt(statement);
    }

    /// Traces `local`.
    pub fn visit_local(&mut self, local: &Local)
        requires
            semantics::local_run(old(self)@.go(), *local).ok,
        ensures
            final(self)@ == semantics::local_run(old(self)@.go(), *local).state,
    {
        self.try_visit_local(local);
    }

    /// Traces `body`: its parameters, then its value.
    pub fn visit_body(&mut self, body: &Body)
        requires
            semantics::body_run(old(self)@.go(), *body).ok,
        ensures
            final(self)@ == semantics::body_run(old(self)@.go(), *body).state,
    {
        self.try_visit_body(body);
    }
}

/// The view of a name that may be missing.
pub open spec fn name_view(name: Option<String>) -> Option<Seq<char>> {
    match name {
        Some(name) => Some(name@),
        None => None,
    }
}

/// Is `fn_name` the function behind the printing macros?
fn names_print(fn_name: &Option<String>) -> (prints: bool)
    ensures
        prints == semantics::is_print(name_view(*fn_name)),
{
    match fn_name {
        Some(fn_name) => contains(fn_name.as_str(), "crate::io::_print"),
        None => false,
    }
}

/// Does the text of the first segment close its quotes, where `expr` is a resolved path?
fn path_closes_quotes(expr: &Expr) -> (closes: bool)
    ensures
        closes == semantics::path_readable(*expr),
{
    match &expr.kind {
        ExprKind::Path(QPath::Resolved(path)) => closes_quotes(path.segment.as_str()),
        _ => true,
    }
}

/// The name of the first segment, where `expr` is a resolved path that has one.
fn path_var_name(expr: &Expr) -> (name: Option<String>)
    requires
        semantics::path_readable(*expr),
    ensures
        match name {
            Some(found) => semantics::path_name(*expr) == Some(found@),
            None => semantics::path_name(*expr) is None,
        },
{
    match &expr.kind {
        ExprKind::Path(QPath::Resolved(path)) => extract_var_name(path.segment.as_str()),
        _ => None,
    }
}

} // verus!
