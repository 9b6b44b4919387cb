//! The tree of a function body, with what the trace reads of it.
//!
//! A node carries its text: how the compiler describes it, with the source between backquotes.

use vstd::prelude::*;

verus! {

/// Is a place mutable?
#[derive(Clone, Copy, Debug, PartialEq, Eq, Hash, Structural)]
pub enum Mutability {
    Not,
    Mut,
}

/// What a use of a place is expected to be allowed to do with it.
#[derive(Clone, Copy, Debug, PartialEq, Eq, Structural)]
pub struct Permissions {
    pub read: bool,
    pub write: bool,
    pub drop: bool,
}

/// A use of a place, with the permissions that it expects.
#[derive(Clone, Copy, Debug, PartialEq, Eq, Structural)]
pub struct PermissionsBoundary {
    pub expected: Permissions,
}

/// Where a node stands in the source.
#[derive(Clone, Copy, Debug, PartialEq, Eq, Structural)]
pub struct Span {
    /// The position of its first byte.
    pub lo: u32,
    /// The line of that byte.
    pub line: usize,
    /// Did a macro expansion write it?
    pub from_expansion: bool,
}

/// What a walk of a type meets.
#[derive(Clone, Copy, Debug, PartialEq, Eq, Structural)]
pub enum GenericArg {
    Type { is_ref: bool },
    Lifetime,
    Const,
}

/// A type.
#[derive(Debug)]
pub struct Ty {
    /// Of a reference type, what it may do with what it refers to; `None` of any other type.
    pub ref_mutability: Option<Mutability>,
    /// What a walk of the type meets after the type itself.
    pub parts: Vec<GenericArg>,
    /// Is the type `Copy`, whatever its lifetimes are?
    pub is_copy: bool,
}

impl Ty {
    /// Is this a reference type?
    pub open spec fn spec_is_ref(&self) -> bool {
        self.ref_mutability is Some
    }

    /// Part `i` is a reference type.
    pub open spec fn part_is_ref(&self, i: int) -> bool {
        &&& 0 <= i < self.parts@.len()
        &&& self.parts@[i] == GenericArg::Type { is_ref: true }
    }

    /// The type is a reference type, or has one as a part.
    pub open spec fn spec_has_ref(&self) -> bool {
        self.spec_is_ref() || exists|i: int| self.part_is_ref(i)
    }

    /// A walk that looks for a reference type, and ends at the first, meets nothing but types.
    pub open spec fn spec_searchable(&self) -> bool {
        forall|i: int|
            0 <= i < self.parts@.len() ==> {
                ||| #[trigger] self.parts@[i] is Type
                ||| self.spec_is_ref()
                ||| exists|j: int| j < i && self.part_is_ref(j)
            }
    }

    /// Is this a reference type?
    #[verifier::when_used_as_spec(spec_is_ref)]
    pub fn is_ref(&self) -> (is_ref: bool)
        ensures
            is_ref == self.spec_is_ref(),
    {
        self.ref_mutability.is_some()
    }

    /// Does a walk that looks for a reference type, and ends at the first, meet nothing but types?
    #[verifier::when_used_as_spec(spec_searchable)]
    pub fn searchable(&self) -> (searchable: bool)
        ensures
            searchable == self.spec_searchable(),
    {
        if self.is_ref() {
            return true;
        }
        let mut i: usize = 0;
        while i < self.parts.len()
            invariant
                i <= self.parts@.len(),
                !self.spec_is_ref(),
                forall|j: int|
                    0 <= j < i ==> #[trigger] self.parts@[j] == (GenericArg::Type {
                        is_ref: false,
                    }),
            decreases self.parts@.len() - i,
        {
            match self.parts[i] {
                GenericArg::Type { is_ref } => {
                    if is_ref {
                        assert(self.part_is_ref(i as int));
                        return true;
                    }
                },
                _ => {
                    assert(!(self.parts@[i as int] is Type));
                    return false;
                },
            }
            i += 1;
        }
        true
    }

    /// Is the type a reference type, or has it one as a part?
    #[verifier::when_used_as_spec(spec_has_ref)]
    pub fn has_ref(&self) -> (found: bool)
        requires
            self.spec_searchable(),
        ensures
            found == self.spec_has_ref(),
    {
        if self.is_ref() {
            return true;
        }
        let mut i: usize = 0;
        while i < self.parts.len()
            invariant
                i <= self.parts@.len(),
                !self.spec_is_ref(),
                forall|j: int| 0 <= j < i ==> !self.part_is_ref(j),
            decreases self.parts@.len() - i,
        {
            if let GenericArg::Type { is_ref } = self.parts[i] {
                if is_ref {
                    assert(self.part_is_ref(i as int));
                    return true;
                }
            }
            i += 1;
        }
        false
    }
}

/// A path to a value.
#[derive(Debug)]
pub struct Path {
    pub span: Span,
    /// The text of its first segment.
    pub segment: String,
    /// Does it lead to a local variable?
    pub is_local: bool,
}

/// A path as an expression writes it.
#[derive(Debug)]
pub enum QPath {
    Resolved(Path),
    Other,
}

/// A unary operator.
#[derive(Clone, Copy, Debug, PartialEq, Eq, Structural)]
pub enum UnOp {
    Deref,
    Not,
    Neg,
}

/// An expression.
#[derive(Debug)]
pub struct Expr {
    pub text: String,
    pub span: Span,
    /// What a call of the expression returns, where the expression has a function's type.
    pub output: Option<Ty>,
    /// Does it denote a place, other than one that a literal makes?
    pub is_place: bool,
    /// Does it denote a place, by its form alone?
    pub is_syntactic_place: bool,
    pub kind: ExprKind,
}

/// The kinds of expressions.
#[derive(Debug)]
pub enum ExprKind {
    Call(Box<Expr>, Vec<Expr>),
    MethodCall { receiver: Box<Expr>, args: Vec<Expr>, span: Span },
    Binary(Box<Expr>, Box<Expr>),
    Lit,
    AddrOf(Mutability, Box<Expr>),
    Assign(Box<Expr>, Box<Expr>),
    Block(Block),
    AssignOp(Box<Expr>, Box<Expr>),
    Unary(UnOp, Box<Expr>),
    Path(QPath),
    /// Any other kind, with the nodes that a walk of it visits next, in order.
    Other(Vec<Node>),
}

/// A node that a walk visits.
#[derive(Debug)]
pub enum Node {
    Expr(Expr),
    Block(Block),
}

/// A block.
#[derive(Debug)]
pub struct Block {
    pub stmts: Vec<Stmt>,
    pub expr: Option<Box<Expr>>,
}

/// A statement.
#[derive(Debug)]
pub enum Stmt {
    Local(Local),
    Item,
    Expr(Expr),
    Semi(Expr),
}

/// A `let` statement.
#[derive(Debug)]
pub struct Local {
    pub text: String,
    pub span: Span,
    pub pat: Pat,
    pub init: Option<Expr>,
    pub els: Option<Block>,
}

/// A pattern.
#[derive(Debug)]
pub enum Pat {
    Binding { mutability: Mutability, name: String },
    /// A resolved path, with the path of its definition.
    Path { def_path: String },
    Other,
}

/// A parameter of a function.
#[derive(Debug)]
pub struct Param {
    pub span: Span,
    pub ty: Ty,
    pub pat: Pat,
}

/// The body of a function.
#[derive(Debug)]
pub struct Body {
    pub params: Vec<Param>,
    pub value: Expr,
}

} // verus!
