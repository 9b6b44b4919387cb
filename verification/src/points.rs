//! What a trace keeps track of: the variables and functions that take part, and the references.

use crate::hir::Mutability;
use crate::table::TableKey;
use vstd::prelude::*;

verus! {

/// A variable.
#[derive(Debug, PartialEq, Eq, Hash)]
pub struct AccessPoint {
    pub mutability: Mutability,
    pub name: String,
}

/// What takes part in a trace, and as what.
#[derive(Debug, PartialEq, Eq, Hash)]
pub enum AccessPointUsage {
    Owner(AccessPoint),
    MutRef(AccessPoint),
    StaticRef(AccessPoint),
    Struct(Vec<AccessPoint>),
    Function(String),
}

/// A variable that holds a reference.
#[derive(Debug, PartialEq, Eq, Hash)]
pub enum Reference {
    Static(String),
    Mut(String),
}

/// The view of an [`AccessPoint`].
pub struct AccessPointView {
    pub mutability: Mutability,
    pub name: Seq<char>,
}

/// The view of an [`AccessPointUsage`].
pub enum UsageView {
    Owner(AccessPointView),
    MutRef(AccessPointView),
    StaticRef(AccessPointView),
    Struct(Seq<AccessPointView>),
    Function(Seq<char>),
}

/// The view of a [`Reference`].
pub enum ReferenceView {
    Static(Seq<char>),
    Mut(Seq<char>),
}

impl View for AccessPoint {
    type V = AccessPointView;

    open spec fn view(&self) -> AccessPointView {
        AccessPointView { mutability: self.mutability, name: self.name@ }
    }
}

impl View for AccessPointUsage {
    type V = UsageView;

    open spec fn view(&self) -> UsageView {
        match *self {
            AccessPointUsage::Owner(p) => UsageView::Owner(p@),
            AccessPointUsage::MutRef(p) => UsageView::MutRef(p@),
            AccessPointUsage::StaticRef(p) => UsageView::StaticRef(p@),
            AccessPointUsage::Struct(ps) => UsageView::Struct(
                Seq::new(ps@.len(), |i: int| ps@[i]@),
            ),
            AccessPointUsage::Function(name) => UsageView::Function(name@),
        }
    }
}

impl View for Reference {
    type V = ReferenceView;

    open spec fn view(&self) -> ReferenceView {
        match *self {
            Reference::Static(name) => ReferenceView::Static(name@),
            Reference::Mut(name) => ReferenceView::Mut(name@),
        }
    }
}

/// Are the two the same variable?
fn same_point(a: &AccessPoint, b: &AccessPoint) -> (same: bool)
    ensures
        same == (a@ == b@),
{
    a.mutability == b.mutability && a.name == b.name
}

/// Are the two the same variables, in the same order?
fn same_points(a: &Vec<AccessPoint>, b: &Vec<AccessPoint>) -> (same: bool)
    ensures
        same == (Seq::new(a@.len(), |i: int| a@[i]@) == Seq::new(b@.len(), |i: int| b@[i]@)),
{
    let ghost left = Seq::new(a@.len(), |i: int| a@[i]@);
    let ghost right = Seq::new(b@.len(), |i: int| b@[i]@);
    if a.len() != b.len() {
        assert(left.len() != right.len());
        return false;
    }
    let mut i: usize = 0;
    while i < a.len()
        invariant
            i <= a@.len(),
            a@.len() == b@.len(),
            left == Seq::new(a@.len(), |i: int| a@[i]@),
            right == Seq::new(b@.len(), |i: int| b@[i]@),
            forall|j: int| 0 <= j < i ==> left[j] == right[j],
        decreases a@.len() - i,
    {
        if !same_point(&a[i], &b[i]) {
            assert(left[i as int] != right[i as int]);
            return false;
        }
        i += 1;
    }
    assert(left =~= right);
    true
}

impl TableKey for AccessPointUsage {
    fn same(&self, other: &Self) -> bool {
        match (self, other) {
            (AccessPointUsage::Owner(a), AccessPointUsage::Owner(b)) => same_point(a, b),
            (AccessPointUsage::MutRef(a), AccessPointUsage::MutRef(b)) => same_point(a, b),
            (AccessPointUsage::StaticRef(a), AccessPointUsage::StaticRef(b)) => same_point(a, b),
            (AccessPointUsage::Struct(a), AccessPointUsage::Struct(b)) => same_points(a, b),
            (AccessPointUsage::Function(a), AccessPointUsage::Function(b)) => *a == *b,
            _ => false,
        }
    }
}

impl TableKey for Reference {
    fn same(&self, other: &Self) -> bool {
        match (self, other) {
            (Reference::Static(a), Reference::Static(b)) => *a == *b,
            (Reference::Mut(a), Reference::Mut(b)) => *a == *b,
            _ => false,
        }
    }
}

} // verus!
