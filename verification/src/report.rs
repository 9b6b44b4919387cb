//! The summary of a trace: what took part, what goes out of scope, and when references die.

use crate::hir::Mutability;
use crate::points::{
    AccessPoint, AccessPointUsage, AccessPointView, Reference, ReferenceView, UsageView,
};
use crate::text;
use crate::text::decimal_string;
use crate::visitor::ExprVisitor;
use vstd::prelude::*;

verus! {

/// The lines for `keys`, in order: for each the one that `line` gives it, if any.
pub open spec fn listing<K>(keys: Seq<K>, line: spec_fn(K) -> Option<Seq<char>>) -> Seq<Seq<char>>
    decreases keys.len(),
{
    if keys.len() == 0 {
        Seq::empty()
    } else {
        match line(keys.last()) {
            Some(text) => listing(keys.drop_last(), line).push(text),
            None => listing(keys.drop_last(), line),
        }
    }
}

/// The views of `lines`.
pub open spec fn lines_view(lines: Seq<String>) -> Seq<Seq<char>> {
    Seq::new(lines.len(), |i: int| lines[i]@)
}

/// The word for a mutability.
pub open spec fn mutability_word(mutability: Mutability) -> Seq<char> {
    match mutability {
        Mutability::Not => "Not"@,
        Mutability::Mut => "Mut"@,
    }
}

/// The definition of a variable that takes part as `role`.
pub open spec fn variable_definition(role: Seq<char>, point: AccessPointView) -> Seq<char> {
    role + mutability_word(point.mutability) + " "@ + point.name + ";"@
}

/// The definition of what takes part.
pub open spec fn definition(usage: UsageView) -> Option<Seq<char>> {
    match usage {
        UsageView::Owner(p) => Some(variable_definition("Owner "@, p)),
        UsageView::StaticRef(p) => Some(variable_definition("StaticRef "@, p)),
        UsageView::MutRef(p) => Some(variable_definition("MutRef "@, p)),
        UsageView::Function(name) => Some("Function "@ + name + "();"@),
        UsageView::Struct(_) => None,
    }
}

/// The variable that takes part as `usage`.
pub open spec fn variable_of(usage: UsageView) -> Option<AccessPointView> {
    match usage {
        UsageView::Owner(p) => Some(p),
        UsageView::StaticRef(p) => Some(p),
        UsageView::MutRef(p) => Some(p),
        _ => None,
    }
}

/// The line for a variable that goes out of scope at the end, where `gone` tells what is known to
/// be out of scope already.
pub open spec fn scope_end(gone: Map<UsageView, bool>, usage: UsageView) -> Option<Seq<char>> {
    match variable_of(usage) {
        Some(p) => if gone[usage] {
            None
        } else {
            Some("GoOutOfScope("@ + p.name + ")"@)
        },
        None => None,
    }
}

/// The line for a reference that dies on `line`.
pub open spec fn death(reference: ReferenceView, line: usize) -> Seq<char> {
    match reference {
        ReferenceView::Mut(name) => "MutableDie("@ + name + ") at line "@ + text::decimal(
            line as nat,
        ),
        ReferenceView::Static(name) => "StaticDie("@ + name + ") at line "@ + text::decimal(
            line as nat,
        ),
    }
}

/// The line that opens the definitions.
pub open spec fn definitions_begin() -> Seq<char> {
    "/*--- BEGIN Variable Definitions ---"@
}

/// The line that closes the definitions.
pub open spec fn definitions_end() -> Seq<char> {
    "--- END Variable Definitions ---*/"@
}

/// The definition of a variable that takes part as `role`.
fn define_variable(role: &str, point: &AccessPoint) -> (line: String)
    ensures
        line@ == variable_definition(role@, point@),
{
    let mut line = role.to_owned();
    match point.mutability {
        Mutability::Not => line.append("Not"),
        Mutability::Mut => line.append("Mut"),
    }
    line.append(" ");
    line.append(point.name.as_str());
    line.append(";");
    line
}

/// The definition of what takes part.
fn define(usage: &AccessPointUsage) -> (line: Option<String>)
    ensures
        match line {
            Some(line) => definition(usage@) == Some(line@),
            None => definition(usage@) is None,
        },
{
    match usage {
        AccessPointUsage::Owner(p) => Some(define_variable("Owner ", p)),
        AccessPointUsage::StaticRef(p) => Some(define_variable("StaticRef ", p)),
        AccessPointUsage::MutRef(p) => Some(define_variable("MutRef ", p)),
        AccessPointUsage::Function(name) => {
            let mut line = "Function ".to_owned();
            line.append(name.as_str());
            line.append("();");
            Some(line)
        },
        AccessPointUsage::Struct(_) => None,
    }
}

impl ExprVisitor {
    /// The definitions of all that takes part, between an opening and a closing line, each on a
    /// line of its own.
    pub fn print_definitions(&self) -> (lines: Vec<String>)
        ensures
            lines_view(lines@) == seq![""@, definitions_begin()] + listing(
                self.access_points.order(),
                |usage: UsageView| definition(usage),
            ) + seq![definitions_end()],
            self.access_points.order().no_duplicates(),
            self.access_points.order().to_set() == self@.access_points.dom(),
    {
        let ghost order = self.access_points.order();
        let ghost line = |usage: UsageView| definition(usage);
        let mut lines: Vec<String> = Vec::new();
        lines.push("".to_owned());
        lines.push("/*--- BEGIN Variable Definitions ---".to_owned());
        let len: usize = self.access_points.len();
        assert(order.take(0) =~= Seq::<UsageView>::empty());
        assert(lines_view(lines@) =~= seq![""@, definitions_begin()] + listing(
            order.take(0),
            line,
        ));
        let mut i: usize = 0;
        while i < len
            invariant
                i <= len,
                order == self.access_points.order(),
                len == order.len(),
                line == (|usage: UsageView| definition(usage)),
                lines_view(lines@) == seq![""@, definitions_begin()] + listing(
                    order.take(i as int),
                    line,
                ),
            decreases len - i,
        {
            let ghost before = lines@;
            let (point, _) = self.access_points.entry(i);
            proof {
                assert(order.take(i + 1).drop_last() =~= order.take(i as int));
                assert(order.take(i + 1).last() == point@);
            }
            if let Some(text) = define(point) {
                lines.push(text);
                assert(lines_view(lines@) =~= lines_view(before).push(text@));
            }
            assert(lines_view(lines@) =~= seq![""@, definitions_begin()] + listing(
                order.take(i + 1),
                line,
            ));
            i += 1;
        }
        assert(order.take(len as int) =~= order);
        let ghost before = lines@;
        lines.push("--- END Variable Definitions ---*/".to_owned());
        assert(lines_view(lines@) =~= lines_view(before) + seq![definitions_end()]);
        lines
    }

    /// The variables that go out of scope at the end, each on a line of its own, behind a blank
    /// line.
    pub fn print_out_of_scope(&self) -> (lines: Vec<String>)
        ensures
            lines_view(lines@) == seq![""@] + listing(
                self.access_points.order(),
                |usage: UsageView| scope_end(self@.access_points, usage),
            ),
            self.access_points.order().no_duplicates(),
            self.access_points.order().to_set() == self@.access_points.dom(),
    {
        let ghost order = self.access_points.order();
        let ghost line = |usage: UsageView| scope_end(self@.access_points, usage);
        let mut lines: Vec<String> = Vec::new();
        lines.push("".to_owned());
        let len: usize = self.access_points.len();
        assert(order.take(0) =~= Seq::<UsageView>::empty());
        assert(lines_view(lines@) =~= seq![""@] + listing(order.take(0), line));
        let mut i: usize = 0;
        while i < len
            invariant
                i <= len,
                order == self.access_points.order(),
                len == order.len(),
                line == (|usage: UsageView| scope_end(self@.access_points, usage)),
                lines_view(lines@) == seq![""@] + listing(order.take(i as int), line),
            decreases len - i,
        {
            let ghost before = lines@;
            let (point, gos) = self.access_points.entry(i);
            proof {
                assert(order.take(i + 1).drop_last() =~= order.take(i as int));
                assert(order.take(i + 1).last() == point@);
            }
            let name = match point {
                AccessPointUsage::Owner(p) => Some(p.name.as_str()),
                AccessPointUsage::StaticRef(p) => Some(p.name.as_str()),
                AccessPointUsage::MutRef(p) => Some(p.name.as_str()),
                _ => None,
            };
            if !*gos {
                if let Some(name) = name {
                    let mut text = "GoOutOfScope(".to_owned();
                    text.append(name);
                    text.append(")");
                    lines.push(text);
                    assert(lines_view(lines@) =~= lines_view(before).push(text@));
                }
            }
            assert(lines_view(lines@) =~= seq![""@] + listing(order.take(i + 1), line));
            i += 1;
        }
        assert(order.take(len as int) =~= order);
        lines
    }

    /// The references, each with the line on which it dies, behind a blank line.
    pub fn print_lifetimes(&self) -> (lines: Vec<String>)
        ensures
            lines_view(lines@) == seq![""@] + listing(
                self.lifetime_map.order(),
                |reference: ReferenceView|
                    Some(death(reference, self@.lifetimes[reference])),
            ),
            self.lifetime_map.order().no_duplicates(),
            self.lifetime_map.order().to_set() == self@.lifetimes.dom(),
    {
        let ghost order = self.lifetime_map.order();
        let ghost line = |reference: ReferenceView|
            Some(death(reference, self@.lifetimes[reference]));
        let mut lines: Vec<String> = Vec::new();
        lines.push("".to_owned());
        let len: usize = self.lifetime_map.len();
        assert(order.take(0) =~= Seq::<ReferenceView>::empty());
        assert(lines_view(lines@) =~= seq![""@] + listing(order.take(0), line));
        let mut i: usize = 0;
        while i < len
            invariant
                i <= len,
                order == self.lifetime_map.order(),
                len == order.len(),
                line == (|reference: ReferenceView|
                    Some(death(reference, self@.lifetimes[reference]))),
                lines_view(lines@) == seq![""@] + listing(order.take(i as int), line),
            decreases len - i,
        {
            let ghost before = lines@;
            let (reference, line_num) = self.lifetime_map.entry(i);
            proof {
                assert(order.take(i + 1).drop_last() =~= order.take(i as int));
                assert(order.take(i + 1).last() == reference@);
            }
            let mut text = match reference {
                Reference::Mut(_) => "MutableDie(".to_owned(),
                Reference::Static(_) => "StaticDie(".to_owned(),
            };
            match reference {
                Reference::Mut(name) => text.append(name.as_str()),
                Reference::Static(name) => text.append(name.as_str()),
            }
            text.append(") at line ");
            text.append(decimal_string(*line_num).as_str());
            assert(text@ =~= death(reference@, *line_num));
            lines.push(text);
            assert(lines_view(lines@) =~= lines_view(before).push(text@));
            assert(lines_view(lines@) =~= seq![""@] + listing(order.take(i + 1), line));
            i += 1;
        }
        assert(order.take(len as int) =~= order);
        lines
    }
}

/// A line is listed if and only if one of the keys has it.
pub proof fn law_listing_has_each_line<K>(
    keys: Seq<K>,
    line: spec_fn(K) -> Option<Seq<char>>,
    text: Seq<char>,
)
    ensures
        listing(keys, line).contains(text) <==> exists|i: int|
            0 <= i < keys.len() && line(#[trigger] keys[i]) == Some(text),
    decreases keys.len(),
{
    let rest = keys.drop_last();
    if keys.len() > 0 {
        let last = keys.len() - 1;
        law_listing_has_each_line(rest, line, text);
        if listing(keys, line).contains(text) {
            let at = listing(keys, line).index_of(text);
            if at < listing(rest, line).len() {
                assert(listing(rest, line)[at] == text);
                let i = choose|i: int|
                    0 <= i < rest.len() && line(#[trigger] rest[i]) == Some(text);
                assert(keys[i] == rest[i]);
            } else {
                assert(line(keys[last]) == Some(text));
            }
        }
        if exists|i: int| 0 <= i < keys.len() && line(#[trigger] keys[i]) == Some(text) {
            let i = choose|i: int| 0 <= i < keys.len() && line(#[trigger] keys[i]) == Some(text);
            if i < last {
                assert(rest[i] == keys[i]);
                let at = listing(rest, line).index_of(text);
                assert(listing(keys, line)[at] == text);
            } else {
                assert(listing(keys, line).last() == text);
            }
        }
    }
}

proof fn lemma_listing_concat<K>(
    a: Seq<K>,
    b: Seq<K>,
    line: spec_fn(K) -> Option<Seq<char>>,
)
    ensures
        listing(a + b, line) == listing(a, line) + listing(b, line),
    decreases b.len(),
{
    if b.len() == 0 {
        assert(a + b =~= a);
        assert(listing(a, line) + listing(b, line) =~= listing(a, line));
    } else {
        assert((a + b).drop_last() =~= a + b.drop_last());
        lemma_listing_concat(a, b.drop_last(), line);
        assert(listing(a + b, line) =~= listing(a, line) + listing(b, line));
    }
}

/// Whichever way the same keys are walked, each once, the same lines are listed, each as often.
pub proof fn law_listing_in_any_order<K>(
    a: Seq<K>,
    b: Seq<K>,
    line: spec_fn(K) -> Option<Seq<char>>,
)
    requires
        a.no_duplicates(),
        b.no_duplicates(),
        a.to_set() == b.to_set(),
    ensures
        listing(a, line).to_multiset() == listing(b, line).to_multiset(),
    decreases a.len(),
{
    broadcast use vstd::seq_lib::group_to_multiset_ensures;

    if a.len() == 0 {
        if b.len() > 0 {
            assert(b.to_set().contains(b[0]));
            assert(a.contains(b[0]));
        }
        assert(a =~= b);
    } else {
        let key = a.last();
        let rest = a.drop_last();
        assert(a.to_set().contains(key));
        assert(b.contains(key));
        let i = b.index_of(key);
        let front = b.take(i);
        let back = b.skip(i + 1);
        let others = front + back;
        assert(b =~= front + seq![key] + back);
        assert forall|k: K| rest.contains(k) <==> others.contains(k) by {
            if rest.contains(k) {
                let j = rest.index_of(k);
                assert(a[j] == k);
                assert(a.to_set().contains(k));
                assert(b.contains(k));
                let m = b.index_of(k);
                assert(m != i);
                if m < i {
                    assert(others[m] == k);
                } else {
                    assert(others[m - 1] == k);
                }
            }
            if others.contains(k) {
                let m = others.index_of(k);
                let n = if m < i { m } else { m + 1 };
                assert(b[n] == k);
                assert(b.to_set().contains(k));
                assert(a.contains(k));
                let j = a.index_of(k);
                assert(k != key);
                assert(rest[j] == k);
            }
        }
        assert(rest.to_set() =~= others.to_set());
        assert(rest.no_duplicates());
        assert(others.no_duplicates());
        law_listing_in_any_order(rest, others, line);
        lemma_listing_concat(front, back, line);
        lemma_listing_concat(front + seq![key], back, line);
        lemma_listing_concat(front, seq![key], line);
        let one = listing(seq![key], line);
        assert(a =~= rest + seq![key]);
        lemma_listing_concat(rest, seq![key], line);
        let f = listing(front, line);
        let g = listing(back, line);
        vstd::seq_lib::lemma_multiset_commutative(listing(rest, line), one);
        vstd::seq_lib::lemma_multiset_commutative(f, one);
        vstd::seq_lib::lemma_multiset_commutative(f + one, g);
        vstd::seq_lib::lemma_multiset_commutative(f, g);
        assert(listing(a, line).to_multiset() =~= listing(b, line).to_multiset());
    }
}

/// Where nothing is known to be out of scope, every variable that takes part is listed as going
/// out of scope.
pub proof fn law_variables_go_out_of_scope(
    gone: Map<UsageView, bool>,
    order: Seq<UsageView>,
    usage: UsageView,
)
    requires
        order.to_set() == gone.dom(),
        gone.contains_key(usage),
        !gone[usage],
        variable_of(usage) is Some,
    ensures
        listing(order, |usage: UsageView| scope_end(gone, usage)).contains(
            "GoOutOfScope("@ + variable_of(usage)->0.name + ")"@,
        ),
{
    let line = |usage: UsageView| scope_end(gone, usage);
    let text = "GoOutOfScope("@ + variable_of(usage)->0.name + ")"@;
    assert(order.to_set().contains(usage));
    let i = order.index_of(usage);
    assert(order[i] == usage);
    assert(line(order[i]) == Some(text));
    law_listing_has_each_line(order, line, text);
}

/// Every reference that has a line on which it dies is listed with it.
pub proof fn law_references_are_listed(
    lifetimes: Map<ReferenceView, usize>,
    order: Seq<ReferenceView>,
    reference: ReferenceView,
)
    requires
        order.to_set() == lifetimes.dom(),
        lifetimes.contains_key(reference),
    ensures
        listing(order, |reference: ReferenceView| Some(death(reference, lifetimes[reference])))
            .contains(death(reference, lifetimes[reference])),
{
    let line = |reference: ReferenceView| Some(death(reference, lifetimes[reference]));
    assert(order.to_set().contains(reference));
    let i = order.index_of(reference);
    assert(order[i] == reference);
    assert(line(order[i]) == Some(death(reference, lifetimes[reference])));
    law_listing_has_each_line(order, line, death(reference, lifetimes[reference]));
}

} // verus!
