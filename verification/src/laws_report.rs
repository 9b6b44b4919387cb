//! What the summary of a trace says of what was gathered.

use crate::hir::Mutability;
use crate::laws_text;
use crate::points::{AccessPointView, ReferenceView, UsageView};
use crate::report;
use vstd::prelude::*;

verus! {

/// No keys give no lines; one more key adds its line at the end, if it has one.
pub proof fn law_listing_follows_the_keys<K>(
    keys: Seq<K>,
    key: K,
    line: spec_fn(K) -> Option<Seq<char>>,
)
    ensures
        report::listing(Seq::<K>::empty(), line) == Seq::<Seq<char>>::empty(),
        line(key) matches Some(text) ==> report::listing(keys + seq![key], line)
            == report::listing(keys, line) + seq![text],
        line(key) is None ==> report::listing(keys + seq![key], line) == report::listing(
            keys,
            line,
        ),
{
    let more = keys + seq![key];
    assert(more.drop_last() =~= keys);
    assert(more.last() == key);
    if line(key) is Some {
        assert(report::listing(more, line) =~= report::listing(keys, line) + seq![line(key)->0]);
    }
}

/// The lines of a summary are the strings that it holds.
pub proof fn law_lines_are_the_strings(lines: Seq<String>)
    ensures
        report::lines_view(lines).len() == lines.len(),
        forall|i: int|
            0 <= i < lines.len() ==> #[trigger] report::lines_view(lines)[i] == lines[i]@,
{
}

/// The definitions stand between these two lines.
pub proof fn law_definitions_are_enclosed()
    ensures
        report::definitions_begin() == "/*--- BEGIN Variable Definitions ---"@,
        report::definitions_end() == "--- END Variable Definitions ---*/"@,
{
}

/// A variable is defined by what it takes part as, whether it is mutable, and its name.
pub proof fn law_variable_definitions(name: Seq<char>)
    ensures
        ({
            let fixed = AccessPointView { mutability: Mutability::Not, name };
            let mutable = AccessPointView { mutability: Mutability::Mut, name };
            &&& report::definition(UsageView::Owner(fixed)) == Some("Owner Not "@ + name + ";"@)
            &&& report::definition(UsageView::Owner(mutable)) == Some("Owner Mut "@ + name + ";"@)
            &&& report::definition(UsageView::StaticRef(fixed)) == Some(
                "StaticRef Not "@ + name + ";"@,
            )
            &&& report::definition(UsageView::StaticRef(mutable)) == Some(
                "StaticRef Mut "@ + name + ";"@,
            )
            &&& report::definition(UsageView::MutRef(fixed)) == Some("MutRef Not "@ + name + ";"@)
            &&& report::definition(UsageView::MutRef(mutable)) == Some("MutRef Mut "@ + name + ";"@)
        }),
{
    reveal_strlit("Owner ");
    reveal_strlit("StaticRef ");
    reveal_strlit("MutRef ");
    reveal_strlit("Not");
    reveal_strlit("Mut");
    reveal_strlit(" ");
    reveal_strlit("Owner Not ");
    reveal_strlit("Owner Mut ");
    reveal_strlit("StaticRef Not ");
    reveal_strlit("StaticRef Mut ");
    reveal_strlit("MutRef Not ");
    reveal_strlit("MutRef Mut ");
    assert("Owner "@ + "Not"@ + " "@ =~= "Owner Not "@);
    assert("Owner "@ + "Mut"@ + " "@ =~= "Owner Mut "@);
    assert("StaticRef "@ + "Not"@ + " "@ =~= "StaticRef Not "@);
    assert("StaticRef "@ + "Mut"@ + " "@ =~= "StaticRef Mut "@);
    assert("MutRef "@ + "Not"@ + " "@ =~= "MutRef Not "@);
    assert("MutRef "@ + "Mut"@ + " "@ =~= "MutRef Mut "@);
}

/// A function is defined by its name with the brackets of a call; groups of variables are not
/// defined.
pub proof fn law_other_definitions(name: Seq<char>, points: Seq<AccessPointView>)
    ensures
        report::definition(UsageView::Function(name)) == Some("Function "@ + name + "();"@),
        report::definition(UsageView::Struct(points)) is None,
{
}

/// Every owner and every reference that is not known to be out of scope goes out of scope by its
/// name; nothing else does.
pub proof fn law_scope_ends(
    gone: Map<UsageView, bool>,
    point: AccessPointView,
    name: Seq<char>,
    points: Seq<AccessPointView>,
)
    ensures
        forall|usage: UsageView|
            usage == UsageView::Owner(point) || usage == UsageView::StaticRef(point) || usage
                == UsageView::MutRef(point) ==> #[trigger] report::scope_end(gone, usage) == (
            if gone[usage] {
                None
            } else {
                Some("GoOutOfScope("@ + point.name + ")"@)
            }),
        report::scope_end(gone, UsageView::Function(name)) is None,
        report::scope_end(gone, UsageView::Struct(points)) is None,
        report::variable_of(UsageView::Owner(point)) == Some(point),
        report::variable_of(UsageView::StaticRef(point)) == Some(point),
        report::variable_of(UsageView::MutRef(point)) == Some(point),
        report::variable_of(UsageView::Function(name)) is None,
        report::variable_of(UsageView::Struct(points)) is None,
{
}

/// The death of a reference is told by its kind, its name and its last line: what stands behind the
/// words is digits, without a leading zero, that stand for that line.
pub proof fn law_death_tells_the_last_line(name: Seq<char>, line: usize)
    ensures
        ({
            let opening = "MutableDie("@ + name + ") at line "@;
            let digits = report::death(ReferenceView::Mut(name), line).skip(opening.len() as int);
            &&& report::death(ReferenceView::Mut(name), line) == opening + digits
            &&& laws_text::digits_value(digits) == line
            &&& digits.len() > 0
            &&& forall|i: int| 0 <= i < digits.len() ==> '0' <= #[trigger] digits[i] <= '9'
            &&& digits[0] == '0' ==> digits.len() == 1
        }),
        ({
            let opening = "StaticDie("@ + name + ") at line "@;
            let digits = report::death(ReferenceView::Static(name), line).skip(
                opening.len() as int,
            );
            &&& report::death(ReferenceView::Static(name), line) == opening + digits
            &&& laws_text::digits_value(digits) == line
            &&& digits.len() > 0
            &&& forall|i: int| 0 <= i < digits.len() ==> '0' <= #[trigger] digits[i] <= '9'
            &&& digits[0] == '0' ==> digits.len() == 1
        }),
{
    laws_text::law_decimal_reads_back(line as nat);
    let numeral = crate::text::decimal(line as nat);
    let mutable = "MutableDie("@ + name + ") at line "@;
    let fixed = "StaticDie("@ + name + ") at line "@;
    assert(report::death(ReferenceView::Mut(name), line) =~= mutable + numeral);
    assert(report::death(ReferenceView::Static(name), line) =~= fixed + numeral);
    assert((mutable + numeral).skip(mutable.len() as int) =~= numeral);
    assert((fixed + numeral).skip(fixed.len() as int) =~= numeral);
}

/// A reference that dies on different lines is told differently.
pub proof fn law_deaths_tell_lines_apart(reference: ReferenceView, a: usize, b: usize)
    ensures
        report::death(reference, a) == report::death(reference, b) ==> a == b,
{
    match reference {
        ReferenceView::Mut(name) => {
            law_death_tells_the_last_line(name, a);
            law_death_tells_the_last_line(name, b);
        },
        ReferenceView::Static(name) => {
            law_death_tells_the_last_line(name, a);
            law_death_tells_the_last_line(name, b);
        },
    }
}

} // verus!
