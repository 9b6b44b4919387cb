//! What holds of names, numbers and lines of text, said of the characters themselves.

use crate::event::{Event, EventView, Party, PartyView, Transfer};
use crate::text;
use vstd::prelude::*;

verus! {

/// A pattern stands in a text if and only if some end of the text begins with it.
pub proof fn law_substring_begins_an_end(s: Seq<char>, pattern: Seq<char>)
    ensures
        text::has_substring(s, pattern) <==> exists|k: int|
            0 <= k <= s.len() && pattern.is_prefix_of(#[trigger] s.skip(k)),
{
    if text::has_substring(s, pattern) {
        let k = choose|k: int| text::occurs_at(s, pattern, k);
        assert(s.skip(k).subrange(0, pattern.len() as int) =~= s.subrange(k, k + pattern.len()));
        assert(pattern.is_prefix_of(s.skip(k)));
    }
    if exists|k: int| 0 <= k <= s.len() && pattern.is_prefix_of(#[trigger] s.skip(k)) {
        let k = choose|k: int| 0 <= k <= s.len() && pattern.is_prefix_of(#[trigger] s.skip(k));
        assert(s.subrange(k, k + pattern.len()) =~= s.skip(k).subrange(0, pattern.len() as int));
        assert(text::occurs_at(s, pattern, k));
    }
}

/// Whatever stands around a pattern, it is found.
pub proof fn law_substring_is_found(before: Seq<char>, pattern: Seq<char>, after: Seq<char>)
    ensures
        text::has_substring(before + pattern + after, pattern),
{
    let s = before + pattern + after;
    let k = before.len() as int;
    assert(s.subrange(k, k + pattern.len()) =~= pattern);
    assert(text::occurs_at(s, pattern, k));
}

/// A text has an opening brace in it if and only if that character stands at some index.
pub proof fn law_brace_is_a_character(s: Seq<char>)
    ensures
        text::has_substring(s, "{"@) <==> s.contains('{'),
{
    reveal_strlit("{");
    if s.contains('{') {
        let k = s.index_of('{');
        assert(s.subrange(k, k + 1) =~= "{"@);
        assert(text::occurs_at(s, "{"@, k));
    }
    if text::has_substring(s, "{"@) {
        let k = choose|k: int| text::occurs_at(s, "{"@, k);
        assert(s.subrange(k, k + 1)[0] == '{');
        assert(s[k] == '{');
    }
}

/// The backquotes of a text close if and only if none of them is the only one.
pub proof fn law_quotes_close_unless_alone(s: Seq<char>)
    ensures
        text::quotes_close(s) <==> forall|i: int|
            0 <= i < s.len() && #[trigger] s[i] == '`' ==> exists|j: int|
                0 <= j < s.len() && j != i && #[trigger] s[j] == '`',
{
    s.index_of_first_ensures('`');
    s.index_of_last_ensures('`');
    if s.contains('`') {
        let first = s.index_of_first('`')->0;
        let last = s.index_of_last('`')->0;
        assert(s[first] == '`' && s[last] == '`');
        if first < last {
            assert forall|i: int| 0 <= i < s.len() && #[trigger] s[i] == '`' implies exists|j: int|
                0 <= j < s.len() && j != i && #[trigger] s[j] == '`' by {
                if i == first {
                    assert(s[last] == '`' && last != i);
                } else {
                    assert(s[first] == '`' && first != i);
                }
            }
        } else {
            assert forall|j: int| 0 <= j < s.len() && j != first implies #[trigger] s[j] != '`' by {
            }
        }
    }
}

/// A source that calls `String::from` goes by that name, and any other by itself.
pub proof fn law_short_name(source: Seq<char>, before: Seq<char>, after: Seq<char>)
    ensures
        text::short_name(before + "String::from"@ + after) == "String::from"@,
        (forall|k: int| 0 <= k <= source.len() ==> !"String::from"@.is_prefix_of(
            #[trigger] source.skip(k),
        )) ==> text::short_name(source) == source,
{
    law_substring_is_found(before, "String::from"@, after);
    law_substring_begins_an_end(source, "String::from"@);
}

/// The number that a row of decimal digits stands for.
pub open spec fn digits_value(digits: Seq<char>) -> int {
    digits.fold_left(0int, |value: int, c: char| 10 * value + (c as int - '0' as int))
}

/// A number in decimal consists of digits alone, the first of them no zero unless it is the only
/// one, and they stand for the number.
pub proof fn law_decimal_reads_back(n: nat)
    ensures
        digits_value(text::decimal(n)) == n,
        text::decimal(n).len() > 0,
        forall|i: int|
            0 <= i < text::decimal(n).len() ==> '0' <= #[trigger] text::decimal(n)[i] <= '9',
        text::decimal(n)[0] == '0' ==> text::decimal(n).len() == 1,
    decreases n,
{
    let f = |value: int, c: char| 10 * value + (c as int - '0' as int);
    reveal_with_fuel(Seq::fold_left, 3);
    if n < 10 {
        assert(text::decimal(n).drop_last() =~= Seq::<char>::empty());
        assert(text::decimal(n).last() == text::digit(n));
    } else {
        let front = text::decimal(n / 10);
        law_decimal_reads_back(n / 10);
        assert(text::decimal(n).drop_last() =~= front);
        assert(text::decimal(n).last() == text::digit(n % 10));
        assert(text::decimal(n)[0] == front[0]);
        if front[0] == '0' {
            assert(front.drop_last() =~= Seq::<char>::empty());
            assert(front =~= seq!['0']);
            assert(digits_value(front) == 0);
        }
    }
}

/// A digit is written as its character, and ten times a number and a digit as the number and then
/// the digit.
pub proof fn law_decimal_appends_digits(n: nat, d: nat)
    requires
        d < 10,
    ensures
        text::decimal(d).len() == 1,
        text::decimal(d)[0] as int == '0' as int + d,
        n > 0 ==> text::decimal(10 * n + d) == text::decimal(n) + text::decimal(d),
{
    if n > 0 {
        assert((10 * n + d) / 10 == n);
        assert((10 * n + d) % 10 == d);
        assert(text::decimal(10 * n + d) =~= text::decimal(n) + text::decimal(d));
    }
}

/// Different numbers are written differently.
pub proof fn law_decimal_tells_apart(a: nat, b: nat)
    ensures
        text::decimal(a) == text::decimal(b) ==> a == b,
{
    law_decimal_reads_back(a);
    law_decimal_reads_back(b);
}

/// The lines about calls, assignments and `let` statements show the text of the node as it is.
pub proof fn law_node_lines(node: Seq<char>)
    ensures
        EventView::Blank.text() == Seq::<char>::empty(),
        EventView::FunctionCall(node).text() == "Function Call: "@ + node,
        EventView::AssignExpression(node).text() == "Assign Expression: "@ + node,
        EventView::Statement(node).text() == "Statement: "@ + node,
        EventView::LhsPath(node).text() == "lhs path: "@ + text::debug_quoted(node),
        EventView::LhsNotListed.text() == "lhs is not listed"@,
{
    reveal_strlit("");
}

/// The lines with a line number end in digits that stand for that number.
pub proof fn law_number_lines(line: usize)
    ensures
        ({
            let digits = EventView::OnLine(line).text().skip("On line: "@.len() as int);
            &&& EventView::OnLine(line).text() == "On line: "@ + digits
            &&& digits_value(digits) == line
            &&& forall|i: int| 0 <= i < digits.len() ==> '0' <= #[trigger] digits[i] <= '9'
            &&& digits.len() > 0
            &&& digits[0] == '0' ==> digits.len() == 1
        }),
        EventView::StatementLine(line).text() == "on line: "@ + EventView::OnLine(line).text().skip(
            "On line: "@.len() as int,
        ),
{
    law_decimal_reads_back(line as nat);
    assert(EventView::OnLine(line).text().skip("On line: "@.len() as int) =~= text::decimal(
        line as nat,
    ));
}

/// The lines about a variable by itself name it between brackets.
pub proof fn law_variable_lines(name: Seq<char>)
    ensures
        EventView::InitRefParam(name).text() == "InitRefParam("@ + name + ")"@,
        EventView::InitOwnerParam(name).text() == "InitOwnerParam("@ + name + ")"@,
        EventView::Bind(name).text() == "Bind("@ + name + ")"@,
{
}

/// Variables are written by their names, functions with the brackets of a call.
pub proof fn law_party_text(name: Seq<char>)
    ensures
        PartyView::Variable(name).text() == name,
        PartyView::Function(name).text() == name + "()"@,
        PartyView::Nowhere.text() == "none"@,
{
}

/// A transfer is written with its word, from the giver to the taker.
pub proof fn law_transfer_lines(from: PartyView, to: PartyView)
    ensures
        ({
            let inside = "("@ + from.text() + "->"@ + to.text() + ")"@;
            &&& (EventView::Transfer { how: Transfer::Move, from, to }).text() == "Move"@ + inside
            &&& (EventView::Transfer { how: Transfer::Copy, from, to }).text() == "Copy"@ + inside
            &&& (EventView::Transfer { how: Transfer::StaticBorrow, from, to }).text()
                == "StaticBorrow"@ + inside
            &&& (EventView::Transfer { how: Transfer::MutableBorrow, from, to }).text()
                == "MutableBorrow"@ + inside
            &&& (EventView::Transfer { how: Transfer::PassByStaticReference, from, to }).text()
                == "PassByStaticReference"@ + inside
            &&& (EventView::Transfer { how: Transfer::PassByMutableReference, from, to }).text()
                == "PassByMutableReference"@ + inside
        }),
{
    let inside = "("@ + from.text() + "->"@ + to.text() + ")"@;
    assert forall|how: Transfer|
        (#[trigger] (EventView::Transfer { how, from, to }).text()) == how.spec_word() + inside by {
        assert((EventView::Transfer { how, from, to }).text() =~= how.spec_word() + inside);
    }
}

/// An event stands for what it holds.
pub proof fn law_event_view(name: String, line: usize, how: Transfer, from: Party, to: Party)
    ensures
        Event::Blank@ == EventView::Blank,
        Event::FunctionCall(name)@ == EventView::FunctionCall(name@),
        Event::AssignExpression(name)@ == EventView::AssignExpression(name@),
        Event::OnLine(line)@ == EventView::OnLine(line),
        Event::Statement(name)@ == EventView::Statement(name@),
        Event::StatementLine(line)@ == EventView::StatementLine(line),
        Event::LhsPath(name)@ == EventView::LhsPath(name@),
        Event::LhsNotListed@ == EventView::LhsNotListed,
        Event::InitRefParam(name)@ == EventView::InitRefParam(name@),
        Event::InitOwnerParam(name)@ == EventView::InitOwnerParam(name@),
        Event::Bind(name)@ == EventView::Bind(name@),
        (Event::Transfer { how, from, to })@ == (EventView::Transfer { how, from: from@, to: to@ }),
        Party::Variable(name)@ == PartyView::Variable(name@),
        Party::Function(name)@ == PartyView::Function(name@),
        Party::Nowhere@ == PartyView::Nowhere,
{
}

} // verus!
