//! Reading variable names out of node texts, and spelling numbers.

use vstd::prelude::*;

verus! {

/// `pattern` stands in `s` from position `at` on.
pub open spec fn occurs_at(s: Seq<char>, pattern: Seq<char>, at: int) -> bool {
    &&& 0 <= at
    &&& at + pattern.len() <= s.len()
    &&& s.subrange(at, at + pattern.len()) == pattern
}

/// `pattern` stands somewhere in `s`.
pub open spec fn has_substring(s: Seq<char>, pattern: Seq<char>) -> bool {
    exists|at: int| occurs_at(s, pattern, at)
}

/// The backquotes of `s` are not a single one: either there is none, or the first and the last
/// are two different ones and enclose something.
pub open spec fn quotes_close(s: Seq<char>) -> bool {
    s.contains('`') ==> s.index_of_first('`')->0 < s.index_of_last('`')->0
}

/// What a node is called when its source reads `source`: any `String::from` call goes by the name
/// of the function alone.
pub open spec fn short_name(source: Seq<char>) -> Seq<char> {
    if has_substring(source, "String::from"@) {
        "String::from"@
    } else {
        source
    }
}

/// The name that the node text `s` gives: what stands between its first and its last backquote,
/// shortened. A text without backquotes gives none.
pub open spec fn var_name(s: Seq<char>) -> Option<Seq<char>> {
    match (s.index_of_first('`'), s.index_of_last('`')) {
        (Some(first), Some(last)) => Some(short_name(s.subrange(first + 1, last))),
        _ => None,
    }
}

/// The characters of `s`, in order.
fn chars_of(s: &str) -> (chars: Vec<char>)
    ensures
        chars@ == s@,
{
    let mut chars: Vec<char> = Vec::new();
    for c in it: s.chars()
        invariant
            chars@ == it.seq().take(it.index()),
            it.seq() == s@,
    {
        chars.push(c);
    }
    chars
}

/// Does `pattern` stand in `chars` from `at` on?
fn matches_at(chars: &Vec<char>, pattern: &Vec<char>, at: usize) -> (found: bool)
    requires
        at + pattern@.len() <= chars@.len(),
    ensures
        found == occurs_at(chars@, pattern@, at as int),
{
    let len: usize = chars.len();
    let mut k: usize = 0;
    while k < pattern.len()
        invariant
            k <= pattern@.len(),
            len == chars@.len(),
            at + pattern@.len() <= len,
            forall|j: int| 0 <= j < k ==> chars@[at + j] == pattern@[j],
        decreases pattern@.len() - k,
    {
        if chars[at + k] != pattern[k] {
            assert(chars@.subrange(at as int, at + pattern@.len())[k as int] != pattern@[k as int]);
            return false;
        }
        k += 1;
    }
    assert(chars@.subrange(at as int, at + pattern@.len()) =~= pattern@);
    true
}

/// Does `pattern` stand somewhere in `s`?
pub fn contains(s: &str, pattern: &str) -> (found: bool)
    ensures
        found == has_substring(s@, pattern@),
{
    let chars = chars_of(s);
    let wanted = chars_of(pattern);
    if wanted.len() > chars.len() {
        return false;
    }
    let starts: usize = chars.len() - wanted.len();
    let mut at: usize = 0;
    while at < starts
        invariant
            chars@ == s@,
            wanted@ == pattern@,
            starts + wanted@.len() == chars@.len(),
            at <= starts,
            forall|k: int| 0 <= k < at ==> !occurs_at(s@, pattern@, k),
        decreases starts - at,
    {
        if matches_at(&chars, &wanted, at) {
            return true;
        }
        at += 1;
    }
    matches_at(&chars, &wanted, starts)
}

/// Where the backquotes of `chars` begin and end.
fn outer_quotes(chars: &Vec<char>) -> (outer: Option<(usize, usize)>)
    ensures
        match outer {
            Some((first, last)) => {
                &&& chars@.contains('`')
                &&& chars@.index_of_first('`') == Some(first as int)
                &&& chars@.index_of_last('`') == Some(last as int)
            },
            None => !chars@.contains('`'),
        },
{
    let mut outer: Option<(usize, usize)> = None;
    let mut i: usize = 0;
    while i < chars.len()
        invariant
            i <= chars@.len(),
            match outer {
                Some((first, last)) => {
                    &&& first <= last < i
                    &&& chars@[first as int] == '`'
                    &&& chars@[last as int] == '`'
                    &&& forall|j: int| 0 <= j < first ==> chars@[j] != '`'
                    &&& forall|j: int| last < j < i ==> chars@[j] != '`'
                },
                None => forall|j: int| 0 <= j < i ==> chars@[j] != '`',
            },
        decreases chars@.len() - i,
    {
        if chars[i] == '`' {
            outer = match outer {
                Some((first, _)) => Some((first, i)),
                None => Some((i, i)),
            };
        }
        i += 1;
    }
    proof {
        chars@.index_of_first_ensures('`');
        chars@.index_of_last_ensures('`');
    }
    outer
}

/// Are the backquotes of `s` not a single one?
pub fn closes_quotes(s: &str) -> (closes: bool)
    ensures
        closes == quotes_close(s@),
{
    match outer_quotes(&chars_of(s)) {
        Some((first, last)) => first < last,
        None => true,
    }
}

/// The name that the node text `input_string` gives.
pub fn extract_var_name(input_string: &str) -> (name: Option<String>)
    requires
        quotes_close(input_string@),
    ensures
        match name {
            Some(found) => var_name(input_string@) == Some(found@),
            None => var_name(input_string@) is None,
        },
{
    let (first, last): (usize, usize) = match outer_quotes(&chars_of(input_string)) {
        Some(outer) => outer,
        None => {
            proof {
                input_string@.index_of_first_ensures('`');
            }
            return None;
        },
    };
    proof {
        input_string@.index_of_first_ensures('`');
        input_string@.index_of_last_ensures('`');
    }
    let source = input_string.substring_char(first + 1, last);
    if contains(source, "String::from") {
        Some("String::from".to_owned())
    } else {
        Some(source.to_owned())
    }
}

/// The decimal digit that stands for `d`.
pub open spec fn digit(d: nat) -> char
    recommends
        d < 10,
{
    seq!['0', '1', '2', '3', '4', '5', '6', '7', '8', '9'][d as int]
}

/// `n` in decimal, without leading zeros.
pub open spec fn decimal(n: nat) -> Seq<char>
    decreases n,
{
    if n < 10 {
        seq![digit(n)]
    } else {
        decimal(n / 10).push(digit(n % 10))
    }
}

/// The decimal digit that stands for `d`, as a string.
fn digit_string(d: usize) -> (s: &'static str)
    requires
        d < 10,
    ensures
        s@ == seq![digit(d as nat)],
{
    proof {
        reveal_strlit("0");
        reveal_strlit("1");
        reveal_strlit("2");
        reveal_strlit("3");
        reveal_strlit("4");
        reveal_strlit("5");
        reveal_strlit("6");
        reveal_strlit("7");
        reveal_strlit("8");
        reveal_strlit("9");
    }
    match d {
        0 => "0",
        1 => "1",
        2 => "2",
        3 => "3",
        4 => "4",
        5 => "5",
        6 => "6",
        7 => "7",
        8 => "8",
        _ => "9",
    }
}

/// `n` in decimal.
pub fn decimal_string(n: usize) -> (s: String)
    ensures
        s@ == decimal(n as nat),
    decreases n,
{
    if n < 10 {
        digit_string(n).to_owned()
    } else {
        let mut s = decimal_string(n / 10);
        s.append(digit_string(n % 10));
        s
    }
}

/// `s` in double quotes, with the characters escaped that `Debug` of a string escapes.
pub uninterp spec fn debug_quoted(s: Seq<char>) -> Seq<char>;

/// `s` as `{:?}` writes it, by std's `Debug` for `str`: a function of the characters of `s` alone.
/// Which characters it escapes, and how, is left unsaid.
#[verifier::external_body]
pub(crate) fn quote(s: &str) -> (quoted: String)
    ensures
        quoted@ == debug_quoted(s@),
{
    format!("{:?}", s)
}

} // verus!
