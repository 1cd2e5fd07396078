//! The rule-based planner: it reads the intent of a user's input and picks
//! the tool that serves it, with the tool's arguments.

use vstd::prelude::*;
use vstd::string::*;
use crate::error::AgentError;
use crate::text::{
    lemma_trim, trim_start, trim_end, chars_of, char_is_alphanumeric, char_is_numeric, char_is_whitespace, contains_chars, contains_text,
    is_alphanumeric_char, is_numeric_char, is_whitespace_char, lowercase, string_of, to_lowercase, trim,
    trim_chars,
};
use crate::tools::CalcOperation;

verus! {

/// The lowered input asks for a search.
pub open spec fn mentions_search(lower: Seq<char>) -> bool {
    contains_text(lower, "搜索"@) || contains_text(lower, "search"@) || contains_text(lower, "查询"@)
}

/// The lowered input mentions a calculation.
pub open spec fn mentions_calculation(lower: Seq<char>) -> bool {
    contains_text(lower, "计算"@) || contains_text(lower, "calculate"@) || contains_text(lower, "算"@)
        || contains_text(lower, "乘"@) || contains_text(lower, "加"@) || contains_text(lower, "减"@)
        || contains_text(lower, "除"@) || contains_text(lower, "*"@) || contains_text(lower, "+"@)
        || contains_text(lower, "-"@) || contains_text(lower, "/"@)
}

/// Characters kept in a search query: letters, digits and whitespace.
pub open spec fn query_chars() -> spec_fn(char) -> bool {
    |c: char| is_alphanumeric_char(c) || is_whitespace_char(c)
}

/// The search query read from an input: its letters, digits and whitespace,
/// trimmed.
pub open spec fn search_query(input: Seq<char>) -> Seq<char> {
    trim(input.filter(query_chars()))
}

/// Characters kept when looking for numbers.
pub open spec fn number_chars() -> spec_fn(char) -> bool {
    |c: char| is_numeric_char(c) || is_whitespace_char(c) || c == '.' || c == '-' || c == '+'
}

/// Characters that separate numbers: all but numeric characters and `.`.
pub open spec fn is_separator(c: char) -> bool {
    !is_numeric_char(c) && c != '.'
}

/// The pieces between separators, as splitting a text at each separator
/// gives them (empty pieces included).
pub open spec fn split_pieces(s: Seq<char>) -> Seq<Seq<char>>
    decreases s.len(),
{
    if s.len() == 0 {
        seq![Seq::<char>::empty()]
    } else {
        let p = split_pieces(s.drop_last());
        if is_separator(s.last()) {
            p.push(Seq::<char>::empty())
        } else {
            p.update(p.len() - 1, p.last().push(s.last()))
        }
    }
}

/// An ASCII decimal digit.
pub open spec fn is_digit(c: char) -> bool {
    '0' <= c && c <= '9'
}

/// A text of decimal digits with at most one `.` and at least one digit: on
/// texts made of numeric characters and `.`, these are the texts that parse
/// as a floating-point number.
pub open spec fn decimal_literal(t: Seq<char>) -> bool {
    &&& forall|i: int| 0 <= i < t.len() ==> is_digit(t[i]) || t[i] == '.'
    &&& forall|i: int, j: int| 0 <= i < j < t.len() && t[i] == '.' ==> t[j] != '.'
    &&& exists|i: int| 0 <= i < t.len() && is_digit(t[i])
}

/// A piece that holds a number: non-empty, not a lone `-`, and a decimal
/// literal once trimmed.
pub open spec fn number_piece(p: Seq<char>) -> bool {
    p.len() > 0 && trim(p) != seq!['-'] && decimal_literal(trim(p))
}

/// The predicate `number_piece` as a function value.
pub open spec fn number_pieces() -> spec_fn(Seq<char>) -> bool {
    |p: Seq<char>| number_piece(p)
}

/// The number literals of a text, in order.
pub open spec fn number_literals(s: Seq<char>) -> Seq<Seq<char>> {
    split_pieces(s).filter(number_pieces()).map_values(|p: Seq<char>| trim(p))
}

/// The first two numbers of an input, as the literals that denote them.
pub open spec fn first_two_numbers(input: Seq<char>) -> Option<(Seq<char>, Seq<char>)> {
    let lits = number_literals(input.filter(number_chars()));
    if lits.len() >= 2 {
        Some((lits[0], lits[1]))
    } else {
        None
    }
}

/// The operation that a lowered input names, by its symbol or its Chinese
/// word, tried in the order multiply, add, subtract, divide.
pub open spec fn named_operation(lower: Seq<char>) -> Option<CalcOperation> {
    if contains_text(lower, "*"@) || contains_text(lower, "乘"@) {
        Some(CalcOperation::Multiply)
    } else if contains_text(lower, "+"@) || contains_text(lower, "加"@) {
        Some(CalcOperation::Add)
    } else if contains_text(lower, "-"@) || contains_text(lower, "减"@) {
        Some(CalcOperation::Subtract)
    } else if contains_text(lower, "/"@) || contains_text(lower, "除"@) {
        Some(CalcOperation::Divide)
    } else {
        None
    }
}

/// The calculation an input asks for: an operation it names and the first
/// two numbers in it.
pub open spec fn calculation_of(input: Seq<char>) -> Option<(CalcOperation, Seq<char>, Seq<char>)> {
    match (named_operation(lowercase(input)), first_two_numbers(input)) {
        (Some(op), Some((a, b))) => Some((op, a, b)),
        _ => None,
    }
}

/// The abstract arguments of a planned tool call.
pub enum ArgumentsView {
    Search { query: Seq<char> },
    Calculation { operation: CalcOperation, a: Seq<char>, b: Seq<char> },
}

/// The abstract plan: tool name, arguments, reasoning.
pub struct PlanView {
    pub tool_name: Seq<char>,
    pub arguments: ArgumentsView,
    pub reasoning: Seq<char>,
}

/// The plan that the rule-based planner makes for an input: a search when
/// the input asks for one, else a calculation when the input mentions one and
/// names an operation and two numbers, else no plan.
pub open spec fn rule_based_plan(input: Seq<char>) -> Option<PlanView> {
    let lower = lowercase(input);
    if mentions_search(lower) {
        Some(
            PlanView {
                tool_name: "search"@,
                arguments: ArgumentsView::Search { query: search_query(input) },
                reasoning: "Detected search intent"@,
            },
        )
    } else if mentions_calculation(lower) {
        match calculation_of(input) {
            Some((op, a, b)) => Some(
                PlanView {
                    tool_name: "calculator"@,
                    arguments: ArgumentsView::Calculation { operation: op, a, b },
                    reasoning: "Detected calculation intent"@,
                },
            ),
            None => None,
        }
    } else {
        None
    }
}

/// The planner prefers a search: an input that asks for a search is planned
/// as a search, whatever calculation it also mentions.
pub proof fn law_search_takes_precedence(input: Seq<char>)
    requires
        mentions_search(lowercase(input)),
    ensures
        rule_based_plan(input) matches Some(p) && p.tool_name == "search"@
            && p.arguments == (ArgumentsView::Search { query: search_query(input) }),
{
}

/// A search query holds only letters, digits and whitespace, and neither
/// starts nor ends with whitespace.
pub proof fn law_search_query_is_clean(input: Seq<char>)
    ensures
        forall|i: int| 0 <= i < search_query(input).len() ==> #[trigger] is_alphanumeric_char(
            search_query(input)[i],
        ) || is_whitespace_char(search_query(input)[i]),
        search_query(input).len() > 0 ==> !is_whitespace_char(search_query(input)[0])
            && !is_whitespace_char(search_query(input).last()),
{
    let f = input.filter(query_chars());
    lemma_trim(f);
    let (a, b) = choose|a: int, b: int| 0 <= a <= b <= f.len() && trim(f) == f.subrange(a, b);
    assert forall|i: int| 0 <= i < search_query(input).len() implies #[trigger] is_alphanumeric_char(
        search_query(input)[i],
    ) || is_whitespace_char(search_query(input)[i]) by {
        assert(search_query(input)[i] == f[a + i]);
        input.lemma_filter_pred(query_chars(), a + i);
    }
}

/// The lowered input holds one of the words that ask for a search: 搜索,
/// search or 查询.
pub open spec fn has_search_word(lower: Seq<char>) -> bool {
    contains_text(lower, "搜索"@) || contains_text(lower, "search"@) || contains_text(lower, "查询"@)
}

/// The lowered input holds one of the words or symbols of a calculation:
/// 计算, calculate, 算, 乘, 加, 减, 除, `*`, `+`, `-` or `/`.
pub open spec fn has_calculation_word(lower: Seq<char>) -> bool {
    contains_text(lower, "计算"@) || contains_text(lower, "calculate"@) || contains_text(lower, "算"@)
        || contains_text(lower, "乘"@) || contains_text(lower, "加"@) || contains_text(lower, "减"@)
        || contains_text(lower, "除"@) || contains_text(lower, "*"@) || contains_text(lower, "+"@)
        || contains_text(lower, "-"@) || contains_text(lower, "/"@)
}

/// An input whose lowercase form holds 搜索, search or 查询 is planned as a
/// search for its letters, digits and whitespace, trimmed.
pub proof fn law_search_words_plan_a_search(input: Seq<char>)
    requires
        has_search_word(lowercase(input)),
    ensures
        rule_based_plan(input) == Some(
            PlanView {
                tool_name: "search"@,
                arguments: ArgumentsView::Search { query: search_query(input) },
                reasoning: "Detected search intent"@,
            },
        ),
{
}

/// An input with no search word but a calculation word is planned as a
/// calculation when it names an operation and two numbers, and gets no plan
/// otherwise. The operation is the first of multiply (`*`, 乘), add (`+`,
/// 加), subtract (`-`, 减) and divide (`/`, 除) that the lowered input names.
pub proof fn law_calculation_words_plan_a_calculation(input: Seq<char>)
    requires
        !has_search_word(lowercase(input)),
        has_calculation_word(lowercase(input)),
    ensures
        rule_based_plan(input) == match calculation_of(input) {
            Some((op, a, b)) => Some(
                PlanView {
                    tool_name: "calculator"@,
                    arguments: ArgumentsView::Calculation { operation: op, a, b },
                    reasoning: "Detected calculation intent"@,
                },
            ),
            None => None::<PlanView>,
        },
        calculation_of(input) is Some <==> first_two_numbers(input) is Some && (contains_text(
            lowercase(input),
            "*"@,
        ) || contains_text(lowercase(input), "乘"@) || contains_text(lowercase(input), "+"@)
            || contains_text(lowercase(input), "加"@) || contains_text(lowercase(input), "-"@)
            || contains_text(lowercase(input), "减"@) || contains_text(lowercase(input), "/"@)
            || contains_text(lowercase(input), "除"@)),
        calculation_of(input) matches Some((op, a, b)) ==> {
            &&& (a, b) == first_two_numbers(input)->0
            &&& op == if contains_text(lowercase(input), "*"@) || contains_text(lowercase(input), "乘"@) {
                CalcOperation::Multiply
            } else if contains_text(lowercase(input), "+"@) || contains_text(lowercase(input), "加"@) {
                CalcOperation::Add
            } else if contains_text(lowercase(input), "-"@) || contains_text(lowercase(input), "减"@) {
                CalcOperation::Subtract
            } else {
                CalcOperation::Divide
            }
        },
{
}

/// An input made only of letters, digits and whitespace, with no whitespace
/// at either end, is its own search query: nothing of it is dropped.
pub proof fn law_clean_input_is_its_own_query(input: Seq<char>)
    requires
        forall|i: int| 0 <= i < input.len() ==> is_alphanumeric_char(#[trigger] input[i]) || is_whitespace_char(input[i]),
        input.len() > 0 ==> !is_whitespace_char(input[0]) && !is_whitespace_char(input.last()),
    ensures
        search_query(input) == input,
{
    lemma_filter_keeps_all(input, query_chars());
    if input.len() > 0 {
        assert(trim_start(input) == input);
        assert(trim_end(input) == input);
    }
}

/// Filtering by a condition that every item meets keeps the sequence.
proof fn lemma_filter_keeps_all(s: Seq<char>, p: spec_fn(char) -> bool)
    requires
        forall|i: int| 0 <= i < s.len() ==> #[trigger] p(s[i]),
    ensures
        s.filter(p) == s,
    decreases s.len(),
{
    reveal(Seq::filter);
    if s.len() > 0 {
        assert forall|i: int| 0 <= i < s.drop_last().len() implies #[trigger] p(s.drop_last()[i]) by {
            assert(s.drop_last()[i] == s[i]);
            assert(p(s[i]));
        }
        lemma_filter_keeps_all(s.drop_last(), p);
        assert(p(s[s.len() - 1]));
        assert(s.drop_last().push(s.last()) =~= s);
    } else {
        assert(s.filter(p) =~= s);
    }
}

/// An input without any search or calculation word gets no plan.
pub proof fn law_no_keyword_no_plan(input: Seq<char>)
    requires
        !has_search_word(lowercase(input)),
        !has_calculation_word(lowercase(input)),
    ensures
        rule_based_plan(input) is None,
{
}

/// Keeping only what goes into the filter makes no difference: removing
/// every occurrence of a character that is neither numeric, whitespace, `.`,
/// `-` nor `+` (such as a thousands separator `,`) leaves the first two
/// numbers of an input as they are, so such a character never separates two
/// numbers.
pub proof fn law_other_characters_do_not_split_numbers(input: Seq<char>, c: char)
    requires
        !is_numeric_char(c),
        !is_whitespace_char(c),
        c != '.',
        c != '-',
        c != '+',
    ensures
        first_two_numbers(input.filter(|x: char| x != c)) == first_two_numbers(input),
{
    let q = |x: char| x != c;
    lemma_filter_of_filter(input, q, number_chars());
    assert(input.filter(q).filter(number_chars()) == input.filter(number_chars()));
}

/// Filtering first by a weaker condition changes nothing.
proof fn lemma_filter_of_filter(s: Seq<char>, q: spec_fn(char) -> bool, p: spec_fn(char) -> bool)
    requires
        forall|x: char| #[trigger] p(x) ==> q(x),
    ensures
        s.filter(q).filter(p) == s.filter(p),
    decreases s.len(),
{
    reveal(Seq::filter);
    if s.len() > 0 {
        lemma_filter_of_filter(s.drop_last(), q, p);
        if q(s.last()) {
            assert(s.filter(q) == s.drop_last().filter(q).push(s.last()));
            assert(s.filter(q).drop_last() =~= s.drop_last().filter(q));
            assert(s.filter(q).last() == s.last());
        } else {
            assert(s.filter(q) == s.drop_last().filter(q));
        }
    }
}

/// The operands of a calculation plan are decimal literals, so the
/// calculator can read them as numbers.
pub proof fn law_calculation_operands_are_decimal(input: Seq<char>)
    requires
        rule_based_plan(input) matches Some(p) && p.arguments is Calculation,
    ensures
        rule_based_plan(input) matches Some(p) && (p.arguments matches ArgumentsView::Calculation {
            a,
            b,
            ..
        } && decimal_literal(a) && decimal_literal(b)),
{
    let kept = input.filter(number_chars());
    let pieces = split_pieces(kept).filter(number_pieces());
    assert(number_literals(kept) == pieces.map_values(|p: Seq<char>| trim(p)));
    assert(number_literals(kept).len() >= 2);
    split_pieces(kept).lemma_filter_pred(number_pieces(), 0);
    split_pieces(kept).lemma_filter_pred(number_pieces(), 1);
    assert(number_piece(pieces[0]));
    assert(number_piece(pieces[1]));
}

/// The arguments of a planned tool call. The calculator's operands are the
/// decimal literals read from the input.
#[derive(Debug, Clone)]
pub enum ToolArguments {
    Search { query: String },
    Calculation { operation: CalcOperation, a: String, b: String },
}

impl View for ToolArguments {
    type V = ArgumentsView;

    open spec fn view(&self) -> ArgumentsView {
        match self {
            ToolArguments::Search { query } => ArgumentsView::Search { query: query@ },
            ToolArguments::Calculation { operation, a, b } => ArgumentsView::Calculation {
                operation: *operation,
                a: a@,
                b: b@,
            },
        }
    }
}

/// A planned tool call.
#[derive(Debug, Clone)]
pub struct PlanningResult {
    pub tool_name: String,
    pub arguments: ToolArguments,
    pub reasoning: String,
}

impl View for PlanningResult {
    type V = PlanView;

    open spec fn view(&self) -> PlanView {
        PlanView {
            tool_name: self.tool_name@,
            arguments: self.arguments@,
            reasoning: self.reasoning@,
        }
    }
}

/// The characters of `v` that satisfy the query predicate.
fn keep_query_chars(v: &Vec<char>) -> (r: Vec<char>)
    ensures
        r@ == v@.filter(query_chars()),
{
    let mut r: Vec<char> = Vec::new();
    let mut i: usize = 0;
    while i < v.len()
        invariant
            i <= v.len(),
            r@ == v@.take(i as int).filter(query_chars()),
        decreases v.len() - i,
    {
        let c = v[i];
        assert(v@.take(i + 1).drop_last() =~= v@.take(i as int));
        reveal_with_fuel(Seq::filter, 1);
        if char_is_alphanumeric(c) || char_is_whitespace(c) {
            r.push(c);
        }
        i = i + 1;
    }
    assert(v@.take(v.len() as int) =~= v@);
    r
}

/// The characters of `v` that may belong to numbers.
fn keep_number_chars(v: &Vec<char>) -> (r: Vec<char>)
    ensures
        r@ == v@.filter(number_chars()),
{
    let mut r: Vec<char> = Vec::new();
    let mut i: usize = 0;
    while i < v.len()
        invariant
            i <= v.len(),
            r@ == v@.take(i as int).filter(number_chars()),
        decreases v.len() - i,
    {
        let c = v[i];
        assert(v@.take(i + 1).drop_last() =~= v@.take(i as int));
        reveal_with_fuel(Seq::filter, 1);
        if char_is_numeric(c) || char_is_whitespace(c) || c == '.' || c == '-' || c == '+' {
            r.push(c);
        }
        i = i + 1;
    }
    assert(v@.take(v.len() as int) =~= v@);
    r
}

/// Whether `t` is a decimal literal.
fn is_decimal_literal(t: &Vec<char>) -> (r: bool)
    ensures
        r == decimal_literal(t@),
{
    let mut seen_dot = false;
    let mut seen_digit = false;
    let mut i: usize = 0;
    while i < t.len()
        invariant
            i <= t.len(),
            forall|k: int| 0 <= k < i ==> is_digit(t@[k]) || t@[k] == '.',
            forall|a: int, b: int| 0 <= a < b < i && t@[a] == '.' ==> t@[b] != '.',
            seen_dot <==> exists|k: int| 0 <= k < i && t@[k] == '.',
            seen_digit <==> exists|k: int| 0 <= k < i && is_digit(t@[k]),
        decreases t.len() - i,
    {
        let c = t[i];
        if '0' <= c && c <= '9' {
            seen_digit = true;
        } else if c == '.' {
            if seen_dot {
                let ghost a = choose|k: int| 0 <= k < i && t@[k] == '.';
                assert(!decimal_literal(t@)) by {
                    assert(0 <= a < i && t@[a] == '.' && t@[i as int] == '.');
                }
                return false;
            }
            seen_dot = true;
        } else {
            assert(!(is_digit(t@[i as int]) || t@[i as int] == '.'));
            return false;
        }
        i = i + 1;
    }
    seen_digit
}

/// Whether a piece holds a number.
fn is_number_piece(p: &Vec<char>) -> (r: bool)
    ensures
        r == number_piece(p@),
{
    if p.len() == 0 {
        return false;
    }
    let t = trim_chars(p);
    if t.len() == 1 && t[0] == '-' {
        assert(t@ =~= seq!['-']);
        return false;
    }
    assert(t@ != seq!['-']) by {
        if t@ == seq!['-'] {
            assert(t@.len() == 1 && t@[0] == '-');
        }
    }
    is_decimal_literal(&t)
}

/// Splitting a text one character further.
proof fn lemma_split_step(s: Seq<char>, i: int)
    requires
        0 <= i < s.len(),
    ensures
        split_pieces(s.take(i + 1)) == if is_separator(s[i]) {
            split_pieces(s.take(i)).push(Seq::<char>::empty())
        } else {
            let p = split_pieces(s.take(i));
            p.update(p.len() - 1, p.last().push(s[i]))
        },
{
    assert(s.take(i + 1).drop_last() =~= s.take(i));
    assert(s.take(i + 1).last() == s[i]);
}

/// Filtering and trimming one more piece.
proof fn lemma_literals_push(done: Seq<Seq<char>>, p: Seq<char>)
    ensures
        done.push(p).filter(number_pieces()).map_values(|q: Seq<char>| trim(q)) == if number_piece(p) {
            done.filter(number_pieces()).map_values(|q: Seq<char>| trim(q)).push(trim(p))
        } else {
            done.filter(number_pieces()).map_values(|q: Seq<char>| trim(q))
        },
{
    reveal_with_fuel(Seq::filter, 1);
    assert(done.push(p).drop_last() =~= done);
    if number_piece(p) {
        assert(done.push(p).filter(number_pieces()) == done.filter(number_pieces()).push(p));
        assert(done.push(p).filter(number_pieces()).map_values(|q: Seq<char>| trim(q)) =~= done.filter(
            number_pieces(),
        ).map_values(|q: Seq<char>| trim(q)).push(trim(p)));
    }
}

/// The number literals of `v`, in order.
fn literals_of(v: &Vec<char>) -> (r: Vec<String>)
    ensures
        r@.len() == number_literals(v@).len(),
        forall|k: int| 0 <= k < r@.len() ==> #[trigger] r@[k]@ == number_literals(v@)[k],
{
    let mut lits: Vec<String> = Vec::new();
    let mut cur: Vec<char> = Vec::new();
    let ghost mut done: Seq<Seq<char>> = Seq::empty();
    let mut i: usize = 0;
    assert(v@.take(0) =~= Seq::<char>::empty());
    while i < v.len()
        invariant
            i <= v.len(),
            split_pieces(v@.take(i as int)) == done.push(cur@),
            lits@.len() == done.filter(number_pieces()).map_values(|q: Seq<char>| trim(q)).len(),
            forall|k: int|
                0 <= k < lits@.len() ==> #[trigger] lits@[k]@ == done.filter(
                    number_pieces(),
                ).map_values(|q: Seq<char>| trim(q))[k],
        decreases v.len() - i,
    {
        let c = v[i];
        proof {
            lemma_split_step(v@, i as int);
            lemma_literals_push(done, cur@);
        }
        if char_is_numeric(c) || c == '.' {
            let ghost before = cur@;
            cur.push(c);
            proof {
                assert(done.push(before).update(done.len() as int, before.push(c)) =~= done.push(cur@));
            }
        } else {
            if is_number_piece(&cur) {
                let t = trim_chars(&cur);
                lits.push(string_of(&t));
            }
            proof {
                done = done.push(cur@);
            }
            cur = Vec::new();
            proof {
                assert(done.push(cur@) =~= split_pieces(v@.take(i as int)).push(Seq::<char>::empty()));
            }
        }
        i = i + 1;
    }
    proof {
        lemma_literals_push(done, cur@);
        assert(v@.take(v.len() as int) =~= v@);
    }
    if is_number_piece(&cur) {
        let t = trim_chars(&cur);
        lits.push(string_of(&t));
    }
    lits
}

/// The first two numbers of `input`, as the decimal literals that denote
/// them, if it holds two.
pub fn extract_two_numbers(input: &str) -> (r: Option<(String, String)>)
    ensures
        match first_two_numbers(input@) {
            Some((a, b)) => r matches Some((x, y)) && x@ == a && y@ == b,
            None => r is None,
        },
{
    let chars = chars_of(input);
    let kept = keep_number_chars(&chars);
    let lits = literals_of(&kept);
    if lits.len() >= 2 {
        Some((lits[0].clone(), lits[1].clone()))
    } else {
        None
    }
}

/// Whether `needle` occurs in the characters `hay`.
fn mentions(hay: &Vec<char>, needle: &str) -> (r: bool)
    ensures
        r == contains_text(hay@, needle@),
{
    let n = chars_of(needle);
    contains_chars(hay, &n)
}

/// The calculation that `input` asks for: the operation it names and its
/// first two numbers.
pub fn parse_calculation_input(input: &str) -> (r: Option<(CalcOperation, String, String)>)
    ensures
        match calculation_of(input@) {
            Some((op, a, b)) => r matches Some((o, x, y)) && o == op && x@ == a && y@ == b,
            None => r is None,
        },
{
    let lower = to_lowercase(input);
    let l = chars_of(lower.as_str());
    let op = if mentions(&l, "*") || mentions(&l, "乘") {
        CalcOperation::Multiply
    } else if mentions(&l, "+") || mentions(&l, "加") {
        CalcOperation::Add
    } else if mentions(&l, "-") || mentions(&l, "减") {
        CalcOperation::Subtract
    } else if mentions(&l, "/") || mentions(&l, "除") {
        CalcOperation::Divide
    } else {
        return None;
    };
    match extract_two_numbers(input) {
        Some((a, b)) => Some((op, a, b)),
        None => None,
    }
}

/// A planner that recognises searches and calculations by keywords.
#[derive(Debug, Clone)]
pub struct RuleBasedPlanner {
    name: String,
}

impl RuleBasedPlanner {
    pub fn new() -> (r: Self)
        ensures
            r.spec_name() == "rule_based"@,
    {
        RuleBasedPlanner { name: String::from_str("rule_based") }
    }

    pub closed spec fn spec_name(&self) -> Seq<char> {
        self.name@
    }

    pub fn name(&self) -> (r: &str)
        ensures
            r@ == self.spec_name(),
    {
        self.name.as_str()
    }

    /// Plans the tool call that serves `input`, if any rule recognises it.
    /// The rule-based planner never fails.
    pub fn plan(&self, input: &str) -> (r: Result<Option<PlanningResult>, AgentError>)
        ensures
            r matches Ok(p) && match rule_based_plan(input@) {
                Some(v) => p matches Some(q) && q@ == v,
                None => p is None,
            },
    {
        let lower = to_lowercase(input);
        let l = chars_of(lower.as_str());
        if mentions(&l, "搜索") || mentions(&l, "search") || mentions(&l, "查询") {
            let chars = chars_of(input);
            let kept = keep_query_chars(&chars);
            let q = trim_chars(&kept);
            let query = string_of(&q);
            return Ok(
                Some(
                    PlanningResult {
                        tool_name: String::from_str("search"),
                        arguments: ToolArguments::Search { query },
                        reasoning: String::from_str("Detected search intent"),
                    },
                ),
            );
        }
        let calc = mentions(&l, "计算") || mentions(&l, "calculate") || mentions(&l, "算") || mentions(
            &l,
            "乘",
        ) || mentions(&l, "加") || mentions(&l, "减") || mentions(&l, "除") || mentions(&l, "*")
            || mentions(&l, "+") || mentions(&l, "-") || mentions(&l, "/");
        if calc {
            match parse_calculation_input(input) {
                Some((operation, a, b)) => {
                    return Ok(
                        Some(
                            PlanningResult {
                                tool_name: String::from_str("calculator"),
                                arguments: ToolArguments::Calculation { operation, a, b },
                                reasoning: String::from_str("Detected calculation intent"),
                            },
                        ),
                    );
                },
                None => {},
            }
        }
        Ok(None)
    }
}

impl Default for RuleBasedPlanner {
    fn default() -> (r: Self)
        ensures
            r.spec_name() == "rule_based"@,
    {
        RuleBasedPlanner::new()
    }
}

} // verus!
