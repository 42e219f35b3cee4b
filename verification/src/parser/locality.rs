//! The rules look at nothing but the text ahead of them.
//!
//! What a rule gives at a position of a text is what it gives at the start
//! of the text that begins at that position, with the positions counted
//! from there. So a parse of what an earlier parse left is a parse of the
//! same place in the first text: nothing of the earlier parse is kept.

use crate::parser::ast::{ExpressionView, OpcodeModeView};
use crate::parser::error::ParseError;
use crate::parser::lexical::{run_end, CharClass};
use crate::parser::syntax;
use vstd::prelude::*;

verus! {

/// The text from `k` on.
pub open spec fn text_from(s: Seq<char>, k: int) -> Seq<char> {
    s.subrange(k, s.len() as int)
}

/// A position in the text from `k` on, as a position in the whole text.
pub open spec fn position_in_whole(r: Option<int>, k: int) -> Option<int> {
    match r {
        Some(end) => Some(end + k),
        None => None,
    }
}

/// What a rule found in the text from `k` on, with its end as a position
/// in the whole text.
pub open spec fn in_whole<T>(r: Option<(int, T)>, k: int) -> Option<(int, T)> {
    match r {
        Some((end, value)) => Some((end + k, value)),
        None => None,
    }
}

/// As `in_whole`, for a rule that says why it did not match.
pub open spec fn result_in_whole<T>(r: Result<(int, T), ParseError>, k: int) -> Result<
    (int, T),
    ParseError,
> {
    match r {
        Ok((end, value)) => Ok((end + k, value)),
        Err(error) => Err(error),
    }
}

/// As `in_whole`, for an operand.
pub open spec fn operand_in_whole(
    r: Option<(int, ExpressionView, OpcodeModeView)>,
    k: int,
) -> Option<(int, ExpressionView, OpcodeModeView)> {
    match r {
        Some((end, value, mode)) => Some((end + k, value, mode)),
        None => None,
    }
}

/// Whether `k` and `i` are a place in `s` and a place in the text from
/// there on.
pub open spec fn placed(s: Seq<char>, k: int, i: int) -> bool {
    0 <= k && 0 <= i && i + k <= s.len()
}

/// A run in the text from `k` on is the run at that place of the whole
/// text.
pub proof fn lemma_run_end_ahead(s: Seq<char>, k: int, i: int, class: CharClass)
    requires
        placed(s, k, i),
    ensures
        run_end(text_from(s, k), i, class) + k == run_end(s, i + k, class),
        i <= run_end(text_from(s, k), i, class) <= s.len() - k,
    decreases s.len() - k - i,
{
    let t = text_from(s, k);
    if i < t.len() && class.contains(t[i]) {
        lemma_run_end_ahead(s, k, i + 1, class);
    }
}

/// A part of the text from `k` on is a part of the whole text.
pub proof fn lemma_part_ahead(s: Seq<char>, k: int, from: int, to: int)
    requires
        0 <= k,
        0 <= from <= to,
        to + k <= s.len(),
    ensures
        text_from(s, k).subrange(from, to) == s.subrange(from + k, to + k),
{
    assert(text_from(s, k).subrange(from, to) =~= s.subrange(from + k, to + k));
}

/// Whitespace, a token and a letter in the text from `k` on are those at
/// that place of the whole text.
pub proof fn lemma_token_ahead(s: Seq<char>, k: int, i: int)
    requires
        placed(s, k, i),
    ensures
        syntax::skip(text_from(s, k), i) + k == syntax::skip(s, i + k),
        i <= syntax::skip(text_from(s, k), i) <= s.len() - k,
        forall|c: char|
            position_in_whole(#[trigger] syntax::token(text_from(s, k), i, c), k) == syntax::token(
                s,
                i + k,
                c,
            ),
        forall|lower: char, upper: char|
            position_in_whole(#[trigger] syntax::letter(text_from(s, k), i, lower, upper), k)
                == syntax::letter(s, i + k, lower, upper),
        forall|c: char| #[trigger]
            syntax::token(text_from(s, k), i, c) matches Some(end) ==> placed(s, k, end) && i
                < end,
        forall|lower: char, upper: char| #[trigger]
            syntax::letter(text_from(s, k), i, lower, upper) matches Some(end) ==> placed(
                s,
                k,
                end,
            ) && i < end,
{
    lemma_run_end_ahead(s, k, i, CharClass::Whitespace);
}

/// An identifier in the text from `k` on is the one at that place of the
/// whole text.
pub proof fn lemma_identifier_ahead(s: Seq<char>, k: int, i: int)
    requires
        placed(s, k, i),
    ensures
        position_in_whole(syntax::identifier(text_from(s, k), i), k) == syntax::identifier(
            s,
            i + k,
        ),
        syntax::identifier(text_from(s, k), i) matches Some(end) ==> placed(s, k, end) && i < end
            && text_from(s, k).subrange(i, end) == s.subrange(i + k, end + k),
{
    let t = text_from(s, k);
    if i < t.len() {
        lemma_run_end_ahead(s, k, i + 1, CharClass::IdentifierContinue);
        if let Some(end) = syntax::identifier(t, i) {
            lemma_part_ahead(s, k, i, end);
        }
    }
}

/// A decimal literal in the text from `k` on is the one at that place of
/// the whole text.
pub proof fn lemma_number_ahead(s: Seq<char>, k: int, i: int)
    requires
        placed(s, k, i),
    ensures
        result_in_whole(syntax::number(text_from(s, k), i), k) == syntax::number(s, i + k),
        syntax::number(text_from(s, k), i) matches Ok((end, _)) ==> placed(s, k, end) && i < end,
{
    let t = text_from(s, k);
    lemma_token_ahead(s, k, i);
    let start = syntax::skip(t, i);
    lemma_run_end_ahead(s, k, start, CharClass::DecimalDigit);
    let end = run_end(t, start, CharClass::DecimalDigit);
    lemma_part_ahead(s, k, start, end);
}

/// A hexadecimal literal in the text from `k` on is the one at that place
/// of the whole text.
pub proof fn lemma_hex_number_ahead(s: Seq<char>, k: int, i: int)
    requires
        placed(s, k, i),
    ensures
        result_in_whole(syntax::hex_number(text_from(s, k), i), k) == syntax::hex_number(s, i + k),
        syntax::hex_number(text_from(s, k), i) matches Ok((end, _)) ==> placed(s, k, end) && i
            < end,
{
    let t = text_from(s, k);
    lemma_token_ahead(s, k, i);
    if let Some(after) = syntax::token(t, i, '$') {
        lemma_token_ahead(s, k, after);
        let start = syntax::skip(t, after);
        lemma_run_end_ahead(s, k, start, CharClass::HexDigit);
        let end = run_end(t, start, CharClass::HexDigit);
        lemma_part_ahead(s, k, start, end);
    }
}

/// A label in the text from `k` on is the one at that place of the whole
/// text.
pub proof fn lemma_label_ahead(s: Seq<char>, k: int, i: int)
    requires
        placed(s, k, i),
    ensures
        in_whole(syntax::relative(text_from(s, k), i), k) == syntax::relative(s, i + k),
        in_whole(syntax::label(text_from(s, k), i), k) == syntax::label(s, i + k),
        syntax::label(text_from(s, k), i) matches Some((end, _)) ==> placed(s, k, end) && i < end,
{
    let t = text_from(s, k);
    lemma_token_ahead(s, k, i);
    let start = syntax::skip(t, i);
    lemma_identifier_ahead(s, k, start);
    if start < t.len() {
        lemma_run_end_ahead(s, k, start, CharClass::Exactly(t[start]));
        lemma_run_end_ahead(s, k, start + 1, CharClass::Exactly(t[start]));
    }
}

/// An operator in the text from `k` on is the one at that place of the
/// whole text.
pub proof fn lemma_operator_ahead(s: Seq<char>, k: int, i: int)
    requires
        placed(s, k, i),
    ensures
        in_whole(syntax::additive_operator(text_from(s, k), i), k) == syntax::additive_operator(
            s,
            i + k,
        ),
        in_whole(syntax::multiplicative_operator(text_from(s, k), i), k)
            == syntax::multiplicative_operator(s, i + k),
        syntax::additive_operator(text_from(s, k), i) matches Some((end, _)) ==> placed(s, k, end)
            && i < end,
        syntax::multiplicative_operator(text_from(s, k), i) matches Some((end, _)) ==> placed(
            s,
            k,
            end,
        ) && i < end,
{
    lemma_token_ahead(s, k, i);
}

/// Whether what a rule of expressions found at `i` in the text from `k` on
/// is what it finds at that place in the whole text, and ends inside the
/// text and after `i`.
pub open spec fn same_ahead(
    ahead: Option<(int, ExpressionView)>,
    whole: Option<(int, ExpressionView)>,
    s: Seq<char>,
    k: int,
    i: int,
) -> bool {
    &&& in_whole(ahead, k) == whole
    &&& ahead matches Some((end, _)) ==> placed(s, k, end) && i < end
}

/// As `same_ahead`, for what follows a first operand.
pub open spec fn same_tail_ahead<T>(ahead: (int, T), whole: (int, T), s: Seq<char>, k: int, i: int) -> bool {
    &&& whole == (ahead.0 + k, ahead.1)
    &&& placed(s, k, ahead.0)
    &&& i <= ahead.0
}

/// An expression in the text from `k` on is the one at that place of the
/// whole text.
pub proof fn lemma_expression_ahead(s: Seq<char>, k: int, i: int)
    requires
        placed(s, k, i),
    ensures
        same_ahead(syntax::expression(text_from(s, k), i), syntax::expression(s, i + k), s, k, i),
    decreases s.len() - k - i, 5int,
{
    let t = text_from(s, k);
    lemma_term_ahead(s, k, i);
    if let Some((j, first)) = syntax::term(t, i) {
        lemma_additive_tail_ahead(s, k, j, first);
    }
}

/// What follows a term in the text from `k` on is what follows it at that
/// place of the whole text.
pub proof fn lemma_additive_tail_ahead(s: Seq<char>, k: int, i: int, left: ExpressionView)
    requires
        placed(s, k, i),
    ensures
        same_tail_ahead(
            syntax::additive_tail(text_from(s, k), i, left),
            syntax::additive_tail(s, i + k, left),
            s,
            k,
            i,
        ),
    decreases s.len() - k - i, 4int,
{
    let t = text_from(s, k);
    lemma_operator_ahead(s, k, i);
    if let Some((j, operator)) = syntax::additive_operator(t, i) {
        lemma_term_ahead(s, k, j);
        if let Some((m, right)) = syntax::term(t, j) {
            lemma_additive_tail_ahead(s, k, m, syntax::binary(operator, left, right));
        }
    }
}

/// A term in the text from `k` on is the one at that place of the whole
/// text.
pub proof fn lemma_term_ahead(s: Seq<char>, k: int, i: int)
    requires
        placed(s, k, i),
    ensures
        same_ahead(syntax::term(text_from(s, k), i), syntax::term(s, i + k), s, k, i),
    decreases s.len() - k - i, 3int,
{
    let t = text_from(s, k);
    lemma_top_expression_ahead(s, k, i);
    if let Some((j, first)) = syntax::top_expression(t, i) {
        lemma_multiplicative_tail_ahead(s, k, j, first);
    }
}

/// What follows an atom in the text from `k` on is what follows it at that
/// place of the whole text.
pub proof fn lemma_multiplicative_tail_ahead(s: Seq<char>, k: int, i: int, left: ExpressionView)
    requires
        placed(s, k, i),
    ensures
        same_tail_ahead(
            syntax::multiplicative_tail(text_from(s, k), i, left),
            syntax::multiplicative_tail(s, i + k, left),
            s,
            k,
            i,
        ),
    decreases s.len() - k - i, 2int,
{
    let t = text_from(s, k);
    lemma_operator_ahead(s, k, i);
    if let Some((j, operator)) = syntax::multiplicative_operator(t, i) {
        lemma_top_expression_ahead(s, k, j);
        if let Some((m, right)) = syntax::top_expression(t, j) {
            lemma_multiplicative_tail_ahead(s, k, m, syntax::binary(operator, left, right));
        }
    }
}

/// An atom in the text from `k` on is the one at that place of the whole
/// text.
pub proof fn lemma_top_expression_ahead(s: Seq<char>, k: int, i: int)
    requires
        placed(s, k, i),
    ensures
        same_ahead(
            syntax::top_expression(text_from(s, k), i),
            syntax::top_expression(s, i + k),
            s,
            k,
            i,
        ),
    decreases s.len() - k - i, 1int,
{
    lemma_paren_expression_ahead(s, k, i);
    lemma_number_ahead(s, k, i);
    lemma_hex_number_ahead(s, k, i);
    lemma_call_ahead(s, k, i);
    lemma_label_ahead(s, k, i);
}

/// An expression in parentheses in the text from `k` on is the one at that
/// place of the whole text.
pub proof fn lemma_paren_expression_ahead(s: Seq<char>, k: int, i: int)
    requires
        placed(s, k, i),
    ensures
        same_ahead(
            syntax::paren_expression(text_from(s, k), i),
            syntax::paren_expression(s, i + k),
            s,
            k,
            i,
        ),
    decreases s.len() - k - i, 0int,
{
    let t = text_from(s, k);
    lemma_token_ahead(s, k, i);
    if let Some(j) = syntax::token(t, i, '(') {
        lemma_expression_ahead(s, k, j);
        if let Some((m, inner)) = syntax::expression(t, j) {
            lemma_token_ahead(s, k, m);
        }
    }
}

/// A call in the text from `k` on is the one at that place of the whole
/// text.
pub proof fn lemma_call_ahead(s: Seq<char>, k: int, i: int)
    requires
        placed(s, k, i),
    ensures
        same_ahead(syntax::call(text_from(s, k), i), syntax::call(s, i + k), s, k, i),
    decreases s.len() - k - i, 0int,
{
    let t = text_from(s, k);
    lemma_token_ahead(s, k, i);
    let start = syntax::skip(t, i);
    lemma_identifier_ahead(s, k, start);
    if let Some(name_end) = syntax::identifier(t, start) {
        lemma_token_ahead(s, k, name_end);
        if let Some(j) = syntax::token(t, name_end, '(') {
            lemma_arguments_ahead(s, k, j);
            lemma_token_ahead(s, k, syntax::arguments(t, j).0);
        }
    }
}

/// The arguments in the text from `k` on are those at that place of the
/// whole text.
pub proof fn lemma_arguments_ahead(s: Seq<char>, k: int, i: int)
    requires
        placed(s, k, i),
    ensures
        same_tail_ahead(
            syntax::arguments(text_from(s, k), i),
            syntax::arguments(s, i + k),
            s,
            k,
            i,
        ),
    decreases s.len() - k - i, 7int,
{
    let t = text_from(s, k);
    lemma_expression_ahead(s, k, i);
    if let Some((j, first)) = syntax::expression(t, i) {
        lemma_argument_tail_ahead(s, k, j, seq![first]);
    }
}

/// The arguments after the first in the text from `k` on are those at that
/// place of the whole text.
pub proof fn lemma_argument_tail_ahead(s: Seq<char>, k: int, i: int, args: Seq<ExpressionView>)
    requires
        placed(s, k, i),
    ensures
        same_tail_ahead(
            syntax::argument_tail(text_from(s, k), i, args),
            syntax::argument_tail(s, i + k, args),
            s,
            k,
            i,
        ),
    decreases s.len() - k - i, 6int,
{
    let t = text_from(s, k);
    lemma_token_ahead(s, k, i);
    if let Some(j) = syntax::token(t, i, ',') {
        lemma_expression_ahead(s, k, j);
        if let Some((m, next)) = syntax::expression(t, j) {
            lemma_argument_tail_ahead(s, k, m, args.push(next));
        }
    }
}

/// As `same_ahead`, for an operand.
pub open spec fn same_operand_ahead(
    ahead: Option<(int, ExpressionView, OpcodeModeView)>,
    whole: Option<(int, ExpressionView, OpcodeModeView)>,
    s: Seq<char>,
    k: int,
    i: int,
) -> bool {
    &&& operand_in_whole(ahead, k) == whole
    &&& ahead matches Some((end, _, _)) ==> placed(s, k, end) && i < end
}

/// `,` and `y` in the text from `k` on are those at that place of the whole
/// text.
proof fn lemma_comma_y_ahead(s: Seq<char>, k: int, i: int)
    requires
        placed(s, k, i),
    ensures
        syntax::token(text_from(s, k), i, ',') matches Some(after) ==> {
            &&& syntax::token(s, i + k, ',') == Some(after + k)
            &&& position_in_whole(syntax::letter(text_from(s, k), after, 'y', 'Y'), k)
                == syntax::letter(s, after + k, 'y', 'Y')
            &&& syntax::letter(text_from(s, k), after, 'y', 'Y') matches Some(end) ==> placed(
                s,
                k,
                end,
            ) && i <= end
        },
        syntax::token(text_from(s, k), i, ',') is None ==> syntax::token(s, i + k, ',') is None,
{
    lemma_token_ahead(s, k, i);
    if let Some(after) = syntax::token(text_from(s, k), i, ',') {
        lemma_token_ahead(s, k, after);
    }
}

/// An indexed expression in parentheses in the text from `k` on is the one
/// at that place of the whole text.
proof fn lemma_indexed_in_parens_ahead(s: Seq<char>, k: int, i: int, lower: char, upper: char)
    requires
        placed(s, k, i),
    ensures
        same_ahead(
            syntax::indexed_in_parens(text_from(s, k), i, lower, upper),
            syntax::indexed_in_parens(s, i + k, lower, upper),
            s,
            k,
            i,
        ),
{
    let t = text_from(s, k);
    lemma_token_ahead(s, k, i);
    if let Some(j) = syntax::token(t, i, '(') {
        lemma_expression_ahead(s, k, j);
        if let Some((m, value)) = syntax::expression(t, j) {
            lemma_token_ahead(s, k, m);
            if let Some(l) = syntax::token(t, m, ',') {
                lemma_token_ahead(s, k, l);
                if let Some(n) = syntax::letter(t, l, lower, upper) {
                    lemma_token_ahead(s, k, n);
                }
            }
        }
    }
}

/// An expression in square brackets in the text from `k` on is the one at
/// that place of the whole text.
proof fn lemma_long_indirect_ahead(s: Seq<char>, k: int, i: int)
    requires
        placed(s, k, i),
    ensures
        same_operand_ahead(
            syntax::long_indirect(text_from(s, k), i),
            syntax::long_indirect(s, i + k),
            s,
            k,
            i,
        ),
{
    let t = text_from(s, k);
    lemma_token_ahead(s, k, i);
    if let Some(j) = syntax::token(t, i, '[') {
        lemma_expression_ahead(s, k, j);
        if let Some((m, value)) = syntax::expression(t, j) {
            lemma_token_ahead(s, k, m);
        }
    }
}

/// A pair of expressions in the text from `k` on is the one at that place
/// of the whole text.
proof fn lemma_address_pair_ahead(s: Seq<char>, k: int, i: int)
    requires
        placed(s, k, i),
    ensures
        same_operand_ahead(
            syntax::address_pair(text_from(s, k), i),
            syntax::address_pair(s, i + k),
            s,
            k,
            i,
        ),
{
    let t = text_from(s, k);
    lemma_expression_ahead(s, k, i);
    if let Some((j, first)) = syntax::expression(t, i) {
        lemma_token_ahead(s, k, j);
        if let Some(m) = syntax::token(t, j, ',') {
            lemma_expression_ahead(s, k, m);
        }
    }
}

/// An operand in the text from `k` on is the one at that place of the
/// whole text.
pub proof fn lemma_operand_ahead(s: Seq<char>, k: int, i: int)
    requires
        placed(s, k, i),
    ensures
        same_operand_ahead(syntax::operand(text_from(s, k), i), syntax::operand(s, i + k), s, k, i),
{
    let t = text_from(s, k);
    lemma_paren_expression_ahead(s, k, i);
    if let Some((j, value)) = syntax::paren_expression(t, i) {
        lemma_comma_y_ahead(s, k, j);
        lemma_token_ahead(s, k, j);
    }
    assert(same_operand_ahead(syntax::indirect_y(t, i), syntax::indirect_y(s, i + k), s, k, i));
    assert(same_operand_ahead(syntax::indirect(t, i), syntax::indirect(s, i + k), s, k, i));
    lemma_indexed_in_parens_ahead(s, k, i, 'x', 'X');
    assert(same_operand_ahead(syntax::x_indirect(t, i), syntax::x_indirect(s, i + k), s, k, i));
    lemma_address_pair_ahead(s, k, i);
    lemma_expression_ahead(s, k, i);
    assert(same_operand_ahead(syntax::address(t, i), syntax::address(s, i + k), s, k, i));
    lemma_token_ahead(s, k, i);
    if let Some(j) = syntax::token(t, i, '#') {
        lemma_expression_ahead(s, k, j);
    }
    assert(same_operand_ahead(syntax::immediate(t, i), syntax::immediate(s, i + k), s, k, i));
    lemma_long_indirect_ahead(s, k, i);
    if let Some((j, value, _)) = syntax::long_indirect(t, i) {
        lemma_comma_y_ahead(s, k, j);
    }
    assert(same_operand_ahead(
        syntax::long_indirect_y(t, i),
        syntax::long_indirect_y(s, i + k),
        s,
        k,
        i,
    ));
    lemma_indexed_in_parens_ahead(s, k, i, 's', 'S');
    if let Some((j, value)) = syntax::indexed_in_parens(t, i, 's', 'S') {
        lemma_comma_y_ahead(s, k, j);
    }
    assert(same_operand_ahead(
        syntax::stack_indirect_y(t, i),
        syntax::stack_indirect_y(s, i + k),
        s,
        k,
        i,
    ));
}

/// A processor operation in the text from `k` on is the one at that place
/// of the whole text.
pub proof fn lemma_opcode_ahead(s: Seq<char>, k: int, i: int)
    requires
        placed(s, k, i),
    ensures
        result_in_whole(syntax::opcode(text_from(s, k), i), k) == syntax::opcode(s, i + k),
        result_in_whole(syntax::statement(text_from(s, k), i), k) == syntax::statement(s, i + k),
        syntax::opcode(text_from(s, k), i) matches Ok((end, _)) ==> placed(s, k, end) && i < end,
{
    let t = text_from(s, k);
    lemma_token_ahead(s, k, i);
    let start = syntax::skip(t, i);
    lemma_identifier_ahead(s, k, start);
    if let Some(name_end) = syntax::identifier(t, start) {
        lemma_token_ahead(s, k, name_end);
        if let Some(j) = syntax::token(t, name_end, '.') {
            lemma_token_ahead(s, k, j);
        }
        match syntax::width_suffix(t, name_end) {
            Some((j, width)) => {
                lemma_operand_ahead(s, k, j);
            },
            None => {
                lemma_operand_ahead(s, k, name_end);
            },
        }
    }
}

/// An assignment in the text from `k` on is the one at that place of the
/// whole text.
pub proof fn lemma_assignment_ahead(s: Seq<char>, k: int, i: int)
    requires
        placed(s, k, i),
    ensures
        result_in_whole(syntax::assignment(text_from(s, k), i), k) == syntax::assignment(s, i + k),
        syntax::assignment(text_from(s, k), i) matches Ok((end, _)) ==> placed(s, k, end) && i
            < end,
{
    let t = text_from(s, k);
    lemma_token_ahead(s, k, i);
    let start = syntax::skip(t, i);
    lemma_identifier_ahead(s, k, start);
    if let Some(name_end) = syntax::identifier(t, start) {
        lemma_token_ahead(s, k, name_end);
        if let Some(j) = syntax::token(t, name_end, '=') {
            lemma_expression_ahead(s, k, j);
        }
    }
}

/// What is left after a rule that ended at `end` in the text from `k` on
/// is what is left after that place in the whole text.
pub proof fn lemma_remainder_ahead(s: Seq<char>, k: int, end: int)
    requires
        placed(s, k, end),
    ensures
        syntax::remainder(text_from(s, k), end) == syntax::remainder(s, end + k),
{
    lemma_token_ahead(s, k, end);
    assert(syntax::remainder(text_from(s, k), end) =~= syntax::remainder(s, end + k));
}

} // verus!
