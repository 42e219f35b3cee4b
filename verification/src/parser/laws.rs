//! What holds of the grammar for every text.

use crate::parser::ast::{
    ExpressionView, LabelView, Number, NumberWidth, OpcodeModeView, StatementView,
};
use crate::parser::error::ParseError;
use crate::parser::lexical::{
    is_decimal_digit, is_hex_digit, is_identifier_continue, is_identifier_start, is_operator,
    lemma_run_end, lemma_run_end_unique, run_end, CharClass,
};
use crate::parser::locality::{
    lemma_assignment_ahead, lemma_expression_ahead, lemma_hex_number_ahead,
    lemma_identifier_ahead, lemma_number_ahead, lemma_opcode_ahead, lemma_operand_ahead,
    lemma_paren_expression_ahead, lemma_remainder_ahead, lemma_term_ahead,
    lemma_top_expression_ahead, text_from,
};
use crate::parser::syntax;
use vstd::prelude::*;

verus! {

/// A text made of decimal digits alone.
pub open spec fn is_decimal_text(text: Seq<char>) -> bool {
    text.len() > 0 && forall|k: int| 0 <= k < text.len() ==> is_decimal_digit(#[trigger] text[k])
}

/// A text made of hexadecimal digits alone.
pub open spec fn is_hex_text(text: Seq<char>) -> bool {
    text.len() > 0 && forall|k: int| 0 <= k < text.len() ==> is_hex_digit(#[trigger] text[k])
}

/// Nothing follows an atom that reaches the end of the text: as a term and
/// as an expression it stays what it is.
proof fn lemma_nothing_follows(s: Seq<char>, value: ExpressionView)
    ensures
        syntax::multiplicative_tail(s, s.len() as int, value) == (s.len() as int, value),
        syntax::additive_tail(s, s.len() as int, value) == (s.len() as int, value),
        syntax::remainder(s, s.len() as int) == Seq::<char>::empty(),
{
    assert(syntax::skip(s, s.len() as int) == s.len());
    assert(syntax::remainder(s, s.len() as int) =~= Seq::<char>::empty());
}

/// A text of decimal digits that denote a number of at most 32 bits parses
/// as an expression, to that number without a width, and nothing is left.
pub proof fn law_decimal_literal(digits: Seq<char>)
    requires
        is_decimal_text(digits),
        syntax::digits_value(digits, 10) <= u32::MAX,
    ensures
        syntax::parse_expression(digits) == Ok::<_, ParseError>(
            (
                Seq::<char>::empty(),
                ExpressionView::Number(
                    Number {
                        value: syntax::digits_value(digits, 10) as u32,
                        width: NumberWidth::Unspecified,
                    },
                ),
            ),
        ),
{
    let s = digits;
    let end = s.len() as int;
    assert(is_decimal_digit(s[0]));
    assert(syntax::skip(s, 0) == 0);
    lemma_run_end_unique(s, 0, CharClass::DecimalDigit, end);
    assert(s.subrange(0, end) =~= s);
    assert(syntax::paren_expression(s, 0) is None);
    let value = ExpressionView::Number(
        Number { value: syntax::digits_value(digits, 10) as u32, width: NumberWidth::Unspecified },
    );
    assert(syntax::top_expression(s, 0) == Some((end, value)));
    lemma_nothing_follows(s, value);
    assert(syntax::term(s, 0) == Some((end, value)));
    assert(syntax::expression(s, 0) == Some((end, value)));
}

/// The text of a hexadecimal literal: `$` and the digits.
pub open spec fn hex_literal(digits: Seq<char>) -> Seq<char> {
    seq!['$'] + digits
}

/// What the rules say of a hexadecimal literal with nothing around it: it
/// is no expression in parentheses and no decimal literal, and its digits
/// are the run that follows the `$`.
proof fn lemma_hex_literal(digits: Seq<char>)
    requires
        is_hex_text(digits),
    ensures
        syntax::paren_expression(hex_literal(digits), 0) is None,
        syntax::number(hex_literal(digits), 0) is Err,
        syntax::token(hex_literal(digits), 0, '$') == Some(1int),
        syntax::skip(hex_literal(digits), 1) == 1,
        run_end(hex_literal(digits), 1, CharClass::HexDigit) == 1 + digits.len(),
        hex_literal(digits).subrange(1, 1 + digits.len() as int) == digits,
{
    let s = hex_literal(digits);
    let end = s.len() as int;
    assert(s[0] == '$');
    assert(syntax::skip(s, 0) == 0);
    assert(is_hex_digit(digits[0]) && s[1] == digits[0]);
    assert(syntax::skip(s, 1) == 1);
    assert(run_end(s, 0, CharClass::DecimalDigit) == 0);
    assert forall|k: int| 1 <= k < end implies CharClass::HexDigit.contains(#[trigger] s[k]) by {
        assert(s[k] == digits[k - 1]);
    }
    lemma_run_end_unique(s, 1, CharClass::HexDigit, end);
    assert(s.subrange(1, end) =~= digits);
}

/// A `$` followed by hexadecimal digits that denote a number of at most 32
/// bits parses as an expression, to that number, and nothing is left. The
/// width goes by the count of the digits alone: one byte for two digits,
/// two bytes for four, and none for any other count.
pub proof fn law_hex_literal(digits: Seq<char>)
    requires
        is_hex_text(digits),
        syntax::digits_value(digits, 16) <= u32::MAX,
    ensures
        syntax::parse_expression(hex_literal(digits)) == Ok::<_, ParseError>(
            (
                Seq::<char>::empty(),
                ExpressionView::Number(
                    Number {
                        value: syntax::digits_value(digits, 16) as u32,
                        width: if digits.len() == 2 {
                            NumberWidth::OneByte
                        } else if digits.len() == 4 {
                            NumberWidth::TwoBytes
                        } else {
                            NumberWidth::Unspecified
                        },
                    },
                ),
            ),
        ),
{
    let s = hex_literal(digits);
    let end = s.len() as int;
    lemma_hex_literal(digits);
    let value = ExpressionView::Number(
        Number {
            value: syntax::digits_value(digits, 16) as u32,
            width: syntax::hex_width(digits.len() as int),
        },
    );
    assert(syntax::hex_number(s, 0) == Ok::<_, ParseError>((end, value->Number_0)));
    assert(syntax::top_expression(s, 0) == Some((end, value)));
    lemma_nothing_follows(s, value);
    assert(syntax::term(s, 0) == Some((end, value)));
    assert(syntax::expression(s, 0) == Some((end, value)));
}

/// A text of decimal digits that denote a number of more than 32 bits is
/// no decimal literal, for the overflow, and no expression at all.
pub proof fn law_decimal_overflow(digits: Seq<char>)
    requires
        is_decimal_text(digits),
        syntax::digits_value(digits, 10) > u32::MAX,
    ensures
        syntax::parse_number(digits) == Err::<(Seq<char>, Number), _>(
            ParseError::NumericOverflow,
        ),
        syntax::parse_expression(digits) == Err::<(Seq<char>, ExpressionView), _>(
            ParseError::ExhaustedAlternatives,
        ),
{
    let s = digits;
    let end = s.len() as int;
    assert(is_decimal_digit(s[0]));
    assert(syntax::skip(s, 0) == 0);
    lemma_run_end_unique(s, 0, CharClass::DecimalDigit, end);
    assert(s.subrange(0, end) =~= s);
    assert(syntax::number(s, 0) == Err::<(int, Number), _>(ParseError::NumericOverflow));
    assert(syntax::paren_expression(s, 0) is None);
    assert(syntax::hex_number(s, 0) is Err);
    assert(syntax::identifier(s, 0) is None);
    assert(syntax::call(s, 0) is None);
    assert(syntax::label(s, 0) is None);
    assert(syntax::top_expression(s, 0) is None);
    assert(syntax::term(s, 0) is None);
}

/// A `$` followed by hexadecimal digits that denote a number of more than
/// 32 bits is no hexadecimal literal, for the overflow, and no expression
/// at all.
pub proof fn law_hex_overflow(digits: Seq<char>)
    requires
        is_hex_text(digits),
        syntax::digits_value(digits, 16) > u32::MAX,
    ensures
        syntax::parse_hex_number(hex_literal(digits)) == Err::<(Seq<char>, Number), _>(
            ParseError::NumericOverflow,
        ),
        syntax::parse_expression(hex_literal(digits)) == Err::<(Seq<char>, ExpressionView), _>(
            ParseError::ExhaustedAlternatives,
        ),
{
    let s = hex_literal(digits);
    lemma_hex_literal(digits);
    assert(s[0] == '$');
    assert(syntax::skip(s, 0) == 0);
    assert(syntax::hex_number(s, 0) == Err::<(int, Number), _>(ParseError::NumericOverflow));
    assert(syntax::identifier(s, 0) is None);
    assert(syntax::call(s, 0) is None);
    assert(syntax::label(s, 0) is None);
    assert(syntax::top_expression(s, 0) is None);
    assert(syntax::term(s, 0) is None);
}

/// Every rule that matches takes at least one character and ends inside
/// the text. So the test `advanced`, which the rules of expressions make
/// before they go on after a nested rule, never fails.
pub proof fn lemma_rules_advance(s: Seq<char>, i: int)
    requires
        0 <= i <= s.len(),
    ensures
        syntax::top_expression(s, i) matches Some((end, _)) ==> i < end <= s.len(),
        syntax::term(s, i) matches Some((end, _)) ==> i < end <= s.len(),
        syntax::expression(s, i) matches Some((end, _)) ==> i < end <= s.len(),
        syntax::operand(s, i) matches Some((end, _, _)) ==> i < end <= s.len(),
        syntax::statement(s, i) matches Ok((end, _)) ==> i < end <= s.len(),
        syntax::assignment(s, i) matches Ok((end, _)) ==> i < end <= s.len(),
{
    assert(text_from(s, 0) =~= s);
    lemma_top_expression_ahead(s, 0, i);
    lemma_term_ahead(s, 0, i);
    lemma_expression_ahead(s, 0, i);
    lemma_operand_ahead(s, 0, i);
    lemma_opcode_ahead(s, 0, i);
    lemma_assignment_ahead(s, 0, i);
}

/// The parse of the text that begins at `k` of a text is what the grammar
/// gives at `k` of the whole text. What comes before a place has no part in
/// what is found there.
pub proof fn law_parse_looks_ahead_only(s: Seq<char>, k: int)
    requires
        0 <= k <= s.len(),
    ensures
        syntax::parse_identifier(text_from(s, k)) == (match syntax::identifier(s, k) {
            Some(end) => Ok((text_from(s, end), s.subrange(k, end))),
            None => Err(ParseError::Lexical),
        }),
        syntax::parse_number(text_from(s, k)) == syntax::with_remainder(s, syntax::number(s, k)),
        syntax::parse_hex_number(text_from(s, k)) == syntax::with_remainder(
            s,
            syntax::hex_number(s, k),
        ),
        syntax::parse_expression(text_from(s, k)) == syntax::with_remainder(
            s,
            syntax::or_exhausted(syntax::expression(s, k)),
        ),
        syntax::parse_statement(text_from(s, k)) == syntax::with_remainder(
            s,
            syntax::statement(s, k),
        ),
        syntax::parse_assignment(text_from(s, k)) == syntax::with_remainder(
            s,
            syntax::assignment(s, k),
        ),
{
    let t = text_from(s, k);
    lemma_identifier_ahead(s, k, 0);
    if let Some(end) = syntax::identifier(t, 0) {
        assert(t.subrange(end, t.len() as int) =~= text_from(s, end + k));
    }
    lemma_number_ahead(s, k, 0);
    if let Ok((end, _)) = syntax::number(t, 0) {
        lemma_remainder_ahead(s, k, end);
    }
    lemma_hex_number_ahead(s, k, 0);
    if let Ok((end, _)) = syntax::hex_number(t, 0) {
        lemma_remainder_ahead(s, k, end);
    }
    lemma_expression_ahead(s, k, 0);
    if let Some((end, _)) = syntax::expression(t, 0) {
        lemma_remainder_ahead(s, k, end);
    }
    lemma_opcode_ahead(s, k, 0);
    if let Ok((end, _)) = syntax::statement(t, 0) {
        lemma_remainder_ahead(s, k, end);
    }
    lemma_assignment_ahead(s, k, 0);
    if let Ok((end, _)) = syntax::assignment(t, 0) {
        lemma_remainder_ahead(s, k, end);
    }
}

/// Whether `rest` is what a parse of `s` may leave: the text from some
/// place of `s` on.
pub open spec fn is_left_of(rest: Seq<char>, s: Seq<char>) -> bool {
    rest.len() <= s.len() && rest == text_from(s, s.len() - rest.len())
}

/// What is left after a rule that ended inside the text is the text from
/// some place on.
proof fn lemma_remainder_is_left(s: Seq<char>, end: int)
    requires
        0 <= end <= s.len(),
    ensures
        is_left_of(syntax::remainder(s, end), s),
{
    lemma_run_end(s, end, CharClass::Whitespace);
}

/// What a parse leaves is the text from some place on, and a second parse,
/// of what is left, gives what the grammar gives at that place of the first
/// text: the first parse has no part in the second.
pub proof fn law_parse_of_the_rest(s: Seq<char>)
    ensures
        syntax::parse_expression(s) matches Ok((rest, _)) ==> is_left_of(rest, s),
        syntax::parse_statement(s) matches Ok((rest, _)) ==> is_left_of(rest, s),
        syntax::parse_assignment(s) matches Ok((rest, _)) ==> is_left_of(rest, s),
        forall|rest: Seq<char>| #[trigger]
            is_left_of(rest, s) ==> {
                let k = s.len() - rest.len();
                &&& syntax::parse_expression(rest) == syntax::with_remainder(
                    s,
                    syntax::or_exhausted(syntax::expression(s, k)),
                )
                &&& syntax::parse_statement(rest) == syntax::with_remainder(
                    s,
                    syntax::statement(s, k),
                )
                &&& syntax::parse_assignment(rest) == syntax::with_remainder(
                    s,
                    syntax::assignment(s, k),
                )
            },
{
    assert(text_from(s, 0) =~= s);
    lemma_expression_ahead(s, 0, 0);
    if let Some((end, _)) = syntax::expression(s, 0) {
        lemma_remainder_is_left(s, end);
    }
    lemma_opcode_ahead(s, 0, 0);
    if let Ok((end, _)) = syntax::statement(s, 0) {
        lemma_remainder_is_left(s, end);
    }
    lemma_assignment_ahead(s, 0, 0);
    if let Ok((end, _)) = syntax::assignment(s, 0) {
        lemma_remainder_is_left(s, end);
    }
    assert forall|rest: Seq<char>| #[trigger] is_left_of(rest, s) implies {
        let k = s.len() - rest.len();
        &&& syntax::parse_expression(rest) == syntax::with_remainder(
            s,
            syntax::or_exhausted(syntax::expression(s, k)),
        )
        &&& syntax::parse_statement(rest) == syntax::with_remainder(s, syntax::statement(s, k))
        &&& syntax::parse_assignment(rest) == syntax::with_remainder(s, syntax::assignment(s, k))
    } by {
        law_parse_looks_ahead_only(s, s.len() - rest.len());
    }
}

/// A text made of `length` times the character `sign`.
pub open spec fn repeated(sign: char, length: nat) -> Seq<char> {
    Seq::new(length, |i: int| sign)
}

/// A run of `+` parses as an expression, to the relative label whose depth
/// is the length of the run; a run of `-`, to the one whose depth is the
/// length with a minus sign. Nothing is left.
pub proof fn law_relative_label(sign: char, length: nat)
    requires
        sign == '+' || sign == '-',
        1 <= length <= i32::MAX,
    ensures
        syntax::parse_expression(repeated(sign, length)) == Ok::<_, ParseError>(
            (
                Seq::<char>::empty(),
                ExpressionView::Variable(
                    LabelView::Relative(
                        if sign == '+' {
                            length as int
                        } else {
                            -(length as int)
                        },
                    ),
                ),
            ),
        ),
{
    let s = repeated(sign, length);
    let end = length as int;
    assert(s[0] == sign);
    assert(syntax::skip(s, 0) == 0);
    assert(run_end(s, 0, CharClass::DecimalDigit) == 0);
    lemma_run_end_unique(s, 0, CharClass::Exactly(sign), end);
    assert(syntax::paren_expression(s, 0) is None);
    assert(syntax::number(s, 0) is Err);
    assert(syntax::hex_number(s, 0) is Err);
    assert(syntax::identifier(s, 0) is None);
    assert(syntax::call(s, 0) is None);
    let depth = if sign == '+' {
        end
    } else {
        -end
    };
    assert(syntax::relative(s, 0) == Some((end, depth)));
    let value = ExpressionView::Variable(LabelView::Relative(depth));
    assert(syntax::label(s, 0) == Some((end, LabelView::Relative(depth))));
    assert(syntax::top_expression(s, 0) == Some((end, value)));
    lemma_nothing_follows(s, value);
    assert(syntax::term(s, 0) == Some((end, value)));
    assert(syntax::expression(s, 0) == Some((end, value)));
}

/// Where the operand of a processor operation begins, after the mnemonic
/// and the width suffix: a place inside the text.
proof fn lemma_operand_start(s: Seq<char>)
    ensures
        syntax::identifier(s, syntax::skip(s, 0)) matches Some(name_end) ==> {
            &&& 0 <= name_end <= s.len()
            &&& syntax::width_suffix(s, name_end) matches Some((after, _)) ==> 0 <= after
                <= s.len()
        },
{
    lemma_run_end(s, 0, CharClass::Whitespace);
    let start = syntax::skip(s, 0);
    lemma_run_end(s, start + 1, CharClass::IdentifierContinue);
}

/// A statement whose operand is taken as indirect leaves no text that
/// begins with an operator character: an expression in parentheses before
/// an operator is the start of a longer expression, and is read as one.
pub proof fn law_indirect_before_no_operator(s: Seq<char>)
    ensures
        syntax::parse_statement(s) matches Ok((rest, StatementView::Opcode(found))) ==> (
        found.mode is Indirect ==> rest.len() == 0 || !is_operator(rest[0])),
{
    lemma_operand_start(s);
    if let Some(name_end) = syntax::identifier(s, syntax::skip(s, 0)) {
        let operand_start = match syntax::width_suffix(s, name_end) {
            Some((after, _)) => after,
            None => name_end,
        };
        assert(text_from(s, 0) =~= s);
        lemma_paren_expression_ahead(s, 0, operand_start);
        if let Some((end, _)) = syntax::paren_expression(s, operand_start) {
            lemma_run_end(s, end, CharClass::Whitespace);
        }
    }
}

/// A statement whose operand is taken as a plain address leaves no text
/// that begins with `,` and an expression: such a second operand is never
/// left behind, the pair is taken whole.
pub proof fn law_address_leaves_no_second_operand(s: Seq<char>)
    ensures
        syntax::parse_statement(s) matches Ok((rest, StatementView::Opcode(found))) ==> (
        found.mode is Address ==> !(rest.len() > 0 && rest[0] == ',' && syntax::parse_expression(
            text_from(rest, 1),
        ) is Ok)),
{
    lemma_operand_start(s);
    if let Some(name_end) = syntax::identifier(s, syntax::skip(s, 0)) {
        let operand_start = match syntax::width_suffix(s, name_end) {
            Some((after, _)) => after,
            None => name_end,
        };
        assert(text_from(s, 0) =~= s);
        lemma_expression_ahead(s, 0, operand_start);
        if let Some((end, _)) = syntax::expression(s, operand_start) {
            lemma_run_end(s, end, CharClass::Whitespace);
            let next = syntax::skip(s, end);
            let rest = syntax::remainder(s, end);
            if next < s.len() {
                assert(text_from(rest, 1) =~= text_from(s, next + 1));
                law_parse_looks_ahead_only(s, next + 1);
            }
        }
    }
}

/// An identifier is the longest start of the text that is made of one
/// character that may begin an identifier and of characters that may follow
/// it. The text is the identifier and what is left, in that order, and it
/// is no identifier only if it begins with no such character.
pub proof fn law_identifier_is_longest(s: Seq<char>)
    ensures
        match syntax::parse_identifier(s) {
            Ok((rest, name)) => {
                &&& name + rest == s
                &&& name.len() >= 1
                &&& is_identifier_start(name[0])
                &&& forall|k: int| 1 <= k < name.len() ==> is_identifier_continue(#[trigger] name[k])
                &&& rest.len() > 0 ==> !is_identifier_continue(rest[0])
            },
            Err(error) => {
                &&& error == ParseError::Lexical
                &&& s.len() == 0 || !is_identifier_start(s[0])
            },
        },
{
    lemma_run_end(s, 1, CharClass::IdentifierContinue);
    if let Ok((rest, name)) = syntax::parse_identifier(s) {
        assert(name + rest =~= s);
    }
}

/// Whether every operator in an expression is one of the four of
/// arithmetic.
pub open spec fn is_arithmetic(expression: ExpressionView) -> bool
    decreases expression,
{
    match expression {
        ExpressionView::Number(_) => true,
        ExpressionView::Variable(_) => true,
        ExpressionView::Binary(operator, left, right) => {
            &&& operator is Add || operator is Sub || operator is Mul || operator is Div
            &&& is_arithmetic(*left)
            &&& is_arithmetic(*right)
        },
        ExpressionView::Call(_, arguments) => forall|k: int|
            0 <= k < arguments.len() ==> is_arithmetic(#[trigger] arguments[k]),
    }
}

/// Whether every expression of a sequence is arithmetic.
pub open spec fn are_arithmetic(expressions: Seq<ExpressionView>) -> bool {
    forall|k: int| 0 <= k < expressions.len() ==> is_arithmetic(#[trigger] expressions[k])
}

/// An expression that the grammar gives is arithmetic. The lemmas below
/// say the same of each rule that has a part in an expression.
proof fn lemma_expression_is_arithmetic(s: Seq<char>, i: int)
    ensures
        syntax::expression(s, i) matches Some((_, found)) ==> is_arithmetic(found),
    decreases s.len() - i, 5int,
{
    lemma_term_is_arithmetic(s, i);
    if let Some((j, first)) = syntax::term(s, i) {
        if syntax::advanced(s, i, j) {
            lemma_additive_tail_is_arithmetic(s, j, first);
        }
    }
}

proof fn lemma_additive_tail_is_arithmetic(s: Seq<char>, i: int, left: ExpressionView)
    requires
        is_arithmetic(left),
    ensures
        is_arithmetic(syntax::additive_tail(s, i, left).1),
    decreases s.len() - i, 4int,
{
    lemma_run_end(s, i, CharClass::Whitespace);
    if let Some((j, operator)) = syntax::additive_operator(s, i) {
        lemma_term_is_arithmetic(s, j);
        if let Some((k, right)) = syntax::term(s, j) {
            if syntax::advanced(s, j, k) {
                lemma_additive_tail_is_arithmetic(s, k, syntax::binary(operator, left, right));
            }
        }
    }
}

proof fn lemma_term_is_arithmetic(s: Seq<char>, i: int)
    ensures
        syntax::term(s, i) matches Some((_, found)) ==> is_arithmetic(found),
    decreases s.len() - i, 3int,
{
    lemma_top_expression_is_arithmetic(s, i);
    if let Some((j, first)) = syntax::top_expression(s, i) {
        if syntax::advanced(s, i, j) {
            lemma_multiplicative_tail_is_arithmetic(s, j, first);
        }
    }
}

proof fn lemma_multiplicative_tail_is_arithmetic(s: Seq<char>, i: int, left: ExpressionView)
    requires
        is_arithmetic(left),
    ensures
        is_arithmetic(syntax::multiplicative_tail(s, i, left).1),
    decreases s.len() - i, 2int,
{
    lemma_run_end(s, i, CharClass::Whitespace);
    if let Some((j, operator)) = syntax::multiplicative_operator(s, i) {
        lemma_top_expression_is_arithmetic(s, j);
        if let Some((k, right)) = syntax::top_expression(s, j) {
            if syntax::advanced(s, j, k) {
                lemma_multiplicative_tail_is_arithmetic(
                    s,
                    k,
                    syntax::binary(operator, left, right),
                );
            }
        }
    }
}

proof fn lemma_top_expression_is_arithmetic(s: Seq<char>, i: int)
    ensures
        syntax::top_expression(s, i) matches Some((_, found)) ==> is_arithmetic(found),
    decreases s.len() - i, 1int,
{
    lemma_run_end(s, i, CharClass::Whitespace);
    if let Some(j) = syntax::token(s, i, '(') {
        lemma_expression_is_arithmetic(s, j);
    }
    let start = syntax::skip(s, i);
    if let Some(name_end) = syntax::identifier(s, start) {
        lemma_run_end(s, start + 1, CharClass::IdentifierContinue);
        lemma_run_end(s, name_end, CharClass::Whitespace);
        if let Some(j) = syntax::token(s, name_end, '(') {
            lemma_arguments_are_arithmetic(s, j);
        }
    }
}

proof fn lemma_arguments_are_arithmetic(s: Seq<char>, i: int)
    ensures
        are_arithmetic(syntax::arguments(s, i).1),
    decreases s.len() - i, 7int,
{
    lemma_expression_is_arithmetic(s, i);
    if let Some((j, first)) = syntax::expression(s, i) {
        if syntax::advanced(s, i, j) {
            lemma_argument_tail_is_arithmetic(s, j, seq![first]);
        }
    }
}

proof fn lemma_argument_tail_is_arithmetic(s: Seq<char>, i: int, args: Seq<ExpressionView>)
    requires
        are_arithmetic(args),
    ensures
        are_arithmetic(syntax::argument_tail(s, i, args).1),
    decreases s.len() - i, 6int,
{
    lemma_run_end(s, i, CharClass::Whitespace);
    if let Some(j) = syntax::token(s, i, ',') {
        lemma_expression_is_arithmetic(s, j);
        if let Some((k, next)) = syntax::expression(s, j) {
            if syntax::advanced(s, j, k) {
                lemma_argument_tail_is_arithmetic(s, k, args.push(next));
            }
        }
    }
}

/// The grammar writes no operator but `+`, `-`, `*` and `/`: in whatever
/// it gives as an expression, every operator is one of these four.
pub proof fn law_operators_are_arithmetic(s: Seq<char>)
    ensures
        syntax::parse_expression(s) matches Ok((_, found)) ==> is_arithmetic(found),
        syntax::parse_assignment(s) matches Ok((_, StatementView::Assignment(_, value)))
            ==> is_arithmetic(value),
        syntax::parse_statement(s) matches Ok((_, StatementView::Opcode(found))) ==> {
            &&& is_arithmetic(found.value)
            &&& found.mode matches OpcodeModeView::Move { second } ==> is_arithmetic(second)
        },
{
    lemma_expression_is_arithmetic(s, 0);
    assert forall|i: int| true implies (#[trigger] syntax::expression(s, i) matches Some(
        (_, found),
    ) ==> is_arithmetic(found)) by {
        lemma_expression_is_arithmetic(s, i);
    }
}

/// The grammar gives an operand one of nine addressing modes: never the
/// implied one or that of the accumulator, which take no operand.
pub proof fn law_operand_modes(s: Seq<char>)
    ensures
        syntax::parse_statement(s) matches Ok((_, StatementView::Opcode(found))) ==> !(
        found.mode is Implied) && !(found.mode is Accumulator),
{
}

} // verus!
