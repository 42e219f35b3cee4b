//! Grammar AST parser.
//!
//! The functions that take a text return, where the text begins with what
//! they look for, the text that is left and the value found. The functions
//! whose name ends in `_at` work on a `Source` and a position in it, and
//! return the position at which the rule ended in place of the text left.
//! What each of them accepts and returns is defined in `syntax`.

use crate::parser::ast::{
    expression_views, BinaryOperator, Expression, ExpressionView, Label, Number, NumberWidth,
    Opcode, OpcodeMode, OpcodeModeView, Statement, VariableName,
};
use crate::parser::error::ParseError;
use crate::parser::lexical::{
    is_decimal_digit, is_hex_digit, is_operator, lemma_run_end, valid_identifier_first_character,
    CharClass,
};
use crate::parser::source::Source;
use crate::parser::syntax;
use vstd::prelude::*;

verus! {

/// The position that a rule gave, as the grammar's definition counts it.
pub open spec fn position(r: Option<usize>) -> Option<int> {
    match r {
        Some(end) => Some(end as int),
        None => None,
    }
}

/// The position and the value that a rule gave, as they stand in the
/// grammar's definition.
pub open spec fn found<T: View>(r: Option<(usize, T)>) -> Option<(int, T::V)> {
    match r {
        Some((end, value)) => Some((end as int, value@)),
        None => None,
    }
}

/// As `found`, for a rule that says why it did not match.
pub open spec fn found_or_error<T: View>(r: Result<(usize, T), ParseError>) -> Result<
    (int, T::V),
    ParseError,
> {
    match r {
        Ok((end, value)) => Ok((end as int, value@)),
        Err(error) => Err(error),
    }
}

/// The text left and the value that a parse gave, as they stand in the
/// grammar's definition.
pub open spec fn parsed<T: View>(r: Result<(&str, T), ParseError>) -> Result<
    (Seq<char>, T::V),
    ParseError,
> {
    match r {
        Ok((rest, value)) => Ok((rest@, value@)),
        Err(error) => Err(error),
    }
}

/// Whether a rule tried at `i` ended inside the text and after `i`.
pub open spec fn ends_within<T>(r: Option<(usize, T)>, src: &Source, i: usize) -> bool {
    r matches Some((end, _)) ==> i < end <= src@.len()
}

/// The position after the whitespace at `i`.
fn skip(src: &Source, i: usize) -> (end: usize)
    ensures
        end == syntax::skip(src@, i as int),
        i <= end,
        i <= src@.len() ==> end <= src@.len(),
        src@.len() <= usize::MAX,
{
    src.scan(i, CharClass::Whitespace)
}

/// The character `c` as a token: the position after it.
fn token(src: &Source, i: usize, c: char) -> (r: Option<usize>)
    ensures
        position(r) == syntax::token(src@, i as int, c),
        r matches Some(end) ==> i < end <= src@.len(),
{
    let start = skip(src, i);
    match src.get(start) {
        Some(d) => if d == c {
            Some(start + 1)
        } else {
            None
        },
        None => None,
    }
}

/// A letter, in either case, as a token: the position after it.
fn letter(src: &Source, i: usize, lower: char, upper: char) -> (r: Option<usize>)
    ensures
        position(r) == syntax::letter(src@, i as int, lower, upper),
        r matches Some(end) ==> i < end <= src@.len(),
{
    let start = skip(src, i);
    match src.get(start) {
        Some(d) => if d == lower || d == upper {
            Some(start + 1)
        } else {
            None
        },
        None => None,
    }
}

/// An identifier that begins right at `i`: the position after it. The
/// identifier is the text between the two.
pub fn identifier_at(src: &Source, i: usize) -> (r: Option<usize>)
    ensures
        position(r) == syntax::identifier(src@, i as int),
        r matches Some(end) ==> i < end <= src@.len(),
{
    match src.get(i) {
        Some(c) => if valid_identifier_first_character(c) {
            Some(src.scan(i + 1, CharClass::IdentifierContinue))
        } else {
            None
        },
        None => None,
    }
}

/// The value of a digit, decimal or hexadecimal.
fn digit_of(c: char) -> (d: u32)
    requires
        is_hex_digit(c),
    ensures
        d == syntax::digit_value(c),
        d < 16,
        is_decimal_digit(c) ==> d < 10,
{
    if '0' <= c && c <= '9' {
        c as u32 - '0' as u32
    } else if 'a' <= c && c <= 'f' {
        c as u32 - 'a' as u32 + 10
    } else {
        c as u32 - 'A' as u32 + 10
    }
}

/// The digits of a literal denote no less than a part of them from the
/// left does.
proof fn lemma_digits_value_grows(digits: Seq<char>, n: int, radix: int)
    requires
        0 <= n <= digits.len(),
        radix >= 1,
    ensures
        0 <= syntax::digits_value(digits.take(n), radix) <= syntax::digits_value(digits, radix),
    decreases digits.len(),
{
    if digits.len() == 0 {
        assert(digits.take(n) =~= digits);
    } else if n == digits.len() {
        assert(digits.take(n) =~= digits);
        lemma_digits_value_grows(digits.drop_last(), n - 1, radix);
        let rest = syntax::digits_value(digits.drop_last(), radix);
        assert(rest * radix >= 0) by (nonlinear_arith)
            requires
                rest >= 0,
                radix >= 1,
        ;
    } else {
        assert(digits.drop_last().take(n) =~= digits.take(n));
        lemma_digits_value_grows(digits.drop_last(), n, radix);
        let rest = syntax::digits_value(digits.drop_last(), radix);
        assert(rest * radix >= rest) by (nonlinear_arith)
            requires
                rest >= 0,
                radix >= 1,
        ;
    }
}

/// The number that the digits from `start` up to `end` denote, unless it
/// takes more than 32 bits.
fn value_of_digits(src: &Source, start: usize, end: usize, radix: u32) -> (r: Option<u32>)
    requires
        start <= end <= src@.len(),
        radix == 10 || radix == 16,
        forall|k: int| start <= k < end ==> is_hex_digit(#[trigger] src@[k]),
        radix == 10 ==> forall|k: int| start <= k < end ==> is_decimal_digit(#[trigger] src@[k]),
    ensures
        match r {
            Some(value) => value == syntax::digits_value(
                src@.subrange(start as int, end as int),
                radix as int,
            ),
            None => syntax::digits_value(src@.subrange(start as int, end as int), radix as int)
                > u32::MAX,
        },
{
    let ghost digits = src@.subrange(start as int, end as int);
    let mut value: u32 = 0;
    let mut at: usize = start;
    assert(digits.take(0) =~= Seq::<char>::empty());
    while at < end
        invariant
            start <= at <= end <= src@.len(),
            radix == 10 || radix == 16,
            digits == src@.subrange(start as int, end as int),
            forall|k: int| start <= k < end ==> is_hex_digit(#[trigger] src@[k]),
            value == syntax::digits_value(digits.take(at - start), radix as int),
        decreases end - at,
    {
        let c = src.char_at(at);
        let digit = digit_of(c);
        proof {
            let longer = digits.take(at - start + 1);
            assert(longer.drop_last() =~= digits.take(at - start));
            assert(longer.last() == c);
            lemma_digits_value_grows(digits, at - start + 1, radix as int);
        }
        let wide: u64 = value as u64 * radix as u64 + digit as u64;
        if wide > u32::MAX as u64 {
            return None;
        }
        value = wide as u32;
        at += 1;
    }
    assert(digits.take(end - start) =~= digits);
    Some(value)
}

/// The width that a hexadecimal literal of `length` digits suggests: one
/// byte for two digits, two bytes for four, and none for any other length.
pub fn hex_width_for_length(length: usize) -> (width: NumberWidth)
    ensures
        width == syntax::hex_width(length as int),
{
    match length {
        2 => NumberWidth::OneByte,
        4 => NumberWidth::TwoBytes,
        _ => NumberWidth::Unspecified,
    }
}

/// A decimal literal at `i`.
pub fn number_at(src: &Source, i: usize) -> (r: Result<(usize, Number), ParseError>)
    ensures
        found_or_error(r) == syntax::number(src@, i as int),
        r matches Ok((end, _)) ==> i < end <= src@.len(),
{
    let start = skip(src, i);
    let end = src.scan(start, CharClass::DecimalDigit);
    if end <= start {
        return Err(ParseError::Lexical);
    }
    proof {
        lemma_run_end(src@, start as int, CharClass::DecimalDigit);
    }
    match value_of_digits(src, start, end, 10) {
        Some(value) => Ok((end, Number { value, width: NumberWidth::Unspecified })),
        None => Err(ParseError::NumericOverflow),
    }
}

/// A hexadecimal literal at `i`.
pub fn hex_number_at(src: &Source, i: usize) -> (r: Result<(usize, Number), ParseError>)
    ensures
        found_or_error(r) == syntax::hex_number(src@, i as int),
        r matches Ok((end, _)) ==> i < end <= src@.len(),
{
    let after = match token(src, i, '$') {
        Some(after) => after,
        None => return Err(ParseError::Lexical),
    };
    let start = skip(src, after);
    let end = src.scan(start, CharClass::HexDigit);
    if end <= start {
        return Err(ParseError::Lexical);
    }
    proof {
        lemma_run_end(src@, start as int, CharClass::HexDigit);
    }
    match value_of_digits(src, start, end, 16) {
        Some(value) => Ok((end, Number { value, width: hex_width_for_length(end - start) })),
        None => Err(ParseError::NumericOverflow),
    }
}

/// A relative label at `i`: its end and its depth.
fn relative_at(src: &Source, i: usize) -> (r: Option<(usize, i32)>)
    ensures
        match r {
            Some((end, depth)) => syntax::relative(src@, i as int) == Some(
                (end as int, depth as int),
            ),
            None => syntax::relative(src@, i as int) is None,
        },
        r matches Some((end, _)) ==> i < end <= src@.len(),
{
    let start = skip(src, i);
    let sign = match src.get(start) {
        Some(c) => c,
        None => return None,
    };
    if sign != '+' && sign != '-' {
        return None;
    }
    let end = src.scan(start, CharClass::Exactly(sign));
    proof {
        lemma_run_end(src@, start + 1, CharClass::Exactly(sign));
    }
    let length = end - start;
    if length > i32::MAX as usize {
        return None;
    }
    if sign == '+' {
        Some((end, length as i32))
    } else {
        Some((end, -(length as i32)))
    }
}

/// A label at `i`: a name, or else a relative label.
pub fn label_at<'a>(src: &Source<'a>, i: usize) -> (r: Option<(usize, Label<'a>)>)
    ensures
        found(r) == syntax::label(src@, i as int),
        r matches Some((end, _)) ==> i < end <= src@.len(),
{
    let start = skip(src, i);
    match identifier_at(src, start) {
        Some(end) => Some((end, Label::Named(VariableName(src.slice(start, end))))),
        None => match relative_at(src, i) {
            Some((end, depth)) => Some((end, Label::Relative(depth))),
            None => None,
        },
    }
}

/// `+` or `-` as a token.
fn additive_operator_at(src: &Source, i: usize) -> (r: Option<(usize, BinaryOperator)>)
    ensures
        match r {
            Some((end, operator)) => syntax::additive_operator(src@, i as int) == Some(
                (end as int, operator),
            ),
            None => syntax::additive_operator(src@, i as int) is None,
        },
        r matches Some((end, _)) ==> i < end <= src@.len(),
{
    match token(src, i, '+') {
        Some(end) => Some((end, BinaryOperator::Add)),
        None => match token(src, i, '-') {
            Some(end) => Some((end, BinaryOperator::Sub)),
            None => None,
        },
    }
}

/// `*` or `/` as a token.
fn multiplicative_operator_at(src: &Source, i: usize) -> (r: Option<(usize, BinaryOperator)>)
    ensures
        match r {
            Some((end, operator)) => syntax::multiplicative_operator(src@, i as int) == Some(
                (end as int, operator),
            ),
            None => syntax::multiplicative_operator(src@, i as int) is None,
        },
        r matches Some((end, _)) ==> i < end <= src@.len(),
{
    match token(src, i, '*') {
        Some(end) => Some((end, BinaryOperator::Mul)),
        None => match token(src, i, '/') {
            Some(end) => Some((end, BinaryOperator::Div)),
            None => None,
        },
    }
}

/// An expression at `i`: terms joined by `+` and `-`.
pub fn expression_at<'a>(src: &Source<'a>, i: usize) -> (r: Option<(usize, Expression<'a>)>)
    ensures
        found(r) == syntax::expression(src@, i as int),
        ends_within(r, src, i),
    decreases src@.len() - i, 5int,
{
    let (mut end, mut value) = match term_at(src, i) {
        Some(first) => first,
        None => return None,
    };
    let ghost goal = syntax::additive_tail(src@, end as int, value@);
    loop
        invariant
            i < end <= src@.len(),
            syntax::additive_tail(src@, end as int, value@) == goal,
        ensures
            i < end <= src@.len(),
            goal == (end as int, value@),
        decreases src@.len() - end,
    {
        match additive_operator_at(src, end) {
            Some((after, operator)) => match term_at(src, after) {
                Some((next, right)) => {
                    value = Expression::Binary(operator, Box::new((value, right)));
                    end = next;
                },
                None => {
                    break;
                },
            },
            None => {
                break;
            },
        }
    }
    Some((end, value))
}

/// A term at `i`: atoms joined by `*` and `/`.
pub fn term_at<'a>(src: &Source<'a>, i: usize) -> (r: Option<(usize, Expression<'a>)>)
    ensures
        found(r) == syntax::term(src@, i as int),
        ends_within(r, src, i),
    decreases src@.len() - i, 3int,
{
    let (mut end, mut value) = match top_expression_at(src, i) {
        Some(first) => first,
        None => return None,
    };
    let ghost goal = syntax::multiplicative_tail(src@, end as int, value@);
    loop
        invariant
            i < end <= src@.len(),
            syntax::multiplicative_tail(src@, end as int, value@) == goal,
        ensures
            i < end <= src@.len(),
            goal == (end as int, value@),
        decreases src@.len() - end,
    {
        match multiplicative_operator_at(src, end) {
            Some((after, operator)) => match top_expression_at(src, after) {
                Some((next, right)) => {
                    value = Expression::Binary(operator, Box::new((value, right)));
                    end = next;
                },
                None => {
                    break;
                },
            },
            None => {
                break;
            },
        }
    }
    Some((end, value))
}

/// An atom at `i`: the first that matches of an expression in parentheses,
/// a decimal literal, a hexadecimal literal, a call, and a label.
pub fn top_expression_at<'a>(src: &Source<'a>, i: usize) -> (r: Option<(usize, Expression<'a>)>)
    ensures
        found(r) == syntax::top_expression(src@, i as int),
        ends_within(r, src, i),
    decreases src@.len() - i, 1int,
{
    if let Some(inner) = paren_expression_at(src, i) {
        return Some(inner);
    }
    if let Ok((end, value)) = number_at(src, i) {
        return Some((end, Expression::Number(value)));
    }
    if let Ok((end, value)) = hex_number_at(src, i) {
        return Some((end, Expression::Number(value)));
    }
    if let Some(called) = call_at(src, i) {
        return Some(called);
    }
    match label_at(src, i) {
        Some((end, label)) => Some((end, Expression::Variable(label))),
        None => None,
    }
}

/// `(`, an expression and `)` at `i`.
pub fn paren_expression_at<'a>(src: &Source<'a>, i: usize) -> (r: Option<(usize, Expression<'a>)>)
    ensures
        found(r) == syntax::paren_expression(src@, i as int),
        ends_within(r, src, i),
    decreases src@.len() - i, 0int,
{
    let after = match token(src, i, '(') {
        Some(after) => after,
        None => return None,
    };
    let (inner_end, inner) = match expression_at(src, after) {
        Some(inner) => inner,
        None => return None,
    };
    match token(src, inner_end, ')') {
        Some(end) => Some((end, inner)),
        None => None,
    }
}

/// A call at `i`: a name, `(`, arguments separated by `,`, and `)`.
pub fn call_at<'a>(src: &Source<'a>, i: usize) -> (r: Option<(usize, Expression<'a>)>)
    ensures
        found(r) == syntax::call(src@, i as int),
        ends_within(r, src, i),
    decreases src@.len() - i, 0int,
{
    let start = skip(src, i);
    let name_end = match identifier_at(src, start) {
        Some(name_end) => name_end,
        None => return None,
    };
    let after = match token(src, name_end, '(') {
        Some(after) => after,
        None => return None,
    };
    let (arguments_end, arguments) = arguments_at(src, after);
    match token(src, arguments_end, ')') {
        Some(end) => Some(
            (end, Expression::Call(VariableName(src.slice(start, name_end)), arguments)),
        ),
        None => None,
    }
}

/// The arguments of a call at `i`: none, or expressions separated by `,`.
pub fn arguments_at<'a>(src: &Source<'a>, i: usize) -> (r: (usize, Vec<Expression<'a>>))
    ensures
        (r.0 as int, expression_views(r.1@)) == syntax::arguments(src@, i as int),
        i <= r.0,
        i <= src@.len() ==> r.0 <= src@.len(),
    decreases src@.len() - i, 7int,
{
    let mut arguments: Vec<Expression<'a>> = Vec::new();
    let mut end = i;
    match expression_at(src, i) {
        Some((first_end, first)) => {
            assert(expression_views(arguments@.push(first)) =~= seq![first@]);
            arguments.push(first);
            end = first_end;
        },
        None => {
            assert(expression_views(arguments@) =~= Seq::empty());
            return (i, arguments);
        },
    }
    let ghost goal = syntax::arguments(src@, i as int);
    loop
        invariant
            i <= end <= src@.len(),
            syntax::argument_tail(src@, end as int, expression_views(arguments@)) == goal,
        ensures
            i <= end <= src@.len(),
            goal == (end as int, expression_views(arguments@)),
        decreases src@.len() - end,
    {
        match token(src, end, ',') {
            Some(after) => match expression_at(src, after) {
                Some((next, argument)) => {
                    assert(expression_views(arguments@.push(argument)) =~= expression_views(
                        arguments@,
                    ).push(argument@));
                    arguments.push(argument);
                    end = next;
                },
                None => {
                    break;
                },
            },
            None => {
                break;
            },
        }
    }
    (end, arguments)
}

/// The position, the value and the addressing mode that an operand shape
/// gave, as they stand in the grammar's definition.
pub open spec fn found_operand(r: Option<(usize, Expression, OpcodeMode)>) -> Option<
    (int, ExpressionView, OpcodeModeView),
> {
    match r {
        Some((end, value, mode)) => Some((end as int, value@, mode@)),
        None => None,
    }
}

/// Whether an operand shape tried at `i` ended inside the text and after
/// `i`.
pub open spec fn operand_ends_within(
    r: Option<(usize, Expression, OpcodeMode)>,
    src: &Source,
    i: usize,
) -> bool {
    r matches Some((end, _, _)) ==> i < end <= src@.len()
}

/// `.` and a width letter at `i`: the position after them and the width.
fn width_suffix_at(src: &Source, i: usize) -> (r: Option<(usize, u32)>)
    ensures
        match r {
            Some((end, width)) => syntax::width_suffix(src@, i as int) == Some(
                (end as int, width),
            ),
            None => syntax::width_suffix(src@, i as int) is None,
        },
        r matches Some((end, _)) ==> i < end <= src@.len(),
{
    let after = match token(src, i, '.') {
        Some(after) => after,
        None => return None,
    };
    let at = skip(src, after);
    match src.get(at) {
        Some(c) => if c == 'b' || c == 'B' {
            Some((at + 1, 1))
        } else if c == 'w' || c == 'W' {
            Some((at + 1, 2))
        } else if c == 'l' || c == 'L' {
            Some((at + 1, 3))
        } else {
            None
        },
        None => None,
    }
}

/// Whether an operator character is the next one at `i`, whitespace apart.
fn operator_follows(src: &Source, i: usize) -> (r: bool)
    ensures
        r == (0 <= syntax::skip(src@, i as int) < src@.len() && is_operator(
            src@[syntax::skip(src@, i as int)],
        )),
{
    match src.get(skip(src, i)) {
        Some(c) => c == '+' || c == '-' || c == '*' || c == '/',
        None => false,
    }
}

/// `,` and the letter `y` at `i`: the position after them.
fn comma_y(src: &Source, i: usize) -> (r: Option<usize>)
    ensures
        position(r) == (match syntax::token(src@, i as int, ',') {
            Some(after) => syntax::letter(src@, after, 'y', 'Y'),
            None => None,
        }),
        r matches Some(end) ==> i < end <= src@.len(),
{
    match token(src, i, ',') {
        Some(after) => letter(src, after, 'y', 'Y'),
        None => None,
    }
}

/// `(`, an expression, `)`, `,` and `y` at `i`.
pub fn indirect_y_at<'a>(src: &Source<'a>, i: usize) -> (r: Option<
    (usize, Expression<'a>, OpcodeMode<'a>),
>)
    ensures
        found_operand(r) == syntax::indirect_y(src@, i as int),
        operand_ends_within(r, src, i),
{
    let (inner_end, value) = match paren_expression_at(src, i) {
        Some(inner) => inner,
        None => return None,
    };
    match comma_y(src, inner_end) {
        Some(end) => Some((end, value, OpcodeMode::IndirectY)),
        None => None,
    }
}

/// `(`, an expression and `)` at `i`, where no operator character follows.
pub fn indirect_at<'a>(src: &Source<'a>, i: usize) -> (r: Option<
    (usize, Expression<'a>, OpcodeMode<'a>),
>)
    ensures
        found_operand(r) == syntax::indirect(src@, i as int),
        operand_ends_within(r, src, i),
{
    let (end, value) = match paren_expression_at(src, i) {
        Some(inner) => inner,
        None => return None,
    };
    if operator_follows(src, end) {
        None
    } else {
        Some((end, value, OpcodeMode::Indirect))
    }
}

/// `(`, an expression, `,`, the letter given, and `)` at `i`.
fn indexed_in_parens_at<'a>(src: &Source<'a>, i: usize, lower: char, upper: char) -> (r: Option<
    (usize, Expression<'a>),
>)
    ensures
        found(r) == syntax::indexed_in_parens(src@, i as int, lower, upper),
        ends_within(r, src, i),
{
    let after = match token(src, i, '(') {
        Some(after) => after,
        None => return None,
    };
    let (value_end, value) = match expression_at(src, after) {
        Some(inner) => inner,
        None => return None,
    };
    let comma_end = match token(src, value_end, ',') {
        Some(comma_end) => comma_end,
        None => return None,
    };
    let letter_end = match letter(src, comma_end, lower, upper) {
        Some(letter_end) => letter_end,
        None => return None,
    };
    match token(src, letter_end, ')') {
        Some(end) => Some((end, value)),
        None => None,
    }
}

/// `(`, an expression, `,`, `x` and `)` at `i`.
pub fn x_indirect_at<'a>(src: &Source<'a>, i: usize) -> (r: Option<
    (usize, Expression<'a>, OpcodeMode<'a>),
>)
    ensures
        found_operand(r) == syntax::x_indirect(src@, i as int),
        operand_ends_within(r, src, i),
{
    match indexed_in_parens_at(src, i, 'x', 'X') {
        Some((end, value)) => Some((end, value, OpcodeMode::XIndirect)),
        None => None,
    }
}

/// An expression, `,` and a second expression at `i`.
pub fn address_pair_at<'a>(src: &Source<'a>, i: usize) -> (r: Option<
    (usize, Expression<'a>, OpcodeMode<'a>),
>)
    ensures
        found_operand(r) == syntax::address_pair(src@, i as int),
        operand_ends_within(r, src, i),
{
    let (first_end, first) = match expression_at(src, i) {
        Some(first) => first,
        None => return None,
    };
    let after = match token(src, first_end, ',') {
        Some(after) => after,
        None => return None,
    };
    match expression_at(src, after) {
        Some((end, second)) => Some((end, first, OpcodeMode::Move { second })),
        None => None,
    }
}

/// An expression alone at `i`.
pub fn address_at<'a>(src: &Source<'a>, i: usize) -> (r: Option<
    (usize, Expression<'a>, OpcodeMode<'a>),
>)
    ensures
        found_operand(r) == syntax::address(src@, i as int),
        operand_ends_within(r, src, i),
{
    match expression_at(src, i) {
        Some((end, value)) => Some((end, value, OpcodeMode::Address)),
        None => None,
    }
}

/// `#` and an expression at `i`.
pub fn immediate_at<'a>(src: &Source<'a>, i: usize) -> (r: Option<
    (usize, Expression<'a>, OpcodeMode<'a>),
>)
    ensures
        found_operand(r) == syntax::immediate(src@, i as int),
        operand_ends_within(r, src, i),
{
    let after = match token(src, i, '#') {
        Some(after) => after,
        None => return None,
    };
    match expression_at(src, after) {
        Some((end, value)) => Some((end, value, OpcodeMode::Immediate)),
        None => None,
    }
}

/// `[`, an expression and `]` at `i`.
pub fn long_indirect_at<'a>(src: &Source<'a>, i: usize) -> (r: Option<
    (usize, Expression<'a>, OpcodeMode<'a>),
>)
    ensures
        found_operand(r) == syntax::long_indirect(src@, i as int),
        operand_ends_within(r, src, i),
{
    let after = match token(src, i, '[') {
        Some(after) => after,
        None => return None,
    };
    let (value_end, value) = match expression_at(src, after) {
        Some(inner) => inner,
        None => return None,
    };
    match token(src, value_end, ']') {
        Some(end) => Some((end, value, OpcodeMode::LongIndirect)),
        None => None,
    }
}

/// `[`, an expression, `]`, `,` and `y` at `i`.
pub fn long_indirect_y_at<'a>(src: &Source<'a>, i: usize) -> (r: Option<
    (usize, Expression<'a>, OpcodeMode<'a>),
>)
    ensures
        found_operand(r) == syntax::long_indirect_y(src@, i as int),
        operand_ends_within(r, src, i),
{
    let (inner_end, value) = match long_indirect_at(src, i) {
        Some((inner_end, value, _)) => (inner_end, value),
        None => return None,
    };
    match comma_y(src, inner_end) {
        Some(end) => Some((end, value, OpcodeMode::LongIndirectY)),
        None => None,
    }
}

/// `(`, an expression, `,`, `s`, `)`, `,` and `y` at `i`.
pub fn stack_indirect_y_at<'a>(src: &Source<'a>, i: usize) -> (r: Option<
    (usize, Expression<'a>, OpcodeMode<'a>),
>)
    ensures
        found_operand(r) == syntax::stack_indirect_y(src@, i as int),
        operand_ends_within(r, src, i),
{
    let (inner_end, value) = match indexed_in_parens_at(src, i, 's', 'S') {
        Some(inner) => inner,
        None => return None,
    };
    match comma_y(src, inner_end) {
        Some(end) => Some((end, value, OpcodeMode::StackIndirectY)),
        None => None,
    }
}

/// The operand of a processor operation at `i`: the first shape that
/// matches, in a fixed order.
///
/// The order matters. The shapes in parentheses come before the bare
/// expressions, which would take a part of them; the pair of expressions
/// comes before the single one, which would leave the second behind.
pub fn operand_at<'a>(src: &Source<'a>, i: usize) -> (r: Option<
    (usize, Expression<'a>, OpcodeMode<'a>),
>)
    ensures
        found_operand(r) == syntax::operand(src@, i as int),
        operand_ends_within(r, src, i),
{
    if let Some(operand) = indirect_y_at(src, i) {
        return Some(operand);
    }
    if let Some(operand) = indirect_at(src, i) {
        return Some(operand);
    }
    if let Some(operand) = x_indirect_at(src, i) {
        return Some(operand);
    }
    if let Some(operand) = address_pair_at(src, i) {
        return Some(operand);
    }
    if let Some(operand) = address_at(src, i) {
        return Some(operand);
    }
    if let Some(operand) = immediate_at(src, i) {
        return Some(operand);
    }
    if let Some(operand) = long_indirect_y_at(src, i) {
        return Some(operand);
    }
    if let Some(operand) = long_indirect_at(src, i) {
        return Some(operand);
    }
    stack_indirect_y_at(src, i)
}

/// A processor operation at `i`: a mnemonic, a width suffix if there is
/// one, and an operand.
pub fn opcode_at<'a>(src: &Source<'a>, i: usize) -> (r: Result<(usize, Opcode<'a>), ParseError>)
    ensures
        found_or_error(r) == syntax::opcode(src@, i as int),
        r matches Ok((end, _)) ==> i < end <= src@.len(),
{
    let start = skip(src, i);
    let name_end = match identifier_at(src, start) {
        Some(name_end) => name_end,
        None => return Err(ParseError::Lexical),
    };
    let (operand_start, width) = match width_suffix_at(src, name_end) {
        Some((after, width)) => (after, Some(width)),
        None => (name_end, None),
    };
    match operand_at(src, operand_start) {
        Some((end, value, mode)) => Ok(
            (end, Opcode { name: src.slice(start, name_end), width, mode, value }),
        ),
        None => Err(ParseError::ExhaustedAlternatives),
    }
}

/// A statement at `i`: a processor operation.
pub fn statement_at<'a>(src: &Source<'a>, i: usize) -> (r: Result<
    (usize, Statement<'a>),
    ParseError,
>)
    ensures
        found_or_error(r) == syntax::statement(src@, i as int),
        r matches Ok((end, _)) ==> i < end <= src@.len(),
{
    match opcode_at(src, i) {
        Ok((end, opcode)) => Ok((end, Statement::Opcode(opcode))),
        Err(error) => Err(error),
    }
}

/// An assignment at `i`: a name, `=` and an expression.
pub fn assignment_at<'a>(src: &Source<'a>, i: usize) -> (r: Result<
    (usize, Statement<'a>),
    ParseError,
>)
    ensures
        found_or_error(r) == syntax::assignment(src@, i as int),
        r matches Ok((end, _)) ==> i < end <= src@.len(),
{
    let start = skip(src, i);
    let name_end = match identifier_at(src, start) {
        Some(name_end) => name_end,
        None => return Err(ParseError::Lexical),
    };
    let after = match token(src, name_end, '=') {
        Some(after) => after,
        None => return Err(ParseError::GrammarMismatch),
    };
    match expression_at(src, after) {
        Some((end, value)) => Ok(
            (end, Statement::Assignment(VariableName(src.slice(start, name_end)), value)),
        ),
        None => Err(ParseError::ExhaustedAlternatives),
    }
}

/// An identifier parser.
///
/// It allows any Unicode identifier as specified by Unicode Standard Annex
/// #31: Unicode Identifier and Pattern Syntax. In addition, it allows use of
/// underscores in identifiers, and `!` at the beginning. No whitespace is
/// skipped, before the identifier or after it. A text that begins with no
/// identifier gives `Lexical`.
pub fn identifier<'a>(input: &'a str) -> (r: Result<(&'a str, &'a str), ParseError>)
    ensures
        parsed(r) == syntax::parse_identifier(input@),
{
    let src = Source::new(input);
    match identifier_at(&src, 0) {
        Some(end) => Ok((src.slice(end, src.len()), src.slice(0, end))),
        None => Err(ParseError::Lexical),
    }
}

/// A decimal literal parser. Whitespace is skipped on both sides.
///
/// A text that begins with no digit gives `Lexical`; digits that denote a
/// number of more than 32 bits give `NumericOverflow`.
pub fn number(input: &str) -> (r: Result<(&str, Number), ParseError>)
    ensures
        parsed(r) == syntax::parse_number(input@),
{
    let src = Source::new(input);
    match number_at(&src, 0) {
        Ok((end, value)) => Ok((rest_after(&src, end), value)),
        Err(error) => Err(error),
    }
}

/// A hexadecimal literal parser. Whitespace is skipped before the `$`,
/// between it and the digits, and after them.
///
/// A text without the `$` or without a digit after it gives `Lexical`;
/// digits that denote a number of more than 32 bits give `NumericOverflow`.
pub fn hex_number(input: &str) -> (r: Result<(&str, Number), ParseError>)
    ensures
        parsed(r) == syntax::parse_hex_number(input@),
{
    let src = Source::new(input);
    match hex_number_at(&src, 0) {
        Ok((end, value)) => Ok((rest_after(&src, end), value)),
        Err(error) => Err(error),
    }
}

/// An expression parser.
///
/// This can be used as a math expression parser. It supports addition,
/// subtraction, multiplication and division, as well as parentheses, calls,
/// and names and relative labels in place of numbers. Whitespace around
/// the tokens is skipped, and so is the whitespace after the expression.
///
/// An operator that no operand follows ends the expression and is left in
/// the text. A text that begins with no expression gives
/// `ExhaustedAlternatives`; so does one that begins with a literal of more
/// than 32 bits.
pub fn expression<'a>(input: &'a str) -> (r: Result<(&'a str, Expression<'a>), ParseError>)
    ensures
        parsed(r) == syntax::parse_expression(input@),
{
    let src = Source::new(input);
    match expression_at(&src, 0) {
        Some((end, value)) => Ok((rest_after(&src, end), value)),
        None => Err(ParseError::ExhaustedAlternatives),
    }
}

/// A statement parser: a processor operation with its operand.
///
/// A text that begins with no mnemonic gives `Lexical`; a mnemonic that no
/// operand follows gives `ExhaustedAlternatives`.
pub fn statement<'a>(input: &'a str) -> (r: Result<(&'a str, Statement<'a>), ParseError>)
    ensures
        parsed(r) == syntax::parse_statement(input@),
{
    let src = Source::new(input);
    match statement_at(&src, 0) {
        Ok((end, value)) => Ok((rest_after(&src, end), value)),
        Err(error) => Err(error),
    }
}

/// Assignment statement parser.
///
/// It expects a variable name, followed by the `=` character, and the
/// expression to be stored as its value. Without the name it gives
/// `Lexical`, without the `=` `GrammarMismatch`, and without the expression
/// `ExhaustedAlternatives`.
pub fn assignment<'a>(input: &'a str) -> (r: Result<(&'a str, Statement<'a>), ParseError>)
    ensures
        parsed(r) == syntax::parse_assignment(input@),
{
    let src = Source::new(input);
    match assignment_at(&src, 0) {
        Ok((end, value)) => Ok((rest_after(&src, end), value)),
        Err(error) => Err(error),
    }
}

/// What is left of the text after a rule that ended at `end`.
fn rest_after<'a>(src: &Source<'a>, end: usize) -> (rest: &'a str)
    requires
        end <= src@.len(),
    ensures
        rest@ == syntax::remainder(src@, end as int),
{
    src.slice(skip(src, end), src.len())
}

} // verus!
