//! What the grammar means: each rule as a function of the text and of the
//! position at which the rule is tried.
//!
//! A rule that matches gives the position after its last character and the
//! value it stands for. Every token may be preceded by whitespace. Where a
//! rule has alternatives, the first that matches is taken.

use crate::parser::ast::{
    BinaryOperator, ExpressionView, LabelView, Number, NumberWidth, OpcodeModeView, OpcodeView,
    StatementView,
};
use crate::parser::error::ParseError;
use crate::parser::lexical::{is_identifier_start, is_operator, lemma_run_end, run_end, CharClass};
use vstd::prelude::*;

verus! {

/// The position after the whitespace that starts at `i`.
pub open spec fn skip(s: Seq<char>, i: int) -> int {
    run_end(s, i, CharClass::Whitespace)
}

/// The character `c` as a token: the position after it.
pub open spec fn token(s: Seq<char>, i: int, c: char) -> Option<int> {
    let j = skip(s, i);
    if 0 <= j < s.len() && s[j] == c {
        Some(j + 1)
    } else {
        None
    }
}

/// A letter, in either case, as a token: the position after it.
pub open spec fn letter(s: Seq<char>, i: int, lower: char, upper: char) -> Option<int> {
    let j = skip(s, i);
    if 0 <= j < s.len() && (s[j] == lower || s[j] == upper) {
        Some(j + 1)
    } else {
        None
    }
}

/// An identifier that begins right at `i`: the position after it.
pub open spec fn identifier(s: Seq<char>, i: int) -> Option<int> {
    if 0 <= i < s.len() && is_identifier_start(s[i]) {
        Some(run_end(s, i + 1, CharClass::IdentifierContinue))
    } else {
        None
    }
}

/// The value of one digit, decimal or hexadecimal.
pub open spec fn digit_value(c: char) -> int {
    if '0' <= c && c <= '9' {
        c as int - '0' as int
    } else if 'a' <= c && c <= 'f' {
        c as int - 'a' as int + 10
    } else if 'A' <= c && c <= 'F' {
        c as int - 'A' as int + 10
    } else {
        0
    }
}

/// The number that `digits` denote in the given radix.
pub open spec fn digits_value(digits: Seq<char>, radix: int) -> int
    decreases digits.len(),
{
    if digits.len() == 0 {
        0
    } else {
        digits_value(digits.drop_last(), radix) * radix + digit_value(digits.last())
    }
}

/// The width that a hexadecimal literal of `length` digits suggests.
pub open spec fn hex_width(length: int) -> NumberWidth {
    if length == 2 {
        NumberWidth::OneByte
    } else if length == 4 {
        NumberWidth::TwoBytes
    } else {
        NumberWidth::Unspecified
    }
}

/// A decimal literal: the longest run of decimal digits.
pub open spec fn number(s: Seq<char>, i: int) -> Result<(int, Number), ParseError> {
    let start = skip(s, i);
    let end = run_end(s, start, CharClass::DecimalDigit);
    let value = digits_value(s.subrange(start, end), 10);
    if end <= start {
        Err(ParseError::Lexical)
    } else if value > u32::MAX {
        Err(ParseError::NumericOverflow)
    } else {
        Ok((end, Number { value: value as u32, width: NumberWidth::Unspecified }))
    }
}

/// A hexadecimal literal: `$`, then the longest run of hexadecimal digits.
pub open spec fn hex_number(s: Seq<char>, i: int) -> Result<(int, Number), ParseError> {
    match token(s, i, '$') {
        Some(j) => {
            let start = skip(s, j);
            let end = run_end(s, start, CharClass::HexDigit);
            let value = digits_value(s.subrange(start, end), 16);
            if end <= start {
                Err(ParseError::Lexical)
            } else if value > u32::MAX {
                Err(ParseError::NumericOverflow)
            } else {
                Ok((end, Number { value: value as u32, width: hex_width(end - start) }))
            }
        },
        None => Err(ParseError::Lexical),
    }
}

/// A relative label: the longest run of `+`, or of `-`. Its depth is the
/// length of the run, negative for `-`. A run whose length does not fit in
/// 32 bits with a sign is no label.
pub open spec fn relative(s: Seq<char>, i: int) -> Option<(int, int)> {
    let start = skip(s, i);
    if 0 <= start < s.len() && (s[start] == '+' || s[start] == '-') {
        let end = run_end(s, start, CharClass::Exactly(s[start]));
        if end - start > i32::MAX {
            None
        } else if s[start] == '+' {
            Some((end, end - start))
        } else {
            Some((end, start - end))
        }
    } else {
        None
    }
}

/// A label: a name, or else a relative label.
pub open spec fn label(s: Seq<char>, i: int) -> Option<(int, LabelView)> {
    let start = skip(s, i);
    match identifier(s, start) {
        Some(end) => Some((end, LabelView::Named(s.subrange(start, end)))),
        None => match relative(s, i) {
            Some((end, depth)) => Some((end, LabelView::Relative(depth))),
            None => None,
        },
    }
}

/// `+` or `-` as a token.
pub open spec fn additive_operator(s: Seq<char>, i: int) -> Option<(int, BinaryOperator)> {
    match token(s, i, '+') {
        Some(j) => Some((j, BinaryOperator::Add)),
        None => match token(s, i, '-') {
            Some(j) => Some((j, BinaryOperator::Sub)),
            None => None,
        },
    }
}

/// `*` or `/` as a token.
pub open spec fn multiplicative_operator(s: Seq<char>, i: int) -> Option<(int, BinaryOperator)> {
    match token(s, i, '*') {
        Some(j) => Some((j, BinaryOperator::Mul)),
        None => match token(s, i, '/') {
            Some(j) => Some((j, BinaryOperator::Div)),
            None => None,
        },
    }
}

pub open spec fn binary(
    operator: BinaryOperator,
    left: ExpressionView,
    right: ExpressionView,
) -> ExpressionView {
    ExpressionView::Binary(operator, Box::new(left), Box::new(right))
}

/// Whether a rule tried at `i` may have ended at `j`.
///
/// Every rule that matches ends after its start and inside the text
/// (`laws::lemma_rules_advance`), so this holds of every end of a rule. The
/// rules that go on after a nested rule test it all the same, which makes
/// their definitions well founded.
pub open spec fn advanced(s: Seq<char>, i: int, j: int) -> bool {
    i <= j <= s.len()
}

/// An expression: terms joined by `+` and `-`, grouped from the left.
pub open spec fn expression(s: Seq<char>, i: int) -> Option<(int, ExpressionView)>
    decreases s.len() - i, 5int,
{
    match term(s, i) {
        Some((j, first)) => if advanced(s, i, j) {
            Some(additive_tail(s, j, first))
        } else {
            None
        },
        None => None,
    }
}

/// The operators and terms that follow `left`, folded into it one by one.
pub open spec fn additive_tail(s: Seq<char>, i: int, left: ExpressionView) -> (int, ExpressionView)
    decreases s.len() - i, 4int,
{
    proof {
        lemma_run_end(s, i, CharClass::Whitespace);
    }
    match additive_operator(s, i) {
        Some((j, operator)) => match term(s, j) {
            Some((k, right)) => if advanced(s, j, k) {
                additive_tail(s, k, binary(operator, left, right))
            } else {
                (i, left)
            },
            None => (i, left),
        },
        None => (i, left),
    }
}

/// A term: atoms joined by `*` and `/`, grouped from the left.
pub open spec fn term(s: Seq<char>, i: int) -> Option<(int, ExpressionView)>
    decreases s.len() - i, 3int,
{
    match top_expression(s, i) {
        Some((j, first)) => if advanced(s, i, j) {
            Some(multiplicative_tail(s, j, first))
        } else {
            None
        },
        None => None,
    }
}

/// The operators and atoms that follow `left`, folded into it one by one.
pub open spec fn multiplicative_tail(s: Seq<char>, i: int, left: ExpressionView) -> (
    int,
    ExpressionView,
)
    decreases s.len() - i, 2int,
{
    proof {
        lemma_run_end(s, i, CharClass::Whitespace);
    }
    match multiplicative_operator(s, i) {
        Some((j, operator)) => match top_expression(s, j) {
            Some((k, right)) => if advanced(s, j, k) {
                multiplicative_tail(s, k, binary(operator, left, right))
            } else {
                (i, left)
            },
            None => (i, left),
        },
        None => (i, left),
    }
}

/// An atom: the first that matches of an expression in parentheses, a
/// decimal literal, a hexadecimal literal, a call, and a label.
pub open spec fn top_expression(s: Seq<char>, i: int) -> Option<(int, ExpressionView)>
    decreases s.len() - i, 1int,
{
    if let Some(found) = paren_expression(s, i) {
        Some(found)
    } else if let Ok((j, n)) = number(s, i) {
        Some((j, ExpressionView::Number(n)))
    } else if let Ok((j, n)) = hex_number(s, i) {
        Some((j, ExpressionView::Number(n)))
    } else if let Some(found) = call(s, i) {
        Some(found)
    } else if let Some((j, l)) = label(s, i) {
        Some((j, ExpressionView::Variable(l)))
    } else {
        None
    }
}

/// `(`, an expression, `)`.
pub open spec fn paren_expression(s: Seq<char>, i: int) -> Option<(int, ExpressionView)>
    decreases s.len() - i, 0int,
{
    proof {
        lemma_run_end(s, i, CharClass::Whitespace);
    }
    match token(s, i, '(') {
        Some(j) => match expression(s, j) {
            Some((k, inner)) => match token(s, k, ')') {
                Some(end) => Some((end, inner)),
                None => None,
            },
            None => None,
        },
        None => None,
    }
}

/// A name, `(`, arguments separated by `,`, and `)`.
pub open spec fn call(s: Seq<char>, i: int) -> Option<(int, ExpressionView)>
    decreases s.len() - i, 0int,
{
    let start = skip(s, i);
    match identifier(s, start) {
        Some(name_end) => match token(s, name_end, '(') {
            Some(j) => {
                proof {
                    lemma_run_end(s, i, CharClass::Whitespace);
                    lemma_run_end(s, start + 1, CharClass::IdentifierContinue);
                    lemma_run_end(s, name_end, CharClass::Whitespace);
                }
                let (k, args) = arguments(s, j);
                match token(s, k, ')') {
                    Some(end) => Some((end, ExpressionView::Call(s.subrange(start, name_end), args))),
                    None => None,
                }
            },
            None => None,
        },
        None => None,
    }
}

/// The arguments of a call: none, or expressions separated by `,`.
pub open spec fn arguments(s: Seq<char>, i: int) -> (int, Seq<ExpressionView>)
    decreases s.len() - i, 7int,
{
    match expression(s, i) {
        Some((j, first)) => if advanced(s, i, j) {
            argument_tail(s, j, seq![first])
        } else {
            (i, Seq::empty())
        },
        None => (i, Seq::empty()),
    }
}

/// The arguments that follow `args`, each after a `,`.
pub open spec fn argument_tail(s: Seq<char>, i: int, args: Seq<ExpressionView>) -> (
    int,
    Seq<ExpressionView>,
)
    decreases s.len() - i, 6int,
{
    proof {
        lemma_run_end(s, i, CharClass::Whitespace);
    }
    match token(s, i, ',') {
        Some(j) => match expression(s, j) {
            Some((k, next)) => if advanced(s, j, k) {
                argument_tail(s, k, args.push(next))
            } else {
                (i, args)
            },
            None => (i, args),
        },
        None => (i, args),
    }
}

/// The operand size that a letter after the mnemonic asks for.
pub open spec fn width_of_letter(c: char) -> Option<u32> {
    if c == 'b' || c == 'B' {
        Some(1u32)
    } else if c == 'w' || c == 'W' {
        Some(2u32)
    } else if c == 'l' || c == 'L' {
        Some(3u32)
    } else {
        None
    }
}

/// `.` and one of the letters `b`, `w` and `l`, in either case.
pub open spec fn width_suffix(s: Seq<char>, i: int) -> Option<(int, u32)> {
    match token(s, i, '.') {
        Some(j) => {
            let k = skip(s, j);
            if 0 <= k < s.len() {
                match width_of_letter(s[k]) {
                    Some(width) => Some((k + 1, width)),
                    None => None,
                }
            } else {
                None
            }
        },
        None => None,
    }
}

/// `(`, an expression, `)`, `,` and `y`.
pub open spec fn indirect_y(s: Seq<char>, i: int) -> Option<(int, ExpressionView, OpcodeModeView)> {
    match paren_expression(s, i) {
        Some((j, value)) => match token(s, j, ',') {
            Some(k) => match letter(s, k, 'y', 'Y') {
                Some(end) => Some((end, value, OpcodeModeView::IndirectY)),
                None => None,
            },
            None => None,
        },
        None => None,
    }
}

/// `(`, an expression and `)`, where no operator character follows.
pub open spec fn indirect(s: Seq<char>, i: int) -> Option<(int, ExpressionView, OpcodeModeView)> {
    match paren_expression(s, i) {
        Some((j, value)) => {
            let next = skip(s, j);
            if 0 <= next < s.len() && is_operator(s[next]) {
                None
            } else {
                Some((j, value, OpcodeModeView::Indirect))
            }
        },
        None => None,
    }
}

/// `(`, an expression, `,`, the letter given, and `)`.
pub open spec fn indexed_in_parens(s: Seq<char>, i: int, lower: char, upper: char) -> Option<
    (int, ExpressionView),
> {
    match token(s, i, '(') {
        Some(j) => match expression(s, j) {
            Some((k, value)) => match token(s, k, ',') {
                Some(l) => match letter(s, l, lower, upper) {
                    Some(m) => match token(s, m, ')') {
                        Some(end) => Some((end, value)),
                        None => None,
                    },
                    None => None,
                },
                None => None,
            },
            None => None,
        },
        None => None,
    }
}

/// `(`, an expression, `,`, `x` and `)`.
pub open spec fn x_indirect(s: Seq<char>, i: int) -> Option<(int, ExpressionView, OpcodeModeView)> {
    match indexed_in_parens(s, i, 'x', 'X') {
        Some((end, value)) => Some((end, value, OpcodeModeView::XIndirect)),
        None => None,
    }
}

/// An expression, `,` and a second expression.
pub open spec fn address_pair(s: Seq<char>, i: int) -> Option<(int, ExpressionView, OpcodeModeView)> {
    match expression(s, i) {
        Some((j, first)) => match token(s, j, ',') {
            Some(k) => match expression(s, k) {
                Some((end, second)) => Some((end, first, OpcodeModeView::Move { second })),
                None => None,
            },
            None => None,
        },
        None => None,
    }
}

/// An expression alone.
pub open spec fn address(s: Seq<char>, i: int) -> Option<(int, ExpressionView, OpcodeModeView)> {
    match expression(s, i) {
        Some((end, value)) => Some((end, value, OpcodeModeView::Address)),
        None => None,
    }
}

/// `#` and an expression.
pub open spec fn immediate(s: Seq<char>, i: int) -> Option<(int, ExpressionView, OpcodeModeView)> {
    match token(s, i, '#') {
        Some(j) => match expression(s, j) {
            Some((end, value)) => Some((end, value, OpcodeModeView::Immediate)),
            None => None,
        },
        None => None,
    }
}

/// `[`, an expression and `]`.
pub open spec fn long_indirect(s: Seq<char>, i: int) -> Option<
    (int, ExpressionView, OpcodeModeView),
> {
    match token(s, i, '[') {
        Some(j) => match expression(s, j) {
            Some((k, value)) => match token(s, k, ']') {
                Some(end) => Some((end, value, OpcodeModeView::LongIndirect)),
                None => None,
            },
            None => None,
        },
        None => None,
    }
}

/// `[`, an expression, `]`, `,` and `y`.
pub open spec fn long_indirect_y(s: Seq<char>, i: int) -> Option<
    (int, ExpressionView, OpcodeModeView),
> {
    match long_indirect(s, i) {
        Some((j, value, _)) => match token(s, j, ',') {
            Some(k) => match letter(s, k, 'y', 'Y') {
                Some(end) => Some((end, value, OpcodeModeView::LongIndirectY)),
                None => None,
            },
            None => None,
        },
        None => None,
    }
}

/// `(`, an expression, `,`, `s`, `)`, `,` and `y`.
pub open spec fn stack_indirect_y(s: Seq<char>, i: int) -> Option<
    (int, ExpressionView, OpcodeModeView),
> {
    match indexed_in_parens(s, i, 's', 'S') {
        Some((j, value)) => match token(s, j, ',') {
            Some(k) => match letter(s, k, 'y', 'Y') {
                Some(end) => Some((end, value, OpcodeModeView::StackIndirectY)),
                None => None,
            },
            None => None,
        },
        None => None,
    }
}

/// The operand of a processor operation: the first that matches of the
/// shapes, in the order in which they are tried.
pub open spec fn operand(s: Seq<char>, i: int) -> Option<(int, ExpressionView, OpcodeModeView)> {
    if indirect_y(s, i) is Some {
        indirect_y(s, i)
    } else if indirect(s, i) is Some {
        indirect(s, i)
    } else if x_indirect(s, i) is Some {
        x_indirect(s, i)
    } else if address_pair(s, i) is Some {
        address_pair(s, i)
    } else if address(s, i) is Some {
        address(s, i)
    } else if immediate(s, i) is Some {
        immediate(s, i)
    } else if long_indirect_y(s, i) is Some {
        long_indirect_y(s, i)
    } else if long_indirect(s, i) is Some {
        long_indirect(s, i)
    } else {
        stack_indirect_y(s, i)
    }
}

/// A processor operation: a mnemonic, a width suffix if there is one, and an
/// operand.
pub open spec fn opcode(s: Seq<char>, i: int) -> Result<(int, OpcodeView), ParseError> {
    let start = skip(s, i);
    match identifier(s, start) {
        Some(name_end) => {
            let (operand_start, width) = match width_suffix(s, name_end) {
                Some((j, width)) => (j, Some(width)),
                None => (name_end, None),
            };
            match operand(s, operand_start) {
                Some((end, value, mode)) => Ok(
                    (end, OpcodeView { name: s.subrange(start, name_end), width, mode, value }),
                ),
                None => Err(ParseError::ExhaustedAlternatives),
            }
        },
        None => Err(ParseError::Lexical),
    }
}

/// A statement: a processor operation.
pub open spec fn statement(s: Seq<char>, i: int) -> Result<(int, StatementView), ParseError> {
    match opcode(s, i) {
        Ok((end, found)) => Ok((end, StatementView::Opcode(found))),
        Err(error) => Err(error),
    }
}

/// An assignment: a name, `=` and an expression.
pub open spec fn assignment(s: Seq<char>, i: int) -> Result<(int, StatementView), ParseError> {
    let start = skip(s, i);
    match identifier(s, start) {
        Some(name_end) => match token(s, name_end, '=') {
            Some(j) => match expression(s, j) {
                Some((end, value)) => Ok(
                    (end, StatementView::Assignment(s.subrange(start, name_end), value)),
                ),
                None => Err(ParseError::ExhaustedAlternatives),
            },
            None => Err(ParseError::GrammarMismatch),
        },
        None => Err(ParseError::Lexical),
    }
}

/// What is left of the text after a rule that ended at `end`: the
/// whitespace that follows the rule is dropped.
pub open spec fn remainder(s: Seq<char>, end: int) -> Seq<char> {
    s.subrange(skip(s, end), s.len() as int)
}

/// The parse of a text that begins with an identifier: what is left of the
/// text, and the identifier.
pub open spec fn parse_identifier(s: Seq<char>) -> Result<(Seq<char>, Seq<char>), ParseError> {
    match identifier(s, 0) {
        Some(end) => Ok((s.subrange(end, s.len() as int), s.subrange(0, end))),
        None => Err(ParseError::Lexical),
    }
}

/// What a rule found, with the text that is left in place of the position
/// at which the rule ended.
pub open spec fn with_remainder<T>(s: Seq<char>, r: Result<(int, T), ParseError>) -> Result<
    (Seq<char>, T),
    ParseError,
> {
    match r {
        Ok((end, value)) => Ok((remainder(s, end), value)),
        Err(error) => Err(error),
    }
}

/// What a rule with alternatives found, or that none of them matched.
pub open spec fn or_exhausted<T>(r: Option<(int, T)>) -> Result<(int, T), ParseError> {
    match r {
        Some(found) => Ok(found),
        None => Err(ParseError::ExhaustedAlternatives),
    }
}

/// The parse of a text that begins with a decimal literal.
pub open spec fn parse_number(s: Seq<char>) -> Result<(Seq<char>, Number), ParseError> {
    with_remainder(s, number(s, 0))
}

/// The parse of a text that begins with a hexadecimal literal.
pub open spec fn parse_hex_number(s: Seq<char>) -> Result<(Seq<char>, Number), ParseError> {
    with_remainder(s, hex_number(s, 0))
}

/// The parse of a text that begins with an expression.
pub open spec fn parse_expression(s: Seq<char>) -> Result<(Seq<char>, ExpressionView), ParseError> {
    with_remainder(s, or_exhausted(expression(s, 0)))
}

/// The parse of a text that begins with a statement.
pub open spec fn parse_statement(s: Seq<char>) -> Result<(Seq<char>, StatementView), ParseError> {
    with_remainder(s, statement(s, 0))
}

/// The parse of a text that begins with an assignment.
pub open spec fn parse_assignment(s: Seq<char>) -> Result<(Seq<char>, StatementView), ParseError> {
    with_remainder(s, assignment(s, 0))
}

} // verus!
