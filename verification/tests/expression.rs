use mvp::parser::ast::{BinaryOperator, Expression, Label, Number, NumberWidth, VariableName};
use mvp::parser::error::ParseError;
use mvp::parser::grammar;

fn plain(value: u32) -> Expression<'static> {
    Expression::Number(Number { value, width: NumberWidth::Unspecified })
}

fn one_byte(value: u32) -> Expression<'static> {
    Expression::Number(Number { value, width: NumberWidth::OneByte })
}

fn two_bytes(value: u32) -> Expression<'static> {
    Expression::Number(Number { value, width: NumberWidth::TwoBytes })
}

fn binary<'a>(
    operator: BinaryOperator,
    left: Expression<'a>,
    right: Expression<'a>,
) -> Expression<'a> {
    Expression::Binary(operator, Box::new((left, right)))
}

fn add<'a>(left: Expression<'a>, right: Expression<'a>) -> Expression<'a> {
    binary(BinaryOperator::Add, left, right)
}

fn sub<'a>(left: Expression<'a>, right: Expression<'a>) -> Expression<'a> {
    binary(BinaryOperator::Sub, left, right)
}

fn mul<'a>(left: Expression<'a>, right: Expression<'a>) -> Expression<'a> {
    binary(BinaryOperator::Mul, left, right)
}

fn div<'a>(left: Expression<'a>, right: Expression<'a>) -> Expression<'a> {
    binary(BinaryOperator::Div, left, right)
}

fn call_of<'a>(name: &'a str, arguments: Vec<Expression<'a>>) -> Expression<'a> {
    Expression::Call(VariableName(name), arguments)
}

fn named(name: &str) -> Expression<'_> {
    Expression::Variable(Label::Named(VariableName(name)))
}

fn relative(depth: i32) -> Expression<'static> {
    Expression::Variable(Label::Relative(depth))
}

#[test]
fn addition() {
    let result = grammar::expression("2 + 3 + 4");
    let expected = Ok(("", add(add(plain(2), plain(3)), plain(4))));
    assert_eq!(result, expected);
}

#[test]
fn multiplication() {
    let result = grammar::expression("20 * 30 / 40");
    let expected = Ok(("", div(mul(plain(20), plain(30)), plain(40))));
    assert_eq!(result, expected);
}

#[test]
fn precedence() {
    let result = grammar::expression("2 + 3 * 4 - 5 / 6 + 7");
    let expected = Ok((
        "",
        add(sub(add(plain(2), mul(plain(3), plain(4))), div(plain(5), plain(6))), plain(7)),
    ));
    assert_eq!(result, expected);
}

#[test]
fn parens() {
    let result = grammar::expression(" ( 2 + 3 ) * 4 ");
    let expected = Ok(("", mul(add(plain(2), plain(3)), plain(4))));
    assert_eq!(result, expected);
}

#[test]
fn reject_huge_numbers() {
    let result = grammar::expression("2859421875392683928732568");
    assert!(result.is_err());
}

#[test]
fn expression_reject_huge_numbers() {
    let result = grammar::expression("2859421875392683928732568");
    assert_eq!(result, Err(ParseError::ExhaustedAlternatives));
}

#[test]
fn call() {
    let result = grammar::expression(" sqrt ( 42 ) ");
    let expected = Ok(("", call_of("sqrt", vec![plain(42)])));
    assert_eq!(result, expected);
}

#[test]
fn complex_calls() {
    let result = grammar::expression("f(1, 8 + g(2, 3) + 9, 4) * 2");
    let middle = add(add(plain(8), call_of("g", vec![plain(2), plain(3)])), plain(9));
    let expected = Ok(("", mul(call_of("f", vec![plain(1), middle, plain(4)]), plain(2))));
    assert_eq!(result, expected);
}

#[test]
fn no_function_call_tuples() {
    let result = grammar::expression("f((1, 2))");
    let expected = Ok(("((1, 2))", named("f")));
    assert_eq!(result, expected);
}

#[test]
fn expression_no_function_call_tuples() {
    let result = grammar::expression("f((1, 2))");
    match result {
        Ok((rest, Expression::Variable(Label::Named(VariableName(name))))) => {
            assert_eq!(rest, "((1, 2))");
            assert_eq!(name, "f");
        }
        other => panic!("the call must not swallow the tuple: {:?}", other),
    }
}

#[test]
fn hex_digits() {
    let result = grammar::expression(" $ Fe ");
    assert_eq!(result, Ok(("", one_byte(0xFE))));
}

#[test]
fn two_byte_hex_digits() {
    let result = grammar::expression(" $ FeDc ");
    assert_eq!(result, Ok(("", two_bytes(0xFEDC))));
}

#[test]
fn invalid_hex_digit_size() {
    let result = grammar::expression(" $ FeD ");
    assert_eq!(result, Ok(("", plain(0xFED))));
}

#[test]
fn hex_digits_cannot_have_spaces() {
    let result = grammar::expression(" $ FE DC ");
    assert_eq!(result, Ok(("DC ", one_byte(0xFE))));
}

#[test]
fn expression_hex_digits_cannot_have_spaces() {
    let result = grammar::expression(" $ FE DC ");
    match result {
        Ok((rest, Expression::Number(number))) => {
            assert_eq!(rest, "DC ");
            assert_eq!(number.value, 0xFE);
            assert_eq!(number.width, NumberWidth::OneByte);
        }
        other => panic!("a literal was expected: {:?}", other),
    }
}

#[test]
fn label_math() {
    let result = grammar::expression("+ + ++");
    assert_eq!(result, Ok(("", add(relative(1), relative(2)))));
}

#[test]
fn backward_labels() {
    let result = grammar::expression("-- - -");
    assert_eq!(result, Ok(("", sub(relative(-2), relative(-1)))));
}

#[test]
fn label_run_is_taken_whole() {
    let result = grammar::expression("+++");
    assert_eq!(result, Ok(("", relative(3))));
    let result = grammar::expression("+-");
    assert_eq!(result, Ok(("-", relative(1))));
}

#[test]
fn empty_argument_list() {
    let result = grammar::expression("f()");
    assert_eq!(result, Ok(("", call_of("f", vec![]))));
}

#[test]
fn trailing_comma_is_no_call() {
    let result = grammar::expression("f(1,)");
    assert_eq!(result, Ok(("(1,)", named("f"))));
}

#[test]
fn whitespace_before_a_name() {
    let result = grammar::expression("2 + a * 3");
    assert_eq!(result, Ok(("", add(plain(2), mul(named("a"), plain(3))))));
}

#[test]
fn operator_without_operand_stays() {
    let result = grammar::expression("2 + ");
    assert_eq!(result, Ok(("+ ", plain(2))));
    let result = grammar::expression("2 * )");
    assert_eq!(result, Ok(("* )", plain(2))));
}

#[test]
fn overflowing_operand_stays() {
    let result = grammar::expression("2 + 4294967296");
    assert_eq!(result, Ok(("+ 4294967296", plain(2))));
}

#[test]
fn nested_parentheses() {
    let result = grammar::expression("((1))");
    assert_eq!(result, Ok(("", plain(1))));
    let result = grammar::expression("(1");
    assert_eq!(result, Err(ParseError::ExhaustedAlternatives));
}

#[test]
fn empty_text_is_no_expression() {
    assert_eq!(grammar::expression(""), Err(ParseError::ExhaustedAlternatives));
    assert_eq!(grammar::expression("   "), Err(ParseError::ExhaustedAlternatives));
    assert_eq!(grammar::expression(")"), Err(ParseError::ExhaustedAlternatives));
}

#[test]
fn tabs_and_newlines_are_whitespace() {
    let result = grammar::expression("\t1\r\n+\n2\t");
    assert_eq!(result, Ok(("", add(plain(1), plain(2)))));
}

#[test]
fn same_text_same_parse() {
    let first = grammar::expression("1 + 2 , 3 + 4");
    let (rest, value) = first.unwrap();
    assert_eq!(rest, ", 3 + 4");
    assert_eq!(value, add(plain(1), plain(2)));
    let again = grammar::expression(rest);
    assert_eq!(again, grammar::expression(", 3 + 4"));
    assert_eq!(again, Err(ParseError::ExhaustedAlternatives));
    let tail = grammar::expression(&rest[1..]);
    assert_eq!(tail, Ok(("", add(plain(3), plain(4)))));
    assert_eq!(tail, grammar::expression(" 3 + 4"));
}
