use mvp::parser::ast::{
    BinaryOperator, Expression, Label, Number, NumberWidth, Opcode, OpcodeMode, Statement,
    VariableName,
};
use mvp::parser::error::ParseError;
use mvp::parser::grammar::{
    address_at, address_pair_at, arguments_at, assignment_at, call_at, expression_at,
    hex_number_at, identifier_at, immediate_at, indirect_at, indirect_y_at, label_at,
    long_indirect_at,
    long_indirect_y_at, number_at, opcode_at, operand_at, paren_expression_at,
    stack_indirect_y_at, statement_at, term_at, top_expression_at, x_indirect_at,
};
use mvp::parser::lexical::CharClass;
use mvp::parser::source::Source;

fn number_of(value: u32) -> Expression<'static> {
    Expression::Number(Number { value, width: NumberWidth::Unspecified })
}

fn name_of(name: &str) -> Expression<'_> {
    Expression::Variable(Label::Named(VariableName(name)))
}

fn joined<'a>(
    operator: BinaryOperator,
    left: Expression<'a>,
    right: Expression<'a>,
) -> Expression<'a> {
    Expression::Binary(operator, Box::new((left, right)))
}

#[test]
fn source_holds_the_characters() {
    let src = Source::new("a世b");
    assert_eq!(src.len(), 3);
    assert_eq!(src.get(0), Some('a'));
    assert_eq!(src.get(1), Some('世'));
    assert_eq!(src.get(2), Some('b'));
    assert_eq!(src.get(3), None);
    assert_eq!(src.get(usize::MAX), None);
    assert_eq!(src.char_at(0), 'a');
    assert_eq!(src.char_at(1), '世');
    assert_eq!(src.char_at(2), 'b');
    assert_eq!(src.slice(0, 3), "a世b");
    assert_eq!(src.slice(1, 2), "世");
    assert_eq!(src.slice(2, 3), "b");
    assert_eq!(src.slice(3, 3), "");
    assert_eq!(src.slice(0, 0), "");
}

#[test]
fn empty_source() {
    let src = Source::new("");
    assert_eq!(src.len(), 0);
    assert_eq!(src.get(0), None);
    assert_eq!(src.slice(0, 0), "");
    assert_eq!(src.scan(0, CharClass::Whitespace), 0);
}

#[test]
fn scan_finds_the_end_of_a_run() {
    let src = Source::new("  \t\r\n12ab_﹏é+++--x");
    assert_eq!(src.scan(0, CharClass::Whitespace), 5);
    assert_eq!(src.scan(5, CharClass::Whitespace), 5);
    assert_eq!(src.scan(5, CharClass::DecimalDigit), 7);
    assert_eq!(src.scan(5, CharClass::HexDigit), 9);
    assert_eq!(src.scan(5, CharClass::IdentifierContinue), 12);
    assert_eq!(src.scan(12, CharClass::Exactly('+')), 15);
    assert_eq!(src.scan(12, CharClass::Exactly('-')), 12);
    assert_eq!(src.scan(15, CharClass::Exactly('-')), 17);
    assert_eq!(src.scan(17, CharClass::IdentifierContinue), 18);
    assert_eq!(src.scan(18, CharClass::IdentifierContinue), 18);
}

#[test]
fn classes_of_characters() {
    assert!(CharClass::Whitespace.includes(' '));
    assert!(CharClass::Whitespace.includes('\t'));
    assert!(CharClass::Whitespace.includes('\r'));
    assert!(CharClass::Whitespace.includes('\n'));
    assert!(!CharClass::Whitespace.includes('\u{a0}'));
    assert!(!CharClass::Whitespace.includes('a'));
    assert!(CharClass::DecimalDigit.includes('0'));
    assert!(CharClass::DecimalDigit.includes('9'));
    assert!(!CharClass::DecimalDigit.includes('a'));
    assert!(!CharClass::DecimalDigit.includes('/'));
    assert!(!CharClass::DecimalDigit.includes(':'));
    assert!(CharClass::HexDigit.includes('0'));
    assert!(CharClass::HexDigit.includes('a'));
    assert!(CharClass::HexDigit.includes('f'));
    assert!(CharClass::HexDigit.includes('A'));
    assert!(CharClass::HexDigit.includes('F'));
    assert!(!CharClass::HexDigit.includes('g'));
    assert!(!CharClass::HexDigit.includes('G'));
    assert!(!CharClass::HexDigit.includes('@'));
    assert!(!CharClass::HexDigit.includes('`'));
    assert!(CharClass::IdentifierContinue.includes('_'));
    assert!(CharClass::IdentifierContinue.includes('7'));
    assert!(!CharClass::IdentifierContinue.includes('!'));
    assert!(CharClass::Exactly('+').includes('+'));
    assert!(!CharClass::Exactly('+').includes('-'));
}

#[test]
fn literals_in_place() {
    let src = Source::new("x 12 $ff");
    assert_eq!(number_at(&src, 1), Ok((4, Number { value: 12, width: NumberWidth::Unspecified })));
    assert_eq!(number_at(&src, 0), Err(ParseError::Lexical));
    assert_eq!(number_at(&src, 8), Err(ParseError::Lexical));
    assert_eq!(
        hex_number_at(&src, 4),
        Ok((8, Number { value: 255, width: NumberWidth::OneByte })),
    );
    assert_eq!(hex_number_at(&src, 1), Err(ParseError::Lexical));
    let src = Source::new("$100000000 4294967296");
    assert_eq!(hex_number_at(&src, 0), Err(ParseError::NumericOverflow));
    assert_eq!(number_at(&src, 10), Err(ParseError::NumericOverflow));
}

#[test]
fn identifiers_in_place() {
    let src = Source::new("ab cd9!e");
    assert_eq!(identifier_at(&src, 0), Some(2));
    assert_eq!(identifier_at(&src, 1), Some(2));
    assert_eq!(identifier_at(&src, 2), None);
    assert_eq!(identifier_at(&src, 3), Some(6));
    assert_eq!(identifier_at(&src, 5), None);
    assert_eq!(identifier_at(&src, 6), Some(8));
    assert_eq!(identifier_at(&src, 8), None);
    assert_eq!(identifier_at(&src, 9), None);
    assert_eq!(identifier_at(&src, usize::MAX), None);
}

#[test]
fn places_beyond_the_text_hold_nothing() {
    let src = Source::new("1");
    assert_eq!(expression_at(&src, 1), None);
    assert_eq!(expression_at(&src, 2), None);
    assert_eq!(expression_at(&src, usize::MAX), None);
    assert_eq!(statement_at(&src, 7), Err(ParseError::Lexical));
    assert_eq!(number_at(&src, 7), Err(ParseError::Lexical));
    assert_eq!(arguments_at(&src, 7), (7, vec![]));
    assert_eq!(src.scan(7, CharClass::DecimalDigit), 7);
    assert_eq!(operand_at(&src, usize::MAX), None);
}

#[test]
fn labels_in_place() {
    let src = Source::new("loop ++ --- !x");
    assert_eq!(label_at(&src, 0), Some((4, Label::Named(VariableName("loop")))));
    assert_eq!(label_at(&src, 4), Some((7, Label::Relative(2))));
    assert_eq!(label_at(&src, 7), Some((11, Label::Relative(-3))));
    assert_eq!(label_at(&src, 9), Some((11, Label::Relative(-2))));
    assert_eq!(label_at(&src, 11), Some((14, Label::Named(VariableName("!x")))));
    assert_eq!(label_at(&src, 14), None);
    let src = Source::new("4");
    assert_eq!(label_at(&src, 0), None);
}

#[test]
fn expressions_in_place() {
    let src = Source::new("1 + 2 * 3, (4)");
    let sum = joined(
        BinaryOperator::Add,
        number_of(1),
        joined(BinaryOperator::Mul, number_of(2), number_of(3)),
    );
    assert_eq!(expression_at(&src, 0), Some((9, sum)));
    assert_eq!(
        expression_at(&src, 3),
        Some((9, joined(BinaryOperator::Mul, number_of(2), number_of(3)))),
    );
    assert_eq!(expression_at(&src, 9), None);
    assert_eq!(expression_at(&src, 10), Some((14, number_of(4))));
    assert_eq!(expression_at(&src, 14), None);
    assert_eq!(term_at(&src, 0), Some((1, number_of(1))));
    assert_eq!(
        term_at(&src, 3),
        Some((9, joined(BinaryOperator::Mul, number_of(2), number_of(3)))),
    );
    assert_eq!(term_at(&src, 1), Some((3, Expression::Variable(Label::Relative(1)))));
    assert_eq!(term_at(&src, 9), None);
    assert_eq!(top_expression_at(&src, 3), Some((5, number_of(2))));
    assert_eq!(top_expression_at(&src, 10), Some((14, number_of(4))));
    assert_eq!(top_expression_at(&src, 5), None);
    assert_eq!(paren_expression_at(&src, 10), Some((14, number_of(4))));
    assert_eq!(paren_expression_at(&src, 0), None);
}

#[test]
fn calls_in_place() {
    let src = Source::new("f ( a , 1 ) g() h(1 2) k(");
    assert_eq!(
        call_at(&src, 0),
        Some((11, Expression::Call(VariableName("f"), vec![name_of("a"), number_of(1)]))),
    );
    assert_eq!(call_at(&src, 11), Some((15, Expression::Call(VariableName("g"), vec![]))));
    assert_eq!(call_at(&src, 15), None);
    assert_eq!(call_at(&src, 22), None);
    assert_eq!(top_expression_at(&src, 15), Some((17, name_of("h"))));
    assert_eq!(arguments_at(&src, 3), (9, vec![name_of("a"), number_of(1)]));
    assert_eq!(arguments_at(&src, 14), (14, vec![]));
    assert_eq!(arguments_at(&src, 18), (19, vec![number_of(1)]));
    assert_eq!(arguments_at(&src, 25), (25, vec![]));
}

#[test]
fn operand_shapes_one_by_one() {
    let src = Source::new("(1),y");
    assert_eq!(indirect_y_at(&src, 0), Some((5, number_of(1), OpcodeMode::IndirectY)));
    assert_eq!(indirect_at(&src, 0), Some((3, number_of(1), OpcodeMode::Indirect)));
    assert_eq!(x_indirect_at(&src, 0), None);
    assert_eq!(
        address_pair_at(&src, 0),
        Some((5, number_of(1), OpcodeMode::Move { second: name_of("y") })),
    );
    assert_eq!(address_at(&src, 0), Some((3, number_of(1), OpcodeMode::Address)));
    assert_eq!(immediate_at(&src, 0), None);
    assert_eq!(long_indirect_at(&src, 0), None);
    assert_eq!(long_indirect_y_at(&src, 0), None);
    assert_eq!(stack_indirect_y_at(&src, 0), None);
    assert_eq!(operand_at(&src, 0), Some((5, number_of(1), OpcodeMode::IndirectY)));

    let src = Source::new("(1,x)");
    assert_eq!(indirect_y_at(&src, 0), None);
    assert_eq!(indirect_at(&src, 0), None);
    assert_eq!(x_indirect_at(&src, 0), Some((5, number_of(1), OpcodeMode::XIndirect)));
    assert_eq!(address_pair_at(&src, 0), None);
    assert_eq!(address_at(&src, 0), None);
    assert_eq!(stack_indirect_y_at(&src, 0), None);
    assert_eq!(operand_at(&src, 0), Some((5, number_of(1), OpcodeMode::XIndirect)));

    let src = Source::new("(1,s),y");
    assert_eq!(x_indirect_at(&src, 0), None);
    assert_eq!(stack_indirect_y_at(&src, 0), Some((7, number_of(1), OpcodeMode::StackIndirectY)));
    assert_eq!(operand_at(&src, 0), Some((7, number_of(1), OpcodeMode::StackIndirectY)));

    let src = Source::new("(1,s)");
    assert_eq!(stack_indirect_y_at(&src, 0), None);
    assert_eq!(operand_at(&src, 0), None);

    let src = Source::new("[1],y");
    assert_eq!(long_indirect_at(&src, 0), Some((3, number_of(1), OpcodeMode::LongIndirect)));
    assert_eq!(long_indirect_y_at(&src, 0), Some((5, number_of(1), OpcodeMode::LongIndirectY)));
    assert_eq!(operand_at(&src, 0), Some((5, number_of(1), OpcodeMode::LongIndirectY)));

    let src = Source::new("[1] ,");
    assert_eq!(long_indirect_y_at(&src, 0), None);
    assert_eq!(operand_at(&src, 0), Some((3, number_of(1), OpcodeMode::LongIndirect)));

    let src = Source::new("#1");
    assert_eq!(immediate_at(&src, 0), Some((2, number_of(1), OpcodeMode::Immediate)));
    assert_eq!(address_at(&src, 0), None);
    assert_eq!(operand_at(&src, 0), Some((2, number_of(1), OpcodeMode::Immediate)));

    let src = Source::new("(1)+2");
    assert_eq!(indirect_at(&src, 0), None);
    assert_eq!(
        operand_at(&src, 0),
        Some((5, joined(BinaryOperator::Add, number_of(1), number_of(2)), OpcodeMode::Address)),
    );
}

#[test]
fn statements_in_place() {
    let src = Source::new("LDA #1\nSTA.l 2,x\n");
    let first = Opcode { name: "LDA", width: None, mode: OpcodeMode::Immediate, value: number_of(1) };
    let second = Opcode {
        name: "STA",
        width: Some(3),
        mode: OpcodeMode::Move { second: name_of("x") },
        value: number_of(2),
    };
    assert_eq!(
        opcode_at(&src, 0),
        Ok((6, Opcode { name: "LDA", width: None, mode: OpcodeMode::Immediate, value: number_of(1) })),
    );
    assert_eq!(statement_at(&src, 0), Ok((6, Statement::Opcode(first))));
    assert_eq!(statement_at(&src, 6), Ok((16, Statement::Opcode(second))));
    assert_eq!(statement_at(&src, 16), Err(ParseError::Lexical));
    assert_eq!(statement_at(&src, 17), Err(ParseError::Lexical));
    assert_eq!(opcode_at(&src, 3), Err(ParseError::Lexical));
    assert_eq!(
        opcode_at(&src, 2),
        Ok((6, Opcode { name: "A", width: None, mode: OpcodeMode::Immediate, value: number_of(1) })),
    );
    assert_eq!(opcode_at(&src, 15), Err(ParseError::ExhaustedAlternatives));
}

#[test]
fn assignments_in_place() {
    let src = Source::new("a = 1 b = c");
    assert_eq!(
        assignment_at(&src, 0),
        Ok((5, Statement::Assignment(VariableName("a"), number_of(1)))),
    );
    assert_eq!(
        assignment_at(&src, 5),
        Ok((11, Statement::Assignment(VariableName("b"), name_of("c")))),
    );
    assert_eq!(assignment_at(&src, 2), Err(ParseError::Lexical));
    assert_eq!(assignment_at(&src, 10), Err(ParseError::GrammarMismatch));
    assert_eq!(assignment_at(&src, 11), Err(ParseError::Lexical));
    let src = Source::new("a = )");
    assert_eq!(assignment_at(&src, 0), Err(ParseError::ExhaustedAlternatives));
}

#[test]
fn a_copy_of_an_expression_is_equal_to_it() {
    let (_, value) = mvp::parser::grammar::expression("f(1, g(x) * 2, ++) - $10").unwrap();
    let copy = value.clone();
    assert_eq!(copy, value);
}
