use mvp::parser::ast::{
    BinaryOperator, Expression, Label, Number, NumberWidth, OpcodeMode, Statement,
};
use mvp::parser::error::ParseError;
use mvp::parser::grammar::{expression, expression_at, identifier, statement, statement_at};
use mvp::parser::source::Source;

fn literal(value: u32, width: NumberWidth) -> Expression<'static> {
    Expression::Number(Number { value, width })
}

#[test]
fn decimal_texts_parse_to_their_value() {
    for n in [0u32, 1, 9, 10, 255, 65535, 65536, 1_000_000, u32::MAX - 1, u32::MAX] {
        let text = format!("{}", n);
        assert_eq!(expression(&text), Ok(("", literal(n, NumberWidth::Unspecified))));
        let padded = format!("000{}", n);
        assert_eq!(expression(&padded), Ok(("", literal(n, NumberWidth::Unspecified))));
    }
}

#[test]
fn hex_texts_parse_to_their_value_and_width() {
    for n in [0u32, 1, 0xF, 0x10, 0xFF, 0x100, 0xFFFF, 0x10000, u32::MAX] {
        let text = format!("${:X}", n);
        let digits = text.len() - 1;
        let width = match digits {
            2 => NumberWidth::OneByte,
            4 => NumberWidth::TwoBytes,
            _ => NumberWidth::Unspecified,
        };
        assert_eq!(expression(&text), Ok(("", literal(n, width))));
        let lower = format!("${:x}", n);
        assert_eq!(expression(&lower), Ok(("", literal(n, width))));
    }
    assert_eq!(expression("$01"), Ok(("", literal(1, NumberWidth::OneByte))));
    assert_eq!(expression("$0001"), Ok(("", literal(1, NumberWidth::TwoBytes))));
    assert_eq!(expression("$001"), Ok(("", literal(1, NumberWidth::Unspecified))));
    assert_eq!(expression("$00000001"), Ok(("", literal(1, NumberWidth::Unspecified))));
}

#[test]
fn literals_beyond_32_bits_are_no_expressions() {
    for text in ["4294967296", "4294967300", "10000000000", "18446744073709551616"] {
        assert_eq!(expression(text), Err(ParseError::ExhaustedAlternatives));
    }
    for text in ["$100000000", "$FFFFFFFF0", "$123456789ABCDEF"] {
        assert_eq!(expression(text), Err(ParseError::ExhaustedAlternatives));
    }
}

#[test]
fn runs_of_signs_are_relative_labels() {
    for length in 1..40usize {
        let forward = "+".repeat(length);
        assert_eq!(
            expression(&forward),
            Ok(("", Expression::Variable(Label::Relative(length as i32)))),
        );
        let backward = "-".repeat(length);
        assert_eq!(
            expression(&backward),
            Ok(("", Expression::Variable(Label::Relative(-(length as i32))))),
        );
    }
}

#[test]
fn a_parse_of_the_rest_is_a_parse_in_place() {
    let text = "LDA #1 + 2 STA (3),y ROL 4 , 5 :";
    let src = Source::new(text);
    let characters: Vec<char> = text.chars().collect();
    for k in 0..=characters.len() {
        let ahead: String = characters[k..].iter().collect();
        let alone = statement(&ahead);
        let in_place = statement_at(&src, k);
        match (alone, in_place) {
            (Ok((rest, found)), Ok((end, same))) => {
                assert_eq!(found, same);
                let left: String = characters[end..].iter().collect();
                assert_eq!(rest, left.trim_start_matches([' ', '\t', '\r', '\n']));
            }
            (Err(error), Err(same)) => assert_eq!(error, same),
            (alone, in_place) => panic!("at {}: {:?} and {:?}", k, alone, in_place),
        }
        let alone = expression(&ahead);
        let in_place = expression_at(&src, k);
        match (alone, in_place) {
            (Ok((rest, found)), Some((end, same))) => {
                assert_eq!(found, same);
                let left: String = characters[end..].iter().collect();
                assert_eq!(rest, left.trim_start_matches([' ', '\t', '\r', '\n']));
            }
            (Err(error), None) => assert_eq!(error, ParseError::ExhaustedAlternatives),
            (alone, in_place) => panic!("at {}: {:?} and {:?}", k, alone, in_place),
        }
    }
}

#[test]
fn what_is_left_parses_by_itself() {
    let (rest, first) = statement("LDA #1 + 2 STA (3),y ROL 4 , 5 :").unwrap();
    assert_eq!(rest, "STA (3),y ROL 4 , 5 :");
    let (rest, second) = statement(rest).unwrap();
    assert_eq!(rest, "ROL 4 , 5 :");
    let (rest, third) = statement(rest).unwrap();
    assert_eq!(rest, ":");
    assert_eq!(statement(rest), Err(ParseError::Lexical));
    assert_eq!(statement("STA (3),y ROL 4 , 5 :").map(|(_, found)| found), Ok(second));
    assert_eq!(statement("ROL 4 , 5 :").map(|(_, found)| found), Ok(third));
    assert_eq!(statement("LDA #1 + 2 ").map(|(_, found)| found), Ok(first));
}

#[test]
fn the_same_text_parses_the_same_twice() {
    for text in ["LDA ($19)+2 :", "f(1, 2", "", "+ + ++", "LDA.w #$1234", "世界 , x"] {
        assert_eq!(statement(text), statement(text));
        assert_eq!(expression(text), expression(text));
        assert_eq!(identifier(text), identifier(text));
    }
}

#[test]
fn indirect_leaves_no_operator() {
    for text in ["LDA (1)", "LDA (1) :", "LDA (1) x", "LDA (1) + 2", "LDA (1) -", "LDA (1)*", "LDA (1) /2"]
    {
        if let Ok((rest, Statement::Opcode(found))) = statement(text) {
            if found.mode == OpcodeMode::Indirect {
                assert!(!rest.starts_with(['+', '-', '*', '/']), "{:?} left {:?}", text, rest);
            }
        } else {
            panic!("{:?} is a statement", text);
        }
    }
    assert_eq!(statement("LDA (1) :").map(|(_, s)| mode_of(s)), Ok(OpcodeMode::Indirect));
    assert_eq!(statement("LDA (1) -").map(|(_, s)| mode_of(s)), Ok(OpcodeMode::Address));
}

fn mode_of(statement: Statement) -> OpcodeMode {
    match statement {
        Statement::Opcode(found) => found.mode,
        other => panic!("an operation was expected: {:?}", other),
    }
}

#[test]
fn address_leaves_no_second_operand() {
    for text in ["LDA 1", "LDA 1,", "LDA 1 , )", "LDA 1 , 2", "LDA 1,x", "LDA 1 , 4294967296"] {
        if let Ok((rest, Statement::Opcode(found))) = statement(text) {
            if found.mode == OpcodeMode::Address {
                if let Some(after) = rest.strip_prefix(',') {
                    assert!(expression(after).is_err(), "{:?} left {:?}", text, rest);
                }
            }
        } else {
            panic!("{:?} is a statement", text);
        }
    }
    assert_eq!(statement("LDA 1 , )").map(|(rest, s)| (rest, mode_of(s))), Ok((", )", OpcodeMode::Address)));
}

fn only_arithmetic(expression: &Expression) -> bool {
    match expression {
        Expression::Number(_) | Expression::Variable(_) => true,
        Expression::Binary(operator, operands) => {
            let known = [
                BinaryOperator::Add,
                BinaryOperator::Sub,
                BinaryOperator::Mul,
                BinaryOperator::Div,
            ];
            known.contains(operator) && only_arithmetic(&operands.0) && only_arithmetic(&operands.1)
        }
        Expression::Call(_, arguments) => arguments.iter().all(only_arithmetic),
    }
}

#[test]
fn operators_are_the_four_of_arithmetic() {
    for text in ["1 + 2 - 3 * 4 / 5", "f(1 * 2, g(3 - 4)) / (5 + 6)", "a << 2", "a ^ b", "a & b | c"] {
        let (_, found) = expression(text).unwrap();
        assert!(only_arithmetic(&found), "{:?}", found);
    }
    assert_eq!(expression("a << 2").map(|(rest, _)| rest), Ok("<< 2"));
    assert_eq!(expression("a ^ b").map(|(rest, _)| rest), Ok("^ b"));
}

#[test]
fn operands_have_one_of_nine_modes() {
    let texts = [
        "LDA (1),y", "LDA (1)", "LDA (1,x)", "LDA 1,2", "LDA 1", "LDA #1", "LDA [1],y", "LDA [1]",
        "LDA (1,s),y", "LDA A", "INX x",
    ];
    let mut seen = Vec::new();
    for text in texts {
        let mode = mode_of(statement(text).unwrap().1);
        assert_ne!(mode, OpcodeMode::Implied);
        assert_ne!(mode, OpcodeMode::Accumulator);
        seen.push(mode);
    }
    assert_eq!(seen[0], OpcodeMode::IndirectY);
    assert_eq!(seen[1], OpcodeMode::Indirect);
    assert_eq!(seen[2], OpcodeMode::XIndirect);
    assert_eq!(seen[4], OpcodeMode::Address);
    assert_eq!(seen[5], OpcodeMode::Immediate);
    assert_eq!(seen[6], OpcodeMode::LongIndirectY);
    assert_eq!(seen[7], OpcodeMode::LongIndirect);
    assert_eq!(seen[8], OpcodeMode::StackIndirectY);
    assert_eq!(seen[9], OpcodeMode::Address);
}

#[test]
fn an_identifier_and_the_rest_make_the_text() {
    for text in ["hello", "he+", "!!", "a﹏b c", "_x9 ", "世界=1", "x"] {
        let (rest, name) = identifier(text).unwrap();
        assert_eq!(format!("{}{}", name, rest), text);
        assert!(!name.is_empty());
        if let Some(next) = rest.chars().next() {
            assert!(!mvp::parser::lexical::valid_later_character(next));
        }
        assert!(mvp::parser::lexical::valid_identifier_first_character(name.chars().next().unwrap()));
        assert!(name.chars().skip(1).all(mvp::parser::lexical::valid_later_character));
    }
}
