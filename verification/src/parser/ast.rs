//! Syntactic elements of assembly.
//!
//! Each type of the tree has a view, the value that the grammar's
//! definition speaks of: a name is the sequence of its characters, a vector
//! is the sequence of its elements' views.

use vstd::prelude::*;

verus! {

/// An operator that takes two arguments.
///
/// Those operators map to mathematical operators on numbers.
#[derive(Copy, Clone, Debug, Eq, PartialEq)]
pub enum BinaryOperator {
    /// Addition (`+`).
    Add,
    /// Subtraction (`-`).
    Sub,
    /// Multiplication (`*`).
    Mul,
    /// Division (`/`).
    Div,
    /// Shift left (`<<`).
    Shl,
    /// Shift right (`>>`).
    Shr,
    /// Bitwise xor (`^`).
    Xor,
    /// Bitwise and (`&`).
    And,
    /// Bitwise or (`|`).
    Or,
}

/// A byte width of a numeric literal.
///
/// The processor has immediate operations of one and of two bytes under the
/// same opcode, and which of them runs depends on its mode. The assembler
/// does not guess the size of a number from its value. Only the way a
/// literal is written suggests one: a hexadecimal literal of exactly two
/// digits stands for one byte, one of exactly four digits for two.
#[derive(Copy, Clone, Debug, Eq, PartialEq)]
pub enum NumberWidth {
    /// The literal suggests no width.
    Unspecified,
    /// A hexadecimal literal of two digits.
    OneByte,
    /// A hexadecimal literal of four digits.
    TwoBytes,
}

/// A numeric literal: its value and the width its spelling suggests.
#[derive(Clone, Debug, Eq, PartialEq)]
pub struct Number {
    pub value: u32,
    pub width: NumberWidth,
}

impl View for Number {
    type V = Number;

    open spec fn view(&self) -> Number {
        *self
    }
}

/// A unique name of an identifier in a program.
///
/// Most of the time a `Label` is used where a value is referred to. A
/// variable name stands where a relative label would make no sense, as on
/// the left of an assignment.
#[derive(Clone, Debug, Eq, PartialEq)]
pub struct VariableName<'a>(pub &'a str);

impl<'a> View for VariableName<'a> {
    type V = Seq<char>;

    open spec fn view(&self) -> Seq<char> {
        self.0@
    }
}

/// A reference to a location in assembly.
///
/// It can be named or relative. A relative location is a signed integer:
/// its sign tells the direction, backward for a negative one and forward
/// for a positive one, and its size tells how many locations away.
#[derive(Clone, Debug, Eq, PartialEq)]
pub enum Label<'a> {
    Named(VariableName<'a>),
    Relative(i32),
}

/// The view of a `Label`.
pub ghost enum LabelView {
    Named(Seq<char>),
    Relative(int),
}

impl<'a> View for Label<'a> {
    type V = LabelView;

    open spec fn view(&self) -> LabelView {
        match self {
            Label::Named(name) => LabelView::Named(name@),
            Label::Relative(depth) => LabelView::Relative(*depth as int),
        }
    }
}

/// A value written as a formula: a number, a label, two expressions under
/// an operator, or a call with its arguments.
#[derive(Debug, Eq, PartialEq)]
pub enum Expression<'a> {
    Number(Number),
    Variable(Label<'a>),
    Binary(BinaryOperator, Box<(Expression<'a>, Expression<'a>)>),
    Call(VariableName<'a>, Vec<Expression<'a>>),
}

/// The view of an `Expression`.
pub ghost enum ExpressionView {
    Number(Number),
    Variable(LabelView),
    Binary(BinaryOperator, Box<ExpressionView>, Box<ExpressionView>),
    Call(Seq<char>, Seq<ExpressionView>),
}

/// The view of an expression, node by node.
pub open spec fn expression_view(expression: &Expression) -> ExpressionView
    decreases expression,
{
    match expression {
        Expression::Number(number) => ExpressionView::Number(*number),
        Expression::Variable(label) => ExpressionView::Variable(label@),
        Expression::Binary(operator, operands) => ExpressionView::Binary(
            *operator,
            Box::new(expression_view(&operands.0)),
            Box::new(expression_view(&operands.1)),
        ),
        Expression::Call(name, arguments) => ExpressionView::Call(
            name@,
            expression_views(arguments@),
        ),
    }
}

/// The views of the expressions of a sequence, in their order.
pub open spec fn expression_views(expressions: Seq<Expression>) -> Seq<ExpressionView>
    decreases expressions,
{
    Seq::new(
        expressions.len(),
        |i: int|
            if 0 <= i < expressions.len() {
                expression_view(&expressions[i])
            } else {
                arbitrary()
            },
    )
}

impl<'a> View for Expression<'a> {
    type V = ExpressionView;

    open spec fn view(&self) -> ExpressionView {
        expression_view(self)
    }
}

impl<'a> Clone for Expression<'a> {
    /// A copy of the whole tree.
    fn clone(&self) -> (copy: Self)
        ensures
            copy@ == self@,
        decreases self,
    {
        match self {
            Expression::Number(number) => Expression::Number(
                Number { value: number.value, width: number.width },
            ),
            Expression::Variable(label) => Expression::Variable(
                match label {
                    Label::Named(name) => Label::Named(VariableName(name.0)),
                    Label::Relative(depth) => Label::Relative(*depth),
                },
            ),
            Expression::Binary(operator, operands) => Expression::Binary(
                *operator,
                Box::new((operands.0.clone(), operands.1.clone())),
            ),
            Expression::Call(name, arguments) => {
                let mut copies: Vec<Expression<'a>> = Vec::new();
                let mut i: usize = 0;
                while i < arguments.len()
                    invariant
                        self is Call && self->Call_1 == *arguments,
                        i <= arguments.len(),
                        copies.len() == i,
                        forall|k: int| 0 <= k < i ==> copies[k]@ == arguments[k]@,
                    decreases arguments.len() - i,
                {
                    proof {
                        vstd::std_specs::vec::axiom_vec_index_decreases(*arguments, i as int);
                    }
                    copies.push(arguments[i].clone());
                    i += 1;
                }
                assert(expression_views(copies@) =~= expression_views(arguments@));
                Expression::Call(VariableName(name.0), copies)
            },
        }
    }
}

/// The shape of the operand of a processor operation.
#[derive(Debug, Eq, PartialEq)]
pub enum OpcodeMode<'a> {
    /// No operand.
    Implied,
    /// `#$`
    Immediate,
    /// `$`
    Address,
    /// `($)`
    Indirect,
    /// `($,x)`
    XIndirect,
    /// `($),y`
    IndirectY,
    /// `($,s),y`
    StackIndirectY,
    /// `[$]`
    LongIndirect,
    /// `[$],y`
    LongIndirectY,
    /// `$,$`
    Move { second: Expression<'a> },
    /// `A`
    Accumulator,
}

/// The view of an `OpcodeMode`.
pub ghost enum OpcodeModeView {
    Implied,
    Immediate,
    Address,
    Indirect,
    XIndirect,
    IndirectY,
    StackIndirectY,
    LongIndirect,
    LongIndirectY,
    Move { second: ExpressionView },
    Accumulator,
}

impl<'a> View for OpcodeMode<'a> {
    type V = OpcodeModeView;

    open spec fn view(&self) -> OpcodeModeView {
        match self {
            OpcodeMode::Implied => OpcodeModeView::Implied,
            OpcodeMode::Immediate => OpcodeModeView::Immediate,
            OpcodeMode::Address => OpcodeModeView::Address,
            OpcodeMode::Indirect => OpcodeModeView::Indirect,
            OpcodeMode::XIndirect => OpcodeModeView::XIndirect,
            OpcodeMode::IndirectY => OpcodeModeView::IndirectY,
            OpcodeMode::StackIndirectY => OpcodeModeView::StackIndirectY,
            OpcodeMode::LongIndirect => OpcodeModeView::LongIndirect,
            OpcodeMode::LongIndirectY => OpcodeModeView::LongIndirectY,
            OpcodeMode::Move { second } => OpcodeModeView::Move { second: second@ },
            OpcodeMode::Accumulator => OpcodeModeView::Accumulator,
        }
    }
}

/// A processor operation: its mnemonic, the operand size that a suffix of
/// the mnemonic asks for, and its operand.
#[derive(Debug, Eq, PartialEq)]
pub struct Opcode<'a> {
    pub name: &'a str,
    pub width: Option<u32>,
    pub mode: OpcodeMode<'a>,
    pub value: Expression<'a>,
}

/// The view of an `Opcode`.
pub ghost struct OpcodeView {
    pub name: Seq<char>,
    pub width: Option<u32>,
    pub mode: OpcodeModeView,
    pub value: ExpressionView,
}

impl<'a> View for Opcode<'a> {
    type V = OpcodeView;

    open spec fn view(&self) -> OpcodeView {
        OpcodeView { name: self.name@, width: self.width, mode: self.mode@, value: self.value@ }
    }
}

/// A unit that can stand by itself in a program.
#[derive(Debug, Eq, PartialEq)]
pub enum Statement<'a> {
    /// Label declaration.
    Label(Label<'a>),
    /// Processor operation.
    Opcode(Opcode<'a>),
    /// Group of if blocks, possibly with else if conditions.
    If(Vec<Condition<'a>>),
    /// Assignment of `Expression` to `VariableName`.
    Assignment(VariableName<'a>, Expression<'a>),
}

/// A single "if" block with predicate and statements.
///
/// This is usually used in a `Vec`, and represents a single predicate along
/// with statements to run if it is met.
#[derive(Debug, Eq, PartialEq)]
pub struct Condition<'a> {
    pub predicate: Option<Expression<'a>>,
    pub statements: Vec<Statement<'a>>,
}

/// The view of a `Statement`.
pub ghost enum StatementView {
    Label(LabelView),
    Opcode(OpcodeView),
    If(Seq<ConditionView>),
    Assignment(Seq<char>, ExpressionView),
}

/// The view of a `Condition`.
pub ghost struct ConditionView {
    pub predicate: Option<ExpressionView>,
    pub statements: Seq<StatementView>,
}

/// The view of a statement, with the views of the statements inside it.
pub open spec fn statement_view(statement: &Statement) -> StatementView
    decreases statement,
{
    match statement {
        Statement::Label(label) => StatementView::Label(label@),
        Statement::Opcode(opcode) => StatementView::Opcode(opcode@),
        Statement::If(conditions) => StatementView::If(
            Seq::new(
                conditions.len() as nat,
                |i: int|
                    if 0 <= i < conditions.len() {
                        condition_view(&conditions[i])
                    } else {
                        arbitrary()
                    },
            ),
        ),
        Statement::Assignment(name, value) => StatementView::Assignment(name@, value@),
    }
}

/// The view of a condition, with the views of its statements.
pub open spec fn condition_view(condition: &Condition) -> ConditionView
    decreases condition,
{
    ConditionView {
        predicate: match condition.predicate {
            Some(predicate) => Some(predicate@),
            None => None,
        },
        statements: Seq::new(
            condition.statements.len() as nat,
            |i: int|
                if 0 <= i < condition.statements.len() {
                    statement_view(&condition.statements[i])
                } else {
                    arbitrary()
                },
        ),
    }
}

impl<'a> View for Statement<'a> {
    type V = StatementView;

    open spec fn view(&self) -> StatementView {
        statement_view(self)
    }
}

impl<'a> View for Condition<'a> {
    type V = ConditionView;

    open spec fn view(&self) -> ConditionView {
        condition_view(self)
    }
}

} // verus!
