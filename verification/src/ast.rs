//! The abstract syntax tree and its mathematical value.

use vstd::prelude::*;

verus! {

/// Prefix operators.
#[derive(PartialEq, Eq, Structural, Debug, Clone, Copy)]
pub enum PrefixOperator {
    BANG,
    NEGATE,
}

/// Infix operators.
#[derive(PartialEq, Eq, Structural, Debug, Clone, Copy)]
pub enum InfixOperator {
    PLUS,
    MINUS,
    MULTIPLY,
    DIVIDE,
    GREATERTHAN,
    LESSTHAN,
    EQUAL,
    NOTEQUAL,
}

/// The statements of the language.
#[derive(Debug, PartialEq)]
pub enum Statement {
    /// `let <identifier> = <expression>;`
    Let { identifier: String, value: Expression },
    /// `return <expression>;`
    Return { return_value: Expression },
    /// An expression standing as a statement.
    Expression(Expression),
}

/// A sequence of statements between braces.
#[derive(Debug, PartialEq)]
pub struct Block {
    pub statements: Vec<Statement>,
}

/// The expressions of the language.
#[derive(Debug, PartialEq)]
#[allow(inconsistent_fields)]
pub enum Expression {
    Identifier(String),
    IntegerLiteral(i64),
    Prefix { operator: PrefixOperator, right: Box<Expression> },
    Infix { left: Box<Expression>, operator: InfixOperator, right: Box<Expression> },
    Boolean(bool),
    If { condition: Box<Expression>, consequence: Block, alternative: Option<Block> },
    FunctionLiteral { parameters: Vec<String>, body: Block },
    FunctionCall { function: Box<Expression>, arguments: Vec<Expression> },
}

/// A program: its top-level statements in order.
#[derive(Debug, PartialEq)]
pub struct Program {
    pub statements: Vec<Statement>,
}

/// The mathematical value of a [`Statement`].
pub enum StatementView {
    Let { identifier: Seq<char>, value: ExpressionView },
    Return { return_value: ExpressionView },
    Expression(ExpressionView),
}

/// The mathematical value of an [`Expression`]; a block is the sequence of
/// its statements.
#[allow(inconsistent_fields)]
pub enum ExpressionView {
    Identifier(Seq<char>),
    IntegerLiteral(i64),
    Prefix { operator: PrefixOperator, right: Box<ExpressionView> },
    Infix { left: Box<ExpressionView>, operator: InfixOperator, right: Box<ExpressionView> },
    Boolean(bool),
    If {
        condition: Box<ExpressionView>,
        consequence: Seq<StatementView>,
        alternative: Option<Seq<StatementView>>,
    },
    FunctionLiteral { parameters: Seq<Seq<char>>, body: Seq<StatementView> },
    FunctionCall { function: Box<ExpressionView>, arguments: Seq<ExpressionView> },
}

pub open spec fn names_view(names: Seq<String>) -> Seq<Seq<char>> {
    Seq::new(names.len(), |i: int| names[i]@)
}

pub open spec fn expression_view(e: Expression) -> ExpressionView
    decreases e,
{
    match e {
        Expression::Identifier(name) => ExpressionView::Identifier(name@),
        Expression::IntegerLiteral(value) => ExpressionView::IntegerLiteral(value),
        Expression::Prefix { operator, right } => ExpressionView::Prefix {
            operator,
            right: Box::new(expression_view(*right)),
        },
        Expression::Infix { left, operator, right } => ExpressionView::Infix {
            left: Box::new(expression_view(*left)),
            operator,
            right: Box::new(expression_view(*right)),
        },
        Expression::Boolean(value) => ExpressionView::Boolean(value),
        Expression::If { condition, consequence, alternative } => ExpressionView::If {
            condition: Box::new(expression_view(*condition)),
            consequence: statements_view(consequence.statements@),
            alternative: match alternative {
                Some(block) => Some(statements_view(block.statements@)),
                None => None,
            },
        },
        Expression::FunctionLiteral { parameters, body } => ExpressionView::FunctionLiteral {
            parameters: names_view(parameters@),
            body: statements_view(body.statements@),
        },
        Expression::FunctionCall { function, arguments } => ExpressionView::FunctionCall {
            function: Box::new(expression_view(*function)),
            arguments: expressions_view(arguments@),
        },
    }
}

pub open spec fn expressions_view(es: Seq<Expression>) -> Seq<ExpressionView>
    decreases es,
{
    Seq::new(
        es.len(),
        |i: int|
            if 0 <= i < es.len() {
                expression_view(es[i])
            } else {
                arbitrary()
            },
    )
}

pub open spec fn statement_view(s: Statement) -> StatementView
    decreases s,
{
    match s {
        Statement::Let { identifier, value } => StatementView::Let {
            identifier: identifier@,
            value: expression_view(value),
        },
        Statement::Return { return_value } => StatementView::Return {
            return_value: expression_view(return_value),
        },
        Statement::Expression(expression) => StatementView::Expression(
            expression_view(expression),
        ),
    }
}

pub open spec fn statements_view(ss: Seq<Statement>) -> Seq<StatementView>
    decreases ss,
{
    Seq::new(
        ss.len(),
        |i: int|
            if 0 <= i < ss.len() {
                statement_view(ss[i])
            } else {
                arbitrary()
            },
    )
}

impl View for Expression {
    type V = ExpressionView;

    open spec fn view(&self) -> ExpressionView {
        expression_view(*self)
    }
}

impl View for Statement {
    type V = StatementView;

    open spec fn view(&self) -> StatementView {
        statement_view(*self)
    }
}

impl View for Block {
    type V = Seq<StatementView>;

    open spec fn view(&self) -> Seq<StatementView> {
        statements_view(self.statements@)
    }
}

impl View for Program {
    type V = Seq<StatementView>;

    open spec fn view(&self) -> Seq<StatementView> {
        statements_view(self.statements@)
    }
}

impl Program {
    /// The empty program.
    pub fn new() -> (program: Self)
        ensures
            program@ == Seq::<StatementView>::empty(),
    {
        let program = Self { statements: Vec::new() };
        assert(program@ =~= Seq::<StatementView>::empty());
        program
    }
}

/// A copy of the names.
pub fn duplicate_names(names: &Vec<String>) -> (copy: Vec<String>)
    ensures
        names_view(copy@) == names_view(names@),
{
    let mut copy: Vec<String> = Vec::new();
    let mut i: usize = 0;
    while i < names.len()
        invariant
            i <= names@.len(),
            copy@.len() == i,
            forall|k: int| 0 <= k < i ==> (#[trigger] copy@[k])@ == names@[k]@,
        decreases names@.len() - i,
    {
        copy.push(names[i].clone());
        i = i + 1;
    }
    assert(names_view(copy@) =~= names_view(names@));
    copy
}

/// A copy of the statements.
pub fn duplicate_statements(statements: &Vec<Statement>) -> (copy: Vec<Statement>)
    ensures
        statements_view(copy@) == statements_view(statements@),
    decreases statements,
{
    let mut copy: Vec<Statement> = Vec::new();
    let mut i: usize = 0;
    while i < statements.len()
        invariant
            i <= statements@.len(),
            copy@.len() == i,
            forall|k: int| 0 <= k < i ==> (#[trigger] copy@[k])@ == statements@[k]@,
        decreases statements@.len() - i,
    {
        copy.push(statements[i].duplicate());
        i = i + 1;
    }
    assert(statements_view(copy@) =~= statements_view(statements@));
    copy
}

impl Block {
    /// A copy of the block.
    pub fn duplicate(&self) -> (copy: Self)
        ensures
            copy@ == self@,
        decreases self,
    {
        Block { statements: duplicate_statements(&self.statements) }
    }
}

impl Statement {
    /// A copy of the statement.
    pub fn duplicate(&self) -> (copy: Self)
        ensures
            copy@ == self@,
        decreases self,
    {
        match self {
            Statement::Let { identifier, value } => Statement::Let {
                identifier: identifier.clone(),
                value: value.duplicate(),
            },
            Statement::Return { return_value } => Statement::Return {
                return_value: return_value.duplicate(),
            },
            Statement::Expression(expression) => Statement::Expression(expression.duplicate()),
        }
    }
}

impl Expression {
    /// A copy of the expression.
    pub fn duplicate(&self) -> (copy: Self)
        ensures
            copy@ == self@,
        decreases self,
    {
        match self {
            Expression::Identifier(name) => Expression::Identifier(name.clone()),
            Expression::IntegerLiteral(value) => Expression::IntegerLiteral(*value),
            Expression::Prefix { operator, right } => Expression::Prefix {
                operator: *operator,
                right: Box::new(right.duplicate()),
            },
            Expression::Infix { left, operator, right } => Expression::Infix {
                left: Box::new(left.duplicate()),
                operator: *operator,
                right: Box::new(right.duplicate()),
            },
            Expression::Boolean(value) => Expression::Boolean(*value),
            Expression::If { condition, consequence, alternative } => Expression::If {
                condition: Box::new(condition.duplicate()),
                consequence: consequence.duplicate(),
                alternative: match alternative {
                    Some(block) => Some(block.duplicate()),
                    None => None,
                },
            },
            Expression::FunctionLiteral { parameters, body } => Expression::FunctionLiteral {
                parameters: duplicate_names(parameters),
                body: body.duplicate(),
            },
            Expression::FunctionCall { function, arguments } => {
                let mut copy: Vec<Expression> = Vec::new();
                let mut i: usize = 0;
                while i < arguments.len()
                    invariant
                        i <= arguments@.len(),
                        copy@.len() == i,
                        forall|k: int| 0 <= k < i ==> (#[trigger] copy@[k])@ == arguments@[k]@,
                        decreases_to!(self => arguments),
                    decreases arguments@.len() - i,
                {
                    copy.push(arguments[i].duplicate());
                    i = i + 1;
                }
                assert(expressions_view(copy@) =~= expressions_view(arguments@));
                Expression::FunctionCall {
                    function: Box::new(function.duplicate()),
                    arguments: copy,
                }
            },
        }
    }
}

} // verus!
