//! The text of operators, expressions, statements and programs.
//!
//! Infix and prefix expressions are written fully parenthesised, so the text
//! shows how an expression was grouped, not how it was laid out.

use vstd::prelude::*;
use crate::ast::{
    Block, Expression, ExpressionView, InfixOperator, PrefixOperator, Program, Statement,
    StatementView,
};
use crate::decimal::{int_to_string, integer_text};
use crate::error::{Error, ErrorView};
use crate::text::text_equals;

verus! {

pub open spec fn prefix_operator_text(operator: PrefixOperator) -> Seq<char> {
    match operator {
        PrefixOperator::BANG => "!"@,
        PrefixOperator::NEGATE => "-"@,
    }
}

pub open spec fn infix_operator_text(operator: InfixOperator) -> Seq<char> {
    match operator {
        InfixOperator::PLUS => "+"@,
        InfixOperator::MINUS => "-"@,
        InfixOperator::MULTIPLY => "*"@,
        InfixOperator::DIVIDE => "/"@,
        InfixOperator::GREATERTHAN => ">"@,
        InfixOperator::LESSTHAN => "<"@,
        InfixOperator::EQUAL => "=="@,
        InfixOperator::NOTEQUAL => "!="@,
    }
}

/// The prefix operator that a text names, if it names one.
pub open spec fn prefix_operator_of(text: Seq<char>) -> Option<PrefixOperator> {
    if text == "!"@ {
        Some(PrefixOperator::BANG)
    } else if text == "-"@ {
        Some(PrefixOperator::NEGATE)
    } else {
        None
    }
}

/// The infix operator that a text names, if it names one.
pub open spec fn infix_operator_of(text: Seq<char>) -> Option<InfixOperator> {
    if text == "+"@ {
        Some(InfixOperator::PLUS)
    } else if text == "-"@ {
        Some(InfixOperator::MINUS)
    } else if text == "*"@ {
        Some(InfixOperator::MULTIPLY)
    } else if text == "/"@ {
        Some(InfixOperator::DIVIDE)
    } else if text == ">"@ {
        Some(InfixOperator::GREATERTHAN)
    } else if text == "<"@ {
        Some(InfixOperator::LESSTHAN)
    } else if text == "=="@ {
        Some(InfixOperator::EQUAL)
    } else if text == "!="@ {
        Some(InfixOperator::NOTEQUAL)
    } else {
        None
    }
}

impl PrefixOperator {
    pub fn to_string(&self) -> (text: String)
        ensures
            text@ == prefix_operator_text(*self),
    {
        match self {
            PrefixOperator::BANG => String::from_str("!"),
            PrefixOperator::NEGATE => String::from_str("-"),
        }
    }

    /// The operator that `value` names; an error that carries `value` where
    /// it names none.
    pub fn try_from(value: String) -> (operator: Result<Self, Error>)
        ensures
            match prefix_operator_of(value@) {
                Some(expected) => operator == Ok::<Self, Error>(expected),
                None => operator is Err && operator->Err_0@ == ErrorView::InvalidPrefixOperator(
                    value@,
                ),
            },
    {
        if text_equals(value.as_str(), "!") {
            Ok(PrefixOperator::BANG)
        } else if text_equals(value.as_str(), "-") {
            Ok(PrefixOperator::NEGATE)
        } else {
            Err(Error::InvalidPrefixOperator(value))
        }
    }
}

impl InfixOperator {
    pub fn to_string(&self) -> (text: String)
        ensures
            text@ == infix_operator_text(*self),
    {
        match self {
            InfixOperator::PLUS => String::from_str("+"),
            InfixOperator::MINUS => String::from_str("-"),
            InfixOperator::MULTIPLY => String::from_str("*"),
            InfixOperator::DIVIDE => String::from_str("/"),
            InfixOperator::GREATERTHAN => String::from_str(">"),
            InfixOperator::LESSTHAN => String::from_str("<"),
            InfixOperator::EQUAL => String::from_str("=="),
            InfixOperator::NOTEQUAL => String::from_str("!="),
        }
    }

    /// The operator that `value` names; an error that carries `value` where
    /// it names none.
    pub fn try_from(value: String) -> (operator: Result<Self, Error>)
        ensures
            match infix_operator_of(value@) {
                Some(expected) => operator == Ok::<Self, Error>(expected),
                None => operator is Err && operator->Err_0@ == ErrorView::InvalidInfixOperator(
                    value@,
                ),
            },
    {
        if text_equals(value.as_str(), "+") {
            Ok(InfixOperator::PLUS)
        } else if text_equals(value.as_str(), "-") {
            Ok(InfixOperator::MINUS)
        } else if text_equals(value.as_str(), "*") {
            Ok(InfixOperator::MULTIPLY)
        } else if text_equals(value.as_str(), "/") {
            Ok(InfixOperator::DIVIDE)
        } else if text_equals(value.as_str(), ">") {
            Ok(InfixOperator::GREATERTHAN)
        } else if text_equals(value.as_str(), "<") {
            Ok(InfixOperator::LESSTHAN)
        } else if text_equals(value.as_str(), "==") {
            Ok(InfixOperator::EQUAL)
        } else if text_equals(value.as_str(), "!=") {
            Ok(InfixOperator::NOTEQUAL)
        } else {
            Err(Error::InvalidInfixOperator(value))
        }
    }
}

/// The texts in order, with `separator` between each two.
pub open spec fn join_texts(parts: Seq<Seq<char>>, separator: Seq<char>) -> Seq<char>
    decreases parts.len(),
{
    if parts.len() == 0 {
        Seq::empty()
    } else if parts.len() == 1 {
        parts[0]
    } else {
        join_texts(parts.drop_last(), separator) + separator + parts.last()
    }
}

pub open spec fn expression_text(e: ExpressionView) -> Seq<char>
    decreases e, 0nat,
{
    match e {
        ExpressionView::Identifier(name) => name,
        ExpressionView::IntegerLiteral(value) => integer_text(value as int),
        ExpressionView::Prefix { operator, right } => "("@ + prefix_operator_text(operator)
            + expression_text(*right) + ")"@,
        ExpressionView::Infix { left, operator, right } => "("@ + expression_text(*left) + " "@
            + infix_operator_text(operator) + " "@ + expression_text(*right) + ")"@,
        ExpressionView::Boolean(value) => if value {
            "true"@
        } else {
            "false"@
        },
        ExpressionView::If { condition, consequence, alternative } => "if("@ + expression_text(
            *condition,
        ) + ")"@ + block_text(consequence) + (match alternative {
            Some(block) => " else"@ + block_text(block),
            None => Seq::empty(),
        }),
        ExpressionView::FunctionLiteral { parameters, body } => "fn("@ + join_texts(
            parameters,
            ", "@,
        ) + ")"@ + block_text(body),
        ExpressionView::FunctionCall { function, arguments } => expression_text(*function) + "("@
            + join_texts(expression_texts(arguments), ", "@) + ")"@,
    }
}

pub open spec fn expression_texts(es: Seq<ExpressionView>) -> Seq<Seq<char>>
    decreases es, 0nat,
{
    Seq::new(
        es.len(),
        |i: int|
            if 0 <= i < es.len() {
                expression_text(es[i])
            } else {
                Seq::empty()
            },
    )
}

pub open spec fn statement_text(s: StatementView) -> Seq<char>
    decreases s, 0nat,
{
    match s {
        StatementView::Let { identifier, value } => "let "@ + identifier + " = "@
            + expression_text(value) + ";"@,
        StatementView::Return { return_value } => "return "@ + expression_text(return_value)
            + ";"@,
        StatementView::Expression(expression) => expression_text(expression) + ";"@,
    }
}

pub open spec fn statement_texts(ss: Seq<StatementView>) -> Seq<Seq<char>>
    decreases ss, 0nat,
{
    Seq::new(
        ss.len(),
        |i: int|
            if 0 <= i < ss.len() {
                statement_text(ss[i])
            } else {
                Seq::empty()
            },
    )
}

/// The statements, one to a line.
pub open spec fn statements_text(ss: Seq<StatementView>) -> Seq<char>
    decreases ss, 1nat,
{
    join_texts(statement_texts(ss), "\n"@)
}

/// The statements, one to a line, between braces.
pub open spec fn block_text(ss: Seq<StatementView>) -> Seq<char>
    decreases ss, 2nat,
{
    "{"@ + statements_text(ss) + "}"@
}

/// Joins `parts` with `separator` between each two.
pub fn join_strings(parts: &Vec<String>, separator: &str) -> (text: String)
    ensures
        text@ == join_texts(Seq::new(parts@.len(), |i: int| parts@[i]@), separator@),
{
    let ghost texts = Seq::new(parts@.len(), |i: int| parts@[i]@);
    let mut text = String::new();
    let mut i: usize = 0;
    while i < parts.len()
        invariant
            i <= parts@.len(),
            texts == Seq::new(parts@.len(), |i: int| parts@[i]@),
            text@ == join_texts(texts.subrange(0, i as int), separator@),
        decreases parts@.len() - i,
    {
        let ghost before = texts.subrange(0, i as int);
        let ghost after = texts.subrange(0, i + 1);
        assert(after.drop_last() =~= before);
        assert(after.last() == parts@[i as int]@);
        if i > 0 {
            text.append(separator);
        }
        text.append(parts[i].as_str());
        i = i + 1;
        assert(text@ =~= join_texts(after, separator@));
    }
    assert(texts.subrange(0, i as int) =~= texts);
    text
}

impl Expression {
    /// The expression as text.
    pub fn to_string(&self) -> (text: String)
        ensures
            text@ == expression_text(self@),
        decreases self,
    {
        match self {
            Expression::Identifier(name) => name.clone(),
            Expression::IntegerLiteral(value) => int_to_string(*value),
            Expression::Prefix { operator, right } => {
                String::from_str("(").concat(operator.to_string().as_str()).concat(
                    right.to_string().as_str(),
                ).concat(")")
            },
            Expression::Infix { left, operator, right } => {
                String::from_str("(").concat(left.to_string().as_str()).concat(" ").concat(
                    operator.to_string().as_str(),
                ).concat(" ").concat(right.to_string().as_str()).concat(")")
            },
            Expression::Boolean(value) => {
                if *value {
                    String::from_str("true")
                } else {
                    String::from_str("false")
                }
            },
            Expression::If { condition, consequence, alternative } => {
                let head = String::from_str("if(").concat(condition.to_string().as_str()).concat(
                    ")",
                ).concat(consequence.to_string().as_str());
                match alternative {
                    Some(block) => {
                        let text = head.concat(" else").concat(block.to_string().as_str());
                        text
                    },
                    None => {
                        assert(head@ + Seq::<char>::empty() =~= head@);
                        head
                    },
                }
            },
            Expression::FunctionLiteral { parameters, body } => {
                assert(Seq::new(parameters@.len(), |i: int| parameters@[i]@)
                    =~= crate::ast::names_view(parameters@));
                String::from_str("fn(").concat(join_strings(parameters, ", ").as_str()).concat(
                    ")",
                ).concat(body.to_string().as_str())
            },
            Expression::FunctionCall { function, arguments } => {
                let mut texts: Vec<String> = Vec::new();
                let mut i: usize = 0;
                while i < arguments.len()
                    invariant
                        i <= arguments@.len(),
                        texts@.len() == i,
                        forall|k: int|
                            0 <= k < i ==> (#[trigger] texts@[k])@ == expression_text(
                                arguments@[k]@,
                            ),
                        decreases_to!(self => arguments),
                    decreases arguments@.len() - i,
                {
                    texts.push(arguments[i].to_string());
                    i = i + 1;
                }
                assert(Seq::new(texts@.len(), |i: int| texts@[i]@) =~= expression_texts(
                    crate::ast::expressions_view(arguments@),
                ));
                function.to_string().concat("(").concat(
                    join_strings(&texts, ", ").as_str(),
                ).concat(")")
            },
        }
    }
}

impl Statement {
    /// The statement as text.
    pub fn to_string(&self) -> (text: String)
        ensures
            text@ == statement_text(self@),
        decreases self,
    {
        match self {
            Statement::Let { identifier, value } => {
                String::from_str("let ").concat(identifier.as_str()).concat(" = ").concat(
                    value.to_string().as_str(),
                ).concat(";")
            },
            Statement::Return { return_value } => {
                String::from_str("return ").concat(return_value.to_string().as_str()).concat(";")
            },
            Statement::Expression(expression) => expression.to_string().concat(";"),
        }
    }
}

/// The statements as text, one to a line.
pub fn statements_to_string(statements: &Vec<Statement>) -> (text: String)
    ensures
        text@ == statements_text(crate::ast::statements_view(statements@)),
    decreases statements,
{
    let mut texts: Vec<String> = Vec::new();
    let mut i: usize = 0;
    while i < statements.len()
        invariant
            i <= statements@.len(),
            texts@.len() == i,
            forall|k: int|
                0 <= k < i ==> (#[trigger] texts@[k])@ == statement_text(statements@[k]@),
        decreases statements@.len() - i,
    {
        texts.push(statements[i].to_string());
        i = i + 1;
    }
    assert(Seq::new(texts@.len(), |i: int| texts@[i]@) =~= statement_texts(
        crate::ast::statements_view(statements@),
    ));
    join_strings(&texts, "\n")
}

impl Block {
    /// The block as text.
    pub fn to_string(&self) -> (text: String)
        ensures
            text@ == block_text(self@),
        decreases self,
    {
        String::from_str("{").concat(statements_to_string(&self.statements).as_str()).concat("}")
    }
}

impl Program {
    /// The program as text.
    pub fn to_string(&self) -> (text: String)
        ensures
            text@ == statements_text(self@),
    {
        statements_to_string(&self.statements)
    }
}

} // verus!
