//! The values that evaluation gives.

use vstd::prelude::*;
use vstd::std_specs::convert::FromSpecImpl;
use crate::ast::{duplicate_names, names_view, Block, StatementView};
use crate::decimal::{int_to_string, integer_text};
use crate::display::{block_text, join_strings, join_texts};

verus! {

/// A runtime value. A function holds its parameters, its body and the index
/// of the scope it was defined in.
#[derive(PartialEq, Debug)]
pub enum Object {
    Integer(i64),
    Boolean(bool),
    Function { parameters: Vec<String>, body: Block, env: usize },
    Null,
}

/// The mathematical value of an [`Object`].
pub enum ObjectView {
    Integer(i64),
    Boolean(bool),
    Function { parameters: Seq<Seq<char>>, body: Seq<StatementView>, env: nat },
    Null,
}

impl View for Object {
    type V = ObjectView;

    open spec fn view(&self) -> ObjectView {
        match self {
            Object::Integer(value) => ObjectView::Integer(*value),
            Object::Boolean(value) => ObjectView::Boolean(*value),
            Object::Function { parameters, body, env } => ObjectView::Function {
                parameters: names_view(parameters@),
                body: body@,
                env: *env as nat,
            },
            Object::Null => ObjectView::Null,
        }
    }
}

/// The result of evaluating a statement or an expression: the value, and
/// whether a `return` gave it, in which case the blocks around it end too.
pub struct EvaluationValue {
    pub object: Object,
    pub is_return_value: bool,
}

/// The mathematical value of an [`EvaluationValue`].
pub struct EvaluationView {
    pub object: ObjectView,
    pub is_return_value: bool,
}

impl View for EvaluationValue {
    type V = EvaluationView;

    open spec fn view(&self) -> EvaluationView {
        EvaluationView { object: self.object@, is_return_value: self.is_return_value }
    }
}

impl Default for EvaluationValue {
    fn default() -> (value: Self)
        ensures
            value@ == (EvaluationView { object: ObjectView::Null, is_return_value: false }),
    {
        Self { object: Object::Null, is_return_value: false }
    }
}

impl From<Object> for EvaluationValue {
    fn from(value: Object) -> (evaluation: Self) {
        Self { object: value, is_return_value: false }
    }
}

impl FromSpecImpl<Object> for EvaluationValue {
    open spec fn obeys_from_spec() -> bool {
        true
    }

    open spec fn from_spec(value: Object) -> Self {
        Self { object: value, is_return_value: false }
    }
}

/// A value that is not the value of a `return`.
pub open spec fn plain(object: ObjectView) -> EvaluationView {
    EvaluationView { object, is_return_value: false }
}

/// Whether a value counts as true where a condition is asked for: `false`,
/// `null` and 0 do not, everything else does.
pub open spec fn truthy(object: ObjectView) -> bool {
    match object {
        ObjectView::Boolean(value) => value,
        ObjectView::Null => false,
        ObjectView::Integer(value) => value != 0,
        ObjectView::Function { .. } => true,
    }
}

/// The name of a value's type, as error messages show it.
pub open spec fn kind_name(object: ObjectView) -> Seq<char> {
    match object {
        ObjectView::Boolean(_) => "BOOLEAN"@,
        ObjectView::Integer(_) => "INTEGER"@,
        ObjectView::Null => "NULL"@,
        ObjectView::Function { .. } => "FUNCTION"@,
    }
}

/// A value as text: an integer in decimal, a boolean as `true` or `false`,
/// `null`, and a function as its literal.
pub open spec fn object_text(object: ObjectView) -> Seq<char> {
    match object {
        ObjectView::Integer(value) => integer_text(value as int),
        ObjectView::Boolean(value) => if value {
            "true"@
        } else {
            "false"@
        },
        ObjectView::Null => "null"@,
        ObjectView::Function { parameters, body, .. } => "fn("@ + join_texts(parameters, ", "@)
            + ")"@ + block_text(body),
    }
}

impl Object {
    /// Whether the value counts as true where a condition is asked for.
    pub fn is_truthy(&self) -> (b: bool)
        ensures
            b == truthy(self@),
    {
        match self {
            Object::Boolean(value) => *value,
            Object::Null => false,
            Object::Integer(value) => *value != 0,
            Object::Function { .. } => true,
        }
    }

    /// The name of the value's type.
    pub fn to_type_string(&self) -> (name: String)
        ensures
            name@ == kind_name(self@),
    {
        match self {
            Object::Boolean(_) => String::from_str("BOOLEAN"),
            Object::Integer(_) => String::from_str("INTEGER"),
            Object::Null => String::from_str("NULL"),
            Object::Function { .. } => String::from_str("FUNCTION"),
        }
    }

    /// The value as text.
    pub fn to_string(&self) -> (text: String)
        ensures
            text@ == object_text(self@),
    {
        match self {
            Object::Integer(value) => int_to_string(*value),
            Object::Boolean(value) => {
                if *value {
                    String::from_str("true")
                } else {
                    String::from_str("false")
                }
            },
            Object::Null => String::from_str("null"),
            Object::Function { parameters, body, .. } => {
                assert(Seq::new(parameters@.len(), |i: int| parameters@[i]@) =~= names_view(
                    parameters@,
                ));
                String::from_str("fn(").concat(join_strings(parameters, ", ").as_str()).concat(
                    ")",
                ).concat(body.to_string().as_str())
            },
        }
    }

    /// A copy of the value.
    pub fn duplicate(&self) -> (copy: Self)
        ensures
            copy@ == self@,
    {
        match self {
            Object::Integer(value) => Object::Integer(*value),
            Object::Boolean(value) => Object::Boolean(*value),
            Object::Null => Object::Null,
            Object::Function { parameters, body, env } => Object::Function {
                parameters: duplicate_names(parameters),
                body: body.duplicate(),
                env: *env,
            },
        }
    }
}

} // verus!
