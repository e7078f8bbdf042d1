use monkey_lang::ast::{Expression, Program, Statement};

#[test]
fn ast_as_string() {
    let mut program = Program::new();
    program.statements.push(Statement::Let {
        identifier: "my_var".to_string(),
        value: Expression::Identifier("another_var".to_string()),
    });
    program.statements.push(Statement::Return {
        return_value: Expression::Identifier("my_var".to_string()),
    });
    assert_eq!(
        program.to_string(),
        "let my_var = another_var;\n\
        return my_var;"
    );
}
