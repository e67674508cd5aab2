use toy_lang::errors::RuntimeError;
use toy_lang::grammar::{
    AssignmentStatement, Expression, Identifier, IfStatement, Operation, Operator, PrintStatement,
    Statement, StatementBlock, SymbolTable, Term, Value,
};
use toy_lang::interpreter::{
    apply, execute, interpret, interpret_expression, interpret_term, operate_on_booleans,
    operate_on_integers, operate_on_strings, render,
};
use toy_lang::lexer::LexicalParser;
use toy_lang::parser::SyntaxAnalizer;

fn program_of(source: &str) -> StatementBlock {
    let lines: Vec<String> = source.lines().map(|l| l.to_string()).collect();
    let tokens = LexicalParser::new(lines).parse().unwrap();
    SyntaxAnalizer::new(tokens).parse().unwrap()
}

fn run(source: &str) -> (Vec<String>, Result<(), RuntimeError>) {
    let mut out = Vec::new();
    let result = interpret(program_of(source), &mut out);
    (out, result)
}

fn prints(source: &str) -> Vec<String> {
    let (out, result) = run(source);
    assert_eq!(result, Ok(()));
    out
}

fn fails(source: &str) -> RuntimeError {
    run(source).1.unwrap_err()
}

fn text(s: &str) -> Value {
    Value::String(s.to_string())
}

fn named(name: &str, value: Option<Value>) -> Identifier {
    Identifier { name: name.to_string(), value }
}

fn reference(name: &str) -> Term {
    Term::Identifier(named(name, None))
}

#[test]
fn condition_selects_the_then_branch() {
    let out = prints("{ var a = 3; var b = 4; if (a < b) { print('yes'); } else { print('no'); } }");
    assert_eq!(out, vec!["yes"]);
}

#[test]
fn condition_selects_the_else_branch() {
    let out = prints("{ var a = 5; var b = 4; if (a < b) { print('yes'); } else { print('no'); } }");
    assert_eq!(out, vec!["no"]);
}

#[test]
fn false_condition_without_else_does_nothing() {
    assert_eq!(prints("{ if (false) { print('x'); } print('after'); }"), vec!["after"]);
}

#[test]
fn division_by_zero_is_a_failure() {
    let (out, result) = run("{ var a = 10; var b = 0; print(a / b); }");
    assert_eq!(result, Err(RuntimeError::DivisionByZero));
    assert!(out.is_empty());
}

#[test]
fn remainder_by_zero_is_a_failure() {
    assert_eq!(fails("{ print(7 % 0); }"), RuntimeError::DivisionByZero);
}

#[test]
fn strings_concatenate() {
    assert_eq!(prints("{ var s = 'ab'; s = s + 'c'; print(s); }"), vec!["abc"]);
}

#[test]
fn output_before_a_failure_stays() {
    let (out, result) = run("{ print('a'); print(2); print(1 / 0); print('b'); }");
    assert_eq!(out, vec!["a", "2"]);
    assert_eq!(result, Err(RuntimeError::DivisionByZero));
}

#[test]
fn failure_in_a_branch_ends_the_run() {
    let (out, result) = run("{ print('a'); if (true) { print('b'); print(1 / 0); print('c'); } print('d'); }");
    assert_eq!(out, vec!["a", "b"]);
    assert_eq!(result, Err(RuntimeError::DivisionByZero));
}

#[test]
fn lines_are_appended_to_the_buffer() {
    let mut out = vec!["before".to_string()];
    assert_eq!(interpret(program_of("{ print(1); print(true); }"), &mut out), Ok(()));
    assert_eq!(out, vec!["before", "1", "true"]);
    assert_eq!(execute(&program_of("{ print('x'); }"), &mut out), Ok(()));
    assert_eq!(out, vec!["before", "1", "true", "x"]);
}

#[test]
fn integers_compute() {
    assert_eq!(prints("{ print(2 + 3); }"), vec!["5"]);
    assert_eq!(prints("{ print(2 - 3); }"), vec!["-1"]);
    assert_eq!(prints("{ print(6 * 7); }"), vec!["42"]);
    assert_eq!(prints("{ print(7 / 2); }"), vec!["3"]);
    assert_eq!(prints("{ print(7 % 4); }"), vec!["3"]);
    assert_eq!(prints("{ print(1 == 1); }"), vec!["true"]);
    assert_eq!(prints("{ print(1 < 1); }"), vec!["false"]);
    assert_eq!(prints("{ print(2 > 1); }"), vec!["true"]);
}

#[test]
fn operations_group_to_the_right() {
    assert_eq!(prints("{ print(10 - 2 - 3); }"), vec!["11"]);
    assert_eq!(prints("{ print(2 * 3 + 4); }"), vec!["14"]);
    assert_eq!(prints("{ print(1 == 2 - 1); }"), vec!["true"]);
    assert_eq!(run("{ print(1 + 2 == 3); }").1, Err(RuntimeError::OperandMismatch));
}

#[test]
fn division_rounds_toward_zero() {
    assert_eq!(operate_on_integers(-7, Operator::Division, 2), Ok(Value::Integer(-3)));
    assert_eq!(operate_on_integers(7, Operator::Division, -2), Ok(Value::Integer(-3)));
    assert_eq!(operate_on_integers(-7, Operator::Division, -2), Ok(Value::Integer(3)));
    assert_eq!(operate_on_integers(7, Operator::Division, 2), Ok(Value::Integer(3)));
    assert_eq!(operate_on_integers(0, Operator::Division, -5), Ok(Value::Integer(0)));
    assert_eq!(operate_on_integers(-7, Operator::Modulo, 2), Ok(Value::Integer(-1)));
    assert_eq!(operate_on_integers(7, Operator::Modulo, -2), Ok(Value::Integer(1)));
    assert_eq!(operate_on_integers(-7, Operator::Modulo, -2), Ok(Value::Integer(-1)));
    assert_eq!(operate_on_integers(-8, Operator::Modulo, 2), Ok(Value::Integer(0)));
    assert_eq!(prints("{ var a = 0 - 7; print(a / 2); print(a % 2); }"), vec!["-3", "-1"]);
}

#[test]
fn integer_results_must_fit() {
    assert_eq!(fails("{ print(9223372036854775807 + 1); }"), RuntimeError::Overflow);
    assert_eq!(fails("{ var a = 0 - 9223372036854775807; print(a - 2); }"), RuntimeError::Overflow);
    assert_eq!(fails("{ print(4611686018427387904 * 2); }"), RuntimeError::Overflow);
    assert_eq!(
        operate_on_integers(i64::MIN, Operator::Division, -1),
        Err(RuntimeError::Overflow)
    );
    assert_eq!(operate_on_integers(i64::MIN, Operator::Modulo, -1), Err(RuntimeError::Overflow));
    assert_eq!(
        operate_on_integers(i64::MAX, Operator::Plus, 0),
        Ok(Value::Integer(i64::MAX))
    );
    assert_eq!(
        operate_on_integers(i64::MIN, Operator::Multiplication, 1),
        Ok(Value::Integer(i64::MIN))
    );
    assert_eq!(
        operate_on_integers(i64::MIN, Operator::Division, 1),
        Ok(Value::Integer(i64::MIN))
    );
    assert_eq!(operate_on_integers(i64::MIN, Operator::Modulo, 1), Ok(Value::Integer(0)));
}

#[test]
fn comparisons_of_two_characters_run_from_source() {
    assert_eq!(
        prints("{ print(1 <= 2); print(2 <= 2); print(3 <= 2); }"),
        vec!["true", "true", "false"]
    );
    assert_eq!(
        prints("{ print(1 >= 2); print(2 >= 2); print(3 >= 2); }"),
        vec!["false", "true", "true"]
    );
    assert_eq!(prints("{ print(1 != 2); print(2 != 2); }"), vec!["true", "false"]);
    assert_eq!(prints("{ print('a' != 'b'); print(true != true); }"), vec!["true", "false"]);
    assert_eq!(
        prints("{ var a = 3; var b = 4; if (a <= b) { print('at most'); } else { print('more'); } }"),
        vec!["at most"]
    );
    assert_eq!(fails("{ print('a' <= 'b'); }"), RuntimeError::NotPermittedOnString);
    assert_eq!(fails("{ print(true >= false); }"), RuntimeError::NotPermittedOnBoolean);
}

#[test]
fn empty_program_prints_nothing() {
    let (out, result) = run("{}");
    assert_eq!(result, Ok(()));
    assert!(out.is_empty());
}

#[test]
fn conditional_runs_one_branch_at_any_place() {
    let source = "{ print('a'); var c = 1 <= 2; if (c) { print('then'); } else { print('else'); print(1 / 0); } print('b'); c = c != true; if (c) { print(1 / 0); } else { print('other'); } if (c) { print('none'); } print('end'); }";
    assert_eq!(prints(source), vec!["a", "then", "b", "other", "end"]);
}

#[test]
fn integers_compare() {
    assert_eq!(operate_on_integers(1, Operator::InfOrEqual, 1), Ok(Value::Bool(true)));
    assert_eq!(operate_on_integers(2, Operator::InfOrEqual, 1), Ok(Value::Bool(false)));
    assert_eq!(operate_on_integers(1, Operator::SupOrEqual, 1), Ok(Value::Bool(true)));
    assert_eq!(operate_on_integers(0, Operator::SupOrEqual, 1), Ok(Value::Bool(false)));
    assert_eq!(operate_on_integers(0, Operator::NotEqual, 1), Ok(Value::Bool(true)));
    assert_eq!(operate_on_integers(1, Operator::NotEqual, 1), Ok(Value::Bool(false)));
    assert_eq!(operate_on_integers(1, Operator::Equal, 2), Ok(Value::Bool(false)));
    assert_eq!(operate_on_integers(1, Operator::Inferior, 2), Ok(Value::Bool(true)));
    assert_eq!(operate_on_integers(1, Operator::Superior, 2), Ok(Value::Bool(false)));
}

#[test]
fn integers_have_no_logic() {
    assert_eq!(operate_on_integers(1, Operator::And, 1), Err(RuntimeError::NotPermittedOnInteger));
    assert_eq!(operate_on_integers(1, Operator::Or, 0), Err(RuntimeError::NotPermittedOnInteger));
    assert_eq!(fails("{ print(1 && 2); }"), RuntimeError::NotPermittedOnInteger);
}

#[test]
fn booleans_compute() {
    assert_eq!(prints("{ print(true && false); }"), vec!["false"]);
    assert_eq!(prints("{ print(true || false); }"), vec!["true"]);
    assert_eq!(prints("{ print(true == false); }"), vec!["false"]);
    assert_eq!(operate_on_booleans(true, Operator::NotEqual, false), Ok(Value::Bool(true)));
    assert_eq!(operate_on_booleans(false, Operator::And, false), Ok(Value::Bool(false)));
    assert_eq!(operate_on_booleans(false, Operator::Or, false), Ok(Value::Bool(false)));
    assert_eq!(operate_on_booleans(true, Operator::Equal, true), Ok(Value::Bool(true)));
}

#[test]
fn booleans_have_no_arithmetic() {
    for operator in [
        Operator::Plus,
        Operator::Minus,
        Operator::Division,
        Operator::Multiplication,
        Operator::Modulo,
        Operator::Inferior,
        Operator::InfOrEqual,
        Operator::Superior,
        Operator::SupOrEqual,
    ] {
        assert_eq!(
            operate_on_booleans(true, operator, false),
            Err(RuntimeError::NotPermittedOnBoolean)
        );
    }
    assert_eq!(fails("{ print(true + false); }"), RuntimeError::NotPermittedOnBoolean);
}

#[test]
fn strings_compute() {
    assert_eq!(prints("{ print('a' == 'a'); print('a' == 'b'); }"), vec!["true", "false"]);
    assert_eq!(
        operate_on_strings("ab".to_string(), Operator::Plus, "cd".to_string()),
        Ok(text("abcd"))
    );
    assert_eq!(
        operate_on_strings("ab".to_string(), Operator::NotEqual, "cd".to_string()),
        Ok(Value::Bool(true))
    );
    assert_eq!(
        operate_on_strings("ab".to_string(), Operator::NotEqual, "ab".to_string()),
        Ok(Value::Bool(false))
    );
}

#[test]
fn strings_have_only_three_operators() {
    for operator in [
        Operator::Minus,
        Operator::Division,
        Operator::Multiplication,
        Operator::Modulo,
        Operator::Inferior,
        Operator::InfOrEqual,
        Operator::Superior,
        Operator::SupOrEqual,
        Operator::And,
        Operator::Or,
    ] {
        assert_eq!(
            operate_on_strings("a".to_string(), operator, "b".to_string()),
            Err(RuntimeError::NotPermittedOnString)
        );
    }
    assert_eq!(fails("{ print('a' - 'b'); }"), RuntimeError::NotPermittedOnString);
}

#[test]
fn operands_must_be_of_one_type() {
    assert_eq!(fails("{ print(1 + 'a'); }"), RuntimeError::OperandMismatch);
    assert_eq!(fails("{ print('a' + 1); }"), RuntimeError::OperandMismatch);
    assert_eq!(fails("{ print(true == 1); }"), RuntimeError::OperandMismatch);
    assert_eq!(
        apply(Value::Integer(1), Operator::And, Value::Bool(true)),
        Err(RuntimeError::OperandMismatch)
    );
    assert_eq!(
        apply(text("a"), Operator::Minus, Value::Bool(true)),
        Err(RuntimeError::OperandMismatch)
    );
    assert_eq!(apply(Value::Integer(2), Operator::Plus, Value::Integer(3)), Ok(Value::Integer(5)));
    assert_eq!(apply(text("a"), Operator::Plus, text("b")), Ok(text("ab")));
    assert_eq!(apply(Value::Bool(true), Operator::And, Value::Bool(true)), Ok(Value::Bool(true)));
}

#[test]
fn left_operand_fails_first() {
    assert_eq!(fails("{ print(1 / 0 + true); }"), RuntimeError::OperandMismatch);
    assert_eq!(fails("{ print(true + 1 / 0); }"), RuntimeError::DivisionByZero);
}

#[test]
fn condition_must_be_a_boolean() {
    let (out, result) = run("{ print('a'); if (1) { print('b'); } }");
    assert_eq!(result, Err(RuntimeError::ConditionNotBoolean));
    assert_eq!(out, vec!["a"]);
    assert_eq!(fails("{ if ('true') { } }"), RuntimeError::ConditionNotBoolean);
    assert_eq!(fails("{ if (1 / 0) { } }"), RuntimeError::DivisionByZero);
}

#[test]
fn assignment_replaces_the_value() {
    assert_eq!(
        prints("{ var a = 1; print(a); a = a + 1; print(a); a = 'now text'; print(a); }"),
        vec!["1", "2", "now text"]
    );
}

#[test]
fn branch_runs_with_its_own_names() {
    assert_eq!(
        prints("{ var a = 1; if (a == 1) { var a = 'inner'; print(a); } print(a); }"),
        vec!["inner", "1"]
    );
}

#[test]
fn values_render_as_print_shows_them() {
    assert_eq!(render(&Value::Integer(-12)), "-12");
    assert_eq!(render(&Value::Integer(0)), "0");
    assert_eq!(render(&text("a b")), "a b");
    assert_eq!(render(&text("")), "");
    assert_eq!(render(&Value::Bool(true)), "true");
    assert_eq!(render(&Value::Bool(false)), "false");
}

#[test]
fn terms_take_their_value_from_the_table() {
    let mut table = SymbolTable::new();
    table.insert("n".to_string(), named("n", Some(Value::Integer(9))));
    table.insert("unset".to_string(), named("unset", None));
    assert_eq!(interpret_term(&table, &Term::Integer(4)), Ok(Value::Integer(4)));
    assert_eq!(interpret_term(&table, &Term::String("s".to_string())), Ok(text("s")));
    assert_eq!(interpret_term(&table, &Term::Bool(false)), Ok(Value::Bool(false)));
    assert_eq!(interpret_term(&table, &reference("n")), Ok(Value::Integer(9)));
    assert_eq!(
        interpret_term(&table, &reference("unset")),
        Err(RuntimeError::UnresolvedIdentifier)
    );
    assert_eq!(
        interpret_term(&table, &reference("absent")),
        Err(RuntimeError::UnresolvedIdentifier)
    );
    let sum = Expression::Operation(Box::new(Operation {
        left: Expression::Term(reference("n")),
        operator: Operator::Plus,
        right: Expression::Term(Term::Integer(1)),
    }));
    assert_eq!(interpret_expression(&table, &sum), Ok(Value::Integer(10)));
    let lost = Expression::Operation(Box::new(Operation {
        left: Expression::Term(Term::Integer(1)),
        operator: Operator::Plus,
        right: Expression::Term(reference("absent")),
    }));
    assert_eq!(interpret_expression(&table, &lost), Err(RuntimeError::UnresolvedIdentifier));
}

#[test]
fn table_of_a_block_seeds_its_run() {
    let mut block = StatementBlock::new();
    block.symbol_table.insert("x".to_string(), named("x", Some(Value::Integer(5))));
    block.symbol_table.insert("y".to_string(), named("y", None));
    block.statements.push(Statement::Print(PrintStatement::Term(reference("x"))));
    block.statements.push(Statement::Print(PrintStatement::Expression(Expression::Term(
        reference("x"),
    ))));
    block.statements.push(Statement::Print(PrintStatement::Term(Term::Integer(3))));
    block.statements.push(Statement::Print(PrintStatement::Term(Term::Bool(true))));
    block.statements.push(Statement::Print(PrintStatement::Term(reference("y"))));
    block.statements.push(Statement::Print(PrintStatement::Term(Term::Integer(4))));
    let mut out = Vec::new();
    assert_eq!(interpret(block, &mut out), Err(RuntimeError::UnresolvedIdentifier));
    assert_eq!(out, vec!["5", "5", "3", "true"]);
}

#[test]
fn branch_does_not_see_the_values_of_its_parent() {
    let mut inner = StatementBlock::new();
    inner.statements.push(Statement::Print(PrintStatement::Term(reference("x"))));
    let mut block = StatementBlock::new();
    block.statements.push(Statement::Assignment(AssignmentStatement {
        identifier: named("x", None),
        expression: Expression::Term(Term::Integer(1)),
    }));
    block.statements.push(Statement::If(IfStatement {
        expression: Expression::Term(Term::Bool(true)),
        then_statement_block: inner,
        else_statement_block: None,
    }));
    let mut out = Vec::new();
    assert_eq!(interpret(block, &mut out), Err(RuntimeError::UnresolvedIdentifier));
    assert!(out.is_empty());
}

#[test]
fn run_time_errors_have_messages() {
    assert_eq!(RuntimeError::DivisionByZero.message(), "Cannot divide by 0");
    assert_eq!(RuntimeError::DivisionByZero.to_string(), "Runtime error; Cannot divide by 0");
    assert_eq!(RuntimeError::ConditionNotBoolean.message(), "If condition must return a boolean");
    assert_eq!(RuntimeError::OperandMismatch.message(), "Cannot operand differents types");
    assert_eq!(RuntimeError::Overflow.message(), "Integer overflow");
    assert_eq!(
        RuntimeError::NotPermittedOnBoolean.message(),
        "Operation not permitted on boolean values"
    );
    assert_eq!(
        RuntimeError::NotPermittedOnInteger.message(),
        "Operation not permitted on integer values"
    );
    assert_eq!(
        RuntimeError::NotPermittedOnString.message(),
        "Operation not permitted on string values"
    );
    assert_eq!(RuntimeError::UnresolvedIdentifier.message(), "Identifier has no value");
}
