//! The evaluator: it walks the tree, keeps the values of the names of the
//! block it is in, and collects the lines that the program prints. A failure
//! ends the run and is returned; what was printed before it stays printed.

use vstd::prelude::*;
use crate::errors::RuntimeError;
use crate::grammar::{
    Expression, Identifier, Operator, PrintStatement, Statement, StatementBlock, SymbolTable, Term,
    Value, ValueModel,
};
use crate::semantics::{
    boolean_operation, display, expression_value, integer_operation, operate, run_block, run_from,
    run_statement, seed, term_value, text_operation, Machine,
};
use crate::text::render_integer;

verus! {

/// The model of what an evaluation returns.
pub open spec fn value_outcome(r: Result<Value, RuntimeError>) -> Result<ValueModel, RuntimeError> {
    match r {
        Ok(value) => Ok(value@),
        Err(e) => Err(e),
    }
}

/// The lines of an output buffer.
pub open spec fn lines(out: Seq<String>) -> Seq<Seq<char>> {
    Seq::new(out.len(), |i: int| out[i]@)
}

/// How a run ended, as a result.
pub open spec fn ending(failure: Option<RuntimeError>) -> Result<(), RuntimeError> {
    match failure {
        Some(e) => Err(e),
        None => Ok(()),
    }
}

/// An integer result of an operation that may not fit.
fn checked(result: Option<i64>) -> (r: Result<Value, RuntimeError>)
    ensures
        r == (match result {
            Some(n) => Ok::<Value, RuntimeError>(Value::Integer(n)),
            None => Err::<Value, RuntimeError>(RuntimeError::Overflow),
        }),
{
    match result {
        Some(n) => Ok(Value::Integer(n)),
        None => Err(RuntimeError::Overflow),
    }
}

/// Applies an operator to two integers.
pub fn operate_on_integers(left: i64, operator: Operator, right: i64) -> (r: Result<
    Value,
    RuntimeError,
>)
    ensures
        value_outcome(r) == integer_operation(left, operator, right),
{
    match operator {
        Operator::Equal => Ok(Value::Bool(left == right)),
        Operator::NotEqual => Ok(Value::Bool(left != right)),
        Operator::Plus => checked(left.checked_add(right)),
        Operator::Minus => checked(left.checked_sub(right)),
        Operator::Multiplication => checked(left.checked_mul(right)),
        Operator::Division => {
            if right == 0 {
                Err(RuntimeError::DivisionByZero)
            } else {
                checked(left.checked_div(right))
            }
        },
        Operator::Modulo => {
            if right == 0 {
                Err(RuntimeError::DivisionByZero)
            } else {
                checked(left.checked_rem(right))
            }
        },
        Operator::Inferior => Ok(Value::Bool(left < right)),
        Operator::InfOrEqual => Ok(Value::Bool(left <= right)),
        Operator::Superior => Ok(Value::Bool(left > right)),
        Operator::SupOrEqual => Ok(Value::Bool(left >= right)),
        Operator::And => Err(RuntimeError::NotPermittedOnInteger),
        Operator::Or => Err(RuntimeError::NotPermittedOnInteger),
    }
}

/// Applies an operator to two booleans.
pub fn operate_on_booleans(left: bool, operator: Operator, right: bool) -> (r: Result<
    Value,
    RuntimeError,
>)
    ensures
        value_outcome(r) == boolean_operation(left, operator, right),
{
    match operator {
        Operator::Equal => Ok(Value::Bool(left == right)),
        Operator::NotEqual => Ok(Value::Bool(left != right)),
        Operator::And => Ok(Value::Bool(left && right)),
        Operator::Or => Ok(Value::Bool(left || right)),
        _ => Err(RuntimeError::NotPermittedOnBoolean),
    }
}

/// Applies an operator to two strings.
pub fn operate_on_strings(left: String, operator: Operator, right: String) -> (r: Result<
    Value,
    RuntimeError,
>)
    ensures
        value_outcome(r) == text_operation(left@, operator, right@),
{
    match operator {
        Operator::Equal => Ok(Value::Bool(left == right)),
        Operator::NotEqual => Ok(Value::Bool(!(left == right))),
        Operator::Plus => Ok(Value::String(left.concat(right.as_str()))),
        _ => Err(RuntimeError::NotPermittedOnString),
    }
}

/// Applies an operator to two values.
pub fn apply(left: Value, operator: Operator, right: Value) -> (r: Result<Value, RuntimeError>)
    ensures
        value_outcome(r) == operate(left@, operator, right@),
{
    match left {
        Value::Bool(l) => match right {
            Value::Bool(r) => operate_on_booleans(l, operator, r),
            _ => Err(RuntimeError::OperandMismatch),
        },
        Value::Integer(l) => match right {
            Value::Integer(r) => operate_on_integers(l, operator, r),
            _ => Err(RuntimeError::OperandMismatch),
        },
        Value::String(l) => match right {
            Value::String(r) => operate_on_strings(l, operator, r),
            _ => Err(RuntimeError::OperandMismatch),
        },
    }
}

/// The value of a term in the table of the running block.
pub fn interpret_term(context: &SymbolTable, term: &Term) -> (r: Result<Value, RuntimeError>)
    ensures
        value_outcome(r) == term_value(seed(context@), term@),
{
    match term {
        Term::Integer(n) => Ok(Value::Integer(*n)),
        Term::String(s) => Ok(Value::String(s.clone())),
        Term::Bool(b) => Ok(Value::Bool(*b)),
        Term::Identifier(id) => match context.get(id.name.as_str()) {
            Some(identifier) => match &identifier.value {
                Some(value) => Ok(value.clone()),
                None => Err(RuntimeError::UnresolvedIdentifier),
            },
            None => Err(RuntimeError::UnresolvedIdentifier),
        },
    }
}

/// The value of an expression in the table of the running block.
pub fn interpret_expression(context: &SymbolTable, expression: &Expression) -> (r: Result<
    Value,
    RuntimeError,
>)
    ensures
        value_outcome(r) == expression_value(seed(context@), expression@),
    decreases expression,
{
    match expression {
        Expression::Operation(operation) => {
            let left = match interpret_expression(context, &operation.left) {
                Ok(value) => value,
                Err(error) => {
                    return Err(error);
                },
            };
            let right = match interpret_expression(context, &operation.right) {
                Ok(value) => value,
                Err(error) => {
                    return Err(error);
                },
            };
            apply(left, operation.operator, right)
        },
        Expression::Term(term) => interpret_term(context, term),
    }
}

/// The text that `print` writes for a value.
pub fn render(value: &Value) -> (r: String)
    ensures
        r@ == display(value@),
{
    match value {
        Value::Integer(n) => render_integer(*n),
        Value::String(s) => s.clone(),
        Value::Bool(b) => if *b {
            String::from_str("true")
        } else {
            String::from_str("false")
        },
    }
}

/// Runs a block and appends the lines it prints to `out`.
pub fn execute(block: &StatementBlock, out: &mut Vec<String>) -> (r: Result<(), RuntimeError>)
    ensures
        lines(final(out)@) == run_block(block@, lines(old(out)@)).output,
        r == ending(run_block(block@, lines(old(out)@)).failure),
    decreases block,
{
    let ghost statements = block@.statements;
    let ghost start = Machine {
        env: seed(block@.symbol_table),
        output: lines(out@),
        failure: None,
    };
    let mut table = block.symbol_table.clone();
    let mut i: usize = 0;
    while i < block.statements.len()
        invariant
            i <= block.statements.len(),
            statements == block@.statements,
            decreases_to!(block => block.statements),
            run_from(statements, 0, start) == run_from(
                statements,
                i as int,
                Machine { env: seed(table@), output: lines(out@), failure: None },
            ),
            start == (Machine {
                env: seed(block@.symbol_table),
                output: lines(old(out)@),
                failure: None,
            }),
        decreases block.statements.len() - i,
    {
        let ghost machine = Machine { env: seed(table@), output: lines(out@), failure: None };
        let ghost step = run_statement(statements[i as int], machine);
        proof {
            vstd::std_specs::vec::axiom_vec_index_decreases(block.statements, i as int);
            assert(run_from(statements, i as int, machine) == run_from(statements, i + 1, step));
            assert(statements[i as int] == block.statements[i as int].model());
        }
        match &block.statements[i] {
            Statement::Assignment(assignment) => {
                match interpret_expression(&table, &assignment.expression) {
                    Ok(value) => {
                        let ghost model = value@;
                        let name = assignment.identifier.name.clone();
                        let identifier = Identifier {
                            name: assignment.identifier.name.clone(),
                            value: Some(value),
                        };
                        let ghost before = table@;
                        table.insert(name, identifier);
                        assert(seed(table@) =~= seed(before).insert(
                            assignment.identifier.name@,
                            model,
                        ));
                    },
                    Err(error) => {
                        return Err(error);
                    },
                }
            },
            Statement::If(conditional) => {
                match interpret_expression(&table, &conditional.expression) {
                    Ok(Value::Bool(true)) => {
                        match execute(&conditional.then_statement_block, out) {
                            Ok(()) => {},
                            Err(error) => {
                                return Err(error);
                            },
                        }
                    },
                    Ok(Value::Bool(false)) => {
                        match &conditional.else_statement_block {
                            Some(branch) => {
                                match execute(branch, out) {
                                    Ok(()) => {},
                                    Err(error) => {
                                        return Err(error);
                                    },
                                }
                            },
                            None => {},
                        }
                    },
                    Ok(_) => {
                        return Err(RuntimeError::ConditionNotBoolean);
                    },
                    Err(error) => {
                        return Err(error);
                    },
                }
            },
            Statement::Print(print) => {
                let printed = match print {
                    PrintStatement::Term(term) => interpret_term(&table, term),
                    PrintStatement::Expression(expression) => interpret_expression(
                        &table,
                        expression,
                    ),
                };
                match printed {
                    Ok(value) => {
                        let ghost before = out@;
                        let line = render(&value);
                        out.push(line);
                        assert(lines(out@) =~= lines(before).push(display(value@)));
                    },
                    Err(error) => {
                        return Err(error);
                    },
                }
            },
        }
        i += 1;
    }
    Ok(())
}

/// Runs a program: executes its root block and appends the lines it prints
/// to `out`, in order. The result says whether the run came to its end or
/// why it stopped.
pub fn interpret(ast: StatementBlock, out: &mut Vec<String>) -> (r: Result<(), RuntimeError>)
    ensures
        lines(final(out)@) == run_block(ast@, lines(old(out)@)).output,
        r == ending(run_block(ast@, lines(old(out)@)).failure),
{
    execute(&ast, out)
}

} // verus!
