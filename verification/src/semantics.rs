//! What a program means: the value of an expression in an environment, and
//! the lines a block prints, stated over the models of the tree.
//!
//! Every block runs in an environment of its own, seeded from its own
//! declarations. A branch of a conditional neither sees the names of the
//! enclosing block nor leaves names behind in it.

use vstd::prelude::*;
use crate::errors::RuntimeError;
use crate::grammar::{
    BlockModel, ExpressionModel, IdentifierModel, Operator, PrintModel, StatementModel, TermModel,
    ValueModel,
};
use crate::text::decimal;

verus! {

/// The values that the names of a block hold.
pub type Environment = Map<Seq<char>, ValueModel>;

/// The environment that a table of declarations stands for: each name that
/// holds a value, with that value.
pub open spec fn seed(table: Map<Seq<char>, IdentifierModel>) -> Environment {
    Map::new(
        |name: Seq<char>| table.contains_key(name) && table[name].value is Some,
        |name: Seq<char>| table[name].value->0,
    )
}

/// The magnitude of an integer.
pub open spec fn magnitude(n: int) -> int {
    if n < 0 {
        -n
    } else {
        n
    }
}

/// The quotient rounded toward zero, for a divisor other than zero.
pub open spec fn quotient(a: int, b: int) -> int {
    if (a < 0) == (b < 0) {
        magnitude(a) / magnitude(b)
    } else {
        -(magnitude(a) / magnitude(b))
    }
}

/// The remainder of the division rounded toward zero: it has the sign of the
/// dividend.
pub open spec fn remainder(a: int, b: int) -> int {
    if a < 0 {
        -(magnitude(a) % magnitude(b))
    } else {
        magnitude(a) % magnitude(b)
    }
}

/// An integer result, which must fit in 64 bits.
pub open spec fn integer(n: int) -> Result<ValueModel, RuntimeError> {
    if i64::MIN <= n <= i64::MAX {
        Ok(ValueModel::Integer(n as i64))
    } else {
        Err(RuntimeError::Overflow)
    }
}

/// An operation on two integers.
pub open spec fn integer_operation(left: i64, operator: Operator, right: i64) -> Result<
    ValueModel,
    RuntimeError,
> {
    match operator {
        Operator::Equal => Ok(ValueModel::Bool(left == right)),
        Operator::NotEqual => Ok(ValueModel::Bool(left != right)),
        Operator::Plus => integer(left + right),
        Operator::Minus => integer(left - right),
        Operator::Multiplication => integer(left * right),
        Operator::Division => if right == 0 {
            Err(RuntimeError::DivisionByZero)
        } else {
            integer(quotient(left as int, right as int))
        },
        Operator::Modulo => if right == 0 {
            Err(RuntimeError::DivisionByZero)
        } else if left == i64::MIN && right == -1 {
            Err(RuntimeError::Overflow)
        } else {
            integer(remainder(left as int, right as int))
        },
        Operator::Inferior => Ok(ValueModel::Bool(left < right)),
        Operator::InfOrEqual => Ok(ValueModel::Bool(left <= right)),
        Operator::Superior => Ok(ValueModel::Bool(left > right)),
        Operator::SupOrEqual => Ok(ValueModel::Bool(left >= right)),
        Operator::And | Operator::Or => Err(RuntimeError::NotPermittedOnInteger),
    }
}

/// An operation on two booleans.
pub open spec fn boolean_operation(left: bool, operator: Operator, right: bool) -> Result<
    ValueModel,
    RuntimeError,
> {
    match operator {
        Operator::Equal => Ok(ValueModel::Bool(left == right)),
        Operator::NotEqual => Ok(ValueModel::Bool(left != right)),
        Operator::And => Ok(ValueModel::Bool(left && right)),
        Operator::Or => Ok(ValueModel::Bool(left || right)),
        _ => Err(RuntimeError::NotPermittedOnBoolean),
    }
}

/// An operation on two strings.
pub open spec fn text_operation(left: Seq<char>, operator: Operator, right: Seq<char>) -> Result<
    ValueModel,
    RuntimeError,
> {
    match operator {
        Operator::Equal => Ok(ValueModel::Bool(left == right)),
        Operator::NotEqual => Ok(ValueModel::Bool(left != right)),
        Operator::Plus => Ok(ValueModel::Text(left + right)),
        _ => Err(RuntimeError::NotPermittedOnString),
    }
}

/// An operation on two values. The operands must be of one type, and the
/// type must have the operator.
pub open spec fn operate(left: ValueModel, operator: Operator, right: ValueModel) -> Result<
    ValueModel,
    RuntimeError,
> {
    match (left, right) {
        (ValueModel::Bool(l), ValueModel::Bool(r)) => boolean_operation(l, operator, r),
        (ValueModel::Integer(l), ValueModel::Integer(r)) => integer_operation(l, operator, r),
        (ValueModel::Text(l), ValueModel::Text(r)) => text_operation(l, operator, r),
        _ => Err(RuntimeError::OperandMismatch),
    }
}

/// The value of a term: a literal stands for itself, a name for the value it
/// holds in the environment.
pub open spec fn term_value(env: Environment, term: TermModel) -> Result<ValueModel, RuntimeError> {
    match term {
        TermModel::Integer(n) => Ok(ValueModel::Integer(n)),
        TermModel::Text(s) => Ok(ValueModel::Text(s)),
        TermModel::Bool(b) => Ok(ValueModel::Bool(b)),
        TermModel::Identifier(id) => if env.contains_key(id.name) {
            Ok(env[id.name])
        } else {
            Err(RuntimeError::UnresolvedIdentifier)
        },
    }
}

/// The value of an expression: the left operand first, then the right one,
/// then the operation; the first failure ends the evaluation.
pub open spec fn expression_value(env: Environment, expression: ExpressionModel) -> Result<
    ValueModel,
    RuntimeError,
>
    decreases expression,
{
    match expression {
        ExpressionModel::Term(term) => term_value(env, term),
        ExpressionModel::Operation(operation) => match expression_value(env, operation.left) {
            Err(e) => Err(e),
            Ok(left) => match expression_value(env, operation.right) {
                Err(e) => Err(e),
                Ok(right) => operate(left, operation.operator, right),
            },
        },
    }
}

/// The text that `print` writes for a value.
pub open spec fn display(value: ValueModel) -> Seq<char> {
    match value {
        ValueModel::Integer(n) => decimal(n as int),
        ValueModel::Text(s) => s,
        ValueModel::Bool(b) => if b {
            "true"@
        } else {
            "false"@
        },
    }
}

/// What `print` is given: the value of its term or of its expression.
pub open spec fn printed_value(env: Environment, print: PrintModel) -> Result<
    ValueModel,
    RuntimeError,
> {
    match print {
        PrintModel::Term(term) => term_value(env, term),
        PrintModel::Expression(expression) => expression_value(env, expression),
    }
}

/// A block in execution: the values of its names, the lines printed so far
/// and, once it has failed, the reason.
pub struct Machine {
    pub env: Environment,
    pub output: Seq<Seq<char>>,
    pub failure: Option<RuntimeError>,
}

impl Machine {
    /// The machine stopped by a failure.
    pub open spec fn fail(self, error: RuntimeError) -> Machine {
        Machine { failure: Some(error), ..self }
    }
}

/// What running a block adds to the lines printed so far, and how it ends.
pub struct Run {
    pub output: Seq<Seq<char>>,
    pub failure: Option<RuntimeError>,
}

/// Runs a block after the given lines, in a fresh environment seeded from
/// the block's own declarations.
pub open spec fn run_block(block: BlockModel, output: Seq<Seq<char>>) -> Run
    decreases block, 0int,
{
    let end = run_from(
        block.statements,
        0,
        Machine { env: seed(block.symbol_table), output, failure: None },
    );
    Run { output: end.output, failure: end.failure }
}

/// Runs the statements from the given index on, in order, up to the first
/// failure.
pub open spec fn run_from(statements: Seq<StatementModel>, from: int, machine: Machine) -> Machine
    decreases statements, statements.len() - from,
{
    if 0 <= from < statements.len() && machine.failure is None {
        run_from(statements, from + 1, run_statement(statements[from], machine))
    } else {
        machine
    }
}

/// Runs one statement. An assignment gives its name the value of its
/// expression; a conditional runs one of its branches, or nothing; a print
/// adds a line.
pub open spec fn run_statement(statement: StatementModel, machine: Machine) -> Machine
    decreases statement, 0int,
{
    match statement {
        StatementModel::Assignment(assignment) => match expression_value(
            machine.env,
            assignment.expression,
        ) {
            Err(e) => machine.fail(e),
            Ok(value) => Machine {
                env: machine.env.insert(assignment.identifier.name, value),
                ..machine
            },
        },
        StatementModel::If(conditional) => match expression_value(
            machine.env,
            conditional.expression,
        ) {
            Err(e) => machine.fail(e),
            Ok(ValueModel::Bool(true)) => {
                let branch = run_block(conditional.then_statement_block, machine.output);
                Machine { output: branch.output, failure: branch.failure, ..machine }
            },
            Ok(ValueModel::Bool(false)) => match conditional.else_statement_block {
                Some(block) => {
                    let branch = run_block(block, machine.output);
                    Machine { output: branch.output, failure: branch.failure, ..machine }
                },
                None => machine,
            },
            Ok(_) => machine.fail(RuntimeError::ConditionNotBoolean),
        },
        StatementModel::Print(print) => match printed_value(machine.env, print) {
            Err(e) => machine.fail(e),
            Ok(value) => Machine { output: machine.output.push(display(value)), ..machine },
        },
    }
}

} // verus!
