//! Declaration before use. The parser lets a name into an expression only
//! where the block declares it earlier; this module states that rule of the
//! trees themselves and proves that the parser keeps it, and that a tree
//! which keeps it never fails at run time for a name without a value.

use vstd::prelude::*;
use crate::errors::RuntimeError;
use crate::grammar::{
    BlockModel, ExpressionModel, IdentifierModel, PrintModel, StatementModel, TermModel,
    ValueModel,
};
use crate::lexer::{TokenModel, TokenType};
use crate::semantics::{
    expression_value, run_block, run_from, run_statement, seed, term_value, Environment, Machine,
};
use crate::syntax::{
    advance, block_model, current, expression_model, if_model, is_kind, is_symbol,
    lemma_block_bounds, lemma_expression_bounds, lemma_statement_bounds, operator_of, peek,
    statement_model, statements_model, term_model,
};

verus! {

/// A term uses only declared names.
pub open spec fn term_closed(term: TermModel, declared: Set<Seq<char>>) -> bool {
    term matches TermModel::Identifier(id) ==> declared.contains(id.name)
}

/// An expression uses only declared names.
pub open spec fn expression_closed(expression: ExpressionModel, declared: Set<Seq<char>>) -> bool
    decreases expression,
{
    match expression {
        ExpressionModel::Term(term) => term_closed(term, declared),
        ExpressionModel::Operation(operation) => expression_closed(operation.left, declared)
            && expression_closed(operation.right, declared),
    }
}

/// What a `print` statement prints uses only declared names.
pub open spec fn print_closed(print: PrintModel, declared: Set<Seq<char>>) -> bool {
    match print {
        PrintModel::Term(term) => term_closed(term, declared),
        PrintModel::Expression(expression) => expression_closed(expression, declared),
    }
}

/// The names that are declared behind a statement: those declared before
/// it, and the name it assigns to.
pub open spec fn declared_after(statement: StatementModel, declared: Set<Seq<char>>) -> Set<
    Seq<char>,
> {
    match statement {
        StatementModel::Assignment(assignment) => declared.insert(assignment.identifier.name),
        _ => declared,
    }
}

/// The names that are declared behind the first `n` statements of a list
/// that starts with the names `initial`.
pub open spec fn declared_upto(
    statements: Seq<StatementModel>,
    n: int,
    initial: Set<Seq<char>>,
) -> Set<Seq<char>>
    decreases n,
{
    if n <= 0 {
        initial
    } else {
        declared_after(statements[n - 1], declared_upto(statements, n - 1, initial))
    }
}

/// A block is well scoped: each of its statements uses only names that the
/// statements before it declared, and its branches are well scoped in turn.
pub open spec fn block_scoped(block: BlockModel) -> bool
    decreases block, 0int,
{
    scoped_upto(block.statements, block.statements.len() as int, Set::empty())
}

/// The first `n` statements of a list that starts with the names `initial`
/// are well scoped.
pub open spec fn scoped_upto(
    statements: Seq<StatementModel>,
    n: int,
    initial: Set<Seq<char>>,
) -> bool
    decreases statements, n,
{
    if 0 < n <= statements.len() {
        scoped_upto(statements, n - 1, initial) && statement_scoped(
            statements[n - 1],
            declared_upto(statements, n - 1, initial),
        )
    } else {
        true
    }
}

/// A statement uses only declared names, and the branches of a conditional
/// are well scoped blocks of their own.
pub open spec fn statement_scoped(statement: StatementModel, declared: Set<Seq<char>>) -> bool
    decreases statement, 0int,
{
    match statement {
        StatementModel::Assignment(assignment) => expression_closed(
            assignment.expression,
            declared,
        ),
        StatementModel::If(conditional) => expression_closed(conditional.expression, declared)
            && block_scoped(conditional.then_statement_block) && (
        conditional.else_statement_block matches Some(block) ==> block_scoped(block)),
        StatementModel::Print(print) => print_closed(print, declared),
    }
}

/// An expression that parses uses only the names declared where it stands.
pub proof fn lemma_expression_closed(tokens: Seq<TokenModel>, at: nat, declared: Set<Seq<char>>)
    ensures
        expression_model(tokens, at, declared).result matches Ok(expression) ==> expression_closed(
            expression,
            declared,
        ),
    decreases tokens.len() - at,
{
    if is_kind(peek(tokens, at), TokenType::Operator) && operator_of(peek(tokens, at)->0.value)
        is Some {
        let left = term_model(tokens, at, declared);
        if left.result is Ok {
            lemma_expression_closed(tokens, advance(tokens, left.next), declared);
            assert(expression_closed(ExpressionModel::Term(left.result->Ok_0), declared));
        }
    }
}

/// The first statements of a list are scoped, and declare, the same whatever
/// follows them.
pub proof fn lemma_prefix_scope(
    statements: Seq<StatementModel>,
    last: StatementModel,
    n: int,
    initial: Set<Seq<char>>,
)
    requires
        n <= statements.len(),
    ensures
        declared_upto(statements.push(last), n, initial) == declared_upto(statements, n, initial),
        scoped_upto(statements.push(last), n, initial) == scoped_upto(statements, n, initial),
    decreases n,
{
    if n > 0 {
        lemma_prefix_scope(statements, last, n - 1, initial);
        assert(statements.push(last)[n - 1] == statements[n - 1]);
    }
}

/// A statement that parses is well scoped in the declarations of its block,
/// and leaves its block with the names declared behind it.
pub proof fn lemma_statement_scoped(
    tokens: Seq<TokenModel>,
    at: nat,
    table: Map<Seq<char>, IdentifierModel>,
)
    requires
        at <= tokens.len(),
    ensures
        statement_model(tokens, at, table).result matches Ok(statement) ==> statement_scoped(
            statement,
            table.dom(),
        ) && statement_model(tokens, at, table).table.dom() == declared_after(
            statement,
            table.dom(),
        ),
    decreases tokens.len() - at, 0int,
{
    let token = current(tokens, at);
    let after = advance(tokens, at);
    let parsed = statement_model(tokens, at, table);
    if is_symbol(token, TokenType::Keyword, "print"@) {
        if is_symbol(current(tokens, after), TokenType::GroupDivider, "("@) {
            lemma_expression_closed(tokens, advance(tokens, after), table.dom());
        }
    } else if is_symbol(token, TokenType::Keyword, "if"@) {
        lemma_if_scoped(tokens, after, table.dom());
    } else if is_symbol(token, TokenType::Keyword, "var"@) {
        if is_kind(current(tokens, after), TokenType::Identifier) {
            let name = tokens[after as int].value;
            let then = advance(tokens, after);
            if !table.contains_key(name) && is_symbol(
                current(tokens, then),
                TokenType::Operator,
                "="@,
            ) {
                lemma_expression_closed(tokens, advance(tokens, then), table.dom());
                if parsed.result is Ok {
                    assert(parsed.table.dom() =~= table.dom().insert(name));
                }
            }
        }
    } else if is_kind(token, TokenType::Identifier) {
        let name = token->0.value;
        if table.contains_key(name) && is_symbol(
            current(tokens, after),
            TokenType::Operator,
            "="@,
        ) {
            lemma_expression_closed(tokens, advance(tokens, after), table.dom());
            assert(table.dom().insert(name) =~= table.dom());
        }
    }
}

/// A conditional that parses has a condition over declared names and well
/// scoped branches.
pub proof fn lemma_if_scoped(tokens: Seq<TokenModel>, at: nat, declared: Set<Seq<char>>)
    requires
        at <= tokens.len(),
    ensures
        if_model(tokens, at, declared).result matches Ok(statement) ==> statement_scoped(
            statement,
            declared,
        ) && statement is If,
    decreases tokens.len() - at, 0int,
{
    if is_symbol(current(tokens, at), TokenType::GroupDivider, "("@) {
        lemma_expression_bounds(tokens, advance(tokens, at), declared);
        lemma_expression_closed(tokens, advance(tokens, at), declared);
        let condition = expression_model(tokens, advance(tokens, at), declared);
        if condition.result is Ok && is_symbol(
            current(tokens, condition.next),
            TokenType::GroupDivider,
            ")"@,
        ) {
            let then_start = advance(tokens, condition.next);
            lemma_block_bounds(tokens, then_start);
            lemma_block_scoped(tokens, then_start);
            let then_branch = block_model(tokens, then_start);
            if then_branch.result is Ok && is_symbol(
                current(tokens, then_branch.next),
                TokenType::Keyword,
                "else"@,
            ) {
                lemma_block_scoped(tokens, advance(tokens, then_branch.next));
            }
        }
    }
}

/// A block that parses is well scoped, and its table holds exactly the
/// names that its statements declare.
pub proof fn lemma_block_scoped(tokens: Seq<TokenModel>, at: nat)
    requires
        at <= tokens.len(),
    ensures
        block_model(tokens, at).result matches Ok(block) ==> block_scoped(block)
            && block.symbol_table.dom() == declared_upto(
            block.statements,
            block.statements.len() as int,
            Set::empty(),
        ),
    decreases tokens.len() - at, 2int,
{
    if is_kind(current(tokens, at), TokenType::StartOfBlock) {
        lemma_statements_scoped(tokens, advance(tokens, at), Seq::empty(), Map::empty());
    }
}

/// The statements of a block, read behind well scoped statements whose
/// declarations the table holds, make a well scoped block.
pub proof fn lemma_statements_scoped(
    tokens: Seq<TokenModel>,
    at: nat,
    statements: Seq<StatementModel>,
    table: Map<Seq<char>, IdentifierModel>,
)
    requires
        at <= tokens.len(),
        scoped_upto(statements, statements.len() as int, Set::empty()),
        table.dom() == declared_upto(statements, statements.len() as int, Set::empty()),
    ensures
        statements_model(tokens, at, statements, table).result matches Ok(block) ==> block_scoped(
            block,
        ) && block.symbol_table.dom() == declared_upto(
            block.statements,
            block.statements.len() as int,
            Set::empty(),
        ),
    decreases tokens.len() - at, 1int,
{
    if !is_kind(current(tokens, at), TokenType::EndOfBlock) {
        lemma_statement_bounds(tokens, at, table);
        lemma_statement_scoped(tokens, at, table);
        let first = statement_model(tokens, at, table);
        if first.result is Ok {
            let statement = first.result->Ok_0;
            let longer = statements.push(statement);
            lemma_prefix_scope(statements, statement, statements.len() as int, Set::empty());
            assert(longer[longer.len() - 1] == statement);
            lemma_statements_scoped(tokens, first.next, longer, first.table);
        }
    }
}

/// The value of a term over names that all hold a value is not the failure
/// of a name without one.
pub proof fn lemma_term_resolves(env: Environment, term: TermModel, declared: Set<Seq<char>>)
    requires
        term_closed(term, declared),
        declared.subset_of(env.dom()),
    ensures
        term_value(env, term) != Err::<ValueModel, RuntimeError>(RuntimeError::UnresolvedIdentifier),
{
}

/// The value of an expression over names that all hold a value is not the
/// failure of a name without one.
pub proof fn lemma_expression_resolves(
    env: Environment,
    expression: ExpressionModel,
    declared: Set<Seq<char>>,
)
    requires
        expression_closed(expression, declared),
        declared.subset_of(env.dom()),
    ensures
        expression_value(env, expression) != Err::<ValueModel, RuntimeError>(
            RuntimeError::UnresolvedIdentifier,
        ),
    decreases expression,
{
    match expression {
        ExpressionModel::Term(term) => {
            lemma_term_resolves(env, term, declared);
        },
        ExpressionModel::Operation(operation) => {
            lemma_expression_resolves(env, operation.left, declared);
            lemma_expression_resolves(env, operation.right, declared);
        },
    }
}

/// Where the first statements of a list are well scoped, each of them is
/// well scoped in what the statements before it declare.
pub proof fn lemma_scoped_at(
    statements: Seq<StatementModel>,
    n: int,
    i: int,
    initial: Set<Seq<char>>,
)
    requires
        0 <= i < n <= statements.len(),
        scoped_upto(statements, n, initial),
    ensures
        statement_scoped(statements[i], declared_upto(statements, i, initial)),
    decreases n,
{
    if i < n - 1 {
        lemma_scoped_at(statements, n - 1, i, initial);
    }
}

/// A well scoped block does not fail for a name without a value.
pub proof fn lemma_block_resolves(block: BlockModel, output: Seq<Seq<char>>)
    requires
        block_scoped(block),
    ensures
        run_block(block, output).failure != Some(RuntimeError::UnresolvedIdentifier),
    decreases block, 0int,
{
    lemma_run_resolves(
        block.statements,
        0,
        Machine { env: seed(block.symbol_table), output, failure: None },
        Set::empty(),
    );
}

/// Well scoped statements, run from a machine in which every name declared
/// so far holds a value, do not fail for a name without one.
pub proof fn lemma_run_resolves(
    statements: Seq<StatementModel>,
    from: int,
    machine: Machine,
    initial: Set<Seq<char>>,
)
    requires
        0 <= from <= statements.len(),
        scoped_upto(statements, statements.len() as int, initial),
        machine.failure != Some(RuntimeError::UnresolvedIdentifier),
        machine.failure is None ==> declared_upto(statements, from, initial).subset_of(
            machine.env.dom(),
        ),
    ensures
        run_from(statements, from, machine).failure != Some(RuntimeError::UnresolvedIdentifier),
    decreases statements, statements.len() - from,
{
    if from < statements.len() && machine.failure is None {
        lemma_scoped_at(statements, statements.len() as int, from, initial);
        lemma_statement_resolves(
            statements[from],
            machine,
            declared_upto(statements, from, initial),
        );
        lemma_run_resolves(
            statements,
            from + 1,
            run_statement(statements[from], machine),
            initial,
        );
    }
}

/// A well scoped statement, run in a machine in which every declared name
/// holds a value, does not fail for a name without one; and where it does
/// not fail at all, every name declared behind it holds a value.
pub proof fn lemma_statement_resolves(
    statement: StatementModel,
    machine: Machine,
    declared: Set<Seq<char>>,
)
    requires
        statement_scoped(statement, declared),
        machine.failure is None,
        declared.subset_of(machine.env.dom()),
    ensures
        run_statement(statement, machine).failure != Some(RuntimeError::UnresolvedIdentifier),
        run_statement(statement, machine).failure is None ==> declared_after(
            statement,
            declared,
        ).subset_of(run_statement(statement, machine).env.dom()),
    decreases statement, 0int,
{
    match statement {
        StatementModel::Assignment(assignment) => {
            lemma_expression_resolves(machine.env, assignment.expression, declared);
        },
        StatementModel::If(conditional) => {
            lemma_expression_resolves(machine.env, conditional.expression, declared);
            lemma_block_resolves(conditional.then_statement_block, machine.output);
            if conditional.else_statement_block is Some {
                lemma_block_resolves(conditional.else_statement_block->0, machine.output);
            }
        },
        StatementModel::Print(print) => {
            match print {
                PrintModel::Term(term) => {
                    lemma_term_resolves(machine.env, term, declared);
                },
                PrintModel::Expression(expression) => {
                    lemma_expression_resolves(machine.env, expression, declared);
                },
            }
        },
    }
}

} // verus!
