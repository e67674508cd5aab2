//! What holds of the stages whatever the program: laws that relate several
//! calls, proved from the contracts of the functions they speak of.

use vstd::prelude::*;
use crate::errors::{LexicalError, RuntimeError, SyntaxError};
use crate::grammar::{BlockModel, IfModel, StatementBlock, StatementModel, ValueModel};
use crate::lexer::{
    lex_lines, lex_source, lex_text, token_at, token_models, token_outcome, Lexed, LexicalParser,
    Token, TokenModel, TokenType,
};
use crate::parser::{outcome, SyntaxAnalizer};
use crate::scope::{block_scoped, declared_upto, lemma_block_resolves, lemma_block_scoped};
use crate::semantics::{expression_value, run_block, run_from, run_statement, seed, Machine};
use crate::syntax::block_model;
use crate::text::utf8_len;

verus! {

/// Tokenizing is deterministic: two tokenizers that hold the same source
/// lines and have read the same tokens return the same tokens, or the same
/// error. `first_result` and `second_result` stand for what `parse` returns
/// for each.
pub proof fn tokenizing_is_deterministic(
    first: LexicalParser,
    second: LexicalParser,
    first_result: Result<Vec<Token>, LexicalError>,
    second_result: Result<Vec<Token>, LexicalError>,
)
    requires
        first.source() == second.source(),
        first.tokens() == second.tokens(),
        token_outcome(first_result) == lex_source(first.source(), first.tokens()).outcome(),
        token_outcome(second_result) == lex_source(second.source(), second.tokens()).outcome(),
    ensures
        token_outcome(first_result) == token_outcome(second_result),
{
}

/// Parsing is deterministic: two cursors that stand at the same position of
/// the same tokens return trees with the same model, or the same error.
/// `first_result` and `second_result` stand for what `parse` returns for
/// each.
pub proof fn parsing_is_deterministic(
    first: SyntaxAnalizer,
    second: SyntaxAnalizer,
    first_result: Result<StatementBlock, SyntaxError>,
    second_result: Result<StatementBlock, SyntaxError>,
)
    requires
        first.wf(),
        second.wf(),
        first.stream() == second.stream(),
        first.consumed() == second.consumed(),
        outcome(first_result) == block_model(first.stream(), first.consumed()).result,
        outcome(second_result) == block_model(second.stream(), second.consumed()).result,
    ensures
        outcome(first_result) == outcome(second_result),
{
}

/// The front end is stable: from the same source lines, tokenizing and then
/// parsing from the first token gives the same tokens and the same tree, or
/// the same error, however often it is done. The tokens and trees stand for
/// what `LexicalParser::parse`, `SyntaxAnalizer::new` and
/// `SyntaxAnalizer::parse` return in each of two runs.
pub proof fn front_end_is_stable(
    first_lexer: LexicalParser,
    second_lexer: LexicalParser,
    first_tokens: Vec<Token>,
    second_tokens: Vec<Token>,
    first_cursor: SyntaxAnalizer,
    second_cursor: SyntaxAnalizer,
    first_tree: Result<StatementBlock, SyntaxError>,
    second_tree: Result<StatementBlock, SyntaxError>,
)
    requires
        first_lexer.source() == second_lexer.source(),
        first_lexer.tokens() == second_lexer.tokens(),
        token_outcome(Ok(first_tokens)) == lex_source(
            first_lexer.source(),
            first_lexer.tokens(),
        ).outcome(),
        token_outcome(Ok(second_tokens)) == lex_source(
            second_lexer.source(),
            second_lexer.tokens(),
        ).outcome(),
        first_cursor.wf(),
        second_cursor.wf(),
        first_cursor.stream() == token_models(first_tokens@),
        second_cursor.stream() == token_models(second_tokens@),
        first_cursor.consumed() == 0,
        second_cursor.consumed() == 0,
        outcome(first_tree) == block_model(first_cursor.stream(), first_cursor.consumed()).result,
        outcome(second_tree) == block_model(
            second_cursor.stream(),
            second_cursor.consumed(),
        ).result,
    ensures
        token_models(first_tokens@) == token_models(second_tokens@),
        outcome(first_tree) == outcome(second_tree),
{
}

/// Declaration before use: the tree that `parse` returns is well scoped,
/// and the table of its root block holds exactly the names that the
/// statements of the block declare. `tree` stands for what `parse` returns
/// for the cursor.
pub proof fn parsed_trees_are_well_scoped(cursor: SyntaxAnalizer, tree: StatementBlock)
    requires
        cursor.wf(),
        outcome(Ok(tree)) == block_model(cursor.stream(), cursor.consumed()).result,
    ensures
        block_scoped(tree@),
        tree@.symbol_table.dom() == declared_upto(
            tree@.statements,
            tree@.statements.len() as int,
            Set::empty(),
        ),
{
    cursor.lemma_consumed_bound();
    lemma_block_scoped(cursor.stream(), cursor.consumed());
}

/// The check that the parser makes holds at run time: a program that parses
/// never fails for a name without a value, whatever was printed before it
/// runs. `tree` stands for what `parse` returns for the cursor.
pub proof fn parsed_programs_find_their_names(
    cursor: SyntaxAnalizer,
    tree: StatementBlock,
    printed: Seq<Seq<char>>,
)
    requires
        cursor.wf(),
        outcome(Ok(tree)) == block_model(cursor.stream(), cursor.consumed()).result,
    ensures
        run_block(tree@, printed).failure != Some(RuntimeError::UnresolvedIdentifier),
{
    parsed_trees_are_well_scoped(cursor, tree);
    lemma_block_resolves(tree@, printed);
}

/// A machine with the given lines put before its output.
pub open spec fn after_lines(printed: Seq<Seq<char>>, machine: Machine) -> Machine {
    Machine { output: printed + machine.output, ..machine }
}

/// Running a block only appends: what it prints and how it ends do not
/// depend on the lines printed before, which stay as they are in front of
/// the lines of the block.
pub proof fn running_only_appends(block: BlockModel, printed: Seq<Seq<char>>)
    ensures
        run_block(block, printed).output == printed + run_block(block, Seq::empty()).output,
        run_block(block, printed).failure == run_block(block, Seq::empty()).failure,
    decreases block, 0int,
{
    let start = Machine { env: seed(block.symbol_table), output: Seq::empty(), failure: None };
    assert(printed + Seq::<Seq<char>>::empty() =~= printed);
    lemma_statements_only_append(block.statements, 0, start, printed);
}

/// Running statements from a machine with lines put before its output
/// gives the machine that running them without those lines gives, with the
/// lines put before its output.
pub proof fn lemma_statements_only_append(
    statements: Seq<StatementModel>,
    from: int,
    machine: Machine,
    printed: Seq<Seq<char>>,
)
    ensures
        run_from(statements, from, after_lines(printed, machine)) == after_lines(
            printed,
            run_from(statements, from, machine),
        ),
    decreases statements, statements.len() - from,
{
    if 0 <= from < statements.len() && machine.failure is None {
        lemma_statement_only_appends(statements[from], machine, printed);
        lemma_statements_only_append(
            statements,
            from + 1,
            run_statement(statements[from], machine),
            printed,
        );
    }
}

/// Running a statement from a machine with lines put before its output
/// gives the machine that running it without those lines gives, with the
/// lines put before its output.
pub proof fn lemma_statement_only_appends(
    statement: StatementModel,
    machine: Machine,
    printed: Seq<Seq<char>>,
)
    ensures
        run_statement(statement, after_lines(printed, machine)) == after_lines(
            printed,
            run_statement(statement, machine),
        ),
    decreases statement, 0int,
{
    match statement {
        StatementModel::Assignment(_) => {},
        StatementModel::If(conditional) => {
            running_only_appends(conditional.then_statement_block, machine.output);
            running_only_appends(conditional.then_statement_block, printed + machine.output);
            let then_lines = run_block(conditional.then_statement_block, Seq::empty()).output;
            assert(printed + (machine.output + then_lines) =~= (printed + machine.output)
                + then_lines);
            if conditional.else_statement_block is Some {
                let block = conditional.else_statement_block->0;
                running_only_appends(block, machine.output);
                running_only_appends(block, printed + machine.output);
                let else_lines = run_block(block, Seq::empty()).output;
                assert(printed + (machine.output + else_lines) =~= (printed + machine.output)
                    + else_lines);
            }
        },
        StatementModel::Print(print) => {
            assert forall|line: Seq<char>|
                (printed + machine.output).push(line) == printed + #[trigger] machine.output.push(
                    line,
                ) by {
                assert((printed + machine.output).push(line) =~= printed + machine.output.push(
                    line,
                ));
            }
        },
    }
}

/// No token of the list is whitespace.
pub open spec fn without_whitespace(tokens: Seq<TokenModel>) -> bool {
    forall|i: int| 0 <= i < tokens.len() ==> (#[trigger] tokens[i]).token_type
        != TokenType::Whitespace
}

/// A pass of the tokenizer only appends tokens, and none of them is
/// whitespace: the tokens read before stay in front, and where they hold no
/// whitespace, neither does the result.
pub proof fn tokenizing_drops_whitespace(lines: Seq<Seq<char>>, tokens: Seq<TokenModel>)
    ensures
        tokens.is_prefix_of(lex_source(lines, tokens).tokens),
        without_whitespace(tokens) ==> without_whitespace(lex_source(lines, tokens).tokens),
{
    lemma_lines_drop_whitespace(lines, 0, Lexed { tokens, failure: None });
}

/// Tokenizing lines only appends tokens, and none of them is whitespace.
pub proof fn lemma_lines_drop_whitespace(lines: Seq<Seq<char>>, from: int, lexed: Lexed)
    ensures
        lexed.tokens.is_prefix_of(lex_lines(lines, from, lexed).tokens),
        without_whitespace(lexed.tokens) ==> without_whitespace(
            lex_lines(lines, from, lexed).tokens,
        ),
    decreases lines.len() - from,
{
    if 0 <= from < lines.len() && lexed.failure is None {
        let line = lex_text(lines[from], from as usize, 0, lexed.tokens);
        lemma_text_drops_whitespace(lines[from], from as usize, 0, lexed.tokens);
        lemma_lines_drop_whitespace(lines, from + 1, line);
    }
}

/// Tokenizing the rest of a line only appends tokens, and none of them is
/// whitespace.
pub proof fn lemma_text_drops_whitespace(
    text: Seq<char>,
    line: usize,
    col: usize,
    tokens: Seq<TokenModel>,
)
    ensures
        tokens.is_prefix_of(lex_text(text, line, col, tokens).tokens),
        without_whitespace(tokens) ==> without_whitespace(lex_text(text, line, col, tokens).tokens),
    decreases text.len(),
{
    if text.len() > 0 {
        match token_at(text, line, col) {
            Err(_) => {},
            Ok(lexeme) => {
                lemma_text_drops_whitespace(
                    text.skip(lexeme.whole.len() as int),
                    line,
                    (col + utf8_len(lexeme.whole)) as usize,
                    tokens + lexeme.emitted,
                );
                assert(tokens.is_prefix_of(tokens + lexeme.emitted));
            },
        }
    }
}

/// The branch that a conditional takes for a value of its condition: the
/// first for true; for false the second, where there is one.
pub open spec fn branch_taken(conditional: IfModel, condition: bool) -> Option<BlockModel> {
    if condition {
        Some(conditional.then_statement_block)
    } else {
        conditional.else_statement_block
    }
}

/// The machine behind a branch: the lines that the branch prints when run
/// by itself come behind the lines printed so far, its failure is the
/// machine's, and the names of the machine keep their values. Without a
/// branch the machine stays as it is.
pub open spec fn after_branch(branch: Option<BlockModel>, machine: Machine) -> Machine {
    match branch {
        Some(block) => Machine {
            output: machine.output + run_block(block, Seq::empty()).output,
            failure: run_block(block, Seq::empty()).failure,
            ..machine
        },
        None => machine,
    }
}

/// A conditional runs exactly one branch, wherever it stands in a block:
/// where its condition has a boolean value, running it comes to running the
/// branch taken, and nothing of the other branch enters the result; the
/// statements behind it go on from there.
pub proof fn conditional_runs_one_branch(
    statements: Seq<StatementModel>,
    at: int,
    conditional: IfModel,
    machine: Machine,
    condition: bool,
)
    requires
        0 <= at < statements.len(),
        statements[at] == StatementModel::If(Box::new(conditional)),
        machine.failure is None,
        expression_value(machine.env, conditional.expression) == Ok::<ValueModel, RuntimeError>(
            ValueModel::Bool(condition),
        ),
    ensures
        run_statement(statements[at], machine) == after_branch(
            branch_taken(conditional, condition),
            machine,
        ),
        run_from(statements, at, machine) == run_from(
            statements,
            at + 1,
            after_branch(branch_taken(conditional, condition), machine),
        ),
{
    match branch_taken(conditional, condition) {
        Some(block) => {
            running_only_appends(block, machine.output);
        },
        None => {},
    }
}

} // verus!
