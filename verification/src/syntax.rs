//! The grammar as a function: what the parser makes of a token sequence
//! from a given position, stated over the models of tokens and trees.
//!
//! ```text
//! block      ::= '{' statement* '}'
//! statement  ::= 'print' '(' (text | expression) ')' ';'
//!              | 'if' '(' expression ')' block ('else' block)?
//!              | 'var' identifier '=' expression ';'
//!              | identifier '=' expression ';'
//! expression ::= term (operator expression)?
//! term       ::= identifier | integer | boolean | text
//! ```
//!
//! Every rule reads the tokens from left to right and never looks back. A
//! position is the number of tokens read so far.

use vstd::prelude::*;
use crate::errors::Diagnostic;
use crate::grammar::{
    AssignmentModel, BlockModel, ExpressionModel, IdentifierModel, IfModel, OperationModel,
    Operator, PrintModel, StatementModel, TermModel,
};
use crate::lexer::{TokenModel, TokenType};
use crate::text::{boolean_of, decimal, integer_of, quoted};

verus! {

/// The token at a position, if the sequence reaches so far.
pub open spec fn current(tokens: Seq<TokenModel>, at: nat) -> Option<TokenModel> {
    if at < tokens.len() {
        Some(tokens[at as int])
    } else {
        None
    }
}

/// The token after the one at a position.
pub open spec fn peek(tokens: Seq<TokenModel>, at: nat) -> Option<TokenModel> {
    current(tokens, at + 1)
}

/// The position after reading the current token. At the end of the tokens
/// there is nothing left to read.
pub open spec fn advance(tokens: Seq<TokenModel>, at: nat) -> nat {
    if at < tokens.len() {
        at + 1
    } else {
        at
    }
}

/// The source position that an error at a token position reports: that of
/// the current token, or of the last token once all are read. Where there is
/// no token at all it is the start of the source, line 0, column 0.
pub open spec fn error_position(tokens: Seq<TokenModel>, at: nat) -> (i32, i32) {
    if tokens.len() == 0 {
        (0, 0)
    } else if at < tokens.len() {
        tokens[at as int].pos
    } else {
        tokens.last().pos
    }
}

/// Whether there is a token and it is of the given kind.
pub open spec fn is_kind(token: Option<TokenModel>, kind: TokenType) -> bool {
    token matches Some(t) && t.token_type == kind
}

/// Whether there is a token and it is of the given kind with the given text.
pub open spec fn is_symbol(token: Option<TokenModel>, kind: TokenType, text: Seq<char>) -> bool {
    token matches Some(t) && t.token_type == kind && t.value == text
}

/// The name that `std::fmt::Debug` shows for a kind of token.
pub open spec fn kind_name(kind: TokenType) -> Seq<char> {
    match kind {
        TokenType::Whitespace => "Whitespace"@,
        TokenType::Keyword => "Keyword"@,
        TokenType::GroupDivider => "GroupDivider"@,
        TokenType::StartOfBlock => "StartOfBlock"@,
        TokenType::EndOfBlock => "EndOfBlock"@,
        TokenType::EndOfStatement => "EndOfStatement"@,
        TokenType::Logical => "Logical"@,
        TokenType::Numeric => "Numeric"@,
        TokenType::Text => "Text"@,
        TokenType::Identifier => "Identifier"@,
        TokenType::Operator => "Operator"@,
    }
}

/// How an error message shows the token it stopped at.
pub open spec fn token_text(token: Option<TokenModel>) -> Seq<char> {
    match token {
        None => "None"@,
        Some(t) => "Some(Token { pos: ("@ + decimal(t.pos.0 as int) + ", "@ + decimal(
            t.pos.1 as int,
        ) + "), token_type: "@ + kind_name(t.token_type) + ", value: "@ + quoted(t.value)
            + " })"@,
    }
}

/// What a rule makes of the tokens: a tree or an error, and the position it
/// stopped at.
pub struct Parsed<T> {
    pub result: Result<T, Diagnostic>,
    pub next: nat,
}

/// A rule that fails at a position with a message.
pub open spec fn failed<T>(tokens: Seq<TokenModel>, at: nat, message: Seq<char>) -> Parsed<T> {
    Parsed {
        result: Err(
            Diagnostic {
                line: error_position(tokens, at).0,
                col: error_position(tokens, at).1,
                message,
            },
        ),
        next: at,
    }
}

/// The operator that a text spells.
pub open spec fn operator_of(text: Seq<char>) -> Option<Operator> {
    if text == "+"@ {
        Some(Operator::Plus)
    } else if text == "-"@ {
        Some(Operator::Minus)
    } else if text == "*"@ {
        Some(Operator::Multiplication)
    } else if text == "/"@ {
        Some(Operator::Division)
    } else if text == "%"@ {
        Some(Operator::Modulo)
    } else if text == "=="@ {
        Some(Operator::Equal)
    } else if text == "!="@ {
        Some(Operator::NotEqual)
    } else if text == "<="@ {
        Some(Operator::InfOrEqual)
    } else if text == ">="@ {
        Some(Operator::SupOrEqual)
    } else if text == ">"@ {
        Some(Operator::Superior)
    } else if text == "<"@ {
        Some(Operator::Inferior)
    } else if text == "&&"@ {
        Some(Operator::And)
    } else if text == "||"@ {
        Some(Operator::Or)
    } else {
        None
    }
}

/// A reference to a declared name, as the parser records it: without a value.
pub open spec fn reference(name: Seq<char>) -> IdentifierModel {
    IdentifierModel { name, value: None }
}

/// `term ::= identifier | integer | boolean | text`. An identifier must be
/// among the declared names; a numeral and a boolean must read as one.
pub open spec fn term_model(tokens: Seq<TokenModel>, at: nat, declared: Set<Seq<char>>) -> Parsed<
    TermModel,
> {
    let token = current(tokens, at);
    let after = advance(tokens, at);
    if is_kind(token, TokenType::Identifier) {
        let name = token->0.value;
        if declared.contains(name) {
            Parsed { result: Ok(TermModel::Identifier(reference(name))), next: after }
        } else {
            failed(tokens, after, "Identifier "@ + name + " not declared"@)
        }
    } else if is_kind(token, TokenType::Numeric) {
        let text = token->0.value;
        match integer_of(text) {
            Some(n) => Parsed { result: Ok(TermModel::Integer(n)), next: after },
            None => failed(tokens, after, "Parsing error, "@ + text + " is not numeric"@),
        }
    } else if is_kind(token, TokenType::Logical) {
        let text = token->0.value;
        match boolean_of(text) {
            Some(b) => Parsed { result: Ok(TermModel::Bool(b)), next: after },
            None => failed(tokens, after, "Parsing error, "@ + text + " is not boolean"@),
        }
    } else if is_kind(token, TokenType::Text) {
        Parsed { result: Ok(TermModel::Text(token->0.value)), next: after }
    } else {
        failed(tokens, at, "Term cannot be matched: "@ + token_text(token))
    }
}

/// `expression ::= term (operator expression)?`. Where an operator follows
/// the first token, the term before it is the left operand and the whole
/// rest of the expression the right one, whatever the operators are.
pub open spec fn expression_model(
    tokens: Seq<TokenModel>,
    at: nat,
    declared: Set<Seq<char>>,
) -> Parsed<ExpressionModel>
    decreases tokens.len() - at,
{
    if is_kind(peek(tokens, at), TokenType::Operator) {
        match operator_of(peek(tokens, at)->0.value) {
            None => failed(tokens, at, "Unknown operator"@),
            Some(operator) => {
                let left = term_model(tokens, at, declared);
                match left.result {
                    Err(e) => Parsed { result: Err(e), next: left.next },
                    Ok(term) => {
                        let right = expression_model(tokens, advance(tokens, left.next), declared);
                        match right.result {
                            Err(e) => Parsed { result: Err(e), next: right.next },
                            Ok(rest) => Parsed {
                                result: Ok(
                                    ExpressionModel::Operation(
                                        Box::new(
                                            OperationModel {
                                                left: ExpressionModel::Term(term),
                                                operator,
                                                right: rest,
                                            },
                                        ),
                                    ),
                                ),
                                next: right.next,
                            },
                        }
                    },
                }
            },
        }
    } else {
        let term = term_model(tokens, at, declared);
        match term.result {
            Err(e) => Parsed { result: Err(e), next: term.next },
            Ok(t) => Parsed { result: Ok(ExpressionModel::Term(t)), next: term.next },
        }
    }
}

/// An expression stops after the position it started from when it parses,
/// and never before it or beyond the tokens.
pub proof fn lemma_expression_bounds(tokens: Seq<TokenModel>, at: nat, declared: Set<Seq<char>>)
    requires
        at <= tokens.len(),
    ensures
        at <= expression_model(tokens, at, declared).next <= tokens.len(),
        expression_model(tokens, at, declared).result is Ok ==> at < expression_model(
            tokens,
            at,
            declared,
        ).next,
    decreases tokens.len() - at,
{
    if is_kind(peek(tokens, at), TokenType::Operator) && operator_of(peek(tokens, at)->0.value)
        is Some {
        let left = term_model(tokens, at, declared);
        if left.result is Ok {
            lemma_expression_bounds(tokens, advance(tokens, left.next), declared);
        }
    }
}

/// The end of a statement: a semicolon at the position closes it.
pub open spec fn closed(tokens: Seq<TokenModel>, at: nat, statement: StatementModel) -> Parsed<
    StatementModel,
> {
    if is_kind(current(tokens, at), TokenType::EndOfStatement) {
        Parsed { result: Ok(statement), next: advance(tokens, at) }
    } else {
        failed(tokens, at, "Missing end of statement"@)
    }
}

/// `'=' expression ';'`, the tail that a declaration and an assignment
/// share, for the name read before it.
pub open spec fn assignment_model(
    tokens: Seq<TokenModel>,
    at: nat,
    name: Seq<char>,
    declared: Set<Seq<char>>,
) -> Parsed<StatementModel> {
    if is_symbol(current(tokens, at), TokenType::Operator, "="@) {
        let value = expression_model(tokens, advance(tokens, at), declared);
        match value.result {
            Err(e) => Parsed { result: Err(e), next: value.next },
            Ok(expression) => closed(
                tokens,
                value.next,
                StatementModel::Assignment(
                    AssignmentModel { identifier: reference(name), expression },
                ),
            ),
        }
    } else {
        failed(tokens, at, "Assignement without '=' sign"@)
    }
}

/// `'(' (text | expression) ')' ';'`, from the token after `print`. A text
/// directly before the closing bracket is printed as it stands.
pub open spec fn print_model(tokens: Seq<TokenModel>, at: nat, declared: Set<Seq<char>>) -> Parsed<
    StatementModel,
> {
    if is_symbol(current(tokens, at), TokenType::GroupDivider, "("@) {
        let inside = advance(tokens, at);
        if is_kind(current(tokens, inside), TokenType::Text) && is_symbol(
            peek(tokens, inside),
            TokenType::GroupDivider,
            ")"@,
        ) {
            closed(
                tokens,
                advance(tokens, advance(tokens, inside)),
                StatementModel::Print(PrintModel::Term(TermModel::Text(tokens[inside as int].value))),
            )
        } else {
            let value = expression_model(tokens, inside, declared);
            match value.result {
                Err(e) => Parsed { result: Err(e), next: value.next },
                Ok(expression) => if is_symbol(
                    current(tokens, value.next),
                    TokenType::GroupDivider,
                    ")"@,
                ) {
                    closed(
                        tokens,
                        advance(tokens, value.next),
                        StatementModel::Print(PrintModel::Expression(expression)),
                    )
                } else {
                    failed(tokens, value.next, "Missing closing bracket"@)
                },
            }
        }
    } else {
        failed(tokens, at, "Missing opening bracket"@)
    }
}

/// What a statement makes of the tokens: besides the tree or the error and
/// the position, the declarations of its block after it.
pub struct ParsedStatement {
    pub result: Result<StatementModel, Diagnostic>,
    pub next: nat,
    pub table: Map<Seq<char>, IdentifierModel>,
}

/// A statement that leaves the declarations of its block as they are.
pub open spec fn unchanged(
    parsed: Parsed<StatementModel>,
    table: Map<Seq<char>, IdentifierModel>,
) -> ParsedStatement {
    ParsedStatement { result: parsed.result, next: parsed.next, table }
}

/// A declaration of `name`: once the statement is complete, and not before,
/// the name enters the declarations, so that the expression of a
/// declaration cannot use the name it declares.
pub open spec fn declaring(
    parsed: Parsed<StatementModel>,
    name: Seq<char>,
    table: Map<Seq<char>, IdentifierModel>,
) -> ParsedStatement {
    ParsedStatement {
        result: parsed.result,
        next: parsed.next,
        table: if parsed.result is Ok {
            table.insert(name, reference(name))
        } else {
            table
        },
    }
}

/// `block ::= '{' statement* '}'`. The block starts with no declarations of
/// its own: what the enclosing block declared is not visible in it.
pub open spec fn block_model(tokens: Seq<TokenModel>, at: nat) -> Parsed<BlockModel>
    decreases tokens.len() - at, 2int,
{
    if is_kind(current(tokens, at), TokenType::StartOfBlock) {
        statements_model(tokens, advance(tokens, at), Seq::empty(), Map::empty())
    } else {
        failed(tokens, at, "Missing opening block"@)
    }
}

/// `statement* '}'`: the statements of a block up to its closing brace, after
/// the statements and declarations already read. The rule goes on behind a
/// statement only from a later position; `lemma_statement_bounds` shows that
/// a statement that parses always ends at one.
pub open spec fn statements_model(
    tokens: Seq<TokenModel>,
    at: nat,
    statements: Seq<StatementModel>,
    table: Map<Seq<char>, IdentifierModel>,
) -> Parsed<BlockModel>
    decreases tokens.len() - at, 1int,
{
    if is_kind(current(tokens, at), TokenType::EndOfBlock) {
        Parsed {
            result: Ok(BlockModel { statements, symbol_table: table }),
            next: advance(tokens, at),
        }
    } else {
        let first = statement_model(tokens, at, table);
        match first.result {
            Err(e) => Parsed { result: Err(e), next: first.next },
            Ok(statement) => if at < first.next <= tokens.len() {
                statements_model(tokens, first.next, statements.push(statement), first.table)
            } else {
                Parsed { result: Ok(BlockModel { statements, symbol_table: table }), next: at }
            },
        }
    }
}

/// The conditional with the given parts.
pub open spec fn conditional(
    expression: ExpressionModel,
    then_statement_block: BlockModel,
    else_statement_block: Option<BlockModel>,
) -> StatementModel {
    StatementModel::If(Box::new(IfModel { expression, then_statement_block, else_statement_block }))
}

/// `'(' expression ')' block ('else' block)?`, from the token after `if`.
/// The rule looks for `else` only behind a block that ends at a later
/// position; `lemma_block_bounds` shows that every block that parses does.
pub open spec fn if_model(tokens: Seq<TokenModel>, at: nat, declared: Set<Seq<char>>) -> Parsed<
    StatementModel,
>
    decreases tokens.len() - at, 0int,
{
    if is_symbol(current(tokens, at), TokenType::GroupDivider, "("@) {
        let condition = expression_model(tokens, advance(tokens, at), declared);
        match condition.result {
            Err(e) => Parsed { result: Err(e), next: condition.next },
            Ok(expression) => if is_symbol(
                current(tokens, condition.next),
                TokenType::GroupDivider,
                ")"@,
            ) {
                proof {
                    lemma_expression_bounds(tokens, advance(tokens, at), declared);
                }
                let then_branch = block_model(tokens, advance(tokens, condition.next));
                match then_branch.result {
                    Err(e) => Parsed { result: Err(e), next: then_branch.next },
                    Ok(then_statement_block) => if at < then_branch.next && is_symbol(
                        current(tokens, then_branch.next),
                        TokenType::Keyword,
                        "else"@,
                    ) {
                        let else_branch = block_model(tokens, advance(tokens, then_branch.next));
                        match else_branch.result {
                            Err(e) => Parsed { result: Err(e), next: else_branch.next },
                            Ok(else_statement_block) => Parsed {
                                result: Ok(
                                    conditional(
                                        expression,
                                        then_statement_block,
                                        Some(else_statement_block),
                                    ),
                                ),
                                next: else_branch.next,
                            },
                        }
                    } else {
                        Parsed {
                            result: Ok(conditional(expression, then_statement_block, None)),
                            next: then_branch.next,
                        }
                    },
                }
            } else {
                failed(tokens, condition.next, "Missing closing bracket"@)
            },
        }
    } else {
        failed(tokens, at, "Missing opening bracket"@)
    }
}

/// `statement ::= print | if | declaration | assignment`, chosen by the
/// first token. A declaration is rejected where its name is declared in the
/// block already, an assignment where its name is not.
pub open spec fn statement_model(
    tokens: Seq<TokenModel>,
    at: nat,
    table: Map<Seq<char>, IdentifierModel>,
) -> ParsedStatement
    decreases tokens.len() - at, 0int,
{
    let token = current(tokens, at);
    let after = advance(tokens, at);
    if is_symbol(token, TokenType::Keyword, "print"@) {
        unchanged(print_model(tokens, after, table.dom()), table)
    } else if is_symbol(token, TokenType::Keyword, "if"@) {
        unchanged(if_model(tokens, after, table.dom()), table)
    } else if is_symbol(token, TokenType::Keyword, "var"@) {
        if is_kind(current(tokens, after), TokenType::Identifier) {
            let name = tokens[after as int].value;
            let then = advance(tokens, after);
            if table.contains_key(name) {
                unchanged(failed(tokens, then, "Identifier "@ + name + " already used"@), table)
            } else {
                declaring(assignment_model(tokens, then, name, table.dom()), name, table)
            }
        } else {
            unchanged(failed(tokens, after, "Identifier needed after var keyword"@), table)
        }
    } else if is_kind(token, TokenType::Identifier) {
        let name = token->0.value;
        if table.contains_key(name) {
            unchanged(assignment_model(tokens, after, name, table.dom()), table)
        } else {
            unchanged(failed(tokens, after, "Identifier "@ + name + " not declared"@), table)
        }
    } else {
        unchanged(failed(tokens, at, "Statement cannot be matched: "@ + token_text(token)), table)
    }
}

/// A block ends within the tokens, and after the position it started from
/// when it parses.
pub proof fn lemma_block_bounds(tokens: Seq<TokenModel>, at: nat)
    requires
        at <= tokens.len(),
    ensures
        at <= block_model(tokens, at).next <= tokens.len(),
        block_model(tokens, at).result is Ok ==> at < block_model(tokens, at).next,
    decreases tokens.len() - at, 2int,
{
    if is_kind(current(tokens, at), TokenType::StartOfBlock) {
        lemma_statements_bounds(tokens, advance(tokens, at), Seq::empty(), Map::empty());
    }
}

/// The statements of a block end within the tokens, and after the position
/// they started from when they parse.
pub proof fn lemma_statements_bounds(
    tokens: Seq<TokenModel>,
    at: nat,
    statements: Seq<StatementModel>,
    table: Map<Seq<char>, IdentifierModel>,
)
    requires
        at <= tokens.len(),
    ensures
        at <= statements_model(tokens, at, statements, table).next <= tokens.len(),
        statements_model(tokens, at, statements, table).result is Ok ==> at < statements_model(
            tokens,
            at,
            statements,
            table,
        ).next,
    decreases tokens.len() - at, 1int,
{
    if !is_kind(current(tokens, at), TokenType::EndOfBlock) {
        lemma_statement_bounds(tokens, at, table);
        let first = statement_model(tokens, at, table);
        if first.result is Ok {
            lemma_statements_bounds(
                tokens,
                first.next,
                statements.push(first.result->Ok_0),
                first.table,
            );
        }
    }
}

/// A statement ends within the tokens, and after the position it started
/// from when it parses.
pub proof fn lemma_statement_bounds(
    tokens: Seq<TokenModel>,
    at: nat,
    table: Map<Seq<char>, IdentifierModel>,
)
    requires
        at <= tokens.len(),
    ensures
        at <= statement_model(tokens, at, table).next <= tokens.len(),
        statement_model(tokens, at, table).result is Ok ==> at < statement_model(
            tokens,
            at,
            table,
        ).next,
    decreases tokens.len() - at, 0int,
{
    let token = current(tokens, at);
    let after = advance(tokens, at);
    if is_symbol(token, TokenType::Keyword, "print"@) {
        if is_symbol(current(tokens, after), TokenType::GroupDivider, "("@) {
            lemma_expression_bounds(tokens, advance(tokens, after), table.dom());
        }
    } else if is_symbol(token, TokenType::Keyword, "if"@) {
        lemma_if_bounds(tokens, after, table.dom());
    } else if is_symbol(token, TokenType::Keyword, "var"@) {
        if is_kind(current(tokens, after), TokenType::Identifier) {
            lemma_assignment_bounds(
                tokens,
                advance(tokens, after),
                tokens[after as int].value,
                table.dom(),
            );
        }
    } else if is_kind(token, TokenType::Identifier) {
        lemma_assignment_bounds(tokens, after, token->0.value, table.dom());
    }
}

/// The tail of an assignment ends within the tokens and not before the
/// position it started from.
pub proof fn lemma_assignment_bounds(
    tokens: Seq<TokenModel>,
    at: nat,
    name: Seq<char>,
    declared: Set<Seq<char>>,
)
    requires
        at <= tokens.len(),
    ensures
        at <= assignment_model(tokens, at, name, declared).next <= tokens.len(),
{
    if is_symbol(current(tokens, at), TokenType::Operator, "="@) {
        lemma_expression_bounds(tokens, advance(tokens, at), declared);
    }
}

/// What follows `if` ends within the tokens and not before the position it
/// started from.
pub proof fn lemma_if_bounds(tokens: Seq<TokenModel>, at: nat, declared: Set<Seq<char>>)
    requires
        at <= tokens.len(),
    ensures
        at <= if_model(tokens, at, declared).next <= tokens.len(),
    decreases tokens.len() - at, 0int,
{
    if is_symbol(current(tokens, at), TokenType::GroupDivider, "("@) {
        lemma_expression_bounds(tokens, advance(tokens, at), declared);
        let condition = expression_model(tokens, advance(tokens, at), declared);
        if condition.result is Ok && is_symbol(
            current(tokens, condition.next),
            TokenType::GroupDivider,
            ")"@,
        ) {
            lemma_block_bounds(tokens, advance(tokens, condition.next));
            let then_branch = block_model(tokens, advance(tokens, condition.next));
            if then_branch.result is Ok && is_symbol(
                current(tokens, then_branch.next),
                TokenType::Keyword,
                "else"@,
            ) {
                lemma_block_bounds(tokens, advance(tokens, then_branch.next));
            }
        }
    }
}

} // verus!
