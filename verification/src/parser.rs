//! The parser: recursive descent over the tokens with one token of
//! lookahead. It checks declarations while it parses: each block has a table
//! of its own, and a name must be declared in it before it is used.

use vstd::prelude::*;
use crate::errors::{Diagnostic, SyntaxError};
use crate::grammar::{
    AssignmentStatement, BlockModel, Expression, Identifier, IfStatement, Operation, Operator, PrintStatement,
    Statement, StatementBlock, StatementModel, Term,
};
use crate::lexer::{token_models, Token, TokenModel, TokenType};
use crate::syntax::{
    advance, assignment_model, block_model, closed, current, error_position, expression_model,
    if_model, is_kind, is_symbol, kind_name, lemma_block_bounds, lemma_expression_bounds,
    lemma_statement_bounds, operator_of, peek, print_model, statement_model, statements_model,
    term_model, token_text,
};
use crate::text::{parse_boolean, parse_integer, quote, render_integer, same_text};

verus! {

/// The model of an optional token.
pub open spec fn token_model(token: Option<Token>) -> Option<TokenModel> {
    match token {
        Some(t) => Some(t@),
        None => None,
    }
}

/// The model of what a rule returns: the model of the tree, or of the error.
pub open spec fn outcome<T: View>(r: Result<T, SyntaxError>) -> Result<T::V, Diagnostic> {
    match r {
        Ok(tree) => Ok(tree@),
        Err(e) => Err(e@),
    }
}

/// The two texts, one after the other.
fn pair(a: &str, b: &str) -> (r: String)
    ensures
        r@ == a@ + b@,
{
    let mut r = String::from_str(a);
    r.append(b);
    r
}

/// The three texts, one after the other.
fn join(a: &str, b: &str, c: &str) -> (r: String)
    ensures
        r@ == a@ + b@ + c@,
{
    let mut r = String::from_str(a);
    r.append(b);
    r.append(c);
    r
}

/// The name of a kind of token.
fn name_of(kind: TokenType) -> (r: &'static str)
    ensures
        r@ == kind_name(kind),
{
    match kind {
        TokenType::Whitespace => "Whitespace",
        TokenType::Keyword => "Keyword",
        TokenType::GroupDivider => "GroupDivider",
        TokenType::StartOfBlock => "StartOfBlock",
        TokenType::EndOfBlock => "EndOfBlock",
        TokenType::EndOfStatement => "EndOfStatement",
        TokenType::Logical => "Logical",
        TokenType::Numeric => "Numeric",
        TokenType::Text => "Text",
        TokenType::Identifier => "Identifier",
        TokenType::Operator => "Operator",
    }
}

/// Shows a token the way an error message does.
pub fn describe_token(token: &Option<Token>) -> (r: String)
    ensures
        r@ == token_text(token_model(*token)),
{
    match token {
        None => String::from_str("None"),
        Some(t) => {
            let mut r = String::from_str("Some(Token { pos: (");
            r.append(render_integer(t.pos.0 as i64).as_str());
            r.append(", ");
            r.append(render_integer(t.pos.1 as i64).as_str());
            r.append("), token_type: ");
            r.append(name_of(t.token_type));
            r.append(", value: ");
            r.append(quote(t.value.as_str()).as_str());
            r.append(" })");
            r
        },
    }
}

/// A cursor over a token sequence, and the grammar rules that move it.
pub struct SyntaxAnalizer {
    tokens: Vec<Token>,
    pub ast: StatementBlock,
    current_token: Option<Token>,
    peek_token: Option<Token>,
    token_pos: usize,
    file_pos: (i32, i32),
}

impl SyntaxAnalizer {
    /// The tokens that the cursor runs over.
    pub closed spec fn stream(&self) -> Seq<TokenModel> {
        token_models(self.tokens@)
    }

    /// The position of the cursor: how many tokens it has read.
    pub closed spec fn consumed(&self) -> nat {
        if self.current_token is Some {
            (self.token_pos - 1) as nat
        } else {
            self.tokens.len() as nat
        }
    }

    /// The cursor is consistent: the token it holds as current, the one it
    /// holds as next and the source position it reports are those of its
    /// position in the tokens.
    pub closed spec fn wf(&self) -> bool {
        &&& self.current_token is Some ==> 1 <= self.token_pos <= self.tokens.len()
        &&& token_model(self.current_token) == current(self.stream(), self.consumed())
        &&& token_model(self.peek_token) == peek(self.stream(), self.consumed())
        &&& self.file_pos == error_position(self.stream(), self.consumed())
    }

    /// The cursor is consistent, runs over the same tokens as `before` and
    /// stands at `at`; the tree it holds is untouched.
    pub open spec fn moved(&self, before: &SyntaxAnalizer, at: nat) -> bool {
        &&& self.wf()
        &&& self.stream() == before.stream()
        &&& self.consumed() == at
        &&& self.tree() == before.tree()
    }

    /// The tree that the cursor holds in `ast`.
    pub closed spec fn tree(&self) -> StatementBlock {
        self.ast
    }

    /// The position of a consistent cursor lies within its tokens.
    pub proof fn lemma_consumed_bound(&self)
        requires
            self.wf(),
        ensures
            self.consumed() <= self.stream().len(),
    {
    }

    /// A cursor at the start of the tokens, however many there are: the
    /// first is the current token and the second the next one, as far as
    /// they exist.
    pub fn new(tokens: Vec<Token>) -> (r: Self)
        ensures
            r.wf(),
            r.stream() == token_models(tokens@),
            r.consumed() == 0,
            r.tree()@ == (BlockModel { statements: Seq::empty(), symbol_table: Map::empty() }),
    {
        let current_token = if tokens.len() > 0 {
            Some(tokens[0].clone())
        } else {
            None
        };
        let peek_token = if tokens.len() > 1 {
            Some(tokens[1].clone())
        } else {
            None
        };
        let file_pos = match &current_token {
            Some(token) => token.pos,
            None => (0, 0),
        };
        let ast = StatementBlock::new();
        SyntaxAnalizer { tokens, ast, current_token, peek_token, token_pos: 1, file_pos }
    }

    /// Parses a block from the position of the cursor.
    pub fn parse(&mut self) -> (r: Result<StatementBlock, SyntaxError>)
        requires
            old(self).wf(),
        ensures
            final(self).moved(old(self), block_model(old(self).stream(), old(self).consumed()).next),
            outcome(r) == block_model(old(self).stream(), old(self).consumed()).result,
    {
        self.parse_statement_block()
    }

    /// Whether the current token is of the given kind.
    pub fn check_token(&self, token_type: TokenType) -> (r: bool)
        requires
            self.wf(),
        ensures
            r == is_kind(current(self.stream(), self.consumed()), token_type),
    {
        match &self.current_token {
            Some(token) => token.token_type == token_type,
            None => false,
        }
    }

    /// Whether the token after the current one is of the given kind.
    pub fn check_peek(&self, token_type: TokenType) -> (r: bool)
        requires
            self.wf(),
        ensures
            r == is_kind(peek(self.stream(), self.consumed()), token_type),
    {
        match &self.peek_token {
            Some(token) => token.token_type == token_type,
            None => false,
        }
    }

    /// Whether the current token is of the given kind and has the given text.
    pub fn check_token_and_value(&self, token_type: TokenType, value: &str) -> (r: bool)
        requires
            self.wf(),
        ensures
            r == is_symbol(current(self.stream(), self.consumed()), token_type, value@),
    {
        match &self.current_token {
            Some(token) => token.token_type == token_type && same_text(token.value.as_str(), value),
            None => false,
        }
    }

    /// Whether the token after the current one is of the given kind and has
    /// the given text.
    pub fn check_peek_and_value(&self, token_type: TokenType, value: &str) -> (r: bool)
        requires
            self.wf(),
        ensures
            r == is_symbol(peek(self.stream(), self.consumed()), token_type, value@),
    {
        match &self.peek_token {
            Some(token) => token.token_type == token_type && same_text(token.value.as_str(), value),
            None => false,
        }
    }

    /// The text of a token that is there.
    pub fn get_token_value(&self, token: &Option<Token>) -> (r: String)
        requires
            token is Some,
        ensures
            r@ == token->0.value@,
    {
        match token {
            Some(t) => t.value.clone(),
            None => String::new(),
        }
    }

    /// Moves the cursor to the next token. At the end of the tokens it stays
    /// where it is.
    pub fn next_token(&mut self)
        requires
            old(self).wf(),
        ensures
            final(self).moved(old(self), advance(old(self).stream(), old(self).consumed())),
    {
        if self.current_token.is_some() {
            let next = match &self.peek_token {
                Some(token) => Some(token.clone()),
                None => None,
            };
            if let Some(token) = &next {
                self.file_pos = token.pos;
            }
            self.current_token = next;
            if self.token_pos < self.tokens.len() {
                self.token_pos += 1;
            }
            if self.current_token.is_some() && self.token_pos < self.tokens.len() {
                self.peek_token = Some(self.tokens[self.token_pos].clone());
            } else {
                self.peek_token = None;
            }
        }
    }

    /// An error with the given message at the source position of the cursor.
    pub fn get_error(&self, message: &str) -> (r: SyntaxError)
        requires
            self.wf(),
        ensures
            r@ == (Diagnostic {
                line: error_position(self.stream(), self.consumed()).0,
                col: error_position(self.stream(), self.consumed()).1,
                message: message@,
            }),
    {
        SyntaxError { line: self.file_pos.0, col: self.file_pos.1, message: String::from_str(message) }
    }

    /// The operator that a text spells, if it spells one.
    pub fn parse_operator(&self, value: &str) -> (r: Option<Operator>)
        ensures
            r == operator_of(value@),
    {
        if same_text(value, "+") {
            Some(Operator::Plus)
        } else if same_text(value, "-") {
            Some(Operator::Minus)
        } else if same_text(value, "*") {
            Some(Operator::Multiplication)
        } else if same_text(value, "/") {
            Some(Operator::Division)
        } else if same_text(value, "%") {
            Some(Operator::Modulo)
        } else if same_text(value, "==") {
            Some(Operator::Equal)
        } else if same_text(value, "!=") {
            Some(Operator::NotEqual)
        } else if same_text(value, "<=") {
            Some(Operator::InfOrEqual)
        } else if same_text(value, ">=") {
            Some(Operator::SupOrEqual)
        } else if same_text(value, ">") {
            Some(Operator::Superior)
        } else if same_text(value, "<") {
            Some(Operator::Inferior)
        } else if same_text(value, "&&") {
            Some(Operator::And)
        } else if same_text(value, "||") {
            Some(Operator::Or)
        } else {
            None
        }
    }

    /// Parses a term at the cursor, against the declarations of `block`.
    pub fn parse_term(&mut self, block: &mut StatementBlock) -> (r: Result<Term, SyntaxError>)
        requires
            old(self).wf(),
        ensures
            *final(block) == *old(block),
            final(self).moved(
                old(self),
                term_model(
                    old(self).stream(),
                    old(self).consumed(),
                    old(block).symbol_table@.dom(),
                ).next,
            ),
            outcome(r) == term_model(
                old(self).stream(),
                old(self).consumed(),
                old(block).symbol_table@.dom(),
            ).result,
    {
        if self.check_token(TokenType::Identifier) {
            let name = self.get_token_value(&self.current_token);
            self.next_token();
            if block.symbol_table.contains_key(name.as_str()) {
                Ok(Term::Identifier(Identifier { name, value: None }))
            } else {
                Err(self.get_error(join("Identifier ", name.as_str(), " not declared").as_str()))
            }
        } else if self.check_token(TokenType::Numeric) {
            let text = self.get_token_value(&self.current_token);
            let value = parse_integer(text.as_str());
            self.next_token();
            match value {
                Some(n) => Ok(Term::Integer(n)),
                None => Err(
                    self.get_error(join("Parsing error, ", text.as_str(), " is not numeric").as_str()),
                ),
            }
        } else if self.check_token(TokenType::Logical) {
            let text = self.get_token_value(&self.current_token);
            let value = parse_boolean(text.as_str());
            self.next_token();
            match value {
                Some(b) => Ok(Term::Bool(b)),
                None => Err(
                    self.get_error(join("Parsing error, ", text.as_str(), " is not boolean").as_str()),
                ),
            }
        } else if self.check_token(TokenType::Text) {
            let text = self.get_token_value(&self.current_token);
            self.next_token();
            Ok(Term::String(text))
        } else {
            let shown = describe_token(&self.current_token);
            Err(self.get_error(pair("Term cannot be matched: ", shown.as_str()).as_str()))
        }
    }

    /// How many tokens are left to read.
    pub closed spec fn remaining(&self) -> nat {
        (self.tokens.len() - self.consumed()) as nat
    }

    /// Parses an expression at the cursor, against the declarations of
    /// `block`.
    pub fn parse_expression(&mut self, block: &mut StatementBlock) -> (r: Result<
        Expression,
        SyntaxError,
    >)
        requires
            old(self).wf(),
        ensures
            *final(block) == *old(block),
            final(self).moved(
                old(self),
                expression_model(
                    old(self).stream(),
                    old(self).consumed(),
                    old(block).symbol_table@.dom(),
                ).next,
            ),
            outcome(r) == expression_model(
                old(self).stream(),
                old(self).consumed(),
                old(block).symbol_table@.dom(),
            ).result,
        decreases old(self).remaining(),
    {
        if self.check_peek(TokenType::Operator) {
            let value = self.get_token_value(&self.peek_token);
            match self.parse_operator(value.as_str()) {
                None => Err(self.get_error("Unknown operator")),
                Some(operator) => {
                    let left = match self.parse_term(block) {
                        Ok(term) => term,
                        Err(error) => {
                            return Err(error);
                        },
                    };
                    self.next_token();
                    let right = match self.parse_expression(block) {
                        Ok(expression) => expression,
                        Err(error) => {
                            return Err(error);
                        },
                    };
                    let left = Expression::Term(left);
                    assert(left@ is Term);
                    Ok(Expression::Operation(Box::new(Operation { left, operator, right })))
                },
            }
        } else {
            match self.parse_term(block) {
                Ok(term) => Ok(Expression::Term(term)),
                Err(error) => Err(error),
            }
        }
    }

    /// Closes a statement: reads the semicolon that must stand at the cursor.
    fn end_statement(&mut self, statement: Statement) -> (r: Result<Statement, SyntaxError>)
        requires
            old(self).wf(),
        ensures
            final(self).moved(
                old(self),
                closed(old(self).stream(), old(self).consumed(), statement@).next,
            ),
            outcome(r) == closed(old(self).stream(), old(self).consumed(), statement@).result,
    {
        if self.check_token(TokenType::EndOfStatement) {
            self.next_token();
            Ok(statement)
        } else {
            Err(self.get_error("Missing end of statement"))
        }
    }

    /// Parses what follows the name of a declaration or of an assignment.
    fn parse_assignment(&mut self, block: &mut StatementBlock, name: String) -> (r: Result<
        Statement,
        SyntaxError,
    >)
        requires
            old(self).wf(),
        ensures
            *final(block) == *old(block),
            final(self).moved(
                old(self),
                assignment_model(
                    old(self).stream(),
                    old(self).consumed(),
                    name@,
                    old(block).symbol_table@.dom(),
                ).next,
            ),
            outcome(r) == assignment_model(
                old(self).stream(),
                old(self).consumed(),
                name@,
                old(block).symbol_table@.dom(),
            ).result,
    {
        if self.check_token_and_value(TokenType::Operator, "=") {
            self.next_token();
            let expression = match self.parse_expression(block) {
                Ok(expression) => expression,
                Err(error) => {
                    return Err(error);
                },
            };
            let identifier = Identifier { name, value: None };
            self.end_statement(Statement::Assignment(AssignmentStatement { identifier, expression }))
        } else {
            Err(self.get_error("Assignement without '=' sign"))
        }
    }

    /// Parses what follows the keyword `print`.
    fn parse_print(&mut self, block: &mut StatementBlock) -> (r: Result<Statement, SyntaxError>)
        requires
            old(self).wf(),
        ensures
            *final(block) == *old(block),
            final(self).moved(
                old(self),
                print_model(
                    old(self).stream(),
                    old(self).consumed(),
                    old(block).symbol_table@.dom(),
                ).next,
            ),
            outcome(r) == print_model(
                old(self).stream(),
                old(self).consumed(),
                old(block).symbol_table@.dom(),
            ).result,
    {
        if self.check_token_and_value(TokenType::GroupDivider, "(") {
            self.next_token();
            if self.check_token(TokenType::Text) && self.check_peek_and_value(
                TokenType::GroupDivider,
                ")",
            ) {
                let text = self.get_token_value(&self.current_token);
                self.next_token();
                self.next_token();
                self.end_statement(Statement::Print(PrintStatement::Term(Term::String(text))))
            } else {
                let expression = match self.parse_expression(block) {
                    Ok(expression) => expression,
                    Err(error) => {
                        return Err(error);
                    },
                };
                if self.check_token_and_value(TokenType::GroupDivider, ")") {
                    self.next_token();
                    self.end_statement(Statement::Print(PrintStatement::Expression(expression)))
                } else {
                    Err(self.get_error("Missing closing bracket"))
                }
            }
        } else {
            Err(self.get_error("Missing opening bracket"))
        }
    }

    /// Parses what follows the keyword `if`.
    fn parse_if(&mut self, block: &mut StatementBlock) -> (r: Result<Statement, SyntaxError>)
        requires
            old(self).wf(),
        ensures
            *final(block) == *old(block),
            final(self).moved(
                old(self),
                if_model(
                    old(self).stream(),
                    old(self).consumed(),
                    old(block).symbol_table@.dom(),
                ).next,
            ),
            outcome(r) == if_model(
                old(self).stream(),
                old(self).consumed(),
                old(block).symbol_table@.dom(),
            ).result,
        decreases old(self).remaining(), 0int,
    {
        let ghost tokens = self.stream();
        let ghost at = self.consumed();
        let ghost declared = block.symbol_table@.dom();
        proof {
            self.lemma_consumed_bound();
        }
        if self.check_token_and_value(TokenType::GroupDivider, "(") {
            self.next_token();
            let expression = match self.parse_expression(block) {
                Ok(expression) => expression,
                Err(error) => {
                    return Err(error);
                },
            };
            if self.check_token_and_value(TokenType::GroupDivider, ")") {
                self.next_token();
                proof {
                    lemma_expression_bounds(tokens, advance(tokens, at), declared);
                }
                let ghost then_start = self.consumed();
                let then_statement_block = match self.parse_statement_block() {
                    Ok(parsed) => parsed,
                    Err(error) => {
                        return Err(error);
                    },
                };
                proof {
                    lemma_block_bounds(tokens, then_start);
                }
                let mut else_statement_block: Option<StatementBlock> = None;
                if self.check_token_and_value(TokenType::Keyword, "else") {
                    self.next_token();
                    match self.parse_statement_block() {
                        Ok(parsed) => {
                            else_statement_block = Some(parsed);
                        },
                        Err(error) => {
                            return Err(error);
                        },
                    }
                }
                Ok(
                    Statement::If(
                        IfStatement { expression, then_statement_block, else_statement_block },
                    ),
                )
            } else {
                Err(self.get_error("Missing closing bracket"))
            }
        } else {
            Err(self.get_error("Missing opening bracket"))
        }
    }

    /// Parses one statement at the cursor. A declaration enters the
    /// declarations of `block`; the statements of `block` are for the caller
    /// to extend.
    pub fn parse_statement(&mut self, block: &mut StatementBlock) -> (r: Result<
        Statement,
        SyntaxError,
    >)
        requires
            old(self).wf(),
        ensures
            final(block).statements == old(block).statements,
            final(block).symbol_table@ == statement_model(
                old(self).stream(),
                old(self).consumed(),
                old(block).symbol_table@,
            ).table,
            final(self).moved(
                old(self),
                statement_model(
                    old(self).stream(),
                    old(self).consumed(),
                    old(block).symbol_table@,
                ).next,
            ),
            outcome(r) == statement_model(
                old(self).stream(),
                old(self).consumed(),
                old(block).symbol_table@,
            ).result,
        decreases old(self).remaining(), 1int,
    {
        proof {
            self.lemma_consumed_bound();
        }
        if self.check_token_and_value(TokenType::Keyword, "print") {
            self.next_token();
            self.parse_print(block)
        } else if self.check_token_and_value(TokenType::Keyword, "if") {
            self.next_token();
            self.parse_if(block)
        } else if self.check_token_and_value(TokenType::Keyword, "var") {
            self.next_token();
            if self.check_token(TokenType::Identifier) {
                let name = self.get_token_value(&self.current_token);
                self.next_token();
                if !block.symbol_table.contains_key(name.as_str()) {
                    let statement = match self.parse_assignment(block, name.clone()) {
                        Ok(statement) => statement,
                        Err(error) => {
                            return Err(error);
                        },
                    };
                    let identifier = Identifier { name: name.clone(), value: None };
                    block.symbol_table.insert(name, identifier);
                    Ok(statement)
                } else {
                    Err(self.get_error(join("Identifier ", name.as_str(), " already used").as_str()))
                }
            } else {
                Err(self.get_error("Identifier needed after var keyword"))
            }
        } else if self.check_token(TokenType::Identifier) {
            let name = self.get_token_value(&self.current_token);
            self.next_token();
            if block.symbol_table.contains_key(name.as_str()) {
                self.parse_assignment(block, name)
            } else {
                Err(self.get_error(join("Identifier ", name.as_str(), " not declared").as_str()))
            }
        } else {
            let shown = describe_token(&self.current_token);
            Err(self.get_error(pair("Statement cannot be matched: ", shown.as_str()).as_str()))
        }
    }

    /// Parses a block at the cursor: an opening brace, statements, a closing
    /// brace. The block gets a table of declarations of its own.
    pub fn parse_statement_block(&mut self) -> (r: Result<StatementBlock, SyntaxError>)
        requires
            old(self).wf(),
        ensures
            final(self).moved(old(self), block_model(old(self).stream(), old(self).consumed()).next),
            outcome(r) == block_model(old(self).stream(), old(self).consumed()).result,
        decreases old(self).remaining(), 2int,
    {
        let ghost tokens = self.stream();
        let ghost start = self.consumed();
        let ghost tree = self.tree();
        let ghost budget = self.remaining();
        proof {
            self.lemma_consumed_bound();
        }
        let mut block = StatementBlock::new();
        if self.check_token(TokenType::StartOfBlock) {
            self.next_token();
            while !self.check_token(TokenType::EndOfBlock)
                invariant
                    self.wf(),
                    self.stream() == tokens,
                    self.tree() == tree,
                    self.remaining() < budget,
                    budget == old(self).remaining(),
                    tokens == old(self).stream(),
                    start == old(self).consumed(),
                    tree == old(self).tree(),
                    block_model(tokens, start) == statements_model(
                        tokens,
                        self.consumed(),
                        block@.statements,
                        block@.symbol_table,
                    ),
                decreases self.remaining(),
            {
                let ghost at = self.consumed();
                let ghost before = block@;
                let ghost first = statement_model(tokens, at, before.symbol_table);
                proof {
                    self.lemma_consumed_bound();
                    lemma_statement_bounds(tokens, at, before.symbol_table);
                }
                match self.parse_statement(&mut block) {
                    Ok(statement) => {
                        let ghost parsed = statement@;
                        block.statements.push(statement);
                        proof {
                            assert(block@.statements =~= before.statements.push(parsed));
                            assert(first.result == Ok::<StatementModel, Diagnostic>(parsed));
                            assert(statements_model(
                                tokens,
                                at,
                                before.statements,
                                before.symbol_table,
                            ) == statements_model(
                                tokens,
                                first.next,
                                before.statements.push(parsed),
                                first.table,
                            ));
                        }
                    },
                    Err(error) => {
                        assert(statements_model(
                            tokens,
                            at,
                            before.statements,
                            before.symbol_table,
                        ).result == Err::<BlockModel, Diagnostic>(error@));
                        return Err(error);
                    },
                }
            }
            self.next_token();
            Ok(block)
        } else {
            Err(self.get_error("Missing opening block"))
        }
    }
}

} // verus!
