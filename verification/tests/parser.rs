use toy_lang::errors::SyntaxError;
use toy_lang::grammar::{
    Expression, Identifier, Operation, Operator, PrintStatement, Statement, StatementBlock, Term,
};
use toy_lang::lexer::{LexicalParser, Token, TokenType};
use toy_lang::parser::{describe_token, SyntaxAnalizer};

fn tokens_of(source: &str) -> Vec<Token> {
    let lines: Vec<String> = source.lines().map(|l| l.to_string()).collect();
    LexicalParser::new(lines).parse().unwrap()
}

fn parse_source(source: &str) -> Result<StatementBlock, SyntaxError> {
    SyntaxAnalizer::new(tokens_of(source)).parse()
}

fn tree_of(source: &str) -> StatementBlock {
    parse_source(source).unwrap()
}

fn error_of(source: &str) -> SyntaxError {
    parse_source(source).unwrap_err()
}

fn token(line: i32, col: i32, token_type: TokenType, value: &str) -> Token {
    Token { pos: (line, col), token_type, value: value.to_string() }
}

fn name(text: &str) -> Expression {
    Expression::Term(Term::Identifier(Identifier { name: text.to_string(), value: None }))
}

fn number(n: i64) -> Expression {
    Expression::Term(Term::Integer(n))
}

fn operation(left: Expression, operator: Operator, right: Expression) -> Expression {
    Expression::Operation(Box::new(Operation { left, operator, right }))
}

fn assigned(statement: &Statement) -> (&str, &Expression) {
    match statement {
        Statement::Assignment(a) => (a.identifier.name.as_str(), &a.expression),
        other => panic!("not an assignment: {:?}", other),
    }
}

#[test]
fn use_before_declaration_is_rejected() {
    let error = error_of("{ x = 1; }");
    assert_eq!(error.message, "Identifier x not declared");
    assert_eq!((error.line, error.col), (0, 4));
    assert_eq!(error.to_string(), "Syntax error at l.0, c.4; Identifier x not declared");
}

#[test]
fn redeclaration_is_rejected() {
    let error = error_of("{ var x = 1; var x = 2; }");
    assert_eq!(error.message, "Identifier x already used");
    assert_eq!((error.line, error.col), (0, 19));
}

#[test]
fn declaration_cannot_use_its_own_name() {
    let error = error_of("{ var x = x; }");
    assert_eq!(error.message, "Identifier x not declared");
    assert_eq!((error.line, error.col), (0, 11));
}

#[test]
fn declaration_enters_the_table_of_its_block() {
    let tree = tree_of("{ var x = 1; var y = x; x = y; }");
    assert_eq!(tree.statements.len(), 3);
    assert!(tree.symbol_table.contains_key("x"));
    assert!(tree.symbol_table.contains_key("y"));
    assert!(!tree.symbol_table.contains_key("z"));
    assert_eq!(
        tree.symbol_table.get("x"),
        Some(&Identifier { name: "x".to_string(), value: None })
    );
    assert_eq!(assigned(&tree.statements[0]), ("x", &number(1)));
    assert_eq!(assigned(&tree.statements[1]), ("y", &name("x")));
    assert_eq!(assigned(&tree.statements[2]), ("x", &name("y")));
}

#[test]
fn empty_block_parses() {
    let tree = tree_of("{}");
    assert!(tree.statements.is_empty());
    assert!(!tree.symbol_table.contains_key("x"));
    let tokens = vec![
        token(0, 0, TokenType::StartOfBlock, "{"),
        token(0, 1, TokenType::EndOfBlock, "}"),
    ];
    let mut analizer = SyntaxAnalizer::new(tokens);
    assert!(analizer.check_token(TokenType::StartOfBlock));
    assert!(analizer.check_peek(TokenType::EndOfBlock));
    assert!(analizer.parse().unwrap().statements.is_empty());
    assert_eq!(analizer.parse().unwrap_err().message, "Missing opening block");
}

#[test]
fn no_token_is_a_syntax_error() {
    let mut analizer = SyntaxAnalizer::new(Vec::new());
    assert!(!analizer.check_token(TokenType::StartOfBlock));
    assert!(!analizer.check_peek(TokenType::StartOfBlock));
    assert!(analizer.ast.statements.is_empty());
    let error = analizer.parse().unwrap_err();
    assert_eq!(error.message, "Missing opening block");
    assert_eq!((error.line, error.col), (0, 0));
    analizer.next_token();
    assert_eq!(analizer.parse().unwrap_err().message, "Missing opening block");
}

#[test]
fn one_token_is_a_syntax_error() {
    let mut opened = SyntaxAnalizer::new(vec![token(2, 3, TokenType::StartOfBlock, "{")]);
    assert!(opened.check_token(TokenType::StartOfBlock));
    assert!(!opened.check_peek(TokenType::EndOfBlock));
    let error = opened.parse().unwrap_err();
    assert_eq!(error.message, "Statement cannot be matched: None");
    assert_eq!((error.line, error.col), (2, 3));
    let mut closed = SyntaxAnalizer::new(vec![token(4, 5, TokenType::EndOfBlock, "}")]);
    let error = closed.parse().unwrap_err();
    assert_eq!(error.message, "Missing opening block");
    assert_eq!((error.line, error.col), (4, 5));
}

#[test]
fn two_tokens_that_are_no_block_are_a_syntax_error() {
    let error = error_of("x ;");
    assert_eq!(error.message, "Missing opening block");
    assert_eq!((error.line, error.col), (0, 0));
    let unclosed = error_of("{ {");
    assert_eq!(
        unclosed.message,
        "Statement cannot be matched: Some(Token { pos: (0, 2), token_type: StartOfBlock, value: \"{\" })"
    );
    assert_eq!((unclosed.line, unclosed.col), (0, 2));
}

#[test]
fn print_of_a_text_is_a_term() {
    let tree = tree_of("{ print('hello'); }");
    assert_eq!(tree.statements.len(), 1);
    match &tree.statements[0] {
        Statement::Print(PrintStatement::Term(Term::String(text))) => assert_eq!(text, "hello"),
        other => panic!("unexpected statement: {:?}", other),
    }
}

#[test]
fn print_of_anything_else_is_an_expression() {
    let tree = tree_of("{ var a = 1; print(a); print('x' + 'y'); print(3); }");
    match &tree.statements[1] {
        Statement::Print(PrintStatement::Expression(e)) => assert_eq!(e, &name("a")),
        other => panic!("unexpected statement: {:?}", other),
    }
    match &tree.statements[2] {
        Statement::Print(PrintStatement::Expression(e)) => assert_eq!(
            e,
            &operation(
                Expression::Term(Term::String("x".to_string())),
                Operator::Plus,
                Expression::Term(Term::String("y".to_string()))
            )
        ),
        other => panic!("unexpected statement: {:?}", other),
    }
    match &tree.statements[3] {
        Statement::Print(PrintStatement::Expression(e)) => assert_eq!(e, &number(3)),
        other => panic!("unexpected statement: {:?}", other),
    }
}

#[test]
fn expressions_group_to_the_right() {
    let tree = tree_of("{ var a = 1 - 2 - 3; var b = a * 2 + 4; }");
    assert_eq!(
        assigned(&tree.statements[0]).1,
        &operation(number(1), Operator::Minus, operation(number(2), Operator::Minus, number(3)))
    );
    assert_eq!(
        assigned(&tree.statements[1]).1,
        &operation(
            name("a"),
            Operator::Multiplication,
            operation(number(2), Operator::Plus, number(4))
        )
    );
}

#[test]
fn every_operator_the_tokenizer_gives_is_parsed() {
    let tree = tree_of(
        "{ var a = 1 + 1; a = 1 - 1; a = 1 * 1; a = 1 / 1; a = 1 % 1; a = 1 == 1; a = 1 != 1; a = 1 < 1; a = 1 <= 1; a = 1 > 1; a = 1 >= 1; a = true && true; a = true || true; }",
    );
    let operators: Vec<Operator> = tree
        .statements
        .iter()
        .map(|s| match assigned(s).1 {
            Expression::Operation(op) => op.operator,
            other => panic!("not an operation: {:?}", other),
        })
        .collect();
    assert_eq!(
        operators,
        vec![
            Operator::Plus,
            Operator::Minus,
            Operator::Multiplication,
            Operator::Division,
            Operator::Modulo,
            Operator::Equal,
            Operator::NotEqual,
            Operator::Inferior,
            Operator::InfOrEqual,
            Operator::Superior,
            Operator::SupOrEqual,
            Operator::And,
            Operator::Or,
        ]
    );
}

#[test]
fn operator_texts_are_read() {
    let analizer = SyntaxAnalizer::new(tokens_of("{ print('x'); }"));
    assert_eq!(analizer.parse_operator("+"), Some(Operator::Plus));
    assert_eq!(analizer.parse_operator("-"), Some(Operator::Minus));
    assert_eq!(analizer.parse_operator("*"), Some(Operator::Multiplication));
    assert_eq!(analizer.parse_operator("/"), Some(Operator::Division));
    assert_eq!(analizer.parse_operator("%"), Some(Operator::Modulo));
    assert_eq!(analizer.parse_operator("=="), Some(Operator::Equal));
    assert_eq!(analizer.parse_operator("!="), Some(Operator::NotEqual));
    assert_eq!(analizer.parse_operator("<="), Some(Operator::InfOrEqual));
    assert_eq!(analizer.parse_operator(">="), Some(Operator::SupOrEqual));
    assert_eq!(analizer.parse_operator(">"), Some(Operator::Superior));
    assert_eq!(analizer.parse_operator("<"), Some(Operator::Inferior));
    assert_eq!(analizer.parse_operator("&&"), Some(Operator::And));
    assert_eq!(analizer.parse_operator("||"), Some(Operator::Or));
    assert_eq!(analizer.parse_operator("="), None);
    assert_eq!(analizer.parse_operator("!"), None);
    assert_eq!(analizer.parse_operator(""), None);
    assert_eq!(analizer.parse_operator("+ "), None);
}

#[test]
fn unknown_operator_is_a_syntax_error() {
    let error = error_of("{ var a = 1; print(a = 2); }");
    assert_eq!(error.message, "Unknown operator");
    assert_eq!((error.line, error.col), (0, 19));
    let other = error_of("{ var a = 1 = 2; }");
    assert_eq!(other.message, "Unknown operator");
    assert_eq!((other.line, other.col), (0, 10));
}

#[test]
fn conditional_has_one_or_two_branches() {
    let tree = tree_of("{ var a = true; if (a) { print('t'); } if (a) { } else { print('e'); } }");
    assert_eq!(tree.statements.len(), 3);
    match &tree.statements[1] {
        Statement::If(c) => {
            assert_eq!(c.expression, name("a"));
            assert_eq!(c.then_statement_block.statements.len(), 1);
            assert!(c.else_statement_block.is_none());
        }
        other => panic!("unexpected statement: {:?}", other),
    }
    match &tree.statements[2] {
        Statement::If(c) => {
            assert!(c.then_statement_block.statements.is_empty());
            assert_eq!(c.else_statement_block.as_ref().unwrap().statements.len(), 1);
        }
        other => panic!("unexpected statement: {:?}", other),
    }
}

#[test]
fn branch_does_not_see_the_names_of_its_parent() {
    let error = error_of("{ var x = 1; if (x == 1) { print(x); } }");
    assert_eq!(error.message, "Identifier x not declared");
    assert_eq!((error.line, error.col), (0, 34));
}

#[test]
fn branch_has_a_table_of_its_own() {
    let tree = tree_of("{ var x = 1; if (x == 1) { var x = 2; var y = x; } }");
    assert!(!tree.symbol_table.contains_key("y"));
    match &tree.statements[1] {
        Statement::If(c) => {
            assert!(c.then_statement_block.symbol_table.contains_key("x"));
            assert!(c.then_statement_block.symbol_table.contains_key("y"));
        }
        other => panic!("unexpected statement: {:?}", other),
    }
}

#[test]
fn names_of_a_branch_do_not_leak() {
    let error = error_of("{ if (true) { var y = 1; } y = 2; }");
    assert_eq!(error.message, "Identifier y not declared");
    let sibling = error_of("{ if (true) { var y = 1; } else { y = 2; } }");
    assert_eq!(sibling.message, "Identifier y not declared");
}

#[test]
fn missing_opening_block_is_reported_at_the_start() {
    let error = error_of("var x = 1;");
    assert_eq!(error.message, "Missing opening block");
    assert_eq!((error.line, error.col), (0, 0));
    assert_eq!(error.to_string(), "Syntax error at l.0, c.0; Missing opening block");
    let later = error_of("\n\n   print('x');");
    assert_eq!(later.message, "Missing opening block");
    assert_eq!((later.line, later.col), (2, 3));
}

#[test]
fn branch_without_a_block_is_rejected() {
    let error = error_of("{ if (true) print('x'); }");
    assert_eq!(error.message, "Missing opening block");
    assert_eq!((error.line, error.col), (0, 12));
    let other = error_of("{ if (true) { } else print('x'); }");
    assert_eq!(other.message, "Missing opening block");
    assert_eq!((other.line, other.col), (0, 21));
}

#[test]
fn missing_brackets_are_reported() {
    let error = error_of("{ print 'x'; }");
    assert_eq!(error.message, "Missing opening bracket");
    assert_eq!((error.line, error.col), (0, 8));
    let closing = error_of("{ print(1 ; }");
    assert_eq!(closing.message, "Missing closing bracket");
    assert_eq!((closing.line, closing.col), (0, 10));
    let condition = error_of("{ if true { } }");
    assert_eq!(condition.message, "Missing opening bracket");
    let unclosed = error_of("{ if (true { } }");
    assert_eq!(unclosed.message, "Missing closing bracket");
    assert_eq!((unclosed.line, unclosed.col), (0, 11));
}

#[test]
fn missing_end_of_statement_is_reported() {
    let error = error_of("{ print('x') }");
    assert_eq!(error.message, "Missing end of statement");
    assert_eq!((error.line, error.col), (0, 13));
    let expression = error_of("{ print(1) }");
    assert_eq!(expression.message, "Missing end of statement");
    let declaration = error_of("{ var a = 1 }");
    assert_eq!(declaration.message, "Missing end of statement");
    assert_eq!((declaration.line, declaration.col), (0, 12));
    let assignment = error_of("{ var a = 1; a = 2 }");
    assert_eq!(assignment.message, "Missing end of statement");
}

#[test]
fn failed_declaration_declares_nothing() {
    let mut analizer = SyntaxAnalizer::new(tokens_of("var a = 1 }"));
    let mut block = StatementBlock::new();
    assert!(analizer.parse_statement(&mut block).is_err());
    assert!(!block.symbol_table.contains_key("a"));
    let mut complete = SyntaxAnalizer::new(tokens_of("var a = 1; }"));
    assert!(complete.parse_statement(&mut block).is_ok());
    assert!(block.symbol_table.contains_key("a"));
    assert!(block.statements.is_empty());
}

#[test]
fn assignment_needs_its_sign() {
    let error = error_of("{ var a 1; }");
    assert_eq!(error.message, "Assignement without '=' sign");
    assert_eq!((error.line, error.col), (0, 8));
    let other = error_of("{ var a = 1; a 2; }");
    assert_eq!(other.message, "Assignement without '=' sign");
    assert_eq!((other.line, other.col), (0, 15));
}

#[test]
fn declaration_needs_a_name() {
    let error = error_of("{ var 1 = 2; }");
    assert_eq!(error.message, "Identifier needed after var keyword");
    assert_eq!((error.line, error.col), (0, 6));
}

#[test]
fn unmatched_statement_shows_the_token() {
    let error = error_of("{ ; }");
    assert_eq!(
        error.message,
        "Statement cannot be matched: Some(Token { pos: (0, 2), token_type: EndOfStatement, value: \";\" })"
    );
    assert_eq!((error.line, error.col), (0, 2));
}

#[test]
fn unclosed_block_runs_out_of_tokens() {
    let error = error_of("{ print('x');");
    assert_eq!(error.message, "Statement cannot be matched: None");
    assert_eq!((error.line, error.col), (0, 12));
}

#[test]
fn unmatched_term_shows_the_token() {
    let error = error_of("{ print(); }");
    assert_eq!(
        error.message,
        "Term cannot be matched: Some(Token { pos: (0, 8), token_type: GroupDivider, value: \")\" })"
    );
    assert_eq!((error.line, error.col), (0, 8));
    let end = error_of("{ var a =");
    assert_eq!(end.message, "Term cannot be matched: None");
    assert_eq!((end.line, end.col), (0, 8));
}

#[test]
fn numeral_out_of_range_is_a_syntax_error() {
    let error = error_of("{ var a = 9223372036854775808; }");
    assert_eq!(error.message, "Parsing error, 9223372036854775808 is not numeric");
    assert_eq!((error.line, error.col), (0, 29));
    let tree = tree_of("{ var a = 9223372036854775807; }");
    assert_eq!(assigned(&tree.statements[0]).1, &number(i64::MAX));
}

#[test]
fn malformed_literals_are_syntax_errors() {
    let mut block = StatementBlock::new();
    let numeric = vec![
        token(4, 0, TokenType::Numeric, "12x"),
        token(4, 3, TokenType::EndOfStatement, ";"),
        token(4, 4, TokenType::EndOfBlock, "}"),
    ];
    let error = SyntaxAnalizer::new(numeric).parse_term(&mut block).unwrap_err();
    assert_eq!(error.message, "Parsing error, 12x is not numeric");
    assert_eq!((error.line, error.col), (4, 3));
    let logical = vec![
        token(5, 0, TokenType::Logical, "maybe"),
        token(5, 5, TokenType::EndOfStatement, ";"),
        token(5, 6, TokenType::EndOfBlock, "}"),
    ];
    let error = SyntaxAnalizer::new(logical).parse_term(&mut block).unwrap_err();
    assert_eq!(error.message, "Parsing error, maybe is not boolean");
    assert_eq!((error.line, error.col), (5, 5));
}

#[test]
fn terms_are_read_by_kind() {
    let mut block = StatementBlock::new();
    block.symbol_table.insert("n".to_string(), Identifier { name: "n".to_string(), value: None });
    let mut analizer = SyntaxAnalizer::new(tokens_of("n 12 true false 'text' m"));
    assert_eq!(
        analizer.parse_term(&mut block).unwrap(),
        Term::Identifier(Identifier { name: "n".to_string(), value: None })
    );
    assert_eq!(analizer.parse_term(&mut block).unwrap(), Term::Integer(12));
    assert_eq!(analizer.parse_term(&mut block).unwrap(), Term::Bool(true));
    assert_eq!(analizer.parse_term(&mut block).unwrap(), Term::Bool(false));
    assert_eq!(analizer.parse_term(&mut block).unwrap(), Term::String("text".to_string()));
    assert_eq!(analizer.parse_term(&mut block).unwrap_err().message, "Identifier m not declared");
    assert_eq!(analizer.parse_term(&mut block).unwrap_err().message, "Term cannot be matched: None");
}

#[test]
fn cursor_checks_current_and_next_token() {
    let mut analizer = SyntaxAnalizer::new(tokens_of("print ( 'a'"));
    assert!(analizer.check_token(TokenType::Keyword));
    assert!(!analizer.check_token(TokenType::Identifier));
    assert!(analizer.check_token_and_value(TokenType::Keyword, "print"));
    assert!(!analizer.check_token_and_value(TokenType::Keyword, "if"));
    assert!(!analizer.check_token_and_value(TokenType::Identifier, "print"));
    assert!(analizer.check_peek(TokenType::GroupDivider));
    assert!(analizer.check_peek_and_value(TokenType::GroupDivider, "("));
    assert!(!analizer.check_peek_and_value(TokenType::GroupDivider, ")"));
    assert_eq!((analizer.get_error("m").line, analizer.get_error("m").col), (0, 0));
    analizer.next_token();
    assert!(analizer.check_token_and_value(TokenType::GroupDivider, "("));
    assert!(analizer.check_peek(TokenType::Text));
    assert_eq!((analizer.get_error("m").line, analizer.get_error("m").col), (0, 6));
    analizer.next_token();
    assert!(analizer.check_token(TokenType::Text));
    assert!(!analizer.check_peek(TokenType::Text));
    analizer.next_token();
    assert!(!analizer.check_token(TokenType::Text));
    assert_eq!((analizer.get_error("m").line, analizer.get_error("m").col), (0, 8));
    analizer.next_token();
    assert!(!analizer.check_token(TokenType::Text));
    assert!(!analizer.check_peek(TokenType::Text));
    assert_eq!(analizer.get_error("gone").message, "gone");
    assert_eq!((analizer.get_error("m").line, analizer.get_error("m").col), (0, 8));
}

#[test]
fn token_value_is_copied() {
    let analizer = SyntaxAnalizer::new(tokens_of("a b c"));
    let held = Some(token(0, 0, TokenType::Text, "held"));
    assert_eq!(analizer.get_token_value(&held), "held");
}

#[test]
fn tokens_are_shown_as_the_standard_library_shows_them() {
    let plain = Some(token(3, 14, TokenType::Identifier, "total"));
    assert_eq!(describe_token(&plain), format!("{:?}", plain));
    let quoted = Some(token(-2, 0, TokenType::Text, "say \"hi\"\n\ttab \\ 'q' é \u{7f}"));
    assert_eq!(describe_token(&quoted), format!("{:?}", quoted));
    let none: Option<Token> = None;
    assert_eq!(describe_token(&none), "None");
    for token_type in TokenType::values() {
        let shown = Some(token(i32::MIN, i32::MAX, token_type, ""));
        assert_eq!(describe_token(&shown), format!("{:?}", shown));
    }
}

#[test]
fn parsing_the_same_tokens_gives_the_same_tree() {
    let source = "{ var a = 3; var b = 'x'; if (a < 4) { print('yes'); } else { print('no'); } }";
    let first = format!("{:?}", tree_of(source));
    let second = format!("{:?}", tree_of(source));
    assert_eq!(first, second);
    let failed = "{ var a = 3; print(c); }";
    assert_eq!(error_of(failed).to_string(), error_of(failed).to_string());
}

#[test]
fn cursor_goes_on_after_a_block() {
    let mut analizer = SyntaxAnalizer::new(tokens_of("{ print('a'); } { print('b'); print('c'); }"));
    assert_eq!(analizer.parse().unwrap().statements.len(), 1);
    assert_eq!(analizer.parse().unwrap().statements.len(), 2);
    assert_eq!(analizer.parse().unwrap_err().message, "Missing opening block");
    assert!(analizer.ast.statements.is_empty());
}
