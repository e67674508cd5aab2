//! The tokenizer: it cuts each source line into tokens by trying the token
//! patterns in a fixed order at the cursor and taking the first that matches.

use regex::Regex;
use vstd::prelude::*;
use crate::errors::{Diagnostic, LexicalError};
use crate::text::{
    byte_len, lemma_encode_injective, lemma_encode_nonempty, lemma_split_prefix, skip_bytes,
    utf8_len, without_prefix,
};

verus! {

/// The kinds of token.
#[derive(Clone, Copy, Debug, PartialEq, Eq, Structural)]
pub enum TokenType {
    Whitespace,
    Keyword,
    GroupDivider,
    StartOfBlock,
    EndOfBlock,
    EndOfStatement,
    Logical,
    Numeric,
    Text,
    Identifier,
    Operator,
}

/// A lexical unit: where it starts, its kind and its text.
#[derive(Debug, PartialEq, Eq)]
pub struct Token {
    pub pos: (i32, i32),
    pub token_type: TokenType,
    pub value: String,
}

/// The model of a `Token`.
pub struct TokenModel {
    pub pos: (i32, i32),
    pub token_type: TokenType,
    pub value: Seq<char>,
}

impl View for Token {
    type V = TokenModel;

    open spec fn view(&self) -> TokenModel {
        TokenModel { pos: self.pos, token_type: self.token_type, value: self.value@ }
    }
}

impl Clone for Token {
    fn clone(&self) -> (r: Self)
        ensures
            r == *self,
    {
        Token { pos: self.pos, token_type: self.token_type, value: self.value.clone() }
    }
}

/// The models of a list of tokens.
pub open spec fn token_models(tokens: Seq<Token>) -> Seq<TokenModel> {
    Seq::new(tokens.len(), |i: int| tokens[i]@)
}

/// The pattern of a kind of token, in the syntax of regular expressions.
/// Among the operators those of two characters come first, so that `<=` is
/// one token and not `<` before `=`.
pub open spec fn pattern_of(kind: TokenType) -> Seq<char> {
    match kind {
        TokenType::Whitespace => "[\\s\\t\\n\\r]"@,
        TokenType::Keyword => "(var|if|else|print)"@,
        TokenType::GroupDivider => "(\\(|\\))"@,
        TokenType::StartOfBlock => "(\\{)"@,
        TokenType::EndOfBlock => "(\\})"@,
        TokenType::EndOfStatement => "(;)"@,
        TokenType::Numeric => "[0-9]+"@,
        TokenType::Text => "'([^']*)'"@,
        TokenType::Logical => "(true|false)"@,
        TokenType::Identifier => "[a-zA-Z_]+[a-zA-Z0-9_]*"@,
        TokenType::Operator => "(\\+|\\-|&&|\\|\\||<=|>=|==|!=|>|<|=|\\/|\\*|\\%)"@,
    }
}

/// The pattern of a kind of token, tied to the start of the text.
pub open spec fn anchored(kind: TokenType) -> Seq<char> {
    "^"@ + pattern_of(kind)
}

/// The kinds of token in the order in which they are tried. The first kind
/// whose pattern matches wins, so a keyword is never read as an identifier.
pub open spec fn priority() -> Seq<TokenType> {
    seq![
        TokenType::Whitespace,
        TokenType::Keyword,
        TokenType::GroupDivider,
        TokenType::StartOfBlock,
        TokenType::EndOfBlock,
        TokenType::EndOfStatement,
        TokenType::Numeric,
        TokenType::Text,
        TokenType::Logical,
        TokenType::Identifier,
        TokenType::Operator,
    ]
}

impl TokenType {
    /// The pattern of the kind.
    pub fn regex(&self) -> (r: &'static str)
        ensures
            r@ == pattern_of(*self),
    {
        match self {
            TokenType::Whitespace => "[\\s\\t\\n\\r]",
            TokenType::Keyword => "(var|if|else|print)",
            TokenType::GroupDivider => "(\\(|\\))",
            TokenType::StartOfBlock => "(\\{)",
            TokenType::EndOfBlock => "(\\})",
            TokenType::EndOfStatement => "(;)",
            TokenType::Numeric => "[0-9]+",
            TokenType::Text => "'([^']*)'",
            TokenType::Logical => "(true|false)",
            TokenType::Identifier => "[a-zA-Z_]+[a-zA-Z0-9_]*",
            TokenType::Operator => "(\\+|\\-|&&|\\|\\||<=|>=|==|!=|>|<|=|\\/|\\*|\\%)",
        }
    }

    /// The kinds in the order in which they are tried.
    pub fn values() -> (r: Vec<TokenType>)
        ensures
            r@ == priority(),
    {
        let mut r: Vec<TokenType> = Vec::new();
        r.push(TokenType::Whitespace);
        r.push(TokenType::Keyword);
        r.push(TokenType::GroupDivider);
        r.push(TokenType::StartOfBlock);
        r.push(TokenType::EndOfBlock);
        r.push(TokenType::EndOfStatement);
        r.push(TokenType::Numeric);
        r.push(TokenType::Text);
        r.push(TokenType::Logical);
        r.push(TokenType::Identifier);
        r.push(TokenType::Operator);
        assert(r@ =~= priority());
        r
    }
}

/// Whether `regex::Regex::new` accepts the pattern.
pub uninterp spec fn regex_compiles(pattern: Seq<char>) -> bool;

/// What `regex::Regex::captures` finds for the pattern in the text: nothing,
/// or the text of the whole match and the text of the first group, where
/// the pattern has one and it took part in the match.
pub uninterp spec fn regex_captures(pattern: Seq<char>, text: Seq<char>) -> Option<
    (Seq<char>, Option<Seq<char>>),
>;

/// The texts of a match: the whole match, and the first group where it took
/// part.
#[derive(Debug)]
pub struct Captured {
    pub whole: String,
    pub group: Option<String>,
}

impl View for Captured {
    type V = (Seq<char>, Option<Seq<char>>);

    open spec fn view(&self) -> (Seq<char>, Option<Seq<char>>) {
        (
            self.whole@,
            match self.group {
                Some(g) => Some(g@),
                None => None,
            },
        )
    }
}

/// The models of what a search found.
pub open spec fn captured_model(found: Option<Captured>) -> Option<(Seq<char>, Option<Seq<char>>)> {
    match found {
        Some(c) => Some(c@),
        None => None,
    }
}

/// `regex::Error`, the reason why a pattern does not compile. It is only
/// carried from the search to the caller, which looks at nothing in it.
#[verifier::external_type_specification]
#[verifier::external_body]
pub struct ExRegexError(regex::Error);

/// Compiles the pattern with `regex::Regex::new` and searches the text with
/// `regex::Regex::captures`; of a match it copies the text of group 0
/// (`Captures::get_match`) and of group 1 (`Captures::get`). Nothing is
/// proved of the matching: the contract names the outcome of the two calls,
/// which depends on the pattern and the text alone, and says that an error
/// comes back exactly where the pattern does not compile.
#[verifier::external_body]
fn search(pattern: &str, text: &str) -> (r: Result<Option<Captured>, regex::Error>)
    ensures
        r is Ok == regex_compiles(pattern@),
        r matches Ok(found) ==> captured_model(found) == regex_captures(pattern@, text@),
{
    match Regex::new(pattern) {
        Err(error) => Err(error),
        Ok(compiled) => match compiled.captures(text) {
            None => Ok(None),
            Some(groups) => Ok(Some(Captured {
                whole: groups.get_match().as_str().to_owned(),
                group: match groups.get(1) {
                    Some(first) => Some(first.as_str().to_owned()),
                    None => None,
                },
            })),
        },
    }
}

/// What trying the kinds in order at the start of a text comes to.
pub enum Scan {
    /// A pattern that was tried did not compile.
    Broken,
    /// No pattern matches.
    Nothing,
    /// The first kind whose pattern matches, with the texts of the match.
    Found(TokenType, (Seq<char>, Option<Seq<char>>)),
}

/// Tries the kinds from the given place in the order on.
pub open spec fn scan(text: Seq<char>, from: nat) -> Scan
    decreases priority().len() - from,
{
    if from >= priority().len() {
        Scan::Nothing
    } else if !regex_compiles(anchored(priority()[from as int])) {
        Scan::Broken
    } else {
        match regex_captures(anchored(priority()[from as int]), text) {
            Some(found) => Scan::Found(priority()[from as int], found),
            None => scan(text, from + 1),
        }
    }
}

/// A match can be read off the text: it is not empty, and the text starts
/// with it.
pub open spec fn usable(whole: Seq<char>, text: Seq<char>) -> bool {
    whole.len() > 0 && whole.is_prefix_of(text)
}

/// The text of the token that a match gives: that of the first group where
/// there is one, so that a string literal comes without its quotes.
pub open spec fn token_value(found: (Seq<char>, Option<Seq<char>>)) -> Seq<char> {
    match found.1 {
        Some(group) => group,
        None => found.0,
    }
}

/// One step of the tokenizer: the text it reads and the tokens it emits,
/// none for whitespace and one for every other kind.
pub struct Lexeme {
    pub whole: Seq<char>,
    pub emitted: Seq<TokenModel>,
}

/// What a match of the given kind at the given place gives.
pub open spec fn accepted(
    kind: TokenType,
    found: (Seq<char>, Option<Seq<char>>),
    text: Seq<char>,
    line: usize,
    col: usize,
) -> Result<Lexeme, Seq<char>> {
    if usable(found.0, text) {
        Ok(
            Lexeme {
                whole: found.0,
                emitted: if kind == TokenType::Whitespace {
                    Seq::empty()
                } else {
                    seq![
                        TokenModel {
                            pos: (line as i32, col as i32),
                            token_type: kind,
                            value: token_value(found),
                        },
                    ]
                },
            },
        )
    } else {
        Err("Unknown Token"@)
    }
}

/// The step of the tokenizer at the start of a text that is not empty, or
/// the message of the error where no step can be made.
pub open spec fn token_at(text: Seq<char>, line: usize, col: usize) -> Result<Lexeme, Seq<char>> {
    match scan(text, 0) {
        Scan::Broken => Err("Unknown Token"@),
        Scan::Nothing => Err("invalid expression: `"@ + text + "`"@),
        Scan::Found(kind, found) => accepted(kind, found, text, line, col),
    }
}

/// The tokens read so far and, once the tokenizer has failed, the error.
pub struct Lexed {
    pub tokens: Seq<TokenModel>,
    pub failure: Option<Diagnostic>,
}

/// Tokenizes the rest of a line, which starts at the given byte column,
/// after the tokens read so far.
pub open spec fn lex_text(text: Seq<char>, line: usize, col: usize, tokens: Seq<TokenModel>) -> Lexed
    decreases text.len(),
{
    if text.len() == 0 {
        Lexed { tokens, failure: None }
    } else {
        match token_at(text, line, col) {
            Err(message) => Lexed {
                tokens,
                failure: Some(Diagnostic { line: line as i32, col: col as i32, message }),
            },
            Ok(lexeme) => lex_text(
                text.skip(lexeme.whole.len() as int),
                line,
                (col + utf8_len(lexeme.whole)) as usize,
                tokens + lexeme.emitted,
            ),
        }
    }
}

/// Tokenizes the lines from the given one on, in order, up to the first
/// failure.
pub open spec fn lex_lines(lines: Seq<Seq<char>>, from: int, lexed: Lexed) -> Lexed
    decreases lines.len() - from,
{
    if 0 <= from < lines.len() && lexed.failure is None {
        lex_lines(lines, from + 1, lex_text(lines[from], from as usize, 0, lexed.tokens))
    } else {
        lexed
    }
}

impl Lexed {
    /// The pass as a result: the tokens, or the error that ended it.
    pub open spec fn outcome(self) -> Result<Seq<TokenModel>, Diagnostic> {
        match self.failure {
            None => Ok(self.tokens),
            Some(error) => Err(error),
        }
    }
}

/// One pass over the source lines, after the tokens read so far.
pub open spec fn lex_source(lines: Seq<Seq<char>>, tokens: Seq<TokenModel>) -> Lexed {
    lex_lines(lines, 0, Lexed { tokens, failure: None })
}

/// The model of what a pass returns: the models of the tokens, or of the
/// error.
pub open spec fn token_outcome(r: Result<Vec<Token>, LexicalError>) -> Result<
    Seq<TokenModel>,
    Diagnostic,
> {
    match r {
        Ok(tokens) => Ok(token_models(tokens@)),
        Err(error) => Err(error@),
    }
}

/// The texts of a list of lines.
pub open spec fn line_texts(lines: Seq<String>) -> Seq<Seq<char>> {
    Seq::new(lines.len(), |i: int| lines[i]@)
}

/// The tokenizer: the source lines, and the tokens read from them.
#[derive(Debug)]
pub struct LexicalParser {
    tokens: Vec<Token>,
    source: Vec<String>,
}

impl LexicalParser {
    /// The tokens read so far.
    pub closed spec fn tokens(&self) -> Seq<TokenModel> {
        token_models(self.tokens@)
    }

    /// The source lines.
    pub closed spec fn source(&self) -> Seq<Seq<char>> {
        line_texts(self.source@)
    }

    /// A tokenizer for the given lines, with no token read.
    pub fn new(source: Vec<String>) -> (r: Self)
        ensures
            r.source() == line_texts(source@),
            r.tokens() == Seq::<TokenModel>::empty(),
    {
        let r = LexicalParser { tokens: Vec::new(), source };
        assert(r.tokens() =~= Seq::<TokenModel>::empty());
        r
    }

    /// Takes a match of the given kind at the start of `text`: emits its
    /// token, unless it is whitespace, and returns the number of bytes read.
    pub fn accept(
        &mut self,
        token_type: TokenType,
        found: Captured,
        text: &str,
        line_position: usize,
        col_position: usize,
    ) -> (r: Result<usize, String>)
        ensures
            final(self).source() == old(self).source(),
            (match accepted(token_type, found@, text@, line_position, col_position) {
                Ok(lexeme) => r == Ok::<usize, String>(utf8_len(lexeme.whole) as usize)
                    && final(self).tokens() == old(self).tokens() + lexeme.emitted,
                Err(message) => r is Err && r->Err_0@ == message && final(self).tokens() == old(
                    self,
                ).tokens(),
            }),
    {
        let ghost before = self.tokens@;
        let read = byte_len(found.whole.as_str());
        proof {
            lemma_encode_nonempty(found.whole@);
        }
        if read > 0 && without_prefix(text, found.whole.as_str()).is_some() {
            if token_type != TokenType::Whitespace {
                let value = match found.group {
                    Some(group) => group,
                    None => found.whole,
                };
                let token = Token {
                    pos: (line_position as i32, col_position as i32),
                    token_type,
                    value,
                };
                self.tokens.push(token);
                assert(token_models(self.tokens@) =~= token_models(before) + seq![token@]);
            } else {
                assert(token_models(before) + Seq::<TokenModel>::empty() =~= token_models(before));
            }
            Ok(read)
        } else {
            Err(String::from_str("Unknown Token"))
        }
    }

    /// Reads one token at the start of `text`, the rest of a line: tries the
    /// kinds in order and takes the first whose pattern matches.
    pub fn next_token(&mut self, text: &str, line_position: usize, col_position: usize) -> (r:
        Result<usize, String>)
        ensures
            final(self).source() == old(self).source(),
            (match token_at(text@, line_position, col_position) {
                Ok(lexeme) => r == Ok::<usize, String>(utf8_len(lexeme.whole) as usize)
                    && final(self).tokens() == old(self).tokens() + lexeme.emitted,
                Err(message) => r is Err && r->Err_0@ == message && final(self).tokens() == old(
                    self,
                ).tokens(),
            }),
    {
        let kinds = TokenType::values();
        let mut i: usize = 0;
        while i < kinds.len()
            invariant
                i <= kinds.len(),
                kinds@ == priority(),
                scan(text@, 0) == scan(text@, i as nat),
                *self == *old(self),
            decreases kinds.len() - i,
        {
            let kind = kinds[i];
            let mut pattern = String::from_str("^");
            pattern.append(kind.regex());
            match search(pattern.as_str(), text) {
                Err(_) => {
                    return Err(String::from_str("Unknown Token"));
                },
                Ok(Some(found)) => {
                    return self.accept(kind, found, text, line_position, col_position);
                },
                Ok(None) => {},
            }
            i += 1;
        }
        let mut message = String::from_str("invalid expression: `");
        message.append(text);
        message.append("`");
        Err(message)
    }

    /// Tokenizes the source, line by line and from left to right, and
    /// returns all the tokens read. The first text that no pattern matches
    /// ends the pass with an error at its line and byte column.
    pub fn parse(&mut self) -> (r: Result<Vec<Token>, LexicalError>)
        ensures
            final(self).source() == old(self).source(),
            final(self).tokens() == lex_source(old(self).source(), old(self).tokens()).tokens,
            token_outcome(r) == lex_source(old(self).source(), old(self).tokens()).outcome(),
    {
        let ghost lines = self.source();
        let ghost start = Lexed { tokens: self.tokens(), failure: None };
        let mut pos: usize = 0;
        while pos < self.source.len()
            invariant
                pos <= self.source.len(),
                self.source() == lines,
                lines == old(self).source(),
                start == (Lexed { tokens: old(self).tokens(), failure: None }),
                lex_lines(lines, 0, start) == lex_lines(
                    lines,
                    pos as int,
                    Lexed { tokens: self.tokens(), failure: None },
                ),
            decreases self.source.len() - pos,
        {
            let line = self.source[pos].clone();
            let length = byte_len(line.as_str());
            let mut rest: &str = line.as_str();
            let mut col: usize = 0;
            let ghost entry = self.tokens();
            let ghost whole_line = lex_text(line@, pos, 0, entry);
            assert(lex_lines(lines, pos as int, Lexed { tokens: entry, failure: None })
                == lex_lines(lines, pos + 1, whole_line));
            while col < length
                invariant
                    pos < self.source.len(),
                    self.source() == lines,
                    lines == old(self).source(),
                    start == (Lexed { tokens: old(self).tokens(), failure: None }),
                    lex_lines(lines, 0, start) == lex_lines(lines, pos + 1, whole_line),
                    length == utf8_len(line@),
                    col + utf8_len(rest@) == length,
                    whole_line == lex_text(rest@, pos, col, self.tokens()),
                decreases rest@.len(),
            {
                let ghost text = rest@;
                let ghost step = token_at(text, pos, col);
                proof {
                    lemma_encode_nonempty(text);
                }
                match self.next_token(rest, pos, col) {
                    Ok(read) => {
                        proof {
                            lemma_split_prefix(text, step->Ok_0.whole);
                        }
                        rest = skip_bytes(rest, read);
                        proof {
                            lemma_encode_injective(
                                rest@,
                                text.skip(step->Ok_0.whole.len() as int),
                            );
                        }
                        col += read;
                    },
                    Err(message) => {
                        return Err(LexicalError { line: pos as i32, col: col as i32, message });
                    },
                }
            }
            proof {
                lemma_encode_nonempty(rest@);
            }
            pos += 1;
        }
        Ok(copy_tokens(&self.tokens))
    }
}

/// A copy of a list of tokens.
fn copy_tokens(tokens: &Vec<Token>) -> (r: Vec<Token>)
    ensures
        r@ == tokens@,
{
    let mut r: Vec<Token> = Vec::new();
    let mut i: usize = 0;
    while i < tokens.len()
        invariant
            i <= tokens.len(),
            r@ == tokens@.take(i as int),
        decreases tokens.len() - i,
    {
        r.push(tokens[i].clone());
        assert(r@ =~= tokens@.take(i + 1));
        i += 1;
    }
    assert(r@ =~= tokens@);
    r
}

} // verus!
