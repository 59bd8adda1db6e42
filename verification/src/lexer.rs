//! Lexemes of SQL text. The text is cut into lexemes by the tokenizer of the
//! query engine; what follows works on plain values.

use datafusion::sql::sqlparser::dialect::GenericDialect;
use datafusion::sql::sqlparser::tokenizer::{Token, Tokenizer};
use vstd::prelude::*;

verus! {

use self::LexKind::{Number, Space, Symbol, Text, Word};

/// The class of a lexeme.
#[derive(Clone, Copy, Debug, PartialEq, Eq, Structural)]
pub enum LexKind {
    /// A keyword or an identifier, quoted or not.
    Word,
    /// A numeric literal; the text is its spelling, with the suffix of a
    /// long number where it has one.
    Number,
    /// A string literal in single quotes; the text is its content.
    Text,
    /// White space or a comment.
    Space,
    /// Punctuation, an operator, or any other lexeme; the text is its spelling.
    Symbol,
    /// A nested query block that was cut out of the text; it stands where
    /// its opening parenthesis stood.
    Block,
}

/// One lexeme of SQL text.
#[derive(Debug, PartialEq, Eq)]
pub struct Lexeme {
    pub kind: LexKind,
    /// For a quoted identifier, the opening quote character.
    pub quote: Option<char>,
    pub text: String,
    /// Line of the first character, counted from 1.
    pub line: u64,
    /// Column of the first character, counted from 1.
    pub column: u64,
    /// For a nested block, its place among the nested blocks; else 0.
    pub block: usize,
}

/// The mathematical value of a [`Lexeme`].
pub struct LexemeView {
    pub kind: LexKind,
    pub quote: Option<char>,
    pub text: Seq<char>,
    pub line: u64,
    pub column: u64,
    pub block: usize,
}

impl View for Lexeme {
    type V = LexemeView;

    open spec fn view(&self) -> LexemeView {
        LexemeView {
            kind: self.kind,
            quote: self.quote,
            text: self.text@,
            line: self.line,
            column: self.column,
            block: self.block,
        }
    }
}

/// Text that cannot be cut into lexemes.
#[derive(Debug, PartialEq, Eq)]
pub struct LexError {
    /// The tokenizer's diagnostic, which ends with the line and the column
    /// where cutting stopped.
    pub message: String,
}

/// The mathematical value of a [`LexError`].
pub struct LexErrorView {
    pub message: Seq<char>,
}

impl View for LexError {
    type V = LexErrorView;

    open spec fn view(&self) -> LexErrorView {
        LexErrorView { message: self.message@ }
    }
}

/// The values of a sequence of lexemes.
pub open spec fn lexeme_views(v: Seq<Lexeme>) -> Seq<LexemeView> {
    Seq::new(v.len(), |i: int| v[i]@)
}

/// The value of the outcome of cutting a text into lexemes.
pub open spec fn lexing_view(r: Result<Vec<Lexeme>, LexError>) -> Result<
    Seq<LexemeView>,
    LexErrorView,
> {
    match r {
        Ok(v) => Ok(lexeme_views(v@)),
        Err(e) => Err(e@),
    }
}

/// What the tokenizer of the query engine makes of a text, under its generic
/// dialect: the lexemes in order, white space included, or the error.
pub uninterp spec fn sql_lexemes(sql: Seq<char>) -> Result<Seq<LexemeView>, LexErrorView>;

/// Calls `Tokenizer::new(..).tokenize_with_location()` of the SQL parser that
/// the query engine brings (`datafusion::sql::sqlparser`), with
/// `GenericDialect`, and moves into a [`Lexeme`] the place where each token
/// starts and what it holds: of a word its value and its quote, of a string
/// in single quotes its content, of every other token the spelling that the
/// parser displays it with. An error is handed on as its text. The contract
/// only gives the outcome its name: it is a function of the characters of
/// `sql`.
#[verifier::external_body]
fn lex(sql: &str) -> (r: Result<Vec<Lexeme>, LexError>)
    ensures
        lexing_view(r) == sql_lexemes(sql@),
{
    Tokenizer::new(&GenericDialect {}, sql).tokenize_with_location().map(|v| v.into_iter().map(|t| {
        let (kind, quote, text) = match t.token {
            Token::Word(w) => (Word, w.quote_style, w.value),
            n @ Token::Number(..) => (Number, None, n.to_string()),
            Token::SingleQuotedString(s) => (Text, None, s),
            Token::Whitespace(w) => (Space, None, w.to_string()),
            other => (Symbol, None, other.to_string()),
        };
        Lexeme { kind, quote, text, line: t.span.start.line, column: t.span.start.column, block: 0 }
    }).collect()).map_err(|e| LexError { message: e.to_string() })
}

/// The lexemes of `s` that are not white space, in order.
pub open spec fn without_space(s: Seq<LexemeView>) -> Seq<LexemeView>
    decreases s.len(),
{
    if s.len() == 0 {
        s
    } else if s.last().kind == LexKind::Space {
        without_space(s.drop_last())
    } else {
        without_space(s.drop_last()).push(s.last())
    }
}

/// Drops white space and comments from a sequence of lexemes.
pub(crate) fn strip_space(lexemes: &Vec<Lexeme>) -> (r: Vec<Lexeme>)
    ensures
        lexeme_views(r@) == without_space(lexeme_views(lexemes@)),
{
    let mut out: Vec<Lexeme> = Vec::new();
    let mut i: usize = 0;
    while i < lexemes.len()
        invariant
            i <= lexemes.len(),
            lexeme_views(out@) == without_space(lexeme_views(lexemes@).take(i as int)),
        decreases lexemes.len() - i,
    {
        let ghost all = lexeme_views(lexemes@);
        assert(all.take(i + 1).drop_last() == all.take(i as int));
        assert(all.take(i + 1).last() == lexemes@[i as int]@);
        if lexemes[i].kind != LexKind::Space {
            let ghost before = lexeme_views(out@);
            out.push(
                Lexeme {
                    kind: lexemes[i].kind,
                    quote: lexemes[i].quote,
                    text: lexemes[i].text.clone(),
                    line: lexemes[i].line,
                    column: lexemes[i].column,
                    block: lexemes[i].block,
                },
            );
            assert(lexeme_views(out@) == before.push(lexemes@[i as int]@));
        }
        i += 1;
    }
    assert(lexeme_views(lexemes@).take(i as int) == lexeme_views(lexemes@));
    out
}

/// The lexemes of a text that carry meaning, or the tokenizer's error.
pub open spec fn meaningful_lexemes(sql: Seq<char>) -> Result<Seq<LexemeView>, LexErrorView> {
    match sql_lexemes(sql) {
        Ok(s) => Ok(without_space(s)),
        Err(e) => Err(e),
    }
}

/// Cuts `sql` into lexemes and drops white space and comments.
pub fn tokenize(sql: &str) -> (r: Result<Vec<Lexeme>, LexError>)
    ensures
        lexing_view(r) == meaningful_lexemes(sql@),
{
    match lex(sql) {
        Ok(all) => Ok(strip_space(&all)),
        Err(e) => Err(e),
    }
}

} // verus!
