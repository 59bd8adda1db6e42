//! The grammar of expressions over lexemes.
//!
//! The grammar is stated as specification functions over sequences of
//! lexemes; the parsing functions compute exactly what those state.

use vstd::prelude::*;

use crate::ast::{expr_views, BinaryOp, Expr, ExprView, NaryOp};
use crate::lexer::{lexeme_views, LexKind, Lexeme, LexemeView};
use crate::text::{folded_match, same_folded, same_text, texts};

verus! {

/// What the parser needed at the place where it stopped.
#[derive(Clone, Copy, Debug, PartialEq, Eq, Structural)]
pub enum Expected {
    Expression,
    Name,
    ClosingParen,
    Select,
    From,
    By,
    Null,
    Number,
    End,
    OpeningParen,
    And,
    When,
    Then,
    EndOfCase,
    As,
    Subquery,
    Join,
    On,
}

/// Lexemes that do not form a sentence of the grammar.
#[derive(Clone, Copy, Debug, PartialEq, Eq, Structural)]
pub struct SyntaxError {
    /// Index of the offending lexeme among those of its query block that
    /// are not white space; the number of lexemes where the input ended too
    /// early.
    pub position: usize,
    /// Line where the offending lexeme starts, counted from 1. Where the
    /// input ended too early, the line where its last lexeme starts, or 0
    /// for an input without lexemes.
    pub line: u64,
    /// Column where the offending lexeme starts, counted from 1. Where the
    /// input ended too early, the column where its last lexeme starts, or 0
    /// for an input without lexemes.
    pub column: u64,
    /// Whether the input ended too early.
    pub ended: bool,
    pub expected: Expected,
}

/// Whether `t` is the unquoted word `kw`, in any case.
pub open spec fn is_keyword(t: LexemeView, kw: Seq<char>) -> bool {
    t.kind == LexKind::Word && t.quote is None && same_folded(t.text, kw)
}

/// Whether `t` is the punctuation or operator spelled `sym`.
pub open spec fn is_symbol(t: LexemeView, sym: Seq<char>) -> bool {
    t.kind == LexKind::Symbol && t.text == sym
}

/// Whether the lexeme at `pos` is the keyword `kw`.
pub open spec fn keyword_at(t: Seq<LexemeView>, pos: int, kw: Seq<char>) -> bool {
    0 <= pos < t.len() && is_keyword(t[pos], kw)
}

/// Whether the lexeme at `pos` is the symbol `sym`.
pub open spec fn symbol_at(t: Seq<LexemeView>, pos: int, sym: Seq<char>) -> bool {
    0 <= pos < t.len() && is_symbol(t[pos], sym)
}

/// Whether an unquoted word is reserved by the grammar and so is no name.
pub open spec fn is_reserved(w: Seq<char>) -> bool {
    ||| same_folded(w, "SELECT"@)
    ||| same_folded(w, "DISTINCT"@)
    ||| same_folded(w, "FROM"@)
    ||| same_folded(w, "WHERE"@)
    ||| same_folded(w, "GROUP"@)
    ||| same_folded(w, "BY"@)
    ||| same_folded(w, "HAVING"@)
    ||| same_folded(w, "ORDER"@)
    ||| same_folded(w, "LIMIT"@)
    ||| same_folded(w, "OFFSET"@)
    ||| same_folded(w, "AS"@)
    ||| same_folded(w, "AND"@)
    ||| same_folded(w, "OR"@)
    ||| same_folded(w, "NOT"@)
    ||| same_folded(w, "IS"@)
    ||| same_folded(w, "NULL"@)
    ||| same_folded(w, "TRUE"@)
    ||| same_folded(w, "FALSE"@)
    ||| same_folded(w, "ASC"@)
    ||| same_folded(w, "DESC"@)
    ||| same_folded(w, "JOIN"@)
    ||| same_folded(w, "ON"@)
    ||| more_reserved(w)
}

/// Whether an unquoted word is one of the reserved words of operators,
/// `CASE`, `CAST`, joins, `WITH` and set operations.
pub open spec fn more_reserved(w: Seq<char>) -> bool {
    ||| same_folded(w, "LIKE"@)
    ||| same_folded(w, "IN"@)
    ||| same_folded(w, "BETWEEN"@)
    ||| same_folded(w, "CASE"@)
    ||| same_folded(w, "WHEN"@)
    ||| same_folded(w, "THEN"@)
    ||| same_folded(w, "ELSE"@)
    ||| same_folded(w, "END"@)
    ||| same_folded(w, "CAST"@)
    ||| same_folded(w, "EXISTS"@)
    ||| same_folded(w, "INNER"@)
    ||| same_folded(w, "LEFT"@)
    ||| same_folded(w, "RIGHT"@)
    ||| same_folded(w, "FULL"@)
    ||| same_folded(w, "OUTER"@)
    ||| same_folded(w, "WITH"@)
    ||| same_folded(w, "UNION"@)
    ||| same_folded(w, "INTERSECT"@)
    ||| same_folded(w, "EXCEPT"@)
    ||| same_folded(w, "CROSS"@)
}

/// Whether the lexeme at `pos` can serve as a name: a quoted word, or an
/// unquoted one that is not reserved.
pub open spec fn name_at(t: Seq<LexemeView>, pos: int) -> bool {
    &&& 0 <= pos < t.len()
    &&& t[pos].kind == LexKind::Word
    &&& (t[pos].quote is Some || !is_reserved(t[pos].text))
}

/// The binding strength of a binary operator.
pub open spec fn strength(op: BinaryOp) -> int {
    match op {
        BinaryOp::Or => 1,
        BinaryOp::And => 2,
        BinaryOp::Eq | BinaryOp::NotEq | BinaryOp::Lt | BinaryOp::LtEq | BinaryOp::Gt
        | BinaryOp::GtEq | BinaryOp::Like => 4,
        BinaryOp::Plus | BinaryOp::Minus | BinaryOp::Concat => 5,
        BinaryOp::Multiply | BinaryOp::Divide | BinaryOp::Modulo => 6,
    }
}

/// The binding strength of `NOT`.
pub open spec fn not_strength() -> int {
    3
}

/// The binding strength of `IS NULL` and of the comparisons.
pub open spec fn comparison_strength() -> int {
    4
}

/// The binding strength of a sign.
pub open spec fn sign_strength() -> int {
    7
}

/// The binary operator that a lexeme spells, if any.
pub open spec fn binary_op_of(t: LexemeView) -> Option<BinaryOp> {
    if is_keyword(t, "OR"@) {
        Some(BinaryOp::Or)
    } else if is_keyword(t, "AND"@) {
        Some(BinaryOp::And)
    } else if is_symbol(t, "="@) {
        Some(BinaryOp::Eq)
    } else if is_symbol(t, "<>"@) {
        Some(BinaryOp::NotEq)
    } else if is_symbol(t, "<"@) {
        Some(BinaryOp::Lt)
    } else if is_symbol(t, "<="@) {
        Some(BinaryOp::LtEq)
    } else if is_symbol(t, ">"@) {
        Some(BinaryOp::Gt)
    } else if is_symbol(t, ">="@) {
        Some(BinaryOp::GtEq)
    } else if is_symbol(t, "+"@) {
        Some(BinaryOp::Plus)
    } else if is_symbol(t, "-"@) {
        Some(BinaryOp::Minus)
    } else if is_symbol(t, "*"@) {
        Some(BinaryOp::Multiply)
    } else if is_symbol(t, "/"@) {
        Some(BinaryOp::Divide)
    } else if is_symbol(t, "%"@) {
        Some(BinaryOp::Modulo)
    } else if is_symbol(t, "||"@) {
        Some(BinaryOp::Concat)
    } else {
        None
    }
}

/// The error of needing `expected` at `pos`, with the place in the text
/// where the lexeme at `pos` starts; past the end, with the place where
/// the last lexeme starts.
pub open spec fn missing(t: Seq<LexemeView>, pos: int, expected: Expected) -> SyntaxError {
    if 0 <= pos < t.len() {
        SyntaxError {
            position: pos as usize,
            line: t[pos].line,
            column: t[pos].column,
            ended: false,
            expected,
        }
    } else if t.len() > 0 {
        SyntaxError {
            position: pos as usize,
            line: t.last().line,
            column: t.last().column,
            ended: true,
            expected,
        }
    } else {
        SyntaxError { position: pos as usize, line: 0, column: 0, ended: true, expected }
    }
}

/// A dotted path that continues at `pos`: `acc` followed by every `.name`.
pub open spec fn path_from(t: Seq<LexemeView>, pos: int, acc: Seq<Seq<char>>) -> (
    Seq<Seq<char>>,
    int,
)
    decreases t.len() - pos,
{
    if symbol_at(t, pos, "."@) && 0 <= pos + 1 < t.len() && t[pos + 1].kind == LexKind::Word {
        path_from(t, pos + 2, acc.push(t[pos + 1].text))
    } else {
        (acc, pos)
    }
}

/// An expression that starts at `pos` and whose binary operators all bind
/// at least as strongly as `min`.
pub open spec fn expr_at(t: Seq<LexemeView>, pos: int, min: int) -> Result<
    (ExprView, int),
    SyntaxError,
>
    decreases t.len() - pos, 3int,
{
    match operand_at(t, pos) {
        Ok((left, p)) => if pos < p <= t.len() {
            rest_at(t, p, left, min)
        } else {
            Err(missing(t, pos, Expected::Expression))
        },
        Err(e) => Err(e),
    }
}

/// An operand that starts at `pos`: a literal, a column path, a call, a
/// parenthesised expression, or a prefix operator with its operand.
pub open spec fn operand_at(t: Seq<LexemeView>, pos: int) -> Result<(ExprView, int), SyntaxError>
    decreases t.len() - pos, 2int,
{
    if !(0 <= pos < t.len()) {
        Err(missing(t, pos, Expected::Expression))
    } else if t[pos].kind == LexKind::Number {
        Ok((ExprView::Number(t[pos].text), pos + 1))
    } else if t[pos].kind == LexKind::Text {
        Ok((ExprView::Text(t[pos].text), pos + 1))
    } else if is_symbol(t[pos], "("@) {
        match expr_at(t, pos + 1, 0) {
            Ok((e, p)) => if symbol_at(t, p, ")"@) {
                Ok((e, p + 1))
            } else {
                Err(missing(t, p, Expected::ClosingParen))
            },
            Err(e) => Err(e),
        }
    } else if is_symbol(t[pos], "-"@) {
        match expr_at(t, pos + 1, sign_strength()) {
            Ok((e, p)) => Ok((ExprView::Negate(Box::new(e)), p)),
            Err(e) => Err(e),
        }
    } else if is_symbol(t[pos], "*"@) {
        Ok((ExprView::Wildcard, pos + 1))
    } else if is_keyword(t[pos], "NOT"@) {
        match expr_at(t, pos + 1, not_strength()) {
            Ok((e, p)) => Ok((ExprView::Not(Box::new(e)), p)),
            Err(e) => Err(e),
        }
    } else if t[pos].kind == LexKind::Block {
        Ok((ExprView::Subquery(t[pos].block), pos + 1))
    } else if is_keyword(t[pos], "EXISTS"@) {
        if block_at(t, pos + 1) {
            Ok(
                (
                    ExprView::Nary(NaryOp::Exists, seq![ExprView::Subquery(t[pos + 1].block)]),
                    pos + 2,
                ),
            )
        } else {
            Err(missing(t, pos + 1, Expected::Subquery))
        }
    } else if is_keyword(t[pos], "CASE"@) {
        case_at(t, pos)
    } else if is_keyword(t[pos], "CAST"@) {
        cast_at(t, pos)
    } else if is_keyword(t[pos], "NULL"@) {
        Ok((ExprView::Null, pos + 1))
    } else if is_keyword(t[pos], "TRUE"@) {
        Ok((ExprView::Bool(true), pos + 1))
    } else if is_keyword(t[pos], "FALSE"@) {
        Ok((ExprView::Bool(false), pos + 1))
    } else if name_at(t, pos) {
        if symbol_at(t, pos + 1, "("@) {
            call_at(t, pos)
        } else {
            let (path, p) = path_from(t, pos + 1, seq![t[pos].text]);
            Ok((ExprView::Column(path), p))
        }
    } else {
        Err(missing(t, pos, Expected::Expression))
    }
}

/// A call whose name is at `pos` and whose opening parenthesis follows it.
pub open spec fn call_at(t: Seq<LexemeView>, pos: int) -> Result<(ExprView, int), SyntaxError>
    decreases t.len() - pos, 1int,
{
    if !(0 <= pos < t.len() && symbol_at(t, pos + 1, "("@)) {
        Err(missing(t, pos, Expected::Expression))
    } else {
        let distinct = keyword_at(t, pos + 2, "DISTINCT"@);
        let start = if distinct {
            pos + 3
        } else {
            pos + 2
        };
        if symbol_at(t, start, ")"@) {
            Ok((ExprView::Call(t[pos].text, distinct, Seq::empty()), start + 1))
        } else {
            match list_at(t, start, Seq::empty()) {
                Ok((args, p)) => if symbol_at(t, p, ")"@) {
                    Ok((ExprView::Call(t[pos].text, distinct, args), p + 1))
                } else {
                    Err(missing(t, p, Expected::ClosingParen))
                },
                Err(e) => Err(e),
            }
        }
    }
}

/// A list of expressions separated by commas that continues at `pos`, after
/// the expressions in `acc`.
pub open spec fn list_at(t: Seq<LexemeView>, pos: int, acc: Seq<ExprView>) -> Result<
    (Seq<ExprView>, int),
    SyntaxError,
>
    decreases t.len() - pos, 4int,
{
    match expr_at(t, pos, 0) {
        Ok((e, p)) => if symbol_at(t, p, ","@) && pos < p {
            list_at(t, p + 1, acc.push(e))
        } else {
            Ok((acc.push(e), p))
        },
        Err(e) => Err(e),
    }
}

/// Whether the lexeme at `pos` is a nested block.
pub open spec fn block_at(t: Seq<LexemeView>, pos: int) -> bool {
    0 <= pos < t.len() && t[pos].kind == LexKind::Block
}

/// Whether the lexeme at `pos` is a number.
pub open spec fn number_at(t: Seq<LexemeView>, pos: int) -> bool {
    0 <= pos < t.len() && t[pos].kind == LexKind::Number
}

/// Whether `LIKE`, `BETWEEN` or `IN` stands at `pos`.
pub open spec fn test_at(t: Seq<LexemeView>, pos: int) -> bool {
    keyword_at(t, pos, "LIKE"@) || keyword_at(t, pos, "BETWEEN"@) || keyword_at(t, pos, "IN"@)
}

/// `e`, or its negation.
pub open spec fn negation(negated: bool, e: ExprView) -> ExprView {
    if negated {
        ExprView::Not(Box::new(e))
    } else {
        e
    }
}

/// The test `LIKE pattern` of `left` whose keyword stands at `at`.
pub open spec fn like_of(t: Seq<LexemeView>, at: int, negated: bool, left: ExprView) -> Result<
    (ExprView, int),
    SyntaxError,
>
    decreases t.len() - at, 0int,
{
    if !(0 <= at < t.len()) {
        Err(missing(t, at, Expected::Expression))
    } else {
        match expr_at(t, at + 1, 5) {
            Ok((right, p)) => Ok(
                (
                    negation(
                        negated,
                        ExprView::Binary(BinaryOp::Like, Box::new(left), Box::new(right)),
                    ),
                    p,
                ),
            ),
            Err(e) => Err(e),
        }
    }
}

/// The test `BETWEEN low AND high` of `left` whose keyword stands at `at`.
pub open spec fn between_of(t: Seq<LexemeView>, at: int, negated: bool, left: ExprView) -> Result<
    (ExprView, int),
    SyntaxError,
>
    decreases t.len() - at, 0int,
{
    let op = if negated {
        NaryOp::NotBetween
    } else {
        NaryOp::Between
    };
    if !(0 <= at < t.len()) {
        Err(missing(t, at, Expected::Expression))
    } else {
        match expr_at(t, at + 1, 5) {
            Ok((low, p)) => if at < p && keyword_at(t, p, "AND"@) {
                match expr_at(t, p + 1, 5) {
                    Ok((high, q)) => Ok((ExprView::Nary(op, seq![left, low, high]), q)),
                    Err(e) => Err(e),
                }
            } else {
                Err(missing(t, p, Expected::And))
            },
            Err(e) => Err(e),
        }
    }
}

/// The test `IN` of `left` whose keyword stands at `at`, with a list in
/// parentheses or a nested block.
pub open spec fn in_of(t: Seq<LexemeView>, at: int, negated: bool, left: ExprView) -> Result<
    (ExprView, int),
    SyntaxError,
>
    decreases t.len() - at, 0int,
{
    let op = if negated {
        NaryOp::NotIn
    } else {
        NaryOp::In
    };
    if !(0 <= at < t.len()) {
        Err(missing(t, at, Expected::Expression))
    } else if block_at(t, at + 1) {
        Ok((ExprView::Nary(op, seq![left, ExprView::Subquery(t[at + 1].block)]), at + 2))
    } else if symbol_at(t, at + 1, "("@) {
        match list_at(t, at + 2, seq![left]) {
            Ok((args, p)) => if symbol_at(t, p, ")"@) {
                Ok((ExprView::Nary(op, args), p + 1))
            } else {
                Err(missing(t, p, Expected::ClosingParen))
            },
            Err(e) => Err(e),
        }
    } else {
        Err(missing(t, at + 1, Expected::OpeningParen))
    }
}

/// The test of `left` whose keyword stands at `at`: `LIKE`, `BETWEEN` or
/// `IN`.
pub open spec fn test_of(t: Seq<LexemeView>, at: int, negated: bool, left: ExprView) -> Result<
    (ExprView, int),
    SyntaxError,
>
    decreases t.len() - at, 1int,
{
    if keyword_at(t, at, "LIKE"@) {
        like_of(t, at, negated, left)
    } else if keyword_at(t, at, "BETWEEN"@) {
        between_of(t, at, negated, left)
    } else {
        in_of(t, at, negated, left)
    }
}

/// The operands of a `CASE` from `pos` on, after those in `acc`: pairs of
/// `WHEN` and `THEN`, an optional `ELSE`, and `END`.
pub open spec fn whens_at(t: Seq<LexemeView>, pos: int, acc: Seq<ExprView>) -> Result<
    (Seq<ExprView>, int),
    SyntaxError,
>
    decreases t.len() - pos, 0int,
{
    if keyword_at(t, pos, "WHEN"@) {
        match expr_at(t, pos + 1, 0) {
            Ok((c, p)) => if pos < p && keyword_at(t, p, "THEN"@) {
                match expr_at(t, p + 1, 0) {
                    Ok((r, q)) => if p < q <= t.len() {
                        whens_at(t, q, acc.push(c).push(r))
                    } else {
                        Err(missing(t, p, Expected::Expression))
                    },
                    Err(e) => Err(e),
                }
            } else {
                Err(missing(t, p, Expected::Then))
            },
            Err(e) => Err(e),
        }
    } else if keyword_at(t, pos, "ELSE"@) {
        match expr_at(t, pos + 1, 0) {
            Ok((e, p)) => if keyword_at(t, p, "END"@) {
                Ok((acc.push(e), p + 1))
            } else {
                Err(missing(t, p, Expected::EndOfCase))
            },
            Err(e) => Err(e),
        }
    } else if keyword_at(t, pos, "END"@) {
        Ok((acc, pos + 1))
    } else {
        Err(missing(t, pos, Expected::EndOfCase))
    }
}

/// The `CASE` whose keyword stands at `pos`, with or without an operand.
pub open spec fn case_at(t: Seq<LexemeView>, pos: int) -> Result<(ExprView, int), SyntaxError>
    decreases t.len() - pos, 1int,
{
    if !(0 <= pos < t.len()) {
        Err(missing(t, pos, Expected::Expression))
    } else if keyword_at(t, pos + 1, "WHEN"@) {
        match whens_at(t, pos + 1, Seq::empty()) {
            Ok((args, p)) => Ok((ExprView::Nary(NaryOp::Case, args), p)),
            Err(e) => Err(e),
        }
    } else {
        match expr_at(t, pos + 1, 0) {
            Ok((x, p)) => if pos < p && keyword_at(t, p, "WHEN"@) {
                match whens_at(t, p, seq![x]) {
                    Ok((args, q)) => Ok((ExprView::Nary(NaryOp::CaseOf, args), q)),
                    Err(e) => Err(e),
                }
            } else {
                Err(missing(t, p, Expected::When))
            },
            Err(e) => Err(e),
        }
    }
}

/// The name of a type at `pos`: a word, with one or two numbers in
/// parentheses if they follow.
pub open spec fn type_at(t: Seq<LexemeView>, pos: int) -> Option<(Seq<char>, int)> {
    if 0 <= pos < t.len() && t[pos].kind == LexKind::Word {
        let name = t[pos].text;
        if symbol_at(t, pos + 1, "("@) {
            if number_at(t, pos + 2) && symbol_at(t, pos + 3, ")"@) {
                Some((name + "("@ + t[pos + 2].text + ")"@, pos + 4))
            } else if number_at(t, pos + 2) && symbol_at(t, pos + 3, ","@) && number_at(t, pos + 4)
                && symbol_at(t, pos + 5, ")"@) {
                Some((name + "("@ + t[pos + 2].text + ", "@ + t[pos + 4].text + ")"@, pos + 6))
            } else {
                None
            }
        } else {
            Some((name, pos + 1))
        }
    } else {
        None
    }
}

/// The `CAST` whose keyword stands at `pos`.
pub open spec fn cast_at(t: Seq<LexemeView>, pos: int) -> Result<(ExprView, int), SyntaxError>
    decreases t.len() - pos, 1int,
{
    if !(0 <= pos < t.len()) {
        Err(missing(t, pos, Expected::Expression))
    } else if !symbol_at(t, pos + 1, "("@) {
        Err(missing(t, pos + 1, Expected::OpeningParen))
    } else {
        match expr_at(t, pos + 2, 0) {
            Ok((x, p)) => if !keyword_at(t, p, "AS"@) {
                Err(missing(t, p, Expected::As))
            } else {
                match type_at(t, p + 1) {
                    None => Err(missing(t, p + 1, Expected::Name)),
                    Some((ty, q)) => if symbol_at(t, q, ")"@) {
                        Ok((ExprView::Cast(Box::new(x), ty), q + 1))
                    } else {
                        Err(missing(t, q, Expected::ClosingParen))
                    },
                }
            },
            Err(e) => Err(e),
        }
    }
}

/// What follows the operand `left` from `pos` on: `IS NULL` tests, the
/// tests `LIKE`, `BETWEEN` and `IN` with or without `NOT`, and binary
/// operators that bind at least as strongly as `min`, each with its right
/// side. Operators of one strength group to the left.
pub open spec fn rest_at(t: Seq<LexemeView>, pos: int, left: ExprView, min: int) -> Result<
    (ExprView, int),
    SyntaxError,
>
    decreases t.len() - pos, 2int,
{
    if !(0 <= pos < t.len()) {
        Ok((left, pos))
    } else if is_keyword(t[pos], "IS"@) && comparison_strength() >= min {
        let negated = keyword_at(t, pos + 1, "NOT"@);
        let p = if negated {
            pos + 2
        } else {
            pos + 1
        };
        if keyword_at(t, p, "NULL"@) {
            rest_at(t, p + 1, ExprView::IsNull(Box::new(left), negated), min)
        } else {
            Err(missing(t, p, Expected::Null))
        }
    } else if comparison_strength() >= min && (test_at(t, pos) || (is_keyword(t[pos], "NOT"@)
        && test_at(t, pos + 1))) {
        let negated = !test_at(t, pos);
        let at = if negated {
            pos + 1
        } else {
            pos
        };
        match test_of(t, at, negated, left) {
            Ok((x, p)) => if pos < p <= t.len() {
                rest_at(t, p, x, min)
            } else {
                Err(missing(t, pos, Expected::Expression))
            },
            Err(e) => Err(e),
        }
    } else {
        match binary_op_of(t[pos]) {
            Some(op) => if strength(op) >= min {
                match expr_at(t, pos + 1, strength(op) + 1) {
                    Ok((right, p)) => if pos < p <= t.len() {
                        rest_at(t, p, ExprView::Binary(op, Box::new(left), Box::new(right)), min)
                    } else {
                        Err(missing(t, pos, Expected::Expression))
                    },
                    Err(e) => Err(e),
                }
            } else {
                Ok((left, pos))
            },
            None => Ok((left, pos)),
        }
    }
}

/// The value of the outcome of parsing an expression.
pub open spec fn parsed_expr(r: Result<(Expr, usize), SyntaxError>) -> Result<
    (ExprView, int),
    SyntaxError,
> {
    match r {
        Ok((e, p)) => Ok((e@, p as int)),
        Err(e) => Err(e),
    }
}

/// The value of the outcome of parsing a list of expressions.
pub open spec fn parsed_list(r: Result<(Vec<Expr>, usize), SyntaxError>) -> Result<
    (Seq<ExprView>, int),
    SyntaxError,
> {
    match r {
        Ok((v, p)) => Ok((expr_views(v@), p as int)),
        Err(e) => Err(e),
    }
}

/// The error of needing `expected` at `pos`.
pub(crate) fn miss(tokens: &Vec<Lexeme>, pos: usize, expected: Expected) -> (r: SyntaxError)
    ensures
        r == missing(lexeme_views(tokens@), pos as int, expected),
{
    if pos < tokens.len() {
        SyntaxError {
            position: pos,
            line: tokens[pos].line,
            column: tokens[pos].column,
            ended: false,
            expected,
        }
    } else if tokens.len() > 0 {
        let last = tokens.len() - 1;
        SyntaxError {
            position: pos,
            line: tokens[last].line,
            column: tokens[last].column,
            ended: true,
            expected,
        }
    } else {
        SyntaxError { position: pos, line: 0, column: 0, ended: true, expected }
    }
}

/// Whether the lexeme at `pos` is the keyword `kw`.
pub(crate) fn at_keyword(tokens: &Vec<Lexeme>, pos: usize, kw: &str) -> (r: bool)
    ensures
        r == keyword_at(lexeme_views(tokens@), pos as int, kw@),
{
    pos < tokens.len() && tokens[pos].kind == LexKind::Word && tokens[pos].quote.is_none()
        && folded_match(tokens[pos].text.as_str(), kw)
}

/// Whether the lexeme at `pos` is the symbol `sym`.
pub(crate) fn at_symbol(tokens: &Vec<Lexeme>, pos: usize, sym: &str) -> (r: bool)
    ensures
        r == symbol_at(lexeme_views(tokens@), pos as int, sym@),
{
    pos < tokens.len() && tokens[pos].kind == LexKind::Symbol && same_text(
        tokens[pos].text.as_str(),
        sym,
    )
}

/// Whether an unquoted word is reserved by the grammar.
pub(crate) fn reserved_word(w: &str) -> (r: bool)
    ensures
        r == is_reserved(w@),
{
    folded_match(w, "SELECT") || folded_match(w, "DISTINCT") || folded_match(w, "FROM")
        || folded_match(w, "WHERE") || folded_match(w, "GROUP") || folded_match(w, "BY")
        || folded_match(w, "HAVING") || folded_match(w, "ORDER") || folded_match(w, "LIMIT")
        || folded_match(w, "OFFSET") || folded_match(w, "AS") || folded_match(w, "AND")
        || folded_match(w, "OR") || folded_match(w, "NOT") || folded_match(w, "IS")
        || folded_match(w, "NULL") || folded_match(w, "TRUE") || folded_match(w, "FALSE")
        || folded_match(w, "ASC") || folded_match(w, "DESC") || folded_match(w, "JOIN")
        || folded_match(w, "ON") || also_reserved(w)
}

/// Whether an unquoted word is one of the reserved words of operators,
/// `CASE`, `CAST`, joins, `WITH` and set operations.
pub(crate) fn also_reserved(w: &str) -> (r: bool)
    ensures
        r == more_reserved(w@),
{
    folded_match(w, "LIKE") || folded_match(w, "IN") || folded_match(w, "BETWEEN") || folded_match(
        w,
        "CASE",
    ) || folded_match(w, "WHEN") || folded_match(w, "THEN") || folded_match(w, "ELSE")
        || folded_match(w, "END") || folded_match(w, "CAST") || folded_match(w, "EXISTS")
        || folded_match(w, "INNER") || folded_match(w, "LEFT") || folded_match(w, "RIGHT")
        || folded_match(w, "FULL") || folded_match(w, "OUTER") || folded_match(w, "WITH")
        || folded_match(w, "UNION") || folded_match(w, "INTERSECT") || folded_match(w, "EXCEPT")
        || folded_match(w, "CROSS")
}

/// Whether the lexeme at `pos` can serve as a name.
pub(crate) fn at_name(tokens: &Vec<Lexeme>, pos: usize) -> (r: bool)
    ensures
        r == name_at(lexeme_views(tokens@), pos as int),
{
    pos < tokens.len() && tokens[pos].kind == LexKind::Word && (tokens[pos].quote.is_some()
        || !reserved_word(tokens[pos].text.as_str()))
}

/// The binding strength of a binary operator.
pub(crate) fn op_strength(op: BinaryOp) -> (r: u8)
    ensures
        r == strength(op),
{
    match op {
        BinaryOp::Or => 1,
        BinaryOp::And => 2,
        BinaryOp::Eq | BinaryOp::NotEq | BinaryOp::Lt | BinaryOp::LtEq | BinaryOp::Gt
        | BinaryOp::GtEq | BinaryOp::Like => 4,
        BinaryOp::Plus | BinaryOp::Minus | BinaryOp::Concat => 5,
        BinaryOp::Multiply | BinaryOp::Divide | BinaryOp::Modulo => 6,
    }
}

/// The binary operator that the lexeme at `pos` spells, if any.
pub(crate) fn binary_op_at(tokens: &Vec<Lexeme>, pos: usize) -> (r: Option<BinaryOp>)
    requires
        pos < tokens.len(),
    ensures
        r == binary_op_of(lexeme_views(tokens@)[pos as int]),
{
    if at_keyword(tokens, pos, "OR") {
        Some(BinaryOp::Or)
    } else if at_keyword(tokens, pos, "AND") {
        Some(BinaryOp::And)
    } else if at_symbol(tokens, pos, "=") {
        Some(BinaryOp::Eq)
    } else if at_symbol(tokens, pos, "<>") {
        Some(BinaryOp::NotEq)
    } else if at_symbol(tokens, pos, "<") {
        Some(BinaryOp::Lt)
    } else if at_symbol(tokens, pos, "<=") {
        Some(BinaryOp::LtEq)
    } else if at_symbol(tokens, pos, ">") {
        Some(BinaryOp::Gt)
    } else if at_symbol(tokens, pos, ">=") {
        Some(BinaryOp::GtEq)
    } else if at_symbol(tokens, pos, "+") {
        Some(BinaryOp::Plus)
    } else if at_symbol(tokens, pos, "-") {
        Some(BinaryOp::Minus)
    } else if at_symbol(tokens, pos, "*") {
        Some(BinaryOp::Multiply)
    } else if at_symbol(tokens, pos, "/") {
        Some(BinaryOp::Divide)
    } else if at_symbol(tokens, pos, "%") {
        Some(BinaryOp::Modulo)
    } else if at_symbol(tokens, pos, "||") {
        Some(BinaryOp::Concat)
    } else {
        None
    }
}

/// Reads the rest of a dotted path: every `.name` from `pos` on is added to
/// `path`.
pub(crate) fn parse_path(tokens: &Vec<Lexeme>, pos: usize, path: Vec<String>) -> (r: (Vec<String>, usize))
    requires
        pos <= tokens.len(),
    ensures
        (texts(r.0@), r.1 as int) == path_from(lexeme_views(tokens@), pos as int, texts(path@)),
        pos <= r.1 <= tokens.len(),
{
    let ghost t = lexeme_views(tokens@);
    let ghost start = texts(path@);
    let mut path = path;
    let mut p = pos;
    while at_symbol(tokens, p, ".") && p + 1 < tokens.len() && tokens[p + 1].kind == LexKind::Word
        invariant
            pos <= p <= tokens.len(),
            t == lexeme_views(tokens@),
            path_from(t, pos as int, start) == path_from(t, p as int, texts(path@)),
        decreases tokens.len() - p,
    {
        let ghost before = texts(path@);
        path.push(tokens[p + 1].text.clone());
        assert(texts(path@) == before.push(t[p + 1].text));
        p += 2;
    }
    (path, p)
}

/// Parses an expression that starts at `pos` and whose binary operators all
/// bind at least as strongly as `min`.
pub fn parse_expr(tokens: &Vec<Lexeme>, pos: usize, min: u8) -> (r: Result<
    (Expr, usize),
    SyntaxError,
>)
    ensures
        parsed_expr(r) == expr_at(lexeme_views(tokens@), pos as int, min as int),
        r matches Ok((_, p)) ==> pos < p <= tokens.len(),
    decreases tokens.len() - pos, 3int,
{
    match parse_operand(tokens, pos) {
        Ok((left, p)) => parse_rest(tokens, p, left, min),
        Err(e) => Err(e),
    }
}

/// Parses an operand that starts at `pos`.
pub(crate) fn parse_operand(tokens: &Vec<Lexeme>, pos: usize) -> (r: Result<(Expr, usize), SyntaxError>)
    ensures
        parsed_expr(r) == operand_at(lexeme_views(tokens@), pos as int),
        r matches Ok((_, p)) ==> pos < p <= tokens.len(),
    decreases tokens.len() - pos, 2int,
{
    let ghost t = lexeme_views(tokens@);
    if pos >= tokens.len() {
        return Err(miss(tokens, pos, Expected::Expression));
    }
    if tokens[pos].kind == LexKind::Number {
        Ok((Expr::Number(tokens[pos].text.clone()), pos + 1))
    } else if tokens[pos].kind == LexKind::Text {
        Ok((Expr::Text(tokens[pos].text.clone()), pos + 1))
    } else if at_symbol(tokens, pos, "(") {
        match parse_expr(tokens, pos + 1, 0) {
            Ok((e, p)) => if at_symbol(tokens, p, ")") {
                Ok((e, p + 1))
            } else {
                Err(miss(tokens, p, Expected::ClosingParen))
            },
            Err(e) => Err(e),
        }
    } else if at_symbol(tokens, pos, "-") {
        match parse_expr(tokens, pos + 1, 7) {
            Ok((e, p)) => Ok((Expr::Negate(Box::new(e)), p)),
            Err(e) => Err(e),
        }
    } else if at_symbol(tokens, pos, "*") {
        Ok((Expr::Wildcard, pos + 1))
    } else if at_keyword(tokens, pos, "NOT") {
        match parse_expr(tokens, pos + 1, 3) {
            Ok((e, p)) => Ok((Expr::Not(Box::new(e)), p)),
            Err(e) => Err(e),
        }
    } else if tokens[pos].kind == LexKind::Block {
        Ok((Expr::Subquery(tokens[pos].block), pos + 1))
    } else if at_keyword(tokens, pos, "EXISTS") {
        if pos + 1 < tokens.len() && tokens[pos + 1].kind == LexKind::Block {
            let mut args: Vec<Expr> = Vec::new();
            args.push(Expr::Subquery(tokens[pos + 1].block));
            assert(expr_views(args@) == seq![ExprView::Subquery(t[pos + 1].block)]);
            Ok((Expr::Nary(NaryOp::Exists, args), pos + 2))
        } else {
            Err(miss(tokens, pos + 1, Expected::Subquery))
        }
    } else if at_keyword(tokens, pos, "CASE") {
        parse_case(tokens, pos)
    } else if at_keyword(tokens, pos, "CAST") {
        parse_cast(tokens, pos)
    } else if at_keyword(tokens, pos, "NULL") {
        Ok((Expr::Null, pos + 1))
    } else if at_keyword(tokens, pos, "TRUE") {
        Ok((Expr::Bool(true), pos + 1))
    } else if at_keyword(tokens, pos, "FALSE") {
        Ok((Expr::Bool(false), pos + 1))
    } else if at_name(tokens, pos) {
        if at_symbol(tokens, pos + 1, "(") {
            parse_call(tokens, pos)
        } else {
            let mut first: Vec<String> = Vec::new();
            first.push(tokens[pos].text.clone());
            assert(texts(first@) == seq![t[pos as int].text]);
            let (path, p) = parse_path(tokens, pos + 1, first);
            Ok((Expr::Column(path), p))
        }
    } else {
        Err(miss(tokens, pos, Expected::Expression))
    }
}

/// Parses a call whose name is at `pos` and whose opening parenthesis
/// follows it.
pub(crate) fn parse_call(tokens: &Vec<Lexeme>, pos: usize) -> (r: Result<(Expr, usize), SyntaxError>)
    requires
        pos < tokens.len(),
        symbol_at(lexeme_views(tokens@), pos + 1, "("@),
    ensures
        parsed_expr(r) == call_at(lexeme_views(tokens@), pos as int),
        r matches Ok((_, p)) ==> pos < p <= tokens.len(),
    decreases tokens.len() - pos, 1int,
{
    let distinct = at_keyword(tokens, pos + 2, "DISTINCT");
    let start = if distinct {
        pos + 3
    } else {
        pos + 2
    };
    if at_symbol(tokens, start, ")") {
        let args: Vec<Expr> = Vec::new();
        assert(expr_views(args@) == Seq::<ExprView>::empty());
        Ok((Expr::Call(tokens[pos].text.clone(), distinct, args), start + 1))
    } else {
        match parse_list(tokens, start) {
            Ok((args, p)) => if at_symbol(tokens, p, ")") {
                Ok((Expr::Call(tokens[pos].text.clone(), distinct, args), p + 1))
            } else {
                Err(miss(tokens, p, Expected::ClosingParen))
            },
            Err(e) => Err(e),
        }
    }
}

/// Parses a list of expressions separated by commas that starts at `pos`.
pub(crate) fn parse_list(tokens: &Vec<Lexeme>, pos: usize) -> (r: Result<(Vec<Expr>, usize), SyntaxError>)
    ensures
        parsed_list(r) == list_at(lexeme_views(tokens@), pos as int, Seq::empty()),
        r matches Ok((_, p)) ==> pos < p <= tokens.len(),
    decreases tokens.len() - pos, 5int,
{
    let first: Vec<Expr> = Vec::new();
    assert(expr_views(first@) == Seq::<ExprView>::empty());
    parse_list_after(tokens, pos, first)
}

/// Parses a list of expressions separated by commas that starts at `pos`
/// and adds them to `first`.
pub(crate) fn parse_list_after(tokens: &Vec<Lexeme>, pos: usize, first: Vec<Expr>) -> (r: Result<
    (Vec<Expr>, usize),
    SyntaxError,
>)
    ensures
        parsed_list(r) == list_at(lexeme_views(tokens@), pos as int, expr_views(first@)),
        r matches Ok((_, p)) ==> pos < p <= tokens.len(),
    decreases tokens.len() - pos, 4int,
{
    let ghost t = lexeme_views(tokens@);
    let ghost start = expr_views(first@);
    if pos > tokens.len() {
        assert(operand_at(t, pos as int) == Err::<(ExprView, int), SyntaxError>(
            missing(t, pos as int, Expected::Expression),
        ));
        assert(expr_at(t, pos as int, 0) == operand_at(t, pos as int));
        return Err(miss(tokens, pos, Expected::Expression));
    }
    let mut items = first;
    let mut p = pos;
    loop
        invariant
            pos <= p <= tokens.len(),
            t == lexeme_views(tokens@),
            start == expr_views(first@),
            list_at(t, pos as int, start) == list_at(t, p as int, expr_views(items@)),
        decreases tokens.len() - p,
    {
        match parse_expr(tokens, p, 0) {
            Ok((e, next)) => {
                let ghost before = expr_views(items@);
                let ghost ev = e@;
                items.push(e);
                assert(expr_views(items@) == before.push(ev));
                if at_symbol(tokens, next, ",") {
                    p = next + 1;
                } else {
                    return Ok((items, next));
                }
            },
            Err(e) => {
                return Err(e);
            },
        }
    }
}

/// Whether `LIKE`, `BETWEEN` or `IN` stands at `pos`.
pub(crate) fn at_test(tokens: &Vec<Lexeme>, pos: usize) -> (r: bool)
    ensures
        r == test_at(lexeme_views(tokens@), pos as int),
{
    at_keyword(tokens, pos, "LIKE") || at_keyword(tokens, pos, "BETWEEN") || at_keyword(
        tokens,
        pos,
        "IN",
    )
}

/// Parses the test of `left` whose keyword stands at `at`.
pub(crate) fn parse_test(tokens: &Vec<Lexeme>, at: usize, negated: bool, left: Expr) -> (r: Result<
    (Expr, usize),
    SyntaxError,
>)
    requires
        test_at(lexeme_views(tokens@), at as int),
    ensures
        parsed_expr(r) == test_of(lexeme_views(tokens@), at as int, negated, left@),
        r matches Ok((_, p)) ==> at < p <= tokens.len(),
    decreases tokens.len() - at, 1int,
{
    if at_keyword(tokens, at, "LIKE") {
        parse_like(tokens, at, negated, left)
    } else if at_keyword(tokens, at, "BETWEEN") {
        parse_between(tokens, at, negated, left)
    } else {
        parse_in(tokens, at, negated, left)
    }
}

/// Parses the test `LIKE pattern` of `left`.
pub(crate) fn parse_like(tokens: &Vec<Lexeme>, at: usize, negated: bool, left: Expr) -> (r: Result<
    (Expr, usize),
    SyntaxError,
>)
    requires
        at < tokens.len(),
    ensures
        parsed_expr(r) == like_of(lexeme_views(tokens@), at as int, negated, left@),
        r matches Ok((_, p)) ==> at < p <= tokens.len(),
    decreases tokens.len() - at, 0int,
{
    match parse_expr(tokens, at + 1, 5) {
        Ok((right, p)) => {
            let ghost lv = left@;
            let ghost rv = right@;
            let e = Expr::Binary(BinaryOp::Like, Box::new(left), Box::new(right));
            assert(e@ == ExprView::Binary(BinaryOp::Like, Box::new(lv), Box::new(rv)));
            if negated {
                let ghost ev = e@;
                let n = Expr::Not(Box::new(e));
                assert(n@ == ExprView::Not(Box::new(ev)));
                Ok((n, p))
            } else {
                Ok((e, p))
            }
        },
        Err(e) => Err(e),
    }
}

/// Parses the test `BETWEEN low AND high` of `left`.
pub(crate) fn parse_between(tokens: &Vec<Lexeme>, at: usize, negated: bool, left: Expr) -> (r:
    Result<(Expr, usize), SyntaxError>)
    requires
        at < tokens.len(),
    ensures
        parsed_expr(r) == between_of(lexeme_views(tokens@), at as int, negated, left@),
        r matches Ok((_, p)) ==> at < p <= tokens.len(),
    decreases tokens.len() - at, 0int,
{
    match parse_expr(tokens, at + 1, 5) {
        Ok((low, p)) => if at_keyword(tokens, p, "AND") {
            match parse_expr(tokens, p + 1, 5) {
                Ok((high, q)) => Ok((between(negated, left, low, high), q)),
                Err(e) => Err(e),
            }
        } else {
            Err(miss(tokens, p, Expected::And))
        },
        Err(e) => Err(e),
    }
}

/// Parses the test `IN` of `left`.
pub(crate) fn parse_in(tokens: &Vec<Lexeme>, at: usize, negated: bool, left: Expr) -> (r: Result<
    (Expr, usize),
    SyntaxError,
>)
    requires
        at < tokens.len(),
    ensures
        parsed_expr(r) == in_of(lexeme_views(tokens@), at as int, negated, left@),
        r matches Ok((_, p)) ==> at < p <= tokens.len(),
    decreases tokens.len() - at, 0int,
{
    if at + 1 < tokens.len() && tokens[at + 1].kind == LexKind::Block {
        Ok((within(negated, left, tokens[at + 1].block), at + 2))
    } else if at_symbol(tokens, at + 1, "(") {
        let ghost lv = left@;
        let mut first: Vec<Expr> = Vec::new();
        first.push(left);
        assert(expr_views(first@) == seq![lv]);
        match parse_list_after(tokens, at + 2, first) {
            Ok((args, p)) => if at_symbol(tokens, p, ")") {
                let op = if negated {
                    NaryOp::NotIn
                } else {
                    NaryOp::In
                };
                Ok((Expr::Nary(op, args), p + 1))
            } else {
                Err(miss(tokens, p, Expected::ClosingParen))
            },
            Err(e) => Err(e),
        }
    } else {
        Err(miss(tokens, at + 1, Expected::OpeningParen))
    }
}

/// The test of `left` between `low` and `high`, or its negation.
pub(crate) fn between(negated: bool, left: Expr, low: Expr, high: Expr) -> (r: Expr)
    ensures
        r@ == ExprView::Nary(
            if negated {
                NaryOp::NotBetween
            } else {
                NaryOp::Between
            },
            seq![left@, low@, high@],
        ),
{
    let op = if negated {
        NaryOp::NotBetween
    } else {
        NaryOp::Between
    };
    let ghost lv = left@;
    let ghost lo = low@;
    let ghost hi = high@;
    let mut args: Vec<Expr> = Vec::new();
    args.push(left);
    args.push(low);
    args.push(high);
    assert(expr_views(args@) == seq![lv, lo, hi]);
    Expr::Nary(op, args)
}

/// The test of `left` in the nested block `k`, or its negation.
pub(crate) fn within(negated: bool, left: Expr, k: usize) -> (r: Expr)
    ensures
        r@ == ExprView::Nary(
            if negated {
                NaryOp::NotIn
            } else {
                NaryOp::In
            },
            seq![left@, ExprView::Subquery(k)],
        ),
{
    let op = if negated {
        NaryOp::NotIn
    } else {
        NaryOp::In
    };
    let ghost lv = left@;
    let mut args: Vec<Expr> = Vec::new();
    args.push(left);
    args.push(Expr::Subquery(k));
    assert(expr_views(args@) == seq![lv, ExprView::Subquery(k)]);
    Expr::Nary(op, args)
}

/// Parses the operands of a `CASE` from `pos` on and adds them to `first`.
pub(crate) fn parse_whens(tokens: &Vec<Lexeme>, pos: usize, first: Vec<Expr>) -> (r: Result<
    (Vec<Expr>, usize),
    SyntaxError,
>)
    requires
        pos <= tokens.len(),
    ensures
        parsed_list(r) == whens_at(lexeme_views(tokens@), pos as int, expr_views(first@)),
        r matches Ok((_, p)) ==> pos < p <= tokens.len(),
    decreases tokens.len() - pos, 0int,
{
    let ghost t = lexeme_views(tokens@);
    let ghost start = expr_views(first@);
    let mut args = first;
    let mut p = pos;
    while at_keyword(tokens, p, "WHEN")
        invariant
            pos <= p <= tokens.len(),
            t == lexeme_views(tokens@),
            start == expr_views(first@),
            whens_at(t, pos as int, start) == whens_at(t, p as int, expr_views(args@)),
        decreases tokens.len() - p,
    {
        match parse_expr(tokens, p + 1, 0) {
            Ok((c, q)) => if at_keyword(tokens, q, "THEN") {
                match parse_expr(tokens, q + 1, 0) {
                    Ok((r, next)) => {
                        let ghost before = expr_views(args@);
                        let ghost cv = c@;
                        let ghost rv = r@;
                        args.push(c);
                        args.push(r);
                        assert(expr_views(args@) == before.push(cv).push(rv));
                        p = next;
                    },
                    Err(e) => {
                        return Err(e);
                    },
                }
            } else {
                return Err(miss(tokens, q, Expected::Then));
            },
            Err(e) => {
                return Err(e);
            },
        }
    }
    if at_keyword(tokens, p, "ELSE") {
        match parse_expr(tokens, p + 1, 0) {
            Ok((e, q)) => if at_keyword(tokens, q, "END") {
                let ghost before = expr_views(args@);
                let ghost ev = e@;
                args.push(e);
                assert(expr_views(args@) == before.push(ev));
                Ok((args, q + 1))
            } else {
                Err(miss(tokens, q, Expected::EndOfCase))
            },
            Err(e) => Err(e),
        }
    } else if at_keyword(tokens, p, "END") {
        Ok((args, p + 1))
    } else {
        Err(miss(tokens, p, Expected::EndOfCase))
    }
}

/// Parses the `CASE` whose keyword stands at `pos`.
pub(crate) fn parse_case(tokens: &Vec<Lexeme>, pos: usize) -> (r: Result<(Expr, usize), SyntaxError>)
    requires
        pos < tokens.len(),
    ensures
        parsed_expr(r) == case_at(lexeme_views(tokens@), pos as int),
        r matches Ok((_, p)) ==> pos < p <= tokens.len(),
    decreases tokens.len() - pos, 1int,
{
    if at_keyword(tokens, pos + 1, "WHEN") {
        let first: Vec<Expr> = Vec::new();
        assert(expr_views(first@) == Seq::<ExprView>::empty());
        match parse_whens(tokens, pos + 1, first) {
            Ok((args, p)) => Ok((Expr::Nary(NaryOp::Case, args), p)),
            Err(e) => Err(e),
        }
    } else {
        match parse_expr(tokens, pos + 1, 0) {
            Ok((x, p)) => if at_keyword(tokens, p, "WHEN") {
                let ghost xv = x@;
                let mut first: Vec<Expr> = Vec::new();
                first.push(x);
                assert(expr_views(first@) == seq![xv]);
                match parse_whens(tokens, p, first) {
                    Ok((args, q)) => Ok((Expr::Nary(NaryOp::CaseOf, args), q)),
                    Err(e) => Err(e),
                }
            } else {
                Err(miss(tokens, p, Expected::When))
            },
            Err(e) => Err(e),
        }
    }
}

/// Whether the lexeme at `pos` is a number.
pub(crate) fn at_number(tokens: &Vec<Lexeme>, pos: usize) -> (r: bool)
    ensures
        r == number_at(lexeme_views(tokens@), pos as int),
{
    pos < tokens.len() && tokens[pos].kind == LexKind::Number
}

/// Reads the name of a type at `pos`.
pub(crate) fn parse_type(tokens: &Vec<Lexeme>, pos: usize) -> (r: Option<(String, usize)>)
    requires
        pos <= tokens.len(),
    ensures
        match r {
            Some((ty, p)) => type_at(lexeme_views(tokens@), pos as int) == Some((ty@, p as int))
                && pos < p <= tokens.len(),
            None => type_at(lexeme_views(tokens@), pos as int) is None,
        },
{
    if pos < tokens.len() && tokens[pos].kind == LexKind::Word {
        let mut name = tokens[pos].text.clone();
        if at_symbol(tokens, pos + 1, "(") {
            if at_number(tokens, pos + 2) && at_symbol(tokens, pos + 3, ")") {
                name.append("(");
                name.append(tokens[pos + 2].text.as_str());
                name.append(")");
                Some((name, pos + 4))
            } else if at_number(tokens, pos + 2) && at_symbol(tokens, pos + 3, ",") && at_number(
                tokens,
                pos + 4,
            ) && at_symbol(tokens, pos + 5, ")") {
                name.append("(");
                name.append(tokens[pos + 2].text.as_str());
                name.append(", ");
                name.append(tokens[pos + 4].text.as_str());
                name.append(")");
                Some((name, pos + 6))
            } else {
                None
            }
        } else {
            Some((name, pos + 1))
        }
    } else {
        None
    }
}

/// Parses the `CAST` whose keyword stands at `pos`.
pub(crate) fn parse_cast(tokens: &Vec<Lexeme>, pos: usize) -> (r: Result<(Expr, usize), SyntaxError>)
    requires
        pos < tokens.len(),
    ensures
        parsed_expr(r) == cast_at(lexeme_views(tokens@), pos as int),
        r matches Ok((_, p)) ==> pos < p <= tokens.len(),
    decreases tokens.len() - pos, 1int,
{
    if !at_symbol(tokens, pos + 1, "(") {
        return Err(miss(tokens, pos + 1, Expected::OpeningParen));
    }
    match parse_expr(tokens, pos + 2, 0) {
        Ok((x, p)) => if !at_keyword(tokens, p, "AS") {
            Err(miss(tokens, p, Expected::As))
        } else {
            match parse_type(tokens, p + 1) {
                None => Err(miss(tokens, p + 1, Expected::Name)),
                Some((ty, q)) => if at_symbol(tokens, q, ")") {
                    Ok((Expr::Cast(Box::new(x), ty), q + 1))
                } else {
                    Err(miss(tokens, q, Expected::ClosingParen))
                },
            }
        },
        Err(e) => Err(e),
    }
}

/// Parses what follows the operand `left` from `pos` on.
pub(crate) fn parse_rest(tokens: &Vec<Lexeme>, pos: usize, left: Expr, min: u8) -> (r: Result<
    (Expr, usize),
    SyntaxError,
>)
    requires
        pos <= tokens.len(),
    ensures
        parsed_expr(r) == rest_at(lexeme_views(tokens@), pos as int, left@, min as int),
        r matches Ok((_, p)) ==> pos <= p <= tokens.len(),
    decreases tokens.len() - pos, 2int,
{
    if pos >= tokens.len() {
        return Ok((left, pos));
    }
    if at_keyword(tokens, pos, "IS") && 4 >= min {
        let negated = at_keyword(tokens, pos + 1, "NOT");
        let p = if negated {
            pos + 2
        } else {
            pos + 1
        };
        if at_keyword(tokens, p, "NULL") {
            parse_rest(tokens, p + 1, Expr::IsNull(Box::new(left), negated), min)
        } else {
            Err(miss(tokens, p, Expected::Null))
        }
    } else if 4 >= min && (at_test(tokens, pos) || (at_keyword(tokens, pos, "NOT") && at_test(
        tokens,
        pos + 1,
    ))) {
        let negated = !at_test(tokens, pos);
        let at = if negated {
            pos + 1
        } else {
            pos
        };
        match parse_test(tokens, at, negated, left) {
            Ok((x, p)) => parse_rest(tokens, p, x, min),
            Err(e) => Err(e),
        }
    } else {
        match binary_op_at(tokens, pos) {
            Some(op) => if op_strength(op) >= min {
                match parse_expr(tokens, pos + 1, op_strength(op) + 1) {
                    Ok((right, p)) => parse_rest(
                        tokens,
                        p,
                        Expr::Binary(op, Box::new(left), Box::new(right)),
                        min,
                    ),
                    Err(e) => Err(e),
                }
            } else {
                Ok((left, pos))
            },
            None => Ok((left, pos)),
        }
    }
}

} // verus!
