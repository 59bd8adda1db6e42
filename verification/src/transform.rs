//! The transformation entry point: SQL text over the virtual schema becomes
//! SQL text over physical tables in the dialect of the analyzed model.

use vstd::prelude::*;

use crate::analysis::{
    choose_dialect, dialect_of, property_views, SessionProperty, SessionPropertyView,
};
use crate::functions::{signature_views, FunctionSignature, FunctionSignatureView};
use crate::depth::rewriting_is_fair;
use crate::joins::{
    BindError, BindErrorView, ExpandError, ExpandErrorView, RewriteError, RewriteErrorView,
};
use crate::lexer::{lexeme_views, meaningful_lexemes, tokenize, LexemeView, Lexeme};
use crate::model::{AnalyzedManifest, AnalyzedView};
use crate::query::{parse_select, select_of, ParseError, ParseErrorView};
use crate::render::{RenderError, RenderErrorView};
use crate::rewrite::{rewrite, rewritten};
use crate::statement::{render, rendered};

verus! {

/// Why a query could not be transformed.
#[derive(Debug, PartialEq, Eq)]
pub enum TransformError {
    /// The text is no query of the grammar.
    Parse(ParseError),
    /// A table, column or function of the query is unknown.
    Bind(BindError),
    /// A relationship path cannot be followed, or would multiply rows.
    Expand(ExpandError),
    /// The dialect cannot express a construct of the query.
    Render(RenderError),
    /// A session property asks for a dialect that is not supported.
    UnsupportedDialect(String),
}

pub enum TransformErrorView {
    Parse(ParseErrorView),
    Bind(BindErrorView),
    Expand(ExpandErrorView),
    Render(RenderErrorView),
    UnsupportedDialect(Seq<char>),
}

impl View for TransformError {
    type V = TransformErrorView;

    open spec fn view(&self) -> TransformErrorView {
        match self {
            TransformError::Parse(e) => TransformErrorView::Parse(e@),
            TransformError::Bind(e) => TransformErrorView::Bind(e@),
            TransformError::Expand(e) => TransformErrorView::Expand(e@),
            TransformError::Render(e) => TransformErrorView::Render(e@),
            TransformError::UnsupportedDialect(n) => TransformErrorView::UnsupportedDialect(n@),
        }
    }
}

/// The text that the lexemes `t` of a query are transformed to: the query
/// is parsed, rewritten over physical tables, and rendered in the dialect of
/// the analyzed model, or in the one that the session property `dialect`
/// names.
pub open spec fn transformed_lexemes(
    a: AnalyzedView,
    supplied: Seq<FunctionSignatureView>,
    props: Seq<SessionPropertyView>,
    t: Seq<LexemeView>,
) -> Result<Seq<char>, TransformErrorView> {
    match select_of(t) {
        Err(e) => Err(TransformErrorView::Parse(ParseErrorView::Syntax(e))),
        Ok(q) => match dialect_of(a.dialect, props) {
            Err(v) => Err(TransformErrorView::UnsupportedDialect(v)),
            Ok(d) => match rewritten(a, supplied, q) {
                Err(RewriteErrorView::Bind(e)) => Err(TransformErrorView::Bind(e)),
                Err(RewriteErrorView::Expand(e)) => Err(TransformErrorView::Expand(e)),
                Ok(p) => match rendered(d, p) {
                    Err(e) => Err(TransformErrorView::Render(e)),
                    Ok(text) => Ok(text),
                },
            },
        },
    }
}

/// The text that the query `sql` is transformed to.
pub open spec fn transformed(
    a: AnalyzedView,
    supplied: Seq<FunctionSignatureView>,
    props: Seq<SessionPropertyView>,
    sql: Seq<char>,
) -> Result<Seq<char>, TransformErrorView> {
    match meaningful_lexemes(sql) {
        Err(e) => Err(TransformErrorView::Parse(ParseErrorView::Lex(e))),
        Ok(t) => transformed_lexemes(a, supplied, props, t),
    }
}

/// The value of the outcome of a transformation.
pub open spec fn transform_view(r: Result<String, TransformError>) -> Result<
    Seq<char>,
    TransformErrorView,
> {
    match r {
        Ok(t) => Ok(t@),
        Err(e) => Err(e@),
    }
}

/// Transforms a query that is given by its lexemes. Over an analyzed model
/// the transformation fails only for a fault of the query: the depth of
/// the model suffices, and every join condition can be placed.
pub fn transform_lexemes(
    analyzed: &AnalyzedManifest,
    supplied: &Vec<FunctionSignature>,
    props: &Vec<SessionProperty>,
    lexemes: &Vec<Lexeme>,
) -> (r: Result<String, TransformError>)
    ensures
        transform_view(r) == transformed_lexemes(
            analyzed@,
            signature_views(supplied@),
            property_views(props@),
            lexeme_views(lexemes@),
        ),
        r matches Err(TransformError::Expand(e)) ==> !(e is TooDeep) && !(e is InvalidCondition),
{
    let q = match parse_select(lexemes) {
        Ok(q) => q,
        Err(e) => {
            return Err(TransformError::Parse(ParseError::Syntax(e)));
        },
    };
    proof {
        use_type_invariant(analyzed);
        rewriting_is_fair(analyzed@, signature_views(supplied@), q@);
    }
    let d = match choose_dialect(analyzed.dialect(), props) {
        Ok(d) => d,
        Err(v) => {
            return Err(TransformError::UnsupportedDialect(v));
        },
    };
    let p = match rewrite(analyzed, supplied, &q) {
        Ok(p) => p,
        Err(RewriteError::Bind(e)) => {
            return Err(TransformError::Bind(e));
        },
        Err(RewriteError::Expand(e)) => {
            return Err(TransformError::Expand(e));
        },
    };
    match render(d, &p) {
        Ok(text) => Ok(text),
        Err(e) => Err(TransformError::Render(e)),
    }
}

/// Transforms a query over the virtual schema into SQL text over physical
/// tables.
pub fn transform(
    analyzed: &AnalyzedManifest,
    supplied: &Vec<FunctionSignature>,
    props: &Vec<SessionProperty>,
    sql: &str,
) -> (r: Result<String, TransformError>)
    ensures
        transform_view(r) == transformed(
            analyzed@,
            signature_views(supplied@),
            property_views(props@),
            sql@,
        ),
        r matches Err(TransformError::Expand(e)) ==> !(e is TooDeep) && !(e is InvalidCondition),
{
    match tokenize(sql) {
        Err(e) => Err(TransformError::Parse(ParseError::Lex(e))),
        Ok(lexemes) => transform_lexemes(analyzed, supplied, props, &lexemes),
    }
}

} // verus!
