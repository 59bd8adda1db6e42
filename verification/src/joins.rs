//! Joins for relationship traversals: each step along a relationship adds a
//! left outer join to the enclosing query block, once per block.

use vstd::prelude::*;
use vstd::string::*;

use crate::ast::{JoinKind, join_views, Expr, ExprView, Join, JoinView, TableRef, TableRefView};
use crate::manifest::Cardinality;
use crate::model::{
    definition_table, well_formed, AnalyzedManifest, AnalyzedView, Definition, DefinitionView,
};
use crate::qualify::{copy_expr, copy_source};
use crate::routes::{arrival, Step};
use crate::schema::{
    schema_ok, steps_within, ReferenceError, ReferenceErrorView, Schema, SchemaView,
};
use crate::text::{find_name, position, same_text, texts};

verus! {

/// A reference of a query that names nothing in the analyzed model.
#[derive(Debug, PartialEq, Eq)]
pub enum BindError {
    /// The `FROM` clause names no entity.
    UnknownEntity(String),
    /// A call names no built-in and no supplied function.
    UnknownFunction(String),
    /// A column path names an unknown relationship, entity or column.
    Reference(ReferenceError),
}

/// A query that binds but cannot be expanded.
#[derive(Debug, PartialEq, Eq)]
pub enum ExpandError {
    /// A column path asks for a route that does not exist or is not unique.
    Path(ReferenceError),
    /// A traversal to many rows outside an aggregate of a derived column
    /// would multiply the rows of the query.
    FanOut { relationship: String },
    /// An aggregate of a derived column mixes columns that are not reached
    /// through one and the same relationship.
    MixedSummary,
    /// A join condition is not made of physical columns of its entities;
    /// the conditions of an analyzed model are.
    InvalidCondition { relationship: String },
    /// Derived columns nest deeper than the fuel of an expansion allows;
    /// the depth of an analyzed model is fuel enough.
    TooDeep,
    /// The query uses a construct that cannot be rewritten: a nested block
    /// in a `FROM` or `JOIN` clause without an alias, a join condition that
    /// would need a join of its own, or a syntax tree that names a nested
    /// block it does not have or holds a rewritten subquery already.
    Unsupported,
}

/// Why a query could not be rewritten.
#[derive(Debug, PartialEq, Eq)]
pub enum RewriteError {
    Bind(BindError),
    Expand(ExpandError),
}

pub enum BindErrorView {
    UnknownEntity(Seq<char>),
    UnknownFunction(Seq<char>),
    Reference(ReferenceErrorView),
}

pub enum ExpandErrorView {
    Path(ReferenceErrorView),
    FanOut { relationship: Seq<char> },
    MixedSummary,
    InvalidCondition { relationship: Seq<char> },
    TooDeep,
    Unsupported,
}

pub enum RewriteErrorView {
    Bind(BindErrorView),
    Expand(ExpandErrorView),
}

impl View for BindError {
    type V = BindErrorView;

    open spec fn view(&self) -> BindErrorView {
        match self {
            BindError::UnknownEntity(n) => BindErrorView::UnknownEntity(n@),
            BindError::UnknownFunction(n) => BindErrorView::UnknownFunction(n@),
            BindError::Reference(e) => BindErrorView::Reference(e@),
        }
    }
}

impl View for ExpandError {
    type V = ExpandErrorView;

    open spec fn view(&self) -> ExpandErrorView {
        match self {
            ExpandError::Path(e) => ExpandErrorView::Path(e@),
            ExpandError::FanOut { relationship } => ExpandErrorView::FanOut {
                relationship: relationship@,
            },
            ExpandError::MixedSummary => ExpandErrorView::MixedSummary,
            ExpandError::InvalidCondition { relationship } => ExpandErrorView::InvalidCondition {
                relationship: relationship@,
            },
            ExpandError::TooDeep => ExpandErrorView::TooDeep,
            ExpandError::Unsupported => ExpandErrorView::Unsupported,
        }
    }
}

impl View for RewriteError {
    type V = RewriteErrorView;

    open spec fn view(&self) -> RewriteErrorView {
        match self {
            RewriteError::Bind(e) => RewriteErrorView::Bind(e@),
            RewriteError::Expand(e) => RewriteErrorView::Expand(e@),
        }
    }
}

/// The failure that a path that does not resolve stands for: a name that is
/// unknown does not bind, a route that is missing or not unique does not
/// expand.
pub open spec fn reference_failure(e: ReferenceErrorView) -> RewriteErrorView {
    match e {
        ReferenceErrorView::UnknownReference { .. } | ReferenceErrorView::UnknownColumn { .. } => {
            RewriteErrorView::Bind(BindErrorView::Reference(e))
        },
        _ => RewriteErrorView::Expand(ExpandErrorView::Path(e)),
    }
}

/// Sorts a path that does not resolve into the failures of binding and those
/// of expanding.
pub(crate) fn classify(e: ReferenceError) -> (r: RewriteError)
    ensures
        r@ == reference_failure(e@),
{
    match e {
        ReferenceError::UnknownReference { entity, name } => RewriteError::Bind(
            BindError::Reference(ReferenceError::UnknownReference { entity, name }),
        ),
        ReferenceError::UnknownColumn { entity, column } => RewriteError::Bind(
            BindError::Reference(ReferenceError::UnknownColumn { entity, column }),
        ),
        other => RewriteError::Expand(ExpandError::Path(other)),
    }
}

/// Whether the step leads from one row to possibly many.
pub open spec fn to_many(a: AnalyzedView, s: Step) -> bool {
    match a.cardinalities[s.edge as int] {
        Cardinality::OneToOne => false,
        Cardinality::OneToMany => s.forward,
        Cardinality::ManyToMany => true,
    }
}

/// The alias of the table that a traversal of `link` joins to the table
/// with the alias `alias`.
pub open spec fn joined_alias(alias: Seq<char>, link: Seq<char>) -> Seq<char> {
    alias + "__"@ + link
}

/// The error of a join condition of the relationship `edge` that is not
/// made of physical columns of its two entities.
pub open spec fn bad_condition(s: SchemaView, edge: int) -> RewriteErrorView {
    RewriteErrorView::Expand(ExpandErrorView::InvalidCondition { relationship: s.link_names[edge] })
}

/// The join condition `c` of the relationship `edge` over two table aliases:
/// each column `entity.column` becomes the physical column behind it,
/// qualified by the alias that stands for the entity.
pub open spec fn placed(
    s: SchemaView,
    defs: Seq<Seq<DefinitionView>>,
    edge: int,
    left_alias: Seq<char>,
    right_alias: Seq<char>,
    c: ExprView,
) -> Result<ExprView, RewriteErrorView>
    decreases c,
{
    match c {
        ExprView::Null | ExprView::Bool(_) | ExprView::Number(_) | ExprView::Text(_) => Ok(c),
        ExprView::Column(p) => {
            let l = s.edges[edge].left as int;
            let r = s.edges[edge].right as int;
            if p.len() != 2 {
                Err(bad_condition(s, edge))
            } else if p[0] != s.table_names[l] && p[0] != s.table_names[r] {
                Err(bad_condition(s, edge))
            } else {
                let t = if p[0] == s.table_names[l] {
                    l
                } else {
                    r
                };
                let alias = if p[0] == s.table_names[l] {
                    left_alias
                } else {
                    right_alias
                };
                match position(s.field_names[t], p[1]) {
                    None => Err(bad_condition(s, edge)),
                    Some(f) => match defs[t][f] {
                        DefinitionView::Physical(ph) => Ok(ExprView::Column(seq![alias, ph])),
                        DefinitionView::Derived(_) => Err(bad_condition(s, edge)),
                    },
                }
            }
        },
        ExprView::Not(x) => match placed(s, defs, edge, left_alias, right_alias, *x) {
            Ok(y) => Ok(ExprView::Not(Box::new(y))),
            Err(e) => Err(e),
        },
        ExprView::Negate(x) => match placed(s, defs, edge, left_alias, right_alias, *x) {
            Ok(y) => Ok(ExprView::Negate(Box::new(y))),
            Err(e) => Err(e),
        },
        ExprView::IsNull(x, n) => match placed(s, defs, edge, left_alias, right_alias, *x) {
            Ok(y) => Ok(ExprView::IsNull(Box::new(y), n)),
            Err(e) => Err(e),
        },
        ExprView::Binary(op, x, y) => match placed(s, defs, edge, left_alias, right_alias, *x) {
            Ok(x2) => match placed(s, defs, edge, left_alias, right_alias, *y) {
                Ok(y2) => Ok(ExprView::Binary(op, Box::new(x2), Box::new(y2))),
                Err(e) => Err(e),
            },
            Err(e) => Err(e),
        },
        _ => Err(bad_condition(s, edge)),
    }
}

/// The join that the step `s` adds: from the table with the alias `from` to
/// the table behind the entity where `s` arrives, under the alias `to`.
pub open spec fn join_for(a: AnalyzedView, s: Step, from: Seq<char>, to: Seq<char>) -> Result<
    JoinView,
    RewriteErrorView,
> {
    let left_alias = if s.forward {
        from
    } else {
        to
    };
    let right_alias = if s.forward {
        to
    } else {
        from
    };
    match placed(
        a.schema,
        a.definitions,
        s.edge as int,
        left_alias,
        right_alias,
        a.conditions[s.edge as int],
    ) {
        Err(e) => Err(e),
        Ok(on) => Ok(
            JoinView {
                kind: JoinKind::Left,
                table: TableRefView {
                    source: a.sources[arrival(a.schema.edges, s)],
                    alias: Some(to),
                },
                on,
            },
        ),
    }
}

/// Whether one of `joins` has the alias `alias`.
pub open spec fn has_alias(joins: Seq<JoinView>, alias: Seq<char>) -> bool {
    exists|k: int| 0 <= k < joins.len() && (#[trigger] joins[k]).table.alias == Some(alias)
}

/// The joins of a query block after the steps of `steps` from the `k`-th on
/// are walked from the table with the alias `alias`, and the alias of the
/// table where the walk ends. A join whose alias the block already has is
/// not added again. Outside an aggregate, a step to many rows is refused.
pub open spec fn walked(
    a: AnalyzedView,
    alias: Seq<char>,
    steps: Seq<Step>,
    k: int,
    summed: bool,
    joins: Seq<JoinView>,
) -> Result<(Seq<char>, Seq<JoinView>), RewriteErrorView>
    decreases steps.len() - k,
{
    if 0 <= k < steps.len() {
        let link = a.schema.link_names[steps[k].edge as int];
        if !summed && to_many(a, steps[k]) {
            Err(RewriteErrorView::Expand(ExpandErrorView::FanOut { relationship: link }))
        } else {
            let next = joined_alias(alias, link);
            if has_alias(joins, next) {
                walked(a, next, steps, k + 1, summed, joins)
            } else {
                match join_for(a, steps[k], alias, next) {
                    Err(e) => Err(e),
                    Ok(j) => walked(a, next, steps, k + 1, summed, joins.push(j)),
                }
            }
        }
    } else {
        Ok((alias, joins))
    }
}

/// Builds the alias of a joined table.
pub(crate) fn join_alias(alias: &String, link: &String) -> (r: String)
    ensures
        r@ == joined_alias(alias@, link@),
{
    let mut s = alias.clone();
    s.append("__");
    s.append(link.as_str());
    s
}

/// Whether the step leads from one row to possibly many.
pub(crate) fn leads_to_many(a: &AnalyzedManifest, s: Step) -> (r: bool)
    requires
        s.edge < a@.schema.link_names.len(),
    ensures
        r == to_many(a@, s),
{
    proof {
        use_type_invariant(a);
        a.shape();
    }
    match a.cardinalities[s.edge] {
        Cardinality::OneToOne => false,
        Cardinality::OneToMany => s.forward,
        Cardinality::ManyToMany => true,
    }
}

/// Whether every entity has a definition for each of its columns.
pub open spec fn rows_match(s: SchemaView, defs: Seq<Seq<DefinitionView>>) -> bool {
    &&& defs.len() == s.table_names.len()
    &&& forall|i: int| 0 <= i < defs.len() ==> (#[trigger] defs[i]).len() == s.field_names[i].len()
}

/// The alias that stands for the left entity when a condition is checked.
pub open spec fn left_mark() -> Seq<char> {
    "l"@
}

/// The alias that stands for the right entity when a condition is checked.
pub open spec fn right_mark() -> Seq<char> {
    "r"@
}

/// Whether every condition is made of physical columns of the two entities
/// of its relationship.
pub open spec fn conditions_sound(
    s: SchemaView,
    defs: Seq<Seq<DefinitionView>>,
    conditions: Seq<ExprView>,
) -> bool {
    forall|k: int|
        0 <= k < conditions.len() ==> placed(
            s,
            defs,
            k,
            left_mark(),
            right_mark(),
            #[trigger] conditions[k],
        ) is Ok
}

/// Places a join condition over two table aliases.
pub(crate) fn place(
    schema: &Schema,
    definitions: &Vec<Vec<Definition>>,
    edge: usize,
    left_alias: &String,
    right_alias: &String,
    c: &Expr,
) -> (r: Result<Expr, RewriteError>)
    requires
        schema_ok(schema@),
        rows_match(schema@, definition_table(definitions@)),
        edge < schema.link_names.len(),
    ensures
        match r {
            Ok(x) => placed(
                schema@,
                definition_table(definitions@),
                edge as int,
                left_alias@,
                right_alias@,
                c@,
            ) == Ok::<ExprView, RewriteErrorView>(x@),
            Err(e) => placed(
                schema@,
                definition_table(definitions@),
                edge as int,
                left_alias@,
                right_alias@,
                c@,
            ) == Err::<ExprView, RewriteErrorView>(e@),
        },
    decreases c,
{
    let ghost defs = definition_table(definitions@);
    match c {
        Expr::Null | Expr::Bool(_) | Expr::Number(_) | Expr::Text(_) => Ok(copy_expr(c)),
        Expr::Column(p) => {
            let l = schema.edges[edge].left;
            let r = schema.edges[edge].right;
            if p.len() != 2 {
                return Err(bad(schema, edge));
            }
            assert(texts(p@)[0] == p@[0]@ && texts(p@)[1] == p@[1]@);
            let on_left = same_text(p[0].as_str(), schema.table_names[l].as_str());
            let on_right = same_text(p[0].as_str(), schema.table_names[r].as_str());
            if !on_left && !on_right {
                return Err(bad(schema, edge));
            }
            let t = if on_left {
                l
            } else {
                r
            };
            assert(defs[t as int].len() == schema@.field_names[t as int].len());
            assert(defs[t as int].len() == definitions@[t as int].len());
            match find_name(&schema.field_names[t], p[1].as_str()) {
                None => Err(bad(schema, edge)),
                Some(f) => {
                    proof {
                        let names = schema@.field_names[t as int];
                        assert(crate::text::is_first(names, texts(p@)[1], f as int));
                        assert(defs[t as int][f as int] == definitions@[t as int]@[f as int]@);
                    }
                    match &definitions[t][f] {
                        Definition::Physical(ph) => {
                            let mut q: Vec<String> = Vec::new();
                            if on_left {
                                q.push(left_alias.clone());
                            } else {
                                q.push(right_alias.clone());
                            }
                            q.push(ph.clone());
                            assert(texts(q@) == seq![
                                if on_left {
                                    left_alias@
                                } else {
                                    right_alias@
                                },
                                ph@,
                            ]);
                            Ok(Expr::Column(q))
                        },
                        Definition::Derived(_) => Err(bad(schema, edge)),
                    }
                },
            }
        },
        Expr::Not(x) => match place(schema, definitions, edge, left_alias, right_alias, x) {
            Ok(y) => Ok(Expr::Not(Box::new(y))),
            Err(e) => Err(e),
        },
        Expr::Negate(x) => match place(schema, definitions, edge, left_alias, right_alias, x) {
            Ok(y) => Ok(Expr::Negate(Box::new(y))),
            Err(e) => Err(e),
        },
        Expr::IsNull(x, n) => match place(schema, definitions, edge, left_alias, right_alias, x) {
            Ok(y) => Ok(Expr::IsNull(Box::new(y), *n)),
            Err(e) => Err(e),
        },
        Expr::Binary(op, x, y) => match place(
            schema,
            definitions,
            edge,
            left_alias,
            right_alias,
            x,
        ) {
            Ok(x2) => match place(schema, definitions, edge, left_alias, right_alias, y) {
                Ok(y2) => Ok(Expr::Binary(*op, Box::new(x2), Box::new(y2))),
                Err(e) => Err(e),
            },
            Err(e) => Err(e),
        },
        _ => Err(bad(schema, edge)),
    }
}

/// The error of a join condition that cannot be placed.
pub(crate) fn bad(schema: &Schema, edge: usize) -> (r: RewriteError)
    requires
        edge < schema.link_names.len(),
    ensures
        r@ == bad_condition(schema@, edge as int),
{
    RewriteError::Expand(
        ExpandError::InvalidCondition { relationship: schema.link_names[edge].clone() },
    )
}

/// Builds the join that the step `s` adds.
pub(crate) fn make_join(a: &AnalyzedManifest, s: Step, from: &String, to: &String) -> (r: Result<
    Join,
    RewriteError,
>)
    requires
        s.edge < a@.schema.link_names.len(),
    ensures
        match r {
            Ok(j) => join_for(a@, s, from@, to@) == Ok::<JoinView, RewriteErrorView>(j@),
            Err(e) => join_for(a@, s, from@, to@) == Err::<JoinView, RewriteErrorView>(e@),
        },
{
    proof {
        use_type_invariant(a);
        a.shape();
    }
    let placed_on = if s.forward {
        place(&a.schema, &a.definitions, s.edge, from, to, &a.conditions[s.edge])
    } else {
        place(&a.schema, &a.definitions, s.edge, to, from, &a.conditions[s.edge])
    };
    match placed_on {
        Err(e) => Err(e),
        Ok(on) => {
            let target = if s.forward {
                a.schema.edges[s.edge].right
            } else {
                a.schema.edges[s.edge].left
            };
            Ok(
                Join {
                    kind: JoinKind::Left,
                    table: TableRef {
                        source: copy_source(&a.sources[target]),
                        alias: Some(to.clone()),
                    },
                    on,
                },
            )
        },
    }
}

/// Whether one of `joins` has the alias `alias`.
pub(crate) fn find_alias(joins: &Vec<Join>, alias: &String) -> (r: bool)
    ensures
        r == has_alias(join_views(joins@), alias@),
{
    let ghost v = join_views(joins@);
    let mut k: usize = 0;
    while k < joins.len()
        invariant
            k <= joins.len(),
            v == join_views(joins@),
            forall|i: int| 0 <= i < k ==> (#[trigger] v[i]).table.alias != Some(alias@),
        decreases joins.len() - k,
    {
        assert(v[k as int] == joins@[k as int]@);
        let same = match &joins[k].table.alias {
            Some(x) => same_text(x.as_str(), alias.as_str()),
            None => false,
        };
        if same {
            return true;
        }
        k += 1;
    }
    false
}

/// Walks the steps of `steps` from the `k`-th on, adding the joins that the
/// block does not have yet. Returns the alias of the table where the walk
/// ends.
pub(crate) fn walk(
    a: &AnalyzedManifest,
    alias: &String,
    steps: &Vec<Step>,
    k: usize,
    summed: bool,
    joins: &mut Vec<Join>,
) -> (r: Result<String, RewriteError>)
    requires
        steps_within(a@.schema, steps@),
    ensures
        match r {
            Ok(end) => walked(a@, alias@, steps@, k as int, summed, join_views(old(joins)@)) == Ok::<
                (Seq<char>, Seq<JoinView>),
                RewriteErrorView,
            >((end@, join_views(final(joins)@))),
            Err(e) => walked(a@, alias@, steps@, k as int, summed, join_views(old(joins)@)) == Err::<
                (Seq<char>, Seq<JoinView>),
                RewriteErrorView,
            >(e@),
        },
{
    proof {
        use_type_invariant(a);
        a.shape();
    }
    let ghost start = join_views(joins@);
    let mut cur = alias.clone();
    let mut i = k;
    while i < steps.len()
        invariant
            well_formed(a@),
            a@.schema == a.schema@,
            steps_within(a@.schema, steps@),
            start == join_views(old(joins)@),
            walked(a@, alias@, steps@, k as int, summed, start) == walked(
                a@,
                cur@,
                steps@,
                i as int,
                summed,
                join_views(joins@),
            ),
        decreases steps.len() - i,
    {
        let s = steps[i];
        assert(s.edge < a@.schema.link_names.len());
        if !summed && leads_to_many(a, s) {
            return Err(
                RewriteError::Expand(
                    ExpandError::FanOut { relationship: a.schema.link_names[s.edge].clone() },
                ),
            );
        }
        let next = join_alias(&cur, &a.schema.link_names[s.edge]);
        if !find_alias(joins, &next) {
            match make_join(a, s, &cur, &next) {
                Err(e) => {
                    return Err(e);
                },
                Ok(j) => {
                    let ghost before = join_views(joins@);
                    let ghost jv = j@;
                    joins.push(j);
                    assert(join_views(joins@) == before.push(jv));
                },
            }
        }
        cur = next;
        i += 1;
    }
    Ok(cur)
}

} // verus!
