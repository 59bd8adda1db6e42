//! Rewriting of a query block over the virtual schema into one over
//! physical tables.

use vstd::prelude::*;

use crate::ast::{
    expr_views, join_views, opt_expr_view, opt_text, select_views, Expr, ExprView, Join, JoinView,
    OrderItem, OrderItemView, Select, SelectItem, SelectItemView, SelectView, TableRef,
    TableRefView, TableSource, TableSourceView,
};
use crate::expand::{expand, expanded, Scope, ScopeView};
use crate::functions::{signature_views, FunctionSignature, FunctionSignatureView};
use crate::joins::{
    BindError, BindErrorView, ExpandError, ExpandErrorView, RewriteError, RewriteErrorView,
};
use crate::model::{AnalyzedManifest, AnalyzedView};
use crate::qualify::{copy_alias, copy_expr, copy_source};
use crate::query::{item_views, key_views};
use crate::text::{find_name, position, same_text, texts};

verus! {

/// The entity that a table name of a query names: the entity's name alone,
/// or after the name of the schema, or after those of the catalog and the
/// schema.
pub open spec fn entity_of(a: AnalyzedView, path: Seq<Seq<char>>) -> Option<int> {
    if path.len() == 1 {
        position(a.schema.table_names, path[0])
    } else if path.len() == 2 && path[0] == a.namespace {
        position(a.schema.table_names, path[1])
    } else if path.len() == 3 && path[0] == a.catalog && path[1] == a.namespace {
        position(a.schema.table_names, path[2])
    } else {
        None
    }
}

/// A table of a query block, as column paths see it: its alias, and either
/// the entity behind it or, for a nested block, the names of the columns
/// that the block gives.
#[derive(Debug, PartialEq, Eq)]
pub struct Slot {
    pub alias: String,
    pub entity: Option<usize>,
    pub outputs: Vec<String>,
    /// Whether the table stands in a block around this one. Such a table
    /// lends its columns to a path that names it; it gives none to `*` and
    /// none to a column without a table before it.
    pub lent: bool,
}

pub struct SlotView {
    pub alias: Seq<char>,
    pub entity: Option<usize>,
    pub outputs: Seq<Seq<char>>,
    pub lent: bool,
}

impl View for Slot {
    type V = SlotView;

    open spec fn view(&self) -> SlotView {
        SlotView {
            alias: self.alias@,
            entity: self.entity,
            outputs: texts(self.outputs@),
            lent: self.lent,
        }
    }
}

/// The values of a sequence of slots.
pub open spec fn slot_views(s: Seq<Slot>) -> Seq<SlotView> {
    Seq::new(s.len(), |i: int| s[i]@)
}

/// Whether there is a slot, and every slot over an entity is over an entity
/// of the model.
pub open spec fn slots_ok(a: AnalyzedView, slots: Seq<SlotView>) -> bool {
    &&& slots.len() > 0
    &&& forall|k: int|
        0 <= k < slots.len() ==> ((#[trigger] slots[k]).entity matches Some(b) ==> b
            < a.schema.table_names.len())
}

/// The first slot from the `i`-th on with the alias `name`.
pub open spec fn slot_named(slots: Seq<SlotView>, name: Seq<char>, i: int) -> Option<int>
    decreases slots.len() - i,
{
    if 0 <= i < slots.len() {
        if slots[i].alias == name {
            Some(i)
        } else {
            slot_named(slots, name, i + 1)
        }
    } else {
        None
    }
}

/// The names of the columns that a slot gives to `*` and to a column
/// without a table before it: none, where the table stands in a block
/// around this one.
pub open spec fn slot_fields(a: AnalyzedView, slot: SlotView) -> Seq<Seq<char>> {
    if slot.lent {
        Seq::empty()
    } else {
        match slot.entity {
            Some(b) => a.schema.field_names[b as int],
            None => slot.outputs,
        }
    }
}

/// The first slot from the `i`-th on that has a column `column`.
pub open spec fn slot_with(a: AnalyzedView, slots: Seq<SlotView>, column: Seq<char>, i: int) -> Option<
    int,
>
    decreases slots.len() - i,
{
    if 0 <= i < slots.len() {
        if position(slot_fields(a, slots[i]), column) is Some {
            Some(i)
        } else {
            slot_with(a, slots, column, i + 1)
        }
    } else {
        None
    }
}

/// The slot that the column path `p` is read from: the first slot whose
/// alias is the first segment of a longer path; else, for a bare column,
/// the first slot that has it; else the first slot.
pub open spec fn chosen(a: AnalyzedView, slots: Seq<SlotView>, p: Seq<Seq<char>>) -> int {
    if p.len() >= 2 && slot_named(slots, p[0], 0) is Some {
        slot_named(slots, p[0], 0)->0
    } else if p.len() == 1 && slot_with(a, slots, p[0], 0) is Some {
        slot_with(a, slots, p[0], 0)->0
    } else {
        0
    }
}

/// Whether the path `p` names a column that the nested block behind `slot`
/// gives, alone or after the alias of the slot.
pub open spec fn reaches_output(slot: SlotView, p: Seq<Seq<char>>) -> bool {
    &&& p.len() == 1 || (p.len() == 2 && p[0] == slot.alias)
    &&& position(slot.outputs, p.last()) is Some
}

/// The error of a column that a nested block does not give.
pub open spec fn no_output(slot: SlotView, p: Seq<Seq<char>>) -> RewriteErrorView {
    crate::joins::reference_failure(
        crate::schema::ReferenceErrorView::UnknownColumn {
            entity: slot.alias,
            column: if p.len() > 0 {
                p.last()
            } else {
                Seq::empty()
            },
        },
    )
}

/// The expression `e` of a query block over physical tables, and the joins
/// of the block after those that `e` needs were added to `joins`. Each
/// column path is read from the slot that it names or that has it; over an
/// entity it is expanded, over a nested block it becomes the column of that
/// name. A call must name a known function.
pub open spec fn seated(
    a: AnalyzedView,
    supplied: Seq<FunctionSignatureView>,
    slots: Seq<SlotView>,
    fuel: nat,
    joins: Seq<JoinView>,
    e: ExprView,
) -> Result<(ExprView, Seq<JoinView>), RewriteErrorView>
    decreases e, 0int,
{
    match e {
        ExprView::Null | ExprView::Bool(_) | ExprView::Number(_) | ExprView::Text(_)
        | ExprView::Wildcard | ExprView::Subquery(_) => Ok((e, joins)),
        ExprView::Column(p) => {
            let slot = slots[chosen(a, slots, p)];
            match slot.entity {
                Some(b) => expanded(a, supplied, top_scope(b as int, slot.alias), fuel, joins, e),
                None => if reaches_output(slot, p) {
                    Ok((ExprView::Column(seq![slot.alias, p.last()]), joins))
                } else {
                    Err(no_output(slot, p))
                },
            }
        },
        ExprView::Not(x) => match seated(a, supplied, slots, fuel, joins, *x) {
            Ok((y, j)) => Ok((ExprView::Not(Box::new(y)), j)),
            Err(x) => Err(x),
        },
        ExprView::Negate(x) => match seated(a, supplied, slots, fuel, joins, *x) {
            Ok((y, j)) => Ok((ExprView::Negate(Box::new(y)), j)),
            Err(x) => Err(x),
        },
        ExprView::IsNull(x, n) => match seated(a, supplied, slots, fuel, joins, *x) {
            Ok((y, j)) => Ok((ExprView::IsNull(Box::new(y), n), j)),
            Err(x) => Err(x),
        },
        ExprView::Cast(x, t) => match seated(a, supplied, slots, fuel, joins, *x) {
            Ok((y, j)) => Ok((ExprView::Cast(Box::new(y), t), j)),
            Err(x) => Err(x),
        },
        ExprView::Binary(op, x, y) => match seated(a, supplied, slots, fuel, joins, *x) {
            Ok((x2, j)) => match seated(a, supplied, slots, fuel, j, *y) {
                Ok((y2, j2)) => Ok((ExprView::Binary(op, Box::new(x2), Box::new(y2)), j2)),
                Err(x) => Err(x),
            },
            Err(x) => Err(x),
        },
        ExprView::Call(name, distinct, args) => match crate::functions::function_kind(
            supplied,
            name,
        ) {
            None => Err(RewriteErrorView::Bind(BindErrorView::UnknownFunction(name))),
            Some(_) => match seated_from(a, supplied, slots, fuel, joins, args, 0, Seq::empty()) {
                Ok((list, j)) => Ok((ExprView::Call(name, distinct, list), j)),
                Err(x) => Err(x),
            },
        },
        ExprView::Nary(op, args) => match seated_from(
            a,
            supplied,
            slots,
            fuel,
            joins,
            args,
            0,
            Seq::empty(),
        ) {
            Ok((list, j)) => Ok((ExprView::Nary(op, list), j)),
            Err(x) => Err(x),
        },
        ExprView::Summary { .. } => Err(RewriteErrorView::Expand(ExpandErrorView::Unsupported)),
    }
}

/// The expressions of `list` from the `i`-th on over physical tables, in
/// order after those in `acc`, and the joins after all of them.
pub open spec fn seated_from(
    a: AnalyzedView,
    supplied: Seq<FunctionSignatureView>,
    slots: Seq<SlotView>,
    fuel: nat,
    joins: Seq<JoinView>,
    list: Seq<ExprView>,
    i: int,
    acc: Seq<ExprView>,
) -> Result<(Seq<ExprView>, Seq<JoinView>), RewriteErrorView>
    decreases list, list.len() - i,
{
    if 0 <= i < list.len() {
        match seated(a, supplied, slots, fuel, joins, list[i]) {
            Ok((x, j)) => seated_from(a, supplied, slots, fuel, j, list, i + 1, acc.push(x)),
            Err(x) => Err(x),
        }
    } else {
        Ok((acc, joins))
    }
}

/// The scope of the expansion of a column of the entity `t`, which the
/// query block calls `alias`.
pub open spec fn top_scope(t: int, alias: Seq<char>) -> ScopeView {
    ScopeView { base: t, alias, skip: None, aliased: Some(alias), inner: false, summed: false }
}

/// The name under which a select item appears in the result: its alias, or
/// for a bare column the name of the column.
pub open spec fn output_alias(item: SelectItemView) -> Option<Seq<char>> {
    match item.alias {
        Some(x) => Some(x),
        None => match item.expr {
            ExprView::Column(p) => if p.len() > 0 {
                Some(p.last())
            } else {
                None
            },
            _ => None,
        },
    }
}

/// The columns of the slots from the `f`-th column of the `k`-th slot on as
/// select items, each under its own name, after the items in `acc`.
pub open spec fn fields_from(
    a: AnalyzedView,
    supplied: Seq<FunctionSignatureView>,
    slots: Seq<SlotView>,
    fuel: nat,
    joins: Seq<JoinView>,
    k: int,
    f: int,
    acc: Seq<SelectItemView>,
) -> Result<(Seq<SelectItemView>, Seq<JoinView>), RewriteErrorView>
    decreases slots.len() - k, slot_fields(a, slots[k]).len() - f,
{
    if 0 <= k < slots.len() {
        let names = slot_fields(a, slots[k]);
        if 0 <= f < names.len() {
            match seated(
                a,
                supplied,
                slots,
                fuel,
                joins,
                ExprView::Column(seq![slots[k].alias, names[f]]),
            ) {
                Ok((x, j)) => fields_from(
                    a,
                    supplied,
                    slots,
                    fuel,
                    j,
                    k,
                    f + 1,
                    acc.push(SelectItemView { expr: x, alias: Some(names[f]) }),
                ),
                Err(e) => Err(e),
            }
        } else {
            fields_from(a, supplied, slots, fuel, joins, k + 1, 0, acc)
        }
    } else {
        Ok((acc, joins))
    }
}

/// The slots with all but the `k`-th lent: only the `k`-th gives columns to
/// a wildcard.
pub open spec fn only(slots: Seq<SlotView>, k: int) -> Seq<SlotView> {
    Seq::new(
        slots.len(),
        |i: int|
            if i == k {
                slots[i]
            } else {
                SlotView { lent: true, ..slots[i] }
            },
    )
}

/// The error of a wildcard over a table that the block does not have.
pub open spec fn no_table(name: Seq<char>) -> RewriteErrorView {
    RewriteErrorView::Bind(BindErrorView::UnknownEntity(name))
}

/// The select items of `items` from the `i`-th on, expanded after those in
/// `acc`. A bare `*` stands for all columns of the entity.
pub open spec fn items_from(
    a: AnalyzedView,
    supplied: Seq<FunctionSignatureView>,
    slots: Seq<SlotView>,
    fuel: nat,
    joins: Seq<JoinView>,
    items: Seq<SelectItemView>,
    i: int,
    acc: Seq<SelectItemView>,
) -> Result<(Seq<SelectItemView>, Seq<JoinView>), RewriteErrorView>
    decreases items.len() - i,
{
    if 0 <= i < items.len() {
        if items[i].expr is Wildcard && items[i].alias is None {
            match fields_from(a, supplied, slots, fuel, joins, 0, 0, acc) {
                Ok((acc2, j)) => items_from(a, supplied, slots, fuel, j, items, i + 1, acc2),
                Err(e) => Err(e),
            }
        } else if items[i].expr is Wildcard {
            let name = items[i].alias->0;
            match slot_named(slots, name, 0) {
                Some(k) => if 0 <= k < slots.len() && !slots[k].lent {
                    match fields_from(a, supplied, only(slots, k), fuel, joins, 0, 0, acc) {
                        Ok((acc2, j)) => items_from(
                            a,
                            supplied,
                            slots,
                            fuel,
                            j,
                            items,
                            i + 1,
                            acc2,
                        ),
                        Err(e) => Err(e),
                    }
                } else {
                    Err(no_table(name))
                },
                None => Err(no_table(name)),
            }
        } else {
            match seated(a, supplied, slots, fuel, joins, items[i].expr) {
                Ok((x, j)) => items_from(a, supplied, slots,
                    fuel,
                    j,
                    items,
                    i + 1,
                    acc.push(SelectItemView { expr: x, alias: output_alias(items[i]) }),
                ),
                Err(e) => Err(e),
            }
        }
    } else {
        Ok((acc, joins))
    }
}

/// The aliases that the select items of `items` from the `i`-th on give,
/// after those in `acc`.
pub open spec fn aliases_from(items: Seq<SelectItemView>, i: int, acc: Seq<Seq<char>>) -> Seq<
    Seq<char>,
>
    decreases items.len() - i,
{
    if 0 <= i < items.len() {
        match items[i].alias {
            Some(x) => aliases_from(items, i + 1, acc.push(x)),
            None => aliases_from(items, i + 1, acc),
        }
    } else {
        acc
    }
}

/// Whether a sort key is the bare name of an alias of the select list.
pub open spec fn is_alias(aliases: Seq<Seq<char>>, e: ExprView) -> bool {
    e matches ExprView::Column(p) && p.len() == 1 && position(aliases, p[0]) is Some
}

/// A sort key, expanded. The bare name of an alias of the select list
/// stands for the item of that alias and is kept as it is.
pub open spec fn expanded_key(
    a: AnalyzedView,
    supplied: Seq<FunctionSignatureView>,
    slots: Seq<SlotView>,
    fuel: nat,
    joins: Seq<JoinView>,
    aliases: Seq<Seq<char>>,
    e: ExprView,
) -> Result<(ExprView, Seq<JoinView>), RewriteErrorView> {
    if is_alias(aliases, e) {
        Ok((e, joins))
    } else {
        seated(a, supplied, slots, fuel, joins, e)
    }
}

/// The sort keys of `keys` from the `i`-th on, expanded after those in `acc`.
pub open spec fn sort_keys_from(
    a: AnalyzedView,
    supplied: Seq<FunctionSignatureView>,
    slots: Seq<SlotView>,
    fuel: nat,
    joins: Seq<JoinView>,
    aliases: Seq<Seq<char>>,
    keys: Seq<OrderItemView>,
    i: int,
    acc: Seq<OrderItemView>,
) -> Result<(Seq<OrderItemView>, Seq<JoinView>), RewriteErrorView>
    decreases keys.len() - i,
{
    if 0 <= i < keys.len() {
        match expanded_key(a, supplied, slots, fuel, joins, aliases, keys[i].expr) {
            Ok((x, j)) => sort_keys_from(a, supplied, slots,
                fuel,
                j,
                aliases,
                keys,
                i + 1,
                acc.push(OrderItemView { expr: x, descending: keys[i].descending }),
            ),
            Err(e) => Err(e),
        }
    } else {
        Ok((acc, joins))
    }
}

/// An optional expression, expanded.
pub open spec fn expanded_opt(
    a: AnalyzedView,
    supplied: Seq<FunctionSignatureView>,
    slots: Seq<SlotView>,
    fuel: nat,
    joins: Seq<JoinView>,
    e: Option<ExprView>,
) -> Result<(Option<ExprView>, Seq<JoinView>), RewriteErrorView> {
    match e {
        None => Ok((None, joins)),
        Some(x) => match seated(a, supplied, slots, fuel, joins, x) {
            Ok((y, j)) => Ok((Some(y), j)),
            Err(e) => Err(e),
        },
    }
}

/// The error of a `FROM` clause that names no entity.
pub open spec fn no_entity(source: TableSourceView) -> RewriteErrorView {
    RewriteErrorView::Bind(
        BindErrorView::UnknownEntity(
            match source {
                TableSourceView::Named(p) => if p.len() > 0 {
                    p.last()
                } else {
                    Seq::empty()
                },
                TableSourceView::Raw(_) | TableSourceView::Block(_) => Seq::empty(),
            },
        ),
    )
}

/// The slot of a table reference: over the entity that it names, under its
/// alias or else the name of the entity; or over a nested block, which needs
/// an alias, with the aliases of the items of the rewritten block.
pub open spec fn slot_of(a: AnalyzedView, blocks: Seq<SelectView>, t: TableRefView) -> Result<
    SlotView,
    RewriteErrorView,
> {
    match t.source {
        TableSourceView::Named(path) => match entity_of(a, path) {
            None => Err(no_entity(t.source)),
            Some(b) => Ok(
                SlotView {
                    alias: match t.alias {
                        Some(x) => x,
                        None => a.schema.table_names[b],
                    },
                    entity: Some(b as usize),
                    outputs: Seq::empty(),
                    lent: false,
                },
            ),
        },
        TableSourceView::Block(k) => if k < blocks.len() && t.alias is Some {
            Ok(
                SlotView {
                    alias: t.alias->0,
                    entity: None,
                    outputs: aliases_from(blocks[k as int].items, 0, Seq::empty()),
                    lent: false,
                },
            )
        } else {
            Err(RewriteErrorView::Expand(ExpandErrorView::Unsupported))
        },
        TableSourceView::Raw(_) => Err(no_entity(t.source)),
    }
}

/// The slots of the joined tables from the `i`-th join on, after those in
/// `acc`.
pub open spec fn slots_from(
    a: AnalyzedView,
    blocks: Seq<SelectView>,
    joins: Seq<JoinView>,
    i: int,
    acc: Seq<SlotView>,
) -> Result<Seq<SlotView>, RewriteErrorView>
    decreases joins.len() - i,
{
    if 0 <= i < joins.len() {
        match slot_of(a, blocks, joins[i].table) {
            Ok(x) => slots_from(a, blocks, joins, i + 1, acc.push(x)),
            Err(e) => Err(e),
        }
    } else {
        Ok(acc)
    }
}

/// The table behind a slot: the source of its entity, or the nested block
/// as the query names it, under the alias of the slot.
pub open spec fn table_of(a: AnalyzedView, t: TableRefView, slot: SlotView) -> TableRefView {
    TableRefView {
        source: match slot.entity {
            Some(b) => a.sources[b as int],
            None => t.source,
        },
        alias: Some(slot.alias),
    }
}

/// The joins that the query block brings from the `i`-th on, over physical
/// tables, after those in `acc`. A condition must not need a join of its
/// own.
pub open spec fn joined_from(
    a: AnalyzedView,
    supplied: Seq<FunctionSignatureView>,
    slots: Seq<SlotView>,
    joins: Seq<JoinView>,
    i: int,
    acc: Seq<JoinView>,
) -> Result<Seq<JoinView>, RewriteErrorView>
    decreases joins.len() - i,
{
    if 0 <= i < joins.len() {
        match seated(a, supplied, slots, a.depth, Seq::empty(), joins[i].on) {
            Err(e) => Err(e),
            Ok((on, extra)) => if extra.len() > 0 {
                Err(RewriteErrorView::Expand(ExpandErrorView::Unsupported))
            } else {
                joined_from(
                    a,
                    supplied,
                    slots,
                    joins,
                    i + 1,
                    acc.push(
                        JoinView {
                            kind: joins[i].kind,
                            table: table_of(a, joins[i].table, slots[i + 1]),
                            on,
                        },
                    ),
                )
            },
        }
    } else {
        Ok(acc)
    }
}

/// The clauses of the query block `q` over the slots `slots`, in the order
/// joins, select items, `WHERE`, `GROUP BY`, `HAVING`, `ORDER BY`. The joins
/// that the block brings come first, then those that relationships add.
pub open spec fn rewritten_over(
    a: AnalyzedView,
    supplied: Seq<FunctionSignatureView>,
    q: SelectView,
    blocks: Seq<SelectView>,
    slots: Seq<SlotView>,
) -> Result<SelectView, RewriteErrorView> {
    match joined_from(a, supplied, slots, q.joins, 0, Seq::empty()) {
        Err(e) => Err(e),
        Ok(brought) => match items_from(
            a,
            supplied,
            slots,
            a.depth,
            Seq::empty(),
            q.items,
            0,
            Seq::empty(),
        ) {
            Err(e) => Err(e),
            Ok((items, j1)) => match expanded_opt(a, supplied, slots, a.depth, j1, q.filter) {
                Err(e) => Err(e),
                Ok((filter, j2)) => match seated_from(
                    a,
                    supplied,
                    slots,
                    a.depth,
                    j2,
                    q.group_by,
                    0,
                    Seq::empty(),
                ) {
                    Err(e) => Err(e),
                    Ok((group_by, j3)) => match expanded_opt(
                        a,
                        supplied,
                        slots,
                        a.depth,
                        j3,
                        q.having,
                    ) {
                        Err(e) => Err(e),
                        Ok((having, j4)) => match sort_keys_from(
                            a,
                            supplied,
                            slots,
                            a.depth,
                            j4,
                            aliases_from(q.items, 0, Seq::empty()),
                            q.order_by,
                            0,
                            Seq::empty(),
                        ) {
                            Err(e) => Err(e),
                            Ok((order_by, j5)) => Ok(
                                SelectView {
                                    distinct: q.distinct,
                                    items,
                                    from: table_of(a, q.from, slots[0]),
                                    joins: brought + j5,
                                    filter,
                                    group_by,
                                    having,
                                    order_by,
                                    limit: q.limit,
                                    offset: q.offset,
                                    blocks,
                                    union_with: q.union_with,
                                },
                            ),
                        },
                    },
                },
            },
        },
    }
}

/// Whether every slot over an entity is over an entity of the model.
pub open spec fn slots_within(a: AnalyzedView, slots: Seq<SlotView>) -> bool {
    forall|k: int|
        0 <= k < slots.len() ==> ((#[trigger] slots[k]).entity matches Some(b) ==> b
            < a.schema.table_names.len())
}

/// The slot that a table reference lends to the blocks nested in its block:
/// the one over the entity that it names, if it names one.
pub open spec fn lent_slot(a: AnalyzedView, t: TableRefView) -> Option<SlotView> {
    match slot_of(a, Seq::empty(), t) {
        Ok(x) => if x.entity is Some {
            Some(SlotView { lent: true, ..x })
        } else {
            None
        },
        Err(_) => None,
    }
}

/// The slots that the joined tables from the `i`-th join on lend, after
/// those in `acc`.
pub open spec fn lent_from(a: AnalyzedView, joins: Seq<JoinView>, i: int, acc: Seq<SlotView>) -> Seq<
    SlotView,
>
    decreases joins.len() - i,
{
    if 0 <= i < joins.len() {
        match lent_slot(a, joins[i].table) {
            Some(x) => lent_from(a, joins, i + 1, acc.push(x)),
            None => lent_from(a, joins, i + 1, acc),
        }
    } else {
        acc
    }
}

/// The slots that the query block `q` lends to the blocks nested in it: one
/// for each entity in its `FROM` and `JOIN` clauses, in order.
pub open spec fn lent_slots(a: AnalyzedView, q: SelectView) -> Seq<SlotView> {
    lent_from(
        a,
        q.joins,
        0,
        match lent_slot(a, q.from) {
            Some(x) => seq![x],
            None => Seq::empty(),
        },
    )
}

/// The blocks of `blocks` from the `i`-th on, rewritten after those in
/// `acc`, each with the slots `outer` of the blocks around it.
pub open spec fn rewritten_blocks(
    a: AnalyzedView,
    supplied: Seq<FunctionSignatureView>,
    outer: Seq<SlotView>,
    blocks: Seq<SelectView>,
    i: int,
    acc: Seq<SelectView>,
) -> Result<Seq<SelectView>, RewriteErrorView>
    decreases blocks, blocks.len() - i,
{
    if 0 <= i < blocks.len() {
        match rewritten_in(a, supplied, outer, blocks[i]) {
            Ok(x) => rewritten_blocks(a, supplied, outer, blocks, i + 1, acc.push(x)),
            Err(e) => Err(e),
        }
    } else {
        Ok(acc)
    }
}

/// The query block `q` over physical tables, where `outer` are the slots
/// that the blocks around it lend. Its nested blocks are rewritten first,
/// with the slots that `q` lends before those of `outer`. Then every table
/// reference of `q` gets its slot, and the clauses are rewritten over these
/// slots and then those of `outer`: a path that names no table of the
/// block can name one of a block around it.
pub open spec fn rewritten_in(
    a: AnalyzedView,
    supplied: Seq<FunctionSignatureView>,
    outer: Seq<SlotView>,
    q: SelectView,
) -> Result<SelectView, RewriteErrorView>
    decreases q, 0int,
{
    match rewritten_blocks(a, supplied, lent_slots(a, q) + outer, q.blocks, 0, Seq::empty()) {
        Err(e) => Err(e),
        Ok(blocks) => match slot_of(a, blocks, q.from) {
            Err(e) => Err(e),
            Ok(first) => match slots_from(a, blocks, q.joins, 0, seq![first]) {
                Err(e) => Err(e),
                Ok(slots) => rewritten_over(a, supplied, q, blocks, slots + outer),
            },
        },
    }
}

/// The query block `q` over physical tables, with no block around it.
pub open spec fn rewritten(
    a: AnalyzedView,
    supplied: Seq<FunctionSignatureView>,
    q: SelectView,
) -> Result<SelectView, RewriteErrorView> {
    rewritten_in(a, supplied, Seq::empty(), q)
}

/// Finds the entity that a table name of a query names.
pub(crate) fn find_entity(a: &AnalyzedManifest, path: &Vec<String>) -> (r: Option<usize>)
    ensures
        match r {
            Some(t) => entity_of(a@, texts(path@)) == Some(t as int) && t
                < a@.schema.table_names.len(),
            None => entity_of(a@, texts(path@)) is None,
        },
{
    proof {
        use_type_invariant(a);
        a.shape();
    }
    let ghost p = texts(path@);
    let found = if path.len() == 1 {
        assert(p[0] == path@[0]@);
        find_name(&a.schema.table_names, path[0].as_str())
    } else if path.len() == 2 && same_text(path[0].as_str(), a.namespace.as_str()) {
        assert(p[0] == path@[0]@ && p[1] == path@[1]@);
        find_name(&a.schema.table_names, path[1].as_str())
    } else if path.len() == 3 && same_text(path[0].as_str(), a.catalog.as_str()) && same_text(
        path[1].as_str(),
        a.namespace.as_str(),
    ) {
        assert(p[0] == path@[0]@ && p[1] == path@[1]@ && p[2] == path@[2]@);
        find_name(&a.schema.table_names, path[2].as_str())
    } else {
        assert(path.len() >= 1 ==> p[0] == path@[0]@);
        assert(path.len() >= 2 ==> p[1] == path@[1]@);
        None
    };
    found
}

/// The error of a `FROM` clause that names no entity.
pub(crate) fn unknown_entity(source: &TableSource) -> (r: RewriteError)
    ensures
        r@ == no_entity(source@),
{
    match source {
        TableSource::Named(p) => if p.len() > 0 {
            assert(texts(p@).last() == p@[p.len() - 1]@);
            RewriteError::Bind(BindError::UnknownEntity(p[p.len() - 1].clone()))
        } else {
            RewriteError::Bind(BindError::UnknownEntity(String::new()))
        },
        TableSource::Raw(_) | TableSource::Block(_) => RewriteError::Bind(
            BindError::UnknownEntity(String::new()),
        ),
    }
}

/// The name under which a select item appears in the result.
pub(crate) fn item_alias(item: &SelectItem) -> (r: Option<String>)
    ensures
        opt_text(r) == output_alias(item@),
{
    match &item.alias {
        Some(x) => Some(x.clone()),
        None => match &item.expr {
            Expr::Column(p) => if p.len() > 0 {
                assert(texts(p@).last() == p@[p.len() - 1]@);
                Some(p[p.len() - 1].clone())
            } else {
                None
            },
            _ => None,
        },
    }
}

/// Finds the first slot with the alias `name`.
pub(crate) fn find_slot_named(slots: &Vec<Slot>, name: &str) -> (r: Option<usize>)
    ensures
        match r {
            Some(k) => slot_named(slot_views(slots@), name@, 0) == Some(k as int) && k
                < slots.len(),
            None => slot_named(slot_views(slots@), name@, 0) is None,
        },
{
    let ghost v = slot_views(slots@);
    let mut i: usize = 0;
    while i < slots.len()
        invariant
            i <= slots.len(),
            v == slot_views(slots@),
            slot_named(v, name@, 0) == slot_named(v, name@, i as int),
        decreases slots.len() - i,
    {
        assert(v[i as int] == slots@[i as int]@);
        if same_text(slots[i].alias.as_str(), name) {
            return Some(i);
        }
        i += 1;
    }
    None
}

/// Finds the first slot that has a column `column`.
pub(crate) fn find_slot_with(a: &AnalyzedManifest, slots: &Vec<Slot>, column: &str) -> (r: Option<
    usize,
>)
    requires
        slots_ok(a@, slot_views(slots@)),
    ensures
        match r {
            Some(k) => slot_with(a@, slot_views(slots@), column@, 0) == Some(k as int) && k
                < slots.len(),
            None => slot_with(a@, slot_views(slots@), column@, 0) is None,
        },
{
    proof {
        use_type_invariant(a);
        a.shape();
    }
    let ghost v = slot_views(slots@);
    let mut i: usize = 0;
    while i < slots.len()
        invariant
            i <= slots.len(),
            v == slot_views(slots@),
            slots_ok(a@, v),
            a@.schema == a.schema@,
            crate::model::well_formed(a@),
            slot_with(a@, v, column@, 0) == slot_with(a@, v, column@, i as int),
        decreases slots.len() - i,
    {
        assert(v[i as int] == slots@[i as int]@);
        let has = if slots[i].lent {
            assert(texts(Seq::<String>::empty()) == Seq::<Seq<char>>::empty());
            let nothing: Vec<String> = Vec::new();
            assert(texts(nothing@) == Seq::<Seq<char>>::empty());
            find_name(&nothing, column).is_some()
        } else {
            match slots[i].entity {
                Some(b) => find_name(&a.schema.field_names[b], column).is_some(),
                None => find_name(&slots[i].outputs, column).is_some(),
            }
        };
        if has {
            return Some(i);
        }
        i += 1;
    }
    None
}

/// Rewrites the expression `e` of a query block over the slots, adding the
/// joins that it needs to `joins`.
pub fn seat_expr(
    a: &AnalyzedManifest,
    supplied: &Vec<FunctionSignature>,
    slots: &Vec<Slot>,
    joins: &mut Vec<Join>,
    e: &Expr,
) -> (r: Result<Expr, RewriteError>)
    requires
        slots_ok(a@, slot_views(slots@)),
    ensures
        match r {
            Ok(x) => seated(
                a@,
                signature_views(supplied@),
                slot_views(slots@),
                a@.depth,
                join_views(old(joins)@),
                e@,
            ) == Ok::<(ExprView, Seq<JoinView>), RewriteErrorView>(
                (x@, join_views(final(joins)@)),
            ),
            Err(x) => seated(
                a@,
                signature_views(supplied@),
                slot_views(slots@),
                a@.depth,
                join_views(old(joins)@),
                e@,
            ) == Err::<(ExprView, Seq<JoinView>), RewriteErrorView>(x@),
        },
    decreases e, 0int,
{
    proof {
        use_type_invariant(a);
        a.shape();
    }
    let ghost v = slot_views(slots@);
    match e {
        Expr::Null | Expr::Bool(_) | Expr::Number(_) | Expr::Text(_) | Expr::Wildcard
        | Expr::Subquery(_) => Ok(copy_expr(e)),
        Expr::Column(p) => {
            let ghost pv = texts(p@);
            assert(p.len() >= 1 ==> pv[0] == p@[0]@);
            assert(p.len() >= 1 ==> pv.last() == p@[p.len() - 1]@);
            let named = if p.len() >= 2 {
                find_slot_named(slots, p[0].as_str())
            } else {
                None
            };
            let k = match named {
                Some(k) => k,
                None => {
                    let with = if p.len() == 1 {
                        find_slot_with(a, slots, p[0].as_str())
                    } else {
                        None
                    };
                    match with {
                        Some(k) => k,
                        None => 0,
                    }
                },
            };
            assert(k as int == chosen(a@, v, pv));
            assert(v[k as int] == slots@[k as int]@);
            match slots[k].entity {
                Some(b) => {
                    let sc = Scope {
                        base: b,
                        alias: slots[k].alias.clone(),
                        skip: None,
                        aliased: Some(slots[k].alias.clone()),
                        inner: false,
                        summed: false,
                    };
                    assert(sc@ == top_scope(b as int, v[k as int].alias));
                    expand(a, supplied, &sc, a.depth, joins, e)
                },
                None => {
                    let reaches = (p.len() == 1 || (p.len() == 2 && same_text(
                        p[0].as_str(),
                        slots[k].alias.as_str(),
                    ))) && find_name(&slots[k].outputs, p[p.len() - 1].as_str()).is_some();
                    if reaches {
                        let mut q: Vec<String> = Vec::new();
                        q.push(slots[k].alias.clone());
                        q.push(p[p.len() - 1].clone());
                        assert(texts(q@) == seq![v[k as int].alias, pv.last()]);
                        Ok(Expr::Column(q))
                    } else {
                        let column = if p.len() > 0 {
                            p[p.len() - 1].clone()
                        } else {
                            String::new()
                        };
                        Err(
                            crate::joins::classify(
                                crate::schema::ReferenceError::UnknownColumn {
                                    entity: slots[k].alias.clone(),
                                    column,
                                },
                            ),
                        )
                    }
                },
            }
        },
        Expr::Not(x) => match seat_expr(a, supplied, slots, joins, x) {
            Ok(y) => Ok(Expr::Not(Box::new(y))),
            Err(x) => Err(x),
        },
        Expr::Negate(x) => match seat_expr(a, supplied, slots, joins, x) {
            Ok(y) => Ok(Expr::Negate(Box::new(y))),
            Err(x) => Err(x),
        },
        Expr::IsNull(x, n) => match seat_expr(a, supplied, slots, joins, x) {
            Ok(y) => Ok(Expr::IsNull(Box::new(y), *n)),
            Err(x) => Err(x),
        },
        Expr::Cast(x, t) => match seat_expr(a, supplied, slots, joins, x) {
            Ok(y) => Ok(Expr::Cast(Box::new(y), t.clone())),
            Err(x) => Err(x),
        },
        Expr::Binary(op, x, y) => match seat_expr(a, supplied, slots, joins, x) {
            Ok(x2) => match seat_expr(a, supplied, slots, joins, y) {
                Ok(y2) => Ok(Expr::Binary(*op, Box::new(x2), Box::new(y2))),
                Err(x) => Err(x),
            },
            Err(x) => Err(x),
        },
        Expr::Call(name, distinct, args) => {
            assert(decreases_to!(*e => (*e)->Call_2));
            match crate::functions::find_function(supplied, name.as_str()) {
                None => Err(RewriteError::Bind(BindError::UnknownFunction(name.clone()))),
                Some(_) => match seat_list(a, supplied, slots, joins, args) {
                    Ok(list) => Ok(Expr::Call(name.clone(), *distinct, list)),
                    Err(x) => Err(x),
                },
            }
        },
        Expr::Nary(op, args) => {
            assert(decreases_to!(*e => (*e)->Nary_1));
            match seat_list(a, supplied, slots, joins, args) {
                Ok(list) => Ok(Expr::Nary(*op, list)),
                Err(x) => Err(x),
            }
        },
        Expr::Summary { .. } => Err(RewriteError::Expand(ExpandError::Unsupported)),
    }
}

/// Rewrites the expressions of `list` over the slots in order, adding the
/// joins that they need to `joins`.
pub(crate) fn seat_list(
    a: &AnalyzedManifest,
    supplied: &Vec<FunctionSignature>,
    slots: &Vec<Slot>,
    joins: &mut Vec<Join>,
    list: &Vec<Expr>,
) -> (r: Result<Vec<Expr>, RewriteError>)
    requires
        slots_ok(a@, slot_views(slots@)),
    ensures
        match r {
            Ok(x) => seated_from(
                a@,
                signature_views(supplied@),
                slot_views(slots@),
                a@.depth,
                join_views(old(joins)@),
                expr_views(list@),
                0,
                Seq::empty(),
            ) == Ok::<(Seq<ExprView>, Seq<JoinView>), RewriteErrorView>(
                (expr_views(x@), join_views(final(joins)@)),
            ),
            Err(x) => seated_from(
                a@,
                signature_views(supplied@),
                slot_views(slots@),
                a@.depth,
                join_views(old(joins)@),
                expr_views(list@),
                0,
                Seq::empty(),
            ) == Err::<(Seq<ExprView>, Seq<JoinView>), RewriteErrorView>(x@),
        },
    decreases list, 1int,
{
    let ghost v = expr_views(list@);
    let ghost sigs = signature_views(supplied@);
    let ghost start = join_views(joins@);
    let mut out: Vec<Expr> = Vec::new();
    let mut i: usize = 0;
    assert(expr_views(out@) == Seq::<ExprView>::empty());
    while i < list.len()
        invariant
            i <= list.len(),
            slots_ok(a@, slot_views(slots@)),
            v == expr_views(list@),
            sigs == signature_views(supplied@),
            start == join_views(old(joins)@),
            seated_from(a@, sigs, slot_views(slots@), a@.depth, start, v, 0, Seq::empty())
                == seated_from(
                a@,
                sigs,
                slot_views(slots@),
                a@.depth,
                join_views(joins@),
                v,
                i as int,
                expr_views(out@),
            ),
        decreases list.len() - i,
    {
        assert(decreases_to!(*list => list@) && decreases_to!(list@ => list@[i as int]));
        match seat_expr(a, supplied, slots, joins, &list[i]) {
            Ok(x) => {
                let ghost before = expr_views(out@);
                let ghost xv = x@;
                out.push(x);
                assert(expr_views(out@) == before.push(xv));
            },
            Err(x) => {
                return Err(x);
            },
        }
        i += 1;
    }
    Ok(out)
}

/// Rewrites all columns of all slots into select items.
pub(crate) fn expand_fields(
    a: &AnalyzedManifest,
    supplied: &Vec<FunctionSignature>,
    slots: &Vec<Slot>,
    joins: &mut Vec<Join>,
    out: &mut Vec<SelectItem>,
) -> (r: Result<(), RewriteError>)
    requires
        slots_ok(a@, slot_views(slots@)),
    ensures
        match r {
            Ok(_) => fields_from(
                a@,
                signature_views(supplied@),
                slot_views(slots@),
                a@.depth,
                join_views(old(joins)@),
                0,
                0,
                item_views(old(out)@),
            ) == Ok::<(Seq<SelectItemView>, Seq<JoinView>), RewriteErrorView>(
                (item_views(final(out)@), join_views(final(joins)@)),
            ),
            Err(e) => fields_from(
                a@,
                signature_views(supplied@),
                slot_views(slots@),
                a@.depth,
                join_views(old(joins)@),
                0,
                0,
                item_views(old(out)@),
            ) == Err::<(Seq<SelectItemView>, Seq<JoinView>), RewriteErrorView>(e@),
        },
{
    proof {
        use_type_invariant(a);
        a.shape();
    }
    let ghost sigs = signature_views(supplied@);
    let ghost v = slot_views(slots@);
    let ghost goal = fields_from(
        a@,
        sigs,
        v,
        a@.depth,
        join_views(joins@),
        0,
        0,
        item_views(out@),
    );
    let mut k: usize = 0;
    while k < slots.len()
        invariant
            k <= slots.len(),
            v == slot_views(slots@),
            sigs == signature_views(supplied@),
            slots_ok(a@, v),
            a@.schema == a.schema@,
            crate::model::well_formed(a@),
            goal == fields_from(
                a@,
                signature_views(supplied@),
                slot_views(slots@),
                a@.depth,
                join_views(old(joins)@),
                0,
                0,
                item_views(old(out)@),
            ),
            goal == fields_from(a@, sigs, v, a@.depth, join_views(joins@), k as int, 0, item_views(out@)),
        decreases slots.len() - k,
    {
        assert(v[k as int] == slots@[k as int]@);
        let ghost names = slot_fields(a@, v[k as int]);
        let count = if slots[k].lent {
            0
        } else {
            match slots[k].entity {
                Some(b) => a.schema.field_names[b].len(),
                None => slots[k].outputs.len(),
            }
        };
        let mut f: usize = 0;
        while f < count
            invariant
                f <= count,
                k < slots.len(),
                v == slot_views(slots@),
                v[k as int] == slots@[k as int]@,
                sigs == signature_views(supplied@),
                slots_ok(a@, v),
                a@.schema == a.schema@,
                crate::model::well_formed(a@),
                names == slot_fields(a@, v[k as int]),
                count == names.len(),
                goal == fields_from(
                    a@,
                    signature_views(supplied@),
                    slot_views(slots@),
                    a@.depth,
                    join_views(old(joins)@),
                    0,
                    0,
                    item_views(old(out)@),
                ),
                goal == fields_from(
                    a@,
                    sigs,
                    v,
                    a@.depth,
                    join_views(joins@),
                    k as int,
                    f as int,
                    item_views(out@),
                ),
            decreases count - f,
        {
            let name = match slots[k].entity {
                Some(b) => {
                    assert(a@.schema.field_names[b as int] == texts(a.schema.field_names@[b as int]@));
                    a.schema.field_names[b][f].clone()
                },
                None => slots[k].outputs[f].clone(),
            };
            assert(name@ == names[f as int]);
            let mut path: Vec<String> = Vec::new();
            path.push(slots[k].alias.clone());
            path.push(name.clone());
            assert(texts(path@) == seq![v[k as int].alias, names[f as int]]);
            let column = Expr::Column(path);
            match seat_expr(a, supplied, slots, joins, &column) {
                Ok(x) => {
                    let ghost before = item_views(out@);
                    let item = SelectItem { expr: x, alias: Some(name) };
                    let ghost iv = item@;
                    out.push(item);
                    assert(item_views(out@) == before.push(iv));
                },
                Err(e) => {
                    return Err(e);
                },
            }
            f += 1;
        }
        k += 1;
    }
    Ok(())
}

/// Copies the slots and lends all but the `k`-th.
pub(crate) fn single_out(a: &AnalyzedManifest, slots: &Vec<Slot>, k: usize) -> (r: Vec<Slot>)
    requires
        k < slots.len(),
        slots_ok(a@, slot_views(slots@)),
    ensures
        slot_views(r@) == only(slot_views(slots@), k as int),
        slots_ok(a@, slot_views(r@)),
{
    let ghost v = slot_views(slots@);
    let mut out: Vec<Slot> = Vec::new();
    let mut i: usize = 0;
    while i < slots.len()
        invariant
            i <= slots.len(),
            out.len() == i,
            v == slot_views(slots@),
            forall|x: int| 0 <= x < i ==> (#[trigger] out@[x])@ == only(v, k as int)[x],
        decreases slots.len() - i,
    {
        assert(v[i as int] == slots@[i as int]@);
        let c = copy_slot(&slots[i]);
        if i == k {
            out.push(c);
        } else {
            out.push(Slot { alias: c.alias, entity: c.entity, outputs: c.outputs, lent: true });
        }
        i += 1;
    }
    assert(slot_views(out@) =~= only(v, k as int));
    out
}

/// Expands the select items of a query block.
pub(crate) fn expand_items(
    a: &AnalyzedManifest,
    supplied: &Vec<FunctionSignature>,
    slots: &Vec<Slot>,
    joins: &mut Vec<Join>,
    items: &Vec<SelectItem>,
) -> (r: Result<Vec<SelectItem>, RewriteError>)
    requires
        slots_ok(a@, slot_views(slots@)),
    ensures
        match r {
            Ok(v) => items_from(a@, signature_views(supplied@), slot_views(slots@),
                a@.depth,
                join_views(old(joins)@),
                item_views(items@),
                0,
                Seq::empty(),
            ) == Ok::<(Seq<SelectItemView>, Seq<JoinView>), RewriteErrorView>(
                (item_views(v@), join_views(final(joins)@)),
            ),
            Err(e) => items_from(a@, signature_views(supplied@), slot_views(slots@),
                a@.depth,
                join_views(old(joins)@),
                item_views(items@),
                0,
                Seq::empty(),
            ) == Err::<(Seq<SelectItemView>, Seq<JoinView>), RewriteErrorView>(e@),
        },
{
    proof {
        use_type_invariant(a);
        a.shape();
    }
    let ghost sigs = signature_views(supplied@);
    let ghost v = item_views(items@);
    let mut out: Vec<SelectItem> = Vec::new();
    assert(item_views(out@) == Seq::<SelectItemView>::empty());
    let mut i: usize = 0;
    while i < items.len()
        invariant
            i <= items.len(),
            slots_ok(a@, slot_views(slots@)),
            a@.depth == a.depth,
            sigs == signature_views(supplied@),
            v == item_views(items@),
            items_from(a@, sigs, slot_views(slots@), a@.depth, join_views(old(joins)@), v, 0, Seq::empty())
                == items_from(a@, sigs, slot_views(slots@),
                a@.depth,
                join_views(joins@),
                v,
                i as int,
                item_views(out@),
            ),
        decreases items.len() - i,
    {
        assert(v[i as int] == items@[i as int]@);
        let star = match (&items[i].expr, &items[i].alias) {
            (Expr::Wildcard, None) => true,
            _ => false,
        };
        let of_one = match (&items[i].expr, &items[i].alias) {
            (Expr::Wildcard, Some(_)) => true,
            _ => false,
        };
        if star {
            match expand_fields(a, supplied, slots, joins, &mut out) {
                Ok(_) => {},
                Err(e) => {
                    return Err(e);
                },
            }
        } else if of_one {
            let name = match &items[i].alias {
                Some(n) => n.clone(),
                None => String::new(),
            };
            match find_slot_named(slots, name.as_str()) {
                Some(k) => if !slots[k].lent {
                    let one = single_out(a, slots, k);
                    match expand_fields(a, supplied, &one, joins, &mut out) {
                        Ok(_) => {},
                        Err(e) => {
                            return Err(e);
                        },
                    }
                } else {
                    return Err(RewriteError::Bind(BindError::UnknownEntity(name)));
                },
                None => {
                    return Err(RewriteError::Bind(BindError::UnknownEntity(name)));
                },
            }
        } else {
            match seat_expr(a, supplied, slots, joins, &items[i].expr) {
                Ok(x) => {
                    let ghost before = item_views(out@);
                    let item = SelectItem { expr: x, alias: item_alias(&items[i]) };
                    let ghost iv = item@;
                    out.push(item);
                    assert(item_views(out@) == before.push(iv));
                },
                Err(e) => {
                    return Err(e);
                },
            }
        }
        i += 1;
    }
    Ok(out)
}

/// The aliases that the select items give.
pub(crate) fn collect_aliases(items: &Vec<SelectItem>) -> (r: Vec<String>)
    ensures
        texts(r@) == aliases_from(item_views(items@), 0, Seq::empty()),
{
    let ghost v = item_views(items@);
    let mut out: Vec<String> = Vec::new();
    let mut i: usize = 0;
    assert(texts(out@) == Seq::<Seq<char>>::empty());
    while i < items.len()
        invariant
            i <= items.len(),
            v == item_views(items@),
            aliases_from(v, 0, Seq::empty()) == aliases_from(v, i as int, texts(out@)),
        decreases items.len() - i,
    {
        assert(v[i as int] == items@[i as int]@);
        match &items[i].alias {
            Some(x) => {
                let ghost before = texts(out@);
                out.push(x.clone());
                assert(texts(out@) == before.push(x@));
            },
            None => {},
        }
        i += 1;
    }
    out
}

/// Whether a sort key is the bare name of an alias of the select list.
pub(crate) fn names_alias(aliases: &Vec<String>, e: &Expr) -> (r: bool)
    ensures
        r == is_alias(texts(aliases@), e@),
{
    match e {
        Expr::Column(p) => {
            if p.len() == 1 {
                assert(texts(p@)[0] == p@[0]@);
                find_name(aliases, p[0].as_str()).is_some()
            } else {
                false
            }
        },
        _ => false,
    }
}

/// Expands the sort keys of a query block.
pub(crate) fn expand_keys(
    a: &AnalyzedManifest,
    supplied: &Vec<FunctionSignature>,
    slots: &Vec<Slot>,
    joins: &mut Vec<Join>,
    aliases: &Vec<String>,
    keys: &Vec<OrderItem>,
) -> (r: Result<Vec<OrderItem>, RewriteError>)
    requires
        slots_ok(a@, slot_views(slots@)),
    ensures
        match r {
            Ok(v) => sort_keys_from(a@, signature_views(supplied@), slot_views(slots@),
                a@.depth,
                join_views(old(joins)@),
                texts(aliases@),
                key_views(keys@),
                0,
                Seq::empty(),
            ) == Ok::<(Seq<OrderItemView>, Seq<JoinView>), RewriteErrorView>(
                (key_views(v@), join_views(final(joins)@)),
            ),
            Err(e) => sort_keys_from(a@, signature_views(supplied@), slot_views(slots@),
                a@.depth,
                join_views(old(joins)@),
                texts(aliases@),
                key_views(keys@),
                0,
                Seq::empty(),
            ) == Err::<(Seq<OrderItemView>, Seq<JoinView>), RewriteErrorView>(e@),
        },
{
    proof {
        use_type_invariant(a);
        a.shape();
    }
    let ghost sigs = signature_views(supplied@);
    let ghost v = key_views(keys@);
    let mut out: Vec<OrderItem> = Vec::new();
    assert(key_views(out@) == Seq::<OrderItemView>::empty());
    let mut i: usize = 0;
    while i < keys.len()
        invariant
            i <= keys.len(),
            slots_ok(a@, slot_views(slots@)),
            a@.depth == a.depth,
            sigs == signature_views(supplied@),
            v == key_views(keys@),
            sort_keys_from(a@, sigs, slot_views(slots@),
                a@.depth,
                join_views(old(joins)@),
                texts(aliases@),
                v,
                0,
                Seq::empty(),
            ) == sort_keys_from(a@, sigs, slot_views(slots@),
                a@.depth,
                join_views(joins@),
                texts(aliases@),
                v,
                i as int,
                key_views(out@),
            ),
        decreases keys.len() - i,
    {
        assert(v[i as int] == keys@[i as int]@);
        let kept = if names_alias(aliases, &keys[i].expr) {
            Ok(crate::qualify::copy_expr(&keys[i].expr))
        } else {
            seat_expr(a, supplied, slots, joins, &keys[i].expr)
        };
        match kept {
            Ok(x) => {
                let ghost before = key_views(out@);
                let key = OrderItem { expr: x, descending: keys[i].descending };
                let ghost kv = key@;
                out.push(key);
                assert(key_views(out@) == before.push(kv));
            },
            Err(e) => {
                return Err(e);
            },
        }
        i += 1;
    }
    Ok(out)
}

/// Expands an optional expression.
pub(crate) fn expand_opt(
    a: &AnalyzedManifest,
    supplied: &Vec<FunctionSignature>,
    slots: &Vec<Slot>,
    joins: &mut Vec<Join>,
    e: &Option<Expr>,
) -> (r: Result<Option<Expr>, RewriteError>)
    requires
        slots_ok(a@, slot_views(slots@)),
    ensures
        match r {
            Ok(v) => expanded_opt(a@, signature_views(supplied@), slot_views(slots@),
                a@.depth,
                join_views(old(joins)@),
                opt_expr_view(*e),
            ) == Ok::<(Option<ExprView>, Seq<JoinView>), RewriteErrorView>(
                (opt_expr_view(v), join_views(final(joins)@)),
            ),
            Err(x) => expanded_opt(a@, signature_views(supplied@), slot_views(slots@),
                a@.depth,
                join_views(old(joins)@),
                opt_expr_view(*e),
            ) == Err::<(Option<ExprView>, Seq<JoinView>), RewriteErrorView>(x@),
        },
{
    proof {
        use_type_invariant(a);
        a.shape();
    }
    match e {
        None => Ok(None),
        Some(x) => match seat_expr(a, supplied, slots, joins, x) {
            Ok(y) => Ok(Some(y)),
            Err(e) => Err(e),
        },
    }
}

/// Makes the slot of a table reference.
pub(crate) fn make_slot(a: &AnalyzedManifest, blocks: &Vec<Select>, t: &TableRef) -> (r: Result<
    Slot,
    RewriteError,
>)
    ensures
        match r {
            Ok(x) => slot_of(a@, select_views(blocks@), t@) == Ok::<SlotView, RewriteErrorView>(x@)
                && (x.entity matches Some(b) ==> b < a@.schema.table_names.len()),
            Err(e) => slot_of(a@, select_views(blocks@), t@) == Err::<SlotView, RewriteErrorView>(
                e@,
            ),
        },
{
    proof {
        use_type_invariant(a);
        a.shape();
    }
    match &t.source {
        TableSource::Named(path) => match find_entity(a, path) {
            None => Err(unknown_entity(&t.source)),
            Some(b) => {
                let alias = match &t.alias {
                    Some(x) => x.clone(),
                    None => a.schema.table_names[b].clone(),
                };
                let outputs: Vec<String> = Vec::new();
                assert(texts(outputs@) == Seq::<Seq<char>>::empty());
                Ok(Slot { alias, entity: Some(b), outputs, lent: false })
            },
        },
        TableSource::Block(k) => {
            if *k < blocks.len() {
                match &t.alias {
                    Some(x) => {
                        assert(select_views(blocks@)[*k as int] == blocks@[*k as int]@);
                        assert(blocks@[*k as int]@.items == item_views(blocks@[*k as int].items@));
                        Ok(
                            Slot {
                                alias: x.clone(),
                                entity: None,
                                outputs: collect_aliases(&blocks[*k].items),
                                lent: false,
                            },
                        )
                    },
                    None => Err(RewriteError::Expand(ExpandError::Unsupported)),
                }
            } else {
                Err(RewriteError::Expand(ExpandError::Unsupported))
            }
        },
        TableSource::Raw(_) => Err(unknown_entity(&t.source)),
    }
}

/// The table behind a slot.
pub(crate) fn table_for(a: &AnalyzedManifest, t: &TableRef, slot: &Slot) -> (r: TableRef)
    requires
        slot.entity matches Some(b) ==> b < a@.schema.table_names.len(),
    ensures
        r@ == table_of(a@, t@, slot@),
{
    proof {
        use_type_invariant(a);
        a.shape();
    }
    let source = match slot.entity {
        Some(b) => copy_source(&a.sources[b]),
        None => copy_source(&t.source),
    };
    TableRef { source, alias: Some(slot.alias.clone()) }
}

/// A copy of a slot.
pub(crate) fn copy_slot(s: &Slot) -> (r: Slot)
    ensures
        r@ == s@,
{
    Slot {
        alias: s.alias.clone(),
        entity: s.entity,
        outputs: crate::qualify::copy_names(&s.outputs),
        lent: s.lent,
    }
}

/// Adds copies of the slots `outer` to `slots`.
pub(crate) fn with_outer(a: &AnalyzedManifest, slots: Vec<Slot>, outer: &Vec<Slot>) -> (r: Vec<Slot>)
    requires
        slots_within(a@, slot_views(slots@)),
        slots_within(a@, slot_views(outer@)),
    ensures
        slot_views(r@) == slot_views(slots@) + slot_views(outer@),
        slots_within(a@, slot_views(r@)),
{
    let ghost first = slot_views(slots@);
    let ghost ov = slot_views(outer@);
    let mut out = slots;
    let mut i: usize = 0;
    while i < outer.len()
        invariant
            i <= outer.len(),
            ov == slot_views(outer@),
            slot_views(out@) == first + ov.take(i as int),
        decreases outer.len() - i,
    {
        let ghost before = slot_views(out@);
        let c = copy_slot(&outer[i]);
        assert(c@ == ov[i as int]);
        out.push(c);
        assert(slot_views(out@) == before.push(ov[i as int]));
        assert(ov.take(i + 1) == ov.take(i as int).push(ov[i as int]));
        i += 1;
    }
    assert(ov.take(outer.len() as int) == ov);
    proof {
        let all = slot_views(out@);
        assert forall|k: int| 0 <= k < all.len() implies ((#[trigger] all[k]).entity matches Some(
            b,
        ) ==> b < a@.schema.table_names.len()) by {
            if k < first.len() {
                assert(all[k] == first[k]);
            } else {
                assert(all[k] == ov[k - first.len()]);
            }
        }
    }
    out
}

/// The slot that a table reference lends to the blocks nested in its block.
pub(crate) fn lend(a: &AnalyzedManifest, t: &TableRef) -> (r: Option<Slot>)
    ensures
        match r {
            Some(x) => lent_slot(a@, t@) == Some(x@) && (x.entity matches Some(b) ==> b
                < a@.schema.table_names.len()),
            None => lent_slot(a@, t@) is None,
        },
{
    let none: Vec<Select> = Vec::new();
    assert(select_views(none@) == Seq::<SelectView>::empty());
    match make_slot(a, &none, t) {
        Ok(x) => if x.entity.is_some() {
            Some(Slot { alias: x.alias, entity: x.entity, outputs: x.outputs, lent: true })
        } else {
            None
        },
        Err(_) => None,
    }
}

/// The slots that a query block lends to the blocks nested in it.
pub(crate) fn lend_slots(a: &AnalyzedManifest, q: &Select) -> (r: Vec<Slot>)
    ensures
        slot_views(r@) == lent_slots(a@, q@),
        slots_within(a@, slot_views(r@)),
{
    let ghost joins = join_views(q.joins@);
    assert(q@.joins == joins);
    let mut out: Vec<Slot> = Vec::new();
    assert(slot_views(out@) == Seq::<SlotView>::empty());
    match lend(a, &q.from) {
        Some(x) => {
            let ghost xv = x@;
            out.push(x);
            assert(slot_views(out@) == seq![xv]);
        },
        None => {},
    }
    let mut i: usize = 0;
    while i < q.joins.len()
        invariant
            i <= q.joins.len(),
            joins == join_views(q.joins@),
            slots_within(a@, slot_views(out@)),
            lent_slots(a@, q@) == lent_from(a@, joins, i as int, slot_views(out@)),
        decreases q.joins.len() - i,
    {
        assert(joins[i as int] == q.joins@[i as int]@);
        match lend(a, &q.joins[i].table) {
            Some(x) => {
                let ghost before = slot_views(out@);
                let ghost xv = x@;
                out.push(x);
                assert(slot_views(out@) == before.push(xv));
                assert forall|k: int| 0 <= k < slot_views(out@).len() implies ((
                #[trigger] slot_views(out@)[k]).entity matches Some(b) ==> b
                    < a@.schema.table_names.len()) by {
                    if k < before.len() {
                        assert(slot_views(out@)[k] == before[k]);
                    }
                }
            },
            None => {},
        }
        i += 1;
    }
    out
}

/// Rewrites nested blocks, each with the slots of the blocks around it.
pub(crate) fn rewrite_blocks(
    a: &AnalyzedManifest,
    supplied: &Vec<FunctionSignature>,
    outer: &Vec<Slot>,
    list: &Vec<Select>,
) -> (r: Result<Vec<Select>, RewriteError>)
    requires
        slots_within(a@, slot_views(outer@)),
    ensures
        match r {
            Ok(x) => rewritten_blocks(
                a@,
                signature_views(supplied@),
                slot_views(outer@),
                select_views(list@),
                0,
                Seq::empty(),
            ) == Ok::<Seq<SelectView>, RewriteErrorView>(select_views(x@)),
            Err(e) => rewritten_blocks(
                a@,
                signature_views(supplied@),
                slot_views(outer@),
                select_views(list@),
                0,
                Seq::empty(),
            ) == Err::<Seq<SelectView>, RewriteErrorView>(e@),
        },
    decreases list, 1int,
{
    let ghost ov = slot_views(outer@);
    let ghost sigs = signature_views(supplied@);
    let ghost v = select_views(list@);
    let mut blocks: Vec<Select> = Vec::new();
    assert(select_views(blocks@) == Seq::<SelectView>::empty());
    let mut k: usize = 0;
    while k < list.len()
        invariant
            k <= list.len(),
            sigs == signature_views(supplied@),
            v == select_views(list@),
            ov == slot_views(outer@),
            slots_within(a@, ov),
            rewritten_blocks(a@, sigs, ov, v, 0, Seq::empty()) == rewritten_blocks(
                a@,
                sigs,
                ov,
                v,
                k as int,
                select_views(blocks@),
            ),
        decreases list.len() - k,
    {
        assert(decreases_to!(*list => list@) && decreases_to!(list@ => list@[k as int]));
        assert(v[k as int] == list@[k as int]@);
        match rewrite_in(a, supplied, outer, &list[k]) {
            Ok(x) => {
                let ghost before = select_views(blocks@);
                let ghost xv = x@;
                blocks.push(x);
                assert(select_views(blocks@) == before.push(xv));
            },
            Err(e) => {
                return Err(e);
            },
        }
        k += 1;
    }
    Ok(blocks)
}

/// Makes the slots of the tables of a query block.
pub(crate) fn make_slots(a: &AnalyzedManifest, blocks: &Vec<Select>, q: &Select) -> (r: Result<
    Vec<Slot>,
    RewriteError,
>)
    ensures
        match r {
            Ok(x) => slot_of(a@, select_views(blocks@), q.from@) is Ok && slots_from(
                a@,
                select_views(blocks@),
                join_views(q.joins@),
                0,
                seq![slot_of(a@, select_views(blocks@), q.from@)->Ok_0],
            ) == Ok::<Seq<SlotView>, RewriteErrorView>(slot_views(x@)) && slots_ok(
                a@,
                slot_views(x@),
            ) && x.len() == q.joins.len() + 1,
            Err(e) => match slot_of(a@, select_views(blocks@), q.from@) {
                Err(x) => x == e@,
                Ok(first) => slots_from(
                    a@,
                    select_views(blocks@),
                    join_views(q.joins@),
                    0,
                    seq![first],
                ) == Err::<Seq<SlotView>, RewriteErrorView>(e@),
            },
        },
{
    let first = match make_slot(a, blocks, &q.from) {
        Ok(x) => x,
        Err(e) => {
            return Err(e);
        },
    };
    let ghost joins = join_views(q.joins@);
    let mut slots: Vec<Slot> = Vec::new();
    let ghost fv = first@;
    slots.push(first);
    assert(slot_views(slots@) == seq![fv]);
    let mut i: usize = 0;
    while i < q.joins.len()
        invariant
            i <= q.joins.len(),
            slots.len() == i + 1,
            joins == join_views(q.joins@),
            slots_ok(a@, slot_views(slots@)),
            slot_of(a@, select_views(blocks@), q.from@) == Ok::<SlotView, RewriteErrorView>(fv),
            slots_from(a@, select_views(blocks@), joins, 0, seq![fv]) == slots_from(
                a@,
                select_views(blocks@),
                joins,
                i as int,
                slot_views(slots@),
            ),
        decreases q.joins.len() - i,
    {
        assert(joins[i as int] == q.joins@[i as int]@);
        match make_slot(a, blocks, &q.joins[i].table) {
            Ok(x) => {
                let ghost before = slot_views(slots@);
                let ghost xv = x@;
                slots.push(x);
                assert(slot_views(slots@) == before.push(xv));
            },
            Err(e) => {
                return Err(e);
            },
        }
        i += 1;
    }
    Ok(slots)
}

/// Rewrites the joins that a query block brings.
pub(crate) fn bring_joins(
    a: &AnalyzedManifest,
    supplied: &Vec<FunctionSignature>,
    slots: &Vec<Slot>,
    list: &Vec<Join>,
) -> (r: Result<Vec<Join>, RewriteError>)
    requires
        slots_ok(a@, slot_views(slots@)),
        slots.len() >= list.len() + 1,
    ensures
        match r {
            Ok(x) => joined_from(
                a@,
                signature_views(supplied@),
                slot_views(slots@),
                join_views(list@),
                0,
                Seq::empty(),
            ) == Ok::<Seq<JoinView>, RewriteErrorView>(join_views(x@)),
            Err(e) => joined_from(
                a@,
                signature_views(supplied@),
                slot_views(slots@),
                join_views(list@),
                0,
                Seq::empty(),
            ) == Err::<Seq<JoinView>, RewriteErrorView>(e@),
        },
{
    let ghost sigs = signature_views(supplied@);
    let ghost sv = slot_views(slots@);
    let ghost joins = join_views(list@);
    let mut brought: Vec<Join> = Vec::new();
    assert(join_views(brought@) == Seq::<JoinView>::empty());
    let mut i: usize = 0;
    while i < list.len()
        invariant
            i <= list.len(),
            slots.len() >= list.len() + 1,
            sv == slot_views(slots@),
            sigs == signature_views(supplied@),
            joins == join_views(list@),
            slots_ok(a@, sv),
            joined_from(a@, sigs, sv, joins, 0, Seq::empty()) == joined_from(
                a@,
                sigs,
                sv,
                joins,
                i as int,
                join_views(brought@),
            ),
        decreases list.len() - i,
    {
        assert(joins[i as int] == list@[i as int]@);
        assert(sv[i + 1] == slots@[i + 1]@);
        let mut extra: Vec<Join> = Vec::new();
        assert(join_views(extra@) == Seq::<JoinView>::empty());
        match seat_expr(a, supplied, slots, &mut extra, &list[i].on) {
            Err(e) => {
                return Err(e);
            },
            Ok(on) => {
                assert(join_views(extra@).len() == extra.len());
                if extra.len() > 0 {
                    return Err(RewriteError::Expand(ExpandError::Unsupported));
                }
                let ghost before = join_views(brought@);
                let j = Join {
                    kind: list[i].kind,
                    table: table_for(a, &list[i].table, &slots[i + 1]),
                    on,
                };
                let ghost jv = j@;
                brought.push(j);
                assert(join_views(brought@) == before.push(jv));
            },
        }
        i += 1;
    }
    Ok(brought)
}

/// Rewrites a query block over the virtual schema into one over physical
/// tables.
pub fn rewrite(a: &AnalyzedManifest, supplied: &Vec<FunctionSignature>, q: &Select) -> (r: Result<
    Select,
    RewriteError,
>)
    ensures
        match r {
            Ok(s) => rewritten(a@, signature_views(supplied@), q@) == Ok::<
                SelectView,
                RewriteErrorView,
            >(s@),
            Err(e) => rewritten(a@, signature_views(supplied@), q@) == Err::<
                SelectView,
                RewriteErrorView,
            >(e@),
        },
{
    let outer: Vec<Slot> = Vec::new();
    assert(slot_views(outer@) == Seq::<SlotView>::empty());
    rewrite_in(a, supplied, &outer, q)
}

/// Rewrites a query block that stands in other blocks, whose tables are
/// the slots `outer`.
pub(crate) fn rewrite_in(
    a: &AnalyzedManifest,
    supplied: &Vec<FunctionSignature>,
    outer: &Vec<Slot>,
    q: &Select,
) -> (r: Result<Select, RewriteError>)
    requires
        slots_within(a@, slot_views(outer@)),
    ensures
        match r {
            Ok(s) => rewritten_in(a@, signature_views(supplied@), slot_views(outer@), q@) == Ok::<
                SelectView,
                RewriteErrorView,
            >(s@),
            Err(e) => rewritten_in(a@, signature_views(supplied@), slot_views(outer@), q@) == Err::<
                SelectView,
                RewriteErrorView,
            >(e@),
        },
    decreases q, 0int,
{
    let ghost sigs = signature_views(supplied@);
    let ghost qv = q@;
    assert(qv.blocks == select_views(q.blocks@));
    assert(qv.joins == join_views(q.joins@));
    assert(qv.items == item_views(q.items@));
    assert(qv.order_by == key_views(q.order_by@));
    assert(qv.group_by == expr_views(q.group_by@));
    assert(decreases_to!(*q => q.blocks));
    let lent = with_outer(a, lend_slots(a, q), outer);
    let blocks = match rewrite_blocks(a, supplied, &lent, &q.blocks) {
        Ok(x) => x,
        Err(e) => {
            return Err(e);
        },
    };
    let own = match make_slots(a, &blocks, q) {
        Ok(x) => x,
        Err(e) => {
            return Err(e);
        },
    };
    let ghost first = slot_views(own@);
    let slots = with_outer(a, own, outer);
    let ghost sv = slot_views(slots@);
    assert(sv[0] == first[0]);
    assert(slots_ok(a@, sv));
    let mut brought = match bring_joins(a, supplied, &slots, &q.joins) {
        Ok(x) => x,
        Err(e) => {
            return Err(e);
        },
    };
    let mut joins: Vec<Join> = Vec::new();
    assert(join_views(joins@) == Seq::<JoinView>::empty());
    let items = match expand_items(a, supplied, &slots, &mut joins, &q.items) {
        Ok(x) => x,
        Err(e) => {
            return Err(e);
        },
    };
    let filter = match expand_opt(a, supplied, &slots, &mut joins, &q.filter) {
        Ok(x) => x,
        Err(e) => {
            return Err(e);
        },
    };
    let group_by = match seat_list(a, supplied, &slots, &mut joins, &q.group_by) {
        Ok(x) => x,
        Err(e) => {
            return Err(e);
        },
    };
    let having = match expand_opt(a, supplied, &slots, &mut joins, &q.having) {
        Ok(x) => x,
        Err(e) => {
            return Err(e);
        },
    };
    let aliases = collect_aliases(&q.items);
    let order_by = match expand_keys(a, supplied, &slots, &mut joins, &aliases, &q.order_by) {
        Ok(x) => x,
        Err(e) => {
            return Err(e);
        },
    };
    let ghost bv = join_views(brought@);
    let ghost jv = join_views(joins@);
    brought.append(&mut joins);
    assert(join_views(brought@) == bv + jv);
    assert(sv[0] == slots@[0]@);
    let out = Select {
        distinct: q.distinct,
        items,
        from: table_for(a, &q.from, &slots[0]),
        joins: brought,
        filter,
        group_by,
        having,
        order_by,
        limit: copy_alias(&q.limit),
        offset: copy_alias(&q.offset),
        blocks,
        union_with: q.union_with,
    };
    assert(out@.items == item_views(out.items@));
    assert(out@.order_by == key_views(out.order_by@));
    assert(out@.blocks == select_views(out.blocks@));
    assert(out@.joins == join_views(out.joins@));
    assert(out@.group_by == expr_views(out.group_by@));
    Ok(out)
}

} // verus!
