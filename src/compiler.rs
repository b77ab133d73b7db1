use vstd::prelude::*;
use crate::query::{
    ComparisonOperator, PredicateExpr, QueryError, QueryExpr, RowOperand, RowPredicate, TableOp, Transaction,
    TransactionOp, TransactionType,
};
use crate::table::TableCatalog;
use crate::value::{text_eq, Value, ValueV};
use crate::exec::{cell, compare_holds, operand_value, pred_holds};

verus! {

broadcast use vstd::std_specs::vec::axiom_vec_index_decreases;

/// The size of an expression counted through `let` bindings only.
pub open spec fn binding_size(e: QueryExpr) -> nat
    decreases e,
{
    match e {
        QueryExpr::Binding { value, body, .. } => 1 + binding_size(*value) + binding_size(*body),
        _ => 1,
    }
}

/// The sizes of the bound expressions of a scope.
pub open spec fn scope_size(s: Seq<(&String, &QueryExpr)>) -> nat
    decreases s.len(),
{
    if s.len() == 0 {
        0
    } else {
        scope_size(s.drop_last()) + binding_size(*s.last().1)
    }
}

proof fn lemma_scope_prefix(s: Seq<(&String, &QueryExpr)>, k: int)
    requires
        0 <= k < s.len(),
    ensures
        scope_size(s.take(k)) + binding_size(*s[k].1) <= scope_size(s),
    decreases s.len(),
{
    if k + 1 < s.len() {
        assert(s.drop_last().take(k) =~= s.take(k));
        lemma_scope_prefix(s.drop_last(), k);
    } else {
        assert(s.drop_last() =~= s.take(k));
    }
}

/// Whether the catalog has a table named `table` with a column `column`,
/// and that column's id.
pub open spec fn column_of(catalog: TableCatalog, table: Seq<char>, column: Seq<char>) -> Option<usize> {
    if catalog.has_table(table) {
        let i = choose|i: int| 0 <= i < catalog.tables@.len() && (#[trigger] catalog.tables@[i]).name@ == table;
        catalog.tables@[i].info.column_index_spec(column)
    } else {
        None
    }
}

fn single(op: TableOp) -> (r: Vec<TableOp>)
    ensures
        r@ == seq![op],
{
    let mut v: Vec<TableOp> = Vec::new();
    v.push(op);
    assert(v@ =~= seq![op]);
    v
}

/// An operand of a condition compiles when it is a literal or a column of
/// the table.
pub open spec fn operand_compiles(catalog: TableCatalog, table: Seq<char>, e: QueryExpr) -> bool {
    match e {
        QueryExpr::Column(c) => column_of(catalog, table, c@).is_some(),
        QueryExpr::Literal(_) => true,
        _ => false,
    }
}

/// The value of an operand on row `t`.
pub open spec fn operand_on(catalog: TableCatalog, table: Seq<char>, e: QueryExpr, t: Seq<ValueV>) -> ValueV {
    match e {
        QueryExpr::Column(c) => cell(t, column_of(catalog, table, c@).unwrap() as int),
        QueryExpr::Literal(v) => v@,
        _ => ValueV::Null,
    }
}

/// Whether `e` equals one of the first `n` items on row `t`.
pub open spec fn in_prefix(catalog: TableCatalog, table: Seq<char>, e: QueryExpr, items: Seq<QueryExpr>, n: int, t: Seq<ValueV>) -> bool
    decreases n,
{
    if n <= 0 {
        false
    } else {
        in_prefix(catalog, table, e, items, n - 1, t) || compare_holds(
            operand_on(catalog, table, e, t),
            ComparisonOperator::Eq,
            operand_on(catalog, table, items[n - 1], t),
        )
    }
}

/// Whether a condition holds of row `t`.
pub open spec fn pred_eval(catalog: TableCatalog, table: Seq<char>, p: PredicateExpr, t: Seq<ValueV>) -> bool
    decreases p,
{
    match p {
        PredicateExpr::Comparison { left, op, right } => compare_holds(
            operand_on(catalog, table, left, t),
            op,
            operand_on(catalog, table, right, t),
        ),
        PredicateExpr::And(a, b) => pred_eval(catalog, table, *a, t) && pred_eval(catalog, table, *b, t),
        PredicateExpr::Or(a, b) => pred_eval(catalog, table, *a, t) || pred_eval(catalog, table, *b, t),
        PredicateExpr::Not(a) => !pred_eval(catalog, table, *a, t),
        PredicateExpr::IsNull(e) => operand_on(catalog, table, e, t) is Null,
        PredicateExpr::IsNotNull(e) => !(operand_on(catalog, table, e, t) is Null),
        PredicateExpr::In(e, items) => in_prefix(catalog, table, e, items@, items@.len() as int, t),
        PredicateExpr::Exists(_) => false,
    }
}

/// A condition compiles when every column it names exists.
pub open spec fn pred_compiles(catalog: TableCatalog, table: Seq<char>, p: PredicateExpr) -> bool
    decreases p,
{
    match p {
        PredicateExpr::Comparison { left, right, .. } => operand_compiles(catalog, table, left) && operand_compiles(catalog, table, right),
        PredicateExpr::And(a, b) => pred_compiles(catalog, table, *a) && pred_compiles(catalog, table, *b),
        PredicateExpr::Or(a, b) => pred_compiles(catalog, table, *a) && pred_compiles(catalog, table, *b),
        PredicateExpr::Not(a) => pred_compiles(catalog, table, *a),
        PredicateExpr::IsNull(e) => operand_compiles(catalog, table, e),
        PredicateExpr::IsNotNull(e) => operand_compiles(catalog, table, e),
        PredicateExpr::In(e, items) => operand_compiles(catalog, table, e) && items_compile(catalog, table, items@),
        PredicateExpr::Exists(_) => false,
    }
}

/// Every item of an `In` list compiles.
pub open spec fn items_compile(catalog: TableCatalog, table: Seq<char>, items: Seq<QueryExpr>) -> bool {
    forall|k: int| 0 <= k < items.len() ==> operand_compiles(catalog, table, #[trigger] items[k])
}

/// `vals` are the fields of the record `value` by column id: each field's
/// literal under the id of the column it names.
pub open spec fn row_values(catalog: TableCatalog, table: Seq<char>, value: QueryExpr, vals: Seq<(u32, Value)>) -> bool {
    &&& value is Instance
    &&& vals.len() == value->Instance_0@.len()
    &&& forall|k: int|
        0 <= k < vals.len() ==> ({
            let (n, e) = value->Instance_0@[k];
            &&& column_of(catalog, table, n@) == Some((#[trigger] vals[k]).0 as usize)
            &&& (e matches QueryExpr::Literal(v) && v@ == vals[k].1@)
        })
}

/// The table a transaction reads or writes.
pub open spec fn transaction_table(typ: TransactionType) -> Seq<char> {
    match typ {
        TransactionType::Scan { table_name } => table_name@,
        TransactionType::Insert { table_name, .. } => table_name@,
    }
}

/// What compiling a transaction of kind `typ` with `operations` gives:
/// a scan lowers its operations; an insert also lowers its record to values
/// by column id and its returned columns to ids. A missing table gives
/// `TableNotFound`, a missing column `ColumnNotFound`, and a value that is
/// not a record `ExpectedRow`.
pub open spec fn transaction_compiled(
    catalog: TableCatalog,
    typ: TransactionType,
    operations: Seq<TransactionOp>,
    r: Result<Transaction, QueryError>,
) -> bool {
    let table = transaction_table(typ);
    &&& typ is Scan ==> (r.is_ok() == ops_compile(catalog, table, operations))
    &&& typ is Scan && r.is_ok() ==> r is Ok && r->Ok_0 is Select
    &&& (r matches Ok(Transaction::Select { table: t, ops }) ==> {
        &&& typ is Scan && t@ == table
        &&& ops@.len() == operations.len()
        &&& forall|k: int| 0 <= k < ops@.len() ==> lowered(catalog, table, operations[k], #[trigger] ops@[k])
    })
    &&& (r matches Ok(Transaction::Insert { table: t, values, ops, returning }) ==> {
        &&& typ is Insert && t@ == table
        &&& ops@.len() == operations.len()
        &&& forall|k: int| 0 <= k < ops@.len() ==> lowered(catalog, table, operations[k], #[trigger] ops@[k])
        &&& row_values(catalog, table, *typ->Insert_value, values@)
        &&& match typ->Insert_returning {
            Some(cols) => returning matches Some(ids) && ids@.len() == cols@.len() && forall|k: int|
                0 <= k < ids@.len() ==> column_of(catalog, table, (#[trigger] cols@[k])@) == Some(ids@[k]),
            None => returning.is_none(),
        }
    })
    &&& (typ is Insert && !((*typ->Insert_value) is Instance) && ops_compile(catalog, table, operations) ==> r matches Err(QueryError::ExpectedRow))
    &&& (typ is Insert && r.is_ok() ==> ops_compile(catalog, table, operations))
    &&& (r matches Err(e) ==> named_error(e))
    &&& (r matches Err(QueryError::TableNotFound(t)) ==> t@ == table && !catalog.has_table(table))
    &&& (r matches Err(QueryError::ColumnNotFound(c, t)) ==> t@ == table && catalog.has_table(table) && column_of(catalog, table, c@).is_none())
}

/// The errors compilation reports.
pub open spec fn named_error(e: QueryError) -> bool {
    e is TableNotFound || e is ColumnNotFound || e is SymbolNotFound || e is NotATransaction || e is ExpectedRow
        || e is RowCannotBeEmbeddedIntoAnotherRow
}

/// `top` is how `op` is lowered: a limit or offset as itself, a projection
/// to the ids of its columns, a column-to-literal comparison to a column
/// filter, and any other condition to a row predicate that holds exactly
/// when the condition does.
pub open spec fn lowered(catalog: TableCatalog, table: Seq<char>, op: TransactionOp, top: TableOp) -> bool {
    match op {
        TransactionOp::Limit { count } => top == TableOp::Limit(count),
        TransactionOp::Offset { offset } => top == TableOp::Offset(offset),
        TransactionOp::Project { columns } => top matches TableOp::Project(ids) && ids@.len() == columns@.len()
            && forall|k: int| 0 <= k < ids@.len() ==> column_of(catalog, table, (#[trigger] columns@[k])@) == Some(ids@[k]),
        TransactionOp::Filter { predicate } => match *predicate {
            PredicateExpr::Comparison { left: QueryExpr::Column(c), op: cmp, right: QueryExpr::Literal(lit) } =>
                top matches TableOp::Filter { column_index, operator, value } && Some(column_index) == column_of(catalog, table, c@)
                    && operator == cmp && value@ == lit@,
            _ => top matches TableOp::PredicativeFilter(rp) && forall|t: Seq<ValueV>| #[trigger] pred_holds(rp, t) == pred_eval(catalog, table, *predicate, t),
        },
    }
}

/// A transaction operation compiles when every column it names exists.
pub open spec fn op_compiles(catalog: TableCatalog, table: Seq<char>, op: TransactionOp) -> bool {
    match op {
        TransactionOp::Filter { predicate } => pred_compiles(catalog, table, *predicate),
        TransactionOp::Project { columns } => forall|i: int| 0 <= i < columns@.len() ==> column_of(catalog, table, (#[trigger] columns@[i])@).is_some(),
        _ => true,
    }
}

pub open spec fn ops_compile(catalog: TableCatalog, table: Seq<char>, ops: Seq<TransactionOp>) -> bool {
    forall|i: int| 0 <= i < ops.len() ==> op_compiles(catalog, table, #[trigger] ops[i])
}

fn copy_operand(o: &RowOperand) -> (r: RowOperand)
    ensures
        forall|t: Seq<ValueV>| #[trigger] operand_value(r, t) == operand_value(*o, t),
{
    match o {
        RowOperand::Column(i) => RowOperand::Column(*i),
        RowOperand::Literal(v) => RowOperand::Literal(v.copy()),
    }
}

/// Lowers query expressions to transactions against a catalog.
pub struct PlanCompiler;

impl PlanCompiler {
    pub fn new() -> PlanCompiler {
        PlanCompiler
    }

    /// The id of `column` in `table`.
    pub fn resolve_column_index(&self, catalog: &TableCatalog, table: &str, column: &str) -> (r: Result<usize, QueryError>)
        requires
            catalog.wf(),
        ensures
            !catalog.has_table(table@) ==> (r matches Err(QueryError::TableNotFound(n)) && n@ == table@),
            catalog.has_table(table@) ==> match column_of(*catalog, table@, column@) {
                Some(i) => r == Ok::<usize, QueryError>(i),
                None => r matches Err(QueryError::ColumnNotFound(c, t)) && c@ == column@ && t@ == table@,
            },
    {
        match catalog.find_table(table) {
            None => Err(QueryError::TableNotFound(table.to_owned())),
            Some(i) => {
                proof {
                    let w = choose|k: int| 0 <= k < catalog.tables@.len() && (#[trigger] catalog.tables@[k]).name@ == table@;
                    if w != i {
                        if w < i {
                            assert(catalog.tables@[w].name@ != catalog.tables@[i as int].name@);
                        } else {
                            assert(catalog.tables@[i as int].name@ != catalog.tables@[w].name@);
                        }
                    }
                }
                match catalog.tables[i].info.get_column_index(column) {
                    Some(c) => Ok(c),
                    None => Err(QueryError::ColumnNotFound(column.to_owned(), table.to_owned())),
                }
            },
        }
    }

    fn compile_operand(&self, catalog: &TableCatalog, table: &str, e: &QueryExpr) -> (r: Result<RowOperand, QueryError>)
        requires
            catalog.wf(),
        ensures
            r.is_ok() == operand_compiles(*catalog, table@, *e),
            r matches Err(err) ==> named_error(err),
            r matches Err(QueryError::TableNotFound(t)) ==> t@ == table@ && !catalog.has_table(table@),
            r matches Err(QueryError::ColumnNotFound(c, t)) ==> t@ == table@ && catalog.has_table(table@) && column_of(*catalog, table@, c@).is_none(),
            r matches Ok(o) ==> forall|t: Seq<ValueV>| #[trigger] operand_value(o, t) == operand_on(*catalog, table@, *e, t),
            e matches QueryExpr::Reference(n) ==> (r matches Err(QueryError::SymbolNotFound(m)) && m@ == n@),
            !(e is Column || e is Literal || e is Reference) ==> r matches Err(QueryError::ExpectedRow),
    {
        match e {
            QueryExpr::Column(name) => match self.resolve_column_index(catalog, table, name.as_str()) {
                Ok(i) => Ok(RowOperand::Column(i)),
                Err(err) => Err(err),
            },
            QueryExpr::Literal(v) => Ok(RowOperand::Literal(v.copy())),
            QueryExpr::Reference(n) => Err(QueryError::SymbolNotFound(n.clone())),
            _ => Err(QueryError::ExpectedRow),
        }
    }

    /// Compiles a condition to a row predicate over column ids that holds of
    /// a row exactly when the condition does. Operands must be columns or
    /// literals: a bare name is an unknown symbol, and any other operand,
    /// like `Exists`, is not a value of a row.
    pub fn compile_predicate(&self, catalog: &TableCatalog, table: &str, p: &PredicateExpr) -> (r: Result<RowPredicate, QueryError>)
        requires
            catalog.wf(),
        ensures
            r.is_ok() == pred_compiles(*catalog, table@, *p),
            r matches Err(err) ==> named_error(err),
            r matches Err(QueryError::TableNotFound(t)) ==> t@ == table@ && !catalog.has_table(table@),
            r matches Err(QueryError::ColumnNotFound(c, t)) ==> t@ == table@ && catalog.has_table(table@) && column_of(*catalog, table@, c@).is_none(),
            r matches Ok(rp) ==> forall|t: Seq<ValueV>| #[trigger] pred_holds(rp, t) == pred_eval(*catalog, table@, *p, t),
        decreases p,
    {
        match p {
            PredicateExpr::Comparison { left, op, right } => {
                let l = match self.compile_operand(catalog, table, left) {
                    Ok(o) => o,
                    Err(e) => {
                        return Err(e);
                    },
                };
                let r = match self.compile_operand(catalog, table, right) {
                    Ok(o) => o,
                    Err(e) => {
                        return Err(e);
                    },
                };
                let rp = RowPredicate::Compare { left: l, op: *op, right: r };
                proof {
                    assert forall|t: Seq<ValueV>| #[trigger] pred_holds(rp, t) == pred_eval(*catalog, table@, *p, t) by {
                        assert(operand_value(l, t) == operand_on(*catalog, table@, *left, t));
                        assert(operand_value(r, t) == operand_on(*catalog, table@, *right, t));
                    }
                }
                Ok(rp)
            },
            PredicateExpr::And(a, b) => {
                let x = match self.compile_predicate(catalog, table, a) {
                    Ok(x) => x,
                    Err(e) => {
                        return Err(e);
                    },
                };
                let y = match self.compile_predicate(catalog, table, b) {
                    Ok(y) => y,
                    Err(e) => {
                        return Err(e);
                    },
                };
                let rp = RowPredicate::And(Box::new(x), Box::new(y));
                proof {
                    assert forall|t: Seq<ValueV>| #[trigger] pred_holds(rp, t) == pred_eval(*catalog, table@, *p, t) by {
                        assert(pred_holds(x, t) == pred_eval(*catalog, table@, **a, t));
                        assert(pred_holds(y, t) == pred_eval(*catalog, table@, **b, t));
                    }
                }
                Ok(rp)
            },
            PredicateExpr::Or(a, b) => {
                let x = match self.compile_predicate(catalog, table, a) {
                    Ok(x) => x,
                    Err(e) => {
                        return Err(e);
                    },
                };
                let y = match self.compile_predicate(catalog, table, b) {
                    Ok(y) => y,
                    Err(e) => {
                        return Err(e);
                    },
                };
                let rp = RowPredicate::Or(Box::new(x), Box::new(y));
                proof {
                    assert forall|t: Seq<ValueV>| #[trigger] pred_holds(rp, t) == pred_eval(*catalog, table@, *p, t) by {
                        assert(pred_holds(x, t) == pred_eval(*catalog, table@, **a, t));
                        assert(pred_holds(y, t) == pred_eval(*catalog, table@, **b, t));
                    }
                }
                Ok(rp)
            },
            PredicateExpr::Not(a) => match self.compile_predicate(catalog, table, a) {
                Ok(x) => {
                    let rp = RowPredicate::Not(Box::new(x));
                    proof {
                        assert forall|t: Seq<ValueV>| #[trigger] pred_holds(rp, t) == pred_eval(*catalog, table@, *p, t) by {
                            assert(pred_holds(x, t) == pred_eval(*catalog, table@, **a, t));
                        }
                    }
                    Ok(rp)
                },
                Err(e) => Err(e),
            },
            PredicateExpr::IsNull(e) => match self.compile_operand(catalog, table, e) {
                Ok(o) => {
                    let rp = RowPredicate::IsNull(o);
                    proof {
                        assert forall|t: Seq<ValueV>| #[trigger] pred_holds(rp, t) == pred_eval(*catalog, table@, *p, t) by {
                            assert(operand_value(o, t) == operand_on(*catalog, table@, *e, t));
                        }
                    }
                    Ok(rp)
                },
                Err(err) => Err(err),
            },
            PredicateExpr::IsNotNull(e) => match self.compile_operand(catalog, table, e) {
                Ok(o) => {
                    let rp = RowPredicate::IsNotNull(o);
                    proof {
                        assert forall|t: Seq<ValueV>| #[trigger] pred_holds(rp, t) == pred_eval(*catalog, table@, *p, t) by {
                            assert(operand_value(o, t) == operand_on(*catalog, table@, *e, t));
                        }
                    }
                    Ok(rp)
                },
                Err(err) => Err(err),
            },
            PredicateExpr::In(e, items) => {
                let base = match self.compile_operand(catalog, table, e) {
                    Ok(o) => o,
                    Err(err) => {
                        return Err(err);
                    },
                };
                let mut acc = RowPredicate::Not(Box::new(RowPredicate::Always));
                let mut i: usize = 0;
                proof {
                    assert forall|t: Seq<ValueV>| #[trigger] pred_holds(acc, t) == in_prefix(*catalog, table@, *e, items@, 0, t) by {
                        assert(pred_holds(RowPredicate::Always, t));
                    }
                }
                while i < items.len()
                    invariant
                        catalog.wf(),
                        *p == PredicateExpr::In(*e, *items),
                        operand_compiles(*catalog, table@, *e),
                        forall|t: Seq<ValueV>| #[trigger] operand_value(base, t) == operand_on(*catalog, table@, *e, t),
                        i <= items@.len(),
                        forall|k: int| 0 <= k < i ==> operand_compiles(*catalog, table@, #[trigger] items@[k]),
                        forall|t: Seq<ValueV>| #[trigger] pred_holds(acc, t) == in_prefix(*catalog, table@, *e, items@, i as int, t),
                    decreases items@.len() - i,
                {
                    let l = copy_operand(&base);
                    let r = match self.compile_operand(catalog, table, &items[i]) {
                        Ok(o) => o,
                        Err(err) => {
                            assert(!operand_compiles(*catalog, table@, items@[i as int]));
                            assert(!items_compile(*catalog, table@, items@));
                            return Err(err);
                        },
                    };
                    let ghost old_acc = acc;
                    let cmp = RowPredicate::Compare { left: l, op: ComparisonOperator::Eq, right: r };
                    assert(forall|t: Seq<ValueV>| #[trigger] pred_holds(cmp, t) == compare_holds(operand_value(l, t), ComparisonOperator::Eq, operand_value(r, t)));
                    acc = RowPredicate::Or(Box::new(acc), Box::new(cmp));
                    proof {
                        assert forall|t: Seq<ValueV>| #[trigger] pred_holds(acc, t) == in_prefix(*catalog, table@, *e, items@, i + 1, t) by {
                            assert(pred_holds(old_acc, t) == in_prefix(*catalog, table@, *e, items@, i as int, t));
                            assert(acc == RowPredicate::Or(Box::new(old_acc), Box::new(cmp)));
                            assert(pred_holds(acc, t) == (pred_holds(old_acc, t) || pred_holds(cmp, t)));
                            assert(pred_holds(acc, t) == (pred_holds(old_acc, t) || compare_holds(
                                operand_value(l, t),
                                ComparisonOperator::Eq,
                                operand_value(r, t),
                            )));
                            assert(operand_value(l, t) == operand_on(*catalog, table@, *e, t));
                            assert(operand_value(r, t) == operand_on(*catalog, table@, items@[i as int], t));
                        }
                    }
                    i = i + 1;
                }
                proof {
                    assert forall|t: Seq<ValueV>| #[trigger] pred_holds(acc, t) == pred_eval(*catalog, table@, *p, t) by {
                        assert(pred_holds(acc, t) == in_prefix(*catalog, table@, *e, items@, items@.len() as int, t));
                    }
                }
                Ok(acc)
            },
            PredicateExpr::Exists(_) => Err(QueryError::ExpectedRow),
        }
    }

    /// Lowers one transaction operation. A filter that compares a column
    /// with a literal becomes a column filter; any other filter a compiled
    /// predicate.
    pub fn compile_transaction_ops(&self, catalog: &TableCatalog, table: &str, op: &TransactionOp) -> (r: Result<Vec<TableOp>, QueryError>)
        requires
            catalog.wf(),
        ensures
            op matches TransactionOp::Limit { count } ==> (r matches Ok(v) && v@.len() == 1 && (v@[0] matches TableOp::Limit(c) && c == count)),
            op matches TransactionOp::Offset { offset } ==> (r matches Ok(v) && v@.len() == 1 && (v@[0] matches TableOp::Offset(c) && c == offset)),
            r matches Ok(v) ==> v@.len() == 1,
            r.is_ok() == op_compiles(*catalog, table@, *op),
            r matches Ok(v) ==> lowered(*catalog, table@, *op, v@[0]),
            r matches Err(err) ==> named_error(err),
            r matches Err(QueryError::TableNotFound(t)) ==> t@ == table@ && !catalog.has_table(table@),
            r matches Err(QueryError::ColumnNotFound(c, t)) ==> t@ == table@ && catalog.has_table(table@) && column_of(*catalog, table@, c@).is_none(),
    {
        match op {
            TransactionOp::Filter { predicate } => {
                if let PredicateExpr::Comparison { left, op, right } = &**predicate {
                    if let (QueryExpr::Column(col), QueryExpr::Literal(value)) = (left, right) {
                        return match self.resolve_column_index(catalog, table, col.as_str()) {
                            Ok(idx) => Ok(single(TableOp::Filter { column_index: idx, operator: *op, value: value.copy() })),
                            Err(e) => Err(e),
                        };
                    }
                }
                match self.compile_predicate(catalog, table, predicate) {
                    Ok(p) => Ok(single(TableOp::PredicativeFilter(p))),
                    Err(e) => Err(e),
                }
            },
            TransactionOp::Limit { count } => Ok(single(TableOp::Limit(*count))),
            TransactionOp::Offset { offset } => Ok(single(TableOp::Offset(*offset))),
            TransactionOp::Project { columns } => {
                let mut indices: Vec<usize> = Vec::new();
                let mut i: usize = 0;
                while i < columns.len()
                    invariant
                        catalog.wf(),
                        *op == (TransactionOp::Project { columns: *columns }),
                        i <= columns@.len(),
                        indices@.len() == i,
                        forall|k: int| 0 <= k < i ==> column_of(*catalog, table@, (#[trigger] columns@[k])@) == Some(indices@[k]),
                        forall|k: int| 0 <= k < i ==> column_of(*catalog, table@, (#[trigger] columns@[k])@).is_some(),
                    decreases columns@.len() - i,
                {
                    match self.resolve_column_index(catalog, table, columns[i].as_str()) {
                        Ok(idx) => indices.push(idx),
                        Err(e) => {
                            assert(column_of(*catalog, table@, columns@[i as int]@).is_none());
                            return Err(e);
                        },
                    }
                    i = i + 1;
                }
                Ok(single(TableOp::Project(indices)))
            },
        }
    }

    /// Lowers the operations of a transaction, in order.
    pub fn build_ops(&self, catalog: &TableCatalog, table: &str, operations: &Vec<TransactionOp>) -> (r: Result<Vec<TableOp>, QueryError>)
        requires
            catalog.wf(),
        ensures
            r matches Ok(v) ==> v@.len() == operations@.len() && forall|k: int|
                0 <= k < v@.len() ==> lowered(*catalog, table@, operations@[k], #[trigger] v@[k]),
            r.is_ok() == ops_compile(*catalog, table@, operations@),
            r matches Err(err) ==> named_error(err),
            r matches Err(QueryError::TableNotFound(t)) ==> t@ == table@ && !catalog.has_table(table@),
            r matches Err(QueryError::ColumnNotFound(c, t)) ==> t@ == table@ && catalog.has_table(table@) && column_of(*catalog, table@, c@).is_none(),
    {
        let mut ops: Vec<TableOp> = Vec::new();
        let mut i: usize = 0;
        while i < operations.len()
            invariant
                catalog.wf(),
                i <= operations@.len(),
                ops@.len() == i,
                forall|k: int| 0 <= k < i ==> op_compiles(*catalog, table@, #[trigger] operations@[k]),
                forall|k: int| 0 <= k < i ==> lowered(*catalog, table@, operations@[k], #[trigger] ops@[k]),
            decreases operations@.len() - i,
        {
            match self.compile_transaction_ops(catalog, table, &operations[i]) {
                Ok(mut v) => {
                    let ghost before = ops@;
                    let ghost vv = v@;
                    ops.append(&mut v);
                    assert(ops@ == before + vv);
                    assert(ops@[i as int] == vv[0]);
                },

                Err(e) => {
                    return Err(e);
                },
            }
            i = i + 1;
        }
        Ok(ops)
    }

    /// The values of an inserted row by column id. A value that is not a
    /// row, or a field that is neither a literal nor a name, gives
    /// `ExpectedRow`; a field that is a row gives
    /// `RowCannotBeEmbeddedIntoAnotherRow`; a bare name `SymbolNotFound`.
    pub fn compile_row(&self, catalog: &TableCatalog, table: &str, value: &QueryExpr) -> (r: Result<Vec<(u32, Value)>, QueryError>)
        requires
            catalog.wf(),
        ensures
            !(value is Instance) ==> r matches Err(QueryError::ExpectedRow),
            r matches Err(err) ==> named_error(err),
            r matches Err(QueryError::TableNotFound(t)) ==> t@ == table@ && !catalog.has_table(table@),
            r matches Err(QueryError::ColumnNotFound(c, t)) ==> t@ == table@ && catalog.has_table(table@) && column_of(*catalog, table@, c@).is_none(),
            r matches Ok(vals) ==> row_values(*catalog, table@, *value, vals@),
    {
        match value {
            QueryExpr::Instance(fields) => {
                let mut out: Vec<(u32, Value)> = Vec::new();
                let mut i: usize = 0;
                while i < fields.len()
                    invariant
                        catalog.wf(),
                        *value == QueryExpr::Instance(*fields),
                        i <= fields@.len(),
                        out@.len() == i,
                        forall|k: int| 0 <= k < i ==> ({
                            let (n, e) = fields@[k];
                            &&& column_of(*catalog, table@, n@) == Some((#[trigger] out@[k]).0 as usize)
                            &&& (e matches QueryExpr::Literal(v) && v@ == out@[k].1@)
                        }),
                    decreases fields@.len() - i,
                {
                    let (name, e) = &fields[i];
                    let v = match e {
                        QueryExpr::Literal(v) => v.copy(),
                        QueryExpr::Instance(_) => {
                            return Err(QueryError::RowCannotBeEmbeddedIntoAnotherRow);
                        },
                        QueryExpr::Reference(n) => {
                            return Err(QueryError::SymbolNotFound(n.clone()));
                        },
                        _ => {
                            return Err(QueryError::ExpectedRow);
                        },
                    };
                    match self.resolve_column_index(catalog, table, name.as_str()) {
                        Ok(idx) => {
                            if idx > u32::MAX as usize {
                                return Err(QueryError::ColumnNotFound(name.clone(), table.to_owned()));
                            }
                            out.push((idx as u32, v));
                        },
                        Err(err) => {
                            return Err(err);
                        },
                    }
                    i = i + 1;
                }
                Ok(out)
            },
            _ => Err(QueryError::ExpectedRow),
        }
    }

    /// Lowers a query expression to a transaction. `let` bindings are
    /// scoped lexically: a name refers to the nearest enclosing binding,
    /// and its bound expression is read in the scope of that binding.
    pub fn compile(&mut self, catalog: &TableCatalog, expr: &QueryExpr) -> (r: Result<Transaction, QueryError>)
        requires
            catalog.wf(),
        ensures
            (*expr) matches QueryExpr::Transaction { typ, operations } ==> transaction_compiled(*catalog, typ, operations@, r),
            expr matches QueryExpr::Reference(n) ==> r matches Err(QueryError::SymbolNotFound(m)) && m@ == n@,
            r matches Err(e) ==> named_error(e),
            !(expr is Transaction || expr is Binding || expr is Reference) ==> r matches Err(QueryError::NotATransaction),
    {
        let mut scope: Vec<(&String, &QueryExpr)> = Vec::new();
        let mut cur: &QueryExpr = expr;
        loop
            invariant
                catalog.wf(),
                (expr is Transaction) ==> cur == expr,
                !(expr is Transaction || expr is Binding || expr is Reference) ==> cur == expr,
                (expr is Reference) ==> (cur == expr && scope@.len() == 0),
            decreases scope_size(scope@) + binding_size(*cur),
        {
            match cur {
                QueryExpr::Binding { name, value, body } => {
                    let ghost s0 = scope@;
                    scope.push((name, &**value));
                    assert(scope@.drop_last() =~= s0);
                    cur = &**body;
                },
                QueryExpr::Reference(name) => {
                    let mut k: usize = scope.len();
                    let mut found = false;
                    while k > 0 && !found
                        invariant
                            k <= scope@.len(),
                            found ==> k < scope@.len(),
                        decreases k + (if found { 0int } else { 1int }),
                    {
                        if text_eq(scope[k - 1].0.as_str(), name.as_str()) {
                            found = true;
                            k = k - 1;
                        } else {
                            k = k - 1;
                        }
                    }
                    if !found {
                        return Err(QueryError::SymbolNotFound(name.clone()));
                    }
                    let ghost s0 = scope@;
                    let next: &QueryExpr = scope[k].1;
                    proof {
                        lemma_scope_prefix(s0, k as int);
                    }
                    scope.truncate(k);
                    assert(scope@ =~= s0.take(k as int));
                    cur = next;
                },
                QueryExpr::Transaction { typ, operations } => {
                    return self.compile_transaction(catalog, typ, operations);
                },
                _ => {
                    return Err(QueryError::NotATransaction);
                },
            }
        }
    }

    fn compile_transaction(&self, catalog: &TableCatalog, typ: &TransactionType, operations: &Vec<TransactionOp>) -> (r: Result<Transaction, QueryError>)
        requires
            catalog.wf(),
        ensures
            transaction_compiled(*catalog, *typ, operations@, r),
    {
        match typ {
            TransactionType::Scan { table_name } => match self.build_ops(catalog, table_name.as_str(), operations) {
                Ok(ops) => Ok(Transaction::Select { table: table_name.clone(), ops }),
                Err(e) => Err(e),
            },
            TransactionType::Insert { table_name, value, returning } => {
                assert(transaction_table(*typ) == table_name@);
                let tn = table_name.as_str();
                let ops = match self.build_ops(catalog, tn, operations) {
                    Ok(ops) => ops,
                    Err(e) => {
                        return Err(e);
                    },
                };
                let values = match self.compile_row(catalog, table_name.as_str(), value) {
                    Ok(v) => v,
                    Err(e) => {
                        return Err(e);
                    },
                };
                let returning_indices = match returning {
                    Some(cols) => {
                        let mut idx: Vec<usize> = Vec::new();
                        let mut i: usize = 0;
                        while i < cols.len()
                            invariant
                                catalog.wf(),
                                typ is Insert,
                                ops_compile(*catalog, typ->Insert_table_name@, operations@),
                                typ->Insert_table_name@ == table_name@,
                                *typ == (TransactionType::Insert { table_name: *table_name, value: *value, returning: *returning }),
                                *returning == Some(*cols),
                                ops@.len() == operations@.len(),
                                forall|k: int| 0 <= k < ops@.len() ==> lowered(*catalog, table_name@, operations@[k], #[trigger] ops@[k]),
                                row_values(*catalog, table_name@, **value, values@),
                                i <= cols@.len(),
                                idx@.len() == i,
                                forall|k: int| 0 <= k < i ==> column_of(*catalog, table_name@, (#[trigger] cols@[k])@) == Some(idx@[k]),
                            decreases cols@.len() - i,
                        {
                            match self.resolve_column_index(catalog, table_name.as_str(), cols[i].as_str()) {
                                Ok(c) => idx.push(c),
                                Err(e) => {
                                    return Err(e);
                                },
                            }
                            i = i + 1;
                        }
                        Some(idx)
                    },
                    None => None,
                };
                Ok(Transaction::Insert { table: table_name.clone(), values, ops, returning: returning_indices })
            },
        }
    }
}

} // verus!
