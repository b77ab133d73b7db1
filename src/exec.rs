use vstd::prelude::*;
use vstd::utf8::encode_utf8;
use crate::query::{ComparisonOperator, QueryError, RowOperand, RowPredicate, TableOp, Transaction};
use crate::table::{ColumnInfo, TableCatalog, TableInfo};
use crate::value::{contains_bytes, occurs_in, value_cmp, Tuple, Value, ValueV};

verus! {

broadcast use vstd::std_specs::vec::axiom_vec_index_decreases;

/// Whether `a op b` holds: the six orderings by the total order of
/// values, `Like` and `NotLike` as substring tests on two texts (false
/// otherwise).
pub open spec fn compare_holds(a: ValueV, op: ComparisonOperator, b: ValueV) -> bool {
    match op {
        ComparisonOperator::Eq => value_cmp(a, b) == 0,
        ComparisonOperator::Neq => value_cmp(a, b) != 0,
        ComparisonOperator::Gt => value_cmp(a, b) == 1,
        ComparisonOperator::GtEq => value_cmp(a, b) >= 0,
        ComparisonOperator::Lt => value_cmp(a, b) == -1,
        ComparisonOperator::LtEq => value_cmp(a, b) <= 0,
        ComparisonOperator::Like => match (a, b) {
            (ValueV::Text(x), ValueV::Text(y)) => occurs_in(encode_utf8(y), encode_utf8(x)),
            _ => false,
        },
        ComparisonOperator::NotLike => match (a, b) {
            (ValueV::Text(x), ValueV::Text(y)) => !occurs_in(encode_utf8(y), encode_utf8(x)),
            _ => false,
        },
    }
}

pub fn compare_values(a: &Value, op: ComparisonOperator, b: &Value) -> (r: bool)
    ensures
        r == compare_holds(a@, op, b@),
{
    match op {
        ComparisonOperator::Eq => a.compare(b) == 0,
        ComparisonOperator::Neq => a.compare(b) != 0,
        ComparisonOperator::Gt => a.compare(b) == 1,
        ComparisonOperator::GtEq => a.compare(b) >= 0,
        ComparisonOperator::Lt => a.compare(b) == -1,
        ComparisonOperator::LtEq => a.compare(b) <= 0,
        ComparisonOperator::Like => match (a, b) {
            (Value::Text(x), Value::Text(y)) => contains_bytes(x.as_str().as_bytes(), y.as_str().as_bytes()),
            _ => false,
        },
        ComparisonOperator::NotLike => match (a, b) {
            (Value::Text(x), Value::Text(y)) => !contains_bytes(x.as_str().as_bytes(), y.as_str().as_bytes()),
            _ => false,
        },
    }
}

/// Column `i` of a row, or `Null` past its end.
pub open spec fn cell(t: Seq<ValueV>, i: int) -> ValueV {
    if 0 <= i < t.len() { t[i] } else { ValueV::Null }
}

pub open spec fn operand_value(o: RowOperand, t: Seq<ValueV>) -> ValueV {
    match o {
        RowOperand::Column(i) => cell(t, i as int),
        RowOperand::Literal(v) => v@,
    }
}

/// Whether a row satisfies a compiled condition.
pub open spec fn pred_holds(p: RowPredicate, t: Seq<ValueV>) -> bool
    decreases p,
{
    match p {
        RowPredicate::Compare { left, op, right } => compare_holds(operand_value(left, t), op, operand_value(right, t)),
        RowPredicate::And(a, b) => pred_holds(*a, t) && pred_holds(*b, t),
        RowPredicate::Or(a, b) => pred_holds(*a, t) || pred_holds(*b, t),
        RowPredicate::Not(a) => !pred_holds(*a, t),
        RowPredicate::IsNull(o) => operand_value(o, t) is Null,
        RowPredicate::IsNotNull(o) => !(operand_value(o, t) is Null),
        RowPredicate::Always => true,
    }
}

fn operand_of<'a>(o: &'a RowOperand, t: &'a Tuple) -> (r: &'a Value)
    ensures
        r@ == operand_value(*o, t@),
{
    match o {
        RowOperand::Column(i) => {
            if *i < t.0.len() {
                &t.0[*i]
            } else {
                &NULL_VALUE
            }
        },
        RowOperand::Literal(v) => v,
    }
}

pub const NULL_VALUE: Value = Value::Null;

impl RowPredicate {
    /// Evaluates the condition on a row, `And` and `Or` short-circuiting.
    pub fn eval(&self, t: &Tuple) -> (r: bool)
        ensures
            r == pred_holds(*self, t@),
        decreases self,
    {
        match self {
            RowPredicate::Compare { left, op, right } => compare_values(operand_of(left, t), *op, operand_of(right, t)),
            RowPredicate::And(a, b) => (**a).eval(t) && (**b).eval(t),
            RowPredicate::Or(a, b) => (**a).eval(t) || (**b).eval(t),
            RowPredicate::Not(a) => !(**a).eval(t),
            RowPredicate::IsNull(o) => matches!(operand_of(o, t), Value::Null),
            RowPredicate::IsNotNull(o) => !matches!(operand_of(o, t), Value::Null),
            RowPredicate::Always => true,
        }
    }
}

/// The row after one operator, or `None` when a filter drops it.
pub open spec fn apply_op(op: TableOp, t: Seq<ValueV>) -> Option<Seq<ValueV>> {
    match op {
        TableOp::Filter { column_index, operator, value } => if column_index < t.len() && compare_holds(
            t[column_index as int],
            operator,
            value@,
        ) {
            Some(t)
        } else {
            None
        },
        TableOp::Project(ids) => Some(Seq::new(ids@.len(), |k: int| cell(t, ids@[k] as int))),
        TableOp::PredicativeFilter(p) => if pred_holds(p, t) { Some(t) } else { None },
        _ => Some(t),
    }
}

/// The row after the operators in order.
pub open spec fn apply_ops(ops: Seq<TableOp>, t: Seq<ValueV>) -> Option<Seq<ValueV>>
    decreases ops.len(),
{
    if ops.len() == 0 {
        Some(t)
    } else {
        match apply_ops(ops.drop_last(), t) {
            Some(u) => apply_op(ops.last(), u),
            None => None,
        }
    }
}

pub open spec fn sat_add(a: int, b: int) -> int {
    if a + b > usize::MAX { usize::MAX as int } else { a + b }
}

/// The rows an `Offset` drops: the sum of the offsets (negative ones count
/// as zero), saturated.
pub open spec fn total_offset(ops: Seq<TableOp>) -> int
    decreases ops.len(),
{
    if ops.len() == 0 {
        0
    } else {
        match ops.last() {
            TableOp::Offset(k) => sat_add(total_offset(ops.drop_last()), if k > 0 { k as int } else { 0 }),
            _ => total_offset(ops.drop_last()),
        }
    }
}

/// The rows a `Limit` lets through: the least limit (negative ones count
/// as zero), if there is one.
pub open spec fn total_limit(ops: Seq<TableOp>) -> Option<int>
    decreases ops.len(),
{
    if ops.len() == 0 {
        None
    } else {
        match ops.last() {
            TableOp::Limit(k) => {
                let k2: int = if k > 0 { k as int } else { 0 };
                match total_limit(ops.drop_last()) {
                    Some(l) => Some(if l < k2 { l } else { k2 }),
                    None => Some(k2),
                }
            },
            _ => total_limit(ops.drop_last()),
        }
    }
}

fn cell_copy(t: &Tuple, i: usize) -> (r: Value)
    ensures
        r@ == cell(t@, i as int),
{
    if i < t.0.len() {
        t.0[i].copy()
    } else {
        Value::Null
    }
}

/// Applies one operator to a row.
pub fn apply_table_op(op: &TableOp, t: Tuple) -> (r: Option<Tuple>)
    ensures
        match apply_op(*op, t@) {
            Some(u) => r matches Some(w) && w@ == u,
            None => r.is_none(),
        },
{
    match op {
        TableOp::Filter { column_index, operator, value } => {
            if *column_index < t.0.len() && compare_values(&t.0[*column_index], *operator, value) {
                Some(t)
            } else {
                None
            }
        },
        TableOp::Project(ids) => {
            let mut out: Vec<Value> = Vec::with_capacity(ids.len());
            let mut k: usize = 0;
            while k < ids.len()
                invariant
                    k <= ids@.len(),
                    out@.len() == k,
                    forall|j: int| 0 <= j < k ==> (#[trigger] out@[j])@ == cell(t@, ids@[j] as int),
                decreases ids@.len() - k,
            {
                out.push(cell_copy(&t, ids[k]));
                k = k + 1;
            }
            let r = Tuple(out);
            assert(r@ =~= Seq::new(ids@.len(), |k: int| cell(t@, ids@[k] as int)));
            Some(r)
        },
        TableOp::PredicativeFilter(p) => {
            if p.eval(&t) {
                Some(t)
            } else {
                None
            }
        },
        _ => Some(t),
    }
}

/// The row stream of a query: the operators applied to each row in turn,
/// then the combined offset and limit.
pub struct OpsPipeline {
    pub ops: Vec<TableOp>,
    pub offset_remaining: usize,
    pub taken: usize,
    pub limit: Option<usize>,
}

impl OpsPipeline {
    /// Gathers the offsets and limits of `ops`.
    pub fn new(ops: Vec<TableOp>) -> (r: OpsPipeline)
        ensures
            r.ops@ == ops@,
            r.offset_remaining == total_offset(ops@),
            r.taken == 0,
            match total_limit(ops@) {
                Some(l) => r.limit == Some(l as usize),
                None => r.limit.is_none(),
            },
    {
        let mut offset: usize = 0;
        let mut limit: Option<usize> = None;
        let mut i: usize = 0;
        assert(ops@.take(0) =~= Seq::<TableOp>::empty());
        while i < ops.len()
            invariant
                i <= ops@.len(),
                offset == total_offset(ops@.take(i as int)),
                match total_limit(ops@.take(i as int)) {
                    Some(l) => limit == Some(l as usize) && 0 <= l <= i32::MAX,
                    None => limit.is_none(),
                },
            decreases ops@.len() - i,
        {
            assert(ops@.take(i + 1).drop_last() =~= ops@.take(i as int));
            assert(ops@.take(i + 1).last() == ops@[i as int]);
            match &ops[i] {
                TableOp::Offset(k) => {
                    let k2: usize = if *k > 0 { *k as usize } else { 0 };
                    offset = if offset > usize::MAX - k2 { usize::MAX } else { offset + k2 };
                },
                TableOp::Limit(k) => {
                    let k2: usize = if *k > 0 { *k as usize } else { 0 };
                    limit = match limit {
                        Some(l) => Some(if l < k2 { l } else { k2 }),
                        None => Some(k2),
                    };
                },
                _ => {},
            }
            i = i + 1;
        }
        assert(ops@.take(i as int) =~= ops@);
        OpsPipeline { ops, offset_remaining: offset, taken: 0, limit }
    }

    /// Whether the limit has been reached.
    pub fn is_done(&self) -> (r: bool)
        ensures
            r == (self.limit matches Some(l) && self.taken >= l),
    {
        match self.limit {
            Some(l) => self.taken >= l,
            None => false,
        }
    }

    /// Runs the operators on one row, in order.
    pub fn apply_ops_to_tuple(&self, tuple: Tuple) -> (r: Option<Tuple>)
        ensures
            match apply_ops(self.ops@, tuple@) {
                Some(u) => r matches Some(w) && w@ == u,
                None => r.is_none(),
            },
    {
        let ghost t0 = tuple@;
        let mut cur = tuple;
        let mut i: usize = 0;
        assert(self.ops@.take(0) =~= Seq::<TableOp>::empty());
        while i < self.ops.len()
            invariant
                i <= self.ops@.len(),
                t0 == tuple@,
                apply_ops(self.ops@.take(i as int), t0) == Some(cur@),
            decreases self.ops@.len() - i,
        {
            assert(self.ops@.take(i + 1).drop_last() =~= self.ops@.take(i as int));
            assert(self.ops@.take(i + 1).last() == self.ops@[i as int]);
            match apply_table_op(&self.ops[i], cur) {
                Some(next) => {
                    cur = next;
                },
                None => {
                    proof {
                        assert(apply_ops(self.ops@.take(i + 1), t0).is_none());
                        lemma_apply_ops_none(self.ops@, i as int, t0);
                        assert(apply_ops(self.ops@, t0).is_none());
                    }
                    return None;
                },
            }
            i = i + 1;
        }
        assert(self.ops@.take(i as int) =~= self.ops@);
        Some(cur)
    }

    /// Feeds one upstream row: a row the operators keep is dropped while
    /// the offset lasts, then emitted until the limit is reached.
    pub fn push(&mut self, tuple: Tuple) -> (r: Option<Tuple>)
        requires
            old(self).taken < usize::MAX,
        ensures
            final(self).ops == old(self).ops,
            final(self).limit == old(self).limit,
            ({
                let done = old(self).limit matches Some(l) && old(self).taken >= l;
                let kept = apply_ops(old(self).ops@, tuple@);
                if kept.is_none() {
                    r.is_none() && final(self).offset_remaining == old(self).offset_remaining
                        && final(self).taken == old(self).taken
                } else if old(self).offset_remaining > 0 {
                    r.is_none() && final(self).offset_remaining == old(self).offset_remaining - 1
                        && final(self).taken == old(self).taken
                } else if done {
                    r.is_none() && final(self).offset_remaining == 0 && final(self).taken == old(self).taken
                } else {
                    r matches Some(w) && Some(w@) == kept && final(self).offset_remaining == 0
                        && final(self).taken == old(self).taken + 1
                }
            }),
    {
        match self.apply_ops_to_tuple(tuple) {
            None => None,
            Some(t) => {
                if self.offset_remaining > 0 {
                    self.offset_remaining = self.offset_remaining - 1;
                    None
                } else if self.is_done() {
                    None
                } else {
                    self.taken = self.taken + 1;
                    Some(t)
                }
            },
        }
    }
}

proof fn lemma_apply_ops_none(ops: Seq<TableOp>, i: int, t: Seq<ValueV>)
    requires
        0 <= i < ops.len(),
        apply_ops(ops.take(i + 1), t).is_none(),
    ensures
        apply_ops(ops, t).is_none(),
    decreases ops.len() - i,
{
    if i + 1 < ops.len() {
        assert(ops.take(i + 2).drop_last() =~= ops.take(i + 1));
        lemma_apply_ops_none(ops, i + 1, t);
    } else {
        assert(ops.take(i + 1) =~= ops);
    }
}

/// The rows the operators keep, in input order.
pub open spec fn processed(ops: Seq<TableOp>, ts: Seq<Seq<ValueV>>) -> Seq<Seq<ValueV>>
    decreases ts.len(),
{
    if ts.len() == 0 {
        Seq::empty()
    } else {
        match apply_ops(ops, ts.last()) {
            Some(u) => processed(ops, ts.drop_last()).push(u),
            None => processed(ops, ts.drop_last()),
        }
    }
}

pub open spec fn min_int(a: int, b: int) -> int {
    if a < b { a } else { b }
}

/// What a query emits for input rows `ts`: the kept rows, less the first
/// `total_offset`, at most `total_limit` of them.
pub open spec fn pipeline_output(ops: Seq<TableOp>, ts: Seq<Seq<ValueV>>) -> Seq<Seq<ValueV>> {
    let p = processed(ops, ts);
    let start = min_int(total_offset(ops), p.len() as int);
    let end = match total_limit(ops) {
        Some(l) => min_int(start + l, p.len() as int),
        None => p.len() as int,
    };
    p.subrange(start, end)
}

pub open spec fn tuples_view(ts: Seq<Tuple>) -> Seq<Seq<ValueV>> {
    ts.map_values(|t: Tuple| t@)
}

/// Runs a whole input through the operators.
pub fn run_ops(ops: Vec<TableOp>, input: Vec<Tuple>) -> (r: Vec<Tuple>)
    ensures
        tuples_view(r@) == pipeline_output(ops@, tuples_view(input@)),
{
    let ghost ops_v = ops@;
    let ghost ts = tuples_view(input@);
    let mut pipe = OpsPipeline::new(ops);
    let ghost off0 = pipe.offset_remaining as int;
    let mut out: Vec<Tuple> = Vec::new();
    let mut input = input;
    let ghost all = input@;
    let mut rev: Vec<Tuple> = Vec::new();
    while input.len() > 0
        invariant
            rev@.len() + input@.len() == all.len(),
            forall|k: int| 0 <= k < rev@.len() ==> #[trigger] rev@[k] == all[all.len() - 1 - k],
            forall|k: int| 0 <= k < input@.len() ==> #[trigger] input@[k] == all[k],
        decreases input@.len(),
    {
        let t = input.pop().unwrap();
        rev.push(t);
    }
    let mut i: usize = 0;
    let n = rev.len();
    assert(ts.take(0) =~= Seq::<Seq<ValueV>>::empty());
    proof {
        lemma_totals_bounded(ops_v);
    }
    while i < n
        invariant
            rev@.len() == n - i,
            n == all.len(),
            ts == tuples_view(all),
            i <= n,
            forall|k: int| 0 <= k < rev@.len() ==> #[trigger] rev@[k] == all[all.len() - 1 - k],
            pipe.ops@ == ops_v,
            off0 == total_offset(ops_v),
            0 <= off0 <= usize::MAX,
            total_limit(ops_v) matches Some(l) ==> 0 <= l <= i32::MAX,
            match total_limit(ops_v) {
                Some(l) => pipe.limit == Some(l as usize),
                None => pipe.limit.is_none(),
            },
            ({
                let p = processed(ops_v, ts.take(i as int));
                let start = min_int(off0, p.len() as int);
                &&& pipe.offset_remaining == off0 - start
                &&& pipe.taken == out@.len()
                &&& tuples_view(out@) == p.subrange(
                    start,
                    match total_limit(ops_v) {
                        Some(l) => min_int(start + l, p.len() as int),
                        None => p.len() as int,
                    },
                )
            }),
            out@.len() <= i,
        decreases n - i,
    {
        let t = rev.pop().unwrap();
        let ghost tv = t@;
        assert(t == all[i as int]);
        let ghost p0 = processed(ops_v, ts.take(i as int));
        assert(ts.take(i + 1).drop_last() =~= ts.take(i as int));
        assert(ts.take(i + 1).last() == tv);
        let ghost out0 = out@;
        match pipe.push(t) {
            Some(e) => {
                out.push(e);
                assert(tuples_view(out@) =~= tuples_view(out0).push(e@));
            },
            None => {},
        }
        i = i + 1;
        proof {
            let p1 = processed(ops_v, ts.take(i as int));
            let start0 = min_int(off0, p0.len() as int);
            let start1 = min_int(off0, p1.len() as int);
            match apply_ops(ops_v, tv) {
                None => {
                    assert(p1 == p0);
                },
                Some(u) => {
                    assert(p1 == p0.push(u));
                    match total_limit(ops_v) {
                        Some(l) => {
                            let end0 = min_int(start0 + l, p0.len() as int);
                            let end1 = min_int(start1 + l, p1.len() as int);
                            if off0 > p0.len() {
                                assert(tuples_view(out@) =~= p1.subrange(start1, end1));
                            } else if out0.len() >= l {
                                assert(tuples_view(out0).len() == out0.len());
                                assert(start1 == start0);
                                assert(end1 == end0);
                                assert(p1.subrange(start1, end1) =~= p0.subrange(start0, end0));
                            } else {
                                assert(p1.subrange(start1, end1) =~= p0.subrange(start0, end0).push(u));
                            }
                        },
                        None => {
                            if off0 > p0.len() {
                                assert(tuples_view(out@) =~= p1.subrange(start1, p1.len() as int));
                            } else {
                                assert(p1.subrange(start1, p1.len() as int) =~= p0.subrange(start0, p0.len() as int).push(u));
                            }
                        },
                    }
                },
            }
        }
    }
    assert(ts.take(n as int) =~= ts);
    out
}

proof fn lemma_totals_bounded(ops: Seq<TableOp>)
    ensures
        0 <= total_offset(ops) <= usize::MAX,
        total_limit(ops) matches Some(l) ==> 0 <= l <= i32::MAX,
    decreases ops.len(),
{
    if ops.len() > 0 {
        lemma_totals_bounded(ops.drop_last());
    }
}

/// The last value given for column `id`.
pub open spec fn provided(values: Seq<(u32, Value)>, id: int) -> Option<ValueV>
    decreases values.len(),
{
    if values.len() == 0 {
        None
    } else if values.last().0 == id {
        Some(values.last().1@)
    } else {
        provided(values.drop_last(), id)
    }
}

/// The value an insert stores in column `c`: the one given, else the
/// column's default, else `Null` when the column is nullable.
pub open spec fn cell_for(c: ColumnInfo, values: Seq<(u32, Value)>) -> Option<ValueV> {
    match provided(values, c.id as int) {
        Some(v) => Some(v),
        None => match c.default {
            Some(d) => Some(d@),
            None => if c.nullable { Some(ValueV::Null) } else { None },
        },
    }
}

fn find_provided(values: &Vec<(u32, Value)>, id: u32) -> (r: Option<Value>)
    ensures
        match provided(values@, id as int) {
            Some(v) => r matches Some(w) && w@ == v,
            None => r.is_none(),
        },
{
    let mut i: usize = values.len();
    assert(values@.take(i as int) =~= values@);
    while i > 0
        invariant
            i <= values@.len(),
            provided(values@, id as int) == provided(values@.take(i as int), id as int),
        decreases i,
    {
        assert(values@.take(i as int).drop_last() =~= values@.take(i - 1));
        assert(values@.take(i as int).last() == values@[i - 1]);
        if values[i - 1].0 == id {
            return Some(values[i - 1].1.copy());
        }
        i = i - 1;
    }
    assert(values@.take(0) =~= Seq::<(u32, Value)>::empty());
    None
}

/// Builds the full-width row of an insert, column by column in id order.
/// Fails on the first column that has no value, no default and is not
/// nullable.
pub fn build_tuple(info: &TableInfo, values: &Vec<(u32, Value)>) -> (r: Result<Tuple, QueryError>)
    requires
        info.wf(),
    ensures
        r.is_ok() == forall|k: int| 0 <= k < info.columns@.len() ==> (#[trigger] cell_for(info.columns@[k], values@)).is_some(),
        r matches Ok(t) ==> t@.len() == info.columns@.len() && forall|k: int|
            0 <= k < info.columns@.len() ==> cell_for(info.columns@[k], values@) == Some(#[trigger] t@[k]),
        r matches Err(e) ==> exists|k: int|
            0 <= k < info.columns@.len() && (#[trigger] cell_for(info.columns@[k], values@)).is_none()
                && (e matches QueryError::MissingValueForNonNullable(n) && n@ == info.columns@[k].name@),
{
    let mut out: Vec<Value> = Vec::with_capacity(info.columns.len());
    let mut k: usize = 0;
    while k < info.columns.len()
        invariant
            info.wf(),
            k <= info.columns@.len(),
            out@.len() == k,
            forall|j: int| 0 <= j < k ==> cell_for(info.columns@[j], values@) == Some((#[trigger] out@[j])@),
        decreases info.columns@.len() - k,
    {
        let col: &ColumnInfo = &info.columns[k];
        let v = match find_provided(values, col.id) {
            Some(v) => v,
            None => match &col.default {
                Some(d) => d.copy(),
                None => {
                    if col.nullable {
                        Value::Null
                    } else {
                        assert(cell_for(info.columns@[k as int], values@).is_none());
                        return Err(QueryError::MissingValueForNonNullable(col.name.clone()));
                    }
                },
            },
        };
        out.push(v);
        k = k + 1;
    }
    let t = Tuple(out);
    proof {
        assert forall|j: int| 0 <= j < info.columns@.len() implies cell_for(info.columns@[j], values@) == Some(#[trigger] t@[j]) by {
            assert(t@[j] == out@[j]@);
        }
        assert forall|j: int| 0 <= j < info.columns@.len() implies (#[trigger] cell_for(info.columns@[j], values@)).is_some() by {
            assert(cell_for(info.columns@[j], values@) == Some(t@[j]));
        }
    }
    Ok(t)
}

/// What an insert stores and what it emits.
pub struct InsertPlan {
    pub tuple: Tuple,
    pub output: Vec<Tuple>,
}

/// Plans an insert into `info`'s table: the row to store and, when
/// `returning` names columns, the one-row stream of those columns run
/// through `ops`.
pub fn plan_insert(
    info: &TableInfo,
    values: &Vec<(u32, Value)>,
    ops: Vec<TableOp>,
    returning: &Option<Vec<usize>>,
) -> (r: Result<InsertPlan, QueryError>)
    requires
        info.wf(),
    ensures
        r.is_ok() == forall|k: int| 0 <= k < info.columns@.len() ==> (#[trigger] cell_for(info.columns@[k], values@)).is_some(),
        r matches Ok(p) ==> {
            &&& p.tuple@.len() == info.columns@.len()
            &&& forall|k: int| 0 <= k < info.columns@.len() ==> cell_for(info.columns@[k], values@) == Some(#[trigger] p.tuple@[k])
            &&& match returning {
                Some(cols) => tuples_view(p.output@) == pipeline_output(
                    ops@,
                    seq![Seq::new(cols@.len(), |j: int| cell(p.tuple@, cols@[j] as int))],
                ),
                None => p.output@.len() == 0,
            }
        },
        r matches Err(e) ==> e matches QueryError::MissingValueForNonNullable(_),
{
    let tuple = match build_tuple(info, values) {
        Ok(t) => t,
        Err(e) => {
            return Err(e);
        },
    };
    let output = match returning {
        Some(cols) => {
            let projected = match apply_table_op(&TableOp::Project(copy_indices(cols)), tuple.copy()) {
                Some(p) => p,
                None => Tuple(Vec::new()),
            };
            let ghost pv = projected@;
            let input = vec![projected];
            assert(tuples_view(input@) =~= seq![pv]);
            run_ops(ops, input)
        },
        None => Vec::new(),
    };
    Ok(InsertPlan { tuple, output })
}

fn copy_indices(v: &Vec<usize>) -> (r: Vec<usize>)
    ensures
        r@ == v@,
{
    let mut out: Vec<usize> = Vec::with_capacity(v.len());
    let mut i: usize = 0;
    while i < v.len()
        invariant
            i <= v@.len(),
            out@ == v@.take(i as int),
        decreases v@.len() - i,
    {
        out.push(v[i]);
        i = i + 1;
        assert(out@ =~= v@.take(i as int));
    }
    assert(v@.take(i as int) =~= v@);
    out
}

/// What running a compiled query asks of the caller.
pub enum Execution {
    /// Scan the table at `table` of the catalog and feed each row to
    /// `pipeline`.
    Select { table: usize, pipeline: OpsPipeline },
    /// Insert `plan.tuple` into the heap of the table at `table`, then emit
    /// `plan.output`.
    Insert { table: usize, plan: InsertPlan },
}

/// Runs compiled queries against a catalog.
pub struct QueryExecutor;

impl QueryExecutor {
    pub fn new() -> QueryExecutor {
        QueryExecutor
    }

    /// Resolves the table of a transaction and prepares its rows: the
    /// operator pipeline of a scan, or the stored row and returned stream of
    /// an insert.
    pub fn execute(&self, catalog: &TableCatalog, transaction: Transaction) -> (r: Result<Execution, QueryError>)
        requires
            catalog.wf(),
        ensures
            match transaction {
                Transaction::Select { table, ops } => match r {
                    Ok(Execution::Select { table: i, pipeline }) => i < catalog.tables@.len() && catalog.tables@[i as int].name@
                        == table@ && pipeline.ops@ == ops@ && pipeline.taken == 0 && pipeline.offset_remaining == total_offset(ops@)
                        && match total_limit(ops@) {
                            Some(l) => pipeline.limit == Some(l as usize),
                            None => pipeline.limit.is_none(),
                        },
                    Ok(Execution::Insert { .. }) => false,
                    Err(e) => !catalog.has_table(table@) && (e matches QueryError::TableNotFound(n) && n@ == table@),
                },
                Transaction::Insert { table, values, ops, returning } => match r {
                    Ok(Execution::Insert { table: i, plan }) => {
                        &&& i < catalog.tables@.len()
                        &&& catalog.tables@[i as int].name@ == table@
                        &&& plan.tuple@.len() == catalog.tables@[i as int].info.columns@.len()
                        &&& forall|k: int|
                            0 <= k < catalog.tables@[i as int].info.columns@.len() ==> cell_for(
                                catalog.tables@[i as int].info.columns@[k],
                                values@,
                            ) == Some(#[trigger] plan.tuple@[k])
                        &&& match returning {
                            Some(cols) => tuples_view(plan.output@) == pipeline_output(
                                ops@,
                                seq![Seq::new(cols@.len(), |j: int| cell(plan.tuple@, cols@[j] as int))],
                            ),
                            None => plan.output@.len() == 0,
                        }
                    },
                    Ok(Execution::Select { .. }) => false,
                    Err(QueryError::TableNotFound(n)) => !catalog.has_table(table@) && n@ == table@,
                    Err(e) => catalog.has_table(table@) && (e matches QueryError::MissingValueForNonNullable(_)) && exists|i: int|
                        0 <= i < catalog.tables@.len() && (#[trigger] catalog.tables@[i]).name@ == table@ && !(forall|k: int|
                            0 <= k < catalog.tables@[i].info.columns@.len() ==> (#[trigger] cell_for(catalog.tables@[i].info.columns@[k], values@)).is_some()),
                },
            },
    {
        match transaction {
            Transaction::Select { table, ops } => match catalog.find_table(table.as_str()) {
                Some(i) => Ok(Execution::Select { table: i, pipeline: OpsPipeline::new(ops) }),
                None => Err(QueryError::TableNotFound(table)),
            },
            Transaction::Insert { table, values, ops, returning } => match catalog.find_table(table.as_str()) {
                Some(i) => match plan_insert(&catalog.tables[i].info, &values, ops, &returning) {
                    Ok(plan) => Ok(Execution::Insert { table: i, plan }),
                    Err(e) => Err(e),
                },
                None => Err(QueryError::TableNotFound(table)),
            },
        }
    }
}

} // verus!
