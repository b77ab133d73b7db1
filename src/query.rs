use vstd::prelude::*;
use crate::ast::{Expr, NodeId, TokenKind};
use crate::value::Value;

verus! {

/// A query expression produced from the source tree.
#[derive(Debug)]
pub enum QueryExpr {
    Transaction { typ: TransactionType, operations: Vec<TransactionOp> },
    Bind { input: Box<QueryExpr>, func: Box<QueryExpr> },
    Lambda { params: Vec<String>, body: NodeId },
    Reference(String),
    Literal(Value),
    Column(String),
    BinaryOp { left: Box<QueryExpr>, op: BinaryOperator, right: Box<QueryExpr> },
    Apply { func: Box<QueryExpr>, args: Vec<QueryExpr> },
    Binding { name: String, value: Box<QueryExpr>, body: Box<QueryExpr> },
    Predicate(Box<PredicateExpr>),
    Instance(Vec<(String, QueryExpr)>),
    Tuple(Vec<String>),
    BuiltInFunction { name: String },
}

/// What a transaction reads or writes.
#[derive(Debug)]
pub enum TransactionType {
    Scan { table_name: String },
    Insert { table_name: String, value: Box<QueryExpr>, returning: Option<Vec<String>> },
}

/// An operation applied to a transaction's rows.
#[derive(Debug)]
pub enum TransactionOp {
    Filter { predicate: Box<PredicateExpr> },
    Limit { count: i32 },
    Project { columns: Vec<String> },
    Offset { offset: i32 },
}

#[derive(Debug, Clone, Copy, PartialEq, Eq, Structural)]
pub enum JoinType {
    Inner,
    Left,
    Right,
    Full,
}

#[derive(Debug, Clone, Copy, PartialEq, Eq, Structural)]
pub enum SortDirection {
    Ascending,
    Descending,
}

/// A condition on a row.
#[derive(Debug)]
pub enum PredicateExpr {
    Comparison { left: QueryExpr, op: ComparisonOperator, right: QueryExpr },
    And(Box<PredicateExpr>, Box<PredicateExpr>),
    Or(Box<PredicateExpr>, Box<PredicateExpr>),
    Not(Box<PredicateExpr>),
    IsNull(QueryExpr),
    IsNotNull(QueryExpr),
    In(QueryExpr, Vec<QueryExpr>),
    Exists(Box<QueryExpr>),
}

#[derive(Debug, Clone, Copy, PartialEq, Eq, Hash, Structural)]
pub enum BinaryOperator {
    Add,
    Subtract,
    Multiply,
    Divide,
    Modulus,
    Power,
    Concat,
    And,
    Or,
}

#[derive(Debug, Clone, Copy, PartialEq, Eq, Hash, Structural)]
pub enum ComparisonOperator {
    Eq,
    Neq,
    Gt,
    GtEq,
    Lt,
    LtEq,
    Like,
    NotLike,
}

/// A compiled query: a scan or an insert, and the operators on its rows.
#[derive(Debug)]
pub enum Transaction {
    Insert { table: String, values: Vec<(u32, Value)>, ops: Vec<TableOp>, returning: Option<Vec<usize>> },
    Select { table: String, ops: Vec<TableOp> },
}

/// An operand of a compiled row condition.
#[derive(Debug)]
pub enum RowOperand {
    Column(usize),
    Literal(Value),
}

/// A compiled row condition.
#[derive(Debug)]
pub enum RowPredicate {
    Compare { left: RowOperand, op: ComparisonOperator, right: RowOperand },
    And(Box<RowPredicate>, Box<RowPredicate>),
    Or(Box<RowPredicate>, Box<RowPredicate>),
    Not(Box<RowPredicate>),
    IsNull(RowOperand),
    IsNotNull(RowOperand),
    /// A condition this engine does not evaluate yet; every row passes.
    Always,
}

/// An operator of the row pipeline.
#[derive(Debug)]
pub enum TableOp {
    Filter { column_index: usize, operator: ComparisonOperator, value: Value },
    Project(Vec<usize>),
    Limit(i32),
    Offset(i32),
    PredicativeFilter(RowPredicate),
}

/// Semantic errors of compiling and running a query.
#[derive(Debug)]
pub enum QueryError {
    TableNotFound(String),
    ColumnNotFound(String, String),
    NotATransaction,
    SymbolNotFound(String),
    /// A value where a row of literals, or a literal, is needed is neither.
    ExpectedRow,
    RowCannotBeEmbeddedIntoAnotherRow,
    MissingValueForNonNullable(String),
}

/// Errors of turning a source tree into a query expression.
#[derive(Debug)]
pub enum TransformError {
    EmptyBlock,
    UndefinedReference(String),
    UnsupportedOperator(TokenKind),
    InvalidFieldAccess,
    InvalidNumber,
    UnsupportedExpression(Expr),
    InvalidLambdaParams,
    ExpectedLambda,
    ExpectedNumber,
    InvalidArgument(String),
    TooManyArguments,
    UnknownFunction,
    WrongNumberOfArguments { name: String, expected: usize, found: usize },
    InvalidColumnName,
}

/// Rewrites a query expression before compilation.
pub trait QueryOptimizer {
    fn optimize(&self, plan: QueryExpr) -> QueryExpr;
}

/// The optimizer that leaves a query as it is.
pub struct IdentityOptimizer;

impl QueryOptimizer for IdentityOptimizer {
    fn optimize(&self, plan: QueryExpr) -> QueryExpr {
        plan
    }
}

broadcast use vstd::std_specs::vec::axiom_vec_index_decreases;

fn copy_strings(v: &Vec<String>) -> (r: Vec<String>)
    ensures
        r@.len() == v@.len(),
        forall|k: int| 0 <= k < v@.len() ==> (#[trigger] r@[k])@ == v@[k]@,
{
    let mut out: Vec<String> = Vec::with_capacity(v.len());
    let mut i: usize = 0;
    while i < v.len()
        invariant
            i <= v@.len(),
            out@.len() == i,
            forall|k: int| 0 <= k < i ==> (#[trigger] out@[k])@ == v@[k]@,
        decreases v@.len() - i,
    {
        out.push(v[i].clone());
        i = i + 1;
    }
    out
}

impl QueryExpr {
    /// A deep copy of this expression.
    pub fn duplicate(&self) -> (r: QueryExpr)
        decreases self,
    {
        match self {
            QueryExpr::Transaction { typ, operations } => {
                let typ = typ.duplicate();
                let mut ops: Vec<TransactionOp> = Vec::with_capacity(operations.len());
                let mut i: usize = 0;
                proof {
                    assert(decreases_to!(*self => *operations));
                }
                while i < operations.len()
                    invariant
                        i <= operations@.len(),
                        decreases_to!(*self => *operations),
                    decreases operations@.len() - i,
                {
                    proof {
                        assert(decreases_to!(*operations => operations[i as int]));
                    }
                    ops.push(operations[i].duplicate());
                    i = i + 1;
                }
                QueryExpr::Transaction { typ, operations: ops }
            },
            QueryExpr::Bind { input, func } => QueryExpr::Bind {
                input: Box::new((**input).duplicate()),
                func: Box::new((**func).duplicate()),
            },
            QueryExpr::Lambda { params, body } => QueryExpr::Lambda { params: copy_strings(params), body: *body },
            QueryExpr::Reference(n) => QueryExpr::Reference(n.clone()),
            QueryExpr::Literal(v) => QueryExpr::Literal(v.copy()),
            QueryExpr::Column(n) => QueryExpr::Column(n.clone()),
            QueryExpr::BinaryOp { left, op, right } => QueryExpr::BinaryOp {
                left: Box::new((**left).duplicate()),
                op: *op,
                right: Box::new((**right).duplicate()),
            },
            QueryExpr::Apply { func, args } => {
                let f = (**func).duplicate();
                let mut out: Vec<QueryExpr> = Vec::with_capacity(args.len());
                let mut i: usize = 0;
                proof {
                    assert(decreases_to!(*self => *args));
                }
                while i < args.len()
                    invariant
                        i <= args@.len(),
                        decreases_to!(*self => *args),
                    decreases args@.len() - i,
                {
                    proof {
                        assert(decreases_to!(*args => args[i as int]));
                    }
                    out.push(args[i].duplicate());
                    i = i + 1;
                }
                QueryExpr::Apply { func: Box::new(f), args: out }
            },
            QueryExpr::Binding { name, value, body } => QueryExpr::Binding {
                name: name.clone(),
                value: Box::new((**value).duplicate()),
                body: Box::new((**body).duplicate()),
            },
            QueryExpr::Predicate(p) => QueryExpr::Predicate(Box::new((**p).duplicate())),
            QueryExpr::Instance(fields) => {
                let mut out: Vec<(String, QueryExpr)> = Vec::with_capacity(fields.len());
                let mut i: usize = 0;
                proof {
                    assert(decreases_to!(*self => *fields));
                }
                while i < fields.len()
                    invariant
                        i <= fields@.len(),
                        decreases_to!(*self => *fields),
                    decreases fields@.len() - i,
                {
                    proof {
                        assert(decreases_to!(*fields => fields[i as int]));
                    }
                    assert(decreases_to!(fields[i as int] => fields[i as int].1));
                    let (n, e) = &fields[i];
                    out.push((n.clone(), e.duplicate()));
                    i = i + 1;
                }
                QueryExpr::Instance(out)
            },
            QueryExpr::Tuple(cols) => QueryExpr::Tuple(copy_strings(cols)),
            QueryExpr::BuiltInFunction { name } => QueryExpr::BuiltInFunction { name: name.clone() },
        }
    }
}

impl TransactionType {
    pub fn duplicate(&self) -> (r: TransactionType)
        decreases self,
    {
        match self {
            TransactionType::Scan { table_name } => TransactionType::Scan { table_name: table_name.clone() },
            TransactionType::Insert { table_name, value, returning } => TransactionType::Insert {
                table_name: table_name.clone(),
                value: Box::new((**value).duplicate()),
                returning: match returning {
                    Some(cols) => Some(copy_strings(cols)),
                    None => None,
                },
            },
        }
    }
}

impl TransactionOp {
    pub fn duplicate(&self) -> (r: TransactionOp)
        decreases self,
    {
        match self {
            TransactionOp::Filter { predicate } => TransactionOp::Filter { predicate: Box::new((**predicate).duplicate()) },
            TransactionOp::Limit { count } => TransactionOp::Limit { count: *count },
            TransactionOp::Project { columns } => TransactionOp::Project { columns: copy_strings(columns) },
            TransactionOp::Offset { offset } => TransactionOp::Offset { offset: *offset },
        }
    }
}

impl PredicateExpr {
    pub fn duplicate(&self) -> (r: PredicateExpr)
        decreases self,
    {
        match self {
            PredicateExpr::Comparison { left, op, right } => PredicateExpr::Comparison {
                left: left.duplicate(),
                op: *op,
                right: right.duplicate(),
            },
            PredicateExpr::And(a, b) => PredicateExpr::And(Box::new((**a).duplicate()), Box::new((**b).duplicate())),
            PredicateExpr::Or(a, b) => PredicateExpr::Or(Box::new((**a).duplicate()), Box::new((**b).duplicate())),
            PredicateExpr::Not(a) => PredicateExpr::Not(Box::new((**a).duplicate())),
            PredicateExpr::IsNull(e) => PredicateExpr::IsNull(e.duplicate()),
            PredicateExpr::IsNotNull(e) => PredicateExpr::IsNotNull(e.duplicate()),
            PredicateExpr::In(e, items) => {
                let first = e.duplicate();
                let mut out: Vec<QueryExpr> = Vec::with_capacity(items.len());
                let mut i: usize = 0;
                proof {
                    assert(decreases_to!(*self => *items));
                }
                while i < items.len()
                    invariant
                        i <= items@.len(),
                        decreases_to!(*self => *items),
                    decreases items@.len() - i,
                {
                    proof {
                        assert(decreases_to!(*items => items[i as int]));
                    }
                    out.push(items[i].duplicate());
                    i = i + 1;
                }
                PredicateExpr::In(first, out)
            },
            PredicateExpr::Exists(e) => PredicateExpr::Exists(Box::new((**e).duplicate())),
        }
    }
}

} // verus!
