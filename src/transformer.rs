use vstd::prelude::*;
use crate::ast::{Arena, Expr, NodeId, TokenKind};
use crate::query::{
    BinaryOperator, ComparisonOperator, PredicateExpr, QueryExpr, QueryOptimizer, TransactionOp,
    TransactionType, TransformError,
};
use crate::value::{text_eq, Value};

verus! {

/// Every character of `s` is an ASCII digit.
pub open spec fn all_digits(s: Seq<char>) -> bool {
    forall|i: int| 0 <= i < s.len() ==> '0' <= #[trigger] s[i] && s[i] <= '9'
}

/// The value of a string of decimal digits.
pub open spec fn digits_value(s: Seq<char>) -> int
    decreases s.len(),
{
    if s.len() == 0 {
        0
    } else {
        digits_value(s.drop_last()) * 10 + (s.last() as int - '0' as int)
    }
}

/// The decimal value of `s`, when `s` is an optional `+` or `-` followed
/// by one or more ASCII digits, and the value fits in an `i32`.
pub open spec fn i32_literal(s: Seq<char>) -> Option<i32> {
    let neg = s.len() > 0 && s[0] == '-';
    let body = if s.len() > 0 && (s[0] == '-' || s[0] == '+') { s.drop_first() } else { s };
    let v = if neg { -digits_value(body) } else { digits_value(body) };
    if body.len() > 0 && all_digits(body) && i32::MIN <= v <= i32::MAX {
        Some(v as i32)
    } else {
        None
    }
}

/// Relies on `str::parse::<i32>` (`i32::from_str`): an optional sign and
/// decimal digits, rejected when empty, malformed or out of range.
#[verifier::external_body]
fn parse_i32(s: &str) -> (r: Option<i32>)
    ensures
        r == i32_literal(s@),
{
    s.parse::<i32>().ok()
}

/// The literal of a numeral, given what `parse::<i32>` made of it: an
/// integer, or `InvalidNumber`.
pub fn number_literal(parsed: Option<i32>) -> (r: Result<QueryExpr, TransformError>)
    ensures
        match parsed {
            Some(n) => r matches Ok(QueryExpr::Literal(Value::Int(m))) && m == n,
            None => r matches Err(TransformError::InvalidNumber),
        },
{
    match parsed {
        Some(n) => Ok(QueryExpr::Literal(Value::Int(n))),
        None => Err(TransformError::InvalidNumber),
    }
}

/// What a leaf of the source tree becomes.
pub enum LeafV {
    Int(i32),
    Bool(bool),
    Text(Seq<char>),
    Column(Seq<char>),
    Ref(Seq<char>),
}

/// The leaf a query expression is, if it is one.
pub open spec fn leaf_of(q: QueryExpr) -> Option<LeafV> {
    match q {
        QueryExpr::Literal(Value::Int(n)) => Some(LeafV::Int(n)),
        QueryExpr::Literal(Value::Boolean(b)) => Some(LeafV::Bool(b)),
        QueryExpr::Literal(Value::Text(t)) => Some(LeafV::Text(t@)),
        QueryExpr::Column(c) => Some(LeafV::Column(c@)),
        QueryExpr::Reference(n) => Some(LeafV::Ref(n@)),
        _ => None,
    }
}

/// The comparison a token stands for.
pub open spec fn comparison_of(op: TokenKind) -> Option<ComparisonOperator> {
    match op {
        TokenKind::Equals => Some(ComparisonOperator::Eq),
        TokenKind::EqualsEquals => Some(ComparisonOperator::Eq),
        TokenKind::NotEquals => Some(ComparisonOperator::Neq),
        TokenKind::GreaterThan => Some(ComparisonOperator::Gt),
        TokenKind::GreaterThanEquals => Some(ComparisonOperator::GtEq),
        TokenKind::LessThan => Some(ComparisonOperator::Lt),
        TokenKind::LessThanEquals => Some(ComparisonOperator::LtEq),
        _ => None,
    }
}

/// The arithmetic operator a token stands for.
pub open spec fn arith_of(op: TokenKind) -> Option<BinaryOperator> {
    match op {
        TokenKind::Plus => Some(BinaryOperator::Add),
        TokenKind::Minus => Some(BinaryOperator::Subtract),
        TokenKind::Asterisk => Some(BinaryOperator::Multiply),
        TokenKind::Slash => Some(BinaryOperator::Divide),
        TokenKind::Percent => Some(BinaryOperator::Modulus),
        _ => None,
    }
}

/// The row variable of a transformer, as characters.
pub open spec fn row_of(v: Option<String>) -> Option<Seq<char>> {
    match v {
        Some(s) => Some(s@),
        None => None,
    }
}

/// The built-in transactional functions.
#[derive(Debug, Clone, Copy, PartialEq, Eq, Structural)]
pub enum BuiltIn {
    Scan,
    Filter,
    Insert,
    InsertReturning,
    Project,
    Limit,
    Offset,
}

/// A built-in function: its name, arity and lowering.
#[derive(Debug)]
pub struct BuiltInTransactionFunction {
    pub name: String,
    pub arity: usize,
    pub kind: BuiltIn,
}

/// A value bound by `let`.
#[derive(Debug)]
pub enum SymbolInfo {
    Value(QueryExpr),
    Function(QueryExpr),
}

/// Turns a source tree into a query expression.
pub struct AstToQueryTransformer<'a, O: QueryOptimizer> {
    pub arena: &'a Arena,
    pub optimizer: O,
    pub symbols: Vec<(String, SymbolInfo)>,
    pub scope_starts: Vec<usize>,
    pub current_row_variable: Option<String>,
    pub built_in_functions: Vec<BuiltInTransactionFunction>,
}

fn builtin(name: &str, arity: usize, kind: BuiltIn) -> (r: BuiltInTransactionFunction)
    ensures
        r.name@ == name@,
        r.arity == arity,
        r.kind == kind,
{
    BuiltInTransactionFunction { name: name.to_owned(), arity, kind }
}

impl<'a, O: QueryOptimizer> AstToQueryTransformer<'a, O> {
    pub fn new(arena: &'a Arena, optimizer: O) -> (r: Self)
        ensures
            r.arena == arena,
            r.symbols@.len() == 0,
            r.current_row_variable.is_none(),
            r.built_in_functions@.len() == 7,
            r.built_in_functions@[0].name@ == "scan"@ && r.built_in_functions@[0].arity == 1,
            r.built_in_functions@[1].name@ == "filter"@ && r.built_in_functions@[1].arity == 2,
            r.built_in_functions@[2].name@ == "insert_"@ && r.built_in_functions@[2].arity == 2,
            r.built_in_functions@[3].name@ == "insert"@ && r.built_in_functions@[3].arity == 3,
            r.built_in_functions@[4].name@ == "project"@ && r.built_in_functions@[4].arity == 2,
            r.built_in_functions@[5].name@ == "limit"@ && r.built_in_functions@[5].arity == 2,
            r.built_in_functions@[6].name@ == "offset"@ && r.built_in_functions@[6].arity == 2,
    {
        let built_in_functions = vec![
            builtin("scan", 1, BuiltIn::Scan),
            builtin("filter", 2, BuiltIn::Filter),
            builtin("insert_", 2, BuiltIn::Insert),
            builtin("insert", 3, BuiltIn::InsertReturning),
            builtin("project", 2, BuiltIn::Project),
            builtin("limit", 2, BuiltIn::Limit),
            builtin("offset", 2, BuiltIn::Offset),
        ];
        AstToQueryTransformer {
            arena,
            optimizer,
            symbols: Vec::new(),
            scope_starts: Vec::new(),
            current_row_variable: None,
            built_in_functions,
        }
    }

    /// Transforms the tree under `root_node`, then optimizes it.
    pub fn transform(&mut self, root_node: NodeId) -> (r: Result<QueryExpr, TransformError>)
        requires
            old(self).arena.wf(),
            root_node.0 < old(self).arena.nodes@.len(),
        ensures
            final(self).arena == old(self).arena,
            old(self).leaf(root_node, row_of(old(self).current_row_variable)).is_some() ==> r.is_ok(),
            old(self).arena.nodes@[root_node.0 as int] matches Expr::FunctionCall { func, args } ==> (old(self).builtin_ref(func) matches Some(b) ==> (old(self).leaves(args@, row_of(old(self).current_row_variable)) && args@.len()
                != old(self).built_in_functions@[old(self).first_builtin(b)].arity ==> (r matches Err(
                TransformError::WrongNumberOfArguments { name, expected, found },
            ) && name@ == b && expected == old(self).built_in_functions@[old(self).first_builtin(b)].arity && found
                == args@.len()))),
            old(self).arena.nodes@[root_node.0 as int] matches Expr::FunctionCall { func, args } ==> ((old(self).leaf(func, row_of(old(self).current_row_variable)).is_some()
                && old(self).leaves(args@, row_of(old(self).current_row_variable))) ==> r.is_ok()),
            old(self).arena.nodes@[root_node.0 as int] matches Expr::Instance(values) ==> ((forall|k: int|
                0 <= k < values@.len() ==> old(self).leaf((#[trigger] values@[k]).1, row_of(old(self).current_row_variable)).is_some()) ==> r.is_ok()),
            old(self).arena.nodes@[root_node.0 as int] matches Expr::BinaryOp { op, left, right } ==> match arith_of(op) {
                Some(a) => (old(self).leaf(left, row_of(old(self).current_row_variable)).is_some() && old(self).leaf(
                    right,
                    row_of(old(self).current_row_variable),
                ).is_some()) ==> r.is_ok(),
                None => r matches Err(TransformError::UnsupportedOperator(o)) && o == op,
            },
            old(self).arena.nodes@[root_node.0 as int] matches Expr::Number(s) ==> (i32_literal(old(self).arena.interner.ids@[s.0 as int]@).is_none() <==> r matches Err(TransformError::InvalidNumber)),
            (old(self).arena.nodes@[root_node.0 as int] is FieldAccess && old(self).leaf(root_node, row_of(old(self).current_row_variable)).is_none()) ==> r matches Err(TransformError::InvalidFieldAccess),
            (old(self).arena.nodes@[root_node.0 as int] is UnaryOp || old(self).arena.nodes@[root_node.0 as int] is Array
                || old(self).arena.nodes@[root_node.0 as int] is Block) ==> r matches Err(TransformError::UnsupportedExpression(_)),
    {
        match self.transform_node(root_node) {
            Ok(e) => Ok(self.optimizer.optimize(e)),
            Err(e) => Err(e),
        }
    }

    fn find_builtin(&self, name: &str) -> (r: Option<usize>)
        ensures
            r matches Some(i) ==> i < self.built_in_functions@.len() && self.built_in_functions@[i as int].name@ == name@
                && forall|j: int| 0 <= j < i ==> (#[trigger] self.built_in_functions@[j]).name@ != name@,
            r.is_none() ==> !self.is_builtin(name@),
    {
        let mut i: usize = 0;
        while i < self.built_in_functions.len()
            invariant
                i <= self.built_in_functions@.len(),
                forall|k: int| 0 <= k < i ==> (#[trigger] self.built_in_functions@[k]).name@ != name@,
            decreases self.built_in_functions@.len() - i,
        {
            if text_eq(self.built_in_functions[i].name.as_str(), name) {
                return Some(i);
            }
            i = i + 1;
        }
        None
    }

    /// What a leaf node transforms to, for row variable `row`: literals,
    /// field accesses on the row, and names that are neither built-in nor
    /// bound.
    pub open spec fn leaf(&self, id: NodeId, row: Option<Seq<char>>) -> Option<LeafV> {
        let ids = self.arena.interner.ids@;
        match self.arena.nodes@[id.0 as int] {
            Expr::Bool(b) => Some(LeafV::Bool(b)),
            Expr::StringLit(t) => Some(LeafV::Text(ids[t.0 as int]@)),
            Expr::Number(t) => match i32_literal(ids[t.0 as int]@) {
                Some(n) => Some(LeafV::Int(n)),
                None => None,
            },
            Expr::FieldAccess { base, field } => if (self.arena.nodes@[base.0 as int] matches Expr::Reference(n) && (row matches Some(v) && v == ids[n.0 as int]@)) {
                Some(LeafV::Column(ids[field.0 as int]@))
            } else {
                None
            },
            Expr::Reference(n) => if !self.is_builtin(ids[n.0 as int]@) && !self.is_bound(ids[n.0 as int]@) {
                Some(LeafV::Ref(ids[n.0 as int]@))
            } else {
                None
            },
            _ => None,
        }
    }

    /// A condition built from comparisons of leaves with `and`, `or` and
    /// `not`: one that transforms without error.
    pub open spec fn pred_simple(&self, id: NodeId, row: Option<Seq<char>>) -> bool
        decreases id.0,
    {
        match self.arena.nodes@[id.0 as int] {
            Expr::BinaryOp { op, left, right } => if left.0 < id.0 && right.0 < id.0 {
                if comparison_of(op).is_some() {
                    self.leaf(left, row).is_some() && self.leaf(right, row).is_some()
                } else if op is And || op is Or {
                    self.pred_simple(left, row) && self.pred_simple(right, row)
                } else {
                    false
                }
            } else {
                false
            },
            Expr::UnaryOp { op, operand } => operand.0 < id.0 && op is Not && self.pred_simple(operand, row),
            _ => false,
        }
    }

    /// What transforming a call of `func` on `args` gives, where the
    /// callee and arguments are leaves or built-in names.
    pub open spec fn call_result(&self, func: NodeId, args: Seq<NodeId>, r: Result<QueryExpr, TransformError>) -> bool {
        let row = row_of(self.current_row_variable);
            &&& self.builtin_ref(func) matches Some(b) ==> (self.leaves(args, row) && args.len()
                != self.built_in_functions@[self.first_builtin(b)].arity ==> (r matches Err(
                TransformError::WrongNumberOfArguments { name, expected, found },
            ) && name@ == b && expected == self.built_in_functions@[self.first_builtin(b)].arity && found
                == args.len()))
            &&& (self.leaf(func, row) == Some(LeafV::Ref("|>"@)) && args.len() == 2 && self.leaves(args, row))
                ==> (r matches Ok(QueryExpr::Bind { input, func: g }) && leaf_of(*input) == self.leaf(args[0], row)
                && leaf_of(*g) == self.leaf(args[1], row))
            &&& self.leaf(func, row) matches Some(l) ==> (!(l == LeafV::Ref("|>"@) && args.len() == 2)
                && self.leaves(args, row) ==> (r matches Ok(QueryExpr::Apply { func: g, args: a }) && leaf_of(*g)
                == Some(l) && a@.len() == args.len() && forall|k: int|
                0 <= k < a@.len() ==> leaf_of(#[trigger] a@[k]) == self.leaf(args[k], row)))
    }

    /// Every argument node is a leaf.
    pub open spec fn leaves(&self, args: Seq<NodeId>, row: Option<Seq<char>>) -> bool {
        forall|k: int| 0 <= k < args.len() ==> (#[trigger] self.leaf(args[k], row)).is_some()
    }

    /// The first registry entry named `name`.
    pub open spec fn first_builtin(&self, name: Seq<char>) -> int {
        choose|i: int|
            0 <= i < self.built_in_functions@.len() && self.built_in_functions@[i].name@ == name && forall|j: int|
                0 <= j < i ==> (#[trigger] self.built_in_functions@[j]).name@ != name
    }

    /// The name a node refers to, when it is a reference to a built-in.
    pub open spec fn builtin_ref(&self, id: NodeId) -> Option<Seq<char>> {
        match self.arena.nodes@[id.0 as int] {
            Expr::Reference(n) => if self.is_builtin(self.arena.interner.ids@[n.0 as int]@) {
                Some(self.arena.interner.ids@[n.0 as int]@)
            } else {
                None
            },
            _ => None,
        }
    }

    /// Whether `name` names a built-in function.
    pub open spec fn is_builtin(&self, name: Seq<char>) -> bool {
        exists|i: int| 0 <= i < self.built_in_functions@.len() && (#[trigger] self.built_in_functions@[i]).name@ == name
    }

    /// Whether a `let` in scope binds `name`.
    pub open spec fn is_bound(&self, name: Seq<char>) -> bool {
        exists|i: int| 0 <= i < self.symbols@.len() && (#[trigger] self.symbols@[i]).0@ == name
    }

    /// A built-in name becomes that function; a bound name its value;
    /// any other name stays a reference.
    pub fn resolve_reference(&self, name: &str) -> (r: QueryExpr)
        ensures
            self.is_builtin(name@) ==> (r matches QueryExpr::BuiltInFunction { name: n } && n@ == name@),
            !self.is_builtin(name@) && !self.is_bound(name@) ==> (r matches QueryExpr::Reference(n) && n@ == name@),
    {
        match self.find_builtin(name) {
            Some(i) => {
                return QueryExpr::BuiltInFunction { name: self.built_in_functions[i].name.clone() };
            },
            None => {},
        }
        let mut k: usize = self.symbols.len();
        while k > 0
            invariant
                !self.is_builtin(name@),
                k <= self.symbols@.len(),
                forall|j: int| k <= j < self.symbols@.len() ==> (#[trigger] self.symbols@[j]).0@ != name@,
            decreases k,
        {
            if text_eq(self.symbols[k - 1].0.as_str(), name) {
                return match &self.symbols[k - 1].1 {
                    SymbolInfo::Value(e) => e.duplicate(),
                    SymbolInfo::Function(e) => e.duplicate(),
                };
            }
            k = k - 1;
        }
        QueryExpr::Reference(name.to_owned())
    }

    pub fn push_scope(&mut self)
        ensures
            final(self).arena == old(self).arena,
            final(self).symbols == old(self).symbols,
            final(self).built_in_functions == old(self).built_in_functions,
            final(self).current_row_variable == old(self).current_row_variable,
    {
        self.scope_starts.push(self.symbols.len());
    }

    pub fn pop_scope(&mut self)
        ensures
            final(self).arena == old(self).arena,
    {
        match self.scope_starts.pop() {
            Some(start) => self.symbols.truncate(start),
            None => {},
        }
    }

    fn add_symbol(&mut self, name: String, info: SymbolInfo)
        ensures
            final(self).arena == old(self).arena,
    {
        self.symbols.push((name, info));
    }

    pub fn set_row_variable(&mut self, name: &str)
        ensures
            final(self).arena == old(self).arena,
            final(self).symbols == old(self).symbols,
            final(self).built_in_functions == old(self).built_in_functions,
            row_of(final(self).current_row_variable) == Some(name@),
    {
        self.current_row_variable = Some(name.to_owned());
    }

    pub fn clear_row_variable(&mut self)
        ensures
            final(self).arena == old(self).arena,
    {
        self.current_row_variable = None;
    }

    /// Transforms one node.
    pub fn transform_node(&mut self, node_id: NodeId) -> (r: Result<QueryExpr, TransformError>)
        requires
            old(self).arena.wf(),
            node_id.0 < old(self).arena.nodes@.len(),
        ensures
            final(self).arena == old(self).arena,
            old(self).arena.nodes@[node_id.0 as int] matches Expr::Bool(b) ==> r matches Ok(QueryExpr::Literal(Value::Boolean(c))) && c == b,
            old(self).arena.nodes@[node_id.0 as int] matches Expr::StringLit(s) ==> r matches Ok(QueryExpr::Literal(Value::Text(t))) && t@ == old(self).arena.interner.ids@[s.0 as int]@,
            old(self).arena.nodes@[node_id.0 as int] matches Expr::Number(s) ==> match i32_literal(old(self).arena.interner.ids@[s.0 as int]@) {
                Some(n) => r matches Ok(QueryExpr::Literal(Value::Int(m))) && m == n,
                None => r matches Err(TransformError::InvalidNumber),
            },
            old(self).arena.nodes@[node_id.0 as int] matches Expr::Reference(n) ==> {
                let name = old(self).arena.interner.ids@[n.0 as int]@;
                &&& old(self).is_builtin(name) ==> (r matches Ok(QueryExpr::BuiltInFunction { name: b }) && b@ == name)
                &&& !old(self).is_builtin(name) && !old(self).is_bound(name) ==> (r matches Ok(QueryExpr::Reference(m)) && m@ == name)
            },
            old(self).arena.nodes@[node_id.0 as int] matches Expr::FieldAccess { base, field } ==> {
                let ids = old(self).arena.interner.ids@;
                if (old(self).arena.nodes@[base.0 as int] matches Expr::Reference(n) && (old(self).current_row_variable matches Some(v) && v@ == ids[n.0 as int]@)) {
                    r matches Ok(QueryExpr::Column(c)) && c@ == ids[field.0 as int]@
                } else {
                    r matches Err(TransformError::InvalidFieldAccess)
                }
            },
            (old(self).arena.nodes@[node_id.0 as int] is UnaryOp || old(self).arena.nodes@[node_id.0 as int] is Array
                || old(self).arena.nodes@[node_id.0 as int] is Block) ==> r matches Err(TransformError::UnsupportedExpression(_)),
            (old(self).arena.nodes@[node_id.0 as int] matches Expr::BinaryOp { op, .. } && !(op is Plus || op is Minus || op is Asterisk || op is Slash || op is Percent)) ==> r.is_err(),
            old(self).leaf(node_id, row_of(old(self).current_row_variable)) matches Some(l) ==> (r matches Ok(q) && leaf_of(q) == Some(l) && *final(self) == *old(self)),
            old(self).arena.nodes@[node_id.0 as int] matches Expr::BinaryOp { op, left, right } ==> match arith_of(op) {
                Some(a) => (old(self).leaf(left, row_of(old(self).current_row_variable)).is_some() && old(self).leaf(
                    right,
                    row_of(old(self).current_row_variable),
                ).is_some()) ==> (r matches Ok(QueryExpr::BinaryOp { left: l, op: o, right: rr }) && o == a && leaf_of(*l)
                    == old(self).leaf(left, row_of(old(self).current_row_variable)) && leaf_of(*rr) == old(self).leaf(
                    right,
                    row_of(old(self).current_row_variable),
                ) && *final(self) == *old(self)),
                None => r matches Err(TransformError::UnsupportedOperator(o)) && o == op,
            },
            old(self).arena.nodes@[node_id.0 as int] matches Expr::Let { name, .. } ==> (r matches Ok(q) ==> (q matches QueryExpr::Binding { name: n, .. } && n@ == old(self).arena.interner.ids@[name.0 as int]@)),
            old(self).arena.nodes@[node_id.0 as int] matches Expr::Instance(values) ==> ((forall|k: int|
                0 <= k < values@.len() ==> old(self).leaf((#[trigger] values@[k]).1, row_of(old(self).current_row_variable)).is_some()) ==> (r matches Ok(QueryExpr::Instance(fs))
                && *final(self) == *old(self) && fs@.len() == values@.len() && forall|k: int|
                0 <= k < values@.len() ==> (#[trigger] fs@[k]).0@ == old(self).arena.interner.ids@[values@[k].0.0 as int]@
                    && leaf_of(fs@[k].1) == old(self).leaf(values@[k].1, row_of(old(self).current_row_variable)))),
            old(self).arena.nodes@[node_id.0 as int] is Reference ==> *final(self) == *old(self),
            old(self).arena.nodes@[node_id.0 as int] matches Expr::FunctionCall { func, args } ==> old(self).call_result(func, args@, r),
        decreases node_id.0, 3int,
    {
        let arena = self.arena;
        proof {
            assert(crate::ast::expr_refs_below(arena.nodes@[node_id.0 as int], node_id.0 as int, arena.interner.ids@.len() as int));
        }
        match arena.get(node_id) {
            Expr::Reference(name_id) => {
                let name = arena.resolve_str(*name_id);
                Ok(self.resolve_reference(name))
            },
            Expr::Lambda { params, body } => {
                let mut names: Vec<String> = Vec::new();
                let mut i: usize = 0;
                while i < params.len()
                    invariant
                        arena.wf(),
                        i <= params@.len(),
                        forall|k: int| 0 <= k < params@.len() ==> (#[trigger] params@[k]).0 < arena.interner.ids@.len(),
                    decreases params@.len() - i,
                {
                    names.push(arena.resolve_str(params[i]).to_owned());
                    i = i + 1;
                }
                Ok(QueryExpr::Lambda { params: names, body: *body })
            },
            Expr::FunctionCall { func, args } => self.transform_call(node_id, *func, args),
            Expr::Let { name, value, body } => {
                let value_expr = match self.transform_node(*value) {
                    Ok(e) => e,
                    Err(e) => {
                        return Err(e);
                    },
                };
                let name_str = arena.resolve_str(*name).to_owned();
                self.push_scope();
                self.add_symbol(name_str.clone(), SymbolInfo::Value(value_expr.duplicate()));
                let body_expr = self.transform_node(*body);
                self.pop_scope();
                match body_expr {
                    Ok(b) => Ok(QueryExpr::Binding { name: name_str, value: Box::new(value_expr), body: Box::new(b) }),
                    Err(e) => Err(e),
                }
            },
            Expr::BinaryOp { op, left, right } => {
                let operator = match op {
                    TokenKind::Plus => BinaryOperator::Add,
                    TokenKind::Minus => BinaryOperator::Subtract,
                    TokenKind::Asterisk => BinaryOperator::Multiply,
                    TokenKind::Slash => BinaryOperator::Divide,
                    TokenKind::Percent => BinaryOperator::Modulus,
                    _ => {
                        return Err(TransformError::UnsupportedOperator(*op));
                    },
                };
                let left_expr = match self.transform_node(*left) {
                    Ok(e) => e,
                    Err(e) => {
                        return Err(e);
                    },
                };
                let right_expr = match self.transform_node(*right) {
                    Ok(e) => e,
                    Err(e) => {
                        return Err(e);
                    },
                };
                Ok(QueryExpr::BinaryOp { left: Box::new(left_expr), op: operator, right: Box::new(right_expr) })
            },
            Expr::Number(num_id) => {
                number_literal(parse_i32(arena.resolve_str(*num_id)))
            },
            Expr::StringLit(str_id) => Ok(QueryExpr::Literal(Value::Text(arena.resolve_str(*str_id).to_owned()))),
            Expr::Bool(b) => Ok(QueryExpr::Literal(Value::Boolean(*b))),
            Expr::Instance(values) => {
                let mut fields: Vec<(String, QueryExpr)> = Vec::new();
                let mut i: usize = 0;
                while i < values.len()
                    invariant
                        self.arena == arena,
                        arena == old(self).arena,
                        arena.wf(),
                        node_id.0 < arena.nodes@.len(),
                        !(arena.nodes@[node_id.0 as int] is Bool),
                        !(arena.nodes@[node_id.0 as int] is StringLit),
                        !(arena.nodes@[node_id.0 as int] is Number),
                        !(arena.nodes@[node_id.0 as int] is Reference),
                        !(arena.nodes@[node_id.0 as int] is FieldAccess),
                        !(arena.nodes@[node_id.0 as int] is UnaryOp),
                        !(arena.nodes@[node_id.0 as int] is Array),
                        !(arena.nodes@[node_id.0 as int] is Block),
                        !(arena.nodes@[node_id.0 as int] is BinaryOp),
                        !(arena.nodes@[node_id.0 as int] is Let),
                        !(arena.nodes@[node_id.0 as int] is FunctionCall),
                        i <= values@.len(),
                        forall|k: int| 0 <= k < values@.len() ==> (#[trigger] values@[k]).1.0 < node_id.0 && values@[k].0.0 < arena.interner.ids@.len(),
                        arena.nodes@[node_id.0 as int] == Expr::Instance(*values),
                        (forall|k: int| 0 <= k < values@.len() ==> old(self).leaf((#[trigger] values@[k]).1, row_of(old(self).current_row_variable)).is_some()) ==> (
                            *self == *old(self) && fields@.len() == i && forall|k: int|
                            0 <= k < i ==> (#[trigger] fields@[k]).0@ == arena.interner.ids@[values@[k].0.0 as int]@
                                && leaf_of(fields@[k].1) == old(self).leaf(values@[k].1, row_of(old(self).current_row_variable))),
                    decreases values@.len() - i,
                {
                    let (name_id, value) = values[i];
                    let name = arena.resolve_str(name_id).to_owned();
                    match self.transform_node(value) {
                        Ok(e) => fields.push((name, e)),
                        Err(e) => {
                            return Err(e);
                        },
                    }
                    i = i + 1;
                }
                Ok(QueryExpr::Instance(fields))
            },
            Expr::FieldAccess { base, field } => {
                let base_name = match arena.get(*base) {
                    Expr::Reference(name_id) => {
                        proof {
                            assert(crate::ast::expr_refs_below(arena.nodes@[base.0 as int], base.0 as int, arena.interner.ids@.len() as int));
                        }
                        arena.resolve_str(*name_id)
                    },
                    _ => {
                        return Err(TransformError::InvalidFieldAccess);
                    },
                };
                match &self.current_row_variable {
                    Some(row_var) => {
                        if text_eq(base_name, row_var.as_str()) {
                            Ok(QueryExpr::Column(arena.resolve_str(*field).to_owned()))
                        } else {
                            Err(TransformError::InvalidFieldAccess)
                        }
                    },
                    None => Err(TransformError::InvalidFieldAccess),
                }
            },
            Expr::Tuple(items) => {
                let mut fields: Vec<String> = Vec::new();
                let mut i: usize = 0;
                while i < items.len()
                    invariant
                        self.arena == arena,
                        arena == old(self).arena,
                        arena.wf(),
                        node_id.0 < arena.nodes@.len(),
                        !(arena.nodes@[node_id.0 as int] is Bool),
                        !(arena.nodes@[node_id.0 as int] is StringLit),
                        !(arena.nodes@[node_id.0 as int] is Number),
                        !(arena.nodes@[node_id.0 as int] is Reference),
                        !(arena.nodes@[node_id.0 as int] is FieldAccess),
                        !(arena.nodes@[node_id.0 as int] is UnaryOp),
                        !(arena.nodes@[node_id.0 as int] is Array),
                        !(arena.nodes@[node_id.0 as int] is Block),
                        !(arena.nodes@[node_id.0 as int] is BinaryOp),
                        !(arena.nodes@[node_id.0 as int] is Let),
                        !(arena.nodes@[node_id.0 as int] is FunctionCall),
                        !(arena.nodes@[node_id.0 as int] is Instance),
                        i <= items@.len(),
                        forall|k: int| 0 <= k < items@.len() ==> (#[trigger] items@[k]).0 < node_id.0,
                    decreases items@.len() - i,
                {
                    match self.transform_node(items[i]) {
                        Ok(QueryExpr::Reference(name)) => fields.push(name),
                        Ok(_) => {
                            return Err(TransformError::InvalidColumnName);
                        },
                        Err(e) => {
                            return Err(e);
                        },
                    }
                    i = i + 1;
                }
                Ok(QueryExpr::Tuple(fields))
            },
            Expr::UnaryOp { .. } | Expr::Array(_) | Expr::Block(_) => Err(TransformError::UnsupportedExpression(arena.get(node_id).clone())),
        }
    }

    /// Transforms a call: `a |> f` becomes `Bind`, a built-in call with
    /// the built-in's arity is lowered by it, a built-in call with another
    /// number of arguments is `WrongNumberOfArguments`, any other call
    /// becomes `Apply`.
    #[verifier::rlimit(100)]
    fn transform_call(&mut self, node_id: NodeId, func: NodeId, args: &Vec<NodeId>) -> (r: Result<QueryExpr, TransformError>)
        requires
            old(self).arena.wf(),
            node_id.0 < old(self).arena.nodes@.len(),
            old(self).arena.nodes@[node_id.0 as int] == (Expr::FunctionCall { func, args: *args }),
        ensures
            final(self).arena == old(self).arena,
            old(self).call_result(func, args@, r),
        decreases node_id.0, 2int,
    {
        let arena = self.arena;
        proof {
            assert(crate::ast::expr_refs_below(arena.nodes@[node_id.0 as int], node_id.0 as int, arena.interner.ids@.len() as int));
            let e = arena.nodes@[node_id.0 as int];
            assert(e == (Expr::FunctionCall { func, args: *args }));
            assert forall|k: int| 0 <= k < args@.len() implies (#[trigger] args@[k]).0 < node_id.0 by {
                assert(e->FunctionCall_args@[k] == args@[k]);
            }
        }
        let func_expr = match self.transform_node(func) {
            Ok(e) => e,
            Err(e) => {
                return Err(e);
            },
        };
        let mut arg_exprs: Vec<QueryExpr> = Vec::new();
        let mut i: usize = 0;
        while i < args.len()
            invariant
                self.arena == arena,
                arena == old(self).arena,
                arena.wf(),
                node_id.0 < arena.nodes@.len(),
                arena.nodes@[node_id.0 as int] == (Expr::FunctionCall { func, args: *args }),
                i <= args@.len(),
                forall|k: int| 0 <= k < args@.len() ==> (#[trigger] args@[k]).0 < node_id.0,
                old(self).leaf(func, row_of(old(self).current_row_variable)) matches Some(l) ==> leaf_of(func_expr) == Some(l),
                old(self).builtin_ref(func) matches Some(b) ==> (func_expr matches QueryExpr::BuiltInFunction { name } && name@ == b),
                ((old(self).leaf(func, row_of(old(self).current_row_variable)).is_some() || old(self).builtin_ref(func).is_some())
                    && old(self).leaves(args@, row_of(old(self).current_row_variable))) ==> (*self == *old(self)
                    && arg_exprs@.len() == i && forall|k: int| 0 <= k < i ==> leaf_of(#[trigger] arg_exprs@[k]) == old(self).leaf(args@[k], row_of(old(self).current_row_variable))),
            decreases args@.len() - i,
        {
            match self.transform_node(args[i]) {
                Ok(e) => arg_exprs.push(e),
                Err(e) => {
                    return Err(e);
                },
            }
            i = i + 1;
        }
        if let QueryExpr::Reference(op_name) = &func_expr {
            if text_eq(op_name.as_str(), "|>") && arg_exprs.len() == 2 {
                let second = arg_exprs.pop().unwrap();
                let first = arg_exprs.pop().unwrap();
                return Ok(QueryExpr::Bind { input: Box::new(first), func: Box::new(second) });
            }
        }
        match func_expr {
            QueryExpr::BuiltInFunction { name } => match self.find_builtin(name.as_str()) {
                Some(b) => {
                    let arity = self.built_in_functions[b].arity;
                    let kind = self.built_in_functions[b].kind;
                    if arg_exprs.len() == arity {
                        self.apply_builtin(kind, arg_exprs, node_id)
                    } else {
                        Err(TransformError::WrongNumberOfArguments { name, expected: arity, found: arg_exprs.len() })
                    }
                },
                None => Err(TransformError::UnknownFunction),
            },
            _ => Ok(QueryExpr::Apply { func: Box::new(func_expr), args: arg_exprs }),
        }
        }

    fn apply_builtin(&mut self, kind: BuiltIn, args: Vec<QueryExpr>, node_id: NodeId) -> (r: Result<QueryExpr, TransformError>)
        requires
            old(self).arena.wf(),
            node_id.0 < old(self).arena.nodes@.len(),
        ensures
            final(self).arena == old(self).arena,
        decreases node_id.0, 1int,
    {
        match kind {
            BuiltIn::Scan => scan_impl(self, args),
            BuiltIn::Filter => filter_impl(self, args, node_id),
            BuiltIn::Insert => insert_impl(self, args),
            BuiltIn::InsertReturning => insert_r_impl(self, args),
            BuiltIn::Project => project_impl(self, args),
            BuiltIn::Limit => limit_impl(self, args),
            BuiltIn::Offset => offset_impl(self, args),
        }
    }

    /// Transforms a condition: comparisons of two expressions, `and`, `or`
    /// and `not`.
    pub fn transform_to_predicate(&mut self, node_id: NodeId) -> (r: Result<PredicateExpr, TransformError>)
        requires
            old(self).arena.wf(),
            node_id.0 < old(self).arena.nodes@.len(),
        ensures
            final(self).arena == old(self).arena,
            old(self).pred_simple(node_id, row_of(old(self).current_row_variable)) ==> r.is_ok() && *final(self) == *old(self),
            match old(self).arena.nodes@[node_id.0 as int] {
                Expr::BinaryOp { op, left, right } => match comparison_of(op) {
                    Some(cmp) => {
                        &&& (r matches Ok(p) ==> (p matches PredicateExpr::Comparison { op: o, .. } && o == cmp))
                        &&& (old(self).leaf(left, row_of(old(self).current_row_variable)).is_some() && old(self).leaf(
                            right,
                            row_of(old(self).current_row_variable),
                        ).is_some()) ==> (r matches Ok(PredicateExpr::Comparison { left: l, right: rr, .. })
                            && leaf_of(l) == old(self).leaf(left, row_of(old(self).current_row_variable))
                            && leaf_of(rr) == old(self).leaf(right, row_of(old(self).current_row_variable)))
                    },
                    None => if op is And {
                        r matches Ok(p) ==> p is And
                    } else if op is Or {
                        r matches Ok(p) ==> p is Or
                    } else {
                        r matches Err(TransformError::UnsupportedOperator(o)) && o == op
                    },
                },
                Expr::UnaryOp { op, .. } => if op is Not {
                    r matches Ok(p) ==> p is Not
                } else {
                    r matches Err(TransformError::UnsupportedOperator(o)) && o == op
                },
                _ => r matches Err(TransformError::UnsupportedExpression(_)),
            },
        decreases node_id.0, 2int,
    {
        let arena = self.arena;
        proof {
            assert(crate::ast::expr_refs_below(arena.nodes@[node_id.0 as int], node_id.0 as int, arena.interner.ids@.len() as int));
        }
        match arena.get(node_id) {
            Expr::BinaryOp { op, left, right } => {
                let operator = match op {
                    TokenKind::Equals => ComparisonOperator::Eq,
                    TokenKind::EqualsEquals => ComparisonOperator::Eq,
                    TokenKind::NotEquals => ComparisonOperator::Neq,
                    TokenKind::GreaterThan => ComparisonOperator::Gt,
                    TokenKind::GreaterThanEquals => ComparisonOperator::GtEq,
                    TokenKind::LessThan => ComparisonOperator::Lt,
                    TokenKind::LessThanEquals => ComparisonOperator::LtEq,
                    TokenKind::And => {
                        let l = match self.transform_to_predicate(*left) {
                            Ok(p) => p,
                            Err(e) => {
                                return Err(e);
                            },
                        };
                        let r = match self.transform_to_predicate(*right) {
                            Ok(p) => p,
                            Err(e) => {
                                return Err(e);
                            },
                        };
                        return Ok(PredicateExpr::And(Box::new(l), Box::new(r)));
                    },
                    TokenKind::Or => {
                        let l = match self.transform_to_predicate(*left) {
                            Ok(p) => p,
                            Err(e) => {
                                return Err(e);
                            },
                        };
                        let r = match self.transform_to_predicate(*right) {
                            Ok(p) => p,
                            Err(e) => {
                                return Err(e);
                            },
                        };
                        return Ok(PredicateExpr::Or(Box::new(l), Box::new(r)));
                    },
                    _ => {
                        return Err(TransformError::UnsupportedOperator(*op));
                    },
                };
                let left_expr = match self.transform_node(*left) {
                    Ok(e) => e,
                    Err(e) => {
                        return Err(e);
                    },
                };
                let right_expr = match self.transform_node(*right) {
                    Ok(e) => e,
                    Err(e) => {
                        return Err(e);
                    },
                };
                Ok(PredicateExpr::Comparison { left: left_expr, op: operator, right: right_expr })
            },
            Expr::UnaryOp { op, operand } => {
                if *op == TokenKind::Not {
                    match self.transform_to_predicate(*operand) {
                        Ok(p) => Ok(PredicateExpr::Not(Box::new(p))),
                        Err(e) => Err(e),
                    }
                } else {
                    Err(TransformError::UnsupportedOperator(*op))
                }
            },
            _ => Err(TransformError::UnsupportedExpression(arena.get(node_id).clone())),
        }
    }
}

/// The table an argument names: a reference or a text literal.
pub open spec fn named_table(e: QueryExpr) -> Option<Seq<char>> {
    match e {
        QueryExpr::Reference(n) => Some(n@),
        QueryExpr::Literal(Value::Text(n)) => Some(n@),
        _ => None,
    }
}

/// A column list argument: a tuple of names, or a single name.
pub open spec fn named_columns(e: QueryExpr) -> Option<Seq<Seq<char>>> {
    match e {
        QueryExpr::Tuple(cols) => Some(cols@.map_values(|c: String| c@)),
        QueryExpr::Reference(n) => Some(seq![n@]),
        _ => None,
    }
}

/// `q` is the transaction `input` with `op` appended to its operations.
pub open spec fn appended(input: QueryExpr, op: TransactionOp, q: QueryExpr) -> bool {
    match (input, q) {
        (QueryExpr::Transaction { typ: t0, operations: o0 }, QueryExpr::Transaction { typ: t1, operations: o1 }) => t1
            == t0 && o1@ == o0@.push(op),
        _ => false,
    }
}

fn table_name_of(e: &QueryExpr) -> (r: Option<String>)
    ensures
        match named_table(*e) {
            Some(n) => r matches Some(m) && m@ == n,
            None => r.is_none(),
        },
{
    match e {
        QueryExpr::Reference(n) => Some(n.clone()),
        QueryExpr::Literal(Value::Text(n)) => Some(n.clone()),
        _ => None,
    }
}

fn append_op(input: QueryExpr, op: TransactionOp, builtin_name: &str) -> (r: Result<QueryExpr, TransformError>)
    ensures
        input is Transaction <==> r.is_ok(),
        r matches Ok(q) ==> appended(input, op, q),
        r matches Err(e) ==> (e matches TransformError::InvalidArgument(n) && n@ == builtin_name@),
{
    match input {
        QueryExpr::Transaction { typ, operations } => {
            let mut operations = operations;
            operations.push(op);
            Ok(QueryExpr::Transaction { typ, operations })
        },
        _ => Err(TransformError::InvalidArgument(builtin_name.to_owned())),
    }
}

/// `scan(table)`: a scan of the table with no operations.
pub fn scan_impl<'a, O: QueryOptimizer>(transformer: &mut AstToQueryTransformer<'a, O>, args: Vec<QueryExpr>) -> (r: Result<QueryExpr, TransformError>)
    ensures
        *final(transformer) == *old(transformer),
        args@.len() >= 1 ==> match named_table(args@[0]) {
            Some(t) => r matches Ok(QueryExpr::Transaction { typ: TransactionType::Scan { table_name }, operations })
                && table_name@ == t && operations@.len() == 0,
            None => r matches Err(TransformError::InvalidArgument(_)),
        },
{
    if args.len() < 1 {
        return Err(TransformError::InvalidArgument("scan".to_owned()));
    }
    match table_name_of(&args[0]) {
        Some(table_name) => Ok(QueryExpr::Transaction { typ: TransactionType::Scan { table_name }, operations: Vec::new() }),
        None => Err(TransformError::InvalidArgument("scan".to_owned())),
    }
}

/// `filter(\r -> condition, input)`: appends the condition, with `r` as
/// the row, to the input transaction.
pub fn filter_impl<'a, O: QueryOptimizer>(transformer: &mut AstToQueryTransformer<'a, O>, args: Vec<QueryExpr>, node_id: NodeId) -> (r: Result<QueryExpr, TransformError>)
    requires
        old(transformer).arena.wf(),
        node_id.0 < old(transformer).arena.nodes@.len(),
    ensures
        final(transformer).arena == old(transformer).arena,
        args@.len() == 2 ==> match args@[0] {
            QueryExpr::Lambda { params, body } => {
                &&& (params@.len() != 1 ==> r matches Err(TransformError::InvalidLambdaParams))
                &&& (r matches Ok(q) ==> exists|p: PredicateExpr| #[trigger] appended(args@[1], TransactionOp::Filter { predicate: Box::new(p) }, q))
                &&& (params@.len() == 1 && body.0 < node_id.0 && args@[1] is Transaction && old(transformer).pred_simple(
                    body,
                    Some(params@[0]@),
                )) ==> r.is_ok()
            },
            _ => r matches Err(TransformError::ExpectedLambda),
        },
    decreases node_id.0, 0int,
{
    let mut args = args;
    if args.len() < 2 {
        return Err(TransformError::InvalidArgument("filter".to_owned()));
    }
    let ghost a1 = args@[args@.len() - 1];
    let input = args.pop().unwrap();
    let lambda = args.pop().unwrap();
    match lambda {
        QueryExpr::Lambda { params, body } => {
            if params.len() != 1 {
                return Err(TransformError::InvalidLambdaParams);
            }
            if body.index() >= node_id.index() {
                return Err(TransformError::InvalidArgument("filter".to_owned()));
            }
            let ghost t0 = *transformer;
            transformer.push_scope();
            transformer.set_row_variable(params[0].as_str());
            proof {
                assert(transformer.symbols == t0.symbols);
                assert(transformer.built_in_functions == t0.built_in_functions);
                lemma_pred_simple_frame(t0, *transformer, body, Some(params@[0]@));
            }
            let predicate = transformer.transform_to_predicate(body);
            transformer.pop_scope();
            transformer.clear_row_variable();
            match predicate {
                Ok(p) => {
                    let r = append_op(input, TransactionOp::Filter { predicate: Box::new(p) }, "filter");
                    proof {
                        if r.is_ok() {
                            let q = r.unwrap();
                            assert(appended(a1, TransactionOp::Filter { predicate: Box::new(p) }, q));
                        }
                    }
                    r
                },
                Err(e) => Err(e),
            }
        },
        _ => Err(TransformError::ExpectedLambda),
    }
}

/// `insert_(row, table)` (also `insert_(table, row)`): an insert without
/// returned columns.
pub fn insert_impl<'a, O: QueryOptimizer>(transformer: &mut AstToQueryTransformer<'a, O>, args: Vec<QueryExpr>) -> (r: Result<QueryExpr, TransformError>)
    ensures
        *final(transformer) == *old(transformer),
        args@.len() == 2 ==> match (args@[0], args@[1]) {
            (QueryExpr::Reference(t), v) => r matches Ok(QueryExpr::Transaction {
                typ: TransactionType::Insert { table_name, value, returning: None },
                operations,
            }) && table_name@ == t@ && *value == v && operations@.len() == 0,
            (v, QueryExpr::Reference(t)) => r matches Ok(QueryExpr::Transaction {
                typ: TransactionType::Insert { table_name, value, returning: None },
                operations,
            }) && table_name@ == t@ && *value == v && operations@.len() == 0,
            _ => r matches Err(TransformError::InvalidArgument(_)),
        },
{
    let mut args = args;
    if args.len() != 2 {
        return Err(TransformError::InvalidArgument("insert".to_owned()));
    }
    let second = args.pop().unwrap();
    let first = args.pop().unwrap();
    let (table_name, value) = match (first, second) {
        (QueryExpr::Reference(t), v) => (t, v),
        (v, QueryExpr::Reference(t)) => (t, v),
        _ => {
            return Err(TransformError::InvalidArgument("insert".to_owned()));
        },
    };
    Ok(
        QueryExpr::Transaction {
            typ: TransactionType::Insert { table_name, value: Box::new(value), returning: None },
            operations: Vec::new(),
        },
    )
}

fn column_list(e: QueryExpr, builtin_name: &str) -> (r: Result<Vec<String>, TransformError>)
    ensures
        match named_columns(e) {
            Some(cs) => r matches Ok(v) && v@.map_values(|c: String| c@) == cs,
            None => r matches Err(TransformError::InvalidArgument(n)) && n@ == builtin_name@,
        },
{
    match e {
        QueryExpr::Tuple(cols) => Ok(cols),
        QueryExpr::Reference(name) => {
            let mut v: Vec<String> = Vec::new();
            v.push(name);
            assert(v@.map_values(|c: String| c@) =~= seq![v@[0]@]);
            Ok(v)
        },
        _ => Err(TransformError::InvalidArgument(builtin_name.to_owned())),
    }
}

/// `insert(row, (columns), table)` (also `insert(table, row, (columns))`):
/// an insert that returns the named columns of the stored row.
pub fn insert_r_impl<'a, O: QueryOptimizer>(transformer: &mut AstToQueryTransformer<'a, O>, args: Vec<QueryExpr>) -> (r: Result<QueryExpr, TransformError>)
    ensures
        *final(transformer) == *old(transformer),
        args@.len() == 3 ==> ({
            let (t, v, c) = if args@[0] is Reference {
                (args@[0], args@[1], args@[2])
            } else {
                (args@[2], args@[0], args@[1])
            };
            if (t is Reference) && named_columns(c).is_some() {
                r matches Ok(QueryExpr::Transaction {
                    typ: TransactionType::Insert { table_name, value, returning: Some(cols) },
                    operations,
                }) && table_name@ == t->Reference_0@ && *value == v && operations@.len() == 0 && Some(
                    cols@.map_values(|s: String| s@),
                ) == named_columns(c)
            } else {
                r matches Err(TransformError::InvalidArgument(_))
            }
        }),
{
    let mut args = args;
    if args.len() != 3 {
        return Err(TransformError::InvalidArgument("insertR".to_owned()));
    }
    let third = args.pop().unwrap();
    let second = args.pop().unwrap();
    let first = args.pop().unwrap();
    let (table_name, value, cols) = match first {
        QueryExpr::Reference(t) => (t, second, third),
        v => match third {
            QueryExpr::Reference(t) => (t, v, second),
            _ => {
                return Err(TransformError::InvalidArgument("insertR".to_owned()));
            },
        },
    };
    let columns = match column_list(cols, "insertR") {
        Ok(c) => c,
        Err(e) => {
            return Err(e);
        },
    };
    Ok(
        QueryExpr::Transaction {
            typ: TransactionType::Insert { table_name, value: Box::new(value), returning: Some(columns) },
            operations: Vec::new(),
        },
    )
}

/// `project((columns), input)`.
pub fn project_impl<'a, O: QueryOptimizer>(transformer: &mut AstToQueryTransformer<'a, O>, args: Vec<QueryExpr>) -> (r: Result<QueryExpr, TransformError>)
    ensures
        *final(transformer) == *old(transformer),
        args@.len() == 2 ==> match named_columns(args@[0]) {
            Some(cs) => {
                &&& r.is_ok() == args@[1] is Transaction
                &&& (r matches Ok(q) ==> exists|cols: Vec<String>|
                    cols@.map_values(|c: String| c@) == cs && #[trigger] appended(args@[1], TransactionOp::Project { columns: cols }, q))
            },
            None => r matches Err(TransformError::ExpectedLambda),
        },
{
    let mut args = args;
    if args.len() != 2 {
        return Err(TransformError::InvalidArgument("project".to_owned()));
    }
    let ghost a1 = args@[1];
    let input = args.pop().unwrap();
    let cols = args.pop().unwrap();
    let columns = match column_list(cols, "project") {
        Ok(c) => c,
        Err(_) => {
            return Err(TransformError::ExpectedLambda);
        },
    };
    let ghost cv = columns;
    let r = append_op(input, TransactionOp::Project { columns }, "project");
    proof {
        if r.is_ok() {
            assert(appended(a1, TransactionOp::Project { columns: cv }, r.unwrap()));
        }
    }
    r
}

/// `limit(n, input)` for an integer literal `n`.
pub fn limit_impl<'a, O: QueryOptimizer>(transformer: &mut AstToQueryTransformer<'a, O>, args: Vec<QueryExpr>) -> (r: Result<QueryExpr, TransformError>)
    ensures
        *final(transformer) == *old(transformer),
        args@.len() == 2 ==> match args@[0] {
            QueryExpr::Literal(Value::Int(n)) => match r {
                Ok(q) => appended(args@[1], TransactionOp::Limit { count: n }, q),
                Err(e) => !(args@[1] is Transaction) && (e matches TransformError::InvalidArgument(_)),
            },
            _ => r matches Err(TransformError::ExpectedNumber),
        },
{
    let mut args = args;
    if args.len() != 2 {
        return Err(TransformError::InvalidArgument("limit".to_owned()));
    }
    let input = args.pop().unwrap();
    let n = args.pop().unwrap();
    match n {
        QueryExpr::Literal(Value::Int(count)) => append_op(input, TransactionOp::Limit { count }, "limit"),
        _ => Err(TransformError::ExpectedNumber),
    }
}

/// `offset(n, input)` for an integer literal `n`.
pub fn offset_impl<'a, O: QueryOptimizer>(transformer: &mut AstToQueryTransformer<'a, O>, args: Vec<QueryExpr>) -> (r: Result<QueryExpr, TransformError>)
    ensures
        *final(transformer) == *old(transformer),
        args@.len() == 2 ==> match args@[0] {
            QueryExpr::Literal(Value::Int(n)) => match r {
                Ok(q) => appended(args@[1], TransactionOp::Offset { offset: n }, q),
                Err(e) => !(args@[1] is Transaction) && (e matches TransformError::InvalidArgument(_)),
            },
            _ => r matches Err(TransformError::ExpectedNumber),
        },
{
    let mut args = args;
    if args.len() != 2 {
        return Err(TransformError::InvalidArgument("offset".to_owned()));
    }
    let input = args.pop().unwrap();
    let n = args.pop().unwrap();
    match n {
        QueryExpr::Literal(Value::Int(offset)) => append_op(input, TransactionOp::Offset { offset }, "offset"),
        _ => Err(TransformError::ExpectedNumber),
    }
}

proof fn lemma_pred_simple_frame<'a, O: QueryOptimizer>(
    t0: AstToQueryTransformer<'a, O>,
    t1: AstToQueryTransformer<'a, O>,
    id: NodeId,
    row: Option<Seq<char>>,
)
    requires
        t0.arena == t1.arena,
        t0.symbols == t1.symbols,
        t0.built_in_functions == t1.built_in_functions,
    ensures
        t0.pred_simple(id, row) == t1.pred_simple(id, row),
    decreases id.0,
{
    match t0.arena.nodes@[id.0 as int] {
        Expr::BinaryOp { op, left, right } => {
            if left.0 < id.0 && right.0 < id.0 {
                lemma_pred_simple_frame(t0, t1, left, row);
                lemma_pred_simple_frame(t0, t1, right, row);
            }
        },
        Expr::UnaryOp { op, operand } => {
            if operand.0 < id.0 {
                lemma_pred_simple_frame(t0, t1, operand, row);
            }
        },
        _ => {},
    }
}

} // verus!
