use vstd::prelude::*;
use crate::value::text_eq;

verus! {

/// Operator and punctuation tokens of the query language.
#[derive(Debug, Clone, Copy, PartialEq, Eq, Structural)]
pub enum TokenKind {
    Number,
    Identifier,
    String,
    Plus,
    Minus,
    Asterisk,
    Slash,
    Percent,
    Application,
    LeftBraces,
    RightBraces,
    LeftParenthesis,
    RightParenthesis,
    Not,
    LeftBracket,
    RightBracket,
    GreaterThan,
    GreaterThanEquals,
    LessThan,
    LessThanEquals,
    And,
    Or,
    Comma,
    Dot,
    RightArrow,
    Equals,
    Lambda,
    Let,
    In,
    Do,
    Dollar,
    Newline,
    True,
    False,
    Pipe,
    EqualsEquals,
    NotEquals,
}

/// The handle of an interned string.
#[derive(Debug, Clone, Copy, PartialEq, Eq, Hash, Structural)]
pub struct StrId(pub u32);

/// The handle of a node of an [`Arena`].
#[derive(Debug, Clone, Copy, PartialEq, Eq, Hash, Structural)]
pub struct NodeId(pub u32);

impl NodeId {
    pub fn index(self) -> (r: usize)
        ensures
            r == self.0,
    {
        self.0 as usize
    }
}

/// Distinct strings, each stored once and named by its position.
#[derive(Debug)]
pub struct Interner {
    pub ids: Vec<String>,
}

impl Interner {
    pub open spec fn wf(&self) -> bool {
        &&& self.ids@.len() <= u32::MAX
        &&& forall|i: int, j: int|
            0 <= i < j < self.ids@.len() ==> (#[trigger] self.ids@[i])@ != (#[trigger] self.ids@[j])@
    }

    pub fn new() -> (r: Interner)
        ensures
            r.wf(),
            r.ids@.len() == 0,
    {
        Interner { ids: Vec::new() }
    }

    pub fn with_capacity(capacity: usize) -> (r: Interner)
        ensures
            r.wf(),
            r.ids@.len() == 0,
    {
        Interner { ids: Vec::with_capacity(capacity) }
    }

    /// The handle of `s`, storing it first if it is new.
    pub fn intern(&mut self, s: &str) -> (r: StrId)
        requires
            old(self).wf(),
            old(self).ids@.len() < u32::MAX,
        ensures
            final(self).wf(),
            r.0 < final(self).ids@.len(),
            final(self).ids@[r.0 as int]@ == s@,
            old(self).ids@.len() <= final(self).ids@.len() <= old(self).ids@.len() + 1,
            forall|i: int| 0 <= i < old(self).ids@.len() ==> #[trigger] final(self).ids@[i] == old(self).ids@[i],
            (exists|i: int| 0 <= i < old(self).ids@.len() && (#[trigger] old(self).ids@[i])@ == s@) ==> *final(self) == *old(self),
            !(exists|i: int| 0 <= i < old(self).ids@.len() && (#[trigger] old(self).ids@[i])@ == s@) ==> r.0 == old(self).ids@.len(),
    {
        let mut i: usize = 0;
        while i < self.ids.len()
            invariant
                self.wf(),
                i <= self.ids@.len(),
                forall|k: int| 0 <= k < i ==> (#[trigger] self.ids@[k])@ != s@,
            decreases self.ids@.len() - i,
        {
            if text_eq(self.ids[i].as_str(), s) {
                return StrId(i as u32);
            }
            i = i + 1;
        }
        let id = StrId(self.ids.len() as u32);
        self.ids.push(s.to_owned());
        proof {
            assert forall|a: int, b: int| 0 <= a < b < self.ids@.len() implies (#[trigger] self.ids@[a])@ != (
                #[trigger] self.ids@[b])@ by {
                if b == self.ids@.len() - 1 {
                    assert(old(self).ids@[a]@ != s@);
                }
            }
        }
        id
    }

    /// The string of a handle.
    pub fn resolve(&self, id: StrId) -> (r: &str)
        requires
            id.0 < self.ids@.len(),
        ensures
            r@ == self.ids@[id.0 as int]@,
    {
        self.ids[id.0 as usize].as_str()
    }
}

/// A node of the source tree the parser hands over.
#[derive(Debug, Clone)]
pub enum Expr {
    Reference(StrId),
    Number(StrId),
    StringLit(StrId),
    Bool(bool),
    FieldAccess { base: NodeId, field: StrId },
    UnaryOp { op: TokenKind, operand: NodeId },
    BinaryOp { op: TokenKind, left: NodeId, right: NodeId },
    FunctionCall { func: NodeId, args: Vec<NodeId> },
    Tuple(Vec<NodeId>),
    Array(Vec<NodeId>),
    Block(Vec<NodeId>),
    Lambda { params: Vec<StrId>, body: NodeId },
    Instance(Vec<(StrId, NodeId)>),
    Let { name: StrId, value: NodeId, body: NodeId },
}

/// Every node a node refers to comes before it, and every string it
/// names is interned.
pub open spec fn expr_refs_below(e: Expr, n: int, strings: int) -> bool {
    match e {
        Expr::Reference(s) => s.0 < strings,
        Expr::Number(s) => s.0 < strings,
        Expr::StringLit(s) => s.0 < strings,
        Expr::Bool(_) => true,
        Expr::FieldAccess { base, field } => base.0 < n && field.0 < strings,
        Expr::UnaryOp { operand, .. } => operand.0 < n,
        Expr::BinaryOp { left, right, .. } => left.0 < n && right.0 < n,
        Expr::FunctionCall { func, args } => func.0 < n && forall|i: int| 0 <= i < args@.len() ==> (#[trigger] args@[i]).0 < n,
        Expr::Tuple(items) => forall|i: int| 0 <= i < items@.len() ==> (#[trigger] items@[i]).0 < n,
        Expr::Array(items) => forall|i: int| 0 <= i < items@.len() ==> (#[trigger] items@[i]).0 < n,
        Expr::Block(items) => forall|i: int| 0 <= i < items@.len() ==> (#[trigger] items@[i]).0 < n,
        Expr::Lambda { params, body } => body.0 < n && forall|i: int| 0 <= i < params@.len() ==> (#[trigger] params@[i]).0 < strings,
        Expr::Instance(fields) => forall|i: int| 0 <= i < fields@.len() ==> (#[trigger] fields@[i]).1.0 < n && fields@[i].0.0 < strings,
        Expr::Let { name, value, body } => name.0 < strings && value.0 < n && body.0 < n,
    }
}

/// The nodes of one source tree and its strings.
#[derive(Debug)]
pub struct Arena {
    pub nodes: Vec<Expr>,
    pub interner: Interner,
}

impl Arena {
    /// Nodes refer only to earlier nodes and to interned strings.
    pub open spec fn wf(&self) -> bool {
        &&& self.interner.wf()
        &&& self.nodes@.len() < u32::MAX
        &&& forall|i: int| 0 <= i < self.nodes@.len() ==> expr_refs_below(#[trigger] self.nodes@[i], i, self.interner.ids@.len() as int)
    }

    pub fn new() -> (r: Arena)
        ensures
            r.wf(),
            r.nodes@.len() == 0,
    {
        Arena { nodes: Vec::new(), interner: Interner::new() }
    }

    pub fn with_capacity(node_capacity: usize, string_capacity: usize) -> (r: Arena)
        ensures
            r.wf(),
            r.nodes@.len() == 0,
    {
        Arena { nodes: Vec::with_capacity(node_capacity), interner: Interner::with_capacity(string_capacity) }
    }

    pub fn clear(&mut self)
        ensures
            final(self).wf(),
            final(self).nodes@.len() == 0,
    {
        self.nodes.clear();
        self.interner = Interner::new();
    }

    /// Adds a node that refers only to existing nodes and strings.
    pub fn alloc_node(&mut self, expr: Expr) -> (r: NodeId)
        requires
            old(self).wf(),
            old(self).nodes@.len() + 1 < u32::MAX,
            expr_refs_below(expr, old(self).nodes@.len() as int, old(self).interner.ids@.len() as int),
        ensures
            final(self).wf(),
            final(self).nodes@ == old(self).nodes@.push(expr),
            final(self).interner == old(self).interner,
            r.0 == old(self).nodes@.len(),
    {
        let id = NodeId(self.nodes.len() as u32);
        self.nodes.push(expr);
        proof {
            assert forall|i: int| 0 <= i < self.nodes@.len() implies expr_refs_below(#[trigger] self.nodes@[i], i, self.interner.ids@.len() as int) by {
                if i < old(self).nodes@.len() {
                    assert(old(self).nodes@[i] == self.nodes@[i]);
                }
            }
        }
        id
    }

    pub fn get(&self, id: NodeId) -> (r: &Expr)
        requires
            id.0 < self.nodes@.len(),
        ensures
            *r == self.nodes@[id.0 as int],
    {
        &self.nodes[id.index()]
    }

    pub fn intern_str(&mut self, s: &str) -> (r: StrId)
        requires
            old(self).wf(),
            old(self).interner.ids@.len() < u32::MAX,
        ensures
            final(self).wf(),
            final(self).nodes@ == old(self).nodes@,
            r.0 < final(self).interner.ids@.len(),
            final(self).interner.ids@[r.0 as int]@ == s@,
            old(self).interner.ids@.len() <= final(self).interner.ids@.len() <= old(self).interner.ids@.len() + 1,
    {
        let r = self.interner.intern(s);
        proof {
            assert forall|i: int| 0 <= i < self.nodes@.len() implies expr_refs_below(#[trigger] self.nodes@[i], i, self.interner.ids@.len() as int) by {
                assert(expr_refs_below(old(self).nodes@[i], i, old(self).interner.ids@.len() as int));
            }
        }
        r
    }

    pub fn resolve_str(&self, id: StrId) -> (r: &str)
        requires
            id.0 < self.interner.ids@.len(),
        ensures
            r@ == self.interner.ids@[id.0 as int]@,
    {
        self.interner.resolve(id)
    }

    pub fn create_reference(&mut self, value: &str) -> (r: NodeId)
        requires
            old(self).wf(),
            old(self).nodes@.len() + 1 < u32::MAX,
            old(self).interner.ids@.len() + 1 < u32::MAX,
        ensures
            final(self).wf(),
            final(self).nodes@.len() == old(self).nodes@.len() + 1,
            r.0 == old(self).nodes@.len(),
    {
        let id = self.intern_str(value);
        self.alloc_node(Expr::Reference(id))
    }

    pub fn create_number(&mut self, value: &str) -> (r: NodeId)
        requires
            old(self).wf(),
            old(self).nodes@.len() + 1 < u32::MAX,
            old(self).interner.ids@.len() + 1 < u32::MAX,
        ensures
            final(self).wf(),
            final(self).nodes@.len() == old(self).nodes@.len() + 1,
            r.0 == old(self).nodes@.len(),
    {
        let id = self.intern_str(value);
        self.alloc_node(Expr::Number(id))
    }

    pub fn create_string_lit(&mut self, value: &str) -> (r: NodeId)
        requires
            old(self).wf(),
            old(self).nodes@.len() + 1 < u32::MAX,
            old(self).interner.ids@.len() + 1 < u32::MAX,
        ensures
            final(self).wf(),
            final(self).nodes@.len() == old(self).nodes@.len() + 1,
            r.0 == old(self).nodes@.len(),
    {
        let id = self.intern_str(value);
        self.alloc_node(Expr::StringLit(id))
    }

    pub fn create_bool(&mut self, value: bool) -> (r: NodeId)
        requires
            old(self).wf(),
            old(self).nodes@.len() + 1 < u32::MAX,
            old(self).interner.ids@.len() + 1 < u32::MAX,
        ensures
            final(self).wf(),
            final(self).nodes@.len() == old(self).nodes@.len() + 1,
            r.0 == old(self).nodes@.len(),
    {
        self.alloc_node(Expr::Bool(value))
    }

    pub fn create_binary_op(&mut self, op: TokenKind, left: NodeId, right: NodeId) -> (r: NodeId)
        requires
            old(self).wf(),
            old(self).nodes@.len() + 1 < u32::MAX,
            old(self).interner.ids@.len() + 1 < u32::MAX,
            left.0 < old(self).nodes@.len(),
            right.0 < old(self).nodes@.len(),
        ensures
            final(self).wf(),
            final(self).nodes@.len() == old(self).nodes@.len() + 1,
            r.0 == old(self).nodes@.len(),
    {
        self.alloc_node(Expr::BinaryOp { op, left, right })
    }

    pub fn create_unary_op(&mut self, op: TokenKind, operand: NodeId) -> (r: NodeId)
        requires
            old(self).wf(),
            old(self).nodes@.len() + 1 < u32::MAX,
            old(self).interner.ids@.len() + 1 < u32::MAX,
            operand.0 < old(self).nodes@.len(),
        ensures
            final(self).wf(),
            final(self).nodes@.len() == old(self).nodes@.len() + 1,
            r.0 == old(self).nodes@.len(),
    {
        self.alloc_node(Expr::UnaryOp { op, operand })
    }

    pub fn create_function_call(&mut self, func: NodeId, args: &[NodeId]) -> (r: NodeId)
        requires
            old(self).wf(),
            old(self).nodes@.len() + 1 < u32::MAX,
            old(self).interner.ids@.len() + 1 < u32::MAX,
            func.0 < old(self).nodes@.len(),
            forall|i: int| 0 <= i < args@.len() ==> (#[trigger] args@[i]).0 < old(self).nodes@.len(),
        ensures
            final(self).wf(),
            final(self).nodes@.len() == old(self).nodes@.len() + 1,
            r.0 == old(self).nodes@.len(),
    {
        let v = self.below_nodes(args);
        self.alloc_node(Expr::FunctionCall { func, args: v })
    }

    pub fn create_tuple(&mut self, items: &[NodeId]) -> (r: NodeId)
        requires
            old(self).wf(),
            old(self).nodes@.len() + 1 < u32::MAX,
            old(self).interner.ids@.len() + 1 < u32::MAX,
            forall|i: int| 0 <= i < items@.len() ==> (#[trigger] items@[i]).0 < old(self).nodes@.len(),
        ensures
            final(self).wf(),
            final(self).nodes@.len() == old(self).nodes@.len() + 1,
            r.0 == old(self).nodes@.len(),
    {
        let v = self.below_nodes(items);
        self.alloc_node(Expr::Tuple(v))
    }

    pub fn create_array(&mut self, items: &[NodeId]) -> (r: NodeId)
        requires
            old(self).wf(),
            old(self).nodes@.len() + 1 < u32::MAX,
            old(self).interner.ids@.len() + 1 < u32::MAX,
            forall|i: int| 0 <= i < items@.len() ==> (#[trigger] items@[i]).0 < old(self).nodes@.len(),
        ensures
            final(self).wf(),
            final(self).nodes@.len() == old(self).nodes@.len() + 1,
            r.0 == old(self).nodes@.len(),
    {
        let v = self.below_nodes(items);
        self.alloc_node(Expr::Array(v))
    }

    pub fn create_block(&mut self, exprs: &[NodeId]) -> (r: NodeId)
        requires
            old(self).wf(),
            old(self).nodes@.len() + 1 < u32::MAX,
            old(self).interner.ids@.len() + 1 < u32::MAX,
            forall|i: int| 0 <= i < exprs@.len() ==> (#[trigger] exprs@[i]).0 < old(self).nodes@.len(),
        ensures
            final(self).wf(),
            final(self).nodes@.len() == old(self).nodes@.len() + 1,
            r.0 == old(self).nodes@.len(),
    {
        let v = self.below_nodes(exprs);
        self.alloc_node(Expr::Block(v))
    }

    pub fn create_field_access(&mut self, base: NodeId, field: &str) -> (r: NodeId)
        requires
            old(self).wf(),
            old(self).nodes@.len() + 1 < u32::MAX,
            old(self).interner.ids@.len() + 1 < u32::MAX,
            base.0 < old(self).nodes@.len(),
        ensures
            final(self).wf(),
            final(self).nodes@.len() == old(self).nodes@.len() + 1,
            r.0 == old(self).nodes@.len(),
    {
        let f = self.intern_str(field);
        self.alloc_node(Expr::FieldAccess { base, field: f })
    }

    pub fn create_let(&mut self, name: &str, value: NodeId, body: NodeId) -> (r: NodeId)
        requires
            old(self).wf(),
            old(self).nodes@.len() + 1 < u32::MAX,
            old(self).interner.ids@.len() + 1 < u32::MAX,
            value.0 < old(self).nodes@.len(),
            body.0 < old(self).nodes@.len(),
        ensures
            final(self).wf(),
            final(self).nodes@.len() == old(self).nodes@.len() + 1,
            r.0 == old(self).nodes@.len(),
    {
        let n = self.intern_str(name);
        self.alloc_node(Expr::Let { name: n, value, body })
    }

    /// Copies node handles that all refer to existing nodes.
    fn below_nodes(&self, ids: &[NodeId]) -> (r: Vec<NodeId>)
        requires
            forall|i: int| 0 <= i < ids@.len() ==> (#[trigger] ids@[i]).0 < self.nodes@.len(),
        ensures
            r@ == ids@,
    {
        let mut v: Vec<NodeId> = Vec::with_capacity(ids.len());
        let mut i: usize = 0;
        while i < ids.len()
            invariant
                i <= ids@.len(),
                v@ == ids@.take(i as int),
            decreases ids@.len() - i,
        {
            v.push(ids[i]);
            i = i + 1;
            assert(v@ =~= ids@.take(i as int));
        }
        assert(ids@.take(i as int) =~= ids@);
        v
    }

    pub fn create_lambda(&mut self, param_names: &[&str], body: NodeId) -> (r: NodeId)
        requires
            old(self).wf(),
            old(self).nodes@.len() + 1 < u32::MAX,
            old(self).interner.ids@.len() + param_names@.len() < u32::MAX,
            body.0 < old(self).nodes@.len(),
        ensures
            final(self).wf(),
            final(self).nodes@.len() == old(self).nodes@.len() + 1,
            r.0 == old(self).nodes@.len(),
    {
        let mut params: Vec<StrId> = Vec::new();
        let mut i: usize = 0;
        while i < param_names.len()
            invariant
                self.wf(),
                self.nodes@ == old(self).nodes@,
                i <= param_names@.len(),
                self.interner.ids@.len() <= old(self).interner.ids@.len() + i,
                old(self).interner.ids@.len() + param_names@.len() < u32::MAX,
                forall|k: int| 0 <= k < params@.len() ==> (#[trigger] params@[k]).0 < self.interner.ids@.len(),
            decreases param_names@.len() - i,
        {
            let id = self.intern_str(param_names[i]);
            params.push(id);
            i = i + 1;
        }
        self.alloc_node(Expr::Lambda { params, body })
    }

    pub fn create_instance(&mut self, fields: &[(&str, NodeId)]) -> (r: NodeId)
        requires
            old(self).wf(),
            old(self).nodes@.len() + 1 < u32::MAX,
            old(self).interner.ids@.len() + fields@.len() < u32::MAX,
            forall|i: int| 0 <= i < fields@.len() ==> (#[trigger] fields@[i]).1.0 < old(self).nodes@.len(),
        ensures
            final(self).wf(),
            final(self).nodes@.len() == old(self).nodes@.len() + 1,
            r.0 == old(self).nodes@.len(),
    {
        let mut out: Vec<(StrId, NodeId)> = Vec::new();
        let mut i: usize = 0;
        while i < fields.len()
            invariant
                self.wf(),
                self.nodes@ == old(self).nodes@,
                i <= fields@.len(),
                self.interner.ids@.len() <= old(self).interner.ids@.len() + i,
                old(self).interner.ids@.len() + fields@.len() < u32::MAX,
                forall|k: int| 0 <= k < fields@.len() ==> (#[trigger] fields@[k]).1.0 < self.nodes@.len(),
                forall|k: int| 0 <= k < out@.len() ==> (#[trigger] out@[k]).1.0 < self.nodes@.len() && out@[k].0.0 < self.interner.ids@.len(),
            decreases fields@.len() - i,
        {
            let (name, value) = fields[i];
            let id = self.intern_str(name);
            out.push((id, value));
            i = i + 1;
        }
        self.alloc_node(Expr::Instance(out))
    }

    /// The callee and arguments of a call node.
    pub fn extract_function_call(&self, id: NodeId) -> (r: Option<(NodeId, Vec<NodeId>)>)
        requires
            id.0 < self.nodes@.len(),
        ensures
            match self.nodes@[id.0 as int] {
                Expr::FunctionCall { func, args } => r matches Some((f, a)) && f == func && a@ == args@,
                _ => r.is_none(),
            },
    {
        match self.get(id) {
            Expr::FunctionCall { func, args } => {
                let mut a: Vec<NodeId> = Vec::with_capacity(args.len());
                let mut i: usize = 0;
                while i < args.len()
                    invariant
                        i <= args@.len(),
                        a@ == args@.take(i as int),
                    decreases args@.len() - i,
                {
                    a.push(args[i]);
                    i = i + 1;
                    assert(a@ =~= args@.take(i as int));
                }
                assert(args@.take(i as int) =~= args@);
                Some((*func, a))
            },
            _ => None,
        }
    }
}

} // verus!
