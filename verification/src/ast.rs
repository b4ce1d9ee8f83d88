//! The syntax tree that the detector walks: a closed set of node kinds,
//! each node carrying a byte span into the original source text and its
//! child nodes in source order.
//!
//! The tree is a condensed form of a full parse tree: only the node kinds
//! that the detector inspects appear with their own kind; every other
//! construct is carried as [`NodeKind::Other`] so that nesting and order
//! are preserved.

use vstd::prelude::*;

verus! {

/// A half-open byte range `[lo, hi)` into the UTF-8 encoding of the
/// original source text.
#[derive(Clone, Copy, PartialEq, Eq, Structural, Debug)]
pub struct Span {
    pub lo: u32,
    pub hi: u32,
}

/// The binary operators the detector distinguishes; every other operator
/// is `Other`.
#[derive(Clone, Copy, PartialEq, Eq, Structural, Debug)]
pub enum BinOpKind {
    NullishCoalescing,
    Exp,
    EqEq,
    NotEq,
    EqEqEq,
    NotEqEq,
    Other,
}

/// The compound assignment operators the detector distinguishes.
#[derive(Clone, Copy, PartialEq, Eq, Structural, Debug)]
pub enum AssignOpKind {
    AndAssign,
    OrAssign,
    NullishAssign,
    ExpAssign,
    Other,
}

/// The closed set of node kinds.
#[derive(Clone, Copy, PartialEq, Eq, Structural, Debug)]
pub enum NodeKind {
    /// A meta-property expression such as `new.target`.
    MetaProp,
    /// A `for ... of` statement.
    ForOf,
    /// A class declaration.
    ClassDecl,
    /// A computed property name `[expr]`.
    ComputedPropName,
    /// A class field.
    ClassProp,
    /// A shorthand object property `{ a }`.
    ShorthandProp,
    /// A method object property `{ a() {} }`.
    MethodProp,
    /// A regular-expression literal; `sticky` holds when its flags
    /// contain the sticky flag.
    Regex { sticky: bool },
    /// A template literal.
    Tpl,
    /// A variable declaration; its children are the declarators.
    /// `block_scoped` holds for `let` and `const`.
    VarDecl { block_scoped: bool },
    /// One declarator of a variable declaration: pattern and initializer.
    Declarator,
    /// A class static initializer block.
    StaticBlock,
    /// A private-named class method.
    PrivateMethod,
    /// A private-named class field.
    PrivateProp,
    /// A function (declaration, expression or method); its parameters are
    /// the children of kind [`NodeKind::Param`].
    Function { is_async: bool, is_generator: bool },
    /// One function parameter; its first child is the binding pattern.
    Param,
    /// An arrow function.
    Arrow { is_async: bool },
    /// An assignment expression with operator `op`.
    Assign { op: AssignOpKind },
    /// A binary expression with operator `op`; its first two children
    /// stand for the left and right operand.
    Bin { op: BinOpKind },
    /// An optional-chaining expression `a?.b`.
    OptChain,
    /// A spread element in a call argument list or array literal; its
    /// first child is the spread expression.
    SpreadArg,
    /// A spread property in an object literal; its first child is the
    /// spread expression.
    SpreadProp,
    /// A catch clause; `has_param` holds when the clause binds a
    /// parameter.
    CatchClause { has_param: bool },
    /// A plain identifier binding pattern.
    IdentPat,
    /// An object binding pattern.
    ObjectPat,
    /// An array binding pattern.
    ArrayPat,
    /// A rest binding pattern `...x` in a parameter list or array pattern.
    RestPat,
    /// A binding pattern with a default value `x = e`.
    AssignPat,
    /// Any other binding pattern.
    OtherPat,
    /// A rest property `...x` inside an object binding pattern.
    RestProp,
    /// A member access on `super`.
    SuperProp,
    /// A unary `typeof` expression; its first child is the operand.
    TypeofExpr,
    /// The string literal `"symbol"`.
    SymbolLit,
    /// Any other construct; only its children matter.
    Other,
}

/// One node of the tree.
#[derive(Debug)]
pub struct Node {
    pub kind: NodeKind,
    pub span: Span,
    pub children: Vec<Node>,
}

/// A parsed program: the top-level nodes in source order.
#[derive(Debug)]
pub struct Program {
    pub body: Vec<Node>,
}

/// A UTF-8 continuation byte: it never starts a character.
pub open spec fn is_cont_byte(b: u8) -> bool {
    0x80 <= b < 0xC0
}

/// Position `i` lies on a character boundary of `code` (or at its end).
pub open spec fn is_boundary(code: Seq<u8>, i: int) -> bool {
    i == code.len() || !is_cont_byte(code[i])
}

/// Siblings from position `k` on stand in source order: each ends no
/// later than the next begins.
pub open spec fn ordered_from(s: Seq<Node>, k: int) -> bool
    decreases s.len() - k,
{
    k + 1 >= s.len() || (s[k].span.hi <= s[k + 1].span.lo && ordered_from(s, k + 1))
}

/// Siblings stand in source order.
pub open spec fn ordered_siblings(s: Seq<Node>) -> bool {
    ordered_from(s, 0)
}

/// Well-formedness of one node with respect to the source bytes: the
/// span is non-empty and lies inside the text on character boundaries,
/// the children stand in source order, and every child is itself well
/// formed.
pub open spec fn wf_node(n: Node, code: Seq<u8>) -> bool
    decreases n,
{
    &&& n.span.lo < n.span.hi <= code.len()
    &&& is_boundary(code, n.span.lo as int)
    &&& is_boundary(code, n.span.hi as int)
    &&& ordered_siblings(n.children@)
    &&& wf_nodes(n.children@, code)
}

/// Well-formedness of a sequence of sibling nodes.
pub open spec fn wf_nodes(s: Seq<Node>, code: Seq<u8>) -> bool
    decreases s,
{
    s.len() > 0 ==> wf_node(s[0], code) && wf_nodes(s.drop_first(), code)
}

/// Well-formedness of a whole program.
pub open spec fn wf_program(p: Program, code: Seq<u8>) -> bool {
    &&& ordered_siblings(p.body@)
    &&& wf_nodes(p.body@, code)
}

/// Every element of a well-formed sequence is a well-formed node.
pub proof fn lemma_wf_nodes_index(s: Seq<Node>, code: Seq<u8>, i: int)
    requires
        wf_nodes(s, code),
        0 <= i < s.len(),
    ensures
        wf_node(s[i], code),
    decreases s,
{
    if i > 0 {
        lemma_wf_nodes_index(s.drop_first(), code, i - 1);
        assert(s.drop_first()[i - 1] == s[i]);
    }
}

/// If some element is ill-formed, the sequence is.
proof fn lemma_wf_nodes_not(s: Seq<Node>, code: Seq<u8>, i: int)
    requires
        0 <= i < s.len(),
        !wf_node(s[i], code),
    ensures
        !wf_nodes(s, code),
    decreases s,
{
    if i > 0 {
        assert(s.drop_first()[i - 1] == s[i]);
        lemma_wf_nodes_not(s.drop_first(), code, i - 1);
    }
}

/// If every element is well formed, the sequence is.
proof fn lemma_wf_nodes_all(s: Seq<Node>, code: Seq<u8>)
    requires
        forall|i: int| 0 <= i < s.len() ==> wf_node(#[trigger] s[i], code),
    ensures
        wf_nodes(s, code),
    decreases s,
{
    if s.len() > 0 {
        assert forall|i: int| 0 <= i < s.drop_first().len() implies wf_node(
            #[trigger] s.drop_first()[i],
            code,
        ) by {
            assert(s.drop_first()[i] == s[i + 1]);
        }
        lemma_wf_nodes_all(s.drop_first(), code);
    }
}

/// In a well-formed, ordered sequence of siblings, the node at `k`
/// starts strictly before the last one ends.
pub proof fn lemma_ordered_span_from(s: Seq<Node>, code: Seq<u8>, k: int)
    requires
        wf_nodes(s, code),
        ordered_from(s, k),
        0 <= k < s.len(),
    ensures
        s[k].span.lo < s[s.len() - 1].span.hi,
    decreases s.len() - k,
{
    lemma_wf_nodes_index(s, code, k);
    if k < s.len() - 1 {
        lemma_ordered_span_from(s, code, k + 1);
    }
}

/// In a well-formed, ordered sequence of siblings, the first node starts
/// strictly before the last one ends.
pub proof fn lemma_ordered_span(s: Seq<Node>, code: Seq<u8>)
    requires
        wf_nodes(s, code),
        ordered_siblings(s),
        s.len() > 0,
    ensures
        s[0].span.lo < s[s.len() - 1].span.hi,
{
    lemma_ordered_span_from(s, code, 0);
}

/// Executable test of [`is_boundary`].
pub fn boundary_at(code: &Vec<u8>, i: usize) -> (r: bool)
    requires
        i <= code@.len(),
    ensures
        r == is_boundary(code@, i as int),
{
    if i == code.len() {
        true
    } else {
        let b = code[i];
        !(0x80 <= b && b < 0xC0)
    }
}

impl Node {
    /// Checks [`wf_node`] on a concrete tree.
    pub fn check_wf(&self, code: &Vec<u8>) -> (r: bool)
        ensures
            r == wf_node(*self, code@),
        decreases *self,
    {
        if !(self.span.lo < self.span.hi && (self.span.hi as usize) <= code.len()) {
            return false;
        }
        if !boundary_at(code, self.span.lo as usize) || !boundary_at(code, self.span.hi as usize) {
            return false;
        }
        if !check_ordered(&self.children) {
            return false;
        }
        check_wf_nodes(&self.children, code)
    }
}

/// Executable test of [`ordered_from`].
fn check_ordered_from(nodes: &Vec<Node>, k: usize) -> (r: bool)
    requires
        k <= nodes@.len(),
    ensures
        r == ordered_from(nodes@, k as int),
    decreases nodes@.len() - k,
{
    if nodes.len() == 0 || k >= nodes.len() - 1 {
        true
    } else {
        nodes[k].span.hi <= nodes[k + 1].span.lo && check_ordered_from(nodes, k + 1)
    }
}

/// Executable test of [`ordered_siblings`].
pub fn check_ordered(nodes: &Vec<Node>) -> (r: bool)
    ensures
        r == ordered_siblings(nodes@),
{
    check_ordered_from(nodes, 0)
}

/// Executable test of [`wf_nodes`].
pub fn check_wf_nodes(nodes: &Vec<Node>, code: &Vec<u8>) -> (r: bool)
    ensures
        r == wf_nodes(nodes@, code@),
    decreases nodes@,
{
    let n = nodes.len();
    let mut k: usize = 0;
    while k < n
        invariant
            n == nodes@.len(),
            0 <= k <= n,
            forall|i: int| 0 <= i < k ==> wf_node(#[trigger] nodes@[i], code@),
        decreases n - k,
    {
        proof {
            assert(decreases_to!(nodes@ => nodes@[k as int]));
        }
        if !nodes[k].check_wf(code) {
            proof {
                lemma_wf_nodes_not(nodes@, code@, k as int);
            }
            return false;
        }
        k = k + 1;
    }
    proof {
        lemma_wf_nodes_all(nodes@, code@);
    }
    true
}

/// Checks a whole program for well-formedness.
pub fn check_wf_program(p: &Program, code: &Vec<u8>) -> (r: bool)
    ensures
        r == wf_program(*p, code@),
{
    let ordered = check_ordered(&p.body);
    if !ordered {
        return false;
    }
    check_wf_nodes(&p.body, code)
}

} // verus!
