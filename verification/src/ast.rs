//! The abstract syntax tree of a parsed DOT document, together with the
//! mathematical views the parser contracts are stated over.

use crate::tokenizer::{Token, TokenV};
use vstd::prelude::*;

verus! {

/// A compass point anchoring an edge to part of a node.
#[derive(Debug, Clone, Copy, PartialEq, Eq, Structural, Default)]
pub enum Compass {
    N,
    Ne,
    E,
    Se,
    S,
    Sw,
    W,
    Nw,
    #[default]
    C,
    Underscore,
}

/// Whether an edge was written `->` (directed) or `--` (undirected).
#[derive(Debug, Clone, Copy, PartialEq, Eq, Structural)]
pub enum EdgeOp {
    Directed,
    UnDirected,
}

/// Which default-attribute statement a `graph`, `node` or `edge` keyword
/// introduces.
#[derive(Debug, Clone, Copy, PartialEq, Eq, Structural)]
pub enum AttrStmtKind {
    Graph,
    Node,
    Edge,
}

/// Whether the document declares a `graph` or a `digraph`.
#[derive(Debug, Clone, Copy, PartialEq, Eq, Structural)]
pub enum GraphType {
    Graph,
    Digraph,
}

/// One `lhs = rhs` attribute pair.
#[derive(Debug, Clone, PartialEq)]
pub struct Attribute {
    pub lhs: String,
    pub rhs: String,
}

/// Mathematical value of an [`Attribute`].
pub struct AttributeV {
    pub lhs: Seq<char>,
    pub rhs: Seq<char>,
}

impl View for Attribute {
    type V = AttributeV;

    open spec fn view(&self) -> AttributeV {
        AttributeV { lhs: self.lhs@, rhs: self.rhs@ }
    }
}

impl Attribute {
    /// Pairs a left-hand name with its right-hand value.
    pub fn new(lhs: String, rhs: String) -> (r: Self)
        ensures
            r@.lhs == lhs@,
            r@.rhs == rhs@,
    {
        Self { lhs, rhs }
    }
}

/// View of an attribute sequence.
pub open spec fn attrs_view(s: Seq<Attribute>) -> Seq<AttributeV> {
    s.map_values(|a: Attribute| a@)
}

/// View of an optional attribute vector.
pub open spec fn opt_attrs_view(o: Option<Vec<Attribute>>) -> Option<Seq<AttributeV>> {
    match o {
        Some(v) => Some(attrs_view(v@)),
        None => None,
    }
}

/// View of an optional identifier string.
pub open spec fn opt_string_view(o: Option<String>) -> Option<Seq<char>> {
    match o {
        Some(s) => Some(s@),
        None => None,
    }
}

/// A port: a sub-location on a node, by name and/or compass point.  A port
/// that parses successfully always has at least one of the two.
#[derive(Debug, PartialEq)]
pub struct Port {
    pub id: Option<String>,
    pub compass: Option<Compass>,
}

impl Clone for Port {
    /// A cloned port equals the original.
    fn clone(&self) -> (res: Self)
        ensures
            res == *self,
    {
        Port {
            id: match &self.id {
                Some(s) => Some(s.clone()),
                None => None,
            },
            compass: self.compass,
        }
    }
}

/// Mathematical value of a [`Port`].
pub struct PortV {
    pub id: Option<Seq<char>>,
    pub compass: Option<Compass>,
}

impl View for Port {
    type V = PortV;

    open spec fn view(&self) -> PortV {
        PortV { id: opt_string_view(self.id), compass: self.compass }
    }
}

/// View of an optional port.
pub open spec fn opt_port_view(o: Option<Port>) -> Option<PortV> {
    match o {
        Some(p) => Some(p@),
        None => None,
    }
}

/// A node reference: an identifier with an optional port.
#[derive(Debug, Clone, PartialEq)]
pub struct NodeId {
    pub id: String,
    pub port: Option<Port>,
}

/// Mathematical value of a [`NodeId`].
pub struct NodeIdV {
    pub id: Seq<char>,
    pub port: Option<PortV>,
}

impl View for NodeId {
    type V = NodeIdV;

    open spec fn view(&self) -> NodeIdV {
        NodeIdV { id: self.id@, port: opt_port_view(self.port) }
    }
}

impl Default for NodeId {
    /// The default node reference: an empty identifier and no port.
    fn default() -> (r: Self)
        ensures
            r@.id == Seq::<char>::empty(),
            r@.port is None,
    {
        let r = NodeId { id: String::new(), port: None };
        r
    }
}

/// The attributes of one `a_list` production: `ID '=' ID` pairs with
/// optional separators.
#[derive(Debug, Clone, PartialEq)]
pub struct AList {
    pub items: Vec<Attribute>,
}

impl View for AList {
    type V = Seq<AttributeV>;

    open spec fn view(&self) -> Seq<AttributeV> {
        attrs_view(self.items@)
    }
}

impl Default for AList {
    /// The default `a_list` holds no attributes.
    fn default() -> (r: Self)
        ensures
            r@ == Seq::<AttributeV>::empty(),
    {
        let r = AList { items: Vec::new() };
        assert(r@ =~= Seq::<AttributeV>::empty());
        r
    }
}

/// The flattened attributes of one or more consecutive bracket groups.
#[derive(Debug, Clone, PartialEq)]
pub struct AttrList {
    pub items: Vec<Attribute>,
}

impl View for AttrList {
    type V = Seq<AttributeV>;

    open spec fn view(&self) -> Seq<AttributeV> {
        attrs_view(self.items@)
    }
}

impl Default for AttrList {
    /// The default attribute list holds no attributes.
    fn default() -> (r: Self)
        ensures
            r@ == Seq::<AttributeV>::empty(),
    {
        let r = AttrList { items: Vec::new() };
        assert(r@ =~= Seq::<AttributeV>::empty());
        r
    }
}

/// A default-attribute statement: `graph`, `node` or `edge` followed by an
/// attribute list.
#[derive(Debug, Clone, PartialEq)]
pub struct AttrStmt {
    pub kind: AttrStmtKind,
    pub attr_list: AttrList,
}

/// Mathematical value of an [`AttrStmt`].
pub struct AttrStmtV {
    pub kind: AttrStmtKind,
    pub attr_list: Seq<AttributeV>,
}

impl View for AttrStmt {
    type V = AttrStmtV;

    open spec fn view(&self) -> AttrStmtV {
        AttrStmtV { kind: self.kind, attr_list: self.attr_list@ }
    }
}

impl AttrStmt {
    /// Pairs a statement kind with its attribute list.
    pub fn new(kind: AttrStmtKind, attr_list: AttrList) -> (r: Self)
        ensures
            r@.kind == kind,
            r@.attr_list == attr_list@,
    {
        Self { kind, attr_list }
    }
}

impl Default for AttrStmt {
    /// The default attribute statement: graph kind, no attributes.
    fn default() -> (r: Self)
        ensures
            r@.kind == AttrStmtKind::Graph,
            r@.attr_list == Seq::<AttributeV>::empty(),
    {
        let r = AttrStmt { kind: AttrStmtKind::Graph, attr_list: AttrList::default() };
        r
    }
}

/// A node statement: an identifier with an optional attribute list.
#[derive(Debug, Clone, PartialEq)]
pub struct NodeStmt {
    pub id: String,
    pub attributes: Option<Vec<Attribute>>,
}

/// Mathematical value of a [`NodeStmt`].
pub struct NodeStmtV {
    pub id: Seq<char>,
    pub attributes: Option<Seq<AttributeV>>,
}

impl View for NodeStmt {
    type V = NodeStmtV;

    open spec fn view(&self) -> NodeStmtV {
        NodeStmtV { id: self.id@, attributes: opt_attrs_view(self.attributes) }
    }
}

/// An edge endpoint: a plain node reference or an inline subgraph.
#[derive(Debug, PartialEq)]
pub enum EdgeStmtSide {
    NodeId(NodeId),
    SubGraph(SubGraph),
}

/// One `-> b` or `-- b` continuation of an edge chain; `edge_optional`
/// carries the rest of the chain.
#[derive(Debug, PartialEq)]
pub struct EdgeRhs {
    pub edge_op: EdgeOp,
    pub edge_to: EdgeStmtSide,
    pub edge_optional: Option<Box<EdgeRhs>>,
}

/// An edge statement: a first endpoint, a chain of continuations, and an
/// optional attribute list.
#[derive(Debug, PartialEq)]
pub struct EdgeStmt {
    pub edge_lhs: EdgeStmtSide,
    pub edge_rhs: EdgeRhs,
    pub attributes: Option<Vec<Attribute>>,
}

/// A subgraph: an optional name and the statements between its braces.
#[derive(Debug, PartialEq)]
pub struct SubGraph {
    pub id: Option<String>,
    pub statements: Vec<Statement>,
}

/// One statement of a graph body.
#[derive(Debug, PartialEq)]
pub enum Statement {
    NodeStmt(NodeStmt),
    EdgeStmt(EdgeStmt),
    AttrStmt(AttrStmt),
    Attribute(Attribute),
    SubGraph(SubGraph),
}

/// Mathematical value of an [`EdgeStmtSide`].
pub enum EdgeStmtSideV {
    NodeId(NodeIdV),
    SubGraph(SubGraphV),
}

/// Mathematical value of an [`EdgeRhs`].
pub struct EdgeRhsV {
    pub edge_op: EdgeOp,
    pub edge_to: EdgeStmtSideV,
    pub edge_optional: Option<Box<EdgeRhsV>>,
}

/// Mathematical value of an [`EdgeStmt`].
pub struct EdgeStmtV {
    pub edge_lhs: EdgeStmtSideV,
    pub edge_rhs: EdgeRhsV,
    pub attributes: Option<Seq<AttributeV>>,
}

/// Mathematical value of a [`SubGraph`].
pub struct SubGraphV {
    pub id: Option<Seq<char>>,
    pub statements: Seq<StatementV>,
}

/// Mathematical value of a [`Statement`].
pub enum StatementV {
    NodeStmt(NodeStmtV),
    EdgeStmt(EdgeStmtV),
    AttrStmt(AttrStmtV),
    Attribute(AttributeV),
    SubGraph(SubGraphV),
}

/// View of an [`EdgeStmtSide`].
pub open spec fn side_view(s: EdgeStmtSide) -> EdgeStmtSideV
    decreases s,
{
    match s {
        EdgeStmtSide::NodeId(n) => EdgeStmtSideV::NodeId(n@),
        EdgeStmtSide::SubGraph(g) => EdgeStmtSideV::SubGraph(subgraph_view(g)),
    }
}

/// View of an [`EdgeRhs`].
pub open spec fn edge_rhs_view(r: EdgeRhs) -> EdgeRhsV
    decreases r,
{
    EdgeRhsV {
        edge_op: r.edge_op,
        edge_to: side_view(r.edge_to),
        edge_optional: match r.edge_optional {
            Some(next) => Some(Box::new(edge_rhs_view(*next))),
            None => None,
        },
    }
}

/// View of an [`EdgeStmt`].
pub open spec fn edge_stmt_view(e: EdgeStmt) -> EdgeStmtV
    decreases e,
{
    EdgeStmtV {
        edge_lhs: side_view(e.edge_lhs),
        edge_rhs: edge_rhs_view(e.edge_rhs),
        attributes: opt_attrs_view(e.attributes),
    }
}

/// View of a [`Statement`].
pub open spec fn stmt_view(s: Statement) -> StatementV
    decreases s,
{
    match s {
        Statement::NodeStmt(n) => StatementV::NodeStmt(n@),
        Statement::EdgeStmt(e) => StatementV::EdgeStmt(edge_stmt_view(e)),
        Statement::AttrStmt(a) => StatementV::AttrStmt(a@),
        Statement::Attribute(a) => StatementV::Attribute(a@),
        Statement::SubGraph(g) => StatementV::SubGraph(subgraph_view(g)),
    }
}

/// View of a statement sequence.
pub open spec fn stmts_view(l: Seq<Statement>) -> Seq<StatementV>
    decreases l,
{
    if l.len() == 0 {
        Seq::empty()
    } else {
        seq![stmt_view(l[0])] + stmts_view(l.drop_first())
    }
}

/// View of a [`SubGraph`].
pub open spec fn subgraph_view(g: SubGraph) -> SubGraphV
    decreases g,
{
    SubGraphV { id: opt_string_view(g.id), statements: stmts_view(g.statements@) }
}

/// [`stmts_view`] distributes over push.
pub proof fn lemma_stmts_view_push(l: Seq<Statement>, s: Statement)
    ensures
        stmts_view(l.push(s)) == stmts_view(l).push(stmt_view(s)),
    decreases l.len(),
{
    if l.len() == 0 {
        assert(l.push(s) =~= seq![s]);
        assert(seq![s][0] == s);
        assert(seq![s].drop_first() =~= Seq::<Statement>::empty());
        assert(stmts_view(seq![s]) == seq![stmt_view(s)] + stmts_view(Seq::<Statement>::empty()));
        assert(stmts_view(l.push(s)) =~= stmts_view(l).push(stmt_view(s)));
    } else {
        lemma_stmts_view_push(l.drop_first(), s);
        assert(l.push(s)[0] == l[0]);
        assert(l.push(s).drop_first() =~= l.drop_first().push(s));
        assert(stmts_view(l.push(s)) == seq![stmt_view(l[0])] + stmts_view(
            l.drop_first().push(s),
        ));
        assert(stmts_view(l.drop_first().push(s)) == stmts_view(l.drop_first()).push(
            stmt_view(s),
        ));
        assert(stmts_view(l) == seq![stmt_view(l[0])] + stmts_view(l.drop_first()));
        assert(stmts_view(l.push(s)) =~= stmts_view(l).push(stmt_view(s)));
    }
}

/// The parsed root: graph type, strict flag, optional name, and the
/// document's statements.
#[derive(Debug, PartialEq)]
pub struct DotGraph {
    pub graph_type: GraphType,
    pub strict_mode: bool,
    pub id: Option<String>,
    pub statements: Vec<Statement>,
}

/// Mathematical value of a [`DotGraph`].
pub struct DotGraphV {
    pub graph_type: GraphType,
    pub strict_mode: bool,
    pub id: Option<Seq<char>>,
    pub statements: Seq<StatementV>,
}

impl View for DotGraph {
    type V = DotGraphV;

    open spec fn view(&self) -> DotGraphV {
        DotGraphV {
            graph_type: self.graph_type,
            strict_mode: self.strict_mode,
            id: opt_string_view(self.id),
            statements: stmts_view(self.statements@),
        }
    }
}

/// A structural parse error: the offending token, if the input was not
/// simply exhausted, and a diagnostic reason.
#[derive(Debug, Clone, PartialEq)]
pub struct ParserError {
    pub token: Option<Token>,
    pub reason: Option<String>,
}

/// Mathematical value of a [`ParserError`]; the prose `reason` is
/// diagnostic only and carries no specified meaning.
pub struct ParserErrV {
    pub token: Option<TokenV>,
}

impl View for ParserError {
    type V = ParserErrV;

    open spec fn view(&self) -> ParserErrV {
        ParserErrV {
            token: match self.token {
                Some(t) => Some(t@),
                None => None,
            },
        }
    }
}

} // verus!
