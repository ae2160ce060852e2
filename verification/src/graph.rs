//! The unified, language-agnostic property graph: nodes, edges, and the
//! terminal graph artifact with its query helpers.

use vstd::prelude::*;
use crate::facts::opt_view;
use crate::facts::opt_views;
use crate::text::lit;
use crate::text::litv;
use crate::text::concat;
use crate::text::slice_of;

verus! {

// ---------------------------------------------------------------------------
// Node taxonomy
// ---------------------------------------------------------------------------

/// Unified node type: a closed taxonomy plus one open `Custom` tag.
#[derive(Debug, Clone)]
pub enum UnifiedNodeType {
    SourceFile,
    ConfigFile,
    FormFile,
    Module,
    Class,
    Interface,
    Trait,
    Enum,
    Struct,
    Function,
    Method,
    Constructor,
    Destructor,
    Component,
    Form,
    Page,
    ViewFile,
    Route,
    Controller,
    Middleware,
    Model,
    Migration,
    Table,
    Query,
    Package,
    Variable,
    Constant,
    Custom(Vec<u8>),
}

/// Model of a [`UnifiedNodeType`], with the custom tag as a sequence.
#[verifier::ext_equal]
pub enum NodeTypeModel {
    SourceFile,
    ConfigFile,
    FormFile,
    Module,
    Class,
    Interface,
    Trait,
    Enum,
    Struct,
    Function,
    Method,
    Constructor,
    Destructor,
    Component,
    Form,
    Page,
    ViewFile,
    Route,
    Controller,
    Middleware,
    Model,
    Migration,
    Table,
    Query,
    Package,
    Variable,
    Constant,
    Custom(Seq<u8>),
}

pub open spec fn node_type_model(t: UnifiedNodeType) -> NodeTypeModel {
    match t {
        UnifiedNodeType::SourceFile => NodeTypeModel::SourceFile,
        UnifiedNodeType::ConfigFile => NodeTypeModel::ConfigFile,
        UnifiedNodeType::FormFile => NodeTypeModel::FormFile,
        UnifiedNodeType::Module => NodeTypeModel::Module,
        UnifiedNodeType::Class => NodeTypeModel::Class,
        UnifiedNodeType::Interface => NodeTypeModel::Interface,
        UnifiedNodeType::Trait => NodeTypeModel::Trait,
        UnifiedNodeType::Enum => NodeTypeModel::Enum,
        UnifiedNodeType::Struct => NodeTypeModel::Struct,
        UnifiedNodeType::Function => NodeTypeModel::Function,
        UnifiedNodeType::Method => NodeTypeModel::Method,
        UnifiedNodeType::Constructor => NodeTypeModel::Constructor,
        UnifiedNodeType::Destructor => NodeTypeModel::Destructor,
        UnifiedNodeType::Component => NodeTypeModel::Component,
        UnifiedNodeType::Form => NodeTypeModel::Form,
        UnifiedNodeType::Page => NodeTypeModel::Page,
        UnifiedNodeType::ViewFile => NodeTypeModel::ViewFile,
        UnifiedNodeType::Route => NodeTypeModel::Route,
        UnifiedNodeType::Controller => NodeTypeModel::Controller,
        UnifiedNodeType::Middleware => NodeTypeModel::Middleware,
        UnifiedNodeType::Model => NodeTypeModel::Model,
        UnifiedNodeType::Migration => NodeTypeModel::Migration,
        UnifiedNodeType::Table => NodeTypeModel::Table,
        UnifiedNodeType::Query => NodeTypeModel::Query,
        UnifiedNodeType::Package => NodeTypeModel::Package,
        UnifiedNodeType::Variable => NodeTypeModel::Variable,
        UnifiedNodeType::Constant => NodeTypeModel::Constant,
        UnifiedNodeType::Custom(s) => NodeTypeModel::Custom(s@),
    }
}

impl UnifiedNodeType {
    /// Whether this is the migration node type.
    pub fn is_migration(&self) -> (r: bool)
        ensures
            r == (node_type_model(*self) is Migration),
    {
        match self {
            UnifiedNodeType::Migration => true,
            _ => false,
        }
    }
}

impl Default for UnifiedNodeType {
    fn default() -> (r: Self)
        ensures
            node_type_model(r) is SourceFile,
    {
        UnifiedNodeType::SourceFile
    }
}

// ---------------------------------------------------------------------------
// Edge taxonomy
// ---------------------------------------------------------------------------

/// Unified edge type: a closed taxonomy plus one open `Custom` tag.
#[derive(Debug, Clone)]
pub enum UnifiedEdgeType {
    Uses,
    Extends,
    Implements,
    Includes,
    Contains,
    Defines,
    BelongsTo,
    Calls,
    Instantiates,
    FilePair,
    Routes,
    Renders,
    QueriesTable,
    HasRelation,
    References,
    Custom(Vec<u8>),
}

/// Model of a [`UnifiedEdgeType`].
#[verifier::ext_equal]
pub enum EdgeTypeModel {
    Uses,
    Extends,
    Implements,
    Includes,
    Contains,
    Defines,
    BelongsTo,
    Calls,
    Instantiates,
    FilePair,
    Routes,
    Renders,
    QueriesTable,
    HasRelation,
    References,
    Custom(Seq<u8>),
}

pub open spec fn edge_type_model(t: UnifiedEdgeType) -> EdgeTypeModel {
    match t {
        UnifiedEdgeType::Uses => EdgeTypeModel::Uses,
        UnifiedEdgeType::Extends => EdgeTypeModel::Extends,
        UnifiedEdgeType::Implements => EdgeTypeModel::Implements,
        UnifiedEdgeType::Includes => EdgeTypeModel::Includes,
        UnifiedEdgeType::Contains => EdgeTypeModel::Contains,
        UnifiedEdgeType::Defines => EdgeTypeModel::Defines,
        UnifiedEdgeType::BelongsTo => EdgeTypeModel::BelongsTo,
        UnifiedEdgeType::Calls => EdgeTypeModel::Calls,
        UnifiedEdgeType::Instantiates => EdgeTypeModel::Instantiates,
        UnifiedEdgeType::FilePair => EdgeTypeModel::FilePair,
        UnifiedEdgeType::Routes => EdgeTypeModel::Routes,
        UnifiedEdgeType::Renders => EdgeTypeModel::Renders,
        UnifiedEdgeType::QueriesTable => EdgeTypeModel::QueriesTable,
        UnifiedEdgeType::HasRelation => EdgeTypeModel::HasRelation,
        UnifiedEdgeType::References => EdgeTypeModel::References,
        UnifiedEdgeType::Custom(s) => EdgeTypeModel::Custom(s@),
    }
}

impl Default for UnifiedEdgeType {
    fn default() -> (r: Self)
        ensures
            edge_type_model(r) is Uses,
    {
        UnifiedEdgeType::Uses
    }
}

/// The tag an edge type contributes to an edge id.
pub open spec fn edge_tag_spec(t: EdgeTypeModel) -> Seq<u8> {
    match t {
        EdgeTypeModel::Uses => lit("Uses"),
        EdgeTypeModel::Extends => lit("Extends"),
        EdgeTypeModel::Implements => lit("Implements"),
        EdgeTypeModel::Includes => lit("Includes"),
        EdgeTypeModel::Contains => lit("Contains"),
        EdgeTypeModel::Defines => lit("Defines"),
        EdgeTypeModel::BelongsTo => lit("BelongsTo"),
        EdgeTypeModel::Calls => lit("Calls"),
        EdgeTypeModel::Instantiates => lit("Instantiates"),
        EdgeTypeModel::FilePair => lit("FilePair"),
        EdgeTypeModel::Routes => lit("Routes"),
        EdgeTypeModel::Renders => lit("Renders"),
        EdgeTypeModel::QueriesTable => lit("QueriesTable"),
        EdgeTypeModel::HasRelation => lit("HasRelation"),
        EdgeTypeModel::References => lit("References"),
        EdgeTypeModel::Custom(s) => lit("Custom(\"") + s + lit("\")"),
    }
}

impl UnifiedEdgeType {
    /// The tag this edge type contributes to an edge id.
    pub fn tag(&self) -> (r: Vec<u8>)
        ensures
            r@ == edge_tag_spec(edge_type_model(*self)),
    {
        match self {
            UnifiedEdgeType::Uses => litv("Uses"),
            UnifiedEdgeType::Extends => litv("Extends"),
            UnifiedEdgeType::Implements => litv("Implements"),
            UnifiedEdgeType::Includes => litv("Includes"),
            UnifiedEdgeType::Contains => litv("Contains"),
            UnifiedEdgeType::Defines => litv("Defines"),
            UnifiedEdgeType::BelongsTo => litv("BelongsTo"),
            UnifiedEdgeType::Calls => litv("Calls"),
            UnifiedEdgeType::Instantiates => litv("Instantiates"),
            UnifiedEdgeType::FilePair => litv("FilePair"),
            UnifiedEdgeType::Routes => litv("Routes"),
            UnifiedEdgeType::Renders => litv("Renders"),
            UnifiedEdgeType::QueriesTable => litv("QueriesTable"),
            UnifiedEdgeType::HasRelation => litv("HasRelation"),
            UnifiedEdgeType::References => litv("References"),
            UnifiedEdgeType::Custom(s) => {
                let open_part = litv("Custom(\"");
                let close_part = litv("\")");
                let a = concat(&open_part, s);
                concat(&a, &close_part)
            },
        }
    }
}

// ---------------------------------------------------------------------------
// Node metadata and nodes
// ---------------------------------------------------------------------------

/// Parameter information for function and method nodes.
#[derive(Debug, Clone)]
pub struct ParameterInfo {
    pub name: Vec<u8>,
    pub param_type: Option<Vec<u8>>,
    pub default_value: Option<Vec<u8>>,
    pub is_optional: bool,
}

/// Model of a [`ParameterInfo`].
#[verifier::ext_equal]
pub struct ParamModel {
    pub name: Seq<u8>,
    pub param_type: Option<Seq<u8>>,
    pub default_value: Option<Seq<u8>>,
    pub is_optional: bool,
}

pub open spec fn param_model(p: ParameterInfo) -> ParamModel {
    ParamModel {
        name: p.name@,
        param_type: opt_view(p.param_type),
        default_value: opt_view(p.default_value),
        is_optional: p.is_optional,
    }
}

pub open spec fn param_models(s: Seq<ParameterInfo>) -> Seq<ParamModel> {
    s.map_values(|p: ParameterInfo| param_model(p))
}

/// Node status for annotations.
#[derive(Debug, Clone, Copy, PartialEq, Eq, Structural)]
pub enum NodeStatus {
    Healthy,
    Review,
    Deprecated,
    Critical,
    Todo,
}

/// Extended node metadata: typed optional fields plus the originating file's
/// extracted facts for framework-specific detail.
#[derive(Debug, Clone)]
pub struct NodeMetadata {
    /// File size in bytes
    pub size_bytes: Option<u64>,
    /// Visibility (public, private, protected)
    pub visibility: Option<Vec<u8>>,
    /// Whether the symbol is abstract
    pub is_abstract: Option<bool>,
    /// Whether the symbol is static
    pub is_static: Option<bool>,
    /// Parent class (inheritance)
    pub parent_class: Option<Vec<u8>>,
    /// Implemented interfaces
    pub implements: Option<Vec<Vec<u8>>>,
    /// Return type (for functions)
    pub return_type: Option<Vec<u8>>,
    /// Parameters (for functions)
    pub parameters: Option<Vec<ParameterInfo>>,
    /// Node status (for annotations)
    pub status: Option<NodeStatus>,
}

impl Default for NodeMetadata {
    fn default() -> (r: Self)
        ensures
            meta_model(r) == default_meta_model(),
    {
        NodeMetadata {
            size_bytes: None,
            visibility: None,
            is_abstract: None,
            is_static: None,
            parent_class: None,
            implements: None,
            return_type: None,
            parameters: None,
            status: None,
        }
    }
}

/// Model of [`NodeMetadata`].
#[verifier::ext_equal]
pub struct MetaModel {
    pub size_bytes: Option<u64>,
    pub visibility: Option<Seq<u8>>,
    pub is_abstract: Option<bool>,
    pub is_static: Option<bool>,
    pub parent_class: Option<Seq<u8>>,
    pub implements: Option<Seq<Seq<u8>>>,
    pub return_type: Option<Seq<u8>>,
    pub parameters: Option<Seq<ParamModel>>,
    pub status: Option<NodeStatus>,
}

pub open spec fn meta_model(m: NodeMetadata) -> MetaModel {
    MetaModel {
        size_bytes: m.size_bytes,
        visibility: opt_view(m.visibility),
        is_abstract: m.is_abstract,
        is_static: m.is_static,
        parent_class: opt_view(m.parent_class),
        implements: opt_views(m.implements),
        return_type: opt_view(m.return_type),
        parameters: match m.parameters {
            Option::Some(v) => Option::Some(param_models(v@)),
            Option::None => Option::None,
        },
        status: m.status,
    }
}

pub open spec fn default_meta_model() -> MetaModel {
    MetaModel {
        size_bytes: Option::None,
        visibility: Option::None,
        is_abstract: Option::None,
        is_static: Option::None,
        parent_class: Option::None,
        implements: Option::None,
        return_type: Option::None,
        parameters: Option::None,
        status: Option::None,
    }
}

/// A unified graph node. Created once, during graph assembly, never mutated
/// afterwards.
#[derive(Debug, Clone)]
pub struct UnifiedNode {
    /// Deterministic id (hash of path, or of path and symbol name)
    pub id: Vec<u8>,
    /// Node type
    pub node_type: UnifiedNodeType,
    /// Short display name
    pub name: Vec<u8>,
    /// Fully qualified name
    pub qualified_name: Vec<u8>,
    /// Label for graph display
    pub label: Vec<u8>,
    /// Visual size (1..=12)
    pub size: u8,
    /// Source language/framework
    pub language: Vec<u8>,
    /// Source file path
    pub file_path: Option<Vec<u8>>,
    /// Start line in file
    pub line_start: Option<u32>,
    /// End line in file
    pub line_end: Option<u32>,
    /// Language-specific metadata
    pub metadata: NodeMetadata,
}

/// Model of a [`UnifiedNode`].
#[verifier::ext_equal]
pub struct NodeModel {
    pub id: Seq<u8>,
    pub node_type: NodeTypeModel,
    pub name: Seq<u8>,
    pub qualified_name: Seq<u8>,
    pub label: Seq<u8>,
    pub size: u8,
    pub language: Seq<u8>,
    pub file_path: Option<Seq<u8>>,
    pub line_start: Option<u32>,
    pub line_end: Option<u32>,
    pub metadata: MetaModel,
}

pub open spec fn node_model(n: UnifiedNode) -> NodeModel {
    NodeModel {
        id: n.id@,
        node_type: node_type_model(n.node_type),
        name: n.name@,
        qualified_name: n.qualified_name@,
        label: n.label@,
        size: n.size,
        language: n.language@,
        file_path: opt_view(n.file_path),
        line_start: n.line_start,
        line_end: n.line_end,
        metadata: meta_model(n.metadata),
    }
}

pub open spec fn node_models(s: Seq<UnifiedNode>) -> Seq<NodeModel> {
    s.map_values(|x: UnifiedNode| node_model(x))
}

pub proof fn lemma_node_models_push(s: Seq<UnifiedNode>, x: UnifiedNode)
    ensures
        node_models(s.push(x)) =~= node_models(s).push(node_model(x)),
{
}

/// The model of a freshly created node: label and qualified name start as
/// the name, size starts at 4, everything else empty.
pub open spec fn new_node_model(id: Seq<u8>, t: NodeTypeModel, name: Seq<u8>) -> NodeModel {
    NodeModel {
        id: id,
        node_type: t,
        name: name,
        qualified_name: name,
        label: name,
        size: 4,
        language: Seq::empty(),
        file_path: Option::None,
        line_start: Option::None,
        line_end: Option::None,
        metadata: default_meta_model(),
    }
}

impl UnifiedNode {
    pub fn new(id: Vec<u8>, node_type: UnifiedNodeType, name: Vec<u8>) -> (r: Self)
        ensures
            node_model(r) == new_node_model(id@, node_type_model(node_type), name@),
    {
        let label = slice_of(&name, 0, name.len());
        let qualified_name = slice_of(&name, 0, name.len());
        let r = UnifiedNode {
            id,
            node_type,
            name,
            qualified_name,
            label,
            size: 4,
            language: Vec::new(),
            file_path: None,
            line_start: None,
            line_end: None,
            metadata: NodeMetadata::default(),
        };
        proof {
            assert(r.qualified_name@ =~= r.name@);
            assert(r.label@ =~= r.name@);
        }
        r
    }

    pub fn with_file(self, path: Vec<u8>) -> (r: Self)
        ensures
            node_model(r) == (NodeModel { file_path: Option::Some(path@), ..node_model(self) }),
    {
        UnifiedNode { file_path: Some(path), ..self }
    }

    pub fn with_language(self, lang: Vec<u8>) -> (r: Self)
        ensures
            node_model(r) == (NodeModel { language: lang@, ..node_model(self) }),
    {
        UnifiedNode { language: lang, ..self }
    }

    /// Set the visual size, clamped into 1..=12.
    pub fn with_size(self, size: u8) -> (r: Self)
        ensures
            node_model(r) == (NodeModel { size: clamp_size(size), ..node_model(self) }),
    {
        let s = if size < 1 {
            1
        } else if size > 12 {
            12
        } else {
            size
        };
        UnifiedNode { size: s, ..self }
    }
}

pub open spec fn clamp_size(s: u8) -> u8 {
    if s < 1 {
        1
    } else if s > 12 {
        12
    } else {
        s
    }
}

// ---------------------------------------------------------------------------
// Edge metadata and edges
// ---------------------------------------------------------------------------

/// Edge metadata.
#[derive(Debug, Clone)]
pub struct EdgeMetadata {
    /// Line number where the relation occurs
    pub line_number: Option<u32>,
    /// Whether this is a conditional dependency
    pub is_conditional: Option<bool>,
    /// Whether this is a development-only dependency
    pub is_dev_dependency: Option<bool>,
    /// Required version (for packages)
    pub version_constraint: Option<Vec<u8>>,
}

impl Default for EdgeMetadata {
    fn default() -> (r: Self)
        ensures
            edge_meta_model(r) == default_edge_meta_model(),
    {
        EdgeMetadata {
            line_number: None,
            is_conditional: None,
            is_dev_dependency: None,
            version_constraint: None,
        }
    }
}

#[verifier::ext_equal]
pub struct EdgeMetaModel {
    pub line_number: Option<u32>,
    pub is_conditional: Option<bool>,
    pub is_dev_dependency: Option<bool>,
    pub version_constraint: Option<Seq<u8>>,
}

pub open spec fn edge_meta_model(m: EdgeMetadata) -> EdgeMetaModel {
    EdgeMetaModel {
        line_number: m.line_number,
        is_conditional: m.is_conditional,
        is_dev_dependency: m.is_dev_dependency,
        version_constraint: opt_view(m.version_constraint),
    }
}

pub open spec fn default_edge_meta_model() -> EdgeMetaModel {
    EdgeMetaModel {
        line_number: Option::None,
        is_conditional: Option::None,
        is_dev_dependency: Option::None,
        version_constraint: Option::None,
    }
}

/// A unified graph edge. Created once during graph assembly.
#[derive(Debug, Clone)]
pub struct UnifiedEdge {
    /// Deterministic id derived from source id, target id and edge type
    pub id: Vec<u8>,
    /// Source node id
    pub source: Vec<u8>,
    /// Target node id
    pub target: Vec<u8>,
    /// Relation type
    pub edge_type: UnifiedEdgeType,
    /// Optional label
    pub label: Option<Vec<u8>>,
    /// Additional detail
    pub detail: Option<Vec<u8>>,
    /// Whether the relation is bidirectional
    pub bidirectional: bool,
    /// Additional metadata
    pub metadata: EdgeMetadata,
}

/// Model of a [`UnifiedEdge`].
#[verifier::ext_equal]
pub struct EdgeModel {
    pub id: Seq<u8>,
    pub source: Seq<u8>,
    pub target: Seq<u8>,
    pub edge_type: EdgeTypeModel,
    pub label: Option<Seq<u8>>,
    pub detail: Option<Seq<u8>>,
    pub bidirectional: bool,
    pub metadata: EdgeMetaModel,
}

pub open spec fn edge_model(e: UnifiedEdge) -> EdgeModel {
    EdgeModel {
        id: e.id@,
        source: e.source@,
        target: e.target@,
        edge_type: edge_type_model(e.edge_type),
        label: opt_view(e.label),
        detail: opt_view(e.detail),
        bidirectional: e.bidirectional,
        metadata: edge_meta_model(e.metadata),
    }
}

pub open spec fn edge_models(s: Seq<UnifiedEdge>) -> Seq<EdgeModel> {
    s.map_values(|x: UnifiedEdge| edge_model(x))
}

pub proof fn lemma_edge_models_push(s: Seq<UnifiedEdge>, x: UnifiedEdge)
    ensures
        edge_models(s.push(x)) =~= edge_models(s).push(edge_model(x)),
{
}

/// The plain-text id of a fresh edge: `source`, `->`, `target`, `:`, tag.
pub open spec fn plain_edge_id(source: Seq<u8>, target: Seq<u8>, t: EdgeTypeModel) -> Seq<u8> {
    source + lit("->") + target + lit(":") + edge_tag_spec(t)
}

/// The model of a freshly created edge.
pub open spec fn new_edge_model(source: Seq<u8>, target: Seq<u8>, t: EdgeTypeModel) -> EdgeModel {
    EdgeModel {
        id: plain_edge_id(source, target, t),
        source: source,
        target: target,
        edge_type: t,
        label: Option::None,
        detail: Option::None,
        bidirectional: false,
        metadata: default_edge_meta_model(),
    }
}

impl UnifiedEdge {
    pub fn new(source: Vec<u8>, target: Vec<u8>, edge_type: UnifiedEdgeType) -> (r: Self)
        ensures
            edge_model(r) == new_edge_model(source@, target@, edge_type_model(edge_type)),
    {
        let arrow = litv("->");
        let colon = litv(":");
        let tag = edge_type.tag();
        let a = concat(&source, &arrow);
        let b = concat(&a, &target);
        let c = concat(&b, &colon);
        let id = concat(&c, &tag);
        proof {
            assert(id@ =~= plain_edge_id(source@, target@, edge_type_model(edge_type)));
        }
        UnifiedEdge {
            id,
            source,
            target,
            edge_type,
            label: None,
            detail: None,
            bidirectional: false,
            metadata: EdgeMetadata::default(),
        }
    }

    pub fn with_label(self, label: Vec<u8>) -> (r: Self)
        ensures
            edge_model(r) == (EdgeModel { label: Option::Some(label@), ..edge_model(self) }),
    {
        UnifiedEdge { label: Some(label), ..self }
    }
}

// ---------------------------------------------------------------------------
// The graph
// ---------------------------------------------------------------------------

/// Graph-level metadata.
#[derive(Debug, Clone)]
pub struct GraphMetadata {
    /// Project name
    pub project_name: Vec<u8>,
    /// Project root path
    pub root_path: Vec<u8>,
    /// Primary language
    pub language: Vec<u8>,
    /// Total files scanned
    pub total_files: usize,
    /// Total lines of code
    pub total_lines: Option<u64>,
    /// Scan timestamp
    pub scanned_at: Option<Vec<u8>>,
    /// Parser version used
    pub parser_version: Vec<u8>,
}

impl Default for GraphMetadata {
    fn default() -> (r: Self)
        ensures
            r.project_name@.len() == 0,
            r.root_path@.len() == 0,
            r.language@.len() == 0,
            r.total_files == 0,
            r.total_lines is None,
            r.scanned_at is None,
            r.parser_version@.len() == 0,
    {
        GraphMetadata {
            project_name: Vec::new(),
            root_path: Vec::new(),
            language: Vec::new(),
            total_files: 0,
            total_lines: None,
            scanned_at: None,
            parser_version: Vec::new(),
        }
    }
}

/// Number of edges in `s` whose source id is `id`.
pub open spec fn count_from(s: Seq<UnifiedEdge>, id: Seq<u8>) -> nat
    decreases s.len(),
{
    if s.len() == 0 {
        0
    } else {
        count_from(s.drop_last(), id) + if s.last().source@ == id {
            1nat
        } else {
            0nat
        }
    }
}

/// Number of edges in `s` whose target id is `id`.
pub open spec fn count_to(s: Seq<UnifiedEdge>, id: Seq<u8>) -> nat
    decreases s.len(),
{
    if s.len() == 0 {
        0
    } else {
        count_to(s.drop_last(), id) + if s.last().target@ == id {
            1nat
        } else {
            0nat
        }
    }
}

/// The complete unified graph: the terminal output artifact.
#[derive(Debug, Clone)]
pub struct UnifiedGraph {
    /// All nodes
    pub nodes: Vec<UnifiedNode>,
    /// All edges
    pub edges: Vec<UnifiedEdge>,
    /// Graph metadata
    pub metadata: GraphMetadata,
}

impl UnifiedGraph {
    pub fn new() -> (r: Self)
        ensures
            r.nodes@.len() == 0,
            r.edges@.len() == 0,
    {
        UnifiedGraph { nodes: Vec::new(), edges: Vec::new(), metadata: GraphMetadata::default() }
    }

    pub fn with_metadata(self, metadata: GraphMetadata) -> (r: Self)
        ensures
            r.nodes == self.nodes,
            r.edges == self.edges,
            r.metadata == metadata,
    {
        UnifiedGraph { metadata, ..self }
    }

    pub fn add_node(&mut self, node: UnifiedNode)
        ensures
            final(self).nodes@ == old(self).nodes@.push(node),
            final(self).edges == old(self).edges,
            final(self).metadata == old(self).metadata,
    {
        self.nodes.push(node);
    }

    pub fn add_edge(&mut self, edge: UnifiedEdge)
        ensures
            final(self).edges@ == old(self).edges@.push(edge),
            final(self).nodes == old(self).nodes,
            final(self).metadata == old(self).metadata,
    {
        self.edges.push(edge);
    }

    pub fn node_count(&self) -> (r: usize)
        ensures
            r == self.nodes@.len(),
    {
        self.nodes.len()
    }

    pub fn edge_count(&self) -> (r: usize)
        ensures
            r == self.edges@.len(),
    {
        self.edges.len()
    }

    /// Find the first node with the given id.
    pub fn find_node(&self, id: &Vec<u8>) -> (r: Option<&UnifiedNode>)
        ensures
            match r {
                Option::Some(n) => exists|k: int|
                    0 <= k < self.nodes@.len() && *n == self.nodes@[k] && n.id@ == id@,
                Option::None => forall|k: int|
                    0 <= k < self.nodes@.len() ==> (#[trigger] self.nodes@[k]).id@ != id@,
            },
    {
        let mut k: usize = 0;
        while k < self.nodes.len()
            invariant
                0 <= k <= self.nodes@.len(),
                forall|m: int| 0 <= m < k ==> (#[trigger] self.nodes@[m]).id@ != id@,
            decreases self.nodes@.len() - k,
        {
            if crate::text::bytes_eq(&self.nodes[k].id, id) {
                let n = &self.nodes[k];
                proof {
                    assert(*n == self.nodes@[k as int] && n.id@ == id@);
                }
                return Some(n);
            }
            k = k + 1;
        }
        None
    }

    /// All edges whose source is the given node id, in graph order.
    pub fn edges_from(&self, node_id: &Vec<u8>) -> (r: Vec<UnifiedEdge>)
        ensures
            r@.len() == count_from(self.edges@, node_id@),
            forall|m: int| 0 <= m < r@.len() ==> (#[trigger] r@[m]).source@ == node_id@,
    {
        let mut out: Vec<UnifiedEdge> = Vec::new();
        let mut k: usize = 0;
        while k < self.edges.len()
            invariant
                0 <= k <= self.edges@.len(),
                out@.len() == count_from(self.edges@.take(k as int), node_id@),
                forall|m: int| 0 <= m < out@.len() ==> (#[trigger] out@[m]).source@ == node_id@,
            decreases self.edges@.len() - k,
        {
            proof {
                assert(self.edges@.take(k + 1).drop_last() =~= self.edges@.take(k as int));
                assert(self.edges@.take(k + 1).last() == self.edges@[k as int]);
            }
            if crate::text::bytes_eq(&self.edges[k].source, node_id) {
                out.push(self.duplicate_edge(k));
            }
            k = k + 1;
        }
        proof {
            assert(self.edges@.take(self.edges@.len() as int) =~= self.edges@);
        }
        out
    }

    /// All edges whose target is the given node id, in graph order.
    pub fn edges_to(&self, node_id: &Vec<u8>) -> (r: Vec<UnifiedEdge>)
        ensures
            r@.len() == count_to(self.edges@, node_id@),
            forall|m: int| 0 <= m < r@.len() ==> (#[trigger] r@[m]).target@ == node_id@,
    {
        let mut out: Vec<UnifiedEdge> = Vec::new();
        let mut k: usize = 0;
        while k < self.edges.len()
            invariant
                0 <= k <= self.edges@.len(),
                out@.len() == count_to(self.edges@.take(k as int), node_id@),
                forall|m: int| 0 <= m < out@.len() ==> (#[trigger] out@[m]).target@ == node_id@,
            decreases self.edges@.len() - k,
        {
            proof {
                assert(self.edges@.take(k + 1).drop_last() =~= self.edges@.take(k as int));
                assert(self.edges@.take(k + 1).last() == self.edges@[k as int]);
            }
            if crate::text::bytes_eq(&self.edges[k].target, node_id) {
                out.push(self.duplicate_edge(k));
            }
            k = k + 1;
        }
        proof {
            assert(self.edges@.take(self.edges@.len() as int) =~= self.edges@);
        }
        out
    }

    /// A structural copy of the edge at index `k`.
    fn duplicate_edge(&self, k: usize) -> (r: UnifiedEdge)
        requires
            k < self.edges@.len(),
        ensures
            edge_model(r) == edge_model(self.edges@[k as int]),
            r.source@ == self.edges@[k as int].source@,
            r.target@ == self.edges@[k as int].target@,
    {
        let e = &self.edges[k];
        let id = slice_of(&e.id, 0, e.id.len());
        let source = slice_of(&e.source, 0, e.source.len());
        let target = slice_of(&e.target, 0, e.target.len());
        let edge_type = match &e.edge_type {
            UnifiedEdgeType::Uses => UnifiedEdgeType::Uses,
            UnifiedEdgeType::Extends => UnifiedEdgeType::Extends,
            UnifiedEdgeType::Implements => UnifiedEdgeType::Implements,
            UnifiedEdgeType::Includes => UnifiedEdgeType::Includes,
            UnifiedEdgeType::Contains => UnifiedEdgeType::Contains,
            UnifiedEdgeType::Defines => UnifiedEdgeType::Defines,
            UnifiedEdgeType::BelongsTo => UnifiedEdgeType::BelongsTo,
            UnifiedEdgeType::Calls => UnifiedEdgeType::Calls,
            UnifiedEdgeType::Instantiates => UnifiedEdgeType::Instantiates,
            UnifiedEdgeType::FilePair => UnifiedEdgeType::FilePair,
            UnifiedEdgeType::Routes => UnifiedEdgeType::Routes,
            UnifiedEdgeType::Renders => UnifiedEdgeType::Renders,
            UnifiedEdgeType::QueriesTable => UnifiedEdgeType::QueriesTable,
            UnifiedEdgeType::HasRelation => UnifiedEdgeType::HasRelation,
            UnifiedEdgeType::References => UnifiedEdgeType::References,
            UnifiedEdgeType::Custom(s) => UnifiedEdgeType::Custom(slice_of(s, 0, s.len())),
        };
        let label = match &e.label {
            Option::Some(v) => Some(slice_of(v, 0, v.len())),
            Option::None => None,
        };
        let detail = match &e.detail {
            Option::Some(v) => Some(slice_of(v, 0, v.len())),
            Option::None => None,
        };
        let version_constraint = match &e.metadata.version_constraint {
            Option::Some(v) => Some(slice_of(v, 0, v.len())),
            Option::None => None,
        };
        let r = UnifiedEdge {
            id,
            source,
            target,
            edge_type,
            label,
            detail,
            bidirectional: e.bidirectional,
            metadata: EdgeMetadata {
                line_number: e.metadata.line_number,
                is_conditional: e.metadata.is_conditional,
                is_dev_dependency: e.metadata.is_dev_dependency,
                version_constraint,
            },
        };
        proof {
            assert(r.id@ =~= e.id@);
            assert(r.source@ =~= e.source@);
            assert(r.target@ =~= e.target@);
            assert(edge_model(r) =~= edge_model(self.edges@[k as int]));
        }
        r
    }

    /// In-degree of a node.
    pub fn in_degree(&self, node_id: &Vec<u8>) -> (r: usize)
        ensures
            r == count_to(self.edges@, node_id@),
    {
        let v = self.edges_to(node_id);
        v.len()
    }

    /// Out-degree of a node.
    pub fn out_degree(&self, node_id: &Vec<u8>) -> (r: usize)
        ensures
            r == count_from(self.edges@, node_id@),
    {
        let v = self.edges_from(node_id);
        v.len()
    }
}

impl Default for UnifiedGraph {
    fn default() -> (r: Self)
        ensures
            r.nodes@.len() == 0,
            r.edges@.len() == 0,
    {
        UnifiedGraph::new()
    }
}

} // verus!
