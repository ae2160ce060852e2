//! The data model of extraction: symbols, dependencies, per-framework facts,
//! parsed files and whole-project parse results.
//!
//! Executable values hold byte vectors; each carries a mathematical model
//! over `Seq<u8>` so extractor contracts can pin results down exactly.

use vstd::prelude::*;
use crate::source_file::SourceFile;
use crate::text::views;

verus! {

// ---------------------------------------------------------------------------
// Symbols
// ---------------------------------------------------------------------------

/// The kind of a named code construct mined from a file.
#[derive(Debug, Clone, Copy, PartialEq, Eq, Structural)]
pub enum SymbolType {
    Class,
    Interface,
    Trait,
    Enum,
    Function,
    Method,
    Variable,
    Constant,
    Property,
    Record,
    Unit,
}

/// A symbol found in code (class, function, unit, ...). Produced only by
/// extractors and never mutated afterwards.
#[derive(Debug, Clone)]
pub struct Symbol {
    /// Symbol name
    pub name: Vec<u8>,
    /// Fully qualified name
    pub qualified_name: Vec<u8>,
    /// Symbol kind
    pub symbol_type: SymbolType,
    /// Visibility (public, private, protected)
    pub visibility: Option<Vec<u8>>,
    /// Whether the symbol is abstract
    pub is_abstract: Option<bool>,
    /// Whether the symbol is static
    pub is_static: Option<bool>,
    /// Parent class, for inheritance
    pub extends: Option<Vec<u8>>,
    /// Implemented interfaces
    pub implements: Option<Vec<Vec<u8>>>,
    /// Start line
    pub line_start: Option<u32>,
    /// End line
    pub line_end: Option<u32>,
}

/// Mathematical model of a [`Symbol`].
#[verifier::ext_equal]
pub struct SymbolModel {
    pub name: Seq<u8>,
    pub qualified_name: Seq<u8>,
    pub symbol_type: SymbolType,
    pub visibility: Option<Seq<u8>>,
    pub is_abstract: Option<bool>,
    pub is_static: Option<bool>,
    pub extends: Option<Seq<u8>>,
    pub implements: Option<Seq<Seq<u8>>>,
    pub line_start: Option<u32>,
    pub line_end: Option<u32>,
}

pub open spec fn opt_view(o: Option<Vec<u8>>) -> Option<Seq<u8>> {
    match o {
        Option::Some(v) => Option::Some(v@),
        Option::None => Option::None,
    }
}

pub open spec fn opt_views(o: Option<Vec<Vec<u8>>>) -> Option<Seq<Seq<u8>>> {
    match o {
        Option::Some(v) => Option::Some(views(v@)),
        Option::None => Option::None,
    }
}

pub open spec fn sym_model(s: Symbol) -> SymbolModel {
    SymbolModel {
        name: s.name@,
        qualified_name: s.qualified_name@,
        symbol_type: s.symbol_type,
        visibility: opt_view(s.visibility),
        is_abstract: s.is_abstract,
        is_static: s.is_static,
        extends: opt_view(s.extends),
        implements: opt_views(s.implements),
        line_start: s.line_start,
        line_end: s.line_end,
    }
}

pub open spec fn sym_models(s: Seq<Symbol>) -> Seq<SymbolModel> {
    s.map_values(|x: Symbol| sym_model(x))
}

pub proof fn lemma_sym_models_push(s: Seq<Symbol>, x: Symbol)
    ensures
        sym_models(s.push(x)) =~= sym_models(s).push(sym_model(x)),
{
}

// ---------------------------------------------------------------------------
// Dependencies
// ---------------------------------------------------------------------------

/// A reference from one file to a named external entity.
#[derive(Debug, Clone)]
pub struct Dependency {
    /// Target name (what is being used/imported)
    pub target: Vec<u8>,
    /// Alias, if any (`use X as Y`)
    pub alias: Option<Vec<u8>>,
    /// Line number where the dependency is declared
    pub line_number: Option<u32>,
    /// From the interface section (Delphi; always false elsewhere)
    pub is_interface: bool,
    /// From the implementation section (Delphi; always false elsewhere)
    pub is_implementation: bool,
}

/// Mathematical model of a [`Dependency`].
#[verifier::ext_equal]
pub struct DepModel {
    pub target: Seq<u8>,
    pub alias: Option<Seq<u8>>,
    pub line_number: Option<u32>,
    pub is_interface: bool,
    pub is_implementation: bool,
}

pub open spec fn dep_model(d: Dependency) -> DepModel {
    DepModel {
        target: d.target@,
        alias: opt_view(d.alias),
        line_number: d.line_number,
        is_interface: d.is_interface,
        is_implementation: d.is_implementation,
    }
}

pub open spec fn dep_models(s: Seq<Dependency>) -> Seq<DepModel> {
    s.map_values(|x: Dependency| dep_model(x))
}

pub proof fn lemma_dep_models_push(s: Seq<Dependency>, x: Dependency)
    ensures
        dep_models(s.push(x)) =~= dep_models(s).push(dep_model(x)),
{
}

// ---------------------------------------------------------------------------
// Route facts
// ---------------------------------------------------------------------------

/// What a route maps to: a controller action, a closure, a direct view, a
/// redirect, or nothing recognizable.
#[derive(Debug, Clone)]
pub enum RouteAction {
    Controller { controller: Vec<u8>, method: Vec<u8> },
    Closure,
    ViewTarget { view: Vec<u8> },
    Redirect { to: Vec<u8> },
    Unrecognized,
}

/// Model of a [`RouteAction`].
#[verifier::ext_equal]
pub enum ActionModel {
    Controller { controller: Seq<u8>, method: Seq<u8> },
    Closure,
    ViewTarget { view: Seq<u8> },
    Redirect { to: Seq<u8> },
    Unrecognized,
}

pub open spec fn action_model(a: RouteAction) -> ActionModel {
    match a {
        RouteAction::Controller { controller, method } => ActionModel::Controller {
            controller: controller@,
            method: method@,
        },
        RouteAction::Closure => ActionModel::Closure,
        RouteAction::ViewTarget { view } => ActionModel::ViewTarget { view: view@ },
        RouteAction::Redirect { to } => ActionModel::Redirect { to: to@ },
        RouteAction::Unrecognized => ActionModel::Unrecognized,
    }
}

/// A parsed route.
#[derive(Debug, Clone)]
pub struct RouteDefinition {
    /// Upper-cased HTTP verb
    pub method: Vec<u8>,
    /// Route URI
    pub uri: Vec<u8>,
    /// What the route maps to
    pub action: RouteAction,
    /// Route name, when present
    pub name: Option<Vec<u8>>,
    /// Middleware applied to the route
    pub middleware: Vec<Vec<u8>>,
    /// Group prefix (not attached during extraction)
    pub prefix: Option<Vec<u8>>,
}

/// Model of a [`RouteDefinition`].
#[verifier::ext_equal]
pub struct RouteModel {
    pub method: Seq<u8>,
    pub uri: Seq<u8>,
    pub action: ActionModel,
    pub name: Option<Seq<u8>>,
    pub middleware: Seq<Seq<u8>>,
    pub prefix: Option<Seq<u8>>,
}

pub open spec fn route_model(r: RouteDefinition) -> RouteModel {
    RouteModel {
        method: r.method@,
        uri: r.uri@,
        action: action_model(r.action),
        name: opt_view(r.name),
        middleware: views(r.middleware@),
        prefix: opt_view(r.prefix),
    }
}

pub open spec fn route_models(s: Seq<RouteDefinition>) -> Seq<RouteModel> {
    s.map_values(|x: RouteDefinition| route_model(x))
}

pub proof fn lemma_route_models_push(s: Seq<RouteDefinition>, x: RouteDefinition)
    ensures
        route_models(s.push(x)) =~= route_models(s).push(route_model(x)),
{
}

/// A `Route::resource` / `Route::apiResource` registration.
#[derive(Debug, Clone)]
pub struct ResourceRoute {
    pub name: Vec<u8>,
    pub controller: Vec<u8>,
}

pub open spec fn resource_model(r: ResourceRoute) -> (Seq<u8>, Seq<u8>) {
    (r.name@, r.controller@)
}

pub open spec fn resource_models(s: Seq<ResourceRoute>) -> Seq<(Seq<u8>, Seq<u8>)> {
    s.map_values(|x: ResourceRoute| resource_model(x))
}

pub proof fn lemma_resource_models_push(s: Seq<ResourceRoute>, x: ResourceRoute)
    ensures
        resource_models(s.push(x)) =~= resource_models(s).push(resource_model(x)),
{
}

/// Options of a `Route::group([...])` registration.
#[derive(Debug, Clone)]
pub struct RouteGroup {
    pub prefix: Option<Vec<u8>>,
    pub middleware: Vec<Vec<u8>>,
    pub namespace: Option<Vec<u8>>,
    pub name_prefix: Option<Vec<u8>>,
}

#[verifier::ext_equal]
pub struct GroupModel {
    pub prefix: Option<Seq<u8>>,
    pub middleware: Seq<Seq<u8>>,
    pub namespace: Option<Seq<u8>>,
    pub name_prefix: Option<Seq<u8>>,
}

pub open spec fn group_model(g: RouteGroup) -> GroupModel {
    GroupModel {
        prefix: opt_view(g.prefix),
        middleware: views(g.middleware@),
        namespace: opt_view(g.namespace),
        name_prefix: opt_view(g.name_prefix),
    }
}

pub open spec fn group_models(s: Seq<RouteGroup>) -> Seq<GroupModel> {
    s.map_values(|x: RouteGroup| group_model(x))
}

pub proof fn lemma_group_models_push(s: Seq<RouteGroup>, x: RouteGroup)
    ensures
        group_models(s.push(x)) =~= group_models(s).push(group_model(x)),
{
}

/// Facts mined from a Laravel route file.
#[derive(Debug, Clone)]
pub struct RouteFacts {
    /// Which route file this is: web, api, channels, console or custom
    pub route_type: Vec<u8>,
    pub routes: Vec<RouteDefinition>,
    pub resource_routes: Vec<ResourceRoute>,
    pub api_resource_routes: Vec<ResourceRoute>,
    pub route_groups: Vec<RouteGroup>,
    pub controllers_referenced: Vec<Vec<u8>>,
    pub middlewares_used: Vec<Vec<u8>>,
}

// ---------------------------------------------------------------------------
// Controller facts
// ---------------------------------------------------------------------------

/// Facts mined from a Laravel controller.
#[derive(Debug, Clone)]
pub struct ControllerFacts {
    pub namespace: Option<Vec<u8>>,
    pub middlewares: Vec<Vec<u8>>,
    pub is_resource_controller: bool,
    pub views_referenced: Vec<Vec<u8>>,
    pub models_referenced: Vec<Vec<u8>>,
    pub inertia_pages: Vec<Vec<u8>>,
}

// ---------------------------------------------------------------------------
// Model facts
// ---------------------------------------------------------------------------

/// An Eloquent relationship found in a model method body.
#[derive(Debug, Clone)]
pub struct RelationFact {
    /// The defining method's name
    pub method: Vec<u8>,
    /// The relationship kind (`hasMany`, `belongsTo`, ...)
    pub rel_type: Vec<u8>,
    /// The related model, resolved from `Model::class` or a string literal
    pub related_model: Option<Vec<u8>>,
    /// The raw argument text of the relationship call
    pub raw_args: Vec<u8>,
}

#[verifier::ext_equal]
pub struct RelationModel {
    pub method: Seq<u8>,
    pub rel_type: Seq<u8>,
    pub related_model: Option<Seq<u8>>,
    pub raw_args: Seq<u8>,
}

pub open spec fn relation_model(r: RelationFact) -> RelationModel {
    RelationModel {
        method: r.method@,
        rel_type: r.rel_type@,
        related_model: opt_view(r.related_model),
        raw_args: r.raw_args@,
    }
}

pub open spec fn relation_models(s: Seq<RelationFact>) -> Seq<RelationModel> {
    s.map_values(|x: RelationFact| relation_model(x))
}

pub proof fn lemma_relation_models_push(s: Seq<RelationFact>, x: RelationFact)
    ensures
        relation_models(s.push(x)) =~= relation_models(s).push(relation_model(x)),
{
}

pub open spec fn pair_views(s: Seq<(Vec<u8>, Vec<u8>)>) -> Seq<(Seq<u8>, Seq<u8>)> {
    s.map_values(|x: (Vec<u8>, Vec<u8>)| (x.0@, x.1@))
}

pub proof fn lemma_pair_views_push(s: Seq<(Vec<u8>, Vec<u8>)>, x: (Vec<u8>, Vec<u8>))
    ensures
        pair_views(s.push(x)) =~= pair_views(s).push((x.0@, x.1@)),
{
}

/// Facts mined from an Eloquent model.
#[derive(Debug, Clone)]
pub struct ModelFacts {
    pub namespace: Option<Vec<u8>>,
    pub fillable: Option<Vec<Vec<u8>>>,
    pub guarded: Option<Vec<Vec<u8>>>,
    pub hidden: Option<Vec<Vec<u8>>>,
    pub visible: Option<Vec<Vec<u8>>>,
    pub appends: Option<Vec<Vec<u8>>>,
    pub eager_with: Option<Vec<Vec<u8>>>,
    pub dates: Option<Vec<Vec<u8>>>,
    pub timestamps: Option<bool>,
    pub incrementing: Option<bool>,
    pub relationships: Vec<RelationFact>,
    pub scopes: Vec<Vec<u8>>,
    pub accessors: Vec<Vec<u8>>,
    pub mutators: Vec<Vec<u8>>,
    pub casts: Vec<(Vec<u8>, Vec<u8>)>,
    pub traits_used: Vec<Vec<u8>>,
    pub table: Option<Vec<u8>>,
    pub primary_key: Option<Vec<u8>>,
}

// ---------------------------------------------------------------------------
// Migration facts
// ---------------------------------------------------------------------------

/// One schema operation inside a migration method body.
#[derive(Debug, Clone)]
pub enum SchemaOp {
    Create { table: Vec<u8> },
    Modify { table: Vec<u8> },
    Drop { table: Vec<u8> },
    Rename { from: Vec<u8>, to: Vec<u8> },
}

#[verifier::ext_equal]
pub enum SchemaOpModel {
    Create { table: Seq<u8> },
    Modify { table: Seq<u8> },
    Drop { table: Seq<u8> },
    Rename { from: Seq<u8>, to: Seq<u8> },
}

pub open spec fn schema_op_model(o: SchemaOp) -> SchemaOpModel {
    match o {
        SchemaOp::Create { table } => SchemaOpModel::Create { table: table@ },
        SchemaOp::Modify { table } => SchemaOpModel::Modify { table: table@ },
        SchemaOp::Drop { table } => SchemaOpModel::Drop { table: table@ },
        SchemaOp::Rename { from, to } => SchemaOpModel::Rename { from: from@, to: to@ },
    }
}

pub open spec fn schema_op_models(s: Seq<SchemaOp>) -> Seq<SchemaOpModel> {
    s.map_values(|x: SchemaOp| schema_op_model(x))
}

pub proof fn lemma_schema_op_models_push(s: Seq<SchemaOp>, x: SchemaOp)
    ensures
        schema_op_models(s.push(x)) =~= schema_op_models(s).push(schema_op_model(x)),
{
}

/// A typed column definition with its modifiers.
#[derive(Debug, Clone)]
pub struct ColumnFact {
    pub name: Vec<u8>,
    pub column_type: Vec<u8>,
    pub nullable: bool,
    pub default_value: Option<Vec<u8>>,
    pub modifiers: Vec<Vec<u8>>,
}

#[verifier::ext_equal]
pub struct ColumnModel {
    pub name: Seq<u8>,
    pub column_type: Seq<u8>,
    pub nullable: bool,
    pub default_value: Option<Seq<u8>>,
    pub modifiers: Seq<Seq<u8>>,
}

pub open spec fn column_model(c: ColumnFact) -> ColumnModel {
    ColumnModel {
        name: c.name@,
        column_type: c.column_type@,
        nullable: c.nullable,
        default_value: opt_view(c.default_value),
        modifiers: views(c.modifiers@),
    }
}

pub open spec fn column_models(s: Seq<ColumnFact>) -> Seq<ColumnModel> {
    s.map_values(|x: ColumnFact| column_model(x))
}

pub proof fn lemma_column_models_push(s: Seq<ColumnFact>, x: ColumnFact)
    ensures
        column_models(s.push(x)) =~= column_models(s).push(column_model(x)),
{
}

/// A foreign key, explicit or from the `foreignId()->constrained()` shorthand.
#[derive(Debug, Clone)]
pub struct ForeignKeyFact {
    pub column: Vec<u8>,
    pub references: Vec<u8>,
    pub on_table: Vec<u8>,
    pub on_delete: Option<Vec<u8>>,
    pub on_update: Option<Vec<u8>>,
    pub constrained: bool,
}

#[verifier::ext_equal]
pub struct ForeignKeyModel {
    pub column: Seq<u8>,
    pub references: Seq<u8>,
    pub on_table: Seq<u8>,
    pub on_delete: Option<Seq<u8>>,
    pub on_update: Option<Seq<u8>>,
    pub constrained: bool,
}

pub open spec fn fk_model(f: ForeignKeyFact) -> ForeignKeyModel {
    ForeignKeyModel {
        column: f.column@,
        references: f.references@,
        on_table: f.on_table@,
        on_delete: opt_view(f.on_delete),
        on_update: opt_view(f.on_update),
        constrained: f.constrained,
    }
}

pub open spec fn fk_models(s: Seq<ForeignKeyFact>) -> Seq<ForeignKeyModel> {
    s.map_values(|x: ForeignKeyFact| fk_model(x))
}

pub proof fn lemma_fk_models_push(s: Seq<ForeignKeyFact>, x: ForeignKeyFact)
    ensures
        fk_models(s.push(x)) =~= fk_models(s).push(fk_model(x)),
{
}

/// A primary/unique/plain index declaration.
#[derive(Debug, Clone)]
pub struct IndexFact {
    /// `primary`, `unique` or `index`
    pub index_type: Vec<u8>,
    pub columns: Vec<Vec<u8>>,
}

pub open spec fn index_model(x: IndexFact) -> (Seq<u8>, Seq<Seq<u8>>) {
    (x.index_type@, views(x.columns@))
}

pub open spec fn index_models(s: Seq<IndexFact>) -> Seq<(Seq<u8>, Seq<Seq<u8>>)> {
    s.map_values(|x: IndexFact| index_model(x))
}

pub proof fn lemma_index_models_push(s: Seq<IndexFact>, x: IndexFact)
    ensures
        index_models(s.push(x)) =~= index_models(s).push(index_model(x)),
{
}

/// Facts mined from a Laravel database migration.
#[derive(Debug, Clone)]
pub struct MigrationFacts {
    pub migration_class: Option<Vec<u8>>,
    pub migration_timestamp: Option<Vec<u8>>,
    pub up_operations: Option<Vec<SchemaOp>>,
    pub down_operations: Option<Vec<SchemaOp>>,
    pub tables_created: Vec<Vec<u8>>,
    pub tables_modified: Vec<Vec<u8>>,
    pub tables_dropped: Vec<Vec<u8>>,
    pub columns: Vec<ColumnFact>,
    pub foreign_keys: Vec<ForeignKeyFact>,
    pub indexes: Vec<IndexFact>,
    pub has_timestamps: bool,
    pub has_soft_deletes: bool,
    pub has_remember_token: bool,
}

// ---------------------------------------------------------------------------
// Blade facts
// ---------------------------------------------------------------------------

/// A Blade component use: class-based, anonymous (`<x-...>`), or dynamic.
#[derive(Debug, Clone)]
pub struct ComponentFact {
    pub name: Vec<u8>,
    /// `class`, `anonymous` or `dynamic`
    pub kind: Vec<u8>,
}

pub open spec fn component_model(c: ComponentFact) -> (Seq<u8>, Seq<u8>) {
    (c.name@, c.kind@)
}

pub open spec fn component_models(s: Seq<ComponentFact>) -> Seq<(Seq<u8>, Seq<u8>)> {
    s.map_values(|x: ComponentFact| component_model(x))
}

pub proof fn lemma_component_models_push(s: Seq<ComponentFact>, x: ComponentFact)
    ensures
        component_models(s.push(x)) =~= component_models(s).push(component_model(x)),
{
}

pub open spec fn count_views(s: Seq<(Vec<u8>, usize)>) -> Seq<(Seq<u8>, int)> {
    s.map_values(|x: (Vec<u8>, usize)| (x.0@, x.1 as int))
}

pub proof fn lemma_count_views_push(s: Seq<(Vec<u8>, usize)>, x: (Vec<u8>, usize))
    ensures
        count_views(s.push(x)) =~= count_views(s).push((x.0@, x.1 as int)),
{
}

/// Facts mined from a Blade template.
#[derive(Debug, Clone)]
pub struct BladeFacts {
    /// Dotted view name derived from the path
    pub view_name: Vec<u8>,
    /// Whether the template yields sections (a layout)
    pub is_layout: bool,
    /// Whether the template is a component
    pub is_component: bool,
    /// Parent layout from `@extends`
    pub extends_view: Option<Vec<u8>>,
    pub sections: Vec<Vec<u8>>,
    pub yields: Vec<Vec<u8>>,
    pub includes: Vec<Vec<u8>>,
    pub components: Vec<ComponentFact>,
    pub slots: Vec<Vec<u8>>,
    pub stacks: Vec<Vec<u8>>,
    pub pushes: Vec<Vec<u8>>,
    pub props: Vec<Vec<u8>>,
    pub livewire_components: Vec<Vec<u8>>,
    pub permissions: Vec<Vec<u8>>,
    pub error_fields: Vec<Vec<u8>>,
    /// Directive name to occurrence count, for directives that occur
    pub directive_counts: Vec<(Vec<u8>, usize)>,
}

// ---------------------------------------------------------------------------
// Inertia facts
// ---------------------------------------------------------------------------

/// An ES import found in an Inertia page component.
#[derive(Debug, Clone)]
pub struct ImportFact {
    pub name: Vec<u8>,
    pub path: Vec<u8>,
    /// `vue_component`, `named` or `default`
    pub kind: Vec<u8>,
}

#[verifier::ext_equal]
pub struct ImportModel {
    pub name: Seq<u8>,
    pub path: Seq<u8>,
    pub kind: Seq<u8>,
}

pub open spec fn import_model(x: ImportFact) -> ImportModel {
    ImportModel { name: x.name@, path: x.path@, kind: x.kind@ }
}

pub open spec fn import_models(s: Seq<ImportFact>) -> Seq<ImportModel> {
    s.map_values(|x: ImportFact| import_model(x))
}

pub proof fn lemma_import_models_push(s: Seq<ImportFact>, x: ImportFact)
    ensures
        import_models(s.push(x)) =~= import_models(s).push(import_model(x)),
{
}

/// Facts mined from an Inertia.js page component.
#[derive(Debug, Clone)]
pub struct InertiaFacts {
    /// Page name derived from the path
    pub page_name: Vec<u8>,
    /// `vue`, `react`, `svelte` or `unknown`
    pub framework: Vec<u8>,
    pub imports: Vec<ImportFact>,
    pub child_components: Vec<Vec<u8>>,
    pub inertia_links: Vec<Vec<u8>>,
    /// `router.<verb>('<path>')` calls, as (verb, path)
    pub router_calls: Vec<(Vec<u8>, Vec<u8>)>,
    pub uses_page_props: bool,
    pub uses_inertia_form: bool,
    pub props: Vec<Vec<u8>>,
    pub emits: Vec<Vec<u8>>,
    pub typescript_types: Vec<Vec<u8>>,
}

// ---------------------------------------------------------------------------
// Generic PHP facts and the typed union
// ---------------------------------------------------------------------------

/// Facts mined by the base PHP extractor.
#[derive(Debug, Clone)]
pub struct PhpFacts {
    pub namespace: Option<Vec<u8>>,
    /// The Laravel file-kind tag attached when no specialized extractor ran
    pub laravel_type: Option<Vec<u8>>,
}

/// Language-specific facts of one parsed file: a typed sum of the recognized
/// per-extractor fact sets.
#[derive(Debug, Clone)]
pub enum FileFacts {
    Bare,
    Php(PhpFacts),
    Controller(ControllerFacts),
    Model(ModelFacts),
    Route(RouteFacts),
    Migration(MigrationFacts),
    Blade(BladeFacts),
    Inertia(InertiaFacts),
}

// ---------------------------------------------------------------------------
// Parsed files and parse results
// ---------------------------------------------------------------------------

/// The result of parsing a single file: written once by its extractor,
/// read-only afterwards.
#[derive(Debug, Clone)]
pub struct ParsedFile {
    /// The scanned source file
    pub source: SourceFile,
    /// Symbols found
    pub symbols: Vec<Symbol>,
    /// Dependencies (imports, uses, includes)
    pub dependencies: Vec<Dependency>,
    /// Language-specific facts
    pub facts: FileFacts,
    /// Non-fatal parsing warnings
    pub warnings: Vec<Vec<u8>>,
}

impl ParsedFile {
    pub fn new(source: SourceFile) -> (r: Self)
        ensures
            r.source == source,
            r.symbols@.len() == 0,
            r.dependencies@.len() == 0,
            r.facts is Bare,
            r.warnings@.len() == 0,
    {
        ParsedFile {
            source,
            symbols: Vec::new(),
            dependencies: Vec::new(),
            facts: FileFacts::Bare,
            warnings: Vec::new(),
        }
    }

    pub fn add_symbol(&mut self, symbol: Symbol)
        ensures
            final(self).symbols@ == old(self).symbols@.push(symbol),
            final(self).source == old(self).source,
            final(self).dependencies == old(self).dependencies,
            final(self).facts == old(self).facts,
            final(self).warnings == old(self).warnings,
    {
        self.symbols.push(symbol);
    }

    pub fn add_dependency(&mut self, dep: Dependency)
        ensures
            final(self).dependencies@ == old(self).dependencies@.push(dep),
            final(self).source == old(self).source,
            final(self).symbols == old(self).symbols,
            final(self).facts == old(self).facts,
            final(self).warnings == old(self).warnings,
    {
        self.dependencies.push(dep);
    }

    pub fn add_warning(&mut self, warning: Vec<u8>)
        ensures
            final(self).warnings@ == old(self).warnings@.push(warning),
            final(self).source == old(self).source,
            final(self).symbols == old(self).symbols,
            final(self).dependencies == old(self).dependencies,
            final(self).facts == old(self).facts,
    {
        self.warnings.push(warning);
    }
}

/// The result of parsing an entire project: all successfully parsed files
/// plus a path-to-error map; the counters only grow.
#[derive(Debug, Clone)]
pub struct ParseResult {
    /// All parsed files
    pub files: Vec<ParsedFile>,
    /// Paths that failed, with their error messages
    pub errors: Vec<(Vec<u8>, Vec<u8>)>,
    /// Total files processed
    pub total_processed: usize,
    /// Total files with errors
    pub total_errors: usize,
}

impl ParseResult {
    pub fn new() -> (r: Self)
        ensures
            r.files@.len() == 0,
            r.errors@.len() == 0,
            r.total_processed == 0,
            r.total_errors == 0,
    {
        ParseResult { files: Vec::new(), errors: Vec::new(), total_processed: 0, total_errors: 0 }
    }

    pub fn add_parsed_file(&mut self, file: ParsedFile)
        requires
            old(self).total_processed < usize::MAX,
        ensures
            final(self).files@ == old(self).files@.push(file),
            final(self).errors == old(self).errors,
            final(self).total_processed == old(self).total_processed + 1,
            final(self).total_errors == old(self).total_errors,
    {
        self.total_processed = self.total_processed + 1;
        self.files.push(file);
    }

    pub fn add_error(&mut self, path: Vec<u8>, error: Vec<u8>)
        requires
            old(self).total_processed < usize::MAX,
            old(self).total_errors < usize::MAX,
        ensures
            final(self).errors@ == old(self).errors@.push((path, error)),
            final(self).files == old(self).files,
            final(self).total_processed == old(self).total_processed + 1,
            final(self).total_errors == old(self).total_errors + 1,
    {
        self.total_processed = self.total_processed + 1;
        self.total_errors = self.total_errors + 1;
        self.errors.push((path, error));
    }
}

} // verus!
