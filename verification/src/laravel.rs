//! The Laravel project parser: path-priority file classification, fact-based
//! refinement, per-file parse dispatch, project orchestration, and graph
//! assembly with name-index edge resolution.

use vstd::prelude::*;
use crate::controller::ControllerParser;
use crate::eloquent::ModelParser;
use crate::facts::FileFacts;
use crate::facts::ParseResult;
use crate::facts::ParsedFile;
use crate::facts::PhpFacts;
use crate::facts::RouteAction;
use crate::facts::Symbol;
use crate::facts::SymbolType;
use crate::graph::EdgeModel;
use crate::graph::EdgeTypeModel;
use crate::graph::NodeModel;
use crate::graph::NodeTypeModel;
use crate::graph::UnifiedEdge;
use crate::graph::UnifiedEdgeType;
use crate::graph::UnifiedGraph;
use crate::graph::UnifiedNode;
use crate::graph::UnifiedNodeType;
use crate::graph::default_meta_model;
use crate::graph::edge_model;
use crate::graph::edge_models;
use crate::graph::lemma_edge_models_push;
use crate::graph::lemma_node_models_push;
use crate::graph::new_edge_model;
use crate::graph::node_model;
use crate::graph::node_models;
use crate::hash::generate_id;
use crate::hash::id_of;
use crate::migration::MigrationParser;
use crate::php::PhpParser;
use crate::routes::RouteParser;
use crate::source_file::SourceFile;
use crate::source_file::sf_model;
use crate::strategy::FileInput;
use crate::strategy::err_pairs;
use crate::strategy::ok_inputs;
use crate::facts::pair_views;
use crate::facts::opt_view;
use crate::facts::lemma_pair_views_push;
use crate::text::concat;
use crate::text::contains_seq;
use crate::text::contains_sub;
use crate::text::ends_with;
use crate::text::ends_with_x;
use crate::text::lit;
use crate::text::litv;
use crate::text::lower;
use crate::text::lower_x;
use crate::text::replace_all;
use crate::text::replace_all_x;
use crate::text::slice_of;
use crate::text::bytes_eq;

verus! {

/// The semantic kinds a Laravel file classifies to.
#[derive(Debug, Clone, Copy, PartialEq, Eq, Structural)]
pub enum LaravelFileType {
    Controller,
    Model,
    BladeView,
    Route,
    Migration,
    Middleware,
    Request,
    Resource,
    Provider,
    Event,
    Listener,
    Job,
    Policy,
    Command,
    Config,
    Seeder,
    Factory,
    Test,
    InertiaPage,
    Service,
    Repository,
    Action,
    Dto,
    Notification,
    Mailable,
    Observer,
    Scope,
    Rule,
    Cast,
    Contract,
    Exception,
    Enum,
    Trait,
    Interface,
    Php,
}

/// The path normalized to `/` separators and lowered.
pub open spec fn norm_lower(path: Seq<u8>) -> Seq<u8> {
    lower(replace_all(path, lit("\\"), lit("/")))
}

pub open spec fn pl_has(p: Seq<u8>, part: &str) -> bool {
    contains_seq(p, lit(part))
}

/// The path-priority classification: the first matching rule wins, path
/// evidence before anything else; the generic kind is refined later.
pub open spec fn determine_spec(path: Seq<u8>, name: Seq<u8>) -> LaravelFileType {
    let p = norm_lower(path);
    if pl_has(p, "/resources/js/pages/") && (ends_with(name, lit(".vue")) || ends_with(
        name,
        lit(".jsx"),
    ) || ends_with(name, lit(".tsx")) || ends_with(name, lit(".svelte"))) {
        LaravelFileType::InertiaPage
    } else if ends_with(name, lit(".blade.php")) {
        LaravelFileType::BladeView
    } else if pl_has(p, "/routes/") && ends_with(name, lit(".php")) {
        LaravelFileType::Route
    } else if pl_has(p, "/migrations/") || pl_has(p, "/database/migrations") {
        LaravelFileType::Migration
    } else if pl_has(p, "/controllers/") || ends_with(name, lit("Controller.php")) {
        LaravelFileType::Controller
    } else if pl_has(p, "/middleware/") {
        LaravelFileType::Middleware
    } else if pl_has(p, "/requests/") {
        LaravelFileType::Request
    } else if pl_has(p, "/resources/") && !pl_has(p, "/views/") && !pl_has(p, "resources/views") {
        LaravelFileType::Resource
    } else if pl_has(p, "/providers/") {
        LaravelFileType::Provider
    } else if pl_has(p, "/events/") {
        LaravelFileType::Event
    } else if pl_has(p, "/listeners/") {
        LaravelFileType::Listener
    } else if pl_has(p, "/jobs/") {
        LaravelFileType::Job
    } else if pl_has(p, "/policies/") {
        LaravelFileType::Policy
    } else if pl_has(p, "/commands/") {
        LaravelFileType::Command
    } else if pl_has(p, "/console/") && !pl_has(p, "/console.php") {
        LaravelFileType::Command
    } else if pl_has(p, "/config/") {
        LaravelFileType::Config
    } else if pl_has(p, "/seeders/") || pl_has(p, "/database/seeders") {
        LaravelFileType::Seeder
    } else if pl_has(p, "/factories/") || pl_has(p, "/database/factories") {
        LaravelFileType::Factory
    } else if pl_has(p, "/tests/") {
        LaravelFileType::Test
    } else if pl_has(p, "/services/") {
        LaravelFileType::Service
    } else if pl_has(p, "/repositories/") {
        LaravelFileType::Repository
    } else if pl_has(p, "/actions/") {
        LaravelFileType::Action
    } else if pl_has(p, "/dto/") || pl_has(p, "/dtos/") {
        LaravelFileType::Dto
    } else if pl_has(p, "/notifications/") {
        LaravelFileType::Notification
    } else if pl_has(p, "/mail/") {
        LaravelFileType::Mailable
    } else if pl_has(p, "/observers/") {
        LaravelFileType::Observer
    } else if pl_has(p, "/scopes/") {
        LaravelFileType::Scope
    } else if pl_has(p, "/rules/") {
        LaravelFileType::Rule
    } else if pl_has(p, "/casts/") {
        LaravelFileType::Cast
    } else if pl_has(p, "/contracts/") || pl_has(p, "/interfaces/") {
        LaravelFileType::Contract
    } else if pl_has(p, "/exceptions/") {
        LaravelFileType::Exception
    } else if pl_has(p, "/enums/") {
        LaravelFileType::Enum
    } else if pl_has(p, "/traits/") || pl_has(p, "/concerns/") {
        LaravelFileType::Trait
    } else if pl_has(p, "/models/") {
        LaravelFileType::Model
    } else {
        LaravelFileType::Php
    }
}

/// The last backslash-separated segment of a qualified name.
pub open spec fn last_seg(x: Seq<u8>) -> Seq<u8> {
    let p = crate::source_file::rfind_byte(x, 92);
    x.subrange(p + 1, x.len() as int)
}

/// The kind a class's parent (last segment) refines to, when any.
#[verifier::opaque]
pub open spec fn extends_kind(parent: Seq<u8>) -> Option<LaravelFileType> {
    let e = last_seg(parent);
    if e == lit("Controller") || e == lit("BaseController") || e == lit("ResourceController") {
        Option::Some(LaravelFileType::Controller)
    } else if e == lit("Model") || e == lit("Authenticatable") || e == lit("Pivot") {
        Option::Some(LaravelFileType::Model)
    } else if e == lit("FormRequest") || e == lit("Request") {
        Option::Some(LaravelFileType::Request)
    } else if e == lit("JsonResource") || e == lit("Resource") || e == lit("ResourceCollection") {
        Option::Some(LaravelFileType::Resource)
    } else if e == lit("ServiceProvider") || e == lit("AppServiceProvider") || e == lit(
        "RouteServiceProvider",
    ) {
        Option::Some(LaravelFileType::Provider)
    } else if e == lit("Event") {
        Option::Some(LaravelFileType::Event)
    } else if e == lit("Job") {
        Option::Some(LaravelFileType::Job)
    } else if e == lit("Command") || e == lit("ConsoleCommand") {
        Option::Some(LaravelFileType::Command)
    } else if e == lit("Notification") {
        Option::Some(LaravelFileType::Notification)
    } else if e == lit("Mailable") {
        Option::Some(LaravelFileType::Mailable)
    } else if e == lit("Migration") {
        Option::Some(LaravelFileType::Migration)
    } else if e == lit("Seeder") {
        Option::Some(LaravelFileType::Seeder)
    } else if e == lit("Factory") {
        Option::Some(LaravelFileType::Factory)
    } else if e == lit("Exception") || e == lit("HttpException") || e == lit(
        "ValidationException",
    ) {
        Option::Some(LaravelFileType::Exception)
    } else if e == lit("Policy") {
        Option::Some(LaravelFileType::Policy)
    } else if e == lit("Middleware") {
        Option::Some(LaravelFileType::Middleware)
    } else if e == lit("CastsAttributes") {
        Option::Some(LaravelFileType::Cast)
    } else {
        Option::None
    }
}

/// The kind an implemented interface (last segment) refines to, when any.
/// `ShouldQueue` counts only for classes without a parent.
#[verifier::opaque]
pub open spec fn implements_kind(iface: Seq<u8>, has_parent: bool) -> Option<LaravelFileType> {
    let e = last_seg(iface);
    if e == lit("ShouldQueue") && !has_parent {
        Option::Some(LaravelFileType::Job)
    } else if e == lit("ShouldHandleEventsAfterCommit") || e == lit("Listener") {
        Option::Some(LaravelFileType::Listener)
    } else if e == lit("Rule") || e == lit("ValidationRule") || e == lit("DataAwareRule") || e
        == lit("ValidatorAwareRule") {
        Option::Some(LaravelFileType::Rule)
    } else if e == lit("CastsAttributes") || e == lit("CastsInboundAttributes") {
        Option::Some(LaravelFileType::Cast)
    } else if e == lit("MiddlewareInterface") || e == lit("Middleware") {
        Option::Some(LaravelFileType::Middleware)
    } else {
        Option::None
    }
}

/// The kind a class-name suffix convention refines to, when any.
#[verifier::opaque]
pub open spec fn suffix_kind(name: Seq<u8>) -> Option<LaravelFileType> {
    if ends_with(name, lit("Service")) {
        Option::Some(LaravelFileType::Service)
    } else if ends_with(name, lit("Repository")) {
        Option::Some(LaravelFileType::Repository)
    } else if ends_with(name, lit("Action")) {
        Option::Some(LaravelFileType::Action)
    } else if ends_with(name, lit("DTO")) || ends_with(name, lit("Dto")) {
        Option::Some(LaravelFileType::Dto)
    } else if ends_with(name, lit("Observer")) {
        Option::Some(LaravelFileType::Observer)
    } else if ends_with(name, lit("Scope")) {
        Option::Some(LaravelFileType::Scope)
    } else if ends_with(name, lit("Policy")) {
        Option::Some(LaravelFileType::Policy)
    } else if ends_with(name, lit("Listener")) {
        Option::Some(LaravelFileType::Listener)
    } else if ends_with(name, lit("Event")) {
        Option::Some(LaravelFileType::Event)
    } else if ends_with(name, lit("Job")) {
        Option::Some(LaravelFileType::Job)
    } else if ends_with(name, lit("Controller")) {
        Option::Some(LaravelFileType::Controller)
    } else if ends_with(name, lit("Request")) {
        Option::Some(LaravelFileType::Request)
    } else if ends_with(name, lit("Resource")) {
        Option::Some(LaravelFileType::Resource)
    } else if ends_with(name, lit("Notification")) {
        Option::Some(LaravelFileType::Notification)
    } else if ends_with(name, lit("Mail")) || ends_with(name, lit("Mailable")) {
        Option::Some(LaravelFileType::Mailable)
    } else if ends_with(name, lit("Exception")) {
        Option::Some(LaravelFileType::Exception)
    } else if ends_with(name, lit("Middleware")) {
        Option::Some(LaravelFileType::Middleware)
    } else if ends_with(name, lit("Cast")) {
        Option::Some(LaravelFileType::Cast)
    } else if ends_with(name, lit("Rule")) {
        Option::Some(LaravelFileType::Rule)
    } else if ends_with(name, lit("Provider")) {
        Option::Some(LaravelFileType::Provider)
    } else if ends_with(name, lit("Seeder")) {
        Option::Some(LaravelFileType::Seeder)
    } else if ends_with(name, lit("Factory")) {
        Option::Some(LaravelFileType::Factory)
    } else if ends_with(name, lit("Command")) {
        Option::Some(LaravelFileType::Command)
    } else {
        Option::None
    }
}

/// What one class symbol refines to: parent lookup first, then interface
/// lookup, then the name-suffix convention.
#[verifier::opaque]
pub open spec fn class_refine(sym: Symbol) -> Option<LaravelFileType> {
    let by_extends: Option<LaravelFileType> = match sym.extends {
        Option::Some(parent) => extends_kind(parent@),
        Option::None => Option::None,
    };
    match by_extends {
        Option::Some(t) => Option::Some(t),
        Option::None => {
            let by_impl = match sym.implements {
                Option::Some(list) => impl_refine(list@, sym.extends is Some, 0),
                Option::None => Option::None,
            };
            match by_impl {
                Option::Some(t) => Option::Some(t),
                Option::None => suffix_kind(sym.name@),
            }
        },
    }
}

pub open spec fn impl_refine(list: Seq<Vec<u8>>, has_parent: bool, i: int) -> Option<
    LaravelFileType,
>
    decreases list.len() - i,
{
    if i < 0 || i >= list.len() {
        Option::None
    } else {
        match implements_kind(list[i]@, has_parent) {
            Option::Some(t) => Option::Some(t),
            Option::None => impl_refine(list, has_parent, i + 1),
        }
    }
}

/// The refinement over a symbol list: the first class symbol that resolves
/// wins; failing that, any interface symbol makes it an interface, then any
/// trait symbol a trait.
pub open spec fn refine_syms(syms: Seq<Symbol>, i: int) -> Option<LaravelFileType>
    decreases syms.len() - i,
{
    if i < 0 || i >= syms.len() {
        Option::None
    } else if syms[i].symbol_type == SymbolType::Class {
        match class_refine(syms[i]) {
            Option::Some(t) => Option::Some(t),
            Option::None => refine_syms(syms, i + 1),
        }
    } else {
        refine_syms(syms, i + 1)
    }
}

pub open spec fn has_sym_of(syms: Seq<Symbol>, t: SymbolType, i: int) -> bool
    decreases syms.len() - i,
{
    if i < 0 || i >= syms.len() {
        false
    } else if syms[i].symbol_type == t {
        true
    } else {
        has_sym_of(syms, t, i + 1)
    }
}

/// Refinement: a specific path-derived kind is kept; only the generic kind
/// is refined from the parsed facts, in priority order: parent table,
/// interface table, name-suffix convention; then interface/trait symbols.
pub open spec fn refine_spec(initial: LaravelFileType, pf: ParsedFile) -> LaravelFileType {
    if initial != LaravelFileType::Php {
        initial
    } else {
        match refine_syms(pf.symbols@, 0) {
            Option::Some(t) => t,
            Option::None => {
                if has_sym_of(pf.symbols@, SymbolType::Interface, 0) {
                    LaravelFileType::Interface
                } else if has_sym_of(pf.symbols@, SymbolType::Trait, 0) {
                    LaravelFileType::Trait
                } else {
                    initial
                }
            },
        }
    }
}

/// Laravel classification priority, as a law: a path-derived specific kind
/// always outranks whatever the facts would say.
pub proof fn lemma_path_outranks_refinement(initial: LaravelFileType, pf: ParsedFile)
    requires
        initial != LaravelFileType::Php,
    ensures
        refine_spec(initial, pf) == initial,
{
}

} // verus!

verus! {

/// Laravel PHP framework parser.
pub struct LaravelParser {
    php_parser: PhpParser,
    controller_parser: ControllerParser,
    model_parser: ModelParser,
    route_parser: RouteParser,
    migration_parser: MigrationParser,
    blade_parser: crate::blade::BladeParser,
    inertia_parser: crate::inertia::InertiaParser,
}

impl LaravelParser {
    pub fn new() -> (r: Self) {
        LaravelParser {
            php_parser: PhpParser::new(),
            controller_parser: ControllerParser::new(),
            model_parser: ModelParser::new(),
            route_parser: RouteParser::new(),
            migration_parser: MigrationParser::new(),
            blade_parser: crate::blade::BladeParser::new(),
            inertia_parser: crate::inertia::InertiaParser::new(),
        }
    }

    /// Classify a file by its path and name, first matching rule wins.
    pub fn determine_file_type(&self, file: &SourceFile) -> (r: LaravelFileType)
        ensures
            r == determine_spec(file.path@, file.name@),
    {
        let backslash = litv("\\");
        let slash = litv("/");
        let normalized = replace_all_x(&file.path, &backslash, &slash);
        let p = lower_x(&normalized);
        let name = &file.name;
        let vue_suffix = litv(".vue");
        let jsx_suffix = litv(".jsx");
        let tsx_suffix = litv(".tsx");
        let svelte_suffix = litv(".svelte");
        let pages_dir = litv("/resources/js/pages/");
        if contains_sub(&p, &pages_dir) && (ends_with_x(name, &vue_suffix) || ends_with_x(
            name,
            &jsx_suffix,
        ) || ends_with_x(name, &tsx_suffix) || ends_with_x(name, &svelte_suffix)) {
            return LaravelFileType::InertiaPage;
        }
        let blade_suffix = litv(".blade.php");
        if ends_with_x(name, &blade_suffix) {
            return LaravelFileType::BladeView;
        }
        let routes_dir = litv("/routes/");
        let php_suffix = litv(".php");
        if contains_sub(&p, &routes_dir) && ends_with_x(name, &php_suffix) {
            return LaravelFileType::Route;
        }
        let migrations_dir = litv("/migrations/");
        let db_migrations = litv("/database/migrations");
        if contains_sub(&p, &migrations_dir) || contains_sub(&p, &db_migrations) {
            return LaravelFileType::Migration;
        }
        let controllers_dir = litv("/controllers/");
        let controller_suffix = litv("Controller.php");
        if contains_sub(&p, &controllers_dir) || ends_with_x(name, &controller_suffix) {
            return LaravelFileType::Controller;
        }
        let middleware_dir = litv("/middleware/");
        if contains_sub(&p, &middleware_dir) {
            return LaravelFileType::Middleware;
        }
        let requests_dir = litv("/requests/");
        if contains_sub(&p, &requests_dir) {
            return LaravelFileType::Request;
        }
        let resources_dir = litv("/resources/");
        let views_dir = litv("/views/");
        let resources_views = litv("resources/views");
        if contains_sub(&p, &resources_dir) && !contains_sub(&p, &views_dir) && !contains_sub(
            &p,
            &resources_views,
        ) {
            return LaravelFileType::Resource;
        }
        let providers_dir = litv("/providers/");
        if contains_sub(&p, &providers_dir) {
            return LaravelFileType::Provider;
        }
        let events_dir = litv("/events/");
        if contains_sub(&p, &events_dir) {
            return LaravelFileType::Event;
        }
        let listeners_dir = litv("/listeners/");
        if contains_sub(&p, &listeners_dir) {
            return LaravelFileType::Listener;
        }
        let jobs_dir = litv("/jobs/");
        if contains_sub(&p, &jobs_dir) {
            return LaravelFileType::Job;
        }
        let policies_dir = litv("/policies/");
        if contains_sub(&p, &policies_dir) {
            return LaravelFileType::Policy;
        }
        let commands_dir = litv("/commands/");
        if contains_sub(&p, &commands_dir) {
            return LaravelFileType::Command;
        }
        let console_dir = litv("/console/");
        let console_file = litv("/console.php");
        if contains_sub(&p, &console_dir) && !contains_sub(&p, &console_file) {
            return LaravelFileType::Command;
        }
        let config_dir = litv("/config/");
        if contains_sub(&p, &config_dir) {
            return LaravelFileType::Config;
        }
        let seeders_dir = litv("/seeders/");
        let db_seeders = litv("/database/seeders");
        if contains_sub(&p, &seeders_dir) || contains_sub(&p, &db_seeders) {
            return LaravelFileType::Seeder;
        }
        let factories_dir = litv("/factories/");
        let db_factories = litv("/database/factories");
        if contains_sub(&p, &factories_dir) || contains_sub(&p, &db_factories) {
            return LaravelFileType::Factory;
        }
        let tests_dir = litv("/tests/");
        if contains_sub(&p, &tests_dir) {
            return LaravelFileType::Test;
        }
        let services_dir = litv("/services/");
        if contains_sub(&p, &services_dir) {
            return LaravelFileType::Service;
        }
        let repositories_dir = litv("/repositories/");
        if contains_sub(&p, &repositories_dir) {
            return LaravelFileType::Repository;
        }
        let actions_dir = litv("/actions/");
        if contains_sub(&p, &actions_dir) {
            return LaravelFileType::Action;
        }
        let dto_dir = litv("/dto/");
        let dtos_dir = litv("/dtos/");
        if contains_sub(&p, &dto_dir) || contains_sub(&p, &dtos_dir) {
            return LaravelFileType::Dto;
        }
        let notifications_dir = litv("/notifications/");
        if contains_sub(&p, &notifications_dir) {
            return LaravelFileType::Notification;
        }
        let mail_dir = litv("/mail/");
        if contains_sub(&p, &mail_dir) {
            return LaravelFileType::Mailable;
        }
        let observers_dir = litv("/observers/");
        if contains_sub(&p, &observers_dir) {
            return LaravelFileType::Observer;
        }
        let scopes_dir = litv("/scopes/");
        if contains_sub(&p, &scopes_dir) {
            return LaravelFileType::Scope;
        }
        let rules_dir = litv("/rules/");
        if contains_sub(&p, &rules_dir) {
            return LaravelFileType::Rule;
        }
        let casts_dir = litv("/casts/");
        if contains_sub(&p, &casts_dir) {
            return LaravelFileType::Cast;
        }
        let contracts_dir = litv("/contracts/");
        let interfaces_dir = litv("/interfaces/");
        if contains_sub(&p, &contracts_dir) || contains_sub(&p, &interfaces_dir) {
            return LaravelFileType::Contract;
        }
        let exceptions_dir = litv("/exceptions/");
        if contains_sub(&p, &exceptions_dir) {
            return LaravelFileType::Exception;
        }
        let enums_dir = litv("/enums/");
        if contains_sub(&p, &enums_dir) {
            return LaravelFileType::Enum;
        }
        let traits_dir = litv("/traits/");
        let concerns_dir = litv("/concerns/");
        if contains_sub(&p, &traits_dir) || contains_sub(&p, &concerns_dir) {
            return LaravelFileType::Trait;
        }
        let models_dir = litv("/models/");
        if contains_sub(&p, &models_dir) {
            return LaravelFileType::Model;
        }
        LaravelFileType::Php
    }

    /// Refine the generic kind using the parsed facts, path evidence first.
    pub fn refine_file_type(&self, initial: LaravelFileType, pf: &ParsedFile) -> (r:
        LaravelFileType)
        ensures
            r == refine_spec(initial, *pf),
    {
        if initial != LaravelFileType::Php {
            return initial;
        }
        let mut k: usize = 0;
        while k < pf.symbols.len()
            invariant
                initial == LaravelFileType::Php,
                0 <= k <= pf.symbols@.len(),
                refine_syms(pf.symbols@, 0) == refine_syms(pf.symbols@, k as int),
            decreases pf.symbols@.len() - k,
        {
            let sym = &pf.symbols[k];
            let is_class = match sym.symbol_type {
                SymbolType::Class => true,
                _ => false,
            };
            if is_class {
                match self.class_refine_x(sym) {
                    Option::Some(t) => {
                        proof {
                            assert(refine_syms(pf.symbols@, k as int) == Option::Some(t));
                        }
                        return t;
                    },
                    Option::None => {
                        proof {
                            assert(refine_syms(pf.symbols@, k as int) == refine_syms(
                                pf.symbols@,
                                k + 1,
                            ));
                        }
                    },
                }
            } else {
                proof {
                    assert(refine_syms(pf.symbols@, k as int) == refine_syms(pf.symbols@, k + 1));
                }
            }
            k = k + 1;
        }
        proof {
            assert(refine_syms(pf.symbols@, pf.symbols@.len() as int) is None);
        }
        let mut i: usize = 0;
        while i < pf.symbols.len()
            invariant
                initial == LaravelFileType::Php,
                0 <= i <= pf.symbols@.len(),
                refine_syms(pf.symbols@, 0) is None,
                has_sym_of(pf.symbols@, SymbolType::Interface, 0) == has_sym_of(
                    pf.symbols@,
                    SymbolType::Interface,
                    i as int,
                ),
            decreases pf.symbols@.len() - i,
        {
            let is_iface = match pf.symbols[i].symbol_type {
                SymbolType::Interface => true,
                _ => false,
            };
            if is_iface {
                proof {
                    assert(has_sym_of(pf.symbols@, SymbolType::Interface, i as int));
                }
                return LaravelFileType::Interface;
            }
            i = i + 1;
        }
        proof {
            assert(!has_sym_of(pf.symbols@, SymbolType::Interface, pf.symbols@.len() as int));
        }
        let mut j: usize = 0;
        while j < pf.symbols.len()
            invariant
                initial == LaravelFileType::Php,
                0 <= j <= pf.symbols@.len(),
                refine_syms(pf.symbols@, 0) is None,
                !has_sym_of(pf.symbols@, SymbolType::Interface, 0),
                has_sym_of(pf.symbols@, SymbolType::Trait, 0) == has_sym_of(
                    pf.symbols@,
                    SymbolType::Trait,
                    j as int,
                ),
            decreases pf.symbols@.len() - j,
        {
            let is_trait = match pf.symbols[j].symbol_type {
                SymbolType::Trait => true,
                _ => false,
            };
            if is_trait {
                proof {
                    assert(has_sym_of(pf.symbols@, SymbolType::Trait, j as int));
                }
                return LaravelFileType::Trait;
            }
            j = j + 1;
        }
        proof {
            assert(!has_sym_of(pf.symbols@, SymbolType::Trait, pf.symbols@.len() as int));
        }
        LaravelFileType::Php
    }

    /// What one class symbol refines to.
    fn class_refine_x(&self, sym: &Symbol) -> (r: Option<LaravelFileType>)
        ensures
            r == class_refine(*sym),
    {
        proof {
            reveal(class_refine);
        }
        match &sym.extends {
            Option::Some(parent) => {
                match self.extends_kind_x(parent) {
                    Option::Some(t) => {
                        return Some(t);
                    },
                    Option::None => {
                    },
                }
            },
            Option::None => {
            },
        }
        let has_parent = sym.extends.is_some();
        match &sym.implements {
            Option::Some(list) => {
                let mut k: usize = 0;
                while k < list.len()
                    invariant
                        0 <= k <= list@.len(),
                        sym.implements == Option::Some(*list),
                        (match sym.extends {
                            Option::Some(parent) => extends_kind(parent@) is None,
                            Option::None => true,
                        }),
                        has_parent == (sym.extends is Some),
                        impl_refine(list@, has_parent, 0) == impl_refine(
                            list@,
                            has_parent,
                            k as int,
                        ),
                    decreases list@.len() - k,
                {
                    match self.implements_kind_x(&list[k], has_parent) {
                        Option::Some(t) => {
                            proof {
                                reveal(class_refine);
                                assert(impl_refine(list@, has_parent, k as int) == Option::Some(
                                    t,
                                ));
                            }
                            return Some(t);
                        },
                        Option::None => {
                            proof {
                                assert(impl_refine(list@, has_parent, k as int) == impl_refine(
                                    list@,
                                    has_parent,
                                    k + 1,
                                ));
                            }
                        },
                    }
                    k = k + 1;
                }
                proof {
                    assert(impl_refine(list@, has_parent, list@.len() as int) is None);
                }
            },
            Option::None => {
            },
        }
        self.suffix_kind_x(&sym.name)
    }

    fn last_seg_x(&self, x: &Vec<u8>) -> (r: Vec<u8>)
        ensures
            r@ == last_seg(x@),
    {
        match crate::source_file::rfind_byte_x(x, 92) {
            Option::Some(p) => slice_of(x, p + 1, x.len()),
            Option::None => slice_of(x, 0, x.len()),
        }
    }

    fn extends_kind_x(&self, parent: &Vec<u8>) -> (r: Option<LaravelFileType>)
        ensures
            r == extends_kind(parent@),
    {
        proof {
            reveal(extends_kind);
        }
        let e = self.last_seg_x(parent);
        let w1 = litv("Controller");
        let w2 = litv("BaseController");
        let w3 = litv("ResourceController");
        if bytes_eq(&e, &w1) || bytes_eq(&e, &w2) || bytes_eq(&e, &w3) {
            return Some(LaravelFileType::Controller);
        }
        let w4 = litv("Model");
        let w5 = litv("Authenticatable");
        let w6 = litv("Pivot");
        if bytes_eq(&e, &w4) || bytes_eq(&e, &w5) || bytes_eq(&e, &w6) {
            return Some(LaravelFileType::Model);
        }
        let w7 = litv("FormRequest");
        let w8 = litv("Request");
        if bytes_eq(&e, &w7) || bytes_eq(&e, &w8) {
            return Some(LaravelFileType::Request);
        }
        let w9 = litv("JsonResource");
        let w10 = litv("Resource");
        let w11 = litv("ResourceCollection");
        if bytes_eq(&e, &w9) || bytes_eq(&e, &w10) || bytes_eq(&e, &w11) {
            return Some(LaravelFileType::Resource);
        }
        let w12 = litv("ServiceProvider");
        let w13 = litv("AppServiceProvider");
        let w14 = litv("RouteServiceProvider");
        if bytes_eq(&e, &w12) || bytes_eq(&e, &w13) || bytes_eq(&e, &w14) {
            return Some(LaravelFileType::Provider);
        }
        let w15 = litv("Event");
        if bytes_eq(&e, &w15) {
            return Some(LaravelFileType::Event);
        }
        let w16 = litv("Job");
        if bytes_eq(&e, &w16) {
            return Some(LaravelFileType::Job);
        }
        let w17 = litv("Command");
        let w18 = litv("ConsoleCommand");
        if bytes_eq(&e, &w17) || bytes_eq(&e, &w18) {
            return Some(LaravelFileType::Command);
        }
        let w19 = litv("Notification");
        if bytes_eq(&e, &w19) {
            return Some(LaravelFileType::Notification);
        }
        let w20 = litv("Mailable");
        if bytes_eq(&e, &w20) {
            return Some(LaravelFileType::Mailable);
        }
        let w21 = litv("Migration");
        if bytes_eq(&e, &w21) {
            return Some(LaravelFileType::Migration);
        }
        let w22 = litv("Seeder");
        if bytes_eq(&e, &w22) {
            return Some(LaravelFileType::Seeder);
        }
        let w23 = litv("Factory");
        if bytes_eq(&e, &w23) {
            return Some(LaravelFileType::Factory);
        }
        let w24 = litv("Exception");
        let w25 = litv("HttpException");
        let w26 = litv("ValidationException");
        if bytes_eq(&e, &w24) || bytes_eq(&e, &w25) || bytes_eq(&e, &w26) {
            return Some(LaravelFileType::Exception);
        }
        let w27 = litv("Policy");
        if bytes_eq(&e, &w27) {
            return Some(LaravelFileType::Policy);
        }
        let w28 = litv("Middleware");
        if bytes_eq(&e, &w28) {
            return Some(LaravelFileType::Middleware);
        }
        let w29 = litv("CastsAttributes");
        if bytes_eq(&e, &w29) {
            return Some(LaravelFileType::Cast);
        }
        None
    }

    fn implements_kind_x(&self, iface: &Vec<u8>, has_parent: bool) -> (r: Option<LaravelFileType>)
        ensures
            r == implements_kind(iface@, has_parent),
    {
        proof {
            reveal(implements_kind);
        }
        let e = self.last_seg_x(iface);
        let w1 = litv("ShouldQueue");
        if bytes_eq(&e, &w1) && !has_parent {
            return Some(LaravelFileType::Job);
        }
        let w2 = litv("ShouldHandleEventsAfterCommit");
        let w3 = litv("Listener");
        if bytes_eq(&e, &w2) || bytes_eq(&e, &w3) {
            return Some(LaravelFileType::Listener);
        }
        let w4 = litv("Rule");
        let w5 = litv("ValidationRule");
        let w6 = litv("DataAwareRule");
        let w7 = litv("ValidatorAwareRule");
        if bytes_eq(&e, &w4) || bytes_eq(&e, &w5) || bytes_eq(&e, &w6) || bytes_eq(&e, &w7) {
            return Some(LaravelFileType::Rule);
        }
        let w8 = litv("CastsAttributes");
        let w9 = litv("CastsInboundAttributes");
        if bytes_eq(&e, &w8) || bytes_eq(&e, &w9) {
            return Some(LaravelFileType::Cast);
        }
        let w10 = litv("MiddlewareInterface");
        let w11 = litv("Middleware");
        if bytes_eq(&e, &w10) || bytes_eq(&e, &w11) {
            return Some(LaravelFileType::Middleware);
        }
        if bytes_eq(&e, &w1) {
            proof {
                assert(implements_kind(iface@, has_parent) is None);
            }
            return None;
        }
        None
    }

    fn suffix_kind_x(&self, name: &Vec<u8>) -> (r: Option<LaravelFileType>)
        ensures
            r == suffix_kind(name@),
    {
        proof {
            reveal(suffix_kind);
        }
        let w1 = litv("Service");
        if ends_with_x(name, &w1) {
            return Some(LaravelFileType::Service);
        }
        let w2 = litv("Repository");
        if ends_with_x(name, &w2) {
            return Some(LaravelFileType::Repository);
        }
        let w3 = litv("Action");
        if ends_with_x(name, &w3) {
            return Some(LaravelFileType::Action);
        }
        let w4 = litv("DTO");
        let w5 = litv("Dto");
        if ends_with_x(name, &w4) || ends_with_x(name, &w5) {
            return Some(LaravelFileType::Dto);
        }
        let w6 = litv("Observer");
        if ends_with_x(name, &w6) {
            return Some(LaravelFileType::Observer);
        }
        let w7 = litv("Scope");
        if ends_with_x(name, &w7) {
            return Some(LaravelFileType::Scope);
        }
        let w8 = litv("Policy");
        if ends_with_x(name, &w8) {
            return Some(LaravelFileType::Policy);
        }
        let w9 = litv("Listener");
        if ends_with_x(name, &w9) {
            return Some(LaravelFileType::Listener);
        }
        let w10 = litv("Event");
        if ends_with_x(name, &w10) {
            return Some(LaravelFileType::Event);
        }
        let w11 = litv("Job");
        if ends_with_x(name, &w11) {
            return Some(LaravelFileType::Job);
        }
        let w12 = litv("Controller");
        if ends_with_x(name, &w12) {
            return Some(LaravelFileType::Controller);
        }
        let w13 = litv("Request");
        if ends_with_x(name, &w13) {
            return Some(LaravelFileType::Request);
        }
        let w14 = litv("Resource");
        if ends_with_x(name, &w14) {
            return Some(LaravelFileType::Resource);
        }
        let w15 = litv("Notification");
        if ends_with_x(name, &w15) {
            return Some(LaravelFileType::Notification);
        }
        let w16 = litv("Mail");
        let w17 = litv("Mailable");
        if ends_with_x(name, &w16) || ends_with_x(name, &w17) {
            return Some(LaravelFileType::Mailable);
        }
        let w18 = litv("Exception");
        if ends_with_x(name, &w18) {
            return Some(LaravelFileType::Exception);
        }
        let w19 = litv("Middleware");
        if ends_with_x(name, &w19) {
            return Some(LaravelFileType::Middleware);
        }
        let w20 = litv("Cast");
        if ends_with_x(name, &w20) {
            return Some(LaravelFileType::Cast);
        }
        let w21 = litv("Rule");
        if ends_with_x(name, &w21) {
            return Some(LaravelFileType::Rule);
        }
        let w22 = litv("Provider");
        if ends_with_x(name, &w22) {
            return Some(LaravelFileType::Provider);
        }
        let w23 = litv("Seeder");
        if ends_with_x(name, &w23) {
            return Some(LaravelFileType::Seeder);
        }
        let w24 = litv("Factory");
        if ends_with_x(name, &w24) {
            return Some(LaravelFileType::Factory);
        }
        let w25 = litv("Command");
        if ends_with_x(name, &w25) {
            return Some(LaravelFileType::Command);
        }
        None
    }
}

} // verus!

verus! {

impl LaravelParser {
    /// Parse a single file by its classified kind: controllers, models,
    /// routes, migrations, Blade templates and Inertia pages go to their
    /// specialized extractors; every other kind goes through the base PHP
    /// extractor and carries its kind tag.
    pub fn parse_file(&self, file: &SourceFile, content: &Vec<u8>) -> (r: ParsedFile)
        ensures
            laravel_parse_rel(FileInput { source: *file, content: Result::Ok(*content) }, r),
    {
        let file_type = self.determine_file_type(file);
        match file_type {
            LaravelFileType::Controller => self.controller_parser.parse(file, content),
            LaravelFileType::Model => self.model_parser.parse(file, content),
            LaravelFileType::Route => self.route_parser.parse(file, content),
            LaravelFileType::Migration => self.migration_parser.parse(file, content),
            LaravelFileType::BladeView => self.blade_parser.parse(file, content),
            LaravelFileType::InertiaPage => self.inertia_parser.parse(file, content),
            _ => {
                let mut parsed = self.php_parser.parse(file, content);
                let tag = self.type_tag(&file_type);
                let ns = match &parsed.facts {
                    FileFacts::Php(f) => {
                        match &f.namespace {
                            Option::Some(n) => Some(slice_of(n, 0, n.len())),
                            Option::None => None,
                        }
                    },
                    _ => None,
                };
                proof {
                    match parsed.facts {
                        FileFacts::Php(f) => {
                            assert(opt_view(ns) =~~= opt_view(f.namespace));
                        },
                        _ => {
                            assert(false);
                        },
                    }
                }
                parsed.facts = FileFacts::Php(PhpFacts { namespace: ns, laravel_type: Some(tag) });
                parsed
            },
        }
    }

    /// The tag naming a file kind.
    pub fn type_tag(&self, t: &LaravelFileType) -> (r: Vec<u8>)
        ensures
            r@ == type_tag_spec(*t),
    {
        match t {
            LaravelFileType::Controller => litv("Controller"),
            LaravelFileType::Model => litv("Model"),
            LaravelFileType::BladeView => litv("BladeView"),
            LaravelFileType::Route => litv("Route"),
            LaravelFileType::Migration => litv("Migration"),
            LaravelFileType::Middleware => litv("Middleware"),
            LaravelFileType::Request => litv("Request"),
            LaravelFileType::Resource => litv("Resource"),
            LaravelFileType::Provider => litv("Provider"),
            LaravelFileType::Event => litv("Event"),
            LaravelFileType::Listener => litv("Listener"),
            LaravelFileType::Job => litv("Job"),
            LaravelFileType::Policy => litv("Policy"),
            LaravelFileType::Command => litv("Command"),
            LaravelFileType::Config => litv("Config"),
            LaravelFileType::Seeder => litv("Seeder"),
            LaravelFileType::Factory => litv("Factory"),
            LaravelFileType::Test => litv("Test"),
            LaravelFileType::InertiaPage => litv("InertiaPage"),
            LaravelFileType::Service => litv("Service"),
            LaravelFileType::Repository => litv("Repository"),
            LaravelFileType::Action => litv("Action"),
            LaravelFileType::Dto => litv("Dto"),
            LaravelFileType::Notification => litv("Notification"),
            LaravelFileType::Mailable => litv("Mailable"),
            LaravelFileType::Observer => litv("Observer"),
            LaravelFileType::Scope => litv("Scope"),
            LaravelFileType::Rule => litv("Rule"),
            LaravelFileType::Cast => litv("Cast"),
            LaravelFileType::Contract => litv("Contract"),
            LaravelFileType::Exception => litv("Exception"),
            LaravelFileType::Enum => litv("Enum"),
            LaravelFileType::Trait => litv("Trait"),
            LaravelFileType::Interface => litv("Interface"),
            LaravelFileType::Php => litv("Php"),
        }
    }

    /// Parse a whole project sequentially; one unreadable file never aborts
    /// the scan, and the counters record every input and every failure.
    pub fn parse_project(&self, files: &Vec<FileInput>) -> (r: ParseResult)
        ensures
            r.total_processed == files@.len(),
            r.total_errors == err_pairs(files@, files@.len() as int).len(),
            r.files@.len() == ok_inputs(files@, files@.len() as int).len(),
            r.files@.len() + r.total_errors == files@.len(),
            pair_views(r.errors@) == err_pairs(files@, files@.len() as int),
            forall|j: int|
                0 <= j < r.files@.len() ==> laravel_parse_rel(
                    ok_inputs(files@, files@.len() as int)[j],
                    #[trigger] r.files@[j],
                ),
    {
        let mut result = ParseResult::new();
        let mut k: usize = 0;
        while k < files.len()
            invariant
                0 <= k <= files@.len(),
                result.total_processed == k,
                result.total_errors == err_pairs(files@, k as int).len(),
                result.files@.len() == ok_inputs(files@, k as int).len(),
                result.files@.len() + result.total_errors == k,
                pair_views(result.errors@) == err_pairs(files@, k as int),
                forall|j: int|
                    0 <= j < result.files@.len() ==> laravel_parse_rel(
                        ok_inputs(files@, k as int)[j],
                        #[trigger] result.files@[j],
                    ),
            decreases files@.len() - k,
        {
            let inp = &files[k];
            match &inp.content {
                Result::Ok(c) => {
                    let parsed = self.parse_file(&inp.source, c);
                    let ghost pre = result.files@;
                    result.add_parsed_file(parsed);
                    proof {
                        assert(ok_inputs(files@, k + 1) =~= ok_inputs(files@, k as int) + seq![
                            files@[k as int],
                        ]);
                        assert(err_pairs(files@, k + 1) =~= err_pairs(files@, k as int));
                        assert(laravel_parse_rel(files@[k as int], parsed));
                        assert forall|j: int|
                            0 <= j < result.files@.len() implies laravel_parse_rel(
                            ok_inputs(files@, k + 1)[j],
                            #[trigger] result.files@[j],
                        ) by {
                            if j < pre.len() {
                                assert(result.files@[j] == pre[j]);
                                assert(ok_inputs(files@, k + 1)[j] == ok_inputs(
                                    files@,
                                    k as int,
                                )[j]);
                            } else {
                                assert(result.files@[j] == parsed);
                                assert(ok_inputs(files@, k + 1)[j] == files@[k as int]);
                            }
                        }
                    }
                },
                Result::Err(m) => {
                    let path = slice_of(&inp.source.path, 0, inp.source.path.len());
                    let message = slice_of(m, 0, m.len());
                    let ghost pre = result.errors@;
                    result.add_error(path, message);
                    proof {
                        assert(path@ =~= files@[k as int].source.path@);
                        assert(message@ =~= m@);
                        lemma_pair_views_push(pre, (path, message));
                        assert(err_pairs(files@, k + 1) =~= err_pairs(files@, k as int).push(
                            (files@[k as int].source.path@, m@),
                        ));
                        assert(pair_views(result.errors@) =~= err_pairs(files@, k + 1));
                        assert(ok_inputs(files@, k + 1) =~= ok_inputs(files@, k as int));
                    }
                },
            }
            k = k + 1;
        }
        result
    }
}

} // verus!

verus! {

// ---------------------------------------------------------------------------
// Graph assembly: nodes
// ---------------------------------------------------------------------------

/// The node type a refined file kind maps to.
pub open spec fn laravel_node_type(t: LaravelFileType) -> NodeTypeModel {
    match t {
        LaravelFileType::Controller => NodeTypeModel::Controller,
        LaravelFileType::Model => NodeTypeModel::Model,
        LaravelFileType::BladeView => NodeTypeModel::ViewFile,
        LaravelFileType::Route => NodeTypeModel::Route,
        LaravelFileType::Migration => NodeTypeModel::Migration,
        LaravelFileType::Middleware => NodeTypeModel::Middleware,
        LaravelFileType::Request => NodeTypeModel::Custom(lit("request")),
        LaravelFileType::Resource => NodeTypeModel::Custom(lit("resource")),
        LaravelFileType::Provider => NodeTypeModel::Custom(lit("provider")),
        LaravelFileType::Event => NodeTypeModel::Custom(lit("event")),
        LaravelFileType::Listener => NodeTypeModel::Custom(lit("listener")),
        LaravelFileType::Job => NodeTypeModel::Custom(lit("job")),
        LaravelFileType::Policy => NodeTypeModel::Custom(lit("policy")),
        LaravelFileType::Command => NodeTypeModel::Custom(lit("command")),
        LaravelFileType::Config => NodeTypeModel::ConfigFile,
        LaravelFileType::Seeder => NodeTypeModel::Custom(lit("seeder")),
        LaravelFileType::Factory => NodeTypeModel::Custom(lit("factory")),
        LaravelFileType::Test => NodeTypeModel::Custom(lit("test")),
        LaravelFileType::InertiaPage => NodeTypeModel::Component,
        LaravelFileType::Service => NodeTypeModel::Custom(lit("service")),
        LaravelFileType::Repository => NodeTypeModel::Custom(lit("repository")),
        LaravelFileType::Action => NodeTypeModel::Custom(lit("action")),
        LaravelFileType::Dto => NodeTypeModel::Custom(lit("dto")),
        LaravelFileType::Notification => NodeTypeModel::Custom(lit("notification")),
        LaravelFileType::Mailable => NodeTypeModel::Custom(lit("mailable")),
        LaravelFileType::Observer => NodeTypeModel::Custom(lit("observer")),
        LaravelFileType::Scope => NodeTypeModel::Custom(lit("scope")),
        LaravelFileType::Rule => NodeTypeModel::Custom(lit("rule")),
        LaravelFileType::Cast => NodeTypeModel::Custom(lit("cast")),
        LaravelFileType::Contract => NodeTypeModel::Interface,
        LaravelFileType::Exception => NodeTypeModel::Custom(lit("exception")),
        LaravelFileType::Enum => NodeTypeModel::Custom(lit("enum")),
        LaravelFileType::Trait => NodeTypeModel::Trait,
        LaravelFileType::Interface => NodeTypeModel::Interface,
        LaravelFileType::Php => NodeTypeModel::SourceFile,
    }
}

/// The visual size a refined file kind maps to (type importance).
pub open spec fn laravel_size(t: LaravelFileType) -> u8 {
    match t {
        LaravelFileType::Controller => 8,
        LaravelFileType::Model => 7,
        LaravelFileType::Service => 7,
        LaravelFileType::Repository => 7,
        LaravelFileType::Route => 6,
        LaravelFileType::BladeView => 5,
        LaravelFileType::InertiaPage => 6,
        LaravelFileType::Migration => 5,
        LaravelFileType::Middleware => 6,
        LaravelFileType::Provider => 6,
        LaravelFileType::Action => 6,
        LaravelFileType::Request => 5,
        LaravelFileType::Resource => 5,
        LaravelFileType::Event => 5,
        LaravelFileType::Listener => 5,
        LaravelFileType::Job => 5,
        LaravelFileType::Policy => 5,
        LaravelFileType::Command => 5,
        LaravelFileType::Notification => 5,
        LaravelFileType::Mailable => 5,
        LaravelFileType::Observer => 5,
        LaravelFileType::Rule => 4,
        LaravelFileType::Scope => 4,
        LaravelFileType::Cast => 4,
        LaravelFileType::Dto => 4,
        LaravelFileType::Contract => 5,
        LaravelFileType::Interface => 5,
        LaravelFileType::Trait => 5,
        LaravelFileType::Exception => 4,
        LaravelFileType::Enum => 4,
        LaravelFileType::Config => 4,
        LaravelFileType::Seeder => 4,
        LaravelFileType::Factory => 4,
        LaravelFileType::Test => 4,
        LaravelFileType::Php => 3,
    }
}

/// The qualified-name override of a file node: the extracted namespace for
/// PHP-like facts, the `view:`/`inertia:` key for templates and pages.
pub open spec fn qualified_override(pf: ParsedFile) -> Option<Seq<u8>> {
    match pf.facts {
        FileFacts::Php(f) => match f.namespace {
            Option::Some(n) => Option::Some(n@),
            Option::None => Option::None,
        },
        FileFacts::Controller(f) => match f.namespace {
            Option::Some(n) => Option::Some(n@),
            Option::None => Option::None,
        },
        FileFacts::Model(f) => match f.namespace {
            Option::Some(n) => Option::Some(n@),
            Option::None => Option::None,
        },
        FileFacts::Blade(f) => Option::Some(lit("view:") + f.view_name@),
        FileFacts::Inertia(f) => Option::Some(lit("inertia:") + f.page_name@),
        _ => Option::None,
    }
}

/// The refined kind of one parsed file.
pub open spec fn refined_of(pf: ParsedFile) -> LaravelFileType {
    refine_spec(determine_spec(pf.source.path@, pf.source.name@), pf)
}

/// The node one parsed Laravel file yields.
pub open spec fn laravel_file_node(pf: ParsedFile) -> NodeModel {
    let t = refined_of(pf);
    NodeModel {
        id: id_of(pf.source.path@),
        node_type: laravel_node_type(t),
        name: pf.source.name@,
        qualified_name: match qualified_override(pf) {
            Option::Some(q) => q,
            Option::None => pf.source.name@,
        },
        label: pf.source.name@,
        size: laravel_size(t),
        language: lit("php"),
        file_path: Option::Some(pf.source.path@),
        line_start: Option::None,
        line_end: Option::None,
        metadata: default_meta_model(),
    }
}

/// The node type of one symbol, refined by the file kind; `None` skips the
/// symbol.
pub open spec fn laravel_sym_type(t: LaravelFileType, st: SymbolType) -> Option<NodeTypeModel> {
    match st {
        SymbolType::Class => Option::Some(
            if t == LaravelFileType::Controller {
                NodeTypeModel::Controller
            } else if t == LaravelFileType::Model {
                NodeTypeModel::Model
            } else {
                NodeTypeModel::Class
            },
        ),
        SymbolType::Interface => Option::Some(NodeTypeModel::Interface),
        SymbolType::Trait => Option::Some(NodeTypeModel::Trait),
        SymbolType::Method => Option::Some(NodeTypeModel::Method),
        SymbolType::Function => Option::Some(NodeTypeModel::Function),
        _ => Option::None,
    }
}

/// The symbol nodes of one file.
pub open spec fn laravel_sym_nodes(t: LaravelFileType, path: Seq<u8>, syms: Seq<Symbol>, j: int) -> Seq<NodeModel>
    decreases syms.len() - j,
{
    if j < 0 || j >= syms.len() {
        Seq::empty()
    } else {
        let rest = laravel_sym_nodes(t, path, syms, j + 1);
        match laravel_sym_type(t, syms[j].symbol_type) {
            Option::Some(nt) => seq![
                NodeModel {
                    id: id_of(path + lit("::") + syms[j].name@),
                    node_type: nt,
                    name: syms[j].name@,
                    qualified_name: syms[j].qualified_name@,
                    label: syms[j].name@,
                    size: 4,
                    language: lit("php"),
                    file_path: Option::Some(path),
                    line_start: Option::None,
                    line_end: Option::None,
                    metadata: crate::graph::MetaModel {
                        size_bytes: Option::None,
                        visibility: crate::facts::opt_view(syms[j].visibility),
                        is_abstract: syms[j].is_abstract,
                        is_static: syms[j].is_static,
                        parent_class: crate::facts::opt_view(syms[j].extends),
                        implements: crate::facts::opt_views(syms[j].implements),
                        return_type: Option::None,
                        parameters: Option::None,
                        status: Option::None,
                    },
                },
            ] + rest,
            Option::None => rest,
        }
    }
}

/// All nodes of a Laravel parse result, in file order: one node per file,
/// then one per qualifying symbol.
pub open spec fn laravel_nodes_from(files: Seq<ParsedFile>, k: int) -> Seq<NodeModel>
    decreases files.len() - k,
{
    if k < 0 || k >= files.len() {
        Seq::empty()
    } else {
        seq![laravel_file_node(files[k])] + laravel_sym_nodes(
            refined_of(files[k]),
            files[k].source.path@,
            files[k].symbols@,
            0,
        ) + laravel_nodes_from(files, k + 1)
    }
}

pub open spec fn laravel_nodes(files: Seq<ParsedFile>) -> Seq<NodeModel> {
    laravel_nodes_from(files, 0)
}

impl LaravelParser {
    /// The node type for a refined kind, executable form.
    fn node_type_of(&self, t: &LaravelFileType) -> (r: UnifiedNodeType)
        ensures
            crate::graph::node_type_model(r) == laravel_node_type(*t),
    {
        match t {
            LaravelFileType::Controller => UnifiedNodeType::Controller,
            LaravelFileType::Model => UnifiedNodeType::Model,
            LaravelFileType::BladeView => UnifiedNodeType::ViewFile,
            LaravelFileType::Route => UnifiedNodeType::Route,
            LaravelFileType::Migration => UnifiedNodeType::Migration,
            LaravelFileType::Middleware => UnifiedNodeType::Middleware,
            LaravelFileType::Request => UnifiedNodeType::Custom(litv("request")),
            LaravelFileType::Resource => UnifiedNodeType::Custom(litv("resource")),
            LaravelFileType::Provider => UnifiedNodeType::Custom(litv("provider")),
            LaravelFileType::Event => UnifiedNodeType::Custom(litv("event")),
            LaravelFileType::Listener => UnifiedNodeType::Custom(litv("listener")),
            LaravelFileType::Job => UnifiedNodeType::Custom(litv("job")),
            LaravelFileType::Policy => UnifiedNodeType::Custom(litv("policy")),
            LaravelFileType::Command => UnifiedNodeType::Custom(litv("command")),
            LaravelFileType::Config => UnifiedNodeType::ConfigFile,
            LaravelFileType::Seeder => UnifiedNodeType::Custom(litv("seeder")),
            LaravelFileType::Factory => UnifiedNodeType::Custom(litv("factory")),
            LaravelFileType::Test => UnifiedNodeType::Custom(litv("test")),
            LaravelFileType::InertiaPage => UnifiedNodeType::Component,
            LaravelFileType::Service => UnifiedNodeType::Custom(litv("service")),
            LaravelFileType::Repository => UnifiedNodeType::Custom(litv("repository")),
            LaravelFileType::Action => UnifiedNodeType::Custom(litv("action")),
            LaravelFileType::Dto => UnifiedNodeType::Custom(litv("dto")),
            LaravelFileType::Notification => UnifiedNodeType::Custom(litv("notification")),
            LaravelFileType::Mailable => UnifiedNodeType::Custom(litv("mailable")),
            LaravelFileType::Observer => UnifiedNodeType::Custom(litv("observer")),
            LaravelFileType::Scope => UnifiedNodeType::Custom(litv("scope")),
            LaravelFileType::Rule => UnifiedNodeType::Custom(litv("rule")),
            LaravelFileType::Cast => UnifiedNodeType::Custom(litv("cast")),
            LaravelFileType::Contract => UnifiedNodeType::Interface,
            LaravelFileType::Exception => UnifiedNodeType::Custom(litv("exception")),
            LaravelFileType::Enum => UnifiedNodeType::Custom(litv("enum")),
            LaravelFileType::Trait => UnifiedNodeType::Trait,
            LaravelFileType::Interface => UnifiedNodeType::Interface,
            LaravelFileType::Php => UnifiedNodeType::SourceFile,
        }
    }

    /// The size table, executable form.
    fn size_of_kind(&self, t: &LaravelFileType) -> (r: u8)
        ensures
            r == laravel_size(*t),
    {
        match t {
            LaravelFileType::Controller => 8,
            LaravelFileType::Model => 7,
            LaravelFileType::Service => 7,
            LaravelFileType::Repository => 7,
            LaravelFileType::Route => 6,
            LaravelFileType::BladeView => 5,
            LaravelFileType::InertiaPage => 6,
            LaravelFileType::Migration => 5,
            LaravelFileType::Middleware => 6,
            LaravelFileType::Provider => 6,
            LaravelFileType::Action => 6,
            LaravelFileType::Request => 5,
            LaravelFileType::Resource => 5,
            LaravelFileType::Event => 5,
            LaravelFileType::Listener => 5,
            LaravelFileType::Job => 5,
            LaravelFileType::Policy => 5,
            LaravelFileType::Command => 5,
            LaravelFileType::Notification => 5,
            LaravelFileType::Mailable => 5,
            LaravelFileType::Observer => 5,
            LaravelFileType::Rule => 4,
            LaravelFileType::Scope => 4,
            LaravelFileType::Cast => 4,
            LaravelFileType::Dto => 4,
            LaravelFileType::Contract => 5,
            LaravelFileType::Interface => 5,
            LaravelFileType::Trait => 5,
            LaravelFileType::Exception => 4,
            LaravelFileType::Enum => 4,
            LaravelFileType::Config => 4,
            LaravelFileType::Seeder => 4,
            LaravelFileType::Factory => 4,
            LaravelFileType::Test => 4,
            LaravelFileType::Php => 3,
        }
    }

    /// Generate the unified nodes of a parse result.
    #[verifier::rlimit(100)]
    #[verifier::spinoff_prover]
    pub fn generate_nodes(&self, pr: &ParseResult) -> (nodes: Vec<UnifiedNode>)
        ensures
            node_models(nodes@) == laravel_nodes(pr.files@),
    {
        let ghost filesv = pr.files@;
        let mut nodes: Vec<UnifiedNode> = Vec::new();
        let mut k: usize = 0;
        while k < pr.files.len()
            invariant
                0 <= k <= filesv.len(),
                filesv == pr.files@,
                node_models(nodes@) + laravel_nodes_from(filesv, k as int) == laravel_nodes(
                    filesv,
                ),
            decreases filesv.len() - k,
        {
            let pf = &pr.files[k];
            let initial = self.determine_file_type(&pf.source);
            let refined = self.refine_file_type(initial, pf);
            let file_id = generate_id(&pf.source.path);
            let node_type = self.node_type_of(&refined);
            let name = slice_of(&pf.source.name, 0, pf.source.name.len());
            let path = slice_of(&pf.source.path, 0, pf.source.path.len());
            let size = self.size_of_kind(&refined);
            let mut node = UnifiedNode::new(file_id, node_type, name).with_file(path).with_language(
                litv("php"),
            ).with_size(size);
            match &pf.facts {
                FileFacts::Php(f) => {
                    match &f.namespace {
                        Option::Some(n) => {
                            node.qualified_name = slice_of(n, 0, n.len());
                        },
                        Option::None => {
                        },
                    }
                },
                FileFacts::Controller(f) => {
                    match &f.namespace {
                        Option::Some(n) => {
                            node.qualified_name = slice_of(n, 0, n.len());
                        },
                        Option::None => {
                        },
                    }
                },
                FileFacts::Model(f) => {
                    match &f.namespace {
                        Option::Some(n) => {
                            node.qualified_name = slice_of(n, 0, n.len());
                        },
                        Option::None => {
                        },
                    }
                },
                FileFacts::Blade(f) => {
                    let view_prefix = litv("view:");
                    node.qualified_name = concat(&view_prefix, &f.view_name);
                },
                FileFacts::Inertia(f) => {
                    let inertia_prefix = litv("inertia:");
                    node.qualified_name = concat(&inertia_prefix, &f.page_name);
                },
                _ => {
                },
            }
            let ghost pre = nodes@;
            nodes.push(node);
            proof {
                lemma_node_models_push(pre, node);
                assert(laravel_size(refined) == crate::graph::clamp_size(laravel_size(refined)));
                assert(node_model(node) =~= laravel_file_node(filesv[k as int]));
            }
            let ghost symsv = pf.symbols@;
            let mut j: usize = 0;
            while j < pf.symbols.len()
                invariant
                    0 <= j <= symsv.len(),
                    0 <= k < filesv.len(),
                    filesv == pr.files@,
                    symsv == pr.files@[k as int].symbols@,
                    pf == &pr.files@[k as int],
                    refined == refined_of(filesv[k as int]),
                    node_models(nodes@) + laravel_sym_nodes(
                        refined,
                        filesv[k as int].source.path@,
                        symsv,
                        j as int,
                    ) + laravel_nodes_from(filesv, k + 1) == laravel_nodes(filesv),
                decreases symsv.len() - j,
            {
                let sym = &pf.symbols[j];
                let sym_type: Option<UnifiedNodeType> = match sym.symbol_type {
                    SymbolType::Class => Some(
                        if refined == LaravelFileType::Controller {
                            UnifiedNodeType::Controller
                        } else if refined == LaravelFileType::Model {
                            UnifiedNodeType::Model
                        } else {
                            UnifiedNodeType::Class
                        },
                    ),
                    SymbolType::Interface => Some(UnifiedNodeType::Interface),
                    SymbolType::Trait => Some(UnifiedNodeType::Trait),
                    SymbolType::Method => Some(UnifiedNodeType::Method),
                    SymbolType::Function => Some(UnifiedNodeType::Function),
                    _ => None,
                };
                match sym_type {
                    Option::Some(nt) => {
                        let sep = litv("::");
                        let a = concat(&pf.source.path, &sep);
                        let key = concat(&a, &sym.name);
                        let sym_id = generate_id(&key);
                        let sym_name = slice_of(&sym.name, 0, sym.name.len());
                        let sym_path = slice_of(&pf.source.path, 0, pf.source.path.len());
                        let mut sym_node = UnifiedNode::new(sym_id, nt, sym_name).with_file(
                            sym_path,
                        ).with_language(litv("php"));
                        sym_node.qualified_name = slice_of(
                            &sym.qualified_name,
                            0,
                            sym.qualified_name.len(),
                        );
                        sym_node.metadata.visibility = match &sym.visibility {
                            Option::Some(v) => Some(slice_of(v, 0, v.len())),
                            Option::None => None,
                        };
                        sym_node.metadata.is_abstract = sym.is_abstract;
                        sym_node.metadata.is_static = sym.is_static;
                        sym_node.metadata.parent_class = match &sym.extends {
                            Option::Some(v) => Some(slice_of(v, 0, v.len())),
                            Option::None => None,
                        };
                        sym_node.metadata.implements = match &sym.implements {
                            Option::Some(list) => {
                                let mut copy: Vec<Vec<u8>> = Vec::new();
                                let mut m: usize = 0;
                                while m < list.len()
                                    invariant
                                        0 <= m <= list@.len(),
                                        crate::text::views(copy@) == crate::text::views(
                                            list@,
                                        ).take(m as int),
                                    decreases list@.len() - m,
                                {
                                    let item = slice_of(&list[m], 0, list[m].len());
                                    let ghost prec = copy@;
                                    copy.push(item);
                                    proof {
                                        crate::text::lemma_views_push(prec, item);
                                        assert(item@ =~= crate::text::views(list@)[m as int]);
                                        assert(crate::text::views(copy@) =~= crate::text::views(
                                            list@,
                                        ).take(m + 1));
                                    }
                                    m = m + 1;
                                }
                                proof {
                                    assert(crate::text::views(list@).take(list@.len() as int)
                                        =~= crate::text::views(list@));
                                }
                                Some(copy)
                            },
                            Option::None => None,
                        };
                        let ghost pre2 = nodes@;
                        nodes.push(sym_node);
                        proof {
                            lemma_node_models_push(pre2, sym_node);
                            assert(key@ =~= filesv[k as int].source.path@ + lit("::")
                                + symsv[j as int].name@);
                            assert(node_model(sym_node) =~= laravel_sym_nodes(
                                refined,
                                filesv[k as int].source.path@,
                                symsv,
                                j as int,
                            )[0]);
                            assert(node_models(nodes@) + laravel_sym_nodes(
                                refined,
                                filesv[k as int].source.path@,
                                symsv,
                                j + 1,
                            ) + laravel_nodes_from(filesv, k + 1) =~= laravel_nodes(filesv));
                        }
                    },
                    Option::None => {
                        proof {
                            assert(laravel_sym_nodes(
                                refined,
                                filesv[k as int].source.path@,
                                symsv,
                                j as int,
                            ) == laravel_sym_nodes(
                                refined,
                                filesv[k as int].source.path@,
                                symsv,
                                j + 1,
                            ));
                        }
                    },
                }
                j = j + 1;
            }
            proof {
                assert(laravel_sym_nodes(
                    refined,
                    filesv[k as int].source.path@,
                    symsv,
                    symsv.len() as int,
                ) =~= Seq::<NodeModel>::empty());
                assert(node_models(nodes@) + laravel_nodes_from(filesv, k + 1) =~= laravel_nodes(
                    filesv,
                ));
            }
            k = k + 1;
        }
        proof {
            assert(laravel_nodes_from(filesv, filesv.len() as int) =~= Seq::<NodeModel>::empty());
            assert(node_models(nodes@) =~= laravel_nodes(filesv));
        }
        nodes
    }
}

} // verus!

verus! {

// ---------------------------------------------------------------------------
// Graph assembly: edges
// ---------------------------------------------------------------------------

use crate::facts::Dependency;
use crate::facts::RelationFact;
use crate::facts::RouteDefinition;

/// The last node carrying a short name (a map built by insertion keeps the
/// last entry for a repeated key).
pub open spec fn find_last_name(ns: Seq<NodeModel>, name: Seq<u8>) -> Option<NodeModel>
    decreases ns.len(),
{
    if ns.len() == 0 {
        Option::None
    } else if ns.last().name == name {
        Option::Some(ns.last())
    } else {
        find_last_name(ns.drop_last(), name)
    }
}

/// The last node carrying a qualified name.
pub open spec fn find_last_qual(ns: Seq<NodeModel>, q: Seq<u8>) -> Option<NodeModel>
    decreases ns.len(),
{
    if ns.len() == 0 {
        Option::None
    } else if ns.last().qualified_name == q {
        Option::Some(ns.last())
    } else {
        find_last_qual(ns.drop_last(), q)
    }
}

fn find_last_name_x(nodes: &Vec<UnifiedNode>, name: &Vec<u8>) -> (r: Option<Vec<u8>>)
    ensures
        match find_last_name(node_models(nodes@), name@) {
            Option::Some(n) => r is Some && crate::text::opt_view_txt(r) == Option::Some(n.id),
            Option::None => r is None,
        },
{
    let mut idx: usize = nodes.len();
    proof {
        assert(node_models(nodes@).take(nodes@.len() as int) =~= node_models(nodes@));
    }
    while idx > 0
        invariant
            0 <= idx <= nodes@.len(),
            find_last_name(node_models(nodes@), name@) == find_last_name(
                node_models(nodes@).take(idx as int),
                name@,
            ),
        decreases idx,
    {
        proof {
            assert(node_models(nodes@).take(idx as int).last() == node_model(
                nodes@[idx as int - 1],
            ));
            assert(node_models(nodes@).take(idx as int).drop_last() =~= node_models(
                nodes@,
            ).take(idx as int - 1));
        }
        if bytes_eq(&nodes[idx - 1].name, name) {
            let id = slice_of(&nodes[idx - 1].id, 0, nodes[idx - 1].id.len());
            proof {
                assert(id@ =~= node_model(nodes@[idx as int - 1]).id);
            }
            return Some(id);
        }
        idx = idx - 1;
    }
    proof {
        assert(node_models(nodes@).take(0) =~= Seq::<NodeModel>::empty());
    }
    None
}

fn find_last_qual_x(nodes: &Vec<UnifiedNode>, q: &Vec<u8>) -> (r: Option<Vec<u8>>)
    ensures
        match find_last_qual(node_models(nodes@), q@) {
            Option::Some(n) => r is Some && crate::text::opt_view_txt(r) == Option::Some(n.id),
            Option::None => r is None,
        },
{
    let mut idx: usize = nodes.len();
    proof {
        assert(node_models(nodes@).take(nodes@.len() as int) =~= node_models(nodes@));
    }
    while idx > 0
        invariant
            0 <= idx <= nodes@.len(),
            find_last_qual(node_models(nodes@), q@) == find_last_qual(
                node_models(nodes@).take(idx as int),
                q@,
            ),
        decreases idx,
    {
        proof {
            assert(node_models(nodes@).take(idx as int).last() == node_model(
                nodes@[idx as int - 1],
            ));
            assert(node_models(nodes@).take(idx as int).drop_last() =~= node_models(
                nodes@,
            ).take(idx as int - 1));
        }
        if bytes_eq(&nodes[idx - 1].qualified_name, q) {
            let id = slice_of(&nodes[idx - 1].id, 0, nodes[idx - 1].id.len());
            proof {
                assert(id@ =~= node_model(nodes@[idx as int - 1]).id);
            }
            return Some(id);
        }
        idx = idx - 1;
    }
    proof {
        assert(node_models(nodes@).take(0) =~= Seq::<NodeModel>::empty());
    }
    None
}

/// The edge type an Eloquent relation kind maps to.
pub open spec fn rel_edge_type(w: Seq<u8>) -> EdgeTypeModel {
    if w == lit("hasMany") || w == lit("hasManyThrough") {
        EdgeTypeModel::Custom(lit("has_many"))
    } else if w == lit("hasOne") || w == lit("hasOneThrough") {
        EdgeTypeModel::Custom(lit("has_one"))
    } else if w == lit("belongsTo") {
        EdgeTypeModel::Custom(lit("belongs_to"))
    } else if w == lit("belongsToMany") {
        EdgeTypeModel::Custom(lit("belongs_to_many"))
    } else if w == lit("morphTo") || w == lit("morphOne") || w == lit("morphMany") {
        EdgeTypeModel::Custom(lit("morph"))
    } else {
        EdgeTypeModel::Uses
    }
}

/// Use edges: each dependency's last path segment resolved against the name
/// index; unresolved references are dropped.
pub open spec fn use_edges(ns: Seq<NodeModel>, src: Seq<u8>, deps: Seq<Dependency>, j: int) -> Seq<
    EdgeModel,
>
    decreases deps.len() - j,
{
    if j < 0 || j >= deps.len() {
        Seq::empty()
    } else {
        (match find_last_name(ns, last_seg(deps[j].target@)) {
            Option::Some(n) => seq![new_edge_model(src, n.id, EdgeTypeModel::Uses)],
            Option::None => Seq::<EdgeModel>::empty(),
        }) + use_edges(ns, src, deps, j + 1)
    }
}

/// Relationship edges, typed by the relation kind.
pub open spec fn rel_edges(ns: Seq<NodeModel>, src: Seq<u8>, rels: Seq<RelationFact>, j: int) -> Seq<EdgeModel>
    decreases rels.len() - j,
{
    if j < 0 || j >= rels.len() {
        Seq::empty()
    } else {
        let mname: Seq<u8> = match rels[j].related_model {
            Option::Some(rm) => rm@,
            Option::None => Seq::empty(),
        };
        (match find_last_name(ns, mname) {
            Option::Some(n) => seq![new_edge_model(src, n.id, rel_edge_type(rels[j].rel_type@))],
            Option::None => Seq::<EdgeModel>::empty(),
        }) + rel_edges(ns, src, rels, j + 1)
    }
}

/// Render edges to views or pages, resolved against the qualified index
/// under a prefix.
pub open spec fn render_edges(
    ns: Seq<NodeModel>,
    src: Seq<u8>,
    prefix: Seq<u8>,
    names: Seq<Vec<u8>>,
    et: EdgeTypeModel,
    j: int,
) -> Seq<EdgeModel>
    decreases names.len() - j,
{
    if j < 0 || j >= names.len() {
        Seq::empty()
    } else {
        (match find_last_qual(ns, prefix + names[j]@) {
            Option::Some(n) => seq![new_edge_model(src, n.id, et)],
            Option::None => Seq::<EdgeModel>::empty(),
        }) + render_edges(ns, src, prefix, names, et, j + 1)
    }
}

/// Route edges: each controller action resolved against the name index.
pub open spec fn route_edges(ns: Seq<NodeModel>, src: Seq<u8>, routes: Seq<RouteDefinition>, j: int) -> Seq<EdgeModel>
    decreases routes.len() - j,
{
    if j < 0 || j >= routes.len() {
        Seq::empty()
    } else {
        (match routes[j].action {
            RouteAction::Controller { controller, method: _ } => {
                match find_last_name(ns, controller@) {
                    Option::Some(n) => seq![
                        new_edge_model(src, n.id, EdgeTypeModel::Custom(lit("routes_to"))),
                    ],
                    Option::None => Seq::<EdgeModel>::empty(),
                }
            },
            _ => Seq::<EdgeModel>::empty(),
        }) + route_edges(ns, src, routes, j + 1)
    }
}

/// The first migration file whose created tables include `table`.
pub open spec fn first_migration_with(files: Seq<ParsedFile>, table: Seq<u8>, i: int) -> Option<
    Seq<u8>,
>
    decreases files.len() - i,
{
    if i < 0 || i >= files.len() {
        Option::None
    } else {
        let is_hit = laravel_node_type(refined_of(files[i])) is Migration && match files[i].facts {
            FileFacts::Migration(mf) => crate::text::views(mf.tables_created@).contains(table),
            _ => false,
        };
        if is_hit {
            Option::Some(files[i].source.path@)
        } else {
            first_migration_with(files, table, i + 1)
        }
    }
}

/// Foreign-key edges: each referenced table resolved to the first migration
/// that creates it.
pub open spec fn fk_edges(
    files: Seq<ParsedFile>,
    src: Seq<u8>,
    fks: Seq<crate::facts::ForeignKeyFact>,
    j: int,
) -> Seq<EdgeModel>
    decreases fks.len() - j,
{
    if j < 0 || j >= fks.len() {
        Seq::empty()
    } else {
        (match first_migration_with(files, fks[j].on_table@, 0) {
            Option::Some(path) => seq![
                new_edge_model(src, id_of(path), EdgeTypeModel::Custom(lit("references"))),
            ],
            Option::None => Seq::<EdgeModel>::empty(),
        }) + fk_edges(files, src, fks, j + 1)
    }
}

/// All edges one parsed file contributes, in the fixed resolution order:
/// use edges, relationships, rendered views and pages, routes, the layout
/// parent, includes, foreign keys.
pub open spec fn laravel_file_edges(
    pf: ParsedFile,
    ns: Seq<NodeModel>,
    files: Seq<ParsedFile>,
) -> Seq<EdgeModel> {
    let src = id_of(pf.source.path@);
    use_edges(ns, src, pf.dependencies@, 0) + (match pf.facts {
        FileFacts::Model(f) => rel_edges(ns, src, f.relationships@, 0),
        _ => Seq::<EdgeModel>::empty(),
    }) + (match pf.facts {
        FileFacts::Controller(f) => render_edges(
            ns,
            src,
            lit("view:"),
            f.views_referenced@,
            EdgeTypeModel::Custom(lit("renders")),
            0,
        ) + render_edges(
            ns,
            src,
            lit("inertia:"),
            f.inertia_pages@,
            EdgeTypeModel::Custom(lit("renders")),
            0,
        ),
        _ => Seq::<EdgeModel>::empty(),
    }) + (match pf.facts {
        FileFacts::Route(f) => route_edges(ns, src, f.routes@, 0),
        _ => Seq::<EdgeModel>::empty(),
    }) + (match pf.facts {
        FileFacts::Blade(f) => (match f.extends_view {
            Option::Some(e) => (match find_last_qual(ns, lit("view:") + e@) {
                Option::Some(n) => seq![new_edge_model(src, n.id, EdgeTypeModel::Extends)],
                Option::None => Seq::<EdgeModel>::empty(),
            }),
            Option::None => Seq::<EdgeModel>::empty(),
        }) + render_edges(
            ns,
            src,
            lit("view:"),
            f.includes@,
            EdgeTypeModel::Custom(lit("includes")),
            0,
        ),
        _ => Seq::<EdgeModel>::empty(),
    }) + (match pf.facts {
        FileFacts::Migration(f) => fk_edges(files, src, f.foreign_keys@, 0),
        _ => Seq::<EdgeModel>::empty(),
    })
}

/// All edges of a Laravel parse result.
pub open spec fn laravel_edges_from(files: Seq<ParsedFile>, ns: Seq<NodeModel>, k: int) -> Seq<
    EdgeModel,
>
    decreases files.len() - k,
{
    if k < 0 || k >= files.len() {
        Seq::empty()
    } else {
        laravel_file_edges(files[k], ns, files) + laravel_edges_from(files, ns, k + 1)
    }
}

pub open spec fn laravel_edges(files: Seq<ParsedFile>, ns: Seq<NodeModel>) -> Seq<EdgeModel> {
    laravel_edges_from(files, ns, 0)
}

} // verus!

verus! {

fn push_use_edges(
    nodes: &Vec<UnifiedNode>,
    src: &Vec<u8>,
    deps: &Vec<Dependency>,
    edges: &mut Vec<UnifiedEdge>,
)
    ensures
        edge_models(final(edges)@) == edge_models(old(edges)@) + use_edges(
            node_models(nodes@),
            src@,
            deps@,
            0,
        ),
{
    let ghost ns = node_models(nodes@);
    let mut j: usize = 0;
    while j < deps.len()
        invariant
            0 <= j <= deps@.len(),
            ns == node_models(nodes@),
            edge_models(edges@) + use_edges(ns, src@, deps@, j as int) == edge_models(
                old(edges)@,
            ) + use_edges(ns, src@, deps@, 0),
        decreases deps@.len() - j,
    {
        let tname = match crate::source_file::rfind_byte_x(&deps[j].target, 92) {
            Option::Some(p) => slice_of(&deps[j].target, p + 1, deps[j].target.len()),
            Option::None => slice_of(&deps[j].target, 0, deps[j].target.len()),
        };
        proof {
            assert(tname@ =~= last_seg(deps@[j as int].target@));
        }
        match find_last_name_x(nodes, &tname) {
            Option::Some(tid) => {
                let s = slice_of(src, 0, src.len());
                let edge = UnifiedEdge::new(s, tid, UnifiedEdgeType::Uses);
                let ghost pre = edges@;
                edges.push(edge);
                proof {
                    crate::graph::lemma_edge_models_push(pre, edge);
                    assert(edge_model(edge) =~= use_edges(ns, src@, deps@, j as int)[0]);
                    assert(edge_models(edges@) + use_edges(ns, src@, deps@, j + 1) =~= edge_models(
                        old(edges)@,
                    ) + use_edges(ns, src@, deps@, 0));
                }
            },
            Option::None => {
                proof {
                    assert(use_edges(ns, src@, deps@, j as int) =~= use_edges(
                        ns,
                        src@,
                        deps@,
                        j + 1,
                    ));
                }
            },
        }
        j = j + 1;
    }
    proof {
        assert(use_edges(ns, src@, deps@, deps@.len() as int) =~= Seq::<EdgeModel>::empty());
        assert(edge_models(edges@) =~= edge_models(old(edges)@) + use_edges(ns, src@, deps@, 0));
    }
}

fn push_rel_edges(
    nodes: &Vec<UnifiedNode>,
    src: &Vec<u8>,
    rels: &Vec<RelationFact>,
    edges: &mut Vec<UnifiedEdge>,
)
    ensures
        edge_models(final(edges)@) == edge_models(old(edges)@) + rel_edges(
            node_models(nodes@),
            src@,
            rels@,
            0,
        ),
{
    let ghost ns = node_models(nodes@);
    let mut j: usize = 0;
    while j < rels.len()
        invariant
            0 <= j <= rels@.len(),
            ns == node_models(nodes@),
            edge_models(edges@) + rel_edges(ns, src@, rels@, j as int) == edge_models(
                old(edges)@,
            ) + rel_edges(ns, src@, rels@, 0),
        decreases rels@.len() - j,
    {
        let mname = match &rels[j].related_model {
            Option::Some(rm) => slice_of(rm, 0, rm.len()),
            Option::None => Vec::new(),
        };
        proof {
            assert(mname@ =~= (match rels@[j as int].related_model {
                Option::Some(rm) => rm@,
                Option::None => Seq::<u8>::empty(),
            }));
        }
        match find_last_name_x(nodes, &mname) {
            Option::Some(tid) => {
                let w = &rels[j].rel_type;
                let has_many_w = litv("hasMany");
                let has_many_through_w = litv("hasManyThrough");
                let has_one_w = litv("hasOne");
                let has_one_through_w = litv("hasOneThrough");
                let belongs_to_w = litv("belongsTo");
                let belongs_to_many_w = litv("belongsToMany");
                let morph_to_w = litv("morphTo");
                let morph_one_w = litv("morphOne");
                let morph_many_w = litv("morphMany");
                let et = if bytes_eq(w, &has_many_w) || bytes_eq(w, &has_many_through_w) {
                    UnifiedEdgeType::Custom(litv("has_many"))
                } else if bytes_eq(w, &has_one_w) || bytes_eq(w, &has_one_through_w) {
                    UnifiedEdgeType::Custom(litv("has_one"))
                } else if bytes_eq(w, &belongs_to_w) {
                    UnifiedEdgeType::Custom(litv("belongs_to"))
                } else if bytes_eq(w, &belongs_to_many_w) {
                    UnifiedEdgeType::Custom(litv("belongs_to_many"))
                } else if bytes_eq(w, &morph_to_w) || bytes_eq(w, &morph_one_w) || bytes_eq(
                    w,
                    &morph_many_w,
                ) {
                    UnifiedEdgeType::Custom(litv("morph"))
                } else {
                    UnifiedEdgeType::Uses
                };
                proof {
                    assert(crate::graph::edge_type_model(et) =~= rel_edge_type(
                        rels@[j as int].rel_type@,
                    ));
                }
                let s = slice_of(src, 0, src.len());
                let edge = UnifiedEdge::new(s, tid, et);
                let ghost pre = edges@;
                edges.push(edge);
                proof {
                    crate::graph::lemma_edge_models_push(pre, edge);
                    assert(edge_model(edge) =~= rel_edges(ns, src@, rels@, j as int)[0]);
                    assert(edge_models(edges@) + rel_edges(ns, src@, rels@, j + 1) =~= edge_models(
                        old(edges)@,
                    ) + rel_edges(ns, src@, rels@, 0));
                }
            },
            Option::None => {
                proof {
                    assert(rel_edges(ns, src@, rels@, j as int) =~= rel_edges(
                        ns,
                        src@,
                        rels@,
                        j + 1,
                    ));
                }
            },
        }
        j = j + 1;
    }
    proof {
        assert(rel_edges(ns, src@, rels@, rels@.len() as int) =~= Seq::<EdgeModel>::empty());
        assert(edge_models(edges@) =~= edge_models(old(edges)@) + rel_edges(ns, src@, rels@, 0));
    }
}

fn push_render_edges(
    nodes: &Vec<UnifiedNode>,
    src: &Vec<u8>,
    prefix: &Vec<u8>,
    names: &Vec<Vec<u8>>,
    tag: &Vec<u8>,
    edges: &mut Vec<UnifiedEdge>,
)
    ensures
        edge_models(final(edges)@) == edge_models(old(edges)@) + render_edges(
            node_models(nodes@),
            src@,
            prefix@,
            names@,
            EdgeTypeModel::Custom(tag@),
            0,
        ),
{
    let ghost ns = node_models(nodes@);
    let ghost et = EdgeTypeModel::Custom(tag@);
    let mut j: usize = 0;
    while j < names.len()
        invariant
            0 <= j <= names@.len(),
            ns == node_models(nodes@),
            et == EdgeTypeModel::Custom(tag@),
            edge_models(edges@) + render_edges(ns, src@, prefix@, names@, et, j as int)
                == edge_models(old(edges)@) + render_edges(ns, src@, prefix@, names@, et, 0),
        decreases names@.len() - j,
    {
        let q = crate::text::concat(prefix, &names[j]);
        proof {
            assert(q@ =~= prefix@ + names@[j as int]@);
        }
        match find_last_qual_x(nodes, &q) {
            Option::Some(tid) => {
                let s = slice_of(src, 0, src.len());
                let t = slice_of(tag, 0, tag.len());
                proof {
                    assert(t@ =~= tag@);
                }
                let edge = UnifiedEdge::new(s, tid, UnifiedEdgeType::Custom(t));
                let ghost pre = edges@;
                edges.push(edge);
                proof {
                    crate::graph::lemma_edge_models_push(pre, edge);
                    assert(edge_model(edge) =~= render_edges(
                        ns,
                        src@,
                        prefix@,
                        names@,
                        et,
                        j as int,
                    )[0]);
                    assert(edge_models(edges@) + render_edges(ns, src@, prefix@, names@, et, j + 1)
                        =~= edge_models(old(edges)@) + render_edges(
                        ns,
                        src@,
                        prefix@,
                        names@,
                        et,
                        0,
                    ));
                }
            },
            Option::None => {
                proof {
                    assert(render_edges(ns, src@, prefix@, names@, et, j as int) =~= render_edges(
                        ns,
                        src@,
                        prefix@,
                        names@,
                        et,
                        j + 1,
                    ));
                }
            },
        }
        j = j + 1;
    }
    proof {
        assert(render_edges(ns, src@, prefix@, names@, et, names@.len() as int) =~= Seq::<
            EdgeModel,
        >::empty());
        assert(edge_models(edges@) =~= edge_models(old(edges)@) + render_edges(
            ns,
            src@,
            prefix@,
            names@,
            et,
            0,
        ));
    }
}

fn push_route_edges(
    nodes: &Vec<UnifiedNode>,
    src: &Vec<u8>,
    routes: &Vec<RouteDefinition>,
    edges: &mut Vec<UnifiedEdge>,
)
    ensures
        edge_models(final(edges)@) == edge_models(old(edges)@) + route_edges(
            node_models(nodes@),
            src@,
            routes@,
            0,
        ),
{
    let ghost ns = node_models(nodes@);
    let mut j: usize = 0;
    while j < routes.len()
        invariant
            0 <= j <= routes@.len(),
            ns == node_models(nodes@),
            edge_models(edges@) + route_edges(ns, src@, routes@, j as int) == edge_models(
                old(edges)@,
            ) + route_edges(ns, src@, routes@, 0),
        decreases routes@.len() - j,
    {
        let mut pushed = false;
        match &routes[j].action {
            RouteAction::Controller { controller, method: _ } => {
                match find_last_name_x(nodes, controller) {
                    Option::Some(tid) => {
                        let s = slice_of(src, 0, src.len());
                        let edge = UnifiedEdge::new(
                            s,
                            tid,
                            UnifiedEdgeType::Custom(litv("routes_to")),
                        );
                        let ghost pre = edges@;
                        edges.push(edge);
                        pushed = true;
                        proof {
                            crate::graph::lemma_edge_models_push(pre, edge);
                            assert(edge_model(edge) =~= route_edges(
                                ns,
                                src@,
                                routes@,
                                j as int,
                            )[0]);
                            assert(edge_models(edges@) + route_edges(ns, src@, routes@, j + 1)
                                =~= edge_models(old(edges)@) + route_edges(ns, src@, routes@, 0));
                        }
                    },
                    Option::None => {
                        proof {
                            assert(route_edges(ns, src@, routes@, j as int) =~= route_edges(
                                ns,
                                src@,
                                routes@,
                                j + 1,
                            ));
                        }
                    },
                }
            },
            _ => {
                proof {
                    assert(route_edges(ns, src@, routes@, j as int) =~= route_edges(
                        ns,
                        src@,
                        routes@,
                        j + 1,
                    ));
                }
            },
        }
        j = j + 1;
    }
    proof {
        assert(route_edges(ns, src@, routes@, routes@.len() as int) =~= Seq::<EdgeModel>::empty());
        assert(edge_models(edges@) =~= edge_models(old(edges)@) + route_edges(
            ns,
            src@,
            routes@,
            0,
        ));
    }
}

} // verus!

verus! {

impl LaravelParser {
    /// The first migration file creating a table, executable form.
    fn first_migration_x(&self, files: &Vec<ParsedFile>, table: &Vec<u8>) -> (r: Option<Vec<u8>>)
        ensures
            match first_migration_with(files@, table@, 0) {
                Option::Some(p) => r is Some && crate::text::opt_view_txt(r) == Option::Some(p),
                Option::None => r is None,
            },
    {
        let mut i: usize = 0;
        while i < files.len()
            invariant
                0 <= i <= files@.len(),
                first_migration_with(files@, table@, 0) == first_migration_with(
                    files@,
                    table@,
                    i as int,
                ),
            decreases files@.len() - i,
        {
            let pf = &files[i];
            let initial = self.determine_file_type(&pf.source);
            let refined = self.refine_file_type(initial, pf);
            let nt = self.node_type_of(&refined);
            let is_migration_node = nt.is_migration();
            let mut hit = false;
            if is_migration_node {
                match &pf.facts {
                    FileFacts::Migration(mf) => {
                        if crate::text::contains_bytes(&mf.tables_created, table) {
                            hit = true;
                        }
                    },
                    _ => {
                    },
                }
            }
            if hit {
                let p = slice_of(&pf.source.path, 0, pf.source.path.len());
                proof {
                    assert(p@ =~= files@[i as int].source.path@);
                    assert(first_migration_with(files@, table@, i as int) == Option::Some(
                        files@[i as int].source.path@,
                    ));
                }
                return Some(p);
            }
            proof {
                assert(first_migration_with(files@, table@, i as int) == first_migration_with(
                    files@,
                    table@,
                    i + 1,
                ));
            }
            i = i + 1;
        }
        None
    }

    fn push_fk_edges(
        &self,
        files: &Vec<ParsedFile>,
        src: &Vec<u8>,
        fks: &Vec<crate::facts::ForeignKeyFact>,
        edges: &mut Vec<UnifiedEdge>,
    )
        ensures
            edge_models(final(edges)@) == edge_models(old(edges)@) + fk_edges(
                files@,
                src@,
                fks@,
                0,
            ),
    {
        let mut j: usize = 0;
        while j < fks.len()
            invariant
                0 <= j <= fks@.len(),
                edge_models(edges@) + fk_edges(files@, src@, fks@, j as int) == edge_models(
                    old(edges)@,
                ) + fk_edges(files@, src@, fks@, 0),
            decreases fks@.len() - j,
        {
            match self.first_migration_x(files, &fks[j].on_table) {
                Option::Some(path) => {
                    let tid = generate_id(&path);
                    let s = slice_of(src, 0, src.len());
                    let edge = UnifiedEdge::new(s, tid, UnifiedEdgeType::Custom(litv("references")));
                    let ghost pre = edges@;
                    edges.push(edge);
                    proof {
                        crate::graph::lemma_edge_models_push(pre, edge);
                        assert(edge_model(edge) =~= fk_edges(files@, src@, fks@, j as int)[0]);
                        assert(edge_models(edges@) + fk_edges(files@, src@, fks@, j + 1)
                            =~= edge_models(old(edges)@) + fk_edges(files@, src@, fks@, 0));
                    }
                },
                Option::None => {
                    proof {
                        assert(fk_edges(files@, src@, fks@, j as int) =~= fk_edges(
                            files@,
                            src@,
                            fks@,
                            j + 1,
                        ));
                    }
                },
            }
            j = j + 1;
        }
        proof {
            assert(fk_edges(files@, src@, fks@, fks@.len() as int) =~= Seq::<EdgeModel>::empty());
            assert(edge_models(edges@) =~= edge_models(old(edges)@) + fk_edges(
                files@,
                src@,
                fks@,
                0,
            ));
        }
    }

    /// Append every edge one parsed file contributes.
    #[verifier::rlimit(100)]
    #[verifier::spinoff_prover]
    fn push_file_edges(
        &self,
        nodes: &Vec<UnifiedNode>,
        pf: &ParsedFile,
        files: &Vec<ParsedFile>,
        edges: &mut Vec<UnifiedEdge>,
    )
        ensures
            edge_models(final(edges)@) == edge_models(old(edges)@) + laravel_file_edges(
                *pf,
                node_models(nodes@),
                files@,
            ),
    {
        let ghost ns = node_models(nodes@);
        let ghost base = edge_models(edges@);
        let src = generate_id(&pf.source.path);
        push_use_edges(nodes, &src, &pf.dependencies, &mut *edges);
        match &pf.facts {
            FileFacts::Model(f) => {
                push_rel_edges(nodes, &src, &f.relationships, &mut *edges);
                proof {
                    assert(edge_models(edges@) =~= base + laravel_file_edges(*pf, ns, files@));
                }
            },
            FileFacts::Controller(f) => {
                let view_prefix = litv("view:");
                let renders_tag = litv("renders");
                push_render_edges(
                    nodes,
                    &src,
                    &view_prefix,
                    &f.views_referenced,
                    &renders_tag,
                    &mut *edges,
                );
                let inertia_prefix = litv("inertia:");
                let renders_tag2 = litv("renders");
                push_render_edges(
                    nodes,
                    &src,
                    &inertia_prefix,
                    &f.inertia_pages,
                    &renders_tag2,
                    &mut *edges,
                );
                proof {
                    assert(edge_models(edges@) =~= base + laravel_file_edges(*pf, ns, files@));
                }
            },
            FileFacts::Route(f) => {
                push_route_edges(nodes, &src, &f.routes, &mut *edges);
                proof {
                    assert(edge_models(edges@) =~= base + laravel_file_edges(*pf, ns, files@));
                }
            },
            FileFacts::Blade(f) => {
                match &f.extends_view {
                    Option::Some(e) => {
                        let view_prefix = litv("view:");
                        let q = crate::text::concat(&view_prefix, e);
                        proof {
                            assert(q@ =~= lit("view:") + e@);
                        }
                        match find_last_qual_x(nodes, &q) {
                            Option::Some(tid) => {
                                let s = slice_of(&src, 0, src.len());
                                let edge = UnifiedEdge::new(s, tid, UnifiedEdgeType::Extends);
                                let ghost pre = edges@;
                                edges.push(edge);
                                proof {
                                    crate::graph::lemma_edge_models_push(pre, edge);
                                    assert(s@ =~= src@);
                                    match find_last_qual(ns, lit("view:") + e@) {
                                        Option::Some(n) => {
                                            assert(edge_model(edge) =~= new_edge_model(
                                                id_of(pf.source.path@),
                                                n.id,
                                                EdgeTypeModel::Extends,
                                            ));
                                        },
                                        Option::None => {
                                            assert(false);
                                        },
                                    }
                                }
                            },
                            Option::None => {
                            },
                        }
                    },
                    Option::None => {
                    },
                }
                let view_prefix2 = litv("view:");
                let includes_tag = litv("includes");
                push_render_edges(
                    nodes,
                    &src,
                    &view_prefix2,
                    &f.includes,
                    &includes_tag,
                    &mut *edges,
                );
                proof {
                    assert(edge_models(edges@) =~= base + laravel_file_edges(*pf, ns, files@));
                }
            },
            FileFacts::Migration(f) => {
                self.push_fk_edges(files, &src, &f.foreign_keys, &mut *edges);
                proof {
                    assert(edge_models(edges@) =~= base + laravel_file_edges(*pf, ns, files@));
                }
            },
            _ => {
                proof {
                    assert(edge_models(edges@) =~= base + laravel_file_edges(*pf, ns, files@));
                }
            },
        }
    }

    /// Generate the unified edges of a parse result, resolving every
    /// extracted reference against the freshly generated nodes; unresolved
    /// Laravel references are dropped.
    pub fn generate_edges(&self, pr: &ParseResult, nodes: &Vec<UnifiedNode>) -> (edges: Vec<
        UnifiedEdge,
    >)
        ensures
            edge_models(edges@) == laravel_edges(pr.files@, node_models(nodes@)),
    {
        let ghost filesv = pr.files@;
        let ghost ns = node_models(nodes@);
        let mut edges: Vec<UnifiedEdge> = Vec::new();
        let mut k: usize = 0;
        while k < pr.files.len()
            invariant
                0 <= k <= filesv.len(),
                filesv == pr.files@,
                ns == node_models(nodes@),
                edge_models(edges@) + laravel_edges_from(filesv, ns, k as int) == laravel_edges(
                    filesv,
                    ns,
                ),
            decreases filesv.len() - k,
        {
            let pf = &pr.files[k];
            self.push_file_edges(nodes, pf, &pr.files, &mut edges);
            proof {
                assert(edge_models(edges@) + laravel_edges_from(filesv, ns, k + 1)
                    =~= laravel_edges(filesv, ns));
            }
            k = k + 1;
        }
        proof {
            assert(laravel_edges_from(filesv, ns, filesv.len() as int) =~= Seq::<
                EdgeModel,
            >::empty());
            assert(edge_models(edges@) =~= laravel_edges(filesv, ns));
        }
        edges
    }

    /// Build the complete graph: nodes, then edges resolved against them.
    pub fn build_graph(&self, pr: &ParseResult) -> (g: UnifiedGraph)
        ensures
            node_models(g.nodes@) == laravel_nodes(pr.files@),
            edge_models(g.edges@) == laravel_edges(pr.files@, laravel_nodes(pr.files@)),
    {
        let nodes = self.generate_nodes(pr);
        let edges = self.generate_edges(pr, &nodes);
        UnifiedGraph { nodes, edges, metadata: crate::graph::GraphMetadata::default() }
    }
}

} // verus!

verus! {

// ---------------------------------------------------------------------------
// The full per-file parse relation
// ---------------------------------------------------------------------------

/// The tag naming a file kind.
pub open spec fn type_tag_spec(t: LaravelFileType) -> Seq<u8> {
    match t {
        LaravelFileType::Controller => lit("Controller"),
        LaravelFileType::Model => lit("Model"),
        LaravelFileType::BladeView => lit("BladeView"),
        LaravelFileType::Route => lit("Route"),
        LaravelFileType::Migration => lit("Migration"),
        LaravelFileType::Middleware => lit("Middleware"),
        LaravelFileType::Request => lit("Request"),
        LaravelFileType::Resource => lit("Resource"),
        LaravelFileType::Provider => lit("Provider"),
        LaravelFileType::Event => lit("Event"),
        LaravelFileType::Listener => lit("Listener"),
        LaravelFileType::Job => lit("Job"),
        LaravelFileType::Policy => lit("Policy"),
        LaravelFileType::Command => lit("Command"),
        LaravelFileType::Config => lit("Config"),
        LaravelFileType::Seeder => lit("Seeder"),
        LaravelFileType::Factory => lit("Factory"),
        LaravelFileType::Test => lit("Test"),
        LaravelFileType::InertiaPage => lit("InertiaPage"),
        LaravelFileType::Service => lit("Service"),
        LaravelFileType::Repository => lit("Repository"),
        LaravelFileType::Action => lit("Action"),
        LaravelFileType::Dto => lit("Dto"),
        LaravelFileType::Notification => lit("Notification"),
        LaravelFileType::Mailable => lit("Mailable"),
        LaravelFileType::Observer => lit("Observer"),
        LaravelFileType::Scope => lit("Scope"),
        LaravelFileType::Rule => lit("Rule"),
        LaravelFileType::Cast => lit("Cast"),
        LaravelFileType::Contract => lit("Contract"),
        LaravelFileType::Exception => lit("Exception"),
        LaravelFileType::Enum => lit("Enum"),
        LaravelFileType::Trait => lit("Trait"),
        LaravelFileType::Interface => lit("Interface"),
        LaravelFileType::Php => lit("Php"),
    }
}

/// What parsing one readable controller yields.
pub open spec fn controller_rel(c: Vec<u8>, pf: ParsedFile) -> bool {
    &&& crate::facts::dep_models(pf.dependencies@) == crate::php::php_use_deps(c@)
    &&& crate::facts::sym_models(pf.symbols@) == crate::controller::controller_symbols(c@)
    &&& match pf.facts {
        FileFacts::Controller(f) => {
            &&& opt_view(f.namespace) == crate::php::php_namespace(c@)
            &&& crate::text::views(f.middlewares@) == crate::controller::ctrl_mw_spec(c@)
            &&& f.is_resource_controller == crate::controller::is_resource_spec(c@)
            &&& crate::text::views(f.views_referenced@) == crate::controller::views_ref_spec(c@)
            &&& crate::text::views(f.models_referenced@) == crate::controller::models_ref_spec(c@)
            &&& crate::text::views(f.inertia_pages@) == crate::controller::inertia_pages_spec(c@)
        },
        _ => false,
    }
}

/// What parsing one readable model yields.
pub open spec fn model_rel(c: Vec<u8>, pf: ParsedFile) -> bool {
    &&& crate::facts::dep_models(pf.dependencies@) == crate::php::php_use_deps(c@)
    &&& crate::facts::sym_models(pf.symbols@) == crate::eloquent::model_symbols(c@)
    &&& match pf.facts {
        FileFacts::Model(f) => {
            &&& opt_view(f.namespace) == crate::php::php_namespace(c@)
            &&& crate::facts::relation_models(f.relationships@) == crate::eloquent::rels_spec(c@)
            &&& crate::facts::pair_views(f.casts@) == crate::eloquent::casts_spec(c@)
            &&& crate::text::views(f.traits_used@) == crate::eloquent::model_traits_spec(c@)
        },
        _ => false,
    }
}

/// What parsing one readable route file yields.
pub open spec fn route_rel(c: Vec<u8>, pf: ParsedFile) -> bool {
    &&& crate::facts::dep_models(pf.dependencies@) == crate::php::php_use_deps(c@)
    &&& match pf.facts {
        FileFacts::Route(f) => {
            &&& crate::facts::route_models(f.routes@) == crate::routes::routes_spec(c@)
            &&& crate::text::views(f.controllers_referenced@) == crate::routes::ctrl_refs_spec(c@)
            &&& crate::text::views(f.middlewares_used@) == crate::routes::all_mw_spec(c@)
        },
        _ => false,
    }
}

/// What parsing one readable migration yields.
pub open spec fn migration_rel(c: Vec<u8>, pf: ParsedFile) -> bool {
    &&& crate::facts::dep_models(pf.dependencies@) == crate::php::php_use_deps(c@)
    &&& match pf.facts {
        FileFacts::Migration(f) => {
            &&& opt_view(f.migration_class) == crate::migration::migration_class(
                crate::text::split_lines(c@),
                0,
            )
            &&& crate::text::views(f.tables_created@) == crate::migration::ident_args(
                c@,
                "Schema::create",
            )
            &&& crate::facts::fk_models(f.foreign_keys@) == crate::migration::fks_spec(c@)
            &&& crate::facts::column_models(f.columns@) == crate::migration::columns_spec(c@)
        },
        _ => false,
    }
}

/// What parsing one readable Blade template yields.
pub open spec fn blade_rel(path: Seq<u8>, c: Vec<u8>, pf: ParsedFile) -> bool {
    &&& crate::facts::dep_models(pf.dependencies@) == crate::blade::blade_deps(c@)
    &&& match pf.facts {
        FileFacts::Blade(f) => {
            &&& f.view_name@ == crate::blade::view_name_spec(path)
            &&& opt_view(f.extends_view) == crate::blade::blade_extends(c@)
            &&& crate::text::views(f.includes@) == crate::blade::blade_includes(c@)
        },
        _ => false,
    }
}

/// What parsing one readable Inertia page yields.
pub open spec fn inertia_rel(path: Seq<u8>, name: Seq<u8>, c: Vec<u8>, pf: ParsedFile) -> bool {
    match pf.facts {
        FileFacts::Inertia(f) => {
            &&& f.page_name@ == crate::inertia::page_name_spec(path)
            &&& f.framework@ == crate::inertia::framework_spec(name, c@)
            &&& crate::facts::import_models(f.imports@) == crate::inertia::imports_spec(
                c@,
                crate::inertia::framework_spec(name, c@),
            )
        },
        _ => false,
    }
}

/// What parsing one readable generic PHP file yields: the base extraction
/// plus the file-kind tag.
pub open spec fn php_rel(t: LaravelFileType, c: Vec<u8>, pf: ParsedFile) -> bool {
    &&& crate::facts::dep_models(pf.dependencies@) == crate::php::php_use_deps(c@)
    &&& crate::facts::sym_models(pf.symbols@) == crate::php::php_symbols(c@)
    &&& match pf.facts {
        FileFacts::Php(f) => {
            &&& opt_view(f.namespace) == crate::php::php_namespace(c@)
            &&& (match f.laravel_type {
                Option::Some(tag) => tag@ == type_tag_spec(t),
                Option::None => false,
            })
        },
        _ => false,
    }
}

/// What parsing one readable Laravel input yields, by its classified kind.
pub open spec fn laravel_parse_rel(inp: FileInput, pf: ParsedFile) -> bool {
    sf_model(pf.source) == sf_model(inp.source) && pf.warnings@.len() == 0 && match inp.content {
        Result::Ok(c) => {
            let t = determine_spec(inp.source.path@, inp.source.name@);
            if t == LaravelFileType::Controller {
                controller_rel(c, pf)
            } else if t == LaravelFileType::Model {
                model_rel(c, pf)
            } else if t == LaravelFileType::Route {
                route_rel(c, pf)
            } else if t == LaravelFileType::Migration {
                migration_rel(c, pf)
            } else if t == LaravelFileType::BladeView {
                blade_rel(inp.source.path@, c, pf)
            } else if t == LaravelFileType::InertiaPage {
                inertia_rel(inp.source.path@, inp.source.name@, c, pf)
            } else {
                php_rel(t, c, pf)
            }
        },
        Result::Err(_) => false,
    }
}

} // verus!
