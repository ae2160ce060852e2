use codegraph::detection::{DetectInput, ProjectDetector};
use codegraph::delphi::DelphiParser;
use codegraph::facts::{FileFacts, RouteAction};
use codegraph::hash::generate_id;
use codegraph::laravel::{LaravelFileType, LaravelParser};
use codegraph::project_type::ProjectType;
use codegraph::registry::ParserRegistry;
use codegraph::routes::RouteParser;
use codegraph::source_file::{file_stem, has_extension, SourceFile};
use codegraph::strategy::FileInput;
use codegraph::migration::MigrationParser;
use codegraph::eloquent::ModelParser;
use codegraph::controller::ControllerParser;
use codegraph::blade::BladeParser;
use codegraph::inertia::InertiaParser;

fn b(s: &str) -> Vec<u8> {
    s.as_bytes().to_vec()
}

fn sf(name: &str, path: &str) -> SourceFile {
    SourceFile::new(b(name), b(path), b(path))
}

#[test]
fn id_is_the_md5_hex_of_the_path() {
    assert_eq!(generate_id(&b("")), b("d41d8cd98f00b204e9800998ecf8427e"));
    assert_eq!(generate_id(&b("abc")), b("900150983cd24fb0d6963f7d28e17f72"));
}

#[test]
fn ids_are_stable_and_distinct_for_distinct_paths() {
    let a1 = generate_id(&b("src/Main.pas"));
    let a2 = generate_id(&b("src/Main.pas"));
    let c = generate_id(&b("src/Main.pas::TForm"));
    assert_eq!(a1, a2);
    assert_ne!(a1, c);
}

#[test]
fn source_file_extension_and_predicates() {
    let f = sf("Main.PAS", "src/Main.PAS");
    assert_eq!(f.extension, b("PAS"));
    assert!(f.is_delphi_unit());
    assert!(!f.is_php());
    let blade = sf("home.blade.php", "resources/views/home.blade.php");
    assert!(blade.is_blade());
    assert!(blade.is_php());
}

#[test]
fn path_helpers() {
    assert!(has_extension(&b("a/b/Main.DPR"), &b("dpr")));
    assert!(!has_extension(&b("a/b/Main"), &b("dpr")));
    assert_eq!(file_stem(&b("a/b/Main.pas")), Some(b("Main")));
}

#[test]
fn registry_defaults_and_lookup() {
    let reg = ParserRegistry::with_defaults();
    let delphi = reg.get(&b("delphi")).expect("delphi parser registered");
    assert_eq!(delphi.project_type, ProjectType::Delphi);
    assert!(delphi.is_available);
    let nodejs = reg.get_for_type(&ProjectType::NodeJs).expect("nodejs registered");
    assert!(!nodejs.is_available);
    assert!(reg.get(&b("cobol")).is_none());
    assert_eq!(reg.list().len(), 3);
    assert_eq!(reg.list_available().len(), 2);
}

fn laravel_root() -> DetectInput {
    DetectInput {
        files_root: vec![b("composer.json"), b("artisan")],
        files_sub: vec![b("index.php")],
        dirs: vec![b("app/Http/Controllers")],
        composer_json: Some(b("{\"require\": {\"laravel/framework\": \"^10.0\"}}")),
    }
}

#[test]
fn scenario_laravel_detection() {
    let r = ProjectDetector::detect(&laravel_root());
    assert_eq!(r.project_type, ProjectType::Laravel);
    assert_eq!(r.parser_id, b("laravel"));
    assert_eq!(r.confidence, 85);
    assert!(r
        .marker_files_found
        .contains(&b("composer.json (laravel/framework)")));
}

#[test]
fn detection_is_deterministic() {
    let r1 = ProjectDetector::detect(&laravel_root());
    let r2 = ProjectDetector::detect(&laravel_root());
    assert_eq!(r1.project_type, r2.project_type);
    assert_eq!(r1.confidence, r2.confidence);
    assert_eq!(r1.parser_id, r2.parser_id);
    assert_eq!(r1.marker_files_found, r2.marker_files_found);
    assert_eq!(r1.is_multi_language, r2.is_multi_language);
}

#[test]
fn detection_monotone_in_delphi_markers() {
    let base = DetectInput {
        files_root: vec![b("Main.pas")],
        files_sub: vec![],
        dirs: vec![],
        composer_json: None,
    };
    let more = DetectInput {
        files_root: vec![b("Main.pas"), b("App.dpr")],
        files_sub: vec![],
        dirs: vec![],
        composer_json: None,
    };
    let r1 = ProjectDetector::detect(&base);
    let r2 = ProjectDetector::detect(&more);
    assert!(r2.confidence >= r1.confidence);
    assert_eq!(r1.project_type, ProjectType::Delphi);
    assert_eq!(r2.project_type, ProjectType::Delphi);
}

#[test]
fn multi_language_consistency() {
    // Laravel evidence plus TypeScript files: two candidates.
    let inp = DetectInput {
        files_root: vec![b("composer.json"), b("artisan"), b("package.json"), b("app.ts")],
        files_sub: vec![],
        dirs: vec![],
        composer_json: Some(b("laravel/framework")),
    };
    let r = ProjectDetector::detect(&inp);
    assert_eq!(r.is_multi_language, !r.secondary_types.is_empty());
    let any_secondary = r.secondary_types.iter().any(|(_, c)| *c > 30);
    assert_eq!(r.is_multi_language, any_secondary || !r.secondary_types.is_empty());
    assert!(r.is_multi_language);
}

#[test]
fn unknown_root_detects_nothing() {
    let inp = DetectInput {
        files_root: vec![b("README.md")],
        files_sub: vec![],
        dirs: vec![],
        composer_json: None,
    };
    let r = ProjectDetector::detect(&inp);
    assert_eq!(r.project_type, ProjectType::Unknown);
    assert_eq!(r.confidence, 0);
    assert!(!r.is_multi_language);
}

#[test]
fn scenario_route_extraction() {
    let content = b("<?php\nRoute::get('/users', [UserController::class, 'index'])->name('users.index');\n");
    let parser = RouteParser::new();
    let parsed = parser.parse(&sf("web.php", "routes/web.php"), &content);
    match parsed.facts {
        FileFacts::Route(f) => {
            assert_eq!(f.route_type, b("web"));
            assert_eq!(f.routes.len(), 1);
            let r = &f.routes[0];
            assert_eq!(r.method, b("GET"));
            assert_eq!(r.uri, b("/users"));
            assert_eq!(r.name, Some(b("users.index")));
            assert!(r.middleware.is_empty());
            match &r.action {
                RouteAction::Controller { controller, method } => {
                    assert_eq!(controller, &b("UserController"));
                    assert_eq!(method, &b("index"));
                }
                other => panic!("unexpected action: {:?}", other),
            }
            assert_eq!(f.controllers_referenced, vec![b("UserController")]);
        }
        other => panic!("unexpected facts: {:?}", other),
    }
}

#[test]
fn classification_path_rule_wins() {
    let parser = LaravelParser::new();
    let file = sf("FooController.php", "app/Http/Controllers/FooController.php");
    assert_eq!(parser.determine_file_type(&file), LaravelFileType::Controller);
    // An empty body keeps the path-derived classification.
    let parsed = parser.parse_file(&file, &b(""));
    assert!(matches!(parsed.facts, FileFacts::Controller(_)));
}

#[test]
fn classification_refines_extends_model() {
    let parser = LaravelParser::new();
    let file = sf("Post.php", "app/Other/Post.php");
    assert_eq!(parser.determine_file_type(&file), LaravelFileType::Php);
    let parsed = parser.parse_file(&file, &b("<?php\nclass Post extends Model {\n}\n"));
    let refined = parser.refine_file_type(LaravelFileType::Php, &parsed);
    assert_eq!(refined, LaravelFileType::Model);
}

#[test]
fn classification_path_beats_suffix() {
    let parser = LaravelParser::new();
    // Lives under /models/ but is named like a service: path evidence wins.
    let file = sf("BillingService.php", "app/Models/BillingService.php");
    let t = parser.determine_file_type(&file);
    assert_eq!(t, LaravelFileType::Model);
    let parsed = parser.parse_file(&file, &b("<?php\nclass BillingService {\n}\n"));
    assert_eq!(parser.refine_file_type(t, &parsed), LaravelFileType::Model);
}

#[test]
fn partial_failure_containment() {
    let parser = DelphiParser::new();
    let files = vec![
        FileInput {
            source: sf("A.pas", "src/A.pas"),
            content: Ok(b("unit A;\ninterface\nimplementation\nend.")),
        },
        FileInput {
            source: sf("B.pas", "src/B.pas"),
            content: Err(b("permission denied")),
        },
        FileInput {
            source: sf("C.pas", "src/C.pas"),
            content: Ok(b("unit C;\nend.")),
        },
    ];
    let result = parser.parse_project(&files);
    assert_eq!(result.total_processed, 3);
    assert_eq!(result.total_errors, 1);
    assert_eq!(result.files.len(), 2);
    assert_eq!(result.errors.len(), 1);
    assert_eq!(result.errors[0].0, b("src/B.pas"));
    assert!(result.files.iter().all(|f| f.source.path != b("src/B.pas")));
}

#[test]
fn pas_uses_sections_and_symbols() {
    let parser = DelphiParser::new();
    let content = b(
        "unit Main;\ninterface\nuses SysUtils, Classes;\ntype\n  TForm1 = class(TForm)\n  end;\nimplementation\nuses StrUtils;\nend.",
    );
    let parsed = parser
        .parse_file(&sf("Main.pas", "src/Main.pas"), &content)
        .expect("a unit file is supported");
    let deps: Vec<_> = parsed.dependencies.iter().map(|d| d.target.clone()).collect();
    assert_eq!(deps, vec![b("SysUtils"), b("Classes"), b("StrUtils")]);
    assert!(parsed.dependencies[0].is_interface);
    assert!(!parsed.dependencies[0].is_implementation);
    assert!(parsed.dependencies[2].is_implementation);
    let names: Vec<_> = parsed.symbols.iter().map(|s| s.name.clone()).collect();
    assert!(names.contains(&b("Main")));
    assert!(names.contains(&b("TForm1")));
}

#[test]
fn dangling_edge_tolerance() {
    let parser = DelphiParser::new();
    let files = vec![FileInput {
        source: sf("Main.pas", "src/Main.pas"),
        content: Ok(b("unit Main;\ninterface\nuses UnknownUnit;\nimplementation\nend.")),
    }];
    let result = parser.parse_project(&files);
    let graph = parser.build_graph(&result);
    let target = generate_id(&b("UnknownUnit"));
    let uses_edge = graph
        .edges
        .iter()
        .find(|e| e.target == target)
        .expect("edge synthesized from the raw dependency string");
    assert!(graph.find_node(&uses_edge.target).is_none());
    // Consumers keep working in the presence of the dangling target.
    assert_eq!(graph.in_degree(&target), 1);
    assert_eq!(graph.out_degree(&target), 0);
}

#[test]
fn file_pair_round_trip() {
    let parser = DelphiParser::new();
    let files = vec![
        FileInput {
            source: sf("Main.pas", "src/Main.pas"),
            content: Ok(b("unit Main;\nend.")),
        },
        FileInput {
            source: sf("MAIN.DFM", "src/MAIN.DFM"),
            content: Ok(b("object Form1: TForm1\nend")),
        },
    ];
    let result = parser.parse_project(&files);
    let pairs = parser.detect_file_pairs(&result);
    assert_eq!(pairs.len(), 1);
    assert_eq!(pairs[0].0, b("src/Main.pas"));
    assert_eq!(pairs[0].1, b("src/MAIN.DFM"));

    let lone = parser.parse_project(&vec![FileInput {
        source: sf("Main.pas", "src/Main.pas"),
        content: Ok(b("unit Main;\nend.")),
    }]);
    assert!(parser.detect_file_pairs(&lone).is_empty());
}

#[test]
fn build_graph_is_deterministic() {
    let parser = DelphiParser::new();
    let files = vec![FileInput {
        source: sf("Main.pas", "src/Main.pas"),
        content: Ok(b("unit Main;\ninterface\nuses SysUtils;\nimplementation\nend.")),
    }];
    let result = parser.parse_project(&files);
    let g1 = parser.build_graph(&result);
    let g2 = parser.build_graph(&result);
    assert_eq!(g1.nodes.len(), g2.nodes.len());
    assert_eq!(g1.edges.len(), g2.edges.len());
    for (n1, n2) in g1.nodes.iter().zip(g2.nodes.iter()) {
        assert_eq!(n1.id, n2.id);
        assert_eq!(n1.name, n2.name);
    }
    for (e1, e2) in g1.edges.iter().zip(g2.edges.iter()) {
        assert_eq!(e1.id, e2.id);
        assert_eq!(e1.source, e2.source);
        assert_eq!(e1.target, e2.target);
    }
}

#[test]
fn delphi_node_sizes_follow_byte_breakpoints() {
    let parser = DelphiParser::new();
    let small = sf("A.pas", "A.pas").with_size(900);
    let big = sf("B.pas", "B.pas").with_size(60000);
    let files = vec![
        FileInput { source: small, content: Ok(b("unit A;")) },
        FileInput { source: big, content: Ok(b("unit B;")) },
    ];
    let result = parser.parse_project(&files);
    let nodes = parser.generate_nodes(&result);
    let a = nodes.iter().find(|n| n.name == b("A.pas")).unwrap();
    let bnode = nodes.iter().find(|n| n.name == b("B.pas")).unwrap();
    assert_eq!(a.size, 2);
    assert_eq!(bnode.size, 10);
}

#[test]
fn migration_facts() {
    let content = b(
        "<?php\nclass CreateUsersTable extends Migration\n{\n    public function up(): void\n    {\n        Schema::create('users', function (Blueprint $table) {\n            $table->id();\n            $table->string('name')->nullable();\n            $table->foreignId('team_id')->constrained();\n        });\n    }\n\n    public function down(): void\n    {\n        Schema::dropIfExists('users');\n    }\n}\n",
    );
    let parser = MigrationParser::new();
    let parsed = parser.parse(
        &sf("2024_01_01_000000_create_users_table.php", "database/migrations/2024_01_01_000000_create_users_table.php"),
        &content,
    );
    match parsed.facts {
        FileFacts::Migration(f) => {
            assert_eq!(f.migration_class, Some(b("CreateUsersTable")));
            assert_eq!(f.migration_timestamp, Some(b("2024_01_01_000000")));
            assert_eq!(f.tables_created, vec![b("users")]);
            assert_eq!(f.tables_dropped, vec![b("users")]);
            let name_col = f.columns.iter().find(|c| c.name == b("name")).unwrap();
            assert!(name_col.nullable);
            assert_eq!(name_col.column_type, b("string"));
            let fk = f.foreign_keys.iter().find(|k| k.constrained).unwrap();
            assert_eq!(fk.column, b("team_id"));
            assert_eq!(fk.on_table, b("teams"));
            assert_eq!(fk.references, b("id"));
        }
        other => panic!("unexpected facts: {:?}", other),
    }
}

#[test]
fn model_relationships() {
    let content = b(
        "<?php\nnamespace App\\Models;\nclass User extends Model\n{\n    protected $fillable = ['name', 'email'];\n    public function posts()\n    {\n        return $this->hasMany(Post::class);\n    }\n}\n",
    );
    let parser = ModelParser::new();
    let parsed = parser.parse(&sf("User.php", "app/Models/User.php"), &content);
    match parsed.facts {
        FileFacts::Model(f) => {
            assert_eq!(f.namespace, Some(b("App\\Models")));
            assert_eq!(f.fillable, Some(vec![b("name"), b("email")]));
            assert_eq!(f.relationships.len(), 1);
            let rel = &f.relationships[0];
            assert_eq!(rel.method, b("posts"));
            assert_eq!(rel.rel_type, b("hasMany"));
            assert_eq!(rel.related_model, Some(b("Post")));
        }
        other => panic!("unexpected facts: {:?}", other),
    }
}

#[test]
fn controller_facts() {
    let content = b(
        "<?php\nnamespace App\\Http\\Controllers;\nclass UserController extends Controller\n{\n    public function index()\n    {\n        return view('users.index');\n    }\n}\n",
    );
    let parser = ControllerParser::new();
    let parsed = parser.parse(&sf("UserController.php", "app/Http/Controllers/UserController.php"), &content);
    match parsed.facts {
        FileFacts::Controller(f) => {
            assert_eq!(f.namespace, Some(b("App\\Http\\Controllers")));
            assert_eq!(f.views_referenced, vec![b("users.index")]);
            assert!(!f.is_resource_controller);
        }
        other => panic!("unexpected facts: {:?}", other),
    }
    let class_sym = parsed.symbols.iter().find(|s| s.name == b("UserController")).unwrap();
    assert_eq!(class_sym.qualified_name, b("App\\Http\\Controllers\\UserController"));
    assert_eq!(class_sym.extends, Some(b("Controller")));
    assert!(parsed.symbols.iter().any(|s| s.name == b("index")));
}


#[test]
fn unsupported_extension_fails_and_is_recorded() {
    let parser = DelphiParser::new();
    assert!(parser.parse_file(&sf("notes.txt", "src/notes.txt"), &b("hello")).is_err());
    let files = vec![
        FileInput {
            source: sf("A.pas", "src/A.pas"),
            content: Ok(b("unit A;")),
        },
        FileInput {
            source: sf("notes.txt", "src/notes.txt"),
            content: Ok(b("hello")),
        },
    ];
    let result = parser.parse_project(&files);
    assert_eq!(result.total_processed, 2);
    assert_eq!(result.total_errors, 1);
    assert_eq!(result.files.len(), 1);
    assert_eq!(result.errors[0].0, b("src/notes.txt"));
    assert_eq!(result.errors[0].1, b("Unsupported file type: txt"));
}

#[test]
fn blade_template_facts() {
    let content = b(
        "@extends('layouts.app')\n@section('content')\n@include('partials.header')\n@include('partials.header')\n@push('scripts')\n@can('edit-post')\n{{ $title }}\n@endsection\n",
    );
    let parser = BladeParser::new();
    let parsed = parser.parse(&sf("home.blade.php", "resources/views/home.blade.php"), &content);
    match parsed.facts {
        FileFacts::Blade(f) => {
            assert_eq!(f.view_name, b("home"));
            assert_eq!(f.extends_view, Some(b("layouts.app")));
            assert_eq!(f.sections, vec![b("content")]);
            assert_eq!(f.includes, vec![b("partials.header")]);
            assert_eq!(f.pushes, vec![b("scripts")]);
            assert_eq!(f.permissions, vec![b("edit-post")]);
            assert!(!f.is_layout);
            let echo = f
                .directive_counts
                .iter()
                .find(|(n, _)| n == &b("echo"))
                .expect("echo counted");
            assert_eq!(echo.1, 1);
        }
        other => panic!("unexpected facts: {:?}", other),
    }
    let dep_targets: Vec<_> = parsed.dependencies.iter().map(|d| d.target.clone()).collect();
    assert!(dep_targets.contains(&b("view:layouts.app")));
    assert!(dep_targets.contains(&b("view:partials.header")));
}

#[test]
fn inertia_page_facts() {
    let content = b(
        "<script setup>\nimport Layout from './Layout.vue'\nimport { ref, computed } from 'vue'\n</script>\n<template>\n<Layout><UserCard /></Layout>\n</template>\n",
    );
    let parser = InertiaParser::new();
    let parsed = parser.parse(
        &sf("Dashboard.vue", "resources/js/Pages/Dashboard.vue"),
        &content,
    );
    match parsed.facts {
        FileFacts::Inertia(f) => {
            assert_eq!(f.page_name, b("Dashboard"));
            assert_eq!(f.framework, b("vue"));
            assert!(f.imports.iter().any(|i| i.kind == b("vue_component") && i.name == b("Layout")));
            assert!(f.imports.iter().any(|i| i.kind == b("named") && i.name == b("ref")));
            assert!(f.child_components.contains(&b("Layout")));
            assert!(f.child_components.contains(&b("UserCard")));
        }
        other => panic!("unexpected facts: {:?}", other),
    }
}

#[test]
fn laravel_graph_resolves_edges() {
    let parser = LaravelParser::new();
    let files = vec![
        FileInput {
            source: sf("UserController.php", "app/Http/Controllers/UserController.php"),
            content: Ok(b(
                "<?php\nnamespace App\\Http\\Controllers;\nclass UserController extends Controller\n{\n    public function index()\n    {\n        return view('users.index');\n    }\n}\n",
            )),
        },
        FileInput {
            source: sf("index.blade.php", "resources/views/users/index.blade.php"),
            content: Ok(b("<p>users</p>")),
        },
        FileInput {
            source: sf("web.php", "project/routes/web.php"),
            content: Ok(b(
                "<?php\nRoute::get('/users', [UserController::class, 'index']);\n",
            )),
        },
    ];
    let result = parser.parse_project(&files);
    assert_eq!(result.total_errors, 0);
    let graph = parser.build_graph(&result);
    let view_node = graph
        .nodes
        .iter()
        .find(|n| n.qualified_name == b("view:users.index"))
        .expect("the template node carries its view: key");
    let controller_node = graph
        .nodes
        .iter()
        .find(|n| n.name == b("UserController"))
        .map(|n| n.id.clone())
        .expect("a controller node exists");
    // The controller renders the view; the route maps to the controller.
    assert!(graph
        .edges
        .iter()
        .any(|e| e.target == view_node.id && e.id.ends_with(b"Custom(\"renders\")".as_slice())));
    assert!(graph
        .edges
        .iter()
        .any(|e| e.target == controller_node
            && e.id.ends_with(b"Custom(\"routes_to\")".as_slice())));
}

#[test]
fn registry_lists_available_in_order() {
    let reg = ParserRegistry::with_defaults();
    let available = reg.list_available();
    assert_eq!(available.len(), 2);
    assert_eq!(available[0].id, b("delphi"));
    assert_eq!(available[1].id, b("laravel"));
}
