//! The Delphi/Object Pascal project parser: classification, per-file parse
//! dispatch, project orchestration, and graph assembly.

use vstd::prelude::*;
use crate::detection::DetectInput;
use crate::detection::delphi_score;
use crate::facts::ParseResult;
use crate::facts::ParsedFile;
use crate::facts::Symbol;
use crate::facts::SymbolType;
use crate::facts::dep_models;
use crate::facts::sym_models;
use crate::graph::EdgeModel;
use crate::graph::NodeModel;
use crate::graph::NodeTypeModel;
use crate::graph::EdgeTypeModel;
use crate::graph::UnifiedEdge;
use crate::graph::UnifiedEdgeType;
use crate::graph::UnifiedGraph;
use crate::graph::UnifiedNode;
use crate::graph::UnifiedNodeType;
use crate::graph::default_meta_model;
use crate::graph::default_edge_meta_model;
use crate::graph::edge_models;
use crate::graph::lemma_edge_models_push;
use crate::graph::lemma_node_models_push;
use crate::graph::edge_model;
use crate::graph::node_model;
use crate::graph::node_models;
use crate::graph::new_edge_model;
use crate::graph::plain_edge_id;
use crate::hash::generate_id;
use crate::hash::id_of;
use crate::pascal::DfmParser;
use crate::pascal::PasParser;
use crate::pascal::dfm_syms;
use crate::pascal::pas_symbols;
use crate::pascal::pas_uses;
use crate::project_type::ProjectType;
use crate::registry::ParserInfo;
use crate::source_file::SourceFile;
use crate::source_file::sf_model;
use crate::source_file::stem_of;
use crate::source_file::stem_x;
use crate::strategy::FileInput;
use crate::strategy::ParserCapabilities;
use crate::strategy::ParserConfig;
use crate::strategy::err_pairs;
use crate::strategy::ok_inputs;
use crate::facts::pair_views;
use crate::facts::lemma_pair_views_push;
use crate::text::concat;
use crate::text::eq_nocase;
use crate::text::eq_nocase_x;
use crate::text::lit;
use crate::text::litv;
use crate::text::slice_of;
use crate::text::views;

verus! {

// ---------------------------------------------------------------------------
// Classification
// ---------------------------------------------------------------------------

pub open spec fn is_pas_ext(ext: Seq<u8>) -> bool {
    eq_nocase(ext, lit("pas")) || eq_nocase(ext, lit("dpr")) || eq_nocase(ext, lit("dpk"))
}

pub open spec fn is_form_ext(ext: Seq<u8>) -> bool {
    eq_nocase(ext, lit("dfm")) || eq_nocase(ext, lit("fmx"))
}

/// The node type a Delphi file classifies to, by extension.
pub open spec fn delphi_node_type(ext: Seq<u8>) -> NodeTypeModel {
    if eq_nocase(ext, lit("pas")) {
        NodeTypeModel::Module
    } else if is_form_ext(ext) {
        NodeTypeModel::Form
    } else if eq_nocase(ext, lit("dpr")) {
        NodeTypeModel::SourceFile
    } else if eq_nocase(ext, lit("dpk")) {
        NodeTypeModel::Package
    } else {
        NodeTypeModel::SourceFile
    }
}

/// The visual size a file's byte count maps to.
pub open spec fn size_for(bytes: u64) -> u8 {
    if bytes <= 1000 {
        2
    } else if bytes <= 5000 {
        4
    } else if bytes <= 20000 {
        6
    } else if bytes <= 50000 {
        8
    } else {
        10
    }
}

/// An extension this parser can extract from.
pub open spec fn delphi_supported(ext: Seq<u8>) -> bool {
    is_pas_ext(ext) || is_form_ext(ext)
}

/// What parsing one readable, supported Delphi input yields: unit files go
/// through the Pascal extractor, form files through the form extractor.
pub open spec fn delphi_parse_rel(inp: FileInput, pf: ParsedFile) -> bool {
    sf_model(pf.source) == sf_model(inp.source) && pf.facts is Bare && pf.warnings@.len() == 0
        && match inp.content {
        Result::Ok(c) => {
            if is_pas_ext(inp.source.extension@) {
                sym_models(pf.symbols@) == pas_symbols(c@) && dep_models(pf.dependencies@)
                    == pas_uses(c@)
            } else if is_form_ext(inp.source.extension@) {
                sym_models(pf.symbols@) == dfm_syms(c@) && pf.dependencies@.len() == 0
            } else {
                false
            }
        },
        Result::Err(_) => false,
    }
}

/// The failing `(path, message)` pairs among the first `k` inputs: read
/// failures keep their message, readable files with unsupported extensions
/// fail as unsupported.
pub open spec fn delphi_errs(fs: Seq<FileInput>, k: int) -> Seq<(Seq<u8>, Seq<u8>)>
    decreases k,
{
    if k <= 0 || k > fs.len() {
        Seq::empty()
    } else {
        delphi_errs(fs, k - 1) + match fs[k - 1].content {
            Result::Err(m) => seq![(fs[k - 1].source.path@, m@)],
            Result::Ok(_) => {
                if !delphi_supported(fs[k - 1].source.extension@) {
                    seq![
                        (
                            fs[k - 1].source.path@,
                            crate::strategy::unsupported_msg(fs[k - 1].source.extension@),
                        ),
                    ]
                } else {
                    Seq::<(Seq<u8>, Seq<u8>)>::empty()
                }
            },
        }
    }
}

/// The readable, supported inputs among the first `k`, in order.
pub open spec fn delphi_oks(fs: Seq<FileInput>, k: int) -> Seq<FileInput>
    decreases k,
{
    if k <= 0 || k > fs.len() {
        Seq::empty()
    } else {
        delphi_oks(fs, k - 1) + match fs[k - 1].content {
            Result::Ok(_) => {
                if delphi_supported(fs[k - 1].source.extension@) {
                    seq![fs[k - 1]]
                } else {
                    Seq::<FileInput>::empty()
                }
            },
            Result::Err(_) => Seq::<FileInput>::empty(),
        }
    }
}

/// Delphi/Object Pascal project parser.
pub struct DelphiParser {
    pas_parser: PasParser,
    dfm_parser: DfmParser,
}

impl DelphiParser {
    pub fn new() -> (r: Self) {
        DelphiParser { pas_parser: PasParser::new(), dfm_parser: DfmParser::new() }
    }

    /// The node type for a scanned file, from its extension.
    pub fn classify_node_type(&self, file: &SourceFile) -> (r: UnifiedNodeType)
        ensures
            crate::graph::node_type_model(r) == delphi_node_type(file.extension@),
    {
        let pas = litv("pas");
        let dfm = litv("dfm");
        let fmx = litv("fmx");
        let dpr = litv("dpr");
        let dpk = litv("dpk");
        if eq_nocase_x(&file.extension, &pas) {
            UnifiedNodeType::Module
        } else if eq_nocase_x(&file.extension, &dfm) || eq_nocase_x(&file.extension, &fmx) {
            UnifiedNodeType::Form
        } else if eq_nocase_x(&file.extension, &dpr) {
            UnifiedNodeType::SourceFile
        } else if eq_nocase_x(&file.extension, &dpk) {
            UnifiedNodeType::Package
        } else {
            UnifiedNodeType::SourceFile
        }
    }

    /// Parser metadata.
    pub fn info(&self) -> (r: ParserInfo)
        ensures
            r.id@ == lit("delphi"),
            r.project_type == ProjectType::Delphi,
            r.is_available == true,
            views(r.file_extensions@) == seq![
                lit("pas"),
                lit("dfm"),
                lit("fmx"),
                lit("dpr"),
                lit("dpk"),
            ],
            views(r.marker_files@) == seq![lit("*.dpr"), lit("*.dproj")],
            r.marker_dirs@.len() == 0,
            r.primary_color@ == lit("#E31D1D"),
    {
        let file_extensions = vec![litv("pas"), litv("dfm"), litv("fmx"), litv("dpr"), litv("dpk")];
        let marker_files = vec![litv("*.dpr"), litv("*.dproj")];
        proof {
            assert(views(file_extensions@) =~= seq![
                lit("pas"),
                lit("dfm"),
                lit("fmx"),
                lit("dpr"),
                lit("dpk"),
            ]);
            assert(views(marker_files@) =~= seq![lit("*.dpr"), lit("*.dproj")]);
        }
        ParserInfo {
            id: litv("delphi"),
            display_name: litv("Delphi / Object Pascal"),
            description: litv("Parser for Delphi, Lazarus, and Object Pascal projects"),
            version: litv("1.0.0"),
            file_extensions,
            marker_files,
            marker_dirs: Vec::new(),
            project_type: ProjectType::Delphi,
            primary_color: litv("#E31D1D"),
            is_available: true,
        }
    }

    /// The default configuration for Delphi projects.
    pub fn default_config(&self) -> (r: ParserConfig)
        ensures
            views(r.include_extensions@) == seq![lit("pas"), lit("dfm"), lit("fmx"), lit("dpr")],
            views(r.exclude_dirs@) == seq![
                lit("__history"),
                lit("__recovery"),
                lit("Win32"),
                lit("Win64"),
                lit("Debug"),
                lit("Release"),
                lit(".git"),
            ],
            r.encoding@ == lit("utf-8"),
            r.parse_external_deps == false,
            r.max_depth is None,
    {
        let include_extensions = vec![litv("pas"), litv("dfm"), litv("fmx"), litv("dpr")];
        let exclude_dirs = vec![
            litv("__history"),
            litv("__recovery"),
            litv("Win32"),
            litv("Win64"),
            litv("Debug"),
            litv("Release"),
            litv(".git"),
        ];
        proof {
            assert(views(include_extensions@) =~= seq![
                lit("pas"),
                lit("dfm"),
                lit("fmx"),
                lit("dpr"),
            ]);
            assert(views(exclude_dirs@) =~= seq![
                lit("__history"),
                lit("__recovery"),
                lit("Win32"),
                lit("Win64"),
                lit("Debug"),
                lit("Release"),
                lit(".git"),
            ]);
        }
        ParserConfig {
            include_extensions,
            exclude_dirs,
            encoding: litv("utf-8"),
            parse_external_deps: false,
            max_depth: None,
            language_options: Vec::new(),
        }
    }

    /// Advertised capabilities.
    pub fn capabilities(&self) -> (r: ParserCapabilities)
        ensures
            r.supports_incremental == false,
            r.supports_cancellation == true,
            views(r.node_types@) == seq![
                lit("module"),
                lit("form"),
                lit("class"),
                lit("interface"),
                lit("function"),
                lit("procedure"),
            ],
            views(r.edge_types@) == seq![
                lit("uses"),
                lit("extends"),
                lit("implements"),
                lit("file_pair"),
            ],
    {
        let node_types = vec![
            litv("module"),
            litv("form"),
            litv("class"),
            litv("interface"),
            litv("function"),
            litv("procedure"),
        ];
        let edge_types = vec![litv("uses"), litv("extends"), litv("implements"), litv("file_pair")];
        let available_metrics = vec![litv("lines_of_code"), litv("cyclomatic_complexity")];
        proof {
            assert(views(node_types@) =~= seq![
                lit("module"),
                lit("form"),
                lit("class"),
                lit("interface"),
                lit("function"),
                lit("procedure"),
            ]);
            assert(views(edge_types@) =~= seq![
                lit("uses"),
                lit("extends"),
                lit("implements"),
                lit("file_pair"),
            ]);
        }
        ParserCapabilities {
            node_types,
            edge_types,
            supports_incremental: false,
            supports_cancellation: true,
            available_metrics,
        }
    }

    /// A parser-local re-derivation of the Delphi detection score, used as a
    /// self-check against the detector.
    pub fn detect_confidence(&self, inp: &DetectInput) -> (r: u32)
        ensures
            r as int == delphi_score(*inp),
    {
        let (score, _markers) = crate::detection::delphi_evidence(inp);
        score
    }

    /// Whether this parser handles a file, by extension allow-list.
    pub fn can_handle_file(&self, path: &Vec<u8>) -> (r: bool)
        ensures
            r == (is_pas_ext(crate::source_file::path_ext(path@)) || is_form_ext(
                crate::source_file::path_ext(path@),
            )),
    {
        let base = crate::source_file::base_name_x(path);
        let e = crate::source_file::ext_of_x(&base);
        let pas = litv("pas");
        let dfm = litv("dfm");
        let fmx = litv("fmx");
        let dpr = litv("dpr");
        let dpk = litv("dpk");
        eq_nocase_x(&e, &pas) || eq_nocase_x(&e, &dfm) || eq_nocase_x(&e, &fmx) || eq_nocase_x(
            &e,
            &dpr,
        ) || eq_nocase_x(&e, &dpk)
    }

    /// Parse a single file, dispatching by extension; a file whose
    /// extension has no extractor fails with an unsupported-file error that
    /// names the extension, if and only if the extension is unsupported.
    pub fn parse_file(&self, file: &SourceFile, content: &Vec<u8>) -> (r: Result<
        ParsedFile,
        crate::strategy::ParseError,
    >)
        ensures
            match r {
                Result::Ok(pf) => delphi_supported(file.extension@) && delphi_parse_rel(
                    FileInput { source: *file, content: Result::Ok(*content) },
                    pf,
                ),
                Result::Err(e) => !delphi_supported(file.extension@)
                    && crate::strategy::error_message(e) == crate::strategy::unsupported_msg(
                    file.extension@,
                ),
            },
    {
        let pas = litv("pas");
        let dpr = litv("dpr");
        let dpk = litv("dpk");
        let dfm = litv("dfm");
        let fmx = litv("fmx");
        if eq_nocase_x(&file.extension, &pas) || eq_nocase_x(&file.extension, &dpr) || eq_nocase_x(
            &file.extension,
            &dpk,
        ) {
            Ok(self.pas_parser.parse(file, content))
        } else if eq_nocase_x(&file.extension, &dfm) || eq_nocase_x(&file.extension, &fmx) {
            Ok(self.dfm_parser.parse(file, content))
        } else {
            let ext = slice_of(&file.extension, 0, file.extension.len());
            proof {
                assert(ext@ =~= file.extension@);
            }
            Err(crate::strategy::ParseError::UnsupportedFile(ext))
        }
    }

    /// Parse a whole project sequentially: every readable, supported file
    /// is parsed and appended; every unreadable or unsupported file is
    /// recorded as a path/error pair; one bad file never aborts the scan.
    /// Both counters grow monotonically: `total_processed` counts every
    /// input, `total_errors` the failures.
    pub fn parse_project(&self, files: &Vec<FileInput>) -> (r: ParseResult)
        ensures
            r.total_processed == files@.len(),
            r.total_errors == delphi_errs(files@, files@.len() as int).len(),
            r.files@.len() == delphi_oks(files@, files@.len() as int).len(),
            r.files@.len() + r.total_errors == files@.len(),
            pair_views(r.errors@) == delphi_errs(files@, files@.len() as int),
            forall|j: int|
                0 <= j < r.files@.len() ==> delphi_parse_rel(
                    delphi_oks(files@, files@.len() as int)[j],
                    #[trigger] r.files@[j],
                ),
    {
        let mut result = ParseResult::new();
        let mut k: usize = 0;
        while k < files.len()
            invariant
                0 <= k <= files@.len(),
                result.total_processed == k,
                result.total_errors == delphi_errs(files@, k as int).len(),
                result.files@.len() == delphi_oks(files@, k as int).len(),
                result.files@.len() + result.total_errors == k,
                pair_views(result.errors@) == delphi_errs(files@, k as int),
                forall|j: int|
                    0 <= j < result.files@.len() ==> delphi_parse_rel(
                        delphi_oks(files@, k as int)[j],
                        #[trigger] result.files@[j],
                    ),
            decreases files@.len() - k,
        {
            let inp = &files[k];
            match &inp.content {
                Result::Ok(c) => {
                    match self.parse_file(&inp.source, c) {
                        Result::Ok(parsed) => {
                            let ghost pre = result.files@;
                            result.add_parsed_file(parsed);
                            proof {
                                assert(delphi_oks(files@, k + 1) =~= delphi_oks(files@, k as int)
                                    + seq![files@[k as int]]);
                                assert(delphi_errs(files@, k + 1) =~= delphi_errs(
                                    files@,
                                    k as int,
                                ));
                                assert(delphi_parse_rel(files@[k as int], parsed));
                                assert forall|j: int|
                                    0 <= j < result.files@.len() implies delphi_parse_rel(
                                    delphi_oks(files@, k + 1)[j],
                                    #[trigger] result.files@[j],
                                ) by {
                                    if j < pre.len() {
                                        assert(result.files@[j] == pre[j]);
                                        assert(delphi_oks(files@, k + 1)[j] == delphi_oks(
                                            files@,
                                            k as int,
                                        )[j]);
                                    } else {
                                        assert(result.files@[j] == parsed);
                                        assert(delphi_oks(files@, k + 1)[j] == files@[k as int]);
                                    }
                                }
                            }
                        },
                        Result::Err(e) => {
                            let path = slice_of(&inp.source.path, 0, inp.source.path.len());
                            let message = e.message();
                            let ghost pre = result.errors@;
                            result.add_error(path, message);
                            proof {
                                assert(path@ =~= files@[k as int].source.path@);
                                lemma_pair_views_push(pre, (path, message));
                                assert(delphi_errs(files@, k + 1) =~= delphi_errs(
                                    files@,
                                    k as int,
                                ).push(
                                    (
                                        files@[k as int].source.path@,
                                        crate::strategy::unsupported_msg(
                                            files@[k as int].source.extension@,
                                        ),
                                    ),
                                ));
                                assert(pair_views(result.errors@) =~= delphi_errs(
                                    files@,
                                    k + 1,
                                ));
                                assert(delphi_oks(files@, k + 1) =~= delphi_oks(files@, k as int));
                            }
                        },
                    }
                },
                Result::Err(m) => {
                    let path = slice_of(&inp.source.path, 0, inp.source.path.len());
                    let message = slice_of(m, 0, m.len());
                    let ghost pre = result.errors@;
                    result.add_error(path, message);
                    proof {
                        assert(path@ =~= files@[k as int].source.path@);
                        assert(message@ =~= m@);
                        lemma_pair_views_push(pre, (path, message));
                        assert(delphi_errs(files@, k + 1) =~= delphi_errs(files@, k as int).push(
                            (files@[k as int].source.path@, m@),
                        ));
                        assert(pair_views(result.errors@) =~= delphi_errs(files@, k + 1));
                        assert(delphi_oks(files@, k + 1) =~= delphi_oks(files@, k as int));
                    }
                },
            }
            k = k + 1;
        }
        result
    }
}

} // verus!

verus! {

// ---------------------------------------------------------------------------
// Graph assembly
// ---------------------------------------------------------------------------

use crate::facts::Dependency;

/// The node one parsed Delphi file yields.
pub open spec fn delphi_file_node(pf: ParsedFile) -> NodeModel {
    NodeModel {
        id: id_of(pf.source.path@),
        node_type: delphi_node_type(pf.source.extension@),
        name: pf.source.name@,
        qualified_name: pf.source.name@,
        label: pf.source.name@,
        size: size_for(pf.source.size_bytes),
        language: lit("delphi"),
        file_path: Option::Some(pf.source.path@),
        line_start: Option::None,
        line_end: Option::None,
        metadata: default_meta_model(),
    }
}

/// The class nodes a file's symbols yield: one per class or interface
/// symbol, with an id hashed from `path::name`.
pub open spec fn delphi_sym_nodes(path: Seq<u8>, syms: Seq<Symbol>, j: int) -> Seq<NodeModel>
    decreases syms.len() - j,
{
    if j < 0 || j >= syms.len() {
        Seq::empty()
    } else {
        let rest = delphi_sym_nodes(path, syms, j + 1);
        if syms[j].symbol_type == SymbolType::Class || syms[j].symbol_type
            == SymbolType::Interface {
            seq![
                NodeModel {
                    id: id_of(path + lit("::") + syms[j].name@),
                    node_type: NodeTypeModel::Class,
                    name: syms[j].name@,
                    qualified_name: syms[j].name@,
                    label: syms[j].name@,
                    size: 4,
                    language: lit("delphi"),
                    file_path: Option::Some(path),
                    line_start: Option::None,
                    line_end: Option::None,
                    metadata: default_meta_model(),
                },
            ] + rest
        } else {
            rest
        }
    }
}

/// All nodes of a Delphi parse result, in file order: one node per file,
/// then one per qualifying symbol.
pub open spec fn delphi_nodes_from(files: Seq<ParsedFile>, k: int) -> Seq<NodeModel>
    decreases files.len() - k,
{
    if k < 0 || k >= files.len() {
        Seq::empty()
    } else {
        seq![delphi_file_node(files[k])] + delphi_sym_nodes(
            files[k].source.path@,
            files[k].symbols@,
            0,
        ) + delphi_nodes_from(files, k + 1)
    }
}

pub open spec fn delphi_nodes(files: Seq<ParsedFile>) -> Seq<NodeModel> {
    delphi_nodes_from(files, 0)
}

/// The uses edges of one file: the target id is always synthesized from the
/// raw dependency string, whether or not a matching node exists, so these
/// edges may dangle.
pub open spec fn delphi_dep_edges_one(path: Seq<u8>, deps: Seq<Dependency>, j: int) -> Seq<
    EdgeModel,
>
    decreases deps.len() - j,
{
    if j < 0 || j >= deps.len() {
        Seq::empty()
    } else {
        seq![
            EdgeModel {
                id: plain_edge_id(id_of(path), id_of(deps[j].target@), EdgeTypeModel::Uses),
                source: id_of(path),
                target: id_of(deps[j].target@),
                edge_type: EdgeTypeModel::Uses,
                label: Option::Some(deps[j].target@),
                detail: Option::None,
                bidirectional: false,
                metadata: default_edge_meta_model(),
            },
        ] + delphi_dep_edges_one(path, deps, j + 1)
    }
}

pub open spec fn delphi_dep_edges(files: Seq<ParsedFile>, k: int) -> Seq<EdgeModel>
    decreases files.len() - k,
{
    if k < 0 || k >= files.len() {
        Seq::empty()
    } else {
        delphi_dep_edges_one(files[k].source.path@, files[k].dependencies@, 0) + delphi_dep_edges(
            files,
            k + 1,
        )
    }
}

pub open spec fn pf_is_pas(pf: ParsedFile) -> bool {
    eq_nocase(pf.source.extension@, lit("pas"))
}

pub open spec fn pf_is_form(pf: ParsedFile) -> bool {
    is_form_ext(pf.source.extension@)
}

/// The form partners of one unit file, in file order.
pub open spec fn pair_inner(p: ParsedFile, files: Seq<ParsedFile>, j: int) -> Seq<
    (Seq<u8>, Seq<u8>),
>
    decreases files.len() - j,
{
    if j < 0 || j >= files.len() {
        Seq::empty()
    } else {
        let rest = pair_inner(p, files, j + 1);
        if pf_is_form(files[j]) && eq_nocase(
            stem_of(p.source.name@),
            stem_of(files[j].source.name@),
        ) {
            seq![(p.source.path@, files[j].source.path@)] + rest
        } else {
            rest
        }
    }
}

/// The unit/form file pairs of a parse result: unit and form sharing a
/// case-insensitive file stem.
pub open spec fn pairs_from(files: Seq<ParsedFile>, i: int) -> Seq<(Seq<u8>, Seq<u8>)>
    decreases files.len() - i,
{
    if i < 0 || i >= files.len() {
        Seq::empty()
    } else {
        let rest = pairs_from(files, i + 1);
        if pf_is_pas(files[i]) {
            pair_inner(files[i], files, 0) + rest
        } else {
            rest
        }
    }
}

pub open spec fn delphi_pair_edges(pairs: Seq<(Seq<u8>, Seq<u8>)>, j: int) -> Seq<EdgeModel>
    decreases pairs.len() - j,
{
    if j < 0 || j >= pairs.len() {
        Seq::empty()
    } else {
        seq![new_edge_model(id_of(pairs[j].0), id_of(pairs[j].1), EdgeTypeModel::FilePair)]
            + delphi_pair_edges(pairs, j + 1)
    }
}

/// All edges of a Delphi parse result: per-file uses edges, then file-pair
/// edges.
pub open spec fn delphi_edges(files: Seq<ParsedFile>) -> Seq<EdgeModel> {
    delphi_dep_edges(files, 0) + delphi_pair_edges(pairs_from(files, 0), 0)
}

impl DelphiParser {
    /// Generate the unified nodes of a parse result.
    pub fn generate_nodes(&self, pr: &ParseResult) -> (nodes: Vec<UnifiedNode>)
        ensures
            node_models(nodes@) == delphi_nodes(pr.files@),
    {
        let ghost filesv = pr.files@;
        let mut nodes: Vec<UnifiedNode> = Vec::new();
        let mut k: usize = 0;
        while k < pr.files.len()
            invariant
                0 <= k <= filesv.len(),
                filesv == pr.files@,
                node_models(nodes@) + delphi_nodes_from(filesv, k as int) == delphi_nodes(filesv),
            decreases filesv.len() - k,
        {
            let pf = &pr.files[k];
            let file_id = generate_id(&pf.source.path);
            let node_type = self.classify_node_type(&pf.source);
            let name = slice_of(&pf.source.name, 0, pf.source.name.len());
            let path = slice_of(&pf.source.path, 0, pf.source.path.len());
            let size = if pf.source.size_bytes <= 1000 {
                2
            } else if pf.source.size_bytes <= 5000 {
                4
            } else if pf.source.size_bytes <= 20000 {
                6
            } else if pf.source.size_bytes <= 50000 {
                8
            } else {
                10
            };
            let node = UnifiedNode::new(file_id, node_type, name).with_file(path).with_language(
                litv("delphi"),
            ).with_size(size);
            let ghost pre = nodes@;
            nodes.push(node);
            proof {
                lemma_node_models_push(pre, node);
                assert(node_model(node) =~= delphi_file_node(filesv[k as int]));
            }
            let ghost symsv = pf.symbols@;
            let mut j: usize = 0;
            while j < pf.symbols.len()
                invariant
                    0 <= j <= symsv.len(),
                    0 <= k < filesv.len(),
                    filesv == pr.files@,
                    symsv == pr.files@[k as int].symbols@,
                    pf == &pr.files@[k as int],
                    node_models(nodes@) + delphi_sym_nodes(
                        filesv[k as int].source.path@,
                        symsv,
                        j as int,
                    ) + delphi_nodes_from(filesv, k + 1) == delphi_nodes(filesv),
                decreases symsv.len() - j,
            {
                let sym = &pf.symbols[j];
                let is_classy = match sym.symbol_type {
                    SymbolType::Class => true,
                    SymbolType::Interface => true,
                    _ => false,
                };
                if is_classy {
                    let sep = litv("::");
                    let a = concat(&pf.source.path, &sep);
                    let key = concat(&a, &sym.name);
                    let class_id = generate_id(&key);
                    let sym_name = slice_of(&sym.name, 0, sym.name.len());
                    let sym_path = slice_of(&pf.source.path, 0, pf.source.path.len());
                    let class_node = UnifiedNode::new(
                        class_id,
                        UnifiedNodeType::Class,
                        sym_name,
                    ).with_file(sym_path).with_language(litv("delphi")).with_size(4);
                    let ghost pre2 = nodes@;
                    nodes.push(class_node);
                    proof {
                        lemma_node_models_push(pre2, class_node);
                        assert(key@ =~= filesv[k as int].source.path@ + lit("::") + symsv[j as int].name@);
                        assert(node_model(class_node) =~= delphi_sym_nodes(
                            filesv[k as int].source.path@,
                            symsv,
                            j as int,
                        )[0]);
                        assert(node_models(nodes@) + delphi_sym_nodes(
                            filesv[k as int].source.path@,
                            symsv,
                            j + 1,
                        ) + delphi_nodes_from(filesv, k + 1) =~= delphi_nodes(filesv));
                    }
                } else {
                    proof {
                        assert(delphi_sym_nodes(filesv[k as int].source.path@, symsv, j as int)
                            == delphi_sym_nodes(filesv[k as int].source.path@, symsv, j + 1));
                    }
                }
                j = j + 1;
            }
            proof {
                assert(delphi_sym_nodes(filesv[k as int].source.path@, symsv, symsv.len() as int)
                    =~= Seq::<NodeModel>::empty());
                assert(node_models(nodes@) + delphi_nodes_from(filesv, k + 1) =~= delphi_nodes(
                    filesv,
                ));
            }
            k = k + 1;
        }
        proof {
            assert(delphi_nodes_from(filesv, filesv.len() as int) =~= Seq::<NodeModel>::empty());
            assert(node_models(nodes@) =~= delphi_nodes(filesv));
        }
        nodes
    }

    /// Detect unit/form file pairs among the parsed files: a unit and a
    /// form sharing a case-insensitive file stem.
    pub fn detect_file_pairs(&self, pr: &ParseResult) -> (pairs: Vec<(Vec<u8>, Vec<u8>)>)
        ensures
            pair_views(pairs@) == pairs_from(pr.files@, 0),
    {
        let ghost filesv = pr.files@;
        let mut pairs: Vec<(Vec<u8>, Vec<u8>)> = Vec::new();
        let pas = litv("pas");
        let dfm = litv("dfm");
        let fmx = litv("fmx");
        let mut i: usize = 0;
        while i < pr.files.len()
            invariant
                0 <= i <= filesv.len(),
                filesv == pr.files@,
                pas@ == lit("pas"),
                dfm@ == lit("dfm"),
                fmx@ == lit("fmx"),
                pair_views(pairs@) + pairs_from(filesv, i as int) == pairs_from(filesv, 0),
            decreases filesv.len() - i,
        {
            let p = &pr.files[i];
            if eq_nocase_x(&p.source.extension, &pas) {
                let p_stem = stem_x(&p.source.name);
                let mut j: usize = 0;
                while j < pr.files.len()
                    invariant
                        0 <= j <= filesv.len(),
                        0 <= i < filesv.len(),
                        filesv == pr.files@,
                        dfm@ == lit("dfm"),
                        fmx@ == lit("fmx"),
                        p == &pr.files@[i as int],
                        p_stem@ == stem_of(filesv[i as int].source.name@),
                        pf_is_pas(filesv[i as int]),
                        pair_views(pairs@) + pair_inner(filesv[i as int], filesv, j as int)
                            + pairs_from(filesv, i + 1) == pairs_from(filesv, 0),
                    decreases filesv.len() - j,
                {
                    let f = &pr.files[j];
                    if eq_nocase_x(&f.source.extension, &dfm) || eq_nocase_x(
                        &f.source.extension,
                        &fmx,
                    ) {
                        let f_stem = stem_x(&f.source.name);
                        if crate::text::eq_nocase_x(&p_stem, &f_stem) {
                            let pair = (
                                slice_of(&p.source.path, 0, p.source.path.len()),
                                slice_of(&f.source.path, 0, f.source.path.len()),
                            );
                            let ghost pre = pairs@;
                            pairs.push(pair);
                            proof {
                                lemma_pair_views_push(pre, pair);
                                assert(pair.0@ =~= filesv[i as int].source.path@);
                                assert(pair.1@ =~= filesv[j as int].source.path@);
                                assert(pair_views(pairs@) + pair_inner(
                                    filesv[i as int],
                                    filesv,
                                    j + 1,
                                ) + pairs_from(filesv, i + 1) =~= pairs_from(filesv, 0));
                            }
                        } else {
                            proof {
                                assert(pair_inner(filesv[i as int], filesv, j as int)
                                    == pair_inner(filesv[i as int], filesv, j + 1));
                            }
                        }
                    } else {
                        proof {
                            assert(pair_inner(filesv[i as int], filesv, j as int) == pair_inner(
                                filesv[i as int],
                                filesv,
                                j + 1,
                            ));
                        }
                    }
                    j = j + 1;
                }
                proof {
                    assert(pair_inner(filesv[i as int], filesv, filesv.len() as int) =~= Seq::<
                        (Seq<u8>, Seq<u8>),
                    >::empty());
                    assert(pair_views(pairs@) + pairs_from(filesv, i + 1) =~= pairs_from(
                        filesv,
                        0,
                    ));
                }
            } else {
                proof {
                    assert(pairs_from(filesv, i as int) == pairs_from(filesv, i + 1));
                }
            }
            i = i + 1;
        }
        proof {
            assert(pairs_from(filesv, filesv.len() as int) =~= Seq::<(Seq<u8>, Seq<u8>)>::empty());
            assert(pair_views(pairs@) =~= pairs_from(filesv, 0));
        }
        pairs
    }

    /// Generate the unified edges of a parse result: uses edges (target ids
    /// synthesized from the raw dependency strings, tolerating dangling
    /// targets) and unit/form file-pair edges. The node list plays no role
    /// in Delphi edge resolution.
    pub fn generate_edges(&self, pr: &ParseResult, _nodes: &Vec<UnifiedNode>) -> (edges: Vec<
        UnifiedEdge,
    >)
        ensures
            edge_models(edges@) == delphi_edges(pr.files@),
    {
        let ghost filesv = pr.files@;
        let mut edges: Vec<UnifiedEdge> = Vec::new();
        let mut k: usize = 0;
        while k < pr.files.len()
            invariant
                0 <= k <= filesv.len(),
                filesv == pr.files@,
                edge_models(edges@) + delphi_dep_edges(filesv, k as int) == delphi_dep_edges(
                    filesv,
                    0,
                ),
            decreases filesv.len() - k,
        {
            let pf = &pr.files[k];
            let source_id = generate_id(&pf.source.path);
            let ghost depsv = pf.dependencies@;
            let mut j: usize = 0;
            while j < pf.dependencies.len()
                invariant
                    0 <= j <= depsv.len(),
                    0 <= k < filesv.len(),
                    filesv == pr.files@,
                    depsv == pr.files@[k as int].dependencies@,
                    pf == &pr.files@[k as int],
                    source_id@ == id_of(filesv[k as int].source.path@),
                    edge_models(edges@) + delphi_dep_edges_one(
                        filesv[k as int].source.path@,
                        depsv,
                        j as int,
                    ) + delphi_dep_edges(filesv, k + 1) == delphi_dep_edges(filesv, 0),
                decreases depsv.len() - j,
            {
                let dep = &pf.dependencies[j];
                let target_id = generate_id(&dep.target);
                let label = slice_of(&dep.target, 0, dep.target.len());
                let src = slice_of(&source_id, 0, source_id.len());
                let edge = UnifiedEdge::new(src, target_id, UnifiedEdgeType::Uses).with_label(
                    label,
                );
                let ghost pre = edges@;
                edges.push(edge);
                proof {
                    lemma_edge_models_push(pre, edge);
                    assert(edge_model(edge) =~= delphi_dep_edges_one(
                        filesv[k as int].source.path@,
                        depsv,
                        j as int,
                    )[0]);
                    assert(edge_models(edges@) + delphi_dep_edges_one(
                        filesv[k as int].source.path@,
                        depsv,
                        j + 1,
                    ) + delphi_dep_edges(filesv, k + 1) =~= delphi_dep_edges(filesv, 0));
                }
                j = j + 1;
            }
            proof {
                assert(delphi_dep_edges_one(filesv[k as int].source.path@, depsv, depsv.len() as int)
                    =~= Seq::<EdgeModel>::empty());
                assert(edge_models(edges@) + delphi_dep_edges(filesv, k + 1)
                    =~= delphi_dep_edges(filesv, 0));
            }
            k = k + 1;
        }
        proof {
            assert(delphi_dep_edges(filesv, filesv.len() as int) =~= Seq::<EdgeModel>::empty());
            assert(edge_models(edges@) =~= delphi_dep_edges(filesv, 0));
        }
        let pairs = self.detect_file_pairs(pr);
        let ghost pairsv = pair_views(pairs@);
        let mut m: usize = 0;
        while m < pairs.len()
            invariant
                0 <= m <= pairs@.len(),
                pairsv == pair_views(pairs@),
                pairsv == pairs_from(pr.files@, 0),
                filesv == pr.files@,
                edge_models(edges@) + delphi_pair_edges(pairsv, m as int) == delphi_dep_edges(
                    filesv,
                    0,
                ) + delphi_pair_edges(pairsv, 0),
            decreases pairs@.len() - m,
        {
            let pas_id = generate_id(&pairs[m].0);
            let dfm_id = generate_id(&pairs[m].1);
            let edge = UnifiedEdge::new(pas_id, dfm_id, UnifiedEdgeType::FilePair);
            let ghost pre = edges@;
            edges.push(edge);
            proof {
                lemma_edge_models_push(pre, edge);
                assert(pair_views(pairs@)[m as int] == (pairs@[m as int].0@, pairs@[m as int].1@));
                assert(edge_model(edge) =~= delphi_pair_edges(pairsv, m as int)[0]);
                assert(edge_models(edges@) + delphi_pair_edges(pairsv, m + 1) =~= delphi_dep_edges(
                    filesv,
                    0,
                ) + delphi_pair_edges(pairsv, 0));
            }
            m = m + 1;
        }
        proof {
            assert(delphi_pair_edges(pairsv, pairsv.len() as int) =~= Seq::<EdgeModel>::empty());
            assert(edge_models(edges@) =~= delphi_edges(filesv));
        }
        edges
    }

    /// Build the complete graph: nodes, then edges resolved against them.
    pub fn build_graph(&self, pr: &ParseResult) -> (g: UnifiedGraph)
        ensures
            node_models(g.nodes@) == delphi_nodes(pr.files@),
            edge_models(g.edges@) == delphi_edges(pr.files@),
    {
        let nodes = self.generate_nodes(pr);
        let edges = self.generate_edges(pr, &nodes);
        UnifiedGraph { nodes, edges, metadata: crate::graph::GraphMetadata::default() }
    }
}

} // verus!
