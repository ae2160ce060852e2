//! The parser registry: an immutable-after-construction catalog of parser
//! descriptors, built once and passed by reference wherever parser lookup
//! is needed.

use vstd::prelude::*;
use crate::project_type::ProjectType;
use crate::text::lit;
use crate::text::litv;
use crate::text::views;
use crate::text::bytes_eq;

verus! {

/// Information about a registered parser.
#[derive(Debug, Clone)]
pub struct ParserInfo {
    /// Unique parser id
    pub id: Vec<u8>,
    /// Display name
    pub display_name: Vec<u8>,
    /// Description
    pub description: Vec<u8>,
    /// Version
    pub version: Vec<u8>,
    /// Supported file extensions
    pub file_extensions: Vec<Vec<u8>>,
    /// Marker files for detection
    pub marker_files: Vec<Vec<u8>>,
    /// Marker directories for detection
    pub marker_dirs: Vec<Vec<u8>>,
    /// Project type this parser handles
    pub project_type: ProjectType,
    /// Primary color (hex)
    pub primary_color: Vec<u8>,
    /// Whether the parser is currently available
    pub is_available: bool,
}

/// The values behind a list of parser references.
pub open spec fn deref_infos(s: Seq<&ParserInfo>) -> Seq<ParserInfo> {
    s.map_values(|p: &ParserInfo| *p)
}

/// The available entries among the first `k` registered parsers, in order.
pub open spec fn available_sub(s: Seq<ParserInfo>, k: int) -> Seq<ParserInfo>
    decreases k,
{
    if k <= 0 || k > s.len() {
        Seq::empty()
    } else {
        available_sub(s, k - 1) + (if s[k - 1].is_available {
            seq![s[k - 1]]
        } else {
            Seq::<ParserInfo>::empty()
        })
    }
}

/// Parser registry: stores information about available parsers.
pub struct ParserRegistry {
    parsers: Vec<ParserInfo>,
}

impl ParserRegistry {
    /// The registered parsers, for specifications.
    pub closed spec fn parsers_spec(&self) -> Seq<ParserInfo> {
        self.parsers@
    }

    /// Create a new empty registry.
    pub fn new() -> (r: Self)
        ensures
            r.parsers_spec().len() == 0,
    {
        ParserRegistry { parsers: Vec::new() }
    }

    /// Create the registry with the default parsers: Delphi and Laravel
    /// available, Node.js registered but not yet available.
    pub fn with_defaults() -> (r: Self)
        ensures
            r.parsers_spec().len() == 3,
            r.parsers_spec()[0].id@ == lit("delphi"),
            r.parsers_spec()[0].project_type == ProjectType::Delphi,
            r.parsers_spec()[0].is_available == true,
            views(r.parsers_spec()[0].marker_files@) == seq![lit("*.dpr"), lit("*.dproj")],
            r.parsers_spec()[1].id@ == lit("laravel"),
            r.parsers_spec()[1].project_type == ProjectType::Laravel,
            r.parsers_spec()[1].is_available == true,
            r.parsers_spec()[2].id@ == lit("nodejs"),
            r.parsers_spec()[2].project_type == ProjectType::NodeJs,
            r.parsers_spec()[2].is_available == false,
    {
        let mut registry = Self::new();
        let delphi_markers = vec![litv("*.dpr"), litv("*.dproj")];
        proof {
            assert(views(delphi_markers@) =~= seq![lit("*.dpr"), lit("*.dproj")]);
        }
        registry.register(
            ParserInfo {
                id: litv("delphi"),
                display_name: litv("Delphi / Object Pascal"),
                description: litv("Parser for Delphi and Lazarus projects"),
                version: litv("1.0.0"),
                file_extensions: vec![
                    litv("pas"),
                    litv("dfm"),
                    litv("fmx"),
                    litv("dpr"),
                    litv("dpk"),
                ],
                marker_files: delphi_markers,
                marker_dirs: Vec::new(),
                project_type: ProjectType::Delphi,
                primary_color: litv("#E31D1D"),
                is_available: true,
            },
        );
        registry.register(
            ParserInfo {
                id: litv("laravel"),
                display_name: litv("Laravel (PHP)"),
                description: litv("Parser for Laravel PHP framework projects"),
                version: litv("1.0.0"),
                file_extensions: vec![litv("php")],
                marker_files: vec![litv("composer.json"), litv("artisan")],
                marker_dirs: vec![litv("app/Http/Controllers"), litv("resources/views")],
                project_type: ProjectType::Laravel,
                primary_color: litv("#FF2D20"),
                is_available: true,
            },
        );
        registry.register(
            ParserInfo {
                id: litv("nodejs"),
                display_name: litv("Node.js / TypeScript"),
                description: litv("Parser for Node.js and TypeScript projects"),
                version: litv("0.1.0"),
                file_extensions: vec![litv("js"), litv("ts"), litv("jsx"), litv("tsx")],
                marker_files: vec![litv("package.json"), litv("tsconfig.json")],
                marker_dirs: vec![litv("node_modules")],
                project_type: ProjectType::NodeJs,
                primary_color: litv("#339933"),
                is_available: false,
            },
        );
        registry
    }

    /// Register a new parser.
    pub fn register(&mut self, info: ParserInfo)
        ensures
            final(self).parsers_spec() == old(self).parsers_spec().push(info),
    {
        self.parsers.push(info);
    }

    /// Get the first registered parser with the given id.
    pub fn get(&self, id: &Vec<u8>) -> (r: Option<&ParserInfo>)
        ensures
            match r {
                Option::Some(p) => exists|k: int|
                    0 <= k < self.parsers_spec().len() && *p == self.parsers_spec()[k] && p.id@
                        == id@ && forall|m: int|
                        0 <= m < k ==> (#[trigger] self.parsers_spec()[m]).id@ != id@,
                Option::None => forall|k: int|
                    0 <= k < self.parsers_spec().len() ==> (#[trigger] self.parsers_spec()[k]).id@
                        != id@,
            },
    {
        let mut k: usize = 0;
        while k < self.parsers.len()
            invariant
                0 <= k <= self.parsers@.len(),
                forall|m: int| 0 <= m < k ==> (#[trigger] self.parsers@[m]).id@ != id@,
            decreases self.parsers@.len() - k,
        {
            if bytes_eq(&self.parsers[k].id, id) {
                let p = &self.parsers[k];
                proof {
                    assert(*p == self.parsers_spec()[k as int] && p.id@ == id@ && forall|m: int|
                        0 <= m < k ==> (#[trigger] self.parsers_spec()[m]).id@ != id@);
                }
                return Some(p);
            }
            k = k + 1;
        }
        None
    }

    /// Get the first registered parser for a project type.
    pub fn get_for_type(&self, project_type: &ProjectType) -> (r: Option<&ParserInfo>)
        ensures
            match r {
                Option::Some(p) => exists|k: int|
                    0 <= k < self.parsers_spec().len() && *p == self.parsers_spec()[k]
                        && p.project_type == *project_type && forall|m: int|
                        0 <= m < k ==> (#[trigger] self.parsers_spec()[m]).project_type
                            != *project_type,
                Option::None => forall|k: int|
                    0 <= k < self.parsers_spec().len() ==> (#[trigger] self.parsers_spec()[k]).project_type != *project_type,
            },
    {
        let mut k: usize = 0;
        while k < self.parsers.len()
            invariant
                0 <= k <= self.parsers@.len(),
                forall|m: int|
                    0 <= m < k ==> (#[trigger] self.parsers@[m]).project_type != *project_type,
            decreases self.parsers@.len() - k,
        {
            if self.parsers[k].project_type == *project_type {
                let p = &self.parsers[k];
                proof {
                    assert(*p == self.parsers_spec()[k as int] && forall|m: int|
                        0 <= m < k ==> (#[trigger] self.parsers_spec()[m]).project_type
                            != *project_type);
                }
                return Some(p);
            }
            k = k + 1;
        }
        None
    }

    /// All registered parsers.
    pub fn list(&self) -> (r: &Vec<ParserInfo>)
        ensures
            r@ == self.parsers_spec(),
    {
        &self.parsers
    }

    /// Only the available parsers: exactly the available subsequence of the
    /// registered list, in registration order.
    pub fn list_available(&self) -> (r: Vec<&ParserInfo>)
        ensures
            deref_infos(r@) == available_sub(self.parsers_spec(), self.parsers_spec().len() as int),
    {
        let mut out: Vec<&ParserInfo> = Vec::new();
        let mut k: usize = 0;
        while k < self.parsers.len()
            invariant
                0 <= k <= self.parsers@.len(),
                deref_infos(out@) == available_sub(self.parsers_spec(), k as int),
            decreases self.parsers@.len() - k,
        {
            if self.parsers[k].is_available {
                let ghost pre = out@;
                out.push(&self.parsers[k]);
                proof {
                    assert(deref_infos(out@) =~= deref_infos(pre).push(
                        self.parsers_spec()[k as int],
                    ));
                    assert(deref_infos(out@) =~= available_sub(self.parsers_spec(), k + 1));
                }
            } else {
                proof {
                    assert(available_sub(self.parsers_spec(), k as int) =~= available_sub(
                        self.parsers_spec(),
                        k + 1,
                    ));
                }
            }
            k = k + 1;
        }
        out
    }
}

impl Default for ParserRegistry {
    fn default() -> (r: Self)
        ensures
            r.parsers_spec().len() == 3,
    {
        Self::with_defaults()
    }
}

} // verus!
