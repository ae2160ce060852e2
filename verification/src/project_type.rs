//! The closed set of project ecosystems the detector can recognize.

use vstd::prelude::*;
use crate::text::lit;
use crate::text::litv;
use crate::text::views;

verus! {

/// Supported project types.
#[derive(Debug, Clone, Copy, PartialEq, Eq, Hash, Structural)]
pub enum ProjectType {
    /// Delphi/Object Pascal projects
    Delphi,
    /// Laravel PHP framework
    Laravel,
    /// Node.js / TypeScript projects
    NodeJs,
    /// Generic PHP (non-Laravel)
    Php,
    /// C# / .NET projects
    CSharp,
    /// Java projects
    Java,
    /// Python projects
    Python,
    /// Go projects
    Go,
    /// Rust projects
    RustLang,
    /// Unknown/unsupported project type
    Unknown,
}

impl Default for ProjectType {
    fn default() -> (r: Self)
        ensures
            r == ProjectType::Unknown,
    {
        ProjectType::Unknown
    }
}

pub open spec fn extensions_spec(t: ProjectType) -> Seq<Seq<u8>> {
    match t {
        ProjectType::Delphi => seq![
            lit("pas"),
            lit("dfm"),
            lit("fmx"),
            lit("dpr"),
            lit("dpk"),
            lit("dproj"),
        ],
        ProjectType::Laravel => seq![lit("php")],
        ProjectType::Php => seq![lit("php")],
        ProjectType::NodeJs => seq![
            lit("js"),
            lit("ts"),
            lit("jsx"),
            lit("tsx"),
            lit("mjs"),
            lit("cjs"),
        ],
        ProjectType::CSharp => seq![lit("cs"), lit("csx")],
        ProjectType::Java => seq![lit("java")],
        ProjectType::Python => seq![lit("py"), lit("pyw")],
        ProjectType::Go => seq![lit("go")],
        ProjectType::RustLang => seq![lit("rs")],
        ProjectType::Unknown => Seq::empty(),
    }
}

pub open spec fn color_spec(t: ProjectType) -> Seq<u8> {
    match t {
        ProjectType::Delphi => lit("#E31D1D"),
        ProjectType::Laravel => lit("#FF2D20"),
        ProjectType::Php => lit("#777BB4"),
        ProjectType::NodeJs => lit("#339933"),
        ProjectType::CSharp => lit("#512BD4"),
        ProjectType::Java => lit("#007396"),
        ProjectType::Python => lit("#3776AB"),
        ProjectType::Go => lit("#00ADD8"),
        ProjectType::RustLang => lit("#DEA584"),
        ProjectType::Unknown => lit("#6B7280"),
    }
}

pub open spec fn display_name_spec(t: ProjectType) -> Seq<u8> {
    match t {
        ProjectType::Delphi => lit("Delphi"),
        ProjectType::Laravel => lit("Laravel (PHP)"),
        ProjectType::NodeJs => lit("Node.js / TypeScript"),
        ProjectType::Php => lit("PHP"),
        ProjectType::CSharp => lit("C# (.NET)"),
        ProjectType::Java => lit("Java"),
        ProjectType::Python => lit("Python"),
        ProjectType::Go => lit("Go"),
        ProjectType::RustLang => lit("Rust"),
        ProjectType::Unknown => lit("Unknown"),
    }
}

impl ProjectType {
    /// File extensions associated with this project type.
    pub fn file_extensions(&self) -> (r: Vec<Vec<u8>>)
        ensures
            views(r@) == extensions_spec(*self),
    {
        let r = match self {
            ProjectType::Delphi => vec![
                litv("pas"),
                litv("dfm"),
                litv("fmx"),
                litv("dpr"),
                litv("dpk"),
                litv("dproj"),
            ],
            ProjectType::Laravel => vec![litv("php")],
            ProjectType::Php => vec![litv("php")],
            ProjectType::NodeJs => vec![
                litv("js"),
                litv("ts"),
                litv("jsx"),
                litv("tsx"),
                litv("mjs"),
                litv("cjs"),
            ],
            ProjectType::CSharp => vec![litv("cs"), litv("csx")],
            ProjectType::Java => vec![litv("java")],
            ProjectType::Python => vec![litv("py"), litv("pyw")],
            ProjectType::Go => vec![litv("go")],
            ProjectType::RustLang => vec![litv("rs")],
            ProjectType::Unknown => Vec::new(),
        };
        proof {
            assert(views(r@) =~= extensions_spec(*self));
        }
        r
    }

    /// Primary display color for this project type (hex).
    pub fn primary_color(&self) -> (r: Vec<u8>)
        ensures
            r@ == color_spec(*self),
    {
        match self {
            ProjectType::Delphi => litv("#E31D1D"),
            ProjectType::Laravel => litv("#FF2D20"),
            ProjectType::Php => litv("#777BB4"),
            ProjectType::NodeJs => litv("#339933"),
            ProjectType::CSharp => litv("#512BD4"),
            ProjectType::Java => litv("#007396"),
            ProjectType::Python => litv("#3776AB"),
            ProjectType::Go => litv("#00ADD8"),
            ProjectType::RustLang => litv("#DEA584"),
            ProjectType::Unknown => litv("#6B7280"),
        }
    }

    /// Human-readable name of the project type.
    pub fn display_name(&self) -> (r: Vec<u8>)
        ensures
            r@ == display_name_spec(*self),
    {
        match self {
            ProjectType::Delphi => litv("Delphi"),
            ProjectType::Laravel => litv("Laravel (PHP)"),
            ProjectType::NodeJs => litv("Node.js / TypeScript"),
            ProjectType::Php => litv("PHP"),
            ProjectType::CSharp => litv("C# (.NET)"),
            ProjectType::Java => litv("Java"),
            ProjectType::Python => litv("Python"),
            ProjectType::Go => litv("Go"),
            ProjectType::RustLang => litv("Rust"),
            ProjectType::Unknown => litv("Unknown"),
        }
    }
}

} // verus!
