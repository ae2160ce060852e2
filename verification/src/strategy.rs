//! Shared parser-strategy plumbing: configuration, capabilities, progress
//! data, the structured error type, and the per-file input that project
//! parsing consumes (a scanned file together with its content, or with the
//! error that reading it produced).

use vstd::prelude::*;
use crate::source_file::SourceFile;
use crate::text::litv;
use crate::text::concat;
use crate::text::lit;

verus! {

/// Parser error taxonomy.
#[derive(Debug, Clone)]
pub enum ParseError {
    /// File unreadable or vanished; non-fatal to a scan
    Io(Vec<u8>),
    /// Structural failure in a file (reserved; extractors degrade instead)
    Parse { file: Vec<u8>, message: Vec<u8> },
    /// An entry file whose kind no extractor handles
    UnsupportedFile(Vec<u8>),
    /// Invalid configuration, such as an unknown parser id
    Config(Vec<u8>),
    /// Cancelled (reserved)
    Cancelled,
}

/// Parser configuration.
#[derive(Debug, Clone)]
pub struct ParserConfig {
    /// File extensions to include (empty means all parser-supported)
    pub include_extensions: Vec<Vec<u8>>,
    /// Directory names to exclude from scanning
    pub exclude_dirs: Vec<Vec<u8>>,
    /// File encoding
    pub encoding: Vec<u8>,
    /// Whether to parse external dependencies
    pub parse_external_deps: bool,
    /// Maximum analysis depth
    pub max_depth: Option<u32>,
    /// Language-specific options
    pub language_options: Vec<(Vec<u8>, Vec<u8>)>,
}

impl ParserConfig {
    pub fn new() -> (r: Self)
        ensures
            r.include_extensions@.len() == 0,
            r.exclude_dirs@.len() == 0,
            r.encoding@ == lit("utf-8"),
            r.parse_external_deps == false,
            r.max_depth is None,
            r.language_options@.len() == 0,
    {
        ParserConfig {
            include_extensions: Vec::new(),
            exclude_dirs: Vec::new(),
            encoding: litv("utf-8"),
            parse_external_deps: false,
            max_depth: None,
            language_options: Vec::new(),
        }
    }

    pub fn with_exclude_dirs(self, dirs: Vec<Vec<u8>>) -> (r: Self)
        ensures
            r.exclude_dirs == dirs,
            r.include_extensions == self.include_extensions,
            r.encoding == self.encoding,
            r.parse_external_deps == self.parse_external_deps,
            r.max_depth == self.max_depth,
            r.language_options == self.language_options,
    {
        ParserConfig { exclude_dirs: dirs, ..self }
    }
}

/// Parse progress information, handed to a caller-side progress channel.
#[derive(Debug, Clone)]
pub struct ParseProgress {
    pub phase: Vec<u8>,
    pub current: usize,
    pub total: usize,
    pub current_file: Option<Vec<u8>>,
    pub message: Vec<u8>,
}

/// Parser capabilities, advertised for inspection.
#[derive(Debug, Clone)]
pub struct ParserCapabilities {
    /// Node types this parser can generate
    pub node_types: Vec<Vec<u8>>,
    /// Edge types this parser can generate
    pub edge_types: Vec<Vec<u8>>,
    /// Whether incremental parsing is supported
    pub supports_incremental: bool,
    /// Whether cancellation is supported
    pub supports_cancellation: bool,
    /// Available metrics
    pub available_metrics: Vec<Vec<u8>>,
}

/// One file handed to project parsing: the scanned source file and either
/// its content or the message of the read failure.
pub struct FileInput {
    pub source: SourceFile,
    pub content: Result<Vec<u8>, Vec<u8>>,
}

/// The failing `(path, message)` pairs among the first `k` inputs, in order.
pub open spec fn err_pairs(fs: Seq<FileInput>, k: int) -> Seq<(Seq<u8>, Seq<u8>)>
    decreases k,
{
    if k <= 0 || k > fs.len() {
        Seq::empty()
    } else {
        err_pairs(fs, k - 1) + match fs[k - 1].content {
            Result::Err(m) => seq![(fs[k - 1].source.path@, m@)],
            Result::Ok(_) => Seq::<(Seq<u8>, Seq<u8>)>::empty(),
        }
    }
}

/// The readable inputs among the first `k`, in order.
pub open spec fn ok_inputs(fs: Seq<FileInput>, k: int) -> Seq<FileInput>
    decreases k,
{
    if k <= 0 || k > fs.len() {
        Seq::empty()
    } else {
        ok_inputs(fs, k - 1) + match fs[k - 1].content {
            Result::Ok(_) => seq![fs[k - 1]],
            Result::Err(_) => Seq::<FileInput>::empty(),
        }
    }
}

} // verus!

verus! {

/// The flattened message of an unsupported-file failure for a given
/// extension.
pub open spec fn unsupported_msg(ext: Seq<u8>) -> Seq<u8> {
    lit("Unsupported file type: ") + ext
}

/// The flattened transport message of an error.
pub open spec fn error_message(e: ParseError) -> Seq<u8> {
    match e {
        ParseError::Io(m) => lit("IO error: ") + m@,
        ParseError::Parse { file, message } => lit("Parse error in ") + file@ + lit(": ")
            + message@,
        ParseError::UnsupportedFile(x) => unsupported_msg(x@),
        ParseError::Config(m) => lit("Configuration error: ") + m@,
        ParseError::Cancelled => lit("Cancelled"),
    }
}

impl ParseError {
    /// Flatten the error to its transport message.
    pub fn message(&self) -> (r: Vec<u8>)
        ensures
            r@ == error_message(*self),
    {
        match self {
            ParseError::Io(m) => {
                let prefix = litv("IO error: ");
                crate::text::concat(&prefix, m)
            },
            ParseError::Parse { file, message } => {
                let prefix = litv("Parse error in ");
                let sep = litv(": ");
                let a = crate::text::concat(&prefix, file);
                let c = crate::text::concat(&a, &sep);
                let r = crate::text::concat(&c, message);
                proof {
                    assert(r@ =~= error_message(*self));
                }
                r
            },
            ParseError::UnsupportedFile(x) => {
                let prefix = litv("Unsupported file type: ");
                crate::text::concat(&prefix, x)
            },
            ParseError::Config(m) => {
                let prefix = litv("Configuration error: ");
                crate::text::concat(&prefix, m)
            },
            ParseError::Cancelled => litv("Cancelled"),
        }
    }
}

} // verus!
