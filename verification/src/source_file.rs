//! Source files found during scanning, and path helpers.

use vstd::prelude::*;
use crate::text::ends_with;
use crate::text::ends_with_x;
use crate::text::eq_nocase;
use crate::text::eq_nocase_x;
use crate::text::lit;
use crate::text::litv;
use crate::text::slice_of;

verus! {

/// Position of the byte `b` closest to (strictly below) `i`, or -1.
pub open spec fn rfind_byte_from(s: Seq<u8>, b: u8, i: int) -> int
    decreases i,
{
    if i <= 0 || i > s.len() {
        -1
    } else if s[i - 1] == b {
        i - 1
    } else {
        rfind_byte_from(s, b, i - 1)
    }
}

pub open spec fn rfind_byte(s: Seq<u8>, b: u8) -> int {
    rfind_byte_from(s, b, s.len() as int)
}

pub proof fn lemma_rfind_byte_from(s: Seq<u8>, b: u8, i: int)
    requires
        0 <= i <= s.len(),
    ensures
        -1 <= rfind_byte_from(s, b, i) < i,
    decreases i,
{
    if i > 0 && s[i - 1] != b {
        lemma_rfind_byte_from(s, b, i - 1);
    }
}

pub fn rfind_byte_x(s: &Vec<u8>, b: u8) -> (r: Option<usize>)
    ensures
        match r {
            Option::Some(p) => rfind_byte(s@, b) == p as int && p < s.len(),
            Option::None => rfind_byte(s@, b) == -1,
        },
{
    let mut j: usize = s.len();
    while j > 0
        invariant
            0 <= j <= s.len(),
            rfind_byte(s@, b) == rfind_byte_from(s@, b, j as int),
        decreases j,
    {
        if s[j - 1] == b {
            return Some(j - 1);
        }
        j = j - 1;
    }
    None
}

/// The last path component: everything after the final `/`.
pub open spec fn base_name(path: Seq<u8>) -> Seq<u8> {
    let p = rfind_byte(path, 47);
    path.subrange(p + 1, path.len() as int)
}

pub fn base_name_x(path: &Vec<u8>) -> (r: Vec<u8>)
    ensures
        r@ == base_name(path@),
{
    let from = match rfind_byte_x(path, 47) {
        Option::Some(p) => p + 1,
        Option::None => 0,
    };
    slice_of(path, from, path.len())
}

/// The extension of a file name: everything after the last dot, empty when
/// there is no dot or the only dot leads the name (a hidden file).
pub open spec fn ext_of(name: Seq<u8>) -> Seq<u8> {
    let p = rfind_byte(name, 46);
    if p <= 0 {
        Seq::empty()
    } else {
        name.subrange(p + 1, name.len() as int)
    }
}

pub fn ext_of_x(name: &Vec<u8>) -> (r: Vec<u8>)
    ensures
        r@ == ext_of(name@),
{
    match rfind_byte_x(name, 46) {
        Option::Some(p) => {
            if p == 0 {
                Vec::new()
            } else {
                slice_of(name, p + 1, name.len())
            }
        },
        Option::None => Vec::new(),
    }
}

/// The extension of a path's last component.
pub open spec fn path_ext(path: Seq<u8>) -> Seq<u8> {
    ext_of(base_name(path))
}

/// Whether a path's last component carries the given extension,
/// ASCII-case-insensitively.
pub fn has_extension(path: &Vec<u8>, ext: &Vec<u8>) -> (r: bool)
    ensures
        r == eq_nocase(path_ext(path@), ext@),
{
    let base = base_name_x(path);
    let e = ext_of_x(&base);
    eq_nocase_x(&e, ext)
}

/// The stem of a path's last component: the component without its extension.
pub open spec fn stem_of(path: Seq<u8>) -> Seq<u8> {
    let base = base_name(path);
    let p = rfind_byte(base, 46);
    if p <= 0 {
        base
    } else {
        base.subrange(0, p)
    }
}

/// The stem of a path's last component, executable form.
pub fn stem_x(path: &Vec<u8>) -> (r: Vec<u8>)
    ensures
        r@ == stem_of(path@),
{
    let base = base_name_x(path);
    match rfind_byte_x(&base, 46) {
        Option::Some(p) => {
            if p == 0 {
                base
            } else {
                slice_of(&base, 0, p)
            }
        },
        Option::None => base,
    }
}

/// File name without extension, or `None` for a path with no last component.
pub fn file_stem(path: &Vec<u8>) -> (r: Option<Vec<u8>>)
    ensures
        match r {
            Option::Some(v) => base_name(path@).len() > 0 && v@ == stem_of(path@),
            Option::None => base_name(path@).len() == 0,
        },
{
    let base = base_name_x(path);
    if base.len() == 0 {
        return None;
    }
    match rfind_byte_x(&base, 46) {
        Option::Some(p) => {
            if p == 0 {
                Some(base)
            } else {
                Some(slice_of(&base, 0, p))
            }
        },
        Option::None => Some(base),
    }
}

/// Mathematical model of a [`SourceFile`].
#[verifier::ext_equal]
pub struct SourceFileModel {
    pub name: Seq<u8>,
    pub path: Seq<u8>,
    pub absolute_path: Seq<u8>,
    pub extension: Seq<u8>,
    pub size_bytes: u64,
    pub hash: Option<Seq<u8>>,
    pub modified_at: Option<Seq<u8>>,
}

/// A source file found during scanning; immutable after creation.
#[derive(Debug, Clone)]
pub struct SourceFile {
    /// File name with extension
    pub name: Vec<u8>,
    /// Relative path from project root
    pub path: Vec<u8>,
    /// Absolute path on the file system
    pub absolute_path: Vec<u8>,
    /// File extension (without dot)
    pub extension: Vec<u8>,
    /// File size in bytes
    pub size_bytes: u64,
    /// Content hash for identification
    pub hash: Option<Vec<u8>>,
    /// Last modified timestamp
    pub modified_at: Option<Vec<u8>>,
}

pub open spec fn sf_model(f: SourceFile) -> SourceFileModel {
    SourceFileModel {
        name: f.name@,
        path: f.path@,
        absolute_path: f.absolute_path@,
        extension: f.extension@,
        size_bytes: f.size_bytes,
        hash: match f.hash {
            Option::Some(h) => Option::Some(h@),
            Option::None => Option::None,
        },
        modified_at: match f.modified_at {
            Option::Some(m) => Option::Some(m@),
            Option::None => Option::None,
        },
    }
}

impl SourceFile {
    /// A fresh source file; the extension is derived from the name.
    pub fn new(name: Vec<u8>, path: Vec<u8>, absolute_path: Vec<u8>) -> (r: Self)
        ensures
            r.name@ == name@,
            r.path@ == path@,
            r.absolute_path@ == absolute_path@,
            r.extension@ == ext_of(name@),
            r.size_bytes == 0,
            r.hash is None,
            r.modified_at is None,
    {
        let extension = ext_of_x(&name);
        SourceFile {
            name,
            path,
            absolute_path,
            extension,
            size_bytes: 0,
            hash: None,
            modified_at: None,
        }
    }

    pub fn with_size(self, size: u64) -> (r: Self)
        ensures
            r == (SourceFile { size_bytes: size, ..self }),
    {
        SourceFile { size_bytes: size, ..self }
    }

    pub fn with_hash(self, hash: Vec<u8>) -> (r: Self)
        ensures
            r == (SourceFile { hash: Option::Some(hash), ..self }),
    {
        SourceFile { hash: Some(hash), ..self }
    }

    /// Whether this is a Delphi unit file.
    pub fn is_delphi_unit(&self) -> (r: bool)
        ensures
            r == eq_nocase(self.extension@, lit("pas")),
    {
        let pas = litv("pas");
        eq_nocase_x(&self.extension, &pas)
    }

    /// Whether this is a Delphi form file.
    pub fn is_delphi_form(&self) -> (r: bool)
        ensures
            r == (eq_nocase(self.extension@, lit("dfm")) || eq_nocase(self.extension@, lit("fmx"))),
    {
        let dfm = litv("dfm");
        let fmx = litv("fmx");
        eq_nocase_x(&self.extension, &dfm) || eq_nocase_x(&self.extension, &fmx)
    }

    /// Whether this is a PHP file.
    pub fn is_php(&self) -> (r: bool)
        ensures
            r == eq_nocase(self.extension@, lit("php")),
    {
        let php = litv("php");
        eq_nocase_x(&self.extension, &php)
    }

    /// A structural copy of this source file.
    pub fn duplicate(&self) -> (r: Self)
        ensures
            sf_model(r) == sf_model(*self),
    {
        let name = slice_of(&self.name, 0, self.name.len());
        let path = slice_of(&self.path, 0, self.path.len());
        let absolute_path = slice_of(&self.absolute_path, 0, self.absolute_path.len());
        let extension = slice_of(&self.extension, 0, self.extension.len());
        let hash = match &self.hash {
            Option::Some(h) => Some(slice_of(h, 0, h.len())),
            Option::None => None,
        };
        let modified_at = match &self.modified_at {
            Option::Some(m) => Some(slice_of(m, 0, m.len())),
            Option::None => None,
        };
        let r = SourceFile {
            name,
            path,
            absolute_path,
            extension,
            size_bytes: self.size_bytes,
            hash,
            modified_at,
        };
        proof {
            assert(sf_model(r) =~= sf_model(*self));
        }
        r
    }

    /// Whether this is a Blade template.
    pub fn is_blade(&self) -> (r: bool)
        ensures
            r == ends_with(self.name@, lit(".blade.php")),
    {
        let suffix = litv(".blade.php");
        ends_with_x(&self.name, &suffix)
    }
}

} // verus!
