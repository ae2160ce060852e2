//! Project-type detection.
//!
//! Each known ecosystem has an independent, side-effect-free scorer that
//! accumulates weighted evidence and caps its total. Scores are integer
//! hundredths (0..=100), so a confidence of `85` stands for 0.85. The
//! evidence itself — which marker files, directories and extensions exist
//! under the root, and what `composer.json` holds — is gathered by the
//! caller and handed in as plain values; unreadable directories simply
//! contribute no entries, so detection always returns a result.

use vstd::prelude::*;
use crate::project_type::ProjectType;
use crate::source_file::ext_of;
use crate::source_file::ext_of_x;
use crate::text::contains_bytes;
use crate::text::contains_seq;
use crate::text::contains_sub;
use crate::text::eq_nocase;
use crate::text::eq_nocase_x;
use crate::text::lit;
use crate::text::litv;
use crate::text::views;

verus! {

/// Evidence about a root directory, gathered without interpretation:
/// file names in the root and one level below it, which marker directories
/// exist, and the text of `composer.json` when it could be read.
pub struct DetectInput {
    /// Names of files directly in the root directory.
    pub files_root: Vec<Vec<u8>>,
    /// Names of files one level into the root's immediate subdirectories.
    pub files_sub: Vec<Vec<u8>>,
    /// Root-relative paths of directories that exist (with `/` separators).
    pub dirs: Vec<Vec<u8>>,
    /// Content of `composer.json`, when present and readable.
    pub composer_json: Option<Vec<u8>>,
}

/// Result of project type detection. Confidence values are hundredths.
#[derive(Debug, Clone)]
pub struct DetectionResult {
    /// Detected project type
    pub project_type: ProjectType,
    /// Detection confidence (0..=100, hundredths of 1.0)
    pub confidence: u32,
    /// Recommended parser id
    pub parser_id: Vec<u8>,
    /// Marker files found
    pub marker_files_found: Vec<Vec<u8>>,
    /// Whether this looks like a multi-language project
    pub is_multi_language: bool,
    /// Secondary types detected, confidence in hundredths
    pub secondary_types: Vec<(ProjectType, u32)>,
}

impl Default for DetectionResult {
    fn default() -> (r: Self)
        ensures
            r.project_type == ProjectType::Unknown,
            r.confidence == 0,
            r.parser_id@ == Seq::<u8>::empty(),
            r.marker_files_found@ == Seq::<Vec<u8>>::empty(),
            r.is_multi_language == false,
            r.secondary_types@ == Seq::<(ProjectType, u32)>::empty(),
    {
        DetectionResult {
            project_type: ProjectType::Unknown,
            confidence: 0,
            parser_id: Vec::new(),
            marker_files_found: Vec::new(),
            is_multi_language: false,
            secondary_types: Vec::new(),
        }
    }
}

// ---------------------------------------------------------------------------
// Evidence predicates
// ---------------------------------------------------------------------------

/// Some listed file name carries the extension, case-insensitively.
pub open spec fn any_with_ext(names: Seq<Seq<u8>>, ext: Seq<u8>) -> bool {
    exists|k: int| 0 <= k < names.len() && eq_nocase(ext_of(names[k]), ext)
}

/// Marker-extension evidence: a file in the root or one level down.
pub open spec fn has_ext(inp: DetectInput, ext: Seq<u8>) -> bool {
    any_with_ext(views(inp.files_root@), ext) || any_with_ext(views(inp.files_sub@), ext)
}

/// A file with the exact name exists directly in the root.
pub open spec fn has_root_file(inp: DetectInput, name: Seq<u8>) -> bool {
    views(inp.files_root@).contains(name)
}

/// The marker directory exists under the root.
pub open spec fn has_dir(inp: DetectInput, d: Seq<u8>) -> bool {
    views(inp.dirs@).contains(d)
}

/// `composer.json` was readable and mentions the Laravel framework package.
pub open spec fn composer_mentions_laravel(inp: DetectInput) -> bool {
    match inp.composer_json {
        Option::Some(c) => contains_seq(c@, lit("laravel/framework")),
        Option::None => false,
    }
}

fn any_with_ext_x(names: &Vec<Vec<u8>>, ext: &Vec<u8>) -> (r: bool)
    ensures
        r == any_with_ext(views(names@), ext@),
{
    let mut k: usize = 0;
    while k < names.len()
        invariant
            0 <= k <= names.len(),
            forall|m: int| 0 <= m < k ==> !eq_nocase(ext_of(views(names@)[m]), ext@),
        decreases names.len() - k,
    {
        let e = ext_of_x(&names[k]);
        if eq_nocase_x(&e, ext) {
            proof {
                assert(eq_nocase(ext_of(views(names@)[k as int]), ext@));
            }
            return true;
        }
        k = k + 1;
    }
    false
}

fn has_ext_x(inp: &DetectInput, ext: &Vec<u8>) -> (r: bool)
    ensures
        r == has_ext(*inp, ext@),
{
    any_with_ext_x(&inp.files_root, ext) || any_with_ext_x(&inp.files_sub, ext)
}

// ---------------------------------------------------------------------------
// Scorers
// ---------------------------------------------------------------------------

pub open spec fn cap100(s: int) -> int {
    if s > 100 {
        100
    } else {
        s
    }
}

pub open spec fn delphi_raw(inp: DetectInput) -> int {
    (if has_ext(inp, lit("dpr")) {
        40int
    } else {
        0int
    }) + (if has_ext(inp, lit("dproj")) {
        40int
    } else {
        0int
    }) + (if has_ext(inp, lit("groupproj")) {
        40int
    } else {
        0int
    }) + (if has_ext(inp, lit("pas")) {
        30int
    } else {
        0int
    }) + (if has_ext(inp, lit("dfm")) || has_ext(inp, lit("fmx")) {
        20int
    } else {
        0int
    })
}

/// Delphi evidence score, in hundredths, capped at 100.
pub open spec fn delphi_score(inp: DetectInput) -> int {
    cap100(delphi_raw(inp))
}

pub open spec fn delphi_markers(inp: DetectInput) -> Seq<Seq<u8>> {
    (if has_ext(inp, lit("dpr")) {
        seq![lit("*.dpr")]
    } else {
        Seq::<Seq<u8>>::empty()
    }) + (if has_ext(inp, lit("dproj")) {
        seq![lit("*.dproj")]
    } else {
        Seq::<Seq<u8>>::empty()
    }) + (if has_ext(inp, lit("groupproj")) {
        seq![lit("*.groupproj")]
    } else {
        Seq::<Seq<u8>>::empty()
    }) + (if has_ext(inp, lit("pas")) {
        seq![lit("*.pas")]
    } else {
        Seq::<Seq<u8>>::empty()
    }) + (if has_ext(inp, lit("dfm")) || has_ext(inp, lit("fmx")) {
        seq![lit("*.dfm/*.fmx")]
    } else {
        Seq::<Seq<u8>>::empty()
    })
}

pub open spec fn laravel_raw(inp: DetectInput) -> int {
    (if composer_mentions_laravel(inp) {
        60int
    } else {
        0int
    }) + (if has_root_file(inp, lit("artisan")) {
        20int
    } else {
        0int
    }) + (if has_dir(inp, lit("app/Http/Controllers")) {
        5int
    } else {
        0int
    }) + (if has_dir(inp, lit("resources/views")) {
        5int
    } else {
        0int
    }) + (if has_dir(inp, lit("routes")) {
        5int
    } else {
        0int
    }) + (if has_dir(inp, lit("database/migrations")) {
        5int
    } else {
        0int
    })
}

/// Laravel evidence score, in hundredths, capped at 100.
pub open spec fn laravel_score(inp: DetectInput) -> int {
    cap100(laravel_raw(inp))
}

pub open spec fn laravel_markers(inp: DetectInput) -> Seq<Seq<u8>> {
    (if composer_mentions_laravel(inp) {
        seq![lit("composer.json (laravel/framework)")]
    } else {
        Seq::<Seq<u8>>::empty()
    }) + (if has_root_file(inp, lit("artisan")) {
        seq![lit("artisan")]
    } else {
        Seq::<Seq<u8>>::empty()
    }) + (if has_dir(inp, lit("app/Http/Controllers")) {
        seq![lit("app/Http/Controllers")]
    } else {
        Seq::<Seq<u8>>::empty()
    }) + (if has_dir(inp, lit("resources/views")) {
        seq![lit("resources/views")]
    } else {
        Seq::<Seq<u8>>::empty()
    }) + (if has_dir(inp, lit("routes")) {
        seq![lit("routes")]
    } else {
        Seq::<Seq<u8>>::empty()
    }) + (if has_dir(inp, lit("database/migrations")) {
        seq![lit("database/migrations")]
    } else {
        Seq::<Seq<u8>>::empty()
    })
}

pub open spec fn nodejs_raw(inp: DetectInput) -> int {
    (if has_root_file(inp, lit("package.json")) {
        40int
    } else {
        0int
    }) + (if has_root_file(inp, lit("tsconfig.json")) {
        20int
    } else {
        0int
    }) + (if has_ext(inp, lit("ts")) || has_ext(inp, lit("tsx")) {
        20int
    } else {
        0int
    }) + (if has_ext(inp, lit("js")) || has_ext(inp, lit("jsx")) {
        10int
    } else {
        0int
    })
}

/// Node.js evidence score, in hundredths, capped at 100.
pub open spec fn nodejs_score(inp: DetectInput) -> int {
    cap100(nodejs_raw(inp))
}

pub open spec fn nodejs_markers(inp: DetectInput) -> Seq<Seq<u8>> {
    (if has_root_file(inp, lit("package.json")) {
        seq![lit("package.json")]
    } else {
        Seq::<Seq<u8>>::empty()
    }) + (if has_root_file(inp, lit("tsconfig.json")) {
        seq![lit("tsconfig.json")]
    } else {
        Seq::<Seq<u8>>::empty()
    }) + (if has_ext(inp, lit("ts")) || has_ext(inp, lit("tsx")) {
        seq![lit("*.ts/*.tsx")]
    } else {
        Seq::<Seq<u8>>::empty()
    })
}

pub open spec fn php_raw(inp: DetectInput) -> int {
    (if has_root_file(inp, lit("composer.json")) {
        30int
    } else {
        0int
    }) + (if has_ext(inp, lit("php")) {
        40int
    } else {
        0int
    })
}

/// Generic-PHP evidence score, in hundredths, capped at 100.
pub open spec fn php_score(inp: DetectInput) -> int {
    cap100(php_raw(inp))
}

pub open spec fn php_markers(inp: DetectInput) -> Seq<Seq<u8>> {
    (if has_root_file(inp, lit("composer.json")) {
        seq![lit("composer.json")]
    } else {
        Seq::<Seq<u8>>::empty()
    }) + (if has_ext(inp, lit("php")) {
        seq![lit("*.php")]
    } else {
        Seq::<Seq<u8>>::empty()
    })
}

// ---------------------------------------------------------------------------
// Candidates and their stable descending order
// ---------------------------------------------------------------------------

/// An executable detection candidate.
pub struct Candidate {
    pub ptype: ProjectType,
    pub score: u32,
    pub markers: Vec<Vec<u8>>,
}

/// The mathematical model of a candidate: type, score, marker strings.
pub open spec fn cmodel(c: Candidate) -> (ProjectType, int, Seq<Seq<u8>>) {
    (c.ptype, c.score as int, views(c.markers@))
}

pub open spec fn cmodels(s: Seq<Candidate>) -> Seq<(ProjectType, int, Seq<Seq<u8>>)> {
    s.map_values(|c: Candidate| cmodel(c))
}

/// The candidate list in its fixed probe order: Delphi, Laravel, Node.js,
/// then generic PHP — each admitted only with positive score, and generic
/// PHP suppressed when Laravel reaches 50 (Laravel is a PHP specialization).
pub open spec fn spec_candidates(inp: DetectInput) -> Seq<(ProjectType, int, Seq<Seq<u8>>)> {
    (if delphi_score(inp) > 0 {
        seq![(ProjectType::Delphi, delphi_score(inp), delphi_markers(inp))]
    } else {
        Seq::<(ProjectType, int, Seq<Seq<u8>>)>::empty()
    }) + (if laravel_score(inp) > 0 {
        seq![(ProjectType::Laravel, laravel_score(inp), laravel_markers(inp))]
    } else {
        Seq::<(ProjectType, int, Seq<Seq<u8>>)>::empty()
    }) + (if nodejs_score(inp) > 0 {
        seq![(ProjectType::NodeJs, nodejs_score(inp), nodejs_markers(inp))]
    } else {
        Seq::<(ProjectType, int, Seq<Seq<u8>>)>::empty()
    }) + (if php_score(inp) > 0 && laravel_score(inp) < 50 {
        seq![(ProjectType::Php, php_score(inp), php_markers(inp))]
    } else {
        Seq::<(ProjectType, int, Seq<Seq<u8>>)>::empty()
    })
}

/// Index of the first candidate with the maximal score (a stable descending
/// sort puts this one first).
pub open spec fn fm(s: Seq<(ProjectType, int, Seq<Seq<u8>>)>) -> int
    decreases s.len(),
{
    if s.len() <= 1 {
        0
    } else {
        let r = fm(s.drop_first()) + 1;
        if s[0].1 >= s[r].1 {
            0
        } else {
            r
        }
    }
}

pub proof fn lemma_fm(s: Seq<(ProjectType, int, Seq<Seq<u8>>)>)
    requires
        s.len() > 0,
    ensures
        0 <= fm(s) < s.len(),
        forall|j: int| 0 <= j < s.len() ==> (#[trigger] s[j]).1 <= s[fm(s)].1,
        forall|j: int| 0 <= j < fm(s) ==> (#[trigger] s[j]).1 < s[fm(s)].1,
    decreases s.len(),
{
    if s.len() > 1 {
        let d = s.drop_first();
        lemma_fm(d);
        let r = fm(d) + 1;
        assert forall|j: int| 1 <= j < s.len() implies #[trigger] s[j] == d[j - 1] by {}
        if s[0].1 >= s[r].1 {
            assert(fm(s) == 0);
            assert forall|j: int| 0 <= j < s.len() implies (#[trigger] s[j]).1 <= s[0].1 by {
                if j >= 1 {
                    assert(s[j] == d[j - 1]);
                    assert(d[j - 1].1 <= d[fm(d)].1);
                }
            }
        } else {
            assert(fm(s) == r);
            assert forall|j: int| 0 <= j < s.len() implies (#[trigger] s[j]).1 <= s[r].1 by {
                if j >= 1 {
                    assert(s[j] == d[j - 1]);
                    assert(d[j - 1].1 <= d[fm(d)].1);
                }
            }
            assert forall|j: int| 0 <= j < r implies (#[trigger] s[j]).1 < s[r].1 by {
                if j >= 1 {
                    assert(s[j] == d[j - 1]);
                    assert(d[j - 1].1 < d[fm(d)].1);
                }
            }
        }
    }
}

/// The candidates in stable descending score order.
pub open spec fn sort_desc(s: Seq<(ProjectType, int, Seq<Seq<u8>>)>) -> Seq<
    (ProjectType, int, Seq<Seq<u8>>),
>
    decreases s.len(),
{
    if s.len() == 0 {
        Seq::empty()
    } else {
        let m0 = fm(s);
        let m = if 0 <= m0 && m0 < s.len() {
            m0
        } else {
            0
        };
        seq![s[m]] + sort_desc(s.remove(m))
    }
}

pub open spec fn sorted_cands(inp: DetectInput) -> Seq<(ProjectType, int, Seq<Seq<u8>>)> {
    sort_desc(spec_candidates(inp))
}

/// The secondary types read off the sorted candidates from index `k`:
/// those with confidence above 30 hundredths.
pub open spec fn secondaries(s: Seq<(ProjectType, int, Seq<Seq<u8>>)>, k: int) -> Seq<
    (ProjectType, int),
>
    decreases s.len() - k,
{
    if k < 0 || k >= s.len() {
        Seq::empty()
    } else {
        let rest = secondaries(s, k + 1);
        if s[k].1 > 30 {
            seq![(s[k].0, s[k].1)] + rest
        } else {
            rest
        }
    }
}

pub proof fn lemma_secondaries_nonempty(s: Seq<(ProjectType, int, Seq<Seq<u8>>)>, k: int)
    requires
        k >= 0,
    ensures
        (secondaries(s, k).len() > 0) == exists|j: int|
            k <= j < s.len() && (#[trigger] s[j]).1 > 30,
    decreases s.len() - k,
{
    if 0 <= k && k < s.len() {
        lemma_secondaries_nonempty(s, k + 1);
        if s[k].1 > 30 {
            assert(k <= k < s.len() && (s[k]).1 > 30);
        } else {
            if secondaries(s, k).len() > 0 {
                let j = choose|j: int| k + 1 <= j < s.len() && (#[trigger] s[j]).1 > 30;
                assert(k <= j < s.len() && s[j].1 > 30);
            }
            if exists|j: int| k <= j < s.len() && (#[trigger] s[j]).1 > 30 {
                let j = choose|j: int| k <= j < s.len() && (#[trigger] s[j]).1 > 30;
                assert(j != k);
                assert(k + 1 <= j < s.len() && s[j].1 > 30);
            }
        }
    }
}

pub open spec fn pairmodels(s: Seq<(ProjectType, u32)>) -> Seq<(ProjectType, int)> {
    s.map_values(|p: (ProjectType, u32)| (p.0, p.1 as int))
}

/// The parser id associated with each project type.
pub open spec fn parser_id_spec(t: ProjectType) -> Seq<u8> {
    match t {
        ProjectType::Delphi => lit("delphi"),
        ProjectType::Laravel => lit("laravel"),
        ProjectType::NodeJs => lit("nodejs"),
        ProjectType::Php => lit("php"),
        _ => lit("unknown"),
    }
}

// ---------------------------------------------------------------------------
// Executable detection
// ---------------------------------------------------------------------------

fn first_max_idx(cands: &Vec<Candidate>) -> (r: usize)
    requires
        cands.len() > 0,
    ensures
        r as int == fm(cmodels(cands@)),
{
    let ghost m = cmodels(cands@);
    let mut best: usize = 0;
    let mut k: usize = 1;
    while k < cands.len()
        invariant
            0 <= best < k <= cands.len(),
            m == cmodels(cands@),
            m.len() == cands.len(),
            forall|j: int| 0 <= j < k ==> m[j].1 <= m[best as int].1,
            forall|j: int| 0 <= j < best ==> m[j].1 < m[best as int].1,
        decreases cands.len() - k,
    {
        if cands[k].score > cands[best].score {
            best = k;
        }
        k = k + 1;
    }
    proof {
        lemma_fm(m);
        let f = fm(m);
        if f < best {
            assert(m[f].1 < m[best as int].1);
            assert(m[best as int].1 <= m[f].1);
        }
        if best < f {
            assert(m[best as int].1 < m[f].1);
            assert(m[f].1 <= m[best as int].1);
        }
    }
    best
}

fn sort_candidates(cands: Vec<Candidate>) -> (out: Vec<Candidate>)
    ensures
        cmodels(out@) == sort_desc(cmodels(cands@)),
{
    let ghost orig = cmodels(cands@);
    let mut rest = cands;
    let mut out: Vec<Candidate> = Vec::new();
    while rest.len() > 0
        invariant
            cmodels(out@) + sort_desc(cmodels(rest@)) == sort_desc(orig),
        decreases rest.len(),
    {
        let i = first_max_idx(&rest);
        proof {
            lemma_fm(cmodels(rest@));
        }
        let ghost pre_rest = rest@;
        let ghost pre_out = out@;
        let c = rest.remove(i);
        out.push(c);
        proof {
            assert(cmodels(pre_out.push(c)) =~= cmodels(pre_out).push(cmodel(c)));
            assert(cmodels(pre_rest.remove(i as int)) =~= cmodels(pre_rest).remove(i as int));
            assert(seq![cmodels(pre_rest)[i as int]] + sort_desc(
                cmodels(pre_rest).remove(i as int),
            ) == sort_desc(cmodels(pre_rest)));
            assert(cmodels(out@) + sort_desc(cmodels(rest@)) =~= sort_desc(orig));
        }
    }
    proof {
        assert(cmodels(out@) + Seq::<(ProjectType, int, Seq<Seq<u8>>)>::empty() =~= cmodels(out@));
    }
    out
}

/// Project type detector.
pub struct ProjectDetector;

impl ProjectDetector {
    /// The parser id recommended for a project type.
    pub fn get_parser_id(project_type: &ProjectType) -> (r: Vec<u8>)
        ensures
            r@ == parser_id_spec(*project_type),
    {
        match project_type {
            ProjectType::Delphi => litv("delphi"),
            ProjectType::Laravel => litv("laravel"),
            ProjectType::NodeJs => litv("nodejs"),
            ProjectType::Php => litv("php"),
            _ => litv("unknown"),
        }
    }

    fn detect_delphi(inp: &DetectInput) -> (r: (u32, Vec<Vec<u8>>))
        ensures
            r.0 as int == delphi_score(*inp),
            views(r.1@) == delphi_markers(*inp),
    {
        let mut score: u32 = 0;
        let mut markers: Vec<Vec<u8>> = Vec::new();
        let dpr = litv("dpr");
        if has_ext_x(inp, &dpr) {
            score = score + 40;
            markers.push(litv("*.dpr"));
        }
        let dproj = litv("dproj");
        if has_ext_x(inp, &dproj) {
            score = score + 40;
            markers.push(litv("*.dproj"));
        }
        let groupproj = litv("groupproj");
        if has_ext_x(inp, &groupproj) {
            score = score + 40;
            markers.push(litv("*.groupproj"));
        }
        let pas = litv("pas");
        if has_ext_x(inp, &pas) {
            score = score + 30;
            markers.push(litv("*.pas"));
        }
        let dfm = litv("dfm");
        let fmx = litv("fmx");
        if has_ext_x(inp, &dfm) || has_ext_x(inp, &fmx) {
            score = score + 20;
            markers.push(litv("*.dfm/*.fmx"));
        }
        if score > 100 {
            score = 100;
        }
        proof {
            assert(views(markers@) =~= delphi_markers(*inp));
        }
        (score, markers)
    }

    fn detect_laravel(inp: &DetectInput) -> (r: (u32, Vec<Vec<u8>>))
        ensures
            r.0 as int == laravel_score(*inp),
            views(r.1@) == laravel_markers(*inp),
    {
        let mut score: u32 = 0;
        let mut markers: Vec<Vec<u8>> = Vec::new();
        let mentions = match &inp.composer_json {
            Option::Some(c) => {
                let needle = litv("laravel/framework");
                let m = contains_sub(c, &needle);
                proof {
                    assert(m == composer_mentions_laravel(*inp));
                }
                m
            },
            Option::None => false,
        };
        if mentions {
            score = score + 60;
            markers.push(litv("composer.json (laravel/framework)"));
        }
        let artisan = litv("artisan");
        if contains_bytes(&inp.files_root, &artisan) {
            score = score + 20;
            markers.push(litv("artisan"));
        }
        let d1 = litv("app/Http/Controllers");
        if contains_bytes(&inp.dirs, &d1) {
            score = score + 5;
            markers.push(d1);
        }
        let d2 = litv("resources/views");
        if contains_bytes(&inp.dirs, &d2) {
            score = score + 5;
            markers.push(d2);
        }
        let d3 = litv("routes");
        if contains_bytes(&inp.dirs, &d3) {
            score = score + 5;
            markers.push(d3);
        }
        let d4 = litv("database/migrations");
        if contains_bytes(&inp.dirs, &d4) {
            score = score + 5;
            markers.push(d4);
        }
        if score > 100 {
            score = 100;
        }
        proof {
            assert(views(markers@) =~= laravel_markers(*inp));
        }
        (score, markers)
    }

    fn detect_nodejs(inp: &DetectInput) -> (r: (u32, Vec<Vec<u8>>))
        ensures
            r.0 as int == nodejs_score(*inp),
            views(r.1@) == nodejs_markers(*inp),
    {
        let mut score: u32 = 0;
        let mut markers: Vec<Vec<u8>> = Vec::new();
        let pkg = litv("package.json");
        if contains_bytes(&inp.files_root, &pkg) {
            score = score + 40;
            markers.push(pkg);
        }
        let tsc = litv("tsconfig.json");
        if contains_bytes(&inp.files_root, &tsc) {
            score = score + 20;
            markers.push(tsc);
        }
        let ts = litv("ts");
        let tsx = litv("tsx");
        if has_ext_x(inp, &ts) || has_ext_x(inp, &tsx) {
            score = score + 20;
            markers.push(litv("*.ts/*.tsx"));
        }
        let js = litv("js");
        let jsx = litv("jsx");
        if has_ext_x(inp, &js) || has_ext_x(inp, &jsx) {
            score = score + 10;
        }
        if score > 100 {
            score = 100;
        }
        proof {
            assert(views(markers@) =~= nodejs_markers(*inp));
        }
        (score, markers)
    }

    fn detect_php(inp: &DetectInput) -> (r: (u32, Vec<Vec<u8>>))
        ensures
            r.0 as int == php_score(*inp),
            views(r.1@) == php_markers(*inp),
    {
        let mut score: u32 = 0;
        let mut markers: Vec<Vec<u8>> = Vec::new();
        let composer = litv("composer.json");
        if contains_bytes(&inp.files_root, &composer) {
            score = score + 30;
            markers.push(composer);
        }
        let php = litv("php");
        if has_ext_x(inp, &php) {
            score = score + 40;
            markers.push(litv("*.php"));
        }
        if score > 100 {
            score = 100;
        }
        proof {
            assert(views(markers@) =~= php_markers(*inp));
        }
        (score, markers)
    }

    /// Detect the project type from gathered directory evidence.
    ///
    /// The winner is the first candidate reaching the maximal score in probe
    /// order; every other candidate above 30 hundredths becomes a secondary
    /// type, and `is_multi_language` holds exactly when such a non-winning
    /// candidate exists.
    pub fn detect(inp: &DetectInput) -> (r: DetectionResult)
        ensures
            sorted_cands(*inp).len() == 0 ==> (r.project_type == ProjectType::Unknown
                && r.confidence == 0 && r.parser_id@ == Seq::<u8>::empty() && views(
                r.marker_files_found@,
            ) == Seq::<Seq<u8>>::empty() && r.secondary_types@.len() == 0),
            sorted_cands(*inp).len() > 0 ==> (r.project_type == sorted_cands(*inp)[0].0
                && r.confidence as int == sorted_cands(*inp)[0].1 && r.parser_id@ == parser_id_spec(
                sorted_cands(*inp)[0].0,
            ) && views(r.marker_files_found@) == sorted_cands(*inp)[0].2 && pairmodels(
                r.secondary_types@,
            ) == secondaries(sorted_cands(*inp), 1)),
            r.is_multi_language == (r.secondary_types@.len() > 0),
            r.is_multi_language == exists|k: int|
                1 <= k < sorted_cands(*inp).len() && sorted_cands(*inp)[k].1 > 30,
    {
        let (delphi_score_v, delphi_markers_v) = Self::detect_delphi(inp);
        let (laravel_score_v, laravel_markers_v) = Self::detect_laravel(inp);
        let (nodejs_score_v, nodejs_markers_v) = Self::detect_nodejs(inp);
        let (php_score_v, php_markers_v) = Self::detect_php(inp);

        let mut cands: Vec<Candidate> = Vec::new();
        if delphi_score_v > 0 {
            cands.push(
                Candidate {
                    ptype: ProjectType::Delphi,
                    score: delphi_score_v,
                    markers: delphi_markers_v,
                },
            );
        }
        if laravel_score_v > 0 {
            cands.push(
                Candidate {
                    ptype: ProjectType::Laravel,
                    score: laravel_score_v,
                    markers: laravel_markers_v,
                },
            );
        }
        if nodejs_score_v > 0 {
            cands.push(
                Candidate {
                    ptype: ProjectType::NodeJs,
                    score: nodejs_score_v,
                    markers: nodejs_markers_v,
                },
            );
        }
        if php_score_v > 0 && laravel_score_v < 50 {
            cands.push(
                Candidate { ptype: ProjectType::Php, score: php_score_v, markers: php_markers_v },
            );
        }
        proof {
            assert(cmodels(cands@) =~= spec_candidates(*inp));
        }
        let mut sorted = sort_candidates(cands);
        let ghost cs = sorted_cands(*inp);

        if sorted.len() == 0 {
            let r = DetectionResult::default();
            proof {
                lemma_secondaries_nonempty(cs, 1);
            }
            return r;
        }
        let winner = sorted.remove(0);
        let parser_id = Self::get_parser_id(&winner.ptype);

        let mut secondary: Vec<(ProjectType, u32)> = Vec::new();
        let mut k: usize = 0;
        proof {
            assert(cs.len() == 1 + sorted@.len());
            assert(cmodel(winner) == cs[0]);
            assert forall|j: int| 0 <= j < sorted@.len() implies cs[j + 1] == cmodels(sorted@)[j]
            by {
                assert(cmodels(sorted@)[j] == cmodel(sorted@[j]));
            }
        }
        while k < sorted.len()
            invariant
                0 <= k <= sorted.len(),
                cs.len() == 1 + sorted.len(),
                forall|j: int| 0 <= j < sorted@.len() ==> cs[j + 1] == cmodels(sorted@)[j],
                pairmodels(secondary@) + secondaries(cs, k + 1) == secondaries(cs, 1),
            decreases sorted.len() - k,
        {
            if sorted[k].score > 30 {
                let ghost pre = secondary@;
                secondary.push((sorted[k].ptype, sorted[k].score));
                proof {
                    assert(pairmodels(pre.push((sorted@[k as int].ptype, sorted@[k as int].score)))
                        =~= pairmodels(pre).push(
                        (sorted@[k as int].ptype, sorted@[k as int].score as int),
                    ));
                    assert(cs[k as int + 1] == cmodels(sorted@)[k as int]);
                    assert(pairmodels(secondary@) + secondaries(cs, k + 2) =~= secondaries(cs, 1));
                }
            } else {
                proof {
                    assert(cs[k as int + 1] == cmodels(sorted@)[k as int]);
                    assert(secondaries(cs, k + 1) == secondaries(cs, k + 2));
                }
            }
            k = k + 1;
        }
        proof {
            assert(pairmodels(secondary@) + Seq::<(ProjectType, int)>::empty() =~= pairmodels(
                secondary@,
            ));
            lemma_secondaries_nonempty(cs, 1);
        }
        let is_multi = secondary.len() > 0;
        DetectionResult {
            project_type: winner.ptype,
            confidence: winner.score,
            parser_id,
            marker_files_found: winner.markers,
            is_multi_language: is_multi,
            secondary_types: secondary,
        }
    }
}

} // verus!

verus! {

// ---------------------------------------------------------------------------
// Laws of detection
// ---------------------------------------------------------------------------

/// Multi-language consistency: the secondary-type list is non-empty exactly
/// when some non-winning candidate scores above 30 hundredths. Together with
/// `detect`'s contract this ties `is_multi_language`, the emptiness of
/// `secondary_types`, and that existence claim to each other.
pub proof fn lemma_multi_language_consistency(inp: DetectInput)
    ensures
        (secondaries(sorted_cands(inp), 1).len() > 0) == (exists|k: int|
            1 <= k < sorted_cands(inp).len() && (#[trigger] sorted_cands(inp)[k]).1 > 30),
{
    lemma_secondaries_nonempty(sorted_cands(inp), 1);
}

/// Detection monotonicity, first half: evidence that only grows never
/// decreases the Delphi score.
pub proof fn lemma_delphi_score_monotone(e1: DetectInput, e2: DetectInput)
    requires
        has_ext(e1, lit("dpr")) ==> has_ext(e2, lit("dpr")),
        has_ext(e1, lit("dproj")) ==> has_ext(e2, lit("dproj")),
        has_ext(e1, lit("groupproj")) ==> has_ext(e2, lit("groupproj")),
        has_ext(e1, lit("pas")) ==> has_ext(e2, lit("pas")),
        has_ext(e1, lit("dfm")) ==> has_ext(e2, lit("dfm")),
        has_ext(e1, lit("fmx")) ==> has_ext(e2, lit("fmx")),
    ensures
        delphi_score(e1) <= delphi_score(e2),
{
}

proof fn lemma_fm_scores(
    s1: Seq<(ProjectType, int, Seq<Seq<u8>>)>,
    s2: Seq<(ProjectType, int, Seq<Seq<u8>>)>,
)
    requires
        s1.len() == s2.len(),
        forall|j: int| 0 <= j < s1.len() ==> (#[trigger] s1[j]).1 == s2[j].1,
    ensures
        fm(s1) == fm(s2),
    decreases s1.len(),
{
    if s1.len() > 1 {
        let d1 = s1.drop_first();
        let d2 = s2.drop_first();
        assert forall|j: int| 0 <= j < d1.len() implies (#[trigger] d1[j]).1 == d2[j].1 by {
            assert(d1[j] == s1[j + 1]);
            assert(d2[j] == s2[j + 1]);
        }
        lemma_fm_scores(d1, d2);
        lemma_fm(d1);
        let r = fm(d1) + 1;
        assert(s1[0].1 == s2[0].1);
        assert(s1[r].1 == s2[r].1);
    }
}

proof fn lemma_sort_first(s: Seq<(ProjectType, int, Seq<Seq<u8>>)>)
    requires
        s.len() > 0,
    ensures
        sort_desc(s)[0] == s[fm(s)],
        sort_desc(s).len() == s.len(),
    decreases s.len(),
{
    lemma_fm(s);
    let m = fm(s);
    assert(sort_desc(s) == seq![s[m]] + sort_desc(s.remove(m)));
    lemma_sort_len(s.remove(m));
}

proof fn lemma_sort_len(s: Seq<(ProjectType, int, Seq<Seq<u8>>)>)
    ensures
        sort_desc(s).len() == s.len(),
    decreases s.len(),
{
    if s.len() > 0 {
        lemma_fm(s);
        let m = fm(s);
        assert(sort_desc(s) == seq![s[m]] + sort_desc(s.remove(m)));
        lemma_sort_len(s.remove(m));
    }
}

/// The non-Delphi candidates, in probe order.
pub open spec fn rest_candidates(inp: DetectInput) -> Seq<(ProjectType, int, Seq<Seq<u8>>)> {
    (if laravel_score(inp) > 0 {
        seq![(ProjectType::Laravel, laravel_score(inp), laravel_markers(inp))]
    } else {
        Seq::<(ProjectType, int, Seq<Seq<u8>>)>::empty()
    }) + (if nodejs_score(inp) > 0 {
        seq![(ProjectType::NodeJs, nodejs_score(inp), nodejs_markers(inp))]
    } else {
        Seq::<(ProjectType, int, Seq<Seq<u8>>)>::empty()
    }) + (if php_score(inp) > 0 && laravel_score(inp) < 50 {
        seq![(ProjectType::Php, php_score(inp), php_markers(inp))]
    } else {
        Seq::<(ProjectType, int, Seq<Seq<u8>>)>::empty()
    })
}

/// Detection monotonicity, second half: when only the Delphi evidence grows,
/// the winning type and confidence stay the same as long as the new Delphi
/// score remains below the current winner's confidence. (At an exact tie the
/// winner does change, because Delphi is probed first; that input is left
/// out here.)
#[verifier::rlimit(100)]
#[verifier::spinoff_prover]
pub proof fn lemma_winner_stable_under_delphi_growth(e1: DetectInput, e2: DetectInput)
    requires
        laravel_score(e1) == laravel_score(e2),
        nodejs_score(e1) == nodejs_score(e2),
        php_score(e1) == php_score(e2),
        sorted_cands(e1).len() > 0,
        sorted_cands(e1)[0].0 != ProjectType::Delphi,
        delphi_score(e2) < sorted_cands(e1)[0].1,
    ensures
        sorted_cands(e2).len() > 0,
        sorted_cands(e2)[0].0 == sorted_cands(e1)[0].0,
        sorted_cands(e2)[0].1 == sorted_cands(e1)[0].1,
{
    let cs1 = spec_candidates(e1);
    let cs2 = spec_candidates(e2);
    let r1 = rest_candidates(e1);
    let r2 = rest_candidates(e2);
    assert(cs1 =~= (if delphi_score(e1) > 0 {
        seq![(ProjectType::Delphi, delphi_score(e1), delphi_markers(e1))]
    } else {
        Seq::<(ProjectType, int, Seq<Seq<u8>>)>::empty()
    }) + r1);
    assert(cs2 =~= (if delphi_score(e2) > 0 {
        seq![(ProjectType::Delphi, delphi_score(e2), delphi_markers(e2))]
    } else {
        Seq::<(ProjectType, int, Seq<Seq<u8>>)>::empty()
    }) + r2);
    assert(r1.len() == r2.len());
    assert forall|j: int| 0 <= j < r1.len() implies (#[trigger] r1[j]).0 == r2[j].0 && r1[j].1
        == r2[j].1 by {}
    lemma_sort_len(cs1);
    lemma_sort_first(cs1);
    lemma_fm(cs1);
    let w1 = cs1[fm(cs1)];
    // The winner is not Delphi, so it lives in the rest list.
    if delphi_score(e1) > 0 {
        if fm(cs1) == 0 {
            assert(cs1[0].0 == ProjectType::Delphi);
        }
        assert(fm(cs1) >= 1);
        let d = cs1.drop_first();
        assert(d =~= r1);
        lemma_fm(r1);
        // fm on the whole list picks position fm(r1) + 1.
        assert(fm(cs1) == if cs1[0].1 >= cs1[fm(r1) + 1].1 {
            0int
        } else {
            fm(r1) + 1
        });
        assert(fm(cs1) == fm(r1) + 1);
        assert(w1 == r1[fm(r1)]);
    } else {
        assert(cs1 =~= r1);
        assert(w1 == r1[fm(r1)]);
    }
    assert(r1.len() > 0);
    lemma_fm(r1);
    lemma_fm(r2);
    lemma_fm_scores(r1, r2);
    let w2t = r2[fm(r2)];
    assert(w2t.0 == w1.0 && w2t.1 == w1.1);
    lemma_sort_len(cs2);
    lemma_sort_first(cs2);
    if delphi_score(e2) > 0 {
        assert(cs2.drop_first() =~= r2);
        lemma_fm(cs2);
        assert(fm(cs2) == if cs2[0].1 >= cs2[fm(r2) + 1].1 {
            0int
        } else {
            fm(r2) + 1
        });
        assert(cs2[fm(r2) + 1] == r2[fm(r2)]);
        assert(cs2[0].1 == delphi_score(e2) < w1.1);
        assert(fm(cs2) == fm(r2) + 1);
        assert(sorted_cands(e2)[0] == r2[fm(r2)]);
    } else {
        assert(cs2 =~= r2);
        assert(sorted_cands(e2)[0] == r2[fm(r2)]);
    }
}

} // verus!

verus! {

/// The Delphi evidence score and markers, for parser-local re-derivation.
pub fn delphi_evidence(inp: &DetectInput) -> (r: (u32, Vec<Vec<u8>>))
    ensures
        r.0 as int == delphi_score(*inp),
        views(r.1@) == delphi_markers(*inp),
{
    ProjectDetector::detect_delphi(inp)
}

/// The Laravel evidence score and markers, for parser-local re-derivation.
pub fn laravel_evidence(inp: &DetectInput) -> (r: (u32, Vec<Vec<u8>>))
    ensures
        r.0 as int == laravel_score(*inp),
        views(r.1@) == laravel_markers(*inp),
{
    ProjectDetector::detect_laravel(inp)
}

} // verus!

verus! {

/// Detection monotonicity, Delphi-winning case: when Delphi already wins
/// and only its evidence grows, it keeps winning.
#[verifier::rlimit(100)]
#[verifier::spinoff_prover]
pub proof fn lemma_winner_stays_delphi(e1: DetectInput, e2: DetectInput)
    requires
        laravel_score(e1) == laravel_score(e2),
        nodejs_score(e1) == nodejs_score(e2),
        php_score(e1) == php_score(e2),
        delphi_score(e1) <= delphi_score(e2),
        sorted_cands(e1).len() > 0,
        sorted_cands(e1)[0].0 == ProjectType::Delphi,
    ensures
        sorted_cands(e2).len() > 0,
        sorted_cands(e2)[0].0 == ProjectType::Delphi,
{
    let cs1 = spec_candidates(e1);
    let cs2 = spec_candidates(e2);
    let r1 = rest_candidates(e1);
    let r2 = rest_candidates(e2);
    assert(cs1 =~= (if delphi_score(e1) > 0 {
        seq![(ProjectType::Delphi, delphi_score(e1), delphi_markers(e1))]
    } else {
        Seq::<(ProjectType, int, Seq<Seq<u8>>)>::empty()
    }) + r1);
    assert(cs2 =~= (if delphi_score(e2) > 0 {
        seq![(ProjectType::Delphi, delphi_score(e2), delphi_markers(e2))]
    } else {
        Seq::<(ProjectType, int, Seq<Seq<u8>>)>::empty()
    }) + r2);
    assert(r1.len() == r2.len());
    assert forall|j: int| 0 <= j < r1.len() implies (#[trigger] r1[j]).0 != ProjectType::Delphi
        && r1[j].1 == r2[j].1 && r2[j].0 != ProjectType::Delphi by {}
    lemma_sort_len(cs1);
    lemma_sort_first(cs1);
    lemma_fm(cs1);
    // The winner is Delphi, so the Delphi candidate is present and first.
    if delphi_score(e1) <= 0 {
        assert(cs1 =~= r1);
        assert(cs1[fm(cs1)].0 != ProjectType::Delphi);
        assert(false);
    }
    assert(cs1.drop_first() =~= r1);
    if fm(cs1) != 0 {
        assert(cs1[fm(cs1)] == r1[fm(cs1) - 1]);
        assert(false);
    }
    // So the Delphi score dominates the rest.
    if r1.len() > 0 {
        lemma_fm(r1);
        assert(fm(cs1) == if cs1[0].1 >= cs1[fm(r1) + 1].1 {
            0int
        } else {
            fm(r1) + 1
        });
        assert(delphi_score(e1) >= r1[fm(r1)].1);
        lemma_fm_scores(r1, r2);
        lemma_fm(r2);
        assert(delphi_score(e2) >= r2[fm(r2)].1);
    }
    assert(delphi_score(e2) > 0);
    assert(cs2.drop_first() =~= r2);
    lemma_sort_len(cs2);
    lemma_sort_first(cs2);
    lemma_fm(cs2);
    if cs2.len() > 1 {
        lemma_fm(r2);
        assert(fm(cs2) == if cs2[0].1 >= cs2[fm(r2) + 1].1 {
            0int
        } else {
            fm(r2) + 1
        });
        assert(cs2[fm(r2) + 1] == r2[fm(r2)]);
        assert(fm(cs2) == 0);
    }
    assert(sorted_cands(e2)[0] == cs2[fm(cs2)]);
}

/// Detection monotonicity, crossover case: when the grown Delphi score
/// reaches the old winner's confidence, Delphi wins (Delphi is probed
/// first, so an exact tie already flips the winner).
#[verifier::rlimit(100)]
#[verifier::spinoff_prover]
pub proof fn lemma_delphi_takes_over(e1: DetectInput, e2: DetectInput)
    requires
        laravel_score(e1) == laravel_score(e2),
        nodejs_score(e1) == nodejs_score(e2),
        php_score(e1) == php_score(e2),
        sorted_cands(e1).len() > 0,
        delphi_score(e2) >= sorted_cands(e1)[0].1,
        delphi_score(e2) > 0,
    ensures
        sorted_cands(e2).len() > 0,
        sorted_cands(e2)[0].0 == ProjectType::Delphi,
        sorted_cands(e2)[0].1 == delphi_score(e2),
{
    let cs1 = spec_candidates(e1);
    let cs2 = spec_candidates(e2);
    let r1 = rest_candidates(e1);
    let r2 = rest_candidates(e2);
    assert(cs1 =~= (if delphi_score(e1) > 0 {
        seq![(ProjectType::Delphi, delphi_score(e1), delphi_markers(e1))]
    } else {
        Seq::<(ProjectType, int, Seq<Seq<u8>>)>::empty()
    }) + r1);
    assert(cs2 =~= (if delphi_score(e2) > 0 {
        seq![(ProjectType::Delphi, delphi_score(e2), delphi_markers(e2))]
    } else {
        Seq::<(ProjectType, int, Seq<Seq<u8>>)>::empty()
    }) + r2);
    assert(r1.len() == r2.len());
    assert forall|j: int| 0 <= j < r1.len() implies (#[trigger] r1[j]).1 == r2[j].1 by {}
    lemma_sort_len(cs1);
    lemma_sort_first(cs1);
    lemma_fm(cs1);
    let s_top = sorted_cands(e1)[0].1;
    // Every rest candidate scores at most the old winner.
    assert forall|j: int| 0 <= j < r2.len() implies (#[trigger] r2[j]).1 <= s_top by {
        if delphi_score(e1) > 0 {
            assert(cs1[j + 1] == r1[j]);
            assert(cs1[j + 1].1 <= cs1[fm(cs1)].1);
        } else {
            assert(cs1 =~= r1);
            assert(cs1[j].1 <= cs1[fm(cs1)].1);
        }
    }
    assert(cs2.drop_first() =~= r2);
    lemma_sort_len(cs2);
    lemma_sort_first(cs2);
    lemma_fm(cs2);
    if cs2.len() > 1 {
        lemma_fm(r2);
        assert(fm(cs2) == if cs2[0].1 >= cs2[fm(r2) + 1].1 {
            0int
        } else {
            fm(r2) + 1
        });
        assert(cs2[fm(r2) + 1] == r2[fm(r2)]);
        assert(fm(cs2) == 0);
    }
    assert(sorted_cands(e2)[0] == cs2[fm(cs2)]);
}

} // verus!
