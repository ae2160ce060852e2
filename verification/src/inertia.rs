//! Inertia.js page-component extraction: framework detection by filename
//! then content sniffing, ES imports, child components, `<Link>` targets,
//! router calls, Inertia hook flags, Vue props and emits, and TypeScript
//! type names.

use vstd::prelude::*;
use crate::facts::Dependency;
use crate::facts::DepModel;
use crate::facts::FileFacts;
use crate::facts::ImportFact;
use crate::facts::ImportModel;
use crate::facts::InertiaFacts;
use crate::facts::ParsedFile;
use crate::facts::Symbol;
use crate::facts::SymbolType;
use crate::facts::dep_models;
use crate::facts::import_model;
use crate::facts::import_models;
use crate::facts::lemma_dep_models_push;
use crate::facts::lemma_import_models_push;
use crate::facts::lemma_pair_views_push;
use crate::facts::lemma_sym_models_push;
use crate::facts::pair_views;
use crate::facts::sym_models;
use crate::source_file::SourceFile;
use crate::source_file::sf_model;
use crate::text::argviews;
use crate::text::concat;
use crate::text::contains_seq;
use crate::text::contains_sub;
use crate::text::dedup;
use crate::text::ends_with;
use crate::text::ends_with_x;
use crate::text::find_byte;
use crate::text::find_byte_x;
use crate::text::find_sub;
use crate::text::find_sub_x;
use crate::text::has_call;
use crate::text::has_call_x;
use crate::text::ident_end;
use crate::text::ident_end_x;
use crate::text::is_ident;
use crate::text::is_quote;
use crate::text::is_space;
use crate::text::is_upper;
use crate::text::lit;
use crate::text::litv;
use crate::text::match_at;
use crate::text::matches_at;
use crate::text::push_unique;
use crate::text::quote;
use crate::text::quoted_at;
use crate::text::quoted_at_x;
use crate::text::replace_all;
use crate::text::replace_all_x;
use crate::text::scan_arg;
use crate::text::scan_arg_spec;
use crate::text::skip_ws;
use crate::text::skip_ws_x;
use crate::text::slice_of;
use crate::text::space;
use crate::text::split_list;
use crate::text::split_list_x;
use crate::text::trim_ws;
use crate::text::trim_ws_x;
use crate::text::views;
use crate::text::bytes_eq;

verus! {

// ---------------------------------------------------------------------------
// Page name and framework
// ---------------------------------------------------------------------------

/// The page name a component path yields: the pages prefix (either case)
/// and the component extension removed.
pub open spec fn page_name_spec(path: Seq<u8>) -> Seq<u8> {
    replace_all(
        replace_all(
            replace_all(
                replace_all(
                    replace_all(
                        replace_all(path, lit("resources/js/Pages/"), Seq::empty()),
                        lit("resources/js/pages/"),
                        Seq::empty(),
                    ),
                    lit(".vue"),
                    Seq::empty(),
                ),
                lit(".jsx"),
                Seq::empty(),
            ),
            lit(".tsx"),
            Seq::empty(),
        ),
        lit(".svelte"),
        Seq::empty(),
    )
}

pub fn page_name_of(path: &Vec<u8>) -> (r: Vec<u8>)
    ensures
        r@ == page_name_spec(path@),
{
    let nothing: Vec<u8> = Vec::new();
    proof {
        assert(nothing@ =~= Seq::<u8>::empty());
    }
    let p1 = litv("resources/js/Pages/");
    let p2 = litv("resources/js/pages/");
    let vue_suffix = litv(".vue");
    let jsx_suffix = litv(".jsx");
    let tsx_suffix = litv(".tsx");
    let svelte_suffix = litv(".svelte");
    let a = replace_all_x(path, &p1, &nothing);
    let b = replace_all_x(&a, &p2, &nothing);
    let c = replace_all_x(&b, &vue_suffix, &nothing);
    let d = replace_all_x(&c, &jsx_suffix, &nothing);
    let e = replace_all_x(&d, &tsx_suffix, &nothing);
    replace_all_x(&e, &svelte_suffix, &nothing)
}

/// The framework of a page component: filename suffix first, then content
/// sniffing, else unknown.
pub open spec fn framework_spec(name: Seq<u8>, content: Seq<u8>) -> Seq<u8> {
    if ends_with(name, lit(".vue")) {
        lit("vue")
    } else if ends_with(name, lit(".svelte")) {
        lit("svelte")
    } else if ends_with(name, lit(".jsx")) || ends_with(name, lit(".tsx")) {
        lit("react")
    } else if contains_seq(content, lit("<template>")) || contains_seq(
        content,
        lit("<script setup"),
    ) {
        lit("vue")
    } else if contains_seq(content, lit("import React")) || contains_seq(
        content,
        lit("from 'react'"),
    ) {
        lit("react")
    } else {
        lit("unknown")
    }
}

pub fn framework_of(name: &Vec<u8>, content: &Vec<u8>) -> (r: Vec<u8>)
    ensures
        r@ == framework_spec(name@, content@),
{
    let vue_suffix = litv(".vue");
    let svelte_suffix = litv(".svelte");
    let jsx_suffix = litv(".jsx");
    let tsx_suffix = litv(".tsx");
    if ends_with_x(name, &vue_suffix) {
        return litv("vue");
    }
    if ends_with_x(name, &svelte_suffix) {
        return litv("svelte");
    }
    if ends_with_x(name, &jsx_suffix) || ends_with_x(name, &tsx_suffix) {
        return litv("react");
    }
    let template_tag = litv("<template>");
    let setup_tag = litv("<script setup");
    if contains_sub(content, &template_tag) || contains_sub(content, &setup_tag) {
        return litv("vue");
    }
    let react_import = litv("import React");
    let react_from = litv("from 'react'");
    if contains_sub(content, &react_import) || contains_sub(content, &react_from) {
        return litv("react");
    }
    litv("unknown")
}

// ---------------------------------------------------------------------------
// Imports
// ---------------------------------------------------------------------------

/// One ES import at `i`: either a named group `import { a, b } from 'p'`
/// (the raw name list) or a default import `import X from 'p'`.
pub open spec fn try_import(s: Seq<u8>, i: int) -> Option<(bool, Seq<u8>, Seq<u8>, int)> {
    if matches_at(s, lit("import"), i) && i + 6 < s.len() && is_space(s[i + 6]) {
        let a = skip_ws(s, i + 6);
        if a < s.len() && s[a] == 123 {
            let c = find_byte(s, 125, a + 1);
            if 0 <= c && c < s.len() && c > a + 1 {
                match import_tail(s, c + 1) {
                    Option::Some(p) => Option::Some((true, s.subrange(a + 1, c), p.0, p.1)),
                    Option::None => Option::None,
                }
            } else {
                Option::None
            }
        } else {
            let e = ident_end(s, a);
            if e > a {
                match import_tail(s, e) {
                    Option::Some(p) => Option::Some((false, s.subrange(a, e), p.0, p.1)),
                    Option::None => Option::None,
                }
            } else {
                Option::None
            }
        }
    } else {
        Option::None
    }
}

/// ` from '<path>'` after the imported names.
pub open spec fn import_tail(s: Seq<u8>, e: int) -> Option<(Seq<u8>, int)> {
    if 0 <= e && e < s.len() && is_space(s[e]) {
        let f = skip_ws(s, e);
        if matches_at(s, lit("from"), f) && f + 4 < s.len() && is_space(s[f + 4]) {
            let q = skip_ws(s, f + 4);
            quoted_at(s, false, q)
        } else {
            Option::None
        }
    } else {
        Option::None
    }
}

/// All raw import captures: the named flag, the raw names, the path.
pub open spec fn imports_from(s: Seq<u8>, i: int) -> Seq<(bool, Seq<u8>, Seq<u8>)>
    decreases s.len() - i,
{
    if i < 0 || i >= s.len() {
        Seq::empty()
    } else {
        match try_import(s, i) {
            Option::Some(r) => {
                let nxt = if r.3 <= i {
                    i + 1
                } else if r.3 > s.len() {
                    s.len() as int
                } else {
                    r.3
                };
                seq![(r.0, r.1, r.2)] + imports_from(s, nxt)
            },
            Option::None => imports_from(s, i + 1),
        }
    }
}

fn try_import_x(s: &Vec<u8>, i: usize) -> (r: Option<(bool, Vec<u8>, Vec<u8>, usize)>)
    requires
        i <= s.len(),
    ensures
        match r {
            Option::Some(p) => try_import(s@, i as int) == Option::Some(
                (p.0, p.1@, p.2@, p.3 as int),
            ) && i < p.3 <= s.len(),
            Option::None => try_import(s@, i as int) is None,
        },
{
    let import_kw = litv("import");
    if !(match_at(s, &import_kw, i) && s.len() - i > 6 && space(s[i + 6])) {
        return None;
    }
    let a = skip_ws_x(s, i + 6);
    if a < s.len() && s[a] == 123 {
        let c = find_byte_x(s, 125, a + 1);
        if !(c < s.len() && c > a + 1) {
            return None;
        }
        match self::import_tail_x(s, c + 1) {
            Option::Some((path, end)) => Some((true, slice_of(s, a + 1, c), path, end)),
            Option::None => None,
        }
    } else {
        let e = ident_end_x(s, a);
        if e <= a {
            return None;
        }
        match self::import_tail_x(s, e) {
            Option::Some((path, end)) => Some((false, slice_of(s, a, e), path, end)),
            Option::None => None,
        }
    }
}

fn import_tail_x(s: &Vec<u8>, e: usize) -> (r: Option<(Vec<u8>, usize)>)
    requires
        e <= s.len(),
    ensures
        match r {
            Option::Some(p) => import_tail(s@, e as int) == Option::Some((p.0@, p.1 as int)) && e
                < p.1 <= s.len(),
            Option::None => import_tail(s@, e as int) is None,
        },
{
    if !(e < s.len() && space(s[e])) {
        return None;
    }
    let f = skip_ws_x(s, e);
    let from_kw = litv("from");
    if !(match_at(s, &from_kw, f) && s.len() - f > 4 && space(s[f + 4])) {
        return None;
    }
    let q = skip_ws_x(s, f + 4);
    quoted_at_x(s, false, q)
}

/// A cleaned named-import name: trimmed, cut before ` as `, trimmed again.
pub open spec fn clean_import_name(x: Seq<u8>) -> Seq<u8> {
    let t = trim_ws(x);
    let p = find_sub(t, lit(" as "), 0);
    if 0 <= p && p < t.len() {
        trim_ws(t.subrange(0, p))
    } else {
        t
    }
}

pub fn clean_import_name_x(x: &Vec<u8>) -> (r: Vec<u8>)
    ensures
        r@ == clean_import_name(x@),
{
    let t = trim_ws_x(x);
    let as_kw = litv(" as ");
    let p = find_sub_x(&t, &as_kw, 0);
    if p < t.len() {
        let head = slice_of(&t, 0, p);
        trim_ws_x(&head)
    } else {
        t
    }
}

/// Whether the fact list already names an import.
pub open spec fn has_import_named(list: Seq<ImportModel>, n: Seq<u8>, i: int) -> bool
    decreases list.len() - i,
{
    if i < 0 || i >= list.len() {
        false
    } else if list[i].name == n {
        true
    } else {
        has_import_named(list, n, i + 1)
    }
}

/// The pieces of one named-import group, split on commas (no trimming yet).
pub open spec fn raw_pieces(raw: Seq<u8>, i: int) -> Seq<Seq<u8>>
    decreases raw.len() - i,
{
    if i < 0 || i > raw.len() {
        Seq::empty()
    } else {
        let p0 = find_byte(raw, 44, i);
        let p = if p0 < i {
            i
        } else if p0 > raw.len() {
            raw.len() as int
        } else {
            p0
        };
        let piece = raw.subrange(i, p);
        if p >= raw.len() {
            seq![piece]
        } else {
            seq![piece] + raw_pieces(raw, p + 1)
        }
    }
}

/// Fold one named group into the import list: each cleaned, non-empty name
/// becomes a `named` entry.
pub open spec fn fold_named(list: Seq<ImportModel>, pieces: Seq<Seq<u8>>, path: Seq<u8>, j: int) -> Seq<ImportModel>
    decreases j,
{
    if j <= 0 || j > pieces.len() {
        list
    } else {
        let pre = fold_named(list, pieces, path, j - 1);
        let n = clean_import_name(pieces[j - 1]);
        if n.len() > 0 {
            pre.push(ImportModel { name: n, path: path, kind: lit("named") })
        } else {
            pre
        }
    }
}

/// Fold the raw import captures into the import list: named groups add each
/// listed name, default imports add one entry unless the name is taken.
pub open spec fn fold_imports(
    list: Seq<ImportModel>,
    caps: Seq<(bool, Seq<u8>, Seq<u8>)>,
    k: int,
) -> Seq<ImportModel>
    decreases k,
{
    if k <= 0 || k > caps.len() {
        list
    } else {
        let pre = fold_imports(list, caps, k - 1);
        let c = caps[k - 1];
        if c.0 {
            let pieces = raw_pieces(c.1, 0);
            fold_named(pre, pieces, c.2, pieces.len() as int)
        } else {
            if has_import_named(pre, c.1, 0) {
                pre
            } else {
                pre.push(ImportModel { name: c.1, path: c.2, kind: lit("default") })
            }
        }
    }
}

/// The Vue component entries: default imports of `.vue` files, present
/// only when the page is a Vue component.
pub open spec fn vue_entries(caps: Seq<(bool, Seq<u8>, Seq<u8>)>, k: int) -> Seq<ImportModel>
    decreases k,
{
    if k <= 0 || k > caps.len() {
        Seq::empty()
    } else {
        vue_entries(caps, k - 1) + (if !caps[k - 1].0 && ends_with(caps[k - 1].2, lit(".vue")) {
            seq![
                ImportModel {
                    name: caps[k - 1].1,
                    path: caps[k - 1].2,
                    kind: lit("vue_component"),
                },
            ]
        } else {
            Seq::<ImportModel>::empty()
        })
    }
}

/// All import facts of a page: the Vue component entries first (for Vue
/// pages), then the general ES imports.
pub open spec fn imports_spec(s: Seq<u8>, framework: Seq<u8>) -> Seq<ImportModel> {
    let caps = imports_from(s, 0);
    let base: Seq<ImportModel> = if framework == lit("vue") {
        vue_entries(caps, caps.len() as int)
    } else {
        Seq::empty()
    };
    fold_imports(base, caps, caps.len() as int)
}

fn raw_pieces_x(raw: &Vec<u8>) -> (out: Vec<Vec<u8>>)
    ensures
        views(out@) == raw_pieces(raw@, 0),
{
    let mut out: Vec<Vec<u8>> = Vec::new();
    let mut i: usize = 0;
    loop
        invariant
            0 <= i <= raw.len(),
            views(out@) + raw_pieces(raw@, i as int) == raw_pieces(raw@, 0),
        decreases raw.len() - i + 1,
    {
        let p = find_byte_x(raw, 44, i);
        let piece = slice_of(raw, i, p);
        let ghost pre = out@;
        out.push(piece);
        proof {
            crate::text::lemma_views_push(pre, piece);
        }
        if p >= raw.len() {
            proof {
                assert(views(out@) =~= raw_pieces(raw@, 0));
            }
            return out;
        }
        proof {
            assert(views(out@) + raw_pieces(raw@, p + 1) =~= raw_pieces(raw@, 0));
        }
        i = p + 1;
    }
}

fn scan_imports(s: &Vec<u8>) -> (out: Vec<(bool, Vec<u8>, Vec<u8>)>)
    ensures
        import_caps_views(out@) == imports_from(s@, 0),
{
    let mut out: Vec<(bool, Vec<u8>, Vec<u8>)> = Vec::new();
    let mut i: usize = 0;
    while i < s.len()
        invariant
            0 <= i <= s.len(),
            import_caps_views(out@) + imports_from(s@, i as int) == imports_from(s@, 0),
        decreases s.len() - i,
    {
        match try_import_x(s, i) {
            Option::Some((named, names, path, end)) => {
                let ghost pre = out@;
                out.push((named, names, path));
                proof {
                    assert(import_caps_views(out@) =~= import_caps_views(pre).push(
                        (named, names@, path@),
                    ));
                    assert(import_caps_views(out@) + imports_from(s@, end as int) =~= imports_from(
                        s@,
                        0,
                    ));
                }
                i = end;
            },
            Option::None => {
                proof {
                    assert(imports_from(s@, i as int) == imports_from(s@, i + 1));
                }
                i = i + 1;
            },
        }
    }
    proof {
        assert(import_caps_views(out@) + Seq::<(bool, Seq<u8>, Seq<u8>)>::empty()
            =~= import_caps_views(out@));
    }
    out
}

pub open spec fn import_caps_views(v: Seq<(bool, Vec<u8>, Vec<u8>)>) -> Seq<
    (bool, Seq<u8>, Seq<u8>),
> {
    v.map_values(|x: (bool, Vec<u8>, Vec<u8>)| (x.0, x.1@, x.2@))
}

fn has_import_named_x(list: &Vec<ImportFact>, n: &Vec<u8>) -> (r: bool)
    ensures
        r == has_import_named(import_models(list@), n@, 0),
{
    let mut k: usize = 0;
    while k < list.len()
        invariant
            0 <= k <= list@.len(),
            has_import_named(import_models(list@), n@, 0) == has_import_named(
                import_models(list@),
                n@,
                k as int,
            ),
        decreases list@.len() - k,
    {
        proof {
            assert(import_models(list@)[k as int] == import_model(list@[k as int]));
        }
        if bytes_eq(&list[k].name, n) {
            proof {
                assert(has_import_named(import_models(list@), n@, k as int));
            }
            return true;
        }
        k = k + 1;
    }
    false
}

/// Extract the import facts of a page.
pub fn extract_imports(s: &Vec<u8>, framework: &Vec<u8>) -> (out: Vec<ImportFact>)
    ensures
        import_models(out@) == imports_spec(s@, framework@),
{
    let caps = scan_imports(s);
    let ghost cv = import_caps_views(caps@);
    let mut out: Vec<ImportFact> = Vec::new();
    let vue_kw = litv("vue");
    let vue_suffix = litv(".vue");
    if bytes_eq(framework, &vue_kw) {
        let mut k: usize = 0;
        while k < caps.len()
            invariant
                0 <= k <= caps@.len(),
                cv == import_caps_views(caps@),
                vue_suffix@ == lit(".vue"),
                import_models(out@) == vue_entries(cv, k as int),
            decreases caps@.len() - k,
        {
            proof {
                assert(cv[k as int] == (caps@[k as int].0, caps@[k as int].1@, caps@[k as int].2@));
            }
            if !caps[k].0 && ends_with_x(&caps[k].2, &vue_suffix) {
                let fact = ImportFact {
                    name: slice_of(&caps[k].1, 0, caps[k].1.len()),
                    path: slice_of(&caps[k].2, 0, caps[k].2.len()),
                    kind: litv("vue_component"),
                };
                let ghost pre = out@;
                out.push(fact);
                proof {
                    lemma_import_models_push(pre, fact);
                    assert(fact.name@ =~= cv[k as int].1);
                    assert(fact.path@ =~= cv[k as int].2);
                    assert(import_models(out@) =~= vue_entries(cv, k + 1));
                }
            } else {
                proof {
                    assert(vue_entries(cv, k as int) =~= vue_entries(cv, k + 1));
                }
            }
            k = k + 1;
        }
    }
    let ghost base = import_models(out@);
    let mut k: usize = 0;
    while k < caps.len()
        invariant
            0 <= k <= caps@.len(),
            cv == import_caps_views(caps@),
            base == if framework@ == lit("vue") {
                vue_entries(cv, cv.len() as int)
            } else {
                Seq::<ImportModel>::empty()
            },
            import_models(out@) == fold_imports(base, cv, k as int),
        decreases caps@.len() - k,
    {
        proof {
            assert(cv[k as int] == (caps@[k as int].0, caps@[k as int].1@, caps@[k as int].2@));
        }
        if caps[k].0 {
            let ghost pre_fold = import_models(out@);
            let ghost piecesv = raw_pieces(cv[k as int].1, 0);
            let pieces = raw_pieces_x(&caps[k].1);
            let path = &caps[k].2;
            proof {
                assert(views(pieces@) == piecesv);
            }
            let mut j: usize = 0;
            while j < pieces.len()
                invariant
                    0 <= j <= pieces@.len(),
                    cv == import_caps_views(caps@),
                    0 <= k < caps@.len(),
                    views(pieces@) == piecesv,
                    piecesv == raw_pieces(cv[k as int].1, 0),
                    path@ == cv[k as int].2,
                    import_models(out@) == fold_named(pre_fold, piecesv, path@, j as int),
                decreases pieces@.len() - j,
            {
                proof {
                    assert(views(pieces@)[j as int] == pieces@[j as int]@);
                }
                let n = clean_import_name_x(&pieces[j]);
                if n.len() > 0 {
                    let fact = ImportFact {
                        name: n,
                        path: slice_of(path, 0, path.len()),
                        kind: litv("named"),
                    };
                    let ghost pre = out@;
                    out.push(fact);
                    proof {
                        lemma_import_models_push(pre, fact);
                        assert(fact.path@ =~= path@);
                        assert(import_models(out@) =~= fold_named(
                            pre_fold,
                            piecesv,
                            path@,
                            j + 1,
                        ));
                    }
                } else {
                    proof {
                        assert(fold_named(pre_fold, piecesv, path@, j + 1) =~= fold_named(
                            pre_fold,
                            piecesv,
                            path@,
                            j as int,
                        ));
                    }
                }
                j = j + 1;
            }
            proof {
                assert(import_models(out@) =~= fold_imports(base, cv, k + 1));
            }
        } else {
            let n = &caps[k].1;
            if !has_import_named_x(&out, n) {
                let fact = ImportFact {
                    name: slice_of(n, 0, n.len()),
                    path: slice_of(&caps[k].2, 0, caps[k].2.len()),
                    kind: litv("default"),
                };
                let ghost pre = out@;
                out.push(fact);
                proof {
                    lemma_import_models_push(pre, fact);
                    assert(fact.name@ =~= cv[k as int].1);
                    assert(fact.path@ =~= cv[k as int].2);
                    assert(import_models(out@) =~= fold_imports(base, cv, k + 1));
                }
            } else {
                proof {
                    assert(fold_imports(base, cv, k + 1) =~= fold_imports(base, cv, k as int));
                }
            }
        }
        k = k + 1;
    }
    proof {
        assert(import_models(out@) =~= imports_spec(s@, framework@));
    }
    out
}

} // verus!

verus! {

// ---------------------------------------------------------------------------
// Child components, links, router calls
// ---------------------------------------------------------------------------

/// First position at or after `i` outside the alphanumeric charset.
pub open spec fn alnum_end(s: Seq<u8>, i: int) -> int
    decreases s.len() - i,
{
    if 0 <= i && i < s.len() && ((65 <= s[i] && s[i] <= 90) || (97 <= s[i] && s[i] <= 122) || (48
        <= s[i] && s[i] <= 57)) {
        alnum_end(s, i + 1)
    } else {
        i
    }
}

fn alnum_end_x(s: &Vec<u8>, i: usize) -> (r: usize)
    requires
        i <= s.len(),
    ensures
        r == alnum_end(s@, i as int),
        i <= r <= s.len(),
{
    let mut j: usize = i;
    while j < s.len() && ((65 <= s[j] && s[j] <= 90) || (97 <= s[j] && s[j] <= 122) || (48 <= s[j]
        && s[j] <= 57))
        invariant
            i <= j <= s.len(),
            alnum_end(s@, i as int) == alnum_end(s@, j as int),
        decreases s.len() - j,
    {
        j = j + 1;
    }
    j
}

/// The framework helper components excluded from child-component lists.
pub open spec fn is_builtin_component(n: Seq<u8>) -> bool {
    n == lit("Head") || n == lit("Link") || n == lit("InertiaLink") || n == lit("Teleport") || n
        == lit("Transition") || n == lit("TransitionGroup") || n == lit("KeepAlive") || n == lit(
        "Suspense",
    ) || n == lit("Fragment")
}

/// `<Component ...>` at `i`: an upper-started alphanumeric tag name
/// followed by whitespace, `/` or `>`.
pub open spec fn try_child(s: Seq<u8>, i: int) -> Option<(Seq<u8>, int)> {
    if 0 <= i && i < s.len() && s[i] == 60 && i + 1 < s.len() && is_upper(s[i + 1]) {
        let e = alnum_end(s, i + 2);
        if e < s.len() && (is_space(s[e]) || s[e] == 47 || s[e] == 62) {
            Option::Some((s.subrange(i + 1, e), e + 1))
        } else {
            Option::None
        }
    } else {
        Option::None
    }
}

pub open spec fn children_from(s: Seq<u8>, i: int) -> Seq<Seq<u8>>
    decreases s.len() - i,
{
    if i < 0 || i >= s.len() {
        Seq::empty()
    } else {
        match try_child(s, i) {
            Option::Some(r) => {
                let nxt = if r.1 <= i {
                    i + 1
                } else if r.1 > s.len() {
                    s.len() as int
                } else {
                    r.1
                };
                (if !is_builtin_component(r.0) {
                    seq![r.0]
                } else {
                    Seq::<Seq<u8>>::empty()
                }) + children_from(s, nxt)
            },
            Option::None => children_from(s, i + 1),
        }
    }
}

/// All child components, first occurrence kept, built-ins excluded.
pub open spec fn children_spec(s: Seq<u8>) -> Seq<Seq<u8>> {
    dedup(children_from(s, 0))
}

pub fn extract_child_components(s: &Vec<u8>) -> (out: Vec<Vec<u8>>)
    ensures
        views(out@) == children_spec(s@),
{
    let mut out: Vec<Vec<u8>> = Vec::new();
    let mut i: usize = 0;
    while i < s.len()
        invariant
            0 <= i <= s.len(),
            views(out@) == dedup(crate::routes::seqminus(
                children_from(s@, 0),
                children_from(s@, i as int),
            )),
            crate::routes::ctrl_suffix_ok(children_from(s@, 0), children_from(s@, i as int)),
        decreases s.len() - i,
    {
        let step: Option<(Vec<u8>, usize)> = if i < s.len() && s[i] == 60 && i + 1 < s.len()
            && crate::text::upper(s[i + 1]) {
            let e = alnum_end_x(s, i + 2);
            if e < s.len() && (space(s[e]) || s[e] == 47 || s[e] == 62) {
                Some((slice_of(s, i + 1, e), e + 1))
            } else {
                None
            }
        } else {
            None
        };
        match step {
            Option::Some((name, end)) => {
                proof {
                    assert(try_child(s@, i as int) == Option::Some((name@, end as int)));
                }
                let w1 = litv("Head");
                let w2 = litv("Link");
                let w3 = litv("InertiaLink");
                let w4 = litv("Teleport");
                let w5 = litv("Transition");
                let w6 = litv("TransitionGroup");
                let w7 = litv("KeepAlive");
                let w8 = litv("Suspense");
                let w9 = litv("Fragment");
                let builtin = bytes_eq(&name, &w1) || bytes_eq(&name, &w2) || bytes_eq(&name, &w3)
                    || bytes_eq(&name, &w4) || bytes_eq(&name, &w5) || bytes_eq(&name, &w6)
                    || bytes_eq(&name, &w7) || bytes_eq(&name, &w8) || bytes_eq(&name, &w9);
                let ghost acc = crate::routes::seqminus(
                    children_from(s@, 0),
                    children_from(s@, i as int),
                );
                if !builtin {
                    proof {
                        assert(children_from(s@, i as int) =~= seq![name@] + children_from(
                            s@,
                            if end as int <= i as int {
                                i + 1
                            } else {
                                end as int
                            },
                        ));
                        crate::routes::lemma_seqminus_step_pub(
                            children_from(s@, 0),
                            children_from(s@, if end as int <= i as int {
                                i + 1
                            } else {
                                end as int
                            }),
                            name@,
                        );
                        assert((acc.push(name@)).drop_last() =~= acc);
                    }
                    push_unique(&mut out, name);
                } else {
                    proof {
                        assert(children_from(s@, i as int) =~= children_from(s@, if end as int
                            <= i as int {
                            i + 1
                        } else {
                            end as int
                        }));
                    }
                }
                if end <= i {
                    i = i + 1;
                } else {
                    i = end;
                }
            },
            Option::None => {
                proof {
                    assert(try_child(s@, i as int) is None);
                    assert(children_from(s@, i as int) == children_from(s@, i + 1));
                }
                i = i + 1;
            },
        }
    }
    proof {
        assert(children_from(s@, s@.len() as int) =~= Seq::<Seq<u8>>::empty());
        assert(crate::routes::seqminus(children_from(s@, 0), Seq::<Seq<u8>>::empty())
            =~= children_from(s@, 0));
    }
    out
}

/// `<Link ... href='p'>` or `<InertiaLink ... href='p'>` at `i`: the first
/// `href` attribute before the closing bracket.
pub open spec fn try_link(s: Seq<u8>, i: int) -> Option<(Seq<u8>, int)> {
    let after: Option<int> = if matches_at(s, lit("<Link"), i) && i + 5 < s.len() && is_space(
        s[i + 5],
    ) {
        Option::Some(i + 5)
    } else if matches_at(s, lit("<InertiaLink"), i) && i + 12 < s.len() && is_space(s[i + 12]) {
        Option::Some(i + 12)
    } else {
        Option::None
    };
    match after {
        Option::None => Option::None,
        Option::Some(aft) => {
            let gt = find_byte(s, 62, aft);
            let hpos = find_sub(s, lit("href"), aft);
            if 0 <= hpos && hpos < s.len() && hpos < gt {
                let t = skip_ws(s, hpos + 4);
                if 0 <= t && t < s.len() && s[t] == 61 {
                    let q = skip_ws(s, t + 1);
                    quoted_at(s, false, q)
                } else {
                    Option::None
                }
            } else {
                Option::None
            }
        },
    }
}

pub open spec fn links_from(s: Seq<u8>, i: int) -> Seq<Seq<u8>>
    decreases s.len() - i,
{
    if i < 0 || i >= s.len() {
        Seq::empty()
    } else {
        match try_link(s, i) {
            Option::Some(r) => {
                let nxt = if r.1 <= i {
                    i + 1
                } else if r.1 > s.len() {
                    s.len() as int
                } else {
                    r.1
                };
                seq![r.0] + links_from(s, nxt)
            },
            Option::None => links_from(s, i + 1),
        }
    }
}

/// All `<Link>`/`<InertiaLink>` targets, first occurrence kept.
pub open spec fn links_spec(s: Seq<u8>) -> Seq<Seq<u8>> {
    dedup(links_from(s, 0))
}

pub fn extract_inertia_links(s: &Vec<u8>) -> (out: Vec<Vec<u8>>)
    ensures
        views(out@) == links_spec(s@),
{
    let link_tag = litv("<Link");
    let inertia_tag = litv("<InertiaLink");
    let href_kw = litv("href");
    let mut out: Vec<Vec<u8>> = Vec::new();
    let mut i: usize = 0;
    while i < s.len()
        invariant
            0 <= i <= s.len(),
            link_tag@ == lit("<Link"),
            inertia_tag@ == lit("<InertiaLink"),
            href_kw@ == lit("href"),
            views(out@) == dedup(crate::routes::seqminus(links_from(s@, 0), links_from(
                s@,
                i as int,
            ))),
            crate::routes::ctrl_suffix_ok(links_from(s@, 0), links_from(s@, i as int)),
        decreases s.len() - i,
    {
        let after: Option<usize> = if match_at(s, &link_tag, i) && s.len() - i > 5 && space(
            s[i + 5],
        ) {
            Some(i + 5)
        } else if match_at(s, &inertia_tag, i) && s.len() - i > 12 && space(s[i + 12]) {
            Some(i + 12)
        } else {
            None
        };
        let step: Option<(Vec<u8>, usize)> = match after {
            Option::Some(aft) => {
                let gt = find_byte_x(s, 62, aft);
                let hpos = find_sub_x(s, &href_kw, aft);
                if hpos < s.len() && hpos < gt {
                    let t = skip_ws_x(s, if s.len() - hpos > 4 {
                        hpos + 4
                    } else {
                        s.len()
                    });
                    if t < s.len() && s[t] == 61 {
                        let q = skip_ws_x(s, t + 1);
                        quoted_at_x(s, false, q)
                    } else {
                        None
                    }
                } else {
                    None
                }
            },
            Option::None => None,
        };
        match step {
            Option::Some((cap, end)) => {
                proof {
                    assert(try_link(s@, i as int) == Option::Some((cap@, end as int)));
                }
                let ghost acc = crate::routes::seqminus(links_from(s@, 0), links_from(
                    s@,
                    i as int,
                ));
                proof {
                    assert(links_from(s@, i as int) =~= seq![cap@] + links_from(s@, end as int));
                    crate::routes::lemma_seqminus_step_pub(
                        links_from(s@, 0),
                        links_from(s@, end as int),
                        cap@,
                    );
                    assert((acc.push(cap@)).drop_last() =~= acc);
                }
                push_unique(&mut out, cap);
                i = end;
            },
            Option::None => {
                proof {
                    assert(try_link(s@, i as int) is None);
                    assert(links_from(s@, i as int) == links_from(s@, i + 1));
                }
                i = i + 1;
            },
        }
    }
    proof {
        assert(links_from(s@, s@.len() as int) =~= Seq::<Seq<u8>>::empty());
        assert(crate::routes::seqminus(links_from(s@, 0), Seq::<Seq<u8>>::empty()) =~= links_from(
            s@,
            0,
        ));
    }
    out
}

/// A `router.<verb>('path')` call at `i`.
pub open spec fn is_router_verb(w: Seq<u8>) -> bool {
    w == lit("visit") || w == lit("get") || w == lit("post") || w == lit("put") || w == lit(
        "patch",
    ) || w == lit("delete")
}

pub open spec fn try_router(s: Seq<u8>, i: int) -> Option<(Seq<u8>, Seq<u8>, int)> {
    if matches_at(s, lit("router."), i) {
        let e = ident_end(s, i + 7);
        if e > i + 7 && is_router_verb(s.subrange(i + 7, e)) {
            let t = skip_ws(s, e);
            if t < s.len() && s[t] == 40 {
                let q = skip_ws(s, t + 1);
                match quoted_at(s, false, q) {
                    Option::Some(p) => Option::Some((s.subrange(i + 7, e), p.0, p.1)),
                    Option::None => Option::None,
                }
            } else {
                Option::None
            }
        } else {
            Option::None
        }
    } else {
        Option::None
    }
}

pub open spec fn router_calls_from(s: Seq<u8>, i: int) -> Seq<(Seq<u8>, Seq<u8>)>
    decreases s.len() - i,
{
    if i < 0 || i >= s.len() {
        Seq::empty()
    } else {
        match try_router(s, i) {
            Option::Some(r) => {
                let nxt = if r.2 <= i {
                    i + 1
                } else if r.2 > s.len() {
                    s.len() as int
                } else {
                    r.2
                };
                seq![(r.0, r.1)] + router_calls_from(s, nxt)
            },
            Option::None => router_calls_from(s, i + 1),
        }
    }
}

pub fn extract_router_calls(s: &Vec<u8>) -> (out: Vec<(Vec<u8>, Vec<u8>)>)
    ensures
        pair_views(out@) == router_calls_from(s@, 0),
{
    let router_kw = litv("router.");
    let mut out: Vec<(Vec<u8>, Vec<u8>)> = Vec::new();
    let mut i: usize = 0;
    while i < s.len()
        invariant
            0 <= i <= s.len(),
            router_kw@ == lit("router."),
            pair_views(out@) + router_calls_from(s@, i as int) == router_calls_from(s@, 0),
        decreases s.len() - i,
    {
        let step: Option<(Vec<u8>, Vec<u8>, usize)> = if match_at(s, &router_kw, i) {
            let e = if s.len() - i > 7 {
                ident_end_x(s, i + 7)
            } else {
                s.len()
            };
            proof {
                if s@.len() - i <= 7 {
                    assert(ident_end(s@, i as int + 7) == i + 7);
                }
            }
            let ok = if s.len() - i > 7 && e > i + 7 {
                let w = slice_of(s, i + 7, e);
                let w1 = litv("visit");
                let w2 = litv("get");
                let w3 = litv("post");
                let w4 = litv("put");
                let w5 = litv("patch");
                let w6 = litv("delete");
                bytes_eq(&w, &w1) || bytes_eq(&w, &w2) || bytes_eq(&w, &w3) || bytes_eq(&w, &w4)
                    || bytes_eq(&w, &w5) || bytes_eq(&w, &w6)
            } else {
                false
            };
            if ok {
                let t = skip_ws_x(s, e);
                if t < s.len() && s[t] == 40 {
                    let q = skip_ws_x(s, t + 1);
                    match quoted_at_x(s, false, q) {
                        Option::Some((p, end)) => Some((slice_of(s, i + 7, e), p, end)),
                        Option::None => None,
                    }
                } else {
                    None
                }
            } else {
                None
            }
        } else {
            None
        };
        match step {
            Option::Some((verb, path, end)) => {
                proof {
                    assert(try_router(s@, i as int) == Option::Some((verb@, path@, end as int)));
                }
                let ghost pre = out@;
                out.push((verb, path));
                proof {
                    lemma_pair_views_push(pre, (verb, path));
                    assert(pair_views(out@) + router_calls_from(s@, end as int)
                        =~= router_calls_from(s@, 0));
                }
                i = end;
            },
            Option::None => {
                proof {
                    assert(try_router(s@, i as int) is None);
                    assert(router_calls_from(s@, i as int) == router_calls_from(s@, i + 1));
                }
                i = i + 1;
            },
        }
    }
    proof {
        assert(pair_views(out@) + Seq::<(Seq<u8>, Seq<u8>)>::empty() =~= pair_views(out@));
    }
    out
}

} // verus!

verus! {

// ---------------------------------------------------------------------------
// Hooks, Vue props and emits, TypeScript types
// ---------------------------------------------------------------------------

/// `usePage()` occurs: the hook name, optional whitespace, `(`, optional
/// whitespace, `)`.
pub open spec fn use_page_at(s: Seq<u8>, i: int) -> bool {
    matches_at(s, lit("usePage"), i) && {
        let t = skip_ws(s, i + 7);
        0 <= t && t < s.len() && s[t] == 40 && {
            let u = skip_ws(s, t + 1);
            u < s.len() && s[u] == 41
        }
    }
}

pub open spec fn has_use_page_from(s: Seq<u8>, i: int) -> bool
    decreases s.len() - i,
{
    if i < 0 || i >= s.len() {
        false
    } else if use_page_at(s, i) {
        true
    } else {
        has_use_page_from(s, i + 1)
    }
}

pub fn has_use_page(s: &Vec<u8>) -> (r: bool)
    ensures
        r == has_use_page_from(s@, 0),
{
    let use_page_kw = litv("usePage");
    let mut i: usize = 0;
    while i < s.len()
        invariant
            0 <= i <= s.len(),
            use_page_kw@ == lit("usePage"),
            has_use_page_from(s@, 0) == has_use_page_from(s@, i as int),
        decreases s.len() - i,
    {
        if match_at(s, &use_page_kw, i) {
            let t = skip_ws_x(s, if s.len() - i > 7 {
                i + 7
            } else {
                s.len()
            });
            proof {
                if s@.len() - i <= 7 {
                    assert(skip_ws(s@, i as int + 7) == i + 7 || true);
                }
            }
            if t < s.len() && s[t] == 40 {
                let u = skip_ws_x(s, t + 1);
                if u < s.len() && s[u] == 41 {
                    proof {
                        assert(use_page_at(s@, i as int));
                    }
                    return true;
                }
            }
        }
        proof {
            assert(!use_page_at(s@, i as int));
        }
        i = i + 1;
    }
    false
}

/// One `defineProps({...})` object capture at `i`.
pub open spec fn try_props_block(s: Seq<u8>, i: int) -> Option<(Seq<u8>, int)> {
    match crate::text::toks_end(s, seq![lit("defineProps")], 0, i) {
        Option::None => Option::None,
        Option::Some(e) => {
            let p = skip_ws(s, e);
            if 0 <= p && p < s.len() && s[p] == 40 {
                let q = skip_ws(s, p + 1);
                if q < s.len() && s[q] == 123 {
                    let c = find_byte(s, 125, q + 1);
                    if c < s.len() && c > q + 1 {
                        Option::Some((s.subrange(q + 1, c), c + 1))
                    } else {
                        Option::None
                    }
                } else {
                    Option::None
                }
            } else {
                Option::None
            }
        },
    }
}

pub open spec fn props_blocks_from(s: Seq<u8>, i: int) -> Seq<Seq<u8>>
    decreases s.len() - i,
{
    if i < 0 || i >= s.len() {
        Seq::empty()
    } else {
        match try_props_block(s, i) {
            Option::Some(r) => {
                let nxt = if r.1 <= i {
                    i + 1
                } else if r.1 > s.len() {
                    s.len() as int
                } else {
                    r.1
                };
                seq![r.0] + props_blocks_from(s, nxt)
            },
            Option::None => props_blocks_from(s, i + 1),
        }
    }
}

/// The property names inside one props object: identifier runs followed by
/// a colon.
pub open spec fn prop_names_from(raw: Seq<u8>, i: int) -> Seq<Seq<u8>>
    decreases raw.len() - i,
{
    if i < 0 || i >= raw.len() {
        Seq::empty()
    } else if is_ident(raw[i]) && (i == 0 || !is_ident(raw[i - 1])) && {
        let e = ident_end(raw, i + 1);
        let t = skip_ws(raw, e);
        t < raw.len() && raw[t] == 58
    } {
        let e = ident_end(raw, i + 1);
        let t = skip_ws(raw, e);
        let nxt = if t + 1 <= i {
            i + 1
        } else if t + 1 > raw.len() {
            raw.len() as int
        } else {
            t + 1
        };
        seq![raw.subrange(i as int, e)] + prop_names_from(raw, nxt)
    } else {
        prop_names_from(raw, i + 1)
    }
}

fn prop_names_x(raw: &Vec<u8>) -> (out: Vec<Vec<u8>>)
    ensures
        views(out@) == prop_names_from(raw@, 0),
{
    let mut out: Vec<Vec<u8>> = Vec::new();
    let mut i: usize = 0;
    while i < raw.len()
        invariant
            0 <= i <= raw.len(),
            views(out@) + prop_names_from(raw@, i as int) == prop_names_from(raw@, 0),
        decreases raw.len() - i,
    {
        let mut stepped = false;
        if crate::text::ident(raw[i]) && (i == 0 || !crate::text::ident(raw[i - 1])) {
            let e = ident_end_x(raw, i + 1);
            let t = skip_ws_x(raw, e);
            if t < raw.len() && raw[t] == 58 {
                let cap = slice_of(raw, i, e);
                let ghost pre = out@;
                out.push(cap);
                proof {
                    crate::text::lemma_views_push(pre, cap);
                    assert(views(out@) + prop_names_from(raw@, if t as int + 1 <= i as int {
                        i + 1
                    } else {
                        t + 1
                    }) =~= prop_names_from(raw@, 0));
                }
                if t + 1 <= i {
                    i = i + 1;
                } else {
                    i = t + 1;
                }
                stepped = true;
            }
        }
        if !stepped {
            proof {
                assert(prop_names_from(raw@, i as int) == prop_names_from(raw@, i + 1));
            }
            i = i + 1;
        }
    }
    proof {
        assert(views(out@) + Seq::<Seq<u8>>::empty() =~= views(out@));
    }
    out
}

/// All Vue props over the props blocks, first occurrence kept.
pub open spec fn vue_props_pre(blocks: Seq<Seq<u8>>, k: int) -> Seq<Seq<u8>>
    decreases k,
{
    if k <= 0 || k > blocks.len() {
        Seq::empty()
    } else {
        vue_props_pre(blocks, k - 1) + prop_names_from(blocks[k - 1], 0)
    }
}

pub open spec fn vue_props_spec(s: Seq<u8>) -> Seq<Seq<u8>> {
    let blocks = props_blocks_from(s, 0);
    dedup(vue_props_pre(blocks, blocks.len() as int))
}

pub fn extract_vue_props(s: &Vec<u8>) -> (out: Vec<Vec<u8>>)
    ensures
        views(out@) == vue_props_spec(s@),
{
    let toks = vec![litv("defineProps")];
    proof {
        assert(views(toks@) =~= seq![lit("defineProps")]);
    }
    let mut blocks: Vec<Vec<u8>> = Vec::new();
    let mut i: usize = 0;
    while i < s.len()
        invariant
            0 <= i <= s.len(),
            views(toks@) == seq![lit("defineProps")],
            views(blocks@) + props_blocks_from(s@, i as int) == props_blocks_from(s@, 0),
        decreases s.len() - i,
    {
        let step: Option<(Vec<u8>, usize)> = match crate::text::toks_end_x(s, &toks, i) {
            Option::Some(e) => {
                let p = skip_ws_x(s, e);
                if p < s.len() && s[p] == 40 {
                    let q = skip_ws_x(s, p + 1);
                    if q < s.len() && s[q] == 123 {
                        let c = find_byte_x(s, 125, q + 1);
                        if c < s.len() && c > q + 1 {
                            Some((slice_of(s, q + 1, c), c + 1))
                        } else {
                            None
                        }
                    } else {
                        None
                    }
                } else {
                    None
                }
            },
            Option::None => None,
        };
        match step {
            Option::Some((cap, end)) => {
                proof {
                    assert(try_props_block(s@, i as int) == Option::Some((cap@, end as int)));
                }
                let ghost pre = blocks@;
                blocks.push(cap);
                proof {
                    crate::text::lemma_views_push(pre, cap);
                    assert(views(blocks@) + props_blocks_from(s@, end as int)
                        =~= props_blocks_from(s@, 0));
                }
                i = end;
            },
            Option::None => {
                proof {
                    assert(try_props_block(s@, i as int) is None);
                    assert(props_blocks_from(s@, i as int) == props_blocks_from(s@, i + 1));
                }
                i = i + 1;
            },
        }
    }
    proof {
        assert(views(blocks@) + Seq::<Seq<u8>>::empty() =~= views(blocks@));
    }
    let ghost bv = views(blocks@);
    let mut out: Vec<Vec<u8>> = Vec::new();
    let mut k: usize = 0;
    while k < blocks.len()
        invariant
            0 <= k <= blocks@.len(),
            bv == views(blocks@),
            bv == props_blocks_from(s@, 0),
            views(out@) == dedup(vue_props_pre(bv, k as int)),
        decreases blocks@.len() - k,
    {
        proof {
            assert(views(blocks@)[k as int] == blocks@[k as int]@);
        }
        let names = prop_names_x(&blocks[k]);
        let ghost nv = views(names@);
        let mut j: usize = 0;
        while j < names.len()
            invariant
                0 <= j <= names@.len(),
                nv == views(names@),
                0 <= k < blocks@.len(),
                bv == views(blocks@),
                bv == props_blocks_from(s@, 0),
                nv == prop_names_from(bv[k as int], 0),
                views(out@) == dedup(vue_props_pre(bv, k as int) + nv.take(j as int)),
            decreases names@.len() - j,
        {
            let x = slice_of(&names[j], 0, names[j].len());
            proof {
                assert(x@ =~= nv[j as int]);
                let acc = vue_props_pre(bv, k as int) + nv.take(j as int);
                assert((acc.push(x@)).drop_last() =~= acc);
                assert(acc.push(x@) =~= vue_props_pre(bv, k as int) + nv.take(j + 1));
            }
            push_unique(&mut out, x);
            j = j + 1;
        }
        proof {
            assert(nv.take(names@.len() as int) =~= nv);
            assert(vue_props_pre(bv, k as int) + nv =~= vue_props_pre(bv, k + 1));
        }
        k = k + 1;
    }
    proof {
        assert(views(out@) =~= vue_props_spec(s@));
    }
    out
}

/// The emitted events of all `defineEmits([...])` lists, first occurrence
/// kept.
pub open spec fn emits_pre(entries: Seq<(bool, Seq<u8>)>, k: int) -> Seq<Seq<u8>>
    decreases k,
{
    if k <= 0 || k > entries.len() {
        Seq::empty()
    } else {
        emits_pre(entries, k - 1) + (if entries[k - 1].0 {
            split_list(entries[k - 1].1)
        } else {
            Seq::<Seq<u8>>::empty()
        })
    }
}

pub open spec fn emits_spec(s: Seq<u8>) -> Seq<Seq<u8>> {
    let entries = scan_arg_spec(s, seq![lit("defineEmits")], false);
    dedup(emits_pre(entries, entries.len() as int))
}

pub fn extract_vue_emits(s: &Vec<u8>) -> (out: Vec<Vec<u8>>)
    ensures
        views(out@) == emits_spec(s@),
{
    let toks = vec![litv("defineEmits")];
    proof {
        assert(views(toks@) =~= seq![lit("defineEmits")]);
    }
    let entries = scan_arg(s, &toks, false);
    let ghost ev = argviews(entries@);
    let mut out: Vec<Vec<u8>> = Vec::new();
    let mut k: usize = 0;
    while k < entries.len()
        invariant
            0 <= k <= entries@.len(),
            ev == argviews(entries@),
            ev == scan_arg_spec(s@, seq![lit("defineEmits")], false),
            views(out@) == dedup(emits_pre(ev, k as int)),
        decreases entries@.len() - k,
    {
        proof {
            assert(ev[k as int] == (entries@[k as int].0, entries@[k as int].1@));
        }
        if entries[k].0 {
            let items = split_list_x(&entries[k].1);
            let ghost itemsv = views(items@);
            let mut j: usize = 0;
            while j < items.len()
                invariant
                    0 <= j <= items@.len(),
                    itemsv == views(items@),
                    0 <= k < entries@.len(),
                    ev == argviews(entries@),
                    ev == scan_arg_spec(s@, seq![lit("defineEmits")], false),
                    itemsv == split_list(ev[k as int].1),
                    ev[k as int].0,
                    views(out@) == dedup(emits_pre(ev, k as int) + itemsv.take(j as int)),
                decreases items@.len() - j,
            {
                let x = slice_of(&items[j], 0, items[j].len());
                proof {
                    assert(x@ =~= itemsv[j as int]);
                    let acc = emits_pre(ev, k as int) + itemsv.take(j as int);
                    assert((acc.push(x@)).drop_last() =~= acc);
                    assert(acc.push(x@) =~= emits_pre(ev, k as int) + itemsv.take(j + 1));
                }
                push_unique(&mut out, x);
                j = j + 1;
            }
            proof {
                assert(itemsv.take(items@.len() as int) =~= itemsv);
                assert(emits_pre(ev, k as int) + itemsv =~= emits_pre(ev, k + 1));
            }
        } else {
            proof {
                assert(emits_pre(ev, k as int) =~= emits_pre(ev, k + 1));
            }
        }
        k = k + 1;
    }
    proof {
        assert(views(out@) =~= emits_spec(s@));
    }
    out
}

/// `interface Name {` at `i`, or `type Name =` at `i`: the type name.
pub open spec fn try_ts_type(s: Seq<u8>, i: int) -> Option<(Seq<u8>, int)> {
    if matches_at(s, lit("interface"), i) && i + 9 < s.len() && is_space(s[i + 9]) {
        let k = skip_ws(s, i + 9);
        let e = ident_end(s, k);
        if e > k {
            let t = skip_ws(s, e);
            if t < s.len() && s[t] == 123 {
                Option::Some((s.subrange(k, e), t + 1))
            } else {
                Option::None
            }
        } else {
            Option::None
        }
    } else if matches_at(s, lit("type"), i) && i + 4 < s.len() && is_space(s[i + 4]) {
        let k = skip_ws(s, i + 4);
        let e = ident_end(s, k);
        if e > k {
            let t = skip_ws(s, e);
            if t < s.len() && s[t] == 61 {
                Option::Some((s.subrange(k, e), t + 1))
            } else {
                Option::None
            }
        } else {
            Option::None
        }
    } else {
        Option::None
    }
}

pub open spec fn ts_types_from(s: Seq<u8>, i: int) -> Seq<Seq<u8>>
    decreases s.len() - i,
{
    if i < 0 || i >= s.len() {
        Seq::empty()
    } else {
        match try_ts_type(s, i) {
            Option::Some(r) => {
                let nxt = if r.1 <= i {
                    i + 1
                } else if r.1 > s.len() {
                    s.len() as int
                } else {
                    r.1
                };
                seq![r.0] + ts_types_from(s, nxt)
            },
            Option::None => ts_types_from(s, i + 1),
        }
    }
}

/// All TypeScript interface and type names, first occurrence kept.
pub open spec fn ts_types_spec(s: Seq<u8>) -> Seq<Seq<u8>> {
    dedup(ts_types_from(s, 0))
}

pub fn extract_typescript_types(s: &Vec<u8>) -> (out: Vec<Vec<u8>>)
    ensures
        views(out@) == ts_types_spec(s@),
{
    let interface_kw = litv("interface");
    let type_kw = litv("type");
    let mut out: Vec<Vec<u8>> = Vec::new();
    let mut i: usize = 0;
    while i < s.len()
        invariant
            0 <= i <= s.len(),
            interface_kw@ == lit("interface"),
            type_kw@ == lit("type"),
            views(out@) == dedup(crate::routes::seqminus(ts_types_from(s@, 0), ts_types_from(
                s@,
                i as int,
            ))),
            crate::routes::ctrl_suffix_ok(ts_types_from(s@, 0), ts_types_from(s@, i as int)),
        decreases s.len() - i,
    {
        let step: Option<(Vec<u8>, usize)> = if match_at(s, &interface_kw, i) && s.len() - i > 9
            && space(s[i + 9]) {
            let k = skip_ws_x(s, i + 9);
            let e = ident_end_x(s, k);
            if e > k {
                let t = skip_ws_x(s, e);
                if t < s.len() && s[t] == 123 {
                    Some((slice_of(s, k, e), t + 1))
                } else {
                    None
                }
            } else {
                None
            }
        } else if match_at(s, &type_kw, i) && s.len() - i > 4 && space(s[i + 4]) {
            let k = skip_ws_x(s, i + 4);
            let e = ident_end_x(s, k);
            if e > k {
                let t = skip_ws_x(s, e);
                if t < s.len() && s[t] == 61 {
                    Some((slice_of(s, k, e), t + 1))
                } else {
                    None
                }
            } else {
                None
            }
        } else {
            None
        };
        match step {
            Option::Some((cap, end)) => {
                proof {
                    assert(try_ts_type(s@, i as int) == Option::Some((cap@, end as int)));
                }
                let ghost acc = crate::routes::seqminus(ts_types_from(s@, 0), ts_types_from(
                    s@,
                    i as int,
                ));
                proof {
                    assert(ts_types_from(s@, i as int) =~= seq![cap@] + ts_types_from(
                        s@,
                        end as int,
                    ));
                    crate::routes::lemma_seqminus_step_pub(
                        ts_types_from(s@, 0),
                        ts_types_from(s@, end as int),
                        cap@,
                    );
                    assert((acc.push(cap@)).drop_last() =~= acc);
                }
                push_unique(&mut out, cap);
                i = end;
            },
            Option::None => {
                proof {
                    assert(try_ts_type(s@, i as int) is None);
                    assert(ts_types_from(s@, i as int) == ts_types_from(s@, i + 1));
                }
                i = i + 1;
            },
        }
    }
    proof {
        assert(ts_types_from(s@, s@.len() as int) =~= Seq::<Seq<u8>>::empty());
        assert(crate::routes::seqminus(ts_types_from(s@, 0), Seq::<Seq<u8>>::empty())
            =~= ts_types_from(s@, 0));
    }
    out
}

// ---------------------------------------------------------------------------
// The parser
// ---------------------------------------------------------------------------

/// The dependencies a page's imports record: one per import fact, the path
/// as target, the imported name as alias.
pub open spec fn inertia_deps(s: Seq<u8>, framework: Seq<u8>) -> Seq<DepModel> {
    imports_spec(s, framework).map_values(
        |m: ImportModel|
            DepModel {
                target: m.path,
                alias: Option::Some(m.name),
                line_number: Option::None,
                is_interface: false,
                is_implementation: false,
            },
    )
}

/// Parser for Inertia.js page components.
pub struct InertiaParser;

impl InertiaParser {
    pub fn new() -> (r: Self) {
        InertiaParser
    }

    /// Parse an Inertia page component.
    #[verifier::rlimit(100)]
    #[verifier::spinoff_prover]
    pub fn parse(&self, file: &SourceFile, content: &Vec<u8>) -> (r: ParsedFile)
        ensures
            sf_model(r.source) == sf_model(*file),
            dep_models(r.dependencies@) == inertia_deps(
                content@,
                framework_spec(file.name@, content@),
            ),
            r.symbols@.len() == 1,
            sym_models(r.symbols@)[0].name == page_name_spec(file.path@),
            sym_models(r.symbols@)[0].qualified_name == lit("inertia:") + page_name_spec(
                file.path@,
            ),
            sym_models(r.symbols@)[0].symbol_type == SymbolType::Unit,
            (match r.facts {
                FileFacts::Inertia(f) => {
                    &&& f.page_name@ == page_name_spec(file.path@)
                    &&& f.framework@ == framework_spec(file.name@, content@)
                    &&& import_models(f.imports@) == imports_spec(
                        content@,
                        framework_spec(file.name@, content@),
                    )
                    &&& views(f.child_components@) == children_spec(content@)
                    &&& views(f.inertia_links@) == links_spec(content@)
                    &&& pair_views(f.router_calls@) == router_calls_from(content@, 0)
                    &&& f.uses_page_props == has_use_page_from(content@, 0)
                    &&& f.uses_inertia_form == has_call(content@, seq![lit("useForm")])
                    &&& views(f.props@) == (if framework_spec(file.name@, content@) == lit("vue") {
                        vue_props_spec(content@)
                    } else {
                        Seq::<Seq<u8>>::empty()
                    })
                    &&& views(f.emits@) == (if framework_spec(file.name@, content@) == lit("vue") {
                        emits_spec(content@)
                    } else {
                        Seq::<Seq<u8>>::empty()
                    })
                    &&& views(f.typescript_types@) == ts_types_spec(content@)
                },
                _ => false,
            }),
            r.warnings@.len() == 0,
    {
        let mut parsed = ParsedFile::new(file.duplicate());
        let page_name = page_name_of(&file.path);
        let framework = framework_of(&file.name, content);
        let imports = extract_imports(content, &framework);
        let ghost imp_deps = inertia_deps(content@, framework_spec(file.name@, content@));
        let mut ik: usize = 0;
        while ik < imports.len()
            invariant
                0 <= ik <= imports@.len(),
                import_models(imports@) == imports_spec(
                    content@,
                    framework_spec(file.name@, content@),
                ),
                imp_deps == inertia_deps(content@, framework_spec(file.name@, content@)),
                dep_models(parsed.dependencies@) == imp_deps.take(ik as int),
                parsed.symbols@.len() == 0,
                parsed.facts is Bare,
                parsed.warnings@.len() == 0,
                sf_model(parsed.source) == sf_model(*file),
            decreases imports@.len() - ik,
        {
            let target = slice_of(&imports[ik].path, 0, imports[ik].path.len());
            let alias = slice_of(&imports[ik].name, 0, imports[ik].name.len());
            let dep = Dependency {
                target,
                alias: Some(alias),
                line_number: None,
                is_interface: false,
                is_implementation: false,
            };
            let ghost pre = parsed.dependencies@;
            parsed.add_dependency(dep);
            proof {
                lemma_dep_models_push(pre, dep);
                assert(import_models(imports@)[ik as int] == import_model(imports@[ik as int]));
                assert(crate::facts::dep_model(dep) =~= imp_deps[ik as int]);
                assert(dep_models(parsed.dependencies@) =~= imp_deps.take(ik + 1));
            }
            ik = ik + 1;
        }
        proof {
            assert(imp_deps.take(imports@.len() as int) =~= imp_deps);
        }
        let child_components = extract_child_components(content);
        let inertia_links = extract_inertia_links(content);
        let router_calls = extract_router_calls(content);
        let uses_page_props = has_use_page(content);
        let use_form_toks = vec![litv("useForm")];
        proof {
            assert(views(use_form_toks@) =~= seq![lit("useForm")]);
        }
        let uses_inertia_form = has_call_x(content, &use_form_toks);
        let vue_kw = litv("vue");
        let is_vue = bytes_eq(&framework, &vue_kw);
        let props = if is_vue {
            extract_vue_props(content)
        } else {
            Vec::new()
        };
        let emits = if is_vue {
            extract_vue_emits(content)
        } else {
            Vec::new()
        };
        proof {
            if !is_vue {
                assert(views(props@) =~= Seq::<Seq<u8>>::empty());
                assert(views(emits@) =~= Seq::<Seq<u8>>::empty());
            }
        }
        let typescript_types = extract_typescript_types(content);
        parsed.facts = FileFacts::Inertia(
            InertiaFacts {
                page_name: slice_of(&page_name, 0, page_name.len()),
                framework,
                imports,
                child_components,
                inertia_links,
                router_calls,
                uses_page_props,
                uses_inertia_form,
                props,
                emits,
                typescript_types,
            },
        );
        let inertia_prefix = litv("inertia:");
        let qualified = concat(&inertia_prefix, &page_name);
        let sym = Symbol {
            name: page_name,
            qualified_name: qualified,
            symbol_type: SymbolType::Unit,
            visibility: Some(litv("public")),
            is_abstract: None,
            is_static: None,
            extends: None,
            implements: None,
            line_start: None,
            line_end: None,
        };
        let ghost pre = parsed.symbols@;
        parsed.add_symbol(sym);
        proof {
            lemma_sym_models_push(pre, sym);
            assert(sym.name@ =~= page_name_spec(file.path@));
            match &parsed.facts {
                FileFacts::Inertia(f) => {
                    assert(f.page_name@ =~= page_name_spec(file.path@));
                },
                _ => {
                    assert(false);
                },
            }
        }
        parsed
    }
}

} // verus!
