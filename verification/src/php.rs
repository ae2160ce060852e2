//! Base PHP lexical extraction: line-anchored searches for namespaces,
//! imports, classes, interfaces, traits, functions, methods, properties and
//! constants. Every construct has a definitional spec function over one
//! line, and file-level extraction folds those over the file's lines.

use vstd::prelude::*;
use crate::facts::Dependency;
use crate::facts::DepModel;
use crate::facts::FileFacts;
use crate::facts::ParsedFile;
use crate::facts::PhpFacts;
use crate::facts::Symbol;
use crate::facts::SymbolModel;
use crate::facts::SymbolType;
use crate::facts::dep_model;
use crate::facts::dep_models;
use crate::facts::lemma_dep_models_push;
use crate::facts::lemma_sym_models_push;
use crate::facts::opt_view;
use crate::facts::sym_model;
use crate::facts::sym_models;
use crate::source_file::SourceFile;
use crate::source_file::sf_model;
use crate::text::concat;
use crate::text::ident_bs_end;
use crate::text::ident_bs_end_x;
use crate::text::ident_end;
use crate::text::ident_end_x;
use crate::text::is_ident_bs;
use crate::text::is_space;
use crate::text::lit;
use crate::text::litv;
use crate::text::match_at;
use crate::text::matches_at;
use crate::text::find_byte;
use crate::text::find_byte_x;
use crate::text::skip_ws;
use crate::text::skip_ws_x;
use crate::text::slice_of;
use crate::text::space;
use crate::text::split_lines;
use crate::text::split_lines_x;
use crate::text::split_list;
use crate::text::split_list_x;
use crate::text::starts_with;
use crate::text::starts_with_x;
use crate::text::views;

verus! {

// ---------------------------------------------------------------------------
// Single-line parsers
// ---------------------------------------------------------------------------

/// `use <qualified>[ as <alias>];` on one line: the import target and alias.
pub open spec fn use_line_spec(l: Seq<u8>) -> Option<(Seq<u8>, Option<Seq<u8>>)> {
    let i = skip_ws(l, 0);
    if matches_at(l, lit("use"), i) && l.len() - i > 3 && is_space(l[i + 3]) {
        let k = skip_ws(l, i + 3);
        let e = ident_bs_end(l, k);
        if e > k {
            let target = l.subrange(k, e);
            let a = skip_ws(l, e);
            if a > e && matches_at(l, lit("as"), a) && l.len() - a > 2 && is_space(l[a + 2]) {
                let b = skip_ws(l, a + 2);
                let c = ident_end(l, b);
                if c > b {
                    let t = skip_ws(l, c);
                    if t < l.len() && l[t] == 59 {
                        Option::Some((target, Option::Some(l.subrange(b, c))))
                    } else {
                        no_alias_tail(l, target, e)
                    }
                } else {
                    no_alias_tail(l, target, e)
                }
            } else {
                no_alias_tail(l, target, e)
            }
        } else {
            Option::None
        }
    } else {
        Option::None
    }
}

/// The alias-free ending of a `use` line: optional whitespace, `;`.
pub open spec fn no_alias_tail(l: Seq<u8>, target: Seq<u8>, e: int) -> Option<
    (Seq<u8>, Option<Seq<u8>>),
> {
    let t = skip_ws(l, e);
    if t < l.len() && l[t] == 59 {
        Option::Some((target, Option::None))
    } else {
        Option::None
    }
}

pub fn use_line(l: &Vec<u8>) -> (r: Option<(Vec<u8>, Option<Vec<u8>>)>)
    ensures
        match r {
            Option::Some(p) => use_line_spec(l@) == Option::Some((p.0@, opt_view(p.1))),
            Option::None => use_line_spec(l@) is None,
        },
{
    let i = skip_ws_x(l, 0);
    let kw = litv("use");
    if !match_at(l, &kw, i) {
        return None;
    }
    if !(l.len() - i > 3 && space(l[i + 3])) {
        return None;
    }
    let k = skip_ws_x(l, i + 3);
    let e = ident_bs_end_x(l, k);
    if e <= k {
        return None;
    }
    let target = slice_of(l, k, e);
    let a = skip_ws_x(l, e);
    let as_kw = litv("as");
    if a > e && match_at(l, &as_kw, a) && l.len() - a > 2 && space(l[a + 2]) {
        let b = skip_ws_x(l, a + 2);
        let c = ident_end_x(l, b);
        if c > b {
            let t = skip_ws_x(l, c);
            if t < l.len() && l[t] == 59 {
                let alias = slice_of(l, b, c);
                return Some((target, Some(alias)));
            }
        }
    }
    let t = skip_ws_x(l, e);
    if t < l.len() && l[t] == 59 {
        return Some((target, None));
    }
    None
}

/// `namespace <qualified>;` on one line.
pub open spec fn namespace_line_spec(l: Seq<u8>) -> Option<Seq<u8>> {
    let i = skip_ws(l, 0);
    if matches_at(l, lit("namespace"), i) && l.len() - i > 9 && is_space(l[i + 9]) {
        let k = skip_ws(l, i + 9);
        let e = ident_bs_end(l, k);
        if e > k {
            let t = skip_ws(l, e);
            if t < l.len() && l[t] == 59 {
                Option::Some(l.subrange(k, e))
            } else {
                Option::None
            }
        } else {
            Option::None
        }
    } else {
        Option::None
    }
}

pub fn namespace_line(l: &Vec<u8>) -> (r: Option<Vec<u8>>)
    ensures
        match r {
            Option::Some(v) => namespace_line_spec(l@) == Option::Some(v@),
            Option::None => namespace_line_spec(l@) is None,
        },
{
    let i = skip_ws_x(l, 0);
    let kw = litv("namespace");
    if !match_at(l, &kw, i) {
        return None;
    }
    if !(l.len() - i > 9 && space(l[i + 9])) {
        return None;
    }
    let k = skip_ws_x(l, i + 9);
    let e = ident_bs_end_x(l, k);
    if e <= k {
        return None;
    }
    let t = skip_ws_x(l, e);
    if t < l.len() && l[t] == 59 {
        Some(slice_of(l, k, e))
    } else {
        None
    }
}

/// First byte position at or after `i` outside the `implements`-list charset
/// (identifier bytes, backslash, comma, whitespace).
pub open spec fn list_run_end(l: Seq<u8>, i: int) -> int
    decreases l.len() - i,
{
    if 0 <= i && i < l.len() && (is_ident_bs(l[i]) || l[i] == 44 || is_space(l[i])) {
        list_run_end(l, i + 1)
    } else {
        i
    }
}

pub fn list_run_end_x(l: &Vec<u8>, i: usize) -> (r: usize)
    requires
        i <= l.len(),
    ensures
        r == list_run_end(l@, i as int),
        i <= r <= l.len(),
{
    let mut j: usize = i;
    while j < l.len() && (crate::text::ident_bs(l[j]) || l[j] == 44 || space(l[j]))
        invariant
            i <= j <= l.len(),
            list_run_end(l@, i as int) == list_run_end(l@, j as int),
        decreases l.len() - j,
    {
        j = j + 1;
    }
    j
}

/// A class declaration found on one line: name, abstract flag, parent,
/// raw `implements` list text.
pub open spec fn class_line_spec(l: Seq<u8>, allow_modifier: bool) -> Option<
    (Seq<u8>, bool, Option<Seq<u8>>, Option<Seq<u8>>),
> {
    let i = skip_ws(l, 0);
    let j = if allow_modifier && matches_at(l, lit("abstract"), i) && l.len() - i > 8 && is_space(
        l[i + 8],
    ) {
        skip_ws(l, i + 8)
    } else if allow_modifier && matches_at(l, lit("final"), i) && l.len() - i > 5 && is_space(
        l[i + 5],
    ) {
        skip_ws(l, i + 5)
    } else {
        i
    };
    let is_abs = allow_modifier && matches_at(l, lit("abstract"), i) && l.len() - i > 8 && is_space(
        l[i + 8],
    );
    if matches_at(l, lit("class"), j) && l.len() - j > 5 && is_space(l[j + 5]) {
        let k = skip_ws(l, j + 5);
        let e = ident_end(l, k);
        if e > k {
            let name = l.subrange(k, e);
            let ext = class_extends_at(l, e);
            let p = match ext {
                Option::Some(pair) => pair.1,
                Option::None => e,
            };
            let imp = class_implements_at(l, p);
            Option::Some(
                (
                    name,
                    is_abs,
                    match ext {
                        Option::Some(pair) => Option::Some(pair.0),
                        Option::None => Option::None,
                    },
                    imp,
                ),
            )
        } else {
            Option::None
        }
    } else {
        Option::None
    }
}

/// ` extends <qualified>` at position `e`: the parent and the position after.
pub open spec fn class_extends_at(l: Seq<u8>, e: int) -> Option<(Seq<u8>, int)> {
    let a = skip_ws(l, e);
    if a > e && matches_at(l, lit("extends"), a) && l.len() - a > 7 && is_space(l[a + 7]) {
        let b = skip_ws(l, a + 7);
        let c = ident_bs_end(l, b);
        if c > b {
            Option::Some((l.subrange(b, c), c))
        } else {
            Option::None
        }
    } else {
        Option::None
    }
}

/// ` implements <list>` at position `p`: the raw list text.
pub open spec fn class_implements_at(l: Seq<u8>, p: int) -> Option<Seq<u8>> {
    let a = skip_ws(l, p);
    if a > p && matches_at(l, lit("implements"), a) && l.len() - a > 10 && is_space(l[a + 10]) {
        let b = skip_ws(l, a + 10);
        let c = list_run_end(l, b);
        if c > b {
            Option::Some(l.subrange(b, c))
        } else {
            Option::None
        }
    } else {
        Option::None
    }
}

/// Executable class declaration.
pub struct ClassDecl {
    pub name: Vec<u8>,
    pub is_abstract: bool,
    pub extends: Option<Vec<u8>>,
    pub implements_raw: Option<Vec<u8>>,
}

pub open spec fn class_decl_model(c: ClassDecl) -> (Seq<u8>, bool, Option<Seq<u8>>, Option<
    Seq<u8>,
>) {
    (c.name@, c.is_abstract, opt_view(c.extends), opt_view(c.implements_raw))
}

pub fn class_line(l: &Vec<u8>, allow_modifier: bool) -> (r: Option<ClassDecl>)
    ensures
        match r {
            Option::Some(c) => class_line_spec(l@, allow_modifier) == Option::Some(
                class_decl_model(c),
            ),
            Option::None => class_line_spec(l@, allow_modifier) is None,
        },
{
    let i = skip_ws_x(l, 0);
    let abstract_kw = litv("abstract");
    let final_kw = litv("final");
    let mut is_abs = false;
    let mut j = i;
    if allow_modifier && match_at(l, &abstract_kw, i) && l.len() - i > 8 && space(l[i + 8]) {
        is_abs = true;
        j = skip_ws_x(l, i + 8);
    } else if allow_modifier && match_at(l, &final_kw, i) && l.len() - i > 5 && space(l[i + 5]) {
        j = skip_ws_x(l, i + 5);
    }
    let class_kw = litv("class");
    if !(match_at(l, &class_kw, j) && l.len() - j > 5 && space(l[j + 5])) {
        return None;
    }
    let k = skip_ws_x(l, j + 5);
    let e = ident_end_x(l, k);
    if e <= k {
        return None;
    }
    let name = slice_of(l, k, e);
    let extends_kw = litv("extends");
    let a = skip_ws_x(l, e);
    let mut extends: Option<Vec<u8>> = None;
    let mut p = e;
    if a > e && match_at(l, &extends_kw, a) && l.len() - a > 7 && space(l[a + 7]) {
        let b = skip_ws_x(l, a + 7);
        let c = ident_bs_end_x(l, b);
        if c > b {
            extends = Some(slice_of(l, b, c));
            p = c;
        }
    }
    let implements_kw = litv("implements");
    let a2 = skip_ws_x(l, p);
    let mut implements_raw: Option<Vec<u8>> = None;
    if a2 > p && match_at(l, &implements_kw, a2) && l.len() - a2 > 10 && space(l[a2 + 10]) {
        let b2 = skip_ws_x(l, a2 + 10);
        let c2 = list_run_end_x(l, b2);
        if c2 > b2 {
            implements_raw = Some(slice_of(l, b2, c2));
        }
    }
    Some(ClassDecl { name, is_abstract: is_abs, extends, implements_raw })
}

/// `interface <name>[ extends <raw list>]` on one line.
pub open spec fn interface_line_spec(l: Seq<u8>) -> Option<(Seq<u8>, Option<Seq<u8>>)> {
    let i = skip_ws(l, 0);
    if matches_at(l, lit("interface"), i) && l.len() - i > 9 && is_space(l[i + 9]) {
        let k = skip_ws(l, i + 9);
        let e = ident_end(l, k);
        if e > k {
            let ext = class_implements_like_at(l, e, lit("extends"), 7);
            Option::Some((l.subrange(k, e), ext))
        } else {
            Option::None
        }
    } else {
        Option::None
    }
}

/// ` <kw> <raw charset list>` at position `p`.
pub open spec fn class_implements_like_at(l: Seq<u8>, p: int, kw: Seq<u8>, kwlen: int) -> Option<
    Seq<u8>,
> {
    let a = skip_ws(l, p);
    if a > p && matches_at(l, kw, a) && a + kwlen < l.len() && is_space(l[a + kwlen]) {
        let b = skip_ws(l, a + kwlen);
        let c = list_run_end(l, b);
        if c > b {
            Option::Some(l.subrange(b, c))
        } else {
            Option::None
        }
    } else {
        Option::None
    }
}

pub fn interface_line(l: &Vec<u8>) -> (r: Option<(Vec<u8>, Option<Vec<u8>>)>)
    ensures
        match r {
            Option::Some(p) => interface_line_spec(l@) == Option::Some((p.0@, opt_view(p.1))),
            Option::None => interface_line_spec(l@) is None,
        },
{
    let i = skip_ws_x(l, 0);
    let kw = litv("interface");
    if !(match_at(l, &kw, i) && l.len() - i > 9 && space(l[i + 9])) {
        return None;
    }
    let k = skip_ws_x(l, i + 9);
    let e = ident_end_x(l, k);
    if e <= k {
        return None;
    }
    let name = slice_of(l, k, e);
    let extends_kw = litv("extends");
    let a = skip_ws_x(l, e);
    let mut ext: Option<Vec<u8>> = None;
    if a > e && match_at(l, &extends_kw, a) && l.len() - a > 7 && space(l[a + 7]) {
        let b = skip_ws_x(l, a + 7);
        let c = list_run_end_x(l, b);
        if c > b {
            ext = Some(slice_of(l, b, c));
        }
    }
    proof {
        assert(class_implements_like_at(l@, e as int, lit("extends"), 7) == opt_view(ext));
    }
    Some((name, ext))
}

/// `trait <name>` on one line.
pub open spec fn trait_line_spec(l: Seq<u8>) -> Option<Seq<u8>> {
    let i = skip_ws(l, 0);
    if matches_at(l, lit("trait"), i) && l.len() - i > 5 && is_space(l[i + 5]) {
        let k = skip_ws(l, i + 5);
        let e = ident_end(l, k);
        if e > k {
            Option::Some(l.subrange(k, e))
        } else {
            Option::None
        }
    } else {
        Option::None
    }
}

pub fn trait_line(l: &Vec<u8>) -> (r: Option<Vec<u8>>)
    ensures
        match r {
            Option::Some(v) => trait_line_spec(l@) == Option::Some(v@),
            Option::None => trait_line_spec(l@) is None,
        },
{
    let i = skip_ws_x(l, 0);
    let kw = litv("trait");
    if !(match_at(l, &kw, i) && l.len() - i > 5 && space(l[i + 5])) {
        return None;
    }
    let k = skip_ws_x(l, i + 5);
    let e = ident_end_x(l, k);
    if e <= k {
        return None;
    }
    Some(slice_of(l, k, e))
}

/// A function or method declaration on one line: optional visibility,
/// optional `static`, the name, and whether a `)` closes the parameter list
/// on the same line.
pub open spec fn function_line_spec(l: Seq<u8>) -> Option<
    (Option<Seq<u8>>, bool, Seq<u8>, bool),
> {
    let i = skip_ws(l, 0);
    let vis: Option<(Seq<u8>, int)> = if matches_at(l, lit("public"), i) && l.len() - i > 6
        && is_space(l[i + 6]) {
        Option::Some((lit("public"), skip_ws(l, i + 6)))
    } else if matches_at(l, lit("protected"), i) && l.len() - i > 9 && is_space(l[i + 9]) {
        Option::Some((lit("protected"), skip_ws(l, i + 9)))
    } else if matches_at(l, lit("private"), i) && l.len() - i > 7 && is_space(l[i + 7]) {
        Option::Some((lit("private"), skip_ws(l, i + 7)))
    } else {
        Option::None
    };
    let j = match vis {
        Option::Some(pair) => pair.1,
        Option::None => i,
    };
    let is_static = matches_at(l, lit("static"), j) && l.len() - j > 6 && is_space(l[j + 6]);
    let m = if is_static {
        skip_ws(l, j + 6)
    } else {
        j
    };
    if matches_at(l, lit("function"), m) && l.len() - m > 8 && is_space(l[m + 8]) {
        let k = skip_ws(l, m + 8);
        let e = ident_end(l, k);
        if e > k {
            let t = skip_ws(l, e);
            if t < l.len() && l[t] == 40 {
                let closed = find_byte(l, 41, t + 1) < l.len();
                Option::Some(
                    (
                        match vis {
                            Option::Some(pair) => Option::Some(pair.0),
                            Option::None => Option::None,
                        },
                        is_static,
                        l.subrange(k, e),
                        closed,
                    ),
                )
            } else {
                Option::None
            }
        } else {
            Option::None
        }
    } else {
        Option::None
    }
}

/// Executable function declaration.
pub struct FnDecl {
    pub visibility: Option<Vec<u8>>,
    pub is_static: bool,
    pub name: Vec<u8>,
    pub params_closed: bool,
}

pub open spec fn fn_decl_model(f: FnDecl) -> (Option<Seq<u8>>, bool, Seq<u8>, bool) {
    (opt_view(f.visibility), f.is_static, f.name@, f.params_closed)
}

pub fn function_line(l: &Vec<u8>) -> (r: Option<FnDecl>)
    ensures
        match r {
            Option::Some(f) => function_line_spec(l@) == Option::Some(fn_decl_model(f)),
            Option::None => function_line_spec(l@) is None,
        },
{
    let i = skip_ws_x(l, 0);
    let public_kw = litv("public");
    let protected_kw = litv("protected");
    let private_kw = litv("private");
    let mut vis: Option<Vec<u8>> = None;
    let mut j = i;
    if match_at(l, &public_kw, i) && l.len() - i > 6 && space(l[i + 6]) {
        vis = Some(public_kw);
        j = skip_ws_x(l, i + 6);
    } else if match_at(l, &protected_kw, i) && l.len() - i > 9 && space(l[i + 9]) {
        vis = Some(protected_kw);
        j = skip_ws_x(l, i + 9);
    } else if match_at(l, &private_kw, i) && l.len() - i > 7 && space(l[i + 7]) {
        vis = Some(private_kw);
        j = skip_ws_x(l, i + 7);
    }
    let static_kw = litv("static");
    let is_static = match_at(l, &static_kw, j) && l.len() - j > 6 && space(l[j + 6]);
    let m = if is_static {
        skip_ws_x(l, j + 6)
    } else {
        j
    };
    let function_kw = litv("function");
    if !(match_at(l, &function_kw, m) && l.len() - m > 8 && space(l[m + 8])) {
        return None;
    }
    let k = skip_ws_x(l, m + 8);
    let e = ident_end_x(l, k);
    if e <= k {
        return None;
    }
    let t = skip_ws_x(l, e);
    if !(t < l.len() && l[t] == 40) {
        return None;
    }
    let close = find_byte_x(l, 41, t + 1);
    let name = slice_of(l, k, e);
    Some(FnDecl { visibility: vis, is_static, name, params_closed: close < l.len() })
}

/// A property declaration on one line: visibility, static flag, name.
pub open spec fn property_line_spec(l: Seq<u8>) -> Option<(Seq<u8>, bool, Seq<u8>)> {
    let i = skip_ws(l, 0);
    let vis: Option<(Seq<u8>, int)> = if matches_at(l, lit("public"), i) && l.len() - i > 6
        && is_space(l[i + 6]) {
        Option::Some((lit("public"), skip_ws(l, i + 6)))
    } else if matches_at(l, lit("protected"), i) && l.len() - i > 9 && is_space(l[i + 9]) {
        Option::Some((lit("protected"), skip_ws(l, i + 9)))
    } else if matches_at(l, lit("private"), i) && l.len() - i > 7 && is_space(l[i + 7]) {
        Option::Some((lit("private"), skip_ws(l, i + 7)))
    } else {
        Option::None
    };
    match vis {
        Option::None => Option::None,
        Option::Some(pair) => {
            let j = pair.1;
            let is_static = matches_at(l, lit("static"), j) && l.len() - j > 6 && is_space(
                l[j + 6],
            );
            let m = if is_static {
                skip_ws(l, j + 6)
            } else {
                j
            };
            match property_name_at(l, m) {
                Option::Some(name) => Option::Some((pair.0, is_static, name)),
                Option::None => Option::None,
            }
        },
    }
}

/// `$name` at `m`, or an optional nullable type token then `$name`.
pub open spec fn property_name_at(l: Seq<u8>, m: int) -> Option<Seq<u8>> {
    if m < l.len() && l[m] == 36 {
        let e = ident_end(l, m + 1);
        if e > m + 1 {
            Option::Some(l.subrange(m + 1, e))
        } else {
            Option::None
        }
    } else {
        let t0 = if m < l.len() && l[m] == 63 {
            m + 1
        } else {
            m
        };
        let te = ident_end(l, t0);
        if te > t0 && te < l.len() && is_space(l[te]) {
            let n = skip_ws(l, te);
            if n < l.len() && l[n] == 36 {
                let e = ident_end(l, n + 1);
                if e > n + 1 {
                    Option::Some(l.subrange(n + 1, e))
                } else {
                    Option::None
                }
            } else {
                Option::None
            }
        } else {
            Option::None
        }
    }
}

pub fn property_line(l: &Vec<u8>) -> (r: Option<(Vec<u8>, bool, Vec<u8>)>)
    ensures
        match r {
            Option::Some(p) => property_line_spec(l@) == Option::Some((p.0@, p.1, p.2@)),
            Option::None => property_line_spec(l@) is None,
        },
{
    let i = skip_ws_x(l, 0);
    let public_kw = litv("public");
    let protected_kw = litv("protected");
    let private_kw = litv("private");
    let mut vis: Option<Vec<u8>> = None;
    let mut j = i;
    if match_at(l, &public_kw, i) && l.len() - i > 6 && space(l[i + 6]) {
        vis = Some(public_kw);
        j = skip_ws_x(l, i + 6);
    } else if match_at(l, &protected_kw, i) && l.len() - i > 9 && space(l[i + 9]) {
        vis = Some(protected_kw);
        j = skip_ws_x(l, i + 9);
    } else if match_at(l, &private_kw, i) && l.len() - i > 7 && space(l[i + 7]) {
        vis = Some(private_kw);
        j = skip_ws_x(l, i + 7);
    }
    let v = match vis {
        Option::Some(v) => v,
        Option::None => {
            return None;
        },
    };
    let static_kw = litv("static");
    let is_static = match_at(l, &static_kw, j) && l.len() - j > 6 && space(l[j + 6]);
    let m = if is_static {
        skip_ws_x(l, j + 6)
    } else {
        j
    };
    if m < l.len() && l[m] == 36 {
        let e = ident_end_x(l, m + 1);
        if e > m + 1 {
            return Some((v, is_static, slice_of(l, m + 1, e)));
        }
        return None;
    }
    let t0 = if m < l.len() && l[m] == 63 {
        m + 1
    } else {
        m
    };
    let te = ident_end_x(l, t0);
    if te > t0 && te < l.len() && space(l[te]) {
        let n = skip_ws_x(l, te);
        if n < l.len() && l[n] == 36 {
            let e = ident_end_x(l, n + 1);
            if e > n + 1 {
                return Some((v, is_static, slice_of(l, n + 1, e)));
            }
        }
    }
    None
}

/// `const <NAME> =` on one line, with optional visibility.
pub open spec fn const_line_spec(l: Seq<u8>) -> Option<(Option<Seq<u8>>, Seq<u8>)> {
    let i = skip_ws(l, 0);
    let vis: Option<(Seq<u8>, int)> = if matches_at(l, lit("public"), i) && l.len() - i > 6
        && is_space(l[i + 6]) {
        Option::Some((lit("public"), skip_ws(l, i + 6)))
    } else if matches_at(l, lit("protected"), i) && l.len() - i > 9 && is_space(l[i + 9]) {
        Option::Some((lit("protected"), skip_ws(l, i + 9)))
    } else if matches_at(l, lit("private"), i) && l.len() - i > 7 && is_space(l[i + 7]) {
        Option::Some((lit("private"), skip_ws(l, i + 7)))
    } else {
        Option::None
    };
    let j = match vis {
        Option::Some(pair) => pair.1,
        Option::None => i,
    };
    if matches_at(l, lit("const"), j) && l.len() - j > 5 && is_space(l[j + 5]) {
        let k = skip_ws(l, j + 5);
        let e = ident_end(l, k);
        if e > k {
            let t = skip_ws(l, e);
            if t < l.len() && l[t] == 61 {
                Option::Some(
                    (
                        match vis {
                            Option::Some(pair) => Option::Some(pair.0),
                            Option::None => Option::None,
                        },
                        l.subrange(k, e),
                    ),
                )
            } else {
                Option::None
            }
        } else {
            Option::None
        }
    } else {
        Option::None
    }
}

pub fn const_line(l: &Vec<u8>) -> (r: Option<(Option<Vec<u8>>, Vec<u8>)>)
    ensures
        match r {
            Option::Some(p) => const_line_spec(l@) == Option::Some((opt_view(p.0), p.1@)),
            Option::None => const_line_spec(l@) is None,
        },
{
    let i = skip_ws_x(l, 0);
    let public_kw = litv("public");
    let protected_kw = litv("protected");
    let private_kw = litv("private");
    let mut vis: Option<Vec<u8>> = None;
    let mut j = i;
    if match_at(l, &public_kw, i) && l.len() - i > 6 && space(l[i + 6]) {
        vis = Some(public_kw);
        j = skip_ws_x(l, i + 6);
    } else if match_at(l, &protected_kw, i) && l.len() - i > 9 && space(l[i + 9]) {
        vis = Some(protected_kw);
        j = skip_ws_x(l, i + 9);
    } else if match_at(l, &private_kw, i) && l.len() - i > 7 && space(l[i + 7]) {
        vis = Some(private_kw);
        j = skip_ws_x(l, i + 7);
    }
    let const_kw = litv("const");
    if !(match_at(l, &const_kw, j) && l.len() - j > 5 && space(l[j + 5])) {
        return None;
    }
    let k = skip_ws_x(l, j + 5);
    let e = ident_end_x(l, k);
    if e <= k {
        return None;
    }
    let t = skip_ws_x(l, e);
    if t < l.len() && l[t] == 61 {
        Some((vis, slice_of(l, k, e)))
    } else {
        None
    }
}

} // verus!

verus! {

// ---------------------------------------------------------------------------
// File-level folds
// ---------------------------------------------------------------------------

/// `name` qualified by an optional namespace.
pub open spec fn qualify(ns: Option<Seq<u8>>, name: Seq<u8>) -> Seq<u8> {
    match ns {
        Option::Some(n) => n + lit("\\") + name,
        Option::None => name,
    }
}

/// Executable qualification.
pub fn qualify_x(ns: &Option<Vec<u8>>, name: &Vec<u8>) -> (r: Vec<u8>)
    ensures
        r@ == qualify(opt_view(*ns), name@),
{
    match ns {
        Option::Some(n) => {
            let sep = litv("\\");
            let a = concat(n, &sep);
            concat(&a, name)
        },
        Option::None => slice_of(name, 0, name.len()),
    }
}

/// The first namespace declared on any line.
pub open spec fn first_namespace(ls: Seq<Seq<u8>>, i: int) -> Option<Seq<u8>>
    decreases ls.len() - i,
{
    if i < 0 || i >= ls.len() {
        Option::None
    } else {
        match namespace_line_spec(ls[i]) {
            Option::Some(n) => Option::Some(n),
            Option::None => first_namespace(ls, i + 1),
        }
    }
}

/// The namespace of a PHP source text.
pub open spec fn php_namespace(s: Seq<u8>) -> Option<Seq<u8>> {
    first_namespace(split_lines(s), 0)
}

/// The dependencies contributed by `use` lines from line `i` on.
pub open spec fn use_deps(ls: Seq<Seq<u8>>, i: int) -> Seq<DepModel>
    decreases ls.len() - i,
{
    if i < 0 || i >= ls.len() {
        Seq::empty()
    } else {
        let rest = use_deps(ls, i + 1);
        match use_line_spec(ls[i]) {
            Option::Some(p) => seq![
                DepModel {
                    target: p.0,
                    alias: p.1,
                    line_number: Option::None,
                    is_interface: false,
                    is_implementation: false,
                },
            ] + rest,
            Option::None => rest,
        }
    }
}

/// The import dependencies of a PHP source text.
pub open spec fn php_use_deps(s: Seq<u8>) -> Seq<DepModel> {
    use_deps(split_lines(s), 0)
}

/// Class symbols from line `i` on.
pub open spec fn php_class_syms(ls: Seq<Seq<u8>>, ns: Option<Seq<u8>>, i: int) -> Seq<SymbolModel>
    decreases ls.len() - i,
{
    if i < 0 || i >= ls.len() {
        Seq::empty()
    } else {
        let rest = php_class_syms(ls, ns, i + 1);
        match class_line_spec(ls[i], true) {
            Option::Some(c) => seq![
                SymbolModel {
                    name: c.0,
                    qualified_name: qualify(ns, c.0),
                    symbol_type: SymbolType::Class,
                    visibility: Option::Some(lit("public")),
                    is_abstract: Option::Some(c.1),
                    is_static: Option::None,
                    extends: c.2,
                    implements: match c.3 {
                        Option::Some(raw) => Option::Some(split_list(raw)),
                        Option::None => Option::None,
                    },
                    line_start: Option::None,
                    line_end: Option::None,
                },
            ] + rest,
            Option::None => rest,
        }
    }
}

/// Interface symbols from line `i` on.
pub open spec fn php_iface_syms(ls: Seq<Seq<u8>>, ns: Option<Seq<u8>>, i: int) -> Seq<SymbolModel>
    decreases ls.len() - i,
{
    if i < 0 || i >= ls.len() {
        Seq::empty()
    } else {
        let rest = php_iface_syms(ls, ns, i + 1);
        match interface_line_spec(ls[i]) {
            Option::Some(p) => seq![
                SymbolModel {
                    name: p.0,
                    qualified_name: qualify(ns, p.0),
                    symbol_type: SymbolType::Interface,
                    visibility: Option::Some(lit("public")),
                    is_abstract: Option::None,
                    is_static: Option::None,
                    extends: p.1,
                    implements: Option::None,
                    line_start: Option::None,
                    line_end: Option::None,
                },
            ] + rest,
            Option::None => rest,
        }
    }
}

/// Trait symbols from line `i` on.
pub open spec fn php_trait_syms(ls: Seq<Seq<u8>>, ns: Option<Seq<u8>>, i: int) -> Seq<SymbolModel>
    decreases ls.len() - i,
{
    if i < 0 || i >= ls.len() {
        Seq::empty()
    } else {
        let rest = php_trait_syms(ls, ns, i + 1);
        match trait_line_spec(ls[i]) {
            Option::Some(name) => seq![
                SymbolModel {
                    name: name,
                    qualified_name: qualify(ns, name),
                    symbol_type: SymbolType::Trait,
                    visibility: Option::Some(lit("public")),
                    is_abstract: Option::None,
                    is_static: Option::None,
                    extends: Option::None,
                    implements: Option::None,
                    line_start: Option::None,
                    line_end: Option::None,
                },
            ] + rest,
            Option::None => rest,
        }
    }
}

/// Standalone function symbols: declarations without visibility whose name
/// is not magic.
pub open spec fn php_func_syms(ls: Seq<Seq<u8>>, i: int) -> Seq<SymbolModel>
    decreases ls.len() - i,
{
    if i < 0 || i >= ls.len() {
        Seq::empty()
    } else {
        let rest = php_func_syms(ls, i + 1);
        match function_line_spec(ls[i]) {
            Option::Some(f) => {
                if f.0 is None && !starts_with(f.2, lit("__")) {
                    seq![
                        SymbolModel {
                            name: f.2,
                            qualified_name: f.2,
                            symbol_type: SymbolType::Function,
                            visibility: Option::None,
                            is_abstract: Option::None,
                            is_static: Option::Some(f.1),
                            extends: Option::None,
                            implements: Option::None,
                            line_start: Option::None,
                            line_end: Option::None,
                        },
                    ] + rest
                } else {
                    rest
                }
            },
            Option::None => rest,
        }
    }
}

/// Method symbols: declarations with visibility and a closed parameter list.
pub open spec fn php_method_syms(ls: Seq<Seq<u8>>, i: int) -> Seq<SymbolModel>
    decreases ls.len() - i,
{
    if i < 0 || i >= ls.len() {
        Seq::empty()
    } else {
        let rest = php_method_syms(ls, i + 1);
        match function_line_spec(ls[i]) {
            Option::Some(f) => {
                if f.0 is Some && f.3 {
                    seq![
                        SymbolModel {
                            name: f.2,
                            qualified_name: f.2,
                            symbol_type: SymbolType::Method,
                            visibility: f.0,
                            is_abstract: Option::None,
                            is_static: Option::Some(f.1),
                            extends: Option::None,
                            implements: Option::None,
                            line_start: Option::None,
                            line_end: Option::None,
                        },
                    ] + rest
                } else {
                    rest
                }
            },
            Option::None => rest,
        }
    }
}

/// Property symbols.
pub open spec fn php_prop_syms(ls: Seq<Seq<u8>>, i: int) -> Seq<SymbolModel>
    decreases ls.len() - i,
{
    if i < 0 || i >= ls.len() {
        Seq::empty()
    } else {
        let rest = php_prop_syms(ls, i + 1);
        match property_line_spec(ls[i]) {
            Option::Some(p) => seq![
                SymbolModel {
                    name: p.2,
                    qualified_name: p.2,
                    symbol_type: SymbolType::Property,
                    visibility: Option::Some(p.0),
                    is_abstract: Option::None,
                    is_static: Option::Some(p.1),
                    extends: Option::None,
                    implements: Option::None,
                    line_start: Option::None,
                    line_end: Option::None,
                },
            ] + rest,
            Option::None => rest,
        }
    }
}

/// Constant symbols.
pub open spec fn php_const_syms(ls: Seq<Seq<u8>>, i: int) -> Seq<SymbolModel>
    decreases ls.len() - i,
{
    if i < 0 || i >= ls.len() {
        Seq::empty()
    } else {
        let rest = php_const_syms(ls, i + 1);
        match const_line_spec(ls[i]) {
            Option::Some(p) => seq![
                SymbolModel {
                    name: p.1,
                    qualified_name: p.1,
                    symbol_type: SymbolType::Constant,
                    visibility: p.0,
                    is_abstract: Option::None,
                    is_static: Option::Some(true),
                    extends: Option::None,
                    implements: Option::None,
                    line_start: Option::None,
                    line_end: Option::None,
                },
            ] + rest,
            Option::None => rest,
        }
    }
}

/// Every symbol the base PHP extractor mines from a source text, in
/// extraction order: classes, interfaces, traits, functions, methods,
/// properties, constants.
pub open spec fn php_symbols(s: Seq<u8>) -> Seq<SymbolModel> {
    let ls = split_lines(s);
    let ns = first_namespace(ls, 0);
    php_class_syms(ls, ns, 0) + php_iface_syms(ls, ns, 0) + php_trait_syms(ls, ns, 0)
        + php_func_syms(ls, 0) + php_method_syms(ls, 0) + php_prop_syms(ls, 0) + php_const_syms(
        ls,
        0,
    )
}

} // verus!

verus! {

/// Base PHP parser: line-anchored construct searches shared by the Laravel
/// extractors.
pub struct PhpParser;

impl PhpParser {
    pub fn new() -> (r: Self) {
        PhpParser
    }

    /// The file's namespace, from the first `namespace ...;` line.
    pub fn extract_namespace(&self, content: &Vec<u8>) -> (r: Option<Vec<u8>>)
        ensures
            opt_view(r) == php_namespace(content@),
    {
        let lines = split_lines_x(content);
        let ghost lsv = split_lines(content@);
        let mut k: usize = 0;
        while k < lines.len()
            invariant
                0 <= k <= lines@.len(),
                views(lines@) == lsv,
                lsv == split_lines(content@),
                first_namespace(lsv, 0) == first_namespace(lsv, k as int),
            decreases lines@.len() - k,
        {
            proof {
                assert(views(lines@)[k as int] == lines@[k as int]@);
            }
            match namespace_line(&lines[k]) {
                Option::Some(n) => {
                    return Some(n);
                },
                Option::None => {
                },
            }
            k = k + 1;
        }
        None
    }

    /// Record every `use` import as a dependency.
    pub fn extract_use_statements(&self, content: &Vec<u8>, parsed: &mut ParsedFile)
        ensures
            dep_models(final(parsed).dependencies@) == dep_models(old(parsed).dependencies@)
                + php_use_deps(content@),
            final(parsed).symbols == old(parsed).symbols,
            final(parsed).source == old(parsed).source,
            final(parsed).facts == old(parsed).facts,
            final(parsed).warnings == old(parsed).warnings,
    {
        let lines = split_lines_x(content);
        let ghost lsv = split_lines(content@);
        let ghost base = dep_models(parsed.dependencies@);
        let ghost p0 = *parsed;
        let mut k: usize = 0;
        while k < lines.len()
            invariant
                0 <= k <= lines@.len(),
                views(lines@) == lsv,
                lsv == split_lines(content@),
                dep_models(parsed.dependencies@) + use_deps(lsv, k as int) == base + use_deps(
                    lsv,
                    0,
                ),
                parsed.symbols == p0.symbols,
                parsed.source == p0.source,
                parsed.facts == p0.facts,
                parsed.warnings == p0.warnings,
            decreases lines@.len() - k,
        {
            proof {
                assert(views(lines@)[k as int] == lines@[k as int]@);
            }
            match use_line(&lines[k]) {
                Option::Some((target, alias)) => {
                    let dep = Dependency {
                        target,
                        alias,
                        line_number: None,
                        is_interface: false,
                        is_implementation: false,
                    };
                    let ghost pre = parsed.dependencies@;
                    parsed.add_dependency(dep);
                    proof {
                        lemma_dep_models_push(pre, dep);
                        assert(dep_models(parsed.dependencies@) + use_deps(lsv, k + 1) =~= base
                            + use_deps(lsv, 0));
                    }
                },
                Option::None => {
                    proof {
                        assert(use_deps(lsv, k as int) == use_deps(lsv, k + 1));
                    }
                },
            }
            k = k + 1;
        }
        proof {
            assert(use_deps(lsv, lines@.len() as int) =~= Seq::<DepModel>::empty());
            assert(dep_models(parsed.dependencies@) =~= base + php_use_deps(content@));
        }
    }
}

} // verus!


verus! {

impl PhpParser {

    /// Record every class declaration as a symbol.
    pub fn extract_classes(&self, content: &Vec<u8>, ns: &Option<Vec<u8>>, parsed: &mut ParsedFile)
        ensures
            sym_models(final(parsed).symbols@) == sym_models(old(parsed).symbols@) + php_class_syms(
                split_lines(content@),
                opt_view(*ns),
                0,
            ),
            final(parsed).dependencies == old(parsed).dependencies,
            final(parsed).source == old(parsed).source,
            final(parsed).facts == old(parsed).facts,
            final(parsed).warnings == old(parsed).warnings,
    {
        let lines = split_lines_x(content);
        let ghost lsv = split_lines(content@);
        let ghost nsv = opt_view(*ns);
        let ghost base = sym_models(parsed.symbols@);
        let ghost p0 = *parsed;
        let mut k: usize = 0;
        while k < lines.len()
            invariant
                0 <= k <= lines@.len(),
                views(lines@) == lsv,
                lsv == split_lines(content@),
                nsv == opt_view(*ns),
                sym_models(parsed.symbols@) + php_class_syms(lsv, nsv, k as int) == base + php_class_syms(
                    lsv,
                    nsv,
                    0,
                ),
                parsed.dependencies == p0.dependencies,
                parsed.source == p0.source,
                parsed.facts == p0.facts,
                parsed.warnings == p0.warnings,
            decreases lines@.len() - k,
        {
            proof {
                assert(views(lines@)[k as int] == lines@[k as int]@);
            }
            match class_line(&lines[k], true) {
                Option::Some(c) => {
                    let qualified = qualify_x(ns, &c.name);
                    let implements = match c.implements_raw {
                        Option::Some(raw) => Some(split_list_x(&raw)),
                        Option::None => None,
                    };
                    let sym = Symbol {
                        name: c.name,
                        qualified_name: qualified,
                        symbol_type: SymbolType::Class,
                        visibility: Some(litv("public")),
                        is_abstract: Some(c.is_abstract),
                        is_static: None,
                        extends: c.extends,
                        implements,
                        line_start: None,
                        line_end: None,
                    };
                    let ghost pre = parsed.symbols@;
                    parsed.add_symbol(sym);
                    proof {
                        lemma_sym_models_push(pre, sym);
                        assert(sym_models(parsed.symbols@) + php_class_syms(lsv, nsv, k + 1)
                            =~= base + php_class_syms(lsv, nsv, 0));
                    }
                },
                Option::None => {
                    proof {
                        assert(php_class_syms(lsv, nsv, k as int) == php_class_syms(lsv, nsv, k + 1));
                    }
                },
            }
            k = k + 1;
        }
        proof {
            assert(php_class_syms(lsv, nsv, lines@.len() as int) =~= Seq::<SymbolModel>::empty());
            assert(sym_models(parsed.symbols@) =~= base + php_class_syms(lsv, nsv, 0));
        }
    }


    /// Record every interface declaration as a symbol.
    pub fn extract_interfaces(&self, content: &Vec<u8>, ns: &Option<Vec<u8>>, parsed: &mut ParsedFile)
        ensures
            sym_models(final(parsed).symbols@) == sym_models(old(parsed).symbols@) + php_iface_syms(
                split_lines(content@),
                opt_view(*ns),
                0,
            ),
            final(parsed).dependencies == old(parsed).dependencies,
            final(parsed).source == old(parsed).source,
            final(parsed).facts == old(parsed).facts,
            final(parsed).warnings == old(parsed).warnings,
    {
        let lines = split_lines_x(content);
        let ghost lsv = split_lines(content@);
        let ghost nsv = opt_view(*ns);
        let ghost base = sym_models(parsed.symbols@);
        let ghost p0 = *parsed;
        let mut k: usize = 0;
        while k < lines.len()
            invariant
                0 <= k <= lines@.len(),
                views(lines@) == lsv,
                lsv == split_lines(content@),
                nsv == opt_view(*ns),
                sym_models(parsed.symbols@) + php_iface_syms(lsv, nsv, k as int) == base + php_iface_syms(
                    lsv,
                    nsv,
                    0,
                ),
                parsed.dependencies == p0.dependencies,
                parsed.source == p0.source,
                parsed.facts == p0.facts,
                parsed.warnings == p0.warnings,
            decreases lines@.len() - k,
        {
            proof {
                assert(views(lines@)[k as int] == lines@[k as int]@);
            }
            match interface_line(&lines[k]) {
                Option::Some((name, ext)) => {
                    let qualified = qualify_x(ns, &name);
                    let sym = Symbol {
                        name,
                        qualified_name: qualified,
                        symbol_type: SymbolType::Interface,
                        visibility: Some(litv("public")),
                        is_abstract: None,
                        is_static: None,
                        extends: ext,
                        implements: None,
                        line_start: None,
                        line_end: None,
                    };
                    let ghost pre = parsed.symbols@;
                    parsed.add_symbol(sym);
                    proof {
                        lemma_sym_models_push(pre, sym);
                        assert(sym_models(parsed.symbols@) + php_iface_syms(lsv, nsv, k + 1)
                            =~= base + php_iface_syms(lsv, nsv, 0));
                    }
                },
                Option::None => {
                    proof {
                        assert(php_iface_syms(lsv, nsv, k as int) == php_iface_syms(lsv, nsv, k + 1));
                    }
                },
            }
            k = k + 1;
        }
        proof {
            assert(php_iface_syms(lsv, nsv, lines@.len() as int) =~= Seq::<SymbolModel>::empty());
            assert(sym_models(parsed.symbols@) =~= base + php_iface_syms(lsv, nsv, 0));
        }
    }


    /// Record every trait declaration as a symbol.
    pub fn extract_traits(&self, content: &Vec<u8>, ns: &Option<Vec<u8>>, parsed: &mut ParsedFile)
        ensures
            sym_models(final(parsed).symbols@) == sym_models(old(parsed).symbols@) + php_trait_syms(
                split_lines(content@),
                opt_view(*ns),
                0,
            ),
            final(parsed).dependencies == old(parsed).dependencies,
            final(parsed).source == old(parsed).source,
            final(parsed).facts == old(parsed).facts,
            final(parsed).warnings == old(parsed).warnings,
    {
        let lines = split_lines_x(content);
        let ghost lsv = split_lines(content@);
        let ghost nsv = opt_view(*ns);
        let ghost base = sym_models(parsed.symbols@);
        let ghost p0 = *parsed;
        let mut k: usize = 0;
        while k < lines.len()
            invariant
                0 <= k <= lines@.len(),
                views(lines@) == lsv,
                lsv == split_lines(content@),
                nsv == opt_view(*ns),
                sym_models(parsed.symbols@) + php_trait_syms(lsv, nsv, k as int) == base + php_trait_syms(
                    lsv,
                    nsv,
                    0,
                ),
                parsed.dependencies == p0.dependencies,
                parsed.source == p0.source,
                parsed.facts == p0.facts,
                parsed.warnings == p0.warnings,
            decreases lines@.len() - k,
        {
            proof {
                assert(views(lines@)[k as int] == lines@[k as int]@);
            }
            match trait_line(&lines[k]) {
                Option::Some(name) => {
                    let qualified = qualify_x(ns, &name);
                    let sym = Symbol {
                        name,
                        qualified_name: qualified,
                        symbol_type: SymbolType::Trait,
                        visibility: Some(litv("public")),
                        is_abstract: None,
                        is_static: None,
                        extends: None,
                        implements: None,
                        line_start: None,
                        line_end: None,
                    };
                    let ghost pre = parsed.symbols@;
                    parsed.add_symbol(sym);
                    proof {
                        lemma_sym_models_push(pre, sym);
                        assert(sym_models(parsed.symbols@) + php_trait_syms(lsv, nsv, k + 1)
                            =~= base + php_trait_syms(lsv, nsv, 0));
                    }
                },
                Option::None => {
                    proof {
                        assert(php_trait_syms(lsv, nsv, k as int) == php_trait_syms(lsv, nsv, k + 1));
                    }
                },
            }
            k = k + 1;
        }
        proof {
            assert(php_trait_syms(lsv, nsv, lines@.len() as int) =~= Seq::<SymbolModel>::empty());
            assert(sym_models(parsed.symbols@) =~= base + php_trait_syms(lsv, nsv, 0));
        }
    }


    /// Record standalone (non-magic, visibility-free) functions.
    pub fn extract_functions(&self, content: &Vec<u8>, parsed: &mut ParsedFile)
        ensures
            sym_models(final(parsed).symbols@) == sym_models(old(parsed).symbols@) + php_func_syms(
                split_lines(content@),
                0,
            ),
            final(parsed).dependencies == old(parsed).dependencies,
            final(parsed).source == old(parsed).source,
            final(parsed).facts == old(parsed).facts,
            final(parsed).warnings == old(parsed).warnings,
    {
        let lines = split_lines_x(content);
        let ghost lsv = split_lines(content@);
        
        let ghost base = sym_models(parsed.symbols@);
        let ghost p0 = *parsed;
        let mut k: usize = 0;
        while k < lines.len()
            invariant
                0 <= k <= lines@.len(),
                views(lines@) == lsv,
                lsv == split_lines(content@),
                
                sym_models(parsed.symbols@) + php_func_syms(lsv,  k as int) == base + php_func_syms(
                    lsv,
                    
                    0,
                ),
                parsed.dependencies == p0.dependencies,
                parsed.source == p0.source,
                parsed.facts == p0.facts,
                parsed.warnings == p0.warnings,
            decreases lines@.len() - k,
        {
            proof {
                assert(views(lines@)[k as int] == lines@[k as int]@);
            }
            let skip_tag = litv("__");
            match function_line(&lines[k]) {
                Option::Some(f) => {
                    if f.visibility.is_none() && !starts_with_x(&f.name, &skip_tag) {
                        let qualified = slice_of(&f.name, 0, f.name.len());
                        proof {
                            assert(qualified@ =~= f.name@);
                        }
                        let sym = Symbol {
                            name: f.name,
                            qualified_name: qualified,
                            symbol_type: SymbolType::Function,
                            visibility: None,
                            is_abstract: None,
                            is_static: Some(f.is_static),
                            extends: None,
                            implements: None,
                            line_start: None,
                            line_end: None,
                        };
                        let ghost pre = parsed.symbols@;
                    parsed.add_symbol(sym);
                    proof {
                        lemma_sym_models_push(pre, sym);
                        assert(sym_models(parsed.symbols@) + php_func_syms(lsv,  k + 1)
                            =~= base + php_func_syms(lsv,  0));
                    }
                    } else {
                        proof {
                            assert(php_func_syms(lsv, k as int) == php_func_syms(lsv, k + 1));
                        }
                    }
                },
                Option::None => {
                    proof {
                        assert(php_func_syms(lsv, k as int) == php_func_syms(lsv, k + 1));
                    }
                },
            }
            k = k + 1;
        }
        proof {
            assert(php_func_syms(lsv,  lines@.len() as int) =~= Seq::<SymbolModel>::empty());
            assert(sym_models(parsed.symbols@) =~= base + php_func_syms(lsv,  0));
        }
    }


    /// Record methods: visible declarations with a closed parameter list.
    pub fn extract_methods(&self, content: &Vec<u8>, parsed: &mut ParsedFile)
        ensures
            sym_models(final(parsed).symbols@) == sym_models(old(parsed).symbols@) + php_method_syms(
                split_lines(content@),
                0,
            ),
            final(parsed).dependencies == old(parsed).dependencies,
            final(parsed).source == old(parsed).source,
            final(parsed).facts == old(parsed).facts,
            final(parsed).warnings == old(parsed).warnings,
    {
        let lines = split_lines_x(content);
        let ghost lsv = split_lines(content@);
        
        let ghost base = sym_models(parsed.symbols@);
        let ghost p0 = *parsed;
        let mut k: usize = 0;
        while k < lines.len()
            invariant
                0 <= k <= lines@.len(),
                views(lines@) == lsv,
                lsv == split_lines(content@),
                
                sym_models(parsed.symbols@) + php_method_syms(lsv,  k as int) == base + php_method_syms(
                    lsv,
                    
                    0,
                ),
                parsed.dependencies == p0.dependencies,
                parsed.source == p0.source,
                parsed.facts == p0.facts,
                parsed.warnings == p0.warnings,
            decreases lines@.len() - k,
        {
            proof {
                assert(views(lines@)[k as int] == lines@[k as int]@);
            }
            match function_line(&lines[k]) {
                Option::Some(f) => {
                    if f.visibility.is_some() && f.params_closed {
                        let qualified = slice_of(&f.name, 0, f.name.len());
                        proof {
                            assert(qualified@ =~= f.name@);
                        }
                        let sym = Symbol {
                            name: f.name,
                            qualified_name: qualified,
                            symbol_type: SymbolType::Method,
                            visibility: f.visibility,
                            is_abstract: None,
                            is_static: Some(f.is_static),
                            extends: None,
                            implements: None,
                            line_start: None,
                            line_end: None,
                        };
                        let ghost pre = parsed.symbols@;
                    parsed.add_symbol(sym);
                    proof {
                        lemma_sym_models_push(pre, sym);
                        assert(sym_models(parsed.symbols@) + php_method_syms(lsv,  k + 1)
                            =~= base + php_method_syms(lsv,  0));
                    }
                    } else {
                        proof {
                            assert(php_method_syms(lsv, k as int) == php_method_syms(lsv, k + 1));
                        }
                    }
                },
                Option::None => {
                    proof {
                        assert(php_method_syms(lsv, k as int) == php_method_syms(lsv, k + 1));
                    }
                },
            }
            k = k + 1;
        }
        proof {
            assert(php_method_syms(lsv,  lines@.len() as int) =~= Seq::<SymbolModel>::empty());
            assert(sym_models(parsed.symbols@) =~= base + php_method_syms(lsv,  0));
        }
    }


    /// Record property declarations.
    pub fn extract_properties(&self, content: &Vec<u8>, parsed: &mut ParsedFile)
        ensures
            sym_models(final(parsed).symbols@) == sym_models(old(parsed).symbols@) + php_prop_syms(
                split_lines(content@),
                0,
            ),
            final(parsed).dependencies == old(parsed).dependencies,
            final(parsed).source == old(parsed).source,
            final(parsed).facts == old(parsed).facts,
            final(parsed).warnings == old(parsed).warnings,
    {
        let lines = split_lines_x(content);
        let ghost lsv = split_lines(content@);
        
        let ghost base = sym_models(parsed.symbols@);
        let ghost p0 = *parsed;
        let mut k: usize = 0;
        while k < lines.len()
            invariant
                0 <= k <= lines@.len(),
                views(lines@) == lsv,
                lsv == split_lines(content@),
                
                sym_models(parsed.symbols@) + php_prop_syms(lsv,  k as int) == base + php_prop_syms(
                    lsv,
                    
                    0,
                ),
                parsed.dependencies == p0.dependencies,
                parsed.source == p0.source,
                parsed.facts == p0.facts,
                parsed.warnings == p0.warnings,
            decreases lines@.len() - k,
        {
            proof {
                assert(views(lines@)[k as int] == lines@[k as int]@);
            }
            match property_line(&lines[k]) {
                Option::Some((vis, st, name)) => {
                    let qualified = slice_of(&name, 0, name.len());
                    proof {
                        assert(qualified@ =~= name@);
                    }
                    let sym = Symbol {
                        name,
                        qualified_name: qualified,
                        symbol_type: SymbolType::Property,
                        visibility: Some(vis),
                        is_abstract: None,
                        is_static: Some(st),
                        extends: None,
                        implements: None,
                        line_start: None,
                        line_end: None,
                    };
                    let ghost pre = parsed.symbols@;
                    parsed.add_symbol(sym);
                    proof {
                        lemma_sym_models_push(pre, sym);
                        assert(sym_models(parsed.symbols@) + php_prop_syms(lsv,  k + 1)
                            =~= base + php_prop_syms(lsv,  0));
                    }
                },
                Option::None => {
                    proof {
                        assert(php_prop_syms(lsv, k as int) == php_prop_syms(lsv, k + 1));
                    }
                },
            }
            k = k + 1;
        }
        proof {
            assert(php_prop_syms(lsv,  lines@.len() as int) =~= Seq::<SymbolModel>::empty());
            assert(sym_models(parsed.symbols@) =~= base + php_prop_syms(lsv,  0));
        }
    }


    /// Record constant declarations.
    pub fn extract_constants(&self, content: &Vec<u8>, parsed: &mut ParsedFile)
        ensures
            sym_models(final(parsed).symbols@) == sym_models(old(parsed).symbols@) + php_const_syms(
                split_lines(content@),
                0,
            ),
            final(parsed).dependencies == old(parsed).dependencies,
            final(parsed).source == old(parsed).source,
            final(parsed).facts == old(parsed).facts,
            final(parsed).warnings == old(parsed).warnings,
    {
        let lines = split_lines_x(content);
        let ghost lsv = split_lines(content@);
        
        let ghost base = sym_models(parsed.symbols@);
        let ghost p0 = *parsed;
        let mut k: usize = 0;
        while k < lines.len()
            invariant
                0 <= k <= lines@.len(),
                views(lines@) == lsv,
                lsv == split_lines(content@),
                
                sym_models(parsed.symbols@) + php_const_syms(lsv,  k as int) == base + php_const_syms(
                    lsv,
                    
                    0,
                ),
                parsed.dependencies == p0.dependencies,
                parsed.source == p0.source,
                parsed.facts == p0.facts,
                parsed.warnings == p0.warnings,
            decreases lines@.len() - k,
        {
            proof {
                assert(views(lines@)[k as int] == lines@[k as int]@);
            }
            match const_line(&lines[k]) {
                Option::Some((vis, name)) => {
                    let qualified = slice_of(&name, 0, name.len());
                    proof {
                        assert(qualified@ =~= name@);
                    }
                    let sym = Symbol {
                        name,
                        qualified_name: qualified,
                        symbol_type: SymbolType::Constant,
                        visibility: vis,
                        is_abstract: None,
                        is_static: Some(true),
                        extends: None,
                        implements: None,
                        line_start: None,
                        line_end: None,
                    };
                    let ghost pre = parsed.symbols@;
                    parsed.add_symbol(sym);
                    proof {
                        lemma_sym_models_push(pre, sym);
                        assert(sym_models(parsed.symbols@) + php_const_syms(lsv,  k + 1)
                            =~= base + php_const_syms(lsv,  0));
                    }
                },
                Option::None => {
                    proof {
                        assert(php_const_syms(lsv, k as int) == php_const_syms(lsv, k + 1));
                    }
                },
            }
            k = k + 1;
        }
        proof {
            assert(php_const_syms(lsv,  lines@.len() as int) =~= Seq::<SymbolModel>::empty());
            assert(sym_models(parsed.symbols@) =~= base + php_const_syms(lsv,  0));
        }
    }

    /// Parse a generic PHP file: namespace, imports, and every construct
    /// battery, mined from the raw text.
    pub fn parse(&self, file: &SourceFile, content: &Vec<u8>) -> (r: ParsedFile)
        ensures
            sf_model(r.source) == sf_model(*file),
            dep_models(r.dependencies@) == php_use_deps(content@),
            sym_models(r.symbols@) == php_symbols(content@),
            (match r.facts {
                FileFacts::Php(f) => opt_view(f.namespace) == php_namespace(content@)
                    && f.laravel_type is None,
                _ => false,
            }),
            r.warnings@.len() == 0,
    {
        let mut parsed = ParsedFile::new(file.duplicate());
        let ns = self.extract_namespace(content);
        self.extract_use_statements(content, &mut parsed);
        self.extract_classes(content, &ns, &mut parsed);
        self.extract_interfaces(content, &ns, &mut parsed);
        self.extract_traits(content, &ns, &mut parsed);
        self.extract_functions(content, &mut parsed);
        self.extract_methods(content, &mut parsed);
        self.extract_properties(content, &mut parsed);
        self.extract_constants(content, &mut parsed);
        parsed.facts = FileFacts::Php(PhpFacts { namespace: ns, laravel_type: None });
        proof {
            assert(dep_models(parsed.dependencies@) =~= php_use_deps(content@));
            assert(sym_models(parsed.symbols@) =~= php_symbols(content@));
        }
        parsed
    }
}

} // verus!

verus! {

// ---------------------------------------------------------------------------
// Trait-use lists inside a class body
// ---------------------------------------------------------------------------

/// The comma-separated qualified names of a `use A, B, C;` list starting at
/// `i`, with the position after the last item.
pub open spec fn use_list_items(l: Seq<u8>, i: int) -> Option<(Seq<Seq<u8>>, int)>
    decreases l.len() - i,
{
    if i < 0 || i > l.len() {
        Option::None
    } else {
        let e = ident_bs_end(l, i);
        if e > i {
            let item = l.subrange(i, e);
            let t = skip_ws(l, e);
            if t < l.len() && l[t] == 44 {
                let t2 = skip_ws(l, t + 1);
                let nxt = if t2 <= i {
                    i + 1
                } else if t2 > l.len() {
                    l.len() as int
                } else {
                    t2
                };
                match use_list_items(l, nxt) {
                    Option::Some(p) => Option::Some((seq![item] + p.0, p.1)),
                    Option::None => Option::None,
                }
            } else {
                Option::Some((seq![item], e))
            }
        } else {
            Option::None
        }
    }
}

pub fn use_list_items_x(l: &Vec<u8>, i: usize) -> (r: Option<(Vec<Vec<u8>>, usize)>)
    requires
        i <= l.len(),
    ensures
        match r {
            Option::Some(p) => use_list_items(l@, i as int) == Option::Some(
                (views(p.0@), p.1 as int),
            ) && p.1 <= l.len(),
            Option::None => use_list_items(l@, i as int) is None,
        },
    decreases l.len() - i,
{
    let e = ident_bs_end_x(l, i);
    if e <= i {
        return None;
    }
    let item = slice_of(l, i, e);
    let t = skip_ws_x(l, e);
    if t < l.len() && l[t] == 44 {
        let t2 = skip_ws_x(l, t + 1);
        match use_list_items_x(l, t2) {
            Option::Some((mut rest, end)) => {
                rest.insert(0, item);
                proof {
                    assert(views(rest@) =~= seq![l@.subrange(i as int, e as int)] + views(
                        rest@.remove(0),
                    ));
                }
                Some((rest, end))
            },
            Option::None => None,
        }
    } else {
        proof {
            assert(views(Seq::<Vec<u8>>::empty().push(item)) =~= seq![
                l@.subrange(i as int, e as int),
            ]);
        }
        let mut one: Vec<Vec<u8>> = Vec::new();
        one.push(item);
        Some((one, e))
    }
}

/// A `use <list>;` line inside a class body: the raw listed names.
pub open spec fn use_list_line_spec(l: Seq<u8>) -> Option<Seq<Seq<u8>>> {
    let i = skip_ws(l, 0);
    if matches_at(l, lit("use"), i) && l.len() - i > 3 && is_space(l[i + 3]) {
        let k = skip_ws(l, i + 3);
        match use_list_items(l, k) {
            Option::Some(p) => {
                let t = skip_ws(l, p.1);
                if 0 <= t && t < l.len() && l[t] == 59 {
                    Option::Some(p.0)
                } else {
                    Option::None
                }
            },
            Option::None => Option::None,
        }
    } else {
        Option::None
    }
}

pub fn use_list_line(l: &Vec<u8>) -> (r: Option<Vec<Vec<u8>>>)
    ensures
        match r {
            Option::Some(v) => use_list_line_spec(l@) == Option::Some(views(v@)),
            Option::None => use_list_line_spec(l@) is None,
        },
{
    let i = skip_ws_x(l, 0);
    let kw = litv("use");
    if !(match_at(l, &kw, i) && l.len() - i > 3 && space(l[i + 3])) {
        return None;
    }
    let k = skip_ws_x(l, i + 3);
    match use_list_items_x(l, k) {
        Option::Some((items, end)) => {
            let t = skip_ws_x(l, end);
            if t < l.len() && l[t] == 59 {
                Some(items)
            } else {
                None
            }
        },
        Option::None => None,
    }
}

/// A listed name counts as a class-level trait use here when it holds a
/// backslash but does not start with one.
pub open spec fn keep_trait(x: Seq<u8>) -> bool {
    crate::text::contains_byte(x, 92) && !(x.len() > 0 && x[0] == 92)
}

/// The kept items among `items[..j]`, in order.
pub open spec fn filt_traits(items: Seq<Seq<u8>>, j: int) -> Seq<Seq<u8>>
    decreases j,
{
    if j <= 0 || j > items.len() {
        Seq::empty()
    } else {
        filt_traits(items, j - 1) + if keep_trait(items[j - 1]) {
            seq![items[j - 1]]
        } else {
            Seq::<Seq<u8>>::empty()
        }
    }
}

/// The kept trait names contributed by one line.
pub open spec fn line_trait_items(l: Seq<u8>) -> Seq<Seq<u8>> {
    match use_list_line_spec(l) {
        Option::Some(items) => filt_traits(items, items.len() as int),
        Option::None => Seq::empty(),
    }
}

/// The kept trait names of the first `k` lines.
pub open spec fn titems_pre(ls: Seq<Seq<u8>>, k: int) -> Seq<Seq<u8>>
    decreases k,
{
    if k <= 0 || k > ls.len() {
        Seq::empty()
    } else {
        titems_pre(ls, k - 1) + line_trait_items(ls[k - 1])
    }
}

/// The trait names used inside the class body (after the first `{`),
/// qualified names only, first occurrence kept.
pub open spec fn php_trait_uses(s: Seq<u8>) -> Seq<Seq<u8>> {
    let b = find_byte(s, 123, 0);
    if b >= s.len() || b < 0 {
        Seq::empty()
    } else {
        let ls = split_lines(s.subrange(b, s.len() as int));
        crate::text::dedup(titems_pre(ls, ls.len() as int))
    }
}

impl PhpParser {
    /// The traits used inside the file's class body.
    pub fn extract_trait_uses(&self, content: &Vec<u8>) -> (out: Vec<Vec<u8>>)
        ensures
            views(out@) == php_trait_uses(content@),
    {
        let mut out: Vec<Vec<u8>> = Vec::new();
        let b = find_byte_x(content, 123, 0);
        if b >= content.len() {
            proof {
                assert(views(out@) =~= php_trait_uses(content@));
            }
            return out;
        }
        let suffix = slice_of(content, b, content.len());
        let lines = split_lines_x(&suffix);
        let ghost lsv = split_lines(suffix@);
        let mut k: usize = 0;
        while k < lines.len()
            invariant
                0 <= k <= lines@.len(),
                views(lines@) == lsv,
                lsv == split_lines(suffix@),
                views(out@) == crate::text::dedup(titems_pre(lsv, k as int)),
            decreases lines@.len() - k,
        {
            proof {
                assert(views(lines@)[k as int] == lines@[k as int]@);
            }
            match use_list_line(&lines[k]) {
                Option::Some(items) => {
                    let ghost itemsv = views(items@);
                    let mut j: usize = 0;
                    while j < items.len()
                        invariant
                            0 <= j <= items@.len(),
                            views(items@) == itemsv,
                            0 <= k < lines@.len(),
                            views(lines@) == lsv,
                            line_trait_items(lsv[k as int]) == filt_traits(
                                itemsv,
                                itemsv.len() as int,
                            ),
                            views(out@) == crate::text::dedup(
                                titems_pre(lsv, k as int) + filt_traits(itemsv, j as int),
                            ),
                        decreases items@.len() - j,
                    {
                        proof {
                            assert(views(items@)[j as int] == items@[j as int]@);
                        }
                        let x = slice_of(&items[j], 0, items[j].len());
                        proof {
                            assert(x@ =~= itemsv[j as int]);
                        }
                        let keep = crate::text::contains_byte_x(&x, 92) && !(x.len() > 0 && x[0]
                            == 92);
                        let ghost acc = titems_pre(lsv, k as int) + filt_traits(itemsv, j as int);
                        if keep {
                            proof {
                                assert((acc.push(x@)).drop_last() =~= acc);
                                assert(filt_traits(itemsv, j + 1) =~= filt_traits(
                                    itemsv,
                                    j as int,
                                ).push(itemsv[j as int]));
                                assert(acc.push(x@) =~= titems_pre(lsv, k as int) + filt_traits(
                                    itemsv,
                                    j + 1,
                                ));
                            }
                            crate::text::push_unique(&mut out, x);
                        } else {
                            proof {
                                assert(filt_traits(itemsv, j + 1) =~= filt_traits(itemsv, j as int));
                                assert(titems_pre(lsv, k as int) + filt_traits(itemsv, j + 1)
                                    =~= acc);
                            }
                        }
                        j = j + 1;
                    }
                    proof {
                        assert(titems_pre(lsv, k + 1) =~= titems_pre(lsv, k as int) + filt_traits(
                            itemsv,
                            itemsv.len() as int,
                        ));
                    }
                },
                Option::None => {
                    proof {
                        assert(line_trait_items(lsv[k as int]) =~= Seq::<Seq<u8>>::empty());
                        assert(titems_pre(lsv, k + 1) =~= titems_pre(lsv, k as int));
                    }
                },
            }
            k = k + 1;
        }
        proof {
            assert(suffix@ == content@.subrange(b as int, content@.len() as int));
            assert(views(out@) == php_trait_uses(content@));
        }
        out
    }
}

} // verus!
