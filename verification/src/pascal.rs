//! Object Pascal lexical extraction: unit headers, uses clauses, class and
//! interface declarations, procedures and functions, and form-file (`.dfm`)
//! component declarations.
//!
//! Keywords are matched case-insensitively by scanning an ASCII-lowered copy
//! of the text; captured names keep their original case. A `uses` list is
//! classified interface- versus implementation-section by comparing its text
//! offset against the first offsets of the words `interface` and
//! `implementation` anywhere in the file — a textual heuristic, kept as the
//! design demands.

use vstd::prelude::*;
use crate::facts::Dependency;
use crate::facts::DepModel;
use crate::facts::ParsedFile;
use crate::facts::Symbol;
use crate::facts::SymbolModel;
use crate::facts::SymbolType;
use crate::facts::dep_model;
use crate::facts::dep_models;
use crate::facts::lemma_dep_models_push;
use crate::facts::lemma_sym_models_push;
use crate::facts::opt_view;
use crate::facts::sym_model;
use crate::facts::sym_models;
use crate::source_file::SourceFile;
use crate::source_file::sf_model;
use crate::text::concat;
use crate::text::find_byte;
use crate::text::find_byte_x;
use crate::text::find_sub;
use crate::text::find_sub_x;
use crate::text::ident_end;
use crate::text::ident_end_x;
use crate::text::is_ident;
use crate::text::is_space;
use crate::text::lit;
use crate::text::litv;
use crate::text::lower;
use crate::text::lower_x;
use crate::text::match_at;
use crate::text::matches_at;
use crate::text::rskip_ws;
use crate::text::rskip_ws_x;
use crate::text::skip_ws;
use crate::text::skip_ws_x;
use crate::text::slice_of;
use crate::text::space;
use crate::text::split_lines;
use crate::text::split_lines_x;
use crate::text::views;

verus! {

// ---------------------------------------------------------------------------
// Small position helpers
// ---------------------------------------------------------------------------

/// Start of the identifier run ending (exclusively) at `i`.
pub open spec fn ident_start(s: Seq<u8>, i: int) -> int
    decreases i,
{
    if 0 < i && i <= s.len() && is_ident(s[i - 1]) {
        ident_start(s, i - 1)
    } else {
        i
    }
}

pub fn ident_start_x(s: &Vec<u8>, i: usize) -> (r: usize)
    requires
        i <= s.len(),
    ensures
        r == ident_start(s@, i as int),
        r <= i,
{
    let mut j: usize = i;
    while j > 0 && crate::text::ident(s[j - 1])
        invariant
            0 <= j <= i <= s.len(),
            ident_start(s@, i as int) == ident_start(s@, j as int),
        decreases j,
    {
        j = j - 1;
    }
    j
}

/// End of the whitespace-free token starting at `i`, bounded by `to`.
pub open spec fn token_end(s: Seq<u8>, i: int, to: int) -> int
    decreases to - i,
{
    if 0 <= i && i < to && i < s.len() && !is_space(s[i]) {
        token_end(s, i + 1, to)
    } else {
        i
    }
}

pub fn token_end_x(s: &Vec<u8>, i: usize, to: usize) -> (r: usize)
    requires
        i <= to <= s.len(),
    ensures
        r == token_end(s@, i as int, to as int),
        i <= r <= to,
{
    let mut j: usize = i;
    while j < to && !space(s[j])
        invariant
            i <= j <= to <= s.len(),
            token_end(s@, i as int, to as int) == token_end(s@, j as int, to as int),
        decreases to - j,
    {
        j = j + 1;
    }
    j
}

/// All bytes in `s[a..b)` are identifier bytes.
pub open spec fn all_ident(s: Seq<u8>, a: int, b: int) -> bool {
    forall|j: int| a <= j < b ==> is_ident(#[trigger] s[j])
}

pub fn all_ident_x(s: &Vec<u8>, a: usize, b: usize) -> (r: bool)
    requires
        a <= b <= s.len(),
    ensures
        r == all_ident(s@, a as int, b as int),
{
    let mut j: usize = a;
    while j < b
        invariant
            a <= j <= b <= s.len(),
            forall|m: int| a <= m < j ==> is_ident(#[trigger] s@[m]),
        decreases b - j,
    {
        if !crate::text::ident(s[j]) {
            return false;
        }
        j = j + 1;
    }
    true
}

// ---------------------------------------------------------------------------
// Unit header
// ---------------------------------------------------------------------------

/// `unit <Name>;` at the very start of the file (after leading whitespace),
/// keywords case-insensitive.
pub open spec fn pas_unit(s: Seq<u8>) -> Option<Seq<u8>> {
    let ls = lower(s);
    let i = skip_ws(ls, 0);
    if matches_at(ls, lit("unit"), i) && ls.len() - i > 4 && is_space(ls[i + 4]) {
        let k = skip_ws(ls, i + 4);
        let e = ident_end(ls, k);
        if e > k {
            let t = skip_ws(ls, e);
            if t < ls.len() && ls[t] == 59 {
                Option::Some(s.subrange(k, e))
            } else {
                Option::None
            }
        } else {
            Option::None
        }
    } else {
        Option::None
    }
}

pub fn pas_unit_x(s: &Vec<u8>, ls: &Vec<u8>) -> (r: Option<Vec<u8>>)
    requires
        ls@ == lower(s@),
    ensures
        match r {
            Option::Some(v) => pas_unit(s@) == Option::Some(v@),
            Option::None => pas_unit(s@) is None,
        },
{
    let i = skip_ws_x(ls, 0);
    let kw = litv("unit");
    if !(match_at(ls, &kw, i) && ls.len() - i > 4 && space(ls[i + 4])) {
        return None;
    }
    let k = skip_ws_x(ls, i + 4);
    let e = ident_end_x(ls, k);
    if e <= k {
        return None;
    }
    let t = skip_ws_x(ls, e);
    if t < ls.len() && ls[t] == 59 {
        proof {
            assert(s@.len() == ls@.len());
        }
        Some(slice_of(s, k, e))
    } else {
        None
    }
}

// ---------------------------------------------------------------------------
// Uses clauses
// ---------------------------------------------------------------------------

/// First offset of `interface` in the lowered text (the text length if
/// absent).
pub open spec fn iface_pos(ls: Seq<u8>) -> int {
    find_sub(ls, lit("interface"), 0)
}

/// First offset of `implementation` in the lowered text.
pub open spec fn impl_pos(ls: Seq<u8>) -> int {
    find_sub(ls, lit("implementation"), 0)
}

/// The section flags of a uses list whose names start at offset `p`.
pub open spec fn section_flags(ls: Seq<u8>, p: int) -> (bool, bool) {
    let ip = iface_pos(ls);
    let mp = impl_pos(ls);
    let is_iface = if ip < ls.len() && mp < ls.len() {
        p > ip && p < mp
    } else if ip < ls.len() {
        p > ip
    } else {
        false
    };
    let is_impl = mp < ls.len() && p > mp;
    (is_iface, is_impl)
}

/// The dependencies contributed by the comma-separated pieces of
/// `s[i..to)`: the first whitespace-free token of each piece, kept when it
/// is a pure identifier.
pub open spec fn uses_items(s: Seq<u8>, i: int, to: int, fl: (bool, bool)) -> Seq<DepModel>
    decreases to - i,
{
    if i < 0 || i >= to || to > s.len() {
        Seq::empty()
    } else {
        let c0 = find_byte(s, 44, i);
        let c = if c0 < i {
            i
        } else if c0 > to {
            to
        } else {
            c0
        };
        let a = skip_ws(s, i);
        let b = token_end(s, a, if a <= c {
            c
        } else {
            a
        });
        let here = if a < c && b > a && all_ident(s, a, b) {
            seq![
                DepModel {
                    target: s.subrange(a, b),
                    alias: Option::None,
                    line_number: Option::None,
                    is_interface: fl.0,
                    is_implementation: fl.1,
                },
            ]
        } else {
            Seq::<DepModel>::empty()
        };
        if c >= to {
            here
        } else {
            here + uses_items(s, c + 1, to, fl)
        }
    }
}

/// A `uses` keyword match attempt at `i`: requires whitespace after the
/// keyword and a later `;`; yields the names' start offset and the offset
/// of the terminating semicolon.
pub open spec fn try_uses(s: Seq<u8>, ls: Seq<u8>, i: int) -> Option<(int, int)> {
    if matches_at(ls, lit("uses"), i) && ls.len() - i > 4 && is_space(ls[i + 4]) {
        let p = skip_ws(ls, i + 4);
        let semi = find_byte(ls, 59, p);
        if 0 <= semi && semi < ls.len() {
            Option::Some((p, semi))
        } else {
            Option::None
        }
    } else {
        Option::None
    }
}

/// All uses-clause dependencies of the file, scanning left to right and
/// resuming after each terminating semicolon.
pub open spec fn pas_uses_from(s: Seq<u8>, ls: Seq<u8>, i: int) -> Seq<DepModel>
    decreases s.len() - i,
{
    if i < 0 || i >= s.len() {
        Seq::empty()
    } else {
        match try_uses(s, ls, i) {
            Option::Some(p) => {
                let nxt = if p.1 + 1 <= i {
                    i + 1
                } else if p.1 + 1 > s.len() {
                    s.len() as int
                } else {
                    p.1 + 1
                };
                uses_items(s, p.0, p.1, section_flags(ls, p.0)) + pas_uses_from(s, ls, nxt)
            },
            Option::None => pas_uses_from(s, ls, i + 1),
        }
    }
}

pub open spec fn pas_uses(s: Seq<u8>) -> Seq<DepModel> {
    pas_uses_from(s, lower(s), 0)
}

fn uses_items_x(
    s: &Vec<u8>,
    i: usize,
    to: usize,
    fl_iface: bool,
    fl_impl: bool,
    parsed: &mut ParsedFile,
)
    requires
        to <= s.len(),
    ensures
        dep_models(final(parsed).dependencies@) == dep_models(old(parsed).dependencies@)
            + uses_items(s@, i as int, to as int, (fl_iface, fl_impl)),
        final(parsed).symbols == old(parsed).symbols,
        final(parsed).source == old(parsed).source,
        final(parsed).facts == old(parsed).facts,
        final(parsed).warnings == old(parsed).warnings,
{
    let ghost fl = (fl_iface, fl_impl);
    let mut pos = i;
    loop
        invariant
            to <= s.len(),
            fl == (fl_iface, fl_impl),
            dep_models(parsed.dependencies@) + uses_items(s@, pos as int, to as int, fl)
                == dep_models(old(parsed).dependencies@) + uses_items(
                s@,
                i as int,
                to as int,
                fl,
            ),
            parsed.symbols == old(parsed).symbols,
            parsed.source == old(parsed).source,
            parsed.facts == old(parsed).facts,
            parsed.warnings == old(parsed).warnings,
        decreases to - pos + 1,
    {
        if pos >= to {
            proof {
                assert(uses_items(s@, pos as int, to as int, fl) =~= Seq::<DepModel>::empty());
            }
            return ;
        }
        let c0 = find_byte_x(s, 44, pos);
        let c = if c0 > to {
            to
        } else {
            c0
        };
        let a = skip_ws_x(s, pos);
        let bound = if a <= c {
            c
        } else {
            a
        };
        let b = token_end_x(s, a, bound);
        if a < c && b > a && all_ident_x(s, a, b) {
            let dep = Dependency {
                target: slice_of(s, a, b),
                alias: None,
                line_number: None,
                is_interface: fl_iface,
                is_implementation: fl_impl,
            };
            let ghost pre = parsed.dependencies@;
            parsed.add_dependency(dep);
            proof {
                lemma_dep_models_push(pre, dep);
            }
        }
        if c >= to {
            proof {
                assert(dep_models(parsed.dependencies@) =~= dep_models(
                    old(parsed).dependencies@,
                ) + uses_items(s@, i as int, to as int, fl));
            }
            return ;
        }
        proof {
            assert(dep_models(parsed.dependencies@) + uses_items(s@, c + 1, to as int, fl)
                =~= dep_models(old(parsed).dependencies@) + uses_items(
                s@,
                i as int,
                to as int,
                fl,
            ));
        }
        pos = c + 1;
    }
}

/// Record every uses-clause dependency, with interface/implementation
/// section flags derived from the text offsets of the section keywords.
pub fn extract_uses(s: &Vec<u8>, ls: &Vec<u8>, parsed: &mut ParsedFile)
    requires
        ls@ == lower(s@),
    ensures
        dep_models(final(parsed).dependencies@) == dep_models(old(parsed).dependencies@) + pas_uses(
            s@,
        ),
        final(parsed).symbols == old(parsed).symbols,
        final(parsed).source == old(parsed).source,
        final(parsed).facts == old(parsed).facts,
        final(parsed).warnings == old(parsed).warnings,
{
    let iface_kw = litv("interface");
    let impl_kw = litv("implementation");
    let ip = find_sub_x(ls, &iface_kw, 0);
    let mp = find_sub_x(ls, &impl_kw, 0);
    let uses_kw = litv("uses");
    let mut i: usize = 0;
    while i < s.len()
        invariant
            s@.len() == ls@.len(),
            ls@ == lower(s@),
            0 <= i <= s.len(),
            ip as int == iface_pos(ls@),
            mp as int == impl_pos(ls@),
            uses_kw@ == lit("uses"),
            dep_models(parsed.dependencies@) + pas_uses_from(s@, ls@, i as int) == dep_models(
                old(parsed).dependencies@,
            ) + pas_uses_from(s@, ls@, 0),
            parsed.symbols == old(parsed).symbols,
            parsed.source == old(parsed).source,
            parsed.facts == old(parsed).facts,
            parsed.warnings == old(parsed).warnings,
        decreases s.len() - i,
    {
        if match_at(ls, &uses_kw, i) && ls.len() - i > 4 && space(ls[i + 4]) {
            let p = skip_ws_x(ls, i + 4);
            let semi = find_byte_x(ls, 59, p);
            if semi < ls.len() {
                let fl_iface = if ip < ls.len() && mp < ls.len() {
                    p > ip && p < mp
                } else if ip < ls.len() {
                    p > ip
                } else {
                    false
                };
                let fl_impl = mp < ls.len() && p > mp;
                proof {
                    assert(try_uses(s@, ls@, i as int) == Option::Some((p as int, semi as int)));
                    assert(section_flags(ls@, p as int) == (fl_iface, fl_impl));
                }
                uses_items_x(s, p, semi, fl_iface, fl_impl, parsed);
                proof {
                    assert(dep_models(parsed.dependencies@) + pas_uses_from(s@, ls@, semi + 1)
                        =~= dep_models(old(parsed).dependencies@) + pas_uses_from(s@, ls@, 0));
                }
                i = semi + 1;
                continue ;
            }
            proof {
                assert(try_uses(s@, ls@, i as int) is None);
                assert(pas_uses_from(s@, ls@, i as int) == pas_uses_from(s@, ls@, i + 1));
            }
            i = i + 1;
            continue ;
        }
        proof {
            assert(try_uses(s@, ls@, i as int) is None);
            assert(pas_uses_from(s@, ls@, i as int) == pas_uses_from(s@, ls@, i + 1));
        }
        i = i + 1;
    }
    proof {
        assert(pas_uses_from(s@, ls@, s@.len() as int) =~= Seq::<DepModel>::empty());
        assert(dep_models(parsed.dependencies@) =~= dep_models(old(parsed).dependencies@)
            + pas_uses(s@));
    }
}

} // verus!

verus! {

// ---------------------------------------------------------------------------
// Class and interface declarations
// ---------------------------------------------------------------------------

/// A `<Name> = class[(Parent)]` match around a lowered `class` keyword at
/// `i`: the name (original case), optional parent, and the resume position.
pub open spec fn try_pas_class(s: Seq<u8>, ls: Seq<u8>, i: int) -> Option<
    (Seq<u8>, Option<Seq<u8>>, int),
> {
    if matches_at(ls, lit("class"), i) {
        let q = rskip_ws(s, i);
        if q > 0 && q <= s.len() && s[q - 1] == 61 {
            let r = rskip_ws(s, q - 1);
            let st = ident_start(s, r);
            if r > st {
                let name = s.subrange(st, r);
                let e = if i + 5 > s.len() {
                    s.len() as int
                } else {
                    i + 5
                };
                let a = skip_ws(s, e);
                if a < s.len() && s[a] == 40 {
                    let c = ident_end(s, a + 1);
                    if c > a + 1 && c < s.len() && s[c] == 41 {
                        Option::Some((name, Option::Some(s.subrange(a + 1, c)), c + 1))
                    } else {
                        Option::Some((name, Option::None, e))
                    }
                } else {
                    Option::Some((name, Option::None, e))
                }
            } else {
                Option::None
            }
        } else {
            Option::None
        }
    } else {
        Option::None
    }
}

/// A `<Name> = interface[(Parent)]` match around a lowered `interface`
/// keyword at `i`.
pub open spec fn try_pas_iface(s: Seq<u8>, ls: Seq<u8>, i: int) -> Option<
    (Seq<u8>, Option<Seq<u8>>, int),
> {
    if matches_at(ls, lit("interface"), i) {
        let q = rskip_ws(s, i);
        if q > 0 && q <= s.len() && s[q - 1] == 61 {
            let r = rskip_ws(s, q - 1);
            let st = ident_start(s, r);
            if r > st {
                let name = s.subrange(st, r);
                let e = if i + 9 > s.len() {
                    s.len() as int
                } else {
                    i + 9
                };
                let a = skip_ws(s, e);
                if a < s.len() && s[a] == 40 {
                    let c = ident_end(s, a + 1);
                    if c > a + 1 && c < s.len() && s[c] == 41 {
                        Option::Some((name, Option::Some(s.subrange(a + 1, c)), c + 1))
                    } else {
                        Option::Some((name, Option::None, e))
                    }
                } else {
                    Option::Some((name, Option::None, e))
                }
            } else {
                Option::None
            }
        } else {
            Option::None
        }
    } else {
        Option::None
    }
}

/// The symbol a Pascal class or interface declaration yields.
pub open spec fn pas_decl_sym(name: Seq<u8>, parent: Option<Seq<u8>>, t: SymbolType) -> SymbolModel {
    SymbolModel {
        name: name,
        qualified_name: name,
        symbol_type: t,
        visibility: Option::Some(lit("public")),
        is_abstract: Option::None,
        is_static: Option::None,
        extends: parent,
        implements: Option::None,
        line_start: Option::None,
        line_end: Option::None,
    }
}

/// All class symbols, filtered to names starting with `T`.
pub open spec fn pas_class_syms_from(s: Seq<u8>, ls: Seq<u8>, i: int) -> Seq<SymbolModel>
    decreases s.len() - i,
{
    if i < 0 || i >= s.len() {
        Seq::empty()
    } else {
        match try_pas_class(s, ls, i) {
            Option::Some(m) => {
                let here = if m.0.len() > 0 && m.0[0] == 84 {
                    seq![pas_decl_sym(m.0, m.1, SymbolType::Class)]
                } else {
                    Seq::<SymbolModel>::empty()
                };
                let nxt = if m.2 <= i {
                    i + 1
                } else if m.2 > s.len() {
                    s.len() as int
                } else {
                    m.2
                };
                here + pas_class_syms_from(s, ls, nxt)
            },
            Option::None => pas_class_syms_from(s, ls, i + 1),
        }
    }
}

pub open spec fn pas_class_syms(s: Seq<u8>) -> Seq<SymbolModel> {
    pas_class_syms_from(s, lower(s), 0)
}

/// All interface symbols, filtered to names starting with `I`.
pub open spec fn pas_iface_syms_from(s: Seq<u8>, ls: Seq<u8>, i: int) -> Seq<SymbolModel>
    decreases s.len() - i,
{
    if i < 0 || i >= s.len() {
        Seq::empty()
    } else {
        match try_pas_iface(s, ls, i) {
            Option::Some(m) => {
                let here = if m.0.len() > 0 && m.0[0] == 73 {
                    seq![pas_decl_sym(m.0, m.1, SymbolType::Interface)]
                } else {
                    Seq::<SymbolModel>::empty()
                };
                let nxt = if m.2 <= i {
                    i + 1
                } else if m.2 > s.len() {
                    s.len() as int
                } else {
                    m.2
                };
                here + pas_iface_syms_from(s, ls, nxt)
            },
            Option::None => pas_iface_syms_from(s, ls, i + 1),
        }
    }
}

pub open spec fn pas_iface_syms(s: Seq<u8>) -> Seq<SymbolModel> {
    pas_iface_syms_from(s, lower(s), 0)
}

/// One declaration-scanner match attempt, executable form.
fn try_pas_decl_x(s: &Vec<u8>, ls: &Vec<u8>, i: usize, iface: bool) -> (r: Option<
    (Vec<u8>, Option<Vec<u8>>, usize),
>)
    requires
        ls@ == lower(s@),
        i < s.len(),
    ensures
        match r {
            Option::Some(m) => (if iface {
                try_pas_iface(s@, ls@, i as int)
            } else {
                try_pas_class(s@, ls@, i as int)
            }) == Option::Some((m.0@, opt_view(m.1), m.2 as int)) && m.2 <= s.len(),
            Option::None => (if iface {
                try_pas_iface(s@, ls@, i as int)
            } else {
                try_pas_class(s@, ls@, i as int)
            }) is None,
        },
{
    proof {
        assert(s@.len() == ls@.len());
    }
    let kw = if iface {
        litv("interface")
    } else {
        litv("class")
    };
    let kwlen: usize = if iface {
        9
    } else {
        5
    };
    if !match_at(ls, &kw, i) {
        return None;
    }
    let q = rskip_ws_x(s, i);
    if !(q > 0 && s[q - 1] == 61) {
        return None;
    }
    let r = rskip_ws_x(s, q - 1);
    let st = ident_start_x(s, r);
    if r <= st {
        return None;
    }
    let name = slice_of(s, st, r);
    let e = if s.len() - i > kwlen {
        i + kwlen
    } else {
        s.len()
    };
    let a = skip_ws_x(s, e);
    if a < s.len() && s[a] == 40 {
        let c = ident_end_x(s, a + 1);
        if c > a + 1 && c < s.len() && s[c] == 41 {
            return Some((name, Some(slice_of(s, a + 1, c)), c + 1));
        }
    }
    Some((name, None, e))
}

/// Scan for class or interface declarations and record them as symbols.
fn extract_pas_decls(s: &Vec<u8>, ls: &Vec<u8>, iface: bool, parsed: &mut ParsedFile)
    requires
        ls@ == lower(s@),
    ensures
        sym_models(final(parsed).symbols@) == sym_models(old(parsed).symbols@) + (if iface {
            pas_iface_syms(s@)
        } else {
            pas_class_syms(s@)
        }),
        final(parsed).dependencies == old(parsed).dependencies,
        final(parsed).source == old(parsed).source,
        final(parsed).facts == old(parsed).facts,
        final(parsed).warnings == old(parsed).warnings,
{
    let mut i: usize = 0;
    while i < s.len()
        invariant
            ls@ == lower(s@),
            0 <= i <= s.len(),
            sym_models(parsed.symbols@) + (if iface {
                pas_iface_syms_from(s@, ls@, i as int)
            } else {
                pas_class_syms_from(s@, ls@, i as int)
            }) == sym_models(old(parsed).symbols@) + (if iface {
                pas_iface_syms_from(s@, ls@, 0)
            } else {
                pas_class_syms_from(s@, ls@, 0)
            }),
            parsed.dependencies == old(parsed).dependencies,
            parsed.source == old(parsed).source,
            parsed.facts == old(parsed).facts,
            parsed.warnings == old(parsed).warnings,
        decreases s.len() - i,
    {
        match try_pas_decl_x(s, ls, i, iface) {
            Option::Some((name, parent, resume)) => {
                let first_ok = if iface {
                    name.len() > 0 && name[0] == 73
                } else {
                    name.len() > 0 && name[0] == 84
                };
                if first_ok {
                    let qualified = slice_of(&name, 0, name.len());
                    proof {
                        assert(qualified@ =~= name@);
                    }
                    let sym = Symbol {
                        name,
                        qualified_name: qualified,
                        symbol_type: if iface {
                            SymbolType::Interface
                        } else {
                            SymbolType::Class
                        },
                        visibility: Some(litv("public")),
                        is_abstract: None,
                        is_static: None,
                        extends: parent,
                        implements: None,
                        line_start: None,
                        line_end: None,
                    };
                    let ghost pre = parsed.symbols@;
                    parsed.add_symbol(sym);
                    proof {
                        lemma_sym_models_push(pre, sym);
                        if iface {
                            assert(sym_models(parsed.symbols@) + pas_iface_syms_from(
                                s@,
                                ls@,
                                if resume <= i {
                                    i + 1
                                } else {
                                    resume as int
                                },
                            ) =~= sym_models(old(parsed).symbols@) + pas_iface_syms_from(
                                s@,
                                ls@,
                                0,
                            ));
                        } else {
                            assert(sym_models(parsed.symbols@) + pas_class_syms_from(
                                s@,
                                ls@,
                                if resume <= i {
                                    i + 1
                                } else {
                                    resume as int
                                },
                            ) =~= sym_models(old(parsed).symbols@) + pas_class_syms_from(
                                s@,
                                ls@,
                                0,
                            ));
                        }
                    }
                } else {
                    proof {
                        if iface {
                            assert(sym_models(parsed.symbols@) + pas_iface_syms_from(
                                s@,
                                ls@,
                                if resume <= i {
                                    i + 1
                                } else {
                                    resume as int
                                },
                            ) =~= sym_models(old(parsed).symbols@) + pas_iface_syms_from(
                                s@,
                                ls@,
                                0,
                            ));
                        } else {
                            assert(sym_models(parsed.symbols@) + pas_class_syms_from(
                                s@,
                                ls@,
                                if resume <= i {
                                    i + 1
                                } else {
                                    resume as int
                                },
                            ) =~= sym_models(old(parsed).symbols@) + pas_class_syms_from(
                                s@,
                                ls@,
                                0,
                            ));
                        }
                    }
                }
                if resume <= i {
                    i = i + 1;
                } else {
                    i = resume;
                }
            },
            Option::None => {
                proof {
                    if iface {
                        assert(pas_iface_syms_from(s@, ls@, i as int) == pas_iface_syms_from(
                            s@,
                            ls@,
                            i + 1,
                        ));
                    } else {
                        assert(pas_class_syms_from(s@, ls@, i as int) == pas_class_syms_from(
                            s@,
                            ls@,
                            i + 1,
                        ));
                    }
                }
                i = i + 1;
            },
        }
    }
    proof {
        if iface {
            assert(pas_iface_syms_from(s@, ls@, s@.len() as int) =~= Seq::<SymbolModel>::empty());
        } else {
            assert(pas_class_syms_from(s@, ls@, s@.len() as int) =~= Seq::<SymbolModel>::empty());
        }
        assert(sym_models(parsed.symbols@) =~= sym_models(old(parsed).symbols@) + (if iface {
            pas_iface_syms(s@)
        } else {
            pas_class_syms(s@)
        }));
    }
}

} // verus!

verus! {

// ---------------------------------------------------------------------------
// Procedures, functions, and form components (per line)
// ---------------------------------------------------------------------------

/// A `procedure`/`function` heading on one line: the (possibly dotted) full
/// name and whether it is a `class` routine. Keywords are case-insensitive;
/// the heading must be followed by `(`, or by `;` (procedures) / `:`
/// (functions).
pub open spec fn routine_line_spec(l: Seq<u8>, func: bool) -> Option<(Seq<u8>, bool)> {
    let ll = lower(l);
    let i = skip_ws(ll, 0);
    let is_class = matches_at(ll, lit("class"), i) && ll.len() - i > 5 && is_space(ll[i + 5]);
    let j = if is_class {
        skip_ws(ll, i + 5)
    } else {
        i
    };
    let kwok = if func {
        matches_at(ll, lit("function"), j) && ll.len() - j > 8 && is_space(ll[j + 8])
    } else {
        matches_at(ll, lit("procedure"), j) && ll.len() - j > 9 && is_space(ll[j + 9])
    };
    if kwok {
        let k = skip_ws(ll, if func {
            j + 8
        } else {
            j + 9
        });
        let e = ident_end(ll, k);
        if e > k {
            let dotted: Option<int> = if e < l.len() && l[e] == 46 {
                let e2 = ident_end(ll, e + 1);
                if e2 > e + 1 {
                    Option::Some(e2)
                } else {
                    Option::None
                }
            } else {
                Option::None
            };
            let pos = match dotted {
                Option::Some(e2) => e2,
                Option::None => e,
            };
            let name = match dotted {
                Option::Some(e2) => l.subrange(k, e) + lit(".") + l.subrange(e + 1, e2),
                Option::None => l.subrange(k, e),
            };
            let t = skip_ws(ll, pos);
            let tail_ok = t < l.len() && (l[t] == 40 || (if func {
                l[t] == 58
            } else {
                l[t] == 59
            }));
            if tail_ok {
                Option::Some((name, is_class))
            } else {
                Option::None
            }
        } else {
            Option::None
        }
    } else {
        Option::None
    }
}

pub fn routine_line(l: &Vec<u8>, func: bool) -> (r: Option<(Vec<u8>, bool)>)
    ensures
        match r {
            Option::Some(p) => routine_line_spec(l@, func) == Option::Some((p.0@, p.1)),
            Option::None => routine_line_spec(l@, func) is None,
        },
{
    let ll = lower_x(l);
    let i = skip_ws_x(&ll, 0);
    let class_kw = litv("class");
    let is_class = match_at(&ll, &class_kw, i) && ll.len() - i > 5 && space(ll[i + 5]);
    let j = if is_class {
        skip_ws_x(&ll, i + 5)
    } else {
        i
    };
    let kw = if func {
        litv("function")
    } else {
        litv("procedure")
    };
    let kwlen: usize = if func {
        8
    } else {
        9
    };
    if !(match_at(&ll, &kw, j) && ll.len() - j > kwlen && space(ll[j + kwlen])) {
        return None;
    }
    let k = skip_ws_x(&ll, j + kwlen);
    let e = ident_end_x(&ll, k);
    if e <= k {
        return None;
    }
    proof {
        assert(l@.len() == ll@.len());
    }
    let mut pos = e;
    let mut name = slice_of(l, k, e);
    if e < l.len() && l[e] == 46 {
        let e2 = ident_end_x(&ll, e + 1);
        if e2 > e + 1 {
            pos = e2;
            let dot = litv(".");
            let a = concat(&name, &dot);
            let second = slice_of(l, e + 1, e2);
            name = concat(&a, &second);
        }
    }
    let t = skip_ws_x(&ll, pos);
    let tail_ok = t < l.len() && (l[t] == 40 || (if func {
        l[t] == 58
    } else {
        l[t] == 59
    }));
    if tail_ok {
        Some((name, is_class))
    } else {
        None
    }
}

/// Routine symbols from line `i` on: `Method` entries for procedures,
/// `Function` entries for functions.
pub open spec fn pas_routine_syms(ls: Seq<Seq<u8>>, func: bool, i: int) -> Seq<SymbolModel>
    decreases ls.len() - i,
{
    if i < 0 || i >= ls.len() {
        Seq::empty()
    } else {
        let rest = pas_routine_syms(ls, func, i + 1);
        match routine_line_spec(ls[i], func) {
            Option::Some(p) => seq![
                SymbolModel {
                    name: p.0,
                    qualified_name: p.0,
                    symbol_type: if func {
                        SymbolType::Function
                    } else {
                        SymbolType::Method
                    },
                    visibility: Option::None,
                    is_abstract: Option::None,
                    is_static: Option::Some(p.1),
                    extends: Option::None,
                    implements: Option::None,
                    line_start: Option::None,
                    line_end: Option::None,
                },
            ] + rest,
            Option::None => rest,
        }
    }
}

fn extract_routines(content: &Vec<u8>, func: bool, parsed: &mut ParsedFile)
    ensures
        sym_models(final(parsed).symbols@) == sym_models(old(parsed).symbols@) + pas_routine_syms(
            split_lines(content@),
            func,
            0,
        ),
        final(parsed).dependencies == old(parsed).dependencies,
        final(parsed).source == old(parsed).source,
        final(parsed).facts == old(parsed).facts,
        final(parsed).warnings == old(parsed).warnings,
{
    let lines = split_lines_x(content);
    let ghost lsv = split_lines(content@);
    let mut k: usize = 0;
    while k < lines.len()
        invariant
            0 <= k <= lines@.len(),
            views(lines@) == lsv,
            lsv == split_lines(content@),
            sym_models(parsed.symbols@) + pas_routine_syms(lsv, func, k as int) == sym_models(
                old(parsed).symbols@,
            ) + pas_routine_syms(lsv, func, 0),
            parsed.dependencies == old(parsed).dependencies,
            parsed.source == old(parsed).source,
            parsed.facts == old(parsed).facts,
            parsed.warnings == old(parsed).warnings,
        decreases lines@.len() - k,
    {
        proof {
            assert(views(lines@)[k as int] == lines@[k as int]@);
        }
        match routine_line(&lines[k], func) {
            Option::Some((name, is_class)) => {
                let qualified = slice_of(&name, 0, name.len());
                proof {
                    assert(qualified@ =~= name@);
                }
                let sym = Symbol {
                    name,
                    qualified_name: qualified,
                    symbol_type: if func {
                        SymbolType::Function
                    } else {
                        SymbolType::Method
                    },
                    visibility: None,
                    is_abstract: None,
                    is_static: Some(is_class),
                    extends: None,
                    implements: None,
                    line_start: None,
                    line_end: None,
                };
                let ghost pre = parsed.symbols@;
                parsed.add_symbol(sym);
                proof {
                    lemma_sym_models_push(pre, sym);
                    assert(sym_models(parsed.symbols@) + pas_routine_syms(lsv, func, k + 1)
                        =~= sym_models(old(parsed).symbols@) + pas_routine_syms(lsv, func, 0));
                }
            },
            Option::None => {
                proof {
                    assert(pas_routine_syms(lsv, func, k as int) == pas_routine_syms(
                        lsv,
                        func,
                        k + 1,
                    ));
                }
            },
        }
        k = k + 1;
    }
    proof {
        assert(pas_routine_syms(lsv, func, lines@.len() as int) =~= Seq::<SymbolModel>::empty());
        assert(sym_models(parsed.symbols@) =~= sym_models(old(parsed).symbols@)
            + pas_routine_syms(lsv, func, 0));
    }
}

/// A form component declaration on one line:
/// `object <Name>: <Type>` or `inherited <Name>: <Type>`.
pub open spec fn object_line_spec(l: Seq<u8>) -> Option<(Seq<u8>, Seq<u8>)> {
    let ll = lower(l);
    let i = skip_ws(ll, 0);
    let j: Option<int> = if matches_at(ll, lit("object"), i) && ll.len() - i > 6 && is_space(
        ll[i + 6],
    ) {
        Option::Some(skip_ws(ll, i + 6))
    } else if matches_at(ll, lit("inherited"), i) && ll.len() - i > 9 && is_space(ll[i + 9]) {
        Option::Some(skip_ws(ll, i + 9))
    } else {
        Option::None
    };
    match j {
        Option::None => Option::None,
        Option::Some(j) => {
            let e = ident_end(ll, j);
            if e > j {
                let t = skip_ws(ll, e);
                if t < l.len() && l[t] == 58 {
                    let u = skip_ws(ll, t + 1);
                    let f = ident_end(ll, u);
                    if f > u {
                        Option::Some((l.subrange(j, e), l.subrange(u, f)))
                    } else {
                        Option::None
                    }
                } else {
                    Option::None
                }
            } else {
                Option::None
            }
        },
    }
}

pub fn object_line(l: &Vec<u8>) -> (r: Option<(Vec<u8>, Vec<u8>)>)
    ensures
        match r {
            Option::Some(p) => object_line_spec(l@) == Option::Some((p.0@, p.1@)),
            Option::None => object_line_spec(l@) is None,
        },
{
    let ll = lower_x(l);
    let i = skip_ws_x(&ll, 0);
    let object_kw = litv("object");
    let inherited_kw = litv("inherited");
    let j: usize;
    if match_at(&ll, &object_kw, i) && ll.len() - i > 6 && space(ll[i + 6]) {
        j = skip_ws_x(&ll, i + 6);
    } else if match_at(&ll, &inherited_kw, i) && ll.len() - i > 9 && space(ll[i + 9]) {
        j = skip_ws_x(&ll, i + 9);
    } else {
        return None;
    }
    let e = ident_end_x(&ll, j);
    if e <= j {
        return None;
    }
    proof {
        assert(l@.len() == ll@.len());
    }
    let t = skip_ws_x(&ll, e);
    if !(t < l.len() && l[t] == 58) {
        return None;
    }
    let u = skip_ws_x(&ll, t + 1);
    let f = ident_end_x(&ll, u);
    if f <= u {
        return None;
    }
    Some((slice_of(l, j, e), slice_of(l, u, f)))
}

/// Component symbols of a form file, one per `object`/`inherited` line:
/// the component name, qualified as `Name: Type`, with the component type
/// as parent.
pub open spec fn dfm_syms_from(ls: Seq<Seq<u8>>, i: int) -> Seq<SymbolModel>
    decreases ls.len() - i,
{
    if i < 0 || i >= ls.len() {
        Seq::empty()
    } else {
        let rest = dfm_syms_from(ls, i + 1);
        match object_line_spec(ls[i]) {
            Option::Some(p) => seq![
                SymbolModel {
                    name: p.0,
                    qualified_name: p.0 + lit(": ") + p.1,
                    symbol_type: SymbolType::Property,
                    visibility: Option::None,
                    is_abstract: Option::None,
                    is_static: Option::None,
                    extends: Option::Some(p.1),
                    implements: Option::None,
                    line_start: Option::None,
                    line_end: Option::None,
                },
            ] + rest,
            Option::None => rest,
        }
    }
}

pub open spec fn dfm_syms(s: Seq<u8>) -> Seq<SymbolModel> {
    dfm_syms_from(split_lines(s), 0)
}

/// The unit symbol of a Pascal source, if a unit header opens the file.
pub open spec fn pas_unit_syms(s: Seq<u8>) -> Seq<SymbolModel> {
    match pas_unit(s) {
        Option::Some(n) => seq![
            SymbolModel {
                name: n,
                qualified_name: n,
                symbol_type: SymbolType::Unit,
                visibility: Option::Some(lit("public")),
                is_abstract: Option::None,
                is_static: Option::None,
                extends: Option::None,
                implements: Option::None,
                line_start: Option::Some(1),
                line_end: Option::None,
            },
        ],
        Option::None => Seq::empty(),
    }
}

/// Every symbol the Pascal extractor mines, in extraction order: the unit
/// header, classes, interfaces, procedures, functions.
pub open spec fn pas_symbols(s: Seq<u8>) -> Seq<SymbolModel> {
    pas_unit_syms(s) + pas_class_syms(s) + pas_iface_syms(s) + pas_routine_syms(
        split_lines(s),
        false,
        0,
    ) + pas_routine_syms(split_lines(s), true, 0)
}

/// Parser for Delphi `.pas` unit files.
pub struct PasParser;

impl PasParser {
    pub fn new() -> (r: Self) {
        PasParser
    }

    /// Parse a Pascal unit: unit header, uses clauses, class and interface
    /// declarations, procedure and function headings.
    pub fn parse(&self, file: &SourceFile, content: &Vec<u8>) -> (r: ParsedFile)
        ensures
            sf_model(r.source) == sf_model(*file),
            sym_models(r.symbols@) == pas_symbols(content@),
            dep_models(r.dependencies@) == pas_uses(content@),
            r.facts is Bare,
            r.warnings@.len() == 0,
    {
        let mut parsed = ParsedFile::new(file.duplicate());
        let ls = lower_x(content);
        match pas_unit_x(content, &ls) {
            Option::Some(name) => {
                let qualified = slice_of(&name, 0, name.len());
                proof {
                    assert(qualified@ =~= name@);
                }
                let sym = Symbol {
                    name,
                    qualified_name: qualified,
                    symbol_type: SymbolType::Unit,
                    visibility: Some(litv("public")),
                    is_abstract: None,
                    is_static: None,
                    extends: None,
                    implements: None,
                    line_start: Some(1),
                    line_end: None,
                };
                let ghost pre = parsed.symbols@;
                parsed.add_symbol(sym);
                proof {
                    lemma_sym_models_push(pre, sym);
                }
            },
            Option::None => {
            },
        }
        proof {
            assert(sym_models(parsed.symbols@) =~= pas_unit_syms(content@));
        }
        extract_uses(content, &ls, &mut parsed);
        extract_pas_decls(content, &ls, false, &mut parsed);
        extract_pas_decls(content, &ls, true, &mut parsed);
        extract_routines(content, false, &mut parsed);
        extract_routines(content, true, &mut parsed);
        proof {
            assert(sym_models(parsed.symbols@) =~= pas_symbols(content@));
            assert(dep_models(parsed.dependencies@) =~= pas_uses(content@));
        }
        parsed
    }
}

/// Parser for Delphi `.dfm`/`.fmx` form files.
pub struct DfmParser;

impl DfmParser {
    pub fn new() -> (r: Self) {
        DfmParser
    }

    /// Parse a form file: one component symbol per object declaration line.
    pub fn parse(&self, file: &SourceFile, content: &Vec<u8>) -> (r: ParsedFile)
        ensures
            sf_model(r.source) == sf_model(*file),
            sym_models(r.symbols@) == dfm_syms(content@),
            r.dependencies@.len() == 0,
            r.facts is Bare,
            r.warnings@.len() == 0,
    {
        let mut parsed = ParsedFile::new(file.duplicate());
        let lines = split_lines_x(content);
        let ghost lsv = split_lines(content@);
        let mut k: usize = 0;
        while k < lines.len()
            invariant
                0 <= k <= lines@.len(),
                views(lines@) == lsv,
                lsv == split_lines(content@),
                sym_models(parsed.symbols@) + dfm_syms_from(lsv, k as int) == dfm_syms_from(lsv, 0),
                parsed.dependencies@.len() == 0,
                parsed.facts is Bare,
                parsed.warnings@.len() == 0,
                sf_model(parsed.source) == sf_model(*file),
            decreases lines@.len() - k,
        {
            proof {
                assert(views(lines@)[k as int] == lines@[k as int]@);
            }
            match object_line(&lines[k]) {
                Option::Some((name, ctype)) => {
                    let sep = litv(": ");
                    let a = concat(&name, &sep);
                    let qualified = concat(&a, &ctype);
                    let sym = Symbol {
                        name,
                        qualified_name: qualified,
                        symbol_type: SymbolType::Property,
                        visibility: None,
                        is_abstract: None,
                        is_static: None,
                        extends: Some(ctype),
                        implements: None,
                        line_start: None,
                        line_end: None,
                    };
                    let ghost pre = parsed.symbols@;
                    parsed.add_symbol(sym);
                    proof {
                        lemma_sym_models_push(pre, sym);
                        assert(sym_models(parsed.symbols@) + dfm_syms_from(lsv, k + 1)
                            =~= dfm_syms_from(lsv, 0));
                    }
                },
                Option::None => {
                    proof {
                        assert(dfm_syms_from(lsv, k as int) == dfm_syms_from(lsv, k + 1));
                    }
                },
            }
            k = k + 1;
        }
        proof {
            assert(dfm_syms_from(lsv, lines@.len() as int) =~= Seq::<SymbolModel>::empty());
            assert(sym_models(parsed.symbols@) =~= dfm_syms(content@));
        }
        parsed
    }
}

} // verus!
