//! Blade template extraction: layout inheritance, sections and yields,
//! includes in every directive form, components (class, `<x-*>`, dynamic),
//! slots, stacks and pushes, props, Livewire components, permission and
//! error references, and directive-usage counts.

use vstd::prelude::*;
use crate::facts::BladeFacts;
use crate::facts::ComponentFact;
use crate::facts::Dependency;
use crate::facts::DepModel;
use crate::facts::FileFacts;
use crate::facts::ParsedFile;
use crate::facts::Symbol;
use crate::facts::SymbolType;
use crate::facts::component_models;
use crate::facts::count_views;
use crate::facts::dep_models;
use crate::facts::lemma_component_models_push;
use crate::facts::lemma_count_views_push;
use crate::facts::lemma_dep_models_push;
use crate::facts::opt_view;
use crate::facts::sym_models;
use crate::facts::lemma_sym_models_push;
use crate::source_file::SourceFile;
use crate::source_file::sf_model;
use crate::text::argviews;
use crate::text::concat;
use crate::text::contains_seq;
use crate::text::contains_sub;
use crate::text::count_calls;
use crate::text::count_calls_x;
use crate::text::count_sub;
use crate::text::count_sub_x;
use crate::text::dedup;
use crate::text::find_byte;
use crate::text::find_byte_x;
use crate::text::find_sub;
use crate::text::find_sub_x;
use crate::text::ident_end;
use crate::text::ident_end_x;
use crate::text::is_ident;
use crate::text::is_lower_alpha;
use crate::text::is_quote;
use crate::text::is_space;
use crate::text::lit;
use crate::text::litv;
use crate::text::match_at;
use crate::text::matches_at;
use crate::text::push_unique;
use crate::text::quote;
use crate::text::quoted_at;
use crate::text::quoted_at_x;
use crate::text::replace_all;
use crate::text::replace_all_x;
use crate::text::scan_arg;
use crate::text::scan_arg_spec;
use crate::text::scan_quoted;
use crate::text::scan_quoted_spec;
use crate::text::skip_ws;
use crate::text::skip_ws_x;
use crate::text::slice_of;
use crate::text::space;
use crate::text::views;

verus! {

// ---------------------------------------------------------------------------
// View name and flags
// ---------------------------------------------------------------------------

/// The dotted view name a template path yields: the views prefix and the
/// blade suffix removed, separators turned into dots.
pub open spec fn view_name_spec(path: Seq<u8>) -> Seq<u8> {
    replace_all(
        replace_all(replace_all(path, lit("resources/views/"), Seq::empty()), lit(".blade.php"), Seq::empty()),
        lit("/"),
        lit("."),
    )
}

pub fn view_name_of(path: &Vec<u8>) -> (r: Vec<u8>)
    ensures
        r@ == view_name_spec(path@),
{
    let views_prefix = litv("resources/views/");
    let blade_suffix = litv(".blade.php");
    let slash = litv("/");
    let dot = litv(".");
    let nothing: Vec<u8> = Vec::new();
    proof {
        assert(nothing@ =~= Seq::<u8>::empty());
    }
    let a = replace_all_x(path, &views_prefix, &nothing);
    let bv = replace_all_x(&a, &blade_suffix, &nothing);
    replace_all_x(&bv, &slash, &dot)
}

/// Whether some `@props([...])` list occurs.
pub open spec fn has_list_entry(entries: Seq<(bool, Seq<u8>)>, i: int) -> bool
    decreases entries.len() - i,
{
    if i < 0 || i >= entries.len() {
        false
    } else if entries[i].0 {
        true
    } else {
        has_list_entry(entries, i + 1)
    }
}

pub open spec fn has_props(s: Seq<u8>) -> bool {
    has_list_entry(scan_arg_spec(s, seq![lit("@props")], false), 0)
}

// ---------------------------------------------------------------------------
// Includes
// ---------------------------------------------------------------------------

/// One `@includeWhen(<cond>, '<view>')` match at `i`: the second, quoted
/// argument.
pub open spec fn try_second_quoted(s: Seq<u8>, toks: Seq<Seq<u8>>, i: int) -> Option<
    (Seq<u8>, int),
> {
    match crate::text::toks_end(s, toks, 0, i) {
        Option::None => Option::None,
        Option::Some(e) => {
            let p = skip_ws(s, e);
            if 0 <= p && p < s.len() && s[p] == 40 {
                let c = find_byte(s, 44, p + 1);
                if 0 <= c && c < s.len() && c > p + 1 {
                    let q = skip_ws(s, c + 1);
                    quoted_at(s, false, q)
                } else {
                    Option::None
                }
            } else {
                Option::None
            }
        },
    }
}

pub open spec fn scan_second_quoted_from(s: Seq<u8>, toks: Seq<Seq<u8>>, i: int) -> Seq<Seq<u8>>
    decreases s.len() - i,
{
    if i < 0 || i >= s.len() {
        Seq::empty()
    } else {
        match try_second_quoted(s, toks, i) {
            Option::Some(r) => {
                let nxt = if r.1 <= i {
                    i + 1
                } else if r.1 > s.len() {
                    s.len() as int
                } else {
                    r.1
                };
                seq![r.0] + scan_second_quoted_from(s, toks, nxt)
            },
            Option::None => scan_second_quoted_from(s, toks, i + 1),
        }
    }
}

pub fn scan_second_quoted(s: &Vec<u8>, toks: &Vec<Vec<u8>>) -> (out: Vec<Vec<u8>>)
    ensures
        views(out@) == scan_second_quoted_from(s@, views(toks@), 0),
{
    let ghost tv = views(toks@);
    let mut out: Vec<Vec<u8>> = Vec::new();
    let mut i: usize = 0;
    while i < s.len()
        invariant
            0 <= i <= s.len(),
            tv == views(toks@),
            views(out@) + scan_second_quoted_from(s@, tv, i as int) == scan_second_quoted_from(
                s@,
                tv,
                0,
            ),
        decreases s.len() - i,
    {
        let step: Option<(Vec<u8>, usize)> = match crate::text::toks_end_x(s, toks, i) {
            Option::Some(e) => {
                let p = skip_ws_x(s, e);
                if p < s.len() && s[p] == 40 {
                    let c = find_byte_x(s, 44, p + 1);
                    if c < s.len() && c > p + 1 {
                        let q = skip_ws_x(s, c + 1);
                        quoted_at_x(s, false, q)
                    } else {
                        None
                    }
                } else {
                    None
                }
            },
            Option::None => None,
        };
        match step {
            Option::Some((cap, end)) => {
                proof {
                    assert(try_second_quoted(s@, tv, i as int) == Option::Some(
                        (cap@, end as int),
                    ));
                }
                let ghost pre = out@;
                out.push(cap);
                proof {
                    crate::text::lemma_views_push(pre, cap);
                    assert(views(out@) + scan_second_quoted_from(s@, tv, end as int)
                        =~= scan_second_quoted_from(s@, tv, 0));
                }
                i = end;
            },
            Option::None => {
                proof {
                    assert(try_second_quoted(s@, tv, i as int) is None);
                    assert(scan_second_quoted_from(s@, tv, i as int) == scan_second_quoted_from(
                        s@,
                        tv,
                        i + 1,
                    ));
                }
                i = i + 1;
            },
        }
    }
    proof {
        assert(views(out@) + Seq::<Seq<u8>>::empty() =~= views(out@));
    }
    out
}

/// The bracketed-list items of every match of one keyword, flattened.
pub open spec fn list_items_pre(entries: Seq<(bool, Seq<u8>)>, k: int) -> Seq<Seq<u8>>
    decreases k,
{
    if k <= 0 || k > entries.len() {
        Seq::empty()
    } else {
        list_items_pre(entries, k - 1) + (if entries[k - 1].0 {
            crate::text::split_list(entries[k - 1].1)
        } else {
            Seq::<Seq<u8>>::empty()
        })
    }
}

/// All included views: `@include`, `@includeIf`, `@includeWhen`,
/// `@includeFirst` lists, `@each`, first occurrence kept.
pub open spec fn blade_includes(s: Seq<u8>) -> Seq<Seq<u8>> {
    let first_entries = scan_arg_spec(s, seq![lit("@includeFirst")], false);
    dedup(
        scan_quoted_spec(s, seq![lit("@include")]) + scan_quoted_spec(s, seq![lit("@includeIf")])
            + scan_second_quoted_from(s, seq![lit("@includeWhen")], 0) + list_items_pre(
            first_entries,
            first_entries.len() as int,
        ) + scan_quoted_spec(s, seq![lit("@each")]),
    )
}

// ---------------------------------------------------------------------------
// Components, slots, Livewire
// ---------------------------------------------------------------------------

/// First position at or after `i` outside the `<x-*>` name charset
/// (lower-case letters, digits, hyphen, dot).
pub open spec fn xname_end(s: Seq<u8>, i: int) -> int
    decreases s.len() - i,
{
    if 0 <= i && i < s.len() && (is_lower_alpha(s[i]) || (48 <= s[i] && s[i] <= 57) || s[i] == 45
        || s[i] == 46) {
        xname_end(s, i + 1)
    } else {
        i
    }
}

pub fn xname_end_x(s: &Vec<u8>, i: usize) -> (r: usize)
    requires
        i <= s.len(),
    ensures
        r == xname_end(s@, i as int),
        i <= r <= s.len(),
{
    let mut j: usize = i;
    while j < s.len() && ((97 <= s[j] && s[j] <= 122) || (48 <= s[j] && s[j] <= 57) || s[j] == 45
        || s[j] == 46)
        invariant
            i <= j <= s.len(),
            xname_end(s@, i as int) == xname_end(s@, j as int),
        decreases s.len() - j,
    {
        j = j + 1;
    }
    j
}

/// `<x-name>` at `i`: the tag name (starting with a lower-case letter),
/// hyphens later normalized to dots.
pub open spec fn try_xtag(s: Seq<u8>, i: int) -> Option<(Seq<u8>, int)> {
    if matches_at(s, lit("<x-"), i) {
        let a = i + 3;
        if a < s.len() && is_lower_alpha(s[a]) {
            let e = xname_end(s, a + 1);
            Option::Some((s.subrange(a, e), e))
        } else {
            Option::None
        }
    } else {
        Option::None
    }
}

pub open spec fn xtags_from(s: Seq<u8>, i: int) -> Seq<Seq<u8>>
    decreases s.len() - i,
{
    if i < 0 || i >= s.len() {
        Seq::empty()
    } else {
        match try_xtag(s, i) {
            Option::Some(r) => {
                let nxt = if r.1 <= i {
                    i + 1
                } else if r.1 > s.len() {
                    s.len() as int
                } else {
                    r.1
                };
                seq![r.0] + xtags_from(s, nxt)
            },
            Option::None => xtags_from(s, i + 1),
        }
    }
}

pub fn scan_xtags(s: &Vec<u8>) -> (out: Vec<Vec<u8>>)
    ensures
        views(out@) == xtags_from(s@, 0),
{
    let xtag = litv("<x-");
    let mut out: Vec<Vec<u8>> = Vec::new();
    let mut i: usize = 0;
    while i < s.len()
        invariant
            0 <= i <= s.len(),
            xtag@ == lit("<x-"),
            views(out@) + xtags_from(s@, i as int) == xtags_from(s@, 0),
        decreases s.len() - i,
    {
        let step: Option<(Vec<u8>, usize)> = if match_at(s, &xtag, i) {
            let a = if s.len() - i > 3 {
                i + 3
            } else {
                s.len()
            };
            proof {
                if s@.len() - i <= 3 {
                    assert(!(i + 3 < s@.len()));
                }
            }
            if a < s.len() && (97 <= s[a] && s[a] <= 122) {
                let e = xname_end_x(s, a + 1);
                Some((slice_of(s, a, e), e))
            } else {
                None
            }
        } else {
            None
        };
        match step {
            Option::Some((cap, end)) => {
                proof {
                    assert(try_xtag(s@, i as int) == Option::Some((cap@, end as int)));
                }
                let ghost pre = out@;
                out.push(cap);
                proof {
                    crate::text::lemma_views_push(pre, cap);
                    assert(views(out@) + xtags_from(s@, if end as int <= i as int {
                        i + 1
                    } else {
                        end as int
                    }) =~= xtags_from(s@, 0));
                }
                if end <= i {
                    i = i + 1;
                } else {
                    i = end;
                }
            },
            Option::None => {
                proof {
                    assert(try_xtag(s@, i as int) is None);
                    assert(xtags_from(s@, i as int) == xtags_from(s@, i + 1));
                }
                i = i + 1;
            },
        }
    }
    proof {
        assert(views(out@) + Seq::<Seq<u8>>::empty() =~= views(out@));
    }
    out
}

/// `<x-dynamic-component ... component='name'>` at `i`: the first
/// `component` attribute before the closing angle bracket.
pub open spec fn try_dynamic(s: Seq<u8>, i: int) -> Option<(Seq<u8>, int)> {
    if matches_at(s, lit("<x-dynamic-component"), i) && i + 20 < s.len() && is_space(s[i + 20]) {
        let gt = find_byte(s, 62, i + 20);
        let cpos = find_sub(s, lit("component"), i + 20);
        if 0 <= cpos && cpos < s.len() && cpos < gt {
            let t = skip_ws(s, cpos + 9);
            if 0 <= t && t < s.len() && s[t] == 61 {
                let q = skip_ws(s, t + 1);
                quoted_at(s, false, q)
            } else {
                Option::None
            }
        } else {
            Option::None
        }
    } else {
        Option::None
    }
}

pub open spec fn dynamics_from(s: Seq<u8>, i: int) -> Seq<Seq<u8>>
    decreases s.len() - i,
{
    if i < 0 || i >= s.len() {
        Seq::empty()
    } else {
        match try_dynamic(s, i) {
            Option::Some(r) => {
                let nxt = if r.1 <= i {
                    i + 1
                } else if r.1 > s.len() {
                    s.len() as int
                } else {
                    r.1
                };
                seq![r.0] + dynamics_from(s, nxt)
            },
            Option::None => dynamics_from(s, i + 1),
        }
    }
}

pub fn scan_dynamics(s: &Vec<u8>) -> (out: Vec<Vec<u8>>)
    ensures
        views(out@) == dynamics_from(s@, 0),
{
    let opener = litv("<x-dynamic-component");
    let component_kw = litv("component");
    let mut out: Vec<Vec<u8>> = Vec::new();
    let mut i: usize = 0;
    while i < s.len()
        invariant
            0 <= i <= s.len(),
            opener@ == lit("<x-dynamic-component"),
            component_kw@ == lit("component"),
            views(out@) + dynamics_from(s@, i as int) == dynamics_from(s@, 0),
        decreases s.len() - i,
    {
        let step: Option<(Vec<u8>, usize)> = if match_at(s, &opener, i) && s.len() - i > 20
            && space(s[i + 20]) {
            let gt = find_byte_x(s, 62, i + 20);
            let cpos = find_sub_x(s, &component_kw, i + 20);
            if cpos < s.len() && cpos < gt {
                let t = skip_ws_x(s, if s.len() - cpos > 9 {
                    cpos + 9
                } else {
                    s.len()
                });
                proof {
                    if s@.len() - cpos <= 9 {
                        assert(skip_ws(s@, cpos + 9) == cpos + 9 || true);
                    }
                }
                if t < s.len() && s[t] == 61 {
                    let q = skip_ws_x(s, t + 1);
                    quoted_at_x(s, false, q)
                } else {
                    None
                }
            } else {
                None
            }
        } else {
            None
        };
        match step {
            Option::Some((cap, end)) => {
                proof {
                    assert(try_dynamic(s@, i as int) == Option::Some((cap@, end as int)));
                }
                let ghost pre = out@;
                out.push(cap);
                proof {
                    crate::text::lemma_views_push(pre, cap);
                    assert(views(out@) + dynamics_from(s@, end as int) =~= dynamics_from(s@, 0));
                }
                i = end;
            },
            Option::None => {
                proof {
                    assert(try_dynamic(s@, i as int) is None);
                    assert(dynamics_from(s@, i as int) == dynamics_from(s@, i + 1));
                }
                i = i + 1;
            },
        }
    }
    proof {
        assert(views(out@) + Seq::<Seq<u8>>::empty() =~= views(out@));
    }
    out
}

/// All component facts: class components, `<x-*>` tags (hyphens dotted),
/// dynamic components, in that order.
pub open spec fn blade_components(s: Seq<u8>) -> Seq<(Seq<u8>, Seq<u8>)> {
    scan_quoted_spec(s, seq![lit("@component")]).map_values(
        |n: Seq<u8>| (n, lit("class")),
    ) + xtags_from(s, 0).map_values(
        |n: Seq<u8>| (replace_all(n, lit("-"), lit(".")), lit("anonymous")),
    ) + dynamics_from(s, 0).map_values(|n: Seq<u8>| (n, lit("dynamic")))
}

/// `<x-slot name='header'>` at `i`: the slot name.
pub open spec fn try_xslot(s: Seq<u8>, i: int) -> Option<(Seq<u8>, int)> {
    if matches_at(s, lit("<x-slot"), i) && i + 7 < s.len() && is_space(s[i + 7]) {
        let a = skip_ws(s, i + 7);
        if matches_at(s, lit("name"), a) {
            let t = skip_ws(s, if a + 4 > s.len() {
                s.len() as int
            } else {
                a + 4
            });
            if t < s.len() && s[t] == 61 {
                let q = skip_ws(s, t + 1);
                quoted_at(s, false, q)
            } else {
                Option::None
            }
        } else {
            Option::None
        }
    } else {
        Option::None
    }
}

pub open spec fn xslots_from(s: Seq<u8>, i: int) -> Seq<Seq<u8>>
    decreases s.len() - i,
{
    if i < 0 || i >= s.len() {
        Seq::empty()
    } else {
        match try_xslot(s, i) {
            Option::Some(r) => {
                let nxt = if r.1 <= i {
                    i + 1
                } else if r.1 > s.len() {
                    s.len() as int
                } else {
                    r.1
                };
                seq![r.0] + xslots_from(s, nxt)
            },
            Option::None => xslots_from(s, i + 1),
        }
    }
}

pub fn scan_xslots(s: &Vec<u8>) -> (out: Vec<Vec<u8>>)
    ensures
        views(out@) == xslots_from(s@, 0),
{
    let opener = litv("<x-slot");
    let name_kw = litv("name");
    let mut out: Vec<Vec<u8>> = Vec::new();
    let mut i: usize = 0;
    while i < s.len()
        invariant
            0 <= i <= s.len(),
            opener@ == lit("<x-slot"),
            name_kw@ == lit("name"),
            views(out@) + xslots_from(s@, i as int) == xslots_from(s@, 0),
        decreases s.len() - i,
    {
        let step: Option<(Vec<u8>, usize)> = if match_at(s, &opener, i) && s.len() - i > 7
            && space(s[i + 7]) {
            let a = skip_ws_x(s, i + 7);
            if match_at(s, &name_kw, a) {
                let t = skip_ws_x(s, if s.len() - a > 4 {
                    a + 4
                } else {
                    s.len()
                });
                if t < s.len() && s[t] == 61 {
                    let q = skip_ws_x(s, t + 1);
                    quoted_at_x(s, false, q)
                } else {
                    None
                }
            } else {
                None
            }
        } else {
            None
        };
        match step {
            Option::Some((cap, end)) => {
                proof {
                    assert(try_xslot(s@, i as int) == Option::Some((cap@, end as int)));
                }
                let ghost pre = out@;
                out.push(cap);
                proof {
                    crate::text::lemma_views_push(pre, cap);
                    assert(views(out@) + xslots_from(s@, end as int) =~= xslots_from(s@, 0));
                }
                i = end;
            },
            Option::None => {
                proof {
                    assert(try_xslot(s@, i as int) is None);
                    assert(xslots_from(s@, i as int) == xslots_from(s@, i + 1));
                }
                i = i + 1;
            },
        }
    }
    proof {
        assert(views(out@) + Seq::<Seq<u8>>::empty() =~= views(out@));
    }
    out
}

/// `<livewire:name>` at `i`: the tag name.
pub open spec fn try_livewire_tag(s: Seq<u8>, i: int) -> Option<(Seq<u8>, int)> {
    if matches_at(s, lit("<livewire:"), i) {
        let a = i + 10;
        if a < s.len() && is_lower_alpha(s[a]) {
            let e = xname_end(s, a + 1);
            Option::Some((s.subrange(a, e), e))
        } else {
            Option::None
        }
    } else {
        Option::None
    }
}

pub open spec fn livewire_tags_from(s: Seq<u8>, i: int) -> Seq<Seq<u8>>
    decreases s.len() - i,
{
    if i < 0 || i >= s.len() {
        Seq::empty()
    } else {
        match try_livewire_tag(s, i) {
            Option::Some(r) => {
                let nxt = if r.1 <= i {
                    i + 1
                } else if r.1 > s.len() {
                    s.len() as int
                } else {
                    r.1
                };
                seq![r.0] + livewire_tags_from(s, nxt)
            },
            Option::None => livewire_tags_from(s, i + 1),
        }
    }
}

pub fn scan_livewire_tags(s: &Vec<u8>) -> (out: Vec<Vec<u8>>)
    ensures
        views(out@) == livewire_tags_from(s@, 0),
{
    let opener = litv("<livewire:");
    let mut out: Vec<Vec<u8>> = Vec::new();
    let mut i: usize = 0;
    while i < s.len()
        invariant
            0 <= i <= s.len(),
            opener@ == lit("<livewire:"),
            views(out@) + livewire_tags_from(s@, i as int) == livewire_tags_from(s@, 0),
        decreases s.len() - i,
    {
        let step: Option<(Vec<u8>, usize)> = if match_at(s, &opener, i) {
            let a = if s.len() - i > 10 {
                i + 10
            } else {
                s.len()
            };
            proof {
                if s@.len() - i <= 10 {
                    assert(!(i + 10 < s@.len()));
                }
            }
            if a < s.len() && (97 <= s[a] && s[a] <= 122) {
                let e = xname_end_x(s, a + 1);
                Some((slice_of(s, a, e), e))
            } else {
                None
            }
        } else {
            None
        };
        match step {
            Option::Some((cap, end)) => {
                proof {
                    assert(try_livewire_tag(s@, i as int) == Option::Some((cap@, end as int)));
                }
                let ghost pre = out@;
                out.push(cap);
                proof {
                    crate::text::lemma_views_push(pre, cap);
                    assert(views(out@) + livewire_tags_from(s@, if end as int <= i as int {
                        i + 1
                    } else {
                        end as int
                    }) =~= livewire_tags_from(s@, 0));
                }
                if end <= i {
                    i = i + 1;
                } else {
                    i = end;
                }
            },
            Option::None => {
                proof {
                    assert(try_livewire_tag(s@, i as int) is None);
                    assert(livewire_tags_from(s@, i as int) == livewire_tags_from(s@, i + 1));
                }
                i = i + 1;
            },
        }
    }
    proof {
        assert(views(out@) + Seq::<Seq<u8>>::empty() =~= views(out@));
    }
    out
}

// ---------------------------------------------------------------------------
// Props
// ---------------------------------------------------------------------------

/// The quoted identifier names occurring in a props list capture.
pub open spec fn quoted_idents_from(raw: Seq<u8>, i: int) -> Seq<Seq<u8>>
    decreases raw.len() - i,
{
    if i < 0 || i >= raw.len() {
        Seq::empty()
    } else {
        if is_quote(raw[i]) && {
            let e = ident_end(raw, i + 1);
            e > i + 1 && e < raw.len() && is_quote(raw[e])
        } {
            let e = ident_end(raw, i + 1);
            let nxt = if e + 1 <= i {
                i + 1
            } else if e + 1 > raw.len() {
                raw.len() as int
            } else {
                e + 1
            };
            seq![raw.subrange(i + 1, e)] + quoted_idents_from(raw, nxt)
        } else {
            quoted_idents_from(raw, i + 1)
        }
    }
}

/// The props of all `@props([...])` lists, first occurrence kept.
pub open spec fn props_items_pre(entries: Seq<(bool, Seq<u8>)>, k: int) -> Seq<Seq<u8>>
    decreases k,
{
    if k <= 0 || k > entries.len() {
        Seq::empty()
    } else {
        props_items_pre(entries, k - 1) + (if entries[k - 1].0 {
            quoted_idents_from(entries[k - 1].1, 0)
        } else {
            Seq::<Seq<u8>>::empty()
        })
    }
}

pub open spec fn blade_props(s: Seq<u8>) -> Seq<Seq<u8>> {
    let entries = scan_arg_spec(s, seq![lit("@props")], false);
    dedup(props_items_pre(entries, entries.len() as int))
}

fn quoted_idents_x(raw: &Vec<u8>) -> (out: Vec<Vec<u8>>)
    ensures
        views(out@) == quoted_idents_from(raw@, 0),
{
    let mut out: Vec<Vec<u8>> = Vec::new();
    let mut i: usize = 0;
    while i < raw.len()
        invariant
            0 <= i <= raw.len(),
            views(out@) + quoted_idents_from(raw@, i as int) == quoted_idents_from(raw@, 0),
        decreases raw.len() - i,
    {
        let mut advanced = false;
        if quote(raw[i]) {
            let e = ident_end_x(raw, i + 1);
            if e > i + 1 && e < raw.len() && quote(raw[e]) {
                let cap = slice_of(raw, i + 1, e);
                let ghost pre = out@;
                out.push(cap);
                proof {
                    crate::text::lemma_views_push(pre, cap);
                    assert(views(out@) + quoted_idents_from(raw@, if e as int + 1 <= i as int {
                        i + 1
                    } else {
                        e + 1
                    }) =~= quoted_idents_from(raw@, 0));
                }
                if e + 1 <= i {
                    i = i + 1;
                } else {
                    i = e + 1;
                }
                advanced = true;
            }
        }
        if !advanced {
            proof {
                assert(quoted_idents_from(raw@, i as int) == quoted_idents_from(raw@, i + 1));
            }
            i = i + 1;
        }
    }
    proof {
        assert(views(out@) + Seq::<Seq<u8>>::empty() =~= views(out@));
    }
    out
}

} // verus!

verus! {

// ---------------------------------------------------------------------------
// Directive counts
// ---------------------------------------------------------------------------

/// Occurrences of `pat` followed by a word boundary, non-overlapping.
pub open spec fn count_word_from(s: Seq<u8>, pat: Seq<u8>, i: int) -> nat
    decreases s.len() - i,
{
    if i < 0 || i >= s.len() || pat.len() == 0 {
        0
    } else if matches_at(s, pat, i) && (i + pat.len() >= s.len() || !is_ident(s[i + pat.len()])) {
        let nxt = if i + pat.len() <= i {
            i + 1
        } else if i + pat.len() > s.len() {
            s.len() as int
        } else {
            i + pat.len()
        };
        1 + count_word_from(s, pat, nxt)
    } else {
        count_word_from(s, pat, i + 1)
    }
}

pub fn count_word(s: &Vec<u8>, pat: &Vec<u8>) -> (n: usize)
    ensures
        n == count_word_from(s@, pat@, 0),
{
    if pat.len() == 0 {
        return 0;
    }
    let mut n: usize = 0;
    let mut i: usize = 0;
    while i < s.len()
        invariant
            0 <= i <= s.len(),
            pat@.len() > 0,
            n <= i,
            n + count_word_from(s@, pat@, i as int) == count_word_from(s@, pat@, 0),
        decreases s.len() - i,
    {
        if match_at(s, pat, i) && (i + pat.len() >= s.len() || !crate::text::ident(
            s[i + pat.len()],
        )) {
            n = n + 1;
            i = i + pat.len();
        } else {
            i = i + 1;
        }
    }
    n
}

/// Occurrences of `{{ <at least one non-brace byte> }}`, non-overlapping.
pub open spec fn count_echo_from(s: Seq<u8>, i: int) -> nat
    decreases s.len() - i,
{
    if i < 0 || i >= s.len() {
        0
    } else if matches_at(s, lit("{{"), i) && {
        let c = find_byte(s, 125, i + 2);
        c > i + 2 && c + 1 < s.len() && s[c + 1] == 125
    } {
        let c = find_byte(s, 125, i + 2);
        let nxt = if c + 2 <= i {
            i + 1
        } else if c + 2 > s.len() {
            s.len() as int
        } else {
            c + 2
        };
        1 + count_echo_from(s, nxt)
    } else {
        count_echo_from(s, i + 1)
    }
}

pub fn count_echo(s: &Vec<u8>) -> (n: usize)
    ensures
        n == count_echo_from(s@, 0),
{
    let braces = litv("{{");
    let mut n: usize = 0;
    let mut i: usize = 0;
    while i < s.len()
        invariant
            0 <= i <= s.len(),
            braces@ == lit("{{"),
            n <= i,
            n + count_echo_from(s@, i as int) == count_echo_from(s@, 0),
        decreases s.len() - i,
    {
        let mut stepped = false;
        if match_at(s, &braces, i) && s.len() - i >= 2 {
            let c = find_byte_x(s, 125, i + 2);
            if c > i + 2 && s.len() - c > 1 && s[c + 1] == 125 {
                n = n + 1;
                i = c + 2;
                stepped = true;
            }
        }
        if !stepped {
            proof {
                assert(count_echo_from(s@, i as int) == count_echo_from(s@, i + 1));
            }
            i = i + 1;
        }
    }
    n
}

/// Occurrences of `{!! <at least one non-bang byte> !!}`, non-overlapping.
pub open spec fn count_raw_from(s: Seq<u8>, i: int) -> nat
    decreases s.len() - i,
{
    if i < 0 || i >= s.len() {
        0
    } else if matches_at(s, lit("{!!"), i) && {
        let e = find_byte(s, 33, i + 3);
        e > i + 3 && e + 2 < s.len() && s[e + 1] == 33 && s[e + 2] == 125
    } {
        let e = find_byte(s, 33, i + 3);
        let nxt = if e + 3 <= i {
            i + 1
        } else if e + 3 > s.len() {
            s.len() as int
        } else {
            e + 3
        };
        1 + count_raw_from(s, nxt)
    } else {
        count_raw_from(s, i + 1)
    }
}

pub fn count_raw(s: &Vec<u8>) -> (n: usize)
    ensures
        n == count_raw_from(s@, 0),
{
    let opener = litv("{!!");
    let mut n: usize = 0;
    let mut i: usize = 0;
    while i < s.len()
        invariant
            0 <= i <= s.len(),
            opener@ == lit("{!!"),
            n <= i,
            n + count_raw_from(s@, i as int) == count_raw_from(s@, 0),
        decreases s.len() - i,
    {
        let mut stepped = false;
        if match_at(s, &opener, i) && s.len() - i >= 3 {
            let e = find_byte_x(s, 33, i + 3);
            if e > i + 3 && s.len() - e > 2 && s[e + 1] == 33 && s[e + 2] == 125 {
                n = n + 1;
                i = e + 3;
                stepped = true;
            }
        }
        if !stepped {
            proof {
                assert(count_raw_from(s@, i as int) == count_raw_from(s@, i + 1));
            }
            i = i + 1;
        }
    }
    n
}

/// The name of the `k`-th probed directive.
pub open spec fn dc_name(k: int) -> Seq<u8> {
    if k == 0 {
        lit("if")
    } else if k == 1 {
        lit("foreach")
    } else if k == 2 {
        lit("for")
    } else if k == 3 {
        lit("while")
    } else if k == 4 {
        lit("forelse")
    } else if k == 5 {
        lit("switch")
    } else if k == 6 {
        lit("auth")
    } else if k == 7 {
        lit("guest")
    } else if k == 8 {
        lit("php")
    } else if k == 9 {
        lit("csrf")
    } else if k == 10 {
        lit("echo")
    } else {
        lit("raw_echo")
    }
}

/// The occurrence count of the `k`-th probed directive: call-shaped control
/// directives, plain `@auth`/`@guest` occurrences, word-bounded
/// `@php`/`@csrf`, and the two echo forms.
pub open spec fn dc_count(s: Seq<u8>, k: int) -> int {
    if k == 0 {
        count_calls(s, seq![lit("@if")]) as int
    } else if k == 1 {
        count_calls(s, seq![lit("@foreach")]) as int
    } else if k == 2 {
        count_calls(s, seq![lit("@for")]) as int
    } else if k == 3 {
        count_calls(s, seq![lit("@while")]) as int
    } else if k == 4 {
        count_calls(s, seq![lit("@forelse")]) as int
    } else if k == 5 {
        count_calls(s, seq![lit("@switch")]) as int
    } else if k == 6 {
        count_sub(s, lit("@auth")) as int
    } else if k == 7 {
        count_sub(s, lit("@guest")) as int
    } else if k == 8 {
        count_word_from(s, lit("@php"), 0) as int
    } else if k == 9 {
        count_word_from(s, lit("@csrf"), 0) as int
    } else if k == 10 {
        count_echo_from(s, 0) as int
    } else {
        count_raw_from(s, 0) as int
    }
}

/// The directive counts among the first `k` probes, kept only when positive.
pub open spec fn dc_pre(s: Seq<u8>, k: int) -> Seq<(Seq<u8>, int)>
    decreases k,
{
    if k <= 0 {
        Seq::empty()
    } else {
        dc_pre(s, k - 1) + (if dc_count(s, k - 1) > 0 {
            seq![(dc_name(k - 1), dc_count(s, k - 1))]
        } else {
            Seq::<(Seq<u8>, int)>::empty()
        })
    }
}

/// The directive-usage counts, in fixed probe order, only for directives
/// that occur.
pub open spec fn directive_counts_spec(s: Seq<u8>) -> Seq<(Seq<u8>, int)> {
    dc_pre(s, 12)
}

fn push_count(out: &mut Vec<(Vec<u8>, usize)>, name: Vec<u8>, n: usize)
    ensures
        count_views(final(out)@) == count_views(old(out)@).push((name@, n as int)),
{
    let ghost pre = out@;
    out.push((name, n));
    proof {
        assert(count_views(out@) =~= count_views(pre).push((out@[out@.len() - 1].0@, n as int)));
    }
}

fn dc_name_x(k: usize) -> (r: Vec<u8>)
    requires
        k < 12,
    ensures
        r@ == dc_name(k as int),
{
    if k == 0 {
        litv("if")
    } else if k == 1 {
        litv("foreach")
    } else if k == 2 {
        litv("for")
    } else if k == 3 {
        litv("while")
    } else if k == 4 {
        litv("forelse")
    } else if k == 5 {
        litv("switch")
    } else if k == 6 {
        litv("auth")
    } else if k == 7 {
        litv("guest")
    } else if k == 8 {
        litv("php")
    } else if k == 9 {
        litv("csrf")
    } else if k == 10 {
        litv("echo")
    } else {
        litv("raw_echo")
    }
}

fn dc_count_x(s: &Vec<u8>, k: usize) -> (n: usize)
    requires
        k < 12,
    ensures
        n as int == dc_count(s@, k as int),
{
    if k == 0 {
        let toks = vec![litv("@if")];
        proof {
            assert(views(toks@) =~= seq![lit("@if")]);
        }
        count_calls_x(s, &toks)
    } else if k == 1 {
        let toks = vec![litv("@foreach")];
        proof {
            assert(views(toks@) =~= seq![lit("@foreach")]);
        }
        count_calls_x(s, &toks)
    } else if k == 2 {
        let toks = vec![litv("@for")];
        proof {
            assert(views(toks@) =~= seq![lit("@for")]);
        }
        count_calls_x(s, &toks)
    } else if k == 3 {
        let toks = vec![litv("@while")];
        proof {
            assert(views(toks@) =~= seq![lit("@while")]);
        }
        count_calls_x(s, &toks)
    } else if k == 4 {
        let toks = vec![litv("@forelse")];
        proof {
            assert(views(toks@) =~= seq![lit("@forelse")]);
        }
        count_calls_x(s, &toks)
    } else if k == 5 {
        let toks = vec![litv("@switch")];
        proof {
            assert(views(toks@) =~= seq![lit("@switch")]);
        }
        count_calls_x(s, &toks)
    } else if k == 6 {
        let pat = litv("@auth");
        count_sub_x(s, &pat)
    } else if k == 7 {
        let pat = litv("@guest");
        count_sub_x(s, &pat)
    } else if k == 8 {
        let pat = litv("@php");
        count_word(s, &pat)
    } else if k == 9 {
        let pat = litv("@csrf");
        count_word(s, &pat)
    } else if k == 10 {
        count_echo(s)
    } else {
        count_raw(s)
    }
}

pub fn count_directives(s: &Vec<u8>) -> (out: Vec<(Vec<u8>, usize)>)
    ensures
        count_views(out@) == directive_counts_spec(s@),
{
    let mut out: Vec<(Vec<u8>, usize)> = Vec::new();
    let mut k: usize = 0;
    while k < 12
        invariant
            0 <= k <= 12,
            count_views(out@) == dc_pre(s@, k as int),
        decreases 12 - k,
    {
        let n = dc_count_x(s, k);
        if n > 0 {
            let name = dc_name_x(k);
            let ghost pre = count_views(out@);
            push_count(&mut out, name, n);
            proof {
                assert(count_views(out@) =~= dc_pre(s@, k + 1));
            }
        } else {
            proof {
                assert(dc_pre(s@, k as int) =~= dc_pre(s@, k + 1));
            }
        }
        k = k + 1;
    }
    out
}

} // verus!

verus! {

// ---------------------------------------------------------------------------
// The parser
// ---------------------------------------------------------------------------

/// The parent layout named by the first `@extends('...')`.
pub open spec fn blade_extends(s: Seq<u8>) -> Option<Seq<u8>> {
    let caps = scan_quoted_spec(s, seq![lit("@extends")]);
    if caps.len() > 0 {
        Option::Some(caps[0])
    } else {
        Option::None
    }
}

/// The dependencies a template records: its parent layout, then each
/// included view, all under the `view:` qualifier.
pub open spec fn blade_deps(s: Seq<u8>) -> Seq<DepModel> {
    (match blade_extends(s) {
        Option::Some(e) => seq![
            DepModel {
                target: lit("view:") + e,
                alias: Option::None,
                line_number: Option::None,
                is_interface: false,
                is_implementation: false,
            },
        ],
        Option::None => Seq::<DepModel>::empty(),
    }) + blade_includes(s).map_values(
        |n: Seq<u8>|
            DepModel {
                target: lit("view:") + n,
                alias: Option::None,
                line_number: Option::None,
                is_interface: false,
                is_implementation: false,
            },
    )
}

/// All slot names: `@slot('...')` directives then `<x-slot name=...>` tags,
/// first occurrence kept.
pub open spec fn blade_slots(s: Seq<u8>) -> Seq<Seq<u8>> {
    dedup(scan_quoted_spec(s, seq![lit("@slot")]) + xslots_from(s, 0))
}

/// All stack pushes: `@push` then `@prepend`, first occurrence kept.
pub open spec fn blade_pushes(s: Seq<u8>) -> Seq<Seq<u8>> {
    dedup(scan_quoted_spec(s, seq![lit("@push")]) + scan_quoted_spec(s, seq![lit("@prepend")]))
}

/// All Livewire components: `@livewire('...')` then `<livewire:...>` tags,
/// first occurrence kept.
pub open spec fn blade_livewire(s: Seq<u8>) -> Seq<Seq<u8>> {
    dedup(scan_quoted_spec(s, seq![lit("@livewire")]) + livewire_tags_from(s, 0))
}

/// All permissions: `@can` then `@cannot`, first occurrence kept.
pub open spec fn blade_permissions(s: Seq<u8>) -> Seq<Seq<u8>> {
    dedup(scan_quoted_spec(s, seq![lit("@can")]) + scan_quoted_spec(s, seq![lit("@cannot")]))
}

/// Parser for Blade template files.
pub struct BladeParser;

impl BladeParser {
    pub fn new() -> (r: Self) {
        BladeParser
    }

    /// Extract the included views, first occurrence kept.
    pub fn extract_includes(&self, s: &Vec<u8>) -> (out: Vec<Vec<u8>>)
        ensures
            views(out@) == blade_includes(s@),
    {
        let t1 = vec![litv("@include")];
        proof {
            assert(views(t1@) =~= seq![lit("@include")]);
        }
        let a1 = scan_quoted(s, &t1);
        let t2 = vec![litv("@includeIf")];
        proof {
            assert(views(t2@) =~= seq![lit("@includeIf")]);
        }
        let a2 = scan_quoted(s, &t2);
        let t3 = vec![litv("@includeWhen")];
        proof {
            assert(views(t3@) =~= seq![lit("@includeWhen")]);
        }
        let a3 = scan_second_quoted(s, &t3);
        let t4 = vec![litv("@includeFirst")];
        proof {
            assert(views(t4@) =~= seq![lit("@includeFirst")]);
        }
        let entries = scan_arg(s, &t4, false);
        let ghost ev = argviews(entries@);
        let mut a4: Vec<Vec<u8>> = Vec::new();
        let mut k: usize = 0;
        while k < entries.len()
            invariant
                0 <= k <= entries@.len(),
                ev == argviews(entries@),
                views(a4@) == list_items_pre(ev, k as int),
            decreases entries@.len() - k,
        {
            proof {
                assert(ev[k as int] == (entries@[k as int].0, entries@[k as int].1@));
            }
            if entries[k].0 {
                let items = crate::text::split_list_x(&entries[k].1);
                let ghost base = views(a4@);
                let ghost itemsv = views(items@);
                let mut j: usize = 0;
                while j < items.len()
                    invariant
                        0 <= j <= items@.len(),
                        itemsv == views(items@),
                        views(a4@) == base + itemsv.take(j as int),
                    decreases items@.len() - j,
                {
                    let x = slice_of(&items[j], 0, items[j].len());
                    let ghost pre = a4@;
                    a4.push(x);
                    proof {
                        crate::text::lemma_views_push(pre, x);
                        assert(x@ =~= itemsv[j as int]);
                        assert(views(a4@) =~= base + itemsv.take(j + 1));
                    }
                    j = j + 1;
                }
                proof {
                    assert(itemsv.take(items@.len() as int) =~= itemsv);
                    assert(views(a4@) =~= list_items_pre(ev, k + 1));
                }
            } else {
                proof {
                    assert(list_items_pre(ev, k as int) =~= list_items_pre(ev, k + 1));
                }
            }
            k = k + 1;
        }
        let t5 = vec![litv("@each")];
        proof {
            assert(views(t5@) =~= seq![lit("@each")]);
        }
        let a5 = scan_quoted(s, &t5);
        let d1 = crate::controller::dedup_concat(&a1, &a2);
        let mut out: Vec<Vec<u8>> = d1;
        push_unique_all(&mut out, &a3, Ghost(views(a1@) + views(a2@)));
        push_unique_all(&mut out, &a4, Ghost(views(a1@) + views(a2@) + views(a3@)));
        push_unique_all(
            &mut out,
            &a5,
            Ghost(views(a1@) + views(a2@) + views(a3@) + views(a4@)),
        );
        proof {
            assert(views(a1@) + views(a2@) + views(a3@) =~= (views(a1@) + views(a2@)) + views(
                a3@,
            ));
            assert(views(out@) =~= blade_includes(s@));
        }
        out
    }

    /// Extract the component uses: class components, `<x-*>` tags with
    /// hyphens dotted, dynamic components.
    pub fn extract_components(&self, s: &Vec<u8>) -> (out: Vec<ComponentFact>)
        ensures
            component_models(out@) == blade_components(s@),
    {
        let mut out: Vec<ComponentFact> = Vec::new();
        let t1 = vec![litv("@component")];
        proof {
            assert(views(t1@) =~= seq![lit("@component")]);
        }
        let class_caps = scan_quoted(s, &t1);
        let ghost c1 = scan_quoted_spec(s@, seq![lit("@component")]).map_values(
            |n: Seq<u8>| (n, lit("class")),
        );
        let mut k: usize = 0;
        while k < class_caps.len()
            invariant
                0 <= k <= class_caps@.len(),
                views(class_caps@) == scan_quoted_spec(s@, seq![lit("@component")]),
                c1 == scan_quoted_spec(s@, seq![lit("@component")]).map_values(
                    |n: Seq<u8>| (n, lit("class")),
                ),
                component_models(out@) == c1.take(k as int),
            decreases class_caps@.len() - k,
        {
            let name = slice_of(&class_caps[k], 0, class_caps[k].len());
            let cf = ComponentFact { name, kind: litv("class") };
            let ghost pre = out@;
            out.push(cf);
            proof {
                lemma_component_models_push(pre, cf);
                assert(cf.name@ =~= views(class_caps@)[k as int]);
                assert(crate::facts::component_model(cf) =~= c1[k as int]);
                assert(component_models(out@) =~= c1.take(k + 1));
            }
            k = k + 1;
        }
        proof {
            assert(c1.take(class_caps@.len() as int) =~= c1);
        }
        let xtags = scan_xtags(s);
        let ghost c2 = xtags_from(s@, 0).map_values(
            |n: Seq<u8>| (replace_all(n, lit("-"), lit(".")), lit("anonymous")),
        );
        let hyphen = litv("-");
        let dot = litv(".");
        let mut m: usize = 0;
        while m < xtags.len()
            invariant
                0 <= m <= xtags@.len(),
                views(xtags@) == xtags_from(s@, 0),
                hyphen@ == lit("-"),
                dot@ == lit("."),
                c2 == xtags_from(s@, 0).map_values(
                    |n: Seq<u8>| (replace_all(n, lit("-"), lit(".")), lit("anonymous")),
                ),
                component_models(out@) == c1 + c2.take(m as int),
            decreases xtags@.len() - m,
        {
            let name = replace_all_x(&xtags[m], &hyphen, &dot);
            let cf = ComponentFact { name, kind: litv("anonymous") };
            let ghost pre = out@;
            out.push(cf);
            proof {
                lemma_component_models_push(pre, cf);
                assert(cf.name@ =~= replace_all(views(xtags@)[m as int], lit("-"), lit(".")));
                assert(crate::facts::component_model(cf) =~= c2[m as int]);
                assert(component_models(out@) =~= c1 + c2.take(m + 1));
            }
            m = m + 1;
        }
        proof {
            assert(c2.take(xtags@.len() as int) =~= c2);
        }
        let dynamics = scan_dynamics(s);
        let ghost c3 = dynamics_from(s@, 0).map_values(|n: Seq<u8>| (n, lit("dynamic")));
        let mut d: usize = 0;
        while d < dynamics.len()
            invariant
                0 <= d <= dynamics@.len(),
                views(dynamics@) == dynamics_from(s@, 0),
                c3 == dynamics_from(s@, 0).map_values(|n: Seq<u8>| (n, lit("dynamic"))),
                component_models(out@) == c1 + c2 + c3.take(d as int),
            decreases dynamics@.len() - d,
        {
            let name = slice_of(&dynamics[d], 0, dynamics[d].len());
            let cf = ComponentFact { name, kind: litv("dynamic") };
            let ghost pre = out@;
            out.push(cf);
            proof {
                lemma_component_models_push(pre, cf);
                assert(cf.name@ =~= views(dynamics@)[d as int]);
                assert(crate::facts::component_model(cf) =~= c3[d as int]);
                assert(component_models(out@) =~= c1 + c2 + c3.take(d + 1));
            }
            d = d + 1;
        }
        proof {
            assert(c3.take(dynamics@.len() as int) =~= c3);
            assert(component_models(out@) =~= blade_components(s@));
        }
        out
    }

    /// The fact set of one template.
    #[verifier::rlimit(100)]
    #[verifier::spinoff_prover]
    fn build_facts(&self, file: &SourceFile, content: &Vec<u8>) -> (f: BladeFacts)
        ensures
            f.view_name@ == view_name_spec(file.path@),
            f.is_layout == (scan_quoted_spec(content@, seq![lit("@yield")]).len() > 0),
            f.is_component == (contains_seq(file.path@, lit("/components/")) || has_props(
                content@,
            )),
            opt_view(f.extends_view) == blade_extends(content@),
            views(f.sections@) == scan_quoted_spec(content@, seq![lit("@section")]),
            views(f.yields@) == scan_quoted_spec(content@, seq![lit("@yield")]),
            views(f.includes@) == blade_includes(content@),
            component_models(f.components@) == blade_components(content@),
            views(f.slots@) == blade_slots(content@),
            views(f.stacks@) == scan_quoted_spec(content@, seq![lit("@stack")]),
            views(f.pushes@) == blade_pushes(content@),
            views(f.props@) == blade_props(content@),
            views(f.livewire_components@) == blade_livewire(content@),
            views(f.permissions@) == blade_permissions(content@),
            views(f.error_fields@) == scan_quoted_spec(content@, seq![lit("@error")]),
            count_views(f.directive_counts@) == directive_counts_spec(content@),
    {
        let view_name = view_name_of(&file.path);
        let yield_toks = vec![litv("@yield")];
        proof {
            assert(views(yield_toks@) =~= seq![lit("@yield")]);
        }
        let yields = scan_quoted(content, &yield_toks);
        let is_layout = yields.len() > 0;
        let components_dir = litv("/components/");
        let props_toks = vec![litv("@props")];
        proof {
            assert(views(props_toks@) =~= seq![lit("@props")]);
        }
        let props_entries = scan_arg(content, &props_toks, false);
        let ghost pev = argviews(props_entries@);
        let mut has_props_list = false;
        let mut pk: usize = 0;
        while pk < props_entries.len() && !has_props_list
            invariant
                0 <= pk <= props_entries@.len(),
                pev == argviews(props_entries@),
                pev == scan_arg_spec(content@, seq![lit("@props")], false),
                !has_props_list ==> has_list_entry(pev, 0) == has_list_entry(pev, pk as int),
                has_props_list ==> has_list_entry(pev, 0),
            decreases props_entries@.len() - pk,
        {
            proof {
                assert(pev[pk as int] == (props_entries@[pk as int].0, props_entries@[pk as int].1@));
            }
            if props_entries[pk].0 {
                has_props_list = true;
                proof {
                    assert(has_list_entry(pev, pk as int));
                }
            }
            pk = pk + 1;
        }
        proof {
            if !has_props_list {
                assert(!has_list_entry(pev, props_entries@.len() as int));
            }
        }
        let is_component = contains_sub(&file.path, &components_dir) || has_props_list;
        let extends_toks = vec![litv("@extends")];
        proof {
            assert(views(extends_toks@) =~= seq![lit("@extends")]);
        }
        let extends_caps = scan_quoted(content, &extends_toks);
        let mut extends_view: Option<Vec<u8>> = None;
        if extends_caps.len() > 0 {
            let e = slice_of(&extends_caps[0], 0, extends_caps[0].len());
            proof {
                assert(e@ =~= views(extends_caps@)[0]);
            }
            extends_view = Some(e);
        }
        let includes = self.extract_includes(content);
        let section_toks = vec![litv("@section")];
        proof {
            assert(views(section_toks@) =~= seq![lit("@section")]);
        }
        let sections = scan_quoted(content, &section_toks);
        let components = self.extract_components(content);
        let slot_toks = vec![litv("@slot")];
        proof {
            assert(views(slot_toks@) =~= seq![lit("@slot")]);
        }
        let slot_caps = scan_quoted(content, &slot_toks);
        let xslot_caps = scan_xslots(content);
        let slots = crate::controller::dedup_concat(&slot_caps, &xslot_caps);
        let stack_toks = vec![litv("@stack")];
        proof {
            assert(views(stack_toks@) =~= seq![lit("@stack")]);
        }
        let stacks = scan_quoted(content, &stack_toks);
        let push_toks = vec![litv("@push")];
        proof {
            assert(views(push_toks@) =~= seq![lit("@push")]);
        }
        let push_caps = scan_quoted(content, &push_toks);
        let prepend_toks = vec![litv("@prepend")];
        proof {
            assert(views(prepend_toks@) =~= seq![lit("@prepend")]);
        }
        let prepend_caps = scan_quoted(content, &prepend_toks);
        let pushes = crate::controller::dedup_concat(&push_caps, &prepend_caps);
        let props = self.extract_props(content);
        let livewire_toks = vec![litv("@livewire")];
        proof {
            assert(views(livewire_toks@) =~= seq![lit("@livewire")]);
        }
        let livewire_caps = scan_quoted(content, &livewire_toks);
        let livewire_tags = scan_livewire_tags(content);
        let livewire_components = crate::controller::dedup_concat(&livewire_caps, &livewire_tags);
        let can_toks = vec![litv("@can")];
        proof {
            assert(views(can_toks@) =~= seq![lit("@can")]);
        }
        let can_caps = scan_quoted(content, &can_toks);
        let cannot_toks = vec![litv("@cannot")];
        proof {
            assert(views(cannot_toks@) =~= seq![lit("@cannot")]);
        }
        let cannot_caps = scan_quoted(content, &cannot_toks);
        let permissions = crate::controller::dedup_concat(&can_caps, &cannot_caps);
        let error_toks = vec![litv("@error")];
        proof {
            assert(views(error_toks@) =~= seq![lit("@error")]);
        }
        let error_fields = scan_quoted(content, &error_toks);
        let directive_counts = count_directives(content);
        BladeFacts {
            view_name,
            is_layout,
            is_component,
            extends_view,
            sections,
            yields,
            includes,
            components,
            slots,
            stacks,
            pushes,
            props,
            livewire_components,
            permissions,
            error_fields,
            directive_counts,
        }
    }

    /// Parse a Blade template: the view name from the path, the layout and
    /// component flags, the inheritance and inclusion facts (also recorded
    /// as `view:`-qualified dependencies), components, slots, stacks,
    /// props, Livewire components, permissions, error fields, directive
    /// counts, and the view symbol.
    pub fn parse(&self, file: &SourceFile, content: &Vec<u8>) -> (r: ParsedFile)
        ensures
            sf_model(r.source) == sf_model(*file),
            dep_models(r.dependencies@) == blade_deps(content@),
            r.symbols@.len() == 1,
            sym_models(r.symbols@)[0].name == view_name_spec(file.path@),
            sym_models(r.symbols@)[0].qualified_name == lit("view:") + view_name_spec(file.path@),
            sym_models(r.symbols@)[0].symbol_type == SymbolType::Unit,
            (match r.facts {
                FileFacts::Blade(f) => {
                    &&& f.view_name@ == view_name_spec(file.path@)
                    &&& f.is_layout == (scan_quoted_spec(content@, seq![lit("@yield")]).len() > 0)
                    &&& f.is_component == (contains_seq(file.path@, lit("/components/"))
                        || has_props(content@))
                    &&& opt_view(f.extends_view) == blade_extends(content@)
                    &&& views(f.sections@) == scan_quoted_spec(content@, seq![lit("@section")])
                    &&& views(f.yields@) == scan_quoted_spec(content@, seq![lit("@yield")])
                    &&& views(f.includes@) == blade_includes(content@)
                    &&& component_models(f.components@) == blade_components(content@)
                    &&& views(f.slots@) == blade_slots(content@)
                    &&& views(f.stacks@) == scan_quoted_spec(content@, seq![lit("@stack")])
                    &&& views(f.pushes@) == blade_pushes(content@)
                    &&& views(f.props@) == blade_props(content@)
                    &&& views(f.livewire_components@) == blade_livewire(content@)
                    &&& views(f.permissions@) == blade_permissions(content@)
                    &&& views(f.error_fields@) == scan_quoted_spec(content@, seq![lit("@error")])
                    &&& count_views(f.directive_counts@) == directive_counts_spec(content@)
                },
                _ => false,
            }),
            r.warnings@.len() == 0,
    {
        let mut parsed = ParsedFile::new(file.duplicate());
        let facts = self.build_facts(file, content);
        let view_prefix = litv("view:");
        match &facts.extends_view {
            Option::Some(e) => {
                let target = concat(&view_prefix, e);
                let dep = Dependency {
                    target,
                    alias: None,
                    line_number: None,
                    is_interface: false,
                    is_implementation: false,
                };
                let ghost pre = parsed.dependencies@;
                parsed.add_dependency(dep);
                proof {
                    lemma_dep_models_push(pre, dep);
                }
            },
            Option::None => {
            },
        }
        let ghost inc_deps = blade_includes(content@).map_values(
            |n: Seq<u8>|
                DepModel {
                    target: lit("view:") + n,
                    alias: Option::None,
                    line_number: Option::None,
                    is_interface: false,
                    is_implementation: false,
                },
        );
        let ghost dep_base = dep_models(parsed.dependencies@);
        let mut ik: usize = 0;
        while ik < facts.includes.len()
            invariant
                0 <= ik <= facts.includes@.len(),
                views(facts.includes@) == blade_includes(content@),
                view_prefix@ == lit("view:"),
                inc_deps == blade_includes(content@).map_values(
                    |n: Seq<u8>|
                        DepModel {
                            target: lit("view:") + n,
                            alias: Option::None,
                            line_number: Option::None,
                            is_interface: false,
                            is_implementation: false,
                        },
                ),
                dep_models(parsed.dependencies@) == dep_base + inc_deps.take(ik as int),
                parsed.symbols@.len() == 0,
                parsed.facts is Bare,
                parsed.warnings@.len() == 0,
                sf_model(parsed.source) == sf_model(*file),
            decreases facts.includes@.len() - ik,
        {
            let n = slice_of(&facts.includes[ik], 0, facts.includes[ik].len());
            proof {
                assert(n@ =~= views(facts.includes@)[ik as int]);
            }
            let target = concat(&view_prefix, &n);
            let dep = Dependency {
                target,
                alias: None,
                line_number: None,
                is_interface: false,
                is_implementation: false,
            };
            let ghost pre = parsed.dependencies@;
            parsed.add_dependency(dep);
            proof {
                lemma_dep_models_push(pre, dep);
                assert(crate::facts::dep_model(dep) =~= inc_deps[ik as int]);
                assert(dep_models(parsed.dependencies@) =~= dep_base + inc_deps.take(ik + 1));
            }
            ik = ik + 1;
        }
        proof {
            assert(inc_deps.take(facts.includes@.len() as int) =~= inc_deps);
            assert(dep_models(parsed.dependencies@) =~= blade_deps(content@));
        }
        let view_name = slice_of(&facts.view_name, 0, facts.view_name.len());
        let qualified = concat(&view_prefix, &facts.view_name);
        parsed.facts = FileFacts::Blade(facts);
        let sym = Symbol {
            name: view_name,
            qualified_name: qualified,
            symbol_type: SymbolType::Unit,
            visibility: Some(litv("public")),
            is_abstract: None,
            is_static: None,
            extends: None,
            implements: None,
            line_start: None,
            line_end: None,
        };
        let ghost pre = parsed.symbols@;
        parsed.add_symbol(sym);
        proof {
            lemma_sym_models_push(pre, sym);
            assert(sym.name@ =~= view_name_spec(file.path@));
        }
        parsed
    }

    /// Extract the component props, first occurrence kept.
    pub fn extract_props(&self, s: &Vec<u8>) -> (out: Vec<Vec<u8>>)
        ensures
            views(out@) == blade_props(s@),
    {
        let props_toks = vec![litv("@props")];
        proof {
            assert(views(props_toks@) =~= seq![lit("@props")]);
        }
        let entries = scan_arg(s, &props_toks, false);
        let ghost ev = argviews(entries@);
        let mut out: Vec<Vec<u8>> = Vec::new();
        let mut k: usize = 0;
        while k < entries.len()
            invariant
                0 <= k <= entries@.len(),
                ev == argviews(entries@),
                ev == scan_arg_spec(s@, seq![lit("@props")], false),
                views(out@) == dedup(props_items_pre(ev, k as int)),
            decreases entries@.len() - k,
        {
            proof {
                assert(ev[k as int] == (entries@[k as int].0, entries@[k as int].1@));
            }
            if entries[k].0 {
                let idents = quoted_idents_x(&entries[k].1);
                let ghost itemsv = views(idents@);
                let mut j: usize = 0;
                while j < idents.len()
                    invariant
                        0 <= j <= idents@.len(),
                        itemsv == views(idents@),
                        0 <= k < entries@.len(),
                        ev == argviews(entries@),
                        ev == scan_arg_spec(s@, seq![lit("@props")], false),
                        itemsv == quoted_idents_from(ev[k as int].1, 0),
                        ev[k as int].0,
                        views(out@) == dedup(
                            props_items_pre(ev, k as int) + itemsv.take(j as int),
                        ),
                    decreases idents@.len() - j,
                {
                    let x = slice_of(&idents[j], 0, idents[j].len());
                    proof {
                        assert(x@ =~= itemsv[j as int]);
                        let acc = props_items_pre(ev, k as int) + itemsv.take(j as int);
                        assert((acc.push(x@)).drop_last() =~= acc);
                        assert(acc.push(x@) =~= props_items_pre(ev, k as int) + itemsv.take(j + 1));
                    }
                    push_unique(&mut out, x);
                    j = j + 1;
                }
                proof {
                    assert(itemsv.take(idents@.len() as int) =~= itemsv);
                    assert(props_items_pre(ev, k as int) + itemsv =~= props_items_pre(ev, k + 1));
                }
            } else {
                proof {
                    assert(props_items_pre(ev, k as int) =~= props_items_pre(ev, k + 1));
                }
            }
            k = k + 1;
        }
        proof {
            assert(views(out@) =~= blade_props(s@));
        }
        out
    }
}

/// Append each entry of `more` that is not already present, keeping the
/// running result equal to the deduplication of `base` extended by the
/// consumed prefix.
fn push_unique_all(out: &mut Vec<Vec<u8>>, more: &Vec<Vec<u8>>, base: Ghost<Seq<Seq<u8>>>)
    requires
        views(old(out)@) == dedup(base@),
    ensures
        views(final(out)@) == dedup(base@ + views(more@)),
{
    let mut j: usize = 0;
    while j < more.len()
        invariant
            0 <= j <= more@.len(),
            views(out@) == dedup(base@ + views(more@).take(j as int)),
        decreases more@.len() - j,
    {
        let x = slice_of(&more[j], 0, more[j].len());
        proof {
            assert(x@ =~= views(more@)[j as int]);
            let acc = base@ + views(more@).take(j as int);
            assert((acc.push(x@)).drop_last() =~= acc);
            assert(acc.push(x@) =~= base@ + views(more@).take(j + 1));
        }
        push_unique(out, x);
        j = j + 1;
    }
    proof {
        assert(views(more@).take(more@.len() as int) =~= views(more@));
    }
}

} // verus!
