//! Eloquent model extraction: mass-assignment and visibility arrays,
//! relationship methods with related-model resolution, query scopes,
//! accessors and mutators in both styles, attribute casts, used traits,
//! table and key overrides, and the model's methods.

use vstd::prelude::*;
use crate::facts::FileFacts;
use crate::facts::ModelFacts;
use crate::facts::ParsedFile;
use crate::facts::RelationFact;
use crate::facts::RelationModel;
use crate::facts::Symbol;
use crate::facts::SymbolModel;
use crate::facts::SymbolType;
use crate::facts::dep_models;
use crate::facts::lemma_relation_models_push;
use crate::facts::lemma_sym_models_push;
use crate::facts::opt_view;
use crate::facts::pair_views;
use crate::facts::lemma_pair_views_push;
use crate::facts::relation_model;
use crate::facts::relation_models;
use crate::facts::sym_models;
use crate::controller::first_class;
use crate::php::PhpParser;
use crate::php::class_line;
use crate::php::class_line_spec;
use crate::php::function_line;
use crate::php::function_line_spec;
use crate::php::php_namespace;
use crate::php::php_use_deps;
use crate::php::qualify;
use crate::php::qualify_x;
use crate::php::use_list_line;
use crate::php::use_list_line_spec;
use crate::source_file::SourceFile;
use crate::source_file::sf_model;
use crate::text::dollar_array;
use crate::text::dollar_array_spec;
use crate::text::dollar_bool;
use crate::text::dollar_bool_spec;
use crate::text::dollar_str;
use crate::text::dollar_str_spec;
use crate::text::dedup;
use crate::text::find_byte;
use crate::text::find_byte_x;
use crate::text::ident_bs_end;
use crate::text::ident_bs_end_x;
use crate::text::ident_end;
use crate::text::ident_end_x;
use crate::text::is_quote;
use crate::text::is_space;
use crate::text::is_upper;
use crate::text::lit;
use crate::text::litv;
use crate::text::lower_byte;
use crate::text::match_at;
use crate::text::matches_at;
use crate::text::push_unique;
use crate::text::quote;
use crate::text::quoted_at;
use crate::text::quoted_at_x;
use crate::text::skip_ws;
use crate::text::skip_ws_x;
use crate::text::slice_of;
use crate::text::space;
use crate::text::split_lines;
use crate::text::split_lines_x;
use crate::text::split_list;
use crate::text::split_list_x;
use crate::text::starts_with;
use crate::text::starts_with_x;
use crate::text::trim_ws;
use crate::text::trim_ws_x;
use crate::text::upper;
use crate::text::views;

verus! {

// ---------------------------------------------------------------------------
// The model class and its methods
// ---------------------------------------------------------------------------

/// The model class symbol from the first class declaration, with its parent
/// and split implements list.
pub open spec fn model_class_syms(s: Seq<u8>) -> Seq<SymbolModel> {
    let ls = split_lines(s);
    match first_class(ls, 0) {
        Option::Some(c) => seq![
            SymbolModel {
                name: c.0,
                qualified_name: qualify(php_namespace(s), c.0),
                symbol_type: SymbolType::Class,
                visibility: Option::Some(lit("public")),
                is_abstract: Option::None,
                is_static: Option::None,
                extends: c.2,
                implements: match c.3 {
                    Option::Some(raw) => Option::Some(split_list(raw)),
                    Option::None => Option::None,
                },
                line_start: Option::None,
                line_end: Option::None,
            },
        ],
        Option::None => Seq::empty(),
    }
}

/// Method symbols: visible, non-magic methods with a closed parameter list,
/// static recorded.
pub open spec fn model_method_syms(ls: Seq<Seq<u8>>, i: int) -> Seq<SymbolModel>
    decreases ls.len() - i,
{
    if i < 0 || i >= ls.len() {
        Seq::empty()
    } else {
        let rest = model_method_syms(ls, i + 1);
        match function_line_spec(ls[i]) {
            Option::Some(f) => {
                if f.0 is Some && f.3 && !starts_with(f.2, lit("__")) {
                    seq![
                        SymbolModel {
                            name: f.2,
                            qualified_name: f.2,
                            symbol_type: SymbolType::Method,
                            visibility: f.0,
                            is_abstract: Option::None,
                            is_static: Option::Some(f.1),
                            extends: Option::None,
                            implements: Option::None,
                            line_start: Option::None,
                            line_end: Option::None,
                        },
                    ] + rest
                } else {
                    rest
                }
            },
            Option::None => rest,
        }
    }
}

pub open spec fn model_symbols(s: Seq<u8>) -> Seq<SymbolModel> {
    model_class_syms(s) + model_method_syms(split_lines(s), 0)
}

// ---------------------------------------------------------------------------
// Relationships
// ---------------------------------------------------------------------------

/// A public method block at `i`: `public function <name>(<params>)
/// [: <type>] { <body> }`, with the body running to the first `}`.
pub open spec fn try_method_block(s: Seq<u8>, i: int) -> Option<(Seq<u8>, int, int, int)> {
    if matches_at(s, lit("public"), i) && i + 6 < s.len() && is_space(s[i + 6]) {
        let j = skip_ws(s, i + 6);
        if matches_at(s, lit("function"), j) && j + 8 < s.len() && is_space(s[j + 8]) {
            let k = skip_ws(s, j + 8);
            let e = ident_end(s, k);
            if e > k {
                let t = skip_ws(s, e);
                if t < s.len() && s[t] == 40 {
                    let close = find_byte(s, 41, t + 1);
                    if 0 <= close && close < s.len() {
                        let u = skip_ws(s, close + 1);
                        let v = if u < s.len() && s[u] == 58 {
                            let w = skip_ws(s, u + 1);
                            let we = ident_bs_end(s, w);
                            if we > w {
                                skip_ws(s, we)
                            } else {
                                u
                            }
                        } else {
                            u
                        };
                        if v < s.len() && s[v] == 123 {
                            let b = find_byte(s, 125, v + 1);
                            if 0 <= b && b < s.len() && b > v + 1 {
                                Option::Some((s.subrange(k, e), v + 1, b, b + 1))
                            } else {
                                Option::None
                            }
                        } else {
                            Option::None
                        }
                    } else {
                        Option::None
                    }
                } else {
                    Option::None
                }
            } else {
                Option::None
            }
        } else {
            Option::None
        }
    } else {
        Option::None
    }
}

/// The relationship kind after `$this->`, when it is one of the Eloquent
/// relation builders.
pub open spec fn is_rel_word(w: Seq<u8>) -> bool {
    w == lit("hasOne") || w == lit("hasMany") || w == lit("belongsTo") || w == lit("belongsToMany")
        || w == lit("hasManyThrough") || w == lit("hasOneThrough") || w == lit("morphOne") || w
        == lit("morphMany") || w == lit("morphTo") || w == lit("morphToMany") || w == lit(
        "morphedByMany",
    )
}

/// `$this-><relword>(<args>)` at `i`, within the body.
pub open spec fn try_rel_call(s: Seq<u8>, i: int) -> Option<(Seq<u8>, Seq<u8>, int)> {
    match crate::text::toks_end(s, seq![lit("$this"), lit("->")], 0, i) {
        Option::None => Option::None,
        Option::Some(e0) => {
            let w = skip_ws(s, e0);
            let we = ident_end(s, w);
            if we > w && is_rel_word(s.subrange(w, we)) {
                let t = skip_ws(s, we);
                if t < s.len() && s[t] == 40 {
                    let c = find_byte(s, 41, t + 1);
                    if c < s.len() && c > t + 1 {
                        Option::Some((s.subrange(w, we), s.subrange(t + 1, c), c + 1))
                    } else {
                        Option::None
                    }
                } else {
                    Option::None
                }
            } else {
                Option::None
            }
        },
    }
}

/// The related model named in relation arguments: the first `X::class`
/// (upper-started identifier) or quoted string.
pub open spec fn related_model_of(args: Seq<u8>, i: int) -> Option<Seq<u8>>
    decreases args.len() - i,
{
    if i < 0 || i >= args.len() {
        Option::None
    } else if is_upper(args[i]) && matches_at(args, lit("::class"), ident_end(args, i + 1)) {
        Option::Some(args.subrange(i, ident_end(args, i + 1)))
    } else if is_quote(args[i]) && {
        let c = crate::text::find_two(args, 34, 39, i + 1);
        c < args.len() && c > i + 1
    } {
        Option::Some(args.subrange(i + 1, crate::text::find_two(args, 34, 39, i + 1)))
    } else {
        related_model_of(args, i + 1)
    }
}

/// The relationships inside one method body.
pub open spec fn rels_in_body(s: Seq<u8>, method: Seq<u8>, bstart: int, bend: int, i: int) -> Seq<
    RelationModel,
>
    decreases bend - i,
{
    if i < bstart || i >= bend || bend > s.len() || i < 0 {
        Seq::empty()
    } else {
        match try_rel_call(s, i) {
            Option::Some(r) => {
                if r.2 <= bend {
                    let nxt = if r.2 <= i {
                        i + 1
                    } else {
                        r.2
                    };
                    seq![
                        RelationModel {
                            method: method,
                            rel_type: r.0,
                            related_model: related_model_of(r.1, 0),
                            raw_args: trim_ws(r.1),
                        },
                    ] + rels_in_body(s, method, bstart, bend, nxt)
                } else {
                    rels_in_body(s, method, bstart, bend, i + 1)
                }
            },
            Option::None => rels_in_body(s, method, bstart, bend, i + 1),
        }
    }
}

/// All relationships: for each public method block, the relation calls in
/// its body.
pub open spec fn rels_from(s: Seq<u8>, i: int) -> Seq<RelationModel>
    decreases s.len() - i,
{
    if i < 0 || i >= s.len() {
        Seq::empty()
    } else {
        match try_method_block(s, i) {
            Option::Some(m) => {
                let nxt = if m.3 <= i {
                    i + 1
                } else if m.3 > s.len() {
                    s.len() as int
                } else {
                    m.3
                };
                rels_in_body(s, m.0, m.1, m.2, m.1) + rels_from(s, nxt)
            },
            Option::None => rels_from(s, i + 1),
        }
    }
}

pub open spec fn rels_spec(s: Seq<u8>) -> Seq<RelationModel> {
    rels_from(s, 0)
}

fn try_method_block_x(s: &Vec<u8>, i: usize) -> (r: Option<(Vec<u8>, usize, usize, usize)>)
    requires
        i <= s.len(),
    ensures
        match r {
            Option::Some(m) => try_method_block(s@, i as int) == Option::Some(
                (m.0@, m.1 as int, m.2 as int, m.3 as int),
            ) && i < m.3 <= s.len() && m.1 <= m.2 <= s.len(),
            Option::None => try_method_block(s@, i as int) is None,
        },
{
    let public_kw = litv("public");
    if !(match_at(s, &public_kw, i) && s.len() - i > 6 && space(s[i + 6])) {
        return None;
    }
    let j = skip_ws_x(s, i + 6);
    let function_kw = litv("function");
    if !(match_at(s, &function_kw, j) && s.len() - j > 8 && space(s[j + 8])) {
        return None;
    }
    let k = skip_ws_x(s, j + 8);
    let e = ident_end_x(s, k);
    if e <= k {
        return None;
    }
    let t = skip_ws_x(s, e);
    if !(t < s.len() && s[t] == 40) {
        return None;
    }
    let close = find_byte_x(s, 41, t + 1);
    if close >= s.len() {
        return None;
    }
    let u = skip_ws_x(s, close + 1);
    let v = if u < s.len() && s[u] == 58 {
        let w = skip_ws_x(s, u + 1);
        let we = ident_bs_end_x(s, w);
        if we > w {
            skip_ws_x(s, we)
        } else {
            u
        }
    } else {
        u
    };
    if !(v < s.len() && s[v] == 123) {
        return None;
    }
    let b = find_byte_x(s, 125, v + 1);
    if b < s.len() && b > v + 1 {
        Some((slice_of(s, k, e), v + 1, b, b + 1))
    } else {
        None
    }
}

fn try_rel_call_x(s: &Vec<u8>, i: usize) -> (r: Option<(Vec<u8>, Vec<u8>, usize)>)
    requires
        i <= s.len(),
    ensures
        match r {
            Option::Some(p) => try_rel_call(s@, i as int) == Option::Some(
                (p.0@, p.1@, p.2 as int),
            ) && i < p.2 <= s.len(),
            Option::None => try_rel_call(s@, i as int) is None,
        },
{
    let toks = vec![litv("$this"), litv("->")];
    proof {
        assert(views(toks@) =~= seq![lit("$this"), lit("->")]);
    }
    let e0 = match crate::text::toks_end_x(s, &toks, i) {
        Option::Some(e) => e,
        Option::None => {
            return None;
        },
    };
    let w = skip_ws_x(s, e0);
    let we = ident_end_x(s, w);
    if we <= w {
        return None;
    }
    let word = slice_of(s, w, we);
    let has_one_w = litv("hasOne");
    let has_many_w = litv("hasMany");
    let belongs_to_w = litv("belongsTo");
    let belongs_to_many_w = litv("belongsToMany");
    let has_many_through_w = litv("hasManyThrough");
    let has_one_through_w = litv("hasOneThrough");
    let morph_one_w = litv("morphOne");
    let morph_many_w = litv("morphMany");
    let morph_to_w = litv("morphTo");
    let morph_to_many_w = litv("morphToMany");
    let morphed_by_many_w = litv("morphedByMany");
    let is_word = crate::text::bytes_eq(&word, &has_one_w) || crate::text::bytes_eq(
        &word,
        &has_many_w,
    ) || crate::text::bytes_eq(&word, &belongs_to_w) || crate::text::bytes_eq(
        &word,
        &belongs_to_many_w,
    ) || crate::text::bytes_eq(&word, &has_many_through_w) || crate::text::bytes_eq(
        &word,
        &has_one_through_w,
    ) || crate::text::bytes_eq(&word, &morph_one_w) || crate::text::bytes_eq(&word, &morph_many_w)
        || crate::text::bytes_eq(&word, &morph_to_w) || crate::text::bytes_eq(
        &word,
        &morph_to_many_w,
    ) || crate::text::bytes_eq(&word, &morphed_by_many_w);
    if !is_word {
        return None;
    }
    let t = skip_ws_x(s, we);
    if !(t < s.len() && s[t] == 40) {
        return None;
    }
    let c = find_byte_x(s, 41, t + 1);
    if c < s.len() && c > t + 1 {
        Some((word, slice_of(s, t + 1, c), c + 1))
    } else {
        None
    }
}

fn related_model_x(args: &Vec<u8>) -> (r: Option<Vec<u8>>)
    ensures
        crate::text::opt_view_txt(r) == related_model_of(args@, 0),
{
    let class_kw = litv("::class");
    let mut i: usize = 0;
    while i < args.len()
        invariant
            0 <= i <= args.len(),
            class_kw@ == lit("::class"),
            related_model_of(args@, 0) == related_model_of(args@, i as int),
        decreases args.len() - i,
    {
        if upper(args[i]) {
            let e = ident_end_x(args, i + 1);
            if match_at(args, &class_kw, e) {
                proof {
                    assert(related_model_of(args@, i as int) == Option::Some(
                        args@.subrange(i as int, ident_end(args@, i as int + 1)),
                    ));
                }
                return Some(slice_of(args, i, e));
            }
        }
        if quote(args[i]) {
            let c = find_two_wrap(args, i + 1);
            if c < args.len() && c > i + 1 {
                proof {
                    assert(related_model_of(args@, i as int) == Option::Some(
                        args@.subrange(i as int + 1, crate::text::find_two(args@, 34, 39, i as int + 1)),
                    ));
                }
                return Some(slice_of(args, i + 1, c));
            }
        }
        proof {
            assert(related_model_of(args@, i as int) == related_model_of(args@, i + 1));
        }
        i = i + 1;
    }
    None
}

fn find_two_wrap(s: &Vec<u8>, i: usize) -> (r: usize)
    requires
        i <= s.len(),
    ensures
        r == crate::text::find_two(s@, 34, 39, i as int),
        i <= r <= s.len(),
{
    crate::text::find_two_x(s, 34, 39, i)
}

/// Extract every relationship fact.
pub fn extract_relationships(s: &Vec<u8>) -> (out: Vec<RelationFact>)
    ensures
        relation_models(out@) == rels_spec(s@),
{
    let mut out: Vec<RelationFact> = Vec::new();
    let mut i: usize = 0;
    while i < s.len()
        invariant
            0 <= i <= s.len(),
            relation_models(out@) + rels_from(s@, i as int) == rels_spec(s@),
        decreases s.len() - i,
    {
        match try_method_block_x(s, i) {
            Option::Some((method, bstart, bend, resume)) => {
                let ghost mname = method@;
                let mut j: usize = bstart;
                while j < bend
                    invariant
                        bstart <= j,
                        j <= bend,
                        bend <= s.len(),
                        mname == method@,
                        0 <= i < s.len(),
                        try_method_block(s@, i as int) == Option::Some(
                            (mname, bstart as int, bend as int, resume as int),
                        ),
                        i < resume <= s.len(),
                        relation_models(out@) + rels_in_body(
                            s@,
                            mname,
                            bstart as int,
                            bend as int,
                            j as int,
                        ) + rels_from(s@, resume as int) == rels_spec(s@),
                    decreases bend - j,
                {
                    match try_rel_call_x(s, j) {
                        Option::Some((rel_type, args, end)) => {
                            if end <= bend {
                                let related_model = related_model_x(&args);
                                let raw_args = trim_ws_x(&args);
                                let rf = RelationFact {
                                    method: slice_of(&method, 0, method.len()),
                                    rel_type,
                                    related_model,
                                    raw_args,
                                };
                                let ghost pre = out@;
                                out.push(rf);
                                proof {
                                    lemma_relation_models_push(pre, rf);
                                    assert(rf.method@ =~= mname);
                                    assert(relation_model(rf) =~= rels_in_body(
                                        s@,
                                        mname,
                                        bstart as int,
                                        bend as int,
                                        j as int,
                                    )[0]);
                                    assert(relation_models(out@) + rels_in_body(
                                        s@,
                                        mname,
                                        bstart as int,
                                        bend as int,
                                        end as int,
                                    ) + rels_from(s@, resume as int) =~= rels_spec(s@));
                                }
                                j = end;
                            } else {
                                proof {
                                    assert(rels_in_body(
                                        s@,
                                        mname,
                                        bstart as int,
                                        bend as int,
                                        j as int,
                                    ) == rels_in_body(
                                        s@,
                                        mname,
                                        bstart as int,
                                        bend as int,
                                        j + 1,
                                    ));
                                }
                                j = j + 1;
                            }
                        },
                        Option::None => {
                            proof {
                                assert(rels_in_body(
                                    s@,
                                    mname,
                                    bstart as int,
                                    bend as int,
                                    j as int,
                                ) == rels_in_body(s@, mname, bstart as int, bend as int, j + 1));
                            }
                            j = j + 1;
                        },
                    }
                }
                proof {
                    assert(rels_in_body(s@, mname, bstart as int, bend as int, bend as int)
                        =~= Seq::<RelationModel>::empty());
                    assert(relation_models(out@) + rels_from(s@, resume as int) =~= rels_spec(s@));
                }
                i = resume;
            },
            Option::None => {
                proof {
                    assert(rels_from(s@, i as int) == rels_from(s@, i + 1));
                }
                i = i + 1;
            },
        }
    }
    proof {
        assert(rels_from(s@, s@.len() as int) =~= Seq::<RelationModel>::empty());
        assert(relation_models(out@) =~= rels_spec(s@));
    }
    out
}

} // verus!

verus! {

// ---------------------------------------------------------------------------
// Scopes, accessors, mutators
// ---------------------------------------------------------------------------

/// PascalCase to snake_case: an underscore before each interior upper-case
/// letter, all letters lowered.
pub open spec fn snake(s: Seq<u8>, i: int) -> Seq<u8>
    decreases s.len() - i,
{
    if i < 0 || i >= s.len() {
        Seq::empty()
    } else {
        (if is_upper(s[i]) && i > 0 {
            seq![95u8, lower_byte(s[i])]
        } else {
            seq![lower_byte(s[i])]
        }) + snake(s, i + 1)
    }
}

pub fn snake_case(s: &Vec<u8>) -> (r: Vec<u8>)
    ensures
        r@ == snake(s@, 0),
{
    let mut out: Vec<u8> = Vec::new();
    let mut i: usize = 0;
    while i < s.len()
        invariant
            0 <= i <= s.len(),
            out@ + snake(s@, i as int) == snake(s@, 0),
        decreases s.len() - i,
    {
        if upper(s[i]) && i > 0 {
            out.push(95);
            out.push(crate::text::lower_byte_x(s[i]));
            proof {
                assert(out@ + snake(s@, i + 1) =~= snake(s@, 0));
            }
        } else {
            out.push(crate::text::lower_byte_x(s[i]));
            proof {
                assert(out@ + snake(s@, i + 1) =~= snake(s@, 0));
            }
        }
        i = i + 1;
    }
    proof {
        assert(snake(s@, s@.len() as int) =~= Seq::<u8>::empty());
        assert(out@ =~= snake(s@, 0));
    }
    out
}

/// Query scopes: `public function scopeX(` headings, the captured name
/// without the `scope` prefix.
pub open spec fn scopes_spec(ls: Seq<Seq<u8>>, i: int) -> Seq<Seq<u8>>
    decreases ls.len() - i,
{
    if i < 0 || i >= ls.len() {
        Seq::empty()
    } else {
        let rest = scopes_spec(ls, i + 1);
        match function_line_spec(ls[i]) {
            Option::Some(f) => {
                if f.0 == Option::Some(lit("public")) && !f.1 && starts_with(f.2, lit("scope"))
                    && f.2.len() > 5 && is_upper(f.2[5]) {
                    seq![f.2.subrange(5, f.2.len() as int)] + rest
                } else {
                    rest
                }
            },
            Option::None => rest,
        }
    }
}

/// Legacy accessors: `public function getXAttribute(` headings, the
/// attribute name snake-cased.
pub open spec fn legacy_accessors(ls: Seq<Seq<u8>>, i: int) -> Seq<Seq<u8>>
    decreases ls.len() - i,
{
    if i < 0 || i >= ls.len() {
        Seq::empty()
    } else {
        let rest = legacy_accessors(ls, i + 1);
        match function_line_spec(ls[i]) {
            Option::Some(f) => {
                if f.0 == Option::Some(lit("public")) && !f.1 && starts_with(f.2, lit("get"))
                    && crate::text::ends_with(f.2, lit("Attribute")) && f.2.len() > 12 && is_upper(
                    f.2[3],
                ) {
                    seq![snake(f.2.subrange(3, f.2.len() - 9), 0)] + rest
                } else {
                    rest
                }
            },
            Option::None => rest,
        }
    }
}

/// Legacy mutators: `public function setXAttribute(` headings.
pub open spec fn legacy_mutators(ls: Seq<Seq<u8>>, i: int) -> Seq<Seq<u8>>
    decreases ls.len() - i,
{
    if i < 0 || i >= ls.len() {
        Seq::empty()
    } else {
        let rest = legacy_mutators(ls, i + 1);
        match function_line_spec(ls[i]) {
            Option::Some(f) => {
                if f.0 == Option::Some(lit("public")) && !f.1 && starts_with(f.2, lit("set"))
                    && crate::text::ends_with(f.2, lit("Attribute")) && f.2.len() > 12 && is_upper(
                    f.2[3],
                ) {
                    seq![snake(f.2.subrange(3, f.2.len() - 9), 0)] + rest
                } else {
                    rest
                }
            },
            Option::None => rest,
        }
    }
}

/// Modern accessors: `protected function <name>(): Attribute` declarations.
pub open spec fn try_attr_fn(s: Seq<u8>, i: int) -> Option<Seq<u8>> {
    if matches_at(s, lit("protected"), i) && i + 9 < s.len() && is_space(s[i + 9]) {
        let j = skip_ws(s, i + 9);
        if matches_at(s, lit("function"), j) && j + 8 < s.len() && is_space(s[j + 8]) {
            let k = skip_ws(s, j + 8);
            let e = ident_end(s, k);
            if e > k {
                let t = skip_ws(s, e);
                if t < s.len() && s[t] == 40 {
                    let u = skip_ws(s, t + 1);
                    if u < s.len() && s[u] == 41 {
                        let v = skip_ws(s, u + 1);
                        if v < s.len() && s[v] == 58 {
                            let w = skip_ws(s, v + 1);
                            if matches_at(s, lit("Attribute"), w) {
                                Option::Some(s.subrange(k, e))
                            } else {
                                Option::None
                            }
                        } else {
                            Option::None
                        }
                    } else {
                        Option::None
                    }
                } else {
                    Option::None
                }
            } else {
                Option::None
            }
        } else {
            Option::None
        }
    } else {
        Option::None
    }
}

pub open spec fn attr_fns_from(s: Seq<u8>, i: int) -> Seq<Seq<u8>>
    decreases s.len() - i,
{
    if i < 0 || i >= s.len() {
        Seq::empty()
    } else {
        let rest = attr_fns_from(s, i + 1);
        match try_attr_fn(s, i) {
            Option::Some(n) => seq![n] + rest,
            Option::None => rest,
        }
    }
}

/// Fold the modern accessor names into the legacy list, keeping first
/// occurrences only for the appended part.
pub open spec fn fold_unique(base: Seq<Seq<u8>>, more: Seq<Seq<u8>>, k: int) -> Seq<Seq<u8>>
    decreases k,
{
    if k <= 0 || k > more.len() {
        base
    } else {
        let p = fold_unique(base, more, k - 1);
        if p.contains(more[k - 1]) {
            p
        } else {
            p.push(more[k - 1])
        }
    }
}

/// All accessors: legacy `getXAttribute` names snake-cased, then modern
/// `Attribute`-returning method names not already present.
pub open spec fn accessors_spec(s: Seq<u8>) -> Seq<Seq<u8>> {
    let legacy = legacy_accessors(split_lines(s), 0);
    let modern = attr_fns_from(s, 0);
    fold_unique(legacy, modern, modern.len() as int)
}

fn try_attr_fn_x(s: &Vec<u8>, i: usize) -> (r: Option<Vec<u8>>)
    requires
        i <= s.len(),
    ensures
        match r {
            Option::Some(v) => try_attr_fn(s@, i as int) == Option::Some(v@),
            Option::None => try_attr_fn(s@, i as int) is None,
        },
{
    let protected_kw = litv("protected");
    if !(match_at(s, &protected_kw, i) && s.len() - i > 9 && space(s[i + 9])) {
        return None;
    }
    let j = skip_ws_x(s, i + 9);
    let function_kw = litv("function");
    if !(match_at(s, &function_kw, j) && s.len() - j > 8 && space(s[j + 8])) {
        return None;
    }
    let k = skip_ws_x(s, j + 8);
    let e = ident_end_x(s, k);
    if e <= k {
        return None;
    }
    let t = skip_ws_x(s, e);
    if !(t < s.len() && s[t] == 40) {
        return None;
    }
    let u = skip_ws_x(s, t + 1);
    if !(u < s.len() && s[u] == 41) {
        return None;
    }
    let v = skip_ws_x(s, u + 1);
    if !(v < s.len() && s[v] == 58) {
        return None;
    }
    let w = skip_ws_x(s, v + 1);
    let attribute_kw = litv("Attribute");
    if !match_at(s, &attribute_kw, w) {
        return None;
    }
    Some(slice_of(s, k, e))
}

/// Extract accessors in both styles.
pub fn extract_accessors(s: &Vec<u8>) -> (out: Vec<Vec<u8>>)
    ensures
        views(out@) == accessors_spec(s@),
{
    let mut out: Vec<Vec<u8>> = Vec::new();
    let lines = split_lines_x(s);
    let ghost lsv = split_lines(s@);
    let get_kw = litv("get");
    let attribute_kw = litv("Attribute");
    let public_kw = litv("public");
    let mut k: usize = 0;
    while k < lines.len()
        invariant
            0 <= k <= lines@.len(),
            views(lines@) == lsv,
            lsv == split_lines(s@),
            get_kw@ == lit("get"),
            attribute_kw@ == lit("Attribute"),
            public_kw@ == lit("public"),
            views(out@) + legacy_accessors(lsv, k as int) == legacy_accessors(lsv, 0),
        decreases lines@.len() - k,
    {
        proof {
            assert(views(lines@)[k as int] == lines@[k as int]@);
        }
        match function_line(&lines[k]) {
            Option::Some(f) => {
                let vis_public = match &f.visibility {
                    Option::Some(v) => crate::text::bytes_eq(v, &public_kw),
                    Option::None => false,
                };
                proof {
                    match f.visibility {
                        Option::Some(v) => {
                            if v@ == lit("public") {
                                assert(opt_view(f.visibility) == Option::Some(lit("public")));
                            }
                        },
                        Option::None => {
                        },
                    }
                }
                if vis_public && !f.is_static && starts_with_x(&f.name, &get_kw)
                    && crate::text::ends_with_x(&f.name, &attribute_kw) && f.name.len() > 12
                    && upper(f.name[3]) {
                    let stem = slice_of(&f.name, 3, f.name.len() - 9);
                    let snaked = snake_case(&stem);
                    let ghost pre = out@;
                    out.push(snaked);
                    proof {
                        crate::text::lemma_views_push(pre, snaked);
                        assert(stem@ =~= f.name@.subrange(3, f.name@.len() - 9));
                        assert(views(out@) + legacy_accessors(lsv, k + 1) =~= legacy_accessors(
                            lsv,
                            0,
                        ));
                    }
                } else {
                    proof {
                        assert(legacy_accessors(lsv, k as int) == legacy_accessors(lsv, k + 1));
                    }
                }
            },
            Option::None => {
                proof {
                    assert(legacy_accessors(lsv, k as int) == legacy_accessors(lsv, k + 1));
                }
            },
        }
        k = k + 1;
    }
    proof {
        assert(legacy_accessors(lsv, lines@.len() as int) =~= Seq::<Seq<u8>>::empty());
        assert(views(out@) =~= legacy_accessors(lsv, 0));
    }
    let ghost legacy = legacy_accessors(lsv, 0);
    let ghost modern = attr_fns_from(s@, 0);
    let mut i: usize = 0;
    while i < s.len()
        invariant
            0 <= i <= s.len(),
            legacy == legacy_accessors(split_lines(s@), 0),
            modern == attr_fns_from(s@, 0),
            crate::routes::ctrl_suffix_ok(modern, attr_fns_from(s@, i as int)),
            views(out@) == fold_unique(
                legacy,
                modern,
                modern.len() - attr_fns_from(s@, i as int).len(),
            ),
        decreases s.len() - i,
    {
        match try_attr_fn_x(s, i) {
            Option::Some(name) => {
                proof {
                    assert(attr_fns_from(s@, i as int) =~= seq![name@] + attr_fns_from(s@, i + 1));
                    crate::routes::lemma_seqminus_step_pub(modern, attr_fns_from(s@, i + 1), name@);
                    assert(modern[modern.len() - attr_fns_from(s@, i as int).len()] == name@);
                }
                push_unique(&mut out, name);
            },
            Option::None => {
                proof {
                    assert(attr_fns_from(s@, i as int) == attr_fns_from(s@, i + 1));
                }
            },
        }
        i = i + 1;
    }
    proof {
        assert(attr_fns_from(s@, s@.len() as int) =~= Seq::<Seq<u8>>::empty());
        assert(views(out@) =~= accessors_spec(s@));
    }
    out
}

} // verus!

verus! {

// ---------------------------------------------------------------------------
// Mutators, casts, traits, overrides, and the parser
// ---------------------------------------------------------------------------

/// Extract legacy mutators.
pub fn extract_mutators(s: &Vec<u8>) -> (out: Vec<Vec<u8>>)
    ensures
        views(out@) == legacy_mutators(split_lines(s@), 0),
{
    let mut out: Vec<Vec<u8>> = Vec::new();
    let lines = split_lines_x(s);
    let ghost lsv = split_lines(s@);
    let set_kw = litv("set");
    let attribute_kw = litv("Attribute");
    let public_kw = litv("public");
    let mut k: usize = 0;
    while k < lines.len()
        invariant
            0 <= k <= lines@.len(),
            views(lines@) == lsv,
            lsv == split_lines(s@),
            set_kw@ == lit("set"),
            attribute_kw@ == lit("Attribute"),
            public_kw@ == lit("public"),
            views(out@) + legacy_mutators(lsv, k as int) == legacy_mutators(lsv, 0),
        decreases lines@.len() - k,
    {
        proof {
            assert(views(lines@)[k as int] == lines@[k as int]@);
        }
        match function_line(&lines[k]) {
            Option::Some(f) => {
                let vis_public = match &f.visibility {
                    Option::Some(v) => crate::text::bytes_eq(v, &public_kw),
                    Option::None => false,
                };
                proof {
                    match f.visibility {
                        Option::Some(v) => {
                            if v@ == lit("public") {
                                assert(opt_view(f.visibility) == Option::Some(lit("public")));
                            }
                        },
                        Option::None => {
                        },
                    }
                }
                if vis_public && !f.is_static && starts_with_x(&f.name, &set_kw)
                    && crate::text::ends_with_x(&f.name, &attribute_kw) && f.name.len() > 12
                    && upper(f.name[3]) {
                    let stem = slice_of(&f.name, 3, f.name.len() - 9);
                    let snaked = snake_case(&stem);
                    let ghost pre = out@;
                    out.push(snaked);
                    proof {
                        crate::text::lemma_views_push(pre, snaked);
                        assert(stem@ =~= f.name@.subrange(3, f.name@.len() - 9));
                        assert(views(out@) + legacy_mutators(lsv, k + 1) =~= legacy_mutators(
                            lsv,
                            0,
                        ));
                    }
                } else {
                    proof {
                        assert(legacy_mutators(lsv, k as int) == legacy_mutators(lsv, k + 1));
                    }
                }
            },
            Option::None => {
                proof {
                    assert(legacy_mutators(lsv, k as int) == legacy_mutators(lsv, k + 1));
                }
            },
        }
        k = k + 1;
    }
    proof {
        assert(legacy_mutators(lsv, lines@.len() as int) =~= Seq::<Seq<u8>>::empty());
        assert(views(out@) =~= legacy_mutators(lsv, 0));
    }
    out
}

/// Extract scopes.
pub fn extract_scopes(s: &Vec<u8>) -> (out: Vec<Vec<u8>>)
    ensures
        views(out@) == scopes_spec(split_lines(s@), 0),
{
    let mut out: Vec<Vec<u8>> = Vec::new();
    let lines = split_lines_x(s);
    let ghost lsv = split_lines(s@);
    let scope_kw = litv("scope");
    let public_kw = litv("public");
    let mut k: usize = 0;
    while k < lines.len()
        invariant
            0 <= k <= lines@.len(),
            views(lines@) == lsv,
            lsv == split_lines(s@),
            scope_kw@ == lit("scope"),
            public_kw@ == lit("public"),
            views(out@) + scopes_spec(lsv, k as int) == scopes_spec(lsv, 0),
        decreases lines@.len() - k,
    {
        proof {
            assert(views(lines@)[k as int] == lines@[k as int]@);
        }
        match function_line(&lines[k]) {
            Option::Some(f) => {
                let vis_public = match &f.visibility {
                    Option::Some(v) => crate::text::bytes_eq(v, &public_kw),
                    Option::None => false,
                };
                proof {
                    match f.visibility {
                        Option::Some(v) => {
                            if v@ == lit("public") {
                                assert(opt_view(f.visibility) == Option::Some(lit("public")));
                            }
                        },
                        Option::None => {
                        },
                    }
                }
                if vis_public && !f.is_static && starts_with_x(&f.name, &scope_kw) && f.name.len()
                    > 5 && upper(f.name[5]) {
                    let tail = slice_of(&f.name, 5, f.name.len());
                    let ghost pre = out@;
                    out.push(tail);
                    proof {
                        crate::text::lemma_views_push(pre, tail);
                        assert(tail@ =~= f.name@.subrange(5, f.name@.len() as int));
                        assert(views(out@) + scopes_spec(lsv, k + 1) =~= scopes_spec(lsv, 0));
                    }
                } else {
                    proof {
                        assert(scopes_spec(lsv, k as int) == scopes_spec(lsv, k + 1));
                    }
                }
            },
            Option::None => {
                proof {
                    assert(scopes_spec(lsv, k as int) == scopes_spec(lsv, k + 1));
                }
            },
        }
        k = k + 1;
    }
    proof {
        assert(scopes_spec(lsv, lines@.len() as int) =~= Seq::<Seq<u8>>::empty());
        assert(views(out@) =~= scopes_spec(lsv, 0));
    }
    out
}

/// `'key' => 'value'` pairs inside a cast array capture.
pub open spec fn try_cast_pair(raw: Seq<u8>, i: int) -> Option<(Seq<u8>, Seq<u8>, int)> {
    if 0 <= i && i < raw.len() && is_quote(raw[i]) {
        let e = ident_end(raw, i + 1);
        if e > i + 1 && e < raw.len() && is_quote(raw[e]) {
            let t = skip_ws(raw, e + 1);
            if t + 2 <= raw.len() && raw[t] == 61 && raw[t + 1] == 62 {
                let q = skip_ws(raw, t + 2);
                match quoted_at(raw, false, q) {
                    Option::Some(p) => Option::Some((raw.subrange(i + 1, e), p.0, p.1)),
                    Option::None => Option::None,
                }
            } else {
                Option::None
            }
        } else {
            Option::None
        }
    } else {
        Option::None
    }
}

pub open spec fn cast_pairs_from(raw: Seq<u8>, i: int) -> Seq<(Seq<u8>, Seq<u8>)>
    decreases raw.len() - i,
{
    if i < 0 || i >= raw.len() {
        Seq::empty()
    } else {
        match try_cast_pair(raw, i) {
            Option::Some(p) => {
                let nxt = if p.2 <= i {
                    i + 1
                } else if p.2 > raw.len() {
                    raw.len() as int
                } else {
                    p.2
                };
                seq![(p.0, p.1)] + cast_pairs_from(raw, nxt)
            },
            Option::None => cast_pairs_from(raw, i + 1),
        }
    }
}

/// The model's attribute casts: the pairs of the first `$casts = [...]`
/// array, when one exists.
pub open spec fn casts_spec(s: Seq<u8>) -> Seq<(Seq<u8>, Seq<u8>)> {
    match crate::text::first_dollar_array(s, lit("casts"), 0) {
        Option::Some(raw) => cast_pairs_from(raw, 0),
        Option::None => Seq::empty(),
    }
}

fn try_cast_pair_x(raw: &Vec<u8>, i: usize) -> (r: Option<(Vec<u8>, Vec<u8>, usize)>)
    requires
        i <= raw.len(),
    ensures
        match r {
            Option::Some(p) => try_cast_pair(raw@, i as int) == Option::Some(
                (p.0@, p.1@, p.2 as int),
            ) && i < p.2 <= raw.len(),
            Option::None => try_cast_pair(raw@, i as int) is None,
        },
{
    if !(i < raw.len() && quote(raw[i])) {
        return None;
    }
    let e = ident_end_x(raw, i + 1);
    if !(e > i + 1 && e < raw.len() && quote(raw[e])) {
        return None;
    }
    let t = skip_ws_x(raw, e + 1);
    if !(raw.len() >= 2 && t <= raw.len() - 2 && raw[t] == 61 && raw[t + 1] == 62) {
        proof {
            assert(!(t + 2 <= raw@.len() && raw@[t as int] == 61 && raw@[t as int + 1] == 62));
        }
        return None;
    }
    let q = skip_ws_x(raw, t + 2);
    match quoted_at_x(raw, false, q) {
        Option::Some((v, end)) => Some((slice_of(raw, i + 1, e), v, end)),
        Option::None => None,
    }
}

/// Extract the `$casts` pairs.
pub fn extract_casts(s: &Vec<u8>) -> (out: Vec<(Vec<u8>, Vec<u8>)>)
    ensures
        pair_views(out@) == casts_spec(s@),
{
    let casts_kw = litv("casts");
    let mut out: Vec<(Vec<u8>, Vec<u8>)> = Vec::new();
    let mut raw_opt: Option<Vec<u8>> = None;
    let mut i: usize = 0;
    while i < s.len()
        invariant
            0 <= i <= s.len(),
            casts_kw@ == lit("casts"),
            raw_opt is None,
            out@.len() == 0,
            crate::text::first_dollar_array(s@, lit("casts"), 0) == crate::text::first_dollar_array(
                s@,
                lit("casts"),
                i as int,
            ),
        decreases s.len() - i,
    {
        if i < s.len() && s[i] == 36 && match_at(s, &casts_kw, i + 1) {
            let e = i + 1 + casts_kw.len();
            let t = skip_ws_x(s, e);
            if t < s.len() && s[t] == 61 {
                let q = skip_ws_x(s, t + 1);
                if q < s.len() && s[q] == 91 {
                    let c = find_byte_x(s, 93, q + 1);
                    if c < s.len() {
                        let raw = slice_of(s, q + 1, c);
                        proof {
                            assert(crate::text::try_dollar_array(s@, lit("casts"), i as int)
                                == Option::Some(raw@));
                        }
                        proof {
                            assert(pair_views(out@) =~= Seq::<(Seq<u8>, Seq<u8>)>::empty());
                        }
                        let mut j: usize = 0;
                        while j < raw.len()
                            invariant
                                0 <= j <= raw.len(),
                                crate::text::first_dollar_array(s@, lit("casts"), 0)
                                    == Option::Some(raw@),
                                pair_views(out@) + cast_pairs_from(raw@, j as int)
                                    == cast_pairs_from(raw@, 0),
                            decreases raw.len() - j,
                        {
                            match try_cast_pair_x(&raw, j) {
                                Option::Some((key, val, end)) => {
                                    let ghost pre = out@;
                                    out.push((key, val));
                                    proof {
                                        lemma_pair_views_push(pre, (key, val));
                                        assert(pair_views(out@) + cast_pairs_from(
                                            raw@,
                                            end as int,
                                        ) =~= cast_pairs_from(raw@, 0));
                                    }
                                    j = end;
                                },
                                Option::None => {
                                    proof {
                                        assert(cast_pairs_from(raw@, j as int) == cast_pairs_from(
                                            raw@,
                                            j + 1,
                                        ));
                                    }
                                    j = j + 1;
                                },
                            }
                        }
                        proof {
                            assert(cast_pairs_from(raw@, raw@.len() as int) =~= Seq::<
                                (Seq<u8>, Seq<u8>),
                            >::empty());
                            assert(pair_views(out@) =~= casts_spec(s@));
                        }
                        return out;
                    }
                }
            }
        }
        proof {
            assert(crate::text::try_dollar_array(s@, lit("casts"), i as int) is None);
        }
        i = i + 1;
    }
    proof {
        assert(crate::text::first_dollar_array(s@, lit("casts"), s@.len() as int) is None);
        assert(pair_views(out@) =~= Seq::<(Seq<u8>, Seq<u8>)>::empty());
        assert(pair_views(out@) =~= casts_spec(s@));
    }
    out
}

/// The short name after the last backslash.
pub open spec fn short_name(x: Seq<u8>) -> Seq<u8> {
    let p = crate::source_file::rfind_byte(x, 92);
    x.subrange(p + 1, x.len() as int)
}

/// The trait names used inside the class body: items of `use A, B;` lines
/// after `class ... {`, not starting with a backslash, shortened to their
/// last segment, first occurrence kept.
pub open spec fn model_line_traits(l: Seq<u8>) -> Seq<Seq<u8>> {
    match use_list_line_spec(l) {
        Option::Some(items) => filt_model_traits(items, items.len() as int),
        Option::None => Seq::empty(),
    }
}

pub open spec fn filt_model_traits(items: Seq<Seq<u8>>, j: int) -> Seq<Seq<u8>>
    decreases j,
{
    if j <= 0 || j > items.len() {
        Seq::empty()
    } else {
        filt_model_traits(items, j - 1) + (if !(items[j - 1].len() > 0 && items[j - 1][0] == 92) {
            seq![short_name(items[j - 1])]
        } else {
            Seq::<Seq<u8>>::empty()
        })
    }
}

pub open spec fn model_titems_pre(ls: Seq<Seq<u8>>, k: int) -> Seq<Seq<u8>>
    decreases k,
{
    if k <= 0 || k > ls.len() {
        Seq::empty()
    } else {
        model_titems_pre(ls, k - 1) + model_line_traits(ls[k - 1])
    }
}

/// The model's used traits: from the class body after `class ` and its
/// opening brace.
pub open spec fn model_traits_spec(s: Seq<u8>) -> Seq<Seq<u8>> {
    let cpos = crate::text::find_sub(s, lit("class "), 0);
    if cpos >= s.len() || cpos < 0 {
        Seq::empty()
    } else {
        let b = find_byte(s, 123, cpos);
        if b >= s.len() || b < 0 {
            Seq::empty()
        } else {
            let ls = split_lines(s.subrange(b, s.len() as int));
            dedup(model_titems_pre(ls, ls.len() as int))
        }
    }
}

/// Extract the used traits.
pub fn extract_traits_used(s: &Vec<u8>) -> (out: Vec<Vec<u8>>)
    ensures
        views(out@) == model_traits_spec(s@),
{
    let mut out: Vec<Vec<u8>> = Vec::new();
    let class_kw = litv("class ");
    let cpos = crate::text::find_sub_x(s, &class_kw, 0);
    if cpos >= s.len() {
        proof {
            assert(views(out@) =~= model_traits_spec(s@));
        }
        return out;
    }
    let b = find_byte_x(s, 123, cpos);
    if b >= s.len() {
        proof {
            assert(views(out@) =~= model_traits_spec(s@));
        }
        return out;
    }
    let suffix = slice_of(s, b, s.len());
    let lines = split_lines_x(&suffix);
    let ghost lsv = split_lines(suffix@);
    let mut k: usize = 0;
    while k < lines.len()
        invariant
            0 <= k <= lines@.len(),
            views(lines@) == lsv,
            lsv == split_lines(suffix@),
            views(out@) == dedup(model_titems_pre(lsv, k as int)),
        decreases lines@.len() - k,
    {
        proof {
            assert(views(lines@)[k as int] == lines@[k as int]@);
        }
        match use_list_line(&lines[k]) {
            Option::Some(items) => {
                let ghost itemsv = views(items@);
                let mut j: usize = 0;
                while j < items.len()
                    invariant
                        0 <= j <= items@.len(),
                        views(items@) == itemsv,
                        0 <= k < lines@.len(),
                        views(lines@) == lsv,
                        model_line_traits(lsv[k as int]) == filt_model_traits(
                            itemsv,
                            itemsv.len() as int,
                        ),
                        views(out@) == dedup(
                            model_titems_pre(lsv, k as int) + filt_model_traits(itemsv, j as int),
                        ),
                    decreases items@.len() - j,
                {
                    proof {
                        assert(views(items@)[j as int] == items@[j as int]@);
                    }
                    let x = &items[j];
                    if !(x.len() > 0 && x[0] == 92) {
                        let sn = match crate::source_file::rfind_byte_x(x, 92) {
                            Option::Some(p) => slice_of(x, p + 1, x.len()),
                            Option::None => slice_of(x, 0, x.len()),
                        };
                        let ghost acc = model_titems_pre(lsv, k as int) + filt_model_traits(
                            itemsv,
                            j as int,
                        );
                        proof {
                            assert(sn@ =~= short_name(itemsv[j as int]));
                            assert((acc.push(sn@)).drop_last() =~= acc);
                            assert(acc.push(sn@) =~= model_titems_pre(lsv, k as int)
                                + filt_model_traits(itemsv, j + 1));
                        }
                        push_unique(&mut out, sn);
                    } else {
                        proof {
                            assert(filt_model_traits(itemsv, j + 1) =~= filt_model_traits(
                                itemsv,
                                j as int,
                            ));
                        }
                    }
                    j = j + 1;
                }
                proof {
                    assert(model_titems_pre(lsv, k + 1) =~= model_titems_pre(lsv, k as int)
                        + filt_model_traits(itemsv, itemsv.len() as int));
                }
            },
            Option::None => {
                proof {
                    assert(model_line_traits(lsv[k as int]) =~= Seq::<Seq<u8>>::empty());
                    assert(model_titems_pre(lsv, k + 1) =~= model_titems_pre(lsv, k as int));
                }
            },
        }
        k = k + 1;
    }
    proof {
        assert(suffix@ == s@.subrange(b as int, s@.len() as int));
        assert(views(out@) == model_traits_spec(s@));
    }
    out
}

/// Parser for Eloquent models.
pub struct ModelParser;

impl ModelParser {
    pub fn new() -> (r: Self) {
        ModelParser
    }

    /// Record the first class declaration as the model class symbol.
    fn extract_model_class(&self, content: &Vec<u8>, ns: &Option<Vec<u8>>, parsed: &mut ParsedFile)
        requires
            opt_view(*ns) == php_namespace(content@),
        ensures
            sym_models(final(parsed).symbols@) == sym_models(old(parsed).symbols@)
                + model_class_syms(content@),
            final(parsed).dependencies == old(parsed).dependencies,
            final(parsed).source == old(parsed).source,
            final(parsed).facts == old(parsed).facts,
            final(parsed).warnings == old(parsed).warnings,
    {
        let lines = split_lines_x(content);
        let ghost lsv = split_lines(content@);
        let mut k: usize = 0;
        while k < lines.len()
            invariant
                0 <= k <= lines@.len(),
                views(lines@) == lsv,
                lsv == split_lines(content@),
                opt_view(*ns) == php_namespace(content@),
                first_class(lsv, 0) == first_class(lsv, k as int),
                *parsed == *old(parsed),
            decreases lines@.len() - k,
        {
            proof {
                assert(views(lines@)[k as int] == lines@[k as int]@);
            }
            match class_line(&lines[k], false) {
                Option::Some(c) => {
                    let qualified = qualify_x(ns, &c.name);
                    let implements = match c.implements_raw {
                        Option::Some(raw) => Some(split_list_x(&raw)),
                        Option::None => None,
                    };
                    let sym = Symbol {
                        name: c.name,
                        qualified_name: qualified,
                        symbol_type: SymbolType::Class,
                        visibility: Some(litv("public")),
                        is_abstract: None,
                        is_static: None,
                        extends: c.extends,
                        implements,
                        line_start: None,
                        line_end: None,
                    };
                    let ghost pre = parsed.symbols@;
                    parsed.add_symbol(sym);
                    proof {
                        lemma_sym_models_push(pre, sym);
                        assert(sym_models(parsed.symbols@) =~= sym_models(old(parsed).symbols@)
                            + model_class_syms(content@));
                    }
                    return ;
                },
                Option::None => {
                },
            }
            k = k + 1;
        }
        proof {
            assert(first_class(lsv, lines@.len() as int) is None);
            assert(sym_models(parsed.symbols@) =~= sym_models(old(parsed).symbols@)
                + model_class_syms(content@));
        }
    }

    /// Record the model's methods as symbols.
    fn extract_methods(&self, content: &Vec<u8>, parsed: &mut ParsedFile)
        ensures
            sym_models(final(parsed).symbols@) == sym_models(old(parsed).symbols@)
                + model_method_syms(split_lines(content@), 0),
            final(parsed).dependencies == old(parsed).dependencies,
            final(parsed).source == old(parsed).source,
            final(parsed).facts == old(parsed).facts,
            final(parsed).warnings == old(parsed).warnings,
    {
        let lines = split_lines_x(content);
        let ghost lsv = split_lines(content@);
        let mut k: usize = 0;
        while k < lines.len()
            invariant
                0 <= k <= lines@.len(),
                views(lines@) == lsv,
                lsv == split_lines(content@),
                sym_models(parsed.symbols@) + model_method_syms(lsv, k as int) == sym_models(
                    old(parsed).symbols@,
                ) + model_method_syms(lsv, 0),
                parsed.dependencies == old(parsed).dependencies,
                parsed.source == old(parsed).source,
                parsed.facts == old(parsed).facts,
                parsed.warnings == old(parsed).warnings,
            decreases lines@.len() - k,
        {
            proof {
                assert(views(lines@)[k as int] == lines@[k as int]@);
            }
            let skip_tag = litv("__");
            match function_line(&lines[k]) {
                Option::Some(f) => {
                    if f.visibility.is_some() && f.params_closed && !starts_with_x(
                        &f.name,
                        &skip_tag,
                    ) {
                        let qualified = slice_of(&f.name, 0, f.name.len());
                        proof {
                            assert(qualified@ =~= f.name@);
                        }
                        let sym = Symbol {
                            name: f.name,
                            qualified_name: qualified,
                            symbol_type: SymbolType::Method,
                            visibility: f.visibility,
                            is_abstract: None,
                            is_static: Some(f.is_static),
                            extends: None,
                            implements: None,
                            line_start: None,
                            line_end: None,
                        };
                        let ghost pre = parsed.symbols@;
                        parsed.add_symbol(sym);
                        proof {
                            lemma_sym_models_push(pre, sym);
                            assert(sym_models(parsed.symbols@) + model_method_syms(lsv, k + 1)
                                =~= sym_models(old(parsed).symbols@) + model_method_syms(lsv, 0));
                        }
                    } else {
                        proof {
                            assert(model_method_syms(lsv, k as int) == model_method_syms(
                                lsv,
                                k + 1,
                            ));
                        }
                    }
                },
                Option::None => {
                    proof {
                        assert(model_method_syms(lsv, k as int) == model_method_syms(lsv, k + 1));
                    }
                },
            }
            k = k + 1;
        }
        proof {
            assert(model_method_syms(lsv, lines@.len() as int) =~= Seq::<SymbolModel>::empty());
            assert(sym_models(parsed.symbols@) =~= sym_models(old(parsed).symbols@)
                + model_method_syms(lsv, 0));
        }
    }

    /// Parse an Eloquent model: class, imports, mass-assignment arrays,
    /// relationships, scopes, accessors, mutators, casts, traits, table and
    /// key overrides, and methods.
    pub fn parse(&self, file: &SourceFile, content: &Vec<u8>) -> (r: ParsedFile)
        ensures
            sf_model(r.source) == sf_model(*file),
            dep_models(r.dependencies@) == php_use_deps(content@),
            sym_models(r.symbols@) == model_symbols(content@),
            (match r.facts {
                FileFacts::Model(f) => {
                    &&& opt_view(f.namespace) == php_namespace(content@)
                    &&& opt_views_of(f.fillable) == dollar_array_spec(content@, lit("fillable"))
                    &&& opt_views_of(f.guarded) == dollar_array_spec(content@, lit("guarded"))
                    &&& opt_views_of(f.hidden) == dollar_array_spec(content@, lit("hidden"))
                    &&& opt_views_of(f.visible) == dollar_array_spec(content@, lit("visible"))
                    &&& opt_views_of(f.appends) == dollar_array_spec(content@, lit("appends"))
                    &&& opt_views_of(f.eager_with) == dollar_array_spec(content@, lit("with"))
                    &&& opt_views_of(f.dates) == dollar_array_spec(content@, lit("dates"))
                    &&& f.timestamps == dollar_bool_spec(content@, lit("timestamps"), 0)
                    &&& f.incrementing == dollar_bool_spec(content@, lit("incrementing"), 0)
                    &&& relation_models(f.relationships@) == rels_spec(content@)
                    &&& views(f.scopes@) == scopes_spec(split_lines(content@), 0)
                    &&& views(f.accessors@) == accessors_spec(content@)
                    &&& views(f.mutators@) == legacy_mutators(split_lines(content@), 0)
                    &&& pair_views(f.casts@) == casts_spec(content@)
                    &&& views(f.traits_used@) == model_traits_spec(content@)
                    &&& opt_view(f.table) == dollar_str_spec(content@, lit("table"), 0)
                    &&& opt_view(f.primary_key) == dollar_str_spec(content@, lit("primaryKey"), 0)
                },
                _ => false,
            }),
            r.warnings@.len() == 0,
    {
        let mut parsed = ParsedFile::new(file.duplicate());
        let helper = PhpParser::new();
        let ns = helper.extract_namespace(content);
        helper.extract_use_statements(content, &mut parsed);
        self.extract_model_class(content, &ns, &mut parsed);
        self.extract_methods(content, &mut parsed);
        let fillable_kw = litv("fillable");
        let guarded_kw = litv("guarded");
        let hidden_kw = litv("hidden");
        let visible_kw = litv("visible");
        let appends_kw = litv("appends");
        let with_kw = litv("with");
        let dates_kw = litv("dates");
        let timestamps_kw = litv("timestamps");
        let incrementing_kw = litv("incrementing");
        let table_kw = litv("table");
        let primary_key_kw = litv("primaryKey");
        let facts = ModelFacts {
            namespace: ns,
            fillable: dollar_array(content, &fillable_kw),
            guarded: dollar_array(content, &guarded_kw),
            hidden: dollar_array(content, &hidden_kw),
            visible: dollar_array(content, &visible_kw),
            appends: dollar_array(content, &appends_kw),
            eager_with: dollar_array(content, &with_kw),
            dates: dollar_array(content, &dates_kw),
            timestamps: dollar_bool(content, &timestamps_kw),
            incrementing: dollar_bool(content, &incrementing_kw),
            relationships: extract_relationships(content),
            scopes: extract_scopes(content),
            accessors: extract_accessors(content),
            mutators: extract_mutators(content),
            casts: extract_casts(content),
            traits_used: extract_traits_used(content),
            table: dollar_str(content, &table_kw),
            primary_key: dollar_str(content, &primary_key_kw),
        };
        parsed.facts = FileFacts::Model(facts);
        proof {
            assert(sym_models(parsed.symbols@) =~= model_symbols(content@));
            assert(dep_models(parsed.dependencies@) =~= php_use_deps(content@));
        }
        parsed
    }
}

/// The views of an optional list of byte vectors.
pub open spec fn opt_views_of(o: Option<Vec<Vec<u8>>>) -> Option<Seq<Seq<u8>>> {
    match o {
        Option::Some(v) => Option::Some(views(v@)),
        Option::None => Option::None,
    }
}

} // verus!
