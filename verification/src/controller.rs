//! Laravel controller extraction: the controller class, its action methods,
//! middleware registrations, resource-controller detection, and the views,
//! models and Inertia pages it references.

use vstd::prelude::*;
use crate::facts::ControllerFacts;
use crate::facts::FileFacts;
use crate::facts::ParsedFile;
use crate::facts::Symbol;
use crate::facts::SymbolModel;
use crate::facts::SymbolType;
use crate::facts::dep_models;
use crate::facts::opt_view;
use crate::facts::sym_models;
use crate::facts::lemma_sym_models_push;
use crate::php::PhpParser;
use crate::php::class_line;
use crate::php::class_line_spec;
use crate::php::function_line;
use crate::php::function_line_spec;
use crate::php::php_namespace;
use crate::php::php_use_deps;
use crate::php::qualify;
use crate::php::qualify_x;
use crate::source_file::SourceFile;
use crate::source_file::sf_model;
use crate::text::argviews;
use crate::text::contains_seq;
use crate::text::dedup;
use crate::text::find_byte;
use crate::text::find_byte_x;
use crate::text::ident_end;
use crate::text::ident_end_x;
use crate::text::is_ident;
use crate::text::is_space;
use crate::text::is_upper;
use crate::text::lit;
use crate::text::litv;
use crate::text::match_at;
use crate::text::matches_at;
use crate::text::push_unique;
use crate::text::scan_arg;
use crate::text::scan_arg_spec;
use crate::text::scan_quoted;
use crate::text::scan_quoted_spec;
use crate::text::skip_ws;
use crate::text::skip_ws_x;
use crate::text::slice_of;
use crate::text::space;
use crate::text::split_lines;
use crate::text::split_lines_x;
use crate::text::split_list;
use crate::text::split_list_x;
use crate::text::starts_with;
use crate::text::starts_with_x;
use crate::text::upper;
use crate::text::views;

verus! {

// ---------------------------------------------------------------------------
// Class and methods
// ---------------------------------------------------------------------------

/// The first plain `class` declaration among the lines (no modifier).
pub open spec fn first_class(ls: Seq<Seq<u8>>, i: int) -> Option<
    (Seq<u8>, bool, Option<Seq<u8>>, Option<Seq<u8>>),
>
    decreases ls.len() - i,
{
    if i < 0 || i >= ls.len() {
        Option::None
    } else {
        match class_line_spec(ls[i], false) {
            Option::Some(c) => Option::Some(c),
            Option::None => first_class(ls, i + 1),
        }
    }
}

/// The controller class symbol, when a class declaration exists: qualified
/// by the namespace, with its parent recorded.
pub open spec fn controller_class_syms(s: Seq<u8>) -> Seq<SymbolModel> {
    let ls = split_lines(s);
    match first_class(ls, 0) {
        Option::Some(c) => seq![
            SymbolModel {
                name: c.0,
                qualified_name: qualify(php_namespace(s), c.0),
                symbol_type: SymbolType::Class,
                visibility: Option::Some(lit("public")),
                is_abstract: Option::None,
                is_static: Option::None,
                extends: c.2,
                implements: Option::None,
                line_start: Option::None,
                line_end: Option::None,
            },
        ],
        Option::None => Seq::empty(),
    }
}

/// The action-method symbols: visible, non-static, non-magic methods with a
/// closed parameter list.
pub open spec fn controller_method_syms(ls: Seq<Seq<u8>>, i: int) -> Seq<SymbolModel>
    decreases ls.len() - i,
{
    if i < 0 || i >= ls.len() {
        Seq::empty()
    } else {
        let rest = controller_method_syms(ls, i + 1);
        match function_line_spec(ls[i]) {
            Option::Some(f) => {
                if f.0 is Some && !f.1 && f.3 && !starts_with(f.2, lit("__")) {
                    seq![
                        SymbolModel {
                            name: f.2,
                            qualified_name: f.2,
                            symbol_type: SymbolType::Method,
                            visibility: f.0,
                            is_abstract: Option::None,
                            is_static: Option::None,
                            extends: Option::None,
                            implements: Option::None,
                            line_start: Option::None,
                            line_end: Option::None,
                        },
                    ] + rest
                } else {
                    rest
                }
            },
            Option::None => rest,
        }
    }
}

pub open spec fn controller_symbols(s: Seq<u8>) -> Seq<SymbolModel> {
    controller_class_syms(s) + controller_method_syms(split_lines(s), 0)
}

// ---------------------------------------------------------------------------
// Middleware, resource detection, references
// ---------------------------------------------------------------------------

/// Middleware: all single-quoted `$this->middleware('x')` values first, then
/// all bracketed list items, first occurrence kept.
pub open spec fn ctrl_mw_singles(entries: Seq<(bool, Seq<u8>)>, k: int) -> Seq<Seq<u8>>
    decreases k,
{
    if k <= 0 || k > entries.len() {
        Seq::empty()
    } else {
        ctrl_mw_singles(entries, k - 1) + (if !entries[k - 1].0 {
            seq![entries[k - 1].1]
        } else {
            Seq::<Seq<u8>>::empty()
        })
    }
}

pub open spec fn ctrl_mw_lists(entries: Seq<(bool, Seq<u8>)>, k: int) -> Seq<Seq<u8>>
    decreases k,
{
    if k <= 0 || k > entries.len() {
        Seq::empty()
    } else {
        ctrl_mw_lists(entries, k - 1) + (if entries[k - 1].0 {
            split_list(entries[k - 1].1)
        } else {
            Seq::<Seq<u8>>::empty()
        })
    }
}

pub open spec fn ctrl_mw_spec(s: Seq<u8>) -> Seq<Seq<u8>> {
    let entries = scan_arg_spec(s, seq![lit("$this"), lit("->"), lit("middleware")], false);
    dedup(
        ctrl_mw_singles(entries, entries.len() as int) + ctrl_mw_lists(
            entries,
            entries.len() as int,
        ),
    )
}

pub fn extract_middlewares(s: &Vec<u8>) -> (out: Vec<Vec<u8>>)
    ensures
        views(out@) == ctrl_mw_spec(s@),
{
    let toks = vec![litv("$this"), litv("->"), litv("middleware")];
    proof {
        assert(views(toks@) =~= seq![lit("$this"), lit("->"), lit("middleware")]);
    }
    let entries = scan_arg(s, &toks, false);
    let ghost ev = argviews(entries@);
    let mut out: Vec<Vec<u8>> = Vec::new();
    let mut k: usize = 0;
    while k < entries.len()
        invariant
            0 <= k <= entries@.len(),
            ev == argviews(entries@),
            ev == scan_arg_spec(s@, seq![lit("$this"), lit("->"), lit("middleware")], false),
            views(out@) == dedup(ctrl_mw_singles(ev, k as int)),
        decreases entries@.len() - k,
    {
        proof {
            assert(ev[k as int] == (entries@[k as int].0, entries@[k as int].1@));
        }
        if !entries[k].0 {
            let x = slice_of(&entries[k].1, 0, entries[k].1.len());
            proof {
                assert(x@ =~= ev[k as int].1);
                let acc = ctrl_mw_singles(ev, k as int);
                assert((acc.push(x@)).drop_last() =~= acc);
                assert(acc.push(x@) =~= ctrl_mw_singles(ev, k + 1));
            }
            push_unique(&mut out, x);
        } else {
            proof {
                assert(ctrl_mw_singles(ev, k as int) =~= ctrl_mw_singles(ev, k + 1));
            }
        }
        k = k + 1;
    }
    let ghost base = ctrl_mw_singles(ev, ev.len() as int);
    let mut m: usize = 0;
    while m < entries.len()
        invariant
            0 <= m <= entries@.len(),
            ev == argviews(entries@),
            ev == scan_arg_spec(s@, seq![lit("$this"), lit("->"), lit("middleware")], false),
            base == ctrl_mw_singles(ev, ev.len() as int),
            views(out@) == dedup(base + ctrl_mw_lists(ev, m as int)),
        decreases entries@.len() - m,
    {
        proof {
            assert(ev[m as int] == (entries@[m as int].0, entries@[m as int].1@));
        }
        if entries[m].0 {
            let items = split_list_x(&entries[m].1);
            let ghost itemsv = views(items@);
            let mut j: usize = 0;
            while j < items.len()
                invariant
                    0 <= j <= items@.len(),
                    itemsv == views(items@),
                    0 <= m < entries@.len(),
                    ev == argviews(entries@),
                    ev == scan_arg_spec(
                        s@,
                        seq![lit("$this"), lit("->"), lit("middleware")],
                        false,
                    ),
                    itemsv == split_list(ev[m as int].1),
                    ev[m as int].0,
                    base == ctrl_mw_singles(ev, ev.len() as int),
                    views(out@) == dedup(base + ctrl_mw_lists(ev, m as int) + itemsv.take(j as int)),
                decreases items@.len() - j,
            {
                let x = slice_of(&items[j], 0, items[j].len());
                proof {
                    assert(x@ =~= itemsv[j as int]);
                    let acc = base + ctrl_mw_lists(ev, m as int) + itemsv.take(j as int);
                    assert((acc.push(x@)).drop_last() =~= acc);
                    assert(acc.push(x@) =~= base + ctrl_mw_lists(ev, m as int) + itemsv.take(j + 1));
                }
                push_unique(&mut out, x);
                j = j + 1;
            }
            proof {
                assert(itemsv.take(items@.len() as int) =~= itemsv);
                assert(base + ctrl_mw_lists(ev, m as int) + itemsv =~= base + ctrl_mw_lists(
                    ev,
                    m + 1,
                ));
            }
        } else {
            proof {
                assert(ctrl_mw_lists(ev, m as int) =~= ctrl_mw_lists(ev, m + 1));
            }
        }
        m = m + 1;
    }
    proof {
        assert(views(out@) =~= ctrl_mw_spec(s@));
    }
    out
}

/// A `function <name>` heading with an opening parenthesis occurs somewhere.
pub open spec fn fn_named_at(s: Seq<u8>, name: Seq<u8>, i: int) -> bool {
    matches_at(s, lit("function"), i) && i + 8 < s.len() && is_space(s[i + 8]) && matches_at(
        s,
        name,
        skip_ws(s, i + 8),
    ) && {
        let e = skip_ws(s, i + 8) + name.len();
        let t = skip_ws(s, e);
        t < s.len() && s[t] == 40
    }
}

pub open spec fn has_fn_named_from(s: Seq<u8>, name: Seq<u8>, i: int) -> bool
    decreases s.len() - i,
{
    if i < 0 || i >= s.len() {
        false
    } else if fn_named_at(s, name, i) {
        true
    } else {
        has_fn_named_from(s, name, i + 1)
    }
}

pub open spec fn has_fn_named(s: Seq<u8>, name: Seq<u8>) -> bool {
    has_fn_named_from(s, name, 0)
}

pub fn has_fn_named_x(s: &Vec<u8>, name: &Vec<u8>) -> (r: bool)
    ensures
        r == has_fn_named(s@, name@),
{
    let function_kw = litv("function");
    let mut i: usize = 0;
    while i < s.len()
        invariant
            0 <= i <= s.len(),
            function_kw@ == lit("function"),
            has_fn_named(s@, name@) == has_fn_named_from(s@, name@, i as int),
        decreases s.len() - i,
    {
        if match_at(s, &function_kw, i) && s.len() - i > 8 && space(s[i + 8]) {
            let k = skip_ws_x(s, i + 8);
            if match_at(s, name, k) {
                let e = k + name.len();
                let t = skip_ws_x(s, e);
                if t < s.len() && s[t] == 40 {
                    proof {
                        assert(fn_named_at(s@, name@, i as int));
                    }
                    return true;
                }
            }
        }
        proof {
            assert(!fn_named_at(s@, name@, i as int));
        }
        i = i + 1;
    }
    false
}

/// Resource detection: at least four of the seven conventional resource
/// action names are defined.
pub open spec fn resource_count(s: Seq<u8>) -> int {
    (if has_fn_named(s, lit("index")) {
        1int
    } else {
        0int
    }) + (if has_fn_named(s, lit("create")) {
        1int
    } else {
        0int
    }) + (if has_fn_named(s, lit("store")) {
        1int
    } else {
        0int
    }) + (if has_fn_named(s, lit("show")) {
        1int
    } else {
        0int
    }) + (if has_fn_named(s, lit("edit")) {
        1int
    } else {
        0int
    }) + (if has_fn_named(s, lit("update")) {
        1int
    } else {
        0int
    }) + (if has_fn_named(s, lit("destroy")) {
        1int
    } else {
        0int
    })
}

pub open spec fn is_resource_spec(s: Seq<u8>) -> bool {
    resource_count(s) >= 4
}

pub fn is_resource_controller(s: &Vec<u8>) -> (r: bool)
    ensures
        r == is_resource_spec(s@),
{
    let mut found: u32 = 0;
    let index_name = litv("index");
    if has_fn_named_x(s, &index_name) {
        found = found + 1;
    }
    let create_name = litv("create");
    if has_fn_named_x(s, &create_name) {
        found = found + 1;
    }
    let store_name = litv("store");
    if has_fn_named_x(s, &store_name) {
        found = found + 1;
    }
    let show_name = litv("show");
    if has_fn_named_x(s, &show_name) {
        found = found + 1;
    }
    let edit_name = litv("edit");
    if has_fn_named_x(s, &edit_name) {
        found = found + 1;
    }
    let update_name = litv("update");
    if has_fn_named_x(s, &update_name) {
        found = found + 1;
    }
    let destroy_name = litv("destroy");
    if has_fn_named_x(s, &destroy_name) {
        found = found + 1;
    }
    found >= 4
}

/// Views referenced through `view('...')` and `View::make('...')`, first
/// occurrence kept.
pub open spec fn views_ref_spec(s: Seq<u8>) -> Seq<Seq<u8>> {
    dedup(
        scan_quoted_spec(s, seq![lit("view")]) + scan_quoted_spec(s, seq![lit("View::make")]),
    )
}

pub fn extract_view_references(s: &Vec<u8>) -> (out: Vec<Vec<u8>>)
    ensures
        views(out@) == views_ref_spec(s@),
{
    let t1 = vec![litv("view")];
    proof {
        assert(views(t1@) =~= seq![lit("view")]);
    }
    let t2 = vec![litv("View::make")];
    proof {
        assert(views(t2@) =~= seq![lit("View::make")]);
    }
    let a = scan_quoted(s, &t1);
    let b = scan_quoted(s, &t2);
    dedup_concat(&a, &b)
}

/// Keep-first deduplication of the concatenation of two capture lists.
pub fn dedup_concat(a: &Vec<Vec<u8>>, b: &Vec<Vec<u8>>) -> (out: Vec<Vec<u8>>)
    ensures
        views(out@) == dedup(views(a@) + views(b@)),
{
    let mut out: Vec<Vec<u8>> = Vec::new();
    let mut k: usize = 0;
    while k < a.len()
        invariant
            0 <= k <= a@.len(),
            views(out@) == dedup(views(a@).take(k as int)),
        decreases a@.len() - k,
    {
        let x = slice_of(&a[k], 0, a[k].len());
        proof {
            assert(x@ =~= views(a@)[k as int]);
            let acc = views(a@).take(k as int);
            assert((acc.push(x@)).drop_last() =~= acc);
            assert(acc.push(x@) =~= views(a@).take(k + 1));
        }
        push_unique(&mut out, x);
        k = k + 1;
    }
    proof {
        assert(views(a@).take(a@.len() as int) =~= views(a@));
    }
    let mut m: usize = 0;
    while m < b.len()
        invariant
            0 <= m <= b@.len(),
            views(out@) == dedup(views(a@) + views(b@).take(m as int)),
        decreases b@.len() - m,
    {
        let x = slice_of(&b[m], 0, b[m].len());
        proof {
            assert(x@ =~= views(b@)[m as int]);
            let acc = views(a@) + views(b@).take(m as int);
            assert((acc.push(x@)).drop_last() =~= acc);
            assert(acc.push(x@) =~= views(a@) + views(b@).take(m + 1));
        }
        push_unique(&mut out, x);
        m = m + 1;
    }
    proof {
        assert(views(b@).take(b@.len() as int) =~= views(b@));
    }
    out
}

/// Inertia pages referenced via `Inertia::render('...')` and `inertia('...')`,
/// first occurrence kept.
pub open spec fn inertia_pages_spec(s: Seq<u8>) -> Seq<Seq<u8>> {
    dedup(
        scan_quoted_spec(s, seq![lit("Inertia::render")]) + scan_quoted_spec(
            s,
            seq![lit("inertia")],
        ),
    )
}

pub fn extract_inertia_pages(s: &Vec<u8>) -> (out: Vec<Vec<u8>>)
    ensures
        views(out@) == inertia_pages_spec(s@),
{
    let t1 = vec![litv("Inertia::render")];
    proof {
        assert(views(t1@) =~= seq![lit("Inertia::render")]);
    }
    let t2 = vec![litv("inertia")];
    proof {
        assert(views(t2@) =~= seq![lit("inertia")]);
    }
    let a = scan_quoted(s, &t1);
    let b = scan_quoted(s, &t2);
    dedup_concat(&a, &b)
}

} // verus!

verus! {

// ---------------------------------------------------------------------------
// Model references
// ---------------------------------------------------------------------------

/// First byte position at or after `i` that is not an ASCII letter.
pub open spec fn letters_end(s: Seq<u8>, i: int) -> int
    decreases s.len() - i,
{
    if 0 <= i && i < s.len() && ((65 <= s[i] && s[i] <= 90) || (97 <= s[i] && s[i] <= 122)) {
        letters_end(s, i + 1)
    } else {
        i
    }
}

pub fn letters_end_x(s: &Vec<u8>, i: usize) -> (r: usize)
    requires
        i <= s.len(),
    ensures
        r == letters_end(s@, i as int),
        i <= r <= s.len(),
{
    let mut j: usize = i;
    while j < s.len() && ((65 <= s[j] && s[j] <= 90) || (97 <= s[j] && s[j] <= 122))
        invariant
            i <= j <= s.len(),
            letters_end(s@, i as int) == letters_end(s@, j as int),
        decreases s.len() - j,
    {
        j = j + 1;
    }
    j
}

/// Start of the ASCII-letter run ending (exclusively) at `i`.
pub open spec fn letters_start(s: Seq<u8>, i: int) -> int
    decreases i,
{
    if 0 < i && i <= s.len() && ((65 <= s[i - 1] && s[i - 1] <= 90) || (97 <= s[i - 1] && s[i - 1]
        <= 122)) {
        letters_start(s, i - 1)
    } else {
        i
    }
}

pub fn letters_start_x(s: &Vec<u8>, i: usize) -> (r: usize)
    requires
        i <= s.len(),
    ensures
        r == letters_start(s@, i as int),
        r <= i,
{
    let mut j: usize = i;
    while j > 0 && ((65 <= s[j - 1] && s[j - 1] <= 90) || (97 <= s[j - 1] && s[j - 1] <= 122))
        invariant
            0 <= j <= i <= s.len(),
            letters_start(s@, i as int) == letters_start(s@, j as int),
        decreases j,
    {
        j = j - 1;
    }
    j
}

/// The builder-method word after `::` is one the extractor recognizes.
pub open spec fn is_builder_word(w: Seq<u8>) -> bool {
    w == lit("find") || w == lit("findOrFail") || w == lit("where") || w == lit("all") || w == lit(
        "create",
    ) || w == lit("firstOrCreate") || w == lit("updateOrCreate") || w == lit("query") || w == lit(
        "with",
    )
}

/// The class name is one of the non-model facade names excluded from model
/// references.
pub open spec fn is_facade(w: Seq<u8>) -> bool {
    w == lit("DB") || w == lit("Auth") || w == lit("Cache") || w == lit("Log") || w == lit("Route")
        || w == lit("View") || w == lit("Request") || w == lit("Response") || w == lit("Session")
        || w == lit("Config") || w == lit("App") || w == lit("Event")
}

/// The type-hint name is one of the common non-model parameter types.
pub open spec fn is_hint_excluded(w: Seq<u8>) -> bool {
    w == lit("Request") || w == lit("Response") || w == lit("Collection") || w == lit("Builder")
        || w == lit("Carbon") || w == lit("Closure") || w == lit("Exception")
}

/// A static builder call `Name::word(` around a `::` occurrence at `i`: the
/// capture starts at the first upper-case byte of the letter run before
/// `::`, needing at least two letters.
pub open spec fn try_static_model(s: Seq<u8>, i: int) -> Option<Seq<u8>> {
    if matches_at(s, lit("::"), i) {
        let rs = letters_start(s, i);
        match crate::routes::first_upper_in(s, rs, i - 1) {
            Option::Some(p) => {
                let e = ident_end(s, i + 2);
                if e > i + 2 && is_builder_word(s.subrange(i + 2, e)) && {
                    let t = skip_ws(s, e);
                    t < s.len() && s[t] == 40
                } {
                    Option::Some(s.subrange(p, i))
                } else {
                    Option::None
                }
            },
            Option::None => Option::None,
        }
    } else {
        Option::None
    }
}

pub open spec fn static_models_from(s: Seq<u8>, i: int) -> Seq<Seq<u8>>
    decreases s.len() - i,
{
    if i < 0 || i >= s.len() {
        Seq::empty()
    } else {
        let rest = static_models_from(s, i + 1);
        match try_static_model(s, i) {
            Option::Some(name) => {
                if !is_facade(name) {
                    seq![name] + rest
                } else {
                    rest
                }
            },
            Option::None => rest,
        }
    }
}

/// A typed parameter `Type $var` inside the parameter list of a `function`
/// heading at `i`: the first upper-started letter run of at least two
/// letters followed by whitespace and a `$` variable.
pub open spec fn try_hint(s: Seq<u8>, i: int) -> Option<Seq<u8>> {
    if matches_at(s, lit("function"), i) && i + 8 < s.len() && is_space(s[i + 8]) {
        let k = skip_ws(s, i + 8);
        let e = ident_end(s, k);
        if e > k {
            let t = skip_ws(s, e);
            if t < s.len() && s[t] == 40 {
                let close = find_byte(s, 41, t + 1);
                hint_in(s, t + 1, close)
            } else {
                Option::None
            }
        } else {
            Option::None
        }
    } else {
        Option::None
    }
}

/// The first typed parameter in `[a, b)`.
pub open spec fn hint_in(s: Seq<u8>, a: int, b: int) -> Option<Seq<u8>>
    decreases b - a,
{
    if a < 0 || a >= b || a >= s.len() {
        Option::None
    } else {
        if is_upper(s[a]) && {
            let e = letters_end(s, a + 1);
            e > a + 1 && e < s.len() && is_space(s[e]) && {
                let w = skip_ws(s, e);
                w < s.len() && s[w] == 36 && ident_end(s, w + 1) > w + 1
            }
        } {
            Option::Some(s.subrange(a, letters_end(s, a + 1)))
        } else {
            hint_in(s, a + 1, b)
        }
    }
}

pub open spec fn hint_models_from(s: Seq<u8>, i: int) -> Seq<Seq<u8>>
    decreases s.len() - i,
{
    if i < 0 || i >= s.len() {
        Seq::empty()
    } else {
        let rest = hint_models_from(s, i + 1);
        match try_hint(s, i) {
            Option::Some(name) => {
                if !is_hint_excluded(name) {
                    seq![name] + rest
                } else {
                    rest
                }
            },
            Option::None => rest,
        }
    }
}

/// The models a controller references: static builder calls, then typed
/// action parameters, first occurrence kept.
pub open spec fn models_ref_spec(s: Seq<u8>) -> Seq<Seq<u8>> {
    dedup(static_models_from(s, 0) + hint_models_from(s, 0))
}

fn try_static_model_x(s: &Vec<u8>, i: usize) -> (r: Option<Vec<u8>>)
    requires
        i <= s.len(),
    ensures
        match r {
            Option::Some(v) => try_static_model(s@, i as int) == Option::Some(v@),
            Option::None => try_static_model(s@, i as int) is None,
        },
{
    let colons = litv("::");
    if !match_at(s, &colons, i) {
        return None;
    }
    if s.len() - i < 2 {
        proof {
            assert(ident_end(s@, i as int + 2) == i + 2);
        }
        return None;
    }
    let e = ident_end_x(s, i + 2);
    if e <= i + 2 {
        return None;
    }
    let w = slice_of(s, i + 2, e);
    let find_w = litv("find");
    let find_or_fail_w = litv("findOrFail");
    let where_w = litv("where");
    let all_w = litv("all");
    let create_w = litv("create");
    let first_or_create_w = litv("firstOrCreate");
    let update_or_create_w = litv("updateOrCreate");
    let query_w = litv("query");
    let with_w = litv("with");
    let is_word = crate::text::bytes_eq(&w, &find_w) || crate::text::bytes_eq(&w, &find_or_fail_w)
        || crate::text::bytes_eq(&w, &where_w) || crate::text::bytes_eq(&w, &all_w)
        || crate::text::bytes_eq(&w, &create_w) || crate::text::bytes_eq(&w, &first_or_create_w)
        || crate::text::bytes_eq(&w, &update_or_create_w) || crate::text::bytes_eq(&w, &query_w)
        || crate::text::bytes_eq(&w, &with_w);
    if !is_word {
        return None;
    }
    let t = skip_ws_x(s, e);
    if !(t < s.len() && s[t] == 40) {
        return None;
    }
    let rs = letters_start_x(s, i);
    let mut a = rs;
    loop
        invariant
            rs <= a,
            a <= s.len(),
            i <= s.len(),
            matches_at(s@, lit("::"), i as int),
            rs as int == letters_start(s@, i as int),
            ident_end(s@, i as int + 2) == e,
            i + 2 < e <= s.len(),
            is_builder_word(s@.subrange(i as int + 2, e as int)),
            skip_ws(s@, e as int) == t,
            t < s.len() && s@[t as int] == 40,
            crate::routes::first_upper_in(s@, rs as int, i as int - 1)
                == crate::routes::first_upper_in(s@, a as int, i as int - 1),
        decreases s.len() + 1 - a,
    {
        if a >= s.len() || i == 0 || a >= i - 1 {
            proof {
                assert(crate::routes::first_upper_in(s@, a as int, i as int - 1) is None);
            }
            return None;
        }
        if upper(s[a]) {
            proof {
                assert(crate::routes::first_upper_in(s@, a as int, i as int - 1) == Option::Some(
                    a as int,
                ));
            }
            return Some(slice_of(s, a, i));
        }
        a = a + 1;
    }
}

fn try_hint_x(s: &Vec<u8>, i: usize) -> (r: Option<Vec<u8>>)
    requires
        i <= s.len(),
    ensures
        match r {
            Option::Some(v) => try_hint(s@, i as int) == Option::Some(v@),
            Option::None => try_hint(s@, i as int) is None,
        },
{
    let function_kw = litv("function");
    if !(match_at(s, &function_kw, i) && s.len() - i > 8 && space(s[i + 8])) {
        return None;
    }
    let k = skip_ws_x(s, i + 8);
    let e = ident_end_x(s, k);
    if e <= k {
        return None;
    }
    let t = skip_ws_x(s, e);
    if !(t < s.len() && s[t] == 40) {
        return None;
    }
    let close = find_byte_x(s, 41, t + 1);
    let mut a = t + 1;
    loop
        invariant
            t + 1 <= a,
            a <= s.len() + 1,
            t < s.len(),
            close <= s.len(),
            close as int == find_byte(s@, 41, t as int + 1),
            hint_in(s@, t as int + 1, close as int) == hint_in(s@, a as int, close as int),
            try_hint(s@, i as int) == hint_in(s@, t as int + 1, close as int),
        decreases s.len() + 2 - a,
    {
        if a >= close || a >= s.len() {
            proof {
                assert(hint_in(s@, a as int, close as int) is None);
            }
            return None;
        }
        if upper(s[a]) {
            let le = letters_end_x(s, a + 1);
            if le > a + 1 && le < s.len() && space(s[le]) {
                let ww = skip_ws_x(s, le);
                if ww < s.len() && s[ww] == 36 {
                    let ie = ident_end_x(s, ww + 1);
                    if ie > ww + 1 {
                        proof {
                            assert(hint_in(s@, a as int, close as int) == Option::Some(
                                s@.subrange(a as int, letters_end(s@, a as int + 1)),
                            ));
                        }
                        return Some(slice_of(s, a, le));
                    }
                }
            }
        }
        proof {
            assert(hint_in(s@, a as int, close as int) == hint_in(s@, a + 1, close as int));
        }
        a = a + 1;
    }
}

/// Extract model references: static builder calls and typed parameters.
pub fn extract_model_references(s: &Vec<u8>) -> (out: Vec<Vec<u8>>)
    ensures
        views(out@) == models_ref_spec(s@),
{
    let mut out: Vec<Vec<u8>> = Vec::new();
    let ghost part1 = static_models_from(s@, 0);
    let mut i: usize = 0;
    while i < s.len()
        invariant
            0 <= i <= s.len(),
            part1 == static_models_from(s@, 0),
            views(out@) == dedup(crate::routes::seqminus(part1, static_models_from(s@, i as int))),
            crate::routes::ctrl_suffix_ok(part1, static_models_from(s@, i as int)),
        decreases s.len() - i,
    {
        match try_static_model_x(s, i) {
            Option::Some(name) => {
                let db_w = litv("DB");
                let auth_w = litv("Auth");
                let cache_w = litv("Cache");
                let log_w = litv("Log");
                let route_w = litv("Route");
                let view_w = litv("View");
                let request_w = litv("Request");
                let response_w = litv("Response");
                let session_w = litv("Session");
                let config_w = litv("Config");
                let app_w = litv("App");
                let event_w = litv("Event");
                let facade = crate::text::bytes_eq(&name, &db_w) || crate::text::bytes_eq(
                    &name,
                    &auth_w,
                ) || crate::text::bytes_eq(&name, &cache_w) || crate::text::bytes_eq(&name, &log_w)
                    || crate::text::bytes_eq(&name, &route_w) || crate::text::bytes_eq(
                    &name,
                    &view_w,
                ) || crate::text::bytes_eq(&name, &request_w) || crate::text::bytes_eq(
                    &name,
                    &response_w,
                ) || crate::text::bytes_eq(&name, &session_w) || crate::text::bytes_eq(
                    &name,
                    &config_w,
                ) || crate::text::bytes_eq(&name, &app_w) || crate::text::bytes_eq(&name, &event_w);
                if !facade {
                    let ghost acc = crate::routes::seqminus(
                        part1,
                        static_models_from(s@, i as int),
                    );
                    proof {
                        assert(static_models_from(s@, i as int) =~= seq![name@]
                            + static_models_from(s@, i + 1));
                        crate::routes::lemma_seqminus_step_pub(
                            part1,
                            static_models_from(s@, i + 1),
                            name@,
                        );
                        assert((acc.push(name@)).drop_last() =~= acc);
                    }
                    push_unique(&mut out, name);
                } else {
                    proof {
                        assert(static_models_from(s@, i as int) == static_models_from(s@, i + 1));
                    }
                }
            },
            Option::None => {
                proof {
                    assert(static_models_from(s@, i as int) == static_models_from(s@, i + 1));
                }
            },
        }
        i = i + 1;
    }
    proof {
        assert(static_models_from(s@, s@.len() as int) =~= Seq::<Seq<u8>>::empty());
        assert(crate::routes::seqminus(part1, Seq::<Seq<u8>>::empty()) =~= part1);
    }
    let ghost part2 = hint_models_from(s@, 0);
    let mut j: usize = 0;
    while j < s.len()
        invariant
            0 <= j <= s.len(),
            part1 == static_models_from(s@, 0),
            part2 == hint_models_from(s@, 0),
            views(out@) == dedup(
                part1 + crate::routes::seqminus(part2, hint_models_from(s@, j as int)),
            ),
            crate::routes::ctrl_suffix_ok(part2, hint_models_from(s@, j as int)),
        decreases s.len() - j,
    {
        match try_hint_x(s, j) {
            Option::Some(name) => {
                let request_w = litv("Request");
                let response_w = litv("Response");
                let collection_w = litv("Collection");
                let builder_w = litv("Builder");
                let carbon_w = litv("Carbon");
                let closure_w = litv("Closure");
                let exception_w = litv("Exception");
                let excluded = crate::text::bytes_eq(&name, &request_w) || crate::text::bytes_eq(
                    &name,
                    &response_w,
                ) || crate::text::bytes_eq(&name, &collection_w) || crate::text::bytes_eq(
                    &name,
                    &builder_w,
                ) || crate::text::bytes_eq(&name, &carbon_w) || crate::text::bytes_eq(
                    &name,
                    &closure_w,
                ) || crate::text::bytes_eq(&name, &exception_w);
                if !excluded {
                    let ghost acc = part1 + crate::routes::seqminus(
                        part2,
                        hint_models_from(s@, j as int),
                    );
                    proof {
                        assert(hint_models_from(s@, j as int) =~= seq![name@] + hint_models_from(
                            s@,
                            j + 1,
                        ));
                        crate::routes::lemma_seqminus_step_pub(
                            part2,
                            hint_models_from(s@, j + 1),
                            name@,
                        );
                        assert(part1 + crate::routes::seqminus(part2, hint_models_from(s@, j + 1))
                            =~= acc.push(name@));
                        assert((acc.push(name@)).drop_last() =~= acc);
                    }
                    push_unique(&mut out, name);
                } else {
                    proof {
                        assert(hint_models_from(s@, j as int) == hint_models_from(s@, j + 1));
                    }
                }
            },
            Option::None => {
                proof {
                    assert(hint_models_from(s@, j as int) == hint_models_from(s@, j + 1));
                }
            },
        }
        j = j + 1;
    }
    proof {
        assert(hint_models_from(s@, s@.len() as int) =~= Seq::<Seq<u8>>::empty());
        assert(crate::routes::seqminus(part2, Seq::<Seq<u8>>::empty()) =~= part2);
        assert(views(out@) =~= models_ref_spec(s@));
    }
    out
}

} // verus!

verus! {

/// Parser for Laravel controllers.
pub struct ControllerParser;

impl ControllerParser {
    pub fn new() -> (r: Self) {
        ControllerParser
    }

    /// Record the first class declaration as the controller class symbol.
    fn extract_controller_class(&self, content: &Vec<u8>, ns: &Option<Vec<u8>>, parsed: &mut ParsedFile)
        requires
            opt_view(*ns) == php_namespace(content@),
        ensures
            sym_models(final(parsed).symbols@) == sym_models(old(parsed).symbols@)
                + controller_class_syms(content@),
            final(parsed).dependencies == old(parsed).dependencies,
            final(parsed).source == old(parsed).source,
            final(parsed).facts == old(parsed).facts,
            final(parsed).warnings == old(parsed).warnings,
    {
        let lines = split_lines_x(content);
        let ghost lsv = split_lines(content@);
        let mut k: usize = 0;
        while k < lines.len()
            invariant
                0 <= k <= lines@.len(),
                views(lines@) == lsv,
                lsv == split_lines(content@),
                opt_view(*ns) == php_namespace(content@),
                first_class(lsv, 0) == first_class(lsv, k as int),
                *parsed == *old(parsed),
            decreases lines@.len() - k,
        {
            proof {
                assert(views(lines@)[k as int] == lines@[k as int]@);
            }
            match class_line(&lines[k], false) {
                Option::Some(c) => {
                    let qualified = qualify_x(ns, &c.name);
                    let sym = Symbol {
                        name: c.name,
                        qualified_name: qualified,
                        symbol_type: SymbolType::Class,
                        visibility: Some(litv("public")),
                        is_abstract: None,
                        is_static: None,
                        extends: c.extends,
                        implements: None,
                        line_start: None,
                        line_end: None,
                    };
                    let ghost pre = parsed.symbols@;
                    parsed.add_symbol(sym);
                    proof {
                        lemma_sym_models_push(pre, sym);
                        assert(sym_models(parsed.symbols@) =~= sym_models(old(parsed).symbols@)
                            + controller_class_syms(content@));
                    }
                    return ;
                },
                Option::None => {
                },
            }
            k = k + 1;
        }
        proof {
            assert(first_class(lsv, lines@.len() as int) is None);
            assert(sym_models(parsed.symbols@) =~= sym_models(old(parsed).symbols@)
                + controller_class_syms(content@));
        }
    }

    /// Record the controller's action methods as symbols.
    fn extract_controller_methods(&self, content: &Vec<u8>, parsed: &mut ParsedFile)
        ensures
            sym_models(final(parsed).symbols@) == sym_models(old(parsed).symbols@)
                + controller_method_syms(split_lines(content@), 0),
            final(parsed).dependencies == old(parsed).dependencies,
            final(parsed).source == old(parsed).source,
            final(parsed).facts == old(parsed).facts,
            final(parsed).warnings == old(parsed).warnings,
    {
        let lines = split_lines_x(content);
        let ghost lsv = split_lines(content@);
        let mut k: usize = 0;
        while k < lines.len()
            invariant
                0 <= k <= lines@.len(),
                views(lines@) == lsv,
                lsv == split_lines(content@),
                sym_models(parsed.symbols@) + controller_method_syms(lsv, k as int) == sym_models(
                    old(parsed).symbols@,
                ) + controller_method_syms(lsv, 0),
                parsed.dependencies == old(parsed).dependencies,
                parsed.source == old(parsed).source,
                parsed.facts == old(parsed).facts,
                parsed.warnings == old(parsed).warnings,
            decreases lines@.len() - k,
        {
            proof {
                assert(views(lines@)[k as int] == lines@[k as int]@);
            }
            let skip_tag = litv("__");
            match function_line(&lines[k]) {
                Option::Some(f) => {
                    if f.visibility.is_some() && !f.is_static && f.params_closed
                        && !starts_with_x(&f.name, &skip_tag) {
                        let qualified = slice_of(&f.name, 0, f.name.len());
                        proof {
                            assert(qualified@ =~= f.name@);
                        }
                        let sym = Symbol {
                            name: f.name,
                            qualified_name: qualified,
                            symbol_type: SymbolType::Method,
                            visibility: f.visibility,
                            is_abstract: None,
                            is_static: None,
                            extends: None,
                            implements: None,
                            line_start: None,
                            line_end: None,
                        };
                        let ghost pre = parsed.symbols@;
                        parsed.add_symbol(sym);
                        proof {
                            lemma_sym_models_push(pre, sym);
                            assert(sym_models(parsed.symbols@) + controller_method_syms(
                                lsv,
                                k + 1,
                            ) =~= sym_models(old(parsed).symbols@) + controller_method_syms(
                                lsv,
                                0,
                            ));
                        }
                    } else {
                        proof {
                            assert(controller_method_syms(lsv, k as int) == controller_method_syms(
                                lsv,
                                k + 1,
                            ));
                        }
                    }
                },
                Option::None => {
                    proof {
                        assert(controller_method_syms(lsv, k as int) == controller_method_syms(
                            lsv,
                            k + 1,
                        ));
                    }
                },
            }
            k = k + 1;
        }
        proof {
            assert(controller_method_syms(lsv, lines@.len() as int) =~= Seq::<SymbolModel>::empty());
            assert(sym_models(parsed.symbols@) =~= sym_models(old(parsed).symbols@)
                + controller_method_syms(lsv, 0));
        }
    }

    /// Parse a controller: namespace, imports, the controller class and its
    /// action methods, middleware, resource detection, and view / model /
    /// Inertia-page references.
    pub fn parse(&self, file: &SourceFile, content: &Vec<u8>) -> (r: ParsedFile)
        ensures
            sf_model(r.source) == sf_model(*file),
            dep_models(r.dependencies@) == php_use_deps(content@),
            sym_models(r.symbols@) == controller_symbols(content@),
            (match r.facts {
                FileFacts::Controller(f) => {
                    &&& opt_view(f.namespace) == php_namespace(content@)
                    &&& views(f.middlewares@) == ctrl_mw_spec(content@)
                    &&& f.is_resource_controller == is_resource_spec(content@)
                    &&& views(f.views_referenced@) == views_ref_spec(content@)
                    &&& views(f.models_referenced@) == models_ref_spec(content@)
                    &&& views(f.inertia_pages@) == inertia_pages_spec(content@)
                },
                _ => false,
            }),
            r.warnings@.len() == 0,
    {
        let mut parsed = ParsedFile::new(file.duplicate());
        let helper = PhpParser::new();
        let ns = helper.extract_namespace(content);
        helper.extract_use_statements(content, &mut parsed);
        self.extract_controller_class(content, &ns, &mut parsed);
        self.extract_controller_methods(content, &mut parsed);
        let middlewares = extract_middlewares(content);
        let is_resource = is_resource_controller(content);
        let views_referenced = extract_view_references(content);
        let models_referenced = extract_model_references(content);
        let inertia_pages = extract_inertia_pages(content);
        parsed.facts = FileFacts::Controller(
            ControllerFacts {
                namespace: ns,
                middlewares,
                is_resource_controller: is_resource,
                views_referenced,
                models_referenced,
                inertia_pages,
            },
        );
        proof {
            assert(sym_models(parsed.symbols@) =~= controller_symbols(content@));
            assert(dep_models(parsed.dependencies@) =~= php_use_deps(content@));
        }
        parsed
    }
}

} // verus!
