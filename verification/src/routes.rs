//! Laravel route-file extraction: HTTP-verb routes with their actions,
//! names and middleware, resource registrations, route groups, referenced
//! controllers, and the middleware inventory.

use vstd::prelude::*;
use crate::facts::ActionModel;
use crate::facts::Dependency;
use crate::facts::FileFacts;
use crate::facts::ParsedFile;
use crate::facts::ResourceRoute;
use crate::facts::RouteAction;
use crate::facts::RouteDefinition;
use crate::facts::RouteFacts;
use crate::facts::RouteGroup;
use crate::facts::RouteModel;
use crate::facts::GroupModel;
use crate::facts::Symbol;
use crate::facts::SymbolType;
use crate::facts::dep_models;
use crate::facts::group_model;
use crate::facts::group_models;
use crate::facts::lemma_group_models_push;
use crate::facts::lemma_resource_models_push;
use crate::facts::lemma_route_models_push;
use crate::facts::opt_view;
use crate::facts::resource_models;
use crate::facts::route_model;
use crate::facts::route_models;
use crate::facts::sym_models;
use crate::php::PhpParser;
use crate::php::php_use_deps;
use crate::source_file::SourceFile;
use crate::source_file::sf_model;
use crate::text::argviews;
use crate::text::bytes_eq;
use crate::text::concat;
use crate::text::contains_byte;
use crate::text::contains_byte_x;
use crate::text::contains_seq;
use crate::text::contains_sub;
use crate::text::dedup;
use crate::text::dedup_x;
use crate::text::find_byte;
use crate::text::find_byte_x;
use crate::text::find_two;
use crate::text::find_two_x;
use crate::text::ident_end;
use crate::text::ident_end_x;
use crate::text::is_quote;
use crate::text::is_upper;
use crate::text::lit;
use crate::text::litv;
use crate::text::match_at;
use crate::text::matches_at;
use crate::text::push_unique;
use crate::text::quote;
use crate::text::replace_all;
use crate::text::replace_all_x;
use crate::text::scan_arg;
use crate::text::scan_arg_spec;
use crate::text::scan_kv;
use crate::text::scan_kv_spec;
use crate::text::scan_quoted;
use crate::text::scan_quoted_spec;
use crate::text::scan_quoted_raw;
use crate::text::scan_quoted_raw_spec;
use crate::text::scan_two_quoted;
use crate::text::scan_two_quoted_spec;
use crate::text::skip_ws;
use crate::text::skip_ws_x;
use crate::text::slice_of;
use crate::text::split_list;
use crate::text::split_list_x;
use crate::text::strip_quotes;
use crate::text::strip_quotes_x;
use crate::text::trim_ws;
use crate::text::trim_ws_x;
use crate::text::try_quoted;
use crate::text::try_quoted_x;
use crate::text::upper;
use crate::text::views;

verus! {

// ---------------------------------------------------------------------------
// Action parsing inside a route statement's context
// ---------------------------------------------------------------------------

/// `[Controller::class, 'method']` at position `i`.
pub open spec fn try_ctrl_action(s: Seq<u8>, i: int) -> Option<(Seq<u8>, Seq<u8>)> {
    if 0 <= i && i < s.len() && s[i] == 91 {
        let a = skip_ws(s, i + 1);
        if a < s.len() && is_upper(s[a]) {
            let e = ident_end(s, a + 1);
            if matches_at(s, lit("::class"), e) {
                let t = skip_ws(s, e + 7);
                if 0 <= t && t < s.len() && s[t] == 44 {
                    let q = skip_ws(s, t + 1);
                    if q < s.len() && is_quote(s[q]) {
                        let c = ident_end(s, q + 1);
                        if c > q + 1 && c < s.len() && is_quote(s[c]) {
                            let t2 = skip_ws(s, c + 1);
                            if t2 < s.len() && s[t2] == 93 {
                                Option::Some((s.subrange(a, e), s.subrange(q + 1, c)))
                            } else {
                                Option::None
                            }
                        } else {
                            Option::None
                        }
                    } else {
                        Option::None
                    }
                } else {
                    Option::None
                }
            } else {
                Option::None
            }
        } else {
            Option::None
        }
    } else {
        Option::None
    }
}

/// `'Controller@method'` at position `i`.
pub open spec fn try_str_action(s: Seq<u8>, i: int) -> Option<(Seq<u8>, Seq<u8>)> {
    if 0 <= i && i < s.len() && is_quote(s[i]) && i + 1 < s.len() && is_upper(s[i + 1]) {
        let e = ident_end(s, i + 2);
        if e < s.len() && s[e] == 64 {
            let f = ident_end(s, e + 1);
            if f > e + 1 && f < s.len() && is_quote(s[f]) {
                Option::Some((s.subrange(i + 1, e), s.subrange(e + 1, f)))
            } else {
                Option::None
            }
        } else {
            Option::None
        }
    } else {
        Option::None
    }
}

pub open spec fn first_ctrl_action(s: Seq<u8>, i: int) -> Option<(Seq<u8>, Seq<u8>)>
    decreases s.len() - i,
{
    if i < 0 || i >= s.len() {
        Option::None
    } else {
        match try_ctrl_action(s, i) {
            Option::Some(p) => Option::Some(p),
            Option::None => first_ctrl_action(s, i + 1),
        }
    }
}

pub open spec fn first_str_action(s: Seq<u8>, i: int) -> Option<(Seq<u8>, Seq<u8>)>
    decreases s.len() - i,
{
    if i < 0 || i >= s.len() {
        Option::None
    } else {
        match try_str_action(s, i) {
            Option::Some(p) => Option::Some(p),
            Option::None => first_str_action(s, i + 1),
        }
    }
}

/// The action a route statement's context resolves to: controller-class
/// syntax first, then legacy string syntax, then a closure, else
/// unrecognized.
pub open spec fn action_spec(ctx: Seq<u8>) -> ActionModel {
    match first_ctrl_action(ctx, 0) {
        Option::Some(p) => ActionModel::Controller { controller: p.0, method: p.1 },
        Option::None => match first_str_action(ctx, 0) {
            Option::Some(p) => ActionModel::Controller { controller: p.0, method: p.1 },
            Option::None => {
                if contains_seq(ctx, lit("function")) && contains_byte(ctx, 123) {
                    ActionModel::Closure
                } else {
                    ActionModel::Unrecognized
                }
            },
        },
    }
}

fn try_ctrl_action_x(s: &Vec<u8>, i: usize) -> (r: Option<(Vec<u8>, Vec<u8>)>)
    requires
        i <= s.len(),
    ensures
        match r {
            Option::Some(p) => try_ctrl_action(s@, i as int) == Option::Some((p.0@, p.1@)),
            Option::None => try_ctrl_action(s@, i as int) is None,
        },
{
    if !(i < s.len() && s[i] == 91) {
        return None;
    }
    let a = skip_ws_x(s, i + 1);
    if !(a < s.len() && upper(s[a])) {
        return None;
    }
    let e = ident_end_x(s, a + 1);
    let class_kw = litv("::class");
    if !match_at(s, &class_kw, e) {
        return None;
    }
    let t = skip_ws_x(s, if s.len() - e > 7 {
        e + 7
    } else {
        s.len()
    });
    if !(t < s.len() && s[t] == 44) {
        return None;
    }
    let q = skip_ws_x(s, t + 1);
    if !(q < s.len() && quote(s[q])) {
        return None;
    }
    let c = ident_end_x(s, q + 1);
    if !(c > q + 1 && c < s.len() && quote(s[c])) {
        return None;
    }
    let t2 = skip_ws_x(s, c + 1);
    if !(t2 < s.len() && s[t2] == 93) {
        return None;
    }
    Some((slice_of(s, a, e), slice_of(s, q + 1, c)))
}

fn try_str_action_x(s: &Vec<u8>, i: usize) -> (r: Option<(Vec<u8>, Vec<u8>)>)
    requires
        i <= s.len(),
    ensures
        match r {
            Option::Some(p) => try_str_action(s@, i as int) == Option::Some((p.0@, p.1@)),
            Option::None => try_str_action(s@, i as int) is None,
        },
{
    if !(i < s.len() && quote(s[i]) && i + 1 < s.len() && upper(s[i + 1])) {
        return None;
    }
    let e = ident_end_x(s, i + 2);
    if !(e < s.len() && s[e] == 64) {
        return None;
    }
    let f = ident_end_x(s, e + 1);
    if !(f > e + 1 && f < s.len() && quote(s[f])) {
        return None;
    }
    Some((slice_of(s, i + 1, e), slice_of(s, e + 1, f)))
}

fn action_of(ctx: &Vec<u8>) -> (r: RouteAction)
    ensures
        crate::facts::action_model(r) == action_spec(ctx@),
{
    let mut i: usize = 0;
    while i < ctx.len()
        invariant
            0 <= i <= ctx.len(),
            first_ctrl_action(ctx@, 0) == first_ctrl_action(ctx@, i as int),
        decreases ctx.len() - i,
    {
        match try_ctrl_action_x(ctx, i) {
            Option::Some((c, m)) => {
                return RouteAction::Controller { controller: c, method: m };
            },
            Option::None => {
            },
        }
        i = i + 1;
    }
    let mut j: usize = 0;
    while j < ctx.len()
        invariant
            0 <= j <= ctx.len(),
            first_ctrl_action(ctx@, 0) is None,
            first_str_action(ctx@, 0) == first_str_action(ctx@, j as int),
        decreases ctx.len() - j,
    {
        match try_str_action_x(ctx, j) {
            Option::Some((c, m)) => {
                return RouteAction::Controller { controller: c, method: m };
            },
            Option::None => {
            },
        }
        j = j + 1;
    }
    let function_kw = litv("function");
    if contains_sub(ctx, &function_kw) && contains_byte_x(ctx, 123) {
        RouteAction::Closure
    } else {
        RouteAction::Unrecognized
    }
}

// ---------------------------------------------------------------------------
// Route statements per verb
// ---------------------------------------------------------------------------

/// The context of a route statement starting at `start`: up to and including
/// the next semicolon, else at most 500 bytes.
pub open spec fn route_ctx(s: Seq<u8>, start: int) -> Seq<u8> {
    let semi = find_byte(s, 59, start);
    if 0 <= semi && semi < s.len() {
        s.subrange(start, semi + 1)
    } else {
        s.subrange(start, if start + 500 > s.len() {
            s.len() as int
        } else {
            start + 500
        })
    }
}

/// The name attached by `->name('...')` within a context.
pub open spec fn route_name_spec(ctx: Seq<u8>) -> Option<Seq<u8>> {
    let names = scan_quoted_spec(ctx, seq![lit("->"), lit("name")]);
    if names.len() > 0 {
        Option::Some(names[0])
    } else {
        Option::None
    }
}

/// The middleware attached by the first `->middleware(...)` in a context:
/// a bracketed list is split and deduplicated, a single value is trimmed.
pub open spec fn route_mw_spec(ctx: Seq<u8>) -> Seq<Seq<u8>> {
    let args = scan_arg_spec(ctx, seq![lit("->"), lit("middleware")], false);
    if args.len() == 0 {
        Seq::empty()
    } else if args[0].0 {
        dedup(split_list(args[0].1))
    } else {
        if trim_ws(args[0].1).len() > 0 {
            seq![trim_ws(args[0].1)]
        } else {
            Seq::<Seq<u8>>::empty()
        }
    }
}

/// The route model of one verb match whose whole match starts at `start`.
pub open spec fn route_of(s: Seq<u8>, verb_upper: Seq<u8>, uri: Seq<u8>, start: int) -> RouteModel {
    let ctx = route_ctx(s, start);
    RouteModel {
        method: verb_upper,
        uri: uri,
        action: action_spec(ctx),
        name: route_name_spec(ctx),
        middleware: route_mw_spec(ctx),
        prefix: Option::None,
    }
}

/// All routes of one verb, scanning left to right.
pub open spec fn verb_routes_from(s: Seq<u8>, toks: Seq<Seq<u8>>, verb_upper: Seq<u8>, i: int) -> Seq<RouteModel>
    decreases s.len() - i,
{
    if i < 0 || i >= s.len() {
        Seq::empty()
    } else {
        match try_quoted(s, toks, i) {
            Option::Some(r) => {
                let nxt = if r.1 <= i {
                    i + 1
                } else if r.1 > s.len() {
                    s.len() as int
                } else {
                    r.1
                };
                seq![route_of(s, verb_upper, r.0, i)] + verb_routes_from(s, toks, verb_upper, nxt)
            },
            Option::None => verb_routes_from(s, toks, verb_upper, i + 1),
        }
    }
}

fn verb_routes(s: &Vec<u8>, toks: &Vec<Vec<u8>>, verb_upper: &Vec<u8>, out: &mut Vec<RouteDefinition>)
    ensures
        route_models(final(out)@) == route_models(old(out)@) + verb_routes_from(
            s@,
            views(toks@),
            verb_upper@,
            0,
        ),
{
    let ghost tv = views(toks@);
    let mut i: usize = 0;
    while i < s.len()
        invariant
            0 <= i <= s.len(),
            tv == views(toks@),
            route_models(out@) + verb_routes_from(s@, tv, verb_upper@, i as int) == route_models(
                old(out)@,
            ) + verb_routes_from(s@, tv, verb_upper@, 0),
        decreases s.len() - i,
    {
        match try_quoted_x(s, toks, i) {
            Option::Some((uri, end)) => {
                let semi = find_byte_x(s, 59, i);
                let cend = if semi < s.len() {
                    semi + 1
                } else if s.len() - i > 500 {
                    i + 500
                } else {
                    s.len()
                };
                let ctx = slice_of(s, i, cend);
                proof {
                    assert(ctx@ =~= route_ctx(s@, i as int));
                }
                let action = action_of(&ctx);
                let name_toks = vec![litv("->"), litv("name")];
                proof {
                    assert(views(name_toks@) =~= seq![lit("->"), lit("name")]);
                }
                let names = scan_quoted(&ctx, &name_toks);
                let name = if names.len() > 0 {
                    let n = slice_of(&names[0], 0, names[0].len());
                    proof {
                        assert(n@ =~= views(names@)[0]);
                    }
                    Some(n)
                } else {
                    None
                };
                let mw_toks = vec![litv("->"), litv("middleware")];
                proof {
                    assert(views(mw_toks@) =~= seq![lit("->"), lit("middleware")]);
                }
                let args = scan_arg(&ctx, &mw_toks, false);
                let middleware = if args.len() == 0 {
                    Vec::new()
                } else if args[0].0 {
                    let items = split_list_x(&args[0].1);
                    proof {
                        assert(args@[0].1@ == argviews(args@)[0].1);
                    }
                    dedup_x(&items)
                } else {
                    let t = trim_ws_x(&args[0].1);
                    proof {
                        assert(args@[0].1@ == argviews(args@)[0].1);
                    }
                    let mut v: Vec<Vec<u8>> = Vec::new();
                    if t.len() > 0 {
                        v.push(t);
                    }
                    proof {
                        assert(views(v@) =~= route_mw_spec(ctx@));
                    }
                    v
                };
                let verb = slice_of(verb_upper, 0, verb_upper.len());
                proof {
                    assert(verb@ =~= verb_upper@);
                }
                let rd = RouteDefinition { method: verb, uri, action, name, middleware, prefix: None };
                let ghost pre = out@;
                out.push(rd);
                proof {
                    lemma_route_models_push(pre, rd);
                    assert(route_model(rd) =~= route_of(s@, verb_upper@, rd.uri@, i as int));
                    assert(route_models(out@) + verb_routes_from(s@, tv, verb_upper@, end as int)
                        =~= route_models(old(out)@) + verb_routes_from(s@, tv, verb_upper@, 0));
                }
                i = end;
            },
            Option::None => {
                proof {
                    assert(verb_routes_from(s@, tv, verb_upper@, i as int) == verb_routes_from(
                        s@,
                        tv,
                        verb_upper@,
                        i + 1,
                    ));
                }
                i = i + 1;
            },
        }
    }
    proof {
        assert(verb_routes_from(s@, tv, verb_upper@, s@.len() as int) =~= Seq::<RouteModel>::empty());
        assert(route_models(out@) =~= route_models(old(out)@) + verb_routes_from(
            s@,
            tv,
            verb_upper@,
            0,
        ));
    }
}

/// One verb's scan, by keyword and upper-cased method name.
pub open spec fn verb_list(s: Seq<u8>, kw: &str, up: &str) -> Seq<RouteModel> {
    verb_routes_from(s, seq![lit(kw)], lit(up), 0)
}

/// The view routes (`Route::view('/uri', 'view')`), always GET.
pub open spec fn view_routes_spec(s: Seq<u8>) -> Seq<RouteModel> {
    scan_two_quoted_spec(s, seq![lit("Route::view")], false).map_values(
        |p: (Seq<u8>, Seq<u8>)|
            RouteModel {
                method: lit("GET"),
                uri: p.0,
                action: ActionModel::ViewTarget { view: p.1 },
                name: Option::None,
                middleware: Seq::empty(),
                prefix: Option::None,
            },
    )
}

/// The redirect routes (`Route::redirect('/from', '/to')`), always GET.
pub open spec fn redirect_routes_spec(s: Seq<u8>) -> Seq<RouteModel> {
    scan_two_quoted_spec(s, seq![lit("Route::redirect")], false).map_values(
        |p: (Seq<u8>, Seq<u8>)|
            RouteModel {
                method: lit("GET"),
                uri: p.0,
                action: ActionModel::Redirect { to: p.1 },
                name: Option::None,
                middleware: Seq::empty(),
                prefix: Option::None,
            },
    )
}

/// Every route fact of a route file: the eight verb scans in fixed order,
/// then view routes, then redirect routes.
pub open spec fn routes_spec(s: Seq<u8>) -> Seq<RouteModel> {
    verb_list(s, "Route::get", "GET") + verb_list(s, "Route::post", "POST") + verb_list(
        s,
        "Route::put",
        "PUT",
    ) + verb_list(s, "Route::patch", "PATCH") + verb_list(s, "Route::delete", "DELETE")
        + verb_list(s, "Route::options", "OPTIONS") + verb_list(s, "Route::any", "ANY")
        + verb_list(s, "Route::match", "MATCH") + view_routes_spec(s) + redirect_routes_spec(s)
}

/// Extract every route definition.
pub fn extract_routes(s: &Vec<u8>) -> (out: Vec<RouteDefinition>)
    ensures
        route_models(out@) == routes_spec(s@),
{
    let mut out: Vec<RouteDefinition> = Vec::new();
    let t1 = vec![litv("Route::get")];
    proof {
        assert(views(t1@) =~= seq![lit("Route::get")]);
    }
    verb_routes(s, &t1, &litv("GET"), &mut out);
    let t2 = vec![litv("Route::post")];
    proof {
        assert(views(t2@) =~= seq![lit("Route::post")]);
    }
    verb_routes(s, &t2, &litv("POST"), &mut out);
    let t3 = vec![litv("Route::put")];
    proof {
        assert(views(t3@) =~= seq![lit("Route::put")]);
    }
    verb_routes(s, &t3, &litv("PUT"), &mut out);
    let t4 = vec![litv("Route::patch")];
    proof {
        assert(views(t4@) =~= seq![lit("Route::patch")]);
    }
    verb_routes(s, &t4, &litv("PATCH"), &mut out);
    let t5 = vec![litv("Route::delete")];
    proof {
        assert(views(t5@) =~= seq![lit("Route::delete")]);
    }
    verb_routes(s, &t5, &litv("DELETE"), &mut out);
    let t6 = vec![litv("Route::options")];
    proof {
        assert(views(t6@) =~= seq![lit("Route::options")]);
    }
    verb_routes(s, &t6, &litv("OPTIONS"), &mut out);
    let t7 = vec![litv("Route::any")];
    proof {
        assert(views(t7@) =~= seq![lit("Route::any")]);
    }
    verb_routes(s, &t7, &litv("ANY"), &mut out);
    let t8 = vec![litv("Route::match")];
    proof {
        assert(views(t8@) =~= seq![lit("Route::match")]);
    }
    verb_routes(s, &t8, &litv("MATCH"), &mut out);
    let tv = vec![litv("Route::view")];
    proof {
        assert(views(tv@) =~= seq![lit("Route::view")]);
    }
    let view_pairs = scan_two_quoted(s, &tv, false);
    let mut k: usize = 0;
    while k < view_pairs.len()
        invariant
            0 <= k <= view_pairs@.len(),
            crate::facts::pair_views(view_pairs@) == scan_two_quoted_spec(
                s@,
                seq![lit("Route::view")],
                false,
            ),
            route_models(out@) =~= verb_list(s@, "Route::get", "GET") + verb_list(
                s@,
                "Route::post",
                "POST",
            ) + verb_list(s@, "Route::put", "PUT") + verb_list(s@, "Route::patch", "PATCH")
                + verb_list(s@, "Route::delete", "DELETE") + verb_list(
                s@,
                "Route::options",
                "OPTIONS",
            ) + verb_list(s@, "Route::any", "ANY") + verb_list(s@, "Route::match", "MATCH")
                + view_routes_spec(s@).take(k as int),
        decreases view_pairs@.len() - k,
    {
        let uri = slice_of(&view_pairs[k].0, 0, view_pairs[k].0.len());
        let view = slice_of(&view_pairs[k].1, 0, view_pairs[k].1.len());
        let rd = RouteDefinition {
            method: litv("GET"),
            uri,
            action: RouteAction::ViewTarget { view },
            name: None,
            middleware: Vec::new(),
            prefix: None,
        };
        let ghost pre = out@;
        out.push(rd);
        proof {
            lemma_route_models_push(pre, rd);
            assert(rd.uri@ =~= crate::facts::pair_views(view_pairs@)[k as int].0);
            assert((match rd.action {
                RouteAction::ViewTarget { view: v } => v@,
                _ => Seq::<u8>::empty(),
            }) =~= crate::facts::pair_views(view_pairs@)[k as int].1);
            assert(route_model(rd) =~= view_routes_spec(s@)[k as int]);
            assert(view_routes_spec(s@).take(k + 1) =~= view_routes_spec(s@).take(k as int).push(
                view_routes_spec(s@)[k as int],
            ));
        }
        k = k + 1;
    }
    proof {
        assert(view_routes_spec(s@).take(view_pairs@.len() as int) =~= view_routes_spec(s@));
    }
    let tr = vec![litv("Route::redirect")];
    proof {
        assert(views(tr@) =~= seq![lit("Route::redirect")]);
    }
    let redirect_pairs = scan_two_quoted(s, &tr, false);
    let ghost base = route_models(out@);
    let mut m: usize = 0;
    while m < redirect_pairs.len()
        invariant
            0 <= m <= redirect_pairs@.len(),
            crate::facts::pair_views(redirect_pairs@) == scan_two_quoted_spec(
                s@,
                seq![lit("Route::redirect")],
                false,
            ),
            base == route_models(out@).take(route_models(out@).len() - m),
            route_models(out@) =~= base + redirect_routes_spec(s@).take(m as int),
        decreases redirect_pairs@.len() - m,
    {
        let uri = slice_of(&redirect_pairs[m].0, 0, redirect_pairs[m].0.len());
        let to = slice_of(&redirect_pairs[m].1, 0, redirect_pairs[m].1.len());
        let rd = RouteDefinition {
            method: litv("GET"),
            uri,
            action: RouteAction::Redirect { to },
            name: None,
            middleware: Vec::new(),
            prefix: None,
        };
        let ghost pre = out@;
        out.push(rd);
        proof {
            lemma_route_models_push(pre, rd);
            assert(rd.uri@ =~= crate::facts::pair_views(redirect_pairs@)[m as int].0);
            assert((match rd.action {
                RouteAction::Redirect { to: v } => v@,
                _ => Seq::<u8>::empty(),
            }) =~= crate::facts::pair_views(redirect_pairs@)[m as int].1);
            assert(route_model(rd) =~= redirect_routes_spec(s@)[m as int]);
            assert(redirect_routes_spec(s@).take(m + 1) =~= redirect_routes_spec(s@).take(
                m as int,
            ).push(redirect_routes_spec(s@)[m as int]));
            assert(route_models(out@).take(route_models(out@).len() - (m + 1)) =~= base);
        }
        m = m + 1;
    }
    proof {
        assert(redirect_routes_spec(s@).take(redirect_pairs@.len() as int)
            =~= redirect_routes_spec(s@));
        assert(route_models(out@) =~= routes_spec(s@));
    }
    out
}

} // verus!

verus! {

// ---------------------------------------------------------------------------
// Resource routes, groups, inventories
// ---------------------------------------------------------------------------

/// The controller text of a resource registration, cleaned: `X::class`
/// becomes `X`, otherwise surrounding quotes are stripped.
pub open spec fn clean_controller(raw: Seq<u8>) -> Seq<u8> {
    let base = trim_ws(raw);
    if contains_seq(base, lit("::class")) {
        trim_ws(replace_all(base, lit("::class"), Seq::empty()))
    } else {
        strip_quotes(base)
    }
}

pub fn clean_controller_x(raw: &Vec<u8>) -> (r: Vec<u8>)
    ensures
        r@ == clean_controller(raw@),
{
    let base = trim_ws_x(raw);
    let class_kw = litv("::class");
    if contains_sub(&base, &class_kw) {
        let nothing: Vec<u8> = Vec::new();
        proof {
            assert(nothing@ =~= Seq::<u8>::empty());
        }
        let replaced = replace_all_x(&base, &class_kw, &nothing);
        trim_ws_x(&replaced)
    } else {
        strip_quotes_x(&base)
    }
}

/// The resource registrations of one keyword scan.
pub open spec fn resources_spec(s: Seq<u8>, kw: &str) -> Seq<(Seq<u8>, Seq<u8>)> {
    scan_quoted_raw_spec(s, seq![lit(kw)]).map_values(
        |p: (Seq<u8>, Seq<u8>)| (p.0, clean_controller(p.1)),
    )
}

fn extract_resources(s: &Vec<u8>, toks: &Vec<Vec<u8>>) -> (out: Vec<ResourceRoute>)
    ensures
        resource_models(out@) == scan_quoted_raw_spec(s@, views(toks@)).map_values(
            |p: (Seq<u8>, Seq<u8>)| (p.0, clean_controller(p.1)),
        ),
{
    let raws = scan_quoted_raw(s, toks);
    let mut out: Vec<ResourceRoute> = Vec::new();
    let mut k: usize = 0;
    while k < raws.len()
        invariant
            0 <= k <= raws@.len(),
            crate::facts::pair_views(raws@) == scan_quoted_raw_spec(s@, views(toks@)),
            resource_models(out@) =~= scan_quoted_raw_spec(s@, views(toks@)).map_values(
                |p: (Seq<u8>, Seq<u8>)| (p.0, clean_controller(p.1)),
            ).take(k as int),
        decreases raws@.len() - k,
    {
        let name = slice_of(&raws[k].0, 0, raws[k].0.len());
        let controller = clean_controller_x(&raws[k].1);
        let rr = ResourceRoute { name, controller };
        let ghost pre = out@;
        out.push(rr);
        proof {
            lemma_resource_models_push(pre, rr);
            assert(rr.name@ =~= crate::facts::pair_views(raws@)[k as int].0);
            assert(rr.controller@ =~= clean_controller(crate::facts::pair_views(raws@)[k as int].1));
            let total = scan_quoted_raw_spec(s@, views(toks@)).map_values(
                |p: (Seq<u8>, Seq<u8>)| (p.0, clean_controller(p.1)),
            );
            assert(total.take(k + 1) =~= total.take(k as int).push(total[k as int]));
        }
        k = k + 1;
    }
    proof {
        let total = scan_quoted_raw_spec(s@, views(toks@)).map_values(
            |p: (Seq<u8>, Seq<u8>)| (p.0, clean_controller(p.1)),
        );
        assert(total.take(raws@.len() as int) =~= total);
    }
    out
}

/// One `Route::group([...)` options capture at `i`, possibly empty.
pub open spec fn try_group(s: Seq<u8>, i: int) -> Option<(Seq<u8>, int)> {
    match crate::text::toks_end(s, seq![lit("Route::group")], 0, i) {
        Option::None => Option::None,
        Option::Some(e) => {
            let p = skip_ws(s, e);
            if 0 <= p && p < s.len() && s[p] == 40 {
                let q = skip_ws(s, p + 1);
                if q < s.len() && s[q] == 91 {
                    let c = find_byte(s, 93, q + 1);
                    if 0 <= c && c < s.len() {
                        Option::Some((s.subrange(q + 1, c), c + 1))
                    } else {
                        Option::None
                    }
                } else {
                    Option::None
                }
            } else {
                Option::None
            }
        },
    }
}

/// The group model its options text yields: the first quoted `prefix`,
/// `namespace` and `as` values, and the first `middleware` list (or single
/// value).
pub open spec fn group_of(options: Seq<u8>) -> GroupModel {
    GroupModel {
        prefix: first_single_kv(options, lit("prefix")),
        middleware: group_mw_of(options),
        namespace: first_single_kv(options, lit("namespace")),
        name_prefix: first_single_kv(options, lit("as")),
    }
}

/// The first single-valued (quoted) entry for a key.
pub open spec fn first_single_kv(options: Seq<u8>, key: Seq<u8>) -> Option<Seq<u8>> {
    first_single_in(scan_kv_spec(options, key), 0)
}

pub open spec fn first_single_in(entries: Seq<(bool, Seq<u8>)>, i: int) -> Option<Seq<u8>>
    decreases entries.len() - i,
{
    if i < 0 || i >= entries.len() {
        Option::None
    } else if !entries[i].0 {
        Option::Some(entries[i].1)
    } else {
        first_single_in(entries, i + 1)
    }
}

pub open spec fn first_list_in(entries: Seq<(bool, Seq<u8>)>, i: int) -> Option<Seq<u8>>
    decreases entries.len() - i,
{
    if i < 0 || i >= entries.len() {
        Option::None
    } else if entries[i].0 {
        Option::Some(entries[i].1)
    } else {
        first_list_in(entries, i + 1)
    }
}

/// A group's middleware: the first bracketed `middleware` entry split into
/// items, else the first single value.
pub open spec fn group_mw_of(options: Seq<u8>) -> Seq<Seq<u8>> {
    let entries = scan_kv_spec(options, lit("middleware"));
    match first_list_in(entries, 0) {
        Option::Some(items) => split_list(items),
        Option::None => match first_single_in(entries, 0) {
            Option::Some(v) => seq![v],
            Option::None => Seq::empty(),
        },
    }
}

fn first_single_kv_x(options: &Vec<u8>, key: &Vec<u8>) -> (r: Option<Vec<u8>>)
    ensures
        opt_view(r) == first_single_kv(options@, key@),
{
    let entries = scan_kv(options, key);
    let ghost ev = argviews(entries@);
    let mut k: usize = 0;
    while k < entries.len()
        invariant
            0 <= k <= entries@.len(),
            ev == argviews(entries@),
            ev == scan_kv_spec(options@, key@),
            first_single_in(ev, 0) == first_single_in(ev, k as int),
        decreases entries@.len() - k,
    {
        proof {
            assert(ev[k as int] == (entries@[k as int].0, entries@[k as int].1@));
        }
        if !entries[k].0 {
            let v = slice_of(&entries[k].1, 0, entries[k].1.len());
            proof {
                assert(v@ =~= ev[k as int].1);
            }
            return Some(v);
        }
        k = k + 1;
    }
    None
}

fn group_mw_x(options: &Vec<u8>) -> (r: Vec<Vec<u8>>)
    ensures
        views(r@) == group_mw_of(options@),
{
    let key = litv("middleware");
    let entries = scan_kv(options, &key);
    let ghost ev = argviews(entries@);
    let mut k: usize = 0;
    while k < entries.len()
        invariant
            0 <= k <= entries@.len(),
            ev == argviews(entries@),
            ev == scan_kv_spec(options@, lit("middleware")),
            first_list_in(ev, 0) == first_list_in(ev, k as int),
        decreases entries@.len() - k,
    {
        proof {
            assert(ev[k as int] == (entries@[k as int].0, entries@[k as int].1@));
        }
        if entries[k].0 {
            let items = split_list_x(&entries[k].1);
            proof {
                assert(views(items@) =~= group_mw_of(options@));
            }
            return items;
        }
        k = k + 1;
    }
    let mut m: usize = 0;
    while m < entries.len()
        invariant
            0 <= m <= entries@.len(),
            ev == argviews(entries@),
            ev == scan_kv_spec(options@, lit("middleware")),
            first_list_in(ev, 0) is None,
            first_single_in(ev, 0) == first_single_in(ev, m as int),
        decreases entries@.len() - m,
    {
        proof {
            assert(ev[m as int] == (entries@[m as int].0, entries@[m as int].1@));
        }
        if !entries[m].0 {
            let v = slice_of(&entries[m].1, 0, entries[m].1.len());
            let mut out: Vec<Vec<u8>> = Vec::new();
            out.push(v);
            proof {
                assert(v@ =~= ev[m as int].1);
                assert(views(out@) =~= group_mw_of(options@));
            }
            return out;
        }
        m = m + 1;
    }
    let out: Vec<Vec<u8>> = Vec::new();
    proof {
        assert(views(out@) =~= group_mw_of(options@));
    }
    out
}

/// All route groups, scanning left to right.
pub open spec fn groups_from(s: Seq<u8>, i: int) -> Seq<GroupModel>
    decreases s.len() - i,
{
    if i < 0 || i >= s.len() {
        Seq::empty()
    } else {
        match try_group(s, i) {
            Option::Some(r) => {
                let nxt = if r.1 <= i {
                    i + 1
                } else if r.1 > s.len() {
                    s.len() as int
                } else {
                    r.1
                };
                seq![group_of(r.0)] + groups_from(s, nxt)
            },
            Option::None => groups_from(s, i + 1),
        }
    }
}

pub open spec fn groups_spec(s: Seq<u8>) -> Seq<GroupModel> {
    groups_from(s, 0)
}

/// Extract every route group's options.
pub fn extract_route_groups(s: &Vec<u8>) -> (out: Vec<RouteGroup>)
    ensures
        group_models(out@) == groups_spec(s@),
{
    let toks = vec![litv("Route::group")];
    proof {
        assert(views(toks@) =~= seq![lit("Route::group")]);
    }
    let mut out: Vec<RouteGroup> = Vec::new();
    let mut i: usize = 0;
    while i < s.len()
        invariant
            0 <= i <= s.len(),
            views(toks@) == seq![lit("Route::group")],
            group_models(out@) + groups_from(s@, i as int) == groups_spec(s@),
        decreases s.len() - i,
    {
        let step: Option<(Vec<u8>, usize)> = match crate::text::toks_end_x(s, &toks, i) {
            Option::Some(e) => {
                let p = skip_ws_x(s, e);
                if p < s.len() && s[p] == 40 {
                    let q = skip_ws_x(s, p + 1);
                    if q < s.len() && s[q] == 91 {
                        let c = find_byte_x(s, 93, q + 1);
                        if c < s.len() {
                            Some((slice_of(s, q + 1, c), c + 1))
                        } else {
                            None
                        }
                    } else {
                        None
                    }
                } else {
                    None
                }
            },
            Option::None => None,
        };
        match step {
            Option::Some((options, end)) => {
                proof {
                    assert(try_group(s@, i as int) == Option::Some((options@, end as int)));
                }
                let prefix_kw = litv("prefix");
                let namespace_kw = litv("namespace");
                let as_kw = litv("as");
                let g = RouteGroup {
                    prefix: first_single_kv_x(&options, &prefix_kw),
                    middleware: group_mw_x(&options),
                    namespace: first_single_kv_x(&options, &namespace_kw),
                    name_prefix: first_single_kv_x(&options, &as_kw),
                };
                let ghost pre = out@;
                out.push(g);
                proof {
                    lemma_group_models_push(pre, g);
                    assert(group_model(g) =~= group_of(options@));
                    assert(group_models(out@) + groups_from(s@, end as int) =~= groups_spec(s@));
                }
                i = end;
            },
            Option::None => {
                proof {
                    assert(try_group(s@, i as int) is None);
                    assert(groups_from(s@, i as int) == groups_from(s@, i + 1));
                }
                i = i + 1;
            },
        }
    }
    proof {
        assert(groups_from(s@, s@.len() as int) =~= Seq::<GroupModel>::empty());
        assert(group_models(out@) =~= groups_spec(s@));
    }
    out
}

} // verus!

verus! {

// ---------------------------------------------------------------------------
// Referenced controllers and the middleware inventory
// ---------------------------------------------------------------------------

/// First upper-case byte position in `[a, b)`.
pub open spec fn first_upper_in(s: Seq<u8>, a: int, b: int) -> Option<int>
    decreases b - a,
{
    if a < 0 || a >= b || a >= s.len() {
        Option::None
    } else if is_upper(s[a]) {
        Option::Some(a)
    } else {
        first_upper_in(s, a + 1, b)
    }
}

/// `Name::class` around a `::class` occurrence at `i`: the capture starts at
/// the first upper-case byte of the identifier run ending at `i`, and needs
/// at least two characters.
pub open spec fn try_class_const(s: Seq<u8>, i: int) -> Option<Seq<u8>> {
    if matches_at(s, lit("::class"), i) {
        let rs = crate::pascal::ident_start(s, i);
        match first_upper_in(s, rs, i - 1) {
            Option::Some(p) => Option::Some(s.subrange(p, i)),
            Option::None => Option::None,
        }
    } else {
        Option::None
    }
}

pub open spec fn ctrl_names_from(s: Seq<u8>, i: int) -> Seq<Seq<u8>>
    decreases s.len() - i,
{
    if i < 0 || i >= s.len() {
        Seq::empty()
    } else {
        let rest = ctrl_names_from(s, i + 1);
        match try_ctrl_action(s, i) {
            Option::Some(p) => seq![p.0] + rest,
            Option::None => rest,
        }
    }
}

pub open spec fn str_names_from(s: Seq<u8>, i: int) -> Seq<Seq<u8>>
    decreases s.len() - i,
{
    if i < 0 || i >= s.len() {
        Seq::empty()
    } else {
        let rest = str_names_from(s, i + 1);
        match try_str_action(s, i) {
            Option::Some(p) => seq![p.0] + rest,
            Option::None => rest,
        }
    }
}

pub open spec fn class_const_ctrls_from(s: Seq<u8>, i: int) -> Seq<Seq<u8>>
    decreases s.len() - i,
{
    if i < 0 || i >= s.len() {
        Seq::empty()
    } else {
        let rest = class_const_ctrls_from(s, i + 1);
        match try_class_const(s, i) {
            Option::Some(name) => {
                if crate::text::ends_with(name, lit("Controller")) {
                    seq![name] + rest
                } else {
                    rest
                }
            },
            Option::None => rest,
        }
    }
}

/// The controllers a route file references: controller-class actions, legacy
/// string actions, and resource `X::class` mentions ending in `Controller`,
/// first occurrence kept.
pub open spec fn ctrl_refs_spec(s: Seq<u8>) -> Seq<Seq<u8>> {
    dedup(ctrl_names_from(s, 0) + str_names_from(s, 0) + class_const_ctrls_from(s, 0))
}

fn try_class_const_x(s: &Vec<u8>, i: usize) -> (r: Option<Vec<u8>>)
    requires
        i <= s.len(),
    ensures
        match r {
            Option::Some(v) => try_class_const(s@, i as int) == Option::Some(v@),
            Option::None => try_class_const(s@, i as int) is None,
        },
{
    let class_kw = litv("::class");
    if !match_at(s, &class_kw, i) {
        return None;
    }
    let rs = crate::pascal::ident_start_x(s, i);
    let mut a = rs;
    loop
        invariant
            rs <= a,
            a <= s.len(),
            i <= s.len(),
            matches_at(s@, lit("::class"), i as int),
            rs as int == crate::pascal::ident_start(s@, i as int),
            first_upper_in(s@, rs as int, i as int - 1) == first_upper_in(
                s@,
                a as int,
                i as int - 1,
            ),
        decreases s.len() + 1 - a,
    {
        if a >= s.len() || i == 0 || a >= i - 1 {
            proof {
                assert(first_upper_in(s@, a as int, i as int - 1) is None);
            }
            return None;
        }
        if upper(s[a]) {
            proof {
                assert(first_upper_in(s@, a as int, i as int - 1) == Option::Some(a as int));
            }
            return Some(slice_of(s, a, i));
        }
        a = a + 1;
    }
}

/// Extract referenced controllers, first occurrence kept.
pub fn extract_referenced_controllers(s: &Vec<u8>) -> (out: Vec<Vec<u8>>)
    ensures
        views(out@) == ctrl_refs_spec(s@),
{
    let mut out: Vec<Vec<u8>> = Vec::new();
    let ghost part1 = ctrl_names_from(s@, 0);
    let ghost part2 = str_names_from(s@, 0);
    let ghost part3 = class_const_ctrls_from(s@, 0);
    let mut i: usize = 0;
    while i < s.len()
        invariant
            0 <= i <= s.len(),
            part1 == ctrl_names_from(s@, 0),
            views(out@) == dedup(seqminus(part1, ctrl_names_from(s@, i as int))),
            ctrl_suffix_ok(part1, ctrl_names_from(s@, i as int)),
        decreases s.len() - i,
    {
        match try_ctrl_action_x(s, i) {
            Option::Some((c, _m)) => {
                let ghost acc = seqminus(part1, ctrl_names_from(s@, i as int));
                proof {
                    assert(ctrl_names_from(s@, i as int) =~= seq![c@] + ctrl_names_from(
                        s@,
                        i + 1,
                    ));
                    lemma_seqminus_step_pub(part1, ctrl_names_from(s@, i + 1), c@);
                    assert((acc.push(c@)).drop_last() =~= acc);
                }
                push_unique(&mut out, c);
            },
            Option::None => {
                proof {
                    assert(ctrl_names_from(s@, i as int) == ctrl_names_from(s@, i + 1));
                }
            },
        }
        i = i + 1;
    }
    proof {
        assert(ctrl_names_from(s@, s@.len() as int) =~= Seq::<Seq<u8>>::empty());
        assert(seqminus(part1, Seq::<Seq<u8>>::empty()) =~= part1);
    }
    let mut j: usize = 0;
    while j < s.len()
        invariant
            0 <= j <= s.len(),
            part1 == ctrl_names_from(s@, 0),
            part2 == str_names_from(s@, 0),
            views(out@) == dedup(part1 + seqminus(part2, str_names_from(s@, j as int))),
            ctrl_suffix_ok(part2, str_names_from(s@, j as int)),
        decreases s.len() - j,
    {
        match try_str_action_x(s, j) {
            Option::Some((c, _m)) => {
                let ghost acc = part1 + seqminus(part2, str_names_from(s@, j as int));
                proof {
                    assert(str_names_from(s@, j as int) =~= seq![c@] + str_names_from(s@, j + 1));
                    lemma_seqminus_step_pub(part2, str_names_from(s@, j + 1), c@);
                    assert(part1 + seqminus(part2, str_names_from(s@, j + 1)) =~= acc.push(c@));
                    assert((acc.push(c@)).drop_last() =~= acc);
                }
                push_unique(&mut out, c);
            },
            Option::None => {
                proof {
                    assert(str_names_from(s@, j as int) == str_names_from(s@, j + 1));
                }
            },
        }
        j = j + 1;
    }
    proof {
        assert(str_names_from(s@, s@.len() as int) =~= Seq::<Seq<u8>>::empty());
        assert(seqminus(part2, Seq::<Seq<u8>>::empty()) =~= part2);
    }
    let controller_suffix = litv("Controller");
    let mut m: usize = 0;
    while m < s.len()
        invariant
            0 <= m <= s.len(),
            part1 == ctrl_names_from(s@, 0),
            part2 == str_names_from(s@, 0),
            part3 == class_const_ctrls_from(s@, 0),
            controller_suffix@ == lit("Controller"),
            views(out@) == dedup(
                part1 + part2 + seqminus(part3, class_const_ctrls_from(s@, m as int)),
            ),
            ctrl_suffix_ok(part3, class_const_ctrls_from(s@, m as int)),
        decreases s.len() - m,
    {
        match try_class_const_x(s, m) {
            Option::Some(name) => {
                if crate::text::ends_with_x(&name, &controller_suffix) {
                    let ghost acc = part1 + part2 + seqminus(
                        part3,
                        class_const_ctrls_from(s@, m as int),
                    );
                    proof {
                        assert(class_const_ctrls_from(s@, m as int) =~= seq![name@]
                            + class_const_ctrls_from(s@, m + 1));
                        lemma_seqminus_step_pub(part3, class_const_ctrls_from(s@, m + 1), name@);
                        assert(part1 + part2 + seqminus(part3, class_const_ctrls_from(s@, m + 1))
                            =~= acc.push(name@));
                        assert((acc.push(name@)).drop_last() =~= acc);
                    }
                    push_unique(&mut out, name);
                } else {
                    proof {
                        assert(class_const_ctrls_from(s@, m as int) == class_const_ctrls_from(
                            s@,
                            m + 1,
                        ));
                    }
                }
            },
            Option::None => {
                proof {
                    assert(class_const_ctrls_from(s@, m as int) == class_const_ctrls_from(
                        s@,
                        m + 1,
                    ));
                }
            },
        }
        m = m + 1;
    }
    proof {
        assert(class_const_ctrls_from(s@, s@.len() as int) =~= Seq::<Seq<u8>>::empty());
        assert(seqminus(part3, Seq::<Seq<u8>>::empty()) =~= part3);
        assert(views(out@) =~= ctrl_refs_spec(s@));
    }
    out
}

/// The prefix of `total` that remains before the pending `suffix`.
pub open spec fn seqminus(total: Seq<Seq<u8>>, suffix: Seq<Seq<u8>>) -> Seq<Seq<u8>> {
    total.take(total.len() - suffix.len())
}

/// The pending suffix really is a suffix of the whole scan.
pub open spec fn ctrl_suffix_ok(total: Seq<Seq<u8>>, suffix: Seq<Seq<u8>>) -> bool {
    suffix.len() <= total.len() && total =~= seqminus(total, suffix) + suffix
}

pub proof fn lemma_seqminus_step_pub(total: Seq<Seq<u8>>, rest: Seq<Seq<u8>>, x: Seq<u8>)
    requires
        ctrl_suffix_ok(total, seq![x] + rest),
    ensures
        seqminus(total, rest) =~= seqminus(total, seq![x] + rest).push(x),
        ctrl_suffix_ok(total, rest),
{
    assert(total.len() - rest.len() == total.len() - (seq![x] + rest).len() + 1);
    assert forall|n: int| 0 <= n < total.len() - rest.len() implies #[trigger] seqminus(
        total,
        rest,
    )[n] == (seqminus(total, seq![x] + rest).push(x))[n] by {
        if n < total.len() - rest.len() - 1 {
        } else {
            assert(total[n] == (seqminus(total, seq![x] + rest) + (seq![x] + rest))[n]);
        }
    }
}

} // verus!

verus! {

// ---------------------------------------------------------------------------
// Middleware inventory, route type, the parser
// ---------------------------------------------------------------------------

/// The middleware names contributed by the first `k` `->middleware(...)`
/// captures: list entries split, single entries trimmed and kept if
/// non-empty.
pub open spec fn mw_args_pre(entries: Seq<(bool, Seq<u8>)>, k: int) -> Seq<Seq<u8>>
    decreases k,
{
    if k <= 0 || k > entries.len() {
        Seq::empty()
    } else {
        mw_args_pre(entries, k - 1) + (if entries[k - 1].0 {
            split_list(entries[k - 1].1)
        } else {
            if trim_ws(entries[k - 1].1).len() > 0 {
                seq![trim_ws(entries[k - 1].1)]
            } else {
                Seq::<Seq<u8>>::empty()
            }
        })
    }
}

/// The middleware names contributed by the first `k` `'middleware' => ...`
/// options: list entries split, single entries kept raw.
pub open spec fn mw_kv_pre(entries: Seq<(bool, Seq<u8>)>, k: int) -> Seq<Seq<u8>>
    decreases k,
{
    if k <= 0 || k > entries.len() {
        Seq::empty()
    } else {
        mw_kv_pre(entries, k - 1) + (if entries[k - 1].0 {
            split_list(entries[k - 1].1)
        } else {
            seq![entries[k - 1].1]
        })
    }
}

/// Every middleware name a route file mentions, first occurrence kept:
/// `->middleware(...)` calls, then group `'middleware' => ...` options.
pub open spec fn all_mw_spec(s: Seq<u8>) -> Seq<Seq<u8>> {
    let a = scan_arg_spec(s, seq![lit("->"), lit("middleware")], false);
    let k = scan_kv_spec(s, lit("middleware"));
    dedup(mw_args_pre(a, a.len() as int) + mw_kv_pre(k, k.len() as int))
}

/// Extract the file's full middleware inventory.
pub fn extract_all_middleware(s: &Vec<u8>) -> (out: Vec<Vec<u8>>)
    ensures
        views(out@) == all_mw_spec(s@),
{
    let mut out: Vec<Vec<u8>> = Vec::new();
    let mw_toks = vec![litv("->"), litv("middleware")];
    proof {
        assert(views(mw_toks@) =~= seq![lit("->"), lit("middleware")]);
    }
    let args = scan_arg(s, &mw_toks, false);
    let ghost av = argviews(args@);
    let mut k: usize = 0;
    while k < args.len()
        invariant
            0 <= k <= args@.len(),
            av == argviews(args@),
            av == scan_arg_spec(s@, seq![lit("->"), lit("middleware")], false),
            views(out@) == dedup(mw_args_pre(av, k as int)),
        decreases args@.len() - k,
    {
        proof {
            assert(av[k as int] == (args@[k as int].0, args@[k as int].1@));
        }
        if args[k].0 {
            let items = split_list_x(&args[k].1);
            let ghost itemsv = views(items@);
            let mut j: usize = 0;
            while j < items.len()
                invariant
                    0 <= j <= items@.len(),
                    itemsv == views(items@),
                    0 <= k < args@.len(),
                    av == argviews(args@),
                    itemsv == split_list(av[k as int].1),
                    av[k as int].0,
                    views(out@) == dedup(mw_args_pre(av, k as int) + itemsv.take(j as int)),
                decreases items@.len() - j,
            {
                let x = slice_of(&items[j], 0, items[j].len());
                proof {
                    assert(x@ =~= itemsv[j as int]);
                    let acc = mw_args_pre(av, k as int) + itemsv.take(j as int);
                    assert((acc.push(x@)).drop_last() =~= acc);
                    assert(acc.push(x@) =~= mw_args_pre(av, k as int) + itemsv.take(j + 1));
                }
                push_unique(&mut out, x);
                j = j + 1;
            }
            proof {
                assert(itemsv.take(items@.len() as int) =~= itemsv);
                assert(mw_args_pre(av, k as int) + itemsv =~= mw_args_pre(av, k + 1));
            }
        } else {
            let t = trim_ws_x(&args[k].1);
            if t.len() > 0 {
                proof {
                    let acc = mw_args_pre(av, k as int);
                    assert((acc.push(t@)).drop_last() =~= acc);
                    assert(acc.push(t@) =~= mw_args_pre(av, k + 1));
                }
                push_unique(&mut out, t);
            } else {
                proof {
                    assert(mw_args_pre(av, k as int) =~= mw_args_pre(av, k + 1));
                }
            }
        }
        k = k + 1;
    }
    let mw_key = litv("middleware");
    let kvs = scan_kv(s, &mw_key);
    let ghost kv = argviews(kvs@);
    let ghost base = mw_args_pre(av, av.len() as int);
    let mut m: usize = 0;
    while m < kvs.len()
        invariant
            0 <= m <= kvs@.len(),
            kv == argviews(kvs@),
            kv == scan_kv_spec(s@, lit("middleware")),
            base == mw_args_pre(av, av.len() as int),
            av == argviews(args@),
            av == scan_arg_spec(s@, seq![lit("->"), lit("middleware")], false),
            views(out@) == dedup(base + mw_kv_pre(kv, m as int)),
        decreases kvs@.len() - m,
    {
        proof {
            assert(kv[m as int] == (kvs@[m as int].0, kvs@[m as int].1@));
        }
        if kvs[m].0 {
            let items = split_list_x(&kvs[m].1);
            let ghost itemsv = views(items@);
            let mut j: usize = 0;
            while j < items.len()
                invariant
                    0 <= j <= items@.len(),
                    itemsv == views(items@),
                    0 <= m < kvs@.len(),
                    kv == argviews(kvs@),
                    itemsv == split_list(kv[m as int].1),
                    kv[m as int].0,
                    base == mw_args_pre(av, av.len() as int),
                    av == argviews(args@),
                    av == scan_arg_spec(s@, seq![lit("->"), lit("middleware")], false),
                    kv == scan_kv_spec(s@, lit("middleware")),
                    views(out@) == dedup(base + mw_kv_pre(kv, m as int) + itemsv.take(j as int)),
                decreases items@.len() - j,
            {
                let x = slice_of(&items[j], 0, items[j].len());
                proof {
                    assert(x@ =~= itemsv[j as int]);
                    let acc = base + mw_kv_pre(kv, m as int) + itemsv.take(j as int);
                    assert((acc.push(x@)).drop_last() =~= acc);
                    assert(acc.push(x@) =~= base + mw_kv_pre(kv, m as int) + itemsv.take(j + 1));
                }
                push_unique(&mut out, x);
                j = j + 1;
            }
            proof {
                assert(itemsv.take(items@.len() as int) =~= itemsv);
                assert(base + mw_kv_pre(kv, m as int) + itemsv =~= base + mw_kv_pre(kv, m + 1));
            }
        } else {
            let x = slice_of(&kvs[m].1, 0, kvs[m].1.len());
            proof {
                assert(x@ =~= kv[m as int].1);
                let acc = base + mw_kv_pre(kv, m as int);
                assert((acc.push(x@)).drop_last() =~= acc);
                assert(acc.push(x@) =~= base + mw_kv_pre(kv, m + 1));
            }
            push_unique(&mut out, x);
        }
        m = m + 1;
    }
    proof {
        assert(views(out@) =~= all_mw_spec(s@));
    }
    out
}

/// Which route file this is, by exact file name.
pub open spec fn route_type_spec(name: Seq<u8>) -> Seq<u8> {
    if name == lit("web.php") {
        lit("web")
    } else if name == lit("api.php") {
        lit("api")
    } else if name == lit("channels.php") {
        lit("channels")
    } else if name == lit("console.php") {
        lit("console")
    } else {
        lit("custom")
    }
}

/// Parser for Laravel route files.
pub struct RouteParser;

impl RouteParser {
    pub fn new() -> (r: Self) {
        RouteParser
    }

    /// Parse a route file: the route battery plus import dependencies and
    /// the route-file symbol.
    pub fn parse(&self, file: &SourceFile, content: &Vec<u8>) -> (r: ParsedFile)
        ensures
            sf_model(r.source) == sf_model(*file),
            dep_models(r.dependencies@) == php_use_deps(content@),
            r.symbols@.len() == 1,
            sym_models(r.symbols@)[0].name == file.name@,
            sym_models(r.symbols@)[0].qualified_name == lit("routes/") + file.name@,
            sym_models(r.symbols@)[0].symbol_type == SymbolType::Unit,
            (match r.facts {
                FileFacts::Route(f) => {
                    &&& f.route_type@ == route_type_spec(file.name@)
                    &&& route_models(f.routes@) == routes_spec(content@)
                    &&& resource_models(f.resource_routes@) == resources_spec(
                        content@,
                        "Route::resource",
                    )
                    &&& resource_models(f.api_resource_routes@) == resources_spec(
                        content@,
                        "Route::apiResource",
                    )
                    &&& group_models(f.route_groups@) == groups_spec(content@)
                    &&& views(f.controllers_referenced@) == ctrl_refs_spec(content@)
                    &&& views(f.middlewares_used@) == all_mw_spec(content@)
                },
                _ => false,
            }),
            r.warnings@.len() == 0,
    {
        let mut parsed = ParsedFile::new(file.duplicate());
        let helper = PhpParser::new();
        helper.extract_use_statements(content, &mut parsed);
        let web_name = litv("web.php");
        let api_name = litv("api.php");
        let channels_name = litv("channels.php");
        let console_name = litv("console.php");
        let route_type = if bytes_eq(&file.name, &web_name) {
            litv("web")
        } else if bytes_eq(&file.name, &api_name) {
            litv("api")
        } else if bytes_eq(&file.name, &channels_name) {
            litv("channels")
        } else if bytes_eq(&file.name, &console_name) {
            litv("console")
        } else {
            litv("custom")
        };
        let routes = extract_routes(content);
        let resource_toks = vec![litv("Route::resource")];
        proof {
            assert(views(resource_toks@) =~= seq![lit("Route::resource")]);
        }
        let resource_routes = extract_resources(content, &resource_toks);
        let api_toks = vec![litv("Route::apiResource")];
        proof {
            assert(views(api_toks@) =~= seq![lit("Route::apiResource")]);
        }
        let api_resource_routes = extract_resources(content, &api_toks);
        let route_groups = extract_route_groups(content);
        let controllers_referenced = extract_referenced_controllers(content);
        let middlewares_used = extract_all_middleware(content);
        parsed.facts = FileFacts::Route(
            RouteFacts {
                route_type,
                routes,
                resource_routes,
                api_resource_routes,
                route_groups,
                controllers_referenced,
                middlewares_used,
            },
        );
        let name = slice_of(&file.name, 0, file.name.len());
        let prefix = litv("routes/");
        let qualified = concat(&prefix, &file.name);
        let sym = Symbol {
            name,
            qualified_name: qualified,
            symbol_type: SymbolType::Unit,
            visibility: Some(litv("public")),
            is_abstract: None,
            is_static: None,
            extends: None,
            implements: None,
            line_start: None,
            line_end: None,
        };
        let ghost pre = parsed.symbols@;
        parsed.add_symbol(sym);
        proof {
            crate::facts::lemma_sym_models_push(pre, sym);
            assert(sym.name@ =~= file.name@);
            assert(dep_models(parsed.dependencies@) =~= php_use_deps(content@));
        }
        parsed
    }
}

} // verus!
