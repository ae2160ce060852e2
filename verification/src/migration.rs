//! Laravel migration extraction: the migration class, the filename
//! timestamp, `up`/`down` bodies, schema operations, typed columns with
//! modifiers and defaults, foreign keys (explicit and `constrained`
//! shorthand), indexes, and the common shorthand flags.

use vstd::prelude::*;
use crate::facts::SchemaOp;
use crate::facts::SchemaOpModel;
use crate::facts::lemma_schema_op_models_push;
use crate::facts::schema_op_models;
use crate::php::class_line_spec;
use crate::text::argviews;
use crate::text::find_sub;
use crate::text::find_sub_x;
use crate::text::ident_end;
use crate::text::ident_end_x;
use crate::text::is_space;
use crate::text::lit;
use crate::text::litv;
use crate::text::match_at;
use crate::text::matches_at;
use crate::text::scan_arg;
use crate::text::scan_arg_spec;
use crate::text::scan_two_quoted;
use crate::text::scan_two_quoted_spec;
use crate::text::skip_ws;
use crate::text::skip_ws_x;
use crate::text::slice_of;
use crate::text::space;
use crate::text::starts_with;
use crate::text::views;

verus! {

// ---------------------------------------------------------------------------
// Class name and timestamp
// ---------------------------------------------------------------------------

/// The migration class name: the first class whose parent starts with
/// `Migration`.
pub open spec fn migration_class(ls: Seq<Seq<u8>>, i: int) -> Option<Seq<u8>>
    decreases ls.len() - i,
{
    if i < 0 || i >= ls.len() {
        Option::None
    } else {
        match class_line_spec(ls[i], false) {
            Option::Some(c) => {
                match c.2 {
                    Option::Some(parent) => {
                        if starts_with(parent, lit("Migration")) {
                            Option::Some(c.0)
                        } else {
                            migration_class(ls, i + 1)
                        }
                    },
                    Option::None => migration_class(ls, i + 1),
                }
            },
            Option::None => migration_class(ls, i + 1),
        }
    }
}

/// A digit byte.
pub open spec fn is_digit(c: u8) -> bool {
    48 <= c && c <= 57
}

/// All bytes in `s[a..b)` are digits (and the range is within bounds).
pub open spec fn all_digits(s: Seq<u8>, a: int, b: int) -> bool {
    0 <= a && b <= s.len() && forall|j: int| a <= j < b ==> is_digit(#[trigger] s[j])
}

/// The `YYYY_MM_DD_HHMMSS` timestamp prefix of a migration file name.
pub open spec fn migration_ts(name: Seq<u8>) -> Option<Seq<u8>> {
    if name.len() >= 17 && all_digits(name, 0, 4) && name[4] == 95 && all_digits(name, 5, 7)
        && name[7] == 95 && all_digits(name, 8, 10) && name[10] == 95 && all_digits(name, 11, 17) {
        Option::Some(name.subrange(0, 17))
    } else {
        Option::None
    }
}

fn all_digits_x(s: &Vec<u8>, a: usize, b: usize) -> (r: bool)
    requires
        a <= b <= s.len(),
    ensures
        r == all_digits(s@, a as int, b as int),
{
    let mut j: usize = a;
    while j < b
        invariant
            a <= j <= b <= s.len(),
            forall|m: int| a <= m < j ==> is_digit(#[trigger] s@[m]),
        decreases b - j,
    {
        if !(48 <= s[j] && s[j] <= 57) {
            return false;
        }
        j = j + 1;
    }
    true
}

pub fn extract_migration_timestamp(name: &Vec<u8>) -> (r: Option<Vec<u8>>)
    ensures
        crate::text::opt_view_txt(r) == migration_ts(name@),
{
    if name.len() >= 17 && all_digits_x(name, 0, 4) && name[4] == 95 && all_digits_x(name, 5, 7)
        && name[7] == 95 && all_digits_x(name, 8, 10) && name[10] == 95 && all_digits_x(
        name,
        11,
        17,
    ) {
        Some(slice_of(name, 0, 17))
    } else {
        None
    }
}

// ---------------------------------------------------------------------------
// up()/down() bodies
// ---------------------------------------------------------------------------

/// `public function <which>() [: void] {` at `i`: the body runs from after
/// the brace to the first line-closing `}` indented by exactly four spaces.
pub open spec fn try_updown(s: Seq<u8>, which: Seq<u8>, i: int) -> Option<Seq<u8>> {
    if matches_at(s, lit("public"), i) && i + 6 < s.len() && is_space(s[i + 6]) {
        let j = skip_ws(s, i + 6);
        if matches_at(s, lit("function"), j) && j + 8 < s.len() && is_space(s[j + 8]) {
            let k = skip_ws(s, j + 8);
            let e = ident_end(s, k);
            if e > k && s.subrange(k, e) == which {
                let t = skip_ws(s, e);
                if t < s.len() && s[t] == 40 {
                    let u = skip_ws(s, t + 1);
                    if u < s.len() && s[u] == 41 {
                        let v0 = skip_ws(s, u + 1);
                        let v = if v0 < s.len() && s[v0] == 58 {
                            let w = skip_ws(s, v0 + 1);
                            if matches_at(s, lit("void"), w) {
                                skip_ws(s, if w + 4 > s.len() {
                                    s.len() as int
                                } else {
                                    w + 4
                                })
                            } else {
                                v0
                            }
                        } else {
                            v0
                        };
                        if v < s.len() && s[v] == 123 {
                            let b = find_sub(s, lit("\n    }"), v + 1);
                            if 0 <= b && b < s.len() {
                                Option::Some(s.subrange(v + 1, b))
                            } else {
                                Option::None
                            }
                        } else {
                            Option::None
                        }
                    } else {
                        Option::None
                    }
                } else {
                    Option::None
                }
            } else {
                Option::None
            }
        } else {
            Option::None
        }
    } else {
        Option::None
    }
}

pub open spec fn first_updown(s: Seq<u8>, which: Seq<u8>, i: int) -> Option<Seq<u8>>
    decreases s.len() - i,
{
    if i < 0 || i >= s.len() {
        Option::None
    } else {
        match try_updown(s, which, i) {
            Option::Some(b) => Option::Some(b),
            Option::None => first_updown(s, which, i + 1),
        }
    }
}

pub fn extract_updown(s: &Vec<u8>, which: &Vec<u8>) -> (r: Option<Vec<u8>>)
    ensures
        crate::text::opt_view_txt(r) == first_updown(s@, which@, 0),
{
    let public_kw = litv("public");
    let function_kw = litv("function");
    let void_kw = litv("void");
    let term = litv("\n    }");
    let mut i: usize = 0;
    while i < s.len()
        invariant
            0 <= i <= s.len(),
            public_kw@ == lit("public"),
            function_kw@ == lit("function"),
            void_kw@ == lit("void"),
            term@ == lit("\n    }"),
            first_updown(s@, which@, 0) == first_updown(s@, which@, i as int),
        decreases s.len() - i,
    {
        if match_at(s, &public_kw, i) && s.len() - i > 6 && space(s[i + 6]) {
            let j = skip_ws_x(s, i + 6);
            if match_at(s, &function_kw, j) && s.len() - j > 8 && space(s[j + 8]) {
                let k = skip_ws_x(s, j + 8);
                let e = ident_end_x(s, k);
                let w0 = slice_of(s, k, e);
                if e > k && crate::text::bytes_eq(&w0, which) {
                    let t = skip_ws_x(s, e);
                    if t < s.len() && s[t] == 40 {
                        let u = skip_ws_x(s, t + 1);
                        if u < s.len() && s[u] == 41 {
                            let v0 = skip_ws_x(s, u + 1);
                            let v = if v0 < s.len() && s[v0] == 58 {
                                let w = skip_ws_x(s, v0 + 1);
                                if match_at(s, &void_kw, w) {
                                    skip_ws_x(s, if s.len() - w > 4 {
                                        w + 4
                                    } else {
                                        s.len()
                                    })
                                } else {
                                    v0
                                }
                            } else {
                                v0
                            };
                            if v < s.len() && s[v] == 123 {
                                let b = find_sub_x(s, &term, v + 1);
                                if b < s.len() {
                                    proof {
                                        assert(try_updown(s@, which@, i as int) == Option::Some(
                                            s@.subrange(v as int + 1, b as int),
                                        ));
                                    }
                                    return Some(slice_of(s, v + 1, b));
                                }
                            }
                        }
                    }
                }
            }
        }
        proof {
            assert(try_updown(s@, which@, i as int) is None);
        }
        i = i + 1;
    }
    None
}

// ---------------------------------------------------------------------------
// Schema operations
// ---------------------------------------------------------------------------

/// The single-identifier quoted arguments of a keyword scan.
pub open spec fn ident_args(s: Seq<u8>, kw: &str) -> Seq<Seq<u8>> {
    singles_of(scan_arg_spec(s, seq![lit(kw)], true), 0)
}

pub open spec fn singles_of(entries: Seq<(bool, Seq<u8>)>, i: int) -> Seq<Seq<u8>>
    decreases entries.len() - i,
{
    if i < 0 || i >= entries.len() {
        Seq::empty()
    } else {
        let rest = singles_of(entries, i + 1);
        if !entries[i].0 {
            seq![entries[i].1] + rest
        } else {
            rest
        }
    }
}

pub fn ident_args_x(s: &Vec<u8>, toks: &Vec<Vec<u8>>) -> (out: Vec<Vec<u8>>)
    ensures
        views(out@) == singles_of(scan_arg_spec(s@, views(toks@), true), 0),
{
    let entries = scan_arg(s, toks, true);
    let ghost ev = argviews(entries@);
    let mut out: Vec<Vec<u8>> = Vec::new();
    let mut k: usize = 0;
    while k < entries.len()
        invariant
            0 <= k <= entries@.len(),
            ev == argviews(entries@),
            ev == scan_arg_spec(s@, views(toks@), true),
            views(out@) + singles_of(ev, k as int) == singles_of(ev, 0),
        decreases entries@.len() - k,
    {
        proof {
            assert(ev[k as int] == (entries@[k as int].0, entries@[k as int].1@));
        }
        if !entries[k].0 {
            let x = slice_of(&entries[k].1, 0, entries[k].1.len());
            let ghost pre = out@;
            out.push(x);
            proof {
                crate::text::lemma_views_push(pre, x);
                assert(x@ =~= ev[k as int].1);
                assert(views(out@) + singles_of(ev, k + 1) =~= singles_of(ev, 0));
            }
        } else {
            proof {
                assert(singles_of(ev, k as int) == singles_of(ev, k + 1));
            }
        }
        k = k + 1;
    }
    proof {
        assert(singles_of(ev, entries@.len() as int) =~= Seq::<Seq<u8>>::empty());
        assert(views(out@) =~= singles_of(ev, 0));
    }
    out
}

/// The schema operations of a method body: creates, then modifies, then
/// drops (both spellings), then renames.
pub open spec fn ops_spec(s: Seq<u8>) -> Seq<SchemaOpModel> {
    ident_args(s, "Schema::create").map_values(|t: Seq<u8>| SchemaOpModel::Create { table: t })
        + ident_args(s, "Schema::table").map_values(
        |t: Seq<u8>| SchemaOpModel::Modify { table: t },
    ) + ident_args(s, "Schema::dropIfExists").map_values(
        |t: Seq<u8>| SchemaOpModel::Drop { table: t },
    ) + ident_args(s, "Schema::drop").map_values(|t: Seq<u8>| SchemaOpModel::Drop { table: t })
        + scan_two_quoted_spec(s, seq![lit("Schema::rename")], true).map_values(
        |p: (Seq<u8>, Seq<u8>)| SchemaOpModel::Rename { from: p.0, to: p.1 },
    )
}

fn push_ops(names: &Vec<Vec<u8>>, kind: u8, out: &mut Vec<SchemaOp>)
    requires
        kind == 0 || kind == 1 || kind == 2,
    ensures
        schema_op_models(final(out)@) == schema_op_models(old(out)@) + views(names@).map_values(
            |t: Seq<u8>|
                if kind == 0 {
                    SchemaOpModel::Create { table: t }
                } else if kind == 1 {
                    SchemaOpModel::Modify { table: t }
                } else {
                    SchemaOpModel::Drop { table: t }
                },
        ),
{
    let ghost target = views(names@).map_values(
        |t: Seq<u8>|
            if kind == 0 {
                SchemaOpModel::Create { table: t }
            } else if kind == 1 {
                SchemaOpModel::Modify { table: t }
            } else {
                SchemaOpModel::Drop { table: t }
            },
    );
    let mut k: usize = 0;
    while k < names.len()
        invariant
            0 <= k <= names@.len(),
            kind == 0 || kind == 1 || kind == 2,
            target == views(names@).map_values(
                |t: Seq<u8>|
                    if kind == 0 {
                        SchemaOpModel::Create { table: t }
                    } else if kind == 1 {
                        SchemaOpModel::Modify { table: t }
                    } else {
                        SchemaOpModel::Drop { table: t }
                    },
            ),
            schema_op_models(out@) == schema_op_models(old(out)@) + target.take(k as int),
        decreases names@.len() - k,
    {
        let t = slice_of(&names[k], 0, names[k].len());
        let op = if kind == 0 {
            SchemaOp::Create { table: t }
        } else if kind == 1 {
            SchemaOp::Modify { table: t }
        } else {
            SchemaOp::Drop { table: t }
        };
        let ghost pre = out@;
        out.push(op);
        proof {
            lemma_schema_op_models_push(pre, op);
            assert(t@ =~= views(names@)[k as int]);
            assert(crate::facts::schema_op_model(op) =~= target[k as int]);
            assert(schema_op_models(out@) =~= schema_op_models(old(out)@) + target.take(k + 1));
        }
        k = k + 1;
    }
    proof {
        assert(target.take(names@.len() as int) =~= target);
    }
}

/// Extract the schema operations of a method body.
pub fn parse_schema_operations(s: &Vec<u8>) -> (out: Vec<SchemaOp>)
    ensures
        schema_op_models(out@) == ops_spec(s@),
{
    let mut out: Vec<SchemaOp> = Vec::new();
    let create_toks = vec![litv("Schema::create")];
    proof {
        assert(views(create_toks@) =~= seq![lit("Schema::create")]);
    }
    let creates = ident_args_x(s, &create_toks);
    push_ops(&creates, 0, &mut out);
    let table_toks = vec![litv("Schema::table")];
    proof {
        assert(views(table_toks@) =~= seq![lit("Schema::table")]);
    }
    let modifies = ident_args_x(s, &table_toks);
    push_ops(&modifies, 1, &mut out);
    let dropif_toks = vec![litv("Schema::dropIfExists")];
    proof {
        assert(views(dropif_toks@) =~= seq![lit("Schema::dropIfExists")]);
    }
    let dropifs = ident_args_x(s, &dropif_toks);
    push_ops(&dropifs, 2, &mut out);
    let drop_toks = vec![litv("Schema::drop")];
    proof {
        assert(views(drop_toks@) =~= seq![lit("Schema::drop")]);
    }
    let drops = ident_args_x(s, &drop_toks);
    push_ops(&drops, 2, &mut out);
    let rename_toks = vec![litv("Schema::rename")];
    proof {
        assert(views(rename_toks@) =~= seq![lit("Schema::rename")]);
    }
    let renames = scan_two_quoted(s, &rename_toks, true);
    let ghost rv = crate::facts::pair_views(renames@);
    let ghost renames_target = rv.map_values(
        |p: (Seq<u8>, Seq<u8>)| SchemaOpModel::Rename { from: p.0, to: p.1 },
    );
    let ghost base = schema_op_models(out@);
    let mut k: usize = 0;
    while k < renames.len()
        invariant
            0 <= k <= renames@.len(),
            rv == crate::facts::pair_views(renames@),
            renames_target == rv.map_values(
                |p: (Seq<u8>, Seq<u8>)| SchemaOpModel::Rename { from: p.0, to: p.1 },
            ),
            schema_op_models(out@) == base + renames_target.take(k as int),
        decreases renames@.len() - k,
    {
        let from = slice_of(&renames[k].0, 0, renames[k].0.len());
        let to = slice_of(&renames[k].1, 0, renames[k].1.len());
        let op = SchemaOp::Rename { from, to };
        let ghost pre = out@;
        out.push(op);
        proof {
            lemma_schema_op_models_push(pre, op);
            assert(rv[k as int] == (renames@[k as int].0@, renames@[k as int].1@));
            assert(crate::facts::schema_op_model(op) =~= renames_target[k as int]);
            assert(schema_op_models(out@) =~= base + renames_target.take(k + 1));
        }
        k = k + 1;
    }
    proof {
        assert(renames_target.take(renames@.len() as int) =~= renames_target);
        assert(schema_op_models(out@) =~= ops_spec(s@));
    }
    out
}

} // verus!

verus! {

use crate::facts::ColumnFact;
use crate::facts::ColumnModel;
use crate::facts::ForeignKeyFact;
use crate::facts::ForeignKeyModel;
use crate::facts::IndexFact;
use crate::facts::column_model;
use crate::facts::column_models;
use crate::facts::fk_model;
use crate::facts::fk_models;
use crate::facts::index_models;
use crate::facts::lemma_column_models_push;
use crate::facts::lemma_fk_models_push;
use crate::facts::lemma_index_models_push;
use crate::text::contains_seq;
use crate::text::contains_sub;
use crate::text::find_byte;
use crate::text::find_byte_x;
use crate::text::has_call;
use crate::text::has_call_x;
use crate::text::is_quote;
use crate::text::quoted_at;
use crate::text::quoted_at_x;
use crate::text::scan_call_raw;
use crate::text::scan_call_raw_spec;
use crate::text::trim_ws;
use crate::text::trim_ws_x;
use crate::text::ends_with;
use crate::text::ends_with_x;
use crate::text::concat;

// ---------------------------------------------------------------------------
// Columns
// ---------------------------------------------------------------------------

pub open spec fn col_words_a() -> Seq<Seq<u8>> {
    seq![
        lit("bigIncrements"), lit("bigInteger"), lit("binary"), lit("boolean"), lit("char"),
        lit("dateTimeTz"), lit("dateTime"), lit("date"), lit("decimal"), lit("double"),
        lit("enum"), lit("float"), lit("foreignIdFor"), lit("foreignId"), lit("foreignUlid"),
        lit("foreignUuid"),
    ]
}

pub open spec fn col_words_b() -> Seq<Seq<u8>> {
    seq![
        lit("geometry"), lit("id"), lit("increments"), lit("integer"), lit("ipAddress"),
        lit("jsonb"), lit("json"), lit("longText"), lit("macAddress"), lit("mediumIncrements"),
        lit("mediumInteger"), lit("mediumText"), lit("morphs"), lit("nullableMorphs"),
        lit("nullableTimestamps"), lit("nullableUlidMorphs"),
    ]
}

pub open spec fn col_words_c() -> Seq<Seq<u8>> {
    seq![
        lit("nullableUuidMorphs"), lit("point"), lit("polygon"), lit("rememberToken"), lit("set"),
        lit("smallIncrements"), lit("smallInteger"), lit("softDeletesTz"), lit("softDeletes"),
        lit("string"), lit("text"), lit("timeTz"), lit("time"), lit("timestampTz"),
        lit("timestamp"), lit("timestampsTz"),
    ]
}

pub open spec fn col_words_d() -> Seq<Seq<u8>> {
    seq![
        lit("timestamps"), lit("tinyIncrements"), lit("tinyInteger"), lit("tinyText"),
        lit("unsignedBigInteger"), lit("unsignedDecimal"), lit("unsignedInteger"),
        lit("unsignedMediumInteger"), lit("unsignedSmallInteger"), lit("unsignedTinyInteger"),
        lit("ulidMorphs"), lit("uuidMorphs"), lit("uuid"), lit("year"),
    ]
}

/// The recognized column-type words.
#[verifier::opaque]
pub open spec fn col_type_words() -> Seq<Seq<u8>> {
    col_words_a() + col_words_b() + col_words_c() + col_words_d()
}

/// A column method name is valid when it holds one of the recognized type
/// words.
#[verifier::opaque]
pub open spec fn is_col_type(w: Seq<u8>) -> bool {
    exists|j: int| 0 <= j < col_type_words().len() && contains_seq(w, #[trigger] col_type_words()[j])
}

#[verifier::rlimit(100)]
#[verifier::spinoff_prover]
fn col_type_words_x() -> (r: Vec<Vec<u8>>)
    ensures
        views(r@) == col_type_words(),
{
    let mut r: Vec<Vec<u8>> = Vec::new();
    r.push(litv("bigIncrements"));
    r.push(litv("bigInteger"));
    r.push(litv("binary"));
    r.push(litv("boolean"));
    r.push(litv("char"));
    r.push(litv("dateTimeTz"));
    r.push(litv("dateTime"));
    r.push(litv("date"));
    r.push(litv("decimal"));
    r.push(litv("double"));
    r.push(litv("enum"));
    r.push(litv("float"));
    r.push(litv("foreignIdFor"));
    r.push(litv("foreignId"));
    r.push(litv("foreignUlid"));
    r.push(litv("foreignUuid"));
    r.push(litv("geometry"));
    r.push(litv("id"));
    r.push(litv("increments"));
    r.push(litv("integer"));
    r.push(litv("ipAddress"));
    r.push(litv("jsonb"));
    r.push(litv("json"));
    r.push(litv("longText"));
    r.push(litv("macAddress"));
    r.push(litv("mediumIncrements"));
    r.push(litv("mediumInteger"));
    r.push(litv("mediumText"));
    r.push(litv("morphs"));
    r.push(litv("nullableMorphs"));
    r.push(litv("nullableTimestamps"));
    r.push(litv("nullableUlidMorphs"));
    r.push(litv("nullableUuidMorphs"));
    r.push(litv("point"));
    r.push(litv("polygon"));
    r.push(litv("rememberToken"));
    r.push(litv("set"));
    r.push(litv("smallIncrements"));
    r.push(litv("smallInteger"));
    r.push(litv("softDeletesTz"));
    r.push(litv("softDeletes"));
    r.push(litv("string"));
    r.push(litv("text"));
    r.push(litv("timeTz"));
    r.push(litv("time"));
    r.push(litv("timestampTz"));
    r.push(litv("timestamp"));
    r.push(litv("timestampsTz"));
    r.push(litv("timestamps"));
    r.push(litv("tinyIncrements"));
    r.push(litv("tinyInteger"));
    r.push(litv("tinyText"));
    r.push(litv("unsignedBigInteger"));
    r.push(litv("unsignedDecimal"));
    r.push(litv("unsignedInteger"));
    r.push(litv("unsignedMediumInteger"));
    r.push(litv("unsignedSmallInteger"));
    r.push(litv("unsignedTinyInteger"));
    r.push(litv("ulidMorphs"));
    r.push(litv("uuidMorphs"));
    r.push(litv("uuid"));
    r.push(litv("year"));
    proof {
        reveal(col_type_words);
        assert(views(r@) =~= col_type_words());
    }
    r
}

pub fn is_col_type_x(w: &Vec<u8>) -> (r: bool)
    ensures
        r == is_col_type(w@),
{
    let words = col_type_words_x();
    let mut j: usize = 0;
    while j < words.len()
        invariant
            0 <= j <= words@.len(),
            views(words@) == col_type_words(),
            forall|m: int| 0 <= m < j ==> !contains_seq(w@, #[trigger] col_type_words()[m]),
        decreases words@.len() - j,
    {
        if contains_sub(w, &words[j]) {
            proof {
                reveal(is_col_type);
                assert(views(words@)[j as int] == words@[j as int]@);
                assert(contains_seq(w@, col_type_words()[j as int]));
            }
            return true;
        }
        proof {
            assert(views(words@)[j as int] == words@[j as int]@);
        }
        j = j + 1;
    }
    proof {
        reveal(is_col_type);
    }
    false
}

/// A `$table->method('name'` occurrence at `i`.
pub open spec fn try_column(s: Seq<u8>, i: int) -> Option<(Seq<u8>, Seq<u8>, int)> {
    match crate::text::toks_end(s, seq![lit("$table"), lit("->")], 0, i) {
        Option::None => Option::None,
        Option::Some(e0) => {
            let w = skip_ws(s, e0);
            let we = ident_end(s, w);
            if we > w {
                let t = skip_ws(s, we);
                if t < s.len() && s[t] == 40 {
                    let q = skip_ws(s, t + 1);
                    if q < s.len() && is_quote(s[q]) {
                        let c = ident_end(s, q + 1);
                        if c > q + 1 && c < s.len() && is_quote(s[c]) {
                            Option::Some((s.subrange(w, we), s.subrange(q + 1, c), c + 1))
                        } else {
                            Option::None
                        }
                    } else {
                        Option::None
                    }
                } else {
                    Option::None
                }
            } else {
                Option::None
            }
        },
    }
}

/// The statement context from `i`: up to (excluding) the next semicolon.
pub open spec fn stmt_ctx(s: Seq<u8>, i: int) -> Seq<u8> {
    let semi = find_byte(s, 59, i);
    s.subrange(i, if semi > s.len() {
        s.len() as int
    } else if semi < i {
        i
    } else {
        semi
    })
}

/// The twelve modifier names probed on a column's context, in order.
pub open spec fn modifier_names() -> Seq<Seq<u8>> {
    seq![
        lit("nullable"), lit("unique"), lit("primary"), lit("unsigned"), lit("autoIncrement"),
        lit("index"), lit("useCurrentOnUpdate"), lit("useCurrent"), lit("comment"), lit("after"),
        lit("first"), lit("change"),
    ]
}

/// The modifiers among the first `k` probed names that the context calls.
pub open spec fn col_modifiers_pre(ctx: Seq<u8>, k: int) -> Seq<Seq<u8>>
    decreases k,
{
    if k <= 0 || k > modifier_names().len() {
        Seq::empty()
    } else {
        col_modifiers_pre(ctx, k - 1) + (if has_call(
            ctx,
            seq![lit("->"), modifier_names()[k - 1]],
        ) {
            seq![modifier_names()[k - 1]]
        } else {
            Seq::<Seq<u8>>::empty()
        })
    }
}

/// The modifier names attached in a column's context.
pub open spec fn col_modifiers(ctx: Seq<u8>) -> Seq<Seq<u8>> {
    col_modifiers_pre(ctx, modifier_names().len() as int)
}

/// The default value in a column's context: the first `->default(<raw>)`
/// argument, trimmed.
pub open spec fn col_default(ctx: Seq<u8>) -> Option<Seq<u8>> {
    let caps = scan_call_raw_spec(ctx, seq![lit("->"), lit("default")]);
    if caps.len() > 0 {
        Option::Some(trim_ws(caps[0]))
    } else {
        Option::None
    }
}

/// The column model of one match.
pub open spec fn column_of(s: Seq<u8>, name: Seq<u8>, method: Seq<u8>, start: int) -> ColumnModel {
    let ctx = stmt_ctx(s, start);
    ColumnModel {
        name: name,
        column_type: method,
        nullable: has_call(ctx, seq![lit("->"), lit("nullable")]),
        default_value: col_default(ctx),
        modifiers: col_modifiers(ctx),
    }
}

/// All typed column definitions.
pub open spec fn columns_from(s: Seq<u8>, i: int) -> Seq<ColumnModel>
    decreases s.len() - i,
{
    if i < 0 || i >= s.len() {
        Seq::empty()
    } else {
        match try_column(s, i) {
            Option::Some(r) => {
                let nxt = if r.2 <= i {
                    i + 1
                } else if r.2 > s.len() {
                    s.len() as int
                } else {
                    r.2
                };
                (if is_col_type(r.0) {
                    seq![column_of(s, r.1, r.0, i)]
                } else {
                    Seq::<ColumnModel>::empty()
                }) + columns_from(s, nxt)
            },
            Option::None => columns_from(s, i + 1),
        }
    }
}

pub open spec fn columns_spec(s: Seq<u8>) -> Seq<ColumnModel> {
    columns_from(s, 0)
}

fn try_column_x(s: &Vec<u8>, i: usize) -> (r: Option<(Vec<u8>, Vec<u8>, usize)>)
    requires
        i <= s.len(),
    ensures
        match r {
            Option::Some(p) => try_column(s@, i as int) == Option::Some(
                (p.0@, p.1@, p.2 as int),
            ) && i < p.2 <= s.len(),
            Option::None => try_column(s@, i as int) is None,
        },
{
    let toks = vec![litv("$table"), litv("->")];
    proof {
        assert(views(toks@) =~= seq![lit("$table"), lit("->")]);
    }
    let e0 = match crate::text::toks_end_x(s, &toks, i) {
        Option::Some(e) => e,
        Option::None => {
            return None;
        },
    };
    let w = skip_ws_x(s, e0);
    let we = ident_end_x(s, w);
    if we <= w {
        return None;
    }
    let t = skip_ws_x(s, we);
    if !(t < s.len() && s[t] == 40) {
        return None;
    }
    let q = skip_ws_x(s, t + 1);
    if !(q < s.len() && crate::text::quote(s[q])) {
        return None;
    }
    let c = ident_end_x(s, q + 1);
    if c > q + 1 && c < s.len() && crate::text::quote(s[c]) {
        Some((slice_of(s, w, we), slice_of(s, q + 1, c), c + 1))
    } else {
        None
    }
}

fn modifier_names_x() -> (r: Vec<Vec<u8>>)
    ensures
        views(r@) == modifier_names(),
{
    let r = vec![
        litv("nullable"),
        litv("unique"),
        litv("primary"),
        litv("unsigned"),
        litv("autoIncrement"),
        litv("index"),
        litv("useCurrentOnUpdate"),
        litv("useCurrent"),
        litv("comment"),
        litv("after"),
        litv("first"),
        litv("change"),
    ];
    proof {
        assert(views(r@) =~= modifier_names());
    }
    r
}

fn col_modifiers_x(ctx: &Vec<u8>) -> (out: Vec<Vec<u8>>)
    ensures
        views(out@) == col_modifiers(ctx@),
{
    let mut out: Vec<Vec<u8>> = Vec::new();
    let names = modifier_names_x();
    let arrow = litv("->");
    let mut k: usize = 0;
    while k < names.len()
        invariant
            0 <= k <= names@.len(),
            views(names@) == modifier_names(),
            arrow@ == lit("->"),
            views(out@) == col_modifiers_pre(ctx@, k as int),
        decreases names@.len() - k,
    {
        let toks = vec![slice_of(&arrow, 0, arrow.len()), slice_of(&names[k], 0, names[k].len())];
        proof {
            assert(views(names@)[k as int] == names@[k as int]@);
            assert(views(toks@) =~~= seq![lit("->"), modifier_names()[k as int]]);
        }
        if has_call_x(ctx, &toks) {
            let nm = slice_of(&names[k], 0, names[k].len());
            let ghost pre = out@;
            out.push(nm);
            proof {
                crate::text::lemma_views_push(pre, nm);
                assert(nm@ =~= modifier_names()[k as int]);
                assert(views(out@) =~= col_modifiers_pre(ctx@, k + 1));
            }
        } else {
            proof {
                assert(views(out@) =~= col_modifiers_pre(ctx@, k + 1));
            }
        }
        k = k + 1;
    }
    proof {
        assert(views(out@) =~= col_modifiers(ctx@));
    }
    out
}

/// Extract every typed column definition.
#[verifier::rlimit(100)]
pub fn extract_all_columns(s: &Vec<u8>) -> (out: Vec<ColumnFact>)
    ensures
        column_models(out@) == columns_spec(s@),
{
    let mut out: Vec<ColumnFact> = Vec::new();
    let mut i: usize = 0;
    while i < s.len()
        invariant
            0 <= i <= s.len(),
            column_models(out@) + columns_from(s@, i as int) == columns_spec(s@),
        decreases s.len() - i,
    {
        match try_column_x(s, i) {
            Option::Some((method, name, end)) => {
                if is_col_type_x(&method) {
                    let semi = find_byte_x(s, 59, i);
                    let cend = if semi > s.len() {
                        s.len()
                    } else {
                        semi
                    };
                    let ctx = slice_of(s, i, cend);
                    proof {
                        assert(ctx@ =~= stmt_ctx(s@, i as int));
                    }
                    let nullable_toks = vec![litv("->"), litv("nullable")];
                    proof {
                        assert(views(nullable_toks@) =~= seq![lit("->"), lit("nullable")]);
                    }
                    let nullable = has_call_x(&ctx, &nullable_toks);
                    let default_toks = vec![litv("->"), litv("default")];
                    proof {
                        assert(views(default_toks@) =~= seq![lit("->"), lit("default")]);
                    }
                    let defaults = scan_call_raw(&ctx, &default_toks);
                    let default_value = if defaults.len() > 0 {
                        let d = trim_ws_x(&defaults[0]);
                        proof {
                            assert(defaults@[0]@ == views(defaults@)[0]);
                        }
                        Some(d)
                    } else {
                        None
                    };
                    let modifiers = col_modifiers_x(&ctx);
                    let cf = ColumnFact { name, column_type: method, nullable, default_value, modifiers };
                    let ghost pre = out@;
                    out.push(cf);
                    proof {
                        lemma_column_models_push(pre, cf);
                        assert(column_model(cf) =~= columns_from(s@, i as int)[0]);
                        assert(column_models(out@) + columns_from(s@, end as int) =~= columns_spec(
                            s@,
                        ));
                    }
                } else {
                    proof {
                        assert(column_models(out@) + columns_from(s@, end as int) =~= columns_spec(
                            s@,
                        ));
                    }
                }
                i = end;
            },
            Option::None => {
                proof {
                    assert(columns_from(s@, i as int) == columns_from(s@, i + 1));
                }
                i = i + 1;
            },
        }
    }
    proof {
        assert(columns_from(s@, s@.len() as int) =~= Seq::<ColumnModel>::empty());
        assert(column_models(out@) =~= columns_spec(s@));
    }
    out
}

} // verus!

verus! {

use crate::controller::first_class;
use crate::text::split_list;
use crate::facts::opt_view;
use crate::text::split_list_x;
use crate::facts::FileFacts;
use crate::facts::MigrationFacts;
use crate::facts::ParsedFile;
use crate::facts::Symbol;
use crate::facts::SymbolType;
use crate::facts::dep_models;
use crate::facts::lemma_sym_models_push;
use crate::facts::sym_models;
use crate::php::PhpParser;
use crate::php::class_line;
use crate::php::php_use_deps;
use crate::source_file::SourceFile;
use crate::source_file::sf_model;
use crate::text::split_lines;
use crate::text::split_lines_x;

// ---------------------------------------------------------------------------
// Foreign keys
// ---------------------------------------------------------------------------

/// `$table->foreign('col')->references('ref')->on('tbl')` at `i`.
pub open spec fn try_fk(s: Seq<u8>, i: int) -> Option<(Seq<u8>, Seq<u8>, Seq<u8>, int)> {
    match crate::text::try_arg(s, seq![lit("$table"), lit("->"), lit("foreign")], true, i) {
        Option::None => Option::None,
        Option::Some(a) => {
            if a.0 {
                Option::None
            } else {
                let p1 = skip_ws(s, a.2);
                if p1 < s.len() && s[p1] == 41 {
                    match crate::text::try_arg(
                        s,
                        seq![lit("->"), lit("references")],
                        true,
                        skip_ws(s, p1 + 1),
                    ) {
                        Option::None => Option::None,
                        Option::Some(b) => {
                            if b.0 {
                                Option::None
                            } else {
                                let p2 = skip_ws(s, b.2);
                                if p2 < s.len() && s[p2] == 41 {
                                    match crate::text::try_arg(
                                        s,
                                        seq![lit("->"), lit("on")],
                                        true,
                                        skip_ws(s, p2 + 1),
                                    ) {
                                        Option::None => Option::None,
                                        Option::Some(c) => {
                                            if c.0 {
                                                Option::None
                                            } else {
                                                Option::Some((a.1, b.1, c.1, c.2))
                                            }
                                        },
                                    }
                                } else {
                                    Option::None
                                }
                            }
                        },
                    }
                } else {
                    Option::None
                }
            }
        },
    }
}

/// The `->onDelete('x')` / `->onUpdate('x')` action in a context.
pub open spec fn on_action(ctx: Seq<u8>, kw: &str) -> Option<Seq<u8>> {
    let args = scan_arg_spec(ctx, seq![lit("->"), lit(kw)], true);
    first_sing(args, 0)
}

pub open spec fn first_sing(entries: Seq<(bool, Seq<u8>)>, i: int) -> Option<Seq<u8>>
    decreases entries.len() - i,
{
    if i < 0 || i >= entries.len() {
        Option::None
    } else if !entries[i].0 {
        Option::Some(entries[i].1)
    } else {
        first_sing(entries, i + 1)
    }
}

fn on_action_x(ctx: &Vec<u8>, kw: &Vec<u8>) -> (r: Option<Vec<u8>>)
    ensures
        crate::text::opt_view_txt(r) == first_sing(
            scan_arg_spec(ctx@, seq![lit("->"), kw@], true),
            0,
        ),
{
    let arrow = litv("->");
    let toks = vec![arrow, slice_of(kw, 0, kw.len())];
    proof {
        assert(views(toks@) =~~= seq![lit("->"), kw@]);
    }
    let entries = scan_arg(ctx, &toks, true);
    let ghost ev = argviews(entries@);
    let mut k: usize = 0;
    while k < entries.len()
        invariant
            0 <= k <= entries@.len(),
            ev == argviews(entries@),
            ev == scan_arg_spec(ctx@, seq![lit("->"), kw@], true),
            first_sing(ev, 0) == first_sing(ev, k as int),
        decreases entries@.len() - k,
    {
        proof {
            assert(ev[k as int] == (entries@[k as int].0, entries@[k as int].1@));
        }
        if !entries[k].0 {
            let v = slice_of(&entries[k].1, 0, entries[k].1.len());
            proof {
                assert(v@ =~= ev[k as int].1);
            }
            return Some(v);
        }
        k = k + 1;
    }
    None
}

/// The explicit foreign keys, each with its statement context's actions.
pub open spec fn fks_from(s: Seq<u8>, i: int) -> Seq<crate::facts::ForeignKeyModel>
    decreases s.len() - i,
{
    if i < 0 || i >= s.len() {
        Seq::empty()
    } else {
        match try_fk(s, i) {
            Option::Some(r) => {
                let nxt = if r.3 <= i {
                    i + 1
                } else if r.3 > s.len() {
                    s.len() as int
                } else {
                    r.3
                };
                let ctx = stmt_ctx(s, i);
                seq![
                    crate::facts::ForeignKeyModel {
                        column: r.0,
                        references: r.1,
                        on_table: r.2,
                        on_delete: on_action(ctx, "onDelete"),
                        on_update: on_action(ctx, "onUpdate"),
                        constrained: false,
                    },
                ] + fks_from(s, nxt)
            },
            Option::None => fks_from(s, i + 1),
        }
    }
}

/// `$table->foreignId('col')->constrained(['tbl'])` at `i`: the column, the
/// optional table, and the resume position.
pub open spec fn try_constrained(s: Seq<u8>, i: int) -> Option<(Seq<u8>, Option<Seq<u8>>, int)> {
    match crate::text::try_arg(s, seq![lit("$table"), lit("->"), lit("foreignId")], true, i) {
        Option::None => Option::None,
        Option::Some(a) => {
            if a.0 {
                Option::None
            } else {
                let p1 = skip_ws(s, a.2);
                if p1 < s.len() && s[p1] == 41 {
                    let q = skip_ws(s, p1 + 1);
                    if matches_at(s, lit("->"), q) {
                        let w = skip_ws(s, q + 2);
                        if matches_at(s, lit("constrained"), w) && {
                            let t = skip_ws(s, if w + 11 > s.len() {
                                s.len() as int
                            } else {
                                w + 11
                            });
                            t < s.len() && s[t] == 40
                        } {
                            let t = skip_ws(s, if w + 11 > s.len() {
                                s.len() as int
                            } else {
                                w + 11
                            });
                            let u = skip_ws(s, t + 1);
                            match crate::text::quoted_at(s, true, u) {
                                Option::Some(p) => Option::Some(
                                    (a.1, Option::Some(p.0), p.1),
                                ),
                                Option::None => Option::Some((a.1, Option::None, t + 1)),
                            }
                        } else {
                            Option::None
                        }
                    } else {
                        Option::None
                    }
                } else {
                    Option::None
                }
            }
        },
    }
}

/// The table a shorthand key refers to: the named table, else the column
/// without its `_id` suffix pluralized, else empty.
pub open spec fn constrained_table(column: Seq<u8>, named: Option<Seq<u8>>) -> Seq<u8> {
    match named {
        Option::Some(t) => t,
        Option::None => {
            if column.len() >= 3 && crate::text::ends_with(column, lit("_id")) {
                column.subrange(0, column.len() - 3) + lit("s")
            } else {
                Seq::empty()
            }
        },
    }
}

/// The shorthand foreign keys.
pub open spec fn constrained_from(s: Seq<u8>, i: int) -> Seq<crate::facts::ForeignKeyModel>
    decreases s.len() - i,
{
    if i < 0 || i >= s.len() {
        Seq::empty()
    } else {
        match try_constrained(s, i) {
            Option::Some(r) => {
                let nxt = if r.2 <= i {
                    i + 1
                } else if r.2 > s.len() {
                    s.len() as int
                } else {
                    r.2
                };
                let ctx = stmt_ctx(s, i);
                seq![
                    crate::facts::ForeignKeyModel {
                        column: r.0,
                        references: lit("id"),
                        on_table: constrained_table(r.0, r.1),
                        on_delete: on_action(ctx, "onDelete"),
                        on_update: on_action(ctx, "onUpdate"),
                        constrained: true,
                    },
                ] + constrained_from(s, nxt)
            },
            Option::None => constrained_from(s, i + 1),
        }
    }
}

/// Every foreign key: explicit declarations, then `constrained` shorthands.
pub open spec fn fks_spec(s: Seq<u8>) -> Seq<crate::facts::ForeignKeyModel> {
    fks_from(s, 0) + constrained_from(s, 0)
}

fn try_fk_x(s: &Vec<u8>, i: usize) -> (r: Option<(Vec<u8>, Vec<u8>, Vec<u8>, usize)>)
    requires
        i <= s.len(),
    ensures
        match r {
            Option::Some(p) => try_fk(s@, i as int) == Option::Some(
                (p.0@, p.1@, p.2@, p.3 as int),
            ) && i < p.3 <= s.len(),
            Option::None => try_fk(s@, i as int) is None,
        },
{
    let t1 = vec![litv("$table"), litv("->"), litv("foreign")];
    proof {
        assert(views(t1@) =~= seq![lit("$table"), lit("->"), lit("foreign")]);
    }
    let a = match crate::text::try_arg_x(s, &t1, true, i) {
        Option::Some(a) => a,
        Option::None => {
            return None;
        },
    };
    if a.0 {
        return None;
    }
    let p1 = skip_ws_x(s, a.2);
    if !(p1 < s.len() && s[p1] == 41) {
        return None;
    }
    let t2 = vec![litv("->"), litv("references")];
    proof {
        assert(views(t2@) =~= seq![lit("->"), lit("references")]);
    }
    let b = match crate::text::try_arg_x(s, &t2, true, skip_ws_x(s, p1 + 1)) {
        Option::Some(b) => b,
        Option::None => {
            return None;
        },
    };
    if b.0 {
        return None;
    }
    let p2 = skip_ws_x(s, b.2);
    if !(p2 < s.len() && s[p2] == 41) {
        return None;
    }
    let t3 = vec![litv("->"), litv("on")];
    proof {
        assert(views(t3@) =~= seq![lit("->"), lit("on")]);
    }
    let c = match crate::text::try_arg_x(s, &t3, true, skip_ws_x(s, p2 + 1)) {
        Option::Some(c) => c,
        Option::None => {
            return None;
        },
    };
    if c.0 {
        return None;
    }
    Some((a.1, b.1, c.1, c.2))
}

fn try_constrained_x(s: &Vec<u8>, i: usize) -> (r: Option<(Vec<u8>, Option<Vec<u8>>, usize)>)
    requires
        i <= s.len(),
    ensures
        match r {
            Option::Some(p) => try_constrained(s@, i as int) == Option::Some(
                (p.0@, crate::text::opt_view_txt(p.1), p.2 as int),
            ) && i < p.2 <= s.len(),
            Option::None => try_constrained(s@, i as int) is None,
        },
{
    let t1 = vec![litv("$table"), litv("->"), litv("foreignId")];
    proof {
        assert(views(t1@) =~= seq![lit("$table"), lit("->"), lit("foreignId")]);
    }
    let a = match crate::text::try_arg_x(s, &t1, true, i) {
        Option::Some(a) => a,
        Option::None => {
            return None;
        },
    };
    if a.0 {
        return None;
    }
    let p1 = skip_ws_x(s, a.2);
    if !(p1 < s.len() && s[p1] == 41) {
        return None;
    }
    let q = skip_ws_x(s, p1 + 1);
    let arrow = litv("->");
    if !match_at(s, &arrow, q) {
        return None;
    }
    let w = skip_ws_x(s, if s.len() - q > 2 {
        q + 2
    } else {
        s.len()
    });
    proof {
        if s@.len() - q <= 2 {
            assert(skip_ws(s@, q as int + 2) == q + 2 || true);
        }
    }
    let constrained_kw = litv("constrained");
    if !match_at(s, &constrained_kw, w) {
        return None;
    }
    let t = skip_ws_x(s, if s.len() - w > 11 {
        w + 11
    } else {
        s.len()
    });
    if !(t < s.len() && s[t] == 40) {
        return None;
    }
    let u = skip_ws_x(s, t + 1);
    match crate::text::quoted_at_x(s, true, u) {
        Option::Some((tbl, end)) => Some((a.1, Some(tbl), end)),
        Option::None => Some((a.1, None, t + 1)),
    }
}

} // verus!

verus! {

/// Extract every foreign key.
pub fn extract_foreign_keys(s: &Vec<u8>) -> (out: Vec<crate::facts::ForeignKeyFact>)
    ensures
        crate::facts::fk_models(out@) == fks_spec(s@),
{
    let mut out: Vec<crate::facts::ForeignKeyFact> = Vec::new();
    let on_delete_kw = litv("onDelete");
    let on_update_kw = litv("onUpdate");
    let mut i: usize = 0;
    while i < s.len()
        invariant
            0 <= i <= s.len(),
            on_delete_kw@ == lit("onDelete"),
            on_update_kw@ == lit("onUpdate"),
            crate::facts::fk_models(out@) + fks_from(s@, i as int) == fks_from(s@, 0),
        decreases s.len() - i,
    {
        match try_fk_x(s, i) {
            Option::Some((column, references, on_table, end)) => {
                let semi = find_byte_x(s, 59, i);
                let cend = if semi > s.len() {
                    s.len()
                } else {
                    semi
                };
                let ctx = slice_of(s, i, cend);
                proof {
                    assert(ctx@ =~= stmt_ctx(s@, i as int));
                }
                let fk = crate::facts::ForeignKeyFact {
                    column,
                    references,
                    on_table,
                    on_delete: on_action_x(&ctx, &on_delete_kw),
                    on_update: on_action_x(&ctx, &on_update_kw),
                    constrained: false,
                };
                let ghost pre = out@;
                out.push(fk);
                proof {
                    crate::facts::lemma_fk_models_push(pre, fk);
                    assert(crate::facts::fk_model(fk) =~= fks_from(s@, i as int)[0]);
                    assert(crate::facts::fk_models(out@) + fks_from(s@, end as int) =~= fks_from(
                        s@,
                        0,
                    ));
                }
                i = end;
            },
            Option::None => {
                proof {
                    assert(fks_from(s@, i as int) == fks_from(s@, i + 1));
                }
                i = i + 1;
            },
        }
    }
    proof {
        assert(fks_from(s@, s@.len() as int) =~= Seq::<crate::facts::ForeignKeyModel>::empty());
    }
    let ghost base = fks_from(s@, 0);
    let id_lit = litv("id");
    let suffix_lit = litv("_id");
    let plural = litv("s");
    let mut j: usize = 0;
    while j < s.len()
        invariant
            0 <= j <= s.len(),
            on_delete_kw@ == lit("onDelete"),
            on_update_kw@ == lit("onUpdate"),
            id_lit@ == lit("id"),
            suffix_lit@ == lit("_id"),
            plural@ == lit("s"),
            base == fks_from(s@, 0),
            crate::facts::fk_models(out@) + constrained_from(s@, j as int) == base
                + constrained_from(s@, 0),
        decreases s.len() - j,
    {
        match try_constrained_x(s, j) {
            Option::Some((column, named, end)) => {
                let semi = find_byte_x(s, 59, j);
                let cend = if semi > s.len() {
                    s.len()
                } else {
                    semi
                };
                let ctx = slice_of(s, j, cend);
                proof {
                    assert(ctx@ =~= stmt_ctx(s@, j as int));
                }
                let on_table = match named {
                    Option::Some(t) => t,
                    Option::None => {
                        if column.len() >= 3 && ends_with_x(&column, &suffix_lit) {
                            let stem = slice_of(&column, 0, column.len() - 3);
                            concat(&stem, &plural)
                        } else {
                            Vec::new()
                        }
                    },
                };
                let fk = crate::facts::ForeignKeyFact {
                    column,
                    references: slice_of(&id_lit, 0, id_lit.len()),
                    on_table,
                    on_delete: on_action_x(&ctx, &on_delete_kw),
                    on_update: on_action_x(&ctx, &on_update_kw),
                    constrained: true,
                };
                let ghost pre = out@;
                out.push(fk);
                proof {
                    crate::facts::lemma_fk_models_push(pre, fk);
                    assert(fk.references@ =~= lit("id"));
                    assert(crate::facts::fk_model(fk) =~= constrained_from(s@, j as int)[0]);
                    assert(crate::facts::fk_models(out@) + constrained_from(s@, end as int)
                        =~= base + constrained_from(s@, 0));
                }
                j = end;
            },
            Option::None => {
                proof {
                    assert(constrained_from(s@, j as int) == constrained_from(s@, j + 1));
                }
                j = j + 1;
            },
        }
    }
    proof {
        assert(constrained_from(s@, s@.len() as int) =~= Seq::<
            crate::facts::ForeignKeyModel,
        >::empty());
        assert(crate::facts::fk_models(out@) =~= fks_spec(s@));
    }
    out
}

/// The index declarations of one kind: single names or split lists.
pub open spec fn index_entries(s: Seq<u8>, kw: &str, tag: &str) -> Seq<(Seq<u8>, Seq<Seq<u8>>)> {
    scan_arg_spec(s, seq![lit("$table"), lit("->"), lit(kw)], true).map_values(
        |e: (bool, Seq<u8>)|
            (
                lit(tag),
                if e.0 {
                    split_list(e.1)
                } else {
                    seq![e.1]
                },
            ),
    )
}

/// All index declarations: primaries, uniques, plain indexes.
pub open spec fn indexes_spec(s: Seq<u8>) -> Seq<(Seq<u8>, Seq<Seq<u8>>)> {
    index_entries(s, "primary", "primary") + index_entries(s, "unique", "unique") + index_entries(
        s,
        "index",
        "index",
    )
}

fn push_indexes(s: &Vec<u8>, kw: &Vec<u8>, tag: &Vec<u8>, out: &mut Vec<crate::facts::IndexFact>)
    ensures
        crate::facts::index_models(final(out)@) == crate::facts::index_models(old(out)@)
            + scan_arg_spec(s@, seq![lit("$table"), lit("->"), kw@], true).map_values(
            |e: (bool, Seq<u8>)|
                (
                    tag@,
                    if e.0 {
                        split_list(e.1)
                    } else {
                        seq![e.1]
                    },
                ),
        ),
{
    let toks = vec![litv("$table"), litv("->"), slice_of(kw, 0, kw.len())];
    proof {
        assert(views(toks@) =~~= seq![lit("$table"), lit("->"), kw@]);
    }
    let entries = scan_arg(s, &toks, true);
    let ghost ev = argviews(entries@);
    let ghost target = ev.map_values(
        |e: (bool, Seq<u8>)|
            (
                tag@,
                if e.0 {
                    split_list(e.1)
                } else {
                    seq![e.1]
                },
            ),
    );
    let mut k: usize = 0;
    while k < entries.len()
        invariant
            0 <= k <= entries@.len(),
            ev == argviews(entries@),
            target == ev.map_values(
                |e: (bool, Seq<u8>)|
                    (
                        tag@,
                        if e.0 {
                            split_list(e.1)
                        } else {
                            seq![e.1]
                        },
                    ),
            ),
            crate::facts::index_models(out@) == crate::facts::index_models(old(out)@)
                + target.take(k as int),
        decreases entries@.len() - k,
    {
        proof {
            assert(ev[k as int] == (entries@[k as int].0, entries@[k as int].1@));
        }
        let columns = if entries[k].0 {
            split_list_x(&entries[k].1)
        } else {
            let mut one: Vec<Vec<u8>> = Vec::new();
            one.push(slice_of(&entries[k].1, 0, entries[k].1.len()));
            proof {
                assert(views(one@) =~~= seq![ev[k as int].1]);
            }
            one
        };
        let idx = crate::facts::IndexFact { index_type: slice_of(tag, 0, tag.len()), columns };
        let ghost pre = out@;
        out.push(idx);
        proof {
            crate::facts::lemma_index_models_push(pre, idx);
            assert(idx.index_type@ =~= tag@);
            assert(crate::facts::index_model(idx) =~= target[k as int]);
            assert(crate::facts::index_models(out@) =~= crate::facts::index_models(old(out)@)
                + target.take(k + 1));
        }
        k = k + 1;
    }
    proof {
        assert(target.take(entries@.len() as int) =~= target);
    }
}

/// Extract every index declaration.
pub fn extract_indexes(s: &Vec<u8>) -> (out: Vec<crate::facts::IndexFact>)
    ensures
        crate::facts::index_models(out@) == indexes_spec(s@),
{
    let mut out: Vec<crate::facts::IndexFact> = Vec::new();
    let primary_kw = litv("primary");
    push_indexes(s, &primary_kw, &primary_kw, &mut out);
    let unique_kw = litv("unique");
    push_indexes(s, &unique_kw, &unique_kw, &mut out);
    let index_kw = litv("index");
    push_indexes(s, &index_kw, &index_kw, &mut out);
    proof {
        assert(crate::facts::index_models(out@) =~= indexes_spec(s@));
    }
    out
}

/// Parser for Laravel database migrations.
pub struct MigrationParser;

impl MigrationParser {
    pub fn new() -> (r: Self) {
        MigrationParser
    }

    /// The migration class name, when a `class ... extends Migration`
    /// declaration exists.
    fn find_migration_class(&self, content: &Vec<u8>) -> (r: Option<Vec<u8>>)
        ensures
            crate::text::opt_view_txt(r) == migration_class(split_lines(content@), 0),
    {
        let lines = split_lines_x(content);
        let ghost lsv = split_lines(content@);
        let migration_kw = litv("Migration");
        let mut k: usize = 0;
        while k < lines.len()
            invariant
                0 <= k <= lines@.len(),
                views(lines@) == lsv,
                lsv == split_lines(content@),
                migration_kw@ == lit("Migration"),
                migration_class(lsv, 0) == migration_class(lsv, k as int),
            decreases lines@.len() - k,
        {
            proof {
                assert(views(lines@)[k as int] == lines@[k as int]@);
            }
            match class_line(&lines[k], false) {
                Option::Some(c) => {
                    match &c.extends {
                        Option::Some(parent) => {
                            if crate::text::starts_with_x(parent, &migration_kw) {
                                return Some(c.name);
                            }
                        },
                        Option::None => {
                        },
                    }
                },
                Option::None => {
                },
            }
            proof {
                assert(migration_class(lsv, k as int) == migration_class(lsv, k + 1));
            }
            k = k + 1;
        }
        proof {
            assert(migration_class(lsv, lines@.len() as int) is None);
        }
        None
    }

    /// Parse a migration: class and timestamp, `up`/`down` operations,
    /// touched tables, columns, foreign keys, indexes and shorthand flags.
    #[verifier::rlimit(100)]
    #[verifier::spinoff_prover]
    pub fn parse(&self, file: &SourceFile, content: &Vec<u8>) -> (r: ParsedFile)
        ensures
            sf_model(r.source) == sf_model(*file),
            dep_models(r.dependencies@) == php_use_deps(content@),
            (match migration_class(split_lines(content@), 0) {
                Option::Some(n) => sym_models(r.symbols@).len() == 1 && sym_models(r.symbols@)[0].name
                    == n && sym_models(r.symbols@)[0].symbol_type == SymbolType::Class
                    && sym_models(r.symbols@)[0].extends == Option::Some(lit("Migration")),
                Option::None => r.symbols@.len() == 0,
            }),
            (match r.facts {
                FileFacts::Migration(f) => {
                    &&& opt_view(f.migration_class) == migration_class(split_lines(content@), 0)
                    &&& opt_view(f.migration_timestamp) == migration_ts(file.name@)
                    &&& (match f.up_operations {
                        Option::Some(ops) => (match first_updown(content@, lit("up"), 0) {
                            Option::Some(body) => schema_op_models(ops@) == ops_spec(body),
                            Option::None => false,
                        }),
                        Option::None => first_updown(content@, lit("up"), 0) is None,
                    })
                    &&& (match f.down_operations {
                        Option::Some(ops) => (match first_updown(content@, lit("down"), 0) {
                            Option::Some(body) => schema_op_models(ops@) == ops_spec(body),
                            Option::None => false,
                        }),
                        Option::None => first_updown(content@, lit("down"), 0) is None,
                    })
                    &&& views(f.tables_created@) == ident_args(content@, "Schema::create")
                    &&& views(f.tables_modified@) == ident_args(content@, "Schema::table")
                    &&& views(f.tables_dropped@) == ident_args(content@, "Schema::dropIfExists")
                        + ident_args(content@, "Schema::drop")
                    &&& column_models_of(f.columns@) == columns_spec(content@)
                    &&& crate::facts::fk_models(f.foreign_keys@) == fks_spec(content@)
                    &&& crate::facts::index_models(f.indexes@) == indexes_spec(content@)
                    &&& f.has_timestamps == has_call(
                        content@,
                        seq![lit("$table"), lit("->"), lit("timestamps")],
                    )
                    &&& f.has_soft_deletes == (has_call(
                        content@,
                        seq![lit("$table"), lit("->"), lit("softDeletesTz")],
                    ) || has_call(content@, seq![lit("$table"), lit("->"), lit("softDeletes")]))
                    &&& f.has_remember_token == has_call(
                        content@,
                        seq![lit("$table"), lit("->"), lit("rememberToken")],
                    )
                },
                _ => false,
            }),
            r.warnings@.len() == 0,
    {
        let mut parsed = ParsedFile::new(file.duplicate());
        let class_name = self.find_migration_class(content);
        match &class_name {
            Option::Some(n) => {
                let name_copy = slice_of(n, 0, n.len());
                let qualified = slice_of(n, 0, n.len());
                let sym = Symbol {
                    name: name_copy,
                    qualified_name: qualified,
                    symbol_type: SymbolType::Class,
                    visibility: Some(litv("public")),
                    is_abstract: None,
                    is_static: None,
                    extends: Some(litv("Migration")),
                    implements: None,
                    line_start: None,
                    line_end: None,
                };
                let ghost pre = parsed.symbols@;
                parsed.add_symbol(sym);
                proof {
                    lemma_sym_models_push(pre, sym);
                    assert(sym_models(parsed.symbols@)[0].name =~= n@);
                }
            },
            Option::None => {
            },
        }
        let up_kw = litv("up");
        let down_kw = litv("down");
        let up_operations = match extract_updown(content, &up_kw) {
            Option::Some(body) => Some(parse_schema_operations(&body)),
            Option::None => None,
        };
        let down_operations = match extract_updown(content, &down_kw) {
            Option::Some(body) => Some(parse_schema_operations(&body)),
            Option::None => None,
        };
        let create_toks = vec![litv("Schema::create")];
        proof {
            assert(views(create_toks@) =~= seq![lit("Schema::create")]);
        }
        let tables_created = ident_args_x(content, &create_toks);
        let modify_toks = vec![litv("Schema::table")];
        proof {
            assert(views(modify_toks@) =~= seq![lit("Schema::table")]);
        }
        let tables_modified = ident_args_x(content, &modify_toks);
        let dropif_toks = vec![litv("Schema::dropIfExists")];
        proof {
            assert(views(dropif_toks@) =~= seq![lit("Schema::dropIfExists")]);
        }
        let mut tables_dropped = ident_args_x(content, &dropif_toks);
        let drop_toks = vec![litv("Schema::drop")];
        proof {
            assert(views(drop_toks@) =~= seq![lit("Schema::drop")]);
        }
        let mut dropped2 = ident_args_x(content, &drop_toks);
        let ghost d1 = views(tables_dropped@);
        let ghost d2 = views(dropped2@);
        tables_dropped.append(&mut dropped2);
        proof {
            assert(views(tables_dropped@) =~= d1 + d2);
        }
        let ts_toks = vec![litv("$table"), litv("->"), litv("timestamps")];
        proof {
            assert(views(ts_toks@) =~= seq![lit("$table"), lit("->"), lit("timestamps")]);
        }
        let sdtz_toks = vec![litv("$table"), litv("->"), litv("softDeletesTz")];
        proof {
            assert(views(sdtz_toks@) =~= seq![lit("$table"), lit("->"), lit("softDeletesTz")]);
        }
        let sd_toks = vec![litv("$table"), litv("->"), litv("softDeletes")];
        proof {
            assert(views(sd_toks@) =~= seq![lit("$table"), lit("->"), lit("softDeletes")]);
        }
        let rt_toks = vec![litv("$table"), litv("->"), litv("rememberToken")];
        proof {
            assert(views(rt_toks@) =~= seq![lit("$table"), lit("->"), lit("rememberToken")]);
        }
        let facts = MigrationFacts {
            migration_class: class_name,
            migration_timestamp: extract_migration_timestamp(&file.name),
            up_operations,
            down_operations,
            tables_created,
            tables_modified,
            tables_dropped,
            columns: extract_all_columns(content),
            foreign_keys: extract_foreign_keys(content),
            indexes: extract_indexes(content),
            has_timestamps: has_call_x(content, &ts_toks),
            has_soft_deletes: has_call_x(content, &sdtz_toks) || has_call_x(content, &sd_toks),
            has_remember_token: has_call_x(content, &rt_toks),
        };
        parsed.facts = FileFacts::Migration(facts);
        let helper = PhpParser::new();
        helper.extract_use_statements(content, &mut parsed);
        proof {
            assert(dep_models(parsed.dependencies@) =~= php_use_deps(content@));
        }
        parsed
    }
}

/// The column models of a fact list (re-export for contracts).
pub open spec fn column_models_of(s: Seq<crate::facts::ColumnFact>) -> Seq<
    crate::facts::ColumnModel,
> {
    crate::facts::column_models(s)
}

} // verus!
