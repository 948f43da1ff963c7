//! The laws of the synthesizer, proved against the conversion semantics.
//!
//! Each public proof function here states one property of the generated
//! artifact for every destination declaration, source record and expression
//! environment: matching fields round-trip unchanged, a default expression
//! wins over the source, array fields convert element by element and abort
//! on a length mismatch, stripping leaves only unrecognized attributes, and
//! the namespace entry point behaves exactly like the direct one.

use vstd::prelude::*;

use crate::ast::{FieldAttrV, FieldDeclV, StructDeclV, wf_struct};
use crate::classify::{DefaultEntryV, has_default, keep_other, scan_attrs, spec_array_fields,
    spec_class, spec_extract, spec_field_default, spec_plain_names, lemma_extract_ok_each,
    lemma_scan_default};
use crate::emit::{InitClauseV, spec_construct, spec_convert_clauses,
    spec_default_clauses, spec_overwrite_names, spec_placeholder_clauses};
use crate::semantics::{EvalError, lemma_eval_inits_inv, spec_converted_list, spec_eval,
    spec_eval_init, spec_eval_inits, spec_overwrite, spec_overwrites};
use crate::value::{ExprValV, FieldValV, ValueV, lemma_lookup_find, spec_convert_value,
    spec_env_lookup, spec_find, spec_lookup};

verus! {

/// The field names of a record are pairwise distinct.
pub open spec fn distinct_names(fields: Seq<FieldValV>) -> bool {
    forall|i: int, j: int| 0 <= i < j < fields.len() ==> fields[i].name != fields[j].name
}

/// The destination field one initializer clause fills.
pub open spec fn clause_name(c: InitClauseV) -> Seq<char> {
    match c {
        InitClauseV::Convert { field } => field,
        InitClauseV::ArrayPlaceholder { field, len } => field,
        InitClauseV::Default { field, expr } => field,
    }
}

/// The plain-classified field a plain-bucket entry comes from.
pub proof fn lemma_plain_src(fields: Seq<FieldDeclV>, p: int) -> (k: int)
    requires
        0 <= p < spec_plain_names(fields).len(),
    ensures
        0 <= k < fields.len(),
        spec_plain_names(fields)[p] == fields[k].name,
        spec_class(fields[k]) is PlainField,
        spec_plain_names(fields.take(k)).len() == p,
    decreases fields.len(),
{
    let front = spec_plain_names(fields.drop_last());
    if p < front.len() {
        let k = lemma_plain_src(fields.drop_last(), p);
        assert(fields.drop_last()[k] == fields[k]);
        assert(spec_plain_names(fields)[p] == front[p]);
        assert(fields.take(k) =~= fields.drop_last().take(k));
        k
    } else {
        assert(spec_class(fields.last()) is PlainField);
        assert(spec_plain_names(fields)[p] == fields.last().name);
        assert(fields.take(fields.len() - 1) =~= fields.drop_last());
        fields.len() - 1
    }
}

/// The array-classified field an array-bucket entry comes from.
pub proof fn lemma_array_src(fields: Seq<FieldDeclV>, p: int) -> (k: int)
    requires
        0 <= p < spec_array_fields(fields).len(),
    ensures
        0 <= k < fields.len(),
        spec_array_fields(fields)[p].name == fields[k].name,
        spec_array_fields(fields)[p].len == fields[k].shape->Array_0,
        spec_class(fields[k]) is ArrayField,
        spec_array_fields(fields.take(k)).len() == p,
    decreases fields.len(),
{
    let front = spec_array_fields(fields.drop_last());
    if p < front.len() {
        let k = lemma_array_src(fields.drop_last(), p);
        assert(fields.drop_last()[k] == fields[k]);
        assert(spec_array_fields(fields)[p] == front[p]);
        assert(fields.take(k) =~= fields.drop_last().take(k));
        k
    } else {
        assert(spec_class(fields.last()) is ArrayField);
        assert(spec_array_fields(fields)[p] == spec_array_fields(fields).last());
        assert(fields.take(fields.len() - 1) =~= fields.drop_last());
        fields.len() - 1
    }
}

/// The defaulted field an extracted default comes from; the entry carries
/// exactly that field's default expression.
pub proof fn lemma_defaults_src(fields: Seq<FieldDeclV>, p: int) -> (k: int)
    requires
        spec_extract(fields) is Ok,
        0 <= p < spec_extract(fields)->Ok_0.len(),
    ensures
        0 <= k < fields.len(),
        spec_extract(fields)->Ok_0[p].field == fields[k].name,
        spec_class(fields[k]) is Defaulted,
        spec_field_default(fields[k]) == Ok::<_, crate::classify::GenErrorV>(
            Some(spec_extract(fields)->Ok_0[p].expr),
        ),
        spec_extract(fields.take(k)) is Ok,
        spec_extract(fields.take(k))->Ok_0.len() == p,
    decreases fields.len(),
{
    let ds = spec_extract(fields)->Ok_0;
    let front = spec_extract(fields.drop_last())->Ok_0;
    let last = fields[fields.len() - 1];
    lemma_scan_default(last.attrs, None);
    if p < front.len() {
        let k = lemma_defaults_src(fields.drop_last(), p);
        assert(fields.drop_last()[k] == fields[k]);
        assert(ds[p] == front[p]);
        assert(fields.take(k) =~= fields.drop_last().take(k));
        k
    } else {
        match spec_field_default(last) {
            Ok(Some(e)) => {
                assert(ds == front.push(DefaultEntryV { field: last.name, expr: e }));
                assert(has_default(last));
            },
            Ok(None) => {
                assert(ds == front);
            },
            Err(_) => {},
        }
        assert(fields.take(fields.len() - 1) =~= fields.drop_last());
        fields.len() - 1
    }
}

/// A plain-classified field's position in the plain bucket.
pub proof fn lemma_plain_whole(fields: Seq<FieldDeclV>, k: int) -> (p: int)
    requires
        0 <= k < fields.len(),
        spec_class(fields[k]) is PlainField,
    ensures
        0 <= p < spec_plain_names(fields).len(),
        spec_plain_names(fields)[p] == fields[k].name,
    decreases fields.len(),
{
    if k == fields.len() - 1 {
        assert(spec_plain_names(fields).last() == fields[k].name);
        spec_plain_names(fields).len() - 1
    } else {
        assert(fields.drop_last()[k] == fields[k]);
        let p = lemma_plain_whole(fields.drop_last(), k);
        assert(spec_plain_names(fields)[p] == spec_plain_names(fields.drop_last())[p]);
        p
    }
}

/// An array-classified field's position in the array bucket.
pub proof fn lemma_array_whole(fields: Seq<FieldDeclV>, k: int) -> (p: int)
    requires
        0 <= k < fields.len(),
        spec_class(fields[k]) is ArrayField,
    ensures
        0 <= p < spec_array_fields(fields).len(),
        spec_array_fields(fields)[p].name == fields[k].name,
        spec_array_fields(fields)[p].len == fields[k].shape->Array_0,
    decreases fields.len(),
{
    if k == fields.len() - 1 {
        assert(spec_array_fields(fields).last().name == fields[k].name);
        spec_array_fields(fields).len() - 1
    } else {
        assert(fields.drop_last()[k] == fields[k]);
        let p = lemma_array_whole(fields.drop_last(), k);
        assert(spec_array_fields(fields)[p] == spec_array_fields(fields.drop_last())[p]);
        p
    }
}

/// A defaulted field's position among the extracted defaults.
pub proof fn lemma_defaults_whole(fields: Seq<FieldDeclV>, k: int) -> (p: int)
    requires
        0 <= k < fields.len(),
        spec_extract(fields) is Ok,
        spec_class(fields[k]) is Defaulted,
    ensures
        0 <= p < spec_extract(fields)->Ok_0.len(),
        spec_extract(fields)->Ok_0[p] == (DefaultEntryV {
            field: fields[k].name,
            expr: spec_field_default(fields[k])->Ok_0->Some_0,
        }),
        spec_field_default(fields[k]) is Ok,
        spec_field_default(fields[k])->Ok_0 is Some,
    decreases fields.len(),
{
    lemma_extract_ok_each(fields);
    lemma_scan_default(fields[k].attrs, None);
    let e = spec_field_default(fields[k])->Ok_0->Some_0;
    let entry = DefaultEntryV { field: fields[k].name, expr: e };
    if k == fields.len() - 1 {
        assert(spec_extract(fields)->Ok_0.last() == entry);
        spec_extract(fields)->Ok_0.len() - 1
    } else {
        assert(fields.drop_last()[k] == fields[k]);
        let p = lemma_defaults_whole(fields.drop_last(), k);
        assert(spec_extract(fields)->Ok_0[p] == spec_extract(fields.drop_last())->Ok_0[p]);
        p
    }
}


/// With pairwise-distinct record names, a field is found exactly at its own
/// index.
pub proof fn lemma_find_at(fields: Seq<FieldValV>, j: int)
    requires
        distinct_names(fields),
        0 <= j < fields.len(),
    ensures
        spec_find(fields, fields[j].name) == Some(j),
        spec_lookup(fields, fields[j].name) == Some(fields[j].value),
{
    lemma_lookup_find(fields, fields[j].name);
    match spec_find(fields, fields[j].name) {
        Some(jj) => {
            if jj < j {
                assert(fields[jj].name == fields[j].name);
            } else if jj > j {
                assert(fields[j].name != fields[j].name);
            }
        },
        None => {
            assert(fields[j].name != fields[j].name);
        },
    }
}

/// Applying overwrites keeps the record's length and field names.
pub proof fn lemma_overwrites_frame(
    fields: Seq<FieldValV>,
    names: Seq<Seq<char>>,
    source: Seq<FieldValV>,
)
    requires
        spec_overwrites(fields, names, source) is Ok,
    ensures
        spec_overwrites(fields, names, source)->Ok_0.len() == fields.len(),
        forall|k: int|
            0 <= k < fields.len() ==> (#[trigger] spec_overwrites(fields, names, source)->Ok_0[
                k
            ].name) == fields[k].name,
    decreases names.len(),
{
    if names.len() == 0 {
    } else {
        let next = spec_overwrite(fields, names[0], source)->Ok_0;
        lemma_lookup_find(fields, names[0]);
        lemma_overwrites_frame(next, names.drop_first(), source);
    }
}

/// A field whose name no overwrite mentions comes through every overwrite
/// unchanged.
pub proof fn lemma_overwrites_untouched(
    fields: Seq<FieldValV>,
    names: Seq<Seq<char>>,
    source: Seq<FieldValV>,
    k: int,
)
    requires
        spec_overwrites(fields, names, source) is Ok,
        0 <= k < fields.len(),
        forall|m: int| 0 <= m < names.len() ==> names[m] != fields[k].name,
    ensures
        spec_overwrites(fields, names, source)->Ok_0[k] == fields[k],
    decreases names.len(),
{
    if names.len() == 0 {
    } else {
        let next = spec_overwrite(fields, names[0], source)->Ok_0;
        lemma_lookup_find(fields, names[0]);
        let j0 = spec_find(fields, names[0])->Some_0;
        assert(next[k] == fields[k]);
        assert(forall|m: int|
            0 <= m < names.drop_first().len() ==> names.drop_first()[m] == names[m + 1]);
        lemma_overwrites_untouched(next, names.drop_first(), source, k);
    }
}

/// The field an overwrite names is replaced by the element-wise conversion
/// of the source's same-named list, whose length the overwrite checked
/// against the placeholder's.
pub proof fn lemma_overwrites_touched(
    fields: Seq<FieldValV>,
    names: Seq<Seq<char>>,
    source: Seq<FieldValV>,
    k: int,
    m: int,
)
    requires
        spec_overwrites(fields, names, source) is Ok,
        distinct_names(fields),
        forall|m1: int, m2: int| 0 <= m1 < m2 < names.len() ==> names[m1] != names[m2],
        0 <= k < fields.len(),
        0 <= m < names.len(),
        names[m] == fields[k].name,
    ensures
        fields[k].value is List,
        spec_lookup(source, fields[k].name) matches Some(sv) && sv is List
            && sv->List_0.len() == fields[k].value->List_0.len(),
        spec_overwrites(fields, names, source)->Ok_0[k] == (FieldValV {
            name: fields[k].name,
            value: ValueV::List(
                spec_converted_list(spec_lookup(source, fields[k].name)->Some_0->List_0),
            ),
        }),
    decreases names.len(),
{
    lemma_lookup_find(fields, names[0]);
    let next = spec_overwrite(fields, names[0], source)->Ok_0;
    assert(forall|m1: int|
        0 <= m1 < names.drop_first().len() ==> names.drop_first()[m1] == names[m1 + 1]);
    if m == 0 {
        lemma_find_at(fields, k);
        let target = FieldValV {
            name: fields[k].name,
            value: ValueV::List(
                spec_converted_list(spec_lookup(source, fields[k].name)->Some_0->List_0),
            ),
        };
        assert(next == fields.update(k, target));
        assert(next[k] == target);
        assert(forall|m1: int|
            0 <= m1 < names.drop_first().len() ==> names.drop_first()[m1] != next[k].name);
        lemma_overwrites_untouched(next, names.drop_first(), source, k);
    } else {
        let j0 = spec_find(fields, names[0])->Some_0;
        assert(fields[j0].name == names[0]);
        assert(names[0] != names[m]);
        assert(j0 != k);
        assert(next[k] == fields[k]);
        assert(next.len() == fields.len());
        assert(forall|i: int| 0 <= i < fields.len() ==> next[i].name == fields[i].name);
        assert(distinct_names(next));
        lemma_overwrites_touched(next, names.drop_first(), source, k, m - 1);
    }
}

/// The field a clause of the generated plan fills: every initializer clause
/// names exactly one destination field, of the class its bucket stands for,
/// and its position within the bucket counts the like-classified fields
/// before that field.
pub proof fn lemma_clause_src(into: StructDeclV, j: int) -> (k: int)
    requires
        spec_extract(into.fields) is Ok,
        0 <= j < spec_plain_names(into.fields).len() + spec_array_fields(into.fields).len()
            + spec_extract(into.fields)->Ok_0.len(),
    ensures
        0 <= k < into.fields.len(),
        clause_name(
            (spec_convert_clauses(spec_plain_names(into.fields))
                + spec_placeholder_clauses(spec_array_fields(into.fields))
                + spec_default_clauses(spec_extract(into.fields)->Ok_0))[j],
        ) == into.fields[k].name,
        j < spec_plain_names(into.fields).len() ==> spec_class(into.fields[k]) is PlainField
            && spec_plain_names(into.fields.take(k)).len() == j,
        spec_plain_names(into.fields).len() <= j < spec_plain_names(into.fields).len()
            + spec_array_fields(into.fields).len() ==> spec_class(into.fields[k]) is ArrayField
            && spec_array_fields(into.fields.take(k)).len() == j - spec_plain_names(
            into.fields,
        ).len(),
        spec_plain_names(into.fields).len() + spec_array_fields(into.fields).len() <= j
            ==> spec_class(into.fields[k]) is Defaulted && spec_extract(
            into.fields.take(k),
        ) is Ok && spec_extract(into.fields.take(k))->Ok_0.len() == j - spec_plain_names(
            into.fields,
        ).len() - spec_array_fields(into.fields).len(),
{
    let fields = into.fields;
    let plain = spec_plain_names(fields);
    let arrays = spec_array_fields(fields);
    let ds = spec_extract(fields)->Ok_0;
    let cc = spec_convert_clauses(plain);
    let pc = spec_placeholder_clauses(arrays);
    let dc = spec_default_clauses(ds);
    if j < plain.len() {
        assert((cc + pc + dc)[j] == cc[j]);
        lemma_plain_src(fields, j)
    } else if j < plain.len() + arrays.len() {
        assert((cc + pc + dc)[j] == pc[j - plain.len()]);
        lemma_array_src(fields, j - plain.len())
    } else {
        assert((cc + pc + dc)[j] == dc[j - plain.len() - arrays.len()]);
        lemma_defaults_src(fields, j - plain.len() - arrays.len())
    }
}

/// Under distinct destination field names, the clauses of the generated plan
/// fill pairwise distinct fields.
pub proof fn lemma_clause_names_distinct(into: StructDeclV, j1: int, j2: int)
    requires
        wf_struct(into),
        spec_extract(into.fields) is Ok,
        0 <= j1 < j2 < spec_plain_names(into.fields).len() + spec_array_fields(
            into.fields,
        ).len() + spec_extract(into.fields)->Ok_0.len(),
    ensures
        clause_name(
            (spec_convert_clauses(spec_plain_names(into.fields))
                + spec_placeholder_clauses(spec_array_fields(into.fields))
                + spec_default_clauses(spec_extract(into.fields)->Ok_0))[j1],
        ) != clause_name(
            (spec_convert_clauses(spec_plain_names(into.fields))
                + spec_placeholder_clauses(spec_array_fields(into.fields))
                + spec_default_clauses(spec_extract(into.fields)->Ok_0))[j2],
        ),
{
    let k1 = lemma_clause_src(into, j1);
    let k2 = lemma_clause_src(into, j2);
    if into.fields[k1].name == into.fields[k2].name {
        assert(k1 == k2);
    }
}

/// The artifact's initializer clauses, in bucket order, and what `spec_eval`
/// gives for each destination field when it succeeds: a plain field carries
/// the source's same-named value, an array field carries the element-wise
/// conversion of the source's same-named list after the length check, and a
/// defaulted field carries its expression's value from the environment with
/// the source ignored.
pub proof fn lemma_eval_core(
    from: Seq<Seq<char>>,
    into: StructDeclV,
    source: Seq<FieldValV>,
    env: Seq<ExprValV>,
    fi: int,
)
    requires
        wf_struct(into),
        spec_construct(from, into) is Ok,
        spec_eval(spec_construct(from, into)->Ok_0.conv, source, env) is Ok,
        0 <= fi < into.fields.len(),
    ensures
        spec_class(into.fields[fi]) is PlainField ==> spec_lookup(source, into.fields[fi].name)
            is Some && spec_lookup(
            spec_eval(spec_construct(from, into)->Ok_0.conv, source, env)->Ok_0,
            into.fields[fi].name,
        ) == spec_lookup(source, into.fields[fi].name),
        spec_class(into.fields[fi]) is ArrayField ==> (spec_lookup(
            source,
            into.fields[fi].name,
        ) matches Some(sv) && sv is List && sv->List_0.len() == into.fields[fi].shape->Array_0
            && spec_lookup(
            spec_eval(spec_construct(from, into)->Ok_0.conv, source, env)->Ok_0,
            into.fields[fi].name,
        ) == Some(ValueV::List(spec_converted_list(sv->List_0)))),
        spec_class(into.fields[fi]) is Defaulted ==> (spec_field_default(into.fields[fi])
            matches Ok(Some(e)) && spec_env_lookup(env, e) is Some && spec_lookup(
            spec_eval(spec_construct(from, into)->Ok_0.conv, source, env)->Ok_0,
            into.fields[fi].name,
        ) == spec_env_lookup(env, e)),
{
    let f = into.fields[fi];
    let fields = into.fields;
    let a = spec_construct(from, into)->Ok_0;
    let plain = spec_plain_names(fields);
    let arrays = spec_array_fields(fields);
    let ds = spec_extract(fields)->Ok_0;
    let cc = spec_convert_clauses(plain);
    let pc = spec_placeholder_clauses(arrays);
    let dc = spec_default_clauses(ds);
    let inits = a.conv.inits;
    let names = a.conv.overwrites;
    assert(inits == cc + pc + dc);
    assert(names == spec_overwrite_names(arrays));
    assert(spec_eval_inits(inits, source, env) is Ok);
    lemma_eval_inits_inv(inits, source, env);
    let out0 = spec_eval_inits(inits, source, env)->Ok_0;
    let res = spec_eval(a.conv, source, env)->Ok_0;
    assert(spec_overwrites(out0, names, source) == Ok::<_, EvalError>(res));

    assert forall|j: int| 0 <= j < inits.len() implies #[trigger] out0[j].name == clause_name(
        inits[j],
    ) by {
        assert(spec_eval_init(inits[j], source, env) == Ok::<_, EvalError>(out0[j]));
        match inits[j] {
            InitClauseV::Convert { field } => {},
            InitClauseV::ArrayPlaceholder { field, len } => {},
            InitClauseV::Default { field, expr } => {},
        }
    }
    assert(distinct_names(out0)) by {
        assert forall|j1: int, j2: int|
            0 <= j1 < j2 < out0.len() implies out0[j1].name != out0[j2].name by {
            lemma_clause_names_distinct(into, j1, j2);
        }
    }
    assert forall|m1: int, m2: int|
        0 <= m1 < m2 < names.len() implies names[m1] != names[m2] by {
        let k1 = lemma_array_src(fields, m1);
        let k2 = lemma_array_src(fields, m2);
        if fields[k1].name == fields[k2].name {
            assert(k1 == k2);
        }
    }
    lemma_overwrites_frame(out0, names, source);
    assert(distinct_names(res));

    if spec_class(f) is PlainField {
        let p = lemma_plain_whole(fields, fi);
        let k0 = lemma_plain_src(fields, p);
        assert(k0 == fi);
        let j = p;
        assert(inits[j] == InitClauseV::Convert { field: f.name });
        assert(spec_eval_init(inits[j], source, env) == Ok::<_, EvalError>(out0[j]));
        assert(spec_lookup(source, f.name) is Some);
        assert(out0[j].value == spec_lookup(source, f.name)->Some_0);
        assert forall|m: int| 0 <= m < names.len() implies names[m] != f.name by {
            let k2 = lemma_array_src(fields, m);
            if fields[k2].name == f.name {
                assert(k2 == fi);
            }
        }
        lemma_overwrites_untouched(out0, names, source, j);
        lemma_find_at(res, j);
    } else if spec_class(f) is ArrayField {
        let p = lemma_array_whole(fields, fi);
        let j = cc.len() + p;
        assert(inits[j] == pc[p]);
        assert(inits[j] == InitClauseV::ArrayPlaceholder {
            field: f.name,
            len: f.shape->Array_0,
        });
        assert(spec_eval_init(inits[j], source, env) == Ok::<_, EvalError>(out0[j]));
        let n = f.shape->Array_0;
        assert(out0[j].value == ValueV::List(Seq::new(n as nat, |i: int| ValueV::Unit)));
        assert(out0[j].value->List_0.len() == n as nat);
        assert(names[p] == arrays[p].name);
        assert(names[p] == out0[j].name);
        lemma_overwrites_touched(out0, names, source, j, p);
        lemma_find_at(res, j);
    } else {
        let p = lemma_defaults_whole(fields, fi);
        let j = cc.len() + pc.len() + p;
        assert(inits[j] == dc[p]);
        let e = spec_field_default(f)->Ok_0->Some_0;
        assert(inits[j] == InitClauseV::Default { field: f.name, expr: e });
        assert(spec_eval_init(inits[j], source, env) == Ok::<_, EvalError>(out0[j]));
        assert(spec_env_lookup(env, e) is Some);
        assert(out0[j].value == spec_env_lookup(env, e)->Some_0);
        assert forall|m: int| 0 <= m < names.len() implies names[m] != f.name by {
            let k2 = lemma_array_src(fields, m);
            if fields[k2].name == f.name {
                assert(k2 == fi);
            }
        }
        lemma_overwrites_untouched(out0, names, source, j);
        lemma_find_at(res, j);
    }
}

/// Every attribute that stripping keeps is unrecognized.
pub proof fn lemma_keep_other_all(attrs: Seq<FieldAttrV>)
    ensures
        forall|j: int| 0 <= j < keep_other(attrs).len() ==> (#[trigger] keep_other(attrs)[j])
            is Other,
    decreases attrs.len(),
{
    if attrs.len() == 0 {
    } else {
        lemma_keep_other_all(attrs.drop_last());
    }
}

/// A scan that ends without a fault saw no malformed recognized attribute.
pub proof fn lemma_scan_no_malformed(attrs: Seq<FieldAttrV>, found: Option<Seq<char>>)
    ensures
        scan_attrs(attrs, found) is Ok ==> forall|i: int|
            0 <= i < attrs.len() ==> !((#[trigger] attrs[i]) is Malformed),
    decreases attrs.len(),
{
    if attrs.len() == 0 {
    } else {
        match attrs[0] {
            FieldAttrV::Other(_) => {
                lemma_scan_no_malformed(attrs.drop_first(), found);
            },
            FieldAttrV::Malformed => {},
            FieldAttrV::DefaultValue(e) => {
                if !(found is Some) {
                    lemma_scan_no_malformed(attrs.drop_first(), Some(e));
                }
            },
        }
        assert(forall|i: int|
            1 <= i < attrs.len() ==> attrs[i] == attrs.drop_first()[i - 1]);
    }
}

/// Stripping a list of unrecognized attributes keeps it unchanged.
pub proof fn lemma_keep_other_id(attrs: Seq<FieldAttrV>)
    requires
        forall|j: int| 0 <= j < attrs.len() ==> (#[trigger] attrs[j]) is Other,
    ensures
        keep_other(attrs) == attrs,
    decreases attrs.len(),
{
    if attrs.len() == 0 {
        assert(keep_other(attrs) =~= attrs);
    } else {
        assert(forall|j: int|
            0 <= j < attrs.len() - 1 ==> attrs.drop_last()[j] == attrs[j]);
        lemma_keep_other_id(attrs.drop_last());
        assert(keep_other(attrs) =~= attrs);
    }
}

/// Attribute stripping: when generation succeeds, the re-emitted declaration
/// carries, for every field, exactly the attributes the generator does not
/// recognize, in their original order — no recognized attribute survives.
pub proof fn lemma_attribute_stripping(from: Seq<Seq<char>>, into: StructDeclV, fi: int)
    requires
        spec_construct(from, into) is Ok,
        0 <= fi < into.fields.len(),
    ensures
        spec_construct(from, into)->Ok_0.decl.fields[fi].attrs == keep_other(
            into.fields[fi].attrs,
        ),
        forall|j: int|
            0 <= j < spec_construct(from, into)->Ok_0.decl.fields[fi].attrs.len() ==> (
            #[trigger] spec_construct(from, into)->Ok_0.decl.fields[fi].attrs[j]) is Other,
{
    let f = into.fields[fi];
    lemma_keep_other_all(f.attrs);
    if has_default(f) {
    } else {
        lemma_extract_ok_each(into.fields);
        assert(spec_field_default(f) is Ok);
        lemma_scan_default(f.attrs, None);
        lemma_scan_no_malformed(f.attrs, None);
        assert forall|j: int| 0 <= j < f.attrs.len() implies (#[trigger] f.attrs[j]) is Other by {
            if f.attrs[j] is DefaultValue {
                assert(has_default(f));
            }
        }
        lemma_keep_other_id(f.attrs);
    }
}

/// Round-trip identity: for every destination field without a default — its
/// name and type then match the source's — a successful conversion gives the
/// destination field exactly the source's value for that name.
pub proof fn lemma_round_trip_identity(
    from: Seq<Seq<char>>,
    into: StructDeclV,
    source: Seq<FieldValV>,
    env: Seq<ExprValV>,
    fi: int,
)
    requires
        wf_struct(into),
        spec_construct(from, into) is Ok,
        spec_eval(spec_construct(from, into)->Ok_0.conv, source, env) is Ok,
        0 <= fi < into.fields.len(),
        !has_default(into.fields[fi]),
    ensures
        spec_lookup(source, into.fields[fi].name) is Some,
        spec_lookup(
            spec_eval(spec_construct(from, into)->Ok_0.conv, source, env)->Ok_0,
            into.fields[fi].name,
        ) == spec_lookup(source, into.fields[fi].name),
{
    lemma_eval_core(from, into, source, env, fi);
    let f = into.fields[fi];
    if spec_class(f) is ArrayField {
        let sv = spec_lookup(source, f.name)->Some_0;
        assert(spec_converted_list(sv->List_0) =~= sv->List_0);
        assert(ValueV::List(sv->List_0) == sv);
    }
}

/// Default precedence: for every field marked with a default expression, a
/// successful conversion gives the field exactly the expression's value from
/// the environment, whatever the source holds — the source record does not
/// appear in the conclusion at all.
pub proof fn lemma_default_precedence(
    from: Seq<Seq<char>>,
    into: StructDeclV,
    source: Seq<FieldValV>,
    env: Seq<ExprValV>,
    fi: int,
)
    requires
        wf_struct(into),
        spec_construct(from, into) is Ok,
        spec_eval(spec_construct(from, into)->Ok_0.conv, source, env) is Ok,
        0 <= fi < into.fields.len(),
        has_default(into.fields[fi]),
    ensures
        spec_field_default(into.fields[fi]) matches Ok(Some(e)) && spec_env_lookup(env, e)
            is Some && spec_lookup(
            spec_eval(spec_construct(from, into)->Ok_0.conv, source, env)->Ok_0,
            into.fields[fi].name,
        ) == spec_env_lookup(env, e),
{
    lemma_eval_core(from, into, source, env, fi);
}

/// Array element-wise conversion: for a fixed-size array field of length `n`
/// without a default, a successful conversion forces the source's same-named
/// field to be a list of exactly `n` elements — on any other length the
/// evaluation is not `Ok`, the model of the generated program's fatal abort —
/// and fills each of the `n` destination elements with the conversion of the
/// corresponding source element.
pub proof fn lemma_array_elementwise(
    from: Seq<Seq<char>>,
    into: StructDeclV,
    source: Seq<FieldValV>,
    env: Seq<ExprValV>,
    fi: int,
)
    requires
        wf_struct(into),
        spec_construct(from, into) is Ok,
        spec_eval(spec_construct(from, into)->Ok_0.conv, source, env) is Ok,
        0 <= fi < into.fields.len(),
        into.fields[fi].shape is Array,
        !has_default(into.fields[fi]),
    ensures
        spec_lookup(source, into.fields[fi].name) matches Some(sv) && sv is List
            && sv->List_0.len() == into.fields[fi].shape->Array_0 && spec_lookup(
            spec_eval(spec_construct(from, into)->Ok_0.conv, source, env)->Ok_0,
            into.fields[fi].name,
        ) == Some(ValueV::List(spec_converted_list(sv->List_0))) && (forall|i: int|
            0 <= i < sv->List_0.len() ==> spec_converted_list(sv->List_0)[i]
                == spec_convert_value(sv->List_0[i])),
{
    lemma_eval_core(from, into, source, env, fi);
}

/// Namespace entry point equivalence: for a destination declaration, the
/// namespace entry point — whose source path is the namespace followed by
/// the destination's own name — succeeds exactly when the direct entry point
/// does on any explicitly supplied path, re-emits the same declaration, and
/// its conversion plan behaves identically on every source record and
/// environment.
pub proof fn lemma_namespace_entry_equivalence(
    ns: Seq<Seq<char>>,
    from2: Seq<Seq<char>>,
    into: StructDeclV,
    source: Seq<FieldValV>,
    env: Seq<ExprValV>,
)
    ensures
        spec_construct(ns.push(into.name), into) is Ok <==> spec_construct(from2, into) is Ok,
        spec_construct(ns.push(into.name), into) matches Ok(a) ==> (spec_construct(from2, into)
            matches Ok(b) && a.decl == b.decl && a.conv.inits == b.conv.inits
            && a.conv.overwrites == b.conv.overwrites && spec_eval(a.conv, source, env)
            == spec_eval(b.conv, source, env)),
{
}

} // verus!
