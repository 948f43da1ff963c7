//! The meaning of a generated conversion routine.
//!
//! A conversion plan is evaluated against a source record and an expression
//! environment that says what each stored default expression evaluates to.
//! The initializer clauses build the destination record in order; the
//! overwrite list then replaces each array field's placeholder element by
//! element from the source's same-named field, after checking that the two
//! lengths agree — the one condition the generated program checks at run
//! time, and whose violation aborts it.

use vstd::prelude::*;

use crate::emit::{Conversion, ConversionV, InitClause, InitClauseV, clauses_view};
use crate::value::{ExprVal, ExprValV, FieldVal, FieldValV, RecordVal, Value, ValueV, convert_value,
    dup_value, env_lookup, env_view, field_vals_view, index_of_field, lemma_lookup_find, value_view,
    lookup_field, spec_convert_value, spec_env_lookup, spec_find, spec_lookup};

verus! {

/// What can stop an evaluation. All but `ArrayLengthMismatch` stand for
/// conditions the host compiler would reject before the generated program
/// ever ran; `ArrayLengthMismatch` is the generated program's own fatal
/// run-time check.
#[derive(Clone, Copy, Debug, PartialEq, Eq, Structural)]
pub enum EvalError {
    MissingSourceField,
    UnknownField,
    NotAnArray,
    UnboundDefault,
    ArrayLengthMismatch,
}

/// The destination field one initializer clause produces, or why it cannot.
pub open spec fn spec_eval_init(
    c: InitClauseV,
    source: Seq<FieldValV>,
    env: Seq<ExprValV>,
) -> Result<FieldValV, EvalError> {
    match c {
        InitClauseV::Convert { field } => match spec_lookup(source, field) {
            Some(v) => Ok(FieldValV { name: field, value: spec_convert_value(v) }),
            None => Err(EvalError::MissingSourceField),
        },
        InitClauseV::ArrayPlaceholder { field, len } => Ok(
            FieldValV {
                name: field,
                value: ValueV::List(Seq::new(len as nat, |i: int| ValueV::Unit)),
            },
        ),
        InitClauseV::Default { field, expr } => match spec_env_lookup(env, expr) {
            Some(v) => Ok(FieldValV { name: field, value: v }),
            None => Err(EvalError::UnboundDefault),
        },
    }
}

/// The record the initializer clauses build, in clause order, or the error
/// of the first clause that fails.
pub open spec fn spec_eval_inits(
    cs: Seq<InitClauseV>,
    source: Seq<FieldValV>,
    env: Seq<ExprValV>,
) -> Result<Seq<FieldValV>, EvalError>
    decreases cs.len(),
{
    if cs.len() == 0 {
        Ok(Seq::empty())
    } else {
        match spec_eval_inits(cs.drop_last(), source, env) {
            Err(e) => Err(e),
            Ok(front) => match spec_eval_init(cs.last(), source, env) {
                Err(e) => Err(e),
                Ok(fv) => Ok(front.push(fv)),
            },
        }
    }
}

/// Element-wise conversion of a whole list.
pub open spec fn spec_converted_list(items: Seq<ValueV>) -> Seq<ValueV> {
    Seq::new(items.len(), |i: int| spec_convert_value(items[i]))
}

/// One array overwrite: the destination field's placeholder list is replaced
/// by the element-wise conversion of the source's same-named list, provided
/// both are lists of equal length.
pub open spec fn spec_overwrite(
    fields: Seq<FieldValV>,
    name: Seq<char>,
    source: Seq<FieldValV>,
) -> Result<Seq<FieldValV>, EvalError> {
    match spec_find(fields, name) {
        None => Err(EvalError::UnknownField),
        Some(j) => match spec_lookup(source, name) {
            None => Err(EvalError::MissingSourceField),
            Some(sv) => if !(sv is List) {
                Err(EvalError::NotAnArray)
            } else if !(fields[j].value is List) {
                Err(EvalError::NotAnArray)
            } else if fields[j].value->List_0.len() != sv->List_0.len() {
                Err(EvalError::ArrayLengthMismatch)
            } else {
                Ok(
                    fields.update(
                        j,
                        FieldValV {
                            name,
                            value: ValueV::List(spec_converted_list(sv->List_0)),
                        },
                    ),
                )
            },
        },
    }
}

/// All array overwrites, applied left to right.
pub open spec fn spec_overwrites(
    fields: Seq<FieldValV>,
    names: Seq<Seq<char>>,
    source: Seq<FieldValV>,
) -> Result<Seq<FieldValV>, EvalError>
    decreases names.len(),
{
    if names.len() == 0 {
        Ok(fields)
    } else {
        match spec_overwrite(fields, names[0], source) {
            Err(e) => Err(e),
            Ok(next) => spec_overwrites(next, names.drop_first(), source),
        }
    }
}

/// The whole meaning of a conversion plan on a source record under an
/// expression environment.
pub open spec fn spec_eval(
    conv: ConversionV,
    source: Seq<FieldValV>,
    env: Seq<ExprValV>,
) -> Result<Seq<FieldValV>, EvalError> {
    match spec_eval_inits(conv.inits, source, env) {
        Err(e) => Err(e),
        Ok(out) => spec_overwrites(out, conv.overwrites, source),
    }
}

/// When every initializer clause succeeds with the given fields, the clause
/// list as a whole builds exactly those fields.
pub proof fn lemma_eval_inits_ok(
    cs: Seq<InitClauseV>,
    source: Seq<FieldValV>,
    env: Seq<ExprValV>,
    out: Seq<FieldValV>,
)
    requires
        out.len() == cs.len(),
        forall|j: int|
            0 <= j < cs.len() ==> #[trigger] spec_eval_init(cs[j], source, env) == Ok::<_,
            EvalError>(out[j]),
    ensures
        spec_eval_inits(cs, source, env) == Ok::<_, EvalError>(out),
    decreases cs.len(),
{
    if cs.len() == 0 {
        assert(out =~= Seq::<FieldValV>::empty());
    } else {
        let n = cs.len() - 1;
        assert(forall|j: int| 0 <= j < n ==> cs.drop_last()[j] == cs[j]);
        assert(forall|j: int| 0 <= j < n ==> out.drop_last()[j] == out[j]);
        lemma_eval_inits_ok(cs.drop_last(), source, env, out.drop_last());
        assert(out.drop_last().push(out[n]) =~= out);
    }
}

/// The first initializer clause that fails decides the error of the whole
/// clause list.
pub proof fn lemma_eval_inits_err(
    cs: Seq<InitClauseV>,
    source: Seq<FieldValV>,
    env: Seq<ExprValV>,
    i: int,
)
    requires
        0 <= i < cs.len(),
        forall|j: int| 0 <= j < i ==> (#[trigger] spec_eval_init(cs[j], source, env)) is Ok,
        spec_eval_init(cs[i], source, env) is Err,
    ensures
        spec_eval_inits(cs, source, env) == Err::<Seq<FieldValV>, _>(
            spec_eval_init(cs[i], source, env)->Err_0,
        ),
    decreases cs.len(),
{
    let n = cs.len() - 1;
    assert(forall|j: int| 0 <= j < n ==> cs.drop_last()[j] == cs[j]);
    if i == n {
        let front = Seq::new(n as nat, |j: int| spec_eval_init(cs[j], source, env)->Ok_0);
        lemma_eval_inits_ok(cs.drop_last(), source, env, front);
    } else {
        lemma_eval_inits_err(cs.drop_last(), source, env, i);
    }
}

/// When a clause list as a whole succeeds, every single clause succeeds with
/// the corresponding field.
pub proof fn lemma_eval_inits_inv(
    cs: Seq<InitClauseV>,
    source: Seq<FieldValV>,
    env: Seq<ExprValV>,
)
    requires
        spec_eval_inits(cs, source, env) is Ok,
    ensures
        spec_eval_inits(cs, source, env)->Ok_0.len() == cs.len(),
        forall|j: int|
            0 <= j < cs.len() ==> #[trigger] spec_eval_init(cs[j], source, env) == Ok::<_,
            EvalError>(spec_eval_inits(cs, source, env)->Ok_0[j]),
    decreases cs.len(),
{
    if cs.len() == 0 {
    } else {
        let n = cs.len() - 1;
        lemma_eval_inits_inv(cs.drop_last(), source, env);
        assert(forall|j: int| 0 <= j < n ==> cs.drop_last()[j] == cs[j]);
        let front = spec_eval_inits(cs.drop_last(), source, env)->Ok_0;
        assert(spec_eval_inits(cs, source, env)->Ok_0 == front.push(
            spec_eval_init(cs[n], source, env)->Ok_0,
        ));
    }
}

/// Evaluate a conversion plan on a source record: build the destination by
/// the initializer clauses, then apply the array overwrites, aborting with
/// `ArrayLengthMismatch` when a source array's length differs from the
/// destination array's.
pub fn eval_conversion(conv: &Conversion, source: &RecordVal, env: &Vec<ExprVal>) -> (r: Result<
    RecordVal,
    EvalError,
>)
    ensures
        r matches Ok(out) ==> spec_eval(conv@, source@, env_view(env@)) == Ok::<_, EvalError>(
            out@,
        ),
        r matches Err(e) ==> spec_eval(conv@, source@, env_view(env@)) == Err::<Seq<FieldValV>,
            _>(e),
{
    let ghost cs = clauses_view(conv.inits@);
    let ghost sv = source@;
    let ghost ev = env_view(env@);

    let mut out_fields: Vec<FieldVal> = Vec::new();
    let mut i: usize = 0;
    while i < conv.inits.len()
        invariant
            i <= conv.inits.len(),
            cs == clauses_view(conv.inits@),
            sv == source@,
            ev == env_view(env@),
            out_fields@.len() == i,
            forall|j: int|
                0 <= j < i ==> #[trigger] spec_eval_init(cs[j], sv, ev) == Ok::<_, EvalError>(
                    field_vals_view(out_fields@)[j],
                ),
        decreases conv.inits.len() - i,
    {
        let ghost before = field_vals_view(out_fields@);
        let ghost cv = cs[i as int];
        proof {
            assert(cv == conv.inits@[i as int]@);
        }
        match &conv.inits[i] {
            InitClause::Convert { field } => {
                match lookup_field(source, field) {
                    Some(v) => {
                        let nv = convert_value(v);
                        out_fields.push(FieldVal { name: field.clone(), value: nv });
                    },
                    None => {
                        proof {
                            lemma_eval_inits_err(cs, sv, ev, i as int);
                        }
                        return Err(EvalError::MissingSourceField);
                    },
                }
            },
            InitClause::ArrayPlaceholder { field, len } => {
                let n = *len;
                let mut items: Vec<Value> = Vec::new();
                let mut k: usize = 0;
                while k < n
                    invariant
                        k <= n,
                        items@.len() == k,
                        forall|m: int| 0 <= m < k ==> items@[m]@ == ValueV::Unit,
                    decreases n - k,
                {
                    items.push(Value::Unit);
                    k += 1;
                }
                let lv = Value::List(items);
                proof {
                    assert(lv@->List_0 =~= Seq::new(n as nat, |m: int| ValueV::Unit));
                }
                out_fields.push(FieldVal { name: field.clone(), value: lv });
            },
            InitClause::Default { field, expr } => {
                match env_lookup(env, expr) {
                    Some(v) => {
                        let nv = dup_value(v);
                        out_fields.push(FieldVal { name: field.clone(), value: nv });
                    },
                    None => {
                        proof {
                            lemma_eval_inits_err(cs, sv, ev, i as int);
                        }
                        return Err(EvalError::UnboundDefault);
                    },
                }
            },
        }
        i += 1;
        proof {
            assert(field_vals_view(out_fields@).take(i as int - 1) =~= before);
            assert(spec_eval_init(cv, sv, ev) == Ok::<_, EvalError>(
                field_vals_view(out_fields@)[i as int - 1],
            ));
        }
    }
    proof {
        lemma_eval_inits_ok(cs, sv, ev, field_vals_view(out_fields@));
    }
    let ghost out0 = field_vals_view(out_fields@);
    let ghost names = conv.overwrites.deep_view();

    let mut w: usize = 0;
    proof {
        assert(names.skip(0) =~= names);
    }
    while w < conv.overwrites.len()
        invariant
            w <= conv.overwrites.len(),
            sv == source@,
            ev == env_view(env@),
            cs == clauses_view(conv.inits@),
            names == conv.overwrites.deep_view(),
            spec_eval_inits(cs, sv, ev) == Ok::<_, EvalError>(out0),
            spec_overwrites(field_vals_view(out_fields@), names.skip(w as int), sv)
                == spec_overwrites(out0, names, sv),
        decreases conv.overwrites.len() - w,
    {
        let ghost cur = field_vals_view(out_fields@);
        let name = &conv.overwrites[w];
        proof {
            assert(names.skip(w as int)[0] == names[w as int]);
            assert(names.skip(w as int).drop_first() =~= names.skip(w as int + 1));
            assert(name@ == names[w as int]);
            lemma_lookup_find(cur, name@);
            lemma_lookup_find(sv, name@);
        }
        match index_of_field(&out_fields, name) {
            None => {
                return Err(EvalError::UnknownField);
            },
            Some(j) => {
                match lookup_field(source, name) {
                    None => {
                        return Err(EvalError::MissingSourceField);
                    },
                    Some(src_val) => {
                        match src_val {
                            Value::List(src_items) => {
                                proof {
                                    assert(src_val@ is List);
                                    assert(src_val@->List_0.len() == src_items@.len());
                                }
                                let mut dst_is_list = false;
                                let mut dlen: usize = 0;
                                match &out_fields[j].value {
                                    Value::List(d) => {
                                        dst_is_list = true;
                                        dlen = d.len();
                                        proof {
                                            assert(cur[j as int].value == value_view(
                                                Value::List(*d),
                                            ));
                                            assert(cur[j as int].value is List);
                                            assert(cur[j as int].value->List_0.len() == d@.len());
                                        }
                                    },
                                    Value::Int(_) => {
                                        proof {
                                            assert(!(cur[j as int].value is List));
                                        }
                                    },
                                    Value::Text(_) => {
                                        proof {
                                            assert(!(cur[j as int].value is List));
                                        }
                                    },
                                    Value::Unit => {
                                        proof {
                                            assert(!(cur[j as int].value is List));
                                        }
                                    },
                                }
                                if !dst_is_list {
                                    return Err(EvalError::NotAnArray);
                                }
                                if dlen != src_items.len() {
                                    return Err(EvalError::ArrayLengthMismatch);
                                }
                                let mut items: Vec<Value> = Vec::new();
                                let mut k: usize = 0;
                                while k < src_items.len()
                                    invariant
                                        k <= src_items.len(),
                                        items@.len() == k,
                                        forall|m: int| 0 <= m < k ==> items@[m]@ == src_items@[m]@,
                                    decreases src_items.len() - k,
                                {
                                    items.push(convert_value(&src_items[k]));
                                    k += 1;
                                }
                                proof {
                                    assert(src_val@->List_0 =~= Seq::new(
                                        src_items@.len(),
                                        |m: int| src_items@[m]@,
                                    ));
                                }
                                out_fields[j].value = Value::List(items);
                                proof {
                                    let target = FieldValV {
                                        name: name@,
                                        value: ValueV::List(spec_converted_list(src_val@->List_0)),
                                    };
                                    let now = field_vals_view(out_fields@);
                                    assert(now[j as int].value->List_0 =~= spec_converted_list(
                                        src_val@->List_0,
                                    ));
                                    assert(now[j as int].name == cur[j as int].name);
                                    assert(now[j as int] =~= target);
                                    assert(now =~= cur.update(j as int, target));
                                    assert(spec_overwrite(cur, name@, sv) == Ok::<_, EvalError>(
                                        now,
                                    ));
                                }
                            },
                            _ => {
                                proof {
                                    match src_val {
                                        Value::Int(_) => assert(!(src_val@ is List)),
                                        Value::Text(_) => assert(!(src_val@ is List)),
                                        Value::List(_) => assert(false),
                                        Value::Unit => assert(!(src_val@ is List)),
                                    }
                                }
                                return Err(EvalError::NotAnArray);
                            },
                        }
                    },
                }
            },
        }
        w += 1;
    }
    proof {
        assert(names.skip(names.len() as int) =~= Seq::<Seq<char>>::empty());
    }
    Ok(RecordVal { fields: out_fields })
}

} // verus!
