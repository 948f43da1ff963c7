//! A small domain of runtime values, records over it, and the environments
//! the conversion semantics needs.
//!
//! The generated conversion routine moves values between records whose
//! corresponding fields have identical types, so the per-field generic
//! conversion is modelled as the identity on this domain. A value is an
//! integer, a piece of text, a list of values (which also stands for a
//! fixed-size array, a sequence or a map payload), or the unit placeholder.

use vstd::prelude::*;

verus! {

broadcast use vstd::std_specs::vec::group_vec_axioms, vstd::seq::group_seq_axioms;

/// A runtime value of the conversion semantics.
pub enum Value {
    Int(i64),
    Text(String),
    List(Vec<Value>),
    Unit,
}

/// Spec-level counterpart of `Value`.
#[verifier::ext_equal]
pub enum ValueV {
    Int(i64),
    Text(Seq<char>),
    List(Seq<ValueV>),
    Unit,
}

/// The view of one value, structurally.
pub open spec fn value_view(v: Value) -> ValueV
    decreases v,
{
    match v {
        Value::Int(n) => ValueV::Int(n),
        Value::Text(s) => ValueV::Text(s@),
        Value::List(items) => {
            proof {
                assert forall|i: int| 0 <= i < items@.len() implies decreases_to!(
                    v => items@[i],
                ) by {
                    assert(decreases_to!(v => items));
                    assert(decreases_to!(items => items@));
                    assert(decreases_to!(items@ => items@[i]));
                }
            }
            ValueV::List(
                Seq::new(
                    items@.len(),
                    |i: int|
                        if 0 <= i < items@.len() {
                            value_view(items@[i])
                        } else {
                            ValueV::Unit
                        },
                ),
            )
        },
        Value::Unit => ValueV::Unit,
    }
}

impl View for Value {
    type V = ValueV;

    open spec fn view(&self) -> ValueV {
        value_view(*self)
    }
}

/// Copy one value; the copy has the same view.
pub fn dup_value(v: &Value) -> (r: Value)
    ensures
        r@ == v@,
    decreases v,
{
    match v {
        Value::Int(n) => Value::Int(*n),
        Value::Text(s) => Value::Text(s.clone()),
        Value::Unit => Value::Unit,
        Value::List(items) => {
            let mut out: Vec<Value> = Vec::new();
            let mut i: usize = 0;
            while i < items.len()
                invariant
                    i <= items.len(),
                    *v == Value::List(*items),
                    out@.len() == i,
                    forall|j: int| 0 <= j < i ==> out@[j]@ == items@[j]@,
                decreases items.len() - i,
            {
                proof {
                    let vv = *v;
                    assert(vv->List_0 == *items);
                    assert(decreases_to!(vv => vv->List_0));
                    assert(decreases_to!(vv->List_0 => vv->List_0@));
                    assert(decreases_to!(vv->List_0@ => vv->List_0@[i as int]));
                }
                out.push(dup_value(&items[i]));
                i += 1;
            }
            let r = Value::List(out);
            proof {
                assert(r@->List_0 =~= v@->List_0);
            }
            r
        },
    }
}

/// One named field of a record value.
pub struct FieldVal {
    pub name: String,
    pub value: Value,
}

/// Spec-level counterpart of `FieldVal`.
#[verifier::ext_equal]
pub struct FieldValV {
    pub name: Seq<char>,
    pub value: ValueV,
}

impl View for FieldVal {
    type V = FieldValV;

    open spec fn view(&self) -> FieldValV {
        FieldValV { name: self.name@, value: self.value@ }
    }
}

/// The view of a field list, element by element.
pub open spec fn field_vals_view(fs: Seq<FieldVal>) -> Seq<FieldValV> {
    Seq::new(fs.len(), |i: int| fs[i]@)
}

/// A record value: an ordered list of named fields.
pub struct RecordVal {
    pub fields: Vec<FieldVal>,
}

impl View for RecordVal {
    type V = Seq<FieldValV>;

    open spec fn view(&self) -> Seq<FieldValV> {
        field_vals_view(self.fields@)
    }
}

/// The meaning of one default expression: the value the expression's token
/// text evaluates to in the context of the conversion routine.
pub struct ExprVal {
    pub expr: String,
    pub value: Value,
}

/// Spec-level counterpart of `ExprVal`.
#[verifier::ext_equal]
pub struct ExprValV {
    pub expr: Seq<char>,
    pub value: ValueV,
}

impl View for ExprVal {
    type V = ExprValV;

    open spec fn view(&self) -> ExprValV {
        ExprValV { expr: self.expr@, value: self.value@ }
    }
}

/// The view of an expression environment, element by element.
pub open spec fn env_view(env: Seq<ExprVal>) -> Seq<ExprValV> {
    Seq::new(env.len(), |i: int| env[i]@)
}

/// The value of the first field with the given name, if any.
pub open spec fn spec_lookup(fields: Seq<FieldValV>, name: Seq<char>) -> Option<ValueV>
    decreases fields.len(),
{
    if fields.len() == 0 {
        None
    } else if fields[0].name == name {
        Some(fields[0].value)
    } else {
        spec_lookup(fields.drop_first(), name)
    }
}

/// The index of the first field with the given name, if any.
pub open spec fn spec_find(fields: Seq<FieldValV>, name: Seq<char>) -> Option<int>
    decreases fields.len(),
{
    if fields.len() == 0 {
        None
    } else if fields[0].name == name {
        Some(0)
    } else {
        match spec_find(fields.drop_first(), name) {
            Some(j) => Some(j + 1),
            None => None,
        }
    }
}

/// Looking a name up reads the field that `spec_find` locates.
pub proof fn lemma_lookup_find(fields: Seq<FieldValV>, name: Seq<char>)
    ensures
        spec_find(fields, name) matches Some(j) ==> 0 <= j < fields.len() && fields[j].name == name
            && spec_lookup(fields, name) == Some(fields[j].value) && (forall|k: int|
            0 <= k < j ==> fields[k].name != name),
        spec_find(fields, name) is None ==> spec_lookup(fields, name) is None && (forall|k: int|
            0 <= k < fields.len() ==> fields[k].name != name),
    decreases fields.len(),
{
    if fields.len() == 0 {
    } else if fields[0].name == name {
    } else {
        let rest = fields.drop_first();
        lemma_lookup_find(rest, name);
        assert(forall|k: int| 0 <= k < rest.len() ==> rest[k] == fields[k + 1]);
        match spec_find(rest, name) {
            Some(k) => {
                assert(spec_find(fields, name) == Some(k + 1));
                assert(fields[k + 1] == rest[k]);
                assert(forall|m: int| 1 <= m < k + 1 ==> fields[m] == rest[m - 1]);
            },
            None => {
                assert(spec_find(fields, name) is None);
                assert forall|m: int| 0 <= m < fields.len() implies fields[m].name != name by {
                    if m >= 1 {
                        assert(fields[m] == rest[m - 1]);
                    }
                }
            },
        }
    }
}

/// The value of the first environment entry whose expression text matches,
/// if any.
pub open spec fn spec_env_lookup(env: Seq<ExprValV>, expr: Seq<char>) -> Option<ValueV>
    decreases env.len(),
{
    if env.len() == 0 {
        None
    } else if env[0].expr == expr {
        Some(env[0].value)
    } else {
        spec_env_lookup(env.drop_first(), expr)
    }
}

/// The generic per-field conversion between a source field and a destination
/// field of the same type: the identity on this value domain.
pub open spec fn spec_convert_value(v: ValueV) -> ValueV {
    v
}

/// Convert one source value into the destination field's type. Between the
/// identical types this model covers, the conversion is a copy.
pub fn convert_value(v: &Value) -> (r: Value)
    ensures
        r@ == spec_convert_value(v@),
{
    dup_value(v)
}

/// The value of the first field with the given name, if any.
pub fn lookup_field<'a>(r: &'a RecordVal, name: &String) -> (res: Option<&'a Value>)
    ensures
        res matches Some(v) ==> spec_lookup(r@, name@) == Some(v@),
        res is None ==> spec_lookup(r@, name@) is None,
{
    let ghost whole = r@;
    let mut i: usize = 0;
    proof {
        assert(whole.skip(0) =~= whole);
    }
    while i < r.fields.len()
        invariant
            i <= r.fields.len(),
            whole == r@,
            spec_lookup(whole, name@) == spec_lookup(whole.skip(i as int), name@),
        decreases r.fields.len() - i,
    {
        proof {
            assert(whole.skip(i as int)[0] == whole[i as int]);
            assert(whole.skip(i as int).drop_first() =~= whole.skip(i as int + 1));
        }
        if r.fields[i].name == *name {
            return Some(&r.fields[i].value);
        }
        i += 1;
    }
    proof {
        assert(whole.skip(whole.len() as int) =~= Seq::<FieldValV>::empty());
    }
    None
}

/// The index of the first field with the given name, if any.
pub fn index_of_field(fields: &Vec<FieldVal>, name: &String) -> (res: Option<usize>)
    ensures
        res matches Some(j) ==> spec_find(field_vals_view(fields@), name@) == Some(j as int),
        res is None ==> spec_find(field_vals_view(fields@), name@) is None,
{
    let ghost whole = field_vals_view(fields@);
    let mut i: usize = 0;
    proof {
        assert(whole.skip(0) =~= whole);
        lemma_lookup_find(whole, name@);
    }
    while i < fields.len()
        invariant
            i <= fields.len(),
            whole == Seq::new(fields@.len(), |k: int| fields@[k]@),
            spec_find(whole, name@) matches Some(j) ==> j >= i && spec_find(
                whole.skip(i as int),
                name@,
            ) == Some(j - i),
            spec_find(whole, name@) is None ==> spec_find(whole.skip(i as int), name@) is None,
        decreases fields.len() - i,
    {
        proof {
            assert(whole.skip(i as int)[0] == whole[i as int]);
            assert(whole.skip(i as int).drop_first() =~= whole.skip(i as int + 1));
            lemma_lookup_find(whole.skip(i as int), name@);
            lemma_lookup_find(whole.skip(i as int + 1), name@);
        }
        if fields[i].name == *name {
            return Some(i);
        }
        i += 1;
    }
    proof {
        assert(whole.skip(whole.len() as int) =~= Seq::<FieldValV>::empty());
    }
    None
}

/// The value of the first environment entry whose expression text matches,
/// if any.
pub fn env_lookup<'a>(env: &'a Vec<ExprVal>, expr: &String) -> (res: Option<&'a Value>)
    ensures
        res matches Some(v) ==> spec_env_lookup(env_view(env@), expr@) == Some(v@),
        res is None ==> spec_env_lookup(env_view(env@), expr@) is None,
{
    let ghost whole = env_view(env@);
    let mut i: usize = 0;
    proof {
        assert(whole.skip(0) =~= whole);
    }
    while i < env.len()
        invariant
            i <= env.len(),
            whole == env_view(env@),
            spec_env_lookup(whole, expr@) == spec_env_lookup(whole.skip(i as int), expr@),
        decreases env.len() - i,
    {
        proof {
            assert(whole.skip(i as int)[0] == whole[i as int]);
            assert(whole.skip(i as int).drop_first() =~= whole.skip(i as int + 1));
        }
        if env[i].expr == *expr {
            return Some(&env[i].value);
        }
        i += 1;
    }
    proof {
        assert(whole.skip(whole.len() as int) =~= Seq::<ExprValV>::empty());
    }
    None
}


/// Structural equality of two values, decided at run time; true exactly when
/// the views are equal.
pub fn value_eq(a: &Value, b: &Value) -> (r: bool)
    ensures
        r == (a@ == b@),
    decreases a,
{
    match (a, b) {
        (Value::Int(x), Value::Int(y)) => {
            let eqv = *x == *y;
            proof {
                assert(a@ == ValueV::Int(*x));
                assert(b@ == ValueV::Int(*y));
                if eqv {
                    assert(a@ == b@);
                } else {
                    assert(a@ != b@);
                }
            }
            eqv
        },
        (Value::Text(x), Value::Text(y)) => {
            let eqv = *x == *y;
            proof {
                assert(a@ == ValueV::Text(x@));
                assert(b@ == ValueV::Text(y@));
                assert(eqv == (x@ == y@));
                if eqv {
                    assert(a@ == b@);
                } else {
                    assert(a@ != b@);
                }
            }
            eqv
        },
        (Value::Unit, Value::Unit) => {
            proof {
                assert(a@ == ValueV::Unit);
                assert(b@ == ValueV::Unit);
            }
            true
        },
        (Value::List(xs), Value::List(ys)) => {
            proof {
                assert(a@->List_0 == Seq::new(xs@.len(), |k: int| value_view(xs@[k])));
                assert(b@->List_0 == Seq::new(ys@.len(), |k: int| value_view(ys@[k])));
            }
            if xs.len() != ys.len() {
                proof {
                    assert(a@->List_0.len() != b@->List_0.len());
                }
                return false;
            }
            let mut i: usize = 0;
            while i < xs.len()
                invariant
                    i <= xs.len(),
                    xs@.len() == ys@.len(),
                    *a == Value::List(*xs),
                    *b == Value::List(*ys),
                    forall|j: int| 0 <= j < i ==> xs@[j]@ == ys@[j]@,
                decreases xs.len() - i,
            {
                proof {
                    let av = *a;
                    assert(av->List_0 == *xs);
                    assert(decreases_to!(av => av->List_0));
                    assert(decreases_to!(av->List_0 => av->List_0@));
                    assert(decreases_to!(av->List_0@ => av->List_0@[i as int]));
                }
                if !value_eq(&xs[i], &ys[i]) {
                    proof {
                        assert(a@->List_0[i as int] == xs@[i as int]@);
                        assert(b@->List_0[i as int] == ys@[i as int]@);
                    }
                    return false;
                }
                i += 1;
            }
            proof {
                assert forall|k: int| 0 <= k < a@->List_0.len() implies a@->List_0[k]
                    == b@->List_0[k] by {
                    assert(a@->List_0[k] == xs@[k]@);
                    assert(b@->List_0[k] == ys@[k]@);
                }
                assert(a@->List_0 =~= b@->List_0);
                assert(a@ =~= b@);
            }
            true
        },
        _ => {
            proof {
                match a {
                    Value::Int(_) => assert(a@ is Int),
                    Value::Text(_) => assert(a@ is Text),
                    Value::List(_) => assert(a@ is List),
                    Value::Unit => assert(a@ is Unit),
                }
                match b {
                    Value::Int(_) => assert(b@ is Int),
                    Value::Text(_) => assert(b@ is Text),
                    Value::List(_) => assert(b@ is List),
                    Value::Unit => assert(b@ is Unit),
                }
            }
            false
        },
    }
}

/// Structural equality of two records, decided at run time; true exactly
/// when the views are equal.
pub fn record_eq(a: &RecordVal, b: &RecordVal) -> (r: bool)
    ensures
        r == (a@ == b@),
{
    if a.fields.len() != b.fields.len() {
        proof {
            assert(a@.len() != b@.len());
        }
        return false;
    }
    let mut i: usize = 0;
    while i < a.fields.len()
        invariant
            i <= a.fields.len(),
            a.fields@.len() == b.fields@.len(),
            forall|j: int| 0 <= j < i ==> a@[j] == b@[j],
        decreases a.fields.len() - i,
    {
        if !(a.fields[i].name == b.fields[i].name) {
            proof {
                assert(a@[i as int].name != b@[i as int].name);
            }
            return false;
        }
        if !value_eq(&a.fields[i].value, &b.fields[i].value) {
            proof {
                assert(a@[i as int].value != b@[i as int].value);
            }
            return false;
        }
        proof {
            assert(a@[i as int] =~= b@[i as int]);
        }
        i += 1;
    }
    proof {
        assert(a@ =~= b@);
    }
    true
}
} // verus!
