//! Attribute extraction and field classification.
//!
//! A first pass over the destination's fields extracts every recognized
//! default-value attribute into a field-name/expression list, stripping the
//! recognized attributes from the fields that carried one. The fields are
//! then partitioned into three disjoint buckets: defaulted fields (those
//! with a default-value attribute, which wins over every other
//! classification), fixed-size-array fields, and plain fields.

use vstd::prelude::*;

use crate::ast::{FieldAttr, FieldAttrV, FieldDecl, FieldDeclV, StructDecl, StructDeclV, TypeShape,
    attrs_view};

verus! {

/// An error that aborts a whole generation pass: a recognized attribute
/// whose argument is malformed, or more than one default-value attribute on
/// the same field. The payload names the offending field.
#[derive(Clone, Debug)]
pub enum GenError {
    MalformedAttribute { field: String },
    DuplicateDefault { field: String },
}

/// Spec-level counterpart of `GenError`.
#[verifier::ext_equal]
pub enum GenErrorV {
    MalformedAttribute { field: Seq<char> },
    DuplicateDefault { field: Seq<char> },
}

impl View for GenError {
    type V = GenErrorV;

    open spec fn view(&self) -> GenErrorV {
        match self {
            GenError::MalformedAttribute { field } => GenErrorV::MalformedAttribute {
                field: field@,
            },
            GenError::DuplicateDefault { field } => GenErrorV::DuplicateDefault { field: field@ },
        }
    }
}

/// What can go wrong while scanning one attribute list, before the field's
/// name is attached to it.
pub enum AttrFault {
    Malformed,
    Duplicate,
}

/// Scan an attribute list left to right, carrying the default expression
/// found so far. A malformed recognized attribute, or a second recognized
/// attribute, stops the scan with a fault.
pub open spec fn scan_attrs(attrs: Seq<FieldAttrV>, found: Option<Seq<char>>) -> Result<
    Option<Seq<char>>,
    AttrFault,
>
    decreases attrs.len(),
{
    if attrs.len() == 0 {
        Ok(found)
    } else {
        match attrs[0] {
            FieldAttrV::Other(_) => scan_attrs(attrs.drop_first(), found),
            FieldAttrV::Malformed => Err(AttrFault::Malformed),
            FieldAttrV::DefaultValue(e) => if found is Some {
                Err(AttrFault::Duplicate)
            } else {
                scan_attrs(attrs.drop_first(), Some(e))
            },
        }
    }
}

/// The default expression of one field, or the generation error its
/// attribute list causes.
pub open spec fn spec_field_default(f: FieldDeclV) -> Result<Option<Seq<char>>, GenErrorV> {
    match scan_attrs(f.attrs, None) {
        Ok(o) => Ok(o),
        Err(AttrFault::Malformed) => Err(GenErrorV::MalformedAttribute { field: f.name }),
        Err(AttrFault::Duplicate) => Err(GenErrorV::DuplicateDefault { field: f.name }),
    }
}

/// A field carries a default-value attribute.
pub open spec fn has_default(f: FieldDeclV) -> bool {
    exists|i: int| 0 <= i < f.attrs.len() && f.attrs[i] is DefaultValue
}

/// The three disjoint buckets a destination field can fall into.
pub enum FieldClass {
    PlainField,
    ArrayField,
    Defaulted,
}

/// Classification of one field: a default-value attribute wins over every
/// other classification; of the rest, fixed-size arrays are array fields and
/// everything else is plain.
pub open spec fn spec_class(f: FieldDeclV) -> FieldClass {
    if has_default(f) {
        FieldClass::Defaulted
    } else if f.shape is Array {
        FieldClass::ArrayField
    } else {
        FieldClass::PlainField
    }
}

/// The attributes that survive stripping: exactly those the generator does
/// not recognize, in their original order.
pub open spec fn keep_other(attrs: Seq<FieldAttrV>) -> Seq<FieldAttrV>
    decreases attrs.len(),
{
    if attrs.len() == 0 {
        Seq::empty()
    } else {
        let rest = keep_other(attrs.drop_last());
        if attrs.last() is Other {
            rest.push(attrs.last())
        } else {
            rest
        }
    }
}

/// A field as it is re-emitted: a defaulted field loses its recognized
/// attributes, every other field is unchanged.
pub open spec fn spec_strip_field(f: FieldDeclV) -> FieldDeclV {
    if has_default(f) {
        FieldDeclV { name: f.name, shape: f.shape, attrs: keep_other(f.attrs) }
    } else {
        f
    }
}

/// The declaration as it is re-emitted, field by field.
pub open spec fn spec_strip(s: StructDeclV) -> StructDeclV {
    StructDeclV {
        name: s.name,
        generics: s.generics,
        fields: Seq::new(s.fields.len(), |i: int| spec_strip_field(s.fields[i])),
    }
}

/// The names of the plain fields, in declaration order.
pub open spec fn spec_plain_names(fields: Seq<FieldDeclV>) -> Seq<Seq<char>>
    decreases fields.len(),
{
    if fields.len() == 0 {
        Seq::empty()
    } else {
        let rest = spec_plain_names(fields.drop_last());
        if spec_class(fields.last()) is PlainField {
            rest.push(fields.last().name)
        } else {
            rest
        }
    }
}

/// An array field: its name and the compile-time length of its type.
#[derive(Clone, Debug)]
pub struct ArrayField {
    pub name: String,
    pub len: usize,
}

/// Spec-level counterpart of `ArrayField`.
#[verifier::ext_equal]
pub struct ArrayFieldV {
    pub name: Seq<char>,
    pub len: usize,
}

impl View for ArrayField {
    type V = ArrayFieldV;

    open spec fn view(&self) -> ArrayFieldV {
        ArrayFieldV { name: self.name@, len: self.len }
    }
}

/// The view of an array-field list, element by element.
pub open spec fn array_fields_view(a: Seq<ArrayField>) -> Seq<ArrayFieldV> {
    Seq::new(a.len(), |i: int| a[i]@)
}

/// The array fields, in declaration order, with their lengths.
pub open spec fn spec_array_fields(fields: Seq<FieldDeclV>) -> Seq<ArrayFieldV>
    decreases fields.len(),
{
    if fields.len() == 0 {
        Seq::empty()
    } else {
        let rest = spec_array_fields(fields.drop_last());
        if spec_class(fields.last()) is ArrayField {
            rest.push(
                ArrayFieldV {
                    name: fields.last().name,
                    len: fields.last().shape->Array_0,
                },
            )
        } else {
            rest
        }
    }
}

/// One extracted default: a field's name and the token text of its
/// default-value expression.
#[derive(Clone, Debug)]
pub struct DefaultEntry {
    pub field: String,
    pub expr: String,
}

/// Spec-level counterpart of `DefaultEntry`.
#[verifier::ext_equal]
pub struct DefaultEntryV {
    pub field: Seq<char>,
    pub expr: Seq<char>,
}

impl View for DefaultEntry {
    type V = DefaultEntryV;

    open spec fn view(&self) -> DefaultEntryV {
        DefaultEntryV { field: self.field@, expr: self.expr@ }
    }
}

/// The view of a default-entry list, element by element.
pub open spec fn defaults_view(ds: Seq<DefaultEntry>) -> Seq<DefaultEntryV> {
    Seq::new(ds.len(), |i: int| ds[i]@)
}

/// Extraction over a whole field list: the defaulted fields with their
/// expressions, in declaration order, or the error of the first offending
/// field.
pub open spec fn spec_extract(fields: Seq<FieldDeclV>) -> Result<Seq<DefaultEntryV>, GenErrorV>
    decreases fields.len(),
{
    if fields.len() == 0 {
        Ok(Seq::empty())
    } else {
        match spec_extract(fields.drop_last()) {
            Err(e) => Err(e),
            Ok(front) => match spec_field_default(fields.last()) {
                Err(e) => Err(e),
                Ok(None) => Ok(front),
                Ok(Some(expr)) => Ok(
                    front.push(DefaultEntryV { field: fields.last().name, expr }),
                ),
            },
        }
    }
}

/// When a scan ends without a fault, it found a default expression exactly
/// when it started with one or the list holds a recognized attribute.
pub proof fn lemma_scan_default(attrs: Seq<FieldAttrV>, found: Option<Seq<char>>)
    ensures
        scan_attrs(attrs, found) matches Ok(r) ==> ((r is Some) <==> (found is Some || exists|i: int|
            0 <= i < attrs.len() && attrs[i] is DefaultValue)),
    decreases attrs.len(),
{
    if attrs.len() == 0 {
    } else {
        let rest = attrs.drop_first();
        match attrs[0] {
            FieldAttrV::Other(_) => {
                lemma_scan_default(rest, found);
                if scan_attrs(attrs, found) matches Ok(r) {
                    if exists|i: int| 0 <= i < rest.len() && rest[i] is DefaultValue {
                        let i = choose|i: int| 0 <= i < rest.len() && rest[i] is DefaultValue;
                        assert(attrs[i + 1] is DefaultValue);
                    }
                    if exists|i: int| 0 <= i < attrs.len() && attrs[i] is DefaultValue {
                        let i = choose|i: int| 0 <= i < attrs.len() && attrs[i] is DefaultValue;
                        assert(i >= 1 && rest[i - 1] is DefaultValue);
                    }
                }
            },
            FieldAttrV::Malformed => {},
            FieldAttrV::DefaultValue(e) => {
                if found is Some {
                } else {
                    lemma_scan_default(rest, Some(e));
                    assert(attrs[0] is DefaultValue);
                }
            },
        }
    }
}

/// A field whose scan faults makes the extraction of every field list that
/// starts with it fail with that field's error.
pub proof fn lemma_extract_first_err(fields: Seq<FieldDeclV>, i: int)
    requires
        0 <= i < fields.len(),
        spec_extract(fields.take(i)) is Ok,
        spec_field_default(fields[i]) is Err,
    ensures
        spec_extract(fields) == Result::<Seq<DefaultEntryV>, GenErrorV>::Err(
            spec_field_default(fields[i])->Err_0,
        ),
    decreases fields.len(),
{
    let last = fields.len() - 1;
    assert(fields.drop_last() =~= fields.take(last));
    if i == last {
        assert(spec_extract(fields.take(i)) is Ok);
    } else {
        assert(fields.take(last).take(i) =~= fields.take(i));
        assert(fields.take(last)[i] == fields[i]);
        lemma_extract_first_err(fields.take(last), i);
    }
}

/// When extraction over a field list succeeds, every single field's scan
/// succeeds.
pub proof fn lemma_extract_ok_each(fields: Seq<FieldDeclV>)
    ensures
        spec_extract(fields) is Ok ==> forall|i: int|
            0 <= i < fields.len() ==> (#[trigger] spec_field_default(fields[i])) is Ok,
    decreases fields.len(),
{
    if fields.len() == 0 {
    } else {
        lemma_extract_ok_each(fields.drop_last());
        if spec_extract(fields) is Ok {
            assert(forall|i: int|
                0 <= i < fields.len() - 1 ==> fields.drop_last()[i] == fields[i]);
        }
    }
}


/// Copy one attribute; the copy has the same view.
pub fn dup_attr(a: &FieldAttr) -> (r: FieldAttr)
    ensures
        r@ == a@,
{
    match a {
        FieldAttr::Other(s) => FieldAttr::Other(s.clone()),
        FieldAttr::DefaultValue(s) => FieldAttr::DefaultValue(s.clone()),
        FieldAttr::Malformed => FieldAttr::Malformed,
    }
}

/// Copy a string list; the copy has the same view.
pub fn clone_strings(v: &Vec<String>) -> (r: Vec<String>)
    ensures
        r.deep_view() == v.deep_view(),
{
    let mut out: Vec<String> = Vec::new();
    let mut i: usize = 0;
    while i < v.len()
        invariant
            i <= v.len(),
            out@.len() == i,
            forall|j: int| 0 <= j < i ==> out@[j]@ == v@[j]@,
        decreases v.len() - i,
    {
        out.push(v[i].clone());
        i += 1;
    }
    proof {
        assert(out.deep_view() =~= v.deep_view());
    }
    out
}

/// Copy one field; the copy has the same view.
pub fn dup_field(f: &FieldDecl) -> (r: FieldDecl)
    ensures
        r@ == f@,
{
    let mut attrs: Vec<FieldAttr> = Vec::new();
    let mut i: usize = 0;
    while i < f.attrs.len()
        invariant
            i <= f.attrs.len(),
            attrs@.len() == i,
            forall|j: int| 0 <= j < i ==> attrs@[j]@ == f.attrs@[j]@,
        decreases f.attrs.len() - i,
    {
        attrs.push(dup_attr(&f.attrs[i]));
        i += 1;
    }
    let r = FieldDecl { name: f.name.clone(), shape: f.shape, attrs };
    proof {
        assert(r@.attrs =~= f@.attrs);
        assert(r@ =~= f@);
    }
    r
}

/// Copy a whole declaration; the copy has the same view.
pub fn dup_struct(s: &StructDecl) -> (r: StructDecl)
    ensures
        r@ == s@,
{
    let mut fields: Vec<FieldDecl> = Vec::new();
    let mut i: usize = 0;
    while i < s.fields.len()
        invariant
            i <= s.fields.len(),
            fields@.len() == i,
            forall|j: int| 0 <= j < i ==> fields@[j]@ == s.fields@[j]@,
        decreases s.fields.len() - i,
    {
        fields.push(dup_field(&s.fields[i]));
        i += 1;
    }
    let r = StructDecl { name: s.name.clone(), generics: clone_strings(&s.generics), fields };
    proof {
        assert(r@.fields =~= s@.fields);
        assert(r@ =~= s@);
    }
    r
}

/// The attributes the generator does not recognize, in their original order.
pub fn strip_attrs(attrs: &Vec<FieldAttr>) -> (r: Vec<FieldAttr>)
    ensures
        attrs_view(r@) == keep_other(attrs_view(attrs@)),
{
    let ghost whole = attrs_view(attrs@);
    let mut out: Vec<FieldAttr> = Vec::new();
    let mut i: usize = 0;
    while i < attrs.len()
        invariant
            i <= attrs.len(),
            whole == attrs_view(attrs@),
            attrs_view(out@) == keep_other(whole.take(i as int)),
        decreases attrs.len() - i,
    {
        let ghost before = attrs_view(out@);
        match &attrs[i] {
            FieldAttr::Other(_) => {
                let a = dup_attr(&attrs[i]);
                out.push(a);
            },
            FieldAttr::DefaultValue(_) => {},
            FieldAttr::Malformed => {},
        }
        i += 1;
        proof {
            let ii = i as int;
            assert(whole.take(ii).drop_last() =~= whole.take(ii - 1));
            assert(whole.take(ii).last() == whole[ii - 1]);
            if whole[ii - 1] is Other {
                assert(attrs_view(out@) =~= before.push(whole[ii - 1]));
            } else {
                assert(attrs_view(out@) =~= before);
            }
        }
    }
    proof {
        assert(whole.take(attrs@.len() as int) =~= whole);
    }
    out
}

/// Remove the generator's recognized attributes from a field, keeping every
/// other attribute in order; the field's name and type are untouched.
pub fn remove_attrs(field: &mut FieldDecl)
    ensures
        final(field)@.name == old(field)@.name,
        final(field)@.shape == old(field)@.shape,
        final(field)@.attrs == keep_other(old(field)@.attrs),
{
    let stripped = strip_attrs(&field.attrs);
    field.attrs = stripped;
}

/// The view of an optional expression.
pub open spec fn opt_view(o: Option<String>) -> Option<Seq<char>> {
    match o {
        Some(s) => Some(s@),
        None => None,
    }
}

/// The view of an extraction result.
pub open spec fn view_default_result(r: Result<Option<String>, GenError>) -> Result<
    Option<Seq<char>>,
    GenErrorV,
> {
    match r {
        Ok(o) => Ok(opt_view(o)),
        Err(e) => Err(e@),
    }
}

/// Locate at most one recognized default-value attribute on a field and hand
/// back its expression argument; a malformed recognized attribute, or a
/// second one, is a generation error naming the field.
pub fn field_default_value(f: &FieldDecl) -> (r: Result<Option<String>, GenError>)
    ensures
        view_default_result(r) == spec_field_default(f@),
{
    let ghost whole = f@.attrs;
    let mut found: Option<String> = None;
    let mut i: usize = 0;
    proof {
        assert(whole.skip(0) =~= whole);
    }
    while i < f.attrs.len()
        invariant
            i <= f.attrs.len(),
            whole == f@.attrs,
            scan_attrs(whole, None) == scan_attrs(whole.skip(i as int), opt_view(found)),
        decreases f.attrs.len() - i,
    {
        let ghost ii = i as int;
        proof {
            assert(whole.skip(ii)[0] == whole[ii]);
            assert(whole.skip(ii).drop_first() =~= whole.skip(ii + 1));
        }
        match &f.attrs[i] {
            FieldAttr::Other(_) => {},
            FieldAttr::Malformed => {
                return Err(GenError::MalformedAttribute { field: f.name.clone() });
            },
            FieldAttr::DefaultValue(e) => {
                if found.is_some() {
                    return Err(GenError::DuplicateDefault { field: f.name.clone() });
                }
                found = Some(e.clone());
            },
        }
        i += 1;
    }
    proof {
        assert(whole.skip(whole.len() as int) =~= Seq::<FieldAttrV>::empty());
    }
    Ok(found)
}

/// Extract every recognized default-value attribute of the declaration into
/// a field-name/expression list, in declaration order, stripping the
/// recognized attributes from each field that carried one. A malformed or
/// duplicated recognized attribute fails the whole pass and leaves the
/// declaration untouched.
pub fn extract_defaults_from_input(input: &mut StructDecl) -> (r: Result<
    Vec<DefaultEntry>,
    GenError,
>)
    ensures
        r matches Ok(ds) ==> {
            &&& spec_extract(old(input)@.fields) == Ok::<_, GenErrorV>(defaults_view(ds@))
            &&& final(input)@ == spec_strip(old(input)@)
        },
        r matches Err(e) ==> {
            &&& spec_extract(old(input)@.fields) == Err::<Seq<DefaultEntryV>, _>(e@)
            &&& final(input)@ == old(input)@
        },
{
    let ghost fs = old(input)@.fields;
    let mut defaults: Vec<DefaultEntry> = Vec::new();
    let mut new_fields: Vec<FieldDecl> = Vec::new();
    let mut i: usize = 0;
    proof {
        assert(fs.take(0) =~= Seq::<FieldDeclV>::empty());
        assert(defaults_view(defaults@) =~= Seq::<DefaultEntryV>::empty());
    }
    while i < input.fields.len()
        invariant
            i <= input.fields.len(),
            input@ == old(input)@,
            fs == old(input)@.fields,
            spec_extract(fs.take(i as int)) == Ok::<_, GenErrorV>(defaults_view(defaults@)),
            new_fields@.len() == i,
            forall|j: int| 0 <= j < i ==> new_fields@[j]@ == spec_strip_field(fs[j]),
        decreases input.fields.len() - i,
    {
        let f = &input.fields[i];
        let ghost fv = fs[i as int];
        let ghost defaults_before = defaults_view(defaults@);
        proof {
            assert(fv == f@);
        }
        match field_default_value(f) {
            Err(e) => {
                proof {
                    lemma_extract_first_err(fs, i as int);
                }
                return Err(e);
            },
            Ok(Some(expr)) => {
                defaults.push(DefaultEntry { field: f.name.clone(), expr });
                let stripped = strip_attrs(&f.attrs);
                new_fields.push(FieldDecl { name: f.name.clone(), shape: f.shape, attrs: stripped });
                proof {
                    lemma_scan_default(fv.attrs, None);
                    assert(has_default(fv));
                    assert(new_fields@[i as int]@ =~= spec_strip_field(fv));
                    assert(defaults_view(defaults@) =~= defaults_before.push(
                        DefaultEntryV { field: fv.name, expr: expr@ },
                    ));
                }
            },
            Ok(None) => {
                let copy = dup_field(f);
                new_fields.push(copy);
                proof {
                    lemma_scan_default(fv.attrs, None);
                    assert(!has_default(fv));
                    assert(new_fields@[i as int]@ == spec_strip_field(fv));
                }
            },
        }
        i += 1;
        proof {
            let ii = i as int;
            assert(fs.take(ii).drop_last() =~= fs.take(ii - 1));
            assert(fs.take(ii).last() == fs[ii - 1]);
        }
    }
    proof {
        assert(fs.take(fs.len() as int) =~= fs);
    }
    input.fields = new_fields;
    proof {
        assert(input@.fields =~= spec_strip(old(input)@).fields);
        assert(input@ =~= spec_strip(old(input)@));
    }
    Ok(defaults)
}

/// Everything one generation pass reads off the destination declaration: the
/// declaration as it will be re-emitted (recognized attributes stripped), the
/// destination's name and generic parameters, and the three field buckets.
pub struct ImplData {
    pub raw_into: StructDecl,
    pub into: String,
    pub generics: Vec<String>,
    pub fields: Vec<String>,
    pub array_fields: Vec<ArrayField>,
    pub defaults: Vec<DefaultEntry>,
}

/// Read one destination declaration into its `ImplData`: extract and strip
/// the default-value attributes, then partition the remaining fields into
/// the plain and fixed-size-array buckets, preserving declaration order
/// within each bucket.
pub fn from_parsed_input(input: StructDecl) -> (r: Result<ImplData, GenError>)
    ensures
        r matches Ok(d) ==> {
            &&& spec_extract(input@.fields) == Ok::<_, GenErrorV>(defaults_view(d.defaults@))
            &&& d.raw_into@ == spec_strip(input@)
            &&& d.into@ == input@.name
            &&& d.generics.deep_view() == input@.generics
            &&& d.fields.deep_view() == spec_plain_names(input@.fields)
            &&& array_fields_view(d.array_fields@) == spec_array_fields(input@.fields)
        },
        r matches Err(e) ==> spec_extract(input@.fields) == Err::<Seq<DefaultEntryV>, _>(e@),
{
    let ghost fs = input@.fields;
    let mut raw_into = dup_struct(&input);
    let defaults = match extract_defaults_from_input(&mut raw_into) {
        Ok(ds) => ds,
        Err(e) => {
            return Err(e);
        },
    };
    proof {
        lemma_extract_ok_each(fs);
    }
    let mut plain: Vec<String> = Vec::new();
    let mut arrays: Vec<ArrayField> = Vec::new();
    let mut i: usize = 0;
    proof {
        assert(fs.take(0) =~= Seq::<FieldDeclV>::empty());
        assert(plain.deep_view() =~= Seq::<Seq<char>>::empty());
        assert(array_fields_view(arrays@) =~= Seq::<ArrayFieldV>::empty());
    }
    while i < input.fields.len()
        invariant
            i <= input.fields.len(),
            fs == input@.fields,
            spec_extract(fs) is Ok,
            forall|j: int| 0 <= j < fs.len() ==> (#[trigger] spec_field_default(fs[j])) is Ok,
            plain.deep_view() == spec_plain_names(fs.take(i as int)),
            array_fields_view(arrays@) == spec_array_fields(fs.take(i as int)),
        decreases input.fields.len() - i,
    {
        let f = &input.fields[i];
        let ghost fv = fs[i as int];
        let ghost plain_before = plain.deep_view();
        let ghost arrays_before = array_fields_view(arrays@);
        proof {
            assert(fv == f@);
            lemma_scan_default(fv.attrs, None);
        }
        let defaulted = match field_default_value(f) {
            Ok(Some(_)) => true,
            Ok(None) => false,
            Err(e) => {
                proof {
                    assert(false);
                }
                return Err(e);
            },
        };
        if !defaulted {
            match f.shape {
                TypeShape::Array(n) => {
                    arrays.push(ArrayField { name: f.name.clone(), len: n });
                    proof {
                        assert(array_fields_view(arrays@) =~= arrays_before.push(
                            ArrayFieldV { name: fv.name, len: fv.shape->Array_0 },
                        ));
                    }
                },
                TypeShape::Plain => {
                    plain.push(f.name.clone());
                    proof {
                        assert(plain.deep_view() =~= plain_before.push(fv.name));
                    }
                },
            }
        }
        i += 1;
        proof {
            let ii = i as int;
            assert(fs.take(ii).drop_last() =~= fs.take(ii - 1));
            assert(fs.take(ii).last() == fs[ii - 1]);
        }
    }
    proof {
        assert(fs.take(fs.len() as int) =~= fs);
    }
    Ok(
        ImplData {
            raw_into,
            into: input.name,
            generics: input.generics,
            fields: plain,
            array_fields: arrays,
            defaults,
        },
    )
}

} // verus!
