//! Construction of the generated artifact.
//!
//! One generation pass produces two pieces: the destination declaration as
//! it is re-emitted (recognized attributes stripped), and a conversion plan
//! that says how each destination field is filled from a source value. The
//! plan lists one initializer clause per field — a generic per-field
//! conversion for plain fields, a placeholder for fixed-size-array fields,
//! and the stored expression for defaulted fields — followed by one
//! element-wise overwrite per array field. When the destination has no array
//! fields the overwrite list is empty and the plan is a single aggregate
//! initialization, exactly the two emission strategies of the generator.

use vstd::prelude::*;

use crate::ast::{StructDecl, StructDeclV, TypePath};
use crate::classify::{ArrayFieldV, DefaultEntryV, GenError, GenErrorV, array_fields_view,
    defaults_view, from_parsed_input, spec_array_fields, spec_extract, spec_plain_names,
    spec_strip};

verus! {

/// One initializer clause of the generated conversion routine.
///
/// `Convert` fills the field with the generic per-field conversion of the
/// source's same-named field. `ArrayPlaceholder` fills a fixed-size-array
/// field with a placeholder that a later overwrite replaces element by
/// element. `Default` fills the field by evaluating the stored expression,
/// ignoring the source entirely.
#[derive(Clone, Debug)]
pub enum InitClause {
    Convert { field: String },
    ArrayPlaceholder { field: String, len: usize },
    Default { field: String, expr: String },
}

/// Spec-level counterpart of `InitClause`.
#[verifier::ext_equal]
pub enum InitClauseV {
    Convert { field: Seq<char> },
    ArrayPlaceholder { field: Seq<char>, len: usize },
    Default { field: Seq<char>, expr: Seq<char> },
}

impl View for InitClause {
    type V = InitClauseV;

    open spec fn view(&self) -> InitClauseV {
        match self {
            InitClause::Convert { field } => InitClauseV::Convert { field: field@ },
            InitClause::ArrayPlaceholder { field, len } => InitClauseV::ArrayPlaceholder {
                field: field@,
                len: *len,
            },
            InitClause::Default { field, expr } => InitClauseV::Default {
                field: field@,
                expr: expr@,
            },
        }
    }
}

/// The view of an initializer-clause list, element by element.
pub open spec fn clauses_view(cs: Seq<InitClause>) -> Seq<InitClauseV> {
    Seq::new(cs.len(), |i: int| cs[i]@)
}

/// The generated conversion routine: from a value of the source type, build
/// a destination value by the initializer clauses, then overwrite each array
/// field element by element from the source's same-named field.
#[derive(Clone, Debug)]
pub struct Conversion {
    pub source: TypePath,
    pub dest: String,
    pub generics: Vec<String>,
    pub inits: Vec<InitClause>,
    pub overwrites: Vec<String>,
}

/// Spec-level counterpart of `Conversion`.
#[verifier::ext_equal]
pub struct ConversionV {
    pub source: Seq<Seq<char>>,
    pub dest: Seq<char>,
    pub generics: Seq<Seq<char>>,
    pub inits: Seq<InitClauseV>,
    pub overwrites: Seq<Seq<char>>,
}

impl View for Conversion {
    type V = ConversionV;

    open spec fn view(&self) -> ConversionV {
        ConversionV {
            source: self.source@,
            dest: self.dest@,
            generics: self.generics.deep_view(),
            inits: clauses_view(self.inits@),
            overwrites: self.overwrites.deep_view(),
        }
    }
}

/// The whole output of one generation pass: the re-emitted declaration and
/// the conversion routine.
#[derive(Clone, Debug)]
pub struct Artifact {
    pub decl: StructDecl,
    pub conv: Conversion,
}

/// Spec-level counterpart of `Artifact`.
#[verifier::ext_equal]
pub struct ArtifactV {
    pub decl: StructDeclV,
    pub conv: ConversionV,
}

impl View for Artifact {
    type V = ArtifactV;

    open spec fn view(&self) -> ArtifactV {
        ArtifactV { decl: self.decl@, conv: self.conv@ }
    }
}

/// One `Convert` clause per plain field, in bucket order.
pub open spec fn spec_convert_clauses(names: Seq<Seq<char>>) -> Seq<InitClauseV> {
    Seq::new(names.len(), |i: int| InitClauseV::Convert { field: names[i] })
}

/// One `ArrayPlaceholder` clause per array field, in bucket order.
pub open spec fn spec_placeholder_clauses(arrays: Seq<ArrayFieldV>) -> Seq<InitClauseV> {
    Seq::new(
        arrays.len(),
        |i: int| InitClauseV::ArrayPlaceholder { field: arrays[i].name, len: arrays[i].len },
    )
}

/// One `Default` clause per defaulted field, in bucket order.
pub open spec fn spec_default_clauses(ds: Seq<DefaultEntryV>) -> Seq<InitClauseV> {
    Seq::new(ds.len(), |i: int| InitClauseV::Default { field: ds[i].field, expr: ds[i].expr })
}

/// The names of the array fields, in bucket order.
pub open spec fn spec_overwrite_names(arrays: Seq<ArrayFieldV>) -> Seq<Seq<char>> {
    Seq::new(arrays.len(), |i: int| arrays[i].name)
}

/// The whole generation pass over a destination declaration and a source
/// type path, as a mathematical function.
pub open spec fn spec_construct(from: Seq<Seq<char>>, into: StructDeclV) -> Result<
    ArtifactV,
    GenErrorV,
> {
    match spec_extract(into.fields) {
        Err(e) => Err(e),
        Ok(ds) => Ok(
            ArtifactV {
                decl: spec_strip(into),
                conv: ConversionV {
                    source: from,
                    dest: into.name,
                    generics: into.generics,
                    inits: spec_convert_clauses(spec_plain_names(into.fields))
                        + spec_placeholder_clauses(spec_array_fields(into.fields))
                        + spec_default_clauses(ds),
                    overwrites: spec_overwrite_names(spec_array_fields(into.fields)),
                },
            },
        ),
    }
}

/// Build the artifact for a destination declaration and a source type path:
/// classify the fields, strip the recognized attributes, and lay out the
/// conversion plan — plain conversions first, then array placeholders, then
/// defaults, then one overwrite per array field.
pub fn construct_conversion(from: TypePath, into: StructDecl) -> (r: Result<Artifact, GenError>)
    ensures
        r matches Ok(a) ==> Ok::<_, GenErrorV>(a@) == spec_construct(from@, into@),
        r matches Err(e) ==> Err::<ArtifactV, _>(e@) == spec_construct(from@, into@),
{
    let ghost intov = into@;
    let d = match from_parsed_input(into) {
        Ok(d) => d,
        Err(e) => {
            return Err(e);
        },
    };
    let ghost plainv = spec_plain_names(intov.fields);
    let ghost arraysv = spec_array_fields(intov.fields);
    let ghost defaultsv = defaults_view(d.defaults@);

    let mut inits: Vec<InitClause> = Vec::new();
    let mut i: usize = 0;
    while i < d.fields.len()
        invariant
            i <= d.fields.len(),
            d.fields.deep_view() == plainv,
            inits@.len() == i,
            forall|j: int| 0 <= j < i ==> inits@[j]@ == spec_convert_clauses(plainv)[j],
        decreases d.fields.len() - i,
    {
        inits.push(InitClause::Convert { field: d.fields[i].clone() });
        i += 1;
    }
    proof {
        assert(clauses_view(inits@) =~= spec_convert_clauses(plainv));
    }
    let ghost part1 = clauses_view(inits@);

    let mut i: usize = 0;
    while i < d.array_fields.len()
        invariant
            i <= d.array_fields.len(),
            array_fields_view(d.array_fields@) == arraysv,
            inits@.len() == part1.len() + i,
            clauses_view(inits@).take(part1.len() as int) == part1,
            forall|j: int|
                0 <= j < i ==> inits@[part1.len() + j]@ == spec_placeholder_clauses(arraysv)[j],
        decreases d.array_fields.len() - i,
    {
        let a = &d.array_fields[i];
        inits.push(InitClause::ArrayPlaceholder { field: a.name.clone(), len: a.len });
        i += 1;
        proof {
            assert(clauses_view(inits@).take(part1.len() as int) =~= part1);
        }
    }
    proof {
        assert(clauses_view(inits@) =~= part1 + spec_placeholder_clauses(arraysv));
    }
    let ghost part2 = clauses_view(inits@);

    let mut i: usize = 0;
    while i < d.defaults.len()
        invariant
            i <= d.defaults.len(),
            defaults_view(d.defaults@) == defaultsv,
            inits@.len() == part2.len() + i,
            clauses_view(inits@).take(part2.len() as int) == part2,
            forall|j: int|
                0 <= j < i ==> inits@[part2.len() + j]@ == spec_default_clauses(defaultsv)[j],
        decreases d.defaults.len() - i,
    {
        let e = &d.defaults[i];
        inits.push(InitClause::Default { field: e.field.clone(), expr: e.expr.clone() });
        i += 1;
        proof {
            assert(clauses_view(inits@).take(part2.len() as int) =~= part2);
        }
    }
    proof {
        assert(clauses_view(inits@) =~= part2 + spec_default_clauses(defaultsv));
    }

    let mut overwrites: Vec<String> = Vec::new();
    let mut i: usize = 0;
    while i < d.array_fields.len()
        invariant
            i <= d.array_fields.len(),
            array_fields_view(d.array_fields@) == arraysv,
            overwrites@.len() == i,
            forall|j: int| 0 <= j < i ==> overwrites@[j]@ == spec_overwrite_names(arraysv)[j],
        decreases d.array_fields.len() - i,
    {
        overwrites.push(d.array_fields[i].name.clone());
        i += 1;
    }
    proof {
        assert(overwrites.deep_view() =~= spec_overwrite_names(arraysv));
    }

    let r = Artifact {
        decl: d.raw_into,
        conv: Conversion {
            source: from,
            dest: d.into,
            generics: d.generics,
            inits,
            overwrites,
        },
    };
    proof {
        assert(r@.conv.inits =~= spec_convert_clauses(plainv) + spec_placeholder_clauses(arraysv)
            + spec_default_clauses(defaultsv));
        assert(r@ =~= spec_construct(from@, intov)->Ok_0);
    }
    Ok(r)
}

/// Direct entry point: generate the re-emitted declaration and the
/// conversion routine for a destination declaration, with the source type
/// named by an explicit path.
pub fn auto_from(attrs: TypePath, input: StructDecl) -> (r: Result<Artifact, GenError>)
    ensures
        r matches Ok(a) ==> Ok::<_, GenErrorV>(a@) == spec_construct(attrs@, input@),
        r matches Err(e) ==> Err::<ArtifactV, _>(e@) == spec_construct(attrs@, input@),
{
    construct_conversion(attrs, input)
}

/// Namespace entry point: the source type is not named explicitly but
/// computed as the supplied namespace path followed by the destination's own
/// identifier, and generation then proceeds exactly as with the direct entry
/// point on that path.
pub fn auto_from_ns(attrs: TypePath, input: StructDecl) -> (r: Result<Artifact, GenError>)
    ensures
        r matches Ok(a) ==> Ok::<_, GenErrorV>(a@) == spec_construct(
            attrs@.push(input@.name),
            input@,
        ),
        r matches Err(e) ==> Err::<ArtifactV, _>(e@) == spec_construct(
            attrs@.push(input@.name),
            input@,
        ),
{
    let mut from = attrs;
    from.segments.push(input.name.clone());
    proof {
        assert(from@ =~= attrs@.push(input@.name));
    }
    construct_conversion(from, input)
}

} // verus!
