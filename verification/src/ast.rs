//! The model of a destination type declaration, as far as the synthesizer
//! reads it: field names, whether a field's type is a fixed-size array, and
//! the attributes attached to each field.

use vstd::prelude::*;

verus! {

/// Shape of a field's declared type. The synthesizer only distinguishes
/// fixed-size arrays (whose compile-time length it records) from everything
/// else.
#[derive(Clone, Copy, PartialEq, Eq, Structural, Debug)]
pub enum TypeShape {
    Plain,
    Array(usize),
}

/// One attribute on a field, as the synthesizer classifies it.
///
/// `Other` is an attribute the generator does not recognize; it carries the
/// attribute's token text so the declaration can be re-emitted. A recognized
/// default-value attribute carries the token text of its expression argument.
/// A recognized attribute whose argument does not parse is `Malformed`.
#[derive(Clone, Debug)]
pub enum FieldAttr {
    Other(String),
    DefaultValue(String),
    Malformed,
}

/// Spec-level counterpart of `FieldAttr`.
#[verifier::ext_equal]
pub enum FieldAttrV {
    Other(Seq<char>),
    DefaultValue(Seq<char>),
    Malformed,
}

impl View for FieldAttr {
    type V = FieldAttrV;

    open spec fn view(&self) -> FieldAttrV {
        match self {
            FieldAttr::Other(s) => FieldAttrV::Other(s@),
            FieldAttr::DefaultValue(s) => FieldAttrV::DefaultValue(s@),
            FieldAttr::Malformed => FieldAttrV::Malformed,
        }
    }
}

/// The view of an attribute list, element by element.
pub open spec fn attrs_view(attrs: Seq<FieldAttr>) -> Seq<FieldAttrV> {
    Seq::new(attrs.len(), |i: int| attrs[i]@)
}

/// One named field of the destination declaration.
#[derive(Clone, Debug)]
pub struct FieldDecl {
    pub name: String,
    pub shape: TypeShape,
    pub attrs: Vec<FieldAttr>,
}

/// Spec-level counterpart of `FieldDecl`.
#[verifier::ext_equal]
pub struct FieldDeclV {
    pub name: Seq<char>,
    pub shape: TypeShape,
    pub attrs: Seq<FieldAttrV>,
}

impl View for FieldDecl {
    type V = FieldDeclV;

    open spec fn view(&self) -> FieldDeclV {
        FieldDeclV {
            name: self.name@,
            shape: self.shape,
            attrs: attrs_view(self.attrs@),
        }
    }
}

/// The view of a field list, element by element.
pub open spec fn fields_view(fields: Seq<FieldDecl>) -> Seq<FieldDeclV> {
    Seq::new(fields.len(), |i: int| fields[i]@)
}

/// The destination type declaration: its name, the names of its generic
/// parameters, and its ordered field list.
#[derive(Clone, Debug)]
pub struct StructDecl {
    pub name: String,
    pub generics: Vec<String>,
    pub fields: Vec<FieldDecl>,
}

/// Spec-level counterpart of `StructDecl`.
#[verifier::ext_equal]
pub struct StructDeclV {
    pub name: Seq<char>,
    pub generics: Seq<Seq<char>>,
    pub fields: Seq<FieldDeclV>,
}

impl View for StructDecl {
    type V = StructDeclV;

    open spec fn view(&self) -> StructDeclV {
        StructDeclV {
            name: self.name@,
            generics: self.generics.deep_view(),
            fields: fields_view(self.fields@),
        }
    }
}

/// A fully qualified type path: a nonempty sequence of identifier segments.
#[derive(Clone, Debug)]
pub struct TypePath {
    pub segments: Vec<String>,
}

impl View for TypePath {
    type V = Seq<Seq<char>>;

    open spec fn view(&self) -> Seq<Seq<char>> {
        self.segments.deep_view()
    }
}

/// A struct declaration is well formed when its field names are pairwise
/// distinct, as the host language guarantees for a named-field struct.
pub open spec fn wf_struct(s: StructDeclV) -> bool {
    forall|i: int, j: int|
        0 <= i < j < s.fields.len() ==> s.fields[i].name != s.fields[j].name
}

} // verus!
