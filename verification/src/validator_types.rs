//! The type-checking pass's view of a module's type section.
//!
//! The external validator owns the source-side identities: every type
//! definition has a type id, belongs to exactly one recursion group, and
//! groups enumerate their members in a fixed declaration order. This module
//! holds those facts as plain values so the interner can resolve references,
//! including forward references inside a group that is still being defined.

use vstd::prelude::*;

verus! {

/// How a source type body points at another type definition.
#[derive(Clone, Copy, Debug, PartialEq, Eq, Structural)]
pub enum UnpackedIndex {
    /// A validator-native reference: the target's type id.
    Id(usize),
    /// A module-local reference: an index into the module's own type-index
    /// space, translated through the module's type-index table.
    Module(usize),
}

/// A source-side heap type, with unresolved references.
#[derive(Clone, Copy, Debug, PartialEq, Eq, Structural)]
pub enum SourceHeapType {
    Extern,
    Func,
    Any,
    /// A reference to a concrete type definition, not yet resolved to a
    /// canonical index.
    Concrete(UnpackedIndex),
}

/// A source-side reference type.
#[derive(Clone, Copy, Debug, PartialEq, Eq, Structural)]
pub struct SourceRefType {
    pub nullable: bool,
    pub heap_type: SourceHeapType,
}

/// A source-side value type.
#[derive(Clone, Copy, Debug, PartialEq, Eq, Structural)]
pub enum SourceValType {
    I32,
    I64,
    Ref(SourceRefType),
}

/// A source-side function signature.
#[derive(Clone, Debug, PartialEq, Eq)]
pub struct SourceFuncType {
    pub params: Vec<SourceValType>,
    pub results: Vec<SourceValType>,
}

/// The mathematical model of a [`SourceFuncType`].
#[verifier::ext_equal]
pub ghost struct SourceFuncTypeView {
    pub params: Seq<SourceValType>,
    pub results: Seq<SourceValType>,
}

impl View for SourceFuncType {
    type V = SourceFuncTypeView;

    open spec fn view(&self) -> SourceFuncTypeView {
        SourceFuncTypeView { params: self.params@, results: self.results@ }
    }
}

/// One field of a source-side struct type, or the element of an array type.
#[derive(Clone, Copy, Debug, PartialEq, Eq, Structural)]
pub struct SourceFieldType {
    pub element_type: SourceValType,
    pub mutable: bool,
}

/// A source-side array type.
#[derive(Clone, Copy, Debug, PartialEq, Eq, Structural)]
pub struct SourceArrayType(pub SourceFieldType);

/// A source-side struct type.
#[derive(Clone, Debug, PartialEq, Eq)]
pub struct SourceStructType {
    pub fields: Vec<SourceFieldType>,
}

/// A source-side composite type.
#[derive(Clone, Debug, PartialEq, Eq)]
pub enum SourceCompositeType {
    Array(SourceArrayType),
    Func(SourceFuncType),
    Struct(SourceStructType),
}

/// The mathematical model of a [`SourceCompositeType`].
#[verifier::ext_equal]
pub ghost enum SourceCompositeTypeView {
    Array(SourceArrayType),
    Func(SourceFuncTypeView),
    Struct(Seq<SourceFieldType>),
}

impl View for SourceCompositeType {
    type V = SourceCompositeTypeView;

    open spec fn view(&self) -> SourceCompositeTypeView {
        match self {
            SourceCompositeType::Array(a) => SourceCompositeTypeView::Array(*a),
            SourceCompositeType::Func(f) => SourceCompositeTypeView::Func(f@),
            SourceCompositeType::Struct(s) => SourceCompositeTypeView::Struct(s.fields@),
        }
    }
}

/// A source-side type definition, as the validator hands it over.
#[derive(Clone, Debug, PartialEq, Eq)]
pub struct SourceSubType {
    /// Whether the definition is final (cannot be further subtyped).
    pub is_final: bool,
    /// The declared supertype's id, if any.
    pub supertype: Option<usize>,
    /// The definition's body.
    pub composite_type: SourceCompositeType,
}

/// The mathematical model of a [`SourceSubType`].
#[verifier::ext_equal]
pub ghost struct SourceSubTypeView {
    pub is_final: bool,
    pub supertype: Option<usize>,
    pub composite_type: SourceCompositeTypeView,
}

impl View for SourceSubType {
    type V = SourceSubTypeView;

    open spec fn view(&self) -> SourceSubTypeView {
        SourceSubTypeView {
            is_final: self.is_final,
            supertype: self.supertype,
            composite_type: self.composite_type@,
        }
    }
}

/// One validator session's type table: every type definition it has checked,
/// the recursion group each belongs to, and the members of every group in
/// declaration order. Type ids index `bodies` and `owner`; group ids index
/// `groups`.
#[derive(Clone, Debug)]
pub struct ValidatorTypes {
    /// The session identity: two tables with different ids come from
    /// different validator sessions and their ids must never be mixed.
    pub id: u64,
    /// The member type ids of each recursion group, in declaration order.
    pub groups: Vec<Vec<usize>>,
    /// The owning group of each type id.
    pub owner: Vec<usize>,
    /// The body of each type id.
    pub bodies: Vec<SourceSubType>,
}

/// The mathematical model of a [`ValidatorTypes`] table.
#[verifier::ext_equal]
pub ghost struct ValidatorTypesView {
    pub id: u64,
    pub groups: Seq<Seq<usize>>,
    pub owner: Seq<usize>,
    pub bodies: Seq<SourceSubTypeView>,
}

impl View for ValidatorTypes {
    type V = ValidatorTypesView;

    open spec fn view(&self) -> ValidatorTypesView {
        ValidatorTypesView {
            id: self.id,
            groups: self.groups@.map_values(|g: Vec<usize>| g@),
            owner: self.owner@,
            bodies: self.bodies@.map_values(|b: SourceSubType| b@),
        }
    }
}

impl ValidatorTypesView {
    /// Well-formedness of a validator table: every type id has an owner and
    /// a body, owners and group member lists agree, and no group lists a
    /// member twice.
    pub open spec fn wf(self) -> bool {
        &&& self.owner.len() == self.bodies.len()
        &&& forall|t: int|
            0 <= t < self.owner.len() ==> #[trigger] self.owner[t] < self.groups.len()
        &&& forall|t: int|
            0 <= t < self.owner.len() ==> self.groups[#[trigger] self.owner[t] as int].contains(
                t as usize,
            )
        &&& forall|g: int, i: int|
            0 <= g < self.groups.len() && 0 <= i < self.groups[g].len() ==> {
                &&& #[trigger] self.groups[g][i] < self.bodies.len()
                &&& self.owner[self.groups[g][i] as int] == g
            }
        &&& forall|g: int, i: int, j: int|
            0 <= g < self.groups.len() && 0 <= i < j < self.groups[g].len()
                ==> #[trigger] self.groups[g][i] != #[trigger] self.groups[g][j]
    }
}

impl ValidatorTypes {
    /// The id of this validator session.
    pub fn id(&self) -> (r: u64)
        ensures
            r == self@.id,
    {
        self.id
    }

    /// The number of recursion groups this session has checked.
    pub fn len_groups(&self) -> (r: usize)
        ensures
            r == self@.groups.len(),
    {
        self.groups.len()
    }

    /// The member type ids of a recursion group, in declaration order.
    pub fn rec_group_elements(&self, rec_group_id: usize) -> (r: &Vec<usize>)
        requires
            rec_group_id < self@.groups.len(),
        ensures
            r@ == self@.groups[rec_group_id as int],
    {
        &self.groups[rec_group_id]
    }

    /// The id of the recursion group that owns the given type id.
    pub fn rec_group_id_of(&self, id: usize) -> (r: usize)
        requires
            id < self@.owner.len(),
        ensures
            r == self@.owner[id as int],
    {
        self.owner[id]
    }

    /// The body of the given type id.
    pub fn body(&self, id: usize) -> (r: &SourceSubType)
        requires
            id < self@.bodies.len(),
        ensures
            r@ == self@.bodies[id as int],
    {
        &self.bodies[id]
    }
}

} // verus!
