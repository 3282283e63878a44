//! The repeated fields of a message, as protobuf holds them.

use protobuf::RepeatedField;
use vstd::prelude::*;

use crate::messages::{JobGraphPackageReverseDependencyGroup, JobGroupProject};
use crate::text::sorted_texts;

verus! {

/// Protobuf's container for the values of a repeated field.
#[verifier::external_type_specification]
#[verifier::external_body]
#[verifier::reject_recursive_types(T)]
pub struct ExRepeatedField<T>(RepeatedField<T>);

/// The texts that a repeated field holds, in order.
pub uninterp spec fn texts(field: RepeatedField<String>) -> Seq<Seq<char>>;

/// The projects that a repeated field holds, in order.
pub uninterp spec fn projects(field: RepeatedField<JobGroupProject>) -> Seq<JobGroupProject>;

/// The build groups that a repeated field holds, in order.
pub uninterp spec fn groups(
    field: RepeatedField<JobGraphPackageReverseDependencyGroup>,
) -> Seq<JobGraphPackageReverseDependencyGroup>;

/// `RepeatedField::from_vec` on texts: the field holds what the vector held, in its order.
#[verifier::external_body]
pub(crate) fn texts_from_vec(vec: Vec<String>) -> (field: RepeatedField<String>)
    ensures
        texts(field) == vec.deep_view(),
{
    RepeatedField::from_vec(vec)
}

/// `RepeatedField::new` for texts: the field is empty.
#[verifier::external_body]
pub(crate) fn texts_new() -> (field: RepeatedField<String>)
    ensures
        texts(field) == Seq::<Seq<char>>::empty(),
{
    RepeatedField::new()
}

/// `RepeatedField::push` of a text: it stands behind those that the field held.
#[verifier::external_body]
pub(crate) fn texts_push(field: &mut RepeatedField<String>, text: String)
    ensures
        texts(*final(field)) == texts(*old(field)).push(text@),
{
    field.push(text)
}

/// The `sort` of slices, which a field of texts has by dereference: what the field held, each
/// text as often as before, in ascending order. Texts are ordered by their bytes, which in
/// UTF-8 is the order of their code points.
#[verifier::external_body]
pub(crate) fn texts_sort(field: &mut RepeatedField<String>)
    ensures
        sorted_texts(texts(*final(field))),
        texts(*final(field)).to_multiset() == texts(*old(field)).to_multiset(),
{
    field.sort()
}

/// `RepeatedField::new` for projects: the field is empty.
#[verifier::external_body]
pub(crate) fn projects_new() -> (field: RepeatedField<JobGroupProject>)
    ensures
        projects(field) == Seq::<JobGroupProject>::empty(),
{
    RepeatedField::new()
}

/// `RepeatedField::new` for build groups: the field is empty.
#[verifier::external_body]
pub(crate) fn groups_new() -> (field: RepeatedField<JobGraphPackageReverseDependencyGroup>)
    ensures
        groups(field) == Seq::<JobGraphPackageReverseDependencyGroup>::empty(),
{
    RepeatedField::new()
}

/// `RepeatedField::from_vec` on build groups: the field holds what the vector held, in its order.
#[verifier::external_body]
pub(crate) fn groups_from_vec(
    vec: Vec<JobGraphPackageReverseDependencyGroup>,
) -> (field: RepeatedField<JobGraphPackageReverseDependencyGroup>)
    ensures
        groups(field) == vec@,
{
    RepeatedField::from_vec(vec)
}

/// `RepeatedField::as_slice` on projects: the slice holds what the field holds, in its order.
#[verifier::external_body]
pub(crate) fn projects_as_slice(field: &RepeatedField<JobGroupProject>) -> (slice: &[JobGroupProject])
    ensures
        slice@ == projects(*field),
{
    field.as_slice()
}

} // verus!
