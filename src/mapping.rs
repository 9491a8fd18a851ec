//! Python type annotations for property shapes.

use crate::model::{item_as_property, ArrayItem, PropertyType};
use crate::refs::{ref_class_spec, RefContext};
use vstd::prelude::*;
use vstd::string::*;

verus! {

/// The annotation for values that carry no static information.
pub open spec fn any_text() -> Seq<char> {
    "Any"@
}

/// The parts joined with `" | "`, in order.
pub open spec fn join_bar(parts: Seq<Seq<char>>) -> Seq<char>
    decreases parts.len(),
{
    if parts.len() == 0 {
        Seq::<char>::empty()
    } else if parts.len() == 1 {
        parts[0]
    } else {
        join_bar(parts.drop_last()) + " | "@ + parts.last()
    }
}

/// The class names of the references, in order.
pub open spec fn classes_of(refs: Seq<String>, owner: Seq<char>) -> Seq<Seq<char>> {
    refs.map_values(|r: String| ref_class_spec(r@, owner))
}

/// The annotation for a union: `Any` when it has no member, the member's
/// class for one member, and the members' classes joined by `" | "` in
/// declaration order otherwise.
pub open spec fn union_text(refs: Seq<String>, owner: Seq<char>) -> Seq<char> {
    if refs.len() == 0 {
        any_text()
    } else {
        join_bar(classes_of(refs, owner))
    }
}

/// The annotation for an array item shape.
pub open spec fn item_text(item: ArrayItem, owner: Seq<char>) -> Seq<char> {
    match item {
        ArrayItem::Boolean => "bool"@,
        ArrayItem::Integer => "int"@,
        ArrayItem::String => "str"@,
        ArrayItem::Bytes => "bytes"@,
        ArrayItem::CidLink => "str"@,
        ArrayItem::Blob => "dict[str, Any]"@,
        ArrayItem::Unknown => any_text(),
        ArrayItem::Ref(r) => ref_class_spec(r@, owner),
        ArrayItem::Union(u) => union_text(u@, owner),
    }
}

/// The annotation for a property shape.
pub open spec fn property_text(p: PropertyType, owner: Seq<char>) -> Seq<char> {
    match p {
        PropertyType::Boolean => "bool"@,
        PropertyType::Integer => "int"@,
        PropertyType::String => "str"@,
        PropertyType::Bytes => "bytes"@,
        PropertyType::CidLink => "str"@,
        PropertyType::Blob => "dict[str, Any]"@,
        PropertyType::Unknown => any_text(),
        PropertyType::Ref(r) => ref_class_spec(r@, owner),
        PropertyType::Union(u) => union_text(u@, owner),
        PropertyType::Array(item) => "list["@ + item_text(item, owner) + "]"@,
    }
}

/// The item annotation inside a `list[...]` annotation.
pub open spec fn list_item_of(t: Seq<char>) -> Seq<char> {
    t.subrange(5, t.len() - 1)
}

/// The annotation for a union of references.
pub fn union_to_python(refs: &Vec<String>, ctx: &RefContext) -> (r: String)
    ensures
        r@ == union_text(refs@, ctx.nsid@),
{
    if refs.len() == 0 {
        return String::from_str("Any");
    }
    let mut out = ctx.resolve_ref(refs[0].as_str());
    assert(classes_of(refs@.take(1), ctx.nsid@) =~= seq![ref_class_spec(refs@[0]@, ctx.nsid@)]);
    let mut i: usize = 1;
    while i < refs.len()
        invariant
            1 <= i <= refs@.len(),
            out@ == join_bar(classes_of(refs@.take(i as int), ctx.nsid@)),
        decreases refs@.len() - i,
    {
        let t = ctx.resolve_ref(refs[i].as_str());
        out.append(" | ");
        out.append(t.as_str());
        assert(classes_of(refs@.take(i + 1), ctx.nsid@).drop_last() =~= classes_of(
            refs@.take(i as int),
            ctx.nsid@,
        ));
        i = i + 1;
    }
    assert(refs@.take(refs@.len() as int) =~= refs@);
    out
}

/// The annotation for an array item shape.
pub fn array_item_to_python(item: &ArrayItem, ctx: &RefContext) -> (r: String)
    ensures
        r@ == item_text(*item, ctx.nsid@),
{
    match item {
        ArrayItem::Boolean => String::from_str("bool"),
        ArrayItem::Integer => String::from_str("int"),
        ArrayItem::String => String::from_str("str"),
        ArrayItem::Bytes => String::from_str("bytes"),
        ArrayItem::CidLink => String::from_str("str"),
        ArrayItem::Blob => String::from_str("dict[str, Any]"),
        ArrayItem::Unknown => String::from_str("Any"),
        ArrayItem::Ref(r) => ctx.resolve_ref(r.as_str()),
        ArrayItem::Union(u) => union_to_python(u, ctx),
    }
}

/// The Python annotation for a property shape, resolving references against
/// the document of `ctx`.
pub fn property_to_python(prop: &PropertyType, ctx: &RefContext) -> (r: String)
    ensures
        r@ == property_text(*prop, ctx.nsid@),
{
    match prop {
        PropertyType::Boolean => String::from_str("bool"),
        PropertyType::Integer => String::from_str("int"),
        PropertyType::String => String::from_str("str"),
        PropertyType::Bytes => String::from_str("bytes"),
        PropertyType::CidLink => String::from_str("str"),
        PropertyType::Blob => String::from_str("dict[str, Any]"),
        PropertyType::Unknown => String::from_str("Any"),
        PropertyType::Ref(r) => ctx.resolve_ref(r.as_str()),
        PropertyType::Union(u) => union_to_python(u, ctx),
        PropertyType::Array(item) => {
            let t = array_item_to_python(item, ctx);
            let mut out = String::from_str("list[");
            out.append(t.as_str());
            out.append("]");
            out
        },
    }
}

/// An array item shape maps to the same annotation as the property of that
/// shape, and an array of it maps to `list[...]` around exactly that
/// annotation.
pub proof fn law_array_item_round_trip(item: ArrayItem, owner: Seq<char>)
    ensures
        item_text(item, owner) == property_text(item_as_property(item), owner),
        list_item_of(property_text(PropertyType::Array(item), owner)) == property_text(
            item_as_property(item),
            owner,
        ),
{
    reveal_strlit("list[");
    reveal_strlit("]");
    let t = item_text(item, owner);
    assert(("list["@ + t + "]"@).subrange(5, t.len() as int + 5) =~= t);
}

/// A union with no member maps to the same annotation as an unknown value.
pub proof fn law_empty_union_is_unknown(refs: Vec<String>, owner: Seq<char>)
    requires
        refs@.len() == 0,
    ensures
        property_text(PropertyType::Union(refs), owner) == property_text(
            PropertyType::Unknown,
            owner,
        ),
        item_text(ArrayItem::Union(refs), owner) == item_text(ArrayItem::Unknown, owner),
        union_text(refs@, owner) == any_text(),
{
}

/// A union lists its members in declaration order: a one-member union is its
/// member's class, and each further member is appended after `" | "`.
pub proof fn law_union_keeps_order(refs: Seq<String>, owner: Seq<char>)
    requires
        refs.len() >= 1,
    ensures
        union_text(refs, owner) == join_bar(classes_of(refs, owner)),
        classes_of(refs, owner).len() == refs.len(),
        forall|i: int|
            0 <= i < refs.len() ==> #[trigger] classes_of(refs, owner)[i] == ref_class_spec(
                refs[i]@,
                owner,
            ),
        refs.len() == 1 ==> union_text(refs, owner) == ref_class_spec(refs[0]@, owner),
        refs.len() >= 2 ==> union_text(refs, owner) == union_text(refs.drop_last(), owner)
            + " | "@ + ref_class_spec(refs.last()@, owner),
{
    assert(classes_of(refs, owner).drop_last() =~= classes_of(refs.drop_last(), owner));
}

} // verus!
