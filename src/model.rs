//! The parsed form of a schema document.

use vstd::prelude::*;

verus! {

/// The shape of the items of an array property: every property shape but a
/// nested array.
#[derive(Debug)]
pub enum ArrayItem {
    Boolean,
    Integer,
    String,
    Bytes,
    CidLink,
    Blob,
    Unknown,
    /// A reference to a definition, as written in the document.
    Ref(String),
    /// An open union over references, in declaration order.
    Union(Vec<String>),
}

/// The shape of one property of an object.
#[derive(Debug)]
pub enum PropertyType {
    Boolean,
    Integer,
    String,
    Bytes,
    CidLink,
    Blob,
    Unknown,
    /// A reference to a definition, as written in the document.
    Ref(String),
    /// An open union over references, in declaration order.
    Union(Vec<String>),
    Array(ArrayItem),
}

/// The properties of an object, in the order of the source document.
#[derive(Debug)]
pub struct ObjectShape {
    pub properties: Vec<(String, PropertyType)>,
}

/// One named definition of a document; only records and objects carry
/// properties.
#[derive(Debug)]
pub enum Definition {
    Record(ObjectShape),
    Object(ObjectShape),
    Other,
}

/// A schema document: its NSID and its definitions, in source order.
#[derive(Debug)]
pub struct SchemaDocument {
    pub id: String,
    pub defs: Vec<(String, Definition)>,
}

/// The property shape that an array item shape stands for on its own.
pub open spec fn item_as_property(item: ArrayItem) -> PropertyType {
    match item {
        ArrayItem::Boolean => PropertyType::Boolean,
        ArrayItem::Integer => PropertyType::Integer,
        ArrayItem::String => PropertyType::String,
        ArrayItem::Bytes => PropertyType::Bytes,
        ArrayItem::CidLink => PropertyType::CidLink,
        ArrayItem::Blob => PropertyType::Blob,
        ArrayItem::Unknown => PropertyType::Unknown,
        ArrayItem::Ref(r) => PropertyType::Ref(r),
        ArrayItem::Union(u) => PropertyType::Union(u),
    }
}

/// The object shape of a definition, if it has one.
pub open spec fn object_of(d: Definition) -> Option<ObjectShape> {
    match d {
        Definition::Record(o) => Some(o),
        Definition::Object(o) => Some(o),
        Definition::Other => None,
    }
}

} // verus!
