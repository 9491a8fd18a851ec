//! Reference resolution and type mapping for lexicon schema documents.
//!
//! Schema documents are identified by a dotted namespace id (NSID) and hold
//! named definitions whose property shapes are mapped to Python type
//! annotations. References between definitions are resolved lazily, as a pure
//! function of the reference text and the NSID of the document holding it.

mod cache;
mod deps;
mod error;
mod generate;
mod mapping;
mod model;
mod names;
mod refs;
mod registry;

pub use names::{
    class_name_spec, concat_pascal, is_main_name, main_name, name_parts, pascal_of, split_dots,
    to_class_name,
};
pub use refs::{
    first_index, first_index_upto, is_local_ref, law_local_ref_names_owner,
    law_plain_ref_names_main, law_qualified_ref_ignores_owner, ref_class_spec, resolve, resolve_spec,
    QualifiedName, RefContext,
};
pub use model::{
    item_as_property, object_of, ArrayItem, Definition, ObjectShape, PropertyType, SchemaDocument,
};
pub use mapping::{
    any_text, classes_of, item_text, join_bar, law_array_item_round_trip,
    law_empty_union_is_unknown, law_union_keeps_order, list_item_of, property_text,
    property_to_python, union_text, union_to_python, array_item_to_python,
};
pub use deps::{
    collect_external_refs, dedup, def_refs, defs_refs, dependencies_spec, external_nsids,
    item_refs, law_dependencies_exclude_locals, law_dependencies_ignore_repeats, prop_refs,
    props_refs, views,
};
pub use generate::{
    classes_spec, fields_spec, file_spec, files_view, generate_file, generate_models,
    generated_spec, law_classes_follow_definitions, law_document_gives_one_file,
    law_generation_is_repeatable, law_local_refs_need_no_imports, law_only_given_documents_emitted, output_path, path_char, path_spec, ClassDef,
    ClassModel, FileModel, OutputFile,
};
pub use cache::{
    cache_key, files_bytes, hex_digit, hex_spec, is_hex_char, key_input, key_input_spec, sha256_of,
};
pub use error::ParseError;
pub use registry::{find_document, has_document, Registry};
