//! The generator driver: one output file per document with classes.

use crate::deps::{
    collect_external_refs, defs_refs, dependencies_spec, law_dependencies_exclude_locals, views,
};
use crate::mapping::{property_text, property_to_python};
use crate::model::{object_of, Definition, ObjectShape, PropertyType, SchemaDocument};
use crate::names::{class_name_spec, to_class_name};
use crate::refs::{is_local_ref, RefContext};
use vstd::prelude::*;
use vstd::string::*;

verus! {

/// A class to emit: its name and its fields, each a name and an annotation.
pub struct ClassModel {
    pub name: Seq<char>,
    pub fields: Seq<(Seq<char>, Seq<char>)>,
}

/// An output file: the document's NSID, the file's relative path, its
/// classes in definition order and the NSIDs it imports.
pub struct FileModel {
    pub nsid: Seq<char>,
    pub path: Seq<char>,
    pub classes: Seq<ClassModel>,
    pub imports: Seq<Seq<char>>,
}

/// A generated class: its name and its `(field, annotation)` pairs in
/// source order.
#[derive(Debug)]
pub struct ClassDef {
    pub name: String,
    pub fields: Vec<(String, String)>,
}

/// The description of one generated file.
#[derive(Debug)]
pub struct OutputFile {
    pub nsid: String,
    pub path: String,
    pub classes: Vec<ClassDef>,
    pub imports: Vec<String>,
}

impl View for ClassDef {
    type V = ClassModel;

    open spec fn view(&self) -> ClassModel {
        ClassModel {
            name: self.name@,
            fields: self.fields@.map_values(|f: (String, String)| (f.0@, f.1@)),
        }
    }
}

impl View for OutputFile {
    type V = FileModel;

    open spec fn view(&self) -> FileModel {
        FileModel {
            nsid: self.nsid@,
            path: self.path@,
            classes: self.classes@.map_values(|c: ClassDef| c@),
            imports: views(self.imports@),
        }
    }
}

/// The views of the output files, in order.
pub open spec fn files_view(files: Seq<OutputFile>) -> Seq<FileModel> {
    files.map_values(|f: OutputFile| f@)
}

/// A path character for an NSID character: dots separate directories.
pub open spec fn path_char(c: char) -> char {
    if c == '.' {
        '/'
    } else {
        c
    }
}

/// The relative path of the file generated for `nsid`: its dot-separated
/// segments as directories, the last one as a `.py` module.
pub open spec fn path_spec(nsid: Seq<char>) -> Seq<char> {
    nsid.map_values(|c: char| path_char(c)) + ".py"@
}

/// The fields of an object, in order, resolved in document `id`.
pub open spec fn fields_spec(props: Seq<(String, PropertyType)>, id: Seq<char>) -> Seq<
    (Seq<char>, Seq<char>),
> {
    props.map_values(|p: (String, PropertyType)| (p.0@, property_text(p.1, id)))
}

/// The classes of the records and objects among `defs`, in order.
pub open spec fn classes_spec(defs: Seq<(String, Definition)>, id: Seq<char>) -> Seq<ClassModel>
    decreases defs.len(),
{
    if defs.len() == 0 {
        Seq::empty()
    } else {
        let prev = classes_spec(defs.drop_last(), id);
        match object_of(defs.last().1) {
            Some(o) => prev.push(
                ClassModel {
                    name: class_name_spec(id, defs.last().0@),
                    fields: fields_spec(o.properties@, id),
                },
            ),
            None => prev,
        }
    }
}

/// The file generated for a document.
pub open spec fn file_spec(doc: SchemaDocument) -> FileModel {
    FileModel {
        nsid: doc.id@,
        path: path_spec(doc.id@),
        classes: classes_spec(doc.defs@, doc.id@),
        imports: dependencies_spec(doc),
    }
}

/// The files generated for the documents, in order: one for each document
/// with at least one record or object.
pub open spec fn generated_spec(docs: Seq<SchemaDocument>) -> Seq<FileModel>
    decreases docs.len(),
{
    if docs.len() == 0 {
        Seq::empty()
    } else {
        let prev = generated_spec(docs.drop_last());
        if classes_spec(docs.last().defs@, docs.last().id@).len() > 0 {
            prev.push(file_spec(docs.last()))
        } else {
            prev
        }
    }
}

/// The relative path of the file generated for `nsid`.
pub fn output_path(nsid: &str) -> (r: String)
    ensures
        r@ == path_spec(nsid@),
{
    let n = nsid.unicode_len();
    let mut out = String::new();
    let mut i: usize = 0;
    while i < n
        invariant
            n == nsid@.len(),
            i <= n,
            out@ == nsid@.take(i as int).map_values(|c: char| path_char(c)),
        decreases n - i,
    {
        let c = nsid.get_char(i);
        if c == '.' {
            out.append("/");
            proof {
                reveal_strlit("/");
            }
        } else {
            out.append(nsid.substring_char(i, i + 1));
        }
        assert(out@ =~= nsid@.take(i + 1).map_values(|c: char| path_char(c)));
        i = i + 1;
    }
    assert(nsid@.take(n as int) =~= nsid@);
    out.append(".py");
    out
}

/// The fields of an object, each with its annotation in document `ctx`.
fn fields_of(obj: &ObjectShape, ctx: &RefContext) -> (r: Vec<(String, String)>)
    ensures
        r@.map_values(|f: (String, String)| (f.0@, f.1@)) == fields_spec(
            obj.properties@,
            ctx.nsid@,
        ),
{
    let props = &obj.properties;
    let mut out: Vec<(String, String)> = Vec::new();
    let mut j: usize = 0;
    while j < props.len()
        invariant
            j <= props@.len(),
            out@.len() == j,
            forall|k: int|
                0 <= k < j ==> (#[trigger] out@[k]).0@ == props@[k].0@ && out@[k].1@
                    == property_text(props@[k].1, ctx.nsid@),
        decreases props@.len() - j,
    {
        let t = property_to_python(&props[j].1, ctx);
        out.push((props[j].0.clone(), t));
        j = j + 1;
    }
    assert(out@.map_values(|f: (String, String)| (f.0@, f.1@)) =~= fields_spec(
        props@,
        ctx.nsid@,
    ));
    out
}

/// The class for each record and object of `doc`, in definition order.
fn classes_of_doc(doc: &SchemaDocument) -> (r: Vec<ClassDef>)
    ensures
        r@.map_values(|c: ClassDef| c@) == classes_spec(doc.defs@, doc.id@),
{
    let ctx = RefContext::new(doc.id.as_str());
    let defs = &doc.defs;
    let mut out: Vec<ClassDef> = Vec::new();
    let mut i: usize = 0;
    assert(defs@.take(0) =~= Seq::<(String, Definition)>::empty());
    assert(out@.map_values(|c: ClassDef| c@) =~= Seq::<ClassModel>::empty());
    while i < defs.len()
        invariant
            i <= defs@.len(),
            ctx.nsid@ == doc.id@,
            out@.map_values(|c: ClassDef| c@) == classes_spec(defs@.take(i as int), doc.id@),
        decreases defs@.len() - i,
    {
        let ghost before = out@;
        assert(defs@.take(i + 1).drop_last() =~= defs@.take(i as int));
        assert(defs@.take(i + 1).last() == defs@[i as int]);
        let obj = match &defs[i].1 {
            Definition::Record(o) => Some(o),
            Definition::Object(o) => Some(o),
            Definition::Other => None,
        };
        match obj {
            Some(o) => {
                let name = to_class_name(doc.id.as_str(), defs[i].0.as_str());
                let fields = fields_of(o, &ctx);
                out.push(ClassDef { name, fields });
                assert(out@.map_values(|c: ClassDef| c@) =~= before.map_values(
                    |c: ClassDef| c@,
                ).push(out@.last()@));
            },
            None => {},
        }
        i = i + 1;
    }
    assert(defs@.take(defs@.len() as int) =~= defs@);
    out
}

/// The description of the file generated for `doc`.
pub fn generate_file(doc: &SchemaDocument) -> (r: OutputFile)
    ensures
        r@ == file_spec(*doc),
{
    let path = output_path(doc.id.as_str());
    let classes = classes_of_doc(doc);
    let imports = collect_external_refs(doc);
    OutputFile { nsid: doc.id.clone(), path, classes, imports }
}

/// The files generated for the documents, in order: one for each document
/// with at least one record or object, none for the others.
pub fn generate_models(docs: &Vec<SchemaDocument>) -> (r: Vec<OutputFile>)
    ensures
        files_view(r@) == generated_spec(docs@),
{
    let mut out: Vec<OutputFile> = Vec::new();
    let mut i: usize = 0;
    assert(docs@.take(0) =~= Seq::<SchemaDocument>::empty());
    assert(files_view(out@) =~= Seq::<FileModel>::empty());
    while i < docs.len()
        invariant
            i <= docs@.len(),
            files_view(out@) == generated_spec(docs@.take(i as int)),
        decreases docs@.len() - i,
    {
        let ghost before = out@;
        assert(docs@.take(i + 1).drop_last() =~= docs@.take(i as int));
        assert(docs@.take(i + 1).last() == docs@[i as int]);
        let file = generate_file(&docs[i]);
        if file.classes.len() > 0 {
            assert(file@.classes.len() == file.classes@.len());
            out.push(file);
            assert(files_view(out@) =~= files_view(before).push(out@.last()@));
        } else {
            assert(file@.classes.len() == 0);
        }
        i = i + 1;
    }
    assert(docs@.take(docs@.len() as int) =~= docs@);
    out
}

/// Generation is a function of the documents: two runs over the same
/// documents describe the same files, with the same contents.
pub proof fn law_generation_is_repeatable(
    docs: Seq<SchemaDocument>,
    first: Seq<OutputFile>,
    second: Seq<OutputFile>,
)
    requires
        files_view(first) == generated_spec(docs),
        files_view(second) == generated_spec(docs),
    ensures
        files_view(first) == files_view(second),
{
}

/// When every definition is a record or an object, there is one class per
/// definition, in definition order, named after the document's NSID and the
/// definition, with the definition's fields.
pub proof fn law_classes_follow_definitions(defs: Seq<(String, Definition)>, id: Seq<char>)
    requires
        forall|i: int| 0 <= i < defs.len() ==> (#[trigger] object_of(defs[i].1)) is Some,
    ensures
        classes_spec(defs, id).len() == defs.len(),
        forall|i: int|
            0 <= i < defs.len() ==> #[trigger] classes_spec(defs, id)[i] == (ClassModel {
                name: class_name_spec(id, defs[i].0@),
                fields: fields_spec(object_of(defs[i].1)->Some_0.properties@, id),
            }),
    decreases defs.len(),
{
    if defs.len() > 0 {
        let p = defs.drop_last();
        assert forall|i: int| 0 <= i < p.len() implies (#[trigger] object_of(p[i].1)) is Some by {
            assert(p[i] == defs[i]);
        }
        law_classes_follow_definitions(p, id);
        assert(object_of(defs[defs.len() - 1].1) is Some);
        assert forall|i: int| 0 <= i < defs.len() implies #[trigger] classes_spec(defs, id)[i]
            == (ClassModel {
            name: class_name_spec(id, defs[i].0@),
            fields: fields_spec(object_of(defs[i].1)->Some_0.properties@, id),
        }) by {
            if i < p.len() {
                assert(p[i] == defs[i]);
                assert(classes_spec(defs, id)[i] == classes_spec(p, id)[i]);
            }
        }
    }
}

/// A document whose references are all local (`#Name`) imports nothing.
pub proof fn law_local_refs_need_no_imports(doc: SchemaDocument)
    requires
        forall|i: int|
            0 <= i < defs_refs(doc.defs@).len() ==> is_local_ref(
                #[trigger] defs_refs(doc.defs@)[i],
            ),
    ensures
        dependencies_spec(doc).len() == 0,
{
    law_dependencies_exclude_locals(doc);
    if dependencies_spec(doc).len() > 0 {
        assert(dependencies_spec(doc).contains(dependencies_spec(doc)[0]));
    }
}

/// A document with at least one definition, all of them records or
/// objects, gives exactly one file: its own.
pub proof fn law_document_gives_one_file(doc: SchemaDocument)
    requires
        doc.defs@.len() > 0,
        forall|i: int| 0 <= i < doc.defs@.len() ==> (#[trigger] object_of(doc.defs@[i].1)) is Some,
    ensures
        generated_spec(seq![doc]) == seq![file_spec(doc)],
{
    law_classes_follow_definitions(doc.defs@, doc.id@);
    let s = seq![doc];
    assert(s.drop_last() =~= Seq::<SchemaDocument>::empty());
    assert(s.last() == doc);
    assert(generated_spec(s.drop_last()) == Seq::<FileModel>::empty());
    assert(classes_spec(doc.defs@, doc.id@).len() > 0);
    assert(Seq::<FileModel>::empty().push(file_spec(doc)) =~= seq![file_spec(doc)]);
}

/// Every generated file is the file of one of the given documents: no other
/// document, such as one that is only referenced, is emitted.
pub proof fn law_only_given_documents_emitted(docs: Seq<SchemaDocument>)
    ensures
        forall|i: int|
            0 <= i < generated_spec(docs).len() ==> exists|j: int|
                0 <= j < docs.len() && #[trigger] generated_spec(docs)[i] == file_spec(docs[j]),
    decreases docs.len(),
{
    if docs.len() > 0 {
        let p = docs.drop_last();
        law_only_given_documents_emitted(p);
        assert forall|i: int| 0 <= i < generated_spec(docs).len() implies exists|j: int|
            0 <= j < docs.len() && #[trigger] generated_spec(docs)[i] == file_spec(docs[j]) by {
            if i < generated_spec(p).len() {
                assert(generated_spec(docs)[i] == generated_spec(p)[i]);
                let j = choose|j: int|
                    0 <= j < p.len() && #[trigger] generated_spec(p)[i] == file_spec(p[j]);
                assert(p[j] == docs[j]);
            } else {
                assert(generated_spec(docs)[i] == file_spec(docs[docs.len() - 1]));
            }
        }
    }
}

} // verus!
