use pmgfal::{
    collect_external_refs, generate_models, output_path, ArrayItem, Definition, ObjectShape,
    PropertyType, Registry, SchemaDocument,
};

fn object(props: Vec<(&str, PropertyType)>) -> Definition {
    Definition::Object(ObjectShape {
        properties: props.into_iter().map(|(n, p)| (n.to_string(), p)).collect(),
    })
}

fn record(props: Vec<(&str, PropertyType)>) -> Definition {
    Definition::Record(ObjectShape {
        properties: props.into_iter().map(|(n, p)| (n.to_string(), p)).collect(),
    })
}

fn doc(id: &str, defs: Vec<(&str, Definition)>) -> SchemaDocument {
    SchemaDocument {
        id: id.to_string(),
        defs: defs.into_iter().map(|(n, d)| (n.to_string(), d)).collect(),
    }
}

#[test]
fn single_string_property() {
    let docs = vec![doc("com.example.foo", vec![("main", record(vec![("bar", PropertyType::String)]))])];
    let files = generate_models(&docs);
    assert_eq!(files.len(), 1);
    assert_eq!(files[0].path, "com/example/foo.py");
    assert_eq!(files[0].classes.len(), 1);
    assert_eq!(files[0].classes[0].name, "ComExampleFoo");
    assert_eq!(files[0].classes[0].fields, vec![("bar".to_string(), "str".to_string())]);
    assert!(files[0].imports.is_empty());
}

#[test]
fn local_reference_needs_no_import() {
    let docs = vec![doc(
        "com.example.foo",
        vec![
            ("main", record(vec![("item", PropertyType::Ref("#thing".to_string()))])),
            ("thing", object(vec![("n", PropertyType::Integer)])),
        ],
    )];
    let files = generate_models(&docs);
    assert_eq!(files.len(), 1);
    let classes = &files[0].classes;
    assert_eq!(classes.len(), 2);
    assert_eq!(classes[0].name, "ComExampleFoo");
    assert_eq!(classes[1].name, "ComExampleFooThing");
    assert_eq!(classes[0].fields[0].1, "ComExampleFooThing");
    assert!(files[0].imports.is_empty());
}

#[test]
fn reference_into_bundled_document() {
    let user = vec![doc(
        "com.example.foo",
        vec![("main", record(vec![("b", PropertyType::Ref("com.example.bar#baz".to_string()))]))],
    )];
    let bundled = vec![doc("com.example.bar", vec![("baz", object(vec![("n", PropertyType::Integer)]))])];
    let registry = Registry::new(user, bundled);
    assert_eq!(registry.lookup("com.example.bar").map(|d| d.id.as_str()), Some("com.example.bar"));
    let files = registry.generate();
    assert_eq!(files.len(), 1);
    assert_eq!(files[0].nsid, "com.example.foo");
    assert_eq!(files[0].classes[0].fields[0].1, "ComExampleBarBaz");
    assert_eq!(files[0].imports, vec!["com.example.bar".to_string()]);
}

#[test]
fn documents_without_objects_emit_nothing() {
    let docs = vec![
        doc("com.example.query", vec![("main", Definition::Other)]),
        doc("com.example.foo", vec![("main", object(vec![]))]),
    ];
    let files = generate_models(&docs);
    assert_eq!(files.len(), 1);
    assert_eq!(files[0].nsid, "com.example.foo");
    assert!(files[0].classes[0].fields.is_empty());
}

#[test]
fn generation_is_repeatable() {
    let make = || {
        vec![doc(
            "com.example.foo",
            vec![
                ("main", record(vec![("u", PropertyType::Union(vec!["#a".to_string(), "x.y".to_string()]))])),
                ("a", object(vec![("s", PropertyType::Bytes)])),
            ],
        )]
    };
    let first = generate_models(&make());
    let second = generate_models(&make());
    assert_eq!(format!("{:?}", first), format!("{:?}", second));
}

#[test]
fn dependencies_skip_locals_and_repeats() {
    let d = doc(
        "com.example.foo",
        vec![(
            "main",
            record(vec![
                ("a", PropertyType::Ref("com.example.bar#baz".to_string())),
                ("b", PropertyType::Array(ArrayItem::Ref("com.example.bar".to_string()))),
                ("c", PropertyType::Ref("#local".to_string())),
                ("d", PropertyType::Union(vec!["#x".to_string(), "app.other#y".to_string()])),
                ("e", PropertyType::Ref("com.example.foo#self".to_string())),
            ]),
        )],
    );
    assert_eq!(
        collect_external_refs(&d),
        vec!["com.example.bar".to_string(), "app.other".to_string()]
    );
}

#[test]
fn path_follows_nsid_segments() {
    assert_eq!(output_path("app.bsky.feed.post"), "app/bsky/feed/post.py");
}

#[test]
fn lookup_prefers_user_documents() {
    let user = vec![doc("a.b", vec![("main", object(vec![("x", PropertyType::Integer)]))])];
    let bundled = vec![
        doc("a.b", vec![("main", Definition::Other)]),
        doc("c.d", vec![("main", Definition::Other)]),
    ];
    let registry = Registry::new(user, bundled);
    assert!(matches!(registry.lookup("a.b").unwrap().defs[0].1, Definition::Object(_)));
    assert_eq!(registry.lookup("c.d").unwrap().id, "c.d");
    assert!(registry.lookup("e.f").is_none());
}
