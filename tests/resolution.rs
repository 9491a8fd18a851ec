use pmgfal::{resolve, to_class_name, QualifiedName, RefContext};

fn qn(nsid: &str, def_name: &str) -> QualifiedName {
    QualifiedName { nsid: nsid.to_string(), def_name: def_name.to_string() }
}

#[test]
fn local_ref_resolves_in_owning_document() {
    assert_eq!(resolve("#thing", "com.example.foo"), qn("com.example.foo", "thing"));
    assert_eq!(resolve("#thing", "com.example.foo"), resolve("#thing", "com.example.foo"));
}

#[test]
fn plain_ref_names_main() {
    assert_eq!(resolve("a.b.c", "x.y.z").def_name, "main");
    assert_eq!(resolve("a.b.c", "com.other").def_name, "main");
    assert_eq!(resolve("a.b.c", "x.y.z"), qn("a.b.c", "main"));
}

#[test]
fn qualified_ref_ignores_owner() {
    assert_eq!(resolve("a.b.c#Foo", "x.y.z"), qn("a.b.c", "Foo"));
    assert_eq!(resolve("a.b.c#Foo", "com.example.foo"), qn("a.b.c", "Foo"));
}

#[test]
fn qualified_ref_splits_at_first_hash() {
    assert_eq!(resolve("a.b#c#d", "x"), qn("a.b", "c#d"));
}

#[test]
fn class_name_of_main_definition() {
    assert_eq!(to_class_name("com.example.foo", "main"), "ComExampleFoo");
}

#[test]
fn class_name_of_named_definition() {
    assert_eq!(to_class_name("com.example.foo", "thing"), "ComExampleFooThing");
    assert_eq!(to_class_name("com.atproto.repo", "strongRef"), "ComAtprotoRepoStrongRef");
}

#[test]
fn resolve_ref_gives_class_names() {
    let ctx = RefContext::new("com.example.foo");
    assert_eq!(ctx.resolve_ref("#thing"), "ComExampleFooThing");
    assert_eq!(ctx.resolve_ref("com.example.bar#baz"), "ComExampleBarBaz");
    assert_eq!(ctx.resolve_ref("com.atproto.repo.strongRef"), "ComAtprotoRepoStrongRef");
}
