use pmgfal::{
    array_item_to_python, property_to_python, union_to_python, ArrayItem, PropertyType, RefContext,
};

fn refs(v: &[&str]) -> Vec<String> {
    v.iter().map(|s| s.to_string()).collect()
}

#[test]
fn primitives_map_to_fixed_types() {
    let ctx = RefContext::new("com.example.foo");
    assert_eq!(property_to_python(&PropertyType::Boolean, &ctx), "bool");
    assert_eq!(property_to_python(&PropertyType::Integer, &ctx), "int");
    assert_eq!(property_to_python(&PropertyType::String, &ctx), "str");
    assert_eq!(property_to_python(&PropertyType::Bytes, &ctx), "bytes");
    assert_eq!(property_to_python(&PropertyType::CidLink, &ctx), "str");
    assert_eq!(property_to_python(&PropertyType::Blob, &ctx), "dict[str, Any]");
    assert_eq!(property_to_python(&PropertyType::Unknown, &ctx), "Any");
}

#[test]
fn ref_maps_to_class_name() {
    let ctx = RefContext::new("com.example.foo");
    let p = PropertyType::Ref("#thing".to_string());
    assert_eq!(property_to_python(&p, &ctx), "ComExampleFooThing");
}

#[test]
fn array_item_round_trip() {
    let ctx = RefContext::new("com.example.foo");
    let arr = property_to_python(&PropertyType::Array(ArrayItem::Ref("#thing".to_string())), &ctx);
    let direct = property_to_python(&PropertyType::Ref("#thing".to_string()), &ctx);
    assert_eq!(arr, "list[ComExampleFooThing]");
    assert_eq!(&arr[5..arr.len() - 1], direct);
    let arr = property_to_python(&PropertyType::Array(ArrayItem::Integer), &ctx);
    assert_eq!(arr, "list[int]");
    let arr = property_to_python(
        &PropertyType::Array(ArrayItem::Union(refs(&["#a", "x.y#b"]))),
        &ctx,
    );
    assert_eq!(arr, "list[ComExampleFooA | XYB]");
}

#[test]
fn union_keeps_declaration_order() {
    let ctx = RefContext::new("com.example.foo");
    let p = PropertyType::Union(refs(&["#A", "#B", "#C"]));
    assert_eq!(
        property_to_python(&p, &ctx),
        "ComExampleFooA | ComExampleFooB | ComExampleFooC"
    );
}

#[test]
fn single_member_union_is_unwrapped() {
    let ctx = RefContext::new("com.example.foo");
    let p = PropertyType::Union(refs(&["com.example.bar#baz"]));
    assert_eq!(property_to_python(&p, &ctx), "ComExampleBarBaz");
}

#[test]
fn empty_union_matches_unknown() {
    let ctx = RefContext::new("com.example.foo");
    let empty = property_to_python(&PropertyType::Union(Vec::new()), &ctx);
    assert_eq!(empty, property_to_python(&PropertyType::Unknown, &ctx));
    assert_eq!(empty, "Any");
}

#[test]
fn array_item_maps_like_property() {
    let ctx = RefContext::new("com.example.foo");
    let pairs = vec![
        (ArrayItem::Boolean, PropertyType::Boolean),
        (ArrayItem::Blob, PropertyType::Blob),
        (ArrayItem::CidLink, PropertyType::CidLink),
        (ArrayItem::Ref("x.y#z".to_string()), PropertyType::Ref("x.y#z".to_string())),
        (ArrayItem::Union(refs(&["#a", "#b"])), PropertyType::Union(refs(&["#a", "#b"]))),
    ];
    for (item, prop) in pairs {
        assert_eq!(array_item_to_python(&item, &ctx), property_to_python(&prop, &ctx));
    }
}

#[test]
fn union_function_joins_in_order() {
    let ctx = RefContext::new("a.b");
    assert_eq!(union_to_python(&refs(&["#C", "#A", "#C"]), &ctx), "ABC | ABA | ABC");
    assert_eq!(union_to_python(&Vec::new(), &ctx), "Any");
}
