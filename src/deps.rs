//! The external documents that a document depends on.

use crate::model::{object_of, ArrayItem, Definition, ObjectShape, PropertyType, SchemaDocument};
use crate::refs::{is_local_ref, resolve, resolve_spec};
use vstd::prelude::*;

verus! {

/// The texts of the strings, in order.
pub open spec fn views(v: Seq<String>) -> Seq<Seq<char>> {
    v.map_values(|s: String| s@)
}

/// The references written in an array item shape, in order.
pub open spec fn item_refs(item: ArrayItem) -> Seq<Seq<char>> {
    match item {
        ArrayItem::Ref(r) => seq![r@],
        ArrayItem::Union(u) => views(u@),
        _ => Seq::empty(),
    }
}

/// The references written in a property shape, in order.
pub open spec fn prop_refs(p: PropertyType) -> Seq<Seq<char>> {
    match p {
        PropertyType::Ref(r) => seq![r@],
        PropertyType::Union(u) => views(u@),
        PropertyType::Array(item) => item_refs(item),
        _ => Seq::empty(),
    }
}

/// The references written in the properties, in order.
pub open spec fn props_refs(props: Seq<(String, PropertyType)>) -> Seq<Seq<char>>
    decreases props.len(),
{
    if props.len() == 0 {
        Seq::empty()
    } else {
        props_refs(props.drop_last()) + prop_refs(props.last().1)
    }
}

/// The references written in a definition; none outside records and objects.
pub open spec fn def_refs(d: Definition) -> Seq<Seq<char>> {
    match object_of(d) {
        Some(o) => props_refs(o.properties@),
        None => Seq::empty(),
    }
}

/// The references written in the definitions, in order.
pub open spec fn defs_refs(defs: Seq<(String, Definition)>) -> Seq<Seq<char>>
    decreases defs.len(),
{
    if defs.len() == 0 {
        Seq::empty()
    } else {
        defs_refs(defs.drop_last()) + def_refs(defs.last().1)
    }
}

/// The NSIDs other than `id` that the references name, in order, repeats kept.
pub open spec fn external_nsids(refs: Seq<Seq<char>>, id: Seq<char>) -> Seq<Seq<char>>
    decreases refs.len(),
{
    if refs.len() == 0 {
        Seq::empty()
    } else {
        let n = resolve_spec(refs.last(), id).0;
        if n != id {
            external_nsids(refs.drop_last(), id).push(n)
        } else {
            external_nsids(refs.drop_last(), id)
        }
    }
}

/// The elements of `s` with later repeats dropped, in order of first
/// appearance.
pub open spec fn dedup(s: Seq<Seq<char>>) -> Seq<Seq<char>>
    decreases s.len(),
{
    if s.len() == 0 {
        Seq::empty()
    } else {
        let p = dedup(s.drop_last());
        if p.contains(s.last()) {
            p
        } else {
            p.push(s.last())
        }
    }
}

/// The NSIDs that document `doc` imports, in order of first reference.
pub open spec fn dependencies_spec(doc: SchemaDocument) -> Seq<Seq<char>> {
    dedup(external_nsids(defs_refs(doc.defs@), doc.id@))
}

proof fn lemma_views_push(v: Seq<String>, s: String)
    ensures
        views(v.push(s)) == views(v).push(s@),
{
    assert(views(v.push(s)) =~= views(v).push(s@));
}

proof fn lemma_push_contains(t: Seq<Seq<char>>, y: Seq<char>)
    ensures
        forall|x: Seq<char>| t.push(y).contains(x) <==> (t.contains(x) || x == y),
{
    assert forall|x: Seq<char>| t.push(y).contains(x) <==> (t.contains(x) || x == y) by {
        if t.contains(x) {
            let i = choose|i: int| 0 <= i < t.len() && t[i] == x;
            assert(t.push(y)[i] == x);
        }
        if x == y {
            assert(t.push(y)[t.len() as int] == x);
        }
        if t.push(y).contains(x) {
            let i = choose|i: int| 0 <= i < t.len() + 1 && t.push(y)[i] == x;
            if i < t.len() {
                assert(t[i] == x);
            }
        }
    }
}

proof fn lemma_dedup(s: Seq<Seq<char>>)
    ensures
        dedup(s).no_duplicates(),
        forall|x: Seq<char>| dedup(s).contains(x) <==> s.contains(x),
    decreases s.len(),
{
    if s.len() == 0 {
        assert(dedup(s) =~= s);
    } else {
        let q = s.drop_last();
        let p = dedup(q);
        lemma_dedup(q);
        assert(s =~= q.push(s.last()));
        lemma_push_contains(q, s.last());
        lemma_push_contains(p, s.last());
        assert forall|x: Seq<char>| dedup(s).contains(x) <==> s.contains(x) by {
            assert(s.contains(x) == (q.contains(x) || x == s.last()));
            assert(p.contains(x) == q.contains(x));
            assert(p.contains(s.last()) == q.contains(s.last()));
            if p.contains(s.last()) {
                assert(dedup(s) == p);
            } else {
                assert(dedup(s) == p.push(s.last()));
            }
        }
        if !p.contains(s.last()) {
            assert forall|i: int, j: int|
                0 <= i < p.len() + 1 && 0 <= j < p.len() + 1 && i != j implies p.push(
                s.last(),
            )[i] != p.push(s.last())[j] by {
                if i == p.len() {
                    assert(p[j] == p.push(s.last())[j]);
                } else if j == p.len() {
                    assert(p[i] == p.push(s.last())[i]);
                }
            }
        }
    }
}

proof fn lemma_external_nsids(refs: Seq<Seq<char>>, id: Seq<char>)
    ensures
        forall|n: Seq<char>|
            external_nsids(refs, id).contains(n) <==> (exists|i: int|
                0 <= i < refs.len() && resolve_spec(#[trigger] refs[i], id).0 == n && n != id),
    decreases refs.len(),
{
    if refs.len() > 0 {
        let p = refs.drop_last();
        lemma_external_nsids(p, id);
        assert forall|n: Seq<char>|
            external_nsids(refs, id).contains(n) <==> (exists|i: int|
                0 <= i < refs.len() && resolve_spec(#[trigger] refs[i], id).0 == n && n
                    != id) by {
            let e = external_nsids(p, id);
            if exists|i: int|
                0 <= i < refs.len() && resolve_spec(#[trigger] refs[i], id).0 == n && n != id {
                let i = choose|i: int|
                    0 <= i < refs.len() && resolve_spec(#[trigger] refs[i], id).0 == n && n != id;
                if i < refs.len() - 1 {
                    assert(p[i] == refs[i]);
                    assert(e.contains(n));
                    if resolve_spec(refs.last(), id).0 != id {
                        let j = choose|j: int| 0 <= j < e.len() && e[j] == n;
                        assert(e.push(resolve_spec(refs.last(), id).0)[j] == n);
                    }
                } else {
                    assert(external_nsids(refs, id).last() == n);
                }
            }
            if external_nsids(refs, id).contains(n) {
                let j = choose|j: int|
                    0 <= j < external_nsids(refs, id).len() && external_nsids(refs, id)[j] == n;
                if j < e.len() {
                    assert(e[j] == n);
                    assert(e.contains(n));
                    let i = choose|i: int|
                        0 <= i < p.len() && resolve_spec(#[trigger] p[i], id).0 == n && n != id;
                    assert(refs[i] == p[i]);
                } else {
                    assert(refs[refs.len() - 1] == refs.last());
                }
            }
        }
    }
}

/// The dependencies of a document hold each NSID once, and are exactly the
/// NSIDs other than the document's own that its non-local references name:
/// no local reference `#Name` contributes one.
pub proof fn law_dependencies_exclude_locals(doc: SchemaDocument)
    ensures
        dependencies_spec(doc).no_duplicates(),
        forall|n: Seq<char>|
            dependencies_spec(doc).contains(n) <==> (exists|i: int|
                0 <= i < defs_refs(doc.defs@).len() && !is_local_ref(defs_refs(doc.defs@)[i])
                    && resolve_spec(#[trigger] defs_refs(doc.defs@)[i], doc.id@).0 == n && n
                    != doc.id@),
{
    let refs = defs_refs(doc.defs@);
    let id = doc.id@;
    lemma_dedup(external_nsids(refs, id));
    lemma_external_nsids(refs, id);
    assert forall|n: Seq<char>|
        dependencies_spec(doc).contains(n) <==> (exists|i: int|
            0 <= i < refs.len() && !is_local_ref(refs[i]) && resolve_spec(
                #[trigger] refs[i],
                id,
            ).0 == n && n != id) by {
        if external_nsids(refs, id).contains(n) {
            let i = choose|i: int|
                0 <= i < refs.len() && resolve_spec(#[trigger] refs[i], id).0 == n && n != id;
            assert(!is_local_ref(refs[i]));
        }
    }
}

/// Writing a reference once more, anywhere a reference is collected, leaves
/// the dependencies unchanged.
pub proof fn law_dependencies_ignore_repeats(refs: Seq<Seq<char>>, r: Seq<char>, id: Seq<char>)
    requires
        refs.contains(r),
    ensures
        dedup(external_nsids(refs.push(r), id)) == dedup(external_nsids(refs, id)),
{
    let e = external_nsids(refs, id);
    assert(refs.push(r).drop_last() =~= refs);
    assert(refs.push(r).last() == r);
    let n = resolve_spec(r, id).0;
    if n == id {
        assert(external_nsids(refs.push(r), id) == e);
    } else {
        lemma_external_nsids(refs, id);
        lemma_dedup(e);
        let i = choose|i: int| 0 <= i < refs.len() && refs[i] == r;
        assert(resolve_spec(refs[i], id).0 == n);
        assert(e.contains(n));
        assert(dedup(e).contains(n));
        assert(e.push(n).drop_last() =~= e);
        assert(e.push(n).last() == n);
        assert(external_nsids(refs.push(r), id) == e.push(n));
    }
}

/// Appends the references written in an array item shape.
fn collect_refs_from_array_item(item: &ArrayItem, refs: &mut Vec<String>)
    ensures
        views(final(refs)@) == views(old(refs)@) + item_refs(*item),
{
    match item {
        ArrayItem::Ref(r) => {
            proof {
                lemma_views_push(refs@, *r);
            }
            refs.push(r.clone());
            assert(views(old(refs)@) + seq![r@] =~= views(old(refs)@).push(r@));
        },
        ArrayItem::Union(u) => {
            push_all(u, refs);
        },
        _ => {
            assert(views(old(refs)@) + Seq::empty() =~= views(old(refs)@));
        },
    }
}

/// Appends every string of `src`, in order.
fn push_all(src: &Vec<String>, refs: &mut Vec<String>)
    ensures
        views(final(refs)@) == views(old(refs)@) + views(src@),
{
    let mut i: usize = 0;
    while i < src.len()
        invariant
            i <= src@.len(),
            views(refs@) == views(old(refs)@) + views(src@.take(i as int)),
        decreases src@.len() - i,
    {
        proof {
            lemma_views_push(refs@, src@[i as int]);
            lemma_views_push(src@.take(i as int), src@[i as int]);
            assert(src@.take(i + 1) =~= src@.take(i as int).push(src@[i as int]));
        }
        refs.push(src[i].clone());
        assert(views(refs@) =~= views(old(refs)@) + views(src@.take(i + 1)));
        i = i + 1;
    }
    assert(src@.take(src@.len() as int) =~= src@);
}

/// Appends the references written in a property shape.
fn collect_refs_from_property(prop: &PropertyType, refs: &mut Vec<String>)
    ensures
        views(final(refs)@) == views(old(refs)@) + prop_refs(*prop),
{
    match prop {
        PropertyType::Ref(r) => {
            proof {
                lemma_views_push(refs@, *r);
            }
            refs.push(r.clone());
            assert(views(old(refs)@) + seq![r@] =~= views(old(refs)@).push(r@));
        },
        PropertyType::Union(u) => {
            push_all(u, refs);
        },
        PropertyType::Array(item) => {
            collect_refs_from_array_item(item, refs);
        },
        _ => {
            assert(views(old(refs)@) + Seq::empty() =~= views(old(refs)@));
        },
    }
}

/// Appends the references written in the properties of an object.
fn collect_refs_from_object(obj: &ObjectShape, refs: &mut Vec<String>)
    ensures
        views(final(refs)@) == views(old(refs)@) + props_refs(obj.properties@),
{
    let props = &obj.properties;
    let mut j: usize = 0;
    assert(props@.take(0) =~= Seq::<(String, PropertyType)>::empty());
    assert(views(old(refs)@) + Seq::empty() =~= views(old(refs)@));
    while j < props.len()
        invariant
            j <= props@.len(),
            views(refs@) == views(old(refs)@) + props_refs(props@.take(j as int)),
        decreases props@.len() - j,
    {
        collect_refs_from_property(&props[j].1, refs);
        assert(props@.take(j + 1).drop_last() =~= props@.take(j as int));
        assert(views(refs@) =~= views(old(refs)@) + props_refs(props@.take(j + 1)));
        j = j + 1;
    }
    assert(props@.take(props@.len() as int) =~= props@);
}

/// Whether `v` holds a string with the text of `s`.
fn contains_text(v: &Vec<String>, s: &String) -> (r: bool)
    ensures
        r == views(v@).contains(s@),
{
    let mut i: usize = 0;
    while i < v.len()
        invariant
            i <= v@.len(),
            forall|k: int| 0 <= k < i ==> v@[k]@ != s@,
        decreases v@.len() - i,
    {
        if v[i] == *s {
            assert(views(v@)[i as int] == s@);
            return true;
        }
        i = i + 1;
    }
    assert forall|k: int| 0 <= k < views(v@).len() implies views(v@)[k] != s@ by {
        assert(views(v@)[k] == v@[k]@);
    }
    false
}

/// The NSIDs of the other documents that `doc` references, each once, in
/// order of first reference; local references and references into `doc`
/// itself are left out.
pub fn collect_external_refs(doc: &SchemaDocument) -> (r: Vec<String>)
    ensures
        views(r@) == dependencies_spec(*doc),
{
    let mut raw: Vec<String> = Vec::new();
    let defs = &doc.defs;
    let mut i: usize = 0;
    assert(views(raw@) =~= Seq::<Seq<char>>::empty());
    assert(defs@.take(0) =~= Seq::<(String, Definition)>::empty());
    while i < defs.len()
        invariant
            i <= defs@.len(),
            views(raw@) == defs_refs(defs@.take(i as int)),
        decreases defs@.len() - i,
    {
        match &defs[i].1 {
            Definition::Record(obj) => collect_refs_from_object(obj, &mut raw),
            Definition::Object(obj) => collect_refs_from_object(obj, &mut raw),
            Definition::Other => {},
        }
        assert(defs@.take(i + 1).drop_last() =~= defs@.take(i as int));
        assert(views(raw@) =~= defs_refs(defs@.take(i + 1)));
        i = i + 1;
    }
    assert(defs@.take(defs@.len() as int) =~= defs@);
    let mut out: Vec<String> = Vec::new();
    let mut k: usize = 0;
    assert(views(raw@).take(0) =~= Seq::<Seq<char>>::empty());
    assert(views(out@) =~= Seq::<Seq<char>>::empty());
    while k < raw.len()
        invariant
            k <= raw@.len(),
            views(out@) == dedup(external_nsids(views(raw@).take(k as int), doc.id@)),
        decreases raw@.len() - k,
    {
        let q = resolve(raw[k].as_str(), doc.id.as_str());
        let ghost pre = views(raw@).take(k as int);
        let ghost now = views(raw@).take(k + 1);
        assert(now.drop_last() =~= pre);
        assert(now.last() == raw@[k as int]@);
        if q.nsid != doc.id {
            assert(external_nsids(now, doc.id@).drop_last() =~= external_nsids(pre, doc.id@));
            if !contains_text(&out, &q.nsid) {
                proof {
                    lemma_views_push(out@, q.nsid);
                }
                out.push(q.nsid);
            }
        }
        k = k + 1;
    }
    assert(views(raw@).take(raw@.len() as int) =~= views(raw@));
    out
}

} // verus!
