//! Class names derived from an NSID and a definition name.

use heck::ToPascalCase;
use vstd::prelude::*;
use vstd::string::*;

verus! {

/// What heck's Pascal-case conversion gives for a piece of text.
pub uninterp spec fn pascal_of(s: Seq<char>) -> Seq<char>;

/// Relies on heck's `ToPascalCase::to_pascal_case` for `str`: the converted
/// text depends on the characters of the input alone.
#[verifier::external_body]
fn pascal_case(s: &str) -> (r: String)
    ensures
        r@ == pascal_of(s@),
{
    s.to_pascal_case()
}

/// The name of the implicit definition of a document: `main`.
pub open spec fn main_name() -> Seq<char> {
    "main"@
}

/// The segments of `s` between dots, in order; text without a dot is one
/// segment, and an empty text is one empty segment.
pub open spec fn split_dots(s: Seq<char>) -> Seq<Seq<char>>
    decreases s.len(),
{
    if s.len() == 0 {
        seq![Seq::<char>::empty()]
    } else {
        let p = split_dots(s.drop_last());
        if s.last() == '.' {
            p.push(Seq::<char>::empty())
        } else {
            p.update(p.len() - 1, p.last().push(s.last()))
        }
    }
}

/// The Pascal-cased parts, concatenated in order.
pub open spec fn concat_pascal(parts: Seq<Seq<char>>) -> Seq<char>
    decreases parts.len(),
{
    if parts.len() == 0 {
        Seq::<char>::empty()
    } else {
        concat_pascal(parts.drop_last()) + pascal_of(parts.last())
    }
}

/// The parts a class name is made of: the NSID's segments, then the
/// definition name unless it is `main`.
pub open spec fn name_parts(nsid: Seq<char>, def_name: Seq<char>) -> Seq<Seq<char>> {
    if def_name == main_name() {
        split_dots(nsid)
    } else {
        split_dots(nsid).push(def_name)
    }
}

/// The class name of definition `def_name` of document `nsid`.
pub open spec fn class_name_spec(nsid: Seq<char>, def_name: Seq<char>) -> Seq<char> {
    concat_pascal(name_parts(nsid, def_name))
}

proof fn lemma_split_dots_nonempty(s: Seq<char>)
    ensures
        split_dots(s).len() >= 1,
    decreases s.len(),
{
    if s.len() > 0 {
        lemma_split_dots_nonempty(s.drop_last());
    }
}

proof fn lemma_concat_pascal_push(parts: Seq<Seq<char>>, x: Seq<char>)
    ensures
        concat_pascal(parts.push(x)) == concat_pascal(parts) + pascal_of(x),
{
    assert(parts.push(x).drop_last() =~= parts);
}

/// Whether the two texts are equal.
pub(crate) fn str_eq(a: &str, b: &str) -> (r: bool)
    ensures
        r == (a@ == b@),
{
    let n = a.unicode_len();
    if n != b.unicode_len() {
        return false;
    }
    let mut i: usize = 0;
    while i < n
        invariant
            n == a@.len() == b@.len(),
            i <= n,
            forall|j: int| 0 <= j < i ==> a@[j] == b@[j],
        decreases n - i,
    {
        if a.get_char(i) != b.get_char(i) {
            return false;
        }
        i = i + 1;
    }
    assert(a@ =~= b@);
    true
}

/// Whether `s` is the name of the implicit definition, `main`.
pub fn is_main_name(s: &str) -> (r: bool)
    ensures
        r == (s@ == main_name()),
{
    str_eq(s, "main")
}

/// Builds the class name of definition `def_name` of document `nsid`: each
/// dot-separated segment of the NSID, then the definition name unless it is
/// `main`, converted to Pascal case and joined without separator.
pub fn to_class_name(nsid: &str, def_name: &str) -> (r: String)
    ensures
        r@ == class_name_spec(nsid@, def_name@),
{
    let n = nsid.unicode_len();
    let mut out = String::new();
    let mut start: usize = 0;
    let mut i: usize = 0;
    let ghost mut done: Seq<Seq<char>> = Seq::empty();
    assert(nsid@.take(0) =~= Seq::<char>::empty());
    assert(nsid@.subrange(0, 0) =~= Seq::<char>::empty());
    assert(done.push(Seq::<char>::empty()) =~= seq![Seq::<char>::empty()]);
    while i < n
        invariant
            n == nsid@.len(),
            start <= i <= n,
            split_dots(nsid@.take(i as int)) == done.push(nsid@.subrange(start as int, i as int)),
            out@ == concat_pascal(done),
        decreases n - i,
    {
        let c = nsid.get_char(i);
        let ghost prev = nsid@.take(i as int);
        assert(nsid@.take(i + 1).drop_last() =~= prev);
        assert(nsid@.take(i + 1).last() == c);
        if c == '.' {
            let seg = pascal_case(nsid.substring_char(start, i));
            proof {
                lemma_concat_pascal_push(done, nsid@.subrange(start as int, i as int));
                done = done.push(nsid@.subrange(start as int, i as int));
            }
            out.append(seg.as_str());
            start = i + 1;
            assert(nsid@.subrange(start as int, start as int) =~= Seq::<char>::empty());
        } else {
            let ghost seg = nsid@.subrange(start as int, i as int);
            assert(seg.push(c) =~= nsid@.subrange(start as int, i + 1));
            assert(done.push(seg).update(done.len() as int, seg.push(c)) =~= done.push(
                seg.push(c),
            ));
        }
        i = i + 1;
    }
    assert(nsid@.take(n as int) =~= nsid@);
    let last = pascal_case(nsid.substring_char(start, n));
    proof {
        lemma_concat_pascal_push(done, nsid@.subrange(start as int, n as int));
    }
    out.append(last.as_str());
    if !is_main_name(def_name) {
        let d = pascal_case(def_name);
        proof {
            lemma_concat_pascal_push(split_dots(nsid@), def_name@);
        }
        out.append(d.as_str());
    }
    out
}

} // verus!
