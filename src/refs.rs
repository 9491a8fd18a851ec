//! Resolution of reference strings to qualified definition names.

use crate::names::{class_name_spec, main_name, to_class_name};
use vstd::prelude::*;
use vstd::string::*;

verus! {

/// The index of the first `c` among the first `n` characters of `s`, or -1.
pub open spec fn first_index_upto(s: Seq<char>, c: char, n: int) -> int
    decreases n,
{
    if n <= 0 {
        -1
    } else {
        let k = first_index_upto(s, c, n - 1);
        if k >= 0 {
            k
        } else if s[n - 1] == c {
            n - 1
        } else {
            -1
        }
    }
}

/// The index of the first `c` in `s`, or -1 when there is none.
pub open spec fn first_index(s: Seq<char>, c: char) -> int {
    first_index_upto(s, c, s.len() as int)
}

/// A local reference: `#Name`, naming a definition of the owning document.
pub open spec fn is_local_ref(r: Seq<char>) -> bool {
    r.len() > 0 && r[0] == '#'
}

/// The (NSID, definition name) that reference `r` names when it stands in
/// the document `owner`.
pub open spec fn resolve_spec(r: Seq<char>, owner: Seq<char>) -> (Seq<char>, Seq<char>) {
    if is_local_ref(r) {
        (owner, r.drop_first())
    } else if first_index(r, '#') >= 0 {
        let k = first_index(r, '#');
        (r.take(k), r.skip(k + 1))
    } else {
        (r, main_name())
    }
}

/// The class name that reference `r` stands for in the document `owner`.
pub open spec fn ref_class_spec(r: Seq<char>, owner: Seq<char>) -> Seq<char> {
    class_name_spec(resolve_spec(r, owner).0, resolve_spec(r, owner).1)
}

/// A definition named by the NSID of its document and its own name.
#[derive(Debug, PartialEq, Eq)]
pub struct QualifiedName {
    pub nsid: String,
    pub def_name: String,
}

/// The context in which references are resolved: the owning document.
pub struct RefContext<'a> {
    /// NSID of the current document (e.g. "fm.plyr.track").
    pub nsid: &'a str,
}

pub proof fn lemma_first_index_none(s: Seq<char>, c: char, k: int)
    requires
        0 <= k <= s.len(),
        forall|j: int| 0 <= j < k ==> s[j] != c,
    ensures
        first_index_upto(s, c, k) == -1,
    decreases k,
{
    if k > 0 {
        lemma_first_index_none(s, c, k - 1);
    }
}

pub proof fn lemma_first_index_found(s: Seq<char>, c: char, p: int, k: int)
    requires
        0 <= p < k <= s.len(),
        s[p] == c,
        forall|j: int| 0 <= j < p ==> s[j] != c,
    ensures
        first_index_upto(s, c, k) == p,
    decreases k,
{
    if k == p + 1 {
        lemma_first_index_none(s, c, p);
    } else {
        lemma_first_index_found(s, c, p, k - 1);
    }
}

/// The position of the first `#` in `s`, if there is one.
fn find_hash(s: &str) -> (r: Option<usize>)
    ensures
        match r {
            Some(k) => k < s@.len() && k as int == first_index(s@, '#'),
            None => first_index(s@, '#') == -1,
        },
{
    let n = s.unicode_len();
    let mut i: usize = 0;
    while i < n
        invariant
            n == s@.len(),
            i <= n,
            forall|j: int| 0 <= j < i ==> s@[j] != '#',
        decreases n - i,
    {
        if s.get_char(i) == '#' {
            proof {
                lemma_first_index_found(s@, '#', i as int, n as int);
            }
            return Some(i);
        }
        i = i + 1;
    }
    proof {
        lemma_first_index_none(s@, '#', n as int);
    }
    None
}

/// Resolves reference `ref_str` standing in document `owner`: `#Name` names
/// `Name` of `owner`; `nsid#Name` names `Name` of `nsid`, split at the first
/// `#`; a reference without `#` names `main` of that NSID.
pub fn resolve(ref_str: &str, owner: &str) -> (r: QualifiedName)
    ensures
        (r.nsid@, r.def_name@) == resolve_spec(ref_str@, owner@),
{
    let n = ref_str.unicode_len();
    if n > 0 && ref_str.get_char(0) == '#' {
        let name = ref_str.substring_char(1, n);
        assert(name@ =~= ref_str@.drop_first());
        return QualifiedName { nsid: String::from_str(owner), def_name: String::from_str(name) };
    }
    match find_hash(ref_str) {
        Some(k) => {
            let nsid = ref_str.substring_char(0, k);
            let def_name = ref_str.substring_char(k + 1, n);
            assert(nsid@ =~= ref_str@.take(k as int));
            assert(def_name@ =~= ref_str@.skip(k + 1));
            QualifiedName { nsid: String::from_str(nsid), def_name: String::from_str(def_name) }
        },
        None => QualifiedName {
            nsid: String::from_str(ref_str),
            def_name: String::from_str("main"),
        },
    }
}

impl<'a> RefContext<'a> {
    pub fn new(nsid: &'a str) -> (r: Self)
        ensures
            r.nsid@ == nsid@,
    {
        RefContext { nsid }
    }

    /// The class name that `ref_str` stands for in the current document.
    pub fn resolve_ref(&self, ref_str: &str) -> (r: String)
        ensures
            r@ == ref_class_spec(ref_str@, self.nsid@),
    {
        let q = resolve(ref_str, self.nsid);
        to_class_name(q.nsid.as_str(), q.def_name.as_str())
    }
}

/// A local reference `#Name` resolves to `Name` of the owning document: the
/// NSID is the owner's, and the definition name is the same under every
/// owner.
pub proof fn law_local_ref_names_owner(r: Seq<char>, owner: Seq<char>, other: Seq<char>)
    requires
        is_local_ref(r),
    ensures
        resolve_spec(r, owner).0 == owner,
        resolve_spec(r, owner).1 == r.drop_first(),
        resolve_spec(r, owner).1 == resolve_spec(r, other).1,
{
}

/// A reference without `#` names the `main` definition of the NSID it spells,
/// whatever document it stands in.
pub proof fn law_plain_ref_names_main(r: Seq<char>, owner: Seq<char>)
    requires
        forall|j: int| 0 <= j < r.len() ==> r[j] != '#',
    ensures
        resolve_spec(r, owner) == (r, main_name()),
{
    lemma_first_index_none(r, '#', r.len() as int);
}

/// A reference `nsid#Name` names `Name` of `nsid`, whatever document it
/// stands in.
pub proof fn law_qualified_ref_ignores_owner(
    nsid: Seq<char>,
    def_name: Seq<char>,
    owner: Seq<char>,
)
    requires
        nsid.len() > 0,
        forall|j: int| 0 <= j < nsid.len() ==> nsid[j] != '#',
    ensures
        resolve_spec(nsid + seq!['#'] + def_name, owner) == (nsid, def_name),
{
    let r = nsid + seq!['#'] + def_name;
    assert(r[nsid.len() as int] == '#');
    assert forall|j: int| 0 <= j < nsid.len() implies r[j] != '#' by {
        assert(r[j] == nsid[j]);
    }
    lemma_first_index_found(r, '#', nsid.len() as int, r.len() as int);
    assert(r.take(nsid.len() as int) =~= nsid);
    assert(r.skip(nsid.len() as int + 1) =~= def_name);
}

} // verus!
