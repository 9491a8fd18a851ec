//! The cache key of a lexicon tree: a digest over the tool version, the
//! namespace prefix and the names and contents of the lexicon files.

use sha2::{Digest, Sha256};
use vstd::prelude::*;
use vstd::string::*;

verus! {

/// What SHA-256 gives for a byte string.
pub uninterp spec fn sha256_of(data: Seq<u8>) -> Seq<u8>;

/// Relies on sha2's `Sha256::digest`: the 32-byte SHA-256 digest of `data`.
#[verifier::external_body]
fn sha256(data: &Vec<u8>) -> (r: Vec<u8>)
    ensures
        r@ == sha256_of(data@),
        r@.len() == 32,
{
    Sha256::digest(data.as_slice()).to_vec()
}

/// The lowercase hexadecimal digit for a value below 16.
pub open spec fn hex_digit(n: u8) -> char {
    if n < 10 {
        (('0' as u8) + n) as char
    } else {
        (('a' as u8) + n - 10) as char
    }
}

/// Two lowercase hexadecimal digits per byte, high half first.
pub open spec fn hex_spec(b: Seq<u8>) -> Seq<char>
    decreases b.len(),
{
    if b.len() == 0 {
        Seq::empty()
    } else {
        hex_spec(b.drop_last()) + seq![hex_digit(b.last() / 16), hex_digit(b.last() % 16)]
    }
}

/// A lowercase hexadecimal digit.
pub open spec fn is_hex_char(c: char) -> bool {
    ('0' <= c && c <= '9') || ('a' <= c && c <= 'f')
}

proof fn lemma_hex_digit(n: u8)
    requires
        n < 16,
    ensures
        is_hex_char(hex_digit(n)),
{
}

proof fn lemma_hex_spec(b: Seq<u8>)
    ensures
        hex_spec(b).len() == 2 * b.len(),
        forall|i: int| 0 <= i < hex_spec(b).len() ==> is_hex_char(#[trigger] hex_spec(b)[i]),
    decreases b.len(),
{
    if b.len() > 0 {
        lemma_hex_spec(b.drop_last());
        lemma_hex_digit(b.last() / 16);
        lemma_hex_digit(b.last() % 16);
        let p = hex_spec(b.drop_last());
        let t = seq![hex_digit(b.last() / 16), hex_digit(b.last() % 16)];
        assert forall|i: int| 0 <= i < hex_spec(b).len() implies is_hex_char(
            #[trigger] hex_spec(b)[i],
        ) by {
            if i < p.len() {
                assert(hex_spec(b)[i] == p[i]);
            } else {
                assert(hex_spec(b)[i] == t[i - p.len()]);
            }
        }
    }
}

/// Relies on hex's `encode`: two lowercase hexadecimal digits per byte, the
/// high half first.
#[verifier::external_body]
fn hex_encode(b: &Vec<u8>) -> (r: String)
    ensures
        r@ == hex_spec(b@),
{
    hex::encode(b)
}

/// The names and contents of the files, each name followed by its content.
pub open spec fn files_bytes(files: Seq<(Vec<u8>, Vec<u8>)>) -> Seq<u8>
    decreases files.len(),
{
    if files.len() == 0 {
        Seq::empty()
    } else {
        files_bytes(files.drop_last()) + files.last().0@ + files.last().1@
    }
}

/// The bytes that the cache key digests: the version, the prefix if any,
/// then each file's name and content in the order given.
pub open spec fn key_input_spec(
    version: Seq<u8>,
    prefix: Option<Seq<u8>>,
    files: Seq<(Vec<u8>, Vec<u8>)>,
) -> Seq<u8> {
    version + match prefix {
        Some(p) => p,
        None => Seq::empty(),
    } + files_bytes(files)
}

/// The bytes that the cache key digests.
pub fn key_input(version: &str, prefix: Option<&str>, files: &Vec<(Vec<u8>, Vec<u8>)>) -> (r: Vec<
    u8,
>)
    ensures
        r@ == key_input_spec(
            version.spec_bytes(),
            match prefix {
                Some(p) => Some(p.spec_bytes()),
                None => None,
            },
            files@,
        ),
{
    let mut out = version.as_bytes_vec();
    match prefix {
        Some(p) => {
            let mut b = p.as_bytes_vec();
            out.append(&mut b);
        },
        None => {},
    }
    let ghost head = out@;
    let mut i: usize = 0;
    assert(files@.take(0) =~= Seq::<(Vec<u8>, Vec<u8>)>::empty());
    assert(out@ =~= head + files_bytes(files@.take(0)));
    while i < files.len()
        invariant
            i <= files@.len(),
            out@ == head + files_bytes(files@.take(i as int)),
        decreases files@.len() - i,
    {
        let mut name = files[i].0.clone();
        let mut content = files[i].1.clone();
        assert(name@ =~= files@[i as int].0@);
        assert(content@ =~= files@[i as int].1@);
        out.append(&mut name);
        out.append(&mut content);
        assert(files@.take(i + 1).drop_last() =~= files@.take(i as int));
        assert(out@ =~= head + files_bytes(files@.take(i + 1)));
        i = i + 1;
    }
    assert(files@.take(files@.len() as int) =~= files@);
    assert(out@ =~= key_input_spec(
        version.spec_bytes(),
        match prefix {
            Some(p) => Some(p.spec_bytes()),
            None => None,
        },
        files@,
    ));
    out
}

/// The cache key: the first eight bytes of the SHA-256 digest of
/// `key_input`, as sixteen lowercase hexadecimal digits.
pub fn cache_key(version: &str, prefix: Option<&str>, files: &Vec<(Vec<u8>, Vec<u8>)>) -> (r:
    String)
    ensures
        r@.len() == 16,
        forall|i: int| 0 <= i < r@.len() ==> is_hex_char(#[trigger] r@[i]),
        r@ == hex_spec(
            sha256_of(
                key_input_spec(
                    version.spec_bytes(),
                    match prefix {
                        Some(p) => Some(p.spec_bytes()),
                        None => None,
                    },
                    files@,
                ),
            ).take(8),
        ),
{
    let data = key_input(version, prefix, files);
    let digest = sha256(&data);
    let mut head: Vec<u8> = Vec::new();
    let mut i: usize = 0;
    while i < 8
        invariant
            i <= 8,
            digest@.len() == 32,
            head@ == digest@.take(i as int),
        decreases 8 - i,
    {
        head.push(digest[i]);
        assert(head@ =~= digest@.take(i + 1));
        i = i + 1;
    }
    proof {
        lemma_hex_spec(head@);
    }
    hex_encode(&head)
}

} // verus!
