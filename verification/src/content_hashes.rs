//! The content hash of a package: one SHA3-256 digest over the relative path
//! and the contents of each of its files, in the order in which they are
//! handed in, written in hexadecimal.
use vstd::prelude::*;
use vstd::string::StringSliceAdditionalSpecFns;
use sha3::{Digest, Sha3_256};

verus! {

/// `sha3::Sha3_256`, a hasher whose state is its own affair.
#[verifier::external_type_specification]
#[verifier::external_body]
pub struct ExSha3_256(sha3::Sha3_256);

/// The bytes that a hasher has taken in since it was made.
pub uninterp spec fn absorbed(hasher: sha3::Sha3_256) -> Seq<u8>;

/// The SHA3-256 digest of a message.
pub uninterp spec fn sha3_256_digest(message: Seq<u8>) -> Seq<u8>;

/// The sixteen digits of lower-case hexadecimal.
pub open spec fn hex_digits() -> Seq<char> {
    seq!['0', '1', '2', '3', '4', '5', '6', '7', '8', '9', 'a', 'b', 'c', 'd', 'e', 'f']
}

/// `bytes` in lower-case hexadecimal: two digits per byte, the high one
/// first.
pub open spec fn hex_of(bytes: Seq<u8>) -> Seq<char> {
    Seq::new(
        2 * bytes.len(),
        |i: int|
            if i % 2 == 0 {
                hex_digits()[bytes[i / 2] as int / 16]
            } else {
                hex_digits()[bytes[i / 2] as int % 16]
            },
    )
}

/// `Sha3_256::new` of the `Digest` trait: a hasher that has taken in
/// nothing.
#[verifier::external_body]
fn new_hasher() -> (hasher: Sha3_256)
    ensures
        absorbed(hasher) == Seq::<u8>::empty(),
{
    Sha3_256::new()
}

/// `Digest::update`: the hasher takes in `data` after what it has taken in
/// before.
#[verifier::external_body]
fn update(hasher: &mut Sha3_256, data: &[u8])
    ensures
        absorbed(*final(hasher)) == absorbed(*old(hasher)) + data@,
{
    hasher.update(data);
}

/// `Digest::finalize`: the SHA3-256 digest, 32 bytes long, of all that the
/// hasher has taken in.
#[verifier::external_body]
fn finalize(hasher: Sha3_256) -> (digest: Vec<u8>)
    ensures
        digest@ == sha3_256_digest(absorbed(hasher)),
        digest@.len() == 32,
{
    hasher.finalize().to_vec()
}

/// `hex::encode`: the bytes in lower-case hexadecimal.
#[verifier::external_body]
fn hex_encode(data: &[u8]) -> (text: String)
    ensures
        text@ == hex_of(data@),
{
    hex::encode(data)
}

/// The name of the directory that holds what a build leaves behind.
pub open spec fn build_directory_name() -> Seq<u8> {
    seq![0x74u8, 0x61u8, 0x72u8, 0x67u8, 0x65u8, 0x74u8]
}

/// Whether the walk over a package passes a directory by: the directory that
/// is named `target` and lies directly in the package's root.
pub fn should_skip_directory(parent_is_root: bool, file_name: &str) -> (skip: bool)
    ensures
        skip == (parent_is_root && file_name.spec_bytes() == build_directory_name()),
{
    let name = file_name.as_bytes();
    let matches = name.len() == 6 && name[0] == 0x74 && name[1] == 0x61 && name[2] == 0x72
        && name[3] == 0x67 && name[4] == 0x65 && name[5] == 0x74;
    proof {
        if matches {
            assert(name@ =~= build_directory_name());
        }
    }
    parent_is_root && matches
}

/// One file of a package: its path from the package's root, which goes into
/// the hash as its UTF-8 bytes, and what the file holds.
pub struct PackageFile {
    pub path: String,
    pub contents: Vec<u8>,
}

/// The bytes that go into the hash of `files`: for each file its path and
/// then its contents.
pub open spec fn hashed_bytes(files: Seq<PackageFile>) -> Seq<u8>
    decreases files.len(),
{
    if files.len() == 0 {
        Seq::empty()
    } else {
        hashed_bytes(files.drop_last()) + vstd::utf8::encode_utf8(files.last().path@)
            + files.last().contents@
    }
}

/// A content hash in the making.
pub struct PackageHasher {
    hasher: Sha3_256,
}

impl View for PackageHasher {
    type V = Seq<u8>;

    /// The bytes taken in so far.
    closed spec fn view(&self) -> Seq<u8> {
        absorbed(self.hasher)
    }
}

impl PackageHasher {
    /// A hasher that has taken in nothing.
    pub fn new() -> (hasher: Self)
        ensures
            hasher@ == Seq::<u8>::empty(),
    {
        PackageHasher { hasher: new_hasher() }
    }

    /// Takes in one file: its path, then its contents.
    pub fn hash_entry(&mut self, file_entry_path: &str, contents: &[u8])
        ensures
            final(self)@ == old(self)@ + file_entry_path.spec_bytes() + contents@,
    {
        update(&mut self.hasher, file_entry_path.as_bytes());
        update(&mut self.hasher, contents);
    }

    /// The hash of all that was taken in: 64 hexadecimal digits.
    pub fn finish(self) -> (hash: String)
        ensures
            hash@ == hex_of(sha3_256_digest(self@)),
            hash@.len() == 64,
    {
        let digest = finalize(self.hasher);
        hex_encode(digest.as_slice())
    }
}

/// The content hash of a package with the files `files`.
pub fn get_package_content_hash(files: &Vec<PackageFile>) -> (hash: String)
    ensures
        hash@ == hex_of(sha3_256_digest(hashed_bytes(files@))),
        hash@.len() == 64,
{
    let mut hasher = PackageHasher::new();
    let mut index: usize = 0;
    while index < files.len()
        invariant
            index <= files@.len(),
            hasher@ == hashed_bytes(files@.take(index as int)),
        decreases files@.len() - index,
    {
        proof {
            let next = files@.take(index as int + 1);
            assert(next.drop_last() =~= files@.take(index as int));
        }
        hasher.hash_entry(files[index].path.as_str(), files[index].contents.as_slice());
        index = index + 1;
    }
    proof {
        assert(files@.take(index as int) =~= files@);
    }
    hasher.finish()
}

} // verus!
