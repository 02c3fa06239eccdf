//! Which files make up an application bundle, and what its fingerprint is taken of.

use crate::bundle::{
    be_bytes, bundle_domain, bundle_fingerprint_text, content_at, entries_error, entry_files,
    fingerprinted, BundleEntry,
};
use crate::digest::hex_sha256;
use crate::inventory::{has_key, key_position, keys_ascend, lemma_key_position};
use vstd::prelude::*;
use vstd::utf8::encode_utf8;

verus! {

/// The number that eight bytes spell, the highest first.
pub open spec fn be_number(b: Seq<u8>) -> int {
    ((((((b[0] * 256 + b[1]) * 256 + b[2]) * 256 + b[3]) * 256 + b[4]) * 256 + b[5]) * 256 + b[6])
        * 256 + b[7]
}

proof fn lemma_be_number(n: u64)
    ensures
        be_bytes(n).len() == 8,
        be_number(be_bytes(n)) == n,
{
    let a = n / 0x100;
    let b = n / 0x1_0000;
    let c = n / 0x100_0000;
    let d = n / 0x1_0000_0000;
    let e = n / 0x100_0000_0000;
    let f = n / 0x1_0000_0000_0000;
    let g = n / 0x100_0000_0000_0000;
    assert(n == a * 256 + n % 256);
    assert(a == b * 256 + a % 256);
    assert(b == c * 256 + b % 256);
    assert(c == d * 256 + c % 256);
    assert(d == e * 256 + d % 256);
    assert(e == f * 256 + e % 256);
    assert(f == g * 256 + f % 256);
}

/// The fingerprint of no files is taken of the name of the format. Each further file
/// adds the length of its path in eight bytes, the path, the length of its content in
/// eight bytes, and the content.
pub proof fn law_fingerprint_layout(
    files: Seq<(Seq<char>, Seq<u8>)>,
    path: Seq<char>,
    content: Seq<u8>,
)
    requires
        encode_utf8(path).len() <= u64::MAX,
        content.len() <= u64::MAX,
    ensures
        bundle_fingerprint_text(files) == hex_sha256(fingerprinted(files)),
        fingerprinted(Seq::empty()) == encode_utf8("photo-publisher-application-bundle-v1\0"@),
        ({
            let before = fingerprinted(files);
            let after = fingerprinted(files.push((path, content)));
            let name = encode_utf8(path);
            let a = before.len() as int;
            let b = a + 8;
            let c = b + name.len();
            let d = c + 8;
            &&& after.len() == d + content.len()
            &&& after.take(a) == before
            &&& be_number(after.subrange(a, b)) == name.len()
            &&& after.subrange(b, c) == name
            &&& be_number(after.subrange(c, d)) == content.len()
            &&& after.skip(d) == content
        }),
{
    assert(fingerprinted(Seq::empty()) =~= bundle_domain());
    let before = fingerprinted(files);
    let all = files.push((path, content));
    let after = fingerprinted(all);
    let name = encode_utf8(path);
    let first = be_bytes(name.len() as u64);
    let second = be_bytes(content.len() as u64);
    lemma_be_number(name.len() as u64);
    lemma_be_number(content.len() as u64);
    assert(all.drop_last() =~= files);
    assert(after =~= before + (first + name + second + content));
    let a = before.len() as int;
    let b = a + 8;
    let c = b + name.len();
    let d = c + 8;
    assert(after.take(a) =~= before);
    assert(after.subrange(a, b) =~= first);
    assert(after.subrange(b, c) =~= name);
    assert(after.subrange(c, d) =~= second);
    assert(after.skip(d) =~= content);
}

/// A directory can be bundled exactly where every entry is a file. Its files have the
/// content of the entries, and their paths with slashes.
pub proof fn law_directory_entries(entries: Seq<BundleEntry>)
    ensures
        entries_error(entries) is None <==> forall|i: int|
            0 <= i < entries.len() ==> (#[trigger] entries[i]).kind is File,
        entries_error(entries) is Some ==> entries_error(entries)->0 is InvalidPath,
        entry_files(entries).len() == entries.len(),
        forall|i: int|
            0 <= i < entries.len() && (#[trigger] entries[i]).kind is File ==> {
                let (path, content) = entry_files(entries)[i];
                &&& content == entries[i].kind->File_0@
                &&& path.len() == entries[i].relative@.len()
                &&& forall|k: int|
                    0 <= k < path.len() ==> #[trigger] path[k] == if entries[i].relative@[k]
                        == '\\' {
                        '/'
                    } else {
                        entries[i].relative@[k]
                    }
            },
    decreases entries.len(),
{
    if entries.len() > 0 {
        let rest = entries.drop_last();
        law_directory_entries(rest);
        assert forall|i: int| 0 <= i < rest.len() implies #[trigger] rest[i] == entries[i] by {}
        if entries_error(entries) is None {
            assert forall|i: int| 0 <= i < entries.len() implies (
            #[trigger] entries[i]).kind is File by {
                if i < rest.len() {
                    assert(rest[i].kind is File);
                }
            }
        } else if entries_error(rest) is None {
            assert(!(entries[entries.len() - 1].kind is File));
        } else {
            let i = choose|i: int| 0 <= i < rest.len() && !((#[trigger] rest[i]).kind is File);
            assert(!(entries[i].kind is File));
        }
    }
}

/// A file of a bundle is found by its path, with its content; a path that no file has
/// is not found.
pub proof fn law_bundle_content(files: Seq<(Seq<char>, Seq<u8>)>, path: Seq<char>)
    requires
        keys_ascend(files),
    ensures
        match content_at(files, path) {
            Some(content) => exists|i: int|
                0 <= i < files.len() && #[trigger] files[i] == (path, content),
            None => forall|i: int| 0 <= i < files.len() ==> (#[trigger] files[i]).0 != path,
        },
{
    if has_key(files, path) {
        let i = key_position(files, path);
        let j = choose|j: int| 0 <= j < files.len() && (#[trigger] files[j]).0 == path;
        lemma_key_position(files, j);
        assert(files[i] == (path, content_at(files, path)->0));
    }
}

} // verus!
