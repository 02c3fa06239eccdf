//! The application bundle: the files that make up the published site.

use crate::digest::{collide, hex_digest, hex_sha256};
use crate::inventory::{
    ascending_entries, entries_map, has_key, key_position, keys_ascend, lemma_ascending_entries,
    lemma_empty_listed, lemma_key_position, lemma_position, lemma_put,
};
use crate::paths::{is_portable_path, RepositoryPath};
use crate::provider::{ProviderError, ProviderErrorText};
use crate::text::{
    forward_slashed, is_sha256_text, joined, lemma_text_lt_irreflexive, lemma_text_lt_total,
    lemma_text_lt_transitive, same_text, text_before, text_lt, with_forward_slashes,
};
use vstd::arithmetic::div_mod::lemma_div_denominator;
use vstd::prelude::*;
use vstd::seq_lib::{
    to_multiset_build, to_multiset_contains, to_multiset_insert, to_multiset_len,
};
use vstd::utf8::{encode_utf8, encode_utf8_decode_utf8};

verus! {

/// One file of an application bundle.
#[derive(Debug, PartialEq, Eq)]
pub struct ApplicationBundleFile {
    path: RepositoryPath,
    content: Vec<u8>,
}

impl View for ApplicationBundleFile {
    type V = (Seq<char>, Seq<u8>);

    closed spec fn view(&self) -> (Seq<char>, Seq<u8>) {
        (self.path@, self.content@)
    }
}

impl ApplicationBundleFile {
    /// Where the file stands in the bundle.
    pub fn path(&self) -> (r: &RepositoryPath)
        ensures
            r@ == self@.0,
    {
        &self.path
    }

    /// The bytes of the file.
    pub fn content(&self) -> (r: &[u8])
        ensures
            r@ == self@.1,
    {
        self.content.as_slice()
    }
}

/// The files of a list, as path and content.
pub open spec fn files_view(files: Seq<ApplicationBundleFile>) -> Seq<(Seq<char>, Seq<u8>)> {
    Seq::new(files.len(), |i: int| files[i]@)
}

/// The given files, as path and content.
pub open spec fn given_files(files: Seq<(String, Vec<u8>)>) -> Seq<(Seq<char>, Seq<u8>)> {
    Seq::new(files.len(), |i: int| (files[i].0@, files[i].1@))
}

/// An application bundle: files in ascending path order, each path once, and a
/// fingerprint of them.
#[derive(Debug, PartialEq, Eq)]
pub struct ApplicationBundle {
    files: Vec<ApplicationBundleFile>,
    fingerprint: String,
}

/// The mathematical form of a bundle.
pub struct BundleView {
    pub files: Seq<(Seq<char>, Seq<u8>)>,
    pub fingerprint: Seq<char>,
}

impl View for ApplicationBundle {
    type V = BundleView;

    closed spec fn view(&self) -> BundleView {
        BundleView { files: files_view(self.files@), fingerprint: self.fingerprint@ }
    }
}

// ---------------------------------------------------------------------------
// Fingerprint
// ---------------------------------------------------------------------------
/// A number in eight bytes, the highest first.
pub open spec fn be_bytes(n: u64) -> Seq<u8> {
    seq![
        (n / 0x100_0000_0000_0000) as u8,
        ((n / 0x1_0000_0000_0000) % 256) as u8,
        ((n / 0x100_0000_0000) % 256) as u8,
        ((n / 0x1_0000_0000) % 256) as u8,
        ((n / 0x100_0000) % 256) as u8,
        ((n / 0x1_0000) % 256) as u8,
        ((n / 0x100) % 256) as u8,
        (n % 256) as u8,
    ]
}

/// What one file adds to the fingerprint: the length and bytes of its path, then
/// the length and bytes of its content.
pub open spec fn file_bytes(file: (Seq<char>, Seq<u8>)) -> Seq<u8> {
    be_bytes(encode_utf8(file.0).len() as u64) + encode_utf8(file.0) + be_bytes(file.1.len() as u64)
        + file.1
}

/// What the files add to the fingerprint, one after the other.
pub open spec fn files_bytes(files: Seq<(Seq<char>, Seq<u8>)>) -> Seq<u8>
    decreases files.len(),
{
    if files.len() == 0 {
        Seq::empty()
    } else {
        files_bytes(files.drop_last()) + file_bytes(files.last())
    }
}

/// The text that every bundle fingerprint starts from.
pub open spec fn bundle_domain() -> Seq<u8> {
    encode_utf8("photo-publisher-application-bundle-v1\0"@)
}

/// What the fingerprint of a list of files is the digest of.
pub open spec fn fingerprinted(files: Seq<(Seq<char>, Seq<u8>)>) -> Seq<u8> {
    bundle_domain() + files_bytes(files)
}

/// The fingerprint of a list of files.
pub open spec fn bundle_fingerprint_text(files: Seq<(Seq<char>, Seq<u8>)>) -> Seq<char> {
    hex_sha256(fingerprinted(files))
}

fn append_bytes(out: &mut Vec<u8>, bytes: &[u8])
    ensures
        final(out)@ == old(out)@ + bytes@,
{
    let ghost start = out@;
    let mut i: usize = 0;
    while i < bytes.len()
        invariant
            i <= bytes@.len(),
            out@ == start + bytes@.take(i as int),
        decreases bytes@.len() - i,
    {
        out.push(bytes[i]);
        i = i + 1;
        proof {
            assert(start + bytes@.take(i as int) =~= (start + bytes@.take(i - 1)).push(
                bytes@[i - 1],
            ));
        }
    }
    proof {
        assert(start + bytes@.take(bytes@.len() as int) =~= start + bytes@);
    }
}

fn append_be(out: &mut Vec<u8>, n: u64)
    ensures
        final(out)@ == old(out)@ + be_bytes(n),
{
    let ghost start = out@;
    out.push((n / 0x100_0000_0000_0000) as u8);
    out.push(((n / 0x1_0000_0000_0000) % 256) as u8);
    out.push(((n / 0x100_0000_0000) % 256) as u8);
    out.push(((n / 0x1_0000_0000) % 256) as u8);
    out.push(((n / 0x100_0000) % 256) as u8);
    out.push(((n / 0x1_0000) % 256) as u8);
    out.push(((n / 0x100) % 256) as u8);
    out.push((n % 256) as u8);
    proof {
        assert(out@ =~= start + be_bytes(n));
    }
}

fn bundle_fingerprint(files: &Vec<ApplicationBundleFile>) -> (r: String)
    ensures
        r@ == bundle_fingerprint_text(files_view(files@)),
        is_sha256_text(r@),
{
    let ghost all = files_view(files@);
    let mut bytes: Vec<u8> = Vec::new();
    append_bytes(&mut bytes, "photo-publisher-application-bundle-v1\0".as_bytes());
    let mut i: usize = 0;
    proof {
        assert(bytes@ =~= bundle_domain() + files_bytes(all.take(0)));
    }
    while i < files.len()
        invariant
            i <= files@.len(),
            all == files_view(files@),
            bytes@ == bundle_domain() + files_bytes(all.take(i as int)),
        decreases files@.len() - i,
    {
        let ghost before = bytes@;
        let path: &[u8] = files[i].path.as_str().as_bytes();
        append_be(&mut bytes, path.len() as u64);
        append_bytes(&mut bytes, path);
        append_be(&mut bytes, files[i].content.len() as u64);
        append_bytes(&mut bytes, files[i].content.as_slice());
        i = i + 1;
        proof {
            assert(all.take(i as int).drop_last() =~= all.take(i - 1));
            assert(all.take(i as int).last() == files@[i - 1]@);
            assert(bytes@ =~= before + file_bytes(files@[i - 1]@));
            assert(bytes@ =~= bundle_domain() + files_bytes(all.take(i as int)));
        }
    }
    proof {
        assert(all.take(files@.len() as int) =~= all);
    }
    hex_digest(bytes.as_slice())
}

// ---------------------------------------------------------------------------
// Assembly
// ---------------------------------------------------------------------------
/// What is wrong with the file at a position of the given list: a path that is
/// not portable, or one given before.
pub open spec fn given_file_error(given: Seq<(Seq<char>, Seq<u8>)>, i: int) -> Option<
    ProviderErrorText,
> {
    if !is_portable_path(given[i].0) {
        Some(ProviderErrorText::InvalidPath(given[i].0))
    } else if has_key(given.take(i), given[i].0) {
        Some(
            ProviderErrorText::InvalidPath("duplicate application bundle path: "@ + given[i].0),
        )
    } else {
        None
    }
}

/// What is wrong with the given list: that it is empty, or the first thing
/// wrong with one of its files.
pub open spec fn given_files_error(given: Seq<(Seq<char>, Seq<u8>)>, i: int) -> Option<
    ProviderErrorText,
>
    decreases given.len() - i,
{
    if given.len() == 0 {
        Some(
            ProviderErrorText::InvalidPath("application bundle must contain at least one file"@),
        )
    } else if i >= given.len() {
        None
    } else {
        match given_file_error(given, i) {
            Some(e) => Some(e),
            None => given_files_error(given, i + 1),
        }
    }
}

/// The bundle of the given files: the files in ascending path order, and their
/// fingerprint.
pub open spec fn bundle_of(given: Seq<(Seq<char>, Seq<u8>)>) -> BundleView {
    BundleView {
        files: ascending_entries(entries_map(given)),
        fingerprint: bundle_fingerprint_text(ascending_entries(entries_map(given))),
    }
}

/// No key occurs twice.
pub open spec fn keys_distinct(s: Seq<(Seq<char>, Seq<u8>)>) -> bool {
    forall|i: int, j: int| 0 <= i < j < s.len() ==> #[trigger] s[i].0 != #[trigger] s[j].0
}

/// Adding an entry with a new key at the end of a list adds it to its map.
proof fn lemma_push_entry(s: Seq<(Seq<char>, Seq<u8>)>, k: Seq<char>, v: Seq<u8>)
    requires
        keys_distinct(s),
        !has_key(s, k),
    ensures
        keys_distinct(s.push((k, v))),
        entries_map(s.push((k, v))) == entries_map(s).insert(k, v),
{
    let t = s.push((k, v));
    let m = entries_map(s).insert(k, v);
    assert forall|i: int, j: int| 0 <= i < j < t.len() implies #[trigger] t[i].0 != #[trigger] t[j].0 by {
        assert(t[i] == s[i]);
        if j < s.len() {
            assert(t[j] == s[j]);
        }
    }
    assert forall|x: Seq<char>| has_key(t, x) <==> (has_key(s, x) || x == k) by {
        if has_key(s, x) {
            let i = key_position(s, x);
            assert(t[i].0 == x);
        }
        if x == k {
            assert(t[s.len() as int].0 == x);
        }
        if has_key(t, x) {
            let i = key_position(t, x);
            if i < s.len() {
                assert(s[i].0 == x);
            }
        }
    }
    assert forall|x: Seq<char>| entries_map(t).dom().contains(x) implies entries_map(t)[x]
        == m[x] by {
        let i = key_position(t, x);
        assert(0 <= i < t.len() && t[i].0 == x);
        if x != k {
            assert(s[i].0 == x);
            let j = key_position(s, x);
            assert(0 <= j < s.len() && s[j].0 == x);
            assert(t[j].0 == x);
            assert(i == j);
        } else {
            assert(i == s.len()) by {
                if i < s.len() {
                    assert(s[i].0 == k);
                }
            }
        }
    }
    assert(entries_map(t) =~= m);
}

impl ApplicationBundle {
    #[verifier::type_invariant]
    spec fn ordered(self) -> bool {
        &&& keys_ascend(files_view(self.files@))
        &&& self.fingerprint@ == bundle_fingerprint_text(files_view(self.files@))
        &&& is_sha256_text(self.fingerprint@)
    }

    /// The bundle of the given files, in any order.
    pub fn from_files(files: Vec<(String, Vec<u8>)>) -> (r: Result<ApplicationBundle, ProviderError>)
        ensures
            match (given_files_error(given_files(files@), 0), r) {
                (Some(e), Err(f)) => f@ == e,
                (None, Ok(bundle)) => bundle@ == bundle_of(given_files(files@)) && keys_ascend(
                    bundle@.files,
                ) && bundle@.files.to_multiset() == given_files(files@).to_multiset()
                    && is_sha256_text(bundle@.fingerprint),
                _ => false,
            },
    {
        let ghost given = given_files(files@);
        if files.len() == 0 {
            return Err(
                ProviderError::InvalidPath(
                    "application bundle must contain at least one file".to_owned(),
                ),
            );
        }
        let mut sorted: Vec<ApplicationBundleFile> = Vec::new();
        proof {
            assert(entries_map(files_view(sorted@)) =~= entries_map(given.take(0)));
        }
        for file in it: files
            invariant
                given.len() > 0,
                given == given_files(it.seq()),
                keys_ascend(files_view(sorted@)),
                keys_distinct(given.take(it.index() as int)),
                entries_map(files_view(sorted@)) == entries_map(given.take(it.index() as int)),
                given_files_error(given, 0) == given_files_error(given, it.index() as int),
        {
            let ghost i = it.index() as int;
            let (text, content) = file;
            proof {
                assert(given[i] == (text@, content@));
            }
            let path: RepositoryPath = match RepositoryPath::new(text.as_str()) {
                Ok(path) => path,
                Err(e) => {
                    return Err(e);
                },
            };
            let ghost before = files_view(sorted@);
            let mut p: usize = 0;
            while p < sorted.len() && text_before(sorted[p].path.as_str(), text.as_str())
                invariant
                    before == files_view(sorted@),
                    p <= before.len(),
                    forall|j: int| 0 <= j < p ==> text_lt(#[trigger] before[j].0, text@),
                decreases sorted@.len() - p,
            {
                p = p + 1;
            }
            proof {
                lemma_text_lt_irreflexive(text@);
                assert(has_key(before, text@) <==> has_key(given.take(i), text@)) by {
                    assert(entries_map(before).dom().contains(text@) <==> has_key(before, text@));
                    assert(entries_map(given.take(i)).dom().contains(text@) <==> has_key(
                        given.take(i),
                        text@,
                    ));
                }
                if p < before.len() && before[p as int].0 != text@ {
                    lemma_text_lt_total(before[p as int].0, text@);
                    assert forall|j: int| p <= j < before.len() implies text_lt(
                        text@,
                        #[trigger] before[j].0,
                    ) by {
                        if j > p {
                            lemma_text_lt_transitive(text@, before[p as int].0, before[j].0);
                        }
                    }
                }
            }
            if p < sorted.len() && same_text(sorted[p].path.as_str(), text.as_str()) {
                proof {
                    assert(has_key(before, text@));
                }
                return Err(
                    ProviderError::InvalidPath(
                        joined("duplicate application bundle path: ", text.as_str()),
                    ),
                );
            }
            proof {
                assert(!has_key(before, text@));
            }
            let entry: ApplicationBundleFile = ApplicationBundleFile { path, content };
            let ghost k = text@;
            let ghost v = content@;
            sorted.insert(p, entry);
            proof {
                assert(files_view(sorted@) =~= before.insert(p as int, (k, v)));
                lemma_put(before, p as int, k, v, files_view(sorted@));
                lemma_push_entry(given.take(i), k, v);
                assert(given.take(i).push(given[i]) =~= given.take(i + 1));
            }
        }
        proof {
            assert(given.take(given.len() as int) =~= given);
            lemma_ascending_entries(files_view(sorted@));
            law_bundle_holds_given_files(given);
        }
        let fingerprint: String = bundle_fingerprint(&sorted);
        Ok(ApplicationBundle { files: sorted, fingerprint })
    }

    /// The files in ascending path order.
    pub fn files(&self) -> (r: &[ApplicationBundleFile])
        ensures
            files_view(r@) == self@.files,
            keys_ascend(self@.files),
    {
        proof {
            use_type_invariant(self);
        }
        self.files.as_slice()
    }

    /// The fingerprint of the files.
    pub fn fingerprint(&self) -> (r: &str)
        ensures
            r@ == self@.fingerprint,
            r@ == bundle_fingerprint_text(self@.files),
            is_sha256_text(r@),
    {
        proof {
            use_type_invariant(self);
        }
        self.fingerprint.as_str()
    }
}

// ---------------------------------------------------------------------------
// Directories
// ---------------------------------------------------------------------------
/// What an entry below a bundle directory is, once directories are walked.
#[derive(Debug, PartialEq, Eq)]
pub enum BundleEntryKind {
    File(Vec<u8>),
    SymbolicLink,
    /// Neither a regular file nor a symbolic link.
    Other,
}

/// One entry below a bundle directory.
#[derive(Debug, PartialEq, Eq)]
pub struct BundleEntry {
    /// The path of the entry, as it is shown.
    pub location: String,
    /// The path below the directory, with the separators of the platform.
    pub relative: String,
    pub kind: BundleEntryKind,
}

/// What is wrong with an entry of a bundle directory.
pub open spec fn entry_error(entry: BundleEntry) -> Option<ProviderErrorText> {
    match entry.kind {
        BundleEntryKind::File(_) => None,
        BundleEntryKind::SymbolicLink => Some(
            ProviderErrorText::InvalidPath(
                "symbolic links are not allowed in application bundles: "@ + entry.location@,
            ),
        ),
        BundleEntryKind::Other => Some(
            ProviderErrorText::InvalidPath(
                "application bundle entry is not a file: "@ + entry.location@,
            ),
        ),
    }
}

/// What is wrong with the first unusable entry.
pub open spec fn entries_error(entries: Seq<BundleEntry>) -> Option<ProviderErrorText>
    decreases entries.len(),
{
    if entries.len() == 0 {
        None
    } else {
        match entries_error(entries.drop_last()) {
            Some(e) => Some(e),
            None => entry_error(entries.last()),
        }
    }
}

/// The file of an entry: its path with slashes, and its content.
pub open spec fn entry_file(entry: BundleEntry) -> (Seq<char>, Seq<u8>) {
    (
        forward_slashed(entry.relative@),
        match entry.kind {
            BundleEntryKind::File(content) => content@,
            _ => Seq::empty(),
        },
    )
}

/// The files of the entries.
pub open spec fn entry_files(entries: Seq<BundleEntry>) -> Seq<(Seq<char>, Seq<u8>)> {
    entries.map_values(|entry: BundleEntry| entry_file(entry))
}

proof fn lemma_first_entry_error(entries: Seq<BundleEntry>, n: int)
    requires
        0 <= n <= entries.len(),
        entries_error(entries.take(n)) is Some,
    ensures
        entries_error(entries) == entries_error(entries.take(n)),
    decreases entries.len(),
{
    if n == entries.len() {
        assert(entries.take(n) =~= entries);
    } else {
        assert(entries.drop_last().take(n) =~= entries.take(n));
        lemma_first_entry_error(entries.drop_last(), n);
    }
}

impl ApplicationBundle {
    /// The bundle of all files below a directory, given what a walk of it
    /// found; none where it is no directory. Symbolic links and special files
    /// are refused.
    pub fn from_directory(found: Option<Vec<BundleEntry>>) -> (r: Result<
        ApplicationBundle,
        ProviderError,
    >)
        ensures
            match found {
                None => r matches Err(e) && e@ == ProviderErrorText::NotFound,
                Some(entries) => match entries_error(entries@) {
                    Some(e) => r matches Err(f) && f@ == e,
                    None => match (given_files_error(entry_files(entries@), 0), r) {
                        (Some(e), Err(f)) => f@ == e,
                        (None, Ok(bundle)) => bundle@ == bundle_of(entry_files(entries@))
                            && keys_ascend(bundle@.files) && bundle@.files.to_multiset()
                            == entry_files(entries@).to_multiset() && is_sha256_text(
                            bundle@.fingerprint,
                        ),
                        _ => false,
                    },
                },
            },
    {
        let entries: Vec<BundleEntry> = match found {
            Some(entries) => entries,
            None => {
                return Err(ProviderError::NotFound);
            },
        };
        let ghost all = entries@;
        let mut files: Vec<(String, Vec<u8>)> = Vec::new();
        proof {
            assert(all.take(0) =~= Seq::<BundleEntry>::empty());
            assert(given_files(files@) =~= entry_files(all.take(0)));
        }
        for entry in it: entries
            invariant
                found is Some,
                found->0@ == all,
                all == it.seq(),
                entries_error(all.take(it.index() as int)) is None,
                given_files(files@) == entry_files(all.take(it.index() as int)),
        {
            let ghost i = it.index() as int;
            let ghost before = files@;
            proof {
                assert(all.take(i + 1).drop_last() =~= all.take(i));
                assert(all.take(i + 1).last() == entry);
                if entry_error(entry) is Some {
                    lemma_first_entry_error(all, i + 1);
                }
            }
            let BundleEntry { location, relative, kind } = entry;
            match kind {
                BundleEntryKind::SymbolicLink => {
                    return Err(
                        ProviderError::InvalidPath(
                            joined(
                                "symbolic links are not allowed in application bundles: ",
                                location.as_str(),
                            ),
                        ),
                    );
                },
                BundleEntryKind::Other => {
                    return Err(
                        ProviderError::InvalidPath(
                            joined(
                                "application bundle entry is not a file: ",
                                location.as_str(),
                            ),
                        ),
                    );
                },
                BundleEntryKind::File(content) => {
                    files.push((with_forward_slashes(relative.as_str()), content));
                    proof {
                        assert(given_files(files@) =~= given_files(before).push(entry_file(all[i])));
                        assert(entry_files(all.take(i + 1)) =~= entry_files(all.take(i)).push(
                            entry_file(all[i]),
                        ));
                    }
                },
            }
        }
        proof {
            assert(all.take(all.len() as int) =~= all);
        }
        ApplicationBundle::from_files(files)
    }
}

/// The content of the first of a list of files at a path.
pub open spec fn content_at(files: Seq<(Seq<char>, Seq<u8>)>, path: Seq<char>) -> Option<Seq<u8>> {
    if has_key(files, path) {
        Some(entries_map(files)[path])
    } else {
        None
    }
}

/// The bytes of the bundle's file at a path.
pub fn bundle_content<'a>(bundle: &'a ApplicationBundle, path: &RepositoryPath) -> (r: Option<
    &'a [u8],
>)
    ensures
        match r {
            Some(bytes) => content_at(bundle@.files, path@) == Some(bytes@),
            None => content_at(bundle@.files, path@) is None,
        },
{
    let files: &[ApplicationBundleFile] = bundle.files();
    let ghost all = bundle@.files;
    let mut i: usize = 0;
    while i < files.len()
        invariant
            i <= files@.len(),
            all == files_view(files@),
            all == bundle@.files,
            keys_ascend(all),
            forall|j: int| 0 <= j < i ==> #[trigger] all[j].0 != path@,
        decreases files@.len() - i,
    {
        if same_text(files[i].path().as_str(), path.as_str()) {
            proof {
                assert(all[i as int] == files@[i as int]@);
                lemma_key_position(all, i as int);
            }
            return Some(files[i].content());
        }
        proof {
            assert(all[i as int] == files@[i as int]@);
        }
        i = i + 1;
    }
    None
}

// ---------------------------------------------------------------------------
// Laws
// ---------------------------------------------------------------------------
/// A list of files is accepted exactly when it has a file, its paths are portable
/// and none is given twice.
pub proof fn law_files_are_accepted_iff(given: Seq<(Seq<char>, Seq<u8>)>)
    ensures
        given_files_error(given, 0) is None <==> given.len() > 0 && keys_distinct(given) && (
        forall|i: int| 0 <= i < given.len() ==> is_portable_path(#[trigger] given[i].0)),
{
    if given.len() > 0 {
        lemma_accepted_from(given, 0);
    }
    if given_files_error(given, 0) is None {
        assert forall|i: int, j: int| 0 <= i < j < given.len() implies #[trigger] given[i].0
            != #[trigger] given[j].0 by {
            assert(given_file_error(given, j) is None);
            if given[i].0 == given[j].0 {
                assert(given.take(j)[i] == given[i]);
                assert(has_key(given.take(j), given[j].0));
            }
        }
        assert forall|i: int| 0 <= i < given.len() implies is_portable_path(
            #[trigger] given[i].0,
        ) by {
            assert(given_file_error(given, i) is None);
        }
    }
    if given.len() > 0 && keys_distinct(given) && (forall|i: int|
        0 <= i < given.len() ==> is_portable_path(#[trigger] given[i].0)) {
        assert forall|i: int| 0 <= i < given.len() implies #[trigger] given_file_error(
            given,
            i,
        ) is None by {
            assert(is_portable_path(given[i].0));
            if has_key(given.take(i), given[i].0) {
                let j = key_position(given.take(i), given[i].0);
                assert(given.take(i)[j] == given[j]);
                assert(given[j].0 != given[i].0);
            }
        }
    }
}

proof fn lemma_accepted_from(given: Seq<(Seq<char>, Seq<u8>)>, i: int)
    requires
        0 <= i,
        given.len() > 0,
    ensures
        given_files_error(given, i) is None <==> (forall|j: int|
            i <= j < given.len() ==> #[trigger] given_file_error(given, j) is None),
    decreases given.len() - i,
{
    if i < given.len() {
        lemma_accepted_from(given, i + 1);
    }
}

proof fn lemma_same_bag_same_map(a: Seq<(Seq<char>, Seq<u8>)>, b: Seq<(Seq<char>, Seq<u8>)>)
    requires
        keys_distinct(a),
        a.to_multiset() == b.to_multiset(),
    ensures
        keys_distinct(b),
        forall|x: (Seq<char>, Seq<u8>)| a.contains(x) <==> b.contains(x),
        entries_map(a) == entries_map(b),
{
    broadcast use to_multiset_contains;

    assert forall|x: (Seq<char>, Seq<u8>)| a.contains(x) <==> b.contains(x) by {
        assert(a.to_multiset().count(x) == b.to_multiset().count(x));
    }
    assert(a.no_duplicates()) by {
        assert forall|i: int, j: int| 0 <= i < a.len() && 0 <= j < a.len() && i != j implies a[i]
            != a[j] by {
            if i < j {
                assert(a[i].0 != a[j].0);
            } else {
                assert(a[j].0 != a[i].0);
            }
        }
    }
    a.lemma_multiset_has_no_duplicates();
    b.lemma_multiset_has_no_duplicates_conv();
    assert forall|i: int, j: int| 0 <= i < j < b.len() implies #[trigger] b[i].0
        != #[trigger] b[j].0 by {
        assert(b[i] != b[j]);
        assert(a.contains(b[i]) && a.contains(b[j]));
        let p = choose|p: int| 0 <= p < a.len() && a[p] == b[i];
        let q = choose|q: int| 0 <= q < a.len() && a[q] == b[j];
        if p < q {
            assert(a[p].0 != a[q].0);
        } else {
            assert(q < p);
            assert(a[q].0 != a[p].0);
        }
    }
    assert forall|k: Seq<char>| #[trigger] has_key(a, k) == has_key(b, k) && (has_key(a, k)
        ==> entries_map(a)[k] == entries_map(b)[k]) by {
        if has_key(a, k) {
            let p = key_position(a, k);
            assert(b.contains(a[p]));
            let q = choose|q: int| 0 <= q < b.len() && b[q] == a[p];
            assert(b[q].0 == k);
            let r = key_position(b, k);
            if r < q {
                assert(b[r].0 != b[q].0);
            } else if q < r {
                assert(b[q].0 != b[r].0);
            }
        }
        if has_key(b, k) {
            let q = key_position(b, k);
            assert(a.contains(b[q]));
            let p = choose|p: int| 0 <= p < a.len() && a[p] == b[q];
            assert(a[p].0 == k);
        }
    }
    assert(entries_map(a) =~= entries_map(b));
}

/// The order in which the files are given does not matter: a reordering of an
/// accepted list is accepted, and makes the same bundle with the same
/// fingerprint.
pub proof fn law_bundle_order_independent(
    a: Seq<(Seq<char>, Seq<u8>)>,
    b: Seq<(Seq<char>, Seq<u8>)>,
)
    requires
        given_files_error(a, 0) is None,
        a.to_multiset() == b.to_multiset(),
    ensures
        given_files_error(b, 0) is None,
        bundle_of(a) == bundle_of(b),
{
    law_files_are_accepted_iff(a);
    law_files_are_accepted_iff(b);
    lemma_same_bag_same_map(a, b);
    to_multiset_len(a);
    to_multiset_len(b);
    assert forall|i: int| 0 <= i < b.len() implies is_portable_path(#[trigger] b[i].0) by {
        assert(a.contains(b[i]));
        let p = choose|p: int| 0 <= p < a.len() && a[p] == b[i];
        assert(is_portable_path(a[p].0));
    }
}

proof fn lemma_sorted_bag(given: Seq<(Seq<char>, Seq<u8>)>)
    requires
        keys_distinct(given),
    ensures
        keys_ascend(ascending_entries(entries_map(given))),
        entries_map(ascending_entries(entries_map(given))) == entries_map(given),
        ascending_entries(entries_map(given)).to_multiset() == given.to_multiset(),
    decreases given.len(),
{
    if given.len() == 0 {
        assert(given =~= Seq::empty());
        lemma_empty_listed::<Seq<u8>>();
        assert(entries_map(given) =~= Map::<Seq<char>, Seq<u8>>::empty());
    } else {
        let rest = given.drop_last();
        let (k, v) = given.last();
        assert(keys_distinct(rest));
        lemma_sorted_bag(rest);
        assert(rest.push((k, v)) =~= given);
        assert(!has_key(rest, k)) by {
            if has_key(rest, k) {
                let i = key_position(rest, k);
                assert(given[i].0 != given[given.len() - 1].0);
            }
        }
        lemma_push_entry(rest, k, v);
        let sorted = ascending_entries(entries_map(rest));
        let p = lemma_position(sorted, k);
        assert(!has_key(sorted, k)) by {
            assert(entries_map(sorted).dom().contains(k) <==> has_key(sorted, k));
            assert(entries_map(rest).dom().contains(k) <==> has_key(rest, k));
        }
        let all = sorted.insert(p, (k, v));
        lemma_put(sorted, p, k, v, all);
        lemma_ascending_entries(all);
        to_multiset_insert(sorted, p, (k, v));
        to_multiset_build(rest, (k, v));
    }
}

/// The files of a bundle are the given files, each once, in ascending path order.
pub proof fn law_bundle_holds_given_files(given: Seq<(Seq<char>, Seq<u8>)>)
    requires
        given_files_error(given, 0) is None,
    ensures
        keys_ascend(bundle_of(given).files),
        bundle_of(given).files.to_multiset() == given.to_multiset(),
{
    law_files_are_accepted_iff(given);
    lemma_sorted_bag(given);
}

proof fn lemma_byte_step(n: int, m: int, c: int)
    requires
        n >= 0,
        m >= 0,
        c > 0,
        n / (c * 256) == m / (c * 256),
        (n / c) % 256 == (m / c) % 256,
    ensures
        n / c == m / c,
{
    lemma_div_denominator(n, c, 256);
    lemma_div_denominator(m, c, 256);
}

proof fn lemma_be_bytes_injective(n: u64, m: u64)
    requires
        be_bytes(n) == be_bytes(m),
    ensures
        n == m,
{
    let a = be_bytes(n);
    let b = be_bytes(m);
    let (x, y) = (n as int, m as int);
    assert(a[0] == b[0] && a[1] == b[1] && a[2] == b[2] && a[3] == b[3]);
    assert(a[4] == b[4] && a[5] == b[5] && a[6] == b[6] && a[7] == b[7]);
    assert(x / 0x100_0000_0000_0000 == y / 0x100_0000_0000_0000);
    lemma_byte_step(x, y, 0x1_0000_0000_0000);
    lemma_byte_step(x, y, 0x100_0000_0000);
    lemma_byte_step(x, y, 0x1_0000_0000);
    lemma_byte_step(x, y, 0x100_0000);
    lemma_byte_step(x, y, 0x1_0000);
    lemma_byte_step(x, y, 0x100);
    lemma_byte_step(x, y, 1);
}

proof fn lemma_same_parts(a: Seq<u8>, b: Seq<u8>, c: Seq<u8>, d: Seq<u8>)
    requires
        a + b == c + d,
        a.len() == c.len(),
    ensures
        a == c,
        b == d,
{
    assert((a + b).take(a.len() as int) =~= a);
    assert((c + d).take(c.len() as int) =~= c);
    assert((a + b).skip(a.len() as int) =~= b);
    assert((c + d).skip(c.len() as int) =~= d);
}

proof fn lemma_sum_of_three(a: Seq<u8>, b: Seq<u8>, c: Seq<u8>)
    ensures
        (a + b) + c == a + (b + c),
{
    assert((a + b) + c =~= a + (b + c));
}

proof fn lemma_files_from_first(files: Seq<(Seq<char>, Seq<u8>)>)
    requires
        files.len() > 0,
    ensures
        files_bytes(files) == file_bytes(files[0]) + files_bytes(files.drop_first()),
    decreases files.len(),
{
    let first = file_bytes(files[0]);
    if files.len() == 1 {
        assert(files.drop_last() =~= Seq::empty());
        assert(files.drop_first() =~= Seq::empty());
        assert(Seq::<u8>::empty() + first =~= first);
        assert(first + Seq::<u8>::empty() =~= first);
    } else {
        let rest = files.drop_first();
        let middle = files_bytes(rest.drop_last());
        let last = file_bytes(files.last());
        lemma_files_from_first(files.drop_last());
        assert(files.drop_last().drop_first() =~= rest.drop_last());
        assert(files.drop_last()[0] == files[0]);
        assert(rest.last() == files.last());
        assert(files_bytes(files) == (first + middle) + last);
        assert(files_bytes(rest) == middle + last);
        lemma_sum_of_three(first, middle, last);
    }
}

/// Whether the lengths of a file fit the fingerprint.
pub open spec fn file_fits(file: (Seq<char>, Seq<u8>)) -> bool {
    encode_utf8(file.0).len() <= u64::MAX && file.1.len() <= u64::MAX
}

proof fn lemma_nested(l: Seq<u8>, p: Seq<u8>, c: Seq<u8>, x: Seq<u8>, r: Seq<u8>)
    ensures
        l + p + c + x + r == l + (p + (c + (x + r))),
{
    lemma_sum_of_three(l + p + c, x, r);
    lemma_sum_of_three(l + p, c, x + r);
    lemma_sum_of_three(l, p, c + (x + r));
}

proof fn lemma_same_length(n: u64, m: u64, a: Seq<u8>, b: Seq<u8>)
    requires
        be_bytes(n) + a == be_bytes(m) + b,
    ensures
        n == m,
        a == b,
{
    lemma_same_parts(be_bytes(n), a, be_bytes(m), b);
    lemma_be_bytes_injective(n, m);
}

proof fn lemma_first_file(
    a: (Seq<char>, Seq<u8>),
    b: (Seq<char>, Seq<u8>),
    rest_a: Seq<u8>,
    rest_b: Seq<u8>,
)
    requires
        file_fits(a),
        file_fits(b),
        file_bytes(a) + rest_a == file_bytes(b) + rest_b,
    ensures
        a == b,
        rest_a == rest_b,
{
    let (pa, pb) = (encode_utf8(a.0), encode_utf8(b.0));
    let (la, lb) = (pa.len() as u64, pb.len() as u64);
    let (ca, cb) = (a.1.len() as u64, b.1.len() as u64);
    lemma_nested(be_bytes(la), pa, be_bytes(ca), a.1, rest_a);
    lemma_nested(be_bytes(lb), pb, be_bytes(cb), b.1, rest_b);
    lemma_same_length(
        la,
        lb,
        pa + (be_bytes(ca) + (a.1 + rest_a)),
        pb + (be_bytes(cb) + (b.1 + rest_b)),
    );
    lemma_same_parts(pa, be_bytes(ca) + (a.1 + rest_a), pb, be_bytes(cb) + (b.1 + rest_b));
    lemma_same_length(ca, cb, a.1 + rest_a, b.1 + rest_b);
    lemma_same_parts(a.1, rest_a, b.1, rest_b);
    encode_utf8_decode_utf8(a.0);
    encode_utf8_decode_utf8(b.0);
}

/// The fingerprint covers every path and every content: what is hashed for two
/// different lists of files is different.
pub proof fn law_fingerprint_covers_files(
    a: Seq<(Seq<char>, Seq<u8>)>,
    b: Seq<(Seq<char>, Seq<u8>)>,
)
    requires
        forall|i: int| 0 <= i < a.len() ==> file_fits(#[trigger] a[i]),
        forall|i: int| 0 <= i < b.len() ==> file_fits(#[trigger] b[i]),
        fingerprinted(a) == fingerprinted(b),
    ensures
        a == b,
    decreases a.len(),
{
    lemma_same_parts(bundle_domain(), files_bytes(a), bundle_domain(), files_bytes(b));
    if a.len() > 0 {
        lemma_files_from_first(a);
    }
    if b.len() > 0 {
        lemma_files_from_first(b);
    }
    if a.len() > 0 && b.len() > 0 {
        assert(file_fits(a[0]) && file_fits(b[0]));
        lemma_first_file(a[0], b[0], files_bytes(a.drop_first()), files_bytes(b.drop_first()));
        assert forall|i: int| 0 <= i < a.drop_first().len() implies file_fits(
            #[trigger] a.drop_first()[i],
        ) by {
            assert(a.drop_first()[i] == a[i + 1]);
        }
        assert forall|i: int| 0 <= i < b.drop_first().len() implies file_fits(
            #[trigger] b.drop_first()[i],
        ) by {
            assert(b.drop_first()[i] == b[i + 1]);
        }
        law_fingerprint_covers_files(a.drop_first(), b.drop_first());
        assert(a =~= seq![a[0]] + a.drop_first());
        assert(b =~= seq![b[0]] + b.drop_first());
    } else {
        assert(files_bytes(a).len() == files_bytes(b).len());
        assert(a =~= b);
    }
}

/// A changed, added or missing path or content changes the fingerprint, unless
/// what is hashed for the two bundles collides.
pub proof fn law_changed_files_change_the_fingerprint(
    a: Seq<(Seq<char>, Seq<u8>)>,
    b: Seq<(Seq<char>, Seq<u8>)>,
)
    requires
        given_files_error(a, 0) is None,
        given_files_error(b, 0) is None,
        forall|i: int| 0 <= i < a.len() ==> file_fits(#[trigger] a[i]),
        forall|i: int| 0 <= i < b.len() ==> file_fits(#[trigger] b[i]),
        a.to_multiset() != b.to_multiset(),
    ensures
        bundle_of(a).fingerprint != bundle_of(b).fingerprint || collide(
            fingerprinted(bundle_of(a).files),
            fingerprinted(bundle_of(b).files),
        ),
{
    law_bundle_holds_given_files(a);
    law_bundle_holds_given_files(b);
    lemma_all_fit(a, bundle_of(a).files);
    lemma_all_fit(b, bundle_of(b).files);
    if fingerprinted(bundle_of(a).files) == fingerprinted(bundle_of(b).files) {
        law_fingerprint_covers_files(bundle_of(a).files, bundle_of(b).files);
    }
}

proof fn lemma_all_fit(a: Seq<(Seq<char>, Seq<u8>)>, b: Seq<(Seq<char>, Seq<u8>)>)
    requires
        a.to_multiset() == b.to_multiset(),
        forall|i: int| 0 <= i < a.len() ==> file_fits(#[trigger] a[i]),
    ensures
        forall|i: int| 0 <= i < b.len() ==> file_fits(#[trigger] b[i]),
{
    broadcast use to_multiset_contains;

    assert forall|i: int| 0 <= i < b.len() implies file_fits(#[trigger] b[i]) by {
        assert(b.contains(b[i]));
        assert(a.to_multiset().count(b[i]) > 0);
        assert(a.contains(b[i]));
        let p = choose|p: int| 0 <= p < a.len() && a[p] == b[i];
        assert(file_fits(a[p]));
    }
}

} // verus!
