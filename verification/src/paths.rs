//! Portable relative paths: storage keys, repository paths and publication paths.

use crate::inventory::Duplicate;
use crate::provider::{ProviderError, ProviderErrorText};
use crate::text::{chars_of, contains_dot_dot, has_dot_dot, has_prefix, starts_with};
use vstd::prelude::*;

verus! {

/// Whether `s[i..j]` is one of the parts of `s` between slashes.
pub open spec fn is_component(s: Seq<char>, i: int, j: int) -> bool {
    &&& 0 <= i <= j <= s.len()
    &&& i == 0 || s[i - 1] == '/'
    &&& j == s.len() || s[j] == '/'
    &&& forall|k: int| i <= k < j ==> s[k] != '/'
}

/// A component that names a file or directory on every platform: not empty, not
/// a dot or double dot, without backslash or colon.
pub open spec fn is_plain_component(c: Seq<char>) -> bool {
    &&& c.len() > 0
    &&& c != seq!['.']
    &&& c != seq!['.', '.']
    &&& !c.contains('\\')
    &&& !c.contains(':')
}

/// A relative path with `/` as the only separator and only plain components.
pub open spec fn is_portable_path(s: Seq<char>) -> bool {
    forall|i: int, j: int| #[trigger]
        is_component(s, i, j) ==> is_plain_component(s.subrange(i, j))
}

/// A portable path under `photos/` without two full stops in a row.
pub open spec fn is_publication_path(s: Seq<char>) -> bool {
    is_portable_path(s) && !has_dot_dot(s) && has_prefix(s, "photos/"@)
}

fn plain_component(chars: &Vec<char>, from: usize, to: usize) -> (r: bool)
    requires
        from <= to <= chars@.len(),
    ensures
        r == is_plain_component(chars@.subrange(from as int, to as int)),
{
    let ghost c = chars@.subrange(from as int, to as int);
    if from == to {
        return false;
    }
    if to - from == 1 && chars[from] == '.' {
        proof {
            assert(c =~= seq!['.']);
        }
        return false;
    }
    if to - from == 2 && chars[from] == '.' && chars[from + 1] == '.' {
        proof {
            assert(c =~= seq!['.', '.']);
        }
        return false;
    }
    let mut i: usize = from;
    while i < to
        invariant
            from <= i <= to <= chars@.len(),
            c == chars@.subrange(from as int, to as int),
            forall|k: int| from <= k < i ==> chars@[k] != '\\' && chars@[k] != ':',
        decreases to - i,
    {
        if chars[i] == '\\' || chars[i] == ':' {
            proof {
                assert(c[i - from] == chars@[i as int]);
            }
            return false;
        }
        i = i + 1;
    }
    proof {
        assert(c[0] == chars@[from as int]);
        if c.len() > 1 {
            assert(c[1] == chars@[from + 1]);
        }
        assert(!c.contains('\\')) by {
            if c.contains('\\') {
                let k = choose|k: int| 0 <= k < c.len() && c[k] == '\\';
                assert(chars@[from + k] == '\\');
            }
        }
        assert(!c.contains(':')) by {
            if c.contains(':') {
                let k = choose|k: int| 0 <= k < c.len() && c[k] == ':';
                assert(chars@[from + k] == ':');
            }
        }
    }
    true
}

/// Whether the text is a portable path.
pub fn portable_path(s: &str) -> (r: bool)
    ensures
        r == is_portable_path(s@),
{
    let chars: Vec<char> = chars_of(s);
    let mut start: usize = 0;
    let mut i: usize = 0;
    while i < chars.len()
        invariant
            start <= i <= chars@.len(),
            chars@ == s@,
            start == 0 || s@[start - 1] == '/',
            forall|k: int| start <= k < i ==> s@[k] != '/',
            forall|a: int, b: int| #[trigger]
                is_component(s@, a, b) && b < start ==> is_plain_component(s@.subrange(a, b)),
        decreases chars@.len() - i,
    {
        if chars[i] == '/' {
            proof {
                assert(is_component(s@, start as int, i as int));
            }
            if !plain_component(&chars, start, i) {
                return false;
            }
            proof {
                assert forall|a: int, b: int| #[trigger]
                    is_component(s@, a, b) && b < i + 1 implies is_plain_component(
                    s@.subrange(a, b),
                ) by {
                    if b >= start {
                        lemma_component_bounds(s@, start as int, i as int, a, b);
                    }
                }
            }
            start = i + 1;
        }
        i = i + 1;
    }
    let last: bool = plain_component(&chars, start, chars.len());
    proof {
        assert(is_component(s@, start as int, s@.len() as int));
        if last {
            assert forall|a: int, b: int| #[trigger]
                is_component(s@, a, b) implies is_plain_component(s@.subrange(a, b)) by {
                if b >= start {
                    lemma_component_bounds(s@, start as int, s@.len() as int, a, b);
                }
            }
        }
    }
    last
}

/// Two components that end at or after the start of the first are the same.
proof fn lemma_component_bounds(s: Seq<char>, i: int, j: int, a: int, b: int)
    requires
        is_component(s, i, j),
        is_component(s, a, b),
        i <= b <= j,
    ensures
        a == i,
        b == j,
{
    if b < j {
        assert(s[b] == '/');
    }
    if a < i {
        assert(s[i - 1] == '/');
    }
    if a > i {
        assert(s[a - 1] == '/');
    }
}

/// The key of an object in storage.
#[derive(Debug, PartialEq, Eq, Hash)]
pub struct ObjectKey(String);

impl View for ObjectKey {
    type V = Seq<char>;

    closed spec fn view(&self) -> Seq<char> {
        self.0@
    }
}

impl ObjectKey {
    #[verifier::type_invariant]
    spec fn valid(self) -> bool {
        is_portable_path(self@)
    }

    /// The key with this text, where it is a portable path.
    pub fn new(value: &str) -> (r: Result<ObjectKey, ProviderError>)
        ensures
            match r {
                Ok(key) => is_portable_path(value@) && key@ == value@,
                Err(e) => !is_portable_path(value@) && e@ == ProviderErrorText::InvalidKey(value@),
            },
    {
        if portable_path(value) {
            Ok(ObjectKey(value.to_owned()))
        } else {
            Err(ProviderError::InvalidKey(value.to_owned()))
        }
    }

    /// The text of the key.
    pub fn as_str(&self) -> (r: &str)
        ensures
            r@ == self@,
            is_portable_path(r@),
    {
        proof {
            use_type_invariant(self);
        }
        self.0.as_str()
    }
}

impl Duplicate for ObjectKey {
    fn duplicate(&self) -> (r: Self) {
        proof {
            use_type_invariant(self);
        }
        ObjectKey(self.0.clone())
    }
}

/// The path of a file in the repository.
#[derive(Debug, PartialEq, Eq, Hash)]
pub struct RepositoryPath(String);

impl View for RepositoryPath {
    type V = Seq<char>;

    closed spec fn view(&self) -> Seq<char> {
        self.0@
    }
}

impl RepositoryPath {
    #[verifier::type_invariant]
    spec fn valid(self) -> bool {
        is_portable_path(self@)
    }

    /// The path with this text, where it is a portable path.
    pub fn new(value: &str) -> (r: Result<RepositoryPath, ProviderError>)
        ensures
            match r {
                Ok(path) => is_portable_path(value@) && path@ == value@,
                Err(e) => !is_portable_path(value@) && e@ == ProviderErrorText::InvalidPath(value@),
            },
    {
        if portable_path(value) {
            Ok(RepositoryPath(value.to_owned()))
        } else {
            Err(ProviderError::InvalidPath(value.to_owned()))
        }
    }

    /// The text of the path.
    pub fn as_str(&self) -> (r: &str)
        ensures
            r@ == self@,
            is_portable_path(r@),
    {
        proof {
            use_type_invariant(self);
        }
        self.0.as_str()
    }
}

impl Duplicate for RepositoryPath {
    fn duplicate(&self) -> (r: Self) {
        proof {
            use_type_invariant(self);
        }
        RepositoryPath(self.0.clone())
    }
}

/// Why a text is no publication path.
#[derive(Debug, Clone, Copy, PartialEq, Eq, Structural)]
pub enum PublicationPathError {
    /// It is not a portable path.
    NotPortable,
    /// It holds two full stops in a row.
    DotDot,
    /// It is not under `photos/`.
    OutsidePhotos,
}

/// A publication-relative asset path using `/` as the only separator.
///
/// The path is always relative to the publication root and lives under
/// `photos/`. Absolute paths, drive letters, URLs, backslashes, two full stops
/// in a row and empty or dot components are rejected, so the same value is
/// portable between platforms.
#[derive(Debug, PartialEq, Eq, Hash)]
pub struct PublicationPath(String);

impl View for PublicationPath {
    type V = Seq<char>;

    closed spec fn view(&self) -> Seq<char> {
        self.0@
    }
}

impl PublicationPath {
    #[verifier::type_invariant]
    spec fn valid(self) -> bool {
        is_publication_path(self@)
    }

    /// The publication path with this text.
    pub fn new(value: &str) -> (r: Result<PublicationPath, PublicationPathError>)
        ensures
            match r {
                Ok(path) => is_publication_path(value@) && path@ == value@,
                Err(PublicationPathError::NotPortable) => !is_portable_path(value@),
                Err(PublicationPathError::DotDot) => is_portable_path(value@) && has_dot_dot(
                    value@,
                ),
                Err(PublicationPathError::OutsidePhotos) => is_portable_path(value@)
                    && !has_dot_dot(value@) && !has_prefix(value@, "photos/"@),
            },
    {
        if !portable_path(value) {
            return Err(PublicationPathError::NotPortable);
        }
        if contains_dot_dot(value) {
            return Err(PublicationPathError::DotDot);
        }
        if !starts_with(value, "photos/") {
            return Err(PublicationPathError::OutsidePhotos);
        }
        Ok(PublicationPath(value.to_owned()))
    }

    /// The text of the path.
    pub fn as_str(&self) -> (r: &str)
        ensures
            r@ == self@,
            is_publication_path(r@),
    {
        proof {
            use_type_invariant(self);
        }
        self.0.as_str()
    }
}

impl Duplicate for PublicationPath {
    fn duplicate(&self) -> (r: Self) {
        proof {
            use_type_invariant(self);
        }
        PublicationPath(self.0.clone())
    }
}

} // verus!
