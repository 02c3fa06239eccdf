//! Which addresses can be published under, and which paths are portable.

use crate::laws::texts::law_prefix_is_the_start;
use crate::paths::{is_component, is_plain_component, is_portable_path, is_publication_path};
use crate::public_url::{
    local_domain, private_ipv4, private_ipv6, public_url_error, url_parts, PublicUrlError,
    UrlHostView,
};
use crate::text::{ascii_lower, ascii_lowercase, has_dot_dot, has_suffix};
use vstd::prelude::*;

verus! {

/// An address as one number.
pub open spec fn ipv4_number(a: Seq<u8>) -> int {
    a[0] * 0x100_0000 + a[1] * 0x1_0000 + a[2] * 0x100 + a[3]
}

/// The addresses that cannot be reached from everywhere are those of this network,
/// the three private blocks, the shared block, the loopback block and the link-local
/// block, and no others.
pub proof fn law_private_ipv4_blocks(a: Seq<u8>)
    requires
        a.len() == 4,
    ensures
        private_ipv4(a) <==> {
            let n = ipv4_number(a);
            ||| 0x0000_0000 <= n <= 0x00ff_ffff
            ||| 0x0a00_0000 <= n <= 0x0aff_ffff
            ||| 0x6440_0000 <= n <= 0x647f_ffff
            ||| 0x7f00_0000 <= n <= 0x7fff_ffff
            ||| 0xa9fe_0000 <= n <= 0xa9fe_ffff
            ||| 0xac10_0000 <= n <= 0xac1f_ffff
            ||| 0xc0a8_0000 <= n <= 0xc0a8_ffff
        },
{
}

/// The addresses that cannot be reached from everywhere are the first two, those
/// whose first seven bits are those of a unique local address, and those whose first
/// ten bits are those of a link-local one.
pub proof fn law_private_ipv6_blocks(a: Seq<u16>)
    requires
        a.len() == 8,
    ensures
        private_ipv6(a) <==> {
            ||| a[0] as int / 0x200 == 0x7e
            ||| a[0] as int / 0x40 == 0x3fa
            ||| a[7] <= 1 && forall|i: int| 0 <= i < 7 ==> #[trigger] a[i] == 0
        },
{
    if private_ipv6(a) && a[0] == 0 {
        assert(a[7] <= 1);
    }
    if a[7] <= 1 && forall|i: int| 0 <= i < 7 ==> #[trigger] a[i] == 0 {
        if a[7] == 0 {
            assert(a =~= seq![0u16, 0, 0, 0, 0, 0, 0, 0]);
        } else {
            assert(a =~= seq![0u16, 0, 0, 0, 0, 0, 0, 1]);
        }
    }
}

/// Whether a character is another, or its capital where that one is a small letter
/// of ASCII.
pub open spec fn spells(c: char, small: char) -> bool {
    c == small || ('a' <= small && small <= 'z' && (c as u32) + 32 == small as u32)
}

/// Whether a name ends in an ending, in capitals or not.
pub open spec fn ends_in(name: Seq<char>, ending: Seq<char>) -> bool {
    name.len() >= ending.len() && forall|i: int|
        0 <= i < ending.len() ==> spells(
            name[name.len() - ending.len() + i],
            #[trigger] ending[i],
        )
}

/// The local names are `localhost` itself and the names below `localhost`, `local`
/// and `internal`, in capitals or not.
pub proof fn law_local_names(name: Seq<char>)
    ensures
        local_domain(name) <==> {
            ||| name.len() == 9 && ends_in(name, "localhost"@)
            ||| ends_in(name, ".localhost"@)
            ||| ends_in(name, ".local"@)
            ||| ends_in(name, ".internal"@)
        },
{
    reveal_strlit("localhost");
    reveal_strlit(".localhost");
    reveal_strlit(".local");
    reveal_strlit(".internal");
    lemma_ends_in(name, "localhost"@);
    lemma_ends_in(name, ".localhost"@);
    lemma_ends_in(name, ".local"@);
    lemma_ends_in(name, ".internal"@);
    let lower = ascii_lowercase(name);
    assert(lower == "localhost"@ <==> name.len() == 9 && has_suffix(lower, "localhost"@)) by {
        if name.len() == 9 {
            assert(lower.subrange(0, 9) =~= lower);
        }
    }
}

proof fn lemma_spells(c: char, small: char)
    requires
        !('A' <= small && small <= 'Z'),
    ensures
        ascii_lower(c) == small <==> spells(c, small),
{
}

proof fn lemma_ends_in(name: Seq<char>, ending: Seq<char>)
    requires
        forall|i: int|
            0 <= i < ending.len() ==> !('A' <= #[trigger] ending[i] && ending[i] <= 'Z'),
    ensures
        has_suffix(ascii_lowercase(name), ending) <==> ends_in(name, ending),
{
    let lower = ascii_lowercase(name);
    if name.len() >= ending.len() {
        let from = name.len() - ending.len();
        let end = lower.subrange(from, lower.len() as int);
        assert forall|i: int| 0 <= i < ending.len() implies (end[i] == #[trigger] ending[i]
            <==> spells(name[from + i], ending[i])) by {
            lemma_spells(name[from + i], ending[i]);
        }
        if end == ending {
            assert forall|i: int| 0 <= i < ending.len() implies spells(
                name[from + i],
                #[trigger] ending[i],
            ) by {
                assert(end[i] == ending[i]);
            }
        }
        if ends_in(name, ending) {
            assert(end =~= ending);
        }
    }
}

/// Whether a host can be reached from everywhere.
pub open spec fn can_be_reached(host: UrlHostView) -> bool {
    match host {
        UrlHostView::Domain(name) => !local_domain(name),
        UrlHostView::Ipv4(a) => !private_ipv4(a),
        UrlHostView::Ipv6(a) => !private_ipv6(a),
    }
}

/// A text is a public base URL exactly where it spells a URL with the scheme `http`
/// or `https` and a host that can be reached from everywhere, and with no user name,
/// password, query or fragment.
pub proof fn law_public_base_url_iff(value: Seq<char>)
    ensures
        public_url_error(value) is None <==> {
            &&& url_parts(value) matches Some(parts)
            &&& parts.scheme == "http"@ || parts.scheme == "https"@
            &&& parts.username.len() == 0
            &&& parts.password is None
            &&& parts.query is None
            &&& parts.fragment is None
            &&& parts.host matches Some(host)
            &&& can_be_reached(host)
        },
        public_url_error(value) == Some(PublicUrlError::Malformed) <==> url_parts(value) is None,
        public_url_error(value) == Some(PublicUrlError::LocalHost) ==> (url_parts(
            value,
        )->0.host matches Some(UrlHostView::Domain(name)) && local_domain(name)),
        public_url_error(value) == Some(PublicUrlError::PrivateAddress) ==> (match url_parts(
            value,
        )->0.host {
            Some(UrlHostView::Ipv4(a)) => private_ipv4(a),
            Some(UrlHostView::Ipv6(a)) => private_ipv6(a),
            _ => false,
        }),
        public_url_error(value) == Some(PublicUrlError::NotPlainHttp) ==> ({
            let parts = url_parts(value)->0;
            ||| parts.scheme != "http"@ && parts.scheme != "https"@
            ||| parts.username.len() > 0
            ||| parts.password is Some
            ||| parts.query is Some
            ||| parts.fragment is Some
            ||| parts.host is None
        }),
{
}

/// Whether a part of a path starts at an index.
pub open spec fn starts_part(s: Seq<char>, i: int) -> bool {
    i == 0 || s[i - 1] == '/'
}

/// Whether a part of a path ends before an index.
pub open spec fn ends_part(s: Seq<char>, i: int) -> bool {
    i == s.len() || s[i] == '/'
}

/// Whether a part of a path that starts at an index is a full stop or two.
pub open spec fn is_dots(s: Seq<char>, i: int) -> bool {
    &&& starts_part(s, i)
    &&& s[i] == '.'
    &&& ends_part(s, i + 1) || (s[i + 1] == '.' && ends_part(s, i + 2))
}

/// A path is portable exactly where it is not empty, neither starts nor ends with a
/// slash, has no two slashes in a row, no backslash and no colon, and no part of it
/// is a full stop or two.
pub proof fn law_portable_path_iff(s: Seq<char>)
    ensures
        is_portable_path(s) <==> {
            &&& s.len() > 0
            &&& s[0] != '/'
            &&& s[s.len() - 1] != '/'
            &&& forall|i: int| 0 <= i < s.len() ==> #[trigger] s[i] != '\\' && s[i] != ':'
            &&& forall|i: int| 0 < i < s.len() && #[trigger] s[i] == '/' ==> s[i - 1] != '/'
            &&& forall|i: int| 0 <= i < s.len() ==> !#[trigger] is_dots(s, i)
        },
{
    let spelled = {
        &&& s.len() > 0
        &&& s[0] != '/'
        &&& s[s.len() - 1] != '/'
        &&& forall|i: int| 0 <= i < s.len() ==> #[trigger] s[i] != '\\' && s[i] != ':'
        &&& forall|i: int| 0 < i < s.len() && #[trigger] s[i] == '/' ==> s[i - 1] != '/'
        &&& forall|i: int| 0 <= i < s.len() ==> !#[trigger] is_dots(s, i)
    };
    if is_portable_path(s) {
        lemma_no_empty_part(s);
        assert forall|i: int| 0 <= i < s.len() implies #[trigger] s[i] != '\\' && s[i] != ':' by {
            if s[i] == '\\' || s[i] == ':' {
                let from = lemma_part_start(s, i);
                let to = lemma_part_end(s, i);
                assert(is_component(s, from, to));
                assert(s.subrange(from, to)[i - from] == s[i]);
            }
        }
        assert forall|i: int| 0 <= i < s.len() implies !#[trigger] is_dots(s, i) by {
            if is_dots(s, i) {
                if ends_part(s, i + 1) {
                    assert(is_component(s, i, i + 1));
                    assert(s.subrange(i, i + 1) =~= seq!['.']);
                } else {
                    assert(is_component(s, i, i + 2));
                    assert(s.subrange(i, i + 2) =~= seq!['.', '.']);
                }
            }
        }
    }
    if spelled {
        assert forall|i: int, j: int| #[trigger] is_component(s, i, j) implies is_plain_component(
            s.subrange(i, j),
        ) by {
            let part = s.subrange(i, j);
            if i == j && i > 0 && i < s.len() {
                assert(s[i] == '/');
            }
            if part == seq!['.'] {
                assert(part[0] == s[i] && part.len() == 1);
                assert(is_dots(s, i));
            }
            if part == seq!['.', '.'] {
                assert(part.len() == 2);
                assert(part[0] == s[i]);
                assert(part[1] == s[i + 1]);
                assert(is_dots(s, i));
            }
            if part.contains('\\') {
                let k = choose|k: int| 0 <= k < part.len() && part[k] == '\\';
                assert(s[i + k] == '\\');
            }
            if part.contains(':') {
                let k = choose|k: int| 0 <= k < part.len() && part[k] == ':';
                assert(s[i + k] == ':');
            }
        }
    }
}

proof fn lemma_no_empty_part(s: Seq<char>)
    requires
        is_portable_path(s),
    ensures
        s.len() > 0,
        s[0] != '/',
        s[s.len() - 1] != '/',
        forall|i: int| 0 < i < s.len() && #[trigger] s[i] == '/' ==> s[i - 1] != '/',
{
    let n = s.len() as int;
    if n == 0 || s[0] == '/' {
        assert(is_component(s, 0, 0));
    }
    if n > 0 && s[n - 1] == '/' {
        assert(is_component(s, n, n));
    }
    assert forall|i: int| 0 < i < s.len() && #[trigger] s[i] == '/' implies s[i - 1] != '/' by {
        if s[i - 1] == '/' {
            assert(is_component(s, i, i));
        }
    }
}

proof fn lemma_part_start(s: Seq<char>, k: int) -> (i: int)
    requires
        0 <= k < s.len(),
        s[k] != '/',
    ensures
        0 <= i <= k,
        starts_part(s, i),
        forall|j: int| i <= j <= k ==> s[j] != '/',
    decreases k,
{
    if k == 0 || s[k - 1] == '/' {
        k
    } else {
        lemma_part_start(s, k - 1)
    }
}

proof fn lemma_part_end(s: Seq<char>, k: int) -> (i: int)
    requires
        0 <= k < s.len(),
        s[k] != '/',
    ensures
        k < i <= s.len(),
        ends_part(s, i),
        forall|j: int| k <= j < i ==> s[j] != '/',
    decreases s.len() - k,
{
    if k + 1 == s.len() || s[k + 1] == '/' {
        k + 1
    } else {
        lemma_part_end(s, k + 1)
    }
}

/// A publication path is a portable path that starts with `photos/` and has no two
/// full stops in a row.
pub proof fn law_publication_path_iff(s: Seq<char>)
    ensures
        is_publication_path(s) <==> {
            &&& is_portable_path(s)
            &&& exists|rest: Seq<char>| s == #[trigger] ("photos/"@ + rest)
            &&& forall|i: int|
                0 <= i < s.len() - 1 && #[trigger] s[i] == '.' ==> s[i + 1] != '.'
        },
{
    law_prefix_is_the_start(s, "photos/"@);
    if has_dot_dot(s) {
        let i = choose|i: int| 0 <= i < s.len() - 1 && #[trigger] s[i] == '.' && s[i + 1] == '.';
        assert(s[i] == '.');
    }
}

} // verus!
