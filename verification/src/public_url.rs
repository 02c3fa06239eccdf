//! Public base URLs: absolute HTTP(S) URLs that anyone can reach.

use crate::text::{
    ascii_lowercase, ends_with, has_suffix, option_text, same_text, to_ascii_lowercase,
};
use vstd::prelude::*;

verus! {

/// The host of a URL.
#[derive(Debug, PartialEq, Eq)]
pub enum UrlHost {
    Domain(String),
    Ipv4([u8; 4]),
    Ipv6([u16; 8]),
}

/// The parts of a URL that decide whether it may be published under.
#[derive(Debug, PartialEq, Eq)]
pub struct UrlParts {
    pub scheme: String,
    pub host: Option<UrlHost>,
    pub username: String,
    pub password: Option<String>,
    pub query: Option<String>,
    pub fragment: Option<String>,
}

/// The mathematical form of a host.
pub enum UrlHostView {
    Domain(Seq<char>),
    Ipv4(Seq<u8>),
    Ipv6(Seq<u16>),
}

/// The mathematical form of the parts of a URL.
pub struct UrlPartsView {
    pub scheme: Seq<char>,
    pub host: Option<UrlHostView>,
    pub username: Seq<char>,
    pub password: Option<Seq<char>>,
    pub query: Option<Seq<char>>,
    pub fragment: Option<Seq<char>>,
}

impl View for UrlHost {
    type V = UrlHostView;

    open spec fn view(&self) -> UrlHostView {
        match *self {
            UrlHost::Domain(s) => UrlHostView::Domain(s@),
            UrlHost::Ipv4(a) => UrlHostView::Ipv4(a@),
            UrlHost::Ipv6(a) => UrlHostView::Ipv6(a@),
        }
    }
}

impl View for UrlParts {
    type V = UrlPartsView;

    open spec fn view(&self) -> UrlPartsView {
        UrlPartsView {
            scheme: self.scheme@,
            host: match self.host {
                Some(h) => Some(h@),
                None => None,
            },
            username: self.username@,
            password: option_text(self.password),
            query: option_text(self.query),
            fragment: option_text(self.fragment),
        }
    }
}

/// The parts of the URL that a text spells, or none where it spells no URL.
pub uninterp spec fn url_parts(value: Seq<char>) -> Option<UrlPartsView>;

/// `url::Url::parse`, with the scheme, host, user name, password, query and
/// fragment of its result: they depend on the text alone.
#[verifier::external_body]
fn parse_url(value: &str) -> (r: Option<UrlParts>)
    ensures
        match r {
            Some(parts) => url_parts(value@) == Some(parts@),
            None => url_parts(value@) is None,
        },
{
    url::Url::parse(value).ok().map(|url| UrlParts {
        scheme: url.scheme().to_owned(),
        host: url.host().map(|host| match host {
            url::Host::Domain(domain) => UrlHost::Domain(domain.to_owned()),
            url::Host::Ipv4(address) => UrlHost::Ipv4(address.octets()),
            url::Host::Ipv6(address) => UrlHost::Ipv6(address.segments()),
        }),
        username: url.username().to_owned(),
        password: url.password().map(str::to_owned),
        query: url.query().map(str::to_owned),
        fragment: url.fragment().map(str::to_owned),
    })
}

/// Why a text is no public base URL.
#[derive(Debug, Clone, Copy, PartialEq, Eq, Structural)]
pub enum PublicUrlError {
    /// It spells no URL.
    Malformed,
    /// It is not an absolute HTTP(S) URL without credentials, query and fragment.
    NotPlainHttp,
    /// Its host is a local or internal name.
    LocalHost,
    /// Its host is a private or loopback address.
    PrivateAddress,
}

/// An IPv4 address that is not reachable from everywhere: this network,
/// private, shared, loopback or link-local.
pub open spec fn private_ipv4(a: Seq<u8>) -> bool {
    ||| a[0] == 0
    ||| a[0] == 10
    ||| a[0] == 127
    ||| a[0] == 100 && 64 <= a[1] <= 127
    ||| a[0] == 169 && a[1] == 254
    ||| a[0] == 172 && 16 <= a[1] <= 31
    ||| a[0] == 192 && a[1] == 168
}

/// An IPv6 address that is not reachable from everywhere: unspecified,
/// loopback, unique local or link-local.
pub open spec fn private_ipv6(a: Seq<u16>) -> bool {
    ||| a == seq![0u16, 0, 0, 0, 0, 0, 0, 0]
    ||| a == seq![0u16, 0, 0, 0, 0, 0, 0, 1]
    ||| 0xfc00 <= a[0] <= 0xfdff
    ||| 0xfe80 <= a[0] <= 0xfebf
}

/// A name for a host of this machine or of an internal network.
pub open spec fn local_domain(domain: Seq<char>) -> bool {
    let d = ascii_lowercase(domain);
    ||| d == "localhost"@
    ||| has_suffix(d, ".localhost"@)
    ||| has_suffix(d, ".local"@)
    ||| has_suffix(d, ".internal"@)
}

/// What is wrong with a URL as a public base.
pub open spec fn url_error(parts: UrlPartsView) -> Option<PublicUrlError> {
    if !(parts.scheme == "http"@ || parts.scheme == "https"@) || parts.username.len() > 0
        || parts.password is Some || parts.query is Some || parts.fragment is Some {
        Some(PublicUrlError::NotPlainHttp)
    } else {
        match parts.host {
            None => Some(PublicUrlError::NotPlainHttp),
            Some(UrlHostView::Domain(d)) => if local_domain(d) {
                Some(PublicUrlError::LocalHost)
            } else {
                None
            },
            Some(UrlHostView::Ipv4(a)) => if private_ipv4(a) {
                Some(PublicUrlError::PrivateAddress)
            } else {
                None
            },
            Some(UrlHostView::Ipv6(a)) => if private_ipv6(a) {
                Some(PublicUrlError::PrivateAddress)
            } else {
                None
            },
        }
    }
}

/// What is wrong with a text as a public base URL.
pub open spec fn public_url_error(value: Seq<char>) -> Option<PublicUrlError> {
    match url_parts(value) {
        None => Some(PublicUrlError::Malformed),
        Some(parts) => url_error(parts),
    }
}

/// Whether the address is not reachable from everywhere.
pub fn is_private_ipv4(a: [u8; 4]) -> (r: bool)
    ensures
        r == private_ipv4(a@),
{
    a[0] == 0 || a[0] == 10 || a[0] == 127 || (a[0] == 100 && 64 <= a[1] && a[1] <= 127) || (a[0]
        == 169 && a[1] == 254) || (a[0] == 172 && 16 <= a[1] && a[1] <= 31) || (a[0] == 192 && a[1]
        == 168)
}

/// Whether the address is not reachable from everywhere.
pub fn is_private_ipv6(a: [u16; 8]) -> (r: bool)
    ensures
        r == private_ipv6(a@),
{
    let low: bool = a[0] == 0 && a[1] == 0 && a[2] == 0 && a[3] == 0 && a[4] == 0 && a[5] == 0
        && a[6] == 0 && (a[7] == 0 || a[7] == 1);
    proof {
        if low {
            assert(a@ =~= seq![0u16, 0, 0, 0, 0, 0, 0, 0] || a@ =~= seq![0u16, 0, 0, 0, 0, 0, 0, 1]);
        } else {
            assert(a@ != seq![0u16, 0, 0, 0, 0, 0, 0, 0]) by {
                if a@ == seq![0u16, 0, 0, 0, 0, 0, 0, 0] {
                    assert(a@[7] == 0);
                }
            }
            assert(a@ != seq![0u16, 0, 0, 0, 0, 0, 0, 1]) by {
                if a@ == seq![0u16, 0, 0, 0, 0, 0, 0, 1] {
                    assert(a@[7] == 1);
                }
            }
        }
    }
    low || (0xfc00 <= a[0] && a[0] <= 0xfdff) || (0xfe80 <= a[0] && a[0] <= 0xfebf)
}

fn is_local_domain(domain: &str) -> (r: bool)
    ensures
        r == local_domain(domain@),
{
    let lower: String = to_ascii_lowercase(domain);
    same_text(lower.as_str(), "localhost") || ends_with(lower.as_str(), ".localhost") || ends_with(
        lower.as_str(),
        ".local",
    ) || ends_with(lower.as_str(), ".internal")
}

/// Checks the parts of a URL.
pub fn check_url(parts: &UrlParts) -> (r: Result<(), PublicUrlError>)
    ensures
        match url_error(parts@) {
            Some(e) => r == Err::<(), PublicUrlError>(e),
            None => r is Ok,
        },
{
    let http: bool = same_text(parts.scheme.as_str(), "http") || same_text(
        parts.scheme.as_str(),
        "https",
    );
    if !http || !parts.username.as_str().is_empty() || parts.password.is_some()
        || parts.query.is_some() || parts.fragment.is_some() {
        return Err(PublicUrlError::NotPlainHttp);
    }
    match &parts.host {
        None => Err(PublicUrlError::NotPlainHttp),
        Some(UrlHost::Domain(d)) => {
            if is_local_domain(d.as_str()) {
                Err(PublicUrlError::LocalHost)
            } else {
                Ok(())
            }
        },
        Some(UrlHost::Ipv4(a)) => {
            if is_private_ipv4(*a) {
                Err(PublicUrlError::PrivateAddress)
            } else {
                Ok(())
            }
        },
        Some(UrlHost::Ipv6(a)) => {
            if is_private_ipv6(*a) {
                Err(PublicUrlError::PrivateAddress)
            } else {
                Ok(())
            }
        },
    }
}

/// Checks that the text is a public base URL.
pub fn validate_public_base_url(value: &str) -> (r: Result<(), PublicUrlError>)
    ensures
        match public_url_error(value@) {
            Some(e) => r == Err::<(), PublicUrlError>(e),
            None => r is Ok,
        },
{
    match parse_url(value) {
        Some(parts) => check_url(&parts),
        None => Err(PublicUrlError::Malformed),
    }
}

/// A public base URL, kept as it was given.
#[derive(Debug, PartialEq, Eq)]
pub struct PublicBaseUrl(String);

impl View for PublicBaseUrl {
    type V = Seq<char>;

    closed spec fn view(&self) -> Seq<char> {
        self.0@
    }
}

impl PublicBaseUrl {
    #[verifier::type_invariant]
    spec fn valid(self) -> bool {
        public_url_error(self@) is None
    }

    /// The public base URL with this text.
    pub fn parse(value: &str) -> (r: Result<PublicBaseUrl, PublicUrlError>)
        ensures
            match (public_url_error(value@), r) {
                (Some(e), Err(f)) => e == f,
                (None, Ok(url)) => url@ == value@,
                _ => false,
            },
    {
        match validate_public_base_url(value) {
            Ok(()) => Ok(PublicBaseUrl(value.to_owned())),
            Err(e) => Err(e),
        }
    }

    /// The text of the URL.
    pub fn as_str(&self) -> (r: &str)
        ensures
            r@ == self@,
            public_url_error(r@) is None,
    {
        proof {
            use_type_invariant(self);
        }
        self.0.as_str()
    }
}

} // verus!
