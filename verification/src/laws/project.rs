//! What a project document says is what is configured, and what is configured is
//! what is fingerprinted.

use crate::config::{
    bundle_path_allowed, configuration_fingerprint_text, configuration_json, configured,
    project_error, ProjectDocument, ProjectError, ProjectPublicationConfig,
};
use crate::digest::collide;
use crate::json::{json_encoding, optional_text_json, reads_back};
use crate::paths::is_component;
use crate::public_url::public_url_error;
use crate::text::{is_blank_text, is_white_space, option_text};
use vstd::prelude::*;

verus! {

// ---------------------------------------------------------------------------
// Loading
// ---------------------------------------------------------------------------
/// Everything that a document says of the publication is configured under its own
/// name: the preview has the prefix and the base URL of the preview, the downloads
/// those of the high resolution.
pub proof fn law_configuration_says_what_the_document_says(
    c: ProjectPublicationConfig,
    d: ProjectDocument,
    parent: Seq<char>,
)
    requires
        configured(c, d, parent),
    ensures
        c.project_id@ == d.project_id@,
        c.repository_provider@ == d.repository_provider@,
        c.repository@ == d.repository@,
        same_optional(c.branch, d.branch),
        same_optional(c.preview_prefix, d.preview_prefix),
        c.preview_public_base_url@ == d.preview_public_base_url@,
        c.high_resolution_account_id@ == d.high_resolution_account_id@,
        same_optional(c.high_resolution_bucket, d.high_resolution_bucket),
        same_optional(c.high_resolution_prefix, d.high_resolution_prefix),
        c.high_resolution_public_base_url@ == d.high_resolution_public_base_url@,
        c.hosting.project_id@ == d.hosting_project@,
        same_optional(c.hosting.team_id, d.hosting_team_id),
{
}

/// Whether two optional strings are both absent, or both there with the same text.
pub open spec fn same_optional(a: Option<String>, b: Option<String>) -> bool {
    match (a, b) {
        (Some(s), Some(t)) => s@ == t@,
        (None, None) => true,
        _ => false,
    }
}

/// The bundle directory lies below the directory of the project: it starts with
/// that directory and ends with the bundle path, with one slash between them where
/// the directory does not end with one.
pub proof fn law_bundle_directory_is_below_the_project(
    c: ProjectPublicationConfig,
    d: ProjectDocument,
    parent: Seq<char>,
)
    requires
        configured(c, d, parent),
    ensures
        ({
            let (all, path) = (c.bundle_directory@, d.bundle_path@);
            &&& all.len() >= parent.len() + path.len()
            &&& all.take(parent.len() as int) == parent
            &&& all.skip(all.len() - path.len()) == path
            &&& all.len() == parent.len() + path.len() || (all.len() == parent.len() + path.len()
                + 1 && all[parent.len() as int] == '/' && parent.last() != '/')
            &&& parent.len() > 0 ==> all[all.len() - path.len() - 1] == '/'
        }),
{
    reveal_strlit("/");
    let (all, path) = (c.bundle_directory@, d.bundle_path@);
    assert(all.take(parent.len() as int) =~= parent);
    assert(all.skip(all.len() - path.len()) =~= path);
}

/// A document is accepted exactly where it has the second version of the schema,
/// its bundle path stays in the project, both base URLs are public and the hosting
/// project, and the team where one is named, are not blank.
pub proof fn law_project_is_accepted_iff(d: ProjectDocument)
    ensures
        project_error(d) is None <==> {
            &&& d.schema_version == 2
            &&& bundle_path_allowed(d.bundle_path@)
            &&& public_url_error(d.preview_public_base_url@) is None
            &&& public_url_error(d.high_resolution_public_base_url@) is None
            &&& exists|i: int|
                0 <= i < d.hosting_project@.len() && !is_white_space(
                    #[trigger] d.hosting_project@[i],
                )
            &&& d.hosting_team_id matches Some(team) ==> exists|i: int|
                0 <= i < team@.len() && !is_white_space(#[trigger] team@[i])
        },
{
}

/// A bundle path that leaves the project is refused: one that starts at the root,
/// holds a colon, is a step to the parent directory, or starts with one, ends with
/// one or holds one.
pub proof fn law_bundle_path_stays_in_the_project(s: Seq<char>)
    ensures
        bundle_path_allowed(s) <==> {
            &&& !(s.len() > 0 && s[0] == '/')
            &&& forall|i: int| 0 <= i < s.len() ==> #[trigger] s[i] != ':'
            &&& forall|i: int|
                0 <= i < s.len() - 1 && #[trigger] s[i] == '.' && s[i + 1] == '.' ==> !(i == 0
                    || s[i - 1] == '/') || !(i + 2 == s.len() || s[i + 2] == '/')
        },
{
    if bundle_path_allowed(s) {
        assert forall|i: int|
            0 <= i < s.len() - 1 && #[trigger] s[i] == '.' && s[i + 1] == '.' implies !(i == 0
            || s[i - 1] == '/') || !(i + 2 == s.len() || s[i + 2] == '/') by {
            if (i == 0 || s[i - 1] == '/') && (i + 2 == s.len() || s[i + 2] == '/') {
                assert(is_component(s, i, i + 2));
                assert(s.subrange(i, i + 2) =~= seq!['.', '.']);
            }
        }
        assert forall|i: int| 0 <= i < s.len() implies #[trigger] s[i] != ':' by {
            if s[i] == ':' {
                assert(s.contains(':'));
            }
        }
    } else {
        if !(s.len() > 0 && s[0] == '/') && !s.contains(':') {
            let (i, j) = choose|i: int, j: int| #[trigger]
                is_component(s, i, j) && s.subrange(i, j) == seq!['.', '.'];
            assert(s.subrange(i, j).len() == 2);
            assert(s.subrange(i, j)[0] == s[i]);
            assert(s.subrange(i, j)[1] == s[i + 1]);
        } else if s.contains(':') {
            let i = choose|i: int| 0 <= i < s.len() && s[i] == ':';
            assert(s[i] == ':');
        }
    }
}

// ---------------------------------------------------------------------------
// The fingerprint
// ---------------------------------------------------------------------------
proof fn lemma_optional_json(a: Option<String>, b: Option<String>)
    requires
        optional_text_json(option_text(a)) == optional_text_json(option_text(b)),
    ensures
        same_optional(a, b),
{
}

/// Configurations with the same fingerprint agree in everything that decides where
/// and how is published, unless SHA-256 collides on what is fingerprinted of them.
/// What is fingerprinted of a configuration is read back from its text, as every
/// computation of a fingerprint shows.
pub proof fn law_fingerprint_covers_the_configuration(
    a: ProjectPublicationConfig,
    b: ProjectPublicationConfig,
)
    requires
        reads_back(configuration_json(a)),
        reads_back(configuration_json(b)),
        configuration_fingerprint_text(a) == configuration_fingerprint_text(b),
        !collide(
            json_encoding(configuration_json(a)),
            json_encoding(configuration_json(b)),
        ),
    ensures
        a.project_id@ == b.project_id@,
        a.repository_provider@ == b.repository_provider@,
        a.repository@ == b.repository@,
        same_optional(a.branch, b.branch),
        same_optional(a.preview_prefix, b.preview_prefix),
        a.preview_public_base_url@ == b.preview_public_base_url@,
        a.high_resolution_account_id@ == b.high_resolution_account_id@,
        same_optional(a.high_resolution_bucket, b.high_resolution_bucket),
        same_optional(a.high_resolution_prefix, b.high_resolution_prefix),
        a.high_resolution_public_base_url@ == b.high_resolution_public_base_url@,
        a.hosting.project_id@ == b.hosting.project_id@,
        same_optional(a.hosting.team_id, b.hosting.team_id),
{
    let (x, y) = (configuration_json(a)->Object_0, configuration_json(b)->Object_0);
    assert(configuration_json(a) == configuration_json(b));
    assert(x[0] == y[0] && x[1] == y[1] && x[2] == y[2] && x[3] == y[3] && x[4] == y[4]);
    let (h, g) = (x[0].1->Object_0, y[0].1->Object_0);
    assert(h[0] == g[0] && h[1] == g[1] && h[2] == g[2] && h[3] == g[3]);
    let (o, p) = (x[1].1->Object_0, y[1].1->Object_0);
    assert(o[0] == p[0] && o[1] == p[1]);
    let (v, w) = (x[2].1->Object_0, y[2].1->Object_0);
    assert(v[0] == w[0] && v[1] == w[1]);
    let (r, s) = (x[4].1->Object_0, y[4].1->Object_0);
    assert(r[0] == s[0] && r[1] == s[1] && r[2] == s[2]);
    lemma_optional_json(a.high_resolution_bucket, b.high_resolution_bucket);
    lemma_optional_json(a.high_resolution_prefix, b.high_resolution_prefix);
    lemma_optional_json(a.hosting.team_id, b.hosting.team_id);
    lemma_optional_json(a.preview_prefix, b.preview_prefix);
    lemma_optional_json(a.branch, b.branch);
}

/// Where the bundle lies on disk does not enter the fingerprint: configurations
/// that agree in everything else have the same one.
pub proof fn law_fingerprint_ignores_the_bundle_directory(
    a: ProjectPublicationConfig,
    b: ProjectPublicationConfig,
)
    requires
        a.project_id@ == b.project_id@,
        a.repository_provider@ == b.repository_provider@,
        a.repository@ == b.repository@,
        same_optional(a.branch, b.branch),
        same_optional(a.preview_prefix, b.preview_prefix),
        a.preview_public_base_url@ == b.preview_public_base_url@,
        a.high_resolution_account_id@ == b.high_resolution_account_id@,
        same_optional(a.high_resolution_bucket, b.high_resolution_bucket),
        same_optional(a.high_resolution_prefix, b.high_resolution_prefix),
        a.high_resolution_public_base_url@ == b.high_resolution_public_base_url@,
        a.hosting.project_id@ == b.hosting.project_id@,
        same_optional(a.hosting.team_id, b.hosting.team_id),
    ensures
        configuration_fingerprint_text(a) == configuration_fingerprint_text(b),
{
    assert(option_text(a.branch) == option_text(b.branch));
    assert(option_text(a.preview_prefix) == option_text(b.preview_prefix));
    assert(configuration_json(a) == configuration_json(b));
}

/// What a project document is refused for is wrong with it.
pub proof fn law_project_error_has_its_cause(d: ProjectDocument)
    ensures
        match project_error(d) {
            None => true,
            Some(ProjectError::UnsupportedSchemaVersion) => d.schema_version != 2,
            Some(ProjectError::InvalidBundlePath) => !bundle_path_allowed(d.bundle_path@),
            Some(ProjectError::PreviewUrl(e)) => public_url_error(d.preview_public_base_url@)
                == Some(e),
            Some(ProjectError::HighResolutionUrl(e)) => public_url_error(
                d.high_resolution_public_base_url@,
            ) == Some(e),
            Some(ProjectError::InvalidHosting) => is_blank_text(d.hosting_project@) || (
            d.hosting_team_id is Some && is_blank_text(d.hosting_team_id->0@)),
        },
{
}

} // verus!
