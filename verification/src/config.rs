//! The configuration of an integrated publication.

use crate::digest::{hex_digest, hex_sha256};
use crate::inventory::keys_ascend;
use crate::json::{
    encode, is_plain, json_encoding, members_view, object_of, optional_text_json,
    optional_text_value, push_member, reads_back, text_value, Json, JsonView,
};
use crate::paths::is_component;
use crate::provider::{ProviderError, ProviderErrorText};
use crate::public_url::{public_url_error, PublicBaseUrl, PublicUrlError};
use crate::text::{
    chars_of, contains_char, is_blank, is_blank_text, is_sha256_text, joined, joined3, option_text,
    text_lt,
};
use vstd::prelude::*;

verus! {

/// Where the site is hosted.
#[derive(Debug, PartialEq, Eq)]
pub struct HostingPublicationConfig {
    pub project_id: String,
    pub team_id: Option<String>,
}

/// Whether the identifiers of a hosting project are usable: neither is blank.
pub open spec fn hosting_ids_valid(project_id: Seq<char>, team_id: Option<Seq<char>>) -> bool {
    &&& !is_blank_text(project_id)
    &&& team_id is Some ==> !is_blank_text(team_id->0)
}

impl HostingPublicationConfig {
    /// The hosting configuration with these identifiers.
    pub fn new(project_id: String, team_id: Option<String>) -> (r: Result<
        HostingPublicationConfig,
        ProviderError,
    >)
        ensures
            match r {
                Ok(c) => hosting_ids_valid(project_id@, option_text(team_id)) && c.project_id@
                    == project_id@ && option_text(c.team_id) == option_text(team_id),
                Err(e) => !hosting_ids_valid(project_id@, option_text(team_id)) && e@
                    == ProviderErrorText::Other,
            },
    {
        if is_blank(project_id.as_str()) {
            return Err(ProviderError::Other);
        }
        match &team_id {
            Some(team) => {
                if is_blank(team.as_str()) {
                    return Err(ProviderError::Other);
                }
            },
            None => {},
        }
        Ok(HostingPublicationConfig { project_id, team_id })
    }
}

/// The configuration of an integrated publication.
#[derive(Debug, PartialEq, Eq)]
pub struct ProjectPublicationConfig {
    pub project_id: String,
    pub bundle_directory: String,
    pub repository_provider: String,
    pub repository: String,
    pub branch: Option<String>,
    pub preview_prefix: Option<String>,
    pub preview_public_base_url: PublicBaseUrl,
    pub high_resolution_account_id: String,
    pub high_resolution_bucket: Option<String>,
    pub high_resolution_prefix: Option<String>,
    pub high_resolution_public_base_url: PublicBaseUrl,
    pub hosting: HostingPublicationConfig,
}

/// What a project document says of the publication.
#[derive(Debug, PartialEq, Eq)]
pub struct ProjectDocument {
    pub schema_version: u32,
    pub project_id: String,
    pub bundle_path: String,
    pub repository_provider: String,
    pub repository: String,
    pub branch: Option<String>,
    pub hosting_project: String,
    pub hosting_team_id: Option<String>,
    pub preview_prefix: Option<String>,
    pub preview_public_base_url: String,
    pub high_resolution_account_id: String,
    pub high_resolution_bucket: Option<String>,
    pub high_resolution_prefix: Option<String>,
    pub high_resolution_public_base_url: String,
}

/// Why a project document does not describe an integrated publication.
#[derive(Debug, Clone, Copy, PartialEq, Eq, Structural)]
pub enum ProjectError {
    UnsupportedSchemaVersion,
    InvalidBundlePath,
    PreviewUrl(PublicUrlError),
    HighResolutionUrl(PublicUrlError),
    InvalidHosting,
}

/// A bundle path that stays under the project: relative, without a drive letter
/// and without a step to the parent directory. Its parts are told apart by
/// slashes, as on Unix; what only Windows takes for a separator is not one.
pub open spec fn bundle_path_allowed(s: Seq<char>) -> bool {
    &&& !(s.len() > 0 && s[0] == '/')
    &&& !s.contains(':')
    &&& forall|i: int, j: int| #[trigger]
        is_component(s, i, j) ==> s.subrange(i, j) != seq!['.', '.']
}

/// A path below a directory; the path alone below the current directory. A slash
/// joins them.
pub open spec fn path_below(directory: Seq<char>, path: Seq<char>) -> Seq<char> {
    if directory.len() == 0 {
        path
    } else if directory.last() == '/' {
        directory + path
    } else {
        directory + "/"@ + path
    }
}

fn has_parent_component(s: &str) -> (r: bool)
    ensures
        r == (exists|i: int, j: int| #[trigger]
            is_component(s@, i, j) && s@.subrange(i, j) == seq!['.', '.']),
{
    let chars: Vec<char> = chars_of(s);
    let n: usize = chars.len();
    let mut i: usize = 0;
    while n - i >= 2
        invariant
            i <= n,
            n == chars@.len(),
            chars@ == s@,
            forall|a: int, b: int| #[trigger]
                is_component(s@, a, b) && a < i ==> s@.subrange(a, b) != seq!['.', '.'],
        decreases n - i,
    {
        let opens: bool = i == 0 || chars[i - 1] == '/';
        let closes: bool = n - i == 2 || chars[i + 2] == '/';
        if opens && closes && chars[i] == '.' && chars[i + 1] == '.' {
            proof {
                assert(is_component(s@, i as int, i + 2));
                assert(s@.subrange(i as int, i + 2) =~= seq!['.', '.']);
            }
            return true;
        }
        proof {
            assert forall|a: int, b: int| #[trigger]
                is_component(s@, a, b) && a < i + 1 implies s@.subrange(a, b) != seq!['.', '.'] by {
                if a == i && s@.subrange(a, b) == seq!['.', '.'] {
                    assert(s@.subrange(a, b).len() == 2);
                    assert(s@.subrange(a, b)[0] == s@[a]);
                    assert(s@.subrange(a, b)[1] == s@[a + 1]);
                }
            }
        }
        i = i + 1;
    }
    proof {
        assert forall|a: int, b: int| #[trigger] is_component(s@, a, b) implies s@.subrange(a, b)
            != seq!['.', '.'] by {
            if a >= i && s@.subrange(a, b) == seq!['.', '.'] {
                assert(s@.subrange(a, b).len() == 2);
            }
        }
    }
    false
}

/// The bundle directory of a project in `parent`.
pub fn resolve_bundle_directory(parent: &str, bundle_path: &str) -> (r: Result<
    String,
    ProviderError,
>)
    ensures
        match r {
            Ok(directory) => bundle_path_allowed(bundle_path@) && directory@ == path_below(
                parent@,
                bundle_path@,
            ),
            Err(e) => !bundle_path_allowed(bundle_path@) && e@ == ProviderErrorText::InvalidPath(
                bundle_path@,
            ),
        },
{
    let chars: Vec<char> = chars_of(bundle_path);
    let absolute: bool = chars.len() > 0 && chars[0] == '/';
    if absolute || contains_char(bundle_path, ':') || has_parent_component(bundle_path) {
        return Err(ProviderError::InvalidPath(bundle_path.to_owned()));
    }
    let base: Vec<char> = chars_of(parent);
    if base.len() == 0 {
        Ok(bundle_path.to_owned())
    } else if base[base.len() - 1] == '/' {
        Ok(joined(parent, bundle_path))
    } else {
        Ok(joined3(parent, "/", bundle_path))
    }
}

/// What is wrong with a project document, in the order in which it is read.
pub open spec fn project_error(d: ProjectDocument) -> Option<ProjectError> {
    if d.schema_version != 2 {
        Some(ProjectError::UnsupportedSchemaVersion)
    } else if !bundle_path_allowed(d.bundle_path@) {
        Some(ProjectError::InvalidBundlePath)
    } else if public_url_error(d.preview_public_base_url@) is Some {
        Some(ProjectError::PreviewUrl(public_url_error(d.preview_public_base_url@)->0))
    } else if public_url_error(d.high_resolution_public_base_url@) is Some {
        Some(
            ProjectError::HighResolutionUrl(public_url_error(d.high_resolution_public_base_url@)->0),
        )
    } else if !hosting_ids_valid(d.hosting_project@, option_text(d.hosting_team_id)) {
        Some(ProjectError::InvalidHosting)
    } else {
        None
    }
}

/// Whether a configuration says what the document says, with the bundle
/// directory below `parent`.
pub open spec fn configured(c: ProjectPublicationConfig, d: ProjectDocument, parent: Seq<char>) -> bool {
    &&& c.project_id@ == d.project_id@
    &&& c.bundle_directory@ == path_below(parent, d.bundle_path@)
    &&& c.repository_provider@ == d.repository_provider@
    &&& c.repository@ == d.repository@
    &&& option_text(c.branch) == option_text(d.branch)
    &&& option_text(c.preview_prefix) == option_text(d.preview_prefix)
    &&& c.preview_public_base_url@ == d.preview_public_base_url@
    &&& c.high_resolution_account_id@ == d.high_resolution_account_id@
    &&& option_text(c.high_resolution_bucket) == option_text(d.high_resolution_bucket)
    &&& option_text(c.high_resolution_prefix) == option_text(d.high_resolution_prefix)
    &&& c.high_resolution_public_base_url@ == d.high_resolution_public_base_url@
    &&& c.hosting.project_id@ == d.hosting_project@
    &&& option_text(c.hosting.team_id) == option_text(d.hosting_team_id)
}

/// The publication configuration of a project document in the directory `parent`.
pub fn load_project_v2(document: ProjectDocument, parent: &str) -> (r: Result<
    ProjectPublicationConfig,
    ProjectError,
>)
    ensures
        match (project_error(document), r) {
            (Some(e), Err(f)) => e == f,
            (None, Ok(c)) => configured(c, document, parent@),
            _ => false,
        },
{
    let ProjectDocument {
        schema_version,
        project_id,
        bundle_path,
        repository_provider,
        repository,
        branch,
        hosting_project,
        hosting_team_id,
        preview_prefix,
        preview_public_base_url,
        high_resolution_account_id,
        high_resolution_bucket,
        high_resolution_prefix,
        high_resolution_public_base_url,
    } = document;
    if schema_version != 2 {
        return Err(ProjectError::UnsupportedSchemaVersion);
    }
    let bundle_directory: String = match resolve_bundle_directory(parent, bundle_path.as_str()) {
        Ok(directory) => directory,
        Err(_) => {
            return Err(ProjectError::InvalidBundlePath);
        },
    };
    let preview: PublicBaseUrl = match PublicBaseUrl::parse(preview_public_base_url.as_str()) {
        Ok(url) => url,
        Err(e) => {
            return Err(ProjectError::PreviewUrl(e));
        },
    };
    let high: PublicBaseUrl = match PublicBaseUrl::parse(high_resolution_public_base_url.as_str()) {
        Ok(url) => url,
        Err(e) => {
            return Err(ProjectError::HighResolutionUrl(e));
        },
    };
    let hosting: HostingPublicationConfig = match HostingPublicationConfig::new(
        hosting_project,
        hosting_team_id,
    ) {
        Ok(c) => c,
        Err(_) => {
            return Err(ProjectError::InvalidHosting);
        },
    };
    Ok(
        ProjectPublicationConfig {
            project_id,
            bundle_directory,
            repository_provider,
            repository,
            branch,
            preview_prefix,
            preview_public_base_url: preview,
            high_resolution_account_id,
            high_resolution_bucket,
            high_resolution_prefix,
            high_resolution_public_base_url: high,
            hosting,
        },
    )
}

/// The JSON form of everything in the configuration that decides where and how
/// is published.
pub open spec fn configuration_json(c: ProjectPublicationConfig) -> JsonView {
    JsonView::Object(
        seq![
            (
                "highResolution"@,
                JsonView::Object(
                    seq![
                        ("accountId"@, JsonView::Text(c.high_resolution_account_id@)),
                        ("bucket"@, optional_text_json(option_text(c.high_resolution_bucket))),
                        ("prefix"@, optional_text_json(option_text(c.high_resolution_prefix))),
                        ("publicBaseUrl"@, JsonView::Text(c.high_resolution_public_base_url@)),
                    ],
                ),
            ),
            (
                "hosting"@,
                JsonView::Object(
                    seq![
                        ("projectId"@, JsonView::Text(c.hosting.project_id@)),
                        ("teamId"@, optional_text_json(option_text(c.hosting.team_id))),
                    ],
                ),
            ),
            (
                "preview"@,
                JsonView::Object(
                    seq![
                        ("prefix"@, optional_text_json(option_text(c.preview_prefix))),
                        ("publicBaseUrl"@, JsonView::Text(c.preview_public_base_url@)),
                    ],
                ),
            ),
            ("projectId"@, JsonView::Text(c.project_id@)),
            (
                "repository"@,
                JsonView::Object(
                    seq![
                        ("branch"@, optional_text_json(option_text(c.branch))),
                        ("provider"@, JsonView::Text(c.repository_provider@)),
                        ("repository"@, JsonView::Text(c.repository@)),
                    ],
                ),
            ),
        ],
    )
}

/// Texts that share a start are ordered by what follows.
proof fn lemma_after_shared_start(a: Seq<char>, b: Seq<char>, n: int)
    requires
        0 <= n < a.len(),
        n < b.len(),
        a.take(n) == b.take(n),
        a[n] < b[n],
    ensures
        text_lt(a, b),
    decreases n,
{
    if n > 0 {
        assert(a[0] == a.take(n)[0] && b[0] == b.take(n)[0]);
        assert(a.drop_first().take(n - 1) =~= a.take(n).drop_first());
        assert(b.drop_first().take(n - 1) =~= b.take(n).drop_first());
        lemma_after_shared_start(a.drop_first(), b.drop_first(), n - 1);
    }
}

/// The JSON form of a configuration is plain, so it is read back from its text.
pub proof fn lemma_configuration_is_plain(c: ProjectPublicationConfig)
    ensures
        is_plain(configuration_json(c), 127),
{
    let members = configuration_json(c)->Object_0;
    reveal_with_fuel(is_plain, 3);
    reveal_strlit("highResolution");
    reveal_strlit("hosting");
    reveal_strlit("preview");
    reveal_strlit("projectId");
    reveal_strlit("repository");
    reveal_strlit("accountId");
    reveal_strlit("bucket");
    reveal_strlit("prefix");
    reveal_strlit("publicBaseUrl");
    reveal_strlit("teamId");
    reveal_strlit("branch");
    reveal_strlit("provider");
    assert("highResolution"@.take(1) =~= "hosting"@.take(1));
    lemma_after_shared_start("highResolution"@, "hosting"@, 1);
    assert("preview"@.take(2) =~= "projectId"@.take(2));
    lemma_after_shared_start("preview"@, "projectId"@, 2);
    assert("prefix"@.take(1) =~= "publicBaseUrl"@.take(1));
    lemma_after_shared_start("prefix"@, "publicBaseUrl"@, 1);
    assert(keys_ascend(members)) by {
        assert forall|i: int, j: int| 0 <= i < j < members.len() implies text_lt(
            #[trigger] members[i].0,
            #[trigger] members[j].0,
        ) by {}
    }
    let high = members[0].1->Object_0;
    assert(keys_ascend(high)) by {
        assert forall|i: int, j: int| 0 <= i < j < high.len() implies text_lt(
            #[trigger] high[i].0,
            #[trigger] high[j].0,
        ) by {}
    }
    let hosting = members[1].1->Object_0;
    assert(keys_ascend(hosting)) by {
        assert(text_lt("projectId"@, "teamId"@));
    }
    let preview = members[2].1->Object_0;
    assert(keys_ascend(preview));
    let repository = members[4].1->Object_0;
    assert(keys_ascend(repository)) by {
        assert forall|i: int, j: int| 0 <= i < j < repository.len() implies text_lt(
            #[trigger] repository[i].0,
            #[trigger] repository[j].0,
        ) by {}
    }
    assert forall|i: int| 0 <= i < members.len() implies is_plain(
        (#[trigger] members[i]).1,
        126,
    ) by {}
}

/// The fingerprint of a configuration.
pub open spec fn configuration_fingerprint_text(c: ProjectPublicationConfig) -> Seq<char> {
    hex_sha256(json_encoding(configuration_json(c)))
}

/// Deterministic fingerprint of all non-secret publication configuration.
pub fn publication_configuration_fingerprint(c: &ProjectPublicationConfig) -> (r: String)
    ensures
        r@ == configuration_fingerprint_text(*c),
        is_sha256_text(r@),
        reads_back(configuration_json(*c)),
{
    let ghost shown = configuration_json(*c)->Object_0;
    let mut high: Vec<(String, Json)> = Vec::new();
    push_member(&mut high, "accountId", text_value(c.high_resolution_account_id.as_str()));
    push_member(&mut high, "bucket", optional_text_value(&c.high_resolution_bucket));
    push_member(&mut high, "prefix", optional_text_value(&c.high_resolution_prefix));
    push_member(
        &mut high,
        "publicBaseUrl",
        text_value(c.high_resolution_public_base_url.as_str()),
    );
    proof {
        assert(members_view(high@) =~= shown[0].1->Object_0);
    }
    let mut hosting: Vec<(String, Json)> = Vec::new();
    push_member(&mut hosting, "projectId", text_value(c.hosting.project_id.as_str()));
    push_member(&mut hosting, "teamId", optional_text_value(&c.hosting.team_id));
    proof {
        assert(members_view(hosting@) =~= shown[1].1->Object_0);
    }
    let mut preview: Vec<(String, Json)> = Vec::new();
    push_member(&mut preview, "prefix", optional_text_value(&c.preview_prefix));
    push_member(&mut preview, "publicBaseUrl", text_value(c.preview_public_base_url.as_str()));
    proof {
        assert(members_view(preview@) =~= shown[2].1->Object_0);
    }
    let mut repository: Vec<(String, Json)> = Vec::new();
    push_member(&mut repository, "branch", optional_text_value(&c.branch));
    push_member(&mut repository, "provider", text_value(c.repository_provider.as_str()));
    push_member(&mut repository, "repository", text_value(c.repository.as_str()));
    proof {
        assert(members_view(repository@) =~= shown[4].1->Object_0);
    }
    let mut members: Vec<(String, Json)> = Vec::new();
    push_member(&mut members, "highResolution", object_of(high));
    push_member(&mut members, "hosting", object_of(hosting));
    push_member(&mut members, "preview", object_of(preview));
    push_member(&mut members, "projectId", text_value(c.project_id.as_str()));
    push_member(&mut members, "repository", object_of(repository));
    proof {
        assert(members_view(members@) =~= shown);
    }
    let document: String = encode(&object_of(members));
    proof {
        lemma_configuration_is_plain(*c);
    }
    hex_digest(document.as_str().as_bytes())
}

} // verus!
