//! Application bundles, public URLs, project configuration and the public
//! manifest.

use photo_publisher::bundle::{ApplicationBundle, BundleEntry, BundleEntryKind};
use photo_publisher::config::{
    load_project_v2, publication_configuration_fingerprint, resolve_bundle_directory,
    HostingPublicationConfig, ProjectDocument, ProjectError, ProjectPublicationConfig,
};
use photo_publisher::hosting::HostingPublisher;
use photo_publisher::manifest::{
    compose_application_bundle, public_url, ComposeError, ManifestError, PublicGalleryManifest,
};
use photo_publisher::paths::PublicationPathError;
use photo_publisher::provider::{DeploymentInfo, ProviderError, ProviderFailure};
use photo_publisher::public_url::{PublicBaseUrl, PublicUrlError};
use serde_json::Value;
use sha2::{Digest, Sha256};

fn sha256(bytes: &[u8]) -> String {
    format!("{:x}", Sha256::digest(bytes))
}

fn bundle_of(files: &[(&str, &[u8])]) -> ApplicationBundle {
    ApplicationBundle::from_files(
        files
            .iter()
            .map(|(path, content)| ((*path).to_owned(), content.to_vec()))
            .collect(),
    )
    .unwrap()
}

// ---------------------------------------------------------------------------
// Bundles
// ---------------------------------------------------------------------------
#[test]
fn bundle_rejects_empty_and_unsafe_paths() {
    assert!(ApplicationBundle::from_files(vec![]).is_err());
    for path in [
        "/index.html",
        "../index.html",
        "a/../index.html",
        "C:/index.html",
    ] {
        assert!(ApplicationBundle::from_files(vec![(path.to_owned(), vec![])]).is_err());
    }
}

#[test]
fn bundle_preserves_binary_and_unicode_with_stable_fingerprint() {
    let first = ApplicationBundle::from_files(vec![
        ("assets/ícone.bin".to_owned(), vec![0, 255, 1]),
        ("index.html".to_owned(), b"<h1>hello</h1>".to_vec()),
    ])
    .unwrap();
    let reordered = ApplicationBundle::from_files(vec![
        ("index.html".to_owned(), b"<h1>hello</h1>".to_vec()),
        ("assets/ícone.bin".to_owned(), vec![0, 255, 1]),
    ])
    .unwrap();
    assert_eq!(first, reordered);
    assert_eq!(first.files()[0].path().as_str(), "assets/ícone.bin");
    assert_eq!(first.files()[0].content(), &[0, 255, 1]);
    assert!(ApplicationBundle::from_files(vec![
        ("index.html".to_owned(), vec![]),
        ("index.html".to_owned(), vec![]),
    ])
    .is_err());
}

#[test]
fn bundle_fingerprint_changes_for_content_and_paths() {
    let base =
        ApplicationBundle::from_files(vec![("index.html".to_owned(), b"one".to_vec())]).unwrap();
    let changed_content =
        ApplicationBundle::from_files(vec![("index.html".to_owned(), b"two".to_vec())]).unwrap();
    let changed_path =
        ApplicationBundle::from_files(vec![("app.html".to_owned(), b"one".to_vec())]).unwrap();
    assert_ne!(base.fingerprint(), changed_content.fingerprint());
    assert_ne!(base.fingerprint(), changed_path.fingerprint());
}

#[test]
fn bundle_holds_the_given_files_whatever_their_order() {
    let files: [(&str, &[u8]); 3] = [("c", b"3"), ("a", b"1"), ("b/x", b"2")];
    let bundle = bundle_of(&files);
    for order in [[0, 2, 1], [1, 0, 2], [1, 2, 0], [2, 0, 1], [2, 1, 0]] {
        let reordered = bundle_of(&order.map(|i| files[i]));
        assert_eq!(reordered, bundle);
        assert_eq!(reordered.fingerprint(), bundle.fingerprint());
    }
    let held: Vec<(&str, &[u8])> = bundle
        .files()
        .iter()
        .map(|file| (file.path().as_str(), file.content()))
        .collect();
    assert_eq!(
        held,
        [
            ("a", b"1".as_slice()),
            ("b/x", b"2".as_slice()),
            ("c", b"3".as_slice())
        ]
    );
    for changed in [
        bundle_of(&[("c", b"3"), ("a", b"1")]),
        bundle_of(&[("c", b"3"), ("a", b"1"), ("b/y", b"2")]),
        bundle_of(&[("c", b"3"), ("a", b"2"), ("b/x", b"1")]),
        bundle_of(&[("c", b"3"), ("a", b"1"), ("b/x", b"2"), ("d", b"")]),
    ] {
        assert_ne!(changed.fingerprint(), bundle.fingerprint());
    }
}

#[test]
fn bundle_fingerprint_hashes_lengths_and_bytes() {
    let bundle = bundle_of(&[("b", b"xyz"), ("a/é", b"")]);
    let mut preimage: Vec<u8> = b"photo-publisher-application-bundle-v1\0".to_vec();
    for (path, content) in [("a/é", b"".as_slice()), ("b", b"xyz".as_slice())] {
        preimage.extend_from_slice(&(path.len() as u64).to_be_bytes());
        preimage.extend_from_slice(path.as_bytes());
        preimage.extend_from_slice(&(content.len() as u64).to_be_bytes());
        preimage.extend_from_slice(content);
    }
    assert_eq!(bundle.fingerprint(), sha256(&preimage));
}

fn entry(relative: &str, kind: BundleEntryKind) -> BundleEntry {
    BundleEntry {
        location: format!("/site/{relative}"),
        relative: relative.to_owned(),
        kind,
    }
}

#[test]
fn bundle_directories_give_their_files() {
    assert_eq!(
        ApplicationBundle::from_directory(Some(vec![
            entry("index.html", BundleEntryKind::File(b"<html>".to_vec())),
            entry("assets\\app.js", BundleEntryKind::File(b"run".to_vec())),
        ]))
        .unwrap(),
        bundle_of(&[("assets/app.js", b"run"), ("index.html", b"<html>")])
    );
}

#[test]
fn bundle_directories_refuse_what_is_no_file() {
    assert_eq!(
        ApplicationBundle::from_directory(None),
        Err(ProviderError::NotFound)
    );
    assert_eq!(
        ApplicationBundle::from_directory(Some(Vec::new())),
        ApplicationBundle::from_files(Vec::new())
    );
    let file = || entry("index.html", BundleEntryKind::File(b"<html>".to_vec()));
    assert_eq!(
        ApplicationBundle::from_directory(Some(vec![
            file(),
            entry("link", BundleEntryKind::SymbolicLink),
            entry("pipe", BundleEntryKind::Other),
        ])),
        Err(ProviderError::InvalidPath(
            "symbolic links are not allowed in application bundles: /site/link".to_owned()
        ))
    );
    assert_eq!(
        ApplicationBundle::from_directory(Some(vec![
            file(),
            entry("pipe", BundleEntryKind::Other)
        ])),
        Err(ProviderError::InvalidPath(
            "application bundle entry is not a file: /site/pipe".to_owned()
        ))
    );
}

#[test]
fn bundle_errors_name_the_path() {
    assert_eq!(
        ApplicationBundle::from_files(vec![]),
        Err(ProviderError::InvalidPath(
            "application bundle must contain at least one file".to_owned()
        ))
    );
    assert_eq!(
        ApplicationBundle::from_files(vec![("a//b".to_owned(), vec![])]),
        Err(ProviderError::InvalidPath("a//b".to_owned()))
    );
    assert_eq!(
        ApplicationBundle::from_files(vec![
            ("a".to_owned(), vec![1]),
            ("b".to_owned(), vec![]),
            ("a".to_owned(), vec![2]),
        ]),
        Err(ProviderError::InvalidPath(
            "duplicate application bundle path: a".to_owned()
        ))
    );
}

// ---------------------------------------------------------------------------
// Public URLs
// ---------------------------------------------------------------------------
#[test]
fn public_base_url_rejects_relative_and_internal_addresses() {
    assert!(PublicBaseUrl::parse("https://cdn.example.com/photos/").is_ok());
    for value in [
        "/photos",
        "localhost",
        "https://localhost/photos",
        "https://127.0.0.1/photos",
        "https://192.168.1.2/photos",
        "https://10.0.0.1/photos",
        "not a URL",
    ] {
        assert!(PublicBaseUrl::parse(value).is_err(), "accepted {value}");
    }
}

#[test]
fn invalid_public_base_urls_are_rejected_by_the_shared_validator() {
    // PublicBaseUrl is only constructible through `parse`, so an invalid
    // base can never reach the join rule.
    for invalid in [
        "not a url",
        "https://localhost/photos",
        "https://127.0.0.1/x",
        "ftp://example.com/x",
        "https://example.com/x?y=1",
    ] {
        assert!(PublicBaseUrl::parse(invalid).is_err(), "accepted {invalid}");
    }
}

#[test]
fn public_base_url_errors_say_what_is_wrong() {
    for (value, error) in [
        ("photos", PublicUrlError::Malformed),
        ("ftp://example.com/", PublicUrlError::NotPlainHttp),
        ("https://user@example.com/", PublicUrlError::NotPlainHttp),
        ("https://example.com/?a", PublicUrlError::NotPlainHttp),
        ("https://example.com/#a", PublicUrlError::NotPlainHttp),
        ("https://LOCALHOST/", PublicUrlError::LocalHost),
        ("https://172.16.0.1/", PublicUrlError::PrivateAddress),
        ("https://169.254.1.1/", PublicUrlError::PrivateAddress),
        ("https://0.0.0.0/", PublicUrlError::PrivateAddress),
        ("https://[::1]/", PublicUrlError::PrivateAddress),
    ] {
        assert_eq!(PublicBaseUrl::parse(value), Err(error), "for {value}");
    }
    let kept = PublicBaseUrl::parse("https://cdn.example.com/a//").unwrap();
    assert_eq!(kept.as_str(), "https://cdn.example.com/a//");
    assert!(PublicBaseUrl::parse("https://8.8.8.8/").is_ok());
}

#[test]
fn public_urls_have_one_slash_at_the_join() {
    for base in ["https://cdn.example.com/a", "https://cdn.example.com/a///"] {
        let base = PublicBaseUrl::parse(base).unwrap();
        assert_eq!(
            public_url(&base, "photos/x.jpg").unwrap(),
            "https://cdn.example.com/a/photos/x.jpg"
        );
        assert_eq!(
            public_url(&base, "../x.jpg"),
            Err(PublicationPathError::NotPortable)
        );
        assert_eq!(
            public_url(&base, "photos/a..jpg"),
            Err(PublicationPathError::DotDot)
        );
        assert_eq!(
            public_url(&base, "other/x.jpg"),
            Err(PublicationPathError::OutsidePhotos)
        );
    }
}

// ---------------------------------------------------------------------------
// Project configuration
// ---------------------------------------------------------------------------
fn project() -> ProjectDocument {
    ProjectDocument {
        schema_version: 2,
        project_id: "joao-maria-2026".to_owned(),
        bundle_path: "gallery-app".to_owned(),
        repository_provider: "github".to_owned(),
        repository: "owner/project".to_owned(),
        branch: Some("main".to_owned()),
        hosting_project: "prj_example".to_owned(),
        hosting_team_id: Some("team_example".to_owned()),
        preview_prefix: Some("public/photos".to_owned()),
        preview_public_base_url: "https://cdn.example.com/previews/".to_owned(),
        high_resolution_account_id: "account".to_owned(),
        high_resolution_bucket: Some("bucket".to_owned()),
        high_resolution_prefix: Some("joao-maria-2026".to_owned()),
        high_resolution_public_base_url: "https://downloads.example.com/joao-maria-2026/"
            .to_owned(),
    }
}

#[test]
fn project_v2_requires_valid_publication_configuration() {
    let config = load_project_v2(project(), "/projects/joao").unwrap();
    assert!(config.bundle_directory.ends_with("gallery-app"));
    assert_eq!(config.hosting.team_id.as_deref(), Some("team_example"));

    let mut absolute = project();
    absolute.bundle_path = "/gallery-app".to_owned();
    assert_eq!(
        load_project_v2(absolute, "/projects"),
        Err(ProjectError::InvalidBundlePath)
    );
    for (url, error) in [
        ("/photos", PublicUrlError::Malformed),
        ("https://localhost/photos", PublicUrlError::LocalHost),
        ("https://127.0.0.1/photos", PublicUrlError::PrivateAddress),
        ("not a URL", PublicUrlError::Malformed),
    ] {
        let mut preview = project();
        preview.preview_public_base_url = url.to_owned();
        assert_eq!(
            load_project_v2(preview, "/projects"),
            Err(ProjectError::PreviewUrl(error))
        );
        let mut high = project();
        high.high_resolution_public_base_url = url.to_owned();
        assert_eq!(
            load_project_v2(high, "/projects"),
            Err(ProjectError::HighResolutionUrl(error))
        );
    }
    let mut hosting = project();
    hosting.hosting_project = " ".to_owned();
    assert_eq!(
        load_project_v2(hosting, "/projects"),
        Err(ProjectError::InvalidHosting)
    );
    let mut first_version = project();
    first_version.schema_version = 1;
    assert_eq!(
        load_project_v2(first_version, "/projects"),
        Err(ProjectError::UnsupportedSchemaVersion)
    );
}

#[test]
fn bundle_directories_stay_below_their_project() {
    assert_eq!(
        resolve_bundle_directory("/projects", "site").unwrap(),
        "/projects/site"
    );
    assert_eq!(
        resolve_bundle_directory("/projects", "../site"),
        Err(ProviderError::InvalidPath("../site".to_owned()))
    );
    assert!(resolve_bundle_directory("/projects", "/site").is_err());
}

#[test]
fn configuration_fingerprint_covers_targets() {
    let base = publication_configuration_fingerprint(&configuration());
    assert_eq!(base.len(), 64);
    assert_eq!(base, publication_configuration_fingerprint(&configuration()));
    let mut bucket = configuration();
    bucket.high_resolution_bucket = Some("another".to_owned());
    assert_ne!(base, publication_configuration_fingerprint(&bucket));
    let mut branch = configuration();
    branch.branch = None;
    assert_ne!(base, publication_configuration_fingerprint(&branch));
}

struct FakePublisher;

impl HostingPublisher for FakePublisher {
    fn publish(
        &mut self,
        bundle: &ApplicationBundle,
        configuration: &HostingPublicationConfig,
    ) -> Result<DeploymentInfo, ProviderFailure> {
        assert_eq!(bundle.files().len(), 1);
        assert_eq!(configuration.project_id, "project");
        Ok(DeploymentInfo {
            id: "deployment".to_owned(),
            url: "deployment.example.com".to_owned(),
        })
    }
}

#[test]
fn hosting_publication_config_and_port_are_provider_neutral() {
    let bundle = ApplicationBundle::from_files(vec![("index.html".to_owned(), vec![])]).unwrap();
    let config = HostingPublicationConfig::new("project".to_owned(), None).unwrap();
    let deployment = FakePublisher.publish(&bundle, &config).unwrap();
    assert_eq!(deployment.id, "deployment");
    assert!(HostingPublicationConfig::new("".to_owned(), None).is_err());
    assert_eq!(
        HostingPublicationConfig::new("project".to_owned(), Some(" ".to_owned())),
        Err(ProviderError::Other)
    );
}

// ---------------------------------------------------------------------------
// The public manifest
// ---------------------------------------------------------------------------
fn configuration() -> ProjectPublicationConfig {
    ProjectPublicationConfig {
        project_id: "project".to_owned(),
        bundle_directory: "site".to_owned(),
        repository_provider: "repository".to_owned(),
        repository: "owner/project".to_owned(),
        branch: Some("main".to_owned()),
        preview_prefix: Some("public/photos".to_owned()),
        preview_public_base_url: PublicBaseUrl::parse("https://cdn.example.com/previews/").unwrap(),
        high_resolution_account_id: "account".to_owned(),
        high_resolution_bucket: Some("bucket".to_owned()),
        high_resolution_prefix: Some("joao-maria-2026".to_owned()),
        high_resolution_public_base_url: PublicBaseUrl::parse(
            "https://downloads.example.com/joao-maria-2026/",
        )
        .unwrap(),
        hosting: HostingPublicationConfig::new("hosting-project".to_owned(), None).unwrap(),
    }
}

fn local_manifest() -> Value {
    serde_json::from_str(
        r#"{
            "schemaVersion": 1,
            "gallery": {
                "id": "gallery-local",
                "title": "Título",
                "date": "2026-09-01",
                "description": "descrição álbum"
            },
            "photos": [
                {
                    "id": "photo-1",
                    "filename": "a.jpg",
                    "sequence": 1,
                    "preview": {"url": "photos/preview/aa.jpg", "width": 800, "height": 600},
                    "download": {
                        "url": "photos/download/cc.jpg",
                        "width": 4000,
                        "height": 3000,
                        "sizeBytes": 123,
                        "mimeType": "image/jpeg"
                    },
                    "alt": "foto a",
                    "caption": "legenda a"
                },
                {
                    "id": "photo-2",
                    "filename": "b.jpg",
                    "sequence": 2,
                    "preview": {"url": "photos/preview/bb.jpg", "width": 900, "height": 700}
                }
            ]
        }"#,
    )
    .unwrap()
}

fn local_bytes() -> Vec<u8> {
    serde_json::to_vec_pretty(&local_manifest()).unwrap()
}

fn text(value: &str) -> Value {
    Value::String(value.to_owned())
}

#[test]
fn public_manifest_rewrites_urls_and_preserves_content() {
    let manifest = PublicGalleryManifest::derive(&local_bytes(), &configuration()).unwrap();
    let public: Value = serde_json::from_slice(manifest.bytes()).unwrap();
    let photos = public["photos"].as_array().unwrap();

    assert_eq!(
        photos[0]["preview"]["url"],
        "https://cdn.example.com/previews/photos/preview/aa.jpg"
    );
    assert_eq!(
        photos[0]["download"]["url"],
        "https://downloads.example.com/joao-maria-2026/photos/download/cc.jpg"
    );
    // Semantics preserved verbatim: metadata, dimensions, optionals.
    assert_eq!(public["gallery"]["title"], "Título");
    assert_eq!(public["gallery"]["date"], "2026-09-01");
    assert_eq!(public["gallery"]["description"], "descrição álbum");
    assert_eq!(photos[0]["filename"], "a.jpg");
    assert_eq!(photos[1]["sequence"], 2);
    assert_eq!(photos[0]["preview"]["width"], 800);
    assert_eq!(photos[0]["preview"]["height"], 600);
    assert_eq!(photos[0]["download"]["sizeBytes"], 123);
    assert_eq!(photos[0]["download"]["mimeType"], "image/jpeg");
    assert_eq!(photos[0]["alt"], "foto a");
    assert_eq!(photos[0]["caption"], "legenda a");
    // A photo without a download asset simply keeps having none.
    assert!(photos[1].get("download").is_none());
    assert_eq!(
        photos[1]["preview"]["url"],
        "https://cdn.example.com/previews/photos/preview/bb.jpg"
    );
}

#[test]
fn preview_and_download_urls_use_their_own_base_urls() {
    let mut configuration = configuration();
    configuration.preview_public_base_url =
        PublicBaseUrl::parse("https://cdn.example.com/previews").unwrap();
    configuration.high_resolution_public_base_url =
        PublicBaseUrl::parse("https://downloads.example.com/joao-maria-2026").unwrap();
    let manifest = PublicGalleryManifest::derive(&local_bytes(), &configuration).unwrap();
    let public: Value = serde_json::from_slice(manifest.bytes()).unwrap();
    assert_eq!(
        public["photos"][0]["preview"]["url"],
        "https://cdn.example.com/previews/photos/preview/aa.jpg"
    );
    assert_eq!(
        public["photos"][0]["download"]["url"],
        "https://downloads.example.com/joao-maria-2026/photos/download/cc.jpg"
    );
}

#[test]
fn prefixes_do_not_enter_public_urls() {
    let mut without_prefixes = configuration();
    without_prefixes.preview_prefix = None;
    without_prefixes.high_resolution_prefix = None;
    let with_prefixes = PublicGalleryManifest::derive(&local_bytes(), &configuration()).unwrap();
    let without_prefixes =
        PublicGalleryManifest::derive(&local_bytes(), &without_prefixes).unwrap();
    // The prefix locates the object inside its target (R2 key, repository
    // path); the public URL is anchored only at the serving root.
    assert_eq!(with_prefixes, without_prefixes);
}

#[test]
fn join_removes_duplicate_slashes_at_the_boundary() {
    let mut trailing = configuration();
    trailing.preview_public_base_url =
        PublicBaseUrl::parse("https://cdn.example.com/previews/").unwrap();
    let mut plain = configuration();
    plain.preview_public_base_url =
        PublicBaseUrl::parse("https://cdn.example.com/previews").unwrap();
    let one = PublicGalleryManifest::derive(&local_bytes(), &trailing).unwrap();
    let two = PublicGalleryManifest::derive(&local_bytes(), &plain).unwrap();
    assert_eq!(one, two);
    assert!(!one.as_str().contains("previews//photos"));
    assert!(one
        .as_str()
        .contains("https://cdn.example.com/previews/photos/"));
    // The scheme separator is never collapsed.
    assert!(one.as_str().contains("https://"));
}

#[test]
fn unicode_paths_are_preserved_verbatim() {
    let mut local = local_manifest();
    local["photos"][0]["preview"]["url"] = text("photos/preview/álbum-é.jpg");
    let bytes = serde_json::to_vec(&local).unwrap();
    let manifest = PublicGalleryManifest::derive(&bytes, &configuration()).unwrap();
    assert!(manifest
        .as_str()
        .contains("https://cdn.example.com/previews/photos/preview/álbum-é.jpg"));
    assert!(!manifest.as_str().contains("%C3%A1")); // no percent-encoding
}

#[test]
fn unsafe_or_absolute_asset_paths_are_rejected() {
    for url in [
        "https://evil.example.com/x.jpg",
        "http://evil.example.com/x.jpg",
        "/photos/download/a.jpg",
        "photos/../x.jpg",
        "photos\\download\\a.jpg",
        "C:/photos/x.jpg",
        "photos//download/a.jpg",
    ] {
        let mut local = local_manifest();
        local["photos"][0]["preview"]["url"] = text(url);
        let bytes = serde_json::to_vec(&local).unwrap();
        assert!(
            PublicGalleryManifest::derive(&bytes, &configuration()).is_err(),
            "accepted {url}"
        );
    }
}

#[test]
fn derivation_is_deterministic_byte_for_byte() {
    let one = PublicGalleryManifest::derive(&local_bytes(), &configuration()).unwrap();
    let two = PublicGalleryManifest::derive(&local_bytes(), &configuration()).unwrap();
    assert_eq!(one, two);
    assert_eq!(one.sha256(), two.sha256());
    // Pretty or compact input produces the same canonical public bytes.
    let compact = serde_json::to_vec(&local_manifest()).unwrap();
    let three = PublicGalleryManifest::derive(&compact, &configuration()).unwrap();
    assert_eq!(one, three);
}

#[test]
fn sha256_is_computed_over_the_returned_bytes() {
    let manifest = PublicGalleryManifest::derive(&local_bytes(), &configuration()).unwrap();
    assert_eq!(
        manifest.sha256(),
        format!("{:x}", Sha256::digest(manifest.bytes()))
    );
    assert_eq!(
        manifest.sha256(),
        format!("{:x}", Sha256::digest(manifest.as_str().as_bytes()))
    );
}

#[test]
fn local_manifest_is_never_modified() {
    let input = local_bytes();
    let before = input.clone();
    let manifest = PublicGalleryManifest::derive(&input, &configuration()).unwrap();
    assert_eq!(input, before);
    let local: Value = serde_json::from_slice(&input).unwrap();
    assert_eq!(
        local["photos"][0]["preview"]["url"],
        "photos/preview/aa.jpg"
    );
    assert_ne!(manifest.bytes(), input);
    assert!(manifest.as_str().contains("https://"));
}

#[test]
fn invalid_local_manifest_is_rejected() {
    assert!(PublicGalleryManifest::derive(b"not json", &configuration()).is_err());

    let without_photos = r#"{"schemaVersion": 1, "gallery": {"id": "g", "title": "t"}}"#;
    assert!(PublicGalleryManifest::derive(without_photos.as_bytes(), &configuration()).is_err());

    let mut missing_preview = local_manifest();
    missing_preview["photos"][0]
        .as_object_mut()
        .unwrap()
        .remove("preview");
    assert!(PublicGalleryManifest::derive(
        &serde_json::to_vec(&missing_preview).unwrap(),
        &configuration()
    )
    .is_err());

    let mut non_string_url = local_manifest();
    non_string_url["photos"][0]["preview"]["url"] = Value::from(42);
    assert!(PublicGalleryManifest::derive(
        &serde_json::to_vec(&non_string_url).unwrap(),
        &configuration()
    )
    .is_err());

    let mut non_object_photo = local_manifest();
    non_object_photo["photos"][0] = text("oops");
    assert!(PublicGalleryManifest::derive(
        &serde_json::to_vec(&non_object_photo).unwrap(),
        &configuration()
    )
    .is_err());
}

#[test]
fn manifest_errors_say_what_is_wrong() {
    let derive = |document: &str| {
        PublicGalleryManifest::derive(document.as_bytes(), &configuration())
            .map(|manifest| manifest.as_str().to_owned())
    };
    assert_eq!(derive("{"), Err(ManifestError::NotJson));
    assert_eq!(derive("[]"), Err(ManifestError::NoPhotosArray));
    assert_eq!(derive(r#"{"photos": {}}"#), Err(ManifestError::NoPhotosArray));
    assert_eq!(
        derive(r#"{"photos": [1]}"#),
        Err(ManifestError::PhotoNotAnObject)
    );
    assert_eq!(
        derive(r#"{"photos": [{}]}"#),
        Err(ManifestError::MissingPreview)
    );
    assert_eq!(
        derive(r#"{"photos": [{"preview": []}]}"#),
        Err(ManifestError::AssetNotAnObject)
    );
    assert_eq!(
        derive(r#"{"photos": [{"preview": {"url": 1}}]}"#),
        Err(ManifestError::UrlNotText)
    );
    assert_eq!(
        derive(r#"{"photos": [{"preview": {"url": "x.jpg"}}]}"#),
        Err(ManifestError::InvalidUrl(PublicationPathError::OutsidePhotos))
    );
    assert_eq!(derive(r#"{ "photos": [] }"#), Ok(r#"{"photos":[]}"#.to_owned()));
    assert_eq!(
        derive(r#"{"z": [1.5, null, true], "photos": [], "a": "é"}"#),
        Ok(r#"{"a":"é","photos":[],"z":[1.5,null,true]}"#.to_owned())
    );
}

fn template_bundle() -> ApplicationBundle {
    ApplicationBundle::from_files(vec![
        ("assets/app.js".to_owned(), b"app".to_vec()),
        ("index.html".to_owned(), b"index".to_vec()),
    ])
    .unwrap()
}

fn derived_manifest() -> PublicGalleryManifest {
    PublicGalleryManifest::derive(&local_bytes(), &configuration()).unwrap()
}

#[test]
fn composition_inserts_gallery_json_at_the_bundle_root() {
    let manifest = derived_manifest();
    let bundle = compose_application_bundle(&template_bundle(), &manifest, true).unwrap();

    let names: Vec<_> = bundle
        .files()
        .iter()
        .map(|file| file.path().as_str())
        .collect();
    assert_eq!(names, vec!["assets/app.js", "gallery.json", "index.html"]);
}

#[test]
fn composition_replaces_a_template_gallery_json() {
    let template = ApplicationBundle::from_files(vec![
        ("gallery.json".to_owned(), b"template placeholder".to_vec()),
        ("index.html".to_owned(), b"index".to_vec()),
    ])
    .unwrap();
    let manifest = derived_manifest();
    let bundle = compose_application_bundle(&template, &manifest, true).unwrap();

    // Exactly one gallery.json survives: the public manifest.
    let members: Vec<_> = bundle
        .files()
        .iter()
        .filter(|file| file.path().as_str() == "gallery.json")
        .collect();
    assert_eq!(members.len(), 1);
    assert_eq!(members[0].content(), manifest.bytes());
}

#[test]
fn composition_validates_before_composing() {
    // An invalid manifest (duplicate ids) does not enter the bundle and does
    // not change the template.
    let mut local = local_manifest();
    local["photos"][1]["id"] = text("photo-1");
    let manifest =
        PublicGalleryManifest::derive(&serde_json::to_vec(&local).unwrap(), &configuration())
            .unwrap();
    let template = template_bundle();
    assert_eq!(
        compose_application_bundle(&template, &manifest, false),
        Err(ComposeError::InvalidManifest)
    );
    assert_eq!(template, template_bundle());
}

#[test]
fn bundle_fingerprint_covers_the_public_manifest() {
    let template = template_bundle();
    let manifest = derived_manifest();
    let composed = compose_application_bundle(&template, &manifest, true).unwrap();
    assert_ne!(template.fingerprint(), composed.fingerprint());

    // A G2-style change in the manifest changes the fingerprint.
    let mut g2_local = local_manifest();
    g2_local["photos"].as_array_mut().unwrap().remove(1);
    let manifest2 =
        PublicGalleryManifest::derive(&serde_json::to_vec(&g2_local).unwrap(), &configuration())
            .unwrap();
    let composed2 = compose_application_bundle(&template, &manifest2, true).unwrap();
    assert_ne!(manifest.sha256(), manifest2.sha256());
    assert_ne!(composed.fingerprint(), composed2.fingerprint());

    // Same inputs: exactly the same fingerprint (determinism).
    let recomposed = compose_application_bundle(&template, &derived_manifest(), true).unwrap();
    assert_eq!(composed, recomposed);
}

#[test]
fn github_and_bundle_share_the_same_gallery_json_bytes_and_sha() {
    let manifest = derived_manifest();
    let bundle = compose_application_bundle(&template_bundle(), &manifest, true).unwrap();
    let member = bundle
        .files()
        .iter()
        .find(|file| file.path().as_str() == "gallery.json")
        .unwrap();

    // The bundle member IS the manifest: the same bytes, and therefore
    // the same sha256 that a repository desired entry records.
    assert_eq!(member.content(), manifest.bytes());
    assert_eq!(
        format!("{:x}", Sha256::digest(member.content())),
        manifest.sha256()
    );
}

#[test]
fn manifests_do_not_depend_on_layout_or_trailing_slashes() {
    let manifest = PublicGalleryManifest::derive(&local_bytes(), &configuration()).unwrap();
    let compact = serde_json::to_vec(&local_manifest()).unwrap();
    assert_ne!(compact, local_bytes());
    assert_eq!(
        PublicGalleryManifest::derive(&compact, &configuration()).unwrap(),
        manifest
    );
    let mut unslashed = configuration();
    unslashed.preview_public_base_url =
        PublicBaseUrl::parse("https://cdn.example.com/previews").unwrap();
    unslashed.preview_prefix = None;
    unslashed.high_resolution_prefix = None;
    assert_eq!(
        PublicGalleryManifest::derive(&local_bytes(), &unslashed).unwrap(),
        manifest
    );
}

#[test]
fn manifests_keep_negative_integers() {
    let local = br#"{"photos": [], "offset": -7, "count": 7, "least": -9223372036854775808}"#;
    let manifest = PublicGalleryManifest::derive(local, &configuration()).unwrap();
    assert_eq!(
        serde_json::from_slice::<Value>(manifest.bytes()).unwrap(),
        serde_json::from_slice::<Value>(local).unwrap()
    );
}
