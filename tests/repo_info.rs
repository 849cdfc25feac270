use labelr::cli::Opts;
use labelr::dispatch::{RemoteError, Target};
use labelr::plan::SyncMode;
use labelr::target::{
    first_present, get_repo_info_from_remote, infer_repo_info, owner_targets, path_segments,
    single_target, url_parse_panics, TargetResolutionError,
};

fn s(v: &str) -> String {
    v.to_string()
}

#[test]
fn remote_url_gives_name_and_owner() {
    let r = get_repo_info_from_remote(Some(s("https://github.com/rgreinho/labelr-rs.git")));
    assert_eq!(r, Ok((s("labelr-rs"), Some(s("rgreinho")))));
    let r = get_repo_info_from_remote(Some(s("git@github.com:rgreinho/labelr-rs.git")));
    assert_eq!(r, Ok((s("labelr-rs"), Some(s("rgreinho")))));
}

#[test]
fn remote_url_with_query_escape_or_org_host_is_read() {
    let r = get_repo_info_from_remote(Some(s("https://github.com/o/r?x")));
    assert_eq!(r, Ok((s("r"), Some(s("o")))));
    let r = get_repo_info_from_remote(Some(s("https://github.com/a%20b/c")));
    assert_eq!(r, Ok((s("c"), Some(s("a%20b")))));
    let r = get_repo_info_from_remote(Some(s("https://github.com/o/r\u{e9}po")));
    assert!(matches!(r, Ok((_, Some(ref o))) if o == "o"));
    let r = get_repo_info_from_remote(Some(s("https://dev.azure.com/org/project/_git/repo")));
    assert_eq!(r, Ok((s("repo"), Some(s("project")))));
    let r = get_repo_info_from_remote(Some(s("git@ssh.dev.azure.com:v3/org/project/repo")));
    assert_eq!(r, Ok((s("repo"), Some(s("project")))));
}

#[test]
fn remote_url_errors() {
    assert_eq!(get_repo_info_from_remote(None), Err(TargetResolutionError::NoRemoteUrl));
    assert!(matches!(
        get_repo_info_from_remote(Some(s("https://github.com"))),
        Err(TargetResolutionError::UnparsableRemoteUrl(_))
    ));
    for url in ["ssh:a", "ssh://h/. ", "https://dev.azure.com/org/repo"] {
        assert_eq!(
            get_repo_info_from_remote(Some(s(url))),
            Err(TargetResolutionError::UnsupportedRemoteUrl),
            "{}",
            url
        );
    }
}

#[test]
fn parse_panic_conditions() {
    let parts = |sc: &str, p: &str, h: Option<&str>| Some((s(sc), s(p), h.map(s)));
    assert!(!url_parse_panics(&None));
    assert!(url_parse_panics(&parts("ssh", "a", None)));
    assert!(url_parse_panics(&parts("ssh", "/", Some("h"))));
    assert!(!url_parse_panics(&parts("ssh", "/o/r", Some("h"))));
    assert!(!url_parse_panics(&parts("ssh", "", Some("h"))));
    assert!(!url_parse_panics(&parts("https", "/", Some("github.com"))));
    assert!(url_parse_panics(&parts("https", "/org/repo", Some("dev.azure.com"))));
    assert!(!url_parse_panics(&parts("https", "/org/p/_git/repo", Some("dev.azure.com"))));
    assert!(url_parse_panics(&parts("ssh", "/v3/o/", Some("ssh.dev.azure.com"))));
    assert!(!url_parse_panics(&parts("ssh", "/v3/o/r", Some("ssh.dev.azure.com"))));
    assert!(!url_parse_panics(&parts("git", "/o", Some("dev.azure.com"))));
    assert!(!url_parse_panics(&parts("file", "/", None)));
    assert!(!url_parse_panics(&parts("mailto", "/", None)));
}

#[test]
fn path_pieces() {
    assert_eq!(path_segments(""), 0);
    assert_eq!(path_segments("/"), 1);
    assert_eq!(path_segments("a"), 1);
    assert_eq!(path_segments("a/b/"), 2);
    assert_eq!(path_segments("/org/p/_git/repo"), 5);
}

#[test]
fn remote_info_wins() {
    let r = infer_repo_info(
        Ok((s("repo"), Some(s("remote-owner")))),
        Ok(s("dir")),
        Some(s("env-user")),
        Some(s("owner")),
        Some(s("env-org")),
        Some(s("org")),
    );
    assert_eq!(r, Ok((s("repo"), s("remote-owner"))));
}

#[test]
fn remote_without_owner_falls_to_organization() {
    let r = infer_repo_info(
        Ok((s("repo"), None)),
        Ok(s("dir")),
        Some(s("env-user")),
        Some(s("owner")),
        None,
        Some(s("org")),
    );
    assert_eq!(r, Ok((s("repo"), s("org"))));
}

#[test]
fn directory_and_environment_fallbacks() {
    let no_remote = || Err(TargetResolutionError::NoRemoteUrl);
    let r = infer_repo_info(no_remote(), Ok(s("dir")), Some(s("env-user")), Some(s("owner")), None, None);
    assert_eq!(r, Ok((s("dir"), s("env-user"))));
    let r = infer_repo_info(no_remote(), Ok(s("dir")), None, Some(s("owner")), None, None);
    assert_eq!(r, Ok((s("dir"), s("owner"))));
    let r = infer_repo_info(no_remote(), Ok(s("dir")), None, None, Some(s("env-org")), Some(s("org")));
    assert_eq!(r, Ok((s("dir"), s("env-org"))));
    let r = infer_repo_info(no_remote(), Ok(s("dir")), None, None, None, None);
    assert_eq!(r, Err(TargetResolutionError::NoOwner));
    let bad = TargetResolutionError::InvalidRepositoryPath(s("missing"));
    let r = infer_repo_info(no_remote(), Err(bad.clone()), Some(s("u")), None, None, None);
    assert_eq!(r, Err(bad));
}

#[test]
fn first_present_prefers_first() {
    assert_eq!(first_present(Some(s("a")), Some(s("b"))), Some(s("a")));
    assert_eq!(first_present(None, Some(s("b"))), Some(s("b")));
    assert_eq!(first_present(None, None), None);
}

#[test]
fn targets_of_owner_and_single() {
    let t = single_target(&s("o"), &s("r"));
    assert_eq!(t, vec![Target::new(s("o"), s("r"))]);
    let t = owner_targets(&s("o"), Ok(vec![s("a"), s("b")]));
    assert_eq!(t, Ok(vec![Target::new(s("o"), s("a")), Target::new(s("o"), s("b"))]));
    let e = RemoteError { message: s("boom") };
    assert_eq!(owner_targets(&s("o"), Err(e.clone())), Err(TargetResolutionError::ListingFailed(e)));
    assert_eq!(owner_targets(&s("o"), Ok(vec![])), Ok(vec![]));
}

#[test]
fn options_select_mode() {
    let mut o = Opts {
        verbose: 0,
        organization: None,
        owner: None,
        repository: s("."),
        token: s("t"),
        sync: false,
        org: false,
        file: s("labels.yml"),
        update_existing: true,
    };
    assert_eq!(o.mode(), SyncMode::Incremental { update_existing: true });
    o.sync = true;
    assert_eq!(o.mode(), SyncMode::FullSync);
}
