use vstd::prelude::*;
use crate::dispatch::{RemoteError, Target, TargetView};
use crate::label::{copy_string, opt_view};

verus! {

/// Why the repositories to reconcile could not be determined.
#[derive(Debug, Clone, PartialEq, Eq)]
pub enum TargetResolutionError {
    /// The repositories of the owner could not be listed.
    ListingFailed(RemoteError),
    /// The repository has no remote URL.
    NoRemoteUrl,
    /// The local repository or its `origin` remote could not be found; the
    /// message says why.
    NoRepository(String),
    /// The remote URL is one that the URL parser cannot read without
    /// panicking.
    UnsupportedRemoteUrl,
    /// The remote URL could not be parsed; the parser's message.
    UnparsableRemoteUrl(String),
    /// The local repository directory does not exist, is not valid text, or
    /// has no last component; a message that says which.
    InvalidRepositoryPath(String),
    /// No owner name or organization was found.
    NoOwner,
}

/// The scheme, path and host (where it has one) of a remote URL as the URL
/// parser normalizes it before reading it; `None` where it rejects the URL.
pub uninterp spec fn normalized_url_parts(url: Seq<char>) -> Option<
    (Seq<char>, Seq<char>, Option<Seq<char>>),
>;

/// Relies on `git_url_parse::normalize_url`, for the scheme, path and host of
/// the URL it builds, or that it fails.
#[verifier::external_body]
fn normalize_git_url(url: &str) -> (r: Option<(String, String, Option<String>)>)
    ensures
        r is Some <==> normalized_url_parts(url@) is Some,
        r matches Some((s, p, h)) ==> normalized_url_parts(url@) == Some((s@, p@, opt_view(h))),
{
    match git_url_parse::normalize_url(url) {
        Ok(u) => Some((u.scheme().to_string(), u.path().to_string(), u.host_str().map(String::from))),
        Err(_) => None,
    }
}

/// The schemes the URL parser knows.
pub open spec fn known_scheme(s: Seq<char>) -> bool {
    ||| s == "file"@
    ||| s == "ftp"@
    ||| s == "ftps"@
    ||| s == "git"@
    ||| s == "git+ssh"@
    ||| s == "http"@
    ||| s == "https"@
    ||| s == "ssh"@
    ||| s == "unspecified"@
}

/// The hosts that the URL parser reads an organization from in the path.
pub open spec fn org_host(h: Seq<char>) -> bool {
    h == "dev.azure.com"@ || h == "ssh.dev.azure.com"@
}

/// The number of `/` in `p`.
pub open spec fn slash_count(p: Seq<char>) -> nat
    decreases p.len(),
{
    if p.len() == 0 {
        0
    } else {
        slash_count(p.drop_last()) + if p.last() == '/' {
            1nat
        } else {
            0nat
        }
    }
}

proof fn lemma_slash_count_bound(p: Seq<char>)
    ensures
        slash_count(p) <= p.len(),
    decreases p.len(),
{
    if p.len() > 0 {
        lemma_slash_count_bound(p.drop_last());
    }
}

/// The number of pieces of `p` split at `/`, a trailing empty piece left out.
pub open spec fn segment_count(p: Seq<char>) -> nat {
    if p.len() == 0 {
        0
    } else if p.last() == '/' {
        slash_count(p)
    } else {
        slash_count(p) + 1
    }
}

/// The URL parser panics on a URL that normalizes to these parts: with the
/// `ssh` scheme it drops the first byte of the path and indexes the first
/// piece of what is left, and for an organization host it indexes the third
/// (`ssh`) or fourth (`https`) piece of the path.
pub open spec fn parse_panics(parts: Option<(Seq<char>, Seq<char>, Option<Seq<char>>)>) -> bool {
    match parts {
        None => false,
        Some((s, p, h)) => {
            &&& known_scheme(s)
            &&& p.len() > 0
            &&& {
                let rest = if s == "ssh"@ {
                    p.drop_first()
                } else {
                    p
                };
                ||| s == "ssh"@ && !((p[0] as u32) < 128)
                ||| rest.len() == 0
                ||| s != "file"@ && h is Some && org_host(h->0) && (s == "ssh"@
                    && segment_count(rest) < 3 || s == "https"@ && segment_count(rest) < 4)
            }
        },
    }
}

/// The repository name and, where the URL has one, the owner that the URL
/// parser reads from a remote URL; `None` where it rejects the URL.
pub uninterp spec fn git_url_parts(url: Seq<char>) -> Option<(Seq<char>, Option<Seq<char>>)>;

/// The error of the URL parser.
#[verifier::external_type_specification]
#[verifier::external_body]
pub struct ExGitUrlParseError(git_url_parse::GitUrlParseError);

/// Relies on `git_url_parse::GitUrl::parse`, for the `name` and `owner` it
/// reads from a remote URL, or its error. It first normalizes the URL with
/// `normalize_url`, and panics exactly where `parse_panics` holds of the
/// parts of the normalized URL, so those URLs are kept out.
#[verifier::external_body]
fn parse_git_url(url: &str) -> (r: Result<
    (String, Option<String>),
    git_url_parse::GitUrlParseError,
>)
    requires
        !parse_panics(normalized_url_parts(url@)),
    ensures
        r is Ok <==> git_url_parts(url@) is Some,
        r matches Ok((n, o)) ==> git_url_parts(url@) == Some((n@, opt_view(o))),
{
    match git_url_parse::GitUrl::parse(url) {
        Ok(p) => Ok((p.name, p.owner)),
        Err(e) => Err(e),
    }
}

fn str_eq(a: &String, b: &str) -> (r: bool)
    ensures
        r == (a@ == b@),
{
    *a == String::from_str(b)
}

/// The number of pieces of a path split at `/`, a trailing empty piece left
/// out.
pub fn path_segments(p: &str) -> (r: usize)
    ensures
        r == segment_count(p@),
{
    let n = p.unicode_len();
    let mut count: usize = 0;
    let mut i: usize = 0;
    while i < n
        invariant
            n == p@.len(),
            i <= n,
            count == slash_count(p@.take(i as int)),
            count <= i,
        decreases n - i,
    {
        assert(p@.take(i + 1).drop_last() =~= p@.take(i as int));
        if p.get_char(i) == '/' {
            count = count + 1;
        }
        i = i + 1;
    }
    assert(p@.take(n as int) =~= p@);
    if n == 0 {
        0
    } else if p.get_char(n - 1) == '/' {
        count
    } else {
        proof {
            lemma_slash_count_bound(p@.drop_last());
        }
        count + 1
    }
}

/// Tells whether the URL parser panics on a URL that normalizes to the
/// given scheme, path and host.
pub fn url_parse_panics(parts: &Option<(String, String, Option<String>)>) -> (r: bool)
    ensures
        r == parse_panics(
            match parts {
                Some((s, p, h)) => Some((s@, p@, opt_view(*h))),
                None => None,
            },
        ),
{
    match parts {
        None => false,
        Some((s, p, h)) => {
            let known = str_eq(s, "file") || str_eq(s, "ftp") || str_eq(s, "ftps") || str_eq(
                s,
                "git",
            ) || str_eq(s, "git+ssh") || str_eq(s, "http") || str_eq(s, "https") || str_eq(
                s,
                "ssh",
            ) || str_eq(s, "unspecified");
            let n = p.as_str().unicode_len();
            if !known || n == 0 {
                return false;
            }
            let ssh = str_eq(s, "ssh");
            if ssh && !((p.as_str().get_char(0) as u32) < 128) {
                return true;
            }
            let rest = if ssh {
                p.as_str().substring_char(1, n)
            } else {
                p.as_str()
            };
            proof {
                if ssh {
                    assert(rest@ =~= p@.drop_first());
                }
            }
            if rest.unicode_len() == 0 {
                return true;
            }
            if str_eq(s, "file") {
                return false;
            }
            match h {
                None => false,
                Some(host) => {
                    if !(str_eq(host, "dev.azure.com") || str_eq(host, "ssh.dev.azure.com")) {
                        return false;
                    }
                    let pieces = path_segments(rest);
                    (ssh && pieces < 3) || (str_eq(s, "https") && pieces < 4)
                },
            }
        },
    }
}

/// The repository name and owner read from the remote URL of a local
/// repository, where it has one.
pub fn get_repo_info_from_remote(url: Option<String>) -> (r: Result<
    (String, Option<String>),
    TargetResolutionError,
>)
    ensures
        url is None ==> r matches Err(TargetResolutionError::NoRemoteUrl),
        url matches Some(u) ==> {
            if parse_panics(normalized_url_parts(u@)) {
                r matches Err(TargetResolutionError::UnsupportedRemoteUrl)
            } else {
                match git_url_parts(u@) {
                    Some(parts) => r matches Ok((n, o)) && parts == (n@, opt_view(o)),
                    None => r matches Err(TargetResolutionError::UnparsableRemoteUrl(_)),
                }
            }
        },
{
    match url {
        None => Err(TargetResolutionError::NoRemoteUrl),
        Some(u) => {
            let parts = normalize_git_url(u.as_str());
            if url_parse_panics(&parts) {
                Err(TargetResolutionError::UnsupportedRemoteUrl)
            } else {
                match parse_git_url(u.as_str()) {
                    Ok(parts) => Ok(parts),
                    Err(e) => Err(TargetResolutionError::UnparsableRemoteUrl(e.to_string())),
                }
            }
        },
    }
}

/// The first of two values that is present.
pub fn first_present(first: Option<String>, second: Option<String>) -> (r: Option<String>)
    ensures
        r == (if first is Some {
            first
        } else {
            second
        }),
{
    match first {
        Some(v) => Some(v),
        None => second,
    }
}

/// The repository name and owner name, by precedence. What the remote URL
/// gives comes first. Where it cannot be read, the repository is named after
/// its directory, and the owner is the user from the environment, else the
/// owner given. Where no owner is known so far, the organization from the
/// environment stands in, else the organization given; otherwise it fails.
pub fn infer_repo_info(
    from_remote: Result<(String, Option<String>), TargetResolutionError>,
    directory_name: Result<String, TargetResolutionError>,
    env_user: Option<String>,
    owner: Option<String>,
    env_organization: Option<String>,
    organization: Option<String>,
) -> (r: Result<(String, String), TargetResolutionError>)
    ensures
        ({
            let base: Result<(String, Option<String>), TargetResolutionError> = match from_remote {
                Ok(info) => Ok(info),
                Err(_) => match directory_name {
                    Ok(d) => Ok(
                        (
                            d,
                            if env_user is Some {
                                env_user
                            } else {
                                owner
                            },
                        ),
                    ),
                    Err(e) => Err(e),
                },
            };
            match base {
                Err(e) => r == Err::<(String, String), TargetResolutionError>(e),
                Ok((repo, Some(o))) => r == Ok::<(String, String), TargetResolutionError>((repo, o)),
                Ok((repo, None)) => match (env_organization, organization) {
                    (Some(o), _) => r == Ok::<(String, String), TargetResolutionError>((repo, o)),
                    (None, Some(o)) => r == Ok::<(String, String), TargetResolutionError>(
                        (repo, o),
                    ),
                    (None, None) => r matches Err(TargetResolutionError::NoOwner),
                },
            }
        }),
{
    let (repository, found_owner) = match from_remote {
        Ok(info) => info,
        Err(_) => match directory_name {
            Ok(d) => (d, first_present(env_user, owner)),
            Err(e) => {
                return Err(e);
            },
        },
    };
    match found_owner {
        Some(o) => Ok((repository, o)),
        None => match first_present(env_organization, organization) {
            Some(o) => Ok((repository, o)),
            None => Err(TargetResolutionError::NoOwner),
        },
    }
}

/// The one repository named.
pub fn single_target(owner: &String, repository: &String) -> (r: Vec<Target>)
    ensures
        r@.len() == 1,
        r@[0]@ == (TargetView { owner: owner@, repository: repository@ }),
{
    let mut out: Vec<Target> = Vec::new();
    out.push(Target::new(copy_string(owner), copy_string(repository)));
    out
}

/// Every repository of the owner, in the order the service listed them; a
/// failed listing fails the whole run.
pub fn owner_targets(owner: &String, listing: Result<Vec<String>, RemoteError>) -> (r: Result<
    Vec<Target>,
    TargetResolutionError,
>)
    ensures
        listing matches Err(e) ==> r matches Err(TargetResolutionError::ListingFailed(c)) && c
            == e,
        listing matches Ok(names) ==> r matches Ok(ts) && ts@.len() == names@.len() && forall|
            i: int,
        |
            0 <= i < names@.len() ==> #[trigger] ts@[i]@ == (TargetView {
                owner: owner@,
                repository: names@[i]@,
            }),
{
    match listing {
        Err(e) => Err(TargetResolutionError::ListingFailed(e)),
        Ok(names) => {
            let mut out: Vec<Target> = Vec::new();
            let mut i: usize = 0;
            while i < names.len()
                invariant
                    i <= names.len(),
                    out@.len() == i,
                    forall|j: int|
                        0 <= j < i ==> #[trigger] out@[j]@ == (TargetView {
                            owner: owner@,
                            repository: names@[j]@,
                        }),
                decreases names.len() - i,
            {
                out.push(Target::new(copy_string(owner), copy_string(&names[i])));
                i = i + 1;
            }
            Ok(out)
        },
    }
}

} // verus!
