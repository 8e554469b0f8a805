use petridish::repository::{try_new_repo, Auth, Git, Repo, Repository, StrMap};

#[test]
fn test_normal_git_repo() {
    let uri = "http://abc/hello.git";
    let repo = Git::try_new(uri.into(), StrMap::new()).unwrap();
    assert_eq!(
        repo,
        Git {
            name: "hello".to_string(),
            uri: "http://abc/hello.git".into(),
            branch: None,
            auth: None
        }
    );
}

#[test]
fn test_git_repo_with_specified_branch() {
    let uri = "http://abc/hello.git";
    let mut context = StrMap::new();
    context.insert("branch".to_string(), "dev".to_string());
    let repo = Git::try_new(uri.into(), context).unwrap();
    assert_eq!(
        repo,
        Git {
            uri: "http://abc/hello.git".into(),
            branch: Some("dev".into()),
            auth: None,
            name: "hello".to_string(),
        }
    );
}

#[test]
fn test_git_repo_with_auth() {
    let uri = "http://abc/hello.git";
    let mut context = StrMap::new();
    context.insert("username".to_string(), "user1".to_string());
    context.insert("password".to_string(), "abc".to_string());
    let repo = Git::try_new(uri.into(), context).unwrap();
    assert_eq!(
        repo,
        Git {
            uri: "http://abc/hello.git".into(),
            branch: None,
            auth: Some(Auth {
                username: "user1".into(),
                password: "abc".into()
            }),
            name: "hello".to_string(),
        }
    );
}

#[test]
fn test_invalid_git_repo() {
    let uri = "httpx://abc/hello.git";
    let err = Git::try_new(uri.into(), StrMap::new()).err().unwrap();
    assert_eq!(err.message(), "invalid git repo: httpx://abc/hello.git");
}

#[test]
fn test_github() {
    let url = "gh:rust-lang/rust";
    let repo = Git::try_new(url.into(), StrMap::new()).unwrap();
    assert_eq!(
        repo,
        Git {
            name: "rust".to_string(),
            uri: "https://github.com/rust-lang/rust.git".into(),
            branch: None,
            auth: None
        }
    );
}

#[test]
fn test_github_with_suffix() {
    let uri = "gh:rust-lang/rust";
    let repo = Git::try_new(uri.into(), StrMap::new()).unwrap();
    assert_eq!(
        repo,
        Git {
            name: "rust".to_string(),
            uri: "https://github.com/rust-lang/rust.git".into(),
            branch: None,
            auth: None
        }
    );
}

#[test]
fn test_https_github() {
    let uri = "gh+https:rust-lang/rust";
    let repo = Git::try_new(uri.into(), StrMap::new()).unwrap();
    assert_eq!(
        repo,
        Git {
            name: "rust".to_string(),
            uri: "https://github.com/rust-lang/rust.git".into(),
            branch: None,
            auth: None
        }
    );
}

#[test]
fn test_http_github() {
    let uri = "gh+http:rust-lang/rust";
    let repo = Git::try_new(uri.into(), StrMap::new()).unwrap();
    assert_eq!(
        repo,
        Git {
            name: "rust".to_string(),
            uri: "http://github.com/rust-lang/rust.git".into(),
            branch: None,
            auth: None
        }
    );
}

#[test]
fn test_ssh_github() {
    let uri = "gh+ssh:rust-lang/rust";
    let repo = Git::try_new(uri.into(), StrMap::new()).unwrap();
    assert_eq!(
        repo,
        Git {
            name: "rust".to_string(),
            uri: "git@github.com:rust-lang/rust.git".into(),
            branch: None,
            auth: None
        }
    );
}

#[test]
fn test_gitlab() {
    let uri = "gl:rust-lang/rust";
    let repo = Git::try_new(uri.into(), StrMap::new()).unwrap();
    assert_eq!(
        repo,
        Git {
            name: "rust".to_string(),
            uri: "https://gitlab.com/rust-lang/rust.git".into(),
            branch: None,
            auth: None
        }
    );
}

#[test]
fn test_https_gitlab() {
    let uri = "gl+https:rust-lang/rust";
    let repo = Git::try_new(uri.into(), StrMap::new()).unwrap();
    assert_eq!(
        repo,
        Git {
            name: "rust".to_string(),
            uri: "https://gitlab.com/rust-lang/rust.git".into(),
            branch: None,
            auth: None
        }
    );
}

#[test]
fn test_http_gitlab() {
    let uri = "gl+http:rust-lang/rust";
    let repo = Git::try_new(uri.into(), StrMap::new()).unwrap();
    assert_eq!(
        repo,
        Git {
            name: "rust".to_string(),
            uri: "http://gitlab.com/rust-lang/rust.git".into(),
            branch: None,
            auth: None
        }
    );
}

#[test]
fn test_ssh_gitlab() {
    let uri = "gl+ssh:rust-lang/rust";
    let repo = Git::try_new(uri.into(), StrMap::new()).unwrap();
    assert_eq!(
        repo,
        Git {
            name: "rust".to_string(),
            uri: "git@gitlab.com:rust-lang/rust.git".into(),
            branch: None,
            auth: None
        }
    );
}

#[test]
fn test_override_git_provider() {
    let uri = "gl+ssh:rust-lang/rust";
    let mut context = StrMap::new();
    context.insert("gl_provider".to_string(), "gitlab.cn.com".to_string());
    let repo = Git::try_new(uri.into(), context).unwrap();
    assert_eq!(
        repo,
        Git {
            name: "rust".to_string(),
            uri: "git@gitlab.cn.com:rust-lang/rust.git".into(),
            branch: None,
            auth: None
        }
    );
}

#[test]
fn test_auth_missing_password() {
    let mut context = StrMap::new();
    context.insert("username".to_string(), "user1".to_string());
    let err = Git::try_new("http://abc/hello.git".into(), context)
        .err()
        .unwrap();
    assert_eq!(err.message(), "git `password` is not provided");
}

#[test]
fn test_auth_missing_username() {
    let mut context = StrMap::new();
    context.insert("password".to_string(), "abc".to_string());
    let err = Git::try_new("http://abc/hello.git".into(), context)
        .err()
        .unwrap();
    assert_eq!(err.message(), "git `username` is not provided");
}

#[test]
fn test_invalid_alias_repo() {
    let err = Git::try_new("gh+ftp:rust-lang/rust".into(), StrMap::new())
        .err()
        .unwrap();
    assert_eq!(
        err.message(),
        "invalid alias `github` repo: gh+ftp:rust-lang/rust"
    );
}

#[test]
fn test_try_new_repo_local_path() {
    let repo = try_new_repo("/some/dir/templates".to_string(), StrMap::new()).unwrap();
    match &repo {
        Repo::Local(_) => {}
        Repo::Git(_) => panic!("a plain path must become a local repository"),
    }
    assert_eq!(repo.name(), "templates");
    assert!(!repo.need_cache());
}

#[test]
fn test_try_new_repo_git() {
    let repo = try_new_repo("gh:rust-lang/rust".to_string(), StrMap::new()).unwrap();
    match &repo {
        Repo::Git(_) => {}
        Repo::Local(_) => panic!("a gh alias must become a git repository"),
    }
    assert_eq!(repo.name(), "rust");
    assert!(repo.need_cache());
}
