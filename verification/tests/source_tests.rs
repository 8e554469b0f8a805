use petridish::source::{new_source, GitSource, Source, SourceStatus, TemplateSource};
use tempdir::TempDir;

#[test]
fn it_new_source() {
    let template = TempDir::new("template").unwrap();
    let template = template.path().as_os_str().to_str().unwrap();
    let source = new_source(template).unwrap();

    assert_eq!(source.get_template().unwrap(), template.to_string());
}

#[test]
fn it_new_source_failed() {
    let err = new_source("/a/b/c").err().unwrap();
    assert_eq!(err.message(), "Template dir '/a/b/c' does not exist");
}

#[test]
fn it_source_config_not_exists() {
    let template = TempDir::new("template").unwrap();
    let template_path = &template.path().as_os_str().to_str().unwrap();
    let source = new_source(template_path).unwrap();
    let err = source.get_config().err().unwrap();
    assert_eq!(
        err.message(),
        format!("Config '{}/petridish.yaml' does not exist", template_path)
    );
}

#[test]
fn git_uri_becomes_git_source() {
    let source = new_source("https://abc/hello.git").unwrap();
    match &source {
        Source::Git(g) => assert_eq!(g.git_uri, "https://abc/hello.git"),
        Source::Dir(_) => panic!("a git URI must become a git source"),
    }
}

#[test]
fn git_source_md5_is_hex_digest_of_uri() {
    let source = new_source("https://abc/hello.git").unwrap();
    let expected = format!("{:x}", md5::compute("https://abc/hello.git"));
    assert_eq!(source.get_md5(), expected);
    assert_eq!(source.get_md5().len(), 32);
}

#[test]
fn git_source_status_decisions() {
    let g = match new_source("https://abc/hello.git").unwrap() {
        Source::Git(g) => g,
        _ => panic!("expected a git source"),
    };
    assert_eq!(g.status_from(false, "a", "a"), SourceStatus::NotExists);
    assert_eq!(g.status_from(true, "a", "b"), SourceStatus::OutOfDate);
    assert_eq!(g.status_from(true, "a", "a"), SourceStatus::Latest);
    let _ = GitSource::new("https://abc/hello.git").unwrap();
}
