//! Template sources: a local directory, or a git repository cached under a
//! digest of its URI.
//!
//! Cloning, fetching and pulling are subprocess I/O and live with the caller;
//! this module owns where a source is cached, which configuration file it
//! carries, and what the freshness of a cached git source means.

use vstd::prelude::*;

use crate::cache::path_exists;
use crate::strutil::{concat2, concat3, is_prefix, is_suffix, ends_with, starts_with,
    str_eq, to_owned_string};

verus! {

/// What the md5 digest of a string formats to in lowercase hex; a function of
/// the input alone.
pub uninterp spec fn md5_hex_of(s: Seq<char>) -> Seq<char>;

/// Relies on md5::compute: the digest of the input's bytes, written in
/// lowercase hex; it depends on the input alone.
#[verifier::external_body]
fn md5_hex(s: &str) -> (r: String)
    ensures
        r@ == md5_hex_of(s@),
{
    format!("{:x}", md5::compute(s))
}

/// What can go wrong while resolving a template source.
#[derive(Debug)]
pub enum SourceError {
    /// The given template directory does not exist.
    DirNotExists(String),
    /// The template carries no `petridish.yaml`/`petridish.yml`; the payload
    /// is the template directory probed.
    ConfigNotExists(String),
    /// Refreshing the template failed; the URI and the underlying report.
    UpdateTemplateFailed(String, String),
}

impl SourceError {
    /// The human-readable description of the error, character by character.
    pub open spec fn message_spec(&self) -> Seq<char> {
        match self {
            SourceError::DirNotExists(dir) => "Template dir '"@ + dir@ + "' does not exist"@,
            SourceError::ConfigNotExists(dir) => "Config '"@ + dir@
                + "/petridish.yaml' does not exist"@,
            SourceError::UpdateTemplateFailed(uri, detail) => "Update template '"@ + uri@
                + "' failed: "@ + detail@,
        }
    }

    /// Renders the error as a human-readable message.
    pub fn message(&self) -> (r: String)
        ensures
            r@ == self.message_spec(),
    {
        match self {
            SourceError::DirNotExists(dir) => concat3(
                "Template dir '",
                dir.as_str(),
                "' does not exist",
            ),
            SourceError::ConfigNotExists(dir) => concat3(
                "Config '",
                dir.as_str(),
                "/petridish.yaml' does not exist",
            ),
            SourceError::UpdateTemplateFailed(uri, detail) => concat3(
                "Update template '",
                uri.as_str(),
                "' failed: ",
            ).concat(detail.as_str()),
        }
    }
}

/// How a cached source relates to its origin.
#[derive(Debug, PartialEq, Eq, Structural)]
pub enum SourceStatus {
    NotExists,
    OutOfDate,
    Latest,
}

/// The directory under which git sources are cached: the user's platform
/// cache directory plus `petridish/templates`, when the platform defines one.
pub fn templates_cache_dir() -> (r: Option<String>)
    ensures
        r is Some ==> is_suffix(r->0@, "/petridish/templates"@),
{
    match crate::cache::user_cache_root() {
        None => None,
        Some(root) => {
            let d = concat2(root.as_str(), "/petridish/templates");
            proof {
                assert(d@.subrange(
                    d@.len() - "/petridish/templates"@.len(),
                    d@.len() as int,
                ) =~= "/petridish/templates"@);
            }
            Some(d)
        },
    }
}

/// Probes a template directory for its configuration file: first
/// `petridish.yaml`, then `petridish.yml`.
pub fn find_config(template: &str) -> (r: Result<String, SourceError>)
    ensures
        match r {
            Ok(p) => p@ == template@ + "/petridish.yaml"@ || p@ == template@ + "/petridish.yml"@,
            Err(e) => e matches SourceError::ConfigNotExists(t) && t@ == template@,
        },
{
    let yaml = concat2(template, "/petridish.yaml");
    if path_exists(yaml.as_str()) {
        return Ok(yaml);
    }
    let yml = concat2(template, "/petridish.yml");
    if path_exists(yml.as_str()) {
        return Ok(yml);
    }
    Err(SourceError::ConfigNotExists(to_owned_string(template)))
}

/// What a template source tells its caller: where its tree lives, its cache
/// key, and where its configuration file is. Refreshing a cached git source
/// (fetch, clone, pull) is subprocess work and lives with the caller, which
/// feeds the outcome back through `GitSource::status_from`.
pub trait TemplateSource {
    /// The digest key under which this source is cached.
    spec fn md5_spec(&self) -> Seq<char>;

    /// What `get_template` may return for this source.
    spec fn template_post(&self, r: Result<String, SourceError>) -> bool;

    /// The cache key of the source (empty for one that is never cached).
    fn get_md5(&self) -> (r: String)
        ensures
            r@ == self.md5_spec(),
    ;

    /// The directory holding the source's template tree.
    fn get_template(&self) -> (r: Result<String, SourceError>)
        ensures
            self.template_post(r),
    ;

    /// Where this source is cached, when a platform cache directory exists.
    fn get_cached_source(&self) -> (r: Option<String>)
        ensures
            r is Some ==> is_suffix(r->0@, "/"@ + self.md5_spec()),
    ;

    /// The source's configuration file.
    fn get_config(&self) -> (r: Result<String, SourceError>)
        ensures
            match r {
                Ok(p) => is_suffix(p@, "/petridish.yaml"@) || is_suffix(p@, "/petridish.yml"@),
                Err(e) => e matches SourceError::ConfigNotExists(_) || self.template_post(Err(e)),
            },
    ;
}

/// A template taken straight from a local directory.
#[derive(Debug)]
pub struct DirSource {
    pub template_dir: String,
}

impl DirSource {
    /// Accepts a template directory after checking it exists.
    pub fn new(template: &str) -> (r: Result<DirSource, SourceError>)
        ensures
            match r {
                Ok(d) => d.template_dir@ == template@,
                Err(e) => e matches SourceError::DirNotExists(t) && t@ == template@,
            },
    {
        if path_exists(template) {
            Ok(DirSource { template_dir: to_owned_string(template) })
        } else {
            Err(SourceError::DirNotExists(to_owned_string(template)))
        }
    }
}

impl TemplateSource for DirSource {
    open spec fn md5_spec(&self) -> Seq<char> {
        Seq::empty()
    }

    open spec fn template_post(&self, r: Result<String, SourceError>) -> bool {
        r is Ok && r->Ok_0@ == self.template_dir@
    }

    fn get_md5(&self) -> (r: String) {
        String::new()
    }

    fn get_template(&self) -> (r: Result<String, SourceError>) {
        Ok(self.template_dir.clone())
    }

    fn get_cached_source(&self) -> (r: Option<String>) {
        match templates_cache_dir() {
            None => None,
            Some(dir) => {
                let p = concat2(dir.as_str(), "/");
                proof {
                    assert("/"@ + Seq::<char>::empty() =~= "/"@);
                    assert(p@.subrange(p@.len() - "/"@.len(), p@.len() as int) =~= "/"@);
                }
                Some(p)
            },
        }
    }

    fn get_config(&self) -> (r: Result<String, SourceError>) {
        let r = find_config(self.template_dir.as_str());
        proof {
            match &r {
                Ok(p) => {
                    if p@ == self.template_dir@ + "/petridish.yaml"@ {
                        assert(p@.subrange(
                            p@.len() - "/petridish.yaml"@.len(),
                            p@.len() as int,
                        ) =~= "/petridish.yaml"@);
                    } else {
                        assert(p@.subrange(
                            p@.len() - "/petridish.yml"@.len(),
                            p@.len() as int,
                        ) =~= "/petridish.yml"@);
                    }
                },
                Err(_) => {},
            }
        }
        r
    }
}

/// A template cloned from a git repository and cached under the digest of its
/// URI.
#[derive(Debug)]
pub struct GitSource {
    pub git_uri: String,
}

impl GitSource {
    /// Wraps a git URI.
    pub fn new(git_uri: &str) -> (r: Result<GitSource, SourceError>)
        ensures
            r is Ok && r->Ok_0.git_uri@ == git_uri@,
    {
        Ok(GitSource { git_uri: to_owned_string(git_uri) })
    }

    /// Decides the freshness of this source from what the caller observed:
    /// whether the cached clone exists, and the local and remote revisions it
    /// read.
    pub fn status_from(&self, cached_exists: bool, current_rev: &str, remote_rev: &str) -> (r:
        SourceStatus)
        ensures
            !cached_exists ==> r == SourceStatus::NotExists,
            cached_exists && current_rev@ != remote_rev@ ==> r == SourceStatus::OutOfDate,
            cached_exists && current_rev@ == remote_rev@ ==> r == SourceStatus::Latest,
    {
        if !cached_exists {
            SourceStatus::NotExists
        } else if !str_eq(current_rev, remote_rev) {
            SourceStatus::OutOfDate
        } else {
            SourceStatus::Latest
        }
    }
}

impl TemplateSource for GitSource {
    open spec fn md5_spec(&self) -> Seq<char> {
        md5_hex_of(self.git_uri@)
    }

    open spec fn template_post(&self, r: Result<String, SourceError>) -> bool {
        match r {
            Ok(p) => is_suffix(p@, "/"@ + md5_hex_of(self.git_uri@)),
            Err(e) => e matches SourceError::UpdateTemplateFailed(uri, _) && uri@
                == self.git_uri@,
        }
    }

    fn get_md5(&self) -> (r: String) {
        md5_hex(self.git_uri.as_str())
    }

    /// The cached clone's directory. The clone itself is the caller's work:
    /// when the cache misses, this reports a failure rather than cloning.
    fn get_template(&self) -> (r: Result<String, SourceError>) {
        match self.get_cached_source() {
            Some(p) => {
                if path_exists(p.as_str()) {
                    Ok(p)
                } else {
                    Err(
                        SourceError::UpdateTemplateFailed(
                            self.git_uri.clone(),
                            to_owned_string("the template is not in the cache yet"),
                        ),
                    )
                }
            },
            None => Err(
                SourceError::UpdateTemplateFailed(
                    self.git_uri.clone(),
                    to_owned_string("no cache directory is available"),
                ),
            ),
        }
    }

    fn get_cached_source(&self) -> (r: Option<String>) {
        match templates_cache_dir() {
            None => None,
            Some(dir) => {
                let digest = md5_hex(self.git_uri.as_str());
                let p = concat3(dir.as_str(), "/", digest.as_str());
                proof {
                    assert(p@.subrange(
                        p@.len() - ("/"@ + digest@).len(),
                        p@.len() as int,
                    ) =~= "/"@ + digest@);
                }
                Some(p)
            },
        }
    }

    fn get_config(&self) -> (r: Result<String, SourceError>) {
        match self.get_template() {
            Err(e) => Err(e),
            Ok(template) => {
                let r = find_config(template.as_str());
                proof {
                    match &r {
                        Ok(p) => {
                            if p@ == template@ + "/petridish.yaml"@ {
                                assert(p@.subrange(
                                    p@.len() - "/petridish.yaml"@.len(),
                                    p@.len() as int,
                                ) =~= "/petridish.yaml"@);
                            } else {
                                assert(p@.subrange(
                                    p@.len() - "/petridish.yml"@.len(),
                                    p@.len() as int,
                                ) =~= "/petridish.yml"@);
                            }
                        },
                        Err(_) => {},
                    }
                }
                r
            },
        }
    }
}

/// Either kind of template source.
#[derive(Debug)]
pub enum Source {
    Dir(DirSource),
    Git(GitSource),
}

impl TemplateSource for Source {
    open spec fn md5_spec(&self) -> Seq<char> {
        match self {
            Source::Dir(d) => d.md5_spec(),
            Source::Git(g) => g.md5_spec(),
        }
    }

    open spec fn template_post(&self, r: Result<String, SourceError>) -> bool {
        match self {
            Source::Dir(d) => d.template_post(r),
            Source::Git(g) => g.template_post(r),
        }
    }

    fn get_md5(&self) -> (r: String) {
        match self {
            Source::Dir(d) => d.get_md5(),
            Source::Git(g) => g.get_md5(),
        }
    }

    fn get_template(&self) -> (r: Result<String, SourceError>) {
        match self {
            Source::Dir(d) => d.get_template(),
            Source::Git(g) => g.get_template(),
        }
    }

    fn get_cached_source(&self) -> (r: Option<String>) {
        match self {
            Source::Dir(d) => d.get_cached_source(),
            Source::Git(g) => g.get_cached_source(),
        }
    }

    fn get_config(&self) -> (r: Result<String, SourceError>) {
        match self {
            Source::Dir(d) => d.get_config(),
            Source::Git(g) => g.get_config(),
        }
    }
}

/// Decides what kind of source a template string names: a git URI (an
/// `https://`, `http://` or `git@` one ending in `.git`) becomes a git
/// source, anything else is taken as a local directory, which must exist.
pub fn new_source(template: &str) -> (r: Result<Source, SourceError>)
    ensures
        ({
            let git = is_suffix(template@, ".git"@) && (is_prefix(template@, "https://"@)
                || is_prefix(template@, "http://"@) || is_prefix(template@, "git@"@));
            match r {
                Ok(s) => match s {
                    Source::Git(g) => git && g.git_uri@ == template@,
                    Source::Dir(d) => !git && d.template_dir@ == template@,
                },
                Err(e) => !git && (e matches SourceError::DirNotExists(t) && t@ == template@),
            }
        }),
{
    if ends_with(template, ".git") && (starts_with(template, "https://") || starts_with(
        template,
        "http://",
    ) || starts_with(template, "git@")) {
        match GitSource::new(template) {
            Ok(g) => Ok(Source::Git(g)),
            Err(e) => Err(e),
        }
    } else {
        match DirSource::new(template) {
            Ok(d) => Ok(Source::Dir(d)),
            Err(e) => Err(e),
        }
    }
}

} // verus!
