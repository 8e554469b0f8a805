//! The local cache of downloaded template repositories.
//!
//! Moving directories into the cache and listing it are filesystem work and
//! live with the caller; this module owns the cache's layout: where it is and
//! what path a cached repository name resolves to.

use vstd::prelude::*;

use crate::strutil::{concat3, is_suffix};

verus! {

/// Relies on dirs::cache_dir: the platform's cache directory for the current
/// user. The answer depends on the environment, so nothing is promised of it.
#[verifier::external_body]
pub(crate) fn user_cache_root() -> (r: Option<String>) {
    dirs::cache_dir().and_then(|p| p.to_str().map(|s| s.to_string()))
}

/// Relies on std::path::Path::exists: whether the path exists on disk right
/// now. The answer depends on the filesystem, so nothing is promised of it.
#[verifier::external_body]
pub(crate) fn path_exists(p: &str) -> (r: bool) {
    std::path::Path::new(p).exists()
}

/// The cache of downloaded template repositories.
pub struct Cache;

impl Cache {
    /// The directory the cache lives in: the user's platform cache directory
    /// plus `petridish/repositories`, or nothing when the platform defines no
    /// cache directory.
    pub fn cache_dir() -> (r: Option<String>)
        ensures
            r is Some ==> is_suffix(r->0@, "/petridish/repositories"@),
    {
        match user_cache_root() {
            None => None,
            Some(root) => {
                let d = crate::strutil::concat2(root.as_str(), "/petridish/repositories");
                proof {
                    assert(d@.subrange(
                        d@.len() - "/petridish/repositories"@.len(),
                        d@.len() as int,
                    ) =~= "/petridish/repositories"@);
                }
                Some(d)
            },
        }
    }

    /// Looks a repository up in the cache by name: its path under the cache
    /// directory, when that path exists on disk.
    pub fn get(name: &str) -> (r: Option<String>)
        ensures
            r is Some ==> is_suffix(r->0@, "/"@ + name@),
    {
        match Self::cache_dir() {
            None => None,
            Some(dir) => {
                let p = concat3(dir.as_str(), "/", name);
                if path_exists(p.as_str()) {
                    proof {
                        assert(p@.subrange(
                            p@.len() - ("/"@ + name@).len(),
                            p@.len() as int,
                        ) =~= "/"@ + name@);
                    }
                    Some(p)
                } else {
                    None
                }
            },
        }
    }
}

} // verus!
