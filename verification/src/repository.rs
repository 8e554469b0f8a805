//! Template repositories: deciding whether a URI names a git repository or a
//! local path, and parsing git URIs (including `gh:`/`gl:` short aliases)
//! into a repository description.
//!
//! Downloading is I/O and lives with the caller; this module owns every
//! decision about what a URI means.

use vstd::prelude::*;

use crate::cache::Cache;
use crate::error::Error;
use crate::strutil::{
    concat2, concat3, contains_char, ends_with, find_char, first_index_of, is_prefix, is_suffix,
    last_index_of, lemma_first_index_of, lemma_last_index_of, lemma_last_index_of_none,
    rfind_char, starts_with, str_eq, strip_suffix_rep, strip_suffix_rep_seq, strip_prefix_rep,
    strip_prefix_rep_seq, to_owned_string,
};

verus! {

/// A small string-to-string mapping, used for the caller-supplied extra
/// context (branch, username, password, provider overrides). Viewed as a
/// `Map<Seq<char>, Seq<char>>`; a later binding of the same name wins.
pub struct StrMap {
    pairs: Vec<(String, String)>,
}

/// The mapping a sequence of string pairs denotes.
pub open spec fn str_map_of_pairs(pairs: Seq<(String, String)>) -> Map<Seq<char>, Seq<char>>
    decreases pairs.len(),
{
    if pairs.len() == 0 {
        Map::empty()
    } else {
        str_map_of_pairs(pairs.drop_last()).insert(pairs.last().0@, pairs.last().1@)
    }
}

impl View for StrMap {
    type V = Map<Seq<char>, Seq<char>>;

    closed spec fn view(&self) -> Map<Seq<char>, Seq<char>> {
        str_map_of_pairs(self.pairs@)
    }
}

impl StrMap {
    /// An empty mapping.
    pub fn new() -> (r: StrMap)
        ensures
            r@ == Map::<Seq<char>, Seq<char>>::empty(),
    {
        StrMap { pairs: Vec::new() }
    }

    /// Binds `name` to `value`, replacing any earlier binding.
    pub fn insert(&mut self, name: String, value: String)
        ensures
            final(self)@ == old(self)@.insert(name@, value@),
    {
        let ghost before = self.pairs@;
        self.pairs.push((name, value));
        proof {
            assert(self.pairs@.drop_last() =~= before);
        }
    }

    /// Removes the binding of `name`, handing its value back if there was
    /// one.
    pub fn remove(&mut self, name: &str) -> (r: Option<String>)
        ensures
            final(self)@ == old(self)@.remove(name@),
            r is Some <==> old(self)@.contains_key(name@),
            r is Some ==> r->0@ == old(self)@[name@],
    {
        let ghost orig = self.pairs@;
        let n = self.pairs.len();
        let mut kept: Vec<(String, String)> = Vec::new();
        let mut found: Option<String> = None;
        let mut i: usize = 0;
        proof {
            assert(orig.subrange(0, 0) =~= Seq::<(String, String)>::empty());
            assert(str_map_of_pairs(kept@) =~= Map::<Seq<char>, Seq<char>>::empty());
            assert(str_map_of_pairs(orig.subrange(0, 0)).remove(name@) =~= Map::<
                Seq<char>,
                Seq<char>,
            >::empty());
        }
        while i < n
            invariant
                0 <= i <= n,
                n == self.pairs@.len(),
                orig == self.pairs@,
                str_map_of_pairs(kept@) == str_map_of_pairs(orig.subrange(0, i as int)).remove(
                    name@,
                ),
                found is Some <==> str_map_of_pairs(orig.subrange(0, i as int)).contains_key(
                    name@,
                ),
                found is Some ==> found->0@ == str_map_of_pairs(orig.subrange(0, i as int))[name@],
            decreases n - i,
        {
            let ghost pre = orig.subrange(0, i as int);
            let ghost post = orig.subrange(0, i + 1);
            proof {
                assert(post.drop_last() =~= pre);
            }
            let k = self.pairs[i].0.clone();
            let v = self.pairs[i].1.clone();
            if str_eq(k.as_str(), name) {
                found = Some(v);
                proof {
                    assert(str_map_of_pairs(post) == str_map_of_pairs(pre).insert(name@, v@));
                    assert(str_map_of_pairs(post).remove(name@) =~= str_map_of_pairs(pre).remove(
                        name@,
                    ));
                }
            } else {
                let ghost kept_before = kept@;
                kept.push((k, v));
                proof {
                    assert(kept@.drop_last() =~= kept_before);
                    assert(str_map_of_pairs(kept@) == str_map_of_pairs(kept_before).insert(
                        orig[i as int].0@,
                        orig[i as int].1@,
                    ));
                    assert(str_map_of_pairs(post) == str_map_of_pairs(pre).insert(
                        orig[i as int].0@,
                        orig[i as int].1@,
                    ));
                    assert(str_map_of_pairs(post).remove(name@) =~= str_map_of_pairs(pre).remove(
                        name@,
                    ).insert(orig[i as int].0@, orig[i as int].1@));
                }
            }
            i += 1;
        }
        proof {
            assert(orig.subrange(0, n as int) =~= orig);
        }
        self.pairs = kept;
        found
    }
}

/// The part of `s` after its last `/` (all of `s` when it has none).
pub open spec fn last_segment_seq(s: Seq<char>) -> Seq<char> {
    s.subrange(last_index_of(s, '/') + 1, s.len() as int)
}

/// The part of `s` after its last `/`.
pub fn last_segment(s: &str) -> (r: String)
    ensures
        r@ == last_segment_seq(s@),
{
    let slen = s.unicode_len();
    match rfind_char(s, '/') {
        Some(i) => {
            proof {
                lemma_last_index_of(s@, '/', i as int);
            }
            to_owned_string(s.substring_char(i + 1, slen))
        },
        None => {
            proof {
                lemma_last_index_of_none(s@, '/');
            }
            to_owned_string(s)
        },
    }
}

/// Authentication for a git repository.
#[derive(Debug)]
pub struct Auth {
    pub username: String,
    pub password: String,
}

impl PartialEq for Auth {
    fn eq(&self, other: &Auth) -> (r: bool) {
        str_eq(self.username.as_str(), other.username.as_str()) && str_eq(
            self.password.as_str(),
            other.password.as_str(),
        )
    }
}

impl vstd::std_specs::cmp::PartialEqSpecImpl for Auth {
    open spec fn obeys_eq_spec() -> bool {
        true
    }

    open spec fn eq_spec(&self, other: &Auth) -> bool {
        self.username@ == other.username@ && self.password@ == other.password@
    }
}

/// A git repository to clone: its cache name, full URI, optional branch and
/// optional authentication.
#[derive(Debug)]
pub struct Git {
    pub name: String,
    pub uri: String,
    pub branch: Option<String>,
    pub auth: Option<Auth>,
}

/// The mathematical shape of a `Git`.
pub struct GitV {
    pub name: Seq<char>,
    pub uri: Seq<char>,
    pub branch: Option<Seq<char>>,
    pub auth: Option<(Seq<char>, Seq<char>)>,
}

impl View for Git {
    type V = GitV;

    open spec fn view(&self) -> GitV {
        GitV {
            name: self.name@,
            uri: self.uri@,
            branch: match self.branch {
                Some(b) => Some(b@),
                None => None,
            },
            auth: match self.auth {
                Some(a) => Some((a.username@, a.password@)),
                None => None,
            },
        }
    }
}

impl PartialEq for Git {
    fn eq(&self, other: &Git) -> (r: bool) {
        let branch_eq = match (&self.branch, &other.branch) {
            (Some(a), Some(b)) => str_eq(a.as_str(), b.as_str()),
            (None, None) => true,
            _ => false,
        };
        let auth_eq = match (&self.auth, &other.auth) {
            (Some(a), Some(b)) => a.eq(b),
            (None, None) => true,
            _ => false,
        };
        str_eq(self.name.as_str(), other.name.as_str()) && str_eq(
            self.uri.as_str(),
            other.uri.as_str(),
        ) && branch_eq && auth_eq
    }
}

impl vstd::std_specs::cmp::PartialEqSpecImpl for Git {
    open spec fn obeys_eq_spec() -> bool {
        true
    }

    open spec fn eq_spec(&self, other: &Git) -> bool {
        self@.name == other@.name && self@.uri == other@.uri && self@.branch == other@.branch
            && self@.auth == other@.auth
    }
}

/// A parse failure, at the specification level.
pub enum RepoErr {
    /// A username was given without a password.
    MissingPassword,
    /// A password was given without a username.
    MissingUsername,
    /// The URI (carried here) matches no supported git shape.
    BadRepo(Seq<char>),
    /// The alias URI and the provider name of a malformed short-alias URI.
    BadAlias(Seq<char>, Seq<char>),
}

/// The repository name a git URI denotes: the last path segment, with every
/// trailing `.git` removed.
pub open spec fn git_name_spec(uri: Seq<char>) -> Seq<char> {
    last_segment_seq(strip_suffix_rep_seq(uri, ".git"@))
}

/// What parsing a plain git URI yields: the branch and the credentials are
/// taken from the context, the URI must carry an `https://`, `http://` or
/// `git@` scheme, and a username without a password (or the reverse) is
/// refused.
pub open spec fn new_git_spec(uri: Seq<char>, ctx: Map<Seq<char>, Seq<char>>) -> Result<
    GitV,
    RepoErr,
> {
    let user = if ctx.contains_key("username"@) {
        Some(ctx["username"@])
    } else {
        None
    };
    let pass = if ctx.contains_key("password"@) {
        Some(ctx["password"@])
    } else {
        None
    };
    if user is Some && pass is None {
        Err(RepoErr::MissingPassword)
    } else if user is None && pass is Some {
        Err(RepoErr::MissingUsername)
    } else if is_prefix(uri, "https://"@) || is_prefix(uri, "http://"@) || is_prefix(
        uri,
        "git@"@,
    ) {
        Ok(
            GitV {
                name: git_name_spec(uri),
                uri: uri,
                branch: if ctx.contains_key("branch"@) {
                    Some(ctx["branch"@])
                } else {
                    None
                },
                auth: if user is Some {
                    Some((user->0, pass->0))
                } else {
                    None
                },
            },
        )
    } else {
        Err(RepoErr::BadRepo(uri))
    }
}

/// The head of an alias URI: everything before the first `:` (all of it when
/// it has none).
pub open spec fn alias_head_seq(s: Seq<char>) -> Seq<char> {
    if contains_char(s, ':') {
        s.subrange(0, first_index_of(s, ':'))
    } else {
        s
    }
}

/// What parsing a short-alias URI (such as `gh:owner/repo`) yields: the part
/// before the first `:` picks the scheme, the rest (with `.git` trimmed) is
/// the repository path under the provider host, which the context may
/// override.
pub open spec fn new_alias_git_spec(
    alias_uri: Seq<char>,
    ctx: Map<Seq<char>, Seq<char>>,
    alias: Seq<char>,
    provider: Seq<char>,
    provider_url: Seq<char>,
) -> Result<GitV, RepoErr> {
    let head = alias_head_seq(alias_uri);
    let tail = strip_suffix_rep_seq(strip_prefix_rep_seq(alias_uri, head + ":"@), ".git"@);
    let provider_key = alias + "_provider"@;
    let purl = if ctx.contains_key(provider_key) {
        ctx[provider_key]
    } else {
        provider_url
    };
    let ctx2 = ctx.remove(provider_key);
    if head == alias || head == alias + "+https"@ {
        new_git_spec("https://"@ + purl + "/"@ + tail + ".git"@, ctx2)
    } else if head == alias + "+http"@ {
        new_git_spec("http://"@ + purl + "/"@ + tail + ".git"@, ctx2)
    } else if head == alias + "+ssh"@ {
        new_git_spec("git@"@ + purl + ":"@ + tail + ".git"@, ctx2)
    } else {
        Err(RepoErr::BadAlias(alias_uri, provider))
    }
}

/// What parsing any git URI yields: `gh`/`gl` aliases go to the alias rules
/// with the github/gitlab defaults; everything else must end in `.git`.
pub open spec fn try_new_git_spec(uri: Seq<char>, ctx: Map<Seq<char>, Seq<char>>) -> Result<
    GitV,
    RepoErr,
> {
    if is_prefix(uri, "gh"@) && contains_char(uri, ':') {
        new_alias_git_spec(uri, ctx, "gh"@, "github"@, "github.com"@)
    } else if is_prefix(uri, "gl"@) && contains_char(uri, ':') {
        new_alias_git_spec(uri, ctx, "gl"@, "gitlab"@, "gitlab.com"@)
    } else if is_suffix(uri, ".git"@) {
        new_git_spec(uri, ctx)
    } else {
        Err(RepoErr::BadRepo(uri))
    }
}

/// True when `r` reports exactly what the specification-level parse `res`
/// yields, with the library's error variants standing for the parse errors.
pub open spec fn matches_repo_result(r: Result<Git, Error>, res: Result<GitV, RepoErr>) -> bool {
    match res {
        Ok(g) => r is Ok && r->Ok_0@ == g,
        Err(RepoErr::MissingPassword) => r matches Err(Error::AuthMissingPassword(k)) && k@
            == "git"@,
        Err(RepoErr::MissingUsername) => r matches Err(Error::AuthMissingUsername(k)) && k@
            == "git"@,
        Err(RepoErr::BadRepo(u)) => r matches Err(Error::InvalidRepo { kind, uri }) && kind@
            == "git"@ && uri@ == u,
        Err(RepoErr::BadAlias(a, p)) => r matches Err(
            Error::InvalidGitAliasRepo { alias, provider },
        ) && alias@ == a && provider@ == p,
    }
}

impl Git {
    /// True when the URI looks like a git repository: it ends in `.git`, or
    /// it is a `gh`/`gl` short alias (it starts with one of those and has a
    /// `:` after it).
    pub fn check_match(uri: &str) -> (r: bool)
        ensures
            r == (is_suffix(uri@, ".git"@) || ((is_prefix(uri@, "gh"@) || is_prefix(uri@, "gl"@))
                && contains_char(uri@, ':'))),
    {
        if ends_with(uri, ".git") {
            return true;
        }
        if starts_with(uri, "gh") || starts_with(uri, "gl") {
            match find_char(uri, ':') {
                Some(i) => {
                    assert(contains_char(uri@, ':'));
                    true
                },
                None => {
                    assert(!contains_char(uri@, ':'));
                    false
                },
            }
        } else {
            false
        }
    }

    /// Parses a git URI of any supported shape.
    pub fn try_new(uri: String, context: StrMap) -> (r: Result<Git, Error>)
        ensures
            matches_repo_result(r, try_new_git_spec(uri@, context@)),
    {
        let is_gh = starts_with(uri.as_str(), "gh");
        let is_gl = starts_with(uri.as_str(), "gl");
        let has_colon = match find_char(uri.as_str(), ':') {
            Some(i) => {
                assert(contains_char(uri@, ':'));
                true
            },
            None => {
                assert(!contains_char(uri@, ':'));
                false
            },
        };
        if is_gh && has_colon {
            Self::new_alias_git(uri, context, "gh", "github", "github.com")
        } else if is_gl && has_colon {
            Self::new_alias_git(uri, context, "gl", "gitlab", "gitlab.com")
        } else if ends_with(uri.as_str(), ".git") {
            Self::new_git(uri, context)
        } else {
            Err(Error::InvalidRepo { kind: to_owned_string("git"), uri })
        }
    }

    /// Parses a plain git URI, taking branch and credentials out of the
    /// context.
    pub fn new_git(uri: String, context: StrMap) -> (r: Result<Git, Error>)
        ensures
            matches_repo_result(r, new_git_spec(uri@, context@)),
    {
        let mut context = context;
        proof {
            reveal_strlit("branch");
            reveal_strlit("username");
            reveal_strlit("password");
            assert("branch"@.len() == 6);
            assert("username"@.len() == 8);
            assert("password"@.len() == 8);
            assert("branch"@ != "username"@);
            assert("branch"@ != "password"@);
            assert("username"@ != "password"@) by {
                assert("username"@[0] == 'u');
                assert("password"@[0] == 'p');
            }
        }
        let branch = context.remove("branch");
        let username = context.remove("username");
        let password = context.remove("password");
        if username.is_some() && password.is_none() {
            return Err(Error::AuthMissingPassword(to_owned_string("git")));
        }
        if username.is_none() && password.is_some() {
            return Err(Error::AuthMissingUsername(to_owned_string("git")));
        }
        let auth = match (username, password) {
            (Some(username), Some(password)) => Some(Auth { username, password }),
            _ => None,
        };
        let trimmed = strip_suffix_rep(uri.as_str(), ".git");
        let name = last_segment(trimmed.as_str());
        if starts_with(uri.as_str(), "https://") || starts_with(uri.as_str(), "http://")
            || starts_with(uri.as_str(), "git@") {
            Ok(Git { name, uri, branch, auth })
        } else {
            Err(Error::InvalidRepo { kind: to_owned_string("git"), uri })
        }
    }

    /// Parses a short-alias git URI such as `gh:owner/repo` or
    /// `gl+ssh:owner/repo`.
    pub fn new_alias_git(
        alias_uri: String,
        context: StrMap,
        alias: &str,
        provider: &str,
        provider_url: &str,
    ) -> (r: Result<Git, Error>)
        ensures
            matches_repo_result(
                r,
                new_alias_git_spec(alias_uri@, context@, alias@, provider@, provider_url@),
            ),
    {
        let mut context = context;
        let head = match find_char(alias_uri.as_str(), ':') {
            Some(i) => {
                proof {
                    assert(contains_char(alias_uri@, ':'));
                    lemma_first_index_of(alias_uri@, ':', i as int);
                }
                to_owned_string(alias_uri.as_str().substring_char(0, i))
            },
            None => {
                proof {
                    assert(!contains_char(alias_uri@, ':'));
                }
                to_owned_string(alias_uri.as_str())
            },
        };
        let head_colon = concat2(head.as_str(), ":");
        let after_head = strip_prefix_rep(alias_uri.as_str(), head_colon.as_str());
        let tail = strip_suffix_rep(after_head.as_str(), ".git");
        let provider_key = concat2(alias, "_provider");
        let purl = match context.remove(provider_key.as_str()) {
            Some(p) => p,
            None => to_owned_string(provider_url),
        };
        if str_eq(head.as_str(), alias) || str_eq(
            head.as_str(),
            concat2(alias, "+https").as_str(),
        ) {
            let url = concat3("https://", purl.as_str(), "/").concat(tail.as_str()).concat(".git");
            Self::new_git(url, context)
        } else if str_eq(head.as_str(), concat2(alias, "+http").as_str()) {
            let url = concat3("http://", purl.as_str(), "/").concat(tail.as_str()).concat(".git");
            Self::new_git(url, context)
        } else if str_eq(head.as_str(), concat2(alias, "+ssh").as_str()) {
            let url = concat3("git@", purl.as_str(), ":").concat(tail.as_str()).concat(".git");
            Self::new_git(url, context)
        } else {
            Err(
                Error::InvalidGitAliasRepo {
                    alias: alias_uri,
                    provider: to_owned_string(provider),
                },
            )
        }
    }
}

/// A template taken from a local directory.
#[derive(Debug)]
pub struct LocalPath(pub String);

impl LocalPath {
    /// Wraps a local path.
    pub fn new(path: String) -> (r: LocalPath)
        ensures
            r.0@ == path@,
    {
        LocalPath(path)
    }
}

/// Either kind of template repository.
#[derive(Debug)]
pub enum Repo {
    Git(Git),
    Local(LocalPath),
}

/// What a repository tells its caller: its cache name, whether it must be
/// cached after download, and where its working tree lives.
pub trait Repository {
    /// The repository's cache name.
    spec fn name_spec(&self) -> Seq<char>;

    /// Whether a download must be placed in the cache.
    spec fn need_cache_spec(&self) -> bool;

    /// What `repo_dir` may return for this repository.
    spec fn repo_dir_post(&self, r: Option<String>) -> bool;

    fn name(&self) -> (r: &str)
        ensures
            r@ == self.name_spec(),
    ;

    fn need_cache(&self) -> (r: bool)
        ensures
            r == self.need_cache_spec(),
    ;

    /// The directory holding the repository's working tree, if it can be
    /// resolved right now.
    fn repo_dir(&self) -> (r: Option<String>)
        ensures
            self.repo_dir_post(r),
    ;
}

impl Repository for Git {
    open spec fn name_spec(&self) -> Seq<char> {
        self.name@
    }

    open spec fn need_cache_spec(&self) -> bool {
        true
    }

    open spec fn repo_dir_post(&self, r: Option<String>) -> bool {
        r is Some ==> is_suffix(r->0@, "/"@ + self.name@)
    }

    fn name(&self) -> (r: &str) {
        self.name.as_str()
    }

    fn need_cache(&self) -> (r: bool) {
        true
    }

    fn repo_dir(&self) -> (r: Option<String>) {
        Cache::get(self.name.as_str())
    }
}

impl Repository for LocalPath {
    open spec fn name_spec(&self) -> Seq<char> {
        last_segment_seq(self.0@)
    }

    open spec fn need_cache_spec(&self) -> bool {
        false
    }

    open spec fn repo_dir_post(&self, r: Option<String>) -> bool {
        r == Some(self.0)
    }

    fn name(&self) -> (r: &str) {
        let slen = self.0.as_str().unicode_len();
        match rfind_char(self.0.as_str(), '/') {
            Some(i) => {
                proof {
                    lemma_last_index_of(self.0@, '/', i as int);
                }
                self.0.as_str().substring_char(i + 1, slen)
            },
            None => {
                proof {
                    lemma_last_index_of_none(self.0@, '/');
                    assert(self.0@.subrange(0, slen as int) =~= self.0@);
                }
                self.0.as_str()
            },
        }
    }

    fn need_cache(&self) -> (r: bool) {
        false
    }

    fn repo_dir(&self) -> (r: Option<String>) {
        Some(self.0.clone())
    }
}

impl Repository for Repo {
    open spec fn name_spec(&self) -> Seq<char> {
        match self {
            Repo::Git(g) => g.name_spec(),
            Repo::Local(l) => l.name_spec(),
        }
    }

    open spec fn need_cache_spec(&self) -> bool {
        match self {
            Repo::Git(g) => g.need_cache_spec(),
            Repo::Local(l) => l.need_cache_spec(),
        }
    }

    open spec fn repo_dir_post(&self, r: Option<String>) -> bool {
        match self {
            Repo::Git(g) => g.repo_dir_post(r),
            Repo::Local(l) => l.repo_dir_post(r),
        }
    }

    fn name(&self) -> (r: &str) {
        match self {
            Repo::Git(g) => g.name(),
            Repo::Local(l) => l.name(),
        }
    }

    fn need_cache(&self) -> (r: bool) {
        match self {
            Repo::Git(g) => g.need_cache(),
            Repo::Local(l) => l.need_cache(),
        }
    }

    fn repo_dir(&self) -> (r: Option<String>) {
        match self {
            Repo::Git(g) => g.repo_dir(),
            Repo::Local(l) => l.repo_dir(),
        }
    }
}

/// Decides what kind of repository a URI names: git URIs (plain or aliased)
/// are parsed as such, everything else is taken as a local path.
pub fn try_new_repo(uri: String, context: StrMap) -> (r: Result<Repo, Error>)
    ensures
        ({
            let giturl = is_suffix(uri@, ".git"@) || ((is_prefix(uri@, "gh"@) || is_prefix(
                uri@,
                "gl"@,
            )) && contains_char(uri@, ':'));
            if giturl {
                match r {
                    Ok(rp) => rp matches Repo::Git(g) && matches_repo_result(
                        Ok(g),
                        try_new_git_spec(uri@, context@),
                    ),
                    Err(e) => matches_repo_result(Err(e), try_new_git_spec(uri@, context@)),
                }
            } else {
                r matches Ok(Repo::Local(l)) && l.0@ == uri@
            }
        }),
{
    if Git::check_match(uri.as_str()) {
        match Git::try_new(uri, context) {
            Ok(repo) => Ok(Repo::Git(repo)),
            Err(e) => Err(e),
        }
    } else {
        Ok(Repo::Local(LocalPath::new(uri)))
    }
}

} // verus!
