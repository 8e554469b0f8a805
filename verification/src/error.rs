//! The error type shared by the render engine and the repository helpers.

use vstd::prelude::*;

use crate::strutil::{concat2, concat3};

verus! {

/// Everything that can go wrong while resolving a template repository or
/// rendering a project from it. Each variant carries plain values, so a
/// caller can report the offending path or URI.
#[derive(Debug, Clone)]
pub enum Error {
    /// A path that had to exist (such as the entry directory) was absent.
    PathNotFound { path: String },
    /// Substituting variables into a path or a file's content failed;
    /// `path` is the offending relative path inside the template.
    TemplatingFailed { path: String, detail: String },
    /// The repository URI matched no supported shape.
    InvalidRepo { kind: String, uri: String },
    /// A short-alias repository URI (such as a `gh:` one) was malformed.
    InvalidGitAliasRepo { alias: String, provider: String },
    /// A username was given without a password.
    AuthMissingPassword(String),
    /// A password was given without a username.
    AuthMissingUsername(String),
    /// A command-line argument was malformed.
    ArgsError(String),
    /// A destination path already exists and the policy forbids replacing it.
    CannotOverwriteContent(String),
    /// A git reference could not be resolved.
    InvalidGitRef(String),
    /// A repository name was not found in the local cache.
    RepoNotFoundInCache(String),
    /// A filesystem operation failed; `detail` preserves the OS error text.
    Io { detail: String },
}

impl Error {
    /// The human-readable description of the error, character by character.
    pub open spec fn message_spec(&self) -> Seq<char> {
        match self {
            Error::PathNotFound { path } => "not found '"@ + path@ + "'"@,
            Error::TemplatingFailed { path, detail } => "failed to render '"@ + path@ + "': "@
                + detail@,
            Error::InvalidRepo { kind, uri } => "invalid "@ + kind@ + " repo: "@ + uri@,
            Error::InvalidGitAliasRepo { alias, provider } => "invalid alias `"@ + provider@
                + "` repo: "@ + alias@,
            Error::AuthMissingPassword(kind) => kind@ + " `password` is not provided"@,
            Error::AuthMissingUsername(kind) => kind@ + " `username` is not provided"@,
            Error::ArgsError(msg) => msg@,
            Error::CannotOverwriteContent(path) => "exists '"@ + path@
                + "' in output dir, cannot overwrite it, or you can add flag `-f` or `-s`"@,
            Error::InvalidGitRef(name) => "unknown git ref '"@ + name@ + "'"@,
            Error::RepoNotFoundInCache(name) => "not found repo '"@ + name@ + "' in cache"@,
            Error::Io { detail } => detail@,
        }
    }

    /// Renders the error as a human-readable message.
    pub fn message(&self) -> (r: String)
        ensures
            r@ == self.message_spec(),
    {
        match self {
            Error::PathNotFound { path } => concat3("not found '", path.as_str(), "'"),
            Error::TemplatingFailed { path, detail } => concat3(
                "failed to render '",
                path.as_str(),
                "': ",
            ).concat(detail.as_str()),
            Error::InvalidRepo { kind, uri } => concat3("invalid ", kind.as_str(), " repo: ")
                .concat(uri.as_str()),
            Error::InvalidGitAliasRepo { alias, provider } => concat3(
                "invalid alias `",
                provider.as_str(),
                "` repo: ",
            ).concat(alias.as_str()),
            Error::AuthMissingPassword(kind) => concat2(
                kind.as_str(),
                " `password` is not provided",
            ),
            Error::AuthMissingUsername(kind) => concat2(
                kind.as_str(),
                " `username` is not provided",
            ),
            Error::ArgsError(msg) => msg.clone(),
            Error::CannotOverwriteContent(path) => concat3(
                "exists '",
                path.as_str(),
                "' in output dir, cannot overwrite it, or you can add flag `-f` or `-s`",
            ),
            Error::InvalidGitRef(name) => concat3("unknown git ref '", name.as_str(), "'"),
            Error::RepoNotFoundInCache(name) => concat3(
                "not found repo '",
                name.as_str(),
                "' in cache",
            ),
            Error::Io { detail } => detail.clone(),
        }
    }
}

} // verus!
