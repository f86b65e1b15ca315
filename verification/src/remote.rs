//! Normal forms of remote URLs: the host followed by the path, without a
//! trailing `.git`. Two URLs name the same remote when their normal forms are
//! equal; scheme, credentials, port, query and fragment play no part.

use vstd::prelude::*;
use vstd::string::StrSliceExecFns;
use vstd::string::StringExecFns;
use crate::error::RegistryError;
use crate::text::str_eq;

verus! {

/// The error of `url::Url::parse`. It is carried through unread.
#[verifier::external_type_specification]
#[verifier::external_body]
pub struct ExParseError(url::ParseError);

/// What the registry reads of a parsed URL.
#[derive(Clone, Debug)]
pub struct UrlParts {
    /// The host as the URL writes it, where the URL has one.
    pub host: Option<String>,
    /// The path, percent-encoded.
    pub path: String,
}

/// The characters of the parts of a URL.
pub struct UrlPartsView {
    pub host: Option<Seq<char>>,
    pub path: Seq<char>,
}

impl View for UrlParts {
    type V = UrlPartsView;

    open spec fn view(&self) -> UrlPartsView {
        UrlPartsView {
            host: match self.host {
                Some(host) => Some(host@),
                None => None,
            },
            path: self.path@,
        }
    }
}

/// Host and path of `input` parsed as an absolute URL by `url::Url::parse`;
/// `None` where that parser rejects `input`.
pub uninterp spec fn parsed_url(input: Seq<char>) -> Option<UrlPartsView>;

/// Calls `url::Url::parse` and, where it succeeds, copies out what
/// `Url::host_str` and `Url::path` return. Nothing is proved of the parser:
/// the contract only names its result, which depends on `input` alone, and
/// hands the parser's error back where it fails.
#[verifier::external_body]
fn parse_url(input: &str) -> (parsed: Result<UrlParts, url::ParseError>)
    ensures
        match parsed {
            Ok(parts) => parsed_url(input@) == Some(parts@),
            Err(_) => parsed_url(input@) is None,
        },
{
    match url::Url::parse(input) {
        Ok(url) => Ok(
            UrlParts { host: url.host_str().map(String::from), path: String::from(url.path()) },
        ),
        Err(err) => Err(err),
    }
}

/// The suffix that remotes of git repositories may carry.
pub open spec fn git_suffix() -> Seq<char> {
    seq!['.', 'g', 'i', 't']
}

/// `path` with every trailing `.git` taken off.
pub open spec fn without_git_suffix(path: Seq<char>) -> Seq<char>
    decreases path.len(),
{
    if git_suffix().is_suffix_of(path) {
        without_git_suffix(path.take(path.len() - 4))
    } else {
        path
    }
}

/// The normal form of a URL with the given parts: host, then path without
/// trailing `.git`. A URL without a host has none.
pub open spec fn normalized_parts(parts: UrlPartsView) -> Option<Seq<char>> {
    match parts.host {
        Some(host) => Some(host + without_git_suffix(parts.path)),
        None => None,
    }
}

/// The normal form of `remote`; `None` where `remote` is no URL or has no
/// host.
pub open spec fn normalized_remote(remote: Seq<char>) -> Option<Seq<char>> {
    match parsed_url(remote) {
        Some(parts) => normalized_parts(parts),
        None => None,
    }
}

/// Takes every trailing `.git` off `path`.
pub fn strip_git_suffix(path: &str) -> (stripped: &str)
    ensures
        stripped@ == without_git_suffix(path@),
{
    let mut rest = path;
    let mut len = rest.unicode_len();
    loop
        invariant
            len == rest@.len(),
            without_git_suffix(rest@) == without_git_suffix(path@),
        decreases len,
    {
        if len < 4 {
            return rest;
        }
        let tail = rest.substring_char(len - 4, len);
        proof {
            reveal_strlit(".git");
            assert(".git"@ =~= git_suffix());
        }
        if !str_eq(tail, ".git") {
            return rest;
        }
        rest = rest.substring_char(0, len - 4);
        len = len - 4;
    }
}

impl UrlParts {
    /// The normal form of a URL with these parts.
    pub fn normalized(&self) -> (out: Option<String>)
        ensures
            match out {
                Some(text) => normalized_parts(self@) == Some(text@),
                None => normalized_parts(self@) is None,
            },
    {
        match &self.host {
            Some(host) => {
                let mut text = host.clone();
                text.append(strip_git_suffix(self.path.as_str()));
                Some(text)
            },
            None => None,
        }
    }
}

/// Brings `remote` to its normal form. Fails with `MalformedUrl` where
/// `remote` does not parse as an absolute URL, and where it has no host.
pub fn normalize_remote(remote: &str) -> (out: Result<String, RegistryError>)
    ensures
        match out {
            Ok(text) => normalized_remote(remote@) == Some(text@),
            Err(err) => err == RegistryError::MalformedUrl && normalized_remote(remote@) is None,
        },
{
    match parse_url(remote) {
        Ok(parts) => match parts.normalized() {
            Some(text) => Ok(text),
            None => Err(RegistryError::MalformedUrl),
        },
        Err(_) => Err(RegistryError::MalformedUrl),
    }
}

/// Taking the suffix off is idempotent: what is left does not end in `.git`,
/// and taking the suffix off once more changes nothing.
pub proof fn lemma_without_git_suffix_is_idempotent(path: Seq<char>)
    ensures
        !git_suffix().is_suffix_of(without_git_suffix(path)),
        without_git_suffix(without_git_suffix(path)) == without_git_suffix(path),
    decreases path.len(),
{
    if git_suffix().is_suffix_of(path) {
        lemma_without_git_suffix_is_idempotent(path.take(path.len() - 4));
    }
}

/// What is left of a path is a prefix of it, and the rest is made of `.git`
/// only: `path` and `path` followed by `.git` leave the same.
pub proof fn lemma_without_git_suffix_drops_one_more(path: Seq<char>)
    ensures
        without_git_suffix(path).is_prefix_of(path),
        without_git_suffix(path + git_suffix()) == without_git_suffix(path),
    decreases path.len(),
{
    let longer = path + git_suffix();
    assert(longer.take(longer.len() - 4) =~= path);
    if git_suffix().is_suffix_of(path) {
        lemma_without_git_suffix_drops_one_more(path.take(path.len() - 4));
    }
}

/// Bringing a URL to its normal form is idempotent on its parts: the parts
/// with the path's `.git` taken off already have the same normal form.
pub proof fn lemma_normal_form_is_idempotent(parts: UrlPartsView)
    ensures
        normalized_parts(UrlPartsView { host: parts.host, path: without_git_suffix(parts.path) })
            == normalized_parts(parts),
{
    lemma_without_git_suffix_is_idempotent(parts.path);
}

/// The normal form of a URL rests on its host and its path alone, and of
/// the path on what is left without `.git`. So two URLs with one host, and
/// with paths that differ in trailing `.git` at most, have the same normal
/// form, whatever their schemes and credentials are.
pub proof fn lemma_normal_form_rests_on_host_and_path(first: UrlPartsView, second: UrlPartsView)
    requires
        first.host == second.host,
        without_git_suffix(first.path) == without_git_suffix(second.path),
    ensures
        normalized_parts(first) == normalized_parts(second),
{
}

} // verus!
