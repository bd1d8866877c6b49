//! One resolution request, from the release data to a download URL.

use vstd::prelude::*;
use vstd::string::*;

use crate::error::ResolveError;
use crate::matcher::{
    compile, escaped, first_found, first_holding, match_asset, matcher_text, none_holding, regex_compiles,
    regex_finds, tested, Asset, Config,
};
use crate::pattern::{stripped, substituted, Overrides};
use crate::text::same_text;
use crate::version::opt_view;

verus! {

/// What a request asks for besides the pattern.
pub struct Query {
    /// Delete the wildcard tokens left after substitution (on if absent).
    pub clear_unknown: Option<bool>,
    /// Test the assets from the last one back (off if absent).
    pub reverse: Option<bool>,
    /// Values for the tokens that win over those taken from the tag.
    pub overrides: Overrides,
}

pub open spec fn flag(o: Option<bool>, default: bool) -> bool {
    match o {
        Some(b) => b,
        None => default,
    }
}

/// The pattern, wildcard tokens removed, is longer than `max_pattern_len`,
/// and that is not negative.
pub open spec fn exceeds(pattern: Seq<char>, max_pattern_len: i32) -> bool {
    max_pattern_len >= 0 && stripped(pattern).len() > max_pattern_len
}

/// The pattern of a request after substitution.
pub open spec fn request_text(pattern: Seq<char>, tag: Seq<char>, query: &Query) -> Seq<char> {
    substituted(pattern, tag, query.overrides@, flag(query.clear_unknown, true))
}

/// What a request whose pattern passed the length guard comes to: the
/// compiled `text` is refused, or the first asset found is chosen, or none is.
/// In literal mode, found means that the name holds `sub`.
pub open spec fn selected(
    text: Seq<char>,
    sub: Seq<char>,
    regex_enabled: bool,
    assets: Seq<Asset>,
    reverse: bool,
    r: Result<String, ResolveError>,
) -> bool {
    let n = assets.len() as int;
    if !regex_compiles(text) {
        r == Err::<String, ResolveError>(ResolveError::InvalidRegex)
    } else {
        match r {
            Ok(url) => exists|k: int|
                {
                    &&& first_found(text, assets, reverse, k)
                    &&& url@ == assets[tested(n, k, reverse)].download_url@
                    &&& !regex_enabled ==> first_holding(sub, assets, reverse, k)
                },
            Err(e) => {
                &&& e == ResolveError::NoMatchingAsset
                &&& forall|i: int| 0 <= i < n ==> !regex_finds(text, #[trigger] assets[i].name@)
                &&& !regex_enabled ==> none_holding(sub, assets)
            },
        }
    }
}

/// Resolves `pattern` against a release's tag and assets: compiles it and
/// returns the download URL of the first asset that it matches.
pub fn process(
    pattern: &str,
    assets: &Vec<Asset>,
    query: &Query,
    tag_name: &str,
    config: &Config,
) -> (r: Result<String, ResolveError>)
    ensures
        exceeds(pattern@, config.max_pattern_len) ==> r == Err::<String, ResolveError>(
            ResolveError::PatternTooLong,
        ),
        !exceeds(pattern@, config.max_pattern_len) ==> selected(
            matcher_text(request_text(pattern@, tag_name@, query), config.regex_enabled),
            request_text(pattern@, tag_name@, query),
            config.regex_enabled,
            assets@,
            flag(query.reverse, false),
            r,
        ),
{
    let clear = match query.clear_unknown {
        Some(b) => b,
        None => true,
    };
    let reverse = match query.reverse {
        Some(b) => b,
        None => false,
    };
    let matcher = match compile(pattern, tag_name, &query.overrides, clear, config) {
        Ok(m) => m,
        Err(e) => return Err(e),
    };
    let ghost sub = substituted(pattern@, tag_name@, query.overrides@, clear);
    assert(matcher@ == matcher_text(sub, config.regex_enabled));
    let r = match_asset(&matcher, assets, reverse);
    proof {
        if !config.regex_enabled {
            assert(matcher@ == escaped(sub));
        }
        if r is Ok {
            let url = r->Ok_0;
            let k = choose|k: int|
                {
                    &&& first_found(matcher@, assets@, reverse, k)
                    &&& url@ == assets@[tested(assets@.len() as int, k, reverse)].download_url@
                    &&& forall|t: Seq<char>|
                        matcher@ == #[trigger] escaped(t) ==> first_holding(
                            t,
                            assets@,
                            reverse,
                            k,
                        )
                };
            if !config.regex_enabled {
                assert(first_holding(sub, assets@, reverse, k));
            }
        } else {
            if !config.regex_enabled {
                assert(none_holding(sub, assets@));
            }
        }
    }
    r
}

/// The platforms that a custom host may run.
#[derive(Clone, Copy, PartialEq, Eq, Structural, Debug)]
pub enum Platform {
    Gitea,
}

/// The platform of a request to a custom host: only Gitea is supported,
/// and only while custom hosts are switched on.
pub fn custom_platform(custom_hosts: bool, platform: &str) -> (r: Result<Platform, ResolveError>)
    ensures
        !custom_hosts ==> r == Err::<Platform, ResolveError>(ResolveError::CustomHostsDisabled),
        custom_hosts && platform@ == "gitea"@ ==> r == Ok::<Platform, ResolveError>(
            Platform::Gitea,
        ),
        custom_hosts && platform@ != "gitea"@ ==> r == Err::<Platform, ResolveError>(
            ResolveError::InvalidPlatform,
        ),
{
    if !custom_hosts {
        Err(ResolveError::CustomHostsDisabled)
    } else if same_text(platform, "gitea") {
        Ok(Platform::Gitea)
    } else {
        Err(ResolveError::InvalidPlatform)
    }
}

/// The first `/` of `s` at or after `j`, or the length of `s` if none.
pub open spec fn next_slash(s: Seq<char>, j: int) -> int
    decreases s.len() - j,
{
    if j < 0 || j >= s.len() {
        s.len() as int
    } else if s[j] == '/' {
        j
    } else {
        next_slash(s, j + 1)
    }
}

/// The human-facing release page that a failed request is sent to: the
/// path's second, third and fourth `/`-separated segments name the
/// platform, the user and the repository. Only GitHub and gitea.com paths
/// with at least four segments have one.
pub open spec fn fallback_page(path: Seq<char>) -> Option<Seq<char>> {
    let e0 = next_slash(path, 0);
    let e1 = next_slash(path, e0 + 1);
    let e2 = next_slash(path, e1 + 1);
    let e3 = next_slash(path, e2 + 1);
    let platform = path.subrange(e0 + 1, e1);
    let user = path.subrange(e1 + 1, e2);
    let repo = path.subrange(e2 + 1, e3);
    if e2 >= path.len() {
        None
    } else if platform == "github"@ {
        Some("https://github.com/"@ + user + "/"@ + repo + "/releases/latest"@)
    } else if platform == "gitea"@ {
        Some("https://gitea.com/"@ + user + "/"@ + repo + "/releases"@)
    } else {
        None
    }
}

fn find_slash(s: &str, n: usize, j: usize) -> (r: usize)
    requires
        n == s@.len(),
        j <= n,
    ensures
        r as int == next_slash(s@, j as int),
        j <= r <= n,
{
    let mut i = j;
    while i < n && s.get_char(i) != '/'
        invariant
            n == s@.len(),
            j <= i <= n,
            next_slash(s@, i as int) == next_slash(s@, j as int),
        decreases n - i,
    {
        i += 1;
    }
    i
}

/// Where a failed request for `path` is redirected, if anywhere.
pub fn fallback_location(path: &str) -> (r: Option<String>)
    ensures
        opt_view(r) == fallback_page(path@),
{
    let n = path.unicode_len();
    let e0 = find_slash(path, n, 0);
    if e0 >= n {
        return None;
    }
    let e1 = find_slash(path, n, e0 + 1);
    if e1 >= n {
        return None;
    }
    let e2 = find_slash(path, n, e1 + 1);
    if e2 >= n {
        return None;
    }
    let e3 = find_slash(path, n, e2 + 1);
    let platform = path.substring_char(e0 + 1, e1);
    let user = path.substring_char(e1 + 1, e2);
    let repo = path.substring_char(e2 + 1, e3);
    let mut page;
    let tail;
    if same_text(platform, "github") {
        page = String::from_str("https://github.com/");
        tail = "/releases/latest";
    } else if same_text(platform, "gitea") {
        page = String::from_str("https://gitea.com/");
        tail = "/releases";
    } else {
        return None;
    }
    page.append(user);
    page.append("/");
    page.append(repo);
    page.append(tail);
    Some(page)
}

} // verus!
