//! Compiling a substituted pattern into a matcher, and picking an asset.

use vstd::prelude::*;

use crate::error::ResolveError;
use crate::pattern::{pre_check, replace, stripped, substituted, Overrides};
use crate::text::contains;

verus! {

#[verifier::external_type_specification]
#[verifier::external_body]
pub struct ExRegex(regex::Regex);

#[verifier::external_type_specification]
#[verifier::external_body]
pub struct ExRegexError(regex::Error);

/// Whether `regex::Regex::new` accepts a text.
pub uninterp spec fn regex_compiles(text: Seq<char>) -> bool;

/// Whether the regex compiled from `text` finds a match anywhere in `hay`.
pub uninterp spec fn regex_finds(text: Seq<char>, hay: Seq<char>) -> bool;

/// The characters that have a meaning of their own in a regular expression.
pub open spec fn is_meta(c: char) -> bool {
    c == '\\' || c == '.' || c == '+' || c == '*' || c == '?' || c == '(' || c == ')' || c == '|'
        || c == '[' || c == ']' || c == '{' || c == '}' || c == '^' || c == '$' || c == '#' || c
        == '&' || c == '-' || c == '~'
}

/// `s` with a backslash put before each meta character.
pub open spec fn escaped(s: Seq<char>) -> Seq<char>
    decreases s.len(),
{
    if s.len() == 0 {
        s
    } else if is_meta(s[0]) {
        seq!['\\', s[0]] + escaped(s.skip(1))
    } else {
        seq![s[0]] + escaped(s.skip(1))
    }
}

/// Relies on `regex::escape`: a backslash goes before each meta character,
/// every other character is kept.
#[verifier::external_body]
fn regex_escape(s: &str) -> (r: String)
    ensures
        r@ == escaped(s@),
{
    regex::escape(s)
}

/// Relies on `regex::Regex::new`: whether a text compiles depends on the
/// text alone (the builder's limits are its fixed defaults).
#[verifier::external_body]
fn regex_new(text: &str) -> (r: Result<regex::Regex, regex::Error>)
    ensures
        r is Ok <==> regex_compiles(text@),
{
    regex::Regex::new(text)
}

/// Relies on `regex::Regex::is_match`, true if and only if the regex finds a
/// match anywhere in the haystack, and on `regex::escape`, whose output used
/// as a regex matches exactly its input, literally. The regex of a `Matcher`
/// is compiled from its text, and only by `compile`.
#[verifier::external_body]
fn regex_is_match(m: &Matcher, hay: &str) -> (r: bool)
    ensures
        r == regex_finds(m@, hay@),
        forall|t: Seq<char>| m@ == #[trigger] escaped(t) ==> (r == contains(hay@, t)),
{
    m.re.is_match(hay)
}

/// Settings read once when the process starts.
#[derive(Clone, Copy, PartialEq, Eq, Structural, Debug)]
pub struct Config {
    /// Patterns are regular expressions; otherwise they match literally.
    pub regex_enabled: bool,
    /// The longest pattern allowed, wildcard tokens not counted; negative
    /// means no limit.
    pub max_pattern_len: i32,
    /// Hosts other than the built-in ones may be asked.
    pub custom_hosts: bool,
}

/// A compiled pattern, together with the text it was compiled from.
pub struct Matcher {
    text: String,
    re: regex::Regex,
}

impl View for Matcher {
    type V = Seq<char>;

    closed spec fn view(&self) -> Seq<char> {
        self.text@
    }
}

impl Matcher {
    /// The text the matcher was compiled from.
    pub fn as_str(&self) -> (r: &str)
        ensures
            r@ == self@,
    {
        self.text.as_str()
    }

    /// Whether the matcher finds a match anywhere in `hay`.
    pub fn is_match(&self, hay: &str) -> (r: bool)
        ensures
            r == regex_finds(self@, hay@),
            forall|t: Seq<char>| self@ == #[trigger] escaped(t) ==> (r == contains(hay@, t)),
    {
        regex_is_match(self, hay)
    }
}

/// The text handed to the regex compiler: the substituted pattern, escaped
/// unless regular expressions are enabled.
pub open spec fn matcher_text(substituted_text: Seq<char>, regex_enabled: bool) -> Seq<char> {
    if regex_enabled {
        substituted_text
    } else {
        escaped(substituted_text)
    }
}

/// Checks the pattern's length, substitutes its wildcard tokens and compiles
/// the result.
pub fn compile(
    pattern: &str,
    tag: &str,
    overrides: &Overrides,
    clear_unknown: bool,
    config: &Config,
) -> (r: Result<Matcher, ResolveError>)
    ensures
        ({
            let too_long = config.max_pattern_len >= 0 && stripped(pattern@).len()
                > config.max_pattern_len;
            let text = matcher_text(
                substituted(pattern@, tag@, overrides@, clear_unknown),
                config.regex_enabled,
            );
            &&& too_long ==> r == Err::<Matcher, ResolveError>(ResolveError::PatternTooLong)
            &&& !too_long && !regex_compiles(text) ==> r == Err::<Matcher, ResolveError>(
                ResolveError::InvalidRegex,
            )
            &&& !too_long && regex_compiles(text) ==> r is Ok
            &&& r matches Ok(m) ==> m@ == text
        }),
{
    if pre_check(pattern, config.max_pattern_len).is_err() {
        return Err(ResolveError::PatternTooLong);
    }
    let substituted_text = replace(pattern, tag, overrides, clear_unknown);
    let text = if config.regex_enabled {
        substituted_text
    } else {
        regex_escape(substituted_text.as_str())
    };
    match regex_new(text.as_str()) {
        Ok(re) => Ok(Matcher { text, re }),
        Err(_) => Err(ResolveError::InvalidRegex),
    }
}

/// A release asset: its file name and where it is downloaded from.
pub struct Asset {
    pub name: String,
    pub download_url: String,
}

/// The index of the asset tested `k`-th among `n`, in the given order.
pub open spec fn tested(n: int, k: int, reverse: bool) -> int {
    if reverse {
        n - 1 - k
    } else {
        k
    }
}

/// The `k`-th asset tested is the first one the matcher finds.
pub open spec fn first_found(m: Seq<char>, assets: Seq<Asset>, reverse: bool, k: int) -> bool {
    let n = assets.len() as int;
    &&& 0 <= k < n
    &&& regex_finds(m, assets[tested(n, k, reverse)].name@)
    &&& forall|j: int|
        0 <= j < k ==> !regex_finds(m, #[trigger] assets[tested(n, j, reverse)].name@)
}

/// The `k`-th asset tested is the first one whose name holds `t`.
pub open spec fn first_holding(t: Seq<char>, assets: Seq<Asset>, reverse: bool, k: int) -> bool {
    let n = assets.len() as int;
    &&& 0 <= k < n
    &&& contains(assets[tested(n, k, reverse)].name@, t)
    &&& forall|j: int| 0 <= j < k ==> !contains(#[trigger] assets[tested(n, j, reverse)].name@, t)
}

/// No asset's name holds `t`.
pub open spec fn none_holding(t: Seq<char>, assets: Seq<Asset>) -> bool {
    forall|i: int| 0 <= i < assets.len() ==> !contains(#[trigger] assets[i].name@, t)
}

/// The download URL of the first asset whose name `matcher` finds, going
/// through `assets` in their order, or from the last one back if `reverse`.
pub fn match_asset(matcher: &Matcher, assets: &Vec<Asset>, reverse: bool) -> (r: Result<
    String,
    ResolveError,
>)
    ensures
        match r {
            Ok(url) => exists|k: int|
                {
                    &&& first_found(matcher@, assets@, reverse, k)
                    &&& url@ == assets@[tested(assets@.len() as int, k, reverse)].download_url@
                    &&& forall|t: Seq<char>|
                        matcher@ == #[trigger] escaped(t) ==> first_holding(t, assets@, reverse, k)
                },
            Err(e) => {
                &&& e == ResolveError::NoMatchingAsset
                &&& forall|i: int|
                    0 <= i < assets@.len() ==> !regex_finds(matcher@, #[trigger] assets@[i].name@)
                &&& forall|t: Seq<char>|
                    matcher@ == #[trigger] escaped(t) ==> none_holding(t, assets@)
            },
        },
{
    let n = assets.len();
    let mut k: usize = 0;
    while k < n
        invariant
            n == assets@.len(),
            k <= n,
            forall|j: int|
                0 <= j < k ==> !regex_finds(
                    matcher@,
                    #[trigger] assets@[tested(n as int, j, reverse)].name@,
                ),
            forall|t: Seq<char>|
                matcher@ == #[trigger] escaped(t) ==> forall|j: int|
                    0 <= j < k ==> !contains(
                        #[trigger] assets@[tested(n as int, j, reverse)].name@,
                        t,
                    ),
        decreases n - k,
    {
        let i = if reverse {
            n - 1 - k
        } else {
            k
        };
        let asset = &assets[i];
        if regex_is_match(matcher, asset.name.as_str()) {
            let url = asset.download_url.clone();
            proof {
                assert(first_found(matcher@, assets@, reverse, k as int));
            }
            return Ok(url);
        }
        k += 1;
    }
    proof {
        assert forall|i: int| 0 <= i < n implies !regex_finds(
            matcher@,
            #[trigger] assets@[i].name@,
        ) by {
            let j = tested(n as int, i, reverse);
            assert(tested(n as int, j, reverse) == i);
        }
        assert forall|t: Seq<char>| matcher@ == #[trigger] escaped(t) implies none_holding(
            t,
            assets@,
        ) by {
            assert forall|i: int| 0 <= i < n implies !contains(#[trigger] assets@[i].name@, t) by {
                let j = tested(n as int, i, reverse);
                assert(tested(n as int, j, reverse) == i);
            }
        }
    }
    Err(ResolveError::NoMatchingAsset)
}

} // verus!
