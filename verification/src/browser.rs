//! The browser's user agent: what the signed-in page reports of itself, so
//! that it passes for a desktop Chrome on Windows.

use vstd::prelude::*;
use vstd::string::*;
use crate::text::{contains, replace_all, decimal_text};

verus! {

#[verifier::external_type_specification]
#[verifier::external_body]
pub struct ExRegex(regex::Regex);

/// A regular expression, with the pattern it was compiled from.
pub(crate) struct CompiledPattern {
    pattern: String,
    re: regex::Regex,
}

impl View for CompiledPattern {
    type V = Seq<char>;

    closed spec fn view(&self) -> Seq<char> {
        self.pattern@
    }
}

/// Whether `regex::Regex::new` accepts the pattern.
pub uninterp spec fn regex_compiles(pattern: Seq<char>) -> bool;

/// What `Regex::replace` gives for `text`: the leftmost match of the
/// pattern replaced by `rep` (expanded as a replacement string).
pub uninterp spec fn regex_replaced(pattern: Seq<char>, text: Seq<char>, rep: Seq<char>) -> Seq<char>;

/// What `Regex::captures` gives for group `group` of the leftmost match in
/// `text`; `None` when there is no match or the group took no part.
pub uninterp spec fn regex_group(pattern: Seq<char>, text: Seq<char>, group: usize) -> Option<Seq<char>>;

/// Compiles `pattern` with `regex::Regex::new`; `None` where it is refused.
#[verifier::external_body]
pub(crate) fn compile(pattern: &str) -> (r: Option<CompiledPattern>)
    ensures
        r is Some <==> regex_compiles(pattern@),
        r matches Some(c) ==> c@ == pattern@,
{
    match regex::Regex::new(pattern) {
        Ok(re) => Some(CompiledPattern { pattern: pattern.to_string(), re }),
        Err(_) => None,
    }
}

/// Replaces the leftmost match in `text` with `Regex::replace`.
#[verifier::external_body]
pub(crate) fn replace_first(c: &CompiledPattern, text: &str, rep: &str) -> (r: String)
    ensures
        r@ == regex_replaced(c@, text@, rep@),
{
    c.re.replace(text, rep).to_string()
}

/// Group `group` of the leftmost match in `text`, by `Regex::captures`.
#[verifier::external_body]
pub(crate) fn capture_group(c: &CompiledPattern, text: &str, group: usize) -> (r: Option<String>)
    ensures
        r is None <==> regex_group(c@, text@, group) is None,
        r matches Some(s) ==> regex_group(c@, text@, group) == Some(s@),
{
    match c.re.captures(text) {
        Some(caps) => match caps.get(group) {
            Some(m) => Some(m.as_str().to_string()),
            None => None,
        },
        None => None,
    }
}

/// Why the user agent could not be rewritten.
#[derive(Debug, Clone, Copy, PartialEq, Eq, Structural)]
pub enum AgentError {
    /// A pattern did not compile.
    BadPattern,
    /// An expected part of the user agent is missing.
    NoMatch,
    /// The major version is no decimal number.
    BadVersion,
}

/// The pattern of the parenthesised platform part of a user agent.
pub const PLATFORM_PATTERN: &'static str = "\\(([^)]+)\\)";

/// The platform a Linux agent claims instead.
pub const WINDOWS_PLATFORM: &'static str = "(Windows NT 10.0; Win64; x64)";

/// The pattern of the Chrome version in a user agent.
pub const CHROME_VERSION_PATTERN: &'static str = "Chrome\\/([\\d|.]+)";

/// The pattern of the version in the browser's JavaScript engine version.
pub const JS_VERSION_PATTERN: &'static str = "\\/([\\d|.]+)";

/// The user agent as the page should report it: "HeadlessChrome/" becomes
/// "Chrome/", and a Linux (not Android) agent's platform becomes Windows'.
pub open spec fn normalized_agent(raw: Seq<char>) -> Result<Seq<char>, AgentError> {
    let u = replace_all(raw, "HeadlessChrome/"@, "Chrome/"@);
    if contains(u, "Linux"@) && !contains(u, "Android"@) {
        if regex_compiles(PLATFORM_PATTERN@) {
            Ok(regex_replaced(PLATFORM_PATTERN@, u, WINDOWS_PLATFORM@))
        } else {
            Err(AgentError::BadPattern)
        }
    } else {
        Ok(u)
    }
}

fn holds_text(s: &Vec<char>, p: &str) -> (r: bool)
    ensures
        r == contains(s@, p@),
{
    let pv = crate::text::chars_of(p);
    crate::text::contains_exec(s, &pv)
}

/// Rewrites the user agent the page reports.
pub fn normalize_user_agent(raw: &str) -> (r: Result<String, AgentError>)
    ensures
        match r {
            Ok(s) => normalized_agent(raw@) == Ok::<Seq<char>, AgentError>(s@),
            Err(e) => normalized_agent(raw@) == Err::<Seq<char>, AgentError>(e),
        },
{
    let v = crate::text::chars_of(raw);
    let from = crate::text::chars_of("HeadlessChrome/");
    let to = crate::text::chars_of("Chrome/");
    proof {
        reveal_strlit("HeadlessChrome/");
    }
    let u = crate::text::replace_all_exec(&v, &from, &to);
    if holds_text(&u, "Linux") && !holds_text(&u, "Android") {
        match compile(PLATFORM_PATTERN) {
            Some(c) => {
                let text = crate::text::string_of(&u);
                Ok(replace_first(&c, text.as_str(), WINDOWS_PLATFORM))
            },
            None => Err(AgentError::BadPattern),
        }
    } else {
        Ok(crate::text::string_of(&u))
    }
}

/// Group 1 of the pattern's leftmost match in `text`.
pub open spec fn captured(pattern: Seq<char>, text: Seq<char>) -> Result<Seq<char>, AgentError> {
    if !regex_compiles(pattern) {
        Err(AgentError::BadPattern)
    } else {
        match regex_group(pattern, text, 1) {
            Some(g) => Ok(g),
            None => Err(AgentError::NoMatch),
        }
    }
}

/// Group 1 of the pattern's leftmost match in `text`.
pub fn capture(pattern: &str, text: &str) -> (r: Result<String, AgentError>)
    ensures
        match r {
            Ok(s) => captured(pattern@, text@) == Ok::<Seq<char>, AgentError>(s@),
            Err(e) => captured(pattern@, text@) == Err::<Seq<char>, AgentError>(e),
        },
{
    match compile(pattern) {
        Some(c) => match capture_group(&c, text, 1) {
            Some(g) => Ok(g),
            None => Err(AgentError::NoMatch),
        },
        None => Err(AgentError::BadPattern),
    }
}

/// The Chrome version a user agent names, when it names one ("Chrome/"
/// occurs); `None` when the version must come from the browser instead.
pub fn agent_version(ua: &str) -> (r: Option<Result<String, AgentError>>)
    ensures
        !contains(ua@, "Chrome/"@) ==> r is None,
        contains(ua@, "Chrome/"@) ==> (r matches Some(x) && match x {
            Ok(s) => captured(CHROME_VERSION_PATTERN@, ua@) == Ok::<Seq<char>, AgentError>(s@),
            Err(e) => captured(CHROME_VERSION_PATTERN@, ua@) == Err::<Seq<char>, AgentError>(e),
        }),
{
    let v = crate::text::chars_of(ua);
    if holds_text(&v, "Chrome/") {
        Some(capture(CHROME_VERSION_PATTERN, ua))
    } else {
        None
    }
}

/// The version the browser's JavaScript engine version names.
pub fn engine_version(js_version: &str) -> (r: Result<String, AgentError>)
    ensures
        match r {
            Ok(s) => captured(JS_VERSION_PATTERN@, js_version@) == Ok::<Seq<char>, AgentError>(s@),
            Err(e) => captured(JS_VERSION_PATTERN@, js_version@) == Err::<Seq<char>, AgentError>(e),
        },
{
    capture(JS_VERSION_PATTERN, js_version)
}

/// The platform a user agent names; `extended` asks for the long form.
pub open spec fn platform_of(ua: Seq<char>, extended: bool) -> Seq<char> {
    if contains(ua, "Mac OS X"@) {
        if extended { "Mac OS X"@ } else { "MacIntel"@ }
    } else if contains(ua, "Android"@) {
        "Android"@
    } else if contains(ua, "Linux"@) {
        "Linux"@
    } else {
        if extended { "Windows"@ } else { "Win32"@ }
    }
}

/// The platform a user agent names; `extended` asks for the long form.
pub fn get_platform(ua: &str, extended: bool) -> (r: String)
    ensures
        r@ == platform_of(ua@, extended),
{
    let v = crate::text::chars_of(ua);
    if holds_text(&v, "Mac OS X") {
        if extended { String::from_str("Mac OS X") } else { String::from_str("MacIntel") }
    } else if holds_text(&v, "Android") {
        String::from_str("Android")
    } else if holds_text(&v, "Linux") {
        String::from_str("Linux")
    } else {
        if extended { String::from_str("Windows") } else { String::from_str("Win32") }
    }
}

} // verus!

verus! {

/// The part of `s` before its first '.' (all of it when there is none).
pub open spec fn first_segment(s: Seq<char>) -> Seq<char> {
    if exists|i: int| 0 <= i < s.len() && s[i] == '.' {
        s.take(choose|i: int| 0 <= i < s.len() && s[i] == '.' && forall|j: int| 0 <= j < i ==> s[j] != '.')
    } else {
        s
    }
}

/// The number the decimal digits `d` write.
pub open spec fn digits_value(d: Seq<char>) -> int
    decreases d.len(),
{
    if d.len() == 0 {
        0
    } else {
        digits_value(d.drop_last()) * 10 + (d.last() as int - 48)
    }
}

/// `s` without one leading '+'.
pub open spec fn unsigned_part(s: Seq<char>) -> Seq<char> {
    if s.len() > 0 && s[0] == '+' { s.skip(1) } else { s }
}

/// `usize::from_str_radix(s, 10)`: an optional '+', then one or more
/// decimal digits, whose value fits a `usize`.
pub open spec fn parsed_usize(s: Seq<char>) -> Option<usize> {
    let d = unsigned_part(s);
    if d.len() == 0 || exists|i: int| 0 <= i < d.len() && !crate::socket::is_digit(#[trigger] d[i]) {
        None
    } else if digits_value(d) <= usize::MAX {
        Some(digits_value(d) as usize)
    } else {
        None
    }
}

proof fn lemma_digits_value_nonneg(d: Seq<char>)
    requires
        forall|i: int| 0 <= i < d.len() ==> crate::socket::is_digit(#[trigger] d[i]),
    ensures
        digits_value(d) >= 0,
    decreases d.len(),
{
    if d.len() > 0 {
        assert forall|i: int| 0 <= i < d.drop_last().len() implies crate::socket::is_digit(#[trigger] d.drop_last()[i]) by {
            assert(d.drop_last()[i] == d[i]);
        }
        lemma_digits_value_nonneg(d.drop_last());
    }
}

proof fn lemma_digits_value_mono(d: Seq<char>, k: int)
    requires
        0 <= k <= d.len(),
        forall|i: int| 0 <= i < d.len() ==> crate::socket::is_digit(#[trigger] d[i]),
    ensures
        digits_value(d.take(k)) <= digits_value(d),
    decreases d.len() - k,
{
    if k < d.len() {
        lemma_digits_value_mono(d, k + 1);
        assert(d.take(k + 1).drop_last() =~= d.take(k));
        assert forall|i: int| 0 <= i < d.take(k).len() implies crate::socket::is_digit(#[trigger] d.take(k)[i]) by {
            assert(d.take(k)[i] == d[i]);
        }
        lemma_digits_value_nonneg(d.take(k));
    } else {
        assert(d.take(k) =~= d);
    }
}

/// Reads a decimal number as `usize::from_str_radix(s, 10)` does.
pub fn parse_usize(s: &Vec<char>) -> (r: Option<usize>)
    ensures
        r == parsed_usize(s@),
{
    let n = s.len();
    let start: usize = if n > 0 && s[0] == '+' { 1 } else { 0 };
    let ghost d = unsigned_part(s@);
    proof {
        assert(d =~= s@.skip(start as int));
    }
    if start == n {
        return None;
    }
    let mut i: usize = start;
    while i < n
        invariant
            d == s@.skip(start as int),
            d == unsigned_part(s@),
            start <= i <= n == s@.len(),
            forall|j: int| start <= j < i ==> crate::socket::is_digit(#[trigger] s@[j]),
        decreases n - i,
    {
        if !('0' <= s[i] && s[i] <= '9') {
            proof {
                assert(d[i - start] == s@[i as int]);
                assert(!crate::socket::is_digit(d[i - start]));
            }
            return None;
        }
        i = i + 1;
    }
    proof {
        assert forall|j: int| 0 <= j < d.len() implies crate::socket::is_digit(#[trigger] d[j]) by {
            assert(d[j] == s@[start + j]);
        }
    }
    let mut value: usize = 0;
    let mut k: usize = start;
    while k < n
        invariant
            d == s@.skip(start as int),
            d == unsigned_part(s@),
            start <= k <= n == s@.len(),
            forall|j: int| 0 <= j < d.len() ==> crate::socket::is_digit(#[trigger] d[j]),
            value == digits_value(d.take(k - start)),
        decreases n - k,
    {
        proof {
            assert(d[k - start] == s@[k as int]);
            assert(crate::socket::is_digit(d[k - start]));
        }
        let c: u32 = s[k] as u32;
        let digit: usize = (c - 48) as usize;
        proof {
            assert(d.take(k + 1 - start).drop_last() =~= d.take(k - start));
            assert(d.take(k + 1 - start).last() == s@[k as int]);
            assert(digits_value(d.take(k + 1 - start)) == value * 10 + digit);
        }
        match value.checked_mul(10) {
            Some(m) => match m.checked_add(digit) {
                Some(v) => value = v,
                None => {
                    proof {
                        lemma_digits_value_mono(d, k + 1 - start);
                    }
                    return None;
                },
            },
            None => {
                proof {
                    lemma_digits_value_mono(d, k + 1 - start);
                    lemma_digits_value_nonneg(d.take(k - start));
                    assert(digits_value(d.take(k + 1 - start)) >= value * 10);
                }
                return None;
            },
        }
        k = k + 1;
    }
    proof {
        assert(d.take(n - start) =~= d);
    }
    Some(value)
}

/// The part of `s` before its first '.'.
pub fn first_segment_exec(s: &Vec<char>) -> (r: Vec<char>)
    ensures
        r@ == first_segment(s@),
{
    let n = s.len();
    let mut out: Vec<char> = Vec::new();
    let mut i: usize = 0;
    while i < n
        invariant
            n == s@.len(),
            i <= n,
            out@ == s@.take(i as int),
            forall|j: int| 0 <= j < i ==> s@[j] != '.',
        decreases n - i,
    {
        if s[i] == '.' {
            proof {
                let c = choose|c: int| 0 <= c < s@.len() && s@[c] == '.' && forall|j: int| 0 <= j < c ==> s@[j] != '.';
                assert(0 <= i < s@.len() && s@[i as int] == '.' && forall|j: int| 0 <= j < i ==> s@[j] != '.');
                if c < i {
                    assert(s@[c] != '.');
                }
                if c > i {
                    assert(s@[i as int] != '.');
                }
            }
            return out;
        }
        out.push(s[i]);
        proof {
            assert(s@.take(i + 1) =~= s@.take(i as int).push(s@[i as int]));
        }
        i = i + 1;
    }
    proof {
        assert(s@.take(n as int) =~= s@);
    }
    out
}

/// The order of the three separators in the decoy brand, by seed modulo 6.
pub open spec fn brand_order(k: int) -> (int, int, int) {
    if k == 0 {
        (0, 1, 2)
    } else if k == 1 {
        (0, 2, 1)
    } else if k == 2 {
        (1, 0, 2)
    } else if k == 3 {
        (1, 2, 0)
    } else if k == 4 {
        (2, 0, 1)
    } else {
        (2, 1, 0)
    }
}

/// The separator characters of the decoy brand.
pub open spec fn escaped_char(i: int) -> char {
    if i == 2 { ';' } else { ' ' }
}

/// The decoy brand for a seed, "<c>Not<c>A<c>Brand".
pub open spec fn decoy_brand(seed: usize) -> Seq<char> {
    let (x, y, z) = brand_order((seed % 6) as int);
    seq![escaped_char(x)] + "Not"@ + seq![escaped_char(y)] + "A"@ + seq![escaped_char(z)] + "Brand"@
}

/// The decoy brand for every major version, by its remainder modulo 6: the
/// separators before "Not", before "A" and before "Brand" are two spaces
/// and a semicolon, the semicolon last for 0 and 2, in the middle for 1
/// and 3, first for 4 and 5.
pub proof fn law_decoy_brand_by_residue(seed: usize)
    ensures
        (seed % 6 == 0 || seed % 6 == 2) ==> decoy_brand(seed) == " Not A;Brand"@,
        (seed % 6 == 1 || seed % 6 == 3) ==> decoy_brand(seed) == " Not;A Brand"@,
        (seed % 6 == 4 || seed % 6 == 5) ==> decoy_brand(seed) == ";Not A Brand"@,
{
    reveal_strlit("Not");
    reveal_strlit("A");
    reveal_strlit("Brand");
    reveal_strlit(" Not A;Brand");
    reveal_strlit(" Not;A Brand");
    reveal_strlit(";Not A Brand");
    let k = (seed % 6) as int;
    if k == 0 || k == 2 {
        assert(decoy_brand(seed) =~= " Not A;Brand"@);
    } else if k == 1 || k == 3 {
        assert(decoy_brand(seed) =~= " Not;A Brand"@);
    } else {
        assert(decoy_brand(seed) =~= ";Not A Brand"@);
    }
}

/// The brands for every major version: the decoy at "99" first, then
/// "Chromium" and "Google Chrome", both at the major version in decimal.
pub proof fn law_brands_shape(seed: usize)
    ensures
        brands_for(seed).len() == 3,
        brands_for(seed)[0] == (decoy_brand(seed), "99"@),
        brands_for(seed)[1] == ("Chromium"@, decimal_text(seed as nat)),
        brands_for(seed)[2] == ("Google Chrome"@, decimal_text(seed as nat)),
{
}

/// A brand and its version, as the user-agent metadata lists them.
#[derive(Debug)]
pub struct BrandVersion {
    pub brand: String,
    pub version: String,
}

/// The brands for a major version `seed`: the decoy at "99", then
/// Chromium and Google Chrome at the major version.
pub open spec fn brands_for(seed: usize) -> Seq<(Seq<char>, Seq<char>)> {
    seq![
        (decoy_brand(seed), "99"@),
        ("Chromium"@, decimal_text(seed as nat)),
        ("Google Chrome"@, decimal_text(seed as nat)),
    ]
}

/// The view of a brand list.
pub open spec fn brands_view(b: Seq<BrandVersion>) -> Seq<(Seq<char>, Seq<char>)> {
    b.map_values(|x: BrandVersion| (x.brand@, x.version@))
}

fn escaped(i: usize) -> (r: &'static str)
    requires
        i < 3,
    ensures
        r@ == seq![escaped_char(i as int)],
{
    proof {
        reveal_strlit(" ");
        reveal_strlit(";");
    }
    if i == 2 { ";" } else { " " }
}

/// The brands for the version `ua_version` (its major version read as a
/// decimal number).
pub fn get_brands(ua_version: &str) -> (r: Result<Vec<BrandVersion>, AgentError>)
    ensures
        parsed_usize(first_segment(ua_version@)) is None ==> r == Err::<Vec<BrandVersion>, AgentError>(AgentError::BadVersion),
        parsed_usize(first_segment(ua_version@)) matches Some(seed) ==> (r matches Ok(b) && brands_view(b@) == brands_for(seed)),
{
    let v = crate::text::chars_of(ua_version);
    let seg = first_segment_exec(&v);
    let seed = match parse_usize(&seg) {
        Some(x) => x,
        None => return Err(AgentError::BadVersion),
    };
    let k = seed % 6;
    let (x, y, z): (usize, usize, usize) = if k == 0 {
        (0, 1, 2)
    } else if k == 1 {
        (0, 2, 1)
    } else if k == 2 {
        (1, 0, 2)
    } else if k == 3 {
        (1, 2, 0)
    } else if k == 4 {
        (2, 0, 1)
    } else {
        (2, 1, 0)
    };
    let brand = String::from_str(escaped(x))
        .concat("Not")
        .concat(escaped(y))
        .concat("A")
        .concat(escaped(z))
        .concat("Brand");
    let version = crate::text::string_of(&crate::text::u64_text(seed as u64));
    let mut out: Vec<BrandVersion> = Vec::new();
    out.push(BrandVersion { brand, version: String::from_str("99") });
    out.push(BrandVersion { brand: String::from_str("Chromium"), version: version.clone() });
    out.push(BrandVersion { brand: String::from_str("Google Chrome"), version });
    proof {
        assert(brands_view(out@) =~= brands_for(seed));
    }
    Ok(out)
}

/// The platform version a user agent names: after "Mac OS X ", after
/// "Android ", or the version of Windows; empty for other platforms.
pub open spec fn platform_version_of(ua: Seq<char>) -> Result<Seq<char>, AgentError> {
    if contains(ua, "Mac OS X "@) {
        captured("Mac OS X ([^)]+)"@, ua)
    } else if contains(ua, "Android "@) {
        captured("Android ([^;]+)"@, ua)
    } else if contains(ua, "Windows"@) {
        captured("Windows .*?([\\d|.]+);?"@, ua)
    } else {
        Ok(Seq::<char>::empty())
    }
}

/// The platform version a user agent names.
pub fn get_platform_version(ua: &str) -> (r: Result<String, AgentError>)
    ensures
        match r {
            Ok(s) => platform_version_of(ua@) == Ok::<Seq<char>, AgentError>(s@),
            Err(e) => platform_version_of(ua@) == Err::<Seq<char>, AgentError>(e),
        },
{
    let v = crate::text::chars_of(ua);
    if holds_text(&v, "Mac OS X ") {
        capture("Mac OS X ([^)]+)", ua)
    } else if holds_text(&v, "Android ") {
        capture("Android ([^;]+)", ua)
    } else if holds_text(&v, "Windows") {
        capture("Windows .*?([\\d|.]+);?", ua)
    } else {
        Ok(String::new())
    }
}

/// What the page is told to report of itself.
#[derive(Debug)]
pub struct UserAgentOverride {
    pub user_agent: String,
    pub accept_language: String,
    pub platform: String,
    pub brands: Vec<BrandVersion>,
    pub full_version_list: Vec<BrandVersion>,
    pub metadata_platform: String,
    pub platform_version: String,
    pub architecture: String,
    pub model: String,
    pub mobile: bool,
}

/// The override for the user agent `ua` of version `ua_version`: English,
/// the agent's platform, the brands of its major version, Chrome at the
/// full version, an x86 desktop. The brands are read before the platform
/// version, so a bad version is reported first.
pub fn user_agent_override(ua: String, ua_version: String) -> (r: Result<UserAgentOverride, AgentError>)
    ensures
        parsed_usize(first_segment(ua_version@)) is None ==> r == Err::<UserAgentOverride, AgentError>(AgentError::BadVersion),
        parsed_usize(first_segment(ua_version@)) is Some ==> match platform_version_of(ua@) {
            Err(e) => r == Err::<UserAgentOverride, AgentError>(e),
            Ok(pv) => (r matches Ok(o) && {
                &&& o.user_agent@ == ua@
                &&& o.accept_language@ == "en-US,en"@
                &&& o.platform@ == platform_of(ua@, false)
                &&& brands_view(o.brands@) == brands_for(parsed_usize(first_segment(ua_version@)).unwrap())
                &&& brands_view(o.full_version_list@) == seq![("Chrome"@, ua_version@)]
                &&& o.metadata_platform@ == platform_of(ua@, true)
                &&& o.platform_version@ == pv
                &&& o.architecture@ == "x86"@
                &&& o.model@ == Seq::<char>::empty()
                &&& !o.mobile
            }),
        },
{
    let platform = get_platform(ua.as_str(), false);
    let brands = match get_brands(ua_version.as_str()) {
        Ok(b) => b,
        Err(e) => return Err(e),
    };
    let mut full: Vec<BrandVersion> = Vec::new();
    let ghost ver = ua_version@;
    full.push(BrandVersion { brand: String::from_str("Chrome"), version: ua_version });
    proof {
        assert(brands_view(full@) =~= seq![("Chrome"@, ver)]);
    }
    let metadata_platform = get_platform(ua.as_str(), true);
    let platform_version = match get_platform_version(ua.as_str()) {
        Ok(p) => p,
        Err(e) => return Err(e),
    };
    Ok(UserAgentOverride {
        user_agent: ua,
        accept_language: String::from_str("en-US,en"),
        platform,
        brands,
        full_version_list: full,
        metadata_platform,
        platform_version,
        architecture: String::from_str("x86"),
        model: String::new(),
        mobile: false,
    })
}

} // verus!
