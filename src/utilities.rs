//! Classifying navigation values as absolute or relative URLs, computing the
//! `scheme://host[:port]` base of a URL, and resolving a navigation value
//! against the current URL.

use vstd::prelude::*;
use vstd::string::*;

verus! {

/// Why a string could not be parsed as a standalone URL.
#[derive(Clone, Copy, Debug, PartialEq, Eq, Structural)]
pub enum UrlParseError {
    /// The text looks like a path or fragment: it needs a base URL.
    RelativeUrlWithoutBase,
    /// Any other parse failure (bad host, bad port, ...).
    Malformed,
}

/// The parts of a parsed URL that this library reads, as mathematical values.
pub struct ParsedUrl {
    pub scheme: Seq<char>,
    pub host: Option<Seq<char>>,
    pub port: Option<u16>,
}

/// The parts of a parsed URL that this library reads.
pub struct UrlParts {
    pub scheme: String,
    pub host: Option<String>,
    /// The explicit port; absent when it is the scheme's default.
    pub port: Option<u16>,
}

pub open spec fn opt_string_view(o: Option<String>) -> Option<Seq<char>> {
    match o {
        Some(s) => Some(s@),
        None => None,
    }
}

impl View for UrlParts {
    type V = ParsedUrl;

    open spec fn view(&self) -> ParsedUrl {
        ParsedUrl { scheme: self.scheme@, host: opt_string_view(self.host), port: self.port }
    }
}

pub open spec fn parse_result_view(r: Result<UrlParts, UrlParseError>) -> Result<ParsedUrl, UrlParseError> {
    match r {
        Ok(p) => Ok(p@),
        Err(e) => Err(e),
    }
}

/// What `url::Url::parse` makes of a string: WHATWG URL parsing, which
/// depends on the text alone.
pub uninterp spec fn url_parse(s: Seq<char>) -> Result<ParsedUrl, UrlParseError>;

/// Relies on `url::Url::parse` for parsing an absolute URL, and on the parsed
/// URL's `scheme`, `host_str` and `port` accessors to read it back.
#[verifier::external_body]
fn parse_url(s: &str) -> (r: Result<UrlParts, UrlParseError>)
    ensures
        parse_result_view(r) == url_parse(s@),
{
    match url::Url::parse(s) {
        Ok(u) => Ok(UrlParts {
            scheme: u.scheme().to_string(),
            host: u.host_str().map(|h| h.to_string()),
            port: u.port(),
        }),
        Err(url::ParseError::RelativeUrlWithoutBase) => Err(UrlParseError::RelativeUrlWithoutBase),
        Err(_) => Err(UrlParseError::Malformed),
    }
}

/// A fully qualified URL: it parses on its own and has a host.
pub open spec fn is_absolute(s: Seq<char>) -> bool {
    url_parse(s) matches Ok(p) && p.host is Some
}

/// A path-like value: parsing it alone fails only for want of a base.
pub open spec fn is_relative(s: Seq<char>) -> bool {
    url_parse(s) == Err::<ParsedUrl, UrlParseError>(UrlParseError::RelativeUrlWithoutBase)
}

pub fn is_absolute_url(url: &str) -> (r: bool)
    ensures
        r == is_absolute(url@),
{
    match parse_url(url) {
        Ok(p) => p.host.is_some(),
        Err(_) => false,
    }
}

pub fn is_relative_url(url: &str) -> (r: bool)
    ensures
        r == is_relative(url@),
{
    match parse_url(url) {
        Ok(_) => false,
        Err(UrlParseError::RelativeUrlWithoutBase) => true,
        Err(UrlParseError::Malformed) => false,
    }
}


/// The decimal digit for `d < 10`.
pub open spec fn digit_char(d: nat) -> char {
    if d == 0 { '0' }
    else if d == 1 { '1' }
    else if d == 2 { '2' }
    else if d == 3 { '3' }
    else if d == 4 { '4' }
    else if d == 5 { '5' }
    else if d == 6 { '6' }
    else if d == 7 { '7' }
    else if d == 8 { '8' }
    else { '9' }
}

/// The decimal notation of `n`, without leading zeros.
pub open spec fn decimal(n: nat) -> Seq<char>
    decreases n,
{
    if n < 10 {
        seq![digit_char(n)]
    } else {
        decimal(n / 10).push(digit_char(n % 10))
    }
}

fn digit_text(d: u16) -> (r: &'static str)
    requires
        d < 10,
    ensures
        r@ == seq![digit_char(d as nat)],
{
    proof {
        reveal_strlit("0");
        reveal_strlit("1");
        reveal_strlit("2");
        reveal_strlit("3");
        reveal_strlit("4");
        reveal_strlit("5");
        reveal_strlit("6");
        reveal_strlit("7");
        reveal_strlit("8");
        reveal_strlit("9");
    }
    if d == 0 { "0" }
    else if d == 1 { "1" }
    else if d == 2 { "2" }
    else if d == 3 { "3" }
    else if d == 4 { "4" }
    else if d == 5 { "5" }
    else if d == 6 { "6" }
    else if d == 7 { "7" }
    else if d == 8 { "8" }
    else { "9" }
}

/// Appends the decimal notation of `n` to `out`.
fn push_decimal(out: &mut String, n: u16)
    ensures
        final(out)@ == old(out)@ + decimal(n as nat),
    decreases n,
{
    if n >= 10 {
        push_decimal(out, n / 10);
    }
    out.append(digit_text(n % 10));
    assert(old(out)@ + decimal(n as nat) =~= final(out)@);
}

/// The `:port` suffix of a base URL; empty when the port is the default.
pub open spec fn port_suffix(port: Option<u16>) -> Seq<char> {
    match port {
        Some(n) => seq![':'] + decimal(n as nat),
        None => Seq::empty(),
    }
}

/// Why a URL has no base.
#[derive(Clone, Copy, Debug, PartialEq, Eq, Structural)]
pub enum BaseUrlError {
    /// The URL does not parse on its own.
    Parse(UrlParseError),
    /// The URL parses but has no host (`mailto:`, `data:`, ...).
    NoHost,
}

/// The base of a URL: `scheme://host[:port]`, with no trailing slash.
pub open spec fn base_url(s: Seq<char>) -> Result<Seq<char>, BaseUrlError> {
    match url_parse(s) {
        Err(e) => Err(BaseUrlError::Parse(e)),
        Ok(p) => base_of_parsed(p),
    }
}

pub open spec fn string_result_view<E>(r: Result<String, E>) -> Result<Seq<char>, E> {
    match r {
        Ok(s) => Ok(s@),
        Err(e) => Err(e),
    }
}

/// The base of an already parsed URL: `scheme://host[:port]`.
pub open spec fn base_of_parsed(p: ParsedUrl) -> Result<Seq<char>, BaseUrlError> {
    match p.host {
        None => Err(BaseUrlError::NoHost),
        Some(h) => Ok(p.scheme + seq![':', '/', '/'] + h + port_suffix(p.port)),
    }
}

/// The base of the URL whose parts are `p`; a URL without a host has none.
pub fn base_of_parts(p: &UrlParts) -> (r: Result<String, BaseUrlError>)
    ensures
        string_result_view(r) == base_of_parsed(p@),
{
    match &p.host {
        None => Err(BaseUrlError::NoHost),
        Some(h) => {
            let mut base = p.scheme.clone();
            base.append("://");
            proof {
                reveal_strlit("://");
            }
            base.append(h.as_str());
            match p.port {
                Some(n) => {
                    base.append(":");
                    proof {
                        reveal_strlit(":");
                    }
                    push_decimal(&mut base, n);
                },
                None => {},
            }
            assert(base@ =~= p@.scheme + seq![':', '/', '/'] + h@ + port_suffix(p.port));
            Ok(base)
        },
    }
}

pub fn get_base_url(url: &str) -> (r: Result<String, BaseUrlError>)
    ensures
        string_result_view(r) == base_url(url@),
{
    match parse_url(url) {
        Err(e) => Err(BaseUrlError::Parse(e)),
        Ok(p) => base_of_parts(&p),
    }
}

/// Why a navigation value could not be turned into the next URL.
#[derive(Clone, Copy, Debug, PartialEq, Eq, Structural)]
pub enum ResolveError {
    /// The value is neither an absolute nor a relative URL.
    Unparseable,
    /// The value is relative, and the current URL has no base to join it to.
    NoBase(BaseUrlError),
}

/// A relative value placed after a base, with exactly one `/` between them.
pub open spec fn join_to_base(base: Seq<char>, value: Seq<char>) -> Seq<char> {
    if value.len() > 0 && value[0] == '/' {
        base + value
    } else {
        base + seq!['/'] + value
    }
}

/// The next URL for a navigation value chosen while `current` is shown: an
/// absolute value verbatim, a relative one joined to the base of `current`.
pub open spec fn resolve(value: Seq<char>, current: Seq<char>) -> Result<Seq<char>, ResolveError> {
    if is_absolute(value) {
        Ok(value)
    } else if is_relative(value) {
        match base_url(current) {
            Ok(b) => Ok(join_to_base(b, value)),
            Err(e) => Err(ResolveError::NoBase(e)),
        }
    } else {
        Err(ResolveError::Unparseable)
    }
}

/// Places a relative value after a base, with exactly one `/` between them.
pub fn join_relative(base: &str, value: &str) -> (r: String)
    ensures
        r@ == join_to_base(base@, value@),
{
    let mut next = String::from_str(base);
    if value.unicode_len() == 0 || value.get_char(0) != '/' {
        next.append("/");
        proof {
            reveal_strlit("/");
        }
    }
    next.append(value);
    assert(next@ =~= join_to_base(base@, value@));
    next
}

pub fn resolve_navigation(value: &str, current_url: &str) -> (r: Result<String, ResolveError>)
    ensures
        string_result_view(r) == resolve(value@, current_url@),
{
    match parse_url(value) {
        Ok(p) => {
            if p.host.is_some() {
                Ok(String::from_str(value))
            } else {
                Err(ResolveError::Unparseable)
            }
        },
        Err(UrlParseError::Malformed) => Err(ResolveError::Unparseable),
        Err(UrlParseError::RelativeUrlWithoutBase) => match get_base_url(current_url) {
            Err(e) => Err(ResolveError::NoBase(e)),
            Ok(base) => Ok(join_relative(base.as_str(), value)),
        },
    }
}

/// Resolving an absolute value gives the value itself, whatever the current URL.
pub proof fn absolute_value_resolves_to_itself(value: Seq<char>, current: Seq<char>)
    requires
        is_absolute(value),
    ensures
        resolve(value, current) == Ok::<Seq<char>, ResolveError>(value),
{
}

/// Once a resolved value is absolute, resolving it again against the same
/// URL leaves it unchanged.
pub proof fn resolution_is_idempotent(value: Seq<char>, current: Seq<char>)
    requires
        resolve(value, current) is Ok,
        is_absolute(resolve(value, current)->Ok_0),
    ensures
        resolve(resolve(value, current)->Ok_0, current) == resolve(value, current),
{
}

} // verus!
