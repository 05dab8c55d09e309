//! Searching search.nixos.org: the canonical request, the backend index
//! versions tried, and reading what `curl` returns.

use vstd::prelude::*;

use crate::num::{decimal, u64_to_decimal};
use crate::text::{concat_str, owned, str_eq, strings_view};

verus! {

/// The index version of search.nixos.org that this release queries first.
pub const BUNDLED_BACKEND_VERSION: u32 = 44;

/// The channel searched.
pub open spec fn channel() -> Seq<char> {
    "nixos-unstable"@
}

/// What is searched for.
#[derive(Clone, Copy, Debug, PartialEq, Eq, Structural)]
pub enum SearchKind {
    Packages,
    Options,
}

/// The kind a name selects, or the message for an unknown name.
pub open spec fn search_kind_spec(s: Seq<char>) -> Result<SearchKind, Seq<char>> {
    if s == "packages"@ {
        Ok(SearchKind::Packages)
    } else if s == "options"@ {
        Ok(SearchKind::Options)
    } else {
        Err("expected one of `packages`, `options`, got `"@ + s + "`"@)
    }
}

/// The name of a kind.
pub open spec fn search_kind_word(k: SearchKind) -> Seq<char> {
    match k {
        SearchKind::Packages => "packages"@,
        SearchKind::Options => "options"@,
    }
}

/// Reading back the name of a kind gives the kind.
pub proof fn lemma_search_kind_roundtrip(k: SearchKind)
    ensures
        search_kind_spec(search_kind_word(k)) == Ok::<SearchKind, Seq<char>>(k),
{
    reveal_strlit("packages");
    reveal_strlit("options");
    assert("packages"@ != "options"@) by {
        assert("packages"@[0] != "options"@[0]);
    }
}

impl SearchKind {
    /// The kind a name selects.
    pub fn from_name(s: &str) -> (res: Result<SearchKind, String>)
        ensures
            match search_kind_spec(s@) {
                Ok(k) => res == Ok::<SearchKind, String>(k),
                Err(e) => res matches Err(m) && m@ == e,
            },
    {
        if str_eq(s, "packages") {
            Ok(SearchKind::Packages)
        } else if str_eq(s, "options") {
            Ok(SearchKind::Options)
        } else {
            let mut m = concat_str("expected one of `packages`, `options`, got `", s);
            m.append("`");
            Err(m)
        }
    }

    /// The kind's name.
    pub fn as_str(self) -> (res: &'static str)
        ensures
            res@ == search_kind_word(self),
    {
        match self {
            SearchKind::Packages => "packages",
            SearchKind::Options => "options",
        }
    }
}

impl std::str::FromStr for SearchKind {
    type Err = String;

    fn from_str(s: &str) -> (res: Result<SearchKind, String>)
        ensures
            match search_kind_spec(s@) {
                Ok(k) => res == Ok::<SearchKind, String>(k),
                Err(e) => res matches Err(m) && m@ == e,
            },
    {
        SearchKind::from_name(s)
    }
}

/// What a search looks for.
#[derive(Clone, Copy, Debug, PartialEq, Eq, Structural)]
pub enum Target {
    Packages { platforms: bool },
    Options,
}

/// Which backend index versions a search tries.
#[derive(Clone, Copy, Debug, PartialEq, Eq, Structural)]
pub struct BackendConfig {
    /// The version tried first; `None` uses the bundled one.
    pub version: Option<u32>,
    /// How many newer versions to try when one is missing.
    pub fallbacks: u32,
}

/// The names of the packages searched for.
#[derive(Clone, Debug)]
pub struct Packages {
    pub query: Vec<String>,
}

/// A canonical search request.
#[derive(Clone, Debug)]
pub struct Request {
    pub target: Target,
    pub query: Vec<String>,
    pub limit: u64,
    pub backend: BackendConfig,
    pub json: bool,
}

/// The flags shared by every form of the search command line.
#[derive(Clone, Copy, Debug)]
pub struct SearchFlags {
    pub limit: u64,
    pub platforms: bool,
    pub backend_version: Option<u32>,
    pub backend_fallbacks: u32,
    pub json: bool,
    pub default_search: SearchKind,
}

/// The request a command line asks for: the explicit kind, else the default
/// one; a query is required, and `--platforms` only goes with packages.
pub open spec fn normalize_spec(flags: SearchFlags, kind: Option<SearchKind>, query_len: nat) -> Result<Target, Seq<char>> {
    let k = match kind {
        Some(k) => k,
        None => flags.default_search,
    };
    if query_len == 0 {
        Err("expected at least one search query term"@)
    } else {
        match k {
            SearchKind::Packages => Ok(Target::Packages { platforms: flags.platforms }),
            SearchKind::Options => if flags.platforms {
                Err("`--platforms` only applies to package search"@)
            } else {
                Ok(Target::Options)
            },
        }
    }
}

/// The canonical request of a search command line; `kind` is the explicit
/// subcommand, if one was given.
pub fn normalize(flags: SearchFlags, kind: Option<SearchKind>, query: Vec<String>) -> (res: Result<Request, String>)
    ensures
        match normalize_spec(flags, kind, query@.len()) {
            Ok(t) => res matches Ok(r) && r.target == t && r.query@ == query@ && r.limit == flags.limit
                && r.backend == (BackendConfig { version: flags.backend_version, fallbacks: flags.backend_fallbacks })
                && r.json == flags.json,
            Err(e) => res matches Err(m) && m@ == e,
        },
{
    let k = match kind {
        Some(k) => k,
        None => flags.default_search,
    };
    if query.len() == 0 {
        return Err(owned("expected at least one search query term"));
    }
    let target = match k {
        SearchKind::Packages => Target::Packages { platforms: flags.platforms },
        SearchKind::Options => {
            if flags.platforms {
                return Err(owned("`--platforms` only applies to package search"));
            }
            Target::Options
        },
    };
    Ok(
        Request {
            target,
            query,
            limit: flags.limit,
            backend: BackendConfig { version: flags.backend_version, fallbacks: flags.backend_fallbacks },
            json: flags.json,
        },
    )
}

/// The last index version tried: the first plus the fallbacks, saturating.
pub open spec fn last_version_spec(start: u32, fallbacks: u32) -> u32 {
    if start + fallbacks > u32::MAX {
        u32::MAX
    } else {
        (start + fallbacks) as u32
    }
}

impl BackendConfig {
    /// The first and last index versions tried; `bundled` is the version
    /// shipped with the program.
    pub fn version_range(&self, bundled: u32) -> (res: (u32, u32))
        ensures
            res.0 == match self.version {
                Some(v) => v,
                None => bundled,
            },
            res.1 == last_version_spec(res.0, self.fallbacks),
    {
        let start = match self.version {
            Some(v) => v,
            None => bundled,
        };
        (start, start.saturating_add(self.fallbacks))
    }
}

/// After index `version` was found missing: the next version to try, or
/// the message once `last` has been tried.
pub open spec fn next_version_spec(start: u32, last: u32, version: u32) -> Result<u32, Seq<char>> {
    if version >= last {
        if start == last {
            Err(
                "search.nixos.org has no index for channel '"@ + channel() + "' at backend version "@ + decimal(
                    start as nat,
                ) + ". The version may be wrong."@,
            )
        } else {
            Err(
                "search.nixos.org has no index for channel '"@ + channel() + "' at backend versions "@ + decimal(
                    start as nat,
                ) + " through "@ + decimal(last as nat) + ". nh may be too old to query it."@,
            )
        }
    } else {
        Ok((version + 1) as u32)
    }
}

/// The next index version to try after `version` was found missing.
pub fn next_version(start: u32, last: u32, version: u32) -> (res: Result<u32, String>)
    ensures
        match next_version_spec(start, last, version) {
            Ok(v) => res == Ok::<u32, String>(v),
            Err(e) => res matches Err(m) && m@ == e,
        },
{
    if version >= last {
        if start == last {
            let mut m = owned("search.nixos.org has no index for channel 'nixos-unstable' at backend version ");
            m.append(u64_to_decimal(start as u64).as_str());
            m.append(". The version may be wrong.");
            proof {
                reveal_strlit("search.nixos.org has no index for channel 'nixos-unstable' at backend version ");
                reveal_strlit("search.nixos.org has no index for channel '");
                reveal_strlit("nixos-unstable");
                reveal_strlit("' at backend version ");
            }
            assert(m@ =~= next_version_spec(start, last, version)->Err_0);
            Err(m)
        } else {
            let mut m = owned("search.nixos.org has no index for channel 'nixos-unstable' at backend versions ");
            m.append(u64_to_decimal(start as u64).as_str());
            m.append(" through ");
            m.append(u64_to_decimal(last as u64).as_str());
            m.append(". nh may be too old to query it.");
            proof {
                reveal_strlit("search.nixos.org has no index for channel 'nixos-unstable' at backend versions ");
                reveal_strlit("search.nixos.org has no index for channel '");
                reveal_strlit("nixos-unstable");
                reveal_strlit("' at backend versions ");
            }
            assert(m@ =~= next_version_spec(start, last, version)->Err_0);
            Err(m)
        }
    } else {
        Ok(version + 1)
    }
}

/// The search endpoint of an index version.
pub open spec fn backend_url_spec(version: u32) -> Seq<char> {
    "https://search.nixos.org/backend/latest-"@ + decimal(version as nat) + "-"@ + channel() + "/_search"@
}

/// The search endpoint of an index version.
pub fn backend_url(version: u32) -> (res: String)
    ensures
        res@ == backend_url_spec(version),
{
    let mut u = concat_str("https://search.nixos.org/backend/latest-", u64_to_decimal(version as u64).as_str());
    u.append("-nixos-unstable/_search");
    proof {
        reveal_strlit("-nixos-unstable/_search");
        reveal_strlit("-");
        reveal_strlit("nixos-unstable");
        reveal_strlit("/_search");
    }
    assert(u@ =~= backend_url_spec(version));
    u
}

/// The `curl` arguments of a query to `url` whose body goes on standard
/// input; `version_tag` is the program's version for the user agent. The
/// status code is written after the body, on a line of its own.
pub fn curl_args(version_tag: &str, url: &str) -> (res: Vec<String>)
    ensures
        strings_view(res@) == seq![
            "--silent"@,
            "--show-error"@,
            "--request"@,
            "POST"@,
            "--header"@,
            "Content-Type: application/json"@,
            "--user-agent"@,
            "nh/"@ + version_tag@,
            "--user"@,
            "aWVSALXpZv:X8gPHnzL52wFEekuxsfQ9cSh"@,
            "--data-binary"@,
            "@-"@,
            "--write-out"@,
            "\n%{http_code}"@,
            url@,
        ],
{
    let v: Vec<String> = vec![
        owned("--silent"),
        owned("--show-error"),
        owned("--request"),
        owned("POST"),
        owned("--header"),
        owned("Content-Type: application/json"),
        owned("--user-agent"),
        concat_str("nh/", version_tag),
        owned("--user"),
        owned("aWVSALXpZv:X8gPHnzL52wFEekuxsfQ9cSh"),
        owned("--data-binary"),
        owned("@-"),
        owned("--write-out"),
        owned("\n%{http_code}"),
        owned(url),
    ];
    assert(strings_view(v@) =~= seq![
        "--silent"@,
        "--show-error"@,
        "--request"@,
        "POST"@,
        "--header"@,
        "Content-Type: application/json"@,
        "--user-agent"@,
        "nh/"@ + version_tag@,
        "--user"@,
        "aWVSALXpZv:X8gPHnzL52wFEekuxsfQ9cSh"@,
        "--data-binary"@,
        "@-"@,
        "--write-out"@,
        "\n%{http_code}"@,
        url@,
    ]);
    v
}

/// The position of the last line feed in `bytes`.
pub open spec fn last_newline(bytes: Seq<u8>) -> Option<int>
    decreases bytes.len(),
{
    if bytes.len() == 0 {
        None
    } else if bytes.last() == 10 {
        Some(bytes.len() - 1)
    } else {
        last_newline(bytes.drop_last())
    }
}

/// Calls `std::str::from_utf8` and copies the text: `Some` exactly when
/// the bytes are valid UTF-8, holding the characters they encode.
#[verifier::external_body]
fn utf8_text(bytes: &[u8]) -> (res: Option<String>)
    ensures
        res is Some <==> vstd::utf8::valid_utf8(bytes@),
        res matches Some(s) ==> s@ == vstd::utf8::decode_utf8(bytes@),
{
    std::str::from_utf8(bytes).ok().map(|s| s.to_owned())
}

/// The body and HTTP status of `curl` output whose last line holds the
/// status code.
pub open spec fn split_curl_spec(stdout: Seq<u8>) -> Result<(Seq<u8>, nat), Seq<char>> {
    match last_newline(stdout) {
        None => Err("splitting curl's status code from the response body"@),
        Some(i) => {
            let status = stdout.skip(i + 1);
            if !vstd::utf8::valid_utf8(status) {
                Err("reading curl's status code"@)
            } else {
                match crate::num::parse_unsigned_spec(vstd::utf8::decode_utf8(status), u16::MAX as nat) {
                    Ok(n) => Ok((stdout.take(i), n)),
                    Err(_) => Err("parsing curl's status code"@),
                }
            }
        },
    }
}

/// Splits `curl` output into the response body and the HTTP status.
pub fn split_curl_output(stdout: &Vec<u8>) -> (res: Result<(Vec<u8>, u16), String>)
    ensures
        match split_curl_spec(stdout@) {
            Ok((body, status)) => res matches Ok((b, s)) && b@ == body && s as nat == status,
            Err(e) => res matches Err(m) && m@ == e,
        },
{
    let mut i: usize = stdout.len();
    assert(stdout@.take(i as int) =~= stdout@);
    while i > 0 && stdout[i - 1] != 10
        invariant
            i <= stdout.len(),
            last_newline(stdout@) == last_newline(stdout@.take(i as int)),
        decreases i,
    {
        assert(stdout@.take(i as int).drop_last() =~= stdout@.take(i - 1));
        i = i - 1;
    }
    if i == 0 {
        return Err(owned("splitting curl's status code from the response body"));
    }
    let sep = i - 1;
    let mut body: Vec<u8> = Vec::new();
    let mut k: usize = 0;
    while k < sep
        invariant
            k <= sep < stdout.len(),
            body@ == stdout@.take(k as int),
        decreases sep - k,
    {
        body.push(stdout[k]);
        k = k + 1;
        assert(body@ =~= stdout@.take(k as int));
    }
    let mut status_bytes: Vec<u8> = Vec::new();
    let mut j: usize = sep + 1;
    while j < stdout.len()
        invariant
            sep + 1 <= j <= stdout.len(),
            status_bytes@ == stdout@.subrange(sep + 1, j as int),
        decreases stdout.len() - j,
    {
        status_bytes.push(stdout[j]);
        j = j + 1;
        assert(status_bytes@ =~= stdout@.subrange(sep + 1, j as int));
    }
    assert(status_bytes@ =~= stdout@.skip(sep + 1));
    let text = match utf8_text(status_bytes.as_slice()) {
        Some(t) => t,
        None => return Err(owned("reading curl's status code")),
    };
    match crate::num::parse_unsigned(text.as_str(), 65535) {
        Ok(n) => Ok((body, n as u16)),
        Err(_) => Err(owned("parsing curl's status code")),
    }
}

/// What an HTTP status means for a search: a missing index (404) asks for
/// the next version, success gives the response, anything else fails.
pub open spec fn status_spec(status: u16) -> Result<bool, Seq<char>> {
    if status == 404 {
        Ok(false)
    } else if !(200 <= status && status < 300) {
        Err(
            "search.nixos.org returned HTTP "@ + decimal(status as nat) + " for channel '"@ + channel()
                + "'. The backend request was rejected or malformed."@,
        )
    } else {
        Ok(true)
    }
}

/// Whether the response holds results (`false`: the index is missing).
pub fn check_status(status: u16) -> (res: Result<bool, String>)
    ensures
        match status_spec(status) {
            Ok(b) => res == Ok::<bool, String>(b),
            Err(e) => res matches Err(m) && m@ == e,
        },
{
    if status == 404 {
        return Ok(false);
    }
    if !(200 <= status && status < 300) {
        let mut m = concat_str("search.nixos.org returned HTTP ", u64_to_decimal(status as u64).as_str());
        m.append(" for channel 'nixos-unstable'. The backend request was rejected or malformed.");
        proof {
            reveal_strlit(" for channel 'nixos-unstable'. The backend request was rejected or malformed.");
            reveal_strlit(" for channel '");
            reveal_strlit("nixos-unstable");
            reveal_strlit("'. The backend request was rejected or malformed.");
        }
        assert(m@ =~= status_spec(status)->Err_0);
        return Err(m);
    }
    Ok(true)
}

/// The link to a file of nixpkgs on GitHub, from a `file:line` position.
pub open spec fn source_url_spec(position: Seq<char>) -> Seq<char> {
    let file = match crate::text::first_index_of(position, ':') {
        Some(i) => position.take(i),
        None => position,
    };
    "https://github.com/NixOS/nixpkgs/blob/"@ + channel() + "/"@ + file
}

/// The link to a file of nixpkgs on GitHub, from a `file:line` position.
pub fn source_url(position: &str) -> (res: String)
    ensures
        res@ == source_url_spec(position@),
{
    let cs = crate::text::chars_of(position);
    let file = match crate::text::find_char(&cs, ':') {
        Some(i) => {
            let f = crate::text::slice_chars(&cs, 0, i);
            assert(f@ =~= cs@.take(i as int));
            crate::text::string_from_chars(&f)
        },
        None => owned(position),
    };
    let u = concat_str("https://github.com/NixOS/nixpkgs/blob/nixos-unstable/", file.as_str());
    proof {
        reveal_strlit("https://github.com/NixOS/nixpkgs/blob/nixos-unstable/");
        reveal_strlit("https://github.com/NixOS/nixpkgs/blob/");
        reveal_strlit("nixos-unstable");
        reveal_strlit("/");
    }
    assert(u@ =~= source_url_spec(position@));
    u
}

/// The expression matching an HTML tag.
pub open spec fn html_tag_regex() -> Seq<char> {
    "<[^>]*>"@
}

/// A description without HTML tags, trimmed.
pub open spec fn strip_html_spec(html: Seq<char>) -> Seq<char> {
    crate::text::trim_spec(crate::pattern::pattern_replace_all(html_tag_regex(), html, Seq::empty()))
}

/// A description without HTML tags, trimmed.
pub fn strip_html(html: &str) -> (res: String)
    ensures
        res@ == strip_html_spec(html@),
{
    let stripped = crate::pattern::replace_all("<[^>]*>", html, "");
    proof {
        reveal_strlit("");
    }
    assert(""@ =~= Seq::<char>::empty());
    crate::text::trim(stripped.as_str())
}

/// A package search result.
#[derive(Debug, Clone)]
pub struct PackageSearchResult {
    pub package_attr_name: String,
    pub package_attr_set: String,
    pub package_pname: String,
    pub package_pversion: String,
    pub package_platforms: Vec<String>,
    pub package_outputs: Vec<String>,
    pub package_default_output: Option<String>,
    pub package_programs: Vec<String>,
    pub package_main_program: Option<String>,
    pub package_license_set: Vec<String>,
    pub package_description: Option<String>,
    pub package_long_description: Option<String>,
    pub package_system: String,
    pub package_homepage: Vec<String>,
    pub package_position: Option<String>,
}

/// An option search result.
#[derive(Debug, Clone)]
pub struct OptionSearchResult {
    pub option_type_kind: String,
    pub option_name: String,
    pub option_description: Option<String>,
    pub option_type: Option<String>,
    pub option_default: Option<String>,
    pub option_example: Option<String>,
    pub option_source: Option<String>,
    pub option_flake: Option<Vec<String>>,
    pub flake_name: Option<String>,
    pub flake_description: Option<String>,
}

/// The JSON document a search prints.
pub struct JsonOutput<'a, T> {
    pub query: &'a str,
    pub channel: &'a str,
    pub elapsed_ms: u128,
    pub results: &'a [T],
}

} // verus!

verus! {

/// The lines `textwrap::wrap` makes of `text` at `width` columns.
pub uninterp spec fn wrapped_text(text: Seq<char>, width: usize) -> Seq<Seq<char>>;

/// Calls `textwrap::wrap` with the default options at `width` columns and
/// copies the lines out.
#[verifier::external_body]
fn wrap_text(text: &str, width: usize) -> (res: Vec<String>)
    ensures
        strings_view(res@) == wrapped_text(text@, width),
{
    textwrap::wrap(text, width).into_iter().map(|line| line.into_owned()).collect()
}

/// How a piece of a rendered search result is shown.
#[derive(Clone, Copy, Debug, PartialEq, Eq, Structural)]
pub enum Style {
    Plain,
    Blue,
    Green,
    Yellow,
    /// A URL: dimmed, and a hyperlink where the terminal supports them.
    Link,
}

/// A styled piece of a rendered line.
#[derive(Clone, Debug)]
pub struct Piece {
    pub style: Style,
    pub text: String,
}

/// The mathematical value of a rendered line.
pub open spec fn piece_line(line: Vec<Piece>) -> Seq<(Style, Seq<char>)> {
    line@.map_values(|p: Piece| (p.style, p.text@))
}

/// The mathematical value of rendered lines.
pub open spec fn piece_lines(lines: Seq<Vec<Piece>>) -> Seq<Seq<(Style, Seq<char>)>> {
    lines.map_values(|l: Vec<Piece>| piece_line(l))
}

/// A line of one plain piece.
pub open spec fn plain_line(text: Seq<char>) -> Seq<(Style, Seq<char>)> {
    seq![(Style::Plain, text)]
}

/// `text` wrapped at `width`, each line indented by two spaces.
pub open spec fn wrapped_plain(text: Seq<char>, width: usize) -> Seq<Seq<(Style, Seq<char>)>> {
    wrapped_text(text, width).map_values(|l: Seq<char>| plain_line("  "@ + l))
}

/// `n` spaces.
pub open spec fn spaces(n: nat) -> Seq<char> {
    Seq::new(n, |_i: int| ' ')
}

/// A labelled field wrapped at `width`: `  label: ` before the first line,
/// as many spaces before each following one.
pub open spec fn field_lines(label: Seq<char>, value: Seq<char>, width: usize) -> Seq<Seq<(Style, Seq<char>)>> {
    let prefix = "  "@ + label + ": "@;
    let lines = wrapped_text(value, width);
    Seq::new(
        lines.len(),
        |i: int|
            plain_line(
                if i == 0 {
                    prefix
                } else {
                    spaces(prefix.len())
                } + lines[i],
            ),
    )
}

/// A labelled link line.
pub open spec fn link_line(label: Seq<char>, url: Seq<char>) -> Seq<(Style, Seq<char>)> {
    seq![(Style::Plain, "  "@ + label + ": "@), (Style::Link, url)]
}

/// The lines of an optional value, none when it is absent.
pub open spec fn opt_lines(
    o: Option<String>,
    f: spec_fn(Seq<char>) -> Seq<Seq<(Style, Seq<char>)>>,
) -> Seq<Seq<(Style, Seq<char>)>> {
    match o {
        Some(v) => f(v@),
        None => Seq::empty(),
    }
}

/// The title line of a package: its attribute name, then its version when
/// it has one.
pub open spec fn package_title(d: PackageSearchResult) -> Seq<(Style, Seq<char>)> {
    seq![(Style::Blue, d.package_attr_name@)] + if d.package_pversion@.len() > 0 {
        seq![(Style::Plain, " ("@), (Style::Green, d.package_pversion@), (Style::Plain, ")"@)]
    } else {
        Seq::empty()
    }
}

/// The lines of one package result: a blank line, the title, the
/// description, the main program, the homepages, the platforms when asked
/// for, and the link to its source.
pub open spec fn package_entry_spec(platforms: bool, d: PackageSearchResult, width: usize) -> Seq<
    Seq<(Style, Seq<char>)>,
> {
    seq![Seq::empty(), package_title(d)] + opt_lines(
        d.package_description,
        |t: Seq<char>| wrapped_plain(crate::text::replace_char_spec(t, '\n', " "@), width),
    ) + opt_lines(d.package_main_program, |m: Seq<char>| field_lines("Main program"@, m, width))
        + strings_view(d.package_homepage@).map_values(|u: Seq<char>| link_line("Homepage"@, u)) + (if platforms
        && d.package_platforms@.len() > 0 {
        seq![
            plain_line(
                "  Platforms: "@ + crate::text::join_spec(strings_view(d.package_platforms@), ", "@),
            ),
        ]
    } else {
        Seq::empty()
    }) + opt_lines(d.package_position, |p: Seq<char>| seq![link_line("GitHub link"@, source_url_spec(p))])
}

/// The title line of an option: its name, its type and an example when
/// known.
pub open spec fn option_title(d: OptionSearchResult) -> Seq<(Style, Seq<char>)> {
    seq![(Style::Blue, d.option_name@)] + (match d.option_type {
        Some(t) => seq![(Style::Plain, " :: "@), (Style::Green, t@)],
        None => Seq::empty(),
    }) + match d.option_example {
        Some(e) => seq![(Style::Plain, " (example: "@), (Style::Yellow, e@), (Style::Plain, ")"@)],
        None => Seq::empty(),
    }
}

/// The lines of one option result: a blank line, the title, the scope,
/// the description without markup, the default, and the link to its
/// source.
pub open spec fn option_entry_spec(d: OptionSearchResult, width: usize) -> Seq<Seq<(Style, Seq<char>)>> {
    seq![Seq::empty(), option_title(d), plain_line("  Scope: "@ + d.option_type_kind@)] + opt_lines(
        d.option_description,
        |t: Seq<char>| wrapped_plain(crate::text::replace_char_spec(strip_html_spec(t), '\n', " "@), width),
    ) + opt_lines(d.option_default, |v: Seq<char>| field_lines("Default"@, v, width)) + opt_lines(
        d.option_source,
        |s: Seq<char>| seq![link_line("Source"@, source_url_spec(s))],
    )
}

/// The lines of package results, the most relevant (first) last.
pub open spec fn packages_spec(platforms: bool, docs: Seq<PackageSearchResult>, width: usize) -> Seq<
    Seq<(Style, Seq<char>)>,
>
    decreases docs.len(),
{
    if docs.len() == 0 {
        Seq::empty()
    } else {
        package_entry_spec(platforms, docs.last(), width) + packages_spec(platforms, docs.drop_last(), width)
    }
}

/// The lines of option results, the most relevant (first) last.
pub open spec fn options_spec(docs: Seq<OptionSearchResult>, width: usize) -> Seq<Seq<(Style, Seq<char>)>>
    decreases docs.len(),
{
    if docs.len() == 0 {
        Seq::empty()
    } else {
        option_entry_spec(docs.last(), width) + options_spec(docs.drop_last(), width)
    }
}

fn piece(style: Style, text: String) -> (res: Piece)
    ensures
        res.style == style,
        res.text@ == text@,
{
    Piece { style, text }
}

fn one_piece(style: Style, text: String) -> (res: Vec<Piece>)
    ensures
        piece_line(res) == seq![(style, text@)],
{
    let mut v: Vec<Piece> = Vec::new();
    v.push(piece(style, text));
    assert(piece_line(v) =~= seq![(style, text@)]);
    v
}

fn append_lines(dst: &mut Vec<Vec<Piece>>, src: Vec<Vec<Piece>>)
    ensures
        piece_lines(final(dst)@) == piece_lines(old(dst)@) + piece_lines(src@),
{
    let ghost before = dst@;
    let mut src = src;
    let ghost moved = src@;
    dst.append(&mut src);
    assert(piece_lines(before + moved) =~= piece_lines(before) + piece_lines(moved));
}

fn plain_wrapped(text: &str, width: usize) -> (res: Vec<Vec<Piece>>)
    ensures
        piece_lines(res@) == wrapped_plain(text@, width),
{
    let lines = wrap_text(text, width);
    let ghost w = wrapped_text(text@, width);
    let mut out: Vec<Vec<Piece>> = Vec::new();
    let mut i: usize = 0;
    while i < lines.len()
        invariant
            i <= lines.len(),
            strings_view(lines@) == w,
            w == wrapped_text(text@, width),
            piece_lines(out@) == w.take(i as int).map_values(|l: Seq<char>| plain_line("  "@ + l)),
        decreases lines.len() - i,
    {
        let ghost prev = out@;
        let line = one_piece(Style::Plain, concat_str("  ", lines[i].as_str()));
        out.push(line);
        assert(w[i as int] == lines@[i as int]@);
        assert(w.take(i + 1) =~= w.take(i as int).push(w[i as int]));
        assert(piece_lines(out@) =~= piece_lines(prev).push(piece_line(line)));
        i = i + 1;
    }
    assert(w.take(lines.len() as int) =~= w);
    out
}

fn space_string(n: usize) -> (res: String)
    ensures
        res@ == spaces(n as nat),
{
    let mut r = String::new();
    let mut k: usize = 0;
    while k < n
        invariant
            k <= n,
            r@ == spaces(k as nat),
        decreases n - k,
    {
        crate::text::string_push(&mut r, ' ');
        k = k + 1;
        assert(r@ =~= spaces(k as nat));
    }
    r
}

fn field_wrapped(label: &str, value: &str, width: usize) -> (res: Vec<Vec<Piece>>)
    ensures
        piece_lines(res@) == field_lines(label@, value@, width),
{
    let mut prefix = concat_str("  ", label);
    prefix.append(": ");
    let n = crate::text::chars_of(prefix.as_str()).len();
    let indent = space_string(n);
    let lines = wrap_text(value, width);
    let ghost w = wrapped_text(value@, width);
    let ghost all = field_lines(label@, value@, width);
    let mut out: Vec<Vec<Piece>> = Vec::new();
    let mut i: usize = 0;
    while i < lines.len()
        invariant
            i <= lines.len(),
            strings_view(lines@) == w,
            w == wrapped_text(value@, width),
            all == field_lines(label@, value@, width),
            all.len() == w.len(),
            prefix@ == "  "@ + label@ + ": "@,
            indent@ == spaces(prefix@.len()),
            piece_lines(out@) == all.take(i as int),
        decreases lines.len() - i,
    {
        let ghost prev = out@;
        let text = if i == 0 {
            concat_str(prefix.as_str(), lines[i].as_str())
        } else {
            concat_str(indent.as_str(), lines[i].as_str())
        };
        let line = one_piece(Style::Plain, text);
        out.push(line);
        assert(w[i as int] == lines@[i as int]@);
        assert(all[i as int] == piece_line(line));
        assert(all.take(i + 1) =~= all.take(i as int).push(all[i as int]));
        assert(piece_lines(out@) =~= piece_lines(prev).push(piece_line(line)));
        i = i + 1;
    }
    assert(all.take(lines.len() as int) =~= all);
    out
}

fn link(label: &str, url: String) -> (res: Vec<Piece>)
    ensures
        piece_line(res) == link_line(label@, url@),
{
    let mut head = concat_str("  ", label);
    head.append(": ");
    let mut v: Vec<Piece> = Vec::new();
    v.push(piece(Style::Plain, head));
    v.push(piece(Style::Link, url));
    assert(piece_line(v) =~= link_line(label@, url@));
    v
}

fn push_line(dst: &mut Vec<Vec<Piece>>, line: Vec<Piece>)
    ensures
        piece_lines(final(dst)@) == piece_lines(old(dst)@).push(piece_line(line)),
{
    let ghost before = dst@;
    dst.push(line);
    assert(piece_lines(dst@) =~= piece_lines(before).push(piece_line(line)));
}

fn package_title_line(d: &PackageSearchResult) -> (res: Vec<Piece>)
    ensures
        piece_line(res) == package_title(*d),
{
    let mut v: Vec<Piece> = Vec::new();
    v.push(piece(Style::Blue, d.package_attr_name.clone()));
    if !d.package_pversion.as_str().is_empty() {
        v.push(piece(Style::Plain, owned(" (")));
        v.push(piece(Style::Green, d.package_pversion.clone()));
        v.push(piece(Style::Plain, owned(")")));
    }
    assert(piece_line(v) =~= package_title(*d));
    v
}

fn option_title_line(d: &OptionSearchResult) -> (res: Vec<Piece>)
    ensures
        piece_line(res) == option_title(*d),
{
    let mut v: Vec<Piece> = Vec::new();
    v.push(piece(Style::Blue, d.option_name.clone()));
    let ghost a = piece_line(v);
    match &d.option_type {
        Some(t) => {
            v.push(piece(Style::Plain, owned(" :: ")));
            v.push(piece(Style::Green, t.clone()));
        },
        None => {},
    }
    let ghost b = piece_line(v);
    match &d.option_example {
        Some(e) => {
            v.push(piece(Style::Plain, owned(" (example: ")));
            v.push(piece(Style::Yellow, e.clone()));
            v.push(piece(Style::Plain, owned(")")));
        },
        None => {},
    }
    assert(piece_line(v) =~= option_title(*d));
    v
}

/// The rendered lines of one package result.
pub fn package_entry(platforms: bool, d: &PackageSearchResult, width: usize) -> (res: Vec<Vec<Piece>>)
    ensures
        piece_lines(res@) == package_entry_spec(platforms, *d, width),
{
    let mut out: Vec<Vec<Piece>> = Vec::new();
    let blank: Vec<Piece> = Vec::new();
    assert(piece_line(blank) =~= Seq::<(Style, Seq<char>)>::empty());
    push_line(&mut out, blank);
    push_line(&mut out, package_title_line(d));
    let ghost p0 = piece_lines(out@);
    assert(p0 =~= seq![Seq::empty(), package_title(*d)]);
    match &d.package_description {
        Some(t) => {
            let flat = crate::text::replace_char(t.as_str(), '\n', " ");
            append_lines(&mut out, plain_wrapped(flat.as_str(), width));
        },
        None => {},
    }
    let ghost p1 = piece_lines(out@);
    match &d.package_main_program {
        Some(m) => append_lines(&mut out, field_wrapped("Main program", m.as_str(), width)),
        None => {},
    }
    let ghost p2 = piece_lines(out@);
    let ghost homes = strings_view(d.package_homepage@).map_values(|u: Seq<char>| link_line("Homepage"@, u));
    let mut k: usize = 0;
    while k < d.package_homepage.len()
        invariant
            k <= d.package_homepage.len(),
            homes == strings_view(d.package_homepage@).map_values(|u: Seq<char>| link_line("Homepage"@, u)),
            piece_lines(out@) == p2 + homes.take(k as int),
        decreases d.package_homepage.len() - k,
    {
        push_line(&mut out, link("Homepage", d.package_homepage[k].clone()));
        assert(homes.take(k + 1) =~= homes.take(k as int).push(homes[k as int]));
        k = k + 1;
    }
    assert(homes.take(d.package_homepage.len() as int) =~= homes);
    let ghost p3 = piece_lines(out@);
    if platforms && d.package_platforms.len() > 0 {
        let joined = crate::text::join_strings(&d.package_platforms, ", ");
        push_line(&mut out, one_piece(Style::Plain, concat_str("  Platforms: ", joined.as_str())));
    }
    let ghost p4 = piece_lines(out@);
    match &d.package_position {
        Some(p) => push_line(&mut out, link("GitHub link", source_url(p.as_str()))),
        None => {},
    }
    proof {
        let spec = package_entry_spec(platforms, *d, width);
        assert(p1 == p0 + opt_lines(
            d.package_description,
            |t: Seq<char>| wrapped_plain(crate::text::replace_char_spec(t, '\n', " "@), width),
        ));
        assert(p2 == p1 + opt_lines(d.package_main_program, |m: Seq<char>| field_lines("Main program"@, m, width)));
        assert(piece_lines(out@) =~= spec);
    }
    out
}

/// The rendered lines of one option result.
pub fn option_entry(d: &OptionSearchResult, width: usize) -> (res: Vec<Vec<Piece>>)
    ensures
        piece_lines(res@) == option_entry_spec(*d, width),
{
    let mut out: Vec<Vec<Piece>> = Vec::new();
    let blank: Vec<Piece> = Vec::new();
    assert(piece_line(blank) =~= Seq::<(Style, Seq<char>)>::empty());
    push_line(&mut out, blank);
    push_line(&mut out, option_title_line(d));
    push_line(&mut out, one_piece(Style::Plain, concat_str("  Scope: ", d.option_type_kind.as_str())));
    let ghost p0 = piece_lines(out@);
    assert(p0 =~= seq![Seq::empty(), option_title(*d), plain_line("  Scope: "@ + d.option_type_kind@)]);
    match &d.option_description {
        Some(t) => {
            let stripped = strip_html(t.as_str());
            let flat = crate::text::replace_char(stripped.as_str(), '\n', " ");
            append_lines(&mut out, plain_wrapped(flat.as_str(), width));
        },
        None => {},
    }
    let ghost p1 = piece_lines(out@);
    match &d.option_default {
        Some(v) => append_lines(&mut out, field_wrapped("Default", v.as_str(), width)),
        None => {},
    }
    let ghost p2 = piece_lines(out@);
    match &d.option_source {
        Some(src) => push_line(&mut out, link("Source", source_url(src.as_str()))),
        None => {},
    }
    proof {
        assert(p1 == p0 + opt_lines(
            d.option_description,
            |t: Seq<char>| wrapped_plain(crate::text::replace_char_spec(strip_html_spec(t), '\n', " "@), width),
        ));
        assert(p2 == p1 + opt_lines(d.option_default, |v: Seq<char>| field_lines("Default"@, v, width)));
        assert(piece_lines(out@) =~= option_entry_spec(*d, width));
    }
    out
}

/// The rendered package results, the most relevant last.
pub fn package_lines(platforms: bool, docs: &Vec<PackageSearchResult>, width: usize) -> (res: Vec<Vec<Piece>>)
    ensures
        piece_lines(res@) == packages_spec(platforms, docs@, width),
{
    let mut out: Vec<Vec<Piece>> = Vec::new();
    let mut k: usize = docs.len();
    assert(docs@.take(docs.len() as int) =~= docs@);
    while k > 0
        invariant
            k <= docs.len(),
            packages_spec(platforms, docs@, width) == piece_lines(out@) + packages_spec(
                platforms,
                docs@.take(k as int),
                width,
            ),
        decreases k,
    {
        let ghost prev = piece_lines(out@);
        let ghost t = docs@.take(k as int);
        assert(t.last() == docs@[k - 1]);
        assert(t.drop_last() =~= docs@.take(k - 1));
        append_lines(&mut out, package_entry(platforms, &docs[k - 1], width));
        k = k - 1;
    }
    assert(packages_spec(platforms, docs@.take(0), width) == Seq::<Seq<(Style, Seq<char>)>>::empty());
    assert(piece_lines(out@) + Seq::<Seq<(Style, Seq<char>)>>::empty() =~= piece_lines(out@));
    out
}

/// The rendered option results, the most relevant last.
pub fn option_lines(docs: &Vec<OptionSearchResult>, width: usize) -> (res: Vec<Vec<Piece>>)
    ensures
        piece_lines(res@) == options_spec(docs@, width),
{
    let mut out: Vec<Vec<Piece>> = Vec::new();
    let mut k: usize = docs.len();
    assert(docs@.take(docs.len() as int) =~= docs@);
    while k > 0
        invariant
            k <= docs.len(),
            options_spec(docs@, width) == piece_lines(out@) + options_spec(docs@.take(k as int), width),
        decreases k,
    {
        let ghost t = docs@.take(k as int);
        assert(t.last() == docs@[k - 1]);
        assert(t.drop_last() =~= docs@.take(k - 1));
        append_lines(&mut out, option_entry(&docs[k - 1], width));
        k = k - 1;
    }
    assert(options_spec(docs@.take(0), width) == Seq::<Seq<(Style, Seq<char>)>>::empty());
    assert(piece_lines(out@) + Seq::<Seq<(Style, Seq<char>)>>::empty() =~= piece_lines(out@));
    out
}

} // verus!
