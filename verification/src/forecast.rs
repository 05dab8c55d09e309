//! A compact forecast of `nix build --dry-run` output: the plan stanzas are
//! parsed strictly, so that a format Noah does not understand is shown
//! unchanged instead of being under-reported.

use vstd::prelude::*;

use crate::num::{decimal, parse_unsigned_spec, parse_usize, usize_to_decimal};
use crate::text::{
    chars_of, contains_char, contains_seq, contains_str, lines_spec, owned, split_lines, split_once_chars,
    split_once_spec, string_from_chars, strip_prefix_chars, strip_prefix_spec, strip_suffix_chars,
    strip_suffix_spec,
};

verus! {

/// Presentation options for a build forecast.
#[derive(Clone, Copy, Debug, PartialEq, Eq)]
pub struct ForecastOptions {
    show_fetches: bool,
}

impl ForecastOptions {
    /// Options that list the fetched paths when `show_fetches` holds.
    pub fn new(show_fetches: bool) -> (res: ForecastOptions)
        ensures
            res.spec_show_fetches() == show_fetches,
    {
        ForecastOptions { show_fetches }
    }

    pub closed spec fn spec_show_fetches(&self) -> bool {
        self.show_fetches
    }

    /// Whether the fetched paths are listed.
    pub fn show_fetches(&self) -> (res: bool)
        ensures
            res == self.spec_show_fetches(),
    {
        self.show_fetches
    }
}

/// The paths Nix will fetch, with the sizes it announced.
#[derive(Debug, Clone, PartialEq, Eq)]
pub struct FetchPlan {
    pub paths: Vec<String>,
    pub download_size: String,
    pub unpacked_size: String,
}

/// The derivations Nix will build and the paths it will fetch.
#[derive(Debug, Clone, Default, PartialEq, Eq)]
pub struct BuildPlan {
    pub derivations: Vec<String>,
    pub fetch: Option<FetchPlan>,
}

/// A parsed dry run: the plan, and every other line as a diagnostic.
#[derive(Debug, Clone, PartialEq, Eq)]
pub struct ParsedOutput {
    pub plan: BuildPlan,
    pub diagnostics: Vec<String>,
}

/// The mathematical value of a fetch plan.
pub struct FetchView {
    pub paths: Seq<Seq<char>>,
    pub download_size: Seq<char>,
    pub unpacked_size: Seq<char>,
}

/// The mathematical value of a parse in progress.
pub struct PlanState {
    pub derivations: Seq<Seq<char>>,
    pub fetch: Option<FetchView>,
    pub diagnostics: Seq<Seq<char>>,
    pub saw_builds: bool,
}

/// A plan-stanza header.
pub enum HeaderView {
    Builds(nat),
    Fetches { count: nat, download_size: Seq<char>, unpacked_size: Seq<char> },
}

/// A plan-stanza header.
#[derive(Debug, Clone)]
pub enum Header {
    Builds(usize),
    Fetches { count: usize, download_size: String, unpacked_size: String },
}

impl View for Header {
    type V = HeaderView;

    open spec fn view(&self) -> HeaderView {
        match self {
            Header::Builds(n) => HeaderView::Builds(*n as nat),
            Header::Fetches { count, download_size, unpacked_size } => HeaderView::Fetches {
                count: *count as nat,
                download_size: download_size@,
                unpacked_size: unpacked_size@,
            },
        }
    }
}

/// Which kind of store path a stanza lists.
#[derive(Clone, Copy, Debug, PartialEq, Eq, Structural)]
pub enum PathKind {
    Derivation,
    Output,
}

pub open spec fn strings(v: Seq<String>) -> Seq<Seq<char>> {
    v.map_values(|s: String| s@)
}

/// The header Nix prints when it cannot build some paths.
pub open spec fn unknown_paths_header() -> Seq<char> {
    "don't know how to build these paths:"@
}

/// A path count, or the error reported for it.
pub open spec fn parse_count_spec(count: Seq<char>) -> Result<nat, Seq<char>> {
    match parse_unsigned_spec(count, usize::MAX as nat) {
        Ok(n) => Ok(n),
        Err(e) => Err("invalid path count `"@ + count + "`: "@ + e.spec_message()),
    }
}

/// Parses a path count.
pub fn parse_count(count: &Vec<char>) -> (res: Result<usize, String>)
    ensures
        match res {
            Ok(n) => parse_count_spec(count@) == Ok::<nat, Seq<char>>(n as nat),
            Err(e) => parse_count_spec(count@) == Err::<nat, Seq<char>>(e@),
        },
{
    let text = string_from_chars(count);
    match parse_usize(text.as_str()) {
        Ok(n) => Ok(n),
        Err(e) => {
            let mut m = owned("invalid path count `");
            m.append(text.as_str());
            m.append("`: ");
            m.append(e.message());
            Err(m)
        },
    }
}

/// The count and size text of a fetch header, before the sizes are split.
pub open spec fn fetch_header_parts(line: Seq<char>) -> Option<Result<(nat, Seq<char>), Seq<char>>> {
    match strip_prefix_spec(line, "this path will be fetched ("@) {
        Some(sizes) => Some(Ok((1, sizes))),
        None => match strip_prefix_spec(line, "these "@) {
            Some(rest) => match split_once_spec(rest, " paths will be fetched ("@) {
                Some((count, sizes)) => Some(
                    match parse_count_spec(count) {
                        Ok(n) => Ok((n, sizes)),
                        Err(e) => Err(e),
                    },
                ),
                None => None,
            },
            None => None,
        },
    }
}

/// The header that `line` is, `None` for an ordinary line, or the error
/// reported for a header Noah does not understand.
pub open spec fn header_spec(line: Seq<char>) -> Result<Option<HeaderView>, Seq<char>> {
    if line == unknown_paths_header() {
        Err("Nix reported unknown paths; the forecast would be incomplete"@)
    } else if line == "this derivation will be built:"@ {
        Ok(Some(HeaderView::Builds(1)))
    } else if strip_prefix_spec(line, "these "@) is Some && strip_suffix_spec(
        strip_prefix_spec(line, "these "@)->0,
        " derivations will be built:"@,
    ) is Some {
        match parse_count_spec(
            strip_suffix_spec(strip_prefix_spec(line, "these "@)->0, " derivations will be built:"@)->0,
        ) {
            Ok(n) => Ok(Some(HeaderView::Builds(n))),
            Err(e) => Err(e),
        }
    } else {
        match fetch_header_parts(line) {
            Some(Err(e)) => Err(e),
            Some(Ok((count, sizes))) => match strip_suffix_spec(sizes, " unpacked):"@) {
                None => Err("unrecognized Nix fetch-plan header: "@ + line),
                Some(inner) => match split_once_spec(inner, " download, "@) {
                    None => Err("unrecognized Nix fetch-plan sizes: "@ + line),
                    Some((d, u)) => if d.len() == 0 || u.len() == 0 {
                        Err("empty Nix fetch-plan size: "@ + line)
                    } else {
                        Ok(Some(HeaderView::Fetches { count, download_size: d, unpacked_size: u }))
                    },
                },
            },
            None => if contains_seq(line, "will be built:"@) || contains_seq(line, "will be fetched"@) {
                Err("unrecognized Nix plan header: "@ + line)
            } else {
                Ok(None)
            },
        }
    }
}

/// The view of a header result.
pub open spec fn header_result_view(r: Result<Option<Header>, String>) -> Result<Option<HeaderView>, Seq<char>> {
    match r {
        Ok(Some(h)) => Ok(Some(h@)),
        Ok(None) => Ok(None),
        Err(e) => Err(e@),
    }
}

fn with_line(prefix: &str, line: &Vec<char>) -> (res: String)
    ensures
        res@ == prefix@ + line@,
{
    let mut m = owned(prefix);
    crate::text::push_chars(&mut m, line);
    m
}

fn fetch_parts(line: &Vec<char>) -> (res: Option<Result<(usize, Vec<char>), String>>)
    ensures
        match res {
            None => fetch_header_parts(line@) is None,
            Some(Ok((n, sizes))) => fetch_header_parts(line@) == Some(Ok::<(nat, Seq<char>), Seq<char>>((n as nat, sizes@))),
            Some(Err(e)) => fetch_header_parts(line@) == Some(Err::<(nat, Seq<char>), Seq<char>>(e@)),
        },
{
    match strip_prefix_chars(line, "this path will be fetched (") {
        Some(sizes) => Some(Ok((1, sizes))),
        None => match strip_prefix_chars(line, "these ") {
            Some(rest) => match split_once_chars(&rest, " paths will be fetched (") {
                Some((count, sizes)) => Some(
                    match parse_count(&count) {
                        Ok(n) => Ok((n, sizes)),
                        Err(e) => Err(e),
                    },
                ),
                None => None,
            },
            None => None,
        },
    }
}

/// Classifies one line of dry-run output.
pub fn parse_header(line: &Vec<char>) -> (res: Result<Option<Header>, String>)
    ensures
        header_result_view(res) == header_spec(line@),
{
    let unknown = chars_of("don't know how to build these paths:");
    if crate::text::chars_eq(line, &unknown) {
        return Err(owned("Nix reported unknown paths; the forecast would be incomplete"));
    }
    let single = chars_of("this derivation will be built:");
    if crate::text::chars_eq(line, &single) {
        return Ok(Some(Header::Builds(1)));
    }
    if let Some(rest) = strip_prefix_chars(line, "these ") {
        if let Some(count) = strip_suffix_chars(&rest, " derivations will be built:") {
            return match parse_count(&count) {
                Ok(n) => Ok(Some(Header::Builds(n))),
                Err(e) => Err(e),
            };
        }
    }
    match fetch_parts(line) {
        Some(Err(e)) => Err(e),
        Some(Ok((count, sizes))) => match strip_suffix_chars(&sizes, " unpacked):") {
            None => Err(with_line("unrecognized Nix fetch-plan header: ", line)),
            Some(inner) => match split_once_chars(&inner, " download, ") {
                None => Err(with_line("unrecognized Nix fetch-plan sizes: ", line)),
                Some((d, u)) => if d.len() == 0 || u.len() == 0 {
                    Err(with_line("empty Nix fetch-plan size: ", line))
                } else {
                    Ok(
                        Some(
                            Header::Fetches {
                                count,
                                download_size: string_from_chars(&d),
                                unpacked_size: string_from_chars(&u),
                            },
                        ),
                    )
                },
            },
        },
        None => if contains_str(line, "will be built:") || contains_str(line, "will be fetched") {
            Err(with_line("unrecognized Nix plan header: ", line))
        } else {
            Ok(None)
        },
    }
}

/// The store path that a plan line lists, or the error reported for it.
pub open spec fn path_check(line: Seq<char>, kind: PathKind) -> Result<Seq<char>, Seq<char>> {
    match strip_prefix_spec(line, "  "@) {
        None => Err("unrecognized Nix plan path: "@ + line),
        Some(path) => match strip_prefix_spec(path, "/nix/store/"@) {
            None => Err("unrecognized Nix plan path: "@ + line),
            Some(name) => if name.len() == 0 || name.contains('/') {
                Err("unrecognized Nix plan path: "@ + line)
            } else if kind == PathKind::Derivation && strip_suffix_spec(name, ".drv"@) is None {
                Err("build-plan path is not a derivation: "@ + line)
            } else {
                Ok(path)
            },
        },
    }
}

/// Reads `count` path lines starting at `lines[start]`, `k` of them read
/// into `acc` so far.
pub open spec fn take_scan(
    lines: Seq<Seq<char>>,
    start: int,
    count: nat,
    kind: PathKind,
    k: nat,
    acc: Seq<Seq<char>>,
) -> Result<Seq<Seq<char>>, Seq<char>>
    decreases count - k,
{
    if k >= count {
        Ok(acc)
    } else if start + k >= lines.len() || start < 0 {
        Err("Nix plan declared "@ + decimal(count) + " paths but printed only "@ + decimal(k))
    } else {
        match path_check(lines[start + k], kind) {
            Err(e) => Err(e),
            Ok(p) => take_scan(lines, start, count, kind, k + 1, acc.push(p)),
        }
    }
}

fn check_path(line: &Vec<char>, kind: PathKind) -> (res: Result<String, String>)
    ensures
        match res {
            Ok(p) => path_check(line@, kind) == Ok::<Seq<char>, Seq<char>>(p@),
            Err(e) => path_check(line@, kind) == Err::<Seq<char>, Seq<char>>(e@),
        },
{
    let path = match strip_prefix_chars(line, "  ") {
        Some(p) => p,
        None => return Err(with_line("unrecognized Nix plan path: ", line)),
    };
    let name = match strip_prefix_chars(&path, "/nix/store/") {
        Some(n) => n,
        None => return Err(with_line("unrecognized Nix plan path: ", line)),
    };
    if name.len() == 0 || contains_char(&name, '/') {
        return Err(with_line("unrecognized Nix plan path: ", line));
    }
    if kind == PathKind::Derivation && strip_suffix_chars(&name, ".drv").is_none() {
        return Err(with_line("build-plan path is not a derivation: ", line));
    }
    Ok(string_from_chars(&path))
}

/// Reads `count` store paths from `lines` starting at `start`.
pub fn take_paths(lines: &Vec<Vec<char>>, start: usize, count: usize, kind: PathKind) -> (res: Result<
    Vec<String>,
    String,
>)
    requires
        start <= lines.len(),
    ensures
        match res {
            Ok(v) => take_scan(
                lines@.map_values(|l: Vec<char>| l@),
                start as int,
                count as nat,
                kind,
                0,
                Seq::empty(),
            ) == Ok::<Seq<Seq<char>>, Seq<char>>(strings(v@)) && v@.len() == count && start + count
                <= lines.len(),
            Err(e) => take_scan(
                lines@.map_values(|l: Vec<char>| l@),
                start as int,
                count as nat,
                kind,
                0,
                Seq::empty(),
            ) == Err::<Seq<Seq<char>>, Seq<char>>(e@),
        },
{
    let ghost lv = lines@.map_values(|l: Vec<char>| l@);
    let mut paths: Vec<String> = Vec::new();
    let mut printed: usize = 0;
    assert(strings(paths@) =~= Seq::<Seq<char>>::empty());
    while printed < count
        invariant
            printed <= count,
            start <= lines.len(),
            printed <= lines.len() - start,
            paths@.len() == printed,
            lv == lines@.map_values(|l: Vec<char>| l@),
            take_scan(lv, start as int, count as nat, kind, 0, Seq::empty()) == take_scan(
                lv,
                start as int,
                count as nat,
                kind,
                printed as nat,
                strings(paths@),
            ),
        decreases count - printed,
    {
        if printed >= lines.len() - start {
            let mut m = owned("Nix plan declared ");
            m.append(usize_to_decimal(count).as_str());
            m.append(" paths but printed only ");
            m.append(usize_to_decimal(printed).as_str());
            return Err(m);
        }
        assert(lv[start + printed] == lines@[start + printed]@);
        match check_path(&lines[start + printed], kind) {
            Err(e) => return Err(e),
            Ok(p) => {
                let ghost prev = strings(paths@);
                let ghost pv = p@;
                paths.push(p);
                assert(strings(paths@) =~= prev.push(pv));
            },
        }
        printed = printed + 1;
    }
    Ok(paths)
}

/// The parse of `lines` from `i` on, given the state so far.
pub open spec fn plan_scan(lines: Seq<Seq<char>>, i: int, st: PlanState) -> Result<PlanState, Seq<char>>
    decreases (if i < lines.len() {
        lines.len() - i
    } else {
        0
    }),
{
    if i >= lines.len() || i < 0 {
        Ok(st)
    } else {
        match header_spec(lines[i]) {
            Err(e) => Err(e),
            Ok(None) => plan_scan(lines, i + 1, PlanState { diagnostics: st.diagnostics.push(lines[i]), ..st }),
            Ok(Some(HeaderView::Builds(count))) => if st.saw_builds {
                Err("Nix printed more than one derivation plan"@)
            } else {
                match take_scan(lines, i + 1, count, PathKind::Derivation, 0, Seq::empty()) {
                    Err(e) => Err(e),
                    Ok(paths) => plan_scan(
                        lines,
                        i + 1 + count,
                        PlanState { derivations: paths, saw_builds: true, ..st },
                    ),
                }
            },
            Ok(Some(HeaderView::Fetches { count, download_size, unpacked_size })) => if st.fetch is Some {
                Err("Nix printed more than one fetch plan"@)
            } else {
                match take_scan(lines, i + 1, count, PathKind::Output, 0, Seq::empty()) {
                    Err(e) => Err(e),
                    Ok(paths) => plan_scan(
                        lines,
                        i + 1 + count,
                        PlanState { fetch: Some(FetchView { paths, download_size, unpacked_size }), ..st },
                    ),
                }
            },
        }
    }
}

/// The initial parse state.
pub open spec fn empty_plan_state() -> PlanState {
    PlanState { derivations: Seq::empty(), fetch: None, diagnostics: Seq::empty(), saw_builds: false }
}

/// The view of a fetch plan.
pub open spec fn fetch_view(f: Option<FetchPlan>) -> Option<FetchView> {
    match f {
        Some(f) => Some(
            FetchView { paths: strings(f.paths@), download_size: f.download_size@, unpacked_size: f.unpacked_size@ },
        ),
        None => None,
    }
}

/// The parse of a dry run's error output: the plan and the diagnostics,
/// or the reason the output is not understood.
pub open spec fn parse_plan_spec(output: Seq<char>) -> Result<PlanState, Seq<char>> {
    plan_scan(lines_spec(output), 0, empty_plan_state())
}

/// Whether a parsed output matches a final parse state.
pub open spec fn parsed_matches(p: ParsedOutput, st: PlanState) -> bool {
    &&& strings(p.plan.derivations@) == st.derivations
    &&& fetch_view(p.plan.fetch) == st.fetch
    &&& strings(p.diagnostics@) == st.diagnostics
}

/// Parses the error output of a dry run.
pub fn parse_plan(output: &str) -> (res: Result<ParsedOutput, String>)
    ensures
        match res {
            Ok(p) => parse_plan_spec(output@) is Ok && parsed_matches(p, parse_plan_spec(output@)->Ok_0),
            Err(e) => parse_plan_spec(output@) == Err::<PlanState, Seq<char>>(e@),
        },
{
    let lines = split_lines(output);
    let ghost lv = lines@.map_values(|l: Vec<char>| l@);
    let mut derivations: Vec<String> = Vec::new();
    let mut fetch: Option<FetchPlan> = None;
    let mut diagnostics: Vec<String> = Vec::new();
    let mut saw_builds = false;
    let mut i: usize = 0;
    assert(strings(derivations@) =~= Seq::<Seq<char>>::empty());
    assert(strings(diagnostics@) =~= Seq::<Seq<char>>::empty());
    while i < lines.len()
        invariant
            i <= lines.len(),
            lv == lines@.map_values(|l: Vec<char>| l@),
            lv == lines_spec(output@),
            parse_plan_spec(output@) == plan_scan(
                lv,
                i as int,
                PlanState {
                    derivations: strings(derivations@),
                    fetch: fetch_view(fetch),
                    diagnostics: strings(diagnostics@),
                    saw_builds,
                },
            ),
        decreases lines.len() - i,
    {
        assert(lv[i as int] == lines@[i as int]@);
        match parse_header(&lines[i]) {
            Err(e) => return Err(e),
            Ok(None) => {
                let ghost prev = strings(diagnostics@);
                let d = string_from_chars(&lines[i]);
                diagnostics.push(d);
                assert(strings(diagnostics@) =~= prev.push(lv[i as int]));
                i = i + 1;
            },
            Ok(Some(Header::Builds(count))) => {
                if saw_builds {
                    return Err(owned("Nix printed more than one derivation plan"));
                }
                let paths = take_paths(&lines, i + 1, count, PathKind::Derivation)?;
                derivations = paths;
                saw_builds = true;
                i = i + 1 + count;
            },
            Ok(Some(Header::Fetches { count, download_size, unpacked_size })) => {
                if fetch.is_some() {
                    return Err(owned("Nix printed more than one fetch plan"));
                }
                let paths = take_paths(&lines, i + 1, count, PathKind::Output)?;
                fetch = Some(FetchPlan { paths, download_size, unpacked_size });
                i = i + 1 + count;
            },
        }
    }
    Ok(ParsedOutput { plan: BuildPlan { derivations, fetch }, diagnostics })
}


/// The text of `ls`, each line followed by a newline.
pub open spec fn unlines(ls: Seq<Seq<char>>) -> Seq<char>
    decreases ls.len(),
{
    if ls.len() == 0 {
        Seq::empty()
    } else {
        unlines(ls.drop_last()) + ls.last() + seq!['\n']
    }
}

/// Appends `line` and a newline to `out`.
fn push_line(out: &mut String, lines: Ghost<Seq<Seq<char>>>, line: &str) -> (res: Ghost<Seq<Seq<char>>>)
    requires
        old(out)@ == unlines(lines@),
    ensures
        final(out)@ == unlines(res@),
        res@ == lines@.push(line@),
{
    out.append(line);
    crate::text::string_push(out, '\n');
    let ghost next = lines@.push(line@);
    assert(next.drop_last() =~= lines@);
    assert(final(out)@ =~= unlines(next)) by {
        assert(out@ =~= unlines(lines@) + line@ + seq!['\n']);
    }
    Ghost(next)
}

/// The diagnostics text: each line, then a blank line when any of them is
/// not empty.
pub open spec fn diagnostics_text(diagnostics: Seq<Seq<char>>) -> Seq<char> {
    if exists|i: int| 0 <= i < diagnostics.len() && diagnostics[i].len() > 0 {
        unlines(diagnostics.push(Seq::empty()))
    } else {
        unlines(diagnostics)
    }
}

/// Renders the diagnostics that precede a forecast.
pub fn write_diagnostics(diagnostics: &Vec<String>) -> (res: String)
    ensures
        res@ == diagnostics_text(strings(diagnostics@)),
{
    let mut out = String::new();
    let mut lines: Ghost<Seq<Seq<char>>> = Ghost(Seq::empty());
    let mut any = false;
    let mut i: usize = 0;
    assert(strings(diagnostics@).take(0) =~= Seq::<Seq<char>>::empty());
    assert(out@ =~= unlines(lines@));
    while i < diagnostics.len()
        invariant
            i <= diagnostics.len(),
            lines@ == strings(diagnostics@).take(i as int),
            out@ == unlines(lines@),
            any == exists|j: int| 0 <= j < i && strings(diagnostics@)[j].len() > 0,
        decreases diagnostics.len() - i,
    {
        lines = push_line(&mut out, lines, diagnostics[i].as_str());
        if !diagnostics[i].as_str().is_empty() {
            any = true;
        }
        i = i + 1;
        assert(lines@ =~= strings(diagnostics@).take(i as int));
        assert(any == exists|j: int| 0 <= j < i && strings(diagnostics@)[j].len() > 0) by {
            if any {
                if diagnostics@[i - 1]@.len() > 0 {
                    assert(strings(diagnostics@)[i - 1].len() > 0);
                }
            }
        }
    }
    assert(strings(diagnostics@).take(diagnostics.len() as int) =~= strings(diagnostics@));
    if any {
        lines = push_line(&mut out, lines, "");
        proof {
            reveal_strlit("");
            assert(""@ =~= Seq::<char>::empty());
        }
    }
    out
}

/// The word for `count` things.
pub open spec fn plural_spec(count: nat, singular: Seq<char>, plural: Seq<char>) -> Seq<char> {
    if count == 1 {
        singular
    } else {
        plural
    }
}

/// The singular word for one thing, the plural otherwise.
pub fn plural(count: usize, singular: &'static str, many: &'static str) -> (res: &'static str)
    ensures
        res@ == plural_spec(count as nat, singular@, many@),
{
    if count == 1 {
        singular
    } else {
        many
    }
}

/// The package name inside a derivation path: the part between the hash
/// and `.drv`, or the whole path when it has another shape.
pub open spec fn derivation_name_spec(path: Seq<char>) -> Seq<char> {
    match strip_prefix_spec(path, "/nix/store/"@) {
        Some(name) => match split_once_spec(name, "-"@) {
            Some((_, rest)) => match strip_suffix_spec(rest, ".drv"@) {
                Some(n) => n,
                None => path,
            },
            None => path,
        },
        None => path,
    }
}

/// The package name inside a derivation path.
pub fn derivation_name(path: &str) -> (res: String)
    ensures
        res@ == derivation_name_spec(path@),
{
    let cs = chars_of(path);
    match strip_prefix_chars(&cs, "/nix/store/") {
        Some(name) => match split_once_chars(&name, "-") {
            Some((_, rest)) => match strip_suffix_chars(&rest, ".drv") {
                Some(n) => string_from_chars(&n),
                None => owned(path),
            },
            None => owned(path),
        },
        None => owned(path),
    }
}

/// The forecast line for one derivation.
pub open spec fn derivation_line(d: Seq<char>, big_parallel: Seq<Seq<char>>) -> Seq<char> {
    "  "@ + derivation_name_spec(d) + if big_parallel.contains(d) {
        "  [big-parallel]"@
    } else {
        Seq::empty()
    }
}

/// The derivations marked as needing `big-parallel`.
pub open spec fn heavy(derivations: Seq<Seq<char>>, big_parallel: Seq<Seq<char>>) -> Seq<Seq<char>> {
    derivations.filter(|d: Seq<char>| big_parallel.contains(d))
}

/// The lines of a forecast.
pub open spec fn forecast_lines(
    derivations: Seq<Seq<char>>,
    fetch: Option<FetchView>,
    big_parallel: Seq<Seq<char>>,
    show_fetches: bool,
) -> Seq<Seq<char>> {
    let n = derivations.len();
    let h = heavy(derivations, big_parallel).len();
    let head = seq![
        "Build forecast"@,
        Seq::empty(),
        "Builds: "@ + decimal(n) + " "@ + plural_spec(n, "derivation"@, "derivations"@),
    ] + derivations.map_values(|d: Seq<char>| derivation_line(d, big_parallel));
    let hint = if h > 0 {
        seq![
            Seq::empty(),
            "Heavy hint: big-parallel required by "@ + decimal(h) + " "@ + plural_spec(
                h,
                "derivation"@,
                "derivations"@,
            ) + "."@,
        ]
    } else {
        Seq::empty()
    };
    let fetch_count: nat = match fetch {
        Some(f) => f.paths.len(),
        None => 0,
    };
    let fetch_head = seq![Seq::empty(), "Fetch: "@ + decimal(fetch_count) + " "@ + plural_spec(fetch_count, "path"@, "paths"@)];
    let fetch_body = match fetch {
        Some(f) => seq!["  "@ + f.download_size + " download"@, "  "@ + f.unpacked_size + " unpacked"@] + if show_fetches {
            f.paths.map_values(|p: Seq<char>| "  "@ + p)
        } else {
            seq!["  Paths hidden; pass --show-fetches to list them."@]
        },
        None => Seq::empty(),
    };
    head + hint + fetch_head + fetch_body
}

/// The counts a forecast reports: its third line gives the number of
/// derivations built, and the line that heads the fetch section (before its
/// last lines: the two sizes and then each path, or the hint to show them)
/// gives the number of paths fetched, `0` when nothing is fetched; each
/// count is followed by the singular noun when it is one and the plural
/// otherwise.
pub proof fn lemma_forecast_counts(
    derivations: Seq<Seq<char>>,
    fetch: Option<FetchView>,
    big_parallel: Seq<Seq<char>>,
    show_fetches: bool,
)
    ensures
        ({
            let lines = forecast_lines(derivations, fetch, big_parallel, show_fetches);
            let n = derivations.len();
            let fetched: nat = match fetch {
                Some(f) => f.paths.len(),
                None => 0,
            };
            let tail: int = match fetch {
                Some(f) => 2 + if show_fetches {
                    f.paths.len() as int
                } else {
                    1
                },
                None => 0,
            };
            &&& lines.len() >= 5 + tail
            &&& lines[2] == "Builds: "@ + decimal(n) + " "@ + if n == 1 {
                "derivation"@
            } else {
                "derivations"@
            }
            &&& lines[lines.len() - 1 - tail] == "Fetch: "@ + decimal(fetched) + " "@ + if fetched == 1 {
                "path"@
            } else {
                "paths"@
            }
        }),
{
    let n = derivations.len();
    let h = heavy(derivations, big_parallel).len();
    let head = seq![
        "Build forecast"@,
        Seq::empty(),
        "Builds: "@ + decimal(n) + " "@ + plural_spec(n, "derivation"@, "derivations"@),
    ] + derivations.map_values(|d: Seq<char>| derivation_line(d, big_parallel));
    let hint: Seq<Seq<char>> = if h > 0 {
        seq![
            Seq::empty(),
            "Heavy hint: big-parallel required by "@ + decimal(h) + " "@ + plural_spec(
                h,
                "derivation"@,
                "derivations"@,
            ) + "."@,
        ]
    } else {
        Seq::empty()
    };
    let fetched: nat = match fetch {
        Some(f) => f.paths.len(),
        None => 0,
    };
    let fetch_head = seq![Seq::empty(), "Fetch: "@ + decimal(fetched) + " "@ + plural_spec(fetched, "path"@, "paths"@)];
    let fetch_body = match fetch {
        Some(f) => seq!["  "@ + f.download_size + " download"@, "  "@ + f.unpacked_size + " unpacked"@] + if show_fetches {
            f.paths.map_values(|p: Seq<char>| "  "@ + p)
        } else {
            seq!["  Paths hidden; pass --show-fetches to list them."@]
        },
        None => Seq::empty(),
    };
    let lines = forecast_lines(derivations, fetch, big_parallel, show_fetches);
    assert(lines =~= head + hint + fetch_head + fetch_body);
    let prefix = head + hint;
    assert(lines[2] == head[2]);
    assert(lines[prefix.len() + 1int] == fetch_head[1]);
}

/// Whether `v` holds a string equal to `s`.
fn contains_string(v: &Vec<String>, s: &str) -> (res: bool)
    ensures
        res == strings(v@).contains(s@),
{
    let mut i: usize = 0;
    while i < v.len()
        invariant
            i <= v.len(),
            forall|j: int| 0 <= j < i ==> strings(v@)[j] != s@,
        decreases v.len() - i,
    {
        if crate::text::str_eq(v[i].as_str(), s) {
            assert(strings(v@)[i as int] == s@);
            return true;
        }
        i = i + 1;
    }
    false
}

/// Renders the compact forecast of a plan; `big_parallel` lists the
/// derivations that require the `big-parallel` system feature.
pub fn render_forecast(plan: &BuildPlan, big_parallel: &Vec<String>, options: ForecastOptions) -> (res: String)
    ensures
        res@ == unlines(
            forecast_lines(
                strings(plan.derivations@),
                fetch_view(plan.fetch),
                strings(big_parallel@),
                options.spec_show_fetches(),
            ),
        ),
{
    let ghost ds = strings(plan.derivations@);
    let ghost big = strings(big_parallel@);
    let mut out = String::new();
    let mut lines: Ghost<Seq<Seq<char>>> = Ghost(Seq::empty());
    lines = push_line(&mut out, lines, "Build forecast");
    lines = push_line(&mut out, lines, "");
    let n = plan.derivations.len();
    let mut builds = owned("Builds: ");
    builds.append(usize_to_decimal(n).as_str());
    crate::text::string_push(&mut builds, ' ');
    builds.append(plural(n, "derivation", "derivations"));
    proof {
        reveal_strlit("");
        reveal_strlit(" ");
        assert(builds@ =~= "Builds: "@ + decimal(n as nat) + " "@ + plural_spec(n as nat, "derivation"@, "derivations"@));
    }
    lines = push_line(&mut out, lines, builds.as_str());
    proof {
        reveal_strlit("");
        reveal_strlit(" ");
        assert(""@ =~= Seq::<char>::empty());
        assert(lines@ =~= seq![
            "Build forecast"@,
            Seq::empty(),
            "Builds: "@ + decimal(n as nat) + " "@ + plural_spec(n as nat, "derivation"@, "derivations"@),
        ]);
    }
    let ghost head0 = lines@;
    let mut heavy_count: usize = 0;
    let mut i: usize = 0;
    while i < n
        invariant
            i <= n == plan.derivations.len(),
            ds == strings(plan.derivations@),
            big == strings(big_parallel@),
            out@ == unlines(lines@),
            lines@ == head0 + ds.take(i as int).map_values(|d: Seq<char>| derivation_line(d, big)),
            heavy_count == heavy(ds.take(i as int), big).len(),
            heavy_count <= i,
        decreases n - i,
    {
        let d = &plan.derivations[i];
        let mut line = owned("  ");
        line.append(derivation_name(d.as_str()).as_str());
        let marked = contains_string(big_parallel, d.as_str());
        if marked {
            line.append("  [big-parallel]");
            heavy_count = heavy_count + 1;
        }
        proof {
            reveal_strlit("");
            if !marked {
                assert(line@ =~= "  "@ + derivation_name_spec(d@) + Seq::<char>::empty());
            }
            assert(ds[i as int] == d@);
            assert(ds.take(i + 1).drop_last() =~= ds.take(i as int));
            assert(ds.take(i + 1).last() == d@);
            reveal(Seq::filter);
        }
        lines = push_line(&mut out, lines, line.as_str());
        i = i + 1;
        assert(lines@ =~= head0 + ds.take(i as int).map_values(|d: Seq<char>| derivation_line(d, big)));
    }
    assert(ds.take(n as int) =~= ds);
    let ghost after_builds = lines@;
    assert(heavy_count == heavy(ds, big).len());
    if heavy_count > 0 {
        lines = push_line(&mut out, lines, "");
        let mut hint = owned("Heavy hint: big-parallel required by ");
        hint.append(usize_to_decimal(heavy_count).as_str());
        crate::text::string_push(&mut hint, ' ');
        hint.append(plural(heavy_count, "derivation", "derivations"));
        hint.append(".");
        proof {
            reveal_strlit("");
            reveal_strlit(" ");
            assert(hint@ =~= "Heavy hint: big-parallel required by "@ + decimal(heavy_count as nat) + " "@ + plural_spec(
                heavy_count as nat,
                "derivation"@,
                "derivations"@,
            ) + "."@);
        }
        lines = push_line(&mut out, lines, hint.as_str());
        proof {
            reveal_strlit("");
        }
    }
    let ghost after_hint = lines@;
    proof {
        reveal_strlit("");
        if heavy_count > 0 {
            assert(after_hint =~= after_builds + seq![
                Seq::empty(),
                "Heavy hint: big-parallel required by "@ + decimal(heavy_count as nat) + " "@ + plural_spec(
                    heavy_count as nat,
                    "derivation"@,
                    "derivations"@,
                ) + "."@,
            ]);
        } else {
            assert(after_hint =~= after_builds + Seq::<Seq<char>>::empty());
        }
    }
    lines = push_line(&mut out, lines, "");
    let fetch_count: usize = match &plan.fetch {
        Some(f) => f.paths.len(),
        None => 0,
    };
    let mut fetch_line = owned("Fetch: ");
    fetch_line.append(usize_to_decimal(fetch_count).as_str());
    crate::text::string_push(&mut fetch_line, ' ');
    fetch_line.append(plural(fetch_count, "path", "paths"));
    proof {
        reveal_strlit(" ");
        assert(fetch_line@ =~= "Fetch: "@ + decimal(fetch_count as nat) + " "@ + plural_spec(fetch_count as nat, "path"@, "paths"@));
    }
    lines = push_line(&mut out, lines, fetch_line.as_str());
    proof {
        reveal_strlit("");
        reveal_strlit(" ");
        assert(lines@ =~= after_hint + seq![Seq::empty(), "Fetch: "@ + decimal(fetch_count as nat) + " "@ + plural_spec(fetch_count as nat, "path"@, "paths"@)]);
    }
    let ghost before_fetch = lines@;
    match &plan.fetch {
        Some(f) => {
            let mut d = owned("  ");
            d.append(f.download_size.as_str());
            d.append(" download");
            lines = push_line(&mut out, lines, d.as_str());
            let mut u = owned("  ");
            u.append(f.unpacked_size.as_str());
            u.append(" unpacked");
            lines = push_line(&mut out, lines, u.as_str());
            let ghost mid = lines@;
            if options.show_fetches() {
                let ghost ps = strings(f.paths@);
                let mut k: usize = 0;
                while k < f.paths.len()
                    invariant
                        k <= f.paths.len(),
                        ps == strings(f.paths@),
                        out@ == unlines(lines@),
                        lines@ == mid + ps.take(k as int).map_values(|p: Seq<char>| "  "@ + p),
                    decreases f.paths.len() - k,
                {
                    let mut line = owned("  ");
                    line.append(f.paths[k].as_str());
                    lines = push_line(&mut out, lines, line.as_str());
                    k = k + 1;
                    assert(ps.take(k as int).drop_last() =~= ps.take(k - 1));
                    assert(lines@ =~= mid + ps.take(k as int).map_values(|p: Seq<char>| "  "@ + p));
                }
                assert(ps.take(f.paths.len() as int) =~= ps);
                assert(lines@ =~= before_fetch + seq!["  "@ + f.download_size@ + " download"@, "  "@ + f.unpacked_size@ + " unpacked"@] + ps.map_values(|p: Seq<char>| "  "@ + p));
            } else {
                lines = push_line(&mut out, lines, "  Paths hidden; pass --show-fetches to list them.");
                assert(lines@ =~= before_fetch + seq!["  "@ + f.download_size@ + " download"@, "  "@ + f.unpacked_size@ + " unpacked"@] + seq!["  Paths hidden; pass --show-fetches to list them."@]);
            }
        },
        None => {
            assert(lines@ =~= before_fetch + Seq::<Seq<char>>::empty());
        },
    }
    assert(lines@ =~= forecast_lines(ds, fetch_view(plan.fetch), big, options.spec_show_fetches()));
    out
}

} // verus!

verus! {

proof fn lemma_take_scan_from(
    lines: Seq<Seq<char>>,
    start: int,
    count: nat,
    kind: PathKind,
    k: nat,
    acc: Seq<Seq<char>>,
)
    requires
        k <= count,
        start >= 0,
        start + k <= lines.len(),
    ensures
        take_scan(lines, start, count, kind, k, acc) matches Ok(r) ==> r.len() == acc.len() + (count - k),
        start + count > lines.len() ==> take_scan(lines, start, count, kind, k, acc) is Err,
    decreases count - k,
{
    if k < count && start + k < lines.len() {
        match path_check(lines[start + k], kind) {
            Err(_) => {},
            Ok(p) => lemma_take_scan_from(lines, start, count, kind, k + 1, acc.push(p)),
        }
    }
}

/// A plan stanza is read in full or refused: a successful read yields
/// exactly the number of paths the header declared, and a stanza cut
/// short of that number is an error, never a shorter list.
pub proof fn lemma_stanza_never_underreports(lines: Seq<Seq<char>>, start: int, count: nat, kind: PathKind)
    requires
        0 <= start <= lines.len(),
    ensures
        take_scan(lines, start, count, kind, 0, Seq::empty()) matches Ok(r) ==> r.len() == count,
        start + count > lines.len() ==> take_scan(lines, start, count, kind, 0, Seq::empty()) is Err,
{
    lemma_take_scan_from(lines, start, count, kind, 0, Seq::empty());
}

} // verus!

verus! {

proof fn lemma_take_scan_hits(
    lines: Seq<Seq<char>>,
    start: int,
    count: nat,
    kind: PathKind,
    k: nat,
    acc: Seq<Seq<char>>,
    j: int,
)
    requires
        start >= 0,
        start + k <= j < start + count,
        j < lines.len(),
        path_check(lines[j], kind) is Err,
    ensures
        take_scan(lines, start, count, kind, k, acc) is Err,
    decreases count - k,
{
    if start + k < j {
        match path_check(lines[start + k], kind) {
            Err(_) => {},
            Ok(p) => lemma_take_scan_hits(lines, start, count, kind, k + 1, acc.push(p), j),
        }
    }
}

proof fn lemma_unknown_header_fails(lines: Seq<Seq<char>>, i: int, st: PlanState, j: int)
    requires
        0 <= i <= j < lines.len(),
        lines[j] == unknown_paths_header(),
    ensures
        plan_scan(lines, i, st) is Err,
    decreases lines.len() - i,
{
    reveal_strlit("don't know how to build these paths:");
    reveal_strlit("  ");
    let h = unknown_paths_header();
    assert(h[0] == 'd');
    assert(strip_prefix_spec(h, "  "@) is None) by {
        if h.take(2) == "  "@ {
            assert(h.take(2)[0] == h[0]);
        }
    }
    assert(path_check(h, PathKind::Derivation) is Err);
    assert(path_check(h, PathKind::Output) is Err);
    if i < j {
        match header_spec(lines[i]) {
            Err(_) => {},
            Ok(None) => lemma_unknown_header_fails(
                lines,
                i + 1,
                PlanState { diagnostics: st.diagnostics.push(lines[i]), ..st },
                j,
            ),
            Ok(Some(HeaderView::Builds(count))) => {
                if !st.saw_builds {
                    if j < i + 1 + count {
                        lemma_take_scan_hits(lines, i + 1, count, PathKind::Derivation, 0, Seq::empty(), j);
                    } else {
                        match take_scan(lines, i + 1, count, PathKind::Derivation, 0, Seq::empty()) {
                            Err(_) => {},
                            Ok(paths) => lemma_unknown_header_fails(
                                lines,
                                i + 1 + count,
                                PlanState { derivations: paths, saw_builds: true, ..st },
                                j,
                            ),
                        }
                    }
                }
            },
            Ok(Some(HeaderView::Fetches { count, download_size, unpacked_size })) => {
                if st.fetch is None {
                    if j < i + 1 + count {
                        lemma_take_scan_hits(lines, i + 1, count, PathKind::Output, 0, Seq::empty(), j);
                    } else {
                        match take_scan(lines, i + 1, count, PathKind::Output, 0, Seq::empty()) {
                            Err(_) => {},
                            Ok(paths) => lemma_unknown_header_fails(
                                lines,
                                i + 1 + count,
                                PlanState { fetch: Some(FetchView { paths, download_size, unpacked_size }), ..st },
                                j,
                            ),
                        }
                    }
                }
            },
        }
    }
}

/// Output in which Nix reports paths it cannot build is never turned into
/// a forecast: the parse fails, wherever the report stands.
pub proof fn lemma_unknown_paths_refused(output: Seq<char>)
    requires
        lines_spec(output).contains(unknown_paths_header()),
    ensures
        parse_plan_spec(output) is Err,
{
    let lines = lines_spec(output);
    let j = choose|j: int| 0 <= j < lines.len() && lines[j] == unknown_paths_header();
    lemma_unknown_header_fails(lines, 0, empty_plan_state(), j);
}

} // verus!

verus! {

/// The system feature that marks a derivation as heavy.
pub const BIG_PARALLEL: &'static str = "big-parallel";

/// The `nix derivation show` output format understood here.
pub const DERIVATION_JSON_VERSION: u64 = 4;

/// A `requiredSystemFeatures` value of a derivation.
#[derive(Clone, Debug)]
pub enum FeatureValue {
    /// The field is absent.
    Missing,
    /// A string of space-separated features.
    Text(String),
    /// A list; `None` stands for an item that is not a string.
    List(Vec<Option<String>>),
    /// Any other JSON value.
    Other,
}

/// The mathematical value of a `requiredSystemFeatures` value.
pub enum FeatureView {
    Missing,
    Text(Seq<char>),
    List(Seq<Option<Seq<char>>>),
    Other,
}

/// The mathematical value of a list of features.
pub open spec fn items_view(items: Seq<Option<String>>) -> Seq<Option<Seq<char>>> {
    items.map_values(|o: Option<String>| crate::remote::opt_view(o))
}

impl View for FeatureValue {
    type V = FeatureView;

    open spec fn view(&self) -> FeatureView {
        match self {
            FeatureValue::Missing => FeatureView::Missing,
            FeatureValue::Text(t) => FeatureView::Text(t@),
            FeatureValue::List(items) => FeatureView::List(items_view(items@)),
            FeatureValue::Other => FeatureView::Other,
        }
    }
}

/// The `/env/__json` field of a derivation: the structured attributes as
/// JSON text.
#[derive(Clone, Debug)]
pub enum EncodedAttrs {
    Missing,
    /// Present, but not a string.
    NotText,
    Text(String),
}

/// What the JSON of one derivation says of its system features.
#[derive(Clone, Debug)]
pub struct DerivationFeatures {
    /// `/env/requiredSystemFeatures`.
    pub env: FeatureValue,
    /// `/structuredAttrs/requiredSystemFeatures`.
    pub structured: FeatureValue,
    /// `/env/__json`.
    pub encoded_attrs: EncodedAttrs,
}

/// The characters `str::split_ascii_whitespace` splits on.
pub open spec fn ascii_space(c: char) -> bool {
    c == ' ' || c == '\t' || c == '\n' || c == '\x0C' || c == '\r'
}

/// Whether a whole word `word` stands at position `i` of `text`, with
/// whitespace or an end of the text on both sides.
pub open spec fn word_at(text: Seq<char>, word: Seq<char>, i: int) -> bool {
    &&& crate::text::occurs_at(text, word, i)
    &&& (i == 0 || ascii_space(text[i - 1]))
    &&& (i + word.len() == text.len() || ascii_space(text[i + word.len()]))
}

/// Whether `word` is one of the words `str::split_ascii_whitespace` makes
/// of `text`.
pub open spec fn has_word(text: Seq<char>, word: Seq<char>) -> bool {
    &&& word.len() > 0
    &&& forall|k: int| 0 <= k < word.len() ==> !ascii_space(#[trigger] word[k])
    &&& exists|i: int| word_at(text, word, i)
}

fn is_ascii_space(c: char) -> (res: bool)
    ensures
        res == ascii_space(c),
{
    c == ' ' || c == '\t' || c == '\n' || c == '\x0C' || c == '\r'
}

/// Whether `word` is one of the ASCII-whitespace-separated words of `text`.
pub fn has_ascii_word(text: &str, word: &str) -> (res: bool)
    ensures
        res == has_word(text@, word@),
{
    let t = chars_of(text);
    let w = chars_of(word);
    if w.len() == 0 {
        return false;
    }
    let mut k: usize = 0;
    while k < w.len()
        invariant
            k <= w.len(),
            w@ == word@,
            forall|j: int| 0 <= j < k ==> !ascii_space(#[trigger] w@[j]),
        decreases w.len() - k,
    {
        if is_ascii_space(w[k]) {
            return false;
        }
        k = k + 1;
    }
    let mut i: usize = 0;
    while i < t.len()
        invariant
            i <= t.len(),
            t@ == text@,
            w@ == word@,
            w.len() > 0,
            forall|j: int| 0 <= j < w.len() ==> !ascii_space(#[trigger] w@[j]),
            forall|j: int| 0 <= j < i ==> !word_at(t@, w@, j),
        decreases t.len() - i,
    {
        if crate::text::matches_at(&t, &w, i) {
            let before = i == 0 || is_ascii_space(t[i - 1]);
            let end = i + w.len();
            let after = end == t.len() || is_ascii_space(t[end]);
            if before && after {
                assert(word_at(t@, w@, i as int));
                return true;
            }
        }
        i = i + 1;
    }
    assert forall|j: int| !word_at(t@, w@, j) by {
        if 0 <= j < i {
        }
    }
    false
}

/// The message for a feature list holding something other than strings.
pub open spec fn non_string_feature_message() -> Seq<char> {
    "nix derivation show returned a non-string system feature"@
}

/// The message for a feature value that is neither a string nor a list.
pub open spec fn invalid_features_message() -> Seq<char> {
    "nix derivation show returned invalid system features"@
}

/// Whether a `requiredSystemFeatures` value lists `feature`: a string is
/// split at ASCII whitespace, a list must hold only strings, and any other
/// value is refused.
pub open spec fn value_has_feature_spec(value: FeatureView, feature: Seq<char>) -> Result<bool, Seq<char>> {
    match value {
        FeatureView::Missing => Ok(false),
        FeatureView::Text(t) => Ok(has_word(t, feature)),
        FeatureView::List(items) => if exists|i: int| 0 <= i < items.len() && #[trigger] items[i] is None {
            Err(non_string_feature_message())
        } else {
            Ok(items.contains(Some(feature)))
        },
        FeatureView::Other => Err(invalid_features_message()),
    }
}

/// Whether a `requiredSystemFeatures` value lists `feature`.
pub fn value_has_feature(value: &FeatureValue, feature: &str) -> (res: Result<bool, String>)
    ensures
        match value_has_feature_spec(value@, feature@) {
            Ok(b) => res == Ok::<bool, String>(b),
            Err(e) => res matches Err(m) && m@ == e,
        },
{
    match value {
        FeatureValue::Missing => Ok(false),
        FeatureValue::Text(t) => Ok(has_ascii_word(t.as_str(), feature)),
        FeatureValue::List(items) => {
            let ghost iv = items_view(items@);
            let mut found = false;
            let mut i: usize = 0;
            while i < items.len()
                invariant
                    i <= items.len(),
                    iv == items_view(items@),
                    value@ == FeatureView::List(iv),
                    forall|j: int| 0 <= j < i ==> #[trigger] iv[j] is Some,
                    found <==> exists|j: int| 0 <= j < i && #[trigger] iv[j] == Some(feature@),
                decreases items.len() - i,
            {
                match &items[i] {
                    None => {
                        assert(0 <= i < iv.len() && iv[i as int] is None);
                        proof {
                            reveal_strlit("nix derivation show returned a non-string system feature");
                        }
                        return Err(owned("nix derivation show returned a non-string system feature"));
                    },
                    Some(s) => {
                        if crate::text::str_eq(s.as_str(), feature) {
                            found = true;
                        }
                        assert(iv[i as int] == Some(s@));
                    },
                }
                i = i + 1;
            }
            assert(!exists|j: int| 0 <= j < iv.len() && #[trigger] iv[j] is None);
            assert(found == iv.contains(Some(feature@)));
            Ok(found)
        },
        FeatureValue::Other => {
            proof {
                reveal_strlit("nix derivation show returned invalid system features");
            }
            Err(owned("nix derivation show returned invalid system features"))
        },
    }
}

/// The field `key` of the JSON document `text`, read as a feature value,
/// or the message of the document's parse error.
pub uninterp spec fn json_field(text: Seq<char>, key: Seq<char>) -> Result<FeatureView, Seq<char>>;

/// Calls `serde_json::from_str` on `text` and `Value::get` for its field
/// `key`, telling the field's variants apart.
#[verifier::external_body]
fn json_field_value(text: &str, key: &str) -> (res: Result<FeatureValue, String>)
    ensures
        match res {
            Ok(v) => json_field(text@, key@) == Ok::<FeatureView, Seq<char>>(v@),
            Err(e) => json_field(text@, key@) == Err::<FeatureView, Seq<char>>(e@),
        },
{
    let attrs: serde_json::Value = serde_json::from_str(text).map_err(|e| e.to_string())?;
    Ok(match attrs.get(key) {
        None => FeatureValue::Missing,
        Some(serde_json::Value::String(s)) => FeatureValue::Text(s.clone()),
        Some(serde_json::Value::Array(items)) => FeatureValue::List(items.iter().map(|i| i.as_str().map(str::to_owned)).collect()),
        Some(_) => FeatureValue::Other,
    })
}

/// The field of the structured attributes that lists system features.
pub const FEATURES_FIELD: &'static str = "requiredSystemFeatures";

/// The message for a `/env/__json` field that is not a string.
pub open spec fn non_string_attrs_message() -> Seq<char> {
    "nix derivation show returned a non-string env.__json"@
}

/// Whether a derivation requires `feature`: its environment's feature
/// list is read first, then its structured attributes, then the attributes
/// encoded in `/env/__json`; the first error met is returned.
pub open spec fn derivation_has_feature_spec(d: DerivationFeatures, feature: Seq<char>) -> Result<bool, Seq<char>> {
    match value_has_feature_spec(d.env@, feature) {
        Err(e) => Err(e),
        Ok(true) => Ok(true),
        Ok(false) => match value_has_feature_spec(d.structured@, feature) {
            Err(e) => Err(e),
            Ok(true) => Ok(true),
            Ok(false) => match d.encoded_attrs {
                EncodedAttrs::Missing => Ok(false),
                EncodedAttrs::NotText => Err(non_string_attrs_message()),
                EncodedAttrs::Text(t) => match json_field(t@, FEATURES_FIELD@) {
                    Err(e) => Err(e),
                    Ok(v) => value_has_feature_spec(v, feature),
                },
            },
        },
    }
}

/// Whether a derivation requires `feature`.
pub fn derivation_has_feature(d: &DerivationFeatures, feature: &str) -> (res: Result<bool, String>)
    ensures
        match derivation_has_feature_spec(*d, feature@) {
            Ok(b) => res == Ok::<bool, String>(b),
            Err(e) => res matches Err(m) && m@ == e,
        },
{
    if value_has_feature(&d.env, feature)? {
        return Ok(true);
    }
    if value_has_feature(&d.structured, feature)? {
        return Ok(true);
    }
    match &d.encoded_attrs {
        EncodedAttrs::Missing => Ok(false),
        EncodedAttrs::NotText => {
            proof {
                reveal_strlit("nix derivation show returned a non-string env.__json");
            }
            Err(owned("nix derivation show returned a non-string env.__json"))
        },
        EncodedAttrs::Text(t) => {
            let parsed = json_field_value(t.as_str(), FEATURES_FIELD)?;
            value_has_feature(&parsed, feature)
        },
    }
}


/// The `version` field of `nix derivation show` output.
#[derive(Clone, Copy, Debug, PartialEq, Eq, Structural)]
pub enum VersionField {
    /// Absent: the legacy format, a map from paths to derivations.
    Missing,
    /// A number that fits in a `u64`.
    Number(u64),
    /// Anything else.
    NotNumber,
}

/// Which object of `nix derivation show` output maps paths to derivations.
#[derive(Clone, Copy, Debug, PartialEq, Eq, Structural)]
pub enum DerivationSource {
    /// The output itself (the legacy format).
    Root,
    /// Its `derivations` field.
    Derivations,
}

/// Where the derivations of `nix derivation show` output are, from whether
/// the output is an object, its `version` field, and whether its
/// `derivations` field is an object; or why the output is refused.
pub open spec fn derivation_source_spec(
    is_object: bool,
    version: VersionField,
    derivations_is_object: bool,
) -> Result<DerivationSource, Seq<char>> {
    if !is_object {
        Err("nix derivation show returned a non-object"@)
    } else {
        match version {
            VersionField::Missing => Ok(DerivationSource::Root),
            VersionField::NotNumber => Err("nix derivation show returned a non-numeric version"@),
            VersionField::Number(v) => if v != DERIVATION_JSON_VERSION {
                Err("unsupported nix derivation JSON version "@ + decimal(v as nat))
            } else if !derivations_is_object {
                Err("nix derivation show version "@ + decimal(v as nat) + " omitted derivations"@)
            } else {
                Ok(DerivationSource::Derivations)
            },
        }
    }
}

/// Where the derivations of `nix derivation show` output are.
pub fn derivation_source(is_object: bool, version: VersionField, derivations_is_object: bool) -> (res: Result<
    DerivationSource,
    String,
>)
    ensures
        match derivation_source_spec(is_object, version, derivations_is_object) {
            Ok(s) => res == Ok::<DerivationSource, String>(s),
            Err(e) => res matches Err(m) && m@ == e,
        },
{
    if !is_object {
        return Err(owned("nix derivation show returned a non-object"));
    }
    match version {
        VersionField::Missing => Ok(DerivationSource::Root),
        VersionField::NotNumber => Err(owned("nix derivation show returned a non-numeric version")),
        VersionField::Number(v) => if v != DERIVATION_JSON_VERSION {
            Err(crate::text::concat_str("unsupported nix derivation JSON version ", crate::num::u64_to_decimal(v).as_str()))
        } else if !derivations_is_object {
            let mut m = crate::text::concat_str("nix derivation show version ", crate::num::u64_to_decimal(v).as_str());
            m.append(" omitted derivations");
            Err(m)
        } else {
            Ok(DerivationSource::Derivations)
        },
    }
}

/// The planned derivations that require `feature`, in plan order; each
/// derivation's features are looked up in `found` (`None`: the output
/// omits it). The first derivation that is missing or whose features
/// cannot be read ends the search with its error.
pub open spec fn collect_spec(
    paths: Seq<Seq<char>>,
    found: Seq<Option<DerivationFeatures>>,
    feature: Seq<char>,
) -> Result<Seq<Seq<char>>, Seq<char>>
    decreases paths.len(),
{
    if paths.len() == 0 || found.len() == 0 {
        Ok(Seq::empty())
    } else {
        match collect_spec(paths.drop_last(), found.drop_last(), feature) {
            Err(e) => Err(e),
            Ok(marked) => match found.last() {
                None => Err("nix derivation show omitted planned derivation "@ + paths.last()),
                Some(d) => match derivation_has_feature_spec(d, feature) {
                    Err(e) => Err(e),
                    Ok(true) => Ok(marked.push(paths.last())),
                    Ok(false) => Ok(marked),
                },
            },
        }
    }
}

/// An error in the first `i` derivations is the error of any longer plan.
proof fn lemma_collect_error_stays(
    paths: Seq<Seq<char>>,
    found: Seq<Option<DerivationFeatures>>,
    feature: Seq<char>,
    i: int,
    n: int,
)
    requires
        0 <= i <= n <= paths.len(),
        paths.len() == found.len(),
        collect_spec(paths.take(i), found.take(i), feature) is Err,
    ensures
        collect_spec(paths.take(n), found.take(n), feature) == collect_spec(paths.take(i), found.take(i), feature),
    decreases n - i,
{
    if n > i {
        lemma_collect_error_stays(paths, found, feature, i, n - 1);
        assert(paths.take(n).drop_last() =~= paths.take(n - 1));
        assert(found.take(n).drop_last() =~= found.take(n - 1));
    }
}

/// The planned derivations that require the `big-parallel` feature, in
/// plan order; `found[i]` holds what the output says of `paths[i]`.
pub fn collect_big_parallel(paths: &Vec<String>, found: &Vec<Option<DerivationFeatures>>) -> (res: Result<
    Vec<String>,
    String,
>)
    requires
        paths.len() == found.len(),
    ensures
        match collect_spec(crate::text::strings_view(paths@), found@, BIG_PARALLEL@) {
            Ok(marked) => res matches Ok(v) && crate::text::strings_view(v@) == marked,
            Err(e) => res matches Err(m) && m@ == e,
        },
{
    let ghost ps = crate::text::strings_view(paths@);
    let mut marked: Vec<String> = Vec::new();
    let mut i: usize = 0;
    assert(ps.take(0) =~= Seq::<Seq<char>>::empty());
    assert(found@.take(0) =~= Seq::<Option<DerivationFeatures>>::empty());
    assert(crate::text::strings_view(marked@) =~= Seq::<Seq<char>>::empty());
    while i < paths.len()
        invariant
            i <= paths.len(),
            paths.len() == found.len(),
            ps == crate::text::strings_view(paths@),
            collect_spec(ps.take(i as int), found@.take(i as int), BIG_PARALLEL@)
                == Ok::<Seq<Seq<char>>, Seq<char>>(crate::text::strings_view(marked@)),
        decreases paths.len() - i,
    {
        assert(ps.take(i + 1).drop_last() =~= ps.take(i as int));
        assert(found@.take(i + 1).drop_last() =~= found@.take(i as int));
        assert(ps.take(i + 1).last() == paths@[i as int]@);
        assert(found@.take(i + 1).last() == found@[i as int]);
        match &found[i] {
            None => {
                let m = crate::text::concat_str("nix derivation show omitted planned derivation ", paths[i].as_str());
                proof {
                    lemma_collect_error_stays(ps, found@, BIG_PARALLEL@, i + 1, paths.len() as int);
                    assert(ps.take(paths.len() as int) =~= ps);
                    assert(found@.take(found.len() as int) =~= found@);
                }
                return Err(m);
            },
            Some(d) => {
                let marks = match derivation_has_feature(d, BIG_PARALLEL) {
                    Ok(b) => b,
                    Err(e) => {
                        proof {
                            lemma_collect_error_stays(ps, found@, BIG_PARALLEL@, i + 1, paths.len() as int);
                            assert(ps.take(paths.len() as int) =~= ps);
                            assert(found@.take(found.len() as int) =~= found@);
                        }
                        return Err(e);
                    },
                };
                if marks {
                    let ghost before = crate::text::strings_view(marked@);
                    marked.push(paths[i].clone());
                    assert(crate::text::strings_view(marked@) =~= before.push(paths@[i as int]@));
                }
            },
        }
        i = i + 1;
    }
    assert(ps.take(paths.len() as int) =~= ps);
    assert(found@.take(found.len() as int) =~= found@);
    Ok(marked)
}

} // verus!
