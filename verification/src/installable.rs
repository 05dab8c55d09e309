//! Installables: what a Nix command builds, selected from the command line
//! or from the `NH_OS_FLAKE`, `NH_FILE`/`NH_ATTRP` and `NH_FLAKE` settings.

use vstd::prelude::*;

use crate::attr::{
    join_attr, parse_attr_spec, parse_attribute, segments_of, AttrError, lemma_attr_roundtrip,
};
use crate::paths::{components, components_start_with, path_starts_with};
use crate::text::{chars_of, concat_str, find_char, first_index_of, is_first_index, owned, slice_chars, string_from_chars};

verus! {

/// Flake selection settings supplied by the application.
#[derive(Debug, Clone, Default)]
pub struct FlakeConfig {
    /// `NH_OS_FLAKE`: OS-specific flake reference.
    pub os_flake: Option<String>,
    /// `NH_FLAKE`: generic flake reference.
    pub flake: Option<String>,
    /// `NH_FILE`: path to a Nix file.
    pub file: Option<String>,
    /// `NH_ATTRP`: attribute path for file-based installables.
    pub attrp: String,
}

/// The installable given on the command line, if any.
#[derive(Debug, Clone)]
pub enum InstallableArgs {
    Specified(Installable),
    Unspecified,
}

/// What a Nix command operates on.
#[derive(Debug, Clone)]
pub enum Installable {
    Flake { reference: String, attribute: Vec<String> },
    File { path: String, attribute: Vec<String> },
    Store { path: String },
    Expression { expression: String, attribute: Vec<String> },
}

/// The mathematical value of an installable.
pub enum InstallableView {
    Flake { reference: Seq<char>, attribute: Seq<Seq<char>> },
    File { path: Seq<char>, attribute: Seq<Seq<char>> },
    Store { path: Seq<char> },
    Expression { expression: Seq<char>, attribute: Seq<Seq<char>> },
}

impl View for Installable {
    type V = InstallableView;

    open spec fn view(&self) -> InstallableView {
        match self {
            Installable::Flake { reference, attribute } => InstallableView::Flake {
                reference: reference@,
                attribute: segments_of(attribute@),
            },
            Installable::File { path, attribute } => InstallableView::File {
                path: path@,
                attribute: segments_of(attribute@),
            },
            Installable::Store { path } => InstallableView::Store { path: path@ },
            Installable::Expression { expression, attribute } => InstallableView::Expression {
                expression: expression@,
                attribute: segments_of(attribute@),
            },
        }
    }
}

/// Why a flake reference was rejected.
#[derive(Debug, Clone, Copy, PartialEq, Eq, Structural)]
pub enum FlakeRefError {
    /// The reference is the empty string.
    Empty,
    /// Nothing stands before the `#`.
    MissingReference,
    /// The attribute path after the `#` is malformed.
    Attribute(AttrError),
}

impl FlakeRefError {
    /// The human-readable description of the error.
    pub fn message(&self) -> (res: &'static str)
        ensures
            res@ == self.spec_message(),
    {
        match self {
            FlakeRefError::Empty => "is empty. Set it to a flake reference or remove it.",
            FlakeRefError::MissingReference => "missing reference part before `#`",
            FlakeRefError::Attribute(e) => e.message(),
        }
    }

    pub closed spec fn spec_message(&self) -> Seq<char> {
        match self {
            FlakeRefError::Empty => "is empty. Set it to a flake reference or remove it."@,
            FlakeRefError::MissingReference => "missing reference part before `#`"@,
            FlakeRefError::Attribute(e) => e.spec_message(),
        }
    }
}

/// The reference and attribute path of `v`: the parts before and after the
/// first `#`, the attribute path being empty when there is no `#`.
pub open spec fn flake_ref_spec(v: Seq<char>) -> Result<(Seq<char>, Seq<Seq<char>>), FlakeRefError> {
    if v.len() == 0 {
        Err(FlakeRefError::Empty)
    } else {
        let reference = match first_index_of(v, '#') {
            Some(i) => v.take(i),
            None => v,
        };
        let attribute = match first_index_of(v, '#') {
            Some(i) => v.skip(i + 1),
            None => Seq::empty(),
        };
        if reference.len() == 0 {
            Err(FlakeRefError::MissingReference)
        } else {
            match parse_attr_spec(attribute) {
                Ok(a) => Ok((reference, a)),
                Err(e) => Err(FlakeRefError::Attribute(e)),
            }
        }
    }
}

/// The view of a flake-reference parse result.
pub open spec fn flake_ref_result_view(r: Result<(String, Vec<String>), FlakeRefError>) -> Result<
    (Seq<char>, Seq<Seq<char>>),
    FlakeRefError,
> {
    match r {
        Ok((reference, attribute)) => Ok((reference@, segments_of(attribute@))),
        Err(e) => Err(e),
    }
}

/// Splits a flake reference such as `github:user/repo#host` into its
/// reference and attribute path. Empty references and a `#` with nothing
/// before it are rejected, so Nix never searches the working directory.
pub fn parse_flake_reference(value: &str) -> (res: Result<(String, Vec<String>), FlakeRefError>)
    ensures
        flake_ref_result_view(res) == flake_ref_spec(value@),
{
    let v = chars_of(value);
    if v.len() == 0 {
        return Err(FlakeRefError::Empty);
    }
    let (reference, attribute) = match find_char(&v, '#') {
        Some(i) => (slice_chars(&v, 0, i), slice_chars(&v, i + 1, v.len())),
        None => (slice_chars(&v, 0, v.len()), Vec::new()),
    };
    assert(v@.subrange(0, v@.len() as int) =~= v@);
    proof {
        match first_index_of(v@, '#') {
            Some(i) => {
                assert(v@.subrange(0, i) =~= v@.take(i));
                assert(v@.subrange(i + 1, v@.len() as int) =~= v@.skip(i + 1));
            },
            None => {
                assert(attribute@ =~= Seq::<char>::empty());
            },
        }
    }
    if reference.len() == 0 {
        return Err(FlakeRefError::MissingReference);
    }
    let attribute = string_from_chars(&attribute);
    match parse_attribute(attribute.as_str()) {
        Ok(a) => Ok((string_from_chars(&reference), a)),
        Err(e) => Err(FlakeRefError::Attribute(e)),
    }
}

/// A flake reference followed by `#` and the canonical spelling of an
/// attribute path reads back as that reference and path, whenever the
/// reference is non-empty and holds no `#`.
pub proof fn lemma_flake_ref_roundtrip(reference: Seq<char>, attribute: Seq<Seq<char>>)
    requires
        reference.len() > 0,
        !reference.contains('#'),
    ensures
        flake_ref_spec(reference + seq!['#'] + join_attr(attribute)) == Ok::<
            (Seq<char>, Seq<Seq<char>>),
            FlakeRefError,
        >((reference, attribute)),
{
    let v = reference + seq!['#'] + join_attr(attribute);
    let n = reference.len() as int;
    assert(is_first_index(v, '#', n)) by {
        assert(v[n] == '#');
        assert forall|j: int| 0 <= j < n implies v[j] != '#' by {
            assert(v[j] == reference[j]);
        }
    }
    assert(first_index_of(v, '#') == Some(n)) by {
        let k = choose|k: int| is_first_index(v, '#', k);
        if k < n {
            assert(v[k] == reference[k]);
        }
        assert(k == n);
    }
    assert(v.take(n) =~= reference);
    assert(v.skip(n + 1) =~= join_attr(attribute));
    lemma_attr_roundtrip(attribute);
}

/// `name`, a space, then `msg`, the form of a setting-specific error.
pub open spec fn labelled(name: Seq<char>, msg: Seq<char>) -> Seq<char> {
    name + seq![' '] + msg
}

/// Builds `name msg`.
pub fn label_message(name: &str, msg: &str) -> (res: String)
    ensures
        res@ == labelled(name@, msg@),
{
    let mut r = owned(name);
    crate::text::string_push(&mut r, ' ');
    r.append(msg);
    r
}

/// The installable selected by the flake reference `value` of the setting
/// `name`, or the error reported for it.
pub open spec fn flake_env_spec(name: Seq<char>, value: Seq<char>) -> Result<InstallableView, Seq<char>> {
    match flake_ref_spec(value) {
        Ok((reference, attribute)) => Ok(InstallableView::Flake { reference, attribute }),
        Err(e) => Err(labelled(name, e.spec_message())),
    }
}

/// The view of an installable result.
pub open spec fn installable_result_view(r: Result<Installable, String>) -> Result<InstallableView, Seq<char>> {
    match r {
        Ok(i) => Ok(i@),
        Err(e) => Err(e@),
    }
}

fn flake_from_env_var(name: &str, value: &str) -> (res: Result<Installable, String>)
    ensures
        installable_result_view(res) == flake_env_spec(name@, value@),
{
    match parse_flake_reference(value) {
        Ok((reference, attribute)) => Ok(Installable::Flake { reference, attribute }),
        Err(e) => Err(label_message(name, e.message())),
    }
}

/// A source of an installable found among the settings.
enum EnvInstallableSource {
    SpecificFlake { env_var: &'static str, value: String },
    File { path: String, attribute: String },
    GenericFlake(String),
}

impl EnvInstallableSource {
    fn uses_flakes(&self) -> (res: bool)
        ensures
            res == match self {
                EnvInstallableSource::SpecificFlake { value, .. } => value@.len() > 0,
                EnvInstallableSource::GenericFlake(value) => value@.len() > 0,
                EnvInstallableSource::File { .. } => false,
            },
    {
        match self {
            EnvInstallableSource::SpecificFlake { value, .. } => !value.as_str().is_empty(),
            EnvInstallableSource::GenericFlake(value) => !value.as_str().is_empty(),
            EnvInstallableSource::File { .. } => false,
        }
    }

    fn into_installable(self) -> (res: Result<Installable, String>)
        ensures
            installable_result_view(res) == match self {
                EnvInstallableSource::SpecificFlake { env_var, value } => flake_env_spec(env_var@, value@),
                EnvInstallableSource::GenericFlake(value) => flake_env_spec("NH_FLAKE"@, value@),
                EnvInstallableSource::File { path, attribute } => match parse_attr_spec(attribute@) {
                    Ok(a) => Ok(InstallableView::File { path: path@, attribute: a }),
                    Err(e) => Err(labelled("NH_ATTRP"@, e.spec_message())),
                },
            },
    {
        match self {
            EnvInstallableSource::SpecificFlake { env_var, value } => flake_from_env_var(env_var, value.as_str()),
            EnvInstallableSource::File { path, attribute } => match parse_attribute(attribute.as_str()) {
                Ok(a) => Ok(Installable::File { path, attribute: a }),
                Err(e) => Err(label_message("NH_ATTRP", e.message())),
            },
            EnvInstallableSource::GenericFlake(value) => flake_from_env_var("NH_FLAKE", value.as_str()),
        }
    }
}

/// The installable that the settings select, in priority order `NH_OS_FLAKE`,
/// `NH_FILE` (with `NH_ATTRP`), `NH_FLAKE`, or the error reported for it;
/// `None` when none of them is set.
pub open spec fn config_installable_spec(config: FlakeConfig) -> Option<Result<InstallableView, Seq<char>>> {
    match config.os_flake {
        Some(v) => Some(flake_env_spec("NH_OS_FLAKE"@, v@)),
        None => match config.file {
            Some(p) => Some(
                match parse_attr_spec(config.attrp@) {
                    Ok(a) => Ok(InstallableView::File { path: p@, attribute: a }),
                    Err(e) => Err(labelled("NH_ATTRP"@, e.spec_message())),
                },
            ),
            None => match config.flake {
                Some(v) => Some(flake_env_spec("NH_FLAKE"@, v@)),
                None => None,
            },
        },
    }
}

/// Whether the settings select a non-empty flake reference.
pub open spec fn config_uses_flakes_spec(config: FlakeConfig) -> bool {
    match config.os_flake {
        Some(v) => v@.len() > 0,
        None => match config.file {
            Some(_) => false,
            None => match config.flake {
                Some(v) => v@.len() > 0,
                None => false,
            },
        },
    }
}

fn env_installable_source(config: &FlakeConfig) -> (res: Option<EnvInstallableSource>)
    ensures
        match res {
            None => config.os_flake is None && config.file is None && config.flake is None,
            Some(src) => match config.os_flake {
                Some(v) => src == EnvInstallableSource::SpecificFlake { env_var: "NH_OS_FLAKE", value: v },
                None => match config.file {
                    Some(p) => src == EnvInstallableSource::File { path: p, attribute: config.attrp },
                    None => match config.flake {
                        Some(v) => src == EnvInstallableSource::GenericFlake(v),
                        None => false,
                    },
                },
            },
        },
{
    if let Some(value) = &config.os_flake {
        return Some(EnvInstallableSource::SpecificFlake { env_var: "NH_OS_FLAKE", value: value.clone() });
    }
    if let Some(path) = &config.file {
        return Some(EnvInstallableSource::File { path: path.clone(), attribute: config.attrp.clone() });
    }
    if let Some(value) = &config.flake {
        return Some(EnvInstallableSource::GenericFlake(value.clone()));
    }
    None
}

/// The view of a resolution result.
pub open spec fn resolve_result_view(r: Result<Option<Installable>, String>) -> Result<
    Option<InstallableView>,
    Seq<char>,
> {
    match r {
        Ok(Some(i)) => Ok(Some(i@)),
        Ok(None) => Ok(None),
        Err(e) => Err(e@),
    }
}

/// Whether the command-line installable, or else a non-empty flake setting,
/// selects flake mode.
pub open spec fn uses_flakes_spec(args: InstallableArgs, config: FlakeConfig) -> bool {
    match args {
        InstallableArgs::Specified(Installable::Flake { .. }) => true,
        InstallableArgs::Specified(_) => false,
        InstallableArgs::Unspecified => config_uses_flakes_spec(config),
    }
}

/// The command-line installable as given, or else the one the settings
/// select; `None` when neither gives one.
pub open spec fn resolve_spec(args: InstallableArgs, config: FlakeConfig) -> Result<Option<InstallableView>, Seq<char>> {
    match args {
        InstallableArgs::Specified(i) => Ok(Some(i@)),
        InstallableArgs::Unspecified => match config_installable_spec(config) {
            None => Ok(None),
            Some(Ok(i)) => Ok(Some(i)),
            Some(Err(e)) => Err(e),
        },
    }
}

impl InstallableArgs {
    /// Whether the command-line installable, or else a non-empty flake
    /// setting, selects flake mode.
    pub fn uses_flakes(&self, config: &FlakeConfig) -> (res: bool)
        ensures
            res == uses_flakes_spec(*self, *config),
    {
        match self {
            InstallableArgs::Specified(Installable::Flake { .. }) => true,
            InstallableArgs::Specified(_) => false,
            InstallableArgs::Unspecified => match env_installable_source(config) {
                Some(source) => source.uses_flakes(),
                None => false,
            },
        }
    }

    /// The command-line installable as given, or else the one the settings
    /// select; `None` when neither gives one.
    pub fn resolve(self, config: &FlakeConfig) -> (res: Result<Option<Installable>, String>)
        ensures
            resolve_result_view(res) == resolve_spec(self, *config),
    {
        match self {
            InstallableArgs::Specified(installable) => Ok(Some(installable)),
            InstallableArgs::Unspecified => match env_installable_source(config) {
                None => Ok(None),
                Some(source) => match source.into_installable() {
                    Ok(i) => Ok(Some(i)),
                    Err(e) => Err(e),
                },
            },
        }
    }
}


/// The arguments that name an installable on a Nix command line.
pub open spec fn installable_args_spec(i: InstallableView) -> Seq<Seq<char>> {
    match i {
        InstallableView::Flake { reference, attribute } => seq![reference + seq!['#'] + join_attr(attribute)],
        InstallableView::File { path, attribute } => seq!["--file"@, path, join_attr(attribute)],
        InstallableView::Expression { expression, attribute } => seq!["--expr"@, expression, join_attr(attribute)],
        InstallableView::Store { path } => seq![path],
    }
}

/// Whether `r` begins with `p`.
pub open spec fn has_prefix(r: Seq<char>, p: Seq<char>) -> bool {
    p.len() <= r.len() && r.take(p.len() as int) == p
}

/// Whether a flake reference is unmistakably a filesystem path: absolute,
/// `.` or `..`, or starting with a `.` or `..` component.
pub open spec fn is_local_path_spec(r: Seq<char>) -> bool {
    let cs = components(r);
    ||| (r.len() > 0 && r[0] == '/')
    ||| r == seq!['.']
    ||| r == seq!['.', '.']
    ||| (cs.len() > 0 && (cs[0] == seq!['.'] || cs[0] == seq!['.', '.']))
}

/// The local path behind a flake reference that Noah checks before running
/// Nix; parameterised references (holding `?`) and registry or URL
/// references are left to Nix.
pub open spec fn local_flake_path_spec(r: Seq<char>) -> Option<Seq<char>> {
    if r.contains('?') {
        None
    } else if has_prefix(r, "path:"@) {
        Some(r.skip("path:"@.len() as int))
    } else if is_local_path_spec(r) {
        Some(r)
    } else {
        None
    }
}

/// The local path behind a flake reference, if it names one.
pub fn local_flake_reference_path(reference: &str) -> (res: Option<String>)
    ensures
        match res {
            Some(p) => local_flake_path_spec(reference@) == Some(p@),
            None => local_flake_path_spec(reference@) is None,
        },
{
    let r = chars_of(reference);
    if crate::text::contains_char(&r, '?') {
        return None;
    }
    let prefix = chars_of("path:");
    if crate::text::starts_with_chars(&r, &prefix) {
        let rest = slice_chars(&r, prefix.len(), r.len());
        assert(r@.subrange(prefix@.len() as int, r@.len() as int) =~= r@.skip(prefix@.len() as int));
        return Some(string_from_chars(&rest));
    }
    let absolute = r.len() > 0 && r[0] == '/';
    let dot = r.len() == 1 && r[0] == '.';
    let dotdot = r.len() == 2 && r[0] == '.' && r[1] == '.';
    let cs = crate::paths::path_components_chars(reference);
    let ghost cv = cs@.map_values(|v: Vec<char>| v@);
    let lead = cs.len() > 0 && (
        (cs[0].len() == 1 && cs[0][0] == '.') || (cs[0].len() == 2 && cs[0][0] == '.' && cs[0][1] == '.'));
    proof {
        if dot {
            assert(r@ =~= seq!['.']);
        }
        if dotdot {
            assert(r@ =~= seq!['.', '.']);
        }
        if r@ == seq!['.'] {
            assert(dot);
        }
        if r@ == seq!['.', '.'] {
            assert(dotdot);
        }
        if cs.len() > 0 {
            assert(cv[0] == cs@[0]@);
            if cs@[0]@ == seq!['.'] {
                assert(cs@[0]@.len() == 1 && cs@[0]@[0] == '.');
            }
            if cs@[0]@ == seq!['.', '.'] {
                assert(cs@[0]@.len() == 2 && cs@[0]@[0] == '.' && cs@[0]@[1] == '.');
            }
            if cs[0].len() == 1 && cs[0][0] == '.' {
                assert(cs@[0]@ =~= seq!['.']);
            }
            if cs[0].len() == 2 && cs[0][0] == '.' && cs[0][1] == '.' {
                assert(cs@[0]@ =~= seq!['.', '.']);
            }
        }
    }
    if absolute || dot || dotdot || lead {
        return Some(owned(reference));
    }
    None
}

/// What looking for `flake.nix` under a local path found.
#[derive(Debug, Clone)]
pub enum FlakeDirLookup {
    /// The directory holding `flake.nix`.
    Found(String),
    /// The path does not exist or holds no `flake.nix`.
    NotFound,
    /// Access to the given path was denied.
    PermissionDenied(String),
    /// Another I/O error, with its description.
    Io(String),
}

/// The message for a local flake reference whose directory lookup failed.
pub open spec fn local_ref_error_spec(reference: Seq<char>, path: Seq<char>, lookup: FlakeDirLookup) -> Option<Seq<char>> {
    match lookup {
        FlakeDirLookup::Found(_) => None,
        FlakeDirLookup::NotFound => Some(
            "Flake reference `"@ + reference + "` points to local path `"@ + path
                + "`, but that path does not exist or does not contain a flake.nix file.\nPass an existing flake path or update NH_FLAKE/NH_OS_FLAKE if this value came from the environment."@,
        ),
        FlakeDirLookup::PermissionDenied(p) => Some(
            "Permission denied accessing "@ + p@ + " while checking flake reference `"@ + reference + "`."@,
        ),
        FlakeDirLookup::Io(e) => Some(
            "I/O error checking flake reference `"@ + reference + "` at "@ + path + ": "@ + e@,
        ),
    }
}

/// The message for a failed local flake-reference check.
pub fn local_ref_error(reference: &str, path: &str, lookup: &FlakeDirLookup) -> (res: Option<String>)
    ensures
        match res {
            Some(m) => local_ref_error_spec(reference@, path@, *lookup) == Some(m@),
            None => local_ref_error_spec(reference@, path@, *lookup) is None,
        },
{
    match lookup {
        FlakeDirLookup::Found(_) => None,
        FlakeDirLookup::NotFound => {
            let mut m = owned("Flake reference `");
            m.append(reference);
            m.append("` points to local path `");
            m.append(path);
            m.append("`, but that path does not exist or does not contain a flake.nix file.\nPass an existing flake path or update NH_FLAKE/NH_OS_FLAKE if this value came from the environment.");
            Some(m)
        },
        FlakeDirLookup::PermissionDenied(p) => {
            let mut m = owned("Permission denied accessing ");
            m.append(p.as_str());
            m.append(" while checking flake reference `");
            m.append(reference);
            m.append("`.");
            Some(m)
        },
        FlakeDirLookup::Io(e) => {
            let mut m = owned("I/O error checking flake reference `");
            m.append(reference);
            m.append("` at ");
            m.append(path);
            m.append(": ");
            m.append(e.as_str());
            Some(m)
        },
    }
}

/// Help text appended to the errors about a missing default flake.
pub open spec fn fallback_help_hint() -> Seq<char> {
    "See 'man nh' or https://github.com/nix-community/nh for more details."@
}

/// The default installable found at `/etc/nixos`, or the error reported
/// when there is none.
pub open spec fn default_installable_spec(lookup: FlakeDirLookup) -> Result<InstallableView, Seq<char>> {
    match lookup {
        FlakeDirLookup::Found(dir) => Ok(InstallableView::Flake { reference: dir@, attribute: Seq::empty() }),
        FlakeDirLookup::PermissionDenied(p) => Err(
            "Permission denied accessing "@ + p@
                + ".\nPlease either:\n- Pass a flake path as an argument (e.g., 'nh os switch .')\n- Set the NH_FLAKE environment variable\n- Set the NH_OS_FLAKE environment variable\n\n"@
                + fallback_help_hint(),
        ),
        FlakeDirLookup::Io(e) => Err("I/O error accessing /etc/nixos: "@ + e@ + "\n\n"@ + fallback_help_hint()),
        FlakeDirLookup::NotFound => Err(
            "No installable specified and no flake found at /etc/nixos/flake.nix.\nPlease either:\n- Pass a flake path as an argument (e.g., 'nh os switch .')\n- Set the NH_FLAKE environment variable\n- Set the NH_OS_FLAKE environment variable\n\n"@
                + fallback_help_hint(),
        ),
    }
}

/// The installable used when none is given: the flake whose directory the
/// lookup of `/etc/nixos` found.
pub fn default_installable_for(lookup: FlakeDirLookup) -> (res: Result<Installable, String>)
    ensures
        installable_result_view(res) == default_installable_spec(lookup),
{
    match lookup {
        FlakeDirLookup::Found(dir) => {
            let attribute: Vec<String> = Vec::new();
            assert(segments_of(attribute@) =~= Seq::<Seq<char>>::empty());
            Ok(Installable::Flake { reference: dir, attribute })
        },
        FlakeDirLookup::PermissionDenied(p) => {
            let mut m = owned("Permission denied accessing ");
            m.append(p.as_str());
            m.append(".\nPlease either:\n- Pass a flake path as an argument (e.g., 'nh os switch .')\n- Set the NH_FLAKE environment variable\n- Set the NH_OS_FLAKE environment variable\n\n");
            m.append("See 'man nh' or https://github.com/nix-community/nh for more details.");
            Err(m)
        },
        FlakeDirLookup::Io(e) => {
            let mut m = owned("I/O error accessing /etc/nixos: ");
            m.append(e.as_str());
            m.append("\n\n");
            m.append("See 'man nh' or https://github.com/nix-community/nh for more details.");
            Err(m)
        },
        FlakeDirLookup::NotFound => {
            let mut m = owned("No installable specified and no flake found at /etc/nixos/flake.nix.\nPlease either:\n- Pass a flake path as an argument (e.g., 'nh os switch .')\n- Set the NH_FLAKE environment variable\n- Set the NH_OS_FLAKE environment variable\n\n");
            m.append("See 'man nh' or https://github.com/nix-community/nh for more details.");
            Err(m)
        },
    }
}

impl Installable {
    /// The arguments that name this installable on a Nix command line.
    pub fn to_args(&self) -> (res: Vec<String>)
        ensures
            res@.map_values(|s: String| s@) == installable_args_spec(self@),
    {
        let mut res: Vec<String> = Vec::new();
        match self {
            Installable::Flake { reference, attribute } => {
                let mut a = reference.clone();
                crate::text::string_push(&mut a, '#');
                let j = crate::attr::join_attribute(attribute);
                a.append(j.as_str());
                assert(a@ =~= reference@ + seq!['#'] + join_attr(segments_of(attribute@)));
                res.push(a);
                assert(res@.map_values(|s: String| s@) =~= installable_args_spec(self@));
            },
            Installable::File { path, attribute } => {
                res.push(owned("--file"));
                res.push(path.clone());
                res.push(crate::attr::join_attribute(attribute));
                assert(res@.map_values(|s: String| s@) =~= installable_args_spec(self@));
            },
            Installable::Expression { expression, attribute } => {
                res.push(owned("--expr"));
                res.push(expression.clone());
                res.push(crate::attr::join_attribute(attribute));
                assert(res@.map_values(|s: String| s@) =~= installable_args_spec(self@));
            },
            Installable::Store { path } => {
                res.push(path.clone());
                assert(res@.map_values(|s: String| s@) =~= installable_args_spec(self@));
            },
        }
        res
    }

    /// The kind of installable, for messages.
    pub fn str_kind(&self) -> (res: &'static str)
        ensures
            res@ == match self {
                Installable::Flake { .. } => "flake"@,
                Installable::File { .. } => "file"@,
                Installable::Store { .. } => "store path"@,
                Installable::Expression { .. } => "expression"@,
            },
    {
        match self {
            Installable::Flake { .. } => "flake",
            Installable::File { .. } => "file",
            Installable::Store { .. } => "store path",
            Installable::Expression { .. } => "expression",
        }
    }

    /// The local path that must hold `flake.nix` before Nix runs, for a flake
    /// reference that names one.
    pub fn local_flake_path(&self) -> (res: Option<String>)
        ensures
            match self {
                Installable::Flake { reference, .. } => match res {
                    Some(p) => local_flake_path_spec(reference@) == Some(p@),
                    None => local_flake_path_spec(reference@) is None,
                },
                _ => res is None,
            },
    {
        match self {
            Installable::Flake { reference, .. } => local_flake_reference_path(reference.as_str()),
            _ => None,
        }
    }

    /// Checks an explicit local flake reference against what the lookup of
    /// its directory found, so that a bad configuration fails before Nix
    /// searches parent directories.
    pub fn validate_local_flake_ref(&self, lookup: &FlakeDirLookup) -> (res: Result<(), String>)
        ensures
            match self {
                Installable::Flake { reference, .. } => match local_flake_path_spec(reference@) {
                    Some(path) => match local_ref_error_spec(reference@, path, *lookup) {
                        Some(m) => res is Err && res->Err_0@ == m,
                        None => res is Ok,
                    },
                    None => res is Ok,
                },
                _ => res is Ok,
            },
    {
        match self {
            Installable::Flake { reference, .. } => match local_flake_reference_path(reference.as_str()) {
                Some(path) => match local_ref_error(reference.as_str(), path.as_str(), lookup) {
                    Some(m) => Err(m),
                    None => Ok(()),
                },
                None => Ok(()),
            },
            _ => Ok(()),
        }
    }
}

/// The installable named on the command line. `installable` is the
/// positional value, `canonical` its canonical filesystem path when it has
/// one, `file` and `expr` the `--file` and `--expr` values.
pub open spec fn from_cli_spec(
    installable: Option<Seq<char>>,
    canonical: Option<Seq<char>>,
    file: Option<Seq<char>>,
    expr: Option<Seq<char>>,
) -> Result<Option<InstallableView>, Seq<char>> {
    let attr_text = match installable {
        Some(i) => i,
        None => Seq::empty(),
    };
    if installable is Some && canonical is Some && components_start_with(
        components(canonical->0),
        components("/nix/store"@),
    ) {
        Ok(Some(InstallableView::Store { path: canonical->0 }))
    } else if file is Some {
        match parse_attr_spec(attr_text) {
            Ok(a) => Ok(Some(InstallableView::File { path: file->0, attribute: a })),
            Err(e) => Err(labelled("attribute path"@, e.spec_message())),
        }
    } else if expr is Some {
        match parse_attr_spec(attr_text) {
            Ok(a) => Ok(Some(InstallableView::Expression { expression: expr->0, attribute: a })),
            Err(e) => Err(labelled("attribute path"@, e.spec_message())),
        }
    } else if installable is Some {
        match flake_ref_spec(installable->0) {
            Ok((reference, attribute)) => Ok(Some(InstallableView::Flake { reference, attribute })),
            Err(e) => Err(labelled("installable argument"@, e.spec_message())),
        }
    } else {
        Ok(None)
    }
}

/// The view of a command-line installable result.
pub open spec fn args_result_view(r: Result<InstallableArgs, String>) -> Result<Option<InstallableView>, Seq<char>> {
    match r {
        Ok(InstallableArgs::Specified(i)) => Ok(Some(i@)),
        Ok(InstallableArgs::Unspecified) => Ok(None),
        Err(e) => Err(e@),
    }
}

/// The view of an optional string.
pub open spec fn opt_view(o: Option<String>) -> Option<Seq<char>> {
    match o {
        Some(s) => Some(s@),
        None => None,
    }
}

impl InstallableArgs {
    /// Builds the command-line installable: a store path wins, then
    /// `--file` and `--expr` with the positional value as attribute path,
    /// then the positional value as a flake reference.
    pub fn from_cli(
        installable: Option<String>,
        canonical: Option<String>,
        file: Option<String>,
        expr: Option<String>,
    ) -> (res: Result<InstallableArgs, String>)
        ensures
            args_result_view(res) == from_cli_spec(
                opt_view(installable),
                opt_view(canonical),
                opt_view(file),
                opt_view(expr),
            ),
    {
        if installable.is_some() {
            if let Some(path) = &canonical {
                if path_starts_with(path.as_str(), "/nix/store") {
                    return Ok(InstallableArgs::Specified(Installable::Store { path: path.clone() }));
                }
            }
        }
        let attr_text = match &installable {
            Some(i) => i.clone(),
            None => String::new(),
        };
        if let Some(path) = file {
            return match parse_attribute(attr_text.as_str()) {
                Ok(attribute) => Ok(InstallableArgs::Specified(Installable::File { path, attribute })),
                Err(e) => Err(label_message("attribute path", e.message())),
            };
        }
        if let Some(expression) = expr {
            return match parse_attribute(attr_text.as_str()) {
                Ok(attribute) => Ok(InstallableArgs::Specified(Installable::Expression { expression, attribute })),
                Err(e) => Err(label_message("attribute path", e.message())),
            };
        }
        if let Some(value) = installable {
            return match parse_flake_reference(value.as_str()) {
                Ok((reference, attribute)) => Ok(InstallableArgs::Specified(Installable::Flake { reference, attribute })),
                Err(e) => Err(label_message("installable argument", e.message())),
            };
        }
        Ok(InstallableArgs::Unspecified)
    }
}


/// Flake mode is chosen exactly when the installable that resolution
/// picks is a flake reference; with nothing to resolve it is not chosen.
pub proof fn lemma_uses_flakes_matches_resolution(args: InstallableArgs, config: FlakeConfig)
    ensures
        match resolve_spec(args, config) {
            Ok(Some(i)) => uses_flakes_spec(args, config) == (i is Flake),
            Ok(None) => !uses_flakes_spec(args, config),
            Err(_) => true,
        },
{
}

} // verus!
