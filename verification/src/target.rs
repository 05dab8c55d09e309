//! Selecting what a Nix command operates on: a flake reference, a file, an
//! expression, each with an attribute path, or a bare store path. The
//! command line is consulted first, then `NH_FILE`/`NH_ATTRP` and
//! `NH_FLAKE`, then the `/etc/nixos` default.

use vstd::prelude::*;

use crate::attr::{join_attr, parse_attr_spec, parse_attribute, segments_of, AttrError};
use crate::installable::{
    flake_ref_spec, label_message, labelled, local_flake_path_spec, local_flake_reference_path,
    FlakeDirLookup, FlakeRefError,
};
use crate::paths::{components, components_start_with, path_starts_with};
use crate::runtime::Env;
use crate::text::{chars_of, find_char, first_index_of, owned, slice_chars, string_from_chars};

verus! {

/// A parsed Nix attribute path: dot-separated segments, stored unquoted.
#[derive(Debug, Clone, Default)]
pub struct AttrPath(Vec<String>);

impl View for AttrPath {
    type V = Seq<Seq<char>>;

    closed spec fn view(&self) -> Seq<Seq<char>> {
        segments_of(self.0@)
    }
}

/// The view of an attribute-path parse result.
pub open spec fn attr_path_result_view(r: Result<AttrPath, AttrError>) -> Result<Seq<Seq<char>>, AttrError> {
    match r {
        Ok(p) => Ok(p@),
        Err(e) => Err(e),
    }
}

impl AttrPath {
    /// The path made of the given unquoted segments.
    pub fn from_segments(segments: Vec<String>) -> (res: AttrPath)
        ensures
            res@ == segments_of(segments@),
    {
        AttrPath(segments)
    }

    /// Parses an attribute path such as `nixosConfigurations.myhost`;
    /// segments holding separators are quoted with `"` and may use `\"` and
    /// `\\` escapes.
    pub fn parse(value: &str) -> (res: Result<AttrPath, AttrError>)
        ensures
            attr_path_result_view(res) == parse_attr_spec(value@),
    {
        match parse_attribute(value) {
            Ok(segments) => Ok(AttrPath(segments)),
            Err(e) => Err(e),
        }
    }

    /// The canonical spelling, quoting the segments that need it.
    pub fn to_string(&self) -> (res: String)
        ensures
            res@ == join_attr(self@),
    {
        crate::attr::join_attribute(&self.0)
    }

    /// The segments, unquoted.
    pub fn segments(&self) -> (res: &Vec<String>)
        ensures
            segments_of(res@) == self@,
    {
        &self.0
    }

    /// A copy of the segments, unquoted.
    pub fn to_vec(&self) -> (res: Vec<String>)
        ensures
            segments_of(res@) == self@,
    {
        self.0.clone()
    }

    /// Whether the path has no segment.
    pub fn is_empty(&self) -> (res: bool)
        ensures
            res == (self@.len() == 0),
    {
        self.0.len() == 0
    }

    /// The number of segments.
    pub fn len(&self) -> (res: usize)
        ensures
            res == self@.len(),
    {
        self.0.len()
    }
}

/// Rendering an attribute path and parsing the text back gives the same
/// path.
pub proof fn lemma_attr_path_display_roundtrip(p: AttrPath)
    ensures
        parse_attr_spec(join_attr(p@)) == Ok::<Seq<Seq<char>>, AttrError>(p@),
{
    crate::attr::lemma_attr_roundtrip(p@);
}

/// What a Nix command operates on.
#[derive(Debug, Clone)]
pub enum BuildTarget {
    Flake { reference: String, attribute: AttrPath },
    File { path: String, attribute: AttrPath },
    Expression { expression: String, attribute: AttrPath },
    StorePath(String),
}

/// The mathematical value of a build target.
pub enum BuildTargetView {
    Flake { reference: Seq<char>, attribute: Seq<Seq<char>> },
    File { path: Seq<char>, attribute: Seq<Seq<char>> },
    Expression { expression: Seq<char>, attribute: Seq<Seq<char>> },
    StorePath(Seq<char>),
}

impl View for BuildTarget {
    type V = BuildTargetView;

    open spec fn view(&self) -> BuildTargetView {
        match self {
            BuildTarget::Flake { reference, attribute } => BuildTargetView::Flake {
                reference: reference@,
                attribute: attribute@,
            },
            BuildTarget::File { path, attribute } => BuildTargetView::File { path: path@, attribute: attribute@ },
            BuildTarget::Expression { expression, attribute } => BuildTargetView::Expression {
                expression: expression@,
                attribute: attribute@,
            },
            BuildTarget::StorePath(p) => BuildTargetView::StorePath(p@),
        }
    }
}

/// The arguments that name a target on a Nix command line.
pub open spec fn target_args_spec(t: BuildTargetView) -> Seq<Seq<char>> {
    match t {
        BuildTargetView::Flake { reference, attribute } => seq![reference + seq!['#'] + join_attr(attribute)],
        BuildTargetView::File { path, attribute } => seq!["--file"@, path, join_attr(attribute)],
        BuildTargetView::Expression { expression, attribute } => seq!["--expr"@, expression, join_attr(attribute)],
        BuildTargetView::StorePath(p) => seq![p],
    }
}

/// The view of a target result.
pub open spec fn target_result_view(r: Result<BuildTarget, String>) -> Result<BuildTargetView, Seq<char>> {
    match r {
        Ok(t) => Ok(t@),
        Err(e) => Err(e@),
    }
}

/// The view of an optional target result.
pub open spec fn opt_target_result_view(r: Result<Option<BuildTarget>, String>) -> Result<
    Option<BuildTargetView>,
    Seq<char>,
> {
    match r {
        Ok(Some(t)) => Ok(Some(t@)),
        Ok(None) => Ok(None),
        Err(e) => Err(e@),
    }
}

/// The view of a flake-reference parse result.
pub open spec fn target_ref_result_view(r: Result<(String, AttrPath), FlakeRefError>) -> Result<
    (Seq<char>, Seq<Seq<char>>),
    FlakeRefError,
> {
    match r {
        Ok((reference, attribute)) => Ok((reference@, attribute@)),
        Err(e) => Err(e),
    }
}

/// Splits a flake reference into its reference and attribute path.
pub fn parse_flake_reference(value: &str) -> (res: Result<(String, AttrPath), FlakeRefError>)
    ensures
        target_ref_result_view(res) == flake_ref_spec(value@),
{
    let v = chars_of(value);
    if v.len() == 0 {
        return Err(FlakeRefError::Empty);
    }
    let (reference, attribute) = match find_char(&v, '#') {
        Some(i) => (slice_chars(&v, 0, i), slice_chars(&v, i + 1, v.len())),
        None => (slice_chars(&v, 0, v.len()), Vec::new()),
    };
    assert(v@.subrange(0, v@.len() as int) =~= v@);
    proof {
        match first_index_of(v@, '#') {
            Some(i) => {
                assert(v@.subrange(0, i) =~= v@.take(i));
                assert(v@.subrange(i + 1, v@.len() as int) =~= v@.skip(i + 1));
            },
            None => {
                assert(attribute@ =~= Seq::<char>::empty());
            },
        }
    }
    if reference.len() == 0 {
        return Err(FlakeRefError::MissingReference);
    }
    let attribute = string_from_chars(&attribute);
    match AttrPath::parse(attribute.as_str()) {
        Ok(a) => Ok((string_from_chars(&reference), a)),
        Err(e) => Err(FlakeRefError::Attribute(e)),
    }
}

/// The flake target of the setting `name`, or the error reported for it.
pub open spec fn flake_target_spec(name: Seq<char>, value: Seq<char>) -> Result<BuildTargetView, Seq<char>> {
    match flake_ref_spec(value) {
        Ok((reference, attribute)) => Ok(BuildTargetView::Flake { reference, attribute }),
        Err(e) => Err(labelled(name, e.spec_message())),
    }
}

/// The target that `NH_FILE` (with `NH_ATTRP`) or else `NH_FLAKE` selects;
/// an explicitly empty `NH_FILE` is an error.
pub open spec fn env_target_spec(
    file: Option<Seq<char>>,
    attrp: Option<Seq<char>>,
    flake: Option<Seq<char>>,
) -> Result<Option<BuildTargetView>, Seq<char>> {
    match file {
        Some(f) => if f.len() == 0 {
            Err("NH_FILE is empty. Set it to a Nix file path or remove it."@)
        } else {
            let attr_text = match attrp {
                Some(a) => a,
                None => Seq::empty(),
            };
            match parse_attr_spec(attr_text) {
                Ok(a) => Ok(Some(BuildTargetView::File { path: f, attribute: a })),
                Err(e) => Err(labelled("NH_ATTRP"@, e.spec_message())),
            }
        },
        None => match flake {
            Some(v) => match flake_target_spec("NH_FLAKE"@, v) {
                Ok(t) => Ok(Some(t)),
                Err(e) => Err(e),
            },
            None => Ok(None),
        },
    }
}

/// The target selected by the environment, if any.
pub fn env_target(env: &Env) -> (res: Result<Option<BuildTarget>, String>)
    ensures
        opt_target_result_view(res) == env_target_spec(
            env.spec_var("NH_FILE"@),
            env.spec_var("NH_ATTRP"@),
            env.spec_var("NH_FLAKE"@),
        ),
{
    if let Some(file) = env.var("NH_FILE") {
        if file.is_empty() {
            return Err(owned("NH_FILE is empty. Set it to a Nix file path or remove it."));
        }
        let attr_text = match env.var("NH_ATTRP") {
            Some(a) => a,
            None => "",
        };
        proof {
            if env.spec_var("NH_ATTRP"@) is None {
                reveal_strlit("");
                assert(attr_text@ =~= Seq::<char>::empty());
            }
        }
        return match AttrPath::parse(attr_text) {
            Ok(attribute) => Ok(Some(BuildTarget::File { path: owned(file), attribute })),
            Err(e) => Err(label_message("NH_ATTRP", e.message())),
        };
    }
    match env.var("NH_FLAKE") {
        Some(value) => match parse_flake_reference(value) {
            Ok((reference, attribute)) => Ok(Some(BuildTarget::Flake { reference, attribute })),
            Err(e) => Err(label_message("NH_FLAKE", e.message())),
        },
        None => Ok(None),
    }
}

/// The `--file` or `--expr` value given on the command line.
#[derive(Debug, Clone)]
pub enum CliSource {
    File(String),
    Expr(String),
}

/// The target that the command line selects: a positional value whose
/// canonical path lies in `/nix/store`, then `--file`/`--expr` with the
/// positional value as attribute path, then a flake reference.
pub open spec fn resolve_cli_spec(
    source: Option<CliSource>,
    positional: Option<Seq<char>>,
    canonical: Option<Seq<char>>,
) -> Result<Option<BuildTargetView>, Seq<char>> {
    let attr_text = match positional {
        Some(p) => p,
        None => Seq::empty(),
    };
    if positional is Some && canonical is Some && components_start_with(
        components(canonical->0),
        components("/nix/store"@),
    ) {
        Ok(Some(BuildTargetView::StorePath(canonical->0)))
    } else if source is Some {
        match parse_attr_spec(attr_text) {
            Ok(a) => match source->0 {
                CliSource::File(p) => Ok(Some(BuildTargetView::File { path: p@, attribute: a })),
                CliSource::Expr(e) => Ok(Some(BuildTargetView::Expression { expression: e@, attribute: a })),
            },
            Err(e) => Err(labelled("attribute path"@, e.spec_message())),
        }
    } else if positional is Some {
        match flake_target_spec("target argument"@, positional->0) {
            Ok(t) => Ok(Some(t)),
            Err(e) => Err(e),
        }
    } else {
        Ok(None)
    }
}

/// Resolves the command-line surface into an optional target. `canonical`
/// is the canonical filesystem path of the positional value, when it has
/// one.
pub fn resolve_cli(source: Option<CliSource>, positional: Option<String>, canonical: Option<String>) -> (res:
    Result<Option<BuildTarget>, String>)
    ensures
        opt_target_result_view(res) == resolve_cli_spec(
            source,
            crate::installable::opt_view(positional),
            crate::installable::opt_view(canonical),
        ),
{
    if positional.is_some() {
        if let Some(path) = &canonical {
            if path_starts_with(path.as_str(), "/nix/store") {
                return Ok(Some(BuildTarget::StorePath(path.clone())));
            }
        }
    }
    let attr_text = match &positional {
        Some(p) => p.clone(),
        None => String::new(),
    };
    if let Some(source) = source {
        return match AttrPath::parse(attr_text.as_str()) {
            Ok(attribute) => Ok(
                Some(
                    match source {
                        CliSource::File(path) => BuildTarget::File { path, attribute },
                        CliSource::Expr(expression) => BuildTarget::Expression { expression, attribute },
                    },
                ),
            ),
            Err(e) => Err(label_message("attribute path", e.message())),
        };
    }
    match positional {
        Some(value) => match parse_flake_reference(value.as_str()) {
            Ok((reference, attribute)) => Ok(Some(BuildTarget::Flake { reference, attribute })),
            Err(e) => Err(label_message("target argument", e.message())),
        },
        None => Ok(None),
    }
}

/// The message for a local flake reference whose directory lookup failed.
pub open spec fn target_local_error_spec(reference: Seq<char>, path: Seq<char>, lookup: FlakeDirLookup) -> Option<
    Seq<char>,
> {
    match lookup {
        FlakeDirLookup::Found(_) => None,
        FlakeDirLookup::NotFound => Some(
            "Flake reference `"@ + reference + "` points to local path `"@ + path
                + "`, but that path does not exist or does not contain a flake.nix file.\nPass an existing flake path or update NH_FLAKE if this value came from the environment."@,
        ),
        FlakeDirLookup::PermissionDenied(p) => Some(
            "Permission denied accessing "@ + p@ + " while checking flake reference `"@ + reference + "`."@,
        ),
        FlakeDirLookup::Io(e) => Some(
            "I/O error checking flake reference `"@ + reference + "` at "@ + path + ": "@ + e@,
        ),
    }
}

/// Help text appended to the errors about a missing default flake.
pub open spec fn default_help_hint() -> Seq<char> {
    "See 'man nh' or https://github.com/nix-community/nh for more details."@
}

/// The `/etc/nixos` default target, or the error reported when there is none.
pub open spec fn os_default_target_spec(lookup: FlakeDirLookup) -> Result<BuildTargetView, Seq<char>> {
    match lookup {
        FlakeDirLookup::Found(dir) => Ok(BuildTargetView::Flake { reference: dir@, attribute: Seq::empty() }),
        FlakeDirLookup::PermissionDenied(p) => Err(
            "Permission denied accessing "@ + p@
                + ".\nPlease either:\n- Pass a flake path as an argument (e.g., 'nh os switch .')\n- Set the NH_FLAKE environment variable\n"@
                + default_help_hint(),
        ),
        FlakeDirLookup::Io(e) => Err("I/O error accessing /etc/nixos: "@ + e@ + "\n\n"@ + default_help_hint()),
        FlakeDirLookup::NotFound => Err(
            "No target specified and no flake found at /etc/nixos/flake.nix.\nPlease either:\n- Pass a flake path as an argument (e.g., 'nh os switch .')\n- Set the NH_FLAKE environment variable\n"@
                + default_help_hint(),
        ),
    }
}

/// The system configuration flake, used when nothing else selects a target.
pub fn os_default_target(lookup: FlakeDirLookup) -> (res: Result<BuildTarget, String>)
    ensures
        target_result_view(res) == os_default_target_spec(lookup),
{
    match lookup {
        FlakeDirLookup::Found(dir) => {
            let attribute = AttrPath::from_segments(Vec::new());
            assert(attribute@ =~= Seq::<Seq<char>>::empty());
            Ok(BuildTarget::Flake { reference: dir, attribute })
        },
        FlakeDirLookup::PermissionDenied(p) => {
            let mut m = owned("Permission denied accessing ");
            m.append(p.as_str());
            m.append(".\nPlease either:\n- Pass a flake path as an argument (e.g., 'nh os switch .')\n- Set the NH_FLAKE environment variable\n");
            m.append("See 'man nh' or https://github.com/nix-community/nh for more details.");
            Err(m)
        },
        FlakeDirLookup::Io(e) => {
            let mut m = owned("I/O error accessing /etc/nixos: ");
            m.append(e.as_str());
            m.append("\n\n");
            m.append("See 'man nh' or https://github.com/nix-community/nh for more details.");
            Err(m)
        },
        FlakeDirLookup::NotFound => {
            let mut m = owned("No target specified and no flake found at /etc/nixos/flake.nix.\nPlease either:\n- Pass a flake path as an argument (e.g., 'nh os switch .')\n- Set the NH_FLAKE environment variable\n");
            m.append("See 'man nh' or https://github.com/nix-community/nh for more details.");
            Err(m)
        },
    }
}

impl BuildTarget {
    /// Name of the target kind, for user-facing messages.
    pub fn kind(&self) -> (res: &'static str)
        ensures
            res@ == match self {
                BuildTarget::Flake { .. } => "flake"@,
                BuildTarget::File { .. } => "file"@,
                BuildTarget::Expression { .. } => "expression"@,
                BuildTarget::StorePath(_) => "store path"@,
            },
    {
        match self {
            BuildTarget::Flake { .. } => "flake",
            BuildTarget::File { .. } => "file",
            BuildTarget::Expression { .. } => "expression",
            BuildTarget::StorePath(_) => "store path",
        }
    }

    /// The arguments that name this target on a Nix command line.
    pub fn to_args(&self) -> (res: Vec<String>)
        ensures
            res@.map_values(|s: String| s@) == target_args_spec(self@),
    {
        let mut res: Vec<String> = Vec::new();
        match self {
            BuildTarget::Flake { reference, attribute } => {
                let mut a = reference.clone();
                crate::text::string_push(&mut a, '#');
                let j = attribute.to_string();
                a.append(j.as_str());
                assert(a@ =~= reference@ + seq!['#'] + join_attr(attribute@));
                res.push(a);
                assert(res@.map_values(|s: String| s@) =~= target_args_spec(self@));
            },
            BuildTarget::File { path, attribute } => {
                res.push(owned("--file"));
                res.push(path.clone());
                res.push(attribute.to_string());
                assert(res@.map_values(|s: String| s@) =~= target_args_spec(self@));
            },
            BuildTarget::Expression { expression, attribute } => {
                res.push(owned("--expr"));
                res.push(expression.clone());
                res.push(attribute.to_string());
                assert(res@.map_values(|s: String| s@) =~= target_args_spec(self@));
            },
            BuildTarget::StorePath(p) => {
                res.push(p.clone());
                assert(res@.map_values(|s: String| s@) =~= target_args_spec(self@));
            },
        }
        res
    }

    /// The local path that must hold `flake.nix`, for a flake reference that
    /// unmistakably names one.
    pub fn local_flake_path(&self) -> (res: Option<String>)
        ensures
            match self {
                BuildTarget::Flake { reference, .. } => match res {
                    Some(p) => local_flake_path_spec(reference@) == Some(p@),
                    None => local_flake_path_spec(reference@) is None,
                },
                _ => res is None,
            },
    {
        match self {
            BuildTarget::Flake { reference, .. } => local_flake_reference_path(reference.as_str()),
            _ => None,
        }
    }

    /// Checks an explicit local flake reference against what the lookup of
    /// its directory found.
    pub fn validate_local_ref(&self, lookup: &FlakeDirLookup) -> (res: Result<(), String>)
        ensures
            match self {
                BuildTarget::Flake { reference, .. } => match local_flake_path_spec(reference@) {
                    Some(path) => match target_local_error_spec(reference@, path, *lookup) {
                        Some(m) => res is Err && res->Err_0@ == m,
                        None => res is Ok,
                    },
                    None => res is Ok,
                },
                _ => res is Ok,
            },
    {
        match self {
            BuildTarget::Flake { reference, .. } => match local_flake_reference_path(reference.as_str()) {
                Some(path) => match lookup {
                    FlakeDirLookup::Found(_) => Ok(()),
                    FlakeDirLookup::NotFound => {
                        let mut m = owned("Flake reference `");
                        m.append(reference.as_str());
                        m.append("` points to local path `");
                        m.append(path.as_str());
                        m.append("`, but that path does not exist or does not contain a flake.nix file.\nPass an existing flake path or update NH_FLAKE if this value came from the environment.");
                        Err(m)
                    },
                    FlakeDirLookup::PermissionDenied(p) => {
                        let mut m = owned("Permission denied accessing ");
                        m.append(p.as_str());
                        m.append(" while checking flake reference `");
                        m.append(reference.as_str());
                        m.append("`.");
                        Err(m)
                    },
                    FlakeDirLookup::Io(e) => {
                        let mut m = owned("I/O error checking flake reference `");
                        m.append(reference.as_str());
                        m.append("` at ");
                        m.append(path.as_str());
                        m.append(": ");
                        m.append(e.as_str());
                        Err(m)
                    },
                },
                None => Ok(()),
            },
            _ => Ok(()),
        }
    }
}

/// The target a command uses before the local-reference check: the
/// explicit one, else the one the environment selects, else `None`, which
/// asks for the `/etc/nixos` default.
pub fn select_target(target: Option<BuildTarget>, env: &Env) -> (res: Result<Option<BuildTarget>, String>)
    ensures
        opt_target_result_view(res) == match target {
            Some(t) => Ok(Some(t@)),
            None => env_target_spec(
                env.spec_var("NH_FILE"@),
                env.spec_var("NH_ATTRP"@),
                env.spec_var("NH_FLAKE"@),
            ),
        },
{
    match target {
        Some(explicit) => Ok(Some(explicit)),
        None => env_target(env),
    }
}

} // verus!
