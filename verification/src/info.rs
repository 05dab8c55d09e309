//! The generations table of a NixOS profile: which columns show, how wide
//! they are, and the lines printed.

use vstd::prelude::*;

use crate::num::{decimal, u64_to_decimal};
use crate::text::{concat_str, join_spec, join_strings, owned, str_eq, strings_view};
use vstd::string::StrSliceExecFns;
use serde_json::Value;

verus! {

/// A column of the generations table.
#[derive(Clone, Copy, Debug, PartialEq, Eq, Structural)]
pub enum Field {
    Id,
    Date,
    Nver,
    Kernel,
    Confrev,
    Spec,
    Size,
}

/// The field a name selects, or the message for an unknown name.
pub open spec fn field_spec(s: Seq<char>) -> Result<Field, Seq<char>> {
    if s == "id"@ {
        Ok(Field::Id)
    } else if s == "date"@ {
        Ok(Field::Date)
    } else if s == "nver"@ {
        Ok(Field::Nver)
    } else if s == "kernel"@ {
        Ok(Field::Kernel)
    } else if s == "confRev"@ {
        Ok(Field::Confrev)
    } else if s == "spec"@ {
        Ok(Field::Spec)
    } else if s == "size"@ {
        Ok(Field::Size)
    } else {
        Err("expected one of `id`, `date`, `nver`, `kernel`, `confRev`, `spec`, `size`, got `"@ + s + "`"@)
    }
}

impl Field {
    /// The field a name selects.
    pub fn from_name(s: &str) -> (res: Result<Field, String>)
        ensures
            match field_spec(s@) {
                Ok(f) => res == Ok::<Field, String>(f),
                Err(e) => res matches Err(m) && m@ == e,
            },
    {
        if str_eq(s, "id") {
            Ok(Field::Id)
        } else if str_eq(s, "date") {
            Ok(Field::Date)
        } else if str_eq(s, "nver") {
            Ok(Field::Nver)
        } else if str_eq(s, "kernel") {
            Ok(Field::Kernel)
        } else if str_eq(s, "confRev") {
            Ok(Field::Confrev)
        } else if str_eq(s, "spec") {
            Ok(Field::Spec)
        } else if str_eq(s, "size") {
            Ok(Field::Size)
        } else {
            let mut m = concat_str("expected one of `id`, `date`, `nver`, `kernel`, `confRev`, `spec`, `size`, got `", s);
            m.append("`");
            Err(m)
        }
    }
}

impl std::str::FromStr for Field {
    type Err = String;

    fn from_str(s: &str) -> (res: Result<Field, String>)
        ensures
            match field_spec(s@) {
                Ok(f) => res == Ok::<Field, String>(f),
                Err(e) => res matches Err(m) && m@ == e,
            },
    {
        Field::from_name(s)
    }
}

/// The comma-separated parts of `s`, as `str::split(',')` yields them.
pub open spec fn comma_parts(s: Seq<char>) -> Seq<Seq<char>>
    decreases s.len(),
{
    match crate::text::first_index_of(s, ',') {
        Some(i) => if 0 <= i < s.len() {
            seq![s.take(i)] + comma_parts(s.skip(i + 1))
        } else {
            seq![s]
        },
        None => seq![s],
    }
}

/// The fields named by `parts`, or the first error.
pub open spec fn fields_of_parts(parts: Seq<Seq<char>>) -> Result<Seq<Field>, Seq<char>>
    decreases parts.len(),
{
    if parts.len() == 0 {
        Ok(Seq::empty())
    } else {
        match fields_of_parts(parts.drop_last()) {
            Err(e) => Err(e),
            Ok(fs) => match field_spec(parts.last()) {
                Err(e) => Err(e),
                Ok(f) => Ok(fs.push(f)),
            },
        }
    }
}

/// The fields the values select, each value split at commas; the first
/// unknown name is the error.
pub open spec fn field_selection_spec(values: Seq<Seq<char>>) -> Result<Seq<Field>, Seq<char>>
    decreases values.len(),
{
    if values.len() == 0 {
        Ok(Seq::empty())
    } else {
        match field_selection_spec(values.drop_last()) {
            Err(e) => Err(e),
            Ok(fs) => match fields_of_parts(comma_parts(values.last())) {
                Err(e) => Err(e),
                Ok(more) => Ok(fs + more),
            },
        }
    }
}

/// Splits `cs` at commas.
fn split_commas(cs: &Vec<char>) -> (res: Vec<String>)
    ensures
        strings_view(res@) == comma_parts(cs@),
    decreases cs@.len(),
{
    match crate::text::find_char(cs, ',') {
        Some(i) => {
            assert(crate::text::is_first_index(cs@, ',', i as int));
            assert(i < cs.len());
            let head = crate::text::slice_chars(cs, 0, i);
            let tail = crate::text::slice_chars(cs, i + 1, cs.len());
            assert(head@ =~= cs@.take(i as int));
            assert(tail@ =~= cs@.skip(i + 1));
            let rest = split_commas(&tail);
            let mut v: Vec<String> = vec![crate::text::string_from_chars(&head)];
            crate::nix_command::extend_strings(&mut v, &rest);
            assert(strings_view(v@) =~= seq![cs@.take(i as int)] + comma_parts(cs@.skip(i + 1)));
            v
        },
        None => {
            let v: Vec<String> = vec![crate::text::string_from_chars(cs)];
            assert(strings_view(v@) =~= seq![cs@]);
            v
        },
    }
}

/// The fields the parts name, or the first error.
fn parse_parts(parts: &Vec<String>) -> (res: Result<Vec<Field>, String>)
    ensures
        match fields_of_parts(strings_view(parts@)) {
            Ok(fs) => res matches Ok(v) && v@ == fs,
            Err(e) => res matches Err(m) && m@ == e,
        },
{
    let ghost ps = strings_view(parts@);
    let mut fields: Vec<Field> = Vec::new();
    let mut j: usize = 0;
    while j < parts.len()
        invariant
            j <= parts.len(),
            ps == strings_view(parts@),
            fields_of_parts(ps.take(j as int)) == Ok::<Seq<Field>, Seq<char>>(fields@),
        decreases parts.len() - j,
    {
        assert(ps.take(j + 1).drop_last() =~= ps.take(j as int));
        assert(ps.take(j + 1).last() == parts@[j as int]@);
        match Field::from_name(parts[j].as_str()) {
            Ok(f) => {
                fields.push(f);
            },
            Err(e) => {
                proof {
                    lemma_fields_error_persists(ps, j as int);
                }
                return Err(e);
            },
        }
        j = j + 1;
    }
    assert(ps.take(parts.len() as int) =~= ps);
    Ok(fields)
}

/// An error among the first parts is the error of all of them.
proof fn lemma_fields_error_persists(parts: Seq<Seq<char>>, j: int)
    requires
        0 <= j < parts.len(),
        fields_of_parts(parts.take(j)) is Ok,
        field_spec(parts[j]) is Err,
    ensures
        fields_of_parts(parts) == Err::<Seq<Field>, Seq<char>>(field_spec(parts[j])->Err_0),
    decreases parts.len(),
{
    if parts.len() == j + 1 {
        assert(parts.drop_last() =~= parts.take(j));
    } else {
        assert(parts.drop_last().take(j) =~= parts.take(j));
        assert(parts.drop_last()[j] == parts[j]);
        lemma_fields_error_persists(parts.drop_last(), j);
    }
}

/// An error in one value is the error of the whole selection.
proof fn lemma_selection_error(values: Seq<Seq<char>>, i: int, before: Seq<Field>)
    requires
        0 <= i < values.len(),
        field_selection_spec(values.take(i)) == Ok::<Seq<Field>, Seq<char>>(before),
        fields_of_parts(comma_parts(values[i])) is Err,
    ensures
        field_selection_spec(values) == Err::<Seq<Field>, Seq<char>>(fields_of_parts(comma_parts(values[i]))->Err_0),
    decreases values.len(),
{
    if values.len() == i + 1 {
        assert(values.drop_last() =~= values.take(i));
    } else {
        assert(values.drop_last().take(i) =~= values.take(i));
        assert(values.drop_last()[i] == values[i]);
        lemma_selection_error(values.drop_last(), i, before);
    }
}

/// Parses the `--fields` values.
pub fn parse_field_selection(values: &Vec<String>) -> (res: Result<Vec<Field>, String>)
    ensures
        match field_selection_spec(strings_view(values@)) {
            Ok(fs) => res matches Ok(v) && v@ == fs,
            Err(e) => res matches Err(m) && m@ == e,
        },
{
    let ghost vs = strings_view(values@);
    let mut fields: Vec<Field> = Vec::new();
    let mut i: usize = 0;
    while i < values.len()
        invariant
            i <= values.len(),
            vs == strings_view(values@),
            vs.len() == values@.len(),
            field_selection_spec(vs.take(i as int)) == Ok::<Seq<Field>, Seq<char>>(fields@),
        decreases values.len() - i,
    {
        assert(vs.take(i + 1).drop_last() =~= vs.take(i as int));
        assert(vs.take(i + 1).last() == values@[i as int]@);
        let cs = crate::text::chars_of(values[i].as_str());
        let parts = split_commas(&cs);
        match parse_parts(&parts) {
            Ok(more) => {
                let ghost prev = fields@;
                let mut k: usize = 0;
                while k < more.len()
                    invariant
                        k <= more.len(),
                        fields@ == prev + more@.take(k as int),
                    decreases more.len() - k,
                {
                    fields.push(more[k]);
                    k = k + 1;
                    assert(fields@ =~= prev + more@.take(k as int));
                }
                assert(more@.take(more.len() as int) =~= more@);
            },
            Err(e) => {
                proof {
                    assert(vs[i as int] == values@[i as int]@);
                    lemma_selection_error(vs, i as int, fields@);
                }
                return Err(e);
            },
        }
        i = i + 1;
    }
    assert(vs.take(values.len() as int) =~= vs);
    Ok(fields)
}

/// What is known of one generation of a profile.
#[derive(Debug, Clone)]
pub struct GenerationInfo {
    pub number: u64,
    pub date: String,
    pub nixos_version: String,
    pub kernel_version: String,
    pub configuration_revision: Option<String>,
    pub specialisations: Option<Vec<String>>,
    pub current: bool,
    pub closure_size: String,
}

/// The command-line options of `info`.
#[derive(Clone, Debug)]
pub struct CliOpts {
    pub profile: String,
    pub fields: Option<Vec<Field>>,
}

/// The number of bytes of `s` in UTF-8.
pub open spec fn utf8_len(s: Seq<char>) -> nat {
    vstd::utf8::encode_utf8(s).len()
}

/// `s` padded with spaces to `width` characters.
pub open spec fn pad_spec(s: Seq<char>, width: nat) -> Seq<char> {
    if s.len() >= width {
        s
    } else {
        s + Seq::new((width - s.len()) as nat, |_i: int| ' ')
    }
}

/// `s` padded with spaces to `width` characters, as `{:width$}` formats it.
fn pad(s: &str, width: usize) -> (res: String)
    ensures
        res@ == pad_spec(s@, width as nat),
{
    let mut r = owned(s);
    let n = crate::text::chars_of(s).len();
    if n >= width {
        return r;
    }
    let mut k: usize = n;
    assert(r@ =~= s@ + Seq::new((k - n) as nat, |_i: int| ' '));
    while k < width
        invariant
            n == s@.len(),
            n <= k <= width,
            r@ == s@ + Seq::new((k - n) as nat, |_i: int| ' '),
        decreases width - k,
    {
        crate::text::string_push(&mut r, ' ');
        k = k + 1;
        assert(r@ =~= s@ + Seq::new((k - n) as nat, |_i: int| ' '));
    }
    r
}

/// The widths of the columns.
#[derive(Clone, Copy, Debug)]
pub struct ColumnWidths {
    pub id: usize,
    pub date: usize,
    pub nver: usize,
    pub kernel: usize,
    pub confrev: usize,
    pub spec: usize,
    pub size: usize,
}

/// A column's title and width.
pub open spec fn column_spec(f: Field, w: ColumnWidths) -> (Seq<char>, usize) {
    match f {
        Field::Id => ("Generation No"@, w.id),
        Field::Date => ("Build Date"@, w.date),
        Field::Nver => ("NixOS Version"@, w.nver),
        Field::Kernel => ("Kernel"@, w.kernel),
        Field::Confrev => ("Configuration Revision"@, w.confrev),
        Field::Spec => ("Specialisations"@, w.spec),
        Field::Size => ("Closure Size"@, w.size),
    }
}

impl Field {
    /// The column's title and width.
    pub fn column_info(&self, width: ColumnWidths) -> (res: (&'static str, usize))
        ensures
            (res.0@, res.1) == column_spec(*self, width),
    {
        match self {
            Field::Id => ("Generation No", width.id),
            Field::Date => ("Build Date", width.date),
            Field::Nver => ("NixOS Version", width.nver),
            Field::Kernel => ("Kernel", width.kernel),
            Field::Confrev => ("Configuration Revision", width.confrev),
            Field::Spec => ("Specialisations", width.spec),
            Field::Size => ("Closure Size", width.size),
        }
    }
}

/// `sorted` with `g` after every entry whose number is not greater.
pub open spec fn insert_by_number(sorted: Seq<GenerationInfo>, g: GenerationInfo) -> Seq<GenerationInfo>
    decreases sorted.len(),
{
    if sorted.len() == 0 {
        seq![g]
    } else if sorted.last().number <= g.number {
        sorted.push(g)
    } else {
        insert_by_number(sorted.drop_last(), g).push(sorted.last())
    }
}

/// The generations ordered by number, equal numbers keeping their order.
pub open spec fn sort_by_number(s: Seq<GenerationInfo>) -> Seq<GenerationInfo>
    decreases s.len(),
{
    if s.len() == 0 {
        Seq::empty()
    } else {
        insert_by_number(sort_by_number(s.drop_last()), s.last())
    }
}

proof fn lemma_insert_at(sorted: Seq<GenerationInfo>, g: GenerationInfo, j: int)
    requires
        0 <= j <= sorted.len(),
        forall|k: int| j <= k < sorted.len() ==> (#[trigger] sorted[k]).number > g.number,
        j > 0 ==> sorted[j - 1].number <= g.number,
    ensures
        insert_by_number(sorted, g) == sorted.insert(j, g),
    decreases sorted.len(),
{
    if sorted.len() == 0 {
        assert(sorted.insert(j, g) =~= seq![g]);
    } else if j == sorted.len() {
        assert(sorted.insert(j, g) =~= sorted.push(g));
    } else {
        let d = sorted.drop_last();
        assert forall|k: int| j <= k < d.len() implies (#[trigger] d[k]).number > g.number by {
            assert(d[k] == sorted[k]);
        }
        assert(sorted[sorted.len() - 1].number > g.number);
        lemma_insert_at(d, g, j);
        assert(sorted.insert(j, g) =~= d.insert(j, g).push(sorted.last()));
    }
}

/// The generations ordered by number, stably.
fn sort_generations(generations: Vec<GenerationInfo>) -> (res: Vec<GenerationInfo>)
    ensures
        res@ == sort_by_number(generations@),
{
    let ghost orig = generations@;
    let mut rest = generations;
    let mut sorted: Vec<GenerationInfo> = Vec::new();
    let mut k: usize = 0;
    assert(orig.len() == rest.len());
    while rest.len() > 0
        invariant
            orig.len() <= usize::MAX,
            k <= orig.len(),
            k + rest@.len() == orig.len(),
            rest@ == orig.skip(k as int),
            sorted@ == sort_by_number(orig.take(k as int)),
        decreases rest.len(),
    {
        let g = rest.remove(0);
        assert(g == orig[k as int]);
        let mut j: usize = sorted.len();
        while j > 0 && sorted[j - 1].number > g.number
            invariant
                j <= sorted.len(),
                forall|m: int| j <= m < sorted.len() ==> (#[trigger] sorted@[m]).number > g.number,
            decreases j,
        {
            j = j - 1;
        }
        proof {
            lemma_insert_at(sorted@, g, j as int);
            assert(orig.take(k + 1).drop_last() =~= orig.take(k as int));
            assert(orig.take(k + 1).last() == g);
        }
        sorted.insert(j, g);
        k = k + 1;
        assert(rest@ =~= orig.skip(k as int));
    }
    assert(orig.take(k as int) =~= orig);
    sorted
}

/// The largest of `lens`, or `default` when there is none.
pub open spec fn max_or(lens: Seq<nat>, default: nat) -> nat
    decreases lens.len(),
{
    if lens.len() == 0 {
        default
    } else if lens.len() == 1 {
        lens[0]
    } else {
        let m = max_or(lens.drop_last(), default);
        if lens.last() > m {
            lens.last()
        } else {
            m
        }
    }
}

} // verus!

verus! {

/// What `str::len` gives: the number of UTF-8 bytes.
pub open spec fn byte_len_spec(s: Seq<char>) -> nat {
    (utf8_len(s) as usize) as nat
}

/// The decimal lengths of the generation numbers.
pub open spec fn number_lens(gens: Seq<GenerationInfo>) -> Seq<nat> {
    gens.map_values(|g: GenerationInfo| decimal(g.number as nat).len())
}

/// The byte lengths of the NixOS versions.
pub open spec fn version_lens(gens: Seq<GenerationInfo>) -> Seq<nat> {
    gens.map_values(|g: GenerationInfo| byte_len_spec(g.nixos_version@))
}

/// The byte lengths of the kernel versions.
pub open spec fn kernel_lens(gens: Seq<GenerationInfo>) -> Seq<nat> {
    gens.map_values(|g: GenerationInfo| byte_len_spec(g.kernel_version@))
}

/// The column widths: the generation number column fits the longest number
/// plus ten, the version columns their longest value; the rest are fixed.
pub open spec fn widths_spec(gens: Seq<GenerationInfo>) -> ColumnWidths {
    ColumnWidths {
        id: (max_or(number_lens(gens), 5) + 10) as usize,
        date: 20,
        nver: max_or(version_lens(gens), 22) as usize,
        kernel: max_or(kernel_lens(gens), 12) as usize,
        confrev: 22,
        spec: 15,
        size: 12,
    }
}

/// The largest of `lens`, computed.
fn max_of(lens: &Vec<usize>, default: usize) -> (res: usize)
    ensures
        res as nat == max_or(lens@.map_values(|n: usize| n as nat), default as nat),
{
    let ghost lv = lens@.map_values(|n: usize| n as nat);
    if lens.len() == 0 {
        return default;
    }
    let mut m: usize = lens[0];
    let mut i: usize = 1;
    assert(lv.take(1).len() == 1);
    while i < lens.len()
        invariant
            1 <= i <= lens.len(),
            lv == lens@.map_values(|n: usize| n as nat),
            m as nat == max_or(lv.take(i as int), default as nat),
        decreases lens.len() - i,
    {
        assert(lv.take(i + 1).drop_last() =~= lv.take(i as int));
        assert(lv.take(i + 1).last() == lens@[i as int] as nat);
        if lens[i] > m {
            m = lens[i];
        }
        i = i + 1;
    }
    assert(lv.take(lens.len() as int) =~= lv);
    m
}

/// The column widths for the generations.
fn widths(gens: &Vec<GenerationInfo>) -> (res: ColumnWidths)
    ensures
        res == widths_spec(gens@),
{
    let mut ids: Vec<usize> = Vec::new();
    let mut nvers: Vec<usize> = Vec::new();
    let mut kernels: Vec<usize> = Vec::new();
    let mut i: usize = 0;
    while i < gens.len()
        invariant
            i <= gens.len(),
            ids@.map_values(|n: usize| n as nat) == number_lens(gens@.take(i as int)),
            nvers@.map_values(|n: usize| n as nat) == version_lens(gens@.take(i as int)),
            kernels@.map_values(|n: usize| n as nat) == kernel_lens(gens@.take(i as int)),
            forall|j: int| 0 <= j < ids@.len() ==> ids@[j] <= 20,
        decreases gens.len() - i,
    {
        let g = &gens[i];
        let d = u64_to_decimal(g.number);
        proof {
            crate::num::lemma_decimal_u64_len(g.number as nat);
        }
        let ghost (pi, pn, pk) = (ids@, nvers@, kernels@);
        let dl = d.as_str().unicode_len();
        let nl = g.nixos_version.as_str().len();
        let kl = g.kernel_version.as_str().len();
        ids.push(dl);
        nvers.push(nl);
        kernels.push(kl);
        assert(ids@.map_values(|n: usize| n as nat) =~= pi.map_values(|n: usize| n as nat).push(dl as nat));
        assert(nvers@.map_values(|n: usize| n as nat) =~= pn.map_values(|n: usize| n as nat).push(nl as nat));
        assert(kernels@.map_values(|n: usize| n as nat) =~= pk.map_values(|n: usize| n as nat).push(kl as nat));
        assert(number_lens(gens@.take(i + 1)) =~= number_lens(gens@.take(i as int)).push(decimal(g.number as nat).len()));
        assert(version_lens(gens@.take(i + 1)) =~= version_lens(gens@.take(i as int)).push(byte_len_spec(g.nixos_version@)));
        assert(kernel_lens(gens@.take(i + 1)) =~= kernel_lens(gens@.take(i as int)).push(byte_len_spec(g.kernel_version@)));
        i = i + 1;
    }
    assert(gens@.take(gens.len() as int) =~= gens@);
    let id = max_of(&ids, 5);
    proof {
        lemma_max_bounded(ids@.map_values(|n: usize| n as nat), 5, 20);
    }
    ColumnWidths {
        id: id + 10,
        date: 20,
        nver: max_of(&nvers, 22),
        kernel: max_of(&kernels, 12),
        confrev: 22,
        spec: 15,
        size: 12,
    }
}

proof fn lemma_max_bounded(lens: Seq<nat>, default: nat, bound: nat)
    requires
        default <= bound,
        forall|j: int| 0 <= j < lens.len() ==> lens[j] <= bound,
    ensures
        max_or(lens, default) <= bound,
    decreases lens.len(),
{
    if lens.len() > 1 {
        lemma_max_bounded(lens.drop_last(), default, bound);
    }
}

/// The columns shown: the selected ones, else all, leaving out the
/// revision and specialisation columns when no generation has one.
pub open spec fn visible_fields_spec(gens: Seq<GenerationInfo>, fields: Option<Seq<Field>>) -> Seq<Field> {
    match fields {
        Some(f) => f,
        None => {
            let has_confrev = exists|i: int| 0 <= i < gens.len() && (#[trigger] gens[i]).configuration_revision is Some;
            let has_spec = exists|i: int| 0 <= i < gens.len() && (#[trigger] gens[i]).specialisations is Some;
            seq![Field::Id, Field::Date, Field::Nver, Field::Kernel] + (if has_confrev {
                seq![Field::Confrev]
            } else {
                Seq::empty()
            }) + (if has_spec {
                seq![Field::Spec]
            } else {
                Seq::empty()
            }) + seq![Field::Size]
        },
    }
}

/// The columns shown.
fn visible_fields(gens: &Vec<GenerationInfo>, fields: Option<&Vec<Field>>) -> (res: Vec<Field>)
    ensures
        res@ == visible_fields_spec(
            gens@,
            match fields {
                Some(f) => Some(f@),
                None => None,
            },
        ),
{
    match fields {
        Some(f) => f.clone(),
        None => {
            let mut has_confrev = false;
            let mut has_spec = false;
            let mut i: usize = 0;
            while i < gens.len()
                invariant
                    i <= gens.len(),
                    has_confrev == exists|j: int| 0 <= j < i && (#[trigger] gens@[j]).configuration_revision is Some,
                    has_spec == exists|j: int| 0 <= j < i && (#[trigger] gens@[j]).specialisations is Some,
                decreases gens.len() - i,
            {
                if gens[i].configuration_revision.is_some() {
                    has_confrev = true;
                }
                if gens[i].specialisations.is_some() {
                    has_spec = true;
                }
                i = i + 1;
            }
            let mut v: Vec<Field> = vec![Field::Id, Field::Date, Field::Nver, Field::Kernel];
            if has_confrev {
                v.push(Field::Confrev);
            }
            if has_spec {
                v.push(Field::Spec);
            }
            v.push(Field::Size);
            assert(v@ =~= visible_fields_spec(gens@, None));
            v
        },
    }
}

/// The text of a cell.
pub open spec fn cell_spec(g: GenerationInfo, f: Field) -> Seq<char> {
    match f {
        Field::Id => decimal(g.number as nat) + if g.current {
            " (current)"@
        } else {
            Seq::empty()
        },
        Field::Date => g.date@,
        Field::Nver => g.nixos_version@,
        Field::Kernel => g.kernel_version@,
        Field::Confrev => match g.configuration_revision {
            Some(r) => r@,
            None => Seq::empty(),
        },
        Field::Spec => match g.specialisations {
            Some(specs) => join_spec(starred(strings_view(specs@)), " "@),
            None => Seq::empty(),
        },
        Field::Size => g.closure_size@,
    }
}

/// Each name with a `*` before it.
pub open spec fn starred(names: Seq<Seq<char>>) -> Seq<Seq<char>> {
    names.map_values(|n: Seq<char>| "*"@ + n)
}

/// The text of a cell.
fn cell(g: &GenerationInfo, f: Field) -> (res: String)
    ensures
        res@ == cell_spec(*g, f),
{
    match f {
        Field::Id => {
            let d = u64_to_decimal(g.number);
            if g.current {
                concat_str(d.as_str(), " (current)")
            } else {
                assert(d@ + Seq::<char>::empty() =~= d@);
                d
            }
        },
        Field::Date => g.date.clone(),
        Field::Nver => g.nixos_version.clone(),
        Field::Kernel => g.kernel_version.clone(),
        Field::Confrev => match &g.configuration_revision {
            Some(r) => r.clone(),
            None => String::new(),
        },
        Field::Spec => match &g.specialisations {
            Some(specs) => {
                let mut names: Vec<String> = Vec::new();
                let mut i: usize = 0;
                while i < specs.len()
                    invariant
                        i <= specs.len(),
                        strings_view(names@) == starred(strings_view(specs@).take(i as int)),
                    decreases specs.len() - i,
                {
                    let ghost prev = names@;
                    let n = concat_str("*", specs[i].as_str());
                    names.push(n);
                    assert(strings_view(names@) =~= strings_view(prev).push(n@));
                    assert(starred(strings_view(specs@).take(i + 1)) =~= starred(strings_view(specs@).take(i as int)).push(
                        n@,
                    ));
                    i = i + 1;
                }
                assert(strings_view(specs@).take(specs.len() as int) =~= strings_view(specs@));
                join_strings(&names, " ")
            },
            None => String::new(),
        },
        Field::Size => g.closure_size.clone(),
    }
}

/// The padded titles of the fields.
pub open spec fn titles(fields: Seq<Field>, w: ColumnWidths) -> Seq<Seq<char>> {
    fields.map_values(|f: Field| pad_spec(column_spec(f, w).0, column_spec(f, w).1 as nat))
}

/// The padded cells of one generation.
pub open spec fn cells(g: GenerationInfo, fields: Seq<Field>, w: ColumnWidths) -> Seq<Seq<char>> {
    fields.map_values(|f: Field| pad_spec(cell_spec(g, f), column_spec(f, w).1 as nat))
}

/// The header line.
fn header(fields: &Vec<Field>, w: ColumnWidths) -> (res: String)
    ensures
        res@ == join_spec(titles(fields@, w), " "@),
{
    let mut parts: Vec<String> = Vec::new();
    let mut i: usize = 0;
    while i < fields.len()
        invariant
            i <= fields.len(),
            strings_view(parts@) == titles(fields@.take(i as int), w),
        decreases fields.len() - i,
    {
        let ghost prev = parts@;
        let (name, width) = fields[i].column_info(w);
        let p = pad(name, width);
        parts.push(p);
        assert(strings_view(parts@) =~= strings_view(prev).push(p@));
        assert(titles(fields@.take(i + 1), w) =~= titles(fields@.take(i as int), w).push(p@));
        i = i + 1;
    }
    assert(fields@.take(fields.len() as int) =~= fields@);
    join_strings(&parts, " ")
}

/// The line of one generation.
fn row(g: &GenerationInfo, fields: &Vec<Field>, w: ColumnWidths) -> (res: String)
    ensures
        res@ == join_spec(cells(*g, fields@, w), " "@),
{
    let mut parts: Vec<String> = Vec::new();
    let mut i: usize = 0;
    while i < fields.len()
        invariant
            i <= fields.len(),
            strings_view(parts@) == cells(*g, fields@.take(i as int), w),
        decreases fields.len() - i,
    {
        let ghost prev = parts@;
        let (_, width) = fields[i].column_info(w);
        let c = cell(g, fields[i]);
        let p = pad(c.as_str(), width);
        parts.push(p);
        assert(strings_view(parts@) =~= strings_view(prev).push(p@));
        assert(cells(*g, fields@.take(i + 1), w) =~= cells(*g, fields@.take(i as int), w).push(p@));
        i = i + 1;
    }
    assert(fields@.take(fields.len() as int) =~= fields@);
    join_strings(&parts, " ")
}

/// The version of the first current generation, if one is current.
pub open spec fn current_version_spec(sorted: Seq<GenerationInfo>) -> Option<Seq<char>>
    decreases sorted.len(),
{
    if sorted.len() == 0 {
        None
    } else if sorted[0].current {
        Some(sorted[0].nixos_version@)
    } else {
        current_version_spec(sorted.skip(1))
    }
}

/// The generations table.
pub struct InfoTable {
    /// The NixOS version of the current generation; `None` when the
    /// profile is out of sync with the running system.
    pub current_version: Option<String>,
    /// The header line, then one line per generation, newest first.
    pub lines: Vec<String>,
}

/// The lines of the table for generations in order: the header, then each
/// generation from the last to the first.
pub open spec fn table_lines(sorted: Seq<GenerationInfo>, fields: Seq<Field>, w: ColumnWidths) -> Seq<Seq<char>> {
    seq![join_spec(titles(fields, w), " "@)] + sorted.reverse().map_values(
        |g: GenerationInfo| join_spec(cells(g, fields, w), " "@),
    )
}

/// The generations table: the generations ordered by number, the columns
/// selected (or the non-empty ones), sized to their contents, newest
/// generation first. Dates are shown as given.
pub fn info_table(generations: Vec<GenerationInfo>, fields: Option<&Vec<Field>>) -> (res: InfoTable)
    ensures
        ({
            let sorted = sort_by_number(generations@);
            let shown = visible_fields_spec(
                sorted,
                match fields {
                    Some(f) => Some(f@),
                    None => None,
                },
            );
            &&& crate::remote::opt_view(res.current_version) == current_version_spec(sorted)
            &&& strings_view(res.lines@) == table_lines(sorted, shown, widths_spec(sorted))
        }),
{
    let sorted = sort_generations(generations);
    let mut c: usize = 0;
    assert(sorted@.skip(0) =~= sorted@);
    while c < sorted.len() && !sorted[c].current
        invariant
            c <= sorted.len(),
            current_version_spec(sorted@) == current_version_spec(sorted@.skip(c as int)),
        decreases sorted.len() - c,
    {
        assert(sorted@.skip(c as int).skip(1) =~= sorted@.skip(c + 1));
        assert(sorted@.skip(c as int)[0] == sorted@[c as int]);
        c = c + 1;
    }
    let current_version = if c < sorted.len() {
        assert(sorted@.skip(c as int)[0] == sorted@[c as int]);
        Some(sorted[c].nixos_version.clone())
    } else {
        assert(sorted@.skip(c as int).len() == 0);
        None
    };
    let shown = visible_fields(&sorted, fields);
    let w = widths(&sorted);
    let mut lines: Vec<String> = Vec::new();
    lines.push(header(&shown, w));
    let n = sorted.len();
    let mut k: usize = 0;
    while k < n
        invariant
            k <= n == sorted@.len(),
            strings_view(lines@) == seq![join_spec(titles(shown@, w), " "@)] + sorted@.reverse().take(k as int).map_values(
                |g: GenerationInfo| join_spec(cells(g, shown@, w), " "@),
            ),
        decreases n - k,
    {
        let ghost prev = lines@;
        let r = row(&sorted[n - 1 - k], &shown, w);
        lines.push(r);
        assert(sorted@.reverse()[k as int] == sorted@[n - 1 - k]);
        assert(strings_view(lines@) =~= strings_view(prev).push(r@));
        assert(sorted@.reverse().take(k + 1).map_values(|g: GenerationInfo| join_spec(cells(g, shown@, w), " "@))
            =~= sorted@.reverse().take(k as int).map_values(|g: GenerationInfo| join_spec(cells(g, shown@, w), " "@)).push(
            r@,
        ));
        k = k + 1;
    }
    assert(sorted@.reverse().take(n as int) =~= sorted@.reverse());
    InfoTable { current_version, lines }
}

} // verus!

verus! {

/// Whether generations are ordered by number.
pub open spec fn sorted_by_number(s: Seq<GenerationInfo>) -> bool {
    forall|i: int, j: int| 0 <= i < j < s.len() ==> (#[trigger] s[i]).number <= (#[trigger] s[j]).number
}

proof fn lemma_insert_keeps_order(sorted: Seq<GenerationInfo>, g: GenerationInfo)
    requires
        sorted_by_number(sorted),
    ensures
        sorted_by_number(insert_by_number(sorted, g)),
        insert_by_number(sorted, g).to_multiset() == sorted.to_multiset().insert(g),
    decreases sorted.len(),
{
    broadcast use vstd::seq_lib::group_seq_properties;
    broadcast use vstd::multiset::group_multiset_axioms;
    if sorted.len() == 0 {
        assert(insert_by_number(sorted, g) =~= seq![g]);
        assert(seq![g] =~= Seq::<GenerationInfo>::empty().push(g));
    } else if sorted.last().number <= g.number {
        let r = sorted.push(g);
        assert forall|i: int, j: int| 0 <= i < j < r.len() implies (#[trigger] r[i]).number <= (#[trigger] r[j]).number by {
            if j == r.len() - 1 {
                if i < sorted.len() - 1 {
                    assert(sorted[i].number <= sorted[sorted.len() - 1].number);
                }
            }
        }
    } else {
        let d = sorted.drop_last();
        assert(sorted_by_number(d)) by {
            assert forall|i: int, j: int| 0 <= i < j < d.len() implies (#[trigger] d[i]).number <= (#[trigger] d[j]).number by {
                assert(d[i] == sorted[i] && d[j] == sorted[j]);
            }
        }
        lemma_insert_keeps_order(d, g);
        let m = insert_by_number(d, g);
        let r = m.push(sorted.last());
        assert(m.to_multiset().count(sorted.last()) >= 0);
        assert forall|i: int, j: int| 0 <= i < j < r.len() implies (#[trigger] r[i]).number <= (#[trigger] r[j]).number by {
            if j == r.len() - 1 {
                let x = r[i];
                assert(m.to_multiset().count(x) > 0) by {
                    assert(m.contains(x)) by {
                        assert(m[i] == x);
                    }
                }
                assert(d.to_multiset().insert(g).count(x) > 0);
                if x == g {
                } else {
                    assert(d.to_multiset().count(x) > 0);
                    assert(d.contains(x));
                    let k = choose|k: int| 0 <= k < d.len() && d[k] == x;
                    assert(sorted[k] == x);
                    assert(sorted[k].number <= sorted[sorted.len() - 1].number);
                }
            }
        }
        assert(sorted =~= d.push(sorted.last()));
    }
}

/// Sorting orders the generations by number and keeps each of them.
pub proof fn lemma_sort_by_number(s: Seq<GenerationInfo>)
    ensures
        sorted_by_number(sort_by_number(s)),
        sort_by_number(s).to_multiset() == s.to_multiset(),
    decreases s.len(),
{
    broadcast use vstd::seq_lib::group_seq_properties;
    broadcast use vstd::multiset::group_multiset_axioms;
    if s.len() > 0 {
        lemma_sort_by_number(s.drop_last());
        lemma_insert_keeps_order(sort_by_number(s.drop_last()), s.last());
        assert(s =~= s.drop_last().push(s.last()));
    }
}


/// Whether the cell text `c` shows `v`: `v` followed by nothing but spaces.
pub open spec fn shows(c: Seq<char>, v: Seq<char>) -> bool {
    &&& c.len() >= v.len()
    &&& c.take(v.len() as int) == v
    &&& forall|i: int| v.len() <= i < c.len() ==> c[i] == ' '
}

proof fn lemma_pad_shows(v: Seq<char>, width: nat)
    ensures
        shows(pad_spec(v, width), v),
{
    let c = pad_spec(v, width);
    if v.len() < width {
        assert(c.take(v.len() as int) =~= v);
    } else {
        assert(c.take(v.len() as int) =~= v);
    }
}

/// Each column of a row shows its own field of the generation: the date,
/// the NixOS version, the kernel version, the configuration revision (or
/// nothing) and the closure size, each padded with spaces; and in a table
/// of one column, the row of each generation is that column's cell.
pub proof fn lemma_columns_show_their_fields(g: GenerationInfo, fields: Seq<Field>, w: ColumnWidths, j: int)
    requires
        0 <= j < fields.len(),
    ensures
        ({
            let c = cells(g, fields, w)[j];
            &&& fields[j] == Field::Id ==> shows(
                c,
                decimal(g.number as nat) + if g.current {
                    " (current)"@
                } else {
                    Seq::empty()
                },
            )
            &&& fields[j] == Field::Date ==> shows(c, g.date@)
            &&& fields[j] == Field::Nver ==> shows(c, g.nixos_version@)
            &&& fields[j] == Field::Kernel ==> shows(c, g.kernel_version@)
            &&& fields[j] == Field::Size ==> shows(c, g.closure_size@)
            &&& fields[j] == Field::Confrev ==> shows(
                c,
                match g.configuration_revision {
                    Some(r) => r@,
                    None => Seq::empty(),
                },
            )
        }),
        join_spec(cells(g, seq![fields[j]], w), " "@) == cells(g, fields, w)[j],
{
    let f = fields[j];
    lemma_pad_shows(cell_spec(g, f), column_spec(f, w).1 as nat);
    assert(cells(g, seq![f], w).len() == 1);
    assert(cells(g, seq![f], w)[0] == cells(g, fields, w)[j]);
}

/// The layout of the generations table: a header, then one line per
/// generation in descending number order; without a field selection the
/// columns are the identifier, date, NixOS version, kernel, the revision and
/// specialisation columns exactly when some generation has one, and the
/// closure size; a generation's identifier cell ends with ` (current)`
/// exactly when it is the current one.
pub proof fn lemma_info_table_layout(gens: Seq<GenerationInfo>, fields: Seq<Field>, w: ColumnWidths)
    ensures
        ({
            let sorted = sort_by_number(gens);
            let lines = table_lines(sorted, fields, w);
            &&& lines.len() == gens.len() + 1
            &&& lines[0] == join_spec(titles(fields, w), " "@)
            &&& forall|k: int|
                0 <= k < gens.len() ==> lines[k + 1] == join_spec(cells(#[trigger] sorted[gens.len() - 1 - k], fields, w), " "@)
            &&& forall|a: int, b: int| 0 <= a < b < gens.len() ==> (#[trigger] sorted[gens.len() - 1 - a]).number >= (
            #[trigger] sorted[gens.len() - 1 - b]).number
        }),
        ({
            let shown = visible_fields_spec(gens, None);
            &&& shown[0] == Field::Id && shown[1] == Field::Date && shown[2] == Field::Nver && shown[3] == Field::Kernel
            &&& shown.last() == Field::Size
            &&& shown.contains(Field::Confrev) <==> exists|i: int|
                0 <= i < gens.len() && (#[trigger] gens[i]).configuration_revision is Some
            &&& shown.contains(Field::Spec) <==> exists|i: int| 0 <= i < gens.len() && (#[trigger] gens[i]).specialisations is Some
        }),
        forall|g: GenerationInfo| {
            let id = #[trigger] cell_spec(g, Field::Id);
            (id.len() >= 10 && id.skip(id.len() - 10) == " (current)"@) <==> g.current
        },
{
    lemma_sort_by_number(gens);
    let sorted = sort_by_number(gens);
    assert(sorted.len() == gens.len()) by {
        vstd::seq_lib::to_multiset_len(sorted);
        vstd::seq_lib::to_multiset_len(gens);
    }
    let lines = table_lines(sorted, fields, w);
    assert forall|k: int| 0 <= k < gens.len() implies lines[k + 1] == join_spec(
        cells(#[trigger] sorted[gens.len() - 1 - k], fields, w),
        " "@,
    ) by {
        assert(sorted.reverse()[k] == sorted[gens.len() - 1 - k]);
    }
    assert forall|a: int, b: int| 0 <= a < b < gens.len() implies (#[trigger] sorted[gens.len() - 1 - a]).number >= (
    #[trigger] sorted[gens.len() - 1 - b]).number by {
        assert(sorted_by_number(sorted));
        let x = gens.len() - 1 - b;
        let y = gens.len() - 1 - a;
        assert(sorted[x].number <= sorted[y].number);
    }
    let has_confrev = exists|i: int| 0 <= i < gens.len() && (#[trigger] gens[i]).configuration_revision is Some;
    let has_spec = exists|i: int| 0 <= i < gens.len() && (#[trigger] gens[i]).specialisations is Some;
    let shown = visible_fields_spec(gens, None);
    let head = seq![Field::Id, Field::Date, Field::Nver, Field::Kernel];
    let c: Seq<Field> = if has_confrev { seq![Field::Confrev] } else { Seq::empty() };
    let sp: Seq<Field> = if has_spec { seq![Field::Spec] } else { Seq::empty() };
    assert(shown == head + c + sp + seq![Field::Size]);
    assert(shown[0] == Field::Id && shown[1] == Field::Date && shown[2] == Field::Nver && shown[3] == Field::Kernel);
    assert(shown.last() == Field::Size);
    if has_confrev {
        assert(shown[4] == Field::Confrev);
    } else {
        assert forall|i: int| 0 <= i < shown.len() implies shown[i] != Field::Confrev by {}
    }
    if has_spec {
        assert(shown[shown.len() - 2] == Field::Spec);
    } else {
        assert forall|i: int| 0 <= i < shown.len() implies shown[i] != Field::Spec by {}
    }
    assert forall|g: GenerationInfo| {
        let id = #[trigger] cell_spec(g, Field::Id);
        (id.len() >= 10 && id.skip(id.len() - 10) == " (current)"@) <==> g.current
    } by {
        reveal_strlit(" (current)");
        let d = decimal(g.number as nat);
        crate::num::lemma_decimal_digits(g.number as nat);
        let id = cell_spec(g, Field::Id);
        if g.current {
            assert(id.skip(id.len() - 10) =~= " (current)"@);
        } else {
            assert(id == d);
            assert(crate::num::char_digit(d[d.len() - 1]) is Some);
            if id.len() >= 10 && id.skip(id.len() - 10) == " (current)"@ {
                assert(id.skip(id.len() - 10)[9] == d[d.len() - 1]);
                assert(" (current)"@[9] == ')');
            }
        }
    }
}

} // verus!

verus! {

/// What `nix path-info --json` reports of each path's closure size: a list
/// of entries (newer Nix), each with its path and size where they are of
/// the expected types; an object keyed by path (older Nix); or any other
/// JSON value.
#[derive(Clone, Debug)]
pub enum PathInfoSizes {
    List(Vec<(Option<String>, Option<u64>)>),
    Keyed(Vec<(String, Option<u64>)>),
    Other,
}

/// The mathematical value of a `nix path-info` report.
pub enum PathInfoSizesView {
    List(Seq<(Option<Seq<char>>, Option<u64>)>),
    Keyed(Seq<(Seq<char>, Option<u64>)>),
    Other,
}

/// The mathematical value of the entries of a list report.
pub open spec fn listed_sizes_view(items: Seq<(Option<String>, Option<u64>)>) -> Seq<(Option<Seq<char>>, Option<u64>)> {
    items.map_values(|e: (Option<String>, Option<u64>)| (crate::remote::opt_view(e.0), e.1))
}

/// The mathematical value of the entries of an object report.
pub open spec fn keyed_sizes_view(items: Seq<(String, Option<u64>)>) -> Seq<(Seq<char>, Option<u64>)> {
    items.map_values(|e: (String, Option<u64>)| (e.0@, e.1))
}

impl View for PathInfoSizes {
    type V = PathInfoSizesView;

    open spec fn view(&self) -> PathInfoSizesView {
        match self {
            PathInfoSizes::List(items) => PathInfoSizesView::List(listed_sizes_view(items@)),
            PathInfoSizes::Keyed(items) => PathInfoSizesView::Keyed(keyed_sizes_view(items@)),
            PathInfoSizes::Other => PathInfoSizesView::Other,
        }
    }
}

/// The mathematical value of a parsed report, if the text parsed.
pub open spec fn opt_sizes_view(o: Option<PathInfoSizes>) -> Option<PathInfoSizesView> {
    match o {
        Some(s) => Some(s@),
        None => None,
    }
}

/// The key of an entry's store path in a list report.
pub const PATH_FIELD: &'static str = "path";

/// The key of an entry's closure size.
pub const CLOSURE_SIZE_FIELD: &'static str = "closureSize";

/// The report that the JSON text `text` holds, reading each entry's path
/// under `path_key` and its size under `size_key`; `None` where the text is
/// not JSON.
pub uninterp spec fn path_info_sizes(text: Seq<char>, path_key: Seq<char>, size_key: Seq<char>) -> Option<PathInfoSizesView>;

/// Calls `serde_json::from_str` on `text` and, in each entry of the value,
/// `Value::get` with `path_key` and `size_key`, `Value::as_str` and
/// `Value::as_u64`, telling arrays and objects apart.
#[verifier::external_body]
fn parse_path_info(text: &str, path_key: &str, size_key: &str) -> (res: Option<PathInfoSizes>)
    ensures
        opt_sizes_view(res) == path_info_sizes(text@, path_key@, size_key@),
{
    let size = |e: &Value| e.get(size_key).and_then(Value::as_u64);
    serde_json::from_str::<Value>(text).ok().map(|json| match json {
        Value::Array(items) => PathInfoSizes::List(
            items.iter().map(|e| (e.get(path_key).and_then(Value::as_str).map(str::to_owned), size(e))).collect(),
        ),
        Value::Object(map) => PathInfoSizes::Keyed(map.iter().map(|(k, e)| (k.clone(), size(e))).collect()),
        _ => PathInfoSizes::Other,
    })
}

/// The size of the first entry whose path is `p` and that has a size.
pub open spec fn listed_size(items: Seq<(Option<Seq<char>>, Option<u64>)>, p: Seq<char>) -> Option<u64>
    decreases items.len(),
{
    if items.len() == 0 {
        None
    } else if items[0].0 == Some(p) && items[0].1 is Some {
        items[0].1
    } else {
        listed_size(items.drop_first(), p)
    }
}

/// The size under the key `p`, if the key is there.
pub open spec fn keyed_size(items: Seq<(Seq<char>, Option<u64>)>, p: Seq<char>) -> Option<u64>
    decreases items.len(),
{
    if items.len() == 0 {
        None
    } else if items[0].0 == p {
        items[0].1
    } else {
        keyed_size(items.drop_first(), p)
    }
}

/// The closure size that a report gives the store path `p`.
pub open spec fn closure_size_spec(sizes: PathInfoSizesView, p: Seq<char>) -> Option<u64> {
    match sizes {
        PathInfoSizesView::List(items) => listed_size(items, p),
        PathInfoSizesView::Keyed(items) => keyed_size(items, p),
        PathInfoSizesView::Other => None,
    }
}

/// The closure size that a report gives `store_path`.
pub fn closure_size(sizes: &PathInfoSizes, store_path: &str) -> (res: Option<u64>)
    ensures
        res == closure_size_spec(sizes@, store_path@),
{
    match sizes {
        PathInfoSizes::List(items) => {
            let ghost v = listed_sizes_view(items@);
            assert(v.skip(0) =~= v);
            let mut i: usize = 0;
            while i < items.len()
                invariant
                    i <= items.len(),
                    v == listed_sizes_view(items@),
                    sizes@ == PathInfoSizesView::List(v),
                    listed_size(v, store_path@) == listed_size(v.skip(i as int), store_path@),
                decreases items.len() - i,
            {
                assert(v.skip(i as int).drop_first() =~= v.skip(i as int + 1));
                let entry = &items[i];
                assert(v.skip(i as int)[0] == (crate::remote::opt_view(entry.0), entry.1));
                if let (Some(path), Some(size)) = entry {
                    if str_eq(path.as_str(), store_path) {
                        return Some(*size);
                    }
                }
                i = i + 1;
            }
            assert(v.skip(i as int).len() == 0);
            None
        },
        PathInfoSizes::Keyed(items) => {
            let ghost v = keyed_sizes_view(items@);
            assert(v.skip(0) =~= v);
            let mut i: usize = 0;
            while i < items.len()
                invariant
                    i <= items.len(),
                    v == keyed_sizes_view(items@),
                    sizes@ == PathInfoSizesView::Keyed(v),
                    keyed_size(v, store_path@) == keyed_size(v.skip(i as int), store_path@),
                decreases items.len() - i,
            {
                assert(v.skip(i as int).drop_first() =~= v.skip(i as int + 1));
                let entry = &items[i];
                assert(v.skip(i as int)[0] == (entry.0@, entry.1));
                if str_eq(entry.0.as_str(), store_path) {
                    return entry.1;
                }
                i = i + 1;
            }
            assert(v.skip(i as int).len() == 0);
            None
        },
        PathInfoSizes::Other => None,
    }
}

/// The closure size of each store path in the output of
/// `nix path-info --json`, in the order of `store_paths`; `None` where the
/// output is not JSON or reports no size for the path.
pub fn closure_sizes(output: &str, store_paths: &Vec<String>) -> (res: Vec<Option<u64>>)
    ensures
        res.len() == store_paths.len(),
        forall|i: int|
            0 <= i < store_paths.len() ==> #[trigger] res[i] == match path_info_sizes(output@, PATH_FIELD@, CLOSURE_SIZE_FIELD@) {
                None => None,
                Some(v) => closure_size_spec(v, store_paths[i]@),
            },
{
    let parsed = parse_path_info(output, PATH_FIELD, CLOSURE_SIZE_FIELD);
    let mut res: Vec<Option<u64>> = Vec::new();
    let mut i: usize = 0;
    while i < store_paths.len()
        invariant
            i <= store_paths.len(),
            res.len() == i,
            opt_sizes_view(parsed) == path_info_sizes(output@, PATH_FIELD@, CLOSURE_SIZE_FIELD@),
            forall|j: int|
                0 <= j < i ==> #[trigger] res[j] == match path_info_sizes(output@, PATH_FIELD@, CLOSURE_SIZE_FIELD@) {
                    None => None,
                    Some(v) => closure_size_spec(v, store_paths[j]@),
                },
        decreases store_paths.len() - i,
    {
        let size = match &parsed {
            Some(sizes) => closure_size(sizes, store_paths[i].as_str()),
            None => None,
        };
        res.push(size);
        i = i + 1;
    }
    res
}

} // verus!
