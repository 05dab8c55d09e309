//! Nix attribute paths: dot-separated segments, where a segment holding a
//! separator is written in double quotes with `\"` and `\\` escapes.

use vstd::prelude::*;

use crate::text::{chars_of, contains_char, string_from_chars, string_push};

verus! {

/// Why an attribute path was rejected.
#[derive(Debug, Clone, Copy, PartialEq, Eq, Structural)]
pub enum AttrError {
    /// A backslash inside quotes is the last character of the input.
    IncompleteEscape,
    /// A quoted segment is never closed.
    UnclosedQuote,
}

impl AttrError {
    /// The human-readable description of the error.
    pub fn message(&self) -> (res: &'static str)
        ensures
            res@ == self.spec_message(),
    {
        match self {
            AttrError::IncompleteEscape => "contains an incomplete quoted attribute escape",
            AttrError::UnclosedQuote => "contains an unclosed quoted attribute segment",
        }
    }

    pub closed spec fn spec_message(&self) -> Seq<char> {
        match self {
            AttrError::IncompleteEscape => "contains an incomplete quoted attribute escape"@,
            AttrError::UnclosedQuote => "contains an unclosed quoted attribute segment"@,
        }
    }
}

/// The scanner over `s` from position `i`: `in_quote` is whether a quoted
/// segment is open, `elem` the segment read so far, `acc` the segments done.
pub open spec fn attr_scan(
    s: Seq<char>,
    i: int,
    in_quote: bool,
    elem: Seq<char>,
    acc: Seq<Seq<char>>,
) -> Result<Seq<Seq<char>>, AttrError>
    decreases s.len() - i,
{
    if i >= s.len() || i < 0 {
        if in_quote {
            Err(AttrError::UnclosedQuote)
        } else {
            Ok(acc.push(elem))
        }
    } else {
        let c = s[i];
        if c == '.' && !in_quote {
            attr_scan(s, i + 1, false, Seq::empty(), acc.push(elem))
        } else if c == '"' {
            attr_scan(s, i + 1, !in_quote, elem, acc)
        } else if c == '\\' && in_quote {
            if i + 1 >= s.len() {
                Err(AttrError::IncompleteEscape)
            } else {
                attr_scan(s, i + 2, true, elem.push(s[i + 1]), acc)
            }
        } else {
            attr_scan(s, i + 1, in_quote, elem.push(c), acc)
        }
    }
}

/// The segments that the attribute path `s` denotes; the empty string
/// denotes the empty path.
pub open spec fn parse_attr_spec(s: Seq<char>) -> Result<Seq<Seq<char>>, AttrError> {
    if s.len() == 0 {
        Ok(Seq::empty())
    } else {
        attr_scan(s, 0, false, Seq::empty(), Seq::empty())
    }
}

/// A segment must be quoted when it is empty or holds `.`, `"` or `\`.
pub open spec fn needs_quoting(seg: Seq<char>) -> bool {
    seg.len() == 0 || seg.contains('.') || seg.contains('"') || seg.contains('\\')
}

/// The characters of `seg` with `"` and `\` preceded by a backslash.
pub open spec fn escape_chars(seg: Seq<char>) -> Seq<char>
    decreases seg.len(),
{
    if seg.len() == 0 {
        Seq::empty()
    } else {
        let c = seg.last();
        escape_chars(seg.drop_last()) + if c == '"' || c == '\\' {
            seq!['\\', c]
        } else {
            seq![c]
        }
    }
}

/// The canonical spelling of one segment.
pub open spec fn encode_segment(seg: Seq<char>) -> Seq<char> {
    if needs_quoting(seg) {
        seq!['"'] + escape_chars(seg) + seq!['"']
    } else {
        seg
    }
}

/// The canonical spelling of a whole attribute path.
pub open spec fn join_attr(segs: Seq<Seq<char>>) -> Seq<char>
    decreases segs.len(),
{
    if segs.len() == 0 {
        Seq::empty()
    } else if segs.len() == 1 {
        encode_segment(segs[0])
    } else {
        join_attr(segs.drop_last()) + seq!['.'] + encode_segment(segs.last())
    }
}


/// The escaped spelling of one character.
pub open spec fn escape_char(c: char) -> Seq<char> {
    if c == '"' || c == '\\' {
        seq!['\\', c]
    } else {
        seq![c]
    }
}

proof fn lemma_escape_append(a: Seq<char>, b: Seq<char>)
    ensures
        escape_chars(a + b) == escape_chars(a) + escape_chars(b),
    decreases b.len(),
{
    if b.len() == 0 {
        assert(a + b =~= a);
        assert(escape_chars(a) + escape_chars(b) =~= escape_chars(a));
    } else {
        lemma_escape_append(a, b.drop_last());
        assert((a + b).drop_last() =~= a + b.drop_last());
        assert((a + b).last() == b.last());
        assert(escape_chars(a + b) =~= escape_chars(a) + escape_chars(b));
    }
}

proof fn lemma_escape_single(c: char)
    ensures
        escape_chars(seq![c]) == escape_char(c),
{
    assert(seq![c].drop_last() =~= Seq::<char>::empty());
    assert(escape_chars(Seq::<char>::empty()) =~= Seq::<char>::empty());
    assert(seq![c].last() == c);
    assert(escape_chars(seq![c]) =~= escape_char(c));
}

proof fn lemma_scan_plain(s: Seq<char>, i: int, seg: Seq<char>, acc: Seq<Seq<char>>, k: int)
    requires
        0 <= i,
        0 <= k <= seg.len(),
        i + seg.len() <= s.len(),
        s.subrange(i, i + seg.len()) == seg,
        !seg.contains('.'),
        !seg.contains('"'),
    ensures
        attr_scan(s, i, false, Seq::empty(), acc) == attr_scan(s, i + k, false, seg.take(k), acc),
    decreases k,
{
    if k == 0 {
        assert(seg.take(0) =~= Seq::<char>::empty());
    } else {
        lemma_scan_plain(s, i, seg, acc, k - 1);
        let c = s[i + k - 1];
        assert(c == s.subrange(i, i + seg.len())[k - 1]);
        assert(c == seg[k - 1]);
        assert(seg.take(k - 1).push(c) =~= seg.take(k));
    }
}

proof fn lemma_scan_escaped(s: Seq<char>, p: int, seg: Seq<char>, acc: Seq<Seq<char>>, k: int)
    requires
        0 <= p,
        0 <= k <= seg.len(),
        p + escape_chars(seg).len() < s.len(),
        s.subrange(p, p + escape_chars(seg).len()) == escape_chars(seg),
    ensures
        attr_scan(s, p, true, Seq::empty(), acc) == attr_scan(
            s,
            p + escape_chars(seg.take(k)).len(),
            true,
            seg.take(k),
            acc,
        ),
    decreases k,
{
    if k == 0 {
        assert(seg.take(0) =~= Seq::<char>::empty());
    } else {
        lemma_scan_escaped(s, p, seg, acc, k - 1);
        let c = seg[k - 1];
        let pre = seg.take(k - 1);
        let rest = seg.skip(k);
        assert(seg =~= pre + seq![c] + rest);
        lemma_escape_append(pre + seq![c], rest);
        lemma_escape_append(pre, seq![c]);
        lemma_escape_single(c);
        assert(seg.take(k) =~= pre + seq![c]);
        let q = p + escape_chars(pre).len();
        let e = escape_chars(seg);
        assert(e =~= escape_chars(pre) + escape_char(c) + escape_chars(rest));
        assert(s[q] == e[escape_chars(pre).len() as int]);
        assert(pre.push(c) =~= seg.take(k));
        if c == '"' || c == '\\' {
            assert(s[q] == '\\');
            assert(s[q + 1] == e[escape_chars(pre).len() + 1int]);
            assert(s[q + 1] == c);
        } else {
            assert(s[q] == c);
        }
    }
}

proof fn lemma_scan_segment(s: Seq<char>, i: int, seg: Seq<char>, acc: Seq<Seq<char>>)
    requires
        0 <= i,
        i + encode_segment(seg).len() <= s.len(),
        s.subrange(i, i + encode_segment(seg).len()) == encode_segment(seg),
    ensures
        attr_scan(s, i, false, Seq::empty(), acc) == attr_scan(
            s,
            i + encode_segment(seg).len(),
            false,
            seg,
            acc,
        ),
{
    if needs_quoting(seg) {
        let e = escape_chars(seg);
        let enc = encode_segment(seg);
        assert(s[i] == enc[0]);
        assert(s.subrange(i + 1, i + 1 + e.len()) =~= e) by {
            assert forall|t: int| 0 <= t < e.len() implies s.subrange(i + 1, i + 1 + e.len())[t] == e[t] by {
                assert(s[i + 1 + t] == enc[1 + t]);
            }
        }
        lemma_scan_escaped(s, i + 1, seg, acc, seg.len() as int);
        assert(seg.take(seg.len() as int) =~= seg);
        assert(s[i + 1 + e.len()] == enc[1int + e.len()]);
    } else {
        lemma_scan_plain(s, i, seg, acc, seg.len() as int);
        assert(seg.take(seg.len() as int) =~= seg);
    }
}

proof fn lemma_encode_nonempty(seg: Seq<char>)
    ensures
        encode_segment(seg).len() > 0,
{
}

proof fn lemma_join_front(segs: Seq<Seq<char>>)
    requires
        segs.len() >= 2,
    ensures
        join_attr(segs) == encode_segment(segs[0]) + seq!['.'] + join_attr(segs.drop_first()),
    decreases segs.len(),
{
    if segs.len() == 2 {
        assert(segs.drop_last() =~= seq![segs[0]]);
        assert(segs.drop_first() =~= seq![segs[1]]);
        assert(join_attr(segs.drop_last()) == encode_segment(segs[0]));
        assert(join_attr(segs.drop_first()) == encode_segment(segs[1]));
        assert(segs.last() == segs[1]);
    } else {
        lemma_join_front(segs.drop_last());
        assert(segs.drop_last().drop_first() =~= segs.drop_first().drop_last());
        assert(segs.drop_last()[0] == segs[0]);
        assert(segs.drop_first().last() == segs.last());
        assert(join_attr(segs.drop_first()) == join_attr(segs.drop_first().drop_last()) + seq!['.']
            + encode_segment(segs.last()));
        assert(join_attr(segs) =~= encode_segment(segs[0]) + seq!['.'] + join_attr(segs.drop_first()));
    }
}

proof fn lemma_join_nonempty(segs: Seq<Seq<char>>)
    requires
        segs.len() >= 1,
    ensures
        join_attr(segs).len() > 0,
{
    lemma_encode_nonempty(segs.last());
    if segs.len() == 1 {
    } else {
    }
}

proof fn lemma_scan_join(s: Seq<char>, i: int, segs: Seq<Seq<char>>, acc: Seq<Seq<char>>)
    requires
        0 <= i <= s.len(),
        segs.len() >= 1,
        s.skip(i) == join_attr(segs),
    ensures
        attr_scan(s, i, false, Seq::empty(), acc) == Ok::<Seq<Seq<char>>, AttrError>(acc + segs),
    decreases segs.len(),
{
    let enc = encode_segment(segs[0]);
    if segs.len() == 1 {
        assert(s.subrange(i, i + enc.len()) =~= enc);
        lemma_scan_segment(s, i, segs[0], acc);
        assert(acc.push(segs[0]) =~= acc + segs);
    } else {
        lemma_join_front(segs);
        let j = join_attr(segs);
        assert(j.len() == enc.len() + 1 + join_attr(segs.drop_first()).len());
        assert(s.skip(i).len() == s.len() - i);
        assert(s.subrange(i, i + enc.len()) =~= enc) by {
            assert forall|t: int| 0 <= t < enc.len() implies s.subrange(i, i + enc.len())[t] == enc[t] by {
                assert(s.skip(i)[t] == j[t]);
                assert(s.skip(i)[t] == s[i + t]);
                assert(j[t] == enc[t]);
            }
        }
        lemma_scan_segment(s, i, segs[0], acc);
        let m = i + enc.len();
        assert(s.skip(i)[enc.len() as int] == j[enc.len() as int]);
        assert(s.skip(i)[enc.len() as int] == s[m]);
        assert(j[enc.len() as int] == '.');
        assert(s[m] == '.');
        let rest = join_attr(segs.drop_first());
        assert(s.skip(m + 1) =~= rest) by {
            assert forall|t: int| 0 <= t < rest.len() implies s.skip(m + 1)[t] == rest[t] by {
                assert(s.skip(i)[enc.len() + 1 + t] == j[enc.len() + 1 + t]);
                assert(s.skip(i)[enc.len() + 1 + t] == s[m + 1 + t]);
            }
        }
        lemma_scan_join(s, m + 1, segs.drop_first(), acc.push(segs[0]));
        assert(acc.push(segs[0]) + segs.drop_first() =~= acc + segs);
    }
}

/// Reading back the canonical spelling of any attribute path gives the
/// same segments: `parse_attribute(join_attribute(a)) == Ok(a)`.
pub proof fn lemma_attr_roundtrip(segs: Seq<Seq<char>>)
    ensures
        parse_attr_spec(join_attr(segs)) == Ok::<Seq<Seq<char>>, AttrError>(segs),
{
    if segs.len() == 0 {
        assert(join_attr(segs) =~= Seq::<char>::empty());
        assert(segs =~= Seq::<Seq<char>>::empty());
    } else {
        lemma_join_nonempty(segs);
        let s = join_attr(segs);
        assert(s.skip(0) =~= s);
        lemma_scan_join(s, 0, segs, Seq::empty());
        assert(Seq::<Seq<char>>::empty() + segs =~= segs);
    }
}

/// The segments of a list of strings.
pub open spec fn segments_of(v: Seq<String>) -> Seq<Seq<char>> {
    v.map_values(|s: String| s@)
}

/// The view of a parse result.
pub open spec fn attr_result_view(r: Result<Vec<String>, AttrError>) -> Result<Seq<Seq<char>>, AttrError> {
    match r {
        Ok(v) => Ok(segments_of(v@)),
        Err(e) => Err(e),
    }
}

/// Parses an attribute path such as `nixosConfigurations."my.host"`.
pub fn parse_attribute(attribute: &str) -> (res: Result<Vec<String>, AttrError>)
    ensures
        attr_result_view(res) == parse_attr_spec(attribute@),
{
    let s = chars_of(attribute);
    let mut res: Vec<String> = Vec::new();
    if s.len() == 0 {
        assert(segments_of(res@) =~= Seq::<Seq<char>>::empty());
        return Ok(res);
    }
    let mut in_quote = false;
    let mut elem: Vec<char> = Vec::new();
    let mut i: usize = 0;
    assert(segments_of(res@) =~= Seq::<Seq<char>>::empty());
    while i < s.len()
        invariant
            i <= s.len(),
            s@ == attribute@,
            s@.len() > 0,
            attr_scan(s@, 0, false, Seq::empty(), Seq::empty()) == attr_scan(
                s@,
                i as int,
                in_quote,
                elem@,
                segments_of(res@),
            ),
        decreases s.len() - i,
    {
        let c = s[i];
        if c == '.' && !in_quote {
            let seg = string_from_chars(&elem);
            let ghost old_res = res@;
            res.push(seg);
            assert(segments_of(res@) =~= segments_of(old_res).push(elem@));
            elem = Vec::new();
            i = i + 1;
        } else if c == '"' {
            in_quote = !in_quote;
            i = i + 1;
        } else if c == '\\' && in_quote {
            if i + 1 >= s.len() {
                return Err(AttrError::IncompleteEscape);
            }
            elem.push(s[i + 1]);
            i = i + 2;
        } else {
            elem.push(c);
            i = i + 1;
        }
    }
    let seg = string_from_chars(&elem);
    let ghost old_res = res@;
    res.push(seg);
    assert(segments_of(res@) =~= segments_of(old_res).push(elem@));
    if in_quote {
        return Err(AttrError::UnclosedQuote);
    }
    Ok(res)
}

/// Whether the segment must be written in quotes.
fn segment_needs_quoting(seg: &Vec<char>) -> (res: bool)
    ensures
        res == needs_quoting(seg@),
{
    seg.len() == 0 || contains_char(seg, '.') || contains_char(seg, '"') || contains_char(seg, '\\')
}

/// Appends the canonical spelling of `segment` to `out`.
fn push_segment(out: &mut String, segment: &String)
    ensures
        final(out)@ == old(out)@ + encode_segment(segment@),
{
    let seg = chars_of(segment.as_str());
    if !segment_needs_quoting(&seg) {
        let ghost start = out@;
        crate::text::push_chars(out, &seg);
        return;
    }
    let ghost start = out@;
    string_push(out, '"');
    let mut i: usize = 0;
    while i < seg.len()
        invariant
            i <= seg.len(),
            out@ == start + seq!['"'] + escape_chars(seg@.take(i as int)),
        decreases seg.len() - i,
    {
        let c = seg[i];
        assert(seg@.take(i + 1).drop_last() =~= seg@.take(i as int));
        if c == '"' || c == '\\' {
            string_push(out, '\\');
        }
        string_push(out, c);
        i = i + 1;
        assert(out@ =~= start + seq!['"'] + escape_chars(seg@.take(i as int)));
    }
    assert(seg@.take(seg.len() as int) =~= seg@);
    string_push(out, '"');
    assert(out@ =~= start + encode_segment(segment@));
}

/// Renders an attribute path in its canonical form, quoting the segments
/// that need it.
pub fn join_attribute(attribute: &Vec<String>) -> (res: String)
    ensures
        res@ == join_attr(segments_of(attribute@)),
{
    let mut res = String::new();
    let mut i: usize = 0;
    while i < attribute.len()
        invariant
            i <= attribute.len(),
            res@ == join_attr(segments_of(attribute@).take(i as int)),
        decreases attribute.len() - i,
    {
        let ghost segs = segments_of(attribute@).take(i + 1);
        assert(segs.drop_last() =~= segments_of(attribute@).take(i as int));
        if i > 0 {
            string_push(&mut res, '.');
        }
        push_segment(&mut res, &attribute[i]);
        i = i + 1;
        if i == 1 {
            assert(res@ =~= join_attr(segs));
        } else {
            assert(res@ =~= join_attr(segs));
        }
    }
    assert(segments_of(attribute@).take(attribute.len() as int) =~= segments_of(attribute@));
    res
}

} // verus!
