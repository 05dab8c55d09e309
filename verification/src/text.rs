//! Character-level string helpers shared by the parsers and renderers.

use vstd::prelude::*;
use vstd::string::StringExecFns;

verus! {

/// The characters of `s`, in order.
pub fn chars_of(s: &str) -> (res: Vec<char>)
    ensures
        res@ == s@,
{
    let mut res: Vec<char> = Vec::new();
    for c in it: s.chars()
        invariant
            it.seq() == s@,
            res@ == it.seq().take(it.index() as int),
    {
        res.push(c);
    }
    res
}

/// `String::push`: appends one character to the string.
#[verifier::external_body]
pub(crate) fn string_push(s: &mut String, c: char)
    ensures
        final(s)@ == old(s)@.push(c),
{
    s.push(c);
}

/// Appends the characters of `cs` to `s`.
pub fn push_chars(s: &mut String, cs: &Vec<char>)
    ensures
        final(s)@ == old(s)@ + cs@,
{
    let ghost start = s@;
    let mut i: usize = 0;
    while i < cs.len()
        invariant
            i <= cs.len(),
            s@ == start + cs@.take(i as int),
        decreases cs.len() - i,
    {
        string_push(s, cs[i]);
        i = i + 1;
        assert(cs@.take(i as int) =~= cs@.take(i - 1).push(cs@[i - 1]));
    }
    assert(cs@.take(cs.len() as int) =~= cs@);
}

/// A string holding exactly the characters of `cs`.
pub fn string_from_chars(cs: &Vec<char>) -> (res: String)
    ensures
        res@ == cs@,
{
    let mut s = String::new();
    push_chars(&mut s, cs);
    assert(Seq::<char>::empty() + cs@ =~= cs@);
    s
}

/// An owned copy of `s`.
pub fn owned(s: &str) -> (res: String)
    ensures
        res@ == s@,
{
    s.to_owned()
}

/// Whether `c` occurs in `cs`.
pub fn contains_char(cs: &Vec<char>, c: char) -> (res: bool)
    ensures
        res == cs@.contains(c),
{
    let mut i: usize = 0;
    while i < cs.len()
        invariant
            i <= cs.len(),
            forall|j: int| 0 <= j < i ==> cs@[j] != c,
        decreases cs.len() - i,
    {
        if cs[i] == c {
            assert(cs@[i as int] == c);
            return true;
        }
        i = i + 1;
    }
    false
}

/// Whether `s` contains the character `c`.
pub fn str_contains_char(s: &str, c: char) -> (res: bool)
    ensures
        res == s@.contains(c),
{
    let cs = chars_of(s);
    contains_char(&cs, c)
}

/// The characters of `cs` from `start` (inclusive) to `end` (exclusive).
pub fn slice_chars(cs: &Vec<char>, start: usize, end: usize) -> (res: Vec<char>)
    requires
        start <= end <= cs.len(),
    ensures
        res@ == cs@.subrange(start as int, end as int),
{
    let mut res: Vec<char> = Vec::new();
    let mut i = start;
    while i < end
        invariant
            start <= i <= end <= cs.len(),
            res@ == cs@.subrange(start as int, i as int),
        decreases end - i,
    {
        res.push(cs[i]);
        i = i + 1;
        assert(res@ =~= cs@.subrange(start as int, i as int));
    }
    res
}

/// Whether `cs` starts with `prefix`.
pub fn starts_with_chars(cs: &Vec<char>, prefix: &Vec<char>) -> (res: bool)
    ensures
        res == (prefix@.len() <= cs@.len() && cs@.take(prefix@.len() as int) == prefix@),
{
    if prefix.len() > cs.len() {
        return false;
    }
    let mut i: usize = 0;
    while i < prefix.len()
        invariant
            i <= prefix.len() <= cs.len(),
            forall|j: int| 0 <= j < i ==> cs@[j] == prefix@[j],
        decreases prefix.len() - i,
    {
        if cs[i] != prefix[i] {
            assert(cs@.take(prefix@.len() as int)[i as int] != prefix@[i as int]);
            return false;
        }
        i = i + 1;
    }
    assert(cs@.take(prefix@.len() as int) =~= prefix@);
    true
}

/// Whether `cs` ends with `suffix`.
pub fn ends_with_chars(cs: &Vec<char>, suffix: &Vec<char>) -> (res: bool)
    ensures
        res == (suffix@.len() <= cs@.len() && cs@.skip(cs@.len() - suffix@.len()) == suffix@),
{
    if suffix.len() > cs.len() {
        return false;
    }
    let off = cs.len() - suffix.len();
    let mut i: usize = 0;
    while i < suffix.len()
        invariant
            i <= suffix.len() <= cs.len(),
            off == cs.len() - suffix.len(),
            forall|j: int| 0 <= j < i ==> cs@[off + j] == suffix@[j],
        decreases suffix.len() - i,
    {
        if cs[off + i] != suffix[i] {
            assert(cs@.skip(off as int)[i as int] != suffix@[i as int]);
            return false;
        }
        i = i + 1;
    }
    assert(cs@.skip(off as int) =~= suffix@);
    true
}

} // verus!

verus! {

/// Whether `i` is the first position of `c` in `s`.
pub open spec fn is_first_index(s: Seq<char>, c: char, i: int) -> bool {
    &&& 0 <= i < s.len()
    &&& s[i] == c
    &&& forall|j: int| 0 <= j < i ==> s[j] != c
}

/// The first position of `c` in `s`, if `c` occurs.
pub open spec fn first_index_of(s: Seq<char>, c: char) -> Option<int> {
    if exists|i: int| is_first_index(s, c, i) {
        Some(choose|i: int| is_first_index(s, c, i))
    } else {
        None
    }
}

/// Finds the first position of `c` in `cs`.
pub fn find_char(cs: &Vec<char>, c: char) -> (res: Option<usize>)
    ensures
        match res {
            Some(i) => first_index_of(cs@, c) == Some(i as int) && is_first_index(cs@, c, i as int),
            None => first_index_of(cs@, c) is None && !cs@.contains(c),
        },
{
    let mut i: usize = 0;
    while i < cs.len()
        invariant
            i <= cs.len(),
            forall|j: int| 0 <= j < i ==> cs@[j] != c,
        decreases cs.len() - i,
    {
        if cs[i] == c {
            assert(is_first_index(cs@, c, i as int));
            let ghost k = choose|k: int| is_first_index(cs@, c, k);
            assert(k == i) by {
                if k < i {
                    assert(cs@[k] != c);
                } else if k > i {
                    assert(cs@[i as int] != c);
                }
            }
            return Some(i);
        }
        i = i + 1;
    }
    assert(!exists|k: int| is_first_index(cs@, c, k));
    None
}

/// `s` with `t` appended.
pub fn concat_str(s: &str, t: &str) -> (res: String)
    ensures
        res@ == s@ + t@,
{
    let mut r = owned(s);
    r.append(t);
    r
}

} // verus!

verus! {

/// Whether two character vectors are equal.
pub fn chars_eq(a: &Vec<char>, b: &Vec<char>) -> (res: bool)
    ensures
        res == (a@ == b@),
{
    if a.len() != b.len() {
        return false;
    }
    let mut i: usize = 0;
    while i < a.len()
        invariant
            i <= a.len() == b.len(),
            forall|j: int| 0 <= j < i ==> a@[j] == b@[j],
        decreases a.len() - i,
    {
        if a[i] != b[i] {
            return false;
        }
        i = i + 1;
    }
    assert(a@ =~= b@);
    true
}

/// Whether two strings are equal.
pub fn str_eq(a: &str, b: &str) -> (res: bool)
    ensures
        res == (a@ == b@),
{
    let x = chars_of(a);
    let y = chars_of(b);
    chars_eq(&x, &y)
}

} // verus!

verus! {

/// `s` without the prefix `p`, when it begins with `p`.
pub open spec fn strip_prefix_spec(s: Seq<char>, p: Seq<char>) -> Option<Seq<char>> {
    if p.len() <= s.len() && s.take(p.len() as int) == p {
        Some(s.skip(p.len() as int))
    } else {
        None
    }
}

/// `s` without the suffix `p`, when it ends with `p`.
pub open spec fn strip_suffix_spec(s: Seq<char>, p: Seq<char>) -> Option<Seq<char>> {
    if p.len() <= s.len() && s.skip(s.len() - p.len()) == p {
        Some(s.take(s.len() - p.len()))
    } else {
        None
    }
}

/// Whether `pat` occurs in `s` at position `i`.
pub open spec fn occurs_at(s: Seq<char>, pat: Seq<char>, i: int) -> bool {
    0 <= i && i + pat.len() <= s.len() && s.subrange(i, i + pat.len()) == pat
}

/// Whether `i` is the first position where `pat` occurs in `s`.
pub open spec fn is_first_occurrence(s: Seq<char>, pat: Seq<char>, i: int) -> bool {
    occurs_at(s, pat, i) && forall|j: int| 0 <= j < i ==> !occurs_at(s, pat, j)
}

/// The first position where `pat` occurs in `s`.
pub open spec fn first_occurrence(s: Seq<char>, pat: Seq<char>) -> Option<int> {
    if exists|i: int| is_first_occurrence(s, pat, i) {
        Some(choose|i: int| is_first_occurrence(s, pat, i))
    } else {
        None
    }
}

/// Whether `pat` occurs in `s`.
pub open spec fn contains_seq(s: Seq<char>, pat: Seq<char>) -> bool {
    exists|i: int| occurs_at(s, pat, i)
}

/// The parts of `s` before and after the first occurrence of `pat`.
pub open spec fn split_once_spec(s: Seq<char>, pat: Seq<char>) -> Option<(Seq<char>, Seq<char>)> {
    match first_occurrence(s, pat) {
        Some(i) => Some((s.take(i), s.skip(i + pat.len()))),
        None => None,
    }
}

/// `cs` without the prefix `p`.
pub fn strip_prefix_chars(cs: &Vec<char>, p: &str) -> (res: Option<Vec<char>>)
    ensures
        match res {
            Some(r) => strip_prefix_spec(cs@, p@) == Some(r@),
            None => strip_prefix_spec(cs@, p@) is None,
        },
{
    let pc = chars_of(p);
    if starts_with_chars(cs, &pc) {
        let r = slice_chars(cs, pc.len(), cs.len());
        assert(cs@.subrange(pc@.len() as int, cs@.len() as int) =~= cs@.skip(pc@.len() as int));
        Some(r)
    } else {
        None
    }
}

/// `cs` without the suffix `p`.
pub fn strip_suffix_chars(cs: &Vec<char>, p: &str) -> (res: Option<Vec<char>>)
    ensures
        match res {
            Some(r) => strip_suffix_spec(cs@, p@) == Some(r@),
            None => strip_suffix_spec(cs@, p@) is None,
        },
{
    let pc = chars_of(p);
    if ends_with_chars(cs, &pc) {
        let r = slice_chars(cs, 0, cs.len() - pc.len());
        assert(cs@.subrange(0, cs@.len() - pc@.len()) =~= cs@.take(cs@.len() - pc@.len()));
        Some(r)
    } else {
        None
    }
}

/// Whether `pat` occurs in `cs` at `i`.
pub(crate) fn matches_at(cs: &Vec<char>, pat: &Vec<char>, i: usize) -> (res: bool)
    ensures
        res == occurs_at(cs@, pat@, i as int),
{
    if i > cs.len() || pat.len() > cs.len() - i {
        return false;
    }
    let mut k: usize = 0;
    while k < pat.len()
        invariant
            k <= pat.len(),
            i + pat.len() <= cs.len(),
            forall|j: int| 0 <= j < k ==> cs@[i + j] == pat@[j],
        decreases pat.len() - k,
    {
        if cs[i + k] != pat[k] {
            assert(cs@.subrange(i as int, i + pat@.len())[k as int] != pat@[k as int]);
            return false;
        }
        k = k + 1;
    }
    assert(cs@.subrange(i as int, i + pat@.len()) =~= pat@);
    true
}

/// The first position where `pat` occurs in `cs`.
pub fn find_seq(cs: &Vec<char>, pat: &Vec<char>) -> (res: Option<usize>)
    ensures
        match res {
            Some(i) => first_occurrence(cs@, pat@) == Some(i as int) && is_first_occurrence(cs@, pat@, i as int),
            None => first_occurrence(cs@, pat@) is None && !contains_seq(cs@, pat@),
        },
{
    let mut i: usize = 0;
    loop
        invariant
            i <= cs.len(),
            forall|j: int| 0 <= j < i ==> !occurs_at(cs@, pat@, j),
        decreases cs.len() - i,
    {
        if matches_at(cs, pat, i) {
            assert(is_first_occurrence(cs@, pat@, i as int));
            let ghost k = choose|k: int| is_first_occurrence(cs@, pat@, k);
            assert(k == i) by {
                if k < i {
                    assert(!occurs_at(cs@, pat@, k));
                } else if k > i {
                    assert(!occurs_at(cs@, pat@, i as int));
                }
            }
            return Some(i);
        }
        if i == cs.len() {
            assert forall|j: int| !occurs_at(cs@, pat@, j) by {
                if 0 <= j <= i {
                } 
            }
            assert(!exists|k: int| is_first_occurrence(cs@, pat@, k));
            return None;
        }
        i = i + 1;
    }
}

/// Whether `pat` occurs in `cs`.
pub fn contains_str(cs: &Vec<char>, pat: &str) -> (res: bool)
    ensures
        res == contains_seq(cs@, pat@),
{
    let pc = chars_of(pat);
    match find_seq(cs, &pc) {
        Some(_) => true,
        None => false,
    }
}

/// The parts of `cs` around the first occurrence of `pat`.
pub fn split_once_chars(cs: &Vec<char>, pat: &str) -> (res: Option<(Vec<char>, Vec<char>)>)
    ensures
        match res {
            Some((a, b)) => split_once_spec(cs@, pat@) == Some((a@, b@)),
            None => split_once_spec(cs@, pat@) is None,
        },
{
    let pc = chars_of(pat);
    match find_seq(cs, &pc) {
        Some(i) => {
            assert(occurs_at(cs@, pc@, i as int));
            assert(i + pc@.len() <= cs@.len());
            assert(pc@.len() == pc.len());
            let n = pc.len();
            assert(i + n <= cs.len());
            let end: usize = i + n;
            let a = slice_chars(cs, 0, i);
            let b = slice_chars(cs, end, cs.len());
            assert(cs@.subrange(0, i as int) =~= cs@.take(i as int));
            assert(cs@.subrange(i + pc@.len(), cs@.len() as int) =~= cs@.skip(i + pc@.len()));
            Some((a, b))
        },
        None => None,
    }
}

/// `line` without one trailing carriage return.
pub open spec fn strip_cr(line: Seq<char>) -> Seq<char> {
    if line.len() > 0 && line.last() == '\r' {
        line.drop_last()
    } else {
        line
    }
}

/// Scanner for the lines of `s`, as `str::lines` yields them.
pub open spec fn line_scan(s: Seq<char>, i: int, cur: Seq<char>, acc: Seq<Seq<char>>) -> Seq<Seq<char>>
    decreases s.len() - i,
{
    if i >= s.len() || i < 0 {
        if cur.len() == 0 {
            acc
        } else {
            acc.push(cur)
        }
    } else if s[i] == '\n' {
        line_scan(s, i + 1, Seq::empty(), acc.push(strip_cr(cur)))
    } else {
        line_scan(s, i + 1, cur.push(s[i]), acc)
    }
}

/// The lines of `s`: split at `\n` or `\r\n`, the final line ending being
/// optional.
pub open spec fn lines_spec(s: Seq<char>) -> Seq<Seq<char>> {
    line_scan(s, 0, Seq::empty(), Seq::empty())
}

/// The lines of `s`, as `str::lines` yields them.
pub fn split_lines(s: &str) -> (res: Vec<Vec<char>>)
    ensures
        res@.map_values(|l: Vec<char>| l@) == lines_spec(s@),
{
    let cs = chars_of(s);
    let mut acc: Vec<Vec<char>> = Vec::new();
    let mut cur: Vec<char> = Vec::new();
    let mut i: usize = 0;
    assert(acc@.map_values(|l: Vec<char>| l@) =~= Seq::<Seq<char>>::empty());
    while i < cs.len()
        invariant
            i <= cs.len(),
            cs@ == s@,
            lines_spec(s@) == line_scan(cs@, i as int, cur@, acc@.map_values(|l: Vec<char>| l@)),
        decreases cs.len() - i,
    {
        if cs[i] == '\n' {
            let mut line = cur;
            if line.len() > 0 && line[line.len() - 1] == '\r' {
                line.pop();
            }
            let ghost prev = acc@.map_values(|l: Vec<char>| l@);
            let ghost lv = line@;
            acc.push(line);
            assert(acc@.map_values(|l: Vec<char>| l@) =~= prev.push(lv));
            cur = Vec::new();
        } else {
            cur.push(cs[i]);
        }
        i = i + 1;
    }
    if cur.len() > 0 {
        let ghost prev = acc@.map_values(|l: Vec<char>| l@);
        let ghost cv = cur@;
        acc.push(cur);
        assert(acc@.map_values(|l: Vec<char>| l@) =~= prev.push(cv));
    }
    acc
}

} // verus!

verus! {

/// The words joined with `sep` between neighbours.
pub open spec fn join_spec(words: Seq<Seq<char>>, sep: Seq<char>) -> Seq<char>
    decreases words.len(),
{
    if words.len() == 0 {
        Seq::empty()
    } else if words.len() == 1 {
        words[0]
    } else {
        join_spec(words.drop_last(), sep) + sep + words.last()
    }
}

/// The views of a vector of strings.
pub open spec fn strings_view(v: Seq<String>) -> Seq<Seq<char>> {
    v.map_values(|s: String| s@)
}

/// The strings joined with `sep`, as `[String]::join` gives them.
pub fn join_strings(words: &Vec<String>, sep: &str) -> (res: String)
    ensures
        res@ == join_spec(strings_view(words@), sep@),
{
    let mut res = String::new();
    let mut i: usize = 0;
    while i < words.len()
        invariant
            i <= words.len(),
            res@ == join_spec(strings_view(words@.take(i as int)), sep@),
        decreases words.len() - i,
    {
        let ghost prev = strings_view(words@.take(i as int));
        if i > 0 {
            res.append(sep);
        }
        res.append(words[i].as_str());
        i = i + 1;
        assert(strings_view(words@.take(i as int)).drop_last() =~= prev);
        assert(strings_view(words@.take(i as int)).last() == words@[i - 1]@);
        if i == 1 {
            assert(res@ =~= words@[0]@);
        }
    }
    assert(words@.take(words.len() as int) =~= words@);
    res
}

/// How many times `c` occurs in `s`.
pub open spec fn count_char_spec(s: Seq<char>, c: char) -> nat
    decreases s.len(),
{
    if s.len() == 0 {
        0
    } else {
        count_char_spec(s.drop_last(), c) + if s.last() == c { 1nat } else { 0nat }
    }
}

/// How many times `c` occurs in `cs`.
pub fn count_char(cs: &Vec<char>, c: char) -> (res: usize)
    ensures
        res == count_char_spec(cs@, c),
{
    let mut n: usize = 0;
    let mut i: usize = 0;
    while i < cs.len()
        invariant
            i <= cs.len(),
            n == count_char_spec(cs@.take(i as int), c),
            n <= i,
        decreases cs.len() - i,
    {
        assert(cs@.take(i + 1).drop_last() =~= cs@.take(i as int));
        if cs[i] == c {
            n = n + 1;
        }
        i = i + 1;
    }
    assert(cs@.take(cs.len() as int) =~= cs@);
    n
}

/// The position of the last `c` in `s`.
pub open spec fn last_index_of(s: Seq<char>, c: char) -> Option<int>
    decreases s.len(),
{
    if s.len() == 0 {
        None
    } else if s.last() == c {
        Some(s.len() - 1)
    } else {
        last_index_of(s.drop_last(), c)
    }
}

/// The position of the last `c` in `cs`.
pub fn rfind_char(cs: &Vec<char>, c: char) -> (res: Option<usize>)
    ensures
        match res {
            Some(i) => last_index_of(cs@, c) == Some(i as int),
            None => last_index_of(cs@, c) is None,
        },
{
    let mut i: usize = cs.len();
    assert(cs@.take(i as int) =~= cs@);
    while i > 0
        invariant
            i <= cs.len(),
            last_index_of(cs@, c) == last_index_of(cs@.take(i as int), c),
        decreases i,
    {
        assert(cs@.take(i as int).drop_last() =~= cs@.take(i - 1));
        if cs[i - 1] == c {
            return Some(i - 1);
        }
        i = i - 1;
    }
    None
}

/// `s` with every `c` replaced by `rep`.
pub open spec fn replace_char_spec(s: Seq<char>, c: char, rep: Seq<char>) -> Seq<char>
    decreases s.len(),
{
    if s.len() == 0 {
        Seq::empty()
    } else {
        replace_char_spec(s.drop_last(), c, rep) + if s.last() == c { rep } else { seq![s.last()] }
    }
}

/// `s` with every `c` replaced by `rep`, as `str::replace` gives it.
pub fn replace_char(s: &str, c: char, rep: &str) -> (res: String)
    ensures
        res@ == replace_char_spec(s@, c, rep@),
{
    let cs = chars_of(s);
    let mut res = String::new();
    let mut i: usize = 0;
    while i < cs.len()
        invariant
            i <= cs.len(),
            cs@ == s@,
            res@ == replace_char_spec(cs@.take(i as int), c, rep@),
        decreases cs.len() - i,
    {
        assert(cs@.take(i + 1).drop_last() =~= cs@.take(i as int));
        if cs[i] == c {
            res.append(rep);
        } else {
            string_push(&mut res, cs[i]);
        }
        i = i + 1;
    }
    assert(cs@.take(cs.len() as int) =~= cs@);
    res
}

} // verus!

verus! {

/// Whether `c` has the Unicode `White_Space` property: tab through
/// carriage return, space, next line, no-break space, ogham space mark,
/// en quad through hair space, line and paragraph separators, narrow
/// no-break space, medium mathematical space and ideographic space.
pub open spec fn whitespace(c: char) -> bool {
    let n = c as u32;
    (0x9 <= n && n <= 0xD) || n == 0x20 || n == 0x85 || n == 0xA0 || n == 0x1680 || (0x2000 <= n && n <= 0x200A)
        || n == 0x2028 || n == 0x2029 || n == 0x202F || n == 0x205F || n == 0x3000
}

/// Whether `c` has the Unicode `White_Space` property, as
/// `char::is_whitespace` tells.
pub(crate) fn char_is_whitespace(c: char) -> (res: bool)
    ensures
        res == whitespace(c),
{
    let n = c as u32;
    (0x9 <= n && n <= 0xD) || n == 0x20 || n == 0x85 || n == 0xA0 || n == 0x1680 || (0x2000 <= n && n <= 0x200A)
        || n == 0x2028 || n == 0x2029 || n == 0x202F || n == 0x205F || n == 0x3000
}

/// `s` without its leading whitespace.
pub open spec fn trim_start_spec(s: Seq<char>) -> Seq<char>
    decreases s.len(),
{
    if s.len() > 0 && whitespace(s[0]) {
        trim_start_spec(s.drop_first())
    } else {
        s
    }
}

/// `s` without its trailing whitespace.
pub open spec fn trim_end_spec(s: Seq<char>) -> Seq<char>
    decreases s.len(),
{
    if s.len() > 0 && whitespace(s.last()) {
        trim_end_spec(s.drop_last())
    } else {
        s
    }
}

/// `s` without leading and trailing whitespace, as `str::trim` gives it.
pub open spec fn trim_spec(s: Seq<char>) -> Seq<char> {
    trim_end_spec(trim_start_spec(s))
}

/// `s` without leading and trailing whitespace.
pub fn trim(s: &str) -> (res: String)
    ensures
        res@ == trim_spec(s@),
{
    let cs = chars_of(s);
    let mut i: usize = 0;
    assert(cs@.skip(0) =~= cs@);
    while i < cs.len() && char_is_whitespace(cs[i])
        invariant
            i <= cs.len(),
            cs@ == s@,
            trim_start_spec(s@) == trim_start_spec(cs@.skip(i as int)),
        decreases cs.len() - i,
    {
        assert(cs@.skip(i as int).drop_first() =~= cs@.skip(i + 1));
        i = i + 1;
    }
    assert(trim_start_spec(cs@.skip(i as int)) == cs@.skip(i as int));
    let mut j: usize = cs.len();
    assert(cs@.subrange(i as int, j as int) =~= cs@.skip(i as int));
    while j > i && char_is_whitespace(cs[j - 1])
        invariant
            i <= j <= cs.len(),
            trim_spec(s@) == trim_end_spec(cs@.subrange(i as int, j as int)),
        decreases j,
    {
        assert(cs@.subrange(i as int, j as int).drop_last() =~= cs@.subrange(i as int, j - 1));
        j = j - 1;
    }
    slice_to_string(&cs, i, j)
}

/// The characters of `cs` from `start` to `end` as a string.
fn slice_to_string(cs: &Vec<char>, start: usize, end: usize) -> (res: String)
    requires
        start <= end <= cs.len(),
    ensures
        res@ == cs@.subrange(start as int, end as int),
{
    let part = slice_chars(cs, start, end);
    string_from_chars(&part)
}

} // verus!

verus! {

/// The last position of `c` holds `c`, and no later position does.
pub proof fn lemma_last_index_of(s: Seq<char>, c: char)
    ensures
        match last_index_of(s, c) {
            Some(i) => 0 <= i < s.len() && s[i] == c && forall|j: int| i < j < s.len() ==> s[j] != c,
            None => forall|j: int| 0 <= j < s.len() ==> s[j] != c,
        },
    decreases s.len(),
{
    if s.len() > 0 && s.last() != c {
        lemma_last_index_of(s.drop_last(), c);
        assert forall|j: int| 0 <= j < s.len() - 1 implies s[j] == s.drop_last()[j] by {}
    }
}

} // verus!
