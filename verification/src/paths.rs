//! Unix path components, as `std::path::Path` splits them: an optional root,
//! then the parts between separators, where empty parts and `.` parts are
//! dropped, except a `.` that begins a relative path.

use vstd::prelude::*;

use crate::text::{chars_eq, chars_of, string_from_chars};

verus! {

/// The component that stands for the root directory.
pub open spec fn root_component() -> Seq<char> {
    seq!['/']
}

/// `acc` with the part `part` appended when it counts as a component.
pub open spec fn push_part(acc: Seq<Seq<char>>, part: Seq<char>) -> Seq<Seq<char>> {
    if part.len() == 0 || (part == seq!['.'] && acc.len() > 0) {
        acc
    } else {
        acc.push(part)
    }
}

/// Scanner over `s` from `i`, with the current part `cur` and the
/// components found so far.
pub open spec fn component_scan(s: Seq<char>, i: int, cur: Seq<char>, acc: Seq<Seq<char>>) -> Seq<Seq<char>>
    decreases s.len() - i,
{
    if i >= s.len() || i < 0 {
        push_part(acc, cur)
    } else if s[i] == '/' {
        component_scan(s, i + 1, Seq::empty(), push_part(acc, cur))
    } else {
        component_scan(s, i + 1, cur.push(s[i]), acc)
    }
}

/// The components of the path `s`.
pub open spec fn components(s: Seq<char>) -> Seq<Seq<char>> {
    if s.len() > 0 && s[0] == '/' {
        component_scan(s, 1, Seq::empty(), seq![root_component()])
    } else {
        component_scan(s, 0, Seq::empty(), Seq::empty())
    }
}

/// Whether the components of `a` begin with those of `b`.
pub open spec fn components_start_with(a: Seq<Seq<char>>, b: Seq<Seq<char>>) -> bool {
    b.len() <= a.len() && a.take(b.len() as int) == b
}

/// Whether `c` is an ordinary name (not the root, `.` or `..`).
pub open spec fn is_normal_component(c: Seq<char>) -> bool {
    c != root_component() && c != seq!['.'] && c != seq!['.', '.']
}

/// The final component of `s` when it is an ordinary name.
pub open spec fn file_name_spec(s: Seq<char>) -> Option<Seq<char>> {
    let cs = components(s);
    if cs.len() > 0 && is_normal_component(cs.last()) {
        Some(cs.last())
    } else {
        None
    }
}

/// Appends `cur` to `acc` when it counts as a component.
fn push_part_exec(acc: &mut Vec<Vec<char>>, cur: Vec<char>)
    ensures
        final(acc)@.map_values(|v: Vec<char>| v@) == push_part(old(acc)@.map_values(|v: Vec<char>| v@), cur@),
{
    let ghost before = acc@.map_values(|v: Vec<char>| v@);
    let is_dot = cur.len() == 1 && cur[0] == '.';
    if cur.len() == 0 || (is_dot && acc.len() > 0) {
        if is_dot {
            assert(cur@ =~= seq!['.']);
        }
        return;
    }
    if cur.len() == 1 && cur[0] == '.' {
    } else {
        assert(cur@ != seq!['.']) by {
            if cur@ == seq!['.'] {
                assert(cur@.len() == 1 && cur@[0] == '.');
            }
        }
    }
    let ghost c = cur@;
    acc.push(cur);
    assert(acc@.map_values(|v: Vec<char>| v@) =~= before.push(c));
}

/// The components of a path, each as its characters.
pub fn path_components_chars(path: &str) -> (res: Vec<Vec<char>>)
    ensures
        res@.map_values(|v: Vec<char>| v@) == components(path@),
{
    let s = chars_of(path);
    let mut acc: Vec<Vec<char>> = Vec::new();
    let mut i: usize = 0;
    if s.len() > 0 && s[0] == '/' {
        let root: Vec<char> = vec!['/'];
        assert(root@ =~= seq!['/']);
        acc.push(root);
        i = 1;
        assert(acc@.map_values(|v: Vec<char>| v@) =~= seq![root_component()]);
    } else {
        assert(acc@.map_values(|v: Vec<char>| v@) =~= Seq::<Seq<char>>::empty());
    }
    let mut cur: Vec<char> = Vec::new();
    while i < s.len()
        invariant
            i <= s.len(),
            s@ == path@,
            components(path@) == component_scan(s@, i as int, cur@, acc@.map_values(|v: Vec<char>| v@)),
        decreases s.len() - i,
    {
        let c = s[i];
        if c == '/' {
            let part = cur;
            cur = Vec::new();
            push_part_exec(&mut acc, part);
        } else {
            cur.push(c);
        }
        i = i + 1;
    }
    push_part_exec(&mut acc, cur);
    acc
}

/// The components of a path.
pub fn path_components(path: &str) -> (res: Vec<String>)
    ensures
        res@.map_values(|v: String| v@) == components(path@),
{
    let parts = path_components_chars(path);
    let mut res: Vec<String> = Vec::new();
    let mut i: usize = 0;
    while i < parts.len()
        invariant
            i <= parts.len(),
            res@.map_values(|v: String| v@) == parts@.map_values(|v: Vec<char>| v@).take(i as int),
        decreases parts.len() - i,
    {
        let part = string_from_chars(&parts[i]);
        let ghost pv = parts@.map_values(|v: Vec<char>| v@);
        assert(part@ == pv[i as int]);
        let ghost prev = res@;
        res.push(part);
        assert(res@.map_values(|v: String| v@) =~= prev.map_values(|v: String| v@).push(pv[i as int]));
        assert(pv.take(i + 1) =~= pv.take(i as int).push(pv[i as int]));
        i = i + 1;
    }
    assert(parts@.map_values(|v: Vec<char>| v@).take(parts.len() as int) =~= parts@.map_values(|v: Vec<char>| v@));
    res
}

/// Whether the path `path` begins with the components of `base`.
pub fn path_starts_with(path: &str, base: &str) -> (res: bool)
    ensures
        res == components_start_with(components(path@), components(base@)),
{
    let a = path_components_chars(path);
    let b = path_components_chars(base);
    let ghost av = a@.map_values(|v: Vec<char>| v@);
    let ghost bv = b@.map_values(|v: Vec<char>| v@);
    assert(av.len() == a@.len() && bv.len() == b@.len());
    if b.len() > a.len() {
        return false;
    }
    let mut i: usize = 0;
    while i < b.len()
        invariant
            i <= b.len() <= a.len(),
            av == a@.map_values(|v: Vec<char>| v@),
            bv == b@.map_values(|v: Vec<char>| v@),
            av == components(path@),
            bv == components(base@),
            forall|j: int| 0 <= j < i ==> av[j] == bv[j],
        decreases b.len() - i,
    {
        assert(av[i as int] == a@[i as int]@ && bv[i as int] == b@[i as int]@);
        if !chars_eq(&a[i], &b[i]) {
            assert(av.take(bv.len() as int)[i as int] == av[i as int]);
            assert(av.take(bv.len() as int) != bv);
            return false;
        }
        i = i + 1;
    }
    assert(av.take(bv.len() as int) =~= bv);
    true
}

/// The final component of a path, when it is an ordinary name.
pub fn file_name(path: &str) -> (res: Option<String>)
    ensures
        match res {
            Some(n) => file_name_spec(path@) == Some(n@),
            None => file_name_spec(path@) is None,
        },
{
    let parts = path_components_chars(path);
    let ghost pv = parts@.map_values(|v: Vec<char>| v@);
    if parts.len() == 0 {
        return None;
    }
    let last = &parts[parts.len() - 1];
    assert(last@ == pv.last());
    let is_root = last.len() == 1 && last[0] == '/';
    let is_dot = last.len() == 1 && last[0] == '.';
    let is_dotdot = last.len() == 2 && last[0] == '.' && last[1] == '.';
    if is_root || is_dot || is_dotdot {
        if is_root {
            assert(last@ =~= root_component());
        }
        if is_dot {
            assert(last@ =~= seq!['.']);
        }
        if is_dotdot {
            assert(last@ =~= seq!['.', '.']);
        }
        return None;
    }
    assert(is_normal_component(last@)) by {
        if last@ == root_component() {
            assert(last@.len() == 1 && last@[0] == '/');
        }
        if last@ == seq!['.'] {
            assert(last@.len() == 1 && last@[0] == '.');
        }
        if last@ == seq!['.', '.'] {
            assert(last@.len() == 2 && last@[0] == '.' && last@[1] == '.');
        }
    }
    Some(string_from_chars(last))
}

} // verus!

verus! {

/// `base` joined with `rel`, as `Path::join` spells it on Unix: an
/// absolute `rel` replaces `base`; otherwise a separator goes between them
/// unless `base` is empty or already ends with one.
pub open spec fn path_join_spec(base: Seq<char>, rel: Seq<char>) -> Seq<char> {
    if rel.len() > 0 && rel[0] == '/' {
        rel
    } else if base.len() == 0 {
        rel
    } else if base.last() == '/' {
        base + rel
    } else {
        base + seq!['/'] + rel
    }
}

/// `base` joined with `rel`; an absolute `rel` replaces `base`.
pub fn path_join(base: &str, rel: &str) -> (res: String)
    ensures
        res@ == path_join_spec(base@, rel@),
{
    let cs = crate::text::chars_of(base);
    let rs = crate::text::chars_of(rel);
    if rs.len() > 0 && rs[0] == '/' {
        crate::text::owned(rel)
    } else if cs.len() == 0 {
        crate::text::owned(rel)
    } else if cs[cs.len() - 1] == '/' {
        crate::text::concat_str(base, rel)
    } else {
        let mut r = crate::text::concat_str(base, "/");
        r.append(rel);
        proof { reveal_strlit("/"); }
        r
    }
}

} // verus!

verus! {

/// Whether `Path::parent` of `path` equals `dir`, components compared: the
/// last component is a name, `.` or `..`, and the others are those of `dir`.
pub open spec fn parent_is_spec(path: Seq<char>, dir: Seq<char>) -> bool {
    let cs = components(path);
    cs.len() > 0 && cs.last() != root_component() && cs.drop_last() == components(dir)
}

/// Whether the parent of `path` is `dir`.
pub fn parent_is(path: &str, dir: &str) -> (res: bool)
    ensures
        res == parent_is_spec(path@, dir@),
{
    let a = path_components_chars(path);
    let b = path_components_chars(dir);
    let ghost av = a@.map_values(|v: Vec<char>| v@);
    let ghost bv = b@.map_values(|v: Vec<char>| v@);
    if a.len() == 0 {
        return false;
    }
    let last = &a[a.len() - 1];
    assert(last@ == av.last());
    if last.len() == 1 && last[0] == '/' {
        assert(last@ =~= root_component());
        return false;
    }
    assert(av.last() != root_component()) by {
        if av.last() == root_component() {
            assert(last@.len() == 1 && last@[0] == '/');
        }
    }
    if b.len() != a.len() - 1 {
        assert(av.drop_last().len() != bv.len());
        return false;
    }
    let mut i: usize = 0;
    while i < b.len()
        invariant
            i <= b.len(),
            b.len() + 1 == a.len(),
            av == a@.map_values(|v: Vec<char>| v@),
            bv == b@.map_values(|v: Vec<char>| v@),
            av == components(path@),
            bv == components(dir@),
            forall|j: int| 0 <= j < i ==> av[j] == bv[j],
        decreases b.len() - i,
    {
        assert(av[i as int] == a@[i as int]@ && bv[i as int] == b@[i as int]@);
        if !chars_eq(&a[i], &b[i]) {
            assert(av.drop_last()[i as int] != bv[i as int]);
            return false;
        }
        i = i + 1;
    }
    assert(av.drop_last() =~= bv);
    true
}

} // verus!

verus! {

proof fn lemma_scan_without_separator(s: Seq<char>, i: int, cur: Seq<char>, acc: Seq<Seq<char>>)
    requires
        0 <= i <= s.len(),
        forall|k: int| i <= k < s.len() ==> s[k] != '/',
    ensures
        component_scan(s, i, cur, acc) == push_part(acc, cur + s.skip(i)),
    decreases s.len() - i,
{
    if i < s.len() {
        lemma_scan_without_separator(s, i + 1, cur.push(s[i]), acc);
        assert(cur.push(s[i]) + s.skip(i + 1) =~= cur + s.skip(i));
    } else {
        assert(cur + s.skip(i) =~= cur);
    }
}

proof fn lemma_scan_last(s: Seq<char>, i: int, j: int, cur: Seq<char>, acc: Seq<Seq<char>>)
    requires
        0 <= i <= j < s.len(),
        s[j] == '/',
        forall|k: int| j < k < s.len() ==> s[k] != '/',
        s.skip(j + 1).len() > 0,
        s.skip(j + 1) != seq!['.'],
    ensures
        component_scan(s, i, cur, acc).len() > 0,
        component_scan(s, i, cur, acc).last() == s.skip(j + 1),
    decreases j - i,
{
    if i == j {
        lemma_scan_without_separator(s, j + 1, Seq::empty(), push_part(acc, cur));
        assert(Seq::<char>::empty() + s.skip(j + 1) =~= s.skip(j + 1));
    } else if s[i] == '/' {
        lemma_scan_last(s, i + 1, j, Seq::empty(), push_part(acc, cur));
    } else {
        lemma_scan_last(s, i + 1, j, cur.push(s[i]), acc);
    }
}

/// The file name of `name` joined under an absolute directory is `name`,
/// when it is an ordinary name without separators.
pub proof fn lemma_file_name_of_join(dir: Seq<char>, name: Seq<char>)
    requires
        dir.len() > 0,
        dir[0] == '/',
        name.len() > 0,
        !name.contains('/'),
        name != seq!['.'],
        name != seq!['.', '.'],
    ensures
        file_name_spec(dir + seq!['/'] + name) == Some(name),
{
    let s = dir + seq!['/'] + name;
    let j = dir.len() as int;
    assert(s.skip(j + 1) =~= name);
    assert(s[j] == '/');
    assert forall|k: int| j < k < s.len() implies s[k] != '/' by {
        assert(s[k] == name[k - j - 1]);
    }
    assert(s[0] == '/');
    lemma_scan_last(s, 1, j, Seq::empty(), seq![root_component()]);
    assert(name != root_component()) by {
        if name == root_component() {
            assert(name[0] == '/');
        }
    }
}


/// The file name of `name` joined under any directory is `name`, when it is
/// an ordinary name without separators.
pub proof fn lemma_file_name_of_path_join(dir: Seq<char>, name: Seq<char>)
    requires
        name.len() > 0,
        !name.contains('/'),
        name != seq!['.'],
        name != seq!['.', '.'],
    ensures
        file_name_spec(path_join_spec(dir, name)) == Some(name),
{
    let s = path_join_spec(dir, name);
    assert(name[0] != '/') by {
        if name[0] == '/' {
            assert(name.contains('/'));
        }
    }
    assert(name != root_component()) by {
        if name == root_component() {
            assert(name[0] == '/');
        }
    }
    if dir.len() == 0 {
        assert(s == name);
        lemma_scan_without_separator(s, 0, Seq::empty(), Seq::empty());
        assert(Seq::<char>::empty() + s.skip(0) =~= name);
        assert(!(s.len() > 0 && s[0] == '/'));
        assert(components(s) == seq![name]);
    } else {
        let j = if dir.last() == '/' { dir.len() - 1 } else { dir.len() as int };
        assert(s.skip(j + 1) =~= name);
        assert(s[j] == '/');
        assert forall|k: int| j < k < s.len() implies s[k] != '/' by {
            assert(s[k] == name[k - j - 1]);
        }
        if s[0] == '/' {
            if j == 0 {
                lemma_scan_without_separator(s, 1, Seq::empty(), seq![root_component()]);
                assert(Seq::<char>::empty() + s.skip(1) =~= name);
            } else {
                lemma_scan_last(s, 1, j, Seq::empty(), seq![root_component()]);
            }
        } else {
            lemma_scan_last(s, 0, j, Seq::empty(), Seq::empty());
        }
    }
}

} // verus!
