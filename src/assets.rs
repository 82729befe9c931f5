//! Naming rules for fingerprinted front-end asset files.

use vstd::prelude::*;

verus! {

/// Position of the last occurrence of `c`, or -1.
pub open spec fn last_index_of(s: Seq<char>, c: char) -> int
    decreases s.len(),
{
    if s.len() == 0 {
        -1
    } else if s.last() == c {
        s.len() - 1
    } else {
        last_index_of(s.drop_last(), c)
    }
}

proof fn lemma_last_index_of(s: Seq<char>, c: char)
    ensures
        -1 <= last_index_of(s, c) < s.len(),
        last_index_of(s, c) >= 0 ==> s[last_index_of(s, c)] == c,
    decreases s.len(),
{
    if s.len() > 0 {
        lemma_last_index_of(s.drop_last(), c);
    }
}

/// The stem of a file name: the name without its last extension. A name
/// whose only dot leads it, and `..`, are their own stem.
pub open spec fn file_stem(name: Seq<char>) -> Seq<char> {
    let d = last_index_of(name, '.');
    if d <= 0 || name == seq!['.', '.'] {
        name
    } else {
        name.subrange(0, d)
    }
}

pub open spec fn is_hex_digit(c: char) -> bool {
    ('0' <= c && c <= '9') || ('a' <= c && c <= 'f') || ('A' <= c && c <= 'F')
}

/// The stem ends in a dash followed by twelve hexadecimal digits.
pub open spec fn fingerprinted(name: Seq<char>) -> bool {
    let stem = file_stem(name);
    let h = last_index_of(stem, '-');
    &&& h >= 0
    &&& stem.len() - (h + 1) == 12
    &&& forall|k: int| h + 1 <= k < stem.len() ==> is_hex_digit(#[trigger] stem[k])
}

fn last_index(s: &str, c: char) -> (r: Option<usize>)
    ensures
        match r {
            Some(i) => i < s@.len() && last_index_of(s@, c) == i,
            None => last_index_of(s@, c) == -1,
        },
{
    let n = s.unicode_len();
    let mut j: usize = n;
    proof {
        assert(s@.subrange(0, n as int) =~= s@);
    }
    while j > 0
        invariant
            j <= n,
            n == s@.len(),
            last_index_of(s@, c) == last_index_of(s@.subrange(0, j as int), c),
        decreases j,
    {
        let ghost t = s@.subrange(0, j as int);
        if s.get_char(j - 1) == c {
            assert(t.last() == c);
            return Some(j - 1);
        }
        assert(t.drop_last() =~= s@.subrange(0, j - 1));
        j = j - 1;
    }
    None
}

/// The last component of a path when it names something: not a root, `.`
/// or `..`.
pub open spec fn file_name_of(path: Seq<char>) -> Option<Seq<char>> {
    let c = components(path);
    if c.len() == 0 {
        None
    } else {
        let l = c.last();
        if l == seq!['/'] || is_dot(l) || is_dot_dot(l) {
            None
        } else {
            Some(l)
        }
    }
}

/// The path's file name exists and carries a fingerprint.
pub open spec fn path_fingerprinted(path: Seq<char>) -> bool {
    match file_name_of(path) {
        Some(n) => fingerprinted(n),
        None => false,
    }
}

/// Whether the file a path names already carries a content fingerprint, as
/// in `js/app-0123456789ab.js`.
pub fn has_fingerprint_suffix(path: &str) -> (r: bool)
    ensures
        r == path_fingerprinted(path@),
{
    let parts = component_list(path);
    let n = parts.len();
    if n == 0 {
        return false;
    }
    let last = &parts[n - 1];
    let lt = last.as_str();
    let root = lt.unicode_len() == 1 && lt.get_char(0) == '/';
    assert(root == (last@ == seq!['/'])) by {
        if lt@.len() == 1 && lt@[0] == '/' {
            assert(lt@ =~= seq!['/']);
        }
    }
    assert(views(parts@).last() == last@);
    if root || dot(last) || dot_dot(last) {
        return false;
    }
    name_fingerprinted(lt)
}

fn name_fingerprinted(file_name: &str) -> (r: bool)
    ensures
        r == fingerprinted(file_name@),
{
    proof {
        lemma_last_index_of(file_name@, '.');
    }
    let n = file_name.unicode_len();
    let is_parent = n == 2 && file_name.get_char(0) == '.' && file_name.get_char(1) == '.';
    assert(is_parent == (file_name@ == seq!['.', '.'])) by {
        if n == 2 && file_name@[0] == '.' && file_name@[1] == '.' {
            assert(file_name@ =~= seq!['.', '.']);
        }
    }
    let stem: &str = match last_index(file_name, '.') {
        Some(d) => {
            if d == 0 || is_parent {
                file_name
            } else {
                file_name.substring_char(0, d)
            }
        },
        None => file_name,
    };
    assert(stem@ == file_stem(file_name@));
    proof {
        lemma_last_index_of(stem@, '-');
    }
    let m = stem.unicode_len();
    match last_index(stem, '-') {
        Some(h) => {
            if m - (h + 1) != 12 {
                return false;
            }
            let mut k: usize = h + 1;
            while k < m
                invariant
                    h + 1 <= k <= m,
                    m == stem@.len(),
                    stem@ == file_stem(file_name@),
                    last_index_of(stem@, '-') == h,
                    forall|x: int| h + 1 <= x < k ==> is_hex_digit(#[trigger] stem@[x]),
                decreases m - k,
            {
                let c = stem.get_char(k);
                if !(('0' <= c && c <= '9') || ('a' <= c && c <= 'f') || ('A' <= c && c <= 'F')) {
                    return false;
                }
                k = k + 1;
            }
            true
        },
        None => false,
    }
}

/// The pieces of a path text between slashes, empty ones included.
pub open spec fn segments(s: Seq<char>) -> Seq<Seq<char>>
    decreases s.len(),
{
    if s.len() == 0 {
        seq![Seq::empty()]
    } else {
        let p = segments(s.drop_last());
        if s.last() == '/' {
            p.push(Seq::empty())
        } else {
            p.update(p.len() - 1, p.last().push(s.last()))
        }
    }
}

proof fn lemma_segments_len(s: Seq<char>)
    ensures
        segments(s).len() >= 1,
    decreases s.len(),
{
    if s.len() > 0 {
        lemma_segments_len(s.drop_last());
    }
}

pub open spec fn views(v: Seq<String>) -> Seq<Seq<char>> {
    v.map_values(|x: String| x@)
}

/// Splits a path text at each slash.
pub fn split_path(s: &str) -> (r: Vec<String>)
    ensures
        views(r@) == segments(s@),
{
    let n = s.unicode_len();
    let mut parts: Vec<String> = Vec::new();
    let mut cur = String::new();
    let mut i: usize = 0;
    while i < n
        invariant
            i <= n,
            n == s@.len(),
            views(parts@).push(cur@) == segments(s@.subrange(0, i as int)),
        decreases n - i,
    {
        let c = s.get_char(i);
        proof {
            assert(s@.subrange(0, i + 1).drop_last() =~= s@.subrange(0, i as int));
            assert(s@.subrange(0, i + 1).last() == c);
            lemma_segments_len(s@.subrange(0, i as int));
        }
        if c == '/' {
            let ghost before = views(parts@);
            parts.push(cur);
            cur = String::new();
            assert(views(parts@) =~= before.push(views(parts@).last()));
            assert(views(parts@).push(cur@) =~= segments(s@.subrange(0, i + 1)));
        } else {
            let ghost old_cur = cur@;
            cur.append(s.substring_char(i, i + 1));
            assert(cur@ =~= old_cur.push(c));
            assert(views(parts@).push(cur@) =~= segments(s@.subrange(0, i + 1)));
        }
        i = i + 1;
    }
    proof {
        assert(s@.subrange(0, n as int) =~= s@);
    }
    let ghost before = views(parts@);
    parts.push(cur);
    assert(views(parts@) =~= segments(s@));
    parts
}

pub open spec fn is_dot(s: Seq<char>) -> bool {
    s == seq!['.']
}

pub open spec fn is_dot_dot(s: Seq<char>) -> bool {
    s == seq!['.', '.']
}

fn dot(s: &String) -> (r: bool)
    ensures
        r == is_dot(s@),
{
    let t = s.as_str();
    let r = t.unicode_len() == 1 && t.get_char(0) == '.';
    assert(r ==> t@ =~= seq!['.']);
    r
}

fn dot_dot(s: &String) -> (r: bool)
    ensures
        r == is_dot_dot(s@),
{
    let t = s.as_str();
    let r = t.unicode_len() == 2 && t.get_char(0) == '.' && t.get_char(1) == '.';
    assert(r ==> t@ =~= seq!['.', '.']);
    r
}

/// Walks the pieces of a relative path: empty pieces and `.` stay put, `..`
/// goes up (not above the start), and any other piece goes down.
pub open spec fn walk(parts: Seq<Seq<char>>) -> Seq<Seq<char>>
    decreases parts.len(),
{
    if parts.len() == 0 {
        Seq::empty()
    } else {
        let acc = walk(parts.drop_last());
        let p = parts.last();
        if p.len() == 0 || is_dot(p) {
            acc
        } else if is_dot_dot(p) {
            if acc.len() > 0 {
                acc.drop_last()
            } else {
                acc
            }
        } else {
            acc.push(p)
        }
    }
}

/// Names joined with slashes.
pub open spec fn joined_path(names: Seq<Seq<char>>) -> Seq<char>
    decreases names.len(),
{
    if names.len() == 0 {
        Seq::empty()
    } else if names.len() == 1 {
        names[0]
    } else {
        joined_path(names.drop_last()) + seq!['/'] + names.last()
    }
}

fn join_names(names: &Vec<String>) -> (r: String)
    ensures
        r@ == joined_path(views(names@)),
{
    proof {
        reveal_strlit("/");
    }
    let mut out = String::new();
    let mut i: usize = 0;
    while i < names.len()
        invariant
            i <= names@.len(),
            out@ == joined_path(views(names@).subrange(0, i as int)),
        decreases names@.len() - i,
    {
        proof {
            reveal_strlit("/");
            assert(views(names@).subrange(0, i + 1).drop_last() =~= views(names@).subrange(0, i as int));
        }
        if i > 0 {
            out.append("/");
        }
        out.append(names[i].as_str());
        proof {
            if i == 0 {
                assert(views(names@).subrange(0, 1) =~= seq![names@[0]@]);
                assert(out@ =~= joined_path(views(names@).subrange(0, 1)));
            } else {
                assert(out@ =~= joined_path(views(names@).subrange(0, i + 1)));
            }
        }
        i = i + 1;
    }
    proof {
        assert(views(names@).subrange(0, names@.len() as int) =~= views(names@));
    }
    out
}

/// A module specifier that names a file relative to the importing one.
pub open spec fn relative_specifier(spec: Seq<char>) -> bool {
    (spec.len() >= 2 && spec[0] == '.' && spec[1] == '/') || (spec.len() >= 3 && spec[0] == '.'
        && spec[1] == '.' && spec[2] == '/')
}

/// Where a relative import from a file in `current_dir` leads, as a relative
/// path; nothing for a bare specifier or an absolute directory.
pub open spec fn resolved_import(current_dir: Seq<char>, spec: Seq<char>) -> Option<Seq<char>> {
    if !relative_specifier(spec) || (current_dir.len() > 0 && current_dir[0] == '/') {
        None
    } else {
        Some(joined_path(walk(segments(current_dir) + segments(spec))))
    }
}

/// Resolves a relative import specifier against the importing file's
/// directory, folding `.` and `..` away.
pub fn resolve_js_relative(current_dir: &str, spec: &str) -> (r: Option<String>)
    ensures
        match r {
            Some(p) => resolved_import(current_dir@, spec@) == Some(p@),
            None => resolved_import(current_dir@, spec@) is None,
        },
{
    let m = spec.unicode_len();
    let dot_slash = m >= 2 && spec.get_char(0) == '.' && spec.get_char(1) == '/';
    let dot_dot_slash = m >= 3 && spec.get_char(0) == '.' && spec.get_char(1) == '.' && spec.get_char(2)
        == '/';
    if !(dot_slash || dot_dot_slash) {
        return None;
    }
    if current_dir.unicode_len() > 0 && current_dir.get_char(0) == '/' {
        return None;
    }
    let mut all = split_path(current_dir);
    let tail = split_path(spec);
    let ghost head = views(all@);
    let mut k: usize = 0;
    while k < tail.len()
        invariant
            k <= tail@.len(),
            views(all@) == head + views(tail@).subrange(0, k as int),
        decreases tail@.len() - k,
    {
        let ghost before = views(all@);
        all.push(tail[k].clone());
        assert(views(all@) =~= before.push(tail@[k as int]@));
        assert(views(tail@).subrange(0, k + 1) =~= views(tail@).subrange(0, k as int).push(tail@[k as int]@));
        assert(views(all@) =~= head + views(tail@).subrange(0, k + 1));
        k = k + 1;
    }
    assert(views(tail@).subrange(0, tail@.len() as int) =~= views(tail@));
    let ghost parts = views(all@);
    let mut stack: Vec<String> = Vec::new();
    let mut i: usize = 0;
    while i < all.len()
        invariant
            i <= all@.len(),
            parts == views(all@),
            views(stack@) == walk(parts.subrange(0, i as int)),
        decreases all@.len() - i,
    {
        let piece = &all[i];
        proof {
            assert(parts.subrange(0, i + 1).drop_last() =~= parts.subrange(0, i as int));
            assert(parts.subrange(0, i + 1).last() == piece@);
        }
        let ghost before = views(stack@);
        if piece.as_str().is_empty() || dot(piece) {
        } else if dot_dot(piece) {
            if stack.len() > 0 {
                stack.pop();
                assert(views(stack@) =~= before.drop_last());
            }
        } else {
            stack.push(piece.clone());
            assert(views(stack@) =~= before.push(piece@));
        }
        i = i + 1;
    }
    assert(parts.subrange(0, parts.len() as int) =~= parts);
    Some(join_names(&stack))
}

/// The pieces that name something: neither empty nor `.`.
pub open spec fn named_parts(parts: Seq<Seq<char>>) -> Seq<Seq<char>>
    decreases parts.len(),
{
    if parts.len() == 0 {
        Seq::empty()
    } else {
        let rest = named_parts(parts.drop_last());
        let p = parts.last();
        if p.len() == 0 || is_dot(p) {
            rest
        } else {
            rest.push(p)
        }
    }
}

/// The components of a path text as `std::path` lists them on Unix: a root
/// `/` or a leading `.` first, then every named piece, `..` included.
pub open spec fn components(s: Seq<char>) -> Seq<Seq<char>> {
    let body = named_parts(segments(s));
    if s.len() > 0 && s[0] == '/' {
        seq![seq!['/']] + body
    } else if is_dot(segments(s)[0]) {
        seq![seq!['.']] + body
    } else {
        body
    }
}

/// How many leading components the two lists share, counting from `k`.
pub open spec fn common_from(a: Seq<Seq<char>>, b: Seq<Seq<char>>, k: int) -> int
    decreases a.len() - k,
{
    if 0 <= k < a.len() && k < b.len() && a[k] == b[k] {
        common_from(a, b, k + 1)
    } else {
        k
    }
}

/// The text of a path built by pushing each component in turn: a root resets
/// it, and a slash separates the others.
pub open spec fn pushed(parts: Seq<Seq<char>>) -> Seq<char>
    decreases parts.len(),
{
    if parts.len() == 0 {
        Seq::empty()
    } else {
        let acc = pushed(parts.drop_last());
        let c = parts.last();
        if c == seq!['/'] {
            c
        } else if acc.len() == 0 {
            c
        } else if acc.last() == '/' {
            acc + c
        } else {
            acc + seq!['/'] + c
        }
    }
}

/// The path from a directory to a file: one `..` for each component of the
/// directory past their common prefix, then the rest of the file's path.
pub open spec fn relative_to(from_dir: Seq<char>, to_file: Seq<char>) -> Seq<char> {
    let f = components(from_dir);
    let t = components(to_file);
    let c = common_from(f, t, 0);
    pushed(Seq::new((f.len() - c) as nat, |i: int| seq!['.', '.']) + t.subrange(c, t.len() as int))
}

fn component_list(s: &str) -> (r: Vec<String>)
    ensures
        views(r@) == components(s@),
{
    let parts = split_path(s);
    proof {
        lemma_segments_len(s@);
    }
    let mut out: Vec<String> = Vec::new();
    if s.unicode_len() > 0 && s.get_char(0) == '/' {
        out.push(String::from_str("/"));
        proof {
            reveal_strlit("/");
            assert("/"@ =~= seq!['/']);
        }
        assert(views(out@) =~= seq![seq!['/']]);
    } else if dot(&parts[0]) {
        out.push(String::from_str("."));
        proof {
            reveal_strlit(".");
            assert("."@ =~= seq!['.']);
        }
        assert(views(out@) =~= seq![seq!['.']]);
    }
    let ghost head = views(out@);
    let mut i: usize = 0;
    while i < parts.len()
        invariant
            i <= parts@.len(),
            views(out@) == head + named_parts(views(parts@).subrange(0, i as int)),
        decreases parts@.len() - i,
    {
        let p = &parts[i];
        proof {
            assert(views(parts@).subrange(0, i + 1).drop_last() =~= views(parts@).subrange(0, i as int));
            assert(views(parts@).subrange(0, i + 1).last() == p@);
        }
        let ghost before = views(out@);
        if !(p.as_str().is_empty() || dot(p)) {
            out.push(p.clone());
            assert(views(out@) =~= before.push(p@));
        }
        assert(views(out@) =~= head + named_parts(views(parts@).subrange(0, i + 1)));
        i = i + 1;
    }
    assert(views(parts@).subrange(0, parts@.len() as int) =~= views(parts@));
    out
}

/// The path that leads from the directory `from_dir` to the file `to_file`.
pub fn relative_path(from_dir: &str, to_file: &str) -> (r: String)
    ensures
        r@ == relative_to(from_dir@, to_file@),
{
    let f = component_list(from_dir);
    let t = component_list(to_file);
    let ghost fv = views(f@);
    let ghost tv = views(t@);
    let mut common: usize = 0;
    while common < f.len() && common < t.len() && f[common] == t[common]
        invariant
            common <= f@.len(),
            common <= t@.len(),
            fv == views(f@),
            tv == views(t@),
            common_from(fv, tv, common as int) == common_from(fv, tv, 0),
        decreases f@.len() - common,
    {
        common = common + 1;
    }
    let ghost c = common as int;
    let ghost rel = Seq::new((fv.len() - c) as nat, |i: int| seq!['.', '.']) + tv.subrange(c, tv.len() as int);
    let mut steps: Vec<String> = Vec::new();
    let mut k: usize = common;
    while k < f.len()
        invariant
            0 <= c <= k <= fv.len(),
            c == common,
            fv == views(f@),
            views(steps@) == Seq::new((k - c) as nat, |i: int| seq!['.', '.']),
        decreases fv.len() - k,
    {
        proof {
            reveal_strlit("..");
            assert(".."@ =~= seq!['.', '.']);
        }
        let ghost before = views(steps@);
        steps.push(String::from_str(".."));
        assert(views(steps@) =~= before.push(seq!['.', '.']));
        assert(views(steps@) =~= Seq::new((k + 1 - c) as nat, |i: int| seq!['.', '.']));
        k = k + 1;
    }
    let ghost ups = views(steps@);
    let mut k: usize = common;
    while k < t.len()
        invariant
            0 <= c <= k <= tv.len(),
            c == common,
            tv == views(t@),
            views(steps@) == ups + tv.subrange(c, k as int),
        decreases tv.len() - k,
    {
        let ghost before = views(steps@);
        steps.push(t[k].clone());
        assert(views(steps@) =~= before.push(tv[k as int]));
        assert(tv.subrange(c, k + 1) =~= tv.subrange(c, k as int).push(tv[k as int]));
        k = k + 1;
    }
    assert(views(steps@) =~= rel);
    let mut out = String::new();
    let mut i: usize = 0;
    while i < steps.len()
        invariant
            i <= steps@.len(),
            rel == views(steps@),
            out@ == pushed(rel.subrange(0, i as int)),
        decreases steps@.len() - i,
    {
        proof {
            reveal_strlit("/");
            assert(rel.subrange(0, i + 1).drop_last() =~= rel.subrange(0, i as int));
        }
        let piece: &str = steps[i].as_str();
        assert(piece@ == rel[i as int]);
        let pl = piece.unicode_len();
        let is_root = pl == 1 && piece.get_char(0) == '/';
        assert(is_root == (piece@ == seq!['/'])) by {
            if pl == 1 && piece@[0] == '/' {
                assert(piece@ =~= seq!['/']);
            }
        }
        let ol = out.as_str().unicode_len();
        if is_root {
            out = String::from_str(piece);
        } else if ol == 0 {
            out = String::from_str(piece);
        } else if out.as_str().get_char(ol - 1) == '/' {
            out.append(piece);
        } else {
            assert("/"@ =~= seq!['/']);
            out.append("/");
            out.append(piece);
        }
        assert(out@ =~= pushed(rel.subrange(0, i + 1)));
        i = i + 1;
    }
    assert(rel.subrange(0, rel.len() as int) =~= rel);
    out
}

} // verus!
