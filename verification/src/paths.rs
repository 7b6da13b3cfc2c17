//! Unix paths as text: joining, components, parents, file names and prefixes.
//!
//! A path's components are its `/`-separated pieces, without empty pieces and
//! without `.` pieces, except a `.` that begins a relative path. A path is absolute
//! when it begins with `/`. Paths built from components separate them by single
//! slashes.
use vstd::prelude::*;
use crate::text::{lemma_split_len, push_chars, split_chars, split_spec, string_from, views, chars_of};

verus! {

/// Whether a path begins at the root.
pub open spec fn is_absolute(p: Seq<char>) -> bool {
    p.len() > 0 && p[0] == '/'
}

/// `b` appended to `a` as `Path::join` does: an absolute `b` replaces `a`, and a
/// separator goes between them unless `a` is empty or already ends with one.
pub open spec fn join_spec(a: Seq<char>, b: Seq<char>) -> Seq<char> {
    if is_absolute(b) || a.len() == 0 {
        b
    } else if a.last() == '/' {
        a + b
    } else {
        a + seq!['/'] + b
    }
}

/// Whether piece `i` of a path's `/`-separated pieces is one of its components.
pub open spec fn keep_piece(piece: Seq<char>, i: int) -> bool {
    piece.len() > 0 && (piece != seq!['.'] || i == 0)
}

/// The pieces among `pieces` that are components.
pub open spec fn kept(pieces: Seq<Seq<char>>) -> Seq<Seq<char>>
    decreases pieces.len(),
{
    if pieces.len() == 0 {
        Seq::empty()
    } else {
        let k = kept(pieces.drop_last());
        if keep_piece(pieces.last(), pieces.len() - 1) {
            k.push(pieces.last())
        } else {
            k
        }
    }
}

/// The components of a path (the root not included).
pub open spec fn components(p: Seq<char>) -> Seq<Seq<char>> {
    kept(split_spec(p, '/'))
}

/// Components written one after another with single slashes between them.
pub open spec fn join_all(c: Seq<Seq<char>>) -> Seq<char>
    decreases c.len(),
{
    if c.len() == 0 {
        Seq::empty()
    } else if c.len() == 1 {
        c[0]
    } else {
        join_all(c.drop_last()) + seq!['/'] + c.last()
    }
}

/// The path with components `c`, absolute where `abs` holds.
pub open spec fn rebuild(abs: bool, c: Seq<Seq<char>>) -> Seq<char> {
    if abs {
        seq!['/'] + join_all(c)
    } else {
        join_all(c)
    }
}

/// The parent of a path: the path without its last component, and none for the
/// root or the empty path.
pub open spec fn parent_spec(p: Seq<char>) -> Option<Seq<char>> {
    let c = components(p);
    if c.len() == 0 {
        None
    } else {
        Some(rebuild(is_absolute(p), c.drop_last()))
    }
}

/// The final component of a path, unless it is `..` or `.`.
pub open spec fn file_name_spec(p: Seq<char>) -> Option<Seq<char>> {
    let c = components(p);
    if c.len() == 0 || c.last() == seq!['.', '.'] || c.last() == seq!['.'] {
        None
    } else {
        Some(c.last())
    }
}

/// The index of the last `.` in `s`.
pub open spec fn last_dot(s: Seq<char>) -> Option<int>
    decreases s.len(),
{
    if s.len() == 0 {
        None
    } else if s.last() == '.' {
        Some(s.len() - 1)
    } else {
        last_dot(s.drop_last())
    }
}

/// A file name split into stem and extension at its last `.`, as `Path::file_stem`
/// and `Path::extension` do: a name without a dot, or whose only dot leads it, has
/// no extension.
pub open spec fn split_name(name: Seq<char>) -> (Seq<char>, Option<Seq<char>>) {
    match last_dot(name) {
        Some(k) => if k == 0 {
            (name, None)
        } else {
            (name.take(k), Some(name.skip(k + 1)))
        },
        None => (name, None),
    }
}

/// The stem of a path's file name.
pub open spec fn file_stem_spec(p: Seq<char>) -> Option<Seq<char>> {
    match file_name_spec(p) {
        Some(n) => Some(split_name(n).0),
        None => None,
    }
}

/// The extension of a path's file name.
pub open spec fn extension_spec(p: Seq<char>) -> Option<Seq<char>> {
    match file_name_spec(p) {
        Some(n) => split_name(n).1,
        None => None,
    }
}

/// A piece that a path's component iterator passes over once past its start: an
/// empty piece (a repeated or trailing slash) or `.`.
pub open spec fn skippable(x: Seq<char>) -> bool {
    x.len() == 0 || x == seq!['.']
}

/// The number of pieces that the first `k` components of a path take up, counted
/// from piece `j` on: the first `j' >= j` whose prefix holds `k` components.
pub open spec fn pieces_for(pieces: Seq<Seq<char>>, k: int, j: int) -> int
    decreases pieces.len() - j,
{
    if j < 0 || j >= pieces.len() || kept(pieces.take(j)).len() >= k {
        j
    } else {
        pieces_for(pieces, k, j + 1)
    }
}

/// The pieces without the skippable ones at the front.
pub open spec fn trim_front(ps: Seq<Seq<char>>) -> Seq<Seq<char>>
    decreases ps.len(),
{
    if ps.len() > 0 && skippable(ps[0]) {
        trim_front(ps.drop_first())
    } else {
        ps
    }
}

/// The pieces without the skippable ones at the back, keeping the first `floor`.
pub open spec fn trim_back(ps: Seq<Seq<char>>, floor: int) -> Seq<Seq<char>>
    decreases ps.len(),
{
    if ps.len() > floor && ps.len() > 0 && skippable(ps.last()) {
        trim_back(ps.drop_last(), floor)
    } else {
        ps
    }
}

/// The rest of `p` after `base`, as `Path::strip_prefix` gives it: `base`'s
/// components (and root) must begin `p`'s, and the rest is `p`'s own text after
/// them, without the separators and `.` pieces at its ends (interior ones stay as
/// written). Where nothing was consumed from a relative `p`, its leading `.` stays.
pub open spec fn strip_prefix_spec(p: Seq<char>, base: Seq<char>) -> Option<Seq<char>> {
    let cp = components(p);
    let cb = components(base);
    if is_absolute(p) == is_absolute(base) && cb.len() <= cp.len() && cp.take(cb.len() as int)
        == cb {
        let pieces = split_spec(p, '/');
        let fresh = cb.len() == 0 && !is_absolute(p);
        let rest = pieces.skip(pieces_for(pieces, cb.len() as int, 0));
        Some(
            join_all(
                if fresh {
                    trim_back(rest, 1)
                } else {
                    trim_back(trim_front(rest), 0)
                },
            ),
        )
    } else {
        None
    }
}

/// The path without its `.` components.
pub open spec fn without_cur_dir(p: Seq<char>) -> Seq<char> {
    rebuild(is_absolute(p), components(p).filter(|c: Seq<char>| c != seq!['.']))
}

/// `a` joined with `b`.
pub fn join(a: &str, b: &str) -> (r: String)
    ensures
        r@ == join_spec(a@, b@),
{
    let av = chars_of(a);
    let bv = chars_of(b);
    let mut out: Vec<char> = Vec::new();
    if (bv.len() > 0 && bv[0] == '/') || av.len() == 0 {
        push_chars(&mut out, &bv);
    } else if av[av.len() - 1] == '/' {
        push_chars(&mut out, &av);
        push_chars(&mut out, &bv);
    } else {
        push_chars(&mut out, &av);
        out.push('/');
        push_chars(&mut out, &bv);
    }
    assert(out@ =~= join_spec(a@, b@));
    string_from(&out)
}

/// Whether a path begins at the root.
pub fn is_absolute_path(p: &str) -> (r: bool)
    ensures
        r == is_absolute(p@),
{
    let v = chars_of(p);
    v.len() > 0 && v[0] == '/'
}

fn is_single_dot(p: &[char]) -> (r: bool)
    ensures
        r == (p@ == seq!['.']),
{
    if p.len() == 1 && p[0] == '.' {
        assert(p@ =~= seq!['.']);
        true
    } else {
        false
    }
}

fn is_double_dot(p: &[char]) -> (r: bool)
    ensures
        r == (p@ == seq!['.', '.']),
{
    if p.len() == 2 && p[0] == '.' && p[1] == '.' {
        assert(p@ =~= seq!['.', '.']);
        true
    } else {
        false
    }
}

/// The components of a path.
pub fn components_of(p: &[char]) -> (r: Vec<Vec<char>>)
    ensures
        views(r@) == components(p@),
{
    let pieces = split_chars(p, '/');
    let mut out: Vec<Vec<char>> = Vec::new();
    let mut i: usize = 0;
    while i < pieces.len()
        invariant
            i <= pieces@.len(),
            views(pieces@) == split_spec(p@, '/'),
            views(out@) == kept(views(pieces@).take(i as int)),
        decreases pieces@.len() - i,
    {
        let ghost pv = views(pieces@);
        assert(pv.take(i + 1).drop_last() =~= pv.take(i as int));
        assert(pv[i as int] == pieces@[i as int]@);
        let piece = &pieces[i];
        if piece.len() > 0 && (!is_single_dot(piece) || i == 0) {
            let ghost before = views(out@);
            let copy = piece.clone();
            assert(copy@ == piece@);
            out.push(copy);
            assert(views(out@) =~= before.push(pv[i as int]));
        }
        i = i + 1;
    }
    assert(views(pieces@).take(pieces@.len() as int) =~= views(pieces@));
    out
}

/// The text of a path with the given components.
pub fn rebuild_chars(abs: bool, c: &Vec<Vec<char>>) -> (r: Vec<char>)
    ensures
        r@ == rebuild(abs, views(c@)),
{
    let mut out: Vec<char> = Vec::new();
    if abs {
        out.push('/');
    }
    let ghost start = out@;
    let mut i: usize = 0;
    while i < c.len()
        invariant
            i <= c@.len(),
            start == (if abs {
                seq!['/']
            } else {
                Seq::<char>::empty()
            }),
            out@ == start + join_all(views(c@).take(i as int)),
        decreases c@.len() - i,
    {
        let ghost cv = views(c@);
        assert(cv.take(i + 1).drop_last() =~= cv.take(i as int));
        assert(cv[i as int] == c@[i as int]@);
        if i > 0 {
            out.push('/');
        }
        push_chars(&mut out, &c[i]);
        if i == 0 {
            assert(join_all(cv.take(1)) == cv.take(1)[0]);
        }
        assert(out@ =~= start + join_all(cv.take(i + 1)));
        i = i + 1;
    }
    assert(views(c@).take(c@.len() as int) =~= views(c@));
    assert(out@ =~= rebuild(abs, views(c@)));
    out
}

/// The parent of a path, if it has one.
pub fn parent(p: &str) -> (r: Option<String>)
    ensures
        r matches Some(s) ==> parent_spec(p@) == Some(s@),
        r is None ==> parent_spec(p@) is None,
{
    let v = chars_of(p);
    let mut c = components_of(&v);
    if c.len() == 0 {
        return None;
    }
    let ghost cv = views(c@);
    c.pop();
    assert(views(c@) =~= cv.drop_last());
    let abs = v.len() > 0 && v[0] == '/';
    let r = rebuild_chars(abs, &c);
    Some(string_from(&r))
}

/// The final component of a path, unless it is `.` or `..`.
pub fn file_name(p: &str) -> (r: Option<String>)
    ensures
        r matches Some(s) ==> file_name_spec(p@) == Some(s@),
        r is None ==> file_name_spec(p@) is None,
{
    let v = chars_of(p);
    let c = components_of(&v);
    if c.len() == 0 {
        return None;
    }
    let last = &c[c.len() - 1];
    assert(views(c@).last() == last@);
    if is_double_dot(last) || is_single_dot(last) {
        return None;
    }
    Some(string_from(last))
}

fn last_dot_exec(s: &[char]) -> (r: Option<usize>)
    ensures
        r matches Some(k) ==> last_dot(s@) == Some(k as int) && k < s@.len(),
        r is None ==> last_dot(s@) is None,
{
    let mut j: usize = s.len();
    assert(s@.take(s@.len() as int) =~= s@);
    while j > 0
        invariant
            j <= s@.len(),
            last_dot(s@) == last_dot(s@.take(j as int)),
        decreases j,
    {
        assert(s@.take(j as int).drop_last() =~= s@.take(j - 1));
        assert(s@.take(j as int).last() == s@[j - 1]);
        if s[j - 1] == '.' {
            return Some(j - 1);
        }
        j = j - 1;
    }
    None
}

/// The stem and extension of a file name.
pub fn split_file_name(name: &str) -> (r: (String, Option<String>))
    ensures
        r.0@ == split_name(name@).0,
        r.1 matches Some(e) ==> split_name(name@).1 == Some(e@),
        r.1 is None ==> split_name(name@).1 is None,
{
    let v = chars_of(name);
    match last_dot_exec(&v) {
        Some(k) => {
            if k == 0 {
                (string_from(&v), None)
            } else {
                let mut stem: Vec<char> = Vec::new();
                let mut ext: Vec<char> = Vec::new();
                let mut i: usize = 0;
                while i < k
                    invariant
                        i <= k < v@.len(),
                        stem@ == v@.take(i as int),
                    decreases k - i,
                {
                    stem.push(v[i]);
                    i = i + 1;
                    assert(stem@ =~= v@.take(i as int));
                }
                assert(k < v.len());
                let mut j: usize = k + 1;
                while j < v.len()
                    invariant
                        k + 1 <= j <= v@.len(),
                        ext@ == v@.subrange(k + 1, j as int),
                    decreases v@.len() - j,
                {
                    ext.push(v[j]);
                    j = j + 1;
                    assert(ext@ =~= v@.subrange(k + 1, j as int));
                }
                assert(ext@ =~= v@.skip(k + 1));
                (string_from(&stem), Some(string_from(&ext)))
            }
        },
        None => (string_from(&v), None),
    }
}

/// The stem of a path's file name.
pub fn file_stem(p: &str) -> (r: Option<String>)
    ensures
        r matches Some(s) ==> file_stem_spec(p@) == Some(s@),
        r is None ==> file_stem_spec(p@) is None,
{
    match file_name(p) {
        Some(n) => Some(split_file_name(n.as_str()).0),
        None => None,
    }
}

/// The extension of a path's file name.
pub fn extension(p: &str) -> (r: Option<String>)
    ensures
        r matches Some(s) ==> extension_spec(p@) == Some(s@),
        r is None ==> extension_spec(p@) is None,
{
    match file_name(p) {
        Some(n) => split_file_name(n.as_str()).1,
        None => None,
    }
}

/// The rest of `p` after `base`, where `base` begins `p` component by component.
pub fn strip_prefix(p: &str, base: &str) -> (r: Option<String>)
    ensures
        r matches Some(s) ==> strip_prefix_spec(p@, base@) == Some(s@),
        r is None ==> strip_prefix_spec(p@, base@) is None,
{
    let pv = chars_of(p);
    let bv = chars_of(base);
    let pa = pv.len() > 0 && pv[0] == '/';
    let ba = bv.len() > 0 && bv[0] == '/';
    if pa != ba {
        return None;
    }
    let cp = components_of(&pv);
    let cb = components_of(&bv);
    if cb.len() > cp.len() {
        return None;
    }
    let mut i: usize = 0;
    while i < cb.len()
        invariant
            i <= cb@.len() <= cp@.len(),
            views(cp@) == components(p@),
            views(cb@) == components(base@),
            forall|k: int| 0 <= k < i ==> views(cp@)[k] == views(cb@)[k],
        decreases cb@.len() - i,
    {
        assert(views(cp@)[i as int] == cp@[i as int]@);
        assert(views(cb@)[i as int] == cb@[i as int]@);
        if !crate::text::eq_chars(&cp[i], &cb[i]) {
            assert(views(cp@).take(cb@.len() as int)[i as int] != views(cb@)[i as int]);
            return None;
        }
        i = i + 1;
    }
    assert(views(cp@).take(cb@.len() as int) =~= views(cb@));
    let pieces = split_chars(&pv, '/');
    let ghost ps = views(pieces@);
    let k = cb.len();
    let fresh = k == 0 && !pa;
    // The pieces taken up by the matched components.
    let mut j: usize = 0;
    let mut cnt: usize = 0;
    while j < pieces.len() && cnt < k
        invariant
            j <= pieces@.len(),
            ps == views(pieces@),
            ps == split_spec(p@, '/'),
            cnt == kept(ps.take(j as int)).len(),
            pieces_for(ps, k as int, 0) == pieces_for(ps, k as int, j as int),
        decreases pieces@.len() - j,
    {
        assert(ps.take(j + 1).drop_last() =~= ps.take(j as int));
        assert(ps[j as int] == pieces@[j as int]@);
        let piece = &pieces[j];
        if piece.len() > 0 && (!is_single_dot(piece) || j == 0) {
            cnt = cnt + 1;
        }
        j = j + 1;
    }
    assert(pieces_for(ps, k as int, j as int) == j as int);
    // Skip separators and `.` pieces at the front, unless nothing was consumed.
    let mut s: usize = j;
    if !fresh {
        while s < pieces.len() && (pieces[s].len() == 0 || is_single_dot(&pieces[s]))
            invariant
                j <= s <= pieces@.len(),
                ps == views(pieces@),
                trim_front(ps.skip(j as int)) == trim_front(ps.skip(s as int)),
            decreases pieces@.len() - s,
        {
            assert(ps[s as int] == pieces@[s as int]@);
            assert(ps.skip(s as int)[0] == ps[s as int]);
            assert(ps.skip(s as int).drop_first() =~= ps.skip(s + 1));
            s = s + 1;
        }
        if s < pieces.len() {
            assert(ps.skip(s as int)[0] == pieces@[s as int]@);
        }
        assert(trim_front(ps.skip(s as int)) == ps.skip(s as int));
    }
    let floor: usize = if fresh { 1 } else { 0 };
    // Skip separators and `.` pieces at the back.
    let mut e: usize = pieces.len();
    assert(ps.subrange(s as int, e as int) =~= ps.skip(s as int));
    while e - s > floor && (pieces[e - 1].len() == 0 || is_single_dot(&pieces[e - 1]))
        invariant
            s <= e <= pieces@.len(),
            ps == views(pieces@),
            trim_back(ps.skip(s as int), floor as int) == trim_back(
                ps.subrange(s as int, e as int),
                floor as int,
            ),
        decreases e,
    {
        assert(ps[e - 1] == pieces@[e - 1]@);
        assert(ps.subrange(s as int, e as int).last() == ps[e - 1]);
        assert(ps.subrange(s as int, e as int).drop_last() =~= ps.subrange(s as int, e - 1));
        e = e - 1;
    }
    if e - s > floor {
        assert(ps[e - 1] == pieces@[e - 1]@);
        assert(ps.subrange(s as int, e as int).last() == ps[e - 1]);
    }
    assert(trim_back(ps.subrange(s as int, e as int), floor as int) == ps.subrange(s as int, e as int));
    let mut rest: Vec<Vec<char>> = Vec::new();
    let mut i = s;
    while i < e
        invariant
            s <= i <= e <= pieces@.len(),
            ps == views(pieces@),
            views(rest@) == ps.subrange(s as int, i as int),
        decreases e - i,
    {
        let ghost before = views(rest@);
        let piece = pieces[i].clone();
        assert(piece@ == ps[i as int]);
        let ghost pc = piece@;
        rest.push(piece);
        assert(views(rest@) =~= before.push(pc));
        i = i + 1;
        assert(views(rest@) =~= ps.subrange(s as int, i as int));
    }
    if fresh {
        assert(ps.skip(j as int) =~= ps.skip(s as int));
    }
    let r = rebuild_chars(false, &rest);
    Some(string_from(&r))
}

/// Whether `base` begins `p` component by component, as `Path::starts_with` tells.
pub fn starts_with(p: &str, base: &str) -> (r: bool)
    ensures
        r == strip_prefix_spec(p@, base@) is Some,
{
    strip_prefix(p, base).is_some()
}


/// A piece that stands as a component wherever it is: non-empty, not `.`, and
/// without a slash.
pub open spec fn plain_component(x: Seq<char>) -> bool {
    x.len() > 0 && x != seq!['.'] && !x.contains('/')
}

/// The pieces of a split never hold the separator.
pub proof fn lemma_split_no_sep(s: Seq<char>, sep: char)
    ensures
        forall|k: int|
            0 <= k < split_spec(s, sep).len() ==> !(#[trigger] split_spec(s, sep)[k]).contains(sep),
    decreases s.len(),
{
    if s.len() > 0 {
        lemma_split_no_sep(s.drop_last(), sep);
        lemma_split_len(s.drop_last(), sep);
        let prev = split_spec(s.drop_last(), sep);
        if s.last() != sep {
            let y = prev.last().push(s.last());
            if y.contains(sep) {
                let i = choose|i: int| 0 <= i < y.len() && y[i] == sep;
                assert(prev.last()[i] == sep);
                assert(prev.last().contains(sep));
                assert(prev[prev.len() - 1].contains(sep));
            }
        }
    }
}

/// Components are non-empty, free of slashes, and `.` only as the first.
proof fn lemma_kept_props(pieces: Seq<Seq<char>>, sep: char)
    requires
        forall|j: int| 0 <= j < pieces.len() ==> !(#[trigger] pieces[j]).contains(sep),
    ensures
        kept(pieces).len() <= pieces.len(),
        forall|k: int|
            0 <= k < kept(pieces).len() ==> (#[trigger] kept(pieces)[k]).len() > 0 && !kept(
                pieces,
            )[k].contains(sep) && (kept(pieces)[k] == seq!['.'] ==> k == 0),
    decreases pieces.len(),
{
    if pieces.len() > 0 {
        let d = pieces.drop_last();
        assert forall|j: int| 0 <= j < d.len() implies !(#[trigger] d[j]).contains(sep) by {
            assert(d[j] == pieces[j]);
        }
        lemma_kept_props(d, sep);
        assert(!pieces[pieces.len() - 1].contains(sep));
    }
}

proof fn lemma_split_append_piece(s: Seq<char>, piece: Seq<char>, sep: char)
    requires
        !piece.contains(sep),
    ensures
        split_spec(s + seq![sep] + piece, sep) == split_spec(s, sep).push(piece),
    decreases piece.len(),
{
    let t = s + seq![sep] + piece;
    if piece.len() == 0 {
        assert(t =~= s.push(sep));
        assert(t.last() == sep);
        assert(t.drop_last() =~= s);
        assert(piece =~= Seq::<char>::empty());
    } else {
        assert(t.last() == piece.last());
        let pd = piece.drop_last();
        assert(piece[piece.len() - 1] != sep);
        assert(!pd.contains(sep)) by {
            if pd.contains(sep) {
                let i = choose|i: int| 0 <= i < pd.len() && pd[i] == sep;
                assert(piece[i] == sep);
            }
        }
        assert(t.drop_last() =~= s + seq![sep] + pd);
        lemma_split_append_piece(s, pd, sep);
        lemma_split_len(s, sep);
        assert(pd.push(piece.last()) =~= piece);
        assert(split_spec(t, sep) =~= split_spec(s, sep).push(piece));
    }
}

proof fn lemma_split_single(piece: Seq<char>, sep: char)
    requires
        !piece.contains(sep),
    ensures
        split_spec(piece, sep) == seq![piece],
    decreases piece.len(),
{
    if piece.len() == 0 {
        assert(piece =~= Seq::<char>::empty());
    } else {
        let pd = piece.drop_last();
        assert(piece[piece.len() - 1] != sep);
        assert(!pd.contains(sep)) by {
            if pd.contains(sep) {
                let i = choose|i: int| 0 <= i < pd.len() && pd[i] == sep;
                assert(piece[i] == sep);
            }
        }
        lemma_split_single(pd, sep);
        assert(pd.push(piece.last()) =~= piece);
        assert(split_spec(piece, sep) =~= seq![piece]);
    }
}

proof fn lemma_split_join_all(c: Seq<Seq<char>>)
    requires
        c.len() > 0,
        forall|k: int| 0 <= k < c.len() ==> !(#[trigger] c[k]).contains('/'),
    ensures
        split_spec(join_all(c), '/') == c,
    decreases c.len(),
{
    if c.len() == 1 {
        lemma_split_single(c[0], '/');
        assert(seq![c[0]] =~= c);
    } else {
        let d = c.drop_last();
        assert forall|k: int| 0 <= k < d.len() implies !(#[trigger] d[k]).contains('/') by {
            assert(d[k] == c[k]);
        }
        lemma_split_join_all(d);
        assert(!c[c.len() - 1].contains('/'));
        lemma_split_append_piece(join_all(d), c.last(), '/');
        assert(d.push(c.last()) =~= c);
    }
}

proof fn lemma_split_slash_join(c: Seq<Seq<char>>)
    requires
        c.len() > 0,
        forall|k: int| 0 <= k < c.len() ==> !(#[trigger] c[k]).contains('/'),
    ensures
        split_spec(seq!['/'] + join_all(c), '/') == seq![Seq::<char>::empty()] + c,
    decreases c.len(),
{
    if c.len() == 1 {
        assert(!c[0].contains('/'));
        assert(seq!['/'] + join_all(c) =~= Seq::<char>::empty() + seq!['/'] + c[0]);
        lemma_split_append_piece(Seq::empty(), c[0], '/');
        assert(split_spec(Seq::<char>::empty(), '/') == seq![Seq::<char>::empty()]);
        assert(seq![Seq::<char>::empty()].push(c[0]) =~= seq![Seq::<char>::empty()] + c);
    } else {
        let d = c.drop_last();
        assert forall|k: int| 0 <= k < d.len() implies !(#[trigger] d[k]).contains('/') by {
            assert(d[k] == c[k]);
        }
        lemma_split_slash_join(d);
        assert(!c[c.len() - 1].contains('/'));
        assert(seq!['/'] + join_all(c) =~= (seq!['/'] + join_all(d)) + seq!['/'] + c.last());
        lemma_split_append_piece(seq!['/'] + join_all(d), c.last(), '/');
        assert((seq![Seq::<char>::empty()] + d).push(c.last()) =~= seq![Seq::<char>::empty()] + c);
    }
}

proof fn lemma_kept_all(c: Seq<Seq<char>>)
    requires
        forall|k: int| 0 <= k < c.len() ==> plain_component(#[trigger] c[k]),
    ensures
        kept(c) == c,
    decreases c.len(),
{
    if c.len() > 0 {
        let d = c.drop_last();
        assert forall|k: int| 0 <= k < d.len() implies plain_component(#[trigger] d[k]) by {
            assert(d[k] == c[k]);
        }
        lemma_kept_all(d);
        assert(plain_component(c[c.len() - 1]));
        assert(d.push(c.last()) =~= c);
    }
}

proof fn lemma_kept_lead_empty(c: Seq<Seq<char>>)
    requires
        forall|k: int| 0 <= k < c.len() ==> plain_component(#[trigger] c[k]),
    ensures
        kept(seq![Seq::<char>::empty()] + c) == c,
    decreases c.len(),
{
    let x = seq![Seq::<char>::empty()] + c;
    if c.len() == 0 {
        assert(x.drop_last() =~= Seq::<Seq<char>>::empty());
        assert(kept(Seq::<Seq<char>>::empty()) == Seq::<Seq<char>>::empty());
        assert(c =~= Seq::<Seq<char>>::empty());
    } else {
        let d = c.drop_last();
        assert forall|k: int| 0 <= k < d.len() implies plain_component(#[trigger] d[k]) by {
            assert(d[k] == c[k]);
        }
        lemma_kept_lead_empty(d);
        assert(x.drop_last() =~= seq![Seq::<char>::empty()] + d);
        assert(x.last() == c[c.len() - 1]);
        assert(plain_component(c[c.len() - 1]));
        assert(d.push(c.last()) =~= c);
    }
}

/// Rebuilding a path from plain components and splitting it again gives the same
/// components.
pub proof fn lemma_components_rebuild(abs: bool, c: Seq<Seq<char>>)
    requires
        forall|k: int| 0 <= k < c.len() ==> plain_component(#[trigger] c[k]),
    ensures
        components(rebuild(abs, c)) == c,
{
    assert forall|k: int| 0 <= k < c.len() implies !(#[trigger] c[k]).contains('/') by {
        assert(plain_component(c[k]));
    }
    if c.len() == 0 {
        let e = Seq::<char>::empty();
        let none = Seq::<Seq<char>>::empty();
        assert(c =~= none);
        assert(kept(none) == none);
        assert(split_spec(e, '/') == seq![e]);
        assert(seq![e].drop_last() =~= none);
        assert(kept(seq![e]) == none);
        if abs {
            assert(rebuild(abs, c) =~= seq!['/']);
            assert(seq!['/'].drop_last() =~= e);
            assert(split_spec(seq!['/'], '/') == seq![e].push(e));
            assert(seq![e].push(e).drop_last() =~= seq![e]);
            assert(kept(seq![e].push(e)) == none);
        } else {
            assert(rebuild(abs, c) =~= e);
        }
    } else if abs {
        lemma_split_slash_join(c);
        lemma_kept_lead_empty(c);
    } else {
        lemma_split_join_all(c);
        lemma_kept_all(c);
    }
}

/// The components of a path are non-empty and free of slashes, and only the first
/// may be `.`.
pub proof fn lemma_components_shape(p: Seq<char>)
    ensures
        forall|k: int|
            0 <= k < components(p).len() ==> (#[trigger] components(p)[k]).len() > 0
                && !components(p)[k].contains('/') && (components(p)[k] == seq!['.'] ==> k == 0),
{
    lemma_split_no_sep(p, '/');
    lemma_kept_props(split_spec(p, '/'), '/');
}

} // verus!
