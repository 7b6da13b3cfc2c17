//! A generated file that may be removed again when the build no longer needs it.
use vstd::prelude::*;
use crate::paths::{
    components, components_of, is_absolute, lemma_components_rebuild, lemma_components_shape,
    plain_component, rebuild, rebuild_chars,
};
use crate::text::{chars_of, string_from, views};

verus! {

/// The path without a leading `.` component (the only place where one remains
/// among a path's components), as collecting its components other than
/// `Component::CurDir` gives it.
pub open spec fn without_cur_dir(p: Seq<char>) -> Seq<char> {
    let c = components(p);
    rebuild(
        is_absolute(p),
        if c.len() > 0 && c[0] == seq!['.'] {
            c.drop_first()
        } else {
            c
        },
    )
}

/// A generated file: its path, and whether it is to be removed once done with.
pub struct TempFile {
    cleanup: bool,
    path: String,
}

impl View for TempFile {
    type V = (bool, Seq<char>);

    closed spec fn view(&self) -> (bool, Seq<char>) {
        (self.cleanup, self.path@)
    }
}

impl TempFile {
    /// A generated file at `path`, kept with its `.` components dropped.
    pub fn new(cleanup: bool, path: &str) -> (t: TempFile)
        ensures
            t@ == (cleanup, without_cur_dir(path@)),
    {
        let v = chars_of(path);
        let c = components_of(&v);
        let abs = v.len() > 0 && v[0] == '/';
        let mut kept: Vec<Vec<char>> = Vec::new();
        let mut i: usize = 0;
        while i < c.len()
            invariant
                i <= c@.len(),
                views(c@) == components(path@),
                views(kept@) == (if c@.len() > 0 && views(c@)[0] == seq!['.'] {
                    views(c@).drop_first()
                } else {
                    views(c@)
                }).take(if c@.len() > 0 && views(c@)[0] == seq!['.'] && i > 0 {
                    i - 1
                } else {
                    i as int
                }),
            decreases c@.len() - i,
        {
            let ghost cv = views(c@);
            assert(cv[i as int] == c@[i as int]@);
            let skip = i == 0 && c[0].len() == 1 && c[0][0] == '.';
            assert(skip == (i == 0 && cv[0] == seq!['.'])) by {
                if i == 0 && c@[0]@.len() == 1 && c@[0]@[0] == '.' {
                    assert(c@[0]@ =~= seq!['.']);
                }
            }
            if !skip {
                let ghost before = views(kept@);
                let piece = c[i].clone();
                assert(piece@ == cv[i as int]);
                let ghost pv = piece@;
                kept.push(piece);
                assert(views(kept@) =~= before.push(pv));
            }
            i = i + 1;
            assert(views(kept@) =~= (if cv.len() > 0 && cv[0] == seq!['.'] {
                cv.drop_first()
            } else {
                cv
            }).take(if cv.len() > 0 && cv[0] == seq!['.'] && i > 0 {
                i - 1
            } else {
                i as int
            }));
        }
        let ghost cv = views(c@);
        assert(views(kept@) =~= if cv.len() > 0 && cv[0] == seq!['.'] {
            cv.drop_first()
        } else {
            cv
        });
        let r = rebuild_chars(abs, &kept);
        TempFile { cleanup, path: string_from(&r) }
    }

    /// The file's path.
    pub fn path(&self) -> (p: &String)
        ensures
            p@ == self@.1,
    {
        &self.path
    }

    /// Whether the file is to be removed once the build is done with it.
    pub fn cleanup(&self) -> (c: bool)
        ensures
            c == self@.0,
    {
        self.cleanup
    }
}


/// A generated file's path keeps the input's components in order and drops every
/// `.`: `.` can only be the first component of a path, and the kept path's
/// components are the input's without it, none of them `.`.
pub proof fn lemma_temp_path_components(p: Seq<char>)
    ensures
        forall|k: int| 0 < k < components(p).len() ==> #[trigger] components(p)[k] != seq!['.'],
        components(without_cur_dir(p)) == (if components(p).len() > 0 && components(p)[0]
            == seq!['.'] {
            components(p).drop_first()
        } else {
            components(p)
        }),
        forall|k: int|
            0 <= k < components(without_cur_dir(p)).len() ==> #[trigger] components(
                without_cur_dir(p),
            )[k] != seq!['.'],
{
    lemma_components_shape(p);
    let c = components(p);
    let d = if c.len() > 0 && c[0] == seq!['.'] {
        c.drop_first()
    } else {
        c
    };
    assert forall|k: int| 0 <= k < d.len() implies plain_component(#[trigger] d[k]) by {
        if c.len() > 0 && c[0] == seq!['.'] {
            assert(d[k] == c[k + 1]);
        } else {
            assert(d[k] == c[k]);
            if k == 0 {
                assert(c[0] != seq!['.']);
            }
        }
    }
    lemma_components_rebuild(is_absolute(p), d);
}

} // verus!
