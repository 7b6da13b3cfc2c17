//! The user's consent to uploading files.
use vstd::prelude::*;
use crate::text::{ascii_lower_seq, ascii_lowercase_chars, chars_of, eq_str, string_from, trim, trim_chars};

verus! {

/// An answer to a yes/no question.
#[derive(Clone, Copy, Debug, PartialEq, Eq, Structural)]
pub enum Answer {
    Yes,
    No,
    /// Neither: the question is asked again.
    Unclear,
}

/// The answer that a reply gives: `yes`/`y` or `no`/`n`, in any ASCII case and
/// with surrounding whitespace ignored.
pub open spec fn answer_spec(input: Seq<char>) -> Answer {
    let t = ascii_lower_seq(trim(input));
    if t == "yes"@ || t == "y"@ {
        Answer::Yes
    } else if t == "no"@ || t == "n"@ {
        Answer::No
    } else {
        Answer::Unclear
    }
}

/// A reply is read after trimming its surrounding whitespace and lower-casing its
/// ASCII letters: `yes` and `y` consent, `no` and `n` refuse, and anything else is
/// unclear, so that the question is asked again.
pub proof fn lemma_answer_words(input: Seq<char>)
    ensures
        ascii_lower_seq(trim(input)) == seq!['y', 'e', 's'] ==> answer_spec(input) == Answer::Yes,
        ascii_lower_seq(trim(input)) == seq!['y'] ==> answer_spec(input) == Answer::Yes,
        ascii_lower_seq(trim(input)) == seq!['n', 'o'] ==> answer_spec(input) == Answer::No,
        ascii_lower_seq(trim(input)) == seq!['n'] ==> answer_spec(input) == Answer::No,
        ascii_lower_seq(trim(input)) != seq!['y', 'e', 's'] && ascii_lower_seq(trim(input)) != seq![
            'y',
        ] && ascii_lower_seq(trim(input)) != seq!['n', 'o'] && ascii_lower_seq(trim(input)) != seq![
            'n',
        ] ==> answer_spec(input) == Answer::Unclear,
{
    reveal_strlit("yes");
    reveal_strlit("y");
    reveal_strlit("no");
    reveal_strlit("n");
    assert("yes"@ =~= seq!['y', 'e', 's']);
    assert("y"@ =~= seq!['y']);
    assert("no"@ =~= seq!['n', 'o']);
    assert("n"@ =~= seq!['n']);
    let t = ascii_lower_seq(trim(input));
    if t == seq!['n'] {
        assert(t != "yes"@);
        assert(t[0] != "y"@[0]);
        assert(t != "y"@);
        assert(t == "n"@);
    }
}

/// Reads a reply to a yes/no question.
pub fn parse_answer(input: &str) -> (r: Answer)
    ensures
        r == answer_spec(input@),
        ascii_lower_seq(trim(input@)) == seq!['n', 'o'] ==> r == Answer::No,
        ascii_lower_seq(trim(input@)) == seq!['y', 'e', 's'] ==> r == Answer::Yes,
{
    proof {
        lemma_answer_words(input@);
    }
    let t = ascii_lowercase_chars(&trim_chars(&chars_of(input)));
    if eq_str(&t, "yes") || eq_str(&t, "y") {
        Answer::Yes
    } else if eq_str(&t, "no") || eq_str(&t, "n") {
        Answer::No
    } else {
        Answer::Unclear
    }
}


/// Whether `a` comes no later than `b` in the order of their characters' code
/// points, the order in which `str` values compare.
pub open spec fn lex_le(a: Seq<char>, b: Seq<char>) -> bool
    decreases a.len(),
{
    if a.len() == 0 {
        true
    } else if b.len() == 0 {
        false
    } else if a[0] != b[0] {
        a[0] < b[0]
    } else {
        lex_le(a.drop_first(), b.drop_first())
    }
}

proof fn lemma_lex_total(a: Seq<char>, b: Seq<char>)
    ensures
        lex_le(a, b) || lex_le(b, a),
    decreases a.len(),
{
    if a.len() > 0 && b.len() > 0 && a[0] == b[0] {
        lemma_lex_total(a.drop_first(), b.drop_first());
    }
}

proof fn lemma_lex_trans(a: Seq<char>, b: Seq<char>, c: Seq<char>)
    requires
        lex_le(a, b),
        lex_le(b, c),
    ensures
        lex_le(a, c),
    decreases a.len(),
{
    if a.len() > 0 && b.len() > 0 && c.len() > 0 && a[0] == b[0] && b[0] == c[0] {
        lemma_lex_trans(a.drop_first(), b.drop_first(), c.drop_first());
    }
}

/// Whether the sequence is in `lex_le` order.
pub open spec fn lex_sorted(s: Seq<Seq<char>>) -> bool {
    forall|i: int, j: int| 0 <= i < j < s.len() ==> lex_le(#[trigger] s[i], #[trigger] s[j])
}

fn lex_le_exec(a: &[char], b: &[char]) -> (r: bool)
    ensures
        r == lex_le(a@, b@),
{
    let mut i: usize = 0;
    assert(a@.skip(0) =~= a@);
    assert(b@.skip(0) =~= b@);
    while i < a.len() && i < b.len() && a[i] == b[i]
        invariant
            i <= a@.len(),
            i <= b@.len(),
            lex_le(a@, b@) == lex_le(a@.skip(i as int), b@.skip(i as int)),
        decreases a@.len() - i,
    {
        assert(a@.skip(i as int).drop_first() =~= a@.skip(i + 1));
        assert(b@.skip(i as int).drop_first() =~= b@.skip(i + 1));
        i = i + 1;
    }
    if i == a.len() {
        assert(a@.skip(i as int).len() == 0);
        true
    } else if i == b.len() {
        assert(b@.skip(i as int).len() == 0);
        false
    } else {
        assert(a@.skip(i as int)[0] == a@[i as int]);
        assert(b@.skip(i as int)[0] == b@[i as int]);
        a[i] < b[i]
    }
}

/// The views of a sequence of strings.
pub open spec fn str_views(v: Seq<String>) -> Seq<Seq<char>> {
    v.map_values(|x: String| x@)
}

/// The files in the order in which the consent prompt lists them: sorted by their
/// text, as `str` values compare, holding the same names as before.
pub fn sort_paths(files: &Vec<String>) -> (r: Vec<String>)
    ensures
        lex_sorted(str_views(r@)),
        str_views(r@).to_multiset() == str_views(files@).to_multiset(),
{
    let mut out: Vec<String> = Vec::new();
    let mut i: usize = 0;
    assert(str_views(files@.take(0)) =~= str_views(out@));
    while i < files.len()
        invariant
            i <= files@.len(),
            lex_sorted(str_views(out@)),
            str_views(out@).to_multiset() == str_views(files@.take(i as int)).to_multiset(),
        decreases files@.len() - i,
    {
        let f = chars_of(files[i].as_str());
        let mut k: usize = 0;
        while k < out.len() && lex_le_exec(&chars_of(out[k].as_str()), &f)
            invariant
                k <= out@.len(),
                f@ == files@[i as int]@,
                forall|m: int| 0 <= m < k ==> lex_le(#[trigger] str_views(out@)[m], f@),
            decreases out@.len() - k,
        {
            assert(str_views(out@)[k as int] == out@[k as int]@);
            k = k + 1;
        }
        let ghost before = str_views(out@);
        proof {
            if k < before.len() {
                assert(!lex_le(before[k as int], f@));
                assert forall|m: int| k <= m < before.len() implies lex_le(f@, #[trigger] before[m]) by {
                    if lex_le(before[m], f@) {
                        if m > k {
                            lemma_lex_trans(before[k as int], before[m], f@);
                        }
                    }
                    lemma_lex_total(before[m], f@);
                }
            }
        }
        out.insert(k, string_from(&f));
        assert(str_views(out@) =~= before.insert(k as int, f@));
        assert forall|a: int, b: int| 0 <= a < b < str_views(out@).len() implies lex_le(
            #[trigger] str_views(out@)[a],
            #[trigger] str_views(out@)[b],
        ) by {
            let v = str_views(out@);
            if b < k {
                assert(v[a] == before[a] && v[b] == before[b]);
            } else if b == k {
                assert(v[a] == before[a]);
            } else if a < k {
                assert(v[a] == before[a] && v[b] == before[b - 1]);
                lemma_lex_trans(before[a], f@, before[b - 1]);
            } else if a == k {
                assert(v[b] == before[b - 1]);
            } else {
                assert(v[a] == before[a - 1] && v[b] == before[b - 1]);
            }
        }
        assert(str_views(files@.take(i + 1)) =~= str_views(files@.take(i as int)).push(f@));
        proof {
            vstd::seq_lib::to_multiset_build(str_views(files@.take(i as int)), f@);
            vstd::seq_lib::to_multiset_insert(before, k as int, f@);
        }
        i = i + 1;
    }
    assert(files@.take(files@.len() as int) =~= files@);
    out
}

} // verus!
