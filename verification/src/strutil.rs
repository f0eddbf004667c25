//! Verified substring replacement, used to substitute the release version
//! into a repository's metalink template.

use vstd::prelude::*;
use vstd::string::*;

verus! {

/// Replace every occurrence of `pat` in `s` with `rep`, scanning left to
/// right; replaced text is never rescanned.  An empty pattern leaves `s`
/// unchanged.
pub open spec fn replace_all(s: Seq<char>, pat: Seq<char>, rep: Seq<char>) -> Seq<char>
    decreases s.len(),
{
    if pat.len() == 0 || s.len() < pat.len() {
        s
    } else if s.subrange(0, pat.len() as int) == pat {
        rep + replace_all(s.skip(pat.len() as int), pat, rep)
    } else {
        seq![s[0]] + replace_all(s.skip(1), pat, rep)
    }
}

/// True when the characters of `pat` appear in `s` starting at `at`.
pub(crate) fn matches_at(s: &str, pat: &str, at: usize) -> (r: bool)
    requires
        at + pat@.len() <= s@.len(),
        s@.len() <= usize::MAX,
    ensures
        r == (s@.subrange(at as int, at as int + pat@.len() as int) == pat@),
{
    let pat_len = pat.unicode_len();
    let mut j: usize = 0;
    while j < pat_len
        invariant
            0 <= j <= pat_len,
            pat_len == pat@.len(),
            at + pat@.len() <= s@.len() <= usize::MAX,
            forall|k: int| 0 <= k < j ==> s@[at + k] == pat@[k],
        decreases pat_len - j,
    {
        if s.get_char(at + j) != pat.get_char(j) {
            proof {
                assert(s@.subrange(at as int, at as int + pat@.len() as int)[j as int] != pat@[j as int]);
            }
            return false;
        }
        j = j + 1;
    }
    proof {
        assert(s@.subrange(at as int, at as int + pat@.len() as int) =~= pat@);
    }
    true
}

/// Returns `s` with every occurrence of `pat` replaced by `rep`.
pub fn str_replace(s: &str, pat: &str, rep: &str) -> (r: String)
    ensures
        r@ == replace_all(s@, pat@, rep@),
{
    let s_len = s.unicode_len();
    let pat_len = pat.unicode_len();
    if pat_len == 0 {
        return s.to_owned();
    }
    let mut out = String::new();
    let mut i: usize = 0;
    proof {
        assert(s@.skip(0) =~= s@);
        assert(out@ + replace_all(s@, pat@, rep@) =~= replace_all(s@, pat@, rep@));
    }
    while i < s_len
        invariant
            0 <= i <= s_len,
            s_len == s@.len(),
            pat_len == pat@.len(),
            pat_len >= 1,
            out@ + replace_all(s@.skip(i as int), pat@, rep@) == replace_all(s@, pat@, rep@),
        decreases s_len - i,
    {
        let ghost tail = s@.skip(i as int);
        if pat_len <= s_len - i && matches_at(s, pat, i) {
            out.append(rep);
            proof {
                assert(tail.subrange(0, pat@.len() as int) =~= s@.subrange(
                    i as int,
                    i as int + pat@.len() as int,
                ));
                assert(tail.skip(pat@.len() as int) =~= s@.skip(i as int + pat@.len() as int));
                assert(replace_all(tail, pat@, rep@) == rep@ + replace_all(
                    s@.skip(i as int + pat@.len() as int),
                    pat@,
                    rep@,
                ));
                assert(out@ + replace_all(s@.skip(i as int + pat@.len() as int), pat@, rep@)
                    =~= replace_all(s@, pat@, rep@));
            }
            i = i + pat_len;
        } else if pat_len <= s_len - i {
            let piece = s.substring_char(i, i + 1);
            out.append(piece);
            proof {
                assert(piece@ =~= seq![s@[i as int]]);
                assert(tail.subrange(0, pat@.len() as int) =~= s@.subrange(
                    i as int,
                    i as int + pat@.len() as int,
                ));
                assert(tail.subrange(0, pat@.len() as int) != pat@);
                assert(tail[0] == s@[i as int]);
                assert(tail.skip(1) =~= s@.skip(i as int + 1));
                assert(replace_all(tail, pat@, rep@) == seq![s@[i as int]] + replace_all(
                    s@.skip(i as int + 1),
                    pat@,
                    rep@,
                ));
                assert(out@ + replace_all(s@.skip(i as int + 1), pat@, rep@) =~= replace_all(
                    s@,
                    pat@,
                    rep@,
                ));
            }
            i = i + 1;
        } else {
            let piece = s.substring_char(i, s_len);
            out.append(piece);
            proof {
                assert(piece@ =~= tail);
                assert(tail.len() < pat@.len());
                assert(replace_all(tail, pat@, rep@) == tail);
                assert(s@.skip(s_len as int) =~= Seq::<char>::empty());
                assert(replace_all(Seq::<char>::empty(), pat@, rep@) =~= Seq::<char>::empty());
                assert(out@ + Seq::<char>::empty() =~= out@);
                assert(out@ + replace_all(s@.skip(s_len as int), pat@, rep@) =~= replace_all(
                    s@,
                    pat@,
                    rep@,
                ));
            }
            i = s_len;
        }
    }
    proof {
        assert(s@.skip(s_len as int) =~= Seq::<char>::empty());
        assert(replace_all(Seq::<char>::empty(), pat@, rep@) =~= Seq::<char>::empty());
        assert(out@ =~= out@ + Seq::<char>::empty());
    }
    out
}

/// The lines of `s`, split at every newline character, with `cur` the text
/// already read of the line in progress.  Every character lands in exactly
/// one line; a trailing newline yields a final empty line.
pub open spec fn split_rec(s: Seq<char>, cur: Seq<char>) -> Seq<Seq<char>>
    decreases s.len(),
{
    if s.len() == 0 {
        seq![cur]
    } else if s[0] == '\n' {
        seq![cur] + split_rec(s.skip(1), Seq::empty())
    } else {
        split_rec(s.skip(1), cur.push(s[0]))
    }
}

/// The lines of `s`, split at every newline character.
pub open spec fn spec_lines(s: Seq<char>) -> Seq<Seq<char>> {
    split_rec(s, Seq::empty())
}

/// Splits `s` into its lines.
pub fn split_lines(s: &str) -> (r: Vec<String>)
    ensures
        r@.map_values(|l: String| l@) == spec_lines(s@),
{
    let s_len = s.unicode_len();
    let mut out: Vec<String> = Vec::new();
    let mut cur = String::new();
    let mut i: usize = 0;
    proof {
        assert(s@.skip(0) =~= s@);
        assert(out@.map_values(|l: String| l@) =~= Seq::<Seq<char>>::empty());
        assert(Seq::<Seq<char>>::empty() + split_rec(s@, Seq::empty()) =~= split_rec(
            s@,
            Seq::empty(),
        ));
    }
    while i < s_len
        invariant
            0 <= i <= s_len,
            s_len == s@.len(),
            out@.map_values(|l: String| l@) + split_rec(s@.skip(i as int), cur@) == spec_lines(
                s@,
            ),
        decreases s_len - i,
    {
        let ghost out_views = out@.map_values(|l: String| l@);
        let ghost cur_view = cur@;
        let ghost tail = s@.skip(i as int);
        let c = s.get_char(i);
        if c == '\n' {
            out.push(cur);
            cur = String::new();
            proof {
                assert(tail[0] == s@[i as int]);
                assert(tail.skip(1) =~= s@.skip(i as int + 1));
                assert(split_rec(tail, cur_view) == seq![cur_view] + split_rec(
                    s@.skip(i as int + 1),
                    Seq::empty(),
                ));
                assert(out@.map_values(|l: String| l@) =~= out_views.push(cur_view));
                assert(out_views.push(cur_view) + split_rec(s@.skip(i as int + 1), Seq::empty())
                    =~= out_views + (seq![cur_view] + split_rec(
                    s@.skip(i as int + 1),
                    Seq::empty(),
                )));
            }
        } else {
            let piece = s.substring_char(i, i + 1);
            cur.append(piece);
            proof {
                assert(tail[0] == s@[i as int]);
                assert(tail.skip(1) =~= s@.skip(i as int + 1));
                assert(cur@ =~= cur_view.push(s@[i as int]));
                assert(split_rec(tail, cur_view) == split_rec(
                    s@.skip(i as int + 1),
                    cur_view.push(s@[i as int]),
                ));
            }
        }
        i = i + 1;
    }
    proof {
        let ghost out_views = out@.map_values(|l: String| l@);
        assert(s@.skip(s_len as int) =~= Seq::<char>::empty());
        assert(split_rec(Seq::<char>::empty(), cur@) == seq![cur@]);
        assert(out_views + seq![cur@] =~= out_views.push(cur@));
    }
    out.push(cur);
    proof {
        assert(out@.map_values(|l: String| l@) =~= spec_lines(s@));
    }
    out
}

} // verus!
