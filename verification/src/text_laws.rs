//! What trimming, searching and joining texts do.
use vstd::prelude::*;
use crate::text::{
    blank, joined, lemma_blank_trims_to_nothing, occurs, occurs_at, trimmed, white_space, without_trailing_slashes,
};

verus! {

/// A text is blank exactly if every character that stands in it is white space.
pub proof fn law_blank_means_white_space(s: Seq<char>)
    ensures
        blank(s) <==> forall|c: char| #[trigger] s.contains(c) ==> white_space(c),
{
    if blank(s) {
        assert forall|c: char| #[trigger] s.contains(c) implies white_space(c) by {
            let i = choose|i: int| 0 <= i < s.len() && s[i] == c;
            assert(white_space(s[i]));
        }
    }
    if forall|c: char| #[trigger] s.contains(c) ==> white_space(c) {
        assert forall|i: int| 0 <= i < s.len() implies white_space(#[trigger] s[i]) by {
            assert(s.contains(s[i]));
        }
    }
}

/// Trimming takes white space away from both ends of a text, and all of it: what is left neither
/// begins nor ends with white space.
pub proof fn law_trimming_takes_white_space_away(s: Seq<char>) -> (r: (Seq<char>, Seq<char>))
    ensures
        s == r.0 + trimmed(s) + r.1,
        forall|c: char| #[trigger] r.0.contains(c) ==> white_space(c),
        forall|c: char| #[trigger] r.1.contains(c) ==> white_space(c),
        trimmed(s).len() > 0 ==> !white_space(trimmed(s)[0]) && !white_space(trimmed(s).last()),
    decreases s.len(),
{
    if s.len() == 0 {
        assert(s =~= s + trimmed(s) + s);
        (s, s)
    } else if white_space(s[0]) {
        let (a, b) = law_trimming_takes_white_space_away(s.drop_first());
        let c = seq![s[0]] + a;
        assert(s =~= seq![s[0]] + s.drop_first());
        assert(seq![s[0]] + (a + trimmed(s) + b) =~= c + trimmed(s) + b);
        assert forall|x: char| #[trigger] c.contains(x) implies white_space(x) by {
            let i = choose|i: int| 0 <= i < c.len() && c[i] == x;
            if i > 0 {
                assert(a[i - 1] == x);
                assert(a.contains(x));
            }
        }
        (c, b)
    } else if white_space(s.last()) {
        let (a, b) = law_trimming_takes_white_space_away(s.drop_last());
        let c = b.push(s.last());
        assert(s =~= s.drop_last().push(s.last()));
        assert((a + trimmed(s) + b).push(s.last()) =~= a + trimmed(s) + c);
        assert forall|x: char| #[trigger] c.contains(x) implies white_space(x) by {
            let i = choose|i: int| 0 <= i < c.len() && c[i] == x;
            if i < b.len() {
                assert(b[i] == x);
                assert(b.contains(x));
            }
        }
        (a, c)
    } else {
        let e = Seq::<char>::empty();
        assert(s =~= e + s + e);
        (e, e)
    }
}

/// A text trims to nothing exactly if it is blank.
pub proof fn law_only_blank_texts_trim_to_nothing(s: Seq<char>)
    ensures
        trimmed(s).len() == 0 <==> blank(s),
{
    lemma_blank_trims_to_nothing(s);
}

/// A pattern stands at a place of a text exactly if the text is what comes before that place, the
/// pattern, and what comes behind it.
pub proof fn law_where_a_pattern_stands(before: Seq<char>, pat: Seq<char>, after: Seq<char>, s: Seq<char>, i: int)
    ensures
        occurs_at(pat, before + pat + after, before.len() as int),
        occurs(pat, before + pat + after),
        occurs_at(pat, s, i) ==> 0 <= i <= s.len() - pat.len() && s == s.take(i) + pat + s.skip(
            i + pat.len(),
        ),
        occurs(pat, s) ==> exists|k: int| #[trigger] occurs_at(pat, s, k),
{
    let t = before + pat + after;
    let k = before.len() as int;
    assert(t.subrange(k, k + pat.len()) =~= pat);
    assert(occurs_at(pat, t, k));
    if occurs_at(pat, s, i) {
        assert(s =~= s.take(i) + s.subrange(i, i + pat.len()) + s.skip(i + pat.len()));
    }
}

/// A file lies inside its directory: the two names with one separator between them, whether the name
/// of the directory ends with one or not. Without a directory the name is left as it is.
pub proof fn law_paths_have_one_separator(dir: Seq<char>, name: Seq<char>)
    ensures
        joined(dir + "/"@, name) == dir + "/"@ + name,
        dir.len() > 0 && dir.last() != '/' ==> joined(dir, name) == dir + "/"@ + name,
        joined(Seq::empty(), name) == name,
{
    reveal_strlit("/");
    assert((dir + "/"@).last() == '/');
    assert(joined(dir + "/"@, name) =~= dir + "/"@ + name);
    if dir.len() > 0 && dir.last() != '/' {
        assert(joined(dir, name) =~= dir + "/"@ + name);
    }
    assert(joined(Seq::empty(), name) =~= name);
}

/// Slashes are taken away from the end of a text, and all of them; nothing else is.
pub proof fn law_slashes_are_taken_away(s: Seq<char>)
    ensures
        without_trailing_slashes(s).is_prefix_of(s),
        forall|i: int|
            without_trailing_slashes(s).len() <= i < s.len() ==> #[trigger] s[i] == '/',
        without_trailing_slashes(s).len() > 0 ==> without_trailing_slashes(s).last() != '/',
    decreases s.len(),
{
    if s.len() > 0 && s.last() == '/' {
        let d = s.drop_last();
        law_slashes_are_taken_away(d);
        assert forall|i: int| without_trailing_slashes(s).len() <= i < s.len() implies #[trigger] s[i]
            == '/' by {
            if i < d.len() {
                assert(d[i] == s[i]);
            }
        }
    }
}

} // verus!
