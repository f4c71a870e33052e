//! What lists of files to join mean to the tool that reads them.
use vstd::prelude::*;
use crate::audio::list_text;
use crate::text::{escaped, quoted_char};

verus! {

/// A word as the tool reads it: inside quotes every character stands for itself, outside a backslash
/// takes the next character as it is.
pub open spec fn read_word(s: Seq<char>, quoted: bool) -> Seq<char>
    decreases s.len(),
{
    if s.len() == 0 {
        s
    } else if s[0] == '\'' {
        read_word(s.drop_first(), !quoted)
    } else if !quoted && s[0] == '\\' && s.len() > 1 {
        seq![s[1]] + read_word(s.skip(2), quoted)
    } else {
        seq![s[0]] + read_word(s.drop_first(), quoted)
    }
}

/// A text as a word.
pub open spec fn word(s: Seq<char>) -> Seq<char> {
    seq!['\''] + escaped(s) + seq!['\'']
}

proof fn lemma_read_quoted_char(c: char, rest: Seq<char>)
    ensures
        read_word(quoted_char(c) + rest, true) == seq![c] + read_word(rest, true),
{
    let s = quoted_char(c) + rest;
    if c == '\'' {
        let a = s.drop_first();
        let b = a.skip(2);
        assert(s[0] == '\'' && a[0] == '\\' && a[1] == '\'' && b[0] == '\'');
        assert(b.drop_first() =~= rest);
        assert(read_word(s, true) == read_word(a, false));
        assert(read_word(a, false) == seq!['\''] + read_word(b, false));
        assert(read_word(b, false) == read_word(rest, true));
    } else {
        assert(s[0] == c);
        assert(s.drop_first() =~= rest);
    }
}

proof fn lemma_read_escaped(s: Seq<char>, rest: Seq<char>)
    ensures
        read_word(escaped(s) + rest, true) == s + read_word(rest, true),
    decreases s.len(),
{
    if s.len() == 0 {
        assert(escaped(s) + rest =~= rest);
        assert(s + read_word(rest, true) =~= read_word(rest, true));
    } else {
        let d = s.drop_last();
        let c = s.last();
        assert(escaped(s) + rest =~= escaped(d) + (quoted_char(c) + rest));
        lemma_read_escaped(d, quoted_char(c) + rest);
        lemma_read_quoted_char(c, rest);
        assert(d + (seq![c] + read_word(rest, true)) =~= s + read_word(rest, true));
    }
}

/// A text written as a word is read as that text, whatever quotes and backslashes it holds.
pub proof fn law_words_are_read_back(s: Seq<char>)
    ensures
        read_word(word(s), false) == s,
{
    let end = seq!['\''];
    let w = word(s);
    assert(w[0] == '\'');
    assert(w.drop_first() =~= escaped(s) + end);
    lemma_read_escaped(s, end);
    assert(end.drop_first() =~= Seq::<char>::empty());
    assert(read_word(end, true) =~= Seq::<char>::empty()) by {
        reveal_with_fuel(read_word, 2);
    }
    assert(s + Seq::<char>::empty() =~= s);
}

/// The characters up to the end of the first line.
pub open spec fn first_line(s: Seq<char>) -> Seq<char>
    decreases s.len(),
{
    if s.len() == 0 || s[0] == '\n' {
        Seq::empty()
    } else {
        seq![s[0]] + first_line(s.drop_first())
    }
}

/// The lines of a text.
pub open spec fn lines(s: Seq<char>) -> Seq<Seq<char>>
    decreases s.len(),
{
    if s.len() == 0 {
        Seq::empty()
    } else {
        let line = first_line(s);
        if line.len() < s.len() {
            seq![line] + lines(s.skip(line.len() as int + 1))
        } else {
            seq![line]
        }
    }
}

/// The line of a file in a list.
pub open spec fn file_line(file: Seq<char>) -> Seq<char> {
    "file "@ + word(file)
}

/// The text is a single line.
pub open spec fn one_line(s: Seq<char>) -> bool {
    forall|i: int| 0 <= i < s.len() ==> #[trigger] s[i] != '\n'
}

proof fn lemma_first_line(line: Seq<char>, rest: Seq<char>)
    requires
        one_line(line),
    ensures
        first_line(line + seq!['\n'] + rest) == line,
    decreases line.len(),
{
    let s = line + seq!['\n'] + rest;
    if line.len() == 0 {
        assert(s[0] == '\n');
        assert(line =~= Seq::<char>::empty());
    } else {
        let l = line.drop_first();
        assert(s[0] == line[0]);
        assert forall|i: int| 0 <= i < l.len() implies #[trigger] l[i] != '\n' by {
            assert(l[i] == line[i + 1]);
        }
        lemma_first_line(l, rest);
        assert(s.drop_first() =~= l + seq!['\n'] + rest);
        assert(seq![line[0]] + l =~= line);
    }
}

proof fn lemma_escaped_one_line(s: Seq<char>)
    requires
        one_line(s),
    ensures
        one_line(escaped(s)),
    decreases s.len(),
{
    if s.len() > 0 {
        let d = s.drop_last();
        assert forall|i: int| 0 <= i < d.len() implies #[trigger] d[i] != '\n' by {
            assert(d[i] == s[i]);
        }
        lemma_escaped_one_line(d);
        assert(s[s.len() - 1] != '\n');
        let q = quoted_char(s.last());
        assert forall|i: int| 0 <= i < escaped(s).len() implies #[trigger] escaped(s)[i] != '\n' by {
            if i < escaped(d).len() {
                assert(escaped(s)[i] == escaped(d)[i]);
            } else {
                assert(escaped(s)[i] == q[i - escaped(d).len()]);
            }
        }
    }
}

proof fn lemma_file_line(file: Seq<char>)
    requires
        one_line(file),
    ensures
        one_line(file_line(file)),
        "file '"@ + escaped(file) + "'\n"@ == file_line(file) + seq!['\n'],
{
    reveal_strlit("file ");
    reveal_strlit("file '");
    reveal_strlit("'\n");
    lemma_escaped_one_line(file);
    assert("file '"@ + escaped(file) + "'\n"@ =~= file_line(file) + seq!['\n']);
    let e = escaped(file);
    assert forall|i: int| 0 <= i < file_line(file).len() implies #[trigger] file_line(file)[i]
        != '\n' by {
        if 6 <= i < 6 + e.len() {
            assert(file_line(file)[i] == e[i - 6]);
        }
    }
}

proof fn lemma_lines_of_list(files: Seq<Seq<char>>, rest: Seq<char>)
    requires
        forall|i: int| 0 <= i < files.len() ==> one_line(#[trigger] files[i]),
    ensures
        lines(list_text(files) + rest) == Seq::new(files.len(), |i: int| file_line(files[i]))
            + lines(rest),
    decreases files.len(),
{
    let all = Seq::new(files.len(), |i: int| file_line(files[i]));
    if files.len() == 0 {
        assert(list_text(files) + rest =~= rest);
        assert(all + lines(rest) =~= lines(rest));
    } else {
        let d = files.drop_last();
        let f = files.last();
        let line = file_line(f);
        let tail = line + seq!['\n'] + rest;
        assert(one_line(files[files.len() - 1]));
        assert forall|i: int| 0 <= i < d.len() implies one_line(#[trigger] d[i]) by {
            assert(d[i] == files[i]);
        }
        lemma_file_line(f);
        lemma_first_line(line, rest);
        lemma_lines_of_list(d, tail);
        assert(list_text(files) + rest =~= list_text(d) + tail);
        assert(tail.skip(line.len() as int + 1) =~= rest);
        assert(lines(tail) == seq![line] + lines(rest));
        let before = Seq::new(d.len(), |i: int| file_line(d[i]));
        assert(before + (seq![line] + lines(rest)) =~= all + lines(rest));
    }
}

/// A list has one line for each file, in their order, and the word on it is read as the name of the
/// file. Names that hold the end of a line cannot be listed.
pub proof fn law_lists_name_their_files(files: Seq<Seq<char>>, i: int)
    requires
        forall|k: int| 0 <= k < files.len() ==> one_line(#[trigger] files[k]),
    ensures
        lines(list_text(files)).len() == files.len(),
        0 <= i < files.len() ==> {
            &&& lines(list_text(files))[i] == "file "@ + word(files[i])
            &&& read_word(word(files[i]), false) == files[i]
        },
{
    let none = Seq::<char>::empty();
    lemma_lines_of_list(files, none);
    assert(list_text(files) + none =~= list_text(files));
    assert(lines(none) =~= Seq::<Seq<char>>::empty());
    let all = Seq::new(files.len(), |i: int| file_line(files[i]));
    assert(all + lines(none) =~= all);
    if 0 <= i < files.len() {
        law_words_are_read_back(files[i]);
    }
}

/// A file that is added to a list gets a line at the end of it, and nothing else changes.
pub proof fn law_lists_grow_line_by_line(files: Seq<Seq<char>>, file: Seq<char>)
    ensures
        list_text(Seq::empty()) == Seq::<char>::empty(),
        list_text(files.push(file)) == list_text(files) + "file "@ + word(file) + "\n"@,
{
    let all = files.push(file);
    assert(all.drop_last() =~= files);
    reveal_strlit("file '");
    reveal_strlit("file ");
    reveal_strlit("'\n");
    reveal_strlit("\n");
    assert("file '"@ =~= "file "@ + seq!['\'']);
    assert("'\n"@ =~= seq!['\''] + "\n"@);
    assert(list_text(all) =~= list_text(files) + "file "@ + word(file) + "\n"@);
}

} // verus!
