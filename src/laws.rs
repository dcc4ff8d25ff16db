//! Properties of the interpreter as a whole, stated over the specifications
//! of the functions they relate.
use vstd::prelude::*;
use crate::builtins::builtin_named;
use crate::dispatch::{action_for, step_for, ActionView};
use crate::search::{dirs_of, first_flagged, lemma_dirs_nonempty, path_in, resolved};
use crate::words::{is_space, words_of};

verus! {

proof fn lemma_spaces_have_no_words(s: Seq<char>)
    requires
        forall|i: int| 0 <= i < s.len() ==> is_space(#[trigger] s[i]),
    ensures
        words_of(s).len() == 0,
    decreases s.len(),
{
    if s.len() > 0 {
        lemma_spaces_have_no_words(s.drop_last());
    }
}

/// A line made of whitespace only (or empty) asks for nothing: no output,
/// no change, and the interpreter reads the next line.
pub proof fn lemma_blank_line_does_nothing(line: Seq<char>)
    requires
        forall|i: int| 0 <= i < line.len() ==> is_space(#[trigger] line[i]),
    ensures
        step_for(Some(line)) == ActionView::Nothing,
{
    lemma_spaces_have_no_words(line);
}

/// The end of input ends the interpreter with status 0.
pub proof fn lemma_end_of_input_ends_cleanly()
    ensures
        step_for(None) == ActionView::Terminate(0),
{
}

/// A command line whose first word names no builtin is handed on whole to
/// be resolved and launched; it never ends the interpreter, whether or not
/// the name is found.
pub proof fn lemma_unknown_command_continues(words: Seq<Seq<char>>)
    requires
        words.len() > 0,
        builtin_named(words[0]) is None,
    ensures
        action_for(words) == ActionView::Launch(words),
        !(action_for(words) is Terminate),
{
}

/// Resolution picks the first flagged candidate in search-path order:
/// whatever comes after it, and however many later candidates are flagged.
pub proof fn lemma_first_match_wins(paths: Seq<Seq<char>>, flags: Seq<bool>, i: int)
    requires
        paths.len() == flags.len(),
        0 <= i < flags.len(),
        flags[i],
        forall|j: int| 0 <= j < i ==> !flags[j],
    ensures
        first_flagged(paths, flags) == Some(paths[i]),
    decreases i,
{
    if i > 0 {
        lemma_first_match_wins(paths.skip(1), flags.skip(1), i - 1);
    }
}

proof fn lemma_dirs_extend(a: Seq<char>, s: Seq<char>)
    requires
        forall|k: int| 0 <= k < s.len() ==> #[trigger] s[k] != ':',
    ensures
        dirs_of(a + s) == dirs_of(a).update(
            dirs_of(a).len() - 1,
            dirs_of(a).last() + s,
        ),
        dirs_of(a).len() > 0,
    decreases s.len(),
{
    if s.len() == 0 {
        assert(a + s =~= a);
        assert(dirs_of(a).last() + s =~= dirs_of(a).last());
        lemma_dirs_nonempty(a);
        assert(dirs_of(a).update(dirs_of(a).len() - 1, dirs_of(a).last()) =~= dirs_of(a));
    } else {
        let t = s.drop_last();
        lemma_dirs_extend(a, t);
        assert((a + s).drop_last() =~= a + t);
        assert((a + s).last() == s.last());
        assert(dirs_of(a).last() + t.push(s.last()) =~= (dirs_of(a).last() + t).push(s.last()));
        assert(t.push(s.last()) =~= s);
        assert(dirs_of(a + s) =~= dirs_of(a).update(
            dirs_of(a).len() - 1,
            dirs_of(a).last() + s,
        ));
    }
}

/// With a search path of two directories where only a file in the second
/// is executable, a name resolves to its path in the second directory.
pub proof fn lemma_later_directory_found(first: Seq<char>, second: Seq<char>, name: Seq<char>)
    requires
        forall|k: int| 0 <= k < first.len() ==> #[trigger] first[k] != ':',
        forall|k: int| 0 <= k < second.len() ==> #[trigger] second[k] != ':',
    ensures
        resolved(first + seq![':'] + second, name, seq![false, true]) == Some(
            path_in(second, name),
        ),
{
    let e = Seq::<char>::empty();
    lemma_dirs_extend(e, first);
    assert(e + first =~= first);
    assert(dirs_of(first) =~= seq![first]);
    let fc = first + seq![':'];
    assert(fc.drop_last() =~= first);
    assert(dirs_of(fc) =~= seq![first, e]);
    lemma_dirs_extend(fc, second);
    assert(e + second =~= second);
    assert(dirs_of(fc + second) =~= seq![first, second]);
    let paths = dirs_of(fc + second).map_values(|d: Seq<char>| path_in(d, name));
    lemma_first_match_wins(paths, seq![false, true], 1);
}

} // verus!
