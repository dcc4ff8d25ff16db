//! Splitting a command line into whitespace-separated words.
use vstd::prelude::*;
use vstd::string::*;

verus! {

/// The characters that separate words: the Unicode `White_Space` set.
pub open spec fn is_space(c: char) -> bool {
    ||| c == ' '
    ||| ('\t' <= c && c <= '\r')
    ||| c == '\u{85}'
    ||| c == '\u{a0}'
    ||| c == '\u{1680}'
    ||| ('\u{2000}' <= c && c <= '\u{200a}')
    ||| c == '\u{2028}'
    ||| c == '\u{2029}'
    ||| c == '\u{202f}'
    ||| c == '\u{205f}'
    ||| c == '\u{3000}'
}

/// The maximal runs of non-space characters of `s`, left to right.
/// Defined one character at a time: a space ends the current word, a
/// non-space character extends the word that the previous character belongs
/// to, or starts a new one.
pub open spec fn words_of(s: Seq<char>) -> Seq<Seq<char>>
    decreases s.len(),
{
    if s.len() == 0 {
        Seq::empty()
    } else {
        let prev = words_of(s.drop_last());
        let c = s.last();
        if is_space(c) {
            prev
        } else if s.len() >= 2 && !is_space(s[s.len() - 2]) {
            prev.update(prev.len() - 1, prev.last().push(c))
        } else {
            prev.push(seq![c])
        }
    }
}

/// The views of a vector of strings.
pub open spec fn views(v: Seq<String>) -> Seq<Seq<char>> {
    v.map_values(|t: String| t@)
}

/// The view of an optional string.
pub open spec fn opt_view(o: Option<String>) -> Option<Seq<char>> {
    match o {
        Some(t) => Some(t@),
        None => None,
    }
}

/// Whether `c` separates words.
pub fn is_space_char(c: char) -> (r: bool)
    ensures
        r == is_space(c),
{
    c == ' ' || ('\t' <= c && c <= '\r') || c == '\u{85}' || c == '\u{a0}' || c == '\u{1680}'
        || ('\u{2000}' <= c && c <= '\u{200a}') || c == '\u{2028}' || c == '\u{2029}'
        || c == '\u{202f}' || c == '\u{205f}' || c == '\u{3000}'
}

/// Splits `command` into its words; the first is the command name and the
/// rest are its arguments. A line of spaces only has no words.
pub fn parse_command(command: &str) -> (r: Vec<String>)
    ensures
        views(r@) == words_of(command@),
{
    let n = command.unicode_len();
    let mut out: Vec<String> = Vec::new();
    let mut start: usize = 0;
    let mut inside: bool = false;
    let mut i: usize = 0;
    while i < n
        invariant
            n == command@.len(),
            i <= n,
            start <= i,
            inside ==> i > 0 && start < i && !is_space(command@[i - 1]),
            inside ==> forall|k: int| start <= k < i ==> !is_space(#[trigger] command@[k]),
            inside ==> start == 0 || is_space(command@[start - 1]),
            !inside ==> i == 0 || is_space(command@[i - 1]),
            words_of(command@.take(i as int)) == if inside {
                views(out@).push(command@.subrange(start as int, i as int))
            } else {
                views(out@)
            },
        decreases n - i,
    {
        let c = command.get_char(i);
        let ghost s = command@.take(i as int + 1);
        assert(s.drop_last() == command@.take(i as int));
        assert(s.last() == c);
        if is_space_char(c) {
            if inside {
                let w = String::from_str(command.substring_char(start, i));
                let ghost before = out@;
                out.push(w);
                assert(views(out@) == views(before).push(w@)) by {
                    assert(views(out@) =~= views(before).push(w@));
                };
            }
            inside = false;
        } else if inside {
            assert(command@.subrange(start as int, i as int + 1) =~= command@.subrange(
                start as int,
                i as int,
            ).push(c));
        } else {
            assert(command@.subrange(i as int, i as int + 1) =~= seq![c]);
            start = i;
            inside = true;
        }
        i = i + 1;
    }
    if inside {
        let w = String::from_str(command.substring_char(start, i));
        let ghost before = out@;
        out.push(w);
        assert(views(out@) =~= views(before).push(w@));
    }
    assert(command@.take(n as int) =~= command@);
    out
}

} // verus!

verus! {

/// The words of `ws` joined by single spaces.
pub open spec fn joined(ws: Seq<Seq<char>>) -> Seq<char>
    decreases ws.len(),
{
    if ws.len() == 0 {
        Seq::empty()
    } else if ws.len() == 1 {
        ws[0]
    } else {
        joined(ws.drop_last()) + seq![' '] + ws.last()
    }
}

/// Joins `parts[from..]` with single spaces.
pub fn join_from(parts: &Vec<String>, from: usize) -> (r: String)
    requires
        from <= parts@.len(),
    ensures
        r@ == joined(views(parts@).skip(from as int)),
{
    let mut out = String::new();
    if from == parts.len() {
        assert(views(parts@).skip(from as int) =~= Seq::empty());
        return out;
    }
    let mut i: usize = from;
    while i < parts.len()
        invariant
            from < parts.len(),
            from <= i <= parts.len(),
            out@ == joined(views(parts@).subrange(from as int, i as int)),
        decreases parts.len() - i,
    {
        let ghost ws = views(parts@).subrange(from as int, i as int + 1);
        assert(ws.drop_last() =~= views(parts@).subrange(from as int, i as int));
        assert(ws.last() == parts@[i as int]@);
        assert(ws.len() == i - from + 1);
        if i > from {
            proof {
                reveal_strlit(" ");
                assert(" "@ =~= seq![' ']);
            }
            out.append(" ");
        } else {
            assert(out@ =~= Seq::<char>::empty());
        }
        out.append(parts[i].as_str());
        assert(out@ =~= joined(ws));
        i = i + 1;
    }
    assert(views(parts@).subrange(from as int, parts.len() as int) =~= views(parts@).skip(
        from as int,
    ));
    out
}

} // verus!
