//! Splitting text into lines and words, as `str::lines` and
//! `str::split_whitespace` do, and the line-oriented formats built on them.
use vstd::prelude::*;
use crate::text::{
    chars_of, is_space, is_space_char, parse_unsigned, parse_unsigned_chars, starts_with, string_from_chars,
    trim, trim_bounds, views, chars_start_with_at,
};

verus! {

/// A line without the `\r` of a `\r\n` line ending.
pub open spec fn strip_cr(l: Seq<char>) -> Seq<char> {
    if l.len() > 0 && l.last() == '\r' {
        l.drop_last()
    } else {
        l
    }
}

/// The lines of `s` when `cur` is the line read so far.
pub open spec fn lines_acc(s: Seq<char>, cur: Seq<char>) -> Seq<Seq<char>>
    decreases s.len(),
{
    if s.len() == 0 {
        if cur.len() == 0 {
            seq![]
        } else {
            seq![cur]
        }
    } else if s[0] == '\n' {
        seq![strip_cr(cur)] + lines_acc(s.drop_first(), seq![])
    } else {
        lines_acc(s.drop_first(), cur.push(s[0]))
    }
}

/// The lines of a text, as `str::lines` yields them: split at each `\n`,
/// with the `\r` of a `\r\n` removed; a final line ending starts no empty
/// line.
pub open spec fn lines(s: Seq<char>) -> Seq<Seq<char>> {
    lines_acc(s, seq![])
}

/// The words of `s` when `cur` is the word read so far.
pub open spec fn words_acc(s: Seq<char>, cur: Seq<char>) -> Seq<Seq<char>>
    decreases s.len(),
{
    if s.len() == 0 {
        if cur.len() == 0 {
            seq![]
        } else {
            seq![cur]
        }
    } else if is_space(s[0]) {
        (if cur.len() == 0 {
            seq![]
        } else {
            seq![cur]
        }) + words_acc(s.drop_first(), seq![])
    } else {
        words_acc(s.drop_first(), cur.push(s[0]))
    }
}

/// The words of a text, as `str::split_whitespace` yields them: the maximal
/// runs of characters that are not Unicode whitespace.
pub open spec fn words(s: Seq<char>) -> Seq<Seq<char>> {
    words_acc(s, seq![])
}

/// Splits a text into lines, as `str::lines` does.
pub fn split_lines(text: &str) -> (r: Vec<String>)
    ensures
        views(r@) == lines(text@),
{
    let v = chars_of(text);
    let mut r: Vec<String> = Vec::new();
    let mut start: usize = 0;
    let mut i: usize = 0;
    assert(v@.skip(0) =~= v@);
    assert(v@.subrange(0, 0) =~= Seq::<char>::empty());
    assert(views(r@) + lines_acc(v@, seq![]) =~= lines_acc(v@, seq![]));
    while i < v.len()
        invariant
            start <= i <= v.len(),
            v@ == text@,
            lines(text@) == views(r@) + lines_acc(v@.skip(i as int), v@.subrange(start as int, i as int)),
        decreases v.len() - i,
    {
        let ghost cur = v@.subrange(start as int, i as int);
        let ghost rest = v@.skip(i as int);
        assert(rest.drop_first() =~= v@.skip(i + 1));
        assert(rest[0] == v@[i as int]);
        if v[i] == '\n' {
            let hi = if i > start && v[i - 1] == '\r' { i - 1 } else { i };
            let line = string_from_chars(&v, start, hi);
            assert(line@ =~= strip_cr(cur));
            let ghost before = r@;
            r.push(line);
            assert(views(r@) =~= views(before).push(strip_cr(cur)));
            assert(views(before) + (seq![strip_cr(cur)] + lines_acc(v@.skip(i + 1), seq![])) =~= views(r@)
                + lines_acc(v@.skip(i + 1), seq![]));
            assert(v@.subrange(i + 1, i + 1) =~= Seq::<char>::empty());
            start = i + 1;
        } else {
            assert(cur.push(v@[i as int]) =~= v@.subrange(start as int, i + 1));
        }
        i = i + 1;
    }
    let ghost cur = v@.subrange(start as int, i as int);
    assert(v@.skip(i as int) =~= Seq::<char>::empty());
    if start < i {
        let line = string_from_chars(&v, start, i);
        let ghost before = r@;
        r.push(line);
        assert(views(r@) =~= views(before).push(cur));
        assert(views(before) + seq![cur] =~= views(r@));
    } else {
        assert(views(r@) + Seq::<Seq<char>>::empty() =~= views(r@));
    }
    r
}

/// Splits a text into its whitespace-separated words, as
/// `str::split_whitespace` does.
pub fn split_whitespace(text: &str) -> (r: Vec<String>)
    ensures
        views(r@) == words(text@),
{
    let v = chars_of(text);
    let mut r: Vec<String> = Vec::new();
    let mut start: usize = 0;
    let mut i: usize = 0;
    assert(v@.skip(0) =~= v@);
    assert(v@.subrange(0, 0) =~= Seq::<char>::empty());
    assert(views(r@) + words_acc(v@, seq![]) =~= words_acc(v@, seq![]));
    while i < v.len()
        invariant
            start <= i <= v.len(),
            v@ == text@,
            words(text@) == views(r@) + words_acc(v@.skip(i as int), v@.subrange(start as int, i as int)),
        decreases v.len() - i,
    {
        let ghost cur = v@.subrange(start as int, i as int);
        let ghost rest = v@.skip(i as int);
        assert(rest.drop_first() =~= v@.skip(i + 1));
        assert(rest[0] == v@[i as int]);
        if is_space_char(v[i]) {
            if start < i {
                let word = string_from_chars(&v, start, i);
                let ghost before = r@;
                r.push(word);
                assert(views(r@) =~= views(before).push(cur));
                assert(views(before) + (seq![cur] + words_acc(v@.skip(i + 1), seq![])) =~= views(r@)
                    + words_acc(v@.skip(i + 1), seq![]));
            } else {
                assert(views(r@) + (Seq::<Seq<char>>::empty() + words_acc(v@.skip(i + 1), seq![]))
                    =~= views(r@) + words_acc(v@.skip(i + 1), seq![]));
            }
            assert(v@.subrange(i + 1, i + 1) =~= Seq::<char>::empty());
            start = i + 1;
        } else {
            assert(cur.push(v@[i as int]) =~= v@.subrange(start as int, i + 1));
        }
        i = i + 1;
    }
    let ghost cur = v@.subrange(start as int, i as int);
    assert(v@.skip(i as int) =~= Seq::<char>::empty());
    if start < i {
        let word = string_from_chars(&v, start, i);
        let ghost before = r@;
        r.push(word);
        assert(views(r@) =~= views(before).push(cur));
        assert(views(before) + seq![cur] =~= views(r@));
    } else {
        assert(views(r@) + Seq::<Seq<char>>::empty() =~= views(r@));
    }
    r
}

/// The entries of an inputs file: its lines, trimmed, leaving out blank
/// lines and `#` comments.
pub open spec fn input_entries(ls: Seq<Seq<char>>) -> Seq<Seq<char>>
    decreases ls.len(),
{
    if ls.len() == 0 {
        seq![]
    } else {
        let rest = input_entries(ls.drop_last());
        let t = trim(ls.last());
        if t.len() == 0 || starts_with(t, "#"@) {
            rest
        } else {
            rest.push(t)
        }
    }
}

/// Reads the inputs listed in the text of an inputs file: one per line,
/// trimmed; blank lines and lines starting with `#` are left out.
pub fn parse_input_list(content: &str) -> (r: Vec<String>)
    ensures
        views(r@) == input_entries(lines(content@)),
{
    let ls = split_lines(content);
    let ghost all = views(ls@);
    let mut r: Vec<String> = Vec::new();
    let hash: Vec<char> = chars_of("#");
    let mut i: usize = 0;
    assert(all.take(0) =~= Seq::<Seq<char>>::empty());
    while i < ls.len()
        invariant
            i <= ls.len(),
            all == views(ls@),
            all == lines(content@),
            hash@ == "#"@,
            views(r@) == input_entries(all.take(i as int)),
        decreases ls.len() - i,
    {
        let line = chars_of(ls[i].as_str());
        let (lo, hi) = trim_bounds(&line);
        let ghost t = trim(all[i as int]);
        assert(all.take(i + 1).drop_last() =~= all.take(i as int));
        assert(all.take(i + 1).last() == all[i as int]);
        let blank = lo == hi;
        let comment = !blank && chars_start_with_at(&line, lo, &hash);
        proof {
            reveal_strlit("#");
            assert(line@.subrange(lo as int, hi as int) == t);
            if !blank {
                assert(t.subrange(0, 1) =~= line@.subrange(lo as int, lo + 1));
                assert(comment == starts_with(t, "#"@));
            }
        }
        if !blank && !comment {
            let entry = string_from_chars(&line, lo, hi);
            let ghost before = r@;
            r.push(entry);
            assert(views(r@) =~= views(before).push(t));
        }
        i = i + 1;
    }
    assert(all.take(ls.len() as int) =~= all);
    r
}

/// The non-blank lines of a text, trimmed.
pub open spec fn non_blank_lines(ls: Seq<Seq<char>>) -> Seq<Seq<char>>
    decreases ls.len(),
{
    if ls.len() == 0 {
        seq![]
    } else {
        let rest = non_blank_lines(ls.drop_last());
        let t = trim(ls.last());
        if t.len() == 0 {
            rest
        } else {
            rest.push(t)
        }
    }
}

/// Reads a list of paths, one per line: each line trimmed, blank lines
/// left out (no comment syntax).
pub fn parse_path_list(content: &str) -> (r: Vec<String>)
    ensures
        views(r@) == non_blank_lines(lines(content@)),
{
    let ls = split_lines(content);
    let ghost all = views(ls@);
    let mut r: Vec<String> = Vec::new();
    let mut i: usize = 0;
    assert(all.take(0) =~= Seq::<Seq<char>>::empty());
    while i < ls.len()
        invariant
            i <= ls.len(),
            all == views(ls@),
            all == lines(content@),
            views(r@) == non_blank_lines(all.take(i as int)),
        decreases ls.len() - i,
    {
        let line = chars_of(ls[i].as_str());
        let (lo, hi) = trim_bounds(&line);
        let ghost t = trim(all[i as int]);
        assert(all.take(i + 1).drop_last() =~= all.take(i as int));
        assert(all.take(i + 1).last() == all[i as int]);
        assert(line@.subrange(lo as int, hi as int) == t);
        if lo != hi {
            let entry = string_from_chars(&line, lo, hi);
            let ghost before = r@;
            r.push(entry);
            assert(views(r@) =~= views(before).push(t));
        }
        i = i + 1;
    }
    assert(all.take(ls.len() as int) =~= all);
    r
}

} // verus!
