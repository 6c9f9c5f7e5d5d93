use vstd::prelude::*;

verus! {

/// The lines of `s`: the pieces between newline characters, in order, without
/// the newlines. Text with `k` newlines has `k + 1` lines; empty text is one
/// empty line.
pub open spec fn lines_of(s: Seq<char>) -> Seq<Seq<char>>
    decreases s.len(),
{
    if s.len() == 0 {
        seq![Seq::empty()]
    } else {
        let prev = lines_of(s.drop_last());
        if s.last() == '\n' {
            prev.push(Seq::empty())
        } else {
            prev.update(prev.len() - 1, prev.last().push(s.last()))
        }
    }
}

/// The lines `ls` joined with a newline between each two.
pub open spec fn join_lines(ls: Seq<Seq<char>>) -> Seq<char>
    decreases ls.len(),
{
    if ls.len() == 0 {
        Seq::empty()
    } else if ls.len() == 1 {
        ls[0]
    } else {
        join_lines(ls.drop_last()) + seq!['\n'] + ls.last()
    }
}

/// No newline occurs in `s`.
pub open spec fn is_single_line(s: Seq<char>) -> bool {
    forall|i: int| 0 <= i < s.len() ==> s[i] != '\n'
}

/// Text always splits into at least one line, and no line holds a newline.
pub proof fn lemma_lines_well_formed(s: Seq<char>)
    ensures
        lines_of(s).len() >= 1,
        lines_of(s).len() == 1 + s.filter(|c: char| c == '\n').len(),
        forall|k: int| 0 <= k < lines_of(s).len() ==> is_single_line(#[trigger] lines_of(s)[k]),
    decreases s.len(),
{
    if s.len() > 0 {
        lemma_lines_well_formed(s.drop_last());
        reveal(Seq::filter);
        assert(s.drop_last() =~= s.subrange(0, s.len() - 1));
        let prev = lines_of(s.drop_last());
        if s.last() != '\n' {
            let l = prev.last().push(s.last());
            assert forall|i: int| 0 <= i < l.len() implies l[i] != '\n' by {
                if i < prev.last().len() {
                    assert(is_single_line(prev[prev.len() - 1]));
                }
            }
        }
    }
}

proof fn lemma_join_extend_last(ls: Seq<Seq<char>>, c: char)
    requires
        ls.len() >= 1,
    ensures
        join_lines(ls.update(ls.len() - 1, ls.last().push(c))) == join_lines(ls).push(c),
{
    let ls2 = ls.update(ls.len() - 1, ls.last().push(c));
    if ls.len() == 1 {
        assert(ls2[0] == ls[0].push(c));
    } else {
        assert(ls2.drop_last() =~= ls.drop_last());
        assert((join_lines(ls.drop_last()) + seq!['\n'] + ls.last()).push(c) =~= join_lines(
            ls.drop_last(),
        ) + seq!['\n'] + ls.last().push(c));
    }
}

/// Joining the lines of a text with newlines gives the text back.
pub proof fn lemma_join_lines_of(s: Seq<char>)
    ensures
        join_lines(lines_of(s)) == s,
    decreases s.len(),
{
    if s.len() == 0 {
        assert(join_lines(seq![Seq::<char>::empty()]) == Seq::<char>::empty());
    } else {
        let prev = lines_of(s.drop_last());
        lemma_join_lines_of(s.drop_last());
        lemma_lines_well_formed(s.drop_last());
        if s.last() == '\n' {
            let ls = prev.push(Seq::<char>::empty());
            assert(ls.drop_last() =~= prev);
            assert(join_lines(ls) =~= s);
        } else {
            lemma_join_extend_last(prev, s.last());
            assert(s.drop_last().push(s.last()) =~= s);
        }
    }
}

/// Text without a newline is a single line.
pub proof fn lemma_lines_of_single(s: Seq<char>)
    requires
        is_single_line(s),
    ensures
        lines_of(s) == seq![s],
    decreases s.len(),
{
    if s.len() > 0 {
        let p = s.drop_last();
        assert(is_single_line(p));
        lemma_lines_of_single(p);
        assert(s.last() == s[s.len() - 1]);
        assert(p.push(s.last()) =~= s);
        assert(seq![p].update(0, p.push(s.last())) =~= seq![s]);
    } else {
        assert(s =~= Seq::<char>::empty());
    }
}

/// The lines of two texts joined by a newline are the lines of the first
/// followed by the lines of the second.
pub proof fn lemma_lines_of_concat(a: Seq<char>, b: Seq<char>)
    ensures
        lines_of(a + seq!['\n'] + b) == lines_of(a) + lines_of(b),
    decreases b.len(),
{
    let s = a + seq!['\n'] + b;
    if b.len() == 0 {
        assert(s.drop_last() =~= a);
        assert(lines_of(a).push(Seq::empty()) =~= lines_of(a) + seq![Seq::<char>::empty()]);
    } else {
        let b0 = b.drop_last();
        lemma_lines_of_concat(a, b0);
        lemma_lines_well_formed(b0);
        assert(s.drop_last() =~= a + seq!['\n'] + b0);
        assert(s.last() == b.last());
        let la = lines_of(a);
        let lb = lines_of(b0);
        if b.last() == '\n' {
            assert((la + lb).push(Seq::empty()) =~= la + lb.push(Seq::empty()));
        } else {
            let both = la + lb;
            assert(both.update(both.len() - 1, both.last().push(b.last())) =~= la + lb.update(
                lb.len() - 1,
                lb.last().push(b.last()),
            ));
        }
    }
}

/// Splits `text` into its lines, in order, without the newline characters.
pub fn split_lines(text: &str) -> (r: Vec<String>)
    ensures
        r.deep_view() == lines_of(text@),
{
    let mut done: Vec<String> = Vec::new();
    let mut start: usize = 0;
    let mut pos: usize = 0;
    let n: usize = text.unicode_len();
    assert(lines_of(text@.subrange(0, 0)) == done.deep_view().push(text@.subrange(0, 0))) by {
        assert(text@.subrange(0, 0) =~= Seq::<char>::empty());
        assert(done.deep_view().push(Seq::<char>::empty()) =~= seq![Seq::<char>::empty()]);
    }
    for c in it: text.chars()
        invariant
            it.seq() == text@,
            pos == it.index(),
            n == text@.len(),
            start <= pos <= text@.len(),
            lines_of(text@.subrange(0, pos as int)) == done.deep_view().push(
                text@.subrange(start as int, pos as int),
            ),
    {
        let ghost before = text@.subrange(0, pos as int);
        let ghost after = text@.subrange(0, pos + 1);
        assert(after.drop_last() =~= before);
        assert(after.last() == c);
        if c == '\n' {
            let line = String::from_str(text.substring_char(start, pos));
            done.push(line);
            start = pos + 1;
            assert(done.deep_view() =~= lines_of(before));
            assert(text@.subrange(start as int, pos + 1) =~= Seq::<char>::empty());
            assert(lines_of(after) == done.deep_view().push(Seq::<char>::empty()));
        } else {
            assert(text@.subrange(start as int, pos as int).push(c) =~= text@.subrange(
                start as int,
                pos + 1,
            ));
            assert(done.deep_view().push(text@.subrange(start as int, pos + 1)) =~= lines_of(
                before,
            ).update(lines_of(before).len() - 1, lines_of(before).last().push(c)));
        }
        pos = pos + 1;
    }
    let last = String::from_str(text.substring_char(start, pos));
    done.push(last);
    assert(text@.subrange(0, pos as int) =~= text@);
    assert(done.deep_view() =~= lines_of(text@));
    done
}

} // verus!
