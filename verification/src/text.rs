use vstd::prelude::*;

verus! {

/// The index of the first newline in `s`, or `s.len()` when there is none.
pub open spec fn first_newline(s: Seq<char>) -> int
    decreases s.len(),
{
    if s.len() == 0 {
        0
    } else if s[0] == '\n' {
        0
    } else {
        1 + first_newline(s.drop_first())
    }
}

/// `first_newline` points at the first newline: nothing before it is one,
/// and it is one itself unless the sequence holds none at all.
pub proof fn lemma_first_newline(s: Seq<char>)
    ensures
        0 <= first_newline(s) <= s.len(),
        forall|j: int| 0 <= j < first_newline(s) ==> s[j] != '\n',
        first_newline(s) < s.len() ==> s[first_newline(s)] == '\n',
    decreases s.len(),
{
    if s.len() > 0 && s[0] != '\n' {
        lemma_first_newline(s.drop_first());
        assert(forall|j: int| 1 <= j < first_newline(s) ==> s[j] == s.drop_first()[j - 1]);
    }
}

/// Any position with no newline before it and a newline at it (or the end
/// of the sequence) is `first_newline`.
pub proof fn lemma_first_newline_at(s: Seq<char>, i: int)
    requires
        0 <= i <= s.len(),
        forall|j: int| 0 <= j < i ==> s[j] != '\n',
        i < s.len() ==> s[i] == '\n',
    ensures
        first_newline(s) == i,
    decreases s.len(),
{
    if s.len() > 0 && s[0] != '\n' {
        assert(forall|j: int| 0 <= j < i - 1 ==> s.drop_first()[j] == s[j + 1]);
        lemma_first_newline_at(s.drop_first(), i - 1);
    }
}

/// A line with a trailing carriage return removed.
pub open spec fn strip_cr(line: Seq<char>) -> Seq<char> {
    if line.len() > 0 && line.last() == '\r' {
        line.drop_last()
    } else {
        line
    }
}

/// The lines of `s`: the pieces between newlines, each with a carriage
/// return directly before its newline removed.  A last piece without a
/// newline ending is kept whole; an empty sequence has no lines.
pub open spec fn split_lines(s: Seq<char>) -> Seq<Seq<char>>
    decreases s.len(),
    via split_lines_decreases
{
    if s.len() == 0 {
        Seq::empty()
    } else {
        let i = first_newline(s);
        if i == s.len() {
            seq![s]
        } else {
            seq![strip_cr(s.subrange(0, i))] + split_lines(s.subrange(i + 1, s.len() as int))
        }
    }
}

#[via_fn]
proof fn split_lines_decreases(s: Seq<char>) {
    lemma_first_newline(s);
}

/// Finds the first newline of `s` at or after `from`.
fn find_newline(s: &str, from: usize) -> (i: usize)
    requires
        from <= s@.len(),
    ensures
        from <= i <= s@.len(),
        forall|j: int| from <= j < i ==> s@[j] != '\n',
        i < s@.len() ==> s@[i as int] == '\n',
{
    let n = s.unicode_len();
    let mut i: usize = from;
    while i < n
        invariant
            from <= i <= n,
            n == s@.len(),
            forall|j: int| from <= j < i ==> s@[j] != '\n',
        decreases n - i,
    {
        if s.get_char(i) == '\n' {
            return i;
        }
        i = i + 1;
    }
    i
}

/// Splits `s` into its lines, as slices of `s`.
pub fn split_into_lines<'a>(s: &'a str) -> (lines: Vec<&'a str>)
    ensures
        lines@.map_values(|l: &str| l@) == split_lines(s@),
{
    let n = s.unicode_len();
    let mut lines: Vec<&'a str> = Vec::new();
    let mut pos: usize = 0;
    proof {
        assert(s@.subrange(0, n as int) =~= s@);
        assert(lines@.map_values(|l: &str| l@) + split_lines(s@) =~~= split_lines(s@));
    }
    while pos < n
        invariant
            pos <= n,
            n == s@.len(),
            split_lines(s@) == lines@.map_values(|l: &str| l@) + split_lines(
                s@.subrange(pos as int, n as int),
            ),
        decreases n - pos,
    {
        let ghost suffix = s@.subrange(pos as int, n as int);
        let i = find_newline(s, pos);
        proof {
            assert(forall|j: int| 0 <= j < i - pos ==> suffix[j] == s@[j + pos]);
            assert(i < n ==> suffix[i - pos] == s@[i as int]);
            lemma_first_newline_at(suffix, i - pos);
        }
        if i == n {
            let line = s.substring_char(pos, n);
            let ghost prev = lines@;
            lines.push(line);
            proof {
                assert(line@ =~= suffix);
                assert(split_lines(suffix) =~~= seq![line@]);
                assert(lines@.map_values(|l: &str| l@) =~~= prev.map_values(|l: &str| l@) + seq![
                    line@,
                ]);
                assert(split_lines(s@.subrange(n as int, n as int)) =~~= Seq::<Seq<char>>::empty());
                assert(split_lines(s@) =~~= lines@.map_values(|l: &str| l@) + split_lines(
                    s@.subrange(n as int, n as int),
                ));
            }
            pos = n;
        } else {
            let end = if i > pos && s.get_char(i - 1) == '\r' {
                i - 1
            } else {
                i
            };
            let line = s.substring_char(pos, end);
            let ghost prev = lines@;
            lines.push(line);
            proof {
                assert(suffix.subrange(0, i - pos) =~= s@.subrange(pos as int, i as int));
                assert(strip_cr(suffix.subrange(0, i - pos)) =~= line@);
                assert(suffix.subrange(i - pos + 1, suffix.len() as int) =~= s@.subrange(
                    i as int + 1,
                    n as int,
                ));
                assert(split_lines(suffix) =~~= seq![line@] + split_lines(
                    s@.subrange(i as int + 1, n as int),
                ));
                assert(lines@.map_values(|l: &str| l@) =~~= prev.map_values(|l: &str| l@) + seq![
                    line@,
                ]);
                assert(split_lines(s@) =~~= lines@.map_values(|l: &str| l@) + split_lines(
                    s@.subrange(i as int + 1, n as int),
                ));
            }
            pos = i + 1;
        }
    }
    proof {
        assert(s@.subrange(n as int, n as int) =~= Seq::<char>::empty());
        assert(split_lines(s@) =~~= lines@.map_values(|l: &str| l@));
    }
    lines
}

/// The longest prefix of `s` that holds no space: the first word.
pub fn first_word<'a>(s: &'a str) -> (r: &'a str)
    ensures
        r@ == s@.subrange(0, r@.len() as int),
        forall|j: int| 0 <= j < r@.len() ==> s@[j] != ' ',
        r@.len() < s@.len() ==> s@[r@.len() as int] == ' ',
{
    let n = s.unicode_len();
    let mut i: usize = 0;
    while i < n
        invariant
            i <= n,
            n == s@.len(),
            forall|j: int| 0 <= j < i ==> s@[j] != ' ',
        decreases n - i,
    {
        if s.get_char(i) == ' ' {
            return s.substring_char(0, i);
        }
        i = i + 1;
    }
    proof {
        assert(s@.subrange(0, s@.len() as int) =~= s@);
    }
    s
}

/// The last character of the first line of `text`, if there is one.
pub fn last_char_of_first_line(text: &str) -> (r: Option<char>)
    ensures
        text@.len() == 0 ==> r is None,
        text@.len() > 0 ==> ({
            let line = split_lines(text@)[0];
            &&& line.len() == 0 ==> r is None
            &&& line.len() > 0 ==> r == Some(line.last())
        }),
{
    let n = text.unicode_len();
    if n == 0 {
        return None;
    }
    let i = find_newline(text, 0);
    proof {
        lemma_first_newline_at(text@, i as int);
    }
    let end = if i < n && i > 0 && text.get_char(i - 1) == '\r' {
        i - 1
    } else {
        i
    };
    proof {
        if i < n {
            assert(split_lines(text@)[0] == strip_cr(text@.subrange(0, i as int)));
            assert(strip_cr(text@.subrange(0, i as int)) =~= text@.subrange(0, end as int));
        } else {
            assert(split_lines(text@)[0] == text@);
            assert(text@ =~= text@.subrange(0, end as int));
        }
    }
    if end == 0 {
        None
    } else {
        Some(text.get_char(end - 1))
    }
}

} // verus!
