//! Character-level text helpers: string equality, splitting a buffer into
//! lines at newline characters, and joining lines back together.

use vstd::prelude::*;

verus! {

/// True iff two string slices hold the same characters.
pub fn str_eq(a: &str, b: &str) -> (r: bool)
    ensures
        r == (a@ == b@),
{
    let alen = a.unicode_len();
    let blen = b.unicode_len();
    if alen != blen {
        return false;
    }
    let mut i: usize = 0;
    while i < alen
        invariant
            alen == a@.len(),
            blen == b@.len(),
            alen == blen,
            i <= alen,
            forall|j: int| 0 <= j < i ==> a@[j] == b@[j],
        decreases alen - i,
    {
        if a.get_char(i) != b.get_char(i) {
            return false;
        }
        i += 1;
    }
    proof {
        assert(a@ =~= b@);
    }
    true
}

/// True iff the line holds no newline character.
pub open spec fn no_newline(l: Seq<char>) -> bool {
    forall|i: int| 0 <= i < l.len() ==> l[i] != '\n'
}

/// Index of the first newline in `s`, or `s.len()` if there is none.
pub open spec fn first_newline(s: Seq<char>) -> nat
    decreases s.len(),
{
    if s.len() == 0 {
        0
    } else if s[0] == '\n' {
        0
    } else {
        1 + first_newline(s.skip(1))
    }
}

/// The lines of `s`: the maximal newline-free pieces between newline
/// characters. A buffer with no newline is one line; every newline starts a
/// further (possibly empty) line, so the result never is empty.
pub open spec fn split_lines(s: Seq<char>) -> Seq<Seq<char>>
    decreases s.len(),
{
    let i = first_newline(s);
    if i >= s.len() {
        seq![s]
    } else {
        seq![s.take(i as int)] + split_lines(s.skip(i as int + 1))
    }
}

/// The lines joined back together with a newline between consecutive lines.
pub open spec fn join_lines(ls: Seq<Seq<char>>) -> Seq<char>
    decreases ls.len(),
{
    if ls.len() == 0 {
        Seq::empty()
    } else if ls.len() == 1 {
        ls[0]
    } else {
        ls[0] + seq!['\n'] + join_lines(ls.skip(1))
    }
}

pub proof fn lemma_first_newline_bounds(s: Seq<char>)
    ensures
        first_newline(s) <= s.len(),
        forall|k: int| 0 <= k < first_newline(s) ==> s[k] != '\n',
        first_newline(s) < s.len() ==> s[first_newline(s) as int] == '\n',
    decreases s.len(),
{
    if s.len() == 0 {
    } else if s[0] == '\n' {
    } else {
        lemma_first_newline_bounds(s.skip(1));
        assert forall|k: int| 0 <= k < first_newline(s) implies s[k] != '\n' by {
            if k > 0 {
                assert(s.skip(1)[k - 1] == s[k]);
            }
        }
        if first_newline(s) < s.len() {
            assert(s.skip(1)[first_newline(s) - 1] == s[first_newline(s) as int]);
        }
    }
}

/// `first_newline` is the unique index with no newline before it and a
/// newline (or the end of the buffer) at it.
pub proof fn lemma_first_newline_at(s: Seq<char>, j: int)
    requires
        0 <= j <= s.len(),
        forall|k: int| 0 <= k < j ==> s[k] != '\n',
        j < s.len() ==> s[j] == '\n',
    ensures
        first_newline(s) == j,
    decreases j,
{
    if j == 0 {
    } else {
        assert(s[0] != '\n');
        assert forall|k: int| 0 <= k < j - 1 implies s.skip(1)[k] != '\n' by {
            assert(s.skip(1)[k] == s[k + 1]);
        }
        if j - 1 < s.skip(1).len() {
            assert(s.skip(1)[j - 1] == s[j]);
        }
        lemma_first_newline_at(s.skip(1), j - 1);
    }
}

/// There always is at least one line, and no line holds a newline.
pub proof fn lemma_split_lines_props(s: Seq<char>)
    ensures
        split_lines(s).len() >= 1,
        forall|i: int| 0 <= i < split_lines(s).len() ==> no_newline(#[trigger] split_lines(s)[i]),
    decreases s.len(),
{
    lemma_first_newline_bounds(s);
    let fi = first_newline(s);
    if fi >= s.len() {
        assert(split_lines(s)[0] == s);
    } else {
        lemma_split_lines_props(s.skip(fi as int + 1));
        assert forall|i: int| 0 <= i < split_lines(s).len() implies no_newline(
            #[trigger] split_lines(s)[i],
        ) by {
            if i == 0 {
                assert(split_lines(s)[0] == s.take(fi as int));
                assert forall|k: int| 0 <= k < fi implies s.take(fi as int)[k] != '\n' by {
                    assert(s.take(fi as int)[k] == s[k]);
                }
            } else {
                assert(split_lines(s)[i] == split_lines(s.skip(fi as int + 1))[i - 1]);
            }
        }
    }
}

/// Joining the lines of a buffer gives the buffer back.
pub proof fn lemma_join_of_split(s: Seq<char>)
    ensures
        join_lines(split_lines(s)) == s,
    decreases s.len(),
{
    lemma_first_newline_bounds(s);
    let fi = first_newline(s);
    if fi >= s.len() {
        assert(join_lines(seq![s]) == s);
    } else {
        let tail = s.skip(fi as int + 1);
        lemma_join_of_split(tail);
        lemma_split_lines_props(tail);
        let parts = seq![s.take(fi as int)] + split_lines(tail);
        assert(parts.len() >= 2);
        assert(parts[0] == s.take(fi as int));
        assert(parts.skip(1) =~= split_lines(tail));
        assert(join_lines(parts) == s.take(fi as int) + seq!['\n'] + join_lines(
            split_lines(tail),
        ));
        assert(s.take(fi as int) + seq!['\n'] + tail =~= s);
    }
}

/// Splitting a join of newline-free lines gives the lines back.
pub proof fn lemma_split_of_join(ls: Seq<Seq<char>>)
    requires
        ls.len() >= 1,
        forall|i: int| 0 <= i < ls.len() ==> no_newline(#[trigger] ls[i]),
    ensures
        split_lines(join_lines(ls)) == ls,
    decreases ls.len(),
{
    if ls.len() == 1 {
        let s = join_lines(ls);
        assert(s == ls[0]);
        lemma_first_newline_at(s, s.len() as int);
        assert(split_lines(s) == seq![s]);
        assert(seq![ls[0]] =~= ls);
    } else {
        let s = join_lines(ls);
        let j = ls[0].len() as int;
        assert(s == ls[0] + seq!['\n'] + join_lines(ls.skip(1)));
        assert forall|k: int| 0 <= k < j implies s[k] != '\n' by {
            assert(s[k] == ls[0][k]);
        }
        assert(s[j] == '\n');
        lemma_first_newline_at(s, j);
        assert(s.take(j) =~= ls[0]);
        assert(s.skip(j + 1) =~= join_lines(ls.skip(1)));
        assert forall|i: int| 0 <= i < ls.skip(1).len() implies no_newline(
            #[trigger] ls.skip(1)[i],
        ) by {
            assert(ls.skip(1)[i] == ls[i + 1]);
        }
        lemma_split_of_join(ls.skip(1));
        assert(split_lines(s) == seq![ls[0]] + ls.skip(1));
        assert(seq![ls[0]] + ls.skip(1) =~= ls);
    }
}

/// Splits a string into its lines at newline characters.
pub fn split_lines_exec(s: &str) -> (r: Vec<String>)
    ensures
        r@.map_values(|l: String| l@) == split_lines(s@),
{
    let len = s.unicode_len();
    let mut out: Vec<String> = Vec::new();
    let mut start: usize = 0;
    let mut i: usize = 0;
    proof {
        assert(s@.skip(0) =~= s@);
        assert(out@.map_values(|l: String| l@) + split_lines(s@) =~= split_lines(s@));
    }
    while i < len
        invariant
            len == s@.len(),
            start <= i <= len,
            forall|k: int| start <= k < i ==> s@[k] != '\n',
            split_lines(s@) == out@.map_values(|l: String| l@) + split_lines(
                s@.skip(start as int),
            ),
        decreases len - i,
    {
        let c = s.get_char(i);
        if c == '\n' {
            let piece = String::from_str(s.substring_char(start, i));
            proof {
                let t = s@.skip(start as int);
                assert forall|k: int| 0 <= k < i - start implies t[k] != '\n' by {
                    assert(t[k] == s@[start + k]);
                }
                assert(t[i - start] == s@[i as int]);
                lemma_first_newline_at(t, i - start);
                assert(t.take(i - start) =~= piece@);
                assert(t.skip(i - start + 1) =~= s@.skip(i + 1));
                assert(split_lines(t) == seq![piece@] + split_lines(s@.skip(i + 1)));
                assert(out@.push(piece).map_values(|l: String| l@) =~= out@.map_values(
                    |l: String| l@,
                ).push(piece@));
                assert(out@.map_values(|l: String| l@) + (seq![piece@] + split_lines(
                    s@.skip(i + 1),
                )) =~= out@.map_values(|l: String| l@).push(piece@) + split_lines(s@.skip(i + 1)));
            }
            out.push(piece);
            start = i + 1;
        }
        i = i + 1;
    }
    let piece = String::from_str(s.substring_char(start, len));
    proof {
        let t = s@.skip(start as int);
        assert forall|k: int| 0 <= k < t.len() implies t[k] != '\n' by {
            assert(t[k] == s@[start + k]);
        }
        lemma_first_newline_at(t, t.len() as int);
        assert(piece@ =~= t);
        assert(split_lines(t) == seq![t]);
        assert(out@.push(piece).map_values(|l: String| l@) =~= out@.map_values(
            |l: String| l@,
        ).push(piece@));
        assert(out@.map_values(|l: String| l@) + seq![t] =~= out@.map_values(
            |l: String| l@,
        ).push(piece@));
    }
    out.push(piece);
    out
}

/// Joining a one-element-longer prefix appends a newline and that element.
pub proof fn lemma_join_take_step(ls: Seq<Seq<char>>, i: int)
    requires
        1 <= i < ls.len(),
    ensures
        join_lines(ls.take(i + 1)) == join_lines(ls.take(i)) + seq!['\n'] + ls[i],
    decreases i,
{
    if i == 1 {
        assert(ls.take(2).skip(1) =~= seq![ls[1]]);
        assert(join_lines(seq![ls[1]]) == ls[1]);
        assert(join_lines(ls.take(1)) == ls.take(1)[0]);
        assert(join_lines(ls.take(2)) =~= join_lines(ls.take(1)) + seq!['\n'] + ls[1]);
    } else {
        lemma_join_take_step(ls.skip(1), i - 1);
        assert(ls.take(i + 1).skip(1) =~= ls.skip(1).take(i));
        assert(ls.take(i).skip(1) =~= ls.skip(1).take(i - 1));
        assert(join_lines(ls.take(i + 1)) == ls[0] + seq!['\n'] + join_lines(ls.skip(1).take(i)));
        assert(join_lines(ls.take(i)) == ls[0] + seq!['\n'] + join_lines(ls.skip(1).take(i - 1)));
        assert(ls.skip(1)[i - 1] == ls[i]);
        assert(ls[0] + seq!['\n'] + (join_lines(ls.skip(1).take(i - 1)) + seq!['\n'] + ls[i])
            =~= join_lines(ls.take(i)) + seq!['\n'] + ls[i]);
    }
}

/// Joins lines with a newline between consecutive lines.
pub fn join_lines_exec(lines: &Vec<String>) -> (r: String)
    ensures
        r@ == join_lines(lines@.map_values(|l: String| l@)),
{
    let mut out = String::new();
    let mut i: usize = 0;
    while i < lines.len()
        invariant
            i <= lines@.len(),
            out@ == join_lines(lines@.map_values(|l: String| l@).take(i as int)),
        decreases lines@.len() - i,
    {
        if i > 0 {
            out.append("\n");
        }
        out.append(lines[i].as_str());
        proof {
            reveal_strlit("\n");
            assert("\n"@ =~= seq!['\n']);
            let ls = lines@.map_values(|l: String| l@);
            assert(ls[i as int] == lines@[i as int]@);
            if i == 0 {
                assert(ls.take(1) =~= seq![ls[0]]);
                assert(join_lines(ls.take(1)) == ls[0]);
            } else {
                lemma_join_take_step(ls, i as int);
            }
        }
        i = i + 1;
    }
    proof {
        let ls = lines@.map_values(|l: String| l@);
        assert(ls.take(ls.len() as int) =~= ls);
    }
    out
}

} // verus!
