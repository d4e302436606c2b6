//! Line-oriented text store: an ordered sequence of lines, built once from
//! raw text by splitting on line feeds (stripping at most one trailing
//! carriage return per line), and mutated only by single-character insertion.

use vstd::prelude::*;

verus! {

/// Number of line-feed characters in `s`.
pub open spec fn count_newlines(s: Seq<char>) -> nat
    decreases s.len(),
{
    if s.len() == 0 {
        0
    } else {
        count_newlines(s.drop_last()) + if s.last() == '\n' {
            1nat
        } else {
            0nat
        }
    }
}

/// The segments of `s` between line feeds, line feeds themselves excluded,
/// with no further processing. An empty input has one empty segment.
pub open spec fn split_raw(s: Seq<char>) -> Seq<Seq<char>>
    decreases s.len(),
{
    if s.len() == 0 {
        seq![Seq::<char>::empty()]
    } else if s.last() == '\n' {
        split_raw(s.drop_last()).push(Seq::<char>::empty())
    } else {
        let r = split_raw(s.drop_last());
        r.update(r.len() - 1, r.last().push(s.last()))
    }
}

/// `line` with one trailing carriage return removed, if it has one.
pub open spec fn strip_cr(line: Seq<char>) -> Seq<char> {
    if line.len() > 0 && line.last() == '\r' {
        line.drop_last()
    } else {
        line
    }
}

/// What constructing a buffer from `s` stores: the raw line-feed segments,
/// each with at most one trailing carriage return stripped.
pub open spec fn lines_of(s: Seq<char>) -> Seq<Seq<char>> {
    split_raw(s).map_values(|line: Seq<char>| strip_cr(line))
}

/// The result of inserting `c` into `line` at column `i`: the column is
/// clamped to the line's length, so any `i` at or past the end appends.
pub open spec fn insert_in_line(line: Seq<char>, i: int, c: char) -> Seq<char> {
    let j = if i <= line.len() {
        i
    } else {
        line.len() as int
    };
    line.take(j) + seq![c] + line.skip(j)
}

/// One segment per line feed, plus the segment after the last one.
pub proof fn lemma_split_raw_len(s: Seq<char>)
    ensures
        split_raw(s).len() == 1 + count_newlines(s),
    decreases s.len(),
{
    if s.len() > 0 {
        lemma_split_raw_len(s.drop_last());
    }
}

/// `strip_cr` applied to every element of `ls`.
pub open spec fn map_strip(ls: Seq<Seq<char>>) -> Seq<Seq<char>> {
    ls.map_values(|line: Seq<char>| strip_cr(line))
}

/// The views of a sequence of line vectors.
spec fn views_of(ls: Seq<Vec<char>>) -> Seq<Seq<char>> {
    ls.map_values(|line: Vec<char>| line@)
}

proof fn lemma_views_of_push(ls: Seq<Vec<char>>, v: Vec<char>)
    ensures
        views_of(ls.push(v)) =~= views_of(ls).push(v@),
{
}

proof fn lemma_map_strip_unsnoc(r: Seq<Seq<char>>)
    requires
        r.len() >= 1,
    ensures
        map_strip(r) =~= map_strip(r.drop_last()).push(strip_cr(r.last())),
{
}

/// Law: loading keeps one line per line feed — the line count is one more
/// than the number of line feeds — and each stored line is its raw segment
/// with at most one trailing carriage return removed.
pub proof fn lemma_construct_shape(data: Seq<char>)
    ensures
        lines_of(data).len() == 1 + count_newlines(data),
        forall|j: int|
            0 <= j < lines_of(data).len() ==> {
                let raw = #[trigger] split_raw(data)[j];
                lines_of(data)[j] == raw || (raw.len() > 0 && raw.last() == '\r'
                    && lines_of(data)[j] == raw.drop_last())
            },
{
    lemma_split_raw_len(data);
}

proof fn lemma_split_raw_no_newline(s: Seq<char>)
    ensures
        forall|j: int, k: int|
            0 <= j < split_raw(s).len() && 0 <= k < split_raw(s)[j].len() ==> #[trigger] split_raw(
                s,
            )[j][k] != '\n',
    decreases s.len(),
{
    if s.len() > 0 {
        lemma_split_raw_no_newline(s.drop_last());
        lemma_split_raw_len(s.drop_last());
        let r = split_raw(s.drop_last());
        let t = split_raw(s);
        if s.last() != '\n' {
            assert(t == r.update(r.len() - 1, r.last().push(s.last())));
        }
        assert forall|j: int, k: int|
            0 <= j < t.len() && 0 <= k < t[j].len() implies #[trigger] t[j][k] != '\n' by {
            if s.last() == '\n' {
                if j < r.len() {
                    assert(t[j] == r[j]);
                    assert(r[j][k] != '\n');
                } else {
                    assert(t[j].len() == 0);
                }
            } else {
                if j == r.len() - 1 {
                    assert(t[j] == r.last().push(s.last()));
                    if k < r.last().len() {
                        assert(r[j][k] != '\n');
                        assert(t[j][k] == r.last()[k]);
                    } else {
                        assert(t[j][k] == s.last());
                    }
                } else {
                    assert(t[j] == r[j]);
                    assert(r[j][k] != '\n');
                }
            }
        }
    }
}

/// Law: no stored line contains an embedded line feed — splitting consumes
/// every one of them.
pub proof fn lemma_lines_no_newline(data: Seq<char>)
    ensures
        forall|j: int, k: int|
            0 <= j < lines_of(data).len() && 0 <= k < lines_of(data)[j].len() ==> #[trigger] lines_of(
                data,
            )[j][k] != '\n',
{
    lemma_split_raw_no_newline(data);
    assert forall|j: int, k: int|
        0 <= j < lines_of(data).len() && 0 <= k < lines_of(data)[j].len() implies #[trigger] lines_of(
        data,
    )[j][k] != '\n' by {
        assert(lines_of(data)[j] == strip_cr(split_raw(data)[j]));
        assert(split_raw(data)[j][k] != '\n');
    }
}

/// Law: inserting at the line's length and at any column past it produce the
/// same line (columns past the end mean "append").
pub proof fn lemma_insert_append(line: Seq<char>, i: int, c: char)
    requires
        i >= line.len(),
    ensures
        insert_in_line(line, i, c) == insert_in_line(line, line.len() as int, c),
{
}

/// `line` with a single trailing carriage return removed, if it has one.
fn strip_cr_line(line: Vec<char>) -> (r: Vec<char>)
    ensures
        r@ == strip_cr(line@),
{
    let mut l = line;
    if l.len() > 0 && l[l.len() - 1] == '\r' {
        l.pop();
    }
    l
}

/// The text store: one entry per logical line, in document order. Lines are
/// held as character vectors; a line never contains a line feed, and loading
/// strips at most one trailing carriage return per line.
pub struct Backend {
    lines: Vec<Vec<char>>,
}

impl View for Backend {
    type V = Seq<Seq<char>>;

    closed spec fn view(&self) -> Seq<Seq<char>> {
        views_of(self.lines@)
    }
}

impl Backend {
    /// Split `data` on line feeds and strip one trailing carriage return
    /// from each resulting line; an empty input yields one empty line.
    pub fn new(data: String) -> (r: Backend)
        ensures
            r@ == lines_of(data@),
            r@.len() >= 1,
    {
        let mut lines: Vec<Vec<char>> = Vec::new();
        let mut cur: Vec<char> = Vec::new();
        proof {
            assert(data@.take(0) =~= Seq::<char>::empty());
            assert(views_of(lines@) =~= map_strip(split_raw(data@.take(0)).drop_last()));
        }
        for c in it: data.as_str().chars()
            invariant
                it.seq() == data@,
                views_of(lines@) == map_strip(split_raw(data@.take(it.index())).drop_last()),
                cur@ == split_raw(data@.take(it.index())).last(),
        {
            proof {
                let i: int = it.index();
                assert(c == data@[i]);
                assert(data@.take(i + 1) =~= data@.take(i).push(data@[i]));
                assert(data@.take(i + 1).drop_last() =~= data@.take(i));
            }
            let ghost prev = split_raw(data@.take(it.index()));
            let ghost next = split_raw(data@.take(it.index() + 1));
            proof {
                lemma_split_raw_len(data@.take(it.index()));
            }
            if c == '\n' {
                proof {
                    assert(next == prev.push(Seq::<char>::empty()));
                    assert(next.drop_last() =~= prev);
                    lemma_map_strip_unsnoc(prev);
                }
                let stripped = strip_cr_line(cur);
                proof {
                    lemma_views_of_push(lines@, stripped);
                }
                lines.push(stripped);
                cur = Vec::new();
            } else {
                proof {
                    assert(next == prev.update(prev.len() - 1, prev.last().push(c)));
                    assert(next.drop_last() =~= prev.drop_last());
                    assert(next.last() == prev.last().push(c));
                }
                cur.push(c);
            }
        }
        proof {
            assert(data@.take(data@.len() as int) =~= data@);
            lemma_split_raw_len(data@);
            lemma_map_strip_unsnoc(split_raw(data@));
        }
        let tail = strip_cr_line(cur);
        proof {
            lemma_views_of_push(lines@, tail);
        }
        lines.push(tail);
        Backend { lines }
    }

    /// The line at index `i`, or nothing when `i` is out of range.
    pub fn get_row(&self, i: usize) -> (r: Option<&Vec<char>>)
        ensures
            i < self@.len() ==> (r matches Some(line) && line@ == self@[i as int]),
            i >= self@.len() ==> r is None,
    {
        if i < self.lines.len() {
            Some(&self.lines[i])
        } else {
            None
        }
    }

    /// Total number of logical lines.
    pub fn row_length(&self) -> (r: usize)
        ensures
            r == self@.len(),
    {
        self.lines.len()
    }

    /// Insert `s` into line `l` at column `i`. A column at or past the end
    /// of the line appends; an out-of-range `l` leaves the buffer unchanged.
    pub fn insert(&mut self, l: usize, i: usize, s: char)
        ensures
            l < old(self)@.len() ==> final(self)@ == old(self)@.update(
                l as int,
                insert_in_line(old(self)@[l as int], i as int, s),
            ),
            l >= old(self)@.len() ==> final(self)@ == old(self)@,
    {
        if l < self.lines.len() {
            let n = self.lines[l].len();
            let j = if i <= n {
                i
            } else {
                n
            };
            let mut newline: Vec<char> = Vec::new();
            let mut k: usize = 0;
            while k < j
                invariant
                    j <= n,
                    n == self.lines@[l as int]@.len(),
                    l < self.lines@.len(),
                    k <= j,
                    newline@ == self.lines@[l as int]@.take(k as int),
                decreases j - k,
            {
                newline.push(self.lines[l][k]);
                proof {
                    assert(self.lines@[l as int]@.take(k + 1) =~= self.lines@[l as int]@.take(
                        k as int,
                    ).push(self.lines@[l as int]@[k as int]));
                }
                k = k + 1;
            }
            newline.push(s);
            let mut m: usize = j;
            while m < n
                invariant
                    j <= n,
                    n == self.lines@[l as int]@.len(),
                    l < self.lines@.len(),
                    j <= m <= n,
                    newline@ == self.lines@[l as int]@.take(j as int) + seq![s]
                        + self.lines@[l as int]@.subrange(j as int, m as int),
                decreases n - m,
            {
                newline.push(self.lines[l][m]);
                proof {
                    assert(self.lines@[l as int]@.subrange(j as int, m + 1)
                        =~= self.lines@[l as int]@.subrange(j as int, m as int).push(
                        self.lines@[l as int]@[m as int],
                    ));
                }
                m = m + 1;
            }
            proof {
                assert(self.lines@[l as int]@.subrange(j as int, n as int)
                    =~= self.lines@[l as int]@.skip(j as int));
                assert(newline@ == insert_in_line(self.lines@[l as int]@, i as int, s));
            }
            self.lines[l] = newline;
            proof {
                assert(views_of(self.lines@) =~= views_of(old(self).lines@).update(
                    l as int,
                    newline@,
                ));
            }
        }
    }
}

} // verus!

