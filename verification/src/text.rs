//! Character classes, line scanning primitives, and the split/join of a text
//! into its lines. Everything downstream is stated over these spec functions.

use vstd::prelude::*;
use vstd::string::*;

verus! {

/// Line-internal whitespace: spaces, tabs, and carriage returns.
pub open spec fn is_space(c: char) -> bool {
    c == ' ' || c == '\t' || c == '\r'
}

/// Identifier characters: ASCII letters, digits, and the underscore.
pub open spec fn is_word_char(c: char) -> bool {
    let u = c as u32;
    (97 <= u && u <= 122) || (65 <= u && u <= 90) || (48 <= u && u <= 57) || u == 95
}

/// First index at or after `i` holding a non-whitespace character.
pub open spec fn space_run_end(l: Seq<char>, i: int) -> int
    decreases l.len() - i,
    when 0 <= i <= l.len()
{
    if i < l.len() && is_space(l[i]) {
        space_run_end(l, i + 1)
    } else {
        i
    }
}

/// First index at or after `i` holding a non-identifier character.
pub open spec fn word_run_end(l: Seq<char>, i: int) -> int
    decreases l.len() - i,
    when 0 <= i <= l.len()
{
    if i < l.len() && is_word_char(l[i]) {
        word_run_end(l, i + 1)
    } else {
        i
    }
}

pub proof fn lemma_space_run_end_bounds(l: Seq<char>, i: int)
    requires
        0 <= i <= l.len(),
    ensures
        i <= space_run_end(l, i) <= l.len(),
    decreases l.len() - i,
{
    if i < l.len() && is_space(l[i]) {
        lemma_space_run_end_bounds(l, i + 1);
    }
}

pub proof fn lemma_word_run_end_bounds(l: Seq<char>, i: int)
    requires
        0 <= i <= l.len(),
    ensures
        i <= word_run_end(l, i) <= l.len(),
    decreases l.len() - i,
{
    if i < l.len() && is_word_char(l[i]) {
        lemma_word_run_end_bounds(l, i + 1);
    }
}

/// The characters of `kw` occur in `l` starting exactly at index `i`.
pub open spec fn starts_with_at(l: Seq<char>, i: int, kw: Seq<char>) -> bool {
    0 <= i && i + kw.len() <= l.len() && l.subrange(i, i + kw.len()) == kw
}

/// How many times `c` occurs in `l`.
pub open spec fn count_char(l: Seq<char>, c: char) -> int
    decreases l.len(),
{
    if l.len() == 0 {
        0
    } else {
        count_char(l.drop_last(), c) + if l.last() == c {
            1int
        } else {
            0int
        }
    }
}

/// First index at or after `i` holding `c`, or `l.len()` if there is none.
pub open spec fn find_char_from(l: Seq<char>, c: char, i: int) -> int
    decreases l.len() - i,
    when 0 <= i <= l.len()
{
    if i < l.len() {
        if l[i] == c {
            i
        } else {
            find_char_from(l, c, i + 1)
        }
    } else {
        l.len() as int
    }
}

pub proof fn lemma_find_char_from_bounds(l: Seq<char>, c: char, i: int)
    requires
        0 <= i <= l.len(),
    ensures
        i <= find_char_from(l, c, i) <= l.len(),
        find_char_from(l, c, i) < l.len() ==> l[find_char_from(l, c, i)] == c,
    decreases l.len() - i,
{
    if i < l.len() && l[i] != c {
        lemma_find_char_from_bounds(l, c, i + 1);
    }
}

/// The lines of the text from index `i` on: pieces between newline
/// characters, with no empty final piece after a terminating newline.
pub open spec fn split_from(t: Seq<char>, i: int) -> Seq<Seq<char>>
    decreases t.len() - i,
    when 0 <= i <= t.len()
    via split_from_decreases
{
    if i >= t.len() {
        Seq::empty()
    } else {
        let k = find_char_from(t, '\n', i);
        if k >= t.len() {
            seq![t.subrange(i, t.len() as int)]
        } else {
            seq![t.subrange(i, k)] + split_from(t, k + 1)
        }
    }
}

#[via_fn]
proof fn split_from_decreases(t: Seq<char>, i: int) {
    if 0 <= i && i < t.len() {
        lemma_find_char_from_bounds(t, '\n', i);
    }
}

/// The text whose lines are `ls`: each line followed by one newline.
pub open spec fn join_lines(ls: Seq<Seq<char>>) -> Seq<char>
    decreases ls.len(),
{
    if ls.len() == 0 {
        Seq::empty()
    } else {
        join_lines(ls.drop_last()) + ls.last() + seq!['\n']
    }
}

/// Combined length of all lines, newlines not counted.
pub open spec fn total_len(ls: Seq<Seq<char>>) -> int
    decreases ls.len(),
{
    if ls.len() == 0 {
        0
    } else {
        total_len(ls.drop_last()) + ls.last().len()
    }
}

pub proof fn lemma_total_len_take(ls: Seq<Seq<char>>, j: int)
    requires
        0 <= j <= ls.len(),
    ensures
        total_len(ls.take(j)) <= total_len(ls),
    decreases ls.len() - j,
{
    if j == ls.len() {
        assert(ls.take(j) =~= ls);
    } else {
        lemma_total_len_take(ls, j + 1);
        assert(ls.take(j + 1).drop_last() =~= ls.take(j));
        assert(ls.take(j + 1).last() == ls[j]);
    }
}

/// The views of a vector of owned lines.
pub open spec fn line_views(v: Seq<String>) -> Seq<Seq<char>> {
    v.map_values(|s: String| s@)
}

pub fn space_char(c: char) -> (r: bool)
    ensures
        r == is_space(c),
{
    c == ' ' || c == '\t' || c == '\r'
}

pub fn word_char(c: char) -> (r: bool)
    ensures
        r == is_word_char(c),
{
    let u = c as u32;
    (97 <= u && u <= 122) || (65 <= u && u <= 90) || (48 <= u && u <= 57) || u == 95
}

pub fn skip_spaces(l: &str, i: usize) -> (r: usize)
    requires
        i <= l@.len(),
    ensures
        r == space_run_end(l@, i as int),
        i <= r <= l@.len(),
{
    let n = l.unicode_len();
    let mut j = i;
    while j < n
        invariant
            i <= j <= n,
            n == l@.len(),
            space_run_end(l@, i as int) == space_run_end(l@, j as int),
        decreases n - j,
    {
        let c = l.get_char(j);
        if !space_char(c) {
            return j;
        }
        j += 1;
    }
    j
}

pub fn skip_word(l: &str, i: usize) -> (r: usize)
    requires
        i <= l@.len(),
    ensures
        r == word_run_end(l@, i as int),
        i <= r <= l@.len(),
{
    let n = l.unicode_len();
    let mut j = i;
    while j < n
        invariant
            i <= j <= n,
            n == l@.len(),
            word_run_end(l@, i as int) == word_run_end(l@, j as int),
        decreases n - j,
    {
        let c = l.get_char(j);
        if !word_char(c) {
            return j;
        }
        j += 1;
    }
    j
}

pub fn starts_at(l: &str, i: usize, kw: &str) -> (r: bool)
    ensures
        r == starts_with_at(l@, i as int, kw@),
{
    let n = l.unicode_len();
    let m = kw.unicode_len();
    if i > n || m > n - i {
        return false;
    }
    let mut k: usize = 0;
    while k < m
        invariant
            k <= m,
            i + m <= n,
            n == l@.len(),
            m == kw@.len(),
            forall|t: int| 0 <= t < k ==> l@[i + t] == kw@[t],
        decreases m - k,
    {
        if l.get_char(i + k) != kw.get_char(k) {
            proof {
                assert(l@.subrange(i as int, i + m as int)[k as int] != kw@[k as int]);
            }
            return false;
        }
        k += 1;
    }
    proof {
        assert(l@.subrange(i as int, i + m as int) =~= kw@);
    }
    true
}

pub fn count_char_in(l: &str, c: char) -> (r: usize)
    ensures
        r == count_char(l@, c),
        r <= l@.len(),
{
    let n = l.unicode_len();
    let mut cnt: usize = 0;
    let mut j: usize = 0;
    while j < n
        invariant
            j <= n,
            n == l@.len(),
            cnt == count_char(l@.take(j as int), c),
            cnt <= j,
        decreases n - j,
    {
        let ch = l.get_char(j);
        proof {
            assert(l@.take(j as int + 1).drop_last() =~= l@.take(j as int));
            assert(l@.take(j as int + 1).last() == l@[j as int]);
        }
        if ch == c {
            cnt += 1;
        }
        j += 1;
    }
    proof {
        assert(l@.take(n as int) =~= l@);
    }
    cnt
}

pub fn str_eq(a: &str, b: &str) -> (r: bool)
    ensures
        r == (a@ == b@),
{
    let n = a.unicode_len();
    let m = b.unicode_len();
    if n != m {
        return false;
    }
    let mut j: usize = 0;
    while j < n
        invariant
            j <= n,
            n == a@.len(),
            n == b@.len(),
            forall|t: int| 0 <= t < j ==> a@[t] == b@[t],
        decreases n - j,
    {
        if a.get_char(j) != b.get_char(j) {
            return false;
        }
        j += 1;
    }
    proof {
        assert(a@ =~= b@);
    }
    true
}

/// Cuts a text into its lines, as `str::lines` does for newline-terminated
/// or unterminated final lines.
pub fn split_lines(t: &str) -> (lines: Vec<String>)
    ensures
        line_views(lines@) == split_from(t@, 0),
        total_len(line_views(lines@)) <= t@.len(),
{
    let n = t.unicode_len();
    let mut lines: Vec<String> = Vec::new();
    let mut start: usize = 0;
    let mut j: usize = 0;
    while j < n
        invariant
            start <= j <= n,
            n == t@.len(),
            find_char_from(t@, '\n', start as int) == find_char_from(t@, '\n', j as int),
            split_from(t@, 0) == line_views(lines@) + split_from(t@, start as int),
            total_len(line_views(lines@)) + (j - start) <= j,
        decreases n - j,
    {
        let c = t.get_char(j);
        if c == '\n' {
            let ghost prev = line_views(lines@);
            let piece = t.substring_char(start, j);
            lines.push(piece.to_owned());
            proof {
                assert(find_char_from(t@, '\n', j as int) == j);
                assert(line_views(lines@) =~= prev.push(piece@));
                assert(line_views(lines@).drop_last() =~= prev);
                assert(split_from(t@, start as int) == seq![t@.subrange(start as int, j as int)]
                    + split_from(t@, j + 1));
                assert(split_from(t@, 0) =~= line_views(lines@) + split_from(t@, j + 1));
            }
            start = j + 1;
        }
        j += 1;
    }
    if start < n {
        let ghost prev = line_views(lines@);
        let piece = t.substring_char(start, n);
        lines.push(piece.to_owned());
        proof {
            assert(find_char_from(t@, '\n', start as int) == n);
            assert(line_views(lines@) =~= prev.push(piece@));
            assert(line_views(lines@).drop_last() =~= prev);
            assert(split_from(t@, start as int) =~= seq![t@.subrange(start as int, n as int)]);
            assert(split_from(t@, 0) =~= line_views(lines@));
        }
    } else {
        proof {
            assert(split_from(t@, start as int) =~= Seq::<Seq<char>>::empty());
            assert(split_from(t@, 0) =~= line_views(lines@));
        }
    }
    lines
}

/// Reassembles lines into one text, each line followed by a newline.
pub fn join_lines_exec(lines: &Vec<String>) -> (r: String)
    ensures
        r@ == join_lines(line_views(lines@)),
{
    let mut out = String::new();
    let n = lines.len();
    let mut j: usize = 0;
    while j < n
        invariant
            j <= n,
            n == lines@.len(),
            out@ == join_lines(line_views(lines@).take(j as int)),
        decreases n - j,
    {
        out.append(lines[j].as_str());
        out.append("\n");
        proof {
            reveal_strlit("\n");
            assert(("\n")@ =~= seq!['\n']);
            let vs = line_views(lines@);
            assert(vs.take(j as int + 1).drop_last() =~= vs.take(j as int));
            assert(vs.take(j as int + 1).last() == vs[j as int]);
        }
        j += 1;
    }
    proof {
        assert(line_views(lines@).take(n as int) =~= line_views(lines@));
    }
    out
}

} // verus!
