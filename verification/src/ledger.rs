//! The processed-file ledger: parsing its persisted text, the membership
//! check that makes repeated runs skip prior work, the run planner that folds
//! a file list over a ledger, and the check that keeps the ignore-list rule
//! from being added twice.

use vstd::prelude::*;
use vstd::string::*;
use crate::annotate::{rtrim_end, rtrim_exec};
use crate::text::{line_views, skip_spaces, space_run_end, split_from, split_lines, str_eq};

verus! {

/// Reads the ledger's persisted text into its recorded paths, one per line.
pub fn parse_ledger(text: &str) -> (v: Vec<String>)
    ensures
        line_views(v@) == split_from(text@, 0),
{
    split_lines(text)
}

/// Whether `path` is already recorded in the ledger.
pub fn ledger_contains(ledger: &Vec<String>, path: &str) -> (r: bool)
    ensures
        r == line_views(ledger@).contains(path@),
{
    let n = ledger.len();
    let mut j: usize = 0;
    while j < n
        invariant
            j <= n,
            n == ledger@.len(),
            forall|t: int| 0 <= t < j ==> line_views(ledger@)[t] != path@,
        decreases n - j,
    {
        if str_eq(ledger[j].as_str(), path) {
            proof {
                assert(line_views(ledger@)[j as int] == path@);
            }
            return true;
        }
        j += 1;
    }
    false
}

/// The ledger after a run over the first `n` files: each file not yet
/// recorded at its turn is appended.
pub open spec fn run_ledger(led: Seq<Seq<char>>, fs: Seq<Seq<char>>, n: int) -> Seq<Seq<char>>
    decreases n,
{
    if n <= 0 {
        led
    } else {
        let prev = run_ledger(led, fs, n - 1);
        if prev.contains(fs[n - 1]) {
            prev
        } else {
            prev.push(fs[n - 1])
        }
    }
}

/// The files a run over the first `n` files processes: each file not yet
/// recorded at its turn, in order.
pub open spec fn run_todo(led: Seq<Seq<char>>, fs: Seq<Seq<char>>, n: int) -> Seq<Seq<char>>
    decreases n,
{
    if n <= 0 {
        Seq::empty()
    } else {
        let prev = run_ledger(led, fs, n - 1);
        let done = run_todo(led, fs, n - 1);
        if prev.contains(fs[n - 1]) {
            done
        } else {
            done.push(fs[n - 1])
        }
    }
}

/// Plans one run: hands back the ledger as it stands after the run and the
/// files the run must process, in order. A file already recorded at its turn
/// is skipped; every other file is processed and recorded at once, so the
/// ledger records no path twice on account of this run.
pub fn plan_run(ledger: Vec<String>, files: &Vec<String>) -> (r: (Vec<String>, Vec<String>))
    ensures
        line_views(r.0@) == run_ledger(line_views(ledger@), line_views(files@), files@.len() as int),
        line_views(r.1@) == run_todo(line_views(ledger@), line_views(files@), files@.len() as int),
{
    let ghost l0 = line_views(ledger@);
    let ghost fv = line_views(files@);
    let mut cur = ledger;
    let mut todo: Vec<String> = Vec::new();
    let n = files.len();
    let mut i: usize = 0;
    while i < n
        invariant
            i <= n,
            n == files@.len(),
            fv == line_views(files@),
            line_views(cur@) == run_ledger(l0, fv, i as int),
            line_views(todo@) == run_todo(l0, fv, i as int),
        decreases n - i,
    {
        let ghost curv = line_views(cur@);
        let ghost todov = line_views(todo@);
        let f = &files[i];
        proof {
            assert(fv[i as int] == f@);
        }
        if !ledger_contains(&cur, f.as_str()) {
            cur.push(f.clone());
            todo.push(f.clone());
            proof {
                assert(line_views(cur@) =~= curv.push(f@));
                assert(line_views(todo@) =~= todov.push(f@));
            }
        }
        i += 1;
    }
    (cur, todo)
}

proof fn lemma_push_contains(s: Seq<Seq<char>>, x: Seq<char>, p: Seq<char>)
    ensures
        s.push(x).contains(p) <==> s.contains(p) || p == x,
{
    if s.push(x).contains(p) {
        let i = choose|i: int| 0 <= i < s.push(x).len() && s.push(x)[i] == p;
        if i < s.len() {
            assert(s[i] == p);
        }
    }
    if s.contains(p) {
        let i = choose|i: int| 0 <= i < s.len() && s[i] == p;
        assert(s.push(x)[i] == p);
    }
    if p == x {
        assert(s.push(x)[s.len() as int] == p);
    }
}

/// A path stands in the ledger after a run exactly when it stood there
/// before or the run processed it.
pub proof fn lemma_run_ledger_membership(
    led: Seq<Seq<char>>,
    fs: Seq<Seq<char>>,
    n: int,
    p: Seq<char>,
)
    requires
        0 <= n <= fs.len(),
    ensures
        run_ledger(led, fs, n).contains(p) <==> led.contains(p) || run_todo(led, fs, n).contains(
            p,
        ),
    decreases n,
{
    if n > 0 {
        lemma_run_ledger_membership(led, fs, n - 1, p);
        let lp = run_ledger(led, fs, n - 1);
        let tp = run_todo(led, fs, n - 1);
        if lp.contains(fs[n - 1]) {
        } else {
            lemma_push_contains(lp, fs[n - 1], p);
            lemma_push_contains(tp, fs[n - 1], p);
        }
    }
}

/// After a run over the first `n` files, every one of them is recorded.
pub proof fn lemma_run_ledger_covers(led: Seq<Seq<char>>, fs: Seq<Seq<char>>, n: int, i: int)
    requires
        0 <= i < n <= fs.len(),
    ensures
        run_ledger(led, fs, n).contains(fs[i]),
    decreases n,
{
    let lp = run_ledger(led, fs, n - 1);
    if i < n - 1 {
        lemma_run_ledger_covers(led, fs, n - 1, i);
    }
    if lp.contains(fs[n - 1]) {
    } else {
        lemma_push_contains(lp, fs[n - 1], fs[i]);
    }
}

/// A run whose every file is already recorded plans no work and leaves the
/// ledger unchanged.
pub proof fn lemma_covered_run_is_empty(led: Seq<Seq<char>>, fs: Seq<Seq<char>>, n: int)
    requires
        0 <= n <= fs.len(),
        forall|i: int| 0 <= i < n ==> led.contains(fs[i]),
    ensures
        run_todo(led, fs, n) == Seq::<Seq<char>>::empty(),
        run_ledger(led, fs, n) == led,
    decreases n,
{
    if n > 0 {
        lemma_covered_run_is_empty(led, fs, n - 1);
    }
}

/// Running the pipeline a second time over the same files with the ledger
/// kept intact adds nothing: the second run plans no file at all, and the
/// ledger stands as the first run left it.
pub proof fn lemma_second_run_is_noop(led: Seq<Seq<char>>, fs: Seq<Seq<char>>)
    ensures
        run_todo(run_ledger(led, fs, fs.len() as int), fs, fs.len() as int) == Seq::<
            Seq<char>,
        >::empty(),
        run_ledger(run_ledger(led, fs, fs.len() as int), fs, fs.len() as int) == run_ledger(
            led,
            fs,
            fs.len() as int,
        ),
{
    let l1 = run_ledger(led, fs, fs.len() as int);
    assert forall|i: int| 0 <= i < fs.len() implies l1.contains(fs[i]) by {
        lemma_run_ledger_covers(led, fs, fs.len() as int, i);
    };
    lemma_covered_run_is_empty(l1, fs, fs.len() as int);
}

/// After a reset the ledger is empty, so every listed file — also one that an
/// earlier run skipped — is planned for processing again.
pub proof fn lemma_reset_reprocesses(fs: Seq<Seq<char>>, i: int)
    requires
        0 <= i < fs.len(),
    ensures
        run_todo(Seq::empty(), fs, fs.len() as int).contains(fs[i]),
{
    lemma_run_ledger_covers(Seq::empty(), fs, fs.len() as int, i);
    lemma_run_ledger_membership(Seq::empty(), fs, fs.len() as int, fs[i]);
    assert(!Seq::<Seq<char>>::empty().contains(fs[i]));
}

/// A line with surrounding whitespace removed.
pub open spec fn trimmed(l: Seq<char>) -> Seq<char> {
    let a = space_run_end(l, 0);
    let b = rtrim_end(l, l.len() as int);
    if 0 <= a <= b <= l.len() {
        l.subrange(a, b)
    } else {
        Seq::empty()
    }
}

/// `.gen_doc_his`, the ledger's file name.
pub open spec fn sentinel_name() -> Seq<char> {
    seq!['.', 'g', 'e', 'n', '_', 'd', 'o', 'c', '_', 'h', 'i', 's']
}

/// Some line of the ignore-list text already names the ledger file.
pub open spec fn gitignore_has_rule(t: Seq<char>) -> bool {
    exists|i: int|
        0 <= i < split_from(t, 0).len() && trimmed(split_from(t, 0)[i]) == sentinel_name()
}

/// Whether the ignore-list text still lacks its rule for the ledger file:
/// true exactly when no line, trimmed, equals the ledger's file name.
pub fn gitignore_needs_rule(content: &str) -> (r: bool)
    ensures
        r == !gitignore_has_rule(content@),
{
    let lines = split_lines(content);
    let n = lines.len();
    let mut j: usize = 0;
    while j < n
        invariant
            j <= n,
            n == lines@.len(),
            line_views(lines@) == split_from(content@, 0),
            forall|t: int| 0 <= t < j ==> trimmed(line_views(lines@)[t]) != sentinel_name(),
        decreases n - j,
    {
        let l = lines[j].as_str();
        let ln = l.unicode_len();
        let a = skip_spaces(l, 0);
        let b = rtrim_exec(l, ln);
        proof {
            reveal_strlit(".gen_doc_his");
            assert((".gen_doc_his")@ =~= sentinel_name());
        }
        if a <= b {
            let piece = l.substring_char(a, b);
            if str_eq(piece, ".gen_doc_his") {
                proof {
                    assert(trimmed(line_views(lines@)[j as int]) == sentinel_name());
                }
                return false;
            }
        } else {
            proof {
                assert(trimmed(line_views(lines@)[j as int]) =~= Seq::<char>::empty());
            }
        }
        j += 1;
    }
    true
}

/// The ledger's file name, for the callers that read, append or delete it.
pub fn ledger_file_name() -> (r: String)
    ensures
        r@ == sentinel_name(),
{
    proof {
        reveal_strlit(".gen_doc_his");
        assert((".gen_doc_his")@ =~= sentinel_name());
    }
    (".gen_doc_his").to_owned()
}

} // verus!
