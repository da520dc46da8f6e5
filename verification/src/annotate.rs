//! The declaration annotator: recognizes struct, enum and trait declaration
//! lines (with any decorator lines immediately above them) and public-function
//! signature lines, and inserts one placeholder documentation comment directly
//! above each recognized declaration, at the declaration's own indentation.

use vstd::prelude::*;
use vstd::string::*;
use crate::text::{
    is_space, is_word_char, join_lines, join_lines_exec, line_views, skip_spaces, skip_word,
    lemma_word_run_end_bounds, space_char, space_run_end, split_from, split_lines, starts_at,
    starts_with_at, word_char, word_run_end,
};

verus! {

pub open spec fn pub_kw() -> Seq<char> {
    seq!['p', 'u', 'b']
}

pub open spec fn struct_kw() -> Seq<char> {
    seq!['s', 't', 'r', 'u', 'c', 't']
}

pub open spec fn enum_kw() -> Seq<char> {
    seq!['e', 'n', 'u', 'm']
}

pub open spec fn trait_kw() -> Seq<char> {
    seq!['t', 'r', 'a', 'i', 't']
}

pub open spec fn fn_kw() -> Seq<char> {
    seq!['f', 'n']
}

/// `/// WIP_`, the fixed opening of every placeholder comment.
pub open spec fn wip_head() -> Seq<char> {
    seq!['/', '/', '/', ' ', 'W', 'I', 'P', '_']
}

pub open spec fn struct_tail() -> Seq<char> {
    seq!['_', 's', 't', 'r', 'u', 'c', 't', '_', 'd', 'e', 's', 'c', 'r', 'i', 'p', 't', 'i', 'o', 'n']
}

pub open spec fn enum_tail() -> Seq<char> {
    seq!['_', 'e', 'n', 'u', 'm', '_', 'd', 'e', 's', 'c', 'r', 'i', 'p', 't', 'i', 'o', 'n']
}

pub open spec fn trait_tail() -> Seq<char> {
    seq!['_', 't', 'r', 'a', 'i', 't', '_', 'd', 'e', 's', 'c', 'r', 'i', 'p', 't', 'i', 'o', 'n']
}

pub open spec fn function_tail() -> Seq<char> {
    seq!['_', 'f', 'u', 'n', 'c', 't', 'i', 'o', 'n', '_', 'd', 'e', 's', 'c', 'r', 'i', 'p', 't', 'i', 'o', 'n']
}

/// A placeholder comment line: indentation, `/// WIP_`, the recognized
/// name, and the per-kind tail `_<kind>_description`.
pub open spec fn comment_line(indent: Seq<char>, name: Seq<char>, tail: Seq<char>) -> Seq<char> {
    indent + wip_head() + name + tail
}

/// Where the identifier after keyword `kw` at position `q` begins, or -1 if
/// `kw` followed by whitespace and an identifier does not stand at `q`.
pub open spec fn after_kw_name_start(l: Seq<char>, q: int, kw: Seq<char>) -> int {
    if starts_with_at(l, q, kw) && q + kw.len() < l.len() && is_space(l[q + kw.len()]) {
        let r = space_run_end(l, q + kw.len());
        if r < l.len() && is_word_char(l[r]) {
            r
        } else {
            -1
        }
    } else {
        -1
    }
}

/// Where the declared identifier of a `kw` declaration line begins: after
/// leading whitespace, an optional (or, for `need_pub`, required) `pub`
/// qualifier, the keyword, and whitespace. -1 if the line is no such
/// declaration.
pub open spec fn decl_name_start(l: Seq<char>, kw: Seq<char>, need_pub: bool) -> int {
    let p = space_run_end(l, 0);
    let has_pub = starts_with_at(l, p, pub_kw()) && p + 3 < l.len() && is_space(l[p + 3]);
    if has_pub {
        after_kw_name_start(l, space_run_end(l, p + 3), kw)
    } else if need_pub {
        -1
    } else {
        after_kw_name_start(l, p, kw)
    }
}

pub open spec fn decl_name(l: Seq<char>, kw: Seq<char>, need_pub: bool) -> Seq<char> {
    let a = decl_name_start(l, kw, need_pub);
    l.subrange(a, word_run_end(l, a))
}

pub open spec fn is_struct_decl(l: Seq<char>) -> bool {
    decl_name_start(l, struct_kw(), false) >= 0
}

pub open spec fn struct_name(l: Seq<char>) -> Seq<char> {
    decl_name(l, struct_kw(), false)
}

pub open spec fn is_enum_decl(l: Seq<char>) -> bool {
    decl_name_start(l, enum_kw(), false) >= 0
}

pub open spec fn enum_name(l: Seq<char>) -> Seq<char> {
    decl_name(l, enum_kw(), false)
}

pub open spec fn is_trait_decl(l: Seq<char>) -> bool {
    decl_name_start(l, trait_kw(), false) >= 0
}

pub open spec fn trait_name(l: Seq<char>) -> Seq<char> {
    decl_name(l, trait_kw(), false)
}

/// A public function signature line: `pub`, `fn`, an identifier, then an
/// opening parenthesis. Functions without the visibility qualifier are not
/// recognized.
pub open spec fn is_pub_fn_decl(l: Seq<char>) -> bool {
    let a = decl_name_start(l, fn_kw(), true);
    a >= 0 && {
        let e = word_run_end(l, a);
        let q = space_run_end(l, e);
        q < l.len() && l[q] == '('
    }
}

pub open spec fn fn_name(l: Seq<char>) -> Seq<char> {
    decl_name(l, fn_kw(), true)
}

/// Index after the trailing whitespace run that ends at `j`.
pub open spec fn rtrim_end(l: Seq<char>, j: int) -> int
    decreases j,
    when 0 <= j <= l.len()
{
    if 0 < j && is_space(l[j - 1]) {
        rtrim_end(l, j - 1)
    } else {
        j
    }
}

/// A decorator line: ignoring surrounding whitespace, it opens with `#[` and
/// closes with `]`.
pub open spec fn is_decor(l: Seq<char>) -> bool {
    let a = space_run_end(l, 0);
    let b = rtrim_end(l, l.len() as int);
    a + 3 <= b && l[a] == '#' && l[a + 1] == '[' && l[b - 1] == ']'
}

pub open spec fn line_indent(l: Seq<char>) -> Seq<char> {
    l.subrange(0, space_run_end(l, 0))
}

/// End of the run of decorator lines that starts at line `i`.
pub open spec fn run_end(lines: Seq<Seq<char>>, i: int) -> int
    decreases lines.len() - i,
    when 0 <= i <= lines.len()
{
    if i < lines.len() && is_decor(lines[i]) {
        run_end(lines, i + 1)
    } else {
        i
    }
}

/// The comment for a struct, enum or trait declaration line, if it is one.
pub open spec fn keyword_comment(l: Seq<char>) -> Option<Seq<char>> {
    if is_struct_decl(l) {
        Some(comment_line(line_indent(l), struct_name(l), struct_tail()))
    } else if is_enum_decl(l) {
        Some(comment_line(line_indent(l), enum_name(l), enum_tail()))
    } else if is_trait_decl(l) {
        Some(comment_line(line_indent(l), trait_name(l), trait_tail()))
    } else {
        None
    }
}

/// The placeholder comment inserted directly before line `i`, if any: one for
/// a public function signature on line `i` itself, or one for the struct,
/// enum or trait declaration that closes the decorator run starting at `i`.
pub open spec fn comment_before(lines: Seq<Seq<char>>, i: int) -> Option<Seq<char>>
    recommends
        0 <= i < lines.len(),
{
    if is_pub_fn_decl(lines[i]) {
        Some(comment_line(line_indent(lines[i]), fn_name(lines[i]), function_tail()))
    } else if (i == 0 || !is_decor(lines[i - 1])) && run_end(lines, i) < lines.len() {
        keyword_comment(lines[run_end(lines, i)])
    } else {
        None
    }
}

/// What the annotator emits for line `i`: the line, preceded by its
/// placeholder comment where one is due.
pub open spec fn decl_line_out(lines: Seq<Seq<char>>, i: int) -> Seq<Seq<char>> {
    match comment_before(lines, i) {
        Some(c) => seq![c, lines[i]],
        None => seq![lines[i]],
    }
}

/// The annotator's output for the first `n` lines.
pub open spec fn decl_out(lines: Seq<Seq<char>>, n: int) -> Seq<Seq<char>>
    decreases n,
{
    if n <= 0 {
        Seq::empty()
    } else {
        decl_out(lines, n - 1) + decl_line_out(lines, n - 1)
    }
}

/// The declaration-annotated form of a whole text.
pub open spec fn annotated_declarations(t: Seq<char>) -> Seq<char> {
    let ls = split_from(t, 0);
    join_lines(decl_out(ls, ls.len() as int))
}

pub proof fn lemma_rtrim_end_bounds(l: Seq<char>, j: int)
    requires
        0 <= j <= l.len(),
    ensures
        0 <= rtrim_end(l, j) <= j,
    decreases j,
{
    if 0 < j && is_space(l[j - 1]) {
        lemma_rtrim_end_bounds(l, j - 1);
    }
}

/// The recognized line shapes exclude one another: a line declares at most
/// one of struct, enum, trait or public function, and none of these is a
/// decorator line.
pub proof fn lemma_kind_exclusive(l: Seq<char>)
    ensures
        is_struct_decl(l) ==> !is_enum_decl(l) && !is_trait_decl(l) && !is_pub_fn_decl(l)
            && !is_decor(l),
        is_enum_decl(l) ==> !is_struct_decl(l) && !is_trait_decl(l) && !is_pub_fn_decl(l)
            && !is_decor(l),
        is_trait_decl(l) ==> !is_struct_decl(l) && !is_enum_decl(l) && !is_pub_fn_decl(l)
            && !is_decor(l),
        is_pub_fn_decl(l) ==> !is_decor(l),
{
    crate::text::lemma_space_run_end_bounds(l, 0);
    let p = space_run_end(l, 0);
    let has_pub = starts_with_at(l, p, pub_kw()) && p + 3 < l.len() && is_space(l[p + 3]);
    let q = if has_pub {
        space_run_end(l, p + 3)
    } else {
        p
    };
    if has_pub {
        crate::text::lemma_space_run_end_bounds(l, p + 3);
        assert(l[p] == l.subrange(p, p + 3)[0]);
    }
    lemma_rtrim_end_bounds(l, l.len() as int);
    if is_struct_decl(l) {
        assert(l[q] == l.subrange(q, q + 6)[0]);
    }
    if is_enum_decl(l) {
        assert(l[q] == l.subrange(q, q + 4)[0]);
    }
    if is_trait_decl(l) {
        assert(l[q] == l.subrange(q, q + 5)[0]);
    }
    if is_pub_fn_decl(l) {
        assert(l[q] == l.subrange(q, q + 2)[0]);
    }
}

/// Every well-formed struct declaration line with no decorator line directly
/// above it is emitted with exactly one placeholder comment directly above
/// it, at the declaration's own indentation and naming its identifier; the
/// declaration itself is kept unchanged.
pub proof fn lemma_struct_annotated(lines: Seq<Seq<char>>, i: int)
    requires
        0 <= i < lines.len(),
        is_struct_decl(lines[i]),
        i > 0 ==> !is_decor(lines[i - 1]),
    ensures
        decl_line_out(lines, i) == seq![
            comment_line(line_indent(lines[i]), struct_name(lines[i]), struct_tail()),
            lines[i],
        ],
{
    lemma_kind_exclusive(lines[i]);
}

/// The same, independently, for an enum declaration line.
pub proof fn lemma_enum_annotated(lines: Seq<Seq<char>>, i: int)
    requires
        0 <= i < lines.len(),
        is_enum_decl(lines[i]),
        i > 0 ==> !is_decor(lines[i - 1]),
    ensures
        decl_line_out(lines, i) == seq![
            comment_line(line_indent(lines[i]), enum_name(lines[i]), enum_tail()),
            lines[i],
        ],
{
    lemma_kind_exclusive(lines[i]);
}

/// The same, independently, for a trait declaration line.
pub proof fn lemma_trait_annotated(lines: Seq<Seq<char>>, i: int)
    requires
        0 <= i < lines.len(),
        is_trait_decl(lines[i]),
        i > 0 ==> !is_decor(lines[i - 1]),
    ensures
        decl_line_out(lines, i) == seq![
            comment_line(line_indent(lines[i]), trait_name(lines[i]), trait_tail()),
            lines[i],
        ],
{
    lemma_kind_exclusive(lines[i]);
}

/// The same for a public function signature line, wherever it stands.
pub proof fn lemma_fn_annotated(lines: Seq<Seq<char>>, i: int)
    requires
        0 <= i < lines.len(),
        is_pub_fn_decl(lines[i]),
    ensures
        decl_line_out(lines, i) == seq![
            comment_line(line_indent(lines[i]), fn_name(lines[i]), function_tail()),
            lines[i],
        ],
{
}

/// A line that matches no recognized declaration shape — a function without
/// the `pub` qualifier among them — and neither is a decorator line nor has
/// one directly above it, is emitted unchanged, with no comment.
pub proof fn lemma_unrecognized_line_unchanged(lines: Seq<Seq<char>>, i: int)
    requires
        0 <= i < lines.len(),
        !is_struct_decl(lines[i]),
        !is_enum_decl(lines[i]),
        !is_trait_decl(lines[i]),
        !is_pub_fn_decl(lines[i]),
        !is_decor(lines[i]),
        i > 0 ==> !is_decor(lines[i - 1]),
    ensures
        decl_line_out(lines, i) == seq![lines[i]],
{
}

proof fn lemma_run_end_through(lines: Seq<Seq<char>>, i: int, j: int)
    requires
        0 <= i <= j <= lines.len(),
        forall|t: int| i <= t < j ==> is_decor(lines[t]),
        j < lines.len() ==> !is_decor(lines[j]),
    ensures
        run_end(lines, i) == j,
    decreases j - i,
{
    if i < j {
        lemma_run_end_through(lines, i + 1, j);
    }
}

/// For a struct declaration that closes a run of decorator lines, the one
/// placeholder comment stands directly above the whole run; the decorator
/// lines themselves, and the declaration line, are kept without one.
pub proof fn lemma_decorated_struct_annotated(lines: Seq<Seq<char>>, i: int, j: int)
    requires
        0 <= i <= j < lines.len(),
        forall|t: int| i <= t < j ==> is_decor(lines[t]),
        is_struct_decl(lines[j]),
        i == 0 || !is_decor(lines[i - 1]),
    ensures
        decl_line_out(lines, i) == seq![
            comment_line(line_indent(lines[j]), struct_name(lines[j]), struct_tail()),
            lines[i],
        ],
        forall|t: int| i < t <= j ==> decl_line_out(lines, t) == seq![lines[t]],
{
    lemma_kind_exclusive(lines[j]);
    lemma_run_end_through(lines, i, j);
    if i < j {
        lemma_kind_exclusive(lines[i]);
    }
    assert forall|t: int| i < t <= j implies decl_line_out(lines, t) == seq![lines[t]] by {
        lemma_kind_exclusive(lines[t]);
        assert(is_decor(lines[t - 1]));
    };
}

/// Finds the declared name of a `kw` declaration on this line: start and end
/// of the identifier, or `None` if the line declares nothing with `kw`.
fn match_kw_name(l: &str, kw: &str, need_pub: bool) -> (r: Option<(usize, usize)>)
    ensures
        match r {
            Some((a, b)) => decl_name_start(l@, kw@, need_pub) == a as int && b as int
                == word_run_end(l@, a as int) && a < b <= l@.len(),
            None => decl_name_start(l@, kw@, need_pub) < 0,
        },
{
    let n = l.unicode_len();
    let m = kw.unicode_len();
    let p = skip_spaces(l, 0);
    proof {
        reveal_strlit("pub");
        assert(("pub")@ =~= pub_kw());
    }
    let has_pub = if starts_at(l, p, "pub") && p + 3 < n {
        space_char(l.get_char(p + 3))
    } else {
        false
    };
    let q: usize;
    if has_pub {
        q = skip_spaces(l, p + 3);
    } else if need_pub {
        return None;
    } else {
        q = p;
    }
    if starts_at(l, q, kw) && q + m < n {
        if space_char(l.get_char(q + m)) {
            let r = skip_spaces(l, q + m);
            if r < n {
                if word_char(l.get_char(r)) {
                    let b = skip_word(l, r);
                    proof {
                        lemma_word_run_end_bounds(l@, r as int + 1);
                        assert(word_run_end(l@, r as int) == word_run_end(l@, r as int + 1));
                    }
                    return Some((r, b));
                }
            }
        }
    }
    None
}

pub fn struct_decl_line(l: &str) -> (r: bool)
    ensures
        r == is_struct_decl(l@),
{
    proof {
        reveal_strlit("struct");
        assert(("struct")@ =~= struct_kw());
    }
    match_kw_name(l, "struct", false).is_some()
}

pub fn enum_decl_line(l: &str) -> (r: bool)
    ensures
        r == is_enum_decl(l@),
{
    proof {
        reveal_strlit("enum");
        assert(("enum")@ =~= enum_kw());
    }
    match_kw_name(l, "enum", false).is_some()
}

pub fn decor_line(l: &str) -> (r: bool)
    ensures
        r == is_decor(l@),
{
    let n = l.unicode_len();
    let a = skip_spaces(l, 0);
    let b = rtrim_exec(l, n);
    if b >= 3 && a <= b - 3 {
        l.get_char(a) == '#' && l.get_char(a + 1) == '[' && l.get_char(b - 1) == ']'
    } else {
        false
    }
}

pub fn rtrim_exec(l: &str, j: usize) -> (r: usize)
    requires
        j <= l@.len(),
    ensures
        r == rtrim_end(l@, j as int),
        r <= j,
{
    let mut k = j;
    while k > 0
        invariant
            k <= j <= l@.len(),
            rtrim_end(l@, j as int) == rtrim_end(l@, k as int),
        decreases k,
    {
        let c = l.get_char(k - 1);
        if !space_char(c) {
            return k;
        }
        k -= 1;
    }
    k
}

/// Concatenates indentation, the fixed `/// WIP_` opening, a name, and a
/// per-kind tail into one comment line.
fn build_comment(indent: &str, name: &str, tail: &str) -> (r: String)
    ensures
        r@ == indent@ + wip_head() + name@ + tail@,
{
    let mut out = String::new();
    out.append(indent);
    out.append("/// WIP_");
    out.append(name);
    out.append(tail);
    proof {
        reveal_strlit("/// WIP_");
        assert(("/// WIP_")@ =~= wip_head());
        assert(out@ =~= indent@ + wip_head() + name@ + tail@);
    }
    out
}

/// The comment for a struct, enum or trait declaration line, if this is one.
fn keyword_comment_exec(l: &str) -> (r: Option<String>)
    ensures
        match r {
            Some(c) => keyword_comment(l@) == Some(c@),
            None => keyword_comment(l@) is None,
        },
{
    proof {
        reveal_strlit("struct");
        assert(("struct")@ =~= struct_kw());
        reveal_strlit("enum");
        assert(("enum")@ =~= enum_kw());
        reveal_strlit("trait");
        assert(("trait")@ =~= trait_kw());
    }
    let ie = skip_spaces(l, 0);
    let indent = l.substring_char(0, ie);
    if let Some((a, b)) = match_kw_name(l, "struct", false) {
        let name = l.substring_char(a, b);
        proof {
            reveal_strlit("_struct_description");
            assert(("_struct_description")@ =~= struct_tail());
        }
        return Some(build_comment(indent, name, "_struct_description"));
    }
    if let Some((a, b)) = match_kw_name(l, "enum", false) {
        let name = l.substring_char(a, b);
        proof {
            reveal_strlit("_enum_description");
            assert(("_enum_description")@ =~= enum_tail());
        }
        return Some(build_comment(indent, name, "_enum_description"));
    }
    if let Some((a, b)) = match_kw_name(l, "trait", false) {
        let name = l.substring_char(a, b);
        proof {
            reveal_strlit("_trait_description");
            assert(("_trait_description")@ =~= trait_tail());
        }
        return Some(build_comment(indent, name, "_trait_description"));
    }
    None
}

/// The comment for a public function signature line, if this is one.
fn fn_comment_exec(l: &str) -> (r: Option<String>)
    ensures
        match r {
            Some(c) => is_pub_fn_decl(l@) && c@ == comment_line(
                line_indent(l@),
                fn_name(l@),
                function_tail(),
            ),
            None => !is_pub_fn_decl(l@),
        },
{
    proof {
        reveal_strlit("fn");
        assert(("fn")@ =~= fn_kw());
    }
    if let Some((a, b)) = match_kw_name(l, "fn", true) {
        let n = l.unicode_len();
        let q = skip_spaces(l, b);
        if q < n && l.get_char(q) == '(' {
            let ie = skip_spaces(l, 0);
            let indent = l.substring_char(0, ie);
            let name = l.substring_char(a, b);
            proof {
                reveal_strlit("_function_description");
                assert(("_function_description")@ =~= function_tail());
            }
            return Some(build_comment(indent, name, "_function_description"));
        }
    }
    None
}

fn run_end_exec(lines: &Vec<String>, i: usize) -> (r: usize)
    requires
        i <= lines@.len(),
    ensures
        r == run_end(line_views(lines@), i as int),
        i <= r <= lines@.len(),
{
    let n = lines.len();
    let mut j = i;
    while j < n
        invariant
            i <= j <= n,
            n == lines@.len(),
            run_end(line_views(lines@), i as int) == run_end(line_views(lines@), j as int),
        decreases n - j,
    {
        if !decor_line(lines[j].as_str()) {
            return j;
        }
        j += 1;
    }
    j
}

fn comment_before_exec(lines: &Vec<String>, i: usize) -> (r: Option<String>)
    requires
        i < lines@.len(),
    ensures
        match r {
            Some(c) => comment_before(line_views(lines@), i as int) == Some(c@),
            None => comment_before(line_views(lines@), i as int) is None,
        },
{
    if let Some(c) = fn_comment_exec(lines[i].as_str()) {
        return Some(c);
    }
    if i == 0 || !decor_line(lines[i - 1].as_str()) {
        let j = run_end_exec(lines, i);
        if j < lines.len() {
            return keyword_comment_exec(lines[j].as_str());
        }
    }
    None
}

/// Inserts one placeholder comment line directly above every recognized
/// struct, enum, trait and public-function declaration. The result is the
/// input's lines in order, each preceded by its comment where one is due,
/// every line newline-terminated.
pub fn annotate_declarations(text: &str) -> (r: String)
    ensures
        r@ == annotated_declarations(text@),
{
    let lines = split_lines(text);
    let n = lines.len();
    let mut out: Vec<String> = Vec::new();
    let mut i: usize = 0;
    while i < n
        invariant
            i <= n,
            n == lines@.len(),
            line_views(lines@) == split_from(text@, 0),
            line_views(out@) == decl_out(line_views(lines@), i as int),
        decreases n - i,
    {
        let ghost prev = line_views(out@);
        let ghost vs = line_views(lines@);
        if let Some(c) = comment_before_exec(&lines, i) {
            out.push(c);
        }
        out.push(lines[i].clone());
        proof {
            assert(line_views(out@) =~= prev + decl_line_out(vs, i as int));
        }
        i += 1;
    }
    join_lines_exec(&out)
}

} // verus!
