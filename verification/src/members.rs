//! The body annotator: walks the lines while tracking whether the scan stands
//! inside a struct or enum body (by counting braces), and inserts a
//! placeholder comment, at a fixed deeper indentation, before every field
//! line of a struct body and every comma-terminated variant line of an enum
//! body.

use vstd::prelude::*;
use vstd::string::*;
use crate::annotate::{
    annotate_declarations, annotated_declarations, comment_line, enum_decl_line, is_enum_decl,
    is_struct_decl, pub_kw, struct_decl_line,
};
use crate::text::{
    count_char, count_char_in, is_space, is_word_char, join_lines, join_lines_exec,
    lemma_total_len_take, line_views, skip_spaces, skip_word, space_char, space_run_end,
    split_from, split_lines, starts_at, starts_with_at, total_len, word_char, word_run_end,
};

verus! {

/// Where the line scan stands: inside a struct body, inside an enum body
/// (both can hold at once after a declaration nested in another body), and
/// the running count of open braces.
pub ghost struct ScanState {
    pub in_struct: bool,
    pub in_enum: bool,
    pub depth: int,
}

pub open spec fn start_state() -> ScanState {
    ScanState { in_struct: false, in_enum: false, depth: 0 }
}

/// One line's effect on the scan: a struct or enum declaration line opens a
/// body and resets the brace count; while inside, the line's braces adjust
/// the count, and a line that brings it back to zero with a closing brace
/// ends both bodies.
pub open spec fn step_state(st: ScanState, l: Seq<char>) -> ScanState {
    let st1 = if is_struct_decl(l) {
        ScanState { in_struct: true, in_enum: st.in_enum, depth: 0 }
    } else if is_enum_decl(l) {
        ScanState { in_struct: st.in_struct, in_enum: true, depth: 0 }
    } else {
        st
    };
    if st1.in_struct || st1.in_enum {
        let d = st1.depth + count_char(l, '{') - count_char(l, '}');
        if d == 0 && count_char(l, '}') > 0 {
            ScanState { in_struct: false, in_enum: false, depth: d }
        } else {
            ScanState { in_struct: st1.in_struct, in_enum: st1.in_enum, depth: d }
        }
    } else {
        st1
    }
}

/// A field occurrence at index `i`: whitespace, `pub`, whitespace, an
/// identifier, and a colon.
pub open spec fn field_match_at(l: Seq<char>, i: int) -> bool {
    0 <= i < l.len() && is_space(l[i]) && {
        let j = space_run_end(l, i);
        starts_with_at(l, j, pub_kw()) && j + 3 < l.len() && is_space(l[j + 3]) && {
            let k = space_run_end(l, j + 3);
            k < l.len() && is_word_char(l[k]) && {
                let m = word_run_end(l, k);
                m < l.len() && l[m] == ':'
            }
        }
    }
}

/// A variant occurrence at index `i`: whitespace, an identifier, and a
/// trailing comma. A final variant without the comma is not recognized.
pub open spec fn variant_match_at(l: Seq<char>, i: int) -> bool {
    0 <= i < l.len() && is_space(l[i]) && {
        let j = space_run_end(l, i);
        j < l.len() && is_word_char(l[j]) && {
            let m = word_run_end(l, j);
            m < l.len() && l[m] == ','
        }
    }
}

/// First index at or after `i` where a field occurrence starts, or `l.len()`.
pub open spec fn first_field(l: Seq<char>, i: int) -> int
    decreases l.len() - i,
    when 0 <= i <= l.len()
{
    if i >= l.len() {
        l.len() as int
    } else if field_match_at(l, i) {
        i
    } else {
        first_field(l, i + 1)
    }
}

/// First index at or after `i` where a variant occurrence starts, or `l.len()`.
pub open spec fn first_variant(l: Seq<char>, i: int) -> int
    decreases l.len() - i,
    when 0 <= i <= l.len()
{
    if i >= l.len() {
        l.len() as int
    } else if variant_match_at(l, i) {
        i
    } else {
        first_variant(l, i + 1)
    }
}

pub open spec fn has_field(l: Seq<char>) -> bool {
    first_field(l, 0) < l.len()
}

pub open spec fn has_variant(l: Seq<char>) -> bool {
    first_variant(l, 0) < l.len()
}

/// The identifier of the line's first field occurrence.
pub open spec fn field_name(l: Seq<char>) -> Seq<char> {
    let i = first_field(l, 0);
    let j = space_run_end(l, i);
    let k = space_run_end(l, j + 3);
    l.subrange(k, word_run_end(l, k))
}

/// The identifier of the line's first variant occurrence.
pub open spec fn variant_name(l: Seq<char>) -> Seq<char> {
    let i = first_variant(l, 0);
    let j = space_run_end(l, i);
    l.subrange(j, word_run_end(l, j))
}

/// Member placeholders stand at a fixed four-space indentation.
pub open spec fn member_indent() -> Seq<char> {
    seq![' ', ' ', ' ', ' ']
}

pub open spec fn field_tail() -> Seq<char> {
    seq!['_', 'f', 'i', 'e', 'l', 'd', '_', 'd', 'e', 's', 'c', 'r', 'i', 'p', 't', 'i', 'o', 'n']
}

pub open spec fn variant_tail() -> Seq<char> {
    seq!['_', 'v', 'a', 'r', 'i', 'a', 'n', 't', '_', 'd', 'e', 's', 'c', 'r', 'i', 'p', 't', 'i', 'o', 'n']
}

/// What the body annotator emits for one line, given the scan state after
/// that line's own effect: inside a struct body a field placeholder, inside
/// an enum body (only) a variant placeholder, then the line itself.
pub open spec fn line_member_out(l: Seq<char>, st: ScanState) -> Seq<Seq<char>> {
    if st.in_struct && has_field(l) {
        seq![comment_line(member_indent(), field_name(l), field_tail()), l]
    } else if !st.in_struct && st.in_enum && has_variant(l) {
        seq![comment_line(member_indent(), variant_name(l), variant_tail()), l]
    } else {
        seq![l]
    }
}

/// The scan state after the first `n` lines.
pub open spec fn fold_state(lines: Seq<Seq<char>>, n: int) -> ScanState
    decreases n,
{
    if n <= 0 {
        start_state()
    } else {
        step_state(fold_state(lines, n - 1), lines[n - 1])
    }
}

/// The body annotator's output for the first `n` lines.
pub open spec fn members_out(lines: Seq<Seq<char>>, n: int) -> Seq<Seq<char>>
    decreases n,
{
    if n <= 0 {
        Seq::empty()
    } else {
        members_out(lines, n - 1) + line_member_out(lines[n - 1], fold_state(lines, n))
    }
}

/// The member-annotated form of a whole text.
pub open spec fn annotated_members(t: Seq<char>) -> Seq<char> {
    let ls = split_from(t, 0);
    join_lines(members_out(ls, ls.len() as int))
}

/// Inside a struct body, every line with a field occurrence — whitespace,
/// `pub`, an identifier, a colon — is emitted with exactly one field
/// placeholder, naming the field, directly above it.
pub proof fn lemma_field_annotated(l: Seq<char>, st: ScanState)
    requires
        st.in_struct,
        has_field(l),
    ensures
        line_member_out(l, st) == seq![
            comment_line(member_indent(), field_name(l), field_tail()),
            l,
        ],
{
}

/// Outside any struct or enum body no member placeholder is ever emitted:
/// the line is kept unchanged.
pub proof fn lemma_no_member_outside_body(l: Seq<char>, st: ScanState)
    requires
        !st.in_struct,
        !st.in_enum,
    ensures
        line_member_out(l, st) == seq![l],
{
}

/// Inside an enum body, every line with a variant occurrence — whitespace,
/// an identifier, a trailing comma — is emitted with exactly one variant
/// placeholder, naming the variant, directly above it.
pub proof fn lemma_variant_annotated(l: Seq<char>, st: ScanState)
    requires
        !st.in_struct,
        st.in_enum,
        has_variant(l),
    ensures
        line_member_out(l, st) == seq![
            comment_line(member_indent(), variant_name(l), variant_tail()),
            l,
        ],
{
}

/// Inside an enum body, a line without a trailing-comma variant occurrence —
/// a final variant lacking its comma among them — is emitted unchanged.
pub proof fn lemma_variant_without_comma_not_annotated(l: Seq<char>, st: ScanState)
    requires
        !st.in_struct,
        st.in_enum,
        !has_variant(l),
    ensures
        line_member_out(l, st) == seq![l],
{
}

fn field_match_exec(l: &str, i: usize) -> (r: bool)
    requires
        i <= l@.len(),
    ensures
        r == field_match_at(l@, i as int),
{
    let n = l.unicode_len();
    if i >= n {
        return false;
    }
    if !space_char(l.get_char(i)) {
        return false;
    }
    let j = skip_spaces(l, i);
    proof {
        reveal_strlit("pub");
        assert(("pub")@ =~= pub_kw());
    }
    if !starts_at(l, j, "pub") {
        return false;
    }
    if !(j + 3 < n) {
        return false;
    }
    if !space_char(l.get_char(j + 3)) {
        return false;
    }
    let k = skip_spaces(l, j + 3);
    if !(k < n) {
        return false;
    }
    if !word_char(l.get_char(k)) {
        return false;
    }
    let m = skip_word(l, k);
    if !(m < n) {
        return false;
    }
    l.get_char(m) == ':'
}

fn variant_match_exec(l: &str, i: usize) -> (r: bool)
    requires
        i <= l@.len(),
    ensures
        r == variant_match_at(l@, i as int),
{
    let n = l.unicode_len();
    if i >= n {
        return false;
    }
    if !space_char(l.get_char(i)) {
        return false;
    }
    let j = skip_spaces(l, i);
    if !(j < n) {
        return false;
    }
    if !word_char(l.get_char(j)) {
        return false;
    }
    let m = skip_word(l, j);
    if !(m < n) {
        return false;
    }
    l.get_char(m) == ','
}

/// Finds the line's first field occurrence and hands back the identifier's
/// start and end.
fn find_field(l: &str) -> (r: Option<(usize, usize)>)
    ensures
        match r {
            Some((k, m)) => has_field(l@) && field_name(l@) == l@.subrange(k as int, m as int)
                && k <= m <= l@.len(),
            None => !has_field(l@),
        },
{
    let n = l.unicode_len();
    let mut i: usize = 0;
    while i < n
        invariant
            i <= n,
            n == l@.len(),
            first_field(l@, 0) == first_field(l@, i as int),
        decreases n - i,
    {
        if field_match_exec(l, i) {
            let j = skip_spaces(l, i);
            let k = skip_spaces(l, j + 3);
            let m = skip_word(l, k);
            return Some((k, m));
        }
        i += 1;
    }
    None
}

/// Finds the line's first variant occurrence and hands back the identifier's
/// start and end.
fn find_variant(l: &str) -> (r: Option<(usize, usize)>)
    ensures
        match r {
            Some((j, m)) => has_variant(l@) && variant_name(l@) == l@.subrange(j as int, m as int)
                && j <= m <= l@.len(),
            None => !has_variant(l@),
        },
{
    let n = l.unicode_len();
    let mut i: usize = 0;
    while i < n
        invariant
            i <= n,
            n == l@.len(),
            first_variant(l@, 0) == first_variant(l@, i as int),
        decreases n - i,
    {
        if variant_match_exec(l, i) {
            let j = skip_spaces(l, i);
            let m = skip_word(l, j);
            return Some((j, m));
        }
        i += 1;
    }
    None
}

/// Builds one member placeholder line at the fixed indentation.
fn build_member_comment(name: &str, tail: &str) -> (r: String)
    ensures
        r@ == comment_line(member_indent(), name@, tail@),
{
    let mut out = String::new();
    out.append("    /// WIP_");
    out.append(name);
    out.append(tail);
    proof {
        reveal_strlit("    /// WIP_");
        assert(("    /// WIP_")@ =~= member_indent() + crate::annotate::wip_head());
        assert(out@ =~= comment_line(member_indent(), name@, tail@));
    }
    out
}

/// Walks the text line by line, tracking struct and enum bodies by brace
/// count, and inserts one placeholder comment before every recognized field
/// or variant line. Every input line is kept, in order, newline-terminated.
pub fn annotate_members(text: &str) -> (r: String)
    ensures
        r@ == annotated_members(text@),
{
    let lines = split_lines(text);
    let tn = text.unicode_len();
    let n = lines.len();
    let mut out: Vec<String> = Vec::new();
    let mut ins = false;
    let mut ine = false;
    let mut d: i128 = 0;
    let mut i: usize = 0;
    while i < n
        invariant
            i <= n,
            n == lines@.len(),
            tn == text@.len(),
            line_views(lines@) == split_from(text@, 0),
            total_len(line_views(lines@)) <= tn,
            fold_state(line_views(lines@), i as int) == (ScanState {
                in_struct: ins,
                in_enum: ine,
                depth: d as int,
            }),
            -total_len(line_views(lines@).take(i as int)) <= d as int <= total_len(
                line_views(lines@).take(i as int),
            ),
        line_views(out@) == members_out(line_views(lines@), i as int),
        decreases n - i,
    {
        let ghost vs = line_views(lines@);
        let ghost prev = line_views(out@);
        let s = lines[i].as_str();
        proof {
            assert(vs[i as int] == s@);
            assert(vs.take(i as int + 1).drop_last() =~= vs.take(i as int));
            assert(vs.take(i as int + 1).last() == vs[i as int]);
            lemma_total_len_take(vs, i as int + 1);
        }
        if struct_decl_line(s) {
            ins = true;
            d = 0;
        } else if enum_decl_line(s) {
            ine = true;
            d = 0;
        }
        if ins || ine {
            let a = count_char_in(s, '{');
            let b = count_char_in(s, '}');
            d = d + (a as i128) - (b as i128);
            if d == 0 && b > 0 {
                ins = false;
                ine = false;
            }
        }
        proof {
            assert(fold_state(vs, i as int + 1) == (ScanState {
                in_struct: ins,
                in_enum: ine,
                depth: d as int,
            }));
        }
        if ins {
            if let Some((k, m)) = find_field(s) {
                let name = s.substring_char(k, m);
                proof {
                    reveal_strlit("_field_description");
                    assert(("_field_description")@ =~= field_tail());
                }
                out.push(build_member_comment(name, "_field_description"));
            }
        } else if ine {
            if let Some((j, m)) = find_variant(s) {
                let name = s.substring_char(j, m);
                proof {
                    reveal_strlit("_variant_description");
                    assert(("_variant_description")@ =~= variant_tail());
                }
                out.push(build_member_comment(name, "_variant_description"));
            }
        }
        out.push(lines[i].clone());
        proof {
            assert(line_views(out@) =~= prev + line_member_out(vs[i as int], fold_state(
                vs,
                i as int + 1,
            )));
        }
        i += 1;
    }
    join_lines_exec(&out)
}

/// The whole per-file pipeline: the declaration pass, then the member pass.
pub fn annotate_text(text: &str) -> (r: String)
    ensures
        r@ == annotated_members(annotated_declarations(text@)),
{
    let step1 = annotate_declarations(text);
    annotate_members(step1.as_str())
}

} // verus!
