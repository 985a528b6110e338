//! Rules for SQL.
use vstd::prelude::*;

use crate::rules::{rule_finding, rule_view, Rule};
use crate::text::{
    chars_of, contains, find, find_chars, has_char, has_prefix, has_text, lemma_find, matches_at,
    occurs_at, same, starts_with,
    sub_chars, to_upper, trim, trim_range, trim_start, upper, upper_char,
};
use crate::{
    append_all, lemma_contains_concat, lemma_opt_contains, lemma_within_concat, lemma_within_sums, line_at, lines_within, opt, push_rule,
    views, Finding, FindingView, Src,
};

verus! {

/// The characters of `s` before the first `sep`, or all of `s`.
pub open spec fn before(s: Seq<char>, sep: Seq<char>) -> Seq<char> {
    match find(s, sep) {
        Some(i) => s.take(i as int),
        None => s,
    }
}

/// `FROM a, b`: the FROM list, up to WHERE or JOIN, has a comma and no parenthesis.
pub open spec fn comma_joined(u: Seq<char>) -> bool {
    match find(u, "FROM "@) {
        Some(i) => {
            let head = before(before(u.skip(i as int + 5), "WHERE"@), "JOIN"@);
            contains(head, seq![',']) && !contains(head, seq!['('])
        },
        None => false,
    }
}

/// `char::is_alphabetic`, the Unicode `Alphabetic` property.
pub uninterp spec fn alphabetic(c: char) -> bool;

/// Calls `char::is_alphabetic`. What it returns is named `alphabetic`; on
/// ASCII it holds exactly of `a`-`z` and `A`-`Z` (so the result is
/// `letter(c)`), and outside ASCII nothing more is stated here.
#[verifier::external_body]
fn is_alphabetic(c: char) -> (r: bool)
    ensures
        r == alphabetic(c),
        (c as u32) < 0x80 ==> (r <==> ('a' <= c <= 'z' || 'A' <= c <= 'Z')),
{
    c.is_alphabetic()
}

/// A letter in the sense of `char::is_alphabetic`: on ASCII exactly `a`-`z`
/// and `A`-`Z`; beyond ASCII, the Unicode `Alphabetic` property.
pub open spec fn letter(c: char) -> bool {
    if (c as u32) < 0x80 {
        'a' <= c <= 'z' || 'A' <= c <= 'Z'
    } else {
        alphabetic(c)
    }
}

/// The `f` at position `i` of `u` is followed, after whitespace, by a letter.
pub open spec fn wraps_column_at(u: Seq<char>, f: Seq<char>, i: int) -> bool {
    &&& occurs_at(u, f, i)
    &&& trim_start(u.skip(i + f.len())).len() > 0
    &&& letter(trim_start(u.skip(i + f.len()))[0])
}

/// Some `f` in `u` is followed, after whitespace, by a letter:
/// a function applied to a column rather than to a literal.
pub open spec fn wraps_column(u: Seq<char>, f: Seq<char>) -> bool {
    exists|i: int| wraps_column_at(u, f, i)
}

/// A filtering line (WHERE, AND, ON) applies LOWER/UPPER/TRIM/DATE/CAST/
/// SUBSTRING/TO_CHAR/DATE_TRUNC to a column.
pub open spec fn filters_on_function(u: Seq<char>) -> bool {
    &&& contains(u, "WHERE"@) || contains(u, "AND "@) || contains(u, "ON "@)
    &&& wraps_column(u, "LOWER("@) || wraps_column(u, "UPPER("@) || wraps_column(u, "TRIM("@)
        || wraps_column(u, "DATE("@) || wraps_column(u, "CAST("@) || wraps_column(
        u,
        "SUBSTRING("@,
    ) || wraps_column(u, "TO_CHAR("@) || wraps_column(u, "DATE_TRUNC("@)
}

pub open spec fn is_digit(c: char) -> bool {
    '0' <= c <= '9'
}

/// Number of ASCII digits at the start of `s`.
pub open spec fn digit_prefix(s: Seq<char>) -> nat
    decreases s.len(),
{
    if s.len() > 0 && is_digit(s[0]) {
        1 + digit_prefix(s.drop_first())
    } else {
        0
    }
}

/// The decimal value of a string of digits.
pub open spec fn dec_value(d: Seq<char>) -> int
    decreases d.len(),
{
    if d.len() == 0 {
        0
    } else {
        dec_value(d.drop_last()) * 10 + (d.last() as int - '0' as int)
    }
}

/// The number written after the first `kw` (whitespace skipped), when there
/// are digits and they fit in an `i64`.
pub open spec fn int_after(u: Seq<char>, kw: Seq<char>) -> Option<int> {
    match find(u, kw) {
        Some(i) => {
            let rest = trim(u.skip(i as int + kw.len()));
            let d = rest.take(digit_prefix(rest) as int);
            if d.len() == 0 || dec_value(d) > i64::MAX {
                None
            } else {
                Some(dec_value(d))
            }
        },
        None => None,
    }
}

/// Some line numbered `n + 1 ..= n + 6` mentions WHERE in any case.
pub open spec fn where_ahead(ls: Seq<(usize, Seq<char>)>, n: usize) -> bool {
    exists|j: int|
        0 <= j < ls.len() && n < (#[trigger] ls[j]).0 && ls[j].0 <= n + 6 && contains(
            upper(ls[j].1),
            "WHERE"@,
        )
}

/// The line-level findings of line `n`.
pub open spec fn sql_line(ls: Seq<(usize, Seq<char>)>, n: usize, line: Seq<char>) -> Seq<
    FindingView,
> {
    let t = trim(line);
    if t.len() == 0 || starts_with(t, "--"@) {
        seq![]
    } else {
        let u = upper(t);
        sql_line_early(n, t, u) + sql_line_late(ls, n, t, u)
    }
}

pub open spec fn sql_line_early(n: usize, t: Seq<char>, u: Seq<char>) -> Seq<FindingView> {
    opt(
        contains(u, "SELECT *"@) || contains(u, "SELECT*"@),
        rule_finding(Rule::SqlSelectStar, n, 1, t),
    ) + opt(comma_joined(u), rule_finding(Rule::SqlCommaJoin, n, 1, t)) + opt(
        contains(u, "OR 1=1"@) || contains(u, "OR 1 = 1"@) || contains(u, "OR '1'='1'"@)
            || contains(u, "OR TRUE"@),
        rule_finding(Rule::SqlTautology, n, 1, t),
    ) + opt(filters_on_function(u), rule_finding(Rule::SqlFnOnColumn, n, 1, t)) + opt(
        contains(u, "LIKE '%"@),
        rule_finding(Rule::SqlLeadingWildcard, n, 1, t),
    ) + opt(contains(u, "NOT IN ("@), rule_finding(Rule::SqlNotIn, n, 1, t))
}

pub open spec fn sql_line_late(
    ls: Seq<(usize, Seq<char>)>,
    n: usize,
    t: Seq<char>,
    u: Seq<char>,
) -> Seq<FindingView> {
    opt(
        (starts_with(u, "DELETE FROM"@) || starts_with(u, "DELETE "@)) && !contains(u, "WHERE"@)
            && !where_ahead(ls, n),
        rule_finding(Rule::SqlUnboundedDelete, n, 1, t),
    ) + opt(
        starts_with(u, "UPDATE "@) && !contains(u, "WHERE"@) && !where_ahead(ls, n),
        rule_finding(Rule::SqlUnboundedUpdate, n, 1, t),
    ) + opt(
        (contains(t, "${"@) || (contains(t, "'"@) && contains(t, "+"@) && (contains(u, "WHERE"@)
            || contains(u, "VALUES"@)))) && contains(t, "+"@) && !contains(t, "++"@),
        rule_finding(Rule::SqlStringConcat, n, 1, t),
    ) + opt(
        contains(u, "OFFSET"@) && (int_after(u, "OFFSET"@) matches Some(v) && v > 1000),
        rule_finding(Rule::SqlDeepOffset, n, 1, t),
    ) + opt(
        contains(u, "ORDER BY RANDOM()"@) || contains(u, "ORDER BY RAND()"@),
        rule_finding(Rule::SqlOrderRandom, n, 1, t),
    ) + opt(
        contains(u, "FOR UPDATE"@) && (contains(u, "LOCK TABLE"@) || (!contains(
            u,
            "SKIP LOCKED"@,
        ) && !contains(u, "NOWAIT"@))),
        rule_finding(Rule::SqlForUpdate, n, 1, t),
    )
}

/// Line-level findings of the first `k` lines of `ls`.
pub open spec fn sql_lines(ls: Seq<(usize, Seq<char>)>, k: int) -> Seq<FindingView>
    decreases k,
{
    if k <= 0 {
        seq![]
    } else {
        sql_lines(ls, k - 1) + sql_line(ls, ls[k - 1].0, ls[k - 1].1)
    }
}

/// State of the statement pass: findings so far, the statement being read
/// and the number of its first line (0 before one starts).
pub struct DmlState {
    pub out: Seq<FindingView>,
    pub stmt: Seq<char>,
    pub start: usize,
}

/// Some finding in `out` has this id and line.
pub open spec fn reported(out: Seq<FindingView>, id: Seq<char>, line: usize) -> bool {
    exists|i: int| 0 <= i < out.len() && (#[trigger] out[i]).id == id && out[i].line == line
}

/// The rule a closed statement falls under when it has no WHERE: DELETE or
/// UPDATE.
pub open spec fn dml_rule(stmt: Seq<char>) -> Option<Rule> {
    let u = upper(stmt);
    if contains(u, "WHERE"@) {
        None
    } else if starts_with(trim_start(u), "DELETE"@) {
        Some(Rule::SqlUnboundedDeleteStmt)
    } else if starts_with(trim_start(u), "UPDATE"@) {
        Some(Rule::SqlUnboundedUpdateStmt)
    } else {
        None
    }
}

/// Closing statement `stmt`, whose first line is `start`: a DELETE or UPDATE
/// with no WHERE anywhere is reported at `start`, unless its id already is.
pub open spec fn close_stmt(
    ls: Seq<(usize, Seq<char>)>,
    out: Seq<FindingView>,
    stmt: Seq<char>,
    start: usize,
) -> Seq<FindingView> {
    match dml_rule(stmt) {
        Some(r) => if reported(out, rule_view(r).id, start) {
            out
        } else {
            out.push(rule_finding(r, start, 1, line_at(ls, start)))
        },
        None => out,
    }
}

/// The statement pass reads line `n`: the line joins the open statement, and
/// a line with `;` closes it.
pub open spec fn dml_step(ls: Seq<(usize, Seq<char>)>, st: DmlState, n: usize, line: Seq<char>) -> DmlState {
    let start = if st.start == 0 {
        n
    } else {
        st.start
    };
    let stmt = st.stmt + line + seq!['\n'];
    if contains(line, seq![';']) {
        DmlState { out: close_stmt(ls, st.out, stmt, start), stmt: seq![], start: 0 }
    } else {
        DmlState { out: st.out, stmt, start }
    }
}

/// The statement pass over the first `k` lines, starting from findings `out0`.
pub open spec fn dml_pass(ls: Seq<(usize, Seq<char>)>, out0: Seq<FindingView>, k: int) -> DmlState
    decreases k,
{
    if k <= 0 {
        DmlState { out: out0, stmt: seq![], start: 0 }
    } else {
        dml_step(ls, dml_pass(ls, out0, k - 1), ls[k - 1].0, ls[k - 1].1)
    }
}

/// The statement pass over all of `ls`: a statement still open at the end of
/// the input is closed there too.
pub open spec fn dml_all(ls: Seq<(usize, Seq<char>)>, out0: Seq<FindingView>) -> Seq<FindingView> {
    let st = dml_pass(ls, out0, ls.len() as int);
    if st.stmt.len() > 0 {
        close_stmt(ls, st.out, st.stmt, st.start)
    } else {
        st.out
    }
}

/// Everything `scan` reports on lines `ls`.
pub open spec fn sql_scan(ls: Seq<(usize, Seq<char>)>) -> Seq<FindingView> {
    dml_all(ls, sql_lines(ls, ls.len() as int))
}

/// `s[..first sep]`.
fn before_chars(s: &Vec<char>, sep: &str) -> (r: Vec<char>)
    ensures
        r@ == before(s@, sep@),
{
    let sc = chars_of(sep);
    match find_chars(s, &sc) {
        Some(i) => {
            proof {
                lemma_find(s@, sc@);
            }
            sub_chars(s, 0, i)
        },
        None => sub_chars(s, 0, s.len()),
    }
}

fn comma_join(u: &Vec<char>) -> (r: bool)
    ensures
        r == comma_joined(u@),
{
    let from = chars_of("FROM ");
    proof {
        reveal_strlit("FROM ");
    }
    match find_chars(u, &from) {
        Some(i) => {
            proof {
                lemma_find(u@, from@);
                assert(crate::text::occurs_at(u@, from@, i as int));
                assert(i + from.len() <= u.len());
            }
            let rest = sub_chars(u, i + from.len(), u.len());
            assert(rest@ =~= u@.skip(i as int + 5));
            let h1 = before_chars(&rest, "WHERE");
            let head = before_chars(&h1, "JOIN");
            has_char(&head, ',') && !has_char(&head, '(')
        },
        None => false,
    }
}

fn wraps_column_exec(u: &Vec<char>, f: &str) -> (r: bool)
    ensures
        r == wraps_column(u@, f@),
{
    let fc = chars_of(f);
    if fc.len() > u.len() {
        return false;
    }
    let mut i: usize = 0;
    while i <= u.len() - fc.len()
        invariant
            fc@ == f@,
            fc.len() <= u.len(),
            i <= u.len() - fc.len() + 1,
            forall|j: int| 0 <= j < i ==> !wraps_column_at(u@, f@, j),
        decreases u.len() - fc.len() + 1 - i,
    {
        if matches_at(u, &fc, i) {
            let rest = sub_chars(u, i + fc.len(), u.len());
            assert(rest@ =~= u@.skip(i as int + f@.len()));
            let (a, _) = trim_range(&rest);
            if a < rest.len() && is_alphabetic(rest[a]) {
                assert(wraps_column_at(u@, f@, i as int));
                return true;
            }
        }
        if i == u.len() - fc.len() {
            proof {
                assert forall|j: int| !wraps_column_at(u@, f@, j) by {
                    if 0 <= j && j > i {
                        assert(!occurs_at(u@, f@, j));
                    }
                }
            }
            return false;
        }
        i = i + 1;
    }
    false
}

fn fn_on_col(u: &Vec<char>) -> (r: bool)
    ensures
        r == filters_on_function(u@),
{
    if !has_text(u, "WHERE") && !has_text(u, "AND ") && !has_text(u, "ON ") {
        return false;
    }
    wraps_column_exec(u, "LOWER(") || wraps_column_exec(u, "UPPER(") || wraps_column_exec(
        u,
        "TRIM(",
    ) || wraps_column_exec(u, "DATE(") || wraps_column_exec(u, "CAST(") || wraps_column_exec(
        u,
        "SUBSTRING(",
    ) || wraps_column_exec(u, "TO_CHAR(") || wraps_column_exec(u, "DATE_TRUNC(")
}

proof fn lemma_digit_prefix(s: Seq<char>, k: int)
    requires
        0 <= k <= s.len(),
        forall|i: int| 0 <= i < k ==> is_digit(#[trigger] s[i]),
        k == s.len() || !is_digit(s[k]),
    ensures
        digit_prefix(s) == k,
    decreases k,
{
    if k > 0 {
        let t = s.drop_first();
        assert forall|i: int| 0 <= i < k - 1 implies is_digit(#[trigger] t[i]) by {
            assert(t[i] == s[i + 1]);
        }
        if k - 1 < t.len() {
            assert(t[k - 1] == s[k]);
        }
        lemma_digit_prefix(t, k - 1);
    }
}

proof fn lemma_dec_value_grows(d: Seq<char>, k: int)
    requires
        0 <= k <= d.len(),
        forall|i: int| 0 <= i < d.len() ==> is_digit(#[trigger] d[i]),
    ensures
        0 <= dec_value(d.take(k)) <= dec_value(d),
    decreases d.len(),
{
    if d.len() > 0 {
        let e = d.drop_last();
        if k < d.len() {
            assert(e.take(k) =~= d.take(k));
            lemma_dec_value_grows(e, k);
        } else {
            assert(d.take(k) =~= d);
            lemma_dec_value_grows(e, 0);
            assert(e.take(0) =~= Seq::<char>::empty());
            lemma_dec_value_grows(e, e.len() as int);
            assert(e.take(e.len() as int) =~= e);
        }
    } else {
        assert(d.take(k) =~= d);
    }
}

fn extract_int_after(u: &Vec<char>, kw: &str) -> (r: Option<i64>)
    ensures
        r matches Some(v) ==> int_after(u@, kw@) == Some(v as int),
        r is None ==> int_after(u@, kw@) is None,
{
    let kc = chars_of(kw);
    let i = match find_chars(u, &kc) {
        Some(i) => i,
        None => {
            return None;
        },
    };
    proof {
        lemma_find(u@, kc@);
        assert(crate::text::occurs_at(u@, kc@, i as int));
        assert(i + kc.len() <= u.len());
    }
    let after = sub_chars(u, i + kc.len(), u.len());
    assert(after@ =~= u@.skip(i as int + kw@.len()));
    let (a, b) = trim_range(&after);
    let rest = sub_chars(&after, a, b);
    assert(rest@ == trim(after@));
    assert(find(u@, kw@) == Some(i as nat));
    let mut k: usize = 0;
    let mut val: i64 = 0;
    while k < rest.len() && '0' <= rest[k] && rest[k] <= '9'
        invariant
            k <= rest.len(),
            forall|j: int| 0 <= j < k ==> is_digit(#[trigger] rest@[j]),
            val == dec_value(rest@.take(k as int)),
            0 <= val,
            find(u@, kw@) == Some(i as nat),
            rest@ == trim(u@.skip(i as int + kw@.len())),
        decreases rest.len() - k,
    {
        let dig = (rest[k] as u32 - '0' as u32) as i64;
        proof {
            assert(rest@.take(k + 1).drop_last() =~= rest@.take(k as int));
            assert(rest@.take(k + 1).last() == rest@[k as int]);
            assert(dig == rest@[k as int] as int - '0' as int);
            assert(dec_value(rest@.take(k + 1)) == val * 10 + dig);
        }
        if val > (i64::MAX - dig) / 10 {
            proof {
                digit_prefix_at_least(rest@, k + 1);
                let d = rest@.take(digit_prefix(rest@) as int);
                assert forall|j: int| 0 <= j < d.len() implies is_digit(#[trigger] d[j]) by {
                    digit_prefix_digits(rest@, j);
                }
                lemma_dec_value_grows(d, k + 1);
                assert(d.take(k + 1) =~= rest@.take(k + 1));
                assert(val * 10 + dig > i64::MAX) by (nonlinear_arith)
                    requires
                        val > (i64::MAX - dig) / 10,
                        0 <= dig <= 9,
                ;
            }
            return None;
        }
        assert(val * 10 + dig <= i64::MAX) by (nonlinear_arith)
            requires
                val <= (i64::MAX - dig) / 10,
                0 <= dig <= 9,
                0 <= val,
        ;
        val = val * 10 + dig;
        k = k + 1;
    }
    proof {
        lemma_digit_prefix(rest@, k as int);
    }
    if k == 0 {
        None
    } else {
        Some(val)
    }
}

/// Digits run at least to `k`.
proof fn digit_prefix_at_least(s: Seq<char>, k: int)
    requires
        0 <= k <= s.len(),
        forall|i: int| 0 <= i < k ==> is_digit(#[trigger] s[i]),
    ensures
        k <= digit_prefix(s) <= s.len(),
    decreases k,
{
    digit_prefix_bound(s);
    if k > 0 {
        let t = s.drop_first();
        assert forall|i: int| 0 <= i < k - 1 implies is_digit(#[trigger] t[i]) by {
            assert(t[i] == s[i + 1]);
        }
        digit_prefix_at_least(t, k - 1);
    }
}

proof fn digit_prefix_bound(s: Seq<char>)
    ensures
        digit_prefix(s) <= s.len(),
    decreases s.len(),
{
    if s.len() > 0 {
        digit_prefix_bound(s.drop_first());
    }
}

/// Every character before `digit_prefix(s)` is a digit.
proof fn digit_prefix_digits(s: Seq<char>, j: int)
    requires
        0 <= j < digit_prefix(s),
    ensures
        j < s.len(),
        is_digit(s[j]),
    decreases j,
{
    digit_prefix_bound(s);
    if j > 0 {
        digit_prefix_digits(s.drop_first(), j - 1);
    }
}

fn lookahead_where(src: &Src<'_>, n: usize) -> (r: bool)
    ensures
        r == where_ahead(src.lines_view(), n),
{
    let mut i: usize = 0;
    while i < src.lines.len()
        invariant
            i <= src.lines.len(),
            forall|j: int|
                0 <= j < i ==> !(n < (#[trigger] src.lines_view()[j]).0 && src.lines_view()[j].0
                    <= n + 6 && contains(upper(src.lines_view()[j].1), "WHERE"@)),
        decreases src.lines.len() - i,
    {
        let (k, line) = src.lines[i];
        if k > n && k - n <= 6 {
            let lc = chars_of(line);
            let uc = to_upper(&lc);
            if has_text(&uc, "WHERE") {
                assert(src.lines_view()[i as int] == (k, line@));
                return true;
            }
        }
        i = i + 1;
    }
    false
}

fn line_hits(src: &Src<'_>, n: usize, line: &str) -> (out: Vec<Finding>)
    ensures
        views(out@) == sql_line(src.lines_view(), n, line@),
{
    let lc = chars_of(line);
    let (a, b) = trim_range(&lc);
    let t = line.substring_char(a, b);
    let tc = sub_chars(&lc, a, b);
    let mut out: Vec<Finding> = Vec::new();
    if tc.len() == 0 || has_prefix(&tc, "--") {
        return out;
    }
    let u = to_upper(&tc);
    let early = early_hits(n, t, &tc, &u);
    let late = late_hits(src, n, t, &tc, &u);
    append_all(&mut out, early);
    append_all(&mut out, late);
    assert(views(out@) =~= sql_line_early(n, tc@, u@) + sql_line_late(
        src.lines_view(),
        n,
        tc@,
        u@,
    ));
    out
}

fn early_hits(n: usize, t: &str, tc: &Vec<char>, u: &Vec<char>) -> (out: Vec<Finding>)
    requires
        t@ == tc@,
    ensures
        views(out@) == sql_line_early(n, tc@, u@),
{
    let mut out: Vec<Finding> = Vec::new();
    push_rule(
        &mut out,
        has_text(u, "SELECT *") || has_text(u, "SELECT*"),
        Rule::SqlSelectStar,
        n,
        1,
        t,
    );
    assert(views(out@) =~= opt(
        contains(u@, "SELECT *"@) || contains(u@, "SELECT*"@),
        rule_finding(Rule::SqlSelectStar, n, 1, t@),
    ));
    push_rule(&mut out, comma_join(u), Rule::SqlCommaJoin, n, 1, t);
    let taut = has_text(u, "OR 1=1") || has_text(u, "OR 1 = 1") || has_text(u, "OR '1'='1'")
        || has_text(u, "OR TRUE");
    push_rule(&mut out, taut, Rule::SqlTautology, n, 1, t);
    push_rule(&mut out, fn_on_col(u), Rule::SqlFnOnColumn, n, 1, t);
    push_rule(&mut out, has_text(u, "LIKE '%"), Rule::SqlLeadingWildcard, n, 1, t);
    push_rule(&mut out, has_text(u, "NOT IN ("), Rule::SqlNotIn, n, 1, t);
    out
}

fn late_hits(src: &Src<'_>, n: usize, t: &str, tc: &Vec<char>, u: &Vec<char>) -> (out: Vec<
    Finding,
>)
    requires
        t@ == tc@,
    ensures
        views(out@) == sql_line_late(src.lines_view(), n, tc@, u@),
{
    let mut out: Vec<Finding> = Vec::new();
    let where_here = has_text(u, "WHERE");
    let del = (has_prefix(u, "DELETE FROM") || has_prefix(u, "DELETE ")) && !where_here
        && !lookahead_where(src, n);
    push_rule(&mut out, del, Rule::SqlUnboundedDelete, n, 1, t);
    assert(views(out@) =~= opt(
        (starts_with(u@, "DELETE FROM"@) || starts_with(u@, "DELETE "@)) && !contains(
            u@,
            "WHERE"@,
        ) && !where_ahead(src.lines_view(), n),
        rule_finding(Rule::SqlUnboundedDelete, n, 1, t@),
    ));
    let upd = has_prefix(u, "UPDATE ") && !where_here && !lookahead_where(src, n);
    push_rule(&mut out, upd, Rule::SqlUnboundedUpdate, n, 1, t);
    let plus = has_text(tc, "+");
    let concat = (has_text(tc, "${") || (has_text(tc, "'") && plus && (where_here || has_text(
        u,
        "VALUES",
    )))) && plus && !has_text(tc, "++");
    push_rule(&mut out, concat, Rule::SqlStringConcat, n, 1, t);
    let deep = has_text(u, "OFFSET") && match extract_int_after(u, "OFFSET") {
        Some(v) => v > 1000,
        None => false,
    };
    push_rule(&mut out, deep, Rule::SqlDeepOffset, n, 1, t);
    push_rule(
        &mut out,
        has_text(u, "ORDER BY RANDOM()") || has_text(u, "ORDER BY RAND()"),
        Rule::SqlOrderRandom,
        n,
        1,
        t,
    );
    let for_update = has_text(u, "FOR UPDATE") && (has_text(u, "LOCK TABLE") || (!has_text(
        u,
        "SKIP LOCKED",
    ) && !has_text(u, "NOWAIT")));
    push_rule(&mut out, for_update, Rule::SqlForUpdate, n, 1, t);
    out
}

/// Whether `out` already holds a finding with id `id` at `line`.
fn already_reported(out: &Vec<Finding>, id: &str, line: usize) -> (r: bool)
    ensures
        r == reported(views(out@), id@, line),
{
    let mut i: usize = 0;
    while i < out.len()
        invariant
            i <= out.len(),
            forall|j: int|
                0 <= j < i ==> !((#[trigger] views(out@)[j]).id == id@ && views(out@)[j].line
                    == line),
        decreases out.len() - i,
    {
        let c = chars_of(out[i].id.as_str());
        if same(&c, id) && out[i].line == line {
            assert(views(out@)[i as int] == out@[i as int]@);
            return true;
        }
        i = i + 1;
    }
    false
}

/// Closes statement `stmt` (first line `start`), reporting it when it is a
/// DELETE or UPDATE with no WHERE whose id is not yet reported there.
fn close_statement(src: &Src<'_>, out: &mut Vec<Finding>, stmt: &Vec<char>, start: usize)
    ensures
        views(final(out)@) == close_stmt(src.lines_view(), views(old(out)@), stmt@, start),
{
    let u = to_upper(stmt);
    if has_text(&u, "WHERE") {
        return;
    }
    let (a, _) = trim_range(&u);
    let lead = sub_chars(&u, a, u.len());
    assert(lead@ =~= u@.skip(a as int));
    let r = if has_prefix(&lead, "DELETE") {
        Rule::SqlUnboundedDeleteStmt
    } else if has_prefix(&lead, "UPDATE") {
        Rule::SqlUnboundedUpdateStmt
    } else {
        return;
    };
    let id = match r {
        Rule::SqlUnboundedDeleteStmt => crate::rules::SQL_UNBOUNDED_DELETE_ID,
        _ => crate::rules::SQL_UNBOUNDED_UPDATE_ID,
    };
    assert(id@ == rule_view(r).id);
    if !already_reported(out, id, start) {
        let excerpt = src.line(start);
        let ghost before_push = views(out@);
        push_rule(out, true, r, start, 1, excerpt);
        proof {
            reveal(opt);
        }
        assert(views(out@) =~= before_push.push(
            rule_finding(r, start, 1, line_at(src.lines_view(), start)),
        ));
    }
}

/// The statement pass: DELETE/UPDATE statements (closed by `;` or by the end
/// of the input) with no WHERE.
fn unbounded_dml(src: &Src<'_>, out: &mut Vec<Finding>)
    ensures
        views(final(out)@) == dml_all(src.lines_view(), views(old(out)@)),
{
    let ghost ls = src.lines_view();
    let ghost out0 = views(out@);
    let mut stmt: Vec<char> = Vec::new();
    let mut start: usize = 0;
    let mut i: usize = 0;
    while i < src.lines.len()
        invariant
            ls == src.lines_view(),
            out0 == views(old(out)@),
            i <= src.lines.len(),
            views(out@) == dml_pass(ls, out0, i as int).out,
            stmt@ == dml_pass(ls, out0, i as int).stmt,
            start == dml_pass(ls, out0, i as int).start,
        decreases src.lines.len() - i,
    {
        let (n, line) = src.lines[i];
        let ghost st = dml_pass(ls, out0, i as int);
        proof {
            assert(ls[i as int] == (n, line@));
            assert(dml_pass(ls, out0, i + 1) == dml_step(ls, st, n, line@));
        }
        if start == 0 {
            start = n;
        }
        let lc = chars_of(line);
        let mut j: usize = 0;
        let ghost s0 = stmt@;
        while j < lc.len()
            invariant
                j <= lc.len(),
                stmt@ == s0 + lc@.take(j as int),
            decreases lc.len() - j,
        {
            stmt.push(lc[j]);
            assert(lc@.take(j + 1) =~= lc@.take(j as int).push(lc@[j as int]));
            assert(s0 + lc@.take(j + 1) =~= (s0 + lc@.take(j as int)).push(lc@[j as int]));
            j = j + 1;
        }
        stmt.push('\n');
        assert(lc@.take(lc.len() as int) =~= lc@);
        assert(stmt@ =~= st.stmt + line@ + seq!['\n']);
        if has_char(&lc, ';') {
            close_statement(src, out, &stmt, start);
            stmt = Vec::new();
            start = 0;
            assert(stmt@ =~= Seq::<char>::empty());
        }
        i = i + 1;
    }
    if stmt.len() > 0 {
        close_statement(src, out, &stmt, start);
    }
}

/// Scans SQL: per-line rules, then the statement pass.
pub fn scan(src: &Src<'_>) -> (out: Vec<Finding>)
    ensures
        views(out@) == sql_scan(src.lines_view()),
{
    let ghost ls = src.lines_view();
    let mut out: Vec<Finding> = Vec::new();
    let mut i: usize = 0;
    while i < src.lines.len()
        invariant
            ls == src.lines_view(),
            i <= src.lines.len(),
            views(out@) == sql_lines(ls, i as int),
        decreases src.lines.len() - i,
    {
        let (n, line) = src.lines[i];
        proof {
            assert(ls[i as int] == (n, line@));
        }
        let hits = line_hits(src, n, line);
        append_all(&mut out, hits);
        i = i + 1;
    }
    unbounded_dml(src, &mut out);
    out
}

/// Law: closing a DELETE or UPDATE statement that has no WHERE anywhere (at
/// a `;` or at the end of the input) leaves `sql.unbounded_delete` or
/// `sql.unbounded_update` reported at the statement's first line, whether it
/// is reported now or already was.
pub proof fn law_unbounded_statement_reported(
    ls: Seq<(usize, Seq<char>)>,
    out: Seq<FindingView>,
    stmt: Seq<char>,
    start: usize,
)
    ensures
        !contains(upper(stmt), "WHERE"@) && starts_with(trim_start(upper(stmt)), "DELETE"@)
            ==> reported(close_stmt(ls, out, stmt, start), crate::rules::SQL_UNBOUNDED_DELETE_ID@, start),
        !contains(upper(stmt), "WHERE"@) && starts_with(trim_start(upper(stmt)), "UPDATE"@)
            ==> reported(close_stmt(ls, out, stmt, start), crate::rules::SQL_UNBOUNDED_UPDATE_ID@, start),
{
    reveal_strlit("DELETE");
    reveal_strlit("UPDATE");
    let u = upper(stmt);
    if starts_with(trim_start(u), "DELETE"@) && starts_with(trim_start(u), "UPDATE"@) {
        assert(trim_start(u).take(6)[0] == 'D');
        assert(trim_start(u).take(6)[0] == 'U');
    }
    match dml_rule(stmt) {
        Some(r) => {
            if !reported(out, rule_view(r).id, start) {
                let o = close_stmt(ls, out, stmt, start);
                let f = rule_finding(r, start, 1, line_at(ls, start));
                assert(o == out.push(f));
                assert(o[o.len() - 1] == f);
            }
        },
        None => {},
    }
}

/// Law: closing a statement that mentions WHERE anywhere (in any case)
/// reports nothing.
pub proof fn law_statement_with_where_not_reported(
    ls: Seq<(usize, Seq<char>)>,
    out: Seq<FindingView>,
    stmt: Seq<char>,
    start: usize,
)
    requires
        contains(upper(stmt), "WHERE"@),
    ensures
        close_stmt(ls, out, stmt, start) == out,
{
}

proof fn lemma_sql_lines_has(ls: Seq<(usize, Seq<char>)>, k: int, i: int, x: FindingView)
    requires
        0 <= i < k <= ls.len(),
        sql_line(ls, ls[i].0, ls[i].1).contains(x),
    ensures
        sql_lines(ls, k).contains(x),
    decreases k,
{
    if i < k - 1 {
        lemma_sql_lines_has(ls, k - 1, i, x);
    }
    lemma_contains_concat(sql_lines(ls, k - 1), sql_line(ls, ls[k - 1].0, ls[k - 1].1), x);
}

proof fn lemma_close_keeps(ls: Seq<(usize, Seq<char>)>, out: Seq<FindingView>, stmt: Seq<char>, start: usize, x: FindingView)
    requires
        out.contains(x),
    ensures
        close_stmt(ls, out, stmt, start).contains(x),
{
    let i = choose|i: int| 0 <= i < out.len() && out[i] == x;
    match dml_rule(stmt) {
        Some(r) => {
            if !reported(out, rule_view(r).id, start) {
                assert(close_stmt(ls, out, stmt, start)[i] == x);
            }
        },
        None => {},
    }
}

/// The statement pass keeps the findings it starts from.
proof fn lemma_dml_keeps(ls: Seq<(usize, Seq<char>)>, out0: Seq<FindingView>, k: int, x: FindingView)
    requires
        0 <= k <= ls.len(),
        out0.contains(x),
    ensures
        dml_pass(ls, out0, k).out.contains(x),
    decreases k,
{
    if k > 0 {
        lemma_dml_keeps(ls, out0, k - 1, x);
        let st = dml_pass(ls, out0, k - 1);
        let start = if st.start == 0 {
            ls[k - 1].0
        } else {
            st.start
        };
        lemma_close_keeps(ls, st.out, st.stmt + ls[k - 1].1 + seq!['\n'], start, x);
    }
}

/// Law: each rule of an SQL line fires on its own text: when a line that is
/// neither blank nor a `--` comment shows, trimmed and uppercased, what a
/// rule looks for (for unbounded DELETE and UPDATE: with no WHERE on it or
/// on the six lines numbered below it), the findings hold that rule's
/// finding at that line, quoting the trimmed line.
pub proof fn law_sql_line_rules(ls: Seq<(usize, Seq<char>)>, i: int)
    requires
        0 <= i < ls.len(),
    ensures
        ({
            let n = ls[i].0;
            let line = ls[i].1;
            let t = trim(line);
            let u = upper(t);
            (t.len() > 0 && !starts_with(t, "--"@) && (contains(u, "SELECT *"@) || contains(u, "SELECT*"@)))
                ==> sql_scan(ls).contains(rule_finding(Rule::SqlSelectStar, n, 1, t))
        }),
        ({
            let n = ls[i].0;
            let line = ls[i].1;
            let t = trim(line);
            let u = upper(t);
            (t.len() > 0 && !starts_with(t, "--"@) && (comma_joined(u)))
                ==> sql_scan(ls).contains(rule_finding(Rule::SqlCommaJoin, n, 1, t))
        }),
        ({
            let n = ls[i].0;
            let line = ls[i].1;
            let t = trim(line);
            let u = upper(t);
            (t.len() > 0 && !starts_with(t, "--"@) && (contains(u, "OR 1=1"@) || contains(u, "OR 1 = 1"@) || contains(u, "OR '1'='1'"@) || contains(u, "OR TRUE"@)))
                ==> sql_scan(ls).contains(rule_finding(Rule::SqlTautology, n, 1, t))
        }),
        ({
            let n = ls[i].0;
            let line = ls[i].1;
            let t = trim(line);
            let u = upper(t);
            (t.len() > 0 && !starts_with(t, "--"@) && (filters_on_function(u)))
                ==> sql_scan(ls).contains(rule_finding(Rule::SqlFnOnColumn, n, 1, t))
        }),
        ({
            let n = ls[i].0;
            let line = ls[i].1;
            let t = trim(line);
            let u = upper(t);
            (t.len() > 0 && !starts_with(t, "--"@) && (contains(u, "LIKE '%"@)))
                ==> sql_scan(ls).contains(rule_finding(Rule::SqlLeadingWildcard, n, 1, t))
        }),
        ({
            let n = ls[i].0;
            let line = ls[i].1;
            let t = trim(line);
            let u = upper(t);
            (t.len() > 0 && !starts_with(t, "--"@) && (contains(u, "NOT IN ("@)))
                ==> sql_scan(ls).contains(rule_finding(Rule::SqlNotIn, n, 1, t))
        }),
        ({
            let n = ls[i].0;
            let line = ls[i].1;
            let t = trim(line);
            let u = upper(t);
            (t.len() > 0 && !starts_with(t, "--"@) && ((starts_with(u, "DELETE FROM"@) || starts_with(u, "DELETE "@)) && !contains(u, "WHERE"@) && !(exists|j: int| 0 <= j < ls.len() && n < (#[trigger] ls[j]).0 <= n + 6 && contains(upper(ls[j].1), "WHERE"@))))
                ==> sql_scan(ls).contains(rule_finding(Rule::SqlUnboundedDelete, n, 1, t))
        }),
        ({
            let n = ls[i].0;
            let line = ls[i].1;
            let t = trim(line);
            let u = upper(t);
            (t.len() > 0 && !starts_with(t, "--"@) && (starts_with(u, "UPDATE "@) && !contains(u, "WHERE"@) && !(exists|j: int| 0 <= j < ls.len() && n < (#[trigger] ls[j]).0 <= n + 6 && contains(upper(ls[j].1), "WHERE"@))))
                ==> sql_scan(ls).contains(rule_finding(Rule::SqlUnboundedUpdate, n, 1, t))
        }),
        ({
            let n = ls[i].0;
            let line = ls[i].1;
            let t = trim(line);
            let u = upper(t);
            (t.len() > 0 && !starts_with(t, "--"@) && ((contains(t, "${"@) || (contains(t, "'"@) && contains(t, "+"@) && (contains(u, "WHERE"@) || contains(u, "VALUES"@)))) && contains(t, "+"@) && !contains(t, "++"@)))
                ==> sql_scan(ls).contains(rule_finding(Rule::SqlStringConcat, n, 1, t))
        }),
        ({
            let n = ls[i].0;
            let line = ls[i].1;
            let t = trim(line);
            let u = upper(t);
            (t.len() > 0 && !starts_with(t, "--"@) && (contains(u, "OFFSET"@) && (int_after(u, "OFFSET"@) matches Some(v) && v > 1000)))
                ==> sql_scan(ls).contains(rule_finding(Rule::SqlDeepOffset, n, 1, t))
        }),
        ({
            let n = ls[i].0;
            let line = ls[i].1;
            let t = trim(line);
            let u = upper(t);
            (t.len() > 0 && !starts_with(t, "--"@) && (contains(u, "ORDER BY RANDOM()"@) || contains(u, "ORDER BY RAND()"@)))
                ==> sql_scan(ls).contains(rule_finding(Rule::SqlOrderRandom, n, 1, t))
        }),
        ({
            let n = ls[i].0;
            let line = ls[i].1;
            let t = trim(line);
            let u = upper(t);
            (t.len() > 0 && !starts_with(t, "--"@) && (contains(u, "FOR UPDATE"@) && (contains(u, "LOCK TABLE"@) || (!contains(u, "SKIP LOCKED"@) && !contains(u, "NOWAIT"@)))))
                ==> sql_scan(ls).contains(rule_finding(Rule::SqlForUpdate, n, 1, t))
        }),
{
    let (n, line) = ls[i];
    let k = ls.len() as int;
    assert forall|x: FindingView| sql_line(ls, n, line).contains(x) implies #[trigger] sql_scan(
        ls,
    ).contains(x) by {
        lemma_sql_lines_has(ls, k, i, x);
        lemma_dml_keeps(ls, sql_lines(ls, k), k, x);
        let st = dml_pass(ls, sql_lines(ls, k), k);
        lemma_close_keeps(ls, st.out, st.stmt, st.start, x);
    }
    assert forall|a: Seq<FindingView>, b: Seq<FindingView>, x: FindingView|
        a.contains(x) || b.contains(x) implies #[trigger] (a + b).contains(x) by {
        lemma_contains_concat(a, b, x);
    }
    assert forall|c: bool, f: FindingView| c implies #[trigger] opt(c, f).contains(f) by {
        lemma_opt_contains(c, f);
    }
}

proof fn lemma_reported_concat(a: Seq<FindingView>, b: Seq<FindingView>, id: Seq<char>, n: usize)
    ensures
        reported(a + b, id, n) <==> reported(a, id, n) || reported(b, id, n),
{
    if reported(a + b, id, n) {
        let i = choose|i: int| 0 <= i < (a + b).len() && (#[trigger] (a + b)[i]).id == id && (a
            + b)[i].line == n;
        if i >= a.len() {
            assert(b[i - a.len()] == (a + b)[i]);
        } else {
            assert(a[i] == (a + b)[i]);
        }
    }
    if reported(a, id, n) {
        let i = choose|i: int| 0 <= i < a.len() && (#[trigger] a[i]).id == id && a[i].line == n;
        assert((a + b)[i] == a[i]);
    }
    if reported(b, id, n) {
        let i = choose|i: int| 0 <= i < b.len() && (#[trigger] b[i]).id == id && b[i].line == n;
        assert((a + b)[a.len() + i] == b[i]);
    }
}

proof fn lemma_reported_opt(c: bool, f: FindingView, id: Seq<char>, n: usize)
    ensures
        reported(opt(c, f), id, n) <==> c && f.id == id && f.line == n,
{
    reveal(opt);
    if c && f.id == id && f.line == n {
        assert(opt(c, f)[0] == f);
    }
}

/// The findings of a line that starts a DELETE or UPDATE: reported under
/// `id` at line `n` exactly when the rule of that id fires. (Every other
/// rule of a line has an id of its own.)
proof fn lemma_line_dml_ids(ls: Seq<(usize, Seq<char>)>, n: usize, line: Seq<char>, id: Seq<char>)
    requires
        id == crate::rules::SQL_UNBOUNDED_UPDATE_ID@ || id == crate::rules::SQL_UNBOUNDED_DELETE_ID@,
        starts_with(upper(trim(line)), "UPDATE "@) || starts_with(upper(trim(line)), "DELETE "@),
    ensures
        ({
            let t = trim(line);
            let u = upper(t);
            let del = (starts_with(u, "DELETE FROM"@) || starts_with(u, "DELETE "@)) && !contains(
                u,
                "WHERE"@,
            ) && !where_ahead(ls, n);
            let upd = starts_with(u, "UPDATE "@) && !contains(u, "WHERE"@) && !where_ahead(ls, n);
            reported(sql_line(ls, n, line), id, n) <==> if id
                == crate::rules::SQL_UNBOUNDED_UPDATE_ID@ {
                upd
            } else {
                del
            }
        }),
{
    reveal_strlit("UPDATE ");
    reveal_strlit("DELETE ");
    reveal_strlit("--");
    reveal_strlit("sql.select_star");
    reveal_strlit("sql.comma_join");
    reveal_strlit("sql.tautology");
    reveal_strlit("sql.fn_on_column");
    reveal_strlit("sql.leading_wildcard");
    reveal_strlit("sql.not_in");
    reveal_strlit("sql.unbounded_delete");
    reveal_strlit("sql.unbounded_update");
    reveal_strlit("sql.string_concat");
    reveal_strlit("sql.deep_offset");
    reveal_strlit("sql.order_random");
    reveal_strlit("sql.for_update");
    let t = trim(line);
    let u = upper(t);
    assert(u.take(7)[0] == u[0]);
    assert(t.len() > 0 && u[0] == upper_char(t[0]));
    if starts_with(t, "--"@) {
        assert(t.take(2)[0] == t[0]);
    }
    assert forall|a: Seq<FindingView>, b: Seq<FindingView>| #[trigger]
        reported(a + b, id, n) <==> reported(a, id, n) || reported(b, id, n) by {
        lemma_reported_concat(a, b, id, n);
    }
    assert forall|c: bool, f: FindingView| #[trigger]
        reported(opt(c, f), id, n) <==> c && f.id == id && f.line == n by {
        lemma_reported_opt(c, f, id, n);
    }
    let upd_id = crate::rules::SQL_UNBOUNDED_UPDATE_ID@;
    let del_id = crate::rules::SQL_UNBOUNDED_DELETE_ID@;
    assert(upd_id[14] != del_id[14]);
    assert(crate::rules::SQL_LEADING_WILDCARD_ID@[4] != upd_id[4]);
    assert(crate::rules::SQL_LEADING_WILDCARD_ID@[4] != del_id[4]);
    assert(sql_line(ls, n, line) == sql_line_early(n, t, u) + sql_line_late(ls, n, t, u));
}

/// Law: a line that starts an UPDATE (in any case) and has no WHERE of its
/// own is reported as `sql.unbounded_update` at its line exactly when no
/// line numbered from one to six below it mentions WHERE (in any case).
pub proof fn law_update_lookahead_window(ls: Seq<(usize, Seq<char>)>, n: usize, line: Seq<char>)
    requires
        starts_with(upper(trim(line)), "UPDATE "@),
        !contains(upper(trim(line)), "WHERE"@),
    ensures
        reported(sql_line(ls, n, line), crate::rules::SQL_UNBOUNDED_UPDATE_ID@, n) <==> !exists|
            j: int,
        |
            0 <= j < ls.len() && n < (#[trigger] ls[j]).0 <= n + 6 && contains(
                upper(ls[j].1),
                "WHERE"@,
            ),
{
    lemma_line_dml_ids(ls, n, line, crate::rules::SQL_UNBOUNDED_UPDATE_ID@);
}

/// Law: a line that starts a DELETE (in any case) and has no WHERE of its
/// own is reported as `sql.unbounded_delete` at its line exactly when no
/// line numbered from one to six below it mentions WHERE (in any case).
pub proof fn law_delete_lookahead_window(ls: Seq<(usize, Seq<char>)>, n: usize, line: Seq<char>)
    requires
        starts_with(upper(trim(line)), "DELETE "@),
        !contains(upper(trim(line)), "WHERE"@),
    ensures
        reported(sql_line(ls, n, line), crate::rules::SQL_UNBOUNDED_DELETE_ID@, n) <==> !exists|
            j: int,
        |
            0 <= j < ls.len() && n < (#[trigger] ls[j]).0 <= n + 6 && contains(
                upper(ls[j].1),
                "WHERE"@,
            ),
{
    reveal_strlit("sql.unbounded_delete");
    reveal_strlit("sql.unbounded_update");
    assert(crate::rules::SQL_UNBOUNDED_DELETE_ID@[14] != crate::rules::SQL_UNBOUNDED_UPDATE_ID@[14]);
    lemma_line_dml_ids(ls, n, line, crate::rules::SQL_UNBOUNDED_DELETE_ID@);
}

proof fn lemma_sql_lines_within(ls: Seq<(usize, Seq<char>)>, k: int, m: nat)
    requires
        k <= ls.len(),
        forall|j: int| 0 <= j < ls.len() ==> 1 <= (#[trigger] ls[j]).0 <= m,
    ensures
        lines_within(sql_lines(ls, k), m),
    decreases k,
{
    if k > 0 {
        lemma_sql_lines_within(ls, k - 1, m);
        lemma_within_sums(m);
        let (n, line) = ls[k - 1];
        assert(1 <= n <= m);
        let t = trim(line);
        if !(t.len() == 0 || starts_with(t, "--"@)) {
            let u = upper(t);
            assert(lines_within(sql_line_early(n, t, u), m));
            assert(lines_within(sql_line_late(ls, n, t, u), m));
        }
        assert(lines_within(sql_line(ls, n, line), m));
    }
}

proof fn lemma_dml_within(ls: Seq<(usize, Seq<char>)>, out0: Seq<FindingView>, k: int, m: nat)
    requires
        k <= ls.len(),
        forall|j: int| 0 <= j < ls.len() ==> 1 <= (#[trigger] ls[j]).0 <= m,
        lines_within(out0, m),
    ensures
        lines_within(dml_pass(ls, out0, k).out, m),
        dml_pass(ls, out0, k).start == 0 || 1 <= dml_pass(ls, out0, k).start <= m,
    decreases k,
{
    if k > 0 {
        lemma_dml_within(ls, out0, k - 1, m);
        let st = dml_pass(ls, out0, k - 1);
        let (n, line) = ls[k - 1];
        assert(1 <= n <= m);
        let start = if st.start == 0 {
            n
        } else {
            st.start
        };
        let rd = Rule::SqlUnboundedDeleteStmt;
        let ru = Rule::SqlUnboundedUpdateStmt;
        let fd = rule_finding(rd, start, 1, line_at(ls, start));
        let fu = rule_finding(ru, start, 1, line_at(ls, start));
        assert(lines_within(seq![fd], m));
        assert(lines_within(seq![fu], m));
        lemma_within_concat(st.out, seq![fd], m);
        lemma_within_concat(st.out, seq![fu], m);
        assert(st.out.push(fd) =~= st.out + seq![fd]);
        assert(st.out.push(fu) =~= st.out + seq![fu]);
    }
}

pub proof fn lemma_sql_within(ls: Seq<(usize, Seq<char>)>, m: nat)
    requires
        forall|j: int| 0 <= j < ls.len() ==> 1 <= (#[trigger] ls[j]).0 <= m,
    ensures
        lines_within(sql_scan(ls), m),
{
    lemma_sql_lines_within(ls, ls.len() as int, m);
    lemma_dml_within(ls, sql_lines(ls, ls.len() as int), ls.len() as int, m);
}

} // verus!
