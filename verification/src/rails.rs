//! Rules for Ruby on Rails.
use vstd::prelude::*;

use crate::rules::{rule_finding, Rule};
use crate::text::{
    chars_of, contains, ends_with, has_char, has_suffix, has_text, lower, same, str_bytes,
    sub_chars, to_lower, trim, trim_range, trimmed,
};
use crate::score::{lemma_count_concat, severity_count, Severity};
use crate::{
    append_all, col, col_of, lemma_contains_concat, lemma_opt_contains, lemma_within_concat, lemma_within_sums, line_at, lines_within, opt,
    push_rule, views, Finding, FindingView, Src,
};

verus! {

/// `n - 1`, or 0 for line 0.
pub open spec fn prev_line(n: usize) -> usize {
    if n == 0 {
        0
    } else {
        (n - 1) as usize
    }
}

/// The line-level findings of line `n`.
pub open spec fn rails_line(ls: Seq<(usize, Seq<char>)>, n: usize, line: Seq<char>) -> Seq<
    FindingView,
> {
    let t = trim(line);
    let l = lower(t);
    rails_line_early(n, line, t, l) + rails_line_late(ls, n, t, l)
}

pub open spec fn rails_line_early(n: usize, line: Seq<char>, t: Seq<char>, l: Seq<char>) -> Seq<
    FindingView,
> {
    opt(
        contains(l, "params.permit!"@),
        rule_finding(Rule::RailsPermitBang, n, col_of(line, "permit!"@), t),
    ) + opt(
        contains(l, "skip_before_action"@) && (contains(l, "auth"@) || contains(
            l,
            "authenticate"@,
        ) || contains(l, "verify"@)),
        rule_finding(Rule::RailsSkipAuth, n, 1, t),
    ) + opt(
        contains(l, "html_safe"@) || contains(l, "raw("@) || contains(l, ".html_safe"@),
        rule_finding(Rule::RailsHtmlSafe, n, 1, t),
    ) + opt(
        contains(l, "eval("@) || contains(l, "instance_eval"@) || contains(l, "class_eval"@)
            || contains(l, "module_eval"@),
        rule_finding(Rule::RailsEval, n, 1, t),
    ) + opt(
        contains(l, "send(params"@) || contains(l, "public_send(params"@) || (contains(
            l,
            "constantize"@,
        ) && contains(l, "params"@)),
        rule_finding(Rule::RailsSendParams, n, 1, t),
    ) + opt(
        contains(l, "redirect_to params"@) || contains(l, "redirect_to(params"@),
        rule_finding(Rule::RailsOpenRedirect, n, 1, t),
    ) + opt(
        (contains(l, "where(\""@) || contains(l, "where('"@) || contains(l, "find_by_sql"@)
            || contains(l, "execute("@)) && (contains(t, "#{"@) || contains(l, "+ params"@)
            || contains(l, "+params"@)),
        rule_finding(Rule::RailsSqlInterp, n, 1, t),
    )
}

pub open spec fn rails_line_late(
    ls: Seq<(usize, Seq<char>)>,
    n: usize,
    t: Seq<char>,
    l: Seq<char>,
) -> Seq<FindingView> {
    opt(
        (contains(l, "update_all"@) || contains(l, "delete_all"@) || contains(l, "destroy_all"@))
            && !contains(l, "where"@) && !contains(lower(line_at(ls, prev_line(n))), "where"@),
        rule_finding(Rule::RailsUnscopedWrite, n, 1, t),
    ) + opt(contains(l, "default_scope"@), rule_finding(Rule::RailsDefaultScope, n, 1, t)) + opt(
        contains(l, "render json:"@) && (contains(l, ".all"@) || contains(l, ".all["@)),
        rule_finding(Rule::RailsRenderAll, n, 1, t),
    ) + opt(
        contains(l, "user.find(params"@) || contains(l, "user.find_by(id: params"@),
        rule_finding(Rule::RailsDirectFind, n, 1, t),
    ) + opt(
        (contains(l, "rescue_from"@) && contains(l, "exception"@)) || contains(
            t,
            "rescue Exception"@,
        ) || (contains(t, "rescue StandardError"@) && contains(l, "end"@)),
        rule_finding(Rule::RailsSwallow, n, 1, t),
    ) + opt(
        (contains(l, "after_save"@) || contains(l, "after_commit"@) || contains(
            l,
            "after_create"@,
        )) && (contains(l, "http"@) || contains(l, "net::"@) || contains(l, "faraday"@)
            || contains(l, "httparty"@)),
        rule_finding(Rule::RailsCallbackIo, n, 1, t),
    ) + opt(
        contains(l, "# TODO"@) || contains(l, "# later"@) || contains(l, "just in case"@)
            || contains(l, "future proof"@) || contains(l, "flexible"@),
        rule_finding(Rule::RailsSpeculative, n, 1, t),
    ) + opt(
        contains(l, ".save"@) && !contains(l, "save!"@) && !contains(l, "if "@) && (ends_with(
            l,
            ".save"@,
        ) || contains(l, ".save("@)),
        rule_finding(Rule::RailsSaveSilent, n, 1, t),
    )
}

/// Line-level findings of the first `k` lines of `ls`.
pub open spec fn rails_lines(ls: Seq<(usize, Seq<char>)>, k: int) -> Seq<FindingView>
    decreases k,
{
    if k <= 0 {
        seq![]
    } else {
        rails_lines(ls, k - 1) + rails_line(ls, ls[k - 1].0, ls[k - 1].1)
    }
}

/// The source eager-loads associations somewhere.
pub open spec fn eager_loads(raw: Seq<char>) -> bool {
    contains(lower(raw), "includes("@) || contains(lower(raw), "preload("@) || contains(
        lower(raw),
        "eager_load("@,
    )
}

/// A line that starts a loop (`.each`, `.map`, `.find_each`).
pub open spec fn opens_loop(l: Seq<char>) -> bool {
    contains(l, ".each"@) || contains(l, ".map"@) || contains(l, ".find_each"@)
}

/// A line inside a loop that reads an association.
pub open spec fn touches_assoc(line: Seq<char>, l: Seq<char>) -> bool {
    &&& contains(line, seq!['.'])
    &&& !contains(l, ".each"@)
    &&& !contains(l, ".map"@)
    &&& !contains(l, "puts"@)
    &&& contains(l, ".name"@) || contains(l, ".user"@) || contains(l, ".carrier"@) || contains(
        l,
        ".stops"@,
    ) || contains(l, ".account"@) || contains(l, ".profile"@) || contains(l, ".orders"@)
        || contains(l, ".loads"@) || contains(l, ".first"@) || contains(l, ".last"@)
}

/// State of the N+1 pass.
pub struct LoopState {
    pub in_each: bool,
    pub each_line: usize,
    pub hits: nat,
    pub out: Seq<FindingView>,
}

/// The N+1 pass reads line `n`: a loop opens, association reads are counted,
/// and at a bare `end` after at least one read the loop's line is reported
/// (unless the source eager-loads).
pub open spec fn loop_step(
    ls: Seq<(usize, Seq<char>)>,
    eager: bool,
    st: LoopState,
    n: usize,
    line: Seq<char>,
) -> LoopState {
    let l = lower(line);
    let st1 = if opens_loop(l) {
        LoopState { in_each: true, each_line: n, hits: 0, out: st.out }
    } else {
        st
    };
    if st1.in_each {
        let hits = if touches_assoc(line, l) {
            st1.hits + 1
        } else {
            st1.hits
        };
        if trim(l) == "end"@ && hits >= 1 {
            LoopState {
                in_each: false,
                each_line: st1.each_line,
                hits,
                out: if eager {
                    st1.out
                } else {
                    st1.out.push(
                        rule_finding(
                            Rule::RailsNPlusOne,
                            st1.each_line,
                            1,
                            line_at(ls, st1.each_line),
                        ),
                    )
                },
            }
        } else {
            LoopState { in_each: true, each_line: st1.each_line, hits, out: st1.out }
        }
    } else {
        st1
    }
}

/// The N+1 pass over the first `k` lines, starting from findings `out0`.
pub open spec fn loop_pass(
    ls: Seq<(usize, Seq<char>)>,
    eager: bool,
    out0: Seq<FindingView>,
    k: int,
) -> LoopState
    decreases k,
{
    if k <= 0 {
        LoopState { in_each: false, each_line: 0, hits: 0, out: out0 }
    } else {
        loop_step(ls, eager, loop_pass(ls, eager, out0, k - 1), ls[k - 1].0, ls[k - 1].1)
    }
}

/// A line that reads `current_user` next to `params`.
pub open spec fn spoof_line(line: Seq<char>) -> bool {
    contains(lower(line), "current_user"@) && contains(lower(line), "params"@)
}

/// Index of the first spoofing line at or after `i`.
pub open spec fn first_spoof(ls: Seq<(usize, Seq<char>)>, i: int) -> Option<int>
    decreases ls.len() - i,
{
    if i < 0 || i >= ls.len() {
        None
    } else if spoof_line(ls[i].1) {
        Some(i)
    } else {
        first_spoof(ls, i + 1)
    }
}

/// `current_user` taken from `params[:user...]`: reported once, at the first
/// line that reads both.
pub open spec fn spoof(raw: Seq<char>, ls: Seq<(usize, Seq<char>)>) -> Seq<FindingView> {
    if contains(lower(raw), "current_user"@) && contains(lower(raw), "params[:user"@) {
        match first_spoof(ls, 0) {
            Some(i) => seq![rule_finding(Rule::RailsUserSpoof, ls[i].0, 1, ls[i].1)],
            None => seq![],
        }
    } else {
        seq![]
    }
}

/// Everything `scan` reports on a source `raw` split into lines `ls`.
pub open spec fn rails_scan(raw: Seq<char>, ls: Seq<(usize, Seq<char>)>) -> Seq<FindingView> {
    loop_pass(ls, eager_loads(raw), rails_lines(ls, ls.len() as int), ls.len() as int).out
        + spoof(raw, ls)
}

fn early_hits(n: usize, line: &Vec<char>, t: &str, l: &Vec<char>) -> (out: Vec<Finding>)
    requires
        crate::text::utf8_len(line@) <= usize::MAX,
    ensures
        views(out@) == rails_line_early(n, line@, t@, l@),
{
    let tc = chars_of(t);
    let mut out: Vec<Finding> = Vec::new();
    push_rule(
        &mut out,
        has_text(l, "params.permit!"),
        Rule::RailsPermitBang,
        n,
        col(line, "permit!"),
        t,
    );
    assert(views(out@) =~= opt(
        contains(l@, "params.permit!"@),
        rule_finding(Rule::RailsPermitBang, n, col_of(line@, "permit!"@), t@),
    ));
    let skip = has_text(l, "skip_before_action") && (has_text(l, "auth") || has_text(
        l,
        "authenticate",
    ) || has_text(l, "verify"));
    push_rule(&mut out, skip, Rule::RailsSkipAuth, n, 1, t);
    push_rule(
        &mut out,
        has_text(l, "html_safe") || has_text(l, "raw(") || has_text(l, ".html_safe"),
        Rule::RailsHtmlSafe,
        n,
        1,
        t,
    );
    let eval = has_text(l, "eval(") || has_text(l, "instance_eval") || has_text(l, "class_eval")
        || has_text(l, "module_eval");
    push_rule(&mut out, eval, Rule::RailsEval, n, 1, t);
    let send = has_text(l, "send(params") || has_text(l, "public_send(params") || (has_text(
        l,
        "constantize",
    ) && has_text(l, "params"));
    push_rule(&mut out, send, Rule::RailsSendParams, n, 1, t);
    push_rule(
        &mut out,
        has_text(l, "redirect_to params") || has_text(l, "redirect_to(params"),
        Rule::RailsOpenRedirect,
        n,
        1,
        t,
    );
    let query = has_text(l, "where(\"") || has_text(l, "where('") || has_text(l, "find_by_sql")
        || has_text(l, "execute(");
    let interp = query && (has_text(&tc, "#{") || has_text(l, "+ params") || has_text(
        l,
        "+params",
    ));
    push_rule(&mut out, interp, Rule::RailsSqlInterp, n, 1, t);
    out
}

/// The previous line mentions `where` in any case.
fn prev_where(src: &Src<'_>, n: usize) -> (r: bool)
    ensures
        r == contains(lower(line_at(src.lines_view(), prev_line(n))), "where"@),
{
    let p = if n == 0 {
        0
    } else {
        n - 1
    };
    let pc = chars_of(src.line(p));
    let pl = to_lower(&pc);
    has_text(&pl, "where")
}

fn late_hits(src: &Src<'_>, n: usize, t: &str, l: &Vec<char>) -> (out: Vec<Finding>)
    ensures
        views(out@) == rails_line_late(src.lines_view(), n, t@, l@),
{
    let tc = chars_of(t);
    let mut out: Vec<Finding> = Vec::new();
    let bulk = has_text(l, "update_all") || has_text(l, "delete_all") || has_text(
        l,
        "destroy_all",
    );
    let unscoped = bulk && !has_text(l, "where") && !prev_where(src, n);
    push_rule(&mut out, unscoped, Rule::RailsUnscopedWrite, n, 1, t);
    assert(views(out@) =~= opt(
        (contains(l@, "update_all"@) || contains(l@, "delete_all"@) || contains(
            l@,
            "destroy_all"@,
        )) && !contains(l@, "where"@) && !contains(
            lower(line_at(src.lines_view(), prev_line(n))),
            "where"@,
        ),
        rule_finding(Rule::RailsUnscopedWrite, n, 1, t@),
    ));
    push_rule(&mut out, has_text(l, "default_scope"), Rule::RailsDefaultScope, n, 1, t);
    push_rule(
        &mut out,
        has_text(l, "render json:") && (has_text(l, ".all") || has_text(l, ".all[")),
        Rule::RailsRenderAll,
        n,
        1,
        t,
    );
    push_rule(
        &mut out,
        has_text(l, "user.find(params") || has_text(l, "user.find_by(id: params"),
        Rule::RailsDirectFind,
        n,
        1,
        t,
    );
    let swallow = (has_text(l, "rescue_from") && has_text(l, "exception")) || has_text(
        &tc,
        "rescue Exception",
    ) || (has_text(&tc, "rescue StandardError") && has_text(l, "end"));
    push_rule(&mut out, swallow, Rule::RailsSwallow, n, 1, t);
    let callback = has_text(l, "after_save") || has_text(l, "after_commit") || has_text(
        l,
        "after_create",
    );
    let io = has_text(l, "http") || has_text(l, "net::") || has_text(l, "faraday") || has_text(
        l,
        "httparty",
    );
    push_rule(&mut out, callback && io, Rule::RailsCallbackIo, n, 1, t);
    let speculative = has_text(l, "# TODO") || has_text(l, "# later") || has_text(
        l,
        "just in case",
    ) || has_text(l, "future proof") || has_text(l, "flexible");
    push_rule(&mut out, speculative, Rule::RailsSpeculative, n, 1, t);
    let silent = has_text(l, ".save") && !has_text(l, "save!") && !has_text(l, "if ") && (
    has_suffix(l, ".save") || has_text(l, ".save("));
    push_rule(&mut out, silent, Rule::RailsSaveSilent, n, 1, t);
    out
}

fn line_hits(src: &Src<'_>, n: usize, line: &str) -> (out: Vec<Finding>)
    ensures
        views(out@) == rails_line(src.lines_view(), n, line@),
{
    let lc = chars_of(line);
    // Measuring the line establishes that its byte length fits in usize.
    let _bytes: usize = str_bytes(line);
    let (a, b) = trim_range(&lc);
    let t = line.substring_char(a, b);
    let tc = sub_chars(&lc, a, b);
    let l = to_lower(&tc);
    let early = early_hits(n, &lc, t, &l);
    let late = late_hits(src, n, t, &l);
    let mut out: Vec<Finding> = Vec::new();
    append_all(&mut out, early);
    append_all(&mut out, late);
    assert(views(out@) =~= rails_line_early(n, line@, t@, l@) + rails_line_late(
        src.lines_view(),
        n,
        t@,
        l@,
    ));
    out
}

/// The N+1 pass.
fn n_plus_one(src: &Src<'_>, out: &mut Vec<Finding>)
    ensures
        views(final(out)@) == loop_pass(
            src.lines_view(),
            eager_loads(src.raw@),
            views(old(out)@),
            src.lines.len() as int,
        ).out,
{
    let ghost ls = src.lines_view();
    let ghost out0 = views(out@);
    let rc = chars_of(src.raw);
    let rl = to_lower(&rc);
    let eager = has_text(&rl, "includes(") || has_text(&rl, "preload(") || has_text(
        &rl,
        "eager_load(",
    );
    let mut in_each = false;
    let mut each_line: usize = 0;
    let mut assoc_hits: usize = 0;
    let mut i: usize = 0;
    while i < src.lines.len()
        invariant
            ls == src.lines_view(),
            out0 == views(old(out)@),
            eager == eager_loads(src.raw@),
            i <= src.lines.len(),
            assoc_hits <= i,
            views(out@) == loop_pass(ls, eager, out0, i as int).out,
            in_each == loop_pass(ls, eager, out0, i as int).in_each,
            each_line == loop_pass(ls, eager, out0, i as int).each_line,
            assoc_hits == loop_pass(ls, eager, out0, i as int).hits,
        decreases src.lines.len() - i,
    {
        let (n, line) = src.lines[i];
        let ghost st = loop_pass(ls, eager, out0, i as int);
        proof {
            assert(ls[i as int] == (n, line@));
            assert(loop_pass(ls, eager, out0, i + 1) == loop_step(ls, eager, st, n, line@));
        }
        let lc = chars_of(line);
        let l = to_lower(&lc);
        let each = has_text(&l, ".each");
        let map = has_text(&l, ".map");
        if each || map || has_text(&l, ".find_each") {
            in_each = true;
            each_line = n;
            assoc_hits = 0;
        }
        if in_each {
            let assoc = has_char(&lc, '.') && !each && !map && !has_text(&l, "puts") && (has_text(
                &l,
                ".name",
            ) || has_text(&l, ".user") || has_text(&l, ".carrier") || has_text(&l, ".stops")
                || has_text(&l, ".account") || has_text(&l, ".profile") || has_text(
                &l,
                ".orders",
            ) || has_text(&l, ".loads") || has_text(&l, ".first") || has_text(&l, ".last"));
            if assoc {
                assoc_hits = assoc_hits + 1;
            }
            let tl = trimmed(&l);
            if same(&tl, "end") && assoc_hits >= 1 {
                if !eager {
                    let excerpt = src.line(each_line);
                    let ghost before_push = views(out@);
                    push_rule(out, true, Rule::RailsNPlusOne, each_line, 1, excerpt);
                    proof {
                        reveal(opt);
                    }
                    assert(views(out@) =~= before_push.push(
                        rule_finding(Rule::RailsNPlusOne, each_line, 1, line_at(ls, each_line)),
                    ));
                }
                in_each = false;
            }
        }
        i = i + 1;
    }
}

/// The spoofed-identity check.
fn user_spoof(src: &Src<'_>, out: &mut Vec<Finding>)
    ensures
        views(final(out)@) == views(old(out)@) + spoof(src.raw@, src.lines_view()),
{
    let ghost ls = src.lines_view();
    let rc = chars_of(src.raw);
    let rl = to_lower(&rc);
    if !(has_text(&rl, "current_user") && has_text(&rl, "params[:user")) {
        assert(views(out@) =~= views(old(out)@) + spoof(src.raw@, ls));
        return;
    }
    let mut i: usize = 0;
    while i < src.lines.len()
        invariant
            ls == src.lines_view(),
            i <= src.lines.len(),
            views(out@) == views(old(out)@),
            first_spoof(ls, 0) == first_spoof(ls, i as int),
            contains(lower(src.raw@), "current_user"@) && contains(lower(src.raw@), "params[:user"@),
        decreases src.lines.len() - i,
    {
        let (n, line) = src.lines[i];
        proof {
            assert(ls[i as int] == (n, line@));
        }
        let lc = chars_of(line);
        let l = to_lower(&lc);
        if has_text(&l, "current_user") && has_text(&l, "params") {
            proof {
                assert(first_spoof(ls, i as int) == Some(i as int));
            }
            push_rule(out, true, Rule::RailsUserSpoof, n, 1, line);
            proof {
                reveal(opt);
            }
            assert(views(out@) =~= views(old(out)@) + seq![
                rule_finding(Rule::RailsUserSpoof, n, 1, line@),
            ]);
            return;
        }
        i = i + 1;
    }
    assert(views(out@) =~= views(old(out)@) + spoof(src.raw@, ls));
}

/// Scans Rails code: per-line rules, then the N+1 pass, then the spoofed
/// identity check.
pub fn scan(src: &Src<'_>) -> (out: Vec<Finding>)
    ensures
        views(out@) == rails_scan(src.raw@, src.lines_view()),
{
    let ghost ls = src.lines_view();
    let mut out: Vec<Finding> = Vec::new();
    let mut i: usize = 0;
    while i < src.lines.len()
        invariant
            ls == src.lines_view(),
            i <= src.lines.len(),
            views(out@) == rails_lines(ls, i as int),
        decreases src.lines.len() - i,
    {
        let (n, line) = src.lines[i];
        proof {
            assert(ls[i as int] == (n, line@));
        }
        let hits = line_hits(src, n, line);
        append_all(&mut out, hits);
        i = i + 1;
    }
    n_plus_one(src, &mut out);
    user_spoof(src, &mut out);
    out
}

proof fn lemma_count_grows(a: Seq<FindingView>, b: Seq<FindingView>, s: Severity)
    ensures
        severity_count(a + b, s) >= severity_count(a, s),
        severity_count(a + b, s) >= severity_count(b, s),
{
    lemma_count_concat(a, b, s);
}

proof fn lemma_rails_lines_count(ls: Seq<(usize, Seq<char>)>, i: int, k: int, s: Severity)
    requires
        0 <= i < k <= ls.len(),
    ensures
        severity_count(rails_lines(ls, k), s) >= severity_count(
            rails_line(ls, ls[i].0, ls[i].1),
            s,
        ),
    decreases k,
{
    lemma_count_grows(rails_lines(ls, k - 1), rails_line(ls, ls[k - 1].0, ls[k - 1].1), s);
    if i < k - 1 {
        lemma_rails_lines_count(ls, i, k - 1, s);
    }
}

proof fn lemma_loop_pass_count(
    ls: Seq<(usize, Seq<char>)>,
    eager: bool,
    out0: Seq<FindingView>,
    k: int,
    s: Severity,
)
    ensures
        severity_count(loop_pass(ls, eager, out0, k).out, s) >= severity_count(out0, s),
    decreases k,
{
    if k > 0 {
        lemma_loop_pass_count(ls, eager, out0, k - 1, s);
        let st = loop_pass(ls, eager, out0, k - 1);
        let st1 = if opens_loop(lower(ls[k - 1].1)) {
            LoopState { in_each: true, each_line: ls[k - 1].0, hits: 0, out: st.out }
        } else {
            st
        };
        let f = rule_finding(Rule::RailsNPlusOne, st1.each_line, 1, line_at(ls, st1.each_line));
        assert(st1.out.push(f).drop_last() =~= st1.out);
    }
}

/// Law: a Rails line with `params.permit!` makes the analysis fatal (and so
/// the command exits with status 3).
pub proof fn law_permit_bang_is_fatal(raw: Seq<char>, ls: Seq<(usize, Seq<char>)>, i: int)
    requires
        0 <= i < ls.len(),
        contains(lower(trim(ls[i].1)), "params.permit!"@),
    ensures
        severity_count(rails_scan(raw, ls), Severity::Fatal) > 0,
{
    let (n, line) = ls[i];
    let t = trim(line);
    let l = lower(t);
    let f = rule_finding(Rule::RailsPermitBang, n, col_of(line, "permit!"@), t);
    assert(f.severity == Severity::Fatal);
    let o1 = opt(true, f);
    reveal(opt);
    assert(o1.drop_last() =~= Seq::<FindingView>::empty());
    assert(severity_count(Seq::<FindingView>::empty(), Severity::Fatal) == 0);
    assert(severity_count(o1, Severity::Fatal) == 1);
    assert forall|a: Seq<FindingView>, b: Seq<FindingView>|
        #[trigger] severity_count(a + b, Severity::Fatal) >= severity_count(a, Severity::Fatal) by {
        lemma_count_grows(a, b, Severity::Fatal);
    }
    assert(severity_count(rails_line_early(n, line, t, l), Severity::Fatal) >= 1);
    lemma_count_grows(rails_line_early(n, line, t, l), rails_line_late(ls, n, t, l), Severity::Fatal);
    lemma_rails_lines_count(ls, i, ls.len() as int, Severity::Fatal);
    let lines = rails_lines(ls, ls.len() as int);
    lemma_loop_pass_count(ls, eager_loads(raw), lines, ls.len() as int, Severity::Fatal);
    lemma_count_grows(
        loop_pass(ls, eager_loads(raw), lines, ls.len() as int).out,
        spoof(raw, ls),
        Severity::Fatal,
    );
}

/// The N+1 finding for the loop that opens at line `n`.
pub open spec fn n_plus_one_at(ls: Seq<(usize, Seq<char>)>, n: usize) -> FindingView {
    rule_finding(Rule::RailsNPlusOne, n, 1, line_at(ls, n))
}

/// Line `j` opens a loop, and no line after it and before line `k` opens
/// another.
pub open spec fn open_loop(ls: Seq<(usize, Seq<char>)>, j: int, k: int) -> bool {
    &&& 0 <= j < k <= ls.len()
    &&& opens_loop(lower(ls[j].1))
    &&& forall|q: int| j < q < k ==> !opens_loop(lower((#[trigger] ls[q]).1))
}

/// Some line from `j` up to (not including) `k` reads an association.
pub open spec fn reads_assoc(ls: Seq<(usize, Seq<char>)>, j: int, k: int) -> bool {
    exists|t: int| j <= t < k && touches_assoc((#[trigger] ls[t]).1, lower(ls[t].1))
}

/// The loop opened at line `j` is closed at line `e`: no other loop opens
/// up to `e`, an association is read on the way, and line `e` is a bare
/// `end`.
pub open spec fn closes_loop(ls: Seq<(usize, Seq<char>)>, j: int, e: int) -> bool {
    &&& open_loop(ls, j, e + 1)
    &&& reads_assoc(ls, j, e + 1)
    &&& trim(lower(ls[e].1)) == "end"@
}

/// Line numbers increase along `ls`.
pub open spec fn ascending(ls: Seq<(usize, Seq<char>)>) -> bool {
    forall|a: int, b: int| 0 <= a < b < ls.len() ==> (#[trigger] ls[a]).0 < (#[trigger] ls[b]).0
}

/// Lines numbered from 1 in order are ascending.
pub proof fn lemma_numbered_ascending(lines: Seq<Seq<char>>)
    requires
        lines.len() < usize::MAX,
    ensures
        ascending(crate::numbered(lines)),
{
}

proof fn lemma_reads_assoc_step(ls: Seq<(usize, Seq<char>)>, j: int, k: int)
    requires
        0 <= j <= k < ls.len(),
    ensures
        reads_assoc(ls, j, k + 1) <==> (reads_assoc(ls, j, k) || touches_assoc(
            ls[k].1,
            lower(ls[k].1),
        )),
{
    if reads_assoc(ls, j, k + 1) && !touches_assoc(ls[k].1, lower(ls[k].1)) {
        let t = choose|t: int| j <= t < k + 1 && touches_assoc((#[trigger] ls[t]).1, lower(ls[t].1));
        assert(t < k);
    }
    if reads_assoc(ls, j, k) {
        let t = choose|t: int| j <= t < k && touches_assoc((#[trigger] ls[t]).1, lower(ls[t].1));
        assert(j <= t < k + 1);
    }
    if touches_assoc(ls[k].1, lower(ls[k].1)) {
        assert(j <= k < k + 1);
    }
}

/// `f` is the N+1 finding of a loop closed before line `k`.
spec fn of_closed_loop(ls: Seq<(usize, Seq<char>)>, f: FindingView, k: int) -> bool {
    exists|j: int, e: int| e < k && closes_loop(ls, j, e) && f == n_plus_one_at(ls, ls[j].0)
}

/// The loop still open after `k` lines was opened at `j`, and its count is
/// positive exactly when it has read an association.
spec fn open_at(ls: Seq<(usize, Seq<char>)>, st: LoopState, j: int, k: int) -> bool {
    open_loop(ls, j, k) && st.each_line == ls[j].0 && (st.hits >= 1 <==> reads_assoc(ls, j, k))
}

/// What the N+1 pass over the first `k` lines has done: it kept `out0` and
/// added only findings of closed loops, none when eager; an open loop is
/// the last one opened; on ascending lines the added findings ascend and
/// lie before the open loop.
proof fn lemma_loop_pass_shape(ls: Seq<(usize, Seq<char>)>, eager: bool, out0: Seq<FindingView>, k: int)
    requires
        0 <= k <= ls.len(),
    ensures
        out0.len() <= loop_pass(ls, eager, out0, k).out.len(),
        loop_pass(ls, eager, out0, k).out.subrange(0, out0.len() as int) == out0,
        forall|m: int|
            out0.len() <= m < loop_pass(ls, eager, out0, k).out.len() ==> of_closed_loop(
                ls,
                #[trigger] loop_pass(ls, eager, out0, k).out[m],
                k,
            ),
        loop_pass(ls, eager, out0, k).in_each ==> exists|j: int|
            #[trigger] open_at(ls, loop_pass(ls, eager, out0, k), j, k),
        eager ==> loop_pass(ls, eager, out0, k).out == out0,
        ascending(ls) ==> forall|m1: int, m2: int|
            out0.len() <= m1 < m2 < loop_pass(ls, eager, out0, k).out.len() ==> (
            #[trigger] loop_pass(ls, eager, out0, k).out[m1]).line < (#[trigger] loop_pass(
                ls,
                eager,
                out0,
                k,
            ).out[m2]).line,
        ascending(ls) && loop_pass(ls, eager, out0, k).in_each ==> forall|m: int|
            out0.len() <= m < loop_pass(ls, eager, out0, k).out.len() ==> (#[trigger] loop_pass(
                ls,
                eager,
                out0,
                k,
            ).out[m]).line < loop_pass(ls, eager, out0, k).each_line,
    decreases k,
{
    if k > 0 {
        lemma_loop_pass_shape(ls, eager, out0, k - 1);
        let st = loop_pass(ls, eager, out0, k - 1);
        let (n, line) = ls[k - 1];
        let l = lower(line);
        let opener = opens_loop(l);
        let st1 = if opener {
            LoopState { in_each: true, each_line: n, hits: 0, out: st.out }
        } else {
            st
        };
        let nxt = loop_pass(ls, eager, out0, k);
        assert(nxt == loop_step(ls, eager, st, n, line));
        // what was added before line k - 1 came from loops closed before it
        assert forall|m: int| out0.len() <= m < st.out.len() implies of_closed_loop(
            ls,
            #[trigger] st.out[m],
            k,
        ) by {
            let (j, e) = choose|j: int, e: int|
                e < k - 1 && closes_loop(ls, j, e) && st.out[m] == n_plus_one_at(ls, ls[j].0);
            assert(e < k && closes_loop(ls, j, e) && st.out[m] == n_plus_one_at(ls, ls[j].0));
        }
        if ascending(ls) && opener {
            assert forall|m: int| out0.len() <= m < st.out.len() implies (
            #[trigger] st.out[m]).line < n by {
                let (j, e) = choose|j: int, e: int|
                    e < k - 1 && closes_loop(ls, j, e) && st.out[m] == n_plus_one_at(ls, ls[j].0);
                assert(ls[j].0 < ls[k - 1].0);
            }
        }
        if !st1.in_each {
            assert(nxt == st);
        } else {
            let j1 = if opener {
                k - 1
            } else {
                let k0 = k - 1;
                choose|j: int| #[trigger] open_at(ls, st, j, k0)
            };
            assert(open_loop(ls, j1, k)) by {
                if !opener {
                    assert forall|q: int| j1 < q < k implies !opens_loop(
                        lower((#[trigger] ls[q]).1),
                    ) by {
                        if q < k - 1 {
                            assert(open_loop(ls, j1, k - 1));
                        }
                    }
                }
            }
            assert(st1.each_line == ls[j1].0);
            assert(st1.hits >= 1 <==> reads_assoc(ls, j1, k - 1));
            lemma_reads_assoc_step(ls, j1, k - 1);
            let hits = if touches_assoc(line, l) {
                st1.hits + 1
            } else {
                st1.hits
            };
            assert(hits >= 1 <==> reads_assoc(ls, j1, k));
            if trim(l) == "end"@ && hits >= 1 {
                if eager {
                    assert(nxt.out == st.out);
                } else {
                    let f = n_plus_one_at(ls, ls[j1].0);
                    assert(nxt.out == st.out.push(f));
                    assert(nxt.out.subrange(0, out0.len() as int) =~= st.out.subrange(
                        0,
                        out0.len() as int,
                    ));
                    assert(closes_loop(ls, j1, k - 1));
                    assert(of_closed_loop(ls, f, k));
                    assert forall|m: int| out0.len() <= m < nxt.out.len() implies of_closed_loop(
                        ls,
                        #[trigger] nxt.out[m],
                        k,
                    ) by {
                        if m < st.out.len() {
                            assert(nxt.out[m] == st.out[m]);
                        }
                    }
                    if ascending(ls) {
                        assert forall|m1: int, m2: int|
                            out0.len() <= m1 < m2 < nxt.out.len() implies (
                            #[trigger] nxt.out[m1]).line < (#[trigger] nxt.out[m2]).line by {
                            assert(nxt.out[m1] == st.out[m1]);
                            if m2 < st.out.len() {
                                assert(nxt.out[m2] == st.out[m2]);
                            }
                        }
                    }
                }
            } else {
                assert(nxt.out == st.out);
                assert(open_at(ls, nxt, j1, k));
            }
        }
    }
}

/// The pass keeps what it has found: a finding among those after `k1`
/// lines is among those after `k2 >= k1` lines.
proof fn lemma_loop_pass_keeps(
    ls: Seq<(usize, Seq<char>)>,
    eager: bool,
    out0: Seq<FindingView>,
    k1: int,
    k2: int,
    f: FindingView,
)
    requires
        0 <= k1 <= k2 <= ls.len(),
        loop_pass(ls, eager, out0, k1).out.contains(f),
    ensures
        loop_pass(ls, eager, out0, k2).out.contains(f),
    decreases k2 - k1,
{
    if k1 < k2 {
        let st = loop_pass(ls, eager, out0, k1);
        let nxt = loop_pass(ls, eager, out0, k1 + 1);
        assert(nxt == loop_step(ls, eager, st, ls[k1].0, ls[k1].1));
        let i = choose|i: int| 0 <= i < st.out.len() && st.out[i] == f;
        if nxt.out != st.out {
            assert(exists|g: FindingView| nxt.out == st.out.push(g));
            let g = choose|g: FindingView| nxt.out == st.out.push(g);
            assert(nxt.out[i] == f);
        }
        lemma_loop_pass_keeps(ls, eager, out0, k1 + 1, k2, f);
    }
}

/// From the line after `j` on, the loop opened at `j` (closed at `e`) is
/// either reported or still open, with a positive count once it has read an
/// association.
proof fn lemma_closed_loop_progress(ls: Seq<(usize, Seq<char>)>, out0: Seq<FindingView>, j: int, e: int, i: int)
    requires
        closes_loop(ls, j, e),
        j < i <= ls.len(),
    ensures
        ({
            let st = loop_pass(ls, false, out0, i);
            ||| st.out.contains(n_plus_one_at(ls, ls[j].0))
            ||| i <= e && st.in_each && st.each_line == ls[j].0 && (reads_assoc(ls, j, i)
                ==> st.hits >= 1)
        }),
    decreases i,
{
    let f = n_plus_one_at(ls, ls[j].0);
    let st = loop_pass(ls, false, out0, i - 1);
    let (n, line) = ls[i - 1];
    let l = lower(line);
    let nxt = loop_pass(ls, false, out0, i);
    assert(nxt == loop_step(ls, false, st, n, line));
    if i > j + 1 {
        lemma_closed_loop_progress(ls, out0, j, e, i - 1);
    }
    if i > j + 1 && st.out.contains(f) {
        lemma_loop_pass_keeps(ls, false, out0, i - 1, i, f);
    } else if i <= e + 1 {
        if i > j + 1 {
            assert(!opens_loop(lower(ls[i - 1].1)));
        }
        lemma_reads_assoc_step(ls, j, i - 1);
        let hits = if touches_assoc(line, l) {
            if i > j + 1 { st.hits + 1 } else { 1 }
        } else {
            if i > j + 1 { st.hits } else { 0 }
        };
        if trim(l) == "end"@ && hits >= 1 {
            assert(nxt.out == st.out.push(f));
            assert(nxt.out[st.out.len() as int] == f);
        }
    } else {
        assert(false);
    }
}

/// `f` is the N+1 finding at the first line of a loop that is closed (see
/// `closes_loop`).
pub open spec fn closed_loop_finding(ls: Seq<(usize, Seq<char>)>, f: FindingView) -> bool {
    exists|j: int, e: int| closes_loop(ls, j, e) && f == n_plus_one_at(ls, ls[j].0)
}

/// `added` holds only N+1 findings, each at the first line of a loop that is
/// closed (see `closes_loop`); none when the source eager-loads; and, when
/// line numbers increase, in increasing line order.
pub open spec fn closed_loop_findings(
    raw: Seq<char>,
    ls: Seq<(usize, Seq<char>)>,
    added: Seq<FindingView>,
) -> bool {
    &&& forall|m: int| 0 <= m < added.len() ==> closed_loop_finding(ls, #[trigger] added[m])
    &&& eager_loads(raw) ==> added.len() == 0
    &&& ascending(ls) ==> forall|m1: int, m2: int|
        0 <= m1 < m2 < added.len() ==> (#[trigger] added[m1]).line < (#[trigger] added[m2]).line
}

/// Law: between the per-line findings and the spoofed identity, the Rails
/// scan reports only N+1 findings, each at the first line of a loop that a
/// bare `end` closes after an association read with no other loop opened in
/// between; none when the source eager-loads; and, when line numbers
/// increase, in increasing line order (so each loop at most once).
pub proof fn law_n_plus_one_only_at_closed_loops(raw: Seq<char>, ls: Seq<(usize, Seq<char>)>)
    ensures
        exists|added: Seq<FindingView>|
            rails_scan(raw, ls) == rails_lines(ls, ls.len() as int) + added + spoof(raw, ls)
                && #[trigger] closed_loop_findings(raw, ls, added),
{
    let lines = rails_lines(ls, ls.len() as int);
    let eager = eager_loads(raw);
    let k = ls.len() as int;
    lemma_loop_pass_shape(ls, eager, lines, k);
    let out = loop_pass(ls, eager, lines, k).out;
    let added = out.skip(lines.len() as int);
    assert(out =~= lines + added);
    assert forall|m: int| 0 <= m < added.len() implies closed_loop_finding(
        ls,
        #[trigger] added[m],
    ) by {
        assert(added[m] == out[m + lines.len()]);
        assert(of_closed_loop(ls, out[m + lines.len()], k));
        let (j, e) = choose|j: int, e: int|
            e < k && closes_loop(ls, j, e) && out[m + lines.len()] == n_plus_one_at(ls, ls[j].0);
        assert(closes_loop(ls, j, e) && added[m] == n_plus_one_at(ls, ls[j].0));
    }
    if ascending(ls) {
        assert forall|m1: int, m2: int| 0 <= m1 < m2 < added.len() implies (
        #[trigger] added[m1]).line < (#[trigger] added[m2]).line by {
            assert(added[m1] == out[m1 + lines.len()]);
            assert(added[m2] == out[m2 + lines.len()]);
        }
    }
    if eager {
        assert(added.len() == 0);
    }
    assert(closed_loop_findings(raw, ls, added));
    assert(rails_scan(raw, ls) == lines + added + spoof(raw, ls));
}

/// Law: in a source that does not eager-load, a loop that a bare `end`
/// closes after an association read (with no other loop opened in between)
/// is reported: the N+1 finding at its first line is among the findings.
pub proof fn law_closed_loop_reported(raw: Seq<char>, ls: Seq<(usize, Seq<char>)>, j: int, e: int)
    requires
        closes_loop(ls, j, e),
        !eager_loads(raw),
    ensures
        rails_scan(raw, ls).contains(n_plus_one_at(ls, ls[j].0)),
{
    let f = n_plus_one_at(ls, ls[j].0);
    let lines = rails_lines(ls, ls.len() as int);
    lemma_closed_loop_progress(ls, lines, j, e, e + 1);
    lemma_loop_pass_keeps(ls, false, lines, e + 1, ls.len() as int, f);
    let out = loop_pass(ls, false, lines, ls.len() as int).out;
    let idx = choose|idx: int| 0 <= idx < out.len() && out[idx] == f;
    assert((out + spoof(raw, ls))[idx] == f);
}

/// Law: a loop over a collection (`.each`, `.map`, `.find_each`) whose body
/// reads an association (`.name`, `.user`, `.carrier`, `.stops`, `.account`,
/// `.profile`, `.orders`, `.loads`, `.first` or `.last`, on a line with a
/// `.` that neither starts a loop nor prints), closed by a bare `end` with no
/// other loop opened in between, in a source that does not eager-load
/// (`includes(`, `preload(`, `eager_load(`), is reported as
/// `rails.n_plus_one` at the loop's first line.
pub proof fn law_association_read_in_loop_reported(
    raw: Seq<char>,
    ls: Seq<(usize, Seq<char>)>,
    j: int,
    t: int,
    e: int,
)
    requires
        0 <= j <= t <= e < ls.len(),
        contains(lower(ls[j].1), ".each"@) || contains(lower(ls[j].1), ".map"@) || contains(
            lower(ls[j].1),
            ".find_each"@,
        ),
        forall|q: int|
            j < q <= e ==> !contains(lower((#[trigger] ls[q]).1), ".each"@) && !contains(
                lower(ls[q].1),
                ".map"@,
            ) && !contains(lower(ls[q].1), ".find_each"@),
        contains(ls[t].1, seq!['.']),
        !contains(lower(ls[t].1), ".each"@),
        !contains(lower(ls[t].1), ".map"@),
        !contains(lower(ls[t].1), "puts"@),
        contains(lower(ls[t].1), ".name"@) || contains(lower(ls[t].1), ".user"@) || contains(
            lower(ls[t].1),
            ".carrier"@,
        ) || contains(lower(ls[t].1), ".stops"@) || contains(lower(ls[t].1), ".account"@)
            || contains(lower(ls[t].1), ".profile"@) || contains(lower(ls[t].1), ".orders"@)
            || contains(lower(ls[t].1), ".loads"@) || contains(lower(ls[t].1), ".first"@)
            || contains(lower(ls[t].1), ".last"@),
        trim(lower(ls[e].1)) == "end"@,
        !contains(lower(raw), "includes("@),
        !contains(lower(raw), "preload("@),
        !contains(lower(raw), "eager_load("@),
    ensures
        rails_scan(raw, ls).contains(
            rule_finding(Rule::RailsNPlusOne, ls[j].0, 1, line_at(ls, ls[j].0)),
        ),
{
    assert(opens_loop(lower(ls[j].1)));
    assert(touches_assoc((ls[t]).1, lower(ls[t].1)));
    assert(reads_assoc(ls, j, e + 1));
    assert(open_loop(ls, j, e + 1));
    assert(closes_loop(ls, j, e));
    assert(!eager_loads(raw));
    law_closed_loop_reported(raw, ls, j, e);
}

proof fn lemma_rails_lines_has(ls: Seq<(usize, Seq<char>)>, k: int, i: int, x: FindingView)
    requires
        0 <= i < k <= ls.len(),
        rails_line(ls, ls[i].0, ls[i].1).contains(x),
    ensures
        rails_lines(ls, k).contains(x),
    decreases k,
{
    let prev = rails_lines(ls, k - 1);
    let last = rails_line(ls, ls[k - 1].0, ls[k - 1].1);
    if i < k - 1 {
        lemma_rails_lines_has(ls, k - 1, i, x);
    }
    lemma_contains_concat(prev, last, x);
}

/// Law: each rule of a Rails line fires on its own text: when the trimmed,
/// lowercased line (and, for unscoped writes, the line before it) shows what
/// a rule looks for, the findings hold that rule's finding at that line,
/// quoting the trimmed line.
pub proof fn law_rails_line_rules(raw: Seq<char>, ls: Seq<(usize, Seq<char>)>, i: int)
    requires
        0 <= i < ls.len(),
    ensures
        ({
            let n = ls[i].0;
            let line = ls[i].1;
            let t = trim(line);
            let l = lower(t);
            (contains(l, "params.permit!"@))
                ==> rails_scan(raw, ls).contains(rule_finding(Rule::RailsPermitBang, n, col_of(line, "permit!"@), t))
        }),
        ({
            let n = ls[i].0;
            let line = ls[i].1;
            let t = trim(line);
            let l = lower(t);
            (contains(l, "skip_before_action"@) && (contains(l, "auth"@) || contains(l, "authenticate"@) || contains(l, "verify"@)))
                ==> rails_scan(raw, ls).contains(rule_finding(Rule::RailsSkipAuth, n, 1, t))
        }),
        ({
            let n = ls[i].0;
            let line = ls[i].1;
            let t = trim(line);
            let l = lower(t);
            (contains(l, "html_safe"@) || contains(l, "raw("@) || contains(l, ".html_safe"@))
                ==> rails_scan(raw, ls).contains(rule_finding(Rule::RailsHtmlSafe, n, 1, t))
        }),
        ({
            let n = ls[i].0;
            let line = ls[i].1;
            let t = trim(line);
            let l = lower(t);
            (contains(l, "eval("@) || contains(l, "instance_eval"@) || contains(l, "class_eval"@) || contains(l, "module_eval"@))
                ==> rails_scan(raw, ls).contains(rule_finding(Rule::RailsEval, n, 1, t))
        }),
        ({
            let n = ls[i].0;
            let line = ls[i].1;
            let t = trim(line);
            let l = lower(t);
            (contains(l, "send(params"@) || contains(l, "public_send(params"@) || (contains(l, "constantize"@) && contains(l, "params"@)))
                ==> rails_scan(raw, ls).contains(rule_finding(Rule::RailsSendParams, n, 1, t))
        }),
        ({
            let n = ls[i].0;
            let line = ls[i].1;
            let t = trim(line);
            let l = lower(t);
            (contains(l, "redirect_to params"@) || contains(l, "redirect_to(params"@))
                ==> rails_scan(raw, ls).contains(rule_finding(Rule::RailsOpenRedirect, n, 1, t))
        }),
        ({
            let n = ls[i].0;
            let line = ls[i].1;
            let t = trim(line);
            let l = lower(t);
            ((contains(l, "where(\""@) || contains(l, "where('"@) || contains(l, "find_by_sql"@) || contains(l, "execute("@)) && (contains(t, "#{"@) || contains(l, "+ params"@) || contains(l, "+params"@)))
                ==> rails_scan(raw, ls).contains(rule_finding(Rule::RailsSqlInterp, n, 1, t))
        }),
        ({
            let n = ls[i].0;
            let line = ls[i].1;
            let t = trim(line);
            let l = lower(t);
            ((contains(l, "update_all"@) || contains(l, "delete_all"@) || contains(l, "destroy_all"@)) && !contains(l, "where"@) && !contains(lower(line_at(ls, prev_line(n))), "where"@))
                ==> rails_scan(raw, ls).contains(rule_finding(Rule::RailsUnscopedWrite, n, 1, t))
        }),
        ({
            let n = ls[i].0;
            let line = ls[i].1;
            let t = trim(line);
            let l = lower(t);
            (contains(l, "default_scope"@))
                ==> rails_scan(raw, ls).contains(rule_finding(Rule::RailsDefaultScope, n, 1, t))
        }),
        ({
            let n = ls[i].0;
            let line = ls[i].1;
            let t = trim(line);
            let l = lower(t);
            (contains(l, "render json:"@) && (contains(l, ".all"@) || contains(l, ".all["@)))
                ==> rails_scan(raw, ls).contains(rule_finding(Rule::RailsRenderAll, n, 1, t))
        }),
        ({
            let n = ls[i].0;
            let line = ls[i].1;
            let t = trim(line);
            let l = lower(t);
            (contains(l, "user.find(params"@) || contains(l, "user.find_by(id: params"@))
                ==> rails_scan(raw, ls).contains(rule_finding(Rule::RailsDirectFind, n, 1, t))
        }),
        ({
            let n = ls[i].0;
            let line = ls[i].1;
            let t = trim(line);
            let l = lower(t);
            ((contains(l, "rescue_from"@) && contains(l, "exception"@)) || contains(t, "rescue Exception"@) || (contains(t, "rescue StandardError"@) && contains(l, "end"@)))
                ==> rails_scan(raw, ls).contains(rule_finding(Rule::RailsSwallow, n, 1, t))
        }),
        ({
            let n = ls[i].0;
            let line = ls[i].1;
            let t = trim(line);
            let l = lower(t);
            ((contains(l, "after_save"@) || contains(l, "after_commit"@) || contains(l, "after_create"@)) && (contains(l, "http"@) || contains(l, "net::"@) || contains(l, "faraday"@) || contains(l, "httparty"@)))
                ==> rails_scan(raw, ls).contains(rule_finding(Rule::RailsCallbackIo, n, 1, t))
        }),
        ({
            let n = ls[i].0;
            let line = ls[i].1;
            let t = trim(line);
            let l = lower(t);
            (contains(l, "# TODO"@) || contains(l, "# later"@) || contains(l, "just in case"@) || contains(l, "future proof"@) || contains(l, "flexible"@))
                ==> rails_scan(raw, ls).contains(rule_finding(Rule::RailsSpeculative, n, 1, t))
        }),
        ({
            let n = ls[i].0;
            let line = ls[i].1;
            let t = trim(line);
            let l = lower(t);
            (contains(l, ".save"@) && !contains(l, "save!"@) && !contains(l, "if "@) && (ends_with(l, ".save"@) || contains(l, ".save("@)))
                ==> rails_scan(raw, ls).contains(rule_finding(Rule::RailsSaveSilent, n, 1, t))
        }),
{
    let (n, line) = ls[i];
    let k = ls.len() as int;
    let lines = rails_lines(ls, k);
    let eager = eager_loads(raw);
    lemma_loop_pass_shape(ls, eager, lines, k);
    let out = loop_pass(ls, eager, lines, k).out;
    assert forall|x: FindingView| rails_line(ls, n, line).contains(x) implies #[trigger] rails_scan(
        raw,
        ls,
    ).contains(x) by {
        lemma_rails_lines_has(ls, k, i, x);
        let j = choose|j: int| 0 <= j < lines.len() && lines[j] == x;
        assert(out.subrange(0, lines.len() as int)[j] == out[j]);
        lemma_contains_concat(out, spoof(raw, ls), x);
    }
    assert forall|a: Seq<FindingView>, b: Seq<FindingView>, x: FindingView|
        a.contains(x) || b.contains(x) implies #[trigger] (a + b).contains(x) by {
        lemma_contains_concat(a, b, x);
    }
    assert forall|c: bool, f: FindingView| c implies #[trigger] opt(c, f).contains(f) by {
        lemma_opt_contains(c, f);
    }
}

proof fn lemma_first_spoof_is(ls: Seq<(usize, Seq<char>)>, a: int, i: int)
    requires
        0 <= a <= i < ls.len(),
        spoof_line(ls[i].1),
        forall|j: int| a <= j < i ==> !spoof_line(#[trigger] ls[j].1),
    ensures
        first_spoof(ls, a) == Some(i),
    decreases i - a,
{
    if a < i {
        lemma_first_spoof_is(ls, a + 1, i);
    }
}

/// Law: when the source reads `current_user` and `params[:user` (in any
/// case), the first line that reads both `current_user` and `params` is
/// reported as `rails.user_spoof`, quoting that line.
pub proof fn law_user_spoof_at_first_line(raw: Seq<char>, ls: Seq<(usize, Seq<char>)>, i: int)
    requires
        0 <= i < ls.len(),
        contains(lower(raw), "current_user"@),
        contains(lower(raw), "params[:user"@),
        contains(lower(ls[i].1), "current_user"@),
        contains(lower(ls[i].1), "params"@),
        forall|j: int|
            0 <= j < i ==> !(contains(lower((#[trigger] ls[j]).1), "current_user"@) && contains(
                lower(ls[j].1),
                "params"@,
            )),
    ensures
        rails_scan(raw, ls).contains(rule_finding(Rule::RailsUserSpoof, ls[i].0, 1, ls[i].1)),
{
    assert forall|j: int| 0 <= j < i implies !spoof_line(#[trigger] ls[j].1) by {
        assert(ls[j] == ls[j]);
    }
    lemma_first_spoof_is(ls, 0, i);
    let f = rule_finding(Rule::RailsUserSpoof, ls[i].0, 1, ls[i].1);
    let out = loop_pass(ls, eager_loads(raw), rails_lines(ls, ls.len() as int), ls.len() as int).out;
    assert(spoof(raw, ls) == seq![f]);
    assert((out + spoof(raw, ls))[out.len() as int] == f);
}

proof fn lemma_rails_line_within(ls: Seq<(usize, Seq<char>)>, n: usize, line: Seq<char>, m: nat)
    requires
        1 <= n <= m,
    ensures
        lines_within(rails_line(ls, n, line), m),
{
    lemma_within_sums(m);
    let t = trim(line);
    let l = lower(t);
    assert(lines_within(rails_line_early(n, line, t, l), m));
    assert(lines_within(rails_line_late(ls, n, t, l), m));
}

proof fn lemma_rails_lines_within(ls: Seq<(usize, Seq<char>)>, k: int, m: nat)
    requires
        k <= ls.len(),
        forall|j: int| 0 <= j < ls.len() ==> 1 <= (#[trigger] ls[j]).0 <= m,
    ensures
        lines_within(rails_lines(ls, k), m),
    decreases k,
{
    if k > 0 {
        lemma_rails_lines_within(ls, k - 1, m);
        let (n, line) = ls[k - 1];
        assert(1 <= n <= m);
        lemma_rails_line_within(ls, n, line, m);
        lemma_within_concat(rails_lines(ls, k - 1), rails_line(ls, n, line), m);
    }
}

proof fn lemma_loop_within(
    ls: Seq<(usize, Seq<char>)>,
    eager: bool,
    out0: Seq<FindingView>,
    k: int,
    m: nat,
)
    requires
        k <= ls.len(),
        forall|j: int| 0 <= j < ls.len() ==> 1 <= (#[trigger] ls[j]).0 <= m,
        lines_within(out0, m),
    ensures
        lines_within(loop_pass(ls, eager, out0, k).out, m),
        loop_pass(ls, eager, out0, k).in_each ==> 1 <= loop_pass(ls, eager, out0, k).each_line
            <= m,
    decreases k,
{
    if k > 0 {
        lemma_loop_within(ls, eager, out0, k - 1, m);
        let st = loop_pass(ls, eager, out0, k - 1);
        let (n, line) = ls[k - 1];
        assert(1 <= n <= m);
        let st1 = if opens_loop(lower(line)) {
            LoopState { in_each: true, each_line: n, hits: 0, out: st.out }
        } else {
            st
        };
        let f = rule_finding(Rule::RailsNPlusOne, st1.each_line, 1, line_at(ls, st1.each_line));
        if st1.in_each {
            assert(lines_within(seq![f], m));
            lemma_within_concat(st1.out, seq![f], m);
            assert(st1.out.push(f) =~= st1.out + seq![f]);
        }
    }
}

proof fn lemma_first_spoof_range(ls: Seq<(usize, Seq<char>)>, i: int)
    ensures
        first_spoof(ls, i) matches Some(j) ==> 0 <= j < ls.len(),
    decreases ls.len() - i,
{
    if 0 <= i < ls.len() && !spoof_line(ls[i].1) {
        lemma_first_spoof_range(ls, i + 1);
    }
}

pub proof fn lemma_rails_within(raw: Seq<char>, ls: Seq<(usize, Seq<char>)>, m: nat)
    requires
        forall|j: int| 0 <= j < ls.len() ==> 1 <= (#[trigger] ls[j]).0 <= m,
    ensures
        lines_within(rails_scan(raw, ls), m),
{
    let lines = rails_lines(ls, ls.len() as int);
    lemma_rails_lines_within(ls, ls.len() as int, m);
    lemma_loop_within(ls, eager_loads(raw), lines, ls.len() as int, m);
    lemma_first_spoof_range(ls, 0);
    match first_spoof(ls, 0) {
        Some(i) => {
            assert(1 <= ls[i].0 <= m);
        },
        None => {},
    }
    assert(lines_within(spoof(raw, ls), m));
    lemma_within_concat(loop_pass(ls, eager_loads(raw), lines, ls.len() as int).out, spoof(raw, ls), m);
}

} // verus!
