//! Rules for Vue single-file components.
use vstd::prelude::*;

use crate::rules::{rule_finding, Rule};
use crate::text::{chars_of, contains, has_text, lower, occurs_at, str_bytes, sub_chars, to_lower, trim, trim_range};
use crate::{
    append_all, col, col_of, lemma_contains_concat, lemma_opt_contains, lemma_within_concat, lemma_within_sums, lines_within, opt, push_rule, views, Finding,
    FindingView, Src,
};

verus! {

/// The source declares props (`props:`, `defineProps`, `props :`).
pub open spec fn declares_props(raw: Seq<char>) -> bool {
    contains(raw, "props:"@) || contains(raw, "defineProps"@) || contains(raw, "props :"@)
}

/// The findings of line `n`, whose text is `line`.
pub open spec fn vue_line(props: bool, n: usize, line: Seq<char>) -> Seq<FindingView> {
    let t = trim(line);
    let l = lower(t);
    opt(contains(l, "v-html"@), rule_finding(Rule::VueVHtml, n, col_of(line, "v-html"@), t))
        + opt(contains(l, "innerhtml"@), rule_finding(Rule::VueInnerhtml, n, 1, t))
        + opt(
        contains(l, "v-for"@) && !contains(l, ":key"@) && !contains(l, "v-bind:key"@) && !contains(
            l,
            "key="@,
        ),
        rule_finding(Rule::VueVforNoKey, n, col_of(line, "v-for"@), t),
    ) + opt(
        contains(l, "v-for"@) && contains(l, "v-if"@),
        rule_finding(Rule::VueVforVif, n, 1, t),
    ) + opt(
        contains(l, "this.$parent"@) || contains(l, "$parent."@),
        rule_finding(Rule::VueParent, n, 1, t),
    ) + opt(
        contains(l, "this.$root"@) || contains(l, "$root."@),
        rule_finding(Rule::VueRoot, n, 1, t),
    ) + opt(
        (contains(l, "this.items.push"@) || contains(l, "this.items.splice"@) || contains(
            l,
            "this.items.pop"@,
        ) || (contains(l, "this."@) && contains(l, " = "@) && contains(l, "props"@))) && props
            && (contains(l, "this.items"@) || contains(l, "props"@)),
        rule_finding(Rule::VueMutateProp, n, 1, t),
    ) + opt(
        contains(l, "deep: true"@) || contains(l, "deep:true"@),
        rule_finding(Rule::VueDeepWatch, n, 1, t),
    ) + opt(
        contains(l, "eval("@) || contains(l, "new function"@),
        rule_finding(Rule::VueEval, n, 1, t),
    ) + opt(contains(l, "document.write"@), rule_finding(Rule::VueDocWrite, n, 1, t)) + opt(
        contains(l, "v-model"@) && contains(l, "props."@),
        rule_finding(Rule::VueVmodelProp, n, 1, t),
    ) + opt(
        contains(l, "localstorage"@) && (contains(l, "token"@) || contains(l, "password"@)
            || contains(l, "secret"@)),
        rule_finding(Rule::VueSecretStorage, n, 1, t),
    ) + opt(
        contains(l, "any"@) && (contains(l, ": any"@) || contains(l, "as any"@)),
        rule_finding(Rule::VueAsAny, n, 1, t),
    ) + opt(
        (contains(l, "future"@) && contains(l, "flexib"@)) || contains(l, "just in case"@),
        rule_finding(Rule::VueSpeculative, n, 1, t),
    )
}

/// The findings of the lines `ls`, in order.
pub open spec fn vue_scan(raw: Seq<char>, ls: Seq<(usize, Seq<char>)>) -> Seq<FindingView>
    decreases ls.len(),
{
    if ls.len() == 0 {
        seq![]
    } else {
        vue_scan(raw, ls.drop_last()) + vue_line(declares_props(raw), ls.last().0, ls.last().1)
    }
}

fn line_hits(props: bool, n: usize, line: &str) -> (out: Vec<Finding>)
    ensures
        views(out@) == vue_line(props, n, line@),
{
    let lc = chars_of(line);
    // Measuring the line establishes that its byte length fits in usize.
    let _bytes: usize = str_bytes(line);
    let (a, b) = trim_range(&lc);
    let t = line.substring_char(a, b);
    let tc = sub_chars(&lc, a, b);
    let l = to_lower(&tc);
    let mut out: Vec<Finding> = Vec::new();
    push_rule(&mut out, has_text(&l, "v-html"), Rule::VueVHtml, n, col(&lc, "v-html"), t);
    assert(views(out@) =~= opt(
        contains(l@, "v-html"@),
        rule_finding(Rule::VueVHtml, n, col_of(line@, "v-html"@), t@),
    ));
    push_rule(&mut out, has_text(&l, "innerhtml"), Rule::VueInnerhtml, n, 1, t);
    let vfor = has_text(&l, "v-for");
    let no_key = vfor && !has_text(&l, ":key") && !has_text(&l, "v-bind:key") && !has_text(&l, "key=");
    push_rule(&mut out, no_key, Rule::VueVforNoKey, n, col(&lc, "v-for"), t);
    push_rule(&mut out, vfor && has_text(&l, "v-if"), Rule::VueVforVif, n, 1, t);
    push_rule(
        &mut out,
        has_text(&l, "this.$parent") || has_text(&l, "$parent."),
        Rule::VueParent,
        n,
        1,
        t,
    );
    push_rule(&mut out, has_text(&l, "this.$root") || has_text(&l, "$root."), Rule::VueRoot, n, 1, t);
    let writes = has_text(&l, "this.items.push") || has_text(&l, "this.items.splice") || has_text(
        &l,
        "this.items.pop",
    ) || (has_text(&l, "this.") && has_text(&l, " = ") && has_text(&l, "props"));
    let mutate = writes && props && (has_text(&l, "this.items") || has_text(&l, "props"));
    push_rule(&mut out, mutate, Rule::VueMutateProp, n, 1, t);
    push_rule(
        &mut out,
        has_text(&l, "deep: true") || has_text(&l, "deep:true"),
        Rule::VueDeepWatch,
        n,
        1,
        t,
    );
    push_rule(&mut out, has_text(&l, "eval(") || has_text(&l, "new function"), Rule::VueEval, n, 1, t);
    push_rule(&mut out, has_text(&l, "document.write"), Rule::VueDocWrite, n, 1, t);
    push_rule(
        &mut out,
        has_text(&l, "v-model") && has_text(&l, "props."),
        Rule::VueVmodelProp,
        n,
        1,
        t,
    );
    let secret = has_text(&l, "localstorage") && (has_text(&l, "token") || has_text(&l, "password") || has_text(
        &l,
        "secret",
    ));
    push_rule(&mut out, secret, Rule::VueSecretStorage, n, 1, t);
    push_rule(
        &mut out,
        has_text(&l, "any") && (has_text(&l, ": any") || has_text(&l, "as any")),
        Rule::VueAsAny,
        n,
        1,
        t,
    );
    push_rule(
        &mut out,
        (has_text(&l, "future") && has_text(&l, "flexib")) || has_text(&l, "just in case"),
        Rule::VueSpeculative,
        n,
        1,
        t,
    );
    out
}

/// Scans a Vue component line by line.
pub fn scan(src: &Src<'_>) -> (out: Vec<Finding>)
    ensures
        views(out@) == vue_scan(src.raw@, src.lines_view()),
{
    let raw = chars_of(src.raw);
    let props = has_text(&raw, "props:") || has_text(&raw, "defineProps") || has_text(&raw, "props :");
    let mut out: Vec<Finding> = Vec::new();
    let mut i: usize = 0;
    while i < src.lines.len()
        invariant
            i <= src.lines.len(),
            props == declares_props(src.raw@),
            views(out@) == vue_scan(src.raw@, src.lines_view().take(i as int)),
        decreases src.lines.len() - i,
    {
        let (n, line) = src.lines[i];
        let hits = line_hits(props, n, line);
        append_all(&mut out, hits);
        proof {
            let ls = src.lines_view().take(i + 1);
            assert(ls.drop_last() =~= src.lines_view().take(i as int));
            assert(ls.last() == (n, line@));
        }
        i = i + 1;
    }
    proof {
        assert(src.lines_view().take(src.lines.len() as int) =~= src.lines_view());
    }
    out
}

proof fn lemma_vue_line_within(props: bool, n: usize, line: Seq<char>, m: nat)
    requires
        1 <= n <= m,
    ensures
        lines_within(vue_line(props, n, line), m),
{
    lemma_within_sums(m);
}

pub proof fn lemma_vue_within(raw: Seq<char>, ls: Seq<(usize, Seq<char>)>, m: nat)
    requires
        forall|j: int| 0 <= j < ls.len() ==> 1 <= (#[trigger] ls[j]).0 <= m,
    ensures
        lines_within(vue_scan(raw, ls), m),
    decreases ls.len(),
{
    if ls.len() > 0 {
        let d = ls.drop_last();
        assert forall|j: int| 0 <= j < d.len() implies 1 <= (#[trigger] d[j]).0 <= m by {
            assert(d[j] == ls[j]);
        }
        lemma_vue_within(raw, d, m);
        assert(1 <= ls.last().0 <= m);
        lemma_vue_line_within(declares_props(raw), ls.last().0, ls.last().1, m);
        lemma_within_concat(
            vue_scan(raw, d),
            vue_line(declares_props(raw), ls.last().0, ls.last().1),
            m,
        );
    }
}

/// A finding of one line is among the findings of the lines.
proof fn lemma_vue_scan_has(raw: Seq<char>, ls: Seq<(usize, Seq<char>)>, i: int, x: FindingView)
    requires
        0 <= i < ls.len(),
        vue_line(declares_props(raw), ls[i].0, ls[i].1).contains(x),
    ensures
        vue_scan(raw, ls).contains(x),
    decreases ls.len(),
{
    let prev = vue_scan(raw, ls.drop_last());
    let last = vue_line(declares_props(raw), ls.last().0, ls.last().1);
    assert(vue_scan(raw, ls) == prev + last);
    if i < ls.len() - 1 {
        assert(ls.drop_last()[i] == ls[i]);
        lemma_vue_scan_has(raw, ls.drop_last(), i, x);
        let j = choose|j: int| 0 <= j < prev.len() && prev[j] == x;
        assert((prev + last)[j] == x);
    } else {
        let j = choose|j: int| 0 <= j < last.len() && last[j] == x;
        assert((prev + last)[prev.len() + j] == x);
    }
}

/// Law: a Vue line that types something `any`, by a `: any` annotation or an
/// `as any` cast (in any case), is reported as `vue.as_any` at that line,
/// quoting the trimmed line.
pub proof fn law_any_type_reported(raw: Seq<char>, ls: Seq<(usize, Seq<char>)>, i: int)
    requires
        0 <= i < ls.len(),
        contains(lower(trim(ls[i].1)), ": any"@) || contains(lower(trim(ls[i].1)), "as any"@),
    ensures
        vue_scan(raw, ls).contains(rule_finding(Rule::VueAsAny, ls[i].0, 1, trim(ls[i].1))),
{
    reveal_strlit(": any");
    reveal_strlit("as any");
    reveal_strlit("any");
    reveal(opt);
    let (n, line) = ls[i];
    let t = trim(line);
    let l = lower(t);
    let f = rule_finding(Rule::VueAsAny, n, 1, t);
    if contains(l, ": any"@) {
        let p = choose|p: int| occurs_at(l, ": any"@, p);
        assert(l.subrange(p + 2, p + 5) =~= l.subrange(p, p + 5).subrange(2, 5));
        assert(": any"@.subrange(2, 5) =~= "any"@);
        assert(occurs_at(l, "any"@, p + 2));
    } else {
        let p = choose|p: int| occurs_at(l, "as any"@, p);
        assert(l.subrange(p + 3, p + 6) =~= l.subrange(p, p + 6).subrange(3, 6));
        assert("as any"@.subrange(3, 6) =~= "any"@);
        assert(occurs_at(l, "any"@, p + 3));
    }
    assert(contains(l, "any"@));
    let v = vue_line(declares_props(raw), n, line);
    let k: int = if (contains(l, "future"@) && contains(l, "flexib"@)) || contains(l, "just in case"@) {
        1
    } else {
        0
    };
    assert(v[v.len() - 1 - k] == f);
    lemma_vue_scan_has(raw, ls, i, f);
}

/// Law: each rule of a Vue line fires on its own text: when the trimmed,
/// lowercased line (and, for writes to props, the source) shows what a rule
/// looks for, the findings hold that rule's finding at that line, quoting the
/// trimmed line.
pub proof fn law_vue_line_rules(raw: Seq<char>, ls: Seq<(usize, Seq<char>)>, i: int)
    requires
        0 <= i < ls.len(),
    ensures
        ({
            let n = ls[i].0;
            let line = ls[i].1;
            let t = trim(line);
            let l = lower(t);
            (contains(l, "v-html"@))
                ==> vue_scan(raw, ls).contains(rule_finding(Rule::VueVHtml, n, col_of(line, "v-html"@), t))
        }),
        ({
            let n = ls[i].0;
            let line = ls[i].1;
            let t = trim(line);
            let l = lower(t);
            (contains(l, "innerhtml"@))
                ==> vue_scan(raw, ls).contains(rule_finding(Rule::VueInnerhtml, n, 1, t))
        }),
        ({
            let n = ls[i].0;
            let line = ls[i].1;
            let t = trim(line);
            let l = lower(t);
            (contains(l, "v-for"@) && !contains(l, ":key"@) && !contains(l, "v-bind:key"@) && !contains(l, "key="@))
                ==> vue_scan(raw, ls).contains(rule_finding(Rule::VueVforNoKey, n, col_of(line, "v-for"@), t))
        }),
        ({
            let n = ls[i].0;
            let line = ls[i].1;
            let t = trim(line);
            let l = lower(t);
            (contains(l, "v-for"@) && contains(l, "v-if"@))
                ==> vue_scan(raw, ls).contains(rule_finding(Rule::VueVforVif, n, 1, t))
        }),
        ({
            let n = ls[i].0;
            let line = ls[i].1;
            let t = trim(line);
            let l = lower(t);
            (contains(l, "this.$parent"@) || contains(l, "$parent."@))
                ==> vue_scan(raw, ls).contains(rule_finding(Rule::VueParent, n, 1, t))
        }),
        ({
            let n = ls[i].0;
            let line = ls[i].1;
            let t = trim(line);
            let l = lower(t);
            (contains(l, "this.$root"@) || contains(l, "$root."@))
                ==> vue_scan(raw, ls).contains(rule_finding(Rule::VueRoot, n, 1, t))
        }),
        ({
            let n = ls[i].0;
            let line = ls[i].1;
            let t = trim(line);
            let l = lower(t);
            ((contains(l, "this.items.push"@) || contains(l, "this.items.splice"@) || contains(l, "this.items.pop"@) || (contains(l, "this."@) && contains(l, " = "@) && contains(l, "props"@))) && (contains(raw, "props:"@) || contains(raw, "defineProps"@) || contains(raw, "props :"@)) && (contains(l, "this.items"@) || contains(l, "props"@)))
                ==> vue_scan(raw, ls).contains(rule_finding(Rule::VueMutateProp, n, 1, t))
        }),
        ({
            let n = ls[i].0;
            let line = ls[i].1;
            let t = trim(line);
            let l = lower(t);
            (contains(l, "deep: true"@) || contains(l, "deep:true"@))
                ==> vue_scan(raw, ls).contains(rule_finding(Rule::VueDeepWatch, n, 1, t))
        }),
        ({
            let n = ls[i].0;
            let line = ls[i].1;
            let t = trim(line);
            let l = lower(t);
            (contains(l, "eval("@) || contains(l, "new function"@))
                ==> vue_scan(raw, ls).contains(rule_finding(Rule::VueEval, n, 1, t))
        }),
        ({
            let n = ls[i].0;
            let line = ls[i].1;
            let t = trim(line);
            let l = lower(t);
            (contains(l, "document.write"@))
                ==> vue_scan(raw, ls).contains(rule_finding(Rule::VueDocWrite, n, 1, t))
        }),
        ({
            let n = ls[i].0;
            let line = ls[i].1;
            let t = trim(line);
            let l = lower(t);
            (contains(l, "v-model"@) && contains(l, "props."@))
                ==> vue_scan(raw, ls).contains(rule_finding(Rule::VueVmodelProp, n, 1, t))
        }),
        ({
            let n = ls[i].0;
            let line = ls[i].1;
            let t = trim(line);
            let l = lower(t);
            (contains(l, "localstorage"@) && (contains(l, "token"@) || contains(l, "password"@) || contains(l, "secret"@)))
                ==> vue_scan(raw, ls).contains(rule_finding(Rule::VueSecretStorage, n, 1, t))
        }),
        ({
            let n = ls[i].0;
            let line = ls[i].1;
            let t = trim(line);
            let l = lower(t);
            ((contains(l, "future"@) && contains(l, "flexib"@)) || contains(l, "just in case"@))
                ==> vue_scan(raw, ls).contains(rule_finding(Rule::VueSpeculative, n, 1, t))
        }),
{
    let (n, line) = ls[i];
    assert forall|x: FindingView|
        vue_line(declares_props(raw), n, line).contains(x) implies #[trigger] vue_scan(
            raw,
            ls,
        ).contains(x) by {
        lemma_vue_scan_has(raw, ls, i, x);
    }
    assert forall|a: Seq<FindingView>, b: Seq<FindingView>, x: FindingView|
        a.contains(x) || b.contains(x) implies #[trigger] (a + b).contains(x) by {
        lemma_contains_concat(a, b, x);
    }
    assert forall|c: bool, f: FindingView| c implies #[trigger] opt(c, f).contains(f) by {
        lemma_opt_contains(c, f);
    }
}

} // verus!
