//! A deterministic analyzer for Ruby on Rails, Vue single-file components and
//! SQL. Each finding names a line, quotes it, and says which of four gates
//! (think, simple, surgical, goal) it counts against and how to fix it. The
//! score folds the findings into four gate scores and one weighted total.
use vstd::prelude::*;

pub mod ast;
pub mod order;
pub mod rails;
pub mod rules;
pub mod score;
pub mod sql;
pub mod text;
pub mod vue;

pub use ast::{AstKind, AstNode};
pub use score::{Gate, Score, Severity};

use ast::{node_views, outline};
use order::{sort_findings, sorted, with_key};
use rules::{rule_finding, rule_hit, Rule};
use score::{score_of, verdict_text};
use text::{
    chars_of, find, find_chars, lemma_nl_index, lemma_utf8_len_take, lines_of, lower, same,
    str_bytes, strip_cr, to_lower, trim, trim_range, trimmed, utf8_len, utf8_prefix_len,
};

verus! {

/// The language a source is analysed as.
#[derive(Clone, Copy, Debug, PartialEq, Eq, Structural)]
pub enum Lang {
    Rails,
    Vue,
    Sql,
}

/// The language named by `w`, a lowercase trimmed word.
pub open spec fn lang_named(w: Seq<char>) -> Option<Lang> {
    if w == "rails"@ || w == "rb"@ || w == "ruby"@ || w == "ror"@ {
        Some(Lang::Rails)
    } else if w == "vue"@ || w == "sfc"@ || w == "js"@ || w == "ts"@ {
        Some(Lang::Vue)
    } else if w == "sql"@ || w == "pg"@ || w == "postgres"@ || w == "redshift"@ {
        Some(Lang::Sql)
    } else {
        None
    }
}

impl Lang {
    pub open spec fn name(self) -> Seq<char> {
        match self {
            Lang::Rails => "rails"@,
            Lang::Vue => "vue"@,
            Lang::Sql => "sql"@,
        }
    }

    /// The language a user wrote: the word is trimmed and read without
    /// regard to ASCII case.
    pub fn parse(s: &str) -> (r: Option<Lang>)
        ensures
            r == lang_named(lower(trim(s@))),
    {
        let c = chars_of(s);
        let t = trimmed(&c);
        let w = to_lower(&t);
        if same(&w, "rails") || same(&w, "rb") || same(&w, "ruby") || same(&w, "ror") {
            Some(Lang::Rails)
        } else if same(&w, "vue") || same(&w, "sfc") || same(&w, "js") || same(&w, "ts") {
            Some(Lang::Vue)
        } else if same(&w, "sql") || same(&w, "pg") || same(&w, "postgres") || same(
            &w,
            "redshift",
        ) {
            Some(Lang::Sql)
        } else {
            None
        }
    }

    pub open spec fn of_code(code: u32) -> Option<Lang> {
        if code == 0 {
            Some(Lang::Rails)
        } else if code == 1 {
            Some(Lang::Vue)
        } else if code == 2 {
            Some(Lang::Sql)
        } else {
            None
        }
    }

    /// The language of a numeric code: 0 rails, 1 vue, 2 sql.
    pub fn from_code(code: u32) -> (r: Option<Lang>)
        ensures
            r == Lang::of_code(code),
    {
        if code == 0 {
            Some(Lang::Rails)
        } else if code == 1 {
            Some(Lang::Vue)
        } else if code == 2 {
            Some(Lang::Sql)
        } else {
            None
        }
    }

    pub fn as_str(self) -> (s: &'static str)
        ensures
            s@ == self.name(),
    {
        match self {
            Lang::Rails => "rails",
            Lang::Vue => "vue",
            Lang::Sql => "sql",
        }
    }
}

/// One piece of evidence.
#[derive(Clone, Debug)]
pub struct Finding {
    pub id: String,
    pub gate: Gate,
    pub severity: Severity,
    pub line: usize,
    pub column: usize,
    pub excerpt: String,
    pub why: String,
    pub fix: String,
    pub math: String,
}

/// What a finding holds, as character sequences.
pub struct FindingView {
    pub id: Seq<char>,
    pub gate: Gate,
    pub severity: Severity,
    pub line: usize,
    pub column: usize,
    pub excerpt: Seq<char>,
    pub why: Seq<char>,
    pub fix: Seq<char>,
    pub math: Seq<char>,
}

impl View for Finding {
    type V = FindingView;

    open spec fn view(&self) -> FindingView {
        FindingView {
            id: self.id@,
            gate: self.gate,
            severity: self.severity,
            line: self.line,
            column: self.column,
            excerpt: self.excerpt@,
            why: self.why@,
            fix: self.fix@,
            math: self.math@,
        }
    }
}

/// The views of a sequence of findings.
pub open spec fn views(v: Seq<Finding>) -> Seq<FindingView> {
    v.map_values(|f: Finding| f@)
}

/// The excerpt a finding keeps of `s`: trimmed, and cut to 159 characters
/// plus an ellipsis when it is longer than 160 bytes.
pub open spec fn excerpt_of(s: Seq<char>) -> Seq<char> {
    let t = trim(s);
    if utf8_len(t) > 160 {
        t.take(if t.len() < 159 { t.len() as int } else { 159 }) + seq!['\u{2026}']
    } else {
        t
    }
}

/// The finding that `hit` builds from its arguments.
pub open spec fn hit_view(
    id: Seq<char>,
    gate: Gate,
    severity: Severity,
    line: usize,
    column: usize,
    excerpt: Seq<char>,
    why: Seq<char>,
    fix: Seq<char>,
    math: Seq<char>,
) -> FindingView {
    FindingView {
        id,
        gate,
        severity,
        line,
        column: if column < 1 { 1 } else { column },
        excerpt: excerpt_of(excerpt),
        why,
        fix,
        math,
    }
}

/// Builds a finding; the column is at least 1 and the excerpt is trimmed and
/// shortened.
pub fn hit(
    id: &str,
    gate: Gate,
    severity: Severity,
    line: usize,
    column: usize,
    excerpt: &str,
    why: &str,
    fix: &str,
    math: &str,
) -> (f: Finding)
    ensures
        f@ == hit_view(id@, gate, severity, line, column, excerpt@, why@, fix@, math@),
{
    Finding {
        id: String::from_str(id),
        gate,
        severity,
        line,
        column: if column < 1 { 1 } else { column },
        excerpt: trim_ex(excerpt),
        why: String::from_str(why),
        fix: String::from_str(fix),
        math: String::from_str(math),
    }
}

/// `seq![f]` when `c` holds, else nothing.
#[verifier::opaque]
pub open spec fn opt(c: bool, f: FindingView) -> Seq<FindingView> {
    if c {
        seq![f]
    } else {
        seq![]
    }
}

/// What either part holds, the whole holds.
pub proof fn lemma_contains_concat(a: Seq<FindingView>, b: Seq<FindingView>, x: FindingView)
    ensures
        a.contains(x) || b.contains(x) ==> (a + b).contains(x),
{
    if a.contains(x) {
        let i = choose|i: int| 0 <= i < a.len() && a[i] == x;
        assert((a + b)[i] == x);
    } else if b.contains(x) {
        let i = choose|i: int| 0 <= i < b.len() && b[i] == x;
        assert((a + b)[a.len() + i] == x);
    }
}

/// A finding whose rule fires is there.
pub proof fn lemma_opt_contains(c: bool, f: FindingView)
    ensures
        c ==> opt(c, f).contains(f),
{
    reveal(opt);
    if c {
        assert(opt(c, f)[0] == f);
    }
}

/// Column of the first `needle` in `line`: its byte offset plus one, or 1.
pub open spec fn col_of(line: Seq<char>, needle: Seq<char>) -> usize {
    match find(line, needle) {
        Some(i) => (utf8_len(line.take(i as int)) + 1) as usize,
        None => 1,
    }
}

/// `col_of` for a line whose byte length fits in `usize`.
pub fn col(line: &Vec<char>, needle: &str) -> (c: usize)
    requires
        utf8_len(line@) <= usize::MAX,
    ensures
        c == col_of(line@, needle@),
{
    let n = chars_of(needle);
    match find_chars(line, &n) {
        Some(i) => {
            proof {
                text::lemma_find(line@, n@);
                lemma_utf8_len_take(line@, i as int);
                if n.len() > 0 {
                    let rest = line@.skip(i as int);
                    assert(rest.len() > 0);
                    assert(utf8_len(rest) >= 1);
                } else {
                    assert(line@.subrange(0, 0) =~= n@);
                    assert(text::occurs_at(line@, n@, 0));
                    assert(i == 0);
                    assert(line@.take(0) =~= Seq::<char>::empty());
                }
            }
            utf8_prefix_len(line, i) + 1
        },
        None => 1,
    }
}

/// Every finding of `fs` points at a line numbered `1..=m`.
pub open spec fn lines_within(fs: Seq<FindingView>, m: nat) -> bool {
    forall|i: int| 0 <= i < fs.len() ==> 1 <= (#[trigger] fs[i]).line <= m
}

pub proof fn lemma_within_concat(a: Seq<FindingView>, b: Seq<FindingView>, m: nat)
    requires
        lines_within(a, m),
        lines_within(b, m),
    ensures
        lines_within(a + b, m),
{
    assert forall|i: int| 0 <= i < (a + b).len() implies 1 <= (#[trigger] (a + b)[i]).line <= m by {
        if i < a.len() {
            assert((a + b)[i] == a[i]);
        } else {
            assert((a + b)[i] == b[i - a.len()]);
        }
    }
}

/// The nested sums and options that the rule specs are built from stay
/// within `m` when each finding's line does.
pub proof fn lemma_within_sums(m: nat)
    ensures
        forall|a: Seq<FindingView>, b: Seq<FindingView>|
            lines_within(a, m) && lines_within(b, m) ==> #[trigger] lines_within(a + b, m),
        forall|c: bool, f: FindingView| 1 <= f.line <= m ==> #[trigger] lines_within(opt(c, f), m),
{
    reveal(opt);
    assert forall|a: Seq<FindingView>, b: Seq<FindingView>|
        lines_within(a, m) && lines_within(b, m) implies #[trigger] lines_within(a + b, m) by {
        lemma_within_concat(a, b, m);
    }
}

/// Appends the finding of rule `r` when `cond` holds.
pub fn push_rule(
    out: &mut Vec<Finding>,
    cond: bool,
    r: Rule,
    line: usize,
    column: usize,
    excerpt: &str,
)
    ensures
        views(final(out)@) == views(old(out)@) + opt(cond, rule_finding(r, line, column, excerpt@)),
{
    reveal(opt);
    if cond {
        let f = rule_hit(r, line, column, excerpt);
        out.push(f);
        assert(views(out@) =~= views(old(out)@) + seq![f@]);
    } else {
        assert(views(out@) =~= views(old(out)@) + Seq::<FindingView>::empty());
    }
}

/// Appends all of `more` to `out`.
pub fn append_all(out: &mut Vec<Finding>, more: Vec<Finding>)
    ensures
        views(final(out)@) == views(old(out)@) + views(more@),
{
    let mut more = more;
    let ghost m = more@;
    out.append(&mut more);
    assert(views(out@) =~= views(old(out)@) + views(m));
}

fn trim_ex(s: &str) -> (r: String)
    ensures
        r@ == excerpt_of(s@),
{
    let c = chars_of(s);
    let (a, b) = trim_range(&c);
    let t = s.substring_char(a, b);
    if str_bytes(t) > 160 {
        let k = if b - a < 159 { b - a } else { 159 };
        let head = String::from_str(t.substring_char(0, k));
        proof {
            reveal_strlit("\u{2026}");
        }
        head.concat("\u{2026}")
    } else {
        String::from_str(t)
    }
}


/// The lines of a source, numbered from 1.
#[derive(Clone, Debug)]
pub struct Src<'a> {
    pub raw: &'a str,
    pub lines: Vec<(usize, &'a str)>,
}

/// Line entries as numbers and character sequences.
pub open spec fn line_views(lines: Seq<(usize, &str)>) -> Seq<(usize, Seq<char>)> {
    lines.map_values(|p: (usize, &str)| (p.0, p.1@))
}

/// `ls` numbered 1, 2, 3, ...
pub open spec fn numbered(ls: Seq<Seq<char>>) -> Seq<(usize, Seq<char>)> {
    Seq::new(ls.len(), |i: int| ((i + 1) as usize, ls[i]))
}

/// The text of the first entry numbered `n`, or nothing.
pub open spec fn line_at(ls: Seq<(usize, Seq<char>)>, n: usize) -> Seq<char>
    decreases ls.len(),
{
    if ls.len() == 0 {
        seq![]
    } else if ls[0].0 == n {
        ls[0].1
    } else {
        line_at(ls.drop_first(), n)
    }
}

pub proof fn lemma_line_at(ls: Seq<(usize, Seq<char>)>, n: usize, k: int)
    requires
        0 <= k <= ls.len(),
        forall|j: int| 0 <= j < k ==> (#[trigger] ls[j]).0 != n,
        k < ls.len() ==> ls[k].0 == n,
    ensures
        line_at(ls, n) == if k < ls.len() {
            ls[k].1
        } else {
            Seq::<char>::empty()
        },
    decreases k,
{
    if k > 0 {
        let t = ls.drop_first();
        assert forall|j: int| 0 <= j < k - 1 implies (#[trigger] t[j]).0 != n by {
            assert(t[j] == ls[j + 1]);
        }
        assert(ls[0].0 != n);
        lemma_line_at(t, n, k - 1);
    }
}

/// Law: in a source split by `Src::new`, line `n` is the `n`-th line for
/// `1 <= n <= count`, and empty for any other `n`.
pub proof fn law_line_numbering(raw: Seq<char>, n: usize)
    requires
        lines_of(raw).len() <= usize::MAX,
    ensures
        line_at(numbered(lines_of(raw)), n) == if 1 <= n <= lines_of(raw).len() {
            lines_of(raw)[n - 1]
        } else {
            Seq::<char>::empty()
        },
{
    let ls = numbered(lines_of(raw));
    if 1 <= n <= lines_of(raw).len() {
        assert forall|j: int| 0 <= j < n - 1 implies (#[trigger] ls[j]).0 != n by {}
        lemma_line_at(ls, n, n - 1);
    } else {
        assert forall|j: int| 0 <= j < ls.len() implies (#[trigger] ls[j]).0 != n by {
            assert(ls[j].0 == j + 1);
        }
        lemma_line_at(ls, n, ls.len() as int);
    }
}

impl<'a> Src<'a> {
    pub open spec fn lines_view(&self) -> Seq<(usize, Seq<char>)> {
        line_views(self.lines@)
    }

    /// Splits `raw` into lines at `"\n"` or `"\r\n"` and numbers them from 1.
    pub fn new(raw: &'a str) -> (s: Src<'a>)
        ensures
            s.raw == raw,
            s.lines_view() == numbered(lines_of(raw@)),
    {
        let v = chars_of(raw);
        let mut lines: Vec<(usize, &'a str)> = Vec::new();
        let ghost mut done: Seq<Seq<char>> = seq![];
        let mut start: usize = 0;
        let mut i: usize = 0;
        proof {
            assert(v@.skip(0) =~= v@);
            assert(done + lines_of(v@) =~= lines_of(v@));
            assert(line_views(lines@) =~= numbered(done));
        }
        while i < v.len()
            invariant
                start <= i <= v.len(),
                v@ == raw@,
                done.len() <= start,
                lines_of(v@) == done + lines_of(v@.skip(start as int)),
                line_views(lines@) == numbered(done),
                forall|j: int| start <= j < i ==> v@[j] != '\n',
            decreases v.len() - i,
        {
            if v[i] == '\n' {
                let end = if i > start && v[i - 1] == '\r' {
                    i - 1
                } else {
                    i
                };
                let piece = raw.substring_char(start, end);
                proof {
                    let w = v@.skip(start as int);
                    assert forall|j: int| 0 <= j < i - start implies #[trigger] w[j] != '\n' by {
                        assert(w[j] == v@[j + start]);
                    }
                    lemma_nl_index(w, i - start);
                    assert(w.take(i - start) =~= v@.subrange(start as int, i as int));
                    assert(w.skip(i - start + 1) =~= v@.skip(i + 1));
                    assert(strip_cr(v@.subrange(start as int, i as int)) =~= v@.subrange(
                        start as int,
                        end as int,
                    ));
                    assert(numbered(done.push(piece@)) =~= numbered(done).push(
                        ((done.len() + 1) as usize, piece@),
                    ));
                    assert(done + lines_of(w) =~= done.push(piece@) + lines_of(v@.skip(i + 1)));
                }
                let k = lines.len() + 1;
                lines.push((k, piece));
                proof {
                    assert(line_views(lines@) =~= numbered(done.push(piece@)));
                    done = done.push(piece@);
                }
                start = i + 1;
            }
            i = i + 1;
        }
        if start < v.len() {
            let piece = raw.substring_char(start, v.len());
            proof {
                let w = v@.skip(start as int);
                assert forall|j: int| 0 <= j < w.len() implies #[trigger] w[j] != '\n' by {
                    assert(w[j] == v@[j + start]);
                }
                lemma_nl_index(w, w.len() as int);
                assert(w =~= piece@);
                assert(numbered(done.push(piece@)) =~= numbered(done).push(
                    ((done.len() + 1) as usize, piece@),
                ));
                assert(done + lines_of(w) =~= done.push(piece@));
            }
            let k = lines.len() + 1;
            lines.push((k, piece));
            proof {
                assert(line_views(lines@) =~= numbered(done.push(piece@)));
                done = done.push(piece@);
            }
        } else {
            proof {
                assert(v@.skip(start as int) =~= Seq::<char>::empty());
                assert(done + Seq::<Seq<char>>::empty() =~= done);
            }
        }
        Src { raw, lines }
    }

    /// The text of line `n`, or `""` when no line has that number.
    pub fn line(&self, n: usize) -> (r: &str)
        ensures
            r@ == line_at(self.lines_view(), n),
    {
        let mut i: usize = 0;
        assert(self.lines_view().skip(0) =~= self.lines_view());
        while i < self.lines.len()
            invariant
                i <= self.lines.len(),
                line_at(self.lines_view(), n) == line_at(self.lines_view().skip(i as int), n),
            decreases self.lines.len() - i,
        {
            proof {
                let t = self.lines_view().skip(i as int);
                assert(t[0] == self.lines_view()[i as int]);
                assert(t.drop_first() =~= self.lines_view().skip(i + 1));
            }
            if self.lines[i].0 == n {
                return self.lines[i].1;
            }
            i = i + 1;
        }
        proof {
            reveal_strlit("");
            assert(self.lines_view().skip(i as int) =~= Seq::<(usize, Seq<char>)>::empty());
        }
        ""
    }
}

/// Everything analysed from one source.
#[derive(Clone, Debug)]
pub struct Report {
    pub lang: Lang,
    pub bytes: usize,
    pub lines: usize,
    pub findings: Vec<Finding>,
    pub ast: Vec<AstNode>,
    pub score: Score,
    pub verdict: String,
}

/// What the rules of `lang` report on a source `raw` split into lines `ls`,
/// in the order the rules find it.
pub open spec fn scan_of(lang: Lang, raw: Seq<char>, ls: Seq<(usize, Seq<char>)>) -> Seq<
    FindingView,
> {
    match lang {
        Lang::Rails => rails::rails_scan(raw, ls),
        Lang::Vue => vue::vue_scan(raw, ls),
        Lang::Sql => sql::sql_scan(ls),
    }
}

/// `r` is the report of `source` analysed as `lang`: its findings are those
/// of the rules ordered worst first (then by line, then by id, otherwise as
/// found), with the outline, the score and its verdict.
pub open spec fn describes(r: Report, lang: Lang, source: Seq<char>) -> bool {
    let ls = numbered(lines_of(source));
    &&& r.lang == lang
    &&& r.bytes == utf8_len(source)
    &&& r.lines == lines_of(source).len()
    &&& sorted(views(r.findings@))
    &&& views(r.findings@).to_multiset() == scan_of(lang, source, ls).to_multiset()
    &&& forall|k: (u8, usize, Seq<char>)| #[trigger]
        with_key(views(r.findings@), k) == with_key(scan_of(lang, source, ls), k)
    &&& node_views(r.ast@) == outline(lang, ls, lines_of(source).len() as int)
    &&& r.score == score_of(views(r.findings@), r.lines as nat)
    &&& r.score == score_of(scan_of(lang, source, ls), r.lines as nat)
    &&& r.verdict@ == verdict_text(r.score.deslop)
}

/// Analyses `source` as `lang`.
pub fn analyze(lang: Lang, source: &str) -> (r: Report)
    ensures
        describes(r, lang, source@),
{
    let src = Src::new(source);
    let found = match lang {
        Lang::Rails => rails::scan(&src),
        Lang::Vue => vue::scan(&src),
        Lang::Sql => sql::scan(&src),
    };
    let ghost unsorted = views(found@);
    let findings = sort_findings(found);
    let ast = ast::build(lang, &src);
    let n = src.lines.len();
    assert(src.lines_view().len() == n);
    let score = score::compute(findings.as_slice(), n);
    proof {
        assert(score_of(views(findings@), n as nat) == score_of(unsorted, n as nat));
    }
    let verdict = score.verdict();
    Report { lang, bytes: str_bytes(source), lines: n, findings, ast, score, verdict }
}

/// The language of a file extension (`rb`, `rake`, `vue`, `js`, `ts`, `sql`).
pub open spec fn lang_of_extension(ext: Seq<char>) -> Option<Lang> {
    if ext == "rb"@ || ext == "rake"@ {
        Some(Lang::Rails)
    } else if ext == "vue"@ || ext == "js"@ || ext == "ts"@ {
        Some(Lang::Vue)
    } else if ext == "sql"@ {
        Some(Lang::Sql)
    } else {
        None
    }
}

/// The language a file's extension implies.
pub fn infer(ext: &str) -> (r: Option<Lang>)
    ensures
        r == lang_of_extension(ext@),
{
    let e = chars_of(ext);
    if same(&e, "rb") || same(&e, "rake") {
        Some(Lang::Rails)
    } else if same(&e, "vue") || same(&e, "js") || same(&e, "ts") {
        Some(Lang::Vue)
    } else if same(&e, "sql") {
        Some(Lang::Sql)
    } else {
        None
    }
}

/// The command's exit status for a score: 3 when anything is fatal, 1 when
/// the total is under 75, else 0.
pub open spec fn exit_status(s: Score) -> u8 {
    if s.fatal > 0 {
        3
    } else if s.deslop < 75 {
        1
    } else {
        0
    }
}

pub fn exit_code(score: &Score) -> (c: u8)
    ensures
        c == exit_status(*score),
{
    if score.fatal > 0 {
        3
    } else if score.deslop < 75 {
        1
    } else {
        0
    }
}

/// Law: an excerpt holds at most 160 characters, and neither starts nor
/// ends with whitespace.
pub proof fn law_excerpt_shape(s: Seq<char>)
    ensures
        excerpt_of(s).len() <= 160,
        excerpt_of(s).len() > 0 ==> !text::is_ws(excerpt_of(s)[0]) && !text::is_ws(
            excerpt_of(s).last(),
        ),
{
    let t = trim(s);
    text::lemma_trim_edges(s);
    text::lemma_utf8_len_at_least(t);
    if utf8_len(t) > 160 {
        let e = excerpt_of(s);
        assert(e.last() == '\u{2026}');
        if t.len() > 0 {
            assert(e[0] == t[0]);
        }
    }
}

/// Law: a word and the language it names agree both ways:
/// `Lang::parse(l.as_str())` is `l`.
pub proof fn law_parse_names(l: Lang)
    ensures
        lang_named(lower(trim(l.name()))) == Some(l),
{
    reveal_strlit("rails");
    reveal_strlit("rb");
    reveal_strlit("ruby");
    reveal_strlit("ror");
    reveal_strlit("vue");
    reveal_strlit("sfc");
    reveal_strlit("js");
    reveal_strlit("ts");
    reveal_strlit("sql");
    reveal_strlit("pg");
    reveal_strlit("postgres");
    reveal_strlit("redshift");
    let w = l.name();
    text::lemma_lead_ws(w, 0);
    assert(w.skip(0) =~= w);
    text::lemma_trail_ws(w, 0);
    assert(w.take(w.len() as int) =~= w);
    assert(trim(w) == w);
    assert(lower(w) =~= w);
}

/// Law: any fatal finding makes the command exit with status 3.
pub proof fn law_fatal_exits_three(fs: Seq<FindingView>, lines: nat)
    requires
        0 < score::severity_count(fs, Severity::Fatal) <= usize::MAX,
    ensures
        exit_status(score_of(fs, lines)) == 3,
{
}

/// Law: every finding of an analysis points at a line of the source
/// (numbered from 1 up to the number of lines).
pub proof fn law_findings_point_at_lines(lang: Lang, raw: Seq<char>)
    requires
        lines_of(raw).len() <= usize::MAX,
    ensures
        lines_within(scan_of(lang, raw, numbered(lines_of(raw))), lines_of(raw).len()),
{
    let ls = numbered(lines_of(raw));
    let m = lines_of(raw).len();
    assert forall|j: int| 0 <= j < ls.len() implies 1 <= (#[trigger] ls[j]).0 <= m by {}
    match lang {
        Lang::Rails => rails::lemma_rails_within(raw, ls, m),
        Lang::Vue => vue::lemma_vue_within(raw, ls, m),
        Lang::Sql => sql::lemma_sql_within(ls, m),
    }
}

/// Law: the analysis is a function of the language and the source alone:
/// two reports of one input agree in every field, findings in the same order.
pub proof fn law_analysis_is_deterministic(r1: Report, r2: Report, lang: Lang, source: Seq<char>)
    requires
        describes(r1, lang, source),
        describes(r2, lang, source),
    ensures
        r1.lang == r2.lang,
        r1.bytes == r2.bytes,
        r1.lines == r2.lines,
        views(r1.findings@) == views(r2.findings@),
        node_views(r1.ast@) == node_views(r2.ast@),
        r1.score == r2.score,
        r1.verdict@ == r2.verdict@,
{
    order::lemma_sorted_unique(views(r1.findings@), views(r2.findings@));
}

} // verus!
