use deslop::ast::build;
use deslop::score::compute;
use deslop::{analyze, exit_code, hit, infer, AstKind, Gate, Lang, Score, Severity, Src};

fn ids(lang: Lang, src: &str) -> Vec<String> {
    analyze(lang, src).findings.iter().map(|f| f.id.clone()).collect()
}

fn score(deslop: u8, fatal: usize) -> Score {
    Score {
        think: 100,
        simple: 100,
        surgical: 100,
        goal: 100,
        deslop,
        fatal,
        high: 0,
        med: 0,
        low: 0,
    }
}

#[test]
fn lang_parse_trims_and_ignores_case() {
    assert_eq!(Lang::parse(" RUBY "), Some(Lang::Rails));
    assert_eq!(Lang::parse("Postgres"), Some(Lang::Sql));
    assert_eq!(Lang::parse("\tsfc\n"), Some(Lang::Vue));
    assert_eq!(Lang::parse("python"), None);
    assert_eq!(Lang::parse(""), None);
}

#[test]
fn lang_parse_reads_back_as_str() {
    for l in [Lang::Rails, Lang::Vue, Lang::Sql] {
        assert_eq!(Lang::parse(l.as_str()), Some(l));
    }
    assert_eq!(Lang::Sql.as_str(), "sql");
}

#[test]
fn infer_from_extension() {
    assert_eq!(infer("rb"), Some(Lang::Rails));
    assert_eq!(infer("rake"), Some(Lang::Rails));
    assert_eq!(infer("ts"), Some(Lang::Vue));
    assert_eq!(infer("sql"), Some(Lang::Sql));
    assert_eq!(infer("RB"), None);
    assert_eq!(infer("txt"), None);
}

#[test]
fn severity_rank_and_weight() {
    assert_eq!(Severity::Fatal.rank(), 4);
    assert_eq!(Severity::Low.rank(), 1);
    assert_eq!(Severity::Fatal.weight(), 28);
    assert_eq!(Severity::High.weight(), 14);
    assert_eq!(Severity::Med.weight(), 7);
    assert_eq!(Severity::Low.weight(), 3);
    assert_eq!(Gate::Surgical.as_str(), "surgical");
}

#[test]
fn score_weighted_total_rounds_half_up() {
    let f = hit("x", Gate::Simple, Severity::High, 1, 1, "e", "w", "f", "m");
    let s = compute(&[f], 10);
    assert_eq!(s.simple, 86);
    assert_eq!(s.think, 100);
    assert_eq!(s.deslop, 97);
    assert_eq!(s.high, 1);
    assert_eq!(s.fatal, 0);
}

#[test]
fn score_fatal_caps_at_45() {
    let f = hit("x", Gate::Think, Severity::Fatal, 1, 1, "e", "w", "f", "m");
    let s = compute(&[f], 10);
    assert_eq!(s.think, 72);
    assert_eq!(s.deslop, 45);
    assert_eq!(s.fatal, 1);
    assert_eq!(exit_code(&s), 3);
}

#[test]
fn score_gate_clamps_at_zero() {
    let fs: Vec<_> = (0..4)
        .map(|i| hit("x", Gate::Goal, Severity::Fatal, i, 1, "e", "w", "f", "m"))
        .collect();
    let s = compute(&fs, 10);
    assert_eq!(s.goal, 0);
    assert_eq!(s.deslop, 45);
    assert_eq!(s.fatal, 4);
}

#[test]
fn score_empty_source_is_zero() {
    let s = compute(&[], 0);
    assert_eq!(s.deslop, 0);
    assert_eq!(s.verdict(), "APOSTASY. Rewrite from the AST up.");
    let r = analyze(Lang::Sql, "");
    assert_eq!(r.lines, 0);
    assert_eq!(r.score.deslop, 0);
}

#[test]
fn score_more_findings_never_higher() {
    let a = hit("x", Gate::Simple, Severity::Med, 1, 1, "e", "w", "f", "m");
    let b = hit("y", Gate::Goal, Severity::Low, 2, 1, "e", "w", "f", "m");
    let one = compute(&[a.clone()], 5);
    let two = compute(&[a, b], 5);
    assert!(two.deslop <= one.deslop);
    assert!(two.goal <= one.goal);
}

#[test]
fn verdict_thresholds() {
    assert_eq!(score(90, 0).verdict(), "CLEAN. The compiler nods.");
    assert_eq!(score(89, 0).verdict(), "MOSTLY HONEST. Residual slop. Cut it.");
    assert_eq!(score(75, 0).verdict(), "MOSTLY HONEST. Residual slop. Cut it.");
    assert_eq!(score(74, 0).verdict(), "SLOP DETECTED. Do not ship.");
    assert_eq!(score(50, 0).verdict(), "SLOP DETECTED. Do not ship.");
    assert_eq!(score(49, 0).verdict(), "VIBE CODING. This will page you at 02:00.");
    assert_eq!(score(25, 0).verdict(), "VIBE CODING. This will page you at 02:00.");
    assert_eq!(score(24, 0).verdict(), "APOSTASY. Rewrite from the AST up.");
}

#[test]
fn exit_codes() {
    assert_eq!(exit_code(&score(100, 1)), 3);
    assert_eq!(exit_code(&score(74, 0)), 1);
    assert_eq!(exit_code(&score(75, 0)), 0);
}

#[test]
fn hit_column_and_excerpt() {
    let f = hit("id", Gate::Goal, Severity::Low, 3, 0, "   foo bar  ", "w", "f", "m");
    assert_eq!(f.column, 1);
    assert_eq!(f.excerpt, "foo bar");
    assert_eq!(f.line, 3);
    let long = "a".repeat(200);
    let f = hit("id", Gate::Goal, Severity::Low, 1, 7, &long, "w", "f", "m");
    assert_eq!(f.column, 7);
    assert_eq!(f.excerpt, format!("{}…", "a".repeat(159)));
    let wide = "é".repeat(100);
    let f = hit("id", Gate::Goal, Severity::Low, 1, 1, &wide, "w", "f", "m");
    assert_eq!(f.excerpt, format!("{}…", wide));
    let fits = "é".repeat(80);
    let f = hit("id", Gate::Goal, Severity::Low, 1, 1, &fits, "w", "f", "m");
    assert_eq!(f.excerpt, fits);
}

#[test]
fn src_splits_lines() {
    let s = Src::new("a\r\nb\n\nc");
    assert_eq!(s.lines, vec![(1, "a"), (2, "b"), (3, ""), (4, "c")]);
    assert_eq!(s.line(2), "b");
    assert_eq!(s.line(0), "");
    assert_eq!(s.line(9), "");
    assert_eq!(Src::new("x\n").lines, vec![(1, "x")]);
    assert_eq!(Src::new("").lines.len(), 0);
    assert_eq!(Src::new("a\r").lines, vec![(1, "a\r")]);
}

#[test]
fn report_counts_bytes_and_lines() {
    let r = analyze(Lang::Sql, "SELECT 1;\né");
    assert_eq!(r.bytes, 12);
    assert_eq!(r.lines, 2);
    assert_eq!(r.lang, Lang::Sql);
}

#[test]
fn report_orders_worst_first() {
    let src = "Load.all.each do |l|\n  l.carrier.name\nend\nparams.permit!\ndefault_scope { x }\n";
    let r = analyze(Lang::Rails, src);
    let got: Vec<_> = r.findings.iter().map(|f| (f.id.as_str(), f.line)).collect();
    assert_eq!(
        got,
        vec![("rails.permit_bang", 4), ("rails.n_plus_one", 1), ("rails.default_scope", 5)]
    );
    for w in r.findings.windows(2) {
        let (a, b) = (&w[0], &w[1]);
        assert!(a.severity.rank() >= b.severity.rank());
        if a.severity.rank() == b.severity.rank() {
            assert!(a.line <= b.line);
        }
    }
    assert_eq!(r.score.fatal, 1);
    assert_eq!(exit_code(&r.score), 3);
}

#[test]
fn permit_bang_is_fatal() {
    let r = analyze(Lang::Rails, "params.permit!");
    assert!(r.score.fatal >= 1);
    assert!(r.score.deslop <= 45);
    assert_eq!(exit_code(&r.score), 3);
    assert_eq!(r.findings[0].column, 8);
}

#[test]
fn clean_source_scores_full() {
    let r = analyze(Lang::Sql, "SELECT id FROM loads WHERE id = $1 LIMIT 1;\n");
    assert!(r.findings.is_empty());
    assert_eq!(r.score.deslop, 100);
    assert_eq!(r.verdict, "CLEAN. The compiler nods.");
}

#[test]
fn excerpts_are_trimmed_and_short() {
    let long = format!("    params.permit! {}   ", "x".repeat(300));
    let r = analyze(Lang::Rails, &long);
    for f in &r.findings {
        assert!(f.excerpt.chars().count() <= 160);
        assert_eq!(f.excerpt.trim(), f.excerpt);
    }
}

#[test]
fn vue_column_counts_bytes() {
    let r = analyze(Lang::Vue, "  é <span v-html=\"x\"></span>\n");
    let f = r.findings.iter().find(|f| f.id == "vue.v_html").unwrap();
    assert_eq!(f.column, 12);
    assert_eq!(f.line, 1);
    assert_eq!(f.excerpt, "é <span v-html=\"x\"></span>");
}

#[test]
fn vue_mutate_prop_needs_declared_props() {
    assert!(ids(Lang::Vue, "this.items.push(1)").is_empty());
    assert_eq!(ids(Lang::Vue, "props: ['items']\nthis.items.push(1)"), vec!["vue.mutate_prop"]);
}

#[test]
fn vue_other_rules() {
    assert_eq!(ids(Lang::Vue, "localStorage.setItem('token', t)"), vec!["vue.secret_storage"]);
    assert_eq!(ids(Lang::Vue, "const x = y as any"), vec!["vue.as_any"]);
    assert_eq!(ids(Lang::Vue, "<li v-for=\"x in xs\" :key=\"x.id\" v-if=\"x.ok\">"), vec!["vue.vfor_vif"]);
    assert_eq!(ids(Lang::Vue, "el.innerHTML = s"), vec!["vue.innerhtml"]);
}

#[test]
fn sql_deep_offset() {
    assert_eq!(
        ids(Lang::Sql, "SELECT id FROM t ORDER BY id LIMIT 10 OFFSET 5000;"),
        vec!["sql.deep_offset"]
    );
    assert_eq!(ids(Lang::Sql, "SELECT id FROM t LIMIT 10 OFFSET   2000;"), vec!["sql.deep_offset"]);
    assert!(ids(Lang::Sql, "SELECT id FROM t LIMIT 10 OFFSET 1000;").is_empty());
    assert!(ids(Lang::Sql, "SELECT id FROM t LIMIT 1 OFFSET 99999999999999999999;").is_empty());
}

#[test]
fn sql_function_on_column_needs_a_column() {
    assert_eq!(ids(Lang::Sql, "SELECT id FROM t WHERE LOWER(name) = 'x';"), vec!["sql.fn_on_column"]);
    assert!(ids(Lang::Sql, "SELECT id FROM t WHERE LOWER('X') = name;").is_empty());
    assert_eq!(ids(Lang::Sql, "SELECT id FROM t WHERE LOWER(  ébène) = 'x';"), vec!["sql.fn_on_column"]);
    assert!(ids(Lang::Sql, "SELECT id FROM t WHERE LOWER(€x) = 'x';").is_empty());
}

#[test]
fn sql_comma_join() {
    assert_eq!(ids(Lang::Sql, "SELECT a FROM t1, t2 WHERE t1.id = t2.id;"), vec!["sql.comma_join"]);
    assert!(ids(Lang::Sql, "SELECT COUNT(a, b) FROM t;").is_empty());
    assert!(ids(Lang::Sql, "SELECT a FROM f(a, b);").is_empty());
}

#[test]
fn sql_statement_pass_reports_multiline_delete() {
    let r = analyze(Lang::Sql, "DELETE\nFROM audit;\n");
    assert_eq!(r.findings.len(), 1);
    let f = &r.findings[0];
    assert_eq!(f.id, "sql.unbounded_delete");
    assert_eq!(f.line, 1);
    assert_eq!(f.excerpt, "DELETE");
    assert_eq!(f.why, "DML statement has no WHERE anywhere in the statement. Full relation rewrite.");
}

#[test]
fn sql_statement_pass_does_not_repeat_a_line_finding() {
    let r = analyze(Lang::Sql, "DELETE FROM t;");
    assert_eq!(r.findings.len(), 1);
    assert!(r.findings[0].why.starts_with("DELETE without WHERE."));
}

#[test]
fn sql_lookahead_where() {
    assert!(ids(Lang::Sql, "DELETE FROM t\nWHERE id = 1;").is_empty());
    let r = analyze(Lang::Sql, "DELETE FROM t;\n-- WHERE\n");
    assert_eq!(r.findings.len(), 1);
    assert!(r.findings[0].why.starts_with("DML statement has no WHERE"));
}

#[test]
fn sql_skips_comments_and_blank_lines() {
    assert!(ids(Lang::Sql, "-- SELECT * FROM t\n\n").is_empty());
}

#[test]
fn sql_for_update() {
    assert!(ids(Lang::Sql, "SELECT id FROM jobs WHERE a = 1 FOR UPDATE SKIP LOCKED;").is_empty());
    assert_eq!(ids(Lang::Sql, "SELECT id FROM jobs WHERE a = 1 FOR UPDATE;"), vec!["sql.for_update"]);
}

#[test]
fn sql_rule_texts() {
    let r = analyze(Lang::Sql, "SELECT id FROM t WHERE a = 1 OR 1=1;");
    let f = r.findings.iter().find(|f| f.id == "sql.tautology").unwrap();
    assert_eq!(f.gate, Gate::Think);
    assert_eq!(f.severity, Severity::Fatal);
    assert_eq!(f.math, "P ∨ ⊤ = ⊤. Selectivity = 1. You just full-scanned on purpose.");
}

#[test]
fn rails_unscoped_write_looks_at_previous_line() {
    assert!(ids(Lang::Rails, "Load.where(a: 1)\n  .update_all(b: 2)\n").is_empty());
    assert_eq!(ids(Lang::Rails, "x = 1\nLoad.update_all(b: 2)\n"), vec!["rails.unscoped_write"]);
}

#[test]
fn rails_save_silent() {
    assert_eq!(ids(Lang::Rails, "load.save"), vec!["rails.save_silent"]);
    assert!(ids(Lang::Rails, "if load.save").is_empty());
    assert!(ids(Lang::Rails, "load.save!").is_empty());
}

#[test]
fn rails_speculative() {
    assert_eq!(ids(Lang::Rails, "# keep it flexible"), vec!["rails.speculative"]);
    assert!(ids(Lang::Rails, "# TODO remove").is_empty());
}

#[test]
fn rails_user_spoof() {
    let r = analyze(Lang::Rails, "def show\n  current_user = User.find(params[:user_id])\nend\n");
    let f = r.findings.iter().find(|f| f.id == "rails.user_spoof").unwrap();
    assert_eq!(f.line, 2);
    assert_eq!(f.excerpt, "current_user = User.find(params[:user_id])");
}

#[test]
fn rails_n_plus_one_with_and_without_includes() {
    let r = analyze(Lang::Rails, "Load.all.each do |l|\n  l.carrier.name\nend\n");
    assert_eq!(r.findings.len(), 1);
    assert_eq!(r.findings[0].id, "rails.n_plus_one");
    assert_eq!(r.findings[0].line, 1);
    assert_eq!(r.findings[0].excerpt, "Load.all.each do |l|");
    assert!(ids(Lang::Rails, "Load.includes(:carrier).each do |l|\n  l.carrier.name\nend\n").is_empty());
}

#[test]
fn ast_rails_outline() {
    let src = Src::new(
        "class LoadsController < ApplicationController\n  def index(x)\n    Load.all.each do |load|\n    end\n  end\nend\nmodule Admin\n",
    );
    let a = build(Lang::Rails, &src);
    let got: Vec<_> = a.iter().map(|n| (n.kind, n.name.as_str(), n.line, n.depth)).collect();
    assert_eq!(
        got,
        vec![
            (AstKind::Class, "LoadsController", 1, 0),
            (AstKind::Method, "index", 2, 1),
            (AstKind::Block, "Load.all.each do |load|", 3, 2),
            (AstKind::Module, "Admin", 7, 0),
        ]
    );
}

#[test]
fn ast_vue_outline() {
    let src = Src::new("<template>\n  <div v-for=\"i in xs\" :key=\"i.id\" v-html=\"i.b\"></div>\n</template>\n");
    let a = build(Lang::Vue, &src);
    let got: Vec<_> = a.iter().map(|n| (n.kind, n.name.as_str(), n.line, n.depth)).collect();
    assert_eq!(got, vec![(AstKind::Template, "template", 1, 0), (AstKind::Directive, "v-html", 2, 1)]);
}

#[test]
fn ast_sql_outline() {
    let src = Src::new(
        "WITH x AS (\nSELECT id\n  FROM loads l\n  JOIN carriers c ON c.id = l.cid\nWHERE l.id = 1\nDELETE FROM t\n",
    );
    let a = build(Lang::Sql, &src);
    let got: Vec<_> = a.iter().map(|n| (n.kind, n.name.as_str(), n.line, n.depth)).collect();
    assert_eq!(
        got,
        vec![
            (AstKind::Select, "cte", 1, 0),
            (AstKind::Select, "select", 2, 0),
            (AstKind::From, "FROM loads l", 3, 1),
            (AstKind::Join, "JOIN carriers c ON c.id = l.cid", 4, 1),
            (AstKind::Where, "WHERE l.id = 1", 5, 0),
            (AstKind::Dml, "DELETE FROM t", 6, 0),
        ]
    );
}

#[test]
fn score_counts_add_up() {
    let fs = vec![
        hit("a", Gate::Think, Severity::Fatal, 1, 1, "e", "w", "f", "m"),
        hit("b", Gate::Goal, Severity::High, 2, 1, "e", "w", "f", "m"),
        hit("c", Gate::Goal, Severity::Low, 3, 1, "e", "w", "f", "m"),
        hit("d", Gate::Surgical, Severity::Med, 4, 1, "e", "w", "f", "m"),
    ];
    let s = compute(&fs, 4);
    assert_eq!(s.fatal + s.high + s.med + s.low, fs.len());
    assert_eq!(s.goal, 100 - 14 - 3);
    assert_eq!(s.surgical, 93);
}

#[test]
fn lines_hold_no_newline() {
    let s = Src::new("one\r\ntwo\nthree\n");
    for (i, (n, l)) in s.lines.iter().enumerate() {
        assert_eq!(*n, i + 1);
        assert!(!l.contains('\n'));
    }
    assert_eq!(s.lines.len(), 3);
}

#[test]
fn findings_point_at_lines() {
    let cases = [
        (Lang::Rails, "Load.all.each do |l|\n  l.carrier.name\nend\ncurrent_user = x(params[:user])\n"),
        (Lang::Vue, "<div v-for=\"x in xs\">\n<span v-html=\"x\"></span>\n"),
        (Lang::Sql, "DELETE\nFROM t;\nSELECT * FROM a, b;\n"),
    ];
    for (lang, src) in cases {
        let r = analyze(lang, src);
        assert!(!r.findings.is_empty());
        for f in &r.findings {
            assert!(1 <= f.line && f.line <= r.lines, "{:?}", f);
        }
    }
}

#[test]
fn sql_statement_left_open_at_end_is_reported() {
    let r = analyze(Lang::Sql, "DELETE\nFROM t");
    assert_eq!(r.findings.len(), 1);
    assert_eq!(r.findings[0].id, "sql.unbounded_delete");
    assert_eq!(r.findings[0].line, 1);
    assert!(r.findings[0].why.starts_with("DML statement has no WHERE"));
    let r = analyze(Lang::Sql, "UPDATE t\nSET a = 1\n");
    assert_eq!(r.findings.len(), 1);
    assert_eq!(r.findings[0].id, "sql.unbounded_update");
    assert!(r.findings[0].why.starts_with("UPDATE without WHERE."));
    assert!(ids(Lang::Sql, "DELETE\nFROM t\nWHERE id = 1").is_empty());
}

#[test]
fn sql_function_on_column_any_occurrence() {
    assert_eq!(
        ids(Lang::Sql, "SELECT id FROM t WHERE A = LOWER('X') AND LOWER(B) = 'Y';"),
        vec!["sql.fn_on_column"]
    );
}

#[test]
fn lang_from_code() {
    assert_eq!(Lang::from_code(0), Some(Lang::Rails));
    assert_eq!(Lang::from_code(1), Some(Lang::Vue));
    assert_eq!(Lang::from_code(2), Some(Lang::Sql));
    assert_eq!(Lang::from_code(3), None);
}

#[test]
fn score_ignores_order() {
    let a = hit("a", Gate::Think, Severity::Fatal, 1, 1, "e", "w", "f", "m");
    let b = hit("b", Gate::Goal, Severity::High, 2, 1, "e", "w", "f", "m");
    let c = hit("c", Gate::Simple, Severity::Low, 3, 1, "e", "w", "f", "m");
    let s1 = compute(&[a.clone(), b.clone(), c.clone()], 9);
    let s2 = compute(&[c, a, b], 9);
    assert_eq!(
        (s1.think, s1.simple, s1.surgical, s1.goal, s1.deslop, s1.fatal, s1.high, s1.med, s1.low),
        (s2.think, s2.simple, s2.surgical, s2.goal, s2.deslop, s2.fatal, s2.high, s2.med, s2.low)
    );
}

#[test]
fn analysis_is_deterministic() {
    let src = "Load.all.each do |l|\n  l.carrier.name\nend\nparams.permit!\n";
    let r1 = analyze(Lang::Rails, src);
    let r2 = analyze(Lang::Rails, src);
    let f = |r: &deslop::Report| {
        r.findings.iter().map(|f| (f.id.clone(), f.line, f.column, f.excerpt.clone())).collect::<Vec<_>>()
    };
    assert_eq!(f(&r1), f(&r2));
    assert_eq!(r1.verdict, r2.verdict);
    assert_eq!(r1.score.deslop, r2.score.deslop);
    assert_eq!(r1.ast.len(), r2.ast.len());
}

fn n_plus_one_lines(src: &str) -> Vec<usize> {
    analyze(Lang::Rails, src)
        .findings
        .iter()
        .filter(|f| f.id == "rails.n_plus_one")
        .map(|f| f.line)
        .collect()
}

#[test]
fn rails_n_plus_one_each_closed_loop_once_in_line_order() {
    let src = "users.each do |u|\n  u.name\nend\nloads.map do |l|\n  l.carrier\nend\n";
    assert_eq!(n_plus_one_lines(src), vec![1, 4]);
}

#[test]
fn rails_n_plus_one_needs_an_association_read() {
    assert!(n_plus_one_lines("users.each do |u|\n  puts u\nend\n").is_empty());
    // a bare `end` before any read leaves the loop open
    assert_eq!(n_plus_one_lines("users.each do |u|\n  if u\n  end\n  u.account\nend\n"), vec![1]);
    // a later loop replaces one that never read an association
    assert_eq!(n_plus_one_lines("a.each do |x|\n  b.map do |y|\n    y.user\n  end\nend\n"), vec![2]);
}

#[test]
fn rails_n_plus_one_silenced_by_preload() {
    assert!(n_plus_one_lines("Load.preload(:stops)\nloads.each do |l|\n  l.stops\nend\n").is_empty());
    assert!(n_plus_one_lines("x = Load.eager_load(:user)\nloads.each do |l|\n  l.user\nend\n").is_empty());
}

#[test]
fn report_holds_exactly_the_scanned_findings() {
    let src = "params.permit!\nLoad.all.each do |l|\n  l.carrier.name\nend\ndefault_scope { where(a: 1) }\n";
    let key = |id: &str, line: usize, column: usize| (id.to_string(), line, column);
    let mut scanned: Vec<_> =
        deslop::rails::scan(&Src::new(src)).iter().map(|f| key(&f.id, f.line, f.column)).collect();
    let mut reported: Vec<_> =
        analyze(Lang::Rails, src).findings.iter().map(|f| key(&f.id, f.line, f.column)).collect();
    assert!(!scanned.is_empty());
    scanned.sort();
    reported.sort();
    assert_eq!(scanned, reported);
}
