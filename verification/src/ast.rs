//! A shallow outline of a source: one node per line that opens a
//! class, method, block, template section, directive or SQL clause.
use vstd::prelude::*;

use crate::text::{
    chars_of, contains, ends_with, has_prefix, has_suffix, has_text, is_ws, is_ws_char,
    lemma_run_len, lemma_utf8_len_take, run_len, starts_with, str_bytes, sub_chars, to_upper, trim,
    trim_range, trim_start, upper, utf8_len, utf8_prefix_len,
};
use crate::{Lang, Src};

verus! {

/// What a node stands for.
#[derive(Clone, Copy, Debug, PartialEq, Eq, Structural)]
pub enum AstKind {
    Module,
    Class,
    Method,
    Call,
    Block,
    Template,
    Script,
    Style,
    Directive,
    Select,
    From,
    Join,
    Where,
    Dml,
    Unknown,
}

/// One node of the outline.
#[derive(Clone, Debug)]
pub struct AstNode {
    pub kind: AstKind,
    pub name: String,
    pub line: usize,
    pub depth: usize,
}

pub struct AstNodeView {
    pub kind: AstKind,
    pub name: Seq<char>,
    pub line: usize,
    pub depth: usize,
}

impl View for AstNode {
    type V = AstNodeView;

    open spec fn view(&self) -> AstNodeView {
        AstNodeView { kind: self.kind, name: self.name@, line: self.line, depth: self.depth }
    }
}

pub open spec fn node_views(v: Seq<AstNode>) -> Seq<AstNodeView> {
    v.map_values(|a: AstNode| a@)
}

/// Indentation of a line: bytes of leading whitespace, halved.
pub open spec fn depth_of(line: Seq<char>) -> usize {
    ((utf8_len(line) - utf8_len(trim_start(line))) / 2) as usize
}

/// Characters that are not whitespace.
pub open spec fn word_char() -> spec_fn(char) -> bool {
    |c: char| !is_ws(c)
}

/// Characters that are neither `(` nor whitespace.
pub open spec fn name_char() -> spec_fn(char) -> bool {
    |c: char| c != '(' && !is_ws(c)
}

/// The first whitespace-separated word of `s`, or `"?"` when there is none.
pub open spec fn first_word(s: Seq<char>) -> Seq<char> {
    let w = trim_start(s);
    if w.len() == 0 {
        "?"@
    } else {
        w.take(run_len(w, word_char()) as int)
    }
}

/// `s` up to the first `(` or whitespace.
pub open spec fn method_name(s: Seq<char>) -> Seq<char> {
    s.take(run_len(s, name_char()) as int)
}

/// The first `k` characters of `s` (all of them when it is shorter).
pub open spec fn clip_to(s: Seq<char>, k: nat) -> Seq<char> {
    s.take(if s.len() < k { s.len() as int } else { k as int })
}

pub open spec fn mk(kind: AstKind, name: Seq<char>, line: usize, depth: usize) -> Option<
    AstNodeView,
> {
    Some(AstNodeView { kind, name, line, depth })
}

/// The node that line `n` opens in Ruby.
pub open spec fn rails_node(n: usize, line: Seq<char>) -> Option<AstNodeView> {
    let t = trim(line);
    let d = depth_of(line);
    if starts_with(t, "class "@) {
        mk(AstKind::Class, first_word(t.skip(6)), n, d)
    } else if starts_with(t, "module "@) {
        mk(AstKind::Module, first_word(t.skip(7)), n, d)
    } else if starts_with(t, "def "@) {
        mk(AstKind::Method, method_name(t.skip(4)), n, d)
    } else if contains(t, " do |"@) || ends_with(t, " do"@) {
        mk(AstKind::Block, clip_to(t, 48), n, d)
    } else {
        None
    }
}

/// The first Vue directive that `t` mentions.
pub open spec fn vue_directive(t: Seq<char>) -> Option<Seq<char>> {
    if contains(t, "v-html"@) {
        Some("v-html"@)
    } else if contains(t, "v-for"@) {
        Some("v-for"@)
    } else if contains(t, "v-if"@) {
        Some("v-if"@)
    } else if contains(t, "v-else"@) {
        Some("v-else"@)
    } else if contains(t, "v-model"@) {
        Some("v-model"@)
    } else if contains(t, "v-show"@) {
        Some("v-show"@)
    } else if contains(t, "v-bind"@) {
        Some("v-bind"@)
    } else if contains(t, "v-on"@) {
        Some("v-on"@)
    } else {
        None
    }
}

/// The node that line `n` opens in a Vue component.
pub open spec fn vue_node(n: usize, line: Seq<char>) -> Option<AstNodeView> {
    let t = trim(line);
    let d = depth_of(line);
    if starts_with(t, "<template"@) {
        mk(AstKind::Template, "template"@, n, d)
    } else if starts_with(t, "<script"@) {
        mk(AstKind::Script, "script"@, n, d)
    } else if starts_with(t, "<style"@) {
        mk(AstKind::Style, "style"@, n, d)
    } else {
        match vue_directive(t) {
            Some(dir) => mk(AstKind::Directive, dir, n, d),
            None => None,
        }
    }
}

/// The node that line `n` opens in SQL; clause names keep 64 characters.
pub open spec fn sql_node(n: usize, line: Seq<char>) -> Option<AstNodeView> {
    let u = upper(trim(line));
    let d = depth_of(line);
    let c = clip_to(trim(line), 64);
    if starts_with(u, "WITH "@) {
        mk(AstKind::Select, "cte"@, n, d)
    } else if starts_with(u, "SELECT"@) {
        mk(AstKind::Select, "select"@, n, d)
    } else if starts_with(u, "FROM"@) {
        mk(AstKind::From, c, n, d)
    } else if contains(u, " JOIN "@) || starts_with(u, "JOIN "@) {
        mk(AstKind::Join, c, n, d)
    } else if starts_with(u, "WHERE"@) {
        mk(AstKind::Where, c, n, d)
    } else if starts_with(u, "DELETE"@) || starts_with(u, "UPDATE"@) || starts_with(u, "INSERT"@) {
        mk(AstKind::Dml, c, n, d)
    } else {
        None
    }
}

pub open spec fn node_of(lang: Lang, n: usize, line: Seq<char>) -> Option<AstNodeView> {
    match lang {
        Lang::Rails => rails_node(n, line),
        Lang::Vue => vue_node(n, line),
        Lang::Sql => sql_node(n, line),
    }
}

pub open spec fn as_seq(o: Option<AstNodeView>) -> Seq<AstNodeView> {
    match o {
        Some(v) => seq![v],
        None => seq![],
    }
}

/// The outline of the first `k` lines of `ls`.
pub open spec fn outline(lang: Lang, ls: Seq<(usize, Seq<char>)>, k: int) -> Seq<AstNodeView>
    decreases k,
{
    if k <= 0 {
        seq![]
    } else {
        outline(lang, ls, k - 1) + as_seq(node_of(lang, ls[k - 1].0, ls[k - 1].1))
    }
}

/// Outline of a source.
pub fn build(lang: Lang, src: &Src<'_>) -> (out: Vec<AstNode>)
    ensures
        node_views(out@) == outline(lang, src.lines_view(), src.lines.len() as int),
{
    let ghost ls = src.lines_view();
    let mut out: Vec<AstNode> = Vec::new();
    let mut i: usize = 0;
    while i < src.lines.len()
        invariant
            ls == src.lines_view(),
            i <= src.lines.len(),
            node_views(out@) == outline(lang, ls, i as int),
        decreases src.lines.len() - i,
    {
        let (n, line) = src.lines[i];
        proof {
            assert(ls[i as int] == (n, line@));
        }
        let node = match lang {
            Lang::Rails => rails_ast_line(n, line),
            Lang::Vue => vue_ast_line(n, line),
            Lang::Sql => sql_ast_line(n, line),
        };
        let ghost prev = node_views(out@);
        match node {
            Some(a) => {
                out.push(a);
            },
            None => {},
        }
        assert(node_views(out@) =~= prev + as_seq(node_of(lang, n, line@)));
        i = i + 1;
    }
    out
}

fn node(kind: AstKind, name: String, line: usize, depth: usize) -> (a: AstNode)
    ensures
        a@ == (AstNodeView { kind, name: name@, line, depth }),
{
    AstNode { kind, name, line, depth }
}

/// Depth of a line, with its characters and trimmed bounds.
fn depth_exec(line: &str, lc: &Vec<char>, a: usize) -> (d: usize)
    requires
        lc@ == line@,
        a <= lc.len(),
        lc@.skip(a as int) == trim_start(line@),
    ensures
        d == depth_of(line@),
{
    // Measuring the line establishes that its byte length fits in usize.
    let _bytes: usize = str_bytes(line);
    proof {
        lemma_utf8_len_take(lc@, a as int);
    }
    utf8_prefix_len(lc, a) / 2
}

/// End of the run of characters from `from` that satisfy `word_char` or
/// `name_char` (`stop_at_paren`).
fn run_end(s: &Vec<char>, from: usize, stop_at_paren: bool) -> (e: usize)
    requires
        from <= s.len(),
    ensures
        from <= e <= s.len(),
        e - from == run_len(
            s@.skip(from as int),
            if stop_at_paren {
                name_char()
            } else {
                word_char()
            },
        ),
{
    let ghost p = if stop_at_paren {
        name_char()
    } else {
        word_char()
    };
    let mut e = from;
    while e < s.len() && !is_ws_char(s[e]) && !(stop_at_paren && s[e] == '(')
        invariant
            from <= e <= s.len(),
            p == (if stop_at_paren {
                name_char()
            } else {
                word_char()
            }),
            forall|i: int| from <= i < e ==> #[trigger] p(s@[i]),
        decreases s.len() - e,
    {
        e = e + 1;
    }
    proof {
        let t = s@.skip(from as int);
        assert forall|i: int| 0 <= i < e - from implies #[trigger] p(t[i]) by {
            assert(t[i] == s@[i + from]);
        }
        if e < s.len() {
            assert(t[e - from] == s@[e as int]);
        }
        lemma_run_len(t, p, e - from);
    }
    e
}

fn rails_ast_line(n: usize, line: &str) -> (r: Option<AstNode>)
    ensures
        match r {
            Some(a) => rails_node(n, line@) == Some(a@),
            None => rails_node(n, line@) is None,
        },
{
    let lc = chars_of(line);
    let (a, b) = trim_range(&lc);
    let tc = sub_chars(&lc, a, b);
    let t = line.substring_char(a, b);
    let d = depth_exec(line, &lc, a);
    let ghost tv = trim(line@);
    proof {
        reveal_strlit("class ");
        reveal_strlit("module ");
        reveal_strlit("def ");
        reveal_strlit("?");
    }
    if has_prefix(&tc, "class ") || has_prefix(&tc, "module ") {
        let is_class = has_prefix(&tc, "class ");
        let k: usize = if is_class {
            6
        } else {
            7
        };
        let (ra, _) = trim_range(&sub_chars(&tc, k, tc.len()));
        let start = k + ra;
        let name = if start == tc.len() {
            String::from_str("?")
        } else {
            let e = run_end(&tc, start, false);
            proof {
                let rest = tv.skip(k as int);
                assert(rest.skip(ra as int) =~= tv.skip(start as int));
                assert(trim_start(rest).take((e - start) as int) =~= tv.subrange(
                    start as int,
                    e as int,
                ));
            }
            String::from_str(t.substring_char(start, e))
        };
        proof {
            let rest = tv.skip(k as int);
            assert(rest.skip(ra as int) =~= tv.skip(start as int));
        }
        let kind = if is_class {
            AstKind::Class
        } else {
            AstKind::Module
        };
        Some(node(kind, name, n, d))
    } else if has_prefix(&tc, "def ") {
        let e = run_end(&tc, 4, true);
        proof {
            assert(tv.skip(4).take((e - 4) as int) =~= tv.subrange(4, e as int));
        }
        Some(node(AstKind::Method, String::from_str(t.substring_char(4, e)), n, d))
    } else if has_text(&tc, " do |") || has_suffix(&tc, " do") {
        let k = if tc.len() < 48 {
            tc.len()
        } else {
            48
        };
        Some(node(AstKind::Block, String::from_str(t.substring_char(0, k)), n, d))
    } else {
        None
    }
}

/// The first directive `t` mentions.
fn vue_dir(t: &Vec<char>) -> (d: Option<&'static str>)
    ensures
        match d {
            Some(s) => vue_directive(t@) == Some(s@),
            None => vue_directive(t@) is None,
        },
{
    if has_text(t, "v-html") {
        Some("v-html")
    } else if has_text(t, "v-for") {
        Some("v-for")
    } else if has_text(t, "v-if") {
        Some("v-if")
    } else if has_text(t, "v-else") {
        Some("v-else")
    } else if has_text(t, "v-model") {
        Some("v-model")
    } else if has_text(t, "v-show") {
        Some("v-show")
    } else if has_text(t, "v-bind") {
        Some("v-bind")
    } else if has_text(t, "v-on") {
        Some("v-on")
    } else {
        None
    }
}

fn vue_ast_line(n: usize, line: &str) -> (r: Option<AstNode>)
    ensures
        match r {
            Some(a) => vue_node(n, line@) == Some(a@),
            None => vue_node(n, line@) is None,
        },
{
    let lc = chars_of(line);
    let (a, b) = trim_range(&lc);
    let tc = sub_chars(&lc, a, b);
    let d = depth_exec(line, &lc, a);
    if has_prefix(&tc, "<template") {
        Some(node(AstKind::Template, String::from_str("template"), n, d))
    } else if has_prefix(&tc, "<script") {
        Some(node(AstKind::Script, String::from_str("script"), n, d))
    } else if has_prefix(&tc, "<style") {
        Some(node(AstKind::Style, String::from_str("style"), n, d))
    } else {
        let dir = vue_dir(&tc);
        match dir {
            Some(s) => Some(node(AstKind::Directive, String::from_str(s), n, d)),
            None => None,
        }
    }
}

/// The trimmed line, cut to 64 characters.
fn clip(line: &str) -> (c: String)
    ensures
        c@ == clip_to(trim(line@), 64),
{
    let lc = chars_of(line);
    let (a, b) = trim_range(&lc);
    let t = line.substring_char(a, b);
    let k = if b - a < 64 {
        b - a
    } else {
        64
    };
    String::from_str(t.substring_char(0, k))
}

fn sql_ast_line(n: usize, line: &str) -> (r: Option<AstNode>)
    ensures
        match r {
            Some(a) => sql_node(n, line@) == Some(a@),
            None => sql_node(n, line@) is None,
        },
{
    let lc = chars_of(line);
    let (a, b) = trim_range(&lc);
    let tc = sub_chars(&lc, a, b);
    let u = to_upper(&tc);
    let d = depth_exec(line, &lc, a);
    if has_prefix(&u, "WITH ") {
        Some(node(AstKind::Select, String::from_str("cte"), n, d))
    } else if has_prefix(&u, "SELECT") {
        Some(node(AstKind::Select, String::from_str("select"), n, d))
    } else if has_prefix(&u, "FROM") {
        Some(node(AstKind::From, clip(line), n, d))
    } else if has_text(&u, " JOIN ") || has_prefix(&u, "JOIN ") {
        Some(node(AstKind::Join, clip(line), n, d))
    } else if has_prefix(&u, "WHERE") {
        Some(node(AstKind::Where, clip(line), n, d))
    } else if has_prefix(&u, "DELETE") || has_prefix(&u, "UPDATE") || has_prefix(&u, "INSERT") {
        Some(node(AstKind::Dml, clip(line), n, d))
    } else {
        None
    }
}

/// A node that some line among the first `k` opens stands in the outline.
proof fn lemma_outline_has(lang: Lang, ls: Seq<(usize, Seq<char>)>, k: int, i: int, x: AstNodeView)
    requires
        0 <= i < k <= ls.len(),
        node_of(lang, ls[i].0, ls[i].1) == Some(x),
    ensures
        outline(lang, ls, k).contains(x),
    decreases k,
{
    let prev = outline(lang, ls, k - 1);
    let o = outline(lang, ls, k);
    assert(o == prev + as_seq(node_of(lang, ls[k - 1].0, ls[k - 1].1)));
    if i < k - 1 {
        lemma_outline_has(lang, ls, k - 1, i, x);
        let j = choose|j: int| 0 <= j < prev.len() && prev[j] == x;
        assert(o[j] == x);
    } else {
        assert(o[prev.len() as int] == x);
    }
}

/// Law: in a Vue outline, each section opens a node of its own kind: a line
/// whose trimmed text starts with `<template`, `<script` or `<style` gives a
/// `Template` node named "template", a `Script` node named "script" or a
/// `Style` node named "style", at that line and its depth.
pub proof fn law_vue_sections_in_outline(ls: Seq<(usize, Seq<char>)>, k: int, i: int)
    requires
        0 <= i < k <= ls.len(),
    ensures
        starts_with(trim(ls[i].1), "<template"@) ==> outline(Lang::Vue, ls, k).contains(
            AstNodeView { kind: AstKind::Template, name: "template"@, line: ls[i].0, depth: depth_of(ls[i].1) },
        ),
        starts_with(trim(ls[i].1), "<script"@) ==> outline(Lang::Vue, ls, k).contains(
            AstNodeView { kind: AstKind::Script, name: "script"@, line: ls[i].0, depth: depth_of(ls[i].1) },
        ),
        starts_with(trim(ls[i].1), "<style"@) ==> outline(Lang::Vue, ls, k).contains(
            AstNodeView { kind: AstKind::Style, name: "style"@, line: ls[i].0, depth: depth_of(ls[i].1) },
        ),
{
    reveal_strlit("<template");
    reveal_strlit("<script");
    reveal_strlit("<style");
    let (n, line) = ls[i];
    let t = trim(line);
    let d = depth_of(line);
    if starts_with(t, "<template"@) {
        lemma_outline_has(Lang::Vue, ls, k, i, AstNodeView { kind: AstKind::Template, name: "template"@, line: n, depth: d });
    }
    if starts_with(t, "<script"@) {
        if starts_with(t, "<template"@) {
            assert(t.take(7)[1] == 's' && t.take(9)[1] == 't');
        }
        lemma_outline_has(Lang::Vue, ls, k, i, AstNodeView { kind: AstKind::Script, name: "script"@, line: n, depth: d });
    }
    if starts_with(t, "<style"@) {
        if starts_with(t, "<template"@) {
            assert(t.take(6)[1] == 's' && t.take(9)[1] == 't');
        }
        if starts_with(t, "<script"@) {
            assert(t.take(6)[2] == 't' && t.take(7)[2] == 'c');
        }
        lemma_outline_has(Lang::Vue, ls, k, i, AstNodeView { kind: AstKind::Style, name: "style"@, line: n, depth: d });
    }
}

proof fn lemma_prefix_char(s: Seq<char>, p: Seq<char>, k: int)
    requires
        starts_with(s, p),
        0 <= k < p.len(),
    ensures
        s[k] == p[k],
{
    assert(s.take(p.len() as int)[k] == s[k]);
}

/// Law: in a Ruby outline, `class X`, `module X` and `def x` lines open a
/// class, module and method node named by the word that follows, and any
/// other line with a ` do |` or ending in ` do` opens a block node named by
/// its first 48 characters, each at its line and depth.
pub proof fn law_rails_outline_nodes(ls: Seq<(usize, Seq<char>)>, k: int, i: int)
    requires
        0 <= i < k <= ls.len(),
    ensures
        ({
            let t = trim(ls[i].1);
            starts_with(t, "class "@) ==> outline(Lang::Rails, ls, k).contains(
                AstNodeView { kind: AstKind::Class, name: first_word(t.skip(6)), line: ls[i].0, depth: depth_of(ls[i].1) },
            )
        }),
        ({
            let t = trim(ls[i].1);
            starts_with(t, "module "@) ==> outline(Lang::Rails, ls, k).contains(
                AstNodeView { kind: AstKind::Module, name: first_word(t.skip(7)), line: ls[i].0, depth: depth_of(ls[i].1) },
            )
        }),
        ({
            let t = trim(ls[i].1);
            starts_with(t, "def "@) ==> outline(Lang::Rails, ls, k).contains(
                AstNodeView { kind: AstKind::Method, name: method_name(t.skip(4)), line: ls[i].0, depth: depth_of(ls[i].1) },
            )
        }),
        ({
            let t = trim(ls[i].1);
            (contains(t, " do |"@) || ends_with(t, " do"@)) && !starts_with(t, "class "@)
                && !starts_with(t, "module "@) && !starts_with(t, "def "@) ==> outline(
                Lang::Rails,
                ls,
                k,
            ).contains(
                AstNodeView { kind: AstKind::Block, name: clip_to(t, 48), line: ls[i].0, depth: depth_of(ls[i].1) },
            )
        }),
{
    reveal_strlit("class ");
    reveal_strlit("module ");
    reveal_strlit("def ");
    let (n, line) = ls[i];
    let t = trim(line);
    let d = depth_of(line);
    if starts_with(t, "class "@) || starts_with(t, "module "@) || starts_with(t, "def "@) {
        if starts_with(t, "class "@) {
            lemma_prefix_char(t, "class "@, 0);
        } else if starts_with(t, "module "@) {
            lemma_prefix_char(t, "module "@, 0);
        } else {
            lemma_prefix_char(t, "def "@, 0);
        }
    }
    match rails_node(n, line) {
        Some(x) => lemma_outline_has(Lang::Rails, ls, k, i, x),
        None => {},
    }
}

/// Law: in an SQL outline, a line (trimmed, uppercased) that starts with
/// `WITH ` opens a select node named "cte", one that starts with `SELECT` a
/// select node named "select"; one that starts with `FROM` a from node, one
/// with a JOIN (and no WITH, SELECT or FROM start) a join node, one that
/// starts with `WHERE` a where node and one that starts with DELETE, UPDATE
/// or INSERT a DML node (both with no JOIN), each named by the first 64
/// characters of the trimmed line, at its line and depth.
pub proof fn law_sql_outline_nodes(ls: Seq<(usize, Seq<char>)>, k: int, i: int)
    requires
        0 <= i < k <= ls.len(),
    ensures
        ({
            let u = upper(trim(ls[i].1));
            starts_with(u, "WITH "@) ==> outline(Lang::Sql, ls, k).contains(
                AstNodeView { kind: AstKind::Select, name: "cte"@, line: ls[i].0, depth: depth_of(ls[i].1) },
            )
        }),
        ({
            let u = upper(trim(ls[i].1));
            starts_with(u, "SELECT"@) ==> outline(Lang::Sql, ls, k).contains(
                AstNodeView { kind: AstKind::Select, name: "select"@, line: ls[i].0, depth: depth_of(ls[i].1) },
            )
        }),
        ({
            let u = upper(trim(ls[i].1));
            starts_with(u, "FROM"@) ==> outline(Lang::Sql, ls, k).contains(
                AstNodeView { kind: AstKind::From, name: clip_to(trim(ls[i].1), 64), line: ls[i].0, depth: depth_of(ls[i].1) },
            )
        }),
        ({
            let u = upper(trim(ls[i].1));
            (contains(u, " JOIN "@) || starts_with(u, "JOIN "@)) && !starts_with(u, "WITH "@)
                && !starts_with(u, "SELECT"@) && !starts_with(u, "FROM"@) ==> outline(
                Lang::Sql,
                ls,
                k,
            ).contains(
                AstNodeView { kind: AstKind::Join, name: clip_to(trim(ls[i].1), 64), line: ls[i].0, depth: depth_of(ls[i].1) },
            )
        }),
        ({
            let u = upper(trim(ls[i].1));
            starts_with(u, "WHERE"@) && !contains(u, " JOIN "@) ==> outline(Lang::Sql, ls, k).contains(
                AstNodeView { kind: AstKind::Where, name: clip_to(trim(ls[i].1), 64), line: ls[i].0, depth: depth_of(ls[i].1) },
            )
        }),
        ({
            let u = upper(trim(ls[i].1));
            (starts_with(u, "DELETE"@) || starts_with(u, "UPDATE"@) || starts_with(u, "INSERT"@))
                && !contains(u, " JOIN "@) ==> outline(Lang::Sql, ls, k).contains(
                AstNodeView { kind: AstKind::Dml, name: clip_to(trim(ls[i].1), 64), line: ls[i].0, depth: depth_of(ls[i].1) },
            )
        }),
{
    reveal_strlit("WITH ");
    reveal_strlit("SELECT");
    reveal_strlit("FROM");
    reveal_strlit("JOIN ");
    reveal_strlit("WHERE");
    reveal_strlit("DELETE");
    reveal_strlit("UPDATE");
    reveal_strlit("INSERT");
    let (n, line) = ls[i];
    let u = upper(trim(line));
    if u.len() > 0 {
        if starts_with(u, "WITH "@) {
            lemma_prefix_char(u, "WITH "@, 0);
            lemma_prefix_char(u, "WITH "@, 1);
        }
        if starts_with(u, "SELECT"@) {
            lemma_prefix_char(u, "SELECT"@, 0);
        }
        if starts_with(u, "FROM"@) {
            lemma_prefix_char(u, "FROM"@, 0);
        }
        if starts_with(u, "JOIN "@) {
            lemma_prefix_char(u, "JOIN "@, 0);
        }
        if starts_with(u, "WHERE"@) {
            lemma_prefix_char(u, "WHERE"@, 0);
            lemma_prefix_char(u, "WHERE"@, 1);
        }
        if starts_with(u, "DELETE"@) {
            lemma_prefix_char(u, "DELETE"@, 0);
        }
        if starts_with(u, "UPDATE"@) {
            lemma_prefix_char(u, "UPDATE"@, 0);
        }
        if starts_with(u, "INSERT"@) {
            lemma_prefix_char(u, "INSERT"@, 0);
        }
    }
    match sql_node(n, line) {
        Some(x) => lemma_outline_has(Lang::Sql, ls, k, i, x),
        None => {},
    }
}

/// Law: in a Vue outline, a line that opens no section but uses a
/// directive opens a directive node named by the first of `v-html`,
/// `v-for`, `v-if`, `v-else`, `v-model`, `v-show`, `v-bind`, `v-on` that it
/// mentions, at its line and depth.
pub proof fn law_vue_directives_in_outline(ls: Seq<(usize, Seq<char>)>, k: int, i: int)
    requires
        0 <= i < k <= ls.len(),
    ensures
        ({
            let t = trim(ls[i].1);
            !starts_with(t, "<template"@) && !starts_with(t, "<script"@) && !starts_with(t, "<style"@)
                && contains(t, "v-html"@) ==> outline(Lang::Vue, ls, k).contains(
                AstNodeView { kind: AstKind::Directive, name: "v-html"@, line: ls[i].0, depth: depth_of(ls[i].1) },
            )
        }),
        ({
            let t = trim(ls[i].1);
            !starts_with(t, "<template"@) && !starts_with(t, "<script"@) && !starts_with(t, "<style"@)
                && contains(t, "v-for"@) && !contains(t, "v-html"@) ==> outline(Lang::Vue, ls, k).contains(
                AstNodeView { kind: AstKind::Directive, name: "v-for"@, line: ls[i].0, depth: depth_of(ls[i].1) },
            )
        }),
        ({
            let t = trim(ls[i].1);
            !starts_with(t, "<template"@) && !starts_with(t, "<script"@) && !starts_with(t, "<style"@)
                && contains(t, "v-if"@) && !contains(t, "v-html"@) && !contains(t, "v-for"@) ==> outline(Lang::Vue, ls, k).contains(
                AstNodeView { kind: AstKind::Directive, name: "v-if"@, line: ls[i].0, depth: depth_of(ls[i].1) },
            )
        }),
        ({
            let t = trim(ls[i].1);
            !starts_with(t, "<template"@) && !starts_with(t, "<script"@) && !starts_with(t, "<style"@)
                && contains(t, "v-else"@) && !contains(t, "v-html"@) && !contains(t, "v-for"@) && !contains(t, "v-if"@) ==> outline(Lang::Vue, ls, k).contains(
                AstNodeView { kind: AstKind::Directive, name: "v-else"@, line: ls[i].0, depth: depth_of(ls[i].1) },
            )
        }),
        ({
            let t = trim(ls[i].1);
            !starts_with(t, "<template"@) && !starts_with(t, "<script"@) && !starts_with(t, "<style"@)
                && contains(t, "v-model"@) && !contains(t, "v-html"@) && !contains(t, "v-for"@) && !contains(t, "v-if"@) && !contains(t, "v-else"@) ==> outline(Lang::Vue, ls, k).contains(
                AstNodeView { kind: AstKind::Directive, name: "v-model"@, line: ls[i].0, depth: depth_of(ls[i].1) },
            )
        }),
        ({
            let t = trim(ls[i].1);
            !starts_with(t, "<template"@) && !starts_with(t, "<script"@) && !starts_with(t, "<style"@)
                && contains(t, "v-show"@) && !contains(t, "v-html"@) && !contains(t, "v-for"@) && !contains(t, "v-if"@) && !contains(t, "v-else"@) && !contains(t, "v-model"@) ==> outline(Lang::Vue, ls, k).contains(
                AstNodeView { kind: AstKind::Directive, name: "v-show"@, line: ls[i].0, depth: depth_of(ls[i].1) },
            )
        }),
        ({
            let t = trim(ls[i].1);
            !starts_with(t, "<template"@) && !starts_with(t, "<script"@) && !starts_with(t, "<style"@)
                && contains(t, "v-bind"@) && !contains(t, "v-html"@) && !contains(t, "v-for"@) && !contains(t, "v-if"@) && !contains(t, "v-else"@) && !contains(t, "v-model"@) && !contains(t, "v-show"@) ==> outline(Lang::Vue, ls, k).contains(
                AstNodeView { kind: AstKind::Directive, name: "v-bind"@, line: ls[i].0, depth: depth_of(ls[i].1) },
            )
        }),
        ({
            let t = trim(ls[i].1);
            !starts_with(t, "<template"@) && !starts_with(t, "<script"@) && !starts_with(t, "<style"@)
                && contains(t, "v-on"@) && !contains(t, "v-html"@) && !contains(t, "v-for"@) && !contains(t, "v-if"@) && !contains(t, "v-else"@) && !contains(t, "v-model"@) && !contains(t, "v-show"@) && !contains(t, "v-bind"@) ==> outline(Lang::Vue, ls, k).contains(
                AstNodeView { kind: AstKind::Directive, name: "v-on"@, line: ls[i].0, depth: depth_of(ls[i].1) },
            )
        }),
{
    match vue_node(ls[i].0, ls[i].1) {
        Some(x) => lemma_outline_has(Lang::Vue, ls, k, i, x),
        None => {},
    }
}

} // verus!
