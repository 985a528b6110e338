use deslop::{analyze, Lang};

fn ids(lang: Lang, src: &str) -> Vec<String> {
    analyze(lang, src).findings.iter().map(|f| f.id.clone()).collect()
}

#[test]
fn vue_rules_one_by_one() {
    assert_eq!(ids(Lang::Vue, "watch: { x: { deep: true } }"), vec!["vue.deep_watch"]);
    assert_eq!(ids(Lang::Vue, "eval(code)"), vec!["vue.eval"]);
    assert_eq!(ids(Lang::Vue, "document.write(x)"), vec!["vue.doc_write"]);
    assert_eq!(ids(Lang::Vue, "<input v-model=\"props.name\">"), vec!["vue.vmodel_prop"]);
    assert_eq!(ids(Lang::Vue, "this.$root.bus"), vec!["vue.root"]);
    assert_eq!(ids(Lang::Vue, "this.$parent.x"), vec!["vue.parent"]);
    assert_eq!(ids(Lang::Vue, "// just in case"), vec!["vue.speculative"]);
}

#[test]
fn rails_rules_one_by_one() {
    assert_eq!(ids(Lang::Rails, "<%= raw(@html) %>"), vec!["rails.html_safe"]);
    assert_eq!(ids(Lang::Rails, "instance_eval(code)"), vec!["rails.eval"]);
    assert_eq!(ids(Lang::Rails, "obj.send(params[:m])"), vec!["rails.send_params"]);
    assert_eq!(ids(Lang::Rails, "redirect_to params[:url]"), vec!["rails.open_redirect"]);
    assert_eq!(ids(Lang::Rails, "Load.where(\"id = #{params[:id]}\")"), vec!["rails.sql_interp"]);
    assert_eq!(ids(Lang::Rails, "default_scope { order(:id) }"), vec!["rails.default_scope"]);
    assert_eq!(ids(Lang::Rails, "User.find(params[:id])"), vec!["rails.direct_find"]);
    assert_eq!(ids(Lang::Rails, "rescue Exception => e"), vec!["rails.swallow"]);
    assert_eq!(ids(Lang::Rails, "after_commit { HTTParty.post(url) }"), vec!["rails.callback_io"]);
}

#[test]
fn sql_rules_one_by_one() {
    assert_eq!(ids(Lang::Sql, "SELECT * FROM t LIMIT 1;"), vec!["sql.select_star"]);
    assert_eq!(ids(Lang::Sql, "SELECT id FROM t WHERE name LIKE '%x';"), vec!["sql.leading_wildcard"]);
    assert_eq!(ids(Lang::Sql, "SELECT id FROM t WHERE id NOT IN (1, 2);"), vec!["sql.not_in"]);
    assert_eq!(
        ids(Lang::Sql, "query = 'SELECT id FROM t WHERE id = ' + id"),
        vec!["sql.string_concat"]
    );
    assert_eq!(ids(Lang::Sql, "SELECT id FROM t ORDER BY RANDOM() LIMIT 1;"), vec!["sql.order_random"]);
}
