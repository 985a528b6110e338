use deslop::{analyze, Lang};

#[test]
fn rails_n_plus_one_and_permit_bang() {
    let src = r#"
class LoadsController < ApplicationController
  skip_before_action :authenticate_user!
  def index
    Load.all.each do |load|
      load.carrier.name
      load.stops.first
    end
    User.find(params[:id])
    params.permit!
    render json: Load.all
  end
end
"#;
    let r = analyze(Lang::Rails, src);
    let ids: Vec<_> = r.findings.iter().map(|f| f.id.as_str()).collect();
    assert!(ids.contains(&"rails.n_plus_one"), "{ids:?}");
    assert!(ids.contains(&"rails.permit_bang"), "{ids:?}");
    assert!(ids.contains(&"rails.skip_auth"), "{ids:?}");
    assert!(ids.contains(&"rails.render_all"), "{ids:?}");
    assert!(r.score.deslop < 80);
}

#[test]
fn vue_vhtml_and_vfor_key() {
    let src = r#"
<template>
  <div v-for="item in items" @click="onClick">
    <span v-html="item.body"></span>
  </div>
</template>
<script>
export default {
  props: ['items'],
  created() { this.items.push({}) },
  methods: {
    onClick() { this.$parent.reload() }
  }
}
</script>
"#;
    let r = analyze(Lang::Vue, src);
    let ids: Vec<_> = r.findings.iter().map(|f| f.id.as_str()).collect();
    assert!(ids.contains(&"vue.v_html"), "{ids:?}");
    assert!(ids.contains(&"vue.vfor_no_key"), "{ids:?}");
    assert!(ids.contains(&"vue.mutate_prop"), "{ids:?}");
    assert!(ids.contains(&"vue.parent"), "{ids:?}");
}

#[test]
fn sql_select_star_and_unbounded_delete() {
    let src = r#"
SELECT * FROM loads l, carriers c
WHERE LOWER(l.mc_number) = '123456'
   OR 1=1;
DELETE FROM audit_events;
UPDATE loads SET status = 'void';
"#;
    let r = analyze(Lang::Sql, src);
    let ids: Vec<_> = r.findings.iter().map(|f| f.id.as_str()).collect();
    assert!(ids.contains(&"sql.select_star"), "{ids:?}");
    assert!(ids.contains(&"sql.comma_join"), "{ids:?}");
    assert!(ids.contains(&"sql.fn_on_column"), "{ids:?}");
    assert!(ids.contains(&"sql.tautology"), "{ids:?}");
    assert!(ids.contains(&"sql.unbounded_delete"), "{ids:?}");
    assert!(ids.contains(&"sql.unbounded_update"), "{ids:?}");
    assert!(r.score.deslop < 50);
}

#[test]
fn clean_sql_scores_high() {
    let src = r#"
SELECT l.id, l.pro_number, c.legal_name
FROM loads l
INNER JOIN carriers c ON c.id = l.carrier_id
WHERE l.id = $1
  AND l.deleted_at IS NULL
LIMIT 1;
"#;
    let r = analyze(Lang::Sql, src);
    assert!(r.findings.is_empty(), "{:?}", r.findings);
    assert!(r.score.deslop >= 90);
}
