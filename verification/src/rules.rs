//! The catalogue of rules: for each, the finding id, its gate and severity,
//! and the why / fix / math texts that a finding carries.
use vstd::prelude::*;

use crate::score::{Gate, Severity};
use crate::{hit, hit_view, Finding, FindingView};

verus! {

/// One rule of the catalogue.
#[derive(Clone, Copy, Debug, PartialEq, Eq, Structural)]
pub enum Rule {
    RailsPermitBang,
    RailsSkipAuth,
    RailsHtmlSafe,
    RailsEval,
    RailsSendParams,
    RailsOpenRedirect,
    RailsSqlInterp,
    RailsUnscopedWrite,
    RailsDefaultScope,
    RailsRenderAll,
    RailsDirectFind,
    RailsSwallow,
    RailsCallbackIo,
    RailsSpeculative,
    RailsSaveSilent,
    RailsUserSpoof,
    RailsNPlusOne,
    VueVHtml,
    VueInnerhtml,
    VueVforNoKey,
    VueVforVif,
    VueParent,
    VueRoot,
    VueMutateProp,
    VueDeepWatch,
    VueEval,
    VueDocWrite,
    VueVmodelProp,
    VueSecretStorage,
    VueAsAny,
    VueSpeculative,
    SqlSelectStar,
    SqlCommaJoin,
    SqlTautology,
    SqlFnOnColumn,
    SqlLeadingWildcard,
    SqlNotIn,
    SqlUnboundedDelete,
    SqlUnboundedUpdate,
    SqlStringConcat,
    SqlDeepOffset,
    SqlOrderRandom,
    SqlForUpdate,
    SqlUnboundedDeleteStmt,
    SqlUnboundedUpdateStmt,
}

pub const RAILS_PERMIT_BANG_ID: &'static str = "rails.permit_bang";
pub const RAILS_PERMIT_BANG_WHY: &'static str = "params.permit! is an untyped hole through strong parameters. Mass assignment with extra keys is how user_id, admin, balance get written.";
pub const RAILS_PERMIT_BANG_FIX: &'static str = "Permit an explicit allowlist: params.require(:load).permit(:pro_number, :weight_lbs).";
pub const RAILS_PERMIT_BANG_MATH: &'static str = "Let K = attacker-controlled keys. permit! ⇒ |writable| = |K|. allowlist A ⇒ |writable ∩ K| ≤ |A|.";

pub const RAILS_SKIP_AUTH_ID: &'static str = "rails.skip_auth";
pub const RAILS_SKIP_AUTH_WHY: &'static str = "Auth filter skipped. An unauthenticated index is not a feature unless you can name the public contract and the audit trail.";
pub const RAILS_SKIP_AUTH_FIX: &'static str = "Keep the filter. If a single action is public, skip only that action and add a request spec that 401s the rest.";
pub const RAILS_SKIP_AUTH_MATH: &'static str = "Auth is a pre-condition P. skip_before_action ¬P for the action. Goal-driven: write the 401 example first.";

pub const RAILS_HTML_SAFE_ID: &'static str = "rails.html_safe";
pub const RAILS_HTML_SAFE_WHY: &'static str = "html_safe/raw marks attacker bytes as trusted HTML. XSS is not a styling issue.";
pub const RAILS_HTML_SAFE_FIX: &'static str = "Use sanitize or a template that auto-escapes. If you must emit HTML, allowlist tags and write a request spec with a payload.";
pub const RAILS_HTML_SAFE_MATH: &'static str = "Escape is the identity e(s) such that browser(e(s)) has no extra nodes. html_safe is e⁻¹ of a lie.";

pub const RAILS_EVAL_ID: &'static str = "rails.eval";
pub const RAILS_EVAL_WHY: &'static str = "eval on a request path is remote code execution wearing a costume.";
pub const RAILS_EVAL_FIX: &'static str = "Delete it. Use a case statement, a registry hash, or constantize against an allowlist.";
pub const RAILS_EVAL_MATH: &'static str = "eval : String → ⊥. There is no type for 'whatever the user typed'.";

pub const RAILS_SEND_PARAMS_ID: &'static str = "rails.send_params";
pub const RAILS_SEND_PARAMS_WHY: &'static str = "Dispatching a method/class from params is an open call gate. constantize without allowlist is RCE-adjacent.";
pub const RAILS_SEND_PARAMS_FIX: &'static str = "Map params[:type] through a frozen hash of permitted constants.";
pub const RAILS_SEND_PARAMS_MATH: &'static str = "Let M be the method table. send(params) = M[attacker]. Allowlist L ⊂ M.";

pub const RAILS_OPEN_REDIRECT_ID: &'static str = "rails.open_redirect";
pub const RAILS_OPEN_REDIRECT_WHY: &'static str = "redirect_to params[:x] is an open redirect. Phish the session through your own 302.";
pub const RAILS_OPEN_REDIRECT_FIX: &'static str = "Redirect to a named route or allowlist of paths. Never a raw user URL.";
pub const RAILS_OPEN_REDIRECT_MATH: &'static str = "Location header is an output channel. User input must not choose the host.";

pub const RAILS_SQL_INTERP_ID: &'static str = "rails.sql_interp";
pub const RAILS_SQL_INTERP_WHY: &'static str = "String-interpolated SQL. This is injection, not 'dynamic where'.";
pub const RAILS_SQL_INTERP_FIX: &'static str = "Use where(col: value), Arel, or bind placeholders: where('mc = ?', params[:mc]).";
pub const RAILS_SQL_INTERP_MATH: &'static str = "SQL grammar composed with attacker strings is a parser injection. Bindings keep data out of the grammar.";

pub const RAILS_UNSCOPED_WRITE_ID: &'static str = "rails.unscoped_write";
pub const RAILS_UNSCOPED_WRITE_WHY: &'static str = "Unscoped bulk write. Relation#update_all on a wide scope is a production incident.";
pub const RAILS_UNSCOPED_WRITE_FIX: &'static str = "Chain an explicit where with a bounded id set. Wrap in a transaction. Spec the row count.";
pub const RAILS_UNSCOPED_WRITE_MATH: &'static str = "UPDATE without a selective predicate has selectivity 1. Cost = |table|.";

pub const RAILS_DEFAULT_SCOPE_ID: &'static str = "rails.default_scope";
pub const RAILS_DEFAULT_SCOPE_WHY: &'static str = "default_scope is a silent WHERE that leaks into joins, counts, and unsuspecting associations.";
pub const RAILS_DEFAULT_SCOPE_FIX: &'static str = "Use an explicit named scope. Query objects take a relation and return a relation.";
pub const RAILS_DEFAULT_SCOPE_MATH: &'static str = "Hidden predicates violate referential transparency. r.to_sql must equal what the caller thinks it is.";

pub const RAILS_RENDER_ALL_ID: &'static str = "rails.render_all";
pub const RAILS_RENDER_ALL_WHY: &'static str = "Serializing Model.all dumps the table, including columns you forgot existed.";
pub const RAILS_RENDER_ALL_FIX: &'static str = "Paginate. Use a Blueprinter/Alba/Jbuilder with an allowlisted field set.";
pub const RAILS_RENDER_ALL_MATH: &'static str = "Response size ~ |rows| × |columns|. That is not an API, that is a backup.";

pub const RAILS_DIRECT_FIND_ID: &'static str = "rails.direct_find";
pub const RAILS_DIRECT_FIND_WHY: &'static str = "Direct find from params without an authorization predicate. IDOR lives here.";
pub const RAILS_DIRECT_FIND_FIX: &'static str = "Scope by current_user / org: current_user.loads.find(params[:id]). Pundit/policy on top.";
pub const RAILS_DIRECT_FIND_MATH: &'static str = "Authorization is a predicate A(user, resource). find(id) is ∃row, not A.";

pub const RAILS_SWALLOW_ID: &'static str = "rails.swallow";
pub const RAILS_SWALLOW_WHY: &'static str = "Broad rescue. Errors are evidence. Swallowing them is how you ship a 200 that lied.";
pub const RAILS_SWALLOW_FIX: &'static str = "Rescue the specific class. Re-raise unknown. Log with request id.";
pub const RAILS_SWALLOW_MATH: &'static str = "A catch-all maps every failure to silence. That destroys the test oracle.";

pub const RAILS_CALLBACK_IO_ID: &'static str = "rails.callback_io";
pub const RAILS_CALLBACK_IO_WHY: &'static str = "HTTP inside an ActiveRecord callback. Transactions plus network is how you deadlock and double-charge.";
pub const RAILS_CALLBACK_IO_FIX: &'static str = "Enqueue a job after_commit. The callback stays a state transition, not an RPC.";
pub const RAILS_CALLBACK_IO_MATH: &'static str = "Callbacks must be O(memory). I/O belongs on an at-least-once worker with idempotency keys.";

pub const RAILS_SPECULATIVE_ID: &'static str = "rails.speculative";
pub const RAILS_SPECULATIVE_WHY: &'static str = "Speculative comment or 'flexibility' flag. Karpathy gate 2: nothing that was not asked.";
pub const RAILS_SPECULATIVE_FIX: &'static str = "Delete the branch. If the requirement exists, it has a test, not a comment.";
pub const RAILS_SPECULATIVE_MATH: &'static str = "Speculative code has expected value ≈ 0 and carry cost > 0.";

pub const RAILS_SAVE_SILENT_ID: &'static str = "rails.save_silent";
pub const RAILS_SAVE_SILENT_WHY: &'static str = "save (no bang) returns false on validation failure. Ignoring it is a silent no-op that looks like success.";
pub const RAILS_SAVE_SILENT_FIX: &'static str = "Use save! / update! or branch on the boolean and render errors.";
pub const RAILS_SAVE_SILENT_MATH: &'static str = "Goal: persistence occurred. Oracle: bang or explicit false-path test.";

pub const RAILS_USER_SPOOF_ID: &'static str = "rails.user_spoof";
pub const RAILS_USER_SPOOF_WHY: &'static str = "current_user derived from params. The client does not get to choose who they are.";
pub const RAILS_USER_SPOOF_FIX: &'static str = "current_user comes from the session/Warden. Period.";
pub const RAILS_USER_SPOOF_MATH: &'static str = "Identity is a server-side fact. Client input is a claim, not a credential.";

pub const RAILS_N_PLUS_ONE_ID: &'static str = "rails.n_plus_one";
pub const RAILS_N_PLUS_ONE_WHY: &'static str = "Association access inside a loop with no includes/preload. Classic N+1: 1 + N queries, linear in page size, quadratic under nested assoc.";
pub const RAILS_N_PLUS_ONE_FIX: &'static str = "Load.includes(:carrier, :stops).find_each. Assert query count in a test (assert_queries / prosopite).";
pub const RAILS_N_PLUS_ONE_MATH: &'static str = "Cost ≈ 1 + N·k queries. With includes: 1 + k. Goal-driven: write the query-count assertion first.";

pub const VUE_V_HTML_ID: &'static str = "vue.v_html";
pub const VUE_V_HTML_WHY: &'static str = "v-html injects raw HTML. If the string ever touched a user, you just bought XSS.";
pub const VUE_V_HTML_FIX: &'static str = "Render text. If you must render HTML, sanitize with DOMPurify and a tag allowlist, then add a unit test with <img onerror>.";
pub const VUE_V_HTML_MATH: &'static str = "v-html : String → DOM. That morphism is unsafe unless the domain is already a sanitized AST.";

pub const VUE_INNERHTML_ID: &'static str = "vue.innerhtml";
pub const VUE_INNERHTML_WHY: &'static str = "innerHTML is v-html with extra steps. Same XSS, worse taste.";
pub const VUE_INNERHTML_FIX: &'static str = "textContent or a Vue text binding.";
pub const VUE_INNERHTML_MATH: &'static str = "The HTML parser is not your friend. Do not feed it attacker strings.";

pub const VUE_VFOR_NO_KEY_ID: &'static str = "vue.vfor_no_key";
pub const VUE_VFOR_NO_KEY_WHY: &'static str = "v-for without key. Vue reuses DOM nodes by position. You will patch the wrong row after a splice.";
pub const VUE_VFOR_NO_KEY_FIX: &'static str = "v-for=\"item in items\" :key=\"item.id\". Never the index unless the list is static and append-only.";
pub const VUE_VFOR_NO_KEY_MATH: &'static str = "Reconciliation is a matching problem. Index keys make identity = position, which is false after permutation.";

pub const VUE_VFOR_VIF_ID: &'static str = "vue.vfor_vif";
pub const VUE_VFOR_VIF_WHY: &'static str = "v-if and v-for on the same node. Priority is version-dependent. Readers will guess wrong.";
pub const VUE_VFOR_VIF_FIX: &'static str = "Wrap: template v-for + inner node v-if, or computed filtered list.";
pub const VUE_VFOR_VIF_MATH: &'static str = "Two directives, one node, undefined composition. Split the morphisms.";

pub const VUE_PARENT_ID: &'static str = "vue.parent";
pub const VUE_PARENT_WHY: &'static str = "$parent reaches out of the component. Surgical changes become archaeology.";
pub const VUE_PARENT_FIX: &'static str = "Emit an event, provide/inject with a named contract, or lift state.";
pub const VUE_PARENT_MATH: &'static str = "Coupling C = edges crossing the component boundary. $parent adds an implicit edge to an unnamed type.";

pub const VUE_ROOT_ID: &'static str = "vue.root";
pub const VUE_ROOT_WHY: &'static str = "$root is a global mutable bag. You have reinvented a worse Redux.";
pub const VUE_ROOT_FIX: &'static str = "Pinia/store with typed actions. One write path.";
pub const VUE_ROOT_MATH: &'static str = "Globals destroy locality. Complexity is not the number of files, it is the number of unseen writers.";

pub const VUE_MUTATE_PROP_ID: &'static str = "vue.mutate_prop";
pub const VUE_MUTATE_PROP_WHY: &'static str = "Mutating a prop. Data flows down. You just created a two-way leak that Vue will warn about and then honor anyway.";
pub const VUE_MUTATE_PROP_FIX: &'static str = "Emit update:modelValue or copy into local ref on setup.";
pub const VUE_MUTATE_PROP_MATH: &'static str = "Props are read-only by contract. Mutation is an illegal write to the parent's state.";

pub const VUE_DEEP_WATCH_ID: &'static str = "vue.deep_watch";
pub const VUE_DEEP_WATCH_WHY: &'static str = "deep:true watch on a large object is O(graph) every tick. You will not notice until a table of 2k rows.";
pub const VUE_DEEP_WATCH_FIX: &'static str = "Watch a primitive or a computed scalar. If you need structural diff, do it explicitly.";
pub const VUE_DEEP_WATCH_MATH: &'static str = "Deep watch cost ≈ |nodes| per reactive flush. That is not free.";

pub const VUE_EVAL_ID: &'static str = "vue.eval";
pub const VUE_EVAL_WHY: &'static str = "eval in a component is RCE if any input reaches it.";
pub const VUE_EVAL_FIX: &'static str = "Delete it.";
pub const VUE_EVAL_MATH: &'static str = "eval : String → ⊥.";

pub const VUE_DOC_WRITE_ID: &'static str = "vue.doc_write";
pub const VUE_DOC_WRITE_WHY: &'static str = "document.write after load blows away the document. 1998 called.";
pub const VUE_DOC_WRITE_FIX: &'static str = "Delete it. Update a ref.";
pub const VUE_DOC_WRITE_MATH: &'static str = "document.write is a total function on the DOM identity. You do not want that.";

pub const VUE_VMODEL_PROP_ID: &'static str = "vue.vmodel_prop";
pub const VUE_VMODEL_PROP_WHY: &'static str = "v-model on a prop field. Same as mutating props, with nicer syntax.";
pub const VUE_VMODEL_PROP_FIX: &'static str = "Use a computed get/set that emits.";
pub const VUE_VMODEL_PROP_MATH: &'static str = "v-model is syntactic sugar for write. Writes need an event, not a prop assignment.";

pub const VUE_SECRET_STORAGE_ID: &'static str = "vue.secret_storage";
pub const VUE_SECRET_STORAGE_WHY: &'static str = "Secrets in localStorage are readable by any XSS on the origin. That is not storage, that is a drop box.";
pub const VUE_SECRET_STORAGE_FIX: &'static str = "HttpOnly cookie or memory + refresh. Never a bearer token in localStorage.";
pub const VUE_SECRET_STORAGE_MATH: &'static str = "XSS ⇒ origin-principal. localStorage ⊂ origin. Therefore XSS ⇒ token.";

pub const VUE_AS_ANY_ID: &'static str = "vue.as_any";
pub const VUE_AS_ANY_WHY: &'static str = "`as any` is a type-system skip_before_action. You opted out of the compiler.";
pub const VUE_AS_ANY_FIX: &'static str = "Type the object. If you cannot, you do not understand it yet — stop coding.";
pub const VUE_AS_ANY_MATH: &'static str = "any is the top type. Every check is vacuously true. Goal-driven: the type is the spec.";

pub const VUE_SPECULATIVE_ID: &'static str = "vue.speculative";
pub const VUE_SPECULATIVE_WHY: &'static str = "Speculative flexibility. Karpathy gate 2.";
pub const VUE_SPECULATIVE_FIX: &'static str = "Delete it until a test demands it.";
pub const VUE_SPECULATIVE_MATH: &'static str = "Yagni is not a vibe. It is expected value.";

pub const SQL_SELECT_STAR_ID: &'static str = "sql.select_star";
pub const SQL_SELECT_STAR_WHY: &'static str = "SELECT * couples the query to every future column, including PII someone adds next quarter. Also kills covering indexes.";
pub const SQL_SELECT_STAR_FIX: &'static str = "Name the columns the contract needs. If you need 'all', you need a versioned view.";
pub const SQL_SELECT_STAR_MATH: &'static str = "Projection π_C. SELECT * is π_{all columns at t}. Schema evolution silently changes the result arity.";

pub const SQL_COMMA_JOIN_ID: &'static str = "sql.comma_join";
pub const SQL_COMMA_JOIN_WHY: &'static str = "Comma FROM list is an implicit CROSS JOIN until the WHERE accidentally saves you. 1992 syntax.";
pub const SQL_COMMA_JOIN_FIX: &'static str = "INNER JOIN ... ON. Make the predicate visible.";
pub const SQL_COMMA_JOIN_MATH: &'static str = "FROM a, b = a × b. Filter later is not a join. Cardinality |a|·|b| until a predicate exists.";

pub const SQL_TAUTOLOGY_ID: &'static str = "sql.tautology";
pub const SQL_TAUTOLOGY_WHY: &'static str = "Tautology in WHERE. Either a leftover injection payload or a clown. Either way the predicate is gone.";
pub const SQL_TAUTOLOGY_FIX: &'static str = "Delete it. The WHERE stands on real predicates.";
pub const SQL_TAUTOLOGY_MATH: &'static str = "P ∨ ⊤ = ⊤. Selectivity = 1. You just full-scanned on purpose.";

pub const SQL_FN_ON_COLUMN_ID: &'static str = "sql.fn_on_column";
pub const SQL_FN_ON_COLUMN_WHY: &'static str = "Function on a filtered column (LOWER/TRIM/DATE wrapping the column) makes the predicate non-sargable. Index skipped.";
pub const SQL_FN_ON_COLUMN_FIX: &'static str = "Store a canonical form (citext, generated column) and compare raw. WHERE mc_number = $1.";
pub const SQL_FN_ON_COLUMN_MATH: &'static str = "A B-tree on col cannot satisfy f(col) = k unless f is monotonic and the planner proves it. It will not.";

pub const SQL_LEADING_WILDCARD_ID: &'static str = "sql.leading_wildcard";
pub const SQL_LEADING_WILDCARD_WHY: &'static str = "LIKE '%x' cannot use a btree. You will seq-scan. At 10M rows this is a production incident wearing a search box.";
pub const SQL_LEADING_WILDCARD_FIX: &'static str = "pg_trgm GIN, prefix LIKE 'x%', or an external search index. Measure EXPLAIN ANALYZE.";
pub const SQL_LEADING_WILDCARD_MATH: &'static str = "B-tree range scan requires a lower bound. Leading % removes it. Cost → O(|table|).";

pub const SQL_NOT_IN_ID: &'static str = "sql.not_in";
pub const SQL_NOT_IN_WHY: &'static str = "NOT IN with a NULL in the list makes the whole predicate UNKNOWN. Rows vanish mysteriously. Three-valued logic is not optional.";
pub const SQL_NOT_IN_FIX: &'static str = "NOT EXISTS (SELECT 1 FROM ... WHERE ...). Or `col NOT IN (...)` over a non-null subquery.";
pub const SQL_NOT_IN_MATH: &'static str = "x NOT IN (a, NULL) ⇒ x≠a AND x≠NULL ⇒ x≠a AND UNKNOWN ⇒ UNKNOWN. Filtered out. That is a bug, not a feature.";

pub const SQL_UNBOUNDED_DELETE_ID: &'static str = "sql.unbounded_delete";
pub const SQL_UNBOUNDED_DELETE_WHY: &'static str = "DELETE without WHERE. The table is the predicate. Congratulations, you truncated with extra steps.";
pub const SQL_UNBOUNDED_DELETE_FIX: &'static str = "DELETE FROM t WHERE id = $1. Require a bound key. In a transaction. Returning id.";
pub const SQL_UNBOUNDED_DELETE_MATH: &'static str = "DELETE cardinality without predicate = |T|. Goal: |Δ| = 1, asserted.";

pub const SQL_UNBOUNDED_UPDATE_ID: &'static str = "sql.unbounded_update";
pub const SQL_UNBOUNDED_UPDATE_WHY: &'static str = "UPDATE without WHERE. Every row just became the new status. Hope you liked backups.";
pub const SQL_UNBOUNDED_UPDATE_FIX: &'static str = "UPDATE t SET ... WHERE id = $1. Check ROW_COUNT.";
pub const SQL_UNBOUNDED_UPDATE_MATH: &'static str = "Same as unbounded delete. Selectivity 1 is not an update, it is a rewrite of the relation.";

pub const SQL_STRING_CONCAT_ID: &'static str = "sql.string_concat";
pub const SQL_STRING_CONCAT_WHY: &'static str = "SQL built by string concatenation. Injection is a grammar problem, not a sanitization problem.";
pub const SQL_STRING_CONCAT_FIX: &'static str = "Parameterized query. $1, $2. Never interpolate.";
pub const SQL_STRING_CONCAT_MATH: &'static str = "Data must not enter the parser. Bindings keep the AST shape constant.";

pub const SQL_DEEP_OFFSET_ID: &'static str = "sql.deep_offset";
pub const SQL_DEEP_OFFSET_WHY: &'static str = "Deep OFFSET walks discarded rows. Page 5000 of a feed is O(offset).";
pub const SQL_DEEP_OFFSET_FIX: &'static str = "Keyset pagination: WHERE (created_at, id) < ($1, $2) ORDER BY created_at DESC, id DESC LIMIT n.";
pub const SQL_DEEP_OFFSET_MATH: &'static str = "OFFSET k costs Θ(k) even if LIMIT is small. Keyset is Θ(limit) with a matching index.";

pub const SQL_ORDER_RANDOM_ID: &'static str = "sql.order_random";
pub const SQL_ORDER_RANDOM_WHY: &'static str = "ORDER BY random() sorts the table. Cute in dev. A weapon in prod.";
pub const SQL_ORDER_RANDOM_FIX: &'static str = "TABLESAMPLE or a precomputed shuffle key.";
pub const SQL_ORDER_RANDOM_MATH: &'static str = "Random sort is O(n log n) with a seq scan. You asked for a coin flip, you paid for a sort.";

pub const SQL_FOR_UPDATE_ID: &'static str = "sql.for_update";
pub const SQL_FOR_UPDATE_WHY: &'static str = "FOR UPDATE without SKIP LOCKED/NOWAIT can queue behind a stuck txn until statement_timeout.";
pub const SQL_FOR_UPDATE_FIX: &'static str = "Know the isolation level. For worker claims: FOR UPDATE SKIP LOCKED.";
pub const SQL_FOR_UPDATE_MATH: &'static str = "Row locks are a queue. Unbounded wait is a deadlock lottery.";

pub const SQL_UNBOUNDED_DELETE_STMT_WHY: &'static str = "DML statement has no WHERE anywhere in the statement. Full relation rewrite.";
pub const SQL_UNBOUNDED_DELETE_STMT_FIX: &'static str = "Add a keyed WHERE. Assert ROW_COUNT.";
pub const SQL_UNBOUNDED_DELETE_STMT_MATH: &'static str = "Relational update without restriction is assignment to the whole table.";

pub const SQL_UNBOUNDED_UPDATE_STMT_WHY: &'static str = "DML statement has no WHERE anywhere in the statement. Full relation rewrite.";
pub const SQL_UNBOUNDED_UPDATE_STMT_FIX: &'static str = "Add a keyed WHERE. Assert ROW_COUNT.";
pub const SQL_UNBOUNDED_UPDATE_STMT_MATH: &'static str = "Relational update without restriction is assignment to the whole table.";

/// The fixed part of a rule's findings.
pub struct RuleView {
    pub id: Seq<char>,
    pub gate: Gate,
    pub severity: Severity,
    pub why: Seq<char>,
    pub fix: Seq<char>,
    pub math: Seq<char>,
}

pub open spec fn rule_view(r: Rule) -> RuleView {
    match r {
        Rule::RailsPermitBang => RuleView {
            id: RAILS_PERMIT_BANG_ID@,
            gate: Gate::Think,
            severity: Severity::Fatal,
            why: RAILS_PERMIT_BANG_WHY@,
            fix: RAILS_PERMIT_BANG_FIX@,
            math: RAILS_PERMIT_BANG_MATH@,
        },
        Rule::RailsSkipAuth => RuleView {
            id: RAILS_SKIP_AUTH_ID@,
            gate: Gate::Goal,
            severity: Severity::Fatal,
            why: RAILS_SKIP_AUTH_WHY@,
            fix: RAILS_SKIP_AUTH_FIX@,
            math: RAILS_SKIP_AUTH_MATH@,
        },
        Rule::RailsHtmlSafe => RuleView {
            id: RAILS_HTML_SAFE_ID@,
            gate: Gate::Think,
            severity: Severity::Fatal,
            why: RAILS_HTML_SAFE_WHY@,
            fix: RAILS_HTML_SAFE_FIX@,
            math: RAILS_HTML_SAFE_MATH@,
        },
        Rule::RailsEval => RuleView {
            id: RAILS_EVAL_ID@,
            gate: Gate::Think,
            severity: Severity::Fatal,
            why: RAILS_EVAL_WHY@,
            fix: RAILS_EVAL_FIX@,
            math: RAILS_EVAL_MATH@,
        },
        Rule::RailsSendParams => RuleView {
            id: RAILS_SEND_PARAMS_ID@,
            gate: Gate::Think,
            severity: Severity::Fatal,
            why: RAILS_SEND_PARAMS_WHY@,
            fix: RAILS_SEND_PARAMS_FIX@,
            math: RAILS_SEND_PARAMS_MATH@,
        },
        Rule::RailsOpenRedirect => RuleView {
            id: RAILS_OPEN_REDIRECT_ID@,
            gate: Gate::Think,
            severity: Severity::High,
            why: RAILS_OPEN_REDIRECT_WHY@,
            fix: RAILS_OPEN_REDIRECT_FIX@,
            math: RAILS_OPEN_REDIRECT_MATH@,
        },
        Rule::RailsSqlInterp => RuleView {
            id: RAILS_SQL_INTERP_ID@,
            gate: Gate::Think,
            severity: Severity::Fatal,
            why: RAILS_SQL_INTERP_WHY@,
            fix: RAILS_SQL_INTERP_FIX@,
            math: RAILS_SQL_INTERP_MATH@,
        },
        Rule::RailsUnscopedWrite => RuleView {
            id: RAILS_UNSCOPED_WRITE_ID@,
            gate: Gate::Goal,
            severity: Severity::High,
            why: RAILS_UNSCOPED_WRITE_WHY@,
            fix: RAILS_UNSCOPED_WRITE_FIX@,
            math: RAILS_UNSCOPED_WRITE_MATH@,
        },
        Rule::RailsDefaultScope => RuleView {
            id: RAILS_DEFAULT_SCOPE_ID@,
            gate: Gate::Simple,
            severity: Severity::High,
            why: RAILS_DEFAULT_SCOPE_WHY@,
            fix: RAILS_DEFAULT_SCOPE_FIX@,
            math: RAILS_DEFAULT_SCOPE_MATH@,
        },
        Rule::RailsRenderAll => RuleView {
            id: RAILS_RENDER_ALL_ID@,
            gate: Gate::Simple,
            severity: Severity::High,
            why: RAILS_RENDER_ALL_WHY@,
            fix: RAILS_RENDER_ALL_FIX@,
            math: RAILS_RENDER_ALL_MATH@,
        },
        Rule::RailsDirectFind => RuleView {
            id: RAILS_DIRECT_FIND_ID@,
            gate: Gate::Think,
            severity: Severity::High,
            why: RAILS_DIRECT_FIND_WHY@,
            fix: RAILS_DIRECT_FIND_FIX@,
            math: RAILS_DIRECT_FIND_MATH@,
        },
        Rule::RailsSwallow => RuleView {
            id: RAILS_SWALLOW_ID@,
            gate: Gate::Goal,
            severity: Severity::Med,
            why: RAILS_SWALLOW_WHY@,
            fix: RAILS_SWALLOW_FIX@,
            math: RAILS_SWALLOW_MATH@,
        },
        Rule::RailsCallbackIo => RuleView {
            id: RAILS_CALLBACK_IO_ID@,
            gate: Gate::Simple,
            severity: Severity::High,
            why: RAILS_CALLBACK_IO_WHY@,
            fix: RAILS_CALLBACK_IO_FIX@,
            math: RAILS_CALLBACK_IO_MATH@,
        },
        Rule::RailsSpeculative => RuleView {
            id: RAILS_SPECULATIVE_ID@,
            gate: Gate::Simple,
            severity: Severity::Low,
            why: RAILS_SPECULATIVE_WHY@,
            fix: RAILS_SPECULATIVE_FIX@,
            math: RAILS_SPECULATIVE_MATH@,
        },
        Rule::RailsSaveSilent => RuleView {
            id: RAILS_SAVE_SILENT_ID@,
            gate: Gate::Goal,
            severity: Severity::Med,
            why: RAILS_SAVE_SILENT_WHY@,
            fix: RAILS_SAVE_SILENT_FIX@,
            math: RAILS_SAVE_SILENT_MATH@,
        },
        Rule::RailsUserSpoof => RuleView {
            id: RAILS_USER_SPOOF_ID@,
            gate: Gate::Think,
            severity: Severity::Fatal,
            why: RAILS_USER_SPOOF_WHY@,
            fix: RAILS_USER_SPOOF_FIX@,
            math: RAILS_USER_SPOOF_MATH@,
        },
        Rule::RailsNPlusOne => RuleView {
            id: RAILS_N_PLUS_ONE_ID@,
            gate: Gate::Goal,
            severity: Severity::High,
            why: RAILS_N_PLUS_ONE_WHY@,
            fix: RAILS_N_PLUS_ONE_FIX@,
            math: RAILS_N_PLUS_ONE_MATH@,
        },
        Rule::VueVHtml => RuleView {
            id: VUE_V_HTML_ID@,
            gate: Gate::Think,
            severity: Severity::Fatal,
            why: VUE_V_HTML_WHY@,
            fix: VUE_V_HTML_FIX@,
            math: VUE_V_HTML_MATH@,
        },
        Rule::VueInnerhtml => RuleView {
            id: VUE_INNERHTML_ID@,
            gate: Gate::Think,
            severity: Severity::Fatal,
            why: VUE_INNERHTML_WHY@,
            fix: VUE_INNERHTML_FIX@,
            math: VUE_INNERHTML_MATH@,
        },
        Rule::VueVforNoKey => RuleView {
            id: VUE_VFOR_NO_KEY_ID@,
            gate: Gate::Goal,
            severity: Severity::High,
            why: VUE_VFOR_NO_KEY_WHY@,
            fix: VUE_VFOR_NO_KEY_FIX@,
            math: VUE_VFOR_NO_KEY_MATH@,
        },
        Rule::VueVforVif => RuleView {
            id: VUE_VFOR_VIF_ID@,
            gate: Gate::Simple,
            severity: Severity::Med,
            why: VUE_VFOR_VIF_WHY@,
            fix: VUE_VFOR_VIF_FIX@,
            math: VUE_VFOR_VIF_MATH@,
        },
        Rule::VueParent => RuleView {
            id: VUE_PARENT_ID@,
            gate: Gate::Surgical,
            severity: Severity::High,
            why: VUE_PARENT_WHY@,
            fix: VUE_PARENT_FIX@,
            math: VUE_PARENT_MATH@,
        },
        Rule::VueRoot => RuleView {
            id: VUE_ROOT_ID@,
            gate: Gate::Surgical,
            severity: Severity::High,
            why: VUE_ROOT_WHY@,
            fix: VUE_ROOT_FIX@,
            math: VUE_ROOT_MATH@,
        },
        Rule::VueMutateProp => RuleView {
            id: VUE_MUTATE_PROP_ID@,
            gate: Gate::Think,
            severity: Severity::High,
            why: VUE_MUTATE_PROP_WHY@,
            fix: VUE_MUTATE_PROP_FIX@,
            math: VUE_MUTATE_PROP_MATH@,
        },
        Rule::VueDeepWatch => RuleView {
            id: VUE_DEEP_WATCH_ID@,
            gate: Gate::Simple,
            severity: Severity::Med,
            why: VUE_DEEP_WATCH_WHY@,
            fix: VUE_DEEP_WATCH_FIX@,
            math: VUE_DEEP_WATCH_MATH@,
        },
        Rule::VueEval => RuleView {
            id: VUE_EVAL_ID@,
            gate: Gate::Think,
            severity: Severity::Fatal,
            why: VUE_EVAL_WHY@,
            fix: VUE_EVAL_FIX@,
            math: VUE_EVAL_MATH@,
        },
        Rule::VueDocWrite => RuleView {
            id: VUE_DOC_WRITE_ID@,
            gate: Gate::Think,
            severity: Severity::Fatal,
            why: VUE_DOC_WRITE_WHY@,
            fix: VUE_DOC_WRITE_FIX@,
            math: VUE_DOC_WRITE_MATH@,
        },
        Rule::VueVmodelProp => RuleView {
            id: VUE_VMODEL_PROP_ID@,
            gate: Gate::Think,
            severity: Severity::High,
            why: VUE_VMODEL_PROP_WHY@,
            fix: VUE_VMODEL_PROP_FIX@,
            math: VUE_VMODEL_PROP_MATH@,
        },
        Rule::VueSecretStorage => RuleView {
            id: VUE_SECRET_STORAGE_ID@,
            gate: Gate::Think,
            severity: Severity::Fatal,
            why: VUE_SECRET_STORAGE_WHY@,
            fix: VUE_SECRET_STORAGE_FIX@,
            math: VUE_SECRET_STORAGE_MATH@,
        },
        Rule::VueAsAny => RuleView {
            id: VUE_AS_ANY_ID@,
            gate: Gate::Goal,
            severity: Severity::Low,
            why: VUE_AS_ANY_WHY@,
            fix: VUE_AS_ANY_FIX@,
            math: VUE_AS_ANY_MATH@,
        },
        Rule::VueSpeculative => RuleView {
            id: VUE_SPECULATIVE_ID@,
            gate: Gate::Simple,
            severity: Severity::Low,
            why: VUE_SPECULATIVE_WHY@,
            fix: VUE_SPECULATIVE_FIX@,
            math: VUE_SPECULATIVE_MATH@,
        },
        Rule::SqlSelectStar => RuleView {
            id: SQL_SELECT_STAR_ID@,
            gate: Gate::Simple,
            severity: Severity::High,
            why: SQL_SELECT_STAR_WHY@,
            fix: SQL_SELECT_STAR_FIX@,
            math: SQL_SELECT_STAR_MATH@,
        },
        Rule::SqlCommaJoin => RuleView {
            id: SQL_COMMA_JOIN_ID@,
            gate: Gate::Think,
            severity: Severity::High,
            why: SQL_COMMA_JOIN_WHY@,
            fix: SQL_COMMA_JOIN_FIX@,
            math: SQL_COMMA_JOIN_MATH@,
        },
        Rule::SqlTautology => RuleView {
            id: SQL_TAUTOLOGY_ID@,
            gate: Gate::Think,
            severity: Severity::Fatal,
            why: SQL_TAUTOLOGY_WHY@,
            fix: SQL_TAUTOLOGY_FIX@,
            math: SQL_TAUTOLOGY_MATH@,
        },
        Rule::SqlFnOnColumn => RuleView {
            id: SQL_FN_ON_COLUMN_ID@,
            gate: Gate::Goal,
            severity: Severity::High,
            why: SQL_FN_ON_COLUMN_WHY@,
            fix: SQL_FN_ON_COLUMN_FIX@,
            math: SQL_FN_ON_COLUMN_MATH@,
        },
        Rule::SqlLeadingWildcard => RuleView {
            id: SQL_LEADING_WILDCARD_ID@,
            gate: Gate::Goal,
            severity: Severity::Med,
            why: SQL_LEADING_WILDCARD_WHY@,
            fix: SQL_LEADING_WILDCARD_FIX@,
            math: SQL_LEADING_WILDCARD_MATH@,
        },
        Rule::SqlNotIn => RuleView {
            id: SQL_NOT_IN_ID@,
            gate: Gate::Think,
            severity: Severity::High,
            why: SQL_NOT_IN_WHY@,
            fix: SQL_NOT_IN_FIX@,
            math: SQL_NOT_IN_MATH@,
        },
        Rule::SqlUnboundedDelete => RuleView {
            id: SQL_UNBOUNDED_DELETE_ID@,
            gate: Gate::Goal,
            severity: Severity::Fatal,
            why: SQL_UNBOUNDED_DELETE_WHY@,
            fix: SQL_UNBOUNDED_DELETE_FIX@,
            math: SQL_UNBOUNDED_DELETE_MATH@,
        },
        Rule::SqlUnboundedUpdate => RuleView {
            id: SQL_UNBOUNDED_UPDATE_ID@,
            gate: Gate::Goal,
            severity: Severity::Fatal,
            why: SQL_UNBOUNDED_UPDATE_WHY@,
            fix: SQL_UNBOUNDED_UPDATE_FIX@,
            math: SQL_UNBOUNDED_UPDATE_MATH@,
        },
        Rule::SqlStringConcat => RuleView {
            id: SQL_STRING_CONCAT_ID@,
            gate: Gate::Think,
            severity: Severity::Fatal,
            why: SQL_STRING_CONCAT_WHY@,
            fix: SQL_STRING_CONCAT_FIX@,
            math: SQL_STRING_CONCAT_MATH@,
        },
        Rule::SqlDeepOffset => RuleView {
            id: SQL_DEEP_OFFSET_ID@,
            gate: Gate::Goal,
            severity: Severity::Med,
            why: SQL_DEEP_OFFSET_WHY@,
            fix: SQL_DEEP_OFFSET_FIX@,
            math: SQL_DEEP_OFFSET_MATH@,
        },
        Rule::SqlOrderRandom => RuleView {
            id: SQL_ORDER_RANDOM_ID@,
            gate: Gate::Simple,
            severity: Severity::Med,
            why: SQL_ORDER_RANDOM_WHY@,
            fix: SQL_ORDER_RANDOM_FIX@,
            math: SQL_ORDER_RANDOM_MATH@,
        },
        Rule::SqlForUpdate => RuleView {
            id: SQL_FOR_UPDATE_ID@,
            gate: Gate::Think,
            severity: Severity::Low,
            why: SQL_FOR_UPDATE_WHY@,
            fix: SQL_FOR_UPDATE_FIX@,
            math: SQL_FOR_UPDATE_MATH@,
        },
        Rule::SqlUnboundedDeleteStmt => RuleView {
            id: SQL_UNBOUNDED_DELETE_ID@,
            gate: Gate::Goal,
            severity: Severity::Fatal,
            why: SQL_UNBOUNDED_DELETE_STMT_WHY@,
            fix: SQL_UNBOUNDED_DELETE_STMT_FIX@,
            math: SQL_UNBOUNDED_DELETE_STMT_MATH@,
        },
        Rule::SqlUnboundedUpdateStmt => RuleView {
            id: SQL_UNBOUNDED_UPDATE_ID@,
            gate: Gate::Goal,
            severity: Severity::Fatal,
            why: SQL_UNBOUNDED_UPDATE_STMT_WHY@,
            fix: SQL_UNBOUNDED_UPDATE_STMT_FIX@,
            math: SQL_UNBOUNDED_UPDATE_STMT_MATH@,
        },
    }
}

/// The finding that rule `r` reports at `line`, `column`, quoting `excerpt`.
pub open spec fn rule_finding(r: Rule, line: usize, column: usize, excerpt: Seq<char>) -> FindingView {
    let v = rule_view(r);
    hit_view(v.id, v.gate, v.severity, line, column, excerpt, v.why, v.fix, v.math)
}

/// The literal texts of a rule.
pub struct RuleText {
    pub id: &'static str,
    pub gate: Gate,
    pub severity: Severity,
    pub why: &'static str,
    pub fix: &'static str,
    pub math: &'static str,
}

fn rule_text(r: Rule) -> (t: RuleText)
    ensures
        t.id@ == rule_view(r).id,
        t.gate == rule_view(r).gate,
        t.severity == rule_view(r).severity,
        t.why@ == rule_view(r).why,
        t.fix@ == rule_view(r).fix,
        t.math@ == rule_view(r).math,
{
    match r {
        Rule::RailsPermitBang => RuleText {
            id: RAILS_PERMIT_BANG_ID,
            gate: Gate::Think,
            severity: Severity::Fatal,
            why: RAILS_PERMIT_BANG_WHY,
            fix: RAILS_PERMIT_BANG_FIX,
            math: RAILS_PERMIT_BANG_MATH,
        },
        Rule::RailsSkipAuth => RuleText {
            id: RAILS_SKIP_AUTH_ID,
            gate: Gate::Goal,
            severity: Severity::Fatal,
            why: RAILS_SKIP_AUTH_WHY,
            fix: RAILS_SKIP_AUTH_FIX,
            math: RAILS_SKIP_AUTH_MATH,
        },
        Rule::RailsHtmlSafe => RuleText {
            id: RAILS_HTML_SAFE_ID,
            gate: Gate::Think,
            severity: Severity::Fatal,
            why: RAILS_HTML_SAFE_WHY,
            fix: RAILS_HTML_SAFE_FIX,
            math: RAILS_HTML_SAFE_MATH,
        },
        Rule::RailsEval => RuleText {
            id: RAILS_EVAL_ID,
            gate: Gate::Think,
            severity: Severity::Fatal,
            why: RAILS_EVAL_WHY,
            fix: RAILS_EVAL_FIX,
            math: RAILS_EVAL_MATH,
        },
        Rule::RailsSendParams => RuleText {
            id: RAILS_SEND_PARAMS_ID,
            gate: Gate::Think,
            severity: Severity::Fatal,
            why: RAILS_SEND_PARAMS_WHY,
            fix: RAILS_SEND_PARAMS_FIX,
            math: RAILS_SEND_PARAMS_MATH,
        },
        Rule::RailsOpenRedirect => RuleText {
            id: RAILS_OPEN_REDIRECT_ID,
            gate: Gate::Think,
            severity: Severity::High,
            why: RAILS_OPEN_REDIRECT_WHY,
            fix: RAILS_OPEN_REDIRECT_FIX,
            math: RAILS_OPEN_REDIRECT_MATH,
        },
        Rule::RailsSqlInterp => RuleText {
            id: RAILS_SQL_INTERP_ID,
            gate: Gate::Think,
            severity: Severity::Fatal,
            why: RAILS_SQL_INTERP_WHY,
            fix: RAILS_SQL_INTERP_FIX,
            math: RAILS_SQL_INTERP_MATH,
        },
        Rule::RailsUnscopedWrite => RuleText {
            id: RAILS_UNSCOPED_WRITE_ID,
            gate: Gate::Goal,
            severity: Severity::High,
            why: RAILS_UNSCOPED_WRITE_WHY,
            fix: RAILS_UNSCOPED_WRITE_FIX,
            math: RAILS_UNSCOPED_WRITE_MATH,
        },
        Rule::RailsDefaultScope => RuleText {
            id: RAILS_DEFAULT_SCOPE_ID,
            gate: Gate::Simple,
            severity: Severity::High,
            why: RAILS_DEFAULT_SCOPE_WHY,
            fix: RAILS_DEFAULT_SCOPE_FIX,
            math: RAILS_DEFAULT_SCOPE_MATH,
        },
        Rule::RailsRenderAll => RuleText {
            id: RAILS_RENDER_ALL_ID,
            gate: Gate::Simple,
            severity: Severity::High,
            why: RAILS_RENDER_ALL_WHY,
            fix: RAILS_RENDER_ALL_FIX,
            math: RAILS_RENDER_ALL_MATH,
        },
        Rule::RailsDirectFind => RuleText {
            id: RAILS_DIRECT_FIND_ID,
            gate: Gate::Think,
            severity: Severity::High,
            why: RAILS_DIRECT_FIND_WHY,
            fix: RAILS_DIRECT_FIND_FIX,
            math: RAILS_DIRECT_FIND_MATH,
        },
        Rule::RailsSwallow => RuleText {
            id: RAILS_SWALLOW_ID,
            gate: Gate::Goal,
            severity: Severity::Med,
            why: RAILS_SWALLOW_WHY,
            fix: RAILS_SWALLOW_FIX,
            math: RAILS_SWALLOW_MATH,
        },
        Rule::RailsCallbackIo => RuleText {
            id: RAILS_CALLBACK_IO_ID,
            gate: Gate::Simple,
            severity: Severity::High,
            why: RAILS_CALLBACK_IO_WHY,
            fix: RAILS_CALLBACK_IO_FIX,
            math: RAILS_CALLBACK_IO_MATH,
        },
        Rule::RailsSpeculative => RuleText {
            id: RAILS_SPECULATIVE_ID,
            gate: Gate::Simple,
            severity: Severity::Low,
            why: RAILS_SPECULATIVE_WHY,
            fix: RAILS_SPECULATIVE_FIX,
            math: RAILS_SPECULATIVE_MATH,
        },
        Rule::RailsSaveSilent => RuleText {
            id: RAILS_SAVE_SILENT_ID,
            gate: Gate::Goal,
            severity: Severity::Med,
            why: RAILS_SAVE_SILENT_WHY,
            fix: RAILS_SAVE_SILENT_FIX,
            math: RAILS_SAVE_SILENT_MATH,
        },
        Rule::RailsUserSpoof => RuleText {
            id: RAILS_USER_SPOOF_ID,
            gate: Gate::Think,
            severity: Severity::Fatal,
            why: RAILS_USER_SPOOF_WHY,
            fix: RAILS_USER_SPOOF_FIX,
            math: RAILS_USER_SPOOF_MATH,
        },
        Rule::RailsNPlusOne => RuleText {
            id: RAILS_N_PLUS_ONE_ID,
            gate: Gate::Goal,
            severity: Severity::High,
            why: RAILS_N_PLUS_ONE_WHY,
            fix: RAILS_N_PLUS_ONE_FIX,
            math: RAILS_N_PLUS_ONE_MATH,
        },
        Rule::VueVHtml => RuleText {
            id: VUE_V_HTML_ID,
            gate: Gate::Think,
            severity: Severity::Fatal,
            why: VUE_V_HTML_WHY,
            fix: VUE_V_HTML_FIX,
            math: VUE_V_HTML_MATH,
        },
        Rule::VueInnerhtml => RuleText {
            id: VUE_INNERHTML_ID,
            gate: Gate::Think,
            severity: Severity::Fatal,
            why: VUE_INNERHTML_WHY,
            fix: VUE_INNERHTML_FIX,
            math: VUE_INNERHTML_MATH,
        },
        Rule::VueVforNoKey => RuleText {
            id: VUE_VFOR_NO_KEY_ID,
            gate: Gate::Goal,
            severity: Severity::High,
            why: VUE_VFOR_NO_KEY_WHY,
            fix: VUE_VFOR_NO_KEY_FIX,
            math: VUE_VFOR_NO_KEY_MATH,
        },
        Rule::VueVforVif => RuleText {
            id: VUE_VFOR_VIF_ID,
            gate: Gate::Simple,
            severity: Severity::Med,
            why: VUE_VFOR_VIF_WHY,
            fix: VUE_VFOR_VIF_FIX,
            math: VUE_VFOR_VIF_MATH,
        },
        Rule::VueParent => RuleText {
            id: VUE_PARENT_ID,
            gate: Gate::Surgical,
            severity: Severity::High,
            why: VUE_PARENT_WHY,
            fix: VUE_PARENT_FIX,
            math: VUE_PARENT_MATH,
        },
        Rule::VueRoot => RuleText {
            id: VUE_ROOT_ID,
            gate: Gate::Surgical,
            severity: Severity::High,
            why: VUE_ROOT_WHY,
            fix: VUE_ROOT_FIX,
            math: VUE_ROOT_MATH,
        },
        Rule::VueMutateProp => RuleText {
            id: VUE_MUTATE_PROP_ID,
            gate: Gate::Think,
            severity: Severity::High,
            why: VUE_MUTATE_PROP_WHY,
            fix: VUE_MUTATE_PROP_FIX,
            math: VUE_MUTATE_PROP_MATH,
        },
        Rule::VueDeepWatch => RuleText {
            id: VUE_DEEP_WATCH_ID,
            gate: Gate::Simple,
            severity: Severity::Med,
            why: VUE_DEEP_WATCH_WHY,
            fix: VUE_DEEP_WATCH_FIX,
            math: VUE_DEEP_WATCH_MATH,
        },
        Rule::VueEval => RuleText {
            id: VUE_EVAL_ID,
            gate: Gate::Think,
            severity: Severity::Fatal,
            why: VUE_EVAL_WHY,
            fix: VUE_EVAL_FIX,
            math: VUE_EVAL_MATH,
        },
        Rule::VueDocWrite => RuleText {
            id: VUE_DOC_WRITE_ID,
            gate: Gate::Think,
            severity: Severity::Fatal,
            why: VUE_DOC_WRITE_WHY,
            fix: VUE_DOC_WRITE_FIX,
            math: VUE_DOC_WRITE_MATH,
        },
        Rule::VueVmodelProp => RuleText {
            id: VUE_VMODEL_PROP_ID,
            gate: Gate::Think,
            severity: Severity::High,
            why: VUE_VMODEL_PROP_WHY,
            fix: VUE_VMODEL_PROP_FIX,
            math: VUE_VMODEL_PROP_MATH,
        },
        Rule::VueSecretStorage => RuleText {
            id: VUE_SECRET_STORAGE_ID,
            gate: Gate::Think,
            severity: Severity::Fatal,
            why: VUE_SECRET_STORAGE_WHY,
            fix: VUE_SECRET_STORAGE_FIX,
            math: VUE_SECRET_STORAGE_MATH,
        },
        Rule::VueAsAny => RuleText {
            id: VUE_AS_ANY_ID,
            gate: Gate::Goal,
            severity: Severity::Low,
            why: VUE_AS_ANY_WHY,
            fix: VUE_AS_ANY_FIX,
            math: VUE_AS_ANY_MATH,
        },
        Rule::VueSpeculative => RuleText {
            id: VUE_SPECULATIVE_ID,
            gate: Gate::Simple,
            severity: Severity::Low,
            why: VUE_SPECULATIVE_WHY,
            fix: VUE_SPECULATIVE_FIX,
            math: VUE_SPECULATIVE_MATH,
        },
        Rule::SqlSelectStar => RuleText {
            id: SQL_SELECT_STAR_ID,
            gate: Gate::Simple,
            severity: Severity::High,
            why: SQL_SELECT_STAR_WHY,
            fix: SQL_SELECT_STAR_FIX,
            math: SQL_SELECT_STAR_MATH,
        },
        Rule::SqlCommaJoin => RuleText {
            id: SQL_COMMA_JOIN_ID,
            gate: Gate::Think,
            severity: Severity::High,
            why: SQL_COMMA_JOIN_WHY,
            fix: SQL_COMMA_JOIN_FIX,
            math: SQL_COMMA_JOIN_MATH,
        },
        Rule::SqlTautology => RuleText {
            id: SQL_TAUTOLOGY_ID,
            gate: Gate::Think,
            severity: Severity::Fatal,
            why: SQL_TAUTOLOGY_WHY,
            fix: SQL_TAUTOLOGY_FIX,
            math: SQL_TAUTOLOGY_MATH,
        },
        Rule::SqlFnOnColumn => RuleText {
            id: SQL_FN_ON_COLUMN_ID,
            gate: Gate::Goal,
            severity: Severity::High,
            why: SQL_FN_ON_COLUMN_WHY,
            fix: SQL_FN_ON_COLUMN_FIX,
            math: SQL_FN_ON_COLUMN_MATH,
        },
        Rule::SqlLeadingWildcard => RuleText {
            id: SQL_LEADING_WILDCARD_ID,
            gate: Gate::Goal,
            severity: Severity::Med,
            why: SQL_LEADING_WILDCARD_WHY,
            fix: SQL_LEADING_WILDCARD_FIX,
            math: SQL_LEADING_WILDCARD_MATH,
        },
        Rule::SqlNotIn => RuleText {
            id: SQL_NOT_IN_ID,
            gate: Gate::Think,
            severity: Severity::High,
            why: SQL_NOT_IN_WHY,
            fix: SQL_NOT_IN_FIX,
            math: SQL_NOT_IN_MATH,
        },
        Rule::SqlUnboundedDelete => RuleText {
            id: SQL_UNBOUNDED_DELETE_ID,
            gate: Gate::Goal,
            severity: Severity::Fatal,
            why: SQL_UNBOUNDED_DELETE_WHY,
            fix: SQL_UNBOUNDED_DELETE_FIX,
            math: SQL_UNBOUNDED_DELETE_MATH,
        },
        Rule::SqlUnboundedUpdate => RuleText {
            id: SQL_UNBOUNDED_UPDATE_ID,
            gate: Gate::Goal,
            severity: Severity::Fatal,
            why: SQL_UNBOUNDED_UPDATE_WHY,
            fix: SQL_UNBOUNDED_UPDATE_FIX,
            math: SQL_UNBOUNDED_UPDATE_MATH,
        },
        Rule::SqlStringConcat => RuleText {
            id: SQL_STRING_CONCAT_ID,
            gate: Gate::Think,
            severity: Severity::Fatal,
            why: SQL_STRING_CONCAT_WHY,
            fix: SQL_STRING_CONCAT_FIX,
            math: SQL_STRING_CONCAT_MATH,
        },
        Rule::SqlDeepOffset => RuleText {
            id: SQL_DEEP_OFFSET_ID,
            gate: Gate::Goal,
            severity: Severity::Med,
            why: SQL_DEEP_OFFSET_WHY,
            fix: SQL_DEEP_OFFSET_FIX,
            math: SQL_DEEP_OFFSET_MATH,
        },
        Rule::SqlOrderRandom => RuleText {
            id: SQL_ORDER_RANDOM_ID,
            gate: Gate::Simple,
            severity: Severity::Med,
            why: SQL_ORDER_RANDOM_WHY,
            fix: SQL_ORDER_RANDOM_FIX,
            math: SQL_ORDER_RANDOM_MATH,
        },
        Rule::SqlForUpdate => RuleText {
            id: SQL_FOR_UPDATE_ID,
            gate: Gate::Think,
            severity: Severity::Low,
            why: SQL_FOR_UPDATE_WHY,
            fix: SQL_FOR_UPDATE_FIX,
            math: SQL_FOR_UPDATE_MATH,
        },
        Rule::SqlUnboundedDeleteStmt => RuleText {
            id: SQL_UNBOUNDED_DELETE_ID,
            gate: Gate::Goal,
            severity: Severity::Fatal,
            why: SQL_UNBOUNDED_DELETE_STMT_WHY,
            fix: SQL_UNBOUNDED_DELETE_STMT_FIX,
            math: SQL_UNBOUNDED_DELETE_STMT_MATH,
        },
        Rule::SqlUnboundedUpdateStmt => RuleText {
            id: SQL_UNBOUNDED_UPDATE_ID,
            gate: Gate::Goal,
            severity: Severity::Fatal,
            why: SQL_UNBOUNDED_UPDATE_STMT_WHY,
            fix: SQL_UNBOUNDED_UPDATE_STMT_FIX,
            math: SQL_UNBOUNDED_UPDATE_STMT_MATH,
        },
    }
}

/// Builds the finding of rule `r`.
pub fn rule_hit(r: Rule, line: usize, column: usize, excerpt: &str) -> (f: Finding)
    ensures
        f@ == rule_finding(r, line, column, excerpt@),
{
    let t = rule_text(r);
    hit(t.id, t.gate, t.severity, line, column, excerpt, t.why, t.fix, t.math)
}

} // verus!
