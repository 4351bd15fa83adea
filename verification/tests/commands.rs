use ometa::commands::configure::settings_to_save;
use ometa::commands::describe::{column_row, summarize};
use ometa::commands::lineage::{
    kind_from_lower, collect_edges, depths, edge_id, empty_lineage, format_kind, table_id, tree, Direction,
    NodeKind,
};
use ometa::commands::mcp::{relayed_status, unreachable_body, upstream_url};
use ometa::commands::patch::{confirms, confirms_lower, not_found_message, patch_path, plan_ops, urlencode_fqn, Args, PatchError};
use ometa::commands::quality::{label_from_lower, quality_rows, status_text, test_to_row};
use ometa::commands::search::{hit_to_row, search_index, search_rows};
use ometa::commands::{not_in_catalog, pick, pick_owner, truncate};
use ometa::json::Json;

fn st(s: &str) -> Json {
    Json::Str(s.to_string())
}

fn obj(entries: Vec<(&str, Json)>) -> Json {
    Json::Object(entries.into_iter().map(|(k, v)| (k.to_string(), v)).collect())
}

fn arr(items: Vec<Json>) -> Json {
    Json::Array(items)
}

fn str_of(j: &Json) -> &str {
    match j {
        Json::Str(s) => s.as_str(),
        other => panic!("not a string: {:?}", other),
    }
}

fn member<'a>(j: &'a Json, key: &str) -> &'a Json {
    match j {
        Json::Object(e) => &e.iter().find(|(k, _)| k == key).expect("missing key").1,
        other => panic!("not an object: {:?}", other),
    }
}

#[test]
fn pick_skips_missing_and_empty_values() {
    let v = obj(vec![("name", st("")), ("displayName", st("Orders")), ("n", Json::Number("3".into()))]);
    assert_eq!(pick(&v, &["fullyQualifiedName", "name", "displayName"]), "Orders");
    assert_eq!(pick(&v, &["n"]), "—");
    assert_eq!(pick(&Json::Null, &["name"]), "—");
    assert_eq!(pick(&v, &[]), "—");
}

#[test]
fn pick_owner_prefers_the_owners_list() {
    let v = obj(vec![
        ("owners", arr(vec![obj(vec![("name", st("team-a"))]), obj(vec![("name", st("b"))])])),
        ("owner", obj(vec![("displayName", st("Old Owner"))])),
    ]);
    assert_eq!(pick_owner(&v), "team-a");
    let v = obj(vec![("owners", arr(vec![])), ("owner", obj(vec![("displayName", st("Solo"))]))]);
    assert_eq!(pick_owner(&v), "Solo");
    let v = obj(vec![("owner", Json::Null)]);
    assert_eq!(pick_owner(&v), "—");
    assert_eq!(pick_owner(&obj(vec![])), "—");
}

#[test]
fn truncate_cuts_with_an_ellipsis() {
    assert_eq!(truncate("hello", 5), "hello");
    assert_eq!(truncate("hello world", 5), "hell…");
    assert_eq!(truncate("héllo", 2), "h…");
    assert_eq!(truncate("ab", 0), "");
    assert_eq!(truncate("abc", 1), "…");
    assert_eq!(truncate("", 0), "");
}

#[test]
fn column_rows_show_constraints_and_tags() {
    let c = obj(vec![
        ("name", st("id")),
        ("dataType", st("BIGINT")),
        ("constraint", st("PRIMARY_KEY")),
        ("tags", arr(vec![obj(vec![("tagFQN", st("PII.None"))]), obj(vec![]), obj(vec![("tagFQN", st("Tier.1"))])])),
        ("description", st(&"x".repeat(60))),
    ]);
    let r = column_row(&c);
    assert_eq!(r.name, "id");
    assert_eq!(r.data_type, "BIGINT");
    assert_eq!(r.nullable, "no");
    assert_eq!(r.tags, "PII.None,Tier.1");
    assert_eq!(r.description, format!("{}…", "x".repeat(49)));
    let r = column_row(&obj(vec![("type", st("INT")), ("constraint", st("NULL"))]));
    assert_eq!(r.name, "—");
    assert_eq!(r.data_type, "INT");
    assert_eq!(r.nullable, "yes");
    assert_eq!(r.tags, "");
}

#[test]
fn summary_of_a_table() {
    let t = obj(vec![
        ("fullyQualifiedName", st("s.d.orders")),
        ("entityType", st("table")),
        ("description", st("All orders")),
        ("owners", arr(vec![obj(vec![("displayName", st("Data Team"))])])),
        ("tags", arr(vec![obj(vec![("tagFQN", st("Tier.Tier1"))])])),
        ("columns", arr(vec![obj(vec![("name", st("id"))]), obj(vec![("name", st("total"))])])),
        ("testSuite", obj(vec![("fullyQualifiedName", st("s.d.orders.testSuite"))])),
    ]);
    let s = summarize(&t);
    assert_eq!(s.title, "s.d.orders");
    assert_eq!(s.kind, "table");
    assert_eq!(s.owner, "Data Team");
    assert_eq!(s.description, "All orders");
    assert_eq!(s.tags, vec!["Tier.Tier1".to_string()]);
    assert_eq!(s.columns.len(), 2);
    assert_eq!(s.columns[1].name, "total");
    assert_eq!(s.quality, Some("s.d.orders.testSuite".to_string()));
    let s = summarize(&obj(vec![("testSuite", Json::Null)]));
    assert_eq!(s.quality, None);
    assert!(s.tags.is_empty());
    assert!(s.columns.is_empty());
    assert_eq!(s.title, "—");
}

#[test]
fn not_found_messages() {
    assert_eq!(not_in_catalog("a.b"), "table `a.b` not found in OpenMetadata catalog");
    assert_eq!(not_found_message("a.b"), "table `a.b` not found");
}

#[test]
fn depths_follow_the_direction() {
    assert_eq!(depths(Direction::Upstream, 3), (3, 0));
    assert_eq!(depths(Direction::Downstream, 3), (0, 3));
    assert_eq!(depths(Direction::Both, 2), (2, 2));
}

#[test]
fn edge_ids_are_strings_or_object_ids() {
    let e = obj(vec![("fromEntity", st("a")), ("toEntity", obj(vec![("id", st("b"))])), ("x", arr(vec![]))]);
    assert_eq!(edge_id(&e, "fromEntity"), Some("a".to_string()));
    assert_eq!(edge_id(&e, "toEntity"), Some("b".to_string()));
    assert_eq!(edge_id(&e, "x"), None);
    assert_eq!(edge_id(&e, "missing"), None);
}

fn sample_lineage() -> Json {
    obj(vec![
        (
            "nodes",
            arr(vec![
                obj(vec![("id", st("up1")), ("fullyQualifiedName", st("s.d.raw")), ("type", st("Pipeline"))]),
                obj(vec![("id", st("down1")), ("name", st("daily")), ("entityType", st("dashboard"))]),
                obj(vec![("id", st("up1")), ("fullyQualifiedName", st("s.d.raw_v2"))]),
            ]),
        ),
        (
            "upstreamEdges",
            arr(vec![
                obj(vec![("fromEntity", st("up1")), ("toEntity", st("root"))]),
                obj(vec![("fromEntity", st("zzz")), ("toEntity", st("other"))]),
                obj(vec![("fromEntity", st("ghost")), ("toEntity", obj(vec![("id", st("root"))]))]),
            ]),
        ),
        (
            "downstreamEdges",
            arr(vec![obj(vec![("fromEntity", st("root")), ("toEntity", st("down1"))])]),
        ),
    ])
}

#[test]
fn collect_edges_keeps_edges_touching_the_root() {
    let l = sample_lineage();
    let up = collect_edges(&l, "upstreamEdges", "root", true);
    assert_eq!(up.len(), 2);
    let down = collect_edges(&l, "downstreamEdges", "root", false);
    assert_eq!(down.len(), 1);
    assert_eq!(collect_edges(&l, "downstreamEdges", "root", true).len(), 0);
    assert_eq!(collect_edges(&l, "nothing", "root", true).len(), 0);
}

#[test]
fn tree_names_and_classifies_neighbours() {
    let l = sample_lineage();
    let t = tree("root", &l, Direction::Both);
    let up = t.upstream.unwrap();
    assert_eq!(up.len(), 2);
    // The edge's toEntity is the root itself, which is not among the nodes.
    assert_eq!(up[0].name, "(unknown)");
    assert_eq!(up[0].kind, NodeKind::Table);
    assert!(!up[0].last);
    assert!(up[1].last);
    let down = t.downstream.unwrap();
    assert_eq!(down.len(), 1);
    assert_eq!(down[0].name, "daily");
    assert_eq!(down[0].kind, NodeKind::Dashboard);
    assert!(down[0].last);
    let t = tree("root", &l, Direction::Upstream);
    assert!(t.downstream.is_none());
    let t = tree("root", &l, Direction::Downstream);
    assert!(t.upstream.is_none());
}

#[test]
fn later_nodes_with_the_same_id_win() {
    let l = obj(vec![
        (
            "nodes",
            arr(vec![
                obj(vec![("id", st("n")), ("fullyQualifiedName", st("first")), ("type", st("Pipeline"))]),
                obj(vec![("id", st("n")), ("fullyQualifiedName", st("second"))]),
            ]),
        ),
        ("downstreamEdges", arr(vec![obj(vec![("fromEntity", st("r")), ("toEntity", st("n"))])])),
    ]);
    let down = tree("r", &l, Direction::Downstream).downstream.unwrap();
    assert_eq!(down[0].name, "second");
    assert_eq!(down[0].kind, NodeKind::Table);
}

#[test]
fn format_kind_ignores_case() {
    assert_eq!(format_kind("DASHBOARD"), NodeKind::Dashboard);
    assert_eq!(format_kind("Pipeline"), NodeKind::Pipeline);
    assert_eq!(format_kind("topic"), NodeKind::Topic);
    assert_eq!(format_kind("mlmodel"), NodeKind::Table);
    assert_eq!(NodeKind::Dashboard.label(), "[dashboard]");
    assert_eq!(NodeKind::Table.label(), "[table]");
}

#[test]
fn lineage_helpers() {
    assert_eq!(table_id(&obj(vec![("id", st("abc"))])), Some("abc".to_string()));
    assert_eq!(table_id(&obj(vec![("id", Json::Number("1".into()))])), None);
    let e = empty_lineage();
    match &e {
        Json::Object(entries) => {
            let keys: Vec<&str> = entries.iter().map(|(k, _)| k.as_str()).collect();
            assert_eq!(keys, vec!["nodes", "upstreamEdges", "downstreamEdges"]);
        }
        other => panic!("not an object: {:?}", other),
    }
    assert!(matches!(member(&e, "nodes"), Json::Array(a) if a.is_empty()));
    assert!(matches!(member(&e, "upstreamEdges"), Json::Array(a) if a.is_empty()));
    assert!(matches!(member(&e, "downstreamEdges"), Json::Array(a) if a.is_empty()));
}

#[test]
fn quality_statuses_are_labelled() {
    assert_eq!(status_text("Success"), "✅ pass");
    assert_eq!(status_text("FAILED"), "❌ fail");
    assert_eq!(status_text("Aborted"), "⚠️  warning");
    assert_eq!(status_text("Queued"), "—");
}

#[test]
fn quality_rows_flatten_suites() {
    let raw = obj(vec![(
        "data",
        arr(vec![
            obj(vec![("tests", arr(vec![
                obj(vec![("name", st("t1")), ("testCaseStatus", st("Success")), ("timestamp", st("2024"))]),
                obj(vec![("displayName", st("t2")), ("status", st("Failed")), ("result", st("boom"))]),
            ]))]),
            obj(vec![("tests", st("not a list"))]),
            obj(vec![("tests", arr(vec![obj(vec![("name", st("t3"))])]))]),
        ]),
    )]);
    let rows = quality_rows(&raw);
    assert_eq!(rows.len(), 3);
    assert_eq!(rows[0].test, "t1");
    assert_eq!(rows[0].status, "✅ pass");
    assert_eq!(rows[0].last_run, "2024");
    assert_eq!(rows[1].test, "t2");
    assert_eq!(rows[1].status, "❌ fail");
    assert_eq!(rows[1].failure, "boom");
    assert_eq!(rows[2].status, "—");
    assert_eq!(quality_rows(&obj(vec![])).len(), 0);
    let r = test_to_row(&obj(vec![("message", st(&"m".repeat(70)))]));
    assert_eq!(r.failure.chars().count(), 60);
}

#[test]
fn search_index_by_type() {
    assert_eq!(search_index("all"), "all");
    assert_eq!(search_index("dashboard"), "dashboard_search_index");
    assert_eq!(search_index("pipeline"), "pipeline_search_index");
    assert_eq!(search_index("table"), "table_search_index");
    assert_eq!(search_index("topic"), "table_search_index");
}

#[test]
fn search_rows_read_the_hits() {
    let raw = obj(vec![(
        "hits",
        obj(vec![(
            "hits",
            arr(vec![
                obj(vec![
                    ("_score", Json::Number("1.5".into())),
                    ("_source", obj(vec![("name", st("orders")), ("entityType", st("table")), ("owner", obj(vec![("name", st("ops"))]))])),
                ]),
                obj(vec![("_score", st("x"))]),
            ]),
        )]),
    )]);
    let rows = search_rows(&raw);
    assert_eq!(rows.len(), 2);
    assert_eq!(rows[0].name, "orders");
    assert_eq!(rows[0].kind, "table");
    assert_eq!(rows[0].owner, "ops");
    assert_eq!(rows[0].score, Some("1.5".to_string()));
    assert_eq!(rows[1].name, "—");
    assert_eq!(rows[1].score, None);
    let r = hit_to_row(&obj(vec![("_source", obj(vec![("description", st(&"d".repeat(61)))]))]));
    assert_eq!(r.description, format!("{}…", "d".repeat(59)));
}

fn patch_args(description: Option<&str>, owner: Option<&str>, tags: Vec<&str>) -> Args {
    Args {
        fqn: "s.d.t".to_string(),
        description: description.map(|s| s.to_string()),
        owner: owner.map(|s| s.to_string()),
        tags: tags.into_iter().map(|s| s.to_string()).collect(),
        yes: true,
        json: false,
    }
}

#[test]
fn patch_needs_something_to_change() {
    let err = plan_ops(&patch_args(None, None, vec![])).unwrap_err();
    assert_eq!(err, PatchError::NothingToPatch);
    assert_eq!(err.message(), "nothing to patch -- pass --description, --owner, or --tag");
}

#[test]
fn patch_ops_are_ordered() {
    let ops = plan_ops(&patch_args(Some("new"), Some("team-x"), vec!["PII.Sensitive", "Tier.1"])).unwrap();
    assert_eq!(ops.len(), 4);
    assert_eq!(str_of(member(&ops[0], "op")), "add");
    assert_eq!(str_of(member(&ops[0], "path")), "/description");
    assert_eq!(str_of(member(&ops[0], "value")), "new");
    assert_eq!(str_of(member(&ops[1], "path")), "/owners");
    match member(&ops[1], "value") {
        Json::Array(a) => {
            assert_eq!(a.len(), 1);
            assert_eq!(str_of(member(&a[0], "type")), "team");
            assert_eq!(str_of(member(&a[0], "name")), "team-x");
        }
        other => panic!("owners is not a list: {:?}", other),
    }
    assert_eq!(str_of(member(&ops[2], "path")), "/tags/-");
    assert_eq!(str_of(member(member(&ops[2], "value"), "tagFQN")), "PII.Sensitive");
    assert_eq!(str_of(member(member(&ops[3], "value"), "tagFQN")), "Tier.1");
    assert_eq!(str_of(member(member(&ops[3], "value"), "labelType")), "Manual");
    assert_eq!(str_of(member(member(&ops[3], "value"), "state")), "Confirmed");
    let ops = plan_ops(&patch_args(None, None, vec!["A"])).unwrap();
    assert_eq!(ops.len(), 1);
}

#[test]
fn patch_path_encodes_slashes_and_colons() {
    assert_eq!(urlencode_fqn("svc:db/t x"), "svc%3Adb%2Ft%20x");
    assert_eq!(patch_path("s.d.t"), "/api/v1/tables/name/s.d.t");
}

#[test]
fn confirmation_answers() {
    assert!(confirms("y\n"));
    assert!(confirms("  YES "));
    assert!(!confirms("n"));
    assert!(!confirms(""));
    assert!(!confirms("yes please"));
}

#[test]
fn configure_saves_a_normalized_host() {
    let d = settings_to_save("https://h/api//", "tok".to_string());
    assert_eq!(d.host, Some("https://h/api".to_string()));
    assert_eq!(d.token, Some("tok".to_string()));
}

#[test]
fn mcp_proxy_helpers() {
    assert_eq!(upstream_url("https://h/api/"), "https://h/api/mcp");
    assert_eq!(unreachable_body("refused"), r#"{"error":"upstream_unreachable","detail":"refused"}"#);
    assert_eq!(relayed_status(200), 200);
    assert_eq!(relayed_status(42), 502);
    assert_eq!(relayed_status(1000), 502);
}

#[test]
fn lower_case_classifiers() {
    assert_eq!(kind_from_lower("pipeline"), NodeKind::Pipeline);
    assert_eq!(kind_from_lower("Pipeline"), NodeKind::Table);
    assert_eq!(label_from_lower("pass"), "✅ pass");
    assert_eq!(label_from_lower("PASS"), "—");
    assert!(confirms_lower("yes"));
    assert!(!confirms_lower("Yes"));
}
