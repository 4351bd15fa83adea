//! `search`: which index a search uses and the row shown for each hit.

use vstd::prelude::*;
use crate::commands::{
    has_text, key_views, law_pick_first_text, pick, pick_owner, pick_owner_spec, pick_spec,
    truncate, truncate_spec,
};
use crate::json::Json;
use crate::text::str_eq;

verus! {

/// The arguments of `search`.
#[derive(Debug)]
pub struct Args {
    /// The search term (table / dashboard / pipeline / column).
    pub query: String,
    /// Limit to a single entity type, or `all`.
    pub entity_type: String,
    /// Maximum number of hits to return.
    pub limit: usize,
    /// Print raw JSON instead of a formatted table.
    pub json: bool,
}

/// The search index for an entity type; unknown types search tables.
pub open spec fn index_spec(kind: Seq<char>) -> Seq<char> {
    if kind == "all"@ {
        "all"@
    } else if kind == "dashboard"@ {
        "dashboard_search_index"@
    } else if kind == "pipeline"@ {
        "pipeline_search_index"@
    } else {
        "table_search_index"@
    }
}

/// `all` searches every index, `dashboard` and `pipeline` their own index,
/// and every other type the table index.
pub proof fn law_search_index(kind: Seq<char>)
    ensures
        kind == "all"@ ==> index_spec(kind) == "all"@,
        kind == "dashboard"@ ==> index_spec(kind) == "dashboard_search_index"@,
        kind == "pipeline"@ ==> index_spec(kind) == "pipeline_search_index"@,
        kind != "all"@ && kind != "dashboard"@ && kind != "pipeline"@ ==> index_spec(kind)
            == "table_search_index"@,
{
    reveal_strlit("all");
    reveal_strlit("dashboard");
    reveal_strlit("pipeline");
    assert("all"@.len() != "dashboard"@.len() && "all"@.len() != "pipeline"@.len());
    assert("dashboard"@.len() != "pipeline"@.len());
}

/// Chooses the search index for an entity type.
pub fn search_index(kind: &str) -> (r: &'static str)
    ensures
        r@ == index_spec(kind@),
{
    if str_eq(kind, "all") {
        "all"
    } else if str_eq(kind, "dashboard") {
        "dashboard_search_index"
    } else if str_eq(kind, "pipeline") {
        "pipeline_search_index"
    } else {
        "table_search_index"
    }
}

/// One row of the result table. The score is the text of the hit's
/// `_score` number, rounded for display by the caller.
#[derive(Debug)]
pub struct SearchRow {
    pub name: String,
    pub kind: String,
    pub owner: String,
    pub description: String,
    pub score: Option<String>,
}

/// The indexed document of a hit, or null.
pub open spec fn source_of(hit: Json) -> Json {
    match hit.member("_source"@) {
        Some(s) => s,
        None => Json::Null,
    }
}

/// The text of the hit's `_score`, when it is a number.
pub open spec fn score_of(hit: Json) -> Option<Seq<char>> {
    match hit.member("_score"@) {
        Some(Json::Number(t)) => Some(t@),
        _ => None,
    }
}

/// The row shown for a hit.
pub open spec fn hit_row_spec(row: SearchRow, hit: Json) -> bool {
    let src = source_of(hit);
    &&& row.name@ == pick_spec(src, seq!["fullyQualifiedName"@, "name"@, "displayName"@])
    &&& row.kind@ == pick_spec(src, seq!["entityType"@, "type"@])
    &&& row.owner@ == pick_owner_spec(src)
    &&& row.description@ == truncate_spec(pick_spec(src, seq!["description"@]), 60)
    &&& match row.score {
        Some(t) => score_of(hit) == Some(t@),
        None => score_of(hit) is None,
    }
}

/// The row for one hit.
pub fn hit_to_row(hit: &Json) -> (r: SearchRow)
    ensures
        hit_row_spec(r, *hit),
        has_text(source_of(*hit), "fullyQualifiedName"@) ==> r.name@ == source_of(
            *hit,
        ).str_member("fullyQualifiedName"@)->0,
{
    let null = Json::Null;
    let src: &Json = match hit.get("_source") {
        Some(s) => s,
        None => &null,
    };
    let k_name: [&str; 3] = ["fullyQualifiedName", "name", "displayName"];
    let k_kind: [&str; 2] = ["entityType", "type"];
    let k_desc: [&str; 1] = ["description"];
    assert(key_views(k_name@) =~= seq!["fullyQualifiedName"@, "name"@, "displayName"@]);
    assert(key_views(k_kind@) =~= seq!["entityType"@, "type"@]);
    assert(key_views(k_desc@) =~= seq!["description"@]);
    let score = match hit.get("_score") {
        Some(Json::Number(t)) => Some(t.clone()),
        _ => None,
    };
    let desc = pick(src, &k_desc);
    SearchRow {
        name: pick(src, &k_name),
        kind: pick(src, &k_kind),
        owner: pick_owner(src),
        description: truncate(desc.as_str(), 60),
        score,
    }
}

/// A hit is named by the fully-qualified name of its document when that is
/// a non-empty string, else by its `name`, else by its `displayName`; its
/// kind is the document's `entityType`, else its `type`; its description is
/// cut to 60 characters; and its score is the `_score` number.
pub proof fn law_hit_row(row: SearchRow, hit: Json)
    requires
        hit_row_spec(row, hit),
    ensures
        ({
            let src = source_of(hit);
            &&& has_text(src, "fullyQualifiedName"@) ==> row.name@ == src.str_member(
                "fullyQualifiedName"@,
            )->0
            &&& !has_text(src, "fullyQualifiedName"@) && has_text(src, "name"@) ==> row.name@
                == src.str_member("name"@)->0
            &&& !has_text(src, "fullyQualifiedName"@) && !has_text(src, "name"@) && has_text(
                src,
                "displayName"@,
            ) ==> row.name@ == src.str_member("displayName"@)->0
            &&& !has_text(src, "fullyQualifiedName"@) && !has_text(src, "name"@) && !has_text(
                src,
                "displayName"@,
            ) ==> row.name@ == "—"@
            &&& has_text(src, "entityType"@) ==> row.kind@ == src.str_member("entityType"@)->0
            &&& !has_text(src, "entityType"@) && has_text(src, "type"@) ==> row.kind@
                == src.str_member("type"@)->0
            &&& row.description@.len() <= 60
            &&& (hit.member("_score"@) matches Some(Json::Number(t)) ==> row.score matches Some(
                x,
            ) && x@ == t@)
        }),
{
    let src = source_of(hit);
    let kn = seq!["fullyQualifiedName"@, "name"@, "displayName"@];
    let kk = seq!["entityType"@, "type"@];
    law_pick_first_text(src, kn, 0);
    law_pick_first_text(src, kn, 1);
    law_pick_first_text(src, kn, 2);
    law_pick_first_text(src, kk, 0);
    law_pick_first_text(src, kk, 1);
    crate::commands::law_truncate_length(pick_spec(src, seq!["description"@]), 60);
}

/// The hits of a search answer: `hits.hits` when it is an array, else none.
pub open spec fn hits_spec(raw: Json) -> Seq<Json> {
    match raw.member("hits"@) {
        Some(h) => h.array_member_or_empty("hits"@),
        None => Seq::empty(),
    }
}

/// One row per hit, in order.
pub fn search_rows(raw: &Json) -> (r: Vec<SearchRow>)
    ensures
        r@.len() == hits_spec(*raw).len(),
        forall|i: int| 0 <= i < r@.len() ==> hit_row_spec(#[trigger] r@[i], hits_spec(*raw)[i]),
{
    let mut rows: Vec<SearchRow> = Vec::new();
    let hits = match raw.get("hits") {
        Some(h) => match h.array_at("hits") {
            Some(a) => a,
            None => {
                return rows;
            },
        },
        None => {
            return rows;
        },
    };
    let mut i: usize = 0;
    while i < hits.len()
        invariant
            hits_spec(*raw) == hits@,
            i <= hits@.len(),
            rows@.len() == i,
            forall|j: int| 0 <= j < i ==> hit_row_spec(#[trigger] rows@[j], hits@[j]),
        decreases hits.len() - i,
    {
        rows.push(hit_to_row(&hits[i]));
        i = i + 1;
    }
    rows
}

/// A search that found nothing (the answer to a 404) has no hits.
pub proof fn law_not_found_search_has_no_hits(raw: Json)
    requires
        raw.member("hits"@) matches Some(h) && h.array_member("hits"@) == Some(Seq::<Json>::empty()),
    ensures
        hits_spec(raw).len() == 0,
{
}

} // verus!
