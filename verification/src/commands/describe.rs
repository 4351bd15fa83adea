//! `describe`: the summary of one table shown to the user.

use vstd::prelude::*;
use crate::commands::{
    has_text, key_views, law_pick_first_text, pick, pick_owner, pick_owner_spec, pick_spec, truncate,
    truncate_spec,
};
use crate::json::Json;
use crate::text::{join, join_spec, owned, str_eq};

verus! {

/// The arguments of `describe`.
#[derive(Debug)]
pub struct Args {
    /// Fully-qualified name, e.g. `sample_data.ecommerce_db.shopify.dim_customer`.
    pub fqn: String,
    /// Print raw JSON instead of a formatted view.
    pub json: bool,
}

/// The `tagFQN` strings of a list of tag labels, in order, skipping labels
/// without one.
pub open spec fn tag_fqns(tags: Seq<Json>) -> Seq<Seq<char>>
    decreases tags.len(),
{
    if tags.len() == 0 {
        Seq::empty()
    } else {
        let rest = tag_fqns(tags.drop_last());
        match tags.last().str_member("tagFQN"@) {
            Some(t) => rest.push(t),
            None => rest,
        }
    }
}

/// The tag names of two lists of labels are those of the first followed by
/// those of the second, and one label gives its `tagFQN` string if it has
/// one and nothing otherwise.
pub proof fn law_tag_fqns(a: Seq<Json>, b: Seq<Json>, t: Json)
    ensures
        tag_fqns(a + b) == tag_fqns(a) + tag_fqns(b),
        t.str_member("tagFQN"@) matches Some(f) ==> tag_fqns(seq![t]) == seq![f],
        t.str_member("tagFQN"@) is None ==> tag_fqns(seq![t]) == Seq::<Seq<char>>::empty(),
    decreases b.len(),
{
    assert(seq![t].drop_last() =~= Seq::<Json>::empty());
    assert(seq![t].last() == t);
    assert(tag_fqns(Seq::<Json>::empty()) =~= Seq::<Seq<char>>::empty());
    match t.str_member("tagFQN"@) {
        Some(f) => {
            assert(tag_fqns(seq![t]) =~= seq![f]);
        },
        None => {
            assert(tag_fqns(seq![t]) =~= Seq::<Seq<char>>::empty());
        },
    }
    if b.len() == 0 {
        assert(a + b =~= a);
        assert(tag_fqns(a) + tag_fqns(b) =~= tag_fqns(a));
    } else {
        assert((a + b).drop_last() =~= a + b.drop_last());
        assert((a + b).last() == b.last());
        law_tag_fqns(a, b.drop_last(), t);
        match b.last().str_member("tagFQN"@) {
            Some(f) => {
                assert(tag_fqns(a) + tag_fqns(b.drop_last()).push(f) =~= (tag_fqns(a) + tag_fqns(
                    b.drop_last(),
                )).push(f));
            },
            None => {},
        }
    }
}

/// The views of a list of strings.
pub open spec fn views(v: Seq<String>) -> Seq<Seq<char>> {
    v.map_values(|s: String| s@)
}

/// The `tagFQN` of each tag label that has one.
pub fn tag_names(tags: &Vec<Json>) -> (r: Vec<String>)
    ensures
        views(r@) == tag_fqns(tags@),
{
    let mut out: Vec<String> = Vec::new();
    let mut i: usize = 0;
    while i < tags.len()
        invariant
            i <= tags@.len(),
            views(out@) == tag_fqns(tags@.subrange(0, i as int)),
        decreases tags.len() - i,
    {
        assert(tags@.subrange(0, i + 1).drop_last() =~= tags@.subrange(0, i as int));
        if let Some(t) = tags[i].str_at("tagFQN") {
            out.push(t.clone());
        }
        i = i + 1;
        assert(views(out@) =~= tag_fqns(tags@.subrange(0, i as int)));
    }
    assert(tags@.subrange(0, tags@.len() as int) =~= tags@);
    out
}

/// One row of the column table.
#[derive(Debug)]
pub struct ColumnRow {
    pub name: String,
    pub data_type: String,
    pub nullable: String,
    pub tags: String,
    pub description: String,
}

/// A column is not nullable when it is constrained `NOT_NULL` or `PRIMARY_KEY`.
pub open spec fn nullable_text(c: Json) -> Seq<char> {
    if c.str_member("constraint"@) == Some("NOT_NULL"@) || c.str_member("constraint"@) == Some(
        "PRIMARY_KEY"@,
    ) {
        "no"@
    } else {
        "yes"@
    }
}

/// The row shown for the column `c`.
pub open spec fn column_row_spec(row: ColumnRow, c: Json) -> bool {
    &&& row.name@ == pick_spec(c, seq!["name"@])
    &&& row.data_type@ == pick_spec(c, seq!["dataType"@, "type"@])
    &&& row.nullable@ == nullable_text(c)
    &&& row.tags@ == match c.array_member("tags"@) {
        Some(a) => join_spec(tag_fqns(a), ","@),
        None => Seq::empty(),
    }
    &&& row.description@ == truncate_spec(pick_spec(c, seq!["description"@]), 50)
}

/// The row for one column.
pub fn column_row(c: &Json) -> (r: ColumnRow)
    ensures
        column_row_spec(r, *c),
        (c.str_member("constraint"@) == Some("NOT_NULL"@) || c.str_member("constraint"@) == Some(
            "PRIMARY_KEY"@,
        )) ==> r.nullable@ == "no"@,
        !(c.str_member("constraint"@) == Some("NOT_NULL"@) || c.str_member("constraint"@) == Some(
            "PRIMARY_KEY"@,
        )) ==> r.nullable@ == "yes"@,
{
    let not_null = match c.str_at("constraint") {
        Some(s) => str_eq(s.as_str(), "NOT_NULL") || str_eq(s.as_str(), "PRIMARY_KEY"),
        None => false,
    };
    let nullable = if not_null { owned("no") } else { owned("yes") };
    let tags = match c.array_at("tags") {
        Some(a) => {
            let names = tag_names(a);
            join(&names, ",")
        },
        None => String::new(),
    };
    let k_name: [&str; 1] = ["name"];
    let k_type: [&str; 2] = ["dataType", "type"];
    let k_desc: [&str; 1] = ["description"];
    assert(key_views(k_name@) =~= seq!["name"@]);
    assert(key_views(k_type@) =~= seq!["dataType"@, "type"@]);
    assert(key_views(k_desc@) =~= seq!["description"@]);
    let desc = pick(c, &k_desc);
    ColumnRow {
        name: pick(c, &k_name),
        data_type: pick(c, &k_type),
        nullable,
        tags,
        description: truncate(desc.as_str(), 50),
    }
}

/// A column constrained `NOT_NULL` or `PRIMARY_KEY` is shown as not
/// nullable ("no"), any other column as nullable ("yes"); its name is its
/// `name`, its type its `dataType` (else its `type`), and its description
/// is cut to 50 characters.
pub proof fn law_column_row(row: ColumnRow, c: Json)
    requires
        column_row_spec(row, c),
    ensures
        (c.str_member("constraint"@) == Some("NOT_NULL"@) || c.str_member("constraint"@) == Some(
            "PRIMARY_KEY"@,
        )) ==> row.nullable@ == "no"@,
        !(c.str_member("constraint"@) == Some("NOT_NULL"@) || c.str_member("constraint"@) == Some(
            "PRIMARY_KEY"@,
        )) ==> row.nullable@ == "yes"@,
        has_text(c, "name"@) ==> row.name@ == c.str_member("name"@)->0,
        !has_text(c, "name"@) ==> row.name@ == "—"@,
        has_text(c, "dataType"@) ==> row.data_type@ == c.str_member("dataType"@)->0,
        !has_text(c, "dataType"@) && has_text(c, "type"@) ==> row.data_type@ == c.str_member(
            "type"@,
        )->0,
        row.description@.len() <= 50,
        has_text(c, "description"@) && c.str_member("description"@)->0.len() <= 50
            ==> row.description@ == c.str_member("description"@)->0,
{
    let kn = seq!["name"@];
    let kt = seq!["dataType"@, "type"@];
    let kd = seq!["description"@];
    law_pick_first_text(c, kn, 0);
    law_pick_first_text(c, kt, 0);
    law_pick_first_text(c, kt, 1);
    law_pick_first_text(c, kd, 0);
    crate::commands::law_truncate_length(pick_spec(c, kd), 50);
}

/// What `describe` shows of a table.
#[derive(Debug)]
pub struct TableSummary {
    pub title: String,
    pub kind: String,
    pub owner: String,
    pub description: String,
    /// The table's tags; the tag line is shown only when there are some.
    pub tags: Vec<String>,
    pub columns: Vec<ColumnRow>,
    /// The name of the table's test suite, when it has one.
    pub quality: Option<String>,
}

/// The test-suite line: present when `testSuite` is present and not null.
pub open spec fn quality_spec(t: Json) -> Option<Seq<char>> {
    match t.member("testSuite"@) {
        Some(s) => if s is Null {
            None
        } else {
            Some(pick_spec(s, seq!["name"@, "fullyQualifiedName"@]))
        },
        None => None,
    }
}

/// The summary of the table `t`.
pub fn summarize(t: &Json) -> (r: TableSummary)
    ensures
        r.title@ == pick_spec(*t, seq!["fullyQualifiedName"@, "name"@]),
        r.kind@ == pick_spec(*t, seq!["entityType"@, "type"@]),
        r.owner@ == pick_owner_spec(*t),
        r.description@ == pick_spec(*t, seq!["description"@]),
        views(r.tags@) == tag_fqns(t.array_member_or_empty("tags"@)),
        r.columns@.len() == t.array_member_or_empty("columns"@).len(),
        forall|i: int|
            0 <= i < r.columns@.len() ==> column_row_spec(
                #[trigger] r.columns@[i],
                t.array_member_or_empty("columns"@)[i],
            ),
        match r.quality {
            Some(q) => quality_spec(*t) == Some(q@),
            None => quality_spec(*t) is None,
        },
        has_text(*t, "fullyQualifiedName"@) ==> r.title@ == t.str_member("fullyQualifiedName"@)->0,
        !has_text(*t, "fullyQualifiedName"@) && has_text(*t, "name"@) ==> r.title@ == t.str_member(
            "name"@,
        )->0,
        has_text(*t, "entityType"@) ==> r.kind@ == t.str_member("entityType"@)->0,
        !has_text(*t, "entityType"@) && has_text(*t, "type"@) ==> r.kind@ == t.str_member(
            "type"@,
        )->0,
        has_text(*t, "description"@) ==> r.description@ == t.str_member("description"@)->0,
        !has_text(*t, "description"@) ==> r.description@ == "—"@,
        (t.member("testSuite"@) is None || t.member("testSuite"@) == Some(Json::Null))
            <==> r.quality is None,
        ({
            let s = t.member("testSuite"@)->0;
            &&& t.member("testSuite"@) is Some && has_text(s, "name"@) ==> r.quality is Some
                && r.quality->0@ == s.str_member("name"@)->0
            &&& t.member("testSuite"@) is Some && !has_text(s, "name"@) && has_text(
                s,
                "fullyQualifiedName"@,
            ) ==> r.quality is Some && r.quality->0@ == s.str_member("fullyQualifiedName"@)->0
        }),
{
    proof {
        let kt = seq!["fullyQualifiedName"@, "name"@];
        let kk = seq!["entityType"@, "type"@];
        let kd = seq!["description"@];
        law_pick_first_text(*t, kt, 0);
        law_pick_first_text(*t, kt, 1);
        law_pick_first_text(*t, kk, 0);
        law_pick_first_text(*t, kk, 1);
        law_pick_first_text(*t, kd, 0);
        if let Some(s) = t.member("testSuite"@) {
            let ks = seq!["name"@, "fullyQualifiedName"@];
            law_pick_first_text(s, ks, 0);
            law_pick_first_text(s, ks, 1);
        }
    }
    let k_title: [&str; 2] = ["fullyQualifiedName", "name"];
    let k_kind: [&str; 2] = ["entityType", "type"];
    let k_desc: [&str; 1] = ["description"];
    let k_suite: [&str; 2] = ["name", "fullyQualifiedName"];
    assert(key_views(k_title@) =~= seq!["fullyQualifiedName"@, "name"@]);
    assert(key_views(k_kind@) =~= seq!["entityType"@, "type"@]);
    assert(key_views(k_desc@) =~= seq!["description"@]);
    assert(key_views(k_suite@) =~= seq!["name"@, "fullyQualifiedName"@]);
    let tags = match t.array_at("tags") {
        Some(a) => tag_names(a),
        None => {
            let v: Vec<String> = Vec::new();
            assert(views(v@) =~= tag_fqns(Seq::empty()));
            v
        },
    };
    let mut columns: Vec<ColumnRow> = Vec::new();
    if let Some(cols) = t.array_at("columns") {
        let mut i: usize = 0;
        while i < cols.len()
            invariant
                t.array_member_or_empty("columns"@) == cols@,
                i <= cols@.len(),
                columns@.len() == i,
                forall|j: int|
                    0 <= j < i ==> column_row_spec(#[trigger] columns@[j], cols@[j]),
            decreases cols.len() - i,
        {
            columns.push(column_row(&cols[i]));
            i = i + 1;
        }
    }
    let quality = match t.get("testSuite") {
        Some(s) => if s.is_null() {
            None
        } else {
            Some(pick(s, &k_suite))
        },
        None => None,
    };
    TableSummary {
        title: pick(t, &k_title),
        kind: pick(t, &k_kind),
        owner: pick_owner(t),
        description: pick(t, &k_desc),
        tags,
        columns,
        quality,
    }
}

} // verus!
