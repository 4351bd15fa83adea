//! `lineage`: which edges of a lineage graph touch the root table, and how
//! each neighbour is named and classified in the printed tree.

use vstd::prelude::*;
use crate::json::{derefs, empty_arrays_object, Json};
use crate::text::{lowercase, owned, str_eq, to_lowercase};

verus! {

/// Which side of the graph to walk.
#[derive(Debug, Clone, Copy, PartialEq, Eq)]
pub enum Direction {
    Upstream,
    Downstream,
    Both,
}

/// The arguments of `lineage`.
#[derive(Debug)]
pub struct Args {
    /// Fully-qualified name of the table.
    pub fqn: String,
    /// Which side of the graph to walk.
    pub direction: Direction,
    /// Maximum depth in either direction.
    pub depth: u32,
    /// Print raw JSON (nodes + edges) instead of a tree.
    pub json: bool,
}

/// The upstream and downstream depths to ask for.
pub fn depths(direction: Direction, depth: u32) -> (r: (u32, u32))
    ensures
        r == match direction {
            Direction::Upstream => (depth, 0u32),
            Direction::Downstream => (0u32, depth),
            Direction::Both => (depth, depth),
        },
{
    match direction {
        Direction::Upstream => (depth, 0),
        Direction::Downstream => (0, depth),
        Direction::Both => (depth, depth),
    }
}

/// The upstream side is shown.
pub open spec fn shows_upstream(d: Direction) -> bool {
    d == Direction::Upstream || d == Direction::Both
}

/// The downstream side is shown.
pub open spec fn shows_downstream(d: Direction) -> bool {
    d == Direction::Downstream || d == Direction::Both
}

/// The kind of a catalog entity, as the tree labels it.
#[derive(Debug, Clone, Copy, PartialEq, Eq)]
pub enum NodeKind {
    Dashboard,
    Pipeline,
    Topic,
    Table,
}

/// The kind named by an already lower-cased type name; anything else is a
/// table.
pub open spec fn kind_of_lower(l: Seq<char>) -> NodeKind {
    if l == "dashboard"@ {
        NodeKind::Dashboard
    } else if l == "pipeline"@ {
        NodeKind::Pipeline
    } else if l == "topic"@ {
        NodeKind::Topic
    } else {
        NodeKind::Table
    }
}

/// The kind named by `kind`, compared in lower case.
pub open spec fn kind_spec(kind: Seq<char>) -> NodeKind {
    kind_of_lower(lowercase(kind))
}

/// `dashboard`, `pipeline` and `topic` name their kinds; every other
/// lower-cased type name is a table.
pub proof fn law_kind_of_lower(l: Seq<char>)
    ensures
        l == "dashboard"@ ==> kind_of_lower(l) == NodeKind::Dashboard,
        l == "pipeline"@ ==> kind_of_lower(l) == NodeKind::Pipeline,
        l == "topic"@ ==> kind_of_lower(l) == NodeKind::Topic,
        l != "dashboard"@ && l != "pipeline"@ && l != "topic"@ ==> kind_of_lower(l)
            == NodeKind::Table,
{
    reveal_strlit("dashboard");
    reveal_strlit("pipeline");
    reveal_strlit("topic");
    assert("dashboard"@.len() != "pipeline"@.len() && "dashboard"@.len() != "topic"@.len());
    assert("pipeline"@.len() != "topic"@.len());
}

/// Classifies a type name that is already in lower case.
pub fn kind_from_lower(lower: &str) -> (r: NodeKind)
    ensures
        r == kind_of_lower(lower@),
{
    if str_eq(lower, "dashboard") {
        NodeKind::Dashboard
    } else if str_eq(lower, "pipeline") {
        NodeKind::Pipeline
    } else if str_eq(lower, "topic") {
        NodeKind::Topic
    } else {
        NodeKind::Table
    }
}

/// Classifies an entity type name.
pub fn format_kind(kind: &str) -> (r: NodeKind)
    ensures
        r == kind_spec(kind@),
{
    let l = to_lowercase(kind);
    kind_from_lower(l.as_str())
}

impl NodeKind {
    /// The label printed before an entity's name.
    pub fn label(&self) -> (r: String)
        ensures
            r@ == match *self {
                NodeKind::Dashboard => "[dashboard]"@,
                NodeKind::Pipeline => "[pipeline]"@,
                NodeKind::Topic => "[topic]"@,
                NodeKind::Table => "[table]"@,
            },
    {
        match self {
            NodeKind::Dashboard => owned("[dashboard]"),
            NodeKind::Pipeline => owned("[pipeline]"),
            NodeKind::Topic => owned("[topic]"),
            NodeKind::Table => owned("[table]"),
        }
    }
}

/// The entity id at `key` of an edge: the member itself when it is a string,
/// or the `id` string of the member when it is an object.
pub open spec fn edge_id_spec(edge: Json, key: Seq<char>) -> Option<Seq<char>> {
    match edge.member(key) {
        Some(m) => match m {
            Json::Str(s) => Some(s@),
            Json::Object(_) => m.str_member("id"@),
            _ => None,
        },
        None => None,
    }
}

/// Reads an entity id from an edge.
pub fn edge_id(edge: &Json, key: &str) -> (r: Option<String>)
    ensures
        match r {
            Some(s) => edge_id_spec(*edge, key@) == Some(s@),
            None => edge_id_spec(*edge, key@) is None,
        },
{
    match edge.get(key) {
        Some(m) => match m {
            Json::Str(s) => Some(s.clone()),
            Json::Object(_) => match m.str_at("id") {
                Some(s) => Some(s.clone()),
                None => None,
            },
            _ => None,
        },
        None => None,
    }
}

/// An upstream edge ends at the root; a downstream edge starts at it.
pub open spec fn touches_root(edge: Json, root: Seq<char>, upstream: bool) -> bool {
    if upstream {
        edge_id_spec(edge, "toEntity"@) == Some(root)
    } else {
        edge_id_spec(edge, "fromEntity"@) == Some(root)
    }
}

/// The edges that touch the root, in the order they are listed.
pub open spec fn touching(edges: Seq<Json>, root: Seq<char>, upstream: bool) -> Seq<Json>
    decreases edges.len(),
{
    if edges.len() == 0 {
        Seq::empty()
    } else {
        let rest = touching(edges.drop_last(), root, upstream);
        if touches_root(edges.last(), root, upstream) {
            rest.push(edges.last())
        } else {
            rest
        }
    }
}

/// The edges kept for a branch are exactly the listed edges that touch the
/// root (an upstream edge ending at it, a downstream edge starting at it),
/// every one of them, in the order they are listed.
pub proof fn law_touching_is_filter(edges: Seq<Json>, root: Seq<char>, upstream: bool)
    ensures
        touching(edges, root, upstream) == edges.filter(|e: Json| touches_root(e, root, upstream)),
    decreases edges.len(),
{
    reveal_with_fuel(Seq::<_>::filter, 1);
    if edges.len() > 0 {
        law_touching_is_filter(edges.drop_last(), root, upstream);
    }
}

/// An edge of the list is kept exactly when it touches the root, and the
/// number kept is the number of such edges.
pub proof fn law_touching_members(edges: Seq<Json>, root: Seq<char>, upstream: bool, e: Json)
    ensures
        touching(edges, root, upstream).contains(e) <==> (edges.contains(e) && if upstream {
            edge_id_spec(e, "toEntity"@) == Some(root)
        } else {
            edge_id_spec(e, "fromEntity"@) == Some(root)
        }),
        touching(edges, root, upstream).len() <= edges.len(),
{
    law_touching_is_filter(edges, root, upstream);
    let pred = |x: Json| touches_root(x, root, upstream);
    edges.filter_lemma(pred);
    edges.lemma_filter_len(pred);
    let f = edges.filter(pred);
    if f.contains(e) {
        let k = choose|k: int| 0 <= k < f.len() && f[k] == e;
        assert(pred(f[k]));
        lemma_filtered_in_list(edges, pred, k);
    }
    if edges.contains(e) && touches_root(e, root, upstream) {
        let i = choose|i: int| 0 <= i < edges.len() && edges[i] == e;
        assert(pred(edges[i]));
        assert(f.contains(edges[i]));
    }
}

proof fn lemma_filtered_in_list(s: Seq<Json>, pred: spec_fn(Json) -> bool, k: int)
    requires
        0 <= k < s.filter(pred).len(),
    ensures
        s.contains(s.filter(pred)[k]),
    decreases s.len(),
{
    reveal_with_fuel(Seq::<_>::filter, 1);
    let d = s.drop_last();
    if k < d.filter(pred).len() {
        lemma_filtered_in_list(d, pred, k);
        let j = choose|j: int| 0 <= j < d.len() && d[j] == d.filter(pred)[k];
        assert(s[j] == d[j]);
    } else {
        assert(s[s.len() - 1] == s.filter(pred)[k]);
    }
}

/// The edges listed under `key` that touch the root.
pub fn collect_edges<'a>(lineage: &'a Json, key: &str, root_id: &str, upstream: bool) -> (r: Vec<
    &'a Json,
>)
    ensures
        derefs(r@) == touching(lineage.array_member_or_empty(key@), root_id@, upstream),
        derefs(r@) == lineage.array_member_or_empty(key@).filter(
            |e: Json| touches_root(e, root_id@, upstream),
        ),
{
    proof {
        law_touching_is_filter(lineage.array_member_or_empty(key@), root_id@, upstream);
    }
    let mut out: Vec<&'a Json> = Vec::new();
    let edges = match lineage.array_at(key) {
        Some(a) => a,
        None => {
            assert(derefs(out@) =~= Seq::<Json>::empty());
            return out;
        },
    };
    let mut i: usize = 0;
    while i < edges.len()
        invariant
            lineage.array_member_or_empty(key@) == edges@,
            i <= edges@.len(),
            derefs(out@) == touching(edges@.subrange(0, i as int), root_id@, upstream),
        decreases edges.len() - i,
    {
        let edge = &edges[i];
        assert(edges@.subrange(0, i + 1).drop_last() =~= edges@.subrange(0, i as int));
        let touches = if upstream {
            match edge_id(edge, "toEntity") {
                Some(t) => str_eq(t.as_str(), root_id),
                None => false,
            }
        } else {
            match edge_id(edge, "fromEntity") {
                Some(f) => str_eq(f.as_str(), root_id),
                None => false,
            }
        };
        if touches {
            out.push(edge);
        }
        i = i + 1;
        assert(derefs(out@) =~= touching(edges@.subrange(0, i as int), root_id@, upstream));
    }
    assert(edges@.subrange(0, edges@.len() as int) =~= edges@);
    out
}

/// The last node whose `id` is `id`, as a map built from the node list in
/// order keeps it.
pub open spec fn find_node(nodes: Seq<Json>, id: Seq<char>) -> Option<Json>
    decreases nodes.len(),
{
    if nodes.len() == 0 {
        None
    } else if nodes.last().str_member("id"@) == Some(id) {
        Some(nodes.last())
    } else {
        find_node(nodes.drop_last(), id)
    }
}

/// The node found for an id is a node of the list with that id, and no later
/// node has it; no node is found only when no node has it.
pub proof fn law_find_node(nodes: Seq<Json>, id: Seq<char>)
    ensures
        find_node(nodes, id) matches Some(n) ==> exists|i: int|
            0 <= i < nodes.len() && nodes[i] == n && n.str_member("id"@) == Some(id) && forall|j: int|
                i < j < nodes.len() ==> (#[trigger] nodes[j]).str_member("id"@) != Some(id),
        find_node(nodes, id) is None ==> forall|i: int|
            0 <= i < nodes.len() ==> (#[trigger] nodes[i]).str_member("id"@) != Some(id),
    decreases nodes.len(),
{
    if nodes.len() > 0 {
        let init = nodes.drop_last();
        law_find_node(init, id);
        if nodes.last().str_member("id"@) == Some(id) {
            assert(nodes[nodes.len() - 1] == nodes.last());
        } else {
            if find_node(init, id) is Some {
                let n = find_node(init, id)->0;
                let i = choose|i: int|
                    0 <= i < init.len() && init[i] == n && n.str_member("id"@) == Some(id) && forall|j: int|
                        i < j < init.len() ==> (#[trigger] init[j]).str_member("id"@) != Some(id);
                assert(nodes[i] == n);
                assert forall|j: int| i < j < nodes.len() implies (#[trigger] nodes[j]).str_member(
                    "id"@,
                ) != Some(id) by {
                    if j < nodes.len() - 1 {
                        assert(nodes[j] == init[j]);
                    }
                }
            } else {
                assert forall|i: int| 0 <= i < nodes.len() implies (#[trigger] nodes[i]).str_member(
                    "id"@,
                ) != Some(id) by {
                    if i < nodes.len() - 1 {
                        assert(nodes[i] == init[i]);
                    }
                }
            }
        }
    }
}

/// Looks up a node by id.
pub fn node_by_id<'a>(nodes: &'a Vec<Json>, id: &str) -> (r: Option<&'a Json>)
    ensures
        deref_node(r) == find_node(nodes@, id@),
{
    let mut i = nodes.len();
    assert(nodes@.subrange(0, i as int) =~= nodes@);
    while i > 0
        invariant
            i <= nodes@.len(),
            find_node(nodes@, id@) == find_node(nodes@.subrange(0, i as int), id@),
        decreases i,
    {
        let ghost cur = nodes@.subrange(0, i as int);
        assert(cur.last() == nodes@[i - 1]);
        assert(cur.drop_last() =~= nodes@.subrange(0, i - 1));
        if let Some(s) = nodes[i - 1].str_at("id") {
            if str_eq(s.as_str(), id) {
                return Some(&nodes[i - 1]);
            }
        }
        i = i - 1;
    }
    None
}

/// The value behind an optional node reference.
pub open spec fn deref_node(r: Option<&Json>) -> Option<Json> {
    match r {
        Some(x) => Some(*x),
        None => None,
    }
}

/// The neighbour an edge leads to: its `toEntity`, else its `fromEntity`,
/// else the empty id.
pub open spec fn edge_target(edge: Json) -> Seq<char> {
    match edge_id_spec(edge, "toEntity"@) {
        Some(t) => t,
        None => match edge_id_spec(edge, "fromEntity"@) {
            Some(f) => f,
            None => Seq::empty(),
        },
    }
}

/// The first of two string members of a node, or a default.
pub open spec fn node_text(node: Option<Json>, k1: Seq<char>, k2: Seq<char>, default: Seq<char>) -> Seq<
    char,
> {
    match node {
        Some(n) => match n.str_member(k1) {
            Some(s) => s,
            None => match n.str_member(k2) {
                Some(s) => s,
                None => default,
            },
        },
        None => default,
    }
}

/// How a neighbour is named in the tree.
pub open spec fn node_name(node: Option<Json>) -> Seq<char> {
    node_text(node, "fullyQualifiedName"@, "name"@, "(unknown)"@)
}

/// The type name of a neighbour.
pub open spec fn node_type(node: Option<Json>) -> Seq<char> {
    node_text(node, "type"@, "entityType"@, "table"@)
}

fn node_text_of(node: Option<&Json>, k1: &str, k2: &str, default: &str) -> (r: String)
    ensures
        r@ == node_text(deref_node(node), k1@, k2@, default@),
{
    match node {
        Some(n) => match n.str_at(k1) {
            Some(s) => s.clone(),
            None => match n.str_at(k2) {
                Some(s) => s.clone(),
                None => owned(default),
            },
        },
        None => owned(default),
    }
}

/// One line of a branch of the tree.
#[derive(Debug)]
pub struct BranchEntry {
    /// The last line of its branch.
    pub last: bool,
    pub kind: NodeKind,
    pub name: String,
}

/// The line for `edge` at position `last` among the nodes `nodes`.
pub open spec fn entry_for(e: BranchEntry, edge: Json, nodes: Seq<Json>, last: bool) -> bool {
    let node = find_node(nodes, edge_target(edge));
    &&& e.last == last
    &&& e.name@ == node_name(node)
    &&& e.kind == kind_spec(node_type(node))
}

/// A line names the node that its edge leads to (its `toEntity`, else its
/// `fromEntity`) by the node's `fullyQualifiedName`, else its `name`, else
/// `(unknown)`, which is also the name when no node has that id; its kind
/// is read from the node's `type`, else its `entityType`, else `table`.
pub proof fn law_branch_entry(e: BranchEntry, edge: Json, nodes: Seq<Json>, last: bool)
    requires
        entry_for(e, edge, nodes, last),
    ensures
        ({
            let to = edge_id_spec(edge, "toEntity"@);
            let from = edge_id_spec(edge, "fromEntity"@);
            let id = if to is Some {
                to->0
            } else if from is Some {
                from->0
            } else {
                Seq::empty()
            };
            let found = find_node(nodes, id);
            let n = found->0;
            &&& e.last == last
            &&& found is None ==> e.name@ == "(unknown)"@ && e.kind == kind_spec("table"@)
            &&& found is Some && n.str_member("fullyQualifiedName"@) is Some ==> e.name@
                == n.str_member("fullyQualifiedName"@)->0
            &&& found is Some && n.str_member("fullyQualifiedName"@) is None && n.str_member(
                "name"@,
            ) is Some ==> e.name@ == n.str_member("name"@)->0
            &&& found is Some && n.str_member("fullyQualifiedName"@) is None && n.str_member(
                "name"@,
            ) is None ==> e.name@ == "(unknown)"@
            &&& found is Some && n.str_member("type"@) is Some ==> e.kind == kind_spec(
                n.str_member("type"@)->0,
            )
            &&& found is Some && n.str_member("type"@) is None && n.str_member("entityType"@) is Some
                ==> e.kind == kind_spec(n.str_member("entityType"@)->0)
            &&& found is Some && n.str_member("type"@) is None && n.str_member("entityType"@) is None
                ==> e.kind == kind_spec("table"@)
        }),
{
}

/// The lines of one branch: one per edge, the last one marked.
pub fn branch_entries(edges: &Vec<&Json>, nodes: &Vec<Json>) -> (r: Vec<BranchEntry>)
    ensures
        r@.len() == edges@.len(),
        forall|i: int|
            0 <= i < r@.len() ==> entry_for(
                #[trigger] r@[i],
                *edges@[i],
                nodes@,
                i == edges@.len() - 1,
            ),
{
    let mut out: Vec<BranchEntry> = Vec::new();
    let mut i: usize = 0;
    while i < edges.len()
        invariant
            i <= edges@.len(),
            out@.len() == i,
            forall|j: int|
                0 <= j < i ==> entry_for(
                    #[trigger] out@[j],
                    *edges@[j],
                    nodes@,
                    j == edges@.len() - 1,
                ),
        decreases edges.len() - i,
    {
        let edge: &Json = edges[i];
        let target = match edge_id(edge, "toEntity") {
            Some(t) => t,
            None => match edge_id(edge, "fromEntity") {
                Some(f) => f,
                None => String::new(),
            },
        };
        assert(target@ == edge_target(*edge));
        let node = node_by_id(nodes, target.as_str());
        let name = node_text_of(node, "fullyQualifiedName", "name", "(unknown)");
        let kind_text = node_text_of(node, "type", "entityType", "table");
        let kind = format_kind(kind_text.as_str());
        out.push(BranchEntry { last: i == edges.len() - 1, kind, name });
        i = i + 1;
    }
    out
}

/// The printed tree: the branches that the direction asks for.
#[derive(Debug)]
pub struct LineageTree {
    pub upstream: Option<Vec<BranchEntry>>,
    pub downstream: Option<Vec<BranchEntry>>,
}

/// The lines of a branch made from the edges under `key` that touch `root`.
pub open spec fn branch_for(
    b: Seq<BranchEntry>,
    lineage: Json,
    key: Seq<char>,
    root: Seq<char>,
    upstream: bool,
) -> bool {
    let edges = touching(lineage.array_member_or_empty(key), root, upstream);
    let nodes = lineage.array_member_or_empty("nodes"@);
    &&& b.len() == edges.len()
    &&& forall|i: int|
        0 <= i < b.len() ==> entry_for(#[trigger] b[i], edges[i], nodes, i == edges.len() - 1)
}

/// The tree of `lineage` around the table `root_id`: the upstream branch
/// lists the upstream edges that end at the root, the downstream branch the
/// downstream edges that start at it.
pub fn tree(root_id: &str, lineage: &Json, direction: Direction) -> (r: LineageTree)
    ensures
        r.upstream is Some <==> shows_upstream(direction),
        r.downstream is Some <==> shows_downstream(direction),
        r.upstream matches Some(b) ==> branch_for(b@, *lineage, "upstreamEdges"@, root_id@, true),
        r.downstream matches Some(b) ==> branch_for(
            b@,
            *lineage,
            "downstreamEdges"@,
            root_id@,
            false,
        ),
{
    let empty: Vec<Json> = Vec::new();
    let nodes: &Vec<Json> = match lineage.array_at("nodes") {
        Some(a) => a,
        None => &empty,
    };
    assert(nodes@ == lineage.array_member_or_empty("nodes"@));
    let up = match direction {
        Direction::Downstream => None,
        _ => {
            let edges = collect_edges(lineage, "upstreamEdges", root_id, true);
            let b = branch_entries(&edges, nodes);
            assert(derefs(edges@).len() == edges@.len());
            assert forall|i: int| 0 <= i < b@.len() implies #[trigger] derefs(edges@)[i]
                == *edges@[i] by {}
            Some(b)
        },
    };
    let down = match direction {
        Direction::Upstream => None,
        _ => {
            let edges = collect_edges(lineage, "downstreamEdges", root_id, false);
            let b = branch_entries(&edges, nodes);
            assert(derefs(edges@).len() == edges@.len());
            assert forall|i: int| 0 <= i < b@.len() implies #[trigger] derefs(edges@)[i]
                == *edges@[i] by {}
            Some(b)
        },
    };
    LineageTree { upstream: up, downstream: down }
}

/// The message when the table has no string `id`.
pub fn missing_id_message() -> (r: String)
    ensures
        r@ == "table response did not include an `id` field"@,
{
    owned("table response did not include an `id` field")
}

/// The id of the table, needed to ask for its lineage.
pub fn table_id(table: &Json) -> (r: Option<String>)
    ensures
        match r {
            Some(id) => table.str_member("id"@) == Some(id@),
            None => table.str_member("id"@) is None,
        },
{
    match table.str_at("id") {
        Some(s) => Some(s.clone()),
        None => None,
    }
}

/// What is shown when the lineage endpoint knows nothing:
/// `{"nodes": [], "upstreamEdges": [], "downstreamEdges": []}`.
pub fn empty_lineage() -> (r: Json)
    ensures
        empty_arrays_object(r, seq!["nodes"@, "upstreamEdges"@, "downstreamEdges"@]),
        r.array_member("nodes"@) == Some(Seq::<Json>::empty()),
        r.array_member("upstreamEdges"@) == Some(Seq::<Json>::empty()),
        r.array_member("downstreamEdges"@) == Some(Seq::<Json>::empty()),
{
    let mut entries: Vec<(String, Json)> = Vec::new();
    entries.push((owned("nodes"), Json::Array(Vec::new())));
    entries.push((owned("upstreamEdges"), Json::Array(Vec::new())));
    entries.push((owned("downstreamEdges"), Json::Array(Vec::new())));
    let r = Json::Object(entries);
    proof {
        reveal_strlit("nodes");
        reveal_strlit("upstreamEdges");
        reveal_strlit("downstreamEdges");
        reveal_with_fuel(crate::json::lookup, 4);
        assert("nodes"@.len() == 5 && "upstreamEdges"@.len() == 13
            && "downstreamEdges"@.len() == 15);
    }
    assert(r.array_member("nodes"@) =~= Some(Seq::<Json>::empty()));
    assert(r.array_member("upstreamEdges"@) =~= Some(Seq::<Json>::empty()));
    assert(r.array_member("downstreamEdges"@) =~= Some(Seq::<Json>::empty()));
    r
}

} // verus!
