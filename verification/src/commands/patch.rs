//! `patch`: the JSON-Patch (RFC 6902) operations sent for a table, where
//! they are sent, and how a confirmation answer is read.

use vstd::prelude::*;
use crate::client::{percent_encode, percent_encode_str};
use crate::json::{lookup, Json};
use crate::text::{concat2, lowercase, owned, str_eq, to_lowercase, trim, trim_spec};

verus! {

/// The arguments of `patch`.
#[derive(Debug)]
pub struct Args {
    pub fqn: String,
    /// New description for the table.
    pub description: Option<String>,
    /// Owner team / user name to set.
    pub owner: Option<String>,
    /// Tag FQNs to add (e.g. `PII.Sensitive`).
    pub tags: Vec<String>,
    /// Skip the confirmation prompt.
    pub yes: bool,
    /// Print raw JSON of the response.
    pub json: bool,
}

/// Why no patch is sent.
#[derive(Debug, Clone, Copy, PartialEq, Eq)]
pub enum PatchError {
    /// Neither a description, an owner nor a tag was given.
    NothingToPatch,
}

impl PatchError {
    /// The message shown to the user.
    pub fn message(&self) -> (r: String)
        ensures
            r@ == "nothing to patch -- pass --description, --owner, or --tag"@,
    {
        owned("nothing to patch -- pass --description, --owner, or --tag")
    }
}

/// `j` is a string value holding `s`.
pub open spec fn is_str(j: Json, s: Seq<char>) -> bool {
    j.string_value() == Some(s)
}

/// `j` is an object whose entries have exactly the keys `keys`, in order,
/// each holding the string of `vals` at the same place.
pub open spec fn is_string_object(j: Json, keys: Seq<Seq<char>>, vals: Seq<Seq<char>>) -> bool {
    match j {
        Json::Object(e) => {
            &&& e@.len() == keys.len()
            &&& vals.len() == keys.len()
            &&& forall|i: int|
                0 <= i < e@.len() ==> (#[trigger] e@[i]).0@ == keys[i] && is_str(e@[i].1, vals[i])
        },
        _ => false,
    }
}

/// The value of `j` when it is `{"op": "add", "path": path, "value": ...}`.
pub open spec fn add_value(j: Json, path: Seq<char>) -> Option<Json> {
    match j {
        Json::Object(e) => if e@.len() == 3 && e@[0].0@ == "op"@ && is_str(e@[0].1, "add"@)
            && e@[1].0@ == "path"@ && is_str(e@[1].1, path) && e@[2].0@ == "value"@ {
            Some(e@[2].1)
        } else {
            None
        },
        _ => None,
    }
}

/// The operation that sets the description to `d`.
pub open spec fn description_op(j: Json, d: Seq<char>) -> bool {
    add_value(j, "/description"@) matches Some(v) && is_str(v, d)
}

/// The operation that sets the owners to the single team `o`.
pub open spec fn owner_op(j: Json, o: Seq<char>) -> bool {
    add_value(j, "/owners"@) matches Some(v) && (v matches Json::Array(a) && a@.len() == 1
        && is_string_object(a@[0], seq!["type"@, "name"@], seq!["team"@, o]))
}

/// The operation that adds the confirmed manual tag `t`.
pub open spec fn tag_op(j: Json, t: Seq<char>) -> bool {
    add_value(j, "/tags/-"@) matches Some(v) && is_string_object(
        v,
        seq!["tagFQN"@, "labelType"@, "state"@],
        seq![t, "Manual"@, "Confirmed"@],
    )
}

/// Where the tag operations begin: after the description's and the owner's.
pub open spec fn tags_start(args: Args) -> int {
    (if args.description is Some { 1int } else { 0int }) + (if args.owner is Some { 1int } else { 0int })
}

/// The operations for the arguments: the description, then the owner, then
/// one per tag in the order given.
pub open spec fn ops_for(ops: Seq<Json>, args: Args) -> bool {
    let d: int = if args.description is Some { 1 } else { 0 };
    let o: int = if args.owner is Some { 1 } else { 0 };
    &&& ops.len() == d + o + args.tags@.len()
    &&& args.description matches Some(x) ==> description_op(ops[0], x@)
    &&& args.owner matches Some(x) ==> owner_op(ops[d], x@)
    &&& forall|i: int|
        0 <= i < args.tags@.len() ==> tag_op(#[trigger] ops[tags_start(args) + i], args.tags@[i]@)
}

proof fn lemma_lookup_at(e: Seq<(String, Json)>, k: Seq<char>, i: int)
    requires
        0 <= i < e.len(),
        e[i].0@ == k,
        forall|j: int| 0 <= j < i ==> (#[trigger] e[j]).0@ != k,
    ensures
        lookup(e, k) == Some(e[i].1),
    decreases i,
{
    if i > 0 {
        assert forall|j: int| 0 <= j < i - 1 implies (#[trigger] e.drop_first()[j]).0@ != k by {
            assert(e.drop_first()[j] == e[j + 1]);
        }
        lemma_lookup_at(e.drop_first(), k, i - 1);
    }
}

proof fn lemma_literal_keys_differ()
    ensures
        "op"@ != "path"@,
        "op"@ != "value"@,
        "path"@ != "value"@,
        "type"@ != "name"@,
        "tagFQN"@ != "labelType"@,
        "tagFQN"@ != "state"@,
        "labelType"@ != "state"@,
{
    reveal_strlit("op");
    reveal_strlit("path");
    reveal_strlit("value");
    reveal_strlit("type");
    reveal_strlit("name");
    reveal_strlit("tagFQN");
    reveal_strlit("labelType");
    reveal_strlit("state");
    assert("type"@[0] != "name"@[0]);
    assert("path"@[0] != "value"@[0]);
    assert("tagFQN"@[0] != "labelType"@[0]);
    assert("tagFQN"@.len() != "state"@.len());
    assert("labelType"@.len() != "state"@.len());
}

proof fn lemma_add_op_members(j: Json, path: Seq<char>)
    requires
        add_value(j, path) is Some,
    ensures
        j.str_member("op"@) == Some("add"@),
        j.str_member("path"@) == Some(path),
        j.member("value"@) == add_value(j, path),
{
    lemma_literal_keys_differ();
    let e = match j {
        Json::Object(e) => e@,
        _ => Seq::empty(),
    };
    lemma_lookup_at(e, "op"@, 0);
    lemma_lookup_at(e, "path"@, 1);
    lemma_lookup_at(e, "value"@, 2);
}

proof fn lemma_string_object_members(j: Json, keys: Seq<Seq<char>>, vals: Seq<Seq<char>>, i: int)
    requires
        is_string_object(j, keys, vals),
        0 <= i < keys.len(),
        forall|a: int, b: int| 0 <= a < b < keys.len() ==> keys[a] != keys[b],
    ensures
        j.str_member(keys[i]) == Some(vals[i]),
{
    let e = match j {
        Json::Object(e) => e@,
        _ => Seq::empty(),
    };
    assert(e[i].0@ == keys[i]);
    assert forall|k: int| 0 <= k < i implies (#[trigger] e[k]).0@ != keys[i] by {
        assert(e[k].0@ == keys[k]);
    }
    lemma_lookup_at(e, keys[i], i);
}

/// Read member by member, `op` adds the confirmed manual tag `t` at `/tags/-`.
pub open spec fn tag_members(op: Json, t: Seq<char>) -> bool {
    &&& op.str_member("op"@) == Some("add"@)
    &&& op.str_member("path"@) == Some("/tags/-"@)
    &&& op.member("value"@) matches Some(v)
    &&& v.str_member("tagFQN"@) == Some(t)
    &&& v.str_member("labelType"@) == Some("Manual"@)
    &&& v.str_member("state"@) == Some("Confirmed"@)
}

/// The patch for a description is `{"op": "add", "path": "/description",
/// "value": description}`; for an owner, an `add` at `/owners` of the single
/// team `{"type": "team", "name": owner}`; for each tag, in order, an `add` at
/// `/tags/-` of the label `{"tagFQN": tag, "labelType": "Manual", "state":
/// "Confirmed"}`; and nothing else.
pub proof fn law_patch_ops(ops: Seq<Json>, args: Args)
    requires
        ops_for(ops, args),
    ensures
        ops.len() == tags_start(args) + args.tags@.len(),
        args.description matches Some(d) ==> {
            &&& ops[0].str_member("op"@) == Some("add"@)
            &&& ops[0].str_member("path"@) == Some("/description"@)
            &&& ops[0].str_member("value"@) == Some(d@)
        },
        args.owner matches Some(w) ==> {
            let k: int = if args.description is Some { 1 } else { 0 };
            &&& ops[k].str_member("op"@) == Some("add"@)
            &&& ops[k].str_member("path"@) == Some("/owners"@)
            &&& ops[k].array_member("value"@) matches Some(teams)
            &&& teams.len() == 1
            &&& teams[0].str_member("type"@) == Some("team"@)
            &&& teams[0].str_member("name"@) == Some(w@)
        },
        forall|i: int|
            0 <= i < args.tags@.len() ==> tag_members(#[trigger] ops[tags_start(args) + i], args.tags@[i]@),
{
    lemma_literal_keys_differ();
    let k: int = if args.description is Some { 1 } else { 0 };
    if args.description is Some {
        lemma_add_op_members(ops[0], "/description"@);
    }
    if args.owner is Some {
        lemma_add_op_members(ops[k], "/owners"@);
        let v = add_value(ops[k], "/owners"@)->0;
        let a = match v {
            Json::Array(a) => a@,
            _ => Seq::empty(),
        };
        let ks = seq!["type"@, "name"@];
        let vs = seq!["team"@, args.owner->0@];
        lemma_string_object_members(a[0], ks, vs, 0);
        lemma_string_object_members(a[0], ks, vs, 1);
    }
    assert forall|i: int| 0 <= i < args.tags@.len() implies tag_members(
        #[trigger] ops[tags_start(args) + i],
        args.tags@[i]@,
    ) by {
        let op = ops[tags_start(args) + i];
        assert(tag_op(op, args.tags@[i]@));
        lemma_add_op_members(op, "/tags/-"@);
        let v = add_value(op, "/tags/-"@)->0;
        let ks = seq!["tagFQN"@, "labelType"@, "state"@];
        let vs = seq![args.tags@[i]@, "Manual"@, "Confirmed"@];
        lemma_string_object_members(v, ks, vs, 0);
        lemma_string_object_members(v, ks, vs, 1);
        lemma_string_object_members(v, ks, vs, 2);
    }
}

/// Nothing is asked to change.
pub open spec fn nothing_to_patch(args: Args) -> bool {
    args.description is None && args.owner is None && args.tags@.len() == 0
}

fn entry(key: &str, value: Json) -> (r: (String, Json))
    ensures
        r.0@ == key@,
        r.1 == value,
{
    (owned(key), value)
}

fn string_object(k0: &str, v0: &str, k1: &str, v1: &str) -> (r: Json)
    ensures
        is_string_object(r, seq![k0@, k1@], seq![v0@, v1@]),
{
    let mut e: Vec<(String, Json)> = Vec::new();
    e.push(entry(k0, Json::string(v0)));
    e.push(entry(k1, Json::string(v1)));
    Json::Object(e)
}

fn add_op(path: &str, value: Json) -> (r: Json)
    ensures
        add_value(r, path@) == Some(value),
{
    let mut e: Vec<(String, Json)> = Vec::new();
    e.push(entry("op", Json::string("add")));
    e.push(entry("path", Json::string(path)));
    e.push(entry("value", value));
    Json::Object(e)
}

/// The patch operations for the arguments, or the reason there are none.
pub fn plan_ops(args: &Args) -> (r: Result<Vec<Json>, PatchError>)
    ensures
        match r {
            Ok(ops) => !nothing_to_patch(*args) && ops_for(ops@, *args),
            Err(e) => e == PatchError::NothingToPatch && nothing_to_patch(*args),
        },
{
    if args.description.is_none() && args.owner.is_none() && args.tags.len() == 0 {
        return Err(PatchError::NothingToPatch);
    }
    let mut ops: Vec<Json> = Vec::new();
    if let Some(desc) = &args.description {
        ops.push(add_op("/description", Json::string(desc.as_str())));
    }
    if let Some(owner) = &args.owner {
        let mut owners: Vec<Json> = Vec::new();
        owners.push(string_object("type", "team", "name", owner.as_str()));
        ops.push(add_op("/owners", Json::Array(owners)));
    }
    let ghost base = ops@;
    let ghost d: int = if args.description is Some { 1 } else { 0 };
    let ghost start = ops@.len() as int;
    assert(start == d + if args.owner is Some { 1int } else { 0int });
    let mut i: usize = 0;
    while i < args.tags.len()
        invariant
            i <= args.tags@.len(),
            base.len() == start,
            start == d + if args.owner is Some { 1int } else { 0int },
            d == if args.description is Some { 1int } else { 0int },
            args.description matches Some(x) ==> description_op(base[0], x@),
            args.owner matches Some(x) ==> owner_op(base[d], x@),
            ops@.len() == start + i,
            forall|j: int| 0 <= j < start ==> ops@[j] == base[j],
            forall|j: int|
                0 <= j < i ==> tag_op(#[trigger] ops@[start + j], args.tags@[j]@),
        decreases args.tags.len() - i,
    {
        let t = args.tags[i].as_str();
        let label = tag_label(t);
        ops.push(add_op("/tags/-", label));
        i = i + 1;
    }
    Ok(ops)
}

fn tag_label(t: &str) -> (r: Json)
    ensures
        is_string_object(
            r,
            seq!["tagFQN"@, "labelType"@, "state"@],
            seq![t@, "Manual"@, "Confirmed"@],
        ),
{
    let mut e: Vec<(String, Json)> = Vec::new();
    e.push(entry("tagFQN", Json::string(t)));
    e.push(entry("labelType", Json::string("Manual")));
    e.push(entry("state", Json::string("Confirmed")));
    Json::Object(e)
}

/// Percent-encodes a fully-qualified name for a path, keeping only
/// unreserved characters.
pub fn urlencode_fqn(s: &str) -> (r: String)
    ensures
        r@ == percent_encode(s@, false),
{
    percent_encode_str(s, false)
}

/// The path that a patch of the table `fqn` is sent to.
pub fn patch_path(fqn: &str) -> (r: String)
    ensures
        r@ == "/api/v1/tables/name/"@ + percent_encode(fqn@, false),
{
    let enc = urlencode_fqn(fqn);
    concat2("/api/v1/tables/name/", enc.as_str())
}

/// A trimmed, lower-cased answer that accepts: `y` or `yes`.
pub open spec fn accepts_lower(l: Seq<char>) -> bool {
    l == "y"@ || l == "yes"@
}

/// The answer to "Proceed? [y/N]" accepts: `y` or `yes`, in any case, with
/// surrounding white space.
pub open spec fn accepts(answer: Seq<char>) -> bool {
    accepts_lower(lowercase(trim_spec(answer)))
}

/// An answer accepts exactly when, trimmed and lower-cased, it is `y` or
/// `yes`; in particular one that then begins with anything but `y` (such as
/// `no`) is a refusal, and so is an empty one.
pub proof fn law_accepts_only_yes(answer: Seq<char>)
    ensures
        accepts(answer) <==> (lowercase(trim_spec(answer)) == "y"@ || lowercase(
            trim_spec(answer),
        ) == "yes"@),
        lowercase(trim_spec(answer)).len() == 0 ==> !accepts(answer),
        lowercase(trim_spec(answer)).len() > 0 && lowercase(trim_spec(answer))[0] != 'y'
            ==> !accepts(answer),
{
    reveal_strlit("y");
    reveal_strlit("yes");
    let l = lowercase(trim_spec(answer));
    if l == "y"@ {
        assert(l[0] == 'y');
    }
    if l == "yes"@ {
        assert(l[0] == 'y');
    }
}

/// Reads a confirmation answer that is already trimmed and lower-cased.
pub fn confirms_lower(l: &str) -> (r: bool)
    ensures
        r == accepts_lower(l@),
        r == (l@ == "y"@ || l@ == "yes"@),
{
    str_eq(l, "y") || str_eq(l, "yes")
}

/// Reads a confirmation answer.
pub fn confirms(answer: &str) -> (r: bool)
    ensures
        r == accepts(answer@),
        r == (lowercase(trim_spec(answer@)) == "y"@ || lowercase(trim_spec(answer@)) == "yes"@),
{
    let t = trim(answer);
    let l = to_lowercase(t.as_str());
    confirms_lower(l.as_str())
}

/// The message when the table to patch does not exist.
pub fn not_found_message(fqn: &str) -> (r: String)
    ensures
        r@ == "table `"@ + fqn@ + "` not found"@,
{
    let mut r = concat2("table `", fqn);
    r.append("` not found");
    r
}

} // verus!
