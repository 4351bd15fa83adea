//! What the subcommands compute from catalog JSON, apart from printing it.

pub mod configure;
pub mod describe;
pub mod lineage;
pub mod mcp;
pub mod patch;
pub mod quality;
pub mod search;

use vstd::prelude::*;
use crate::json::Json;
use crate::text::{char_count, concat2, owned, prefix, push_char, take_chars};

verus! {

/// The placeholder shown for a missing value.
pub open spec fn dash() -> Seq<char> {
    "—"@
}

/// The first key of `keys` whose member in `v` is a non-empty string gives
/// that string; the placeholder when there is none.
pub open spec fn pick_spec(v: Json, keys: Seq<Seq<char>>) -> Seq<char>
    decreases keys.len(),
{
    if keys.len() == 0 {
        dash()
    } else {
        match v.str_member(keys[0]) {
            Some(s) => if s.len() > 0 {
                s
            } else {
                pick_spec(v, keys.drop_first())
            },
            None => pick_spec(v, keys.drop_first()),
        }
    }
}

/// Member `key` of `v` is a non-empty string.
pub open spec fn has_text(v: Json, key: Seq<char>) -> bool {
    v.str_member(key) matches Some(s) && s.len() > 0
}

/// `pick` gives the string of the first key that holds a non-empty string,
/// and the placeholder when no key does.
pub proof fn law_pick_first_text(v: Json, keys: Seq<Seq<char>>, i: int)
    ensures
        0 <= i < keys.len() && has_text(v, keys[i]) && (forall|j: int|
            0 <= j < i ==> !has_text(v, #[trigger] keys[j])) ==> pick_spec(v, keys)
            == v.str_member(keys[i])->0,
        (forall|j: int| 0 <= j < keys.len() ==> !has_text(v, #[trigger] keys[j])) ==> pick_spec(
            v,
            keys,
        ) == "—"@,
    decreases keys.len(),
{
    if keys.len() > 0 {
        let rest = keys.drop_first();
        law_pick_first_text(v, rest, i - 1);
        if (forall|j: int| 0 <= j < keys.len() ==> !has_text(v, #[trigger] keys[j])) {
            assert(!has_text(v, keys[0]));
            assert forall|j: int| 0 <= j < rest.len() implies !has_text(v, #[trigger] rest[j]) by {
                assert(rest[j] == keys[j + 1]);
            }
        }
        if 0 <= i < keys.len() && has_text(v, keys[i]) && (forall|j: int|
            0 <= j < i ==> !has_text(v, #[trigger] keys[j])) {
            if i > 0 {
                assert(!has_text(v, keys[0]));
                assert(rest[i - 1] == keys[i]);
                assert forall|j: int| 0 <= j < i - 1 implies !has_text(v, #[trigger] rest[j]) by {
                    assert(rest[j] == keys[j + 1]);
                }
            }
        }
    }
}

/// The views of a slice of keys.
pub open spec fn key_views(keys: Seq<&str>) -> Seq<Seq<char>> {
    keys.map_values(|k: &str| k@)
}

/// Pulls a string from a JSON value, trying the keys in order and giving the
/// placeholder when none holds a non-empty string.
pub fn pick(v: &Json, keys: &[&str]) -> (r: String)
    ensures
        r@ == pick_spec(*v, key_views(keys@)),
{
    let ghost ks = key_views(keys@);
    let mut i: usize = 0;
    assert(ks.subrange(0, ks.len() as int) =~= ks);
    while i < keys.len()
        invariant
            ks == key_views(keys@),
            i <= keys@.len(),
            pick_spec(*v, ks) == pick_spec(*v, ks.subrange(i as int, ks.len() as int)),
        decreases keys.len() - i,
    {
        let ghost rest = ks.subrange(i as int, ks.len() as int);
        assert(rest[0] == keys@[i as int]@);
        assert(rest.drop_first() =~= ks.subrange(i + 1, ks.len() as int));
        if let Some(s) = v.str_at(keys[i]) {
            if char_count(s.as_str()) > 0 {
                return s.clone();
            }
        }
        i = i + 1;
    }
    owned("—")
}

/// The keys tried for a display name.
pub open spec fn name_keys() -> Seq<Seq<char>> {
    seq!["displayName"@, "name"@]
}

/// The owner of an entity: the first of its `owners` list, else its `owner`
/// object, named by display name or name; the placeholder when there is none.
pub open spec fn pick_owner_spec(v: Json) -> Seq<char> {
    match v.array_member("owners"@) {
        Some(a) if a.len() > 0 => pick_spec(a[0], name_keys()),
        _ => match v.member("owner"@) {
            Some(o) => pick_spec(o, name_keys()),
            None => dash(),
        },
    }
}

/// The owner is the display name (else the name) of the first entry of a
/// non-empty `owners` list; without such a list, that of the `owner` member;
/// the placeholder when there is neither.
pub proof fn law_pick_owner(v: Json)
    ensures
        ({
            let listed = v.array_member("owners"@) is Some && v.array_member("owners"@)->0.len() > 0;
            let first = v.array_member("owners"@)->0[0];
            &&& listed && has_text(first, "displayName"@) ==> pick_owner_spec(v) == first.str_member(
                "displayName"@,
            )->0
            &&& listed && !has_text(first, "displayName"@) && has_text(first, "name"@)
                ==> pick_owner_spec(v) == first.str_member("name"@)->0
            &&& !listed && v.member("owner"@) is Some ==> pick_owner_spec(v) == pick_spec(
                v.member("owner"@)->0,
                seq!["displayName"@, "name"@],
            )
            &&& !listed && v.member("owner"@) is None ==> pick_owner_spec(v) == "—"@
        }),
{
    let k = seq!["displayName"@, "name"@];
    if v.array_member("owners"@) is Some && v.array_member("owners"@)->0.len() > 0 {
        let first = v.array_member("owners"@)->0[0];
        law_pick_first_text(first, k, 0);
        law_pick_first_text(first, k, 1);
    }
}

/// Formats an owner field which may be missing, a single object, or a list.
pub fn pick_owner(v: &Json) -> (r: String)
    ensures
        r@ == pick_owner_spec(*v),
{
    let keys: [&str; 2] = ["displayName", "name"];
    assert(key_views(keys@) =~= name_keys());
    if let Some(arr) = v.array_at("owners") {
        if arr.len() > 0 {
            return pick(&arr[0], &keys);
        }
    }
    match v.get("owner") {
        Some(o) => pick(o, &keys),
        None => owned("—"),
    }
}

/// `s` cut to `n` characters: unchanged when it fits, else its first `n - 1`
/// characters followed by an ellipsis, or nothing at all when `n` is 0.
pub open spec fn truncate_spec(s: Seq<char>, n: nat) -> Seq<char> {
    if s.len() <= n {
        s
    } else if n == 0 {
        Seq::empty()
    } else {
        prefix(s, n - 1).push('…')
    }
}

/// Truncates a string to `n` characters, appending an ellipsis if it was cut.
pub fn truncate(s: &str, n: usize) -> (r: String)
    ensures
        r@ == truncate_spec(s@, n as nat),
{
    if char_count(s) <= n {
        return owned(s);
    }
    if n == 0 {
        return String::new();
    }
    let mut out = take_chars(s, n - 1);
    push_char(&mut out, '…');
    out
}

/// A truncated string is never longer than `n` characters.
pub proof fn law_truncate_length(s: Seq<char>, n: nat)
    ensures
        truncate_spec(s, n).len() <= n,
{
}

/// A string that does not fit in `n > 0` characters is cut to exactly `n`:
/// its first `n - 1` characters, then an ellipsis.
pub proof fn law_truncate_cut(s: Seq<char>, n: nat)
    requires
        0 < n < s.len(),
    ensures
        truncate_spec(s, n).len() == n,
        truncate_spec(s, n)[n - 1] == '…',
        forall|i: int| 0 <= i < n - 1 ==> #[trigger] truncate_spec(s, n)[i] == s[i],
{
}

/// A string is left unchanged exactly when it fits.
pub proof fn law_truncate_unchanged_iff_fits(s: Seq<char>, n: nat)
    ensures
        (truncate_spec(s, n) == s) <==> s.len() <= n,
{
    if s.len() > n {
        assert(truncate_spec(s, n).len() == n);
    }
}

/// The message when a table is not in the catalog.
pub fn not_in_catalog(fqn: &str) -> (r: String)
    ensures
        r@ == "table `"@ + fqn@ + "` not found in OpenMetadata catalog"@,
{
    let mut r = concat2("table `", fqn);
    r.append("` not found in OpenMetadata catalog");
    r
}

} // verus!
