//! `quality`: the data-quality tests of a table, one row per test.

use vstd::prelude::*;
use crate::commands::{
    has_text, key_views, law_pick_first_text, pick, pick_spec, truncate, truncate_spec,
};
use crate::json::Json;
use crate::text::{lowercase, owned, str_eq, to_lowercase};

verus! {

/// The arguments of `quality`.
#[derive(Debug)]
pub struct Args {
    /// Fully-qualified table name.
    pub fqn: String,
    /// Print raw JSON instead of a formatted table.
    pub json: bool,
}

/// One row of the test table.
#[derive(Debug)]
pub struct QualityRow {
    pub test: String,
    pub status: String,
    pub last_run: String,
    pub failure: String,
}

/// How a lower-cased test status is shown.
pub open spec fn label_of_lower(l: Seq<char>) -> Seq<char> {
    if l == "success"@ || l == "passed"@ || l == "pass"@ {
        "✅ pass"@
    } else if l == "failed"@ || l == "fail"@ {
        "❌ fail"@
    } else if l == "aborted"@ || l == "warning"@ {
        "⚠️  warning"@
    } else {
        "—"@
    }
}

/// How a raw test status is shown, compared in lower case.
pub open spec fn status_label(raw: Seq<char>) -> Seq<char> {
    label_of_lower(lowercase(raw))
}

/// `success`, `passed` and `pass` show as a pass, `failed` and `fail` as a
/// failure, `aborted` and `warning` as a warning, and every other lower-cased
/// status as the placeholder.
pub proof fn law_label_of_lower(l: Seq<char>)
    ensures
        (l == "success"@ || l == "passed"@ || l == "pass"@) ==> label_of_lower(l) == "✅ pass"@,
        (l == "failed"@ || l == "fail"@) ==> label_of_lower(l) == "❌ fail"@,
        (l == "aborted"@ || l == "warning"@) ==> label_of_lower(l) == "⚠️  warning"@,
        !(l == "success"@ || l == "passed"@ || l == "pass"@ || l == "failed"@ || l == "fail"@
            || l == "aborted"@ || l == "warning"@) ==> label_of_lower(l) == "—"@,
{
    reveal_strlit("success");
    reveal_strlit("passed");
    reveal_strlit("pass");
    reveal_strlit("failed");
    reveal_strlit("fail");
    reveal_strlit("aborted");
    reveal_strlit("warning");
    assert("success"@[0] != "failed"@[0] && "success"@[0] != "aborted"@[0]
        && "success"@.len() != "fail"@.len() && "success"@[0] != "warning"@[0]);
    assert("passed"@.len() != "fail"@.len() && "passed"@[0] != "failed"@[0]
        && "passed"@[0] != "aborted"@[0] && "passed"@[0] != "warning"@[0]);
    assert("pass"@[0] != "failed"@[0] && "pass"@[0] != "fail"@[0] && "pass"@[0] != "aborted"@[0]
        && "pass"@[0] != "warning"@[0]);
    assert("failed"@[0] != "aborted"@[0] && "failed"@[0] != "warning"@[0]);
    assert("fail"@[0] != "aborted"@[0] && "fail"@[0] != "warning"@[0]);
}

/// A test is named by its `name`, else its `displayName`; its status comes
/// from `testCaseStatus`, else `status`; its last run from `timestamp`, else
/// `updatedAt`; and its failure text, from `result`, `message` or
/// `failureReason`, is at most 60 characters.
pub proof fn law_test_row(row: QualityRow, test: Json)
    requires
        test_row_spec(row, test),
    ensures
        has_text(test, "name"@) ==> row.test@ == test.str_member("name"@)->0,
        !has_text(test, "name"@) && has_text(test, "displayName"@) ==> row.test@
            == test.str_member("displayName"@)->0,
        has_text(test, "testCaseStatus"@) ==> row.status@ == status_label(
            test.str_member("testCaseStatus"@)->0,
        ),
        !has_text(test, "testCaseStatus"@) && has_text(test, "status"@) ==> row.status@
            == status_label(test.str_member("status"@)->0),
        has_text(test, "timestamp"@) ==> row.last_run@ == test.str_member("timestamp"@)->0,
        !has_text(test, "timestamp"@) && has_text(test, "updatedAt"@) ==> row.last_run@
            == test.str_member("updatedAt"@)->0,
        row.failure@.len() <= 60,
        has_text(test, "result"@) && test.str_member("result"@)->0.len() <= 60 ==> row.failure@
            == test.str_member("result"@)->0,
{
    law_pick_first_text(test, seq!["name"@, "displayName"@], 0);
    law_pick_first_text(test, seq!["name"@, "displayName"@], 1);
    law_pick_first_text(test, seq!["testCaseStatus"@, "status"@], 0);
    law_pick_first_text(test, seq!["testCaseStatus"@, "status"@], 1);
    law_pick_first_text(test, seq!["timestamp"@, "updatedAt"@], 0);
    law_pick_first_text(test, seq!["timestamp"@, "updatedAt"@], 1);
    law_pick_first_text(test, seq!["result"@, "message"@, "failureReason"@], 0);
    crate::commands::law_truncate_length(
        pick_spec(test, seq!["result"@, "message"@, "failureReason"@]),
        60,
    );
}

/// The tests of a list of suites are those of its first suites followed by
/// those of the rest: one suite gives its own tests.
pub proof fn law_suite_tests_concat(a: Seq<Json>, b: Seq<Json>)
    ensures
        suite_tests(a + b) == suite_tests(a) + suite_tests(b),
    decreases b.len(),
{
    if b.len() == 0 {
        assert(a + b =~= a);
        assert(suite_tests(a) + suite_tests(b) =~= suite_tests(a));
    } else {
        assert((a + b).drop_last() =~= a + b.drop_last());
        assert((a + b).last() == b.last());
        law_suite_tests_concat(a, b.drop_last());
        assert(suite_tests(a) + suite_tests(b.drop_last()) + b.last().array_member_or_empty(
            "tests"@,
        ) =~= suite_tests(a) + suite_tests(b));
    }
}

/// One suite gives exactly its own tests.
pub proof fn law_suite_tests_single(s: Json)
    ensures
        suite_tests(seq![s]) == s.array_member_or_empty("tests"@),
{
    assert(seq![s].drop_last() =~= Seq::<Json>::empty());
    assert(seq![s].last() == s);
    assert(suite_tests(Seq::<Json>::empty()) =~= Seq::<Json>::empty());
    assert(Seq::<Json>::empty() + s.array_member_or_empty("tests"@) =~= s.array_member_or_empty(
        "tests"@,
    ));
}

/// Shows a test status that is already in lower case.
pub fn label_from_lower(l: &str) -> (r: String)
    ensures
        r@ == label_of_lower(l@),
{
    if str_eq(l, "success") || str_eq(l, "passed") || str_eq(l, "pass") {
        owned("✅ pass")
    } else if str_eq(l, "failed") || str_eq(l, "fail") {
        owned("❌ fail")
    } else if str_eq(l, "aborted") || str_eq(l, "warning") {
        owned("⚠️  warning")
    } else {
        owned("—")
    }
}

/// Shows a raw test status.
pub fn status_text(raw: &str) -> (r: String)
    ensures
        r@ == status_label(raw@),
{
    let l = to_lowercase(raw);
    label_from_lower(l.as_str())
}

/// The row shown for the test case `test`.
pub open spec fn test_row_spec(row: QualityRow, test: Json) -> bool {
    &&& row.test@ == pick_spec(test, seq!["name"@, "displayName"@])
    &&& row.status@ == status_label(pick_spec(test, seq!["testCaseStatus"@, "status"@]))
    &&& row.last_run@ == pick_spec(test, seq!["timestamp"@, "updatedAt"@])
    &&& row.failure@ == truncate_spec(
        pick_spec(test, seq!["result"@, "message"@, "failureReason"@]),
        60,
    )
}

/// The row for one test case.
pub fn test_to_row(test: &Json) -> (r: QualityRow)
    ensures
        test_row_spec(r, *test),
{
    let k_test: [&str; 2] = ["name", "displayName"];
    let k_status: [&str; 2] = ["testCaseStatus", "status"];
    let k_run: [&str; 2] = ["timestamp", "updatedAt"];
    let k_fail: [&str; 3] = ["result", "message", "failureReason"];
    assert(key_views(k_test@) =~= seq!["name"@, "displayName"@]);
    assert(key_views(k_status@) =~= seq!["testCaseStatus"@, "status"@]);
    assert(key_views(k_run@) =~= seq!["timestamp"@, "updatedAt"@]);
    assert(key_views(k_fail@) =~= seq!["result"@, "message"@, "failureReason"@]);
    let raw = pick(test, &k_status);
    let failure = pick(test, &k_fail);
    QualityRow {
        test: pick(test, &k_test),
        status: status_text(raw.as_str()),
        last_run: pick(test, &k_run),
        failure: truncate(failure.as_str(), 60),
    }
}

/// The test cases of every suite, suite by suite.
pub open spec fn suite_tests(suites: Seq<Json>) -> Seq<Json>
    decreases suites.len(),
{
    if suites.len() == 0 {
        Seq::empty()
    } else {
        suite_tests(suites.drop_last()) + suites.last().array_member_or_empty("tests"@)
    }
}

/// The tests listed under the `data` suites of a quality answer.
pub open spec fn quality_tests(raw: Json) -> Seq<Json> {
    suite_tests(raw.array_member_or_empty("data"@))
}

/// One row per test case of the answer, in order.
pub fn quality_rows(raw: &Json) -> (r: Vec<QualityRow>)
    ensures
        r@.len() == quality_tests(*raw).len(),
        forall|i: int| 0 <= i < r@.len() ==> test_row_spec(#[trigger] r@[i], quality_tests(*raw)[i]),
{
    let mut rows: Vec<QualityRow> = Vec::new();
    let suites = match raw.array_at("data") {
        Some(a) => a,
        None => {
            return rows;
        },
    };
    let mut i: usize = 0;
    while i < suites.len()
        invariant
            raw.array_member_or_empty("data"@) == suites@,
            i <= suites@.len(),
            rows@.len() == suite_tests(suites@.subrange(0, i as int)).len(),
            forall|j: int|
                0 <= j < rows@.len() ==> test_row_spec(
                    #[trigger] rows@[j],
                    suite_tests(suites@.subrange(0, i as int))[j],
                ),
        decreases suites.len() - i,
    {
        let ghost done = suite_tests(suites@.subrange(0, i as int));
        assert(suites@.subrange(0, i + 1).drop_last() =~= suites@.subrange(0, i as int));
        let ghost next = suite_tests(suites@.subrange(0, i + 1));
        if let Some(tests) = suites[i].array_at("tests") {
            assert(next == done + tests@);
            let mut k: usize = 0;
            while k < tests.len()
                invariant
                    k <= tests@.len(),
                    next == done + tests@,
                    rows@.len() == done.len() + k,
                    forall|j: int|
                        0 <= j < rows@.len() ==> test_row_spec(#[trigger] rows@[j], next[j]),
                decreases tests.len() - k,
            {
                rows.push(test_to_row(&tests[k]));
                k = k + 1;
            }
        } else {
            assert(next =~= done);
        }
        i = i + 1;
    }
    assert(suites@.subrange(0, suites@.len() as int) =~= suites@);
    rows
}

} // verus!
