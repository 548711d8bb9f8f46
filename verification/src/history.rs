//! Histories: runs of shorten requests against one store that started empty,
//! and what holds of every such run.
//!
//! Requests may be issued at the same time. The store takes their inserts one
//! after the other, so what the store then holds is the outcome of some
//! history: the laws below hold in whichever order the requests were served.

use vstd::prelude::*;
use crate::code::is_short_code;
use crate::failure::Failure;
use crate::shorten::{issued_code, shortened};
use crate::store::{lookup_answer, Table};
use crate::validate::canonical_form;

verus! {

/// One served shorten request: the text and the base address that were handed
/// in, the result that came back, and the store's table after it.
pub struct Served {
    pub raw: Seq<char>,
    pub base: Seq<char>,
    pub result: Result<Seq<char>, Failure>,
    pub after: Table,
}

/// The table that the `i`-th request of the log found: empty for the first,
/// else what the request before it left.
pub open spec fn table_before(log: Seq<Served>, i: int) -> Table {
    if i <= 0 {
        Map::empty()
    } else {
        log[i - 1].after
    }
}

/// The table after the whole log.
pub open spec fn table_now(log: Seq<Served>) -> Table {
    table_before(log, log.len() as int)
}

/// Whether the log is a history: every request in it was served as a shorten
/// request is, on the table that the one before it left.
pub open spec fn is_history(log: Seq<Served>) -> bool {
    forall|i: int|
        0 <= i < log.len() ==> shortened(
            table_before(log, i),
            (#[trigger] log[i]).raw,
            log[i].base,
            log[i].result,
            log[i].after,
        )
}

/// Whether the `i`-th request of the log was answered with the short URL of
/// `code`.
pub open spec fn issued_at(log: Seq<Served>, i: int, code: Seq<char>) -> bool {
    &&& 0 <= i < log.len()
    &&& log[i].result is Ok
    &&& issued_code(log[i].result->Ok_0) == code
}

/// A shortened target resolves to its canonical form: after a request for
/// `raw` succeeded with `short`, the code that `short` ends in is a short code
/// and looks up to the canonical form of `raw`.
pub proof fn law_round_trip(
    before: Table,
    raw: Seq<char>,
    base: Seq<char>,
    short: Seq<char>,
    after: Table,
)
    requires
        shortened(before, raw, base, Ok(short), after),
    ensures
        canonical_form(raw) is Some,
        is_short_code(issued_code(short)),
        lookup_answer(after, issued_code(short)) == Ok::<Seq<char>, Failure>(
            canonical_form(raw)->0,
        ),
{
}

/// A lookup is a function of the table and the code: two lookups of one code
/// with no request between them give the same answer.
pub proof fn law_lookup_repeats(
    table: Table,
    id: Seq<char>,
    first: Result<Seq<char>, Failure>,
    second: Result<Seq<char>, Failure>,
)
    requires
        first == lookup_answer(table, id),
        second == lookup_answer(table, id),
    ensures
        first == second,
{
}

/// A stored mapping is never changed: whatever a later shorten request does,
/// a code that had a mapping before it resolves to the same target after it.
pub proof fn law_mapping_is_immutable(
    before: Table,
    raw: Seq<char>,
    base: Seq<char>,
    result: Result<Seq<char>, Failure>,
    after: Table,
    id: Seq<char>,
)
    requires
        shortened(before, raw, base, result, after),
        before.dom().contains(id),
    ensures
        lookup_answer(after, id) == lookup_answer(before, id),
{
}

/// The table before the `k`-th request holds exactly the codes issued by the
/// requests before it, each with the canonical form of its request's text.
proof fn lemma_table_is_what_was_issued(log: Seq<Served>, k: int)
    requires
        is_history(log),
        0 <= k <= log.len(),
    ensures
        forall|code: Seq<char>|
            table_before(log, k).dom().contains(code) <==> exists|i: int|
                i < k && #[trigger] issued_at(log, i, code),
        forall|i: int, code: Seq<char>|
            i < k && #[trigger] issued_at(log, i, code) ==> table_before(log, k)[code]
                == canonical_form(log[i].raw)->0,
    decreases k,
{
    if k > 0 {
        lemma_table_is_what_was_issued(log, k - 1);
        let last = log[k - 1];
        let before = table_before(log, k - 1);
        let now = table_before(log, k);
        assert(shortened(before, last.raw, last.base, last.result, now));
        assert forall|code: Seq<char>| now.dom().contains(code) implies exists|i: int|
            i < k && #[trigger] issued_at(log, i, code) by {
            if before.dom().contains(code) {
                let i = choose|i: int| i < k - 1 && #[trigger] issued_at(log, i, code);
                assert(i < k && issued_at(log, i, code));
            } else {
                assert(issued_at(log, k - 1, code));
            }
        }
        assert forall|i: int, code: Seq<char>| i < k && #[trigger] issued_at(log, i, code) implies
            now.dom().contains(code) && now[code] == canonical_form(log[i].raw)->0 by {
            if i < k - 1 {
                assert(before.dom().contains(code));
            }
        }
    }
}

/// A code that no request was answered with has no mapping: its lookup fails
/// as `NotFound`.
pub proof fn law_unissued_code_is_not_found(log: Seq<Served>, code: Seq<char>)
    requires
        is_history(log),
        forall|i: int| !issued_at(log, i, code),
    ensures
        lookup_answer(table_now(log), code) == Err::<Seq<char>, Failure>(Failure::NotFound),
{
    lemma_table_is_what_was_issued(log, log.len() as int);
}

/// No code is issued twice: two requests of one history that both succeeded
/// were answered with different codes, whatever their targets.
pub proof fn law_issued_codes_differ(log: Seq<Served>, i: int, j: int)
    requires
        is_history(log),
        0 <= i < j < log.len(),
        log[i].result is Ok,
        log[j].result is Ok,
    ensures
        issued_code(log[i].result->Ok_0) != issued_code(log[j].result->Ok_0),
{
    lemma_table_is_what_was_issued(log, j);
    assert(issued_at(log, i, issued_code(log[i].result->Ok_0)));
}

/// Every issued code stays resolvable to its own target: after the whole
/// history, the code of each request that succeeded looks up to the canonical
/// form of that request's text. No later request overwrote it.
pub proof fn law_every_issued_code_resolves(log: Seq<Served>, i: int)
    requires
        is_history(log),
        0 <= i < log.len(),
        log[i].result is Ok,
    ensures
        canonical_form(log[i].raw) is Some,
        lookup_answer(table_now(log), issued_code(log[i].result->Ok_0)) == Ok::<
            Seq<char>,
            Failure,
        >(canonical_form(log[i].raw)->0),
{
    lemma_table_is_what_was_issued(log, log.len() as int);
    assert(issued_at(log, i, issued_code(log[i].result->Ok_0)));
}

/// The store holds a mapping for each issued code and for nothing else, and
/// every code in it is a short code.
pub proof fn law_table_holds_the_issued_codes(log: Seq<Served>)
    requires
        is_history(log),
    ensures
        forall|code: Seq<char>|
            table_now(log).dom().contains(code) <==> exists|i: int| #[trigger] issued_at(log, i, code),
        forall|code: Seq<char>| #[trigger] table_now(log).dom().contains(code) ==> is_short_code(code),
{
    lemma_table_is_what_was_issued(log, log.len() as int);
    assert forall|code: Seq<char>| #[trigger] table_now(log).dom().contains(code) implies is_short_code(
        code,
    ) by {
        let i = choose|i: int| i < log.len() && #[trigger] issued_at(log, i, code);
        assert(shortened(table_before(log, i), log[i].raw, log[i].base, log[i].result, log[i].after));
    }
}

} // verus!
