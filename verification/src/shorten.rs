//! Creating mappings: the decisions of one shorten request, and the request
//! run to its end against a store in memory.

use vstd::prelude::*;
use crate::code::{is_short_code, ShortCode, CODE_LEN};
use crate::failure::{text_view, Failure};
use crate::store::{MemoryStore, Table};
use crate::validate::{canonical_form, validate, TargetUrl};

verus! {

/// How many codes one request tries before it gives up.
pub const MAX_ATTEMPTS: u32 = 5;

/// The short URL for `code` under the base address `base`.
pub open spec fn short_url(base: Seq<char>, code: Seq<char>) -> Seq<char> {
    base + seq!['/'] + code
}

/// The code that a short URL ends in: its last `CODE_LEN` characters.
pub open spec fn issued_code(short: Seq<char>) -> Seq<char>
    recommends
        short.len() >= CODE_LEN,
{
    short.subrange(short.len() - CODE_LEN, short.len() as int)
}

/// Composes the short URL: the base address, a slash, the code.
pub fn compose(base: &str, code: &ShortCode) -> (short: String)
    ensures
        short@ == short_url(base@, code@),
        issued_code(short@) == code@,
{
    let mut short = base.to_owned();
    proof {
        reveal_strlit("/");
    }
    short.append("/");
    short.append(code.as_str());
    assert("/"@ =~= seq!['/']);
    assert(issued_code(short@) =~= code@);
    short
}

/// What follows from the store's answer to one insert.
#[derive(Clone, Copy, Debug, PartialEq, Eq, Structural)]
pub enum Decision {
    /// The mapping is stored: hand out the short URL of the code just tried.
    Issue,
    /// The code was taken: try again with a freshly drawn code.
    Retry,
    /// Give up with this failure.
    Abort(Failure),
}

/// The decision after the store answered `answer`, when `conflicts` earlier
/// codes of the same request were already taken. A stored mapping ends the
/// request. A conflict is retried until `MAX_ATTEMPTS` codes were tried, and
/// then reported as `GenerationExhausted`. Any other failure ends the request
/// at once as `Storage`: only a conflict is safe to retry.
pub open spec fn decide(conflicts: nat, answer: Result<(), Failure>) -> Decision {
    match answer {
        Ok(_) => Decision::Issue,
        Err(Failure::Conflict) => if conflicts + 1 < MAX_ATTEMPTS {
            Decision::Retry
        } else {
            Decision::Abort(Failure::GenerationExhausted)
        },
        Err(_) => Decision::Abort(Failure::Storage),
    }
}

/// A conflict never ends a request under its own name: a request is aborted
/// as `GenerationExhausted` or as `Storage`, and a conflict within the budget
/// is retried.
pub proof fn law_conflict_is_not_surfaced(conflicts: nat, answer: Result<(), Failure>)
    ensures
        decide(conflicts, answer) matches Decision::Abort(e) ==> e == Failure::GenerationExhausted
            || e == Failure::Storage,
        answer == Err::<(), Failure>(Failure::Conflict) && conflicts + 1 < MAX_ATTEMPTS ==> decide(
            conflicts,
            answer,
        ) == Decision::Retry,
{
}

/// One shorten request between two inserts: the validated target and the
/// number of codes that were already taken.
pub struct Attempt {
    target: TargetUrl,
    conflicts: u32,
}

/// Where a request stands after the store answered.
pub enum Verdict {
    /// The mapping is stored under the code just tried.
    Issued,
    /// The code was taken; the request goes on with a fresh code.
    Retry(Attempt),
    /// The request failed.
    Abort(Failure),
}

impl Attempt {
    #[verifier::type_invariant]
    spec fn well_formed(&self) -> bool {
        self.conflicts < MAX_ATTEMPTS
    }

    /// The target that the request stores, as text.
    pub closed spec fn target_text(&self) -> Seq<char> {
        self.target@
    }

    /// How many codes of this request were already taken.
    pub closed spec fn conflicts(&self) -> nat {
        self.conflicts as nat
    }

    /// Opens a request for `raw`: validates it, and refuses what is no
    /// target as `InvalidUrl`, before any code is drawn.
    pub fn begin(raw: &str) -> (r: Result<Attempt, Failure>)
        ensures
            match r {
                Ok(attempt) => canonical_form(raw@) == Some(attempt.target_text())
                    && attempt.conflicts() == 0,
                Err(e) => e == Failure::InvalidUrl && canonical_form(raw@) is None,
            },
    {
        match validate(raw) {
            Ok(target) => Ok(Attempt { target, conflicts: 0 }),
            Err(e) => Err(e),
        }
    }

    /// The target to insert.
    pub fn target(&self) -> (target: &TargetUrl)
        ensures
            target@ == self.target_text(),
    {
        &self.target
    }

    /// Takes the store's answer to the insert of the code just tried, and
    /// says how the request goes on: as `decide` has it. A retry keeps the
    /// target and counts the conflict.
    pub fn settle(self, answer: Result<(), Failure>) -> (verdict: Verdict)
        ensures
            match verdict {
                Verdict::Issued => decide(self.conflicts(), answer) == Decision::Issue,
                Verdict::Retry(next) => decide(self.conflicts(), answer) == Decision::Retry
                    && next.target_text() == self.target_text() && next.conflicts()
                    == self.conflicts() + 1,
                Verdict::Abort(e) => decide(self.conflicts(), answer) == Decision::Abort(e),
            },
    {
        proof {
            use_type_invariant(&self);
        }
        match answer {
            Ok(_) => Verdict::Issued,
            Err(Failure::Conflict) => {
                if self.conflicts + 1 < MAX_ATTEMPTS {
                    Verdict::Retry(Attempt { target: self.target, conflicts: self.conflicts + 1 })
                } else {
                    Verdict::Abort(Failure::GenerationExhausted)
                }
            },
            Err(_) => Verdict::Abort(Failure::Storage),
        }
    }
}

/// What one shorten request may do to a store in memory. `before` and `after`
/// are the store's tables around the request, `result` is what the caller
/// gets.
///
/// A text that is no target fails as `InvalidUrl`. Otherwise the request
/// succeeds with the short URL of a code that was free, and the table gains
/// exactly the mapping from that code to the target's canonical form; or it
/// fails as `GenerationExhausted`, which needs a taken code in the table. A
/// failed request leaves the table as it was.
pub open spec fn shortened(
    before: Table,
    raw: Seq<char>,
    base: Seq<char>,
    result: Result<Seq<char>, Failure>,
    after: Table,
) -> bool {
    match canonical_form(raw) {
        None => result == Err::<Seq<char>, Failure>(Failure::InvalidUrl) && after == before,
        Some(target) => match result {
            Ok(short) => {
                &&& short == short_url(base, issued_code(short))
                &&& is_short_code(issued_code(short))
                &&& !before.dom().contains(issued_code(short))
                &&& after == before.insert(issued_code(short), target)
            },
            Err(e) => {
                &&& e == Failure::GenerationExhausted
                &&& after == before
                &&& exists|code: Seq<char>| is_short_code(code) && #[trigger] before.dom().contains(code)
            },
        },
    }
}

/// Shortens `raw`: validates it, then draws codes until the store takes one,
/// at most `MAX_ATTEMPTS` of them, and returns the short URL under `base`.
pub fn shorten(store: &mut MemoryStore, raw: &str, base: &str) -> (r: Result<String, Failure>)
    ensures
        shortened(old(store)@, raw@, base@, text_view(r), final(store)@),
{
    let mut attempt = match Attempt::begin(raw) {
        Ok(attempt) => attempt,
        Err(e) => {
            return Err(e);
        },
    };
    loop
        invariant
            store@ == old(store)@,
            canonical_form(raw@) == Some(attempt.target_text()),
            attempt.conflicts() < MAX_ATTEMPTS,
            attempt.conflicts() > 0 ==> exists|code: Seq<char>|
                is_short_code(code) && #[trigger] store@.dom().contains(code),
        decreases MAX_ATTEMPTS - attempt.conflicts(),
    {
        let code = ShortCode::generate();
        let answer = store.insert(&code, attempt.target());
        match attempt.settle(answer) {
            Verdict::Issued => {
                return Ok(compose(base, &code));
            },
            Verdict::Retry(next) => {
                assert(store@.dom().contains(code@));
                attempt = next;
            },
            Verdict::Abort(e) => {
                assert(store@.dom().contains(code@));
                return Err(e);
            },
        }
    }
}

} // verus!
