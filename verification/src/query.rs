//! The probe/allocate/retry protocol.
//!
//! A host operation that fills a caller-supplied buffer answers in one of
//! three ways: success, "buffer too small" with the size it needs, or some
//! other failure.  The caller guesses a capacity, allocates, calls, and on
//! "buffer too small" frees the buffer, adopts the reported size and tries
//! again; any other failure also frees the buffer and is surfaced.  The
//! host's answers are modeled as a script of events, consumed in order; the
//! loop terminates because a well-behaved host eventually stops answering
//! "buffer too small".

use vstd::prelude::*;

use crate::status::Status;

verus! {

/// One answer of the host to a sized query.
#[derive(Debug)]
pub enum QueryEvent {
    /// The operation succeeded and wrote `data` into the buffer; `key` is
    /// an opaque token some operations report alongside the data.
    Success { data: Vec<u8>, key: usize },
    /// The buffer was too small; `new_len` is the size the host needs.
    BufferTooSmall { new_len: usize },
    /// The operation failed for another reason.
    Failed { status: Status },
}

impl QueryEvent {
    /// Whether this answer asks for another attempt.
    pub open spec fn is_retry(self) -> bool {
        self matches QueryEvent::BufferTooSmall { .. }
    }

    /// The size a retry answer asks for.
    pub open spec fn retry_len(self) -> int {
        match self {
            QueryEvent::BufferTooSmall { new_len } => new_len as int,
            _ => 0,
        }
    }

    /// The bytes a success answer wrote.
    pub open spec fn success_data(self) -> Seq<u8> {
        match self {
            QueryEvent::Success { data, .. } => data@,
            _ => Seq::empty(),
        }
    }

    /// The token a success answer reported.
    pub open spec fn success_key(self) -> int {
        match self {
            QueryEvent::Success { key, .. } => key as int,
            _ => 0,
        }
    }

    /// The status a failure answer reported.
    pub open spec fn fail_status(self) -> Status {
        match self {
            QueryEvent::Failed { status } => status,
            _ => Status(0),
        }
    }
}

/// The position of the first answer that is not "buffer too small", or the
/// script's length when every answer asks for a retry.
pub open spec fn term_idx(s: Seq<QueryEvent>) -> int
    decreases s.len(),
{
    if s.len() == 0 {
        0
    } else if !s[0].is_retry() {
        0
    } else {
        1 + term_idx(s.drop_first())
    }
}

/// Whether some answer in the script ends the retry loop.
pub open spec fn has_terminal(s: Seq<QueryEvent>) -> bool {
    exists|i: int| 0 <= i < s.len() && !(#[trigger] s[i].is_retry())
}

/// Shape of `term_idx`: it is the first non-retry position, and it lies
/// inside the script exactly when the script has a terminal answer.
pub proof fn lemma_term_idx(s: Seq<QueryEvent>)
    ensures
        0 <= term_idx(s) <= s.len(),
        has_terminal(s) <==> term_idx(s) < s.len(),
        forall|j: int| 0 <= j < term_idx(s) ==> (#[trigger] s[j]).is_retry(),
        term_idx(s) < s.len() ==> !s[term_idx(s)].is_retry(),
    decreases s.len(),
{
    if s.len() == 0 {
    } else if !s[0].is_retry() {
    } else {
        lemma_term_idx(s.drop_first());
        let t = term_idx(s.drop_first());
        assert forall|j: int| 0 <= j < term_idx(s) implies (#[trigger] s[j]).is_retry() by {
            if j > 0 {
                assert(s.drop_first()[j - 1].is_retry());
            }
        }
        if has_terminal(s) {
            let w = choose|i: int| 0 <= i < s.len() && !(#[trigger] s[i].is_retry());
            assert(w > 0);
            assert(!s.drop_first()[w - 1].is_retry());
            assert(has_terminal(s.drop_first()));
        }
        if t < s.drop_first().len() {
            assert(!s[term_idx(s)].is_retry()) by {
                assert(s[t + 1] == s.drop_first()[t]);
            }
            assert(has_terminal(s));
        }
    }
}

/// Skipping leading retries moves the terminal position back by as much.
pub proof fn lemma_term_idx_skip(s: Seq<QueryEvent>, k: int)
    requires
        0 <= k <= term_idx(s),
    ensures
        term_idx(s.skip(k)) == term_idx(s) - k,
    decreases k,
{
    lemma_term_idx(s);
    if k == 0 {
        assert(s.skip(0) =~= s);
    } else {
        assert(s[0].is_retry());
        assert(s.len() > 0);
        lemma_term_idx_skip(s.drop_first(), k - 1);
        assert(s.skip(k) =~= s.drop_first().skip(k - 1));
    }
}

/// The capacity in effect at attempt `i`: the initial guess for the first
/// attempt, afterwards whatever the previous retry answer asked for.
pub open spec fn cap_at(s: Seq<QueryEvent>, init: int, i: int) -> int
    decreases i,
{
    if i <= 0 {
        init
    } else {
        s[i - 1].retry_len()
    }
}

/// The running state of a probe/allocate/retry loop: the capacity to use
/// for the next attempt.
#[derive(Debug)]
pub struct GrowableQuery {
    pub capacity: usize,
}

/// What a probe/allocate/retry loop does after one answer of the host.
#[derive(Debug)]
pub enum QueryStep {
    /// The operation is finished; the buffer holds `data` and may be handed
    /// out.
    Done { data: Vec<u8>, key: usize },
    /// Free the buffer, allocate one of the new capacity and call again.
    Retry,
    /// Free the buffer and surface the failure.
    Fail { status: Status },
}

impl GrowableQuery {
    /// Starts a query with an initial capacity guess.
    pub fn new(initial: usize) -> (q: GrowableQuery)
        ensures
            q.capacity == initial,
    {
        GrowableQuery { capacity: initial }
    }

    /// Decides, from one answer of the host, whether the query is done,
    /// must retry with the reported capacity, or failed.
    pub fn absorb(&mut self, e: QueryEvent) -> (step: QueryStep)
        ensures
            e matches QueryEvent::Success { data, key } ==> (step == (QueryStep::Done { data, key })
                && final(self).capacity == old(self).capacity),
            e matches QueryEvent::BufferTooSmall { new_len } ==> (step == QueryStep::Retry
                && final(self).capacity == new_len),
            e matches QueryEvent::Failed { status } ==> (step == (QueryStep::Fail { status })
                && final(self).capacity == old(self).capacity),
    {
        match e {
            QueryEvent::Success { data, key } => QueryStep::Done { data, key },
            QueryEvent::BufferTooSmall { new_len } => {
                self.capacity = new_len;
                QueryStep::Retry
            },
            QueryEvent::Failed { status } => QueryStep::Fail { status },
        }
    }
}

} // verus!
