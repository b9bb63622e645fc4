//! What a stream produces when it is driven to its end against the answers
//! of a service, and what holds of that for every stream and every service.

use vstd::prelude::*;
use crate::error::ErrorView;
use crate::paging::{usable, PageView, Phase, Record, RequestView, StepView, StreamModel};
use crate::selection::CriterionView;

verus! {

/// How a run ended.
pub enum Outcome {
    /// The stream reported its end.
    Ended,
    /// The stream failed.
    Failed(ErrorView),
    /// The stream asked for a page and no answer was left.
    Starved,
}

/// What a run produced.
pub struct Trace<S> {
    /// The records handed to the consumer, in order.
    pub emitted: Seq<Record<S>>,
    /// The requests made of the service, in order.
    pub requests: Seq<RequestView>,
    pub outcome: Outcome,
}

/// Drives a stream until it ends, fails, or asks for more than `script`
/// holds: the consumer pulls without pause, and each request is answered
/// with the next element of `script`.
pub open spec fn run<S>(m: StreamModel<S>, script: Seq<Result<PageView<S>, Seq<char>>>) -> Trace<S>
    decreases script.len(), m.buffer.len(),
{
    let (next, step) = m.pull();
    match step {
        StepView::Done => Trace {
            emitted: Seq::empty(),
            requests: Seq::empty(),
            outcome: Outcome::Ended,
        },
        StepView::Failed(error) => Trace {
            emitted: Seq::empty(),
            requests: Seq::empty(),
            outcome: Outcome::Failed(error),
        },
        StepView::Emit(record) => {
            let rest = run(next, script);
            Trace { emitted: seq![record] + rest.emitted, ..rest }
        },
        StepView::Fetch(request) => {
            if script.len() == 0 {
                Trace { emitted: Seq::empty(), requests: seq![request], outcome: Outcome::Starved }
            } else {
                match script[0] {
                    Ok(page) => {
                        let rest = run(next.answer(script[0]), script.drop_first());
                        Trace { requests: seq![request] + rest.requests, ..rest }
                    },
                    Err(message) => Trace {
                        emitted: Seq::empty(),
                        requests: seq![request],
                        outcome: Outcome::Failed(ErrorView::Transport { message }),
                    },
                }
            }
        },
    }
}

/// Every record carries its spec.
pub open spec fn all_present<S>(records: Seq<Record<S>>) -> bool {
    forall|i: int| 0 <= i < records.len() ==> (#[trigger] records[i]).spec is Some
}

/// `script` answers the criteria from position `index` on, to the end and
/// without fault: every answer is a page; a page that announces another one
/// gives a usable cursor; no page of a lookup by name holds a record without
/// spec; and each criterion's pages end with one that announces no other.
pub open spec fn answers<S>(
    criteria: Seq<CriterionView>,
    index: int,
    script: Seq<Result<PageView<S>, Seq<char>>>,
) -> bool
    decreases script.len(),
{
    if script.len() == 0 {
        index == criteria.len()
    } else {
        match script[0] {
            Ok(page) => {
                &&& 0 <= index < criteria.len()
                &&& criteria[index] is NameList ==> all_present(page.records)
                &&& page.has_next ==> usable(page.cursor)
                &&& answers(
                    criteria,
                    if page.has_next {
                        index
                    } else {
                        index + 1
                    },
                    script.drop_first(),
                )
            },
            Err(_) => false,
        }
    }
}

/// The records of the pages of `script`, page after page.
pub open spec fn all_records<S>(script: Seq<Result<PageView<S>, Seq<char>>>) -> Seq<Record<S>>
    decreases script.len(),
{
    if script.len() == 0 {
        Seq::empty()
    } else {
        match script[0] {
            Ok(page) => page.records + all_records(script.drop_first()),
            Err(_) => all_records(script.drop_first()),
        }
    }
}

/// The sum of the numbers of records of the pages of `script`.
pub open spec fn record_count<S>(script: Seq<Result<PageView<S>, Seq<char>>>) -> nat
    decreases script.len(),
{
    if script.len() == 0 {
        0
    } else {
        match script[0] {
            Ok(page) => page.records.len() + record_count(script.drop_first()),
            Err(_) => record_count(script.drop_first()),
        }
    }
}

/// The requests that a listing makes when `script` answers it from the
/// criterion at `index` on: one per page, for the criterion the page belongs
/// to. The first request of a criterion carries no cursor; each further one
/// carries the cursor of the page before, as the service gave it.
pub open spec fn requests_for<S>(
    m: StreamModel<S>,
    index: int,
    cursor: Option<Seq<char>>,
    script: Seq<Result<PageView<S>, Seq<char>>>,
) -> Seq<RequestView>
    decreases script.len(),
{
    if script.len() == 0 {
        Seq::empty()
    } else {
        let request = RequestView {
            selection: m.criteria[index],
            after: cursor,
            first: m.first,
            include_models: m.include_models,
            include_flows: m.include_flows,
            include_last_publication: m.include_last_publication,
        };
        match script[0] {
            Ok(page) => seq![request] + requests_for(
                m,
                if page.has_next {
                    index
                } else {
                    index + 1
                },
                if page.has_next {
                    page.cursor
                } else {
                    None
                },
                script.drop_first(),
            ),
            Err(_) => seq![request],
        }
    }
}

/// The requests of a listing do not depend on where the stream stands, only
/// on its criteria and settings.
proof fn lemma_requests_for_settings<S>(
    m: StreamModel<S>,
    n: StreamModel<S>,
    index: int,
    cursor: Option<Seq<char>>,
    script: Seq<Result<PageView<S>, Seq<char>>>,
)
    requires
        m.criteria == n.criteria,
        m.first == n.first,
        m.include_models == n.include_models,
        m.include_flows == n.include_flows,
        m.include_last_publication == n.include_last_publication,
    ensures
        requests_for(m, index, cursor, script) == requests_for(n, index, cursor, script),
    decreases script.len(),
{
    if script.len() > 0 {
        match script[0] {
            Ok(page) => {
                lemma_requests_for_settings(
                    m,
                    n,
                    if page.has_next {
                        index
                    } else {
                        index + 1
                    },
                    if page.has_next {
                        page.cursor
                    } else {
                        None
                    },
                    script.drop_first(),
                );
            },
            Err(_) => {},
        }
    }
}

/// The state of an emitting stream once its page has been handed out.
pub open spec fn drained<S>(m: StreamModel<S>) -> StreamModel<S> {
    StreamModel { buffer: Seq::empty(), ..m }
}

/// A page is handed out whole and in order before anything else happens,
/// unless it belongs to a lookup by name and holds a record without spec.
/// Under a prefix, a record without spec is handed out like any other.
pub proof fn lemma_page_is_emitted<S>(
    m: StreamModel<S>,
    script: Seq<Result<PageView<S>, Seq<char>>>,
)
    requires
        m.wf(),
        m.phase == Phase::Emit,
        m.by_name() ==> all_present(m.buffer),
    ensures
        run(m, script).emitted == m.buffer + run(drained(m), script).emitted,
        run(m, script).requests == run(drained(m), script).requests,
        run(m, script).outcome == run(drained(m), script).outcome,
    decreases m.buffer.len(),
{
    if m.buffer.len() == 0 {
        assert(m.buffer =~= Seq::empty());
        assert(m == drained(m));
        assert(m.buffer + run(drained(m), script).emitted =~= run(drained(m), script).emitted);
    } else {
        let next = m.pull().0;
        assert(m.buffer[0].spec is None ==> !m.by_name());
        assert(next == StreamModel { buffer: m.buffer.drop_first(), ..m });
        assert(m.pull().1 == StepView::Emit(m.buffer[0]));
        assert forall|i: int| 0 <= i < next.buffer.len() && m.by_name() implies (
        #[trigger] next.buffer[i]).spec is Some by {
            assert(next.buffer[i] == m.buffer[i + 1]);
        }
        lemma_page_is_emitted(next, script);
        assert(drained(next) == drained(m));
        assert(run(m, script).emitted == seq![m.buffer[0]] + run(next, script).emitted);
        assert(seq![m.buffer[0]] + (next.buffer + run(drained(m), script).emitted) =~= m.buffer
            + run(drained(m), script).emitted);
    }
}

/// A run from a requesting stream against a script that answers its
/// remaining criteria hands out every record of every page, in order, makes
/// one request per page, and ends.
proof fn lemma_listing_from<S>(m: StreamModel<S>, script: Seq<Result<PageView<S>, Seq<char>>>)
    requires
        m.wf(),
        m.phase == Phase::Request,
        answers(m.criteria, m.index, script),
    ensures
        run(m, script).emitted == all_records(script),
        run(m, script).requests == requests_for(m, m.index, m.cursor, script),
        run(m, script).requests.len() == script.len(),
        run(m, script).outcome == Outcome::Ended,
        all_records(script).len() == record_count(script),
    decreases script.len(),
{
    if script.len() == 0 {
        assert(m.pull().1 == StepView::<S>::Done);
    } else {
        let page = script[0]->Ok_0;
        let rest = script.drop_first();
        assert(m.pull().1 == StepView::<S>::Fetch(m.request()));
        assert(m.pull().0 == m);
        let filled = m.answer(script[0]);
        assert(filled.buffer == page.records);
        lemma_page_is_emitted(filled, rest);
        let empty = drained(filled);
        let after = if page.has_next {
            StreamModel { phase: Phase::Request, ..empty }
        } else {
            StreamModel { phase: Phase::Request, index: m.index + 1, cursor: None, ..empty }
        };
        assert(empty.pull() == after.pull_request());
        assert(after.pull() == after.pull_request());
        assert(run(empty, rest) == run(after, rest));
        lemma_listing_from(after, rest);
        lemma_requests_for_settings(after, m, after.index, after.cursor, rest);
        assert(run(m, script).emitted == run(filled, rest).emitted);
        assert(run(m, script).requests == seq![m.request()] + run(filled, rest).requests);
    }
}

/// A listing that is answered to the end and without fault hands out every
/// record of every page, in the order of the pages and, within a page, of
/// its records. It hands out as many records as the pages hold together,
/// makes one request per page, each with the cursor of the page before, and
/// ends.
pub proof fn lemma_full_listing<S>(
    m: StreamModel<S>,
    script: Seq<Result<PageView<S>, Seq<char>>>,
)
    requires
        m == StreamModel::<S>::start(
            m.criteria,
            m.first,
            m.include_models,
            m.include_flows,
            m.include_last_publication,
        ),
        answers(m.criteria, 0, script),
    ensures
        run(m, script).emitted == all_records(script),
        run(m, script).emitted.len() == record_count(script),
        run(m, script).requests == requests_for(m, 0, None, script),
        run(m, script).requests.len() == script.len(),
        run(m, script).outcome == Outcome::Ended,
{
    lemma_listing_from(m, script);
}

/// A page that announces another one without a usable cursor aborts the
/// listing with a protocol violation once its records are handed out:
/// nothing more is requested and nothing more is handed out.
pub proof fn lemma_missing_cursor_aborts<S>(
    m: StreamModel<S>,
    script: Seq<Result<PageView<S>, Seq<char>>>,
)
    requires
        m.wf(),
        m.phase == Phase::Emit,
        m.by_name() ==> all_present(m.buffer),
        m.has_next,
        !usable(m.cursor),
    ensures
        run(m, script) == (Trace {
            emitted: m.buffer,
            requests: Seq::empty(),
            outcome: Outcome::Failed(ErrorView::ProtocolViolation),
        }),
{
    lemma_page_is_emitted(m, script);
    let empty = drained(m);
    assert(empty.pull().1 == StepView::<S>::Failed(ErrorView::ProtocolViolation));
    assert(m.buffer + run(empty, script).emitted =~= m.buffer);
}

/// In a lookup by name, the first record without spec aborts the listing and
/// is named in the error: the records before it are handed out, that record
/// and those after it are not, and nothing more is requested.
pub proof fn lemma_missing_named_entry_aborts<S>(
    m: StreamModel<S>,
    script: Seq<Result<PageView<S>, Seq<char>>>,
    k: int,
)
    requires
        m.wf(),
        m.phase == Phase::Emit,
        m.by_name(),
        0 <= k < m.buffer.len(),
        m.buffer[k].spec is None,
        forall|i: int| 0 <= i < k ==> (#[trigger] m.buffer[i]).spec is Some,
    ensures
        run(m, script) == (Trace {
            emitted: m.buffer.subrange(0, k),
            requests: Seq::empty(),
            outcome: Outcome::Failed(
                ErrorView::MissingNamedEntry { name: m.buffer[k].catalog_name@ },
            ),
        }),
    decreases k,
{
    if k == 0 {
        assert(m.pull().1 == StepView::<S>::Failed(
            ErrorView::MissingNamedEntry { name: m.buffer[0].catalog_name@ },
        ));
        assert(m.buffer.subrange(0, 0) =~= Seq::empty());
    } else {
        let next = m.pull().0;
        assert(m.buffer[0].spec is Some);
        assert(next == StreamModel { buffer: m.buffer.drop_first(), ..m });
        assert(m.pull().1 == StepView::Emit(m.buffer[0]));
        assert(next.buffer[k - 1] == m.buffer[k]);
        assert forall|i: int| 0 <= i < k - 1 implies (#[trigger] next.buffer[i]).spec is Some by {
            assert(next.buffer[i] == m.buffer[i + 1]);
        }
        lemma_missing_named_entry_aborts(next, script, k - 1);
        assert(seq![m.buffer[0]] + next.buffer.subrange(0, k - 1) =~= m.buffer.subrange(0, k));
    }
}

/// A stream asks for a page only when the consumer has pulled every record
/// of the pages before: nothing is fetched ahead of demand.
pub proof fn lemma_fetch_on_demand_only<S>(m: StreamModel<S>)
    requires
        m.wf(),
        m.pull().1 is Fetch,
    ensures
        m.buffer.len() == 0,
        m.pull().0.awaits_page(),
{
}

} // verus!
