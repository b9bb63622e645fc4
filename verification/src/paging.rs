//! The paginated fetch as a pull-driven state machine.
//!
//! The stream decides; its driver does the network's work. `poll` says what
//! comes next: a record to hand to the consumer, a page to request, or the
//! end. `supply` takes the answer to a request. Nothing is requested before
//! the consumer has pulled every record of the page before.

use std::collections::VecDeque;
use vstd::prelude::*;
use crate::error::{ErrorView, ListError};
use crate::selection::{
    build_criteria, copy_optional, criteria_views, opt_view, to_vars, CriterionView, List,
    SelectionCriterion,
};
use crate::text::views;

verus! {

/// Who published an entry last.
#[derive(Clone, Debug)]
pub struct LastPublication {
    pub user_id: String,
    pub user_email: Option<String>,
    pub user_full_name: Option<String>,
}

/// One catalog entry as the service returned it. An absent `spec` means that
/// the entry is being deleted.
#[derive(Debug)]
pub struct Record<S> {
    pub catalog_name: String,
    pub spec: Option<S>,
    /// Present where the details of the last publication were asked for.
    pub last_publication: Option<LastPublication>,
}

/// One page of a query's results.
#[derive(Debug)]
pub struct Page<S> {
    pub records: Vec<Record<S>>,
    pub has_next: bool,
    pub cursor: Option<String>,
}

/// A page as plain values.
pub struct PageView<S> {
    pub records: Seq<Record<S>>,
    pub has_next: bool,
    pub cursor: Option<Seq<char>>,
}

impl<S> View for Page<S> {
    type V = PageView<S>;

    open spec fn view(&self) -> PageView<S> {
        PageView { records: self.records@, has_next: self.has_next, cursor: opt_view(self.cursor) }
    }
}

/// What to ask the service for: one page of one criterion.
#[derive(Debug)]
pub struct PageRequest {
    pub selection: SelectionCriterion,
    pub after: Option<String>,
    pub first: i64,
    pub include_models: bool,
    pub include_flows: bool,
    pub include_last_publication: bool,
}

/// A request as plain values.
pub struct RequestView {
    pub selection: CriterionView,
    pub after: Option<Seq<char>>,
    pub first: i64,
    pub include_models: bool,
    pub include_flows: bool,
    pub include_last_publication: bool,
}

impl View for PageRequest {
    type V = RequestView;

    open spec fn view(&self) -> RequestView {
        RequestView {
            selection: self.selection@,
            after: opt_view(self.after),
            first: self.first,
            include_models: self.include_models,
            include_flows: self.include_flows,
            include_last_publication: self.include_last_publication,
        }
    }
}

/// What the driver of a stream does next.
#[derive(Debug)]
pub enum Step<S> {
    /// Request this page and supply the answer.
    Fetch(PageRequest),
    /// Hand this record to the consumer.
    Emit(Record<S>),
    /// The stream has ended.
    Done,
    /// The stream has failed; it ends here.
    Failed(ListError),
}

/// A step as plain values.
pub enum StepView<S> {
    Fetch(RequestView),
    Emit(Record<S>),
    Done,
    Failed(ErrorView),
}

impl<S> View for Step<S> {
    type V = StepView<S>;

    open spec fn view(&self) -> StepView<S> {
        match *self {
            Step::Fetch(request) => StepView::Fetch(request@),
            Step::Emit(record) => StepView::Emit(record),
            Step::Done => StepView::Done,
            Step::Failed(error) => StepView::Failed(error@),
        }
    }
}

/// Where a stream stands.
#[derive(Clone, Copy, Debug, PartialEq, Eq, Structural)]
pub enum Phase {
    /// A page of the active criterion is to be requested.
    Request,
    /// The records of a page are being handed out.
    Emit,
    /// Every criterion has been listed to its last page.
    Done,
    /// The listing was aborted.
    Failed,
}

/// The state of a stream as plain values.
pub struct StreamModel<S> {
    pub criteria: Seq<CriterionView>,
    pub first: i64,
    pub include_models: bool,
    pub include_flows: bool,
    pub include_last_publication: bool,
    /// The position of the active criterion.
    pub index: int,
    /// While requesting: where the next page starts. While emitting: where
    /// the page after the current one starts, as the service said.
    pub cursor: Option<Seq<char>>,
    /// The records of the current page that are still to be handed out.
    pub buffer: Seq<Record<S>>,
    /// Whether the service announced a page after the current one.
    pub has_next: bool,
    pub phase: Phase,
}

/// A cursor that a further page can be requested with: present and not empty.
pub open spec fn usable(cursor: Option<Seq<char>>) -> bool {
    match cursor {
        Some(c) => c.len() > 0,
        None => false,
    }
}

impl<S> StreamModel<S> {
    /// A stream before its first request.
    pub open spec fn start(
        criteria: Seq<CriterionView>,
        first: i64,
        include_models: bool,
        include_flows: bool,
        include_last_publication: bool,
    ) -> StreamModel<S> {
        StreamModel {
            criteria,
            first,
            include_models,
            include_flows,
            include_last_publication,
            index: 0,
            cursor: None,
            buffer: Seq::empty(),
            has_next: false,
            phase: Phase::Request,
        }
    }

    /// The states that a stream can be in.
    pub open spec fn wf(self) -> bool {
        &&& 0 <= self.index <= self.criteria.len()
        &&& self.phase == Phase::Emit ==> self.index < self.criteria.len()
        &&& self.phase != Phase::Emit ==> self.buffer.len() == 0
    }

    /// Whether the active criterion looks entries up by name.
    pub open spec fn by_name(self) -> bool {
        0 <= self.index < self.criteria.len() && self.criteria[self.index] is NameList
    }

    /// The request for the next page of the active criterion.
    pub open spec fn request(self) -> RequestView {
        RequestView {
            selection: self.criteria[self.index],
            after: self.cursor,
            first: self.first,
            include_models: self.include_models,
            include_flows: self.include_flows,
            include_last_publication: self.include_last_publication,
        }
    }

    /// A pull in the requesting phase: the next page of the active
    /// criterion, or the end when no criterion is left.
    pub open spec fn pull_request(self) -> (StreamModel<S>, StepView<S>) {
        if self.index < self.criteria.len() {
            (self, StepView::Fetch(self.request()))
        } else {
            (StreamModel { phase: Phase::Done, ..self }, StepView::Done)
        }
    }

    /// The state after a pull, and what the pull yields.
    pub open spec fn pull(self) -> (StreamModel<S>, StepView<S>) {
        match self.phase {
            Phase::Done | Phase::Failed => (self, StepView::Done),
            Phase::Request => self.pull_request(),
            Phase::Emit => {
                if self.buffer.len() > 0 {
                    let record = self.buffer[0];
                    if record.spec is None && self.by_name() {
                        (
                            StreamModel { phase: Phase::Failed, buffer: Seq::empty(), ..self },
                            StepView::Failed(
                                ErrorView::MissingNamedEntry { name: record.catalog_name@ },
                            ),
                        )
                    } else {
                        (
                            StreamModel { buffer: self.buffer.drop_first(), ..self },
                            StepView::Emit(record),
                        )
                    }
                } else if !self.has_next {
                    (StreamModel {
                        phase: Phase::Request,
                        index: self.index + 1,
                        cursor: None,
                        ..self
                    }).pull_request()
                } else if usable(self.cursor) {
                    (StreamModel { phase: Phase::Request, ..self }).pull_request()
                } else {
                    (
                        StreamModel { phase: Phase::Failed, ..self },
                        StepView::Failed(ErrorView::ProtocolViolation),
                    )
                }
            },
        }
    }

    /// Whether the stream waits for the answer to a request.
    pub open spec fn awaits_page(self) -> bool {
        self.phase == Phase::Request && self.index < self.criteria.len()
    }

    /// The state after the answer to a request came in. An answer that the
    /// stream does not wait for changes nothing.
    pub open spec fn answer(self, response: Result<PageView<S>, Seq<char>>) -> StreamModel<S> {
        if self.awaits_page() {
            match response {
                Ok(page) => StreamModel {
                    phase: Phase::Emit,
                    buffer: page.records,
                    has_next: page.has_next,
                    cursor: page.cursor,
                    ..self
                },
                Err(_) => StreamModel { phase: Phase::Failed, ..self },
            }
        } else {
            self
        }
    }
}

/// A response as plain values.
pub open spec fn response_view<S>(response: Result<Page<S>, String>) -> Result<
    PageView<S>,
    Seq<char>,
> {
    match response {
        Ok(page) => Ok(page@),
        Err(message) => Err(message@),
    }
}

/// The paginated listing of a list of criteria, one record at a time.
pub struct LiveSpecStream<S> {
    criteria: Vec<SelectionCriterion>,
    first: i64,
    include_models: bool,
    include_flows: bool,
    include_last_publication: bool,
    index: usize,
    cursor: Option<String>,
    buffer: VecDeque<Record<S>>,
    has_next: bool,
    phase: Phase,
}

impl<S> View for LiveSpecStream<S> {
    type V = StreamModel<S>;

    closed spec fn view(&self) -> StreamModel<S> {
        StreamModel {
            criteria: criteria_views(self.criteria@),
            first: self.first,
            include_models: self.include_models,
            include_flows: self.include_flows,
            include_last_publication: self.include_last_publication,
            index: self.index as int,
            cursor: opt_view(self.cursor),
            buffer: self.buffer@,
            has_next: self.has_next,
            phase: self.phase,
        }
    }
}

/// The records of a page as a queue, the first record at its front.
fn queue_of<S>(records: Vec<Record<S>>) -> (queue: VecDeque<Record<S>>)
    ensures
        queue@ == records@,
{
    let mut rest = records;
    let mut queue: VecDeque<Record<S>> = VecDeque::new();
    loop
        invariant
            rest@ + queue@ == records@,
        decreases rest@.len(),
    {
        match rest.pop() {
            Some(record) => {
                let ghost before = queue@;
                queue.push_front(record);
                assert(rest@ + queue@ =~= (rest@.push(record)) + before);
            },
            None => {
                assert(queue@ =~= rest@ + queue@);
                return queue;
            },
        }
    }
}

impl<S> LiveSpecStream<S> {
    #[verifier::type_invariant]
    spec fn valid(self) -> bool {
        self@.wf()
    }
}

/// Whether a further page can be requested with this cursor.
pub fn is_usable(cursor: &Option<String>) -> (r: bool)
    ensures
        r == usable(opt_view(*cursor)),
{
    match cursor {
        Some(c) => !c.as_str().is_empty(),
        None => false,
    }
}

impl<S> LiveSpecStream<S> {
    /// A stream over `criteria`, in their order, that asks for `page_size`
    /// records at a time.
    pub fn new(
        criteria: Vec<SelectionCriterion>,
        page_size: i64,
        include_models: bool,
        include_flows: bool,
        include_last_publication: bool,
    ) -> (r: LiveSpecStream<S>)
        ensures
            r@ == StreamModel::<S>::start(
                criteria_views(criteria@),
                page_size,
                include_models,
                include_flows,
                include_last_publication,
            ),
            r@.wf(),
    {
        LiveSpecStream {
            criteria,
            first: page_size,
            include_models,
            include_flows,
            include_last_publication,
            index: 0,
            cursor: None,
            buffer: VecDeque::new(),
            has_next: false,
            phase: Phase::Request,
        }
    }

    /// Where the stream stands.
    pub fn phase(&self) -> (r: Phase)
        ensures
            r == self@.phase,
    {
        self.phase
    }

    /// Whether the stream waits for the answer to a request.
    pub fn awaits_page(&self) -> (r: bool)
        ensures
            r == self@.awaits_page(),
    {
        self.phase == Phase::Request && self.index < self.criteria.len()
    }

    /// Pulls the next step out of the stream.
    ///
    /// While records of the current page are left, the next one is handed
    /// out, unless its spec is absent and it was asked for by name: then the
    /// stream fails. After the last record of a page the stream asks for the
    /// page that the service announced, with the cursor the service gave, or
    /// for the first page of the next criterion; it fails if a page was
    /// announced without a usable cursor. A stream that waits for a page
    /// repeats its request. A stream that has ended or failed yields `Done`.
    pub fn poll(&mut self) -> (step: Step<S>)
        ensures
            old(self)@.wf(),
            final(self)@.wf(),
            final(self)@ == old(self)@.pull().0,
            step@ == old(self)@.pull().1,
    {
        proof {
            use_type_invariant(&*self);
        }
        match self.phase {
            Phase::Done | Phase::Failed => {
                return Step::Done;
            },
            Phase::Request => {},
            Phase::Emit => {
                let count = self.criteria.len();
                assert(self.index < count);
                let mut buffer: VecDeque<Record<S>> = VecDeque::new();
                std::mem::swap(&mut self.buffer, &mut buffer);
                match buffer.pop_front() {
                    Some(record) => {
                        if record.spec.is_none() && self.criteria[self.index].is_by_name() {
                            self.phase = Phase::Failed;
                            return Step::Failed(
                                ListError::MissingNamedEntry { name: record.catalog_name },
                            );
                        }
                        assert(buffer@ =~= old(self).buffer@.drop_first());
                        self.buffer = buffer;
                        return Step::Emit(record);
                    },
                    None => {
                        assert(self.buffer@ =~= old(self).buffer@);
                        if !self.has_next {
                            self.phase = Phase::Request;
                            self.index = self.index + 1;
                            self.cursor = None;
                        } else if is_usable(&self.cursor) {
                            self.phase = Phase::Request;
                        } else {
                            self.phase = Phase::Failed;
                            return Step::Failed(ListError::ProtocolViolation);
                        }
                    },
                }
            },
        }
        if self.index < self.criteria.len() {
            Step::Fetch(
                PageRequest {
                    selection: self.criteria[self.index].duplicate(),
                    after: copy_optional(&self.cursor),
                    first: self.first,
                    include_models: self.include_models,
                    include_flows: self.include_flows,
                    include_last_publication: self.include_last_publication,
                },
            )
        } else {
            self.phase = Phase::Done;
            Step::Done
        }
    }

    /// Takes the answer to the request that the stream last asked for.
    ///
    /// A page is queued for handing out. A failure aborts the stream and is
    /// returned as a transport error. An answer that the stream does not wait
    /// for is dropped.
    pub fn supply(&mut self, response: Result<Page<S>, String>) -> (r: Result<(), ListError>)
        ensures
            old(self)@.wf(),
            final(self)@.wf(),
            final(self)@ == old(self)@.answer(response_view(response)),
            match r {
                Ok(_) => !(old(self)@.awaits_page() && response is Err),
                Err(e) => old(self)@.awaits_page() && response is Err && e@ == (
                ErrorView::Transport { message: response->Err_0@ }),
            },
    {
        proof {
            use_type_invariant(&*self);
        }
        if !self.awaits_page() {
            return Ok(());
        }
        match response {
            Ok(page) => {
                let Page { records, has_next, cursor } = page;
                self.phase = Phase::Emit;
                self.buffer = queue_of(records);
                self.has_next = has_next;
                self.cursor = cursor;
                Ok(())
            },
            Err(message) => {
                self.phase = Phase::Failed;
                Err(ListError::Transport { message })
            },
        }
    }
}

/// The records asked for at a time when models are left out.
pub const PAGE_SIZE: i64 = 200;

/// The records asked for at a time when models are included: models can be
/// large, so fewer of them go into one page.
pub const PAGE_SIZE_WITH_MODELS: i64 = 50;

/// The page size of a listing.
pub open spec fn page_size(include_models: bool) -> i64 {
    if include_models {
        PAGE_SIZE_WITH_MODELS
    } else {
        PAGE_SIZE
    }
}

/// The stream of a listing: its prefixes in the order given, then its names.
///
/// The listing has to select something, by name or by prefix.
pub fn fetch_paginated_live_specs<S>(list: List) -> (stream: LiveSpecStream<S>)
    requires
        list.name_selector.name@.len() > 0 || list.name_selector.prefix@.len() > 0,
    ensures
        stream@.wf(),
        stream@ == StreamModel::<S>::start(
            build_criteria(
                views(list.name_selector.prefix@),
                views(list.name_selector.name@),
                list.type_selector.catalog_type,
                opt_view(list.data_plane_selector.data_plane_name),
            ),
            page_size(list.include_models),
            list.include_models,
            list.include_flows,
            list.include_last_publication,
        ),
{
    let first = if list.include_models {
        PAGE_SIZE_WITH_MODELS
    } else {
        PAGE_SIZE
    };
    LiveSpecStream::new(
        to_vars(&list),
        first,
        list.include_models,
        list.include_flows,
        list.include_last_publication,
    )
}

} // verus!
