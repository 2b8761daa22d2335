use vstd::prelude::*;

verus! {

/// A deployed function as the provider's listing reports it.
pub struct FunctionDescriptor {
    pub name: String,
    /// The function's ARN, where the provider gives one.
    pub arn: Option<String>,
    /// The configured environment variables, where the function has an
    /// environment configuration.
    pub environment: Option<Vec<(String, String)>>,
}

/// A function that has at least one environment variable configured.
pub struct FunctionRecord {
    pub name: String,
    pub arn: String,
    pub env_vars: Vec<(String, String)>,
}

/// One page of the provider's listing.
pub struct Page {
    pub functions: Vec<FunctionDescriptor>,
    /// Present when more pages follow.
    pub next_marker: Option<String>,
}

/// A failure reported by the provider for one page request.
pub struct ApiError {
    pub message: String,
}

/// What a [`FunctionRecord`] holds, as mathematical values.
pub struct RecordView {
    pub name: Seq<char>,
    pub arn: Seq<char>,
    pub env_vars: Seq<(Seq<char>, Seq<char>)>,
}

pub open spec fn pairs_view(vars: Seq<(String, String)>) -> Seq<(Seq<char>, Seq<char>)> {
    vars.map_values(|p: (String, String)| (p.0@, p.1@))
}

impl View for FunctionRecord {
    type V = RecordView;

    open spec fn view(&self) -> RecordView {
        RecordView { name: self.name@, arn: self.arn@, env_vars: pairs_view(self.env_vars@) }
    }
}

pub open spec fn records_view(rs: Seq<FunctionRecord>) -> Seq<RecordView> {
    rs.map_values(|r: FunctionRecord| r@)
}

/// A descriptor is kept exactly when it has at least one environment variable.
pub open spec fn has_environment(d: FunctionDescriptor) -> bool {
    match d.environment {
        Some(vars) => vars@.len() > 0,
        None => false,
    }
}

/// The record made of a kept descriptor; a missing ARN becomes empty.
pub open spec fn record_of(d: FunctionDescriptor) -> RecordView {
    RecordView {
        name: d.name@,
        arn: match d.arn {
            Some(a) => a@,
            None => Seq::empty(),
        },
        env_vars: match d.environment {
            Some(vars) => pairs_view(vars@),
            None => Seq::empty(),
        },
    }
}

/// The records of one page, in page order.
pub open spec fn page_records(ds: Seq<FunctionDescriptor>) -> Seq<RecordView>
    decreases ds.len(),
{
    if ds.len() == 0 {
        Seq::empty()
    } else {
        let rest = page_records(ds.drop_last());
        if has_environment(ds.last()) {
            rest.push(record_of(ds.last()))
        } else {
            rest
        }
    }
}

/// The records of a sequence of pages: each page's records, one page after
/// the other.
pub open spec fn listing(pages: Seq<Page>) -> Seq<RecordView>
    decreases pages.len(),
{
    if pages.len() == 0 {
        Seq::empty()
    } else {
        listing(pages.drop_last()) + page_records(pages.last().functions@)
    }
}


/// Where a listing stands.
#[derive(Clone, Copy, PartialEq, Eq, Structural, Debug)]
pub enum Phase {
    /// Waiting for the next page.
    Awaiting,
    /// The last page has come.
    Complete,
    /// The provider failed on a page; nothing is kept.
    Aborted,
}

/// What the caller does after handing a page event to the lister.
pub enum ListerStep {
    /// Request the page that follows this marker.
    Fetch(String),
    /// The listing is complete.
    Done,
    /// The listing failed with this provider error.
    Failed(ApiError),
}

/// The state of a listing, as mathematical values.
pub struct ListerView {
    pub records: Seq<RecordView>,
    pub phase: Phase,
}

/// The state before any page has come.
pub open spec fn initial_view() -> ListerView {
    ListerView { records: Seq::empty(), phase: Phase::Awaiting }
}

/// The state after one page event.
pub open spec fn next_view(s: ListerView, event: Result<Page, ApiError>) -> ListerView {
    match event {
        Ok(page) => ListerView {
            records: s.records + page_records(page.functions@),
            phase: if page.next_marker is Some {
                Phase::Awaiting
            } else {
                Phase::Complete
            },
        },
        Err(_) => ListerView { records: Seq::empty(), phase: Phase::Aborted },
    }
}

/// The step answered to one page event.
pub open spec fn step_of(event: Result<Page, ApiError>) -> ListerStep {
    match event {
        Ok(page) => match page.next_marker {
            Some(m) => ListerStep::Fetch(m),
            None => ListerStep::Done,
        },
        Err(e) => ListerStep::Failed(e),
    }
}

/// Sequential pagination over the provider's listing.
///
/// The caller requests the first page without a marker, hands each response
/// to [`FunctionLister::handle`] and follows the step it returns.
pub struct FunctionLister {
    records: Vec<FunctionRecord>,
    phase: Phase,
}

impl View for FunctionLister {
    type V = ListerView;

    closed spec fn view(&self) -> ListerView {
        ListerView { records: records_view(self.records@), phase: self.phase }
    }
}

impl FunctionLister {
    pub fn new() -> (r: FunctionLister)
        ensures
            r@ == initial_view(),
    {
        let r = FunctionLister { records: Vec::new(), phase: Phase::Awaiting };
        assert(r@.records =~= Seq::<RecordView>::empty());
        r
    }

    pub fn phase(&self) -> (r: Phase)
        ensures
            r == self@.phase,
    {
        self.phase
    }

    /// Takes in the response to the last request: a page or a provider error.
    pub fn handle(&mut self, event: Result<Page, ApiError>) -> (step: ListerStep)
        requires
            old(self)@.phase == Phase::Awaiting,
        ensures
            final(self)@ == next_view(old(self)@, event),
            step == step_of(event),
    {
        match event {
            Ok(page) => {
                let Page { functions, next_marker } = page;
                append_page(&mut self.records, functions);
                match next_marker {
                    Some(m) => {
                        self.phase = Phase::Awaiting;
                        ListerStep::Fetch(m)
                    },
                    None => {
                        self.phase = Phase::Complete;
                        ListerStep::Done
                    },
                }
            },
            Err(e) => {
                self.records = Vec::new();
                self.phase = Phase::Aborted;
                assert(records_view(self.records@) =~= Seq::<RecordView>::empty());
                ListerStep::Failed(e)
            },
        }
    }

    /// The records of a complete listing.
    pub fn into_records(self) -> (r: Vec<FunctionRecord>)
        requires
            self@.phase == Phase::Complete,
        ensures
            records_view(r@) == self@.records,
    {
        self.records
    }
}

/// Moves the records of the kept descriptors of a page to the end of `out`.
fn append_page(out: &mut Vec<FunctionRecord>, functions: Vec<FunctionDescriptor>)
    ensures
        records_view(final(out)@) == records_view(old(out)@) + page_records(functions@),
{
    let ghost all = functions@;
    assert(all.len() == functions.len());
    let ghost start = records_view(out@);
    let mut rest = functions;
    let mut i: usize = 0;
    while rest.len() > 0
        invariant
            i <= all.len() <= usize::MAX,
            rest@ == all.subrange(i as int, all.len() as int),
            records_view(out@) == start + page_records(all.subrange(0, i as int)),
        decreases rest.len(),
    {
        let d = rest.remove(0);
        assert(all.subrange(0, i as int + 1).drop_last() =~= all.subrange(0, i as int));
        assert(d == all[i as int]);
        let ghost before = out@;
        match d.environment {
            Some(vars) => {
                if vars.len() > 0 {
                    let arn = match d.arn {
                        Some(a) => a,
                        None => String::new(),
                    };
                    out.push(FunctionRecord { name: d.name, arn, env_vars: vars });
                    assert(records_view(out@) =~= records_view(before).push(out@.last()@));
                }
            },
            None => {},
        }
        i = i + 1;
        assert(rest@ =~= all.subrange(i as int, all.len() as int));
    }
    assert(all.subrange(0, i as int) =~= all);
}


/// The state, and the number of responses taken in, after handing `events`
/// in order to a new lister. Once the listing has ended no further response
/// is taken in: no request was made for it.
pub open spec fn drive(events: Seq<Result<Page, ApiError>>) -> (ListerView, nat)
    decreases events.len(),
{
    if events.len() == 0 {
        (initial_view(), 0)
    } else {
        let (s, n) = drive(events.drop_last());
        if s.phase == Phase::Awaiting {
            (next_view(s, events.last()), n + 1)
        } else {
            (s, n)
        }
    }
}

/// Pages answered without error.
pub open spec fn ok_pages(pages: Seq<Page>) -> Seq<Result<Page, ApiError>> {
    pages.map_values(|p: Page| Ok::<Page, ApiError>(p))
}

/// Every page but the last carries a continuation marker.
pub open spec fn chained(pages: Seq<Page>) -> bool {
    forall|i: int| 0 <= i < pages.len() - 1 ==> (#[trigger] pages[i]).next_marker is Some
}

/// The records of a page are its descriptors that have an environment, each
/// made into its record: a descriptor without environment variables never
/// gives a record.
pub proof fn lemma_page_records_filter(ds: Seq<FunctionDescriptor>)
    ensures
        page_records(ds) == ds.filter(|d: FunctionDescriptor| has_environment(d)).map_values(
            |d: FunctionDescriptor| record_of(d),
        ),
    decreases ds.len(),
{
    reveal(Seq::filter);
    if ds.len() > 0 {
        lemma_page_records_filter(ds.drop_last());
    }
    assert(page_records(ds) =~= ds.filter(|d: FunctionDescriptor| has_environment(d)).map_values(
        |d: FunctionDescriptor| record_of(d),
    ));
}

/// Handed a chain of pages (any number of them, each of any size), the
/// lister takes in every page, and its records are the records of each
/// page, one page after the other. It is complete exactly when the last page
/// carries no marker.
pub proof fn lemma_listing_collects_pages(pages: Seq<Page>)
    requires
        chained(pages),
    ensures
        drive(ok_pages(pages)).0.records == listing(pages),
        drive(ok_pages(pages)).1 == pages.len(),
        drive(ok_pages(pages)).0.phase == (if pages.len() > 0 && pages.last().next_marker is None {
            Phase::Complete
        } else {
            Phase::Awaiting
        }),
    decreases pages.len(),
{
    if pages.len() > 0 {
        let front = pages.drop_last();
        assert(ok_pages(pages).drop_last() =~= ok_pages(front));
        assert(chained(front)) by {
            assert forall|i: int| 0 <= i < front.len() - 1 implies (#[trigger] front[i]).next_marker is Some by {
                assert(front[i] == pages[i]);
            }
        }
        lemma_listing_collects_pages(front);
        if front.len() > 0 {
            assert(front.last() == pages[pages.len() - 2]);
        }
    }
}

/// Whatever comes after the end of a listing is never taken in.
pub proof fn lemma_ended_listing_takes_nothing(
    events: Seq<Result<Page, ApiError>>,
    later: Seq<Result<Page, ApiError>>,
)
    requires
        drive(events).0.phase != Phase::Awaiting,
    ensures
        drive(events + later) == drive(events),
    decreases later.len(),
{
    if later.len() == 0 {
        assert(events + later =~= events);
    } else {
        assert((events + later).drop_last() =~= events + later.drop_last());
        lemma_ended_listing_takes_nothing(events, later.drop_last());
    }
}

/// A finite chain of pages whose last page has no marker is taken in with
/// exactly one response per page, and nothing that comes after it is taken
/// in.
pub proof fn lemma_pagination_terminates(pages: Seq<Page>, later: Seq<Result<Page, ApiError>>)
    requires
        chained(pages),
        pages.len() > 0,
        (pages.last().next_marker is None),
    ensures
        drive(ok_pages(pages) + later) == drive(ok_pages(pages)),
        drive(ok_pages(pages) + later).1 == pages.len(),
        drive(ok_pages(pages)).0.phase == Phase::Complete,
        forall|i: int|
            0 <= i < pages.len() - 1 ==> (step_of(#[trigger] ok_pages(pages)[i]) is Fetch),
        (step_of(ok_pages(pages).last()) is Done),
{
    lemma_listing_collects_pages(pages);
    lemma_ended_listing_takes_nothing(ok_pages(pages), later);
    assert forall|i: int| 0 <= i < pages.len() - 1 implies step_of(
        #[trigger] ok_pages(pages)[i],
    ) is Fetch by {
        assert(pages[i].next_marker is Some);
    }
}

/// A provider error on any page leaves the listing aborted with no records,
/// whatever the pages before it held and whatever comes after it.
pub proof fn lemma_error_aborts_listing(
    pages: Seq<Page>,
    e: ApiError,
    later: Seq<Result<Page, ApiError>>,
)
    requires
        chained(pages),
        (pages.len() == 0 || pages.last().next_marker is Some),
    ensures
        drive(ok_pages(pages).push(Err(e)) + later).0 == (ListerView {
            records: Seq::empty(),
            phase: Phase::Aborted,
        }),
        step_of(Err(e)) == ListerStep::Failed(e),
{
    lemma_listing_collects_pages(pages);
    let events = ok_pages(pages).push(Err(e));
    assert(events.drop_last() =~= ok_pages(pages));
    lemma_ended_listing_takes_nothing(events, later);
}

} // verus!
