//! The query controller: handle lifetime, counter binding, and polling.
//!
//! The native subsystem is driven from outside this crate: the embedding
//! application opens the query, registers counters against it, runs
//! collection passes and reads formatted values, and hands every outcome
//! back here as a plain value (an opaque token for each native resource, a
//! status, a raw sample).  This module holds all the decisions around those
//! calls — which descriptors get bound, what a poll pass yields and in what
//! order, when the collection pass is requested, and when the query's one
//! native resource is to be closed.

use vstd::prelude::*;

use crate::element::PdhCounterPathElement;
use crate::error::PDH_INVALID_HANDLE;
use crate::error::PdhCollectError;
use crate::path::path_buildable;
use crate::path::path_units;
use crate::path::pdh_make_counter_path;
use crate::value::PDH_FMT_DOUBLE;
use crate::value::PdhCollectValue;
use crate::value::PdhRawCounterValue;
use crate::value::to_value;
use crate::value::to_value_spec;

verus! {

/// One bound counter: the element it was made from, paired with the
/// driver's token for the native counter resource registered against the
/// query.  The native resource itself is owned by the query and dies with
/// it.
#[derive(Debug)]
pub struct PdhCollectionItem {
    pub element: PdhCounterPathElement,
    pub hcounter: usize,
}

/// The items that binding yields: each element whose bind outcome was a
/// counter token, paired with that token, in the original order; elements
/// without a token are dropped.
pub open spec fn bound_items(
    elements: Seq<PdhCounterPathElement>,
    adds: Seq<Option<usize>>,
) -> Seq<PdhCollectionItem>
    decreases elements.len(),
{
    if elements.len() == 0 {
        Seq::empty()
    } else {
        bound_items(elements.drop_last(), adds.drop_last()) + (match adds.last() {
            Some(h) => seq![PdhCollectionItem { element: elements.last(), hcounter: h }],
            None => Seq::empty(),
        })
    }
}

/// How many bind outcomes carried a counter token.
pub open spec fn num_bound(adds: Seq<Option<usize>>) -> nat
    decreases adds.len(),
{
    if adds.len() == 0 {
        0
    } else {
        num_bound(adds.drop_last()) + if adds.last() is Some {
            1nat
        } else {
            0nat
        }
    }
}

proof fn lemma_num_bound_le_len(adds: Seq<Option<usize>>)
    ensures
        num_bound(adds) <= adds.len(),
    decreases adds.len(),
{
    if adds.len() > 0 {
        lemma_num_bound_le_len(adds.drop_last());
    }
}

proof fn lemma_num_bound_take_le(adds: Seq<Option<usize>>, j: int)
    requires
        0 <= j <= adds.len(),
    ensures
        num_bound(adds.take(j)) <= num_bound(adds),
    decreases adds.len(),
{
    if j == adds.len() {
        assert(adds.take(j) =~= adds);
    } else {
        assert(adds.drop_last().take(j) =~= adds.take(j));
        lemma_num_bound_take_le(adds.drop_last(), j);
    }
}

/// Binding keeps the original order and drops exactly the descriptors that
/// got no counter token: the bound list holds one item per token, and the
/// element behind the i-th outcome, when it carries a token, stands at the
/// position given by the number of tokens before it.
pub proof fn lemma_bind_in_order(elements: Seq<PdhCounterPathElement>, adds: Seq<Option<usize>>)
    requires
        adds.len() == elements.len(),
    ensures
        bound_items(elements, adds).len() == num_bound(adds),
        bound_items(elements, adds).len() <= elements.len(),
        forall|i: int|
            0 <= i < elements.len() && adds[i] is Some ==> bound_items(elements, adds)[num_bound(
                adds.take(i),
            ) as int] == (PdhCollectionItem { element: elements[i], hcounter: adds[i]->0 }),
    decreases elements.len(),
{
    lemma_num_bound_le_len(adds);
    if elements.len() > 0 {
        let elements0 = elements.drop_last();
        let adds0 = adds.drop_last();
        let n = elements.len() - 1;
        lemma_bind_in_order(elements0, adds0);
        assert forall|i: int|
            0 <= i < elements.len() && adds[i] is Some implies bound_items(elements, adds)[num_bound(
            adds.take(i),
        ) as int] == (PdhCollectionItem { element: elements[i], hcounter: adds[i]->0 }) by {
            assert(adds.take(i) =~= adds0.take(i));
            if i < n {
                assert(adds0[i] == adds[i]);
                assert(elements0[i] == elements[i]);
                assert(adds0.take(i + 1).drop_last() =~= adds0.take(i));
                assert(adds0.take(i + 1).last() == adds0[i]);
                assert(num_bound(adds0.take(i + 1)) == num_bound(adds0.take(i)) + 1);
                lemma_num_bound_take_le(adds0, i + 1);
                assert(num_bound(adds0.take(i)) < bound_items(elements0, adds0).len());
            } else {
                assert(adds.take(n) =~= adds0);
            }
        }
    }
}

/// The sample a bound counter contributes to a poll, decoded in the
/// double-precision request format.
pub open spec fn collect_value_spec(
    item: PdhCollectionItem,
    raw: PdhRawCounterValue,
) -> PdhCollectValue {
    PdhCollectValue { element: item.element, value: to_value_spec(raw, PDH_FMT_DOUBLE) }
}

/// What one poll pass yields, given the read outcome of every bound counter:
/// one decoded value per successful read, in bind order; a failed read
/// contributes nothing and ends nothing.
pub open spec fn poll_spec(
    items: Seq<PdhCollectionItem>,
    replies: Seq<Result<PdhRawCounterValue, i32>>,
) -> Seq<PdhCollectValue>
    decreases items.len(),
{
    if items.len() == 0 {
        Seq::empty()
    } else {
        poll_spec(items.drop_last(), replies.drop_last()) + (match replies.last() {
            Ok(raw) => seq![collect_value_spec(items.last(), raw)],
            Err(_) => Seq::empty(),
        })
    }
}

/// How many read outcomes succeeded.
pub open spec fn num_ok(replies: Seq<Result<PdhRawCounterValue, i32>>) -> nat
    decreases replies.len(),
{
    if replies.len() == 0 {
        0
    } else {
        num_ok(replies.drop_last()) + if replies.last() is Ok {
            1nat
        } else {
            0nat
        }
    }
}

proof fn lemma_num_ok_le_len(replies: Seq<Result<PdhRawCounterValue, i32>>)
    ensures
        num_ok(replies) <= replies.len(),
    decreases replies.len(),
{
    if replies.len() > 0 {
        lemma_num_ok_le_len(replies.drop_last());
    }
}

proof fn lemma_num_ok_take_le(replies: Seq<Result<PdhRawCounterValue, i32>>, j: int)
    requires
        0 <= j <= replies.len(),
    ensures
        num_ok(replies.take(j)) <= num_ok(replies),
    decreases replies.len(),
{
    if j == replies.len() {
        assert(replies.take(j) =~= replies);
    } else {
        assert(replies.drop_last().take(j) =~= replies.take(j));
        lemma_num_ok_take_le(replies.drop_last(), j);
    }
}

/// A poll over N bound counters yields at most N values: exactly one per
/// successful read, in the original bind order — the value of the i-th
/// counter, when its read succeeds, stands at the position given by the
/// number of successful reads before it, and a failed read only shortens the
/// result.
pub proof fn lemma_poll_in_order(
    items: Seq<PdhCollectionItem>,
    replies: Seq<Result<PdhRawCounterValue, i32>>,
)
    requires
        replies.len() == items.len(),
    ensures
        poll_spec(items, replies).len() == num_ok(replies),
        poll_spec(items, replies).len() <= items.len(),
        forall|i: int|
            0 <= i < items.len() && replies[i] is Ok ==> poll_spec(items, replies)[num_ok(
                replies.take(i),
            ) as int] == collect_value_spec(items[i], replies[i]->Ok_0),
    decreases items.len(),
{
    lemma_num_ok_le_len(replies);
    if items.len() > 0 {
        let items0 = items.drop_last();
        let replies0 = replies.drop_last();
        let n = items.len() - 1;
        lemma_poll_in_order(items0, replies0);
        assert forall|i: int|
            0 <= i < items.len() && replies[i] is Ok implies poll_spec(items, replies)[num_ok(
            replies.take(i),
        ) as int] == collect_value_spec(items[i], replies[i]->Ok_0) by {
            assert(replies.take(i) =~= replies0.take(i));
            if i < n {
                assert(replies0[i] == replies[i]);
                assert(items0[i] == items[i]);
                // The value stands inside the shorter poll, at the same spot.
                assert(replies0.take(i + 1).drop_last() =~= replies0.take(i));
                assert(replies0.take(i + 1).last() == replies0[i]);
                assert(num_ok(replies0.take(i + 1)) == num_ok(replies0.take(i)) + 1);
                lemma_num_ok_take_le(replies0, i + 1);
                assert(num_ok(replies0.take(i)) < poll_spec(items0, replies0).len());
            } else {
                // The last counter's value is the one just appended.
                assert(replies.take(n) =~= replies0);
            }
        }
    }
}

/// What the driver is asked to do next during a poll pass.
#[derive(Debug, Clone, Copy, PartialEq, Eq, Structural)]
pub enum PdhPollRequest {
    /// Run a collection pass against the query.
    Collect,
    /// Read the formatted value of the counter behind this token.
    Read(usize),
    /// The pass is over.
    Done,
}

/// The driver's answer to the current request.
#[derive(Debug, Clone, Copy)]
pub enum PdhPollReply {
    /// The collection pass ran.
    Collected,
    /// The read yielded this raw formatted sample.
    Value(PdhRawCounterValue),
    /// The read failed with this status.
    Failed(i32),
}

/// Steps the polling state machine: the first step consumes the collection
/// pass and yields nothing; each later step consumes the read outcome of the
/// counter at the current position and advances past it, yielding the
/// decoded value when the read succeeded and nothing — with the pass going
/// on — when it failed.
fn poll_step(
    items: &Vec<PdhCollectionItem>,
    started: &mut bool,
    index: &mut usize,
    reply: PdhPollReply,
) -> (out: Option<PdhCollectValue>)
    requires
        *old(started) ==> *old(index) < items@.len(),
        !*old(started) <==> reply is Collected,
    ensures
        *final(started),
        !*old(started) ==> *final(index) == *old(index) && out is None,
        *old(started) ==> {
            &&& *final(index) == *old(index) + 1
            &&& out == match reply {
                PdhPollReply::Value(raw) => Some(
                    collect_value_spec(items@[*old(index) as int], raw),
                ),
                _ => None::<PdhCollectValue>,
            }
        },
{
    if !*started {
        *started = true;
        None
    } else {
        let i = *index;
        let n = items.len();
        assert(i < n);
        *index = i + 1;
        match reply {
            PdhPollReply::Value(raw) => {
                let v = to_value(&raw, PDH_FMT_DOUBLE);
                Some(PdhCollectValue::new(&items[i].element, v))
            },
            _ => None,
        }
    }
}

/// Owns the one native query resource (through the driver's token for it)
/// and the ordered list of counters bound against it.  The resource must be
/// released exactly once; [`PdhController::release`] hands the token out the
/// first time and never again.
#[derive(Debug)]
pub struct PdhController {
    hquery: usize,
    open: bool,
    items: Vec<PdhCollectionItem>,
}

/// How one release step changes the controller: the query is no longer
/// open afterwards, nothing else changes, and the close token comes out
/// exactly when the query was still open.
pub open spec fn release_transition(
    pre: PdhController,
    post: PdhController,
    r: Option<usize>,
) -> bool {
    &&& !post.is_open()
    &&& post.spec_items() == pre.spec_items()
    &&& post.spec_hquery() == pre.spec_hquery()
    &&& r == if pre.is_open() {
        Some(pre.spec_hquery())
    } else {
        None::<usize>
    }
}

/// Releasing a controller hands out the token for the native close call
/// exactly once, however often release is attempted and whether or not any
/// poll ever ran: a second release after a first yields nothing.
pub proof fn lemma_release_exactly_once(
    c0: PdhController,
    c1: PdhController,
    r1: Option<usize>,
    c2: PdhController,
    r2: Option<usize>,
)
    requires
        release_transition(c0, c1, r1),
        release_transition(c1, c2, r2),
    ensures
        c0.is_open() ==> r1 == Some(c0.spec_hquery()),
        r2 is None,
{
}

impl PdhController {
    /// The driver's token for the native query resource.
    pub closed spec fn spec_hquery(self) -> usize {
        self.hquery
    }

    /// Whether the native resource is still to be released.
    pub closed spec fn is_open(self) -> bool {
        self.open
    }

    /// The bound counters, in bind order.
    pub closed spec fn spec_items(self) -> Seq<PdhCollectionItem> {
        self.items@
    }

    /// Assembles a controller from the driver's outcomes: the token of the
    /// freshly opened query — or nothing, when the subsystem refused to open
    /// one, the single fatal failure here — and, for each element, the token
    /// of its registered counter, or nothing where path building or
    /// registration failed.  A dropped element costs nothing but its own
    /// absence from the bound list.
    pub fn new(
        elements: Vec<PdhCounterPathElement>,
        hquery: Option<usize>,
        adds: Vec<Option<usize>>,
    ) -> (r: Option<PdhController>)
        requires
            adds@.len() == elements@.len(),
        ensures
            match r {
                Some(c) => {
                    &&& hquery matches Some(q) && c.spec_hquery() == q
                    &&& c.is_open()
                    &&& c.spec_items() == bound_items(elements@, adds@)
                },
                None => hquery is None,
            },
    {
        let q = match hquery {
            Some(q) => q,
            None => {
                return None;
            },
        };
        let mut items: Vec<PdhCollectionItem> = Vec::new();
        let mut i: usize = 0;
        while i < elements.len()
            invariant
                i <= elements@.len(),
                adds@.len() == elements@.len(),
                items@ == bound_items(elements@.take(i as int), adds@.take(i as int)),
            decreases elements@.len() - i,
        {
            match adds[i] {
                Some(h) => {
                    items.push(PdhCollectionItem { element: elements[i].clone(), hcounter: h });
                },
                None => {},
            }
            proof {
                assert(elements@.take(i + 1).drop_last() =~= elements@.take(i as int));
                assert(adds@.take(i + 1).drop_last() =~= adds@.take(i as int));
            }
            i = i + 1;
        }
        proof {
            assert(elements@.take(elements@.len() as int) =~= elements@);
            assert(adds@.take(adds@.len() as int) =~= adds@);
        }
        Some(PdhController { hquery: q, open: true, items })
    }

    /// The registration attempts one bind pass must make: for each element,
    /// the canonical wide path to register against the query — or nothing
    /// where the path cannot be built, that element alone being dropped,
    /// with no error surfaced for the pass as a whole.
    pub fn bind_requests(elements: &Vec<PdhCounterPathElement>) -> (reqs: Vec<Option<Vec<u16>>>)
        ensures
            reqs@.len() == elements@.len(),
            forall|i: int|
                0 <= i < elements@.len() ==> match #[trigger] reqs@[i] {
                    Some(p) => path_buildable(elements@[i]) && p@ == path_units(
                        elements@[i],
                    ).push(0u16),
                    None => !path_buildable(elements@[i]),
                },
    {
        let mut reqs: Vec<Option<Vec<u16>>> = Vec::new();
        let mut i: usize = 0;
        while i < elements.len()
            invariant
                i <= elements@.len(),
                reqs@.len() == i,
                forall|j: int|
                    0 <= j < i ==> match #[trigger] reqs@[j] {
                        Some(p) => path_buildable(elements@[j]) && p@ == path_units(
                            elements@[j],
                        ).push(0u16),
                        None => !path_buildable(elements@[j]),
                    },
            decreases elements@.len() - i,
        {
            match pdh_make_counter_path(&elements[i]) {
                Ok(p) => reqs.push(Some(p)),
                Err(_) => reqs.push(None),
            }
            i = i + 1;
        }
        reqs
    }

    /// The bound counters, for the driver to read tokens from.
    pub fn items(&self) -> (r: &Vec<PdhCollectionItem>)
        ensures
            r@ == self.spec_items(),
    {
        &self.items
    }

    /// How many counters are bound.
    pub fn bound_count(&self) -> (n: usize)
        ensures
            n == self.spec_items().len(),
    {
        self.items.len()
    }

    /// A fresh polling pass over the bound counters, borrowing the
    /// controller.  A released controller cannot be polled: that is the
    /// use-after-release error, reported as an invalid-handle status.
    pub fn iter(&self) -> (r: Result<PdhControllerIterator<'_>, PdhCollectError>)
        ensures
            match r {
                Ok(it) => {
                    &&& self.is_open()
                    &&& it.controller() == *self
                    &&& !it.spec_started()
                    &&& it.spec_index() == 0
                },
                Err(err) => {
                    &&& !self.is_open()
                    &&& err == PdhCollectError::PdhStatus(PDH_INVALID_HANDLE)
                },
            },
    {
        if self.open {
            Ok(PdhControllerIterator { pdhc: self, started: false, index: 0 })
        } else {
            Err(PdhCollectError::PdhStatus(PDH_INVALID_HANDLE))
        }
    }

    /// A fresh polling pass that consumes the controller, for the caller
    /// that discards it after one pass; [`PdhControllerIntoIter::finish`]
    /// hands the controller back so it can still be released.
    pub fn into_iter(self) -> (r: PdhControllerIntoIter)
        requires
            self.is_open(),
        ensures
            r.controller() == self,
            !r.spec_started(),
            r.spec_index() == 0,
    {
        PdhControllerIntoIter { pdhc: self, started: false, index: 0 }
    }

    /// One eager poll pass: given the read outcome of every bound counter —
    /// gathered by the driver after one collection pass — the decoded
    /// values, one per successful read, in bind order.  Built on the same
    /// stepping primitive as the lazy pass.
    pub fn sample_all(&self, replies: &Vec<Result<PdhRawCounterValue, i32>>) -> (vs: Vec<
        PdhCollectValue,
    >)
        requires
            self.is_open(),
            replies@.len() == self.spec_items().len(),
        ensures
            vs@ == poll_spec(self.spec_items(), replies@),
    {
        let mut it = PdhControllerIterator { pdhc: self, started: false, index: 0 };
        it.step(PdhPollReply::Collected);
        let mut out: Vec<PdhCollectValue> = Vec::new();
        let mut i: usize = 0;
        while i < replies.len()
            invariant
                it.spec_started(),
                it.spec_index() == i as int,
                i <= replies@.len(),
                it.controller() == *self,
                replies@.len() == self.spec_items().len(),
                out@ == poll_spec(self.spec_items().take(i as int), replies@.take(i as int)),
            decreases replies@.len() - i,
        {
            let reply = match replies[i] {
                Ok(raw) => PdhPollReply::Value(raw),
                Err(status) => PdhPollReply::Failed(status),
            };
            match it.step(reply) {
                Some(v) => out.push(v),
                None => {},
            }
            proof {
                assert(self.spec_items().take(i + 1).drop_last() =~= self.spec_items().take(
                    i as int,
                ));
                assert(replies@.take(i + 1).drop_last() =~= replies@.take(i as int));
            }
            i = i + 1;
        }
        proof {
            assert(self.spec_items().take(self.spec_items().len() as int) =~= self.spec_items());
            assert(replies@.take(replies@.len() as int) =~= replies@);
        }
        out
    }

    /// Releases the controller's claim on the native query: the first call
    /// hands out the token for the native close call, every later call
    /// yields nothing.  See [`lemma_release_exactly_once`].
    pub fn release(&mut self) -> (r: Option<usize>)
        ensures
            release_transition(*old(self), *final(self), r),
    {
        if self.open {
            self.open = false;
            Some(self.hquery)
        } else {
            None
        }
    }
}

/// A single poll pass borrowing its controller.  States: before the
/// collection pass; at counter `index` of the bound list; exhausted.  The
/// pass is not restartable — a new one must be obtained from the controller.
#[derive(Debug)]
pub struct PdhControllerIterator<'a> {
    pdhc: &'a PdhController,
    started: bool,
    index: usize,
}

impl<'a> PdhControllerIterator<'a> {
    /// The controller being polled.
    pub closed spec fn controller(self) -> PdhController {
        *self.pdhc
    }

    /// Whether the collection pass has been consumed.
    pub closed spec fn spec_started(self) -> bool {
        self.started
    }

    /// The position in the bound list, once started.
    pub closed spec fn spec_index(self) -> int {
        self.index as int
    }

    /// What the pass asks of the driver in this state: the one collection
    /// pass first, then one read per bound counter, then nothing.
    pub open spec fn spec_request(self) -> PdhPollRequest {
        if !self.spec_started() {
            PdhPollRequest::Collect
        } else if self.spec_index() < self.controller().spec_items().len() {
            PdhPollRequest::Read(self.controller().spec_items()[self.spec_index()].hcounter)
        } else {
            PdhPollRequest::Done
        }
    }

    /// The current request, for the driver.
    pub fn request(&self) -> (r: PdhPollRequest)
        ensures
            r == self.spec_request(),
    {
        if !self.started {
            PdhPollRequest::Collect
        } else if self.index < self.pdhc.items.len() {
            PdhPollRequest::Read(self.pdhc.items[self.index].hcounter)
        } else {
            PdhPollRequest::Done
        }
    }

    /// Steps the pass with the driver's answer to the current request.  See
    /// [`poll_step`] for the transition it makes.
    pub fn step(&mut self, reply: PdhPollReply) -> (out: Option<PdhCollectValue>)
        requires
            !(old(self).spec_request() is Done),
            old(self).spec_request() is Collect <==> reply is Collected,
        ensures
            final(self).controller() == old(self).controller(),
            final(self).spec_started(),
            old(self).spec_request() is Collect ==> final(self).spec_index() == old(
                self,
            ).spec_index() && out is None,
            old(self).spec_request() is Read ==> {
                &&& final(self).spec_index() == old(self).spec_index() + 1
                &&& out == match reply {
                    PdhPollReply::Value(raw) => Some(
                        collect_value_spec(
                            old(self).controller().spec_items()[old(self).spec_index()],
                            raw,
                        ),
                    ),
                    _ => None::<PdhCollectValue>,
                }
            },
    {
        poll_step(&self.pdhc.items, &mut self.started, &mut self.index, reply)
    }
}

/// The consuming form of the poll pass: it owns the controller while the
/// pass runs and hands it back when asked, so the query can still be
/// released.
#[derive(Debug)]
pub struct PdhControllerIntoIter {
    pdhc: PdhController,
    started: bool,
    index: usize,
}

impl PdhControllerIntoIter {
    /// The controller being polled.
    pub closed spec fn controller(self) -> PdhController {
        self.pdhc
    }

    /// Whether the collection pass has been consumed.
    pub closed spec fn spec_started(self) -> bool {
        self.started
    }

    /// The position in the bound list, once started.
    pub closed spec fn spec_index(self) -> int {
        self.index as int
    }

    /// What the pass asks of the driver in this state.
    pub open spec fn spec_request(self) -> PdhPollRequest {
        if !self.spec_started() {
            PdhPollRequest::Collect
        } else if self.spec_index() < self.controller().spec_items().len() {
            PdhPollRequest::Read(self.controller().spec_items()[self.spec_index()].hcounter)
        } else {
            PdhPollRequest::Done
        }
    }

    /// The current request, for the driver.
    pub fn request(&self) -> (r: PdhPollRequest)
        ensures
            r == self.spec_request(),
    {
        if !self.started {
            PdhPollRequest::Collect
        } else if self.index < self.pdhc.items.len() {
            PdhPollRequest::Read(self.pdhc.items[self.index].hcounter)
        } else {
            PdhPollRequest::Done
        }
    }

    /// Steps the pass with the driver's answer to the current request.
    pub fn step(&mut self, reply: PdhPollReply) -> (out: Option<PdhCollectValue>)
        requires
            !(old(self).spec_request() is Done),
            old(self).spec_request() is Collect <==> reply is Collected,
        ensures
            final(self).controller() == old(self).controller(),
            final(self).spec_started(),
            old(self).spec_request() is Collect ==> final(self).spec_index() == old(
                self,
            ).spec_index() && out is None,
            old(self).spec_request() is Read ==> {
                &&& final(self).spec_index() == old(self).spec_index() + 1
                &&& out == match reply {
                    PdhPollReply::Value(raw) => Some(
                        collect_value_spec(
                            old(self).controller().spec_items()[old(self).spec_index()],
                            raw,
                        ),
                    ),
                    _ => None::<PdhCollectValue>,
                }
            },
    {
        poll_step(&self.pdhc.items, &mut self.started, &mut self.index, reply)
    }

    /// Hands the controller back, pass over or not.
    pub fn finish(self) -> (c: PdhController)
        ensures
            c == self.controller(),
    {
        self.pdhc
    }
}

/// A freshly obtained pass asks for the collection pass first, and any pass
/// that has made a step never asks for it again: each pass triggers exactly
/// one collection pass, at its start.
pub proof fn lemma_collect_requested_once(
    fresh: PdhControllerIterator<'_>,
    stepped: PdhControllerIterator<'_>,
)
    requires
        !fresh.spec_started(),
        stepped.spec_started(),
    ensures
        fresh.spec_request() is Collect,
        !(stepped.spec_request() is Collect),
{
}

} // verus!
