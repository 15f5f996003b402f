//! Sending one request to many URLs at once. The library composes one
//! request per URL and collects the outcomes as they come in; the caller
//! runs the requests side by side and reports each outcome under the index
//! of its URL. However the requests finish, the outcomes leave in the order
//! of the URLs, and only once every one of them is in.

use vstd::prelude::*;
use crate::compose::{compose, composed, ComposedModel, ComposedRequest};
use crate::config::RequestConfig;
use crate::error::ConfigError;
use crate::outcome::{OutcomeModel, RequestOutcome};
use crate::text::texts;

verus! {

/// A list of requests, each by its model.
pub open spec fn request_models(requests: Seq<ComposedRequest>) -> Seq<ComposedModel> {
    Seq::new(requests.len(), |i: int| requests[i]@)
}

/// The requests of a fan-out: the request that `config` describes, once
/// for every URL, with that URL in place of its own.
pub open spec fn fanned_out(config: RequestConfig, urls: Seq<Seq<char>>) -> Result<
    Seq<ComposedModel>,
    ConfigError,
> {
    match composed(config) {
        Err(e) => Err(e),
        Ok(template) => Ok(
            Seq::new(urls.len(), |i: int| ComposedModel { url: urls[i], ..template }),
        ),
    }
}

/// The model of a list of requests, or of the error in its place.
pub open spec fn fan_out_model(r: Result<Vec<ComposedRequest>, ConfigError>) -> Result<
    Seq<ComposedModel>,
    ConfigError,
> {
    match r {
        Ok(requests) => Ok(request_models(requests@)),
        Err(e) => Err(e),
    }
}

/// Composes one request per URL from one description: the same method,
/// headers, body and credentials, and the `i`-th URL in the `i`-th request.
pub fn compose_all(config: &RequestConfig, urls: &Vec<String>) -> (r: Result<
    Vec<ComposedRequest>,
    ConfigError,
>)
    ensures
        fan_out_model(r) == fanned_out(*config, texts(urls@)),
{
    let template = match compose(config) {
        Ok(t) => t,
        Err(e) => {
            return Err(e);
        },
    };
    let mut requests: Vec<ComposedRequest> = Vec::new();
    let mut i: usize = 0;
    while i < urls.len()
        invariant
            i <= urls.len(),
            requests.len() == i,
            forall|j: int|
                0 <= j < i ==> (#[trigger] requests@[j])@ == (ComposedModel {
                    url: urls@[j]@,
                    ..template@
                }),
        decreases urls.len() - i,
    {
        requests.push(template.with_url(urls[i].as_str()));
        i += 1;
    }
    assert(request_models(requests@) =~= fanned_out(*config, texts(urls@))->Ok_0);
    Ok(requests)
}

/// The slots after an outcome arrives for `index`: it is taken in where the
/// index names a slot that is still empty, and ignored otherwise.
pub open spec fn recorded(slots: Seq<Option<OutcomeModel>>, index: int, outcome: OutcomeModel) -> Seq<
    Option<OutcomeModel>,
> {
    if 0 <= index < slots.len() && slots[index] is None {
        slots.update(index, Some(outcome))
    } else {
        slots
    }
}

/// The slots of a fan-in over `count` requests after `arrivals`, each an
/// index with its outcome, have come in one after another.
pub open spec fn collected(count: nat, arrivals: Seq<(int, OutcomeModel)>) -> Seq<
    Option<OutcomeModel>,
>
    decreases arrivals.len(),
{
    if arrivals.len() == 0 {
        Seq::new(count, |i: int| None::<OutcomeModel>)
    } else {
        recorded(collected(count, arrivals.drop_last()), arrivals.last().0, arrivals.last().1)
    }
}

/// Whether every slot is filled.
pub open spec fn all_in(slots: Seq<Option<OutcomeModel>>) -> bool {
    forall|i: int| 0 <= i < slots.len() ==> (#[trigger] slots[i]) is Some
}

/// The outcomes of filled slots, in the order of the slots.
pub open spec fn outcomes_of(slots: Seq<Option<OutcomeModel>>) -> Seq<OutcomeModel> {
    Seq::new(slots.len(), |i: int| slots[i]->0)
}

/// A list of outcomes, each by its model.
pub open spec fn outcome_models(outcomes: Seq<RequestOutcome>) -> Seq<OutcomeModel> {
    Seq::new(outcomes.len(), |i: int| outcomes[i]@)
}

/// The collector of a fan-out: one slot per request, in the order of the
/// URLs.
#[derive(Clone, Debug, PartialEq, Eq)]
pub struct FanIn {
    pub slots: Vec<Option<RequestOutcome>>,
}

impl View for FanIn {
    type V = Seq<Option<OutcomeModel>>;

    open spec fn view(&self) -> Seq<Option<OutcomeModel>> {
        Seq::new(
            self.slots@.len(),
            |i: int|
                match self.slots@[i] {
                    Some(outcome) => Some(outcome@),
                    None => None,
                },
        )
    }
}

impl FanIn {
    /// A collector for `count` requests, all of them outstanding.
    pub fn new(count: usize) -> (board: FanIn)
        ensures
            board@ == collected(count as nat, Seq::<(int, OutcomeModel)>::empty()),
    {
        let mut slots: Vec<Option<RequestOutcome>> = Vec::new();
        let mut i: usize = 0;
        while i < count
            invariant
                i <= count,
                slots.len() == i,
                forall|j: int| 0 <= j < i ==> (#[trigger] slots@[j]) is None,
            decreases count - i,
        {
            slots.push(None);
            i += 1;
        }
        let board = FanIn { slots };
        assert(board@ =~= collected(count as nat, Seq::<(int, OutcomeModel)>::empty()));
        board
    }

    /// Takes in the outcome of the request with index `index`. Returns
    /// whether it was taken: an index beyond the requests, or one whose
    /// outcome is in already, changes nothing.
    pub fn record(&mut self, index: usize, outcome: RequestOutcome) -> (taken: bool)
        ensures
            final(self)@ == recorded(old(self)@, index as int, outcome@),
            taken == (index < old(self)@.len() && old(self)@[index as int] is None),
    {
        if index < self.slots.len() && self.slots[index].is_none() {
            self.slots.set(index, Some(outcome));
            assert(self@ =~= recorded(old(self)@, index as int, outcome@));
            true
        } else {
            assert(self@ =~= recorded(old(self)@, index as int, outcome@));
            false
        }
    }

    /// Whether every outcome is in.
    pub fn is_complete(&self) -> (complete: bool)
        ensures
            complete == all_in(self@),
    {
        let mut i: usize = 0;
        while i < self.slots.len()
            invariant
                i <= self.slots.len(),
                forall|j: int| 0 <= j < i ==> (#[trigger] self@[j]) is Some,
            decreases self.slots.len() - i,
        {
            if self.slots[i].is_none() {
                assert(self@[i as int] is None);
                return false;
            }
            i += 1;
        }
        true
    }

    /// The outcomes in the order of the URLs, once every one of them is
    /// in; until then, the collector as it is.
    pub fn finish(self) -> (r: Result<Vec<RequestOutcome>, FanIn>)
        ensures
            match r {
                Ok(outcomes) => {
                    &&& all_in(self@)
                    &&& outcome_models(outcomes@) == outcomes_of(self@)
                    &&& outcomes@.len() == self@.len()
                    &&& forall|i: int|
                        0 <= i < outcomes@.len() ==> Some((#[trigger] outcomes@[i])@) == self@[i]
                },
                Err(board) => !all_in(self@) && board@ == self@,
            },
    {
        if !self.is_complete() {
            return Err(self);
        }
        let mut outcomes: Vec<RequestOutcome> = Vec::new();
        let mut i: usize = 0;
        while i < self.slots.len()
            invariant
                i <= self.slots.len(),
                all_in(self@),
                outcomes.len() == i,
                forall|j: int| 0 <= j < i ==> Some((#[trigger] outcomes@[j])@) == self@[j],
            decreases self.slots.len() - i,
        {
            assert(self@[i as int] is Some);
            match &self.slots[i] {
                Some(outcome) => {
                    outcomes.push(outcome.duplicate());
                },
                None => {},
            }
            i += 1;
        }
        assert(outcome_models(outcomes@) =~= outcomes_of(self@));
        Ok(outcomes)
    }
}

/// Whether request `i` is among those that `order` lists.
pub open spec fn arrives(order: Seq<int>, i: int) -> bool {
    exists|j: int| 0 <= j < order.len() && order[j] == i
}

/// Whether `order` lists every index below `count` exactly once.
pub open spec fn is_arrival_order(order: Seq<int>, count: nat) -> bool {
    &&& order.len() == count
    &&& forall|j: int| 0 <= j < order.len() ==> 0 <= #[trigger] order[j] < count
    &&& forall|j: int, k: int| 0 <= j < k < order.len() ==> order[j] != order[k]
    &&& forall|i: int| 0 <= i < count ==> #[trigger] arrives(order, i)
}

/// The arrivals of a fan-out whose requests finish in the order `order`:
/// the `j`-th to come in is the outcome of request `order[j]`.
pub open spec fn arrivals_in(outcomes: Seq<OutcomeModel>, order: Seq<int>) -> Seq<
    (int, OutcomeModel),
> {
    Seq::new(order.len(), |j: int| (order[j], outcomes[order[j]]))
}

/// After the first `k` arrivals, a slot is filled with the outcome of its
/// own request if that request has finished, and empty if it has not.
proof fn lemma_collected_so_far(outcomes: Seq<OutcomeModel>, order: Seq<int>, k: int)
    requires
        is_arrival_order(order, outcomes.len()),
        0 <= k <= order.len(),
    ensures
        collected(outcomes.len(), arrivals_in(outcomes, order).take(k)).len() == outcomes.len(),
        forall|i: int|
            0 <= i < outcomes.len() ==> #[trigger] collected(
                outcomes.len(),
                arrivals_in(outcomes, order).take(k),
            )[i] == if exists|j: int| 0 <= j < k && order[j] == i {
                Some(outcomes[i])
            } else {
                None
            },
    decreases k,
{
    let arrivals = arrivals_in(outcomes, order);
    if k > 0 {
        lemma_collected_so_far(outcomes, order, k - 1);
        let before = collected(outcomes.len(), arrivals.take(k - 1));
        let now = collected(outcomes.len(), arrivals.take(k));
        assert(arrivals.take(k).drop_last() =~= arrivals.take(k - 1));
        assert(arrivals.take(k).last() == (order[k - 1], outcomes[order[k - 1]]));
        let at = order[k - 1];
        assert(before[at] is None) by {
            if exists|j: int| 0 <= j < k - 1 && order[j] == at {
                let j = choose|j: int| 0 <= j < k - 1 && order[j] == at;
                assert(order[j] != order[k - 1]);
            }
        }
        assert(now == before.update(at, Some(outcomes[at])));
        assert forall|i: int| 0 <= i < outcomes.len() implies #[trigger] now[i] == if exists|
            j: int,
        |
            0 <= j < k && order[j] == i {
            Some(outcomes[i])
        } else {
            None
        } by {
            if i == at {
                assert(0 <= k - 1 < k && order[k - 1] == i);
            } else {
                if exists|j: int| 0 <= j < k && order[j] == i {
                    let j = choose|j: int| 0 <= j < k && order[j] == i;
                    assert(j < k - 1);
                    assert(0 <= j < k - 1 && order[j] == i);
                }
            }
        }
    }
}

/// The outcomes of a fan-out leave in the order of its URLs, whichever
/// request finishes first: for every order of arrival, once all outcomes
/// are in, slot `i` holds the outcome of request `i`.
pub proof fn lemma_order_is_kept(outcomes: Seq<OutcomeModel>, order: Seq<int>)
    requires
        is_arrival_order(order, outcomes.len()),
    ensures
        all_in(collected(outcomes.len(), arrivals_in(outcomes, order))),
        outcomes_of(collected(outcomes.len(), arrivals_in(outcomes, order))) == outcomes,
{
    let arrivals = arrivals_in(outcomes, order);
    lemma_collected_so_far(outcomes, order, order.len() as int);
    assert(arrivals.take(order.len() as int) =~= arrivals);
    let slots = collected(outcomes.len(), arrivals);
    assert forall|i: int| 0 <= i < slots.len() implies (#[trigger] slots[i]) == Some(
        outcomes[i],
    ) by {
        assert(arrives(order, i));
        let j = choose|j: int| 0 <= j < order.len() && order[j] == i;
        assert(0 <= j < order.len() && order[j] == i);
    }
    assert(outcomes_of(slots) =~= outcomes);
}

/// Until every request has finished, the collector is not complete: the
/// fan-in is a barrier, and the first outcome to arrive does not end it.
pub proof fn lemma_barrier(outcomes: Seq<OutcomeModel>, order: Seq<int>, k: int)
    requires
        is_arrival_order(order, outcomes.len()),
        0 <= k < order.len(),
    ensures
        !all_in(collected(outcomes.len(), arrivals_in(outcomes, order).take(k))),
{
    lemma_collected_so_far(outcomes, order, k);
    let slots = collected(outcomes.len(), arrivals_in(outcomes, order).take(k));
    let missing = order[k];
    if exists|j: int| 0 <= j < k && order[j] == missing {
        let j = choose|j: int| 0 <= j < k && order[j] == missing;
        assert(order[j] != order[k]);
    }
    assert(slots[missing] is None);
}

} // verus!
