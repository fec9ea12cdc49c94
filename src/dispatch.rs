use vstd::prelude::*;

use crate::backend::{
    b64_len, decimal, decimal_string, encode_image, first_or_empty, interpret_reply, is_success, predict_url, predict_url_of,
    request_body, request_body_of, url_safe_b64, PredictError,
};
use crate::registry::{lookup, ModelRegistry};

verus! {

/// How many outcomes the outbound channel holds before a finished unit of
/// work waits for the consumer.
pub const OUTBOUND_CAPACITY: usize = 1024;

/// One inbound item of the stream.
pub struct PredictionItem {
    pub id: i64,
    pub model: String,
    pub image: Vec<u8>,
}

/// The backend call that one unit of work makes for one item.
pub struct BackendCall {
    /// The handle under which the unit of work reports back.
    pub ticket: u64,
    /// The correlation id of the item.
    pub id: i64,
    /// The prediction endpoint to POST to.
    pub url: String,
    /// The JSON body to POST: one instance whose input field holds the
    /// image as URL-safe base64 text.
    pub body: String,
}

/// The terminal result of one item. A vector holds the bit patterns of
/// 32-bit floats.
pub enum Outcome {
    Vector { id: i64, vector: Vec<u32> },
    ModelNotFound { id: i64, model: String },
    BackendFailed { id: i64, error: PredictError },
}

/// What the dispatcher asks its driver to do with an inbound item.
pub enum Action {
    /// Push this outcome onto the outbound channel now.
    Emit(Outcome),
    /// Start a unit of work that makes this call.
    Spawn(BackendCall),
}

/// The service state shared by every stream: the registry and the backend's
/// base URL, both read-only.
pub struct ImagePredictionService {
    pub models: ModelRegistry,
    pub tf_serving_url: String,
}

/// The bookkeeping of one stream: which items were received, which units of
/// work are still running, and which outcomes were handed out.
pub struct StreamDispatch {
    pending: Vec<(u64, i64)>,
    next_ticket: u64,
    inbound_closed: bool,
    received: Ghost<Seq<i64>>,
    emitted: Ghost<Seq<u64>>,
}

/// Some unit of work in `s` runs under ticket `t`.
pub open spec fn has_ticket(s: Seq<(u64, i64)>, t: u64) -> bool {
    exists|j: int| 0 <= j < s.len() && (#[trigger] s[j]).0 == t
}

/// The outcome that a backend answer gives for the item `id`.
pub open spec fn reply_outcome(
    o: Outcome,
    id: i64,
    status: Option<u16>,
    predictions: Option<Vec<Vec<u32>>>,
) -> bool {
    if status is None {
        o == Outcome::BackendFailed { id, error: PredictError::BackendUnreachable }
    } else if !is_success(status->Some_0) {
        o == Outcome::BackendFailed {
            id,
            error: PredictError::BackendRejected { status: status->Some_0 },
        }
    } else if predictions is None {
        o == Outcome::BackendFailed { id, error: PredictError::BackendMalformedResponse }
    } else {
        o matches Outcome::Vector { id: oid, vector } && oid == id && vector@ == first_or_empty(
            predictions->Some_0@,
        )
    }
}

/// The message that a failed outcome carries to the client.
pub open spec fn failure_message_of(o: Outcome) -> Option<Seq<char>> {
    match o {
        Outcome::Vector { .. } => None,
        Outcome::ModelNotFound { model, .. } => Some(
            "The model name "@ + model@ + " does not exist"@,
        ),
        Outcome::BackendFailed { error, .. } => Some(
            match error {
                PredictError::BackendRejected { status } => "Failed to predict: status code "@
                    + decimal(status as nat),
                PredictError::BackendMalformedResponse => "Failed to predict: malformed response"@,
                PredictError::BackendUnreachable => "Failed to predict: backend unreachable"@,
            },
        ),
    }
}

impl Outcome {
    /// The human-readable message of a failed outcome; `None` for a vector.
    pub fn failure_message(&self) -> (r: Option<String>)
        ensures
            match (r, failure_message_of(*self)) {
                (Some(m), Some(t)) => m@ == t,
                (None, None) => true,
                _ => false,
            },
    {
        proof {
            reveal_strlit("The model name ");
            reveal_strlit(" does not exist");
            reveal_strlit("Failed to predict: status code ");
            reveal_strlit("Failed to predict: malformed response");
            reveal_strlit("Failed to predict: backend unreachable");
        }
        match self {
            Outcome::Vector { .. } => None,
            Outcome::ModelNotFound { model, .. } => Some(
                String::from_str("The model name ").concat(model.as_str()).concat(" does not exist"),
            ),
            Outcome::BackendFailed { error, .. } => match error {
                PredictError::BackendRejected { status } => {
                    let code = decimal_string(*status as u32);
                    Some(String::from_str("Failed to predict: status code ").concat(code.as_str()))
                },
                PredictError::BackendMalformedResponse => Some(
                    String::from_str("Failed to predict: malformed response"),
                ),
                PredictError::BackendUnreachable => Some(
                    String::from_str("Failed to predict: backend unreachable"),
                ),
            },
        }
    }

    /// The correlation id that the outcome answers.
    pub fn id(&self) -> (r: i64)
        ensures
            match self {
                Outcome::Vector { id, .. } => r == *id,
                Outcome::ModelNotFound { id, .. } => r == *id,
                Outcome::BackendFailed { id, .. } => r == *id,
            },
    {
        match self {
            Outcome::Vector { id, .. } => *id,
            Outcome::ModelNotFound { id, .. } => *id,
            Outcome::BackendFailed { id, .. } => *id,
        }
    }
}

impl StreamDispatch {
    /// The correlation ids of the items received, in arrival order; an
    /// item's ticket is its position here.
    pub closed spec fn received(&self) -> Seq<i64> {
        self.received@
    }

    /// The tickets whose outcome was handed out, in the order handed out.
    pub closed spec fn emitted(&self) -> Seq<u64> {
        self.emitted@
    }

    /// The tickets of the units of work still running.
    pub closed spec fn pending(&self) -> Set<u64> {
        Set::new(|t: u64| has_ticket(self.pending@, t))
    }

    /// How many units of work are still running.
    pub closed spec fn pending_count(&self) -> nat {
        self.pending@.len()
    }

    /// Whether the inbound sequence has ended.
    pub closed spec fn inbound_closed(&self) -> bool {
        self.inbound_closed
    }

    /// Every ticket is either answered or pending, never both, and none is
    /// answered twice.
    pub closed spec fn wf(&self) -> bool {
        &&& self.next_ticket == self.received@.len()
        &&& self.emitted@.len() + self.pending@.len() == self.received@.len()
        &&& self.emitted@.no_duplicates()
        &&& forall|a: int, b: int|
            0 <= a < b < self.pending@.len() ==> #[trigger] self.pending@[a].0
                != #[trigger] self.pending@[b].0
        &&& forall|k: int| 0 <= k < self.emitted@.len() ==> #[trigger] self.emitted@[k] < self.next_ticket
        &&& forall|k: int|
            0 <= k < self.pending@.len() ==> #[trigger] self.pending@[k].0 < self.next_ticket
                && self.pending@[k].1 == self.received@[self.pending@[k].0 as int]
        &&& forall|t: u64|
            t < self.next_ticket ==> (#[trigger] self.emitted@.contains(t) <==> !has_ticket(
                self.pending@,
                t,
            ))
    }

    /// A stream with nothing received yet.
    pub fn new() -> (r: StreamDispatch)
        ensures
            r.wf(),
            r.received() == Seq::<i64>::empty(),
            r.emitted() == Seq::<u64>::empty(),
            r.pending() == Set::<u64>::empty(),
            r.pending_count() == 0,
            !r.inbound_closed(),
    {
        let r = StreamDispatch {
            pending: Vec::new(),
            next_ticket: 0,
            inbound_closed: false,
            received: Ghost(Seq::empty()),
            emitted: Ghost(Seq::empty()),
        };
        assert(r.pending() =~= Set::<u64>::empty());
        r
    }

    /// Records that the inbound sequence has ended.
    pub fn close_inbound(&mut self)
        requires
            old(self).wf(),
        ensures
            final(self).wf(),
            final(self).inbound_closed(),
            final(self).received() == old(self).received(),
            final(self).emitted() == old(self).emitted(),
            final(self).pending() == old(self).pending(),
            final(self).pending_count() == old(self).pending_count(),
    {
        self.inbound_closed = true;
    }

    /// Whether the outbound sequence may end: the inbound one has ended and
    /// no unit of work is still running.
    pub fn is_finished(&self) -> (r: bool)
        ensures
            r == (self.inbound_closed() && self.pending_count() == 0),
    {
        self.inbound_closed && self.pending.len() == 0
    }

    /// How many units of work are still running.
    pub fn in_flight(&self) -> (r: usize)
        ensures
            r == self.pending_count(),
    {
        self.pending.len()
    }
}


proof fn lemma_push_ticket(s: Seq<(u64, i64)>, e: (u64, i64))
    ensures
        forall|t: u64| #[trigger] has_ticket(s.push(e), t) <==> (has_ticket(s, t) || t == e.0),
{
    assert forall|t: u64| #[trigger] has_ticket(s.push(e), t) <==> (has_ticket(s, t) || t == e.0) by {
        let s2 = s.push(e);
        if has_ticket(s2, t) {
            let j = choose|j: int| 0 <= j < s2.len() && (#[trigger] s2[j]).0 == t;
            if j < s.len() {
                assert(s[j] == s2[j]);
            }
        }
        if has_ticket(s, t) {
            let j = choose|j: int| 0 <= j < s.len() && (#[trigger] s[j]).0 == t;
            assert(s[j] == s2[j]);
        }
        if t == e.0 {
            assert(s2[s.len() as int] == e);
        }
    }
}

proof fn lemma_remove_ticket(s: Seq<(u64, i64)>, k: int)
    requires
        0 <= k < s.len(),
        forall|a: int, b: int| 0 <= a < b < s.len() ==> #[trigger] s[a].0 != #[trigger] s[b].0,
    ensures
        forall|t: u64| #[trigger] has_ticket(s.remove(k), t) <==> (has_ticket(s, t) && t != s[k].0),
        forall|a: int, b: int|
            0 <= a < b < s.remove(k).len() ==> #[trigger] s.remove(k)[a].0 != #[trigger] s.remove(k)[b].0,
        forall|j: int| 0 <= j < s.remove(k).len() ==> #[trigger] s.remove(k)[j] == s[if j < k { j } else { j + 1 }],
{
    let r = s.remove(k);
    s.remove_ensures(k);
    assert forall|j: int| 0 <= j < r.len() implies #[trigger] r[j] == s[if j < k { j } else { j + 1 }] by {}
    assert forall|t: u64| #[trigger] has_ticket(r, t) <==> (has_ticket(s, t) && t != s[k].0) by {
        if has_ticket(r, t) {
            let j = choose|j: int| 0 <= j < r.len() && (#[trigger] r[j]).0 == t;
            let oj = if j < k { j } else { j + 1 };
            assert(s[oj] == r[j]);
            if oj < k {
                assert(s[oj].0 != s[k].0);
            } else {
                assert(s[k].0 != s[oj].0);
            }
        }
        if has_ticket(s, t) && t != s[k].0 {
            let j = choose|j: int| 0 <= j < s.len() && (#[trigger] s[j]).0 == t;
            if j < k {
                assert(r[j] == s[j]);
            } else {
                assert(r[j - 1] == s[j]);
            }
        }
    }
    assert forall|a: int, b: int| 0 <= a < b < r.len() implies #[trigger] r[a].0 != #[trigger] r[b].0 by {
        let oa = if a < k { a } else { a + 1 };
        let ob = if b < k { b } else { b + 1 };
        assert(s[oa] == r[a]);
        assert(s[ob] == r[b]);
    }
}

proof fn lemma_push_emitted(s: Seq<u64>, e: u64)
    requires
        s.no_duplicates(),
        !s.contains(e),
    ensures
        s.push(e).no_duplicates(),
        forall|t: u64| #[trigger] s.push(e).contains(t) <==> (s.contains(t) || t == e),
{
    let s2 = s.push(e);
    assert forall|t: u64| #[trigger] s2.contains(t) <==> (s.contains(t) || t == e) by {
        if s2.contains(t) {
            let j = choose|j: int| 0 <= j < s2.len() && s2[j] == t;
            if j < s.len() {
                assert(s[j] == t);
            }
        }
        if s.contains(t) {
            let j = choose|j: int| 0 <= j < s.len() && s[j] == t;
            assert(s2[j] == t);
        }
        if t == e {
            assert(s2[s.len() as int] == t);
        }
    }
    assert forall|a: int, b: int| 0 <= a < s2.len() && 0 <= b < s2.len() && a != b implies s2[a] != s2[b] by {
        if a < s.len() && b < s.len() {
            assert(s2[a] == s[a] && s2[b] == s[b]);
        } else if a < s.len() {
            assert(s.contains(s[a]));
        } else if b < s.len() {
            assert(s.contains(s[b]));
        }
    }
}

impl StreamDispatch {
    /// The position in the running units of work of the one under `ticket`.
    fn find_pending(&self, ticket: u64) -> (r: Option<usize>)
        ensures
            r matches Some(k) ==> k < self.pending@.len() && self.pending@[k as int].0 == ticket,
            r is None ==> !has_ticket(self.pending@, ticket),
    {
        let mut k: usize = 0;
        while k < self.pending.len()
            invariant
                k <= self.pending@.len(),
                forall|j: int| 0 <= j < k ==> (#[trigger] self.pending@[j]).0 != ticket,
            decreases self.pending@.len() - k,
        {
            if self.pending[k].0 == ticket {
                return Some(k);
            }
            k = k + 1;
        }
        None
    }

    /// Records that the unit of work under `ticket` has finished with an
    /// HTTP `status` (`None` where no answer came) and, where the body
    /// parsed, its `predictions`, and gives
    /// the item's outcome. A ticket that is not running gives `None` and
    /// changes nothing.
    pub fn complete(&mut self, ticket: u64, status: Option<u16>, predictions: Option<Vec<Vec<u32>>>) -> (r:
        Option<Outcome>)
        requires
            old(self).wf(),
        ensures
            final(self).wf(),
            final(self).received() == old(self).received(),
            final(self).inbound_closed() == old(self).inbound_closed(),
            old(self).pending().contains(ticket) ==> (r matches Some(o) && reply_outcome(
                o,
                old(self).received()[ticket as int],
                status,
                predictions,
            )),
            old(self).pending().contains(ticket) ==> final(self).emitted() == old(self).emitted().push(ticket),
            old(self).pending().contains(ticket) ==> final(self).pending() == old(self).pending().remove(ticket),
            old(self).pending().contains(ticket) ==> final(self).pending_count() + 1 == old(self).pending_count(),
            !old(self).pending().contains(ticket) ==> r is None,
            !old(self).pending().contains(ticket) ==> final(self).emitted() == old(self).emitted(),
            !old(self).pending().contains(ticket) ==> final(self).pending() == old(self).pending(),
            !old(self).pending().contains(ticket) ==> final(self).pending_count() == old(self).pending_count(),
    {
        match self.find_pending(ticket) {
            None => {
                assert(!old(self).pending().contains(ticket));
                None
            },
            Some(k) => {
                let ghost old_pending = self.pending@;
                let ghost old_emitted = self.emitted@;
                let entry = self.pending.remove(k);
                let id = entry.1;
                let outcome = match interpret_reply(status, predictions) {
                    Ok(vector) => Outcome::Vector { id, vector },
                    Err(error) => Outcome::BackendFailed { id, error },
                };
                self.emitted = Ghost(self.emitted@.push(ticket));
                proof {
                    lemma_remove_ticket(old_pending, k as int);
                    assert(has_ticket(old_pending, ticket));
                    assert(!old_emitted.contains(ticket));
                    lemma_push_emitted(old_emitted, ticket);
                    assert forall|j: int| 0 <= j < self.pending@.len() implies #[trigger] self.pending@[j].0 < self.next_ticket
                        && self.pending@[j].1 == self.received@[self.pending@[j].0 as int] by {
                        let oj = if j < k { j } else { j + 1 };
                        assert(old_pending[oj] == self.pending@[j]);
                    }
                    assert forall|j: int| 0 <= j < self.emitted@.len() implies #[trigger] self.emitted@[j] < self.next_ticket by {
                        if j < old_emitted.len() {
                            assert(self.emitted@[j] == old_emitted[j]);
                        }
                    }
                    assert(self.pending() =~= old(self).pending().remove(ticket));
                }
                Some(outcome)
            },
        }
    }
}

impl ImagePredictionService {
    /// Takes one inbound item. An item whose model the registry does not
    /// hold is answered at once with `ModelNotFound`, and no unit of work is
    /// started for it; any other gets a new ticket and a unit of work that
    /// POSTs its image, URL-safe base64 in a one-instance JSON body, to the
    /// model's endpoint. The image must be small enough for its base64 text
    /// to fit in half the address space.
    pub fn receive(&self, d: &mut StreamDispatch, item: PredictionItem) -> (a: Action)
        requires
            self.models.wf(),
            old(d).wf(),
            !old(d).inbound_closed(),
            old(d).received().len() < u64::MAX,
            b64_len(item.image@.len()) <= usize::MAX / 2,
        ensures
            final(d).wf(),
            final(d).received() == old(d).received().push(item.id),
            final(d).inbound_closed() == old(d).inbound_closed(),
            lookup(self.models.models(), item.model@) is None ==> (a matches Action::Emit(
                Outcome::ModelNotFound { id, model },
            ) && id == item.id && model@ == item.model@),
            lookup(self.models.models(), item.model@) is None ==> final(d).emitted() == old(d).emitted().push(old(d).received().len() as u64),
            lookup(self.models.models(), item.model@) is None ==> final(d).pending() == old(d).pending(),
            lookup(self.models.models(), item.model@) is None ==> final(d).pending_count() == old(d).pending_count(),
            lookup(self.models.models(), item.model@) matches Some(m) ==> (a matches Action::Spawn(
                call,
            ) && call.ticket == old(d).received().len() && call.id == item.id && call.url@
                == predict_url_of(self.tf_serving_url@, m.name@, m.version as nat)
                && call.body@ == request_body_of(m.input_name@, url_safe_b64(item.image@))),
            lookup(self.models.models(), item.model@) is Some ==> final(d).emitted() == old(d).emitted(),
            lookup(self.models.models(), item.model@) is Some ==> final(d).pending() == old(d).pending().insert(old(d).received().len() as u64),
            lookup(self.models.models(), item.model@) is Some ==> final(d).pending_count() == old(d).pending_count() + 1,
    {
        let ticket = d.next_ticket;
        let ghost old_pending = d.pending@;
        let ghost old_emitted = d.emitted@;
        d.next_ticket = d.next_ticket + 1;
        d.received = Ghost(d.received@.push(item.id));
        match self.models.resolve(item.model.as_str()) {
            None => {
                d.emitted = Ghost(d.emitted@.push(ticket));
                proof {
                    assert(!has_ticket(old_pending, ticket));
                    assert(!old_emitted.contains(ticket));
                    lemma_push_emitted(old_emitted, ticket);
                    assert forall|j: int| 0 <= j < d.emitted@.len() implies #[trigger] d.emitted@[j] < d.next_ticket by {
                        if j < old_emitted.len() {
                            assert(d.emitted@[j] == old_emitted[j]);
                        }
                    }
                    assert(d.pending() =~= old(d).pending());
                }
                Action::Emit(Outcome::ModelNotFound { id: item.id, model: item.model })
            },
            Some(m) => {
                let url = predict_url(self.tf_serving_url.as_str(), m.name.as_str(), m.version);
                let payload = encode_image(&item.image);
                let body = request_body(m.input_name.as_str(), payload.as_str());
                d.pending.push((ticket, item.id));
                proof {
                    assert(!old_emitted.contains(ticket));
                    lemma_push_ticket(old_pending, (ticket, item.id));
                    assert forall|a: int, b: int|
                        0 <= a < b < d.pending@.len() implies #[trigger] d.pending@[a].0
                            != #[trigger] d.pending@[b].0 by {
                        if b == old_pending.len() {
                            assert(old_pending[a].0 < ticket);
                        } else {
                            assert(old_pending[a] == d.pending@[a]);
                            assert(old_pending[b] == d.pending@[b]);
                        }
                    }
                    assert forall|j: int| 0 <= j < d.pending@.len() implies #[trigger] d.pending@[j].0 < d.next_ticket
                        && d.pending@[j].1 == d.received@[d.pending@[j].0 as int] by {
                        if j < old_pending.len() {
                            assert(old_pending[j] == d.pending@[j]);
                        }
                    }
                    assert forall|t: u64| t < d.next_ticket implies (#[trigger] d.emitted@.contains(t) <==> !has_ticket(d.pending@, t)) by {
                        if t < ticket {
                            assert(old_emitted.contains(t) <==> !has_ticket(old_pending, t));
                        }
                    }
                    assert(d.pending() =~= old(d).pending().insert(ticket));
                }
                Action::Spawn(BackendCall { ticket, id: item.id, url, body })
            },
        }
    }
}

/// No unit of work is running exactly when every item received so far has
/// had its outcome handed out; so the outbound sequence may end (see
/// `is_finished`) exactly when the inbound one has ended and all work that
/// was started has completed.
pub proof fn law_finished_iff_all_answered(d: StreamDispatch)
    requires
        d.wf(),
    ensures
        d.pending_count() == 0 <==> forall|t: u64| (t as int) < d.received().len() ==> #[trigger] d.emitted().contains(t),
{
    if d.pending_count() == 0 {
        assert forall|t: u64| (t as int) < d.received().len() implies #[trigger] d.emitted().contains(t) by {
            assert(!has_ticket(d.pending@, t));
        }
    }
    if forall|t: u64| (t as int) < d.received().len() ==> #[trigger] d.emitted().contains(t) {
        if d.pending@.len() > 0 {
            let t = d.pending@[0].0;
            assert(t < d.next_ticket);
            assert((t as int) < d.received().len());
            assert(d.emitted().contains(t));
            assert(has_ticket(d.pending@, t));
        }
    }
}

/// Once the stream is finished, every item received has had exactly one
/// outcome handed out, whatever order they completed in, and there are as
/// many outcomes as items.
pub proof fn law_one_outcome_per_item(d: StreamDispatch)
    requires
        d.wf(),
        d.inbound_closed(),
        d.pending_count() == 0,
    ensures
        d.emitted().len() == d.received().len(),
        d.emitted().no_duplicates(),
        forall|t: u64| (t as int) < d.received().len() ==> #[trigger] d.emitted().contains(t),
        forall|k: int| 0 <= k < d.emitted().len() ==> (#[trigger] d.emitted()[k] as int) < d.received().len(),
{
    law_finished_iff_all_answered(d);
}

} // verus!
