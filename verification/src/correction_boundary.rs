//! The correction boundary: a request by which an agent marks, once, the point from which its turn
//! is corrected.
//!
//! Every request leaves a receipt under its session and its identifier. A repeated request is
//! answered from the receipt, so that a boundary is marked at most once however often the answer
//! gets lost. Receipts live for the bound session, and are bounded.
use vstd::prelude::*;

use crate::async_completion::{
    AcpSessionBinding, AcpSessionBindingAdmission, AcpSessionBindingReceiptRetrySnapshot,
    BindingModel, BindingStep,
};
use crate::client_extensions::{
    is_identifier, validate_identifier, Reason, RpcError,
};
use crate::text::same_text;

verus! {

/// The version of a correction boundary request.
pub const CORRECTION_BOUNDARY_VERSION: &'static str = "command-eve-correction-boundary/v2";

/// The most receipts that are kept.
pub const MAX_RECEIPTS: usize = 256;

/// The most bytes of a correction boundary request.
pub const MAX_BOUNDARY_PAYLOAD_BYTES: usize = 2048;

/// Why a boundary is not marked.
#[derive(Clone, Copy, Debug, PartialEq, Eq, Structural)]
pub enum RejectionReason {
    /// The same request may be made again under the same generation.
    RetryableSameGeneration,
    /// The session has been bound anew, or is about to be.
    LifecycleChanged,
    /// Another session is bound.
    SessionMismatch,
}

/// What a receipt says of its request. The number is the generation of the binding under which the
/// request was taken up.
#[derive(Clone, Copy, Debug, PartialEq, Eq, Structural)]
pub enum ReceiptState {
    Retryable(u64),
    Accepted(u64),
    Rejected(RejectionReason),
}

/// A correction boundary request.
#[derive(Debug, PartialEq, Eq)]
pub struct BoundaryRequest {
    pub version: String,
    pub request_id: String,
    pub session_id: String,
}

/// The receipts of the requests, by session and request.
pub type ReceiptModel = Map<(Seq<char>, Seq<char>), ReceiptState>;

/// One receipt.
#[derive(Debug)]
struct Receipt {
    session_id: String,
    request_id: String,
    state: ReceiptState,
}

impl Receipt {
    spec fn key(self) -> (Seq<char>, Seq<char>) {
        (self.session_id@, self.request_id@)
    }
}

/// The receipts that are kept.
#[derive(Debug)]
pub struct CorrectionBoundaryReceipts {
    items: Vec<Receipt>,
}

spec fn distinct(items: Seq<Receipt>) -> bool {
    forall|i: int, j: int|
        0 <= i < items.len() && 0 <= j < items.len() && (#[trigger] items[i]).key() == (
        #[trigger] items[j]).key() ==> i == j
}

spec fn holds(items: Seq<Receipt>, key: (Seq<char>, Seq<char>)) -> bool {
    exists|i: int| 0 <= i < items.len() && (#[trigger] items[i]).key() == key
}

spec fn place(items: Seq<Receipt>, key: (Seq<char>, Seq<char>)) -> int {
    choose|i: int| 0 <= i < items.len() && (#[trigger] items[i]).key() == key
}

spec fn receipts_of(items: Seq<Receipt>) -> ReceiptModel {
    Map::new(
        |key: (Seq<char>, Seq<char>)| holds(items, key),
        |key: (Seq<char>, Seq<char>)| items[place(items, key)].state,
    )
}

proof fn lemma_receipt(items: Seq<Receipt>, i: int)
    requires
        distinct(items),
        0 <= i < items.len(),
    ensures
        receipts_of(items).dom().contains(items[i].key()),
        receipts_of(items)[items[i].key()] == items[i].state,
{
    assert(holds(items, items[i].key()));
    assert(place(items, items[i].key()) == i);
}

proof fn lemma_receipt_pushed(items: Seq<Receipt>, receipt: Receipt)
    requires
        distinct(items),
        !holds(items, receipt.key()),
    ensures
        distinct(items.push(receipt)),
        receipts_of(items.push(receipt)) == receipts_of(items).insert(receipt.key(), receipt.state),
{
    let after = items.push(receipt);
    let last = items.len() as int;
    assert(after[last] == receipt);
    assert forall|j: int| 0 <= j < items.len() implies after[j] == items[j] by {}
    assert(distinct(after)) by {
        assert forall|i: int, j: int|
            0 <= i < after.len() && 0 <= j < after.len() && (#[trigger] after[i]).key() == (
            #[trigger] after[j]).key() implies i == j by {
            if i < last && j < last {
                assert(items[i].key() == items[j].key());
            } else if i < last {
                assert(items[i].key() == receipt.key());
            } else if j < last {
                assert(items[j].key() == receipt.key());
            }
        }
    }
    assert forall|k: (Seq<char>, Seq<char>)| holds(after, k) == (holds(items, k) || k
        == receipt.key()) by {
        if holds(after, k) {
            let j = place(after, k);
            if j < last {
                assert(items[j].key() == k);
            }
        }
        if holds(items, k) {
            assert(after[place(items, k)].key() == k);
        }
        if k == receipt.key() {
            assert(after[last].key() == k);
        }
    }
    assert forall|k: (Seq<char>, Seq<char>)| holds(after, k) implies receipts_of(after)[k]
        == receipts_of(items).insert(receipt.key(), receipt.state)[k] by {
        let j = place(after, k);
        lemma_receipt(after, j);
        if j < last {
            lemma_receipt(items, j);
        }
    }
    assert(receipts_of(after) =~= receipts_of(items).insert(receipt.key(), receipt.state));
}

proof fn lemma_receipt_count(items: Seq<Receipt>)
    requires
        distinct(items),
    ensures
        receipts_of(items).dom().finite(),
        receipts_of(items).len() == items.len(),
{
    let keys = items.map_values(|receipt: Receipt| receipt.key());
    assert(keys.no_duplicates()) by {
        assert forall|i: int, j: int| 0 <= i < keys.len() && 0 <= j < keys.len() && i != j implies
            keys[i] != keys[j] by {
            assert(keys[i] == items[i].key() && keys[j] == items[j].key());
        }
    }
    keys.unique_seq_to_set();
    assert(receipts_of(items).dom() =~= keys.to_set()) by {
        assert forall|key: (Seq<char>, Seq<char>)| keys.to_set().contains(key) implies holds(
            items,
            key,
        ) by {
            let i = choose|i: int| 0 <= i < keys.len() && keys[i] == key;
            assert(items[i].key() == key);
        }
        assert forall|key: (Seq<char>, Seq<char>)| holds(items, key) implies keys.to_set().contains(
            key,
        ) by {
            assert(keys[place(items, key)] == key);
        }
    }
}

/// The receipts of one session.
pub open spec fn of_session(receipts: ReceiptModel, session_id: Seq<char>) -> ReceiptModel {
    receipts.restrict(
        Set::new(|key: (Seq<char>, Seq<char>)| receipts.dom().contains(key) && key.0 == session_id),
    )
}

impl View for CorrectionBoundaryReceipts {
    type V = ReceiptModel;

    closed spec fn view(&self) -> ReceiptModel {
        receipts_of(self.items@)
    }
}

impl CorrectionBoundaryReceipts {
    /// No request has two receipts, and there are not too many.
    pub closed spec fn wf(&self) -> bool {
        distinct(self.items@) && self.items@.len() <= MAX_RECEIPTS
    }

    /// The receipts are finitely many, and within their bound.
    pub proof fn receipts_are_bounded(&self)
        requires
            self.wf(),
        ensures
            self@.dom().finite(),
            self@.len() <= MAX_RECEIPTS,
    {
        lemma_receipt_count(self.items@);
    }

    pub fn new() -> (r: Self)
        ensures
            r.wf(),
            r@ == Map::<(Seq<char>, Seq<char>), ReceiptState>::empty(),
    {
        let r = CorrectionBoundaryReceipts { items: Vec::new() };
        proof {
            assert(r@ =~= Map::<(Seq<char>, Seq<char>), ReceiptState>::empty());
        }
        r
    }

    /// How many receipts are kept.
    pub fn len(&self) -> (r: usize)
        requires
            self.wf(),
        ensures
            r == self@.len(),
            r <= MAX_RECEIPTS,
    {
        proof {
            lemma_receipt_count(self.items@);
        }
        self.items.len()
    }

    fn find(&self, session_id: &str, request_id: &str) -> (r: Option<usize>)
        ensures
            r is None <==> !holds(self.items@, (session_id@, request_id@)),
            r matches Some(i) ==> i < self.items@.len() && self.items@[i as int].key() == (
                session_id@,
                request_id@,
            ),
    {
        let mut i: usize = 0;
        while i < self.items.len()
            invariant
                i <= self.items@.len(),
                forall|j: int|
                    0 <= j < i ==> (#[trigger] self.items@[j]).key() != (session_id@, request_id@),
            decreases self.items@.len() - i,
        {
            if same_text(self.items[i].session_id.as_str(), session_id) && same_text(
                self.items[i].request_id.as_str(),
                request_id,
            ) {
                return Some(i);
            }
            i = i + 1;
        }
        None
    }

    /// What the receipt of a request says.
    pub fn get(&self, session_id: &str, request_id: &str) -> (r: Option<ReceiptState>)
        requires
            self.wf(),
        ensures
            r == if self@.dom().contains((session_id@, request_id@)) {
                Some(self@[(session_id@, request_id@)])
            } else {
                None
            },
    {
        match self.find(session_id, request_id) {
            Some(i) => {
                proof {
                    lemma_receipt(self.items@, i as int);
                }
                Some(self.items[i].state)
            },
            None => None,
        }
    }

    fn insert(&mut self, session_id: &str, request_id: &str, state: ReceiptState)
        requires
            old(self).wf(),
            old(self)@.dom().contains((session_id@, request_id@)) || old(self)@.len()
                < MAX_RECEIPTS,
        ensures
            final(self).wf(),
            final(self)@ == old(self)@.insert((session_id@, request_id@), state),
            final(self).items@.len() <= old(self).items@.len() + 1,
    {
        let ghost key = (session_id@, request_id@);
        let ghost before = self.items@;
        proof {
            lemma_receipt_count(before);
        }
        let receipt = Receipt {
            session_id: session_id.to_owned(),
            request_id: request_id.to_owned(),
            state,
        };
        match self.find(session_id, request_id) {
            Some(i) => {
                self.items[i] = receipt;
                proof {
                    let after = self.items@;
                    assert forall|j: int| 0 <= j < after.len() implies (#[trigger] after[j]).key()
                        == before[j].key() by {}
                    assert forall|k: (Seq<char>, Seq<char>)| holds(after, k) == holds(before, k) by {
                        if holds(after, k) {
                            assert(before[place(after, k)].key() == k);
                        }
                        if holds(before, k) {
                            assert(after[place(before, k)].key() == k);
                        }
                    }
                    lemma_receipt(after, i as int);
                    assert forall|k: (Seq<char>, Seq<char>)| holds(after, k) implies receipts_of(
                        after,
                    )[k] == receipts_of(before).insert(key, state)[k] by {
                        let j = place(after, k);
                        lemma_receipt(after, j);
                        lemma_receipt(before, j);
                        if j != i {
                            assert(after[j] == before[j]);
                        }
                    }
                    assert(receipts_of(after) =~= receipts_of(before).insert(key, state));
                }
            },
            None => {
                proof {
                    lemma_receipt_pushed(before, receipt);
                }
                self.items.push(receipt);
            },
        }
    }

    /// Drops the receipts of every other session.
    fn retain_session(&mut self, session_id: &str)
        requires
            old(self).wf(),
        ensures
            final(self).wf(),
            final(self)@ == of_session(old(self)@, session_id@),
    {
        let mut kept = CorrectionBoundaryReceipts::new();
        let mut i: usize = 0;
        proof {
            let none = self.items@.subrange(0, 0);
            assert forall|key: (Seq<char>, Seq<char>)| !holds(none, key) by {}
            assert(kept@ =~= of_session(receipts_of(none), session_id@));
            lemma_receipt_count(kept.items@);
        }
        while i < self.items.len()
            invariant
                self.wf(),
                kept.wf(),
                i <= self.items@.len(),
                kept.items@.len() <= i,
                kept@ == of_session(receipts_of(self.items@.subrange(0, i as int)), session_id@),
            decreases self.items@.len() - i,
        {
            let receipt = &self.items[i];
            proof {
                let done = self.items@.subrange(0, i as int);
                let next = self.items@.subrange(0, i + 1);
                assert(next =~= done.push(*receipt));
                assert(distinct(done)) by {
                    assert forall|a: int, b: int|
                        0 <= a < done.len() && 0 <= b < done.len() && (#[trigger] done[a]).key()
                            == (#[trigger] done[b]).key() implies a == b by {
                        assert(self.items@[a].key() == self.items@[b].key());
                    }
                }
                assert(!holds(done, receipt.key())) by {
                    if holds(done, receipt.key()) {
                        let j = place(done, receipt.key());
                        assert(self.items@[j].key() == self.items@[i as int].key());
                    }
                }
                lemma_receipt_pushed(done, *receipt);
                assert(of_session(receipts_of(next), session_id@) =~= if receipt.session_id@
                    == session_id@ {
                    kept@.insert(receipt.key(), receipt.state)
                } else {
                    kept@
                });
                lemma_receipt_count(kept.items@);
            }
            if same_text(receipt.session_id.as_str(), session_id) {
                kept.insert(receipt.session_id.as_str(), receipt.request_id.as_str(), receipt.state);
            }
            i = i + 1;
        }
        assert(self.items@.subrange(0, self.items@.len() as int) =~= self.items@);
        *self = kept;
    }

    /// Refuses a request for good.
    pub fn reject_receipt(
        &mut self,
        session_id: &str,
        request_id: &str,
        reason: RejectionReason,
    ) -> (r: BoundaryAnswer)
        requires
            old(self).wf(),
        ensures
            final(self).wf(),
            (r, final(self)@) == rejected(old(self)@, (session_id@, request_id@), reason),
    {
        if self.get(session_id, request_id).is_none() && self.len() >= MAX_RECEIPTS {
            return BoundaryAnswer::Refused(RpcError::Internal(Reason::ReceiptCapacityExhausted));
        }
        self.insert(session_id, request_id, ReceiptState::Rejected(reason));
        BoundaryAnswer::Rejected(reason)
    }

    /// Answers a request that comes while its session is being bound. Only a receipt of the
    /// generation that the snapshot saw survives, and only where nothing has changed since.
    pub fn retry_existing_receipt_during_bind(
        &mut self,
        binding: &AcpSessionBinding,
        session_id: &str,
        request_id: &str,
        snapshot: &AcpSessionBindingReceiptRetrySnapshot,
    ) -> (r: BoundaryAnswer)
        requires
            old(self).wf(),
        ensures
            final(self).wf(),
            (r, final(self)@) == retried(
                old(self)@,
                (session_id@, request_id@),
                snapshot@.1,
                binding@.changes == 0 && binding@.epoch == snapshot@.2 && binding@.is_current(
                    snapshot@.0,
                    snapshot@.1,
                ),
            ),
    {
        let current = binding.receipt_retry_snapshot_is_current(snapshot);
        match self.get(session_id, request_id) {
            Some(ReceiptState::Rejected(reason)) => BoundaryAnswer::Rejected(reason),
            Some(ReceiptState::Accepted(generation)) | Some(ReceiptState::Retryable(generation)) => {
                if generation == snapshot.generation() && current {
                    BoundaryAnswer::Rejected(RejectionReason::RetryableSameGeneration)
                } else {
                    self.reject_receipt(session_id, request_id, RejectionReason::LifecycleChanged)
                }
            },
            None => self.reject_receipt(session_id, request_id, RejectionReason::LifecycleChanged),
        }
    }

    /// Takes up a request. `payload_bytes` is the length of what came over the wire, `request` what
    /// it was read as, if it could be read. Where a boundary is to be marked, the ticket holds an
    /// admission on the binding until [`finish`](Self::finish) is told whether it was.
    pub fn handle(
        &mut self,
        binding: &mut AcpSessionBinding,
        payload_bytes: usize,
        request: Option<&BoundaryRequest>,
    ) -> (r: BoundaryProgress)
        requires
            old(self).wf(),
            old(binding)@.wf(),
        ensures
            final(self).wf(),
            final(binding)@.wf(),
            ({
                let asked = match request {
                    Some(request) => Some(request@),
                    None => None,
                };
                let (answer, receipts) = handled(old(self)@, old(binding)@, payload_bytes, asked);
                &&& final(self)@ == receipts
                &&& match answer {
                    Some(answer) => r == BoundaryProgress::Answer(answer) && final(binding)@ == old(
                        binding,
                    )@,
                    None => {
                        &&& request is Some
                        &&& r matches BoundaryProgress::Mark(ticket)
                        &&& ticket.key() == (request->0.session_id@, request->0.request_id@)
                        &&& ticket.generation() == old(binding)@.generation
                        &&& ticket.holds()
                        &&& final(binding)@ == old(binding)@.step(BindingStep::Admit)
                        &&& final(self)@.dom().contains(ticket.key())
                    },
                }
            }),
    {
        if payload_bytes > MAX_BOUNDARY_PAYLOAD_BYTES {
            return BoundaryProgress::Answer(
                BoundaryAnswer::Refused(RpcError::Internal(Reason::PayloadTooLarge)),
            );
        }
        let request = match request {
            Some(request) => request,
            None => {
                return BoundaryProgress::Answer(
                    BoundaryAnswer::Refused(RpcError::Internal(Reason::InvalidShape)),
                );
            },
        };
        if !same_text(request.version.as_str(), CORRECTION_BOUNDARY_VERSION)
            || !validate_identifier(request.request_id.as_str()) || !validate_identifier(
            request.session_id.as_str(),
        ) {
            return BoundaryProgress::Answer(
                BoundaryAnswer::Refused(RpcError::Internal(Reason::InvalidShape)),
            );
        }
        let session_id = request.session_id.as_str();
        let request_id = request.request_id.as_str();
        let mut admission = match binding.try_acquire_admission() {
            Some(admission) => admission,
            None => {
                return BoundaryProgress::Answer(
                    match binding.receipt_retry_snapshot(session_id) {
                        Some(snapshot) => self.retry_existing_receipt_during_bind(
                            binding,
                            session_id,
                            request_id,
                            &snapshot,
                        ),
                        None => self.reject_receipt(
                            session_id,
                            request_id,
                            RejectionReason::LifecycleChanged,
                        ),
                    },
                );
            },
        };
        if !same_text(admission.lease().session_id(), session_id) {
            admission.release_barrier(binding);
            return BoundaryProgress::Answer(
                self.reject_receipt(session_id, request_id, RejectionReason::SessionMismatch),
            );
        }
        let generation: u64 = admission.lease().generation();
        match self.open(session_id, request_id, generation) {
            Some(answer) => {
                admission.release_barrier(binding);
                BoundaryProgress::Answer(answer)
            },
            None => BoundaryProgress::Mark(
                BoundaryTicket {
                    session_id: request.session_id.clone(),
                    request_id: request.request_id.clone(),
                    generation,
                    admission,
                },
            ),
        }
    }

    fn open(&mut self, session_id: &str, request_id: &str, generation: u64) -> (r: Option<
        BoundaryAnswer,
    >)
        requires
            old(self).wf(),
        ensures
            final(self).wf(),
            (r, final(self)@) == opened(old(self)@, (session_id@, request_id@), generation),
            r is None ==> final(self)@.dom().contains((session_id@, request_id@)),
    {
        self.retain_session(session_id);
        match self.get(session_id, request_id) {
            Some(ReceiptState::Rejected(reason)) => Some(BoundaryAnswer::Rejected(reason)),
            Some(ReceiptState::Accepted(existing)) => {
                if existing == generation {
                    Some(BoundaryAnswer::Accepted)
                } else {
                    Some(
                        self.reject_receipt(
                            session_id,
                            request_id,
                            RejectionReason::LifecycleChanged,
                        ),
                    )
                }
            },
            Some(ReceiptState::Retryable(existing)) => {
                if existing == generation {
                    None
                } else {
                    Some(
                        self.reject_receipt(
                            session_id,
                            request_id,
                            RejectionReason::LifecycleChanged,
                        ),
                    )
                }
            },
            None => {
                if self.len() >= MAX_RECEIPTS {
                    return Some(
                        BoundaryAnswer::Refused(
                            RpcError::Internal(Reason::ReceiptCapacityExhausted),
                        ),
                    );
                }
                self.insert(session_id, request_id, ReceiptState::Retryable(generation));
                None
            },
        }
    }

    /// Ends a request whose boundary was to be marked. `delivered` says whether it was.
    pub fn finish(
        &mut self,
        binding: &mut AcpSessionBinding,
        ticket: BoundaryTicket,
        delivered: bool,
    ) -> (r: BoundaryAnswer)
        requires
            old(self).wf(),
            old(binding)@.wf(),
            ticket.holds() ==> old(binding)@.readers > 0,
            old(self)@.dom().contains(ticket.key()),
        ensures
            final(self).wf(),
            final(binding)@ == if ticket.holds() {
                old(binding)@.step(BindingStep::Release)
            } else {
                old(binding)@
            },
            (r, final(self)@) == finished(
                old(self)@,
                ticket.key(),
                ticket.generation(),
                delivered,
            ),
    {
        let mut admission = ticket.admission;
        let answer = if delivered {
            self.insert(
                ticket.session_id.as_str(),
                ticket.request_id.as_str(),
                ReceiptState::Accepted(ticket.generation),
            );
            BoundaryAnswer::Accepted
        } else {
            BoundaryAnswer::Rejected(RejectionReason::RetryableSameGeneration)
        };
        admission.release_barrier(binding);
        answer
    }
}

/// How a request is answered.
#[derive(Clone, Copy, Debug, PartialEq, Eq, Structural)]
pub enum BoundaryAnswer {
    Accepted,
    Rejected(RejectionReason),
    Refused(RpcError),
}

/// How far a request has come.
#[derive(Debug)]
pub enum BoundaryProgress {
    Answer(BoundaryAnswer),
    /// The boundary is to be marked.
    Mark(BoundaryTicket),
}

/// A request whose boundary is to be marked.
#[derive(Debug)]
pub struct BoundaryTicket {
    session_id: String,
    request_id: String,
    generation: u64,
    admission: AcpSessionBindingAdmission,
}

impl BoundaryTicket {
    /// The session and the identifier of the request.
    pub closed spec fn key(&self) -> (Seq<char>, Seq<char>) {
        (self.session_id@, self.request_id@)
    }

    /// The generation under which it was taken up.
    pub closed spec fn generation(&self) -> u64 {
        self.generation
    }

    /// Whether it holds an admission on the binding.
    pub closed spec fn holds(&self) -> bool {
        self.admission.holds()
    }
}

/// What a request says.
pub struct BoundaryModel {
    pub version: Seq<char>,
    pub request_id: Seq<char>,
    pub session_id: Seq<char>,
}

impl View for BoundaryRequest {
    type V = BoundaryModel;

    open spec fn view(&self) -> BoundaryModel {
        BoundaryModel {
            version: self.version@,
            request_id: self.request_id@,
            session_id: self.session_id@,
        }
    }
}

/// The answer to a request that is refused for good, and the receipts afterwards. Where there is no
/// room for its receipt, the request is refused without one.
pub open spec fn rejected(
    receipts: ReceiptModel,
    key: (Seq<char>, Seq<char>),
    reason: RejectionReason,
) -> (BoundaryAnswer, ReceiptModel) {
    if !receipts.dom().contains(key) && receipts.len() >= MAX_RECEIPTS {
        (BoundaryAnswer::Refused(RpcError::Internal(Reason::ReceiptCapacityExhausted)), receipts)
    } else {
        (
            BoundaryAnswer::Rejected(reason),
            receipts.insert(key, ReceiptState::Rejected(reason)),
        )
    }
}

/// The generation of a receipt that is not a refusal.
pub open spec fn receipt_generation(state: ReceiptState) -> Option<u64> {
    match state {
        ReceiptState::Accepted(generation) => Some(generation),
        ReceiptState::Retryable(generation) => Some(generation),
        ReceiptState::Rejected(_) => None,
    }
}

/// The answer to a request that comes while its session is being bound.
pub open spec fn retried(
    receipts: ReceiptModel,
    key: (Seq<char>, Seq<char>),
    generation: u64,
    current: bool,
) -> (BoundaryAnswer, ReceiptModel) {
    if receipts.dom().contains(key) && receipts[key] is Rejected {
        (BoundaryAnswer::Rejected(receipts[key]->Rejected_0), receipts)
    } else if receipts.dom().contains(key) && receipt_generation(receipts[key]) == Some(generation)
        && current {
        (BoundaryAnswer::Rejected(RejectionReason::RetryableSameGeneration), receipts)
    } else {
        rejected(receipts, key, RejectionReason::LifecycleChanged)
    }
}

/// The answer to a request of the bound session; nothing where its boundary is to be marked.
pub open spec fn opened(
    receipts: ReceiptModel,
    key: (Seq<char>, Seq<char>),
    generation: u64,
) -> (Option<BoundaryAnswer>, ReceiptModel) {
    let kept = of_session(receipts, key.0);
    if !kept.dom().contains(key) {
        if kept.len() >= MAX_RECEIPTS {
            (
                Some(BoundaryAnswer::Refused(RpcError::Internal(Reason::ReceiptCapacityExhausted))),
                kept,
            )
        } else {
            (None, kept.insert(key, ReceiptState::Retryable(generation)))
        }
    } else if kept[key] is Rejected {
        (Some(BoundaryAnswer::Rejected(kept[key]->Rejected_0)), kept)
    } else if receipt_generation(kept[key]) != Some(generation) {
        (
            Some(BoundaryAnswer::Rejected(RejectionReason::LifecycleChanged)),
            kept.insert(key, ReceiptState::Rejected(RejectionReason::LifecycleChanged)),
        )
    } else if kept[key] is Accepted {
        (Some(BoundaryAnswer::Accepted), kept)
    } else {
        (None, kept)
    }
}

/// The answer to a request whose boundary was to be marked.
pub open spec fn finished(
    receipts: ReceiptModel,
    key: (Seq<char>, Seq<char>),
    generation: u64,
    delivered: bool,
) -> (BoundaryAnswer, ReceiptModel) {
    if delivered {
        (BoundaryAnswer::Accepted, receipts.insert(key, ReceiptState::Accepted(generation)))
    } else {
        (BoundaryAnswer::Rejected(RejectionReason::RetryableSameGeneration), receipts)
    }
}

/// The answer to a request, and the receipts afterwards; no answer where its boundary is to be
/// marked.
pub open spec fn handled(
    receipts: ReceiptModel,
    binding: BindingModel,
    payload_bytes: usize,
    request: Option<BoundaryModel>,
) -> (Option<BoundaryAnswer>, ReceiptModel) {
    if payload_bytes > MAX_BOUNDARY_PAYLOAD_BYTES {
        (Some(BoundaryAnswer::Refused(RpcError::Internal(Reason::PayloadTooLarge))), receipts)
    } else if request is None || request->0.version != CORRECTION_BOUNDARY_VERSION@
        || !is_identifier(request->0.request_id) || !is_identifier(request->0.session_id) {
        (Some(BoundaryAnswer::Refused(RpcError::Internal(Reason::InvalidShape))), receipts)
    } else {
        let session_id = request->0.session_id;
        let key = (session_id, request->0.request_id);
        if !binding.admits() {
            let (answer, after) = if binding.changes == 0 && binding.bound == Some(session_id) {
                retried(receipts, key, binding.generation, true)
            } else {
                rejected(receipts, key, RejectionReason::LifecycleChanged)
            };
            (Some(answer), after)
        } else if binding.bound != Some(session_id) {
            let (answer, after) = rejected(receipts, key, RejectionReason::SessionMismatch);
            (Some(answer), after)
        } else {
            opened(receipts, key, binding.generation)
        }
    }
}

/// Whether a request was accepted or refused.
#[derive(Clone, Copy, Debug, PartialEq, Eq, Structural)]
pub enum BoundaryStatus {
    Accepted,
    Rejected,
}

/// The answer as it goes to the agent.
#[derive(Debug, PartialEq, Eq)]
pub struct BoundaryResponse {
    pub version: String,
    pub request_id: String,
    pub status: BoundaryStatus,
    pub rejection: Option<RejectionReason>,
}

/// Whether an answer says that the boundary was accepted.
pub open spec fn boundary_status(answer: BoundaryAnswer) -> BoundaryStatus {
    if answer is Accepted {
        BoundaryStatus::Accepted
    } else {
        BoundaryStatus::Rejected
    }
}

/// Why an answer refuses the boundary, where it says so.
pub open spec fn boundary_rejection(answer: BoundaryAnswer) -> Option<RejectionReason> {
    match answer {
        BoundaryAnswer::Rejected(reason) => Some(reason),
        _ => None,
    }
}

impl BoundaryAnswer {
    /// Frames the answer to a request.
    pub fn response(self, request_id: &str) -> (r: Result<BoundaryResponse, RpcError>)
        ensures
            match self {
                BoundaryAnswer::Refused(error) => r == Err::<BoundaryResponse, RpcError>(error),
                _ => {
                    &&& r matches Ok(response)
                    &&& response.version@ == CORRECTION_BOUNDARY_VERSION@
                    &&& response.request_id@ == request_id@
                    &&& response.status == boundary_status(self)
                    &&& response.rejection == boundary_rejection(self)
                },
            },
    {
        let (status, rejection) = match self {
            BoundaryAnswer::Accepted => (BoundaryStatus::Accepted, None),
            BoundaryAnswer::Rejected(reason) => (BoundaryStatus::Rejected, Some(reason)),
            BoundaryAnswer::Refused(error) => {
                return Err(error);
            },
        };
        Ok(
            BoundaryResponse {
                version: CORRECTION_BOUNDARY_VERSION.to_owned(),
                request_id: request_id.to_owned(),
                status,
                rejection,
            },
        )
    }
}

/// One change of the receipts.
pub enum ReceiptStep {
    Open { key: (Seq<char>, Seq<char>), generation: u64 },
    Finish { key: (Seq<char>, Seq<char>), generation: u64, delivered: bool },
    Reject { key: (Seq<char>, Seq<char>), reason: RejectionReason },
    Retry { key: (Seq<char>, Seq<char>), generation: u64, current: bool },
}

/// Whether a step can be taken: a boundary is finished where it was opened.
pub open spec fn receipt_step_enabled(receipts: ReceiptModel, step: ReceiptStep) -> bool {
    match step {
        ReceiptStep::Finish { key, generation, delivered } => receipts.dom().contains(key)
            && receipts[key] == ReceiptState::Retryable(generation),
        _ => true,
    }
}

/// The receipts after a step.
pub open spec fn receipts_after(receipts: ReceiptModel, step: ReceiptStep) -> ReceiptModel {
    match step {
        ReceiptStep::Open { key, generation } => opened(receipts, key, generation).1,
        ReceiptStep::Finish { key, generation, delivered } => finished(
            receipts,
            key,
            generation,
            delivered,
        ).1,
        ReceiptStep::Reject { key, reason } => rejected(receipts, key, reason).1,
        ReceiptStep::Retry { key, generation, current } => retried(
            receipts,
            key,
            generation,
            current,
        ).1,
    }
}

/// Whether every step of a history can be taken, and none opens a request of another session.
pub open spec fn receipt_history(
    receipts: ReceiptModel,
    steps: Seq<ReceiptStep>,
    session_id: Seq<char>,
) -> bool
    decreases steps.len(),
{
    steps.len() == 0 || {
        &&& receipt_step_enabled(receipts, steps[0])
        &&& steps[0] matches ReceiptStep::Open { key, generation } ==> key.0 == session_id
        &&& receipt_history(receipts_after(receipts, steps[0]), steps.drop_first(), session_id)
    }
}

/// The receipts after a history.
pub open spec fn receipts_after_all(receipts: ReceiptModel, steps: Seq<ReceiptStep>) -> ReceiptModel
    decreases steps.len(),
{
    if steps.len() == 0 {
        receipts
    } else {
        receipts_after_all(receipts_after(receipts, steps[0]), steps.drop_first())
    }
}

/// Whether the boundary of a request was marked, or will never be.
pub open spec fn settled(receipts: ReceiptModel, key: (Seq<char>, Seq<char>)) -> bool {
    receipts.dom().contains(key) && !(receipts[key] is Retryable)
}

/// A boundary is marked at most once: while its session lasts, a request whose boundary was marked,
/// or that was refused, is answered from its receipt, whatever else happens.
pub proof fn settled_request_never_marks_again(
    receipts: ReceiptModel,
    steps: Seq<ReceiptStep>,
    key: (Seq<char>, Seq<char>),
    generation: u64,
)
    requires
        settled(receipts, key),
        receipt_history(receipts, steps, key.0),
    ensures
        settled(receipts_after_all(receipts, steps), key),
        opened(receipts_after_all(receipts, steps), key, generation).0 is Some,
    decreases steps.len(),
{
    if steps.len() > 0 {
        let next = receipts_after(receipts, steps[0]);
        assert(settled(next, key)) by {
            match steps[0] {
                ReceiptStep::Open { key: other, generation: g } => {
                    assert(of_session(receipts, other.0).dom().contains(key));
                },
                _ => {},
            }
        }
        settled_request_never_marks_again(next, steps.drop_first(), key, generation);
    } else {
        assert(of_session(receipts, key.0).dom().contains(key));
    }
}

/// A request that was answered with an acceptance is answered so again under the same generation,
/// and the receipts of its session stay as they are: an answer that got lost can be asked for anew.
pub proof fn accepted_request_is_idempotent(
    receipts: ReceiptModel,
    key: (Seq<char>, Seq<char>),
    generation: u64,
)
    requires
        opened(receipts, key, generation).0 is None,
    ensures
        ({
            let marked = finished(opened(receipts, key, generation).1, key, generation, true).1;
            opened(marked, key, generation) == (Some(BoundaryAnswer::Accepted), marked)
        }),
{
    let marked = finished(opened(receipts, key, generation).1, key, generation, true).1;
    assert(of_session(marked, key.0) =~= marked) by {
        assert forall|other: (Seq<char>, Seq<char>)| #[trigger]
            marked.dom().contains(other) implies other.0 == key.0 by {
            if other != key {
                assert(of_session(receipts, key.0).dom().contains(other));
            }
        }
    }
}

/// A request whose boundary could not be marked can be made again under the same generation, and
/// its boundary is then to be marked.
pub proof fn undelivered_request_can_be_repeated(
    receipts: ReceiptModel,
    key: (Seq<char>, Seq<char>),
    generation: u64,
)
    requires
        opened(receipts, key, generation).0 is None,
    ensures
        ({
            let kept = finished(opened(receipts, key, generation).1, key, generation, false).1;
            opened(kept, key, generation).0 is None
        }),
{
    let kept = opened(receipts, key, generation).1;
    assert(of_session(kept, key.0).dom().contains(key));
}

/// A request that is fenced off by a change of the binding never makes a receipt under which a
/// boundary could be marked: every receipt that is not a refusal was there before.
pub proof fn fenced_request_gains_nothing(
    receipts: ReceiptModel,
    key: (Seq<char>, Seq<char>),
    reason: RejectionReason,
    generation: u64,
    current: bool,
    other: (Seq<char>, Seq<char>),
)
    ensures
        ({
            let after = rejected(receipts, key, reason).1;
            after.dom().contains(other) && !(after[other] is Rejected) ==> receipts.dom().contains(
                other,
            ) && after[other] == receipts[other]
        }),
        ({
            let after = retried(receipts, key, generation, current).1;
            after.dom().contains(other) && !(after[other] is Rejected) ==> receipts.dom().contains(
                other,
            ) && after[other] == receipts[other]
        }),
        !(retried(receipts, key, generation, current).0 is Accepted),
        !(rejected(receipts, key, reason).0 is Accepted),
{
}

/// A receipt of an earlier generation is worth nothing: its request is refused, and stays refused.
pub proof fn receipt_of_another_generation_is_refused(
    receipts: ReceiptModel,
    key: (Seq<char>, Seq<char>),
    generation: u64,
)
    requires
        receipts.dom().contains(key),
        receipt_generation(receipts[key]) is Some,
        receipt_generation(receipts[key]) != Some(generation),
    ensures
        opened(receipts, key, generation).0 == Some(
            BoundaryAnswer::Rejected(RejectionReason::LifecycleChanged),
        ),
        opened(opened(receipts, key, generation).1, key, generation).0 == Some(
            BoundaryAnswer::Rejected(RejectionReason::LifecycleChanged),
        ),
{
    assert(of_session(receipts, key.0).dom().contains(key));
    let once = opened(receipts, key, generation).1;
    assert(of_session(once, key.0).dom().contains(key));
}

/// While a transition of the binding is pending, no boundary is marked and no request is accepted,
/// whatever its receipt says.
pub proof fn pending_transition_marks_nothing(
    receipts: ReceiptModel,
    binding: BindingModel,
    payload_bytes: usize,
    request: Option<BoundaryModel>,
)
    requires
        binding.pending > 0,
    ensures
        handled(receipts, binding, payload_bytes, request).0 is Some,
        !(handled(receipts, binding, payload_bytes, request).0->0 is Accepted),
{
}

/// A request of another session than the bound one marks nothing and is not accepted.
pub proof fn request_of_another_session_marks_nothing(
    receipts: ReceiptModel,
    binding: BindingModel,
    payload_bytes: usize,
    request: BoundaryModel,
)
    requires
        binding.bound != Some(request.session_id),
    ensures
        handled(receipts, binding, payload_bytes, Some(request)).0 is Some,
        !(handled(receipts, binding, payload_bytes, Some(request)).0->0 is Accepted),
{
}

/// A fenced request is refused for good under its own name, unless two hundred and fifty-six other
/// requests fill the receipts already: then it fails and nothing is kept of it. No other receipt
/// changes.
pub proof fn fenced_request_is_refused_for_good(
    receipts: ReceiptModel,
    key: (Seq<char>, Seq<char>),
    reason: RejectionReason,
    other: (Seq<char>, Seq<char>),
)
    ensures
        ({
            let (answer, after) = rejected(receipts, key, reason);
            let room = receipts.dom().contains(key) || receipts.len() < 256;
            &&& room ==> answer == BoundaryAnswer::Rejected(reason) && after.dom().contains(key)
                && after[key] == ReceiptState::Rejected(reason)
            &&& !room ==> after == receipts && answer == BoundaryAnswer::Refused(
                RpcError::Internal(Reason::ReceiptCapacityExhausted),
            )
            &&& other != key ==> (after.dom().contains(other) <==> receipts.dom().contains(other))
                && (receipts.dom().contains(other) ==> after[other] == receipts[other])
        }),
{
}

/// A request that comes while a transition is pending is told to try again exactly where its
/// receipt is of the live generation and nothing has changed since. A refused one hears why it
/// was refused, and any other is fenced.
pub proof fn pending_request_is_told_to_try_again(
    receipts: ReceiptModel,
    key: (Seq<char>, Seq<char>),
    generation: u64,
    current: bool,
)
    ensures
        ({
            let (answer, after) = retried(receipts, key, generation, current);
            let known = receipts.dom().contains(key);
            let live = known && (receipts[key] == ReceiptState::Accepted(generation)
                || receipts[key] == ReceiptState::Retryable(generation));
            let refused = known && receipts[key] is Rejected;
            &&& refused ==> answer == BoundaryAnswer::Rejected(receipts[key]->Rejected_0) && after
                == receipts
            &&& live && current ==> answer == BoundaryAnswer::Rejected(
                RejectionReason::RetryableSameGeneration,
            ) && after == receipts
            &&& !refused && !(live && current) ==> (answer, after) == rejected(
                receipts,
                key,
                RejectionReason::LifecycleChanged,
            )
        }),
{
}

/// Opening a request keeps the receipts of its own session and drops those of every other one. The
/// boundary is marked exactly where the request is new, with room for its receipt, or was tried in
/// vain under the same generation.
pub proof fn boundary_is_marked_once_for_a_request(
    receipts: ReceiptModel,
    key: (Seq<char>, Seq<char>),
    generation: u64,
    other: (Seq<char>, Seq<char>),
)
    requires
        receipts.dom().finite(),
    ensures
        ({
            let (answer, after) = opened(receipts, key, generation);
            let known = receipts.dom().contains(key);
            let kept = of_session(receipts, key.0).len();
            &&& answer is None <==> (!known && kept < 256) || (known && receipts[key]
                == ReceiptState::Retryable(generation))
            &&& answer is None ==> after.dom().contains(key) && after[key]
                == ReceiptState::Retryable(generation)
            &&& !known && kept >= 256 ==> answer == Some(
                BoundaryAnswer::Refused(RpcError::Internal(Reason::ReceiptCapacityExhausted)),
            ) && !after.dom().contains(key)
            &&& known && receipts[key] is Rejected ==> answer == Some(
                BoundaryAnswer::Rejected(receipts[key]->Rejected_0),
            ) && after[key] == receipts[key]
            &&& known && receipts[key] == ReceiptState::Accepted(generation) ==> answer == Some(
                BoundaryAnswer::Accepted,
            ) && after[key] == receipts[key]
            &&& known && !(receipts[key] is Rejected) && receipts[key] != ReceiptState::Accepted(
                generation,
            ) && receipts[key] != ReceiptState::Retryable(generation) ==> answer == Some(
                BoundaryAnswer::Rejected(RejectionReason::LifecycleChanged),
            ) && after[key] == ReceiptState::Rejected(RejectionReason::LifecycleChanged)
            &&& other != key ==> (after.dom().contains(other) <==> receipts.dom().contains(other)
                && other.0 == key.0)
            &&& other != key && after.dom().contains(other) ==> after[other] == receipts[other]
        }),
{
}

/// A request is accepted exactly where its mark was delivered. One whose mark was not is told to
/// try again, and its receipt stays.
pub proof fn delivered_mark_is_accepted(
    receipts: ReceiptModel,
    key: (Seq<char>, Seq<char>),
    generation: u64,
    other: (Seq<char>, Seq<char>),
)
    ensures
        ({
            let (answer, after) = finished(receipts, key, generation, true);
            &&& answer is Accepted
            &&& after.dom().contains(key) && after[key] == ReceiptState::Accepted(generation)
            &&& other != key ==> (after.dom().contains(other) <==> receipts.dom().contains(other))
                && (receipts.dom().contains(other) ==> after[other] == receipts[other])
        }),
        finished(receipts, key, generation, false) == (
            BoundaryAnswer::Rejected(RejectionReason::RetryableSameGeneration),
            receipts,
        ),
{
}

/// A request is looked at only where it is small enough, of the known version and named properly.
/// The live session's is opened, another session's is a mismatch, and one that comes while nothing
/// is admitted is fenced, or told to try again where only a change that keeps the session is
/// pending.
pub proof fn boundary_request_is_handled_by_its_session(
    receipts: ReceiptModel,
    binding: BindingModel,
    payload_bytes: usize,
    request: Option<BoundaryModel>,
)
    ensures
        ({
            let (answer, after) = handled(receipts, binding, payload_bytes, request);
            let asked = request->0;
            let key = (asked.session_id, asked.request_id);
            let fits = payload_bytes <= 2048;
            let sound = request is Some && asked.version == "command-eve-correction-boundary/v2"@
                && is_identifier(asked.request_id) && is_identifier(asked.session_id);
            let own = binding.bound == Some(asked.session_id);
            &&& !fits ==> after == receipts && answer == Some(
                BoundaryAnswer::Refused(RpcError::Internal(Reason::PayloadTooLarge)),
            )
            &&& fits && !sound ==> after == receipts && answer == Some(
                BoundaryAnswer::Refused(RpcError::Internal(Reason::InvalidShape)),
            )
            &&& fits && sound && binding.admits() && own ==> (answer, after) == opened(
                receipts,
                key,
                binding.generation,
            )
            &&& fits && sound && binding.admits() && !own ==> answer is Some && (answer->0, after)
                == rejected(receipts, key, RejectionReason::SessionMismatch)
            &&& fits && sound && !binding.admits() && own && binding.changes == 0 ==> answer is Some
                && (answer->0, after) == retried(receipts, key, binding.generation, true)
            &&& fits && sound && !binding.admits() && !(own && binding.changes == 0) ==> answer
                is Some && (answer->0, after) == rejected(
                receipts,
                key,
                RejectionReason::LifecycleChanged,
            )
        }),
{
}

/// On the wire a boundary is accepted exactly where it was marked, and a refusal carries its reason.
pub proof fn wire_answer_says_what_was_done(answer: BoundaryAnswer, reason: RejectionReason)
    ensures
        boundary_status(answer) is Accepted <==> answer is Accepted,
        boundary_rejection(answer) == Some(reason) <==> answer == BoundaryAnswer::Rejected(reason),
        answer is Accepted ==> boundary_rejection(answer) is None,
{
}

} // verus!
