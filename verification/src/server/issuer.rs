//! The issuer: answers requests with the private key, and leaves the record keeping to its
//! caller. A request is worked off in steps. Each step either gives the reply or asks the caller
//! to look a key up in the records, or to put one in; the caller comes back with the answer.

use super::model::{
    all_set, amounts_as_nats, combine_step, field_total, first_step, first_unset, fits,
    next_step, total, Answer, FlowView, QueryView, ReplyView, RequestView, SpendView, StepView,
};
use crate::pow::{credits_for, credits_for_hash, leading_zeros, nonce_hash, pow_hash};
use crate::protocol::{Rejection, Request, Response};
use crate::scheme;
use crate::scheme::{
    derived_params, is_issuance, is_refund, proof_charge, proof_nullifier, public_half,
    request_accepted, response_credits, scalar_value, spend_accepted,
};
use anonymous_credit_tokens::{
    IssuanceRequest, IssuanceResponse, Params, PrivateKey, Refund, SpendProof,
};
use curve25519_dalek::Scalar;
use vstd::prelude::*;

verus! {

/// The seed of the parameters: the ASCII codes of the system's name and version.
pub open spec fn params_seed() -> Seq<u8> {
    seq![
        105u8, 110u8, 110u8, 111u8, 99u8, 101u8, 110u8, 99u8, 101u8, 32u8, 118u8, 48u8, 46u8, 49u8,
    ]
}

/// The parameters that every server and client of the system uses.
pub fn system_params() -> (params: Params)
    ensures
        params == derived_params(params_seed()),
{
    let seed: [u8; 14] = [105, 110, 110, 111, 99, 101, 110, 99, 101, 32, 118, 48, 46, 49];
    assert(seed@ =~= params_seed());
    scheme::derive_params(&seed)
}

/// A question to the records, or a change to them.
pub enum Query {
    /// Is this nullifier there?
    HasNullifier([u8; 32]),
    /// Put this nullifier in.
    AddNullifier([u8; 32]),
    /// Is this proof of work hash there?
    HasPowHash([u8; 32]),
    /// Put this proof of work hash in.
    AddPowHash([u8; 32]),
    /// Is this nonce there?
    HasNonce([u8; 32]),
    /// Put this nonce in.
    AddNonce([u8; 32]),
}

impl View for Query {
    type V = QueryView;

    open spec fn view(&self) -> QueryView {
        match self {
            Query::HasNullifier(key) => QueryView::HasNullifier(key@),
            Query::AddNullifier(key) => QueryView::AddNullifier(key@),
            Query::HasPowHash(key) => QueryView::HasPowHash(key@),
            Query::AddPowHash(key) => QueryView::AddPowHash(key@),
            Query::HasNonce(key) => QueryView::HasNonce(key@),
            Query::AddNonce(key) => QueryView::AddNonce(key@),
        }
    }
}

enum State {
    Spend { refund: Refund },
    IssueHash { request: IssuanceRequest, nonce: [u8; 32], hash: [u8; 32] },
    IssueNonce { request: IssuanceRequest, nonce: [u8; 32], hash: [u8; 32] },
    IssueInsert { response: IssuanceResponse, nonce: [u8; 32] },
    IssueStore { response: IssuanceResponse },
    SplitSeen {
        proof: SpendProof,
        requests: Vec<IssuanceRequest>,
        amounts: Vec<u128>,
        sum: Option<u128>,
    },
    SplitInsert { requests: Vec<IssuanceRequest>, amounts: Vec<u128> },
    CombineSeen {
        proofs: Vec<SpendProof>,
        next: usize,
        total: Scalar,
        request: IssuanceRequest,
    },
    CombineInsert {
        proofs: Vec<SpendProof>,
        next: usize,
        total: Scalar,
        request: IssuanceRequest,
    },
    Status,
}

/// What the issuer remembers of a request while the records are asked.
pub struct Flow {
    state: State,
}

impl Flow {
    #[verifier::type_invariant]
    spec fn wf(&self) -> bool {
        match self.state {
            State::SplitSeen { requests, amounts, sum, .. } => {
                &&& requests.len() == amounts.len()
                &&& requests.len() > 0
                &&& sum matches Some(sum) ==> sum == total(amounts@)
                &&& sum is None ==> total(amounts@) > u128::MAX
            },
            State::SplitInsert { requests, amounts } => requests.len() == amounts.len(),
            State::CombineSeen { proofs, next, .. } => next < proofs.len(),
            State::CombineInsert { proofs, next, .. } => next < proofs.len(),
            _ => true,
        }
    }

    /// What an issuer can tell of the request that it remembers.
    pub closed spec fn facts(&self, issuer: Issuer) -> FlowView {
        match self.state {
            State::Spend { .. } => FlowView::Spend,
            State::IssueHash { request, nonce, hash } => FlowView::IssueHash {
                acceptable: request_accepted(issuer.params(), request),
                nonce: nonce@,
                hash: hash@,
            },
            State::IssueNonce { request, nonce, hash } => FlowView::IssueNonce {
                acceptable: request_accepted(issuer.params(), request),
                nonce: nonce@,
                hash: hash@,
            },
            State::IssueInsert { response, nonce } => FlowView::IssueInsert {
                nonce: nonce@,
                credits: response_credits(response),
            },
            State::IssueStore { response } => FlowView::IssueStore {
                credits: response_credits(response),
            },
            State::SplitSeen { proof, requests, amounts, .. } => FlowView::SplitSeen {
                spend: issuer.spend_view(proof),
                accepted: issuer.accepted(requests@),
                amounts: amounts@,
            },
            State::SplitInsert { requests, amounts } => FlowView::SplitInsert {
                accepted: issuer.accepted(requests@),
                amounts: amounts@,
            },
            State::CombineSeen { proofs, next, total, request } => FlowView::CombineSeen {
                spends: issuer.spend_views(proofs@),
                next: next as int,
                total: scalar_value(total),
                acceptable: request_accepted(issuer.params(), request),
            },
            State::CombineInsert { proofs, next, total, request } => FlowView::CombineInsert {
                spends: issuer.spend_views(proofs@),
                next: next as int,
                total: scalar_value(total),
                acceptable: request_accepted(issuer.params(), request),
            },
            State::Status => FlowView::Status,
        }
    }

    /// Whether what is remembered was made by this issuer out of this request.
    pub closed spec fn comes_from(&self, issuer: Issuer, request: Request) -> bool {
        match self.state {
            State::Spend { refund } => issuer.is_answer(request, Response::Refund(refund)),
            State::IssueHash { request: asked, nonce, hash } => {
                &&& request == Request::Issue(asked, nonce)
                &&& hash@ == nonce_hash(nonce@)
            },
            State::IssueNonce { request: asked, nonce, hash } => {
                &&& request == Request::Issue(asked, nonce)
                &&& hash@ == nonce_hash(nonce@)
            },
            State::IssueInsert { response, .. } => issuer.is_answer(
                request,
                Response::Issue(response),
            ),
            State::IssueStore { response } => issuer.is_answer(request, Response::Issue(response)),
            State::SplitSeen { proof, requests, amounts, .. } => request == Request::Split(
                proof,
                requests,
                amounts,
            ),
            State::SplitInsert { requests, amounts } => request matches Request::Split(
                _,
                asked,
                wanted,
            ) && requests == asked && amounts == wanted,
            State::CombineSeen { proofs, next, total, request: asked } => {
                &&& request == Request::Combine(proofs, asked)
                &&& scalar_value(total) == field_total(
                    issuer.spend_views(proofs@).take(next as int),
                )
            },
            State::CombineInsert { proofs, total, request: asked, .. } => {
                &&& request == Request::Combine(proofs, asked)
                &&& scalar_value(total) == field_total(issuer.spend_views(proofs@))
            },
            State::Status => request is CheckNullifier,
        }
    }
}

/// What comes next: a question to the records, or the reply.
pub enum Step {
    /// Put the query to the records, and come back with the answer.
    Ask(Flow, Query),
    /// The reply to the request.
    Reply(Result<Response, Rejection>),
}

/// What kind of reply a response is, and what it is worth.
pub open spec fn response_view(response: Response) -> ReplyView {
    match response {
        Response::Refund(_) => ReplyView::Refund,
        Response::Issue(issuance) => ReplyView::Issue(response_credits(issuance)),
        Response::PublicKey(key) => ReplyView::PublicKey(key),
        Response::Issuances(issuances) => ReplyView::Issuances(
            issuances@.map_values(|issuance: IssuanceResponse| response_credits(issuance)),
        ),
        Response::NullifierStatus(spent) => ReplyView::NullifierStatus(spent),
    }
}

/// What kind of reply the outcome of a request is.
pub open spec fn reply_view(reply: Result<Response, Rejection>) -> Result<ReplyView, Rejection> {
    match reply {
        Ok(response) => Ok(response_view(response)),
        Err(why) => Err(why),
    }
}

impl Step {
    /// What an issuer can tell of a step.
    pub open spec fn facts(&self, issuer: Issuer) -> StepView {
        match self {
            Step::Ask(flow, query) => StepView::Ask(flow.facts(issuer), query@),
            Step::Reply(reply) => StepView::Reply(reply_view(*reply)),
        }
    }

    /// Whether a step was made by this issuer out of this request.
    pub open spec fn comes_from(&self, issuer: Issuer, request: Request) -> bool {
        match self {
            Step::Ask(flow, _) => flow.comes_from(issuer, request),
            Step::Reply(Ok(response)) => issuer.is_answer(request, *response),
            Step::Reply(Err(_)) => true,
        }
    }
}

/// Adds up some amounts, where the sum fits.
pub fn total_amount(amounts: &Vec<u128>) -> (sum: Option<u128>)
    ensures
        sum matches Some(sum) ==> sum == total(amounts@),
        sum is None ==> total(amounts@) > u128::MAX,
{
    let mut sum: u128 = 0;
    let mut i: usize = 0;
    while i < amounts.len()
        invariant
            i <= amounts.len(),
            sum == total(amounts@.take(i as int)),
        decreases amounts.len() - i,
    {
        proof {
            assert(amounts@.take(i + 1).drop_last() =~= amounts@.take(i as int));
            lemma_total_grows(amounts@, i + 1);
        }
        match sum.checked_add(amounts[i]) {
            Some(next) => {
                sum = next;
            },
            None => {
                return None;
            },
        }
        i = i + 1;
    }
    assert(amounts@.take(i as int) =~= amounts@);
    Some(sum)
}

proof fn lemma_total_grows(amounts: Seq<u128>, i: int)
    requires
        0 <= i <= amounts.len(),
    ensures
        total(amounts.take(i)) <= total(amounts),
    decreases amounts.len() - i,
{
    if i == amounts.len() {
        assert(amounts.take(i) =~= amounts);
    } else {
        assert(amounts.take(i + 1).drop_last() =~= amounts.take(i));
        lemma_total_grows(amounts, i + 1);
    }
}

/// Judges the charge of a split: `None` where it is the sum of the amounts. A charge or a sum
/// that is no amount is `None` itself.
pub fn judge_charge(charge: Option<u128>, sum: Option<u128>) -> (fault: Option<Rejection>)
    ensures
        charge is None ==> fault == Some(Rejection::InvalidCharge),
        charge is Some ==> fault == if charge == sum {
            None::<Rejection>
        } else {
            Some(Rejection::ChargeMismatch)
        },
{
    match (charge, sum) {
        (None, _) => Some(Rejection::InvalidCharge),
        (Some(charge), Some(sum)) => if charge == sum {
            None
        } else {
            Some(Rejection::ChargeMismatch)
        },
        (Some(_), None) => Some(Rejection::ChargeMismatch),
    }
}

/// Judges the shape of a split: as many requests as amounts, and at least one.
pub fn judge_shape(requests: usize, amounts: usize) -> (fault: Option<Rejection>)
    ensures
        fault == if requests != amounts {
            Some(Rejection::MismatchedAmounts)
        } else if requests == 0 {
            Some(Rejection::NoIssuanceRequests)
        } else {
            None::<Rejection>
        },
{
    if requests != amounts {
        Some(Rejection::MismatchedAmounts)
    } else if requests == 0 {
        Some(Rejection::NoIssuanceRequests)
    } else {
        None
    }
}

/// Judges the insertion of the nullifier of a spend, which is not looked up before.
pub fn judge_spend(answer: Answer) -> (fault: Option<Rejection>)
    ensures
        fault == match answer {
            Answer::Added(true) => None::<Rejection>,
            Answer::Added(false) => Some(Rejection::NullifierSeen),
            _ => Some(Rejection::Internal),
        },
{
    match answer {
        Answer::Added(true) => None,
        Answer::Added(false) => Some(Rejection::NullifierSeen),
        _ => Some(Rejection::Internal),
    }
}

/// Judges the insertion of a key that was looked up before.
pub fn judge_insertion(answer: Answer) -> (fault: Option<Rejection>)
    ensures
        fault == match answer {
            Answer::Added(true) => None::<Rejection>,
            Answer::Added(false) => Some(Rejection::Inconsistent),
            _ => Some(Rejection::Internal),
        },
{
    match answer {
        Answer::Added(true) => None,
        Answer::Added(false) => Some(Rejection::Inconsistent),
        _ => Some(Rejection::Internal),
    }
}

/// Judges the look-up of a nonce, or its insertion: only a nonce that was not there will do.
pub fn judge_nonce(answer: Answer) -> (fault: Option<Rejection>)
    ensures
        fault == match answer {
            Answer::Found(false) | Answer::Added(true) => None::<Rejection>,
            Answer::Found(true) | Answer::Added(false) => Some(Rejection::PowNonceUsed),
            Answer::Failed => Some(Rejection::InternalDatabase),
        },
{
    match answer {
        Answer::Found(false) | Answer::Added(true) => None,
        Answer::Found(true) | Answer::Added(false) => Some(Rejection::PowNonceUsed),
        Answer::Failed => Some(Rejection::InternalDatabase),
    }
}

proof fn lemma_first_unset(flags: Seq<bool>, i: int)
    requires
        0 <= i < flags.len(),
        !flags[i],
        forall|j: int| 0 <= j < i ==> #[trigger] flags[j],
    ensures
        first_unset(flags) == i,
    decreases i,
{
    if i > 0 {
        let rest = flags.skip(1);
        assert forall|j: int| 0 <= j < i - 1 implies #[trigger] rest[j] by {
            assert(flags[j + 1]);
        }
        lemma_first_unset(rest, i - 1);
    }
}

/// The holder of the private key.
pub struct Issuer {
    key: PrivateKey,
    params: Params,
}

impl Issuer {
    /// The private key.
    pub closed spec fn key(&self) -> PrivateKey {
        self.key
    }

    /// The parameters of the system.
    pub closed spec fn params(&self) -> Params {
        self.params
    }

    /// What this issuer can tell of a spend.
    pub open spec fn spend_view(&self, proof: SpendProof) -> SpendView {
        SpendView {
            valid: spend_accepted(self.key(), self.params(), proof),
            nullifier: proof_nullifier(proof),
            charge: proof_charge(proof),
        }
    }

    /// What this issuer can tell of some spends.
    pub open spec fn spend_views(&self, proofs: Seq<SpendProof>) -> Seq<SpendView> {
        proofs.map_values(|proof: SpendProof| self.spend_view(proof))
    }

    /// Which of some issuance requests this issuer accepts.
    pub open spec fn accepted(&self, requests: Seq<IssuanceRequest>) -> Seq<bool> {
        requests.map_values(|request: IssuanceRequest| request_accepted(self.params(), request))
    }

    /// What this issuer can tell of a request.
    pub open spec fn request_view(&self, request: Request) -> RequestView {
        match request {
            Request::Spend(proof) => RequestView::Spend(self.spend_view(proof)),
            Request::Issue(request, nonce) => RequestView::Issue {
                acceptable: request_accepted(self.params(), request),
                nonce: nonce@,
            },
            Request::GetPublicKey => RequestView::GetPublicKey(public_half(self.key())),
            Request::Combine(proofs, request) => RequestView::Combine {
                spends: self.spend_views(proofs@),
                acceptable: request_accepted(self.params(), request),
            },
            Request::Split(proof, requests, amounts) => RequestView::Split {
                spend: self.spend_view(proof),
                accepted: self.accepted(requests@),
                amounts: amounts@,
            },
            Request::CheckNullifier(nullifier) => RequestView::CheckNullifier(nullifier@),
        }
    }

    /// Whether a response is one that this issuer can make for this request: of the right kind,
    /// signed with its key, for what was asked and with the credits that are due.
    pub open spec fn is_answer(&self, request: Request, response: Response) -> bool {
        match (request, response) {
            (Request::Spend(proof), Response::Refund(refund)) => is_refund(
                self.key(),
                self.params(),
                proof,
                refund,
            ),
            (Request::Issue(asked, nonce), Response::Issue(issuance)) => is_issuance(
                self.key(),
                self.params(),
                asked,
                credits_for_hash(nonce_hash(nonce@)),
                issuance,
            ),
            (Request::GetPublicKey, Response::PublicKey(key)) => key == public_half(self.key()),
            (Request::Combine(proofs, asked), Response::Issue(issuance)) => is_issuance(
                self.key(),
                self.params(),
                asked,
                field_total(self.spend_views(proofs@)),
                issuance,
            ),
            (Request::Split(_, asked, amounts), Response::Issuances(issuances)) => {
                &&& issuances.len() == asked.len() == amounts.len()
                &&& forall|i: int|
                    0 <= i < issuances.len() ==> is_issuance(
                        self.key(),
                        self.params(),
                        asked@[i],
                        amounts@[i] as nat,
                        #[trigger] issuances@[i],
                    )
            },
            (Request::CheckNullifier(_), Response::NullifierStatus(_)) => true,
            _ => false,
        }
    }

    /// An issuer with this key and the parameters of the system.
    pub fn new(key: PrivateKey) -> (issuer: Issuer)
        ensures
            issuer.key() == key,
            issuer.params() == derived_params(params_seed()),
    {
        Issuer { key, params: system_params() }
    }

    /// Whether a spend's proof holds.
    fn verify(&self, proof: &SpendProof) -> (valid: bool)
        ensures
            valid == self.spend_view(*proof).valid,
    {
        scheme::refund(&self.key, &self.params, proof).is_some()
    }

    fn combine_next(
        &self,
        proofs: Vec<SpendProof>,
        next: usize,
        total: Scalar,
        request: IssuanceRequest,
    ) -> (step: Step)
        requires
            next <= proofs.len(),
            proofs.len() > 0,
        ensures
            step.facts(*self) == combine_step(
                self.spend_views(proofs@),
                next as int,
                scalar_value(total),
                request_accepted(self.params(), request),
            ),
            scalar_value(total) == field_total(self.spend_views(proofs@).take(next as int))
                ==> step.comes_from(*self, Request::Combine(proofs, request)),
    {
        assert(next == proofs.len() ==> self.spend_views(proofs@).take(next as int)
            =~= self.spend_views(proofs@));
        if next < proofs.len() {
            if !self.verify(&proofs[next]) {
                return Step::Reply(Err(Rejection::InvalidSpendProof));
            }
            let nullifier = scheme::nullifier_of_proof(&proofs[next]);
            let flow = Flow { state: State::CombineSeen { proofs, next, total, request } };
            return Step::Ask(flow, Query::HasNullifier(nullifier));
        }
        if scheme::scalar_amount(&total).is_none() {
            return Step::Reply(Err(Rejection::TooManyCredits));
        }
        let nullifier = scheme::nullifier_of_proof(&proofs[0]);
        let flow = Flow { state: State::CombineInsert { proofs, next: 0, total, request } };
        Step::Ask(flow, Query::AddNullifier(nullifier))
    }

    /// Begins to work off a request.
    pub fn start(&self, request: Request) -> (step: Step)
        ensures
            step.facts(*self) == first_step(self.request_view(request)),
            step.comes_from(*self, request),
    {
        match request {
            Request::Spend(proof) => match scheme::refund(&self.key, &self.params, &proof) {
                Some(refund) => {
                    let nullifier = scheme::nullifier_of_proof(&proof);
                    Step::Ask(
                        Flow { state: State::Spend { refund } },
                        Query::AddNullifier(nullifier),
                    )
                },
                None => Step::Reply(Err(Rejection::BadSpendProof)),
            },
            Request::Issue(request, nonce) => {
                let hash = pow_hash(&nonce);
                Step::Ask(
                    Flow { state: State::IssueHash { request, nonce, hash } },
                    Query::HasPowHash(hash),
                )
            },
            Request::GetPublicKey => Step::Reply(
                Ok(Response::PublicKey(scheme::public_key(&self.key))),
            ),
            Request::Combine(proofs, request) => {
                if proofs.len() == 0 {
                    return Step::Reply(Err(Rejection::NoSpendProofs));
                }
                self.combine_next(proofs, 0, scheme::scalar_from(0), request)
            },
            Request::Split(proof, requests, amounts) => {
                if let Some(why) = judge_shape(requests.len(), amounts.len()) {
                    return Step::Reply(Err(why));
                }
                let sum = total_amount(&amounts);
                if !self.verify(&proof) {
                    return Step::Reply(Err(Rejection::InvalidSpendProof));
                }
                let nullifier = scheme::nullifier_of_proof(&proof);
                Step::Ask(
                    Flow { state: State::SplitSeen { proof, requests, amounts, sum } },
                    Query::HasNullifier(nullifier),
                )
            },
            Request::CheckNullifier(nullifier) => Step::Ask(
                Flow { state: State::Status },
                Query::HasNullifier(nullifier),
            ),
        }
    }

    /// Issues one token for each request, with the credits beside it.
    fn issue_all(&self, requests: &Vec<IssuanceRequest>, amounts: &Vec<u128>) -> (issued: Result<
        Vec<IssuanceResponse>,
        Rejection,
    >)
        requires
            requests.len() == amounts.len(),
        ensures
            issued is Ok <==> all_set(self.accepted(requests@)),
            issued matches Err(why) ==> why == Rejection::InvalidRequestAt(
                first_unset(self.accepted(requests@)) as usize,
            ),
            issued matches Ok(responses) ==> {
                &&& responses@.map_values(|r: IssuanceResponse| response_credits(r))
                    == amounts_as_nats(amounts@)
                &&& responses.len() == requests.len()
                &&& forall|i: int|
                    0 <= i < responses.len() ==> is_issuance(
                        self.key(),
                        self.params(),
                        requests@[i],
                        amounts@[i] as nat,
                        #[trigger] responses@[i],
                    )
            },
    {
        let mut responses: Vec<IssuanceResponse> = Vec::new();
        let mut i: usize = 0;
        let ghost flags = self.accepted(requests@);
        while i < requests.len()
            invariant
                i <= requests.len() == amounts.len(),
                responses.len() == i,
                flags == self.accepted(requests@),
                forall|j: int| 0 <= j < i ==> #[trigger] flags[j],
                forall|j: int|
                    0 <= j < i ==> response_credits(#[trigger] responses@[j]) == amounts@[j],
                forall|j: int|
                    0 <= j < i ==> is_issuance(
                        self.key(),
                        self.params(),
                        requests@[j],
                        amounts@[j] as nat,
                        #[trigger] responses@[j],
                    ),
            decreases requests.len() - i,
        {
            let credits = scheme::scalar_from(amounts[i]);
            match scheme::issue(&self.key, &self.params, &requests[i], credits) {
                Some(response) => {
                    responses.push(response);
                },
                None => {
                    proof {
                        assert(!flags[i as int]);
                        lemma_first_unset(flags, i as int);
                    }
                    return Err(Rejection::InvalidRequestAt(i));
                },
            }
            i = i + 1;
        }
        assert(responses@.map_values(|r: IssuanceResponse| response_credits(r)) =~= amounts_as_nats(
            amounts@,
        ));
        Ok(responses)
    }

    /// Whether `resume` takes an answer for a flow.
    pub fn accepts(&self, flow: &Flow, answer: Answer) -> (yes: bool)
        ensures
            yes == fits(flow.facts(*self), answer),
    {
        match (&flow.state, answer) {
            (
                State::IssueHash { .. }
                | State::SplitSeen { .. }
                | State::CombineSeen { .. }
                | State::Status,
                Answer::Found(_),
            ) => true,
            (State::IssueNonce { .. }, Answer::Found(_) | Answer::Failed) => true,
            (
                State::Spend { .. }
                | State::IssueInsert { .. }
                | State::IssueStore { .. }
                | State::SplitInsert { .. }
                | State::CombineInsert { .. },
                Answer::Added(_) | Answer::Failed,
            ) => true,
            _ => false,
        }
    }

    /// Works a request further off, with the answer of the records to the query that came with
    /// the flow.
    pub fn resume(&self, flow: Flow, answer: Answer) -> (step: Step)
        requires
            fits(flow.facts(*self), answer),
        ensures
            step.facts(*self) == next_step(flow.facts(*self), answer),
            forall|request: Request|
                flow.comes_from(*self, request) ==> #[trigger] step.comes_from(*self, request),
    {
        proof {
            use_type_invariant(&flow);
        }
        match flow.state {
            State::Spend { refund } => match judge_spend(answer) {
                Some(why) => Step::Reply(Err(why)),
                None => Step::Reply(Ok(Response::Refund(refund))),
            },
            State::IssueHash { request, nonce, hash } => {
                if answer == Answer::Found(true) {
                    return Step::Reply(Err(Rejection::PowHashUsed));
                }
                Step::Ask(
                    Flow { state: State::IssueNonce { request, nonce, hash } },
                    Query::HasNonce(nonce),
                )
            },
            State::IssueNonce { request, nonce, hash } => match judge_nonce(answer) {
                Some(why) => Step::Reply(Err(why)),
                None => {
                    let credits = scheme::scalar_from(credits_for(leading_zeros(&hash)));
                    match scheme::issue(&self.key, &self.params, &request, credits) {
                        Some(response) => Step::Ask(
                            Flow { state: State::IssueInsert { response, nonce } },
                            Query::AddPowHash(hash),
                        ),
                        None => Step::Reply(Err(Rejection::InvalidIssuanceProof)),
                    }
                },
            },
            State::IssueInsert { response, nonce } => match judge_insertion(answer) {
                Some(why) => Step::Reply(Err(why)),
                None => Step::Ask(
                    Flow { state: State::IssueStore { response } },
                    Query::AddNonce(nonce),
                ),
            },
            State::IssueStore { response } => match judge_nonce(answer) {
                Some(why) => Step::Reply(Err(why)),
                None => Step::Reply(Ok(Response::Issue(response))),
            },
            State::SplitSeen { proof, requests, amounts, sum } => {
                if answer == Answer::Found(true) {
                    return Step::Reply(Err(Rejection::NullifierSeen));
                }
                let charge = scheme::scalar_amount(&scheme::charge_of_proof(&proof));
                match judge_charge(charge, sum) {
                    Some(why) => Step::Reply(Err(why)),
                    None => {
                        let nullifier = scheme::nullifier_of_proof(&proof);
                        Step::Ask(
                            Flow { state: State::SplitInsert { requests, amounts } },
                            Query::AddNullifier(nullifier),
                        )
                    },
                }
            },
            State::SplitInsert { requests, amounts } => match judge_insertion(answer) {
                Some(why) => Step::Reply(Err(why)),
                None => match self.issue_all(&requests, &amounts) {
                    Ok(responses) => Step::Reply(Ok(Response::Issuances(responses))),
                    Err(why) => Step::Reply(Err(why)),
                },
            },
            State::CombineSeen { proofs, next, total, request } => {
                if answer == Answer::Found(true) {
                    return Step::Reply(Err(Rejection::NullifierSeen));
                }
                let sum = scheme::scalar_sum(&total, &scheme::charge_of_proof(&proofs[next]));
                proof {
                    let spends = self.spend_views(proofs@);
                    assert(spends.take(next + 1).drop_last() =~= spends.take(next as int));
                }
                self.combine_next(proofs, next + 1, sum, request)
            },
            State::CombineInsert { proofs, next, total, request } => match judge_insertion(answer) {
                Some(why) => Step::Reply(Err(why)),
                None => {
                    if next + 1 < proofs.len() {
                        let nullifier = scheme::nullifier_of_proof(&proofs[next + 1]);
                        let state = State::CombineInsert { proofs, next: next + 1, total, request };
                        return Step::Ask(Flow { state }, Query::AddNullifier(nullifier));
                    }
                    match scheme::issue(&self.key, &self.params, &request, total) {
                        Some(response) => Step::Reply(Ok(Response::Issue(response))),
                        None => Step::Reply(Err(Rejection::InvalidIssuanceRequest)),
                    }
                },
            },
            State::Status => Step::Reply(
                Ok(Response::NullifierStatus(answer == Answer::Found(true))),
            ),
        }
    }
}

} // verus!
