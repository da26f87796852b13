//! The client side: what a client sends for each operation, and what it makes of the answers.
//!
//! An operation runs in steps. Each step says what to do next: send a request and come back with
//! the response, search for a proof of work and come back with the nonce, or stop with the
//! outcome.

use crate::protocol::{ClientError, Request, Response};
use crate::scheme;
use crate::scheme::{
    credits_left, derived_params, field_order, is_request, is_spend, issued_token, proof_charge,
    proof_nullifier, refunded_token, request_accepted, response_credits, token_credits,
    token_nullifier,
};
use crate::server::{params_seed, system_params, total, total_amount};
use crate::text::{decimal, decimal_text, join2, join4, join5};
use anonymous_credit_tokens::{
    CreditToken, IssuanceRequest, IssuanceResponse, Params, PreIssuance, PreRefund, PublicKey,
    SpendProof,
};
use vstd::prelude::*;

verus! {

/// The value of a token: its credits, or nothing where they are no amount.
pub open spec fn token_value(token: CreditToken) -> u128 {
    if token_credits(token) <= u128::MAX {
        token_credits(token) as u128
    } else {
        0
    }
}

/// What the system adds to the tokens of the scheme.
pub trait CreditTokenExt {
    /// The value, in the model.
    spec fn value(&self) -> u128;

    /// The value of the token.
    fn get_value(&self) -> (value: u128)
        ensures
            value == self.value(),
    ;
}

impl CreditTokenExt for CreditToken {
    open spec fn value(&self) -> u128 {
        token_value(*self)
    }

    fn get_value(&self) -> (value: u128) {
        let credits = scheme::credits_of_token(self);
        scheme::scalar_amount(&credits).unwrap_or(0)
    }
}

/// The nullifier of a token, by which the server knows it once it is spent.
pub fn nullifier_bytes(token: &CreditToken) -> (nullifier: [u8; 32])
    ensures
        nullifier@ == token_nullifier(*token),
{
    scheme::nullifier_of_token(token)
}

/// What a client is asked to do.
pub enum Operation {
    /// Get the server's public key.
    PublicKey,
    /// Split a token into tokens with the given amounts.
    Split { token: CreditToken, amounts: Vec<u128> },
    /// Combine tokens into one.
    Combine { tokens: Vec<CreditToken> },
    /// Have a token issued for a proof of work.
    Issue { bits: u32 },
    /// Spend an amount from a token.
    Spend { token: CreditToken, amount: u128 },
}

/// The secrets of one issuance, and the request made from them.
pub struct Part {
    pub pre_issuance: PreIssuance,
    pub request: IssuanceRequest,
}

/// What a client remembers while the server works on its request.
pub enum Waiting {
    /// The public key was asked for; this operation needs it.
    Key(Operation),
    /// One token is to be issued.
    Issuance { key: PublicKey, part: Part },
    /// Several tokens are to be issued.
    Issuances { key: PublicKey, parts: Vec<Part> },
    /// A spend is to be refunded.
    Refund { key: PublicKey, pre_refund: PreRefund, proof: SpendProof },
    /// The status of a nullifier was asked for.
    Status,
}

/// What an operation gives.
pub enum Outcome {
    PublicKey(PublicKey),
    Token(CreditToken),
    Tokens(Vec<CreditToken>),
    NullifierSpent(bool),
}

/// What a client does next.
pub enum ClientStep {
    /// Send the request, and come back with the response.
    Send(Request, Waiting),
    /// Search for a nonce that solves a puzzle of this difficulty, and come back with it.
    Mine { bits: u32, key: PublicKey, part: Part },
    /// Stop.
    Done(Result<Outcome, ClientError>),
}

/// Whether a part was made with these parameters, so that its request is acceptable.
pub open spec fn is_part(params: Params, part: Part) -> bool {
    &&& is_request(part.pre_issuance, params, part.request)
    &&& request_accepted(params, part.request)
}

/// Whether a proof spends this amount of this token.
pub open spec fn spends_token(
    params: Params,
    token: CreditToken,
    amount: nat,
    proof: SpendProof,
) -> bool {
    &&& proof_nullifier(proof) == token_nullifier(token)
    &&& proof_charge(proof) == amount
    &&& exists|pre_refund: PreRefund| is_spend(token, params, amount, proof, pre_refund)
}

/// Whether proofs spend the whole value of these tokens, one for one.
pub open spec fn spend_tokens(
    params: Params,
    tokens: Seq<CreditToken>,
    proofs: Seq<SpendProof>,
) -> bool {
    &&& proofs.len() == tokens.len()
    &&& forall|i: int|
        0 <= i < proofs.len() ==> spends_token(
            params,
            tokens[i],
            token_value(tokens[i]) as nat,
            #[trigger] proofs[i],
        )
}

/// Whether a step is the right one for a operation, with the server's public key at hand.
pub open spec fn carries_out(params: Params, key: PublicKey, operation: Operation, step: ClientStep) -> bool {
    match operation {
        Operation::PublicKey => step == ClientStep::Done(Ok(Outcome::PublicKey(key))),
        Operation::Split { token, amounts } => {
            &&& step matches ClientStep::Send(
                Request::Split(proof, requests, wanted),
                Waiting::Issuances { key: at_hand, parts },
            )
            &&& at_hand == key
            &&& wanted@ == amounts@
            &&& spends_token(params, token, token_value(token) as nat, proof)
            &&& parts.len() == amounts.len()
            &&& requests@ == parts@.map_values(|part: Part| part.request)
            &&& forall|i: int| 0 <= i < parts.len() ==> is_part(params, #[trigger] parts@[i])
        },
        Operation::Combine { tokens } => {
            &&& step matches ClientStep::Send(
                Request::Combine(proofs, request),
                Waiting::Issuance { key: at_hand, part },
            )
            &&& at_hand == key
            &&& spend_tokens(params, tokens@, proofs@)
            &&& request == part.request
            &&& is_part(params, part)
        },
        Operation::Issue { bits } => {
            &&& step matches ClientStep::Mine { bits: difficulty, key: at_hand, part }
            &&& at_hand == key
            &&& difficulty == bits
            &&& is_part(params, part)
        },
        Operation::Spend { token, amount } => {
            &&& step matches ClientStep::Send(
                Request::Spend(sent),
                Waiting::Refund { key: at_hand, pre_refund, proof },
            )
            &&& at_hand == key
            &&& sent == proof
            &&& proof_nullifier(proof) == token_nullifier(token)
            &&& proof_charge(proof) == amount
            &&& is_spend(token, params, amount as nat, proof, pre_refund)
            &&& credits_left(pre_refund) as int == (token_credits(token) - amount)
                % field_order() as int
        },
    }
}

/// Whether a step stops with this error.
pub open spec fn fails_with(step: ClientStep, error: ClientError) -> bool {
    step == ClientStep::Done(Err(error))
}

/// Whether a step stops because the user asked for what cannot be done, with this text.
pub open spec fn refuses(step: ClientStep, text: Seq<char>) -> bool {
    step matches ClientStep::Done(Err(ClientError::Interaction(detail))) && detail@ == text
}

/// A sum of amounts in words: the number itself, or that it is more than an amount can be.
pub open spec fn sum_wording(sum: nat) -> Seq<char> {
    if sum <= u128::MAX {
        decimal(sum)
    } else {
        "more than "@ + decimal(u128::MAX as nat)
    }
}

/// The text for amounts that do not add up to the value of the token to be split.
pub open spec fn split_mismatch(sum: nat, value: nat) -> Seq<char> {
    "Total amount ("@ + sum_wording(sum) + ") does not match token value ("@ + decimal(value)
        + ")"@
}

/// Whether a step stops with the token of a response, or with `InvalidToken` where the response
/// does not make one.
pub open spec fn settles_issuance(
    params: Params,
    key: PublicKey,
    part: Part,
    response: IssuanceResponse,
    step: ClientStep,
) -> bool {
    match issued_token(part.pre_issuance, params, key, part.request, response) {
        Some(token) => {
            &&& step == ClientStep::Done(Ok(Outcome::Token(token)))
            &&& token_credits(token) == response_credits(response)
        },
        None => fails_with(step, ClientError::InvalidToken),
    }
}

/// What the response at an index makes of the part at that index.
pub open spec fn nth_token(
    params: Params,
    key: PublicKey,
    parts: Seq<Part>,
    responses: Seq<IssuanceResponse>,
    i: int,
) -> Option<CreditToken> {
    issued_token(parts[i].pre_issuance, params, key, parts[i].request, responses[i])
}

/// Whether a step stops with one token for each part, or with `InvalidToken` where a response
/// does not make one.
pub open spec fn settles_issuances(
    params: Params,
    key: PublicKey,
    parts: Seq<Part>,
    responses: Seq<IssuanceResponse>,
    step: ClientStep,
) -> bool {
    if forall|i: int|
        0 <= i < parts.len() ==> #[trigger] nth_token(params, key, parts, responses, i) is Some {
        &&& step matches ClientStep::Done(Ok(Outcome::Tokens(tokens)))
        &&& tokens.len() == parts.len()
        &&& forall|i: int|
            #![trigger tokens@[i]]
            0 <= i < tokens.len() ==> nth_token(params, key, parts, responses, i) == Some(
                tokens@[i],
            ) && token_credits(tokens@[i]) == response_credits(responses[i])
    } else {
        fails_with(step, ClientError::InvalidToken)
    }
}

/// Whether a step is the right one after a response. The client keeps a public key that arrives.
pub open spec fn settles(
    params: Params,
    waiting: Waiting,
    response: Response,
    step: ClientStep,
) -> bool {
    match (waiting, response) {
        (Waiting::Key(operation), Response::PublicKey(key)) => carries_out(params, key, operation, step),
        (Waiting::Issuance { key, part }, Response::Issue(issuance)) => settles_issuance(
            params,
            key,
            part,
            issuance,
            step,
        ),
        (Waiting::Issuances { key, parts }, Response::Issuances(issuances)) => if issuances.len()
            == parts.len() {
            settles_issuances(params, key, parts@, issuances@, step)
        } else {
            fails_with(step, ClientError::InvalidResponse)
        },
        // A single issuance stands for all of them.
        (Waiting::Issuances { key, parts }, Response::Issue(issuance)) => settles_issuances(
            params,
            key,
            parts@,
            Seq::new(parts@.len(), |i: int| issuance),
            step,
        ),
        (Waiting::Refund { key, pre_refund, proof }, Response::Refund(refund)) => {
            match refunded_token(pre_refund, params, proof, refund, key) {
                Some(token) => {
                    &&& step == ClientStep::Done(Ok(Outcome::Token(token)))
                    &&& token_credits(token) == credits_left(pre_refund)
                },
                None => fails_with(step, ClientError::InvalidToken),
            }
        },
        (Waiting::Status, Response::NullifierStatus(spent)) => step == ClientStep::Done(
            Ok(Outcome::NullifierSpent(spent)),
        ),
        _ => fails_with(step, ClientError::InvalidResponse),
    }
}

/// The public key that a client knows after a response.
pub open spec fn key_after(
    known: Option<PublicKey>,
    waiting: Waiting,
    response: Response,
) -> Option<PublicKey> {
    match (waiting, response) {
        (Waiting::Key(_), Response::PublicKey(key)) => Some(key),
        _ => known,
    }
}

/// A client of one server.
pub struct Client {
    server_url: String,
    params: Params,
    server_public_key: Option<PublicKey>,
}

impl Client {
    /// The address of the server.
    pub closed spec fn url(&self) -> Seq<char> {
        self.server_url@
    }

    /// The parameters of the system.
    pub closed spec fn params(&self) -> Params {
        self.params
    }

    /// The server's public key, once it is known.
    pub closed spec fn known_key(&self) -> Option<PublicKey> {
        self.server_public_key
    }

    /// Whether a step is the right one to begin a operation with: to ask for the public key where it
    /// is not known, else to carry the operation out.
    pub open spec fn begins(&self, operation: Operation, step: ClientStep) -> bool {
        match self.known_key() {
            Some(key) => carries_out(self.params(), key, operation, step),
            None => step == ClientStep::Send(Request::GetPublicKey, Waiting::Key(operation)),
        }
    }

    /// A client of the server at this address, which does not know the public key yet.
    pub fn new(server_url: String) -> (client: Client)
        ensures
            client.url() == server_url@,
            client.params() == derived_params(params_seed()),
            client.known_key() is None,
    {
        Client { server_url, params: system_params(), server_public_key: None }
    }

    /// The address of the server.
    pub fn server_url(&self) -> (url: &str)
        ensures
            url@ == self.url(),
    {
        self.server_url.as_str()
    }

    /// The address to which requests are sent: `token` below the address of the server, with a
    /// slash between them unless that address ends in one.
    pub fn token_url(&self) -> (url: String)
        ensures
            url@ == if self.url().len() > 0 && self.url().last() == '/' {
                self.url() + "token"@
            } else {
                self.url() + "/token"@
            },
    {
        let base = self.server_url.as_str();
        let len: usize = base.unicode_len();
        if len > 0 && base.get_char(len - 1) == '/' {
            join2(base, "token")
        } else {
            join2(base, "/token")
        }
    }

    fn new_part(&self) -> (part: Part)
        ensures
            is_part(self.params(), part),
    {
        let pre_issuance = scheme::random_pre_issuance();
        let request = scheme::issuance_request(&pre_issuance, &self.params);
        Part { pre_issuance, request }
    }

    fn spend_proof(&self, token: &CreditToken) -> (proof: SpendProof)
        ensures
            spends_token(self.params(), *token, token_value(*token) as nat, proof),
    {
        let value = scheme::scalar_from(token.get_value());
        let (proof, _pre_refund) = scheme::prove_spend(token, &self.params, value);
        proof
    }

    fn carry_out(&self, operation: Operation, key: PublicKey) -> (step: ClientStep)
        ensures
            carries_out(self.params(), key, operation, step),
    {
        match operation {
            Operation::PublicKey => ClientStep::Done(Ok(Outcome::PublicKey(key))),
            Operation::Split { token, amounts } => {
                let proof = self.spend_proof(&token);
                let mut parts: Vec<Part> = Vec::new();
                let mut requests: Vec<IssuanceRequest> = Vec::new();
                let mut i: usize = 0;
                while i < amounts.len()
                    invariant
                        i <= amounts.len(),
                        parts.len() == i,
                        requests.len() == i,
                        forall|j: int| 0 <= j < i ==> is_part(self.params(), #[trigger] parts@[j]),
                        forall|j: int|
                            0 <= j < i ==> #[trigger] requests@[j] == parts@[j].request,
                    decreases amounts.len() - i,
                {
                    let part = self.new_part();
                    requests.push(part.request.clone());
                    parts.push(part);
                    i = i + 1;
                }
                assert(requests@ =~= parts@.map_values(|part: Part| part.request));
                ClientStep::Send(
                    Request::Split(proof, requests, amounts),
                    Waiting::Issuances { key, parts },
                )
            },
            Operation::Combine { tokens } => {
                let mut proofs: Vec<SpendProof> = Vec::new();
                let mut i: usize = 0;
                while i < tokens.len()
                    invariant
                        i <= tokens.len(),
                        proofs.len() == i,
                        forall|j: int|
                            0 <= j < i ==> spends_token(
                                self.params(),
                                tokens@[j],
                                token_value(tokens@[j]) as nat,
                                #[trigger] proofs@[j],
                            ),
                    decreases tokens.len() - i,
                {
                    let proof = self.spend_proof(&tokens[i]);
                    proofs.push(proof);
                    i = i + 1;
                }
                let part = self.new_part();
                ClientStep::Send(
                    Request::Combine(proofs, part.request.clone()),
                    Waiting::Issuance { key, part },
                )
            },
            Operation::Issue { bits } => ClientStep::Mine { bits, key, part: self.new_part() },
            Operation::Spend { token, amount } => {
                let scalar = scheme::scalar_from(amount);
                let (proof, pre_refund) = scheme::prove_spend(&token, &self.params, scalar);
                ClientStep::Send(
                    Request::Spend(proof.clone()),
                    Waiting::Refund { key, pre_refund, proof },
                )
            },
        }
    }

    fn begin(&self, operation: Operation) -> (step: ClientStep)
        ensures
            self.begins(operation, step),
    {
        match &self.server_public_key {
            Some(key) => self.carry_out(operation, key.clone()),
            None => ClientStep::Send(Request::GetPublicKey, Waiting::Key(operation)),
        }
    }

    /// Begins to get the server's public key: nothing is sent where it is known already.
    pub fn get_public_key(&self) -> (step: ClientStep)
        ensures
            self.begins(Operation::PublicKey, step),
    {
        self.begin(Operation::PublicKey)
    }

    /// Begins to split a token into tokens with the given amounts. Where they do not add up to
    /// its value, nothing is sent; that includes a sum that no amount can be.
    pub fn split_token(&self, token: CreditToken, amounts: Vec<u128>) -> (step: ClientStep)
        ensures
            amounts.len() == 0 ==> refuses(step, "No amounts provided for splitting"@),
            amounts.len() > 0 && total(amounts@) != token_value(token) ==> refuses(
                step,
                split_mismatch(total(amounts@), token_value(token) as nat),
            ),
            amounts.len() > 0 && total(amounts@) == token_value(token) ==> self.begins(
                Operation::Split { token, amounts },
                step,
            ),
    {
        if amounts.len() == 0 {
            return ClientStep::Done(
                Err(ClientError::Interaction(String::from_str("No amounts provided for splitting"))),
            );
        }
        let sum = total_amount(&amounts);
        let value: u128 = token.get_value();
        if sum_differs(sum, value) {
            return ClientStep::Done(Err(ClientError::Interaction(split_mismatch_text(sum, value))));
        }
        self.begin(Operation::Split { token, amounts })
    }

    /// Begins to combine tokens into one with their value.
    pub fn combine_tokens(&self, tokens: Vec<CreditToken>) -> (step: ClientStep)
        ensures
            tokens.len() == 0 ==> refuses(step, "No tokens provided for combining"@),
            tokens.len() > 0 ==> self.begins(Operation::Combine { tokens }, step),
    {
        if tokens.len() == 0 {
            return ClientStep::Done(
                Err(ClientError::Interaction(String::from_str("No tokens provided for combining"))),
            );
        }
        self.begin(Operation::Combine { tokens })
    }

    /// Begins to have a token issued for a proof of work.
    pub fn issue_new_token(&self, bits: u32) -> (step: ClientStep)
        ensures
            self.begins(Operation::Issue { bits }, step),
    {
        self.begin(Operation::Issue { bits })
    }

    /// Begins to spend an amount from a token.
    pub fn spend(&self, token: CreditToken, amount: u128) -> (step: ClientStep)
        ensures
            self.begins(Operation::Spend { token, amount }, step),
    {
        self.begin(Operation::Spend { token, amount })
    }

    /// Begins to ask the server whether a nullifier has been spent.
    pub fn is_nullifier_spent(&self, nullifier: &[u8; 32]) -> (step: ClientStep)
        ensures
            step == ClientStep::Send(Request::CheckNullifier(*nullifier), Waiting::Status),
    {
        ClientStep::Send(Request::CheckNullifier(*nullifier), Waiting::Status)
    }

    /// Goes on with the nonce that the search for a proof of work has found, if it has.
    pub fn mined(&self, key: PublicKey, part: Part, nonce: Option<[u8; 32]>) -> (step: ClientStep)
        ensures
            nonce matches Some(nonce) ==> step == ClientStep::Send(
                Request::Issue(part.request, nonce),
                Waiting::Issuance { key, part },
            ),
            nonce is None ==> fails_with(step, ClientError::PowFailed),
    {
        match nonce {
            Some(nonce) => ClientStep::Send(
                Request::Issue(part.request.clone(), nonce),
                Waiting::Issuance { key, part },
            ),
            None => ClientStep::Done(Err(ClientError::PowFailed)),
        }
    }

    fn token_step(
        &self,
        key: &PublicKey,
        part: &Part,
        response: &IssuanceResponse,
    ) -> (step: ClientStep)
        ensures
            settles_issuance(self.params(), *key, *part, *response, step),
    {
        let made = scheme::token_from_issuance(
            &part.pre_issuance,
            &self.params,
            key,
            &part.request,
            response,
        );
        token_outcome(made)
    }

    fn tokens_step(
        &self,
        key: &PublicKey,
        parts: &Vec<Part>,
        responses: &Vec<IssuanceResponse>,
    ) -> (step: ClientStep)
        requires
            responses.len() == parts.len() || responses.len() == 1,
        ensures
            settles_issuances(
                self.params(),
                *key,
                parts@,
                if responses.len() == parts.len() {
                    responses@
                } else {
                    Seq::new(parts@.len(), |i: int| responses@[0])
                },
                step,
            ),
    {
        let ghost answers: Seq<IssuanceResponse> = if responses.len() == parts.len() {
            responses@
        } else {
            Seq::new(parts@.len(), |i: int| responses@[0])
        };
        let mut tokens: Vec<CreditToken> = Vec::new();
        let mut i: usize = 0;
        while i < parts.len()
            invariant
                i <= parts.len(),
                tokens.len() == i,
                responses.len() == parts.len() || responses.len() == 1,
                answers == if responses.len() == parts.len() {
                    responses@
                } else {
                    Seq::new(parts@.len(), |i: int| responses@[0])
                },
                forall|j: int|
                    #![trigger tokens@[j]]
                    #![trigger nth_token(self.params(), *key, parts@, answers, j)]
                    0 <= j < i ==> nth_token(self.params(), *key, parts@, answers, j) == Some(
                        tokens@[j],
                    ) && token_credits(tokens@[j]) == response_credits(answers[j]),
            decreases parts.len() - i,
        {
            let at: usize = if responses.len() == parts.len() {
                i
            } else {
                0
            };
            assert(answers[i as int] == responses@[at as int]);
            match scheme::token_from_issuance(
                &parts[i].pre_issuance,
                &self.params,
                key,
                &parts[i].request,
                &responses[at],
            ) {
                Some(token) => {
                    tokens.push(token);
                },
                None => {
                    assert(nth_token(self.params(), *key, parts@, answers, i as int) is None);
                    return ClientStep::Done(Err(ClientError::InvalidToken));
                },
            }
            i = i + 1;
        }
        ClientStep::Done(Ok(Outcome::Tokens(tokens)))
    }

    /// Goes on with the server's response.
    pub fn receive(&mut self, waiting: Waiting, response: Response) -> (step: ClientStep)
        ensures
            settles(old(self).params(), waiting, response, step),
            final(self).params() == old(self).params(),
            final(self).url() == old(self).url(),
            final(self).known_key() == key_after(old(self).known_key(), waiting, response),
    {
        match (waiting, response) {
            (Waiting::Key(operation), Response::PublicKey(key)) => {
                self.server_public_key = Some(key.clone());
                self.carry_out(operation, key)
            },
            (Waiting::Issuance { key, part }, Response::Issue(issuance)) => self.token_step(
                &key,
                &part,
                &issuance,
            ),
            (Waiting::Issuances { key, parts }, Response::Issuances(issuances)) => {
                if issuances.len() != parts.len() {
                    return ClientStep::Done(Err(ClientError::InvalidResponse));
                }
                self.tokens_step(&key, &parts, &issuances)
            },
            (Waiting::Issuances { key, parts }, Response::Issue(issuance)) => {
                let mut responses: Vec<IssuanceResponse> = Vec::new();
                responses.push(issuance);
                let step = self.tokens_step(&key, &parts, &responses);
                assert(responses.len() == parts.len() ==> responses@ =~= Seq::new(
                    parts@.len(),
                    |i: int| issuance,
                ));
                step
            },
            (Waiting::Refund { key, pre_refund, proof }, Response::Refund(refund)) => {
                let made =
                    scheme::token_from_refund(&pre_refund, &self.params, &proof, &refund, &key);
                token_outcome(made)
            },
            (Waiting::Status, Response::NullifierStatus(spent)) => ClientStep::Done(
                Ok(Outcome::NullifierSpent(spent)),
            ),
            _ => ClientStep::Done(Err(ClientError::InvalidResponse)),
        }
    }
}

/// How an operation ends that makes one token, where it could be made.
pub fn token_outcome(made: Option<CreditToken>) -> (step: ClientStep)
    ensures
        step == match made {
            Some(token) => ClientStep::Done(Ok(Outcome::Token(token))),
            None => ClientStep::Done(Err(ClientError::InvalidToken)),
        },
{
    match made {
        Some(token) => ClientStep::Done(Ok(Outcome::Token(token))),
        None => ClientStep::Done(Err(ClientError::InvalidToken)),
    }
}

/// Whether amounts with this sum, which is `None` where it is no amount, miss a value.
pub fn sum_differs(sum: Option<u128>, value: u128) -> (differs: bool)
    ensures
        differs == (sum != Some(value)),
{
    match sum {
        Some(sum) => sum != value,
        None => true,
    }
}

/// The text for amounts that do not add up to the value of the token to be split. A sum that is
/// no amount is `None`.
pub fn split_mismatch_text(sum: Option<u128>, value: u128) -> (text: String)
    ensures
        sum matches Some(sum) ==> text@ == split_mismatch(sum as nat, value as nat),
        sum is None ==> forall|sum: nat|
            sum > u128::MAX ==> text@ == #[trigger] split_mismatch(sum, value as nat),
{
    let wording = match sum {
        Some(sum) => decimal_text(sum),
        None => join2("more than ", decimal_text(u128::MAX).as_str()),
    };
    join5(
        "Total amount (",
        wording.as_str(),
        ") does not match token value (",
        decimal_text(value).as_str(),
        ")",
    )
}

/// The error for a request that the server has refused, with its status and, where it could be
/// read, its text.
pub fn server_error(status: &str, text: Option<String>) -> (error: ClientError)
    ensures
        error matches ClientError::Network(detail) && detail@ == "Server error: "@ + status@
            + " - "@ + match text {
            Some(text) => text@,
            None => "Unknown error"@,
        },
{
    let detail = match text {
        Some(text) => join4("Server error: ", status, " - ", text.as_str()),
        None => join4("Server error: ", status, " - ", "Unknown error"),
    };
    ClientError::Network(detail)
}

} // verus!
