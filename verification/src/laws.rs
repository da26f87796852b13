//! What holds of clients and the server together: what becomes of the value of a token when it
//! is spent, split or combined.

use crate::client::{
    carries_out, is_part, key_after, nth_token, server_error, settles, spends_token, token_value,
    Client, ClientStep, Operation, Outcome, Part, Waiting,
};
use crate::pow::{credits_for_hash, law_work_is_paid, nonce_hash, solves};
use crate::protocol::{ClientError, Rejection, Request, Response};
use crate::scheme::{
    field_order, issued_token, proof_charge, proof_nullifier, refunded_token, response_credits,
    token_credits, token_nullifier,
};
use crate::server::issuer::{response_view, Issuer};
use crate::server::laws::{
    charges, distinct_nullifiers, fresh_from, law_combine, law_combine_conserves_credits,
    law_granted_spend_is_recorded, law_issue, law_spent_token_is_refused, law_split,
    lemma_field_total_is_sum, lemma_total_is_sum, records_after, reply_to, spends, sum,
};
use crate::server::model::{amounts_as_nats, total, RecordsView, ReplyView, RequestView};
use anonymous_credit_tokens::{
    CreditToken, IssuanceResponse, Params, PreRefund, PublicKey, Refund, SpendProof,
};
use vstd::arithmetic::power2::pow2;
use vstd::prelude::*;

verus! {

/// Whether the server, with these records, answers a request with this response.
pub open spec fn answered(
    issuer: Issuer,
    records: RecordsView,
    request: Request,
    response: Response,
) -> bool {
    reply_to(records, issuer.request_view(request)) == Ok::<ReplyView, Rejection>(
        response_view(response),
    )
}

/// Spending leaves the rest: a token that is made from the refund of a spend is worth what the
/// spent token was worth, less the amount.
pub proof fn law_spend_leaves_the_rest(
    params: Params,
    key: PublicKey,
    token: CreditToken,
    amount: u128,
    request: Request,
    waiting: Waiting,
    response: Response,
    rest: CreditToken,
)
    requires
        amount <= token_credits(token) <= u128::MAX,
        carries_out(
            params,
            key,
            Operation::Spend { token, amount },
            ClientStep::Send(request, waiting),
        ),
        settles(params, waiting, response, ClientStep::Done(Ok(Outcome::Token(rest)))),
    ensures
        token_credits(rest) == token_credits(token) - amount,
        token_value(rest) == token_value(token) - amount,
{
    vstd::arithmetic::div_mod::lemma_small_mod(
        (token_credits(token) - amount) as nat,
        field_order(),
    );
}

/// Splitting gives the amounts: the tokens that a granted split makes are worth the amounts that
/// were asked for, in that order, and the token that was split is used up.
pub proof fn law_split_gives_the_amounts(
    issuer: Issuer,
    records: RecordsView,
    params: Params,
    key: PublicKey,
    token: CreditToken,
    amounts: Vec<u128>,
    request: Request,
    waiting: Waiting,
    response: Response,
    tokens: Vec<CreditToken>,
)
    requires
        carries_out(
            params,
            key,
            Operation::Split { token, amounts },
            ClientStep::Send(request, waiting),
        ),
        answered(issuer, records, request, response),
        settles(params, waiting, response, ClientStep::Done(Ok(Outcome::Tokens(tokens)))),
    ensures
        tokens.len() == amounts.len(),
        forall|i: int|
            0 <= i < tokens.len() ==> token_credits(#[trigger] tokens@[i]) == amounts@[i],
        records_after(records, issuer.request_view(request)).nullifiers.contains(
            token_nullifier(token),
        ),
{
    if let RequestView::Split { spend, accepted, amounts: wanted } = issuer.request_view(request) {
        law_split(records, spend, accepted, wanted);
        law_granted_spend_is_recorded(
            records,
            issuer.request_view(request),
            token_nullifier(token),
        );
        if let Response::Issuances(issuances) = response {
            let worths = issuances@.map_values(|r: IssuanceResponse| response_credits(r));
            assert(worths == amounts_as_nats(amounts@));
            assert forall|i: int| 0 <= i < tokens.len() implies token_credits(
                #[trigger] tokens@[i],
            ) == amounts@[i] by {
                assert(worths[i] == amounts_as_nats(amounts@)[i]);
            }
        }
    }
}

/// The values of some tokens.
pub open spec fn values(tokens: Seq<CreditToken>) -> Seq<nat> {
    tokens.map_values(|token: CreditToken| token_value(token) as nat)
}

/// Combining gives the sum: the token that a granted combination makes is worth what the
/// combined tokens were worth together, and all of those are used up.
pub proof fn law_combine_gives_the_sum(
    issuer: Issuer,
    records: RecordsView,
    params: Params,
    key: PublicKey,
    tokens: Vec<CreditToken>,
    request: Request,
    waiting: Waiting,
    response: Response,
    combined: CreditToken,
)
    requires
        carries_out(
            params,
            key,
            Operation::Combine { tokens },
            ClientStep::Send(request, waiting),
        ),
        answered(issuer, records, request, response),
        settles(params, waiting, response, ClientStep::Done(Ok(Outcome::Token(combined)))),
    ensures
        token_credits(combined) == sum(values(tokens@)),
        forall|i: int|
            #![trigger tokens@[i]]
            0 <= i < tokens.len() ==> records_after(
                records,
                issuer.request_view(request),
            ).nullifiers.contains(token_nullifier(tokens@[i])),
{
    if let Request::Combine(proofs, asked) = request {
        let views = issuer.spend_views(proofs@);
        assert forall|i: int| 0 <= i < views.len() implies (#[trigger] views[i]).charge
            <= u128::MAX by {
            assert(spends_token(
                params,
                tokens@[i],
                token_value(tokens@[i]) as nat,
                proofs@[i],
            ));
        }
        assert(charges(views) =~= values(tokens@)) by {
            assert forall|i: int| 0 <= i < views.len() implies charges(views)[i] == values(
                tokens@,
            )[i] by {
                assert(spends_token(
                    params,
                    tokens@[i],
                    token_value(tokens@[i]) as nat,
                    proofs@[i],
                ));
            }
        }
        if let RequestView::Combine { spends: seen, acceptable } = issuer.request_view(request) {
            assert(proofs@.len() == proofs.len());
            law_combine_conserves_credits(records, seen, acceptable);
        }
        assert forall|i: int|
            #![trigger tokens@[i]]
            0 <= i < tokens.len() implies records_after(
            records,
            issuer.request_view(request),
        ).nullifiers.contains(token_nullifier(tokens@[i])) by {
            assert(spends_token(
                params,
                tokens@[i],
                token_value(tokens@[i]) as nat,
                proofs@[i],
            ));
            assert(views[i].nullifier == token_nullifier(tokens@[i]));
            law_granted_spend_is_recorded(
                records,
                issuer.request_view(request),
                token_nullifier(tokens@[i]),
            );
        }
    }
}

/// Work is paid for: the token that a granted issuance makes is worth what the hash of the nonce
/// is worth.
pub proof fn law_issue_pays_for_the_work(
    issuer: Issuer,
    records: RecordsView,
    params: Params,
    key: PublicKey,
    part: Part,
    nonce: [u8; 32],
    response: Response,
    token: CreditToken,
)
    requires
        answered(issuer, records, Request::Issue(part.request, nonce), response),
        settles(
            params,
            Waiting::Issuance { key, part },
            response,
            ClientStep::Done(Ok(Outcome::Token(token))),
        ),
    ensures
        token_credits(token) == credits_for_hash(nonce_hash(nonce@)),
{
    if let RequestView::Issue { acceptable, nonce: seen } = issuer.request_view(
        Request::Issue(part.request, nonce),
    ) {
        law_issue(records, acceptable, seen);
    }
}

/// A proof of work of an honest client is always accepted, once: where neither its hash nor its
/// nonce was used before, the server grants a token that is worth the hash.
pub proof fn law_honest_work_is_accepted(
    issuer: Issuer,
    records: RecordsView,
    part: Part,
    nonce: [u8; 32],
)
    requires
        is_part(issuer.params(), part),
        !records.pow_hashes.contains(nonce_hash(nonce@)),
        !records.nonces.contains(nonce@),
    ensures
        reply_to(records, issuer.request_view(Request::Issue(part.request, nonce))) == Ok::<
            ReplyView,
            Rejection,
        >(ReplyView::Issue(credits_for_hash(nonce_hash(nonce@)))),
{
    law_issue(records, true, nonce@);
}

/// A split that a client sends is granted, with the amounts that were asked for, wherever its
/// spend proof holds and the token is not used up.
pub proof fn law_honest_split_is_granted(
    issuer: Issuer,
    records: RecordsView,
    key: PublicKey,
    token: CreditToken,
    amounts: Vec<u128>,
    request: Request,
    waiting: Waiting,
)
    requires
        amounts.len() > 0,
        total(amounts@) == token_value(token),
        carries_out(
            issuer.params(),
            key,
            Operation::Split { token, amounts },
            ClientStep::Send(request, waiting),
        ),
        request matches Request::Split(sent, _, _) && issuer.spend_view(sent).valid,
        !records.nullifiers.contains(token_nullifier(token)),
    ensures
        reply_to(records, issuer.request_view(request)) == Ok::<ReplyView, Rejection>(
            ReplyView::Issuances(amounts_as_nats(amounts@)),
        ),
{
    if let Request::Split(sent, requests, _) = request {
        if let Waiting::Issuances { parts, .. } = waiting {
            let accepted = issuer.accepted(requests@);
            assert forall|i: int| 0 <= i < accepted.len() implies #[trigger] accepted[i] by {
                assert(is_part(issuer.params(), parts@[i]));
                assert(requests@[i] == parts@[i].request);
            }
            law_split(records, issuer.spend_view(sent), accepted, amounts@);
        }
    }
}

/// A combination that a client sends is granted, with the sum of the values, wherever its spend
/// proofs hold, the tokens are different and not used up, and the sum is one that a token can
/// hold.
pub proof fn law_honest_combination_is_granted(
    issuer: Issuer,
    records: RecordsView,
    key: PublicKey,
    tokens: Vec<CreditToken>,
    request: Request,
    waiting: Waiting,
)
    requires
        tokens.len() > 0,
        carries_out(
            issuer.params(),
            key,
            Operation::Combine { tokens },
            ClientStep::Send(request, waiting),
        ),
        request matches Request::Combine(sent, _) && forall|i: int|
            0 <= i < sent.len() ==> issuer.spend_view(#[trigger] sent@[i]).valid,
        forall|i: int|
            0 <= i < tokens.len() ==> !records.nullifiers.contains(
                token_nullifier(#[trigger] tokens@[i]),
            ),
        forall|i: int, j: int|
            0 <= i < j < tokens.len() ==> token_nullifier(#[trigger] tokens@[i])
                != token_nullifier(#[trigger] tokens@[j]),
        sum(values(tokens@)) <= u128::MAX,
    ensures
        reply_to(records, issuer.request_view(request)) == Ok::<ReplyView, Rejection>(
            ReplyView::Issue(sum(values(tokens@))),
        ),
{
    if let Request::Combine(sent, _) = request {
        let views = issuer.spend_views(sent@);
        assert(sent@.len() == sent.len());
        assert forall|i: int| 0 <= i < views.len() implies (#[trigger] views[i]).charge
            == token_value(tokens@[i]) && views[i].nullifier == token_nullifier(tokens@[i])
            && views[i].valid by {
            assert(spends_token(
                issuer.params(),
                tokens@[i],
                token_value(tokens@[i]) as nat,
                sent@[i],
            ));
            assert(issuer.spend_view(sent@[i]).valid);
        }
        assert(charges(views) =~= values(tokens@));
        lemma_field_total_is_sum(views);
        law_combine(records, views, true);
        assert(fresh_from(records, views, 0));
        assert(distinct_nullifiers(views));
    }
}

/// Whether an operation spends a token.
pub open spec fn uses_up(operation: Operation, token: CreditToken) -> bool {
    match operation {
        Operation::Spend { token: spent, .. } => spent == token,
        Operation::Split { token: spent, .. } => spent == token,
        Operation::Combine { tokens } => exists|i: int|
            0 <= i < tokens.len() && #[trigger] tokens@[i] == token,
        _ => false,
    }
}

/// A token that is used up is refused: whatever a client tries with it, the server does not
/// grant it.
pub proof fn law_used_up_token_is_refused(
    issuer: Issuer,
    records: RecordsView,
    params: Params,
    key: PublicKey,
    operation: Operation,
    token: CreditToken,
    request: Request,
    waiting: Waiting,
)
    requires
        records.nullifiers.contains(token_nullifier(token)),
        uses_up(operation, token),
        carries_out(params, key, operation, ClientStep::Send(request, waiting)),
    ensures
        reply_to(records, issuer.request_view(request)) is Err,
{
    let nullifier = token_nullifier(token);
    if let Operation::Combine { tokens } = operation {
        if let Request::Combine(proofs, _) = request {
            let i = choose|i: int| 0 <= i < tokens.len() && #[trigger] tokens@[i] == token;
            assert(spends_token(
                params,
                tokens@[i],
                token_value(tokens@[i]) as nat,
                proofs@[i],
            ));
            assert(issuer.spend_views(proofs@)[i].nullifier == nullifier);
        }
    }
    assert(spends(issuer.request_view(request), nullifier));
    law_spent_token_is_refused(records, issuer.request_view(request), nullifier);
}

/// The public key is asked for once: a client that knows it does not ask again.
pub proof fn law_key_is_asked_for_once(client: Client, operation: Operation, step: ClientStep)
    requires
        client.known_key() is Some,
        client.begins(operation, step),
    ensures
        !(step matches ClientStep::Send(Request::GetPublicKey, _)),
{
}

/// Whether this comes of an operation that a client carries out with a server: the client sends
/// its request, the server with these records answers it, and the client makes this of the answer.
pub open spec fn comes_of(
    issuer: Issuer,
    records: RecordsView,
    params: Params,
    key: PublicKey,
    operation: Operation,
    outcome: Outcome,
) -> bool {
    exists|request: Request, waiting: Waiting, response: Response|
        {
            &&& #[trigger] carries_out(params, key, operation, ClientStep::Send(request, waiting))
            &&& #[trigger] answered(issuer, records, request, response)
            &&& settles(params, waiting, response, ClientStep::Done(Ok(outcome)))
        }
}

/// What comes of an operation is of its kind, and is worth what it should be: spending leaves the
/// rest, splitting gives the amounts, and combining gives the sum.
pub proof fn law_outcomes_are_worth_what_they_should_be(
    issuer: Issuer,
    records: RecordsView,
    params: Params,
    key: PublicKey,
    operation: Operation,
    outcome: Outcome,
)
    requires
        comes_of(issuer, records, params, key, operation, outcome),
    ensures
        match operation {
            Operation::Spend { token, amount } => {
                &&& outcome matches Outcome::Token(rest)
                &&& amount <= token_credits(token) <= u128::MAX ==> token_credits(rest)
                    == token_credits(token) - amount
            },
            Operation::Split { amounts, .. } => {
                &&& outcome matches Outcome::Tokens(tokens)
                &&& tokens.len() == amounts.len()
                &&& forall|i: int|
                    0 <= i < tokens.len() ==> token_credits(#[trigger] tokens@[i]) == amounts@[i]
            },
            Operation::Combine { tokens } => {
                &&& outcome matches Outcome::Token(combined)
                &&& token_credits(combined) == sum(values(tokens@))
            },
            _ => false,
        },
{
    let (request, waiting, response) = choose|
        request: Request,
        waiting: Waiting,
        response: Response,
    |
        {
            &&& #[trigger] carries_out(params, key, operation, ClientStep::Send(request, waiting))
            &&& #[trigger] answered(issuer, records, request, response)
            &&& settles(params, waiting, response, ClientStep::Done(Ok(outcome)))
        };
    match operation {
        Operation::Spend { token, amount } => {
            if amount <= token_credits(token) <= u128::MAX {
                if let Outcome::Token(rest) = outcome {
                    law_spend_leaves_the_rest(
                        params,
                        key,
                        token,
                        amount,
                        request,
                        waiting,
                        response,
                        rest,
                    );
                }
            }
        },
        Operation::Split { token, amounts } => {
            if let Outcome::Tokens(tokens) = outcome {
                law_split_gives_the_amounts(
                    issuer,
                    records,
                    params,
                    key,
                    token,
                    amounts,
                    request,
                    waiting,
                    response,
                    tokens,
                );
            }
        },
        Operation::Combine { tokens } => {
            if let Outcome::Token(combined) = outcome {
                law_combine_gives_the_sum(
                    issuer,
                    records,
                    params,
                    key,
                    tokens,
                    request,
                    waiting,
                    response,
                    combined,
                );
            }
        },
        _ => {},
    }
}

/// Whether this token comes of an issuance for so many bits: the client is told how hard a puzzle
/// to solve, sends a solution, and makes this of the answer of a server with these records.
pub open spec fn comes_of_work(
    issuer: Issuer,
    records: RecordsView,
    params: Params,
    key: PublicKey,
    bits: u32,
    token: CreditToken,
) -> bool {
    exists|difficulty: u32, part: Part, nonce: [u8; 32], response: Response|
        {
            &&& #[trigger] carries_out(
                params,
                key,
                Operation::Issue { bits },
                ClientStep::Mine { bits: difficulty, key, part },
            )
            &&& solves(nonce@, difficulty as nat)
            &&& #[trigger] answered(
                issuer,
                records,
                Request::Issue(part.request, nonce),
                response,
            )
            &&& settles(
                params,
                Waiting::Issuance { key, part },
                response,
                ClientStep::Done(Ok(Outcome::Token(token))),
            )
        }
}

/// A token that comes of an issuance is worth at least two to the power of the number of bits
/// that the client was asked to work for.
pub proof fn law_work_gives_its_worth(
    issuer: Issuer,
    records: RecordsView,
    params: Params,
    key: PublicKey,
    bits: u32,
    token: CreditToken,
)
    requires
        comes_of_work(issuer, records, params, key, bits, token),
    ensures
        token_credits(token) >= pow2(bits as nat),
{
    let (difficulty, part, nonce, response) = choose|
        difficulty: u32,
        part: Part,
        nonce: [u8; 32],
        response: Response,
    |
        {
            &&& #[trigger] carries_out(
                params,
                key,
                Operation::Issue { bits },
                ClientStep::Mine { bits: difficulty, key, part },
            )
            &&& solves(nonce@, difficulty as nat)
            &&& #[trigger] answered(
                issuer,
                records,
                Request::Issue(part.request, nonce),
                response,
            )
            &&& settles(
                params,
                Waiting::Issuance { key, part },
                response,
                ClientStep::Done(Ok(Outcome::Token(token))),
            )
        };
    law_issue_pays_for_the_work(issuer, records, params, key, part, nonce, response, token);
    law_work_is_paid(nonce_hash(nonce@), bits as nat);
}

/// Whether a response is of the kind that a client waits for.
pub open spec fn is_expected(waiting: Waiting, response: Response) -> bool {
    match waiting {
        Waiting::Key(_) => response is PublicKey,
        Waiting::Issuance { .. } => response is Issue,
        Waiting::Issuances { parts, .. } => response is Issue || (response matches
            Response::Issuances(issuances) && issuances.len() == parts.len()),
        Waiting::Refund { .. } => response is Refund,
        Waiting::Status => response is NullifierStatus,
    }
}

/// A response of another kind than the client waits for, or with another number of issuances,
/// gives nothing but an error. What the server says of a nullifier is passed on as it is.
pub proof fn law_other_responses_are_refused(
    params: Params,
    waiting: Waiting,
    response: Response,
    step: ClientStep,
)
    requires
        settles(params, waiting, response, step),
    ensures
        !is_expected(waiting, response) ==> step == ClientStep::Done(
            Err(ClientError::InvalidResponse),
        ),
        response matches Response::NullifierStatus(spent) ==> waiting is Status ==> step
            == ClientStep::Done(Ok(Outcome::NullifierSpent(spent))),
        step matches ClientStep::Done(Ok(_)) ==> is_expected(waiting, response),
{
}

/// What a client was asked to do is not lost while it asks for the public key: with the key that
/// arrives it begins just as a client that knew the key from the start.
pub proof fn law_asking_for_the_key_changes_nothing(
    client: Client,
    operation: Operation,
    first: ClientStep,
    waiting: Waiting,
    key: PublicKey,
    step: ClientStep,
)
    requires
        client.known_key() is None,
        client.begins(operation, first),
        first matches ClientStep::Send(_, at) && at == waiting,
        settles(client.params(), waiting, Response::PublicKey(key), step),
    ensures
        first matches ClientStep::Send(Request::GetPublicKey, _),
        carries_out(client.params(), key, operation, step),
        operation is PublicKey ==> step == ClientStep::Done(Ok(Outcome::PublicKey(key))),
{
}

/// The step with which a client begins says what it was asked to do: with the public key at hand,
/// the amount that is to be spent, from the token that is to be spent; else it asks for the key,
/// and keeps the operation.
pub proof fn law_spend_sends_the_amount(
    client: Client,
    token: CreditToken,
    amount: u128,
    step: ClientStep,
)
    requires
        call_ensures(Client::spend, (&client, token, amount), step),
    ensures
        client.known_key() is Some ==> {
            &&& step matches ClientStep::Send(Request::Spend(proof), _)
            &&& proof_charge(proof) == amount
            &&& proof_nullifier(proof) == token_nullifier(token)
        },
        client.known_key() is None ==> step == ClientStep::Send(
            Request::GetPublicKey,
            Waiting::Key(Operation::Spend { token, amount }),
        ),
{
}

/// A token is split only into amounts that add up to its value, and not into none. The request
/// spends the whole token and names the amounts in order, with one issuance request for each.
pub proof fn law_split_sends_the_amounts(
    client: Client,
    token: CreditToken,
    amounts: Vec<u128>,
    step: ClientStep,
)
    requires
        call_ensures(Client::split_token, (&client, token, amounts), step),
    ensures
        amounts.len() == 0 || sum(amounts_as_nats(amounts@)) != token_value(token) ==> (
        step matches ClientStep::Done(Err(ClientError::Interaction(_)))),
        amounts.len() > 0 && sum(amounts_as_nats(amounts@)) == token_value(token) ==> match (
            client.known_key()) {
            Some(_) => {
                &&& step matches ClientStep::Send(Request::Split(proof, requests, wanted), _)
                &&& proof_charge(proof) == token_value(token)
                &&& proof_nullifier(proof) == token_nullifier(token)
                &&& requests.len() == amounts.len()
                &&& wanted@ == amounts@
            },
            None => step == ClientStep::Send(
                Request::GetPublicKey,
                Waiting::Key(Operation::Split { token, amounts }),
            ),
        },
{
    lemma_total_is_sum(amounts@);
}

/// A combination spends the whole of each token, in order, and is refused without tokens.
pub proof fn law_combine_sends_all_tokens(
    client: Client,
    tokens: Vec<CreditToken>,
    step: ClientStep,
)
    requires
        call_ensures(Client::combine_tokens, (&client, tokens), step),
    ensures
        tokens.len() == 0 ==> (step matches ClientStep::Done(Err(ClientError::Interaction(_)))),
        tokens.len() > 0 && client.known_key() is Some ==> {
            &&& step matches ClientStep::Send(Request::Combine(proofs, _), _)
            &&& proofs.len() == tokens.len()
            &&& forall|i: int|
                0 <= i < proofs.len() ==> proof_charge(#[trigger] proofs@[i]) == token_value(
                    tokens@[i],
                ) && proof_nullifier(proofs@[i]) == token_nullifier(tokens@[i])
        },
        tokens.len() > 0 && client.known_key() is None ==> step == ClientStep::Send(
            Request::GetPublicKey,
            Waiting::Key(Operation::Combine { tokens }),
        ),
{
}

/// An issuance works for the number of bits that was asked for, and then sends the nonce that was
/// found; where none was found, it fails.
pub proof fn law_issue_sends_the_work(
    client: Client,
    bits: u32,
    first: ClientStep,
    key: PublicKey,
    part: Part,
    nonce: Option<[u8; 32]>,
    second: ClientStep,
)
    requires
        call_ensures(Client::issue_new_token, (&client, bits), first),
        call_ensures(Client::mined, (&client, key, part, nonce), second),
    ensures
        client.known_key() matches Some(known) ==> {
            &&& first matches ClientStep::Mine { bits: difficulty, key: at_hand, .. }
            &&& difficulty == bits
            &&& at_hand == known
        },
        client.known_key() is None ==> first == ClientStep::Send(
            Request::GetPublicKey,
            Waiting::Key(Operation::Issue { bits }),
        ),
        match nonce {
            Some(nonce) => second == ClientStep::Send(
                Request::Issue(part.request, nonce),
                Waiting::Issuance { key, part },
            ),
            None => second == ClientStep::Done(Err(ClientError::PowFailed)),
        },
{
}

/// The server is asked for just the nullifier that the client was asked about, and for its public
/// key just where that is not known.
pub proof fn law_questions_are_passed_on(
    client: Client,
    nullifier: [u8; 32],
    question: ClientStep,
    step: ClientStep,
)
    requires
        call_ensures(Client::is_nullifier_spent, (&client, &nullifier), question),
        call_ensures(Client::get_public_key, (&client,), step),
    ensures
        question == ClientStep::Send(Request::CheckNullifier(nullifier), Waiting::Status),
        match client.known_key() {
            Some(key) => step == ClientStep::Done(Ok(Outcome::PublicKey(key))),
            None => step == ClientStep::Send(
                Request::GetPublicKey,
                Waiting::Key(Operation::PublicKey),
            ),
        },
{
}

/// Requests go to `token` below the address of the server, with just one slash before it where
/// that address ends in at most one.
pub proof fn law_requests_go_below_the_address(client: Client, url: String)
    requires
        call_ensures(Client::token_url, (&client,), url),
    ensures
        url@.take(client.url().len() as int) == client.url(),
        url@.len() >= 6,
        url@.subrange(url@.len() - 6, url@.len() as int) == "/token"@,
        url@.len() == client.url().len() + if client.url().len() > 0 && client.url().last() == '/' {
            5int
        } else {
            6
        },
{
    reveal_strlit("token");
    reveal_strlit("/token");
    assert(url@.take(client.url().len() as int) =~= client.url());
    assert(url@.subrange(url@.len() - 6, url@.len() as int) =~= "/token"@);
}

/// A split gives one token for each part, made from the issuance at its index; a single issuance
/// stands for all of them. Where one of them does not make a token, the client gets none.
pub proof fn law_each_part_gets_its_token(
    params: Params,
    key: PublicKey,
    parts: Vec<Part>,
    response: Response,
    step: ClientStep,
    i: int,
)
    requires
        settles(params, Waiting::Issuances { key, parts }, response, step),
        is_expected(Waiting::Issuances { key, parts }, response),
        0 <= i < parts.len(),
    ensures
        ({
            let issuance = match response {
                Response::Issuances(issuances) => issuances@[i],
                _ => response->Issue_0,
            };
            let part = parts@[i];
            match step {
                ClientStep::Done(Ok(Outcome::Tokens(tokens))) => {
                    &&& tokens.len() == parts.len()
                    &&& issued_token(part.pre_issuance, params, key, part.request, issuance)
                        == Some(tokens@[i])
                    &&& token_credits(tokens@[i]) == response_credits(issuance)
                },
                ClientStep::Done(Err(error)) => error is InvalidToken,
                _ => false,
            }
        }),
        step matches ClientStep::Done(Err(_)) ==> exists|j: int|
            {
                &&& 0 <= j < parts.len()
                &&& issued_token(
                    (#[trigger] parts@[j]).pre_issuance,
                    params,
                    key,
                    parts@[j].request,
                    match response {
                        Response::Issuances(issuances) => issuances@[j],
                        _ => response->Issue_0,
                    },
                ) is None
            },
{
    let responses = match response {
        Response::Issuances(issuances) => issuances@,
        _ => Seq::new(parts@.len(), |j: int| response->Issue_0),
    };
    if let ClientStep::Done(Ok(Outcome::Tokens(tokens))) = step {
        assert(tokens@[i] == tokens@[i]);
    }
    if let ClientStep::Done(Err(_)) = step {
        let j = choose|j: int|
            0 <= j < parts.len() && nth_token(params, key, parts@, responses, j) is None;
        assert(nth_token(params, key, parts@, responses, j) is None);
        assert(parts@[j] == parts@[j]);
    }
}

/// A single token is made from the issuance or the refund that the client has waited for; where
/// that does not make one, the client gets none.
pub proof fn law_answers_make_tokens(
    params: Params,
    key: PublicKey,
    part: Part,
    issuance: IssuanceResponse,
    issued: ClientStep,
    pre_refund: PreRefund,
    proof: SpendProof,
    refund: Refund,
    refunded: ClientStep,
)
    requires
        settles(params, Waiting::Issuance { key, part }, Response::Issue(issuance), issued),
        settles(
            params,
            Waiting::Refund { key, pre_refund, proof },
            Response::Refund(refund),
            refunded,
        ),
    ensures
        issued == match issued_token(part.pre_issuance, params, key, part.request, issuance) {
            Some(token) => ClientStep::Done(Ok(Outcome::Token(token))),
            None => ClientStep::Done(Err(ClientError::InvalidToken)),
        },
        refunded == match refunded_token(pre_refund, params, proof, refund, key) {
            Some(token) => ClientStep::Done(Ok(Outcome::Token(token))),
            None => ClientStep::Done(Err(ClientError::InvalidToken)),
        },
{
}

/// A public key that a client has asked for is kept, so that it need not ask again; no other
/// response changes what it knows.
pub proof fn law_public_key_is_kept(
    known: Option<PublicKey>,
    waiting: Waiting,
    response: Response,
    key: PublicKey,
)
    ensures
        waiting is Key && response == Response::PublicKey(key) ==> key_after(
            known,
            waiting,
            response,
        ) == Some(key),
        !(waiting is Key) || !(response is PublicKey) ==> key_after(known, waiting, response)
            == known,
        known is Some ==> key_after(known, waiting, response) is Some,
{
}

/// What the server says when it refuses reaches the user, together with the status.
pub proof fn law_refusals_reach_the_user(status: &str, text: String, error: ClientError)
    requires
        call_ensures(server_error, (status, Some(text)), error),
    ensures
        error matches ClientError::Network(detail) && {
            &&& detail@.len() == 14 + status@.len() + 3 + text@.len()
            &&& detail@.subrange(14, 14 + status@.len() as int) == status@
            &&& detail@.skip(17 + status@.len() as int) == text@
        },
{
    reveal_strlit("Server error: ");
    reveal_strlit(" - ");
    if let ClientError::Network(detail) = error {
        assert(detail@.subrange(14, 14 + status@.len() as int) =~= status@);
        assert(detail@.skip(17 + status@.len() as int) =~= text@);
    }
}

/// The value of a token is its credits wherever those are an amount.
pub proof fn law_value_is_the_credits(token: CreditToken)
    ensures
        token_credits(token) <= u128::MAX ==> token_value(token) == token_credits(token),
        token_credits(token) > u128::MAX ==> token_value(token) == 0,
{
}

} // verus!
