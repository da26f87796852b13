use acs::client::server_error;
use acs::codec::load_key;
use acs::server::{
    judge_charge, judge_insertion, judge_nonce, judge_shape, judge_spend, total_amount, Answer,
    Flow, Issuer, Query, Records, Step,
};
use acs::{
    credits_for, leading_zeros, nullifier_bytes, pow_hash, Client, ClientError, ClientStep,
    CreditToken, CreditTokenExt, Miner, Outcome, Rejection, Request, Response, Waiting,
};
use anonymous_credit_tokens::{
    scalar_to_u128, IssuanceRequest, Params, PreIssuance, PrivateKey, SpendProof,
};
use curve25519_dalek::Scalar;
use rand_core::OsRng;

/// A server with empty records, a client of it, and the server's key.
struct World {
    issuer: Issuer,
    key: PrivateKey,
    params: Params,
    records: Records,
    client: Client,
    requests: usize,
}

impl World {
    fn new() -> World {
        let key = load_key(None).key;
        World {
            issuer: Issuer::new(key.clone()),
            key,
            params: Params::nothing_up_my_sleeve(b"innocence v0.1"),
            records: Records::new(),
            client: Client::new("https://localhost:8443".to_string()),
            requests: 0,
        }
    }

    /// Carries an operation of the client out against the server.
    fn run(&mut self, first: ClientStep) -> Result<Outcome, ClientError> {
        let mut step = first;
        loop {
            step = match step {
                ClientStep::Done(outcome) => return outcome,
                ClientStep::Mine { bits, key, part } => {
                    let nonce = Miner::new().mine(bits, 1_000_000);
                    self.client.mined(key, part, nonce)
                }
                ClientStep::Send(request, waiting) => {
                    self.requests += 1;
                    match self.records.process_token(&self.issuer, request) {
                        Ok(response) => self.client.receive(waiting, response),
                        Err(why) => {
                            return Err(server_error(&why.status().to_string(), Some(why.message())))
                        }
                    }
                }
            };
        }
    }

    fn token(&mut self, first: ClientStep) -> Result<CreditToken, ClientError> {
        match self.run(first)? {
            Outcome::Token(token) => Ok(token),
            _ => panic!("expected a token"),
        }
    }

    fn tokens(&mut self, first: ClientStep) -> Result<Vec<CreditToken>, ClientError> {
        match self.run(first)? {
            Outcome::Tokens(tokens) => Ok(tokens),
            _ => panic!("expected tokens"),
        }
    }

    fn issue(&mut self, bits: u32) -> CreditToken {
        let step = self.client.issue_new_token(bits);
        self.token(step).expect("Failed to issue token")
    }

    fn spend(&mut self, token: &CreditToken, amount: u128) -> Result<CreditToken, ClientError> {
        let step = self.client.spend(token.clone(), amount);
        self.token(step)
    }

    fn spent(&mut self, token: &CreditToken) -> bool {
        let step = self.client.is_nullifier_spent(&nullifier_bytes(token));
        match self.run(step) {
            Ok(Outcome::NullifierSpent(spent)) => spent,
            _ => panic!("expected a status"),
        }
    }

    /// A token with just these credits, signed by the server's key.
    fn mint(&self, credits: u128) -> CreditToken {
        let pre_issuance = PreIssuance::random(OsRng);
        let request = pre_issuance.request(&self.params, OsRng);
        let response =
            self.key.issue(&self.params, &request, Scalar::from(credits), OsRng).unwrap();
        pre_issuance
            .to_credit_token(&self.params, self.key.public(), &request, &response)
            .unwrap()
    }

    fn prove(&self, token: &CreditToken, amount: u128) -> SpendProof {
        token.prove_spend(&self.params, Scalar::from(amount), OsRng).0
    }

    fn refusal(&mut self, request: Request) -> Rejection {
        match self.records.process_token(&self.issuer, request) {
            Err(why) => why,
            Ok(_) => panic!("expected a refusal"),
        }
    }
}

fn value_of(token: &CreditToken) -> u128 {
    scalar_to_u128(&token.credits()).unwrap()
}

fn recorded(world: &World, token: &CreditToken) -> bool {
    world.records.db.contains_nullifier(&nullifier_bytes(token))
}

#[test]
fn spending_leaves_the_rest() {
    let mut world = World::new();
    let step = world.client.get_public_key();
    assert!(matches!(world.run(step), Ok(Outcome::PublicKey(_))), "Failed to get public key");

    // A hash may be worth more than what was asked for
    let amount_to_spend = 5u128;
    let mut token_to_spend = world.issue(2);
    assert!(value_of(&token_to_spend) >= 2u128.pow(2));
    while value_of(&token_to_spend) <= amount_to_spend {
        token_to_spend = world.issue(2);
    }
    let new_token = world.spend(&token_to_spend, amount_to_spend).expect("Failed to spend credits");
    assert_eq!(value_of(&new_token), value_of(&token_to_spend) - amount_to_spend,
        "Remaining credits should be initial minus spent amount");
    assert!(world.spent(&token_to_spend));
    assert!(!world.spent(&new_token));
}

#[test]
fn combining_gives_the_sum() {
    let mut world = World::new();
    let combine_token1 = world.issue(1);
    let combine_token2 = world.issue(1);
    let step = world.client.combine_tokens(vec![combine_token1.clone(), combine_token2.clone()]);
    let combined_token = world.token(step).expect("Failed to combine tokens");
    assert_eq!(value_of(&combined_token), value_of(&combine_token1) + value_of(&combine_token2),
        "Combined token value should equal the sum of the individual token values");
    assert!(world.spent(&combine_token1));
    assert!(world.spent(&combine_token2));
    assert!(!world.spent(&combined_token));
}

#[test]
fn splitting_gives_the_amounts() {
    let mut world = World::new();
    let token_to_split = world.issue(2);
    let token_to_split_value = value_of(&token_to_split);
    let split_amounts = vec![
        token_to_split_value / 3,
        token_to_split_value / 3,
        token_to_split_value - (2 * (token_to_split_value / 3)),
    ];
    let total_split_amount: u128 = split_amounts.iter().sum();
    assert_eq!(total_split_amount, token_to_split_value,
        "Split amounts must sum to the token value");
    let step = world.client.split_token(token_to_split.clone(), split_amounts.clone());
    let split_tokens = world.tokens(step).expect("Failed to split token");
    assert_eq!(split_tokens.len(), split_amounts.len(),
        "Should get the same number of tokens as requested splits");
    for (i, token) in split_tokens.iter().enumerate() {
        assert_eq!(value_of(token), split_amounts[i],
            "Split token value should match the requested amount");
    }
    assert!(world.spent(&token_to_split));
    assert!(!world.spent(&split_tokens[0]));
}

#[test]
fn public_key_is_asked_for_once() {
    let mut world = World::new();
    let first = world.issue(0);
    // One request for the key, one for the token
    assert_eq!(world.requests, 2);
    world.spend(&first, 0).unwrap();
    assert_eq!(world.requests, 3);
    let step = world.client.get_public_key();
    assert!(matches!(step, ClientStep::Done(Ok(Outcome::PublicKey(_)))));
}

#[test]
fn issued_token_is_worth_its_hash() {
    let mut world = World::new();
    let key = world.key.public().clone();
    let mut miner = Miner::new();
    for bits in 0..5 {
        let nonce = miner.mine(bits, 1_000_000).unwrap();
        let part = match world.client.issue_new_token(bits) {
            ClientStep::Mine { part, .. } => part,
            ClientStep::Send(request, waiting) => {
                let response = world.records.process_token(&world.issuer, request).ok().unwrap();
                match world.client.receive(waiting, response) {
                    ClientStep::Mine { bits: asked, part, .. } => {
                        assert_eq!(asked, bits);
                        part
                    }
                    _ => panic!("expected a search"),
                }
            }
            _ => panic!("expected a search"),
        };
        let step = world.client.mined(key.clone(), part, Some(nonce));
        let token = world.token(step).unwrap();
        assert_eq!(token.get_value(), credits_for(leading_zeros(&pow_hash(&nonce))));
        assert!(token.get_value() >= 1 << bits);
    }
}

#[test]
fn proof_of_work_counts_once() {
    let mut world = World::new();
    let nonce = Miner::new().mine(0, 1).unwrap();
    let request = || PreIssuance::random(OsRng).request(&Params::nothing_up_my_sleeve(b"innocence v0.1"), OsRng);
    assert!(world.records.process_token(&world.issuer, Request::Issue(request(), nonce)).is_ok());
    assert!(world.records.db.contains_pow_hash(&pow_hash(&nonce)));
    assert!(world.records.nonces.contains(&nonce));
    assert_eq!(world.refusal(Request::Issue(request(), nonce)), Rejection::PowHashUsed);

    // A nonce that is known while its hash is not
    let other = [9u8; 32];
    world.records.nonces.insert(other);
    assert_eq!(world.refusal(Request::Issue(request(), other)), Rejection::PowNonceUsed);

    // A request that was made for another system
    let foreign = PreIssuance::random(OsRng).request(&Params::nothing_up_my_sleeve(b"elsewhere"), OsRng);
    let fresh = [10u8; 32];
    assert_eq!(world.refusal(Request::Issue(foreign, fresh)), Rejection::InvalidIssuanceProof);
    assert!(!world.records.nonces.contains(&fresh));
}

#[test]
fn failed_search_fails_the_issuance() {
    let mut world = World::new();
    let step = world.client.get_public_key();
    let _ = world.run(step);
    match world.client.issue_new_token(3) {
        ClientStep::Mine { bits, key, part } => {
            assert_eq!(bits, 3);
            assert!(matches!(
                world.client.mined(key, part, None),
                ClientStep::Done(Err(ClientError::PowFailed))
            ));
        }
        _ => panic!("expected a search"),
    }
}

#[test]
fn minted_tokens_have_their_value() {
    let world = World::new();
    for credits in [0u128, 1, 255, 1 << 64, u128::MAX] {
        let token = world.mint(credits);
        assert_eq!(token.get_value(), credits);
        assert_eq!(nullifier_bytes(&token), *token.nullifier().as_bytes());
    }
    // More credits than an amount can be
    assert_eq!(huge_token(&world).0.get_value(), 0);
}

#[test]
fn spend_is_refused_the_second_time() {
    let mut world = World::new();
    let token = world.mint(20);
    assert!(!world.spent(&token));
    let sent = world.prove(&token, 7);
    assert!(matches!(
        world.records.process_token(&world.issuer, Request::Spend(sent.clone())),
        Ok(Response::Refund(_))
    ));
    assert!(world.spent(&token));
    assert_eq!(world.refusal(Request::Spend(sent)), Rejection::NullifierSeen);
}

#[test]
fn refusals_reach_the_client() {
    let mut world = World::new();
    let token = world.mint(20);
    world.records.db.insert_nullifier(nullifier_bytes(&token));
    match world.spend(&token, 1) {
        Err(ClientError::Network(detail)) => {
            assert_eq!(detail, "Server error: 400 - already seen nullifier")
        }
        _ => panic!("expected a refusal"),
    }
}

#[test]
fn spending_nothing_gives_a_fresh_token() {
    let mut world = World::new();
    let token = world.mint(13);
    let fresh = world.spend(&token, 0).unwrap();
    assert_eq!(fresh.get_value(), 13);
    assert_ne!(nullifier_bytes(&fresh), nullifier_bytes(&token));
}

#[test]
fn bad_spend_proofs_are_refused() {
    let mut world = World::new();
    let token = world.mint(10);
    // More than the token holds
    let sent = world.prove(&token, 11);
    assert_eq!(world.refusal(Request::Spend(sent.clone())), Rejection::BadSpendProof);
    let request = PreIssuance::random(OsRng).request(&world.params, OsRng);
    assert_eq!(
        world.refusal(Request::Split(sent, vec![request], vec![11])),
        Rejection::InvalidSpendProof
    );
    assert!(!world.spent(&token));
}

#[test]
fn bad_spend_proofs_are_not_combined() {
    let mut world = World::new();
    let token = world.mint(10);
    let sent = world.prove(&token, 11);
    let request = PreIssuance::random(OsRng).request(&world.params, OsRng);
    assert_eq!(
        world.refusal(Request::Combine(vec![sent], request)),
        Rejection::InvalidSpendProof
    );
    assert!(!recorded(&world, &token));
}

/// A request that was made for another system.
fn foreign_request() -> IssuanceRequest {
    PreIssuance::random(OsRng).request(&Params::nothing_up_my_sleeve(b"elsewhere"), OsRng)
}

#[test]
fn amounts_of_a_split_are_checked() {
    let mut world = World::new();
    let request = |world: &World| PreIssuance::random(OsRng).request(&world.params, OsRng);
    let token = world.mint(10);
    let sent = world.prove(&token, 10);

    let wrong = Request::Split(sent.clone(), vec![request(&world)], vec![5, 5]);
    assert_eq!(world.refusal(wrong), Rejection::MismatchedAmounts);
    let wrong = Request::Split(sent.clone(), vec![], vec![]);
    assert_eq!(world.refusal(wrong), Rejection::NoIssuanceRequests);
    let wrong = Request::Split(sent, vec![request(&world), request(&world)], vec![5, 4]);
    assert_eq!(world.refusal(wrong), Rejection::ChargeMismatch);
    assert!(!recorded(&world, &token));
}

#[test]
fn amounts_beyond_every_charge_are_refused() {
    let mut world = World::new();
    let request = |world: &World| PreIssuance::random(OsRng).request(&world.params, OsRng);
    let token = world.mint(1);
    let sent = world.prove(&token, 1);
    // Counted round, the sum would be the charge
    let wrong = Request::Split(sent, vec![request(&world), request(&world)], vec![u128::MAX, 2]);
    assert_eq!(world.refusal(wrong), Rejection::ChargeMismatch);
    assert!(!recorded(&world, &token));
}

/// The text of the error with which the server refused something.
fn refusal_text(outcome: Result<CreditToken, ClientError>) -> String {
    match outcome {
        Err(error) => error.message(),
        Ok(_) => panic!("expected a refusal"),
    }
}

#[test]
fn combined_token_cannot_be_spent_again() {
    let mut world = World::new();
    let token = world.mint(6);
    let step = world.client.combine_tokens(vec![token.clone()]);
    assert_eq!(world.token(step).expect("Failed to combine tokens").get_value(), 6);
    assert_eq!(
        refusal_text(world.spend(&token, 1)),
        "Network error: Server error: 400 - already seen nullifier"
    );
}

#[test]
fn split_token_cannot_be_spent_again() {
    let mut world = World::new();
    let token = world.mint(6);
    let step = world.client.split_token(token.clone(), vec![2, 4]);
    assert_eq!(world.tokens(step).expect("Failed to split token").len(), 2);
    assert_eq!(
        refusal_text(world.spend(&token, 1)),
        "Network error: Server error: 400 - already seen nullifier"
    );
}

#[test]
fn token_is_used_up_before_its_parts_are_issued() {
    let mut world = World::new();
    let request = |world: &World| PreIssuance::random(OsRng).request(&world.params, OsRng);
    let token = world.mint(10);
    let sent = world.prove(&token, 10);
    let wrong = Request::Split(sent.clone(), vec![request(&world), foreign_request()], vec![5, 5]);
    assert_eq!(world.refusal(wrong), Rejection::InvalidRequestAt(1));
    assert!(recorded(&world, &token));
    let late = Request::Split(sent, vec![request(&world), request(&world)], vec![5, 5]);
    assert_eq!(world.refusal(late), Rejection::NullifierSeen);
}

/// A token with more credits than an amount can be, and those credits.
fn huge_token(world: &World) -> (CreditToken, Scalar) {
    let pre_issuance = PreIssuance::random(OsRng);
    let asked = pre_issuance.request(&world.params, OsRng);
    let credits = Scalar::from(u128::MAX) + Scalar::from(10u128);
    let response = world.key.issue(&world.params, &asked, credits, OsRng).unwrap();
    let token = pre_issuance
        .to_credit_token(&world.params, world.key.public(), &asked, &response)
        .unwrap();
    (token, credits)
}

#[test]
fn charge_of_a_split_must_be_an_amount() {
    let mut world = World::new();
    let (huge, credits) = huge_token(&world);
    assert_eq!(huge.get_value(), 0);
    let request = PreIssuance::random(OsRng).request(&world.params, OsRng);
    let sent = huge.prove_spend(&world.params, credits, OsRng).0;
    let wrong = Request::Split(sent, vec![request], vec![5]);
    assert_eq!(world.refusal(wrong), Rejection::InvalidCharge);
    assert!(!recorded(&world, &huge));
}

#[test]
fn nothing_cannot_be_combined() {
    let mut world = World::new();
    let request = PreIssuance::random(OsRng).request(&world.params, OsRng);
    assert_eq!(world.refusal(Request::Combine(vec![], request)), Rejection::NoSpendProofs);
}

#[test]
fn combination_can_be_too_much_for_a_token() {
    let mut world = World::new();
    let (huge, credits) = huge_token(&world);
    let request = PreIssuance::random(OsRng).request(&world.params, OsRng);
    let sent = huge.prove_spend(&world.params, credits, OsRng).0;
    assert_eq!(world.refusal(Request::Combine(vec![sent], request)), Rejection::TooManyCredits);
    assert!(!recorded(&world, &huge));
}

#[test]
fn one_token_cannot_be_combined_with_itself() {
    let mut world = World::new();
    let request = PreIssuance::random(OsRng).request(&world.params, OsRng);
    let token = world.mint(3);
    let sent = world.prove(&token, 3);
    let twice = Request::Combine(vec![sent.clone(), sent], request);
    assert_eq!(world.refusal(twice), Rejection::Inconsistent);
    assert!(recorded(&world, &token));
}

#[test]
fn spent_tokens_cannot_be_combined() {
    let mut world = World::new();
    let request = PreIssuance::random(OsRng).request(&world.params, OsRng);
    let (a, b) = (world.mint(3), world.mint(4));
    world.records.db.insert_nullifier(nullifier_bytes(&a));
    let sent = vec![world.prove(&a, 3), world.prove(&b, 4)];
    assert_eq!(world.refusal(Request::Combine(sent, request)), Rejection::NullifierSeen);
    assert!(!recorded(&world, &b));
}

#[test]
fn combination_needs_a_request_that_holds() {
    let mut world = World::new();
    let token = world.mint(4);
    let sent = vec![world.prove(&token, 4)];
    let wrong = Request::Combine(sent, foreign_request());
    assert_eq!(world.refusal(wrong), Rejection::InvalidIssuanceRequest);
    assert!(recorded(&world, &token));
}

#[test]
fn client_refuses_what_cannot_be_done() {
    let world = World::new();
    let token = world.mint(10);
    match world.client.split_token(token.clone(), vec![]) {
        ClientStep::Done(Err(ClientError::Interaction(detail))) => {
            assert_eq!(detail, "No amounts provided for splitting")
        }
        _ => panic!("expected an error"),
    }
    match world.client.split_token(world.mint(1), vec![u128::MAX, 2]) {
        ClientStep::Done(Err(ClientError::Interaction(detail))) => assert_eq!(
            detail,
            "Total amount (more than 340282366920938463463374607431768211455) does not match \
             token value (1)"
        ),
        _ => panic!("expected an error"),
    }
    match world.client.split_token(token, vec![4, 5]) {
        ClientStep::Done(Err(ClientError::Interaction(detail))) => {
            assert_eq!(detail, "Total amount (9) does not match token value (10)")
        }
        _ => panic!("expected an error"),
    }
    match world.client.combine_tokens(vec![]) {
        ClientStep::Done(Err(ClientError::Interaction(detail))) => {
            assert_eq!(detail, "No tokens provided for combining")
        }
        _ => panic!("expected an error"),
    }
}

fn waiting_of(step: ClientStep) -> Waiting {
    match step {
        ClientStep::Send(_, waiting) => waiting,
        _ => panic!("expected a request"),
    }
}

#[test]
fn client_checks_the_kind_of_response() {
    let mut world = World::new();
    let token = world.mint(10);
    let step = world.client.get_public_key();
    let _ = world.run(step);

    let status = || Response::NullifierStatus(true);
    let step = world.client.spend(token.clone(), 1);
    assert!(matches!(
        world.client.receive(waiting_of(step), status()),
        ClientStep::Done(Err(ClientError::InvalidResponse))
    ));
    let step = world.client.split_token(token.clone(), vec![10]);
    assert!(matches!(
        world.client.receive(waiting_of(step), status()),
        ClientStep::Done(Err(ClientError::InvalidResponse))
    ));
    let step = world.client.split_token(token.clone(), vec![10]);
    assert!(matches!(
        world.client.receive(waiting_of(step), Response::Issuances(vec![])),
        ClientStep::Done(Err(ClientError::InvalidResponse))
    ));
    let step = world.client.combine_tokens(vec![token.clone()]);
    assert!(matches!(
        world.client.receive(waiting_of(step), status()),
        ClientStep::Done(Err(ClientError::InvalidResponse))
    ));
    assert!(matches!(
        world.client.receive(Waiting::Status, Response::PublicKey(world.key.public().clone())),
        ClientStep::Done(Err(ClientError::InvalidResponse))
    ));
    let mut stranger = Client::new("x".to_string());
    let step = stranger.get_public_key();
    assert!(matches!(
        stranger.receive(waiting_of(step), status()),
        ClientStep::Done(Err(ClientError::InvalidResponse))
    ));
}

/// What a client that trusts one server makes of the answer of another one.
fn answered_by_another(
    begin: fn(&Client, CreditToken) -> ClientStep,
) -> ClientStep {
    let mut world = World::new();
    let mut other = World::new();
    let step = world.client.get_public_key();
    let _ = world.run(step);
    let token = other.mint(10);
    match begin(&world.client, token) {
        ClientStep::Send(request, waiting) => {
            let response = other.records.process_token(&other.issuer, request).ok().unwrap();
            world.client.receive(waiting, response)
        }
        _ => panic!("expected a request"),
    }
}

#[test]
fn client_checks_the_signature_of_a_refund() {
    let step = answered_by_another(|client, token| client.spend(token, 1));
    assert!(matches!(step, ClientStep::Done(Err(ClientError::InvalidToken))));
}

#[test]
fn client_checks_the_signatures_of_a_split() {
    let step = answered_by_another(|client, token| client.split_token(token, vec![4, 6]));
    assert!(matches!(step, ClientStep::Done(Err(ClientError::InvalidToken))));
}

#[test]
fn client_checks_the_signature_of_a_combination() {
    let step = answered_by_another(|client, token| client.combine_tokens(vec![token]));
    assert!(matches!(step, ClientStep::Done(Err(ClientError::InvalidToken))));
}

#[test]
fn one_issuance_can_stand_for_a_split_into_one() {
    let mut world = World::new();
    let step = world.client.get_public_key();
    let _ = world.run(step);
    let token = world.mint(6);
    let step = world.client.split_token(token, vec![6]);
    let (request, waiting) = match step {
        ClientStep::Send(request, waiting) => (request, waiting),
        _ => panic!("expected a request"),
    };
    let issuance = match world.records.process_token(&world.issuer, request) {
        Ok(Response::Issuances(mut issuances)) => issuances.remove(0),
        _ => panic!("expected issuances"),
    };
    match world.client.receive(waiting, Response::Issue(issuance)) {
        ClientStep::Done(Ok(Outcome::Tokens(tokens))) => {
            assert_eq!(tokens.len(), 1);
            assert_eq!(tokens[0].get_value(), 6);
        }
        _ => panic!("expected tokens"),
    }
}

fn refused(step: Step) -> Rejection {
    match step {
        Step::Reply(Err(why)) => why,
        _ => panic!("expected a refusal"),
    }
}

fn asked(step: Step) -> (Flow, Query) {
    match step {
        Step::Ask(flow, query) => (flow, query),
        _ => panic!("expected a query"),
    }
}

#[test]
fn failing_records_refuse_a_spend() {
    let world = World::new();
    let token = world.mint(5);
    let sent = world.prove(&token, 5);
    let (flow, query) = asked(world.issuer.start(Request::Spend(sent)));
    assert!(matches!(query, Query::AddNullifier(n) if n == nullifier_bytes(&token)));
    assert_eq!(refused(world.issuer.resume(flow, Answer::Failed)), Rejection::Internal);
}

#[test]
fn failing_records_refuse_an_issuance() {
    let world = World::new();
    let issuer = &world.issuer;
    let nonce = [1u8; 32];
    let start = || {
        let request = PreIssuance::random(OsRng).request(&world.params, OsRng);
        let (flow, query) = asked(issuer.start(Request::Issue(request, nonce)));
        assert!(matches!(query, Query::HasPowHash(hash) if hash == pow_hash(&nonce)));
        let (flow, query) = asked(issuer.resume(flow, Answer::Found(false)));
        assert!(matches!(query, Query::HasNonce(asked) if asked == nonce));
        flow
    };
    let insert = || {
        let (flow, query) = asked(issuer.resume(start(), Answer::Found(false)));
        assert!(matches!(query, Query::AddPowHash(hash) if hash == pow_hash(&nonce)));
        flow
    };
    let store = || {
        let (flow, query) = asked(issuer.resume(insert(), Answer::Added(true)));
        assert!(matches!(query, Query::AddNonce(asked) if asked == nonce));
        flow
    };
    assert_eq!(refused(issuer.resume(start(), Answer::Failed)), Rejection::InternalDatabase);
    assert_eq!(refused(issuer.resume(start(), Answer::Found(true))), Rejection::PowNonceUsed);
    assert_eq!(refused(issuer.resume(insert(), Answer::Failed)), Rejection::Internal);
    assert_eq!(refused(issuer.resume(insert(), Answer::Added(false))), Rejection::Inconsistent);
    assert_eq!(refused(issuer.resume(store(), Answer::Failed)), Rejection::InternalDatabase);
    assert_eq!(refused(issuer.resume(store(), Answer::Added(false))), Rejection::PowNonceUsed);
    assert!(matches!(
        issuer.resume(store(), Answer::Added(true)),
        Step::Reply(Ok(Response::Issue(_)))
    ));
}

#[test]
fn failing_records_refuse_a_split() {
    let world = World::new();
    let token = world.mint(5);
    let sent = world.prove(&token, 5);
    for (answer, why) in
        [(Answer::Failed, Rejection::Internal), (Answer::Added(false), Rejection::Inconsistent)]
    {
        let request = PreIssuance::random(OsRng).request(&world.params, OsRng);
        let split = Request::Split(sent.clone(), vec![request], vec![5]);
        let (flow, query) = asked(world.issuer.start(split));
        assert!(matches!(query, Query::HasNullifier(n) if n == nullifier_bytes(&token)));
        let (flow, query) = asked(world.issuer.resume(flow, Answer::Found(false)));
        assert!(matches!(query, Query::AddNullifier(n) if n == nullifier_bytes(&token)));
        assert_eq!(refused(world.issuer.resume(flow, answer)), why);
    }
}

#[test]
fn failing_records_refuse_a_combination() {
    let world = World::new();
    let token = world.mint(5);
    let sent = world.prove(&token, 5);
    for (answer, why) in
        [(Answer::Failed, Rejection::Internal), (Answer::Added(false), Rejection::Inconsistent)]
    {
        let request = PreIssuance::random(OsRng).request(&world.params, OsRng);
        let (flow, query) = asked(world.issuer.start(Request::Combine(vec![sent.clone()], request)));
        assert!(matches!(query, Query::HasNullifier(n) if n == nullifier_bytes(&token)));
        let (flow, query) = asked(world.issuer.resume(flow, Answer::Found(false)));
        assert!(matches!(query, Query::AddNullifier(n) if n == nullifier_bytes(&token)));
        assert_eq!(refused(world.issuer.resume(flow, answer)), why);
    }
}

#[test]
fn amounts_and_charges_are_judged() {
    assert_eq!(total_amount(&vec![]), Some(0));
    assert_eq!(total_amount(&vec![1, 2, 3]), Some(6));
    assert_eq!(total_amount(&vec![u128::MAX, 0]), Some(u128::MAX));
    assert_eq!(total_amount(&vec![u128::MAX, 1]), None);
    assert_eq!(total_amount(&vec![1, u128::MAX, 5]), None);
    assert_eq!(judge_charge(Some(6), Some(6)), None);
    assert_eq!(judge_charge(Some(7), Some(6)), Some(Rejection::ChargeMismatch));
    assert_eq!(judge_charge(None, Some(6)), Some(Rejection::InvalidCharge));
    assert_eq!(judge_charge(Some(6), None), Some(Rejection::ChargeMismatch));
    assert_eq!(judge_charge(None, None), Some(Rejection::InvalidCharge));
}

#[test]
fn answers_of_the_records_are_judged() {
    assert_eq!(judge_shape(1, 2), Some(Rejection::MismatchedAmounts));
    assert_eq!(judge_shape(0, 0), Some(Rejection::NoIssuanceRequests));
    assert_eq!(judge_shape(2, 2), None);
    assert_eq!(judge_spend(Answer::Added(true)), None);
    assert_eq!(judge_spend(Answer::Added(false)), Some(Rejection::NullifierSeen));
    assert_eq!(judge_spend(Answer::Failed), Some(Rejection::Internal));
    assert_eq!(judge_insertion(Answer::Added(true)), None);
    assert_eq!(judge_insertion(Answer::Added(false)), Some(Rejection::Inconsistent));
    assert_eq!(judge_insertion(Answer::Failed), Some(Rejection::Internal));
    assert_eq!(judge_nonce(Answer::Found(false)), None);
    assert_eq!(judge_nonce(Answer::Found(true)), Some(Rejection::PowNonceUsed));
    assert_eq!(judge_nonce(Answer::Added(true)), None);
    assert_eq!(judge_nonce(Answer::Added(false)), Some(Rejection::PowNonceUsed));
    assert_eq!(judge_nonce(Answer::Failed), Some(Rejection::InternalDatabase));
}

#[test]
fn overlapping_spends_are_granted_once() {
    let mut world = World::new();
    let token = world.mint(5);
    let sent = world.prove(&token, 5);
    // Both requests are under way before either has reached the records
    let (first, query) = asked(world.issuer.start(Request::Spend(sent.clone())));
    assert!(world.issuer.accepts(&first, Answer::Added(true)));
    assert!(!world.issuer.accepts(&first, Answer::Found(false)));
    let (second, again) = asked(world.issuer.start(Request::Spend(sent)));
    let answer = world.records.ask(&query);
    assert!(matches!(
        world.issuer.resume(first, answer),
        Step::Reply(Ok(Response::Refund(_)))
    ));
    let answer = world.records.ask(&again);
    assert_eq!(refused(world.issuer.resume(second, answer)), Rejection::NullifierSeen);
}

#[test]
fn public_key_is_the_issuers() {
    let mut world = World::new();
    match world.records.process_token(&world.issuer, Request::GetPublicKey) {
        Ok(Response::PublicKey(key)) => assert_eq!(
            bincode::serde::encode_to_vec(&key, bincode::config::standard()).unwrap(),
            bincode::serde::encode_to_vec(world.key.public(), bincode::config::standard()).unwrap()
        ),
        _ => panic!("expected a key"),
    }
}

#[test]
fn addresses_and_refusals_of_the_server() {
    let client = Client::new("https://example.com:8443".to_string());
    assert_eq!(client.server_url(), "https://example.com:8443");
    assert_eq!(client.token_url(), "https://example.com:8443/token");
    let client = Client::new("https://anonymous-credit-tokens.info/".to_string());
    assert_eq!(client.token_url(), "https://anonymous-credit-tokens.info/token");
    assert_eq!(Client::new(String::new()).token_url(), "/token");
    assert_eq!(
        server_error("500 Internal Server Error", None).message(),
        "Network error: Server error: 500 Internal Server Error - Unknown error"
    );
}
