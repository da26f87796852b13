use acs::client::Operation;
use acs::codec::load_key;
use acs::commands::{Action, Event};
use acs::load_test::rounds::{Deed, Round, RoundStep, Sample};
use acs::load_test::{
    combine_count, draw_amounts, draw_percent, pick_indices, piece_range, tick, HeldToken, Move,
    Signal, VirtualUser,
};
use acs::metrics::{check_mix, MetricsTable, OperationMetrics};
use acs::{ClientError, CreditToken, CreditTokenExt, Outcome};
use anonymous_credit_tokens::{Params, PreIssuance};
use curve25519_dalek::Scalar;
use rand_core::OsRng;

fn mint(credits: u128) -> CreditToken {
    let key = load_key(None).key;
    let params = Params::nothing_up_my_sleeve(b"innocence v0.1");
    let pre_issuance = PreIssuance::random(OsRng);
    let request = pre_issuance.request(&params, OsRng);
    let response = key.issue(&params, &request, Scalar::from(credits), OsRng).unwrap();
    pre_issuance.to_credit_token(&params, key.public(), &request, &response).unwrap()
}

fn user_with(spend: u8, combine: u8, values: &[u128]) -> VirtualUser {
    let mut user = VirtualUser::new(8, 5, spend, combine);
    for (i, value) in values.iter().enumerate() {
        user.add_token(i as i64, mint(*value));
    }
    user
}

fn held(user: &VirtualUser) -> Vec<(i64, u128)> {
    user.tokens.iter().map(|held: &HeldToken| (held.id, held.token.get_value())).collect()
}

#[test]
fn metrics_sum_up_what_was_recorded() {
    let mut metrics = OperationMetrics::new("spend");
    assert_eq!(metrics.min_duration_ms, u128::MAX);
    metrics.record_failure();
    assert_eq!((metrics.success_count, metrics.failure_count), (0, 1));
    metrics.record_success(30);
    metrics.record_success(10);
    metrics.record_success(20);
    assert_eq!(metrics.operation, "spend");
    assert_eq!((metrics.success_count, metrics.failure_count), (3, 1));
    assert_eq!(metrics.total_duration_ms, 60);
    assert_eq!(metrics.min_duration_ms, 10);
    assert_eq!(metrics.max_duration_ms, 30);
    assert_eq!(metrics.tries(), 4);
    // The first success counts as the shortest, whatever it is
    let mut metrics = OperationMetrics::new("issue");
    metrics.record_success(u128::MAX);
    assert_eq!(metrics.min_duration_ms, u128::MAX);
    assert_eq!(metrics.max_duration_ms, u128::MAX);
}

#[test]
fn table_keeps_one_row_for_each_operation() {
    let mut table = MetricsTable::new();
    let names: Vec<String> = table.rows.iter().map(|row| row.operation.clone()).collect();
    assert_eq!(names, ["issue", "spend", "combine", "split"]);
    table.record(&"spend".to_string(), true, 5);
    table.record(&"spend".to_string(), true, 7);
    table.record(&"split".to_string(), false, 0);
    table.record(&"other".to_string(), true, 1);
    assert_eq!(table.rows.len(), 5);
    assert_eq!(table.rows[4].operation, "other");
    assert_eq!(table.totals(), Some((4, 3)));
    let report = table.report_rows();
    assert_eq!(report.len(), 3);
    assert_eq!(report[0].operation, "spend");
    assert_eq!((report[0].requests, report[0].success, report[0].failures), (2, 2, 0));
    assert_eq!(
        (report[0].total_duration_ms, report[0].min_duration_ms, report[0].max_duration_ms),
        (12, 5, 7)
    );
    // Without a success there is no duration
    assert_eq!(report[1].operation, "split");
    assert_eq!((report[1].min_duration_ms, report[1].max_duration_ms), (0, 0));
    assert_eq!(report[1].failures, 1);
    assert!(table.can_record(&"spend".to_string(), true, u128::MAX - 12));
    assert!(!table.can_record(&"spend".to_string(), true, u128::MAX - 11));
    assert!(table.can_record(&"new".to_string(), true, u128::MAX));
}

#[test]
fn totals_that_cannot_be_counted_are_refused() {
    let mut table = MetricsTable::new();
    table.rows[0].success_count = usize::MAX;
    assert_eq!(table.totals(), Some((usize::MAX, usize::MAX)));
    table.rows[1].failure_count = 1;
    assert_eq!(table.totals(), None);
    assert!(!table.can_record(&"issue".to_string(), true, 0));
}

#[test]
fn mix_must_be_a_hundred_percent() {
    assert!(check_mix(60, 20, 20).is_ok());
    assert!(check_mix(0, 0, 100).is_ok());
    for (spend, combine, split) in [(60, 20, 19), (255, 101, 0), (255, 255, 255), (0, 0, 0)] {
        match check_mix(spend, combine, split) {
            Err(ClientError::Interaction(detail)) => {
                assert_eq!(detail, "Operation percentages must sum to 100")
            }
            _ => panic!("expected an error"),
        }
    }
}

#[test]
fn users_start_with_a_token_and_rest_in_between() {
    let mut user = VirtualUser::new(8, 3, 60, 20);
    assert_eq!(user.next_move(Signal::Begin, true, 0, false), Move::Issue);
    user.add_token(1, mint(5));
    assert_eq!(user.next_move(Signal::Finished(true), true, 59, false), Move::Spend);
    assert_eq!(user.next_move(Signal::Finished(true), true, 0, false), Move::Sleep(300));
    assert!(user.is_resting());
    // Time for one more token
    assert_eq!(user.next_move(Signal::Rested, true, 0, true), Move::Issue);
    user.add_token(2, mint(6));
    // A failure to top up does not matter
    assert_eq!(user.next_move(Signal::Finished(false), true, 60, true), Move::Combine);
    // A failed operation is followed by two pauses
    assert_eq!(user.next_move(Signal::Finished(false), true, 0, true), Move::Sleep(500));
    assert!(!user.is_resting());
    assert_eq!(user.next_move(Signal::Rested, true, 0, true), Move::Sleep(300));
    assert_eq!(user.next_move(Signal::Rested, true, 80, false), Move::Split);
    assert_eq!(user.next_move(Signal::Finished(true), true, 0, false), Move::Sleep(300));
    assert_eq!(user.next_move(Signal::Rested, false, 0, false), Move::Stop);
    assert_eq!(user.next_move(Signal::Rested, true, 0, false), Move::Stop);
}

#[test]
fn users_without_a_first_token_stop() {
    let mut user = VirtualUser::new(8, 3, 60, 20);
    assert_eq!(user.next_move(Signal::Begin, true, 0, false), Move::Issue);
    assert_eq!(user.next_move(Signal::Finished(false), true, 0, false), Move::Stop);
}

#[test]
fn users_refill_when_nothing_of_value_is_left() {
    let mut user = VirtualUser::new(8, 3, 60, 20);
    assert_eq!(user.next_move(Signal::Begin, true, 0, false), Move::Issue);
    user.add_token(1, mint(0));
    assert_eq!(user.next_move(Signal::Finished(true), true, 0, false), Move::Issue);
    assert!(user.tokens.is_empty());
    assert_eq!(user.next_move(Signal::Finished(false), true, 0, false), Move::Sleep(500));
    assert_eq!(user.next_move(Signal::Rested, true, 0, false), Move::Issue);
    user.add_token(2, mint(0));
    user.add_token(3, mint(9));
    assert_eq!(user.next_move(Signal::Finished(true), true, 0, false), Move::Spend);
    assert_eq!(held(&user), [(3, 9)]);
}

#[test]
fn users_choose_what_their_tokens_allow() {
    let choice = |spend: u8, combine: u8, values: &[u128], percent: u8| {
        let mut user = user_with(spend, combine, values);
        assert_eq!(user.next_move(Signal::Begin, true, 0, false), Move::Issue);
        user.next_move(Signal::Finished(true), true, percent, false)
    };
    assert_eq!(choice(60, 20, &[5], 0), Move::Spend);
    assert_eq!(choice(60, 20, &[5], 59), Move::Spend);
    // Not enough tokens to combine
    assert_eq!(choice(60, 20, &[5], 60), Move::Issue);
    assert_eq!(choice(60, 20, &[5, 5], 60), Move::Combine);
    assert_eq!(choice(60, 20, &[5, 5], 79), Move::Combine);
    assert_eq!(choice(60, 20, &[5, 5], 80), Move::Split);
    assert_eq!(choice(0, 0, &[5], 0), Move::Split);
    assert_eq!(choice(0, 0, &[], 0), Move::Issue);
}

#[test]
fn ticks_come_round() {
    assert_eq!(tick(0, 4), (1, false));
    assert_eq!(tick(3, 4), (4, true));
    assert_eq!(tick(u32::MAX, 4), (0, true));
    assert_eq!(combine_count(2, 2), (2, 2));
    assert_eq!(combine_count(3, 2), (3, 3));
    assert_eq!(combine_count(3, 3), (2, 4));
    assert_eq!(combine_count(9, u32::MAX), (3, 0));
}

#[test]
fn spends_leave_something() {
    let mut user = user_with(60, 20, &[5, 1, 0, 200]);
    let plan = user.plan_spend(0, 3).expect("a plan");
    assert_eq!((plan.index, plan.id, plan.amount), (0, 0, 3));
    assert_eq!(user.plan_spend(0, 99).unwrap().amount, 4);
    assert_eq!(user.plan_spend(3, 99).unwrap().amount, 99);
    // Nothing can be spent of a token that is worth one credit, or none
    assert!(user.plan_spend(1, 1).is_none());
    assert_eq!(held(&user), [(0, 5), (2, 0), (3, 200)]);
    assert!(user.plan_spend(1, 1).is_none());
    assert_eq!(held(&user), [(0, 5), (3, 200)]);
    user.spent(0, 0, mint(2));
    assert_eq!(held(&user), [(0, 2), (3, 200)]);
}

#[test]
fn random_spends_are_possible() {
    let mut user = user_with(60, 20, &[50, 1]);
    for _ in 0..20 {
        match user.plan_random_spend() {
            Ok(Some(plan)) => {
                assert!(1 <= plan.amount && plan.amount < 50);
                assert_eq!(plan.id, 0);
            }
            Ok(None) => assert_eq!(held(&user), [(0, 50)]),
            Err(_) => panic!("there are tokens"),
        }
    }
    let mut empty = user_with(60, 20, &[]);
    match empty.plan_random_spend() {
        Err(ClientError::Interaction(detail)) => assert_eq!(detail, "No tokens to spend"),
        _ => panic!("expected an error"),
    }
}

#[test]
fn indices_are_picked_by_the_seed() {
    // Each time the index at the seed plus the number of picks, out of those that are left
    assert_eq!(pick_indices(5, 2, 0), vec![0, 2]);
    assert_eq!(pick_indices(5, 3, 7), vec![2, 0, 1]);
    assert_eq!(pick_indices(2, 3, 1), vec![1, 0]);
    assert_eq!(pick_indices(0, 2, 1), Vec::<usize>::new());
    for seed in 0..60 {
        let indices = pick_indices(4, 3, seed);
        assert_eq!(indices.len(), 3);
        assert!(indices.iter().all(|i| *i < 4));
        assert!(indices[0] != indices[1] && indices[1] != indices[2] && indices[0] != indices[2]);
    }
}

#[test]
fn combined_tokens_are_replaced() {
    let mut user = user_with(60, 20, &[1, 2, 3, 4]);
    let (indices, counter) = user.plan_combine(1, 6).unwrap();
    assert_eq!(indices, vec![2, 1]);
    assert_eq!(counter, 2);
    user.combined(&indices, 9, mint(5));
    assert_eq!(held(&user), [(0, 1), (3, 4), (9, 5)]);
    let (indices, counter) = user.plan_combine(2, 0).unwrap();
    assert_eq!((indices.len(), counter), (3, 3));
    user.combined(&indices, 10, mint(10));
    assert_eq!(held(&user), [(10, 10)]);
    match user.plan_combine(0, 0) {
        Err(ClientError::Interaction(detail)) => {
            assert_eq!(detail, "Not enough tokens to combine")
        }
        _ => panic!("expected an error"),
    }
}

#[test]
fn splits_add_up() {
    let user = user_with(60, 20, &[1, 2, 0, 30]);
    assert_eq!(user.splittable(), vec![1, 3]);
    for _ in 0..20 {
        let plan = user.plan_random_split().unwrap().expect("a plan");
        assert!(plan.index == 1 || plan.index == 3);
        assert_eq!(plan.amounts.iter().sum::<u128>(), plan.token.get_value());
        assert!(plan.amounts.len() == 2 || plan.amounts.len() == 3);
        // Only the last of three parts of two credits is worth nothing
        let enough = plan.token.get_value() >= plan.amounts.len() as u128;
        let positive = if enough { plan.amounts.len() } else { plan.amounts.len() - 1 };
        assert!(plan.amounts[..positive].iter().all(|amount| *amount >= 1));
    }
    assert!(user_with(60, 20, &[1, 0]).plan_random_split().unwrap().is_none());
    match user_with(60, 20, &[]).plan_random_split() {
        Err(ClientError::Interaction(detail)) => assert_eq!(detail, "No tokens to split"),
        _ => panic!("expected an error"),
    }
}

#[test]
fn pieces_leave_room_for_the_others() {
    assert_eq!(piece_range(10, 2), Some((1, 8)));
    assert_eq!(piece_range(3, 2), None);
    assert_eq!(piece_range(2, 2), None);
    assert_eq!(piece_range(4, 2), Some((1, 2)));
    assert_eq!(draw_amounts(2, 3), vec![1, 1, 0]);
    assert_eq!(draw_amounts(2, 2), vec![1, 1]);
    assert_eq!(draw_amounts(9, 1), vec![9]);
    // The only piece in a range of one number
    assert_eq!(draw_amounts(3, 2), vec![1, 2]);
    let mut seen = Vec::new();
    for _ in 0..50 {
        let amounts = draw_amounts(1000, 3);
        assert_eq!(amounts.iter().sum::<u128>(), 1000);
        assert!(amounts[0] >= 1 && amounts[1] >= 1 && amounts[2] >= 1);
        // A piece that is drawn stays below the end of its range
        assert!(amounts[0] < 998);
        assert!(amounts[1] == 1 || amounts[1] < 1000 - amounts[0] - 1);
        if !seen.contains(&amounts) {
            seen.push(amounts);
        }
    }
    assert!(seen.len() > 1);
}

#[test]
fn percentages_are_drawn() {
    let drawn: Vec<u8> = (0..200).map(|_| draw_percent()).collect();
    assert!(drawn.iter().all(|percent| *percent < 100));
    assert!(drawn.iter().any(|percent| *percent != drawn[0]));
}

#[test]
fn split_tokens_are_replaced() {
    let mut user = user_with(60, 20, &[1, 10, 3]);
    user.split(1, vec![mint(4), mint(6)], &vec![20, 21]);
    assert_eq!(held(&user), [(0, 1), (2, 3), (20, 4), (21, 6)]);
    // A part without an identifier is not held
    user.split(3, vec![mint(2), mint(4)], &vec![30]);
    assert_eq!(held(&user), [(0, 1), (2, 3), (20, 4), (30, 2)]);
}

fn act(step: RoundStep) -> (Action, Round) {
    match step {
        RoundStep::Act(action, round) => (action, round),
        RoundStep::End(..) => panic!("the operation is over"),
    }
}

fn end(step: RoundStep) -> (Option<Sample>, Result<(), ClientError>) {
    match step {
        RoundStep::End(sample, outcome) => (sample, outcome),
        RoundStep::Act(..) => panic!("the operation is not over"),
    }
}

fn sample(deed: Deed, success: bool) -> Option<Sample> {
    Some(Sample { deed, success })
}

#[test]
fn issued_tokens_are_held_once_stored() {
    let mut user = user_with(60, 20, &[]);
    let (action, round) = act(user.issue_token());
    assert!(matches!(action, Action::Perform(Operation::Issue { bits: 8 })));
    let (action, round) = act(user.go_on(round, Event::Performed(Ok(Outcome::Token(mint(4))))));
    assert!(matches!(action, Action::Store(_)));
    assert!(user.tokens.is_empty());
    let (measured, outcome) = end(user.go_on(round, Event::Stored(Ok(7))));
    assert_eq!(measured, sample(Deed::Issue, true));
    assert!(outcome.is_ok());
    assert_eq!(held(&user), [(7, 4)]);

    // A refusal is measured, a token that cannot be stored is not
    let (_, round) = act(user.issue_token());
    let (measured, outcome) = end(user.go_on(round, Event::Performed(Err(ClientError::PowFailed))));
    assert_eq!(measured, sample(Deed::Issue, false));
    assert!(outcome.is_err());
    let (_, round) = act(user.issue_token());
    let (_, round) = act(user.go_on(round, Event::Performed(Ok(Outcome::Token(mint(4))))));
    let full = || ClientError::Database("full".to_string());
    let (measured, outcome) = end(user.go_on(round, Event::Stored(Err(full()))));
    assert_eq!(measured, None);
    assert!(outcome.is_err());
    assert_eq!(held(&user), [(7, 4)]);
}

#[test]
fn spent_tokens_are_replaced_by_the_rest() {
    let mut user = user_with(60, 20, &[50]);
    let (action, round) = act(user.spend_random_token());
    let amount = match action {
        Action::Perform(Operation::Spend { amount, .. }) => amount,
        _ => panic!("expected a spend"),
    };
    assert!(1 <= amount && amount < 50);
    let rest = Outcome::Token(mint(50 - amount));
    let (action, round) = act(user.go_on(round, Event::Performed(Ok(rest))));
    assert!(matches!(action, Action::Update(0, _)));
    let (measured, _) = end(user.go_on(round, Event::Updated(Ok(()))));
    assert_eq!(measured, sample(Deed::Spend, true));
    assert_eq!(held(&user), [(0, 50 - amount)]);

    let mut poor = user_with(60, 20, &[1]);
    let (measured, outcome) = end(poor.spend_random_token());
    assert_eq!(measured, None);
    assert!(outcome.is_ok());
    assert!(poor.tokens.is_empty());
    assert!(end(poor.spend_random_token()).1.is_err());
}

#[test]
fn combinations_store_before_they_delete() {
    let mut user = user_with(60, 20, &[1, 2, 3]);
    let (first, counter) = user.combine_random_tokens(0, 4);
    assert_eq!(counter, 1);
    let (action, round) = act(first);
    match action {
        Action::Perform(Operation::Combine { tokens }) => {
            let values: Vec<u128> = tokens.iter().map(|t| t.get_value()).collect();
            assert_eq!(values, [2, 3]);
        }
        _ => panic!("expected a combination"),
    }
    let (action, round) = act(user.go_on(round, Event::Performed(Ok(Outcome::Token(mint(5))))));
    assert!(matches!(action, Action::Store(_)));
    let (action, round) = act(user.go_on(round, Event::Stored(Ok(9))));
    assert!(matches!(action, Action::Delete(1)));
    // A token that cannot be deleted does no harm
    let gone = || ClientError::Io("gone".to_string());
    let (action, round) = act(user.go_on(round, Event::Deleted(Err(gone()))));
    assert!(matches!(action, Action::Delete(2)));
    let (measured, outcome) = end(user.go_on(round, Event::Deleted(Ok(()))));
    assert_eq!(measured, sample(Deed::Combine, true));
    assert!(outcome.is_ok());
    assert_eq!(held(&user), [(0, 1), (9, 5)]);

    let (_, round) = act(user.combine_random_tokens(5, 0).0);
    let refused = Event::Performed(Err(ClientError::InvalidResponse));
    let (measured, _) = end(user.go_on(round, refused));
    assert_eq!(measured, sample(Deed::Combine, false));
    assert_eq!(held(&user), [(0, 1), (9, 5)]);
}

#[test]
fn splits_hold_what_could_be_stored() {
    let mut user = user_with(60, 20, &[1, 10]);
    let (action, round) = act(user.split_random_token());
    match action {
        Action::Perform(Operation::Split { token, amounts }) => {
            assert_eq!(token.get_value(), 10);
            assert_eq!(amounts.iter().sum::<u128>(), 10);
            assert!(amounts.iter().all(|amount| *amount >= 1));
        }
        _ => panic!("expected a split"),
    }
    let parts = vec![mint(4), mint(6)];
    let (action, round) = act(user.go_on(round, Event::Performed(Ok(Outcome::Tokens(parts)))));
    assert!(matches!(action, Action::Delete(1)));
    let (action, round) = act(user.go_on(round, Event::Deleted(Ok(()))));
    assert!(matches!(action, Action::Store(t) if t.get_value() == 4));
    let (action, round) = act(user.go_on(round, Event::Stored(Ok(20))));
    assert!(matches!(action, Action::Store(t) if t.get_value() == 6));
    let full = Event::Stored(Err(ClientError::Database("full".to_string())));
    let (measured, outcome) = end(user.go_on(round, full));
    assert_eq!(measured, sample(Deed::Split, true));
    assert!(outcome.is_ok());
    assert_eq!(held(&user), [(0, 1), (20, 4)]);

    // After a part that could not be stored, the next identifier goes to that part
    let mut user = user_with(60, 20, &[10]);
    let (_, round) = act(user.split_random_token());
    let parts = vec![mint(4), mint(6)];
    let (_, round) = act(user.go_on(round, Event::Performed(Ok(Outcome::Tokens(parts)))));
    let (_, round) = act(user.go_on(round, Event::Deleted(Ok(()))));
    let full = Event::Stored(Err(ClientError::Database("full".to_string())));
    let (_, round) = act(user.go_on(round, full));
    assert!(user.can_go_on(&round, &Event::Stored(Ok(21))));
    assert!(!user.can_go_on(&round, &Event::Deleted(Ok(()))));
    let (measured, _) = end(user.go_on(round, Event::Stored(Ok(21))));
    assert_eq!(measured, sample(Deed::Split, true));
    assert_eq!(held(&user), [(21, 4)]);
    let none = Round::Splitting { index: 1, id: 0 };
    assert!(!user.can_go_on(&none, &Event::Performed(Err(ClientError::PowFailed))));

    // Where nothing can be split, a token is issued
    let poor = user_with(60, 20, &[1]);
    let (action, _) = act(poor.split_random_token());
    assert!(matches!(action, Action::Perform(Operation::Issue { bits: 8 })));
    assert!(end(user_with(60, 20, &[]).split_random_token()).1.is_err());
}

#[test]
fn deeds_have_their_names() {
    let names: Vec<&str> =
        [Deed::Issue, Deed::Spend, Deed::Combine, Deed::Split].iter().map(|d| d.name()).collect();
    assert_eq!(names, ["issue", "spend", "combine", "split"]);
}
