use acom::future::{select_order, CoinToss, JoinState, SelectRound, SelectStep, Side, Sleep, SleepStep, YieldNow, YieldStep};

#[test]
fn yield_now_pends_once_then_is_ready() {
    let mut y = YieldNow::new();
    assert_eq!(y.poll(), YieldStep::WakeAndPend);
    assert_eq!(y.poll(), YieldStep::Ready);
    assert_eq!(y.poll(), YieldStep::Ready);
}

#[test]
fn sleep_registers_timer_once() {
    let mut s = Sleep::new();
    assert_eq!(s.poll(false), SleepStep::RegisterTimer);
    assert_eq!(s.poll(false), SleepStep::Pend);
    assert_eq!(s.poll(true), SleepStep::Ready);
}

#[test]
fn sleep_past_deadline_is_ready_at_once() {
    let mut s = Sleep::new();
    assert_eq!(s.poll(true), SleepStep::Ready);
    assert!(!s.registered);
}

#[test]
fn join_waits_for_both_outputs() {
    let mut j: JoinState<i32, &str> = JoinState::new();
    assert_eq!(j.finish(), None);
    j.complete_second("two");
    assert_eq!(j.finish(), None);
    j.complete_first(1);
    assert_eq!(j.finish(), Some((1, "two")));
    assert_eq!(j.finish(), None);
}

#[test]
fn join_first_then_second() {
    let mut j: JoinState<i32, i32> = JoinState::new();
    j.complete_first(1);
    j.complete_second(2);
    assert_eq!(j.finish(), Some((1, 2)));
}

#[test]
fn select_order_follows_the_coin() {
    assert_eq!(select_order(true), (Side::First, Side::Second));
    assert_eq!(select_order(false), (Side::Second, Side::First));
}

#[test]
fn coin_seed_is_odd() {
    let c = CoinToss::seeded(0);
    assert_eq!(c.state, 0x123456789abcdef);
    let c = CoinToss::seeded(0x123456789abcdef);
    assert_eq!(c.state, 1);
}

#[test]
fn coin_toss_steps_xorshift() {
    let mut c = CoinToss::seeded(0);
    assert!(!c.toss());
    assert_eq!(c.state, 4550888344034083252);
    assert!(c.toss());
    assert_eq!(c.state, 6948936140223926455);
}

#[test]
fn coin_toss_from_one() {
    let mut c = CoinToss { state: 1 };
    c.toss();
    assert_eq!(c.state, 1082269761);
    assert_ne!(c.state, 0);
}

#[test]
fn join_answers_on_the_slower_ready_poll() {
    // First future ready on poll 1 with 10, second on poll 3 with 30.
    let mut j: JoinState<i32, i32> = JoinState::new();
    let mut answers = Vec::new();
    for k in 1..=3 {
        if k == 1 {
            j.complete_first(10);
        }
        if k == 3 {
            j.complete_second(30);
        }
        answers.push(j.finish());
    }
    assert_eq!(answers, vec![None, None, Some((10, 30))]);
}

#[test]
fn select_round_first_ready_wins() {
    let (mut round, side) = SelectRound::start(true);
    assert_eq!(side, Side::First);
    assert_eq!(round.after_poll(Some(1)), SelectStep::Done(1));

    let (mut round, side) = SelectRound::start(false);
    assert_eq!(side, Side::Second);
    assert_eq!(round.after_poll(None::<i32>), SelectStep::Poll(Side::First));
    assert_eq!(round.after_poll(Some(2)), SelectStep::Done(2));
}

#[test]
fn select_round_pends_when_both_pend() {
    let (mut round, _) = SelectRound::start(true);
    assert_eq!(round.after_poll(None::<i32>), SelectStep::Poll(Side::Second));
    assert_eq!(round.after_poll(None::<i32>), SelectStep::Pend);
}

#[test]
fn sleep_registers_only_on_first_early_poll() {
    let mut s = Sleep::new();
    let steps: Vec<SleepStep> = [false, false, false, true].iter().map(|p| s.poll(*p)).collect();
    assert_eq!(
        steps,
        vec![SleepStep::RegisterTimer, SleepStep::Pend, SleepStep::Pend, SleepStep::Ready]
    );
}
