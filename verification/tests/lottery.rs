use lottery::account::AccountId;
use lottery::clock::{Schedule, DRAWING_DELAY, ENTRY_PERIOD};
use lottery::error::{DrawError, LedgerError, PayoutError};
use lottery::lottery::Lottery;
use lottery::random::{FetchRandom, RandomReadErr};
use lottery::round::{Payout, RoundPhase};

fn account(tag: u8) -> AccountId {
    AccountId::new([tag; 32])
}

fn sample(first: [u8; 4]) -> [u8; 32] {
    let mut bytes = [0xffu8; 32];
    bytes[..4].copy_from_slice(&first);
    bytes
}

/// A round started at height 0 in which A holds 30 tickets and B holds 70.
fn thirty_seventy() -> Lottery {
    let mut lottery = Lottery::new_lottery(0);
    assert_eq!(lottery.purchase_tickets(1, account(b'A'), 30, 31), Ok(()));
    assert_eq!(lottery.purchase_tickets(2, account(b'B'), 70, 71), Ok(()));
    lottery
}

struct Oracle {
    answer: Result<[u8; 32], RandomReadErr>,
    asked: Vec<[u8; 32]>,
}

impl FetchRandom for Oracle {
    fn fetch_random(&mut self, subject: [u8; 32]) -> Result<[u8; 32], RandomReadErr> {
        self.asked.push(subject);
        self.answer
    }
}

#[test]
fn default_works() {
    let lottery = Lottery::new_lottery(0);
    assert_eq!(lottery.get_winner(), None);
}

#[test]
fn it_works() {
    let lottery = Lottery::new_lottery(0);
    assert_eq!(lottery.entrants().len(), 0);
}

#[test]
fn new_lottery_sets_both_heights() {
    let lottery = Lottery::new_lottery(7);
    assert_eq!(lottery.schedule(), Schedule { ending_height: 100807, drawing_height: 100907 });
    assert_eq!(ENTRY_PERIOD, 100800);
    assert_eq!(DRAWING_DELAY, 100900);
    assert_eq!(lottery.jackpot_size(), 0);
    assert_eq!(lottery.get_winner(), None);
    assert!(!lottery.is_paid_out());
    assert!(lottery.entries().is_empty());
    let last = Lottery::new_lottery(u32::MAX - DRAWING_DELAY);
    assert_eq!(last.schedule().drawing_height, u32::MAX);
}

#[test]
fn clock_gate_classifies_heights() {
    let schedule = Schedule::starting_at(1000);
    assert!(schedule.is_open(1000));
    assert!(schedule.is_open(1000 + ENTRY_PERIOD - 1));
    assert!(!schedule.is_open(1000 + ENTRY_PERIOD));
    assert!(!schedule.is_drawable(1000 + ENTRY_PERIOD));
    assert!(!schedule.is_drawable(1000 + DRAWING_DELAY - 1));
    assert!(schedule.is_drawable(1000 + DRAWING_DELAY));
    assert!(schedule.is_drawable(u32::MAX));
    assert!(schedule.is_open(0));
}

#[test]
fn phases_follow_the_clock_and_the_winner() {
    let mut lottery = thirty_seventy();
    assert_eq!(lottery.phase(0), RoundPhase::Open);
    assert_eq!(lottery.phase(ENTRY_PERIOD - 1), RoundPhase::Open);
    assert_eq!(lottery.phase(ENTRY_PERIOD), RoundPhase::ClosedAwaitingDraw);
    assert_eq!(lottery.phase(DRAWING_DELAY), RoundPhase::ClosedAwaitingDraw);
    assert!(lottery.lottery_is_open(0));
    assert!(!lottery.lottery_is_open(ENTRY_PERIOD));
    assert_eq!(lottery.settle_draw(DRAWING_DELAY, Ok(sample([0, 0, 0, 0]))), Ok(()));
    assert_eq!(lottery.phase(DRAWING_DELAY), RoundPhase::Drawn);
    assert_eq!(lottery.phase(0), RoundPhase::Drawn);
    assert!(!lottery.lottery_is_open(0));
    assert!(lottery.payout().is_ok());
    assert_eq!(lottery.phase(DRAWING_DELAY), RoundPhase::PaidOut);
    assert_eq!(lottery.phase(0), RoundPhase::PaidOut);
    assert!(!lottery.lottery_is_open(0));
}

#[test]
fn purchase_needs_strictly_more_value_than_tickets() {
    let mut lottery = Lottery::new_lottery(0);
    assert_eq!(
        lottery.purchase_tickets(5, account(1), 50, 50),
        Err(LedgerError::InsufficientTransfer)
    );
    assert_eq!(lottery.get_tickets(account(1)), None);
    assert_eq!(lottery.jackpot_size(), 0);
    assert!(lottery.entrants().is_empty());
    assert_eq!(lottery.purchase_tickets(5, account(1), 50, 51), Ok(()));
    assert_eq!(lottery.get_tickets(account(1)), Some(50));
    assert_eq!(lottery.jackpot_size(), 50);
    assert_eq!(lottery.purchase_tickets(6, account(1), 50, 51), Ok(()));
    assert_eq!(lottery.get_tickets(account(1)), Some(100));
    assert_eq!(lottery.get_tickets_by_account(account(1)), Some(100));
    assert_eq!(lottery.get_tickets_by_account(account(2)), None);
    assert_eq!(lottery.jackpot_size(), 100);
    assert_eq!(lottery.entrants(), vec![account(1)]);
}

#[test]
fn purchase_is_refused_once_sales_end() {
    let mut lottery = Lottery::new_lottery(10);
    assert_eq!(lottery.purchase_tickets(10 + ENTRY_PERIOD - 1, account(1), 1, 2), Ok(()));
    assert_eq!(
        lottery.purchase_tickets(10 + ENTRY_PERIOD, account(1), 1, 2),
        Err(LedgerError::RoundClosed)
    );
    assert_eq!(
        lottery.purchase_tickets(10 + DRAWING_DELAY, account(2), 1, 2),
        Err(LedgerError::RoundClosed)
    );
    // a closed round is reported before a short transfer
    assert_eq!(
        lottery.purchase_tickets(10 + ENTRY_PERIOD, account(1), 5, 5),
        Err(LedgerError::RoundClosed)
    );
    assert_eq!(lottery.jackpot_size(), 1);
    assert_eq!(lottery.entries(), vec![(account(1), 1)]);
}

#[test]
fn draw_before_drawing_height_is_refused() {
    let mut lottery = thirty_seventy();
    assert_eq!(
        lottery.settle_draw(DRAWING_DELAY - 1, Ok(sample([1, 1, 1, 1]))),
        Err(DrawError::NotYetDrawable)
    );
    assert_eq!(lottery.settle_draw(0, Ok(sample([1, 1, 1, 1]))), Err(DrawError::NotYetDrawable));
    assert_eq!(
        lottery.settle_draw(ENTRY_PERIOD, Err(RandomReadErr::FailGetRandomSource)),
        Err(DrawError::NotYetDrawable)
    );
    assert_eq!(lottery.draw_refusal(DRAWING_DELAY - 1), Some(DrawError::NotYetDrawable));
    assert_eq!(lottery.draw_refusal(DRAWING_DELAY), None);
    assert_eq!(lottery.get_winner(), None);
}

#[test]
fn second_draw_is_refused() {
    let mut lottery = thirty_seventy();
    assert_eq!(lottery.settle_draw(DRAWING_DELAY, Ok(sample([0, 0, 0, 0]))), Ok(()));
    assert_eq!(lottery.get_winner(), Some(account(b'A')));
    assert_eq!(
        lottery.settle_draw(DRAWING_DELAY, Ok(sample([99, 1, 1, 1]))),
        Err(DrawError::AlreadyDrawn)
    );
    assert_eq!(
        lottery.settle_draw(DRAWING_DELAY + 5, Err(RandomReadErr::FailGetRandomSource)),
        Err(DrawError::AlreadyDrawn)
    );
    assert_eq!(lottery.draw_refusal(u32::MAX), Some(DrawError::AlreadyDrawn));
    assert_eq!(lottery.get_winner(), Some(account(b'A')));
}

#[test]
fn draw_on_empty_pool_is_refused() {
    let mut lottery = Lottery::new_lottery(0);
    assert_eq!(
        lottery.settle_draw(DRAWING_DELAY, Ok(sample([1, 2, 3, 4]))),
        Err(DrawError::EmptyPool)
    );
    assert_eq!(lottery.get_winner(), None);
    let mut oracle = Oracle { answer: Ok(sample([1, 2, 3, 4])), asked: Vec::new() };
    assert_eq!(lottery.draw_winner(DRAWING_DELAY, &mut oracle), Err(DrawError::EmptyPool));
    assert!(oracle.asked.is_empty());
    assert_eq!(lottery.get_winner(), None);
    assert_eq!(lottery.payout(), Err(PayoutError::NoWinnerYet));
}

#[test]
fn draw_selects_by_winning_number() {
    for (first, winner) in [
        ([0u8, 7, 7, 7], b'A'),
        ([29, 1, 1, 1], b'A'),
        ([30, 1, 1, 1], b'B'),
        ([99, 1, 1, 1], b'B'),
        ([100, 1, 1, 1], b'A'),
    ] {
        let mut lottery = thirty_seventy();
        assert_eq!(lottery.settle_draw(DRAWING_DELAY, Ok(sample(first))), Ok(()));
        assert_eq!(lottery.get_winner(), Some(account(winner)));
        assert_eq!(lottery.jackpot_size(), 100);
    }
}

#[test]
fn failed_oracle_leaves_the_round_to_be_drawn_again() {
    let mut lottery = thirty_seventy();
    assert_eq!(
        lottery.settle_draw(DRAWING_DELAY, Err(RandomReadErr::FailGetRandomSource)),
        Err(DrawError::RandomnessUnavailable)
    );
    assert_eq!(lottery.get_winner(), None);
    assert_eq!(lottery.phase(DRAWING_DELAY), RoundPhase::ClosedAwaitingDraw);
    assert_eq!(lottery.settle_draw(DRAWING_DELAY + 1, Ok(sample([30, 1, 1, 1]))), Ok(()));
    assert_eq!(lottery.get_winner(), Some(account(b'B')));
}

#[test]
fn draw_winner_asks_the_oracle_about_the_jackpot() {
    let mut lottery = thirty_seventy();
    let mut oracle = Oracle { answer: Ok(sample([3, 5, 7, 11])), asked: Vec::new() };
    assert_eq!(lottery.draw_winner(DRAWING_DELAY - 1, &mut oracle), Err(DrawError::NotYetDrawable));
    assert!(oracle.asked.is_empty());
    assert_eq!(lottery.draw_winner(DRAWING_DELAY, &mut oracle), Ok(()));
    let mut subject = [0u8; 32];
    for i in 0..8 {
        subject[4 * i + 3] = 100;
    }
    assert_eq!(oracle.asked, vec![subject]);
    assert_eq!(lottery.draw_subject(), subject);
    // winning number 32 falls on B
    assert_eq!(lottery.get_winner(), Some(account(b'B')));
    assert_eq!(lottery.draw_winner(DRAWING_DELAY, &mut oracle), Err(DrawError::AlreadyDrawn));
    assert_eq!(oracle.asked.len(), 1);
}

#[test]
fn draw_winner_reports_a_failed_oracle() {
    let mut lottery = thirty_seventy();
    let mut oracle = Oracle { answer: Err(RandomReadErr::FailGetRandomSource), asked: Vec::new() };
    assert_eq!(
        lottery.draw_winner(DRAWING_DELAY, &mut oracle),
        Err(DrawError::RandomnessUnavailable)
    );
    assert_eq!(oracle.asked.len(), 1);
    assert_eq!(lottery.get_winner(), None);
}

#[test]
fn payout_needs_a_winner() {
    let mut lottery = thirty_seventy();
    assert_eq!(lottery.payout(), Err(PayoutError::NoWinnerYet));
    assert!(!lottery.is_paid_out());
    assert_eq!(lottery.settle_draw(DRAWING_DELAY, Ok(sample([30, 1, 1, 1]))), Ok(()));
    assert_eq!(lottery.payout(), Ok(Payout { winner: account(b'B'), amount: 100 }));
    assert!(lottery.is_paid_out());
}

#[test]
fn nothing_is_accepted_after_payout() {
    let mut lottery = thirty_seventy();
    assert_eq!(lottery.settle_draw(DRAWING_DELAY, Ok(sample([0, 0, 0, 0]))), Ok(()));
    assert!(lottery.payout().is_ok());
    for now in [0, 1, ENTRY_PERIOD, DRAWING_DELAY, u32::MAX] {
        assert_eq!(
            lottery.purchase_tickets(now, account(b'C'), 1, 2),
            Err(LedgerError::RoundClosed)
        );
        assert!(lottery.settle_draw(now, Ok(sample([1, 1, 1, 1]))).is_err());
        let mut oracle = Oracle { answer: Ok(sample([1, 1, 1, 1])), asked: Vec::new() };
        assert!(lottery.draw_winner(now, &mut oracle).is_err());
        assert!(oracle.asked.is_empty());
        assert_eq!(lottery.payout(), Err(PayoutError::RoundClosed));
    }
    assert_eq!(
        lottery.settle_draw(DRAWING_DELAY, Ok(sample([1, 1, 1, 1]))),
        Err(DrawError::AlreadyDrawn)
    );
    assert_eq!(lottery.get_winner(), Some(account(b'A')));
    assert_eq!(lottery.jackpot_size(), 100);
    assert_eq!(lottery.entries(), vec![(account(b'A'), 30), (account(b'B'), 70)]);
}

#[test]
fn no_purchase_after_the_draw() {
    let mut lottery = thirty_seventy();
    assert_eq!(lottery.settle_draw(DRAWING_DELAY, Ok(sample([0, 0, 0, 0]))), Ok(()));
    assert_eq!(lottery.purchase_tickets(3, account(b'A'), 1, 2), Err(LedgerError::RoundClosed));
    assert_eq!(lottery.get_tickets(account(b'A')), Some(30));
}

#[test]
fn queries_repeat_their_answers() {
    let mut lottery = thirty_seventy();
    assert_eq!(lottery.jackpot_size(), lottery.jackpot_size());
    assert_eq!(lottery.get_winner(), lottery.get_winner());
    assert_eq!(lottery.get_tickets(account(b'A')), lottery.get_tickets(account(b'A')));
    assert_eq!(lottery.lottery_is_open(5), lottery.lottery_is_open(5));
    assert_eq!(lottery.settle_draw(DRAWING_DELAY, Ok(sample([30, 1, 1, 1]))), Ok(()));
    for _ in 0..3 {
        assert_eq!(lottery.jackpot_size(), 100);
        assert_eq!(lottery.get_winner(), Some(account(b'B')));
    }
}

#[test]
fn ticket_price_is_one_token() {
    let lottery = Lottery::new_lottery(0);
    assert_eq!(lottery.get_ticket_price(), "Ticket costs exactly 1 token");
}

#[test]
fn status_codes_of_the_oracle() {
    assert_eq!(RandomReadErr::from_status_code(0), Ok(()));
    assert_eq!(RandomReadErr::from_status_code(1), Err(RandomReadErr::FailGetRandomSource));
}

#[test]
fn restore_rebuilds_the_round() {
    let mut lottery = thirty_seventy();
    assert_eq!(lottery.settle_draw(DRAWING_DELAY, Ok(sample([30, 1, 1, 1]))), Ok(()));
    let mut restored = Lottery::restore(
        lottery.get_winner(),
        &lottery.entries(),
        lottery.schedule(),
        lottery.is_paid_out(),
    )
    .expect("a round restores from its own parts");
    assert_eq!(restored.get_winner(), Some(account(b'B')));
    assert_eq!(restored.entries(), lottery.entries());
    assert_eq!(restored.jackpot_size(), 100);
    assert_eq!(restored.schedule(), lottery.schedule());
    assert_eq!(restored.payout(), Ok(Payout { winner: account(b'B'), amount: 100 }));
}

#[test]
fn restore_refuses_what_is_no_round() {
    let schedule = Schedule::starting_at(0);
    let entries = vec![(account(1), 3), (account(2), 1)];
    assert!(Lottery::restore(None, &entries, schedule, false).is_some());
    assert!(Lottery::restore(Some(account(1)), &entries, schedule, false).is_some());
    assert!(Lottery::restore(Some(account(1)), &entries, schedule, true).is_some());
    // nothing is paid out without a winner
    assert!(Lottery::restore(None, &entries, schedule, true).is_none());
    // a winner is among the entrants
    assert!(Lottery::restore(Some(account(3)), &entries, schedule, false).is_none());
    // every entrant holds a ticket
    let empty_handed = vec![(account(1), 3), (account(2), 0)];
    assert!(Lottery::restore(None, &empty_handed, schedule, false).is_none());
    assert!(Lottery::restore(Some(account(1)), &empty_handed, schedule, false).is_none());
    // sales end before the draw
    let late = Schedule { ending_height: 5, drawing_height: 5 };
    assert!(Lottery::restore(None, &entries, late, false).is_none());
    // no account twice
    let twice = vec![(account(1), 3), (account(1), 1)];
    assert!(Lottery::restore(None, &twice, schedule, false).is_none());
    // the tickets fit the jackpot
    let many = vec![(account(1), u32::MAX), (account(2), 1)];
    assert!(Lottery::restore(None, &many, schedule, false).is_none());
}

#[test]
fn purchase_of_no_tickets_enrols_nobody() {
    let mut lottery = Lottery::new_lottery(0);
    assert_eq!(lottery.purchase_tickets(1, account(1), 0, 0), Err(LedgerError::InsufficientTransfer));
    assert_eq!(lottery.purchase_tickets(1, account(1), 0, 1), Ok(()));
    assert!(lottery.entrants().is_empty());
    assert_eq!(lottery.get_tickets(account(1)), None);
    assert_eq!(lottery.jackpot_size(), 0);
    assert_eq!(lottery.purchase_tickets(2, account(2), 5, 6), Ok(()));
    assert_eq!(lottery.purchase_tickets(3, account(2), 0, 1), Ok(()));
    assert_eq!(lottery.purchase_tickets(3, account(1), 0, 7), Ok(()));
    assert_eq!(lottery.entries(), vec![(account(2), 5)]);
    assert_eq!(lottery.jackpot_size(), 5);
    assert_eq!(lottery.settle_draw(DRAWING_DELAY, Ok(sample([3, 1, 1, 1]))), Ok(()));
    assert_eq!(lottery.get_winner(), Some(account(2)));
}

#[test]
fn refused_draw_does_not_ask_the_oracle() {
    let mut lottery = thirty_seventy();
    let mut oracle = Oracle { answer: Ok(sample([1, 1, 1, 1])), asked: Vec::new() };
    assert_eq!(lottery.draw_winner(DRAWING_DELAY - 1, &mut oracle), Err(DrawError::NotYetDrawable));
    assert!(oracle.asked.is_empty());
    assert_eq!(lottery.draw_winner(DRAWING_DELAY, &mut oracle), Ok(()));
    assert_eq!(oracle.asked.len(), 1);
    assert_eq!(lottery.draw_winner(DRAWING_DELAY, &mut oracle), Err(DrawError::AlreadyDrawn));
    assert!(lottery.payout().is_ok());
    assert_eq!(lottery.draw_winner(DRAWING_DELAY + 1, &mut oracle), Err(DrawError::AlreadyDrawn));
    assert_eq!(oracle.asked.len(), 1);
    let mut empty = Lottery::new_lottery(0);
    assert_eq!(empty.draw_winner(DRAWING_DELAY, &mut oracle), Err(DrawError::EmptyPool));
    assert_eq!(oracle.asked.len(), 1);
}
