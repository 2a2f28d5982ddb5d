use lottery::account::AccountId;
use lottery::draw::{draw, draw_subject, select_winner, winning_number};
use lottery::error::DrawError;
use lottery::ledger::Ledger;

fn account(tag: u8) -> AccountId {
    AccountId::new([tag; 32])
}

fn sample(first: [u8; 4]) -> [u8; 32] {
    let mut bytes = [0xffu8; 32];
    bytes[..4].copy_from_slice(&first);
    bytes
}

fn thirty_seventy() -> Ledger {
    let mut ledger = Ledger::new();
    assert_eq!(ledger.deposit(account(b'A'), 30, 31), Ok(()));
    assert_eq!(ledger.deposit(account(b'B'), 70, 71), Ok(()));
    ledger
}

#[test]
fn winning_number_selects_by_cumulative_tickets() {
    let ledger = thirty_seventy();
    assert_eq!(select_winner(&ledger, 1), Ok(account(b'A')));
    assert_eq!(select_winner(&ledger, 30), Ok(account(b'A')));
    assert_eq!(select_winner(&ledger, 31), Ok(account(b'B')));
    assert_eq!(select_winner(&ledger, 100), Ok(account(b'B')));
}

#[test]
fn winning_number_out_of_range_names_nobody() {
    let ledger = thirty_seventy();
    assert_eq!(select_winner(&ledger, 101), Err(DrawError::DrawExhausted));
    assert_eq!(select_winner(&ledger, 0), Err(DrawError::DrawExhausted));
    assert_eq!(select_winner(&ledger, u32::MAX), Err(DrawError::DrawExhausted));
    assert_eq!(select_winner(&Ledger::new(), 1), Err(DrawError::DrawExhausted));
}

#[test]
fn account_without_tickets_is_never_selected() {
    let mut ledger = Ledger::new();
    assert_eq!(ledger.deposit(account(1), 0, 1), Ok(()));
    assert_eq!(ledger.deposit(account(2), 2, 3), Ok(()));
    assert_eq!(ledger.deposit(account(3), 0, 1), Ok(()));
    assert_eq!(ledger.deposit(account(4), 1, 2), Ok(()));
    assert_eq!(ledger.entrant_count(), 2);
    assert_eq!(select_winner(&ledger, 0), Err(DrawError::DrawExhausted));
    assert_eq!(select_winner(&ledger, 1), Ok(account(2)));
    assert_eq!(select_winner(&ledger, 2), Ok(account(2)));
    assert_eq!(select_winner(&ledger, 3), Ok(account(4)));
    assert_eq!(select_winner(&ledger, 4), Err(DrawError::DrawExhausted));
}

#[test]
fn each_entrant_is_named_by_as_many_numbers_as_tickets_held() {
    let mut ledger = Ledger::new();
    let held: [(u8, u32); 4] = [(1, 5), (2, 0), (3, 11), (4, 1)];
    for (tag, amount) in held {
        assert_eq!(ledger.deposit(account(tag), amount, u64::from(amount) + 1), Ok(()));
    }
    for (tag, amount) in held {
        let named = (1..=ledger.total())
            .filter(|r| select_winner(&ledger, *r) == Ok(account(tag)))
            .count();
        assert_eq!(named as u32, amount);
    }
}

#[test]
fn winning_number_is_the_reduced_byte_product_plus_one() {
    // 3 * 5 * 7 * 11 = 1155, 1155 mod 256 = 131, 131 mod 100 = 31
    assert_eq!(winning_number(&sample([3, 5, 7, 11]), 100), 32);
    assert_eq!(winning_number(&sample([3, 5, 7, 11]), 1000), 132);
    assert_eq!(winning_number(&sample([1, 1, 1, 1]), 100), 2);
    assert_eq!(winning_number(&sample([99, 1, 1, 1]), 100), 100);
    assert_eq!(winning_number(&sample([0, 200, 200, 200]), 7), 1);
    assert_eq!(winning_number(&sample([255, 1, 1, 1]), u32::MAX), 256);
}

#[test]
fn winning_number_keeps_eight_bits_of_the_product() {
    // 16 * 16 = 256 leaves nothing in eight bits
    assert_eq!(winning_number(&sample([16, 16, 1, 1]), 100), 1);
    // 255 * 255 * 255 * 255 = 4228250625, which ends in the byte 0x01
    assert_eq!(winning_number(&sample([255, 255, 255, 255]), 100), 2);
    // 2 * 3 * 100 = 600, 600 mod 256 = 88
    assert_eq!(winning_number(&sample([2, 3, 100, 1]), 1000), 89);
}

#[test]
fn winning_number_stays_within_the_jackpot() {
    for total in [1u32, 2, 3, 100, 255, 256, 257, 70000] {
        for a in [0u8, 1, 2, 17, 128, 255] {
            for b in [1u8, 3, 200] {
                let r = winning_number(&sample([a, b, 7, 9]), total);
                assert!(1 <= r && r <= total);
            }
        }
    }
}

#[test]
fn winning_number_ignores_the_rest_of_the_sample() {
    let mut other = sample([9, 8, 7, 6]);
    other[4] = 0;
    other[31] = 0;
    assert_eq!(winning_number(&other, 1000), winning_number(&sample([9, 8, 7, 6]), 1000));
}

#[test]
fn subject_repeats_the_jackpot_bytes() {
    let subject = draw_subject(0x0102_0304);
    for (i, byte) in subject.iter().enumerate() {
        assert_eq!(*byte, [1u8, 2, 3, 4][i % 4]);
    }
    assert_eq!(draw_subject(0), [0u8; 32]);
    assert_eq!(draw_subject(u32::MAX), [0xffu8; 32]);
    let subject = draw_subject(100);
    assert_eq!(&subject[..8], &[0, 0, 0, 100, 0, 0, 0, 100]);
    for i in 0..32 {
        assert_eq!(draw_subject(0xdead_beef)[i], 0xdead_beefu32.to_be_bytes()[i % 4]);
    }
}

#[test]
fn draw_on_empty_pool_fails() {
    assert_eq!(draw(&Ledger::new(), &sample([1, 2, 3, 4])), Err(DrawError::EmptyPool));
    let mut ledger = Ledger::new();
    assert_eq!(ledger.deposit(account(1), 0, 1), Ok(()));
    assert_eq!(ledger.entrant_count(), 0);
    assert_eq!(draw(&ledger, &sample([1, 2, 3, 4])), Err(DrawError::EmptyPool));
}

#[test]
fn draw_names_the_holder_of_the_winning_ticket() {
    let ledger = thirty_seventy();
    // winning number 1
    assert_eq!(draw(&ledger, &sample([0, 9, 9, 9])), Ok(account(b'A')));
    // winning number 30
    assert_eq!(draw(&ledger, &sample([29, 1, 1, 1])), Ok(account(b'A')));
    // winning number 31
    assert_eq!(draw(&ledger, &sample([30, 1, 1, 1])), Ok(account(b'B')));
    // winning number 100
    assert_eq!(draw(&ledger, &sample([99, 1, 1, 1])), Ok(account(b'B')));
    // 3 * 5 * 7 * 11 gives winning number 32
    assert_eq!(draw(&ledger, &sample([3, 5, 7, 11])), Ok(account(b'B')));
}
