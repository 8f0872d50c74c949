use raffle::{
    claim_prize, draw_winner, enter_raffle, initialize_raffle, seed_from_hash, ClaimPrize,
    DrawWinner, EnterRaffle, EntryLedger, InitializeRaffle, Party, Pubkey, RaffleAccount,
    RaffleError, RaffleStatus, Transfer,
};

const END: i64 = 1_000;

fn key(n: u8) -> Pubkey {
    Pubkey::new([n; 32])
}

fn open(entry_price: u64, max_entries: u64) -> (RaffleAccount, EntryLedger) {
    let ctx = InitializeRaffle { authority: key(100), nft_mint: key(200), now: 0, bump: 255 };
    let (raffle, _) = initialize_raffle(&ctx, entry_price, max_entries, END).unwrap();
    (raffle, EntryLedger::new())
}

fn buy(raffle: &mut RaffleAccount, ledger: &mut EntryLedger, who: u8, n: u64) -> Result<Transfer, RaffleError> {
    enter_raffle(&EnterRaffle { user: key(who), now: 10 }, raffle, ledger, n)
}

fn draw(raffle: &mut RaffleAccount, ledger: &EntryLedger, seed: u64) -> Result<(), RaffleError> {
    draw_winner(&DrawWinner { authority: key(100), now: END, seed }, raffle, ledger)
}

/// Three entrants buying 2, 2 and 1 entries of a raffle capped at 5.
fn three_entrants() -> (RaffleAccount, EntryLedger) {
    let (mut raffle, mut ledger) = open(10, 5);
    buy(&mut raffle, &mut ledger, 1, 2).unwrap();
    buy(&mut raffle, &mut ledger, 2, 2).unwrap();
    buy(&mut raffle, &mut ledger, 3, 1).unwrap();
    (raffle, ledger)
}

#[test]
fn initialize_opens_active_raffle_and_escrows_prize() {
    let ctx = InitializeRaffle { authority: key(100), nft_mint: key(200), now: 5, bump: 7 };
    let (raffle, t) = initialize_raffle(&ctx, 10, 5, END).unwrap();
    assert_eq!(raffle.status, RaffleStatus::Active);
    assert_eq!(raffle.current_entries, 0);
    assert_eq!(raffle.escrowed_funds, 0);
    assert_eq!(raffle.winner, None);
    assert_eq!(raffle.entry_price, 10);
    assert_eq!(raffle.max_entries, 5);
    assert_eq!(raffle.end_timestamp, END);
    assert_eq!(raffle.bump, 7);
    assert_eq!(
        t,
        Transfer::Prize { from: Party::Account(key(100)), to: Party::Escrow, mint: key(200) }
    );
}

#[test]
fn initialize_rejects_zero_price() {
    let ctx = InitializeRaffle { authority: key(100), nft_mint: key(200), now: 0, bump: 0 };
    assert_eq!(initialize_raffle(&ctx, 0, 5, END).unwrap_err(), RaffleError::InvalidEntryAmount);
}

#[test]
fn initialize_rejects_deadline_not_in_future() {
    let ctx = InitializeRaffle { authority: key(100), nft_mint: key(200), now: END, bump: 0 };
    assert_eq!(initialize_raffle(&ctx, 10, 5, END).unwrap_err(), RaffleError::InvalidDeadline);
    assert_eq!(initialize_raffle(&ctx, 10, 5, END - 1).unwrap_err(), RaffleError::InvalidDeadline);
}

#[test]
fn entries_get_consecutive_ranges_and_fees() {
    let (mut raffle, mut ledger) = open(10, 5);
    let t = buy(&mut raffle, &mut ledger, 1, 2).unwrap();
    assert_eq!(t, Transfer::Tokens { from: Party::Account(key(1)), to: Party::Escrow, amount: 20 });
    buy(&mut raffle, &mut ledger, 2, 2).unwrap();
    buy(&mut raffle, &mut ledger, 3, 1).unwrap();
    assert_eq!(raffle.current_entries, 5);
    assert_eq!(raffle.escrowed_funds, 50);
    assert_eq!(ledger.next_index, 5);
    let starts: Vec<u64> = ledger.entries.iter().map(|e| e.start_index).collect();
    let counts: Vec<u64> = ledger.entries.iter().map(|e| e.count).collect();
    assert_eq!(starts, vec![0, 2, 4]);
    assert_eq!(counts, vec![2, 2, 1]);
    assert_eq!(counts.iter().sum::<u64>(), raffle.current_entries);
}

#[test]
fn enter_past_limit_fails_and_changes_nothing() {
    let (mut raffle, mut ledger) = three_entrants();
    assert_eq!(buy(&mut raffle, &mut ledger, 4, 1).unwrap_err(), RaffleError::MaxEntriesReached);
    assert_eq!(raffle.current_entries, 5);
    assert_eq!(raffle.escrowed_funds, 50);
    assert_eq!(ledger.entries.len(), 3);
}

#[test]
fn enter_that_would_overshoot_limit_fails() {
    let (mut raffle, mut ledger) = open(10, 5);
    buy(&mut raffle, &mut ledger, 1, 4).unwrap();
    assert_eq!(buy(&mut raffle, &mut ledger, 2, 2).unwrap_err(), RaffleError::MaxEntriesReached);
    assert_eq!(raffle.current_entries, 4);
    buy(&mut raffle, &mut ledger, 2, 1).unwrap();
    assert_eq!(raffle.current_entries, 5);
}

#[test]
fn unbounded_raffle_accepts_many_entries() {
    let (mut raffle, mut ledger) = open(1, 0);
    buy(&mut raffle, &mut ledger, 1, 1_000_000).unwrap();
    buy(&mut raffle, &mut ledger, 2, 3).unwrap();
    assert_eq!(raffle.current_entries, 1_000_003);
}

#[test]
fn enter_zero_entries_fails() {
    let (mut raffle, mut ledger) = open(10, 5);
    assert_eq!(buy(&mut raffle, &mut ledger, 1, 0).unwrap_err(), RaffleError::InvalidEntryAmount);
}

#[test]
fn enter_after_deadline_fails() {
    let (mut raffle, mut ledger) = open(10, 5);
    let ctx = EnterRaffle { user: key(1), now: END };
    assert_eq!(enter_raffle(&ctx, &mut raffle, &mut ledger, 1).unwrap_err(), RaffleError::RaffleEnded);
    assert_eq!(raffle.current_entries, 0);
}

#[test]
fn enter_closed_raffle_fails() {
    let (mut raffle, mut ledger) = open(10, 5);
    raffle.status = RaffleStatus::Ended;
    assert_eq!(buy(&mut raffle, &mut ledger, 1, 1).unwrap_err(), RaffleError::RaffleEnded);
}

#[test]
fn enter_with_fee_overflow_fails() {
    let (mut raffle, mut ledger) = open(u64::MAX / 2, 0);
    buy(&mut raffle, &mut ledger, 1, 2).unwrap();
    assert_eq!(buy(&mut raffle, &mut ledger, 2, 1).unwrap_err(), RaffleError::AmountOverflow);
    let (mut raffle, mut ledger) = open(u64::MAX / 2, 0);
    assert_eq!(buy(&mut raffle, &mut ledger, 2, 3).unwrap_err(), RaffleError::AmountOverflow);
    assert_eq!(raffle.current_entries, 0);
}

#[test]
fn draw_with_seed_seven_picks_second_entrant() {
    let (mut raffle, ledger) = three_entrants();
    draw(&mut raffle, &ledger, 7).unwrap();
    assert_eq!(raffle.winner, Some(key(2)));
    assert_eq!(raffle.status, RaffleStatus::WinnerDrawn);
}

#[test]
fn draw_resolves_every_index_to_its_range() {
    let expected = [1u8, 1, 2, 2, 3];
    for seed in 0..15u64 {
        let (mut raffle, ledger) = three_entrants();
        draw(&mut raffle, &ledger, seed).unwrap();
        assert_eq!(raffle.winner, Some(key(expected[(seed % 5) as usize])));
    }
}

#[test]
fn draw_is_deterministic() {
    let (mut a, ledger_a) = three_entrants();
    let (mut b, ledger_b) = three_entrants();
    draw(&mut a, &ledger_a, 123_456_789).unwrap();
    draw(&mut b, &ledger_b, 123_456_789).unwrap();
    assert_eq!(a.winner, b.winner);
    assert_eq!(ledger_a.holder(123_456_789 % 5), a.winner.unwrap());
}

#[test]
fn draw_before_deadline_fails() {
    let (mut raffle, ledger) = three_entrants();
    let ctx = DrawWinner { authority: key(100), now: END - 1, seed: 7 };
    assert_eq!(draw_winner(&ctx, &mut raffle, &ledger).unwrap_err(), RaffleError::RaffleNotEnded);
    assert_eq!(raffle.winner, None);
}

#[test]
fn draw_without_entries_fails() {
    let (mut raffle, ledger) = open(10, 5);
    assert_eq!(draw(&mut raffle, &ledger, 7).unwrap_err(), RaffleError::NoEntries);
}

#[test]
fn draw_twice_keeps_first_winner() {
    let (mut raffle, ledger) = three_entrants();
    draw(&mut raffle, &ledger, 7).unwrap();
    assert_eq!(draw(&mut raffle, &ledger, 0).unwrap_err(), RaffleError::AlreadyDrawn);
    assert_eq!(raffle.winner, Some(key(2)));
    assert_eq!(raffle.status, RaffleStatus::WinnerDrawn);
}

#[test]
fn draw_by_other_than_organizer_fails() {
    let (mut raffle, ledger) = three_entrants();
    let ctx = DrawWinner { authority: key(1), now: END, seed: 7 };
    assert_eq!(draw_winner(&ctx, &mut raffle, &ledger).unwrap_err(), RaffleError::NotAuthority);
}

#[test]
fn claim_pays_prize_and_fees_once() {
    let (mut raffle, ledger) = three_entrants();
    draw(&mut raffle, &ledger, 7).unwrap();
    let (prize, fees) = claim_prize(&ClaimPrize { winner: key(2) }, &mut raffle).unwrap();
    assert_eq!(prize, Transfer::Prize { from: Party::Escrow, to: Party::Account(key(2)), mint: key(200) });
    assert_eq!(fees, Transfer::Tokens { from: Party::Escrow, to: Party::Account(key(100)), amount: 50 });
    assert_eq!(raffle.status, RaffleStatus::Claimed);
    assert_eq!(raffle.escrowed_funds, 0);
    assert_eq!(
        claim_prize(&ClaimPrize { winner: key(2) }, &mut raffle).unwrap_err(),
        RaffleError::PrizeAlreadyClaimed
    );
    assert_eq!(
        claim_prize(&ClaimPrize { winner: key(1) }, &mut raffle).unwrap_err(),
        RaffleError::NotWinner
    );
}

#[test]
fn claim_by_non_winner_fails() {
    let (mut raffle, ledger) = three_entrants();
    draw(&mut raffle, &ledger, 7).unwrap();
    for who in [1u8, 3, 100] {
        assert_eq!(
            claim_prize(&ClaimPrize { winner: key(who) }, &mut raffle).unwrap_err(),
            RaffleError::NotWinner
        );
    }
    assert_eq!(raffle.status, RaffleStatus::WinnerDrawn);
}

#[test]
fn claim_before_draw_fails() {
    let (mut raffle, _) = three_entrants();
    raffle.status = RaffleStatus::Ended;
    assert_eq!(
        claim_prize(&ClaimPrize { winner: key(2) }, &mut raffle).unwrap_err(),
        RaffleError::DrawNotComplete
    );
    raffle.status = RaffleStatus::Active;
    assert_eq!(
        claim_prize(&ClaimPrize { winner: key(2) }, &mut raffle).unwrap_err(),
        RaffleError::DrawNotComplete
    );
}

#[test]
fn seed_reads_first_eight_bytes_little_endian() {
    let mut hash = [0u8; 32];
    hash[0] = 1;
    hash[1] = 2;
    hash[7] = 0x80;
    hash[8] = 0xff;
    hash[31] = 0xff;
    assert_eq!(seed_from_hash(&hash), 0x8000_0000_0000_0201);
    assert_eq!(seed_from_hash(&[0xff; 32]), u64::MAX);
}

#[test]
fn pubkey_equality_compares_all_bytes() {
    let mut b = [9u8; 32];
    assert_eq!(key(9), Pubkey::new(b));
    b[31] = 8;
    assert_ne!(key(9), Pubkey::new(b));
}

#[test]
fn stored_state_checks_accept_valid_and_reject_corrupt() {
    let (raffle, ledger) = three_entrants();
    assert!(raffle.is_well_formed());
    assert!(ledger.is_well_formed());
    assert!(raffle.is_consistent_with(&ledger));

    let mut gap = EntryLedger::new();
    gap.append(key(1), 2);
    gap.append(key(2), 2);
    gap.entries[1].start_index = 3;
    assert!(!gap.is_well_formed());

    let mut short = EntryLedger::new();
    short.append(key(1), 2);
    short.next_index = 3;
    assert!(!short.is_well_formed());

    let mut empty_purchase = EntryLedger::new();
    empty_purchase.entries.push(raffle::EntryRecord { entrant: key(1), start_index: 0, count: 0 });
    assert!(!empty_purchase.is_well_formed());

    let mut unfunded = raffle;
    unfunded.escrowed_funds = 40;
    assert!(!unfunded.is_well_formed());

    let mut winner_while_active = raffle;
    winner_while_active.winner = Some(key(1));
    assert!(!winner_while_active.is_well_formed());

    let mut over_limit = raffle;
    over_limit.max_entries = 4;
    assert!(!over_limit.is_well_formed());

    let (fresh, _) = open(10, 5);
    assert!(!fresh.is_consistent_with(&ledger));
}
