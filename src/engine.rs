use vstd::prelude::*;

use crate::ledger::{ledger_total_is_sum_of_counts, sum_counts, EntryLedger, EntryRecord};
use crate::pubkey::Pubkey;

verus! {

/// Where a raffle stands. Status only moves forward:
/// `Active -> Ended -> WinnerDrawn -> Claimed` (a draw may also start from
/// `Active` once the deadline has passed).
#[derive(Clone, Copy, Debug, PartialEq, Eq, Structural)]
pub enum RaffleStatus {
    /// Accepting entries until the deadline.
    Active,
    /// Closed to entries, no winner drawn yet.
    Ended,
    /// A winner is drawn, the prize is still in escrow.
    WinnerDrawn,
    /// The winner took the prize and the organizer the fees.
    Claimed,
}

#[derive(Clone, Copy, Debug, PartialEq, Eq, Structural)]
pub enum RaffleError {
    /// The draw was attempted before the deadline.
    RaffleNotEnded,
    /// Entry was attempted on a raffle that is closed or past its deadline.
    RaffleEnded,
    /// The purchase would take the raffle past its entry limit.
    MaxEntriesReached,
    /// A zero entry price, or a purchase of zero entries.
    InvalidEntryAmount,
    /// The caller of a claim is not the drawn winner.
    NotWinner,
    /// The prize was claimed already.
    PrizeAlreadyClaimed,
    /// The deadline given at opening is not in the future.
    InvalidDeadline,
    /// The draw was attempted on a raffle that sold no entry.
    NoEntries,
    /// The claim was attempted before a winner was drawn.
    DrawNotComplete,
    /// The draw was attempted after a winner was drawn.
    AlreadyDrawn,
    /// The caller of a draw is not the organizer.
    NotAuthority,
    /// A token or prize transfer of the host failed.
    TransferFailed,
    /// The fees of the raffle would not fit in a 64-bit amount.
    AmountOverflow,
}

/// The persisted state of one raffle.
#[derive(Clone, Copy, Debug)]
pub struct RaffleAccount {
    /// The organizer.
    pub authority: Pubkey,
    /// The prize asset held in escrow.
    pub nft_mint: Pubkey,
    /// Token amount paid per entry.
    pub entry_price: u64,
    /// Upper bound on the entries sold; 0 means unbounded.
    pub max_entries: u64,
    /// Entries sold so far.
    pub current_entries: u64,
    /// Ledger time from which entry is closed and the draw permitted.
    pub end_timestamp: i64,
    pub winner: Option<Pubkey>,
    pub status: RaffleStatus,
    pub bump: u8,
    /// Entry fees held in escrow.
    pub escrowed_funds: u64,
}

/// Inputs of opening a raffle: the organizer, the prize, and ledger time.
#[derive(Clone, Copy, Debug)]
pub struct InitializeRaffle {
    pub authority: Pubkey,
    pub nft_mint: Pubkey,
    pub now: i64,
    pub bump: u8,
}

/// Inputs of a purchase: the buyer and ledger time.
#[derive(Clone, Copy, Debug)]
pub struct EnterRaffle {
    pub user: Pubkey,
    pub now: i64,
}

/// Inputs of a draw: the caller, ledger time, and the entropy seed.
#[derive(Clone, Copy, Debug)]
pub struct DrawWinner {
    pub authority: Pubkey,
    pub now: i64,
    pub seed: u64,
}

/// Inputs of a claim: the caller.
#[derive(Clone, Copy, Debug)]
pub struct ClaimPrize {
    pub winner: Pubkey,
}

/// A side of a transfer: the raffle's escrow or an account.
#[derive(Clone, Copy, Debug, PartialEq, Eq)]
pub enum Party {
    Escrow,
    Account(Pubkey),
}

/// A custody movement that the host executes atomically with the
/// transition that issued it.
#[derive(Clone, Copy, Debug, PartialEq, Eq)]
pub enum Transfer {
    /// Fungible tokens.
    Tokens { from: Party, to: Party, amount: u64 },
    /// The unique prize asset.
    Prize { from: Party, to: Party, mint: Pubkey },
}

impl RaffleStatus {
    /// Position in the forward order of statuses.
    pub open spec fn rank(self) -> int {
        match self {
            RaffleStatus::Active => 0,
            RaffleStatus::Ended => 1,
            RaffleStatus::WinnerDrawn => 2,
            RaffleStatus::Claimed => 3,
        }
    }
}

impl RaffleAccount {
    /// The record invariants: a positive price, the entry limit kept, a winner
    /// exactly from the draw on, and the fees in escrow matching the entries
    /// sold until the claim pays them out.
    pub open spec fn wf(self) -> bool {
        &&& self.entry_price > 0
        &&& self.max_entries > 0 ==> self.current_entries <= self.max_entries
        &&& (self.winner is Some) <==> (self.status == RaffleStatus::WinnerDrawn
            || self.status == RaffleStatus::Claimed)
        &&& self.winner is Some ==> self.current_entries > 0
        &&& self.status == RaffleStatus::Claimed ==> self.escrowed_funds == 0
        &&& self.status != RaffleStatus::Claimed ==> self.escrowed_funds == self.current_entries
            * self.entry_price
    }

    /// The raffle and the ledger of its purchases agree.
    pub open spec fn consistent_with(self, ledger: EntryLedger) -> bool {
        &&& self.wf()
        &&& ledger.wf()
        &&& ledger.next_index == self.current_entries
    }

    /// Tells whether the record is well formed, as `wf` states; for records
    /// read back from storage.
    pub fn is_well_formed(&self) -> (r: bool)
        ensures
            r == self.wf(),
    {
        if self.entry_price == 0 {
            return false;
        }
        if self.max_entries > 0 && self.current_entries > self.max_entries {
            return false;
        }
        let drawn = self.status == RaffleStatus::WinnerDrawn || self.status == RaffleStatus::Claimed;
        if self.winner.is_some() != drawn {
            return false;
        }
        if self.winner.is_some() && self.current_entries == 0 {
            return false;
        }
        if self.status == RaffleStatus::Claimed {
            return self.escrowed_funds == 0;
        }
        if self.current_entries > u64::MAX / self.entry_price {
            proof {
                lemma_past_quotient(
                    self.current_entries as int,
                    self.entry_price as int,
                    u64::MAX as int,
                );
            }
            return false;
        }
        proof {
            lemma_within_quotient(self.current_entries as int, self.entry_price as int, u64::MAX as int);
        }
        self.escrowed_funds == self.current_entries * self.entry_price
    }

    /// Tells whether the record and its ledger agree, as `consistent_with`
    /// states.
    pub fn is_consistent_with(&self, ledger: &EntryLedger) -> (r: bool)
        ensures
            r == self.consistent_with(*ledger),
    {
        self.is_well_formed() && ledger.is_well_formed() && ledger.next_index == self.current_entries
    }
}

/// The error that opening a raffle with these inputs meets, if any.
pub open spec fn init_error(ctx: InitializeRaffle, entry_price: u64, end_timestamp: i64) -> Option<
    RaffleError,
> {
    if entry_price == 0 {
        Some(RaffleError::InvalidEntryAmount)
    } else if end_timestamp <= ctx.now {
        Some(RaffleError::InvalidDeadline)
    } else {
        None
    }
}

/// The record of a freshly opened raffle.
pub open spec fn opened(
    ctx: InitializeRaffle,
    entry_price: u64,
    max_entries: u64,
    end_timestamp: i64,
) -> RaffleAccount {
    RaffleAccount {
        authority: ctx.authority,
        nft_mint: ctx.nft_mint,
        entry_price,
        max_entries,
        current_entries: 0,
        end_timestamp,
        winner: None,
        status: RaffleStatus::Active,
        bump: ctx.bump,
        escrowed_funds: 0,
    }
}

/// Opens a raffle. On success the organizer's prize moves into escrow with
/// the returned transfer, and the raffle starts `Active` with no entries; its
/// ledger is `EntryLedger::new()`.
pub fn initialize_raffle(
    ctx: &InitializeRaffle,
    entry_price: u64,
    max_entries: u64,
    end_timestamp: i64,
) -> (r: Result<(RaffleAccount, Transfer), RaffleError>)
    ensures
        r is Ok <==> init_error(*ctx, entry_price, end_timestamp) is None,
        r matches Err(e) ==> init_error(*ctx, entry_price, end_timestamp) == Some(e),
        r matches Ok((raffle, t)) ==> {
            &&& raffle == opened(*ctx, entry_price, max_entries, end_timestamp)
            &&& raffle.wf()
            &&& t == (Transfer::Prize {
                from: Party::Account(ctx.authority),
                to: Party::Escrow,
                mint: ctx.nft_mint,
            })
        },
{
    if entry_price == 0 {
        return Err(RaffleError::InvalidEntryAmount);
    }
    if end_timestamp <= ctx.now {
        return Err(RaffleError::InvalidDeadline);
    }
    let raffle = RaffleAccount {
        authority: ctx.authority,
        nft_mint: ctx.nft_mint,
        entry_price,
        max_entries,
        current_entries: 0,
        end_timestamp,
        winner: None,
        status: RaffleStatus::Active,
        bump: ctx.bump,
        escrowed_funds: 0,
    };
    let t = Transfer::Prize { from: Party::Account(ctx.authority), to: Party::Escrow, mint: ctx.nft_mint };
    Ok((raffle, t))
}

/// The error that a purchase of `num_entries` meets, if any, in the order
/// in which the conditions are tested.
pub open spec fn enter_error(raffle: RaffleAccount, ctx: EnterRaffle, num_entries: u64) -> Option<
    RaffleError,
> {
    if raffle.status != RaffleStatus::Active || ctx.now >= raffle.end_timestamp {
        Some(RaffleError::RaffleEnded)
    } else if num_entries == 0 {
        Some(RaffleError::InvalidEntryAmount)
    } else if raffle.max_entries > 0 && raffle.current_entries + num_entries > raffle.max_entries {
        Some(RaffleError::MaxEntriesReached)
    } else if (raffle.current_entries + num_entries) * raffle.entry_price > u64::MAX {
        Some(RaffleError::AmountOverflow)
    } else {
        None
    }
}

/// The record after a successful purchase of `num_entries`.
pub open spec fn after_enter(raffle: RaffleAccount, num_entries: u64) -> RaffleAccount {
    RaffleAccount {
        current_entries: (raffle.current_entries + num_entries) as u64,
        escrowed_funds: (raffle.escrowed_funds + num_entries * raffle.entry_price) as u64,
        ..raffle
    }
}

/// Buys `num_entries` entries for `ctx.user`. On success the purchase is
/// appended to the ledger with the next free range, the counters grow, and
/// the returned transfer moves the fee from the buyer into escrow. On error
/// nothing changes.
pub fn enter_raffle(
    ctx: &EnterRaffle,
    raffle: &mut RaffleAccount,
    ledger: &mut EntryLedger,
    num_entries: u64,
) -> (r: Result<Transfer, RaffleError>)
    requires
        old(raffle).consistent_with(*old(ledger)),
    ensures
        final(raffle).consistent_with(*final(ledger)),
        final(raffle).status.rank() >= old(raffle).status.rank(),
        r is Ok <==> enter_error(*old(raffle), *ctx, num_entries) is None,
        r matches Err(e) ==> {
            &&& enter_error(*old(raffle), *ctx, num_entries) == Some(e)
            &&& *final(raffle) == *old(raffle)
            &&& *final(ledger) == *old(ledger)
        },
        r matches Ok(t) ==> {
            &&& *final(raffle) == after_enter(*old(raffle), num_entries)
            &&& final(ledger).entries@ == old(ledger).entries@.push(
                EntryRecord {
                    entrant: ctx.user,
                    start_index: old(raffle).current_entries,
                    count: num_entries,
                },
            )
            &&& t == (Transfer::Tokens {
                from: Party::Account(ctx.user),
                to: Party::Escrow,
                amount: (num_entries * old(raffle).entry_price) as u64,
            })
        },
{
    if raffle.status != RaffleStatus::Active || ctx.now >= raffle.end_timestamp {
        return Err(RaffleError::RaffleEnded);
    }
    if num_entries == 0 {
        return Err(RaffleError::InvalidEntryAmount);
    }
    if raffle.max_entries > 0 && num_entries > raffle.max_entries - raffle.current_entries {
        return Err(RaffleError::MaxEntriesReached);
    }
    let price = raffle.entry_price;
    let cur = raffle.current_entries;
    if num_entries > u64::MAX / price {
        proof {
            lemma_past_quotient(num_entries as int, price as int, u64::MAX as int);
            assert((cur + num_entries) * price == cur * price + num_entries * price)
                by (nonlinear_arith);
            assert(cur * price >= 0) by (nonlinear_arith) requires cur >= 0, price >= 0;
        }
        return Err(RaffleError::AmountOverflow);
    }
    proof {
        lemma_within_quotient(num_entries as int, price as int, u64::MAX as int);
    }
    let cost = num_entries * price;
    proof {
        assert((cur + num_entries) * price == cur * price + num_entries * price)
            by (nonlinear_arith);
    }
    if raffle.escrowed_funds > u64::MAX - cost {
        return Err(RaffleError::AmountOverflow);
    }
    proof {
        assert(cur + num_entries <= (cur + num_entries) * price) by (nonlinear_arith)
            requires price >= 1, cur + num_entries >= 0;
    }
    ledger.append(ctx.user, num_entries);
    raffle.current_entries = cur + num_entries;
    raffle.escrowed_funds = raffle.escrowed_funds + cost;
    Ok(Transfer::Tokens { from: Party::Account(ctx.user), to: Party::Escrow, amount: cost })
}

/// The error that a draw meets, if any, in the order in which the conditions
/// are tested.
pub open spec fn draw_error(raffle: RaffleAccount, ctx: DrawWinner) -> Option<RaffleError> {
    if ctx.now < raffle.end_timestamp {
        Some(RaffleError::RaffleNotEnded)
    } else if raffle.winner is Some {
        Some(RaffleError::AlreadyDrawn)
    } else if raffle.current_entries == 0 {
        Some(RaffleError::NoEntries)
    } else if ctx.authority@ != raffle.authority@ {
        Some(RaffleError::NotAuthority)
    } else {
        None
    }
}

/// The index that a seed selects: `seed mod entries sold`.
pub open spec fn winning_index(raffle: RaffleAccount, seed: u64) -> int {
    seed as int % raffle.current_entries as int
}

/// The record after a successful draw with `seed`.
pub open spec fn after_draw(raffle: RaffleAccount, ledger: EntryLedger, seed: u64) -> RaffleAccount {
    RaffleAccount {
        winner: Some(ledger.holder_of(winning_index(raffle, seed))),
        status: RaffleStatus::WinnerDrawn,
        ..raffle
    }
}

/// Draws the winner: the owner of entry index `ctx.seed mod current_entries`
/// in the ledger. Allowed to the organizer, once, from the deadline on, when
/// at least one entry was sold. On error nothing changes; in particular a
/// second draw leaves the first winner in place.
///
/// The plain modulo favours the lowest `2^64 mod current_entries` indices by
/// one part in `2^64 / current_entries`, a bias that is negligible for entry
/// counts far below `2^64`.
pub fn draw_winner(ctx: &DrawWinner, raffle: &mut RaffleAccount, ledger: &EntryLedger) -> (r:
    Result<(), RaffleError>)
    requires
        old(raffle).consistent_with(*ledger),
    ensures
        final(raffle).consistent_with(*ledger),
        final(raffle).status.rank() >= old(raffle).status.rank(),
        r is Ok <==> draw_error(*old(raffle), *ctx) is None,
        r matches Err(e) ==> draw_error(*old(raffle), *ctx) == Some(e) && *final(raffle) == *old(
            raffle,
        ),
        r is Ok ==> *final(raffle) == after_draw(*old(raffle), *ledger, ctx.seed),
{
    if ctx.now < raffle.end_timestamp {
        return Err(RaffleError::RaffleNotEnded);
    }
    if raffle.winner.is_some() {
        return Err(RaffleError::AlreadyDrawn);
    }
    if raffle.current_entries == 0 {
        return Err(RaffleError::NoEntries);
    }
    if ctx.authority != raffle.authority {
        return Err(RaffleError::NotAuthority);
    }
    let index = ctx.seed % raffle.current_entries;
    let w = ledger.holder(index);
    raffle.winner = Some(w);
    raffle.status = RaffleStatus::WinnerDrawn;
    Ok(())
}

/// The error that a claim meets, if any, in the order in which the conditions
/// are tested.
pub open spec fn claim_error(raffle: RaffleAccount, ctx: ClaimPrize) -> Option<RaffleError> {
    match raffle.winner {
        None => Some(RaffleError::DrawNotComplete),
        Some(w) => if ctx.winner@ != w@ {
            Some(RaffleError::NotWinner)
        } else if raffle.status == RaffleStatus::Claimed {
            Some(RaffleError::PrizeAlreadyClaimed)
        } else {
            None
        },
    }
}

/// The record after a successful claim.
pub open spec fn after_claim(raffle: RaffleAccount) -> RaffleAccount {
    RaffleAccount { status: RaffleStatus::Claimed, escrowed_funds: 0, ..raffle }
}

/// Hands the prize to the drawn winner and the escrowed fees to the
/// organizer, exactly once. Returns the prize transfer and the fee transfer.
/// On error nothing changes and nothing is transferred.
pub fn claim_prize(ctx: &ClaimPrize, raffle: &mut RaffleAccount) -> (r: Result<
    (Transfer, Transfer),
    RaffleError,
>)
    requires
        old(raffle).wf(),
    ensures
        final(raffle).wf(),
        final(raffle).status.rank() >= old(raffle).status.rank(),
        r is Ok <==> claim_error(*old(raffle), *ctx) is None,
        r matches Err(e) ==> claim_error(*old(raffle), *ctx) == Some(e) && *final(raffle) == *old(
            raffle,
        ),
        r matches Ok((prize, fees)) ==> {
            &&& *final(raffle) == after_claim(*old(raffle))
            &&& prize == (Transfer::Prize {
                from: Party::Escrow,
                to: Party::Account(ctx.winner),
                mint: old(raffle).nft_mint,
            })
            &&& fees == (Transfer::Tokens {
                from: Party::Escrow,
                to: Party::Account(old(raffle).authority),
                amount: old(raffle).escrowed_funds,
            })
        },
{
    let w = match raffle.winner {
        None => {
            return Err(RaffleError::DrawNotComplete);
        },
        Some(w) => w,
    };
    if ctx.winner != w {
        return Err(RaffleError::NotWinner);
    }
    if raffle.status == RaffleStatus::Claimed {
        return Err(RaffleError::PrizeAlreadyClaimed);
    }
    let prize = Transfer::Prize { from: Party::Escrow, to: Party::Account(ctx.winner), mint: raffle.nft_mint };
    let fees = Transfer::Tokens {
        from: Party::Escrow,
        to: Party::Account(raffle.authority),
        amount: raffle.escrowed_funds,
    };
    raffle.status = RaffleStatus::Claimed;
    raffle.escrowed_funds = 0;
    Ok((prize, fees))
}

/// Over any sequence of purchases the entries sold stay within the limit,
/// when one is set, and equal the total of the ledger's purchase counts.
pub proof fn entry_accounting(raffle: RaffleAccount, ledger: EntryLedger)
    requires
        raffle.consistent_with(ledger),
    ensures
        raffle.max_entries > 0 ==> raffle.current_entries <= raffle.max_entries,
        raffle.current_entries == sum_counts(ledger.entries@),
{
    ledger_total_is_sum_of_counts(ledger);
}

/// A draw before the deadline is refused with `RaffleNotEnded`, and a draw
/// after it on a raffle without entries with `NoEntries`.
pub proof fn draw_needs_deadline_and_entries(raffle: RaffleAccount, ctx: DrawWinner)
    requires
        raffle.wf(),
    ensures
        ctx.now < raffle.end_timestamp ==> draw_error(raffle, ctx) == Some(
            RaffleError::RaffleNotEnded,
        ),
        ctx.now >= raffle.end_timestamp && raffle.current_entries == 0 ==> draw_error(raffle, ctx)
            == Some(RaffleError::NoEntries),
{
}

/// After a successful draw every further draw is refused, so the winner
/// stays the one first drawn.
pub proof fn second_draw_fails(
    raffle: RaffleAccount,
    ledger: EntryLedger,
    first: DrawWinner,
    second: DrawWinner,
)
    requires
        raffle.consistent_with(ledger),
        draw_error(raffle, first) is None,
    ensures
        after_draw(raffle, ledger, first.seed).consistent_with(ledger),
        draw_error(after_draw(raffle, ledger, first.seed), second) is Some,
{
}

/// Once a winner is drawn, a claim by anyone else is refused with
/// `NotWinner`, whatever the status.
pub proof fn claim_by_other_fails(raffle: RaffleAccount, ctx: ClaimPrize)
    requires
        raffle.wf(),
        raffle.winner is Some,
        ctx.winner@ != raffle.winner->0@,
    ensures
        claim_error(raffle, ctx) == Some(RaffleError::NotWinner),
{
}

/// After a successful claim the winner's second claim is refused with
/// `PrizeAlreadyClaimed`, and no claim by anyone succeeds again: prize and
/// fees move once.
pub proof fn second_claim_fails(raffle: RaffleAccount, first: ClaimPrize, second: ClaimPrize)
    requires
        raffle.wf(),
        claim_error(raffle, first) is None,
    ensures
        after_claim(raffle).wf(),
        after_claim(raffle).escrowed_funds == 0,
        second.winner@ == first.winner@ ==> claim_error(after_claim(raffle), second) == Some(
            RaffleError::PrizeAlreadyClaimed,
        ),
        claim_error(after_claim(raffle), second) is Some,
{
}

proof fn lemma_past_quotient(n: int, d: int, m: int)
    requires
        d > 0,
        m >= 0,
        n > m / d,
    ensures
        n * d > m,
{
    assert(n >= m / d + 1);
    assert(n * d >= (m / d + 1) * d) by (nonlinear_arith)
        requires n >= m / d + 1, d > 0;
    assert((m / d + 1) * d == (m / d) * d + d) by (nonlinear_arith);
    assert(m == (m / d) * d + m % d) by (nonlinear_arith) requires d > 0;
    assert(m % d < d) by (nonlinear_arith) requires d > 0;
}

proof fn lemma_within_quotient(n: int, d: int, m: int)
    requires
        d > 0,
        m >= 0,
        0 <= n <= m / d,
    ensures
        n * d <= m,
{
    assert(n * d <= (m / d) * d) by (nonlinear_arith)
        requires n <= m / d, d > 0;
    assert(m == (m / d) * d + m % d) by (nonlinear_arith) requires d > 0;
    assert(m % d >= 0) by (nonlinear_arith) requires d > 0;
}

} // verus!
