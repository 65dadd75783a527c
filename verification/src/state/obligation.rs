//! Obligations: a borrower's collateral deposits and loans.
use vstd::prelude::*;

use crate::errors::ErrorCode;
use crate::number::{
    add_o, add_spec, as_u64_spec, div_o, div_spec, min_nat, mul_o, mul_spec, one, sub_o, sub_spec,
    Number,
};
use crate::pubkey::{default_key, Pubkey};

use super::cache::Cache;
use super::market::{
    cached_reserve, first_free_reserve, lemma_first_free_reserve, lemma_market_reserves_len,
    CachedReserveInfo, Market, MarketReserves, ReserveIndex,
};

verus! {

broadcast use lemma_market_reserves_len;

/// Limit the total positions that can be registered on an obligation
pub const MAX_OBLIGATION_POSITIONS: usize = 11;

/// Which side of an obligation a position is on.
#[derive(Clone, Copy, Debug, PartialEq, Eq, Structural)]
enum Side {
    Collateral,
    Loan,
}

/// The stored value of a side: 0 for collateral, 1 for a loan.
pub open spec fn side_value(is_loan: bool) -> u32 {
    if is_loan {
        1
    } else {
        0
    }
}

fn side_into_integer(side: Side) -> (r: u32)
    ensures
        r == side_value(side == Side::Loan),
{
    match side {
        Side::Collateral => 0,
        Side::Loan => 1,
    }
}

/// Information about a single collateral or loan account registered with an obligation
#[derive(Clone, Copy, Debug, PartialEq, Eq, Structural)]
pub struct Position {
    /// The token account holding the bank notes
    pub account: Pubkey,
    /// Non-authoritative number of bank notes placed in the account
    pub amount: Number,
    /// 0 for collateral, 1 for a loan; any other value is invalid
    pub side: u32,
    /// The index of the reserve that this position's assets are from
    pub reserve_index: ReserveIndex,
}

/// The value of a collateral or loan position within an obligation
#[derive(Clone, Copy, Debug, PartialEq, Eq, Structural)]
pub struct PositionValue {
    /// The market value in USD of the assets that were either deposited or borrowed.
    pub market_value: Number,
    /// For loans, this is the minimum collateral requirement in USD.
    /// For collateral, this is the maximum in USD that can be borrowed against it.
    pub complementary_limit: Number,
}

/// Notes to tokens rate that applies to a position: the deposit note rate
/// for collateral, the loan note rate for a loan; `None` for an invalid
/// side (a read panics there).
pub open spec fn note_exchange_rate_spec(p: Position, r: CachedReserveInfo) -> Option<nat> {
    if p.side == 0 {
        Some(r.deposit_note_exchange_rate@)
    } else if p.side == 1 {
        Some(r.loan_note_exchange_rate@)
    } else {
        None
    }
}

/// Market value of a position: notes, times the note rate, times the price.
pub open spec fn position_value_spec(p: Position, r: CachedReserveInfo) -> Option<nat> {
    mul_o(mul_o(Some(p.amount@), note_exchange_rate_spec(p, r)), Some(r.price@))
}

/// The complementary limit of a position worth `mv`: for collateral, what
/// can be borrowed against it (value over the minimum collateral ratio);
/// for a loan, the collateral it needs (value times that ratio).
pub open spec fn complementary_limit_spec(p: Position, r: CachedReserveInfo, mv: nat) -> Option<
    nat,
> {
    if p.side == 0 {
        div_spec(mv, r.min_collateral_ratio@)
    } else if p.side == 1 {
        mul_spec(mv, r.min_collateral_ratio@)
    } else {
        None
    }
}

/// Market value and complementary limit of a position.
pub open spec fn position_values_spec(p: Position, r: CachedReserveInfo) -> Option<(nat, nat)> {
    match position_value_spec(p, r) {
        Some(mv) => match complementary_limit_spec(p, r, mv) {
            Some(cl) => Some((mv, cl)),
            None => None,
        },
        None => None,
    }
}

/// Index of the first unused position (default account) from `i` on, or
/// the length of `s` where there is none.
pub open spec fn first_free_from(s: Seq<Position>, i: int) -> int
    decreases s.len() - i,
{
    if i < 0 || i >= s.len() {
        s.len() as int
    } else if s[i].account == default_key() {
        i
    } else {
        first_free_from(s, i + 1)
    }
}

/// Number of registered positions: those before the first unused one.
pub open spec fn registered_len(s: Seq<Position>) -> int {
    first_free_from(s, 0)
}

/// Index of the first position from `i` on whose account is `account`.
pub open spec fn find_account_from(s: Seq<Position>, account: Pubkey, i: int) -> Option<int>
    decreases s.len() - i,
{
    if i < 0 || i >= s.len() {
        None
    } else if s[i].account == account {
        Some(i)
    } else {
        find_account_from(s, account, i + 1)
    }
}

/// Index of the first position whose account is `account`.
pub open spec fn find_account(s: Seq<Position>, account: Pubkey) -> Option<int> {
    find_account_from(s, account, 0)
}

/// Whether a registered position (one before the first unused slot) has
/// account `account`.
pub open spec fn is_registered(s: Seq<Position>, account: Pubkey) -> bool {
    exists|j: int| 0 <= j < registered_len(s) && (#[trigger] s[j]).account == account
}

/// Index of the first position from `i` on for reserve `reserve_index`.
pub open spec fn find_reserve_from(s: Seq<Position>, reserve_index: ReserveIndex, i: int) -> Option<
    int,
>
    decreases s.len() - i,
{
    if i < 0 || i >= s.len() {
        None
    } else if s[i].reserve_index == reserve_index {
        Some(i)
    } else {
        find_reserve_from(s, reserve_index, i + 1)
    }
}

/// Index of the first position for reserve `reserve_index`.
pub open spec fn find_reserve(s: Seq<Position>, reserve_index: ReserveIndex) -> Option<int> {
    find_reserve_from(s, reserve_index, 0)
}

/// The balance, in whole notes, of the first position for a reserve; 0
/// where there is none. `None` where the balance does not fit in a `u64`.
pub open spec fn reserve_balance_spec(s: Seq<Position>, reserve_index: ReserveIndex) -> Option<nat> {
    match find_reserve(s, reserve_index) {
        Some(i) => as_u64_spec(s[i].amount@, 0),
        None => Some(0),
    }
}

/// Total market value of the first `n` positions, each priced with its
/// reserve's cached values at `slot`; `None` where a reserve is unusable,
/// a side is invalid or a step overflows.
pub open spec fn side_value_upto(s: Seq<Position>, m: MarketReserves, slot: u64, n: int) -> Option<
    nat,
>
    decreases n,
{
    if n <= 0 {
        Some(0)
    } else {
        add_o(
            side_value_upto(s, m, slot, n - 1),
            match cached_reserve(m, s[n - 1].reserve_index, slot) {
                Some(r) => position_value_spec(s[n - 1], r),
                None => None,
            },
        )
    }
}

/// Total market value of the registered positions of a side.
pub open spec fn side_market_value(s: Seq<Position>, m: MarketReserves, slot: u64) -> Option<nat> {
    side_value_upto(s, m, slot, registered_len(s))
}

/// Totals of market value and complementary limit over the first `n`
/// positions.
pub open spec fn side_values_upto(s: Seq<Position>, m: MarketReserves, slot: u64, n: int) -> Option<
    (nat, nat),
>
    decreases n,
{
    if n <= 0 {
        Some((0, 0))
    } else {
        match side_values_upto(s, m, slot, n - 1) {
            Some((a, b)) => match cached_reserve(m, s[n - 1].reserve_index, slot) {
                Some(r) => match position_values_spec(s[n - 1], r) {
                    Some((mv, cl)) => match (add_spec(a, mv), add_spec(b, cl)) {
                        (Some(x), Some(y)) => Some((x, y)),
                        _ => None,
                    },
                    None => None,
                },
                None => None,
            },
            None => None,
        }
    }
}

/// The largest minimum collateral ratio among the reserves of the first
/// `n` positions: `Some(None)` where `n` is 0, `None` where a reserve is
/// unusable.
pub open spec fn max_ratio_upto(s: Seq<Position>, m: MarketReserves, slot: u64, n: int) -> Option<
    Option<nat>,
>
    decreases n,
{
    if n <= 0 {
        Some(None)
    } else {
        match (max_ratio_upto(s, m, slot, n - 1), cached_reserve(m, s[n - 1].reserve_index, slot)) {
            (Some(acc), Some(r)) => Some(
                Some(
                    match acc {
                        None => r.min_collateral_ratio@,
                        Some(a) => if r.min_collateral_ratio@ < a {
                            a
                        } else {
                            r.min_collateral_ratio@
                        },
                    },
                ),
            ),
            _ => None,
        }
    }
}

/// Whether a new position can be registered on a side without a panic:
/// no registered position holds the same account or the same reserve, and
/// the account is not the default key where a slot is free.
pub open spec fn can_register(s: Seq<Position>, account: Pubkey, reserve_index: ReserveIndex) -> bool {
    &&& forall|j: int|
        0 <= j < registered_len(s) ==> (#[trigger] s[j]).account != account && s[j].reserve_index
            != reserve_index
    &&& registered_len(s) < s.len() ==> account != default_key()
}

proof fn lemma_first_free(s: Seq<Position>, i: int)
    requires
        0 <= i <= s.len(),
    ensures
        i <= first_free_from(s, i) <= s.len(),
        forall|j: int| i <= j < first_free_from(s, i) ==> s[j].account != default_key(),
        first_free_from(s, i) < s.len() ==> s[first_free_from(s, i)].account == default_key(),
    decreases s.len() - i,
{
    if i < s.len() && s[i].account != default_key() {
        lemma_first_free(s, i + 1);
    }
}

proof fn lemma_find_account(s: Seq<Position>, account: Pubkey, i: int)
    requires
        0 <= i <= s.len(),
    ensures
        find_account_from(s, account, i) matches Some(k) ==> i <= k < s.len() && s[k].account
            == account && forall|j: int| i <= j < k ==> s[j].account != account,
        find_account_from(s, account, i) is None ==> forall|j: int|
            i <= j < s.len() ==> s[j].account != account,
    decreases s.len() - i,
{
    if i < s.len() && s[i].account != account {
        lemma_find_account(s, account, i + 1);
    }
}

proof fn lemma_side_value_prefix(s: Seq<Position>, m: MarketReserves, slot: u64, k: int, n: int)
    requires
        0 <= k <= n,
        side_value_upto(s, m, slot, n) is Some,
    ensures
        side_value_upto(s, m, slot, k) is Some,
        side_value_upto(s, m, slot, k)->0 <= side_value_upto(s, m, slot, n)->0,
    decreases n - k,
{
    if k < n {
        lemma_side_value_prefix(s, m, slot, k, n - 1);
    }
}

proof fn lemma_side_values_prefix(s: Seq<Position>, m: MarketReserves, slot: u64, k: int, n: int)
    requires
        0 <= k <= n,
        side_values_upto(s, m, slot, n) is Some,
    ensures
        side_values_upto(s, m, slot, k) is Some,
    decreases n - k,
{
    if k < n {
        lemma_side_values_prefix(s, m, slot, k, n - 1);
    }
}

proof fn lemma_max_ratio_prefix(s: Seq<Position>, m: MarketReserves, slot: u64, k: int, n: int)
    requires
        0 <= k <= n,
        max_ratio_upto(s, m, slot, n) is Some,
    ensures
        max_ratio_upto(s, m, slot, k) is Some,
    decreases n - k,
{
    if k < n {
        lemma_max_ratio_prefix(s, m, slot, k, n - 1);
    }
}

impl Position {
    /// An empty position of the given side for an account and reserve.
    fn new(side: Side, account: Pubkey, reserve_index: ReserveIndex) -> (r: Position)
        ensures
            r.account == account,
            r.amount@ == 0,
            r.side == side_value(side == Side::Loan),
            r.reserve_index == reserve_index,
    {
        Position {
            account,
            side: side_into_integer(side),
            amount: Number::zero(),
            reserve_index,
        }
    }

    /// An unused position: default account, no notes.
    pub fn zeroed() -> (r: Position)
        ensures
            r.account == default_key(),
            r.amount@ == 0,
            r.side == 0,
            r.reserve_index == 0,
    {
        Position { account: Pubkey::default(), amount: Number::zero(), side: 0, reserve_index: 0 }
    }

    /// Market value and complementary limit of this position.
    pub fn market_value(&self, reserve: &CachedReserveInfo) -> (r: PositionValue)
        requires
            position_values_spec(*self, *reserve) is Some,
        ensures
            position_values_spec(*self, *reserve) == Some((r.market_value@, r.complementary_limit@)),
    {
        let market_value = self._market_value(reserve);
        PositionValue {
            market_value,
            complementary_limit: self.complementary_limit(reserve, market_value),
        }
    }

    fn _market_value(&self, reserve: &CachedReserveInfo) -> (r: Number)
        requires
            position_value_spec(*self, *reserve) is Some,
        ensures
            r@ == position_value_spec(*self, *reserve)->0,
    {
        self.amount.mul(self.note_exchange_rate(reserve)).mul(reserve.price)
    }

    fn complementary_limit(&self, reserve: &CachedReserveInfo, market_value: Number) -> (r: Number)
        requires
            complementary_limit_spec(*self, *reserve, market_value@) is Some,
        ensures
            r@ == complementary_limit_spec(*self, *reserve, market_value@)->0,
    {
        if self.side == 0 {
            market_value.div(reserve.min_collateral_ratio)
        } else {
            market_value.mul(reserve.min_collateral_ratio)
        }
    }

    fn note_exchange_rate(&self, reserve: &CachedReserveInfo) -> (r: Number)
        requires
            note_exchange_rate_spec(*self, *reserve) is Some,
        ensures
            r@ == note_exchange_rate_spec(*self, *reserve)->0,
    {
        if self.side == 0 {
            reserve.deposit_note_exchange_rate
        } else {
            reserve.loan_note_exchange_rate
        }
    }
}

/// Tracks information about the collateral deposited towards an obligation
#[derive(Clone, Copy)]
pub struct ObligationSide {
    positions: [Position; 16],
}

impl View for ObligationSide {
    type V = Seq<Position>;

    /// The position slots, in order.
    closed spec fn view(&self) -> Seq<Position> {
        self.positions@
    }
}

/// A side always has `POSITIONS_PER_SIDE` slots.
pub broadcast proof fn lemma_side_len(s: &ObligationSide)
    ensures
        #[trigger] s@.len() == 16,
{
    broadcast use vstd::array::group_array_axioms;

}

impl ObligationSide {
    /// A side with every slot unused.
    pub fn zeroed() -> (r: ObligationSide)
        ensures
            forall|i: int|
                0 <= i < 16 ==> (#[trigger] r@[i]).account == default_key() && r@[i].amount@ == 0
                    && r@[i].side == 0 && r@[i].reserve_index == 0,
            registered_len(r@) == 0,
    {
        broadcast use vstd::array::group_array_axioms;

        let z = Position::zeroed();
        let r = ObligationSide { positions: [z; 16] };
        assert(r@[0] == z);
        r
    }

    /// Register a position for this obligation (account which holds loan or collateral notes)
    fn register(&mut self, new: Position) -> (r: Result<(), ErrorCode>)
        requires
            can_register(old(self)@, new.account, new.reserve_index),
        ensures
            registered_len(old(self)@) < 16 ==> r == Ok::<(), ErrorCode>(()) && final(self)@
                == old(self)@.update(registered_len(old(self)@), new),
            registered_len(old(self)@) >= 16 ==> r == Err::<(), ErrorCode>(
                ErrorCode::NoFreeObligation,
            ) && final(self)@ == old(self)@,
    {
        broadcast use vstd::array::group_array_axioms;

        proof {
            lemma_first_free(self@, 0);
        }
        let mut i: usize = 0;
        while i < 16
            invariant
                i <= registered_len(self@),
                *self == *old(self),
                can_register(self@, new.account, new.reserve_index),
                registered_len(self@) <= 16,
                forall|j: int| 0 <= j < registered_len(self@) ==> self@[j].account != default_key(),
                registered_len(self@) < 16 ==> self@[registered_len(self@)].account
                    == default_key(),
            decreases 16 - i,
        {
            let position = self.positions[i];
            if position.account == new.account {
                assert(false);
            }
            if position.reserve_index == new.reserve_index && !position.account.is_default() {
                assert(false);
            }
            if !position.account.is_default() {
                i = i + 1;
                continue;
            }
            self.positions[i] = new;
            assert(final(self)@ =~= old(self)@.update(registered_len(old(self)@), new));
            return Ok(());
        }
        Err(ErrorCode::NoFreeObligation)
    }

    /// Record notes added to a position (collateral deposited, notes borrowed)
    fn add(&mut self, account: &Pubkey, notes_amount: Number) -> (r: Result<(), ErrorCode>)
        requires
            find_account(old(self)@, *account) matches Some(i) ==> add_spec(
                old(self)@[i].amount@,
                notes_amount@,
            ) is Some,
        ensures
            match find_account(old(self)@, *account) {
                None => r == Err::<(), ErrorCode>(ErrorCode::UnregisteredPosition) && final(self)@
                    == old(self)@,
                Some(i) => {
                    &&& r == Ok::<(), ErrorCode>(())
                    &&& final(self)@ == old(self)@.update(
                        i,
                        Position { amount: final(self)@[i].amount, ..old(self)@[i] },
                    )
                    &&& final(self)@[i].amount@ == old(self)@[i].amount@ + notes_amount@
                },
            },
            same_slots(old(self)@, final(self)@),
    {
        broadcast use vstd::array::group_array_axioms;

        let i = self.position_index(account)?;
        let mut position = self.positions[i];
        position.amount = position.amount.add(notes_amount);
        self.positions[i] = position;
        assert(final(self)@ =~= old(self)@.update(
            i as int,
            Position { amount: final(self)@[i as int].amount, ..old(self)@[i as int] },
        ));
        Ok(())
    }

    /// Record notes taken from a position (collateral withdrawn, loan repaid)
    fn subtract(&mut self, account: &Pubkey, notes_amount: Number) -> (r: Result<(), ErrorCode>)
        requires
            find_account(old(self)@, *account) matches Some(i) ==> notes_amount@ <= old(
                self,
            )@[i].amount@,
        ensures
            match find_account(old(self)@, *account) {
                None => r == Err::<(), ErrorCode>(ErrorCode::UnregisteredPosition) && final(self)@
                    == old(self)@,
                Some(i) => {
                    &&& r == Ok::<(), ErrorCode>(())
                    &&& final(self)@ == old(self)@.update(
                        i,
                        Position { amount: final(self)@[i].amount, ..old(self)@[i] },
                    )
                    &&& final(self)@[i].amount@ == old(self)@[i].amount@ - notes_amount@
                },
            },
            same_slots(old(self)@, final(self)@),
    {
        broadcast use vstd::array::group_array_axioms;

        let i = self.position_index(account)?;
        let mut position = self.positions[i];
        position.amount = position.amount.sub(notes_amount);
        self.positions[i] = position;
        assert(final(self)@ =~= old(self)@.update(
            i as int,
            Position { amount: final(self)@[i as int].amount, ..old(self)@[i as int] },
        ));
        Ok(())
    }

    /// Index of the first position for `account`.
    fn position_index(&self, account: &Pubkey) -> (r: Result<usize, ErrorCode>)
        ensures
            match find_account(self@, *account) {
                None => r == Err::<usize, ErrorCode>(ErrorCode::UnregisteredPosition),
                Some(i) => r == Ok::<usize, ErrorCode>(i as usize),
            },
            find_account(self@, *account) matches Some(i) ==> 0 <= i < 16,
    {
        broadcast use vstd::array::group_array_axioms;

        proof {
            lemma_find_account(self@, *account, 0);
        }
        let mut i: usize = 0;
        while i < 16
            invariant
                i <= 16,
                find_account(self@, *account) == find_account_from(self@, *account, i as int),
            decreases 16 - i,
        {
            if self.positions[i].account == *account {
                return Ok(i);
            }
            i = i + 1;
        }
        Err(ErrorCode::UnregisteredPosition)
    }

    /// The first position for `account`.
    pub fn position(&self, account: &Pubkey) -> (r: Result<&Position, ErrorCode>)
        ensures
            match find_account(self@, *account) {
                None => r == Err::<&Position, ErrorCode>(ErrorCode::UnregisteredPosition),
                Some(i) => r == Ok::<&Position, ErrorCode>(&self@[i]),
            },
    {
        broadcast use vstd::array::group_array_axioms;

        let i = self.position_index(account)?;
        Ok(&self.positions[i])
    }

    /// Return the balance for a reserve. If not found, returns 0.
    fn reserve_balance(&self, reserve_index: ReserveIndex) -> (r: u64)
        requires
            reserve_balance_spec(self@, reserve_index) is Some,
        ensures
            r == reserve_balance_spec(self@, reserve_index)->0,
    {
        broadcast use vstd::array::group_array_axioms;

        let mut i: usize = 0;
        while i < 16
            invariant
                i <= 16,
                reserve_balance_spec(self@, reserve_index) is Some,
                find_reserve(self@, reserve_index) == find_reserve_from(
                    self@,
                    reserve_index,
                    i as int,
                ),
            decreases 16 - i,
        {
            if self.positions[i].reserve_index == reserve_index {
                assert(find_reserve(self@, reserve_index) == Some(i as int));
                return self.positions[i].amount.as_u64(0);
            }
            i = i + 1;
        }
        0
    }

    /// Market value and complementary limit totals over the registered
    /// positions.
    pub fn market_value(&self, market_info: &MarketReserves, current_slot: u64) -> (r:
        PositionValue)
        requires
            side_values_upto(self@, *market_info, current_slot, registered_len(self@)) is Some,
        ensures
            side_values_upto(self@, *market_info, current_slot, registered_len(self@)) == Some(
                (r.market_value@, r.complementary_limit@),
            ),
    {
        broadcast use vstd::array::group_array_axioms;

        proof {
            lemma_first_free(self@, 0);
        }
        let mut value = PositionValue {
            market_value: Number::zero(),
            complementary_limit: Number::zero(),
        };
        let mut i: usize = 0;
        while i < 16 && !self.positions[i].account.is_default()
            invariant
                i <= registered_len(self@) <= 16,
                forall|j: int| 0 <= j < registered_len(self@) ==> self@[j].account != default_key(),
                registered_len(self@) < 16 ==> self@[registered_len(self@)].account
                    == default_key(),
                side_values_upto(self@, *market_info, current_slot, registered_len(self@)) is Some,
                side_values_upto(self@, *market_info, current_slot, i as int) == Some(
                    (value.market_value@, value.complementary_limit@),
                ),
            decreases 16 - i,
        {
            let position = self.positions[i];
            proof {
                lemma_side_values_prefix(
                    self@,
                    *market_info,
                    current_slot,
                    i + 1,
                    registered_len(self@),
                );
            }
            let reserve = market_info.get(position.reserve_index).unwrap(current_slot);
            let position_value = position.market_value(reserve);
            value.market_value = value.market_value.add(position_value.market_value);
            value.complementary_limit = value.complementary_limit.add(
                position_value.complementary_limit,
            );
            i = i + 1;
        }
        value
    }

    /// Total market value of the registered positions.
    fn _market_value(&self, market: &MarketReserves, current_slot: u64) -> (r: Number)
        requires
            side_market_value(self@, *market, current_slot) is Some,
        ensures
            r@ == side_market_value(self@, *market, current_slot)->0,
    {
        broadcast use vstd::array::group_array_axioms;

        proof {
            lemma_first_free(self@, 0);
        }
        let mut value = Number::zero();
        let mut i: usize = 0;
        while i < 16 && !self.positions[i].account.is_default()
            invariant
                i <= registered_len(self@) <= 16,
                forall|j: int| 0 <= j < registered_len(self@) ==> self@[j].account != default_key(),
                registered_len(self@) < 16 ==> self@[registered_len(self@)].account
                    == default_key(),
                side_market_value(self@, *market, current_slot) is Some,
                side_value_upto(self@, *market, current_slot, i as int) is Some,
                value@ == side_value_upto(self@, *market, current_slot, i as int)->0,
            decreases 16 - i,
        {
            let pos = self.positions[i];
            proof {
                lemma_side_value_prefix(
                    self@,
                    *market,
                    current_slot,
                    i + 1,
                    registered_len(self@),
                );
            }
            let reserve = market.get_cached(pos.reserve_index, current_slot);
            value = value.add(pos._market_value(reserve));
            i = i + 1;
        }
        value
    }

    /// The largest minimum collateral ratio among the reserves of the
    /// registered positions, or `None` where there are none.
    fn max_min_collateral_ratio(&self, market: &MarketReserves, current_slot: u64) -> (r: Option<
        Number,
    >)
        requires
            max_ratio_upto(self@, *market, current_slot, registered_len(self@)) is Some,
        ensures
            match max_ratio_upto(self@, *market, current_slot, registered_len(self@))->0 {
                None => r is None,
                Some(v) => r matches Some(n) && n@ == v,
            },
    {
        broadcast use vstd::array::group_array_axioms;

        proof {
            lemma_first_free(self@, 0);
        }
        let mut best: Option<Number> = None;
        let mut i: usize = 0;
        while i < 16 && !self.positions[i].account.is_default()
            invariant
                i <= registered_len(self@) <= 16,
                forall|j: int| 0 <= j < registered_len(self@) ==> self@[j].account != default_key(),
                registered_len(self@) < 16 ==> self@[registered_len(self@)].account
                    == default_key(),
                max_ratio_upto(self@, *market, current_slot, registered_len(self@)) is Some,
                max_ratio_upto(self@, *market, current_slot, i as int) is Some,
                match max_ratio_upto(self@, *market, current_slot, i as int)->0 {
                    None => best is None,
                    Some(v) => best matches Some(n) && n@ == v,
                },
            decreases 16 - i,
        {
            let p = self.positions[i];
            proof {
                lemma_max_ratio_prefix(
                    self@,
                    *market,
                    current_slot,
                    i + 1,
                    registered_len(self@),
                );
            }
            let ratio = market.get_cached(p.reserve_index, current_slot).min_collateral_ratio;
            best = match best {
                None => Some(ratio),
                Some(b) => Some(b.max(ratio)),
            };
            i = i + 1;
        }
        best
    }

    /// Number of registered positions.
    fn registered_count(&self) -> (r: usize)
        ensures
            r == registered_len(self@),
            r <= 16,
    {
        broadcast use vstd::array::group_array_axioms;

        proof {
            lemma_first_free(self@, 0);
        }
        let mut i: usize = 0;
        while i < 16 && !self.positions[i].account.is_default()
            invariant
                i <= registered_len(self@) <= 16,
                forall|j: int| 0 <= j < registered_len(self@) ==> self@[j].account != default_key(),
                registered_len(self@) < 16 ==> self@[registered_len(self@)].account
                    == default_key(),
            decreases 16 - i,
        {
            i = i + 1;
        }
        i
    }

    /// Whether a registered position has account `account`.
    fn has_account(&self, account: &Pubkey) -> (r: bool)
        ensures
            r == is_registered(self@, *account),
    {
        broadcast use vstd::array::group_array_axioms;

        proof {
            lemma_first_free(self@, 0);
        }
        let mut i: usize = 0;
        while i < 16 && !self.positions[i].account.is_default()
            invariant
                i <= registered_len(self@) <= 16,
                forall|j: int| 0 <= j < registered_len(self@) ==> self@[j].account != default_key(),
                registered_len(self@) < 16 ==> self@[registered_len(self@)].account
                    == default_key(),
                forall|j: int| 0 <= j < i ==> (#[trigger] self@[j]).account != *account,
            decreases 16 - i,
        {
            if self.positions[i].account == *account {
                assert(self@[i as int].account == *account);
                return true;
            }
            i = i + 1;
        }
        false
    }

    /// The registered positions.
    pub fn iter(&self) -> (r: &[Position])
        ensures
            r@ == self@.take(registered_len(self@)),
    {
        broadcast use vstd::array::group_array_axioms;

        let n = self.registered_count();
        let r = vstd::slice::slice_subrange(self.positions.as_slice(), 0, n);
        assert(r@ =~= self@.take(registered_len(self@)));
        r
    }
}


/// Values cached by `cache_calculations`.
#[derive(Clone, Copy)]
pub struct CalculationCacheInner {
    pub collateral_value: Number,
    pub loan_value: Number,
}

/// The cache of an obligation's values; it is valid only in the slot in
/// which it was refreshed.
pub type CalculationCache = Cache<CalculationCacheInner, 0>;

/// Tracks information about a user's obligation to repay a borrowed position.
pub struct Obligation {
    pub version: u32,
    /// The market this obligation is a part of
    pub market: Pubkey,
    /// The address that owns the debt/assets as a part of this obligation
    pub owner: Pubkey,
    /// The storage for cached calculations
    pub cached: CalculationCache,
    /// The positions of collateral deposited
    pub collateral: ObligationSide,
    /// The positions of loans owed
    pub loans: ObligationSide,
}

/// Number of registered positions on both sides.
pub open spec fn position_count_spec(o: Obligation) -> int {
    registered_len(o.collateral@) + registered_len(o.loans@)
}

/// Version, market and owner are the same.
pub open spec fn same_header(a: Obligation, b: Obligation) -> bool {
    &&& a.version == b.version
    &&& a.market == b.market
    &&& a.owner == b.owner
}

/// Checking an account on the `active` side before changing it: the index
/// of its position, `UnregisteredPosition` where it has none, or
/// `SimultaneousDepositAndBorrow` where the `passive` side holds a balance
/// in the same reserve. `None` where that balance does not fit a `u64`.
pub open spec fn validate_spec(active: Seq<Position>, passive: Seq<Position>, account: Pubkey) -> Option<
    Result<int, ErrorCode>,
> {
    match find_account(active, account) {
        None => Some(Err(ErrorCode::UnregisteredPosition)),
        Some(i) => match reserve_balance_spec(passive, active[i].reserve_index) {
            None => None,
            Some(b) => if b != 0 {
                Some(Err(ErrorCode::SimultaneousDepositAndBorrow))
            } else {
                Some(Ok(i))
            },
        },
    }
}

/// The collateral value: cached where the cache is valid at `slot`,
/// computed from the market otherwise.
pub open spec fn collateral_value_spec(o: Obligation, m: MarketReserves, slot: u64) -> Option<nat> {
    if o.cached.is_valid(slot) {
        Some(o.cached.value.collateral_value@)
    } else {
        side_market_value(o.collateral@, m, slot)
    }
}

/// The loan value: cached where the cache is valid at `slot`, computed
/// from the market otherwise.
pub open spec fn loan_value_spec(o: Obligation, m: MarketReserves, slot: u64) -> Option<nat> {
    if o.cached.is_valid(slot) {
        Some(o.cached.value.loan_value@)
    } else {
        side_market_value(o.loans@, m, slot)
    }
}

/// Whether an obligation with these loans is healthy: it has no loans, or
/// its loan value times the largest minimum collateral ratio among its
/// loans' reserves is at most its collateral value, both values taken from
/// its cache. `None` where a reserve is unusable, the cache is not
/// (`cache_ok` false) or the product overflows.
pub open spec fn healthy_with_values(
    loans: Seq<Position>,
    m: MarketReserves,
    slot: u64,
    cache_ok: bool,
    loan_value: nat,
    collateral_value: nat,
) -> Option<bool> {
    match max_ratio_upto(loans, m, slot, registered_len(loans)) {
        None => None,
        Some(None) => Some(true),
        Some(Some(ratio)) => if !cache_ok {
            None
        } else {
            match mul_spec(loan_value, ratio) {
                Some(v) => Some(v <= collateral_value),
                None => None,
            }
        },
    }
}

/// Whether the obligation is healthy (see `healthy_with_values`).
pub open spec fn is_healthy_spec(o: Obligation, m: MarketReserves, slot: u64) -> Option<bool> {
    healthy_with_values(
        o.loans@,
        m,
        slot,
        o.cached.is_valid(slot),
        o.cached.value.loan_value@,
        o.cached.value.collateral_value@,
    )
}

/// The ratio of the debt being repaid: `repay` loan notes times the loan
/// note rate times the loan price, over the loan total.
pub open spec fn repaid_ratio_spec(loan_total: nat, repay: nat, loan_reserve: CachedReserveInfo) -> Option<
    nat,
> {
    div_o(
        mul_o(mul_spec(repay, loan_reserve.loan_note_exchange_rate@), Some(loan_reserve.price@)),
        Some(loan_total),
    )
}

/// c_ratio_ltv: the loan reserve's minimum collateral ratio times the
/// loan total over the collateral total.
pub open spec fn c_ratio_ltv_spec(
    loan_total: nat,
    collateral_total: nat,
    loan_reserve: CachedReserveInfo,
) -> Option<nat> {
    mul_o(Some(loan_reserve.min_collateral_ratio@), div_spec(loan_total, collateral_total))
}

/// The collateral value a liquidator may take for repaying `repay` loan
/// notes, from the obligation's loan and collateral totals and the cached
/// values of the loan's and the collateral's reserves:
///
/// - repaid ratio: see `repaid_ratio_spec`;
/// - c_ratio_ltv: see `c_ratio_ltv_spec`; below one, the loan cannot be
///   liquidated (`ObligationHealthy`);
/// - limit fraction = (c_ratio_ltv - 1) / ((ratio * (1 - bonus)) - 1), the
///   bonus being the collateral reserve's, in basis points;
/// - sellable value = limit fraction * collateral total;
/// - the value is the smaller of collateral total * repaid ratio and the
///   sellable value.
///
/// Each product and quotient is a fixed-point operation of its own,
/// truncated to fifteen decimals, in the grouping shown.
/// `None` where an operation overflows, divides by zero or goes negative.
pub open spec fn liquidation_value(
    loan_total: nat,
    collateral_total: nat,
    repay: nat,
    loan_reserve: CachedReserveInfo,
    collateral_reserve: CachedReserveInfo,
) -> Option<Result<nat, ErrorCode>> {
    let ratio = loan_reserve.min_collateral_ratio@;
    let bonus: nat = collateral_reserve.liquidation_bonus as nat * 100_000_000_000;
    match (
        repaid_ratio_spec(loan_total, repay, loan_reserve),
        c_ratio_ltv_spec(loan_total, collateral_total, loan_reserve),
    ) {
        (Some(rr), Some(crl)) => if crl < one() {
            Some(Err(ErrorCode::ObligationHealthy))
        } else {
            let limit_fraction = div_o(
                sub_spec(crl, one()),
                sub_o(mul_o(Some(ratio), sub_spec(one(), bonus)), Some(one())),
            );
            let sellable = mul_o(limit_fraction, Some(collateral_total));
            match (sellable, mul_spec(collateral_total, rr)) {
                (Some(sv), Some(mv)) => Some(Ok(min_nat(mv, sv))),
                _ => None,
            }
        },
        _ => None,
    }
}

/// The notes of collateral a liquidator receives: the value of
/// `liquidation_value` converted to notes at the collateral's price and
/// deposit note rate, and at most the collateral position's balance.
pub open spec fn liquidation_core(
    loan_total: nat,
    collateral_total: nat,
    repay: nat,
    loan_reserve: CachedReserveInfo,
    collateral_reserve: CachedReserveInfo,
    collateral_amount: nat,
) -> Option<Result<nat, ErrorCode>> {
    match liquidation_value(loan_total, collateral_total, repay, loan_reserve, collateral_reserve) {
        Some(Ok(value)) => match div_o(
            div_spec(value, collateral_reserve.price@),
            Some(collateral_reserve.deposit_note_exchange_rate@),
        ) {
            Some(notes) => Some(Ok(min_nat(notes, collateral_amount))),
            None => None,
        },
        Some(Err(e)) => Some(Err(e)),
        None => None,
    }
}

/// The outcome of liquidating, once the loan total is known: the loan
/// position and its reserve, the collateral total, then the collateral
/// position and its reserve, then `liquidation_core`.
/// `UnregisteredPosition` where the loan or collateral account has no
/// position; `None` where a step panics.
pub open spec fn liquidate_with_totals(
    loans: Seq<Position>,
    collateral: Seq<Position>,
    m: MarketReserves,
    slot: u64,
    loan_total: nat,
    collateral_total: Option<nat>,
    collateral_account: Pubkey,
    loan_account: Pubkey,
    repay: nat,
) -> Option<Result<nat, ErrorCode>> {
    match find_account(loans, loan_account) {
        None => Some(Err(ErrorCode::UnregisteredPosition)),
        Some(li) => match cached_reserve(m, loans[li].reserve_index, slot) {
            None => None,
            Some(loan_reserve) => match collateral_total {
                None => None,
                Some(collateral_total) => match find_account(collateral, collateral_account) {
                    None => Some(Err(ErrorCode::UnregisteredPosition)),
                    Some(ci) => match cached_reserve(m, collateral[ci].reserve_index, slot) {
                        None => None,
                        Some(collateral_reserve) => liquidation_core(
                            loan_total,
                            collateral_total,
                            repay,
                            loan_reserve,
                            collateral_reserve,
                            collateral[ci].amount@,
                        ),
                    },
                },
            },
        },
    }
}

/// The outcome of liquidating: the loan total, then
/// `liquidate_with_totals`.
pub open spec fn liquidate_spec(
    o: Obligation,
    m: MarketReserves,
    slot: u64,
    collateral_account: Pubkey,
    loan_account: Pubkey,
    repay: nat,
) -> Option<Result<nat, ErrorCode>> {
    match loan_value_spec(o, m, slot) {
        None => None,
        Some(loan_total) => liquidate_with_totals(
            o.loans@,
            o.collateral@,
            m,
            slot,
            loan_total,
            collateral_value_spec(o, m, slot),
            collateral_account,
            loan_account,
            repay,
        ),
    }
}

/// Whether some collateral position has account `collateral` and the
/// reserve of some registered market reserve (a slot before the first
/// unused one) whose key is `reserve`.
pub open spec fn is_collateral_reserve_spec(
    o: Obligation,
    market: Market,
    collateral: Pubkey,
    reserve: Pubkey,
) -> bool {
    exists|i: int, j: int|
        0 <= i < 16 && 0 <= j < first_free_reserve(market.reserves@) && (
        #[trigger] o.collateral@[i]).account == collateral && (#[trigger] market.reserves@[j]).reserve
            == reserve && j == o.collateral@[i].reserve_index as int
}

/// `after` is `before` with the amount of position `i` replaced by one
/// worth `value`.
pub open spec fn amount_updated(before: Seq<Position>, after: Seq<Position>, i: int, value: nat) -> bool {
    &&& after == before.update(i, Position { amount: after[i].amount, ..before[i] })
    &&& after[i].amount@ == value
}

/// `after` is `before` with an empty position for `account` and
/// `reserve_index`, on side `side`, in the first free slot.
pub open spec fn position_registered(
    before: Seq<Position>,
    after: Seq<Position>,
    account: Pubkey,
    reserve_index: ReserveIndex,
    side: u32,
) -> bool {
    let k = registered_len(before);
    &&& after == before.update(
        k,
        Position { account, amount: after[k].amount, side, reserve_index },
    )
    &&& after[k].amount@ == 0
}

/// `after` is `before` with the amount of collateral position `i` now
/// worth `value` and the cache invalidated.
pub open spec fn collateral_changed(before: Obligation, after: Obligation, i: int, value: nat) -> bool {
    &&& amount_updated(before.collateral@, after.collateral@, i, value)
    &&& after.loans == before.loans
    &&& after.cached == (Cache { invalidated: true, ..before.cached })
    &&& same_header(after, before)
}

/// `after` is `before` with the amount of loan position `i` now worth
/// `value` and the cache invalidated.
pub open spec fn loans_changed(before: Obligation, after: Obligation, i: int, value: nat) -> bool {
    &&& amount_updated(before.loans@, after.loans@, i, value)
    &&& after.collateral == before.collateral
    &&& after.cached == (Cache { invalidated: true, ..before.cached })
    &&& same_header(after, before)
}

/// `after` is `before` with a new collateral position registered.
pub open spec fn collateral_registered(
    before: Obligation,
    after: Obligation,
    account: Pubkey,
    reserve_index: ReserveIndex,
) -> bool {
    &&& position_registered(before.collateral@, after.collateral@, account, reserve_index, 0)
    &&& after.loans == before.loans
    &&& after.cached == before.cached
    &&& same_header(after, before)
}

/// `after` is `before` with a new loan position registered.
pub open spec fn loan_registered(
    before: Obligation,
    after: Obligation,
    account: Pubkey,
    reserve_index: ReserveIndex,
) -> bool {
    &&& position_registered(before.loans@, after.loans@, account, reserve_index, 1)
    &&& after.collateral == before.collateral
    &&& after.cached == before.cached
    &&& same_header(after, before)
}

/// `after` is `before` with its loan and collateral values computed at
/// `slot` and cached as of `slot`; positions and header unchanged.
pub open spec fn calculations_cached(
    before: Obligation,
    after: Obligation,
    m: MarketReserves,
    slot: u64,
) -> bool {
    &&& after.cached.last_updated == slot
    &&& !after.cached.invalidated
    &&& after.cached.value.loan_value@ == side_market_value(before.loans@, m, slot)->0
    &&& after.cached.value.collateral_value@ == side_market_value(before.collateral@, m, slot)->0
    &&& after.collateral == before.collateral
    &&& after.loans == before.loans
    &&& same_header(after, before)
}

/// The shape that every side keeps: the registered positions come first
/// (every later slot is unused), and no two registered positions share an
/// account or a reserve.
pub open spec fn side_wf(s: Seq<Position>) -> bool {
    &&& side_compact(s)
    &&& forall|a: int, b: int|
        0 <= a < b < registered_len(s) ==> (#[trigger] s[a]).account != (#[trigger] s[b]).account
            && s[a].reserve_index != s[b].reserve_index
}

/// The invariant of an obligation: both sides keep their shape and together
/// hold at most `MAX_OBLIGATION_POSITIONS` registered positions. A zeroed
/// obligation has it, and every call that changes an obligation keeps it.
pub open spec fn obligation_wf(o: Obligation) -> bool {
    &&& side_wf(o.collateral@)
    &&& side_wf(o.loans@)
    &&& position_count_spec(o) <= 11
}

impl Obligation {
    /// An obligation of version 0 with the default market and owner, no
    /// positions and an all-zero cache.
    pub fn zeroed() -> (r: Obligation)
        ensures
            r.version == 0,
            r.market == default_key(),
            r.owner == default_key(),
            r.cached.last_updated == 0,
            !r.cached.invalidated,
            r.cached.value.collateral_value@ == 0,
            r.cached.value.loan_value@ == 0,
            registered_len(r.collateral@) == 0,
            registered_len(r.loans@) == 0,
            forall|i: int|
                0 <= i < 16 ==> (#[trigger] r.collateral@[i]).account == default_key()
                    && r.collateral@[i].amount@ == 0 && r.collateral@[i].side == 0
                    && r.collateral@[i].reserve_index == 0,
            forall|i: int|
                0 <= i < 16 ==> (#[trigger] r.loans@[i]).account == default_key()
                    && r.loans@[i].amount@ == 0 && r.loans@[i].side == 0
                    && r.loans@[i].reserve_index == 0,
            obligation_wf(r),
    {
        Obligation {
            version: 0,
            market: Pubkey::default(),
            owner: Pubkey::default(),
            cached: Cache::new(
                CalculationCacheInner { collateral_value: Number::zero(), loan_value: Number::zero() },
                0,
            ),
            collateral: ObligationSide::zeroed(),
            loans: ObligationSide::zeroed(),
        }
    }

    /// Register a collateral account for a reserve in the first free
    /// collateral slot; fails with `NoFreeObligation` where the obligation
    /// already has `MAX_OBLIGATION_POSITIONS` positions.
    pub fn register_collateral(&mut self, account: &Pubkey, reserve_index: ReserveIndex) -> (r:
        Result<(), ErrorCode>)
        requires
            position_count_spec(*old(self)) < 11 ==> can_register(
                old(self).collateral@,
                *account,
                reserve_index,
            ),
        ensures
            position_count_spec(*old(self)) >= 11 ==> r == Err::<(), ErrorCode>(
                ErrorCode::NoFreeObligation,
            ) && *final(self) == *old(self),
            position_count_spec(*old(self)) < 11 ==> r == Ok::<(), ErrorCode>(())
                && collateral_registered(*old(self), *final(self), *account, reserve_index),
            obligation_wf(*old(self)) ==> obligation_wf(*final(self)),
    {
        proof {
            lemma_first_free(self.collateral@, 0);
            lemma_first_free(self.loans@, 0);
        }
        if self.position_count() >= MAX_OBLIGATION_POSITIONS {
            return Err(ErrorCode::NoFreeObligation);
        }
        let r = self.collateral.register(Position::new(Side::Collateral, *account, reserve_index));
        proof {
            if obligation_wf(*old(self)) {
                lemma_wf_after_register(*old(self), *self, *account, reserve_index, false);
            }
        }
        r
    }

    /// Register a loan account for a reserve in the first free loan slot;
    /// fails with `NoFreeObligation` where the obligation already has
    /// `MAX_OBLIGATION_POSITIONS` positions.
    pub fn register_loan(&mut self, account: &Pubkey, reserve_index: ReserveIndex) -> (r: Result<
        (),
        ErrorCode,
    >)
        requires
            position_count_spec(*old(self)) < 11 ==> can_register(
                old(self).loans@,
                *account,
                reserve_index,
            ),
        ensures
            position_count_spec(*old(self)) >= 11 ==> r == Err::<(), ErrorCode>(
                ErrorCode::NoFreeObligation,
            ) && *final(self) == *old(self),
            position_count_spec(*old(self)) < 11 ==> r == Ok::<(), ErrorCode>(())
                && loan_registered(*old(self), *final(self), *account, reserve_index),
            obligation_wf(*old(self)) ==> obligation_wf(*final(self)),
    {
        proof {
            lemma_first_free(self.collateral@, 0);
            lemma_first_free(self.loans@, 0);
        }
        if self.position_count() >= MAX_OBLIGATION_POSITIONS {
            return Err(ErrorCode::NoFreeObligation);
        }
        let r = self.loans.register(Position::new(Side::Loan, *account, reserve_index));
        proof {
            if obligation_wf(*old(self)) {
                lemma_wf_after_register(*old(self), *self, *account, reserve_index, true);
            }
        }
        r
    }

    /// Record the collateral deposited for an obligation
    pub fn deposit_collateral(&mut self, collateral_account: &Pubkey, deposit_notes_amount: Number) -> (r:
        Result<(), ErrorCode>)
        requires
            validate_spec(old(self).collateral@, old(self).loans@, *collateral_account) is Some,
            validate_spec(old(self).collateral@, old(self).loans@, *collateral_account) matches Some(
                Ok(i),
            ) ==> add_spec(old(self).collateral@[i].amount@, deposit_notes_amount@) is Some,
        ensures
            match validate_spec(old(self).collateral@, old(self).loans@, *collateral_account)->0 {
                Err(e) => r == Err::<(), ErrorCode>(e) && *final(self) == *old(self),
                Ok(i) => r == Ok::<(), ErrorCode>(()) && collateral_changed(
                    *old(self),
                    *final(self),
                    i,
                    (old(self).collateral@[i].amount@ + deposit_notes_amount@) as nat,
                ),
            },
            obligation_wf(*old(self)) ==> obligation_wf(*final(self)),
    {
        Self::validate(collateral_account, &self.collateral, &self.loans)?;
        self.cached.invalidate();
        let r = self.collateral.add(collateral_account, deposit_notes_amount);
        proof {
            lemma_same_shape(old(self).collateral@, self.collateral@);
            lemma_same_shape(old(self).loans@, self.loans@);
        }
        r
    }

    /// Record the collateral withdrawn for an obligation
    pub fn withdraw_collateral(&mut self, collateral_account: &Pubkey, deposit_notes_amount: Number) -> (r:
        Result<(), ErrorCode>)
        requires
            validate_spec(old(self).collateral@, old(self).loans@, *collateral_account) is Some,
            validate_spec(old(self).collateral@, old(self).loans@, *collateral_account) matches Some(
                Ok(i),
            ) ==> deposit_notes_amount@ <= old(self).collateral@[i].amount@,
        ensures
            match validate_spec(old(self).collateral@, old(self).loans@, *collateral_account)->0 {
                Err(e) => r == Err::<(), ErrorCode>(e) && *final(self) == *old(self),
                Ok(i) => r == Ok::<(), ErrorCode>(()) && collateral_changed(
                    *old(self),
                    *final(self),
                    i,
                    (old(self).collateral@[i].amount@ - deposit_notes_amount@) as nat,
                ),
            },
            obligation_wf(*old(self)) ==> obligation_wf(*final(self)),
    {
        Self::validate(collateral_account, &self.collateral, &self.loans)?;
        self.cached.invalidate();
        let r = self.collateral.subtract(collateral_account, deposit_notes_amount);
        proof {
            lemma_same_shape(old(self).collateral@, self.collateral@);
            lemma_same_shape(old(self).loans@, self.loans@);
        }
        r
    }

    /// Record the loan borrowed from an obligation (borrow notes deposited)
    pub fn borrow(&mut self, loan_account: &Pubkey, loan_notes_amount: Number) -> (r: Result<
        (),
        ErrorCode,
    >)
        requires
            validate_spec(old(self).loans@, old(self).collateral@, *loan_account) is Some,
            validate_spec(old(self).loans@, old(self).collateral@, *loan_account) matches Some(
                Ok(i),
            ) ==> add_spec(old(self).loans@[i].amount@, loan_notes_amount@) is Some,
        ensures
            match validate_spec(old(self).loans@, old(self).collateral@, *loan_account)->0 {
                Err(e) => r == Err::<(), ErrorCode>(e) && *final(self) == *old(self),
                Ok(i) => r == Ok::<(), ErrorCode>(()) && loans_changed(
                    *old(self),
                    *final(self),
                    i,
                    (old(self).loans@[i].amount@ + loan_notes_amount@) as nat,
                ),
            },
            obligation_wf(*old(self)) ==> obligation_wf(*final(self)),
    {
        Self::validate(loan_account, &self.loans, &self.collateral)?;
        self.cached.invalidate();
        let r = self.loans.add(loan_account, loan_notes_amount);
        proof {
            lemma_same_shape(old(self).collateral@, self.collateral@);
            lemma_same_shape(old(self).loans@, self.loans@);
        }
        r
    }

    /// Record the loan repaid from an obligation (borrow notes burned)
    pub fn repay(&mut self, loan_account: &Pubkey, loan_notes_amount: Number) -> (r: Result<
        (),
        ErrorCode,
    >)
        requires
            validate_spec(old(self).loans@, old(self).collateral@, *loan_account) is Some,
            validate_spec(old(self).loans@, old(self).collateral@, *loan_account) matches Some(
                Ok(i),
            ) ==> loan_notes_amount@ <= old(self).loans@[i].amount@,
        ensures
            match validate_spec(old(self).loans@, old(self).collateral@, *loan_account)->0 {
                Err(e) => r == Err::<(), ErrorCode>(e) && *final(self) == *old(self),
                Ok(i) => r == Ok::<(), ErrorCode>(()) && loans_changed(
                    *old(self),
                    *final(self),
                    i,
                    (old(self).loans@[i].amount@ - loan_notes_amount@) as nat,
                ),
            },
            obligation_wf(*old(self)) ==> obligation_wf(*final(self)),
    {
        Self::validate(loan_account, &self.loans, &self.collateral)?;
        self.cached.invalidate();
        let r = self.loans.subtract(loan_account, loan_notes_amount);
        proof {
            lemma_same_shape(old(self).collateral@, self.collateral@);
            lemma_same_shape(old(self).loans@, self.loans@);
        }
        r
    }

    fn validate(account: &Pubkey, active: &ObligationSide, passive: &ObligationSide) -> (r: Result<
        (),
        ErrorCode,
    >)
        requires
            validate_spec(active@, passive@, *account) is Some,
        ensures
            match validate_spec(active@, passive@, *account)->0 {
                Err(e) => r == Err::<(), ErrorCode>(e),
                Ok(i) => r == Ok::<(), ErrorCode>(()),
            },
    {
        let position = active.position(account)?;
        if passive.reserve_balance(position.reserve_index) != 0 {
            return Err(ErrorCode::SimultaneousDepositAndBorrow);
        }
        Ok(())
    }

    /// Be smarter about compute
    pub fn cache_calculations(&mut self, market: &MarketReserves, current_slot: u64)
        requires
            side_market_value(old(self).loans@, *market, current_slot) is Some,
            side_market_value(old(self).collateral@, *market, current_slot) is Some,
        ensures
            calculations_cached(*old(self), *final(self), *market, current_slot),
            obligation_wf(*old(self)) ==> obligation_wf(*final(self)),
    {
        self.cached.refresh(current_slot);
        let loan_value = self.loans._market_value(market, current_slot);
        let collateral_value = self.collateral._market_value(market, current_slot);
        self.cached.value = CalculationCacheInner { collateral_value, loan_value };
    }

    /// Determine if the obligation is healthy, or otherwise unhealthy and
    /// at risk of liquidation.
    pub fn is_healthy(&self, market: &MarketReserves, current_slot: u64) -> (r: bool)
        requires
            is_healthy_spec(*self, *market, current_slot) is Some,
        ensures
            r == is_healthy_spec(*self, *market, current_slot)->0,
    {
        let max_min_c_ratio = match self.loans.max_min_collateral_ratio(market, current_slot) {
            Some(c) => c,
            None => {
                return true;
            },
        };
        let cache_values = self.cached.expect(current_slot);
        let min_collateral_value = cache_values.loan_value.mul(max_min_c_ratio);
        min_collateral_value.le(&cache_values.collateral_value)
    }

    /// Liquidate a loan on this obligation
    ///
    /// Returns the number of collateral tokens that the liquidator should
    /// receive in return for paying off the loan.
    pub fn liquidate(
        &mut self,
        market: &MarketReserves,
        current_slot: u64,
        collateral_account: &Pubkey,
        loan_account: &Pubkey,
        repay_notes_amount: Number,
    ) -> (r: Result<Number, ErrorCode>)
        requires
            liquidate_spec(
                *old(self),
                *market,
                current_slot,
                *collateral_account,
                *loan_account,
                repay_notes_amount@,
            ) is Some,
        ensures
            *final(self) == *old(self),
            match liquidate_spec(
                *old(self),
                *market,
                current_slot,
                *collateral_account,
                *loan_account,
                repay_notes_amount@,
            )->0 {
                Ok(v) => r matches Ok(n) && n@ == v,
                Err(e) => r == Err::<Number, ErrorCode>(e),
            },
    {
        let loan_total = self.loan_value(market, current_slot);
        let loan_position = self.loans.position(loan_account)?;
        let loan_reserve = market.get_cached(loan_position.reserve_index, current_slot);

        let collateral_total = self.collateral_value(market, current_slot);
        let collateral = self.collateral.position(collateral_account)?;
        let collateral_reserve = market.get_cached(collateral.reserve_index, current_slot);

        // calculate the value of the debt being repaid
        let repaid_value = repay_notes_amount.mul(loan_reserve.loan_note_exchange_rate).mul(
            loan_reserve.price,
        );
        let repaid_ratio = repaid_value.div(loan_total);

        // Adjust the repaid value based on the configured bonus for liquidators
        let min_c_ratio = loan_reserve.min_collateral_ratio;
        let liquidation_bonus = Number::from_bps(collateral_reserve.liquidation_bonus);

        // Limit collateral withdrawl based on the sellable value which, if sold,
        // would bring the obligation back to a healthy position.
        let loan_to_value = loan_total.div(collateral_total);
        let c_ratio_ltv = min_c_ratio.mul(loan_to_value);

        if c_ratio_ltv.lt(&Number::one()) {
            // This means the loan is over-collateralized, so we shouldn't allow
            // any liquidation for it.
            return Err(ErrorCode::ObligationHealthy);
        }
        let limit_fraction = c_ratio_ltv.sub(Number::one()).div(
            min_c_ratio.mul(Number::one().sub(liquidation_bonus)).sub(Number::one()),
        );

        let collateral_sellable_value = limit_fraction.mul(collateral_total);

        // Limit collateral to allow for withdrawl by a liquidator, based on the
        // collateral amount to the ratio of the overall debt being repaid.
        let collateral_max_value = collateral_total.mul(repaid_ratio);
        let collateral_max_value = collateral_max_value.min(collateral_sellable_value);

        let collateral_max_notes = collateral_max_value.div(collateral_reserve.price).div(
            collateral_reserve.deposit_note_exchange_rate,
        );

        let collateral_max_notes = collateral_max_notes.min(collateral.amount);

        Ok(collateral_max_notes)
    }

    /// Determine if this obligation has a custody over some account,
    /// by checking if its in the list of registered accounts.
    pub fn has_collateral_custody(&self, account: &Pubkey) -> (r: bool)
        ensures
            r == is_registered(self.collateral@, *account),
    {
        self.collateral.has_account(account)
    }

    /// Determine if this obligation has a custody over some account,
    /// by checking if its in the list of registered accounts.
    pub fn has_loan_custody(&self, account: &Pubkey) -> (r: bool)
        ensures
            r == is_registered(self.loans@, *account),
    {
        self.loans.has_account(account)
    }

    /// Determine if the reserve matches the collateral
    pub fn is_collateral_reserve(&self, market: &Market, collateral: &Pubkey, reserve: &Pubkey) -> (r:
        bool)
        ensures
            r == is_collateral_reserve_spec(*self, *market, *collateral, *reserve),
    {
        broadcast use vstd::array::group_array_axioms;

        let reserves = market.reserves();
        proof {
            lemma_first_free_reserve(market.reserves@, 0);
        }
        let ghost ff = first_free_reserve(market.reserves@);
        let mut i: usize = 0;
        while i < 16
            invariant
                i <= 16,
                *reserves == market.reserves,
                ff == first_free_reserve(market.reserves@),
                0 <= ff <= 32,
                forall|j: int| 0 <= j < ff ==> market.reserves@[j].reserve != default_key(),
                ff < 32 ==> market.reserves@[ff].reserve == default_key(),
                forall|a: int, b: int|
                    0 <= a < i && 0 <= b < ff ==> !((#[trigger] self.collateral@[a]).account
                        == *collateral && (#[trigger] market.reserves@[b]).reserve == *reserve && b
                        == self.collateral@[a].reserve_index as int),
            decreases 16 - i,
        {
            let p = self.collateral.positions[i];
            if p.account == *collateral {
                let mut index: usize = 0;
                while index < 32 && !reserves.get(index as u16).reserve.is_default()
                    invariant
                        index <= ff,
                        i < 16,
                        p == self.collateral@[i as int],
                        p.account == *collateral,
                        *reserves == market.reserves,
                        ff == first_free_reserve(market.reserves@),
                        0 <= ff <= 32,
                        forall|j: int| 0 <= j < ff ==> market.reserves@[j].reserve != default_key(),
                        ff < 32 ==> market.reserves@[ff].reserve == default_key(),
                        forall|b: int|
                            0 <= b < index ==> !((#[trigger] market.reserves@[b]).reserve
                                == *reserve && b == p.reserve_index as int),
                    decreases 32 - index,
                {
                    if reserves.get(index as u16).reserve == *reserve && index as u16
                        == p.reserve_index {
                        assert(is_collateral_reserve_spec(*self, *market, *collateral, *reserve))
                            by {
                            assert(self.collateral@[i as int].account == *collateral);
                            assert(market.reserves@[index as int].reserve == *reserve);
                        }
                        return true;
                    }
                    index = index + 1;
                }
            }
            i = i + 1;
        }
        false
    }

    pub fn collateral_value(&self, market: &MarketReserves, current_slot: u64) -> (r: Number)
        requires
            collateral_value_spec(*self, *market, current_slot) is Some,
        ensures
            r@ == collateral_value_spec(*self, *market, current_slot)->0,
    {
        if let Ok(values) = self.cached.try_get(current_slot) {
            return values.collateral_value;
        }
        self.collateral._market_value(market, current_slot)
    }

    pub fn loan_value(&self, market: &MarketReserves, current_slot: u64) -> (r: Number)
        requires
            loan_value_spec(*self, *market, current_slot) is Some,
        ensures
            r@ == loan_value_spec(*self, *market, current_slot)->0,
    {
        if let Ok(values) = self.cached.try_get(current_slot) {
            return values.loan_value;
        }
        self.loans._market_value(market, current_slot)
    }

    fn position_count(&self) -> (r: usize)
        ensures
            r == position_count_spec(*self),
    {
        let collaterals = self.collateral.registered_count();
        let loans = self.loans.registered_count();
        loans + collaterals
    }

    /// The collateral side.
    pub fn collateral(&self) -> (r: &ObligationSide)
        ensures
            *r == self.collateral,
    {
        &self.collateral
    }

    /// The loan side.
    pub fn loans(&self) -> (r: &ObligationSide)
        ensures
            *r == self.loans,
    {
        &self.loans
    }
}


/// Every slot after the registered positions of a side is unused: the
/// shape that registration keeps.
pub open spec fn side_compact(s: Seq<Position>) -> bool {
    forall|j: int| registered_len(s) <= j < s.len() ==> (#[trigger] s[j]).account == default_key()
}

proof fn lemma_registered_len_after_register(s: Seq<Position>, p: Position)
    requires
        side_compact(s),
        registered_len(s) < s.len(),
        p.account != default_key(),
    ensures
        registered_len(s.update(registered_len(s), p)) == registered_len(s) + 1,
        side_compact(s.update(registered_len(s), p)),
{
    let k = registered_len(s);
    let t = s.update(k, p);
    lemma_first_free(s, 0);
    lemma_first_free(t, 0);
    let kt = registered_len(t);
    if kt < k + 1 {
        assert(t[kt] == s[kt] || kt == k);
    }
    if k + 1 < t.len() {
        assert(t[k + 1].account == default_key());
        assert(kt <= k + 1);
    }
}

/// Registration keeps the number of registered positions of an obligation
/// within `MAX_OBLIGATION_POSITIONS`: from an obligation whose sides are
/// compact and which holds at most that many positions, registering a
/// collateral or a loan account leaves at most that many, with the sides
/// still compact, and adds exactly one position where it succeeds.
pub proof fn lemma_registration_keeps_bound(
    before: Obligation,
    after: Obligation,
    account: Pubkey,
    reserve_index: ReserveIndex,
    is_loan: bool,
)
    requires
        side_compact(before.collateral@),
        side_compact(before.loans@),
        position_count_spec(before) < 11,
        account != default_key(),
        is_loan ==> loan_registered(before, after, account, reserve_index),
        !is_loan ==> collateral_registered(before, after, account, reserve_index),
    ensures
        side_compact(after.collateral@),
        side_compact(after.loans@),
        position_count_spec(after) == position_count_spec(before) + 1,
        position_count_spec(after) <= 11,
{
    lemma_first_free(before.collateral@, 0);
    lemma_first_free(before.loans@, 0);
    if is_loan {
        let k = registered_len(before.loans@);
        lemma_registered_len_after_register(before.loans@, after.loans@[k]);
        assert(after.loans@ == before.loans@.update(k, after.loans@[k]));
    } else {
        let k = registered_len(before.collateral@);
        lemma_registered_len_after_register(before.collateral@, after.collateral@[k]);
        assert(after.collateral@ == before.collateral@.update(k, after.collateral@[k]));
    }
}

/// A registered account is found again: after registering `account` on
/// the collateral side, the first collateral position with that account is
/// the new one, empty, for `reserve_index`; so the obligation has custody
/// of the account.
pub proof fn lemma_register_then_find(
    before: Obligation,
    after: Obligation,
    account: Pubkey,
    reserve_index: ReserveIndex,
)
    requires
        position_count_spec(before) < 11,
        can_register(before.collateral@, account, reserve_index),
        collateral_registered(before, after, account, reserve_index),
    ensures
        find_account(after.collateral@, account) == Some(registered_len(before.collateral@)),
        after.collateral@[registered_len(before.collateral@)].reserve_index == reserve_index,
        after.collateral@[registered_len(before.collateral@)].amount@ == 0,
        after.collateral@[registered_len(before.collateral@)].side == 0,
        is_registered(after.collateral@, account),
{
    let k = registered_len(before.collateral@);
    lemma_first_free(before.collateral@, 0);
    lemma_first_free(before.loans@, 0);
    lemma_side_len(&before.collateral);
    lemma_find_account(after.collateral@, account, 0);
    assert(after.collateral@[k].account == account);
    assert forall|j: int| 0 <= j < k implies after.collateral@[j].account != account by {
        assert(after.collateral@[j] == before.collateral@[j]);
    }
    lemma_first_free(after.collateral@, 0);
    assert forall|j: int| 0 <= j <= k implies after.collateral@[j].account != default_key() by {
        if j < k {
            assert(after.collateral@[j] == before.collateral@[j]);
        }
    }
    assert(registered_len(after.collateral@) > k);
    assert(after.collateral@[k].account == account);
}

/// Withdrawing from a collateral position the notes just deposited into
/// it restores the obligation's positions; the cache stays invalidated.
pub proof fn lemma_deposit_then_withdraw(
    before: Obligation,
    middle: Obligation,
    after: Obligation,
    i: int,
    notes: nat,
)
    requires
        0 <= i < 16,
        collateral_changed(before, middle, i, before.collateral@[i].amount@ + notes),
        collateral_changed(middle, after, i, (middle.collateral@[i].amount@ - notes) as nat),
    ensures
        after.collateral@ == before.collateral@,
        after.loans == before.loans,
        after.cached == (Cache { invalidated: true, ..before.cached }),
        same_header(after, before),
{
    lemma_side_len(&before.collateral);
    crate::number::lemma_view_injective(after.collateral@[i].amount, before.collateral@[i].amount);
    assert(after.collateral@ =~= before.collateral@);
}

/// Repaying the loan notes just borrowed on a loan position restores the
/// obligation's positions; the cache stays invalidated.
pub proof fn lemma_borrow_then_repay(
    before: Obligation,
    middle: Obligation,
    after: Obligation,
    i: int,
    notes: nat,
)
    requires
        0 <= i < 16,
        loans_changed(before, middle, i, before.loans@[i].amount@ + notes),
        loans_changed(middle, after, i, (middle.loans@[i].amount@ - notes) as nat),
    ensures
        after.loans@ == before.loans@,
        after.collateral == before.collateral,
        after.cached == (Cache { invalidated: true, ..before.cached }),
        same_header(after, before),
{
    lemma_side_len(&before.loans);
    crate::number::lemma_view_injective(after.loans@[i].amount, before.loans@[i].amount);
    assert(after.loans@ =~= before.loans@);
}

/// No reserve is both deposited to as collateral and borrowed from: a
/// change to a position that validation accepts is for a reserve in which
/// the other side holds no balance.
pub proof fn lemma_no_simultaneous_deposit_and_borrow(
    active: Seq<Position>,
    passive: Seq<Position>,
    account: Pubkey,
    i: int,
)
    requires
        validate_spec(active, passive, account) == Some(Ok::<int, ErrorCode>(i)),
    ensures
        active[i].account == account,
        reserve_balance_spec(passive, active[i].reserve_index) == Some(0nat),
{
    lemma_find_account(active, account, 0);
}

/// A liquidator never receives more collateral notes than the collateral
/// position holds.
pub proof fn lemma_liquidation_within_position(
    loan_total: nat,
    collateral_total: nat,
    repay: nat,
    loan_reserve: CachedReserveInfo,
    collateral_reserve: CachedReserveInfo,
    collateral_amount: nat,
)
    ensures
        liquidation_core(
            loan_total,
            collateral_total,
            repay,
            loan_reserve,
            collateral_reserve,
            collateral_amount,
        ) matches Some(Ok(notes)) ==> notes <= collateral_amount,
{
}

/// A liquidator takes at most the repaid share of the collateral value:
/// collateral total times the repaid ratio. Where less than the whole debt
/// is repaid (ratio below one) and there is collateral, that is strictly
/// less than the whole collateral value.
pub proof fn lemma_liquidation_within_repaid_share(
    loan_total: nat,
    collateral_total: nat,
    repay: nat,
    loan_reserve: CachedReserveInfo,
    collateral_reserve: CachedReserveInfo,
)
    ensures
        liquidation_value(loan_total, collateral_total, repay, loan_reserve, collateral_reserve)
            matches Some(Ok(value)) ==> {
            let rr = repaid_ratio_spec(loan_total, repay, loan_reserve)->0;
            &&& value <= collateral_total * rr / one()
            &&& (rr < one() && collateral_total > 0) ==> value < collateral_total
        },
{
    if liquidation_value(loan_total, collateral_total, repay, loan_reserve, collateral_reserve) is Some
        && repaid_ratio_spec(loan_total, repay, loan_reserve) is Some {
        let rr = repaid_ratio_spec(loan_total, repay, loan_reserve)->0;
        if rr < one() && collateral_total > 0 {
            let ct = collateral_total as int;
            let r = rr as int;
            let o = one() as int;
            assert(ct * r / o < ct) by (nonlinear_arith)
                requires
                    0 <= r < o,
                    ct > 0,
                    o > 0,
            {
                assert(ct * r < ct * o);
                vstd::arithmetic::div_mod::lemma_div_by_multiple_is_strongly_ordered(
                    ct * r,
                    ct * o,
                    ct,
                    o,
                );
            }
        }
    }
}

/// Scaling keeps order: for `a <= b`, `a * c / d <= b * c / d`, and the same
/// with the factors swapped.
proof fn lemma_scale_monotone(a: nat, b: nat, c: nat, d: nat)
    requires
        a <= b,
        d > 0,
    ensures
        a * c / d <= b * c / d,
        c * a / d <= c * b / d,
{
    vstd::arithmetic::mul::lemma_mul_inequality(a as int, b as int, c as int);
    vstd::arithmetic::mul::lemma_mul_is_commutative(a as int, c as int);
    vstd::arithmetic::mul::lemma_mul_is_commutative(b as int, c as int);
    vstd::arithmetic::div_mod::lemma_div_is_ordered((a * c) as int, (b * c) as int, d as int);
}

/// Repaying more never yields a smaller collateral value: with the same
/// totals and reserves, the value for `repay1` notes is at most the value
/// for `repay2 >= repay1` notes, where both are computed.
pub proof fn lemma_liquidation_value_monotone(
    loan_total: nat,
    collateral_total: nat,
    repay1: nat,
    repay2: nat,
    loan_reserve: CachedReserveInfo,
    collateral_reserve: CachedReserveInfo,
)
    requires
        repay1 <= repay2,
    ensures
        liquidation_value(loan_total, collateral_total, repay1, loan_reserve, collateral_reserve)
            matches Some(Ok(v1)) ==> (liquidation_value(
            loan_total,
            collateral_total,
            repay2,
            loan_reserve,
            collateral_reserve,
        ) matches Some(Ok(v2)) ==> v1 <= v2),
{
    let l1 = liquidation_value(loan_total, collateral_total, repay1, loan_reserve, collateral_reserve);
    let l2 = liquidation_value(loan_total, collateral_total, repay2, loan_reserve, collateral_reserve);
    if l1 is Some && l1->0 is Ok && l2 is Some && l2->0 is Ok {
        let rate = loan_reserve.loan_note_exchange_rate@;
        let price = loan_reserve.price@;
        lemma_scale_monotone(repay1, repay2, rate, one());
        let a1 = repay1 * rate / one();
        let a2 = repay2 * rate / one();
        lemma_scale_monotone(a1, a2, price, one());
        let b1 = a1 * price / one();
        let b2 = a2 * price / one();
        lemma_scale_monotone(b1, b2, one(), loan_total);
        let rr1 = repaid_ratio_spec(loan_total, repay1, loan_reserve)->0;
        let rr2 = repaid_ratio_spec(loan_total, repay2, loan_reserve)->0;
        assert(rr1 <= rr2);
        lemma_scale_monotone(rr1, rr2, collateral_total, one());
    }
}

/// Repaying more never yields fewer collateral notes: with the same totals,
/// reserves and collateral balance, the notes for `repay1` are at most the
/// notes for `repay2 >= repay1`, where both are computed.
pub proof fn lemma_liquidation_core_monotone(
    loan_total: nat,
    collateral_total: nat,
    repay1: nat,
    repay2: nat,
    loan_reserve: CachedReserveInfo,
    collateral_reserve: CachedReserveInfo,
    collateral_amount: nat,
)
    requires
        repay1 <= repay2,
    ensures
        liquidation_core(
            loan_total,
            collateral_total,
            repay1,
            loan_reserve,
            collateral_reserve,
            collateral_amount,
        ) matches Some(Ok(n1)) ==> (liquidation_core(
            loan_total,
            collateral_total,
            repay2,
            loan_reserve,
            collateral_reserve,
            collateral_amount,
        ) matches Some(Ok(n2)) ==> n1 <= n2),
{
    lemma_liquidation_value_monotone(
        loan_total,
        collateral_total,
        repay1,
        repay2,
        loan_reserve,
        collateral_reserve,
    );
    let l1 = liquidation_value(loan_total, collateral_total, repay1, loan_reserve, collateral_reserve);
    let l2 = liquidation_value(loan_total, collateral_total, repay2, loan_reserve, collateral_reserve);
    if l1 is Some && l1->0 is Ok && l2 is Some && l2->0 is Ok {
        let v1 = l1->0->Ok_0;
        let v2 = l2->0->Ok_0;
        let price = collateral_reserve.price@;
        let rate = collateral_reserve.deposit_note_exchange_rate@;
        if price > 0 && rate > 0 {
            lemma_scale_monotone(v1, v2, one(), price);
            lemma_scale_monotone(v1 * one() / price, v2 * one() / price, one(), rate);
        }
    }
}

/// The collateral value a liquidator may take, in fixed-point arithmetic
/// truncated at each step: with `o` one, the repaid ratio
/// `rr = ((repay * loan rate / o) * loan price / o) * o / loan total`, the
/// loan-to-value `q = loan total * o / collateral total`, `c_ratio_ltv =
/// ratio * q / o` for the loan reserve's minimum collateral ratio, the
/// collateral reserve's bonus `b` (basis points as a fixed-point value) and
/// the divisor `d = ratio * (o - b) / o - o`: where the liquidation goes
/// ahead, c_ratio_ltv is at least one, `d` is positive and the value is the
/// smaller of `collateral total * rr / o` and the sellable value
/// `((c_ratio_ltv - o) * o / d) * collateral total / o`; where it is refused,
/// the refusal is `ObligationHealthy` and c_ratio_ltv is below one.
pub proof fn lemma_liquidation_value_formula(
    loan_total: nat,
    collateral_total: nat,
    repay: nat,
    loan_reserve: CachedReserveInfo,
    collateral_reserve: CachedReserveInfo,
)
    ensures
        ({
            let o = one() as int;
            let ratio = loan_reserve.min_collateral_ratio@ as int;
            let b = collateral_reserve.liquidation_bonus as int * 100_000_000_000;
            let a = repay * loan_reserve.loan_note_exchange_rate@ / one();
            let rr = (a * loan_reserve.price@ / one()) * one() / loan_total;
            let crl = ratio * (loan_total * one() / collateral_total) / o;
            let d = ratio * (o - b) / o - o;
            let sellable = ((crl - o) * o / d) * collateral_total / o;
            let max_value = collateral_total * rr / one();
            &&& liquidation_value(
                loan_total,
                collateral_total,
                repay,
                loan_reserve,
                collateral_reserve,
            ) matches Some(Ok(v)) ==> crl >= o && b <= o && d > 0 && v == (if max_value
                <= sellable {
                max_value as int
            } else {
                sellable
            })
            &&& liquidation_value(
                loan_total,
                collateral_total,
                repay,
                loan_reserve,
                collateral_reserve,
            ) matches Some(Err(e)) ==> e == ErrorCode::ObligationHealthy && crl < o
        }),
{
}

/// The collateral notes a liquidator receives: the collateral value of
/// `liquidation_value` divided by the collateral's price, then by its
/// deposit note rate (fixed-point, truncated at each step), and at most the
/// collateral position's balance; a refusal is passed on unchanged.
pub proof fn lemma_liquidation_notes_formula(
    loan_total: nat,
    collateral_total: nat,
    repay: nat,
    loan_reserve: CachedReserveInfo,
    collateral_reserve: CachedReserveInfo,
    collateral_amount: nat,
)
    ensures
        liquidation_core(
            loan_total,
            collateral_total,
            repay,
            loan_reserve,
            collateral_reserve,
            collateral_amount,
        ) matches Some(Ok(n)) ==> {
            let v = liquidation_value(
                loan_total,
                collateral_total,
                repay,
                loan_reserve,
                collateral_reserve,
            )->0->Ok_0;
            let notes = (v * one() / collateral_reserve.price@) * one()
                / collateral_reserve.deposit_note_exchange_rate@;
            &&& collateral_reserve.price@ > 0
            &&& collateral_reserve.deposit_note_exchange_rate@ > 0
            &&& n == (if notes <= collateral_amount {
                notes
            } else {
                collateral_amount
            })
        },
        liquidation_core(
            loan_total,
            collateral_total,
            repay,
            loan_reserve,
            collateral_reserve,
            collateral_amount,
        ) matches Some(Err(e)) ==> liquidation_value(
            loan_total,
            collateral_total,
            repay,
            loan_reserve,
            collateral_reserve,
        ) == Some(Err::<nat, ErrorCode>(e)),
{
}

/// A larger liquidation bonus on the collateral reserve never gives the
/// liquidator less: with the same totals, repayment and loan reserve, the
/// value under bonus `b1` is at most the value under bonus `b2 >= b1`, where
/// both are computed.
pub proof fn lemma_liquidation_value_monotone_in_bonus(
    loan_total: nat,
    collateral_total: nat,
    repay: nat,
    loan_reserve: CachedReserveInfo,
    collateral_reserve1: CachedReserveInfo,
    collateral_reserve2: CachedReserveInfo,
)
    requires
        collateral_reserve1.liquidation_bonus <= collateral_reserve2.liquidation_bonus,
    ensures
        liquidation_value(loan_total, collateral_total, repay, loan_reserve, collateral_reserve1)
            matches Some(Ok(v1)) ==> (liquidation_value(
            loan_total,
            collateral_total,
            repay,
            loan_reserve,
            collateral_reserve2,
        ) matches Some(Ok(v2)) ==> v1 <= v2),
{
    lemma_liquidation_value_formula(loan_total, collateral_total, repay, loan_reserve, collateral_reserve1);
    lemma_liquidation_value_formula(loan_total, collateral_total, repay, loan_reserve, collateral_reserve2);
    let l1 = liquidation_value(loan_total, collateral_total, repay, loan_reserve, collateral_reserve1);
    let l2 = liquidation_value(loan_total, collateral_total, repay, loan_reserve, collateral_reserve2);
    if l1 is Some && l1->0 is Ok && l2 is Some && l2->0 is Ok {
        let o = one() as int;
        let ratio = loan_reserve.min_collateral_ratio@ as int;
        let b1 = collateral_reserve1.liquidation_bonus as int * 100_000_000_000;
        let b2 = collateral_reserve2.liquidation_bonus as int * 100_000_000_000;
        let crl = ratio * (loan_total * one() / collateral_total) / o;
        let d1 = ratio * (o - b1) / o - o;
        let d2 = ratio * (o - b2) / o - o;
        lemma_scale_monotone((o - b2) as nat, (o - b1) as nat, ratio as nat, one());
        assert(d2 <= d1);
        vstd::arithmetic::mul::lemma_mul_nonnegative(crl - o, o);
        vstd::arithmetic::div_mod::lemma_div_is_ordered_by_denominator((crl - o) * o, d2, d1);
        let f1 = (crl - o) * o / d1;
        let f2 = (crl - o) * o / d2;
        vstd::arithmetic::div_mod::lemma_div_pos_is_pos((crl - o) * o, d1);
        lemma_scale_monotone(f1 as nat, f2 as nat, collateral_total, one());
    }
}

/// Repaying more never yields less collateral: liquidating the same loan
/// against the same collateral of the same obligation, at the same slot
/// and market, for `repay1 <= repay2` loan notes, the collateral notes for
/// `repay1` are at most those for `repay2`, where both succeed.
pub proof fn lemma_liquidate_monotone(
    o: Obligation,
    m: MarketReserves,
    slot: u64,
    collateral_account: Pubkey,
    loan_account: Pubkey,
    repay1: nat,
    repay2: nat,
)
    requires
        repay1 <= repay2,
    ensures
        liquidate_spec(o, m, slot, collateral_account, loan_account, repay1) matches Some(Ok(n1))
            ==> (liquidate_spec(o, m, slot, collateral_account, loan_account, repay2) matches Some(
            Ok(n2),
        ) ==> n1 <= n2),
{
    let li = find_account(o.loans@, loan_account)->0;
    let ci = find_account(o.collateral@, collateral_account)->0;
    lemma_liquidation_core_monotone(
        loan_value_spec(o, m, slot)->0,
        collateral_value_spec(o, m, slot)->0,
        repay1,
        repay2,
        cached_reserve(m, o.loans@[li].reserve_index, slot)->0,
        cached_reserve(m, o.collateral@[ci].reserve_index, slot)->0,
        o.collateral@[ci].amount@,
    );
}

/// Health is judged on refreshed values: once the values are cached at a
/// slot, health at that slot compares the loans' market value, scaled by
/// the largest minimum collateral ratio, with the collateral's market value,
/// both as priced at that slot.
pub proof fn lemma_refreshed_health(before: Obligation, after: Obligation, m: MarketReserves, slot: u64)
    requires
        side_market_value(before.loans@, m, slot) is Some,
        side_market_value(before.collateral@, m, slot) is Some,
        after.cached.last_updated == slot,
        !after.cached.invalidated,
        after.cached.value.loan_value@ == side_market_value(before.loans@, m, slot)->0,
        after.cached.value.collateral_value@ == side_market_value(before.collateral@, m, slot)->0,
        after.loans == before.loans,
        after.collateral == before.collateral,
    ensures
        is_healthy_spec(after, m, slot) == healthy_with_values(
            before.loans@,
            m,
            slot,
            true,
            side_market_value(before.loans@, m, slot)->0,
            side_market_value(before.collateral@, m, slot)->0,
        ),
        loan_value_spec(after, m, slot) == side_market_value(before.loans@, m, slot),
        collateral_value_spec(after, m, slot) == side_market_value(before.collateral@, m, slot),
{
}


/// `t` is `s` with amounts at least as large, slot by slot: same length,
/// and each slot keeps its side and reserve.
pub open spec fn amounts_grow(s: Seq<Position>, t: Seq<Position>) -> bool {
    &&& s.len() == t.len()
    &&& forall|j: int|
        0 <= j < s.len() ==> (#[trigger] s[j]).side == t[j].side && s[j].reserve_index
            == t[j].reserve_index && s[j].amount@ <= t[j].amount@
}

/// Larger amounts never give a smaller market value: where the value of
/// the first `n` positions of `t` is computed, that of `s` is too, and is
/// at most it.
proof fn lemma_side_value_grows(s: Seq<Position>, t: Seq<Position>, m: MarketReserves, slot: u64, n: int)
    requires
        amounts_grow(s, t),
        n <= s.len(),
        side_value_upto(t, m, slot, n) is Some,
    ensures
        side_value_upto(s, m, slot, n) is Some,
        side_value_upto(s, m, slot, n)->0 <= side_value_upto(t, m, slot, n)->0,
    decreases n,
{
    if n > 0 {
        lemma_side_value_grows(s, t, m, slot, n - 1);
        let p = s[n - 1];
        let q = t[n - 1];
        let r = cached_reserve(m, q.reserve_index, slot)->0;
        let rate = note_exchange_rate_spec(q, r)->0;
        vstd::arithmetic::mul::lemma_mul_inequality(p.amount@ as int, q.amount@ as int, rate as int);
        lemma_scale_monotone(p.amount@, q.amount@, rate, one());
        let a = p.amount@ * rate / one();
        let b = q.amount@ * rate / one();
        vstd::arithmetic::mul::lemma_mul_inequality(a as int, b as int, r.price@ as int);
        lemma_scale_monotone(a, b, r.price@, one());
    }
}

/// Two sides whose slots keep their reserves have the same largest minimum
/// collateral ratio over their first `n` positions.
proof fn lemma_max_ratio_same_reserves(s: Seq<Position>, t: Seq<Position>, m: MarketReserves, slot: u64, n: int)
    requires
        n <= s.len(),
        s.len() == t.len(),
        forall|j: int| 0 <= j < s.len() ==> (#[trigger] s[j]).reserve_index == t[j].reserve_index,
    ensures
        max_ratio_upto(s, m, slot, n) == max_ratio_upto(t, m, slot, n),
    decreases n,
{
    if n > 0 {
        lemma_max_ratio_same_reserves(s, t, m, slot, n - 1);
        assert(s[n - 1].reserve_index == t[n - 1].reserve_index);
    }
}

/// Adding collateral keeps a healthy obligation healthy: from an obligation
/// whose calculations were cached at a slot and that is healthy there,
/// depositing notes into a collateral position and caching the
/// calculations again at that slot leaves it healthy.
pub proof fn lemma_deposit_keeps_healthy(
    before: Obligation,
    cached: Obligation,
    deposited: Obligation,
    after: Obligation,
    m: MarketReserves,
    slot: u64,
    i: int,
    notes: nat,
)
    requires
        side_market_value(before.loans@, m, slot) is Some,
        side_market_value(before.collateral@, m, slot) is Some,
        calculations_cached(before, cached, m, slot),
        is_healthy_spec(cached, m, slot) == Some(true),
        0 <= i < 16,
        collateral_changed(cached, deposited, i, cached.collateral@[i].amount@ + notes),
        side_market_value(deposited.loans@, m, slot) is Some,
        side_market_value(deposited.collateral@, m, slot) is Some,
        calculations_cached(deposited, after, m, slot),
    ensures
        is_healthy_spec(after, m, slot) == Some(true),
{
    lemma_side_len(&cached.collateral);
    let s = cached.collateral@;
    let t = deposited.collateral@;
    assert(same_slots(s, t)) by {
        assert forall|j: int| 0 <= j < s.len() implies (#[trigger] s[j]).account == t[j].account
            && s[j].reserve_index == t[j].reserve_index by {
            if j != i {
                assert(t[j] == s[j]);
            }
        }
    }
    lemma_same_shape(s, t);
    assert(amounts_grow(s, t)) by {
        assert forall|j: int| 0 <= j < s.len() implies (#[trigger] s[j]).side == t[j].side
            && s[j].reserve_index == t[j].reserve_index && s[j].amount@ <= t[j].amount@ by {
            if j != i {
                assert(t[j] == s[j]);
            }
        }
    }
    lemma_first_free(s, 0);
    lemma_side_value_grows(s, t, m, slot, registered_len(s));
}

/// Repaying a loan keeps a healthy obligation healthy: from an obligation
/// whose calculations were cached at a slot and that is healthy there,
/// repaying notes of a loan position and caching the calculations again at
/// that slot leaves it healthy.
pub proof fn lemma_repay_keeps_healthy(
    before: Obligation,
    cached: Obligation,
    repaid: Obligation,
    after: Obligation,
    m: MarketReserves,
    slot: u64,
    i: int,
    notes: nat,
)
    requires
        side_market_value(before.loans@, m, slot) is Some,
        side_market_value(before.collateral@, m, slot) is Some,
        calculations_cached(before, cached, m, slot),
        is_healthy_spec(cached, m, slot) == Some(true),
        0 <= i < 16,
        notes <= cached.loans@[i].amount@,
        loans_changed(cached, repaid, i, (cached.loans@[i].amount@ - notes) as nat),
        side_market_value(repaid.loans@, m, slot) is Some,
        side_market_value(repaid.collateral@, m, slot) is Some,
        calculations_cached(repaid, after, m, slot),
    ensures
        is_healthy_spec(after, m, slot) == Some(true),
{
    lemma_side_len(&cached.loans);
    let s = repaid.loans@;
    let t = cached.loans@;
    assert(same_slots(t, s)) by {
        assert forall|j: int| 0 <= j < t.len() implies (#[trigger] t[j]).account == s[j].account
            && t[j].reserve_index == s[j].reserve_index by {
            if j != i {
                assert(t[j] == s[j]);
            }
        }
    }
    lemma_same_shape(t, s);
    assert(amounts_grow(s, t)) by {
        assert forall|j: int| 0 <= j < s.len() implies (#[trigger] s[j]).side == t[j].side
            && s[j].reserve_index == t[j].reserve_index && s[j].amount@ <= t[j].amount@ by {
            if j != i {
                assert(t[j] == s[j]);
            }
        }
    }
    lemma_first_free(t, 0);
    lemma_side_value_grows(s, t, m, slot, registered_len(t));
    lemma_max_ratio_same_reserves(s, t, m, slot, registered_len(t));
    let lv1 = cached.cached.value.loan_value@;
    let lv3 = after.cached.value.loan_value@;
    match max_ratio_upto(t, m, slot, registered_len(t)) {
        Some(Some(ratio)) => {
            vstd::arithmetic::mul::lemma_mul_inequality(lv3 as int, lv1 as int, ratio as int);
            lemma_scale_monotone(lv3, lv1, ratio, one());
        },
        _ => {},
    }
}

/// The largest ratio over the first `n` positions: where it is computed
/// and `n` is positive, every one of those positions' reserves is usable,
/// its ratio is at most the largest, and some position's ratio equals it.
proof fn lemma_max_ratio_bounds(s: Seq<Position>, m: MarketReserves, slot: u64, n: int)
    requires
        max_ratio_upto(s, m, slot, n) is Some,
    ensures
        n <= 0 <==> max_ratio_upto(s, m, slot, n) == Some(None::<nat>),
        max_ratio_upto(s, m, slot, n) matches Some(Some(x)) ==> {
            &&& forall|j: int|
                0 <= j < n ==> (#[trigger] cached_reserve(m, s[j].reserve_index, slot)) is Some
                    && cached_reserve(m, s[j].reserve_index, slot)->0.min_collateral_ratio@ <= x
            &&& exists|j: int|
                0 <= j < n && (#[trigger] cached_reserve(m, s[j].reserve_index, slot))->0.min_collateral_ratio@
                    == x
        },
    decreases n,
{
    if n > 0 {
        lemma_max_ratio_bounds(s, m, slot, n - 1);
        let x = max_ratio_upto(s, m, slot, n)->0->0;
        let r = cached_reserve(m, s[n - 1].reserve_index, slot)->0;
        if let Some(Some(y)) = max_ratio_upto(s, m, slot, n - 1) {
            if r.min_collateral_ratio@ < y {
                let w = choose|j: int|
                    0 <= j < n - 1 && (#[trigger] cached_reserve(m, s[j].reserve_index, slot))->0.min_collateral_ratio@
                        == y;
                assert(0 <= w < n && cached_reserve(m, s[w].reserve_index, slot)->0.min_collateral_ratio@
                    == x);
            } else {
                assert(cached_reserve(m, s[n - 1].reserve_index, slot)->0.min_collateral_ratio@ == x);
            }
        } else {
            assert(cached_reserve(m, s[n - 1].reserve_index, slot)->0.min_collateral_ratio@ == x);
        }
    }
}

/// Health checks every loan: where health is decided, the obligation is
/// healthy exactly when, for every registered loan position, the cached
/// loan value times that loan's reserve's minimum collateral ratio is
/// computed and is at most the cached collateral value. So one loan whose
/// ratio the collateral does not cover makes the obligation unhealthy.
pub proof fn lemma_health_checks_every_loan(o: Obligation, m: MarketReserves, slot: u64)
    ensures
        is_healthy_spec(o, m, slot) matches Some(h) ==> (h <==> forall|j: int|
            0 <= j < registered_len(o.loans@) ==> {
                let v = mul_spec(
                    o.cached.value.loan_value@,
                    (#[trigger] cached_reserve(m, o.loans@[j].reserve_index, slot))->0.min_collateral_ratio@,
                );
                v is Some && v->0 <= o.cached.value.collateral_value@
            }),
{
    let s = o.loans@;
    let n = registered_len(s);
    let lv = o.cached.value.loan_value@;
    let cv = o.cached.value.collateral_value@;
    if is_healthy_spec(o, m, slot) is Some {
        lemma_max_ratio_bounds(s, m, slot, n);
        if let Some(Some(x)) = max_ratio_upto(s, m, slot, n) {
            let w = choose|j: int|
                0 <= j < n && (#[trigger] cached_reserve(m, s[j].reserve_index, slot))->0.min_collateral_ratio@
                    == x;
            assert forall|j: int| 0 <= j < n implies ({
                let v = mul_spec(
                    lv,
                    (#[trigger] cached_reserve(m, s[j].reserve_index, slot))->0.min_collateral_ratio@,
                );
                v is Some && v->0 <= mul_spec(lv, x)->0
            }) by {
                let rj = cached_reserve(m, s[j].reserve_index, slot)->0.min_collateral_ratio@;
                vstd::arithmetic::mul::lemma_mul_inequality(rj as int, x as int, lv as int);
                vstd::arithmetic::mul::lemma_mul_is_commutative(rj as int, lv as int);
                vstd::arithmetic::mul::lemma_mul_is_commutative(x as int, lv as int);
                lemma_scale_monotone(rj, x, lv, one());
            }
            assert(mul_spec(lv, cached_reserve(m, s[w].reserve_index, slot)->0.min_collateral_ratio@)
                == mul_spec(lv, x));
        } else {
            assert(n <= 0);
        }
    }
}

/// The values of an obligation are cached for the slot they were computed
/// at only: where the cache was refreshed at `slot` and not invalidated
/// since, the collateral and loan values are the cached ones; otherwise
/// (another slot, or invalidated) they are the sides' market values priced
/// with the market's cached reserve values at `slot`.
pub proof fn lemma_values_cached_for_one_slot(o: Obligation, m: MarketReserves, slot: u64)
    ensures
        (o.cached.last_updated == slot && !o.cached.invalidated) ==> {
            &&& collateral_value_spec(o, m, slot) == Some(o.cached.value.collateral_value@)
            &&& loan_value_spec(o, m, slot) == Some(o.cached.value.loan_value@)
        },
        (o.cached.last_updated != slot || o.cached.invalidated) ==> {
            &&& collateral_value_spec(o, m, slot) == side_market_value(o.collateral@, m, slot)
            &&& loan_value_spec(o, m, slot) == side_market_value(o.loans@, m, slot)
        },
{
}

proof fn lemma_find_reserve(s: Seq<Position>, reserve_index: ReserveIndex, i: int)
    requires
        0 <= i <= s.len(),
    ensures
        find_reserve_from(s, reserve_index, i) matches Some(k) ==> i <= k < s.len()
            && s[k].reserve_index == reserve_index && forall|j: int|
            i <= j < k ==> s[j].reserve_index != reserve_index,
        find_reserve_from(s, reserve_index, i) is None ==> forall|j: int|
            i <= j < s.len() ==> s[j].reserve_index != reserve_index,
    decreases s.len() - i,
{
    if i < s.len() && s[i].reserve_index != reserve_index {
        lemma_find_reserve(s, reserve_index, i + 1);
    }
}

/// No reserve is both deposited to and borrowed from: where a registered
/// position of the other side, in whatever slot, is in the same reserve as
/// the account's position and holds at least one whole note, the change is
/// refused with `SimultaneousDepositAndBorrow` (so deposits, withdrawals,
/// borrows and repayments leave the obligation unchanged).
pub proof fn lemma_shared_reserve_refused(
    active: Seq<Position>,
    passive: Seq<Position>,
    account: Pubkey,
    i: int,
    j: int,
)
    requires
        side_wf(passive),
        find_account(active, account) == Some(i),
        0 <= j < registered_len(passive),
        passive[j].reserve_index == active[i].reserve_index,
        passive[j].amount@ >= one(),
    ensures
        validate_spec(active, passive, account) is Some ==> validate_spec(active, passive, account)
            == Some(Err::<int, ErrorCode>(ErrorCode::SimultaneousDepositAndBorrow)),
{
    let r = active[i].reserve_index;
    lemma_first_free(passive, 0);
    lemma_find_reserve(passive, r, 0);
    if let Some(k) = find_reserve(passive, r) {
        if k < j {
            assert(passive[k].reserve_index != passive[j].reserve_index);
        }
        if j < k {
            assert(false);
        }
        assert(k == j);
    }
    reveal_with_fuel(crate::number::pow10, 16);
    assert(crate::number::pow10(15) == one());
    let a = passive[j].amount@;
    vstd::arithmetic::div_mod::lemma_div_is_ordered(one() as int, a as int, one() as int);
}

/// Two sides hold the same accounts and reserves, slot by slot.
pub open spec fn same_slots(s: Seq<Position>, t: Seq<Position>) -> bool {
    &&& s.len() == t.len()
    &&& forall|j: int|
        0 <= j < s.len() ==> (#[trigger] s[j]).account == t[j].account && s[j].reserve_index
            == t[j].reserve_index
}

proof fn lemma_first_free_same_accounts(s: Seq<Position>, t: Seq<Position>, i: int)
    requires
        s.len() == t.len(),
        0 <= i <= s.len(),
        forall|j: int| 0 <= j < s.len() ==> (#[trigger] s[j]).account == t[j].account,
    ensures
        first_free_from(s, i) == first_free_from(t, i),
    decreases s.len() - i,
{
    if i < s.len() {
        lemma_first_free_same_accounts(s, t, i + 1);
    }
}

/// Two sides whose slots hold the same accounts and reserves have the same
/// registered positions' shape.
proof fn lemma_same_shape(s: Seq<Position>, t: Seq<Position>)
    requires
        same_slots(s, t),
    ensures
        registered_len(s) == registered_len(t),
        side_wf(s) ==> side_wf(t),
{
    lemma_first_free_same_accounts(s, t, 0);
    lemma_first_free(s, 0);
    if side_wf(s) {
        assert forall|a: int, b: int| 0 <= a < b < registered_len(t) implies (#[trigger] t[a]).account
            != (#[trigger] t[b]).account && t[a].reserve_index != t[b].reserve_index by {
            assert(registered_len(s) == registered_len(t));
            assert(s[a].account != s[b].account && s[a].reserve_index != s[b].reserve_index);
            assert(s[a].account == t[a].account && s[a].reserve_index == t[a].reserve_index);
            assert(s[b].account == t[b].account && s[b].reserve_index == t[b].reserve_index);
        }
        assert forall|j: int| registered_len(t) <= j < t.len() implies (#[trigger] t[j]).account
            == default_key() by {
            assert(s[j].account == default_key());
        }
    }
}

/// Registration keeps the invariant of an obligation.
proof fn lemma_wf_after_register(
    before: Obligation,
    after: Obligation,
    account: Pubkey,
    reserve_index: ReserveIndex,
    is_loan: bool,
)
    requires
        obligation_wf(before),
        position_count_spec(before) >= 11 ==> after == before,
        position_count_spec(before) < 11 ==> {
            &&& is_loan ==> can_register(before.loans@, account, reserve_index)
                && loan_registered(before, after, account, reserve_index)
            &&& !is_loan ==> can_register(before.collateral@, account, reserve_index)
                && collateral_registered(before, after, account, reserve_index)
        },
    ensures
        obligation_wf(after),
{
    if position_count_spec(before) < 11 {
        lemma_first_free(before.collateral@, 0);
        lemma_first_free(before.loans@, 0);
        lemma_side_len(&before.collateral);
        lemma_side_len(&before.loans);
        lemma_registration_keeps_bound(before, after, account, reserve_index, is_loan);
        if is_loan {
            lemma_side_registered_distinct(before.loans@, after.loans@, account, reserve_index, 1);
        } else {
            lemma_side_registered_distinct(
                before.collateral@,
                after.collateral@,
                account,
                reserve_index,
                0,
            );
        }
    }
}

proof fn lemma_side_registered_distinct(
    before: Seq<Position>,
    after: Seq<Position>,
    account: Pubkey,
    reserve_index: ReserveIndex,
    side: u32,
)
    requires
        side_wf(before),
        registered_len(before) < before.len(),
        can_register(before, account, reserve_index),
        position_registered(before, after, account, reserve_index, side),
        registered_len(after) == registered_len(before) + 1,
        side_compact(after),
    ensures
        side_wf(after),
{
    let k = registered_len(before);
    assert forall|a: int, b: int| 0 <= a < b < registered_len(after) implies (
    #[trigger] after[a]).account != (#[trigger] after[b]).account && after[a].reserve_index
        != after[b].reserve_index by {
        if b == k {
            assert(after[a] == before[a]);
        } else {
            assert(after[a] == before[a]);
            assert(after[b] == before[b]);
        }
    }
}

/// Caching the calculations twice at a slot leaves the obligation as once.
pub proof fn lemma_cache_calculations_idempotent(
    before: Obligation,
    once: Obligation,
    twice: Obligation,
    m: MarketReserves,
    slot: u64,
)
    requires
        calculations_cached(before, once, m, slot),
        calculations_cached(once, twice, m, slot),
    ensures
        twice == once,
{
    crate::number::lemma_view_injective(twice.cached.value.loan_value, once.cached.value.loan_value);
    crate::number::lemma_view_injective(
        twice.cached.value.collateral_value,
        once.cached.value.collateral_value,
    );
    assert(twice.cached.value == once.cached.value);
    assert(twice.cached == once.cached);
}

} // verus!
