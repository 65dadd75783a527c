//! The lending market account and the reserves registered with it.
use vstd::prelude::*;
use vstd::utf8::*;

use crate::errors::ErrorCode;
use crate::number::{as_u64_o, div_spec, mul_spec, one, pow10, Number};
use crate::pubkey::{default_key, key_bytes, Pubkey};
use crate::utils::{attribute_search, bytes_equal, read_pyth_product_attribute, str_from_utf8};

use super::cache::Cache;
use vstd::arithmetic::div_mod::{
    lemma_div_is_ordered, lemma_div_multiples_vanish, lemma_fundamental_div_mod, lemma_mod_pos_bound,
};

verus! {

/// Index of a reserve within its market.
pub type ReserveIndex = u16;

/// Cached reserve values that are calculated dynamically.
#[derive(Clone, Copy)]
pub struct CachedReserveInfo {
    /// The price of the asset being stored in the reserve account.
    /// USD per smallest unit (1u64) of a token
    pub price: Number,
    /// The value of the deposit note (unit: reserve tokens per note token)
    pub deposit_note_exchange_rate: Number,
    /// The value of the loan note (unit: reserve tokens per note token)
    pub loan_note_exchange_rate: Number,
    /// The minimum allowable collateralization ratio for a loan on this reserve
    pub min_collateral_ratio: Number,
    /// The bonus awarded to liquidators when repaying a loan in exchange for a
    /// collateral asset.
    pub liquidation_bonus: u16,
}

/// Tokens worth `notes` notes at `rate` tokens per note, truncated.
pub open spec fn notes_to_tokens_spec(rate: nat, notes: nat) -> Option<nat> {
    as_u64_o(mul_spec(rate, notes * one()), 0)
}

/// Notes worth `tokens` tokens at `rate` tokens per note, truncated.
pub open spec fn notes_from_tokens_spec(rate: nat, tokens: nat) -> Option<nat> {
    as_u64_o(div_spec(tokens * one(), rate), 0)
}

impl CachedReserveInfo {
    /// All values zero.
    pub fn zeroed() -> (r: CachedReserveInfo)
        ensures
            r.price@ == 0,
            r.deposit_note_exchange_rate@ == 0,
            r.loan_note_exchange_rate@ == 0,
            r.min_collateral_ratio@ == 0,
            r.liquidation_bonus == 0,
    {
        CachedReserveInfo {
            price: Number::zero(),
            deposit_note_exchange_rate: Number::zero(),
            loan_note_exchange_rate: Number::zero(),
            min_collateral_ratio: Number::zero(),
            liquidation_bonus: 0,
        }
    }

    /// USD per smallest unit (1u64) of the deposit note
    pub fn deposit_note_price(&self) -> (r: Number)
        requires
            mul_spec(self.deposit_note_exchange_rate@, self.price@) is Some,
        ensures
            r@ == mul_spec(self.deposit_note_exchange_rate@, self.price@)->0,
    {
        self.deposit_note_exchange_rate.mul(self.price)
    }

    /// USD per smallest unit (1u64) of the loan note
    pub fn loan_note_price(&self) -> (r: Number)
        requires
            mul_spec(self.loan_note_exchange_rate@, self.price@) is Some,
        ensures
            r@ == mul_spec(self.loan_note_exchange_rate@, self.price@)->0,
    {
        self.loan_note_exchange_rate.mul(self.price)
    }

    /// Convert loan notes into the equivalent value of tokens
    pub fn loan_notes_to_tokens(&self, notes: u64) -> (r: u64)
        requires
            notes_to_tokens_spec(self.loan_note_exchange_rate@, notes as nat) is Some,
        ensures
            r == notes_to_tokens_spec(self.loan_note_exchange_rate@, notes as nat)->0,
    {
        self.loan_note_exchange_rate.mul(Number::from_u64(notes)).as_u64(0)
    }

    /// Convert a token amount into the equivalent value of loan notes
    pub fn loan_notes_from_tokens(&self, tokens: u64) -> (r: u64)
        requires
            notes_from_tokens_spec(self.loan_note_exchange_rate@, tokens as nat) is Some,
        ensures
            r == notes_from_tokens_spec(self.loan_note_exchange_rate@, tokens as nat)->0,
    {
        Number::from_u64(tokens).div(self.loan_note_exchange_rate).as_u64(0)
    }

    /// Convert deposit notes into the equivalent value of tokens
    pub fn deposit_notes_to_tokens(&self, notes: u64) -> (r: u64)
        requires
            notes_to_tokens_spec(self.deposit_note_exchange_rate@, notes as nat) is Some,
        ensures
            r == notes_to_tokens_spec(self.deposit_note_exchange_rate@, notes as nat)->0,
    {
        self.deposit_note_exchange_rate.mul(Number::from_u64(notes)).as_u64(0)
    }

    /// Convert a token amount into the equivalent value of deposit notes
    pub fn deposit_notes_from_tokens(&self, tokens: u64) -> (r: u64)
        requires
            notes_from_tokens_spec(self.deposit_note_exchange_rate@, tokens as nat) is Some,
        ensures
            r == notes_from_tokens_spec(self.deposit_note_exchange_rate@, tokens as nat)->0,
    {
        Number::from_u64(tokens).div(self.deposit_note_exchange_rate).as_u64(0)
    }
}

/// Information about one reserve registered with a market.
#[derive(Clone, Copy)]
pub struct ReserveInfo {
    /// The related reserve account
    pub reserve: Pubkey,
    /// Cached values for the portion of the reserve info that is calculated dynamically
    pub cache: Cache<CachedReserveInfo, 1>,
}

/// An unused reserve slot: the default key and an all-zero cache.
pub open spec fn is_zeroed_reserve(r: ReserveInfo) -> bool {
    &&& r.reserve == default_key()
    &&& r.cache.last_updated == 0
    &&& !r.cache.invalidated
    &&& r.cache.value.price@ == 0
    &&& r.cache.value.deposit_note_exchange_rate@ == 0
    &&& r.cache.value.loan_note_exchange_rate@ == 0
    &&& r.cache.value.min_collateral_ratio@ == 0
    &&& r.cache.value.liquidation_bonus == 0
}

impl core::ops::Deref for ReserveInfo {
    type Target = Cache<CachedReserveInfo, 1>;

    /// The cache of the reserve's values.
    fn deref(&self) -> (r: &Cache<CachedReserveInfo, 1>)
        ensures
            *r == self.cache,
    {
        &self.cache
    }
}

impl core::ops::DerefMut for ReserveInfo {
    /// The cache of the reserve's values, for modification.
    fn deref_mut(&mut self) -> (r: &mut Cache<CachedReserveInfo, 1>)
        ensures
            *r == old(self).cache,
            *final(self) == (ReserveInfo { cache: *final(r), ..*old(self) }),
    {
        &mut self.cache
    }
}

impl ReserveInfo {
    /// An unused reserve slot.
    pub fn zeroed() -> (r: ReserveInfo)
        ensures
            is_zeroed_reserve(r),
    {
        ReserveInfo { reserve: Pubkey::default(), cache: Cache::new(CachedReserveInfo::zeroed(), 0) }
    }

    /// The cached values, which must be usable at `current_slot`.
    pub fn unwrap(&self, current_slot: u64) -> (r: &CachedReserveInfo)
        requires
            self.cache.is_valid(current_slot),
        ensures
            *r == self.cache.value,
    {
        self.cache.expect(current_slot)
    }

    /// The cached values for modification, which must be usable at
    /// `current_slot`.
    pub fn unwrap_mut(&mut self, current_slot: u64) -> (r: &mut CachedReserveInfo)
        requires
            old(self).cache.is_valid(current_slot),
        ensures
            *r == old(self).cache.value,
            final(self).reserve == old(self).reserve,
            final(self).cache.last_updated == old(self).cache.last_updated,
            final(self).cache.invalidated == old(self).cache.invalidated,
            final(self).cache.value == *final(r),
    {
        self.cache.expect_mut(current_slot)
    }
}

/// Index of the first unused slot (default key) from `i` on, or the length
/// of `s` where there is none.
pub open spec fn first_free_reserve_from(s: Seq<ReserveInfo>, i: int) -> int
    decreases s.len() - i,
{
    if i < 0 || i >= s.len() {
        s.len() as int
    } else if s[i].reserve == default_key() {
        i
    } else {
        first_free_reserve_from(s, i + 1)
    }
}

/// Index of the first unused slot, or the length of `s` where there is none.
pub open spec fn first_free_reserve(s: Seq<ReserveInfo>) -> int {
    first_free_reserve_from(s, 0)
}

/// What `first_free_reserve_from` finds: every slot before it from `i` on
/// is used, and it is the length or an unused slot.
pub proof fn lemma_first_free_reserve(s: Seq<ReserveInfo>, i: int)
    requires
        0 <= i <= s.len(),
    ensures
        i <= first_free_reserve_from(s, i) <= s.len(),
        forall|j: int| i <= j < first_free_reserve_from(s, i) ==> s[j].reserve != default_key(),
        first_free_reserve_from(s, i) < s.len() ==> s[first_free_reserve_from(s, i)].reserve
            == default_key(),
    decreases s.len() - i,
{
    if i < s.len() && s[i].reserve != default_key() {
        lemma_first_free_reserve(s, i + 1);
    }
}

/// The reserves of a market: a fixed table of 32 slots, used
/// from the front.
#[derive(Clone, Copy)]
pub struct MarketReserves {
    /// Tracks the current prices of the tokens in reserve accounts
    reserve_info: [ReserveInfo; 32],
}

impl View for MarketReserves {
    type V = Seq<ReserveInfo>;

    /// The slots, in order.
    closed spec fn view(&self) -> Seq<ReserveInfo> {
        self.reserve_info@
    }
}

/// A market always has 32 slots.
pub broadcast proof fn lemma_market_reserves_len(m: &MarketReserves)
    ensures
        #[trigger] m@.len() == 32,
{
    broadcast use vstd::array::group_array_axioms;

}

/// The cached values of reserve `index` when they are usable at `slot`;
/// `None` where the index is out of range or the values are stale (a read
/// there panics).
pub open spec fn cached_reserve(m: MarketReserves, index: ReserveIndex, slot: u64) -> Option<
    CachedReserveInfo,
> {
    if (index as int) < m@.len() && m@[index as int].cache.is_valid(slot) {
        Some(m@[index as int].cache.value)
    } else {
        None
    }
}

/// `IndexMut<RangeTo<usize>>` of std's arrays (`&mut a[..n]`): the first
/// `n` elements, through which the array's prefix is changed while the rest
/// stays as it was.
#[verifier::external_body]
fn array_prefix_mut<T, const N: usize>(a: &mut [T; N], n: usize) -> (r: &mut [T])
    requires
        n <= N,
    ensures
        r@ == old(a)@.take(n as int),
        final(a)@ == final(r)@ + old(a)@.skip(n as int),
{
    &mut a[..n]
}

impl MarketReserves {
    /// A market with every slot unused.
    pub fn zeroed() -> (r: MarketReserves)
        ensures
            forall|i: int| 0 <= i < 32 ==> is_zeroed_reserve(#[trigger] r@[i]),
    {
        broadcast use vstd::array::group_array_axioms;

        let z = ReserveInfo::zeroed();
        let r = MarketReserves { reserve_info: [z; 32] };
        assert forall|i: int| 0 <= i < 32 implies is_zeroed_reserve(#[trigger] r@[i]) by {
            assert(r.reserve_info@[i] == z);
        }
        r
    }

    /// Register a reserve in the first unused slot and return that slot's
    /// index; fails with `NoFreeReserves` where every slot is used.
    pub fn register(&mut self, reserve: &Pubkey) -> (r: Result<ReserveIndex, ErrorCode>)
        ensures
            ({
                let ff = first_free_reserve(old(self)@);
                if ff < 32 {
                    &&& r == Ok::<ReserveIndex, ErrorCode>(ff as ReserveIndex)
                    &&& final(self)@ == old(self)@.update(
                        ff,
                        ReserveInfo { reserve: *reserve, ..old(self)@[ff] },
                    )
                } else {
                    &&& r == Err::<ReserveIndex, ErrorCode>(ErrorCode::NoFreeReserves)
                    &&& final(self)@ == old(self)@
                }
            }),
    {
        broadcast use vstd::array::group_array_axioms;

        let mut index: usize = 0;
        while index < 32
            invariant
                index <= 32,
                *self == *old(self),
                first_free_reserve(self@) == first_free_reserve_from(self@, index as int),
            decreases 32 - index,
        {
            if !self.reserve_info[index].reserve.is_default() {
                index = index + 1;
                continue;
            }
            let mut entry = self.reserve_info[index];
            entry.reserve = *reserve;
            self.reserve_info[index] = entry;
            assert(final(self)@ =~= old(self)@.update(
                index as int,
                ReserveInfo { reserve: *reserve, ..old(self)@[index as int] },
            ));
            return Ok(index as ReserveIndex);
        }
        Err(ErrorCode::NoFreeReserves)
    }

    /// Clear slot `index`.
    pub fn remove(&mut self, index: ReserveIndex)
        requires
            (index as int) < 32,
        ensures
            final(self)@.len() == 32,
            forall|i: int|
                0 <= i < 32 && i != index ==> final(self)@[i] == old(self)@[i],
            is_zeroed_reserve(final(self)@[index as int]),
    {
        broadcast use vstd::array::group_array_axioms;

        self.reserve_info[index as usize] = ReserveInfo::zeroed();
    }

    /// Slot `index`, for modification.
    pub fn get_mut(&mut self, index: ReserveIndex) -> (r: &mut ReserveInfo)
        requires
            (index as int) < 32,
        ensures
            *r == old(self)@[index as int],
            final(self)@ == old(self)@.update(index as int, *final(r)),
    {
        broadcast use vstd::array::group_array_axioms;

        &mut self.reserve_info[index as usize]
    }

    /// Slot `index`.
    pub fn get(&self, index: ReserveIndex) -> (r: &ReserveInfo)
        requires
            (index as int) < 32,
        ensures
            *r == self@[index as int],
    {
        &self.reserve_info[index as usize]
    }

    /// The cached values of reserve `index`, which must be usable at
    /// `current_slot`.
    pub fn get_cached(&self, index: ReserveIndex, current_slot: u64) -> (r: &CachedReserveInfo)
        requires
            cached_reserve(*self, index, current_slot) is Some,
        ensures
            *r == cached_reserve(*self, index, current_slot)->0,
    {
        proof {
            lemma_market_reserves_len(self);
        }
        let entry = self.get(index);
        entry.cache.expect(current_slot)
    }

    /// The cached values of reserve `index` for modification, which must be
    /// usable at `current_slot`.
    pub fn get_cached_mut(&mut self, index: ReserveIndex, current_slot: u64) -> (r:
        &mut CachedReserveInfo)
        requires
            cached_reserve(*old(self), index, current_slot) is Some,
        ensures
            *r == cached_reserve(*old(self), index, current_slot)->0,
            final(self)@ == old(self)@.update(
                index as int,
                ReserveInfo {
                    cache: Cache { value: *final(r), ..old(self)@[index as int].cache },
                    ..old(self)@[index as int]
                },
            ),
    {
        proof {
            lemma_market_reserves_len(old(self));
        }
        self.get_mut(index).cache.expect_mut(current_slot)
    }

    /// The registered reserves, for modification: the slots before the
    /// first unused one.
    pub fn iter_mut(&mut self) -> (r: &mut [ReserveInfo])
        ensures
            r@ == old(self)@.take(first_free_reserve(old(self)@)),
            final(self)@ == final(r)@ + old(self)@.skip(first_free_reserve(old(self)@)),
    {
        broadcast use vstd::array::group_array_axioms;

        proof {
            lemma_first_free_reserve(self@, 0);
        }
        let mut index: usize = 0;
        while index < 32 && !self.reserve_info[index].reserve.is_default()
            invariant
                index <= first_free_reserve(self@) <= 32,
                forall|j: int| 0 <= j < first_free_reserve(self@) ==> self@[j].reserve != default_key(),
                first_free_reserve(self@) < 32 ==> self@[first_free_reserve(self@)].reserve
                    == default_key(),
            decreases 32 - index,
        {
            index = index + 1;
        }
        array_prefix_mut(&mut self.reserve_info, index)
    }

    /// The registered reserves: the slots before the first unused one.
    pub fn iter(&self) -> (r: &[ReserveInfo])
        ensures
            r@ == self@.take(first_free_reserve(self@)),
    {
        broadcast use vstd::array::group_array_axioms;

        let mut index: usize = 0;
        proof {
            lemma_first_free_reserve(self@, 0);
        }
        while index < 32 && !self.reserve_info[index].reserve.is_default()
            invariant
                index <= first_free_reserve(self@) <= 32,
                forall|j: int| 0 <= j < first_free_reserve(self@) ==> self@[j].reserve != default_key(),
                first_free_reserve(self@) < 32 ==> self@[first_free_reserve(self@)].reserve
                    == default_key(),
            decreases 32 - index,
        {
            index = index + 1;
        }
        let r = vstd::slice::slice_subrange(self.reserve_info.as_slice(), 0, index);
        assert(r@ =~= self@.take(first_free_reserve(self@)));
        r
    }
}

/// An oracle product account, as far as validating it against a market
/// needs: its attribute list and the address of its price account.
#[derive(Clone)]
pub struct Product {
    /// The product's attributes (see `attribute_search`).
    pub attr: Vec<u8>,
    /// The price account of the product.
    pub px_acc: Pubkey,
}

/// The attribute name `quote_currency`, in ASCII.
pub open spec fn quote_currency_key() -> Seq<u8> {
    seq![0x71u8, 0x75, 0x6f, 0x74, 0x65, 0x5f, 0x63, 0x75, 0x72, 0x72, 0x65, 0x6e, 0x63, 0x79]
}

/// Index of the first zero byte in `s` from `i` on, or `None`.
pub open spec fn first_zero_from(s: Seq<u8>, i: int) -> Option<int>
    decreases s.len() - i,
{
    if i < 0 || i >= s.len() {
        None
    } else if s[i] == 0 {
        Some(i)
    } else {
        first_zero_from(s, i + 1)
    }
}

/// The name of the quote currency: the bytes before the first zero byte.
/// `None` where there is no zero byte.
pub open spec fn quote_currency_bytes(q: Seq<u8>) -> Option<Seq<u8>> {
    match first_zero_from(q, 0) {
        Some(end) => Some(q.take(end)),
        None => None,
    }
}

proof fn lemma_first_zero(s: Seq<u8>, i: int)
    requires
        0 <= i <= s.len(),
    ensures
        forall|j: int| i <= j < s.len() && s[j] == 0 ==> first_zero_from(s, i) is Some,
        first_zero_from(s, i) matches Some(e) ==> i <= e < s.len() && s[e] == 0 && forall|j: int|
            i <= j < e ==> s[j] != 0,
    decreases s.len() - i,
{
    if i < s.len() && s[i] != 0 {
        lemma_first_zero(s, i + 1);
    }
}

/// Lending market account
pub struct Market {
    pub version: u32,
    /// The exponent used for quote prices
    pub quote_exponent: i32,
    /// The currency used for quote prices
    pub quote_currency: [u8; 15],
    /// The bump seed value for generating the authority address.
    pub authority_bump_seed: [u8; 1],
    /// The address used as the seed for generating the market authority
    /// address. Typically this is the market account's own address.
    pub authority_seed: Pubkey,
    /// The account derived by the program, which has authority over all
    /// assets in the market.
    pub market_authority: Pubkey,
    /// The account that has authority to make changes to the market
    pub owner: Pubkey,
    /// The mint for the token used to quote the value for reserve assets.
    pub quote_token_mint: Pubkey,
    /// The storage for information on reserves in the market
    pub reserves: MarketReserves,
}

impl Market {
    /// A market with the given header and no reserves registered.
    pub fn new(
        quote_exponent: i32,
        quote_currency: [u8; 15],
        authority_bump_seed: [u8; 1],
        authority_seed: Pubkey,
        market_authority: Pubkey,
        owner: Pubkey,
        quote_token_mint: Pubkey,
    ) -> (r: Market)
        ensures
            r.version == 0,
            r.quote_exponent == quote_exponent,
            r.quote_currency == quote_currency,
            r.authority_bump_seed == authority_bump_seed,
            r.authority_seed == authority_seed,
            r.market_authority == market_authority,
            r.owner == owner,
            r.quote_token_mint == quote_token_mint,
            forall|i: int| 0 <= i < 32 ==> is_zeroed_reserve(#[trigger] r.reserves@[i]),
    {
        Market {
            version: 0,
            quote_exponent,
            quote_currency,
            authority_bump_seed,
            authority_seed,
            market_authority,
            owner,
            quote_token_mint,
            reserves: MarketReserves::zeroed(),
        }
    }

    /// Validate that the oracles for a reserve match
    ///
    /// 1) Checks that the product quote currency matches the one set on
    /// the market.
    ///
    /// 2) Checks that the price account address is the same mentioned in
    /// the product.
    pub fn validate_oracle(&self, product: &Product, price: &Pubkey) -> (r: Result<(), ErrorCode>)
        requires
            attribute_search(product.attr@, quote_currency_key(), 0)
                matches Some(name) ==> {
                &&& valid_utf8(name)
                &&& quote_currency_bytes(self.quote_currency@) matches Some(q)
                &&& valid_utf8(q)
            },
        ensures
            match attribute_search(
                product.attr@,
                quote_currency_key(),
                0,
            ) {
                None => r == Err::<(), ErrorCode>(ErrorCode::InvalidOracle),
                Some(name) => if quote_currency_bytes(self.quote_currency@)->0 != name {
                    r == Err::<(), ErrorCode>(ErrorCode::InvalidOracle)
                } else if product.px_acc != *price {
                    r == Err::<(), ErrorCode>(ErrorCode::InvalidOracle)
                } else {
                    r == Ok::<(), ErrorCode>(())
                },
            },
            attribute_search(product.attr@, quote_currency_key(), 0) matches Some(name) ==> (
            decode_utf8(name) == decode_utf8(quote_currency_bytes(self.quote_currency@)->0) <==> name
                == quote_currency_bytes(self.quote_currency@)->0),
    {
        proof {
            if attribute_search(product.attr@, quote_currency_key(), 0) is Some {
                let name = attribute_search(product.attr@, quote_currency_key(), 0)->0;
                let q = quote_currency_bytes(self.quote_currency@)->0;
                decode_utf8_encode_utf8(name);
                decode_utf8_encode_utf8(q);
            }
        }
        let key: [u8; 14] = [
            0x71, 0x75, 0x6f, 0x74, 0x65, 0x5f, 0x63, 0x75, 0x72, 0x72, 0x65, 0x6e, 0x63, 0x79,
        ];
        assert(key@ =~= quote_currency_key()) by {
            broadcast use vstd::array::group_array_axioms;

        }
        let name = match read_pyth_product_attribute(product.attr.as_slice(), &key) {
            None => return Err(ErrorCode::InvalidOracle),
            Some(name) => name,
        };
        let own = self.quote_currency_prefix();
        if !bytes_equal(own, name) {
            return Err(ErrorCode::InvalidOracle);
        }
        if product.px_acc != *price {
            return Err(ErrorCode::InvalidOracle);
        }
        Ok(())
    }

    /// The bytes of the quote currency before its first zero byte.
    fn quote_currency_prefix(&self) -> (r: &[u8])
        requires
            quote_currency_bytes(self.quote_currency@) is Some,
        ensures
            r@ == quote_currency_bytes(self.quote_currency@)->0,
    {
        broadcast use vstd::array::group_array_axioms;

        proof {
            lemma_first_zero(self.quote_currency@, 0);
        }
        let mut end: usize = 0;
        while self.quote_currency[end] != 0
            invariant
                end < 15,
                first_zero_from(self.quote_currency@, 0) == first_zero_from(
                    self.quote_currency@,
                    end as int,
                ),
                first_zero_from(self.quote_currency@, 0) is Some,
            decreases 15 - end,
        {
            end = end + 1;
            proof {
                lemma_first_zero(self.quote_currency@, end as int);
            }
        }
        vstd::slice::slice_subrange(self.quote_currency.as_slice(), 0, end)
    }

    /// Gets the name of the currency used for quotes
    pub fn quote_currency(&self) -> (r: &str)
        requires
            quote_currency_bytes(self.quote_currency@) matches Some(q) && valid_utf8(q),
        ensures
            r@ == decode_utf8(quote_currency_bytes(self.quote_currency@)->0),
    {
        let bytes = self.quote_currency_prefix();
        match str_from_utf8(bytes) {
            Some(s) => s,
            None => {
                assert(false);
                ""
            },
        }
    }

    /// Gets the authority seeds for signing requests with the
    /// market authority address.
    pub fn authority_seeds(&self) -> (r: ([u8; 32], [u8; 1]))
        ensures
            r.0@ == key_bytes(self.authority_seed),
            r.1 == self.authority_bump_seed,
    {
        (self.authority_seed.to_bytes(), self.authority_bump_seed)
    }

    /// The reserves of the market, for modification.
    pub fn reserves_mut(&mut self) -> (r: &mut MarketReserves)
        ensures
            *r == old(self).reserves,
            final(self).reserves == *final(r),
            final(self).version == old(self).version,
            final(self).quote_exponent == old(self).quote_exponent,
            final(self).quote_currency == old(self).quote_currency,
            final(self).authority_bump_seed == old(self).authority_bump_seed,
            final(self).authority_seed == old(self).authority_seed,
            final(self).market_authority == old(self).market_authority,
            final(self).owner == old(self).owner,
            final(self).quote_token_mint == old(self).quote_token_mint,
    {
        &mut self.reserves
    }

    /// The reserves of the market.
    pub fn reserves(&self) -> (r: &MarketReserves)
        ensures
            *r == self.reserves,
    {
        &self.reserves
    }
}

/// The arithmetic of a round trip: with `n = t * o * o / r / o`, the value
/// `r * (n * o) / o / o` is at most `t`.
proof fn lemma_round_trip_arith(r: int, t: int, o: int)
    requires
        r > 0,
        t >= 0,
        o > 0,
    ensures
        (r * ((t * o * o / r / o) * o) / o) / o <= t,
{
    let x = t * o * o;
    assert(x >= 0) by (nonlinear_arith)
        requires
            t >= 0,
            o > 0,
            x == t * o * o,
    ;
    let q = x / r;
    lemma_fundamental_div_mod(x, r);
    lemma_mod_pos_bound(x, r);
    assert(q >= 0) by (nonlinear_arith)
        requires
            x >= 0,
            r > 0,
            q == x / r,
    ;
    let n = q / o;
    lemma_fundamental_div_mod(q, o);
    lemma_mod_pos_bound(q, o);
    assert(n >= 0) by (nonlinear_arith)
        requires
            q >= 0,
            o > 0,
            n == q / o,
    ;
    assert(n * r <= t * o) by (nonlinear_arith)
        requires
            x == r * q + x % r,
            x % r >= 0,
            q == o * n + q % o,
            q % o >= 0,
            x == t * o * o,
            r > 0,
            o > 0,
            n >= 0,
    ;
    assert(r * (n * o) == o * (r * n)) by (nonlinear_arith);
    lemma_div_multiples_vanish(r * n, o);
    assert(r * n == n * r) by (nonlinear_arith);
    lemma_div_is_ordered(r * n, t * o, o);
    assert(t * o == o * t) by (nonlinear_arith);
    lemma_div_multiples_vanish(t, o);
}

/// Turning tokens into notes and back never creates tokens: at a positive
/// rate, the tokens worth the notes worth `tokens` tokens are at most
/// `tokens`, where both conversions succeed. This holds of deposit notes
/// and of loan notes alike, each at its own rate.
pub proof fn lemma_note_round_trip(rate: nat, tokens: nat)
    requires
        rate > 0,
        notes_from_tokens_spec(rate, tokens) is Some,
        notes_to_tokens_spec(rate, notes_from_tokens_spec(rate, tokens)->0) is Some,
    ensures
        notes_to_tokens_spec(rate, notes_from_tokens_spec(rate, tokens)->0)->0 <= tokens,
{
    reveal_with_fuel(pow10, 16);
    assert(pow10(15) == one());
    lemma_round_trip_arith(rate as int, tokens as int, one() as int);
}

/// A registered reserve is found at the index returned: registering a key
/// in the first free slot puts the key there, keeps that slot's cache and
/// every other slot; and a market refuses a reserve exactly when all
/// 32 slots hold one.
pub proof fn lemma_register_then_get(before: MarketReserves, after: MarketReserves, key: Pubkey)
    requires
        first_free_reserve(before@) < 32,
        after@ == before@.update(
            first_free_reserve(before@),
            ReserveInfo { reserve: key, ..before@[first_free_reserve(before@)] },
        ),
    ensures
        after@[first_free_reserve(before@)].reserve == key,
        after@[first_free_reserve(before@)].cache == before@[first_free_reserve(before@)].cache,
        before@[first_free_reserve(before@)].reserve == default_key(),
        forall|j: int| 0 <= j < 32 && j != first_free_reserve(before@) ==> after@[j] == before@[j],
{
    lemma_first_free_reserve(before@, 0);
}

/// A market has no free slot exactly when every slot holds a reserve.
pub proof fn lemma_market_full(m: MarketReserves)
    ensures
        first_free_reserve(m@) >= 32 <==> forall|j: int|
            0 <= j < 32 ==> (#[trigger] m@[j]).reserve != default_key(),
{
    lemma_first_free_reserve(m@, 0);
}

} // verus!
