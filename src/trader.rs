//! The engine: per-market state, snapshot handling, cooldowns and settlement.
use vstd::prelude::*;
use crate::decision::{Decision, DecisionInput, DecisionParams, Quote};
use crate::market::{clone_opt, fresh_trade, opt_view, CycleTrade, CycleTradeView, MarketKey, MarketSnapshot};
use crate::position::{Holdings, Side};
use crate::settlement::{settle_trade, settles_as, Resolution, Settlement};
use crate::sizing::{base_shares, cooldown_for, cooldown_for_market, shares_for_market_with_time, sized_for_time, SizingParams};
use crate::table::{Table, TableKey};
use crate::text::upper_of;
use crate::trend::{trend_of_window, window_after, PriceSample, PriceWindow};
use crate::wave::{is_flat_like, WaveState};

verus! {

/// When a market last bought, and in which period.
#[derive(Clone, Copy, Debug, PartialEq, Eq, Structural)]
pub struct CooldownMark {
    pub at: u64,
    pub period_timestamp: u64,
}

/// A buy the engine decided on.
#[derive(Debug)]
pub struct BuyOrder {
    pub condition_id: String,
    pub period_timestamp: u64,
    pub market_duration_secs: u64,
    pub side: Side,
    pub token_id: Option<String>,
    /// Share units to buy.
    pub size: u64,
    /// Ask of the side bought, in price units.
    pub price: u32,
    pub is_lock: bool,
    /// The buy opens a position on a flat or falling market.
    pub flat_entry: bool,
    /// Cost per pair after the buy, where the buy leaves a pair.
    pub cost_per_pair: Option<u128>,
    /// The order still has to be placed with the venue; once it is,
    /// `confirm_buy` records it.
    pub pending: bool,
}

impl BuyOrder {
    pub open spec fn key(&self) -> (Seq<char>, u64) {
        (self.condition_id@, self.period_timestamp)
    }
}

/// A sum clamped to the range of `i128`.
pub open spec fn clamped_sum(a: int, b: int) -> int {
    if a + b > i128::MAX {
        i128::MAX as int
    } else if a + b < i128::MIN {
        i128::MIN as int
    } else {
        a + b
    }
}

fn add_clamped(a: i128, b: i128) -> (r: i128)
    ensures
        r == clamped_sum(a as int, b as int),
{
    match a.checked_add(b) {
        Some(v) => v,
        None => if b > 0 {
            i128::MAX
        } else {
            i128::MIN
        },
    }
}

/// The engine's state: per-market price windows, wave counters and ledger,
/// cooldowns and settlement flags per condition id, and running profits.
pub struct Trader {
    simulation_mode: bool,
    params: DecisionParams,
    cooldown_seconds: u64,
    cooldown_seconds_1h: u64,
    sizing: SizingParams,
    last_buy: Table<String, CooldownMark>,
    trades: Table<MarketKey, CycleTrade>,
    total_profit: i128,
    period_profit: i128,
    closure_checked: Table<String, bool>,
    price_history: Table<MarketKey, PriceWindow>,
    wave_state: Table<MarketKey, WaveState>,
}

impl Trader {
    pub closed spec fn is_simulation(self) -> bool {
        self.simulation_mode
    }

    pub closed spec fn decision_params(self) -> DecisionParams {
        self.params
    }

    pub closed spec fn sizing_params(self) -> SizingParams {
        self.sizing
    }

    pub closed spec fn short_cooldown(self) -> u64 {
        self.cooldown_seconds
    }

    pub closed spec fn long_cooldown(self) -> u64 {
        self.cooldown_seconds_1h
    }

    /// The ledger: one entry per trading cycle with a recorded buy.
    pub closed spec fn trades(self) -> Map<(Seq<char>, u64), CycleTradeView> {
        self.trades.map().map_values(|t: CycleTrade| t@)
    }

    pub closed spec fn waves(self) -> Map<(Seq<char>, u64), WaveState> {
        self.wave_state.map()
    }

    pub closed spec fn windows(self) -> Map<(Seq<char>, u64), Seq<PriceSample>> {
        self.price_history.map().map_values(|w: PriceWindow| w@)
    }

    pub closed spec fn cooldowns(self) -> Map<Seq<char>, CooldownMark> {
        self.last_buy.map()
    }

    /// Condition ids already settled.
    pub closed spec fn checked(self) -> Set<Seq<char>> {
        self.closure_checked.map().dom()
    }

    pub closed spec fn total(self) -> int {
        self.total_profit as int
    }

    pub closed spec fn period_total(self) -> int {
        self.period_profit as int
    }

    pub closed spec fn wf(self) -> bool {
        &&& self.last_buy.wf()
        &&& self.trades.wf()
        &&& self.closure_checked.wf()
        &&& self.price_history.wf()
        &&& self.wave_state.wf()
        &&& forall|k: (Seq<char>, u64)| #[trigger] self.trades.map().contains_key(k) ==> {
            &&& self.trades.map()[k].holdings.wf()
            &&& self.trades.map()[k]@.condition_id == k.0
            &&& self.trades.map()[k].period_timestamp == k.1
        }
        &&& forall|k: (Seq<char>, u64)| #[trigger] self.wave_state.map().contains_key(k)
            ==> self.wave_state.map()[k].wf()
        &&& forall|k: (Seq<char>, u64)| #[trigger] self.price_history.map().contains_key(k)
            ==> self.price_history.map()[k].wf()
    }

    pub open spec fn holdings_at(self, k: (Seq<char>, u64)) -> Holdings {
        if self.trades().contains_key(k) {
            self.trades()[k].holdings
        } else {
            Holdings { up_shares: 0, down_shares: 0, up_cost: 0, down_cost: 0 }
        }
    }

    pub open spec fn wave_at(self, k: (Seq<char>, u64)) -> WaveState {
        if self.waves().contains_key(k) {
            self.waves()[k]
        } else {
            WaveState { buys_up_since_lock: 0, buys_down_since_lock: 0, flat_buys_since_lock: 0 }
        }
    }

    pub open spec fn window_at(self, k: (Seq<char>, u64)) -> Seq<PriceSample> {
        if self.windows().contains_key(k) {
            self.windows()[k]
        } else {
            Seq::empty()
        }
    }

    /// The ledger entry a buy for `k` extends: the existing one, or a fresh one.
    pub open spec fn trade_base(self, k: (Seq<char>, u64), duration: u64) -> CycleTradeView {
        if self.trades().contains_key(k) {
            self.trades()[k]
        } else {
            fresh_trade(k, duration)
        }
    }

    /// Everything but the ledger, the waves, the windows and the cooldowns is as in `pre`.
    pub open spec fn same_settings_and_profits(self, pre: Trader) -> bool {
        &&& self.is_simulation() == pre.is_simulation()
        &&& self.decision_params() == pre.decision_params()
        &&& self.sizing_params() == pre.sizing_params()
        &&& self.short_cooldown() == pre.short_cooldown()
        &&& self.long_cooldown() == pre.long_cooldown()
        &&& self.total() == pre.total()
        &&& self.period_total() == pre.period_total()
        &&& self.checked() == pre.checked()
    }

    /// `self` is `pre` with a buy of `side` for `k` recorded in the ledger and
    /// counted in the market's wave.
    pub open spec fn records_buy(
        self,
        pre: Trader,
        k: (Seq<char>, u64),
        duration: u64,
        side: Side,
        token: Seq<char>,
        size: int,
        price: int,
        is_lock: bool,
        flat_entry: bool,
    ) -> bool {
        &&& self.trades() == pre.trades().insert(k, pre.trade_base(k, duration).after_buy(side, token, size, price))
        &&& self.waves() == pre.waves().insert(k, pre.wave_at(k).after_buy(side, is_lock, flat_entry))
    }

    /// Order size for a snapshot.
    pub open spec fn order_size(self, snap: MarketSnapshot) -> int {
        sized_for_time(
            self.sizing_params(),
            base_shares(self.sizing_params().shares_override, upper_of(snap.market_name@)),
            snap.time_remaining as int,
        )
    }

    /// The sample a snapshot adds to its market's window.
    pub open spec fn sample_of(snap: MarketSnapshot, now: u64) -> PriceSample {
        PriceSample { timestamp: now, up_ask: snap.ask(Side::Up), down_ask: snap.ask(Side::Down) }
    }

    /// What the decision reads for a snapshot, once its sample is in the window.
    pub open spec fn input_for(self, snap: MarketSnapshot, now: u64) -> DecisionInput {
        let k = snap.key();
        DecisionInput {
            holdings: self.holdings_at(k),
            quote: Quote { up_ask: snap.ask(Side::Up), down_ask: snap.ask(Side::Down) },
            trend: trend_of_window(window_after(self.window_at(k), Self::sample_of(snap, now))),
            wave: self.wave_at(k),
            params: self.decision_params(),
            size: self.order_size(snap) as u64,
            time_remaining: snap.time_remaining,
        }
    }

    /// A buy for this condition already happened in this period, within the cooldown.
    pub open spec fn cooldown_blocks(self, snap: MarketSnapshot, now: u64) -> bool {
        let cid = snap.condition_id@;
        &&& self.cooldowns().contains_key(cid)
        &&& self.cooldowns()[cid].period_timestamp == snap.period_timestamp
        &&& now < self.cooldowns()[cid].at + cooldown_for(
            self.short_cooldown(),
            self.long_cooldown(),
            snap.market_duration_secs,
            upper_of(snap.market_name@),
        )
    }

    /// The snapshot carries no usable data: no time left or a missing ask.
    pub open spec fn skips(snap: MarketSnapshot) -> bool {
        snap.time_remaining == 0 || snap.ask(Side::Up) == 0 || snap.ask(Side::Down) == 0
    }

    pub fn new(
        simulation_mode: bool,
        cost_per_pair_max: u32,
        min_side_price: u32,
        max_side_price: u32,
        cooldown_seconds: u64,
        cooldown_seconds_1h: u64,
        shares_override: Option<u32>,
        size_reduce_after_secs: u32,
        size_min_ratio: u32,
        size_min_shares: u32,
    ) -> (t: Trader)
        ensures
            t.wf(),
            t.is_simulation() == simulation_mode,
            t.decision_params() == (DecisionParams { cost_per_pair_max, min_side_price, max_side_price }),
            t.sizing_params() == (SizingParams {
                shares_override,
                size_reduce_after_secs,
                size_min_ratio,
                size_min_shares,
            }),
            t.short_cooldown() == cooldown_seconds,
            t.long_cooldown() == cooldown_seconds_1h,
            t.trades() == Map::<(Seq<char>, u64), CycleTradeView>::empty(),
            t.waves() == Map::<(Seq<char>, u64), WaveState>::empty(),
            t.windows() == Map::<(Seq<char>, u64), Seq<PriceSample>>::empty(),
            t.cooldowns() == Map::<Seq<char>, CooldownMark>::empty(),
            t.checked() == Set::<Seq<char>>::empty(),
            t.total() == 0,
            t.period_total() == 0,
    {
        let t = Trader {
            simulation_mode,
            params: DecisionParams { cost_per_pair_max, min_side_price, max_side_price },
            cooldown_seconds,
            cooldown_seconds_1h,
            sizing: SizingParams { shares_override, size_reduce_after_secs, size_min_ratio, size_min_shares },
            last_buy: Table::new(),
            trades: Table::new(),
            total_profit: 0,
            period_profit: 0,
            closure_checked: Table::new(),
            price_history: Table::new(),
            wave_state: Table::new(),
        };
        assert(t.trades() =~= Map::<(Seq<char>, u64), CycleTradeView>::empty());
        assert(t.windows() =~= Map::<(Seq<char>, u64), Seq<PriceSample>>::empty());
        assert(t.checked() =~= Set::<Seq<char>>::empty());
        t
    }

    /// The wave counters of a market.
    pub fn wave_of(&self, key: &MarketKey) -> (r: WaveState)
        requires
            self.wf(),
        ensures
            r == self.wave_at(key@),
    {
        self.wave_for(key)
    }

    /// What is held in a market.
    pub fn holdings_of(&self, key: &MarketKey) -> (r: Holdings)
        requires
            self.wf(),
        ensures
            r == self.holdings_at(key@),
    {
        self.holdings_for(key)
    }

    pub fn get_total_profit(&self) -> (r: i128)
        ensures
            r == self.total(),
    {
        self.total_profit
    }

    pub fn get_period_profit(&self) -> (r: i128)
        ensures
            r == self.period_total(),
    {
        self.period_profit
    }

    /// Starts a new trading period: clears the cooldowns, the settlement
    /// flags and the period's profit.
    pub fn reset_period(&mut self)
        requires
            old(self).wf(),
        ensures
            final(self).wf(),
            final(self).cooldowns() == Map::<Seq<char>, CooldownMark>::empty(),
            final(self).checked() == Set::<Seq<char>>::empty(),
            final(self).period_total() == 0,
            final(self).total() == old(self).total(),
            final(self).trades() == old(self).trades(),
            final(self).waves() == old(self).waves(),
            final(self).windows() == old(self).windows(),
            final(self).is_simulation() == old(self).is_simulation(),
            final(self).decision_params() == old(self).decision_params(),
            final(self).sizing_params() == old(self).sizing_params(),
            final(self).short_cooldown() == old(self).short_cooldown(),
            final(self).long_cooldown() == old(self).long_cooldown(),
    {
        self.last_buy.clear();
        self.closure_checked.clear();
        self.period_profit = 0;
        assert(self.checked() =~= Set::<Seq<char>>::empty());
    }
}

} // verus!

verus! {

impl Trader {
    fn holdings_for(&self, key: &MarketKey) -> (h: Holdings)
        requires
            self.wf(),
        ensures
            h == self.holdings_at(key@),
            h.wf(),
    {
        match self.trades.get(key) {
            Some(t) => t.holdings,
            None => Holdings::empty(),
        }
    }

    fn wave_for(&self, key: &MarketKey) -> (w: WaveState)
        requires
            self.wf(),
        ensures
            w == self.wave_at(key@),
            w.wf(),
    {
        match self.wave_state.get(key) {
            Some(w) => *w,
            None => WaveState::new(),
        }
    }

    /// Adds a sample to a market's window and returns the window's trend.
    fn observe_price(&mut self, key: &MarketKey, sample: PriceSample) -> (t: crate::trend::Trend)
        requires
            old(self).wf(),
        ensures
            final(self).wf(),
            final(self).windows() == old(self).windows().insert(key@, window_after(old(self).window_at(key@), sample)),
            t == trend_of_window(window_after(old(self).window_at(key@), sample)),
            final(self).trades() == old(self).trades(),
            final(self).waves() == old(self).waves(),
            final(self).cooldowns() == old(self).cooldowns(),
            final(self).same_settings_and_profits(*old(self)),
    {
        let mut w = match self.price_history.take(key) {
            Some(w) => w,
            None => PriceWindow::new(),
        };
        let trend = w.observe(sample);
        let ghost w_view = w@;
        self.price_history.insert(key.duplicate(), w);
        assert(self.windows() =~= old(self).windows().insert(key@, w_view));
        trend
    }

    /// Counts a buy in its market's wave.
    fn count_wave(&mut self, key: &MarketKey, side: Side, is_lock: bool, flat_entry: bool)
        requires
            old(self).wf(),
        ensures
            final(self).wf(),
            final(self).waves() == old(self).waves().insert(key@, old(self).wave_at(key@).after_buy(side, is_lock, flat_entry)),
            final(self).trades() == old(self).trades(),
            final(self).windows() == old(self).windows(),
            final(self).cooldowns() == old(self).cooldowns(),
            final(self).same_settings_and_profits(*old(self)),
    {
        let mut w = self.wave_for(key);
        w.record_buy(side, is_lock, flat_entry);
        self.wave_state.insert(key.duplicate(), w);
    }

    /// Records a filled buy in the ledger and counts it in the wave.
    fn apply_buy(
        &mut self,
        key: &MarketKey,
        duration: u64,
        side: Side,
        token: String,
        size: u64,
        price: u32,
        is_lock: bool,
        flat_entry: bool,
    )
        requires
            old(self).wf(),
            old(self).holdings_at(key@).fits(side, size as int),
        ensures
            final(self).wf(),
            final(self).records_buy(*old(self), key@, duration, side, token@, size as int, price as int, is_lock, flat_entry),
            final(self).windows() == old(self).windows(),
            final(self).cooldowns() == old(self).cooldowns(),
            final(self).same_settings_and_profits(*old(self)),
    {
        let ghost pre = *self;
        let mut t = match self.trades.take(key) {
            Some(t) => t,
            None => CycleTrade::new(&key.condition_id, key.period_timestamp, duration),
        };
        assert(t@ == pre.trade_base(key@, duration));
        t.record_buy(side, token, size, price);
        let ghost t_view = t@;
        self.trades.insert(key.duplicate(), t);
        assert(self.trades() =~= pre.trades().insert(key@, t_view));
        self.count_wave(key, side, is_lock, flat_entry);
    }

    /// Applies the cooldown gate: refuses a buy within the cooldown of an
    /// earlier buy of the same condition in the same period, else starts a
    /// new cooldown.
    fn pass_cooldown(&mut self, snap: &MarketSnapshot, now: u64) -> (r: bool)
        requires
            old(self).wf(),
        ensures
            final(self).wf(),
            r == !old(self).cooldown_blocks(*snap, now),
            r ==> final(self).cooldowns() == old(self).cooldowns().insert(
                snap.condition_id@,
                CooldownMark { at: now, period_timestamp: snap.period_timestamp },
            ),
            !r ==> final(self).cooldowns() == old(self).cooldowns(),
            final(self).trades() == old(self).trades(),
            final(self).waves() == old(self).waves(),
            final(self).windows() == old(self).windows(),
            final(self).same_settings_and_profits(*old(self)),
    {
        let cooldown = cooldown_for_market(
            self.cooldown_seconds,
            self.cooldown_seconds_1h,
            snap.market_duration_secs,
            snap.market_name.as_str(),
        );
        if let Some(mark) = self.last_buy.get(&snap.condition_id) {
            if mark.period_timestamp == snap.period_timestamp && (now as u128) < mark.at as u128
                + cooldown as u128 {
                return false;
            }
        }
        self.last_buy.insert(
            snap.condition_id.clone(),
            CooldownMark { at: now, period_timestamp: snap.period_timestamp },
        );
        true
    }
}

} // verus!

verus! {

pub open spec fn token_or_empty(t: Option<Seq<char>>) -> Seq<char> {
    match t {
        Some(s) => s,
        None => Seq::empty(),
    }
}

impl Trader {
    /// What a snapshot does to the engine, given the order it returned.
    pub open spec fn snapshot_outcome(
        pre: Trader,
        post: Trader,
        snap: MarketSnapshot,
        now: u64,
        r: Option<BuyOrder>,
    ) -> bool {
        if Self::skips(snap) {
            r is None && post == pre
        } else {
            let k = snap.key();
            let inp = pre.input_for(snap, now);
            &&& post.windows() == pre.windows().insert(k, window_after(pre.window_at(k), Self::sample_of(snap, now)))
            &&& post.same_settings_and_profits(pre)
            &&& match inp.decision() {
                Decision::Abstain => {
                    &&& r is None
                    &&& post.trades() == pre.trades()
                    &&& post.waves() == pre.waves()
                    &&& post.cooldowns() == pre.cooldowns()
                },
                Decision::Buy { side, is_lock } => if pre.cooldown_blocks(snap, now) {
                    &&& r is None
                    &&& post.trades() == pre.trades()
                    &&& post.waves() == pre.waves()
                    &&& post.cooldowns() == pre.cooldowns()
                } else {
                    let flat_entry = inp.holdings.is_flat() && is_flat_like(inp.trend);
                    let token = snap.token(side);
                    let pending = !pre.is_simulation() && token is Some;
                    &&& post.cooldowns() == pre.cooldowns().insert(
                        snap.condition_id@,
                        CooldownMark { at: now, period_timestamp: snap.period_timestamp },
                    )
                    &&& r matches Some(o) && {
                        &&& o.key() == k
                        &&& o.market_duration_secs == snap.market_duration_secs
                        &&& o.side == side
                        &&& o.is_lock == is_lock
                        &&& o.flat_entry == flat_entry
                        &&& o.size == inp.size
                        &&& o.price == snap.ask(side)
                        &&& opt_view(o.token_id) == token
                        &&& o.pending == pending
                        &&& (o.cost_per_pair matches Some(c) ==> inp.holdings.cost_per_pair(side, inp.size as int, o.price as int) == Some(c as int))
                        &&& (o.cost_per_pair is None ==> inp.holdings.cost_per_pair(side, inp.size as int, o.price as int) is None)
                    }
                    &&& if pre.is_simulation() {
                        post.records_buy(pre, k, snap.market_duration_secs, side, token_or_empty(token), inp.size as int, snap.ask(side) as int, is_lock, flat_entry)
                    } else if pending {
                        post.trades() == pre.trades() && post.waves() == pre.waves()
                    } else {
                        post.trades() == pre.trades()
                            && post.waves() == pre.waves().insert(k, pre.wave_at(k).after_buy(side, is_lock, flat_entry))
                    }
                },
            }
        }
    }

    /// Handles one market snapshot taken at `now`: updates the market's
    /// price window, decides, applies the cooldown gate, and returns the buy
    /// decided on. In simulation the buy is recorded at once; otherwise an
    /// order with a token is returned pending, for the caller to place and
    /// then confirm.
    pub fn process_snapshot(&mut self, snap: &MarketSnapshot, now: u64) -> (r: Option<BuyOrder>)
        requires
            old(self).wf(),
        ensures
            final(self).wf(),
            Self::snapshot_outcome(*old(self), *final(self), *snap, now, r),
            snap.time_remaining == 0 ==> r is None && *final(self) == *old(self),
    {
        if snap.time_remaining == 0 {
            return None;
        }
        let up_ask: u32 = match snap.up_ask {
            Some(p) => p,
            None => 0,
        };
        let down_ask: u32 = match snap.down_ask {
            Some(p) => p,
            None => 0,
        };
        if up_ask == 0 || down_ask == 0 {
            return None;
        }
        let ghost pre = *self;
        let key = MarketKey::new(&snap.condition_id, snap.period_timestamp);
        let holdings = self.holdings_for(&key);
        let size = shares_for_market_with_time(&self.sizing, snap.market_name.as_str(), snap.time_remaining);
        let trend = self.observe_price(&key, PriceSample { timestamp: now, up_ask, down_ask });
        let wave = self.wave_for(&key);
        let input = DecisionInput {
            holdings,
            quote: Quote { up_ask, down_ask },
            trend,
            wave,
            params: self.params,
            size,
            time_remaining: snap.time_remaining,
        };
        assert(input == pre.input_for(*snap, now));
        let (side, is_lock) = match input.decide() {
            Decision::Abstain => return None,
            Decision::Buy { side, is_lock } => (side, is_lock),
        };
        if !self.pass_cooldown(snap, now) {
            return None;
        }
        let flat_entry = holdings.up_shares == 0 && holdings.down_shares == 0 && (trend
            == crate::trend::Trend::Flat || trend == crate::trend::Trend::UpFalling || trend
            == crate::trend::Trend::DownFalling);
        let price = input.quote.ask_of(side);
        let token_id = match side {
            Side::Up => clone_opt(&snap.up_token_id),
            Side::Down => clone_opt(&snap.down_token_id),
        };
        let cost_per_pair = if holdings.can_fit(side, size) {
            holdings.pair_cost_after(side, size, price)
        } else {
            None
        };
        let pending = !self.simulation_mode && token_id.is_some();
        if self.simulation_mode {
            let token = match clone_opt(&token_id) {
                Some(t) => t,
                None => String::new(),
            };
            self.apply_buy(&key, snap.market_duration_secs, side, token, size, price, is_lock, flat_entry);
        } else if !pending {
            self.count_wave(&key, side, is_lock, flat_entry);
        }
        Some(BuyOrder {
            condition_id: snap.condition_id.clone(),
            period_timestamp: snap.period_timestamp,
            market_duration_secs: snap.market_duration_secs,
            side,
            token_id,
            size,
            price,
            is_lock,
            flat_entry,
            cost_per_pair,
            pending,
        })
    }

    /// Records an order that the venue filled. Returns false, changing
    /// nothing, where the buy would exceed the position's capacity.
    pub fn confirm_buy(&mut self, order: &BuyOrder) -> (r: bool)
        requires
            old(self).wf(),
        ensures
            final(self).wf(),
            r == old(self).holdings_at(order.key()).fits(order.side, order.size as int),
            r ==> final(self).records_buy(
                *old(self),
                order.key(),
                order.market_duration_secs,
                order.side,
                token_or_empty(opt_view(order.token_id)),
                order.size as int,
                order.price as int,
                order.is_lock,
                order.flat_entry,
            ),
            !r ==> *final(self) == *old(self),
            final(self).windows() == old(self).windows(),
            final(self).cooldowns() == old(self).cooldowns(),
            final(self).same_settings_and_profits(*old(self)),
    {
        let key = MarketKey::new(&order.condition_id, order.period_timestamp);
        let holdings = self.holdings_for(&key);
        if !holdings.can_fit(order.side, order.size) {
            return false;
        }
        let token = match clone_opt(&order.token_id) {
            Some(t) => t,
            None => String::new(),
        };
        self.apply_buy(
            &key,
            order.market_duration_secs,
            order.side,
            token,
            order.size,
            order.price,
            order.is_lock,
            order.flat_entry,
        );
        true
    }
}

} // verus!

verus! {

impl Trader {
    /// A market's ledger entry is due for settlement at `now`: its period
    /// has ended and its condition is not settled yet.
    pub open spec fn due_at(self, k: (Seq<char>, u64), now: u64) -> bool {
        &&& self.trades().contains_key(k)
        &&& self.trades()[k].period_timestamp + self.trades()[k].market_duration_secs <= now
        &&& !self.checked().contains(self.trades()[k].condition_id)
    }

    /// What settling `k` against `res` does to the engine.
    pub open spec fn settle_outcome(
        pre: Trader,
        post: Trader,
        k: (Seq<char>, u64),
        res: Resolution,
        r: Option<Settlement>,
    ) -> bool {
        if !pre.trades().contains_key(k) || pre.checked().contains(pre.trades()[k].condition_id)
            || !res.closed {
            r is None && post == pre
        } else {
            let t = pre.trades()[k];
            &&& r matches Some(s) && {
                &&& settles_as(s, t, res.tokens@, pre.is_simulation())
                &&& post.total() == clamped_sum(pre.total(), s.pnl as int)
                &&& post.period_total() == clamped_sum(pre.period_total(), s.pnl as int)
            }
            &&& post.trades() == pre.trades().remove(k)
            &&& post.checked() == pre.checked().insert(t.condition_id)
            &&& post.waves() == pre.waves()
            &&& post.windows() == pre.windows()
            &&& post.cooldowns() == pre.cooldowns()
            &&& post.is_simulation() == pre.is_simulation()
            &&& post.decision_params() == pre.decision_params()
            &&& post.sizing_params() == pre.sizing_params()
            &&& post.short_cooldown() == pre.short_cooldown()
            &&& post.long_cooldown() == pre.long_cooldown()
        }
    }

    /// Settles the ledger entry of `key` against the market's resolution:
    /// where the market has closed and its condition is not settled yet,
    /// realizes the profit into both running totals, marks the condition
    /// settled and removes the entry. Otherwise changes nothing.
    pub fn check_market_closure(&mut self, key: &MarketKey, res: &Resolution) -> (r: Option<Settlement>)
        requires
            old(self).wf(),
        ensures
            final(self).wf(),
            Self::settle_outcome(*old(self), *final(self), key@, *res, r),
    {
        let ghost pre = *self;
        if !res.closed {
            return None;
        }
        let checked = match self.trades.get(key) {
            Some(t) => self.closure_checked.contains(&t.condition_id),
            None => return None,
        };
        if checked {
            return None;
        }
        let t = match self.trades.take(key) {
            Some(t) => t,
            None => return None,
        };
        let s = settle_trade(&t, &res.tokens, self.simulation_mode);
        self.total_profit = add_clamped(self.total_profit, s.pnl);
        self.period_profit = add_clamped(self.period_profit, s.pnl);
        self.closure_checked.insert(t.condition_id, true);
        assert(self.trades() =~= pre.trades().remove(key@));
        assert(self.checked() =~= pre.checked().insert(pre.trades()[key@].condition_id));
        Some(s)
    }

    /// The ledger entries due for settlement at `now`.
    pub fn closures_due(&self, now: u64) -> (r: Vec<MarketKey>)
        requires
            self.wf(),
        ensures
            forall|i: int| 0 <= i < r@.len() ==> self.due_at(#[trigger] r@[i]@, now),
            forall|k: (Seq<char>, u64)| self.due_at(k, now) ==> exists|i: int| 0 <= i < r@.len() && r@[i]@ == k,
    {
        let mut due: Vec<MarketKey> = Vec::new();
        let n = self.trades.len();
        proof {
            self.trades.lemma_keys();
        }
        let mut i: usize = 0;
        while i < n
            invariant
                self.wf(),
                n == self.trades.size(),
                i <= n,
                forall|j: int| 0 <= j < due@.len() ==> self.due_at(#[trigger] due@[j]@, now),
                forall|j: int| 0 <= j < i ==> self.due_at(#[trigger] self.trades.key_at(j), now)
                    ==> exists|m: int| 0 <= m < due@.len() && due@[m]@ == self.trades.key_at(j),
            decreases n - i,
        {
            let k = self.trades.key_ref(i);
            let t = self.trades.value_ref(i);
            proof {
                assert(self.trades()[self.trades.key_at(i as int)] == t@);
            }
            let ghost before = due@;
            let ends: u128 = t.period_timestamp as u128 + t.market_duration_secs as u128;
            if ends <= now as u128 && !self.closure_checked.contains(&t.condition_id) {
                due.push(k.duplicate());
                proof {
                    assert(due@[due@.len() - 1]@ == self.trades.key_at(i as int));
                }
            }
            proof {
                assert forall|j: int| 0 <= j <= i && self.due_at(#[trigger] self.trades.key_at(j), now)
                    implies exists|m: int| 0 <= m < due@.len() && due@[m]@ == self.trades.key_at(j) by {
                    if j < i {
                        let m = choose|m: int| 0 <= m < before.len() && before[m]@ == self.trades.key_at(j);
                        assert(due@[m] == before[m]);
                    } else {
                        assert(due@[due@.len() - 1]@ == self.trades.key_at(i as int));
                    }
                }
            }
            i = i + 1;
        }
        proof {
            assert forall|k: (Seq<char>, u64)| self.due_at(k, now) implies exists|m: int| 0 <= m < due@.len() && due@[m]@ == k by {
                assert(self.trades.map().contains_key(k));
                let j = choose|j: int| 0 <= j < self.trades.size() && self.trades.key_at(j) == k;
                assert(self.due_at(self.trades.key_at(j), now));
            }
        }
        due
    }
}

/// Settling a market twice with the same resolution counts it once: the
/// second call returns nothing and changes nothing, so the profit is
/// accumulated once and the ledger entry removed once.
pub proof fn lemma_settlement_is_idempotent(
    t0: Trader,
    t1: Trader,
    t2: Trader,
    k: (Seq<char>, u64),
    res: Resolution,
    r1: Option<Settlement>,
    r2: Option<Settlement>,
)
    requires
        Trader::settle_outcome(t0, t1, k, res, r1),
        Trader::settle_outcome(t1, t2, k, res, r2),
    ensures
        r2 is None,
        t2 == t1,
        !t2.trades().contains_key(k) || r1 is None,
        r1 matches Some(s) ==> t2.total() == clamped_sum(t0.total(), s.pnl as int)
            && t2.period_total() == clamped_sum(t0.period_total(), s.pnl as int),
        r1 is None ==> t2 == t0,
{
}

/// A lock buy resets every wave counter of its market to zero; any other
/// buy leaves each counter of its market at least where it was. This holds
/// for every buy the engine records.
pub proof fn lemma_buy_wave_update(
    pre: Trader,
    post: Trader,
    k: (Seq<char>, u64),
    duration: u64,
    side: Side,
    token: Seq<char>,
    size: int,
    price: int,
    is_lock: bool,
    flat_entry: bool,
)
    requires
        pre.wf(),
        post.records_buy(pre, k, duration, side, token, size, price, is_lock, flat_entry),
    ensures
        is_lock ==> post.wave_at(k).is_zero(),
        !is_lock ==> {
            &&& post.wave_at(k).buys_up_since_lock >= pre.wave_at(k).buys_up_since_lock
            &&& post.wave_at(k).buys_down_since_lock >= pre.wave_at(k).buys_down_since_lock
            &&& post.wave_at(k).flat_buys_since_lock >= pre.wave_at(k).flat_buys_since_lock
        },
{
    let w = pre.wave_at(k);
    assert(w.wf());
    crate::wave::lemma_lock_resets_and_other_buys_never_decrease(w, side, is_lock, flat_entry);
}

} // verus!

verus! {

/// The keys of a table that belong to a condition id.
fn keys_with_condition<V>(t: &Table<MarketKey, V>, cid: &String) -> (r: Vec<MarketKey>)
    requires
        t.wf(),
    ensures
        forall|j: int| 0 <= j < r@.len() ==> (#[trigger] r@[j]@).0 == cid@,
        forall|k: (Seq<char>, u64)| t.map().contains_key(k) && k.0 == cid@ ==> exists|j: int| 0 <= j < r@.len() && r@[j]@ == k,
{
    let mut out: Vec<MarketKey> = Vec::new();
    let n = t.len();
    proof {
        t.lemma_keys();
    }
    let mut i: usize = 0;
    while i < n
        invariant
            t.wf(),
            n == t.size(),
            i <= n,
            forall|j: int| 0 <= j < out@.len() ==> (#[trigger] out@[j]@).0 == cid@,
            forall|j: int| 0 <= j < i && (#[trigger] t.key_at(j)).0 == cid@ ==> exists|m: int| 0 <= m < out@.len() && out@[m]@ == t.key_at(j),
        decreases n - i,
    {
        let k = t.key_ref(i);
        let ghost before = out@;
        if k.condition_id == *cid {
            out.push(k.duplicate());
        }
        proof {
            assert forall|j: int| 0 <= j <= i && (#[trigger] t.key_at(j)).0 == cid@ implies exists|m: int| 0 <= m < out@.len() && out@[m]@ == t.key_at(j) by {
                if j < i {
                    let m = choose|m: int| 0 <= m < before.len() && before[m]@ == t.key_at(j);
                    assert(out@[m] == before[m]);
                } else {
                    assert(out@[out@.len() - 1]@ == t.key_at(i as int));
                }
            }
        }
        i = i + 1;
    }
    proof {
        assert forall|k: (Seq<char>, u64)| t.map().contains_key(k) && k.0 == cid@ implies exists|j: int| 0 <= j < out@.len() && out@[j]@ == k by {
            let j = choose|j: int| 0 <= j < t.size() && t.key_at(j) == k;
            assert(t.key_at(j).0 == cid@);
        }
    }
    out
}

/// The keys among the first `n` of a list.
pub open spec fn key_set(keys: Seq<MarketKey>, n: int) -> Set<(Seq<char>, u64)> {
    Set::new(|k: (Seq<char>, u64)| exists|j: int| 0 <= j < n && #[trigger] keys[j]@ == k)
}

/// Removes the entries of the given keys.
fn drop_keys<V>(t: &mut Table<MarketKey, V>, keys: &Vec<MarketKey>)
    requires
        old(t).wf(),
    ensures
        final(t).wf(),
        final(t).map() == old(t).map().remove_keys(key_set(keys@, keys@.len() as int)),
{
    let mut j: usize = 0;
    assert(old(t).map().remove_keys(key_set(keys@, 0)) =~= old(t).map());
    while j < keys.len()
        invariant
            t.wf(),
            j <= keys@.len(),
            t.map() == old(t).map().remove_keys(key_set(keys@, j as int)),
        decreases keys@.len() - j,
    {
        let _ = t.take(&keys[j]);
        proof {
            let s0 = key_set(keys@, j as int);
            let s1 = key_set(keys@, j + 1);
            assert forall|k: (Seq<char>, u64)| s1.contains(k) == (s0.contains(k) || k == keys@[j as int]@) by {
                if s1.contains(k) {
                    let m = choose|m: int| 0 <= m < j + 1 && #[trigger] keys@[m]@ == k;
                    if m < j {
                        assert(s0.contains(k));
                    }
                }
                if k == keys@[j as int]@ {
                    assert(s1.contains(k));
                }
            }
            assert(t.map() =~= old(t).map().remove_keys(s1));
        }
        j = j + 1;
    }
}

impl Trader {
    /// Drops the price windows and wave counters of every cycle of a
    /// condition id, once its period is over. Ledger entries stay until
    /// they are settled.
    pub fn rollover(&mut self, condition_id: &String)
        requires
            old(self).wf(),
        ensures
            final(self).wf(),
            final(self).windows() == old(self).windows().remove_keys(
                Set::new(|k: (Seq<char>, u64)| k.0 == condition_id@),
            ),
            final(self).waves() == old(self).waves().remove_keys(
                Set::new(|k: (Seq<char>, u64)| k.0 == condition_id@),
            ),
            final(self).trades() == old(self).trades(),
            final(self).cooldowns() == old(self).cooldowns(),
            final(self).same_settings_and_profits(*old(self)),
    {
        let ghost pre = *self;
        let ghost gone = Set::new(|k: (Seq<char>, u64)| k.0 == condition_id@);
        let stale_windows = keys_with_condition(&self.price_history, condition_id);
        drop_keys(&mut self.price_history, &stale_windows);
        let stale_waves = keys_with_condition(&self.wave_state, condition_id);
        drop_keys(&mut self.wave_state, &stale_waves);
        proof {
            assert(pre.price_history.map().remove_keys(key_set(stale_windows@, stale_windows@.len() as int)) =~= pre.price_history.map().remove_keys(gone)) by {
                assert forall|k: (Seq<char>, u64)| pre.price_history.map().contains_key(k) implies (key_set(stale_windows@, stale_windows@.len() as int).contains(k) == gone.contains(k)) by {
                    if key_set(stale_windows@, stale_windows@.len() as int).contains(k) {
                        let j = choose|j: int| 0 <= j < stale_windows@.len() && stale_windows@[j]@ == k;
                        assert((stale_windows@[j]@).0 == condition_id@);
                    }
                }
            }
            assert(pre.wave_state.map().remove_keys(key_set(stale_waves@, stale_waves@.len() as int)) =~= pre.wave_state.map().remove_keys(gone)) by {
                assert forall|k: (Seq<char>, u64)| pre.wave_state.map().contains_key(k) implies (key_set(stale_waves@, stale_waves@.len() as int).contains(k) == gone.contains(k)) by {
                    if key_set(stale_waves@, stale_waves@.len() as int).contains(k) {
                        let j = choose|j: int| 0 <= j < stale_waves@.len() && stale_waves@[j]@ == k;
                        assert((stale_waves@[j]@).0 == condition_id@);
                    }
                }
            }
            assert(self.windows() =~= pre.windows().remove_keys(gone));
        }
    }
}

} // verus!
