//! The simulation context: the ledger, the catalog, the unlock flags and the
//! running state of the unlocked powers, with the operations of a session.

use crate::catalog::Powers;
use crate::ledger::TotalPower;
use crate::model::{
    lemma_auto_click_step_wf, lemma_credit_production_wf, lemma_evaluate_unlocks_wf,
    lemma_production_due_monotone, lemma_purchase_wf, lemma_sync_wf, lemma_tick_timers_wf,
    lemma_wf_same_parts, spawned, Command, LedgerOverflow, LiveModel, PurchaseError, Reply,
    SimState, AUTO_CLICK_PERIOD,
};
use crate::power::PowerBundle;
use crate::timer::ProductionTimer;
use crate::unlock::PowerUnlockFlags;
use vstd::prelude::*;

verus! {

/// The running state of an unlocked power.
#[derive(Clone, Copy, Debug, PartialEq, Eq)]
pub struct LivePower {
    current_owned: i64,
    timer: ProductionTimer,
}

impl View for LivePower {
    type V = LiveModel;

    closed spec fn view(&self) -> LiveModel {
        LiveModel { current_owned: self.current_owned as int, timer: self.timer@ }
    }
}

impl LivePower {
    /// The running state that the power of a catalog entry starts with, or
    /// nothing where the entry has no production period.
    pub fn spawn(bundle: &PowerBundle) -> (r: Option<LivePower>)
        ensures
            bundle@.production_rate == 0 ==> r is None,
            bundle@.production_rate > 0 ==> r is Some && r->0@ == spawned(bundle@),
    {
        match ProductionTimer::new(bundle.production_rate) {
            Some(timer) => Some(LivePower { current_owned: bundle.current_owned, timer }),
            None => None,
        }
    }

    /// How many units are owned.
    pub fn current_owned(&self) -> (r: i64)
        ensures
            r == self@.current_owned,
    {
        self.current_owned
    }

    /// The production timer.
    pub fn timer(&self) -> (r: ProductionTimer)
        ensures
            r@ == self@.timer,
    {
        self.timer
    }
}

/// The models of a sequence of running states.
pub open spec fn live_models(live: Seq<Option<LivePower>>) -> Seq<Option<LiveModel>> {
    Seq::new(
        live.len(),
        |i: int|
            match live[i] {
                Some(l) => Some(l@),
                None => None,
            },
    )
}

/// The places of `goal` before place `i`, and those of `start` from there on.
pub open spec fn done_upto<T>(start: Seq<T>, goal: Seq<T>, i: int) -> Seq<T> {
    Seq::new(
        start.len(),
        |k: int|
            if k < i {
                goal[k]
            } else {
                start[k]
            },
    )
}

/// What one frame has brought.
#[derive(Debug, PartialEq, Eq)]
pub struct Frame {
    /// The ids of the powers unlocked by the pass, in rising order.
    pub unlocked: Vec<usize>,
    /// Whether the pass did not take place, the ledger being unable to hold
    /// what it would have credited.
    pub overflow: bool,
    /// The answers to the commands, in their order.
    pub replies: Vec<Reply>,
}

/// One session of the game.
pub struct Simulation {
    ledger: TotalPower,
    powers: Powers,
    flags: PowerUnlockFlags,
    live: Vec<Option<LivePower>>,
    auto_click: bool,
    auto_timer: ProductionTimer,
}

impl View for Simulation {
    type V = SimState;

    closed spec fn view(&self) -> SimState {
        SimState {
            ledger: self.ledger@,
            catalog: self.powers@,
            flags: self.flags@,
            live: live_models(self.live@),
            auto_click: self.auto_click,
            auto_timer: self.auto_timer@,
        }
    }
}

impl Simulation {
    /// The invariant of a session.
    pub open spec fn wf(&self) -> bool {
        self@.wf()
    }

    /// A session that starts from the given ledger, catalog and flags:
    /// every power of the catalog that is unlocked already comes to life.
    pub fn new(ledger: TotalPower, powers: Powers, flags: PowerUnlockFlags, auto_click: bool) -> (r:
        Simulation)
        requires
            powers.wf(),
        ensures
            r.wf(),
            r@ == SimState::initial(ledger@, powers@, flags@, auto_click),
    {
        let ghost goal = SimState::initial(ledger@, powers@, flags@, auto_click);
        let mut live: Vec<Option<LivePower>> = Vec::new();
        let mut id: usize = 0;
        while id < powers.len()
            invariant
                0 <= id <= powers@.len(),
                powers.wf(),
                goal == SimState::initial(ledger@, powers@, flags@, auto_click),
                live_models(live@) == goal.live.take(id as int),
            decreases powers@.len() - id,
        {
            let slot = if flags.is_unlocked(id) {
                match powers.find(id) {
                    Some(bundle) => LivePower::spawn(bundle),
                    None => None,
                }
            } else {
                None
            };
            proof {
                assert(live_models(live@.push(slot)) =~= live_models(live@).push(
                    goal.live[id as int],
                ));
            }
            live.push(slot);
            id = id + 1;
        }
        let auto_timer = ProductionTimer::new(AUTO_CLICK_PERIOD).unwrap();
        let r = Simulation { ledger, powers, flags, live, auto_click, auto_timer };
        assert(r@.live =~= goal.live);
        r
    }

    /// The amount on the ledger.
    pub fn ledger(&self) -> (r: i64)
        ensures
            r == self@.ledger,
    {
        self.ledger.power()
    }

    /// The catalog.
    pub fn powers(&self) -> (r: &Powers)
        ensures
            r@ == self@.catalog,
    {
        &self.powers
    }

    /// The unlock flags.
    pub fn flags(&self) -> (r: &PowerUnlockFlags)
        ensures
            r@ == self@.flags,
    {
        &self.flags
    }

    /// Whether auto-click is on.
    pub fn auto_click_enabled(&self) -> (r: bool)
        ensures
            r == self@.auto_click,
    {
        self.auto_click
    }

    /// The running state of the power `id`, if it is live.
    pub fn live(&self, id: usize) -> (r: Option<LivePower>)
        ensures
            r is Some <==> self@.is_live(id),
            r matches Some(l) ==> Some(l@) == self@.live[id as int],
    {
        if id < self.live.len() {
            self.live[id]
        } else {
            None
        }
    }

    /// The ids of the live powers, in rising order.
    pub fn live_ids(&self) -> (ids: Vec<usize>)
        ensures
            forall|a: int, b: int| 0 <= a < b < ids@.len() ==> ids@[a] < ids@[b],
            forall|id: usize| ids@.contains(id) <==> self@.is_live(id),
    {
        let mut ids: Vec<usize> = Vec::new();
        let mut id: usize = 0;
        while id < self.live.len()
            invariant
                0 <= id <= self.live@.len(),
                forall|a: int, b: int| 0 <= a < b < ids@.len() ==> ids@[a] < ids@[b],
                forall|a: int| 0 <= a < ids@.len() ==> (#[trigger] ids@[a]) < id,
                forall|a: int| 0 <= a < ids@.len() ==> self@.is_live(#[trigger] ids@[a]),
                forall|k: usize| k < id && self@.is_live(k) ==> ids@.contains(k),
            decreases self.live@.len() - id,
        {
            let ghost ids_before = ids@;
            if self.live[id].is_some() {
                ids.push(id);
                proof {
                    assert(ids@[ids@.len() - 1] == id);
                    assert forall|k: usize| k < id + 1 && self@.is_live(k) implies ids@.contains(
                        k,
                    ) by {
                        if k < id {
                            let a = choose|a: int| 0 <= a < ids_before.len() && ids_before[a] == k;
                            assert(ids@[a] == k);
                        }
                    }
                }
            }
            id = id + 1;
        }
        proof {
            assert forall|k: usize| ids@.contains(k) implies self@.is_live(k) by {
                let a = choose|a: int| 0 <= a < ids@.len() && ids@[a] == k;
            }
        }
        ids
    }

    /// One manual click: one more on the ledger, unless the ledger is full.
    pub fn click(&mut self) -> (r: Result<(), LedgerOverflow>)
        requires
            old(self).wf(),
        ensures
            final(self).wf(),
            r == old(self)@.click_outcome(),
            r is Ok ==> final(self)@ == old(self)@.click(),
            r is Err ==> final(self)@ == old(self)@,
    {
        if self.ledger.power() == i64::MAX {
            Err(LedgerOverflow)
        } else {
            self.ledger.add_power(1);
            proof {
                lemma_wf_same_parts(old(self)@, self@);
            }
            Ok(())
        }
    }

    /// Switches auto-click on or off.
    pub fn toggle_auto_click(&mut self)
        requires
            old(self).wf(),
        ensures
            final(self).wf(),
            final(self)@ == old(self)@.toggle_auto_click(),
    {
        self.auto_click = !self.auto_click;
        proof {
            lemma_wf_same_parts(old(self)@, self@);
        }
    }

    /// Buys one unit of the power `id`: takes the cost from the ledger and
    /// raises the owned count by one. A purchase that is turned down
    /// changes nothing.
    pub fn purchase(&mut self, id: usize) -> (r: Result<(), PurchaseError>)
        requires
            old(self).wf(),
        ensures
            final(self).wf(),
            r == old(self)@.purchase_outcome(id),
            final(self)@ == old(self)@.purchase(id),
            r is Ok ==> final(self)@.ledger >= 0,
    {
        if id >= self.live.len() {
            return Err(PurchaseError::NotFound);
        }
        let l = match self.live[id] {
            Some(l) => l,
            None => {
                return Err(PurchaseError::NotFound);
            },
        };
        let (cost, max_owned) = match self.powers.find(id) {
            Some(bundle) => (bundle.cost, bundle.max_owned),
            None => {
                return Err(PurchaseError::NotFound);
            },
        };
        if self.ledger.power() < cost {
            return Err(PurchaseError::InsufficientFunds);
        }
        if l.current_owned >= max_owned {
            return Err(PurchaseError::MaxOwnedReached);
        }
        self.ledger.add_power(-cost);
        self.live[id] = Some(LivePower { current_owned: l.current_owned + 1, timer: l.timer });
        proof {
            assert(self@.live =~= old(self)@.purchase(id).live);
            lemma_purchase_wf(old(self)@, id);
        }
        Ok(())
    }

    /// Lets `delta` nanoseconds pass on the timer of every live power.
    pub fn tick_power_timers(&mut self, delta: u64)
        requires
            old(self).wf(),
        ensures
            final(self).wf(),
            final(self)@ == old(self)@.tick_timers(delta as nat),
    {
        let ghost start = old(self)@;
        let ghost goal = start.tick_timers(delta as nat);
        let mut i: usize = 0;
        while i < self.live.len()
            invariant
                0 <= i <= self.live@.len(),
                start.wf(),
                goal == start.tick_timers(delta as nat),
                self@.same_but_live(start),
                self.live@.len() == start.live.len(),
                self@.live == done_upto(start.live, goal.live, i as int),
            decreases self.live@.len() - i,
        {
            let ghost before = self@.live;
            proof {
                assert(start.live_fits(i as int));
                assert(before[i as int] == start.live[i as int]);
            }
            match self.live[i] {
                Some(l) => {
                    let mut timer = l.timer;
                    timer.tick(delta);
                    self.live[i] = Some(LivePower { current_owned: l.current_owned, timer });
                },
                None => {},
            }
            proof {
                assert(self@.live =~= before.update(i as int, goal.live[i as int]));
            }
            i = i + 1;
        }
        proof {
            assert(self@.live =~= goal.live);
            lemma_tick_timers_wf(start, delta as nat);
        }
    }

    /// Hands the production of every finished timer to the ledger: the
    /// power's amount for each unit owned, nothing where nothing is owned.
    /// The timer is reset to a full period. The ledger must be able to
    /// hold the sum.
    pub fn add_to_total_power(&mut self)
        requires
            old(self).wf(),
            old(self)@.credit_production().ledger <= i64::MAX,
        ensures
            final(self).wf(),
            final(self)@ == old(self)@.credit_production(),
    {
        let ghost start = old(self)@;
        let ghost goal = start.credit_production();
        let mut total: i128 = self.ledger.power() as i128;
        let mut i: usize = 0;
        while i < self.live.len()
            invariant
                0 <= i <= self.live@.len(),
                start.wf(),
                goal == start.credit_production(),
                goal.ledger <= i64::MAX,
                self@.same_but_live(start),
                self.live@.len() == start.live.len(),
                self@.live == done_upto(start.live, goal.live, i as int),
                total == start.ledger + start.production_due(i as nat),
            decreases self.live@.len() - i,
        {
            let ghost before = self@.live;
            proof {
                assert(start.live_fits(i as int));
                assert(before[i as int] == start.live[i as int]);
                lemma_production_due_monotone(start, (i + 1) as nat, start.live.len());
            }
            match self.live[i] {
                Some(l) => {
                    if l.timer.finished() {
                        let amount = match self.powers.find(i) {
                            Some(bundle) => bundle.production_amount,
                            None => 0,
                        };
                        assert(0 <= amount * l.current_owned <= 0x7fff_ffff_ffff_ffff
                            * 0x7fff_ffff_ffff_ffff) by (nonlinear_arith)
                            requires
                                0 <= amount <= 0x7fff_ffff_ffff_ffff,
                                0 <= l.current_owned <= 0x7fff_ffff_ffff_ffff,
                        ;
                        total = total + amount as i128 * l.current_owned as i128;
                        let mut timer = l.timer;
                        timer.reset();
                        self.live[i] = Some(LivePower { current_owned: l.current_owned, timer });
                    }
                },
                None => {},
            }
            proof {
                assert(self@.live =~= before.update(i as int, goal.live[i as int]));
            }
            i = i + 1;
        }
        proof {
            lemma_credit_production_wf(start);
        }
        self.ledger = TotalPower::new(total as i64);
        assert(self@.live =~= goal.live);
    }

    /// Runs the auto-click timer for `delta` nanoseconds if auto-click is
    /// on: a completed period puts one more on the ledger and resets the
    /// timer. The ledger must be able to hold it.
    pub fn auto_click(&mut self, delta: u64)
        requires
            old(self).wf(),
            old(self)@.auto_click_step(delta as nat).ledger <= i64::MAX,
        ensures
            final(self).wf(),
            final(self)@ == old(self)@.auto_click_step(delta as nat),
    {
        if self.auto_click {
            self.auto_timer.tick(delta);
            if self.auto_timer.finished() {
                self.ledger.add_power(1);
                self.auto_timer.reset();
            }
        }
        proof {
            lemma_auto_click_step_wf(old(self)@, delta as nat);
        }
    }

    /// Holds every power that is still locked against the ledger: where
    /// the ledger has reached the power's threshold, the power is unlocked
    /// and comes to life. Returns the ids unlocked by this call, in rising
    /// order.
    pub fn check_power_unlock_flags(&mut self) -> (ids: Vec<usize>)
        requires
            old(self).wf(),
        ensures
            final(self).wf(),
            final(self)@ == old(self)@.evaluate_unlocks(),
            old(self)@.lists_due_unlocks(ids@),
    {
        let ghost start = old(self)@;
        let ghost goal = start.evaluate_unlocks();
        let mut ids: Vec<usize> = Vec::new();
        let mut id: usize = 0;
        while id < self.powers.len()
            invariant
                0 <= id <= self.live@.len(),
                start.wf(),
                goal == start.evaluate_unlocks(),
                self@.ledger == start.ledger,
                self@.catalog == start.catalog,
                self@.auto_click == start.auto_click,
                self@.auto_timer == start.auto_timer,
                self@.flags == Map::new(
                    |k: usize| start.flags.contains_key(k),
                    |k: usize| start.flags[k] || (k < id && start.should_unlock(k)),
                ),
                self.live@.len() == start.live.len(),
                self@.live == done_upto(start.live, goal.live, id as int),
                forall|a: int, b: int| 0 <= a < b < ids@.len() ==> ids@[a] < ids@[b],
                forall|a: int| 0 <= a < ids@.len() ==> (#[trigger] ids@[a]) < id,
                forall|a: int| 0 <= a < ids@.len() ==> start.should_unlock(#[trigger] ids@[a]),
                forall|k: usize| k < id && start.should_unlock(k) ==> ids@.contains(k),
            decreases self.live@.len() - id,
        {
            let ghost before = self@.live;
            let ghost ids_before = ids@;
            let due = match self.powers.find(id) {
                Some(bundle) => self.ledger.power() >= bundle.unlock_bound,
                None => false,
            };
            if due {
                if self.flags.unlock(id) {
                    let slot = match self.powers.find(id) {
                        Some(bundle) => LivePower::spawn(bundle),
                        None => None,
                    };
                    self.live[id] = slot;
                    ids.push(id);
                    proof {
                        assert(ids@[ids@.len() - 1] == id);
                        assert forall|k: usize| k < id + 1 && start.should_unlock(
                            k,
                        ) implies ids@.contains(k) by {
                            if k < id {
                                let a = choose|a: int|
                                    0 <= a < ids_before.len() && ids_before[a] == k;
                                assert(ids@[a] == k);
                            }
                        }
                    }
                }
            }
            proof {
                assert(self@.flags =~= Map::new(
                    |k: usize| start.flags.contains_key(k),
                    |k: usize| start.flags[k] || (k < id + 1 && start.should_unlock(k)),
                ));
                assert(self@.live =~= before.update(id as int, goal.live[id as int]));
            }
            id = id + 1;
        }
        proof {
            assert(self@.live =~= goal.live);
            assert(self@.flags =~= goal.flags);
            lemma_evaluate_unlocks_wf(start);
        }
        ids
    }

    /// What the ledger holds once `delta` more nanoseconds have been
    /// credited, or nothing where the ledger cannot hold that amount.
    pub fn ledger_after(&self, delta: u64) -> (r: Option<i64>)
        requires
            self.wf(),
        ensures
            match r {
                Some(amount) => amount == self@.credited(delta as nat).ledger,
                None => self@.credited(delta as nat).ledger > i64::MAX,
            },
    {
        let ghost ticked = self@.tick_timers(delta as nat);
        proof {
            lemma_tick_timers_wf(self@, delta as nat);
            lemma_credit_production_wf(ticked);
        }
        let mut total: i128 = self.ledger.power() as i128;
        let mut i: usize = 0;
        while i < self.live.len()
            invariant
                0 <= i <= self.live@.len(),
                self.wf(),
                ticked == self@.tick_timers(delta as nat),
                ticked.wf(),
                total == self@.ledger + ticked.production_due(i as nat),
                total <= i64::MAX,
            decreases self.live@.len() - i,
        {
            proof {
                assert(self@.live_fits(i as int));
                lemma_production_due_monotone(ticked, (i + 1) as nat, ticked.live.len());
            }
            match self.live[i] {
                Some(l) => {
                    if l.timer.completes(delta) {
                        let amount = match self.powers.find(i) {
                            Some(bundle) => bundle.production_amount,
                            None => 0,
                        };
                        assert(0 <= amount * l.current_owned <= 0x7fff_ffff_ffff_ffff
                            * 0x7fff_ffff_ffff_ffff) by (nonlinear_arith)
                            requires
                                0 <= amount <= 0x7fff_ffff_ffff_ffff,
                                0 <= l.current_owned <= 0x7fff_ffff_ffff_ffff,
                        ;
                        total = total + amount as i128 * l.current_owned as i128;
                        if total > i64::MAX as i128 {
                            return None;
                        }
                    }
                },
                None => {},
            }
            i = i + 1;
        }
        if self.auto_click && self.auto_timer.completes(delta) {
            total = total + 1;
            if total > i64::MAX as i128 {
                return None;
            }
        }
        Some(total as i64)
    }

    /// One pass of the simulation over `delta` nanoseconds, in its fixed
    /// order: timers run, production and the automatic click are credited,
    /// and the unlock thresholds are held against the new ledger. Returns
    /// the ids of the powers unlocked in this pass, in rising order. Where
    /// the ledger cannot hold what the pass would credit, nothing changes.
    pub fn tick(&mut self, delta: u64) -> (r: Result<Vec<usize>, LedgerOverflow>)
        requires
            old(self).wf(),
        ensures
            final(self).wf(),
            r is Ok <==> old(self)@.credited(delta as nat).ledger <= i64::MAX,
            r matches Ok(ids) ==> final(self)@ == old(self)@.tick(delta as nat) && old(
                self,
            )@.credited(delta as nat).lists_due_unlocks(ids@),
            r is Err ==> final(self)@ == old(self)@,
            final(self)@ == old(self)@.advance(delta as nat),
    {
        match self.ledger_after(delta) {
            None => Err(LedgerOverflow),
            Some(_) => {
                proof {
                    let ticked = self@.tick_timers(delta as nat);
                    lemma_tick_timers_wf(self@, delta as nat);
                    lemma_credit_production_wf(ticked);
                }
                self.tick_power_timers(delta);
                self.add_to_total_power();
                self.auto_click(delta);
                let ids = self.check_power_unlock_flags();
                Ok(ids)
            },
        }
    }

    /// Copies the owned count of every live power into the catalog, as has
    /// to be done before the catalog is saved.
    pub fn sync_powers(&mut self)
        requires
            old(self).wf(),
        ensures
            final(self).wf(),
            final(self)@ == old(self)@.sync(),
    {
        let ghost start = old(self)@;
        let ghost goal = start.sync();
        let mut i: usize = 0;
        while i < self.live.len()
            invariant
                0 <= i <= self.live@.len(),
                start.wf(),
                goal == start.sync(),
                self.powers.wf(),
                self@.ledger == start.ledger,
                self@.flags == start.flags,
                self@.live == start.live,
                self@.auto_click == start.auto_click,
                self@.auto_timer == start.auto_timer,
                self@.catalog == done_upto(start.catalog, goal.catalog, i as int),
            decreases self.live@.len() - i,
        {
            proof {
                assert(start.live_fits(i as int));
            }
            match self.live[i] {
                Some(l) => {
                    self.powers.sync_from_runtime(i, l.current_owned);
                },
                None => {},
            }
            i = i + 1;
        }
        proof {
            assert(self@.catalog =~= goal.catalog);
            lemma_sync_wf(start);
        }
    }

    /// Carries out one command and answers it.
    pub fn apply(&mut self, command: Command) -> (r: Reply)
        requires
            old(self).wf(),
        ensures
            final(self).wf(),
            final(self)@ == old(self)@.apply(command),
            r == old(self)@.reply(command),
    {
        match command {
            Command::RequestPurchase(id) => Reply::Purchase(self.purchase(id)),
            Command::ManualClick => Reply::Click(self.click()),
            Command::RequestSave => {
                self.sync_powers();
                Reply::Save
            },
            Command::RequestExit => {
                self.sync_powers();
                Reply::SaveAndExit
            },
            Command::ToggleAutoClick => {
                self.toggle_auto_click();
                Reply::AutoClick(self.auto_click)
            },
        }
    }

    /// One frame: lets `delta` nanoseconds pass, then carries out the
    /// commands of the frame in the order given, so that each of them sees
    /// the ledger as the pass has left it.
    pub fn step(&mut self, delta: u64, commands: &Vec<Command>) -> (r: Frame)
        requires
            old(self).wf(),
        ensures
            final(self).wf(),
            final(self)@ == old(self)@.step(delta as nat, commands@),
            r.overflow <==> old(self)@.credited(delta as nat).ledger > i64::MAX,
            r.overflow ==> r.unlocked@.len() == 0,
            !r.overflow ==> old(self)@.credited(delta as nat).lists_due_unlocks(r.unlocked@),
            r.replies@ == old(self)@.advance(delta as nat).replies(commands@),
    {
        let (unlocked, overflow) = match self.tick(delta) {
            Ok(ids) => (ids, false),
            Err(_) => (Vec::new(), true),
        };
        let ghost start = self@;
        let mut replies: Vec<Reply> = Vec::new();
        let mut i: usize = 0;
        while i < commands.len()
            invariant
                0 <= i <= commands@.len(),
                self.wf(),
                self@ == start.run_commands(commands@.take(i as int)),
                replies@.len() == i,
                forall|k: int| 0 <= k < i ==> #[trigger] replies@[k] == start.replies(commands@)[k],
            decreases commands@.len() - i,
        {
            let reply = self.apply(commands[i]);
            replies.push(reply);
            proof {
                assert(commands@.take(i + 1).drop_last() =~= commands@.take(i as int));
            }
            i = i + 1;
        }
        proof {
            assert(commands@.take(i as int) =~= commands@);
        }
        Frame { unlocked, overflow, replies }
    }
}

} // verus!
