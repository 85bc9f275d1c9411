//! The simulation as mathematics: its state, and what each operation makes
//! of a state.

use crate::catalog::catalog_valid;
use crate::power::PowerModel;
use crate::timer::TimerModel;
use vstd::prelude::*;

verus! {

/// The period of the auto-click timer: an eighth of a second.
pub const AUTO_CLICK_PERIOD: u64 = 125_000_000;

/// Why a purchase was turned down.
#[derive(Clone, Copy, Debug, PartialEq, Eq)]
pub enum PurchaseError {
    /// The ledger does not hold the cost.
    InsufficientFunds,
    /// As many units are owned as the power allows.
    MaxOwnedReached,
    /// No power of that id is live.
    NotFound,
}

/// The ledger cannot hold the amount that an operation would bring it to.
#[derive(Clone, Copy, Debug, PartialEq, Eq)]
pub struct LedgerOverflow;

/// What the presentation layer asks of the simulation.
#[derive(Clone, Copy, Debug, PartialEq, Eq)]
pub enum Command {
    /// Buy one unit of the power of this id.
    RequestPurchase(usize),
    /// The screen was clicked.
    ManualClick,
    /// Save the session.
    RequestSave,
    /// Save the session and leave.
    RequestExit,
    /// Switch auto-click over.
    ToggleAutoClick,
}

/// What the simulation answers to a command, and with it what is left for
/// the caller to do.
#[derive(Clone, Copy, Debug, PartialEq, Eq)]
pub enum Reply {
    /// How the purchase ended.
    Purchase(Result<(), PurchaseError>),
    /// Whether the click was counted.
    Click(Result<(), LedgerOverflow>),
    /// Auto-click is now on, or off.
    AutoClick(bool),
    /// The catalog is up to date: write the session out.
    Save,
    /// The catalog is up to date: write the session out, then leave.
    SaveAndExit,
}

/// The running state of an unlocked power: how many units of it are owned
/// now, and its production timer.
pub struct LiveModel {
    pub current_owned: int,
    pub timer: TimerModel,
}

/// The state of a session. `live` has one place for each power of the
/// catalog, filled once the power has been unlocked.
pub struct SimState {
    pub ledger: int,
    pub catalog: Seq<PowerModel>,
    pub flags: Map<usize, bool>,
    pub live: Seq<Option<LiveModel>>,
    pub auto_click: bool,
    pub auto_timer: TimerModel,
}

/// The running state that a power starts with: the owned count that the
/// catalog holds, and a timer of the power's period that has not run yet.
pub open spec fn spawned(p: PowerModel) -> LiveModel {
    LiveModel { current_owned: p.current_owned, timer: TimerModel::fresh(p.production_rate) }
}

impl SimState {
    /// The state that a session starts in: every power of the catalog that
    /// is unlocked already is live.
    pub open spec fn initial(
        ledger: int,
        catalog: Seq<PowerModel>,
        flags: Map<usize, bool>,
        auto_click: bool,
    ) -> SimState {
        SimState {
            ledger,
            catalog,
            flags,
            live: Seq::new(
                catalog.len(),
                |i: int|
                    if flags.contains_key(i as usize) && flags[i as usize] {
                        Some(spawned(catalog[i]))
                    } else {
                        None
                    },
            ),
            auto_click,
            auto_timer: TimerModel::fresh(AUTO_CLICK_PERIOD as nat),
        }
    }

    /// Whether the two states differ in their running states at most.
    pub open spec fn same_but_live(self, other: SimState) -> bool {
        &&& self.ledger == other.ledger
        &&& self.catalog == other.catalog
        &&& self.flags == other.flags
        &&& self.auto_click == other.auto_click
        &&& self.auto_timer == other.auto_timer
    }

    /// Whether the power `id` is unlocked.
    pub open spec fn is_unlocked(self, id: usize) -> bool {
        self.flags.contains_key(id) && self.flags[id]
    }

    /// Whether the power `id` is live.
    pub open spec fn is_live(self, id: usize) -> bool {
        id < self.live.len() && self.live[id as int] is Some
    }

    /// The running state at place `i` fits the catalog entry there: the
    /// owned count is within the power's limits and the timer has the
    /// power's period.
    pub open spec fn live_fits(self, i: int) -> bool {
        self.live[i] matches Some(l) ==> {
            &&& 0 <= l.current_owned <= self.catalog[i].max_owned
            &&& l.timer.valid()
            &&& l.timer.period == self.catalog[i].production_rate
        }
    }

    /// The invariant of a session: the catalog is in order, and the powers
    /// of the catalog that are live are those that are unlocked, each with
    /// a running state that fits its catalog entry.
    pub open spec fn wf(self) -> bool {
        &&& catalog_valid(self.catalog)
        &&& self.catalog.len() <= usize::MAX
        &&& self.live.len() == self.catalog.len()
        &&& forall|i: int| 0 <= i < self.live.len() ==> #[trigger] self.live_fits(i)
        &&& forall|i: int|
            0 <= i < self.live.len() ==> (#[trigger] self.live[i] is Some <==> self.is_unlocked(
                i as usize,
            ))
        &&& self.auto_timer.valid()
        &&& self.auto_timer.period == AUTO_CLICK_PERIOD
    }

    /// Every live timer after `delta` more nanoseconds.
    pub open spec fn tick_timers(self, delta: nat) -> SimState {
        SimState {
            live: Seq::new(
                self.live.len(),
                |i: int|
                    match self.live[i] {
                        Some(l) => Some(LiveModel { timer: l.timer.tick(delta), ..l }),
                        None => None,
                    },
            ),
            ..self
        }
    }

    /// What the power at place `i` has produced and not yet handed over:
    /// its amount for each unit owned if its timer is finished, else
    /// nothing.
    pub open spec fn credit_of(self, i: int) -> int {
        match self.live[i] {
            Some(l) => if l.timer.finished {
                self.catalog[i].production_amount * l.current_owned
            } else {
                0
            },
            None => 0,
        }
    }

    /// The sum of `credit_of` over the first `n` places.
    pub open spec fn production_due(self, n: nat) -> int
        decreases n,
    {
        if n == 0 {
            0
        } else {
            self.production_due((n - 1) as nat) + self.credit_of(n - 1)
        }
    }

    /// The state after every finished timer has handed its production to
    /// the ledger and has been reset to a full period.
    pub open spec fn credit_production(self) -> SimState {
        SimState {
            ledger: self.ledger + self.production_due(self.live.len()),
            live: Seq::new(
                self.live.len(),
                |i: int|
                    match self.live[i] {
                        Some(l) => Some(
                            LiveModel {
                                timer: if l.timer.finished {
                                    l.timer.reset()
                                } else {
                                    l.timer
                                },
                                ..l
                            },
                        ),
                        None => None,
                    },
            ),
            ..self
        }
    }

    /// The state after the auto-click timer, if auto-click is on, has run
    /// for `delta` nanoseconds: a completed period adds one to the ledger
    /// and resets the timer.
    pub open spec fn auto_click_step(self, delta: nat) -> SimState {
        if !self.auto_click {
            self
        } else if self.auto_timer.completes(delta) {
            SimState {
                ledger: self.ledger + 1,
                auto_timer: self.auto_timer.tick(delta).reset(),
                ..self
            }
        } else {
            SimState { auto_timer: self.auto_timer.tick(delta), ..self }
        }
    }

    /// Whether the power `id` is due to be unlocked: it is in the catalog,
    /// it has a flag that is not set, and the ledger has reached its
    /// threshold.
    pub open spec fn should_unlock(self, id: usize) -> bool {
        &&& id < self.catalog.len()
        &&& self.flags.contains_key(id)
        &&& !self.flags[id]
        &&& self.ledger >= self.catalog[id as int].unlock_bound
    }

    /// The state after every power that is due has been unlocked and has
    /// come to life.
    pub open spec fn evaluate_unlocks(self) -> SimState {
        SimState {
            flags: Map::new(
                |id: usize| self.flags.contains_key(id),
                |id: usize| self.flags[id] || self.should_unlock(id),
            ),
            live: Seq::new(
                self.live.len(),
                |i: int|
                    if self.should_unlock(i as usize) {
                        Some(spawned(self.catalog[i]))
                    } else {
                        self.live[i]
                    },
            ),
            ..self
        }
    }

    /// Whether `ids` names the powers that are due to be unlocked, each
    /// once and in rising order.
    pub open spec fn lists_due_unlocks(self, ids: Seq<usize>) -> bool {
        &&& forall|a: int, b: int| 0 <= a < b < ids.len() ==> ids[a] < ids[b]
        &&& forall|a: int| 0 <= a < ids.len() ==> self.should_unlock(#[trigger] ids[a])
        &&& forall|id: usize| self.should_unlock(id) ==> ids.contains(id)
    }

    /// The state after `delta` nanoseconds have passed and all that they
    /// brought has been credited: timers run, finished timers hand over
    /// their production, and the automatic click is counted.
    pub open spec fn credited(self, delta: nat) -> SimState {
        self.tick_timers(delta).credit_production().auto_click_step(delta)
    }

    /// One pass of the simulation over `delta` nanoseconds, in its fixed
    /// order: timers run, production and the automatic click are credited,
    /// and the unlock thresholds are held against the new ledger.
    pub open spec fn tick(self, delta: nat) -> SimState {
        self.credited(delta).evaluate_unlocks()
    }

    /// One manual click.
    pub open spec fn click(self) -> SimState {
        SimState { ledger: self.ledger + 1, ..self }
    }

    /// Whether the ledger can count one more click.
    pub open spec fn click_outcome(self) -> Result<(), LedgerOverflow> {
        if self.ledger + 1 <= i64::MAX {
            Ok(())
        } else {
            Err(LedgerOverflow)
        }
    }

    /// Auto-click switched over.
    pub open spec fn toggle_auto_click(self) -> SimState {
        SimState { auto_click: !self.auto_click, ..self }
    }

    /// How the purchase of one unit of the power `id` ends. The checks are
    /// made in this order: the power is live, the ledger holds the cost,
    /// and fewer units are owned than the power allows.
    pub open spec fn purchase_outcome(self, id: usize) -> Result<(), PurchaseError> {
        if !self.is_live(id) {
            Err(PurchaseError::NotFound)
        } else if self.ledger - self.catalog[id as int].cost < 0 {
            Err(PurchaseError::InsufficientFunds)
        } else if self.live[id as int]->0.current_owned >= self.catalog[id as int].max_owned {
            Err(PurchaseError::MaxOwnedReached)
        } else {
            Ok(())
        }
    }

    /// The state after the purchase of one unit of the power `id` was asked
    /// for: the cost is taken from the ledger and one more unit is owned,
    /// or, where the purchase is turned down, nothing has changed.
    pub open spec fn purchase(self, id: usize) -> SimState {
        if self.purchase_outcome(id) is Ok {
            let l = self.live[id as int]->0;
            SimState {
                ledger: self.ledger - self.catalog[id as int].cost,
                live: self.live.update(
                    id as int,
                    Some(LiveModel { current_owned: l.current_owned + 1, ..l }),
                ),
                ..self
            }
        } else {
            self
        }
    }

    /// The state after the owned count of every live power has been copied
    /// into the catalog.
    pub open spec fn sync(self) -> SimState {
        SimState {
            catalog: Seq::new(
                self.catalog.len(),
                |i: int|
                    match self.live[i] {
                        Some(l) => self.catalog[i].with_owned(l.current_owned),
                        None => self.catalog[i],
                    },
            ),
            ..self
        }
    }
}

impl SimState {
    /// One pass over `delta` nanoseconds as a 64-bit ledger allows it:
    /// where the ledger cannot hold what the pass would credit, the pass
    /// does not take place.
    pub open spec fn advance(self, delta: nat) -> SimState {
        if self.credited(delta).ledger <= i64::MAX {
            self.tick(delta)
        } else {
            self
        }
    }

    /// The state after a command. A click that the ledger cannot count
    /// changes nothing; a request to save or to leave brings the catalog up
    /// to date.
    pub open spec fn apply(self, command: Command) -> SimState {
        match command {
            Command::RequestPurchase(id) => self.purchase(id),
            Command::ManualClick => if self.click_outcome() is Ok {
                self.click()
            } else {
                self
            },
            Command::RequestSave => self.sync(),
            Command::RequestExit => self.sync(),
            Command::ToggleAutoClick => self.toggle_auto_click(),
        }
    }

    /// The answer to a command.
    pub open spec fn reply(self, command: Command) -> Reply {
        match command {
            Command::RequestPurchase(id) => Reply::Purchase(self.purchase_outcome(id)),
            Command::ManualClick => Reply::Click(self.click_outcome()),
            Command::RequestSave => Reply::Save,
            Command::RequestExit => Reply::SaveAndExit,
            Command::ToggleAutoClick => Reply::AutoClick(!self.auto_click),
        }
    }

    /// The state after the commands, applied in the order given.
    pub open spec fn run_commands(self, commands: Seq<Command>) -> SimState
        decreases commands.len(),
    {
        if commands.len() == 0 {
            self
        } else {
            self.run_commands(commands.drop_last()).apply(commands.last())
        }
    }

    /// The answers to the commands, each given by the state that the
    /// commands before it have left.
    pub open spec fn replies(self, commands: Seq<Command>) -> Seq<Reply> {
        Seq::new(commands.len(), |i: int| self.run_commands(commands.take(i)).reply(commands[i]))
    }

    /// One frame: `delta` nanoseconds pass, then the commands of the frame
    /// are applied in the order given, so that each of them sees the ledger
    /// as the pass has left it.
    pub open spec fn step(self, delta: nat, commands: Seq<Command>) -> SimState {
        self.advance(delta).run_commands(commands)
    }

    /// The state after the frames, in the order given.
    pub open spec fn run(self, frames: Seq<(u64, Seq<Command>)>) -> SimState
        decreases frames.len(),
    {
        if frames.len() == 0 {
            self
        } else {
            self.run(frames.drop_last()).step(frames.last().0 as nat, frames.last().1)
        }
    }
}

/// The invariant of a session speaks of the catalog, the flags, the running
/// states and the auto-click timer only.
pub proof fn lemma_wf_same_parts(a: SimState, b: SimState)
    requires
        a.wf(),
        b.catalog == a.catalog,
        b.flags == a.flags,
        b.live == a.live,
        b.auto_timer == a.auto_timer,
    ensures
        b.wf(),
{
    assert forall|i: int| 0 <= i < b.live.len() implies #[trigger] b.live_fits(i) by {
        assert(a.live_fits(i));
    }
}

/// Running the timers keeps the invariant of a session.
pub proof fn lemma_tick_timers_wf(s: SimState, delta: nat)
    requires
        s.wf(),
    ensures
        s.tick_timers(delta).wf(),
{
    let t = s.tick_timers(delta);
    assert forall|i: int| 0 <= i < t.live.len() implies #[trigger] t.live_fits(i) by {
        assert(s.live_fits(i));
    }
}

/// No power produces a negative amount.
pub proof fn lemma_credit_nonnegative(s: SimState, i: int)
    requires
        s.wf(),
        0 <= i < s.live.len(),
    ensures
        s.credit_of(i) >= 0,
{
    assert(s.live_fits(i));
    if let Some(l) = s.live[i] {
        assert(s.catalog[i].production_amount * l.current_owned >= 0) by (nonlinear_arith)
            requires
                s.catalog[i].production_amount >= 0,
                l.current_owned >= 0,
        ;
    }
}

/// What is due over more places is no less.
pub proof fn lemma_production_due_monotone(s: SimState, m: nat, n: nat)
    requires
        s.wf(),
        m <= n <= s.live.len(),
    ensures
        0 <= s.production_due(m) <= s.production_due(n),
    decreases n,
{
    if n == 0 {
    } else if m == n {
        lemma_production_due_monotone(s, (m - 1) as nat, (n - 1) as nat);
        lemma_credit_nonnegative(s, n - 1);
    } else {
        lemma_production_due_monotone(s, m, (n - 1) as nat);
        lemma_credit_nonnegative(s, n - 1);
    }
}

/// Crediting the finished timers keeps the invariant of a session.
pub proof fn lemma_credit_production_wf(s: SimState)
    requires
        s.wf(),
    ensures
        s.credit_production().wf(),
        s.credit_production().ledger >= s.ledger,
{
    let t = s.credit_production();
    lemma_production_due_monotone(s, 0, s.live.len());
    assert forall|i: int| 0 <= i < t.live.len() implies #[trigger] t.live_fits(i) by {
        assert(s.live_fits(i));
    }
}

/// The automatic click keeps the invariant of a session.
pub proof fn lemma_auto_click_step_wf(s: SimState, delta: nat)
    requires
        s.wf(),
    ensures
        s.auto_click_step(delta).wf(),
        s.auto_click_step(delta).ledger >= s.ledger,
{
    let t = s.auto_click_step(delta);
    assert forall|i: int| 0 <= i < t.live.len() implies #[trigger] t.live_fits(i) by {
        assert(s.live_fits(i));
    }
}

/// Unlocking what is due keeps the invariant of a session.
pub proof fn lemma_evaluate_unlocks_wf(s: SimState)
    requires
        s.wf(),
    ensures
        s.evaluate_unlocks().wf(),
{
    let t = s.evaluate_unlocks();
    assert forall|i: int| 0 <= i < t.live.len() implies #[trigger] t.live_fits(i) by {
        assert(s.live_fits(i));
    }
}

/// Buying keeps the invariant of a session, and with it the owned count of
/// every power between zero and its limit.
pub proof fn lemma_purchase_wf(s: SimState, id: usize)
    requires
        s.wf(),
    ensures
        s.purchase(id).wf(),
{
    let t = s.purchase(id);
    if s.purchase_outcome(id) is Ok {
        assert forall|i: int| 0 <= i < t.live.len() implies #[trigger] t.live_fits(i) by {
            assert(s.live_fits(i));
        }
    }
}

/// Copying the owned counts into the catalog keeps the invariant of a
/// session.
pub proof fn lemma_sync_wf(s: SimState)
    requires
        s.wf(),
    ensures
        s.sync().wf(),
{
    let t = s.sync();
    assert forall|i: int| 0 <= i < t.catalog.len() implies (#[trigger] t.catalog[i]).valid()
        && t.catalog[i].id == i by {
        assert(s.live_fits(i));
    }
    assert forall|i: int| 0 <= i < t.live.len() implies #[trigger] t.live_fits(i) by {
        assert(s.live_fits(i));
    }
}

} // verus!
