//! What holds of every session, however it goes.

use crate::catalog::models;
use crate::model::{
    lemma_auto_click_step_wf, lemma_credit_production_wf, lemma_evaluate_unlocks_wf,
    lemma_purchase_wf, lemma_sync_wf, lemma_tick_timers_wf, lemma_wf_same_parts, Command,
    SimState,
};
use crate::power::PowerBundle;
use crate::save::{restored_flags, restored_ledger, restored_powers};
use crate::timer::TimerModel;
use crate::unlock::{lemma_listing_rebuilds_table, lists, stays_unlocked};
use vstd::prelude::*;

verus! {

/// The state after one unit of each of the powers `ids` was asked for, in
/// the order given.
pub open spec fn buy_each(s: SimState, ids: Seq<usize>) -> SimState
    decreases ids.len(),
{
    if ids.len() == 0 {
        s
    } else {
        buy_each(s, ids.drop_last()).purchase(ids.last())
    }
}

/// Whether no power is owned less than zero times or more often than its
/// limit allows, in the catalog and among the live powers.
pub open spec fn owned_within_limits(s: SimState) -> bool {
    &&& forall|i: int|
        0 <= i < s.catalog.len() ==> 0 <= (#[trigger] s.catalog[i]).current_owned
            <= s.catalog[i].max_owned
    &&& forall|i: int|
        0 <= i < s.live.len() ==> ((#[trigger] s.live[i]) matches Some(l) ==> 0 <= l.current_owned
            <= s.catalog[i].max_owned)
}

/// The invariant of a session keeps every owned count within its limits.
pub proof fn lemma_wf_owned_within_limits(s: SimState)
    requires
        s.wf(),
    ensures
        owned_within_limits(s),
{
    assert forall|i: int| 0 <= i < s.live.len() implies ((#[trigger] s.live[i]) matches Some(l)
        ==> 0 <= l.current_owned <= s.catalog[i].max_owned) by {
        assert(s.live_fits(i));
    }
}

/// A pass of the simulation keeps the invariant of a session and the
/// catalog, and takes back no unlock.
pub proof fn lemma_advance(s: SimState, delta: nat)
    requires
        s.wf(),
    ensures
        s.advance(delta).wf(),
        s.advance(delta).catalog == s.catalog,
        stays_unlocked(s.flags, s.advance(delta).flags),
{
    let ticked = s.tick_timers(delta);
    lemma_tick_timers_wf(s, delta);
    lemma_credit_production_wf(ticked);
    lemma_auto_click_step_wf(ticked.credit_production(), delta);
    lemma_evaluate_unlocks_wf(s.credited(delta));
}

/// A command keeps the invariant of a session, the length of the catalog
/// and the unlock flags.
pub proof fn lemma_apply(s: SimState, command: Command)
    requires
        s.wf(),
    ensures
        s.apply(command).wf(),
        s.apply(command).catalog.len() == s.catalog.len(),
        s.apply(command).flags == s.flags,
{
    match command {
        Command::RequestPurchase(id) => {
            lemma_purchase_wf(s, id);
        },
        Command::ManualClick => {
            lemma_wf_same_parts(s, s.click());
        },
        Command::RequestSave => {
            lemma_sync_wf(s);
        },
        Command::RequestExit => {
            lemma_sync_wf(s);
        },
        Command::ToggleAutoClick => {
            lemma_wf_same_parts(s, s.toggle_auto_click());
        },
    }
}

/// Commands keep the invariant of a session, the length of the catalog and
/// the unlock flags.
pub proof fn lemma_run_commands(s: SimState, commands: Seq<Command>)
    requires
        s.wf(),
    ensures
        s.run_commands(commands).wf(),
        s.run_commands(commands).catalog.len() == s.catalog.len(),
        s.run_commands(commands).flags == s.flags,
    decreases commands.len(),
{
    if commands.len() > 0 {
        lemma_run_commands(s, commands.drop_last());
        lemma_apply(s.run_commands(commands.drop_last()), commands.last());
    }
}

/// Frames keep the invariant of a session and take back no unlock.
pub proof fn lemma_run(s: SimState, frames: Seq<(u64, Seq<Command>)>)
    requires
        s.wf(),
    ensures
        s.run(frames).wf(),
        stays_unlocked(s.flags, s.run(frames).flags),
    decreases frames.len(),
{
    if frames.len() > 0 {
        let before = s.run(frames.drop_last());
        lemma_run(s, frames.drop_last());
        lemma_advance(before, frames.last().0 as nat);
        lemma_run_commands(before.advance(frames.last().0 as nat), frames.last().1);
    }
}

/// Whatever is bought, and in whatever order, no power is ever owned less
/// than zero times or more often than its limit allows.
pub proof fn law_purchases_keep_owned_within_limits(s: SimState, ids: Seq<usize>)
    requires
        s.wf(),
    ensures
        buy_each(s, ids).wf(),
        owned_within_limits(buy_each(s, ids)),
    decreases ids.len(),
{
    if ids.len() > 0 {
        law_purchases_keep_owned_within_limits(s, ids.drop_last());
        lemma_purchase_wf(buy_each(s, ids.drop_last()), ids.last());
    }
    lemma_wf_owned_within_limits(buy_each(s, ids));
}

/// However a session goes, frame after frame, no power is ever owned less
/// than zero times or more often than its limit allows.
pub proof fn law_owned_within_limits(s: SimState, frames: Seq<(u64, Seq<Command>)>)
    requires
        s.wf(),
    ensures
        s.run(frames).wf(),
        owned_within_limits(s.run(frames)),
{
    lemma_run(s, frames);
    lemma_wf_owned_within_limits(s.run(frames));
}

/// However a session has gone, a purchase that succeeds leaves a ledger
/// that is not negative, and a purchase that would leave a negative ledger
/// is turned down and changes nothing.
pub proof fn law_purchase_never_overdraws(
    s: SimState,
    frames: Seq<(u64, Seq<Command>)>,
    id: usize,
)
    requires
        s.wf(),
    ensures
        ({
            let now = s.run(frames);
            &&& now.purchase_outcome(id) is Ok ==> now.purchase(id).ledger == now.ledger
                - now.catalog[id as int].cost && now.purchase(id).ledger >= 0
            &&& now.is_live(id) && now.ledger - now.catalog[id as int].cost < 0
                ==> now.purchase_outcome(id) is Err && now.purchase(id) == now
        }),
{
}

/// However a session goes, a power that is unlocked stays unlocked.
pub proof fn law_unlocks_are_kept(s: SimState, frames: Seq<(u64, Seq<Command>)>)
    requires
        s.wf(),
    ensures
        stays_unlocked(s.flags, s.run(frames).flags),
{
    lemma_run(s, frames);
}

/// A power whose threshold the ledger reaches in a pass is unlocked and live
/// at the end of that very pass, whatever the commands of the frame then do.
pub proof fn law_threshold_reached_unlocks_in_the_same_pass(
    s: SimState,
    delta: nat,
    commands: Seq<Command>,
    id: usize,
)
    requires
        s.wf(),
        id < s.catalog.len(),
        s.flags.contains_key(id),
        s.catalog[id as int].unlock_bound <= s.credited(delta).ledger <= i64::MAX,
    ensures
        s.advance(delta).is_unlocked(id),
        s.advance(delta).is_live(id),
        s.step(delta, commands).is_unlocked(id),
        s.step(delta, commands).is_live(id),
{
    lemma_advance(s, delta);
    lemma_run_commands(s.advance(delta), commands);
}

/// Once the thresholds have been held against the ledger, no power is due
/// to be unlocked: an unlock happens once, and holding the thresholds
/// against the same ledger again changes nothing.
pub proof fn law_unlock_happens_once(s: SimState)
    ensures
        forall|id: usize| !s.evaluate_unlocks().should_unlock(id),
        s.evaluate_unlocks().evaluate_unlocks() == s.evaluate_unlocks(),
{
    let once = s.evaluate_unlocks();
    let twice = once.evaluate_unlocks();
    assert(twice.flags =~= once.flags);
    assert(twice.live =~= once.live);
}

/// A live power whose timer runs through its period in a pass is credited
/// with its amount for each unit owned, once, however many periods the
/// pass spans, and starts a full period anew; a power whose timer does not
/// get that far is credited with nothing.
pub proof fn law_a_completed_period_is_credited(s: SimState, i: int, delta: nat)
    requires
        s.wf(),
        0 <= i < s.live.len(),
        s.live[i] is Some,
    ensures
        ({
            let l = s.live[i]->0;
            let ticked = s.tick_timers(delta);
            let after = ticked.credit_production().live[i]->0;
            &&& l.timer.completes(delta) ==> ticked.credit_of(i) == s.catalog[i].production_amount
                * l.current_owned
            &&& l.timer.completes(delta) ==> after.timer == TimerModel::fresh(
                s.catalog[i].production_rate,
            )
            &&& !l.timer.completes(delta) ==> ticked.credit_of(i) == 0
            &&& !l.timer.completes(delta) ==> after.timer.elapsed == l.timer.elapsed + delta
            &&& after.current_owned == l.current_owned
        }),
{
    assert(s.live_fits(i));
    let l = s.live[i]->0;
    if !l.timer.completes(delta) {
        assert((l.timer.elapsed + delta) % l.timer.period == l.timer.elapsed + delta)
            by (nonlinear_arith)
            requires
                0 <= l.timer.elapsed + delta < l.timer.period,
        ;
    }
}

/// Once the finished timers have been credited, none is finished: what a
/// completed period has produced is handed over once, and nothing more
/// before a timer has run through another period.
pub proof fn law_production_is_credited_once(s: SimState)
    requires
        s.wf(),
    ensures
        s.credit_production().production_due(s.live.len()) == 0,
        s.credit_production().credit_production() == s.credit_production(),
        forall|i: int, delta: nat|
            0 <= i < s.live.len() && s.credit_of(i) > 0 && delta
                < s.catalog[i].production_rate ==> s.credit_production().tick_timers(
                delta,
            ).credit_of(i) == 0,
{
    let once = s.credit_production();
    lemma_nothing_due(once, once.live.len());
    let twice = once.credit_production();
    assert(twice.live =~= once.live);
    assert forall|i: int, delta: nat|
        0 <= i < s.live.len() && s.credit_of(i) > 0 && delta
            < s.catalog[i].production_rate implies once.tick_timers(delta).credit_of(i) == 0 by {
        assert(s.live_fits(i));
    }
}

/// Where no timer is finished, nothing is due.
proof fn lemma_nothing_due(s: SimState, n: nat)
    requires
        n <= s.live.len(),
        forall|i: int|
            0 <= i < s.live.len() ==> ((#[trigger] s.live[i]) matches Some(l)
                ==> !l.timer.finished),
    ensures
        s.production_due(n) == 0,
    decreases n,
{
    if n > 0 {
        lemma_nothing_due(s, (n - 1) as nat);
    }
}

/// A power that is unlocked when the flags are written out is unlocked in
/// the flags that are read back.
pub proof fn law_unlocks_survive_saving(flags: Map<usize, bool>, written: Seq<(usize, bool)>)
    requires
        lists(written, flags),
    ensures
        stays_unlocked(flags, restored_flags(Some(written))),
{
    lemma_listing_rebuilds_table(written, flags);
}

/// What is read back from a saved session is what was written out: the
/// same ledger, the same catalog entry for entry, and the same unlock
/// flags.
pub proof fn law_save_load_round_trip(
    s: SimState,
    total_power: i64,
    powers: Seq<PowerBundle>,
    power_unlocks: Seq<(usize, bool)>,
)
    requires
        s.wf(),
        total_power == s.ledger,
        models(powers) == s.catalog,
        lists(power_unlocks, s.flags),
    ensures
        restored_ledger(Some(total_power)) == s.ledger,
        restored_powers(Some(powers)) == s.catalog,
        restored_flags(Some(power_unlocks)) == s.flags,
{
    lemma_listing_rebuilds_table(power_unlocks, s.flags);
}

} // verus!
