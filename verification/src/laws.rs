//! Properties of the registry and the lifecycle that span several calls or
//! every reachable state.
use vstd::prelude::*;

use crate::address::Address;
use crate::lifecycle::{
    batch_appended, batch_score, batch_submitted, batch_trend, book_ok, record_appended, chained, current_score, decay_book,
    decay_elapsed, decayed_score, history_cap, lemma_book_ok_facts, raised_score,
    record_weight, submitted, BatchRecord, Book, Config, ContractError as LifecycleError,
    Failure as LifecycleFailure, Lifecycle, LifecycleView, DECAY_INTERVAL, DECAY_RATE, MAX_SCORE,
    PRUNE_TIMELOCK_SECS,
};
use crate::digest::{is_zero_hash, record_hash};
use crate::registry::{
    dedup_key_of, Asset, AssetRegistry, ContractError, Failure, RegistryView, LENDING_TIMELOCK_SECS,
};
use crate::search::selects;
use crate::digest::metadata_digest;
use crate::symbol::Symbol;

verus! {

/// Looking up a freshly registered asset gives back exactly what was
/// registered: its id, type, metadata, owner, registration time, unlocked.
pub proof fn law_register_then_lookup(
    s: RegistryView,
    asset_type: Symbol,
    metadata: String,
    owner: Address,
    now: u64,
)
    requires
        s.register(asset_type, metadata, owner, now) is Ok,
    ensures
        ({
            let (t, id) = s.register(asset_type, metadata, owner, now)->Ok_0;
            t.lookup(id) == Ok::<Asset, ContractError>(
                Asset {
                    asset_id: id,
                    asset_type,
                    metadata,
                    owner,
                    registered_at: now,
                    locked: false,
                },
            )
        }),
{
}

/// Registration hands out the next id of the counter, which no stored asset
/// holds and which exceeds every stored id; ids stay drawn from the counter.
pub proof fn law_register_fresh_id(
    s: RegistryView,
    asset_type: Symbol,
    metadata: String,
    owner: Address,
    now: u64,
)
    requires
        s.ids_from_counter(),
        s.register(asset_type, metadata, owner, now) is Ok,
    ensures
        ({
            let (t, id) = s.register(asset_type, metadata, owner, now)->Ok_0;
            &&& id == s.asset_count + 1
            &&& !s.assets.contains_key(id)
            &&& forall|k: u64| #[trigger] s.assets.contains_key(k) ==> k < id
            &&& t.ids_from_counter()
        }),
{
    let (t, id) = s.register(asset_type, metadata, owner, now)->Ok_0;
    assert forall|k: u64| #[trigger] t.assets.contains_key(k) implies t.assets[k].asset_id == k && 1 <= k
        <= t.asset_count by {
        if k != id {
            assert(s.assets.contains_key(k));
        }
    }
}

/// Once an owner has registered some metadata, that owner registering the
/// same metadata again is refused as a duplicate.
pub proof fn law_same_owner_same_metadata_refused(
    s: RegistryView,
    asset_type: Symbol,
    metadata: String,
    owner: Address,
    now: u64,
    other_type: Symbol,
    later: u64,
)
    requires
        s.register(asset_type, metadata, owner, now) is Ok,
    ensures
        s.register(asset_type, metadata, owner, now)->Ok_0.0.register(other_type, metadata, owner, later)
            == Err::<(RegistryView, u64), Failure>(Failure::Contract(ContractError::DuplicateAsset)),
{
    let t = s.register(asset_type, metadata, owner, now)->Ok_0.0;
    assert(t.dedup.contains_key(dedup_key_of(owner, metadata@)));
}

/// After an asset changes hands, its previous owner may register the same
/// metadata again, and its new owner may not: the duplicate-detection key
/// moved to the new owner.
pub proof fn law_transfer_frees_previous_owner(
    s: RegistryView,
    asset_id: u64,
    current_owner: Address,
    new_owner: Address,
    asset_type: Symbol,
    now: u64,
)
    requires
        s.transfer(asset_id, current_owner, new_owner) is Ok,
        current_owner != new_owner,
        s.asset_count < u64::MAX,
    ensures
        s.transfer(asset_id, current_owner, new_owner)->Ok_0.register(
            asset_type,
            s.assets[asset_id].metadata,
            current_owner,
            now,
        ) is Ok,
        s.transfer(asset_id, current_owner, new_owner)->Ok_0.register(
            asset_type,
            s.assets[asset_id].metadata,
            new_owner,
            now,
        ) == Err::<(RegistryView, u64), Failure>(Failure::Contract(ContractError::DuplicateAsset)),
{
    let t = s.transfer(asset_id, current_owner, new_owner)->Ok_0;
    let m = s.assets[asset_id].metadata;
    assert(!t.dedup.contains_key(dedup_key_of(current_owner, m@)));
    assert(t.dedup.contains_key(dedup_key_of(new_owner, m@)));
}

/// A deregistered asset is gone, and its owner may register its metadata
/// again.
pub proof fn law_deregister_frees_metadata(s: RegistryView, asset_id: u64, asset_type: Symbol, now: u64)
    requires
        s.deregister(asset_id) is Ok,
        s.asset_count < u64::MAX,
    ensures
        s.deregister(asset_id)->Ok_0.lookup(asset_id) == Err::<Asset, ContractError>(
            ContractError::AssetNotFound,
        ),
        s.deregister(asset_id)->Ok_0.register(
            asset_type,
            s.assets[asset_id].metadata,
            s.assets[asset_id].owner,
            now,
        ) is Ok,
{
    let t = s.deregister(asset_id)->Ok_0;
    let a = s.assets[asset_id];
    assert(!t.dedup.contains_key(dedup_key_of(a.owner, a.metadata@)));
}

/// An updated asset reads back with the new metadata and nothing else changed.
pub proof fn law_update_then_lookup(s: RegistryView, asset_id: u64, owner: Address, new_metadata: String)
    requires
        s.update_metadata(asset_id, owner, new_metadata) is Ok,
    ensures
        s.update_metadata(asset_id, owner, new_metadata)->Ok_0.lookup(asset_id) == Ok::<
            Asset,
            ContractError,
        >(Asset { metadata: new_metadata, ..s.assets[asset_id] }),
{
}

/// Unlocking a collateral lock undoes it: locking an unlocked asset and
/// unlocking it again restores the registry exactly.
pub proof fn law_unlock_undoes_lock(s: RegistryView, asset_id: u64, lender: Address)
    requires
        s.set_lock(asset_id, lender, true) is Ok,
        !s.assets[asset_id].locked,
    ensures
        s.set_lock(asset_id, lender, true)->Ok_0.set_lock(asset_id, lender, false) == Ok::<
            RegistryView,
            Failure,
        >(s),
{
    let t = s.set_lock(asset_id, lender, true)->Ok_0;
    let u = t.set_lock(asset_id, lender, false)->Ok_0;
    assert(Asset { locked: false, ..s.assets[asset_id] } == s.assets[asset_id]);
    assert(u.assets =~= s.assets);
}

/// A proposed lending contract cannot be applied before the 48-hour
/// timelock has run, and is applied once it has.
pub proof fn law_lending_timelock(s: RegistryView, admin: Address, new_contract: Address, proposed_at: u64, now: u64)
    requires
        s.propose_lending(admin, new_contract, proposed_at) is Ok,
        proposed_at + LENDING_TIMELOCK_SECS <= u64::MAX,
    ensures
        now < proposed_at + LENDING_TIMELOCK_SECS ==> s.propose_lending(admin, new_contract, proposed_at)->Ok_0.apply_lending(admin, now)
            == Err::<RegistryView, Failure>(Failure::Contract(ContractError::LendingTimelockNotElapsed)),
        now >= proposed_at + LENDING_TIMELOCK_SECS ==> (s.propose_lending(
            admin,
            new_contract,
            proposed_at,
        )->Ok_0.apply_lending(admin, now) matches Ok(u) && u.lending_contract == Some(new_contract)
            && u.lending_proposal is None),
{
}

/// Every collateral score and every score-trend entry lies in `0..=100`.
pub proof fn law_scores_bounded(l: &Lifecycle)
    requires
        l.wf(),
    ensures
        forall|id: u64| #[trigger] l@.book(id).score <= MAX_SCORE,
        forall|id: u64, j: int|
            0 <= j < l@.book(id).score_history.len() ==> (#[trigger] l@.book(id).score_history[j]).score
                <= MAX_SCORE,
{
    l.lemma_books_ok();
    assert forall|id: u64| #[trigger] l@.book(id).score <= MAX_SCORE by {
        crate::lifecycle::lemma_book_ok_facts(id, l@.book(id));
    }
    assert forall|id: u64, j: int|
        0 <= j < l@.book(id).score_history.len() implies (#[trigger] l@.book(id).score_history[j]).score
        <= MAX_SCORE by {
        crate::lifecycle::lemma_book_ok_facts(id, l@.book(id));
    }
}

/// Every asset's history is a tamper-evident hash chain of its own records.
pub proof fn law_history_is_hash_chain(l: &Lifecycle, asset_id: u64)
    requires
        l.wf(),
    ensures
        chained(l@.book(asset_id).history),
        forall|j: int|
            0 <= j < l@.book(asset_id).history.len() ==> (#[trigger] l@.book(asset_id).history[j]).asset_id
                == asset_id,
{
    l.lemma_books_ok();
    crate::lifecycle::lemma_book_ok_facts(asset_id, l@.book(asset_id));
}

/// Maintenance never lowers a score and never lifts it past 100.
pub proof fn law_maintenance_raises_score(score: u32, weight: u32)
    requires
        score <= MAX_SCORE,
    ensures
        score <= raised_score(score, weight) <= MAX_SCORE,
        score + weight <= MAX_SCORE ==> raised_score(score, weight) == score + weight,
{
}

/// A record signed in a credential grace period weighs at most what it
/// would weigh outside one: half, rounded down.
pub proof fn law_grace_weight_halved(config: Config, task_type: Seq<char>)
    ensures
        record_weight(config, task_type, true) == record_weight(config, task_type, false) / 2,
        record_weight(config, task_type, true) <= record_weight(config, task_type, false),
{
}

/// Decay never raises a score, leaves it alone within the first 30 days,
/// and takes more the longer the asset goes without maintenance (while the
/// interval count stays below 2^32).
pub proof fn law_decay(score: u32, elapsed: u64, later: u64)
    requires
        elapsed <= later,
        later / DECAY_INTERVAL < 0x1_0000_0000,
    ensures
        decayed_score(score, elapsed) <= score,
        elapsed < DECAY_INTERVAL ==> decayed_score(score, elapsed) == score,
        decayed_score(score, later) <= decayed_score(score, elapsed),
{
    assert(elapsed / DECAY_INTERVAL <= later / DECAY_INTERVAL) by (nonlinear_arith)
        requires
            elapsed <= later,
    ;
}

/// A prune proposed at `proposed_at` cannot be executed before the 48-hour
/// timelock has run.
pub proof fn law_prune_timelock(s: LifecycleView, admin: Address, asset_id: u64, proposed_at: u64, now: u64)
    requires
        s.propose_prune(admin, asset_id, proposed_at) is Ok,
        proposed_at + PRUNE_TIMELOCK_SECS <= u64::MAX,
        now < proposed_at + PRUNE_TIMELOCK_SECS,
    ensures
        s.propose_prune(admin, asset_id, proposed_at)->Ok_0.prune_refusal(admin, asset_id, now) == Some(
            LifecycleFailure::Contract(LifecycleError::PruneTimelockNotElapsed),
        ),
{
}

/// Decay counts whole intervals since the last maintenance write: applying
/// decay at `t1` and again at `t2` leaves the score that decay applied once
/// at `t2` gives, so a call in between loses no partial interval (while the
/// decay fits in a `u32`, where the contract does not refuse it).
pub proof fn law_decay_counts_from_last_write(b: Book, t1: u64, t2: u64)
    requires
        b.last_update <= t1 <= t2,
        (t2 - b.last_update) / (DECAY_INTERVAL as int) * DECAY_RATE <= u32::MAX,
    ensures
        decay_book(decay_book(b, t1), t2).score == current_score(b, t2),
        current_score(decay_book(b, t1), t2) == current_score(b, t2),
{
    let a = b.last_update as int;
    let i = DECAY_INTERVAL as int;
    let e1 = t1 - a;
    let e = t2 - a;
    let k1 = e1 / i;
    let k = e / i;
    assert(decay_elapsed(b, t1) == e1);
    assert(decay_elapsed(b, t2) == e);
    assert(k1 <= k && k1 * i <= e1) by (nonlinear_arith)
        requires
            0 <= e1 <= e,
            i > 0,
            k1 == e1 / i,
            k == e / i,
    ;
    let e2 = e - k1 * i;
    assert((e2 / i) == k - k1) by (nonlinear_arith)
        requires
            i > 0,
            k == e / i,
            e2 == e - k1 * i,
            k1 * i <= e,
    ;
    assert(k < 0x1_0000_0000);
    if b.score != 0 {
        let c = decay_book(b, t1);
        assert(c.last_update == a + k1 * i);
        assert(decay_elapsed(c, t2) == e2);
    }
}

/// After `initialize` with `max_history`, exactly `history_cap(max_history)`
/// submissions fit into a fresh asset's history: along any run of accepted
/// submissions the next one is accepted exactly while fewer than the cap
/// are stored, and once the cap is reached it is refused with
/// `HistoryCapReached` (for caps below `u32::MAX`, where the length check
/// refuses with `Overflow` first). The admin given is the one address the
/// admin-only calls accept.
pub proof fn law_initialize_caps_history(
    o: LifecycleView,
    asset_registry: Address,
    engineer_registry: Address,
    admin: Address,
    max_history: u32,
    registry: RegistryView,
    asset_id: u64,
    vs: Seq<LifecycleView>,
    tasks: Seq<Symbol>,
    notes: Seq<String>,
    engineers: Seq<Address>,
    times: Seq<u64>,
)
    requires
        o.book(asset_id).history.len() == 0,
        o.initialize(asset_registry, engineer_registry, admin, max_history) == Ok::<
            LifecycleView,
            LifecycleFailure,
        >(vs[0]),
        registry.assets.contains_key(asset_id),
        vs.len() >= 1,
        tasks.len() == vs.len() - 1,
        notes.len() == vs.len() - 1,
        engineers.len() == vs.len() - 1,
        times.len() == vs.len() - 1,
        forall|k: int|
            0 <= k < vs.len() - 1 ==> (#[trigger] vs[k]).submit_refusal(registry, true, asset_id, 1) is None
                && submitted(vs[k], vs[k + 1], asset_id, tasks[k], notes[k], engineers[k], times[k]),
    ensures
        vs.len() - 1 <= history_cap(max_history),
        vs.last().book(asset_id).history.len() == vs.len() - 1,
        vs.last().submit_refusal(registry, true, asset_id, 1) is None <==> vs.len() - 1 < history_cap(
            max_history,
        ),
        vs.len() - 1 == history_cap(max_history) < u32::MAX ==> vs.last().submit_refusal(
            registry,
            true,
            asset_id,
            1,
        ) == Some(LifecycleFailure::HistoryCapReached),
        forall|a: Address| #[trigger] vs.last().admin_refusal(a) is None <==> a == admin,
{
    let m = vs.len() - 1;
    lemma_cap_run(registry, asset_id, vs, tasks, notes, engineers, times, history_cap(max_history), m);
}

/// Along a run of accepted single submissions from a book of length 0, the
/// `k`-th view holds `k` records, and the registries and configuration stay.
proof fn lemma_cap_run(
    registry: RegistryView,
    asset_id: u64,
    vs: Seq<LifecycleView>,
    tasks: Seq<Symbol>,
    notes: Seq<String>,
    engineers: Seq<Address>,
    times: Seq<u64>,
    cap: u32,
    k: int,
)
    requires
        vs.len() >= 1,
        vs[0].book(asset_id).history.len() == 0,
        vs[0].config matches Some(c) && c.max_history == cap,
        tasks.len() == vs.len() - 1,
        notes.len() == vs.len() - 1,
        engineers.len() == vs.len() - 1,
        times.len() == vs.len() - 1,
        forall|j: int|
            0 <= j < vs.len() - 1 ==> (#[trigger] vs[j]).submit_refusal(registry, true, asset_id, 1) is None
                && submitted(vs[j], vs[j + 1], asset_id, tasks[j], notes[j], engineers[j], times[j]),
        0 <= k <= vs.len() - 1,
    ensures
        vs[k].book(asset_id).history.len() == k,
        k <= cap,
        vs[k].asset_registry == vs[0].asset_registry,
        vs[k].engineer_registry == vs[0].engineer_registry,
        vs[k].config == vs[0].config,
    decreases k,
{
    if k > 0 {
        lemma_cap_run(registry, asset_id, vs, tasks, notes, engineers, times, cap, k - 1);
        let j = k - 1;
        assert(vs[j].submit_refusal(registry, true, asset_id, 1) is None);
        assert(submitted(vs[j], vs[j + 1], asset_id, tasks[j], notes[j], engineers[j], times[j]));
    }
}

/// One more record of a batch, submitted on its own after the records
/// before it, leaves the book the batch's records up to it leave.
#[verifier::rlimit(50)]
proof fn lemma_batch_step(
    b: Book,
    wb: Book,
    bj: Book,
    nk: Book,
    asset_id: u64,
    records: Seq<BatchRecord>,
    engineer: Address,
    now: u64,
    grace: bool,
    c: Config,
    j: int,
)
    requires
        book_ok(asset_id, b),
        batch_appended(b, wb, asset_id, records, engineer, now, grace, c),
        0 <= j < records.len(),
        bj.history == wb.history.take(b.history.len() + j),
        j == 0 ==> bj.chain_head == b.chain_head,
        j > 0 ==> bj.chain_head == Some(wb.history[b.history.len() + j - 1].record_hash),
        bj.score == batch_score(b.score, c, records.take(j), grace),
        bj.score_history == b.score_history + batch_trend(b.score, c, records, grace, now).take(j),
        record_appended(bj, nk, asset_id, records[j].task_type, records[j].notes, engineer, now, grace, c),
    ensures
        nk.history == wb.history.take(b.history.len() + j + 1),
        nk.chain_head == Some(wb.history[b.history.len() + j].record_hash),
        nk.score == batch_score(b.score, c, records.take(j + 1), grace),
        nk.score_history == b.score_history + batch_trend(b.score, c, records, grace, now).take(j + 1),
        nk.last_update == now,
{
    let hw = wb.history;
    let base = b.history.len() as int;
    let rec = nk.history.last();
    let wr = hw[base + j];
    let trend = batch_trend(b.score, c, records, grace, now);
    lemma_book_ok_facts(asset_id, b);
    assert(rec.prev_hash == wr.prev_hash) by {
        reveal(chained);
        if j > 0 {
            assert(hw[base + j].prev_hash == hw[base + j - 1].record_hash);
        } else if base > 0 {
            assert(b.history.last() == hw.take(base)[base - 1]);
            assert(hw[base].prev_hash == hw[base - 1].record_hash);
        } else {
            assert(is_zero_hash(hw[0].prev_hash));
            assert(is_zero_hash(rec.prev_hash));
            assert(rec.prev_hash =~= wr.prev_hash);
        }
    }
    assert(rec.record_hash =~= wr.record_hash) by {
        reveal(chained);
        assert(wr.record_hash@ == record_hash(
            wr.asset_id,
            wr.task_type@,
            wr.engineer,
            wr.timestamp,
            (base + j) as u32,
            wr.prev_hash@,
        ));
    }
    assert(rec == wr);
    assert(nk.history =~= hw.take(base + j + 1)) by {
        assert(nk.history =~= bj.history.push(rec));
    }
    assert(records.take(j + 1).drop_last() =~= records.take(j));
    assert(records.take(j + 1).last() == records[j]);
    assert(nk.score_history =~= b.score_history + trend.take(j + 1)) by {
        assert(trend[j] == (crate::lifecycle::ScoreEntry {
            timestamp: now,
            score: batch_score(b.score, c, records.take(j + 1), grace),
        }));
    }
}

/// The book of `asset_id` after the first `k` records of a batch went in
/// one submission at a time: the first `k` records of the batch's history,
/// the head those records end on, the running score and trend after `k`
/// records, and the last update.
#[verifier::rlimit(50)]
#[verifier::spinoff_prover]
proof fn lemma_batch_prefix(
    o: LifecycleView,
    w: LifecycleView,
    vs: Seq<LifecycleView>,
    asset_id: u64,
    records: Seq<BatchRecord>,
    engineer: Address,
    now: u64,
    k: int,
)
    requires
        book_ok(asset_id, o.book(asset_id)),
        records.len() > 0,
        batch_submitted(o, w, asset_id, records, engineer, now),
        vs.len() == records.len() + 1,
        vs[0] == o,
        forall|j: int|
            0 <= j < records.len() ==> submitted(
                #[trigger] vs[j],
                vs[j + 1],
                asset_id,
                records[j].task_type,
                records[j].notes,
                engineer,
                now,
            ),
        0 <= k <= records.len(),
    ensures
        ({
            let b = o.book(asset_id);
            let hw = w.book(asset_id).history;
            let base = b.history.len() as int;
            let grace = o.in_grace(engineer, now);
            let c = o.config.unwrap();
            let bk = vs[k].book(asset_id);
            &&& vs[k].same_except_book(o, asset_id)
            &&& bk.history == hw.take(base + k)
            &&& k == 0 ==> bk.chain_head == b.chain_head
            &&& k > 0 ==> bk.chain_head == Some(hw[base + k - 1].record_hash)
            &&& bk.score == batch_score(b.score, c, records.take(k), grace)
            &&& bk.score_history == b.score_history + batch_trend(b.score, c, records, grace, now).take(k)
            &&& k > 0 ==> bk.last_update == now
        }),
    decreases k,
{
    let b = o.book(asset_id);
    let hw = w.book(asset_id).history;
    let base = b.history.len() as int;
    let grace = o.in_grace(engineer, now);
    let c = o.config.unwrap();
    let trend = batch_trend(b.score, c, records, grace, now);
    if k == 0 {
        assert(b.history =~= hw.take(base));
        assert(records.take(0) =~= Seq::<BatchRecord>::empty());
        assert(b.score_history =~= b.score_history + trend.take(0));
    } else {
        let j = k - 1;
        lemma_batch_prefix(o, w, vs, asset_id, records, engineer, now, j);
        assert(submitted(vs[j], vs[j + 1], asset_id, records[j].task_type, records[j].notes, engineer, now));
        assert(j + 1 == k);
        assert(vs[j].in_grace(engineer, now) == grace);
        assert(vs[j].config == o.config);
        lemma_batch_step(
            b,
            w.book(asset_id),
            vs[j].book(asset_id),
            vs[k].book(asset_id),
            asset_id,
            records,
            engineer,
            now,
            grace,
            c,
            j,
        );
        assert(vs[k].same_except_book(o, asset_id));
    }
}

/// A batch does what the same records submitted one at a time, in order and
/// at the same time, do: the same history (record hashes included), chain
/// head, score, score trend and last update, and nothing else differs.
pub proof fn law_batch_is_sequential_submits(
    o: LifecycleView,
    w: LifecycleView,
    vs: Seq<LifecycleView>,
    asset_id: u64,
    records: Seq<BatchRecord>,
    engineer: Address,
    now: u64,
)
    requires
        book_ok(asset_id, o.book(asset_id)),
        records.len() > 0,
        batch_submitted(o, w, asset_id, records, engineer, now),
        vs.len() == records.len() + 1,
        vs[0] == o,
        forall|j: int|
            0 <= j < records.len() ==> submitted(
                #[trigger] vs[j],
                vs[j + 1],
                asset_id,
                records[j].task_type,
                records[j].notes,
                engineer,
                now,
            ),
    ensures
        w.book(asset_id).history == vs.last().book(asset_id).history,
        w.book(asset_id).chain_head == vs.last().book(asset_id).chain_head,
        w.book(asset_id).score == vs.last().book(asset_id).score,
        w.book(asset_id).score_history == vs.last().book(asset_id).score_history,
        w.book(asset_id).last_update == vs.last().book(asset_id).last_update,
        forall|id: u64| #[trigger] w.book(id) == vs.last().book(id),
        w.asset_registry == vs.last().asset_registry,
        w.engineer_registry == vs.last().engineer_registry,
        w.config == vs.last().config,
        w.grace_periods == vs.last().grace_periods,
        w.prune_proposals == vs.last().prune_proposals,
{
    let n = records.len() as int;
    lemma_batch_prefix(o, w, vs, asset_id, records, engineer, now, n);
    let hw = w.book(asset_id).history;
    let base = o.book(asset_id).history.len() as int;
    assert(hw.take(base + n) =~= hw);
    assert(records.take(n) =~= records);
    let c = o.config.unwrap();
    let grace = o.in_grace(engineer, now);
    let trend = batch_trend(o.book(asset_id).score, c, records, grace, now);
    assert(trend.take(n) =~= trend);
    let l = vs.last();
    assert(l == vs[n]);
    assert(w.book(asset_id) == l.book(asset_id));
    assert forall|id: u64| #[trigger] w.book(id) == l.book(id) by {
        if id != asset_id {
            assert(w.book(id) == o.book(id));
            assert(l.book(id) == o.book(id));
        }
    }
}

/// The grace flag of a submitted record is the submitting engineer's own:
/// it is set exactly when that engineer has a grace period end on file that
/// is nonzero and not yet passed at `now`, whatever grace periods other
/// engineers hold; an engineer without a grace period adds the full weight.
pub proof fn law_grace_flag_is_the_submitters_own(
    o: LifecycleView,
    f: LifecycleView,
    asset_id: u64,
    task_type: Symbol,
    notes: String,
    engineer: Address,
    now: u64,
)
    requires
        submitted(o, f, asset_id, task_type, notes, engineer, now),
    ensures
        f.book(asset_id).history.last().signed_during_grace_period == (o.grace_periods.contains_key(engineer)
            && o.grace_periods[engineer] > 0 && now <= o.grace_periods[engineer]),
        !o.grace_periods.contains_key(engineer) ==> f.book(asset_id).score == raised_score(
            o.book(asset_id).score,
            record_weight(o.config.unwrap(), task_type@, false),
        ),
{
}

/// In a batch too, every record's grace flag is the submitting engineer's
/// own grace period at `now`.
pub proof fn law_batch_grace_flag_is_the_submitters_own(
    o: LifecycleView,
    f: LifecycleView,
    asset_id: u64,
    records: Seq<BatchRecord>,
    engineer: Address,
    now: u64,
    j: int,
)
    requires
        batch_submitted(o, f, asset_id, records, engineer, now),
        0 <= j < records.len(),
    ensures
        f.book(asset_id).history[o.book(asset_id).history.len() + j].signed_during_grace_period == (
        o.grace_periods.contains_key(engineer) && o.grace_periods[engineer] > 0 && now
            <= o.grace_periods[engineer]),
{
    let base = o.book(asset_id).history.len() as int;
    assert(f.book(asset_id).history[base + j].signed_during_grace_period == o.in_grace(engineer, now));
}

/// Duplicate detection on a metadata update is per owner: the update of an
/// owned asset is refused as a duplicate exactly when the owner itself holds
/// the new metadata's key for another entry; keys that other owners hold
/// for the same metadata never block it. An accepted update reads back.
pub proof fn law_update_blocked_only_by_the_owners_keys(
    s: RegistryView,
    asset_id: u64,
    owner: Address,
    new_metadata: String,
)
    requires
        s.assets.contains_key(asset_id),
        s.assets[asset_id].owner == owner,
    ensures
        ({
            let old_key = (owner, metadata_digest(s.assets[asset_id].metadata@));
            let new_key = (owner, metadata_digest(new_metadata@));
            let held = s.dedup.contains_key(new_key) && new_key != old_key;
            &&& !held ==> (s.update_metadata(asset_id, owner, new_metadata) matches Ok(t)
                && t.assets[asset_id].metadata == new_metadata && t.assets[asset_id].owner == owner
                && t.dedup.contains_key(new_key) && t.dedup[new_key] == asset_id)
            &&& held ==> s.update_metadata(asset_id, owner, new_metadata) == Err::<RegistryView, Failure>(
                Failure::Contract(ContractError::DuplicateAsset),
            )
        }),
{
}

/// A transfer is refused only for a missing asset, a caller that does not
/// own it, a transfer to the current owner, or a collateral lock: with
/// none of these it succeeds, whatever duplicate-detection keys the new
/// owner already holds, and the asset and its key move to the new owner.
pub proof fn law_transfer_refusals_are_exactly(
    s: RegistryView,
    asset_id: u64,
    current_owner: Address,
    new_owner: Address,
)
    ensures
        !s.assets.contains_key(asset_id) ==> s.transfer(asset_id, current_owner, new_owner) == Err::<
            RegistryView,
            Failure,
        >(Failure::Contract(ContractError::AssetNotFound)),
        s.assets.contains_key(asset_id) && s.assets[asset_id].owner == current_owner && new_owner
            != current_owner && !s.assets[asset_id].locked ==> (s.transfer(
            asset_id,
            current_owner,
            new_owner,
        ) matches Ok(t) && t.assets[asset_id] == (Asset { owner: new_owner, ..s.assets[asset_id] })
            && t.dedup.contains_key((new_owner, metadata_digest(s.assets[asset_id].metadata@)))
            && t.dedup[(new_owner, metadata_digest(s.assets[asset_id].metadata@))] == asset_id
            && !t.dedup.contains_key((current_owner, metadata_digest(s.assets[asset_id].metadata@)))),
        s.transfer(asset_id, current_owner, new_owner) is Err ==> (!s.assets.contains_key(asset_id)
            || s.assets[asset_id].owner != current_owner || new_owner == current_owner
            || s.assets[asset_id].locked),
{
}

/// A filter over a sequence whose predicate holds of every item keeps all.
proof fn lemma_filter_keeps_all<A>(s: Seq<A>, p: spec_fn(A) -> bool)
    requires
        forall|x: A| #[trigger] p(x),
    ensures
        s.filter(p) == s,
    decreases s.len(),
{
    reveal_with_fuel(Seq::<_>::filter, 1);
    if s.len() > 0 {
        lemma_filter_keeps_all(s.drop_last(), p);
        assert(s.drop_last().push(s.last()) =~= s);
    } else {
        assert(s.filter(p) =~= s);
    }
}

/// Search selects by asset type alone: without a type it returns every
/// stored asset, locked ones included, in registration order; with a type
/// it returns exactly the stored assets of that type, whether or not they
/// are held as collateral.
pub proof fn law_search_selects_by_type_alone(r: &AssetRegistry, t: Symbol)
    ensures
        r.stored().filter(|a: Asset| selects(None, a)) == r.stored(),
        r.stored().filter(|a: Asset| selects(Some(t), a)) == r.stored().filter(
            |a: Asset| a.asset_type@ == t@,
        ),
        forall|a: Asset| #[trigger] selects(None, a) && selects(None, Asset { locked: !a.locked, ..a }),
        forall|a: Asset|
            #[trigger] selects(Some(t), a) == (a.asset_type@ == t@) && selects(
                Some(t),
                Asset { locked: !a.locked, ..a },
            ) == selects(Some(t), a),
{
    lemma_filter_keeps_all(r.stored(), |a: Asset| selects(None, a));
    assert((|a: Asset| selects(Some(t), a)) =~= (|a: Asset| a.asset_type@ == t@));
}

/// A prune needs a proposal for that same asset: with the admin accepted
/// and no proposal on file for `asset_id`, the prune is refused with
/// `NoPrunePending`, whatever proposals other assets hold.
pub proof fn law_prune_needs_its_own_proposal(s: LifecycleView, admin: Address, asset_id: u64, now: u64)
    requires
        s.config matches Some(c) && c.admin == admin,
        !s.prune_proposals.contains_key(asset_id),
    ensures
        s.prune_refusal(admin, asset_id, now) == Some(
            LifecycleFailure::Contract(LifecycleError::NoPrunePending),
        ),
{
}

} // verus!
