//! The maintenance lifecycle: engineers' maintenance records kept as a
//! tamper-evident hash chain per asset, the collateral score they build up,
//! its decay over time, credential grace periods and the timelocked pruning
//! of an asset's history.
use vstd::prelude::*;

use crate::address::Address;
use crate::digest::{compute_record_hash, is_zero_hash, record_hash, zero_hash};
use crate::registry::{AssetRegistry, ContractError as RegistryError, RegistryView};
use crate::symbol::Symbol;
use crate::table::{keys_unique, lemma_table_index, lemma_table_push, lemma_table_remove, lemma_table_update, table};

verus! {

/// Records per asset when `initialize` is given 0.
pub const DEFAULT_MAX_HISTORY: u32 = 200;
/// The score increment a fresh configuration holds.
pub const DEFAULT_SCORE_INCREMENT: u32 = 5;
/// Length of one decay interval: 30 days in seconds.
pub const DECAY_INTERVAL: u64 = 2592000;
/// Points lost per elapsed decay interval.
pub const DECAY_RATE: u32 = 5;
/// Delay between proposing and executing a history prune: 48 hours.
pub const PRUNE_TIMELOCK_SECS: u64 = 172800;
/// Records signed in a credential grace period score at this fraction.
pub const GRACE_PENALTY_NUM: u32 = 1;
pub const GRACE_PENALTY_DEN: u32 = 2;
/// The highest collateral score.
pub const MAX_SCORE: u32 = 100;
/// The lowest score at which an asset is collateral-eligible.
pub const ELIGIBILITY_THRESHOLD: u32 = 50;

/// The lifecycle contract's errors.
#[derive(Clone, Copy, Debug, PartialEq, Eq, Structural)]
pub enum ContractError {
    NoMaintenanceHistory,
    UnauthorizedEngineer,
    UnauthorizedAdmin,
    /// A prune was executed before its timelock elapsed.
    PruneTimelockNotElapsed,
    /// No prune proposal is on file for the asset.
    NoPrunePending,
}

impl ContractError {
    /// The error's contract code, 1 to 5 in declaration order.
    pub fn code(&self) -> (c: u32)
        ensures
            c == self.code_spec(),
    {
        match self {
            ContractError::NoMaintenanceHistory => 1,
            ContractError::UnauthorizedEngineer => 2,
            ContractError::UnauthorizedAdmin => 3,
            ContractError::PruneTimelockNotElapsed => 4,
            ContractError::NoPrunePending => 5,
        }
    }

    /// The error's contract code, in specifications.
    pub open spec fn code_spec(self) -> u32 {
        match self {
            ContractError::NoMaintenanceHistory => 1u32,
            ContractError::UnauthorizedEngineer => 2u32,
            ContractError::UnauthorizedAdmin => 3u32,
            ContractError::PruneTimelockNotElapsed => 4u32,
            ContractError::NoPrunePending => 5u32,
        }
    }
}

/// Why a lifecycle call was refused. The contract either raises one of its
/// contract errors, passes on the asset registry's error, or aborts; either
/// way the call changes nothing.
#[derive(Clone, Copy, Debug, PartialEq, Eq, Structural)]
pub enum Failure {
    /// A lifecycle contract error.
    Contract(ContractError),
    /// The asset registry refused the asset lookup.
    Asset(RegistryError),
    /// The contract was never initialized with an asset registry.
    AssetRegistryNotSet,
    /// The contract was never initialized with a configuration.
    ConfigNotSet,
    /// The asset's history would exceed `max_history`.
    HistoryCapReached,
    /// An arithmetic overflow in the contract.
    Overflow,
    /// A batch submission without records.
    EmptyBatch,
    /// `initialize` on a contract that already holds a configuration.
    AlreadyInitialized,
}

/// A maintenance record, linked into its asset's hash chain.
#[derive(Debug, PartialEq, Eq)]
pub struct MaintenanceRecord {
    pub asset_id: u64,
    pub task_type: Symbol,
    pub notes: String,
    pub engineer: Address,
    pub timestamp: u64,
    /// True if the engineer's credential was in its post-expiry grace period
    /// when the record was signed.
    pub signed_during_grace_period: bool,
    /// The chain hash over this record's chain fields (see `record_hash`).
    pub record_hash: [u8; 32],
    /// The previous record's `record_hash`, or all zeros for the first record.
    pub prev_hash: [u8; 32],
}

impl Clone for MaintenanceRecord {
    fn clone(&self) -> (r: Self)
        ensures
            r == *self,
    {
        MaintenanceRecord {
            asset_id: self.asset_id,
            task_type: self.task_type.clone(),
            notes: self.notes.clone(),
            engineer: self.engineer,
            timestamp: self.timestamp,
            signed_during_grace_period: self.signed_during_grace_period,
            record_hash: self.record_hash,
            prev_hash: self.prev_hash,
        }
    }
}

/// A pending proposal to delete an asset's maintenance history.
#[derive(Clone, Copy, Debug, PartialEq, Eq, Structural)]
pub struct PruneProposal {
    pub asset_id: u64,
    pub proposed_at: u64,
}

/// The collateral score right after a maintenance event.
#[derive(Clone, Copy, Debug, PartialEq, Eq, Structural)]
pub struct ScoreEntry {
    pub timestamp: u64,
    pub score: u32,
}

/// One record of a batch submission.
#[derive(Debug, PartialEq, Eq)]
pub struct BatchRecord {
    pub task_type: Symbol,
    pub notes: String,
}

impl Clone for BatchRecord {
    fn clone(&self) -> (r: Self)
        ensures
            r == *self,
    {
        BatchRecord { task_type: self.task_type.clone(), notes: self.notes.clone() }
    }
}

/// The contract's configuration.
#[derive(Clone, Copy, Debug, PartialEq, Eq)]
pub struct Config {
    pub admin: Address,
    /// The most records an asset's history may hold.
    pub max_history: u32,
    /// The score increment; where the admin has set it to anything but the
    /// default, it replaces the per-task weight.
    pub score_increment: u32,
}

/// An asset's maintenance state.
struct AssetBook {
    asset_id: u64,
    history: Vec<MaintenanceRecord>,
    chain_head: Option<[u8; 32]>,
    score: u32,
    score_history: Vec<ScoreEntry>,
    last_update: u64,
}

/// An asset's maintenance state as a mathematical value. An asset never
/// touched has the empty book: no history, no chain head, score 0.
pub struct Book {
    pub history: Seq<MaintenanceRecord>,
    pub chain_head: Option<[u8; 32]>,
    pub score: u32,
    pub score_history: Seq<ScoreEntry>,
    /// Ledger time of the last maintenance write, moved forward by the
    /// whole decay intervals applied since.
    pub last_update: u64,
}

/// An engineer's credential grace period end.
#[derive(Clone, Copy)]
struct GraceEntry {
    engineer: Address,
    end: u64,
}

/// The lifecycle contract's storage.
pub struct Lifecycle {
    asset_registry: Option<Address>,
    engineer_registry: Option<Address>,
    config: Option<Config>,
    books: Vec<AssetBook>,
    grace: Vec<GraceEntry>,
    prunes: Vec<PruneProposal>,
}

/// The lifecycle contract's storage as a mathematical value.
pub struct LifecycleView {
    pub asset_registry: Option<Address>,
    pub engineer_registry: Option<Address>,
    pub config: Option<Config>,
    /// Assets with stored maintenance state; see `book`.
    pub books: Map<u64, Book>,
    /// Credential grace period ends, by engineer.
    pub grace_periods: Map<Address, u64>,
    /// Pending prune proposals, by asset.
    pub prune_proposals: Map<u64, PruneProposal>,
}

impl AssetBook {
    spec fn book(self) -> Book {
        Book {
            history: self.history@,
            chain_head: self.chain_head,
            score: self.score,
            score_history: self.score_history@,
            last_update: self.last_update,
        }
    }
}

spec fn book_key() -> spec_fn(AssetBook) -> u64 {
    |b: AssetBook| b.asset_id
}

spec fn grace_key() -> spec_fn(GraceEntry) -> Address {
    |g: GraceEntry| g.engineer
}

spec fn prune_key() -> spec_fn(PruneProposal) -> u64 {
    |p: PruneProposal| p.asset_id
}

impl View for Lifecycle {
    type V = LifecycleView;

    closed spec fn view(&self) -> LifecycleView {
        LifecycleView {
            asset_registry: self.asset_registry,
            engineer_registry: self.engineer_registry,
            config: self.config,
            books: table(self.books@, book_key()).map_values(|b: AssetBook| b.book()),
            grace_periods: table(self.grace@, grace_key()).map_values(|g: GraceEntry| g.end),
            prune_proposals: table(self.prunes@, prune_key()),
        }
    }
}

/// The book of an asset with no stored maintenance state.
pub open spec fn empty_book() -> Book {
    Book {
        history: Seq::empty(),
        chain_head: None,
        score: 0,
        score_history: Seq::empty(),
        last_update: 0,
    }
}

/// The hash a new record links back to: the chain head, or all zeros.
pub open spec fn link_target(b: Book, h: [u8; 32]) -> bool {
    match b.chain_head {
        Some(c) => h == c,
        None => is_zero_hash(h),
    }
}

/// The history is a hash chain: record `i` carries the chain hash of its own
/// fields, its position `i` and its `prev_hash`; the first record links to
/// all zeros and every later one to its predecessor's `record_hash`.
#[verifier::opaque]
pub open spec fn chained(h: Seq<MaintenanceRecord>) -> bool {
    &&& forall|i: int|
        0 <= i < h.len() ==> (#[trigger] h[i]).record_hash@ == record_hash(
            h[i].asset_id,
            h[i].task_type@,
            h[i].engineer,
            h[i].timestamp,
            i as u32,
            h[i].prev_hash@,
        )
    &&& forall|i: int, j: int|
        0 <= i && j == i + 1 && j < h.len() ==> (#[trigger] h[j]).prev_hash == (#[trigger] h[i]).record_hash
    &&& h.len() > 0 ==> is_zero_hash(h[0].prev_hash)
}

/// What every book of asset `asset_id` satisfies: its records belong to the
/// asset and form a hash chain whose head is the chain head; scores lie in
/// `0..=100`.
#[verifier::opaque]
pub open spec fn book_ok(asset_id: u64, b: Book) -> bool {
    &&& b.score <= MAX_SCORE
    &&& forall|j: int| 0 <= j < b.score_history.len() ==> (#[trigger] b.score_history[j]).score <= MAX_SCORE
    &&& b.history.len() <= u32::MAX
    &&& forall|j: int| 0 <= j < b.history.len() ==> (#[trigger] b.history[j]).asset_id == asset_id
    &&& chained(b.history)
    &&& b.history.len() > 0 ==> b.chain_head == Some(b.history.last().record_hash)
    &&& b.history.len() == 0 ==> match b.chain_head {
        Some(c) => is_zero_hash(c),
        None => true,
    }
}

/// The chain weight of a task type: 2 for minor tasks, 5 for medium ones,
/// 10 for major ones and 3 for any other.
pub open spec fn task_weight(task_type: Seq<char>) -> u32 {
    if task_type == "OIL_CHG"@ || task_type == "LUBE"@ || task_type == "INSPECT"@ {
        2
    } else if task_type == "FILTER"@ || task_type == "TUNE_UP"@ || task_type == "BRAKE"@ {
        5
    } else if task_type == "ENGINE"@ || task_type == "OVERHAUL"@ || task_type == "REBUILD"@ {
        10
    } else {
        3
    }
}

/// The points a record adds: the task weight, or the configured increment
/// where the admin set one other than the default; halved (rounding down)
/// for a record signed in a grace period.
pub open spec fn record_weight(config: Config, task_type: Seq<char>, grace: bool) -> u32 {
    let base = if config.score_increment != DEFAULT_SCORE_INCREMENT {
        config.score_increment
    } else {
        task_weight(task_type)
    };
    if grace {
        ((base * GRACE_PENALTY_NUM) / (GRACE_PENALTY_DEN as int)) as u32
    } else {
        base
    }
}

/// A score raised by `weight`, capped at 100.
pub open spec fn raised_score(score: u32, weight: u32) -> u32 {
    if score + weight > MAX_SCORE {
        MAX_SCORE
    } else {
        (score + weight) as u32
    }
}

/// The score after a batch of records, applied in order.
pub open spec fn batch_score(score: u32, config: Config, records: Seq<BatchRecord>, grace: bool) -> u32
    decreases records.len(),
{
    if records.len() == 0 {
        score
    } else {
        raised_score(
            batch_score(score, config, records.drop_last(), grace),
            record_weight(config, records.last().task_type@, grace),
        )
    }
}

/// The score trend a batch appends: one entry per record, stamped `now`,
/// carrying the running score after that record.
pub open spec fn batch_trend(
    score: u32,
    config: Config,
    records: Seq<BatchRecord>,
    grace: bool,
    now: u64,
) -> Seq<ScoreEntry> {
    Seq::new(
        records.len(),
        |j: int| ScoreEntry { timestamp: now, score: batch_score(score, config, records.take(j + 1), grace) },
    )
}

/// Book `n` is book `b` with one record appended: the record, linked to the
/// previous chain head and carrying its chain hash, goes last; the score
/// rises by its weight (capped at 100) and the new score joins the trend;
/// the last update becomes `now`.
pub open spec fn record_appended(
    b: Book,
    n: Book,
    asset_id: u64,
    task_type: Symbol,
    notes: String,
    engineer: Address,
    now: u64,
    grace: bool,
    config: Config,
) -> bool {
    let score = raised_score(b.score, record_weight(config, task_type@, grace));
    let rec = n.history.last();
    &&& n.history.len() == b.history.len() + 1
    &&& n.history.drop_last() == b.history
    &&& rec.asset_id == asset_id
    &&& rec.task_type == task_type
    &&& rec.notes == notes
    &&& rec.engineer == engineer
    &&& rec.timestamp == now
    &&& rec.signed_during_grace_period == grace
    &&& link_target(b, rec.prev_hash)
    &&& rec.record_hash@ == record_hash(
        asset_id,
        task_type@,
        engineer,
        now,
        b.history.len() as u32,
        rec.prev_hash@,
    )
    &&& n.chain_head == Some(rec.record_hash)
    &&& n.score == score
    &&& n.score_history == b.score_history.push(ScoreEntry { timestamp: now, score })
    &&& n.last_update == now
}

/// Book `n` is book `b` with a batch appended: one record per entry in
/// order, continuing the hash chain; the score rises by each entry's weight
/// in turn, the trend gains one entry per record and the last update
/// becomes `now`.
pub open spec fn batch_appended(
    b: Book,
    n: Book,
    asset_id: u64,
    records: Seq<BatchRecord>,
    engineer: Address,
    now: u64,
    grace: bool,
    config: Config,
) -> bool {
    let base = b.history.len();
    &&& n.history.len() == base + records.len()
    &&& n.history.take(base as int) == b.history
    &&& forall|j: int|
        0 <= j < records.len() ==> {
            let rec = #[trigger] n.history[base + j];
            &&& rec.asset_id == asset_id
            &&& rec.task_type == records[j].task_type
            &&& rec.notes == records[j].notes
            &&& rec.engineer == engineer
            &&& rec.timestamp == now
            &&& rec.signed_during_grace_period == grace
        }
    &&& chained(n.history)
    &&& n.chain_head == Some(n.history.last().record_hash)
    &&& n.score == batch_score(b.score, config, records, grace)
    &&& n.score_history == b.score_history + batch_trend(b.score, config, records, grace, now)
    &&& n.last_update == now
}

/// The successful submission of one record moves `o` to `f`: the asset's
/// book gains the record (see `record_appended`), with the grace flag and
/// configuration of `o`. Nothing else changes.
pub open spec fn submitted(
    o: LifecycleView,
    f: LifecycleView,
    asset_id: u64,
    task_type: Symbol,
    notes: String,
    engineer: Address,
    now: u64,
) -> bool {
    &&& f.same_except_book(o, asset_id)
    &&& record_appended(
        o.book(asset_id),
        f.book(asset_id),
        asset_id,
        task_type,
        notes,
        engineer,
        now,
        o.in_grace(engineer, now),
        o.config.unwrap(),
    )
}

/// The successful submission of a batch moves `o` to `f`: the asset's book
/// gains the batch (see `batch_appended`), with the grace flag and
/// configuration of `o`. Nothing else changes.
pub open spec fn batch_submitted(
    o: LifecycleView,
    f: LifecycleView,
    asset_id: u64,
    records: Seq<BatchRecord>,
    engineer: Address,
    now: u64,
) -> bool {
    &&& f.same_except_book(o, asset_id)
    &&& batch_appended(
        o.book(asset_id),
        f.book(asset_id),
        asset_id,
        records,
        engineer,
        now,
        o.in_grace(engineer, now),
        o.config.unwrap(),
    )
}

/// The score left after `elapsed` seconds of decay: 5 points per whole
/// 30-day interval, never below 0. The interval count is taken modulo 2^32,
/// as the contract does.
pub open spec fn decayed_score(score: u32, elapsed: u64) -> u32 {
    let total = decay_amount(elapsed);
    if total >= score {
        0
    } else {
        (score - total) as u32
    }
}

/// The records an asset may hold when `initialize` is given `max_history`.
pub open spec fn history_cap(max_history: u32) -> u32 {
    if max_history == 0 {
        DEFAULT_MAX_HISTORY
    } else {
        max_history
    }
}

/// The seconds of decay a book has accrued at `now`: the time since its
/// last update, 0 where `now` lies before it.
pub open spec fn decay_elapsed(b: Book, now: u64) -> u64 {
    if now >= b.last_update {
        (now - b.last_update) as u64
    } else {
        0
    }
}

/// A book's score with decay applied at `now`.
pub open spec fn current_score(b: Book, now: u64) -> u32 {
    decayed_score(b.score, decay_elapsed(b, now))
}

/// A book after decay is applied at `now`: the decayed score, and the last
/// update moved forward by the whole intervals applied, so that a partial
/// interval still counts towards the next one. A score of 0 is left alone.
pub open spec fn decay_book(b: Book, now: u64) -> Book {
    if b.score == 0 {
        b
    } else {
        let e = decay_elapsed(b, now);
        Book {
            score: decayed_score(b.score, e),
            last_update: (b.last_update + (e / DECAY_INTERVAL) * DECAY_INTERVAL) as u64,
            ..b
        }
    }
}

/// The decay for `elapsed` seconds.
pub open spec fn decay_amount(elapsed: u64) -> int {
    ((elapsed / DECAY_INTERVAL) % 0x1_0000_0000) * DECAY_RATE
}

impl LifecycleView {
    /// The maintenance state of an asset.
    pub open spec fn book(self, asset_id: u64) -> Book {
        if self.books.contains_key(asset_id) {
            self.books[asset_id]
        } else {
            empty_book()
        }
    }

    /// The end of an engineer's credential grace period, 0 where none is set.
    pub open spec fn grace_end(self, engineer: Address) -> u64 {
        if self.grace_periods.contains_key(engineer) {
            self.grace_periods[engineer]
        } else {
            0
        }
    }

    /// Whether a record that `engineer` signs at `now` falls in a grace period.
    pub open spec fn in_grace(self, engineer: Address, now: u64) -> bool {
        self.grace_end(engineer) > 0 && now <= self.grace_end(engineer)
    }

    /// The refusal of an admin-only call by `admin`, if any.
    pub open spec fn admin_refusal(self, admin: Address) -> Option<Failure> {
        match self.config {
            None => Some(Failure::ConfigNotSet),
            Some(c) => if c.admin == admin {
                None
            } else {
                Some(Failure::Contract(ContractError::UnauthorizedAdmin))
            },
        }
    }

    /// The refusal of a submission of `count` records for `asset_id`, given
    /// the registry's storage and whether the engineer registry verified the
    /// engineer, if any.
    pub open spec fn submit_refusal(
        self,
        registry: RegistryView,
        engineer_verified: bool,
        asset_id: u64,
        count: int,
    ) -> Option<Failure> {
        if count == 0 {
            Some(Failure::EmptyBatch)
        } else if self.asset_registry is None {
            Some(Failure::AssetRegistryNotSet)
        } else if !registry.assets.contains_key(asset_id) {
            Some(Failure::Asset(RegistryError::AssetNotFound))
        } else if self.engineer_registry is None || !engineer_verified {
            Some(Failure::Contract(ContractError::UnauthorizedEngineer))
        } else if self.config is None {
            Some(Failure::ConfigNotSet)
        } else if self.book(asset_id).history.len() + count > u32::MAX {
            Some(Failure::Overflow)
        } else if self.book(asset_id).history.len() + count > self.config.unwrap().max_history {
            Some(Failure::HistoryCapReached)
        } else {
            None
        }
    }

    /// Initialization: the registries and a fresh configuration, refused
    /// once a configuration is stored.
    pub open spec fn initialize(
        self,
        asset_registry: Address,
        engineer_registry: Address,
        admin: Address,
        max_history: u32,
    ) -> Result<LifecycleView, Failure> {
        if self.config is Some {
            Err(Failure::AlreadyInitialized)
        } else {
            Ok(
                LifecycleView {
                    asset_registry: Some(asset_registry),
                    engineer_registry: Some(engineer_registry),
                    config: Some(
                        Config {
                            admin,
                            max_history: history_cap(max_history),
                            score_increment: DEFAULT_SCORE_INCREMENT,
                        },
                    ),
                    ..self
                },
            )
        }
    }

    /// The admin's prune proposal for `asset_id` at `now`.
    pub open spec fn propose_prune(self, admin: Address, asset_id: u64, now: u64) -> Result<
        LifecycleView,
        Failure,
    > {
        match self.admin_refusal(admin) {
            Some(f) => Err(f),
            None => Ok(
                LifecycleView {
                    prune_proposals: self.prune_proposals.insert(
                        asset_id,
                        PruneProposal { asset_id, proposed_at: now },
                    ),
                    ..self
                },
            ),
        }
    }

    /// The refusal of the admin's prune of `asset_id` at `now`, if any.
    pub open spec fn prune_refusal(self, admin: Address, asset_id: u64, now: u64) -> Option<Failure> {
        match self.admin_refusal(admin) {
            Some(f) => Some(f),
            None => if !self.prune_proposals.contains_key(asset_id) {
                Some(Failure::Contract(ContractError::NoPrunePending))
            } else {
                let p = self.prune_proposals[asset_id];
                if p.proposed_at + PRUNE_TIMELOCK_SECS > u64::MAX {
                    Some(Failure::Overflow)
                } else if now < p.proposed_at + PRUNE_TIMELOCK_SECS {
                    Some(Failure::Contract(ContractError::PruneTimelockNotElapsed))
                } else {
                    None
                }
            },
        }
    }

    /// `self` and `other` agree everywhere but on the book of `asset_id`.
    pub open spec fn same_except_book(self, other: LifecycleView, asset_id: u64) -> bool {
        &&& self.asset_registry == other.asset_registry
        &&& self.engineer_registry == other.engineer_registry
        &&& self.config == other.config
        &&& self.grace_periods == other.grace_periods
        &&& self.prune_proposals == other.prune_proposals
        &&& forall|id: u64| id != asset_id ==> #[trigger] self.book(id) == other.book(id)
    }
}

/// What `book_ok` says of a book, spelled out.
pub proof fn lemma_book_ok_facts(asset_id: u64, b: Book)
    requires
        book_ok(asset_id, b),
    ensures
        b.score <= MAX_SCORE,
        forall|j: int| 0 <= j < b.score_history.len() ==> (#[trigger] b.score_history[j]).score <= MAX_SCORE,
        b.history.len() <= u32::MAX,
        forall|j: int| 0 <= j < b.history.len() ==> (#[trigger] b.history[j]).asset_id == asset_id,
        chained(b.history),
        b.history.len() > 0 ==> b.chain_head == Some(b.history.last().record_hash),
        b.history.len() == 0 ==> match b.chain_head {
            Some(c) => is_zero_hash(c),
            None => true,
        },
{
    reveal(book_ok);
}

/// Appending a record that links to the last record (or to all zeros, on
/// an empty history) and carries the chain hash of its position keeps a
/// history a hash chain.
proof fn lemma_chain_push(h: Seq<MaintenanceRecord>, rec: MaintenanceRecord)
    requires
        chained(h),
        h.len() > 0 ==> rec.prev_hash == h.last().record_hash,
        h.len() == 0 ==> is_zero_hash(rec.prev_hash),
        h.len() < u32::MAX,
        rec.record_hash@ == record_hash(
            rec.asset_id,
            rec.task_type@,
            rec.engineer,
            rec.timestamp,
            h.len() as u32,
            rec.prev_hash@,
        ),
    ensures
        chained(h.push(rec)),
{
    reveal(chained);
    let t = h.push(rec);
    assert forall|i: int| 0 <= i < t.len() implies (#[trigger] t[i]).record_hash@ == record_hash(
        t[i].asset_id,
        t[i].task_type@,
        t[i].engineer,
        t[i].timestamp,
        i as u32,
        t[i].prev_hash@,
    ) by {
        if i < h.len() {
            assert(t[i] == h[i]);
        }
    }
    assert forall|i: int, j: int|
        0 <= i && j == i + 1 && j < t.len() implies (#[trigger] t[j]).prev_hash == (#[trigger] t[i]).record_hash by {
        if j < h.len() {
            assert(t[j] == h[j]);
            assert(t[i] == h[i]);
        } else {
            assert(t[i] == h.last());
        }
    }
    if h.len() == 0 {
        assert(t[0] == rec);
    } else {
        assert(t[0] == h[0]);
    }
}

/// A book with a record appended: history, chain head, score, score trend
/// and last update replaced.
proof fn lemma_book_append(
    asset_id: u64,
    b: Book,
    rec: MaintenanceRecord,
    nb: Book,
)
    requires
        book_ok(asset_id, b),
        link_target(b, rec.prev_hash),
        rec.asset_id == asset_id,
        b.history.len() < u32::MAX,
        rec.record_hash@ == record_hash(
            rec.asset_id,
            rec.task_type@,
            rec.engineer,
            rec.timestamp,
            b.history.len() as u32,
            rec.prev_hash@,
        ),
        nb.history == b.history.push(rec),
        nb.chain_head == Some(rec.record_hash),
        nb.score <= MAX_SCORE,
        forall|j: int| 0 <= j < nb.score_history.len() ==> (#[trigger] nb.score_history[j]).score <= MAX_SCORE,
    ensures
        book_ok(asset_id, nb),
{
    lemma_book_ok_facts(asset_id, b);
    lemma_chain_push(b.history, rec);
    reveal(book_ok);
    assert forall|j: int| 0 <= j < nb.history.len() implies (#[trigger] nb.history[j]).asset_id == asset_id by {
        if j < b.history.len() {
            assert(nb.history[j] == b.history[j]);
        }
    }
}

/// The weight of a task type (see `task_weight`).
pub fn get_task_weight(task_type: &Symbol) -> (w: u32)
    ensures
        w == task_weight(task_type@),
{
    if task_type.is("OIL_CHG") || task_type.is("LUBE") || task_type.is("INSPECT") {
        return 2;
    }
    if task_type.is("FILTER") || task_type.is("TUNE_UP") || task_type.is("BRAKE") {
        return 5;
    }
    if task_type.is("ENGINE") || task_type.is("OVERHAUL") || task_type.is("REBUILD") {
        return 10;
    }
    3
}

/// The points a record adds (see `record_weight`).
pub fn score_weight(config: &Config, task_type: &Symbol, grace: bool) -> (w: u32)
    ensures
        w == record_weight(*config, task_type@, grace),
{
    let base = if config.score_increment != DEFAULT_SCORE_INCREMENT {
        config.score_increment
    } else {
        get_task_weight(task_type)
    };
    if grace {
        base * GRACE_PENALTY_NUM / GRACE_PENALTY_DEN
    } else {
        base
    }
}

/// A score raised by `weight`, capped at 100.
pub fn raise_score(score: u32, weight: u32) -> (s: u32)
    requires
        score <= MAX_SCORE,
    ensures
        s == raised_score(score, weight),
{
    if weight > MAX_SCORE - score {
        MAX_SCORE
    } else {
        score + weight
    }
}

impl Lifecycle {
    /// The storage invariant: every table has unique keys and every stored
    /// book satisfies `book_ok`.
    pub closed spec fn wf(&self) -> bool {
        &&& keys_unique(self.books@, book_key())
        &&& keys_unique(self.grace@, grace_key())
        &&& keys_unique(self.prunes@, prune_key())
        &&& forall|i: int|
            0 <= i < self.books@.len() ==> book_ok(
                (#[trigger] self.books@[i]).asset_id,
                self.books@[i].book(),
            )
    }

    /// Every asset's book satisfies `book_ok`.
    pub proof fn lemma_books_ok(&self)
        requires
            self.wf(),
        ensures
            forall|id: u64| book_ok(id, #[trigger] self@.book(id)),
    {
        assert forall|id: u64| book_ok(id, #[trigger] self@.book(id)) by {
            if !self@.books.contains_key(id) {
                reveal(book_ok);
                reveal(chained);
            } else {
                let i = choose|i: int| 0 <= i < self.books@.len() && book_key()(self.books@[i]) == id;
                lemma_table_index(self.books@, book_key(), i);
            }
        }
    }

    /// A lifecycle contract before `initialize`: nothing stored.
    pub fn new() -> (r: Lifecycle)
        ensures
            r.wf(),
            r@.asset_registry is None,
            r@.engineer_registry is None,
            r@.config is None,
            r@.books == Map::<u64, Book>::empty(),
            r@.grace_periods == Map::<Address, u64>::empty(),
            r@.prune_proposals == Map::<u64, PruneProposal>::empty(),
    {
        let r = Lifecycle {
            asset_registry: None,
            engineer_registry: None,
            config: None,
            books: Vec::new(),
            grace: Vec::new(),
            prunes: Vec::new(),
        };
        assert(r@.books =~= Map::<u64, Book>::empty());
        assert(r@.grace_periods =~= Map::<Address, u64>::empty());
        assert(r@.prune_proposals =~= Map::<u64, PruneProposal>::empty());
        r
    }

    fn find_book(&self, asset_id: u64) -> (r: Option<usize>)
        requires
            self.wf(),
        ensures
            r is None ==> !self@.books.contains_key(asset_id),
            r matches Some(i) ==> i < self.books@.len() && self.books@[i as int].asset_id == asset_id
                && self@.books.contains_key(asset_id) && self@.books[asset_id] == self.books@[i as int].book(),
    {
        let mut i: usize = 0;
        while i < self.books.len()
            invariant
                self.wf(),
                i <= self.books@.len(),
                forall|j: int| 0 <= j < i ==> self.books@[j].asset_id != asset_id,
            decreases self.books@.len() - i,
        {
            if self.books[i].asset_id == asset_id {
                proof {
                    lemma_table_index(self.books@, book_key(), i as int);
                }
                return Some(i);
            }
            i = i + 1;
        }
        proof {
            if self@.books.contains_key(asset_id) {
                let j = choose|j: int| 0 <= j < self.books@.len() && book_key()(self.books@[j]) == asset_id;
                assert(self.books@[j].asset_id == asset_id);
            }
        }
        None
    }

    /// Takes an asset's book out of storage (the empty book where none is stored).
    fn take_book(&mut self, asset_id: u64) -> (b: AssetBook)
        requires
            old(self).wf(),
        ensures
            final(self).wf(),
            b.asset_id == asset_id,
            b.book() == old(self)@.book(asset_id),
            book_ok(asset_id, b.book()),
            final(self)@ == (LifecycleView { books: old(self)@.books.remove(asset_id), ..old(self)@ }),
    {
        proof {
            self.lemma_books_ok();
        }
        match self.find_book(asset_id) {
            None => {
                assert(self@.books =~= old(self)@.books.remove(asset_id));
                let b = AssetBook {
                    asset_id,
                    history: Vec::new(),
                    chain_head: None,
                    score: 0,
                    score_history: Vec::new(),
                    last_update: 0,
                };
                assert(b.book() =~= empty_book());
                assert(book_ok(asset_id, b.book())) by {
                    reveal(book_ok);
                    reveal(chained);
                }
                b
            },
            Some(i) => {
                proof {
                    lemma_table_remove(self.books@, book_key(), i as int);
                }
                let b = self.books.remove(i);
                assert(self@.books =~= old(self)@.books.remove(asset_id));
                assert(self.wf()) by {
                    assert forall|j: int| 0 <= j < self.books@.len() implies book_ok(
                        (#[trigger] self.books@[j]).asset_id,
                        self.books@[j].book(),
                    ) by {
                        let k = if j < i { j } else { j + 1 };
                        assert(self.books@[j] == old(self).books@[k]);
                    }
                }
                b
            },
        }
    }

    /// Puts a book back into storage.
    fn put_book(&mut self, b: AssetBook)
        requires
            old(self).wf(),
            !old(self)@.books.contains_key(b.asset_id),
            book_ok(b.asset_id, b.book()),
        ensures
            final(self).wf(),
            final(self)@ == (LifecycleView {
                books: old(self)@.books.insert(b.asset_id, b.book()),
                ..old(self)@
            }),
    {
        let ghost gb = b;
        proof {
            lemma_table_push(self.books@, book_key(), b);
        }
        self.books.push(b);
        assert(self@.books =~= old(self)@.books.insert(gb.asset_id, gb.book()));
        assert(self.wf()) by {
            assert forall|j: int| 0 <= j < self.books@.len() implies book_ok(
                (#[trigger] self.books@[j]).asset_id,
                self.books@[j].book(),
            ) by {
                if j < old(self).books@.len() {
                    assert(self.books@[j] == old(self).books@[j]);
                }
            }
        }
    }

    fn find_grace(&self, engineer: &Address) -> (r: Option<usize>)
        requires
            self.wf(),
        ensures
            r is None ==> !self@.grace_periods.contains_key(*engineer),
            r matches Some(i) ==> i < self.grace@.len() && self.grace@[i as int].engineer == *engineer
                && self@.grace_periods.contains_key(*engineer)
                && self@.grace_periods[*engineer] == self.grace@[i as int].end,
    {
        let mut i: usize = 0;
        while i < self.grace.len()
            invariant
                self.wf(),
                i <= self.grace@.len(),
                forall|j: int| 0 <= j < i ==> self.grace@[j].engineer != *engineer,
            decreases self.grace@.len() - i,
        {
            if self.grace[i].engineer.same(engineer) {
                proof {
                    lemma_table_index(self.grace@, grace_key(), i as int);
                }
                return Some(i);
            }
            i = i + 1;
        }
        proof {
            if self@.grace_periods.contains_key(*engineer) {
                let j = choose|j: int| 0 <= j < self.grace@.len() && grace_key()(self.grace@[j]) == *engineer;
                assert(self.grace@[j].engineer == *engineer);
            }
        }
        None
    }

    fn grace_end_of(&self, engineer: &Address) -> (end: u64)
        requires
            self.wf(),
        ensures
            end == self@.grace_end(*engineer),
    {
        match self.find_grace(engineer) {
            Some(i) => self.grace[i].end,
            None => 0,
        }
    }

    fn find_prune(&self, asset_id: u64) -> (r: Option<usize>)
        requires
            self.wf(),
        ensures
            r is None ==> !self@.prune_proposals.contains_key(asset_id),
            r matches Some(i) ==> i < self.prunes@.len() && self.prunes@[i as int].asset_id == asset_id
                && self@.prune_proposals.contains_key(asset_id)
                && self@.prune_proposals[asset_id] == self.prunes@[i as int],
    {
        let mut i: usize = 0;
        while i < self.prunes.len()
            invariant
                self.wf(),
                i <= self.prunes@.len(),
                forall|j: int| 0 <= j < i ==> self.prunes@[j].asset_id != asset_id,
            decreases self.prunes@.len() - i,
        {
            if self.prunes[i].asset_id == asset_id {
                proof {
                    lemma_table_index(self.prunes@, prune_key(), i as int);
                }
                return Some(i);
            }
            i = i + 1;
        }
        proof {
            if self@.prune_proposals.contains_key(asset_id) {
                let j = choose|j: int| 0 <= j < self.prunes@.len() && prune_key()(self.prunes@[j]) == asset_id;
                assert(self.prunes@[j].asset_id == asset_id);
            }
        }
        None
    }

    fn history_len(&self, asset_id: u64) -> (n: usize)
        requires
            self.wf(),
        ensures
            n == self@.book(asset_id).history.len(),
    {
        match self.find_book(asset_id) {
            Some(i) => self.books[i].history.len(),
            None => 0,
        }
    }

    /// Binds the asset and engineer registries and sets the configuration:
    /// `admin`, at most `max_history` records per asset (200 when 0 is
    /// given) and the default score increment. Stored books are kept.
    /// Refused with `AlreadyInitialized` once a configuration is stored.
    pub fn initialize(
        &mut self,
        asset_registry: Address,
        engineer_registry: Address,
        admin: Address,
        max_history: u32,
    ) -> (r: Result<(), Failure>)
        requires
            old(self).wf(),
        ensures
            final(self).wf(),
            match old(self)@.initialize(asset_registry, engineer_registry, admin, max_history) {
                Ok(v) => r is Ok && final(self)@ == v,
                Err(f) => r == Err::<(), Failure>(f) && final(self)@ == old(self)@,
            },
    {
        if self.config.is_some() {
            return Err(Failure::AlreadyInitialized);
        }
        self.asset_registry = Some(asset_registry);
        self.engineer_registry = Some(engineer_registry);
        let max = if max_history == 0 {
            DEFAULT_MAX_HISTORY
        } else {
            max_history
        };
        self.config = Some(Config { admin, max_history: max, score_increment: DEFAULT_SCORE_INCREMENT });
        Ok(())
    }

    /// Admin-only: sets the score increment.
    pub fn update_score_increment(&mut self, admin: Address, score_increment: u32) -> (r: Result<
        (),
        Failure,
    >)
        requires
            old(self).wf(),
        ensures
            final(self).wf(),
            match old(self)@.admin_refusal(admin) {
                Some(f) => r == Err::<(), Failure>(f) && final(self)@ == old(self)@,
                None => r is Ok && final(self)@ == (LifecycleView {
                    config: Some(Config { score_increment, ..old(self)@.config.unwrap() }),
                    ..old(self)@
                }),
            },
    {
        self.require_admin(&admin)?;
        let mut config = self.config.unwrap();
        config.score_increment = score_increment;
        self.config = Some(config);
        Ok(())
    }

    /// Checks everything a submission of `count` records needs, in the
    /// contract's order, and returns the configuration.
    fn check_submission(
        &self,
        registry: &AssetRegistry,
        engineer_verified: bool,
        asset_id: u64,
        count: usize,
    ) -> (r: Result<Config, Failure>)
        requires
            self.wf(),
            registry.wf(),
        ensures
            match self@.submit_refusal(registry@, engineer_verified, asset_id, count as int) {
                Some(f) => r == Err::<Config, Failure>(f),
                None => r == Ok::<Config, Failure>(self@.config.unwrap()),
            },
    {
        if count == 0 {
            return Err(Failure::EmptyBatch);
        }
        if self.asset_registry.is_none() {
            return Err(Failure::AssetRegistryNotSet);
        }
        if let Err(e) = registry.get_asset(asset_id) {
            return Err(Failure::Asset(e));
        }
        if self.engineer_registry.is_none() || !engineer_verified {
            return Err(Failure::Contract(ContractError::UnauthorizedEngineer));
        }
        let config = match self.config {
            Some(c) => c,
            None => {
                return Err(Failure::ConfigNotSet);
            },
        };
        let len = self.history_len(asset_id);
        if count > u32::MAX as usize || len > u32::MAX as usize - count {
            return Err(Failure::Overflow);
        }
        if len + count > config.max_history as usize {
            return Err(Failure::HistoryCapReached);
        }
        Ok(config)
    }

    /// Records a maintenance event on `asset_id` by `engineer` at ledger time
    /// `now`: appends a record linked into the asset's hash chain, raises the
    /// collateral score by the record's weight (capped at 100), appends the
    /// new score to the score trend and stamps the last update.
    /// `registry` is the asset registry this contract is bound to and
    /// `engineer_verified` is the engineer registry's `verify_engineer`
    /// answer for `engineer`.
    pub fn submit_maintenance(
        &mut self,
        env: &soroban_sdk::Env,
        registry: &AssetRegistry,
        engineer_verified: bool,
        asset_id: u64,
        task_type: Symbol,
        notes: String,
        engineer: Address,
        now: u64,
    ) -> (r: Result<(), Failure>)
        requires
            old(self).wf(),
            registry.wf(),
        ensures
            final(self).wf(),
            ({
                let o = old(self)@;
                match o.submit_refusal(registry@, engineer_verified, asset_id, 1) {
                    Some(f) => r == Err::<(), Failure>(f) && final(self)@ == o,
                    None => r is Ok && submitted(o, final(self)@, asset_id, task_type, notes, engineer, now),
                }
            }),
    {
        let config = self.check_submission(registry, engineer_verified, asset_id, 1)?;
        let grace_end = self.grace_end_of(&engineer);
        let grace = grace_end > 0 && now <= grace_end;
        let ghost o = self@;
        let mut book = self.take_book(asset_id);
        let ghost b = book.book();
        proof {
            lemma_book_ok_facts(asset_id, b);
        }
        let nonce = book.history.len() as u32;
        let prev = match book.chain_head {
            Some(h) => h,
            None => zero_hash(),
        };
        let hash = compute_record_hash(env, asset_id, &task_type, &engineer, now, nonce, &prev);
        let weight = score_weight(&config, &task_type, grace);
        let score = raise_score(book.score, weight);
        let record = MaintenanceRecord {
            asset_id,
            task_type,
            notes,
            engineer,
            timestamp: now,
            signed_during_grace_period: grace,
            record_hash: hash,
            prev_hash: prev,
        };
        let ghost rec = record;
        book.history.push(record);
        book.chain_head = Some(hash);
        book.score = score;
        book.score_history.push(ScoreEntry { timestamp: now, score });
        book.last_update = now;
        proof {
            let sh = book.book().score_history;
            assert forall|j: int| 0 <= j < sh.len() implies (#[trigger] sh[j]).score <= MAX_SCORE by {
                if j < b.score_history.len() {
                    assert(sh[j] == b.score_history[j]);
                }
            }
            lemma_book_append(asset_id, b, rec, book.book());
            assert(book.book().history.drop_last() =~= b.history);
        }
        self.put_book(book);
        proof {
            assert(self@.books =~= o.books.insert(asset_id, book.book()));
        }
        Ok(())
    }

    /// Records a batch of maintenance events on `asset_id` by `engineer` at
    /// ledger time `now`, all or none: checks that the whole batch fits
    /// under `max_history` before writing, then appends one chained record
    /// per entry in order, raises the score by each entry's weight in turn,
    /// appends the running score to the trend once per record, and stamps
    /// the last update. An empty batch is refused with `EmptyBatch`.
    pub fn batch_submit_maintenance(
        &mut self,
        env: &soroban_sdk::Env,
        registry: &AssetRegistry,
        engineer_verified: bool,
        asset_id: u64,
        records: &Vec<BatchRecord>,
        engineer: Address,
        now: u64,
    ) -> (r: Result<(), Failure>)
        requires
            old(self).wf(),
            registry.wf(),
        ensures
            final(self).wf(),
            ({
                let o = old(self)@;
                match o.submit_refusal(registry@, engineer_verified, asset_id, records@.len() as int) {
                    Some(f) => r == Err::<(), Failure>(f) && final(self)@ == o,
                    None => r is Ok && batch_submitted(o, final(self)@, asset_id, records@, engineer, now),
                }
            }),
    {
        let config = self.check_submission(registry, engineer_verified, asset_id, records.len())?;
        let grace_end = self.grace_end_of(&engineer);
        let grace = grace_end > 0 && now <= grace_end;
        let ghost o = self@;
        let mut book = self.take_book(asset_id);
        let ghost b = book.book();
        proof {
            lemma_book_ok_facts(asset_id, b);
        }
        let mut prev = match book.chain_head {
            Some(h) => h,
            None => zero_hash(),
        };
        let ghost first_prev = prev;
        let mut score = book.score;
        let mut i: usize = 0;
        while i < records.len()
            invariant
                book_ok(asset_id, b),
                b.history.len() + records@.len() <= config.max_history,
                config.max_history <= u32::MAX,
                book.asset_id == asset_id,
                book.score == b.score,
                book.score_history@.len() == b.score_history.len() + i,
                book.score_history@.take(b.score_history.len() as int) == b.score_history,
                forall|j: int|
                    0 <= j < i ==> #[trigger] book.score_history@[b.score_history.len() + j] == (ScoreEntry {
                        timestamp: now,
                        score: batch_score(b.score, config, records@.take(j + 1), grace),
                    }),
                forall|j: int|
                    0 <= j < book.score_history@.len() ==> (#[trigger] book.score_history@[j]).score
                        <= MAX_SCORE,
                link_target(b, first_prev),
                i <= records@.len(),
                book.history@.len() == b.history.len() + i,
                book.history@.take(b.history.len() as int) == b.history,
                forall|j: int|
                    0 <= j < i ==> {
                        let rec = #[trigger] book.history@[b.history.len() + j];
                        &&& rec.asset_id == asset_id
                        &&& rec.task_type == records@[j].task_type
                        &&& rec.notes == records@[j].notes
                        &&& rec.engineer == engineer
                        &&& rec.timestamp == now
                        &&& rec.signed_during_grace_period == grace
                    },
                forall|j: int| 0 <= j < book.history@.len() ==> (#[trigger] book.history@[j]).asset_id == asset_id,
                chained(book.history@),
                book.history@.len() > 0 ==> prev == book.history@.last().record_hash,
                book.history@.len() == 0 ==> is_zero_hash(prev),
                i == 0 ==> prev == first_prev,
                score <= MAX_SCORE,
                score == batch_score(b.score, config, records@.take(i as int), grace),
            decreases records@.len() - i,
        {
            let entry = &records[i];
            let weight = score_weight(&config, &entry.task_type, grace);
            proof {
                assert(records@.take(i + 1).drop_last() =~= records@.take(i as int));
                assert(records@.take(i + 1).last() == records@[i as int]);
            }
            score = raise_score(score, weight);
            let nonce = book.history.len() as u32;
            let hash = compute_record_hash(env, asset_id, &entry.task_type, &engineer, now, nonce, &prev);
            let record = MaintenanceRecord {
                asset_id,
                task_type: entry.task_type.clone(),
                notes: entry.notes.clone(),
                engineer,
                timestamp: now,
                signed_during_grace_period: grace,
                record_hash: hash,
                prev_hash: prev,
            };
            let ghost h0 = book.history@;
            let ghost t0 = book.score_history@;
            proof {
                lemma_chain_push(h0, record);
            }
            book.history.push(record);
            book.score_history.push(ScoreEntry { timestamp: now, score });
            proof {
                let sb = b.score_history.len() as int;
                assert(book.score_history@ == t0.push(ScoreEntry { timestamp: now, score }));
                assert(book.score_history@.take(sb) =~= b.score_history) by {
                    assert(t0.take(sb) == b.score_history);
                }
                assert forall|j: int| 0 <= j < i + 1 implies #[trigger] book.score_history@[sb + j] == (ScoreEntry {
                    timestamp: now,
                    score: batch_score(b.score, config, records@.take(j + 1), grace),
                }) by {
                    if j < i {
                        assert(book.score_history@[sb + j] == t0[sb + j]);
                    }
                }
                assert forall|j: int| 0 <= j < book.score_history@.len() implies (
                #[trigger] book.score_history@[j]).score <= MAX_SCORE by {
                    if j < t0.len() {
                        assert(book.score_history@[j] == t0[j]);
                    }
                }
            }
            proof {
                assert(book.history@ == h0.push(record));
                assert(book.history@.take(b.history.len() as int) =~= b.history) by {
                    assert(h0.take(b.history.len() as int) == b.history);
                }
                assert forall|j: int| 0 <= j < book.history@.len() implies (#[trigger] book.history@[j]).asset_id
                    == asset_id by {
                    if j < h0.len() {
                        assert(book.history@[j] == h0[j]);
                    }
                }
                assert forall|j: int| 0 <= j < i + 1 implies {
                    let rec = #[trigger] book.history@[b.history.len() + j];
                    &&& rec.asset_id == asset_id
                    &&& rec.task_type == records@[j].task_type
                    &&& rec.notes == records@[j].notes
                    &&& rec.engineer == engineer
                    &&& rec.timestamp == now
                    &&& rec.signed_during_grace_period == grace
                } by {
                    if j < i {
                        assert(book.history@[b.history.len() + j] == h0[b.history.len() + j]);
                    }
                }
            }
            prev = hash;
            i = i + 1;
        }
        proof {
            assert(records@.take(records@.len() as int) =~= records@);
            let trend = batch_trend(b.score, config, records@, grace, now);
            assert(book.score_history@ =~= b.score_history + trend) by {
                let sb = b.score_history.len() as int;
                assert forall|j: int| 0 <= j < book.score_history@.len() implies book.score_history@[j] == (
                b.score_history + trend)[j] by {
                    if j < sb {
                        assert(book.score_history@.take(sb)[j] == b.score_history[j]);
                    } else {
                        assert(book.score_history@[sb + (j - sb)] == trend[j - sb]);
                    }
                }
            }
        }
        book.score = score;
        book.chain_head = Some(prev);
        book.last_update = now;
        proof {
            reveal(book_ok);
        }
        self.put_book(book);
        proof {
            assert(self@.books =~= o.books.insert(asset_id, book.book()));
        }
        Ok(())
    }

    /// Applies time decay to an asset's score at ledger time `now` and returns
    /// the new score: 5 points per whole 30-day interval since the last
    /// update, never below 0. The last update moves forward by the whole
    /// intervals applied, so decay keeps counting whole intervals since the
    /// last maintenance write. A score of 0 is returned as it is, with
    /// nothing written.
    pub fn decay_score(&mut self, asset_id: u64, now: u64) -> (r: Result<u32, Failure>)
        requires
            old(self).wf(),
        ensures
            final(self).wf(),
            ({
                let o = old(self)@;
                let b = o.book(asset_id);
                if b.score == 0 {
                    r == Ok::<u32, Failure>(0) && final(self)@ == o
                } else if decay_amount(decay_elapsed(b, now)) > u32::MAX {
                    r == Err::<u32, Failure>(Failure::Overflow) && final(self)@ == o
                } else {
                    &&& r == Ok::<u32, Failure>(current_score(b, now))
                    &&& final(self)@.same_except_book(o, asset_id)
                    &&& final(self)@.book(asset_id) == decay_book(b, now)
                }
            }),
    {
        let ghost o = self@;
        let (score, last) = match self.find_book(asset_id) {
            Some(i) => (self.books[i].score, self.books[i].last_update),
            None => (0, 0),
        };
        if score == 0 {
            return Ok(0);
        }
        let elapsed = if now >= last {
            now - last
        } else {
            0
        };
        let intervals = elapsed / DECAY_INTERVAL;
        let truncated = intervals as u32;
        assert(truncated == intervals % 0x1_0000_0000) by (bit_vector)
            requires
                truncated == intervals as u32,
        ;
        if truncated as u64 * DECAY_RATE as u64 > u32::MAX as u64 {
            return Err(Failure::Overflow);
        }
        let total = truncated * DECAY_RATE;
        let new_score = if total >= score {
            0
        } else {
            score - total
        };
        assert(intervals * DECAY_INTERVAL <= elapsed) by (nonlinear_arith)
            requires
                intervals == elapsed / DECAY_INTERVAL,
        ;
        let anchor = last + intervals * DECAY_INTERVAL;
        let mut book = self.take_book(asset_id);
        let ghost b = book.book();
        book.score = new_score;
        book.last_update = anchor;
        proof {
            reveal(book_ok);
            assert(book.book() == decay_book(b, now));
        }
        self.put_book(book);
        proof {
            assert(self@.books =~= o.books.insert(asset_id, book.book()));
        }
        Ok(new_score)
    }

    /// An asset's maintenance history, oldest first (empty where none).
    pub fn get_maintenance_history(&self, asset_id: u64) -> (h: Vec<MaintenanceRecord>)
        requires
            self.wf(),
        ensures
            h@ == self@.book(asset_id).history,
    {
        match self.find_book(asset_id) {
            None => Vec::new(),
            Some(i) => {
                let src = &self.books[i].history;
                let mut out: Vec<MaintenanceRecord> = Vec::new();
                let mut j: usize = 0;
                while j < src.len()
                    invariant
                        j <= src@.len(),
                        out@ == src@.take(j as int),
                    decreases src@.len() - j,
                {
                    out.push(src[j].clone());
                    proof {
                        assert(out@ =~= src@.take(j + 1));
                    }
                    j = j + 1;
                }
                assert(src@.take(src@.len() as int) =~= src@);
                out
            },
        }
    }

    /// An asset's most recent maintenance record; `NoMaintenanceHistory`
    /// where its history is empty.
    pub fn get_last_service(&self, asset_id: u64) -> (r: Result<MaintenanceRecord, Failure>)
        requires
            self.wf(),
        ensures
            ({
                let h = self@.book(asset_id).history;
                if h.len() == 0 {
                    r == Err::<MaintenanceRecord, Failure>(
                        Failure::Contract(ContractError::NoMaintenanceHistory),
                    )
                } else {
                    r == Ok::<MaintenanceRecord, Failure>(h.last())
                }
            }),
    {
        match self.find_book(asset_id) {
            None => Err(Failure::Contract(ContractError::NoMaintenanceHistory)),
            Some(i) => {
                let n = self.books[i].history.len();
                if n == 0 {
                    Err(Failure::Contract(ContractError::NoMaintenanceHistory))
                } else {
                    Ok(self.books[i].history[n - 1].clone())
                }
            },
        }
    }

    /// An asset's collateral score (0 where none).
    pub fn get_collateral_score(&self, asset_id: u64) -> (score: u32)
        requires
            self.wf(),
        ensures
            score == self@.book(asset_id).score,
            score <= MAX_SCORE,
    {
        proof {
            self.lemma_books_ok();
            lemma_book_ok_facts(asset_id, self@.book(asset_id));
        }
        match self.find_book(asset_id) {
            Some(i) => self.books[i].score,
            None => 0,
        }
    }

    /// An asset's score trend: one (timestamp, score) entry per maintenance record.
    pub fn get_score_history(&self, asset_id: u64) -> (h: Vec<ScoreEntry>)
        requires
            self.wf(),
        ensures
            h@ == self@.book(asset_id).score_history,
    {
        match self.find_book(asset_id) {
            None => Vec::new(),
            Some(i) => {
                let src = &self.books[i].score_history;
                let mut out: Vec<ScoreEntry> = Vec::new();
                let mut j: usize = 0;
                while j < src.len()
                    invariant
                        j <= src@.len(),
                        out@ == src@.take(j as int),
                    decreases src@.len() - j,
                {
                    out.push(src[j]);
                    proof {
                        assert(out@ =~= src@.take(j + 1));
                    }
                    j = j + 1;
                }
                assert(src@.take(src@.len() as int) =~= src@);
                out
            },
        }
    }

    /// Whether an asset's score, with decay applied at ledger time `now`,
    /// reaches the eligibility threshold of 50. Nothing is written.
    pub fn is_collateral_eligible(&self, asset_id: u64, now: u64) -> (eligible: bool)
        requires
            self.wf(),
        ensures
            eligible == (current_score(self@.book(asset_id), now) >= ELIGIBILITY_THRESHOLD),
    {
        let (score, last) = match self.find_book(asset_id) {
            Some(i) => (self.books[i].score, self.books[i].last_update),
            None => (0, 0),
        };
        let elapsed = if now >= last {
            now - last
        } else {
            0
        };
        let intervals = elapsed / DECAY_INTERVAL;
        let truncated = intervals as u32;
        assert(truncated == intervals % 0x1_0000_0000) by (bit_vector)
            requires
                truncated == intervals as u32,
        ;
        let total = truncated as u64 * DECAY_RATE as u64;
        let current = if total >= score as u64 {
            0
        } else {
            score - total as u32
        };
        current >= ELIGIBILITY_THRESHOLD
    }

    /// Admin-only: sets the end of an engineer's credential grace period.
    /// Records the engineer signs at a time in `1..=grace_period_end` are
    /// flagged and score at half weight.
    pub fn set_credential_grace_period(
        &mut self,
        admin: Address,
        engineer: Address,
        grace_period_end: u64,
    ) -> (r: Result<(), Failure>)
        requires
            old(self).wf(),
        ensures
            final(self).wf(),
            match old(self)@.admin_refusal(admin) {
                Some(f) => r == Err::<(), Failure>(f) && final(self)@ == old(self)@,
                None => r is Ok && final(self)@ == (LifecycleView {
                    grace_periods: old(self)@.grace_periods.insert(engineer, grace_period_end),
                    ..old(self)@
                }),
            },
    {
        self.require_admin(&admin)?;
        let entry = GraceEntry { engineer, end: grace_period_end };
        match self.find_grace(&engineer) {
            None => {
                proof {
                    lemma_table_push(self.grace@, grace_key(), entry);
                }
                self.grace.push(entry);
            },
            Some(i) => {
                proof {
                    lemma_table_update(self.grace@, grace_key(), i as int, entry);
                }
                self.grace.set(i, entry);
            },
        }
        assert(self@.grace_periods =~= old(self)@.grace_periods.insert(engineer, grace_period_end));
        assert(self@.books =~= old(self)@.books);
        Ok(())
    }

    /// Admin-only: proposes deleting an asset's maintenance history at ledger
    /// time `now`, replacing any earlier proposal for the asset.
    pub fn propose_prune_asset_history(&mut self, admin: Address, asset_id: u64, now: u64) -> (r:
        Result<(), Failure>)
        requires
            old(self).wf(),
        ensures
            final(self).wf(),
            match old(self)@.propose_prune(admin, asset_id, now) {
                Ok(v) => r is Ok && final(self)@ == v,
                Err(f) => r == Err::<(), Failure>(f) && final(self)@ == old(self)@,
            },
    {
        self.require_admin(&admin)?;
        let p = PruneProposal { asset_id, proposed_at: now };
        match self.find_prune(asset_id) {
            None => {
                proof {
                    lemma_table_push(self.prunes@, prune_key(), p);
                }
                self.prunes.push(p);
            },
            Some(i) => {
                proof {
                    lemma_table_update(self.prunes@, prune_key(), i as int, p);
                }
                self.prunes.set(i, p);
            },
        }
        assert(self@.prune_proposals =~= old(self)@.prune_proposals.insert(asset_id, p));
        assert(self@.books =~= old(self)@.books);
        Ok(())
    }

    fn remove_prune(&mut self, asset_id: u64)
        requires
            old(self).wf(),
        ensures
            final(self).wf(),
            final(self)@ == (LifecycleView {
                prune_proposals: old(self)@.prune_proposals.remove(asset_id),
                ..old(self)@
            }),
    {
        match self.find_prune(asset_id) {
            None => {},
            Some(i) => {
                proof {
                    lemma_table_remove(self.prunes@, prune_key(), i as int);
                }
                self.prunes.remove(i);
            },
        }
        assert(self@.prune_proposals =~= old(self)@.prune_proposals.remove(asset_id));
        assert(self@.books =~= old(self)@.books);
    }

    /// Admin-only: withdraws a pending prune proposal, if any.
    pub fn cancel_prune_asset_history(&mut self, admin: Address, asset_id: u64) -> (r: Result<
        (),
        Failure,
    >)
        requires
            old(self).wf(),
        ensures
            final(self).wf(),
            match old(self)@.admin_refusal(admin) {
                Some(f) => r == Err::<(), Failure>(f) && final(self)@ == old(self)@,
                None => r is Ok && final(self)@ == (LifecycleView {
                    prune_proposals: old(self)@.prune_proposals.remove(asset_id),
                    ..old(self)@
                }),
            },
    {
        self.require_admin(&admin)?;
        self.remove_prune(asset_id);
        Ok(())
    }

    /// Admin-only: at ledger time `now`, once `PRUNE_TIMELOCK_SECS` have
    /// passed since the proposal, deletes the asset's maintenance history
    /// and chain head and consumes the proposal. The score, score trend and
    /// last update stay.
    pub fn execute_prune_asset_history(&mut self, admin: Address, asset_id: u64, now: u64) -> (r:
        Result<(), Failure>)
        requires
            old(self).wf(),
        ensures
            final(self).wf(),
            ({
                let o = old(self)@;
                match o.prune_refusal(admin, asset_id, now) {
                    Some(f) => r == Err::<(), Failure>(f) && final(self)@ == o,
                    None => {
                        &&& r is Ok
                        &&& final(self)@.asset_registry == o.asset_registry
                        &&& final(self)@.engineer_registry == o.engineer_registry
                        &&& final(self)@.config == o.config
                        &&& final(self)@.grace_periods == o.grace_periods
                        &&& final(self)@.prune_proposals == o.prune_proposals.remove(asset_id)
                        &&& forall|id: u64| id != asset_id ==> #[trigger] final(self)@.book(id) == o.book(id)
                        &&& final(self)@.book(asset_id) == (Book {
                            history: Seq::empty(),
                            chain_head: None,
                            ..o.book(asset_id)
                        })
                    },
                }
            }),
    {
        self.require_admin(&admin)?;
        let p = match self.find_prune(asset_id) {
            Some(i) => self.prunes[i],
            None => {
                return Err(Failure::Contract(ContractError::NoPrunePending));
            },
        };
        if p.proposed_at > u64::MAX - PRUNE_TIMELOCK_SECS {
            return Err(Failure::Overflow);
        }
        if now < p.proposed_at + PRUNE_TIMELOCK_SECS {
            return Err(Failure::Contract(ContractError::PruneTimelockNotElapsed));
        }
        let ghost o = self@;
        let mut book = self.take_book(asset_id);
        let ghost b = book.book();
        book.history = Vec::new();
        book.chain_head = None;
        proof {
            reveal(book_ok);
            reveal(chained);
            assert(book.book() =~= (Book { history: Seq::empty(), chain_head: None, ..b }));
        }
        self.put_book(book);
        let ghost mid = self@;
        proof {
            assert(mid.books =~= o.books.insert(asset_id, book.book()));
        }
        self.remove_prune(asset_id);
        Ok(())
    }

    /// Admin-only: authorizes replacing the contract code. `Ok` means the
    /// caller may install the new code; storage is unchanged.
    pub fn upgrade(&self, admin: Address) -> (r: Result<(), Failure>)
        ensures
            match self@.admin_refusal(admin) {
                None => r is Ok,
                Some(f) => r == Err::<(), Failure>(f),
            },
    {
        self.require_admin(&admin)
    }

    /// The bound asset registry, if initialized.
    pub fn asset_registry(&self) -> (r: Option<Address>)
        ensures
            r == self@.asset_registry,
    {
        self.asset_registry
    }

    /// The bound engineer registry, if initialized.
    pub fn engineer_registry(&self) -> (r: Option<Address>)
        ensures
            r == self@.engineer_registry,
    {
        self.engineer_registry
    }

    /// The configuration, if initialized.
    pub fn config(&self) -> (r: Option<Config>)
        ensures
            r == self@.config,
    {
        self.config
    }

    /// Checks that `admin` is the configured admin.
    fn require_admin(&self, admin: &Address) -> (r: Result<(), Failure>)
        ensures
            match self@.admin_refusal(*admin) {
                None => r is Ok,
                Some(f) => r == Err::<(), Failure>(f),
            },
    {
        match self.config {
            None => Err(Failure::ConfigNotSet),
            Some(c) => if c.admin.same(admin) {
                Ok(())
            } else {
                Err(Failure::Contract(ContractError::UnauthorizedAdmin))
            },
        }
    }
}

} // verus!
