//! The asset registry: registration with per-owner duplicate detection,
//! ownership transfer, metadata updates, deregistration, the timelocked
//! lending-contract handover and collateral locks.
use vstd::prelude::*;

use crate::address::{same_digest, Address};
use crate::digest::{hash_metadata, metadata_digest};
use crate::search::{facet_counts, facet_view, facets_of, selects, FacetCount, SearchFilter, SearchPage};
use crate::symbol::Symbol;
use crate::table::{keys_unique, lemma_table_index, lemma_table_push, lemma_table_remove, lemma_table_update, table};

verus! {

/// Delay between proposing a lending contract and applying it: 48 hours.
pub const LENDING_TIMELOCK_SECS: u64 = 172800;

/// The registry's contract errors.
#[derive(Clone, Copy, Debug, PartialEq, Eq, Structural)]
pub enum ContractError {
    AssetNotFound,
    /// The owner already registered an asset with identical metadata.
    DuplicateAsset,
    UnauthorizedAdmin,
    UnauthorizedOwner,
    /// The caller is not the configured lending contract.
    UnauthorizedLender,
    /// The lending contract was applied before the timelock elapsed.
    LendingTimelockNotElapsed,
    /// No lending contract proposal is on file.
    NoLendingProposal,
}

impl ContractError {
    /// The error's contract code, 1 to 7 in declaration order.
    pub fn code(&self) -> (c: u32)
        ensures
            c == self.code_spec(),
    {
        match self {
            ContractError::AssetNotFound => 1,
            ContractError::DuplicateAsset => 2,
            ContractError::UnauthorizedAdmin => 3,
            ContractError::UnauthorizedOwner => 4,
            ContractError::UnauthorizedLender => 5,
            ContractError::LendingTimelockNotElapsed => 6,
            ContractError::NoLendingProposal => 7,
        }
    }

    /// The error's contract code, in specifications.
    pub open spec fn code_spec(self) -> u32 {
        match self {
            ContractError::AssetNotFound => 1u32,
            ContractError::DuplicateAsset => 2u32,
            ContractError::UnauthorizedAdmin => 3u32,
            ContractError::UnauthorizedOwner => 4u32,
            ContractError::UnauthorizedLender => 5u32,
            ContractError::LendingTimelockNotElapsed => 6u32,
            ContractError::NoLendingProposal => 7u32,
        }
    }
}

/// Input validation errors of the registry.
#[derive(Clone, Copy, Debug, PartialEq, Eq, Structural)]
pub enum Error {
    MetadataTooLong,
}

impl Error {
    /// The error's contract code.
    pub fn code(&self) -> (c: u32)
        ensures
            c == 1,
    {
        match self {
            Error::MetadataTooLong => 1,
        }
    }
}

/// Why a registry call was refused. The contract either raises one of its
/// contract errors or aborts; either way the call changes nothing.
#[derive(Clone, Copy, Debug, PartialEq, Eq, Structural)]
pub enum Failure {
    /// A contract error.
    Contract(ContractError),
    /// `initialize_admin` on a registry that already has an admin.
    AdminAlreadyInitialized,
    /// An admin-only call on a registry without an admin.
    AdminNotInitialized,
    /// `deregister_asset` of an id that holds no asset.
    AssetRecordMissing,
    /// `get_lending_contract` before any lending contract was applied.
    LendingContractNotSet,
    /// An arithmetic overflow in the contract (asset counter or timelock deadline).
    Overflow,
    /// A transfer to the asset's current owner.
    SameOwner,
    /// A transfer of an asset held as collateral.
    AssetLocked,
}

/// A registered asset.
#[derive(Debug, PartialEq, Eq)]
pub struct Asset {
    pub asset_id: u64,
    pub asset_type: Symbol,
    pub metadata: String,
    pub owner: Address,
    pub registered_at: u64,
    /// True while a lending contract holds this asset as collateral.
    pub locked: bool,
}

impl Clone for Asset {
    fn clone(&self) -> (r: Self)
        ensures
            r == *self,
    {
        Asset {
            asset_id: self.asset_id,
            asset_type: self.asset_type.clone(),
            metadata: self.metadata.clone(),
            owner: self.owner,
            registered_at: self.registered_at,
            locked: self.locked,
        }
    }
}

/// A pending proposal to change the lending contract.
#[derive(Clone, Copy, Debug, PartialEq, Eq)]
pub struct LendingContractProposal {
    pub new_contract: Address,
    pub proposed_at: u64,
}

/// A duplicate-detection key: (owner, metadata digest) and the asset it names.
#[derive(Clone, Copy)]
struct DedupEntry {
    owner: Address,
    digest: [u8; 32],
    asset_id: u64,
}

/// The registry's storage.
pub struct AssetRegistry {
    assets: Vec<Asset>,
    asset_count: u64,
    admin: Option<Address>,
    lending_contract: Option<Address>,
    lending_proposal: Option<LendingContractProposal>,
    dedup: Vec<DedupEntry>,
}

/// The registry's storage as a mathematical value.
pub struct RegistryView {
    /// The stored assets, by id.
    pub assets: Map<u64, Asset>,
    /// The number of registrations so far; the last id handed out.
    pub asset_count: u64,
    pub admin: Option<Address>,
    pub lending_contract: Option<Address>,
    pub lending_proposal: Option<LendingContractProposal>,
    /// Duplicate-detection keys: (owner, metadata digest) to asset id.
    pub dedup: Map<(Address, Seq<u8>), u64>,
}

spec fn asset_key() -> spec_fn(Asset) -> u64 {
    |a: Asset| a.asset_id
}

spec fn dedup_key() -> spec_fn(DedupEntry) -> (Address, Seq<u8>) {
    |e: DedupEntry| (e.owner, e.digest@)
}

impl View for AssetRegistry {
    type V = RegistryView;

    closed spec fn view(&self) -> RegistryView {
        RegistryView {
            assets: table(self.assets@, asset_key()),
            asset_count: self.asset_count,
            admin: self.admin,
            lending_contract: self.lending_contract,
            lending_proposal: self.lending_proposal,
            dedup: table(self.dedup@, dedup_key()).map_values(|e: DedupEntry| e.asset_id),
        }
    }
}

/// The duplicate-detection key of `owner` registering `metadata`.
pub open spec fn dedup_key_of(owner: Address, metadata: Seq<char>) -> (Address, Seq<u8>) {
    (owner, metadata_digest(metadata))
}

impl RegistryView {
    /// Every stored asset carries its own id, and every id was handed out by
    /// the counter: it lies in `1..=asset_count`.
    pub open spec fn ids_from_counter(self) -> bool {
        forall|id: u64|
            #[trigger] self.assets.contains_key(id) ==> self.assets[id].asset_id == id && 1 <= id
                <= self.asset_count
    }

    /// `admin` is the configured admin.
    pub open spec fn is_admin(self, admin: Address) -> bool {
        self.admin == Some(admin)
    }

    /// The refusal of an admin-only call by `admin`, if any.
    pub open spec fn admin_refusal(self, admin: Address) -> Option<Failure> {
        match self.admin {
            None => Some(Failure::AdminNotInitialized),
            Some(a) => if a == admin {
                None
            } else {
                Some(Failure::Contract(ContractError::UnauthorizedAdmin))
            },
        }
    }

    /// The refusal of a lending-contract-only call by `lender`, if any.
    pub open spec fn lender_refusal(self, lender: Address) -> Option<Failure> {
        if self.lending_contract == Some(lender) {
            None
        } else {
            Some(Failure::Contract(ContractError::UnauthorizedLender))
        }
    }

    /// The stored asset with id `asset_id`, or `AssetNotFound`.
    pub open spec fn lookup(self, asset_id: u64) -> Result<Asset, ContractError> {
        if self.assets.contains_key(asset_id) {
            Ok(self.assets[asset_id])
        } else {
            Err(ContractError::AssetNotFound)
        }
    }

    /// Registration of an asset of `owner` at `now`: the new storage and id.
    pub open spec fn register(
        self,
        asset_type: Symbol,
        metadata: String,
        owner: Address,
        now: u64,
    ) -> Result<(RegistryView, u64), Failure> {
        let key = dedup_key_of(owner, metadata@);
        if self.dedup.contains_key(key) {
            Err(Failure::Contract(ContractError::DuplicateAsset))
        } else if self.asset_count == u64::MAX {
            Err(Failure::Overflow)
        } else {
            let id = (self.asset_count + 1) as u64;
            Ok(
                (
                    RegistryView {
                        assets: self.assets.insert(
                            id,
                            Asset {
                                asset_id: id,
                                asset_type,
                                metadata,
                                owner,
                                registered_at: now,
                                locked: false,
                            },
                        ),
                        asset_count: id,
                        dedup: self.dedup.insert(key, id),
                        ..self
                    },
                    id,
                ),
            )
        }
    }

    /// Setting the admin.
    pub open spec fn initialize_admin(self, admin: Address) -> Result<RegistryView, Failure> {
        if self.admin is Some {
            Err(Failure::AdminAlreadyInitialized)
        } else {
            Ok(RegistryView { admin: Some(admin), ..self })
        }
    }

    /// Deregistration of an asset (its key goes with it).
    pub open spec fn deregister(self, asset_id: u64) -> Result<RegistryView, Failure> {
        if self.admin is None {
            Err(Failure::AdminNotInitialized)
        } else if !self.assets.contains_key(asset_id) {
            Err(Failure::AssetRecordMissing)
        } else {
            let a = self.assets[asset_id];
            Ok(
                RegistryView {
                    assets: self.assets.remove(asset_id),
                    dedup: self.dedup.remove(dedup_key_of(a.owner, a.metadata@)),
                    ..self
                },
            )
        }
    }

    /// The owner's metadata update.
    pub open spec fn update_metadata(self, asset_id: u64, owner: Address, new_metadata: String) -> Result<
        RegistryView,
        Failure,
    > {
        if !self.assets.contains_key(asset_id) {
            Err(Failure::Contract(ContractError::AssetNotFound))
        } else if self.assets[asset_id].owner != owner {
            Err(Failure::Contract(ContractError::UnauthorizedOwner))
        } else {
            let a = self.assets[asset_id];
            let old_key = dedup_key_of(owner, a.metadata@);
            let new_key = dedup_key_of(owner, new_metadata@);
            if self.dedup.remove(old_key).contains_key(new_key) {
                Err(Failure::Contract(ContractError::DuplicateAsset))
            } else {
                Ok(
                    RegistryView {
                        assets: self.assets.insert(asset_id, Asset { metadata: new_metadata, ..a }),
                        dedup: self.dedup.remove(old_key).insert(new_key, asset_id),
                        ..self
                    },
                )
            }
        }
    }

    /// The owner's transfer of an asset to `new_owner`: refused where the
    /// new owner is the current one or the asset is held as collateral.
    pub open spec fn transfer(self, asset_id: u64, current_owner: Address, new_owner: Address) -> Result<
        RegistryView,
        Failure,
    > {
        if !self.assets.contains_key(asset_id) {
            Err(Failure::Contract(ContractError::AssetNotFound))
        } else if self.assets[asset_id].owner != current_owner {
            Err(Failure::Contract(ContractError::UnauthorizedOwner))
        } else if new_owner == current_owner {
            Err(Failure::SameOwner)
        } else if self.assets[asset_id].locked {
            Err(Failure::AssetLocked)
        } else {
            let a = self.assets[asset_id];
            Ok(
                RegistryView {
                    assets: self.assets.insert(asset_id, Asset { owner: new_owner, ..a }),
                    dedup: self.dedup.remove(dedup_key_of(current_owner, a.metadata@)).insert(
                        dedup_key_of(new_owner, a.metadata@),
                        asset_id,
                    ),
                    ..self
                },
            )
        }
    }

    /// The admin's lending contract proposal at `now`.
    pub open spec fn propose_lending(self, admin: Address, new_contract: Address, now: u64) -> Result<
        RegistryView,
        Failure,
    > {
        match self.admin_refusal(admin) {
            Some(f) => Err(f),
            None => Ok(
                RegistryView {
                    lending_proposal: Some(LendingContractProposal { new_contract, proposed_at: now }),
                    ..self
                },
            ),
        }
    }

    /// The admin applying the pending lending contract proposal at `now`.
    pub open spec fn apply_lending(self, admin: Address, now: u64) -> Result<RegistryView, Failure> {
        match self.admin_refusal(admin) {
            Some(f) => Err(f),
            None => match self.lending_proposal {
                None => Err(Failure::Contract(ContractError::NoLendingProposal)),
                Some(p) => if p.proposed_at + LENDING_TIMELOCK_SECS > u64::MAX {
                    Err(Failure::Overflow)
                } else if now < p.proposed_at + LENDING_TIMELOCK_SECS {
                    Err(Failure::Contract(ContractError::LendingTimelockNotElapsed))
                } else {
                    Ok(
                        RegistryView {
                            lending_contract: Some(p.new_contract),
                            lending_proposal: None,
                            ..self
                        },
                    )
                },
            },
        }
    }

    /// The lending contract setting an asset's collateral lock.
    pub open spec fn set_lock(self, asset_id: u64, lender: Address, locked: bool) -> Result<
        RegistryView,
        Failure,
    > {
        match self.lender_refusal(lender) {
            Some(f) => Err(f),
            None => if !self.assets.contains_key(asset_id) {
                Err(Failure::Contract(ContractError::AssetNotFound))
            } else {
                Ok(
                    RegistryView {
                        assets: self.assets.insert(asset_id, Asset { locked, ..self.assets[asset_id] }),
                        ..self
                    },
                )
            },
        }
    }
}

/// `r` and the storage change `before` to `after` are the call outcome
/// `expected`: its new storage, or its failure with storage unchanged.
pub open spec fn outcome(
    r: Result<(), Failure>,
    expected: Result<RegistryView, Failure>,
    before: RegistryView,
    after: RegistryView,
) -> bool {
    match expected {
        Ok(v) => r is Ok && after == v,
        Err(f) => r == Err::<(), Failure>(f) && after == before,
    }
}

impl AssetRegistry {
    /// The storage invariant: ids and duplicate-detection keys are unique,
    /// and every id came from the counter.
    pub closed spec fn wf(&self) -> bool {
        &&& keys_unique(self.assets@, asset_key())
        &&& keys_unique(self.dedup@, dedup_key())
        &&& forall|i: int|
            0 <= i < self.assets@.len() ==> 1 <= #[trigger] self.assets@[i].asset_id
                <= self.asset_count
    }

    /// The storage invariant seen on the view: ids come from the counter.
    pub proof fn lemma_ids_from_counter(&self)
        requires
            self.wf(),
        ensures
            self@.ids_from_counter(),
    {
        assert forall|id: u64| #[trigger] self@.assets.contains_key(id) implies self@.assets[id].asset_id
            == id && 1 <= id <= self@.asset_count by {
            let i = choose|i: int| 0 <= i < self.assets@.len() && asset_key()(self.assets@[i]) == id;
            lemma_table_index(self.assets@, asset_key(), i);
        }
    }

    /// An empty registry: no assets, no admin, no lending contract.
    pub fn new() -> (r: AssetRegistry)
        ensures
            r.wf(),
            r@.assets == Map::<u64, Asset>::empty(),
            r@.asset_count == 0,
            r@.admin is None,
            r@.lending_contract is None,
            r@.lending_proposal is None,
            r@.dedup == Map::<(Address, Seq<u8>), u64>::empty(),
    {
        let r = AssetRegistry {
            assets: Vec::new(),
            asset_count: 0,
            admin: None,
            lending_contract: None,
            lending_proposal: None,
            dedup: Vec::new(),
        };
        assert(r@.assets =~= Map::<u64, Asset>::empty());
        assert(r@.dedup =~= Map::<(Address, Seq<u8>), u64>::empty());
        r
    }

    /// The stored assets in registration order.
    pub closed spec fn stored(&self) -> Seq<Asset> {
        self.assets@
    }

    /// Every stored asset that `filter` selects, in registration order,
    /// their number and their type facets.
    pub fn search_assets(&self, filter: &SearchFilter) -> (page: SearchPage)
        ensures
            page.assets@ == self.stored().filter(|a: Asset| selects(filter.asset_type, a)),
            page.total == page.assets@.len(),
            page.facets@.map_values(|f: FacetCount| facet_view(f)) == facets_of(page.assets@),
    {
        let ghost pred = |a: Asset| selects(filter.asset_type, a);
        let mut found: Vec<Asset> = Vec::new();
        let mut i: usize = 0;
        while i < self.assets.len()
            invariant
                i <= self.assets@.len(),
                pred == (|a: Asset| selects(filter.asset_type, a)),
                found@ == self.assets@.take(i as int).filter(pred),
            decreases self.assets@.len() - i,
        {
            proof {
                reveal_with_fuel(Seq::<_>::filter, 1);
                assert(self.assets@.take(i + 1).drop_last() =~= self.assets@.take(i as int));
                assert(self.assets@.take(i + 1).last() == self.assets@[i as int]);
            }
            let keep = match &filter.asset_type {
                None => true,
                Some(t) => {
                    let k = self.assets[i].asset_type.is(t.as_str());
                    assert(k == (self.assets@[i as int].asset_type@ == t@));
                    assert(filter.asset_type == Some(*t));
                    k
                },
            };
            assert(keep == selects(filter.asset_type, self.assets@[i as int]));
            assert(keep == pred(self.assets@[i as int]));
            if keep {
                found.push(self.assets[i].clone());
            }
            i = i + 1;
        }
        assert(self.assets@.take(self.assets@.len() as int) =~= self.assets@);
        let total = found.len() as u64;
        let facets = facet_counts(&found);
        SearchPage { assets: found, total, facets }
    }

    /// Registers an asset of `owner` at ledger time `now` and returns its id,
    /// one more than the previous count. Refused with `DuplicateAsset` where
    /// the owner already holds the duplicate-detection key of this metadata.
    pub fn register_asset(
        &mut self,
        env: &soroban_sdk::Env,
        asset_type: Symbol,
        metadata: String,
        owner: Address,
        now: u64,
    ) -> (r: Result<u64, Failure>)
        requires
            old(self).wf(),
        ensures
            final(self).wf(),
            match old(self)@.register(asset_type, metadata, owner, now) {
                Ok((v, id)) => r == Ok::<u64, Failure>(id) && final(self)@ == v,
                Err(f) => r == Err::<u64, Failure>(f) && final(self)@ == old(self)@,
            },
    {
        let digest = hash_metadata(env, &metadata);
        if self.find_dedup(&owner, &digest).is_some() {
            return Err(Failure::Contract(ContractError::DuplicateAsset));
        }
        if self.asset_count == u64::MAX {
            return Err(Failure::Overflow);
        }
        let id = self.asset_count + 1;
        let asset = Asset {
            asset_id: id,
            asset_type,
            metadata,
            owner,
            registered_at: now,
            locked: false,
        };
        proof {
            self.lemma_ids_from_counter();
            lemma_table_push(self.assets@, asset_key(), asset);
        }
        let ghost before = self@;
        self.assets.push(asset);
        self.asset_count = id;
        assert(self.wf()) by {
            assert forall|i: int| 0 <= i < self.assets@.len() implies 1 <= #[trigger] self.assets@[i].asset_id
                <= self.asset_count by {
                if i < self.assets@.len() - 1 {
                    assert(self.assets@[i] == old(self).assets@[i]);
                }
            }
        }
        self.dedup_set(&owner, &digest, id);
        Ok(id)
    }

    /// The asset with id `asset_id`; `AssetNotFound` where there is none.
    pub fn get_asset(&self, asset_id: u64) -> (r: Result<Asset, ContractError>)
        requires
            self.wf(),
        ensures
            r == self@.lookup(asset_id),
    {
        match self.find_asset(asset_id) {
            Some(i) => Ok(self.assets[i].clone()),
            None => Err(ContractError::AssetNotFound),
        }
    }

    /// The number of registrations so far.
    pub fn asset_count(&self) -> (n: u64)
        ensures
            n == self@.asset_count,
    {
        self.asset_count
    }

    /// Sets the admin; refused where an admin is already set.
    pub fn initialize_admin(&mut self, admin: Address) -> (r: Result<(), Failure>)
        requires
            old(self).wf(),
        ensures
            final(self).wf(),
            outcome(r, old(self)@.initialize_admin(admin), old(self)@, final(self)@),
    {
        if self.admin.is_some() {
            return Err(Failure::AdminAlreadyInitialized);
        }
        self.admin = Some(admin);
        Ok(())
    }

    /// The admin; `AdminNotInitialized` where none is set.
    pub fn get_admin(&self) -> (r: Result<Address, Failure>)
        ensures
            match self@.admin {
                Some(a) => r == Ok::<Address, Failure>(a),
                None => r == Err::<Address, Failure>(Failure::AdminNotInitialized),
            },
    {
        match self.admin {
            Some(a) => Ok(a),
            None => Err(Failure::AdminNotInitialized),
        }
    }

    /// Checks that `admin` is the configured admin.
    fn require_admin(&self, admin: &Address) -> (r: Result<(), Failure>)
        ensures
            match self@.admin_refusal(*admin) {
                None => r is Ok,
                Some(f) => r == Err::<(), Failure>(f),
            },
    {
        match self.admin {
            None => Err(Failure::AdminNotInitialized),
            Some(a) => if a.same(admin) {
                Ok(())
            } else {
                Err(Failure::Contract(ContractError::UnauthorizedAdmin))
            },
        }
    }

    /// Admin-only (the admin's signature is checked by the host): removes an
    /// asset and its duplicate-detection key. The counter is not decreased.
    pub fn deregister_asset(&mut self, env: &soroban_sdk::Env, asset_id: u64) -> (r: Result<
        (),
        Failure,
    >)
        requires
            old(self).wf(),
        ensures
            final(self).wf(),
            outcome(r, old(self)@.deregister(asset_id), old(self)@, final(self)@),
    {
        if self.admin.is_none() {
            return Err(Failure::AdminNotInitialized);
        }
        let i = match self.find_asset(asset_id) {
            Some(i) => i,
            None => {
                return Err(Failure::AssetRecordMissing);
            },
        };
        let owner = self.assets[i].owner;
        let digest = hash_metadata(env, &self.assets[i].metadata);
        proof {
            lemma_table_remove(self.assets@, asset_key(), i as int);
        }
        self.assets.remove(i);
        assert(self.wf()) by {
            assert forall|j: int| 0 <= j < self.assets@.len() implies 1 <= #[trigger] self.assets@[j].asset_id
                <= self.asset_count by {
                let k = if j < i { j } else { j + 1 };
                assert(self.assets@[j] == old(self).assets@[k]);
            }
        }
        self.dedup_remove(&owner, &digest);
        Ok(())
    }

    /// Owner-only: replaces an asset's metadata and moves its
    /// duplicate-detection key to the new metadata. Refused with
    /// `DuplicateAsset` where the owner holds the new key for another entry.
    pub fn update_asset_metadata(
        &mut self,
        env: &soroban_sdk::Env,
        asset_id: u64,
        owner: Address,
        new_metadata: String,
    ) -> (r: Result<(), Failure>)
        requires
            old(self).wf(),
        ensures
            final(self).wf(),
            outcome(
                r,
                old(self)@.update_metadata(asset_id, owner, new_metadata),
                old(self)@,
                final(self)@,
            ),
    {
        let i = match self.find_asset(asset_id) {
            Some(i) => i,
            None => {
                return Err(Failure::Contract(ContractError::AssetNotFound));
            },
        };
        if !self.assets[i].owner.same(&owner) {
            return Err(Failure::Contract(ContractError::UnauthorizedOwner));
        }
        let old_digest = hash_metadata(env, &self.assets[i].metadata);
        let new_digest = hash_metadata(env, &new_metadata);
        if self.find_dedup(&owner, &new_digest).is_some() && !same_digest(&old_digest, &new_digest) {
            proof {
                if old_digest@ == new_digest@ {
                    assert(old_digest =~= new_digest);
                }
            }
            return Err(Failure::Contract(ContractError::DuplicateAsset));
        }
        proof {
            if old_digest == new_digest {
                assert(old_digest@ == new_digest@);
            }
        }
        let mut asset = self.assets[i].clone();
        asset.metadata = new_metadata;
        self.dedup_remove(&owner, &old_digest);
        self.dedup_set(&owner, &new_digest, asset_id);
        proof {
            lemma_table_index(self.assets@, asset_key(), i as int);
            lemma_table_update(self.assets@, asset_key(), i as int, asset);
        }
        self.assets.set(i, asset);
        assert(self.wf()) by {
            assert forall|j: int| 0 <= j < self.assets@.len() implies 1 <= #[trigger] self.assets@[j].asset_id
                <= self.asset_count by {
                if j != i {
                    assert(self.assets@[j] == old(self).assets@[j]);
                } else {
                    assert(self.assets@[j].asset_id == old(self).assets@[j].asset_id);
                }
            }
        }
        Ok(())
    }

    /// Owner-only: hands an asset to `new_owner`, moving its
    /// duplicate-detection key along. Refused with `SameOwner` where
    /// `new_owner` is the current owner and with `AssetLocked` while the
    /// asset is held as collateral.
    pub fn transfer_asset(
        &mut self,
        env: &soroban_sdk::Env,
        asset_id: u64,
        current_owner: Address,
        new_owner: Address,
    ) -> (r: Result<(), Failure>)
        requires
            old(self).wf(),
        ensures
            final(self).wf(),
            outcome(
                r,
                old(self)@.transfer(asset_id, current_owner, new_owner),
                old(self)@,
                final(self)@,
            ),
    {
        let i = match self.find_asset(asset_id) {
            Some(i) => i,
            None => {
                return Err(Failure::Contract(ContractError::AssetNotFound));
            },
        };
        if !self.assets[i].owner.same(&current_owner) {
            return Err(Failure::Contract(ContractError::UnauthorizedOwner));
        }
        if new_owner.same(&current_owner) {
            return Err(Failure::SameOwner);
        }
        if self.assets[i].locked {
            return Err(Failure::AssetLocked);
        }
        let digest = hash_metadata(env, &self.assets[i].metadata);
        let mut asset = self.assets[i].clone();
        asset.owner = new_owner;
        self.dedup_remove(&current_owner, &digest);
        self.dedup_set(&new_owner, &digest, asset_id);
        proof {
            lemma_table_index(self.assets@, asset_key(), i as int);
            lemma_table_update(self.assets@, asset_key(), i as int, asset);
        }
        self.assets.set(i, asset);
        assert(self.wf()) by {
            assert forall|j: int| 0 <= j < self.assets@.len() implies 1 <= #[trigger] self.assets@[j].asset_id
                <= self.asset_count by {
                if j != i {
                    assert(self.assets@[j] == old(self).assets@[j]);
                } else {
                    assert(self.assets@[j].asset_id == old(self).assets@[j].asset_id);
                }
            }
        }
        Ok(())
    }

    /// Admin-only: proposes `new_contract` as the lending contract at ledger
    /// time `now`, replacing any earlier proposal.
    pub fn propose_lending_contract(&mut self, admin: Address, new_contract: Address, now: u64) -> (r:
        Result<(), Failure>)
        requires
            old(self).wf(),
        ensures
            final(self).wf(),
            outcome(r, old(self)@.propose_lending(admin, new_contract, now), old(self)@, final(self)@),
    {
        self.require_admin(&admin)?;
        self.lending_proposal = Some(LendingContractProposal { new_contract, proposed_at: now });
        Ok(())
    }

    /// Admin-only: applies the pending proposal at ledger time `now`, once
    /// `LENDING_TIMELOCK_SECS` have passed since it was made.
    pub fn set_lending_contract(&mut self, admin: Address, now: u64) -> (r: Result<(), Failure>)
        requires
            old(self).wf(),
        ensures
            final(self).wf(),
            outcome(r, old(self)@.apply_lending(admin, now), old(self)@, final(self)@),
    {
        self.require_admin(&admin)?;
        let proposal = match self.lending_proposal {
            Some(p) => p,
            None => {
                return Err(Failure::Contract(ContractError::NoLendingProposal));
            },
        };
        if proposal.proposed_at > u64::MAX - LENDING_TIMELOCK_SECS {
            return Err(Failure::Overflow);
        }
        if now < proposal.proposed_at + LENDING_TIMELOCK_SECS {
            return Err(Failure::Contract(ContractError::LendingTimelockNotElapsed));
        }
        self.lending_contract = Some(proposal.new_contract);
        self.lending_proposal = None;
        Ok(())
    }

    /// The applied lending contract; `LendingContractNotSet` where none is.
    pub fn get_lending_contract(&self) -> (r: Result<Address, Failure>)
        ensures
            match self@.lending_contract {
                Some(a) => r == Ok::<Address, Failure>(a),
                None => r == Err::<Address, Failure>(Failure::LendingContractNotSet),
            },
    {
        match self.lending_contract {
            Some(a) => Ok(a),
            None => Err(Failure::LendingContractNotSet),
        }
    }

    /// Checks that `lender` is the applied lending contract.
    fn require_lending_contract(&self, lender: &Address) -> (r: Result<(), Failure>)
        ensures
            match self@.lender_refusal(*lender) {
                None => r is Ok,
                Some(f) => r == Err::<(), Failure>(f),
            },
    {
        match self.lending_contract {
            Some(c) => if c.same(lender) {
                Ok(())
            } else {
                Err(Failure::Contract(ContractError::UnauthorizedLender))
            },
            None => Err(Failure::Contract(ContractError::UnauthorizedLender)),
        }
    }

    /// Sets an asset's collateral lock, for the lending contract only.
    fn set_locked(&mut self, asset_id: u64, lender: Address, locked: bool) -> (r: Result<(), Failure>)
        requires
            old(self).wf(),
        ensures
            final(self).wf(),
            outcome(r, old(self)@.set_lock(asset_id, lender, locked), old(self)@, final(self)@),
    {
        self.require_lending_contract(&lender)?;
        let i = match self.find_asset(asset_id) {
            Some(i) => i,
            None => {
                return Err(Failure::Contract(ContractError::AssetNotFound));
            },
        };
        let mut asset = self.assets[i].clone();
        asset.locked = locked;
        proof {
            lemma_table_update(self.assets@, asset_key(), i as int, asset);
        }
        self.assets.set(i, asset);
        assert(self.wf()) by {
            assert forall|j: int| 0 <= j < self.assets@.len() implies 1 <= #[trigger] self.assets@[j].asset_id
                <= self.asset_count by {
                if j != i {
                    assert(self.assets@[j] == old(self).assets@[j]);
                } else {
                    assert(self.assets@[j].asset_id == old(self).assets@[j].asset_id);
                }
            }
        }
        Ok(())
    }

    /// Lending-contract-only: marks an asset as locked collateral.
    pub fn lock_asset_as_collateral(&mut self, asset_id: u64, lender: Address) -> (r: Result<
        (),
        Failure,
    >)
        requires
            old(self).wf(),
        ensures
            final(self).wf(),
            outcome(r, old(self)@.set_lock(asset_id, lender, true), old(self)@, final(self)@),
    {
        self.set_locked(asset_id, lender, true)
    }

    /// Lending-contract-only: releases an asset from its collateral lock.
    pub fn unlock_asset(&mut self, asset_id: u64, lender: Address) -> (r: Result<(), Failure>)
        requires
            old(self).wf(),
        ensures
            final(self).wf(),
            outcome(r, old(self)@.set_lock(asset_id, lender, false), old(self)@, final(self)@),
    {
        self.set_locked(asset_id, lender, false)
    }

    /// Admin-only: authorizes replacing the contract code. `Ok` means the
    /// caller may install the new code; the registry's storage is unchanged.
    pub fn upgrade(&self, admin: Address) -> (r: Result<(), Failure>)
        ensures
            match self@.admin_refusal(admin) {
                None => r is Ok,
                Some(f) => r == Err::<(), Failure>(f),
            },
    {
        self.require_admin(&admin)
    }

    fn find_asset(&self, asset_id: u64) -> (r: Option<usize>)
        requires
            self.wf(),
        ensures
            r is None ==> !self@.assets.contains_key(asset_id),
            r matches Some(i) ==> i < self.assets@.len() && self.assets@[i as int].asset_id == asset_id
                && self@.assets.contains_key(asset_id) && self@.assets[asset_id] == self.assets@[i as int],
    {
        let mut i: usize = 0;
        while i < self.assets.len()
            invariant
                self.wf(),
                i <= self.assets@.len(),
                forall|j: int| 0 <= j < i ==> self.assets@[j].asset_id != asset_id,
            decreases self.assets@.len() - i,
        {
            if self.assets[i].asset_id == asset_id {
                proof {
                    lemma_table_index(self.assets@, asset_key(), i as int);
                }
                return Some(i);
            }
            i = i + 1;
        }
        proof {
            if self@.assets.contains_key(asset_id) {
                let j = choose|j: int| 0 <= j < self.assets@.len() && asset_key()(self.assets@[j]) == asset_id;
                assert(self.assets@[j].asset_id == asset_id);
            }
        }
        None
    }

    fn find_dedup(&self, owner: &Address, digest: &[u8; 32]) -> (r: Option<usize>)
        requires
            self.wf(),
        ensures
            r is None ==> !self@.dedup.contains_key((*owner, digest@)),
            r matches Some(i) ==> i < self.dedup@.len() && self.dedup@[i as int].owner == *owner
                && self.dedup@[i as int].digest == *digest && self@.dedup.contains_key((*owner, digest@))
                && self@.dedup[(*owner, digest@)] == self.dedup@[i as int].asset_id,
    {
        let mut i: usize = 0;
        while i < self.dedup.len()
            invariant
                self.wf(),
                i <= self.dedup@.len(),
                forall|j: int| 0 <= j < i ==> dedup_key()(#[trigger] self.dedup@[j]) != (*owner, digest@),
            decreases self.dedup@.len() - i,
        {
            let e = self.dedup[i];
            if e.owner.same(owner) && same_digest(&e.digest, digest) {
                proof {
                    lemma_table_index(self.dedup@, dedup_key(), i as int);
                }
                return Some(i);
            }
            proof {
                if dedup_key()(self.dedup@[i as int]) == (*owner, digest@) {
                    assert(e.digest@ == digest@);
                    assert(e.digest =~= *digest);
                }
            }
            i = i + 1;
        }
        proof {
            if table(self.dedup@, dedup_key()).dom().contains((*owner, digest@)) {
                let j = choose|j: int| 0 <= j < self.dedup@.len() && dedup_key()(self.dedup@[j]) == (*owner, digest@);
                assert(dedup_key()(self.dedup@[j]) != (*owner, digest@));
            }
        }
        None
    }

    /// Removes the duplicate-detection key (owner, digest), if present.
    fn dedup_remove(&mut self, owner: &Address, digest: &[u8; 32])
        requires
            old(self).wf(),
        ensures
            final(self).wf(),
            final(self).assets@ == old(self).assets@,
            final(self)@ == (RegistryView {
                dedup: old(self)@.dedup.remove((*owner, digest@)),
                ..old(self)@
            }),
    {
        match self.find_dedup(owner, digest) {
            None => {
                assert(self@.dedup =~= old(self)@.dedup.remove((*owner, digest@)));
            },
            Some(i) => {
                proof {
                    lemma_table_remove(self.dedup@, dedup_key(), i as int);
                }
                self.dedup.remove(i);
                assert(self@.dedup =~= old(self)@.dedup.remove((*owner, digest@)));
            },
        }
    }

    /// Sets the duplicate-detection key (owner, digest) to `asset_id`.
    fn dedup_set(&mut self, owner: &Address, digest: &[u8; 32], asset_id: u64)
        requires
            old(self).wf(),
        ensures
            final(self).wf(),
            final(self).assets@ == old(self).assets@,
            final(self)@ == (RegistryView {
                dedup: old(self)@.dedup.insert((*owner, digest@), asset_id),
                ..old(self)@
            }),
    {
        let entry = DedupEntry { owner: *owner, digest: *digest, asset_id };
        assert(dedup_key()(entry) == (*owner, digest@));
        match self.find_dedup(owner, digest) {
            None => {
                proof {
                    lemma_table_push(self.dedup@, dedup_key(), entry);
                }
                self.dedup.push(entry);
            },
            Some(i) => {
                proof {
                    lemma_table_update(self.dedup@, dedup_key(), i as int, entry);
                }
                self.dedup.set(i, entry);
            },
        }
        assert(self@.dedup =~= old(self)@.dedup.insert((*owner, digest@), asset_id));
    }
}

} // verus!
