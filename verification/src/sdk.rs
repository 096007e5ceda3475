//! A typed facade over an asset registry: registration, lookup and search
//! under one handle, with the registry's own contracts.
use vstd::prelude::*;

use crate::address::Address;
use crate::registry::{
    dedup_key_of, Asset, AssetRegistry, ContractError, Failure, RegistryView,
};
use crate::search::{facet_view, facets_of, selects, FacetCount, SearchFilter, SearchPage};
use crate::symbol::Symbol;

verus! {

/// A facade over an asset registry it holds.
pub struct MainstayClient {
    registry: AssetRegistry,
}

impl MainstayClient {
    /// A client over `registry`.
    pub fn new(registry: AssetRegistry) -> (c: Self)
        requires
            registry.wf(),
        ensures
            c.wf(),
            c.registry() == registry,
    {
        MainstayClient { registry }
    }

    /// The registry this client holds.
    pub closed spec fn registry(&self) -> AssetRegistry {
        self.registry
    }

    /// The client's registry satisfies its invariant.
    pub open spec fn wf(&self) -> bool {
        self.registry().wf()
    }

    /// Read access to the registry.
    pub fn registry_ref(&self) -> (r: &AssetRegistry)
        ensures
            *r == self.registry(),
    {
        &self.registry
    }

    /// Registers an asset through the registry (see
    /// `AssetRegistry::register_asset`).
    pub fn register_asset(
        &mut self,
        env: &soroban_sdk::Env,
        asset_type: Symbol,
        metadata: String,
        owner: Address,
        now: u64,
    ) -> (r: Result<u64, Failure>)
        requires
            old(self).wf(),
        ensures
            final(self).wf(),
            ({
                let o = old(self).registry()@;
                let key = dedup_key_of(owner, metadata@);
                match r {
                    Ok(id) => {
                        &&& !o.dedup.contains_key(key)
                        &&& id == o.asset_count + 1
                        &&& final(self).registry()@ == (RegistryView {
                            assets: o.assets.insert(
                                id,
                                Asset {
                                    asset_id: id,
                                    asset_type,
                                    metadata,
                                    owner,
                                    registered_at: now,
                                    locked: false,
                                },
                            ),
                            asset_count: id,
                            dedup: o.dedup.insert(key, id),
                            ..o
                        })
                    },
                    Err(f) => {
                        &&& final(self).registry()@ == o
                        &&& f == if o.dedup.contains_key(key) {
                            Failure::Contract(ContractError::DuplicateAsset)
                        } else {
                            Failure::Overflow
                        }
                        &&& o.dedup.contains_key(key) || o.asset_count == u64::MAX
                    },
                }
            }),
    {
        self.registry.register_asset(env, asset_type, metadata, owner, now)
    }

    /// Looks an asset up by id (see `AssetRegistry::get_asset`).
    pub fn get_asset(&self, asset_id: u64) -> (r: Result<Asset, ContractError>)
        requires
            self.wf(),
        ensures
            match r {
                Ok(a) => self.registry()@.assets.contains_key(asset_id) && a
                    == self.registry()@.assets[asset_id],
                Err(e) => !self.registry()@.assets.contains_key(asset_id) && e
                    == ContractError::AssetNotFound,
            },
    {
        self.registry.get_asset(asset_id)
    }

    /// Searches the registry's assets (see `AssetRegistry::search_assets`).
    pub fn search_assets(&self, filter: &SearchFilter) -> (page: SearchPage)
        ensures
            page.assets@ == self.registry().stored().filter(|a: Asset| selects(filter.asset_type, a)),
            page.total == page.assets@.len(),
            page.facets@.map_values(|f: FacetCount| facet_view(f)) == facets_of(page.assets@),
    {
        self.registry.search_assets(filter)
    }
}

} // verus!
