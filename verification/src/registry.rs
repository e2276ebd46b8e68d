//! The process-wide registry of provider instances.

use vstd::prelude::*;

use crate::settings::provider_views;
use crate::settings::ProviderInstance;
use crate::settings::ProviderView;

verus! {

/// The registry of active provider instances sourced from configuration.
/// Its contents are replaced wholesale on every resolution pass; readers
/// never observe a partially updated registry.
#[derive(Debug)]
pub struct GitHostingProviderRegistry {
    setting_providers: Vec<ProviderInstance>,
}

impl View for GitHostingProviderRegistry {
    type V = Seq<ProviderView>;

    closed spec fn view(&self) -> Seq<ProviderView> {
        provider_views(self.setting_providers@)
    }
}

impl GitHostingProviderRegistry {
    /// An empty registry: no provider instances registered yet.
    pub fn new() -> (r: Self)
        ensures
            r@ == Seq::<ProviderView>::empty(),
    {
        let r = GitHostingProviderRegistry { setting_providers: Vec::new() };
        proof {
            assert(r@ =~= Seq::<ProviderView>::empty());
        }
        r
    }

    /// Replace all previously registered configuration-sourced instances
    /// with the given ones, atomically and wholesale.
    pub fn set_setting_providers(&mut self, providers: Vec<ProviderInstance>)
        ensures
            final(self)@ == provider_views(providers@),
    {
        self.setting_providers = providers;
    }

    /// The currently registered provider instances, in registration order.
    pub fn setting_providers(&self) -> (r: &Vec<ProviderInstance>)
        ensures
            provider_views(r@) == self@,
    {
        &self.setting_providers
    }
}

} // verus!
