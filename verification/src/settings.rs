//! Provider declarations read from layered settings, and the resolver that
//! turns them into live provider instances.

use vstd::prelude::*;

verus! {

/// The kind of a git hosting provider.
#[derive(Debug, Clone, Copy, PartialEq, Eq, Structural)]
pub enum GitHostingProviderKind {
    Github,
    Gitlab,
    Bitbucket,
}

/// A custom git hosting provider, as declared in configuration.
#[derive(Debug)]
pub struct GitHostingProviderConfig {
    /// The type of the provider.
    pub provider: GitHostingProviderKind,
    /// The base URL for the provider (e.g., "https://code.corp.big.com").
    pub base_url: String,
    /// The display name for the provider (e.g., "BigCorp GitHub").
    pub name: String,
}

impl GitHostingProviderConfig {
    /// A copy of this declaration, equal to it.
    pub fn cloned(&self) -> (r: Self)
        ensures
            r == *self,
    {
        GitHostingProviderConfig {
            provider: self.provider,
            base_url: self.base_url.clone(),
            name: self.name.clone(),
        }
    }
}

/// One settings scope's list of custom git hosting providers.
#[derive(Debug)]
pub struct GitHostingProviderSettings {
    /// The list of custom git hosting providers.
    pub git_hosting_providers: Vec<GitHostingProviderConfig>,
}

/// The URL that a base-URL string parses to, in serialized form, or `None`
/// where the string is not a valid URL.
pub uninterp spec fn parsed_url(s: Seq<char>) -> Option<Seq<char>>;

/// Relies on `url::Url::parse`: whether a string parses as a URL, and what the
/// parsed URL serializes to through `String::from`, depend on the characters
/// of the string alone.
#[verifier::external_body]
fn parse_base_url(s: &str) -> (r: Option<String>)
    ensures
        r is Some <==> parsed_url(s@) is Some,
        (r matches Some(u) ==> parsed_url(s@) == Some(u@)),
{
    match url::Url::parse(s) {
        Ok(u) => Some(String::from(u)),
        Err(_) => None,
    }
}

/// A constructed provider instance: a display name and a validated base URL,
/// tagged by kind. Owned by the registry after construction.
#[derive(Debug, PartialEq)]
pub struct ProviderInstance {
    /// The kind of the provider this instance was constructed for.
    pub provider: GitHostingProviderKind,
    /// The display name of the provider.
    pub name: String,
    /// The validated base URL, in serialized form.
    pub base_url: String,
}

/// The mathematical value of a provider instance.
#[verifier::ext_equal]
pub ghost struct ProviderView {
    /// The kind of the provider.
    pub provider: GitHostingProviderKind,
    /// The characters of the display name.
    pub name: Seq<char>,
    /// The characters of the serialized base URL.
    pub base_url: Seq<char>,
}

impl View for ProviderInstance {
    type V = ProviderView;

    open spec fn view(&self) -> ProviderView {
        ProviderView { provider: self.provider, name: self.name@, base_url: self.base_url@ }
    }
}

/// The values of a sequence of provider instances.
pub open spec fn provider_views(ps: Seq<ProviderInstance>) -> Seq<ProviderView> {
    ps.map_values(|p: ProviderInstance| p@)
}

/// The provider instance that a single declaration resolves to, or `None`
/// where its base URL does not parse.
pub open spec fn resolve_one(c: GitHostingProviderConfig) -> Option<ProviderView> {
    match parsed_url(c.base_url@) {
        Some(u) => Some(ProviderView { provider: c.provider, name: c.name@, base_url: u }),
        None => None,
    }
}

/// The sequence of provider instances that a list of declarations resolves
/// to: each entry's instance in declaration order, entries with unparseable
/// base URLs dropped.
pub open spec fn resolve_configs(cs: Seq<GitHostingProviderConfig>) -> Seq<ProviderView>
    decreases cs.len(),
{
    if cs.len() == 0 {
        Seq::empty()
    } else {
        match resolve_one(cs[0]) {
            Some(p) => seq![p] + resolve_configs(cs.drop_first()),
            None => resolve_configs(cs.drop_first()),
        }
    }
}

/// Resolve a single declaration: parse its base URL and construct the
/// kind-specific instance, or report `None` where the URL does not parse.
pub fn resolve_config(c: &GitHostingProviderConfig) -> (r: Option<ProviderInstance>)
    ensures
        r is Some <==> resolve_one(*c) is Some,
        (r matches Some(p) ==> resolve_one(*c) == Some(p@)),
{
    match parse_base_url(c.base_url.as_str()) {
        Some(url) => Some(ProviderInstance {
            provider: c.provider,
            name: c.name.clone(),
            base_url: url,
        }),
        None => None,
    }
}

/// Resolve a list of declarations in order: construct an instance for each
/// entry whose base URL parses, and drop the entries whose base URL does not,
/// without aborting the pass.
pub fn resolve_providers(configs: &Vec<GitHostingProviderConfig>) -> (r: Vec<ProviderInstance>)
    ensures
        provider_views(r@) == resolve_configs(configs@),
{
    let mut out: Vec<ProviderInstance> = Vec::new();
    let mut i: usize = 0;
    proof {
        assert(configs@.skip(0) =~= configs@);
        assert(provider_views(out@) =~= Seq::<ProviderView>::empty());
        assert(provider_views(out@) + resolve_configs(configs@.skip(0)) =~= resolve_configs(
            configs@,
        ));
    }
    while i < configs.len()
        invariant
            i <= configs@.len(),
            provider_views(out@) + resolve_configs(configs@.skip(i as int)) == resolve_configs(
                configs@,
            ),
        decreases configs@.len() - i,
    {
        let ghost prev = out@;
        let ghost rest = configs@.skip(i as int);
        proof {
            assert(rest[0] == configs@[i as int]);
            assert(rest.drop_first() =~= configs@.skip(i as int + 1));
        }
        match resolve_config(&configs[i]) {
            Some(p) => {
                out.push(p);
                proof {
                    assert(provider_views(out@) =~= provider_views(prev).push(p@));
                    assert(resolve_configs(rest) == seq![p@] + resolve_configs(rest.drop_first()));
                    assert(provider_views(prev).push(p@) + resolve_configs(
                        configs@.skip(i as int + 1),
                    ) =~= provider_views(prev) + resolve_configs(rest));
                }
            },
            None => {
                proof {
                    assert(resolve_configs(rest) == resolve_configs(rest.drop_first()));
                }
            },
        }
        i = i + 1;
    }
    proof {
        assert(configs@.skip(configs@.len() as int) =~= Seq::<GitHostingProviderConfig>::empty());
        assert(resolve_configs(Seq::<GitHostingProviderConfig>::empty()) =~= Seq::<
            ProviderView,
        >::empty());
        assert(provider_views(out@) + Seq::<ProviderView>::empty() =~= provider_views(out@));
    }
    out
}

/// All local-scope declarations, concatenated in scope order.
pub open spec fn local_configs(locals: Seq<GitHostingProviderSettings>) -> Seq<
    GitHostingProviderConfig,
>
    decreases locals.len(),
{
    if locals.len() == 0 {
        Seq::empty()
    } else {
        locals[0].git_hosting_providers@ + local_configs(locals.drop_first())
    }
}

/// The merged configuration: the global declarations first, then every
/// local-scope declaration, concatenated in scope order. Local entries do not
/// override or deduplicate global ones.
pub open spec fn merged_configs(
    global: Seq<GitHostingProviderConfig>,
    locals: Seq<GitHostingProviderSettings>,
) -> Seq<GitHostingProviderConfig> {
    global + local_configs(locals)
}

/// Concatenate the global declaration list and every local-scope list, in
/// declaration order.
pub fn merge_configs(
    global: &Vec<GitHostingProviderConfig>,
    locals: &Vec<GitHostingProviderSettings>,
) -> (r: Vec<GitHostingProviderConfig>)
    ensures
        r@ == merged_configs(global@, locals@),
{
    let mut merged: Vec<GitHostingProviderConfig> = Vec::new();
    let mut i: usize = 0;
    proof {
        assert(merged@ =~= global@.take(0));
    }
    while i < global.len()
        invariant
            i <= global@.len(),
            merged@ == global@.take(i as int),
        decreases global@.len() - i,
    {
        merged.push(global[i].cloned());
        proof {
            assert(merged@ =~= global@.take(i as int + 1));
        }
        i = i + 1;
    }
    proof {
        assert(global@.take(global@.len() as int) =~= global@);
    }
    let mut j: usize = 0;
    proof {
        assert(locals@.skip(0) =~= locals@);
    }
    while j < locals.len()
        invariant
            j <= locals@.len(),
            merged@ + local_configs(locals@.skip(j as int)) == merged_configs(global@, locals@),
        decreases locals@.len() - j,
    {
        let ghost base = merged@;
        let ghost rest = locals@.skip(j as int);
        proof {
            assert(rest[0] == locals@[j as int]);
            assert(rest.drop_first() =~= locals@.skip(j as int + 1));
        }
        let scope = &locals[j].git_hosting_providers;
        let mut k: usize = 0;
        proof {
            assert(merged@ =~= base + scope@.take(0));
        }
        while k < scope.len()
            invariant
                k <= scope@.len(),
                merged@ == base + scope@.take(k as int),
            decreases scope@.len() - k,
        {
            merged.push(scope[k].cloned());
            proof {
                assert(merged@ =~= base + scope@.take(k as int + 1));
            }
            k = k + 1;
        }
        proof {
            assert(scope@.take(scope@.len() as int) =~= scope@);
            assert(local_configs(rest) == scope@ + local_configs(rest.drop_first()));
            assert((base + scope@) + local_configs(locals@.skip(j as int + 1)) =~= base
                + local_configs(rest));
        }
        j = j + 1;
    }
    proof {
        assert(locals@.skip(locals@.len() as int) =~= Seq::<GitHostingProviderSettings>::empty());
        assert(local_configs(Seq::<GitHostingProviderSettings>::empty()) =~= Seq::<
            GitHostingProviderConfig,
        >::empty());
        assert(merged@ + Seq::<GitHostingProviderConfig>::empty() =~= merged@);
    }
    merged
}

/// Re-derive the provider registry from the current configuration: merge the
/// global and local declaration lists, resolve them, and replace the
/// registry's contents wholesale with the result.
pub fn update_git_hosting_providers_from_settings(
    registry: &mut crate::registry::GitHostingProviderRegistry,
    settings: &GitHostingProviderSettings,
    local_settings: &Vec<GitHostingProviderSettings>,
)
    ensures
        final(registry)@ == resolve_configs(
            merged_configs(settings.git_hosting_providers@, local_settings@),
        ),
{
    let merged = merge_configs(&settings.git_hosting_providers, local_settings);
    let providers = resolve_providers(&merged);
    registry.set_setting_providers(providers);
}

/// Determinism: resolving the same configuration list twice, with no change
/// in between, yields element-wise identical registry contents.
pub proof fn lemma_resolution_deterministic(
    cs: Seq<GitHostingProviderConfig>,
    first: Seq<ProviderView>,
    second: Seq<ProviderView>,
)
    requires
        first == resolve_configs(cs),
        second == resolve_configs(cs),
    ensures
        first == second,
        first.len() == second.len(),
        forall|i: int| 0 <= i < first.len() ==> first[i] == second[i],
{
}

/// Resolution distributes over concatenation of declaration lists: the
/// instances of the first list come first, in order, then those of the
/// second. In particular, global entries precede local ones in the registry.
pub proof fn lemma_resolve_configs_concat(
    a: Seq<GitHostingProviderConfig>,
    b: Seq<GitHostingProviderConfig>,
)
    ensures
        resolve_configs(a + b) == resolve_configs(a) + resolve_configs(b),
    decreases a.len(),
{
    if a.len() == 0 {
        assert(a + b =~= b);
        assert(resolve_configs(a) =~= Seq::<ProviderView>::empty());
        assert(resolve_configs(a) + resolve_configs(b) =~= resolve_configs(b));
    } else {
        assert((a + b).len() > 0);
        assert((a + b)[0] == a[0]);
        assert((a + b).drop_first() =~= a.drop_first() + b);
        lemma_resolve_configs_concat(a.drop_first(), b);
        match resolve_one(a[0]) {
            Some(p) => {
                assert(seq![p] + (resolve_configs(a.drop_first()) + resolve_configs(b)) =~= (
                seq![p] + resolve_configs(a.drop_first())) + resolve_configs(b));
            },
            None => {},
        }
    }
}

/// Order preservation: the registry derived from a merged configuration holds
/// the instances of the global entries first, then those of the local-scope
/// entries, each group in declaration order.
pub proof fn lemma_resolution_preserves_order(
    global: Seq<GitHostingProviderConfig>,
    locals: Seq<GitHostingProviderSettings>,
)
    ensures
        resolve_configs(merged_configs(global, locals)) == resolve_configs(global)
            + resolve_configs(local_configs(locals)),
{
    lemma_resolve_configs_concat(global, local_configs(locals));
}

/// An entry whose base URL does not parse never blocks the others: the
/// resolved contents equal those of the same list with that entry removed.
pub proof fn lemma_invalid_entry_skipped(cs: Seq<GitHostingProviderConfig>, i: int)
    requires
        0 <= i < cs.len(),
        resolve_one(cs[i]) is None,
    ensures
        resolve_configs(cs) == resolve_configs(cs.remove(i)),
    decreases i,
{
    if i == 0 {
        assert(cs.remove(0) =~= cs.drop_first());
    } else {
        lemma_invalid_entry_skipped(cs.drop_first(), i - 1);
        assert(cs.remove(i).len() > 0);
        assert(cs.remove(i)[0] == cs[0]);
        assert(cs.remove(i).drop_first() =~= cs.drop_first().remove(i - 1));
    }
}

/// Every entry whose base URL parses appears in the resolved contents,
/// whatever the other entries hold.
pub proof fn lemma_valid_entry_included(cs: Seq<GitHostingProviderConfig>, i: int)
    requires
        0 <= i < cs.len(),
        resolve_one(cs[i]) is Some,
    ensures
        resolve_configs(cs).contains(resolve_one(cs[i]).unwrap()),
    decreases i,
{
    let p = resolve_one(cs[i]).unwrap();
    if i == 0 {
        assert(resolve_configs(cs)[0] == p);
    } else {
        lemma_valid_entry_included(cs.drop_first(), i - 1);
        let rest = resolve_configs(cs.drop_first());
        let j = choose|j: int| 0 <= j < rest.len() && rest[j] == p;
        match resolve_one(cs[0]) {
            Some(_) => {
                assert(resolve_configs(cs)[j + 1] == p);
            },
            None => {
                assert(resolve_configs(cs)[j] == p);
            },
        }
    }
}

} // verus!
