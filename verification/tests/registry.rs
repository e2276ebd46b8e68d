use git_hosting_providers::registry::GitHostingProviderRegistry;
use git_hosting_providers::settings::ProviderInstance;
use git_hosting_providers::settings::GitHostingProviderKind;

fn instance(kind: GitHostingProviderKind, name: &str, base_url: &str) -> ProviderInstance {
    ProviderInstance {
        provider: kind,
        name: name.to_string(),
        base_url: base_url.to_string(),
    }
}

#[test]
fn new_registry_is_empty() {
    let registry = GitHostingProviderRegistry::new();
    assert!(registry.setting_providers().is_empty());
}

#[test]
fn set_setting_providers_replaces_wholesale() {
    let mut registry = GitHostingProviderRegistry::new();
    registry.set_setting_providers(vec![
        instance(GitHostingProviderKind::Github, "GH", "https://github.com/"),
        instance(GitHostingProviderKind::Gitlab, "GL", "https://gitlab.com/"),
    ]);
    assert_eq!(registry.setting_providers().len(), 2);

    registry.set_setting_providers(vec![instance(
        GitHostingProviderKind::Bitbucket,
        "BB",
        "https://bitbucket.org/",
    )]);
    let providers = registry.setting_providers();
    assert_eq!(providers.len(), 1);
    assert_eq!(providers[0].name, "BB");
    assert_eq!(providers[0].provider, GitHostingProviderKind::Bitbucket);
}
