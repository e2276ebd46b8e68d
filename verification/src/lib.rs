//! Settings-driven management of git hosting providers, plus small pieces of
//! pure UI state: collapsing long breadcrumb paths and selecting a diff view
//! format.
//!
//! The core of the crate is the provider config resolver: it merges a global
//! provider list with any number of local-scope lists, parses each entry's
//! base URL, drops entries whose URL does not parse, and replaces the contents
//! of a [`registry::GitHostingProviderRegistry`] wholesale with the result.

pub mod breadcrumbs;
pub mod format_selector;
pub mod registry;
pub mod settings;
