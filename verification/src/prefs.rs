use vstd::prelude::*;

verus! {

/// The launcher's settings. Missing settings take their default values.
#[derive(Debug, Clone)]
pub struct Preferences {
    pub show_installed_only: bool,
    pub delete_appx_after_download: bool,
    pub versions_api_uwp: String,
    pub versions_api_gdk: String,
    pub has_previously_used_gdk: bool,
    pub show_legacy_beta_tab: bool,
}

impl Default for Preferences {
    /// Everything off but deleting packages after download; no custom databases.
    fn default() -> (r: Self)
        ensures
            !r.show_installed_only,
            r.delete_appx_after_download,
            r.versions_api_uwp@.len() == 0,
            r.versions_api_gdk@.len() == 0,
            !r.has_previously_used_gdk,
            !r.show_legacy_beta_tab,
    {
        Preferences {
            show_installed_only: false,
            delete_appx_after_download: true,
            versions_api_uwp: String::new(),
            versions_api_gdk: String::new(),
            has_previously_used_gdk: false,
            show_legacy_beta_tab: false,
        }
    }
}

} // verus!
