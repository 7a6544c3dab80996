//! Version catalogue, download request and launcher logic of a Minecraft
//! Bedrock launcher, with the contracts that the code is proved against.

pub mod downloader;
pub mod error;
pub mod json;
pub mod launcher;
pub mod prefs;
pub mod services;
pub mod text;
pub mod types;
pub mod version_list;
pub mod wu_protocol;

pub use error::{CoreError, Result};
pub use json::{JsonMember, JsonValue};
pub use downloader::{
    appx_download_link, msixvc_download_url, select_package_url, TLU_DOWNLOAD_PREFIX,
};
pub use text::{contains, decimal_string, join_strings, starts_with, str_eq};
pub use types::{
    build_download_filename, build_game_directory, build_legacy_game_directory,
    is_gdk_directory, resolve_game_directory, DirectoryEntry, GameDirectories,
    PackageFamilies, PackageType, Version, VersionType, UNKNOWN_UUID,
};
pub use version_list::{
    ImportedEntry, VersionList, DEFAULT_VERSIONS_API_GDK, DEFAULT_VERSIONS_API_UWP,
};
pub use wu_protocol::{default_url, download_urls_from_nodes, WUProtocol, XmlNode};
pub use services::{
    detect_services, needs_manual_start, query_service_info, required_services,
    service_start_type_text, service_state_text, services_view, set_disabled_services_manual,
    ServiceChangeError, ServiceFixAttempt, ServiceQuery, ServiceRequirement, ServiceStatusInfo,
    ServicesView,
};
pub use launcher::{
    detect_dev_mode, detect_installed_info, dev_mode_error_after_enable, dev_mode_view,
    find_best_for_family, installed_details_text, installed_packages_info, plan_download,
    populate_list_maps, search_query, selected_version_index, to_wide, version_matches,
    version_row, DevModeInfo, DevModeView, DownloadPlan, InstalledInfo, ListMaps, PackageRecord,
};
pub use prefs::Preferences;
