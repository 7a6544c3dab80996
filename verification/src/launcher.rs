use vstd::prelude::*;

use crate::text::{contains, contains_seq, decimal, decimal_string, lowercase, to_lowercase, trim, trimmed};
use crate::types::{
    build_download_filename, download_file_name, PackageType, Version, VersionType,
};

verus! {

// ---------------------------------------------------------------- developer mode

/// Whether Windows developer mode is on, or why that could not be read.
#[derive(Debug, Clone)]
pub struct DevModeInfo {
    pub enabled: bool,
    pub error: Option<String>,
}

/// Developer mode from the registry: `registry` is the value of
/// `AllowDevelopmentWithoutDevLicense` (none when absent or unreadable), or the
/// text of the error opening the key. It is on when the value is 1.
pub fn detect_dev_mode(registry: std::result::Result<Option<u32>, String>) -> (r: DevModeInfo)
    ensures
        match registry {
            Ok(value) => r.enabled == (value == Some(1u32)) && r.error is None,
            Err(e) => !r.enabled && (r.error matches Some(m) && m@ == "Registry read failed: "@
                + e@),
        },
{
    match registry {
        Ok(value) => {
            let allow: u32 = match value {
                Some(v) => v,
                None => 0,
            };
            DevModeInfo { enabled: allow == 1, error: None }
        },
        Err(e) => {
            let mut m = String::from_str("Registry read failed: ");
            m.append(e.as_str());
            DevModeInfo { enabled: false, error: Some(m) }
        },
    }
}

/// The error shown after trying to switch developer mode on: none when it is
/// on now; else the error of reading it back, else that of writing it.
pub fn dev_mode_error_after_enable(
    dev_mode: DevModeInfo,
    enable_result: std::result::Result<(), String>,
) -> (r: Option<String>)
    ensures
        dev_mode.enabled ==> r is None,
        !dev_mode.enabled ==> r == match dev_mode.error {
            Some(e) => Some(e),
            None => match enable_result {
                Ok(()) => None,
                Err(e) => Some(e),
            },
        },
{
    if dev_mode.enabled {
        None
    } else {
        match dev_mode.error {
            Some(e) => Some(e),
            None => match enable_result {
                Ok(()) => None,
                Err(e) => Some(e),
            },
        }
    }
}

/// What the developer-mode part of the status bar shows: its label, whether the
/// enable button is visible, and whether it is (re)enabled.
#[derive(Debug, Clone, Copy)]
pub struct DevModeView {
    pub label: &'static str,
    pub button_visible: bool,
    pub button_enabled: bool,
}

/// The developer-mode status: unknown after an error, else on or off; the button
/// is offered unless developer mode is on.
pub fn dev_mode_view(enabled: bool, error: &Option<String>) -> (r: DevModeView)
    ensures
        error is Some ==> r.label@ == "Dev Mode: Unknown"@ && r.button_visible && r.button_enabled,
        error is None && enabled ==> r.label@ == "Dev Mode: On"@ && !r.button_visible
            && !r.button_enabled,
        error is None && !enabled ==> r.label@ == "Dev Mode: Off"@ && r.button_visible
            && r.button_enabled,
{
    if error.is_some() {
        DevModeView { label: "Dev Mode: Unknown", button_visible: true, button_enabled: true }
    } else if enabled {
        DevModeView { label: "Dev Mode: On", button_visible: false, button_enabled: false }
    } else {
        DevModeView { label: "Dev Mode: Off", button_visible: true, button_enabled: true }
    }
}

// ---------------------------------------------------------------- installed packages

/// One installed package of a family: its version numbers and, when the system
/// could tell, where it is installed.
#[derive(Debug, Clone)]
pub struct PackageRecord {
    pub major: u16,
    pub minor: u16,
    pub build: u16,
    pub revision: u16,
    pub install_path: Option<String>,
}

/// The four version numbers packed into one number that orders versions.
pub open spec fn version_key(p: PackageRecord) -> nat {
    p.major as nat * 0x1_0000_0000_0000 + p.minor as nat * 0x1_0000_0000 + p.build as nat
        * 0x1_0000 + p.revision as nat
}

/// `major.minor.build.revision`.
pub open spec fn version_text(p: PackageRecord) -> Seq<char> {
    decimal(p.major as nat) + "."@ + decimal(p.minor as nat) + "."@ + decimal(p.build as nat) + "."@
        + decimal(p.revision as nat)
}

pub open spec fn install_path_text(p: PackageRecord) -> Seq<char> {
    match p.install_path {
        Some(path) => path@,
        None => "Unknown"@,
    }
}

/// The best package found so far, as plain values: key, version, family, path.
pub open spec fn best_view(b: (u64, String, String, String)) -> (nat, Seq<char>, Seq<char>, Seq<char>) {
    (b.0 as nat, b.1@, b.2@, b.3@)
}

/// The package with the highest version; the first of them on a tie.
pub open spec fn best_package(family: Seq<char>, packages: Seq<PackageRecord>) -> Option<
    (nat, Seq<char>, Seq<char>, Seq<char>),
>
    decreases packages.len(),
{
    if packages.len() == 0 {
        None
    } else {
        let prev = best_package(family, packages.drop_last());
        let p = packages.last();
        let replace = match prev {
            Some(b) => version_key(p) > b.0,
            None => true,
        };
        if replace {
            Some((version_key(p), version_text(p), family, install_path_text(p)))
        } else {
            prev
        }
    }
}

fn pack_version(p: &PackageRecord) -> (k: u64)
    ensures
        k as nat == version_key(*p),
{
    let major = p.major as u64;
    let minor = p.minor as u64;
    let build = p.build as u64;
    let revision = p.revision as u64;
    let k = (major << 48u64) | (minor << 32u64) | (build << 16u64) | revision;
    assert(k == major * 0x1_0000_0000_0000 + minor * 0x1_0000_0000 + build * 0x1_0000 + revision)
        by (bit_vector)
        requires
            major < 0x1_0000,
            minor < 0x1_0000,
            build < 0x1_0000,
            revision < 0x1_0000,
            k == (major << 48u64) | (minor << 32u64) | (build << 16u64) | revision,
    ;
    k
}

/// The installed package of `family` with the highest version: its packed
/// version, its version text, the family, and its install path.
pub fn find_best_for_family(family: &str, packages: &Vec<PackageRecord>) -> (r: Option<
    (u64, String, String, String),
>)
    ensures
        match r {
            Some(b) => best_package(family@, packages@) == Some(best_view(b)),
            None => best_package(family@, packages@) is None,
        },
{
    let mut best: Option<(u64, String, String, String)> = None;
    let mut i: usize = 0;
    assert(packages@.take(0) =~= Seq::<PackageRecord>::empty());
    while i < packages.len()
        invariant
            i <= packages@.len(),
            match best {
                Some(b) => best_package(family@, packages@.take(i as int)) == Some(best_view(b)),
                None => best_package(family@, packages@.take(i as int)) is None,
            },
        decreases packages@.len() - i,
    {
        assert(packages@.take(i + 1).drop_last() =~= packages@.take(i as int));
        assert(packages@.take(i + 1).last() == packages@[i as int]);
        let pkg = &packages[i];
        let key = pack_version(pkg);
        let replace = match &best {
            Some(b) => key > b.0,
            None => true,
        };
        if replace {
            let mut version = decimal_string(pkg.major as u64);
            version.append(".");
            version.append(decimal_string(pkg.minor as u64).as_str());
            version.append(".");
            version.append(decimal_string(pkg.build as u64).as_str());
            version.append(".");
            version.append(decimal_string(pkg.revision as u64).as_str());
            let path = match &pkg.install_path {
                Some(p) => p.clone(),
                None => String::from_str("Unknown"),
            };
            best = Some((key, version, String::from_str(family), path));
        }
        i = i + 1;
    }
    assert(packages@.take(packages@.len() as int) =~= packages@);
    best
}

/// The summary and the details of the installed game packages.
#[derive(Debug, Clone)]
pub struct InstalledInfo {
    pub summary: String,
    pub details: String,
}

pub open spec fn opt_best_view(b: Option<(u64, String, String, String)>) -> Option<
    (nat, Seq<char>, Seq<char>, Seq<char>),
> {
    match b {
        Some(x) => Some(best_view(x)),
        None => None,
    }
}

pub open spec fn channel_summary(channel: Seq<char>, best: Option<(nat, Seq<char>, Seq<char>, Seq<char>)>) -> Seq<
    char,
> {
    match best {
        Some(b) => channel + " "@ + b.1 + " (registered)"@,
        None => channel + " not installed"@,
    }
}

/// The details block of one channel; `tail` ends it.
pub open spec fn channel_details(
    channel: Seq<char>,
    best: Option<(nat, Seq<char>, Seq<char>, Seq<char>)>,
    tail: Seq<char>,
) -> Seq<char> {
    channel + "\n"@ + match best {
        Some(b) => "  Status: registered\n  Version: "@ + b.1 + "\n"@ + "  Package family: "@ + b.2
            + "\n  Install path: "@ + b.3 + tail,
        None => "  Status: not installed"@ + tail,
    }
}

/// `Installed: <release> | <preview>`, and a details block per channel.
pub open spec fn installed_info_of(
    release: Option<(nat, Seq<char>, Seq<char>, Seq<char>)>,
    preview: Option<(nat, Seq<char>, Seq<char>, Seq<char>)>,
) -> (Seq<char>, Seq<char>) {
    (
        "Installed: "@ + channel_summary("Release"@, release) + " | "@ + channel_summary(
            "Preview"@,
            preview,
        ),
        channel_details("Release"@, release, "\n\n"@) + channel_details(
            "Preview"@,
            preview,
            "\n"@,
        ),
    )
}

fn append_channel_summary(s: &mut String, channel: &str, best: &Option<(u64, String, String, String)>)
    ensures
        final(s)@ == old(s)@ + channel_summary(channel@, opt_best_view(*best)),
{
    let ghost start = s@;
    s.append(channel);
    match best {
        Some(b) => {
            s.append(" ");
            s.append(b.1.as_str());
            s.append(" (registered)");
            assert(s@ =~= start + (channel@ + " "@ + b.1@ + " (registered)"@));
        },
        None => {
            s.append(" not installed");
            assert(s@ =~= start + (channel@ + " not installed"@));
        },
    }
}

fn append_channel_details(
    s: &mut String,
    channel: &str,
    best: &Option<(u64, String, String, String)>,
    tail: &str,
)
    ensures
        final(s)@ == old(s)@ + channel_details(channel@, opt_best_view(*best), tail@),
{
    let ghost start = s@;
    s.append(channel);
    s.append("\n");
    let ghost mid = s@;
    match best {
        Some(b) => {
            s.append("  Status: registered\n  Version: ");
            s.append(b.1.as_str());
            s.append("\n");
            s.append("  Package family: ");
            s.append(b.2.as_str());
            s.append("\n  Install path: ");
            s.append(b.3.as_str());
            s.append(tail);
            assert(s@ =~= mid + ("  Status: registered\n  Version: "@ + b.1@ + "\n"@
                + "  Package family: "@ + b.2@ + "\n  Install path: "@ + b.3@ + tail@));
        },
        None => {
            s.append("  Status: not installed");
            s.append(tail);
            assert(s@ =~= mid + ("  Status: not installed"@ + tail@));
        },
    }
    assert(s@ =~= start + channel_details(channel@, opt_best_view(*best), tail@));
}

/// The summary and details shown for the best release and preview packages.
pub fn installed_packages_info(
    release_best: &Option<(u64, String, String, String)>,
    preview_best: &Option<(u64, String, String, String)>,
) -> (r: InstalledInfo)
    ensures
        (r.summary@, r.details@) == installed_info_of(
            opt_best_view(*release_best),
            opt_best_view(*preview_best),
        ),
{
    let mut summary = String::from_str("Installed: ");
    append_channel_summary(&mut summary, "Release", release_best);
    summary.append(" | ");
    append_channel_summary(&mut summary, "Preview", preview_best);
    let mut details = String::new();
    append_channel_details(&mut details, "Release", release_best, "\n\n");
    append_channel_details(&mut details, "Preview", preview_best, "\n");
    assert(details@ =~= channel_details("Release"@, opt_best_view(*release_best), "\n\n"@)
        + channel_details("Preview"@, opt_best_view(*preview_best), "\n"@));
    InstalledInfo { summary, details }
}

/// The installed-packages information, or what is shown when the package
/// manager could not be queried (`query` holds the text of its error).
pub fn detect_installed_info(query: std::result::Result<InstalledInfo, String>) -> (r: InstalledInfo)
    ensures
        match query {
            Ok(info) => r == info,
            Err(e) => r.summary@ == "Installed: (error)"@ && r.details@
                == "Failed to query installed packages: "@ + e@,
        },
{
    match query {
        Ok(info) => info,
        Err(e) => {
            let mut details = String::from_str("Failed to query installed packages: ");
            details.append(e.as_str());
            InstalledInfo { summary: String::from_str("Installed: (error)"), details }
        },
    }
}

/// The text of the installed-packages message box.
pub fn installed_details_text(details: &String) -> (r: String)
    ensures
        details@.len() == 0 ==> r@ == "No installed packages detected."@,
        details@.len() > 0 ==> r@ == details@,
{
    if details.as_str().is_empty() {
        String::from_str("No installed packages detected.")
    } else {
        details.clone()
    }
}

// ---------------------------------------------------------------- version lists

/// The search text as it is matched: trimmed and lowercased.
pub fn search_query(text: &str) -> (r: String)
    ensures
        r@ == lowercase(trimmed(text@)),
{
    let t = trim(text);
    to_lowercase(t.as_str())
}

/// A version is listed when the query is empty or its lowercased name contains it.
pub open spec fn name_matches(name: Seq<char>, query: Seq<char>) -> bool {
    query.len() == 0 || contains_seq(lowercase(name), query)
}

pub fn version_matches(v: &Version, query: &str) -> (r: bool)
    ensures
        r == name_matches(v.name@, query@),
{
    if query.unicode_len() == 0 {
        true
    } else {
        let name = to_lowercase(v.name.as_str());
        contains(name.as_str(), query)
    }
}

/// For each tab, the indices (into the version list) of the versions it lists, in
/// order.
#[derive(Debug, Clone)]
pub struct ListMaps {
    pub release: Vec<usize>,
    pub beta: Vec<usize>,
    pub preview: Vec<usize>,
    pub imported: Vec<usize>,
}

/// The indices of the versions of type `vt` that match the query, in order.
pub open spec fn tab_indices(versions: Seq<Version>, query: Seq<char>, vt: VersionType) -> Seq<usize>
    decreases versions.len(),
{
    if versions.len() == 0 {
        Seq::empty()
    } else {
        let rest = tab_indices(versions.drop_last(), query, vt);
        let v = versions.last();
        if v.version_type == vt && name_matches(v.name@, query) {
            rest.push((versions.len() - 1) as usize)
        } else {
            rest
        }
    }
}

/// Sorts the matching versions into the four tabs.
pub fn populate_list_maps(versions: &Vec<Version>, query: &str) -> (r: ListMaps)
    ensures
        r.release@ == tab_indices(versions@, query@, VersionType::Release),
        r.beta@ == tab_indices(versions@, query@, VersionType::Beta),
        r.preview@ == tab_indices(versions@, query@, VersionType::Preview),
        r.imported@ == tab_indices(versions@, query@, VersionType::Imported),
{
    let mut maps = ListMaps {
        release: Vec::new(),
        beta: Vec::new(),
        preview: Vec::new(),
        imported: Vec::new(),
    };
    let mut i: usize = 0;
    assert(versions@.take(0) =~= Seq::<Version>::empty());
    while i < versions.len()
        invariant
            i <= versions@.len(),
            maps.release@ == tab_indices(versions@.take(i as int), query@, VersionType::Release),
            maps.beta@ == tab_indices(versions@.take(i as int), query@, VersionType::Beta),
            maps.preview@ == tab_indices(versions@.take(i as int), query@, VersionType::Preview),
            maps.imported@ == tab_indices(
                versions@.take(i as int),
                query@,
                VersionType::Imported,
            ),
        decreases versions@.len() - i,
    {
        assert(versions@.take(i + 1).drop_last() =~= versions@.take(i as int));
        assert(versions@.take(i + 1).last() == versions@[i as int]);
        assert(versions@.take(i + 1).len() - 1 == i);
        let version = &versions[i];
        if version_matches(version, query) {
            match version.version_type {
                VersionType::Release => maps.release.push(i),
                VersionType::Beta => maps.beta.push(i),
                VersionType::Preview => maps.preview.push(i),
                VersionType::Imported => maps.imported.push(i),
            }
        }
        i = i + 1;
    }
    assert(versions@.take(versions@.len() as int) =~= versions@);
    maps
}

pub open spec fn type_label(vt: VersionType) -> Seq<char> {
    match vt {
        VersionType::Release => "Release"@,
        VersionType::Beta => "Beta"@,
        VersionType::Preview => "Preview"@,
        VersionType::Imported => "Imported"@,
    }
}

/// The columns of a version's row: name, package (`UWP`/`GDK`), `yes` when new,
/// and type.
pub fn version_row(v: &Version) -> (r: Vec<String>)
    ensures
        r@.len() == 4,
        r@[0]@ == v.name@,
        r@[1]@ == (match v.package_type {
            PackageType::Uwp => "UWP"@,
            PackageType::Gdk => "GDK"@,
        }),
        r@[2]@ == (if v.is_new {
            "yes"@
        } else {
            Seq::<char>::empty()
        }),
        r@[3]@ == type_label(v.version_type),
{
    let pkg = match v.package_type {
        PackageType::Uwp => "UWP",
        PackageType::Gdk => "GDK",
    };
    let type_text = match v.version_type {
        VersionType::Release => "Release",
        VersionType::Beta => "Beta",
        VersionType::Preview => "Preview",
        VersionType::Imported => "Imported",
    };
    let mut row: Vec<String> = Vec::new();
    row.push(v.name.clone());
    row.push(String::from_str(pkg));
    row.push(
        if v.is_new {
            String::from_str("yes")
        } else {
            String::new()
        },
    );
    row.push(String::from_str(type_text));
    row
}

/// The version a selected row of a tab stands for.
pub fn selected_version_index(map: &Vec<usize>, selected_row: Option<usize>) -> (r: Option<usize>)
    ensures
        r == match selected_row {
            Some(row) => if row < map@.len() {
                Some(map@[row as int])
            } else {
                None
            },
            None => None,
        },
{
    match selected_row {
        Some(row) => if row < map.len() {
            Some(map[row])
        } else {
            None
        },
        None => None,
    }
}

// ---------------------------------------------------------------- downloads

/// What pressing the download button does: nothing when no version is
/// selected; report that the selection is gone; ask for a store token (UWP
/// packages); or download the selected GDK package to `output`.
#[derive(Debug)]
pub enum DownloadPlan {
    NothingSelected,
    VersionNotFound,
    TokenRequired,
    Start { index: usize, output: String, status: String },
}

/// Decides what pressing the download button does.
pub fn plan_download(selected: Option<usize>, versions: &Vec<Version>) -> (r: DownloadPlan)
    ensures
        match selected {
            None => r is NothingSelected,
            Some(i) => if i >= versions@.len() {
                r is VersionNotFound
            } else if versions@[i as int].package_type == PackageType::Uwp {
                r is TokenRequired
            } else {
                r matches DownloadPlan::Start { index, output, status } && index == i && output@
                    == download_file_name(
                    versions@[i as int].name@,
                    versions@[i as int].version_type,
                    versions@[i as int].package_type,
                ) && status@ == "Downloading to "@ + output@ + "..."@
            },
        },
{
    let index = match selected {
        None => return DownloadPlan::NothingSelected,
        Some(i) => i,
    };
    if index >= versions.len() {
        return DownloadPlan::VersionNotFound;
    }
    let version = &versions[index];
    let output = build_download_filename(
        version.name.as_str(),
        version.version_type,
        version.package_type,
    );
    if version.package_type == PackageType::Uwp {
        return DownloadPlan::TokenRequired;
    }
    let mut status = String::from_str("Downloading to ");
    status.append(output.as_str());
    status.append("...");
    DownloadPlan::Start { index, output, status }
}

// ---------------------------------------------------------------- wide strings

/// The UTF-16 code units of one character.
pub open spec fn utf16_units(c: char) -> Seq<u16> {
    let v = c as u32;
    if v < 0x10000 {
        seq![v as u16]
    } else {
        seq![(0xD800 + ((v - 0x10000) / 0x400)) as u16, (0xDC00 + ((v - 0x10000) % 0x400)) as u16]
    }
}

pub open spec fn utf16_of(s: Seq<char>) -> Seq<u16>
    decreases s.len(),
{
    if s.len() == 0 {
        Seq::empty()
    } else {
        utf16_of(s.drop_last()) + utf16_units(s.last())
    }
}

/// The text as UTF-16 with a terminating zero, as Windows APIs take it.
pub fn to_wide(value: &str) -> (r: Vec<u16>)
    ensures
        r@ == utf16_of(value@).push(0u16),
{
    let n = value.unicode_len();
    let mut wide: Vec<u16> = Vec::new();
    let mut i: usize = 0;
    assert(value@.take(0) =~= Seq::<char>::empty());
    while i < n
        invariant
            n == value@.len(),
            i <= n,
            wide@ == utf16_of(value@.take(i as int)),
        decreases n - i,
    {
        assert(value@.take(i + 1).drop_last() =~= value@.take(i as int));
        assert(value@.take(i + 1).last() == value@[i as int]);
        let c = value.get_char(i);
        let v = c as u32;
        let ghost before = wide@;
        if v < 0x10000 {
            wide.push(v as u16);
            assert(wide@ =~= before + utf16_units(c));
        } else {
            let u = v - 0x10000;
            wide.push((0xD800 + u / 0x400) as u16);
            wide.push((0xDC00 + u % 0x400) as u16);
            assert(wide@ =~= before + utf16_units(c));
        }
        i = i + 1;
    }
    assert(value@.take(n as int) =~= value@);
    wide.push(0);
    wide
}

} // verus!

verus! {

/// The best package is the first package with the highest version; there is
/// one exactly when there is a package.
pub proof fn lemma_best_package_is_first_maximum(family: Seq<char>, packages: Seq<PackageRecord>)
    ensures
        (packages.len() == 0) == (best_package(family, packages) is None),
        best_package(family, packages) matches Some(b) ==> exists|j: int|
            0 <= j < packages.len() && b == (
                version_key(packages[j]),
                version_text(packages[j]),
                family,
                install_path_text(packages[j]),
            ) && (forall|k: int| 0 <= k < packages.len() ==> version_key(#[trigger] packages[k]) <= b.0)
                && (forall|k: int| 0 <= k < j ==> version_key(#[trigger] packages[k]) < b.0),
    decreases packages.len(),
{
    if packages.len() > 0 {
        let init = packages.drop_last();
        lemma_best_package_is_first_maximum(family, init);
        let n = packages.len() - 1;
        let p = packages.last();
        let b = best_package(family, packages).unwrap();
        match best_package(family, init) {
            None => {
                assert(init.len() == 0);
                assert(b == (version_key(packages[n]), version_text(packages[n]), family, install_path_text(packages[n])));
                assert forall|k: int| 0 <= k < packages.len() implies version_key(#[trigger] packages[k]) <= b.0 by {}
            },
            Some(prev) => {
                let j = choose|j: int|
                    0 <= j < init.len() && prev == (
                        version_key(init[j]),
                        version_text(init[j]),
                        family,
                        install_path_text(init[j]),
                    ) && (forall|k: int| 0 <= k < init.len() ==> version_key(#[trigger] init[k]) <= prev.0)
                        && (forall|k: int| 0 <= k < j ==> version_key(#[trigger] init[k]) < prev.0);
                if version_key(p) > prev.0 {
                    assert(b == (version_key(packages[n]), version_text(packages[n]), family, install_path_text(packages[n])));
                    assert forall|k: int| 0 <= k < packages.len() implies version_key(#[trigger] packages[k]) <= b.0 by {
                        if k < n {
                            assert(packages[k] == init[k]);
                        }
                    }
                    assert forall|k: int| 0 <= k < n implies version_key(#[trigger] packages[k]) < b.0 by {
                        assert(packages[k] == init[k]);
                    }
                } else {
                    assert(b == prev);
                    assert(packages[j] == init[j]);
                    assert forall|k: int| 0 <= k < packages.len() implies version_key(#[trigger] packages[k]) <= b.0 by {
                        if k < n {
                            assert(packages[k] == init[k]);
                        }
                    }
                    assert forall|k: int| 0 <= k < j implies version_key(#[trigger] packages[k]) < b.0 by {
                        assert(packages[k] == init[k]);
                    }
                }
            },
        }
    }
}

/// Each tab lists, in increasing order, exactly the matching versions of its type.
pub proof fn lemma_tabs_partition_matches(versions: Seq<Version>, query: Seq<char>, vt: VersionType)
    requires
        versions.len() <= usize::MAX,
    ensures
        forall|k: int|
            0 <= k < tab_indices(versions, query, vt).len() ==> {
                let i = #[trigger] tab_indices(versions, query, vt)[k];
                &&& i < versions.len()
                &&& versions[i as int].version_type == vt
                &&& name_matches(versions[i as int].name@, query)
            },
        forall|k1: int, k2: int|
            0 <= k1 < k2 < tab_indices(versions, query, vt).len() ==> #[trigger] tab_indices(
                versions,
                query,
                vt,
            )[k1] < #[trigger] tab_indices(versions, query, vt)[k2],
        forall|i: int|
            0 <= i < versions.len() && (#[trigger] versions[i]).version_type == vt && name_matches(
                versions[i].name@,
                query,
            ) ==> tab_indices(versions, query, vt).contains(i as usize),
    decreases versions.len(),
{
    if versions.len() > 0 {
        let init = versions.drop_last();
        lemma_tabs_partition_matches(init, query, vt);
        let rest = tab_indices(init, query, vt);
        let t = tab_indices(versions, query, vt);
        let n = versions.len() - 1;
        assert forall|k: int| 0 <= k < rest.len() implies rest[k] < n && #[trigger] versions[rest[k] as int] == init[rest[k] as int] by {}
        assert forall|k: int|
            0 <= k < t.len() implies {
                let i = #[trigger] t[k];
                &&& i < versions.len()
                &&& versions[i as int].version_type == vt
                &&& name_matches(versions[i as int].name@, query)
            } by {
            if k < rest.len() {
                assert(t[k] == rest[k]);
                assert(versions[rest[k] as int] == init[rest[k] as int]);
            } else {
                assert(t[k] == n as usize);
                assert(n as usize == n);
            }
        }
        assert forall|k1: int, k2: int| 0 <= k1 < k2 < t.len() implies #[trigger] t[k1] < #[trigger] t[k2] by {
            if k2 < rest.len() {
                assert(t[k1] == rest[k1] && t[k2] == rest[k2]);
            } else {
                assert(t[k1] == rest[k1]);
                assert(rest[k1] < n);
                assert(t[k2] == n as usize);
            }
        }
        assert forall|i: int|
            0 <= i < versions.len() && (#[trigger] versions[i]).version_type == vt && name_matches(
                versions[i].name@,
                query,
            ) implies t.contains(i as usize) by {
            if i < n {
                assert(versions[i] == init[i]);
                let k = choose|k: int| 0 <= k < rest.len() && rest[k] == i as usize;
                assert(t[k] == rest[k]);
            } else {
                assert(t[t.len() - 1] == n as usize);
            }
        }
    }
}

/// Appending a 16-bit digit below a number keeps the order of the numbers and
/// breaks ties by the digit.
proof fn lemma_digit_order(x: nat, d: nat, y: nat, e: nat)
    requires
        d < 0x1_0000,
        e < 0x1_0000,
    ensures
        x * 0x1_0000 + d < y * 0x1_0000 + e <==> (x < y || (x == y && d < e)),
        x * 0x1_0000 + d == y * 0x1_0000 + e <==> (x == y && d == e),
{
    assert(x < y ==> x * 0x1_0000 + d < y * 0x1_0000 + e) by (nonlinear_arith)
        requires
            d < 0x1_0000,
            e < 0x1_0000,
    ;
    assert(y < x ==> y * 0x1_0000 + e < x * 0x1_0000 + d) by (nonlinear_arith)
        requires
            d < 0x1_0000,
            e < 0x1_0000,
    ;
}

/// Whether version `p` comes before version `q`: compared by major number, then
/// minor, then build, then revision.
pub open spec fn version_before(p: PackageRecord, q: PackageRecord) -> bool {
    ||| p.major < q.major
    ||| p.major == q.major && p.minor < q.minor
    ||| p.major == q.major && p.minor == q.minor && p.build < q.build
    ||| p.major == q.major && p.minor == q.minor && p.build == q.build && p.revision < q.revision
}

/// The packed key orders versions by major, minor, build and then revision
/// number, and two versions get the same key only when all four numbers agree:
/// a higher revision of the same build has the higher key.
pub proof fn lemma_version_key_orders_versions(p: PackageRecord, q: PackageRecord)
    ensures
        version_key(p) < version_key(q) <==> version_before(p, q),
        version_key(p) == version_key(q) <==> (p.major == q.major && p.minor == q.minor && p.build
            == q.build && p.revision == q.revision),
{
    let pa = p.major as nat;
    let pb = pa * 0x1_0000 + p.minor as nat;
    let pc = pb * 0x1_0000 + p.build as nat;
    let qa = q.major as nat;
    let qb = qa * 0x1_0000 + q.minor as nat;
    let qc = qb * 0x1_0000 + q.build as nat;
    assert(version_key(p) == pc * 0x1_0000 + p.revision as nat) by (nonlinear_arith)
        requires
            pb == pa * 0x1_0000 + p.minor as nat,
            pc == pb * 0x1_0000 + p.build as nat,
            pa == p.major as nat,
    ;
    assert(version_key(q) == qc * 0x1_0000 + q.revision as nat) by (nonlinear_arith)
        requires
            qb == qa * 0x1_0000 + q.minor as nat,
            qc == qb * 0x1_0000 + q.build as nat,
            qa == q.major as nat,
    ;
    lemma_digit_order(pa, p.minor as nat, qa, q.minor as nat);
    lemma_digit_order(pb, p.build as nat, qb, q.build as nat);
    lemma_digit_order(pc, p.revision as nat, qc, q.revision as nat);
}

/// The type column tells a version's channel back: the four channels have four
/// different labels, which are their names.
pub proof fn lemma_type_labels_name_the_channel(a: VersionType, b: VersionType)
    ensures
        type_label(a) == type_label(b) <==> a == b,
        type_label(VersionType::Release) == "Release"@,
        type_label(VersionType::Beta) == "Beta"@,
        type_label(VersionType::Preview) == "Preview"@,
        type_label(VersionType::Imported) == "Imported"@,
{
    reveal_strlit("Release");
    reveal_strlit("Beta");
    reveal_strlit("Preview");
    reveal_strlit("Imported");
    if a != b {
        assert(type_label(a)[0] != type_label(b)[0] || type_label(a).len() != type_label(b).len());
    }
}

} // verus!
