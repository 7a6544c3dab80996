use vstd::prelude::*;

use crate::text::{lowercase, str_eq, to_lowercase};

verus! {

/// The uuid given to versions whose update identity is not known.
pub const UNKNOWN_UUID: &'static str = "UNKNOWN";

/// The channel a version was published on.
#[derive(Debug, Clone, Copy, PartialEq, Eq, Structural)]
pub enum VersionType {
    Release,
    Beta,
    Preview,
    Imported,
}

/// The numeric code of each channel, as the version databases write it.
pub open spec fn version_type_code(v: VersionType) -> i64 {
    match v {
        VersionType::Release => 0,
        VersionType::Beta => 1,
        VersionType::Preview => 2,
        VersionType::Imported => 100,
    }
}

/// The channel that a numeric code denotes, if any.
pub open spec fn version_type_of_code(value: i64) -> Option<VersionType> {
    if value == 0 {
        Some(VersionType::Release)
    } else if value == 1 {
        Some(VersionType::Beta)
    } else if value == 2 {
        Some(VersionType::Preview)
    } else if value == 100 {
        Some(VersionType::Imported)
    } else {
        None
    }
}

impl VersionType {
    /// Decodes the numeric channel code used by the version databases.
    pub fn from_i64(value: i64) -> (r: Option<VersionType>)
        ensures
            r == version_type_of_code(value),
    {
        match value {
            0 => Some(VersionType::Release),
            1 => Some(VersionType::Beta),
            2 => Some(VersionType::Preview),
            100 => Some(VersionType::Imported),
            _ => None,
        }
    }
}

/// Decoding the code of a channel gives that channel back, and every code that
/// decodes to a channel is that channel's code.
pub proof fn lemma_version_type_code_roundtrip(v: VersionType, value: i64)
    ensures
        version_type_of_code(version_type_code(v)) == Some(v),
        version_type_of_code(value) == Some(v) <==> value == version_type_code(v),
{
}

/// How a game package is distributed.
#[derive(Debug, Clone, Copy, PartialEq, Eq, Structural)]
pub enum PackageType {
    Uwp,
    Gdk,
}

/// The Windows package family names of the game.
pub struct PackageFamilies;

impl PackageFamilies {
    pub const MINECRAFT: &'static str = "Microsoft.MinecraftUWP_8wekyb3d8bbwe";

    pub const MINECRAFT_PREVIEW: &'static str = "Microsoft.MinecraftWindowsBeta_8wekyb3d8bbwe";
}

/// One entry of the directory in which game versions are unpacked: its name, and
/// whether it holds a `MicrosoftGame.Config` file.
#[derive(Debug, Clone)]
pub struct DirectoryEntry {
    pub name: String,
    pub has_game_config: bool,
}

/// What the working directory holds, as far as resolving a game directory needs it.
#[derive(Debug, Clone)]
pub struct GameDirectories {
    pub entries: Vec<DirectoryEntry>,
}

/// Whether a directory entry's name denotes `path` on the Windows file system,
/// which matches names without regard to case: both names agree once lowercased.
pub open spec fn names_match(name: Seq<char>, path: Seq<char>) -> bool {
    lowercase(name) == lowercase(path)
}

/// The first entry whose name matches `path`, if any.
pub open spec fn find_entry(entries: Seq<DirectoryEntry>, path: Seq<char>) -> Option<DirectoryEntry>
    decreases entries.len(),
{
    if entries.len() == 0 {
        None
    } else if names_match(entries[0].name@, path) {
        Some(entries[0])
    } else {
        find_entry(entries.drop_first(), path)
    }
}

pub open spec fn dir_exists(dirs: GameDirectories, path: Seq<char>) -> bool {
    find_entry(dirs.entries@, path) is Some
}

pub open spec fn dir_is_gdk(dirs: GameDirectories, path: Seq<char>) -> bool {
    find_entry(dirs.entries@, path) matches Some(e) && e.has_game_config
}

impl GameDirectories {
    /// Looks a directory name up, without regard to case as the Windows file
    /// system does: whether it exists, and whether it holds a GDK config.
    pub fn probe(&self, path: &str) -> (r: (bool, bool))
        ensures
            r.0 == dir_exists(*self, path@),
            r.1 == dir_is_gdk(*self, path@),
    {
        let wanted = to_lowercase(path);
        let mut i: usize = 0;
        assert(self.entries@.skip(0) =~= self.entries@);
        while i < self.entries.len()
            invariant
                i <= self.entries@.len(),
                find_entry(self.entries@, path@) == find_entry(self.entries@.skip(i as int), path@),
                wanted@ == lowercase(path@),
            decreases self.entries@.len() - i,
        {
            assert(self.entries@.skip(i as int).drop_first() =~= self.entries@.skip(i + 1));
            assert(self.entries@.skip(i as int)[0] == self.entries@[i as int]);
            let name = to_lowercase(self.entries[i].name.as_str());
            if str_eq(name.as_str(), wanted.as_str()) {
                return (true, self.entries[i].has_game_config);
            }
            i = i + 1;
        }
        assert(self.entries@.skip(i as int) =~= Seq::<DirectoryEntry>::empty());
        (false, false)
    }
}

/// A game version: a known release of the database, or a directory imported by hand.
#[derive(Debug, Clone)]
pub struct Version {
    pub uuid: String,
    pub name: String,
    pub version_type: VersionType,
    pub is_new: bool,
    pub package_type: PackageType,
    pub download_urls: Vec<String>,
    pub game_directory: String,
}

/// A version as plain values.
pub struct VersionView {
    pub uuid: Seq<char>,
    pub name: Seq<char>,
    pub version_type: VersionType,
    pub is_new: bool,
    pub package_type: PackageType,
    pub download_urls: Seq<Seq<char>>,
    pub game_directory: Seq<char>,
}

pub open spec fn strings_view(s: Seq<String>) -> Seq<Seq<char>> {
    s.map_values(|x: String| x@)
}

impl View for Version {
    type V = VersionView;

    open spec fn view(&self) -> VersionView {
        VersionView {
            uuid: self.uuid@,
            name: self.name@,
            version_type: self.version_type,
            is_new: self.is_new,
            package_type: self.package_type,
            download_urls: strings_view(self.download_urls@),
            game_directory: self.game_directory@,
        }
    }
}

pub open spec fn versions_view(s: Seq<Version>) -> Seq<VersionView> {
    s.map_values(|v: Version| v@)
}

pub open spec fn directory_prefix(version_type: VersionType) -> Seq<char> {
    match version_type {
        VersionType::Preview => "Minecraft-Preview-"@,
        _ => "Minecraft-"@,
    }
}

pub open spec fn package_directory_tag(package_type: PackageType) -> Seq<char> {
    match package_type {
        PackageType::Gdk => "GDK-"@,
        PackageType::Uwp => "UWP-"@,
    }
}

pub open spec fn package_extension(package_type: PackageType) -> Seq<char> {
    match package_type {
        PackageType::Uwp => "appx"@,
        PackageType::Gdk => "msixvc"@,
    }
}

/// The directory a version is unpacked into: prefix, package tag, name.
pub open spec fn game_directory_name(name: Seq<char>, version_type: VersionType, package_type: PackageType) -> Seq<char> {
    directory_prefix(version_type) + package_directory_tag(package_type) + name
}

/// The directory older launchers used: prefix and name, with no package tag.
pub open spec fn legacy_game_directory_name(name: Seq<char>, version_type: VersionType) -> Seq<char> {
    directory_prefix(version_type) + name
}

pub open spec fn download_file_name(name: Seq<char>, version_type: VersionType, package_type: PackageType) -> Seq<char> {
    directory_prefix(version_type) + name + "."@ + package_extension(package_type)
}

/// The tagged directory if it exists; else the legacy directory if it exists and
/// its package kind (GDK config present or not) matches; else the tagged directory.
pub open spec fn resolved_game_directory(
    dirs: GameDirectories,
    name: Seq<char>,
    version_type: VersionType,
    package_type: PackageType,
) -> Seq<char> {
    let new_dir = game_directory_name(name, version_type, package_type);
    let legacy_dir = legacy_game_directory_name(name, version_type);
    if dir_exists(dirs, new_dir) {
        new_dir
    } else if dir_exists(dirs, legacy_dir) && dir_is_gdk(dirs, legacy_dir) == (package_type
        == PackageType::Gdk) {
        legacy_dir
    } else {
        new_dir
    }
}

pub open spec fn type_suffix(version_type: VersionType) -> Seq<char> {
    match version_type {
        VersionType::Beta => " (beta)"@,
        VersionType::Preview => " (preview)"@,
        _ => Seq::empty(),
    }
}

pub open spec fn package_label(package_type: PackageType) -> Seq<char> {
    match package_type {
        PackageType::Gdk => "GDK"@,
        PackageType::Uwp => "UWP"@,
    }
}

/// `name - PKG`, then ` (beta)` or ` (preview)` for those channels, then ` (NEW!)`.
pub open spec fn display_name_of(v: VersionView) -> Seq<char> {
    v.name + " - "@ + package_label(v.package_type) + type_suffix(v.version_type) + (if v.is_new {
        " (NEW!)"@
    } else {
        Seq::empty()
    })
}

pub open spec fn package_family_of(version_type: VersionType) -> Seq<char> {
    match version_type {
        VersionType::Preview => PackageFamilies::MINECRAFT_PREVIEW@,
        _ => PackageFamilies::MINECRAFT@,
    }
}

impl Version {
    /// A version listed by a version database; its game directory is resolved
    /// against `dirs`, a listing of the working directory.
    pub fn new_from_db(
        uuid: String,
        name: String,
        version_type: VersionType,
        is_new: bool,
        package_type: PackageType,
        download_urls: Vec<String>,
        dirs: &GameDirectories,
    ) -> (r: Self)
        ensures
            r.uuid == uuid,
            r.name == name,
            r.version_type == version_type,
            r.is_new == is_new,
            r.package_type == package_type,
            r.download_urls == download_urls,
            r.game_directory@ == resolved_game_directory(*dirs, name@, version_type, package_type),
    {
        let game_directory = resolve_game_directory(name.as_str(), version_type, package_type, dirs);
        Version { uuid, name, version_type, is_new, package_type, download_urls, game_directory }
    }

    /// A version found as a directory of the imported-versions folder.
    pub fn new_imported(name: String, directory: String, package_type: PackageType) -> (r: Self)
        ensures
            r.uuid@ == UNKNOWN_UUID@,
            r.name == name,
            r.version_type == VersionType::Imported,
            !r.is_new,
            r.package_type == package_type,
            r.download_urls@.len() == 0,
            r.game_directory == directory,
    {
        Version {
            uuid: String::from_str(UNKNOWN_UUID),
            name,
            version_type: VersionType::Imported,
            is_new: false,
            package_type,
            download_urls: Vec::new(),
            game_directory: directory,
        }
    }

    pub fn is_imported(&self) -> (r: bool)
        ensures
            r == (self.version_type == VersionType::Imported),
    {
        self.version_type == VersionType::Imported
    }

    /// The name shown in the lists.
    pub fn display_name(&self) -> (r: String)
        ensures
            r@ == display_name_of(self@),
    {
        let mut name = String::from_str(self.name.as_str());
        name.append(" - ");
        match self.package_type {
            PackageType::Gdk => name.append("GDK"),
            PackageType::Uwp => name.append("UWP"),
        }
        match self.version_type {
            VersionType::Beta => name.append(" (beta)"),
            VersionType::Preview => name.append(" (preview)"),
            _ => {},
        }
        if self.is_new {
            name.append(" (NEW!)");
        }
        proof {
            if !self.is_new {
                assert(name@ =~= name@ + Seq::<char>::empty());
            }
            if self.version_type != VersionType::Beta && self.version_type
                != VersionType::Preview {
                let pre = self.name@ + " - "@ + package_label(self.package_type);
                assert(pre =~= pre + Seq::<char>::empty());
            }
        }
        name
    }

    /// The package family the version installs as.
    pub fn game_package_family(&self) -> (r: &'static str)
        ensures
            r@ == package_family_of(self.version_type),
    {
        match self.version_type {
            VersionType::Preview => PackageFamilies::MINECRAFT_PREVIEW,
            _ => PackageFamilies::MINECRAFT,
        }
    }
}

fn get_directory_prefix(version_type: VersionType) -> (r: &'static str)
    ensures
        r@ == directory_prefix(version_type),
{
    match version_type {
        VersionType::Preview => "Minecraft-Preview-",
        _ => "Minecraft-",
    }
}

/// The tagged game directory of a version.
pub fn build_game_directory(name: &str, version_type: VersionType, package_type: PackageType) -> (r: String)
    ensures
        r@ == game_directory_name(name@, version_type, package_type),
{
    let mut dir = String::from_str(get_directory_prefix(version_type));
    match package_type {
        PackageType::Gdk => dir.append("GDK-"),
        PackageType::Uwp => dir.append("UWP-"),
    }
    dir.append(name);
    dir
}

/// The game directory older launchers used for a version.
pub fn build_legacy_game_directory(name: &str, version_type: VersionType) -> (r: String)
    ensures
        r@ == legacy_game_directory_name(name@, version_type),
{
    let mut dir = String::from_str(get_directory_prefix(version_type));
    dir.append(name);
    dir
}

/// Whether the named directory of `dirs` holds a GDK game config.
pub fn is_gdk_directory(dirs: &GameDirectories, path: &str) -> (r: bool)
    ensures
        r == dir_is_gdk(*dirs, path@),
{
    dirs.probe(path).1
}

/// Chooses the directory a version lives in, given a listing of the working directory.
pub fn resolve_game_directory(
    name: &str,
    version_type: VersionType,
    package_type: PackageType,
    dirs: &GameDirectories,
) -> (r: String)
    ensures
        r@ == resolved_game_directory(*dirs, name@, version_type, package_type),
{
    let new_dir = build_game_directory(name, version_type, package_type);
    if dirs.probe(new_dir.as_str()).0 {
        return new_dir;
    }
    let legacy_dir = build_legacy_game_directory(name, version_type);
    let (legacy_exists, _) = dirs.probe(legacy_dir.as_str());
    if legacy_exists {
        let legacy_is_gdk = is_gdk_directory(dirs, legacy_dir.as_str());
        let wants_gdk = match package_type {
            PackageType::Gdk => true,
            PackageType::Uwp => false,
        };
        if legacy_is_gdk == wants_gdk {
            return legacy_dir;
        }
    }
    new_dir
}

/// The file name a downloaded package is saved under.
pub fn build_download_filename(name: &str, version_type: VersionType, package_type: PackageType) -> (r: String)
    ensures
        r@ == download_file_name(name@, version_type, package_type),
{
    let mut file = String::from_str(get_directory_prefix(version_type));
    file.append(name);
    file.append(".");
    match package_type {
        PackageType::Uwp => file.append("appx"),
        PackageType::Gdk => file.append("msixvc"),
    }
    file
}

/// A downloaded package is named as the legacy game directory, a dot, and the
/// package's extension.
pub proof fn lemma_download_file_is_legacy_dir_with_extension(
    name: Seq<char>,
    version_type: VersionType,
    package_type: PackageType,
)
    ensures
        download_file_name(name, version_type, package_type) == legacy_game_directory_name(
            name,
            version_type,
        ) + "."@ + package_extension(package_type),
{
}

/// A resolved game directory is always the tagged or the legacy directory, and it
/// is the tagged one whenever that exists.
pub proof fn lemma_resolved_directory_is_a_candidate(
    dirs: GameDirectories,
    name: Seq<char>,
    version_type: VersionType,
    package_type: PackageType,
)
    ensures
        ({
            let r = resolved_game_directory(dirs, name, version_type, package_type);
            &&& r == game_directory_name(name, version_type, package_type) || r
                == legacy_game_directory_name(name, version_type)
            &&& dir_exists(dirs, game_directory_name(name, version_type, package_type)) ==> r
                == game_directory_name(name, version_type, package_type)
        }),
{
}

/// The tagged directory and the legacy directory of a version are never the same
/// name: the tagged one carries the package tag.
proof fn lemma_tagged_and_legacy_differ(name: Seq<char>, version_type: VersionType, package_type: PackageType)
    ensures
        game_directory_name(name, version_type, package_type) != legacy_game_directory_name(
            name,
            version_type,
        ),
{
    reveal_strlit("GDK-");
    reveal_strlit("UWP-");
    assert(game_directory_name(name, version_type, package_type).len() == legacy_game_directory_name(
        name,
        version_type,
    ).len() + 4);
}

/// A legacy directory is reused only for its own package kind: the legacy
/// directory is chosen exactly when the tagged directory is missing, the legacy
/// one is there, and it holds a GDK config just when the version is a GDK
/// package. So a legacy GDK install is never taken for a UWP version, nor a
/// legacy UWP install for a GDK version.
pub proof fn lemma_legacy_directory_matches_package_kind(
    dirs: GameDirectories,
    name: Seq<char>,
    version_type: VersionType,
    package_type: PackageType,
)
    ensures
        ({
            let r = resolved_game_directory(dirs, name, version_type, package_type);
            let tagged = game_directory_name(name, version_type, package_type);
            let legacy = legacy_game_directory_name(name, version_type);
            &&& r == legacy <==> {
                &&& !dir_exists(dirs, tagged)
                &&& dir_exists(dirs, legacy)
                &&& dir_is_gdk(dirs, legacy) == (package_type == PackageType::Gdk)
            }
            &&& r == legacy ==> dir_is_gdk(dirs, legacy) == (package_type == PackageType::Gdk)
            &&& (package_type == PackageType::Uwp && dir_is_gdk(dirs, legacy)) ==> r == tagged
            &&& (package_type == PackageType::Gdk && !dir_is_gdk(dirs, legacy)) ==> r == tagged
        }),
{
    lemma_tagged_and_legacy_differ(name, version_type, package_type);
}

/// Release, Beta and imported versions install as the one Minecraft package
/// family; only Preview versions install as the preview family, which is a
/// different family.
pub proof fn lemma_only_preview_uses_preview_family(a: VersionType, b: VersionType)
    ensures
        package_family_of(a) == package_family_of(b) <==> (a == VersionType::Preview) == (b
            == VersionType::Preview),
        package_family_of(VersionType::Release) == PackageFamilies::MINECRAFT@,
        package_family_of(a) == PackageFamilies::MINECRAFT_PREVIEW@ <==> a == VersionType::Preview,
{
    reveal_strlit("Microsoft.MinecraftUWP_8wekyb3d8bbwe");
    reveal_strlit("Microsoft.MinecraftWindowsBeta_8wekyb3d8bbwe");
    assert(PackageFamilies::MINECRAFT@[19] != PackageFamilies::MINECRAFT_PREVIEW@[19]);
}

} // verus!
