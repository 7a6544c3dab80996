use vstd::prelude::*;

use crate::error::{invalid_response, is_invalid_response, Result};
use crate::error::CoreError;
use crate::json::{
    items_view, json_as_array, json_as_i64, json_as_object, json_as_str, json_document, json_get,
    lemma_items_view, lemma_members_view, members_view, parse_json, JsonMember, JsonMemberView,
    JsonValue, JsonValueView,
};
use crate::types::{
    resolved_game_directory, strings_view, version_type_of_code, versions_view, GameDirectories, PackageType,
    Version, VersionType, VersionView, UNKNOWN_UUID,
};

verus! {

pub const DEFAULT_VERSIONS_API_UWP: &'static str = "https://mrarm.io/r/w10-vdb";

pub const DEFAULT_VERSIONS_API_GDK: &'static str = "https://raw.githubusercontent.com/MinecraftBedrockArchiver/GdkLinks/refs/heads/master/urls.min.json";

/// One entry of the imported-versions directory: its name when that is valid
/// Unicode, its full path, whether it is a directory, and whether it holds a
/// `MicrosoftGame.Config` file.
#[derive(Debug, Clone)]
pub struct ImportedEntry {
    pub name: Option<String>,
    pub path: String,
    pub is_dir: bool,
    pub has_game_config: bool,
}

/// The catalogue as plain values: the versions in list order, and every name
/// that has been seen (database names, and `IMPORTED_` + name for imports).
pub struct CatalogView {
    pub versions: Seq<VersionView>,
    pub known: Set<Seq<char>>,
}

/// Where the version lists come from and are cached, as plain values.
pub struct SourcesView {
    pub versions_api_uwp: Seq<char>,
    pub versions_api_gdk: Seq<char>,
    pub cache_file_uwp: Seq<char>,
    pub cache_file_gdk: Seq<char>,
    pub imported_directory: Seq<char>,
}

/// The list of known game versions, built from the two version databases and the
/// imported-versions directory. No name is recorded twice.
pub struct VersionList {
    versions_api_uwp: String,
    versions_api_gdk: String,
    cache_file_uwp: String,
    cache_file_gdk: String,
    imported_directory: String,
    versions: Vec<Version>,
    db_versions: Vec<String>,
}

pub open spec fn known_set(names: Seq<String>) -> Set<Seq<char>> {
    Set::new(|x: Seq<char>| exists|i: int| 0 <= i < names.len() && #[trigger] names[i]@ == x)
}

impl View for VersionList {
    type V = CatalogView;

    closed spec fn view(&self) -> CatalogView {
        CatalogView { versions: versions_view(self.versions@), known: known_set(self.db_versions@) }
    }
}

/// The catalogue with one more version, whose name becomes known.
pub open spec fn with_version(st: CatalogView, v: VersionView) -> CatalogView {
    CatalogView { versions: st.versions.push(v), known: st.known.insert(v.name) }
}

/// What one step of a list parse does: a new catalogue, or the message of the
/// error that stops the parse.
pub type Step<T> = spec_fn(CatalogView, T) -> std::result::Result<CatalogView, Seq<char>>;

/// Runs the steps over `items` in order, stopping at the first error; gives the
/// catalogue reached and the error, if any.
pub open spec fn fold_steps<T>(st: CatalogView, items: Seq<T>, step: Step<T>) -> (CatalogView, Option<Seq<char>>)
    decreases items.len(),
{
    if items.len() == 0 {
        (st, None)
    } else {
        let prev = fold_steps(st, items.drop_last(), step);
        if prev.1 is Some {
            prev
        } else {
            match step(prev.0, items.last()) {
                Ok(next) => (next, None),
                Err(m) => (prev.0, Some(m)),
            }
        }
    }
}

pub open spec fn reversed<T>(s: Seq<T>) -> Seq<T> {
    Seq::new(s.len(), |i: int| s[s.len() - 1 - i])
}

/// One entry `[name, uuid, type]` of the UWP database.
pub open spec fn uwp_entry_step(
    st: CatalogView,
    item: JsonValueView,
    is_cache: bool,
    dirs: GameDirectories,
) -> std::result::Result<CatalogView, Seq<char>> {
    match json_as_array(item) {
        None => Err("UWP entry is not an array"@),
        Some(entry) => {
            if entry.len() < 3 {
                Err("UWP entry does not have 3 fields"@)
            } else if json_as_str(entry[0]) is None {
                Err("UWP name is not a string"@)
            } else if json_as_str(entry[1]) is None {
                Err("UWP uuid is not a string"@)
            } else if json_as_i64(entry[2]) is None {
                Err("UWP version type is not an int"@)
            } else {
                let name = json_as_str(entry[0]).unwrap();
                let uuid = json_as_str(entry[1]).unwrap();
                match version_type_of_code(json_as_i64(entry[2]).unwrap()) {
                    None => Ok(st),
                    Some(vt) => {
                        if vt == VersionType::Imported {
                            Ok(st)
                        } else {
                            Ok(
                                with_version(
                                    st,
                                    VersionView {
                                        uuid,
                                        name,
                                        version_type: vt,
                                        is_new: !st.known.contains(name) && !is_cache,
                                        package_type: PackageType::Uwp,
                                        download_urls: Seq::empty(),
                                        game_directory: resolved_game_directory(
                                            dirs,
                                            name,
                                            vt,
                                            PackageType::Uwp,
                                        ),
                                    },
                                ),
                            )
                        }
                    },
                }
            }
        },
    }
}

pub open spec fn uwp_step(is_cache: bool, dirs: GameDirectories) -> Step<JsonValueView> {
    |st: CatalogView, item: JsonValueView| uwp_entry_step(st, item, is_cache, dirs)
}

/// The UWP database is an array of entries, read from the last to the first.
pub open spec fn uwp_list_outcome(
    st: CatalogView,
    data: JsonValueView,
    is_cache: bool,
    dirs: GameDirectories,
) -> (CatalogView, Option<Seq<char>>) {
    match json_as_array(data) {
        None => (st, Some("UWP list is not an array"@)),
        Some(items) => fold_steps(st, reversed(items), uwp_step(is_cache, dirs)),
    }
}

/// The strings of a JSON array, in order; other items are skipped.
pub open spec fn string_items(items: Seq<JsonValueView>) -> Seq<Seq<char>>
    decreases items.len(),
{
    if items.len() == 0 {
        Seq::empty()
    } else {
        let rest = string_items(items.drop_last());
        match json_as_str(items.last()) {
            Some(s) => rest.push(s),
            None => rest,
        }
    }
}

/// One member `name: [url, ...]` of a GDK list.
pub open spec fn gdk_entry_step(
    st: CatalogView,
    member: JsonMemberView,
    is_cache: bool,
    version_type: VersionType,
    dirs: GameDirectories,
) -> std::result::Result<CatalogView, Seq<char>> {
    match json_as_array(member.value) {
        None => Err("GDK urls entry is not an array"@),
        Some(items) => {
            let urls = string_items(items);
            let name = member.key;
            if urls.len() == 0 {
                Ok(st)
            } else {
                Ok(
                    with_version(
                        st,
                        VersionView {
                            uuid: UNKNOWN_UUID@,
                            name,
                            version_type,
                            is_new: !st.known.contains(name) && !is_cache,
                            package_type: PackageType::Gdk,
                            download_urls: urls,
                            game_directory: resolved_game_directory(
                                dirs,
                                name,
                                version_type,
                                PackageType::Gdk,
                            ),
                        },
                    ),
                )
            }
        },
    }
}

pub open spec fn gdk_step(is_cache: bool, version_type: VersionType, dirs: GameDirectories) -> Step<JsonMemberView> {
    |st: CatalogView, m: JsonMemberView| gdk_entry_step(st, m, is_cache, version_type, dirs)
}

/// A GDK list is an object from version names to download urls, read in order.
pub open spec fn gdk_list_outcome(
    st: CatalogView,
    data: JsonValueView,
    is_cache: bool,
    version_type: VersionType,
    dirs: GameDirectories,
) -> (CatalogView, Option<Seq<char>>) {
    match json_as_object(data) {
        None => (st, Some("GDK list is not an object"@)),
        Some(members) => fold_steps(st, members, gdk_step(is_cache, version_type, dirs)),
    }
}

/// The GDK database holds a `release` and a `preview` list; both must be there
/// before either is read.
pub open spec fn gdk_data_outcome(
    st: CatalogView,
    data: JsonValueView,
    is_cache: bool,
    dirs: GameDirectories,
) -> (CatalogView, Option<Seq<char>>) {
    match json_get(data, "release"@) {
        None => (st, Some("GDK data missing release"@)),
        Some(release) => match json_get(data, "preview"@) {
            None => (st, Some("GDK data missing preview"@)),
            Some(preview) => {
                let first = gdk_list_outcome(st, release, is_cache, VersionType::Release, dirs);
                if first.1 is Some {
                    first
                } else {
                    gdk_list_outcome(first.0, preview, is_cache, VersionType::Preview, dirs)
                }
            },
        },
    }
}

pub open spec fn imported_key(name: Seq<char>) -> Seq<char> {
    "IMPORTED_"@ + name
}

/// One entry of the imported-versions directory: a directory with a valid name
/// whose key is not known yet becomes an imported version.
pub open spec fn imported_entry_step(st: CatalogView, e: ImportedEntry) -> CatalogView {
    if !e.is_dir || e.name is None {
        st
    } else {
        let name = e.name.unwrap()@;
        if st.known.contains(imported_key(name)) {
            st
        } else {
            CatalogView {
                versions: st.versions.push(
                    VersionView {
                        uuid: UNKNOWN_UUID@,
                        name,
                        version_type: VersionType::Imported,
                        is_new: false,
                        package_type: if e.has_game_config {
                            PackageType::Gdk
                        } else {
                            PackageType::Uwp
                        },
                        download_urls: Seq::empty(),
                        game_directory: e.path@,
                    },
                ),
                known: st.known.insert(imported_key(name)),
            }
        }
    }
}

pub open spec fn imported_step() -> Step<ImportedEntry> {
    |st: CatalogView, e: ImportedEntry| Ok(imported_entry_step(st, e))
}

/// The versions of `s` that are imported, in order.
pub open spec fn imported_only(s: Seq<VersionView>) -> Seq<VersionView>
    decreases s.len(),
{
    if s.len() == 0 {
        Seq::empty()
    } else if s[0].version_type == VersionType::Imported {
        seq![s[0]] + imported_only(s.drop_first())
    } else {
        imported_only(s.drop_first())
    }
}

/// The strings of a JSON array, in order.
fn collect_strings(items: &Vec<JsonValue>) -> (r: Vec<String>)
    ensures
        strings_view(r@) == string_items(items_view(items@)),
{
    let ghost all = items_view(items@);
    proof {
        lemma_items_view(items@);
    }
    let mut r: Vec<String> = Vec::new();
    let mut i: usize = 0;
    assert(all.take(0) =~= Seq::<JsonValueView>::empty());
    while i < items.len()
        invariant
            i <= items@.len(),
            all == items_view(items@),
            all.len() == items@.len(),
            forall|k: int| 0 <= k < items@.len() ==> #[trigger] all[k] == items@[k]@,
            strings_view(r@) == string_items(all.take(i as int)),
        decreases items@.len() - i,
    {
        assert(all.take(i + 1).drop_last() =~= all.take(i as int));
        assert(all.take(i + 1).last() == items@[i as int]@);
        match items[i].as_str() {
            Some(s) => {
                let ghost before = r@;
                r.push(String::from_str(s));
                assert(strings_view(r@) =~= strings_view(before).push(s@));
            },
            None => {},
        }
        i = i + 1;
    }
    assert(all.take(items@.len() as int) =~= all);
    r
}

/// Once a step has failed, the rest of the items change nothing.
pub proof fn lemma_fold_error_sticks<T>(st: CatalogView, items: Seq<T>, k: int, step: Step<T>)
    requires
        0 <= k <= items.len(),
        fold_steps(st, items.take(k), step).1 is Some,
    ensures
        fold_steps(st, items, step) == fold_steps(st, items.take(k), step),
    decreases items.len() - k,
{
    if k < items.len() {
        assert(items.take(k + 1).drop_last() =~= items.take(k));
        lemma_fold_error_sticks(st, items, k + 1, step);
    } else {
        assert(items.take(k) =~= items);
    }
}

impl VersionList {
    pub closed spec fn sources(&self) -> SourcesView {
        SourcesView {
            versions_api_uwp: self.versions_api_uwp@,
            versions_api_gdk: self.versions_api_gdk@,
            cache_file_uwp: self.cache_file_uwp@,
            cache_file_gdk: self.cache_file_gdk@,
            imported_directory: self.imported_directory@,
        }
    }

    #[verifier::type_invariant]
    closed spec fn no_name_twice(&self) -> bool {
        forall|i: int, j: int|
            0 <= i < j < self.db_versions@.len() ==> self.db_versions@[i]@
                != self.db_versions@[j]@
    }

    /// An empty list that reads from the given databases, cache files and
    /// imported-versions directory.
    pub fn new(
        cache_file_uwp: String,
        cache_file_gdk: String,
        imported_directory: String,
        versions_api_uwp: String,
        versions_api_gdk: String,
    ) -> (r: Self)
        ensures
            r@.versions.len() == 0,
            r@.known == Set::<Seq<char>>::empty(),
            r.sources() == (SourcesView {
                versions_api_uwp: versions_api_uwp@,
                versions_api_gdk: versions_api_gdk@,
                cache_file_uwp: cache_file_uwp@,
                cache_file_gdk: cache_file_gdk@,
                imported_directory: imported_directory@,
            }),
    {
        let r = VersionList {
            versions_api_uwp,
            versions_api_gdk,
            cache_file_uwp,
            cache_file_gdk,
            imported_directory,
            versions: Vec::new(),
            db_versions: Vec::new(),
        };
        assert(r@.known =~= Set::<Seq<char>>::empty());
        assert(r@.versions =~= Seq::<VersionView>::empty());
        r
    }

    /// The versions, in list order.
    pub fn versions(&self) -> (r: &[Version])
        ensures
            versions_view(r@) == self@.versions,
    {
        self.versions.as_slice()
    }

    pub fn versions_api_uwp(&self) -> (r: &str)
        ensures
            r@ == self.sources().versions_api_uwp,
    {
        self.versions_api_uwp.as_str()
    }

    pub fn versions_api_gdk(&self) -> (r: &str)
        ensures
            r@ == self.sources().versions_api_gdk,
    {
        self.versions_api_gdk.as_str()
    }

    pub fn cache_file_uwp(&self) -> (r: &str)
        ensures
            r@ == self.sources().cache_file_uwp,
    {
        self.cache_file_uwp.as_str()
    }

    pub fn cache_file_gdk(&self) -> (r: &str)
        ensures
            r@ == self.sources().cache_file_gdk,
    {
        self.cache_file_gdk.as_str()
    }

    pub fn imported_directory(&self) -> (r: &str)
        ensures
            r@ == self.sources().imported_directory,
    {
        self.imported_directory.as_str()
    }

    /// Drops every version but the imported ones; the known names stay.
    pub fn prepare_for_reload(&mut self)
        ensures
            final(self)@.versions == imported_only(old(self)@.versions),
            final(self)@.known == old(self)@.known,
            final(self).sources() == old(self).sources(),
    {
        proof {
            use_type_invariant(&*self);
        }
        let mut rest: Vec<Version> = Vec::new();
        std::mem::swap(&mut rest, &mut self.versions);
        let ghost all = versions_view(rest@);
        let mut kept: Vec<Version> = Vec::new();
        while rest.len() > 0
            invariant
                versions_view(kept@) + imported_only(versions_view(rest@)) == imported_only(all),
            decreases rest@.len(),
        {
            let ghost before = versions_view(rest@);
            let v = rest.remove(0);
            assert(versions_view(rest@) =~= before.drop_first());
            if v.version_type == VersionType::Imported {
                let ghost k = versions_view(kept@);
                kept.push(v);
                assert(versions_view(kept@) =~= k + seq![v@]);
                assert(k + seq![v@] + imported_only(before.drop_first()) =~= k + (seq![v@]
                    + imported_only(before.drop_first())));
            }
        }
        assert(versions_view(kept@) + Seq::<VersionView>::empty() =~= versions_view(kept@));
        self.versions = kept;
    }

    fn push_version(&mut self, v: Version)
        ensures
            final(self)@.versions == old(self)@.versions.push(v@),
            final(self)@.known == old(self)@.known,
            final(self).sources() == old(self).sources(),
    {
        proof {
            use_type_invariant(&*self);
        }
        let mut vs: Vec<Version> = Vec::new();
        std::mem::swap(&mut vs, &mut self.versions);
        let ghost before = vs@;
        vs.push(v);
        assert(versions_view(vs@) =~= versions_view(before).push(v@));
        self.versions = vs;
    }

    /// Reads one entry of the UWP database.
    fn parse_uwp_entry(&mut self, item: &JsonValue, is_cache: bool, dirs: &GameDirectories) -> (r:
        Result<()>)
        ensures
            match uwp_entry_step(old(self)@, item@, is_cache, *dirs) {
                Ok(next) => r is Ok && final(self)@ == next,
                Err(m) => is_invalid_response(r, m) && final(self)@ == old(self)@,
            },
            final(self).sources() == old(self).sources(),
    {
        let entry = match item.as_array() {
            Some(e) => e,
            None => return Err(invalid_response("UWP entry is not an array")),
        };
        proof {
            lemma_items_view(entry@);
        }
        if entry.len() < 3 {
            return Err(invalid_response("UWP entry does not have 3 fields"));
        }
        let name = match entry[0].as_str() {
            Some(s) => String::from_str(s),
            None => return Err(invalid_response("UWP name is not a string")),
        };
        let uuid = match entry[1].as_str() {
            Some(s) => String::from_str(s),
            None => return Err(invalid_response("UWP uuid is not a string")),
        };
        let code = match entry[2].as_i64() {
            Some(c) => c,
            None => return Err(invalid_response("UWP version type is not an int")),
        };
        let version_type = match VersionType::from_i64(code) {
            Some(v) => v,
            None => return Ok(()),
        };
        if version_type == VersionType::Imported {
            return Ok(());
        }
        let exists = !self.insert_known(&name);
        let is_new = !exists && !is_cache;
        let v = Version::new_from_db(
            uuid,
            name,
            version_type,
            is_new,
            PackageType::Uwp,
            Vec::new(),
            dirs,
        );
        proof {
            assert(strings_view(v.download_urls@) =~= Seq::<Seq<char>>::empty());
        }
        self.push_version(v);
        Ok(())
    }

    /// Reads the UWP database: an array of `[name, uuid, type]` entries, from the
    /// last to the first. Each database version not seen before gets `is_new` set,
    /// unless the list comes from the cache. Entries of an unknown or the imported
    /// type are skipped. A malformed entry stops the reading; what was read before
    /// it stays.
    pub fn parse_list_uwp(&mut self, data: &JsonValue, is_cache: bool, dirs: &GameDirectories) -> (r:
        Result<()>)
        ensures
            ({
                let out = uwp_list_outcome(old(self)@, data@, is_cache, *dirs);
                &&& final(self)@ == out.0
                &&& match out.1 {
                    None => r is Ok,
                    Some(m) => is_invalid_response(r, m),
                }
            }),
            final(self).sources() == old(self).sources(),
    {
        let array = match data.as_array() {
            Some(a) => a,
            None => return Err(invalid_response("UWP list is not an array")),
        };
        let n = array.len();
        let ghost st0 = self@;
        let ghost src0 = self.sources();
        let ghost rev = reversed(items_view(array@));
        let ghost step = uwp_step(is_cache, *dirs);
        proof {
            lemma_items_view(array@);
        }
        let mut j: usize = 0;
        assert(rev.take(0) =~= Seq::<JsonValueView>::empty());
        while j < n
            invariant
                n == array@.len(),
                j <= n,
                rev == reversed(items_view(array@)),
                items_view(array@).len() == n,
                forall|k: int| 0 <= k < n ==> #[trigger] items_view(array@)[k] == array@[k]@,
                step == uwp_step(is_cache, *dirs),
                fold_steps(st0, rev.take(j as int), step) == (self@, None::<Seq<char>>),
                self.sources() == src0,
                st0 == old(self)@,
                src0 == old(self).sources(),
                json_as_array(data@) == Some(items_view(array@)),
            decreases n - j,
        {
            let item = &array[n - 1 - j];
            assert(rev.take(j + 1).drop_last() =~= rev.take(j as int));
            assert(rev.take(j + 1).last() == array@[n - 1 - j]@);
            let ghost before = self@;
            let res = self.parse_uwp_entry(item, is_cache, dirs);
            proof {
                assert(step(before, rev.take(j + 1).last()) == uwp_entry_step(
                    before,
                    item@,
                    is_cache,
                    *dirs,
                ));
            }
            match res {
                Ok(()) => {},
                Err(e) => {
                    proof {
                        assert(fold_steps(st0, rev.take(j + 1), step).1 is Some);
                        lemma_fold_error_sticks(st0, rev, j + 1, step);
                    }
                    return Err(e);
                },
            }
            j = j + 1;
        }
        assert(rev.take(n as int) =~= rev);
        Ok(())
    }

    /// Reads one member `name: [url, ...]` of a GDK list.
    fn parse_gdk_entry(
        &mut self,
        member: &JsonMember,
        is_cache: bool,
        version_type: VersionType,
        dirs: &GameDirectories,
    ) -> (r: Result<()>)
        ensures
            match gdk_entry_step(
                old(self)@,
                JsonMemberView { key: member.key@, value: member.value@ },
                is_cache,
                version_type,
                *dirs,
            ) {
                Ok(next) => r is Ok && final(self)@ == next,
                Err(m) => is_invalid_response(r, m) && final(self)@ == old(self)@,
            },
            final(self).sources() == old(self).sources(),
    {
        let urls_array = match member.value.as_array() {
            Some(a) => a,
            None => return Err(invalid_response("GDK urls entry is not an array")),
        };
        let download_urls = collect_strings(urls_array);
        if download_urls.len() == 0 {
            return Ok(());
        }
        let exists = !self.insert_known(&member.key);
        let is_new = !exists && !is_cache;
        let v = Version::new_from_db(
            String::from_str(UNKNOWN_UUID),
            member.key.clone(),
            version_type,
            is_new,
            PackageType::Gdk,
            download_urls,
            dirs,
        );
        self.push_version(v);
        Ok(())
    }

    /// Reads a GDK list: an object from version names to arrays of download urls,
    /// in member order. Non-string urls are skipped, and a name with no url is
    /// skipped. A member whose value is not an array stops the reading; what was
    /// read before it stays.
    pub fn parse_list_gdk(
        &mut self,
        data: &JsonValue,
        is_cache: bool,
        version_type: VersionType,
        dirs: &GameDirectories,
    ) -> (r: Result<()>)
        ensures
            ({
                let out = gdk_list_outcome(old(self)@, data@, is_cache, version_type, *dirs);
                &&& final(self)@ == out.0
                &&& match out.1 {
                    None => r is Ok,
                    Some(m) => is_invalid_response(r, m),
                }
            }),
            final(self).sources() == old(self).sources(),
    {
        let members = match data.as_object() {
            Some(m) => m,
            None => return Err(invalid_response("GDK list is not an object")),
        };
        let n = members.len();
        let ghost ms = members_view(members@);
        proof {
            lemma_members_view(members@);
        }
        let ghost st0 = self@;
        let ghost src0 = self.sources();
        let ghost step = gdk_step(is_cache, version_type, *dirs);
        let mut j: usize = 0;
        assert(ms.take(0) =~= Seq::<JsonMemberView>::empty());
        while j < n
            invariant
                n == members@.len(),
                j <= n,
                ms == members_view(members@),
                ms.len() == n,
                forall|k: int|
                    0 <= k < n ==> #[trigger] ms[k] == (JsonMemberView {
                        key: members@[k].key@,
                        value: members@[k].value@,
                    }),
                step == gdk_step(is_cache, version_type, *dirs),
                fold_steps(st0, ms.take(j as int), step) == (self@, None::<Seq<char>>),
                self.sources() == src0,
                st0 == old(self)@,
                src0 == old(self).sources(),
                json_as_object(data@) == Some(ms),
            decreases n - j,
        {
            assert(ms.take(j + 1).drop_last() =~= ms.take(j as int));
            assert(ms.take(j + 1).last() == ms[j as int]);
            let ghost before = self@;
            let res = self.parse_gdk_entry(&members[j], is_cache, version_type, dirs);
            proof {
                assert(step(before, ms[j as int]) == gdk_entry_step(
                    before,
                    ms[j as int],
                    is_cache,
                    version_type,
                    *dirs,
                ));
            }
            match res {
                Ok(()) => {},
                Err(e) => {
                    proof {
                        assert(fold_steps(st0, ms.take(j + 1), step).1 is Some);
                        lemma_fold_error_sticks(st0, ms, j + 1, step);
                    }
                    return Err(e);
                },
            }
            j = j + 1;
        }
        assert(ms.take(n as int) =~= ms);
        Ok(())
    }

    /// Reads the GDK database: its `release` list, then its `preview` list. Both
    /// must be present before either is read.
    pub fn parse_data_gdk(&mut self, data: &JsonValue, is_cache: bool, dirs: &GameDirectories) -> (r:
        Result<()>)
        ensures
            ({
                let out = gdk_data_outcome(old(self)@, data@, is_cache, *dirs);
                &&& final(self)@ == out.0
                &&& match out.1 {
                    None => r is Ok,
                    Some(m) => is_invalid_response(r, m),
                }
            }),
            final(self).sources() == old(self).sources(),
    {
        let release = match data.get("release") {
            Some(v) => v,
            None => return Err(invalid_response("GDK data missing release")),
        };
        let preview = match data.get("preview") {
            Some(v) => v,
            None => return Err(invalid_response("GDK data missing preview")),
        };
        self.parse_list_gdk(release, is_cache, VersionType::Release, dirs)?;
        self.parse_list_gdk(preview, is_cache, VersionType::Preview, dirs)?;
        Ok(())
    }

    /// Reads the cached UWP database text, when there is a cache file (`None`: none).
    pub fn load_from_cache_uwp(&mut self, cached: Option<&str>, dirs: &GameDirectories) -> (r: Result<()>)
        ensures
            match cached {
                None => r is Ok && final(self)@ == old(self)@,
                Some(text) => match json_document(text@) {
                    None => r matches Err(CoreError::Json(_)) && final(self)@ == old(self)@,
                    Some(doc) => {
                        let out = uwp_list_outcome(old(self)@, doc, true, *dirs);
                        &&& final(self)@ == out.0
                        &&& match out.1 {
                            None => r is Ok,
                            Some(m) => is_invalid_response(r, m),
                        }
                    },
                },
            },
            final(self).sources() == old(self).sources(),
    {
        let text = match cached {
            None => return Ok(()),
            Some(t) => t,
        };
        match parse_json(text) {
            Ok(data) => self.parse_list_uwp(&data, true, dirs),
            Err(e) => Err(CoreError::Json(e)),
        }
    }

    /// Reads the cached GDK database text, when there is a cache file (`None`: none).
    pub fn load_from_cache_gdk(&mut self, cached: Option<&str>, dirs: &GameDirectories) -> (r: Result<()>)
        ensures
            match cached {
                None => r is Ok && final(self)@ == old(self)@,
                Some(text) => match json_document(text@) {
                    None => r matches Err(CoreError::Json(_)) && final(self)@ == old(self)@,
                    Some(doc) => {
                        let out = gdk_data_outcome(old(self)@, doc, true, *dirs);
                        &&& final(self)@ == out.0
                        &&& match out.1 {
                            None => r is Ok,
                            Some(m) => is_invalid_response(r, m),
                        }
                    },
                },
            },
            final(self).sources() == old(self).sources(),
    {
        let text = match cached {
            None => return Ok(()),
            Some(t) => t,
        };
        match parse_json(text) {
            Ok(data) => self.parse_data_gdk(&data, true, dirs),
            Err(e) => Err(CoreError::Json(e)),
        }
    }

    /// Reads a freshly downloaded UWP database text.
    pub fn download_versions_uwp(&mut self, body: &str, dirs: &GameDirectories) -> (r: Result<()>)
        ensures
            match json_document(body@) {
                None => r matches Err(CoreError::Json(_)) && final(self)@ == old(self)@,
                Some(doc) => {
                    let out = uwp_list_outcome(old(self)@, doc, false, *dirs);
                    &&& final(self)@ == out.0
                    &&& match out.1 {
                        None => r is Ok,
                        Some(m) => is_invalid_response(r, m),
                    }
                },
            },
            final(self).sources() == old(self).sources(),
    {
        match parse_json(body) {
            Ok(data) => self.parse_list_uwp(&data, false, dirs),
            Err(e) => Err(CoreError::Json(e)),
        }
    }

    /// Reads a freshly downloaded GDK database text.
    pub fn download_versions_gdk(&mut self, body: &str, dirs: &GameDirectories) -> (r: Result<()>)
        ensures
            match json_document(body@) {
                None => r matches Err(CoreError::Json(_)) && final(self)@ == old(self)@,
                Some(doc) => {
                    let out = gdk_data_outcome(old(self)@, doc, false, *dirs);
                    &&& final(self)@ == out.0
                    &&& match out.1 {
                        None => r is Ok,
                        Some(m) => is_invalid_response(r, m),
                    }
                },
            },
            final(self).sources() == old(self).sources(),
    {
        match parse_json(body) {
            Ok(data) => self.parse_data_gdk(&data, false, dirs),
            Err(e) => Err(CoreError::Json(e)),
        }
    }

    /// Adds the directories of the imported-versions folder, in listing order:
    /// each directory with a valid name whose `IMPORTED_` key is not known yet.
    pub fn load_imported(&mut self, entries: &Vec<ImportedEntry>)
        ensures
            final(self)@ == fold_steps(old(self)@, entries@, imported_step()).0,
            final(self).sources() == old(self).sources(),
    {
        let n = entries.len();
        let ghost st0 = self@;
        let ghost src0 = self.sources();
        let ghost step = imported_step();
        let mut j: usize = 0;
        assert(entries@.take(0) =~= Seq::<ImportedEntry>::empty());
        while j < n
            invariant
                n == entries@.len(),
                j <= n,
                step == imported_step(),
                fold_steps(st0, entries@.take(j as int), step) == (self@, None::<Seq<char>>),
                self.sources() == src0,
                st0 == old(self)@,
                src0 == old(self).sources(),
            decreases n - j,
        {
            assert(entries@.take(j + 1).drop_last() =~= entries@.take(j as int));
            assert(entries@.take(j + 1).last() == entries@[j as int]);
            let ghost before = self@;
            let entry = &entries[j];
            if entry.is_dir {
                match &entry.name {
                    Some(name) => {
                        let mut key = String::from_str("IMPORTED_");
                        key.append(name.as_str());
                        if self.insert_known(&key) {
                            let package_type = if entry.has_game_config {
                                PackageType::Gdk
                            } else {
                                PackageType::Uwp
                            };
                            let v = Version::new_imported(
                                name.clone(),
                                entry.path.clone(),
                                package_type,
                            );
                            proof {
                                assert(strings_view(v.download_urls@) =~= Seq::<
                                    Seq<char>,
                                >::empty());
                            }
                            self.push_version(v);
                            assert(v@ == (VersionView {
                                uuid: UNKNOWN_UUID@,
                                name: name@,
                                version_type: VersionType::Imported,
                                is_new: false,
                                package_type,
                                download_urls: Seq::empty(),
                                game_directory: entry.path@,
                            }));
                            assert(key@ == imported_key(name@));
                        } else {
                            assert(key@ == imported_key(name@));
                            assert(before.known.insert(key@) =~= before.known);
                        }
                    },
                    None => {},
                }
            }
            assert(self@ == imported_entry_step(before, entries@[j as int]));
            j = j + 1;
        }
        assert(entries@.take(n as int) =~= entries@);
    }

    /// Records `name` as known; true when it was not known before.
    fn insert_known(&mut self, name: &String) -> (fresh: bool)
        ensures
            fresh == !old(self)@.known.contains(name@),
            final(self)@.known == old(self)@.known.insert(name@),
            final(self)@.versions == old(self)@.versions,
            final(self).sources() == old(self).sources(),
    {
        proof {
            use_type_invariant(&*self);
        }
        let mut i: usize = 0;
        while i < self.db_versions.len()
            invariant
                i <= self.db_versions@.len(),
                forall|k: int| 0 <= k < i ==> self.db_versions@[k]@ != name@,
            decreases self.db_versions@.len() - i,
        {
            if self.db_versions[i] == *name {
                assert(self.db_versions@[i as int]@ == name@);
                assert(self@.known.contains(name@));
                assert(self@.known.insert(name@) =~= self@.known);
                return false;
            }
            i = i + 1;
        }
        let ghost before = self.db_versions@;
        assert(!self@.known.contains(name@));
        let mut names: Vec<String> = Vec::new();
        std::mem::swap(&mut names, &mut self.db_versions);
        names.push(name.clone());
        assert(known_set(names@) =~= known_set(before).insert(name@)) by {
            assert(names@[before.len() as int] == *name);
            assert forall|x: Seq<char>| known_set(before).contains(x) implies known_set(
                names@,
            ).contains(x) by {
                let k = choose|k: int| 0 <= k < before.len() && #[trigger] before[k]@ == x;
                assert(names@[k] == before[k]);
            }
        }
        self.db_versions = names;
        true
    }
}

} // verus!

verus! {

/// Growth of the catalogue from `st0` to `st` by reading a version database:
/// the old versions stay in front, known names stay known, every added version's
/// name is known, and an added version is new only when its name was not known
/// before and the list was not read from the cache.
pub open spec fn db_growth(st0: CatalogView, st: CatalogView, is_cache: bool) -> bool {
    &&& st0.versions.len() <= st.versions.len()
    &&& forall|i: int| 0 <= i < st0.versions.len() ==> #[trigger] st.versions[i] == st0.versions[i]
    &&& st0.known.subset_of(st.known)
    &&& forall|i: int|
        st0.versions.len() <= i < st.versions.len() ==> {
            &&& st.known.contains(#[trigger] st.versions[i].name)
            &&& (st.versions[i].is_new ==> !is_cache && !st0.known.contains(st.versions[i].name))
        }
}

/// A property that every successful step keeps holds after any run of the steps.
pub proof fn lemma_fold_keeps<T>(
    st: CatalogView,
    items: Seq<T>,
    step: Step<T>,
    inv: spec_fn(CatalogView) -> bool,
)
    requires
        inv(st),
        forall|s: CatalogView, x: T|
            inv(s) && (#[trigger] step(s, x)) is Ok ==> inv(step(s, x)->Ok_0),
    ensures
        inv(fold_steps(st, items, step).0),
    decreases items.len(),
{
    if items.len() > 0 {
        lemma_fold_keeps(st, items.drop_last(), step, inv);
    }
}

#[verifier::spinoff_prover]
proof fn lemma_with_version_growth(st0: CatalogView, s: CatalogView, v: VersionView, is_cache: bool)
    requires
        db_growth(st0, s, is_cache),
        v.is_new ==> !is_cache && !s.known.contains(v.name),
    ensures
        db_growth(st0, with_version(s, v), is_cache),
{
    let t = with_version(s, v);
    assert(t.known == s.known.insert(v.name));
    let n0 = st0.versions.len();
    let n = s.versions.len();
    assert(t.versions.len() == n + 1);
    assert(t.versions[n as int] == v);
    assert forall|i: int| 0 <= i < n implies #[trigger] t.versions[i] == s.versions[i] by {}
    assert forall|i: int| n0 <= i < t.versions.len() implies {
        &&& t.known.contains(#[trigger] t.versions[i].name)
        &&& (t.versions[i].is_new ==> !is_cache && !st0.known.contains(t.versions[i].name))
    } by {
        if i < n {
            assert(t.versions[i] == s.versions[i]);
            assert(s.known.contains(s.versions[i].name));
        } else {
            assert(t.versions[i] == v);
            if v.is_new {
                assert(!s.known.contains(v.name));
                assert(!st0.known.contains(v.name));
            }
        }
    }
    assert forall|i: int| 0 <= i < n0 implies #[trigger] t.versions[i] == st0.versions[i] by {
        assert(t.versions[i] == s.versions[i]);
    }
    assert forall|x: Seq<char>| st0.known.contains(x) implies t.known.contains(x) by {
        assert(s.known.contains(x));
    }
    assert(st0.known.subset_of(t.known));
    assert(n0 <= t.versions.len());
}

proof fn lemma_uwp_steps_grow(st0: CatalogView, is_cache: bool, dirs: GameDirectories)
    ensures
        forall|s: CatalogView, x: JsonValueView|
            db_growth(st0, s, is_cache) && (#[trigger] uwp_step(is_cache, dirs)(s, x)) is Ok
                ==> db_growth(st0, uwp_step(is_cache, dirs)(s, x)->Ok_0, is_cache),
{
    assert forall|s: CatalogView, x: JsonValueView|
        db_growth(st0, s, is_cache) && (#[trigger] uwp_step(is_cache, dirs)(s, x)) is Ok
            implies db_growth(st0, uwp_step(is_cache, dirs)(s, x)->Ok_0, is_cache) by {
        let r = uwp_entry_step(s, x, is_cache, dirs);
        assert(uwp_step(is_cache, dirs)(s, x) == r);
        if r->Ok_0 != s {
            let entry = json_as_array(x).unwrap();
            let name = json_as_str(entry[0]).unwrap();
            let uuid = json_as_str(entry[1]).unwrap();
            let vt = version_type_of_code(json_as_i64(entry[2]).unwrap()).unwrap();
            lemma_with_version_growth(
                st0,
                s,
                VersionView {
                    uuid,
                    name,
                    version_type: vt,
                    is_new: !s.known.contains(name) && !is_cache,
                    package_type: PackageType::Uwp,
                    download_urls: Seq::empty(),
                    game_directory: resolved_game_directory(dirs, name, vt, PackageType::Uwp),
                },
                is_cache,
            );
        }
    }
}

proof fn lemma_gdk_steps_grow(
    st0: CatalogView,
    is_cache: bool,
    version_type: VersionType,
    dirs: GameDirectories,
)
    ensures
        forall|s: CatalogView, x: JsonMemberView|
            db_growth(st0, s, is_cache) && (#[trigger] gdk_step(is_cache, version_type, dirs)(
                s,
                x,
            )) is Ok ==> db_growth(
                st0,
                gdk_step(is_cache, version_type, dirs)(s, x)->Ok_0,
                is_cache,
            ),
{
    assert forall|s: CatalogView, x: JsonMemberView|
        db_growth(st0, s, is_cache) && (#[trigger] gdk_step(is_cache, version_type, dirs)(
            s,
            x,
        )) is Ok implies db_growth(
        st0,
        gdk_step(is_cache, version_type, dirs)(s, x)->Ok_0,
        is_cache,
    ) by {
        let r = gdk_entry_step(s, x, is_cache, version_type, dirs);
        assert(gdk_step(is_cache, version_type, dirs)(s, x) == r);
        let urls = string_items(json_as_array(x.value).unwrap());
        if urls.len() != 0 {
            let name = x.key;
            lemma_with_version_growth(
                st0,
                s,
                VersionView {
                    uuid: UNKNOWN_UUID@,
                    name,
                    version_type,
                    is_new: !s.known.contains(name) && !is_cache,
                    package_type: PackageType::Gdk,
                    download_urls: urls,
                    game_directory: resolved_game_directory(
                        dirs,
                        name,
                        version_type,
                        PackageType::Gdk,
                    ),
                },
                is_cache,
            );
        }
    }
}

/// Reading the UWP database only appends versions and only learns names; a
/// version it adds is marked new only when its name was unknown before and the
/// database did not come from the cache.
pub proof fn lemma_uwp_read_growth(st: CatalogView, data: JsonValueView, is_cache: bool, dirs: GameDirectories)
    ensures
        db_growth(st, uwp_list_outcome(st, data, is_cache, dirs).0, is_cache),
{
    let inv = |s: CatalogView| db_growth(st, s, is_cache);
    assert(inv(st));
    lemma_uwp_steps_grow(st, is_cache, dirs);
    if let Some(items) = json_as_array(data) {
        lemma_fold_keeps(st, reversed(items), uwp_step(is_cache, dirs), inv);
    }
}

/// Reading the GDK database only appends versions and only learns names; a
/// version it adds is marked new only when its name was unknown before and the
/// database did not come from the cache.
pub proof fn lemma_gdk_read_growth(st: CatalogView, data: JsonValueView, is_cache: bool, dirs: GameDirectories)
    ensures
        db_growth(st, gdk_data_outcome(st, data, is_cache, dirs).0, is_cache),
{
    let inv = |s: CatalogView| db_growth(st, s, is_cache);
    assert(inv(st));
    lemma_gdk_steps_grow(st, is_cache, VersionType::Release, dirs);
    lemma_gdk_steps_grow(st, is_cache, VersionType::Preview, dirs);
    if let Some(release) = json_get(data, "release"@) {
        if let Some(preview) = json_get(data, "preview"@) {
            if let Some(members) = json_as_object(release) {
                lemma_fold_keeps(st, members, gdk_step(is_cache, VersionType::Release, dirs), inv);
            }
            let first = gdk_list_outcome(st, release, is_cache, VersionType::Release, dirs);
            if let Some(members) = json_as_object(preview) {
                lemma_fold_keeps(
                    first.0,
                    members,
                    gdk_step(is_cache, VersionType::Preview, dirs),
                    inv,
                );
            }
        }
    }
}

/// Versions read from a cached database are never marked new.
pub proof fn lemma_cache_reads_mark_nothing_new(st: CatalogView, data: JsonValueView, dirs: GameDirectories)
    ensures
        forall|i: int|
            st.versions.len() <= i < uwp_list_outcome(st, data, true, dirs).0.versions.len()
                ==> !(#[trigger] uwp_list_outcome(st, data, true, dirs).0.versions[i]).is_new,
        forall|i: int|
            st.versions.len() <= i < gdk_data_outcome(st, data, true, dirs).0.versions.len()
                ==> !(#[trigger] gdk_data_outcome(st, data, true, dirs).0.versions[i]).is_new,
{
    lemma_uwp_read_growth(st, data, true, dirs);
    lemma_gdk_read_growth(st, data, true, dirs);
    let a = uwp_list_outcome(st, data, true, dirs).0;
    let b = gdk_data_outcome(st, data, true, dirs).0;
    assert forall|i: int| st.versions.len() <= i < a.versions.len() implies !(
    #[trigger] a.versions[i]).is_new by {
        assert(a.known.contains(a.versions[i].name));
    }
    assert forall|i: int| st.versions.len() <= i < b.versions.len() implies !(
    #[trigger] b.versions[i]).is_new by {
        assert(b.known.contains(b.versions[i].name));
    }
}

/// Dropping the database versions twice is the same as dropping them once, and
/// what stays is imported.
pub proof fn lemma_imported_only_idempotent(s: Seq<VersionView>)
    ensures
        imported_only(imported_only(s)) == imported_only(s),
        forall|i: int|
            0 <= i < imported_only(s).len() ==> (#[trigger] imported_only(s)[i]).version_type
                == VersionType::Imported,
    decreases s.len(),
{
    if s.len() > 0 {
        lemma_imported_only_idempotent(s.drop_first());
        let rest = imported_only(s.drop_first());
        if s[0].version_type == VersionType::Imported {
            let t = seq![s[0]] + rest;
            assert(t[0] == s[0]);
            assert(t.drop_first() =~= rest);
            assert forall|i: int| 0 <= i < t.len() implies (#[trigger] t[i]).version_type
                == VersionType::Imported by {
                if i > 0 {
                    assert(t[i] == rest[i - 1]);
                }
            }
        }
    }
}

pub open spec fn entry_is_importable(e: ImportedEntry) -> bool {
    e.is_dir && e.name is Some
}

proof fn lemma_imported_fold_learns_keys(st: CatalogView, es: Seq<ImportedEntry>)
    ensures
        st.known.subset_of(fold_steps(st, es, imported_step()).0.known),
        forall|i: int|
            0 <= i < es.len() && entry_is_importable(#[trigger] es[i]) ==> fold_steps(
                st,
                es,
                imported_step(),
            ).0.known.contains(imported_key(es[i].name.unwrap()@)),
        fold_steps(st, es, imported_step()).1 is None,
    decreases es.len(),
{
    if es.len() > 0 {
        lemma_imported_fold_learns_keys(st, es.drop_last());
        let prev = fold_steps(st, es.drop_last(), imported_step());
        assert(imported_step()(prev.0, es.last()) == Ok::<CatalogView, Seq<char>>(
            imported_entry_step(prev.0, es.last()),
        ));
        assert forall|i: int|
            0 <= i < es.len() && entry_is_importable(#[trigger] es[i]) implies fold_steps(
            st,
            es,
            imported_step(),
        ).0.known.contains(imported_key(es[i].name.unwrap()@)) by {
            if i < es.len() - 1 {
                assert(es.drop_last()[i] == es[i]);
            }
        }
    }
}

proof fn lemma_imported_fold_no_change(st: CatalogView, es: Seq<ImportedEntry>)
    requires
        forall|i: int|
            0 <= i < es.len() && entry_is_importable(#[trigger] es[i]) ==> st.known.contains(
                imported_key(es[i].name.unwrap()@),
            ),
    ensures
        fold_steps(st, es, imported_step()).0 == st,
    decreases es.len(),
{
    if es.len() > 0 {
        assert forall|i: int|
            0 <= i < es.drop_last().len() && entry_is_importable(
                #[trigger] es.drop_last()[i],
            ) implies st.known.contains(imported_key(es.drop_last()[i].name.unwrap()@)) by {
            assert(es.drop_last()[i] == es[i]);
        }
        lemma_imported_fold_no_change(st, es.drop_last());
        assert(imported_step()(st, es.last()) == Ok::<CatalogView, Seq<char>>(
            imported_entry_step(st, es.last()),
        ));
        assert(entry_is_importable(es[es.len() - 1]) ==> st.known.contains(
            imported_key(es[es.len() - 1].name.unwrap()@),
        ));
    }
}

/// Loading the same imported-versions listing a second time adds nothing.
pub proof fn lemma_load_imported_twice(st: CatalogView, es: Seq<ImportedEntry>)
    ensures
        fold_steps(fold_steps(st, es, imported_step()).0, es, imported_step()).0 == fold_steps(
            st,
            es,
            imported_step(),
        ).0,
{
    lemma_imported_fold_learns_keys(st, es);
    lemma_imported_fold_no_change(fold_steps(st, es, imported_step()).0, es);
}

} // verus!

verus! {

/// A step that fails, skips or adds a version, and which of them, and with what
/// message or name, depends on the item alone: `fail_msg` says when it fails,
/// `push` which name it adds. An added version is new only if its name was not
/// known.
pub open spec fn step_shaped<T>(
    step: Step<T>,
    fail_msg: spec_fn(T) -> Option<Seq<char>>,
    push: spec_fn(T) -> Option<Seq<char>>,
) -> bool {
    forall|s: CatalogView, x: T|
        {
            let r = #[trigger] step(s, x);
            &&& (r is Err) == (fail_msg(x) is Some)
            &&& r is Err ==> r->Err_0 == fail_msg(x).unwrap()
            &&& (r is Ok && push(x) is None) ==> r->Ok_0 == s
            &&& (r is Ok && push(x) is Some) ==> {
                let t = r->Ok_0;
                &&& t.versions.len() == s.versions.len() + 1
                &&& t.versions.drop_last() == s.versions
                &&& t.known == s.known.insert(push(x).unwrap())
                &&& t.versions.last().name == push(x).unwrap()
                &&& (t.versions.last().is_new ==> !s.known.contains(push(x).unwrap()))
            }
        }
}

proof fn lemma_shaped_fold_known_grows<T>(
    a0: CatalogView,
    items: Seq<T>,
    step: Step<T>,
    fail_msg: spec_fn(T) -> Option<Seq<char>>,
    push: spec_fn(T) -> Option<Seq<char>>,
)
    requires
        step_shaped(step, fail_msg, push),
        items.len() > 0,
    ensures
        fold_steps(a0, items.drop_last(), step).0.known.subset_of(
            fold_steps(a0, items, step).0.known,
        ),
{
    let prev = fold_steps(a0, items.drop_last(), step);
    if prev.1 is None {
        let r = step(prev.0, items.last());
        if r is Ok && push(items.last()) is Some {
            assert(r->Ok_0.known == prev.0.known.insert(push(items.last()).unwrap()));
        }
    }
}

/// Running the same items a second time, from a catalogue that knows every name
/// the first run knew at its end, fails where the first run failed and adds no
/// new version.
pub proof fn lemma_shaped_rerun<T>(
    a0: CatalogView,
    b0: CatalogView,
    items: Seq<T>,
    step_a: Step<T>,
    step_b: Step<T>,
    fail_msg: spec_fn(T) -> Option<Seq<char>>,
    push: spec_fn(T) -> Option<Seq<char>>,
)
    requires
        step_shaped(step_a, fail_msg, push),
        step_shaped(step_b, fail_msg, push),
        fold_steps(a0, items, step_a).0.known.subset_of(b0.known),
    ensures
        ({
            let b = fold_steps(b0, items, step_b);
            &&& b.1 == fold_steps(a0, items, step_a).1
            &&& b0.versions.len() <= b.0.versions.len()
            &&& b.0.versions.subrange(0, b0.versions.len() as int) == b0.versions
            &&& b0.known.subset_of(b.0.known)
            &&& forall|i: int|
                b0.versions.len() <= i < b.0.versions.len() ==> !(#[trigger] b.0.versions[i]).is_new
        }),
    decreases items.len(),
{
    if items.len() == 0 {
        assert(b0.versions.subrange(0, b0.versions.len() as int) =~= b0.versions);
    } else {
        let init = items.drop_last();
        let x = items.last();
        lemma_shaped_fold_known_grows(a0, items, step_a, fail_msg, push);
        lemma_shaped_rerun(a0, b0, init, step_a, step_b, fail_msg, push);
        let pa = fold_steps(a0, init, step_a);
        let pb = fold_steps(b0, init, step_b);
        let b = fold_steps(b0, items, step_b);
        if pa.1 is None {
            let ra = step_a(pa.0, x);
            let rb = step_b(pb.0, x);
            if rb is Ok && push(x) is Some {
                let n = push(x).unwrap();
                assert(ra is Ok);
                assert(fold_steps(a0, items, step_a).0 == ra->Ok_0);
                assert(ra->Ok_0.known == pa.0.known.insert(n));
                assert(ra->Ok_0.known.contains(n));
                assert(b0.known.contains(n));
                assert(pb.0.known.contains(n));
                let t = rb->Ok_0;
                assert(b.0 == t);
                assert forall|i: int| b0.versions.len() <= i < t.versions.len() implies !(
                #[trigger] t.versions[i]).is_new by {
                    if i < pb.0.versions.len() {
                        assert(t.versions[i] == t.versions.drop_last()[i]);
                        assert(pb.0.versions[i] == t.versions.drop_last()[i]);
                    }
                }
                assert(t.versions.subrange(0, b0.versions.len() as int) =~= pb.0.versions.subrange(
                    0,
                    b0.versions.len() as int,
                ));
                assert forall|y: Seq<char>| b0.known.contains(y) implies t.known.contains(y) by {
                    assert(pb.0.known.contains(y));
                }
            }
        }
    }
}

/// Why a UWP entry fails, if it does.
pub open spec fn uwp_fail_msg(item: JsonValueView) -> Option<Seq<char>> {
    match json_as_array(item) {
        None => Some("UWP entry is not an array"@),
        Some(entry) => {
            if entry.len() < 3 {
                Some("UWP entry does not have 3 fields"@)
            } else if json_as_str(entry[0]) is None {
                Some("UWP name is not a string"@)
            } else if json_as_str(entry[1]) is None {
                Some("UWP uuid is not a string"@)
            } else if json_as_i64(entry[2]) is None {
                Some("UWP version type is not an int"@)
            } else {
                None
            }
        },
    }
}

/// The name a UWP entry adds, if it adds a version.
pub open spec fn uwp_push_name(item: JsonValueView) -> Option<Seq<char>> {
    if uwp_fail_msg(item) is Some {
        None
    } else {
        let entry = json_as_array(item).unwrap();
        match version_type_of_code(json_as_i64(entry[2]).unwrap()) {
            Some(vt) => if vt == VersionType::Imported {
                None
            } else {
                Some(json_as_str(entry[0]).unwrap())
            },
            None => None,
        }
    }
}

/// Why a GDK member fails, if it does.
pub open spec fn gdk_fail_msg(m: JsonMemberView) -> Option<Seq<char>> {
    match json_as_array(m.value) {
        None => Some("GDK urls entry is not an array"@),
        Some(_) => None,
    }
}

/// The name a GDK member adds, if it adds a version.
pub open spec fn gdk_push_name(m: JsonMemberView) -> Option<Seq<char>> {
    match json_as_array(m.value) {
        None => None,
        Some(items) => if string_items(items).len() == 0 {
            None
        } else {
            Some(m.key)
        },
    }
}

proof fn lemma_uwp_step_shaped(is_cache: bool, dirs: GameDirectories)
    ensures
        step_shaped(
            uwp_step(is_cache, dirs),
            |x: JsonValueView| uwp_fail_msg(x),
            |x: JsonValueView| uwp_push_name(x),
        ),
{
    assert forall|s: CatalogView, x: JsonValueView|
        {
            let r = #[trigger] uwp_step(is_cache, dirs)(s, x);
            &&& (r is Err) == ((|x: JsonValueView| uwp_fail_msg(x))(x) is Some)
            &&& r is Err ==> r->Err_0 == (|x: JsonValueView| uwp_fail_msg(x))(x).unwrap()
            &&& (r is Ok && (|x: JsonValueView| uwp_push_name(x))(x) is None) ==> r->Ok_0 == s
            &&& (r is Ok && (|x: JsonValueView| uwp_push_name(x))(x) is Some) ==> {
                let t = r->Ok_0;
                &&& t.versions.len() == s.versions.len() + 1
                &&& t.versions.drop_last() == s.versions
                &&& t.known == s.known.insert((|x: JsonValueView| uwp_push_name(x))(x).unwrap())
                &&& t.versions.last().name == (|x: JsonValueView| uwp_push_name(x))(x).unwrap()
                &&& (t.versions.last().is_new ==> !s.known.contains(
                    (|x: JsonValueView| uwp_push_name(x))(x).unwrap(),
                ))
            }
        } by {
        let r = uwp_step(is_cache, dirs)(s, x);
        assert(r == uwp_entry_step(s, x, is_cache, dirs));
        if r is Ok && uwp_push_name(x) is Some {
            assert(r->Ok_0.versions.drop_last() =~= s.versions);
        }
    }
}

proof fn lemma_gdk_step_shaped(is_cache: bool, version_type: VersionType, dirs: GameDirectories)
    ensures
        step_shaped(
            gdk_step(is_cache, version_type, dirs),
            |m: JsonMemberView| gdk_fail_msg(m),
            |m: JsonMemberView| gdk_push_name(m),
        ),
{
    assert forall|s: CatalogView, x: JsonMemberView|
        {
            let r = #[trigger] gdk_step(is_cache, version_type, dirs)(s, x);
            &&& (r is Err) == ((|m: JsonMemberView| gdk_fail_msg(m))(x) is Some)
            &&& r is Err ==> r->Err_0 == (|m: JsonMemberView| gdk_fail_msg(m))(x).unwrap()
            &&& (r is Ok && (|m: JsonMemberView| gdk_push_name(m))(x) is None) ==> r->Ok_0 == s
            &&& (r is Ok && (|m: JsonMemberView| gdk_push_name(m))(x) is Some) ==> {
                let t = r->Ok_0;
                &&& t.versions.len() == s.versions.len() + 1
                &&& t.versions.drop_last() == s.versions
                &&& t.known == s.known.insert((|m: JsonMemberView| gdk_push_name(m))(x).unwrap())
                &&& t.versions.last().name == (|m: JsonMemberView| gdk_push_name(m))(x).unwrap()
                &&& (t.versions.last().is_new ==> !s.known.contains(
                    (|m: JsonMemberView| gdk_push_name(m))(x).unwrap(),
                ))
            }
        } by {
        let r = gdk_step(is_cache, version_type, dirs)(s, x);
        assert(r == gdk_entry_step(s, x, is_cache, version_type, dirs));
        if r is Ok && gdk_push_name(x) is Some {
            assert(r->Ok_0.versions.drop_last() =~= s.versions);
        }
    }
}

} // verus!

verus! {

/// Reading the UWP database again right after reading it (from the cache or not)
/// fails where the first reading failed, and marks no version new.
pub proof fn lemma_uwp_reread_marks_nothing_new(
    st: CatalogView,
    data: JsonValueView,
    is_cache: bool,
    dirs1: GameDirectories,
    dirs2: GameDirectories,
)
    ensures
        ({
            let a = uwp_list_outcome(st, data, is_cache, dirs1);
            let b = uwp_list_outcome(a.0, data, false, dirs2);
            &&& b.1 == a.1
            &&& forall|i: int|
                a.0.versions.len() <= i < b.0.versions.len() ==> !(#[trigger] b.0.versions[i]).is_new
        }),
{
    lemma_uwp_step_shaped(is_cache, dirs1);
    lemma_uwp_step_shaped(false, dirs2);
    let a = uwp_list_outcome(st, data, is_cache, dirs1);
    if let Some(items) = json_as_array(data) {
        lemma_shaped_rerun(
            st,
            a.0,
            reversed(items),
            uwp_step(is_cache, dirs1),
            uwp_step(false, dirs2),
            |x: JsonValueView| uwp_fail_msg(x),
            |x: JsonValueView| uwp_push_name(x),
        );
    }
}

proof fn lemma_gdk_list_rerun(
    a0: CatalogView,
    b0: CatalogView,
    data: JsonValueView,
    is_cache: bool,
    version_type: VersionType,
    dirs1: GameDirectories,
    dirs2: GameDirectories,
)
    requires
        gdk_list_outcome(a0, data, is_cache, version_type, dirs1).0.known.subset_of(b0.known),
    ensures
        ({
            let b = gdk_list_outcome(b0, data, false, version_type, dirs2);
            &&& b.1 == gdk_list_outcome(a0, data, is_cache, version_type, dirs1).1
            &&& b0.versions.len() <= b.0.versions.len()
            &&& b.0.versions.subrange(0, b0.versions.len() as int) == b0.versions
            &&& b0.known.subset_of(b.0.known)
            &&& forall|i: int|
                b0.versions.len() <= i < b.0.versions.len() ==> !(#[trigger] b.0.versions[i]).is_new
        }),
{
    lemma_gdk_step_shaped(is_cache, version_type, dirs1);
    lemma_gdk_step_shaped(false, version_type, dirs2);
    match json_as_object(data) {
        None => {
            assert(b0.versions.subrange(0, b0.versions.len() as int) =~= b0.versions);
        },
        Some(members) => {
            lemma_shaped_rerun(
                a0,
                b0,
                members,
                gdk_step(is_cache, version_type, dirs1),
                gdk_step(false, version_type, dirs2),
                |m: JsonMemberView| gdk_fail_msg(m),
                |m: JsonMemberView| gdk_push_name(m),
            );
        },
    }
}

/// Reading the GDK database again right after reading it (from the cache or not)
/// fails where the first reading failed, and marks no version new.
pub proof fn lemma_gdk_reread_marks_nothing_new(
    st: CatalogView,
    data: JsonValueView,
    is_cache: bool,
    dirs1: GameDirectories,
    dirs2: GameDirectories,
)
    ensures
        ({
            let a = gdk_data_outcome(st, data, is_cache, dirs1);
            let b = gdk_data_outcome(a.0, data, false, dirs2);
            &&& b.1 == a.1
            &&& forall|i: int|
                a.0.versions.len() <= i < b.0.versions.len() ==> !(#[trigger] b.0.versions[i]).is_new
        }),
{
    let a = gdk_data_outcome(st, data, is_cache, dirs1);
    if let Some(release) = json_get(data, "release"@) {
        if let Some(preview) = json_get(data, "preview"@) {
            let r1 = gdk_list_outcome(st, release, is_cache, VersionType::Release, dirs1);
            if r1.1 is None {
                let inv = |s: CatalogView| db_growth(r1.0, s, is_cache);
                assert(inv(r1.0)) by {
                    assert forall|x: Seq<char>| r1.0.known.contains(x) implies r1.0.known.contains(x) by {}
                }
                lemma_gdk_steps_grow(r1.0, is_cache, VersionType::Preview, dirs1);
                if let Some(members) = json_as_object(preview) {
                    lemma_fold_keeps(
                        r1.0,
                        members,
                        gdk_step(is_cache, VersionType::Preview, dirs1),
                        inv,
                    );
                }
                assert(r1.0.known.subset_of(a.0.known));
            } else {
                assert(a == r1);
            }
            lemma_gdk_list_rerun(st, a.0, release, is_cache, VersionType::Release, dirs1, dirs2);
            let r2 = gdk_list_outcome(a.0, release, false, VersionType::Release, dirs2);
            if r1.1 is None {
                lemma_gdk_list_rerun(
                    r1.0,
                    r2.0,
                    preview,
                    is_cache,
                    VersionType::Preview,
                    dirs1,
                    dirs2,
                );
                let b = gdk_data_outcome(a.0, data, false, dirs2);
                let p2 = gdk_list_outcome(r2.0, preview, false, VersionType::Preview, dirs2);
                assert(b == p2);
                assert forall|i: int| a.0.versions.len() <= i < b.0.versions.len() implies !(
                #[trigger] b.0.versions[i]).is_new by {
                    if i < r2.0.versions.len() {
                        assert(b.0.versions.subrange(0, r2.0.versions.len() as int)[i]
                            == b.0.versions[i]);
                        assert(!r2.0.versions[i].is_new);
                    }
                }
            }
        }
    }
}

} // verus!

verus! {

/// A version with its "new" mark cleared.
pub open spec fn strip_new(v: VersionView) -> VersionView {
    VersionView {
        uuid: v.uuid,
        name: v.name,
        version_type: v.version_type,
        is_new: false,
        package_type: v.package_type,
        download_urls: v.download_urls,
        game_directory: v.game_directory,
    }
}

/// Apart from its "new" mark, the version a step adds depends on the item alone.
pub open spec fn pushes_as<T>(
    step: Step<T>,
    push: spec_fn(T) -> Option<Seq<char>>,
    pushed: spec_fn(T) -> VersionView,
) -> bool {
    forall|s: CatalogView, x: T|
        (#[trigger] step(s, x)) is Ok && push(x) is Some ==> strip_new(
            step(s, x)->Ok_0.versions.last(),
        ) == pushed(x)
}

/// Two runs of the same items, from any two catalogues, fail alike and add the
/// same versions but for their "new" marks.
pub proof fn lemma_shaped_replay<T>(
    a0: CatalogView,
    b0: CatalogView,
    items: Seq<T>,
    step_a: Step<T>,
    step_b: Step<T>,
    fail_msg: spec_fn(T) -> Option<Seq<char>>,
    push: spec_fn(T) -> Option<Seq<char>>,
    pushed: spec_fn(T) -> VersionView,
)
    requires
        step_shaped(step_a, fail_msg, push),
        step_shaped(step_b, fail_msg, push),
        pushes_as(step_a, push, pushed),
        pushes_as(step_b, push, pushed),
    ensures
        ({
            let a = fold_steps(a0, items, step_a);
            let b = fold_steps(b0, items, step_b);
            &&& a.1 == b.1
            &&& a0.versions.len() <= a.0.versions.len()
            &&& b0.versions.len() <= b.0.versions.len()
            &&& a.0.versions.len() - a0.versions.len() == b.0.versions.len() - b0.versions.len()
            &&& a.0.versions.subrange(0, a0.versions.len() as int) == a0.versions
            &&& b.0.versions.subrange(0, b0.versions.len() as int) == b0.versions
            &&& forall|i: int|
                0 <= i < a.0.versions.len() - a0.versions.len() ==> strip_new(
                    #[trigger] a.0.versions[a0.versions.len() + i],
                ) == strip_new(b.0.versions[b0.versions.len() + i])
        }),
    decreases items.len(),
{
    if items.len() == 0 {
        assert(a0.versions.subrange(0, a0.versions.len() as int) =~= a0.versions);
        assert(b0.versions.subrange(0, b0.versions.len() as int) =~= b0.versions);
    } else {
        let init = items.drop_last();
        let x = items.last();
        lemma_shaped_replay(a0, b0, init, step_a, step_b, fail_msg, push, pushed);
        let pa = fold_steps(a0, init, step_a);
        let pb = fold_steps(b0, init, step_b);
        let a = fold_steps(a0, items, step_a);
        let b = fold_steps(b0, items, step_b);
        if pa.1 is None {
            let ra = step_a(pa.0, x);
            let rb = step_b(pb.0, x);
            if ra is Ok && push(x) is Some {
                let ta = ra->Ok_0;
                let tb = rb->Ok_0;
                assert(a.0 == ta && b.0 == tb);
                assert(strip_new(ta.versions.last()) == pushed(x));
                assert(strip_new(tb.versions.last()) == pushed(x));
                assert forall|i: int|
                    0 <= i < ta.versions.len() - a0.versions.len() implies strip_new(
                    #[trigger] ta.versions[a0.versions.len() + i],
                ) == strip_new(tb.versions[b0.versions.len() + i]) by {
                    if a0.versions.len() + i < pa.0.versions.len() {
                        assert(ta.versions[a0.versions.len() + i] == ta.versions.drop_last()[a0.versions.len() + i]);
                        assert(tb.versions[b0.versions.len() + i] == tb.versions.drop_last()[b0.versions.len() + i]);
                        assert(strip_new(pa.0.versions[a0.versions.len() + i]) == strip_new(pb.0.versions[b0.versions.len() + i]));
                    }
                }
                assert(ta.versions.subrange(0, a0.versions.len() as int) =~= pa.0.versions.subrange(0, a0.versions.len() as int));
                assert(tb.versions.subrange(0, b0.versions.len() as int) =~= pb.0.versions.subrange(0, b0.versions.len() as int));
            }
        }
    }
}

pub open spec fn uwp_pushed_version(item: JsonValueView, dirs: GameDirectories) -> VersionView {
    let entry = json_as_array(item).unwrap();
    let name = json_as_str(entry[0]).unwrap();
    let vt = version_type_of_code(json_as_i64(entry[2]).unwrap()).unwrap();
    VersionView {
        uuid: json_as_str(entry[1]).unwrap(),
        name,
        version_type: vt,
        is_new: false,
        package_type: PackageType::Uwp,
        download_urls: Seq::empty(),
        game_directory: resolved_game_directory(dirs, name, vt, PackageType::Uwp),
    }
}

pub open spec fn gdk_pushed_version(
    m: JsonMemberView,
    version_type: VersionType,
    dirs: GameDirectories,
) -> VersionView {
    VersionView {
        uuid: UNKNOWN_UUID@,
        name: m.key,
        version_type,
        is_new: false,
        package_type: PackageType::Gdk,
        download_urls: string_items(json_as_array(m.value).unwrap()),
        game_directory: resolved_game_directory(dirs, m.key, version_type, PackageType::Gdk),
    }
}

proof fn lemma_uwp_pushes_as(is_cache: bool, dirs: GameDirectories)
    ensures
        pushes_as(
            uwp_step(is_cache, dirs),
            |x: JsonValueView| uwp_push_name(x),
            |x: JsonValueView| uwp_pushed_version(x, dirs),
        ),
{
    assert forall|s: CatalogView, x: JsonValueView|
        (#[trigger] uwp_step(is_cache, dirs)(s, x)) is Ok && (|x: JsonValueView| uwp_push_name(x))(
            x,
        ) is Some implies strip_new(uwp_step(is_cache, dirs)(s, x)->Ok_0.versions.last()) == (|
        x: JsonValueView,
    | uwp_pushed_version(x, dirs))(x) by {
        assert(uwp_step(is_cache, dirs)(s, x) == uwp_entry_step(s, x, is_cache, dirs));
    }
}

proof fn lemma_gdk_pushes_as(is_cache: bool, version_type: VersionType, dirs: GameDirectories)
    ensures
        pushes_as(
            gdk_step(is_cache, version_type, dirs),
            |m: JsonMemberView| gdk_push_name(m),
            |m: JsonMemberView| gdk_pushed_version(m, version_type, dirs),
        ),
{
    assert forall|s: CatalogView, x: JsonMemberView|
        (#[trigger] gdk_step(is_cache, version_type, dirs)(s, x)) is Ok && (|m: JsonMemberView|
            gdk_push_name(m))(x) is Some implies strip_new(
        gdk_step(is_cache, version_type, dirs)(s, x)->Ok_0.versions.last(),
    ) == (|m: JsonMemberView| gdk_pushed_version(m, version_type, dirs))(x) by {
        assert(gdk_step(is_cache, version_type, dirs)(s, x) == gdk_entry_step(
            s,
            x,
            is_cache,
            version_type,
            dirs,
        ));
    }
}

pub open spec fn empty_catalog() -> CatalogView {
    CatalogView { versions: Seq::empty(), known: Set::empty() }
}

/// What a catalogue gains from reading a document, and what a fresh catalogue
/// gets from reading the same document as a cache: the same versions, in order,
/// none of them new in the cache reading, and the same error.
pub open spec fn replays(before: CatalogView, a: (CatalogView, Option<Seq<char>>), b: (CatalogView, Option<Seq<char>>)) -> bool {
    &&& b.1 == a.1
    &&& before.versions.len() + b.0.versions.len() == a.0.versions.len()
    &&& forall|i: int|
        0 <= i < b.0.versions.len() ==> #[trigger] b.0.versions[i] == strip_new(
            a.0.versions[before.versions.len() + i],
        )
}

/// After downloading the UWP database text into a catalogue, a fresh catalogue
/// that reads the same text as its cache holds the versions the download added,
/// in order, none of them new; a text that is not JSON fails both.
pub proof fn lemma_uwp_cache_replays_download(st: CatalogView, text: Seq<char>, dirs: GameDirectories)
    ensures
        match json_document(text) {
            None => true,
            Some(doc) => replays(
                st,
                uwp_list_outcome(st, doc, false, dirs),
                uwp_list_outcome(empty_catalog(), doc, true, dirs),
            ),
        },
{
    if let Some(doc) = json_document(text) {
        let e = empty_catalog();
        let a = uwp_list_outcome(st, doc, false, dirs);
        let b = uwp_list_outcome(e, doc, true, dirs);
        lemma_cache_reads_mark_nothing_new(e, doc, dirs);
        if let Some(items) = json_as_array(doc) {
            lemma_uwp_step_shaped(false, dirs);
            lemma_uwp_step_shaped(true, dirs);
            lemma_uwp_pushes_as(false, dirs);
            lemma_uwp_pushes_as(true, dirs);
            lemma_shaped_replay(
                st,
                e,
                reversed(items),
                uwp_step(false, dirs),
                uwp_step(true, dirs),
                |x: JsonValueView| uwp_fail_msg(x),
                |x: JsonValueView| uwp_push_name(x),
                |x: JsonValueView| uwp_pushed_version(x, dirs),
            );
            assert forall|i: int| 0 <= i < b.0.versions.len() implies #[trigger] b.0.versions[i]
                == strip_new(a.0.versions[st.versions.len() + i]) by {
                assert(!b.0.versions[i].is_new);
                assert(strip_new(b.0.versions[0 + i]) == strip_new(a.0.versions[st.versions.len() + i]));
            }
        }
    }
}

/// After downloading the GDK database text into a catalogue, a fresh catalogue
/// that reads the same text as its cache holds the versions the download added,
/// in order, none of them new; a text that is not JSON fails both.
pub proof fn lemma_gdk_cache_replays_download(st: CatalogView, text: Seq<char>, dirs: GameDirectories)
    ensures
        match json_document(text) {
            None => true,
            Some(doc) => replays(
                st,
                gdk_data_outcome(st, doc, false, dirs),
                gdk_data_outcome(empty_catalog(), doc, true, dirs),
            ),
        },
{
    if let Some(doc) = json_document(text) {
        let e = empty_catalog();
        let a = gdk_data_outcome(st, doc, false, dirs);
        let b = gdk_data_outcome(e, doc, true, dirs);
        lemma_cache_reads_mark_nothing_new(e, doc, dirs);
        if let Some(release) = json_get(doc, "release"@) {
            if let Some(preview) = json_get(doc, "preview"@) {
                lemma_gdk_list_replay(st, e, release, VersionType::Release, dirs);
                let ra = gdk_list_outcome(st, release, false, VersionType::Release, dirs);
                let rb = gdk_list_outcome(e, release, true, VersionType::Release, dirs);
                if ra.1 is None {
                    lemma_gdk_list_replay(ra.0, rb.0, preview, VersionType::Preview, dirs);
                    let pa = gdk_list_outcome(ra.0, preview, false, VersionType::Preview, dirs);
                    let pb = gdk_list_outcome(rb.0, preview, true, VersionType::Preview, dirs);
                    assert(a == pa && b == pb);
                    let n0 = st.versions.len();
                    let m = rb.0.versions.len();
                    assert forall|i: int| 0 <= i < b.0.versions.len() implies #[trigger] b.0.versions[i]
                        == strip_new(a.0.versions[n0 + i]) by {
                        assert(!b.0.versions[i].is_new);
                        if i < m {
                            assert(pb.0.versions.subrange(0, m as int)[i] == pb.0.versions[i]);
                            assert(pa.0.versions.subrange(0, ra.0.versions.len() as int)[n0 + i] == pa.0.versions[n0 + i]);
                            assert(strip_new(rb.0.versions[0 + i]) == strip_new(ra.0.versions[n0 + i]));
                        } else {
                            let k = i - m;
                            assert(strip_new(pa.0.versions[ra.0.versions.len() + k]) == strip_new(pb.0.versions[m + k]));
                        }
                    }
                } else {
                    assert(a == ra && b == rb);
                    assert forall|i: int| 0 <= i < b.0.versions.len() implies #[trigger] b.0.versions[i]
                        == strip_new(a.0.versions[st.versions.len() + i]) by {
                        assert(!b.0.versions[i].is_new);
                        assert(strip_new(rb.0.versions[0 + i]) == strip_new(ra.0.versions[st.versions.len() + i]));
                    }
                }
            }
        }
    }
}

proof fn lemma_gdk_list_replay(
    a0: CatalogView,
    b0: CatalogView,
    data: JsonValueView,
    version_type: VersionType,
    dirs: GameDirectories,
)
    ensures
        ({
            let a = gdk_list_outcome(a0, data, false, version_type, dirs);
            let b = gdk_list_outcome(b0, data, true, version_type, dirs);
            &&& a.1 == b.1
            &&& a0.versions.len() <= a.0.versions.len()
            &&& b0.versions.len() <= b.0.versions.len()
            &&& a.0.versions.len() - a0.versions.len() == b.0.versions.len() - b0.versions.len()
            &&& a.0.versions.subrange(0, a0.versions.len() as int) == a0.versions
            &&& b.0.versions.subrange(0, b0.versions.len() as int) == b0.versions
            &&& forall|i: int|
                0 <= i < a.0.versions.len() - a0.versions.len() ==> strip_new(
                    #[trigger] a.0.versions[a0.versions.len() + i],
                ) == strip_new(b.0.versions[b0.versions.len() + i])
        }),
{
    match json_as_object(data) {
        None => {
            assert(a0.versions.subrange(0, a0.versions.len() as int) =~= a0.versions);
            assert(b0.versions.subrange(0, b0.versions.len() as int) =~= b0.versions);
        },
        Some(members) => {
            lemma_gdk_step_shaped(false, version_type, dirs);
            lemma_gdk_step_shaped(true, version_type, dirs);
            lemma_gdk_pushes_as(false, version_type, dirs);
            lemma_gdk_pushes_as(true, version_type, dirs);
            lemma_shaped_replay(
                a0,
                b0,
                members,
                gdk_step(false, version_type, dirs),
                gdk_step(true, version_type, dirs),
                |m: JsonMemberView| gdk_fail_msg(m),
                |m: JsonMemberView| gdk_push_name(m),
                |m: JsonMemberView| gdk_pushed_version(m, version_type, dirs),
            );
        },
    }
}

} // verus!
