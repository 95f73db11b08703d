use vstd::prelude::*;

verus! {

/// A file name that `Path::join` appends to a directory: not empty, without a
/// separator (`/` or `\\`) and without a drive mark (`:`).
pub open spec fn plain_file_name(name: Seq<char>) -> bool {
    name.len() > 0 && !name.contains('/') && !name.contains('\\') && !name.contains(':')
}

/// A path with Windows' verbatim prefix `\\?\`, which `Path::join` normalizes.
pub open spec fn verbatim_path(p: Seq<char>) -> bool {
    p.len() >= 4 && p[0] == '\\' && p[1] == '\\' && p[2] == '?' && p[3] == '\\'
}

/// What separates a directory from a file name joined to it: nothing, or one
/// separator of the platform.
pub open spec fn join_separator(sep: Seq<char>) -> bool {
    sep.len() == 0 || sep == seq!['/'] || sep == seq!['\\']
}

/// `joined` is `root`, then nothing or one separator, then `name`.
pub open spec fn joined_with_separator(joined: Seq<char>, root: Seq<char>, name: Seq<char>) -> bool {
    exists|sep: Seq<char>| join_separator(sep) && joined == root + sep + name
}

/// `std::path::Path::join` of `root` and `name`, as text. std documents joining a
/// relative path as extending the directory, with the platform's separator
/// (`/` on Unix, `\\` on Windows) where one is needed. For a plain file name and a
/// root without the verbatim prefix, the contract says that the result is the root,
/// nothing or one separator, and the name; which separator, and when none, depends
/// on the platform and the root and is not stated.
#[verifier::external_body]
fn path_join(root: &str, name: &str) -> (res: String)
    ensures
        joined_with_separator(res@, root@, name@) || !plain_file_name(name@) || verbatim_path(root@),
{
    std::path::Path::new(root).join(name).to_string_lossy().into_owned()
}

/// The two settings files of a data directory: the packaged `settings.json` and
/// the user's overrides in `settings.user.json`.
#[derive(Clone, Debug, PartialEq, Eq)]
pub struct SettingsPaths {
    pub settings_json: String,
    pub settings_user_json: String,
}

impl SettingsPaths {
    /// The settings files in directory `root`.
    pub fn in_dir(root: &str) -> (res: Self)
        ensures
            !verbatim_path(root@) ==> joined_with_separator(res.settings_json@, root@, "settings.json"@),
            !verbatim_path(root@) ==> joined_with_separator(res.settings_user_json@, root@, "settings.user.json"@),
    {
        proof {
            reveal_strlit("settings.json");
            reveal_strlit("settings.user.json");
            assert(!"settings.json"@.contains('/'));
        }
        SettingsPaths {
            settings_json: path_join(root, "settings.json"),
            settings_user_json: path_join(root, "settings.user.json"),
        }
    }
}

pub fn default_window_title() -> (res: String)
    ensures
        res@ == "DJMAX RESPECT V"@,
{
    String::from_str("DJMAX RESPECT V")
}

pub fn default_active_sleep() -> (res: u64)
    ensures
        res == 120,
{
    120
}

pub fn default_background_sleep() -> (res: u64)
    ensures
        res == 500,
{
    500
}

pub fn default_max_lines() -> (res: usize)
    ensures
        res == 500,
{
    500
}

pub fn default_debug_title() -> (res: String)
    ensures
        res@ == "Overmax Debug Log"@,
{
    String::from_str("Overmax Debug Log")
}

pub fn default_snap() -> (res: String)
    ensures
        res@ == "manual"@,
{
    String::from_str("manual")
}

pub fn default_db_path() -> (res: String)
    ensures
        res@ == "cache/image_index.db"@,
{
    String::from_str("cache/image_index.db")
}

pub fn default_true() -> (res: bool)
    ensures
        res,
{
    true
}

pub fn default_songs_url() -> (res: String)
    ensures
        res@ == "https://v-archive.net/db/v2/songs.json"@,
{
    String::from_str("https://v-archive.net/db/v2/songs.json")
}

pub fn default_songs_cache() -> (res: String)
    ensures
        res@ == "cache/songs.json"@,
{
    String::from_str("cache/songs.json")
}

pub fn default_dlcs_url() -> (res: String)
    ensures
        res@ == "https://v-archive.net/db/dlcs.json"@,
{
    String::from_str("https://v-archive.net/db/dlcs.json")
}

pub fn default_dlcs_cache() -> (res: String)
    ensures
        res@ == "cache/dlcs.json"@,
{
    String::from_str("cache/dlcs.json")
}

pub fn default_ttl() -> (res: u64)
    ensures
        res == 86400,
{
    86400
}

pub fn default_timeout() -> (res: u64)
    ensures
        res == 10,
{
    10
}

pub fn default_min_level_idx() -> (res: usize)
    ensures
        res == 0,
{
    0
}

pub fn default_max_level_idx() -> (res: usize)
    ensures
        res == 29,
{
    29
}

/// Settings of the debug log window.
#[derive(Clone, Debug, PartialEq, Eq)]
pub struct DebugWindowSettings {
    pub max_lines: usize,
    pub title: String,
}

impl Default for DebugWindowSettings {
    fn default() -> (res: Self)
        ensures
            res.max_lines == 500,
            res.title@ == "Overmax Debug Log"@,
    {
        DebugWindowSettings { max_lines: default_max_lines(), title: default_debug_title() }
    }
}

/// Settings of the self-update check.
#[derive(Clone, Debug, PartialEq, Eq)]
pub struct AppUpdateSettings {
    pub enabled: bool,
    pub owner: Option<String>,
    pub repo: Option<String>,
    pub asset_name: Option<String>,
    pub linux_asset_name: Option<String>,
    pub latest_release_url: Option<String>,
}

impl Default for AppUpdateSettings {
    fn default() -> (res: Self)
        ensures
            res.enabled,
            res.owner is None,
            res.repo is None,
            res.asset_name is None,
            res.linux_asset_name is None,
            res.latest_release_url is None,
    {
        AppUpdateSettings {
            enabled: default_true(),
            owner: None,
            repo: None,
            asset_name: None,
            linux_asset_name: None,
            latest_release_url: None,
        }
    }
}

/// The V-Archive account linked to a Steam account.
#[derive(Clone, Debug, PartialEq, Eq)]
pub struct VArchiveUserMap {
    pub v_id: Option<String>,
    pub account_path: Option<String>,
}

/// Settings of the V-Archive song database and account links.
#[derive(Clone, Debug, PartialEq, Eq)]
pub struct VArchiveSettings {
    pub songs_api_url: String,
    pub songs_cache_path: String,
    pub dlcs_api_url: String,
    pub dlcs_cache_path: String,
    pub cache_path: String,
    pub cache_ttl_sec: u64,
    pub download_timeout_sec: u64,
    /// Linked accounts, by Steam ID.
    pub user_map: Vec<(String, VArchiveUserMap)>,
}

impl Default for VArchiveSettings {
    fn default() -> (res: Self)
        ensures
            res.songs_api_url@ == "https://v-archive.net/db/v2/songs.json"@,
            res.songs_cache_path@ == "cache/songs.json"@,
            res.dlcs_api_url@ == "https://v-archive.net/db/dlcs.json"@,
            res.dlcs_cache_path@ == "cache/dlcs.json"@,
            res.cache_path@ == "cache/songs.json"@,
            res.cache_ttl_sec == 86400,
            res.download_timeout_sec == 10,
            res.user_map@.len() == 0,
    {
        VArchiveSettings {
            songs_api_url: default_songs_url(),
            songs_cache_path: default_songs_cache(),
            dlcs_api_url: default_dlcs_url(),
            dlcs_cache_path: default_dlcs_cache(),
            cache_path: default_songs_cache(),
            cache_ttl_sec: default_ttl(),
            download_timeout_sec: default_timeout(),
            user_map: Vec::new(),
        }
    }
}

} // verus!
