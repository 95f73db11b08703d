use vstd::prelude::*;

verus! {

/// Relative paths of the data files that the application reads and writes.
pub struct DataCompatibility {
    pub settings_user_json: &'static str,
    pub record_db: &'static str,
    pub image_index_db: &'static str,
    pub songs_json: &'static str,
}

impl DataCompatibility {
    /// The relative paths of the user settings file and of the cache databases.
    pub fn current() -> (res: Self)
        ensures
            res.settings_user_json@ == "settings.user.json"@,
            res.record_db@ == "cache/record.db"@,
            res.image_index_db@ == "cache/image_index.db"@,
            res.songs_json@ == "cache/songs.json"@,
    {
        DataCompatibility {
            settings_user_json: "settings.user.json",
            record_db: "cache/record.db",
            image_index_db: "cache/image_index.db",
            songs_json: "cache/songs.json",
        }
    }
}

} // verus!
