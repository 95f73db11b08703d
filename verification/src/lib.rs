use vstd::prelude::*;

pub mod compatibility;
pub mod geometry;
pub mod text;
pub mod roi_config;
pub mod atlas;
pub mod atlas_translator;
pub mod capture_layout;
pub mod focus;
pub mod detection_session;
pub mod ocr_text;
pub mod gameplay;
pub mod settings;
pub mod json;
pub mod settings_layers;
pub mod settings_normalize;
pub mod varchive;
pub mod varchive_db;
pub mod sheet_meta;
pub mod record_db;
pub mod image_index;
pub mod windows_capture;
pub mod play_state;
pub mod gameplay_scene;
pub mod jacket_matcher;
pub mod numbers;
pub mod varchive_cache;
pub mod x11_window;
pub mod shm_capture;
