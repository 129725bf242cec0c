//! Core logic of a desktop screen-time tracker: rule-based app
//! classification, OCR text clean-up, settings round-trips, metric
//! parsing and tray-icon rendering, each with a machine-checked contract.

pub mod text;
pub mod ocr_text;
pub mod pattern;
pub mod classifier;
pub mod categorizer;
pub mod platform;
pub mod decimal;
pub mod settings;
pub mod screenshot_config;
pub mod status_bar;
pub mod device_id;
pub mod export_format;
pub mod version;
pub mod calendar;
pub mod backup;
pub mod ocr;
pub mod permission;
pub mod sysload;
pub mod tray_icon;
pub mod logging;
pub mod hit_mask;
pub mod models;
pub mod tracking;
pub mod update_feed;
pub mod ocr_engine;
pub mod periods;
pub mod capture;
pub mod merge;
pub mod status_loop;
pub mod startup;
pub mod window_list;
pub mod foreground;
pub mod wiki;
pub mod engine_files;
pub mod regions;
