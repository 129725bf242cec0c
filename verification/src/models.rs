//! The records the commands hand to the front end and write to backup
//! files.

use vstd::prelude::*;

verus! {

/// An application as listed to the front end.
#[derive(Debug, Clone)]
pub struct AppInfoOut {
    pub id: i64,
    pub name: String,
    pub process_name: String,
    pub category_id: String,
    pub icon_base64: Option<String>,
}

/// One recorded usage session.
#[derive(Debug, Clone)]
pub struct SessionOut {
    pub id: i64,
    pub app_id: i64,
    pub app_name: String,
    pub category_id: String,
    pub start_at: String,
    pub end_at: String,
    pub duration_seconds: i64,
}

/// Total time and number of applications of one day.
#[derive(Debug, Clone)]
pub struct DailySummaryOut {
    pub date: String,
    pub total_seconds: i64,
    pub app_count: i64,
}

/// Time of one category on one day.
#[derive(Debug, Clone)]
pub struct DayCategoryOut {
    pub date: String,
    pub category_id: String,
    pub total_seconds: i64,
}

/// Time of one category within one hour of a day.
#[derive(Debug, Clone)]
pub struct HourlyBucketOut {
    pub hour: u32,
    pub category_id: String,
    pub total_seconds: i64,
}

/// An application with its total time and session count.
#[derive(Debug, Clone)]
pub struct AppRankingOut {
    pub app_id: i64,
    pub app_name: String,
    pub category_id: String,
    pub total_seconds: i64,
    pub session_count: i64,
    pub icon_base64: Option<String>,
}

/// A category with its display name and colour.
#[derive(Debug, Clone)]
pub struct CategoryOut {
    pub id: String,
    pub name: String,
    pub color: String,
}

/// The overview card of one day.
#[derive(Debug, Clone)]
pub struct OverviewOut {
    pub date: String,
    pub total_seconds: i64,
    pub app_count: i64,
    pub most_used_app: Option<String>,
    pub most_used_seconds: i64,
    pub pickup_count: i64,
    pub avg_daily_seconds: i64,
}

/// The summary of one month.
#[derive(Debug, Clone)]
pub struct MonthSummaryOut {
    pub year: i32,
    pub month: i32,
    pub total_seconds: i64,
    pub active_days: i64,
    pub days_in_month: i64,
    pub avg_daily_seconds: i64,
    pub top_app: Option<String>,
    pub top_app_seconds: i64,
    pub busiest_date: Option<String>,
    pub busiest_seconds: i64,
}

/// The application in the foreground right now.
#[derive(Debug, Clone)]
pub struct CurrentForegroundOut {
    pub name: String,
    pub process_name: String,
    pub category_id: String,
    pub idle_seconds: u64,
    pub tracking: bool,
    pub window_title: Option<String>,
    pub bundle_id: Option<String>,
    pub session_seconds: i64,
}

/// Where an export was written.
#[derive(Debug, Clone)]
pub struct ExportResult {
    pub path: String,
}

/// A classification rule as listed to the front end.
#[derive(Debug, Clone)]
pub struct RuleOut {
    pub id: i64,
    pub field: String,
    pub match_type: String,
    pub pattern: String,
    pub category_id: String,
    pub priority: i64,
    pub enabled: bool,
}

/// The state of the two system permissions the tracker needs.
#[derive(Debug, Clone)]
pub struct PermissionStatus {
    pub accessibility: bool,
    pub screen_capture: bool,
}

/// Time of one category.
#[derive(Debug, Clone)]
pub struct CategorySeconds {
    pub category_id: String,
    pub total_seconds: i64,
}

/// Time of one application.
#[derive(Debug, Clone)]
pub struct AppSeconds {
    pub app_name: String,
    pub category_id: String,
    pub total_seconds: i64,
}

/// The statistics of one period (week or month).
#[derive(Debug, Clone)]
pub struct PeriodStat {
    pub label: String,
    pub total_seconds: i64,
    pub app_count: i64,
    pub by_category: Vec<CategorySeconds>,
    pub top_apps: Vec<AppSeconds>,
}

/// A device and its display name.
#[derive(Debug, Clone)]
pub struct DeviceInfo {
    pub id: String,
    pub name: String,
}

/// The general settings.
#[derive(Debug, Clone)]
pub struct SettingsOut {
    pub device_id: String,
    pub device_name: String,
    pub idle_threshold: u64,
    pub data_retention_days: u32,
    pub sample_interval: u64,
    pub autostart: bool,
}

/// An application in the backup file.
#[derive(Debug, Clone)]
pub struct ExportApp {
    pub name: String,
    pub process_name: String,
    pub exe_path: Option<String>,
    pub category_id: String,
    pub platform: String,
}

/// A session in the backup file.
#[derive(Debug, Clone)]
pub struct ExportSession {
    pub app_process: String,
    pub app_platform: String,
    pub start_at: String,
    pub end_at: String,
    pub duration_seconds: i64,
    pub date: String,
    pub window_title: Option<String>,
    pub device: String,
}

/// The backup file: devices, applications and sessions.
#[derive(Debug, Clone)]
pub struct ExportBundle {
    pub version: u32,
    pub exported_at: String,
    pub devices: std::collections::HashMap<String, String>,
    pub apps: Vec<ExportApp>,
    pub sessions: Vec<ExportSession>,
}

/// An entry of the screenshot history.
#[derive(Debug, Clone)]
pub struct ScreenshotOut {
    pub id: i64,
    pub file_name: String,
    pub width: u32,
    pub height: u32,
    pub bytes: i64,
    pub created_at: String,
}

/// The result of backing up and then deleting one device's sessions.
#[derive(Debug, Clone)]
pub struct BackupAndPruneResult {
    pub backup_path: String,
    pub deleted_count: usize,
}

} // verus!
