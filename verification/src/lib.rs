//! Core library of a tab-based desktop file browser: session state with a
//! single active tab, per-view navigation history, deterministic sorting and
//! filtering of directory listings, and keyed persistence with rotating
//! backups. Every function in this crate is verified against its contract.

pub mod breadcrumb;
pub mod error;
pub mod event;
pub mod file_item;
pub mod file_sorting;
pub mod filesystem;
pub mod layout;
pub mod logging;
pub mod modern_file_item;
pub mod modern_sidebar;
pub mod navigation;
pub mod panic_handler;
pub mod pathtext;
pub mod persistence;
pub mod settings;
pub mod sort_filter;
pub mod state;
pub mod state_laws;
pub mod strtext;
pub mod system_integration;
pub mod theme;
pub mod trusted;

pub use error::{AppError, AppResult, ErrorCategory, ErrorSeverity, ErrorStatistics};
pub use event::{Event, EventManager};
pub use file_sorting::{
    FileSortFilterManager, FilterCriteria, SortConfig, SortCriteria, SortDirection,
};
pub use filesystem::{FileEntry, FileInfo, FileType};
pub use settings::Settings;
pub use state::{
    AppState, PanePosition, PaneSize, PaneState, PaneType, StateChangeEvent, StateManager,
    TabState, UiState, WindowState,
};
