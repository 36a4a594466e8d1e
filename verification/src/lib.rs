pub mod errors;
pub mod math;
pub mod text;
pub mod paths;
pub mod archive;
pub mod types;
pub mod matching;
pub mod mime;
pub mod listing;
pub mod progress;
pub mod tasks;
pub mod nav;
pub mod perms;
pub mod actions;
pub mod selection;
pub mod keys;
pub mod places;
pub mod delta;
pub mod batch;
pub mod extract;
pub mod copying;
pub mod thumbs;
pub mod ui;
pub mod tree;
pub mod list_view;
pub mod menus;
pub mod state;
pub mod view_memory;
