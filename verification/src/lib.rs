//! Decision engine of a feed archiver: given the cached feeds and items of a
//! feed reader, decide which item pages to capture, with which external tool,
//! and under which output path.
//!
//! The library is pure: reading the cache, the configuration files and the
//! filesystem, and running the capture tools, happen outside it. It is handed
//! plain values and returns plain values, with contracts on each function.

use vstd::prelude::*;

mod assoc;
mod config;
mod exclude;
mod feed;
mod feeditem;
mod parse;
mod pathsearch;
mod plan;
mod resolve;
mod sanitize;
mod setting;
mod strutil;

pub use assoc::feed_urls_present;
pub use assoc::item_matches_feed;
pub use assoc::items_for;
pub use assoc::matching_items;
pub use config::get_blacklist;
pub use config::get_settings;
pub use config::settings_of_lines;
pub use config::split_fields;
pub use config::split_fields_spec;
pub use config::split_lines;
pub use config::split_lines_spec;
pub use exclude::in_blacklist;
pub use exclude::is_url_in_blacklist;
pub use feed::Feed;
pub use feeditem::FeedItem;
pub use parse::int_val;
pub use parse::parse_i64;
pub use parse::parse_u32;
pub use parse::parses_to_i64;
pub use parse::parses_to_u32;
pub use pathsearch::candidates_spec;
pub use pathsearch::path_candidates;
pub use plan::PlannedCapture;
pub use plan::feed_dir_spec;
pub use plan::feed_directories;
pub use plan::feed_directory;
pub use plan::feed_wf;
pub use plan::item_wf;
pub use plan::plan_item;
pub use plan::plan_item_spec;
pub use plan::plan_run;
pub use plan::plan_run_spec;
pub use plan::should_capture;
pub use resolve::get_setting_from_url;
pub use resolve::resolve_spec;
pub use sanitize::StringExtensions;
pub use sanitize::lemma_sanitize_idempotent;
pub use sanitize::sanitize_spec;
pub use sanitize::sanitize_str;
pub use setting::Setting;
pub use setting::SettingView;
pub use strutil::contains_sub;
pub use strutil::has_sub;
pub use strutil::matches_at;
