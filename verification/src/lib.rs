use vstd::prelude::*;

pub mod calendar;
pub mod chart_xml;
pub mod clock;
pub mod data_ops;
pub mod cloud;
pub mod error;
pub mod find_replace;
pub mod file_info;
pub mod format_detect;
pub mod http;
pub mod mcp;
pub mod mcp_args;
pub mod numeric_text;
pub mod prompts;
pub mod pdf_export;
pub mod text;
pub mod text_map;
pub mod tools;
pub mod validation;
pub mod recent_files;
pub mod watcher;
pub mod xlsx_archive;
pub mod xlsx_chart;
pub mod xml;
pub mod xlsx_reader;
pub mod xlsx_writer;

verus! {
} // verus!
