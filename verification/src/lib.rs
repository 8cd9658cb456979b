//! Scheduling core of a recursive website mirroring tool.
//!
//! The tool starts from a few URLs, fetches what they name, reads the pages
//! among it for references, and fetches those that lie below one of the
//! starting URLs, until none is left. This library holds what decides the
//! course of such a crawl: the queue of jobs with its priorities, the sets
//! that keep work from being done twice, the rule by which the workers agree
//! that the work is done, and the mapping of a URL to the path of the file
//! that mirrors it. Fetching and writing are left to the caller.

pub mod dedup;
pub mod discovery;
pub mod error;
pub mod escape_path;
pub mod html;
pub mod link;
pub mod path;
pub mod priority_queue;
pub mod response;
pub mod termination;
pub mod text;
pub mod worker;

pub use crate::dedup::insert_files;
pub use crate::error::Error;
pub use crate::link::Link;
pub use crate::path::{merge_file_name_and_query, url_to_path};
pub use crate::worker::{Settings, Worker};
