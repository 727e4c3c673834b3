//! The guts of a small XOR-decoding tool. A file gets "scrambled" by XOR-ing
//! every byte with a single key byte; XOR is its own inverse, so doing the same
//! thing again gives the original file straight back. This crate holds that
//! XOR, the bookkeeping that turns dropped files and folders into decode jobs
//! (output in a `dexor-decoded/` folder next to each input, every file name
//! prefixed with `dexor_`), and the state the window keeps between frames.

pub mod jobs;
pub mod key;
pub mod log;
pub mod paths;
pub mod pending;
pub mod presets;
pub mod session;
pub mod text;
pub mod xor;

pub use jobs::{collect_jobs, run_job, DirEntry, Input, Job, Node, WritePlan};
pub use key::{key_digits, parse_key};
pub use log::{log_kind, LogKind};
pub use paths::{prefixed, Component, PrefixKind, FILENAME_PREFIX, OUTPUT_DIR_NAME};
pub use pending::Pending;
pub use presets::{preset_label, presets, Preset};
pub use session::{DecodeAction, DecodeEvent, Session};
pub use xor::{xor_in_place, DEFAULT_XOR_KEY};
