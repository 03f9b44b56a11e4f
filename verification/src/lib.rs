pub mod adapters;
pub mod binaries;
pub mod bytes;
pub mod error;
pub mod executor;
pub mod gapless;
pub mod graph;
pub mod host;
pub mod inputs;
pub mod manifest;
pub mod mp4_aac;
pub mod paths;
pub mod pipeline;
pub mod planner;
pub mod probe;
pub mod profiles;
pub mod progress;
pub mod report;
pub mod request;
pub mod resolver;
pub mod spec;
pub mod text;
pub mod text_map;
pub mod wav;
pub mod wmv9_helper;
