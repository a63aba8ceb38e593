//! Decision core of an update-recommendation service: the release graph,
//! the negotiation of the schema a client receives, and the shaping of the
//! graph for that schema.

pub mod conditional_edges;
pub mod content_type;
pub mod errors;
pub mod graph;
pub mod params;
pub mod path_prefix;
pub mod pipeline;
pub mod seqs;
pub mod signatures;
pub mod string_map;
pub mod string_set;
pub mod text;
pub mod text_order;
pub mod variable_logging;
pub mod versioned_graph;
pub mod versions;
