//! The compiler graph: nodes and their edges, bit maps, work lists,
//! union-find and traversal helpers.
pub mod bits;
pub mod node_bit_map;
pub mod node_union_find;
pub mod node_flood;
pub mod node_work_list;
pub mod node;
pub mod node_class;
pub mod node_input_list;
pub mod node_list;
pub mod graal_graph_error;
pub mod node_source_position;
pub mod node_source_position_filter;
pub mod position;
pub mod typed_graph_node_iterator;
pub mod node_usage_with_count_iterator;
pub mod graph;
pub mod laws;
