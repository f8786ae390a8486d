//! Small verified programs: number sequences, array and string editing,
//! generic containers and sorting, and bookstore and grocery inventories.

pub mod fibonacci;
pub mod text;
pub mod calculator;
pub mod guessing_game;
pub mod array_mutation;
pub mod stack;
pub mod string_edit;
pub mod order;
pub mod sorting;
pub mod book_library;
pub mod text_index;
pub mod artifact;
pub mod kind_index;
pub mod keyed_sets;
pub mod id_sets;
pub mod artifact_library;
pub mod artifact_library_basic;
pub mod grocery_store;
pub mod name_map;
pub mod mapped_store;
pub mod converter;
