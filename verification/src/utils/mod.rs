//! Small utilities shared by the rest of the library.
pub mod id_alloc;
pub mod id_list;
pub mod random_id;
pub mod saved;
pub mod smallmap;
