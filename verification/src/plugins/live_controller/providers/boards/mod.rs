pub mod behringer;
