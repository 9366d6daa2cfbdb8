pub mod compact;
