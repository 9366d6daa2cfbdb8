pub mod x_touch;
