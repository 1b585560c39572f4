pub mod theme_mode;
