//! Configuration model, configuration-file interpretation and wallpaper
//! selection logic of a small Wayland desktop utility.

pub mod keyed;
pub mod text;
pub mod seqs;
pub mod theme;
pub mod pathname;
pub mod wallpaper;
pub mod parser;
pub mod wpaper;
pub mod interpret;
pub mod exec;
pub mod conf;
pub mod theme_config;
pub mod util;
pub mod store;
