pub mod clock;
pub mod engine;
pub mod format;
pub mod i18n;
pub mod laws;
pub mod models;
pub mod normalize;
pub mod options;
pub mod store;
pub mod text;
pub mod token;
