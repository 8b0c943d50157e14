//! The remote objects that the client models.

pub mod browser;
pub mod locator;

pub use browser::Browser;
pub use locator::Locator;
