//! The rules of the Blokmap backend, a service for finding locations and
//! reserving seats during their opening times: when a reservation is
//! accepted, how results are paged, what members of an authority may do, how
//! requests are validated and answered, how the configuration is read, where
//! images and mail templates live, and how a development database is seeded.
//! Each rule is stated as a contract and proved with Verus.

pub mod auth;
pub mod config;
pub mod error;
pub mod image;
pub mod keys;
pub mod location;
pub mod mailer;
pub mod pagination;
pub mod permissions;
pub mod reservation;
pub mod seeder;
pub mod template;
pub mod text;
pub mod translation;
pub mod urls;
pub mod time;
