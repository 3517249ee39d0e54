//! Parts of components that hold no callbacks: subscriptions and child regions.

pub mod layout;
pub mod subscription;

pub use subscription::Subscription;
