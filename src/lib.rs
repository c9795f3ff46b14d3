use vstd::prelude::*;

pub mod accounts;
pub mod aggregator;
pub mod captcha;
pub mod config;
pub mod entitlement;
pub mod health;
pub mod keyboards;
pub mod provider;
pub mod session;
pub mod settings;
pub mod text;

verus! {

} // verus!
