use vstd::prelude::*;

pub mod config;
pub mod intents;
pub mod models;
pub mod pipeline;
pub mod reducers;
pub mod repositories;
pub mod states;
pub mod time;
pub mod viewmodel_manager;

verus! {
}
