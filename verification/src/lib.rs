use vstd::prelude::*;

pub mod app;
pub mod constants;
pub mod dom;
pub mod event_handler;
pub mod laws;
pub mod line;
pub mod links;
pub mod models;
pub mod network;
pub mod renderer;
pub mod search;
pub mod selection;
pub mod text;

verus! {

} // verus!
