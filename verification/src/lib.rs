//! A fleet of coffee machines, as plain values.
//!
//! Each machine keeps a store of named containers, serves a backlog of
//! orders from it, and refills what runs short from its raw materials.
//! Every function here works on values that its caller owns; a program
//! that shares them between threads calls each function while it holds
//! the lock of what the function changes.

pub mod errors;
pub mod container;
pub mod containers;
pub mod orders;
pub mod orders_handler;
pub mod ingredient_handler;
pub mod coffee_maker;
pub mod dispensers;
pub mod input_controller;
pub mod stat_maker;
pub mod stats_presenter;
pub mod stats_presentator;
pub mod coffee_grinder;
pub mod stocker;
