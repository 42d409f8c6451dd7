//! Control logic of an assistive sliding-door controller.
//!
//! Everything here computes on plain values. Each operation that drives
//! hardware appends the pin writes it wants to a list of [`action::Action`]s;
//! the board support code performs them in order.

pub mod action;
pub mod captive_portal;
pub mod config;
pub mod control;
pub mod door_controller;
pub mod door_laws;
pub mod door_model;
pub mod encoder;
pub mod form;
pub mod json;
pub mod motor;
pub mod mqtt_client;
pub mod number;
pub mod pages;
pub mod text;
