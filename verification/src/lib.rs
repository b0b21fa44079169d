#![allow(non_snake_case)]

pub mod freeze;
pub mod freezer;
pub mod logger;
pub mod mounts;
pub mod pattern;
pub mod socket;
pub mod table;
pub mod task;
pub mod text;
