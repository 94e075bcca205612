#![allow(non_snake_case)]

pub mod dependency;
pub mod easysetup;
pub mod json;
pub mod util;
pub mod services;
