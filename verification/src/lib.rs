//! Card-independent logic of the ACOS5-64 smart card driver: PKCS#1 and block
//! cipher padding, security attribute expansion, command construction and the
//! decisions that are taken on card responses.
#![allow(non_snake_case)]
#![allow(non_camel_case_types)]

pub mod errors;
pub mod misc;
pub mod pkcs1;
pub mod blockcipher;
pub mod sym;
pub mod sac;
pub mod strings;
pub mod card;
pub mod select;
pub mod driver;
pub mod pin;
pub mod asym;
pub mod walk;
