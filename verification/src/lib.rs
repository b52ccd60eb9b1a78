//! Reading and presenting the information that a RISC-V SBI environment
//! reports about itself: the Base extension fields, the machine identity
//! registers, the probe results of the SBI extensions and the live
//! firmware-feature (FWFT) sample.
use vstd::prelude::*;

pub mod number;
pub mod text;
pub mod sbi_ext;
pub mod fwft;
pub mod marchid;
pub mod backend;
pub mod sbi_impl;
pub mod vuln;
pub mod mvendorid;
pub mod json;
pub mod sbi_error;
pub mod driver;
