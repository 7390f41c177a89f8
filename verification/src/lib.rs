//! A verified core of the azpOS kernel: on-disk formats (FAT, MBR), paths,
//! device register decoding, and the bookkeeping of the memory allocators and
//! the scheduler.
#![allow(dead_code)]

pub mod byteorder;
pub mod devices;
pub mod filesystem;
pub mod memory;
pub mod processes;
pub mod scheduling;
pub mod slot_bits;

use vstd::prelude::*;

verus! {

} // verus!
