//! A program held in memory, ready to be loaded into the machine.
use vstd::prelude::*;
use crate::traits::Rom;

verus! {

pub struct RomDriver {
    pub rom: Vec<u8>,
}

impl Rom for RomDriver {
    open spec fn bytes(&self) -> Seq<u8> {
        self.rom@
    }

    fn data(&self) -> (data: &Vec<u8>) {
        &self.rom
    }
}

} // verus!
