//! Scripted event patches applied to specific flow files by name.

use vstd::prelude::*;
use vstd::string::StringExecFns;

use crate::msb::FlowEntry;
use crate::msb::Msbf;
use crate::msb::Msbt;

verus! {

/// A reference to a flow entry: by raw index, or by a patch-assigned name.
#[derive(Debug, Clone, PartialEq, Eq)]
pub enum Flowref {
    Index(i16),
    Name(String),
}

/// A flow entry that gives an item.
fn give_item(itemid: u8) -> (r: FlowEntry)
    ensures
        r == (FlowEntry::Flow {
            subtype: 1u8,
            param1: itemid as u16,
            param2: 0xFFFFu16,
            next: -1i16,
            param3: 10i16,
        }),
{
    FlowEntry::Flow { subtype: 1, param1: itemid as u16, param2: 0xFFFF, next: -1, param3: 10 }
}

/// A vestigial recording stub for flow edits against one file: the methods
/// only count what was asked for, applying nothing.
#[derive(Debug, Clone, PartialEq, Eq)]
pub struct FlowpatchManager {
    pub planned: u32,
}

/// An edit handle on one flow entry of the manager.
#[derive(Debug, Clone, Copy, PartialEq, Eq)]
pub struct FlowEdit {
    pub index: i16,
}

impl FlowpatchManager {
    /// A manager with no edits planned yet.
    pub fn new() -> (r: Self)
        ensures
            r.planned == 0u32,
    {
        FlowpatchManager { planned: 0 }
    }

    /// Plans insertion of a named flow with a successor.
    pub fn add_flow(&mut self, name: String, flow: FlowEntry, next: Flowref)
        ensures
            final(self).planned == if old(self).planned < 0xFFFF_FFFFu32 {
                (old(self).planned + 1) as u32
            } else {
                old(self).planned
            },
    {
        if self.planned < 0xFFFF_FFFF {
            self.planned = self.planned + 1;
        }
    }

    /// Plans insertion of a named switch with its branches.
    pub fn add_switch(&mut self, name: String, flow: FlowEntry, branches: &Vec<Flowref>)
        ensures
            final(self).planned == if old(self).planned < 0xFFFF_FFFFu32 {
                (old(self).planned + 1) as u32
            } else {
                old(self).planned
            },
    {
        if self.planned < 0xFFFF_FFFF {
            self.planned = self.planned + 1;
        }
    }

    /// An edit handle on the flow at `index`.
    pub fn get_flow(&mut self, index: i16) -> (r: FlowEdit)
        ensures
            r.index == index,
    {
        FlowEdit { index }
    }
}

impl FlowEdit {
    /// Plans replacing the action of a plain flow entry.
    pub fn set_action(self, flow: FlowEntry) -> (r: FlowEdit)
        ensures
            r == self,
    {
        self
    }

    /// Plans replacing the text of a text entry.
    pub fn set_text(self, text: String) -> (r: FlowEdit)
        ensures
            r == self,
    {
        self
    }

    /// Plans redirecting the entry's successor.
    pub fn set_next(self, next: Flowref) -> (r: FlowEdit)
        ensures
            r == self,
    {
        self
    }
}

/// Applies the scripted event patches for one flow file, keyed by its name.
pub fn do_eventpatches(file: &str, msbf: &mut Msbf, msbt: &mut Msbt)
{
    let mut mgr = FlowpatchManager::new();
    if crate::patches::str_eq(file, "114-Friend") {
        let e = mgr.get_flow(14);
        let _ = e.set_next(Flowref::Name(String::from_str("Fledge Item 1")));
        mgr.add_flow(
            String::from_str("Fledge Item 1"),
            give_item(0xba),
            Flowref::Name(String::from_str("Fledge Item 2")),
        );
        mgr.add_flow(String::from_str("Fledge Item 2"), give_item(0xba), Flowref::Index(-1));
    }
}

} // verus!
