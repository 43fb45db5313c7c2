//! Editing of decoded flow files: references by index or by name, and a
//! patcher that grows the flow graph and its text side by side.

use vstd::prelude::*;

use crate::msb::FlowEntry;
use crate::msb::Msbf;
use crate::msb::Msbt;
use crate::msb::TextSegment;

pub mod flow;

verus! {

/// Failures while patching a flow graph.
#[derive(Debug, Clone, PartialEq, Eq)]
pub enum FlowPatchError {
    OutOfRange(i16),
    NotFlow,
    UnexpectedSwitch,
    ExpectedSwitch,
    NameNotFound(String),
}

impl FlowPatchError {
    /// A short human-readable description of the failure.
    pub fn message(&self) -> (r: &'static str)
    {
        match self {
            FlowPatchError::OutOfRange(_) => "out of range",
            FlowPatchError::NotFlow => "not a flow",
            FlowPatchError::UnexpectedSwitch => "a switch was not expected here",
            FlowPatchError::ExpectedSwitch => "a switch was expected here",
            FlowPatchError::NameNotFound(_) => "name not found",
        }
    }
}

/// A reference to a flow entry: by raw index, or by a label assigned while
/// patching.
#[derive(Debug, Clone, PartialEq, Eq)]
pub enum Flowref {
    Index(i16),
    Name(String),
}

impl Flowref {
    /// The reference that ends a chain.
    pub fn end() -> (r: Self)
        ensures
            r == Flowref::Index(-1i16),
    {
        Flowref::Index(-1)
    }
}

/// A flow entry whose outgoing edges are [`Flowref`]s, so a patch can name
/// entries it has not yet inserted.
#[derive(Debug, Clone, PartialEq, Eq)]
pub enum RefFlowEntry {
    NonDiverging(RefFlowEntryNonDiverging),
    Diverging(RefFlowEntryDiverging),
}

/// The single-successor flow entries.
#[derive(Debug, Clone, PartialEq, Eq)]
pub enum RefFlowEntryNonDiverging {
    Start { next: Flowref },
    Text { file: u16, line: u16, next: Flowref },
    Flow { subtype: u8, param1: u16, param2: u16, next: Flowref, param3: i16 },
}

/// A switch entry with a branch list.
#[derive(Debug, Clone, PartialEq, Eq)]
pub struct RefFlowEntryDiverging {
    pub subtype: u8,
    pub param1: u16,
    pub param2: u16,
    pub param3: i16,
    pub branches: Vec<Flowref>,
}

impl RefFlowEntry {
    /// Converts a plain flow entry: every raw index becomes an index
    /// reference.
    pub fn from_flow(value: FlowEntry) -> (r: RefFlowEntry)
        ensures
            value matches FlowEntry::Start { next } ==> r == RefFlowEntry::NonDiverging(
                RefFlowEntryNonDiverging::Start { next: Flowref::Index(next) },
            ),
            value matches FlowEntry::Text { file, line, next } ==> r
                == RefFlowEntry::NonDiverging(
                RefFlowEntryNonDiverging::Text { file, line, next: Flowref::Index(next) },
            ),
            value matches FlowEntry::Flow { subtype, param1, param2, next, param3 } ==> r
                == RefFlowEntry::NonDiverging(
                RefFlowEntryNonDiverging::Flow {
                    subtype,
                    param1,
                    param2,
                    next: Flowref::Index(next),
                    param3,
                },
            ),
            value matches FlowEntry::Switch { subtype, param1, param2, param3, branches } ==> (r
                matches RefFlowEntry::Diverging(d) && d.subtype == subtype && d.param1 == param1
                && d.param2 == param2 && d.param3 == param3 && d.branches@.len()
                == branches@.len() && (forall|i: int|
                0 <= i < branches@.len() ==> d.branches@[i] == Flowref::Index(
                    #[trigger] branches@[i],
                ))),
    {
        match value {
            FlowEntry::Start { next } => RefFlowEntry::NonDiverging(
                RefFlowEntryNonDiverging::Start { next: Flowref::Index(next) },
            ),
            FlowEntry::Text { file, line, next } => RefFlowEntry::NonDiverging(
                RefFlowEntryNonDiverging::Text { file, line, next: Flowref::Index(next) },
            ),
            FlowEntry::Flow { subtype, param1, param2, next, param3 } => {
                RefFlowEntry::NonDiverging(
                    RefFlowEntryNonDiverging::Flow {
                        subtype,
                        param1,
                        param2,
                        next: Flowref::Index(next),
                        param3,
                    },
                )
            },
            FlowEntry::Switch { subtype, param1, param2, param3, branches } => {
                let mut refs: Vec<Flowref> = Vec::new();
                let mut i: usize = 0;
                while i < branches.len()
                    invariant
                        i <= branches@.len(),
                        refs@.len() == i,
                        forall|j: int|
                            0 <= j < i ==> refs@[j] == Flowref::Index(#[trigger] branches@[j]),
                    decreases branches@.len() - i,
                {
                    refs.push(Flowref::Index(branches[i]));
                    i = i + 1;
                }
                RefFlowEntry::Diverging(
                    RefFlowEntryDiverging { subtype, param1, param2, param3, branches: refs },
                )
            },
        }
    }
}

impl RefFlowEntryNonDiverging {
    /// The entry with its successor replaced.
    pub fn with_next(self, new_next: Flowref) -> (r: Self)
        ensures
            r == self.spec_with_next(new_next),
    {
        match self {
            RefFlowEntryNonDiverging::Start { .. } => RefFlowEntryNonDiverging::Start {
                next: new_next,
            },
            RefFlowEntryNonDiverging::Text { file, line, .. } => RefFlowEntryNonDiverging::Text {
                file,
                line,
                next: new_next,
            },
            RefFlowEntryNonDiverging::Flow { subtype, param1, param2, param3, .. } => {
                RefFlowEntryNonDiverging::Flow { subtype, param1, param2, next: new_next, param3 }
            },
        }
    }

    /// The entry with its successor replaced (spec form).
    pub open spec fn spec_with_next(self, new_next: Flowref) -> Self {
        match self {
            RefFlowEntryNonDiverging::Start { .. } => RefFlowEntryNonDiverging::Start {
                next: new_next,
            },
            RefFlowEntryNonDiverging::Text { file, line, .. } => RefFlowEntryNonDiverging::Text {
                file,
                line,
                next: new_next,
            },
            RefFlowEntryNonDiverging::Flow { subtype, param1, param2, param3, .. } => {
                RefFlowEntryNonDiverging::Flow { subtype, param1, param2, next: new_next, param3 }
            },
        }
    }

    /// The entry's successor.
    pub fn get_next(&self) -> (r: &Flowref)
        ensures
            *r == self.spec_next(),
    {
        match self {
            RefFlowEntryNonDiverging::Start { next } => next,
            RefFlowEntryNonDiverging::Flow { next, .. } => next,
            RefFlowEntryNonDiverging::Text { next, .. } => next,
        }
    }

    /// The entry's successor (spec form).
    pub open spec fn spec_next(self) -> Flowref {
        match self {
            RefFlowEntryNonDiverging::Start { next } => next,
            RefFlowEntryNonDiverging::Flow { next, .. } => next,
            RefFlowEntryNonDiverging::Text { next, .. } => next,
        }
    }

    /// A mutable borrow of the entry's successor: writing through it yields
    /// the entry with that successor replaced.
    pub fn get_next_mut(&mut self) -> (r: &mut Flowref)
        ensures
            *r == old(self).spec_next(),
            *final(self) == old(self).spec_with_next(*final(r)),
    {
        match self {
            RefFlowEntryNonDiverging::Start { next } => next,
            RefFlowEntryNonDiverging::Flow { next, .. } => next,
            RefFlowEntryNonDiverging::Text { next, .. } => next,
        }
    }
}

/// A chainable flow step under construction; steps that keep the chain open
/// return another step.
#[derive(Debug, Clone, Copy, PartialEq, Eq, Structural)]
pub struct Flow;

/// A finished flow chain: nothing further can be appended to it.
#[derive(Debug, Clone, Copy, PartialEq, Eq, Structural)]
pub struct Flowend;

impl Flow {
    /// Labels this step so later steps can jump to it.
    pub fn with_label(self, label: String) -> (r: Flow)
        ensures
            r == self,
    {
        self
    }

    /// A step that gives an item.
    pub fn give_item(self, item: u16) -> (r: Flow)
        ensures
            r == self,
    {
        self
    }

    /// A step that checks an item flag against a count.
    pub fn check_itemflag(self, itemflag: u16, count: u16) -> (r: Flow)
        ensures
            r == self,
    {
        self
    }

    /// A step that shows a line of text.
    pub fn speak_text(self, text: &str) -> (r: Flow)
        ensures
            r == self,
    {
        self
    }

    /// A step that triggers a room exit.
    pub fn trigger_exit(self, roomid: u16, exit: u16) -> (r: Flow)
        ensures
            r == self,
    {
        self
    }

    /// A step that sets a story flag.
    pub fn set_storyflag(self, storyflag: u16) -> (r: Flow)
        ensures
            r == self,
    {
        self
    }

    /// A branch on a story flag; both arms end their chains.
    pub fn check_storyflag(self, flag: u16, setflows: &Vec<Flow>, notsetflows: &Vec<Flow>) -> (r:
        Flowend)
    {
        Flowend
    }

    /// A two-way branch on the last answer; both arms end their chains.
    pub fn check_answer2(self, flows1: &Vec<Flow>, flows2: &Vec<Flow>) -> (r: Flowend)
    {
        Flowend
    }

    /// Ends the chain by jumping to another entry.
    pub fn jump(self, dest: Flowref) -> (r: Flowend)
    {
        Flowend
    }
}

/// Grows a flow file and its text file together, tracking labels assigned to
/// new entries.
pub struct EventPatcher {
    pub flow: Msbf,
    pub text: Msbt,
    pub ref_flows: Vec<RefFlowEntry>,
    pub index_names: Vec<(String, i16)>,
}

/// The reference form of one plain flow entry, edge for edge.
pub open spec fn is_ref_of(f: FlowEntry, r: RefFlowEntry) -> bool {
    match f {
        FlowEntry::Start { next } => r == RefFlowEntry::NonDiverging(
            RefFlowEntryNonDiverging::Start { next: Flowref::Index(next) },
        ),
        FlowEntry::Text { file, line, next } => r == RefFlowEntry::NonDiverging(
            RefFlowEntryNonDiverging::Text { file, line, next: Flowref::Index(next) },
        ),
        FlowEntry::Flow { subtype, param1, param2, next, param3 } => r
            == RefFlowEntry::NonDiverging(
            RefFlowEntryNonDiverging::Flow {
                subtype,
                param1,
                param2,
                next: Flowref::Index(next),
                param3,
            },
        ),
        FlowEntry::Switch { subtype, param1, param2, param3, branches } => (r
            matches RefFlowEntry::Diverging(d) && d.subtype == subtype && d.param1 == param1
            && d.param2 == param2 && d.param3 == param3 && d.branches@.len() == branches@.len()
            && (forall|i: int|
            0 <= i < branches@.len() ==> d.branches@[i] == Flowref::Index(
                #[trigger] branches@[i],
            ))),
    }
}

/// Two references agree: same index, or same label text.
pub open spec fn flowref_equiv(a: Flowref, b: Flowref) -> bool {
    match (a, b) {
        (Flowref::Index(x), Flowref::Index(y)) => x == y,
        (Flowref::Name(x), Flowref::Name(y)) => x@ == y@,
        _ => false,
    }
}

/// Two single-successor entries agree field for field, labels by text.
pub open spec fn nd_equiv(a: RefFlowEntryNonDiverging, b: RefFlowEntryNonDiverging) -> bool {
    match (a, b) {
        (
            RefFlowEntryNonDiverging::Start { next: n1 },
            RefFlowEntryNonDiverging::Start { next: n2 },
        ) => flowref_equiv(n1, n2),
        (
            RefFlowEntryNonDiverging::Text { file: f1, line: l1, next: n1 },
            RefFlowEntryNonDiverging::Text { file: f2, line: l2, next: n2 },
        ) => f1 == f2 && l1 == l2 && flowref_equiv(n1, n2),
        (
            RefFlowEntryNonDiverging::Flow {
                subtype: s1,
                param1: p11,
                param2: p21,
                next: n1,
                param3: p31,
            },
            RefFlowEntryNonDiverging::Flow {
                subtype: s2,
                param1: p12,
                param2: p22,
                next: n2,
                param3: p32,
            },
        ) => s1 == s2 && p11 == p12 && p21 == p22 && p31 == p32 && flowref_equiv(n1, n2),
        _ => false,
    }
}

/// Two entries agree field for field, branch lists element-wise.
pub open spec fn ref_entry_equiv(a: RefFlowEntry, b: RefFlowEntry) -> bool {
    match (a, b) {
        (RefFlowEntry::NonDiverging(x), RefFlowEntry::NonDiverging(y)) => nd_equiv(x, y),
        (RefFlowEntry::Diverging(x), RefFlowEntry::Diverging(y)) => x.subtype == y.subtype
            && x.param1 == y.param1 && x.param2 == y.param2 && x.param3 == y.param3
            && x.branches@.len() == y.branches@.len() && (forall|i: int|
            0 <= i < x.branches@.len() ==> flowref_equiv(
                #[trigger] x.branches@[i],
                y.branches@[i],
            )),
        _ => false,
    }
}

/// The index a label resolves to: the first binding with that text.
pub open spec fn spec_label_index(names: Seq<(String, i16)>, name: Seq<char>) -> Option<i16>
    decreases names.len(),
{
    if names.len() == 0 {
        None
    } else if names[0].0@ == name {
        Some(names[0].1)
    } else {
        spec_label_index(names.drop_first(), name)
    }
}

/// The entry index a reference resolves to, when it is in range.
pub open spec fn spec_resolve(p: EventPatcher, index: Flowref) -> Option<int> {
    let raw: Option<int> = match index {
        Flowref::Index(k) => Some(k as int),
        Flowref::Name(name) => match spec_label_index(p.index_names@, name@) {
            Some(k) => Some(k as int),
            None => None,
        },
    };
    match raw {
        Some(k) => if 0 <= k < p.ref_flows@.len() {
            Some(k)
        } else {
            None
        },
        None => None,
    }
}

/// A first label match at `k` pins down the lookup.
proof fn lemma_label_first(names: Seq<(String, i16)>, name: Seq<char>, k: int)
    requires
        0 <= k < names.len(),
        names[k].0@ == name,
        forall|j: int| 0 <= j < k ==> (#[trigger] names[j]).0@ != name,
    ensures
        spec_label_index(names, name) == Some(names[k].1),
    decreases k,
{
    if k > 0 {
        lemma_label_first(names.drop_first(), name, k - 1);
    }
}

/// No label match anywhere means the lookup is empty.
proof fn lemma_label_none(names: Seq<(String, i16)>, name: Seq<char>)
    requires
        forall|j: int| 0 <= j < names.len() ==> (#[trigger] names[j]).0@ != name,
    ensures
        spec_label_index(names, name) is None,
    decreases names.len(),
{
    if names.len() > 0 {
        lemma_label_none(names.drop_first(), name);
    }
}

/// The first binding with the given label text, if any.
fn find_label(names: &Vec<(String, i16)>, name: &String) -> (r: Option<i16>)
    ensures
        r == spec_label_index(names@, name@),
{
    let mut k: usize = 0;
    while k < names.len()
        invariant
            k <= names@.len(),
            forall|j: int| 0 <= j < k ==> (#[trigger] names@[j]).0@ != name@,
        decreases names@.len() - k,
    {
        if names[k].0 == *name {
            proof {
                lemma_label_first(names@, name@, k as int);
            }
            return Some(names[k].1);
        }
        k = k + 1;
    }
    proof {
        lemma_label_none(names@, name@);
    }
    None
}

/// A deep copy of a reference, equal by text.
fn copy_flowref(f: &Flowref) -> (r: Flowref)
    ensures
        flowref_equiv(r, *f),
{
    match f {
        Flowref::Index(i) => Flowref::Index(*i),
        Flowref::Name(s) => Flowref::Name(s.clone()),
    }
}

/// A deep copy of an entry, equivalent field for field.
fn copy_ref_entry(e: &RefFlowEntry) -> (r: RefFlowEntry)
    ensures
        ref_entry_equiv(r, *e),
{
    match e {
        RefFlowEntry::NonDiverging(nd) => RefFlowEntry::NonDiverging(
            match nd {
                RefFlowEntryNonDiverging::Start { next } => RefFlowEntryNonDiverging::Start {
                    next: copy_flowref(next),
                },
                RefFlowEntryNonDiverging::Text { file, line, next } => {
                    RefFlowEntryNonDiverging::Text {
                        file: *file,
                        line: *line,
                        next: copy_flowref(next),
                    }
                },
                RefFlowEntryNonDiverging::Flow { subtype, param1, param2, next, param3 } => {
                    RefFlowEntryNonDiverging::Flow {
                        subtype: *subtype,
                        param1: *param1,
                        param2: *param2,
                        next: copy_flowref(next),
                        param3: *param3,
                    }
                },
            },
        ),
        RefFlowEntry::Diverging(d) => {
            let mut branches: Vec<Flowref> = Vec::new();
            let mut i: usize = 0;
            while i < d.branches.len()
                invariant
                    i <= d.branches@.len(),
                    branches@.len() == i,
                    forall|j: int|
                        0 <= j < i ==> flowref_equiv(
                            #[trigger] branches@[j],
                            d.branches@[j],
                        ),
                decreases d.branches@.len() - i,
            {
                branches.push(copy_flowref(&d.branches[i]));
                i = i + 1;
            }
            RefFlowEntry::Diverging(
                RefFlowEntryDiverging {
                    subtype: d.subtype,
                    param1: d.param1,
                    param2: d.param2,
                    param3: d.param3,
                    branches,
                },
            )
        },
    }
}

impl EventPatcher {
    /// Takes the flows out of the file and lifts their edges to references,
    /// element by element in order.
    pub fn new(flow: Msbf, text: Msbt) -> (r: Self)
        ensures
            r.ref_flows@.len() == flow.flows@.len(),
            forall|i: int|
                0 <= i < flow.flows@.len() ==> is_ref_of(
                    flow.flows@[i],
                    #[trigger] r.ref_flows@[i],
                ),
            r.index_names@.len() == 0,
            r.text == text,
            r.flow.entrypoints == flow.entrypoints,
            r.flow.flows@.len() == 0,
    {
        let mut flow = flow;
        let mut flows: Vec<FlowEntry> = Vec::new();
        core::mem::swap(&mut flow.flows, &mut flows);
        let ghost orig = flows@;
        let mut ref_flows: Vec<RefFlowEntry> = Vec::new();
        while flows.len() > 0
            invariant
                ref_flows@.len() + flows@.len() == orig.len(),
                flows@ == orig.subrange(ref_flows@.len() as int, orig.len() as int),
                forall|j: int|
                    0 <= j < ref_flows@.len() ==> is_ref_of(orig[j], #[trigger] ref_flows@[j]),
            decreases flows@.len(),
        {
            let f = flows.remove(0);
            assert(f == orig[ref_flows@.len() as int]);
            ref_flows.push(RefFlowEntry::from_flow(f));
            assert(flows@ =~= orig.subrange(ref_flows@.len() as int, orig.len() as int));
        }
        EventPatcher { flow, text, ref_flows, index_names: Vec::new() }
    }

    /// Resolves a reference to a plain index: a label is looked up among the
    /// names assigned while patching, the first binding winning.
    pub fn resolve(&self, index: &Flowref) -> (r: Result<usize, FlowPatchError>)
        ensures
            match r {
                Ok(u) => spec_resolve(*self, *index) == Some(u as int),
                Err(e) => spec_resolve(*self, *index) is None && (e matches
                    FlowPatchError::OutOfRange(_) || e matches FlowPatchError::NameNotFound(_)),
            },
    {
        let i16index: i16 = match index {
            Flowref::Index(i) => *i,
            Flowref::Name(name) => {
                match find_label(&self.index_names, name) {
                    Some(v) => v,
                    None => {
                        return Err(FlowPatchError::NameNotFound(name.clone()));
                    },
                }
            },
        };
        if i16index < 0 {
            return Err(FlowPatchError::OutOfRange(i16index));
        }
        let uindex = i16index as usize;
        if uindex >= self.ref_flows.len() {
            return Err(FlowPatchError::OutOfRange(i16index));
        }
        Ok(uindex)
    }

    /// A copy of the entry a reference points at, equivalent field for field.
    pub fn get_flow(&self, index: &Flowref) -> (r: Result<RefFlowEntry, FlowPatchError>)
        ensures
            match r {
                Ok(v) => spec_resolve(*self, *index) matches Some(k) && ref_entry_equiv(
                    v,
                    self.ref_flows@[k],
                ),
                Err(_) => spec_resolve(*self, *index) is None,
            },
    {
        let u = match self.resolve(index) {
            Ok(u) => u,
            Err(e) => {
                return Err(e);
            },
        };
        Ok(copy_ref_entry(&self.ref_flows[u]))
    }

    /// Redirects a non-diverging entry's successor; a switch here is an
    /// error, and every other entry is untouched.
    pub fn set_next(&mut self, index: &Flowref, new_next: Flowref) -> (r: Result<
        (),
        FlowPatchError,
    >)
        ensures
            r matches Ok(()) ==> (spec_resolve(*old(self), *index) matches Some(k) && old(
                self,
            ).ref_flows@[k] matches RefFlowEntry::NonDiverging(nd) && final(self).ref_flows@
                == old(self).ref_flows@.update(
                k,
                RefFlowEntry::NonDiverging(nd.spec_with_next(new_next)),
            )),
            r is Err ==> final(self).ref_flows@ == old(self).ref_flows@,
            r matches Err(e) ==> (e == FlowPatchError::UnexpectedSwitch <==> (spec_resolve(
                *old(self),
                *index,
            ) matches Some(k) && old(self).ref_flows@[k] matches RefFlowEntry::Diverging(_))),
            r matches Err(e) ==> (spec_resolve(*old(self), *index) is None ==> (e matches
                FlowPatchError::OutOfRange(_) || e matches FlowPatchError::NameNotFound(_))),
            final(self).index_names@ == old(self).index_names@,
            final(self).text == old(self).text,
            final(self).flow == old(self).flow,
    {
        let u = match self.resolve(index) {
            Ok(u) => u,
            Err(e) => {
                return Err(e);
            },
        };
        let ghost pre = self.ref_flows@;
        let entry = self.ref_flows.remove(u);
        match entry {
            RefFlowEntry::NonDiverging(nd) => {
                let updated = nd.with_next(new_next);
                self.ref_flows.insert(u, RefFlowEntry::NonDiverging(updated));
                assert(self.ref_flows@ =~= pre.update(
                    u as int,
                    self.ref_flows@[u as int],
                ));
                Ok(())
            },
            RefFlowEntry::Diverging(d) => {
                self.ref_flows.insert(u, RefFlowEntry::Diverging(d));
                assert(self.ref_flows@ =~= pre);
                Err(FlowPatchError::UnexpectedSwitch)
            },
        }
    }

    /// Replaces a switch entry's branch list; a non-diverging entry here is
    /// an error, and every other entry is untouched.
    pub fn set_branches(&mut self, index: &Flowref, new_branches: Vec<Flowref>) -> (r: Result<
        (),
        FlowPatchError,
    >)
        ensures
            r matches Ok(()) ==> (spec_resolve(*old(self), *index) matches Some(k) && old(
                self,
            ).ref_flows@[k] matches RefFlowEntry::Diverging(d) && final(self).ref_flows@ == old(
                self,
            ).ref_flows@.update(
                k,
                RefFlowEntry::Diverging(
                    RefFlowEntryDiverging {
                        subtype: d.subtype,
                        param1: d.param1,
                        param2: d.param2,
                        param3: d.param3,
                        branches: new_branches,
                    },
                ),
            )),
            r is Err ==> final(self).ref_flows@ == old(self).ref_flows@,
            r matches Err(e) ==> (e == FlowPatchError::ExpectedSwitch <==> (spec_resolve(
                *old(self),
                *index,
            ) matches Some(k) && old(self).ref_flows@[k] matches RefFlowEntry::NonDiverging(_))),
            r matches Err(e) ==> (spec_resolve(*old(self), *index) is None ==> (e matches
                FlowPatchError::OutOfRange(_) || e matches FlowPatchError::NameNotFound(_))),
            final(self).index_names@ == old(self).index_names@,
            final(self).text == old(self).text,
            final(self).flow == old(self).flow,
    {
        let u = match self.resolve(index) {
            Ok(u) => u,
            Err(e) => {
                return Err(e);
            },
        };
        let ghost pre = self.ref_flows@;
        let entry = self.ref_flows.remove(u);
        match entry {
            RefFlowEntry::Diverging(d) => {
                let updated = RefFlowEntryDiverging {
                    subtype: d.subtype,
                    param1: d.param1,
                    param2: d.param2,
                    param3: d.param3,
                    branches: new_branches,
                };
                self.ref_flows.insert(u, RefFlowEntry::Diverging(updated));
                assert(self.ref_flows@ =~= pre.update(
                    u as int,
                    self.ref_flows@[u as int],
                ));
                Ok(())
            },
            RefFlowEntry::NonDiverging(nd) => {
                self.ref_flows.insert(u, RefFlowEntry::NonDiverging(nd));
                assert(self.ref_flows@ =~= pre);
                Err(FlowPatchError::ExpectedSwitch)
            },
        }
    }

    /// Appends a text line and a text-flow entry showing it; returns the new
    /// flow's index.
    pub fn add_show_text(&mut self, text: &str, next_flow: Flowref) -> (r: i16)
        ensures
            final(self).ref_flows@.len() == old(self).ref_flows@.len() + 1,
            final(self).ref_flows@.last() matches RefFlowEntry::NonDiverging(
                RefFlowEntryNonDiverging::Text { file, line, next },
            ) && file == 0 && line as int == (old(self).text.text@.len() as u16) as int && next
                == next_flow,
            final(self).text.text@.len() == old(self).text.text@.len() + 1,
            final(self).text.text@.last().text@ == crate::msb_edit::flow::utf16_of(text@),
            final(self).text.lbl@.len() == old(self).text.lbl@.len() + 1,
            final(self).text.lbl@.last().1 as int == (old(self).text.text@.len() as u16) as int,
            old(self).ref_flows@.len() < 0x8000 ==> r == old(self).ref_flows@.len(),
    {
        #[verifier::truncate]
        let text_line = self.text.text.len() as u16;
        #[verifier::truncate]
        let flow_index = self.ref_flows.len() as i16;
        let mut atr: Vec<u8> = Vec::new();
        atr.push(0);
        atr.push(0);
        let units = crate::msb_edit::flow::encode_utf16_units(text);
        self.text.text.push(TextSegment { atr, text: units });
        let label = crate::msb_edit::flow::decimal_string(text_line);
        self.text.lbl.push((label, text_line as u32));
        self.ref_flows.push(
            RefFlowEntry::NonDiverging(
                RefFlowEntryNonDiverging::Text { file: 0, line: text_line, next: next_flow },
            ),
        );
        flow_index
    }

    /// Appends a text line under an explicit label; returns the line number.
    pub fn add_text_with_label(&mut self, text: &str, label: String) -> (r: u16)
        ensures
            final(self).text.text@.len() == old(self).text.text@.len() + 1,
            final(self).text.text@.last().text@ == crate::msb_edit::flow::utf16_of(text@),
            final(self).text.lbl@.len() == old(self).text.lbl@.len() + 1,
            final(self).text.lbl@.last().0 == label && final(self).text.lbl@.last().1 as int == (
            old(self).text.text@.len() as u16) as int,
            old(self).text.text@.len() < 0x10000 ==> r == old(self).text.text@.len(),
    {
        #[verifier::truncate]
        let text_line = self.text.text.len() as u16;
        let mut atr: Vec<u8> = Vec::new();
        atr.push(0);
        atr.push(0);
        let units = crate::msb_edit::flow::encode_utf16_units(text);
        self.text.text.push(TextSegment { atr, text: units });
        self.text.lbl.push((label, text_line as u32));
        text_line
    }

    /// Appends a flow entry, optionally under a label bound to its index;
    /// returns that index.
    pub fn add_flow(&mut self, flow: RefFlowEntry, label: Option<String>) -> (r: i16)
        requires
            old(self).ref_flows@.len() < 0x7FFF,
        ensures
            final(self).ref_flows@ == old(self).ref_flows@.push(flow),
            r == old(self).ref_flows@.len(),
            label matches Some(l) ==> final(self).index_names@ == old(self).index_names@.push(
                (l, old(self).ref_flows@.len() as i16),
            ),
            label is None ==> final(self).index_names@ == old(self).index_names@,
            final(self).text == old(self).text,
            final(self).flow == old(self).flow,
    {
        let next_index = self.ref_flows.len() as i16;
        if let Some(label) = label {
            self.index_names.push((label, next_index));
        }
        self.ref_flows.push(flow);
        next_index
    }
}

} // verus!
