//! Appliance profiles: what a device can tell and do.

use crate::text::same_text;
use vstd::prelude::*;

pub mod id498;

verus! {

/// What a property is about.
#[derive(Clone, Copy, Debug, PartialEq, Eq, Structural)]
pub enum PropertyKind {
    /// The operation of the appliance; such properties are published.
    Operation,
    /// One of the other groups, by number.
    Other(u8),
}

/// What an action is about.
#[derive(Clone, Copy, Debug, PartialEq, Eq, Structural)]
pub enum ActionKind {
    /// The operation of the appliance; such actions are published.
    Operation,
    /// One of the other groups, by number.
    Other(u8),
}

/// What an appliance is.
#[derive(Clone, Copy, Debug, PartialEq, Eq, Structural)]
pub enum DeviceKind {
    WashingMachine,
    TumbleDryer,
    /// Another kind, by number.
    Other(u8),
}

/// Something that a device can tell.
#[derive(Clone, Copy, Debug, PartialEq, Eq)]
pub struct Property {
    pub kind: PropertyKind,
    pub id: &'static str,
    pub name: &'static str,
    pub unit: Option<&'static str>,
}

/// Something that a device can do.
#[derive(Clone, Copy, Debug, PartialEq, Eq)]
pub struct Action {
    pub kind: ActionKind,
    pub id: &'static str,
    pub name: &'static str,
    /// The action takes a parameter.
    pub takes_parameter: bool,
}

/// The value of a property.
#[derive(Debug)]
pub enum Value {
    Number(u32),
    Bool(bool),
    /// A text in UTF-8.
    String(Vec<u8>),
    /// A number of seconds.
    Duration(u64),
    Date { year: u16, month: u8, day: u8 },
    /// The reading of a sensor.
    Sensor,
    /// A stored fault.
    Fault,
}

/// The value of a property, in the abstract.
pub ghost enum ValueView {
    Number(u32),
    Bool(bool),
    String(Seq<u8>),
    Duration(u64),
    Date { year: u16, month: u8, day: u8 },
    Sensor,
    Fault,
}

impl View for Value {
    type V = ValueView;

    open spec fn view(&self) -> ValueView {
        match *self {
            Value::Number(n) => ValueView::Number(n),
            Value::Bool(b) => ValueView::Bool(b),
            Value::String(s) => ValueView::String(s@),
            Value::Duration(d) => ValueView::Duration(d),
            Value::Date { year, month, day } => ValueView::Date { year, month, day },
            Value::Sensor => ValueView::Sensor,
            Value::Fault => ValueView::Fault,
        }
    }
}

/// Why a device cannot be used as asked.
#[derive(Debug)]
pub enum Error<E> {
    /// The link to the device failed.
    Link(E),
    UnknownSoftwareId(u16),
    UnknownProperty,
    UnknownAction,
}

/// The positions of the properties of a kind among the first `n`.
pub open spec fn of_kind(props: Seq<Property>, kind: PropertyKind, n: int) -> Seq<int>
    decreases n,
{
    if n <= 0 {
        Seq::empty()
    } else if props[n - 1].kind == kind {
        of_kind(props, kind, n - 1).push(n - 1)
    } else {
        of_kind(props, kind, n - 1)
    }
}

/// The positions as numbers.
pub open spec fn positions(v: Seq<usize>) -> Seq<int> {
    Seq::new(v.len(), |i: int| v[i] as int)
}

/// Selects the properties of a kind, in order.
pub fn properties_of_kind(props: &[Property], kind: PropertyKind) -> (r: Vec<usize>)
    ensures
        positions(r@) == of_kind(props@, kind, props@.len() as int),
        forall|i: int| 0 <= i < r@.len() ==> #[trigger] r@[i] < props@.len(),
{
    let mut r: Vec<usize> = Vec::new();
    assert(positions(r@) =~= Seq::empty());
    for i in 0..props.len()
        invariant
            positions(r@) == of_kind(props@, kind, i as int),
            forall|j: int| 0 <= j < r@.len() ==> #[trigger] r@[j] < props@.len(),
    {
        if props[i].kind == kind {
            let ghost before = r@;
            r.push(i);
            assert(positions(r@) =~= positions(before).push(i as int));
        }
    }
    r
}

impl Property {
    /// The two describe the same property, word for word.
    pub open spec fn same(self, other: Property) -> bool {
        &&& self.kind == other.kind
        &&& self.id@ == other.id@
        &&& self.name@ == other.name@
        &&& match (self.unit, other.unit) {
            (Some(a), Some(b)) => a@ == b@,
            (None, None) => true,
            _ => false,
        }
    }

    /// Tells whether two properties are the same.
    pub fn is(&self, other: &Property) -> (r: bool)
        ensures
            r == self.same(*other),
    {
        self.kind == other.kind && same_text(self.id, other.id) && same_text(self.name, other.name)
            && match (self.unit, other.unit) {
            (Some(a), Some(b)) => same_text(a, b),
            (None, None) => true,
            _ => false,
        }
    }
}

} // verus!
