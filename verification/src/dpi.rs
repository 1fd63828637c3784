//! Sensor resolutions that a device can take.
use vstd::prelude::*;

use crate::value::Value;

verus! {

/// The resolutions that a device can take, at least one.
#[derive(Debug)]
pub struct DpiCapabilities {
    pub values: Vec<u16>,
}

/// A device that takes no resolution.
#[derive(Clone, Copy, Debug, PartialEq, Eq, Structural)]
pub struct NoDpiValues;

/// How far a resolution is from a wanted one.
pub open spec fn distance(value: u16, wanted: u32) -> int {
    if value >= wanted {
        value - wanted
    } else {
        wanted - value
    }
}

/// Whether no resolution is nearer than the one at `at`, and those before it are
/// farther.
pub open spec fn is_nearest(values: Seq<u16>, wanted: u32, at: int) -> bool {
    &&& 0 <= at < values.len()
    &&& forall|i: int|
        0 <= i < values.len() ==> distance(values[at], wanted) <= distance(
            #[trigger] values[i],
            wanted,
        )
    &&& forall|i: int|
        0 <= i < at ==> distance(values[at], wanted) < distance(#[trigger] values[i], wanted)
}

impl DpiCapabilities {
    pub open spec fn wf(self) -> bool {
        self.values@.len() > 0
    }

    /// The capabilities with these resolutions. There has to be one.
    pub fn new(values: Vec<u16>) -> (capabilities: Result<DpiCapabilities, NoDpiValues>)
        ensures
            values@.len() == 0 ==> capabilities == Err::<DpiCapabilities, NoDpiValues>(NoDpiValues),
            values@.len() > 0 ==> capabilities == Ok::<DpiCapabilities, NoDpiValues>(
                DpiCapabilities { values },
            ),
    {
        if values.len() == 0 {
            Err(NoDpiValues)
        } else {
            Ok(DpiCapabilities { values })
        }
    }

    /// The resolution nearest to a wanted one, the first of those that tie.
    pub fn nearest(&self, wanted: u32) -> (value: u16)
        requires
            self.wf(),
        ensures
            exists|at: int|
                #![trigger is_nearest(self.values@, wanted, at)]
                is_nearest(self.values@, wanted, at) && value == self.values@[at],
    {
        let mut best: usize = 0;
        let mut i: usize = 1;
        while i < self.values.len()
            invariant
                best < i <= self.values@.len(),
                forall|j: int|
                    0 <= j < i ==> distance(self.values@[best as int], wanted) <= distance(
                        #[trigger] self.values@[j],
                        wanted,
                    ),
                forall|j: int|
                    0 <= j < best ==> distance(self.values@[best as int], wanted) < distance(
                        #[trigger] self.values@[j],
                        wanted,
                    ),
            decreases self.values@.len() - i,
        {
            if gap(self.values[i], wanted) < gap(self.values[best], wanted) {
                best = i;
            }
            i = i + 1;
        }
        assert(is_nearest(self.values@, wanted, best as int));
        self.values[best]
    }
}

fn gap(value: u16, wanted: u32) -> (gap: u32)
    ensures
        gap == distance(value, wanted),
{
    let value: u32 = value as u32;
    if value >= wanted {
        value - wanted
    } else {
        wanted - value
    }
}

/// A resolution that the device can take is the nearest to itself.
pub proof fn a_supported_value_is_kept(values: Seq<u16>, wanted: u16, own: int, at: int)
    requires
        0 <= own < values.len(),
        values[own] == wanted,
        is_nearest(values, wanted as u32, at),
    ensures
        values[at] == wanted,
{
    assert(distance(values[own], wanted as u32) == 0);
}

impl Value for DpiCapabilities {
    type Model = Seq<u16>;

    open spec fn model(&self) -> Seq<u16> {
        self.values@
    }

    fn same(&self, other: &DpiCapabilities) -> (same: bool) {
        proof {
            assert(self.values.model() =~= self.values@);
            assert(other.values.model() =~= other.values@);
        }
        self.values.same(&other.values)
    }

    fn copied(&self) -> (copy: DpiCapabilities) {
        let values: Vec<u16> = self.values.copied();
        proof {
            assert(self.values.model() =~= self.values@);
            assert(values.model() =~= values@);
        }
        DpiCapabilities { values }
    }
}

/// So many resolutions, from the first one, a step apart.
pub open spec fn stepped(first: u16, step: u16, count: nat) -> Seq<u16> {
    Seq::new(count, |i: int| (first + step * i) as u16)
}

/// So many resolutions, from the first one, a step apart.
pub fn dpi_steps(first: u16, step: u16, count: u16) -> (values: Vec<u16>)
    requires
        first + step * count <= 0xffff,
    ensures
        values@ == stepped(first, step, count as nat),
{
    let mut values: Vec<u16> = Vec::new();
    let mut i: u16 = 0;
    let mut value: u16 = first;
    while i < count
        invariant
            i <= count,
            first + step * count <= 0xffff,
            value == first + step * i,
            values@.len() == i,
            forall|j: int| 0 <= j < i ==> values@[j] == (first + step * j) as u16,
        decreases count - i,
    {
        assert(first + step * (i + 1) <= 0xffff) by (nonlinear_arith)
            requires
                first + step * count <= 0xffff,
                i < count,
                step >= 0,
        ;
        assert(step * (i + 1) == step * i + step) by (nonlinear_arith);
        values.push(value);
        value = value + step;
        i = i + 1;
    }
    assert(values@ =~= stepped(first, step, count as nat));
    values
}

/// No resolution that the device can take lies nearer to the wanted one than the nearest,
/// on either side.
pub proof fn nothing_is_nearer_than_the_nearest(values: Seq<u16>, wanted: u32, at: int, other: int)
    requires
        is_nearest(values, wanted, at),
        0 <= other < values.len(),
    ensures
        wanted <= values[other] ==> values[at] - wanted <= values[other] - wanted && wanted
            - values[at] <= values[other] - wanted,
        values[other] <= wanted ==> values[at] - wanted <= wanted - values[other] && wanted
            - values[at] <= wanted - values[other],
        other < at ==> values[other] != values[at],
{
    assert(distance(values[at], wanted) <= distance(values[other], wanted));
}

/// Stepped resolutions start at the first one, each a step above the one before.
pub proof fn steps_are_even(first: u16, step: u16, count: nat, at: int)
    requires
        0 <= at < count,
        first + step * count <= 0xffff,
    ensures
        stepped(first, step, count).len() == count,
        stepped(first, step, count)[0] == first,
        at + 1 < count ==> stepped(first, step, count)[at + 1] == stepped(first, step, count)[at]
            + step,
{
    assert(0 <= step * at <= step * count) by (nonlinear_arith)
        requires
            0 <= at < count,
            step >= 0,
    ;
    assert(step * (at + 1) == step * at + step) by (nonlinear_arith);
    assert(step * (at + 1) <= step * count) by (nonlinear_arith)
        requires
            at + 1 <= count,
            step >= 0,
    ;
    assert(step * 0 == 0);
}

} // verus!
