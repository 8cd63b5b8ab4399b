//! Plain message records and fixed-layout sequences.
//!
//! These are the message schemas the crate ships: a single unsigned
//! 16-bit sample and the point-field descriptor of a point cloud, each
//! with its sequence type.  A sequence is created at a fixed size with
//! every element zero-initialised, like the generated schema types they
//! stand for.

use vstd::prelude::*;

verus! {

/// Datatype code: signed 8-bit integer.
pub const INT8: u8 = 1;

/// Datatype code: unsigned 8-bit integer.
pub const UINT8: u8 = 2;

/// Datatype code: signed 16-bit integer.
pub const INT16: u8 = 3;

/// Datatype code: unsigned 16-bit integer.
pub const UINT16: u8 = 4;

/// Datatype code: signed 32-bit integer.
pub const INT32: u8 = 5;

/// Datatype code: unsigned 32-bit integer.
pub const UINT32: u8 = 6;

/// Datatype code: 32-bit floating point.
pub const FLOAT32: u8 = 7;

/// Datatype code: 64-bit floating point.
pub const FLOAT64: u8 = 8;

/// One unsigned 16-bit sample.
#[derive(Clone, Copy, Debug, PartialEq, Eq, Structural)]
pub struct UInt16 {
    /// The sample.
    pub data: u16,
}

impl UInt16 {
    /// A zero-initialised sample.
    pub fn new() -> (r: Option<UInt16>)
        ensures
            r == Some(UInt16 { data: 0u16 }),
    {
        Some(UInt16 { data: 0 })
    }
}

/// A fixed-size run of unsigned 16-bit samples.
pub struct UInt16Sequence {
    data: Vec<UInt16>,
}

impl View for UInt16Sequence {
    type V = Seq<UInt16>;

    closed spec fn view(&self) -> Seq<UInt16> {
        self.data@
    }
}

impl UInt16Sequence {
    /// A sequence of `size` zero-initialised samples.
    pub fn new(size: usize) -> (r: Option<UInt16Sequence>)
        ensures
            r matches Some(s) ==> {
                &&& s@.len() == size
                &&& forall|k: int| 0 <= k < size ==> s@[k] == (UInt16 { data: 0u16 })
            },
            r is Some,
    {
        let mut data: Vec<UInt16> = Vec::new();
        let mut i: usize = 0;
        while i < size
            invariant
                i <= size,
                data@.len() == i,
                forall|k: int| 0 <= k < i ==> data@[k] == (UInt16 { data: 0u16 }),
            decreases size - i,
        {
            data.push(UInt16 { data: 0 });
            i = i + 1;
        }
        Some(UInt16Sequence { data })
    }

    /// The elements, as a slice.
    pub fn as_slice(&self) -> (r: Option<&[UInt16]>)
        ensures
            r matches Some(s) ==> s@ == self@,
            r is Some,
    {
        Some(self.data.as_slice())
    }

    /// The elements, as a mutable slice.
    pub fn as_slice_mut(&mut self) -> Option<&mut [UInt16]> {
        Some(self.data.as_mut_slice())
    }
}

/// One field of a point-cloud record: where in each point it lies and
/// what it holds.
#[derive(Clone, Debug)]
pub struct PointField {
    /// The field's name.
    pub name: String,
    /// The field's byte offset inside one point.
    pub offset: u32,
    /// The field's datatype code.
    pub datatype: u8,
    /// How many values of the datatype the field holds.
    pub count: u32,
}

impl PointField {
    /// A zero-initialised descriptor: empty name, offset zero, no
    /// datatype, count zero.
    pub fn new() -> (r: Option<PointField>)
        ensures
            r matches Some(f) ==> {
                &&& f.name@ == Seq::<char>::empty()
                &&& f.offset == 0u32
                &&& f.datatype == 0u8
                &&& f.count == 0u32
            },
            r is Some,
    {
        let name = String::new();
        proof {
            assert(name@ =~= Seq::<char>::empty());
        }
        Some(PointField { name, offset: 0, datatype: 0, count: 0 })
    }
}

/// A fixed-size run of point-field descriptors.
pub struct PointFieldSequence {
    data: Vec<PointField>,
}

impl View for PointFieldSequence {
    type V = Seq<PointField>;

    closed spec fn view(&self) -> Seq<PointField> {
        self.data@
    }
}

impl PointFieldSequence {
    /// A sequence of `size` zero-initialised descriptors: each has an
    /// empty name, offset zero, no datatype and count zero.
    pub fn new(size: usize) -> (r: Option<PointFieldSequence>)
        ensures
            r matches Some(s) ==> {
                &&& s@.len() == size
                &&& forall|k: int|
                    0 <= k < size ==> {
                        let f = #[trigger] s@[k];
                        &&& f.name@ == Seq::<char>::empty()
                        &&& f.offset == 0u32
                        &&& f.datatype == 0u8
                        &&& f.count == 0u32
                    }
            },
            r is Some,
    {
        let mut data: Vec<PointField> = Vec::new();
        let mut i: usize = 0;
        while i < size
            invariant
                i <= size,
                data@.len() == i,
                forall|k: int|
                    0 <= k < i ==> {
                        let f = #[trigger] data@[k];
                        &&& f.name@ == Seq::<char>::empty()
                        &&& f.offset == 0u32
                        &&& f.datatype == 0u8
                        &&& f.count == 0u32
                    },
            decreases size - i,
        {
            match PointField::new() {
                Some(f) => data.push(f),
                None => {
                    let name = String::new();
                    proof {
                        assert(name@ =~= Seq::<char>::empty());
                    }
                    data.push(PointField { name, offset: 0, datatype: 0, count: 0 });
                },
            }
            i = i + 1;
        }
        Some(PointFieldSequence { data })
    }

    /// The elements, as a slice.
    pub fn as_slice(&self) -> (r: Option<&[PointField]>)
        ensures
            r matches Some(s) ==> s@ == self@,
            r is Some,
    {
        Some(self.data.as_slice())
    }

    /// The elements, as a mutable slice.
    pub fn as_slice_mut(&mut self) -> Option<&mut [PointField]> {
        Some(self.data.as_mut_slice())
    }
}

} // verus!
