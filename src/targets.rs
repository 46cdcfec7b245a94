//! Sample targets for generated harnesses: small functions over each supported
//! parameter shape, and a bounded array type with a constructor.
use vstd::prelude::*;

verus! {

pub fn u8_input(s: u8) {
    let _ = s;
}

pub fn i16_input(s: i16) {
    let _ = s;
}

pub fn bool_input(s: bool) {
    let _ = s;
}

pub fn string_input(s: String) {
    let _ = s;
}

pub fn str_input(s: &str) {
    let _ = s;
}

pub fn arr_input2(stream: &[i32; 10]) {
    let _ = stream;
}

/// Leaves the slice as it was.
pub fn slice_input2(stream: &mut [i32])
    ensures
        final(stream)@ == old(stream)@,
{
    let _ = stream;
}

pub fn slice_input3(stream: &[i32]) {
    let _ = stream;
}

pub fn to_str(stream: &Vec<i16>) {
    let _ = stream.clone();
}

/// Leaves the value as it was.
pub fn mut_u8_input(s: &mut u8)
    ensures
        *final(s) == *old(s),
{
    let _ = s;
}

/// Zeroes the first `length + 1` bytes of `buffer`, and leaves it as it was where
/// `length` exceeds its length. A `length` equal to the buffer's length would reach
/// one byte past its end, and is not accepted.
pub fn initialize_prefix(length: usize, buffer: &mut [u8])
    requires
        length != old(buffer)@.len(),
    ensures
        final(buffer)@.len() == old(buffer)@.len(),
        length > old(buffer)@.len() ==> final(buffer)@ == old(buffer)@,
        length < old(buffer)@.len() ==> forall|i: int| 0 <= i < old(buffer)@.len() ==>
            #[trigger] final(buffer)@[i] == if i <= length { 0u8 } else { old(buffer)@[i] },
{
    if length > buffer.len() {
        return;
    }
    let mut i: usize = 0;
    while i <= length
        invariant
            length < buffer@.len(),
            buffer@.len() == old(buffer)@.len(),
            i <= length + 1,
            forall|j: int| 0 <= j < buffer@.len() ==>
                #[trigger] buffer@[j] == if j < i { 0u8 } else { old(buffer)@[j] },
        decreases length + 1 - i,
    {
        buffer[i] = 0;
        i = i + 1;
    }
}

/// An array of at most `capacity` integers.
pub struct Array {
    data: Vec<i32>,
    len: usize,
    capacity: usize,
}

impl View for Array {
    type V = Seq<i32>;

    closed spec fn view(&self) -> Seq<i32> {
        self.data@
    }
}

impl Array {
    /// The largest number of elements the array holds.
    pub closed spec fn capacity_spec(&self) -> nat {
        self.capacity as nat
    }

    /// The recorded length matches the contents, which stay within the capacity.
    pub closed spec fn wf(&self) -> bool {
        &&& self.data.len() == self.len
        &&& self.len <= self.capacity
    }

    /// An empty array of capacity `cap`.
    pub fn new(cap: usize) -> (r: Array)
        ensures
            r.wf(),
            r@ == Seq::<i32>::empty(),
            r.capacity_spec() == cap,
    {
        Array { data: Vec::with_capacity(cap), len: 0, capacity: cap }
    }

    /// Appends `val` unless the array is full, in which case it is left as it was.
    pub fn push(&mut self, val: i32)
        requires
            old(self).wf(),
        ensures
            final(self).wf(),
            final(self).capacity_spec() == old(self).capacity_spec(),
            final(self)@ == if old(self)@.len() == old(self).capacity_spec() {
                old(self)@
            } else {
                old(self)@.push(val)
            },
    {
        if self.len == self.capacity {
            return;
        }
        self.data.push(val);
        self.len += 1;
    }

    /// Removes and returns the last element, or `None` where the array is empty.
    pub fn pop(&mut self) -> (r: Option<i32>)
        requires
            old(self).wf(),
        ensures
            final(self).wf(),
            final(self).capacity_spec() == old(self).capacity_spec(),
            old(self)@.len() == 0 ==> r is None && final(self)@ == old(self)@,
            old(self)@.len() > 0 ==> r == Some(old(self)@.last()) && final(self)@ == old(self)@.drop_last(),
    {
        if self.len == 0 {
            return None;
        }
        self.len -= 1;
        self.data.pop()
    }

    /// The element at `index`, or `None` where `index` is past the end.
    pub fn get_sound(&self, index: usize) -> (r: Option<i32>)
        requires
            self.wf(),
        ensures
            r == if index < self@.len() { Some(self@[index as int]) } else { None::<i32> },
    {
        if index >= self.len {
            return None;
        }
        Some(self.data[index])
    }
}

/// The element of `arr` at `index`, or `None` where `index` is past the end.
pub fn get_sound1(arr: &Array, index: usize) -> (r: Option<i32>)
    requires
        arr.wf(),
    ensures
        r == if index < arr@.len() { Some(arr@[index as int]) } else { None::<i32> },
{
    if index >= arr.len {
        return None;
    }
    Some(arr.data[index])
}

} // verus!
