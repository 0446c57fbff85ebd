use vstd::prelude::*;

verus! {

/// Where one encoded argument lies in guest memory: the address of its first
/// byte and the number of its bytes, both as the guest's entry point takes
/// them.
#[derive(Clone, Copy, Debug, PartialEq, Eq, Structural)]
pub struct ArgumentSlot {
    pub address: i32,
    pub length: i32,
}

impl ArgumentSlot {
    /// A slot starts at a non-negative address and ends within the range of
    /// addresses that a 32-bit signed integer can name.
    pub open spec fn wf(self) -> bool {
        0 <= self.address && 0 <= self.length && self.address + self.length <= i32::MAX
    }

    /// The address just behind the slot, where the next one starts.
    pub open spec fn spec_end(self) -> int {
        self.address + self.length
    }

    /// The address just behind the slot.
    pub fn end(&self) -> (result: i32)
        requires
            self.wf(),
        ensures
            result == self.spec_end(),
    {
        self.address + self.length
    }
}

/// Whether `length` bytes can be placed at `cursor`: the cursor is no negative
/// address and the end of the bytes is still a 32-bit signed address.
pub open spec fn placeable(cursor: int, length: int) -> bool {
    0 <= cursor && 0 <= length && cursor + length <= i32::MAX
}

/// The sum of the first `count` lengths.
pub open spec fn total_length(lengths: Seq<int>, count: int) -> int
    decreases count,
{
    if count <= 0 {
        0
    } else {
        total_length(lengths, count - 1) + lengths[count - 1]
    }
}

/// Places `length` bytes at `cursor`, or tells that they cannot be placed.
pub fn place(cursor: i32, length: usize) -> (result: Option<ArgumentSlot>)
    ensures
        result is Some <==> placeable(cursor as int, length as int),
        result is Some ==> result.unwrap() == (ArgumentSlot {
            address: cursor,
            length: length as i32,
        }),
        result is Some ==> result.unwrap().wf(),
{
    if cursor < 0 || length > 0x7fff_ffff {
        return None;
    }
    let short: i32 = length as i32;
    match cursor.checked_add(short) {
        Some(_) => Some(ArgumentSlot { address: cursor, length: short }),
        None => None,
    }
}

/// The integers handed to the guest's entry point: for each slot its address,
/// then its length, in the order of the slots.
pub open spec fn flattened(slots: Seq<ArgumentSlot>) -> Seq<i32> {
    Seq::new(
        2 * slots.len(),
        |i: int|
            if i % 2 == 0 {
                slots[i / 2].address
            } else {
                slots[i / 2].length
            },
    )
}

/// Flattens the slots into the parameter list of the entry point.
pub fn shim_parameters(slots: &Vec<ArgumentSlot>) -> (result: Vec<i32>)
    ensures
        result@ == flattened(slots@),
        result@.len() == 2 * slots@.len(),
{
    let mut parameters: Vec<i32> = Vec::new();
    let mut i: usize = 0;
    while i < slots.len()
        invariant
            0 <= i <= slots@.len(),
            parameters@.len() == 2 * i,
            forall|j: int| 0 <= j < 2 * i ==> #[trigger] parameters@[j] == flattened(slots@)[j],
        decreases slots@.len() - i,
    {
        let slot = slots[i];
        parameters.push(slot.address);
        parameters.push(slot.length);
        i += 1;
    }
    assert(parameters@ =~= flattened(slots@));
    parameters
}

/// The parameter list of an operation without arguments is empty.
pub proof fn lemma_no_arguments_no_parameters(slots: Seq<ArgumentSlot>)
    requires
        slots.len() == 0,
    ensures
        flattened(slots).len() == 0,
{
}

} // verus!
