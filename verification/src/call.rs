use crate::codec::decodable;
use crate::codec::decode_locator;
use crate::codec::decode_result;
use crate::codec::decoded;
use crate::codec::decoded_locator;
use crate::codec::encode_argument;
use crate::codec::OutputLocator;
use crate::codec::Shape;
use crate::codec::Value;
use crate::codec::ValueView;
use crate::codec::LOCATOR_WIDTH;
use crate::error::CallError;
use crate::guest::call_function;
use crate::guest::find_function;
use crate::guest::find_memory;
use crate::guest::function_home;
use crate::guest::guest_bytes;
use crate::guest::instance_home;
use crate::guest::instantiate;
use crate::guest::exported_function;
use crate::guest::exports_function;
use crate::guest::exports_memory;
use crate::guest::same_linkage;
use crate::guest::same_memories;
use crate::guest::memory_home;
use crate::guest::overwritten;
use crate::guest::parameter_flags;
use crate::guest::parameters_are_i32;
use crate::guest::read_region;
use crate::guest::region_size;
use crate::guest::result_flags;
use crate::guest::results_are_i32;
use crate::guest::store_identity;
use crate::guest::write_region;
use crate::slots::place;
use crate::slots::placeable;
use crate::slots::shim_parameters;
use crate::slots::total_length;
use crate::slots::ArgumentSlot;
use vstd::prelude::*;
use vstd::slice::slice_to_vec;
use wasmtime::Func;
use wasmtime::Instance;
use wasmtime::Memory;
use wasmtime::Module;
use wasmtime::Store;

verus! {

/// One operation of the guest: its name, the shapes of its arguments in
/// their order, and the shape of its result where it has one.
#[derive(Clone, Debug, PartialEq, Eq)]
pub struct Operation {
    pub name: String,
    pub arguments: Vec<Shape>,
    pub result: Option<Shape>,
}

/// The name under which the guest exports the entry point of an operation.
pub open spec fn spec_shim_name(operation: Seq<char>) -> Seq<char> {
    "__wasm_"@ + operation
}

/// The name of the entry point of the operation `operation`.
pub fn shim_name(operation: &str) -> (result: String)
    ensures
        result@ == spec_shim_name(operation@),
{
    "__wasm_".to_owned().concat(operation)
}

/// Whether a function with these parameters and results is an entry point
/// for `argument_count` arguments: two 32-bit integers for each argument, and
/// one 32-bit integer as the result where there is one, none else.
pub open spec fn spec_signature_fits(
    parameters: Seq<bool>,
    results: Seq<bool>,
    argument_count: int,
    has_result: bool,
) -> bool {
    &&& parameters.len() == 2 * argument_count
    &&& forall|i: int| 0 <= i < parameters.len() ==> #[trigger] parameters[i]
    &&& results.len() == (if has_result {
        1int
    } else {
        0int
    })
    &&& forall|i: int| 0 <= i < results.len() ==> #[trigger] results[i]
}

fn all_set(flags: &Vec<bool>) -> (result: bool)
    ensures
        result == (forall|i: int| 0 <= i < flags@.len() ==> #[trigger] flags@[i]),
{
    let mut i: usize = 0;
    while i < flags.len()
        invariant
            0 <= i <= flags@.len(),
            forall|j: int| 0 <= j < i ==> #[trigger] flags@[j],
        decreases flags@.len() - i,
    {
        if !flags[i] {
            return false;
        }
        i += 1;
    }
    true
}

/// Holds a function's signature, given as one flag for each parameter and
/// result that says whether it is a 32-bit integer, against what the protocol
/// fixes for an entry point.
pub fn signature_fits(
    parameters: &Vec<bool>,
    results: &Vec<bool>,
    argument_count: usize,
    has_result: bool,
) -> (result: bool)
    ensures
        result == spec_signature_fits(parameters@, results@, argument_count as int, has_result),
{
    let wanted: usize = if has_result {
        1
    } else {
        0
    };
    parameters.len() % 2 == 0 && parameters.len() / 2 == argument_count && results.len() == wanted
        && all_set(parameters) && all_set(results)
}

/// What a call that was to return one address gave: the address where it is
/// the single result and a 32-bit integer.
pub open spec fn spec_single_address(results: Seq<Option<i32>>) -> Result<i32, CallError> {
    if results.len() == 1 && results[0] is Some {
        Ok(results[0].unwrap())
    } else {
        Err(CallError::SignatureMismatch)
    }
}

/// Takes the address out of the results of a call.
pub fn single_address(results: &Vec<Option<i32>>) -> (result: Result<i32, CallError>)
    ensures
        result == spec_single_address(results@),
{
    if results.len() != 1 {
        return Err(CallError::SignatureMismatch);
    }
    match results[0] {
        Some(address) => Ok(address),
        None => Err(CallError::SignatureMismatch),
    }
}

/// Finds the guest's linear memory, exported as `memory`.
pub fn resolve_memory(store: &mut Store<()>, instance: &Instance) -> (result: Result<
    Memory,
    CallError,
>)
    requires
        instance_home(*instance) == store_identity(*old(store)),
    ensures
        same_linkage(*old(store), *final(store)),
        same_memories(*old(store), *final(store)),
        result is Ok ==> memory_home(result.unwrap()) == store_identity(*final(store)),
        result is Ok <==> exports_memory(*old(store), *instance, "memory"@),
        result is Err ==> result.unwrap_err() == CallError::MemoryNotFound,
{
    match find_memory(store, instance, "memory") {
        Some(memory) => Ok(memory),
        None => Err(CallError::MemoryNotFound),
    }
}

/// Whether the instance exports under the name a function with the
/// signature of an entry point for `argument_count` arguments.
pub open spec fn entry_fits(
    store: Store<()>,
    instance: Instance,
    name: Seq<char>,
    argument_count: int,
    has_result: bool,
) -> bool {
    exported_function(store, instance, name) matches Some(function) && spec_signature_fits(
        parameter_flags(function),
        result_flags(function),
        argument_count,
        has_result,
    )
}

/// Calls an export of the guest that has the signature of an entry point.
/// `missing` is the error for an export that is not there. An export with
/// another signature is not called.
fn call_export(
    store: &mut Store<()>,
    instance: &Instance,
    name: &str,
    parameters: &Vec<i32>,
    has_result: bool,
    missing: CallError,
) -> (result: Result<Option<i32>, CallError>)
    requires
        instance_home(*instance) == store_identity(*old(store)),
        parameters@.len() % 2 == 0,
        missing != CallError::SignatureMismatch,
        missing != CallError::CallTrap,
    ensures
        same_linkage(*old(store), *final(store)),
        !exports_function(*old(store), *instance, name@) <==> result == Err::<
            Option<i32>,
            CallError,
        >(missing),
        exports_function(*old(store), *instance, name@) && !entry_fits(
            *old(store),
            *instance,
            name@,
            parameters@.len() as int / 2,
            has_result,
        ) <==> result == Err::<Option<i32>, CallError>(CallError::SignatureMismatch),
        result == Err::<Option<i32>, CallError>(missing) || result == Err::<
            Option<i32>,
            CallError,
        >(CallError::SignatureMismatch) ==> same_memories(*old(store), *final(store)),
        result is Ok ==> (result.unwrap() is Some <==> has_result),
        result is Err ==> result.unwrap_err() == missing || result.unwrap_err()
            == CallError::SignatureMismatch || result.unwrap_err() == CallError::CallTrap,
{
    let function: Func = match find_function(store, instance, name) {
        Some(function) => function,
        None => {
            return Err(missing);
        },
    };
    let takes = parameters_are_i32(store, &function);
    let gives = results_are_i32(store, &function);
    if !signature_fits(&takes, &gives, parameters.len() / 2, has_result) {
        return Err(CallError::SignatureMismatch);
    }
    let wanted: usize = if has_result {
        1
    } else {
        0
    };
    match call_function(store, &function, parameters, wanted) {
        Ok(results) => {
            if has_result {
                match single_address(&results) {
                    Ok(address) => Ok(Some(address)),
                    Err(e) => Err(e),
                }
            } else {
                Ok(None)
            }
        },
        Err(_) => Err(CallError::CallTrap),
    }
}

/// The name of the export that hands out the input buffer's address.
pub open spec fn spec_buffer_export() -> Seq<char> {
    "__wasm_get_input_buffer_address"@
}

/// Asks the guest for the address of its input buffer, through its export
/// `__wasm_get_input_buffer_address`, which takes nothing and returns the
/// address. The guest alone answers for the room behind that address.
pub fn negotiate(store: &mut Store<()>, instance: &Instance) -> (result: Result<i32, CallError>)
    requires
        instance_home(*instance) == store_identity(*old(store)),
    ensures
        same_linkage(*old(store), *final(store)),
        !exports_function(*old(store), *instance, spec_buffer_export()) <==> result == Err::<
            i32,
            CallError,
        >(CallError::BufferFunctionMissing),
        exports_function(*old(store), *instance, spec_buffer_export()) && !entry_fits(
            *old(store),
            *instance,
            spec_buffer_export(),
            0,
            true,
        ) <==> result == Err::<i32, CallError>(CallError::SignatureMismatch),
        result == Err::<i32, CallError>(CallError::BufferFunctionMissing) || result == Err::<
            i32,
            CallError,
        >(CallError::SignatureMismatch) ==> same_memories(*old(store), *final(store)),
        result is Err ==> result.unwrap_err() == CallError::BufferFunctionMissing
            || result.unwrap_err() == CallError::SignatureMismatch || result.unwrap_err()
            == CallError::CallTrap,
{
    let none: Vec<i32> = Vec::new();
    match call_export(
        store,
        instance,
        "__wasm_get_input_buffer_address",
        &none,
        true,
        CallError::BufferFunctionMissing,
    ) {
        Ok(Some(address)) => Ok(address),
        Ok(None) => Err(CallError::SignatureMismatch),
        Err(e) => Err(e),
    }
}

/// Whether `length` bytes at `cursor` lie within a region of `region` bytes
/// and within the addresses that the entry point can be told.
pub open spec fn writable(cursor: int, length: int, region: int) -> bool {
    placeable(cursor, length) && cursor + length <= region
}

/// Writes one encoded argument into the guest's memory at `cursor` and
/// returns its slot. Where the bytes do not fit, nothing is written.
pub fn write_slot(store: &mut Store<()>, memory: &Memory, cursor: i32, payload: &Vec<u8>) -> (result:
    Result<ArgumentSlot, CallError>)
    requires
        memory_home(*memory) == store_identity(*old(store)),
    ensures
        same_linkage(*old(store), *final(store)),
        result is Ok <==> writable(
            cursor as int,
            payload@.len() as int,
            guest_bytes(*old(store), *memory).len() as int,
        ),
        result is Ok ==> result.unwrap() == (ArgumentSlot {
            address: cursor,
            length: payload@.len() as i32,
        }),
        result is Ok ==> guest_bytes(*final(store), *memory) == overwritten(
            guest_bytes(*old(store), *memory),
            cursor as int,
            payload@,
        ),
        result is Err ==> result.unwrap_err() == CallError::PayloadWriteOutOfBounds,
        result is Err ==> guest_bytes(*final(store), *memory) == guest_bytes(
            *old(store),
            *memory,
        ),
{
    let slot = match place(cursor, payload.len()) {
        Some(slot) => slot,
        None => {
            return Err(CallError::PayloadWriteOutOfBounds);
        },
    };
    match write_region(store, memory, cursor as usize, payload.as_slice()) {
        Ok(_) => Ok(slot),
        Err(_) => Err(CallError::PayloadWriteOutOfBounds),
    }
}

/// The lengths of the arguments' encodings, in the arguments' order.
pub open spec fn encoded_lengths(arguments: Seq<Value>) -> Seq<int> {
    Seq::new(arguments.len(), |i: int| arguments[i]@.encoding().len() as int)
}

/// Whether the slots are those of the arguments laid out one behind the other
/// from `base`: each starts where the lengths before it end and is as long as
/// its argument's encoding.
pub open spec fn slots_follow(slots: Seq<ArgumentSlot>, base: int, arguments: Seq<Value>) -> bool {
    &&& slots.len() == arguments.len()
    &&& forall|i: int|
        0 <= i < slots.len() ==> {
            &&& (#[trigger] slots[i]).wf()
            &&& slots[i].address == base + total_length(encoded_lengths(arguments), i)
            &&& slots[i].length == encoded_lengths(arguments)[i]
        }
}

/// The bytes of a memory after the first `count` arguments were written one
/// behind the other from `base`.
pub open spec fn written(bytes: Seq<u8>, base: int, arguments: Seq<Value>, count: int) -> Seq<u8>
    decreases count,
{
    if count <= 0 {
        bytes
    } else {
        overwritten(
            written(bytes, base, arguments, count - 1),
            base + total_length(encoded_lengths(arguments), count - 1),
            arguments[count - 1]@.encoding(),
        )
    }
}

/// Whether all the arguments, laid out from `base`, lie within a region of
/// `region` bytes and within the addresses that the entry point can be told.
/// No argument at all always fits.
pub open spec fn arguments_fit(base: int, arguments: Seq<Value>, region: int) -> bool {
    arguments.len() > 0 ==> 0 <= base && base + total_length(
        encoded_lengths(arguments),
        arguments.len() as int,
    ) <= region && base + total_length(encoded_lengths(arguments), arguments.len() as int)
        <= i32::MAX
}

/// The sum of the first lengths grows with their number.
pub proof fn lemma_total_length_grows(arguments: Seq<Value>, fewer: int, more: int)
    requires
        0 <= fewer <= more <= arguments.len(),
    ensures
        total_length(encoded_lengths(arguments), fewer) <= total_length(
            encoded_lengths(arguments),
            more,
        ),
    decreases more - fewer,
{
    if fewer < more {
        lemma_total_length_grows(arguments, fewer, more - 1);
    }
}

/// Encodes each argument in turn and writes it behind the one before, from
/// `base` on, and returns the arguments' slots in their order.
///
/// It succeeds exactly where all the arguments fit the memory, and else fails
/// with `PayloadWriteOutOfBounds` at the first argument that does not fit;
/// the arguments before that one are written by then. The memory's size stays.
pub fn write_arguments(
    store: &mut Store<()>,
    memory: &Memory,
    base: i32,
    arguments: &Vec<Value>,
) -> (result: Result<Vec<ArgumentSlot>, CallError>)
    requires
        memory_home(*memory) == store_identity(*old(store)),
    ensures
        same_linkage(*old(store), *final(store)),
        guest_bytes(*final(store), *memory).len() == guest_bytes(*old(store), *memory).len(),
        result is Ok <==> arguments_fit(
            base as int,
            arguments@,
            guest_bytes(*old(store), *memory).len() as int,
        ),
        result is Ok ==> slots_follow(result.unwrap()@, base as int, arguments@),
        result is Ok ==> guest_bytes(*final(store), *memory) == written(
            guest_bytes(*old(store), *memory),
            base as int,
            arguments@,
            arguments@.len() as int,
        ),
        result is Err ==> result.unwrap_err() == CallError::PayloadWriteOutOfBounds,
        result is Err ==> exists|count: int|
            0 <= count < arguments@.len() && guest_bytes(*final(store), *memory) == #[trigger] written(
                guest_bytes(*old(store), *memory),
                base as int,
                arguments@,
                count,
            ),
{
    let mut slots: Vec<ArgumentSlot> = Vec::new();
    let mut cursor: i32 = base;
    let mut i: usize = 0;
    while i < arguments.len()
        invariant
            0 <= i <= arguments@.len(),
            memory_home(*memory) == store_identity(*store),
            same_linkage(*old(store), *store),
            guest_bytes(*store, *memory).len() == guest_bytes(*old(store), *memory).len(),
            cursor == base + total_length(encoded_lengths(arguments@), i as int),
            i > 0 ==> 0 <= base && cursor <= guest_bytes(*old(store), *memory).len(),
            slots@.len() == i,
            forall|j: int|
                0 <= j < i ==> {
                    &&& (#[trigger] slots@[j]).wf()
                    &&& slots@[j].address == base + total_length(encoded_lengths(arguments@), j)
                    &&& slots@[j].length == encoded_lengths(arguments@)[j]
                },
            guest_bytes(*store, *memory) == written(
                guest_bytes(*old(store), *memory),
                base as int,
                arguments@,
                i as int,
            ),
        decreases arguments@.len() - i,
    {
        let payload = match encode_argument(&arguments[i], i) {
            Ok(payload) => payload,
            Err(e) => {
                return Err(e);
            },
        };
        let slot = match write_slot(store, memory, cursor, &payload) {
            Ok(slot) => slot,
            Err(e) => {
                proof {
                    lemma_total_length_grows(arguments@, i as int + 1, arguments@.len() as int);
                    lemma_total_length_grows(arguments@, 0, i as int);
                }
                return Err(e);
            },
        };
        proof {
            lemma_total_length_grows(arguments@, 0, i as int);
        }
        cursor = slot.end();
        slots.push(slot);
        i += 1;
    }
    Ok(slots)
}

/// Calls the entry point of the operation `name` with the slots' addresses
/// and lengths, and returns the address that it gave, where it was to give
/// one.
pub fn invoke_shim(
    store: &mut Store<()>,
    instance: &Instance,
    name: &str,
    slots: &Vec<ArgumentSlot>,
    has_result: bool,
) -> (result: Result<Option<i32>, CallError>)
    requires
        instance_home(*instance) == store_identity(*old(store)),
    ensures
        same_linkage(*old(store), *final(store)),
        !exports_function(*old(store), *instance, spec_shim_name(name@)) <==> result == Err::<
            Option<i32>,
            CallError,
        >(CallError::ShimFunctionMissing),
        exports_function(*old(store), *instance, spec_shim_name(name@)) && !entry_fits(
            *old(store),
            *instance,
            spec_shim_name(name@),
            slots@.len() as int,
            has_result,
        ) <==> result == Err::<Option<i32>, CallError>(CallError::SignatureMismatch),
        result == Err::<Option<i32>, CallError>(CallError::ShimFunctionMissing) || result
            == Err::<Option<i32>, CallError>(CallError::SignatureMismatch) ==> same_memories(
            *old(store),
            *final(store),
        ),
        result is Ok ==> (result.unwrap() is Some <==> has_result),
        result is Err ==> result.unwrap_err() == CallError::ShimFunctionMissing
            || result.unwrap_err() == CallError::SignatureMismatch || result.unwrap_err()
            == CallError::CallTrap,
{
    let export = shim_name(name);
    let parameters = shim_parameters(slots);
    call_export(
        store,
        instance,
        export.as_str(),
        &parameters,
        has_result,
        CallError::ShimFunctionMissing,
    )
}

/// Whether the payload that a locator names lies within a region of `region`
/// bytes.
pub open spec fn payload_within(address: int, size: int, region: int) -> bool {
    0 <= address && address + size <= region
}

/// What the result step gives on a memory that holds `bytes`, for the address
/// `at` that the entry point returned and the declared shape: the locator is
/// the eight bytes at `at`, the payload the bytes that it names, and the value
/// the payload decoded.
pub open spec fn located(bytes: Seq<u8>, at: int, shape: Shape) -> Result<ValueView, CallError> {
    if !(0 <= at && at + 8 <= bytes.len()) {
        Err(CallError::LocatorDecodeFailure)
    } else {
        let locator = decoded_locator(bytes.subrange(at, at + 8));
        if !payload_within(locator.0, locator.1, bytes.len() as int) {
            Err(CallError::PayloadReadOutOfBounds)
        } else {
            let payload = bytes.subrange(locator.0, locator.0 + locator.1);
            if decodable(shape, payload) {
                Ok(decoded(shape, payload))
            } else {
                Err(CallError::ResultDecodeFailure)
            }
        }
    }
}

/// Tells whether the payload that the locator names lies within a region of
/// `region` bytes.
pub fn locator_within(locator: &OutputLocator, region: usize) -> (result: bool)
    ensures
        result == payload_within(locator.address as int, locator.size as int, region as int),
{
    if locator.address < 0 {
        return false;
    }
    let start: u64 = locator.address as u64;
    let size: u64 = locator.size as u64;
    start + size <= region as u64
}

/// Reads the locator at the address that the entry point returned, then the
/// payload that it names, and decodes the payload to the declared shape. No
/// byte outside the memory is read.
pub fn read_result(store: &Store<()>, memory: &Memory, at: i32, shape: Shape) -> (result: Result<
    Value,
    CallError,
>)
    requires
        memory_home(*memory) == store_identity(*store),
    ensures
        match result {
            Ok(value) => located(guest_bytes(*store, *memory), at as int, shape) == Ok::<
                ValueView,
                CallError,
            >(value@),
            Err(e) => located(guest_bytes(*store, *memory), at as int, shape) == Err::<
                ValueView,
                CallError,
            >(e),
        },
{
    if at < 0 {
        return Err(CallError::LocatorDecodeFailure);
    }
    let window = match read_region(store, memory, at as usize, LOCATOR_WIDTH) {
        Ok(window) => window,
        Err(_) => {
            return Err(CallError::LocatorDecodeFailure);
        },
    };
    let locator = match decode_locator(window.as_slice()) {
        Ok(locator) => locator,
        Err(e) => {
            return Err(e);
        },
    };
    if !locator_within(&locator, region_size(store, memory)) {
        return Err(CallError::PayloadReadOutOfBounds);
    }
    let payload = match read_region(
        store,
        memory,
        locator.address as usize,
        locator.size as usize,
    ) {
        Ok(payload) => payload,
        Err(_) => {
            return Err(CallError::PayloadReadOutOfBounds);
        },
    };
    decode_result(shape, payload.as_slice())
}

/// The first position at which the values are not what the shapes declare:
/// a value of another shape, or the end of one list before the other's.
pub open spec fn first_mismatch(shapes: Seq<Shape>, values: Seq<Value>, from: int) -> Option<int>
    decreases shapes.len() - from,
{
    if from >= shapes.len() || from >= values.len() {
        if shapes.len() == values.len() {
            None
        } else {
            Some(from)
        }
    } else if values[from]@.shape() != shapes[from] {
        Some(from)
    } else {
        first_mismatch(shapes, values, from + 1)
    }
}

impl Operation {
    /// Whether the operation's entry point returns the address of a locator.
    pub fn has_result(&self) -> (result: bool)
        ensures
            result == (self.result is Some),
    {
        match self.result {
            Some(_) => true,
            None => false,
        }
    }

    /// Holds the values against the declared argument shapes and returns the
    /// first position at which they differ, if there is one.
    pub fn mismatch(&self, values: &Vec<Value>) -> (result: Option<usize>)
        ensures
            match result {
                Some(index) => first_mismatch(self.arguments@, values@, 0) == Some(index as int),
                None => first_mismatch(self.arguments@, values@, 0) is None,
            },
            result is Some ==> result.unwrap() <= values@.len(),
    {
        let mut i: usize = 0;
        while i < self.arguments.len() && i < values.len()
            invariant
                0 <= i <= self.arguments@.len(),
                i <= values@.len(),
                first_mismatch(self.arguments@, values@, 0) == first_mismatch(
                    self.arguments@,
                    values@,
                    i as int,
                ),
            decreases self.arguments@.len() - i,
        {
            if values[i].shape() != self.arguments[i] {
                return Some(i);
            }
            i += 1;
        }
        if self.arguments.len() == values.len() {
            None
        } else {
            Some(i)
        }
    }
}

/// Whether a failure belongs to the steps that read a result back.
pub open spec fn from_result_step(e: CallError) -> bool {
    e is LocatorDecodeFailure || e is PayloadReadOutOfBounds || e is ResultDecodeFailure
}

/// What the last step gives on a memory that holds `bytes`, for what the
/// entry point returned: nothing where no result is declared, and else what
/// is located at the returned address.
pub open spec fn concluded(bytes: Seq<u8>, returned: Option<i32>, declared: Option<Shape>) -> Result<
    Option<ValueView>,
    CallError,
> {
    match (returned, declared) {
        (Some(at), Some(shape)) => match located(bytes, at as int, shape) {
            Ok(value) => Ok(Some(value)),
            Err(e) => Err(e),
        },
        _ => Ok(None),
    }
}

/// A call's result with the value, where there is one, as what it stands
/// for.
pub open spec fn result_view(result: Result<Option<Value>, CallError>) -> Result<
    Option<ValueView>,
    CallError,
> {
    match result {
        Ok(Some(value)) => Ok(Some(value@)),
        Ok(None) => Ok(None),
        Err(e) => Err(e),
    }
}

/// Reads the result back after the entry point has returned: nothing for an
/// operation without a declared result, and else the value that the locator
/// at the returned address names.
pub fn conclude(
    store: &Store<()>,
    memory: &Memory,
    returned: Option<i32>,
    declared: Option<Shape>,
) -> (result: Result<Option<Value>, CallError>)
    requires
        memory_home(*memory) == store_identity(*store),
    ensures
        result_view(result) == concluded(guest_bytes(*store, *memory), returned, declared),
{
    match (returned, declared) {
        (Some(at), Some(shape)) => match read_result(store, memory, at, shape) {
            Ok(value) => Ok(Some(value)),
            Err(e) => Err(e),
        },
        _ => Ok(None),
    }
}

/// What the steps behind the negotiation owe, from the store `before` them to
/// the store `after` them, for the memory and the base address that the
/// first two steps gave.
///
/// Values that are not of the declared shapes fail at the first position
/// that differs, before anything is written. Arguments that do not fit the
/// memory from `base` on fail with `PayloadWriteOutOfBounds`. A guest without
/// the entry point fails with `ShimFunctionMissing`, and one whose entry point
/// has another signature with `SignatureMismatch`; by then the memory holds
/// all the arguments and is otherwise as it was. A value comes back exactly
/// for a declared result; it and every failure of the result step are what
/// `concluded` gives on the memory as the guest left it, for the address that
/// the entry point returned.
pub open spec fn completed(
    before: Store<()>,
    after: Store<()>,
    instance: Instance,
    memory: Memory,
    base: int,
    name: Seq<char>,
    shapes: Seq<Shape>,
    declared: Option<Shape>,
    arguments: Seq<Value>,
    result: Result<Option<Value>, CallError>,
) -> bool {
    let mismatch = first_mismatch(shapes, arguments, 0);
    let fit = arguments_fit(base, arguments, guest_bytes(before, memory).len() as int);
    let shim = spec_shim_name(name);
    let exported = exports_function(before, instance, shim);
    let fitting = entry_fits(before, instance, shim, arguments.len() as int, declared is Some);
    &&& same_linkage(before, after)
    &&& match mismatch {
        Some(index) => result == Err::<Option<Value>, CallError>(
            CallError::SerializationFailure(index as usize),
        ) && same_memories(before, after),
        None => !(result matches Err(CallError::SerializationFailure(_))),
    }
    &&& (mismatch is None && !fit <==> result == Err::<Option<Value>, CallError>(
        CallError::PayloadWriteOutOfBounds,
    ))
    &&& (mismatch is None && fit && !exported <==> result == Err::<Option<Value>, CallError>(
        CallError::ShimFunctionMissing,
    ))
    &&& (mismatch is None && fit && exported && !fitting <==> result == Err::<
        Option<Value>,
        CallError,
    >(CallError::SignatureMismatch))
    &&& (result == Err::<Option<Value>, CallError>(CallError::ShimFunctionMissing) || result
        == Err::<Option<Value>, CallError>(CallError::SignatureMismatch) ==> guest_bytes(
        after,
        memory,
    ) == written(guest_bytes(before, memory), base, arguments, arguments.len() as int))
    &&& (result matches Ok(value) ==> (value is Some <==> declared is Some))
    &&& (result is Ok || (result matches Err(e) && from_result_step(e)) ==> exists|
        returned: Option<i32>,
    |
        (returned is Some <==> declared is Some) && #[trigger] concluded(
            guest_bytes(after, memory),
            returned,
            declared,
        ) == result_view(result))
    &&& (result matches Err(e) ==> (declared is None ==> !from_result_step(e)))
    &&& (result matches Err(e) ==> !(e is MemoryNotFound) && !(e is BufferFunctionMissing))
}

/// Carries out the steps of a call that follow the negotiation: holds the
/// values against the declared shapes, writes the arguments from `base` on
/// into `memory`, calls the entry point and, where the operation declares a
/// result, reads it back.
pub fn complete_call(
    store: &mut Store<()>,
    instance: &Instance,
    memory: &Memory,
    base: i32,
    operation: &Operation,
    arguments: &Vec<Value>,
) -> (result: Result<Option<Value>, CallError>)
    requires
        instance_home(*instance) == store_identity(*old(store)),
        memory_home(*memory) == store_identity(*old(store)),
    ensures
        completed(
            *old(store),
            *final(store),
            *instance,
            *memory,
            base as int,
            operation.name@,
            operation.arguments@,
            operation.result,
            arguments@,
            result,
        ),
{
    match operation.mismatch(arguments) {
        Some(index) => {
            return Err(CallError::SerializationFailure(index));
        },
        None => {},
    }
    let slots = match write_arguments(store, memory, base, arguments) {
        Ok(slots) => slots,
        Err(e) => {
            return Err(e);
        },
    };
    let returned = match invoke_shim(
        store,
        instance,
        operation.name.as_str(),
        &slots,
        operation.has_result(),
    ) {
        Ok(returned) => returned,
        Err(e) => {
            return Err(e);
        },
    };
    let result = conclude(store, memory, returned, operation.result);
    proof {
        assert(concluded(guest_bytes(*store, *memory), returned, operation.result) == result_view(
            result,
        ));
    }
    result
}

/// What a whole call owes, from the store `before` it to the store `after`
/// it.
///
/// A guest without the memory fails with `MemoryNotFound`, one with the
/// memory but without the buffer export with `BufferFunctionMissing`, and no
/// other guest does; in both cases every memory is as it was. A buffer export
/// of another signature fails with `SignatureMismatch`. Where the negotiation
/// gave an address, the result is that of the steps behind it, on the
/// exported memory and from that address.
pub open spec fn called(
    before: Store<()>,
    after: Store<()>,
    instance: Instance,
    name: Seq<char>,
    shapes: Seq<Shape>,
    declared: Option<Shape>,
    arguments: Seq<Value>,
    result: Result<Option<Value>, CallError>,
) -> bool {
    let has_memory = exports_memory(before, instance, "memory"@);
    let has_buffer = exports_function(before, instance, spec_buffer_export());
    &&& same_linkage(before, after)
    &&& (!has_memory <==> result == Err::<Option<Value>, CallError>(CallError::MemoryNotFound))
    &&& (has_memory && !has_buffer <==> result == Err::<Option<Value>, CallError>(
        CallError::BufferFunctionMissing,
    ))
    &&& (!has_memory || !has_buffer ==> same_memories(before, after))
    &&& (has_memory && has_buffer && !entry_fits(before, instance, spec_buffer_export(), 0, true)
        ==> result == Err::<Option<Value>, CallError>(CallError::SignatureMismatch)
        && same_memories(before, after))
    &&& (has_memory && has_buffer && entry_fits(before, instance, spec_buffer_export(), 0, true)
        ==> result == Err::<Option<Value>, CallError>(CallError::CallTrap) || exists|
        negotiated: Store<()>,
        memory: Memory,
        base: i32,
    |
        same_linkage(before, negotiated) && #[trigger] completed(
            negotiated,
            after,
            instance,
            memory,
            base as int,
            name,
            shapes,
            declared,
            arguments,
            result,
        ))
}

/// Carries out one call of `operation` on the guest: finds the memory, asks
/// for the input buffer, and carries out the rest as `complete_call` does on
/// that memory and from that address. The store must be the one in which the
/// instance was made.
pub fn call_operation(
    store: &mut Store<()>,
    instance: &Instance,
    operation: &Operation,
    arguments: &Vec<Value>,
) -> (result: Result<Option<Value>, CallError>)
    requires
        instance_home(*instance) == store_identity(*old(store)),
    ensures
        called(
            *old(store),
            *final(store),
            *instance,
            operation.name@,
            operation.arguments@,
            operation.result,
            arguments@,
            result,
        ),
        result matches Ok(value) ==> (value is Some <==> operation.result is Some),
        result matches Ok(Some(value)) ==> value@.shape() == operation.result.unwrap(),
        result matches Err(e) ==> (operation.result is None ==> !from_result_step(e)),
{
    let memory = match resolve_memory(store, instance) {
        Ok(memory) => memory,
        Err(e) => {
            return Err(e);
        },
    };
    let base = match negotiate(store, instance) {
        Ok(base) => base,
        Err(e) => {
            return Err(e);
        },
    };
    let ghost negotiated = *store;
    let result = complete_call(store, instance, &memory, base, operation, arguments);
    proof {
        assert(completed(
            negotiated,
            *store,
            *instance,
            memory,
            base as int,
            operation.name@,
            operation.arguments@,
            operation.result,
            arguments@,
            result,
        ));
    }
    result
}

/// As many shapes of encoded values as there are payloads.
pub open spec fn raw_shapes(count: nat) -> Seq<Shape> {
    Seq::new(count, |i: int| Shape::Raw)
}

/// The declared result of a call on encoded values.
pub open spec fn raw_result(has_result: bool) -> Option<Shape> {
    if has_result {
        Some(Shape::Raw)
    } else {
        None
    }
}

/// Whether the arguments are the payloads, each as an encoded value.
pub open spec fn wraps(arguments: Seq<Value>, payloads: Seq<Vec<u8>>) -> bool {
    &&& arguments.len() == payloads.len()
    &&& forall|i: int|
        0 <= i < arguments.len() ==> (#[trigger] arguments[i])@ == ValueView::Raw(payloads[i]@)
}

/// The result of a call on encoded values as a result on values.
pub open spec fn lifted(result: Result<Option<Vec<u8>>, CallError>) -> Result<
    Option<Value>,
    CallError,
> {
    match result {
        Ok(Some(payload)) => Ok(Some(Value::Raw(payload))),
        Ok(None) => Ok(None),
        Err(e) => Err(e),
    }
}

/// Carries out one call of the operation `name` on arguments that the caller
/// has encoded, and returns the result's payload as the guest wrote it: the
/// call that `call_operation` makes on these payloads as encoded values.
pub fn call_encoded(
    store: &mut Store<()>,
    instance: &Instance,
    name: &str,
    payloads: &Vec<Vec<u8>>,
    has_result: bool,
) -> (result: Result<Option<Vec<u8>>, CallError>)
    requires
        instance_home(*instance) == store_identity(*old(store)),
    ensures
        exists|arguments: Seq<Value>|
            wraps(arguments, payloads@) && #[trigger] called(
                *old(store),
                *final(store),
                *instance,
                name@,
                raw_shapes(payloads@.len()),
                raw_result(has_result),
                arguments,
                lifted(result),
            ),
        result matches Ok(payload) ==> (payload is Some <==> has_result),
{
    let mut shapes: Vec<Shape> = Vec::new();
    let mut values: Vec<Value> = Vec::new();
    let mut i: usize = 0;
    while i < payloads.len()
        invariant
            0 <= i <= payloads@.len(),
            shapes@ =~= raw_shapes(i as nat),
            values@.len() == i,
            forall|j: int| 0 <= j < i ==> (#[trigger] values@[j])@ == ValueView::Raw(payloads@[j]@),
        decreases payloads@.len() - i,
    {
        shapes.push(Shape::Raw);
        values.push(Value::Raw(slice_to_vec(payloads[i].as_slice())));
        i += 1;
    }
    let declared = if has_result {
        Some(Shape::Raw)
    } else {
        None
    };
    let operation = Operation { name: name.to_owned(), arguments: shapes, result: declared };
    let outcome = call_operation(store, instance, &operation, &values);
    let result = match outcome {
        Ok(Some(Value::Raw(payload))) => Ok(Some(payload)),
        Ok(Some(_)) => Err(CallError::ResultDecodeFailure),
        Ok(None) => Ok(None),
        Err(e) => Err(e),
    };
    proof {
        assert(lifted(result) == outcome);
        assert(wraps(values@, payloads@));
    }
    result
}

/// A guest together with the store that it lives in. Calls on it are made
/// one at a time, each with a buffer of its own.
pub struct Guest {
    store: Store<()>,
    instance: Instance,
}

impl Guest {
    /// The instance lives in the store that is kept with it.
    pub closed spec fn wf(&self) -> bool {
        instance_home(self.instance) == store_identity(self.store)
    }

    /// Makes an instance of a module that imports nothing, in the store
    /// given. Where the runtime refuses, there is no guest.
    pub fn instantiate(store: Store<()>, module: &Module) -> (result: Option<Guest>)
        ensures
            result is Some ==> result.unwrap().wf(),
            result is Some ==> result.unwrap().home() == store_identity(store),
    {
        let mut store = store;
        let made = instantiate(&mut store, module);
        Guest::adopt(store, made)
    }

    /// The identity of the store that the guest lives in.
    pub closed spec fn home(&self) -> int {
        store_identity(self.store)
    }

    /// Whether the guest is made of this store and this instance.
    pub closed spec fn holds(&self, store: Store<()>, instance: Instance) -> bool {
        self.store == store && self.instance == instance
    }

    /// Makes a guest of a store and of what the runtime answered when it was
    /// asked for an instance in that store: the guest of the store and the
    /// instance where the runtime made one, and no guest where it refused.
    pub fn adopt(store: Store<()>, made: Result<Instance, wasmtime::Error>) -> (result: Option<
        Guest,
    >)
        requires
            made matches Ok(instance) ==> instance_home(instance) == store_identity(store),
        ensures
            result is Some <==> made is Ok,
            result is Some ==> result.unwrap().wf(),
            result is Some ==> result.unwrap().home() == store_identity(store),
            result matches Some(guest) ==> (made matches Ok(instance) && guest.holds(
                store,
                instance,
            )),
    {
        match made {
            Ok(instance) => Some(Guest { store, instance }),
            Err(_) => None,
        }
    }

    /// The store that the guest lives in.
    pub closed spec fn spec_store(&self) -> Store<()> {
        self.store
    }

    /// The guest's instance.
    pub closed spec fn spec_instance(&self) -> Instance {
        self.instance
    }

    /// Carries out one call of `operation` on this guest, as
    /// `call_operation` does on its store and instance.
    pub fn call(&mut self, operation: &Operation, arguments: &Vec<Value>) -> (result: Result<
        Option<Value>,
        CallError,
    >)
        requires
            old(self).wf(),
        ensures
            final(self).wf(),
            final(self).spec_instance() == old(self).spec_instance(),
            called(
                old(self).spec_store(),
                final(self).spec_store(),
                old(self).spec_instance(),
                operation.name@,
                operation.arguments@,
                operation.result,
                arguments@,
                result,
            ),
            result matches Ok(value) ==> (value is Some <==> operation.result is Some),
            result matches Ok(Some(value)) ==> value@.shape() == operation.result.unwrap(),
            result matches Err(e) ==> (operation.result is None ==> !from_result_step(e)),
    {
        call_operation(&mut self.store, &self.instance, operation, arguments)
    }

    /// Carries out one call on arguments that the caller has encoded, as
    /// `call_encoded` does on the guest's store and instance.
    pub fn call_encoded(&mut self, name: &str, payloads: &Vec<Vec<u8>>, has_result: bool) -> (result:
        Result<Option<Vec<u8>>, CallError>)
        requires
            old(self).wf(),
        ensures
            final(self).wf(),
            final(self).spec_instance() == old(self).spec_instance(),
            exists|arguments: Seq<Value>|
                wraps(arguments, payloads@) && #[trigger] called(
                    old(self).spec_store(),
                    final(self).spec_store(),
                    old(self).spec_instance(),
                    name@,
                    raw_shapes(payloads@.len()),
                    raw_result(has_result),
                    arguments,
                    lifted(result),
                ),
            result matches Ok(payload) ==> (payload is Some <==> has_result),
    {
        let ghost before = self.store;
        let result = call_encoded(&mut self.store, &self.instance, name, payloads, has_result);
        proof {
            let arguments = choose|arguments: Seq<Value>|
                wraps(arguments, payloads@) && #[trigger] called(
                    before,
                    self.store,
                    self.instance,
                    name@,
                    raw_shapes(payloads@.len()),
                    raw_result(has_result),
                    arguments,
                    lifted(result),
                );
            assert(called(
                old(self).spec_store(),
                self.spec_store(),
                old(self).spec_instance(),
                name@,
                raw_shapes(payloads@.len()),
                raw_result(has_result),
                arguments,
                lifted(result),
            ));
        }
        result
    }
}

/// Copying `data` over `bytes` keeps the length, puts `data` at its place and
/// leaves every other byte as it was.
pub proof fn lemma_overwritten(bytes: Seq<u8>, at: int, data: Seq<u8>)
    requires
        0 <= at,
        at + data.len() <= bytes.len(),
    ensures
        overwritten(bytes, at, data).len() == bytes.len(),
        overwritten(bytes, at, data).subrange(at, at + data.len()) == data,
        forall|i: int|
            0 <= i < bytes.len() && !(at <= i < at + data.len()) ==> #[trigger] overwritten(
                bytes,
                at,
                data,
            )[i] == bytes[i],
{
    assert(overwritten(bytes, at, data).subrange(at, at + data.len()) =~= data);
}

/// Once the arguments are written, the memory is as long as before, each
/// argument's slot holds that argument's encoding, and no byte outside the
/// range from `base` to the end of the last slot has changed.
pub proof fn lemma_written_arguments(
    bytes: Seq<u8>,
    base: int,
    arguments: Seq<Value>,
    count: int,
    index: int,
)
    requires
        0 <= index < count <= arguments.len(),
        0 <= base,
        base + total_length(encoded_lengths(arguments), count) <= bytes.len(),
    ensures
        written(bytes, base, arguments, count).len() == bytes.len(),
        written(bytes, base, arguments, count).subrange(
            base + total_length(encoded_lengths(arguments), index),
            base + total_length(encoded_lengths(arguments), index + 1),
        ) == arguments[index]@.encoding(),
        forall|i: int|
            0 <= i < bytes.len() && !(base <= i < base + total_length(
                encoded_lengths(arguments),
                count,
            )) ==> #[trigger] written(bytes, base, arguments, count)[i] == bytes[i],
    decreases count,
{
    let lengths = encoded_lengths(arguments);
    let before = written(bytes, base, arguments, count - 1);
    let at = base + total_length(lengths, count - 1);
    let data = arguments[count - 1]@.encoding();
    lemma_total_length_grows(arguments, 0, count - 1);
    lemma_total_length_grows(arguments, count - 1, count);
    lemma_written_length(bytes, base, arguments, count - 1);
    lemma_overwritten(before, at, data);
    if count > 1 {
        lemma_written_arguments(bytes, base, arguments, count - 1, if index < count - 1 {
            index
        } else {
            0
        });
    }
    if index < count - 1 {
        lemma_total_length_grows(arguments, index + 1, count - 1);
        lemma_total_length_grows(arguments, 0, index);
        let from = base + total_length(lengths, index);
        let to = base + total_length(lengths, index + 1);
        assert(written(bytes, base, arguments, count).subrange(from, to) =~= before.subrange(
            from,
            to,
        ));
    }
}

/// Writing arguments that fit keeps the memory's length.
pub proof fn lemma_written_length(bytes: Seq<u8>, base: int, arguments: Seq<Value>, count: int)
    requires
        0 <= count <= arguments.len(),
        0 <= base,
        base + total_length(encoded_lengths(arguments), count) <= bytes.len(),
    ensures
        written(bytes, base, arguments, count).len() == bytes.len(),
    decreases count,
{
    if count > 0 {
        lemma_total_length_grows(arguments, count - 1, count);
        lemma_written_length(bytes, base, arguments, count - 1);
        lemma_total_length_grows(arguments, 0, count - 1);
        lemma_overwritten(
            written(bytes, base, arguments, count - 1),
            base + total_length(encoded_lengths(arguments), count - 1),
            arguments[count - 1]@.encoding(),
        );
    }
}

/// An argument that encodes to no bytes still has its slot, of length zero,
/// and the argument behind it starts at the same address.
pub proof fn lemma_empty_argument_keeps_place(
    slots: Seq<ArgumentSlot>,
    base: int,
    arguments: Seq<Value>,
    index: int,
)
    requires
        slots_follow(slots, base, arguments),
        0 <= index < arguments.len(),
        arguments[index]@.encoding().len() == 0,
    ensures
        slots[index].wf(),
        slots[index].length == 0,
        index + 1 < arguments.len() ==> slots[index + 1].address == slots[index].address,
{
    assert(total_length(encoded_lengths(arguments), index + 1) == total_length(
        encoded_lengths(arguments),
        index,
    ) + encoded_lengths(arguments)[index]);
}

/// Every slot starts where the slot before it ends, and the first at `base`.
pub proof fn lemma_slots_are_contiguous(
    slots: Seq<ArgumentSlot>,
    base: int,
    arguments: Seq<Value>,
    index: int,
)
    requires
        slots_follow(slots, base, arguments),
        0 <= index < arguments.len(),
    ensures
        index == 0 ==> slots[index].address == base,
        index > 0 ==> slots[index].address == slots[index - 1].spec_end(),
{
    if index > 0 {
        assert(total_length(encoded_lengths(arguments), index) == total_length(
            encoded_lengths(arguments),
            index - 1,
        ) + encoded_lengths(arguments)[index - 1]);
    }
}

/// What the guest left is what the host reads: where the memory holds a
/// locator's encoding at `at`, and the encoding of a value in the range that
/// the locator names, the result step gives that value.
pub proof fn lemma_located_reads_back(
    bytes: Seq<u8>,
    at: int,
    address: i32,
    size: u32,
    value: ValueView,
)
    requires
        0 <= at,
        at + 8 <= bytes.len(),
        bytes.subrange(at, at + 8) == crate::codec::locator_encoding(address, size),
        payload_within(address as int, size as int, bytes.len() as int),
        bytes.subrange(address as int, address + size) == value.encoding(),
    ensures
        located(bytes, at, value.shape()) == Ok::<ValueView, CallError>(value),
{
    crate::codec::lemma_locator_round_trip(address, size, Seq::empty());
    assert(crate::codec::locator_encoding(address, size) + Seq::<u8>::empty()
        =~= crate::codec::locator_encoding(address, size));
    if let ValueView::Bytes(content) = value {
        vstd::bytes::lemma_auto_spec_u64_to_from_le_bytes();
        assert(value.encoding().len() == 8 + content.len());
    }
    crate::codec::lemma_codec_round_trip(value, Seq::empty());
    assert(value.encoding() + Seq::<u8>::empty() =~= value.encoding());
}

/// The result step returns a value of the declared shape or fails.
pub proof fn lemma_located_has_shape(bytes: Seq<u8>, at: int, shape: Shape)
    ensures
        located(bytes, at, shape) matches Ok(value) ==> value.shape() == shape,
        located(bytes, at, shape) matches Err(e) ==> from_result_step(e),
{
}

} // verus!
