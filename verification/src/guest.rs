use vstd::prelude::*;
use wasmtime::Func;
use wasmtime::Instance;
use wasmtime::Memory;
use wasmtime::MemoryAccessError;
use wasmtime::Module;
use wasmtime::Store;
use wasmtime::Val;

verus! {

/// The runtime's store: it owns the guest's instances, memories and functions.
#[verifier::external_type_specification]
#[verifier::external_body]
#[verifier::reject_recursive_types(T)]
pub struct ExStore<T: 'static>(wasmtime::Store<T>);

/// A guest module that was instantiated in a store.
#[verifier::external_type_specification]
#[verifier::external_body]
pub struct ExInstance(wasmtime::Instance);

/// A compiled guest module, not yet instantiated.
#[verifier::external_type_specification]
#[verifier::external_body]
pub struct ExModule(wasmtime::Module);

/// A handle on a linear memory of a guest.
#[verifier::external_type_specification]
#[verifier::external_body]
pub struct ExMemory(wasmtime::Memory);

/// A handle on a function of a guest.
#[verifier::external_type_specification]
#[verifier::external_body]
pub struct ExFunc(wasmtime::Func);

/// The runtime's error of a call that did not complete.
#[verifier::external_type_specification]
#[verifier::external_body]
pub struct ExRuntimeError(wasmtime::Error);

/// The runtime's error of an access outside a memory.
#[verifier::external_type_specification]
#[verifier::external_body]
pub struct ExMemoryAccessError(wasmtime::MemoryAccessError);

/// The bytes that the memory holds in the store, from offset zero up to its
/// current size.
pub uninterp spec fn guest_bytes(store: Store<()>, memory: Memory) -> Seq<u8>;

/// The identity that the runtime gave the store when it was made. It never
/// changes.
pub uninterp spec fn store_identity(store: Store<()>) -> int;

/// The identity of the store in which the instance was made.
pub uninterp spec fn instance_home(instance: Instance) -> int;

/// The identity of the store that owns the memory.
pub uninterp spec fn memory_home(memory: Memory) -> int;

/// The identity of the store that owns the function.
pub uninterp spec fn function_home(function: Func) -> int;

/// Whether the instance exports under the name a memory that is not shared
/// between threads.
pub uninterp spec fn exports_memory(store: Store<()>, instance: Instance, name: Seq<char>) -> bool;

/// The function that the instance exports under the name, if it exports one.
pub uninterp spec fn exported_function(store: Store<()>, instance: Instance, name: Seq<char>) -> Option<Func>;

/// Of each parameter of the function, whether it is a 32-bit integer. A
/// function's type is fixed.
pub uninterp spec fn parameter_flags(function: Func) -> Seq<bool>;

/// Of each result of the function, whether it is a 32-bit integer.
pub uninterp spec fn result_flags(function: Func) -> Seq<bool>;

/// Whether the instance exports a function under the name.
pub open spec fn exports_function(store: Store<()>, instance: Instance, name: Seq<char>) -> bool {
    exported_function(store, instance, name) is Some
}

/// Every memory holds after what it held before.
pub open spec fn same_memories(before: Store<()>, after: Store<()>) -> bool {
    forall|memory: Memory| #[trigger]
        guest_bytes(after, memory) == guest_bytes(before, memory)
}

/// What no call changes in a store: its identity, and what its instances
/// export, which is fixed when an instance is made.
pub open spec fn same_linkage(before: Store<()>, after: Store<()>) -> bool {
    &&& store_identity(after) == store_identity(before)
    &&& forall|instance: Instance, name: Seq<char>|
        #![trigger exports_memory(after, instance, name)]
        #![trigger exported_function(after, instance, name)]
        exports_memory(after, instance, name) == exports_memory(before, instance, name)
            && exported_function(after, instance, name) == exported_function(
            before,
            instance,
            name,
        )
}

/// `bytes` with `data` copied over it from offset `at` on.
pub open spec fn overwritten(bytes: Seq<u8>, at: int, data: Seq<u8>) -> Seq<u8>
    recommends
        0 <= at,
        at + data.len() <= bytes.len(),
{
    bytes.subrange(0, at) + data + bytes.subrange(at + data.len(), bytes.len() as int)
}

/// Calls `Instance::new` without imports. It panics only on imports of
/// another store, and none are given. An instance that it makes lives in the
/// store that it was given.
#[verifier::external_body]
pub(crate) fn instantiate(store: &mut Store<()>, module: &Module) -> (result: Result<
    Instance,
    wasmtime::Error,
>)
    ensures
        store_identity(*final(store)) == store_identity(*old(store)),
        result is Ok ==> instance_home(result.unwrap()) == store_identity(*final(store)),
{
    Instance::new(store, module, &[])
}

/// Calls `Instance::get_memory`, which looks an export up by name and hands
/// it out if it is a memory that is not shared between threads. It panics on
/// an instance of another store. A memory that it finds belongs to the
/// instance's store. The lookup changes no memory.
#[verifier::external_body]
pub(crate) fn find_memory(store: &mut Store<()>, instance: &Instance, name: &str) -> (result:
    Option<Memory>)
    requires
        instance_home(*instance) == store_identity(*old(store)),
    ensures
        same_linkage(*old(store), *final(store)),
        same_memories(*old(store), *final(store)),
        result is Some <==> exports_memory(*old(store), *instance, name@),
        result is Some ==> memory_home(result.unwrap()) == instance_home(*instance),
{
    instance.get_memory(store, name)
}

/// Calls `Instance::get_func`, which looks an export up by name and hands it
/// out if it is a function. It panics on an instance of another store. A
/// function that it finds belongs to the instance's store. The lookup changes
/// no memory.
#[verifier::external_body]
pub(crate) fn find_function(store: &mut Store<()>, instance: &Instance, name: &str) -> (result:
    Option<Func>)
    requires
        instance_home(*instance) == store_identity(*old(store)),
    ensures
        same_linkage(*old(store), *final(store)),
        same_memories(*old(store), *final(store)),
        result == exported_function(*old(store), *instance, name@),
        result is Some ==> function_home(result.unwrap()) == instance_home(*instance),
{
    instance.get_func(store, name)
}

/// Calls `Func::ty` and `FuncType::params`, and tells of each parameter
/// whether it is a 32-bit integer. `Func::ty` panics on a function of another
/// store.
#[verifier::external_body]
pub(crate) fn parameters_are_i32(store: &Store<()>, function: &Func) -> (result: Vec<bool>)
    requires
        function_home(*function) == store_identity(*store),
    ensures
        result@ == parameter_flags(*function),
{
    function.ty(store).params().map(|kind| kind.is_i32()).collect()
}

/// Calls `Func::ty` and `FuncType::results`, and tells of each result whether
/// it is a 32-bit integer. `Func::ty` panics on a function of another store.
#[verifier::external_body]
pub(crate) fn results_are_i32(store: &Store<()>, function: &Func) -> (result: Vec<bool>)
    requires
        function_home(*function) == store_identity(*store),
    ensures
        result@ == result_flags(*function),
{
    function.ty(store).results().map(|kind| kind.is_i32()).collect()
}

/// Calls `Func::call` with the parameters as 32-bit integers and room for
/// `result_count` results. It panics on a function of another store. What the
/// guest does is not known here: only that the call succeeds on no other
/// number of results than the function's own, and that on success each result
/// was written, handed out as a 32-bit integer where the function's type says
/// that it is one.
#[verifier::external_body]
pub(crate) fn call_function(
    store: &mut Store<()>,
    function: &Func,
    parameters: &Vec<i32>,
    result_count: usize,
) -> (result: Result<Vec<Option<i32>>, wasmtime::Error>)
    requires
        function_home(*function) == store_identity(*old(store)),
    ensures
        same_linkage(*old(store), *final(store)),
        result is Ok ==> result.unwrap()@.len() == result_count,
        result is Ok ==> result_flags(*function).len() == result_count,
        result is Ok ==> forall|i: int|
            0 <= i < result_count && result_flags(*function)[i] ==> (
            #[trigger] result.unwrap()@[i]) is Some,
{
    let arguments: Vec<Val> = parameters.iter().map(|p| Val::I32(*p)).collect();
    let mut results: Vec<Val> = vec![Val::I32(0); result_count];
    function.call(store, &arguments, &mut results)?;
    Ok(results.iter().map(|v| v.i32()).collect())
}

/// Calls `Memory::data_size`, the memory's current size in bytes. It panics
/// on a memory of another store.
#[verifier::external_body]
pub(crate) fn region_size(store: &Store<()>, memory: &Memory) -> (result: usize)
    requires
        memory_home(*memory) == store_identity(*store),
    ensures
        result == guest_bytes(*store, *memory).len(),
{
    memory.data_size(store)
}

/// Calls `Memory::write`, which copies the buffer into the memory at the
/// offset where the whole buffer lies within the memory's current size, and
/// else writes nothing and fails. It panics on a memory of another store.
#[verifier::external_body]
pub(crate) fn write_region(store: &mut Store<()>, memory: &Memory, offset: usize, bytes: &[u8]) -> (result:
    Result<(), MemoryAccessError>)
    requires
        memory_home(*memory) == store_identity(*old(store)),
    ensures
        same_linkage(*old(store), *final(store)),
        result is Ok <==> offset + bytes@.len() <= guest_bytes(*old(store), *memory).len(),
        result is Ok ==> guest_bytes(*final(store), *memory) == overwritten(
            guest_bytes(*old(store), *memory),
            offset as int,
            bytes@,
        ),
        result is Err ==> guest_bytes(*final(store), *memory) == guest_bytes(
            *old(store),
            *memory,
        ),
{
    memory.write(store, offset, bytes)
}

/// Calls `Memory::read` on a fresh buffer of `length` bytes. The call copies
/// the memory's bytes from the offset on where the whole range lies within
/// the memory's current size, and else fails. It panics on a memory of
/// another store.
#[verifier::external_body]
pub(crate) fn read_region(store: &Store<()>, memory: &Memory, offset: usize, length: usize) -> (result:
    Result<Vec<u8>, MemoryAccessError>)
    requires
        memory_home(*memory) == store_identity(*store),
    ensures
        result is Ok <==> offset + length <= guest_bytes(*store, *memory).len(),
        result is Ok ==> result.unwrap()@ == guest_bytes(*store, *memory).subrange(
            offset as int,
            offset + length,
        ),
{
    let mut buffer = vec![0u8; length];
    memory.read(store, offset, &mut buffer)?;
    Ok(buffer)
}

} // verus!
