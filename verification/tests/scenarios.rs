//! Scenario tests: the documented behaviours of the allocator on concrete
//! sequences of requests, the error taxonomy, and the smaller value types.

use game_vk::block::MemoryBlock;
use game_vk::device::Device;
use game_vk::enums::{DeviceKind, IndexType, MemoryAllocatorKind, QueueKind};
use game_vk::errors::MemoryPoolError;
use game_vk::flags::{DeviceMemoryType, DeviceMemoryTypeFlags, HeapPropertyFlags, MemoryPropertyFlags};
use game_vk::gpuptr::GpuPtr;
use game_vk::pools::block_pool::BlockPool;
use game_vk::pools::linear::LinearPool;
use game_vk::pools::meta::MetaPool;
use game_vk::structs::{DeviceMemoryHeapInfo, DeviceMemoryProperties, DeviceMemoryTypeInfo, MemoryRequirements, QueueFamilyInfo};
use game_vk::version::ApiVersion;

fn reqs(align: u64, size: usize) -> MemoryRequirements {
    MemoryRequirements { align, size, types: DeviceMemoryTypeFlags::all() }
}

fn small_device() -> Device {
    let heaps = vec![
        DeviceMemoryHeapInfo { size: 4096, props: HeapPropertyFlags::device_local() },
        DeviceMemoryHeapInfo { size: 4096, props: HeapPropertyFlags::empty() },
    ];
    let types = vec![
        DeviceMemoryTypeInfo { heap_index: 0, props: MemoryPropertyFlags::device_local() },
        DeviceMemoryTypeInfo {
            heap_index: 1,
            props: MemoryPropertyFlags::union(
                MemoryPropertyFlags::host_visible(),
                MemoryPropertyFlags::host_coherent(),
            ),
        },
    ];
    Device::new(DeviceMemoryProperties { heaps, types })
}

/// A linear pool of 512 bytes serves 128, 128 and 256 bytes back to back and
/// is then full: even a single further byte is refused.
#[test]
fn linear_pool_fills_to_the_byte() {
    let mut pool = LinearPool::new(small_device(), 512);
    let (_, p) = pool.allocate(&reqs(1, 128), MemoryPropertyFlags::empty()).expect("first region");
    assert_eq!(p.ptr(), 0);
    let (_, p) = pool.allocate(&reqs(1, 128), MemoryPropertyFlags::empty()).expect("second region");
    assert_eq!(p.ptr(), 128);
    let (_, p) = pool.allocate(&reqs(1, 256), MemoryPropertyFlags::empty()).expect("third region");
    assert_eq!(p.ptr(), 256);
    assert_eq!(pool.size(), 512);
    assert_eq!(pool.capacity(), 512);
    match pool.allocate(&reqs(1, 1), MemoryPropertyFlags::empty()) {
        Err(MemoryPoolError::OutOfMemoryError { req_size }) => assert_eq!(req_size, 1),
        other => panic!("expected out-of-memory, got {:?}", other),
    }
    // The failed allocation changed nothing (capacity enforcement).
    assert_eq!(pool.size(), 512);
}

/// Every offset a pool hands out is divisible by the requested alignment.
#[test]
fn offsets_respect_alignment() {
    let mut pool = LinearPool::new(small_device(), 4096);
    for (align, size) in [(1u64, 3usize), (2, 5), (4, 7), (8, 1), (16, 33), (64, 9), (256, 1)] {
        let (_, p) = pool.allocate(&reqs(align, size), MemoryPropertyFlags::empty()).expect("aligned region");
        assert_eq!(p.ptr() % align, 0);
    }
}

/// A block pool over 512 bytes: three regions at 0, 128 and 256; freeing the
/// middle one lets two smaller regions reuse the gap.
#[test]
fn block_pool_reuses_freed_gap() {
    let mut device = small_device();
    let block = MemoryBlock::allocate(&mut device, &reqs(1, 512), MemoryPropertyFlags::empty()).expect("backing block");
    let mut pool = BlockPool::new(block);
    let (_, _) = pool.allocate(&reqs(1, 128), MemoryPropertyFlags::empty()).expect("first region");
    let (_, p2) = pool.allocate(&reqs(1, 128), MemoryPropertyFlags::empty()).expect("second region");
    let (_, p3) = pool.allocate(&reqs(1, 129), MemoryPropertyFlags::empty()).expect("third region");
    assert_eq!(p2.ptr(), 128);
    assert_eq!(p3.ptr(), 256);
    pool.free(p2);
    assert_eq!(pool.size(), 128 + 129);
    let (_, q1) = pool.allocate(&reqs(1, 37), MemoryPropertyFlags::empty()).expect("region in the gap");
    let (_, q2) = pool.allocate(&reqs(4, 60), MemoryPropertyFlags::empty()).expect("second region in the gap");
    assert_eq!(q1.ptr() % 1, 0);
    assert_eq!(q2.ptr() % 4, 0);
}

/// Freeing an allocation restores the pool's used bytes.
#[test]
fn free_round_trips() {
    let mut device = small_device();
    let block = MemoryBlock::allocate(&mut device, &reqs(1, 512), MemoryPropertyFlags::empty()).expect("backing block");
    let mut pool = BlockPool::new(block);
    let (_, p1) = pool.allocate(&reqs(1, 100), MemoryPropertyFlags::empty()).expect("first region");
    let before = pool.size();
    let (_, p2) = pool.allocate(&reqs(1, 50), MemoryPropertyFlags::empty()).expect("second region");
    assert_eq!(pool.size(), before + 50);
    pool.free(p2);
    assert_eq!(pool.size(), before);
    pool.free(p1);
    assert_eq!(pool.size(), 0);
}

/// Requests that only different memory types can satisfy are routed to
/// different types, and each pointer frees back through the collection.
#[test]
fn meta_pool_routes_disjoint_properties_apart() {
    let mut pool = MetaPool::new(small_device(), 1024);
    let (_, host) = pool.allocate(&reqs(1, 64), MemoryPropertyFlags::host_coherent()).expect("host region");
    let (_, local) = pool.allocate(&reqs(1, 64), MemoryPropertyFlags::device_local()).expect("local region");
    assert_ne!(host.type_idx(), local.type_idx());
    assert_eq!(pool.size(), 128);
    pool.free(host);
    pool.free(local);
    assert_eq!(pool.size(), 0);
}

/// A request no memory type supports fails as unsupportable; an oversized
/// request with admissible types fails as out-of-memory.
#[test]
fn oom_and_unsupported_are_distinguished() {
    let mut pool = MetaPool::new(small_device(), 1024);
    match pool.allocate(&reqs(1, 64), MemoryPropertyFlags::protected()) {
        Err(MemoryPoolError::UnsupportedMemoryRequirements { .. }) => {},
        other => panic!("expected unsupported requirements, got {:?}", other),
    }
    match pool.allocate(&reqs(1, 1_000_000), MemoryPropertyFlags::empty()) {
        Err(MemoryPoolError::OutOfMemoryError { req_size }) => assert_eq!(req_size, 1_000_000),
        other => panic!("expected out-of-memory, got {:?}", other),
    }
    // The same taxonomy holds for a lazily-allocated linear pool.
    let mut lpool = LinearPool::new(small_device(), 512);
    match lpool.allocate(&reqs(1, 64), MemoryPropertyFlags::protected()) {
        Err(MemoryPoolError::UnsupportedMemoryRequirements { .. }) => {},
        other => panic!("expected unsupported requirements, got {:?}", other),
    }
}

/// The meta pool falls back over the retry ladder: when the preferred block
/// size no longer fits the heap, a smaller block still serves the request.
#[test]
fn meta_pool_shrinks_new_blocks() {
    // The heap holds 4096 bytes per type; a preferred size of 8192 never
    // fits, but 8192/2 does.
    let mut pool = MetaPool::new(small_device(), 8192);
    let (_, p) = pool.allocate(&reqs(1, 100), MemoryPropertyFlags::empty()).expect("region from a shrunk block");
    assert_eq!(p.ptr(), 0);
    assert_eq!(pool.size(), 100);
}

/// Releasing a linear pool's block returns its bytes to the device, so a
/// request of a different memory type can follow.
#[test]
fn linear_pool_release_changes_type() {
    let mut pool = LinearPool::new(small_device(), 512);
    let (_, _) = pool
        .allocate(
            &MemoryRequirements { align: 1, size: 128, types: DeviceMemoryTypeFlags::from_raw(1) },
            MemoryPropertyFlags::empty(),
        )
        .expect("region on the first type");
    pool.release();
    pool.reset();
    let (_, p) = pool
        .allocate(
            &MemoryRequirements { align: 1, size: 128, types: DeviceMemoryTypeFlags::from_raw(2) },
            MemoryPropertyFlags::empty(),
        )
        .expect("region on the second type");
    assert_eq!(p.ptr(), 0);
}

/// A linear pool ignores individual frees: the space is not reused.
#[test]
fn linear_pool_free_is_a_no_op() {
    let mut pool = LinearPool::new(small_device(), 512);
    let (_, p) = pool.allocate(&reqs(1, 128), MemoryPropertyFlags::empty()).expect("region");
    pool.free(p);
    assert_eq!(pool.size(), 128);
    let (_, q) = pool.allocate(&reqs(1, 128), MemoryPropertyFlags::empty()).expect("second region");
    assert_eq!(q.ptr(), 128);
}

/// The raw device accounting: allocations debit a heap until it is full, and
/// frees credit it again.
#[test]
fn device_accounting() {
    let mut device = small_device();
    let t = DeviceMemoryType::from_raw(0);
    let first = device.allocate_raw(t, 3000).expect("first raw block");
    let second = device.allocate_raw(t, 1000).expect("second raw block");
    assert_ne!(first, second);
    match device.allocate_raw(t, 97) {
        Err(MemoryPoolError::OutOfMemoryError { req_size }) => assert_eq!(req_size, 97),
        other => panic!("expected out-of-memory, got {:?}", other),
    }
    device.free_raw(t, 1000);
    device.allocate_raw(t, 1000).expect("raw block after a free");
}

/// The memory type and property bitsets behave as sets.
#[test]
fn flag_sets() {
    let hv = MemoryPropertyFlags::host_visible();
    let hc = MemoryPropertyFlags::host_coherent();
    let both = MemoryPropertyFlags::union(hv, hc);
    assert!(both.check(hv));
    assert!(both.check(hc));
    assert!(!hv.check(both));
    assert!(MemoryPropertyFlags::all().check(both));
    assert!(both.check(MemoryPropertyFlags::empty()));
    assert!(!MemoryPropertyFlags::empty().check(hv));
    assert!(MemoryPropertyFlags::empty().is_empty());
    assert_eq!(both.as_raw(), 0x0006);

    let types = DeviceMemoryTypeFlags::from_raw(0b101);
    assert!(types.has_type(DeviceMemoryType::from_raw(0)));
    assert!(!types.has_type(DeviceMemoryType::from_raw(1)));
    assert!(types.has_type(DeviceMemoryType::from_raw(2)));
    assert!(!types.has_type(DeviceMemoryType::from_raw(3)));
    assert!(DeviceMemoryTypeFlags::all().has_type(DeviceMemoryType::from_raw(31)));
    assert!(!DeviceMemoryTypeFlags::all().has_type(DeviceMemoryType::from_raw(32)));
}

/// The error descriptions name the failure.
#[test]
fn error_descriptions() {
    let oom = MemoryPoolError::OutOfMemoryError { req_size: 16 };
    let unsup = MemoryPoolError::UnsupportedMemoryRequirements {
        types: DeviceMemoryTypeFlags::all(),
        props: MemoryPropertyFlags::empty(),
    };
    assert!(oom.describe().contains("block"));
    assert!(unsup.describe().contains("memory type"));
    assert_ne!(oom, unsup);
}

/// The smaller value types keep their meanings.
#[test]
fn small_value_types() {
    assert_eq!(DeviceKind::Discrete.score(), 4);
    assert_eq!(DeviceKind::Integrated.score(), 3);
    assert_eq!(DeviceKind::Virtual.score(), 2);
    assert_eq!(DeviceKind::Cpu.score(), 1);
    assert_eq!(DeviceKind::Other.score(), 0);
    assert!(DeviceKind::Discrete.score() > DeviceKind::Cpu.score());

    assert_eq!(IndexType::UInt8.vk_size(), 1);
    assert_eq!(IndexType::UInt16.vk_size(), 2);
    assert_eq!(IndexType::UInt32.vk_size(), 4);

    assert_eq!(MemoryAllocatorKind::default(), MemoryAllocatorKind::Dense);

    let v = ApiVersion::new(1, 3, 204);
    assert_eq!(v.variant, 0);
    assert_eq!(v.major, 1);
    assert_eq!(v.minor, 3);
    assert_eq!(v.patch, 204);
    let v = ApiVersion::new_with_variant(2, 1, 0, 7);
    assert_eq!(v.variant, 2);

    assert_eq!(
        game_vk::enums::InstanceExtension::PortabilityEnumeration.as_str(),
        "VK_KHR_portability_enumeration"
    );
    assert_eq!(
        game_vk::enums::DeviceExtension::Swapchain.as_str(),
        "VK_KHR_swapchain"
    );
    assert_eq!(
        game_vk::enums::InstanceLayer::KhronosValidation.as_str(),
        "VK_LAYER_KHRONOS_validation"
    );
    assert_eq!(game_vk::enums::DeviceLayer::Dummy.as_str(), "dummy");
}

/// A block records the request it was allocated for.
#[test]
fn block_records_its_allocation() {
    let mut device = small_device();
    let block = MemoryBlock::allocate(
        &mut device,
        &MemoryRequirements { align: 1, size: 300, types: DeviceMemoryTypeFlags::from_raw(2) },
        MemoryPropertyFlags::host_visible(),
    )
    .expect("block on the host-visible type");
    assert_eq!(block.mem_type().as_raw(), 1);
    assert_eq!(block.mem_size(), 300);
    assert!(block.mem_props().check(MemoryPropertyFlags::host_visible()));
    assert!(block.mem_props().check(MemoryPropertyFlags::host_coherent()));
}

/// The queue family info walks its distinct indices once each.
#[test]
fn queue_family_unique_walk() {
    let all_same = QueueFamilyInfo { graphics: 2, memory: 2, present: 2, compute: 2 };
    assert_eq!(all_same.unique_len(), 1);
    let mut it = all_same.unique();
    assert_eq!(it.next(), Some(2));
    assert_eq!(it.next(), None);

    let memory_shared = QueueFamilyInfo { graphics: 0, memory: 0, present: 0, compute: 1 };
    assert_eq!(memory_shared.unique_len(), 2);
    let mut it = memory_shared.unique();
    assert_eq!(it.next(), Some(0));
    assert_eq!(it.next(), Some(1));
    assert_eq!(it.next(), None);

    let distinct = QueueFamilyInfo { graphics: 0, memory: 1, present: 0, compute: 2 };
    assert_eq!(distinct.unique_len(), 3);
    let mut it = distinct.unique();
    assert_eq!(it.next(), Some(0));
    assert_eq!(it.next(), Some(1));
    assert_eq!(it.next(), Some(2));
    assert_eq!(it.next(), None);
    assert_eq!(distinct.get_index(QueueKind::Graphics), 0);
    assert_eq!(distinct.get_index(QueueKind::Memory), 1);
    assert_eq!(distinct.get_index(QueueKind::Present), 0);
    assert_eq!(distinct.get_index(QueueKind::Compute), 2);
}

/// Edge cases of the request fields: a zero-byte region is handed out
/// without consuming space, and a zero alignment leaves offsets unaligned.
#[test]
fn zero_size_and_zero_alignment() {
    let mut device = small_device();
    let block = MemoryBlock::allocate(&mut device, &reqs(1, 256), MemoryPropertyFlags::empty()).expect("backing block");
    let mut pool = BlockPool::new(block);
    let (_, p) = pool.allocate(&reqs(1, 0), MemoryPropertyFlags::empty()).expect("empty region");
    assert_eq!(p.ptr(), 0);
    assert_eq!(pool.size(), 0);

    let mut lpool = LinearPool::new(small_device(), 256);
    let (_, _) = lpool.allocate(&reqs(0, 3), MemoryPropertyFlags::empty()).expect("first region");
    let (_, p) = lpool.allocate(&reqs(0, 5), MemoryPropertyFlags::empty()).expect("unaligned region");
    assert_eq!(p.ptr(), 3);
}
