//! Tests for the three pool strategies, over a device with two memory types:
//! a device-local one and a host-visible, host-coherent one.

use game_vk::block::MemoryBlock;
use game_vk::device::Device;
use game_vk::errors::MemoryPoolError;
use game_vk::flags::{DeviceMemoryTypeFlags, MemoryPropertyFlags};
use game_vk::gpuptr::GpuPtr;
use game_vk::pools::block_pool::BlockPool;
use game_vk::pools::linear::LinearPool;
use game_vk::pools::meta::MetaPool;
use game_vk::structs::{DeviceMemoryHeapInfo, DeviceMemoryProperties, DeviceMemoryTypeInfo};
use game_vk::structs::MemoryRequirements;

/// Builds the test device: two heaps of 16 MiB, a device-local type on the
/// first and a host-visible, host-coherent type on the second.
fn test_device() -> Device {
    let heaps = vec![
        DeviceMemoryHeapInfo { size: 16 * 1024 * 1024, props: game_vk::flags::HeapPropertyFlags::device_local() },
        DeviceMemoryHeapInfo { size: 16 * 1024 * 1024, props: game_vk::flags::HeapPropertyFlags::empty() },
    ];
    let types = vec![
        DeviceMemoryTypeInfo { heap_index: 0, props: MemoryPropertyFlags::device_local() },
        DeviceMemoryTypeInfo {
            heap_index: 1,
            props: MemoryPropertyFlags::union(
                MemoryPropertyFlags::host_visible(),
                MemoryPropertyFlags::host_coherent(),
            ),
        },
    ];
    Device::new(DeviceMemoryProperties { heaps, types })
}

/// Tests the linear pool's allocation algorithm
#[test]
fn test_linear_pool() {
    let device = test_device();

    // Create a LinearPool on said device
    let mut mpool = LinearPool::new(device.clone(), 512);
    // Allocate three non-aligned blocks
    let (_, pointer) = mpool.allocate(&MemoryRequirements { align: 1, size: 128, types: DeviceMemoryTypeFlags::all() }, MemoryPropertyFlags::empty()).expect("Failed to allocate first block");
    assert_eq!(pointer, GpuPtr::new(0, 0, 0));
    let (_, pointer) = mpool.allocate(&MemoryRequirements { align: 1, size: 128, types: DeviceMemoryTypeFlags::all() }, MemoryPropertyFlags::empty()).expect("Failed to allocate second block");
    assert_eq!(pointer, GpuPtr::new(0, 0, 128));
    let (_, pointer) = mpool.allocate(&MemoryRequirements { align: 1, size: 256, types: DeviceMemoryTypeFlags::all() }, MemoryPropertyFlags::empty()).expect("Failed to allocate third block");
    assert_eq!(pointer, GpuPtr::new(0, 0, 256));

    // Create another to check it overflows correctly
    let mut mpool = LinearPool::new(device.clone(), 512);
    // Allocate a block that's always too large
    match mpool.allocate(&MemoryRequirements { align: 1, size: 1024, types: DeviceMemoryTypeFlags::all() }, MemoryPropertyFlags::empty()) {
        Ok(_) => { panic!("Pool successfully allocated block that should throw out-of-memory"); },
        Err(MemoryPoolError::OutOfMemoryError { .. }) => {},
        Err(err) => { panic!("Memory allocation failed: {:?}", err); },
    }
    // Next, allocate some blocks and then check out-of-bounds
    let (_, _) = mpool.allocate(&MemoryRequirements { align: 1, size: 128, types: DeviceMemoryTypeFlags::all() }, MemoryPropertyFlags::empty()).expect("Failed to allocate first block");
    let (_, _) = mpool.allocate(&MemoryRequirements { align: 1, size: 128, types: DeviceMemoryTypeFlags::all() }, MemoryPropertyFlags::empty()).expect("Failed to allocate second block");
    let (_, _) = mpool.allocate(&MemoryRequirements { align: 1, size: 129, types: DeviceMemoryTypeFlags::all() }, MemoryPropertyFlags::empty()).expect("Failed to allocate third block");
    match mpool.allocate(&MemoryRequirements { align: 1, size: 128, types: DeviceMemoryTypeFlags::all() }, MemoryPropertyFlags::empty()) {
        Ok(_) => { panic!("Pool successfully allocated block that should throw out-of-memory"); },
        Err(MemoryPoolError::OutOfMemoryError { .. }) => {},
        Err(err) => { panic!("Memory allocation failed: {:?}", err); },
    }

    // Finally, a pool to check alignment
    let mut mpool = LinearPool::new(device.clone(), 512);
    // Allocate the first block with a weird size
    let (_, _) = mpool.allocate(&MemoryRequirements { align: 1, size: 133, types: DeviceMemoryTypeFlags::all() }, MemoryPropertyFlags::empty()).expect("Failed to allocate first block");
    // Allocate one that needs to be aligned
    let (_, pointer) = mpool.allocate(&MemoryRequirements { align: 4, size: 128, types: DeviceMemoryTypeFlags::all() }, MemoryPropertyFlags::empty()).expect("Failed to allocate second block");
    assert_eq!(pointer, GpuPtr::new(0, 0, 136));
    // One with even bigger alignment
    let (_, pointer) = mpool.allocate(&MemoryRequirements { align: 16, size: 128, types: DeviceMemoryTypeFlags::all() }, MemoryPropertyFlags::empty()).expect("Failed to allocate second block");
    assert_eq!(pointer, GpuPtr::new(0, 0, 272));
    // This one should fail _because_ of its alignment
    match mpool.allocate(&MemoryRequirements { align: 32, size: 112, types: DeviceMemoryTypeFlags::all() }, MemoryPropertyFlags::empty()) {
        Ok(_) => { panic!("Pool successfully allocated block that should throw out-of-memory"); },
        Err(MemoryPoolError::OutOfMemoryError { .. }) => {},
        Err(err) => { panic!("Memory allocation failed: {:?}", err); },
    }
    let (_, pointer) = mpool.allocate(&MemoryRequirements { align: 1, size: 112, types: DeviceMemoryTypeFlags::all() }, MemoryPropertyFlags::empty()).expect("Failed to allocate second block");
    assert_eq!(pointer, GpuPtr::new(0, 0, 400));

    // If we now reset this pool, we should then be able to allocate new blocks
    mpool.reset();
    let (_, pointer) = mpool.allocate(&MemoryRequirements { align: 1, size: 128, types: DeviceMemoryTypeFlags::all() }, MemoryPropertyFlags::empty()).expect("Failed to allocate second block");
    assert_eq!(pointer, GpuPtr::new(0, 0, 0));
}

/// Tests the block pool's allocation algorithm
#[test]
fn test_block_pool() {
    let mut device = test_device();

    // Create a BlockPool on said device
    let block = MemoryBlock::allocate(&mut device, &MemoryRequirements { align: 1, size: 512, types: DeviceMemoryTypeFlags::all() }, MemoryPropertyFlags::empty()).expect("Could not allocate block pool memory block");
    let mut mpool = BlockPool::new(block);
    // Allocate three non-aligned blocks
    let (_, pointer) = mpool.allocate(&MemoryRequirements { align: 1, size: 128, types: DeviceMemoryTypeFlags::all() }, MemoryPropertyFlags::empty()).expect("Failed to allocate first block");
    assert_eq!(pointer, GpuPtr::new(0, 0, 0));
    let (_, pointer) = mpool.allocate(&MemoryRequirements { align: 1, size: 128, types: DeviceMemoryTypeFlags::all() }, MemoryPropertyFlags::empty()).expect("Failed to allocate second block");
    assert_eq!(pointer, GpuPtr::new(0, 0, 128));
    let (_, pointer) = mpool.allocate(&MemoryRequirements { align: 1, size: 256, types: DeviceMemoryTypeFlags::all() }, MemoryPropertyFlags::empty()).expect("Failed to allocate third block");
    assert_eq!(pointer, GpuPtr::new(0, 0, 256));

    // Create another to check it overflows correctly
    let block = MemoryBlock::allocate(&mut device, &MemoryRequirements { align: 1, size: 512, types: DeviceMemoryTypeFlags::all() }, MemoryPropertyFlags::empty()).expect("Could not allocate block pool memory block");
    let mut mpool = BlockPool::new(block);
    // Allocate a block that's always too large
    match mpool.allocate(&MemoryRequirements { align: 1, size: 1024, types: DeviceMemoryTypeFlags::all() }, MemoryPropertyFlags::empty()) {
        Ok(_) => { panic!("Pool successfully allocated block that should throw out-of-memory"); },
        Err(MemoryPoolError::OutOfMemoryError { .. }) => {},
        Err(err) => { panic!("Memory allocation failed: {:?}", err); },
    }
    // Next, allocate some blocks and then check out-of-bounds
    let (_, _) = mpool.allocate(&MemoryRequirements { align: 1, size: 128, types: DeviceMemoryTypeFlags::all() }, MemoryPropertyFlags::empty()).expect("Failed to allocate first block");
    let (_, _) = mpool.allocate(&MemoryRequirements { align: 1, size: 128, types: DeviceMemoryTypeFlags::all() }, MemoryPropertyFlags::empty()).expect("Failed to allocate second block");
    let (_, _) = mpool.allocate(&MemoryRequirements { align: 1, size: 129, types: DeviceMemoryTypeFlags::all() }, MemoryPropertyFlags::empty()).expect("Failed to allocate third block");
    match mpool.allocate(&MemoryRequirements { align: 1, size: 128, types: DeviceMemoryTypeFlags::all() }, MemoryPropertyFlags::empty()) {
        Ok(_) => { panic!("Pool successfully allocated block that should throw out-of-memory"); },
        Err(MemoryPoolError::OutOfMemoryError { .. }) => {},
        Err(err) => { panic!("Memory allocation failed: {:?}", err); },
    }

    // A pool to check alignment
    let block = MemoryBlock::allocate(&mut device, &MemoryRequirements { align: 1, size: 512, types: DeviceMemoryTypeFlags::all() }, MemoryPropertyFlags::empty()).expect("Could not allocate block pool memory block");
    let mut mpool = BlockPool::new(block);
    // Allocate the first block with a weird size
    let (_, _) = mpool.allocate(&MemoryRequirements { align: 1, size: 133, types: DeviceMemoryTypeFlags::all() }, MemoryPropertyFlags::empty()).expect("Failed to allocate first block");
    // Allocate one that needs to be aligned
    let (_, pointer) = mpool.allocate(&MemoryRequirements { align: 4, size: 128, types: DeviceMemoryTypeFlags::all() }, MemoryPropertyFlags::empty()).expect("Failed to allocate second block");
    assert_eq!(pointer, GpuPtr::new(0, 0, 136));
    // One with even bigger alignment
    let (_, pointer) = mpool.allocate(&MemoryRequirements { align: 16, size: 128, types: DeviceMemoryTypeFlags::all() }, MemoryPropertyFlags::empty()).expect("Failed to allocate second block");
    assert_eq!(pointer, GpuPtr::new(0, 0, 272));
    // This one should fail _because_ of its alignment
    match mpool.allocate(&MemoryRequirements { align: 32, size: 112, types: DeviceMemoryTypeFlags::all() }, MemoryPropertyFlags::empty()) {
        Ok(_) => { panic!("Pool successfully allocated block that should throw out-of-memory"); },
        Err(MemoryPoolError::OutOfMemoryError { .. }) => {},
        Err(err) => { panic!("Memory allocation failed: {:?}", err); },
    }
    let (_, pointer) = mpool.allocate(&MemoryRequirements { align: 1, size: 112, types: DeviceMemoryTypeFlags::all() }, MemoryPropertyFlags::empty()).expect("Failed to allocate second block");
    assert_eq!(pointer, GpuPtr::new(0, 0, 400));

    // If we now reset this pool, we should then be able to allocate new blocks
    mpool.reset();
    let (_, pointer) = mpool.allocate(&MemoryRequirements { align: 1, size: 128, types: DeviceMemoryTypeFlags::all() }, MemoryPropertyFlags::empty()).expect("Failed to allocate second block");
    assert_eq!(pointer, GpuPtr::new(0, 0, 0));

    // Finally we do a pool to check if it properly frees
    let block = MemoryBlock::allocate(&mut device, &MemoryRequirements { align: 1, size: 512, types: DeviceMemoryTypeFlags::all() }, MemoryPropertyFlags::empty()).expect("Could not allocate block pool memory block");
    let mut mpool = BlockPool::new(block);
    // Allocate three blocks of 128 bytes
    let (_, _) = mpool.allocate(&MemoryRequirements { align: 1, size: 128, types: DeviceMemoryTypeFlags::all() }, MemoryPropertyFlags::empty()).expect("Failed to allocate first block");
    let (_, pointer2) = mpool.allocate(&MemoryRequirements { align: 1, size: 128, types: DeviceMemoryTypeFlags::all() }, MemoryPropertyFlags::empty()).expect("Failed to allocate second block");
    let (_, _) = mpool.allocate(&MemoryRequirements { align: 1, size: 128, types: DeviceMemoryTypeFlags::all() }, MemoryPropertyFlags::empty()).expect("Failed to allocate third block");
    // Free the second
    mpool.free(pointer2);
    // A block larger than the largest single free extent fails, even though
    // the free bytes would suffice in total
    match mpool.allocate(&MemoryRequirements { align: 1, size: 129, types: DeviceMemoryTypeFlags::all() }, MemoryPropertyFlags::empty()) {
        Ok(_) => { panic!("Pool successfully allocated block that should throw out-of-memory"); },
        Err(MemoryPoolError::OutOfMemoryError { .. }) => {},
        Err(err) => { panic!("Memory allocation failed: {:?}", err); },
    }
    // These _two_ succeed, reusing the freed space
    let (_, _) = mpool.allocate(&MemoryRequirements { align: 1, size: 37, types: DeviceMemoryTypeFlags::all() }, MemoryPropertyFlags::empty()).expect("Failed to allocate fourth block");
    let (_, _) = mpool.allocate(&MemoryRequirements { align: 4, size: 60, types: DeviceMemoryTypeFlags::all() }, MemoryPropertyFlags::empty()).expect("Failed to allocate fourth block");
}

/// Tests the meta pool's allocation algorithm
#[test]
fn test_meta_pool() {
    let device = test_device();

    // Create a MetaPool on said device
    let mut mpool = MetaPool::new(device.clone(), 2048);
    // Allocate three non-aligned blocks
    let (_, pointer) = mpool.allocate(&MemoryRequirements { align: 1, size: 128, types: DeviceMemoryTypeFlags::all() }, MemoryPropertyFlags::empty()).expect("Failed to allocate first block");
    assert_eq!(pointer, GpuPtr::new(0, 0, 0));
    let (_, pointer) = mpool.allocate(&MemoryRequirements { align: 1, size: 128, types: DeviceMemoryTypeFlags::all() }, MemoryPropertyFlags::empty()).expect("Failed to allocate second block");
    assert_eq!(pointer, GpuPtr::new(0, 0, 128));
    let (_, pointer) = mpool.allocate(&MemoryRequirements { align: 1, size: 256, types: DeviceMemoryTypeFlags::all() }, MemoryPropertyFlags::empty()).expect("Failed to allocate third block");
    assert_eq!(pointer, GpuPtr::new(0, 0, 256));

    // Create another to check it overflows correctly
    let mut mpool = MetaPool::new(device.clone(), 2048);
    // Allocate a block that's always too large
    match mpool.allocate(&MemoryRequirements { align: 1, size: usize::MAX, types: DeviceMemoryTypeFlags::all() }, MemoryPropertyFlags::empty()) {
        Ok(_) => { panic!("Pool successfully allocated block that should throw out-of-memory"); },
        Err(MemoryPoolError::OutOfMemoryError { .. }) => {},
        Err(err) => { panic!("Memory allocation failed: {:?}", err); },
    }

    // A pool to check alignment
    let mut mpool = MetaPool::new(device.clone(), 2048);
    // Allocate the first block with a weird size
    let (_, _) = mpool.allocate(&MemoryRequirements { align: 1, size: 133, types: DeviceMemoryTypeFlags::all() }, MemoryPropertyFlags::empty()).expect("Failed to allocate first block");
    // Allocate one that needs to be aligned
    let (_, pointer) = mpool.allocate(&MemoryRequirements { align: 4, size: 128, types: DeviceMemoryTypeFlags::all() }, MemoryPropertyFlags::empty()).expect("Failed to allocate second block");
    assert_eq!(pointer, GpuPtr::new(0, 0, 136));
    // One with even bigger alignment
    let (_, pointer) = mpool.allocate(&MemoryRequirements { align: 16, size: 128, types: DeviceMemoryTypeFlags::all() }, MemoryPropertyFlags::empty()).expect("Failed to allocate second block");
    assert_eq!(pointer, GpuPtr::new(0, 0, 272));
    let (_, pointer) = mpool.allocate(&MemoryRequirements { align: 1, size: 112, types: DeviceMemoryTypeFlags::all() }, MemoryPropertyFlags::empty()).expect("Failed to allocate second block");
    assert_eq!(pointer, GpuPtr::new(0, 0, 400));

    // If we now reset this pool, we should then be able to allocate new blocks
    mpool.reset();
    let (_, pointer) = mpool.allocate(&MemoryRequirements { align: 1, size: 128, types: DeviceMemoryTypeFlags::all() }, MemoryPropertyFlags::empty()).expect("Failed to allocate second block");
    assert_eq!(pointer, GpuPtr::new(0, 0, 0));

    // Finally we do a pool to check if it properly frees
    let mut mpool = MetaPool::new(device.clone(), 2048);
    // Allocate three blocks of 128 bytes
    let (_, _) = mpool.allocate(&MemoryRequirements { align: 1, size: 128, types: DeviceMemoryTypeFlags::all() }, MemoryPropertyFlags::empty()).expect("Failed to allocate first block");
    let (_, pointer2) = mpool.allocate(&MemoryRequirements { align: 1, size: 128, types: DeviceMemoryTypeFlags::all() }, MemoryPropertyFlags::empty()).expect("Failed to allocate second block");
    let (_, pointer3) = mpool.allocate(&MemoryRequirements { align: 1, size: 128, types: DeviceMemoryTypeFlags::all() }, MemoryPropertyFlags::empty()).expect("Failed to allocate third block");
    // Free the second
    mpool.free(pointer2);
    // Where the new pointers land we don't know, but we should be able to
    // allocate at least two
    let (_, _) = mpool.allocate(&MemoryRequirements { align: 1, size: 128, types: DeviceMemoryTypeFlags::all() }, MemoryPropertyFlags::empty()).expect("Failed to allocate fourth block");
    let (_, _) = mpool.allocate(&MemoryRequirements { align: 1, size: 128, types: DeviceMemoryTypeFlags::all() }, MemoryPropertyFlags::empty()).expect("Failed to allocate fifth block");
    // Free the third now
    mpool.free(pointer3);
    // These _two_ succeed again
    let (_, _) = mpool.allocate(&MemoryRequirements { align: 1, size: 37, types: DeviceMemoryTypeFlags::all() }, MemoryPropertyFlags::empty()).expect("Failed to allocate fourth block");
    let (_, _) = mpool.allocate(&MemoryRequirements { align: 4, size: 60, types: DeviceMemoryTypeFlags::all() }, MemoryPropertyFlags::empty()).expect("Failed to allocate fourth block");

    // It can also allocate multiple blocks of memory
    let mut mpool = MetaPool::new(device.clone(), 2048);
    let (_, _) = mpool.allocate(&MemoryRequirements { align: 1, size: 128, types: DeviceMemoryTypeFlags::all() }, MemoryPropertyFlags::host_coherent()).expect("Failed to allocate first block");
    let (_, _) = mpool.allocate(&MemoryRequirements { align: 1, size: 128, types: DeviceMemoryTypeFlags::all() }, MemoryPropertyFlags::device_local()).expect("Failed to allocate second block");
    let (_, _) = mpool.allocate(&MemoryRequirements { align: 1, size: 128, types: DeviceMemoryTypeFlags::from_raw(2) }, MemoryPropertyFlags::empty()).expect("Failed to allocate third block");
}
