use std::cell::RefCell;
use std::rc::Rc;

use tephra::context::{Context, ContextApi};
use tephra::descriptor::{
    Binding, CreatePool, Descriptor, DescriptorApi, DescriptorInfo, DescriptorResource,
    DescriptorSizes, DescriptorType, LinearPoolAllocator, NativePool, Pool, PoolApi, ShaderView,
};
use tephra::handle::{BufferHandle, DescriptorHandle};

#[derive(Clone)]
struct MockCtx {
    pools_created: Rc<RefCell<u32>>,
    next_id: Rc<RefCell<u64>>,
    writes: Rc<RefCell<Vec<u64>>>,
}

struct MockPool {
    next_id: Rc<RefCell<u64>>,
}

impl PoolApi for MockPool {
    fn create_descriptor(&self, count: u32) -> Vec<DescriptorHandle> {
        let mut v = Vec::new();
        let mut id = self.next_id.borrow_mut();
        for _ in 0..count {
            v.push(DescriptorHandle { id: *id });
            *id += 1;
        }
        v
    }
}

impl CreatePool for MockCtx {
    type PoolImpl = MockPool;

    fn create_pool(
        &self,
        _alloc_size: u32,
        _data: &[ShaderView],
        _sizes: DescriptorSizes,
    ) -> NativePool<MockPool> {
        *self.pools_created.borrow_mut() += 1;
        NativePool {
            inner: MockPool {
                next_id: self.next_id.clone(),
            },
        }
    }
}

impl DescriptorApi for MockCtx {
    fn write(&self, handle: DescriptorHandle, _data: &Descriptor) {
        self.writes.borrow_mut().push(handle.id);
    }
}

impl ContextApi for MockCtx {}

fn mock_context() -> (Context<MockCtx>, Rc<RefCell<u32>>, Rc<RefCell<Vec<u64>>>) {
    let pools_created = Rc::new(RefCell::new(0));
    let writes = Rc::new(RefCell::new(Vec::new()));
    let ctx = Context {
        context: MockCtx {
            pools_created: pools_created.clone(),
            next_id: Rc::new(RefCell::new(0)),
            writes: writes.clone(),
        },
    };
    (ctx, pools_created, writes)
}

fn uniform(binding: u32) -> ShaderView {
    ShaderView {
        binding,
        ty: DescriptorType::Uniform,
    }
}

fn storage(binding: u32) -> ShaderView {
    ShaderView {
        binding,
        ty: DescriptorType::Storage,
    }
}

#[test]
fn unit_resource_bundle_declares_nothing() {
    assert!(().descriptor_data().is_empty());
    assert!(<() as DescriptorInfo>::layout().is_empty());
}

#[test]
fn sizes_from_empty_views_are_zero() {
    let sizes = DescriptorSizes::from_views(&[]);
    assert_eq!(sizes.buffer, 0);
    assert_eq!(sizes.storage, 0);
    assert_eq!(sizes.images, 0);
}

#[test]
fn sizes_count_each_kind() {
    let views = [uniform(0), storage(1), uniform(2)];
    let sizes = DescriptorSizes::from_views(&views);
    assert_eq!(sizes.buffer, 2);
    assert_eq!(sizes.storage, 1);
    assert_eq!(sizes.images, 0);
}

#[test]
fn sizes_are_deterministic_and_order_blind() {
    let views = [uniform(0), storage(1), uniform(2), storage(3)];
    let reordered = [storage(3), uniform(2), storage(1), uniform(0)];
    let a = DescriptorSizes::from_views(&views);
    let b = DescriptorSizes::from_views(&views);
    let c = DescriptorSizes::from_views(&reordered);
    assert_eq!((a.buffer, a.storage, a.images), (b.buffer, b.storage, b.images));
    assert_eq!((a.buffer, a.storage, a.images), (c.buffer, c.storage, c.images));
}

#[test]
fn allocator_grows_one_pool_per_block() {
    let (ctx, pools_created, _) = mock_context();
    let mut alloc = LinearPoolAllocator::new(&ctx, vec![uniform(0)]);
    assert_eq!(alloc.pool_count(), 0);
    for n in 1..=50u64 {
        let h = alloc.create_descriptor();
        assert_eq!(h.id, n - 1);
    }
    assert_eq!(alloc.pool_count(), 1);
    assert_eq!(alloc.handle_count(), 50);
    assert_eq!(alloc.allocation_count(), 50);
    assert_eq!(*pools_created.borrow(), 1);
    // the 51st allocation triggers growth exactly at the block boundary
    let h = alloc.create_descriptor();
    assert_eq!(h.id, 50);
    assert_eq!(alloc.pool_count(), 2);
    assert_eq!(alloc.handle_count(), 100);
    assert_eq!(alloc.allocation_count(), 51);
    assert_eq!(*pools_created.borrow(), 2);
}

#[test]
fn additional_pool_can_be_grown_eagerly() {
    let (ctx, pools_created, _) = mock_context();
    let mut alloc = LinearPoolAllocator::new(&ctx, vec![uniform(0)]);
    alloc.allocate_additional_pool();
    assert_eq!(alloc.pool_count(), 1);
    assert_eq!(alloc.handle_count(), 50);
    assert_eq!(alloc.allocation_count(), 0);
    assert_eq!(*pools_created.borrow(), 1);
    // the next allocation consumes the eagerly grown pool instead of growing
    let h = alloc.create_descriptor();
    assert_eq!(h.id, 0);
    assert_eq!(alloc.pool_count(), 1);
}

#[test]
fn reset_reuses_pools_and_handles_in_order() {
    let (ctx, pools_created, _) = mock_context();
    let mut alloc = LinearPoolAllocator::new(&ctx, vec![uniform(0), storage(1)]);
    let first: Vec<DescriptorHandle> = (0..50).map(|_| alloc.create_descriptor()).collect();
    assert_eq!(*pools_created.borrow(), 1);
    alloc.reset();
    assert_eq!(alloc.allocation_count(), 0);
    assert_eq!(alloc.pool_count(), 1);
    let again: Vec<DescriptorHandle> = (0..50).map(|_| alloc.create_descriptor()).collect();
    assert_eq!(first, again);
    // reuse allocated nothing new
    assert_eq!(*pools_created.borrow(), 1);
}

#[test]
fn pool_routes_signatures_to_independent_allocators() {
    let (ctx, pools_created, writes) = mock_context();
    let mut pool = Pool::new(&ctx);
    let sig_a = vec![uniform(0)];
    let sig_b = vec![storage(0)];
    let desc_a = Descriptor {
        views: sig_a.clone(),
        resources: vec![Binding {
            binding: 0,
            data: DescriptorResource::Uniform(BufferHandle { id: 9 }),
        }],
    };
    let desc_b = Descriptor {
        views: sig_b.clone(),
        resources: vec![Binding {
            binding: 0,
            data: DescriptorResource::Storage(BufferHandle { id: 10 }),
        }],
    };

    let a0 = pool.allocate(&desc_a);
    let a1 = pool.allocate(&desc_a);
    let b0 = pool.allocate(&desc_b);
    let a2 = pool.allocate(&desc_a);

    assert_eq!(pool.allocator_count(), 2);
    assert_eq!(*pools_created.borrow(), 2);
    // signature A's cursor kept walking its own pool, untouched by B
    assert_eq!((a0.id, a1.id, a2.id), (0, 1, 2));
    // signature B got its own block of handles
    assert_eq!(b0.id, 50);
    // one backend write per allocation, in order
    assert_eq!(*writes.borrow(), vec![0, 1, 50, 2]);
}

#[test]
fn pool_reset_rewinds_every_allocator() {
    let (ctx, pools_created, _) = mock_context();
    let mut pool = Pool::new(&ctx);
    let desc_a = Descriptor {
        views: vec![uniform(0)],
        resources: Vec::new(),
    };
    let desc_b = Descriptor {
        views: vec![storage(0)],
        resources: Vec::new(),
    };
    let a0 = pool.allocate(&desc_a);
    let b0 = pool.allocate(&desc_b);
    pool.reset();
    // the same handles come back, per signature, and no new pool is created
    assert_eq!(pool.allocate(&desc_a), a0);
    assert_eq!(pool.allocate(&desc_b), b0);
    assert_eq!(pool.allocator_count(), 2);
    assert_eq!(*pools_created.borrow(), 2);
}

#[test]
fn end_to_end_fifty_one_allocations_create_two_pools() {
    let (ctx, pools_created, _) = mock_context();
    let mut pool = Pool::new(&ctx);
    let desc = Descriptor {
        views: vec![uniform(0), uniform(1)],
        resources: Vec::new(),
    };
    let mut handles = Vec::new();
    for i in 0..51u64 {
        if i == 50 {
            // just before the boundary allocation exactly one pool exists
            assert_eq!(*pools_created.borrow(), 1);
        }
        handles.push(pool.allocate(&desc));
    }
    assert_eq!(*pools_created.borrow(), 2);
    assert_eq!(handles.len(), 51);
    for (i, h) in handles.iter().enumerate() {
        assert_eq!(h.id, i as u64);
    }
}
