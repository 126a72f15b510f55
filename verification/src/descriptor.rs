//! Descriptor bindings, per-signature size calculation, the linear pool
//! allocator, and the pool router.
//!
//! A shader's binding layout (its *signature*, an ordered list of
//! [`ShaderView`]s) determines how many descriptors of each kind one
//! allocation unit needs. Each distinct signature gets its own
//! [`LinearPoolAllocator`], which grows a set of fixed-capacity native pools
//! and hands out pre-minted handles linearly; [`Pool`] routes allocation
//! requests to the allocator of their signature and issues the backend write.

use vstd::prelude::*;

use crate::context::{Context, ContextApi};
use crate::handle::{BufferHandle, DescriptorHandle};

verus! {

/// The kind of resource a shader binding expects.
#[derive(Copy, Clone, Debug, Hash, Eq, PartialEq, Structural)]
pub enum DescriptorType {
    Uniform,
    Storage,
}

/// A concrete resource bound into a descriptor slot.
pub enum DescriptorResource {
    Uniform(BufferHandle),
    Storage(BufferHandle),
}

/// A value attached to one binding index of a shader layout.
#[derive(Debug)]
pub struct Binding<T> {
    pub binding: u32,
    pub data: T,
}

/// One descriptor binding a shader stage declares: its binding index and the
/// kind of descriptor it expects.
#[derive(Copy, Clone, Debug, Hash, Eq, PartialEq, Structural)]
pub struct ShaderView {
    pub binding: u32,
    pub ty: DescriptorType,
}

/// An ordered list of bindings, used as a whole as the signature that selects
/// which pool allocator serves a shader's descriptor needs.
pub type ShaderViews = Vec<ShaderView>;

/// A descriptor write request: the signature it belongs to plus the resources
/// to bind.
pub struct Descriptor {
    pub views: ShaderViews,
    pub resources: Vec<Binding<DescriptorResource>>,
}

/// How many bindings of kind `t` a list of views declares.
pub open spec fn count_type(s: Seq<ShaderView>, t: DescriptorType) -> nat
    decreases s.len(),
{
    if s.len() == 0 {
        0
    } else {
        count_type(s.drop_last(), t) + if s.last().ty == t {
            1nat
        } else {
            0nat
        }
    }
}

pub proof fn lemma_count_type_le_len(s: Seq<ShaderView>, t: DescriptorType)
    ensures
        count_type(s, t) <= s.len(),
    decreases s.len(),
{
    if s.len() > 0 {
        lemma_count_type_le_len(s.drop_last(), t);
    }
}

proof fn lemma_count_type_take_step(s: Seq<ShaderView>, i: int, t: DescriptorType)
    requires
        0 <= i < s.len(),
    ensures
        count_type(s.take(i + 1), t) == count_type(s.take(i), t) + if s[i].ty == t {
            1nat
        } else {
            0nat
        },
{
    assert(s.take(i + 1).drop_last() =~= s.take(i));
    assert(s.take(i + 1).last() == s[i]);
}

/// Removing one element lowers the matching count by that element's
/// contribution, wherever it stood.
proof fn lemma_count_type_remove(s: Seq<ShaderView>, i: int, t: DescriptorType)
    requires
        0 <= i < s.len(),
    ensures
        count_type(s, t) == count_type(s.remove(i), t) + if s[i].ty == t {
            1nat
        } else {
            0nat
        },
    decreases s.len(),
{
    if i == s.len() - 1 {
        assert(s.remove(i) =~= s.drop_last());
    } else {
        assert(s.remove(i).drop_last() =~= s.drop_last().remove(i));
        assert(s.remove(i).last() == s.last());
        lemma_count_type_remove(s.drop_last(), i, t);
    }
}

/// The per-kind counts depend only on the multiset of bindings, not on their
/// order.
pub proof fn lemma_count_type_multiset(s1: Seq<ShaderView>, s2: Seq<ShaderView>, t: DescriptorType)
    requires
        s1.to_multiset() == s2.to_multiset(),
    ensures
        count_type(s1, t) == count_type(s2, t),
    decreases s1.len(),
{
    s1.to_multiset_ensures();
    s2.to_multiset_ensures();
    if s1.len() == 0 {
        assert(s2.len() == 0);
    } else {
        let last = s1.len() - 1;
        let x = s1[last];
        assert(s1.contains(x));
        assert(s1.to_multiset().count(x) > 0);
        assert(s2.to_multiset().count(x) > 0);
        assert(s2.contains(x));
        let i = choose|i: int| 0 <= i < s2.len() && s2[i] == x;
        assert(s1.drop_last() =~= s1.remove(last));
        assert(s1.remove(last).to_multiset() == s1.to_multiset().remove(x));
        assert(s2.remove(i).to_multiset() == s2.to_multiset().remove(x));
        lemma_count_type_remove(s2, i, t);
        lemma_count_type_remove(s1, last, t);
        assert(s1[last].ty == t <==> s2[i].ty == t);
        lemma_count_type_multiset(s1.drop_last(), s2.remove(i), t);
    }
}

/// Sizing is deterministic and order-blind: the descriptor counts derived
/// from a signature are a pure function of the multiset of its bindings, so
/// recomputing from equal views always yields identical sizes, and reordering
/// the bindings never changes any count.
pub proof fn lemma_sizes_order_independent(v1: Seq<ShaderView>, v2: Seq<ShaderView>)
    requires
        v1.to_multiset() == v2.to_multiset(),
    ensures
        count_type(v1, DescriptorType::Uniform) == count_type(v2, DescriptorType::Uniform),
        count_type(v1, DescriptorType::Storage) == count_type(v2, DescriptorType::Storage),
{
    lemma_count_type_multiset(v1, v2, DescriptorType::Uniform);
    lemma_count_type_multiset(v1, v2, DescriptorType::Storage);
}

/// Per-signature descriptor counts: how many of each descriptor kind one
/// allocation unit of that signature requires.
#[derive(Debug, Copy, Clone)]
pub struct DescriptorSizes {
    pub buffer: u32,
    pub storage: u32,
    pub images: u32,
}

impl DescriptorSizes {
    /// Derives the counts by folding over the declared bindings: every count
    /// starts at zero and the counter matching each binding's kind is
    /// incremented once. Empty input yields all-zero sizes.
    pub fn from_views(views: &[ShaderView]) -> (r: DescriptorSizes)
        requires
            views@.len() <= u32::MAX,
        ensures
            r.buffer as nat == count_type(views@, DescriptorType::Uniform),
            r.storage as nat == count_type(views@, DescriptorType::Storage),
            r.images == 0,
    {
        let mut buffer: u32 = 0;
        let mut storage: u32 = 0;
        let mut i: usize = 0;
        while i < views.len()
            invariant
                i <= views@.len(),
                views@.len() <= u32::MAX,
                buffer as nat == count_type(views@.take(i as int), DescriptorType::Uniform),
                storage as nat == count_type(views@.take(i as int), DescriptorType::Storage),
            decreases views@.len() - i,
        {
            proof {
                lemma_count_type_take_step(views@, i as int, DescriptorType::Uniform);
                lemma_count_type_take_step(views@, i as int, DescriptorType::Storage);
                lemma_count_type_le_len(views@.take(i as int), DescriptorType::Uniform);
                lemma_count_type_le_len(views@.take(i as int), DescriptorType::Storage);
            }
            match views[i].ty {
                DescriptorType::Uniform => {
                    buffer = buffer + 1;
                },
                DescriptorType::Storage => {
                    storage = storage + 1;
                },
            }
            i = i + 1;
        }
        proof {
            assert(views@.take(views@.len() as int) =~= views@);
        }
        DescriptorSizes { buffer, storage, images: 0 }
    }
}

/// Marker for context types able to create descriptors.
pub trait CreateDescriptor {

}

/// The operations a backend-owned native pool offers.
pub trait PoolApi {
    /// Mints `count` descriptor handles from this pool in one allocation
    /// call. The backend must hand back exactly that many; a backend that
    /// cannot (native pool exhaustion, device loss) treats the failure as
    /// fatal rather than returning short.
    fn create_descriptor(&self, count: u32) -> (r: Vec<DescriptorHandle>)
        ensures
            r@.len() == count as nat,
    ;
}

/// An opaque backend pool able to mint a fixed number of descriptor handles.
/// Exclusively owned by one `LinearPoolAllocator`.
pub struct NativePool<P: PoolApi> {
    pub inner: P,
}

/// The capability to create native descriptor pools sized for a signature.
pub trait CreatePool {
    type PoolImpl: PoolApi;

    /// Creates one native pool able to serve `alloc_size` allocation units of
    /// the signature described by `data`, whose per-kind counts are `sizes`.
    fn create_pool(&self, alloc_size: u32, data: &[ShaderView], sizes: DescriptorSizes)
        -> NativePool<Self::PoolImpl>;
}

/// The capability to write bound resources into an allocated descriptor.
pub trait DescriptorApi {
    /// Writes the resources of `data` into the slot named by `handle`.
    fn write(&self, handle: DescriptorHandle, data: &Descriptor);
}

/// What a typed resource bundle reports about its descriptor needs: the
/// concrete resources it binds and the layout its shader declares.
pub trait DescriptorInfo where Self: 'static {
    fn descriptor_data(&self) -> Vec<Binding<DescriptorResource>>;

    fn layout() -> Vec<Binding<DescriptorType>>;
}

impl DescriptorInfo for () {
    fn descriptor_data(&self) -> (r: Vec<Binding<DescriptorResource>>)
        ensures
            r@.len() == 0,
    {
        Vec::new()
    }

    fn layout() -> (r: Vec<Binding<DescriptorType>>)
        ensures
            r@.len() == 0,
    {
        Vec::new()
    }
}

/// Capacity, in allocation units, of every native pool an allocator grows by.
pub const BLOCK_SIZE: usize = 50;

/// The mathematical state of a linear pool allocator: a cursor walking a
/// cache of pre-minted handles, the cache always holding exactly one block
/// per owned native pool.
#[verifier::ext_equal]
pub ghost struct AllocatorModel {
    pub block: nat,
    pub cursor: nat,
    pub npools: nat,
    pub handles: Seq<DescriptorHandle>,
    pub views: Seq<ShaderView>,
}

impl AllocatorModel {
    pub open spec fn wf(self) -> bool {
        &&& self.block == BLOCK_SIZE
        &&& self.cursor <= self.handles.len()
        &&& self.handles.len() == self.npools * self.block
    }

    /// The state a newly constructed allocator starts in: no pools, no cached
    /// handles, cursor at zero.
    pub open spec fn fresh(views: Seq<ShaderView>) -> AllocatorModel {
        AllocatorModel {
            block: BLOCK_SIZE as nat,
            cursor: 0,
            npools: 0,
            handles: Seq::empty(),
            views,
        }
    }

    /// The state after `reset`: only the cursor is rewound.
    pub open spec fn rewound(self) -> AllocatorModel {
        AllocatorModel { cursor: 0, ..self }
    }

    /// An allocation must grow the pool set exactly when the cursor has
    /// consumed every cached handle.
    pub open spec fn needs_growth(self) -> bool {
        self.cursor >= self.handles.len()
    }

    /// The state after appending one native pool whose freshly minted block
    /// of handles is `fresh`.
    pub open spec fn grown(self, fresh: Seq<DescriptorHandle>) -> AllocatorModel {
        AllocatorModel { npools: self.npools + 1, handles: self.handles + fresh, ..self }
    }

    /// The state after the cursor moved forward by `n` allocations.
    pub open spec fn advanced(self, n: nat) -> AllocatorModel {
        AllocatorModel { cursor: self.cursor + n, ..self }
    }

    /// The handle the next allocation returns.
    pub open spec fn next_handle(self) -> DescriptorHandle {
        self.handles[self.cursor as int]
    }

    /// One allocation: grow by one block (of handles `fresh`) if the cache is
    /// exhausted, then advance the cursor past the handle handed out.
    pub open spec fn stepped(self, fresh: Seq<DescriptorHandle>) -> AllocatorModel {
        if self.needs_growth() {
            self.grown(fresh).advanced(1)
        } else {
            self.advanced(1)
        }
    }
}

/// One `create_descriptor` call takes the allocator from `pre` to `post` and
/// returns `r`: the pool set grows by exactly one block exactly when the
/// cursor has reached the end of the handle cache, and the returned handle is
/// the cached one at the old cursor position.
pub open spec fn alloc_step(pre: AllocatorModel, post: AllocatorModel, r: DescriptorHandle) -> bool {
    &&& post.block == pre.block
    &&& post.views == pre.views
    &&& post.cursor == pre.cursor + 1
    &&& (!pre.needs_growth() ==> post.npools == pre.npools && post.handles == pre.handles)
    &&& (pre.needs_growth() ==> {
        &&& post.npools == pre.npools + 1
        &&& post.handles.len() == pre.handles.len() + pre.block
        &&& pre.handles.is_prefix_of(post.handles)
    })
    &&& r == post.handles[pre.cursor as int]
}

/// Every transition satisfying `alloc_step` is one `stepped` transition whose
/// freshly minted block is whatever the step appended to the handle cache.
pub proof fn lemma_alloc_step_is_stepped(
    pre: AllocatorModel,
    post: AllocatorModel,
    r: DescriptorHandle,
)
    requires
        pre.cursor <= pre.handles.len(),
        alloc_step(pre, post, r),
    ensures
        post == pre.stepped(post.handles.skip(pre.handles.len() as int)),
        r == (if pre.needs_growth() {
            pre.grown(post.handles.skip(pre.handles.len() as int))
        } else {
            pre
        }).next_handle(),
{
    let fresh = post.handles.skip(pre.handles.len() as int);
    if pre.needs_growth() {
        assert(pre.handles + fresh =~= post.handles);
        assert(post =~= pre.stepped(fresh));
    } else {
        assert(post =~= pre.stepped(fresh));
    }
}

/// A step that needs no growth only advances the cursor.
pub proof fn lemma_step_no_growth(m: AllocatorModel, fresh: Seq<DescriptorHandle>)
    requires
        !m.needs_growth(),
    ensures
        m.stepped(fresh) == m.advanced(1),
{
}

/// The state after `n` allocations from `m`, each growth (if one happens)
/// appending the next unused block of `batches`.
pub open spec fn run(m: AllocatorModel, batches: Seq<Seq<DescriptorHandle>>, n: nat) -> AllocatorModel
    decreases n,
{
    if n == 0 {
        m
    } else {
        let p = run(m, batches, (n - 1) as nat);
        p.stepped(batches[p.npools - m.npools])
    }
}

/// Pool growth is monotone and amortized: starting from a fresh allocator,
/// after `n` allocations with no intervening reset the allocator owns exactly
/// `ceil(n / block_size)` native pools, caches one block of handles per pool,
/// and its cursor equals `n`. Each batch of `batches` is the block of handles
/// one growth mints.
pub proof fn lemma_pool_growth(
    views: Seq<ShaderView>,
    batches: Seq<Seq<DescriptorHandle>>,
    n: nat,
)
    requires
        forall|i: int| 0 <= i < batches.len() ==> (#[trigger] batches[i]).len() == BLOCK_SIZE,
        n <= batches.len() * BLOCK_SIZE,
    ensures
        ({
            let m = run(AllocatorModel::fresh(views), batches, n);
            &&& m.wf()
            &&& m.cursor == n
            &&& m.npools == (n + BLOCK_SIZE - 1) as int / BLOCK_SIZE as int
            &&& m.handles.len() == m.npools * m.block
        }),
    decreases n,
{
    let blk = BLOCK_SIZE as int;
    if n == 0 {
        assert((0 + blk - 1) / blk == 0);
    } else {
        assert((n - 1) as nat <= batches.len() * BLOCK_SIZE);
        lemma_pool_growth(views, batches, (n - 1) as nat);
        let p = run(AllocatorModel::fresh(views), batches, (n - 1) as nat);
        let m = run(AllocatorModel::fresh(views), batches, n);
        let q = (n - 1) as int;
        assert(p.npools == (q + blk - 1) / blk);
        if p.needs_growth() {
            // the cursor has consumed every cached handle: q is a multiple of
            // the block size, and one more batch must exist
            assert(q == p.npools * blk);
            assert(p.npools < batches.len()) by (nonlinear_arith)
                requires
                    q == p.npools * blk,
                    q + 1 <= batches.len() * blk,
                    blk > 0,
                    p.npools >= 0,
            ;
            assert(batches[p.npools as int].len() == BLOCK_SIZE);
            assert(m == p.grown(batches[p.npools as int]).advanced(1));
            assert(m.handles.len() == (p.npools + 1) * blk) by (nonlinear_arith)
                requires
                    m.handles.len() == p.npools * blk + blk,
                    blk > 0,
            ;
            assert(m.npools == (q + 1 + blk - 1) / blk) by (nonlinear_arith)
                requires
                    q == p.npools * blk,
                    m.npools == p.npools + 1,
                    blk == 50,
                    p.npools >= 0,
            ;
        } else {
            assert(q < p.handles.len());
            assert(m == p.advanced(1));
            assert(m.npools == (q + 1 + blk - 1) / blk) by (nonlinear_arith)
                requires
                    m.npools == p.npools,
                    p.npools == (q + blk - 1) / blk,
                    q < p.npools * blk,
                    q >= 0,
                    blk == 50,
            ;
        }
    }
}

/// Rewinding reuses what was already grown: after `reset`, the allocator
/// keeps every native pool and every cached handle, and each of the next
/// `pools * block_size` allocations (in particular the next full block) needs
/// no growth and returns exactly the handle first issued at that position,
/// in the same order.
pub proof fn lemma_reset_reuse(m: AllocatorModel)
    requires
        m.wf(),
        m.npools >= 1,
    ensures
        m.rewound().handles == m.handles,
        m.rewound().npools == m.npools,
        BLOCK_SIZE <= m.handles.len(),
        forall|i: nat|
            i < m.handles.len() ==> !(#[trigger] m.rewound().advanced(i)).needs_growth(),
        forall|i: nat|
            i < m.handles.len() ==> (#[trigger] m.rewound().advanced(i)).next_handle()
                == m.handles[i as int],
{
    assert(BLOCK_SIZE as int <= m.npools * m.block) by (nonlinear_arith)
        requires
            m.npools >= 1,
            m.block == BLOCK_SIZE,
    ;
    assert forall|i: nat| i < m.handles.len() implies !(#[trigger] m.rewound().advanced(
        i,
    )).needs_growth() by {
        assert(m.rewound().advanced(i).cursor == i);
    }
}

/// Owns a growable set of fixed-capacity native pools for one signature and
/// hands out pre-minted descriptor handles linearly. Growth is amortized:
/// each native pool serves exactly one block of consecutive allocations
/// before the next pool is created, and `reset` rewinds the cursor without
/// freeing anything, so earlier handles are reused in allocation order.
pub struct LinearPoolAllocator<C: ContextApi> {
    ctx: Context<C>,
    block_size: usize,
    pools: Vec<NativePool<<C as CreatePool>::PoolImpl>>,
    descriptors: Vec<DescriptorHandle>,
    // Infos
    views: ShaderViews,
    sizes: DescriptorSizes,
    current_allocations: usize,
}

impl<C: ContextApi> LinearPoolAllocator<C> {
    pub closed spec fn model(self) -> AllocatorModel {
        AllocatorModel {
            block: self.block_size as nat,
            cursor: self.current_allocations as nat,
            npools: self.pools@.len(),
            handles: self.descriptors@,
            views: self.views@,
        }
    }

    /// The sizes are always the ones derived from the signature, and the
    /// handle cache always holds exactly one block per owned pool, the cursor
    /// never past its end.
    pub closed spec fn wf(self) -> bool {
        &&& self.model().wf()
        &&& self.sizes.buffer as nat == count_type(self.views@, DescriptorType::Uniform)
        &&& self.sizes.storage as nat == count_type(self.views@, DescriptorType::Storage)
        &&& self.sizes.images == 0
    }

    /// Computes the signature's sizes once; starts with zero pools and a zero
    /// cursor.
    pub fn new(ctx: &Context<C>, views: ShaderViews) -> (r: Self)
        requires
            views@.len() <= u32::MAX,
        ensures
            r.wf(),
            r.model() == AllocatorModel::fresh(views@),
    {
        let sizes = DescriptorSizes::from_views(views.as_slice());
        let r = LinearPoolAllocator {
            ctx: ctx.clone(),
            block_size: BLOCK_SIZE,
            pools: Vec::new(),
            descriptors: Vec::new(),
            views,
            sizes,
            current_allocations: 0,
        };
        proof {
            assert(r.model() =~= AllocatorModel::fresh(r.views@));
        }
        r
    }

    /// Returns the cached handle at the cursor, growing the pool set by one
    /// native pool first if every cached handle has been handed out. Never
    /// returns a handle from an index not yet backed by an allocated pool.
    pub fn create_descriptor(&mut self) -> (r: DescriptorHandle)
        requires
            old(self).wf(),
        ensures
            final(self).wf(),
            alloc_step(old(self).model(), final(self).model(), r),
    {
        let allocator_index = self.current_allocations / self.block_size;
        // If we don't have enough space, we need to allocate a new pool
        if allocator_index >= self.pools.len() {
            proof {
                assert(self.current_allocations >= self.pools@.len() * self.block_size)
                    by (nonlinear_arith)
                    requires
                        self.block_size > 0,
                        self.current_allocations / self.block_size >= self.pools@.len(),
                ;
            }
            self.allocate_additional_pool();
        } else {
            proof {
                assert(self.current_allocations < self.pools@.len() * self.block_size)
                    by (nonlinear_arith)
                    requires
                        self.block_size > 0,
                        self.current_allocations / self.block_size < self.pools@.len(),
                ;
            }
        }
        let cached = self.descriptors.len();
        assert(self.current_allocations < cached);
        let handle = self.descriptors[self.current_allocations];
        self.current_allocations = self.current_allocations + 1;
        handle
    }

    /// Asks the context for one native pool sized for a block of this
    /// signature, mints the whole block of handles from it in one batch, and
    /// appends both. Pools are never shrunk or freed individually.
    pub fn allocate_additional_pool(&mut self)
        requires
            old(self).wf(),
        ensures
            final(self).wf(),
            final(self).model() == old(self).model().grown(
                final(self).model().handles.skip(old(self).model().handles.len() as int),
            ),
            final(self).model().handles.len() == old(self).model().handles.len() + BLOCK_SIZE,
    {
        let pool = self.ctx.context.create_pool(
            self.block_size as u32,
            self.views.as_slice(),
            self.sizes,
        );
        let mut descriptors = pool.inner.create_descriptor(self.block_size as u32);
        self.descriptors.append(&mut descriptors);
        self.pools.push(pool);
        proof {
            let fresh = self.descriptors@.skip(old(self).descriptors@.len() as int);
            assert(fresh =~= self.descriptors@.subrange(
                old(self).descriptors@.len() as int,
                self.descriptors@.len() as int,
            ));
            assert(self.descriptors@ =~= old(self).descriptors@ + fresh);
            assert(self.model() =~= old(self).model().grown(fresh));
            let oldlen = old(self).descriptors@.len();
            let oldpools = old(self).pools@.len();
            let blk = self.block_size as nat;
            assert(self.descriptors@.len() == self.pools@.len() * blk) by (nonlinear_arith)
                requires
                    self.descriptors@.len() == oldlen + blk,
                    oldlen == oldpools * blk,
                    self.pools@.len() == oldpools + 1,
            ;
        }
    }

    /// Rewinds the logical cursor to zero. Underlying native pools and their
    /// minted handles are untouched, so earlier handles become available for
    /// reuse in allocation order; the caller guarantees no handle issued
    /// before the reset is still in flight.
    pub fn reset(&mut self)
        ensures
            final(self).model() == old(self).model().rewound(),
            old(self).wf() ==> final(self).wf(),
    {
        self.current_allocations = 0;
        proof {
            assert(self.model() =~= old(self).model().rewound());
        }
    }

    /// How many native pools this allocator has grown so far.
    pub fn pool_count(&self) -> (n: usize)
        ensures
            n == self.model().npools,
    {
        self.pools.len()
    }

    /// The cursor: how many allocations have been served since the last
    /// reset.
    pub fn allocation_count(&self) -> (n: usize)
        ensures
            n == self.model().cursor,
    {
        self.current_allocations
    }

    /// How many handles are cached across all owned pools.
    pub fn handle_count(&self) -> (n: usize)
        ensures
            n == self.model().handles.len(),
    {
        self.descriptors.len()
    }
}

/// Compares two signatures binding by binding.
fn views_eq(a: &ShaderViews, b: &ShaderViews) -> (r: bool)
    ensures
        r <==> a@ == b@,
{
    if a.len() != b.len() {
        return false;
    }
    let mut i: usize = 0;
    while i < a.len()
        invariant
            a@.len() == b@.len(),
            i <= a@.len(),
            forall|j: int| 0 <= j < i ==> a@[j] == b@[j],
        decreases a@.len() - i,
    {
        if !(a[i] == b[i]) {
            return false;
        }
        i = i + 1;
    }
    proof {
        assert(a@ =~= b@);
    }
    true
}

/// Copies a signature element by element.
fn clone_views(v: &ShaderViews) -> (r: ShaderViews)
    ensures
        r@ == v@,
{
    let mut r: ShaderViews = Vec::new();
    let mut i: usize = 0;
    while i < v.len()
        invariant
            i <= v@.len(),
            r@ == v@.take(i as int),
        decreases v@.len() - i,
    {
        r.push(v[i]);
        proof {
            assert(v@.take(i as int).push(v@[i as int]) =~= v@.take(i + 1));
        }
        i = i + 1;
    }
    proof {
        assert(v@.take(v@.len() as int) =~= v@);
    }
    r
}

/// Routes descriptor write requests: one `LinearPoolAllocator` per distinct
/// signature, created lazily on first use and kept for the pool's lifetime.
pub struct Pool<C: ContextApi> {
    ctx: Context<C>,
    allocators: Vec<(ShaderViews, LinearPoolAllocator<C>)>,
}

impl<C: ContextApi> Pool<C> {
    /// The signatures that own an allocator, in order of first use.
    pub closed spec fn sigs(self) -> Seq<Seq<ShaderView>> {
        Seq::new(self.allocators@.len(), |i: int| self.allocators@[i].0@)
    }

    /// The model of the allocator serving the `i`-th signature.
    pub closed spec fn model_at(self, i: int) -> AllocatorModel {
        self.allocators@[i].1.model()
    }

    pub open spec fn has_sig(self, k: Seq<ShaderView>) -> bool {
        exists|i: int| 0 <= i < self.sigs().len() && self.sigs()[i] == k
    }

    pub open spec fn sig_index(self, k: Seq<ShaderView>) -> int {
        choose|i: int| 0 <= i < self.sigs().len() && self.sigs()[i] == k
    }

    /// Every allocator is well formed, serves exactly the signature it is
    /// keyed by, and no signature owns two allocators.
    pub closed spec fn wf(self) -> bool {
        &&& forall|i: int|
            0 <= i < self.allocators@.len() ==> (#[trigger] self.allocators@[i].1).wf()
        &&& forall|i: int|
            0 <= i < self.allocators@.len() ==> (#[trigger] self.allocators@[i].1.model()).views
                == self.allocators@[i].0@
        &&& forall|i: int, j: int|
            0 <= i < j < self.allocators@.len() ==> (#[trigger] self.sigs()[i]) != (
            #[trigger] self.sigs()[j])
    }

    /// At most one index carries any given signature.
    pub proof fn lemma_sig_index(self, k: Seq<ShaderView>, i: int)
        requires
            self.wf(),
            0 <= i < self.sigs().len(),
            self.sigs()[i] == k,
        ensures
            self.has_sig(k),
            self.sig_index(k) == i,
    {
        let j = self.sig_index(k);
        if j != i {
            if j < i {
                assert(self.sigs()[j] != self.sigs()[i]);
            } else {
                assert(self.sigs()[i] != self.sigs()[j]);
            }
        }
    }

    pub fn new(ctx: &Context<C>) -> (r: Self)
        ensures
            r.wf(),
            r.sigs().len() == 0,
    {
        Pool { ctx: ctx.clone(), allocators: Vec::new() }
    }

    /// Looks up (or lazily constructs) the allocator keyed by the request's
    /// signature, takes one handle from it, and issues the backend write for
    /// that handle with the request's bound values. Allocators of every other
    /// signature are left exactly as they were.
    pub fn allocate(&mut self, data: &Descriptor) -> (r: DescriptorHandle)
        requires
            old(self).wf(),
            data.views@.len() <= u32::MAX,
        ensures
            final(self).wf(),
            final(self).has_sig(data.views@),
            old(self).has_sig(data.views@) ==> final(self).sigs() == old(self).sigs()
                && final(self).sig_index(data.views@) == old(self).sig_index(data.views@),
            !old(self).has_sig(data.views@) ==> final(self).sigs() == old(self).sigs().push(
                data.views@,
            ),
            forall|j: int|
                0 <= j < old(self).sigs().len() && old(self).sigs()[j] != data.views@
                    ==> #[trigger] final(self).model_at(j) == old(self).model_at(j),
            alloc_step(
                if old(self).has_sig(data.views@) {
                    old(self).model_at(old(self).sig_index(data.views@))
                } else {
                    AllocatorModel::fresh(data.views@)
                },
                final(self).model_at(final(self).sig_index(data.views@)),
                r,
            ),
    {
        let mut idx: usize = 0;
        while idx < self.allocators.len() && !views_eq(&self.allocators[idx].0, &data.views)
            invariant
                *self == *old(self),
                idx <= self.allocators@.len(),
                forall|j: int| 0 <= j < idx ==> (#[trigger] self.sigs()[j]) != data.views@,
            decreases self.allocators@.len() - idx,
        {
            idx = idx + 1;
        }
        let ghost mut routed = *self;
        let ghost key = data.views@;
        if idx == self.allocators.len() {
            proof {
                assert(!old(self).has_sig(key));
            }
            let sig = clone_views(&data.views);
            let alloc = LinearPoolAllocator::new(&self.ctx, clone_views(&data.views));
            self.allocators.push((sig, alloc));
            proof {
                assert(self.sigs() =~= old(self).sigs().push(key));
                routed = *self;
            }
        } else {
            proof {
                old(self).lemma_sig_index(key, idx as int);
            }
        }
        // self.allocators[idx] now serves the signature
        proof {
            assert(routed.sigs()[idx as int] == key);
            routed.lemma_sig_index(key, idx as int);
        }
        let mut entry = self.allocators.remove(idx);
        let handle = entry.1.create_descriptor();
        self.allocators.insert(idx, entry);
        proof {
            assert(self.allocators@ =~= routed.allocators@.update(idx as int, self.allocators@[idx as int]));
            assert(self.sigs() =~= routed.sigs());
            self.lemma_sig_index(key, idx as int);
        }
        self.ctx.context.write(handle, data);
        handle
    }

    /// Rewinds every owned allocator, keeping all of them and all their
    /// pools; to be called once per pass or frame boundary.
    pub fn reset(&mut self)
        requires
            old(self).wf(),
        ensures
            final(self).wf(),
            final(self).sigs() == old(self).sigs(),
            forall|j: int|
                0 <= j < old(self).sigs().len() ==> #[trigger] final(self).model_at(j) == old(
                    self,
                ).model_at(j).rewound(),
    {
        let mut i: usize = 0;
        while i < self.allocators.len()
            invariant
                old(self).wf(),
                i <= self.allocators@.len(),
                self.allocators@.len() == old(self).allocators@.len(),
                self.sigs() == old(self).sigs(),
                forall|j: int|
                    0 <= j < i ==> #[trigger] self.model_at(j) == old(self).model_at(j).rewound(),
                forall|j: int|
                    i <= j < self.allocators@.len() ==> (#[trigger] self.allocators@[j]) == old(
                        self,
                    ).allocators@[j],
                forall|j: int|
                    0 <= j < self.allocators@.len() ==> (#[trigger] self.allocators@[j].1).wf()
                        && self.allocators@[j].1.model().views == self.allocators@[j].0@,
            decreases self.allocators@.len() - i,
        {
            let ghost before = *self;
            let mut entry = self.allocators.remove(i);
            entry.1.reset();
            self.allocators.insert(i, entry);
            proof {
                assert(self.allocators@ =~= before.allocators@.update(
                    i as int,
                    self.allocators@[i as int],
                ));
                assert(self.sigs() =~= before.sigs());
                assert(before.allocators@[i as int] == old(self).allocators@[i as int]);
                assert(self.allocators@[i as int].1.model() == old(self).allocators@[i as int
                ].1.model().rewound());
                assert forall|j: int|
                    0 <= j < i + 1 implies #[trigger] self.model_at(j) == old(self).model_at(
                    j,
                ).rewound() by {
                    if j < i as int {
                        assert(self.allocators@[j] == before.allocators@[j]);
                        assert(before.model_at(j) == old(self).model_at(j).rewound());
                    }
                }
            }
            i = i + 1;
        }
    }

    /// How many distinct signatures have an allocator.
    pub fn allocator_count(&self) -> (n: usize)
        ensures
            n == self.sigs().len(),
    {
        self.allocators.len()
    }
}

} // verus!
