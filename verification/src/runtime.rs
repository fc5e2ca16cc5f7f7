//! The differentiable-number runtime: an execution context owning an
//! index-based arena of (primal, adjoint) slots, an ordered list of slots to
//! clear on gradient reset, and an ordered backpropagation tape replayed in
//! reverse. A `Dual` is a handle (a slot index) valid for the owning
//! context; resetting the context invalidates all previously issued handles.
//!
//! The context records one tape entry per primitive call, in forward order.
//! Running the whole tape in reverse performs reverse-mode differentiation:
//! each entry reads the downstream slot's current adjoint and accumulates
//! (adds, never overwrites) its contribution into the upstream operand
//! slots, so a value consumed by several downstream sites receives the sum
//! over all uses.

use vstd::prelude::*;

verus! {

/// A scalar that the runtime can differentiate through. Implementors supply
/// the arithmetic together with its specification; the laws below say that
/// the implementor's zero is an additive identity and annihilates products,
/// quotients and negation, which the off-path-gradient guarantees rest on.
pub trait Differentiable: Copy + Sized {
    spec fn sp_zero() -> Self;

    spec fn sp_add(self, o: Self) -> Self;

    spec fn sp_sub(self, o: Self) -> Self;

    spec fn sp_mul(self, o: Self) -> Self;

    spec fn sp_div(self, o: Self) -> Self;

    spec fn sp_neg(self) -> Self;

    fn zero() -> (r: Self)
        ensures
            r == Self::sp_zero(),
    ;

    fn add(self, o: Self) -> (r: Self)
        ensures
            r == self.sp_add(o),
    ;

    fn sub(self, o: Self) -> (r: Self)
        ensures
            r == self.sp_sub(o),
    ;

    fn mul(self, o: Self) -> (r: Self)
        ensures
            r == self.sp_mul(o),
    ;

    fn div(self, o: Self) -> (r: Self)
        ensures
            r == self.sp_div(o),
    ;

    fn neg(self) -> (r: Self)
        ensures
            r == self.sp_neg(),
    ;

    /// Zero is an additive identity and annihilates the other operations.
    proof fn lemma_zero_laws(a: Self)
        ensures
            Self::sp_zero().sp_add(a) == a,
            a.sp_add(Self::sp_zero()) == a,
            Self::sp_zero().sp_mul(a) == Self::sp_zero(),
            a.sp_mul(Self::sp_zero()) == Self::sp_zero(),
            Self::sp_zero().sp_div(a) == Self::sp_zero(),
            Self::sp_zero().sp_neg() == Self::sp_zero(),
    ;
}

/// One recorded backpropagation thunk: which derivative rule to apply, the
/// downstream (output) slot `y`, and the upstream operand slots.
#[derive(Clone, Copy, Debug, PartialEq, Eq, Structural)]
pub enum TapeEntry {
    /// y = a (identity)
    Copy { y: usize, a: usize },
    /// y = -a
    Neg { y: usize, a: usize },
    /// y = a + b
    Add { y: usize, a: usize, b: usize },
    /// y = a - b
    Sub { y: usize, a: usize, b: usize },
    /// y = a * b
    Mul { y: usize, a: usize, b: usize },
    /// y = a / b
    Div { y: usize, a: usize, b: usize },
}

/// The downstream slot whose adjoint the entry reads.
pub open spec fn out_of(e: TapeEntry) -> usize {
    match e {
        TapeEntry::Copy { y, .. } => y,
        TapeEntry::Neg { y, .. } => y,
        TapeEntry::Add { y, .. } => y,
        TapeEntry::Sub { y, .. } => y,
        TapeEntry::Mul { y, .. } => y,
        TapeEntry::Div { y, .. } => y,
    }
}

/// Whether slot `s` is an upstream operand of the entry (a consumer of `s`).
pub open spec fn reads(e: TapeEntry, s: usize) -> bool {
    match e {
        TapeEntry::Copy { a, .. } => a == s,
        TapeEntry::Neg { a, .. } => a == s,
        TapeEntry::Add { a, b, .. } => a == s || b == s,
        TapeEntry::Sub { a, b, .. } => a == s || b == s,
        TapeEntry::Mul { a, b, .. } => a == s || b == s,
        TapeEntry::Div { a, b, .. } => a == s || b == s,
    }
}

/// Whether the list of registered slots holds index `i`.
pub open spec fn registered(resets: Seq<usize>, i: int) -> bool {
    exists|w: int| 0 <= w < resets.len() && resets[w] as int == i
}

/// All slots the entry mentions lie below `n`.
pub open spec fn entry_wf(e: TapeEntry, n: nat) -> bool {
    match e {
        TapeEntry::Copy { y, a } => y < n && a < n,
        TapeEntry::Neg { y, a } => y < n && a < n,
        TapeEntry::Add { y, a, b } => y < n && a < n && b < n,
        TapeEntry::Sub { y, a, b } => y < n && a < n && b < n,
        TapeEntry::Mul { y, a, b } => y < n && a < n && b < n,
        TapeEntry::Div { y, a, b } => y < n && a < n && b < n,
    }
}

/// The adjoints after one backward step over `e`: the entry reads the
/// downstream gradient `g = adj[y]` once, then adds its contribution into
/// each operand slot in turn. Derivative rules: identity and negation pass
/// `g` (negated) through; for `y = a + b` both operands receive `g`; for
/// `y = a - b` the subtrahend receives `-g`; for `y = a * b` each operand
/// receives the other's primal times `g`; for `y = a / b` the dividend
/// receives `g / b` and the divisor `-(g * a / (b * b))`.
pub open spec fn step_adjoints<T: Differentiable>(p: Seq<T>, adj: Seq<T>, e: TapeEntry) -> Seq<T> {
    match e {
        TapeEntry::Copy { y, a } => {
            let g = adj[y as int];
            adj.update(a as int, adj[a as int].sp_add(g))
        },
        TapeEntry::Neg { y, a } => {
            let g = adj[y as int];
            adj.update(a as int, adj[a as int].sp_add(g.sp_neg()))
        },
        TapeEntry::Add { y, a, b } => {
            let g = adj[y as int];
            let adj1 = adj.update(a as int, adj[a as int].sp_add(g));
            adj1.update(b as int, adj1[b as int].sp_add(g))
        },
        TapeEntry::Sub { y, a, b } => {
            let g = adj[y as int];
            let adj1 = adj.update(a as int, adj[a as int].sp_add(g));
            adj1.update(b as int, adj1[b as int].sp_add(g.sp_neg()))
        },
        TapeEntry::Mul { y, a, b } => {
            let g = adj[y as int];
            let adj1 = adj.update(a as int, adj[a as int].sp_add(p[b as int].sp_mul(g)));
            adj1.update(b as int, adj1[b as int].sp_add(p[a as int].sp_mul(g)))
        },
        TapeEntry::Div { y, a, b } => {
            let g = adj[y as int];
            let adj1 = adj.update(a as int, adj[a as int].sp_add(g.sp_div(p[b as int])));
            adj1.update(
                b as int,
                adj1[b as int].sp_add(g.sp_mul(p[a as int]).sp_div(p[b as int].sp_mul(p[b as int])).sp_neg()),
            )
        },
    }
}

/// The adjoints after replaying the whole tape in exact reverse of its
/// forward generation order: the last entry fires first.
pub open spec fn run_tape_rev<T: Differentiable>(
    p: Seq<T>,
    adj: Seq<T>,
    tape: Seq<TapeEntry>,
) -> Seq<T>
    decreases tape.len(),
{
    if tape.len() == 0 {
        adj
    } else {
        run_tape_rev(p, step_adjoints(p, adj, tape.last()), tape.drop_last())
    }
}

/// A handle to one (primal, adjoint) slot of a context's arena. It is an
/// index: it stays meaningful only until the owning context is reset.
#[derive(Clone, Copy, Debug, PartialEq, Eq, Structural)]
pub struct Dual {
    pub slot: usize,
}

/// Either of two alternatives; tags which conditional arm was executed and
/// owns that arm's result.
pub enum Two<A, B> {
    A(A),
    B(B),
}

/// The execution context for one forward-then-backward episode: the arena
/// of slots, the ordered reset list, and the ordered backpropagation tape.
pub struct AdContext<T: Differentiable> {
    primal: Vec<T>,
    adjoint: Vec<T>,
    reset_grads: Vec<usize>,
    back_propagators: Vec<TapeEntry>,
}

impl<T: Differentiable> AdContext<T> {
    /// Number of slots allocated so far.
    pub closed spec fn len(&self) -> nat {
        self.primal@.len()
    }

    /// The primal value of every slot, in allocation order.
    pub closed spec fn primals(&self) -> Seq<T> {
        self.primal@
    }

    /// The adjoint value of every slot, in allocation order.
    pub closed spec fn adjoints(&self) -> Seq<T> {
        self.adjoint@
    }

    /// The slots registered for gradient reset, in registration order.
    pub closed spec fn reset_list(&self) -> Seq<usize> {
        self.reset_grads@
    }

    /// The recorded tape, in forward generation order.
    pub closed spec fn tape(&self) -> Seq<TapeEntry> {
        self.back_propagators@
    }

    /// Every slot has both halves and every recorded index is in range.
    pub closed spec fn wf(&self) -> bool {
        &&& self.adjoint@.len() == self.primal@.len()
        &&& forall|i: int|
            0 <= i < self.back_propagators@.len() ==> entry_wf(
                #[trigger] self.back_propagators@[i],
                self.primal@.len(),
            )
        &&& forall|i: int|
            0 <= i < self.reset_grads@.len() ==> (#[trigger] self.reset_grads@[i]) < self.primal@.len()
    }

    /// The arena keeps primal and adjoint halves in step.
    pub proof fn lemma_wf_lengths(&self)
        requires
            self.wf(),
        ensures
            self.primals().len() == self.len(),
            self.adjoints().len() == self.len(),
    {
    }

    /// A fresh context: empty arena, empty reset list, empty tape.
    pub fn new() -> (ctx: Self)
        ensures
            ctx.wf(),
            ctx.len() == 0,
            ctx.reset_list() == Seq::<usize>::empty(),
            ctx.tape() == Seq::<TapeEntry>::empty(),
    {
        AdContext {
            primal: Vec::new(),
            adjoint: Vec::new(),
            reset_grads: Vec::new(),
            back_propagators: Vec::new(),
        }
    }

    /// Allocates one slot holding `primal` with a zero adjoint.
    pub fn alloc_slot(&mut self, primal: T) -> (d: Dual)
        requires
            old(self).wf(),
        ensures
            final(self).wf(),
            d.slot == old(self).len(),
            final(self).primals() == old(self).primals().push(primal),
            final(self).adjoints() == old(self).adjoints().push(T::sp_zero()),
            final(self).reset_list() == old(self).reset_list(),
            final(self).tape() == old(self).tape(),
    {
        let d = Dual { slot: self.primal.len() };
        self.primal.push(primal);
        self.adjoint.push(T::zero());
        d
    }

    /// Registers a slot whose adjoint `zero_grad` will clear.
    pub fn push_reset_grad_func(&mut self, d: Dual)
        requires
            old(self).wf(),
            d.slot < old(self).len(),
        ensures
            final(self).wf(),
            final(self).reset_list() == old(self).reset_list().push(d.slot),
            final(self).primals() == old(self).primals(),
            final(self).adjoints() == old(self).adjoints(),
            final(self).tape() == old(self).tape(),
    {
        self.reset_grads.push(d.slot);
    }

    /// Appends one thunk to the tape, in forward order.
    pub fn push_back_propagator(&mut self, e: TapeEntry)
        requires
            old(self).wf(),
            entry_wf(e, old(self).len()),
        ensures
            final(self).wf(),
            final(self).tape() == old(self).tape().push(e),
            final(self).primals() == old(self).primals(),
            final(self).adjoints() == old(self).adjoints(),
            final(self).reset_list() == old(self).reset_list(),
    {
        self.back_propagators.push(e);
    }

    /// Clears the adjoint of every registered slot, in registration order.
    pub fn zero_grad(&mut self)
        requires
            old(self).wf(),
        ensures
            final(self).wf(),
            final(self).primals() == old(self).primals(),
            final(self).reset_list() == old(self).reset_list(),
            final(self).tape() == old(self).tape(),
            final(self).adjoints().len() == old(self).adjoints().len(),
            forall|i: int|
                0 <= i < old(self).len() ==> final(self).adjoints()[i] == if registered(
                    old(self).reset_list(),
                    i,
                ) {
                    T::sp_zero()
                } else {
                    old(self).adjoints()[i]
                },
    {
        let ghost orig = *self;
        let n = self.reset_grads.len();
        let mut k: usize = 0;
        while k < n
            invariant
                n == orig.reset_list().len(),
                k <= n,
                self.primal@ == orig.primals(),
                self.reset_grads@ == orig.reset_list(),
                self.back_propagators@ == orig.tape(),
                self.adjoint@.len() == orig.adjoints().len(),
                orig.wf(),
                forall|i: int|
                    0 <= i < orig.len() ==> self.adjoint@[i] == if registered(
                        orig.reset_list().subrange(0, k as int),
                        i,
                    ) {
                        T::sp_zero()
                    } else {
                        orig.adjoints()[i]
                    },
            decreases n - k,
        {
            let s = self.reset_grads[k];
            self.adjoint[s] = T::zero();
            proof {
                let pre = orig.reset_list().subrange(0, k as int);
                let post = orig.reset_list().subrange(0, k as int + 1);
                assert(post.drop_last() =~= pre);
                assert(post.last() == s);
                assert forall|i: int| 0 <= i < orig.len() implies self.adjoint@[i] == if registered(
                    post,
                    i,
                ) {
                    T::sp_zero()
                } else {
                    orig.adjoints()[i]
                } by {
                    if i == s as int {
                        assert(post[k as int] as int == i);
                        assert(registered(post, i));
                    } else {
                        if registered(post, i) {
                            let w = choose|w: int| 0 <= w < post.len() && post[w] as int == i;
                            assert(post[k as int] == s);
                            assert(w != k as int);
                            assert(pre[w] as int == i);
                            assert(registered(pre, i));
                        } else if registered(pre, i) {
                            let w = choose|w: int| 0 <= w < pre.len() && pre[w] as int == i;
                            assert(post[w] as int == i);
                            assert(registered(post, i));
                        }
                    }
                }
            }
            k = k + 1;
        }
        proof {
            assert(orig.reset_list().subrange(0, n as int) =~= orig.reset_list());
        }
    }

    /// Runs the tape in exact reverse of its forward generation order.
    pub fn backward(&mut self)
        requires
            old(self).wf(),
        ensures
            final(self).wf(),
            final(self).primals() == old(self).primals(),
            final(self).reset_list() == old(self).reset_list(),
            final(self).tape() == old(self).tape(),
            final(self).adjoints() == run_tape_rev(
                old(self).primals(),
                old(self).adjoints(),
                old(self).tape(),
            ),
    {
        let ghost orig = *self;
        let mut k: usize = self.back_propagators.len();
        proof {
            assert(orig.tape().subrange(0, orig.tape().len() as int) =~= orig.tape());
        }
        while k > 0
            invariant
                k <= orig.tape().len(),
                self.primal@ == orig.primals(),
                self.reset_grads@ == orig.reset_list(),
                self.back_propagators@ == orig.tape(),
                self.adjoint@.len() == orig.adjoints().len(),
                orig.wf(),
                run_tape_rev(orig.primals(), orig.adjoints(), orig.tape()) == run_tape_rev(
                    orig.primals(),
                    self.adjoint@,
                    orig.tape().subrange(0, k as int),
                ),
            decreases k,
        {
            k = k - 1;
            let ghost pre_adj = self.adjoint@;
            let e = self.back_propagators[k];
            proof {
                assert(entry_wf(e, orig.primals().len()));
            }
            match e {
                TapeEntry::Copy { y, a } => {
                    let g = self.adjoint[y];
                    self.adjoint[a] = self.adjoint[a].add(g);
                },
                TapeEntry::Neg { y, a } => {
                    let g = self.adjoint[y];
                    self.adjoint[a] = self.adjoint[a].add(g.neg());
                },
                TapeEntry::Add { y, a, b } => {
                    let g = self.adjoint[y];
                    self.adjoint[a] = self.adjoint[a].add(g);
                    self.adjoint[b] = self.adjoint[b].add(g);
                },
                TapeEntry::Sub { y, a, b } => {
                    let g = self.adjoint[y];
                    self.adjoint[a] = self.adjoint[a].add(g);
                    self.adjoint[b] = self.adjoint[b].add(g.neg());
                },
                TapeEntry::Mul { y, a, b } => {
                    let g = self.adjoint[y];
                    let pa = self.primal[a];
                    let pb = self.primal[b];
                    self.adjoint[a] = self.adjoint[a].add(pb.mul(g));
                    self.adjoint[b] = self.adjoint[b].add(pa.mul(g));
                },
                TapeEntry::Div { y, a, b } => {
                    let g = self.adjoint[y];
                    let pa = self.primal[a];
                    let pb = self.primal[b];
                    self.adjoint[a] = self.adjoint[a].add(g.div(pb));
                    self.adjoint[b] = self.adjoint[b].add(g.mul(pa).div(pb.mul(pb)).neg());
                },
            }
            proof {
                assert(self.adjoint@ =~= step_adjoints(orig.primals(), pre_adj, e));
                let sub1 = orig.tape().subrange(0, k as int + 1);
                assert(sub1.last() == e);
                assert(sub1.drop_last() =~= orig.tape().subrange(0, k as int));
            }
        }
        proof {
            assert(orig.tape().subrange(0, 0) =~= Seq::<TapeEntry>::empty());
        }
    }

    /// Resets the whole context: truncates the arena and clears both lists.
    /// Every previously issued handle is invalidated.
    pub fn reset(&mut self)
        ensures
            final(self).wf(),
            final(self).len() == 0,
            final(self).reset_list() == Seq::<usize>::empty(),
            final(self).tape() == Seq::<TapeEntry>::empty(),
    {
        self.primal.clear();
        self.adjoint.clear();
        self.reset_grads.clear();
        self.back_propagators.clear();
    }

    /// Computes `a + b` into a fresh slot and records its thunk.
    pub fn add_ad(&mut self, a: Dual, b: Dual) -> (y: Dual)
        requires
            old(self).wf(),
            a.slot < old(self).len(),
            b.slot < old(self).len(),
        ensures
            final(self).wf(),
            y.slot == old(self).len(),
            final(self).primals() == old(self).primals().push(
                old(self).primals()[a.slot as int].sp_add(old(self).primals()[b.slot as int]),
            ),
            final(self).adjoints() == old(self).adjoints().push(T::sp_zero()),
            final(self).tape() == old(self).tape().push(
                TapeEntry::Add { y: y.slot, a: a.slot, b: b.slot },
            ),
            final(self).reset_list() == old(self).reset_list(),
    {
        let v = self.primal[a.slot].add(self.primal[b.slot]);
        let y = self.alloc_slot(v);
        self.push_back_propagator(TapeEntry::Add { y: y.slot, a: a.slot, b: b.slot });
        y
    }

    /// Computes `a - b` into a fresh slot and records its thunk.
    pub fn sub_ad(&mut self, a: Dual, b: Dual) -> (y: Dual)
        requires
            old(self).wf(),
            a.slot < old(self).len(),
            b.slot < old(self).len(),
        ensures
            final(self).wf(),
            y.slot == old(self).len(),
            final(self).primals() == old(self).primals().push(
                old(self).primals()[a.slot as int].sp_sub(old(self).primals()[b.slot as int]),
            ),
            final(self).adjoints() == old(self).adjoints().push(T::sp_zero()),
            final(self).tape() == old(self).tape().push(
                TapeEntry::Sub { y: y.slot, a: a.slot, b: b.slot },
            ),
            final(self).reset_list() == old(self).reset_list(),
    {
        let v = self.primal[a.slot].sub(self.primal[b.slot]);
        let y = self.alloc_slot(v);
        self.push_back_propagator(TapeEntry::Sub { y: y.slot, a: a.slot, b: b.slot });
        y
    }

    /// Computes `a * b` into a fresh slot and records its thunk.
    pub fn mul_ad(&mut self, a: Dual, b: Dual) -> (y: Dual)
        requires
            old(self).wf(),
            a.slot < old(self).len(),
            b.slot < old(self).len(),
        ensures
            final(self).wf(),
            y.slot == old(self).len(),
            final(self).primals() == old(self).primals().push(
                old(self).primals()[a.slot as int].sp_mul(old(self).primals()[b.slot as int]),
            ),
            final(self).adjoints() == old(self).adjoints().push(T::sp_zero()),
            final(self).tape() == old(self).tape().push(
                TapeEntry::Mul { y: y.slot, a: a.slot, b: b.slot },
            ),
            final(self).reset_list() == old(self).reset_list(),
    {
        let v = self.primal[a.slot].mul(self.primal[b.slot]);
        let y = self.alloc_slot(v);
        self.push_back_propagator(TapeEntry::Mul { y: y.slot, a: a.slot, b: b.slot });
        y
    }

    /// Computes `a / b` into a fresh slot and records its thunk.
    pub fn div_ad(&mut self, a: Dual, b: Dual) -> (y: Dual)
        requires
            old(self).wf(),
            a.slot < old(self).len(),
            b.slot < old(self).len(),
        ensures
            final(self).wf(),
            y.slot == old(self).len(),
            final(self).primals() == old(self).primals().push(
                old(self).primals()[a.slot as int].sp_div(old(self).primals()[b.slot as int]),
            ),
            final(self).adjoints() == old(self).adjoints().push(T::sp_zero()),
            final(self).tape() == old(self).tape().push(
                TapeEntry::Div { y: y.slot, a: a.slot, b: b.slot },
            ),
            final(self).reset_list() == old(self).reset_list(),
    {
        let v = self.primal[a.slot].div(self.primal[b.slot]);
        let y = self.alloc_slot(v);
        self.push_back_propagator(TapeEntry::Div { y: y.slot, a: a.slot, b: b.slot });
        y
    }

    /// Computes `-a` into a fresh slot and records its thunk.
    pub fn neg_ad(&mut self, a: Dual) -> (y: Dual)
        requires
            old(self).wf(),
            a.slot < old(self).len(),
        ensures
            final(self).wf(),
            y.slot == old(self).len(),
            final(self).primals() == old(self).primals().push(
                old(self).primals()[a.slot as int].sp_neg(),
            ),
            final(self).adjoints() == old(self).adjoints().push(T::sp_zero()),
            final(self).tape() == old(self).tape().push(TapeEntry::Neg { y: y.slot, a: a.slot }),
            final(self).reset_list() == old(self).reset_list(),
    {
        let v = self.primal[a.slot].neg();
        let y = self.alloc_slot(v);
        self.push_back_propagator(TapeEntry::Neg { y: y.slot, a: a.slot });
        y
    }
}

impl Dual {
    /// Allocates a slot holding `primal` with a zero adjoint.
    pub fn new<T: Differentiable>(ctx: &mut AdContext<T>, primal: T) -> (d: Dual)
        requires
            old(ctx).wf(),
        ensures
            final(ctx).wf(),
            d.slot == old(ctx).len(),
            final(ctx).primals() == old(ctx).primals().push(primal),
            final(ctx).adjoints() == old(ctx).adjoints().push(T::sp_zero()),
            final(ctx).reset_list() == old(ctx).reset_list(),
            final(ctx).tape() == old(ctx).tape(),
    {
        ctx.alloc_slot(primal)
    }

    /// Allocates a slot holding zero.
    pub fn zero<T: Differentiable>(ctx: &mut AdContext<T>) -> (d: Dual)
        requires
            old(ctx).wf(),
        ensures
            final(ctx).wf(),
            d.slot == old(ctx).len(),
            final(ctx).primals() == old(ctx).primals().push(T::sp_zero()),
            final(ctx).adjoints() == old(ctx).adjoints().push(T::sp_zero()),
            final(ctx).reset_list() == old(ctx).reset_list(),
            final(ctx).tape() == old(ctx).tape(),
    {
        ctx.alloc_slot(T::zero())
    }

    /// Reads the slot's primal.
    pub fn primal<T: Differentiable>(&self, ctx: &AdContext<T>) -> (r: T)
        requires
            ctx.wf(),
            self.slot < ctx.len(),
        ensures
            r == ctx.primals()[self.slot as int],
    {
        ctx.primal[self.slot]
    }

    /// Reads the slot's adjoint.
    pub fn adjoint<T: Differentiable>(&self, ctx: &AdContext<T>) -> (r: T)
        requires
            ctx.wf(),
            self.slot < ctx.len(),
        ensures
            r == ctx.adjoints()[self.slot as int],
    {
        ctx.adjoint[self.slot]
    }

    /// Accumulates `gradient` into the slot's adjoint (adds, never overwrites).
    pub fn add_gradient<T: Differentiable>(&self, ctx: &mut AdContext<T>, gradient: T)
        requires
            old(ctx).wf(),
            self.slot < old(ctx).len(),
        ensures
            final(ctx).wf(),
            final(ctx).primals() == old(ctx).primals(),
            final(ctx).reset_list() == old(ctx).reset_list(),
            final(ctx).tape() == old(ctx).tape(),
            final(ctx).adjoints() == old(ctx).adjoints().update(
                self.slot as int,
                old(ctx).adjoints()[self.slot as int].sp_add(gradient),
            ),
    {
        let v = ctx.adjoint[self.slot].add(gradient);
        ctx.adjoint[self.slot] = v;
    }

    /// Clears the slot's adjoint.
    pub fn reset_grad<T: Differentiable>(&self, ctx: &mut AdContext<T>)
        requires
            old(ctx).wf(),
            self.slot < old(ctx).len(),
        ensures
            final(ctx).wf(),
            final(ctx).primals() == old(ctx).primals(),
            final(ctx).reset_list() == old(ctx).reset_list(),
            final(ctx).tape() == old(ctx).tape(),
            final(ctx).adjoints() == old(ctx).adjoints().update(self.slot as int, T::sp_zero()),
    {
        ctx.adjoint[self.slot] = T::zero();
    }

    /// Overwrites the slot's primal.
    pub fn set_primal<T: Differentiable>(&self, ctx: &mut AdContext<T>, rhs: T)
        requires
            old(ctx).wf(),
            self.slot < old(ctx).len(),
        ensures
            final(ctx).wf(),
            final(ctx).adjoints() == old(ctx).adjoints(),
            final(ctx).reset_list() == old(ctx).reset_list(),
            final(ctx).tape() == old(ctx).tape(),
            final(ctx).primals() == old(ctx).primals().update(self.slot as int, rhs),
    {
        ctx.primal[self.slot] = rhs;
    }
}


/// The value of slot `s` after one backward step over `e`, given the slot's
/// prior value `v` and the downstream gradient `g`: the entry's contribution
/// for each operand position naming `s` is added in turn, never overwritten.
pub open spec fn accumulated<T: Differentiable>(v: T, p: Seq<T>, g: T, e: TapeEntry, s: usize) -> T {
    match e {
        TapeEntry::Copy { a, .. } => if a == s { v.sp_add(g) } else { v },
        TapeEntry::Neg { a, .. } => if a == s { v.sp_add(g.sp_neg()) } else { v },
        TapeEntry::Add { a, b, .. } => {
            let v1 = if a == s { v.sp_add(g) } else { v };
            if b == s { v1.sp_add(g) } else { v1 }
        },
        TapeEntry::Sub { a, b, .. } => {
            let v1 = if a == s { v.sp_add(g) } else { v };
            if b == s { v1.sp_add(g.sp_neg()) } else { v1 }
        },
        TapeEntry::Mul { a, b, .. } => {
            let v1 = if a == s { v.sp_add(p[b as int].sp_mul(g)) } else { v };
            if b == s { v1.sp_add(p[a as int].sp_mul(g)) } else { v1 }
        },
        TapeEntry::Div { a, b, .. } => {
            let v1 = if a == s { v.sp_add(g.sp_div(p[b as int])) } else { v };
            if b == s {
                v1.sp_add(g.sp_mul(p[a as int]).sp_div(p[b as int].sp_mul(p[b as int])).sp_neg())
            } else {
                v1
            }
        },
    }
}

/// A backward step only accumulates: a slot other than the entry's own
/// output ends with exactly its prior value plus the entry's contributions.
pub proof fn lemma_step_reads_accumulate<T: Differentiable>(
    p: Seq<T>,
    adj: Seq<T>,
    e: TapeEntry,
    s: usize,
)
    requires
        adj.len() == p.len(),
        entry_wf(e, adj.len()),
        (s as int) < adj.len(),
        s != out_of(e),
    ensures
        step_adjoints(p, adj, e).len() == adj.len(),
        step_adjoints(p, adj, e)[s as int] == accumulated(
            adj[s as int],
            p,
            adj[out_of(e) as int],
            e,
            s,
        ),
{
}

/// A backward step leaves every slot it does not read unchanged.
pub proof fn lemma_step_untouched<T: Differentiable>(
    p: Seq<T>,
    adj: Seq<T>,
    e: TapeEntry,
    s: usize,
)
    requires
        adj.len() == p.len(),
        entry_wf(e, adj.len()),
        (s as int) < adj.len(),
        !reads(e, s),
    ensures
        step_adjoints(p, adj, e).len() == adj.len(),
        step_adjoints(p, adj, e)[s as int] == adj[s as int],
{
}

/// Diamond accumulation: when two recorded consumers each read slot `x`, a
/// full backward pass over both leaves `x` with the sum of both consumers'
/// contributions: the later consumer's contribution is added first and the
/// earlier consumer's is added on top of it; neither overwrites the other.
/// (The one proviso is that the later consumer must not feed the earlier
/// consumer's own output slot, which single-assignment forward order
/// guarantees.)
pub proof fn lemma_diamond_accumulation<T: Differentiable>(
    p: Seq<T>,
    adj: Seq<T>,
    e1: TapeEntry,
    e2: TapeEntry,
    x: usize,
)
    requires
        adj.len() == p.len(),
        entry_wf(e1, adj.len()),
        entry_wf(e2, adj.len()),
        reads(e1, x),
        reads(e2, x),
        x != out_of(e1),
        x != out_of(e2),
        !reads(e2, out_of(e1)),
    ensures
        run_tape_rev(p, adj, seq![e1, e2]).len() == adj.len(),
        run_tape_rev(p, adj, seq![e1, e2])[x as int] == accumulated(
            accumulated(adj[x as int], p, adj[out_of(e2) as int], e2, x),
            p,
            adj[out_of(e1) as int],
            e1,
            x,
        ),
{
    let t = seq![e1, e2];
    let after2 = step_adjoints(p, adj, e2);
    assert(t.last() == e2);
    assert(t.drop_last() =~= seq![e1]);
    lemma_step_reads_accumulate(p, adj, e2, x);
    lemma_step_untouched(p, adj, e2, out_of(e1));
    assert(seq![e1].last() == e1);
    assert(seq![e1].drop_last() =~= Seq::<TapeEntry>::empty());
    lemma_step_reads_accumulate(p, after2, e1, x);
    assert(run_tape_rev(p, adj, t) == run_tape_rev(p, after2, seq![e1]));
    assert(run_tape_rev(p, after2, seq![e1]) == run_tape_rev(
        p,
        step_adjoints(p, after2, e1),
        seq![e1].drop_last(),
    ));
    assert(run_tape_rev(p, step_adjoints(p, after2, e1), Seq::<TapeEntry>::empty())
        == step_adjoints(p, after2, e1));
}

/// One backward step of the dependency path: an entry whose output is on
/// the path puts its operands on the path.
pub open spec fn step_live(e: TapeEntry, live: Set<usize>) -> Set<usize> {
    if live.contains(out_of(e)) {
        match e {
            TapeEntry::Copy { a, .. } => live.insert(a),
            TapeEntry::Neg { a, .. } => live.insert(a),
            TapeEntry::Add { a, b, .. } => live.insert(a).insert(b),
            TapeEntry::Sub { a, b, .. } => live.insert(a).insert(b),
            TapeEntry::Mul { a, b, .. } => live.insert(a).insert(b),
            TapeEntry::Div { a, b, .. } => live.insert(a).insert(b),
        }
    } else {
        live
    }
}

/// The slots on the dependency path to any slot of `live`, walking the
/// tape in the order the backward pass does.
pub open spec fn live_slots(tape: Seq<TapeEntry>, live: Set<usize>) -> Set<usize>
    decreases tape.len(),
{
    if tape.len() == 0 {
        live
    } else {
        live_slots(tape.drop_last(), step_live(tape.last(), live))
    }
}

/// Every slot off the path `live` has a zero adjoint.
pub open spec fn zeros_off_path<T: Differentiable>(adj: Seq<T>, live: Set<usize>) -> bool {
    forall|i: usize| i < adj.len() && !live.contains(i) ==> adj[i as int] == T::sp_zero()
}

proof fn lemma_step_preserves_zeros<T: Differentiable>(
    p: Seq<T>,
    adj: Seq<T>,
    e: TapeEntry,
    live: Set<usize>,
)
    requires
        adj.len() == p.len(),
        entry_wf(e, adj.len()),
        zeros_off_path(adj, live),
    ensures
        step_adjoints(p, adj, e).len() == adj.len(),
        zeros_off_path(step_adjoints(p, adj, e), step_live(e, live)),
{
    let y = out_of(e);
    let next = step_adjoints(p, adj, e);
    let live2 = step_live(e, live);
    if live.contains(y) {
        assert forall|i: usize| i < next.len() && !live2.contains(i) implies next[i as int]
            == T::sp_zero() by {
            assert(!reads(e, i));
            lemma_step_untouched(p, adj, e, i);
        }
    } else {
        let g = adj[y as int];
        assert(g == T::sp_zero());
        assert forall|i: usize| i < next.len() && !live2.contains(i) implies next[i as int]
            == T::sp_zero() by {
            if reads(e, i) {
                match e {
                    TapeEntry::Copy { y, a } => {
                        T::lemma_zero_laws(adj[a as int]);
                    },
                    TapeEntry::Neg { y, a } => {
                        T::lemma_zero_laws(adj[a as int]);
                    },
                    TapeEntry::Add { y, a, b } => {
                        let adj1 = adj.update(a as int, adj[a as int].sp_add(g));
                        T::lemma_zero_laws(adj[a as int]);
                        T::lemma_zero_laws(adj1[b as int]);
                    },
                    TapeEntry::Sub { y, a, b } => {
                        let adj1 = adj.update(a as int, adj[a as int].sp_add(g));
                        T::lemma_zero_laws(adj[a as int]);
                        T::lemma_zero_laws(adj1[b as int]);
                    },
                    TapeEntry::Mul { y, a, b } => {
                        let adj1 = adj.update(
                            a as int,
                            adj[a as int].sp_add(p[b as int].sp_mul(g)),
                        );
                        T::lemma_zero_laws(p[a as int]);
                        T::lemma_zero_laws(p[b as int]);
                        T::lemma_zero_laws(adj[a as int]);
                        T::lemma_zero_laws(adj1[b as int]);
                    },
                    TapeEntry::Div { y, a, b } => {
                        let adj1 = adj.update(a as int, adj[a as int].sp_add(g.sp_div(p[b as int])));
                        T::lemma_zero_laws(p[a as int]);
                        T::lemma_zero_laws(p[b as int]);
                        T::lemma_zero_laws(p[b as int].sp_mul(p[b as int]));
                        T::lemma_zero_laws(adj[a as int]);
                        T::lemma_zero_laws(adj1[b as int]);
                    },
                }
            } else {
                lemma_step_untouched(p, adj, e, i);
            }
        }
    }
}

proof fn lemma_run_preserves_zeros<T: Differentiable>(
    p: Seq<T>,
    adj: Seq<T>,
    tape: Seq<TapeEntry>,
    live: Set<usize>,
)
    requires
        adj.len() == p.len(),
        forall|i: int| 0 <= i < tape.len() ==> entry_wf(#[trigger] tape[i], adj.len()),
        zeros_off_path(adj, live),
    ensures
        run_tape_rev(p, adj, tape).len() == adj.len(),
        zeros_off_path(run_tape_rev(p, adj, tape), live_slots(tape, live)),
    decreases tape.len(),
{
    if tape.len() > 0 {
        let e = tape.last();
        assert(e == tape[tape.len() - 1]);
        lemma_step_preserves_zeros(p, adj, e, live);
        let rest = tape.drop_last();
        assert(forall|i: int| 0 <= i < rest.len() ==> rest[i] == tape[i]);
        lemma_run_preserves_zeros(p, step_adjoints(p, adj, e), rest, step_live(e, live));
    }
}

/// After a reset followed by seeding only the output slot's adjoint, a full
/// backward pass leaves every slot that is not on the dependency path from
/// the output with a zero adjoint.
pub proof fn lemma_off_path_adjoints_zero<T: Differentiable>(
    p: Seq<T>,
    adj: Seq<T>,
    tape: Seq<TapeEntry>,
    out: usize,
)
    requires
        adj.len() == p.len(),
        forall|i: int| 0 <= i < tape.len() ==> entry_wf(#[trigger] tape[i], adj.len()),
        forall|i: int| 0 <= i < adj.len() && i != out as int ==> adj[i] == T::sp_zero(),
    ensures
        run_tape_rev(p, adj, tape).len() == adj.len(),
        forall|i: usize|
            i < adj.len() && !live_slots(tape, Set::empty().insert(out)).contains(i)
                ==> run_tape_rev(p, adj, tape)[i as int] == T::sp_zero(),
{
    let live0 = Set::empty().insert(out);
    assert(zeros_off_path(adj, live0));
    lemma_run_preserves_zeros(p, adj, tape, live0);
}

} // verus!

