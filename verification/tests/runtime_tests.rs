// The differentiable-number runtime, driven as the original hand-written
// adjoint functions drive it: forward calls allocate slots and record
// thunks, the output adjoint is seeded, and the tape runs in reverse.

use akari_ad::runtime::{AdContext, Differentiable, Dual, Two};

/// The scalar under differentiation: a single-precision float.
#[derive(Clone, Copy, Debug, PartialEq)]
struct F(f32);

impl Differentiable for F {
    fn sp_zero() -> F {
        F(0.0)
    }
    fn sp_add(self, o: F) -> F {
        F(self.0 + o.0)
    }
    fn sp_sub(self, o: F) -> F {
        F(self.0 - o.0)
    }
    fn sp_mul(self, o: F) -> F {
        F(self.0 * o.0)
    }
    fn sp_div(self, o: F) -> F {
        F(self.0 / o.0)
    }
    fn sp_neg(self) -> F {
        F(-self.0)
    }
    fn lemma_zero_laws(_a: F) {}
    fn zero() -> F {
        F(0.0)
    }
    fn add(self, o: F) -> F {
        F(self.0 + o.0)
    }
    fn sub(self, o: F) -> F {
        F(self.0 - o.0)
    }
    fn mul(self, o: F) -> F {
        F(self.0 * o.0)
    }
    fn div(self, o: F) -> F {
        F(self.0 / o.0)
    }
    fn neg(self) -> F {
        F(-self.0)
    }
}

fn sqr(x: f32) -> f32 {
    x * x
}

fn sqr_ad(ctx: &mut AdContext<F>, x: Dual) -> Dual {
    let y = ctx.mul_ad(x, x);
    ctx.push_reset_grad_func(y);
    y
}

fn pow4(x: f32) -> f32 {
    sqr(sqr(x))
}

fn pow4_ad(ctx: &mut AdContext<F>, x: Dual) -> Dual {
    let x2 = sqr_ad(ctx, x);
    let x4 = sqr_ad(ctx, x2);
    x4
}

fn g(x: f32) -> f32 {
    if x > 1.0 {
        pow4(x)
    } else {
        sqr(x)
    }
}

fn g_ad(ctx: &mut AdContext<F>, x: Dual) -> Dual {
    let tmp = if x.primal(ctx).0 > 1.0 {
        Two::A(pow4_ad(ctx, x))
    } else {
        Two::B(sqr_ad(ctx, x))
    };
    match tmp {
        Two::A(ret) => ret,
        Two::B(ret) => ret,
    }
}

#[test]
fn test_sqr() {
    let x = 2.0;
    let y = sqr(x);
    let mut ctx = AdContext::new();
    let dualx = Dual::new(&mut ctx, F(x));
    let dualy = sqr_ad(&mut ctx, dualx);
    dualy.add_gradient(&mut ctx, F(1.0));
    ctx.backward();
    assert!((y - 4.0).abs() < 1e-4);
    assert!((dualx.adjoint(&ctx).0 - 2.0 * x).abs() < 1e-4);
}

#[test]
fn test_sqr2() {
    let x = 2.0;
    let y = sqr(sqr(x));
    let mut ctx = AdContext::new();
    let dualx = Dual::new(&mut ctx, F(x));
    let dualy = sqr_ad(&mut ctx, dualx);
    let dualy = sqr_ad(&mut ctx, dualy);
    dualy.add_gradient(&mut ctx, F(1.0));
    ctx.backward();
    assert!((y - 16.0).abs() < 1e-4);
    assert!(
        (dualx.adjoint(&ctx).0 - 4.0 * x.powi(3)).abs() < 1e-4,
        "{} != {}",
        dualx.adjoint(&ctx).0,
        4.0 * x.powi(3)
    );
}

#[test]
fn test_pow4() {
    let x = 2.0;
    let y = sqr(sqr(x));
    let mut ctx = AdContext::new();
    let dualx = Dual::new(&mut ctx, F(x));
    let dualy = pow4_ad(&mut ctx, dualx);
    dualy.add_gradient(&mut ctx, F(1.0));
    ctx.backward();
    assert!((y - 16.0).abs() < 1e-4);
    assert!(
        (dualx.adjoint(&ctx).0 - 4.0 * x.powi(3)).abs() < 1e-4,
        "{} != {}",
        dualx.adjoint(&ctx).0,
        4.0 * x.powi(3)
    );
}

#[test]
fn test_cond1() {
    let x = 2.0;
    let y = g(x);
    let mut ctx = AdContext::new();
    let dualx = Dual::new(&mut ctx, F(x));
    let dualy = g_ad(&mut ctx, dualx);
    dualy.add_gradient(&mut ctx, F(1.0));
    ctx.backward();
    assert!((y - 16.0).abs() < 1e-4);
    assert!(
        (dualx.adjoint(&ctx).0 - 4.0 * x.powi(3)).abs() < 1e-4,
        "{} != {}",
        dualx.adjoint(&ctx).0,
        4.0 * x.powi(3)
    );
}

#[test]
fn test_cond2() {
    let x = 0.5;
    let y = g(x);
    let mut ctx = AdContext::new();
    let dualx = Dual::new(&mut ctx, F(x));
    let dualy = g_ad(&mut ctx, dualx);
    dualy.add_gradient(&mut ctx, F(1.0));
    ctx.backward();
    assert!((y - 0.25).abs() < 1e-4);
    assert!(
        (dualx.adjoint(&ctx).0 - 2.0 * x).abs() < 1e-4,
        "{} != {}",
        dualx.adjoint(&ctx).0,
        2.0 * x
    );
}

// One derivative check per differentiable primitive, against the analytic
// derivative at a representative input.

#[test]
fn test_add_adjoints() {
    let mut ctx = AdContext::new();
    let a = Dual::new(&mut ctx, F(3.0));
    let b = Dual::new(&mut ctx, F(2.0));
    let y = ctx.add_ad(a, b);
    y.add_gradient(&mut ctx, F(1.0));
    ctx.backward();
    assert!((y.primal(&ctx).0 - 5.0).abs() < 1e-4);
    assert!((a.adjoint(&ctx).0 - 1.0).abs() < 1e-4);
    assert!((b.adjoint(&ctx).0 - 1.0).abs() < 1e-4);
}

#[test]
fn test_sub_adjoints() {
    let mut ctx = AdContext::new();
    let a = Dual::new(&mut ctx, F(3.0));
    let b = Dual::new(&mut ctx, F(2.0));
    let y = ctx.sub_ad(a, b);
    y.add_gradient(&mut ctx, F(1.0));
    ctx.backward();
    assert!((y.primal(&ctx).0 - 1.0).abs() < 1e-4);
    assert!((a.adjoint(&ctx).0 - 1.0).abs() < 1e-4);
    assert!((b.adjoint(&ctx).0 + 1.0).abs() < 1e-4);
}

#[test]
fn test_mul_adjoints() {
    let mut ctx = AdContext::new();
    let a = Dual::new(&mut ctx, F(3.0));
    let b = Dual::new(&mut ctx, F(2.0));
    let y = ctx.mul_ad(a, b);
    y.add_gradient(&mut ctx, F(1.0));
    ctx.backward();
    assert!((y.primal(&ctx).0 - 6.0).abs() < 1e-4);
    assert!((a.adjoint(&ctx).0 - 2.0).abs() < 1e-4);
    assert!((b.adjoint(&ctx).0 - 3.0).abs() < 1e-4);
}

#[test]
fn test_div_adjoints() {
    let mut ctx = AdContext::new();
    let a = Dual::new(&mut ctx, F(3.0));
    let b = Dual::new(&mut ctx, F(2.0));
    let y = ctx.div_ad(a, b);
    y.add_gradient(&mut ctx, F(1.0));
    ctx.backward();
    assert!((y.primal(&ctx).0 - 1.5).abs() < 1e-4);
    assert!((a.adjoint(&ctx).0 - 0.5).abs() < 1e-4);
    // d(a/b)/db = -a/b^2 = -0.75
    assert!((b.adjoint(&ctx).0 + 0.75).abs() < 1e-4);
}

#[test]
fn test_neg_adjoints() {
    let mut ctx = AdContext::new();
    let a = Dual::new(&mut ctx, F(3.0));
    let y = ctx.neg_ad(a);
    y.add_gradient(&mut ctx, F(1.0));
    ctx.backward();
    assert!((y.primal(&ctx).0 + 3.0).abs() < 1e-4);
    assert!((a.adjoint(&ctx).0 + 1.0).abs() < 1e-4);
}

// A value read by two consumers receives the sum of both consumers'
// contributions after a full backward pass.
#[test]
fn test_diamond_accumulation() {
    let mut ctx = AdContext::new();
    let x = Dual::new(&mut ctx, F(7.0));
    let c = Dual::new(&mut ctx, F(3.0));
    let d = Dual::new(&mut ctx, F(5.0));
    let y1 = ctx.mul_ad(x, c);
    let y2 = ctx.mul_ad(x, d);
    let out = ctx.add_ad(y1, y2);
    out.add_gradient(&mut ctx, F(1.0));
    ctx.backward();
    // d(out)/dx = c + d
    assert!((x.adjoint(&ctx).0 - 8.0).abs() < 1e-4);
}

// After reset-then-backward with the output adjoint seeded to 1.0, a slot
// not on the dependency path from input to output reports a zero adjoint.
#[test]
fn test_off_path_adjoint_zero() {
    let mut ctx = AdContext::new();
    let x = Dual::new(&mut ctx, F(2.0));
    let unrelated = Dual::new(&mut ctx, F(9.0));
    let spur = ctx.mul_ad(unrelated, unrelated);
    let y = ctx.mul_ad(x, x);
    ctx.push_reset_grad_func(x);
    ctx.push_reset_grad_func(unrelated);
    ctx.push_reset_grad_func(spur);
    ctx.push_reset_grad_func(y);
    // pollute some adjoints, then reset them all
    spur.add_gradient(&mut ctx, F(4.5));
    x.add_gradient(&mut ctx, F(1.25));
    ctx.zero_grad();
    y.add_gradient(&mut ctx, F(1.0));
    ctx.backward();
    assert!((x.adjoint(&ctx).0 - 4.0).abs() < 1e-4);
    assert!(spur.adjoint(&ctx).0 == 0.0);
    // unrelated feeds spur, and spur's adjoint stayed zero
    assert!(unrelated.adjoint(&ctx).0 == 0.0);
}

// Resetting the context empties the arena and both lists.
#[test]
fn test_reset() {
    let mut ctx = AdContext::new();
    let a = Dual::new(&mut ctx, F(1.5));
    let _ = ctx.mul_ad(a, a);
    ctx.reset();
    let b = Dual::new(&mut ctx, F(2.5));
    assert_eq!(b.slot, 0);
    ctx.backward();
    assert!(b.adjoint(&ctx).0 == 0.0);
}
