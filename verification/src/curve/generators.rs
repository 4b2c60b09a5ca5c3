//! The Pallas and Vesta curves are groups of prime order.
//!
//! On each curve a short relation between the point with the coordinates minus one and two and its
//! image under the endomorphism is checked by repeated doublings and additions.
use crate::curve::cyclic::misses_axis;
use crate::curve::endomorphism::lemma_group_from_relation;
use crate::curve::law::{
    ec_add, endo, is_group, lemma_closed, lemma_commutative, lemma_exchange, lemma_inverse_point,
    lemma_nmul_add, lemma_nmul_closed, minus, nmul, on_curve, plus, Pt,
};
use crate::curve::slopes::{lemma_by_slope, lemma_opposite};
use crate::curve::{Curve, Pallas, Vesta};
use crate::field::certificates::{lemma_quad, pallas_modulus, quad, vesta_modulus};
use crate::field::congruence::{congruent, lemma_congruent_difference, lemma_congruent_ops};
use crate::field::fermat::lemma_fermat;
use crate::field::Modulus;
use vstd::arithmetic::div_mod::lemma_small_mod;
use vstd::arithmetic::power::{
    lemma_pow0, lemma_pow1, lemma_pow_adds, lemma_pow_mod_noop, lemma_pow_multiplies, pow,
};
use vstd::prelude::*;

verus! {

/// A sum of multiples of two points.
pub open spec fn joint<C: Curve>(g: Pt, q: Pt, a: nat, c: nat) -> Pt {
    plus::<C>(nmul::<C>(a, g), nmul::<C>(c, q))
}

/// The sum of those of two points that have a one.
spec fn selected<C: Curve>(g: Pt, q: Pt, a: nat, c: nat) -> Pt {
    if a == 0 && c == 0 {
        Pt::Infinity
    } else if c == 0 {
        g
    } else if a == 0 {
        q
    } else {
        plus::<C>(g, q)
    }
}

proof fn lemma_start<C: Curve>(g: Pt, q: Pt)
    ensures
        joint::<C>(g, q, 1, 1) == plus::<C>(g, q),
{
    assert(nmul::<C>(1, g) == plus::<C>(nmul::<C>(0, g), g));
    assert(nmul::<C>(1, q) == plus::<C>(nmul::<C>(0, q), q));
    reveal(ec_add);
}

/// A doubling and an addition for one bit of each factor.
proof fn lemma_step<C: Curve>(g: Pt, q: Pt, a: nat, c: nat, da: nat, dc: nat)
    requires
        on_curve::<C>(g),
        on_curve::<C>(q),
        da <= 1,
        dc <= 1,
    ensures
        ({
            let s = joint::<C>(g, q, a, c);
            let d = plus::<C>(s, s);
            &&& on_curve::<C>(d)
            &&& joint::<C>(g, q, 2 * a + da, 2 * c + dc) == if da == 0 && dc == 0 {
                d
            } else {
                plus::<C>(d, selected::<C>(g, q, da, dc))
            }
        }),
{
    let (x, y) = (nmul::<C>(a, g), nmul::<C>(c, q));
    let (i, j) = (nmul::<C>(da, g), nmul::<C>(dc, q));
    lemma_nmul_closed::<C>(a, g);
    lemma_nmul_closed::<C>(c, q);
    lemma_nmul_closed::<C>(da, g);
    lemma_nmul_closed::<C>(dc, q);
    lemma_nmul_add::<C>(a, a, g);
    lemma_nmul_add::<C>(2 * a, da, g);
    lemma_nmul_add::<C>(c, c, q);
    lemma_nmul_add::<C>(2 * c, dc, q);
    let (x2, y2) = (plus::<C>(x, x), plus::<C>(y, y));
    lemma_closed::<C>(x, x);
    lemma_closed::<C>(y, y);
    lemma_closed::<C>(x, y);
    lemma_exchange::<C>(x2, i, y2, j);
    lemma_exchange::<C>(x, x, y, y);
    lemma_closed::<C>(plus::<C>(x, y), plus::<C>(x, y));
    assert(nmul::<C>(1, g) == plus::<C>(nmul::<C>(0, g), g));
    assert(nmul::<C>(1, q) == plus::<C>(nmul::<C>(0, q), q));
    reveal(ec_add);
}

/// The coordinates of a double.
proof fn lemma_double_at<C: Curve>(x: int, y: int, m: int, u: int, v: int)
    requires
        on_curve::<C>(Pt::At { x, y }),
        y != 0,
        0 <= u < <C::Base as Modulus>::p(),
        0 <= v < <C::Base as Modulus>::p(),
        (m * (2 * y) - 3 * (x * x)) % <C::Base as Modulus>::p() == 0,
        (m * m - 2 * x - u) % <C::Base as Modulus>::p() == 0,
        (m * (x - u) - y - v) % <C::Base as Modulus>::p() == 0,
    ensures
        plus::<C>(Pt::At { x, y }, Pt::At { x, y }) == (Pt::At { x: u, y: v }),
        on_curve::<C>(Pt::At { x: u, y: v }),
{
    <C::Base as Modulus>::lemma_modulus();
    let p = <C::Base as Modulus>::p();
    let a = Pt::At { x, y };
    lemma_closed::<C>(a, a);
    assert(plus::<C>(a, a) != Pt::Infinity) by {
        reveal(ec_add);
    }
    lemma_congruent_difference(m * (2 * y), 3 * (x * x), p);
    assert(m * (y + y) == m * (2 * y));
    assert(m * (x - x) == 0) by (nonlinear_arith);
    lemma_by_slope::<C>(m, x, y, x, y);
    lemma_third::<C>(m, x, y, x, u, v);
}

/// The coordinates of the sum of points with different first coordinates.
proof fn lemma_sum_at<C: Curve>(
    x1: int,
    y1: int,
    x2: int,
    y2: int,
    m: int,
    u: int,
    v: int,
)
    requires
        on_curve::<C>(Pt::At { x: x1, y: y1 }),
        on_curve::<C>(Pt::At { x: x2, y: y2 }),
        x1 != x2,
        0 <= u < <C::Base as Modulus>::p(),
        0 <= v < <C::Base as Modulus>::p(),
        (m * (x1 - x2) - (y1 - y2)) % <C::Base as Modulus>::p() == 0,
        (m * m - x1 - x2 - u) % <C::Base as Modulus>::p() == 0,
        (m * (x1 - u) - y1 - v) % <C::Base as Modulus>::p() == 0,
    ensures
        plus::<C>(Pt::At { x: x1, y: y1 }, Pt::At { x: x2, y: y2 }) == (Pt::At { x: u, y: v }),
        on_curve::<C>(Pt::At { x: u, y: v }),
{
    <C::Base as Modulus>::lemma_modulus();
    let p = <C::Base as Modulus>::p();
    let (a, b) = (Pt::At { x: x1, y: y1 }, Pt::At { x: x2, y: y2 });
    lemma_closed::<C>(a, b);
    assert(plus::<C>(a, b) != Pt::Infinity) by {
        reveal(ec_add);
    }
    let k = crate::curve::slopes::lemma_slope_exists::<C>(x1, y1, x2, y2);
    lemma_congruent_difference(m * (x1 - x2), y1 - y2, p);
    crate::curve::law::lemma_difference::<C::Base>(x1, x2);
    crate::curve::law::lemma_cancel::<C::Base>(x1 - x2, m, k);
    let (s, q) = (y1 + y2, x1 * x1 + x1 * x2 + x2 * x2);
    lemma_congruent_ops(m, k, s, s, p);
    lemma_by_slope::<C>(m, x1, y1, x2, y2);
    lemma_third::<C>(m, x1, y1, x2, u, v);
}

/// The coordinates of the third point of a chord.
proof fn lemma_third<C: Curve>(m: int, x1: int, y1: int, x2: int, u: int, v: int)
    requires
        0 <= u < <C::Base as Modulus>::p(),
        0 <= v < <C::Base as Modulus>::p(),
        (m * m - x1 - x2 - u) % <C::Base as Modulus>::p() == 0,
        (m * (x1 - u) - y1 - v) % <C::Base as Modulus>::p() == 0,
    ensures
        crate::curve::law::chord(m, x1, y1, x2, <C::Base as Modulus>::p()) == (Pt::At {
            x: u,
            y: v,
        }),
{
    <C::Base as Modulus>::lemma_modulus();
    let p = <C::Base as Modulus>::p();
    lemma_congruent_difference(m * m - x1 - x2, u, p);
    lemma_small_mod(u as nat, p as nat);
    lemma_congruent_difference(m * (x1 - u) - y1, v, p);
    lemma_small_mod(v as nat, p as nat);
}

/// A curve misses the first axis where minus five is no cube.
proof fn lemma_axis<C: Curve>(e: nat, v: int)
    requires
        3 * e + 1 == <C::Base as Modulus>::p(),
        pow(-5, e) % <C::Base as Modulus>::p() == v,
        v != 1,
    ensures
        misses_axis::<C>(),
{
    <C::Base as Modulus>::lemma_modulus();
    let p = <C::Base as Modulus>::p();
    assert forall|x: int| !#[trigger] on_curve::<C>(Pt::At { x, y: 0 }) by {
        if on_curve::<C>(Pt::At { x, y: 0 }) {
            let c = x * x * x;
            lemma_congruent_ops(c + 5, 0, 5, 5, p);
            assert(congruent(c, -5, p));
            lemma_small_mod(5, p as nat);
            lemma_small_mod(0, p as nat);
            if x == 0 {
                assert(false);
            }
            lemma_small_mod(x as nat, p as nat);
            lemma_fermat(x, p);
            lemma_pow1(x);
            lemma_pow_adds(x, 1, 1);
            lemma_pow_adds(x, 2, 1);
            lemma_pow_multiplies(x, 3, e);
            lemma_pow_mod_noop(c, e, p);
            lemma_pow_mod_noop(-5, e, p);
        }
    }
}

/// The relation between a point and its image.
proof fn lemma_relation<C: Curve>(g: Pt, q: Pt, a: nat, c: nat)
    requires
        on_curve::<C>(g),
        on_curve::<C>(q),
        minus::<C>(q) == endo::<C>(g),
        joint::<C>(g, q, a, c) == Pt::Infinity,
    ensures
        nmul::<C>(a, g) == nmul::<C>(c, endo::<C>(g)),
{
    lemma_nmul_closed::<C>(a, g);
    lemma_nmul_closed::<C>(c, q);
    lemma_opposite::<C>(nmul::<C>(a, g), nmul::<C>(c, q));
    crate::curve::endomorphism::lemma_nmul_minus::<C>(c, q);
}

/// A generator of the Pallas curve.
pub open spec fn pallas_generator() -> Pt {
    Pt::At { x: 0x40000000000000000000000000000000224698fc094cf91b992d30ed00000000int, y: 2 }
}

/// The opposite of the image of the generator.
spec fn pallas_image() -> Pt {
    Pt::At { x: 0x2d33357cb532458ed3552a23a8554e5005270d29d19fc7d27b7fd22f0201b548int, y: 0x40000000000000000000000000000000224698fc094cf91b992d30ecffffffffint }
}

proof fn lemma_pallas_points()
    ensures
        on_curve::<Pallas>(pallas_generator()),
        on_curve::<Pallas>(pallas_image()),
        minus::<Pallas>(pallas_image()) == endo::<Pallas>(pallas_generator()),
        plus::<Pallas>(pallas_generator(), pallas_image()) == (Pt::At {
            x: 0x37110294d9c19cccc58f4a73808e655b40d6873757513f08cd72271b9df52e99int,
            y: 0x330586adc4ddb72abc290020e8266cfa5a19acb35a671344d4c234dca28b8a85int,
        }),
        on_curve::<Pallas>(plus::<Pallas>(pallas_generator(), pallas_image())),
{
    assert((0x40000000000000000000000000000000224698fc094cf91b992d30ed00000000int * 0x12ccca834acdba712caad5dc57aab1b01d1f8bd237ad31491dad5ebdfdfe4ab9int) % 0x40000000000000000000000000000000224698fc094cf91b992d30ed00000001int == 0x2d33357cb532458ed3552a23a8554e5005270d29d19fc7d27b7fd22f0201b548int) by (nonlinear_arith);
    assert((0x40000000000000000000000000000000224698fc094cf91b992d30ecffffffffint * 0x40000000000000000000000000000000224698fc094cf91b992d30ecffffffffint) % 0x40000000000000000000000000000000224698fc094cf91b992d30ed00000001int == 4int) by (nonlinear_arith);
    assert((0x2d33357cb532458ed3552a23a8554e5005270d29d19fc7d27b7fd22f0201b548int * 0x2d33357cb532458ed3552a23a8554e5005270d29d19fc7d27b7fd22f0201b548int * 0x2d33357cb532458ed3552a23a8554e5005270d29d19fc7d27b7fd22f0201b548int + 5) % 0x40000000000000000000000000000000224698fc094cf91b992d30ed00000001int == 4int) by (nonlinear_arith);
    assert((0x40000000000000000000000000000000224698fc094cf91b992d30ed00000000int * 0x40000000000000000000000000000000224698fc094cf91b992d30ed00000000int * 0x40000000000000000000000000000000224698fc094cf91b992d30ed00000000int + 5) % 0x40000000000000000000000000000000224698fc094cf91b992d30ed00000001int == 4int) by (nonlinear_arith);
    assert((2int * 2int) % 0x40000000000000000000000000000000224698fc094cf91b992d30ed00000001int == 4int);
    assert((-0x40000000000000000000000000000000224698fc094cf91b992d30ecffffffffint) % 0x40000000000000000000000000000000224698fc094cf91b992d30ed00000001int == 2int);
    lemma_sum_at::<Pallas>(0x40000000000000000000000000000000224698fc094cf91b992d30ed00000000int, 2, 0x2d33357cb532458ed3552a23a8554e5005270d29d19fc7d27b7fd22f0201b548int, 0x40000000000000000000000000000000224698fc094cf91b992d30ecffffffffint, 0x3c444750f1985cbe6f1c382f8b1c686ab18966e26cd50a6df9ffc2e958024708int, 0x37110294d9c19cccc58f4a73808e655b40d6873757513f08cd72271b9df52e99int, 0x330586adc4ddb72abc290020e8266cfa5a19acb35a671344d4c234dca28b8a85int);
    lemma_closed::<Pallas>(pallas_generator(), pallas_image());
}

proof fn lemma_pallas_chain_0()
    ensures
        joint::<Pallas>(
            pallas_generator(),
            pallas_image(),
            0x127nat,
            0x127nat,
        ) == (Pt::At {
            x: 0x3fc39c19e4d7c05fa9c1109042f46f5550225d681646508c9b5dcc4fa5be59bbint,
            y: 0xe80a7183591d430d9736e6f8bef025477ea53e7f1bf3ed58bd30624575ab4eint,
        }),
        on_curve::<Pallas>(Pt::At {
            x: 0x3fc39c19e4d7c05fa9c1109042f46f5550225d681646508c9b5dcc4fa5be59bbint,
            y: 0xe80a7183591d430d9736e6f8bef025477ea53e7f1bf3ed58bd30624575ab4eint,
        }),
{
    let (g, q) = (pallas_generator(), pallas_image());
    lemma_pallas_points();
    lemma_start::<Pallas>(g, q);
    lemma_step::<Pallas>(g, q, 1nat, 1nat, 0, 0);
    lemma_double_at::<Pallas>(0x37110294d9c19cccc58f4a73808e655b40d6873757513f08cd72271b9df52e99int, 0x330586adc4ddb72abc290020e8266cfa5a19acb35a671344d4c234dca28b8a85int, 0x23877917a3192553a8910595698f265981a7917ded37c16958c78a832bf91e41int, 0x1714c12218567e6aa0151e2bd21ec31880f3577360863efca6f9c7bad629d3e0int, 0x1d4be49f47fd0926d4a4ca4423036e19fb2acdeba4b0a95e9e3d8653a6d2b54int);
    lemma_step::<Pallas>(g, q, 2nat, 2nat, 0, 0);
    lemma_double_at::<Pallas>(0x1714c12218567e6aa0151e2bd21ec31880f3577360863efca6f9c7bad629d3e0int, 0x1d4be49f47fd0926d4a4ca4423036e19fb2acdeba4b0a95e9e3d8653a6d2b54int, 0x3209b57448430b9acef28154a862f9567111bd1179c007a96dcad1187ab246b1int, 0xe5755da1952bbc9d4a35de72827c294a0189d39aba3b6774deac100263c1fd8int, 0x254e2d3c02f302fc5e259a4aa80f6c4aadc815bab6b00d6ab0db500b4715eeb3int);
    lemma_step::<Pallas>(g, q, 4nat, 4nat, 1, 1);
    lemma_double_at::<Pallas>(0xe5755da1952bbc9d4a35de72827c294a0189d39aba3b6774deac100263c1fd8int, 0x254e2d3c02f302fc5e259a4aa80f6c4aadc815bab6b00d6ab0db500b4715eeb3int, 0x3fed747a3b6ba513fad4fc87906fbb5e53ae547ba808fee9d74725d2ac55730dint, 0xc94517df2bd0c2b192c15404d335a14ab6aa07864c64d09ff895d11bb9c4a5int, 0x8ab10dd3a791f2d9ada061a9d000effe1dd4d81e02c9d80696f13725b143633int);
    lemma_sum_at::<Pallas>(0xc94517df2bd0c2b192c15404d335a14ab6aa07864c64d09ff895d11bb9c4a5int, 0x8ab10dd3a791f2d9ada061a9d000effe1dd4d81e02c9d80696f13725b143633int, 0x37110294d9c19cccc58f4a73808e655b40d6873757513f08cd72271b9df52e99int, 0x330586adc4ddb72abc290020e8266cfa5a19acb35a671344d4c234dca28b8a85int, 0x350bd37920626399ba74cd668196a9d143d23fd16f64f1dbdb91400be29c16faint, 0x33ebf306b440195460e434d2c37a914a69a8a6438266d99a53be27de3088439fint, 0x2e13304f2794ff2506b12e8a44a5133a6a6166f3c99ba534a8d5ee7b68d40479int);
    lemma_step::<Pallas>(g, q, 9nat, 9nat, 0, 0);
    lemma_double_at::<Pallas>(0x33ebf306b440195460e434d2c37a914a69a8a6438266d99a53be27de3088439fint, 0x2e13304f2794ff2506b12e8a44a5133a6a6166f3c99ba534a8d5ee7b68d40479int, 0x376f5eaa6df5f9001f69dd2376d90c888231a7aedee4cdc52593276cd67f213int, 0x1e48d1a4251f01e4dfe8794e3de96138d8466dff3d49e8bade6171bd9da63b77int, 0x3eea3ff60179c5249e5fe766407c21b2e97d7b9a45db4d13fcac7df28acf0243int);
    lemma_step::<Pallas>(g, q, 0x12nat, 0x12nat, 0, 0);
    lemma_double_at::<Pallas>(0x1e48d1a4251f01e4dfe8794e3de96138d8466dff3d49e8bade6171bd9da63b77int, 0x3eea3ff60179c5249e5fe766407c21b2e97d7b9a45db4d13fcac7df28acf0243int, 0x39fcf6e47fc0c7f88aca80d317433430b6e90688aa68bdace1418807cffc7906int, 0x8914a3b1123d0cb43e914f5779c02db6af0c79666df0995cb653ab1dbf61b32int, 0x2d599287b3d571d363142b8e0a70d6989e9008f447baf4e65ff607581c6f23dcint);
    lemma_step::<Pallas>(g, q, 0x24nat, 0x24nat, 1, 1);
    lemma_double_at::<Pallas>(0x8914a3b1123d0cb43e914f5779c02db6af0c79666df0995cb653ab1dbf61b32int, 0x2d599287b3d571d363142b8e0a70d6989e9008f447baf4e65ff607581c6f23dcint, 0x224ce1693e621195c844ff5a3f502dd5ca457d31daff86ee9657834f33b657d7int, 0x16c43338c3ca72940effc1d41c577fc76dfcde745ee664cfb51874bf09ee3189int, 0x18f43d9ec6f116ddc0785f418282de3da77c9a9808d24039ef22b454954b7bdeint);
    lemma_sum_at::<Pallas>(0x16c43338c3ca72940effc1d41c577fc76dfcde745ee664cfb51874bf09ee3189int, 0x18f43d9ec6f116ddc0785f418282de3da77c9a9808d24039ef22b454954b7bdeint, 0x37110294d9c19cccc58f4a73808e655b40d6873757513f08cd72271b9df52e99int, 0x330586adc4ddb72abc290020e8266cfa5a19acb35a671344d4c234dca28b8a85int, 0x1f8a758039144f20545d6f7843a12989346106514203682fe83e4e4ffdf72b11int, 0x98aca6cecea3c4310e9a1e8c981c3841bd43841ffa6b12f971017c99cb8f844int, 0x2e6aacd53cf75f6e2913848d0c1a1b7137bb2c4488fa164f459b61d4b2d6823aint);
    lemma_step::<Pallas>(g, q, 0x49nat, 0x49nat, 1, 1);
    lemma_double_at::<Pallas>(0x98aca6cecea3c4310e9a1e8c981c3841bd43841ffa6b12f971017c99cb8f844int, 0x2e6aacd53cf75f6e2913848d0c1a1b7137bb2c4488fa164f459b61d4b2d6823aint, 0x126e68acdb7c9f17f7b2519d378e7dd5e5e1dba03512d828fdefea1ef7f4936cint, 0x23a247258cb08f5ea6c9831a8c93e6c912a4d3beb5e0dbab8a0d47a3355eb040int, 0x16cd1ac58819d5e4d38a5f7e4b4738eeea891a3fff84edbac1a28313e13ba616int);
    lemma_sum_at::<Pallas>(0x23a247258cb08f5ea6c9831a8c93e6c912a4d3beb5e0dbab8a0d47a3355eb040int, 0x16cd1ac58819d5e4d38a5f7e4b4738eeea891a3fff84edbac1a28313e13ba616int, 0x37110294d9c19cccc58f4a73808e655b40d6873757513f08cd72271b9df52e99int, 0x330586adc4ddb72abc290020e8266cfa5a19acb35a671344d4c234dca28b8a85int, 0x13238557b99d44b76ce0d121ae226126b0bea3925270462bb47947c5b30a3a3int, 0x175ed9c9ebeb72dd3e846f7445ad14ee514dff8f32d585763430d96338a157d7int, 0x36024531d7bbfc6a627e416b76d1beda46d4e2e6b340abcc94cc793b4ac15111int);
    lemma_step::<Pallas>(g, q, 0x93nat, 0x93nat, 1, 1);
    lemma_double_at::<Pallas>(0x175ed9c9ebeb72dd3e846f7445ad14ee514dff8f32d585763430d96338a157d7int, 0x36024531d7bbfc6a627e416b76d1beda46d4e2e6b340abcc94cc793b4ac15111int, 0x371f70a22674c422987dc47d7cdd644cb4690b1aa530134eb927d21661e8eb69int, 0x225d7506492c8aec61b601e4823a00232c26de3b4aed648643d7b3d9fa20a09aint, 0x1aae0c5fb7520d230d4345ceda6e55b69d58fe1a3b0e445e7527b46540195249int);
    lemma_sum_at::<Pallas>(0x225d7506492c8aec61b601e4823a00232c26de3b4aed648643d7b3d9fa20a09aint, 0x1aae0c5fb7520d230d4345ceda6e55b69d58fe1a3b0e445e7527b46540195249int, 0x37110294d9c19cccc58f4a73808e655b40d6873757513f08cd72271b9df52e99int, 0x330586adc4ddb72abc290020e8266cfa5a19acb35a671344d4c234dca28b8a85int, 0x507ab55d629973bb7872711110457c839013f8f4b457baeee3403806045f131int, 0x3fc39c19e4d7c05fa9c1109042f46f5550225d681646508c9b5dcc4fa5be59bbint, 0xe80a7183591d430d9736e6f8bef025477ea53e7f1bf3ed58bd30624575ab4eint);
}

proof fn lemma_pallas_chain_1()
    ensures
        joint::<Pallas>(
            pallas_generator(),
            pallas_image(),
            0x1279anat,
            0x1279anat,
        ) == (Pt::At {
            x: 0x1876b44ebb20328d2c29063598639154c62b265a0345c1ba5e972a8e302fa1daint,
            y: 0x2cc91c2b3d8682f4c3e886f2eb78fafd5e3e1aef593ff030695425e639540f2cint,
        }),
        on_curve::<Pallas>(Pt::At {
            x: 0x1876b44ebb20328d2c29063598639154c62b265a0345c1ba5e972a8e302fa1daint,
            y: 0x2cc91c2b3d8682f4c3e886f2eb78fafd5e3e1aef593ff030695425e639540f2cint,
        }),
{
    let (g, q) = (pallas_generator(), pallas_image());
    lemma_pallas_points();
    lemma_pallas_chain_0();
    lemma_step::<Pallas>(g, q, 0x127nat, 0x127nat, 1, 1);
    lemma_double_at::<Pallas>(0x3fc39c19e4d7c05fa9c1109042f46f5550225d681646508c9b5dcc4fa5be59bbint, 0xe80a7183591d430d9736e6f8bef025477ea53e7f1bf3ed58bd30624575ab4eint, 0x3843f3a490e37332824c53c51c1ecfd3b4f1ca69911579828c0e2cc0f17cd96aint, 0x12582c0d62635c144a6fe7eae66eb4de6b58cf444d000486d40c9b361ef1033bint, 0x3e08959b0d3af44115d3cbc136f68b26bbc6c434614ccdc1d75ef6be59c4ffc4int);
    lemma_sum_at::<Pallas>(0x12582c0d62635c144a6fe7eae66eb4de6b58cf444d000486d40c9b361ef1033bint, 0x3e08959b0d3af44115d3cbc136f68b26bbc6c434614ccdc1d75ef6be59c4ffc4int, 0x37110294d9c19cccc58f4a73808e655b40d6873757513f08cd72271b9df52e99int, 0x330586adc4ddb72abc290020e8266cfa5a19acb35a671344d4c234dca28b8a85int, 0x1384717b3a4cd78193ee6c2405c407b1c3f026da097c81ba1ff9640eef98657fint, 0x18a7c34dc9a4275a6ba757e94df2337e62f8f55631d4f02d211ce7f79ec1ea72int, 0x35e3e26463724ce550350c1f28629b54868520d15b366000f385d865e1bb94d4int);
    lemma_step::<Pallas>(g, q, 0x24fnat, 0x24fnat, 0, 0);
    lemma_double_at::<Pallas>(0x18a7c34dc9a4275a6ba757e94df2337e62f8f55631d4f02d211ce7f79ec1ea72int, 0x35e3e26463724ce550350c1f28629b54868520d15b366000f385d865e1bb94d4int, 0x1946c25ed6e59831bbd529648d4df9b3be7311fd422482fd67a657fb3345f630int, 0x73d4dd0af8d2b7a3427bcef6448ce01061b24bdf1fe8c454cbd06c5a8d34618int, 0x11de2e9c0a903e9374e16d12355933f7312532dc5784b9e76cdcbedb07101905int);
    lemma_step::<Pallas>(g, q, 0x49enat, 0x49enat, 0, 0);
    lemma_double_at::<Pallas>(0x73d4dd0af8d2b7a3427bcef6448ce01061b24bdf1fe8c454cbd06c5a8d34618int, 0x11de2e9c0a903e9374e16d12355933f7312532dc5784b9e76cdcbedb07101905int, 0x1b9edc5848389bd18905829e181cb3083497da8e1a13506b99ea8cd5deeddcc1int, 0x3258ca4d8dcc7d940286e44e5d754a4f5b916896f21d39403d6a9fff9e759758int, 0x6d12e9c9437e445cab7b316e5077eeae831e3947fab8bcd626daea7ec1b411dint);
    lemma_step::<Pallas>(g, q, 0x93cnat, 0x93cnat, 1, 1);
    lemma_double_at::<Pallas>(0x3258ca4d8dcc7d940286e44e5d754a4f5b916896f21d39403d6a9fff9e759758int, 0x6d12e9c9437e445cab7b316e5077eeae831e3947fab8bcd626daea7ec1b411dint, 0x17c80e97924c69beee091454a449a2b58375668e199ad0a022d962391c76f1ffint, 0x32f95de9883cf5fd123952e107f3aa7ac732c015593c3b2bc1f26597e3d05814int, 0x1d2db94196ccc493ac94ba2dc576eb8ad29fd4191a9f8e734128b36a30291510int);
    lemma_sum_at::<Pallas>(0x32f95de9883cf5fd123952e107f3aa7ac732c015593c3b2bc1f26597e3d05814int, 0x1d2db94196ccc493ac94ba2dc576eb8ad29fd4191a9f8e734128b36a30291510int, 0x37110294d9c19cccc58f4a73808e655b40d6873757513f08cd72271b9df52e99int, 0x330586adc4ddb72abc290020e8266cfa5a19acb35a671344d4c234dca28b8a85int, 0x2c9a145ba5b7e38d0a6265d6f0edda03ee5a868de0971ffc0fd1535f947de460int, 0x253b6cd6e005cf1cd85587feb018dac68138ca9accc543499d2712c03b4efb13int, 0x39ba4a6f07db8296e816a9732f99b8ad90dcad73621e7903ad3801b8e0f45a2eint);
    lemma_step::<Pallas>(g, q, 0x1279nat, 0x1279nat, 1, 1);
    lemma_double_at::<Pallas>(0x253b6cd6e005cf1cd85587feb018dac68138ca9accc543499d2712c03b4efb13int, 0x39ba4a6f07db8296e816a9732f99b8ad90dcad73621e7903ad3801b8e0f45a2eint, 0x2e670ffa37d8174cd5ec23b2cc7e9dffaadb9b030f66469e06ffe95fbd186051int, 0x38173d05287eb33c0822a2a62cb04e22a6a3d10652a6c08141409883cde90a23int, 0x8aeb2be364c1544a9301426f64729d2d4fc5356fa4fa258c518941f8d81cb47int);
    lemma_sum_at::<Pallas>(0x38173d05287eb33c0822a2a62cb04e22a6a3d10652a6c08141409883cde90a23int, 0x8aeb2be364c1544a9301426f64729d2d4fc5356fa4fa258c518941f8d81cb47int, 0x37110294d9c19cccc58f4a73808e655b40d6873757513f08cd72271b9df52e99int, 0x330586adc4ddb72abc290020e8266cfa5a19acb35a671344d4c234dca28b8a85int, 0x18f7b41b321eae56b12c9eb9c81deda87a0a1d73978974c6ff16747a4f4e6450int, 0x3570fd1548c9d06dae7c2648189c8aef578194e7857b437e24d836f4a7dc01c6int, 0x5fd37c96e7a3c88ddb96a6b8a3ed8608e06dd6a13318e405a065655d29b7267int);
    lemma_step::<Pallas>(g, q, 0x24f3nat, 0x24f3nat, 0, 0);
    lemma_double_at::<Pallas>(0x3570fd1548c9d06dae7c2648189c8aef578194e7857b437e24d836f4a7dc01c6int, 0x5fd37c96e7a3c88ddb96a6b8a3ed8608e06dd6a13318e405a065655d29b7267int, 0x369911137780fa15ffdbe40e4e23f83ac8dddd27c22e82dbfdb312993f9b5e83int, 0x18d0018f9671c3fb9e09f9fd693675fc8d9b5c720c72e9e3edc77aa067279a7fint, 0x2be49e26561649d0f0910c04ed90fb7e42b08e7f711357bdf00c05e7a98a6ec2int);
    lemma_step::<Pallas>(g, q, 0x49e6nat, 0x49e6nat, 1, 1);
    lemma_double_at::<Pallas>(0x18d0018f9671c3fb9e09f9fd693675fc8d9b5c720c72e9e3edc77aa067279a7fint, 0x2be49e26561649d0f0910c04ed90fb7e42b08e7f711357bdf00c05e7a98a6ec2int, 0x1fc500ea9dd85b461414a0cf60616465279ee94f5b2d04f30cf795f420e9c372int, 0x28c94a8e03f1aeb4545fbaf732ba8206b2c55c8207e7594d4c57853d8d40dbe9int, 0x2dde62a138d18a7c1d7b025321d7ddae53998bb1e7ab2818499d231e084f358cint);
    lemma_sum_at::<Pallas>(0x28c94a8e03f1aeb4545fbaf732ba8206b2c55c8207e7594d4c57853d8d40dbe9int, 0x2dde62a138d18a7c1d7b025321d7ddae53998bb1e7ab2818499d231e084f358cint, 0x37110294d9c19cccc58f4a73808e655b40d6873757513f08cd72271b9df52e99int, 0x330586adc4ddb72abc290020e8266cfa5a19acb35a671344d4c234dca28b8a85int, 0x3a8db1b8f27dda114b08888dd75840012ec99eaefc1b7b25ce23a3d1a32a3fbaint, 0x201608051e297c436413a1f63bfeeae47ba136e685b1033ad73ed2b2d0d13d37int, 0x159009185f5a837885b41a7c3897d129ff257313f3ed40f96e92d2a5abd18182int);
    lemma_step::<Pallas>(g, q, 0x93cdnat, 0x93cdnat, 0, 0);
    lemma_double_at::<Pallas>(0x201608051e297c436413a1f63bfeeae47ba136e685b1033ad73ed2b2d0d13d37int, 0x159009185f5a837885b41a7c3897d129ff257313f3ed40f96e92d2a5abd18182int, 0x323f67a1da0daee71bb11b56590946f4118aee9420636246d46ba349d305ab86int, 0x1876b44ebb20328d2c29063598639154c62b265a0345c1ba5e972a8e302fa1daint, 0x2cc91c2b3d8682f4c3e886f2eb78fafd5e3e1aef593ff030695425e639540f2cint);
}

proof fn lemma_pallas_chain_2()
    ensures
        joint::<Pallas>(
            pallas_generator(),
            pallas_image(),
            0x1279a74nat,
            0x1279a74nat,
        ) == (Pt::At {
            x: 0x2ad1399dcf2636ba5fc5ce33ac44e670250151a975370d9e581b32f44a11c465int,
            y: 0x36bb4d7049221504700804508b38edd885580e556beffbb21a80befc688114afint,
        }),
        on_curve::<Pallas>(Pt::At {
            x: 0x2ad1399dcf2636ba5fc5ce33ac44e670250151a975370d9e581b32f44a11c465int,
            y: 0x36bb4d7049221504700804508b38edd885580e556beffbb21a80befc688114afint,
        }),
{
    let (g, q) = (pallas_generator(), pallas_image());
    lemma_pallas_points();
    lemma_pallas_chain_1();
    lemma_step::<Pallas>(g, q, 0x1279anat, 0x1279anat, 0, 0);
    lemma_double_at::<Pallas>(0x1876b44ebb20328d2c29063598639154c62b265a0345c1ba5e972a8e302fa1daint, 0x2cc91c2b3d8682f4c3e886f2eb78fafd5e3e1aef593ff030695425e639540f2cint, 0xb7d461f276d14e8c1dd47438dc2ad63ef6f4c6237f68ce29ff07430c85ec269int, 0x30b3a74536882dc03a026797ac0abda52d6c1aa1ba081a0fd548ba926bf88cb7int, 0x19264b5f651af4e46c11096b1c65626c40517c434fe55def193f44e5a07840e1int);
    lemma_step::<Pallas>(g, q, 0x24f34nat, 0x24f34nat, 1, 1);
    lemma_double_at::<Pallas>(0x30b3a74536882dc03a026797ac0abda52d6c1aa1ba081a0fd548ba926bf88cb7int, 0x19264b5f651af4e46c11096b1c65626c40517c434fe55def193f44e5a07840e1int, 0x9c209c9d14619ef24d51a877ae4f1813294f9ffa5908ca415b0206ea4d7ecb0int, 0x38121307b1f1e6c50afb5ef9f203f50796e049fa91c77f7edcd41e204147a1dcint, 0x3cd15826d8cf03d3dbcebd04ea9498f0085b90cb74a154c4a0d7ae34d6da3767int);
    lemma_sum_at::<Pallas>(0x38121307b1f1e6c50afb5ef9f203f50796e049fa91c77f7edcd41e204147a1dcint, 0x3cd15826d8cf03d3dbcebd04ea9498f0085b90cb74a154c4a0d7ae34d6da3767int, 0x37110294d9c19cccc58f4a73808e655b40d6873757513f08cd72271b9df52e99int, 0x330586adc4ddb72abc290020e8266cfa5a19acb35a671344d4c234dca28b8a85int, 0x22a6c86add0a4a5989ca8b984224659bf7b72f547413d5ee3108b8aa4f46aae4int, 0x1262baffd64383f99c4a9a20b045df629f5c0304a8e90ed2f955d50d7beb852bint, 0x3d5f20158ed72a230b262939bbd6761289b695b6e01e7645fe42dadab958534eint);
    lemma_step::<Pallas>(g, q, 0x49e69nat, 0x49e69nat, 1, 1);
    lemma_double_at::<Pallas>(0x1262baffd64383f99c4a9a20b045df629f5c0304a8e90ed2f955d50d7beb852bint, 0x3d5f20158ed72a230b262939bbd6761289b695b6e01e7645fe42dadab958534eint, 0xf2c9cab43b086057886431000b99757838d97d190a532ab6eef20910e72d36dint, 0x2819fc82c20904c10a70b363c08e94d33ac59be5511987f3d93ab78f350a5a09int, 0x205edf7c804bc26800d9869e95e60bb9d7c2a482eb9d26cdfa944d1dd9701a2eint);
    lemma_sum_at::<Pallas>(0x2819fc82c20904c10a70b363c08e94d33ac59be5511987f3d93ab78f350a5a09int, 0x205edf7c804bc26800d9869e95e60bb9d7c2a482eb9d26cdfa944d1dd9701a2eint, 0x37110294d9c19cccc58f4a73808e655b40d6873757513f08cd72271b9df52e99int, 0x330586adc4ddb72abc290020e8266cfa5a19acb35a671344d4c234dca28b8a85int, 0x3b7958b8b409914f1118c95e27a0cb81ec9ad2288c4bb26e36ab5fc79b96b38bint, 0x29fa917b0670260d574f66055389b8a4059592a4bcbc19b9e10afcaf1cd542ceint, 0x69dca92e24008e3438adec355af703f1f435597c98cb82e9c58eb69680b9fc9int);
    lemma_step::<Pallas>(g, q, 0x93cd3nat, 0x93cd3nat, 1, 1);
    lemma_double_at::<Pallas>(0x29fa917b0670260d574f66055389b8a4059592a4bcbc19b9e10afcaf1cd542ceint, 0x69dca92e24008e3438adec355af703f1f435597c98cb82e9c58eb69680b9fc9int, 0x1472034d23e8f259f4ee3d5400769e78ada52fe1de50e271c81e17eb9ee51c2bint, 0x1c50c207f17d77d24712542299b0667c2020ae451e3d49949c52379b85f31d52int, 0x35feebbc294f439f0231c3204010fbc6718dfcf80461b3a7a7073578889fb6cint);
    lemma_sum_at::<Pallas>(0x1c50c207f17d77d24712542299b0667c2020ae451e3d49949c52379b85f31d52int, 0x35feebbc294f439f0231c3204010fbc6718dfcf80461b3a7a7073578889fb6cint, 0x37110294d9c19cccc58f4a73808e655b40d6873757513f08cd72271b9df52e99int, 0x330586adc4ddb72abc290020e8266cfa5a19acb35a671344d4c234dca28b8a85int, 0xfdba04bdff1739b3b45d8e935b4983bc20e42899af6ef186244439d87e03005int, 0x17ee65d3eda7093d80543f69822d0a2b5edce85c26f29ba0262696441aeb088dint, 0x23774572d22cb662b6838db4cdc9d5d112888a0711b3d42187be6cf4bc6c97c6int);
    lemma_step::<Pallas>(g, q, 0x1279a7nat, 0x1279a7nat, 0, 0);
    lemma_double_at::<Pallas>(0x17ee65d3eda7093d80543f69822d0a2b5edce85c26f29ba0262696441aeb088dint, 0x23774572d22cb662b6838db4cdc9d5d112888a0711b3d42187be6cf4bc6c97c6int, 0x6b4a223ac7f62240c8401a3e1b1bbb66f95398bdcde097821f179fdd4c92649int, 0x13ad8b2b81e1de0b0c4aef2a49151947f9237b56dd7fc74002a96d9d2c6c43c8int, 0x626ed3452bac602e23e87acd5ec91486d3ff9f4a5aa43a35c08211a8d8c7029int);
    lemma_step::<Pallas>(g, q, 0x24f34enat, 0x24f34enat, 1, 1);
    lemma_double_at::<Pallas>(0x13ad8b2b81e1de0b0c4aef2a49151947f9237b56dd7fc74002a96d9d2c6c43c8int, 0x626ed3452bac602e23e87acd5ec91486d3ff9f4a5aa43a35c08211a8d8c7029int, 0x3f0e47217ea925b43c813890d53fab8a3ad4b92ddc0a64b4cf47fb46bb07fb32int, 0x36ac9b61e4a51a66f05201f706cc65348882eae165427830d074079afdb16d2int, 0x3c4ff286ee3a181411cbceb2158ce9d1206cf3423e827d36807d94b83f8d7163int);
    lemma_sum_at::<Pallas>(0x36ac9b61e4a51a66f05201f706cc65348882eae165427830d074079afdb16d2int, 0x3c4ff286ee3a181411cbceb2158ce9d1206cf3423e827d36807d94b83f8d7163int, 0x37110294d9c19cccc58f4a73808e655b40d6873757513f08cd72271b9df52e99int, 0x330586adc4ddb72abc290020e8266cfa5a19acb35a671344d4c234dca28b8a85int, 0x2bb1305721d45e57a21b336d27703119c38a9cdf1d0a80101d73e5605d9ed409int, 0xbd1884e19860f3aafdc22c907f7c22ee6dc52fe2e5f866675dcfd4bd79b06f9int, 0x10db22ee882b8d8de01b6eadc54a394538bf960e969f10376e27c1b621125bbcint);
    lemma_step::<Pallas>(g, q, 0x49e69dnat, 0x49e69dnat, 0, 0);
    lemma_double_at::<Pallas>(0xbd1884e19860f3aafdc22c907f7c22ee6dc52fe2e5f866675dcfd4bd79b06f9int, 0x10db22ee882b8d8de01b6eadc54a394538bf960e969f10376e27c1b621125bbcint, 0x1864df854f2338d4433583dfa7d5e45a37ae0e44833b5bb002908fab9388eb19int, 0x360b846e977697b18d0fa451633f2de500e95b0b18f51539f6d57afc32c1f530int, 0x198b065b52cf5a06484a0e260d9757a118210f97d364cf49566ec9e4ba0c8021int);
    lemma_step::<Pallas>(g, q, 0x93cd3anat, 0x93cd3anat, 0, 0);
    lemma_double_at::<Pallas>(0x360b846e977697b18d0fa451633f2de500e95b0b18f51539f6d57afc32c1f530int, 0x198b065b52cf5a06484a0e260d9757a118210f97d364cf49566ec9e4ba0c8021int, 0x7da5361ad35a6e578412f586d106435974e8d3da30790d2ed4c2eaf60ad03abint, 0x2ad1399dcf2636ba5fc5ce33ac44e670250151a975370d9e581b32f44a11c465int, 0x36bb4d7049221504700804508b38edd885580e556beffbb21a80befc688114afint);
}

proof fn lemma_pallas_chain_3()
    ensures
        joint::<Pallas>(
            pallas_generator(),
            pallas_image(),
            0x1279a7459nat,
            0x1279a7459nat,
        ) == (Pt::At {
            x: 0x1e79cedfa6fda0fbff81459d41fd465882a6771ee1cee4e042540152bb84cb62int,
            y: 0x2ea01527afb396c324f20aa8283c8a563a09fc05b275e52e975bda31ed4b162bint,
        }),
        on_curve::<Pallas>(Pt::At {
            x: 0x1e79cedfa6fda0fbff81459d41fd465882a6771ee1cee4e042540152bb84cb62int,
            y: 0x2ea01527afb396c324f20aa8283c8a563a09fc05b275e52e975bda31ed4b162bint,
        }),
{
    let (g, q) = (pallas_generator(), pallas_image());
    lemma_pallas_points();
    lemma_pallas_chain_2();
    lemma_step::<Pallas>(g, q, 0x1279a74nat, 0x1279a74nat, 0, 0);
    lemma_double_at::<Pallas>(0x2ad1399dcf2636ba5fc5ce33ac44e670250151a975370d9e581b32f44a11c465int, 0x36bb4d7049221504700804508b38edd885580e556beffbb21a80befc688114afint, 0x11d9e33b99e51eb9c56c9e5a3351fe5e331d0d1206afe18fe2e394405900e5a9int, 0x38acb517aead6e27068b09b3ff068d17f6e3a1ae4e12dd701cfac24c1f9f2dabint, 0x3c1ae91ddaeff002ef2bc2b58a051f4de97de9e3f2b85915e33de35f7910aeaaint);
    lemma_step::<Pallas>(g, q, 0x24f34e8nat, 0x24f34e8nat, 1, 1);
    lemma_double_at::<Pallas>(0x38acb517aead6e27068b09b3ff068d17f6e3a1ae4e12dd701cfac24c1f9f2dabint, 0x3c1ae91ddaeff002ef2bc2b58a051f4de97de9e3f2b85915e33de35f7910aeaaint, 0xc9ce1b1d24481af292cce954f856b6581767d4691361f91993fde8ced47fdffint, 0x2fd6e505a3fc74ee252d32625d13ccf50cb70bd7231c2b9a9b0348d13566b96aint, 0x29d733c1799559388992f65a404034f3a9a53db596e1858846899fb773fcb334int);
    lemma_sum_at::<Pallas>(0x2fd6e505a3fc74ee252d32625d13ccf50cb70bd7231c2b9a9b0348d13566b96aint, 0x29d733c1799559388992f65a404034f3a9a53db596e1858846899fb773fcb334int, 0x37110294d9c19cccc58f4a73808e655b40d6873757513f08cd72271b9df52e99int, 0x330586adc4ddb72abc290020e8266cfa5a19acb35a671344d4c234dca28b8a85int, 0x3b8a563c051e433213fce0b23959dae04e9b6ec53e51f510f5a295728d7ad24eint, 0x70140cc62aa49a7ac1b1c7263cbb10f70468a97ead74d7f7d6808537b26a1abint, 0xfae26b654a6c819ae26feebdcc672924724697cf5055f198f7bf7a2d32eeecaint);
    lemma_step::<Pallas>(g, q, 0x49e69d1nat, 0x49e69d1nat, 0, 0);
    lemma_double_at::<Pallas>(0x70140cc62aa49a7ac1b1c7263cbb10f70468a97ead74d7f7d6808537b26a1abint, 0xfae26b654a6c819ae26feebdcc672924724697cf5055f198f7bf7a2d32eeecaint, 0x12d128a4163604c6ef2e1dfaafc7a5b91340e6bc762326469b4e00d35d79ecd3int, 0x2e5e02622d388aaf3b0eea6eceeaf0d276574c8c25703d21e44a327ba3c796a1int, 0x337fc8ae1ca96ca74c0a48121e43b47ede2cd53a695726532383618851c697baint);
    lemma_step::<Pallas>(g, q, 0x93cd3a2nat, 0x93cd3a2nat, 1, 1);
    lemma_double_at::<Pallas>(0x2e5e02622d388aaf3b0eea6eceeaf0d276574c8c25703d21e44a327ba3c796a1int, 0x337fc8ae1ca96ca74c0a48121e43b47ede2cd53a695726532383618851c697baint, 0x374d10742c2aa3485ad197439e684c38a448b512f16cd163f2fea86245c12605int, 0x3e2771727eb9f76ba71a12ee7f3632e339c14347beb0ddb19d25674337e4c858int, 0x1c6963ffa7df9bfee04217adc4f78c601470b4b9a42b1cf43d8e83503703b228int);
    lemma_sum_at::<Pallas>(0x3e2771727eb9f76ba71a12ee7f3632e339c14347beb0ddb19d25674337e4c858int, 0x1c6963ffa7df9bfee04217adc4f78c601470b4b9a42b1cf43d8e83503703b228int, 0x37110294d9c19cccc58f4a73808e655b40d6873757513f08cd72271b9df52e99int, 0x330586adc4ddb72abc290020e8266cfa5a19acb35a671344d4c234dca28b8a85int, 0xbe639585b7f3a2b289331d1e2267913f16f1d9b986ac818aa87abea2238c542int, 0x2ae27ca307aba7fe1f2b64e683e3874708ad0f264aa6bf56729adfadeb5293eaint, 0x534b9bb827cdeee5329a3c0345be4673fc69a637b4849848e278344cc776b9eint);
    lemma_step::<Pallas>(g, q, 0x1279a745nat, 0x1279a745nat, 1, 1);
    lemma_double_at::<Pallas>(0x2ae27ca307aba7fe1f2b64e683e3874708ad0f264aa6bf56729adfadeb5293eaint, 0x534b9bb827cdeee5329a3c0345be4673fc69a637b4849848e278344cc776b9eint, 0x252cc4fb0af27cf9604ec17649f61a1d9d3f1bfc5ae14a953dce54b37286c23bint, 0x38b1a43e8f6f729e22ccf6a687d3ee178be7c9014141b429ab70ec4b76411cb8int, 0x1853e621b9cd0d854a1cfee5f5b2ab591e60b6b94a0cdb8a7f4306b8fbe4080fint);
    lemma_sum_at::<Pallas>(0x38b1a43e8f6f729e22ccf6a687d3ee178be7c9014141b429ab70ec4b76411cb8int, 0x1853e621b9cd0d854a1cfee5f5b2ab591e60b6b94a0cdb8a7f4306b8fbe4080fint, 0x37110294d9c19cccc58f4a73808e655b40d6873757513f08cd72271b9df52e99int, 0x330586adc4ddb72abc290020e8266cfa5a19acb35a671344d4c234dca28b8a85int, 0x334c9e74c4e8e1be6ccfd81d14a7ee3ade10cb13f52cdf9827c3ab155fc050ffint, 0x10afcc23ab129a9df679dccba511508d4b7c6ed4d180e6898ad23418ca2b1a6fint, 0x120f5b016476b10595737ec1e8aea29a93e4b0e6b71b0954fd2d8000a1f43ef4int);
    lemma_step::<Pallas>(g, q, 0x24f34e8bnat, 0x24f34e8bnat, 0, 0);
    lemma_double_at::<Pallas>(0x10afcc23ab129a9df679dccba511508d4b7c6ed4d180e6898ad23418ca2b1a6fint, 0x120f5b016476b10595737ec1e8aea29a93e4b0e6b71b0954fd2d8000a1f43ef4int, 0xe5ba66ace82824e3aa1c8f20e8e3ccd522e4ab23ed5859b293029d7f9ac7bb8int, 0x28cf27bf64e26ec22412cf917b999a41bdbf60e0db3b7e4aafbe6fdb65c4bacint, 0x2b8c494ae5f4252bb1bd857ec99b4cb23f9b6a021520994eb0e7cda6430f7c47int);
    lemma_step::<Pallas>(g, q, 0x49e69d16nat, 0x49e69d16nat, 0, 0);
    lemma_double_at::<Pallas>(0x28cf27bf64e26ec22412cf917b999a41bdbf60e0db3b7e4aafbe6fdb65c4bacint, 0x2b8c494ae5f4252bb1bd857ec99b4cb23f9b6a021520994eb0e7cda6430f7c47int, 0x2bdf4b84bcca0aab7d9d4497cb55ee901e549251394401897b133a4cb0a8d78cint, 0x11509093bf190c1003b7d5dd1cfb1fe87ae8d1568ff7980576ac8d0dac0182c4int, 0x3fbe46781bd1b7be3b4649ff7bfd02f9e83f9732601ed97fb5b4815b84ba7631int);
    lemma_step::<Pallas>(g, q, 0x93cd3a2cnat, 0x93cd3a2cnat, 1, 1);
    lemma_double_at::<Pallas>(0x11509093bf190c1003b7d5dd1cfb1fe87ae8d1568ff7980576ac8d0dac0182c4int, 0x3fbe46781bd1b7be3b4649ff7bfd02f9e83f9732601ed97fb5b4815b84ba7631int, 0x1f29b5d240c507ab5bd5cd77f68beca6bc7060784253cbc0a47cfe6b9af7d9ceint, 0x1c97ffd77ed1c89bd038a614ffd0997249c35c4fd914d9d3bc163021752323beint, 0xa0c3bb53450eda8e29b2e9c0bc402ba0e1c301dfe16e0791b74439a020d587dint);
    lemma_sum_at::<Pallas>(0x1c97ffd77ed1c89bd038a614ffd0997249c35c4fd914d9d3bc163021752323beint, 0xa0c3bb53450eda8e29b2e9c0bc402ba0e1c301dfe16e0791b74439a020d587dint, 0x37110294d9c19cccc58f4a73808e655b40d6873757513f08cd72271b9df52e99int, 0x330586adc4ddb72abc290020e8266cfa5a19acb35a671344d4c234dca28b8a85int, 0x1064abcbf766356ed32d2a01e26bfa21299b55a2f991580e01d68faca62e8544int, 0x1e79cedfa6fda0fbff81459d41fd465882a6771ee1cee4e042540152bb84cb62int, 0x2ea01527afb396c324f20aa8283c8a563a09fc05b275e52e975bda31ed4b162bint);
}

proof fn lemma_pallas_chain_4()
    ensures
        joint::<Pallas>(
            pallas_generator(),
            pallas_image(),
            0x1279a745903nat,
            0x1279a745902nat,
        ) == (Pt::At {
            x: 0x32a1960e880816d3d151a7a4c902c950775f1f77206c0c9caa24ad03018b17int,
            y: 0x285ae325138822f289439e200d9c2c572a8f3cd510b2b7e62a7d6c6980769982int,
        }),
        on_curve::<Pallas>(Pt::At {
            x: 0x32a1960e880816d3d151a7a4c902c950775f1f77206c0c9caa24ad03018b17int,
            y: 0x285ae325138822f289439e200d9c2c572a8f3cd510b2b7e62a7d6c6980769982int,
        }),
{
    let (g, q) = (pallas_generator(), pallas_image());
    lemma_pallas_points();
    lemma_pallas_chain_3();
    lemma_step::<Pallas>(g, q, 0x1279a7459nat, 0x1279a7459nat, 0, 0);
    lemma_double_at::<Pallas>(0x1e79cedfa6fda0fbff81459d41fd465882a6771ee1cee4e042540152bb84cb62int, 0x2ea01527afb396c324f20aa8283c8a563a09fc05b275e52e975bda31ed4b162bint, 0x3864dac01da3748e231bfa1aed2c228b2ba15bdf1c6399862ee819f532ce58bbint, 0x2158058a5e932328491d2b2be3616de49bea4e2ef5c48b6ac635964bc403851fint, 0x24408e2584f4818e19c3427c31aeb88e35b7de49396d78923e51b2ce66461adbint);
    lemma_step::<Pallas>(g, q, 0x24f34e8b2nat, 0x24f34e8b2nat, 0, 0);
    lemma_double_at::<Pallas>(0x2158058a5e932328491d2b2be3616de49bea4e2ef5c48b6ac635964bc403851fint, 0x24408e2584f4818e19c3427c31aeb88e35b7de49396d78923e51b2ce66461adbint, 0x14c55ae28aa2b86621096267c2f40fd51fe5bd15d4b7c011d3c54becc6362aacint, 0x3dbe932a4e5299cc65d3a2bc4853db294e9ec5ce425f457ca882e6981c28961bint, 0x2b085c9f23a7828a3668ceb7f51fa424e0e2d4e99e0e1c516def726c3a98d8e9int);
    lemma_step::<Pallas>(g, q, 0x49e69d164nat, 0x49e69d164nat, 0, 0);
    lemma_double_at::<Pallas>(0x3dbe932a4e5299cc65d3a2bc4853db294e9ec5ce425f457ca882e6981c28961bint, 0x2b085c9f23a7828a3668ceb7f51fa424e0e2d4e99e0e1c516def726c3a98d8e9int, 0xdcbef631dcc154bb2ce9e566b46abac86837cb85ddae529faeaa76572ff5de2int, 0x56ad5439ae40ebc723a0ce336348c8136421f08e152d1e8061866aa414e4a2fint, 0x33b7f1c0f79335b7e1e181417a530dfb6839e86f0c1ce0272b9fbf7722bc9df3int);
    lemma_step::<Pallas>(g, q, 0x93cd3a2c8nat, 0x93cd3a2c8nat, 0, 0);
    lemma_double_at::<Pallas>(0x56ad5439ae40ebc723a0ce336348c8136421f08e152d1e8061866aa414e4a2fint, 0x33b7f1c0f79335b7e1e181417a530dfb6839e86f0c1ce0272b9fbf7722bc9df3int, 0x37bf9b22f78913d15e3e711a89d35a0065fb97442fc5ff6c449beff637f856e7int, 0x27493ee49184139440603e2bb13f82c05645e07f9dcfd2ca9ed6aee9d095fbd9int, 0x2f2a3eab8a1601fd63deded51ba7627804044dcdfbbfaf8b71492ef4bccc4a49int);
    lemma_step::<Pallas>(g, q, 0x1279a74590nat, 0x1279a74590nat, 0, 0);
    lemma_double_at::<Pallas>(0x27493ee49184139440603e2bb13f82c05645e07f9dcfd2ca9ed6aee9d095fbd9int, 0x2f2a3eab8a1601fd63deded51ba7627804044dcdfbbfaf8b71492ef4bccc4a49int, 0x6d2612e9d6a255e825dfdf7a9a5222a00cf18f6075d8d3c6365c94d9d7d3aeaint, 0x197b8b6f0d74454d194a30f707efc515c8fd0acce610648ba78d973105d2baf4int, 0x22ec7409bac58b4a0bd8bfbc6b3f50a92404f414a9aba3055702602cbc7286d2int);
    lemma_step::<Pallas>(g, q, 0x24f34e8b20nat, 0x24f34e8b20nat, 0, 0);
    lemma_double_at::<Pallas>(0x197b8b6f0d74454d194a30f707efc515c8fd0acce610648ba78d973105d2baf4int, 0x22ec7409bac58b4a0bd8bfbc6b3f50a92404f414a9aba3055702602cbc7286d2int, 0x2cf392d43b3ddbb5eeae0513eb0bbd41a3394c732ceb27bdc218103c53d79c9fint, 0x85d2dfe24e3eaf282b7cbbcc4912fb7f3c79a3a55aae305b1a4ed84bb091158int, 0x3ff0b1b53368464683fffce21b3b60fec212680fde68162329673f665b1cbef1int);
    lemma_step::<Pallas>(g, q, 0x49e69d1640nat, 0x49e69d1640nat, 1, 1);
    lemma_double_at::<Pallas>(0x85d2dfe24e3eaf282b7cbbcc4912fb7f3c79a3a55aae305b1a4ed84bb091158int, 0x3ff0b1b53368464683fffce21b3b60fec212680fde68162329673f665b1cbef1int, 0x21d4454bd0290da95d586d6e389b15d1c366da9eaf26b1970ad2dda670302922int, 0x2fa4b8ffbac0df8da2f98c35dc5f053cf2fffc7f17e0002b8df3e105d4fc8448int, 0xb27b9ea5f6202d6da86e58e4819003f4908e5bc1e9b299db95ba09e4b75546bint);
    lemma_sum_at::<Pallas>(0x2fa4b8ffbac0df8da2f98c35dc5f053cf2fffc7f17e0002b8df3e105d4fc8448int, 0xb27b9ea5f6202d6da86e58e4819003f4908e5bc1e9b299db95ba09e4b75546bint, 0x37110294d9c19cccc58f4a73808e655b40d6873757513f08cd72271b9df52e99int, 0x330586adc4ddb72abc290020e8266cfa5a19acb35a671344d4c234dca28b8a85int, 0x3abc6dc1aff0b6f0b1efc8c7ddd4715dfdc9a34fe7b6fa74759a237593b2bfeeint, 0x312adca30161df814a2fa96568e2ce0010fb78385e2f38c2391343902ad4682bint, 0x225b9a270ae58b6feaefb4b8350a1d6210a1f13a15c080216c9606a10e696b04int);
    lemma_step::<Pallas>(g, q, 0x93cd3a2c81nat, 0x93cd3a2c81nat, 1, 0);
    lemma_double_at::<Pallas>(0x312adca30161df814a2fa96568e2ce0010fb78385e2f38c2391343902ad4682bint, 0x225b9a270ae58b6feaefb4b8350a1d6210a1f13a15c080216c9606a10e696b04int, 0x309021fbd6d43be9e2b2199d14c58b1c25e03e2342030abb0793156dda98b18cint, 0x12e226e8f5cdecb5366f4840374866d896a082f7e763955a77d55c056725b882int, 0x3ea9de0557a3cba460a262444068c1df6c7117e5eb76363cc7247793e8ae5c92int);
    lemma_sum_at::<Pallas>(0x12e226e8f5cdecb5366f4840374866d896a082f7e763955a77d55c056725b882int, 0x3ea9de0557a3cba460a262444068c1df6c7117e5eb76363cc7247793e8ae5c92int, 0x40000000000000000000000000000000224698fc094cf91b992d30ed00000000int, 2int, 0x1f08e8b17ac5587d91e62d1eade7ad70080bf0d1a038c6ed3e86ecb22abaf410int, 0x32a1960e880816d3d151a7a4c902c950775f1f77206c0c9caa24ad03018b17int, 0x285ae325138822f289439e200d9c2c572a8f3cd510b2b7e62a7d6c6980769982int);
}

proof fn lemma_pallas_chain_5()
    ensures
        joint::<Pallas>(
            pallas_generator(),
            pallas_image(),
            0x1279a745903c1nat,
            0x1279a745902a2nat,
        ) == (Pt::At {
            x: 0x16118ef1c7578ecfa69dd8eeadc47614a9a3f58e6070af5e027a1b7490960de7int,
            y: 0x175185b62dee5c542d60c415c8e822f910dbe7dd4ef660c65e5965d5506ef5a8int,
        }),
        on_curve::<Pallas>(Pt::At {
            x: 0x16118ef1c7578ecfa69dd8eeadc47614a9a3f58e6070af5e027a1b7490960de7int,
            y: 0x175185b62dee5c542d60c415c8e822f910dbe7dd4ef660c65e5965d5506ef5a8int,
        }),
{
    let (g, q) = (pallas_generator(), pallas_image());
    lemma_pallas_points();
    lemma_pallas_chain_4();
    lemma_step::<Pallas>(g, q, 0x1279a745903nat, 0x1279a745902nat, 1, 1);
    lemma_double_at::<Pallas>(0x32a1960e880816d3d151a7a4c902c950775f1f77206c0c9caa24ad03018b17int, 0x285ae325138822f289439e200d9c2c572a8f3cd510b2b7e62a7d6c6980769982int, 0x158dcd8a239099b5c43fec0dd692b1164125d889bb52dd4843cfbd81752672d0int, 0x1c0e163b849a43730d37f1de608ebd4fe6a87a851ffd26a1829425041f07801aint, 0x1977280796c807c8c28167531e1dd939d3a90d98152ddcbac638dfd77eefbc85int);
    lemma_sum_at::<Pallas>(0x1c0e163b849a43730d37f1de608ebd4fe6a87a851ffd26a1829425041f07801aint, 0x1977280796c807c8c28167531e1dd939d3a90d98152ddcbac638dfd77eefbc85int, 0x37110294d9c19cccc58f4a73808e655b40d6873757513f08cd72271b9df52e99int, 0x330586adc4ddb72abc290020e8266cfa5a19acb35a671344d4c234dca28b8a85int, 0x2cc648097211c02ab0eb853e3ba319ceb05a0dea8f56f57ef3b68f34a762ee18int, 0x3df2bd813c41377369907767c76bad9c690e9ae19bc7b757f6125244371e2504int, 0x6c50089abebca2786d42df3e97d1a52cb5bf08f63b474a0c68dd0f5b0fefc0dint);
    lemma_step::<Pallas>(g, q, 0x24f34e8b207nat, 0x24f34e8b205nat, 1, 0);
    lemma_double_at::<Pallas>(0x3df2bd813c41377369907767c76bad9c690e9ae19bc7b757f6125244371e2504int, 0x6c50089abebca2786d42df3e97d1a52cb5bf08f63b474a0c68dd0f5b0fefc0dint, 0x157d3919eef183e4b5e22ad709efaacaaf908f43ebb563eb850dccc3c8735478int, 0x39e21022486441fedc07655e642dd30a8e309af767e24808973e84c53d31ec75int, 0x1e870d3102788472bf66e4ee1d07184230e26025e7b06de196248f277476b1d7int);
    lemma_sum_at::<Pallas>(0x39e21022486441fedc07655e642dd30a8e309af767e24808973e84c53d31ec75int, 0x1e870d3102788472bf66e4ee1d07184230e26025e7b06de196248f277476b1d7int, 0x40000000000000000000000000000000224698fc094cf91b992d30ed00000000int, 2int, 0x1ffff5921f26b6da22b65e7fcd6f7b94dc2d2089d28060edca1c072eb83b96e5int, 0x1b126f0cf3e8e9e711c1b3d0b3c7546d18ad266ff23c247a38e8be6a058ecdffint, 0x16628f1b993ec2c94d0bdd8da8edc62122a3ccd78c6c7a8deea7e616c13df9abint);
    lemma_step::<Pallas>(g, q, 0x49e69d1640fnat, 0x49e69d1640anat, 0, 1);
    lemma_double_at::<Pallas>(0x1b126f0cf3e8e9e711c1b3d0b3c7546d18ad266ff23c247a38e8be6a058ecdffint, 0x16628f1b993ec2c94d0bdd8da8edc62122a3ccd78c6c7a8deea7e616c13df9abint, 0x2a004ef82fde192a562d28fc3fc1c267f4bd23c1d00e8e087a9fb7e818d79c43int, 0x8672875bc1f9c8bcf1b0dcc4aa4b8be59bd04ae2de19e1dd3facf2a13e8d467int, 0xba99d2f20f78c71bd73ada0b38b3f0e8bbb3d51ed683efb95ced21477745224int);
    lemma_sum_at::<Pallas>(0x8672875bc1f9c8bcf1b0dcc4aa4b8be59bd04ae2de19e1dd3facf2a13e8d467int, 0xba99d2f20f78c71bd73ada0b38b3f0e8bbb3d51ed683efb95ced21477745224int, 0x2d33357cb532458ed3552a23a8554e5005270d29d19fc7d27b7fd22f0201b548int, 0x40000000000000000000000000000000224698fc094cf91b992d30ecffffffffint, 0x3cd090f45b09a0f23b192cb24c46efd23001a552925800980a70edb055f679d8int, 0x1379b3b3d3791820ba81305fe9888251b0c72359c20f18464a7124b9c38cc2cint, 0x8a071fb50b9a6868d08a1719d9ffd5fada9c78cfca25cfbe1de8914ec629b96int);
    lemma_step::<Pallas>(g, q, 0x93cd3a2c81enat, 0x93cd3a2c815nat, 0, 0);
    lemma_double_at::<Pallas>(0x1379b3b3d3791820ba81305fe9888251b0c72359c20f18464a7124b9c38cc2cint, 0x8a071fb50b9a6868d08a1719d9ffd5fada9c78cfca25cfbe1de8914ec629b96int, 0x28854fec7ee12fca949cc291a61b39140a120517420907bb87d346af6aa75f7int, 0x25ed506bc84ed10c236b02989751cfbb3b3e135acc1d67804979d6b1122fc87cint, 0x171ac6c81fe19064a5f58d868f852ed4bd395636b01b13c7b397f2be83b318ddint);
    lemma_step::<Pallas>(g, q, 0x1279a745903cnat, 0x1279a745902anat, 0, 0);
    lemma_double_at::<Pallas>(0x25ed506bc84ed10c236b02989751cfbb3b3e135acc1d67804979d6b1122fc87cint, 0x171ac6c81fe19064a5f58d868f852ed4bd395636b01b13c7b397f2be83b318ddint, 0x39b5713921797c94ae0b58552604ee83573fe376a9a1eeff0adbc424111f7777int, 0x2705f65b9c9ae660b3796e784e3f7c8d67ed36dab45642d417e4abec72dff288int, 0x353ba1a497ecc83a4ab9f4d26158673d1fdb25b4f23a4e6ea69968655e7d0662int);
    lemma_step::<Pallas>(g, q, 0x24f34e8b2078nat, 0x24f34e8b2054nat, 0, 0);
    lemma_double_at::<Pallas>(0x2705f65b9c9ae660b3796e784e3f7c8d67ed36dab45642d417e4abec72dff288int, 0x353ba1a497ecc83a4ab9f4d26158673d1fdb25b4f23a4e6ea69968655e7d0662int, 0x1a12ca9fd569c7fe22bb24e7329950ffd24e1d94ad1ce256fdbe7db47479d345int, 0x1f753a7b061c16296314ecaeb7ab01f0cc075b2f46460bd06ce8d137356440c9int, 0x1db23fccb02363c5cd0f07ab9c379205d41dc52b72f5b8ad1876e571d6e11f9int);
    lemma_step::<Pallas>(g, q, 0x49e69d1640f0nat, 0x49e69d1640a8nat, 0, 1);
    lemma_double_at::<Pallas>(0x1f753a7b061c16296314ecaeb7ab01f0cc075b2f46460bd06ce8d137356440c9int, 0x1db23fccb02363c5cd0f07ab9c379205d41dc52b72f5b8ad1876e571d6e11f9int, 0x36dd5080788e95786d38f20c0bb3a60e284df3550d75126cd08e089ef8306db8int, 0x290dc0bf491256c7e5ce4185b037ed78095cd5240311a8b23b279ab254829dcdint, 0x282b60108740d0dd176e5e5401ca3176be97344839e02285e70eeb24bd77fbd6int);
    lemma_sum_at::<Pallas>(0x290dc0bf491256c7e5ce4185b037ed78095cd5240311a8b23b279ab254829dcdint, 0x282b60108740d0dd176e5e5401ca3176be97344839e02285e70eeb24bd77fbd6int, 0x2d33357cb532458ed3552a23a8554e5005270d29d19fc7d27b7fd22f0201b548int, 0x40000000000000000000000000000000224698fc094cf91b992d30ecffffffffint, 0xc1a03b7a7a410d110cacb6d80c9fd84a7a7e1342b0e58477fa933ff975c1ef6int, 0x1c67ffc26cf2bcaadc4a7f143252d52be564e12d24be3045c2d809603b6733aaint, 0x112a5309604c99f799f2667c77c1ab01b589e073f54a22ca1990b25f6217f6c8int);
    lemma_step::<Pallas>(g, q, 0x93cd3a2c81e0nat, 0x93cd3a2c8151nat, 1, 0);
    lemma_double_at::<Pallas>(0x1c67ffc26cf2bcaadc4a7f143252d52be564e12d24be3045c2d809603b6733aaint, 0x112a5309604c99f799f2667c77c1ab01b589e073f54a22ca1990b25f6217f6c8int, 0x1adc703d8dccd80539eeb318071ce0c475d1b813216b88f4a0619899074d7e4aint, 0x327feb9538e6042941f3df01e5717cc56d5058456dc265ffb3223cd75cba2256int, 0x3dfaa3310fa761cc6a37b178e88cf843ca37c9a27035514accd6a960ffd39f13int);
    lemma_sum_at::<Pallas>(0x327feb9538e6042941f3df01e5717cc56d5058456dc265ffb3223cd75cba2256int, 0x3dfaa3310fa761cc6a37b178e88cf843ca37c9a27035514accd6a960ffd39f13int, 0x40000000000000000000000000000000224698fc094cf91b992d30ed00000000int, 2int, 0xf2850dc2aad66b8a4de23e3521bf9243489d45a4e9fb9f94baf6632e36334ceint, 0x16118ef1c7578ecfa69dd8eeadc47614a9a3f58e6070af5e027a1b7490960de7int, 0x175185b62dee5c542d60c415c8e822f910dbe7dd4ef660c65e5965d5506ef5a8int);
}

proof fn lemma_pallas_chain_6()
    ensures
        joint::<Pallas>(
            pallas_generator(),
            pallas_image(),
            0x1279a745903c124nat,
            0x1279a745902a265nat,
        ) == (Pt::At {
            x: 0x339f5d0876fc08c35ba86677158de22b82c62f399d436cf1e671d12eb34a293dint,
            y: 0x25888e4445e47c4c8c1bc27024acbbeb5a03358fde86faf751323919d907ef0aint,
        }),
        on_curve::<Pallas>(Pt::At {
            x: 0x339f5d0876fc08c35ba86677158de22b82c62f399d436cf1e671d12eb34a293dint,
            y: 0x25888e4445e47c4c8c1bc27024acbbeb5a03358fde86faf751323919d907ef0aint,
        }),
{
    let (g, q) = (pallas_generator(), pallas_image());
    lemma_pallas_points();
    lemma_pallas_chain_5();
    lemma_step::<Pallas>(g, q, 0x1279a745903c1nat, 0x1279a745902a2nat, 0, 0);
    lemma_double_at::<Pallas>(0x16118ef1c7578ecfa69dd8eeadc47614a9a3f58e6070af5e027a1b7490960de7int, 0x175185b62dee5c542d60c415c8e822f910dbe7dd4ef660c65e5965d5506ef5a8int, 0x269935bdd9249f726bc33f2a25027666d5b7f89f91b9b6c33aba0302d10cde12int, 0x367fe9af9407e770ceb467a751f97242a85f8a9111c27d83ec945006dcf9d893int, 0xa9c0af4d71d1d1b08f2a6ee98e1113ca631f7b7207286937effc788a2890015int);
    lemma_step::<Pallas>(g, q, 0x24f34e8b20782nat, 0x24f34e8b20544nat, 0, 1);
    lemma_double_at::<Pallas>(0x367fe9af9407e770ceb467a751f97242a85f8a9111c27d83ec945006dcf9d893int, 0xa9c0af4d71d1d1b08f2a6ee98e1113ca631f7b7207286937effc788a2890015int, 0x17803488c165a136243b75463005c96ff164aed2f06a7f6af61e250469e9cf09int, 0x2e5d4b9a14a43d7a992230b7845e7c519eaf6b5ebc6db9839de051d5dd0cebffint, 0x2bcd491db183b8359d690edb33078d0b60602b22b2aa58c0f2680e9e0fc3f0c6int);
    lemma_sum_at::<Pallas>(0x2e5d4b9a14a43d7a992230b7845e7c519eaf6b5ebc6db9839de051d5dd0cebffint, 0x2bcd491db183b8359d690edb33078d0b60602b22b2aa58c0f2680e9e0fc3f0c6int, 0x2d33357cb532458ed3552a23a8554e5005270d29d19fc7d27b7fd22f0201b548int, 0x40000000000000000000000000000000224698fc094cf91b992d30ecffffffffint, 0x3a5a4c10205dd056b8ca43543a2ea8e3c075bc70ccfccb05208faf866ac3449fint, 0x3bcc7f443cb99a02f3bbc53cf728fcf3a7659c1860ac3740219b80e9344bf85cint, 0x2a92ce6862ed15ac39fe40c81c04c09252122ca02211042937d8c49bbb703e62int);
    lemma_step::<Pallas>(g, q, 0x49e69d1640f04nat, 0x49e69d1640a89nat, 1, 1);
    lemma_double_at::<Pallas>(0x3bcc7f443cb99a02f3bbc53cf728fcf3a7659c1860ac3740219b80e9344bf85cint, 0x2a92ce6862ed15ac39fe40c81c04c09252122ca02211042937d8c49bbb703e62int, 0xc3b4fe8dd861571b1b14f63c4993aa70fc19b60a961d25cc2834e27f6d7bffint, 0x2fd716537cf0f5901b07129f3c02192eb69e42b74fca02d07237fac29322c9afint, 0x15fc6327c6bb8691223cddfe1b80015f58ac1301b00f204c02f51a45e0720b6cint);
    lemma_sum_at::<Pallas>(0x2fd716537cf0f5901b07129f3c02192eb69e42b74fca02d07237fac29322c9afint, 0x15fc6327c6bb8691223cddfe1b80015f58ac1301b00f204c02f51a45e0720b6cint, 0x37110294d9c19cccc58f4a73808e655b40d6873757513f08cd72271b9df52e99int, 0x330586adc4ddb72abc290020e8266cfa5a19acb35a671344d4c234dca28b8a85int, 0x3e9588d7695c906bb783429c6c15fcd573542ce998321a771e8676acb9ba4b3eint, 0x3fdaef00f23a23359c231f54e9ecd70d960eff85e28ff6ad8a6552afce38b439int, 0x2fed3e0ac063c6c3d010a9c4c45865f86e8ca82ef5643328e5ae19fa3a864b29int);
    lemma_step::<Pallas>(g, q, 0x93cd3a2c81e09nat, 0x93cd3a2c81513nat, 0, 0);
    lemma_double_at::<Pallas>(0x3fdaef00f23a23359c231f54e9ecd70d960eff85e28ff6ad8a6552afce38b439int, 0x2fed3e0ac063c6c3d010a9c4c45865f86e8ca82ef5643328e5ae19fa3a864b29int, 0x283d978d811bfd01b8506d42682165d39a7bcbd2a0c512c33b00c86a1cae3fc7int, 0xc8f75624f744edf3cb136d5332f28ae7d38c7f97e17398c398954dd1bfd40ecint, 0x22d64cfa55731311cf64bbb6230e43e1c3cd7b1b20ab8760b5488bc13f1be93dint);
    lemma_step::<Pallas>(g, q, 0x1279a745903c12nat, 0x1279a745902a26nat, 0, 0);
    lemma_double_at::<Pallas>(0xc8f75624f744edf3cb136d5332f28ae7d38c7f97e17398c398954dd1bfd40ecint, 0x22d64cfa55731311cf64bbb6230e43e1c3cd7b1b20ab8760b5488bc13f1be93dint, 0x303b81466ef21d24e88c898d7bef66bc515b442c0f56a97cca8e9c43b47500d2int, 0x196f2a1fe9e47793dcba8433c01d1151b601ce3ec0f41ebb140bbf05426f7ec8int, 0x282cc4fc04a85e59a358a30ec8da7b0cc2ce4cdc88ba2832bc87d3bb95ffd73fint);
    lemma_step::<Pallas>(g, q, 0x24f34e8b207824nat, 0x24f34e8b20544cnat, 1, 1);
    lemma_double_at::<Pallas>(0x196f2a1fe9e47793dcba8433c01d1151b601ce3ec0f41ebb140bbf05426f7ec8int, 0x282cc4fc04a85e59a358a30ec8da7b0cc2ce4cdc88ba2832bc87d3bb95ffd73fint, 0x2bed3f43a254fc10b61de8bf10ab27accf62bf2831694a331b942eb76332ade2int, 0x253fa4715b6eb8024f8f560feedfad616172fc1f1d779eae9f3dc74e182daa0int, 0x1f8a5a288df14afd96d7fe4abe8c8e3b4a7cdf65cf65629fdb67af1095c7c63bint);
    lemma_sum_at::<Pallas>(0x253fa4715b6eb8024f8f560feedfad616172fc1f1d779eae9f3dc74e182daa0int, 0x1f8a5a288df14afd96d7fe4abe8c8e3b4a7cdf65cf65629fdb67af1095c7c63bint, 0x37110294d9c19cccc58f4a73808e655b40d6873757513f08cd72271b9df52e99int, 0x330586adc4ddb72abc290020e8266cfa5a19acb35a671344d4c234dca28b8a85int, 0x2bfc207a3ba88eb34d35d867c8f33dc2a3077735a867bf87d64db2d2e0756f02int, 0x296ea1b49e3fef8e5db4a5e4a5826784065db9c988d1b7b4d42ec11fb0410acbint, 0x3ffb8b12391b923b3ec1da8154518abce2cb8ff97d1e3b06317f2f4c47889c2aint);
    lemma_step::<Pallas>(g, q, 0x49e69d1640f049nat, 0x49e69d1640a899nat, 0, 0);
    lemma_double_at::<Pallas>(0x296ea1b49e3fef8e5db4a5e4a5826784065db9c988d1b7b4d42ec11fb0410acbint, 0x3ffb8b12391b923b3ec1da8154518abce2cb8ff97d1e3b06317f2f4c47889c2aint, 0x30cd1d8157d4aeaa10224c8ac1343719bda8f028ecd9183abcf2ddd177e4a632int, 0x1ae82c96ccfc7cd15eac63820dfc97e771370a756f9cdc1719df171155e1280cint, 0x9e009fe18040f778b2c4159c75a7f002a551778eb8f71537b9223d8c00446d4int);
    lemma_step::<Pallas>(g, q, 0x93cd3a2c81e092nat, 0x93cd3a2c815132nat, 0, 1);
    lemma_double_at::<Pallas>(0x1ae82c96ccfc7cd15eac63820dfc97e771370a756f9cdc1719df171155e1280cint, 0x9e009fe18040f778b2c4159c75a7f002a551778eb8f71537b9223d8c00446d4int, 0x32f374d911b75359f8791717f6d421cc437737b71dfc77050322a6947f90ef2eint, 0x238f0caedaf7a9fb74e3e0497915138e6b0f79286c3819abe0753b83fcfb11d0int, 0x3c844c4582ba193570afa2a4dba521cf1fb1b4ed9c8d7f6afe642f575990150int);
    lemma_sum_at::<Pallas>(0x238f0caedaf7a9fb74e3e0497915138e6b0f79286c3819abe0753b83fcfb11d0int, 0x3c844c4582ba193570afa2a4dba521cf1fb1b4ed9c8d7f6afe642f575990150int, 0x2d33357cb532458ed3552a23a8554e5005270d29d19fc7d27b7fd22f0201b548int, 0x40000000000000000000000000000000224698fc094cf91b992d30ecffffffffint, 0x12bcbfc73e0b38305eef62d470e33bab19f63a4c884099f41fd0282ecee8119fint, 0x339f5d0876fc08c35ba86677158de22b82c62f399d436cf1e671d12eb34a293dint, 0x25888e4445e47c4c8c1bc27024acbbeb5a03358fde86faf751323919d907ef0aint);
}

proof fn lemma_pallas_chain_7()
    ensures
        joint::<Pallas>(
            pallas_generator(),
            pallas_image(),
            0x1279a745903c12455nat,
            0x1279a745902a2654enat,
        ) == (Pt::At {
            x: 0x2b7a3be757cf67f3b0330cafda0793936b589e523ad9330d22e9f5dfcb109607int,
            y: 0x211416e7ee14ea407df202676a502e8c5e0b2061d402e1031f5557c50a3340daint,
        }),
        on_curve::<Pallas>(Pt::At {
            x: 0x2b7a3be757cf67f3b0330cafda0793936b589e523ad9330d22e9f5dfcb109607int,
            y: 0x211416e7ee14ea407df202676a502e8c5e0b2061d402e1031f5557c50a3340daint,
        }),
{
    let (g, q) = (pallas_generator(), pallas_image());
    lemma_pallas_points();
    lemma_pallas_chain_6();
    lemma_step::<Pallas>(g, q, 0x1279a745903c124nat, 0x1279a745902a265nat, 0, 0);
    lemma_double_at::<Pallas>(0x339f5d0876fc08c35ba86677158de22b82c62f399d436cf1e671d12eb34a293dint, 0x25888e4445e47c4c8c1bc27024acbbeb5a03358fde86faf751323919d907ef0aint, 0xd1b170b3a8e81ae90789c8e50241799f914ca91d266259a6854a3f47ff52779int, 0x36f34e60f46f5e047bb24578ea64205afe6c45167dd61d681d9c80577a200a3int, 0x3ea62cf411018dc96814363d35bbcc0ddec27bc4bb752f904dc76a65e7750c2aint);
    lemma_step::<Pallas>(g, q, 0x24f34e8b2078248nat, 0x24f34e8b20544canat, 1, 1);
    lemma_double_at::<Pallas>(0x36f34e60f46f5e047bb24578ea64205afe6c45167dd61d681d9c80577a200a3int, 0x3ea62cf411018dc96814363d35bbcc0ddec27bc4bb752f904dc76a65e7750c2aint, 0x35cd0f4b20660179b34386175f8fd518e5ad15bdaebcef2c6f298a3114185a10int, 0xee4ac2337b2affb3358c3a8c8298e40fee1b0d4343a0e0ed82851f96f210ff8int, 0x1fc6a181096f1a651cba83040720fa85ff0812053e51945adfab9478188c6a4fint);
    lemma_sum_at::<Pallas>(0xee4ac2337b2affb3358c3a8c8298e40fee1b0d4343a0e0ed82851f96f210ff8int, 0x1fc6a181096f1a651cba83040720fa85ff0812053e51945adfab9478188c6a4fint, 0x37110294d9c19cccc58f4a73808e655b40d6873757513f08cd72271b9df52e99int, 0x330586adc4ddb72abc290020e8266cfa5a19acb35a671344d4c234dca28b8a85int, 0x24ada99f397046653e82f4b659869cab9601cf37b95e5a79c99f14c525804c07int, 0x2c55792ed53718521599b7827c1774f11239d1aef99f6549d17bde90c3ba2befint, 0x36375d805071d0630accd76c77e5e4ec67892732538da87168cce83aef186847int);
    lemma_step::<Pallas>(g, q, 0x49e69d1640f0491nat, 0x49e69d1640a8995nat, 0, 0);
    lemma_double_at::<Pallas>(0x2c55792ed53718521599b7827c1774f11239d1aef99f6549d17bde90c3ba2befint, 0x36375d805071d0630accd76c77e5e4ec67892732538da87168cce83aef186847int, 0x25548e85a4d9137a5a39899959990183a497bc8575b7d1cbe59fbd0cc78f6e6bint, 0x1cfcb064837f8f597a58a2a82452dda3e561d80b8cd78b4c61840cbe9c47ad82int, 0x5d2ca43f8650b3a65d95a991ca53fcb2325a71459633dbb0c64feefe9ced9dcint);
    lemma_step::<Pallas>(g, q, 0x93cd3a2c81e0922nat, 0x93cd3a2c815132anat, 1, 0);
    lemma_double_at::<Pallas>(0x1cfcb064837f8f597a58a2a82452dda3e561d80b8cd78b4c61840cbe9c47ad82int, 0x5d2ca43f8650b3a65d95a991ca53fcb2325a71459633dbb0c64feefe9ced9dcint, 0x191d467054a4e6e71f1f05d62ade32f7691437dc6d4060c5ba28da5c98ea5d9dint, 0x216f0adce71692a99c92d2caae369d14d0540e52ad12e7a5bbab1b0185969616int, 0x243019c553fda73e470c83801939dda9cbb8c3ef9afce113913cec8d7ce1b48fint);
    lemma_sum_at::<Pallas>(0x216f0adce71692a99c92d2caae369d14d0540e52ad12e7a5bbab1b0185969616int, 0x243019c553fda73e470c83801939dda9cbb8c3ef9afce113913cec8d7ce1b48fint, 0x40000000000000000000000000000000224698fc094cf91b992d30ed00000000int, 2int, 0x17c0e2b1d07b258bd08e3ab785cf95b86c06b3350dfc21bdca4a36f723c168eint, 0x2354b3a5ed22ba60918b38ada05df944143e0f976744d883701805e5e602473dint, 0x3d0c570f02731261812d3740cef09b6aade4c9608093264e0f7b1fc6237382caint);
    lemma_step::<Pallas>(g, q, 0x1279a745903c1245nat, 0x1279a745902a2654nat, 0, 1);
    lemma_double_at::<Pallas>(0x2354b3a5ed22ba60918b38ada05df944143e0f976744d883701805e5e602473dint, 0x3d0c570f02731261812d3740cef09b6aade4c9608093264e0f7b1fc6237382caint, 0x16984b3d4aa566b27c4e800a0e4e022a4820c28eaefde7e993781a0ab136a61eint, 0x28e0d3d8f040ddf072dec2b40c1158bf907ce1eb647e238f4b02d37cf9329368int, 0x88fbcc414c8702d31acaeafc08eea91adbcb367a11fab44bd143e7c9022a888int);
    lemma_sum_at::<Pallas>(0x28e0d3d8f040ddf072dec2b40c1158bf907ce1eb647e238f4b02d37cf9329368int, 0x88fbcc414c8702d31acaeafc08eea91adbcb367a11fab44bd143e7c9022a888int, 0x2d33357cb532458ed3552a23a8554e5005270d29d19fc7d27b7fd22f0201b548int, 0x40000000000000000000000000000000224698fc094cf91b992d30ecffffffffint, 0x2551a34430339aab3edc2e6aaa6d7fe7da646d0f214f1e25e6541d3fa8d4b8e9int, 0x3cc5556fee7a3f11033200350688ad9d9ca25057d889bb3fa3230b81d5a5bf0eint, 0x2cb03a158eb061f80ae644db6737be77980ce373f9cd3dc607e355f9bbf5bafdint);
    lemma_step::<Pallas>(g, q, 0x24f34e8b2078248anat, 0x24f34e8b20544ca9nat, 1, 1);
    lemma_double_at::<Pallas>(0x3cc5556fee7a3f11033200350688ad9d9ca25057d889bb3fa3230b81d5a5bf0eint, 0x2cb03a158eb061f80ae644db6737be77980ce373f9cd3dc607e355f9bbf5bafdint, 0x3f845b730fb91fac36dce322250ce8b5a2f5239308049355d09a4c2c136a73d8int, 0x3a9aa49044cd7bb1a4e0c728fae664256fc6db01b34c220fc311ed861a323bc9int, 0x994f9d0d8c816da3c6a0090a9f0a8eb6184a2ee978f274582196897f15e3f03int);
    lemma_sum_at::<Pallas>(0x3a9aa49044cd7bb1a4e0c728fae664256fc6db01b34c220fc311ed861a323bc9int, 0x994f9d0d8c816da3c6a0090a9f0a8eb6184a2ee978f274582196897f15e3f03int, 0x37110294d9c19cccc58f4a73808e655b40d6873757513f08cd72271b9df52e99int, 0x330586adc4ddb72abc290020e8266cfa5a19acb35a671344d4c234dca28b8a85int, 0x298c0eaecaec731c28a9971c001c2fe65d40bc4e4fd96103c805a2d92dadac9int, 0x208556393309b8e869de08f065ead44f592b1f40ef8d14a2552fd9fb44587d80int, 0x1c98402ae838d07c2fe2a80d8bcf01f1ce274c5bc5e8f91052d37022065eded1int);
    lemma_step::<Pallas>(g, q, 0x49e69d1640f04915nat, 0x49e69d1640a89953nat, 0, 1);
    lemma_double_at::<Pallas>(0x208556393309b8e869de08f065ead44f592b1f40ef8d14a2552fd9fb44587d80int, 0x1c98402ae838d07c2fe2a80d8bcf01f1ce274c5bc5e8f91052d37022065eded1int, 0x3bbc3d7878e6c908b1ce815a05a3bcace10c88b4944e7fc1ce97f4c9f1f1c41dint, 0x29cd53bf688d4edb540511f6921692af847e68070d39e018066fd4b931478388int, 0xae8dcce2ea22e09079f267e9f979f3dc370d18173faafed8a63922b2cdaaf15int);
    lemma_sum_at::<Pallas>(0x29cd53bf688d4edb540511f6921692af847e68070d39e018066fd4b931478388int, 0xae8dcce2ea22e09079f267e9f979f3dc370d18173faafed8a63922b2cdaaf15int, 0x2d33357cb532458ed3552a23a8554e5005270d29d19fc7d27b7fd22f0201b548int, 0x40000000000000000000000000000000224698fc094cf91b992d30ecffffffffint, 0x2ef3bc3580de32d3437eac2b0dcd5e1087db89a050c990521d71f90b6e107ca3int, 0xadd1540d75aa4a4eae239115b314dbf77b03860e714366b990a409ab5ad70bint, 0xa77d0c9e00b60acc4acec958d8f75d26af70688458c19065629e3210126d857int);
    lemma_step::<Pallas>(g, q, 0x93cd3a2c81e0922anat, 0x93cd3a2c815132a7nat, 1, 0);
    lemma_double_at::<Pallas>(0xadd1540d75aa4a4eae239115b314dbf77b03860e714366b990a409ab5ad70bint, 0xa77d0c9e00b60acc4acec958d8f75d26af70688458c19065629e3210126d857int, 0x22df6bde6a1865f0ab1c46ec1ceb7427a3d89338f3417618590faca11c3d2c3cint, 0x1f1993ad8f93c78e895fa4ed415b25b59f49d01e264b4e1f94945573c2ee1c9bint, 0xe06a813a4a8eb5fdc8812ee3c9ac92c8041a1f3712a26dea5f5ad0085e4c524int);
    lemma_sum_at::<Pallas>(0x1f1993ad8f93c78e895fa4ed415b25b59f49d01e264b4e1f94945573c2ee1c9bint, 0xe06a813a4a8eb5fdc8812ee3c9ac92c8041a1f3712a26dea5f5ad0085e4c524int, 0x40000000000000000000000000000000224698fc094cf91b992d30ed00000000int, 2int, 0x2eb6b629c08eeb2d8b5588c8cbbb593b5f2d4e0eaac08bb86418ad9a1543d511int, 0x2b7a3be757cf67f3b0330cafda0793936b589e523ad9330d22e9f5dfcb109607int, 0x211416e7ee14ea407df202676a502e8c5e0b2061d402e1031f5557c50a3340daint);
}

proof fn lemma_pallas_chain_8()
    ensures
        joint::<Pallas>(
            pallas_generator(),
            pallas_image(),
            0x1279a745903c12455ffnat,
            0x1279a745902a2654e32nat,
        ) == (Pt::At {
            x: 0x2e1a790f774ee742a38ffe92382b97c774979e6db4d6665f3b0d0749370d3bb9int,
            y: 0x132bbbc3a2fd64eda9d8b05544ac39bbd5a7556ab15d5861f0c0111d079c2b0int,
        }),
        on_curve::<Pallas>(Pt::At {
            x: 0x2e1a790f774ee742a38ffe92382b97c774979e6db4d6665f3b0d0749370d3bb9int,
            y: 0x132bbbc3a2fd64eda9d8b05544ac39bbd5a7556ab15d5861f0c0111d079c2b0int,
        }),
{
    let (g, q) = (pallas_generator(), pallas_image());
    lemma_pallas_points();
    lemma_pallas_chain_7();
    lemma_step::<Pallas>(g, q, 0x1279a745903c12455nat, 0x1279a745902a2654enat, 1, 0);
    lemma_double_at::<Pallas>(0x2b7a3be757cf67f3b0330cafda0793936b589e523ad9330d22e9f5dfcb109607int, 0x211416e7ee14ea407df202676a502e8c5e0b2061d402e1031f5557c50a3340daint, 0x69a42123fd3bf15c3df21f998ef22c2a5820ffca7d6eac5f8f69ecb840bfd5cint, 0x3d9f614e43475febc93983b3c1029c1b4a932bc289bb8d8a1e06ca1e49fbf0dcint, 0x2ff61d9b19afd75e05d17818d903e8e518504a5faae101682c0d427fa3360ba3int);
    lemma_sum_at::<Pallas>(0x3d9f614e43475febc93983b3c1029c1b4a932bc289bb8d8a1e06ca1e49fbf0dcint, 0x2ff61d9b19afd75e05d17818d903e8e518504a5faae101682c0d427fa3360ba3int, 0x40000000000000000000000000000000224698fc094cf91b992d30ed00000000int, 2int, 0x11b3276428cebddd56121e19f10b228ada56c9db61f8519c6b6977bb355af8d1int, 0x30588ceaad21d20e4afb9041c69c34855dddb431d2479103777c2ad0d9992093int, 0x20aef4c4b127216d21ab329b1967b63d30ba272d9b07022a7e587b829430514int);
    lemma_step::<Pallas>(g, q, 0x24f34e8b2078248abnat, 0x24f34e8b20544ca9cnat, 1, 0);
    lemma_double_at::<Pallas>(0x30588ceaad21d20e4afb9041c69c34855dddb431d2479103777c2ad0d9992093int, 0x20aef4c4b127216d21ab329b1967b63d30ba272d9b07022a7e587b829430514int, 0x712c8b73049a516712fbdbbcd0bc5604052d1897af653e99b895f32f397ba73int, 0x2c707d005058cc23748b810da2c6228d5afabf900d4307184c1713ca577da54fint, 0x1d04ef86439aa00376eafc9dcc07ea33ae65da293b2c7aaf3d59fe06eb19746aint);
    lemma_sum_at::<Pallas>(0x2c707d005058cc23748b810da2c6228d5afabf900d4307184c1713ca577da54fint, 0x1d04ef86439aa00376eafc9dcc07ea33ae65da293b2c7aaf3d59fe06eb19746aint, 0x40000000000000000000000000000000224698fc094cf91b992d30ed00000000int, 2int, 0x39c3d9f40a5096c996bbb629f9700b9d769c6005be3f8f9d77b2ce8bc684029cint, 0xa16d677360d984d413336e639c5230b943d2875f68e40e4cb6ceb4c2d654e20int, 0x20588eb53800d093641bd22f0ba7d6fe82bbfa586b1639f57c196b20c55b077bint);
    lemma_step::<Pallas>(g, q, 0x49e69d1640f049157nat, 0x49e69d1640a899538nat, 1, 1);
    lemma_double_at::<Pallas>(0xa16d677360d984d413336e639c5230b943d2875f68e40e4cb6ceb4c2d654e20int, 0x20588eb53800d093641bd22f0ba7d6fe82bbfa586b1639f57c196b20c55b077bint, 0x1e8ea9fffa88107ba2e99f3ca23faca6055ce7458b7e2b2a4a1de044a5486af3int, 0x1ae3c6d4344a2560163dc60fc83772eae5d7be7a43bb824b33a4b3b6afef196fint, 0xc7fd75457c86075df2a938b34dc671a601ce73311dca3641f4a7f893ecad8a5int);
    lemma_sum_at::<Pallas>(0x1ae3c6d4344a2560163dc60fc83772eae5d7be7a43bb824b33a4b3b6afef196fint, 0xc7fd75457c86075df2a938b34dc671a601ce73311dca3641f4a7f893ecad8a5int, 0x37110294d9c19cccc58f4a73808e655b40d6873757513f08cd72271b9df52e99int, 0x330586adc4ddb72abc290020e8266cfa5a19acb35a671344d4c234dca28b8a85int, 0xc816c8993888be186afc8263c242c0049d3252de0d4a2d9ff7553c988ccfd41int, 0x385a984a6155766553f77a8fc2caf5d37e936da9215de88cbbc81af699fa6fb4int, 0x2910f1174adc2d1519f5963c3387f23d6f06a60327faad87e32c3d99096856abint);
    lemma_step::<Pallas>(g, q, 0x93cd3a2c81e0922afnat, 0x93cd3a2c815132a71nat, 1, 1);
    lemma_double_at::<Pallas>(0x385a984a6155766553f77a8fc2caf5d37e936da9215de88cbbc81af699fa6fb4int, 0x2910f1174adc2d1519f5963c3387f23d6f06a60327faad87e32c3d99096856abint, 0x3ab29b83abe6e0a7b3c489edcb93bbef337ac65b0ba01fd495d3a6c69e3318d2int, 0x3464f7d7516a8a2f5b99c2eed498e1fd9d0a5b52837b262e37e6f22834004412int, 0xc7ae81ed9c0a34c48cfab6fd1e1325f2cc79cb52ef864754336dfad19633347int);
    lemma_sum_at::<Pallas>(0x3464f7d7516a8a2f5b99c2eed498e1fd9d0a5b52837b262e37e6f22834004412int, 0xc7ae81ed9c0a34c48cfab6fd1e1325f2cc79cb52ef864754336dfad19633347int, 0x37110294d9c19cccc58f4a73808e655b40d6873757513f08cd72271b9df52e99int, 0x330586adc4ddb72abc290020e8266cfa5a19acb35a671344d4c234dca28b8a85int, 0x249ba15b098dd3aaf3813657240173090c26a5e3384fcf6360ef3f28c92c9ea6int, 0x394fbe0b4fcf48b1c04620a0ecdb49828491ed10ec5154e90655957224aab6d6int, 0x2982abe0a6b4014d064d514bdb28382f54ed58acf56039eb7f557997c950df8bint);
    lemma_step::<Pallas>(g, q, 0x1279a745903c12455fnat, 0x1279a745902a2654e3nat, 1, 0);
    lemma_double_at::<Pallas>(0x394fbe0b4fcf48b1c04620a0ecdb49828491ed10ec5154e90655957224aab6d6int, 0x2982abe0a6b4014d064d514bdb28382f54ed58acf56039eb7f557997c950df8bint, 0x279c95683f341d09c9ccda544660e0a432c7ea3eec1d8658289a77c8bcd37f5eint, 0x177d584b49a228d2f4e0b260be0a70d0f6732ab558eea60bde706420573e6351int, 0x1405c21748db40f135ad6b981f3e2f6bc210f9ef1febf235a4b21d2c16693b97int);
    lemma_sum_at::<Pallas>(0x177d584b49a228d2f4e0b260be0a70d0f6732ab558eea60bde706420573e6351int, 0x1405c21748db40f135ad6b981f3e2f6bc210f9ef1febf235a4b21d2c16693b97int, 0x40000000000000000000000000000000224698fc094cf91b992d30ed00000000int, 2int, 0x16389f194cc011d1aa054faef4585a2dfde9ee1f9724d9f7c7065ff3995d6d13int, 0xbd229089e0fb19300e14d0669a7abbc0c02a6443302054d2949140c0e4d0879int, 0x1b9476aa0fb852ca555a3c01303a417536b3730f009db6fd45bde00d4d45d186int);
    lemma_step::<Pallas>(g, q, 0x24f34e8b2078248abfnat, 0x24f34e8b20544ca9c6nat, 1, 0);
    lemma_double_at::<Pallas>(0xbd229089e0fb19300e14d0669a7abbc0c02a6443302054d2949140c0e4d0879int, 0x1b9476aa0fb852ca555a3c01303a417536b3730f009db6fd45bde00d4d45d186int, 0x12bd695bc480f814e633de3c2b9323238296fbd2055c8d37224288c82cf430b6int, 0x104699104a26c793b1ee3c748c1d9df5baf04c879cb8f68245744f5151f773d3int, 0xbf57d9baf14aa45deee02539eef10965b00dce8a0b2044f6fc84bb5c3f3b220int);
    lemma_sum_at::<Pallas>(0x104699104a26c793b1ee3c748c1d9df5baf04c879cb8f68245744f5151f773d3int, 0xbf57d9baf14aa45deee02539eef10965b00dce8a0b2044f6fc84bb5c3f3b220int, 0x40000000000000000000000000000000224698fc094cf91b992d30ed00000000int, 2int, 0x2aa0dda21004d9b44ddb8524dbb8fbbf011cc7ff90605f160d83e0b90ca6820aint, 0x1f4fc5ba36fb1c12b98519fe962d2b5a7c467dc27aae695bdf59bf4719a30dfint, 0x8640547ba75483b0eec5af2412b4fe000313e1784f97d700cb84698a97fe037int);
    lemma_step::<Pallas>(g, q, 0x49e69d1640f049157fnat, 0x49e69d1640a899538cnat, 1, 1);
    lemma_double_at::<Pallas>(0x1f4fc5ba36fb1c12b98519fe962d2b5a7c467dc27aae695bdf59bf4719a30dfint, 0x8640547ba75483b0eec5af2412b4fe000313e1784f97d700cb84698a97fe037int, 0x307fc16283c3d35b43d1dd047b00289293b43be725a39c3e68ddbc5636755c08int, 0xd5a77c8ed8588f77a1a18cfb61d79fb4d99912310b49f2a6e45df8ae72908e6int, 0x162e5933bea5bb6ff1f746c9ab24a8cda8507c68f4b3e0765601c5df223616c3int);
    lemma_sum_at::<Pallas>(0xd5a77c8ed8588f77a1a18cfb61d79fb4d99912310b49f2a6e45df8ae72908e6int, 0x162e5933bea5bb6ff1f746c9ab24a8cda8507c68f4b3e0765601c5df223616c3int, 0x37110294d9c19cccc58f4a73808e655b40d6873757513f08cd72271b9df52e99int, 0x330586adc4ddb72abc290020e8266cfa5a19acb35a671344d4c234dca28b8a85int, 0x300358d3f9748e24c5596f4c6473b137ec75ae48f9098051c2933f8b91c89df5int, 0x795f58b6a8068d29e1a22bdc3985c8b02ed376d8bd2c9a8794fb6a554a61352int, 0x5380ab51d0ab0b9640b41e7fccafd2986e18c105cca7e2b829b05a0169dbd9aint);
    lemma_step::<Pallas>(g, q, 0x93cd3a2c81e0922affnat, 0x93cd3a2c815132a719nat, 1, 0);
    lemma_double_at::<Pallas>(0x795f58b6a8068d29e1a22bdc3985c8b02ed376d8bd2c9a8794fb6a554a61352int, 0x5380ab51d0ab0b9640b41e7fccafd2986e18c105cca7e2b829b05a0169dbd9aint, 0x11c94708e56e6e55cadee292adc9b8d63b526305de06e7662aa9813b06ea3cddint, 0x23909d83be0c69998ed2182e3745f83abc47bbb5355e4835ed571190e3b44918int, 0x304c46c25a19a1c5b718a545fcd271293a209f9b3e59b4aafd6c1aadabf2a15cint);
    lemma_sum_at::<Pallas>(0x23909d83be0c69998ed2182e3745f83abc47bbb5355e4835ed571190e3b44918int, 0x304c46c25a19a1c5b718a545fcd271293a209f9b3e59b4aafd6c1aadabf2a15cint, 0x40000000000000000000000000000000224698fc094cf91b992d30ed00000000int, 2int, 0x1a4e56efcde5ccfbcd4f91ad38b28bc4bf84487e11407fb70825b254471c719dint, 0x2e1a790f774ee742a38ffe92382b97c774979e6db4d6665f3b0d0749370d3bb9int, 0x132bbbc3a2fd64eda9d8b05544ac39bbd5a7556ab15d5861f0c0111d079c2b0int);
}

proof fn lemma_pallas_chain_9()
    ensures
        joint::<Pallas>(
            pallas_generator(),
            pallas_image(),
            0x1279a745903c12455ff2bnat,
            0x1279a745902a2654e32c4nat,
        ) == (Pt::At {
            x: 0x3bf3fde21095cb494eab75523a84ce1a95017c7048f6b5d35010ca3af077bc1dint,
            y: 0xdb0861af8c24f8ef4e3751513737e759e8624f1dfc030298426f4a6bbf6bd3fint,
        }),
        on_curve::<Pallas>(Pt::At {
            x: 0x3bf3fde21095cb494eab75523a84ce1a95017c7048f6b5d35010ca3af077bc1dint,
            y: 0xdb0861af8c24f8ef4e3751513737e759e8624f1dfc030298426f4a6bbf6bd3fint,
        }),
{
    let (g, q) = (pallas_generator(), pallas_image());
    lemma_pallas_points();
    lemma_pallas_chain_8();
    lemma_step::<Pallas>(g, q, 0x1279a745903c12455ffnat, 0x1279a745902a2654e32nat, 0, 1);
    lemma_double_at::<Pallas>(0x2e1a790f774ee742a38ffe92382b97c774979e6db4d6665f3b0d0749370d3bb9int, 0x132bbbc3a2fd64eda9d8b05544ac39bbd5a7556ab15d5861f0c0111d079c2b0int, 0x5888cec1dc04204814d9a56e78a85c6eb64c7d9d309fdd36114ccd437632c0aint, 0x12fd83b703a80e0db3b6076b18d1ccfd0e442a610f30750a878f7da062dbf397int, 0x2dbe9b001c8adc4c1af4389879bc5cc23218beb1b1c39e423cb008b8ab90edb2int);
    lemma_sum_at::<Pallas>(0x12fd83b703a80e0db3b6076b18d1ccfd0e442a610f30750a878f7da062dbf397int, 0x2dbe9b001c8adc4c1af4389879bc5cc23218beb1b1c39e423cb008b8ab90edb2int, 0x2d33357cb532458ed3552a23a8554e5005270d29d19fc7d27b7fd22f0201b548int, 0x40000000000000000000000000000000224698fc094cf91b992d30ecffffffffint, 0xba41702626137990ae5bc791fb6272a9deb71387caad749234b8f4ea40fde09int, 0x4055009822b7264c073a2af076eb339f2232594757285a7cbfd444d33fb0f56int, 0x3af7673ee9067400df3f327588340504e91e7bb5a50b59ffedffe5a6a0c3b61bint);
    lemma_step::<Pallas>(g, q, 0x24f34e8b2078248abfenat, 0x24f34e8b20544ca9c65nat, 0, 1);
    lemma_double_at::<Pallas>(0x4055009822b7264c073a2af076eb339f2232594757285a7cbfd444d33fb0f56int, 0x3af7673ee9067400df3f327588340504e91e7bb5a50b59ffedffe5a6a0c3b61bint, 0x18103d59fb4584bbff1c325d6e75b400712aaa0529fe213e5c436dad7bd6ff5cint, 0x86e48a1ad10a3ccb802dc5c387ab73257691b518186eee868ad7a579ad36a2eint, 0x127fbcc71711a02903c57d1cdda2e4f02d2e22664631f4d2d613f7fe52f232f1int);
    lemma_sum_at::<Pallas>(0x86e48a1ad10a3ccb802dc5c387ab73257691b518186eee868ad7a579ad36a2eint, 0x127fbcc71711a02903c57d1cdda2e4f02d2e22664631f4d2d613f7fe52f232f1int, 0x2d33357cb532458ed3552a23a8554e5005270d29d19fc7d27b7fd22f0201b548int, 0x40000000000000000000000000000000224698fc094cf91b992d30ecffffffffint, 0x25624b85a8147ee7d623b24b3fe8f8feab846a03e693226f71f3721770da5515int, 0xa993f6f8407c01c1606ef7ea19621c23f9244bb3d650678dd09f0e0dbf36fedint, 0xc6e285919d7686a4d98f0b6d262e470bbe676cb04aa211093deed98e0db5b1bint);
    lemma_step::<Pallas>(g, q, 0x49e69d1640f049157fcnat, 0x49e69d1640a899538cbnat, 1, 0);
    lemma_double_at::<Pallas>(0xa993f6f8407c01c1606ef7ea19621c23f9244bb3d650678dd09f0e0dbf36fedint, 0xc6e285919d7686a4d98f0b6d262e470bbe676cb04aa211093deed98e0db5b1bint, 0xcac92ed2ffeb4c14497275220b9cdcb55dcf782153f7612e74c1a7148e2125dint, 0x1b86daae7995a696827de4893d7245fa162f73996235c6e4f57ef71db32d21dbint, 0x2cd81380815c5100d90aff35732d0cf58c7a2167b1f1b2bc7c0987852717a692int);
    lemma_sum_at::<Pallas>(0x1b86daae7995a696827de4893d7245fa162f73996235c6e4f57ef71db32d21dbint, 0x2cd81380815c5100d90aff35732d0cf58c7a2167b1f1b2bc7c0987852717a692int, 0x40000000000000000000000000000000224698fc094cf91b992d30ed00000000int, 2int, 0x2625a52e301d5f548bf98d82292caf120146441387e232a452949e0050a47465int, 0x3b680268ded43296ec1dfdecb55a1e773b9e05dfb2277f9c1be26738737fcd3cint, 0x371296fd02f88d06cf7b0f778b38cb9bee04e30ad8790044e019af8a082d33fdint);
    lemma_step::<Pallas>(g, q, 0x93cd3a2c81e0922aff9nat, 0x93cd3a2c815132a7196nat, 0, 0);
    lemma_double_at::<Pallas>(0x3b680268ded43296ec1dfdecb55a1e773b9e05dfb2277f9c1be26738737fcd3cint, 0x371296fd02f88d06cf7b0f778b38cb9bee04e30ad8790044e019af8a082d33fdint, 0x3febdc960ea1f0a675935ad0680ab5f88695fe0a412db7e219bb298c7412052bint, 0x33d4fd575e07024116b424fb9ee2a7d4d26f53235eacbb4996dad8fb31415e38int, 0x801a98cff73a06b3b0688e8501a97c54f8bb82790f974a59bbf59a8950f3e9int);
    lemma_step::<Pallas>(g, q, 0x1279a745903c12455ff2nat, 0x1279a745902a2654e32cnat, 1, 0);
    lemma_double_at::<Pallas>(0x33d4fd575e07024116b424fb9ee2a7d4d26f53235eacbb4996dad8fb31415e38int, 0x801a98cff73a06b3b0688e8501a97c54f8bb82790f974a59bbf59a8950f3e9int, 0x115e304772db5474c0dba9794c70a82e15abd39f3ffc53250c0f9b60c6ae94c5int, 0x3de6c705ad96e2e2a6858fd94dc84da74fd386991b45aaa3fc14af46bd7d8939int, 0x2f7df8f29329b7ecf7e5934a37f7aecef298c83a414f3a48872131cb480b62bdint);
    lemma_sum_at::<Pallas>(0x3de6c705ad96e2e2a6858fd94dc84da74fd386991b45aaa3fc14af46bd7d8939int, 0x2f7df8f29329b7ecf7e5934a37f7aecef298c83a414f3a48872131cb480b62bdint, 0x40000000000000000000000000000000224698fc094cf91b992d30ed00000000int, 2int, 0x3d139234e056196047190b372470d78db95dc1a0c17e551b5e3bd387f0d322a9int, 0x3d5aa7dbe352bb912a1f15e2e0d5d50eeb216dd909e4957e50d4c7910694355cint, 0x6db34895408e5d09990bc372209cf6ef20cd601370b8a98c5bbe1d2d0a12bbdint);
    lemma_step::<Pallas>(g, q, 0x24f34e8b2078248abfe5nat, 0x24f34e8b20544ca9c658nat, 0, 1);
    lemma_double_at::<Pallas>(0x3d5aa7dbe352bb912a1f15e2e0d5d50eeb216dd909e4957e50d4c7910694355cint, 0x6db34895408e5d09990bc372209cf6ef20cd601370b8a98c5bbe1d2d0a12bbdint, 0x20d5c8c0f03b5e2bd2c0d62f2f52da514f584b6f6568d511749a049a148d0e67int, 0x197a2997c9214eb018089ab521e493bdef119eb3ceffd13a24417586cd07018cint, 0x2fcd5b25ba9cca4ed164b3c68076c4b50d1bdf62688af2e2449c12e731997483int);
    lemma_sum_at::<Pallas>(0x197a2997c9214eb018089ab521e493bdef119eb3ceffd13a24417586cd07018cint, 0x2fcd5b25ba9cca4ed164b3c68076c4b50d1bdf62688af2e2449c12e731997483int, 0x2d33357cb532458ed3552a23a8554e5005270d29d19fc7d27b7fd22f0201b548int, 0x40000000000000000000000000000000224698fc094cf91b992d30ecffffffffint, 0x1d14ba19d260b86649dc649791a7cb3fd9ca47aa9ccdb7710728a12ef00c1debint, 0x2907fc148a1113e17e824fa009b6e751c062a6e5106ce0ce63cb9f6b70db2276int, 0x20d9d27f251e82a8e032712438bd6d8ab5b4c644193326964d170dd76b6971faint);
    lemma_step::<Pallas>(g, q, 0x49e69d1640f049157fcanat, 0x49e69d1640a899538cb1nat, 1, 0);
    lemma_double_at::<Pallas>(0x2907fc148a1113e17e824fa009b6e751c062a6e5106ce0ce63cb9f6b70db2276int, 0x20d9d27f251e82a8e032712438bd6d8ab5b4c644193326964d170dd76b6971faint, 0x315180c42bcb6224d4b5421a5a4bc8cfc20395de66a7a0d81b8aa6531289404fint, 0x2a63a822e7d301068e69a3d0559dc8d8e66b9b2d983027188552359fee948cceint, 0x15369e1d13d2c63d629f018abe3a47d5048a864fb3203ad4091f98e7883d10c0int);
    lemma_sum_at::<Pallas>(0x2a63a822e7d301068e69a3d0559dc8d8e66b9b2d983027188552359fee948cceint, 0x15369e1d13d2c63d629f018abe3a47d5048a864fb3203ad4091f98e7883d10c0int, 0x40000000000000000000000000000000224698fc094cf91b992d30ed00000000int, 2int, 0x1e1e70067d897aaab3f31739da2b25caaf794ea15b9ba8545eb50eaec79e3714int, 0x73e233a20c46f1b00ca3864874d2d4ef2b9e0c4fae9bf51f99fcb405390bef1int, 0x411811da67b217f6471f19c8da706f144b6b5ad24719c1065ddbfa4c697f3e9int);
    lemma_step::<Pallas>(g, q, 0x93cd3a2c81e0922aff95nat, 0x93cd3a2c815132a71962nat, 1, 0);
    lemma_double_at::<Pallas>(0x73e233a20c46f1b00ca3864874d2d4ef2b9e0c4fae9bf51f99fcb405390bef1int, 0x411811da67b217f6471f19c8da706f144b6b5ad24719c1065ddbfa4c697f3e9int, 0x156eef6cbd1a33fcbd1c7295d5620eb5a8531fcc60498a5bd66accba142f729bint, 0x21b072484a24420e297c46e0d1ae1b79f5bcfb0275050ab8b5f1819ca445a75int, 0x2594f59aa1e4670db0b71870296689c83c497913726c951028181ff6b849395dint);
    lemma_sum_at::<Pallas>(0x21b072484a24420e297c46e0d1ae1b79f5bcfb0275050ab8b5f1819ca445a75int, 0x2594f59aa1e4670db0b71870296689c83c497913726c951028181ff6b849395dint, 0x40000000000000000000000000000000224698fc094cf91b992d30ed00000000int, 2int, 0x137245106f42394074d2f708d0dca4638914cff94242af70edb131d0ea7406f2int, 0x3bf3fde21095cb494eab75523a84ce1a95017c7048f6b5d35010ca3af077bc1dint, 0xdb0861af8c24f8ef4e3751513737e759e8624f1dfc030298426f4a6bbf6bd3fint);
}

proof fn lemma_pallas_chain_10()
    ensures
        joint::<Pallas>(
            pallas_generator(),
            pallas_image(),
            0x1279a745903c12455ff2b87nat,
            0x1279a745902a2654e32c49enat,
        ) == (Pt::At {
            x: 0x124e8e22a5cb8d6e972ed3b13a058e31f92dc92dc9f50977c1d08df60b7de1b3int,
            y: 0x19bb81217abde46af9b18655f0b991454ee479be13e139ef1d319b62e2eeeaf1int,
        }),
        on_curve::<Pallas>(Pt::At {
            x: 0x124e8e22a5cb8d6e972ed3b13a058e31f92dc92dc9f50977c1d08df60b7de1b3int,
            y: 0x19bb81217abde46af9b18655f0b991454ee479be13e139ef1d319b62e2eeeaf1int,
        }),
{
    let (g, q) = (pallas_generator(), pallas_image());
    lemma_pallas_points();
    lemma_pallas_chain_9();
    lemma_step::<Pallas>(g, q, 0x1279a745903c12455ff2bnat, 0x1279a745902a2654e32c4nat, 1, 1);
    lemma_double_at::<Pallas>(0x3bf3fde21095cb494eab75523a84ce1a95017c7048f6b5d35010ca3af077bc1dint, 0xdb0861af8c24f8ef4e3751513737e759e8624f1dfc030298426f4a6bbf6bd3fint, 0x39793398208e38389d3c9125e7e06c0cd519ee36f0f70e220cdbf817c056c7d6int, 0x92460aff9f3d20e00dc2b9df2345d3ac8dfb55f954736223ceea4bdb8bacc7dint, 0x2c1afcc2501857055de9fed315710579fbc7cfe2c941c44084e37cccc7fb7702int);
    lemma_sum_at::<Pallas>(0x92460aff9f3d20e00dc2b9df2345d3ac8dfb55f954736223ceea4bdb8bacc7dint, 0x2c1afcc2501857055de9fed315710579fbc7cfe2c941c44084e37cccc7fb7702int, 0x37110294d9c19cccc58f4a73808e655b40d6873757513f08cd72271b9df52e99int, 0x330586adc4ddb72abc290020e8266cfa5a19acb35a671344d4c234dca28b8a85int, 0x550be078f9446e682a7ab1746229ec5e5296483e02237eda1629c85777b9d01int, 0xb708f0e8a34928aa7e4f0605e140d54679ac17cf2cfc6e0e746cc432be8c1b7int, 0x15a6f8e973d490fb95e517285647d8923153083bab7d0ba6992b1aa382fab944int);
    lemma_step::<Pallas>(g, q, 0x24f34e8b2078248abfe57nat, 0x24f34e8b20544ca9c6589nat, 0, 0);
    lemma_double_at::<Pallas>(0xb708f0e8a34928aa7e4f0605e140d54679ac17cf2cfc6e0e746cc432be8c1b7int, 0x15a6f8e973d490fb95e517285647d8923153083bab7d0ba6992b1aa382fab944int, 0x3b323aeefd2dab116a334018c3ac46dc6b889f26e1cf6be6c3b9f1492c0f8c83int, 0x55041276e85fc23c6518a83da83fc3fc76f40b2c81d192fdb5b92dabb886e86int, 0x33d7a6ab79df60d74d1b8ccb4d3ef864459fcbf0ce64538d0395e8613b92299aint);
    lemma_step::<Pallas>(g, q, 0x49e69d1640f049157fcaenat, 0x49e69d1640a899538cb12nat, 0, 0);
    lemma_double_at::<Pallas>(0x55041276e85fc23c6518a83da83fc3fc76f40b2c81d192fdb5b92dabb886e86int, 0x33d7a6ab79df60d74d1b8ccb4d3ef864459fcbf0ce64538d0395e8613b92299aint, 0x319585ec0e1a95d899226628f1bd9327c3e3f8f8d817492b6db537603da709a2int, 0x11307e3783baf17858129b1040aee4f50ca56e1594b398877a8961e893c1fe9aint, 0x2d89e5d4d2dd8d8676e27ef40b5ac450826e38b567b648cb7340a48288e3ca7int);
    lemma_step::<Pallas>(g, q, 0x93cd3a2c81e0922aff95cnat, 0x93cd3a2c815132a719624nat, 0, 1);
    lemma_double_at::<Pallas>(0x11307e3783baf17858129b1040aee4f50ca56e1594b398877a8961e893c1fe9aint, 0x2d89e5d4d2dd8d8676e27ef40b5ac450826e38b567b648cb7340a48288e3ca7int, 0x5c63967beb7c09cb06c1209b533b93cd419866c52d312e07bf9a6d230a3d290int, 0x25ea5f1d536b4be58fed4163af23e5218cd2e030ff83449949e867b54a024c55int, 0x3bed3a664c37e08e3122765a1ec7620ac50655e32ea9784c774531e5e720903bint);
    lemma_sum_at::<Pallas>(0x25ea5f1d536b4be58fed4163af23e5218cd2e030ff83449949e867b54a024c55int, 0x3bed3a664c37e08e3122765a1ec7620ac50655e32ea9784c774531e5e720903bint, 0x2d33357cb532458ed3552a23a8554e5005270d29d19fc7d27b7fd22f0201b548int, 0x40000000000000000000000000000000224698fc094cf91b992d30ecffffffffint, 0xd42fcb3d4f383d798cae96760ec0b340b05e7dd095c95b13d9307e2bf17e1e6int, 0x3fc84cd783257347646da46362454c239a9d6038f965ed7a2fd9f6231116176dint, 0x31560fda6118cdf259b3c76b435ec1cef6b338f06900caad64564c6e0cc6b259int);
    lemma_step::<Pallas>(g, q, 0x1279a745903c12455ff2b8nat, 0x1279a745902a2654e32c49nat, 0, 1);
    lemma_double_at::<Pallas>(0x3fc84cd783257347646da46362454c239a9d6038f965ed7a2fd9f6231116176dint, 0x31560fda6118cdf259b3c76b435ec1cef6b338f06900caad64564c6e0cc6b259int, 0x1224f53563ea48b07f733ad77018097373b6038d24da8780f9175c35e16bbf8cint, 0x1ddbc215aa406824b31978d475bc595f461ee86a92fffc8422398f0dcb9a44c5int, 0x115280d66c23e35a28fb37ea9185011445ea76534b45e16ccb7a307458c41eeeint);
    lemma_sum_at::<Pallas>(0x1ddbc215aa406824b31978d475bc595f461ee86a92fffc8422398f0dcb9a44c5int, 0x115280d66c23e35a28fb37ea9185011445ea76534b45e16ccb7a307458c41eeeint, 0x2d33357cb532458ed3552a23a8554e5005270d29d19fc7d27b7fd22f0201b548int, 0x40000000000000000000000000000000224698fc094cf91b992d30ecffffffffint, 0x28abe94d2dabeda5b84c3ba0f0c399c5b0bc0dc1d59e7dd6f222fa0495954e00int, 0x349750074d008f4bc2cfd250d7852437fa478464535dcd783d3e188690353fa4int, 0x24008e6d0ce218ed8205d287e79eb98493902f6921dc28f284838eb0abd12a46int);
    lemma_step::<Pallas>(g, q, 0x24f34e8b2078248abfe570nat, 0x24f34e8b20544ca9c65893nat, 1, 1);
    lemma_double_at::<Pallas>(0x349750074d008f4bc2cfd250d7852437fa478464535dcd783d3e188690353fa4int, 0x24008e6d0ce218ed8205d287e79eb98493902f6921dc28f284838eb0abd12a46int, 0x356841ee1fcc392dd7640a325b30cbe6769fb2d3142fe454ac3e381dc553b54bint, 0x756bbcc67cc5071f5223d329e11847deacdfca12e2cf9dea705bf9f8d014fd9int, 0x29a3e11bc4b366f245ad050ae837690f73090bdfb52e9e8caba54c7536c5c574int);
    lemma_sum_at::<Pallas>(0x756bbcc67cc5071f5223d329e11847deacdfca12e2cf9dea705bf9f8d014fd9int, 0x29a3e11bc4b366f245ad050ae837690f73090bdfb52e9e8caba54c7536c5c574int, 0x37110294d9c19cccc58f4a73808e655b40d6873757513f08cd72271b9df52e99int, 0x330586adc4ddb72abc290020e8266cfa5a19acb35a671344d4c234dca28b8a85int, 0x137644d8e9be45ed49d5a660e8d847e810fb4e23fc6e379f3b65eec9ce3284deint, 0x10dbe98ef9d8d361b89273375cac22351c0cb308bc323a021e2529edcc588dd6int, 0x2b1a44863bac9aa77986bfb54d590e7e018c64be4bacca600014a154a866c4b7int);
    lemma_step::<Pallas>(g, q, 0x49e69d1640f049157fcae1nat, 0x49e69d1640a899538cb127nat, 1, 1);
    lemma_double_at::<Pallas>(0x10dbe98ef9d8d361b89273375cac22351c0cb308bc323a021e2529edcc588dd6int, 0x2b1a44863bac9aa77986bfb54d590e7e018c64be4bacca600014a154a866c4b7int, 0x1e1b91e41878f3965964290b70b5128aff90be7eee6b2465c2082534dc43a736int, 0x22d570ddfc23f0fdfd15e589a168f1bea746f0ed014f9ce9596e932b39dd54f3int, 0x3ede3fc493bbc3d18a69665b98d7b99dbd20aced12548d00d752e07627c3ccaeint);
    lemma_sum_at::<Pallas>(0x22d570ddfc23f0fdfd15e589a168f1bea746f0ed014f9ce9596e932b39dd54f3int, 0x3ede3fc493bbc3d18a69665b98d7b99dbd20aced12548d00d752e07627c3ccaeint, 0x37110294d9c19cccc58f4a73808e655b40d6873757513f08cd72271b9df52e99int, 0x330586adc4ddb72abc290020e8266cfa5a19acb35a671344d4c234dca28b8a85int, 0x27048d1d1e4615b05c5787ac06504dc8f327a1bc7ad731c45bb030edb121f7f5int, 0x28bf5cb5a163028023fc36419091eb83975188bdc8438a571cc4b5c55484b91eint, 0x1550232b11ed9c34dcdebe66a4d4ee5a04c1a1ec0fcbb91a99b0b4ce773cbcadint);
    lemma_step::<Pallas>(g, q, 0x93cd3a2c81e0922aff95c3nat, 0x93cd3a2c815132a719624fnat, 1, 0);
    lemma_double_at::<Pallas>(0x28bf5cb5a163028023fc36419091eb83975188bdc8438a571cc4b5c55484b91eint, 0x1550232b11ed9c34dcdebe66a4d4ee5a04c1a1ec0fcbb91a99b0b4ce773cbcadint, 0x27733b2986aa697197b32f38745477b82ce40e66efcf239975c84715326fbdc3int, 0x1db15a18d5048fb26668ac69b323bb74603f144d4f64af832de96e29e324d241int, 0x2052f5c93c368ff0fd32612c6cdd48d4cefbe7af64e4fe65b61ccd10bf0e177cint);
    lemma_sum_at::<Pallas>(0x1db15a18d5048fb26668ac69b323bb74603f144d4f64af832de96e29e324d241int, 0x2052f5c93c368ff0fd32612c6cdd48d4cefbe7af64e4fe65b61ccd10bf0e177cint, 0x40000000000000000000000000000000224698fc094cf91b992d30ed00000000int, 2int, 0x58f4a4662c16945f2f905c3de21b483b101dbd9b8be0c77ed0c201477d252beint, 0x124e8e22a5cb8d6e972ed3b13a058e31f92dc92dc9f50977c1d08df60b7de1b3int, 0x19bb81217abde46af9b18655f0b991454ee479be13e139ef1d319b62e2eeeaf1int);
}

proof fn lemma_pallas_chain_11()
    ensures
        joint::<Pallas>(
            pallas_generator(),
            pallas_image(),
            0x1279a745903c12455ff2b871cnat,
            0x1279a745902a2654e32c49e4cnat,
        ) == (Pt::At {
            x: 0x1bb3790510d22b581c8f49367f120efb912a2e822d2a91f9d32be96f148730c0int,
            y: 0x110d1e89368c963fb2a6499de7adfea804b763d44a4559445fa8134c5b048d40int,
        }),
        on_curve::<Pallas>(Pt::At {
            x: 0x1bb3790510d22b581c8f49367f120efb912a2e822d2a91f9d32be96f148730c0int,
            y: 0x110d1e89368c963fb2a6499de7adfea804b763d44a4559445fa8134c5b048d40int,
        }),
{
    let (g, q) = (pallas_generator(), pallas_image());
    lemma_pallas_points();
    lemma_pallas_chain_10();
    lemma_step::<Pallas>(g, q, 0x1279a745903c12455ff2b87nat, 0x1279a745902a2654e32c49enat, 0, 0);
    lemma_double_at::<Pallas>(0x124e8e22a5cb8d6e972ed3b13a058e31f92dc92dc9f50977c1d08df60b7de1b3int, 0x19bb81217abde46af9b18655f0b991454ee479be13e139ef1d319b62e2eeeaf1int, 0x1c02ebe55cc73987182e489e19560f4d3ed3bc55ba94e27ec53d2dd3217520d9int, 0x14b0ea38035031dff5bde62abdcd61d2fb47cbb3af199b8a8d179afe0bd14c5fint, 0x187284b6b5db3b5f315786f8c1b54d6bec16cdcaf0fd11f644ba8fc7ed123850int);
    lemma_step::<Pallas>(g, q, 0x24f34e8b2078248abfe570enat, 0x24f34e8b20544ca9c65893cnat, 0, 1);
    lemma_double_at::<Pallas>(0x14b0ea38035031dff5bde62abdcd61d2fb47cbb3af199b8a8d179afe0bd14c5fint, 0x187284b6b5db3b5f315786f8c1b54d6bec16cdcaf0fd11f644ba8fc7ed123850int, 0x2dcbf3f15936365803c164ab531b5d55fbb1fc4df90fe88d77b7e27ae4d90601int, 0x26a6825f4cf9ce2dc8dbd5d5c9745102a892c312111713bec71baa75904ce4efint, 0x13cea15cbd17aea276376dae0354d267d98d41e4b2544291718c23a612a688cdint);
    lemma_sum_at::<Pallas>(0x26a6825f4cf9ce2dc8dbd5d5c9745102a892c312111713bec71baa75904ce4efint, 0x13cea15cbd17aea276376dae0354d267d98d41e4b2544291718c23a612a688cdint, 0x2d33357cb532458ed3552a23a8554e5005270d29d19fc7d27b7fd22f0201b548int, 0x40000000000000000000000000000000224698fc094cf91b992d30ecffffffffint, 0x3ca754ef175841e649beb4ce5d655035fdf466d1b702f963fdb58a755b3da0b4int, 0x3bcd4eee91056cc9da33fbd3c26682d6e5c0528eac9617b0cca4b399837779cbint, 0x8ec4bfc1f45454d7a781b73d7df89ee3d2f99c9b73ce68bc3fb65fe42df0682int);
    lemma_step::<Pallas>(g, q, 0x49e69d1640f049157fcae1cnat, 0x49e69d1640a899538cb1279nat, 0, 0);
    lemma_double_at::<Pallas>(0x3bcd4eee91056cc9da33fbd3c26682d6e5c0528eac9617b0cca4b399837779cbint, 0x8ec4bfc1f45454d7a781b73d7df89ee3d2f99c9b73ce68bc3fb65fe42df0682int, 0x36c38404def97ec1c7ac85ea59d472ddeba8d727ee420dbe319188da627f2a02int, 0x20388b05c3380a47e619aba1a88e243973baf52dfaed9de167b56e1b608bbf1bint, 0x232ed1ecc537f6b51b366c624b847c6b01a0897e59cda72e89012a914b21ec6bint);
    lemma_step::<Pallas>(g, q, 0x93cd3a2c81e0922aff95c38nat, 0x93cd3a2c815132a719624f2nat, 1, 0);
    lemma_double_at::<Pallas>(0x20388b05c3380a47e619aba1a88e243973baf52dfaed9de167b56e1b608bbf1bint, 0x232ed1ecc537f6b51b366c624b847c6b01a0897e59cda72e89012a914b21ec6bint, 0x350248e1d916cdf61fd9aef6eb186a9fe62fa73176fcb5db9371e6ed9309f5f5int, 0x13e24c18d28d20d47547a501999994164533e4cc7c51ccfdfa5b4e7c671a6205int, 0x212c7de974c341bc468c945c3b9fb725ba2c577c3a6a6d473c183ecfd1047455int);
    lemma_sum_at::<Pallas>(0x13e24c18d28d20d47547a501999994164533e4cc7c51ccfdfa5b4e7c671a6205int, 0x212c7de974c341bc468c945c3b9fb725ba2c577c3a6a6d473c183ecfd1047455int, 0x40000000000000000000000000000000224698fc094cf91b992d30ed00000000int, 2int, 0x3c664a84fa281afc6b0480899401bd73f90ef83f2bd46c84fd7ef642e5660fa6int, 0x10d4c6495e59cd8705c59148d1f7967bd715c3bd5a85069a4bf2e2fdc600d41aint, 0xc5c30dea1acfa9d4e6c21d1a03af0578142278695fc4638f2e0e8ad9ff39123int);
    lemma_step::<Pallas>(g, q, 0x1279a745903c12455ff2b871nat, 0x1279a745902a2654e32c49e4nat, 1, 1);
    lemma_double_at::<Pallas>(0x10d4c6495e59cd8705c59148d1f7967bd715c3bd5a85069a4bf2e2fdc600d41aint, 0xc5c30dea1acfa9d4e6c21d1a03af0578142278695fc4638f2e0e8ad9ff39123int, 0x3ba86240197602cd452b13e4362fc3790741ad4b22fcf53644d5e5404fa5d3bbint, 0x1b208c6ffd967dff691d9d36bc3de40947ca0dadf0e19abb8b8fb0fb15f834d9int, 0xeb90876eccd902efb5ded85caad19c44e8ce6704829d8564f070eba62c9e41dint);
    lemma_sum_at::<Pallas>(0x1b208c6ffd967dff691d9d36bc3de40947ca0dadf0e19abb8b8fb0fb15f834d9int, 0xeb90876eccd902efb5ded85caad19c44e8ce6704829d8564f070eba62c9e41dint, 0x37110294d9c19cccc58f4a73808e655b40d6873757513f08cd72271b9df52e99int, 0x330586adc4ddb72abc290020e8266cfa5a19acb35a671344d4c234dca28b8a85int, 0x2ef0e02eda639b8131d84a9236efbca90978db9aca90ecda2f85f24217d3368dint, 0x25f7a612a2e099407e7413e23dfbfbbf84bcc47214d76b24347f38ffb0a78e5bint, 0x29442350441299368e928cdfa10d6fe678064fa7c4a8207bb93f79c64d16dc57int);
    lemma_step::<Pallas>(g, q, 0x24f34e8b2078248abfe570e3nat, 0x24f34e8b20544ca9c65893c9nat, 1, 1);
    lemma_double_at::<Pallas>(0x25f7a612a2e099407e7413e23dfbfbbf84bcc47214d76b24347f38ffb0a78e5bint, 0x29442350441299368e928cdfa10d6fe678064fa7c4a8207bb93f79c64d16dc57int, 0x3d7bc4d4232d3e7801b67598c3fad2ed58457d6d6927916575372d3992b05b07int, 0x31364057f9a5ff2431a366666d1af3b383e1127b974bef15776a9f982e899890int, 0x2606b0361c5c9fb3833d4f78b6dc4cb4c972ddd15ee41230b2888bae1c36c15int);
    lemma_sum_at::<Pallas>(0x31364057f9a5ff2431a366666d1af3b383e1127b974bef15776a9f982e899890int, 0x2606b0361c5c9fb3833d4f78b6dc4cb4c972ddd15ee41230b2888bae1c36c15int, 0x37110294d9c19cccc58f4a73808e655b40d6873757513f08cd72271b9df52e99int, 0x330586adc4ddb72abc290020e8266cfa5a19acb35a671344d4c234dca28b8a85int, 0x3f7c6b4618cec73cfa103b606972dfedb32b6af2962f77c1fa616a85899fb841int, 0x3219cc1f1df6ef607a32e0be810923d4d6cab39c6b1b972b7e24afe1fa7f7117int, 0x239443f3337f197e0f0ebd120db60712d9fb15c5b6f415fbff710d8dfc1b03aint);
    lemma_step::<Pallas>(g, q, 0x49e69d1640f049157fcae1c7nat, 0x49e69d1640a899538cb12793nat, 0, 0);
    lemma_double_at::<Pallas>(0x3219cc1f1df6ef607a32e0be810923d4d6cab39c6b1b972b7e24afe1fa7f7117int, 0x239443f3337f197e0f0ebd120db60712d9fb15c5b6f415fbff710d8dfc1b03aint, 0x1ef87d3034f5a3826ed0e39f5fd060804e73993769e3c4ec7ceacfe683c1f0b5int, 0x3d55bd175739667a5cdf23aa17da056f099cf8988b8527473885bb43ec906944int, 0x3dd9258765d849f4b08926fe000e4b55b5640c147b107f3a986ea603f7560327int);
    lemma_step::<Pallas>(g, q, 0x93cd3a2c81e0922aff95c38enat, 0x93cd3a2c815132a719624f26nat, 0, 0);
    lemma_double_at::<Pallas>(0x3d55bd175739667a5cdf23aa17da056f099cf8988b8527473885bb43ec906944int, 0x3dd9258765d849f4b08926fe000e4b55b5640c147b107f3a986ea603f7560327int, 0x272dee07ec42059174f27bb36c8589b1e9aef9dd9b39ea55d4bc625698e3b5cint, 0x1bb3790510d22b581c8f49367f120efb912a2e822d2a91f9d32be96f148730c0int, 0x110d1e89368c963fb2a6499de7adfea804b763d44a4559445fa8134c5b048d40int);
}

proof fn lemma_pallas_chain_12()
    ensures
        joint::<Pallas>(
            pallas_generator(),
            pallas_image(),
            0x1279a745903c12455ff2b871c00nat,
            0x1279a745902a2654e32c49e4c00nat,
        ) == (Pt::At {
            x: 0x2266aac284b9c2397c0f7baaf813d7daf6b8949e587529c38de634832c732195int,
            y: 0x1f116c2b436c755dc2c59b154d43e0355a2f53fea9bd606310751fe5e5675cb1int,
        }),
        on_curve::<Pallas>(Pt::At {
            x: 0x2266aac284b9c2397c0f7baaf813d7daf6b8949e587529c38de634832c732195int,
            y: 0x1f116c2b436c755dc2c59b154d43e0355a2f53fea9bd606310751fe5e5675cb1int,
        }),
{
    let (g, q) = (pallas_generator(), pallas_image());
    lemma_pallas_points();
    lemma_pallas_chain_11();
    lemma_step::<Pallas>(g, q, 0x1279a745903c12455ff2b871cnat, 0x1279a745902a2654e32c49e4cnat, 0, 0);
    lemma_double_at::<Pallas>(0x1bb3790510d22b581c8f49367f120efb912a2e822d2a91f9d32be96f148730c0int, 0x110d1e89368c963fb2a6499de7adfea804b763d44a4559445fa8134c5b048d40int, 0x3c1195768b7552f2f85d9a935e6aa4b32ca004536ff69ce2c0a4b1cba1f08799int, 0x125288bd3c4ab0f2a7b9375d7bd68d9b4eb290ca234e89b1d4d493f9335c5f8eint, 0xabaaabffb1f5d1e62972d3db7ff96d53af27e1a6e9ac4a8e6a039c7e82c8edcint);
    lemma_step::<Pallas>(g, q, 0x24f34e8b2078248abfe570e38nat, 0x24f34e8b20544ca9c65893c98nat, 0, 0);
    lemma_double_at::<Pallas>(0x125288bd3c4ab0f2a7b9375d7bd68d9b4eb290ca234e89b1d4d493f9335c5f8eint, 0xabaaabffb1f5d1e62972d3db7ff96d53af27e1a6e9ac4a8e6a039c7e82c8edcint, 0x37be4509f6c55f26092b573c8948c43d54aeffdfe12c9f1f1b46766820aa7409int, 0x285ad4aac3058935bb766465f3dbe9f4add614d4aa761ad0c135273a3186c319int, 0x15b39f3564488b194b9dff4d1d6eca08a6fa4477ba32a6e90e6674f30a0a8c4dint);
    lemma_step::<Pallas>(g, q, 0x49e69d1640f049157fcae1c70nat, 0x49e69d1640a899538cb127930nat, 0, 0);
    lemma_double_at::<Pallas>(0x285ad4aac3058935bb766465f3dbe9f4add614d4aa761ad0c135273a3186c319int, 0x15b39f3564488b194b9dff4d1d6eca08a6fa4477ba32a6e90e6674f30a0a8c4dint, 0x2399c674202247940ed23b7869bdc441db53118d91ef314281bfc0c1d6849165int, 0xcf978084f6f79028b0fa6bcb99474734f014b003be64358acc6241e079990f9int, 0x2f00954f4ace91605506f1972cfb28bb77ef7a618c83cb969978b2f14c14120dint);
    lemma_step::<Pallas>(g, q, 0x93cd3a2c81e0922aff95c38e0nat, 0x93cd3a2c815132a719624f260nat, 0, 0);
    lemma_double_at::<Pallas>(0xcf978084f6f79028b0fa6bcb99474734f014b003be64358acc6241e079990f9int, 0x2f00954f4ace91605506f1972cfb28bb77ef7a618c83cb969978b2f14c14120dint, 0x2e78c12a1b7d47402882e5f0db1894c4aa5ac250fb60aea9af0672dc1dbef438int, 0x1e31187ebb3f74e00c948d55874338a3bb563fe4adbc6cff98a44e3526093060int, 0x337aac6ebecc8d93575a8e60b2d40f1a56c13ebf11421f4371ac6886d899749eint);
    lemma_step::<Pallas>(g, q, 0x1279a745903c12455ff2b871c0nat, 0x1279a745902a2654e32c49e4c0nat, 0, 0);
    lemma_double_at::<Pallas>(0x1e31187ebb3f74e00c948d55874338a3bb563fe4adbc6cff98a44e3526093060int, 0x337aac6ebecc8d93575a8e60b2d40f1a56c13ebf11421f4371ac6886d899749eint, 0xcdb00d8549651a0d98726e39820398e67db36a39bdfe3410ec8763ecf59379int, 0xd6c134be1af499d6167d04d93373bc7389bfccacd0fb0424e0d2a5f106028b0int, 0x3824e6cf2dbb935242c98895643798a460436d2aecf64a0ffe1e64e24154f8fdint);
    lemma_step::<Pallas>(g, q, 0x24f34e8b2078248abfe570e380nat, 0x24f34e8b20544ca9c65893c980nat, 0, 0);
    lemma_double_at::<Pallas>(0xd6c134be1af499d6167d04d93373bc7389bfccacd0fb0424e0d2a5f106028b0int, 0x3824e6cf2dbb935242c98895643798a460436d2aecf64a0ffe1e64e24154f8fdint, 0x17cfea8dd063c1f98c4b4262c1e2e09135393d9c6fe5643a68b1d8da04961871int, 0x2756e9c6cd53bcbfe6d45bb9c25258ec0bc3f7c03318878cc8e37fc2875aedd3int, 0xaf047cc6efa58592f661ead4077289660ce3fb856788d2f32e769cafa4b3cc7int);
    lemma_step::<Pallas>(g, q, 0x49e69d1640f049157fcae1c700nat, 0x49e69d1640a899538cb1279300nat, 0, 0);
    lemma_double_at::<Pallas>(0x2756e9c6cd53bcbfe6d45bb9c25258ec0bc3f7c03318878cc8e37fc2875aedd3int, 0xaf047cc6efa58592f661ead4077289660ce3fb856788d2f32e769cafa4b3cc7int, 0x69668274a3fc8baba7863bc1ffcff74468ab92f9cf485b4bd8296190822eca4int, 0x3640d9d25c20324c03712ebe3d25371596d2d59305c351d2c68c708b3b2e9638int, 0x3192d7d90e279a48a5eb4c943a0ad201b3907e794dccc850232eeab34fe2915fint);
    lemma_step::<Pallas>(g, q, 0x93cd3a2c81e0922aff95c38e00nat, 0x93cd3a2c815132a719624f2600nat, 0, 0);
    lemma_double_at::<Pallas>(0x3640d9d25c20324c03712ebe3d25371596d2d59305c351d2c68c708b3b2e9638int, 0x3192d7d90e279a48a5eb4c943a0ad201b3907e794dccc850232eeab34fe2915fint, 0x22f60ecac3600c6dec885e5927909707520a60dabb4d675fbdb695d95f926816int, 0x2266aac284b9c2397c0f7baaf813d7daf6b8949e587529c38de634832c732195int, 0x1f116c2b436c755dc2c59b154d43e0355a2f53fea9bd606310751fe5e5675cb1int);
}

proof fn lemma_pallas_chain_13()
    ensures
        joint::<Pallas>(
            pallas_generator(),
            pallas_image(),
            0x1279a745903c12455ff2b871c0000nat,
            0x1279a745902a2654e32c49e4c0000nat,
        ) == (Pt::At {
            x: 0x19ba44c44fceccfb67c564bee7059847acffe183d170ba451c04fa7fa093a622int,
            y: 0x7ed53254130c39b7c3f17241e0015796d5fd4e53f3c79e8a8b8c6ddb39fffe6int,
        }),
        on_curve::<Pallas>(Pt::At {
            x: 0x19ba44c44fceccfb67c564bee7059847acffe183d170ba451c04fa7fa093a622int,
            y: 0x7ed53254130c39b7c3f17241e0015796d5fd4e53f3c79e8a8b8c6ddb39fffe6int,
        }),
{
    let (g, q) = (pallas_generator(), pallas_image());
    lemma_pallas_points();
    lemma_pallas_chain_12();
    lemma_step::<Pallas>(g, q, 0x1279a745903c12455ff2b871c00nat, 0x1279a745902a2654e32c49e4c00nat, 0, 0);
    lemma_double_at::<Pallas>(0x2266aac284b9c2397c0f7baaf813d7daf6b8949e587529c38de634832c732195int, 0x1f116c2b436c755dc2c59b154d43e0355a2f53fea9bd606310751fe5e5675cb1int, 0x159bf42c0b0306645a15455070cad3641389d2fe5e12f925c5ceda33c0f4dc05int, 0x2a318a758eaff13c7e92a71e97dbef1262b13459957ef8304a220d6fc7be8c4int, 0x64f8169cb93666a5477a9f4048252f0bb56a7d130dd4a3560601ef787a1e3f5int);
    lemma_step::<Pallas>(g, q, 0x24f34e8b2078248abfe570e3800nat, 0x24f34e8b20544ca9c65893c9800nat, 0, 0);
    lemma_double_at::<Pallas>(0x2a318a758eaff13c7e92a71e97dbef1262b13459957ef8304a220d6fc7be8c4int, 0x64f8169cb93666a5477a9f4048252f0bb56a7d130dd4a3560601ef787a1e3f5int, 0x2aa8e542298bd461b4cfd1bd1855b62243a626a39e86b81734283f85d8ba557int, 0x1466f8a559cba4cd7f983ab44fbd8b56d0a289862c7ebeb2489d52fbcfc87a5int, 0x25ec9a8e5557629dc7737e3c680700a7f2f6834555398dc4d96accf42cb596abint);
    lemma_step::<Pallas>(g, q, 0x49e69d1640f049157fcae1c7000nat, 0x49e69d1640a899538cb12793000nat, 0, 0);
    lemma_double_at::<Pallas>(0x1466f8a559cba4cd7f983ab44fbd8b56d0a289862c7ebeb2489d52fbcfc87a5int, 0x25ec9a8e5557629dc7737e3c680700a7f2f6834555398dc4d96accf42cb596abint, 0x36f73e535721cb1c9bdf1f9da9170e0386590ba97571ccf8b7a6dc0fdad85469int, 0x20691de500afbabbd1d3c686391c7e751570c64e41746ca2a6aa4fa2a433458cint, 0x37431019eeed077a257f798a4c38956c4ceebd1622b9db38d801a9594ca5ff50int);
    lemma_step::<Pallas>(g, q, 0x93cd3a2c81e0922aff95c38e000nat, 0x93cd3a2c815132a719624f26000nat, 0, 0);
    lemma_double_at::<Pallas>(0x20691de500afbabbd1d3c686391c7e751570c64e41746ca2a6aa4fa2a433458cint, 0x37431019eeed077a257f798a4c38956c4ceebd1622b9db38d801a9594ca5ff50int, 0x1b5f3500303f71a8c094a63019982dec05db73aa7820c25bf1cb27e1c9780290int, 0x20f8fcc7548e1fb13d024ba5439ddf318a9b987d2897859c133b699e7bc3b77aint, 0x24571be0231b13bc1cc0f4598b9b4c58ed01298424b022521f9898c4de15486aint);
    lemma_step::<Pallas>(g, q, 0x1279a745903c12455ff2b871c000nat, 0x1279a745902a2654e32c49e4c000nat, 0, 0);
    lemma_double_at::<Pallas>(0x20f8fcc7548e1fb13d024ba5439ddf318a9b987d2897859c133b699e7bc3b77aint, 0x24571be0231b13bc1cc0f4598b9b4c58ed01298424b022521f9898c4de15486aint, 0x22130f0331e281e07d47831f4a995b8cad1555dfbc68c084cbeba461ebf82712int, 0x1329d41d32f217732cf0a859ffcf79720357235b5b13ac57024a71623b0f89a5int, 0x2ca8062a2d2ccfb9f661f59be7bb30649cb14110c8d0f6678a9721e8dd4ceea2int);
    lemma_step::<Pallas>(g, q, 0x24f34e8b2078248abfe570e38000nat, 0x24f34e8b20544ca9c65893c98000nat, 0, 0);
    lemma_double_at::<Pallas>(0x1329d41d32f217732cf0a859ffcf79720357235b5b13ac57024a71623b0f89a5int, 0x2ca8062a2d2ccfb9f661f59be7bb30649cb14110c8d0f6678a9721e8dd4ceea2int, 0x106697dad3edbd7ec1e0485e9ac8bfd5f8169c4be572802ebfcac51f0cd7d117int, 0x2e44d39dae6d2788874e7aee4181387091b02892a6cfe925aafd0b0a6b19fd4eint, 0x324baf96451f215239758300c961e624a9feaa1075b7a7d7f78de64edea93bffint);
    lemma_step::<Pallas>(g, q, 0x49e69d1640f049157fcae1c70000nat, 0x49e69d1640a899538cb127930000nat, 0, 0);
    lemma_double_at::<Pallas>(0x2e44d39dae6d2788874e7aee4181387091b02892a6cfe925aafd0b0a6b19fd4eint, 0x324baf96451f215239758300c961e624a9feaa1075b7a7d7f78de64edea93bffint, 0x33897d9a33aab3f3633f03887db643ee117b0d4226ba080a02b9c13846e274b9int, 0x7df9178a03d57d305c47414e3d26bbfe98b400534ae8bf4573cad78819cbe78int, 0x237e0d819923b9bb756a449d0c341441446b5c06ec241b0a27021d9d870faf20int);
    lemma_step::<Pallas>(g, q, 0x93cd3a2c81e0922aff95c38e0000nat, 0x93cd3a2c815132a719624f260000nat, 0, 0);
    lemma_double_at::<Pallas>(0x7df9178a03d57d305c47414e3d26bbfe98b400534ae8bf4573cad78819cbe78int, 0x237e0d819923b9bb756a449d0c341441446b5c06ec241b0a27021d9d870faf20int, 0x1b32419769bf73771eef5222d82827d10ed80536e98013bbcd041e47d4a8d908int, 0x19ba44c44fceccfb67c564bee7059847acffe183d170ba451c04fa7fa093a622int, 0x7ed53254130c39b7c3f17241e0015796d5fd4e53f3c79e8a8b8c6ddb39fffe6int);
}

proof fn lemma_pallas_chain_14()
    ensures
        joint::<Pallas>(
            pallas_generator(),
            pallas_image(),
            0x1279a745903c12455ff2b871c000000nat,
            0x1279a745902a2654e32c49e4c000000nat,
        ) == (Pt::At {
            x: 0x2d9222b058b12d947e66e717280d85885076b27ec987cd8b3567de2c715e1985int,
            y: 0xfb4a0af9c327bb6260d9d1895e9559e6553fe460f0f69791945a321f3c3957fint,
        }),
        on_curve::<Pallas>(Pt::At {
            x: 0x2d9222b058b12d947e66e717280d85885076b27ec987cd8b3567de2c715e1985int,
            y: 0xfb4a0af9c327bb6260d9d1895e9559e6553fe460f0f69791945a321f3c3957fint,
        }),
{
    let (g, q) = (pallas_generator(), pallas_image());
    lemma_pallas_points();
    lemma_pallas_chain_13();
    lemma_step::<Pallas>(g, q, 0x1279a745903c12455ff2b871c0000nat, 0x1279a745902a2654e32c49e4c0000nat, 0, 0);
    lemma_double_at::<Pallas>(0x19ba44c44fceccfb67c564bee7059847acffe183d170ba451c04fa7fa093a622int, 0x7ed53254130c39b7c3f17241e0015796d5fd4e53f3c79e8a8b8c6ddb39fffe6int, 0x372dcd2b4950e40799db104796db28ab189144542faadfa3fa6ae213fae92d33int, 0xf0178db9610fc7ef5660a6486335b4d4b964d6d5b18c322a1d31397bb4c9b00int, 0x1e1a8a0eb8a026b0075e5951cc3a735c39d364f42276cfcd02d5335caf3cb05bint);
    lemma_step::<Pallas>(g, q, 0x24f34e8b2078248abfe570e380000nat, 0x24f34e8b20544ca9c65893c980000nat, 0, 0);
    lemma_double_at::<Pallas>(0xf0178db9610fc7ef5660a6486335b4d4b964d6d5b18c322a1d31397bb4c9b00int, 0x1e1a8a0eb8a026b0075e5951cc3a735c39d364f42276cfcd02d5335caf3cb05bint, 0x28abccd70a1415725dd7ab2833a715530612e7dded0ef5dcf4a77cdcded7aff7int, 0x39febc7b2b78148b4a8029a25d284317a2c1df6cb9b229ee575f19830ab01966int, 0x2dc68b94a728a3644479d2d64fc5482e079d809edb686e8573e3fa8aac8c9792int);
    lemma_step::<Pallas>(g, q, 0x49e69d1640f049157fcae1c700000nat, 0x49e69d1640a899538cb1279300000nat, 0, 0);
    lemma_double_at::<Pallas>(0x39febc7b2b78148b4a8029a25d284317a2c1df6cb9b229ee575f19830ab01966int, 0x2dc68b94a728a3644479d2d64fc5482e079d809edb686e8573e3fa8aac8c9792int, 0x26593159fb3aff1f00b7f5755bd1e311dbb8e4433cd9c5ed3a30ff49c7681ae3int, 0x1e9d6e60ba613f0cd9468965bf736e1214df6e04b18e0b99a52b112de041bb6fint, 0x3ec862d2804d6653194ede3276d4d20b2034eacd39c9be6efd2b4159ee055711int);
    lemma_step::<Pallas>(g, q, 0x93cd3a2c81e0922aff95c38e00000nat, 0x93cd3a2c815132a719624f2600000nat, 0, 0);
    lemma_double_at::<Pallas>(0x1e9d6e60ba613f0cd9468965bf736e1214df6e04b18e0b99a52b112de041bb6fint, 0x3ec862d2804d6653194ede3276d4d20b2034eacd39c9be6efd2b4159ee055711int, 0x33549baaf44eb3e2b5b22fb8bba4a929228db0f4bf6575f06091ef68c3132eddint, 0x34a27ccc1d6ecdc2533694eef0a4223fee117dc6a757060cf5878e9e4c7adea5int, 0x1ebc393cdb1212aa687978bdc42e5c213b7924b11e530d03fc301496cb6b44cint);
    lemma_step::<Pallas>(g, q, 0x1279a745903c12455ff2b871c00000nat, 0x1279a745902a2654e32c49e4c00000nat, 0, 0);
    lemma_double_at::<Pallas>(0x34a27ccc1d6ecdc2533694eef0a4223fee117dc6a757060cf5878e9e4c7adea5int, 0x1ebc393cdb1212aa687978bdc42e5c213b7924b11e530d03fc301496cb6b44cint, 0x1c63ab0f7884bec355ea7b1df22dd7046a077311581f966e7b34965d605b4a9int, 0x122c3d2df5d05aaa93235cbeb7047f720320208ec6a6a8821bdce1080f8e03eeint, 0xf47b26db9012f2307f8304d9acc1a081ebc3a62649d5c90b597ea3cf88cb4afint);
    lemma_step::<Pallas>(g, q, 0x24f34e8b2078248abfe570e3800000nat, 0x24f34e8b20544ca9c65893c9800000nat, 0, 0);
    lemma_double_at::<Pallas>(0x122c3d2df5d05aaa93235cbeb7047f720320208ec6a6a8821bdce1080f8e03eeint, 0xf47b26db9012f2307f8304d9acc1a081ebc3a62649d5c90b597ea3cf88cb4afint, 0xdb284b5947f80ea3791de792ff583bb87aa21f856eede8541bf082d146506dbint, 0x293b89f286baecde0c355dd298bf4336ba19c91e0cd78e188c8af570626dc37int, 0xb660993fd1256a01a776b97facd3e898b619d85cff4713e423a6ce219500c00int);
    lemma_step::<Pallas>(g, q, 0x49e69d1640f049157fcae1c7000000nat, 0x49e69d1640a899538cb12793000000nat, 0, 0);
    lemma_double_at::<Pallas>(0x293b89f286baecde0c355dd298bf4336ba19c91e0cd78e188c8af570626dc37int, 0xb660993fd1256a01a776b97facd3e898b619d85cff4713e423a6ce219500c00int, 0x3216ae50f7b3b39e23dec2efa7b01b62a661d297b54f62d88ee5c28024a3b4fbint, 0x114fedfa7fdf9b47bd7c5a72299a64f2dc6a7d5fc50857e6d41d02be08eaa38eint, 0x1e06cc7eaeb1a795fc3fbe1ec65af4b4af3b6220c2a7b98cdbed49f4efbd2ad3int);
    lemma_step::<Pallas>(g, q, 0x93cd3a2c81e0922aff95c38e000000nat, 0x93cd3a2c815132a719624f26000000nat, 0, 0);
    lemma_double_at::<Pallas>(0x114fedfa7fdf9b47bd7c5a72299a64f2dc6a7d5fc50857e6d41d02be08eaa38eint, 0x1e06cc7eaeb1a795fc3fbe1ec65af4b4af3b6220c2a7b98cdbed49f4efbd2ad3int, 0x3f07a68a946b03cbb5d34c6d7b8ee58cb0f45bb154b1cf8a883b31f3177822f0int, 0x2d9222b058b12d947e66e717280d85885076b27ec987cd8b3567de2c715e1985int, 0xfb4a0af9c327bb6260d9d1895e9559e6553fe460f0f69791945a321f3c3957fint);
}

proof fn lemma_pallas_chain_15()
    ensures
        joint::<Pallas>(
            pallas_generator(),
            pallas_image(),
            0x49e69d1640f049157fcae1c700000001nat,
            0x49e69d1640a899538cb1279300000000nat,
        ) == Pt::Infinity,
{
    let (g, q) = (pallas_generator(), pallas_image());
    lemma_pallas_points();
    lemma_pallas_chain_14();
    lemma_step::<Pallas>(g, q, 0x1279a745903c12455ff2b871c000000nat, 0x1279a745902a2654e32c49e4c000000nat, 0, 0);
    lemma_double_at::<Pallas>(0x2d9222b058b12d947e66e717280d85885076b27ec987cd8b3567de2c715e1985int, 0xfb4a0af9c327bb6260d9d1895e9559e6553fe460f0f69791945a321f3c3957fint, 0x12a32416e25f0ab187691e179f63fbea44c60e633f6bf174ab0f5d7cc69a4947int, 0x3bfd0957fabd67487c7240b071ac05a2368721a6b76c103248faedcf89c0212fint, 0x38caa2b2d54e805e11e7926b265e2b78fd89532f9545ad15600bd5dad97d961bint);
    lemma_step::<Pallas>(g, q, 0x24f34e8b2078248abfe570e38000000nat, 0x24f34e8b20544ca9c65893c98000000nat, 0, 0);
    lemma_double_at::<Pallas>(0x3bfd0957fabd67487c7240b071ac05a2368721a6b76c103248faedcf89c0212fint, 0x38caa2b2d54e805e11e7926b265e2b78fd89532f9545ad15600bd5dad97d961bint, 0x278bf32df1104a540f20501936adeb59334c107e01b28a4d1cf4713510e67a07int, 0x66234901f7ad23de6ec4cd396232a0e6038251a71cebb848101bfe4f88a2e67int, 0x3af167d72892ff91a522bcab151cf3cd60ce66e41ceb5b561b2afd886e8cbd8eint);
    lemma_step::<Pallas>(g, q, 0x49e69d1640f049157fcae1c70000000nat, 0x49e69d1640a899538cb127930000000nat, 0, 0);
    lemma_double_at::<Pallas>(0x66234901f7ad23de6ec4cd396232a0e6038251a71cebb848101bfe4f88a2e67int, 0x3af167d72892ff91a522bcab151cf3cd60ce66e41ceb5b561b2afd886e8cbd8eint, 0x156b26b7e01261c5f34be9cbc77bcffce7a53682411d4cc5463629c337c721fdint, 0x9ef51212b01e8befd968f931fe162d585813091a4cec0df91efe636798d4d77int, 0x21c4f329cd12c8bdd47473db4dcef934a3c3cce822dc0304d2789490d5d0044bint);
    lemma_step::<Pallas>(g, q, 0x93cd3a2c81e0922aff95c38e0000000nat, 0x93cd3a2c815132a719624f260000000nat, 0, 0);
    lemma_double_at::<Pallas>(0x9ef51212b01e8befd968f931fe162d585813091a4cec0df91efe636798d4d77int, 0x21c4f329cd12c8bdd47473db4dcef934a3c3cce822dc0304d2789490d5d0044bint, 0x8da308ac4c8485e12b3c2a3cdb937610f3b9348d24bdbdda721c0683f94d8e2int, 0x39f6bdc84ceeab1cbc4b3b33d57be70e621ad0f0f25bf27148def3bc02008f0dint, 0xf626edad48ffa4d085f1cb30c10b8e100ed931596164b5c1688f931d9eff6ddint);
    lemma_step::<Pallas>(g, q, 0x1279a745903c12455ff2b871c0000000nat, 0x1279a745902a2654e32c49e4c0000000nat, 0, 0);
    lemma_double_at::<Pallas>(0x39f6bdc84ceeab1cbc4b3b33d57be70e621ad0f0f25bf27148def3bc02008f0dint, 0xf626edad48ffa4d085f1cb30c10b8e100ed931596164b5c1688f931d9eff6ddint, 0x7cb6e8c8b567d47ebd68f00fa0d947bec71cfea763548eb9f206a6233950441int, 0xc376da060916888dae60f42ce13f6e97865416c09f327e5c0ba6527af70acf7int, 0x17a9db4ec26a7523f372497ad0968cb2c36d942037670d7adf56887b807cc21bint);
    lemma_step::<Pallas>(g, q, 0x24f34e8b2078248abfe570e380000000nat, 0x24f34e8b20544ca9c65893c980000000nat, 1, 0);
    lemma_double_at::<Pallas>(0xc376da060916888dae60f42ce13f6e97865416c09f327e5c0ba6527af70acf7int, 0x17a9db4ec26a7523f372497ad0968cb2c36d942037670d7adf56887b807cc21bint, 0x20741218522d5befa0ee59cbe0278c79bc1fe650d0ba73de0a412592c1dbab63int, 0x40000000000000000000000000000000224698fc094cf91b992d30ed00000000int, 0x40000000000000000000000000000000224698fc094cf91b992d30ecffffffffint);
    let d = Pt::At { x: 0x40000000000000000000000000000000224698fc094cf91b992d30ed00000000int, y: 0x40000000000000000000000000000000224698fc094cf91b992d30ecffffffffint };
    let e = Pt::At { x: 0x40000000000000000000000000000000224698fc094cf91b992d30ed00000000int, y: 2int };
    assert((-2int) % 0x40000000000000000000000000000000224698fc094cf91b992d30ed00000001int == 0x40000000000000000000000000000000224698fc094cf91b992d30ecffffffffint);
    lemma_inverse_point::<Pallas>(e);
    lemma_commutative::<Pallas>(e, minus::<Pallas>(e));
}

proof fn lemma_pallas_power()
    ensures
        pow(-5, 0x1555555555555555555555555555555560c232feadc45309330f104f00000000nat) % pallas_modulus() == 0x2d33357cb532458ed3552a23a8554e5005270d29d19fc7d27b7fd22f0201b547int,
{
    lemma_pow0(-5);
    let e: nat = 0;
    assert(quad(1int, -5, 1, pallas_modulus()) == 0x40000000000000000000000000000000224698fc094cf91b992d30ecfffffffcint) by (nonlinear_arith);
    lemma_quad(-5, e, 1int, 1, pallas_modulus());
    let e: nat = 4 * e + 1;
    assert(quad(0x40000000000000000000000000000000224698fc094cf91b992d30ecfffffffcint, -5, 1, pallas_modulus()) == 0x40000000000000000000000000000000224698fc094cf91b992d30ecfffff3ccint) by (nonlinear_arith);
    lemma_quad(-5, e, 0x40000000000000000000000000000000224698fc094cf91b992d30ecfffffffcint, 1, pallas_modulus());
    let e: nat = 4 * e + 1;
    assert(quad(0x40000000000000000000000000000000224698fc094cf91b992d30ecfffff3ccint, -5, 1, pallas_modulus()) == 0x40000000000000000000000000000000224698fc094cf91b992b7f3eb291d10cint) by (nonlinear_arith);
    lemma_quad(-5, e, 0x40000000000000000000000000000000224698fc094cf91b992d30ecfffff3ccint, 1, pallas_modulus());
    let e: nat = 4 * e + 1;
    assert(quad(0x40000000000000000000000000000000224698fc094cf91b992b7f3eb291d10cint, -5, 1, pallas_modulus()) == 0x3fffffffffffffd6d1cd5397aa702b6a46462ad7c336aaf8fa9af6821e70260cint) by (nonlinear_arith);
    lemma_quad(-5, e, 0x40000000000000000000000000000000224698fc094cf91b992b7f3eb291d10cint, 1, pallas_modulus());
    let e: nat = 4 * e + 1;
    assert(quad(0x3fffffffffffffd6d1cd5397aa702b6a46462ad7c336aaf8fa9af6821e70260cint, -5, 1, pallas_modulus()) == 0xa12ae27d4e027701b591f00f9cbf7717dc688a9f01f94f64b0b77381b3c67e3int) by (nonlinear_arith);
    lemma_quad(-5, e, 0x3fffffffffffffd6d1cd5397aa702b6a46462ad7c336aaf8fa9af6821e70260cint, 1, pallas_modulus());
    let e: nat = 4 * e + 1;
    assert(quad(0xa12ae27d4e027701b591f00f9cbf7717dc688a9f01f94f64b0b77381b3c67e3int, -5, 1, pallas_modulus()) == 0x857db30bf1d926a3e8c0980e9d57b9c41bbb626eed8cd4f251a70597a39680bint) by (nonlinear_arith);
    lemma_quad(-5, e, 0xa12ae27d4e027701b591f00f9cbf7717dc688a9f01f94f64b0b77381b3c67e3int, 1, pallas_modulus());
    let e: nat = 4 * e + 1;
    assert(quad(0x857db30bf1d926a3e8c0980e9d57b9c41bbb626eed8cd4f251a70597a39680bint, -5, 1, pallas_modulus()) == 0x37b37d837fd807522c898ae2a954bfeaeb652ab32602ed5f7c0b61bd02ca8a3fint) by (nonlinear_arith);
    lemma_quad(-5, e, 0x857db30bf1d926a3e8c0980e9d57b9c41bbb626eed8cd4f251a70597a39680bint, 1, pallas_modulus());
    let e: nat = 4 * e + 1;
    assert(quad(0x37b37d837fd807522c898ae2a954bfeaeb652ab32602ed5f7c0b61bd02ca8a3fint, -5, 1, pallas_modulus()) == 0x331e2886206f0b3b3a33bf2090d61a4efeeab85596d1aa2161a77ad30820b01dint) by (nonlinear_arith);
    lemma_quad(-5, e, 0x37b37d837fd807522c898ae2a954bfeaeb652ab32602ed5f7c0b61bd02ca8a3fint, 1, pallas_modulus());
    let e: nat = 4 * e + 1;
    assert(quad(0x331e2886206f0b3b3a33bf2090d61a4efeeab85596d1aa2161a77ad30820b01dint, -5, 1, pallas_modulus()) == 0xd56f274638ea160de53788f76c19578c828a489eade6d627b9787d45fe9d07int) by (nonlinear_arith);
    lemma_quad(-5, e, 0x331e2886206f0b3b3a33bf2090d61a4efeeab85596d1aa2161a77ad30820b01dint, 1, pallas_modulus());
    let e: nat = 4 * e + 1;
    assert(quad(0xd56f274638ea160de53788f76c19578c828a489eade6d627b9787d45fe9d07int, -5, 1, pallas_modulus()) == 0xc055cf5094c6a759be7bacf3541d0b9e1e46a58267fedf834c254679f743591int) by (nonlinear_arith);
    lemma_quad(-5, e, 0xd56f274638ea160de53788f76c19578c828a489eade6d627b9787d45fe9d07int, 1, pallas_modulus());
    let e: nat = 4 * e + 1;
    assert(quad(0xc055cf5094c6a759be7bacf3541d0b9e1e46a58267fedf834c254679f743591int, -5, 1, pallas_modulus()) == 0x28bd8623c0708043455c889c43fd52e11894531a00f9bdb69cf0f4365012be51int) by (nonlinear_arith);
    lemma_quad(-5, e, 0xc055cf5094c6a759be7bacf3541d0b9e1e46a58267fedf834c254679f743591int, 1, pallas_modulus());
    let e: nat = 4 * e + 1;
    assert(quad(0x28bd8623c0708043455c889c43fd52e11894531a00f9bdb69cf0f4365012be51int, -5, 1, pallas_modulus()) == 0x3d327bd44c461438fb04efbe79eee6b45cf31f34c206674b8dab39c0a3e20d75int) by (nonlinear_arith);
    lemma_quad(-5, e, 0x28bd8623c0708043455c889c43fd52e11894531a00f9bdb69cf0f4365012be51int, 1, pallas_modulus());
    let e: nat = 4 * e + 1;
    assert(quad(0x3d327bd44c461438fb04efbe79eee6b45cf31f34c206674b8dab39c0a3e20d75int, -5, 1, pallas_modulus()) == 0x109dbf1a62399437c7864ffc4007155bab8c2c1c16c2310f22aac2e50c1b47e4int) by (nonlinear_arith);
    lemma_quad(-5, e, 0x3d327bd44c461438fb04efbe79eee6b45cf31f34c206674b8dab39c0a3e20d75int, 1, pallas_modulus());
    let e: nat = 4 * e + 1;
    assert(quad(0x109dbf1a62399437c7864ffc4007155bab8c2c1c16c2310f22aac2e50c1b47e4int, -5, 1, pallas_modulus()) == 0x30bef89f0a2080cc9ef792360d1c27079f5ed7311b327669c5f1ffadaa0e33deint) by (nonlinear_arith);
    lemma_quad(-5, e, 0x109dbf1a62399437c7864ffc4007155bab8c2c1c16c2310f22aac2e50c1b47e4int, 1, pallas_modulus());
    let e: nat = 4 * e + 1;
    assert(quad(0x30bef89f0a2080cc9ef792360d1c27079f5ed7311b327669c5f1ffadaa0e33deint, -5, 1, pallas_modulus()) == 0x14f63d54d8ce2b0838ff2a823d51e8d5e8383bc629b3f4fd8f8025dee2c0d30int) by (nonlinear_arith);
    lemma_quad(-5, e, 0x30bef89f0a2080cc9ef792360d1c27079f5ed7311b327669c5f1ffadaa0e33deint, 1, pallas_modulus());
    let e: nat = 4 * e + 1;
    assert(quad(0x14f63d54d8ce2b0838ff2a823d51e8d5e8383bc629b3f4fd8f8025dee2c0d30int, -5, 1, pallas_modulus()) == 0x37ec9d425ed01aa178bb10ba8f837bc1908a5c7a7259b41d61d11ee1c26119b1int) by (nonlinear_arith);
    lemma_quad(-5, e, 0x14f63d54d8ce2b0838ff2a823d51e8d5e8383bc629b3f4fd8f8025dee2c0d30int, 1, pallas_modulus());
    let e: nat = 4 * e + 1;
    assert(quad(0x37ec9d425ed01aa178bb10ba8f837bc1908a5c7a7259b41d61d11ee1c26119b1int, -5, 1, pallas_modulus()) == 0x36e24c4154b53201566e7d948dbb3bc7b390c8700a984d02c19a3e3506aef56aint) by (nonlinear_arith);
    lemma_quad(-5, e, 0x37ec9d425ed01aa178bb10ba8f837bc1908a5c7a7259b41d61d11ee1c26119b1int, 1, pallas_modulus());
    let e: nat = 4 * e + 1;
    assert(quad(0x36e24c4154b53201566e7d948dbb3bc7b390c8700a984d02c19a3e3506aef56aint, -5, 1, pallas_modulus()) == 0x3cfac67a09df5827160de69238f379c0101796ce9c0c1e8799c11827dc94265bint) by (nonlinear_arith);
    lemma_quad(-5, e, 0x36e24c4154b53201566e7d948dbb3bc7b390c8700a984d02c19a3e3506aef56aint, 1, pallas_modulus());
    let e: nat = 4 * e + 1;
    assert(quad(0x3cfac67a09df5827160de69238f379c0101796ce9c0c1e8799c11827dc94265bint, -5, 1, pallas_modulus()) == 0x2d4ae3fe20083568ae1db7cc2d7a3528067ba5c69e46d1ead7b739c68253d765int) by (nonlinear_arith);
    lemma_quad(-5, e, 0x3cfac67a09df5827160de69238f379c0101796ce9c0c1e8799c11827dc94265bint, 1, pallas_modulus());
    let e: nat = 4 * e + 1;
    assert(quad(0x2d4ae3fe20083568ae1db7cc2d7a3528067ba5c69e46d1ead7b739c68253d765int, -5, 1, pallas_modulus()) == 0x4e0c5128ef059834b00b0b28fbe6f375eec3b1f08b64625bdba2c2eb4b6592dint) by (nonlinear_arith);
    lemma_quad(-5, e, 0x2d4ae3fe20083568ae1db7cc2d7a3528067ba5c69e46d1ead7b739c68253d765int, 1, pallas_modulus());
    let e: nat = 4 * e + 1;
    assert(quad(0x4e0c5128ef059834b00b0b28fbe6f375eec3b1f08b64625bdba2c2eb4b6592dint, -5, 1, pallas_modulus()) == 0x36eaaaf6d863158d09f1da9fa7a2901fdcb5d837094375bc57a26f3575c5311dint) by (nonlinear_arith);
    lemma_quad(-5, e, 0x4e0c5128ef059834b00b0b28fbe6f375eec3b1f08b64625bdba2c2eb4b6592dint, 1, pallas_modulus());
    let e: nat = 4 * e + 1;
    assert(quad(0x36eaaaf6d863158d09f1da9fa7a2901fdcb5d837094375bc57a26f3575c5311dint, -5, 1, pallas_modulus()) == 0x11cef822d327eeeed5234cc4581e63a92e4ee5ab9d89ff3ff23e636c2d0e9c8eint) by (nonlinear_arith);
    lemma_quad(-5, e, 0x36eaaaf6d863158d09f1da9fa7a2901fdcb5d837094375bc57a26f3575c5311dint, 1, pallas_modulus());
    let e: nat = 4 * e + 1;
    assert(quad(0x11cef822d327eeeed5234cc4581e63a92e4ee5ab9d89ff3ff23e636c2d0e9c8eint, -5, 1, pallas_modulus()) == 0x25f70add463bc0247ba99de673c67e30fd242b07b0b5f5af8571841fb8c22542int) by (nonlinear_arith);
    lemma_quad(-5, e, 0x11cef822d327eeeed5234cc4581e63a92e4ee5ab9d89ff3ff23e636c2d0e9c8eint, 1, pallas_modulus());
    let e: nat = 4 * e + 1;
    assert(quad(0x25f70add463bc0247ba99de673c67e30fd242b07b0b5f5af8571841fb8c22542int, -5, 1, pallas_modulus()) == 0x1b6e6950f32d503f3f88711413824b2fb84aecc7d3b5bbe083003bee506efaaaint) by (nonlinear_arith);
    lemma_quad(-5, e, 0x25f70add463bc0247ba99de673c67e30fd242b07b0b5f5af8571841fb8c22542int, 1, pallas_modulus());
    let e: nat = 4 * e + 1;
    assert(quad(0x1b6e6950f32d503f3f88711413824b2fb84aecc7d3b5bbe083003bee506efaaaint, -5, 1, pallas_modulus()) == 0x224f1c87a0d02a0656e671a87a8fcec627a5193303b8e94e33267a8f8c2dbe6fint) by (nonlinear_arith);
    lemma_quad(-5, e, 0x1b6e6950f32d503f3f88711413824b2fb84aecc7d3b5bbe083003bee506efaaaint, 1, pallas_modulus());
    let e: nat = 4 * e + 1;
    assert(quad(0x224f1c87a0d02a0656e671a87a8fcec627a5193303b8e94e33267a8f8c2dbe6fint, -5, 1, pallas_modulus()) == 0x2b1cde165e2744f957e6400c2ff5786b0d1be2178bf3817b81295db5a7920a38int) by (nonlinear_arith);
    lemma_quad(-5, e, 0x224f1c87a0d02a0656e671a87a8fcec627a5193303b8e94e33267a8f8c2dbe6fint, 1, pallas_modulus());
    let e: nat = 4 * e + 1;
    assert(quad(0x2b1cde165e2744f957e6400c2ff5786b0d1be2178bf3817b81295db5a7920a38int, -5, 1, pallas_modulus()) == 0x112225eef8c53109d5e89d7adfe46152fa3ed1c1f02ebf4369680ff69fdecd55int) by (nonlinear_arith);
    lemma_quad(-5, e, 0x2b1cde165e2744f957e6400c2ff5786b0d1be2178bf3817b81295db5a7920a38int, 1, pallas_modulus());
    let e: nat = 4 * e + 1;
    assert(quad(0x112225eef8c53109d5e89d7adfe46152fa3ed1c1f02ebf4369680ff69fdecd55int, -5, 1, pallas_modulus()) == 0x34b1038c7ec26cf324dd9db94951767949d061f3227dd588ab3a722bf8bb4faaint) by (nonlinear_arith);
    lemma_quad(-5, e, 0x112225eef8c53109d5e89d7adfe46152fa3ed1c1f02ebf4369680ff69fdecd55int, 1, pallas_modulus());
    let e: nat = 4 * e + 1;
    assert(quad(0x34b1038c7ec26cf324dd9db94951767949d061f3227dd588ab3a722bf8bb4faaint, -5, 1, pallas_modulus()) == 0x15518a2dc364a166e0416e94393149333c6e2f506cfd1b4ba486ede69716c50fint) by (nonlinear_arith);
    lemma_quad(-5, e, 0x34b1038c7ec26cf324dd9db94951767949d061f3227dd588ab3a722bf8bb4faaint, 1, pallas_modulus());
    let e: nat = 4 * e + 1;
    assert(quad(0x15518a2dc364a166e0416e94393149333c6e2f506cfd1b4ba486ede69716c50fint, -5, 1, pallas_modulus()) == 0x3536eca262c7a7bd8fb09607bd96a60b18c049a1ee018e5d86030c4cdfd97402int) by (nonlinear_arith);
    lemma_quad(-5, e, 0x15518a2dc364a166e0416e94393149333c6e2f506cfd1b4ba486ede69716c50fint, 1, pallas_modulus());
    let e: nat = 4 * e + 1;
    assert(quad(0x3536eca262c7a7bd8fb09607bd96a60b18c049a1ee018e5d86030c4cdfd97402int, -5, 1, pallas_modulus()) == 0x22479c5dba996402872139c5fc7a92b40be5834b420139294775ac20a1fd327bint) by (nonlinear_arith);
    lemma_quad(-5, e, 0x3536eca262c7a7bd8fb09607bd96a60b18c049a1ee018e5d86030c4cdfd97402int, 1, pallas_modulus());
    let e: nat = 4 * e + 1;
    assert(quad(0x22479c5dba996402872139c5fc7a92b40be5834b420139294775ac20a1fd327bint, -5, 1, pallas_modulus()) == 0x365aaa6ae19f3a45280601d3d6971544b0d2183cb65ee75c624b44db93a5436cint) by (nonlinear_arith);
    lemma_quad(-5, e, 0x22479c5dba996402872139c5fc7a92b40be5834b420139294775ac20a1fd327bint, 1, pallas_modulus());
    let e: nat = 4 * e + 1;
    assert(quad(0x365aaa6ae19f3a45280601d3d6971544b0d2183cb65ee75c624b44db93a5436cint, -5, 1, pallas_modulus()) == 0x1a6d76f797d6c485a8cb0c184badc30b6e7b8f401c56d743c23522227d402c75int) by (nonlinear_arith);
    lemma_quad(-5, e, 0x365aaa6ae19f3a45280601d3d6971544b0d2183cb65ee75c624b44db93a5436cint, 1, pallas_modulus());
    let e: nat = 4 * e + 1;
    assert(quad(0x1a6d76f797d6c485a8cb0c184badc30b6e7b8f401c56d743c23522227d402c75int, -5, 1, pallas_modulus()) == 0x3cdfd6a8655c724769c9b21fc94736605391d24ff4fb92825d2fe83747c73ec5int) by (nonlinear_arith);
    lemma_quad(-5, e, 0x1a6d76f797d6c485a8cb0c184badc30b6e7b8f401c56d743c23522227d402c75int, 1, pallas_modulus());
    let e: nat = 4 * e + 1;
    assert(quad(0x3cdfd6a8655c724769c9b21fc94736605391d24ff4fb92825d2fe83747c73ec5int, -5, 1, pallas_modulus()) == 0x35d2d29e8d02440e0db8572a8bfb9a691993be6f4ea6621b47bd0162a511b11fint) by (nonlinear_arith);
    lemma_quad(-5, e, 0x3cdfd6a8655c724769c9b21fc94736605391d24ff4fb92825d2fe83747c73ec5int, 1, pallas_modulus());
    let e: nat = 4 * e + 1;
    assert(quad(0x35d2d29e8d02440e0db8572a8bfb9a691993be6f4ea6621b47bd0162a511b11fint, -5, 1, pallas_modulus()) == 0x1cd8c3f97c09ecb27057202a75d5bc898bedc5f742186a96d28eaf3829bd0305int) by (nonlinear_arith);
    lemma_quad(-5, e, 0x35d2d29e8d02440e0db8572a8bfb9a691993be6f4ea6621b47bd0162a511b11fint, 1, pallas_modulus());
    let e: nat = 4 * e + 1;
    assert(quad(0x1cd8c3f97c09ecb27057202a75d5bc898bedc5f742186a96d28eaf3829bd0305int, -5, 1, pallas_modulus()) == 0x28599c1855f6c643c8039202c9626288847ce68f5f97dc8682e8255060814e9cint) by (nonlinear_arith);
    lemma_quad(-5, e, 0x1cd8c3f97c09ecb27057202a75d5bc898bedc5f742186a96d28eaf3829bd0305int, 1, pallas_modulus());
    let e: nat = 4 * e + 1;
    assert(quad(0x28599c1855f6c643c8039202c9626288847ce68f5f97dc8682e8255060814e9cint, -5, 1, pallas_modulus()) == 0x3f62fe57378a98d6d28c72bdd487044c16b654d546877e4a272cea51dc788c32int) by (nonlinear_arith);
    lemma_quad(-5, e, 0x28599c1855f6c643c8039202c9626288847ce68f5f97dc8682e8255060814e9cint, 1, pallas_modulus());
    let e: nat = 4 * e + 1;
    assert(quad(0x3f62fe57378a98d6d28c72bdd487044c16b654d546877e4a272cea51dc788c32int, -5, 1, pallas_modulus()) == 0x1efd80d7209af9e995c0cb45dfb5aecce3797ec1c2179527f6c76c7133579fbdint) by (nonlinear_arith);
    lemma_quad(-5, e, 0x3f62fe57378a98d6d28c72bdd487044c16b654d546877e4a272cea51dc788c32int, 1, pallas_modulus());
    let e: nat = 4 * e + 1;
    assert(quad(0x1efd80d7209af9e995c0cb45dfb5aecce3797ec1c2179527f6c76c7133579fbdint, -5, 1, pallas_modulus()) == 0x14ae21cd691f37da7b56de131804c489b43c0d32fb228b89e6abafb9bb66c41cint) by (nonlinear_arith);
    lemma_quad(-5, e, 0x1efd80d7209af9e995c0cb45dfb5aecce3797ec1c2179527f6c76c7133579fbdint, 1, pallas_modulus());
    let e: nat = 4 * e + 1;
    assert(quad(0x14ae21cd691f37da7b56de131804c489b43c0d32fb228b89e6abafb9bb66c41cint, -5, 1, pallas_modulus()) == 0x1be0df0e8e255be3db832c16797ef5624dc926e6ebefa7a6fb375df4e4613f95int) by (nonlinear_arith);
    lemma_quad(-5, e, 0x14ae21cd691f37da7b56de131804c489b43c0d32fb228b89e6abafb9bb66c41cint, 1, pallas_modulus());
    let e: nat = 4 * e + 1;
    assert(quad(0x1be0df0e8e255be3db832c16797ef5624dc926e6ebefa7a6fb375df4e4613f95int, -5, 1, pallas_modulus()) == 0x9929635f4cba5d327ea4afccd7a6f688463163d1cb2b1923e36f8b7ec366b8bint) by (nonlinear_arith);
    lemma_quad(-5, e, 0x1be0df0e8e255be3db832c16797ef5624dc926e6ebefa7a6fb375df4e4613f95int, 1, pallas_modulus());
    let e: nat = 4 * e + 1;
    assert(quad(0x9929635f4cba5d327ea4afccd7a6f688463163d1cb2b1923e36f8b7ec366b8bint, -5, 1, pallas_modulus()) == 0x262c07d88dd213248db4bb99258dbfa52828060b440e29fe27efa79e2dfd309aint) by (nonlinear_arith);
    lemma_quad(-5, e, 0x9929635f4cba5d327ea4afccd7a6f688463163d1cb2b1923e36f8b7ec366b8bint, 1, pallas_modulus());
    let e: nat = 4 * e + 1;
    assert(quad(0x262c07d88dd213248db4bb99258dbfa52828060b440e29fe27efa79e2dfd309aint, -5, 1, pallas_modulus()) == 0x331cbeaf165b156c8618503679e476d01c2e2a5cf739ac2a5c78eed43cba377cint) by (nonlinear_arith);
    lemma_quad(-5, e, 0x262c07d88dd213248db4bb99258dbfa52828060b440e29fe27efa79e2dfd309aint, 1, pallas_modulus());
    let e: nat = 4 * e + 1;
    assert(quad(0x331cbeaf165b156c8618503679e476d01c2e2a5cf739ac2a5c78eed43cba377cint, -5, 1, pallas_modulus()) == 0x10bde18fff13ce6a225197873a541db7895f538658df9343dd92bab21603a532int) by (nonlinear_arith);
    lemma_quad(-5, e, 0x331cbeaf165b156c8618503679e476d01c2e2a5cf739ac2a5c78eed43cba377cint, 1, pallas_modulus());
    let e: nat = 4 * e + 1;
    assert(quad(0x10bde18fff13ce6a225197873a541db7895f538658df9343dd92bab21603a532int, -5, 1, pallas_modulus()) == 0x39543a842c10df381cd5708f136c87ee69b15409313504c89ea0b64cc5d4aaaaint) by (nonlinear_arith);
    lemma_quad(-5, e, 0x10bde18fff13ce6a225197873a541db7895f538658df9343dd92bab21603a532int, 1, pallas_modulus());
    let e: nat = 4 * e + 1;
    assert(quad(0x39543a842c10df381cd5708f136c87ee69b15409313504c89ea0b64cc5d4aaaaint, -5, 1, pallas_modulus()) == 0x247387e46a2461c1d59cb43a8dcbb899ed408d69df5895f79503258d7b3232edint) by (nonlinear_arith);
    lemma_quad(-5, e, 0x39543a842c10df381cd5708f136c87ee69b15409313504c89ea0b64cc5d4aaaaint, 1, pallas_modulus());
    let e: nat = 4 * e + 1;
    assert(quad(0x247387e46a2461c1d59cb43a8dcbb899ed408d69df5895f79503258d7b3232edint, -5, 1, pallas_modulus()) == 0x15cb8abff48873d9ec9f4f6af985943573388a362f2f035bb83460ca6eeaeea0int) by (nonlinear_arith);
    lemma_quad(-5, e, 0x247387e46a2461c1d59cb43a8dcbb899ed408d69df5895f79503258d7b3232edint, 1, pallas_modulus());
    let e: nat = 4 * e + 1;
    assert(quad(0x15cb8abff48873d9ec9f4f6af985943573388a362f2f035bb83460ca6eeaeea0int, -5, 1, pallas_modulus()) == 0x1d68ec68d86638e5ebbe7792c6ab27754f3b725d8b19cec717bba9f33f2c8faint) by (nonlinear_arith);
    lemma_quad(-5, e, 0x15cb8abff48873d9ec9f4f6af985943573388a362f2f035bb83460ca6eeaeea0int, 1, pallas_modulus());
    let e: nat = 4 * e + 1;
    assert(quad(0x1d68ec68d86638e5ebbe7792c6ab27754f3b725d8b19cec717bba9f33f2c8faint, -5, 1, pallas_modulus()) == 0x128359b132a1c660ada09365444d0676aa4558a4b39b0e14c2eaf8914a83dcf4int) by (nonlinear_arith);
    lemma_quad(-5, e, 0x1d68ec68d86638e5ebbe7792c6ab27754f3b725d8b19cec717bba9f33f2c8faint, 1, pallas_modulus());
    let e: nat = 4 * e + 1;
    assert(quad(0x128359b132a1c660ada09365444d0676aa4558a4b39b0e14c2eaf8914a83dcf4int, -5, 1, pallas_modulus()) == 0x3c6834df6576ea4c41276be28b910faa862240d84c9e9159fea2ce52c02299f6int) by (nonlinear_arith);
    lemma_quad(-5, e, 0x128359b132a1c660ada09365444d0676aa4558a4b39b0e14c2eaf8914a83dcf4int, 1, pallas_modulus());
    let e: nat = 4 * e + 1;
    assert(quad(0x3c6834df6576ea4c41276be28b910faa862240d84c9e9159fea2ce52c02299f6int, -5, 1, pallas_modulus()) == 0x3a1c662770d5f87035457a328d52ffb956db733196078b9c58dd490b226ff2acint) by (nonlinear_arith);
    lemma_quad(-5, e, 0x3c6834df6576ea4c41276be28b910faa862240d84c9e9159fea2ce52c02299f6int, 1, pallas_modulus());
    let e: nat = 4 * e + 1;
    assert(quad(0x3a1c662770d5f87035457a328d52ffb956db733196078b9c58dd490b226ff2acint, -5, 1, pallas_modulus()) == 0x2ec5d2952536e082e98dbab30a9ba5735a6c98e526d290ca4823692c5061670bint) by (nonlinear_arith);
    lemma_quad(-5, e, 0x3a1c662770d5f87035457a328d52ffb956db733196078b9c58dd490b226ff2acint, 1, pallas_modulus());
    let e: nat = 4 * e + 1;
    assert(quad(0x2ec5d2952536e082e98dbab30a9ba5735a6c98e526d290ca4823692c5061670bint, -5, 1, pallas_modulus()) == 0x2715a159973a59b1fadbd824385f1fb60894562305fab2f87f9dbbb6cbd69042int) by (nonlinear_arith);
    lemma_quad(-5, e, 0x2ec5d2952536e082e98dbab30a9ba5735a6c98e526d290ca4823692c5061670bint, 1, pallas_modulus());
    let e: nat = 4 * e + 1;
    assert(quad(0x2715a159973a59b1fadbd824385f1fb60894562305fab2f87f9dbbb6cbd69042int, -5, 1, pallas_modulus()) == 0x3bc258d90452fcea4623a3d5cbf1ec69b908a47fe8cd9ac0d12689a370f3f156int) by (nonlinear_arith);
    lemma_quad(-5, e, 0x2715a159973a59b1fadbd824385f1fb60894562305fab2f87f9dbbb6cbd69042int, 1, pallas_modulus());
    let e: nat = 4 * e + 1;
    assert(quad(0x3bc258d90452fcea4623a3d5cbf1ec69b908a47fe8cd9ac0d12689a370f3f156int, -5, 1, pallas_modulus()) == 0x5fce8deab1f743218139588cc1e7ea0a78bcd72b47de93b8920926f63fb0eaeint) by (nonlinear_arith);
    lemma_quad(-5, e, 0x3bc258d90452fcea4623a3d5cbf1ec69b908a47fe8cd9ac0d12689a370f3f156int, 1, pallas_modulus());
    let e: nat = 4 * e + 1;
    assert(quad(0x5fce8deab1f743218139588cc1e7ea0a78bcd72b47de93b8920926f63fb0eaeint, -5, 1, pallas_modulus()) == 0xb77e56dc9c70e2bba8b96e66b810052388f5ef746bca2831e2ff0252eedb4f1int) by (nonlinear_arith);
    lemma_quad(-5, e, 0x5fce8deab1f743218139588cc1e7ea0a78bcd72b47de93b8920926f63fb0eaeint, 1, pallas_modulus());
    let e: nat = 4 * e + 1;
    assert(quad(0xb77e56dc9c70e2bba8b96e66b810052388f5ef746bca2831e2ff0252eedb4f1int, -5, 1, pallas_modulus()) == 0x3334062642c3bcc7aab40f420902e0c83633b9737c6a986c7fc7a0d9f5922474int) by (nonlinear_arith);
    lemma_quad(-5, e, 0xb77e56dc9c70e2bba8b96e66b810052388f5ef746bca2831e2ff0252eedb4f1int, 1, pallas_modulus());
    let e: nat = 4 * e + 1;
    assert(quad(0x3334062642c3bcc7aab40f420902e0c83633b9737c6a986c7fc7a0d9f5922474int, -5, 1, pallas_modulus()) == 0x6109c3829684b5db55ffee5e0952ef5673484075280d355d0fff798adf74945int) by (nonlinear_arith);
    lemma_quad(-5, e, 0x3334062642c3bcc7aab40f420902e0c83633b9737c6a986c7fc7a0d9f5922474int, 1, pallas_modulus());
    let e: nat = 4 * e + 1;
    assert(quad(0x6109c3829684b5db55ffee5e0952ef5673484075280d355d0fff798adf74945int, -5, 1, pallas_modulus()) == 0x1ec592cad54c43c26bb41f638a80131c8d7f5146dc1b6d2142ca6f768405e7e8int) by (nonlinear_arith);
    lemma_quad(-5, e, 0x6109c3829684b5db55ffee5e0952ef5673484075280d355d0fff798adf74945int, 1, pallas_modulus());
    let e: nat = 4 * e + 1;
    assert(quad(0x1ec592cad54c43c26bb41f638a80131c8d7f5146dc1b6d2142ca6f768405e7e8int, -5, 1, pallas_modulus()) == 0x223d8df57d792de11ee5334a59eb84edbc26a63eeec60a91936b7aa041caee97int) by (nonlinear_arith);
    lemma_quad(-5, e, 0x1ec592cad54c43c26bb41f638a80131c8d7f5146dc1b6d2142ca6f768405e7e8int, 1, pallas_modulus());
    let e: nat = 4 * e + 1;
    assert(quad(0x223d8df57d792de11ee5334a59eb84edbc26a63eeec60a91936b7aa041caee97int, -5, 1, pallas_modulus()) == 0x1a756d82dbf7aeb33c26b065c4eb1421266298e9b721af8179d5dcc2e9bc6b42int) by (nonlinear_arith);
    lemma_quad(-5, e, 0x223d8df57d792de11ee5334a59eb84edbc26a63eeec60a91936b7aa041caee97int, 1, pallas_modulus());
    let e: nat = 4 * e + 1;
    assert(quad(0x1a756d82dbf7aeb33c26b065c4eb1421266298e9b721af8179d5dcc2e9bc6b42int, -5, 1, pallas_modulus()) == 0x1ea773e23cacc518fefdfc79e2efbcdc72270d53680fb757afd0e0013ca986a0int) by (nonlinear_arith);
    lemma_quad(-5, e, 0x1a756d82dbf7aeb33c26b065c4eb1421266298e9b721af8179d5dcc2e9bc6b42int, 1, pallas_modulus());
    let e: nat = 4 * e + 1;
    assert(quad(0x1ea773e23cacc518fefdfc79e2efbcdc72270d53680fb757afd0e0013ca986a0int, -5, 1, pallas_modulus()) == 0xb5c8b305eb24b458502ec64aca2f07004837da8193d05701d042297632da9f3int) by (nonlinear_arith);
    lemma_quad(-5, e, 0x1ea773e23cacc518fefdfc79e2efbcdc72270d53680fb757afd0e0013ca986a0int, 1, pallas_modulus());
    let e: nat = 4 * e + 1;
    assert(quad(0xb5c8b305eb24b458502ec64aca2f07004837da8193d05701d042297632da9f3int, -5, 2, pallas_modulus()) == 0x24fbb2a1066d02c0819849bda6dcfe1959598179a3fc2cefc46de97b1c197469int) by (nonlinear_arith);
    lemma_quad(-5, e, 0xb5c8b305eb24b458502ec64aca2f07004837da8193d05701d042297632da9f3int, 2, pallas_modulus());
    let e: nat = 4 * e + 2;
    assert(quad(0x24fbb2a1066d02c0819849bda6dcfe1959598179a3fc2cefc46de97b1c197469int, -5, 0, pallas_modulus()) == 0x18f4d3d0e4bd7e21f05dfda3b6514b42222964ffca339e091f9ee37e065e8b68int) by (nonlinear_arith);
    lemma_quad(-5, e, 0x24fbb2a1066d02c0819849bda6dcfe1959598179a3fc2cefc46de97b1c197469int, 0, pallas_modulus());
    let e: nat = 4 * e + 0;
    assert(quad(0x18f4d3d0e4bd7e21f05dfda3b6514b42222964ffca339e091f9ee37e065e8b68int, -5, 0, pallas_modulus()) == 0x36ce9eafe73bbfeba3c4dc50b60086bdfcd834c7e376a075a073c5c440a05c9cint) by (nonlinear_arith);
    lemma_quad(-5, e, 0x18f4d3d0e4bd7e21f05dfda3b6514b42222964ffca339e091f9ee37e065e8b68int, 0, pallas_modulus());
    let e: nat = 4 * e + 0;
    assert(quad(0x36ce9eafe73bbfeba3c4dc50b60086bdfcd834c7e376a075a073c5c440a05c9cint, -5, 3, pallas_modulus()) == 0x3099b771fcb43236acfbbf35a0587626ab0f8365a60a485c46eb6e348c2b6d9eint) by (nonlinear_arith);
    lemma_quad(-5, e, 0x36ce9eafe73bbfeba3c4dc50b60086bdfcd834c7e376a075a073c5c440a05c9cint, 3, pallas_modulus());
    let e: nat = 4 * e + 3;
    assert(quad(0x3099b771fcb43236acfbbf35a0587626ab0f8365a60a485c46eb6e348c2b6d9eint, -5, 0, pallas_modulus()) == 0xaa24fd384d40ed77568310012be914a36054e91f50c4c272ee4e0dbdbd26bfcint) by (nonlinear_arith);
    lemma_quad(-5, e, 0x3099b771fcb43236acfbbf35a0587626ab0f8365a60a485c46eb6e348c2b6d9eint, 0, pallas_modulus());
    let e: nat = 4 * e + 0;
    assert(quad(0xaa24fd384d40ed77568310012be914a36054e91f50c4c272ee4e0dbdbd26bfcint, -5, 0, pallas_modulus()) == 0x22efdc0083d5d065e4421133adf50394fcf396f9bc40cfa78a011535ce80aca0int) by (nonlinear_arith);
    lemma_quad(-5, e, 0xaa24fd384d40ed77568310012be914a36054e91f50c4c272ee4e0dbdbd26bfcint, 0, pallas_modulus());
    let e: nat = 4 * e + 0;
    assert(quad(0x22efdc0083d5d065e4421133adf50394fcf396f9bc40cfa78a011535ce80aca0int, -5, 2, pallas_modulus()) == 0x21f0970b8072bb9813b6ec96a9ad71e2e71705d037d97309627d98ab64805c06int) by (nonlinear_arith);
    lemma_quad(-5, e, 0x22efdc0083d5d065e4421133adf50394fcf396f9bc40cfa78a011535ce80aca0int, 2, pallas_modulus());
    let e: nat = 4 * e + 2;
    assert(quad(0x21f0970b8072bb9813b6ec96a9ad71e2e71705d037d97309627d98ab64805c06int, -5, 0, pallas_modulus()) == 0x1e57148c4d7609bc0135b028aced7d5209e52c7035a4c729fbf3bfb841c3297fint) by (nonlinear_arith);
    lemma_quad(-5, e, 0x21f0970b8072bb9813b6ec96a9ad71e2e71705d037d97309627d98ab64805c06int, 0, pallas_modulus());
    let e: nat = 4 * e + 0;
    assert(quad(0x1e57148c4d7609bc0135b028aced7d5209e52c7035a4c729fbf3bfb841c3297fint, -5, 3, pallas_modulus()) == 0x56120ea144487ad6c7cef14450be8cf40b9dc4f918c0c6ac9ad8237fe322579int) by (nonlinear_arith);
    lemma_quad(-5, e, 0x1e57148c4d7609bc0135b028aced7d5209e52c7035a4c729fbf3bfb841c3297fint, 3, pallas_modulus());
    let e: nat = 4 * e + 3;
    assert(quad(0x56120ea144487ad6c7cef14450be8cf40b9dc4f918c0c6ac9ad8237fe322579int, -5, 0, pallas_modulus()) == 0x16ede65a1b35b78ec2de7f12467908d57f3e9c6847f99bda2d62add788df275eint) by (nonlinear_arith);
    lemma_quad(-5, e, 0x56120ea144487ad6c7cef14450be8cf40b9dc4f918c0c6ac9ad8237fe322579int, 0, pallas_modulus());
    let e: nat = 4 * e + 0;
    assert(quad(0x16ede65a1b35b78ec2de7f12467908d57f3e9c6847f99bda2d62add788df275eint, -5, 2, pallas_modulus()) == 0xe1723d25a4bb14429cc2c55dcc23e2b5ab8ec4fee4ebc7e1e3a3730325b1694int) by (nonlinear_arith);
    lemma_quad(-5, e, 0x16ede65a1b35b78ec2de7f12467908d57f3e9c6847f99bda2d62add788df275eint, 2, pallas_modulus());
    let e: nat = 4 * e + 2;
    assert(quad(0xe1723d25a4bb14429cc2c55dcc23e2b5ab8ec4fee4ebc7e1e3a3730325b1694int, -5, 3, pallas_modulus()) == 0x32e94781751c7d0c88f8b07fb6671ef2fc60ffdbbe58fa2d740407bf38711138int) by (nonlinear_arith);
    lemma_quad(-5, e, 0xe1723d25a4bb14429cc2c55dcc23e2b5ab8ec4fee4ebc7e1e3a3730325b1694int, 3, pallas_modulus());
    let e: nat = 4 * e + 3;
    assert(quad(0x32e94781751c7d0c88f8b07fb6671ef2fc60ffdbbe58fa2d740407bf38711138int, -5, 3, pallas_modulus()) == 0x3477a9e959afe28ef81b7980a2dffd7d97ef1d58cef8039d96c0a13c92c0ee24int) by (nonlinear_arith);
    lemma_quad(-5, e, 0x32e94781751c7d0c88f8b07fb6671ef2fc60ffdbbe58fa2d740407bf38711138int, 3, pallas_modulus());
    let e: nat = 4 * e + 3;
    assert(quad(0x3477a9e959afe28ef81b7980a2dffd7d97ef1d58cef8039d96c0a13c92c0ee24int, -5, 3, pallas_modulus()) == 0x5c2227390f4b3c33c56915a9d8e44e167f0202d7655220d17f7c17450269480int) by (nonlinear_arith);
    lemma_quad(-5, e, 0x3477a9e959afe28ef81b7980a2dffd7d97ef1d58cef8039d96c0a13c92c0ee24int, 3, pallas_modulus());
    let e: nat = 4 * e + 3;
    assert(quad(0x5c2227390f4b3c33c56915a9d8e44e167f0202d7655220d17f7c17450269480int, -5, 2, pallas_modulus()) == 0x1559157fd1379ed3a4891cd0088328eb487388b9915eeb0a758ad92859a6125eint) by (nonlinear_arith);
    lemma_quad(-5, e, 0x5c2227390f4b3c33c56915a9d8e44e167f0202d7655220d17f7c17450269480int, 2, pallas_modulus());
    let e: nat = 4 * e + 2;
    assert(quad(0x1559157fd1379ed3a4891cd0088328eb487388b9915eeb0a758ad92859a6125eint, -5, 2, pallas_modulus()) == 0x3023c66877f69151cb8e00f2e96474b555155dadceba9bc4a59d2fdf391502afint) by (nonlinear_arith);
    lemma_quad(-5, e, 0x1559157fd1379ed3a4891cd0088328eb487388b9915eeb0a758ad92859a6125eint, 2, pallas_modulus());
    let e: nat = 4 * e + 2;
    assert(quad(0x3023c66877f69151cb8e00f2e96474b555155dadceba9bc4a59d2fdf391502afint, -5, 2, pallas_modulus()) == 0x3fafb7c7fdcb4072dbdc412bff30d69d010b98af489e5d16d358a5ec120c6485int) by (nonlinear_arith);
    lemma_quad(-5, e, 0x3023c66877f69151cb8e00f2e96474b555155dadceba9bc4a59d2fdf391502afint, 2, pallas_modulus());
    let e: nat = 4 * e + 2;
    assert(quad(0x3fafb7c7fdcb4072dbdc412bff30d69d010b98af489e5d16d358a5ec120c6485int, -5, 3, pallas_modulus()) == 0x1ec542e6b9e1b96a9941866e1b796ae225ab9707a32e7f6bcaf760c3052a0891int) by (nonlinear_arith);
    lemma_quad(-5, e, 0x3fafb7c7fdcb4072dbdc412bff30d69d010b98af489e5d16d358a5ec120c6485int, 3, pallas_modulus());
    let e: nat = 4 * e + 3;
    assert(quad(0x1ec542e6b9e1b96a9941866e1b796ae225ab9707a32e7f6bcaf760c3052a0891int, -5, 1, pallas_modulus()) == 0xecb485104a1d712ccb288ecac3072388743879dad99354bfeb59ecc412682cfint) by (nonlinear_arith);
    lemma_quad(-5, e, 0x1ec542e6b9e1b96a9941866e1b796ae225ab9707a32e7f6bcaf760c3052a0891int, 1, pallas_modulus());
    let e: nat = 4 * e + 1;
    assert(quad(0xecb485104a1d712ccb288ecac3072388743879dad99354bfeb59ecc412682cfint, -5, 3, pallas_modulus()) == 0x34d11412a34674f1ddd71e9ca5aba598afe208aa57c4c810fdff5989cf79c96dint) by (nonlinear_arith);
    lemma_quad(-5, e, 0xecb485104a1d712ccb288ecac3072388743879dad99354bfeb59ecc412682cfint, 3, pallas_modulus());
    let e: nat = 4 * e + 3;
    assert(quad(0x34d11412a34674f1ddd71e9ca5aba598afe208aa57c4c810fdff5989cf79c96dint, -5, 0, pallas_modulus()) == 0x1ca2fb6a2579edd83550b0eb840299ac5da71e852bf03c711525c2a1b4f9e0c3int) by (nonlinear_arith);
    lemma_quad(-5, e, 0x34d11412a34674f1ddd71e9ca5aba598afe208aa57c4c810fdff5989cf79c96dint, 0, pallas_modulus());
    let e: nat = 4 * e + 0;
    assert(quad(0x1ca2fb6a2579edd83550b0eb840299ac5da71e852bf03c711525c2a1b4f9e0c3int, -5, 1, pallas_modulus()) == 0xa47848604ccca082a776f06ebcbea2989d8ebfb5875e9113961f32db0772610int) by (nonlinear_arith);
    lemma_quad(-5, e, 0x1ca2fb6a2579edd83550b0eb840299ac5da71e852bf03c711525c2a1b4f9e0c3int, 1, pallas_modulus());
    let e: nat = 4 * e + 1;
    assert(quad(0xa47848604ccca082a776f06ebcbea2989d8ebfb5875e9113961f32db0772610int, -5, 0, pallas_modulus()) == 0x2cbe25027878f8c6bab1a2606ce4f0f594f1b36ca5950b38933825de199d4fe4int) by (nonlinear_arith);
    lemma_quad(-5, e, 0xa47848604ccca082a776f06ebcbea2989d8ebfb5875e9113961f32db0772610int, 0, pallas_modulus());
    let e: nat = 4 * e + 0;
    assert(quad(0x2cbe25027878f8c6bab1a2606ce4f0f594f1b36ca5950b38933825de199d4fe4int, -5, 1, pallas_modulus()) == 0x22f117a26b487a74b1d3f5e763223923734da386ab5f7e2a46da3f2703d65b89int) by (nonlinear_arith);
    lemma_quad(-5, e, 0x2cbe25027878f8c6bab1a2606ce4f0f594f1b36ca5950b38933825de199d4fe4int, 1, pallas_modulus());
    let e: nat = 4 * e + 1;
    assert(quad(0x22f117a26b487a74b1d3f5e763223923734da386ab5f7e2a46da3f2703d65b89int, -5, 1, pallas_modulus()) == 0x3d617a17eb7a163d77be4fb44e826ba9e14fca5250c5ae73fff0227e4b77b6c3int) by (nonlinear_arith);
    lemma_quad(-5, e, 0x22f117a26b487a74b1d3f5e763223923734da386ab5f7e2a46da3f2703d65b89int, 1, pallas_modulus());
    let e: nat = 4 * e + 1;
    assert(quad(0x3d617a17eb7a163d77be4fb44e826ba9e14fca5250c5ae73fff0227e4b77b6c3int, -5, 0, pallas_modulus()) == 0x316ae733e94d28ff4c986c735aea738355dfdee6dad560d6c4c26136eab3c3eaint) by (nonlinear_arith);
    lemma_quad(-5, e, 0x3d617a17eb7a163d77be4fb44e826ba9e14fca5250c5ae73fff0227e4b77b6c3int, 0, pallas_modulus());
    let e: nat = 4 * e + 0;
    assert(quad(0x316ae733e94d28ff4c986c735aea738355dfdee6dad560d6c4c26136eab3c3eaint, -5, 3, pallas_modulus()) == 0x32a90e8b2d2efafef4d684f362e43326807f01dbf146617058ed15a8e17aa2cint) by (nonlinear_arith);
    lemma_quad(-5, e, 0x316ae733e94d28ff4c986c735aea738355dfdee6dad560d6c4c26136eab3c3eaint, 3, pallas_modulus());
    let e: nat = 4 * e + 3;
    assert(quad(0x32a90e8b2d2efafef4d684f362e43326807f01dbf146617058ed15a8e17aa2cint, -5, 0, pallas_modulus()) == 0x230e1846c85176a44754dd9c0792ead018beee4e5808fe6dc68b926302d35c6fint) by (nonlinear_arith);
    lemma_quad(-5, e, 0x32a90e8b2d2efafef4d684f362e43326807f01dbf146617058ed15a8e17aa2cint, 0, pallas_modulus());
    let e: nat = 4 * e + 0;
    assert(quad(0x230e1846c85176a44754dd9c0792ead018beee4e5808fe6dc68b926302d35c6fint, -5, 0, pallas_modulus()) == 0x2d880dc7b73905a2a3e03165475ee445f5bef536475f502c55eaac9bbe18167aint) by (nonlinear_arith);
    lemma_quad(-5, e, 0x230e1846c85176a44754dd9c0792ead018beee4e5808fe6dc68b926302d35c6fint, 0, pallas_modulus());
    let e: nat = 4 * e + 0;
    assert(quad(0x2d880dc7b73905a2a3e03165475ee445f5bef536475f502c55eaac9bbe18167aint, -5, 2, pallas_modulus()) == 0x2dc522523b9916b549809bbd93e9e688630b17be5cb4cee3002acf4043267b7dint) by (nonlinear_arith);
    lemma_quad(-5, e, 0x2d880dc7b73905a2a3e03165475ee445f5bef536475f502c55eaac9bbe18167aint, 2, pallas_modulus());
    let e: nat = 4 * e + 2;
    assert(quad(0x2dc522523b9916b549809bbd93e9e688630b17be5cb4cee3002acf4043267b7dint, -5, 1, pallas_modulus()) == 0x28b6843779c681e3053ccf5fed7ce2844f99a8de90e4bf669c326c7a81b3fbcint) by (nonlinear_arith);
    lemma_quad(-5, e, 0x2dc522523b9916b549809bbd93e9e688630b17be5cb4cee3002acf4043267b7dint, 1, pallas_modulus());
    let e: nat = 4 * e + 1;
    assert(quad(0x28b6843779c681e3053ccf5fed7ce2844f99a8de90e4bf669c326c7a81b3fbcint, -5, 0, pallas_modulus()) == 0x3d484dde161a0152e2787967b6f791d94e74a4635167fc26a63554a8278e8a43int) by (nonlinear_arith);
    lemma_quad(-5, e, 0x28b6843779c681e3053ccf5fed7ce2844f99a8de90e4bf669c326c7a81b3fbcint, 0, pallas_modulus());
    let e: nat = 4 * e + 0;
    assert(quad(0x3d484dde161a0152e2787967b6f791d94e74a4635167fc26a63554a8278e8a43int, -5, 3, pallas_modulus()) == 0x2225728033ca4e86e0ba1c2e3722b119e01a120a33d8b5bde25bbcc157129552int) by (nonlinear_arith);
    lemma_quad(-5, e, 0x3d484dde161a0152e2787967b6f791d94e74a4635167fc26a63554a8278e8a43int, 3, pallas_modulus());
    let e: nat = 4 * e + 3;
    assert(quad(0x2225728033ca4e86e0ba1c2e3722b119e01a120a33d8b5bde25bbcc157129552int, -5, 0, pallas_modulus()) == 0x378c78f9ec1e56ba81c51d221ddfa58d0674685ad276a7a5dcd1627e7a495794int) by (nonlinear_arith);
    lemma_quad(-5, e, 0x2225728033ca4e86e0ba1c2e3722b119e01a120a33d8b5bde25bbcc157129552int, 0, pallas_modulus());
    let e: nat = 4 * e + 0;
    assert(quad(0x378c78f9ec1e56ba81c51d221ddfa58d0674685ad276a7a5dcd1627e7a495794int, -5, 3, pallas_modulus()) == 0x258225dbdb2b990c7ab108f88679b057bb591a7d39ba830a669f29a270c9d67int) by (nonlinear_arith);
    lemma_quad(-5, e, 0x378c78f9ec1e56ba81c51d221ddfa58d0674685ad276a7a5dcd1627e7a495794int, 3, pallas_modulus());
    let e: nat = 4 * e + 3;
    assert(quad(0x258225dbdb2b990c7ab108f88679b057bb591a7d39ba830a669f29a270c9d67int, -5, 0, pallas_modulus()) == 0xb522abdf4cdd30e229ca3b44664383a14acb861bf6707072080644d1e77e01eint) by (nonlinear_arith);
    lemma_quad(-5, e, 0x258225dbdb2b990c7ab108f88679b057bb591a7d39ba830a669f29a270c9d67int, 0, pallas_modulus());
    let e: nat = 4 * e + 0;
    assert(quad(0xb522abdf4cdd30e229ca3b44664383a14acb861bf6707072080644d1e77e01eint, -5, 0, pallas_modulus()) == 0x2ee602d4ab6c0983cc7d76adce5212a30a9cf6311a3b942b349a890d2c24747bint) by (nonlinear_arith);
    lemma_quad(-5, e, 0xb522abdf4cdd30e229ca3b44664383a14acb861bf6707072080644d1e77e01eint, 0, pallas_modulus());
    let e: nat = 4 * e + 0;
    assert(quad(0x2ee602d4ab6c0983cc7d76adce5212a30a9cf6311a3b942b349a890d2c24747bint, -5, 3, pallas_modulus()) == 0x21ff60610f5fd40b6da574ee4751319caad0b1ee15ff84154129d6f960351518int) by (nonlinear_arith);
    lemma_quad(-5, e, 0x2ee602d4ab6c0983cc7d76adce5212a30a9cf6311a3b942b349a890d2c24747bint, 3, pallas_modulus());
    let e: nat = 4 * e + 3;
    assert(quad(0x21ff60610f5fd40b6da574ee4751319caad0b1ee15ff84154129d6f960351518int, -5, 3, pallas_modulus()) == 0x223aa1c1bcdfa2dbc5b36c1d68581ab9635ff93d8f5c772aa2118a995addd2caint) by (nonlinear_arith);
    lemma_quad(-5, e, 0x21ff60610f5fd40b6da574ee4751319caad0b1ee15ff84154129d6f960351518int, 3, pallas_modulus());
    let e: nat = 4 * e + 3;
    assert(quad(0x223aa1c1bcdfa2dbc5b36c1d68581ab9635ff93d8f5c772aa2118a995addd2caint, -5, 0, pallas_modulus()) == 0x339f440f10c0e79e72c7fd6e752ca54d9604d54d779cac5454a0eb3333c0d2e8int) by (nonlinear_arith);
    lemma_quad(-5, e, 0x223aa1c1bcdfa2dbc5b36c1d68581ab9635ff93d8f5c772aa2118a995addd2caint, 0, pallas_modulus());
    let e: nat = 4 * e + 0;
    assert(quad(0x339f440f10c0e79e72c7fd6e752ca54d9604d54d779cac5454a0eb3333c0d2e8int, -5, 1, pallas_modulus()) == 0x1c2476b6626b68d763f6462ada02f7bd7ba9f4f74418cbcb263bbcf92289cfa0int) by (nonlinear_arith);
    lemma_quad(-5, e, 0x339f440f10c0e79e72c7fd6e752ca54d9604d54d779cac5454a0eb3333c0d2e8int, 1, pallas_modulus());
    let e: nat = 4 * e + 1;
    assert(quad(0x1c2476b6626b68d763f6462ada02f7bd7ba9f4f74418cbcb263bbcf92289cfa0int, -5, 0, pallas_modulus()) == 0x24ad9f35ec7926be8efab6445980af0f1ed05a2c0d0b04ae648598aa43853eacint) by (nonlinear_arith);
    lemma_quad(-5, e, 0x1c2476b6626b68d763f6462ada02f7bd7ba9f4f74418cbcb263bbcf92289cfa0int, 0, pallas_modulus());
    let e: nat = 4 * e + 0;
    assert(quad(0x24ad9f35ec7926be8efab6445980af0f1ed05a2c0d0b04ae648598aa43853eacint, -5, 0, pallas_modulus()) == 0xc62100ec53c30f9697a5985fcd743e53c8965b83f660f7f4e39c0f4b3dbe948int) by (nonlinear_arith);
    lemma_quad(-5, e, 0x24ad9f35ec7926be8efab6445980af0f1ed05a2c0d0b04ae648598aa43853eacint, 0, pallas_modulus());
    let e: nat = 4 * e + 0;
    assert(quad(0xc62100ec53c30f9697a5985fcd743e53c8965b83f660f7f4e39c0f4b3dbe948int, -5, 1, pallas_modulus()) == 0x2f061b89d7c78d224ef6943c278b1d9893bfe6f0dccf58a00e0479fcd29ddd0eint) by (nonlinear_arith);
    lemma_quad(-5, e, 0xc62100ec53c30f9697a5985fcd743e53c8965b83f660f7f4e39c0f4b3dbe948int, 1, pallas_modulus());
    let e: nat = 4 * e + 1;
    assert(quad(0x2f061b89d7c78d224ef6943c278b1d9893bfe6f0dccf58a00e0479fcd29ddd0eint, -5, 0, pallas_modulus()) == 0x114f9d22d1b34e4de34cbea6ca63cdc704ecb95f713761ea97af3052f0940ddint) by (nonlinear_arith);
    lemma_quad(-5, e, 0x2f061b89d7c78d224ef6943c278b1d9893bfe6f0dccf58a00e0479fcd29ddd0eint, 0, pallas_modulus());
    let e: nat = 4 * e + 0;
    assert(quad(0x114f9d22d1b34e4de34cbea6ca63cdc704ecb95f713761ea97af3052f0940ddint, -5, 3, pallas_modulus()) == 0x30ec3209314842bddc05994e93a1be4438567f61fd63171e9f6397c86df57b0fint) by (nonlinear_arith);
    lemma_quad(-5, e, 0x114f9d22d1b34e4de34cbea6ca63cdc704ecb95f713761ea97af3052f0940ddint, 3, pallas_modulus());
    let e: nat = 4 * e + 3;
    assert(quad(0x30ec3209314842bddc05994e93a1be4438567f61fd63171e9f6397c86df57b0fint, -5, 3, pallas_modulus()) == 0x290e8258b41d821f560b4983c541f4819b7148a5438aa63641fbd4df7f9353a2int) by (nonlinear_arith);
    lemma_quad(-5, e, 0x30ec3209314842bddc05994e93a1be4438567f61fd63171e9f6397c86df57b0fint, 3, pallas_modulus());
    let e: nat = 4 * e + 3;
    assert(quad(0x290e8258b41d821f560b4983c541f4819b7148a5438aa63641fbd4df7f9353a2int, -5, 0, pallas_modulus()) == 0x1a5f9aab4574679bfdf757c8c0f84be3f1d7b94a741b30aacd582cbf435aaf1int) by (nonlinear_arith);
    lemma_quad(-5, e, 0x290e8258b41d821f560b4983c541f4819b7148a5438aa63641fbd4df7f9353a2int, 0, pallas_modulus());
    let e: nat = 4 * e + 0;
    assert(quad(0x1a5f9aab4574679bfdf757c8c0f84be3f1d7b94a741b30aacd582cbf435aaf1int, -5, 0, pallas_modulus()) == 0x3d071da64dbfe3c0a1e5da2af7e2d2960d90b9fcda64f8942ff69eeb68690911int) by (nonlinear_arith);
    lemma_quad(-5, e, 0x1a5f9aab4574679bfdf757c8c0f84be3f1d7b94a741b30aacd582cbf435aaf1int, 0, pallas_modulus());
    let e: nat = 4 * e + 0;
    assert(quad(0x3d071da64dbfe3c0a1e5da2af7e2d2960d90b9fcda64f8942ff69eeb68690911int, -5, 0, pallas_modulus()) == 0x1756f2282948dd7b63b3dc2c423c29a8b66c988c967ca571a7927064d5d2a5acint) by (nonlinear_arith);
    lemma_quad(-5, e, 0x3d071da64dbfe3c0a1e5da2af7e2d2960d90b9fcda64f8942ff69eeb68690911int, 0, pallas_modulus());
    let e: nat = 4 * e + 0;
    assert(quad(0x1756f2282948dd7b63b3dc2c423c29a8b66c988c967ca571a7927064d5d2a5acint, -5, 0, pallas_modulus()) == 0x208329cdfd2ebd5e2121a08150e20db78676262c00fb1b28d45ad59df671249int) by (nonlinear_arith);
    lemma_quad(-5, e, 0x1756f2282948dd7b63b3dc2c423c29a8b66c988c967ca571a7927064d5d2a5acint, 0, pallas_modulus());
    let e: nat = 4 * e + 0;
    assert(quad(0x208329cdfd2ebd5e2121a08150e20db78676262c00fb1b28d45ad59df671249int, -5, 0, pallas_modulus()) == 0x370b7ca7ec5fbef15bc645bf26416f6261f20e82264314da665e2a8d9e4527f2int) by (nonlinear_arith);
    lemma_quad(-5, e, 0x208329cdfd2ebd5e2121a08150e20db78676262c00fb1b28d45ad59df671249int, 0, pallas_modulus());
    let e: nat = 4 * e + 0;
    assert(quad(0x370b7ca7ec5fbef15bc645bf26416f6261f20e82264314da665e2a8d9e4527f2int, -5, 0, pallas_modulus()) == 0x231fbf47286d07eb78c4e5259a5eed913cae8d6f00afcf2e16f503925db9f286int) by (nonlinear_arith);
    lemma_quad(-5, e, 0x370b7ca7ec5fbef15bc645bf26416f6261f20e82264314da665e2a8d9e4527f2int, 0, pallas_modulus());
    let e: nat = 4 * e + 0;
    assert(quad(0x231fbf47286d07eb78c4e5259a5eed913cae8d6f00afcf2e16f503925db9f286int, -5, 0, pallas_modulus()) == 0x1f9acd23ff9698b8640706dc5dcd52331d6b7ff5efe4984edd280994ce149d6cint) by (nonlinear_arith);
    lemma_quad(-5, e, 0x231fbf47286d07eb78c4e5259a5eed913cae8d6f00afcf2e16f503925db9f286int, 0, pallas_modulus());
    let e: nat = 4 * e + 0;
    assert(quad(0x1f9acd23ff9698b8640706dc5dcd52331d6b7ff5efe4984edd280994ce149d6cint, -5, 0, pallas_modulus()) == 0x16d7f4b95f6fed5f51e35047a37a2f106646a4598d5211d3eca48d59d40f382aint) by (nonlinear_arith);
    lemma_quad(-5, e, 0x1f9acd23ff9698b8640706dc5dcd52331d6b7ff5efe4984edd280994ce149d6cint, 0, pallas_modulus());
    let e: nat = 4 * e + 0;
    assert(quad(0x16d7f4b95f6fed5f51e35047a37a2f106646a4598d5211d3eca48d59d40f382aint, -5, 0, pallas_modulus()) == 0x3787091e197dc8343a266875441cd170d1e057bb5448be0ca54efea35a8a6eedint) by (nonlinear_arith);
    lemma_quad(-5, e, 0x16d7f4b95f6fed5f51e35047a37a2f106646a4598d5211d3eca48d59d40f382aint, 0, pallas_modulus());
    let e: nat = 4 * e + 0;
    assert(quad(0x3787091e197dc8343a266875441cd170d1e057bb5448be0ca54efea35a8a6eedint, -5, 0, pallas_modulus()) == 0x21404ac3f65a8cff2ade2678f71ccd3500fd973aca265565e2a1ad68882cbb02int) by (nonlinear_arith);
    lemma_quad(-5, e, 0x3787091e197dc8343a266875441cd170d1e057bb5448be0ca54efea35a8a6eedint, 0, pallas_modulus());
    let e: nat = 4 * e + 0;
    assert(quad(0x21404ac3f65a8cff2ade2678f71ccd3500fd973aca265565e2a1ad68882cbb02int, -5, 0, pallas_modulus()) == 0x2d25a7aa9b475efaf2e482ad43482d2c0acf32d4cc995791e47eaabd8227a373int) by (nonlinear_arith);
    lemma_quad(-5, e, 0x21404ac3f65a8cff2ade2678f71ccd3500fd973aca265565e2a1ad68882cbb02int, 0, pallas_modulus());
    let e: nat = 4 * e + 0;
    assert(quad(0x2d25a7aa9b475efaf2e482ad43482d2c0acf32d4cc995791e47eaabd8227a373int, -5, 0, pallas_modulus()) == 0x29061eb294e8cddd1a91ac1f8917e995ad27db45c7dc23c0d43f3b1dc7b3b7daint) by (nonlinear_arith);
    lemma_quad(-5, e, 0x2d25a7aa9b475efaf2e482ad43482d2c0acf32d4cc995791e47eaabd8227a373int, 0, pallas_modulus());
    let e: nat = 4 * e + 0;
    assert(quad(0x29061eb294e8cddd1a91ac1f8917e995ad27db45c7dc23c0d43f3b1dc7b3b7daint, -5, 0, pallas_modulus()) == 0x1041aa43707e9a53c933d0ed2e39a48d0bc9eb40886faea398d8ce5bf60ae89cint) by (nonlinear_arith);
    lemma_quad(-5, e, 0x29061eb294e8cddd1a91ac1f8917e995ad27db45c7dc23c0d43f3b1dc7b3b7daint, 0, pallas_modulus());
    let e: nat = 4 * e + 0;
    assert(quad(0x1041aa43707e9a53c933d0ed2e39a48d0bc9eb40886faea398d8ce5bf60ae89cint, -5, 0, pallas_modulus()) == 0x9adf478033f6a586fe7727349b24b36717c22c5398bce6c606cb361ccfdb0a9int) by (nonlinear_arith);
    lemma_quad(-5, e, 0x1041aa43707e9a53c933d0ed2e39a48d0bc9eb40886faea398d8ce5bf60ae89cint, 0, pallas_modulus());
    let e: nat = 4 * e + 0;
    assert(quad(0x9adf478033f6a586fe7727349b24b36717c22c5398bce6c606cb361ccfdb0a9int, -5, 0, pallas_modulus()) == 0x2da618a839b0a74deb157417f144bc0162ea5b2233cc322968c9c8614396a0eeint) by (nonlinear_arith);
    lemma_quad(-5, e, 0x9adf478033f6a586fe7727349b24b36717c22c5398bce6c606cb361ccfdb0a9int, 0, pallas_modulus());
    let e: nat = 4 * e + 0;
    assert(quad(0x2da618a839b0a74deb157417f144bc0162ea5b2233cc322968c9c8614396a0eeint, -5, 0, pallas_modulus()) == 0x2d33357cb532458ed3552a23a8554e5005270d29d19fc7d27b7fd22f0201b547int) by (nonlinear_arith);
    lemma_quad(-5, e, 0x2da618a839b0a74deb157417f144bc0162ea5b2233cc322968c9c8614396a0eeint, 0, pallas_modulus());
    let e: nat = 4 * e + 0;
    assert(e == 0x1555555555555555555555555555555560c232feadc45309330f104f00000000int);
}

/// All points of the Pallas curve have its order, and the endomorphism multiplies with a cube root
/// of one.
pub proof fn lemma_pallas_group()
    ensures
        is_group::<Pallas>(),
{
    lemma_pallas_points();
    lemma_pallas_chain_15();
    lemma_pallas_power();
    lemma_axis::<Pallas>(0x1555555555555555555555555555555560c232feadc45309330f104f00000000nat, 0x2d33357cb532458ed3552a23a8554e5005270d29d19fc7d27b7fd22f0201b547int);
    lemma_relation::<Pallas>(pallas_generator(), pallas_image(), 0x49e69d1640f049157fcae1c700000001nat, 0x49e69d1640a899538cb1279300000000nat);
    assert(0x49e69d1640f049157fcae1c700000001int * 0x49e69d1640f049157fcae1c700000001int + 0x49e69d1640f049157fcae1c700000001int * 0x49e69d1640a899538cb1279300000000int + 0x49e69d1640a899538cb1279300000000int * 0x49e69d1640a899538cb1279300000000int == 0x40000000000000000000000000000000224698fc0994a8dd8c46eb2100000001int) by (nonlinear_arith);
    assert((0x49e69d1640a899538cb1279300000000int * 0x6819a58283e528e511db4d81cf70f5a0fed467d47c033af2aa9d2e050aa0e4fint) % 0x40000000000000000000000000000000224698fc0994a8dd8c46eb2100000001int == 0x49e69d1640f049157fcae1c700000001int) by (nonlinear_arith);
    assert(0x49e69d1640f049157fcae1c700000001int % 0x40000000000000000000000000000000224698fc0994a8dd8c46eb2100000001int == 0x49e69d1640f049157fcae1c700000001int);
    lemma_group_from_relation::<Pallas>(0x40000000000000000000000000000000224698fc094cf91b992d30ed00000000int, 2, 0x49e69d1640f049157fcae1c700000001nat, 0x49e69d1640a899538cb1279300000000nat);
}

/// A generator of the Vesta curve.
pub open spec fn vesta_generator() -> Pt {
    Pt::At { x: 0x40000000000000000000000000000000224698fc0994a8dd8c46eb2100000000int, y: 2 }
}

/// The opposite of the image of the generator.
spec fn vesta_image() -> Pt {
    Pt::At { x: 0x397e65a7d7c1ad71aee24b27e308f0a61259527ec1d4752e619d1840af55f1b2int, y: 0x40000000000000000000000000000000224698fc0994a8dd8c46eb20ffffffffint }
}

proof fn lemma_vesta_points()
    ensures
        on_curve::<Vesta>(vesta_generator()),
        on_curve::<Vesta>(vesta_image()),
        minus::<Vesta>(vesta_image()) == endo::<Vesta>(vesta_generator()),
        plus::<Vesta>(vesta_generator(), vesta_image()) == (Pt::At {
            x: 0x13df7c2e5435603001bc2403621cb68faec7361ac33a6460df713e81a98a5aa5int,
            y: 0x2f728ab832a88b04e28f18459e07c268fc2376ef49b3d5baa6726f282fa904c4int,
        }),
        on_curve::<Vesta>(plus::<Vesta>(vesta_generator(), vesta_image())),
{
    assert((0x40000000000000000000000000000000224698fc0994a8dd8c46eb2100000000int * 0x6819a58283e528e511db4d81cf70f5a0fed467d47c033af2aa9d2e050aa0e4fint) % 0x40000000000000000000000000000000224698fc0994a8dd8c46eb2100000001int == 0x397e65a7d7c1ad71aee24b27e308f0a61259527ec1d4752e619d1840af55f1b2int) by (nonlinear_arith);
    assert((0x40000000000000000000000000000000224698fc0994a8dd8c46eb20ffffffffint * 0x40000000000000000000000000000000224698fc0994a8dd8c46eb20ffffffffint) % 0x40000000000000000000000000000000224698fc0994a8dd8c46eb2100000001int == 4int) by (nonlinear_arith);
    assert((0x397e65a7d7c1ad71aee24b27e308f0a61259527ec1d4752e619d1840af55f1b2int * 0x397e65a7d7c1ad71aee24b27e308f0a61259527ec1d4752e619d1840af55f1b2int * 0x397e65a7d7c1ad71aee24b27e308f0a61259527ec1d4752e619d1840af55f1b2int + 5) % 0x40000000000000000000000000000000224698fc0994a8dd8c46eb2100000001int == 4int) by (nonlinear_arith);
    assert((0x40000000000000000000000000000000224698fc0994a8dd8c46eb2100000000int * 0x40000000000000000000000000000000224698fc0994a8dd8c46eb2100000000int * 0x40000000000000000000000000000000224698fc0994a8dd8c46eb2100000000int + 5) % 0x40000000000000000000000000000000224698fc0994a8dd8c46eb2100000001int == 4int) by (nonlinear_arith);
    assert((2int * 2int) % 0x40000000000000000000000000000000224698fc0994a8dd8c46eb2100000001int == 4int);
    assert((-0x40000000000000000000000000000000224698fc0994a8dd8c46eb20ffffffffint) % 0x40000000000000000000000000000000224698fc0994a8dd8c46eb2100000001int == 2int);
    lemma_sum_at::<Vesta>(0x40000000000000000000000000000000224698fc0994a8dd8c46eb2100000000int, 2, 0x397e65a7d7c1ad71aee24b27e308f0a61259527ec1d4752e619d1840af55f1b2int, 0x40000000000000000000000000000000224698fc0994a8dd8c46eb20ffffffffint, 0x21fddcdfca5791ece92db98a840beb88019d5d565162d654cf4cd8eae9c7eceaint, 0x13df7c2e5435603001bc2403621cb68faec7361ac33a6460df713e81a98a5aa5int, 0x2f728ab832a88b04e28f18459e07c268fc2376ef49b3d5baa6726f282fa904c4int);
    lemma_closed::<Vesta>(vesta_generator(), vesta_image());
}

proof fn lemma_vesta_chain_0()
    ensures
        joint::<Vesta>(
            vesta_generator(),
            vesta_image(),
            0x127nat,
            0x127nat,
        ) == (Pt::At {
            x: 0x2db24525f0c68455bbbee38d55020ef3bade3fb8cddbce598b85b7f1ba4c5a14int,
            y: 0x10cab278dc4a05cfa7dd0bf76405605367e5c84be4309000d2e1148f4f2eda8bint,
        }),
        on_curve::<Vesta>(Pt::At {
            x: 0x2db24525f0c68455bbbee38d55020ef3bade3fb8cddbce598b85b7f1ba4c5a14int,
            y: 0x10cab278dc4a05cfa7dd0bf76405605367e5c84be4309000d2e1148f4f2eda8bint,
        }),
{
    let (g, q) = (vesta_generator(), vesta_image());
    lemma_vesta_points();
    lemma_start::<Vesta>(g, q);
    lemma_step::<Vesta>(g, q, 1nat, 1nat, 0, 0);
    lemma_double_at::<Vesta>(0x13df7c2e5435603001bc2403621cb68faec7361ac33a6460df713e81a98a5aa5int, 0x2f728ab832a88b04e28f18459e07c268fc2376ef49b3d5baa6726f282fa904c4int, 0x2d26a67a3f9beacc009a5db00151c8d13cef6ca94674eed1c3d34c60012b6752int, 0x8fd85a2a730c398e82549b767840a37d6a99333f99e39149059aabb0b3f7b71int, 0xe0e09bff47e7e3ffceac9bd3496bac8fbeee1b0ac59b48b1b339a48fe24e370int);
    lemma_step::<Vesta>(g, q, 2nat, 2nat, 0, 0);
    lemma_double_at::<Vesta>(0x8fd85a2a730c398e82549b767840a37d6a99333f99e39149059aabb0b3f7b71int, 0xe0e09bff47e7e3ffceac9bd3496bac8fbeee1b0ac59b48b1b339a48fe24e370int, 0x1bcb4f48d8614a34982e035342dd19c6a57221458f807d57200c4d399aace71cint, 0x15eb1892de6343d6f9d00cbcf2371659b32eecafe7d214667f40d3651eb79533int, 0x24a7445b0aa6b2ae0f3d969caee35bb85d87095f8043849c98d0ec4e4ca5c2fcint);
    lemma_step::<Vesta>(g, q, 4nat, 4nat, 1, 1);
    lemma_double_at::<Vesta>(0x15eb1892de6343d6f9d00cbcf2371659b32eecafe7d214667f40d3651eb79533int, 0x24a7445b0aa6b2ae0f3d969caee35bb85d87095f8043849c98d0ec4e4ca5c2fcint, 0x391d46247fc77b5101de7f14d7f7dc50ae1c26a04f03cef05b43fb81327e16e9int, 0x232366151ea69296f0105234f4eb2c3648d2b8fc94cb0a241b6dda1a8552da83int, 0x3a597ab9d8530c49bd97d8c1308aaea733ca05753ae0a221abe20af697c70de8int);
    lemma_sum_at::<Vesta>(0x232366151ea69296f0105234f4eb2c3648d2b8fc94cb0a241b6dda1a8552da83int, 0x3a597ab9d8530c49bd97d8c1308aaea733ca05753ae0a221abe20af697c70de8int, 0x13df7c2e5435603001bc2403621cb68faec7361ac33a6460df713e81a98a5aa5int, 0x2f728ab832a88b04e28f18459e07c268fc2376ef49b3d5baa6726f282fa904c4int, 0x37483f90a729f35f32cffe9aa8ee9a298b9c7d26bdd0796622152bc087305d56int, 0x2cd51f388c815337e442c07812e6c7201eca8b8de179c65946ff780415752de9int, 0x192b9c9336d0d2d393989af4ecc5709b992af6f21e094d2b113199eb2e469d9fint);
    lemma_step::<Vesta>(g, q, 9nat, 9nat, 0, 0);
    lemma_double_at::<Vesta>(0x2cd51f388c815337e442c07812e6c7201eca8b8de179c65946ff780415752de9int, 0x192b9c9336d0d2d393989af4ecc5709b992af6f21e094d2b113199eb2e469d9fint, 0x17bf98c20d87706d61dcae4492ccedbeb4ac1ed845b029bd200b5111c4f6df66int, 0x35d94613e0cd7439c1a11dd1c91f686cfe0c622c123e8c61f4e57d9e428716d4int, 0xe4bb5492e4dd4754c9c977c2252cedfb5ee8f46ffac5f2b3e8ffc691364dc90int);
    lemma_step::<Vesta>(g, q, 0x12nat, 0x12nat, 0, 0);
    lemma_double_at::<Vesta>(0x35d94613e0cd7439c1a11dd1c91f686cfe0c622c123e8c61f4e57d9e428716d4int, 0xe4bb5492e4dd4754c9c977c2252cedfb5ee8f46ffac5f2b3e8ffc691364dc90int, 0x216cb30f888f58eeda6a90c73482dcec75e7afd2cc2196ff6bdeda22af22c44bint, 0x3f36cc604778c765c77629d95eda7de2f06019e8a09fc5ffc9d52f6288ccd24aint, 0x8f8dbca7fc1e8cc9285e9ced98fee8667d5bc0d50de1f0006e006710524100int);
    lemma_step::<Vesta>(g, q, 0x24nat, 0x24nat, 1, 1);
    lemma_double_at::<Vesta>(0x3f36cc604778c765c77629d95eda7de2f06019e8a09fc5ffc9d52f6288ccd24aint, 0x8f8dbca7fc1e8cc9285e9ced98fee8667d5bc0d50de1f0006e006710524100int, 0x36c1fdbdb9d475e69ba2deda19671d1d5dd30977c9e3892345327c8eda881334int, 0x2ac5ea087764f8e0a87ad19e961e9ace835f5a43e4f5f66bb95898ac3c01f684int, 0x902dbfc7a20be4b34c4e208c5ef1331a6c47af8017694877e29a88238faddc1int);
    lemma_sum_at::<Vesta>(0x2ac5ea087764f8e0a87ad19e961e9ace835f5a43e4f5f66bb95898ac3c01f684int, 0x902dbfc7a20be4b34c4e208c5ef1331a6c47af8017694877e29a88238faddc1int, 0x13df7c2e5435603001bc2403621cb68faec7361ac33a6460df713e81a98a5aa5int, 0x2f728ab832a88b04e28f18459e07c268fc2376ef49b3d5baa6726f282fa904c4int, 0xb1a7a560846ff9280b26b59cedd71eb20ce00bcadb3896f71ee86121ba7df5bint, 0xa2f277a1ed42d8a844a1a5e648c179457377a1d43fa11f86d906472a49d0d6dint, 0x1d4497a11ef9959634b5c913b7f0189c2236757dfa25acc505c3aa52f54f39b8int);
    lemma_step::<Vesta>(g, q, 0x49nat, 0x49nat, 1, 1);
    lemma_double_at::<Vesta>(0xa2f277a1ed42d8a844a1a5e648c179457377a1d43fa11f86d906472a49d0d6dint, 0x1d4497a11ef9959634b5c913b7f0189c2236757dfa25acc505c3aa52f54f39b8int, 0x1b03ba53c0890128db26c45f2ace5a9a323f413ff436f19930c457a2f3665c05int, 0x29a4ac36038f8eb7764d8ee8f8fb4308a2b38485120dda7ee9df6090351cab32int, 0x17036e89292549f3794132375a524c91abf51216524991e2cb03213efcc0dac1int);
    lemma_sum_at::<Vesta>(0x29a4ac36038f8eb7764d8ee8f8fb4308a2b38485120dda7ee9df6090351cab32int, 0x17036e89292549f3794132375a524c91abf51216524991e2cb03213efcc0dac1int, 0x13df7c2e5435603001bc2403621cb68faec7361ac33a6460df713e81a98a5aa5int, 0x2f728ab832a88b04e28f18459e07c268fc2376ef49b3d5baa6726f282fa904c4int, 0x5c8806b2e18a206f8632fe22c6de1cd418fa311b40c6e3851813ee1d45129e5int, 0x24fa77ec9af72d6cf57502028fb616bd9b78f5cbe04d7e82947931243ca09fc4int, 0xfa5fb0f5db798ba742f9cf80b468b0b367d369365485a07755120c6dc277d5cint);
    lemma_step::<Vesta>(g, q, 0x93nat, 0x93nat, 1, 1);
    lemma_double_at::<Vesta>(0x24fa77ec9af72d6cf57502028fb616bd9b78f5cbe04d7e82947931243ca09fc4int, 0xfa5fb0f5db798ba742f9cf80b468b0b367d369365485a07755120c6dc277d5cint, 0x1bd6f591ae957100b26374b7a7d6de676eb9705bdffc39021c2b30278b2d5a34int, 0x3a5259fc3dc253fa335e5b409e53e2c20fa2fa83ec9e170ab76f35b0f937d527int, 0x354e8d2709114e9833f1a8d34a28a735054bc5555daeaf58c071dc3ccb319f5cint);
    lemma_sum_at::<Vesta>(0x3a5259fc3dc253fa335e5b409e53e2c20fa2fa83ec9e170ab76f35b0f937d527int, 0x354e8d2709114e9833f1a8d34a28a735054bc5555daeaf58c071dc3ccb319f5cint, 0x13df7c2e5435603001bc2403621cb68faec7361ac33a6460df713e81a98a5aa5int, 0x2f728ab832a88b04e28f18459e07c268fc2376ef49b3d5baa6726f282fa904c4int, 0x3be39c255cb342897520b750e7f426ede53acecc63259f7a1aaeb9aacd363c92int, 0x2db24525f0c68455bbbee38d55020ef3bade3fb8cddbce598b85b7f1ba4c5a14int, 0x10cab278dc4a05cfa7dd0bf76405605367e5c84be4309000d2e1148f4f2eda8bint);
}

proof fn lemma_vesta_chain_1()
    ensures
        joint::<Vesta>(
            vesta_generator(),
            vesta_image(),
            0x1279anat,
            0x1279anat,
        ) == (Pt::At {
            x: 0x222300ba7af16a2724f6e4486729cff04f550cedbb8db67a0b9370df901858cfint,
            y: 0xd4ee6de7fc6f01e8370deba8b91da6f3b8e5f2c78d468ecddb2443b32b6c912int,
        }),
        on_curve::<Vesta>(Pt::At {
            x: 0x222300ba7af16a2724f6e4486729cff04f550cedbb8db67a0b9370df901858cfint,
            y: 0xd4ee6de7fc6f01e8370deba8b91da6f3b8e5f2c78d468ecddb2443b32b6c912int,
        }),
{
    let (g, q) = (vesta_generator(), vesta_image());
    lemma_vesta_points();
    lemma_vesta_chain_0();
    lemma_step::<Vesta>(g, q, 0x127nat, 0x127nat, 1, 1);
    lemma_double_at::<Vesta>(0x2db24525f0c68455bbbee38d55020ef3bade3fb8cddbce598b85b7f1ba4c5a14int, 0x10cab278dc4a05cfa7dd0bf76405605367e5c84be4309000d2e1148f4f2eda8bint, 0x933f8870621d18df5c849f8c7fa04cc04a7668f376be0810098bbd8d47c4a2fint, 0x118df164cfecc7b4d0f11c300e9096124673fb55ea1e0cd3ebbcac982bd1f5faint, 0x143cc2536d96fb996fa2b81e08cfa97bec8ca09b3a140f91e698b73f2c769473int);
    lemma_sum_at::<Vesta>(0x118df164cfecc7b4d0f11c300e9096124673fb55ea1e0cd3ebbcac982bd1f5faint, 0x143cc2536d96fb996fa2b81e08cfa97bec8ca09b3a140f91e698b73f2c769473int, 0x13df7c2e5435603001bc2403621cb68faec7361ac33a6460df713e81a98a5aa5int, 0x2f728ab832a88b04e28f18459e07c268fc2376ef49b3d5baa6726f282fa904c4int, 0xfc7722da8bcfa4db817de34c7e67cef77d811fffbfb77e1b7fbfc8f57b13f3int, 0x25c514b6ad78bfb917c8fbcfb50c5d611c839da3f1d3052049212d8b20b0fdb0int, 0x4854e45c036acd386c3a89b7f3b7108f52e80b376f3492ae424aa6ccf0d4b30int);
    lemma_step::<Vesta>(g, q, 0x24fnat, 0x24fnat, 0, 0);
    lemma_double_at::<Vesta>(0x25c514b6ad78bfb917c8fbcfb50c5d611c839da3f1d3052049212d8b20b0fdb0int, 0x4854e45c036acd386c3a89b7f3b7108f52e80b376f3492ae424aa6ccf0d4b30int, 0x12b766210a8a74b433e7e86765ba4a2078a7946ed8571b7d4cb396e81a67e4c1int, 0xe420faf84d4a866e8b1934b2797581f76d356ff8d1ca9bb51d8dc6619084b48int, 0x51d2af9a16ddc645390c6ac94be011c2297b8f60cc6b18b9da839cf1205c0ecint);
    lemma_step::<Vesta>(g, q, 0x49enat, 0x49enat, 0, 0);
    lemma_double_at::<Vesta>(0xe420faf84d4a866e8b1934b2797581f76d356ff8d1ca9bb51d8dc6619084b48int, 0x51d2af9a16ddc645390c6ac94be011c2297b8f60cc6b18b9da839cf1205c0ecint, 0x3af7e4eb35650bd7fe2050e9cb99d33a72ea372ce9183ae2560af033818257f3int, 0x1eb243f01c49ccedafdb9cb652b3330ace5547e50d1b7865c58e7665c33839dbint, 0x2d8b9ea7f32292c04143a9c78d0bfdf2a08e25ac8ba2a371c1754cb9e47b2675int);
    lemma_step::<Vesta>(g, q, 0x93cnat, 0x93cnat, 1, 1);
    lemma_double_at::<Vesta>(0x1eb243f01c49ccedafdb9cb652b3330ace5547e50d1b7865c58e7665c33839dbint, 0x2d8b9ea7f32292c04143a9c78d0bfdf2a08e25ac8ba2a371c1754cb9e47b2675int, 0x193b54c4f3d3e47888be38996014de755b36c1e3840a712c2ae987e31986ba3eint, 0xf825f5aae17b36d7440e3656df88b2e158847e8f151e33c666a3ffa21bfd5b9int, 0x2e6d6be399770e65c22fc48fde0663551325468cac81bdf2a669839d872fb362int);
    lemma_sum_at::<Vesta>(0xf825f5aae17b36d7440e3656df88b2e158847e8f151e33c666a3ffa21bfd5b9int, 0x2e6d6be399770e65c22fc48fde0663551325468cac81bdf2a669839d872fb362int, 0x13df7c2e5435603001bc2403621cb68faec7361ac33a6460df713e81a98a5aa5int, 0x2f728ab832a88b04e28f18459e07c268fc2376ef49b3d5baa6726f282fa904c4int, 0x14d28d892375159dfe615b455cfd64b6572469bb0e3a5f3763b9e4003e344655int, 0x55c99f0b468430d4308e58bdbc2b06e3db689afa63d0f4d6664db5100ae74cdint, 0x25732c4a8794b3cf34528fdd1edf2befcb1d8d85bed2f3f8762bbeaccb76238int);
    lemma_step::<Vesta>(g, q, 0x1279nat, 0x1279nat, 1, 1);
    lemma_double_at::<Vesta>(0x55c99f0b468430d4308e58bdbc2b06e3db689afa63d0f4d6664db5100ae74cdint, 0x25732c4a8794b3cf34528fdd1edf2befcb1d8d85bed2f3f8762bbeaccb76238int, 0x2696eaf10002b340ddf306367cdb4bd8b5abf6a3455684ee4b8840a919bf9327int, 0x37fd004036471af91a9b505f3a98447ee0096214de57e705a498e2495ca679ecint, 0x739fcf04bf95cd2bd0472dbc448063cb3a4511984b67ac0e885ecfc9530d4a7int);
    lemma_sum_at::<Vesta>(0x37fd004036471af91a9b505f3a98447ee0096214de57e705a498e2495ca679ecint, 0x739fcf04bf95cd2bd0472dbc448063cb3a4511984b67ac0e885ecfc9530d4a7int, 0x13df7c2e5435603001bc2403621cb68faec7361ac33a6460df713e81a98a5aa5int, 0x2f728ab832a88b04e28f18459e07c268fc2376ef49b3d5baa6726f282fa904c4int, 0x3724481b3c4c261c978789bfcb3950cd7a696e23862addd8c67038ae237d47f5int, 0x13dd671df0bc1e78b60ebd9f59463586c32011a3d1bdc39a14d2968c28f1ac65int, 0x3e7b6dffef77e5c99925889f7bb770c6b912e2ae87fbe30c43b337395270a1ebint);
    lemma_step::<Vesta>(g, q, 0x24f3nat, 0x24f3nat, 0, 0);
    lemma_double_at::<Vesta>(0x13dd671df0bc1e78b60ebd9f59463586c32011a3d1bdc39a14d2968c28f1ac65int, 0x3e7b6dffef77e5c99925889f7bb770c6b912e2ae87fbe30c43b337395270a1ebint, 0x2d1d59b50d94efa7626942f9d28cb2db01290cab932357ff7a1b024d9dda4fd2int, 0x11f48fc9d8c781e0f39ce0421a21a6477d64f0ebaf3253a6efb8f3d88b732688int, 0x21bd510314ba3a19376c4b30e324b118bc5a24c6159afe8d0c41cf53712103c8int);
    lemma_step::<Vesta>(g, q, 0x49e6nat, 0x49e6nat, 1, 1);
    lemma_double_at::<Vesta>(0x11f48fc9d8c781e0f39ce0421a21a6477d64f0ebaf3253a6efb8f3d88b732688int, 0x21bd510314ba3a19376c4b30e324b118bc5a24c6159afe8d0c41cf53712103c8int, 0x32d9e3ac4e4992edfe3b27143b901304cdd92010884b6e9e96e8eb0aca8a6b2cint, 0x4e32fa0743c983e7215e1456f1472f44e31223567a26f37bb962033f747b14eint, 0x1e6511ec6cc5d418c4d01424257ed078595d6fdf22be224791a94c7953d4ad3aint);
    lemma_sum_at::<Vesta>(0x4e32fa0743c983e7215e1456f1472f44e31223567a26f37bb962033f747b14eint, 0x1e6511ec6cc5d418c4d01424257ed078595d6fdf22be224791a94c7953d4ad3aint, 0x13df7c2e5435603001bc2403621cb68faec7361ac33a6460df713e81a98a5aa5int, 0x2f728ab832a88b04e28f18459e07c268fc2376ef49b3d5baa6726f282fa904c4int, 0x26be9cac3bcb199d76766778ba2a7be0a438a65d515e1fbe8218e493fb8e390cint, 0xa8fd76d935f9fa358180785eadcfcafb20e10597892f981611a2c3ce1ead7c6int, 0x23560afcda68a76c8a963dd95b4efdc02755fd0ee1ef1bb91dd881a6cdc4e8e8int);
    lemma_step::<Vesta>(g, q, 0x93cdnat, 0x93cdnat, 0, 0);
    lemma_double_at::<Vesta>(0xa8fd76d935f9fa358180785eadcfcafb20e10597892f981611a2c3ce1ead7c6int, 0x23560afcda68a76c8a963dd95b4efdc02755fd0ee1ef1bb91dd881a6cdc4e8e8int, 0x3f517adf9000cebe310c013413c0663e200a66325c8881d58777c0a49e7e20b7int, 0x222300ba7af16a2724f6e4486729cff04f550cedbb8db67a0b9370df901858cfint, 0xd4ee6de7fc6f01e8370deba8b91da6f3b8e5f2c78d468ecddb2443b32b6c912int);
}

proof fn lemma_vesta_chain_2()
    ensures
        joint::<Vesta>(
            vesta_generator(),
            vesta_image(),
            0x1279a74nat,
            0x1279a74nat,
        ) == (Pt::At {
            x: 0x48627f382845df98984059392e6646ce45b266597bd2effa5a7e9feeb2b0011int,
            y: 0x5248737a949f063419c96c5b881a2bafd078e070f805080b6cdad4779560a54int,
        }),
        on_curve::<Vesta>(Pt::At {
            x: 0x48627f382845df98984059392e6646ce45b266597bd2effa5a7e9feeb2b0011int,
            y: 0x5248737a949f063419c96c5b881a2bafd078e070f805080b6cdad4779560a54int,
        }),
{
    let (g, q) = (vesta_generator(), vesta_image());
    lemma_vesta_points();
    lemma_vesta_chain_1();
    lemma_step::<Vesta>(g, q, 0x1279anat, 0x1279anat, 0, 0);
    lemma_double_at::<Vesta>(0x222300ba7af16a2724f6e4486729cff04f550cedbb8db67a0b9370df901858cfint, 0xd4ee6de7fc6f01e8370deba8b91da6f3b8e5f2c78d468ecddb2443b32b6c912int, 0x256e1af1614c7f3a13ee4e7974c924de8483bdaadd7af4a757d8e0967c84a94bint, 0x4b1af46237fec67f39cb86676650e2566022ab3699e715348cfe7b2204685aeint, 0x223f4d6ff89d24ecbd1e62a3e2e2570b73d7390e38c1442ec5744469b25e5ed0int);
    lemma_step::<Vesta>(g, q, 0x24f34nat, 0x24f34nat, 1, 1);
    lemma_double_at::<Vesta>(0x4b1af46237fec67f39cb86676650e2566022ab3699e715348cfe7b2204685aeint, 0x223f4d6ff89d24ecbd1e62a3e2e2570b73d7390e38c1442ec5744469b25e5ed0int, 0x135861d32415b6c008fcf5adb87d35116c83c2eeb7fd9fa871436d8492f5316int, 0x76aedff50ba0aa7b7f5ac372068f06b7a3c221ff9d510e30ddc515ef682bb4int, 0x2ce93d22052b6ddd377bb7260e0d85fdf6df6d8c9ba5cbb28e73040b13b23c77int);
    lemma_sum_at::<Vesta>(0x76aedff50ba0aa7b7f5ac372068f06b7a3c221ff9d510e30ddc515ef682bb4int, 0x2ce93d22052b6ddd377bb7260e0d85fdf6df6d8c9ba5cbb28e73040b13b23c77int, 0x13df7c2e5435603001bc2403621cb68faec7361ac33a6460df713e81a98a5aa5int, 0x2f728ab832a88b04e28f18459e07c268fc2376ef49b3d5baa6726f282fa904c4int, 0x112b7d690769740a3eb0e11c686076dd69f101e211e89ae0a4ae2fe47d3ed020int, 0x25d77499e62904ab5aac404a5424e29cab27a1cc2dcf530ec40938b7e9e28697int, 0x2217561e4fc14540c894987cad2a19444f00019f659ef39540ab4e0c31e282d9int);
    lemma_step::<Vesta>(g, q, 0x49e69nat, 0x49e69nat, 1, 1);
    lemma_double_at::<Vesta>(0x25d77499e62904ab5aac404a5424e29cab27a1cc2dcf530ec40938b7e9e28697int, 0x2217561e4fc14540c894987cad2a19444f00019f659ef39540ab4e0c31e282d9int, 0x273c4a7101be81ae2730d6280609ef42052d422d8cc3376b75e43f7c5808ad2int, 0x33df8040974a256717987615dd4c9f54845bc0dbc0437772d85467be56713f15int, 0x16a05eebbb00f3fe6c658aff76a48b93ac9130c21a634e3b4c790308a0aa7ba6int);
    lemma_sum_at::<Vesta>(0x33df8040974a256717987615dd4c9f54845bc0dbc0437772d85467be56713f15int, 0x16a05eebbb00f3fe6c658aff76a48b93ac9130c21a634e3b4c790308a0aa7ba6int, 0x13df7c2e5435603001bc2403621cb68faec7361ac33a6460df713e81a98a5aa5int, 0x2f728ab832a88b04e28f18459e07c268fc2376ef49b3d5baa6726f282fa904c4int, 0x79b6633ff8d18d67947312e7598fe34dfeeb7139d958915cf1021c720c5110int, 0x319dc232175b4f2ccd17ac5770fdde22f6370e70ce4c5cfee8f6c15926424797int, 0x1ce6b69fec7a151a6e4a8d66b54cc440f470f91fe1250b90429fc6ba8e4f733aint);
    lemma_step::<Vesta>(g, q, 0x93cd3nat, 0x93cd3nat, 1, 1);
    lemma_double_at::<Vesta>(0x319dc232175b4f2ccd17ac5770fdde22f6370e70ce4c5cfee8f6c15926424797int, 0x1ce6b69fec7a151a6e4a8d66b54cc440f470f91fe1250b90429fc6ba8e4f733aint, 0xa6369d925154fdaa77795c13659b7e087e03eea65e60e89f11ce8139383071fint, 0x233450920843eda32bb41951da56da3abd73dd5817d4a5c24b4306dafd16f1dbint, 0x26cfd30dbd3d54c4d507b930d578e93b8f4b0d5ed0c6e684d451df11adb19a47int);
    lemma_sum_at::<Vesta>(0x233450920843eda32bb41951da56da3abd73dd5817d4a5c24b4306dafd16f1dbint, 0x26cfd30dbd3d54c4d507b930d578e93b8f4b0d5ed0c6e684d451df11adb19a47int, 0x13df7c2e5435603001bc2403621cb68faec7361ac33a6460df713e81a98a5aa5int, 0x2f728ab832a88b04e28f18459e07c268fc2376ef49b3d5baa6726f282fa904c4int, 0x22493a2ee9f402e14e08b24d0a57a17d8a5ae5579b84e9347f940d9ce0778336int, 0x308a8ed83d886532d7655b703cd9fd499252788c5d6b763336738c5ea20c734eint, 0x2841d6a1cd1a9ce197c4d0ff5035d61075b3e511693360a27c052e666eaf3e81int);
    lemma_step::<Vesta>(g, q, 0x1279a7nat, 0x1279a7nat, 0, 0);
    lemma_double_at::<Vesta>(0x308a8ed83d886532d7655b703cd9fd499252788c5d6b763336738c5ea20c734eint, 0x2841d6a1cd1a9ce197c4d0ff5035d61075b3e511693360a27c052e666eaf3e81int, 0xfdb632bf0dbb43b604314b0a4faefa3be10f90f5de4f8a38b9ca7025505acf0int, 0x2de6f93bf8d8ee9a084229ea30b1e4dd5e1aac795a6bf69efbe69e4ff10870e5int, 0x112803eaa51e6f51bc101c412cad7b49bb30ac880f3c8ed47fc3bf706a01db5fint);
    lemma_step::<Vesta>(g, q, 0x24f34enat, 0x24f34enat, 1, 1);
    lemma_double_at::<Vesta>(0x2de6f93bf8d8ee9a084229ea30b1e4dd5e1aac795a6bf69efbe69e4ff10870e5int, 0x112803eaa51e6f51bc101c412cad7b49bb30ac880f3c8ed47fc3bf706a01db5fint, 0xd1f874585d614b2dd032d8c6009d90f383990f82c22ab60b5c88d41865a520dint, 0x138c0b74405aa1854ae7f9bb8a9353ea09019a1d29e3afed135c9092b6b7d432int, 0x29a3a51b4068a94c1a81cac656b490997782c520e1127a1689064c91a6818f49int);
    lemma_sum_at::<Vesta>(0x138c0b74405aa1854ae7f9bb8a9353ea09019a1d29e3afed135c9092b6b7d432int, 0x29a3a51b4068a94c1a81cac656b490997782c520e1127a1689064c91a6818f49int, 0x13df7c2e5435603001bc2403621cb68faec7361ac33a6460df713e81a98a5aa5int, 0x2f728ab832a88b04e28f18459e07c268fc2376ef49b3d5baa6726f282fa904c4int, 0x2a6fb937b79132d9586f592551e9e38e9ad8c823ebfb2a984e9011757c9e627cint, 0xe925a2df2d3591e758fa7e69672f8d47f4c365db30afb61a537bb9df3800695int, 0x160ec7ca64139250447b0b7cc01a4fc1a62b97d245b470cb35dfb13c9c856f66int);
    lemma_step::<Vesta>(g, q, 0x49e69dnat, 0x49e69dnat, 0, 0);
    lemma_double_at::<Vesta>(0xe925a2df2d3591e758fa7e69672f8d47f4c365db30afb61a537bb9df3800695int, 0x160ec7ca64139250447b0b7cc01a4fc1a62b97d245b470cb35dfb13c9c856f66int, 0xad540c672f71d4fd83f50955b439edc19728c3254a15d4569815c00c026f5c4int, 0x178e14557d6cdeb25735e2a631cbec894f2b9666d1b50860922ef6728b1265ffint, 0x8c000920b9c1c1a555f951c1fa6ce0295cc2eb8602ef6b6cff18fea072fc670int);
    lemma_step::<Vesta>(g, q, 0x93cd3anat, 0x93cd3anat, 0, 0);
    lemma_double_at::<Vesta>(0x178e14557d6cdeb25735e2a631cbec894f2b9666d1b50860922ef6728b1265ffint, 0x8c000920b9c1c1a555f951c1fa6ce0295cc2eb8602ef6b6cff18fea072fc670int, 0x3a48ec20d4adb46b483a348b31b4e69afae81020ae40654de05106aed10eaecdint, 0x48627f382845df98984059392e6646ce45b266597bd2effa5a7e9feeb2b0011int, 0x5248737a949f063419c96c5b881a2bafd078e070f805080b6cdad4779560a54int);
}

proof fn lemma_vesta_chain_3()
    ensures
        joint::<Vesta>(
            vesta_generator(),
            vesta_image(),
            0x1279a7459nat,
            0x1279a7459nat,
        ) == (Pt::At {
            x: 0x193df763b6c5e3919e5f7f36c1a9ff6ceb0b981ea03d0f536416215ea4e9d897int,
            y: 0x2199758b5f459f55ecfccfa9aeba4e4b81f1953eccb55874632e2523c27c550eint,
        }),
        on_curve::<Vesta>(Pt::At {
            x: 0x193df763b6c5e3919e5f7f36c1a9ff6ceb0b981ea03d0f536416215ea4e9d897int,
            y: 0x2199758b5f459f55ecfccfa9aeba4e4b81f1953eccb55874632e2523c27c550eint,
        }),
{
    let (g, q) = (vesta_generator(), vesta_image());
    lemma_vesta_points();
    lemma_vesta_chain_2();
    lemma_step::<Vesta>(g, q, 0x1279a74nat, 0x1279a74nat, 0, 0);
    lemma_double_at::<Vesta>(0x48627f382845df98984059392e6646ce45b266597bd2effa5a7e9feeb2b0011int, 0x5248737a949f063419c96c5b881a2bafd078e070f805080b6cdad4779560a54int, 0x373ef7a056f27d6ef518597d651e61d71079360f3b0cddb48cc81ec2ad720ff7int, 0x3716f8ec7e9c5e4f291a7d3a8e962b2f857d1e6e21c7dc8aa334afe276a404f9int, 0x2cfd19ec9a1576bdb64220f9d702c70cc19191486ef8f6262c57bc557d6f02beint);
    lemma_step::<Vesta>(g, q, 0x24f34e8nat, 0x24f34e8nat, 1, 1);
    lemma_double_at::<Vesta>(0x3716f8ec7e9c5e4f291a7d3a8e962b2f857d1e6e21c7dc8aa334afe276a404f9int, 0x2cfd19ec9a1576bdb64220f9d702c70cc19191486ef8f6262c57bc557d6f02beint, 0x1bb78f13dd7b7094207d5fa9344331e45c522d3a5527cddb57392d88bb9ce865int, 0x27d7bad42b483621de5e3a4169a8dbf5c1ead8c9919073b82b42722711ea39d2int, 0x252f9077a0b460e69ce81a2dcb8a75a3fbaa65ede16a605eae665389b2b34664int);
    lemma_sum_at::<Vesta>(0x27d7bad42b483621de5e3a4169a8dbf5c1ead8c9919073b82b42722711ea39d2int, 0x252f9077a0b460e69ce81a2dcb8a75a3fbaa65ede16a605eae665389b2b34664int, 0x13df7c2e5435603001bc2403621cb68faec7361ac33a6460df713e81a98a5aa5int, 0x2f728ab832a88b04e28f18459e07c268fc2376ef49b3d5baa6726f282fa904c4int, 0x3902d5553b5cdfd64a30376290db8704273349a962936a290a36c5ce8a9bd9a9int, 0x339ceac87b50be881265e229ec3d0cbaf2bcc5a779c6519359ee95945ba7ef85int, 0x212a91139a86f912b36304d8ba7b67cc97c0f542e5c9a3c94a15289cb95369cdint);
    lemma_step::<Vesta>(g, q, 0x49e69d1nat, 0x49e69d1nat, 0, 0);
    lemma_double_at::<Vesta>(0x339ceac87b50be881265e229ec3d0cbaf2bcc5a779c6519359ee95945ba7ef85int, 0x212a91139a86f912b36304d8ba7b67cc97c0f542e5c9a3c94a15289cb95369cdint, 0x2b55a1476d09cb2e1eab301360e813931c132894f54177a4afc7f00b6fe484e9int, 0x830a479adb6b88af279a4b7213440abb160ff916c628152baaee5fec0a0a06dint, 0xd5d20991d4ac6a6e677e9b9d7b88a947947880e175a63b8bb54caca2400be53int);
    lemma_step::<Vesta>(g, q, 0x93cd3a2nat, 0x93cd3a2nat, 1, 1);
    lemma_double_at::<Vesta>(0x830a479adb6b88af279a4b7213440abb160ff916c628152baaee5fec0a0a06dint, 0xd5d20991d4ac6a6e677e9b9d7b88a947947880e175a63b8bb54caca2400be53int, 0x35a11789a5e1454d104540611b0df433c0c80f7022f957815029ed86ce53ab10int, 0x3da518d41515b8eee91d3b66d67d7c00d3aadc926661e1a7e6e341d18afef4d3int, 0x62c98e59e12145b1eda1d8108f515bbd2b62a88abc4506e4d8332218ef95bc1int);
    lemma_sum_at::<Vesta>(0x3da518d41515b8eee91d3b66d67d7c00d3aadc926661e1a7e6e341d18afef4d3int, 0x62c98e59e12145b1eda1d8108f515bbd2b62a88abc4506e4d8332218ef95bc1int, 0x13df7c2e5435603001bc2403621cb68faec7361ac33a6460df713e81a98a5aa5int, 0x2f728ab832a88b04e28f18459e07c268fc2376ef49b3d5baa6726f282fa904c4int, 0x1ccd70621892d3471695e116e6f31083ff8a7e3678bdfa32bff0b655866aec07int, 0x832ad3ff2c39d4e49b8ef2cad6bd07ddf89b61954ce1e72d3cb6b4dfaba27f5int, 0x34b2da9157f9ccde7fb126b5230ffad2ce14e8348f7651e043ed155fb3ac281bint);
    lemma_step::<Vesta>(g, q, 0x1279a745nat, 0x1279a745nat, 1, 1);
    lemma_double_at::<Vesta>(0x832ad3ff2c39d4e49b8ef2cad6bd07ddf89b61954ce1e72d3cb6b4dfaba27f5int, 0x34b2da9157f9ccde7fb126b5230ffad2ce14e8348f7651e043ed155fb3ac281bint, 0x12d07cac94f68a27d96dd0800f76ce0adc218000ca0ea4983a630e337a03971eint, 0x1f0e1687dbb13302c909e0f4fc22d25815242bdf607bb8df50e8a55fe226c32cint, 0x1553c3fc432d70f8d0ef062c28fbd63f3fd2f5c62a634ad5c657be21eaf87bbcint);
    lemma_sum_at::<Vesta>(0x1f0e1687dbb13302c909e0f4fc22d25815242bdf607bb8df50e8a55fe226c32cint, 0x1553c3fc432d70f8d0ef062c28fbd63f3fd2f5c62a634ad5c657be21eaf87bbcint, 0x13df7c2e5435603001bc2403621cb68faec7361ac33a6460df713e81a98a5aa5int, 0x2f728ab832a88b04e28f18459e07c268fc2376ef49b3d5baa6726f282fa904c4int, 0x29b5ad3f3281c40de016a278e2e212a41139975f2646c4a253876fc6a2218ed8int, 0x13ef11d6a1112038efb4024ec954e5c8e5ed05f7449165842e12cabd1c8a3d52int, 0x37710ea0d13f2537aae8cb3cfd66803b3c259efd4ab2f78e1b3c28d3dd9217a9int);
    lemma_step::<Vesta>(g, q, 0x24f34e8bnat, 0x24f34e8bnat, 0, 0);
    lemma_double_at::<Vesta>(0x13ef11d6a1112038efb4024ec954e5c8e5ed05f7449165842e12cabd1c8a3d52int, 0x37710ea0d13f2537aae8cb3cfd66803b3c259efd4ab2f78e1b3c28d3dd9217a9int, 0x3b05ad449f5a996a4c9e980d0103b4679ce57ba1fe9609654a295fbb982badb9int, 0xc2e959a7742d281f24327b8e118ffbf955100e47e63e0f98deb0d66e9a4a4c8int, 0x375fbb2606d346e4bcbb44a4560b0f38f42b65d81a77d982adda6e0cff507f43int);
    lemma_step::<Vesta>(g, q, 0x49e69d16nat, 0x49e69d16nat, 0, 0);
    lemma_double_at::<Vesta>(0xc2e959a7742d281f24327b8e118ffbf955100e47e63e0f98deb0d66e9a4a4c8int, 0x375fbb2606d346e4bcbb44a4560b0f38f42b65d81a77d982adda6e0cff507f43int, 0x81ddb04661f5ecf49c82ca2c61e382c3abb0c6b953086236e08bcca68977eccint, 0x294a72e69dd8a4b41c6a5701a211dad2c2fb82019b0e9a02d7715640be2ce178int, 0x72b0e4bdeb783ae0d521bbf3f6509535f8b7ee121f85a6c539c860d8c88b54dint);
    lemma_step::<Vesta>(g, q, 0x93cd3a2cnat, 0x93cd3a2cnat, 1, 1);
    lemma_double_at::<Vesta>(0x294a72e69dd8a4b41c6a5701a211dad2c2fb82019b0e9a02d7715640be2ce178int, 0x72b0e4bdeb783ae0d521bbf3f6509535f8b7ee121f85a6c539c860d8c88b54dint, 0x339e7235998186f2a14665452307794466bd71a2aaf98b129b7a4b80b1380cfint, 0x275ba567e4d5bddbb52eb8df0c1c214cc94889fa6849536b2cc025226b035int, 0x38fdac2243bcd9f854cd4ca34e7a71e879e7f9465903fda1d6ff5f0aa9cb91aaint);
    lemma_sum_at::<Vesta>(0x275ba567e4d5bddbb52eb8df0c1c214cc94889fa6849536b2cc025226b035int, 0x38fdac2243bcd9f854cd4ca34e7a71e879e7f9465903fda1d6ff5f0aa9cb91aaint, 0x13df7c2e5435603001bc2403621cb68faec7361ac33a6460df713e81a98a5aa5int, 0x2f728ab832a88b04e28f18459e07c268fc2376ef49b3d5baa6726f282fa904c4int, 0x2d1321e20b2afbae4fccbeb4b02b42b360b3236ee9761dd132eee6d60f2920cdint, 0x193df763b6c5e3919e5f7f36c1a9ff6ceb0b981ea03d0f536416215ea4e9d897int, 0x2199758b5f459f55ecfccfa9aeba4e4b81f1953eccb55874632e2523c27c550eint);
}

proof fn lemma_vesta_chain_4()
    ensures
        joint::<Vesta>(
            vesta_generator(),
            vesta_image(),
            0x1279a745903nat,
            0x1279a745902nat,
        ) == (Pt::At {
            x: 0x759c5a09373e8cff98b4d941ce2a30ba91e2aaa7d3e37b816d246c3b0568f52int,
            y: 0x6510816c0d64ef68e2068404f012a9362dae642c069010ba092e61f85012747int,
        }),
        on_curve::<Vesta>(Pt::At {
            x: 0x759c5a09373e8cff98b4d941ce2a30ba91e2aaa7d3e37b816d246c3b0568f52int,
            y: 0x6510816c0d64ef68e2068404f012a9362dae642c069010ba092e61f85012747int,
        }),
{
    let (g, q) = (vesta_generator(), vesta_image());
    lemma_vesta_points();
    lemma_vesta_chain_3();
    lemma_step::<Vesta>(g, q, 0x1279a7459nat, 0x1279a7459nat, 0, 0);
    lemma_double_at::<Vesta>(0x193df763b6c5e3919e5f7f36c1a9ff6ceb0b981ea03d0f536416215ea4e9d897int, 0x2199758b5f459f55ecfccfa9aeba4e4b81f1953eccb55874632e2523c27c550eint, 0x3215c95eca7aadb04d249596e7ae3f2ea7a9d4bbce00b27905ccf8025ca6fe3dint, 0x2e4db4834de3c0754d41f0a70a0eb51ad9ae444a955fac1e812097da71a13068int, 0x3164a64138f95c8967654f6e75c45e8083dd50f2d979da500a9f5036f858e905int);
    lemma_step::<Vesta>(g, q, 0x24f34e8b2nat, 0x24f34e8b2nat, 0, 0);
    lemma_double_at::<Vesta>(0x2e4db4834de3c0754d41f0a70a0eb51ad9ae444a955fac1e812097da71a13068int, 0x3164a64138f95c8967654f6e75c45e8083dd50f2d979da500a9f5036f858e905int, 0x22e467773791cb6f4d75e149cc4be2e0fadf88b5300302ab54a8293f0ec07897int, 0x360cde268ba221dbb49d49e4bbbfb1f00e0b0e66ca74457b943f1a2090e899bbint, 0x1a6ee8677f1ae2f156d25fb29b6fbc58bbd9803780307093b07b09f8a71f8d60int);
    lemma_step::<Vesta>(g, q, 0x49e69d164nat, 0x49e69d164nat, 0, 0);
    lemma_double_at::<Vesta>(0x360cde268ba221dbb49d49e4bbbfb1f00e0b0e66ca74457b943f1a2090e899bbint, 0x1a6ee8677f1ae2f156d25fb29b6fbc58bbd9803780307093b07b09f8a71f8d60int, 0x1af7135870cb42058e31bebd0964a29138cc19089b7baa60f625dbce18f9ec73int, 0x33f559dc9147526bc8ae105717b28654729cd4e3701ed5c2ba6e2f4ade9c31f4int, 0x1f0b791a2edfac1028f15a17d41588e0dcb33678da6e14afedcc1dd146140169int);
    lemma_step::<Vesta>(g, q, 0x93cd3a2c8nat, 0x93cd3a2c8nat, 0, 0);
    lemma_double_at::<Vesta>(0x33f559dc9147526bc8ae105717b28654729cd4e3701ed5c2ba6e2f4ade9c31f4int, 0x1f0b791a2edfac1028f15a17d41588e0dcb33678da6e14afedcc1dd146140169int, 0x16a983835d7381f30b533ed8efd9c7a7ca39343ff03a7f54fac085c450ccace0int, 0x24fb8b6fc2591be900847fb0fbcd9c83f887ec5219f232666f429064366418b4int, 0x3398bff59965b38f9e81065312b9b45d89a029be063e9c85ea2db64c8b0d7b03int);
    lemma_step::<Vesta>(g, q, 0x1279a74590nat, 0x1279a74590nat, 0, 0);
    lemma_double_at::<Vesta>(0x24fb8b6fc2591be900847fb0fbcd9c83f887ec5219f232666f429064366418b4int, 0x3398bff59965b38f9e81065312b9b45d89a029be063e9c85ea2db64c8b0d7b03int, 0x2b26481e75dce8d49f2e885bdc207330fa02caa448e9bdc9ad2c35d81639f5f7int, 0x21eb095108690869311ee445ceb290a49d6d31eb2f264b9393520d0f8dc544b1int, 0x1fab03ff872d7c5d8daf60fcbb355496ca7fcf60d11cd1e15c4dd1f93014c334int);
    lemma_step::<Vesta>(g, q, 0x24f34e8b20nat, 0x24f34e8b20nat, 0, 0);
    lemma_double_at::<Vesta>(0x21eb095108690869311ee445ceb290a49d6d31eb2f264b9393520d0f8dc544b1int, 0x1fab03ff872d7c5d8daf60fcbb355496ca7fcf60d11cd1e15c4dd1f93014c334int, 0x16f325970960958acbd6efe0b0e211ab451c7e45ca32c06fb2225c295952d5c9int, 0x183e182eeacdf060acd4b3f119c6d3028934d48c0117ded1e7288d146b49890fint, 0x1121cf4c10141b812d633e59f98a4df6334169ca4e65ac1ddb4b1e967eaf198fint);
    lemma_step::<Vesta>(g, q, 0x49e69d1640nat, 0x49e69d1640nat, 1, 1);
    lemma_double_at::<Vesta>(0x183e182eeacdf060acd4b3f119c6d3028934d48c0117ded1e7288d146b49890fint, 0x1121cf4c10141b812d633e59f98a4df6334169ca4e65ac1ddb4b1e967eaf198fint, 0x8330fd9a99f2ef42a2def4bb37eca4b23a4e08a7de6959694504af300e20461int, 0x1037f6abddbac24feb221fe09e804d0917344255363430f66541e74cfc60f198int, 0x15b1a5cfcab2b33621169b8dc7ff2eb6c8383c8f77b4ca1cdc470a66630f2741int);
    lemma_sum_at::<Vesta>(0x1037f6abddbac24feb221fe09e804d0917344255363430f66541e74cfc60f198int, 0x15b1a5cfcab2b33621169b8dc7ff2eb6c8383c8f77b4ca1cdc470a66630f2741int, 0x13df7c2e5435603001bc2403621cb68faec7361ac33a6460df713e81a98a5aa5int, 0x2f728ab832a88b04e28f18459e07c268fc2376ef49b3d5baa6726f282fa904c4int, 0x2dee79573b77007d39754ff920f3af3b350cff87656d523ede27d73deb11cb33int, 0x7f032b55eabb31314e23f03e1059a026c0b2a901fe401e2511ce8f49627b864int, 0x3c9bf590686b895221d94b6880950d3937c980a6b67201732b8b9738b55e5a0fint);
    lemma_step::<Vesta>(g, q, 0x93cd3a2c81nat, 0x93cd3a2c81nat, 1, 0);
    lemma_double_at::<Vesta>(0x7f032b55eabb31314e23f03e1059a026c0b2a901fe401e2511ce8f49627b864int, 0x3c9bf590686b895221d94b6880950d3937c980a6b67201732b8b9738b55e5a0fint, 0x14de19189adbe0c2689e8890d37a63b6d3f265cc4abaa2d9103e4aefa2e4c9a7int, 0x31eec77106508462bf6cbcc67c0990b886269cbb1bd4353511181a762f8703f0int, 0x2eaeb8c601bd0a263ad7429bf8d1ac46d3fe305c55b90c4b9cbc2e553eb7a2b8int);
    lemma_sum_at::<Vesta>(0x31eec77106508462bf6cbcc67c0990b886269cbb1bd4353511181a762f8703f0int, 0x2eaeb8c601bd0a263ad7429bf8d1ac46d3fe305c55b90c4b9cbc2e553eb7a2b8int, 0x40000000000000000000000000000000224698fc0994a8dd8c46eb2100000000int, 2int, 0x7b7af0d80e692d61562b5690a2a88f98e0f8e085ec30fa7f256722f993337e5int, 0x759c5a09373e8cff98b4d941ce2a30ba91e2aaa7d3e37b816d246c3b0568f52int, 0x6510816c0d64ef68e2068404f012a9362dae642c069010ba092e61f85012747int);
}

proof fn lemma_vesta_chain_5()
    ensures
        joint::<Vesta>(
            vesta_generator(),
            vesta_image(),
            0x1279a745903c1nat,
            0x1279a745902a2nat,
        ) == (Pt::At {
            x: 0x148f0b208f9b6bf2945f60947a7d8a90fc40d20627987284b6a9a67af2830944int,
            y: 0xdcc9233c8ab4b70ad84125168388ca5005399012959f077d8cea0094e6b6f6aint,
        }),
        on_curve::<Vesta>(Pt::At {
            x: 0x148f0b208f9b6bf2945f60947a7d8a90fc40d20627987284b6a9a67af2830944int,
            y: 0xdcc9233c8ab4b70ad84125168388ca5005399012959f077d8cea0094e6b6f6aint,
        }),
{
    let (g, q) = (vesta_generator(), vesta_image());
    lemma_vesta_points();
    lemma_vesta_chain_4();
    lemma_step::<Vesta>(g, q, 0x1279a745903nat, 0x1279a745902nat, 1, 1);
    lemma_double_at::<Vesta>(0x759c5a09373e8cff98b4d941ce2a30ba91e2aaa7d3e37b816d246c3b0568f52int, 0x6510816c0d64ef68e2068404f012a9362dae642c069010ba092e61f85012747int, 0x38cd3ba13965dac0aeebec5c692e7c59766754ead3db69d28ee339b997082c9eint, 0x3ed785542b6278e9b99249cc2c3beebb1fcceca44325532ca3fb5d95f0538018int, 0x1a673311a5886fc94e2fbbefada993c09d184d885d5975d6c4278efac0b4fd49int);
    lemma_sum_at::<Vesta>(0x3ed785542b6278e9b99249cc2c3beebb1fcceca44325532ca3fb5d95f0538018int, 0x1a673311a5886fc94e2fbbefada993c09d184d885d5975d6c4278efac0b4fd49int, 0x13df7c2e5435603001bc2403621cb68faec7361ac33a6460df713e81a98a5aa5int, 0x2f728ab832a88b04e28f18459e07c268fc2376ef49b3d5baa6726f282fa904c4int, 0x15aae1df36ef688fc73a86eff4e8af8493ae5e9507f59c62504cfbb7e6211ea0int, 0x3b9bb950fa718278c93174225b7ae8ae39581a3dd55ffbb14e1702d6a9838b89int, 0x25534b405ad3dc2614e6b1b1be6fbf9b83226248322942c2b3080e6baa65a853int);
    lemma_step::<Vesta>(g, q, 0x24f34e8b207nat, 0x24f34e8b205nat, 1, 0);
    lemma_double_at::<Vesta>(0x3b9bb950fa718278c93174225b7ae8ae39581a3dd55ffbb14e1702d6a9838b89int, 0x25534b405ad3dc2614e6b1b1be6fbf9b83226248322942c2b3080e6baa65a853int, 0x3865fb7bb0bbcf771490a4bdf01a740ec4a515bb968b55038ac8113517ea2dc2int, 0x3c8e6201c9864a7a0acb5d0ae00a9254408e9459ccc7bcb363b3e23ba2d8f776int, 0x3aba8df7703b5f1f825f52fe28632b7c59a2071f935535824e2bf0fd072e1712int);
    lemma_sum_at::<Vesta>(0x3c8e6201c9864a7a0acb5d0ae00a9254408e9459ccc7bcb363b3e23ba2d8f776int, 0x3aba8df7703b5f1f825f52fe28632b7c59a2071f935535824e2bf0fd072e1712int, 0x40000000000000000000000000000000224698fc0994a8dd8c46eb2100000000int, 2int, 0x3f5a61366b5f1c2f1fc1efc7700b3bf086b2120c775cb889a1b1128f6b5a361fint, 0xb9b9639156844b0a195174f52519309e4f198fd2419b78832c8e23a2c36c1b7int, 0x164cfa5431521f07e130db724626977a57a545a71999ad182bb84743bb6fb56aint);
    lemma_step::<Vesta>(g, q, 0x49e69d1640fnat, 0x49e69d1640anat, 0, 1);
    lemma_double_at::<Vesta>(0xb9b9639156844b0a195174f52519309e4f198fd2419b78832c8e23a2c36c1b7int, 0x164cfa5431521f07e130db724626977a57a545a71999ad182bb84743bb6fb56aint, 0x1f3da0271904eae6eaba7122c8bae4d4b2609f735d74bb7fca35a0ed3d3f187cint, 0x30bc42f92f0589471d26bd87cfb48a3cda1dad4a459b905c558c876b3e397a1bint, 0x2dd235df09e9f9fee033d07c283454be2085465442b6212c4911f436435a8bf7int);
    lemma_sum_at::<Vesta>(0x30bc42f92f0589471d26bd87cfb48a3cda1dad4a459b905c558c876b3e397a1bint, 0x2dd235df09e9f9fee033d07c283454be2085465442b6212c4911f436435a8bf7int, 0x397e65a7d7c1ad71aee24b27e308f0a61259527ec1d4752e619d1840af55f1b2int, 0x40000000000000000000000000000000224698fc0994a8dd8c46eb20ffffffffint, 0x2a400ade65f63fa98c7080f94196af3ab5efddf539dc5585187f21f0da1cef6cint, 0x203bbbc86c93ab4de9a6a3c6cf3745138f13b175ae0281f2158fc74681a9134aint, 0x182a6c40c1b7dab3b5c259a3d7c3f3d054c6603dafd082ac1ac3daad75090a2dint);
    lemma_step::<Vesta>(g, q, 0x93cd3a2c81enat, 0x93cd3a2c815nat, 0, 0);
    lemma_double_at::<Vesta>(0x203bbbc86c93ab4de9a6a3c6cf3745138f13b175ae0281f2158fc74681a9134aint, 0x182a6c40c1b7dab3b5c259a3d7c3f3d054c6603dafd082ac1ac3daad75090a2dint, 0x948b29aff72fa9afde0f6149c1fbda59d76fd1a2fd6a4510d4c85db4e088852int, 0x2fe6a3e0fcd5b1fbbd817eb233557554c994e0a6cfcb364cdc12c405d8ab083eint, 0x3b87abe9241831366b8f77c4d8fc56b0846fa9e8a05646789545782cf8d37349int);
    lemma_step::<Vesta>(g, q, 0x1279a745903cnat, 0x1279a745902anat, 0, 0);
    lemma_double_at::<Vesta>(0x2fe6a3e0fcd5b1fbbd817eb233557554c994e0a6cfcb364cdc12c405d8ab083eint, 0x3b87abe9241831366b8f77c4d8fc56b0846fa9e8a05646789545782cf8d37349int, 0x3575089ec50406af8fa346320cf27ae199ab07493f990d2c1054f9737080107aint, 0x343c2a0d7d906706e601ba373ae24dc34b6367bfb23af5beb926883cb720dfa8int, 0x209f50f356e1a70c00b77d5cfcfa45c97393926a57fdd5eef6d4a70622a8064bint);
    lemma_step::<Vesta>(g, q, 0x24f34e8b2078nat, 0x24f34e8b2054nat, 0, 0);
    lemma_double_at::<Vesta>(0x343c2a0d7d906706e601ba373ae24dc34b6367bfb23af5beb926883cb720dfa8int, 0x209f50f356e1a70c00b77d5cfcfa45c97393926a57fdd5eef6d4a70622a8064bint, 0x3d4f5b295db4936b8614e462b26a82843d879808034b552d1b5381cd389bd296int, 0x20bc66e7291e51d5368293ac3f3f8d35109eca7a81ba2dad3b33e0fe89db043dint, 0x513adeb2cc8e533c8884a8732231f203943badf10fdea1840716661c7b1985bint);
    lemma_step::<Vesta>(g, q, 0x49e69d1640f0nat, 0x49e69d1640a8nat, 0, 1);
    lemma_double_at::<Vesta>(0x20bc66e7291e51d5368293ac3f3f8d35109eca7a81ba2dad3b33e0fe89db043dint, 0x513adeb2cc8e533c8884a8732231f203943badf10fdea1840716661c7b1985bint, 0x24817e7ddb1814f8aeea6ff3705b9656a1409bc8dbcd46e7176c531252debbdaint, 0x175f8ecee011a034faeed3c69fdf6c27a0fdfabe93bca0e7dafb966892364ce3int, 0x536e97a3cbacb75ab5e4e4b67a26f66d908f2b232b5713cbe22db49fe58ff26int);
    lemma_sum_at::<Vesta>(0x175f8ecee011a034faeed3c69fdf6c27a0fdfabe93bca0e7dafb966892364ce3int, 0x536e97a3cbacb75ab5e4e4b67a26f66d908f2b232b5713cbe22db49fe58ff26int, 0x397e65a7d7c1ad71aee24b27e308f0a61259527ec1d4752e619d1840af55f1b2int, 0x40000000000000000000000000000000224698fc0994a8dd8c46eb20ffffffffint, 0x31063a588bc751ff93232bc3d5af36eb51ebf87795c49a95f582c1af2500bb92int, 0xf8deccfeb0dc7bc37c4715e3700971252e0274b50fd4a7269a22cf2862d605bint, 0x284185f7005cd11932500015031e114d882395f1465f2a6d4cd6466c417ff612int);
    lemma_step::<Vesta>(g, q, 0x93cd3a2c81e0nat, 0x93cd3a2c8151nat, 1, 0);
    lemma_double_at::<Vesta>(0xf8deccfeb0dc7bc37c4715e3700971252e0274b50fd4a7269a22cf2862d605bint, 0x284185f7005cd11932500015031e114d882395f1465f2a6d4cd6466c417ff612int, 0xcae8e3b9280f6831a80346dd40fdc7a6cdbf3bae7c3bb0959151c42d326c4dcint, 0x162259ef9e7c819379fe321fdbaaadf4cb8beeb49f50a6bf7a6b505a5a2486b1int, 0x33e5e246f66d9ed973bab98d1060ea5b2cd1244f3b72951fb44b2f5d71463a75int);
    lemma_sum_at::<Vesta>(0x162259ef9e7c819379fe321fdbaaadf4cb8beeb49f50a6bf7a6b505a5a2486b1int, 0x33e5e246f66d9ed973bab98d1060ea5b2cd1244f3b72951fb44b2f5d71463a75int, 0x40000000000000000000000000000000224698fc0994a8dd8c46eb2100000000int, 2int, 0x1245821b6a4b1c3f27f34535d3a1fbe6a007c7a88106a45168ce4f176ef22863int, 0x148f0b208f9b6bf2945f60947a7d8a90fc40d20627987284b6a9a67af2830944int, 0xdcc9233c8ab4b70ad84125168388ca5005399012959f077d8cea0094e6b6f6aint);
}

proof fn lemma_vesta_chain_6()
    ensures
        joint::<Vesta>(
            vesta_generator(),
            vesta_image(),
            0x1279a745903c124nat,
            0x1279a745902a265nat,
        ) == (Pt::At {
            x: 0x3e20ac2342a1b235e933a93604cecbd1a01625725c20bab53a607ee5830a69aeint,
            y: 0x8fd08248e85b0644be5342d6395bc12329ea5738ff22e18595601e529c486a7int,
        }),
        on_curve::<Vesta>(Pt::At {
            x: 0x3e20ac2342a1b235e933a93604cecbd1a01625725c20bab53a607ee5830a69aeint,
            y: 0x8fd08248e85b0644be5342d6395bc12329ea5738ff22e18595601e529c486a7int,
        }),
{
    let (g, q) = (vesta_generator(), vesta_image());
    lemma_vesta_points();
    lemma_vesta_chain_5();
    lemma_step::<Vesta>(g, q, 0x1279a745903c1nat, 0x1279a745902a2nat, 0, 0);
    lemma_double_at::<Vesta>(0x148f0b208f9b6bf2945f60947a7d8a90fc40d20627987284b6a9a67af2830944int, 0xdcc9233c8ab4b70ad84125168388ca5005399012959f077d8cea0094e6b6f6aint, 0x2b487692da3a4b637aaa115261651cec18896e7af416cce8d2cf7847e0eca85bint, 0x2f0f50dd64e186dcdf2679568736e2f7cc98bc5bfed3708dafb681401023e8dfint, 0x2adacf3cbd6ac88af584406688b84a1abf73c1d9b32ae35db4e02cc4a3773b85int);
    lemma_step::<Vesta>(g, q, 0x24f34e8b20782nat, 0x24f34e8b20544nat, 0, 1);
    lemma_double_at::<Vesta>(0x2f0f50dd64e186dcdf2679568736e2f7cc98bc5bfed3708dafb681401023e8dfint, 0x2adacf3cbd6ac88af584406688b84a1abf73c1d9b32ae35db4e02cc4a3773b85int, 0x1f00415385193937ccbc6dc48ac7956a57383b2b149e3b2ca03b3234cf01b1d6int, 0x2578a27301afd4d18e646d1f3985d8a9d9819888a7b978377c531d49aa05163int, 0x225d4d14cff10a8054fcc57324a1996d36ae68b0de9e5c96df68cbd2f98bb154int);
    lemma_sum_at::<Vesta>(0x2578a27301afd4d18e646d1f3985d8a9d9819888a7b978377c531d49aa05163int, 0x225d4d14cff10a8054fcc57324a1996d36ae68b0de9e5c96df68cbd2f98bb154int, 0x397e65a7d7c1ad71aee24b27e308f0a61259527ec1d4752e619d1840af55f1b2int, 0x40000000000000000000000000000000224698fc0994a8dd8c46eb20ffffffffint, 0x7ebbb07536bbccc96f7781407f68b4b7f6f553471d58e3697efc51bc0b47c0aint, 0x18699decb0c96d9582275824bd7dec831c10de78974047c33ab691212b65d124int, 0x351c383acfd65f997d09867977b4fdebe4fe962f7d37230cc74e22a89e78c118int);
    lemma_step::<Vesta>(g, q, 0x49e69d1640f04nat, 0x49e69d1640a89nat, 1, 1);
    lemma_double_at::<Vesta>(0x18699decb0c96d9582275824bd7dec831c10de78974047c33ab691212b65d124int, 0x351c383acfd65f997d09867977b4fdebe4fe962f7d37230cc74e22a89e78c118int, 0x3d78e15713922682d5b19cef41c88a9eeacac41ad33cb9c925494ec61f80dadeint, 0x3f2bead7d3e7f1972317ff86f9a7830a348c050cb1d2b8536d4fa8815860d60fint, 0x3879505d07b7bcf82e7de1d69cfe2e0d8809327d811a8b6b0935634d3fb36c38int);
    lemma_sum_at::<Vesta>(0x3f2bead7d3e7f1972317ff86f9a7830a348c050cb1d2b8536d4fa8815860d60fint, 0x3879505d07b7bcf82e7de1d69cfe2e0d8809327d811a8b6b0935634d3fb36c38int, 0x13df7c2e5435603001bc2403621cb68faec7361ac33a6460df713e81a98a5aa5int, 0x2f728ab832a88b04e28f18459e07c268fc2376ef49b3d5baa6726f282fa904c4int, 0xa0969b9c03a873571ee9ac25b285ffd0a568f4de82bf7aabc077debfeb5d3ecint, 0xe92d96a0a885c593c6a6be4f28c7b44a0c34d22657796bfa111f20af577c0a6int, 0x25d7db0241c87348717660670bbb875ff508bc1b4d2ef6e8cb4eb39f18221bf7int);
    lemma_step::<Vesta>(g, q, 0x93cd3a2c81e09nat, 0x93cd3a2c81513nat, 0, 0);
    lemma_double_at::<Vesta>(0xe92d96a0a885c593c6a6be4f28c7b44a0c34d22657796bfa111f20af577c0a6int, 0x25d7db0241c87348717660670bbb875ff508bc1b4d2ef6e8cb4eb39f18221bf7int, 0x2e799f080d500a514d654bac01a40716d1f8b1004797b84a87a5269b081d55f8int, 0x3adbc3ab2bdfc6f20944b49e09aae3efdfe8b8e35459eb38983f93aed31dc690int, 0x220ccb2bbf1171cf2d5e6a45b23e8b56d13b3b8966ff305129815119eb629bd5int);
    lemma_step::<Vesta>(g, q, 0x1279a745903c12nat, 0x1279a745902a26nat, 0, 0);
    lemma_double_at::<Vesta>(0x3adbc3ab2bdfc6f20944b49e09aae3efdfe8b8e35459eb38983f93aed31dc690int, 0x220ccb2bbf1171cf2d5e6a45b23e8b56d13b3b8966ff305129815119eb629bd5int, 0x90cc63079494971fdac84dee51d8d6cb51db7c1fbd701a83cd830aee9467bccint, 0x2b0ef0e99909a70a46f585f35f80da92fbcc37d30585468c557f6f3dc5649334int, 0x2366a26de6e1fb5c7c5d6a3716733aee30361f160c9ec3a1d46b79e5d47669c9int);
    lemma_step::<Vesta>(g, q, 0x24f34e8b207824nat, 0x24f34e8b20544cnat, 1, 1);
    lemma_double_at::<Vesta>(0x2b0ef0e99909a70a46f585f35f80da92fbcc37d30585468c557f6f3dc5649334int, 0x2366a26de6e1fb5c7c5d6a3716733aee30361f160c9ec3a1d46b79e5d47669c9int, 0x2efe36e4879bd641aa2d823a3de6c9954f4c6954fc75570cbc46d254c8546ccint, 0x242fa960785df7349776ab338d4293b890a32279e78f909dcc439a8bdc27fbabint, 0x256b1f850b5b844bee01bb915ce1c0de9a4319d13d2ad2b319d5b9c90079c9f5int);
    lemma_sum_at::<Vesta>(0x242fa960785df7349776ab338d4293b890a32279e78f909dcc439a8bdc27fbabint, 0x256b1f850b5b844bee01bb915ce1c0de9a4319d13d2ad2b319d5b9c90079c9f5int, 0x13df7c2e5435603001bc2403621cb68faec7361ac33a6460df713e81a98a5aa5int, 0x2f728ab832a88b04e28f18459e07c268fc2376ef49b3d5baa6726f282fa904c4int, 0x17488c876a425869c0b836568c8d13eec8acf4fe2c489ec33e98f16b3ea306b5int, 0xf6f67e968eca09ba9ddc01756af0449464929845e23179b61032a30b53c7192int, 0x23c7e8f23d10783f31dae29c28b7983f2b44b170582a443dae28b400b655ac11int);
    lemma_step::<Vesta>(g, q, 0x49e69d1640f049nat, 0x49e69d1640a899nat, 0, 0);
    lemma_double_at::<Vesta>(0xf6f67e968eca09ba9ddc01756af0449464929845e23179b61032a30b53c7192int, 0x23c7e8f23d10783f31dae29c28b7983f2b44b170582a443dae28b400b655ac11int, 0x212a787dc81facb6e9770ac945625f319292acd3fbce484a81a6f649333076b8int, 0xac79eaea3130a0f5f7bbf8cb966daebe48473a242b4c7e57c04a240b5ab4565int, 0x1bc3462d63fed5a004e5716e7d279ae2bf83c96f3a071c3274ce8445952080eeint);
    lemma_step::<Vesta>(g, q, 0x93cd3a2c81e092nat, 0x93cd3a2c815132nat, 0, 1);
    lemma_double_at::<Vesta>(0xac79eaea3130a0f5f7bbf8cb966daebe48473a242b4c7e57c04a240b5ab4565int, 0x1bc3462d63fed5a004e5716e7d279ae2bf83c96f3a071c3274ce8445952080eeint, 0x3440d026f01f6b5097e704d6239531a5cc3e5bbffbe35c091d0bf41154fb96deint, 0xadd915995afa0898a4ee7d8456a524ff64167acde1fce73fb8c8f90caddefc8int, 0x1f75fa5d1ee76360df248cd022ed3eb48b6c8ce6c016d4000586540723844deaint);
    lemma_sum_at::<Vesta>(0xadd915995afa0898a4ee7d8456a524ff64167acde1fce73fb8c8f90caddefc8int, 0x1f75fa5d1ee76360df248cd022ed3eb48b6c8ce6c016d4000586540723844deaint, 0x397e65a7d7c1ad71aee24b27e308f0a61259527ec1d4752e619d1840af55f1b2int, 0x40000000000000000000000000000000224698fc0994a8dd8c46eb20ffffffffint, 0x103786b917044421abc31415fc3a562ea1bab58ade2ef2a5934a88faf010d686int, 0x3e20ac2342a1b235e933a93604cecbd1a01625725c20bab53a607ee5830a69aeint, 0x8fd08248e85b0644be5342d6395bc12329ea5738ff22e18595601e529c486a7int);
}

proof fn lemma_vesta_chain_7()
    ensures
        joint::<Vesta>(
            vesta_generator(),
            vesta_image(),
            0x1279a745903c12455nat,
            0x1279a745902a2654enat,
        ) == (Pt::At {
            x: 0xb096f52fac54e55c92e309c0c395b28a18d76fa91fcd48ac7f2dfbd3b15f538int,
            y: 0x3d578c700642a2120be269d5cdaf85f96965f274938c4ec56670e58f2f0249ceint,
        }),
        on_curve::<Vesta>(Pt::At {
            x: 0xb096f52fac54e55c92e309c0c395b28a18d76fa91fcd48ac7f2dfbd3b15f538int,
            y: 0x3d578c700642a2120be269d5cdaf85f96965f274938c4ec56670e58f2f0249ceint,
        }),
{
    let (g, q) = (vesta_generator(), vesta_image());
    lemma_vesta_points();
    lemma_vesta_chain_6();
    lemma_step::<Vesta>(g, q, 0x1279a745903c124nat, 0x1279a745902a265nat, 0, 0);
    lemma_double_at::<Vesta>(0x3e20ac2342a1b235e933a93604cecbd1a01625725c20bab53a607ee5830a69aeint, 0x8fd08248e85b0644be5342d6395bc12329ea5738ff22e18595601e529c486a7int, 0x3284b520a622674390f2af78d72072b80adb282ddd96d5c9312d381d90400382int, 0x15de11cdd0fc4d79dd91685437a60e85cfd8dba3cdbedb318eaf26a10b2c895dint, 0x2256ef1dcd43d3dfb671cf01a31d8889c1309622ee901f7f2a90974831f59608int);
    lemma_step::<Vesta>(g, q, 0x24f34e8b2078248nat, 0x24f34e8b20544canat, 1, 1);
    lemma_double_at::<Vesta>(0x15de11cdd0fc4d79dd91685437a60e85cfd8dba3cdbedb318eaf26a10b2c895dint, 0x2256ef1dcd43d3dfb671cf01a31d8889c1309622ee901f7f2a90974831f59608int, 0x8653c75b65e39098aaff85cbf9be7db2fb30aafa4c853225cd6d25d587ea4afint, 0x3b80e3300d391547eb5828bebe97d9d227337b371753ad11b1000264fa21df69int, 0x20d837b8629365c10d95b05684456cf176e3284331ec93dde26439384602620fint);
    lemma_sum_at::<Vesta>(0x3b80e3300d391547eb5828bebe97d9d227337b371753ad11b1000264fa21df69int, 0x20d837b8629365c10d95b05684456cf176e3284331ec93dde26439384602620fint, 0x13df7c2e5435603001bc2403621cb68faec7361ac33a6460df713e81a98a5aa5int, 0x2f728ab832a88b04e28f18459e07c268fc2376ef49b3d5baa6726f282fa904c4int, 0x6a574d6f5db262264cfaa23c44a98abca2f4a6e4a241b5b14a2253ac98114bcint, 0x2ae25c10eec6aa9d0d8cd3be3f0b96aa6d85218e3f30140c0ec50ee4544c912cint, 0x2b5fe4e8deb35f246a4781427680df1d67c3540c32068094602bc7a34ff6db90int);
    lemma_step::<Vesta>(g, q, 0x49e69d1640f0491nat, 0x49e69d1640a8995nat, 0, 0);
    lemma_double_at::<Vesta>(0x2ae25c10eec6aa9d0d8cd3be3f0b96aa6d85218e3f30140c0ec50ee4544c912cint, 0x2b5fe4e8deb35f246a4781427680df1d67c3540c32068094602bc7a34ff6db90int, 0x179117fb38dd34370d122de34936759933c95e0053c6edb49c2cba35a20c991aint, 0x250fb0ca2ad42583dd9e0bb18b5115525501513157727a2473cf34a0e504d77cint, 0x1c4e3f5ca2f0573178a047f57b66b91116ac50c0bcf942e73eaef0f1ef38020int);
    lemma_step::<Vesta>(g, q, 0x93cd3a2c81e0922nat, 0x93cd3a2c815132anat, 1, 0);
    lemma_double_at::<Vesta>(0x250fb0ca2ad42583dd9e0bb18b5115525501513157727a2473cf34a0e504d77cint, 0x1c4e3f5ca2f0573178a047f57b66b91116ac50c0bcf942e73eaef0f1ef38020int, 0x2c533389c15068c9fe405b06f035a57cc5f097e52711099669a47770487585feint, 0x18809000c96e2175c9a822e623b490322b9dcdc654b05f850d14669293056472int, 0x24cf0b79299c63c201fa3aeb58a4861596f88e0549bedb959d4319b04a523db9int);
    lemma_sum_at::<Vesta>(0x18809000c96e2175c9a822e623b490322b9dcdc654b05f850d14669293056472int, 0x24cf0b79299c63c201fa3aeb58a4861596f88e0549bedb959d4319b04a523db9int, 0x40000000000000000000000000000000224698fc0994a8dd8c46eb2100000000int, 2int, 0x2e9a70a89717ad3477588c95ee76938dcca10906e0afbce652daf662a6667c40int, 0x15ff009ae190afbc7b2eccefadff825721a769e96c2455307d59664320769672int, 0x28f1d4e7199bf13cf135bcdd0320add159bb516b208670ba06200d43ebd2e43bint);
    lemma_step::<Vesta>(g, q, 0x1279a745903c1245nat, 0x1279a745902a2654nat, 0, 1);
    lemma_double_at::<Vesta>(0x15ff009ae190afbc7b2eccefadff825721a769e96c2455307d59664320769672int, 0x28f1d4e7199bf13cf135bcdd0320add159bb516b208670ba06200d43ebd2e43bint, 0x18a847381ea764c23b22841129e455e0bb34b708443ed890ea31bec07292d306int, 0xe0f84265740277b6f21fa79ebaa950c5833f29f587fb99a7cc59664abb2b27bint, 0x120a7fff03062bda402a7c7ef12abf5ef809563be35907a8a9749c0dec2d22ddint);
    lemma_sum_at::<Vesta>(0xe0f84265740277b6f21fa79ebaa950c5833f29f587fb99a7cc59664abb2b27bint, 0x120a7fff03062bda402a7c7ef12abf5ef809563be35907a8a9749c0dec2d22ddint, 0x397e65a7d7c1ad71aee24b27e308f0a61259527ec1d4752e619d1840af55f1b2int, 0x40000000000000000000000000000000224698fc0994a8dd8c46eb20ffffffffint, 0x3b7b71e9c423d629772f39e1b0a6982e1117d00070806795232d39176692f3b7int, 0x1ccd0eea9c54a60605b029a689784b1b14ee86a3d61e41c81b8028491a3b6124int, 0x2b5cb1912c4d4d704d2f4cce9f4a8193ffe777985117c98bc272d103b8c0579fint);
    lemma_step::<Vesta>(g, q, 0x24f34e8b2078248anat, 0x24f34e8b20544ca9nat, 1, 1);
    lemma_double_at::<Vesta>(0x1ccd0eea9c54a60605b029a689784b1b14ee86a3d61e41c81b8028491a3b6124int, 0x2b5cb1912c4d4d704d2f4cce9f4a8193ffe777985117c98bc272d103b8c0579fint, 0x31bb03511556d0d35d376bf4aff0abc2b65b34190691addd373bb73853a3606int, 0x23e6ba428c7feae01d5a5f02a516b3d952485b6a892acb3dc5c38fe24923fadbint, 0x242a58242cb648dd816e8f34fefd1da5ee071a41518c0bc96bdc756fa7d6e1adint);
    lemma_sum_at::<Vesta>(0x23e6ba428c7feae01d5a5f02a516b3d952485b6a892acb3dc5c38fe24923fadbint, 0x242a58242cb648dd816e8f34fefd1da5ee071a41518c0bc96bdc756fa7d6e1adint, 0x13df7c2e5435603001bc2403621cb68faec7361ac33a6460df713e81a98a5aa5int, 0x2f728ab832a88b04e28f18459e07c268fc2376ef49b3d5baa6726f282fa904c4int, 0x372de624b9d5b9d362e836cffc9210c3a88f858737d88e119ffe3de5e3255dcdint, 0x3f81860423795cf15ad5e6e6379da6c00784bd1376b96dc61d91a8cb295e3d41int, 0x1d6e79c2b7e4cfa3ae5b41e7a0bc3cee41014051bb09d93089197d6b7a2822deint);
    lemma_step::<Vesta>(g, q, 0x49e69d1640f04915nat, 0x49e69d1640a89953nat, 0, 1);
    lemma_double_at::<Vesta>(0x3f81860423795cf15ad5e6e6379da6c00784bd1376b96dc61d91a8cb295e3d41int, 0x1d6e79c2b7e4cfa3ae5b41e7a0bc3cee41014051bb09d93089197d6b7a2822deint, 0x2ebc12a1db78e68db9f2e190a9b3e86daf0052932ffdc1148c2c0e9f01c92ebdint, 0x182b4ecd773f13237fcb6b0964b2046e7f48ca04c222ca6128b6c9c22e15e025int, 0x3c5a27697ddb2d41498317f41e334b8838c33f31c2496cd9b798a7b5a005507eint);
    lemma_sum_at::<Vesta>(0x182b4ecd773f13237fcb6b0964b2046e7f48ca04c222ca6128b6c9c22e15e025int, 0x3c5a27697ddb2d41498317f41e334b8838c33f31c2496cd9b798a7b5a005507eint, 0x397e65a7d7c1ad71aee24b27e308f0a61259527ec1d4752e619d1840af55f1b2int, 0x40000000000000000000000000000000224698fc0994a8dd8c46eb20ffffffffint, 0xe9df38c023b0c8b8317fa93349b218758e4c22e9bda2933c1143895778d9df0int, 0xce20de973df3a4a713768674a36e48caa6d7ab4beffe2e556316f07d9067683int, 0x759457fb0ed4e8604baadc9a77bd31ae31c2c0a10b01e02312689149cc01985int);
    lemma_step::<Vesta>(g, q, 0x93cd3a2c81e0922anat, 0x93cd3a2c815132a7nat, 1, 0);
    lemma_double_at::<Vesta>(0xce20de973df3a4a713768674a36e48caa6d7ab4beffe2e556316f07d9067683int, 0x759457fb0ed4e8604baadc9a77bd31ae31c2c0a10b01e02312689149cc01985int, 0x2ddc08cdd17baa0913369bb037e87cafc7867d958d0c22877afe5a1a96697657int, 0xb72ee5349bad31ca24d64f53973cde2198a7a2f561926d956d4625dd22ae9a7int, 0x3d8121841aeb55f34f6783d23d47d5452f4dc18933525cff7513a6074bfd1ed6int);
    lemma_sum_at::<Vesta>(0xb72ee5349bad31ca24d64f53973cde2198a7a2f561926d956d4625dd22ae9a7int, 0x3d8121841aeb55f34f6783d23d47d5452f4dc18933525cff7513a6074bfd1ed6int, 0x40000000000000000000000000000000224698fc0994a8dd8c46eb2100000000int, 2int, 0x3ca253eead655c98456b4d5d73c53d7d2c3caa1cc758d7dc8d86769a0109657eint, 0xb096f52fac54e55c92e309c0c395b28a18d76fa91fcd48ac7f2dfbd3b15f538int, 0x3d578c700642a2120be269d5cdaf85f96965f274938c4ec56670e58f2f0249ceint);
}

proof fn lemma_vesta_chain_8()
    ensures
        joint::<Vesta>(
            vesta_generator(),
            vesta_image(),
            0x1279a745903c12455ffnat,
            0x1279a745902a2654e32nat,
        ) == (Pt::At {
            x: 0x1a7dac4c8c5d8c11ee85dcd6f27d7a316e1da6ea844ac555cab7f862a5d76d19int,
            y: 0x27a931944e6c4dc163bcc579c4cb5fa0e51e9a5159e90890be7bd4b64225d1f3int,
        }),
        on_curve::<Vesta>(Pt::At {
            x: 0x1a7dac4c8c5d8c11ee85dcd6f27d7a316e1da6ea844ac555cab7f862a5d76d19int,
            y: 0x27a931944e6c4dc163bcc579c4cb5fa0e51e9a5159e90890be7bd4b64225d1f3int,
        }),
{
    let (g, q) = (vesta_generator(), vesta_image());
    lemma_vesta_points();
    lemma_vesta_chain_7();
    lemma_step::<Vesta>(g, q, 0x1279a745903c12455nat, 0x1279a745902a2654enat, 1, 0);
    lemma_double_at::<Vesta>(0xb096f52fac54e55c92e309c0c395b28a18d76fa91fcd48ac7f2dfbd3b15f538int, 0x3d578c700642a2120be269d5cdaf85f96965f274938c4ec56670e58f2f0249ceint, 0x3ec1c2a9dc1a68a1384dff7e94661505e29ccdddc1b0d6354e9a81e75bad1a1eint, 0x55e1c6e4ee196ada960a5d47ed4fb850afdfce681d28716292ba8ff400e1f37int, 0x2aecc45690ba8cdb11af97672316fab501315b554d2beeed7a26fefa1249eb5cint);
    lemma_sum_at::<Vesta>(0x55e1c6e4ee196ada960a5d47ed4fb850afdfce681d28716292ba8ff400e1f37int, 0x2aecc45690ba8cdb11af97672316fab501315b554d2beeed7a26fefa1249eb5cint, 0x40000000000000000000000000000000224698fc0994a8dd8c46eb2100000000int, 2int, 0x342f88c4f4c54213b81ea5947311427db2b83cdcd832d68d20eaa0a6f558bb6bint, 0xda8bd71c02bf57503ccb83010ada3316cb67f342a3e531d12f775a007c9cd4int, 0x1e38b908b675cae9c367525d42720399e04582f357dc52d18ea87d1bcc6a9eadint);
    lemma_step::<Vesta>(g, q, 0x24f34e8b2078248abnat, 0x24f34e8b20544ca9cnat, 1, 0);
    lemma_double_at::<Vesta>(0xda8bd71c02bf57503ccb83010ada3316cb67f342a3e531d12f775a007c9cd4int, 0x1e38b908b675cae9c367525d42720399e04582f357dc52d18ea87d1bcc6a9eadint, 0x3ef5f255dbc148775cdbd9f8274c1ea5457d0ca39b2eb290885613d194bb3025int, 0x155c8d1be1a73d3f6f39ddb651f7f0d9f76cacda912d386608d7596d2d6f8f6cint, 0x3a03f116e206c0c3a160387f631c69082dabba3d8f886a6c78678bee8daa0001int);
    lemma_sum_at::<Vesta>(0x155c8d1be1a73d3f6f39ddb651f7f0d9f76cacda912d386608d7596d2d6f8f6cint, 0x3a03f116e206c0c3a160387f631c69082dabba3d8f886a6c78678bee8daa0001int, 0x40000000000000000000000000000000224698fc0994a8dd8c46eb2100000000int, 2int, 0x13f973dcfb580a0b1e4b6d89b3fae8e695e93bcf62d38e7de1c309843879204fint, 0x175aa80d4b3e726c5af5a8dd8a0e863b80b8bf0bd46664cfd44ef826d7f0042cint, 0x38a3524f8b0a54fa5d4ce1c2eb8f923d10cb8bc688ba2b33676828907ccfc08int);
    lemma_step::<Vesta>(g, q, 0x49e69d1640f049157nat, 0x49e69d1640a899538nat, 1, 1);
    lemma_double_at::<Vesta>(0x175aa80d4b3e726c5af5a8dd8a0e863b80b8bf0bd46664cfd44ef826d7f0042cint, 0x38a3524f8b0a54fa5d4ce1c2eb8f923d10cb8bc688ba2b33676828907ccfc08int, 0x2f32c33f89848e99a7c5d9624a43be41b6ea5d2e96455121e83c637e2b6d9d14int, 0x21cb63239929f4c49c230709f4172827cf1c80b7e537c6b180b1efe647f8acbint, 0xf5777a24913b2f07fadc9153a12011b108768788b7def72e72cc879df14f024int);
    lemma_sum_at::<Vesta>(0x21cb63239929f4c49c230709f4172827cf1c80b7e537c6b180b1efe647f8acbint, 0xf5777a24913b2f07fadc9153a12011b108768788b7def72e72cc879df14f024int, 0x13df7c2e5435603001bc2403621cb68faec7361ac33a6460df713e81a98a5aa5int, 0x2f728ab832a88b04e28f18459e07c268fc2376ef49b3d5baa6726f282fa904c4int, 0x28fc0c40faa85a522b8414618d9ca5f114d65c0cb2ddbbfe042491f1a0431f58int, 0x15413c8d398f91374070337d9e3cdf3f5b950aa078aff4cc30633e945ceefdd2int, 0x1e78655f38653c2212c6e5537b3d8eb00d3ce2c4681f631ec836694a201064c5int);
    lemma_step::<Vesta>(g, q, 0x93cd3a2c81e0922afnat, 0x93cd3a2c815132a71nat, 1, 1);
    lemma_double_at::<Vesta>(0x15413c8d398f91374070337d9e3cdf3f5b950aa078aff4cc30633e945ceefdd2int, 0x1e78655f38653c2212c6e5537b3d8eb00d3ce2c4681f631ec836694a201064c5int, 0x5e9f003479e01dc0d56406887f133f4e5e8a853fa848787329c1560734e8f17int, 0x8263d294aafafc89da6620ab4cd058566d287570d809df7675518c0ee5c761cint, 0x380a7a52b8dfb98f145a098007f1cb7fc140ca83492f92761f7d36c9b2918150int);
    lemma_sum_at::<Vesta>(0x8263d294aafafc89da6620ab4cd058566d287570d809df7675518c0ee5c761cint, 0x380a7a52b8dfb98f145a098007f1cb7fc140ca83492f92761f7d36c9b2918150int, 0x13df7c2e5435603001bc2403621cb68faec7361ac33a6460df713e81a98a5aa5int, 0x2f728ab832a88b04e28f18459e07c268fc2376ef49b3d5baa6726f282fa904c4int, 0x3524e6126178e94834f898ee2ae6c794295cb961471929a3ca5a54386d75d052int, 0xb4e4ac1af574e4d123dca68ef08e00aa8a286da4f3a93ba0b031822d046733cint, 0x116058a96562cf1c77b237a08d0019d6f8ad9ab64de512d4a12af893e9bcf20bint);
    lemma_step::<Vesta>(g, q, 0x1279a745903c12455fnat, 0x1279a745902a2654e3nat, 1, 0);
    lemma_double_at::<Vesta>(0xb4e4ac1af574e4d123dca68ef08e00aa8a286da4f3a93ba0b031822d046733cint, 0x116058a96562cf1c77b237a08d0019d6f8ad9ab64de512d4a12af893e9bcf20bint, 0x29834e7860c6a70e8910b8cd62f8e13a623610c736c249b42f4b18f336144301int, 0x298aea841bf001ca176dd23b42682f6b9aa149248528d6f521cf76af7b95d382int, 0x3abdd699ccdffd78eaa4cb6e4408ea8fe1dc5ea320ad6979415b642d4e29e6d5int);
    lemma_sum_at::<Vesta>(0x298aea841bf001ca176dd23b42682f6b9aa149248528d6f521cf76af7b95d382int, 0x3abdd699ccdffd78eaa4cb6e4408ea8fe1dc5ea320ad6979415b642d4e29e6d5int, 0x40000000000000000000000000000000224698fc0994a8dd8c46eb2100000000int, 2int, 0x35669cb30cd1f21f49cd88c78305c1b940495ac04494e6074e24746001ecbd31int, 0x5f625efd6f536426bf88f9c2cd23d9159e133d69f59bbceb69dbacb2ec58607int, 0xee4103f6486cb9ad7da0b87d50a29dc73b05dcf4bfe6391a8d797b3c952905eint);
    lemma_step::<Vesta>(g, q, 0x24f34e8b2078248abfnat, 0x24f34e8b20544ca9c6nat, 1, 0);
    lemma_double_at::<Vesta>(0x5f625efd6f536426bf88f9c2cd23d9159e133d69f59bbceb69dbacb2ec58607int, 0xee4103f6486cb9ad7da0b87d50a29dc73b05dcf4bfe6391a8d797b3c952905eint, 0x1f5d76b7a82fe609a8a55b11a3fa0e80a7e708a0377f1d298965d3df7c401ebbint, 0xfb3151b38ae0e59f330ad2303033eb45761df7c6f0e6adc4132c8b0f9cfcd97int, 0x2e896beb4eaaa19820893e22fdda9ca856602cf41a16995d8c20ea3c36e4fab8int);
    lemma_sum_at::<Vesta>(0xfb3151b38ae0e59f330ad2303033eb45761df7c6f0e6adc4132c8b0f9cfcd97int, 0x2e896beb4eaaa19820893e22fdda9ca856602cf41a16995d8c20ea3c36e4fab8int, 0x40000000000000000000000000000000224698fc0994a8dd8c46eb2100000000int, 2int, 0x389246650d825723f55814ce8d9aa2e9735e19fd8e6a0d1116a8f6db3d07fffbint, 0x7feeb53a0d39a7209b3f4de0e0ea5f8617b95438cde4f0a6aa7e63e639d54b3int, 0x3b8d903bfb7f98fd23b2a6738278425829424904eafbf6239ffbd1888d03d409int);
    lemma_step::<Vesta>(g, q, 0x49e69d1640f049157fnat, 0x49e69d1640a899538cnat, 1, 1);
    lemma_double_at::<Vesta>(0x7feeb53a0d39a7209b3f4de0e0ea5f8617b95438cde4f0a6aa7e63e639d54b3int, 0x3b8d903bfb7f98fd23b2a6738278425829424904eafbf6239ffbd1888d03d409int, 0x4222b03fbc19b254697383abd7a1645e322f38678b2e01082f4b4545d142cf4int, 0x31677ecf0e1825fa0f493d126835b6f52ecb289b92a75c02aef4f09a70183f70int, 0x30b8365eed3159755393b1acf18fdfef0cb866b533fd84c772fcd112e845c8c0int);
    lemma_sum_at::<Vesta>(0x31677ecf0e1825fa0f493d126835b6f52ecb289b92a75c02aef4f09a70183f70int, 0x30b8365eed3159755393b1acf18fdfef0cb866b533fd84c772fcd112e845c8c0int, 0x13df7c2e5435603001bc2403621cb68faec7361ac33a6460df713e81a98a5aa5int, 0x2f728ab832a88b04e28f18459e07c268fc2376ef49b3d5baa6726f282fa904c4int, 0x17aff283aaf1db4288e032e377d047a47fb6074eec71bd852de5331bd7005fe3int, 0x4b4fdca2edf876c558f2c8cc0fa6a4ae6ece08c6b1d87658b60ae42f42b706aint, 0x3be1db5373f51f2854ab37bdd821e5346c5b2782e14ba8674d95ca46faf4f3efint);
    lemma_step::<Vesta>(g, q, 0x93cd3a2c81e0922affnat, 0x93cd3a2c815132a719nat, 1, 0);
    lemma_double_at::<Vesta>(0x4b4fdca2edf876c558f2c8cc0fa6a4ae6ece08c6b1d87658b60ae42f42b706aint, 0x3be1db5373f51f2854ab37bdd821e5346c5b2782e14ba8674d95ca46faf4f3efint, 0x2bdcb3f27a8ce977434d7544a78b97629a2875d99760243b91307c39d3a34656int, 0xa86be6775407375802c3ec20e9720a4c899bbafa01ff7004a828ce222a34d08int, 0x3df15c6f4d72bdc5c4a7eb03e002ec65717e3e071c2783442ad490f300d031efint);
    lemma_sum_at::<Vesta>(0xa86be6775407375802c3ec20e9720a4c899bbafa01ff7004a828ce222a34d08int, 0x3df15c6f4d72bdc5c4a7eb03e002ec65717e3e071c2783442ad490f300d031efint, 0x40000000000000000000000000000000224698fc0994a8dd8c46eb2100000000int, 2int, 0xe6aafe5f6cc1a8f38880b90a2297eb998ca4c2489df473463d82286d3acca49int, 0x1a7dac4c8c5d8c11ee85dcd6f27d7a316e1da6ea844ac555cab7f862a5d76d19int, 0x27a931944e6c4dc163bcc579c4cb5fa0e51e9a5159e90890be7bd4b64225d1f3int);
}

proof fn lemma_vesta_chain_9()
    ensures
        joint::<Vesta>(
            vesta_generator(),
            vesta_image(),
            0x1279a745903c12455ff2bnat,
            0x1279a745902a2654e32c4nat,
        ) == (Pt::At {
            x: 0x3055f039d93bd673e63e6ea69487abebb11f81e798c26347c3dc5ad04e9a36cint,
            y: 0x2cb30db7feb498fe588a0ce20dc09a217d36a44657018dd26e5061f9a119ca65int,
        }),
        on_curve::<Vesta>(Pt::At {
            x: 0x3055f039d93bd673e63e6ea69487abebb11f81e798c26347c3dc5ad04e9a36cint,
            y: 0x2cb30db7feb498fe588a0ce20dc09a217d36a44657018dd26e5061f9a119ca65int,
        }),
{
    let (g, q) = (vesta_generator(), vesta_image());
    lemma_vesta_points();
    lemma_vesta_chain_8();
    lemma_step::<Vesta>(g, q, 0x1279a745903c12455ffnat, 0x1279a745902a2654e32nat, 0, 1);
    lemma_double_at::<Vesta>(0x1a7dac4c8c5d8c11ee85dcd6f27d7a316e1da6ea844ac555cab7f862a5d76d19int, 0x27a931944e6c4dc163bcc579c4cb5fa0e51e9a5159e90890be7bd4b64225d1f3int, 0xed0f913fb86aed0a852109f76d1156d241fb87d9ca1af9a12346c9f3d1b0cbbint, 0x3248da9e559512be47ec2d297b222aad555d5edf242a37ab1662f2583763e359int, 0x155c14c0f28523113a4466020af15241c276d4b50ba31b38998c31686bd512f2int);
    lemma_sum_at::<Vesta>(0x3248da9e559512be47ec2d297b222aad555d5edf242a37ab1662f2583763e359int, 0x155c14c0f28523113a4466020af15241c276d4b50ba31b38998c31686bd512f2int, 0x397e65a7d7c1ad71aee24b27e308f0a61259527ec1d4752e619d1840af55f1b2int, 0x40000000000000000000000000000000224698fc0994a8dd8c46eb20ffffffffint, 0x30bd5379147b1cc67f813a2874d9c1456546b872b8b6f8d017f5097d348ea952int, 0x2f3930da4704c835b0916cdf655ebc58971bba763b06aa2e975866c6e1c8edc2int, 0x3dd6e70939765d0b3ff406bbfc64e3356db43b070d61802f79618a928a66a35eint);
    lemma_step::<Vesta>(g, q, 0x24f34e8b2078248abfenat, 0x24f34e8b20544ca9c65nat, 0, 1);
    lemma_double_at::<Vesta>(0x2f3930da4704c835b0916cdf655ebc58971bba763b06aa2e975866c6e1c8edc2int, 0x3dd6e70939765d0b3ff406bbfc64e3356db43b070d61802f79618a928a66a35eint, 0xc6a9bf327fd1c20e68944a68573e4d3599a2c405e2d00f9cc2f40c6794be0d7int, 0x158a4ed53b8f6ea23a2be1ac12f0eddfec0bd8694c7ad699fbc220fb11147424int, 0x2c506d0f5aa2dad1645ef6d9a2403721e373f774a4519cb16599950acd07c61fint);
    lemma_sum_at::<Vesta>(0x158a4ed53b8f6ea23a2be1ac12f0eddfec0bd8694c7ad699fbc220fb11147424int, 0x2c506d0f5aa2dad1645ef6d9a2403721e373f774a4519cb16599950acd07c61fint, 0x397e65a7d7c1ad71aee24b27e308f0a61259527ec1d4752e619d1840af55f1b2int, 0x40000000000000000000000000000000224698fc0994a8dd8c46eb20ffffffffint, 0x33a5eeaee94ae2c534fd1629fc33e94265e4a4d85408945286b279c4f68cb51fint, 0x3d6212204bd15de4dc4a6f6956b8a2ff1df6241a169a8db3568fe1b6913523b7int, 0x3e98dcf17a4be676fefd12069a3c1afe79e4b3796e32ca4f0f9b246f5ac31986int);
    lemma_step::<Vesta>(g, q, 0x49e69d1640f049157fcnat, 0x49e69d1640a899538cbnat, 1, 0);
    lemma_double_at::<Vesta>(0x3d6212204bd15de4dc4a6f6956b8a2ff1df6241a169a8db3568fe1b6913523b7int, 0x3e98dcf17a4be676fefd12069a3c1afe79e4b3796e32ca4f0f9b246f5ac31986int, 0x3a84b36055d755196496ec3f1e45efd0203dcc3fbb22996041872082029c1a89int, 0x2eb817729387fc898bb0ae561a928e8c0b49a9c2a8eaec2d72f38880a006abd9int, 0x2fe62a587ba00c6f69c8a037ee832f9bb02bdaabc09f1e58b7a918e30c466227int);
    lemma_sum_at::<Vesta>(0x2eb817729387fc898bb0ae561a928e8c0b49a9c2a8eaec2d72f38880a006abd9int, 0x2fe62a587ba00c6f69c8a037ee832f9bb02bdaabc09f1e58b7a918e30c466227int, 0x40000000000000000000000000000000224698fc0994a8dd8c46eb2100000000int, 2int, 0xb1bc014cd6a42c70ae7392becf2608df9d1d357effe6ebfced5492755b02440int, 0x4942d4729858e0c245ba26ae681ed772c3dd637a01142d71efe9414b1316a1eint, 0x1a6e74b8f48a76a8860243837ba965a2ad4c5b388e018f2e24f5cdd996fd598cint);
    lemma_step::<Vesta>(g, q, 0x93cd3a2c81e0922aff9nat, 0x93cd3a2c815132a7196nat, 0, 0);
    lemma_double_at::<Vesta>(0x4942d4729858e0c245ba26ae681ed772c3dd637a01142d71efe9414b1316a1eint, 0x1a6e74b8f48a76a8860243837ba965a2ad4c5b388e018f2e24f5cdd996fd598cint, 0x124f514f195061cb5b29c04bc8c6977f01b1594d7ea9f0c4b57a34951b97e9c4int, 0x36a66b57296ea85b5c3a5721ef98be344fbc9eaa258938b30bbe8c0cdc1305d4int, 0x397edb5022f597b50fd00a2e0008b7430ad7af08ca91fb8490302a8d77c63ed5int);
    lemma_step::<Vesta>(g, q, 0x1279a745903c12455ff2nat, 0x1279a745902a2654e32cnat, 1, 0);
    lemma_double_at::<Vesta>(0x36a66b57296ea85b5c3a5721ef98be344fbc9eaa258938b30bbe8c0cdc1305d4int, 0x397edb5022f597b50fd00a2e0008b7430ad7af08ca91fb8490302a8d77c63ed5int, 0x8594306c434b7971aaf019aa478798db40b94612b317b8a599d896862b885d2int, 0x29113206b8961634d4b6c102536cc2c6c7b6bd8a8db1dcec2be346ae3b31cdb0int, 0x1a45c2ecad5a7ec84596ff6265be130e63b87d1be6a76cb67442e5cacaf9ee03int);
    lemma_sum_at::<Vesta>(0x29113206b8961634d4b6c102536cc2c6c7b6bd8a8db1dcec2be346ae3b31cdb0int, 0x1a45c2ecad5a7ec84596ff6265be130e63b87d1be6a76cb67442e5cacaf9ee03int, 0x40000000000000000000000000000000224698fc0994a8dd8c46eb2100000000int, 2int, 0x2036ece55c12c93c90d3e0a7a63ddba908b6eb3d69af58e75bd7ce5741bcb947int, 0x6b4f0f00c0e7c80c3078263a82f8980f32a74cec3d949e3ca60d33adbe26615int, 0x1f35e7c4f1705150e900438874e63d2b8194fcb398c33c87db6023f7a918e309int);
    lemma_step::<Vesta>(g, q, 0x24f34e8b2078248abfe5nat, 0x24f34e8b20544ca9c658nat, 0, 1);
    lemma_double_at::<Vesta>(0x6b4f0f00c0e7c80c3078263a82f8980f32a74cec3d949e3ca60d33adbe26615int, 0x1f35e7c4f1705150e900438874e63d2b8194fcb398c33c87db6023f7a918e309int, 0x2d28e09e27617f112d6efa6db6ae01936a1257ca991ad48cc849d1e765ec46d9int, 0xfb79080e7c2607176e71b12ef25fb9b2ecb8b999849eb6f09082afb458774ebint, 0x1ecc0a19b6c2882f1ae5c9b98e2bb8de8159ca824ef111ef4dfe23fc1b608c6fint);
    lemma_sum_at::<Vesta>(0xfb79080e7c2607176e71b12ef25fb9b2ecb8b999849eb6f09082afb458774ebint, 0x1ecc0a19b6c2882f1ae5c9b98e2bb8de8159ca824ef111ef4dfe23fc1b608c6fint, 0x397e65a7d7c1ad71aee24b27e308f0a61259527ec1d4752e619d1840af55f1b2int, 0x40000000000000000000000000000000224698fc0994a8dd8c46eb20ffffffffint, 0x234d5c849b00ab0878fde7354e8b44860b8f6cdc37dfbfd1922f43ff23bdf86eint, 0xb36c4d7d0dfe919436ecf140b4c8dfac2544ea931c403c61b686165871d9057int, 0x11993045b23b8779a885205c906524bd3cae7bb5b9add4693d6c2b6d5de51091int);
    lemma_step::<Vesta>(g, q, 0x49e69d1640f049157fcanat, 0x49e69d1640a899538cb1nat, 1, 0);
    lemma_double_at::<Vesta>(0xb36c4d7d0dfe919436ecf140b4c8dfac2544ea931c403c61b686165871d9057int, 0x11993045b23b8779a885205c906524bd3cae7bb5b9add4693d6c2b6d5de51091int, 0x394cfbd5dd1152fda1e84f230083689ef87b5acdad97dd9bebd30cd71fac935int, 0x3e1d4a8232eb12de8cd6698a833b09f375c30221d04f038b380d92c5785b58acint, 0x254ed6f9a83a46f1daad4c2d223639fe2a9816e8e6426a91306a9953795003e9int);
    lemma_sum_at::<Vesta>(0x3e1d4a8232eb12de8cd6698a833b09f375c30221d04f038b380d92c5785b58acint, 0x254ed6f9a83a46f1daad4c2d223639fe2a9816e8e6426a91306a9953795003e9int, 0x40000000000000000000000000000000224698fc0994a8dd8c46eb2100000000int, 2int, 0xe0568eca0ff6d2ff6214449b67c1be2eed80b5f8a50b3a51dc0ffe7ce00d791int, 0x33dde991414af821587c04545cf1dd4c41e0afdbe1f87c2e6ce5d7aa4d8b331cint, 0x22a30864d4d22180e9a67f051b1208c6206fefd99064d52240d88851ae43f2efint);
    lemma_step::<Vesta>(g, q, 0x93cd3a2c81e0922aff95nat, 0x93cd3a2c815132a71962nat, 1, 0);
    lemma_double_at::<Vesta>(0x33dde991414af821587c04545cf1dd4c41e0afdbe1f87c2e6ce5d7aa4d8b331cint, 0x22a30864d4d22180e9a67f051b1208c6206fefd99064d52240d88851ae43f2efint, 0x2faf052a576322c975e3e71fe3994dc63b699fe8d827e1ba76bdc0ab07c69b97int, 0x14bf584268815210517c89200e0d5befb20e5db4c6c463ce39e25d3ffe8979f1int, 0x169a1cb4094f5e35775692da5eddef906821883662d8b6f5281c463cd9118ebbint);
    lemma_sum_at::<Vesta>(0x14bf584268815210517c89200e0d5befb20e5db4c6c463ce39e25d3ffe8979f1int, 0x169a1cb4094f5e35775692da5eddef906821883662d8b6f5281c463cd9118ebbint, 0x40000000000000000000000000000000224698fc0994a8dd8c46eb2100000000int, 2int, 0x14ee816b21b90fefa50edc5c714122d34aa88f722802fe45e377ffcd4fd90710int, 0x3055f039d93bd673e63e6ea69487abebb11f81e798c26347c3dc5ad04e9a36cint, 0x2cb30db7feb498fe588a0ce20dc09a217d36a44657018dd26e5061f9a119ca65int);
}

proof fn lemma_vesta_chain_10()
    ensures
        joint::<Vesta>(
            vesta_generator(),
            vesta_image(),
            0x1279a745903c12455ff2b87nat,
            0x1279a745902a2654e32c49enat,
        ) == (Pt::At {
            x: 0x280fe7274c49236aebf72e14d0973133b7df219312ed8607817a9bb521b0ded1int,
            y: 0x30e99291fece0495e570eec18f254bc8f815992ec0b971083c49bf4e0f96ee69int,
        }),
        on_curve::<Vesta>(Pt::At {
            x: 0x280fe7274c49236aebf72e14d0973133b7df219312ed8607817a9bb521b0ded1int,
            y: 0x30e99291fece0495e570eec18f254bc8f815992ec0b971083c49bf4e0f96ee69int,
        }),
{
    let (g, q) = (vesta_generator(), vesta_image());
    lemma_vesta_points();
    lemma_vesta_chain_9();
    lemma_step::<Vesta>(g, q, 0x1279a745903c12455ff2bnat, 0x1279a745902a2654e32c4nat, 1, 1);
    lemma_double_at::<Vesta>(0x3055f039d93bd673e63e6ea69487abebb11f81e798c26347c3dc5ad04e9a36cint, 0x2cb30db7feb498fe588a0ce20dc09a217d36a44657018dd26e5061f9a119ca65int, 0x51a26867689deb4af1c4cf835aed96bd4a2251df10d18ead7f9ca8292eca3b7int, 0x1b9ca29020e75a9110cd2204c279a87777aae447c18520044e767fa8ac02aea8int, 0x27f2b163f1da82317b640cc81d9c068f9293e43d54a0ebe090be2719322dc7dfint);
    lemma_sum_at::<Vesta>(0x1b9ca29020e75a9110cd2204c279a87777aae447c18520044e767fa8ac02aea8int, 0x27f2b163f1da82317b640cc81d9c068f9293e43d54a0ebe090be2719322dc7dfint, 0x13df7c2e5435603001bc2403621cb68faec7361ac33a6460df713e81a98a5aa5int, 0x2f728ab832a88b04e28f18459e07c268fc2376ef49b3d5baa6726f282fa904c4int, 0x2ca461b0230ddf2cc2e9803bf216b4278c16d85303edfba2a1f78b3396df056fint, 0x4200d477cae4e1db938b09510d75f5e7d6023ffdf635e346d9abee7a38161bfint, 0x18cfb03a0243a667d2369ca326fe2e27b242a1e8d164b4c2d279ef517de6a67bint);
    lemma_step::<Vesta>(g, q, 0x24f34e8b2078248abfe57nat, 0x24f34e8b20544ca9c6589nat, 0, 0);
    lemma_double_at::<Vesta>(0x4200d477cae4e1db938b09510d75f5e7d6023ffdf635e346d9abee7a38161bfint, 0x18cfb03a0243a667d2369ca326fe2e27b242a1e8d164b4c2d279ef517de6a67bint, 0x15f5660d5b4400ab1ad8f3fdd0adb5b4d4bdc8cc80d76cd88bd60a9c1cd97238int, 0x81a27d79552c454bd7067ba9a5dee5ca4bee9b304440e1fa7e811331777e6a6int, 0x6546b30aac75eb8f49000bdf70bf826dd91085296e0a4b50b18f7187a2c4c49int);
    lemma_step::<Vesta>(g, q, 0x49e69d1640f049157fcaenat, 0x49e69d1640a899538cb12nat, 0, 0);
    lemma_double_at::<Vesta>(0x81a27d79552c454bd7067ba9a5dee5ca4bee9b304440e1fa7e811331777e6a6int, 0x6546b30aac75eb8f49000bdf70bf826dd91085296e0a4b50b18f7187a2c4c49int, 0x2cbb426bfb392c5ba34a13a5c5148a11eb0a66e865bc927d399e2699415baa98int, 0x2cbb044e0ddae38cacdd475659cf16f95c84229cc2d40db410351c9267d9f9aeint, 0x1fe43e779244885dcc255176dcf418cd8de8f5fdd6e88d825cf5ec6b07a52de7int);
    lemma_step::<Vesta>(g, q, 0x93cd3a2c81e0922aff95cnat, 0x93cd3a2c815132a719624nat, 0, 1);
    lemma_double_at::<Vesta>(0x2cbb044e0ddae38cacdd475659cf16f95c84229cc2d40db410351c9267d9f9aeint, 0x1fe43e779244885dcc255176dcf418cd8de8f5fdd6e88d825cf5ec6b07a52de7int, 0x22f34f0641f268959b3157a31f7fa71aebded3192fc8de0829c8e5befc346010int, 0x214d61ece3bd0740da6a167652ff8695799c37ed88458e1e46376773ea7cce64int, 0x25454088d8a17a2f7d56a163ed9fcebedf203febbe8f22883b8efff096f537aeint);
    lemma_sum_at::<Vesta>(0x214d61ece3bd0740da6a167652ff8695799c37ed88458e1e46376773ea7cce64int, 0x25454088d8a17a2f7d56a163ed9fcebedf203febbe8f22883b8efff096f537aeint, 0x397e65a7d7c1ad71aee24b27e308f0a61259527ec1d4752e619d1840af55f1b2int, 0x40000000000000000000000000000000224698fc0994a8dd8c46eb20ffffffffint, 0x4d226b83358862ea1f305906e7ecf101027bf8d914ce62e3de71e0b5f34856dint, 0x3c62e181fc12c55f1ed4834b107e5608d6766e3a6903b94b6c76638cc13bfa83int, 0x97849f943d020f501b5f83db3cd9e5722f209256707543165bcd174fa02c4eaint);
    lemma_step::<Vesta>(g, q, 0x1279a745903c12455ff2b8nat, 0x1279a745902a2654e32c49nat, 0, 1);
    lemma_double_at::<Vesta>(0x3c62e181fc12c55f1ed4834b107e5608d6766e3a6903b94b6c76638cc13bfa83int, 0x97849f943d020f501b5f83db3cd9e5722f209256707543165bcd174fa02c4eaint, 0xbc610a41e2c28a298794c1bc5fecb29c91d39f54788e3f3b9ac9d6c6269f7fint, 0x258eec462ef0fa594ad0ca3865a6e9cb350d4de5834446496f953d540e7da63eint, 0x311b2fd6c983ee93edad238a4ef9edc03cfff23bf7d6ff849e872aa47c19d79eint);
    lemma_sum_at::<Vesta>(0x258eec462ef0fa594ad0ca3865a6e9cb350d4de5834446496f953d540e7da63eint, 0x311b2fd6c983ee93edad238a4ef9edc03cfff23bf7d6ff849e872aa47c19d79eint, 0x397e65a7d7c1ad71aee24b27e308f0a61259527ec1d4752e619d1840af55f1b2int, 0x40000000000000000000000000000000224698fc0994a8dd8c46eb20ffffffffint, 0x24d3e3086114c541ee622104174b5a18bf41cd980ef8e99f8d1e71a6802feb33int, 0x1de9a696138c91d0235beb686fc46a0c41b880bc2a2bb23cb7ada1e7ae1b2730int, 0x3b581b2b3a7fee661274587afbd85b74397d3ca4692d9d02533e4a76473d1c00int);
    lemma_step::<Vesta>(g, q, 0x24f34e8b2078248abfe570nat, 0x24f34e8b20544ca9c65893nat, 1, 1);
    lemma_double_at::<Vesta>(0x1de9a696138c91d0235beb686fc46a0c41b880bc2a2bb23cb7ada1e7ae1b2730int, 0x3b581b2b3a7fee661274587afbd85b74397d3ca4692d9d02533e4a76473d1c00int, 0x10722e22ddad5260bc808a4459e8ffe43bcf58cb60b9d9145f849e17c2c9a7faint, 0x10dc47218ced396fce15e3a0e2486b81bf90eddd65ed9b1364237129fbf1acf9int, 0x3d95014024a1c6664850b447ffeaf216e907b85e95feb201e22e578657e9b40cint);
    lemma_sum_at::<Vesta>(0x10dc47218ced396fce15e3a0e2486b81bf90eddd65ed9b1364237129fbf1acf9int, 0x3d95014024a1c6664850b447ffeaf216e907b85e95feb201e22e578657e9b40cint, 0x13df7c2e5435603001bc2403621cb68faec7361ac33a6460df713e81a98a5aa5int, 0x2f728ab832a88b04e28f18459e07c268fc2376ef49b3d5baa6726f282fa904c4int, 0x14bb6972aef2957c1273082bacc877f7d91b025d59ebcef244e1b010c04d0c6eint, 0xc5631dff558c44bf8eb79fb2a62d1c7d559a15a33be239cd13c6beb419efeeaint, 0x294be74996ab5dc691d8fa1ae6f373e1bf3d9ebb93382629db2cf10ae3151f33int);
    lemma_step::<Vesta>(g, q, 0x49e69d1640f049157fcae1nat, 0x49e69d1640a899538cb127nat, 1, 1);
    lemma_double_at::<Vesta>(0xc5631dff558c44bf8eb79fb2a62d1c7d559a15a33be239cd13c6beb419efeeaint, 0x294be74996ab5dc691d8fa1ae6f373e1bf3d9ebb93382629db2cf10ae3151f33int, 0xf7524813035cc5f76333b073d70a92ed76bf8349ee180f78206182b3cd8158bint, 0x328f54adad3441d7207896b9a2d1ebca5e7554c99f478b434a3056307d11d0abint, 0x2016104d9d44b477c860fdcff3a4935089d09ae5b35a83b83da58ffae39aecc3int);
    lemma_sum_at::<Vesta>(0x328f54adad3441d7207896b9a2d1ebca5e7554c99f478b434a3056307d11d0abint, 0x2016104d9d44b477c860fdcff3a4935089d09ae5b35a83b83da58ffae39aecc3int, 0x13df7c2e5435603001bc2403621cb68faec7361ac33a6460df713e81a98a5aa5int, 0x2f728ab832a88b04e28f18459e07c268fc2376ef49b3d5baa6726f282fa904c4int, 0x244f1398b9ae1af630a902b86b754ea31ca3a732fd061f4c11a7073cf500fe1aint, 0x3ba21939b9aadf90952add962c1a94bc843379aa839f7973f13e4d72e49196beint, 0x29ab1f2df7adb56cefd837109ac0094a93770386253c9dc9cf5d5be702593b99int);
    lemma_step::<Vesta>(g, q, 0x93cd3a2c81e0922aff95c3nat, 0x93cd3a2c815132a719624fnat, 1, 0);
    lemma_double_at::<Vesta>(0x3ba21939b9aadf90952add962c1a94bc843379aa839f7973f13e4d72e49196beint, 0x29ab1f2df7adb56cefd837109ac0094a93770386253c9dc9cf5d5be702593b99int, 0x30a35d41e5b5902dce641f245512d7c31fe577464e263f598d0ca0e3dba47de9int, 0x110716ef955af946c5f2846f902d82ed28c333970aec2a20e020cfc7945f5061int, 0x14740fb2c8af5c3e54a8799f83d383a6a26ef0546ba0ced664a34b28a3bc8dd1int);
    lemma_sum_at::<Vesta>(0x110716ef955af946c5f2846f902d82ed28c333970aec2a20e020cfc7945f5061int, 0x14740fb2c8af5c3e54a8799f83d383a6a26ef0546ba0ced664a34b28a3bc8dd1int, 0x40000000000000000000000000000000224698fc0994a8dd8c46eb2100000000int, 2int, 0x3d402ab34d50e4734a9d1d3fe4d44c4e9f0434d79d72d909729514d756d09c76int, 0x280fe7274c49236aebf72e14d0973133b7df219312ed8607817a9bb521b0ded1int, 0x30e99291fece0495e570eec18f254bc8f815992ec0b971083c49bf4e0f96ee69int);
}

proof fn lemma_vesta_chain_11()
    ensures
        joint::<Vesta>(
            vesta_generator(),
            vesta_image(),
            0x1279a745903c12455ff2b871cnat,
            0x1279a745902a2654e32c49e4cnat,
        ) == (Pt::At {
            x: 0x2a7b9f9c59881da38ecf61d08a724edb22da14d27c79869bbe42523d92e84266int,
            y: 0x2bf0581be7d4512745b4c1210a52ac8b32391018517931b8d998eb517d39c99int,
        }),
        on_curve::<Vesta>(Pt::At {
            x: 0x2a7b9f9c59881da38ecf61d08a724edb22da14d27c79869bbe42523d92e84266int,
            y: 0x2bf0581be7d4512745b4c1210a52ac8b32391018517931b8d998eb517d39c99int,
        }),
{
    let (g, q) = (vesta_generator(), vesta_image());
    lemma_vesta_points();
    lemma_vesta_chain_10();
    lemma_step::<Vesta>(g, q, 0x1279a745903c12455ff2b87nat, 0x1279a745902a2654e32c49enat, 0, 0);
    lemma_double_at::<Vesta>(0x280fe7274c49236aebf72e14d0973133b7df219312ed8607817a9bb521b0ded1int, 0x30e99291fece0495e570eec18f254bc8f815992ec0b971083c49bf4e0f96ee69int, 0x134c76dc1da99d8f1b052336cd53e3d265282d65fedc9f3da725d8c9a0bcd316int, 0x38553ee4e7c01aec08b43627c9822b338b59f5e3e4f9e06ae151953bc3832959int, 0x369ee51f735032292314f2313ec630ac4a9902f9bff06743ea6f50abf74f6e54int);
    lemma_step::<Vesta>(g, q, 0x24f34e8b2078248abfe570enat, 0x24f34e8b20544ca9c65893cnat, 0, 1);
    lemma_double_at::<Vesta>(0x38553ee4e7c01aec08b43627c9822b338b59f5e3e4f9e06ae151953bc3832959int, 0x369ee51f735032292314f2313ec630ac4a9902f9bff06743ea6f50abf74f6e54int, 0x339b6b2f39b8cbe279ec4eb77cd07452c89826753aadc5e4c10ed0ced942c2ceint, 0x15afe856b20f61aab83f5cf43d4693de63bb61b2f44e0fbf6466e24edafd3542int, 0x3a67128db8f6f3a5459b41e2ecdb8cd56a7fd32918c0ad8261a8a3ac7670d63fint);
    lemma_sum_at::<Vesta>(0x15afe856b20f61aab83f5cf43d4693de63bb61b2f44e0fbf6466e24edafd3542int, 0x3a67128db8f6f3a5459b41e2ecdb8cd56a7fd32918c0ad8261a8a3ac7670d63fint, 0x397e65a7d7c1ad71aee24b27e308f0a61259527ec1d4752e619d1840af55f1b2int, 0x40000000000000000000000000000000224698fc0994a8dd8c46eb20ffffffffint, 0x370ee33f1e05835df1d2a8027515f693112ec7ee92f917b772b7960e51dcf75fint, 0x2228d6f19f3dbab20fec9ef55b3c670d21e0c10391bd2635a6d50161e2899c32int, 0x2642b6772043d56568ac855397a574eee0690141634aba217e195ad1e53fd7eint);
    lemma_step::<Vesta>(g, q, 0x49e69d1640f049157fcae1cnat, 0x49e69d1640a899538cb1279nat, 0, 0);
    lemma_double_at::<Vesta>(0x2228d6f19f3dbab20fec9ef55b3c670d21e0c10391bd2635a6d50161e2899c32int, 0x2642b6772043d56568ac855397a574eee0690141634aba217e195ad1e53fd7eint, 0x393996045984259b8ece85e28013ebeb8f7c8430d00d83862dd1707a8c4bafcbint, 0x43ec62b7b7e5855975263245386cf0a9560b4494dbe84a1a71e9385eaa51228int, 0x3ef9a7014bab3da9338c7b62ab9bf70915a65b5ab94d49f3929596366af6719cint);
    lemma_step::<Vesta>(g, q, 0x93cd3a2c81e0922aff95c38nat, 0x93cd3a2c815132a719624f2nat, 1, 0);
    lemma_double_at::<Vesta>(0x43ec62b7b7e5855975263245386cf0a9560b4494dbe84a1a71e9385eaa51228int, 0x3ef9a7014bab3da9338c7b62ab9bf70915a65b5ab94d49f3929596366af6719cint, 0x3bfe5fe8ca40116f9c64c87b1c5a62cc0e8ede22a6ced678e33783cdafaba7f3int, 0x3e3a9bef7b1d061a76a60872a4c14f13764e473941a85848832370b8ff621a5bint, 0x1fa2dfb4e5923f6a7c4fd66fcefa37d438c52933e67369bb728d5d9edfa719b0int);
    lemma_sum_at::<Vesta>(0x3e3a9bef7b1d061a76a60872a4c14f13764e473941a85848832370b8ff621a5bint, 0x1fa2dfb4e5923f6a7c4fd66fcefa37d438c52933e67369bb728d5d9edfa719b0int, 0x40000000000000000000000000000000224698fc0994a8dd8c46eb2100000000int, 2int, 0x35394f875ece1492e60b479dd116439fd0cb316cea58ddb10e073e395381ded3int, 0x32f2d953b2e464c665dff834cd650e899392267f5b835569d1df1257a664fa7fint, 0x186419bb06266ea3e6ad8fdb08f542cc477a3a12846daea6c36f21adaceb1789int);
    lemma_step::<Vesta>(g, q, 0x1279a745903c12455ff2b871nat, 0x1279a745902a2654e32c49e4nat, 1, 1);
    lemma_double_at::<Vesta>(0x32f2d953b2e464c665dff834cd650e899392267f5b835569d1df1257a664fa7fint, 0x186419bb06266ea3e6ad8fdb08f542cc477a3a12846daea6c36f21adaceb1789int, 0x4647f821f4a49625d53a039d474a4ae791b34d20a6f2e3987d659aff5ebf436int, 0x382d87b778e804a05a05d7595d2813aa6d1032a0686bf25ea55a25228cf39fb8int, 0x21b86ff46f7ed0aea1f1a4ed68c8a5fee3b17eaa943c9524bff103107f108856int);
    lemma_sum_at::<Vesta>(0x382d87b778e804a05a05d7595d2813aa6d1032a0686bf25ea55a25228cf39fb8int, 0x21b86ff46f7ed0aea1f1a4ed68c8a5fee3b17eaa943c9524bff103107f108856int, 0x13df7c2e5435603001bc2403621cb68faec7361ac33a6460df713e81a98a5aa5int, 0x2f728ab832a88b04e28f18459e07c268fc2376ef49b3d5baa6726f282fa904c4int, 0x37961ba546dd6c12692dbf4a58a79dd028732ce5b2a9011a3246792710ac2ec9int, 0x33381c0d108b516c92fffbad8032764394f4aa4892c91944964bc8ac911e7cb5int, 0x3f8a8ee7f37111de3c4f9ea34782faa910d00c0b88a4bba91bb489cee310137aint);
    lemma_step::<Vesta>(g, q, 0x24f34e8b2078248abfe570e3nat, 0x24f34e8b20544ca9c65893c9nat, 1, 1);
    lemma_double_at::<Vesta>(0x33381c0d108b516c92fffbad8032764394f4aa4892c91944964bc8ac911e7cb5int, 0x3f8a8ee7f37111de3c4f9ea34782faa910d00c0b88a4bba91bb489cee310137aint, 0x323bb6f8ce0bb577dfc403c7fcade2e77832a15d037dae28040b80ae08b48cbint, 0x3b7065eb1eb91530aa8e3de030d77cf9f1109a92974d5a81fc6ff9a8126eb2d2int, 0x1c7c28b298b4bc77b26075f10974d782db10fdbbc1efbb5b9727ac667e1a87eaint);
    lemma_sum_at::<Vesta>(0x3b7065eb1eb91530aa8e3de030d77cf9f1109a92974d5a81fc6ff9a8126eb2d2int, 0x1c7c28b298b4bc77b26075f10974d782db10fdbbc1efbb5b9727ac667e1a87eaint, 0x13df7c2e5435603001bc2403621cb68faec7361ac33a6460df713e81a98a5aa5int, 0x2f728ab832a88b04e28f18459e07c268fc2376ef49b3d5baa6726f282fa904c4int, 0x2138f62eadeadddd22d8c84f38ecb68636e1b839b3397b1b5a4be3a8885bcf40int, 0x3a0c0c2b7d60820bb593de7c2ef140f0d6d61ac0607d817c586d23587c6a83c1int, 0x29c23f84d9f7264a37e02cc0013e24e7d8f31b20b0df61bf8ca850f2dce77e34int);
    lemma_step::<Vesta>(g, q, 0x49e69d1640f049157fcae1c7nat, 0x49e69d1640a899538cb12793nat, 0, 0);
    lemma_double_at::<Vesta>(0x3a0c0c2b7d60820bb593de7c2ef140f0d6d61ac0607d817c586d23587c6a83c1int, 0x29c23f84d9f7264a37e02cc0013e24e7d8f31b20b0df61bf8ca850f2dce77e34int, 0x24e642b0695fe2b259eff0c035025edaa6bbed7fe83827c95e3359173f82bb49int, 0xcd32f4f48c875ef7637b7f987bfb9bc9ca8192f34583dd3a2257182fd63d1aeint, 0x23756f249813ab695505bc4c93f23e761b5f8d7ab452290a7007565d01ae91a1int);
    lemma_step::<Vesta>(g, q, 0x93cd3a2c81e0922aff95c38enat, 0x93cd3a2c815132a719624f26nat, 0, 0);
    lemma_double_at::<Vesta>(0xcd32f4f48c875ef7637b7f987bfb9bc9ca8192f34583dd3a2257182fd63d1aeint, 0x23756f249813ab695505bc4c93f23e761b5f8d7ab452290a7007565d01ae91a1int, 0xf81a33031122bd779fe0102c2d262487f2859a120bcac211c9403d341ee9ea1int, 0x2a7b9f9c59881da38ecf61d08a724edb22da14d27c79869bbe42523d92e84266int, 0x2bf0581be7d4512745b4c1210a52ac8b32391018517931b8d998eb517d39c99int);
}

proof fn lemma_vesta_chain_12()
    ensures
        joint::<Vesta>(
            vesta_generator(),
            vesta_image(),
            0x1279a745903c12455ff2b871c00nat,
            0x1279a745902a2654e32c49e4c00nat,
        ) == (Pt::At {
            x: 0x3b87276ae9c577891af0a136814bf5be442373bd3baa973c1e5f374f10f21c5int,
            y: 0x20a57792c66b931a8f3c6986fbd91824e25ab2ed1ae5f9bbf3274242afd60d71int,
        }),
        on_curve::<Vesta>(Pt::At {
            x: 0x3b87276ae9c577891af0a136814bf5be442373bd3baa973c1e5f374f10f21c5int,
            y: 0x20a57792c66b931a8f3c6986fbd91824e25ab2ed1ae5f9bbf3274242afd60d71int,
        }),
{
    let (g, q) = (vesta_generator(), vesta_image());
    lemma_vesta_points();
    lemma_vesta_chain_11();
    lemma_step::<Vesta>(g, q, 0x1279a745903c12455ff2b871cnat, 0x1279a745902a2654e32c49e4cnat, 0, 0);
    lemma_double_at::<Vesta>(0x2a7b9f9c59881da38ecf61d08a724edb22da14d27c79869bbe42523d92e84266int, 0x2bf0581be7d4512745b4c1210a52ac8b32391018517931b8d998eb517d39c99int, 0xc0adc0068a675c782553ce3ab41a953f07b6102e3961d6d88c4e18159c6d808int, 0x3780a3ec0f194a9c03f27dc12c0a143b023d02c7f443289aadbf42e7e1d8966dint, 0x2f6ed8678abcf938c2884656e086f9cc114f21e8a1a933ff9a5fb2f6ae4784dbint);
    lemma_step::<Vesta>(g, q, 0x24f34e8b2078248abfe570e38nat, 0x24f34e8b20544ca9c65893c98nat, 0, 0);
    lemma_double_at::<Vesta>(0x3780a3ec0f194a9c03f27dc12c0a143b023d02c7f443289aadbf42e7e1d8966dint, 0x2f6ed8678abcf938c2884656e086f9cc114f21e8a1a933ff9a5fb2f6ae4784dbint, 0x352f4397b8b612d9f0f6b9339022dbdf2c89b00407c3718033001618393908fbint, 0x1cd0e5a015f49fd7987fb21db8d3f318d1f67b4e0a14891d622de9ed45ca99afint, 0x1efaaf98a1c28b8eb7b6b93a0e79905b2480fe7b647ef14a295f43e0ef036bc4int);
    lemma_step::<Vesta>(g, q, 0x49e69d1640f049157fcae1c70nat, 0x49e69d1640a899538cb127930nat, 0, 0);
    lemma_double_at::<Vesta>(0x1cd0e5a015f49fd7987fb21db8d3f318d1f67b4e0a14891d622de9ed45ca99afint, 0x1efaaf98a1c28b8eb7b6b93a0e79905b2480fe7b647ef14a295f43e0ef036bc4int, 0x2ed1dfaf18e03f2c5c87fc16c3e88660de71261208595f52b97741fa98502ad2int, 0x34277826f94d75e1284df600c334058f0dbb97dc79dd820fb2f32afcd5895e19int, 0x3764f7933392717b2ae5b96152b54deafa2d05f326dc2f7fe39f73f33d73523int);
    lemma_step::<Vesta>(g, q, 0x93cd3a2c81e0922aff95c38e0nat, 0x93cd3a2c815132a719624f260nat, 0, 0);
    lemma_double_at::<Vesta>(0x34277826f94d75e1284df600c334058f0dbb97dc79dd820fb2f32afcd5895e19int, 0x3764f7933392717b2ae5b96152b54deafa2d05f326dc2f7fe39f73f33d73523int, 0x3b5b97f38260b413fc6e1eb41402e3f9639c857befbe7f50d461be5ea009dfcbint, 0xe49e437c4fe334ad9f4e1975295ad2deba4935ae22d314c1c526aad58271f90int, 0x2907fea50cd84fc8060342d06887dd0adf8b99e954c70bb4cdaaff6818de56feint);
    lemma_step::<Vesta>(g, q, 0x1279a745903c12455ff2b871c0nat, 0x1279a745902a2654e32c49e4c0nat, 0, 0);
    lemma_double_at::<Vesta>(0xe49e437c4fe334ad9f4e1975295ad2deba4935ae22d314c1c526aad58271f90int, 0x2907fea50cd84fc8060342d06887dd0adf8b99e954c70bb4cdaaff6818de56feint, 0xc26301c00471524c4ce70b18384c8af755b3a6c3faabc0442f8588b62b20c6eint, 0x15034a21da44794109997ec2155e6c150a5a467600fcb57137e21bf4dd87c9d4int, 0x3b6b478df24a0c404d925f8c6981914d1373582383e5ea75392cfc6b8e419c00int);
    lemma_step::<Vesta>(g, q, 0x24f34e8b2078248abfe570e380nat, 0x24f34e8b20544ca9c65893c980nat, 0, 0);
    lemma_double_at::<Vesta>(0x15034a21da44794109997ec2155e6c150a5a467600fcb57137e21bf4dd87c9d4int, 0x3b6b478df24a0c404d925f8c6981914d1373582383e5ea75392cfc6b8e419c00int, 0x1d36459d061c96c1d83e2c3fd2ab859269939c6f344ec719a7bf6ab375069d54int, 0x216ecb5689d3a99b1e8e622a98503d0865c0ac30d6562133e2ea8bb7f6dccc97int, 0x84e7f189f84c9814a7cfcaed455bef72d0211b5dac47156451499c4f74a7257int);
    lemma_step::<Vesta>(g, q, 0x49e69d1640f049157fcae1c700nat, 0x49e69d1640a899538cb1279300nat, 0, 0);
    lemma_double_at::<Vesta>(0x216ecb5689d3a99b1e8e622a98503d0865c0ac30d6562133e2ea8bb7f6dccc97int, 0x84e7f189f84c9814a7cfcaed455bef72d0211b5dac47156451499c4f74a7257int, 0x212bf8db3f8e7d99535a50e818f2639d6585456b90f8be1ffe8a6e8e7e480bacint, 0x28f9527f888b3d31ce6679e68ee54a556a5e91c708bbfb19648b92520200fa4cint, 0xa44af5daf338f1635b968988aea54f7665a9f2365f0aa5e859be2fdcc53b976int);
    lemma_step::<Vesta>(g, q, 0x93cd3a2c81e0922aff95c38e00nat, 0x93cd3a2c815132a719624f2600nat, 0, 0);
    lemma_double_at::<Vesta>(0x28f9527f888b3d31ce6679e68ee54a556a5e91c708bbfb19648b92520200fa4cint, 0xa44af5daf338f1635b968988aea54f7665a9f2365f0aa5e859be2fdcc53b976int, 0x39f7073c47e1ccd404e386048f8908e55c7c1a01999043d257d469e3825d7b1int, 0x3b87276ae9c577891af0a136814bf5be442373bd3baa973c1e5f374f10f21c5int, 0x20a57792c66b931a8f3c6986fbd91824e25ab2ed1ae5f9bbf3274242afd60d71int);
}

proof fn lemma_vesta_chain_13()
    ensures
        joint::<Vesta>(
            vesta_generator(),
            vesta_image(),
            0x1279a745903c12455ff2b871c0000nat,
            0x1279a745902a2654e32c49e4c0000nat,
        ) == (Pt::At {
            x: 0x38ddf8f1ad0cfcc23ca6932829eaa890f88006d8923981f1e15f7542425816b2int,
            y: 0x26b70cfeda76e56a1484da78f570b3286a91727dbf8ec6498ad7b1486c22cc50int,
        }),
        on_curve::<Vesta>(Pt::At {
            x: 0x38ddf8f1ad0cfcc23ca6932829eaa890f88006d8923981f1e15f7542425816b2int,
            y: 0x26b70cfeda76e56a1484da78f570b3286a91727dbf8ec6498ad7b1486c22cc50int,
        }),
{
    let (g, q) = (vesta_generator(), vesta_image());
    lemma_vesta_points();
    lemma_vesta_chain_12();
    lemma_step::<Vesta>(g, q, 0x1279a745903c12455ff2b871c00nat, 0x1279a745902a2654e32c49e4c00nat, 0, 0);
    lemma_double_at::<Vesta>(0x3b87276ae9c577891af0a136814bf5be442373bd3baa973c1e5f374f10f21c5int, 0x20a57792c66b931a8f3c6986fbd91824e25ab2ed1ae5f9bbf3274242afd60d71int, 0x3afd46fc685aefd7640cac2c2882cfcbc56fd0e0ab8c096d56bb0e6f67eebff5int, 0xa39af0c35e73fd8902daeac09199fd46f29809b6a6371dfc3253f4dbc90a1e0int, 0x2cacb2bbca492dc73bceccb08284f4a328488c53bd9148695f936a2eb5c4922eint);
    lemma_step::<Vesta>(g, q, 0x24f34e8b2078248abfe570e3800nat, 0x24f34e8b20544ca9c65893c9800nat, 0, 0);
    lemma_double_at::<Vesta>(0xa39af0c35e73fd8902daeac09199fd46f29809b6a6371dfc3253f4dbc90a1e0int, 0x2cacb2bbca492dc73bceccb08284f4a328488c53bd9148695f936a2eb5c4922eint, 0x3aab20fbbc2c8fd80ccafab9483ea165c052a6a24104be5be852535f8458229bint, 0x281bd9a19f3bae3e5cb26e14e677a7f546162748891d389629f0047f212b9042int, 0x39983eafd4da3bbfd907f39410e72ce79ed292713d15d07c415ae33a395dea21int);
    lemma_step::<Vesta>(g, q, 0x49e69d1640f049157fcae1c7000nat, 0x49e69d1640a899538cb12793000nat, 0, 0);
    lemma_double_at::<Vesta>(0x281bd9a19f3bae3e5cb26e14e677a7f546162748891d389629f0047f212b9042int, 0x39983eafd4da3bbfd907f39410e72ce79ed292713d15d07c415ae33a395dea21int, 0x1675300128ccdc64270b107d0e1aef1130fa0819bd1529376ba10395face98b0int, 0x2358bba96579484005683854185d1543100db72880c88b0d166836d043e012ddint, 0x4fadf4cd21b560e6420881eccbd2cc4f671ec73b64e4220952a879b275955ddint);
    lemma_step::<Vesta>(g, q, 0x93cd3a2c81e0922aff95c38e000nat, 0x93cd3a2c815132a719624f26000nat, 0, 0);
    lemma_double_at::<Vesta>(0x2358bba96579484005683854185d1543100db72880c88b0d166836d043e012ddint, 0x4fadf4cd21b560e6420881eccbd2cc4f671ec73b64e4220952a879b275955ddint, 0x2fa304795f067d2a2aa4c604da696ebf749fa2bf1387efae719a2eed4f1368f5int, 0x14b57ac2a84307bdfc6e1a6f5b32b5e82b00c45c4c420b12a5d602c18dc0e0daint, 0x141548ecbc2a0895094761c53cf9a166e3fd64789014fa232a88a6d6050f84b7int);
    lemma_step::<Vesta>(g, q, 0x1279a745903c12455ff2b871c000nat, 0x1279a745902a2654e32c49e4c000nat, 0, 0);
    lemma_double_at::<Vesta>(0x14b57ac2a84307bdfc6e1a6f5b32b5e82b00c45c4c420b12a5d602c18dc0e0daint, 0x141548ecbc2a0895094761c53cf9a166e3fd64789014fa232a88a6d6050f84b7int, 0x33ebf873113cbbfba6db9472adab21f65ac22a04f8e22c54c7613a5a250ba6bbint, 0x22709fa900fc6b81f082556ddd48f5931077a4ea5eceef1e562ce5d5bda726f2int, 0x34c9e8d9e26304939294140f6222098e130d83c79eaf267e72e4049f5a01f191int);
    lemma_step::<Vesta>(g, q, 0x24f34e8b2078248abfe570e38000nat, 0x24f34e8b20544ca9c65893c98000nat, 0, 0);
    lemma_double_at::<Vesta>(0x22709fa900fc6b81f082556ddd48f5931077a4ea5eceef1e562ce5d5bda726f2int, 0x34c9e8d9e26304939294140f6222098e130d83c79eaf267e72e4049f5a01f191int, 0x2c8f47e5a3ab7e62205fb618ccd25a2d628f90a2370f8ae4c981cfec23b8d584int, 0x23fa1b5c3b581431edf52658e528545b965484054099f17e03dc2e50fb1c5ccint, 0xbbb36af1ddb93ac5b4f7f581ba573146e0898acf7d834455c0e9da9e8edaf52int);
    lemma_step::<Vesta>(g, q, 0x49e69d1640f049157fcae1c70000nat, 0x49e69d1640a899538cb127930000nat, 0, 0);
    lemma_double_at::<Vesta>(0x23fa1b5c3b581431edf52658e528545b965484054099f17e03dc2e50fb1c5ccint, 0xbbb36af1ddb93ac5b4f7f581ba573146e0898acf7d834455c0e9da9e8edaf52int, 0x290edf6f342e0bf0a13c5cb9c0acf35713ff138c84e9ba90d7b89ad788f1055dint, 0x11e5ab290f25d8c0a1c82ec031e427eeadfeb93cf2bf018bfb78d87d92d0b2fint, 0x1c4d57bde25bd88ab23eb42d58febc6051e6b8bca807894bc67cef84062f6d89int);
    lemma_step::<Vesta>(g, q, 0x93cd3a2c81e0922aff95c38e0000nat, 0x93cd3a2c815132a719624f260000nat, 0, 0);
    lemma_double_at::<Vesta>(0x11e5ab290f25d8c0a1c82ec031e427eeadfeb93cf2bf018bfb78d87d92d0b2fint, 0x1c4d57bde25bd88ab23eb42d58febc6051e6b8bca807894bc67cef84062f6d89int, 0xa1738da50e6f0582deb32087b12c2914aba8134203281bc7ef223930ca87cbint, 0x38ddf8f1ad0cfcc23ca6932829eaa890f88006d8923981f1e15f7542425816b2int, 0x26b70cfeda76e56a1484da78f570b3286a91727dbf8ec6498ad7b1486c22cc50int);
}

proof fn lemma_vesta_chain_14()
    ensures
        joint::<Vesta>(
            vesta_generator(),
            vesta_image(),
            0x1279a745903c12455ff2b871c000000nat,
            0x1279a745902a2654e32c49e4c000000nat,
        ) == (Pt::At {
            x: 0x76f36fca13591bfda4fa7a2607d69a0a173dba227ce65d2c4a440944a8a48baint,
            y: 0x7f0f72eaaf0fb8d09d871e5f73b5f093baab03c4e455a39758b942abd238026int,
        }),
        on_curve::<Vesta>(Pt::At {
            x: 0x76f36fca13591bfda4fa7a2607d69a0a173dba227ce65d2c4a440944a8a48baint,
            y: 0x7f0f72eaaf0fb8d09d871e5f73b5f093baab03c4e455a39758b942abd238026int,
        }),
{
    let (g, q) = (vesta_generator(), vesta_image());
    lemma_vesta_points();
    lemma_vesta_chain_13();
    lemma_step::<Vesta>(g, q, 0x1279a745903c12455ff2b871c0000nat, 0x1279a745902a2654e32c49e4c0000nat, 0, 0);
    lemma_double_at::<Vesta>(0x38ddf8f1ad0cfcc23ca6932829eaa890f88006d8923981f1e15f7542425816b2int, 0x26b70cfeda76e56a1484da78f570b3286a91727dbf8ec6498ad7b1486c22cc50int, 0x78d1780b709d17b64ae0c897b9536119987eda0cc0f29c8fa9a7a0975eb3725int, 0x341d14f0c2e290a59196267d2f0ae28f980e6e3b52d2ab501becfda79de6a992int, 0x275af8005060cbe1dfdd2fcd3a0936492b294f6671129cae2a1cbd4f86b851f6int);
    lemma_step::<Vesta>(g, q, 0x24f34e8b2078248abfe570e380000nat, 0x24f34e8b20544ca9c65893c980000nat, 0, 0);
    lemma_double_at::<Vesta>(0x341d14f0c2e290a59196267d2f0ae28f980e6e3b52d2ab501becfda79de6a992int, 0x275af8005060cbe1dfdd2fcd3a0936492b294f6671129cae2a1cbd4f86b851f6int, 0x1f9c2dd2972554129f9882b90d0f12b84e90c417d9bb0616a5a0e44b41d98e07int, 0x20eac98811c721033b253aa31eb8ea79979d0fe77ed675c593293778d1e144a1int, 0x156ed53d49df6e902a96b0a5a9ed2ae977548de061e23b7a39b73c116fa1ad46int);
    lemma_step::<Vesta>(g, q, 0x49e69d1640f049157fcae1c700000nat, 0x49e69d1640a899538cb1279300000nat, 0, 0);
    lemma_double_at::<Vesta>(0x20eac98811c721033b253aa31eb8ea79979d0fe77ed675c593293778d1e144a1int, 0x156ed53d49df6e902a96b0a5a9ed2ae977548de061e23b7a39b73c116fa1ad46int, 0xf86b083e070f6606a629e8b339f07ee37fb8fc06da5786c35381a11722189fdint, 0x2181499c8ace442c2aa496d3acd7a796e30be9cfd910658202933dcd0caa32d0int, 0x2ba3a22d45a0f120efedd5f39880bd452d44b0425417869b2a348535e7e52bd1int);
    lemma_step::<Vesta>(g, q, 0x93cd3a2c81e0922aff95c38e00000nat, 0x93cd3a2c815132a719624f2600000nat, 0, 0);
    lemma_double_at::<Vesta>(0x2181499c8ace442c2aa496d3acd7a796e30be9cfd910658202933dcd0caa32d0int, 0x2ba3a22d45a0f120efedd5f39880bd452d44b0425417869b2a348535e7e52bd1int, 0x3440bf676a99ea82e7a4b2a9aba3e91e2f4fab8e10dbde7772cb83a4ea4039b9int, 0x312e4120cda0e77f0024928aedb41bcdee1f6ed787434cdfda32b2584c291253int, 0x3d64cab9abad5cced8514326da7f4c07cebc1f9fa643bc1d75682445d5968d8cint);
    lemma_step::<Vesta>(g, q, 0x1279a745903c12455ff2b871c00000nat, 0x1279a745902a2654e32c49e4c00000nat, 0, 0);
    lemma_double_at::<Vesta>(0x312e4120cda0e77f0024928aedb41bcdee1f6ed787434cdfda32b2584c291253int, 0x3d64cab9abad5cced8514326da7f4c07cebc1f9fa643bc1d75682445d5968d8cint, 0x27f18eb889a2aaeba4487cbd135dfac8404f3747041b88f83e46c4c13fdbd4adint, 0x245ed0586c5d8b8506997e985732485c6ec68d1b8e80f75fe6586151db7e3614int, 0xa7dd9d57ce94759cdd461774bd5164391f96e34df2ea33ca01742100c1e458int);
    lemma_step::<Vesta>(g, q, 0x24f34e8b2078248abfe570e3800000nat, 0x24f34e8b20544ca9c65893c9800000nat, 0, 0);
    lemma_double_at::<Vesta>(0x245ed0586c5d8b8506997e985732485c6ec68d1b8e80f75fe6586151db7e3614int, 0xa7dd9d57ce94759cdd461774bd5164391f96e34df2ea33ca01742100c1e458int, 0x27f692942feea766c905891bdf2d0c7432998d251f7e72af2157d3d3c4df1d34int, 0x3467b337152353510dde973429b430f080c781e039288e5bf8bc93e27a010f56int, 0x10a5cc52b575ee21722757df2433a3e0aa9dbbe5afd16b700198107a7e760662int);
    lemma_step::<Vesta>(g, q, 0x49e69d1640f049157fcae1c7000000nat, 0x49e69d1640a899538cb12793000000nat, 0, 0);
    lemma_double_at::<Vesta>(0x3467b337152353510dde973429b430f080c781e039288e5bf8bc93e27a010f56int, 0x10a5cc52b575ee21722757df2433a3e0aa9dbbe5afd16b700198107a7e760662int, 0x1f0e0f77b1ff36a61eb8218858cef675857505012587cdacd45359614c83d1e2int, 0x495f86013e3786b10ed751555a162eae910e0bbcc778880e40832971cbddd78int, 0x10029866bb81a3ea66688c8ade3de6260c445372545d946694b2c0818c0fc3d3int);
    lemma_step::<Vesta>(g, q, 0x93cd3a2c81e0922aff95c38e000000nat, 0x93cd3a2c815132a719624f26000000nat, 0, 0);
    lemma_double_at::<Vesta>(0x495f86013e3786b10ed751555a162eae910e0bbcc778880e40832971cbddd78int, 0x10029866bb81a3ea66688c8ade3de6260c445372545d946694b2c0818c0fc3d3int, 0x382f0bac3ae869759798b004e56d7e5a06559fc28039fd6855cb60ad59b192fint, 0x76f36fca13591bfda4fa7a2607d69a0a173dba227ce65d2c4a440944a8a48baint, 0x7f0f72eaaf0fb8d09d871e5f73b5f093baab03c4e455a39758b942abd238026int);
}

proof fn lemma_vesta_chain_15()
    ensures
        joint::<Vesta>(
            vesta_generator(),
            vesta_image(),
            0x49e69d1640f049157fcae1c700000000nat,
            0x49e69d1640a899538cb1279300000001nat,
        ) == Pt::Infinity,
{
    let (g, q) = (vesta_generator(), vesta_image());
    lemma_vesta_points();
    lemma_vesta_chain_14();
    lemma_step::<Vesta>(g, q, 0x1279a745903c12455ff2b871c000000nat, 0x1279a745902a2654e32c49e4c000000nat, 0, 0);
    lemma_double_at::<Vesta>(0x76f36fca13591bfda4fa7a2607d69a0a173dba227ce65d2c4a440944a8a48baint, 0x7f0f72eaaf0fb8d09d871e5f73b5f093baab03c4e455a39758b942abd238026int, 0x19789ca5c16cda3c6fe8bc7d1a08866359d7f0f56e89eb409e617e5270c1fd3int, 0x21eb9c3817927c304fb7d2b7dcb82cc72d0375e6094ae3aa7005aa32592ddcddint, 0x2bc0680c8ab1ca5a9cbb123748be5b2170858579b80e8cbe9e028aabedec19f1int);
    lemma_step::<Vesta>(g, q, 0x24f34e8b2078248abfe570e38000000nat, 0x24f34e8b20544ca9c65893c98000000nat, 0, 0);
    lemma_double_at::<Vesta>(0x21eb9c3817927c304fb7d2b7dcb82cc72d0375e6094ae3aa7005aa32592ddcddint, 0x2bc0680c8ab1ca5a9cbb123748be5b2170858579b80e8cbe9e028aabedec19f1int, 0x30bdb34579d7c207f6cffbfdde6c201b0202ef12790ac379a70df1c69f65f979int, 0x2e579e3ce41770cd523af18aed5fde2f82e28af346a906f5a5f90e6cd13a62bint, 0x16dd38b1a4df6fa57ef85fb24f1a04289a4ff36cec138d9d519c7a2d03864ec5int);
    lemma_step::<Vesta>(g, q, 0x49e69d1640f049157fcae1c70000000nat, 0x49e69d1640a899538cb127930000000nat, 0, 0);
    lemma_double_at::<Vesta>(0x2e579e3ce41770cd523af18aed5fde2f82e28af346a906f5a5f90e6cd13a62bint, 0x16dd38b1a4df6fa57ef85fb24f1a04289a4ff36cec138d9d519c7a2d03864ec5int, 0x328f33764ddcab0cd022139ddea56db1f6b07e909c422716eec874e735313c64int, 0x4d26e224cc1abea148960ad1f3997d87c6aa10494c3be68f5045767152f520dint, 0x14c5c4aa996a5e365183a86277cb0eb1ed678a45b0c1ff90eb90d8f95f4a5358int);
    lemma_step::<Vesta>(g, q, 0x93cd3a2c81e0922aff95c38e0000000nat, 0x93cd3a2c815132a719624f260000000nat, 0, 0);
    lemma_double_at::<Vesta>(0x4d26e224cc1abea148960ad1f3997d87c6aa10494c3be68f5045767152f520dint, 0x14c5c4aa996a5e365183a86277cb0eb1ed678a45b0c1ff90eb90d8f95f4a5358int, 0x3ca48bab05639f2370f80fb89c425009700c6b087ddc4333a52f4710c53d57f1int, 0xa0e057c9e720a4f2f525f3b27b6be19b5fd3361d5a3bc3f55708ce242d370dint, 0x12dccd119928181c23525e30f9715b25335a6b7db385746206726edf73ec572bint);
    lemma_step::<Vesta>(g, q, 0x1279a745903c12455ff2b871c0000000nat, 0x1279a745902a2654e32c49e4c0000000nat, 0, 0);
    lemma_double_at::<Vesta>(0xa0e057c9e720a4f2f525f3b27b6be19b5fd3361d5a3bc3f55708ce242d370dint, 0x12dccd119928181c23525e30f9715b25335a6b7db385746206726edf73ec572bint, 0x15ebb6d2e1b6fb2dd20972b97b8d473af67609fddcc9deda0caafcbe3b36dc73int, 0x19be8cbcbdc5aa59c2a056fdf6b69e068bf98da43f7686eb334377b62c474d95int, 0x8b0aa8959368db0ca8b121ec92a60ab82e9e0c6524b2ba75a5283b93a991842int);
    lemma_step::<Vesta>(g, q, 0x24f34e8b2078248abfe570e380000000nat, 0x24f34e8b20544ca9c65893c980000000nat, 0, 1);
    lemma_double_at::<Vesta>(0x19be8cbcbdc5aa59c2a056fdf6b69e068bf98da43f7686eb334377b62c474d95int, 0x8b0aa8959368db0ca8b121ec92a60ab82e9e0c6524b2ba75a5283b93a991842int, 0x88122c8f85375be53da05599b697dd0a8f2618248ca724944ed9f73aa5c01c4int, 0x397e65a7d7c1ad71aee24b27e308f0a61259527ec1d4752e619d1840af55f1b2int, 2int);
    let d = Pt::At { x: 0x397e65a7d7c1ad71aee24b27e308f0a61259527ec1d4752e619d1840af55f1b2int, y: 2int };
    let e = Pt::At { x: 0x397e65a7d7c1ad71aee24b27e308f0a61259527ec1d4752e619d1840af55f1b2int, y: 0x40000000000000000000000000000000224698fc0994a8dd8c46eb20ffffffffint };
    assert((-0x40000000000000000000000000000000224698fc0994a8dd8c46eb20ffffffffint) % 0x40000000000000000000000000000000224698fc0994a8dd8c46eb2100000001int == 2int);
    lemma_inverse_point::<Vesta>(e);
    lemma_commutative::<Vesta>(e, minus::<Vesta>(e));
}

proof fn lemma_vesta_power()
    ensures
        pow(-5, 0x1555555555555555555555555555555560c232feaddc3849d96cf90b00000000nat) % vesta_modulus() == 0x6819a58283e528e511db4d81cf70f5a0fed467d47c033af2aa9d2e050aa0e4fint,
{
    lemma_pow0(-5);
    let e: nat = 0;
    assert(quad(1int, -5, 1, vesta_modulus()) == 0x40000000000000000000000000000000224698fc0994a8dd8c46eb20fffffffcint) by (nonlinear_arith);
    lemma_quad(-5, e, 1int, 1, vesta_modulus());
    let e: nat = 4 * e + 1;
    assert(quad(0x40000000000000000000000000000000224698fc0994a8dd8c46eb20fffffffcint, -5, 1, vesta_modulus()) == 0x40000000000000000000000000000000224698fc0994a8dd8c46eb20fffff3ccint) by (nonlinear_arith);
    lemma_quad(-5, e, 0x40000000000000000000000000000000224698fc0994a8dd8c46eb20fffffffcint, 1, vesta_modulus());
    let e: nat = 4 * e + 1;
    assert(quad(0x40000000000000000000000000000000224698fc0994a8dd8c46eb20fffff3ccint, -5, 1, vesta_modulus()) == 0x40000000000000000000000000000000224698fc0994a8dd8c453972b291d10cint) by (nonlinear_arith);
    lemma_quad(-5, e, 0x40000000000000000000000000000000224698fc0994a8dd8c46eb20fffff3ccint, 1, vesta_modulus());
    let e: nat = 4 * e + 1;
    assert(quad(0x40000000000000000000000000000000224698fc0994a8dd8c453972b291d10cint, -5, 1, vesta_modulus()) == 0x3fffffffffffffd6d1cd5397aa702b6a46462ad7c37e5abaedb4b0b61e70260cint) by (nonlinear_arith);
    lemma_quad(-5, e, 0x40000000000000000000000000000000224698fc0994a8dd8c453972b291d10cint, 1, vesta_modulus());
    let e: nat = 4 * e + 1;
    assert(quad(0x3fffffffffffffd6d1cd5397aa702b6a46462ad7c37e5abaedb4b0b61e70260cint, -5, 1, vesta_modulus()) == 0x26d28e3a6fc36a06bcaf2f0553c5d1389cd0507334fcdc1ef46efd895db4c0deint) by (nonlinear_arith);
    lemma_quad(-5, e, 0x3fffffffffffffd6d1cd5397aa702b6a46462ad7c37e5abaedb4b0b61e70260cint, 1, vesta_modulus());
    let e: nat = 4 * e + 1;
    assert(quad(0x26d28e3a6fc36a06bcaf2f0553c5d1389cd0507334fcdc1ef46efd895db4c0deint, -5, 1, vesta_modulus()) == 0x24da18024072654ee0749a9b955dbefc7908162988b7bc7daf348773a34b14c6int) by (nonlinear_arith);
    lemma_quad(-5, e, 0x26d28e3a6fc36a06bcaf2f0553c5d1389cd0507334fcdc1ef46efd895db4c0deint, 1, vesta_modulus());
    let e: nat = 4 * e + 1;
    assert(quad(0x24da18024072654ee0749a9b955dbefc7908162988b7bc7daf348773a34b14c6int, -5, 1, vesta_modulus()) == 0x7bb27e0f45eb989594dc74ab1d067941e49699abf75262ccd13f2fb851fc668int) by (nonlinear_arith);
    lemma_quad(-5, e, 0x24da18024072654ee0749a9b955dbefc7908162988b7bc7daf348773a34b14c6int, 1, vesta_modulus());
    let e: nat = 4 * e + 1;
    assert(quad(0x7bb27e0f45eb989594dc74ab1d067941e49699abf75262ccd13f2fb851fc668int, -5, 1, vesta_modulus()) == 0x3d0905ab2c29c8c8302efb25f11d0875cdfb0d5b24d535b2e767a03e43244772int) by (nonlinear_arith);
    lemma_quad(-5, e, 0x7bb27e0f45eb989594dc74ab1d067941e49699abf75262ccd13f2fb851fc668int, 1, vesta_modulus());
    let e: nat = 4 * e + 1;
    assert(quad(0x3d0905ab2c29c8c8302efb25f11d0875cdfb0d5b24d535b2e767a03e43244772int, -5, 1, vesta_modulus()) == 0x3c6236afd5e6e38c03bcc1e33014cae695694d17a8a6de4a67039b4efc1c1051int) by (nonlinear_arith);
    lemma_quad(-5, e, 0x3d0905ab2c29c8c8302efb25f11d0875cdfb0d5b24d535b2e767a03e43244772int, 1, vesta_modulus());
    let e: nat = 4 * e + 1;
    assert(quad(0x3c6236afd5e6e38c03bcc1e33014cae695694d17a8a6de4a67039b4efc1c1051int, -5, 1, vesta_modulus()) == 0x271802a23c32de7ea34c5c2500ff928772c5228004219de66d6d3994cb40b7eint) by (nonlinear_arith);
    lemma_quad(-5, e, 0x3c6236afd5e6e38c03bcc1e33014cae695694d17a8a6de4a67039b4efc1c1051int, 1, vesta_modulus());
    let e: nat = 4 * e + 1;
    assert(quad(0x271802a23c32de7ea34c5c2500ff928772c5228004219de66d6d3994cb40b7eint, -5, 1, vesta_modulus()) == 0x28604a1d387beae6d93cd87817b24961fa6df9e3985b2f96deff839cb95e5e24int) by (nonlinear_arith);
    lemma_quad(-5, e, 0x271802a23c32de7ea34c5c2500ff928772c5228004219de66d6d3994cb40b7eint, 1, vesta_modulus());
    let e: nat = 4 * e + 1;
    assert(quad(0x28604a1d387beae6d93cd87817b24961fa6df9e3985b2f96deff839cb95e5e24int, -5, 1, vesta_modulus()) == 0x340ed0ccc89ec6989643d80d27503a1b2fe4aa0574ffd487c4521baa9c475531int) by (nonlinear_arith);
    lemma_quad(-5, e, 0x28604a1d387beae6d93cd87817b24961fa6df9e3985b2f96deff839cb95e5e24int, 1, vesta_modulus());
    let e: nat = 4 * e + 1;
    assert(quad(0x340ed0ccc89ec6989643d80d27503a1b2fe4aa0574ffd487c4521baa9c475531int, -5, 1, vesta_modulus()) == 0x378c33673ae3c76ed84a1c0004c1834274c76348993bbf14ae6a685b45a01366int) by (nonlinear_arith);
    lemma_quad(-5, e, 0x340ed0ccc89ec6989643d80d27503a1b2fe4aa0574ffd487c4521baa9c475531int, 1, vesta_modulus());
    let e: nat = 4 * e + 1;
    assert(quad(0x378c33673ae3c76ed84a1c0004c1834274c76348993bbf14ae6a685b45a01366int, -5, 1, vesta_modulus()) == 0x1e10d46aa96c41cb6e98c6f1a4e13b7e171adbec82de416bbef56e466944a681int) by (nonlinear_arith);
    lemma_quad(-5, e, 0x378c33673ae3c76ed84a1c0004c1834274c76348993bbf14ae6a685b45a01366int, 1, vesta_modulus());
    let e: nat = 4 * e + 1;
    assert(quad(0x1e10d46aa96c41cb6e98c6f1a4e13b7e171adbec82de416bbef56e466944a681int, -5, 1, vesta_modulus()) == 0x348a0cb1306e8105629cbe7c6b2c3302a8b14dcca02dc6130ee978a3bb24ccadint) by (nonlinear_arith);
    lemma_quad(-5, e, 0x1e10d46aa96c41cb6e98c6f1a4e13b7e171adbec82de416bbef56e466944a681int, 1, vesta_modulus());
    let e: nat = 4 * e + 1;
    assert(quad(0x348a0cb1306e8105629cbe7c6b2c3302a8b14dcca02dc6130ee978a3bb24ccadint, -5, 1, vesta_modulus()) == 0x659f0bf3f7596adbc4da06e7c750f36014b7fb4a16c0775b7c16486e245a1a8int) by (nonlinear_arith);
    lemma_quad(-5, e, 0x348a0cb1306e8105629cbe7c6b2c3302a8b14dcca02dc6130ee978a3bb24ccadint, 1, vesta_modulus());
    let e: nat = 4 * e + 1;
    assert(quad(0x659f0bf3f7596adbc4da06e7c750f36014b7fb4a16c0775b7c16486e245a1a8int, -5, 1, vesta_modulus()) == 0x2526539e38f1a8889a81a5fd57afbbcb59c11663fc79d75f244652f708f683a9int) by (nonlinear_arith);
    lemma_quad(-5, e, 0x659f0bf3f7596adbc4da06e7c750f36014b7fb4a16c0775b7c16486e245a1a8int, 1, vesta_modulus());
    let e: nat = 4 * e + 1;
    assert(quad(0x2526539e38f1a8889a81a5fd57afbbcb59c11663fc79d75f244652f708f683a9int, -5, 1, vesta_modulus()) == 0x17695bc0da2d5f04aa073f5591443c092e24885d02b627ef029eb63225d28f91int) by (nonlinear_arith);
    lemma_quad(-5, e, 0x2526539e38f1a8889a81a5fd57afbbcb59c11663fc79d75f244652f708f683a9int, 1, vesta_modulus());
    let e: nat = 4 * e + 1;
    assert(quad(0x17695bc0da2d5f04aa073f5591443c092e24885d02b627ef029eb63225d28f91int, -5, 1, vesta_modulus()) == 0x340c9e00ef95c0f88ceb473d36be4d710e210d8ed7de132e3e194646ac13d1b6int) by (nonlinear_arith);
    lemma_quad(-5, e, 0x17695bc0da2d5f04aa073f5591443c092e24885d02b627ef029eb63225d28f91int, 1, vesta_modulus());
    let e: nat = 4 * e + 1;
    assert(quad(0x340c9e00ef95c0f88ceb473d36be4d710e210d8ed7de132e3e194646ac13d1b6int, -5, 1, vesta_modulus()) == 0x3e399b5288d5117c68090fb0c6cb724fd302a56c83596e5c004f2190b3b686f2int) by (nonlinear_arith);
    lemma_quad(-5, e, 0x340c9e00ef95c0f88ceb473d36be4d710e210d8ed7de132e3e194646ac13d1b6int, 1, vesta_modulus());
    let e: nat = 4 * e + 1;
    assert(quad(0x3e399b5288d5117c68090fb0c6cb724fd302a56c83596e5c004f2190b3b686f2int, -5, 1, vesta_modulus()) == 0x221fc8778014cdb69eed26e72d6824083b829659f11bfc9061c00711e15b7ca4int) by (nonlinear_arith);
    lemma_quad(-5, e, 0x3e399b5288d5117c68090fb0c6cb724fd302a56c83596e5c004f2190b3b686f2int, 1, vesta_modulus());
    let e: nat = 4 * e + 1;
    assert(quad(0x221fc8778014cdb69eed26e72d6824083b829659f11bfc9061c00711e15b7ca4int, -5, 1, vesta_modulus()) == 0x1acc6dcf5b3104c4beadd665a57314beff93d4b292876d0328c566882df78cffint) by (nonlinear_arith);
    lemma_quad(-5, e, 0x221fc8778014cdb69eed26e72d6824083b829659f11bfc9061c00711e15b7ca4int, 1, vesta_modulus());
    let e: nat = 4 * e + 1;
    assert(quad(0x1acc6dcf5b3104c4beadd665a57314beff93d4b292876d0328c566882df78cffint, -5, 1, vesta_modulus()) == 0x333a934bd4b2db2bd6ffa152cb5ffaa41ab91ae37ebd26fcbfb75aba4b3719a5int) by (nonlinear_arith);
    lemma_quad(-5, e, 0x1acc6dcf5b3104c4beadd665a57314beff93d4b292876d0328c566882df78cffint, 1, vesta_modulus());
    let e: nat = 4 * e + 1;
    assert(quad(0x333a934bd4b2db2bd6ffa152cb5ffaa41ab91ae37ebd26fcbfb75aba4b3719a5int, -5, 1, vesta_modulus()) == 0x32ba6f4fa1fc5e3e947c7aa1cf92102952f3ae80bb6fe79bb87ed8351124e1fcint) by (nonlinear_arith);
    lemma_quad(-5, e, 0x333a934bd4b2db2bd6ffa152cb5ffaa41ab91ae37ebd26fcbfb75aba4b3719a5int, 1, vesta_modulus());
    let e: nat = 4 * e + 1;
    assert(quad(0x32ba6f4fa1fc5e3e947c7aa1cf92102952f3ae80bb6fe79bb87ed8351124e1fcint, -5, 1, vesta_modulus()) == 0x2eb50a098d2f4c2ab2862982993a0235adcba80030d66a5e915fe80ad78d9f64int) by (nonlinear_arith);
    lemma_quad(-5, e, 0x32ba6f4fa1fc5e3e947c7aa1cf92102952f3ae80bb6fe79bb87ed8351124e1fcint, 1, vesta_modulus());
    let e: nat = 4 * e + 1;
    assert(quad(0x2eb50a098d2f4c2ab2862982993a0235adcba80030d66a5e915fe80ad78d9f64int, -5, 1, vesta_modulus()) == 0x24b27c8db3404d82ca8770e3e852e57e1bbb8d9091347bd015a456039a8a0f47int) by (nonlinear_arith);
    lemma_quad(-5, e, 0x2eb50a098d2f4c2ab2862982993a0235adcba80030d66a5e915fe80ad78d9f64int, 1, vesta_modulus());
    let e: nat = 4 * e + 1;
    assert(quad(0x24b27c8db3404d82ca8770e3e852e57e1bbb8d9091347bd015a456039a8a0f47int, -5, 1, vesta_modulus()) == 0x2aa2242a4abbc341550bd52af26fe87802aeb5842218e8030e3b7bcbb232940bint) by (nonlinear_arith);
    lemma_quad(-5, e, 0x24b27c8db3404d82ca8770e3e852e57e1bbb8d9091347bd015a456039a8a0f47int, 1, vesta_modulus());
    let e: nat = 4 * e + 1;
    assert(quad(0x2aa2242a4abbc341550bd52af26fe87802aeb5842218e8030e3b7bcbb232940bint, -5, 1, vesta_modulus()) == 0x272c281a4ca18d67cd555f92c757bc5d8913c43c061ad5684d28454ae5474cd6int) by (nonlinear_arith);
    lemma_quad(-5, e, 0x2aa2242a4abbc341550bd52af26fe87802aeb5842218e8030e3b7bcbb232940bint, 1, vesta_modulus());
    let e: nat = 4 * e + 1;
    assert(quad(0x272c281a4ca18d67cd555f92c757bc5d8913c43c061ad5684d28454ae5474cd6int, -5, 1, vesta_modulus()) == 0x7c16948bb43de8947fd30115ed5519f3b9f2fc8bb69d62c56eab9992f0230a7int) by (nonlinear_arith);
    lemma_quad(-5, e, 0x272c281a4ca18d67cd555f92c757bc5d8913c43c061ad5684d28454ae5474cd6int, 1, vesta_modulus());
    let e: nat = 4 * e + 1;
    assert(quad(0x7c16948bb43de8947fd30115ed5519f3b9f2fc8bb69d62c56eab9992f0230a7int, -5, 1, vesta_modulus()) == 0x349d77faf5685d4711e8a7e9974a517b9db7136609e147b1ae9e89d5041723d2int) by (nonlinear_arith);
    lemma_quad(-5, e, 0x7c16948bb43de8947fd30115ed5519f3b9f2fc8bb69d62c56eab9992f0230a7int, 1, vesta_modulus());
    let e: nat = 4 * e + 1;
    assert(quad(0x349d77faf5685d4711e8a7e9974a517b9db7136609e147b1ae9e89d5041723d2int, -5, 1, vesta_modulus()) == 0x61ab1a5e56dee6ccadd1f604617065e539de1d72288339175a8de6c25cad2f9int) by (nonlinear_arith);
    lemma_quad(-5, e, 0x349d77faf5685d4711e8a7e9974a517b9db7136609e147b1ae9e89d5041723d2int, 1, vesta_modulus());
    let e: nat = 4 * e + 1;
    assert(quad(0x61ab1a5e56dee6ccadd1f604617065e539de1d72288339175a8de6c25cad2f9int, -5, 1, vesta_modulus()) == 0x2768776dfdf30cd564f3a8555145a54f06df62f23e59fd2c2cba23165b55b301int) by (nonlinear_arith);
    lemma_quad(-5, e, 0x61ab1a5e56dee6ccadd1f604617065e539de1d72288339175a8de6c25cad2f9int, 1, vesta_modulus());
    let e: nat = 4 * e + 1;
    assert(quad(0x2768776dfdf30cd564f3a8555145a54f06df62f23e59fd2c2cba23165b55b301int, -5, 1, vesta_modulus()) == 0x28da243ebac7e6a4bb4aaa87ffd12038c6440f9ac7da5b5f4f75f73726e7566fint) by (nonlinear_arith);
    lemma_quad(-5, e, 0x2768776dfdf30cd564f3a8555145a54f06df62f23e59fd2c2cba23165b55b301int, 1, vesta_modulus());
    let e: nat = 4 * e + 1;
    assert(quad(0x28da243ebac7e6a4bb4aaa87ffd12038c6440f9ac7da5b5f4f75f73726e7566fint, -5, 1, vesta_modulus()) == 0x6ce3517572f27b506d6b981575c8da93fe81f443850bcfbaabae02ac69811d8int) by (nonlinear_arith);
    lemma_quad(-5, e, 0x28da243ebac7e6a4bb4aaa87ffd12038c6440f9ac7da5b5f4f75f73726e7566fint, 1, vesta_modulus());
    let e: nat = 4 * e + 1;
    assert(quad(0x6ce3517572f27b506d6b981575c8da93fe81f443850bcfbaabae02ac69811d8int, -5, 1, vesta_modulus()) == 0x38c6eab175422acda590f2368ec1bdc124a6241af2978e4ad78f7d997b534f0fint) by (nonlinear_arith);
    lemma_quad(-5, e, 0x6ce3517572f27b506d6b981575c8da93fe81f443850bcfbaabae02ac69811d8int, 1, vesta_modulus());
    let e: nat = 4 * e + 1;
    assert(quad(0x38c6eab175422acda590f2368ec1bdc124a6241af2978e4ad78f7d997b534f0fint, -5, 1, vesta_modulus()) == 0x245201c073462e1cf11b2077fb260fe9a7b16551597d33021397c5e9e11586b2int) by (nonlinear_arith);
    lemma_quad(-5, e, 0x38c6eab175422acda590f2368ec1bdc124a6241af2978e4ad78f7d997b534f0fint, 1, vesta_modulus());
    let e: nat = 4 * e + 1;
    assert(quad(0x245201c073462e1cf11b2077fb260fe9a7b16551597d33021397c5e9e11586b2int, -5, 1, vesta_modulus()) == 0x3bbeefe8f078006cfff1bbbc17f7d4ebe0132219323e8e0a129af1ea404efaa5int) by (nonlinear_arith);
    lemma_quad(-5, e, 0x245201c073462e1cf11b2077fb260fe9a7b16551597d33021397c5e9e11586b2int, 1, vesta_modulus());
    let e: nat = 4 * e + 1;
    assert(quad(0x3bbeefe8f078006cfff1bbbc17f7d4ebe0132219323e8e0a129af1ea404efaa5int, -5, 1, vesta_modulus()) == 0x1f157ade24af6cb1e28784207793df034eda1b6290abf5238940cb1485b22220int) by (nonlinear_arith);
    lemma_quad(-5, e, 0x3bbeefe8f078006cfff1bbbc17f7d4ebe0132219323e8e0a129af1ea404efaa5int, 1, vesta_modulus());
    let e: nat = 4 * e + 1;
    assert(quad(0x1f157ade24af6cb1e28784207793df034eda1b6290abf5238940cb1485b22220int, -5, 1, vesta_modulus()) == 0x1dd8d765844a724f1f3e38872e0afb91b2bbd5e4c8e7df3b556f42d6491fd98cint) by (nonlinear_arith);
    lemma_quad(-5, e, 0x1f157ade24af6cb1e28784207793df034eda1b6290abf5238940cb1485b22220int, 1, vesta_modulus());
    let e: nat = 4 * e + 1;
    assert(quad(0x1dd8d765844a724f1f3e38872e0afb91b2bbd5e4c8e7df3b556f42d6491fd98cint, -5, 1, vesta_modulus()) == 0x2af02fe371d1eb2d757b683ae10ecdca8887ffbb468807159a4e142f137ea8dint) by (nonlinear_arith);
    lemma_quad(-5, e, 0x1dd8d765844a724f1f3e38872e0afb91b2bbd5e4c8e7df3b556f42d6491fd98cint, 1, vesta_modulus());
    let e: nat = 4 * e + 1;
    assert(quad(0x2af02fe371d1eb2d757b683ae10ecdca8887ffbb468807159a4e142f137ea8dint, -5, 1, vesta_modulus()) == 0x2c05d2caee9630551772910a3d2ecbac6fbb6f647e443d96e1609e049a9cf220int) by (nonlinear_arith);
    lemma_quad(-5, e, 0x2af02fe371d1eb2d757b683ae10ecdca8887ffbb468807159a4e142f137ea8dint, 1, vesta_modulus());
    let e: nat = 4 * e + 1;
    assert(quad(0x2c05d2caee9630551772910a3d2ecbac6fbb6f647e443d96e1609e049a9cf220int, -5, 1, vesta_modulus()) == 0x2ec69067262582bb51d5c89800eeb568cdb6086a9c1c9961701fb9e4c840cdf3int) by (nonlinear_arith);
    lemma_quad(-5, e, 0x2c05d2caee9630551772910a3d2ecbac6fbb6f647e443d96e1609e049a9cf220int, 1, vesta_modulus());
    let e: nat = 4 * e + 1;
    assert(quad(0x2ec69067262582bb51d5c89800eeb568cdb6086a9c1c9961701fb9e4c840cdf3int, -5, 1, vesta_modulus()) == 0x2c00eed44e1179cfe9fb4c4c4f630a0edbdab9549c4af28fcc29117c2dade871int) by (nonlinear_arith);
    lemma_quad(-5, e, 0x2ec69067262582bb51d5c89800eeb568cdb6086a9c1c9961701fb9e4c840cdf3int, 1, vesta_modulus());
    let e: nat = 4 * e + 1;
    assert(quad(0x2c00eed44e1179cfe9fb4c4c4f630a0edbdab9549c4af28fcc29117c2dade871int, -5, 1, vesta_modulus()) == 0x23009594fe2f075bb594fe59e8241d5e0cc07160a9ff6c4c559c7579bc4a9e2eint) by (nonlinear_arith);
    lemma_quad(-5, e, 0x2c00eed44e1179cfe9fb4c4c4f630a0edbdab9549c4af28fcc29117c2dade871int, 1, vesta_modulus());
    let e: nat = 4 * e + 1;
    assert(quad(0x23009594fe2f075bb594fe59e8241d5e0cc07160a9ff6c4c559c7579bc4a9e2eint, -5, 1, vesta_modulus()) == 0x7b3d121901cbbdbc97b36215b36baa9c6b3068cf1f6b0e2071ec0b09653d692int) by (nonlinear_arith);
    lemma_quad(-5, e, 0x23009594fe2f075bb594fe59e8241d5e0cc07160a9ff6c4c559c7579bc4a9e2eint, 1, vesta_modulus());
    let e: nat = 4 * e + 1;
    assert(quad(0x7b3d121901cbbdbc97b36215b36baa9c6b3068cf1f6b0e2071ec0b09653d692int, -5, 1, vesta_modulus()) == 0x1f43f6ead94188ede1932121365c301b76c342dc212a20d87471caa594cd8d44int) by (nonlinear_arith);
    lemma_quad(-5, e, 0x7b3d121901cbbdbc97b36215b36baa9c6b3068cf1f6b0e2071ec0b09653d692int, 1, vesta_modulus());
    let e: nat = 4 * e + 1;
    assert(quad(0x1f43f6ead94188ede1932121365c301b76c342dc212a20d87471caa594cd8d44int, -5, 1, vesta_modulus()) == 0xbe1dd5c81b4d84244e661509593a0baddd1320d07791e3fd665e2d9ebd302e8int) by (nonlinear_arith);
    lemma_quad(-5, e, 0x1f43f6ead94188ede1932121365c301b76c342dc212a20d87471caa594cd8d44int, 1, vesta_modulus());
    let e: nat = 4 * e + 1;
    assert(quad(0xbe1dd5c81b4d84244e661509593a0baddd1320d07791e3fd665e2d9ebd302e8int, -5, 1, vesta_modulus()) == 0x1845b00f0a8edf4e8a70516503343109edff4b41a55591851bf8347ed194cb7int) by (nonlinear_arith);
    lemma_quad(-5, e, 0xbe1dd5c81b4d84244e661509593a0baddd1320d07791e3fd665e2d9ebd302e8int, 1, vesta_modulus());
    let e: nat = 4 * e + 1;
    assert(quad(0x1845b00f0a8edf4e8a70516503343109edff4b41a55591851bf8347ed194cb7int, -5, 1, vesta_modulus()) == 0x3f754bed291c6fbe2cc70b4a0b60185cf620074ee0681ffa45ea94a697a7992int) by (nonlinear_arith);
    lemma_quad(-5, e, 0x1845b00f0a8edf4e8a70516503343109edff4b41a55591851bf8347ed194cb7int, 1, vesta_modulus());
    let e: nat = 4 * e + 1;
    assert(quad(0x3f754bed291c6fbe2cc70b4a0b60185cf620074ee0681ffa45ea94a697a7992int, -5, 1, vesta_modulus()) == 0x297ae40e11d7de931c8e61b40aa7cc5107768fa39f876a56b4d4ae46abca00aint) by (nonlinear_arith);
    lemma_quad(-5, e, 0x3f754bed291c6fbe2cc70b4a0b60185cf620074ee0681ffa45ea94a697a7992int, 1, vesta_modulus());
    let e: nat = 4 * e + 1;
    assert(quad(0x297ae40e11d7de931c8e61b40aa7cc5107768fa39f876a56b4d4ae46abca00aint, -5, 1, vesta_modulus()) == 0x1f617c6b750a475ae3a4d69288ad348d414bd63ddafdb2d61c7e77b2092c1477int) by (nonlinear_arith);
    lemma_quad(-5, e, 0x297ae40e11d7de931c8e61b40aa7cc5107768fa39f876a56b4d4ae46abca00aint, 1, vesta_modulus());
    let e: nat = 4 * e + 1;
    assert(quad(0x1f617c6b750a475ae3a4d69288ad348d414bd63ddafdb2d61c7e77b2092c1477int, -5, 1, vesta_modulus()) == 0x32e844602fcd5f7a64823191723af7c105047c9cdb3532d8eb2659aee292ee41int) by (nonlinear_arith);
    lemma_quad(-5, e, 0x1f617c6b750a475ae3a4d69288ad348d414bd63ddafdb2d61c7e77b2092c1477int, 1, vesta_modulus());
    let e: nat = 4 * e + 1;
    assert(quad(0x32e844602fcd5f7a64823191723af7c105047c9cdb3532d8eb2659aee292ee41int, -5, 1, vesta_modulus()) == 0x45793041094474c8001f08f83cd540b22b1178d872ca8e4104f9e95296cae8eint) by (nonlinear_arith);
    lemma_quad(-5, e, 0x32e844602fcd5f7a64823191723af7c105047c9cdb3532d8eb2659aee292ee41int, 1, vesta_modulus());
    let e: nat = 4 * e + 1;
    assert(quad(0x45793041094474c8001f08f83cd540b22b1178d872ca8e4104f9e95296cae8eint, -5, 1, vesta_modulus()) == 0x237311047372632b6204e63b1b40f13c0cc4d6fa359b120aa272f6548878d6f5int) by (nonlinear_arith);
    lemma_quad(-5, e, 0x45793041094474c8001f08f83cd540b22b1178d872ca8e4104f9e95296cae8eint, 1, vesta_modulus());
    let e: nat = 4 * e + 1;
    assert(quad(0x237311047372632b6204e63b1b40f13c0cc4d6fa359b120aa272f6548878d6f5int, -5, 1, vesta_modulus()) == 0x376f22a20f4fe870cd687d12b34f75eacdbd485300381049aedd1c8b790208baint) by (nonlinear_arith);
    lemma_quad(-5, e, 0x237311047372632b6204e63b1b40f13c0cc4d6fa359b120aa272f6548878d6f5int, 1, vesta_modulus());
    let e: nat = 4 * e + 1;
    assert(quad(0x376f22a20f4fe870cd687d12b34f75eacdbd485300381049aedd1c8b790208baint, -5, 1, vesta_modulus()) == 0x997eccd9ce86e6cbca70109a937434f889f51d2d189e1ed958e582464c5d89eint) by (nonlinear_arith);
    lemma_quad(-5, e, 0x376f22a20f4fe870cd687d12b34f75eacdbd485300381049aedd1c8b790208baint, 1, vesta_modulus());
    let e: nat = 4 * e + 1;
    assert(quad(0x997eccd9ce86e6cbca70109a937434f889f51d2d189e1ed958e582464c5d89eint, -5, 1, vesta_modulus()) == 0x16e8c3dd236e3110b4c6fc2dad7594239d070a66302f50e9c04f12c378a2541fint) by (nonlinear_arith);
    lemma_quad(-5, e, 0x997eccd9ce86e6cbca70109a937434f889f51d2d189e1ed958e582464c5d89eint, 1, vesta_modulus());
    let e: nat = 4 * e + 1;
    assert(quad(0x16e8c3dd236e3110b4c6fc2dad7594239d070a66302f50e9c04f12c378a2541fint, -5, 1, vesta_modulus()) == 0x1ddce87d9d1de15ec042969c6530213be661b60cede4fe8838fd5f88757b31bdint) by (nonlinear_arith);
    lemma_quad(-5, e, 0x16e8c3dd236e3110b4c6fc2dad7594239d070a66302f50e9c04f12c378a2541fint, 1, vesta_modulus());
    let e: nat = 4 * e + 1;
    assert(quad(0x1ddce87d9d1de15ec042969c6530213be661b60cede4fe8838fd5f88757b31bdint, -5, 1, vesta_modulus()) == 0xe44bfe65ea9db79d26d6998a4daefec15702af039db38c36df18e91383b60beint) by (nonlinear_arith);
    lemma_quad(-5, e, 0x1ddce87d9d1de15ec042969c6530213be661b60cede4fe8838fd5f88757b31bdint, 1, vesta_modulus());
    let e: nat = 4 * e + 1;
    assert(quad(0xe44bfe65ea9db79d26d6998a4daefec15702af039db38c36df18e91383b60beint, -5, 1, vesta_modulus()) == 0xec79f11dee3d3ccddb295eb4ff5dfeb78cc2d04ed76cadc41e8c54e86d70933int) by (nonlinear_arith);
    lemma_quad(-5, e, 0xe44bfe65ea9db79d26d6998a4daefec15702af039db38c36df18e91383b60beint, 1, vesta_modulus());
    let e: nat = 4 * e + 1;
    assert(quad(0xec79f11dee3d3ccddb295eb4ff5dfeb78cc2d04ed76cadc41e8c54e86d70933int, -5, 1, vesta_modulus()) == 0xe0eb3e584477a83d04265372c4d38881f37cfb2b2a5b5b8549042f09c2140baint) by (nonlinear_arith);
    lemma_quad(-5, e, 0xec79f11dee3d3ccddb295eb4ff5dfeb78cc2d04ed76cadc41e8c54e86d70933int, 1, vesta_modulus());
    let e: nat = 4 * e + 1;
    assert(quad(0xe0eb3e584477a83d04265372c4d38881f37cfb2b2a5b5b8549042f09c2140baint, -5, 1, vesta_modulus()) == 0x20622ef2342133935138f2b3784eedc43155ecf3fe4a7cdf6b5d22b4c3716638int) by (nonlinear_arith);
    lemma_quad(-5, e, 0xe0eb3e584477a83d04265372c4d38881f37cfb2b2a5b5b8549042f09c2140baint, 1, vesta_modulus());
    let e: nat = 4 * e + 1;
    assert(quad(0x20622ef2342133935138f2b3784eedc43155ecf3fe4a7cdf6b5d22b4c3716638int, -5, 1, vesta_modulus()) == 0x1e6d143b56b37dd18b92de816728886d7d926e9e5cb471960545279ad9e976cdint) by (nonlinear_arith);
    lemma_quad(-5, e, 0x20622ef2342133935138f2b3784eedc43155ecf3fe4a7cdf6b5d22b4c3716638int, 1, vesta_modulus());
    let e: nat = 4 * e + 1;
    assert(quad(0x1e6d143b56b37dd18b92de816728886d7d926e9e5cb471960545279ad9e976cdint, -5, 1, vesta_modulus()) == 0x256da4b6153600a1f7f99cd790094974b6f44808065d7cfd53f21a468ab5250dint) by (nonlinear_arith);
    lemma_quad(-5, e, 0x1e6d143b56b37dd18b92de816728886d7d926e9e5cb471960545279ad9e976cdint, 1, vesta_modulus());
    let e: nat = 4 * e + 1;
    assert(quad(0x256da4b6153600a1f7f99cd790094974b6f44808065d7cfd53f21a468ab5250dint, -5, 2, vesta_modulus()) == 0x364c704643d86ce71b655cbc389834d1e4fce684b654307eff031160952655f6int) by (nonlinear_arith);
    lemma_quad(-5, e, 0x256da4b6153600a1f7f99cd790094974b6f44808065d7cfd53f21a468ab5250dint, 2, vesta_modulus());
    let e: nat = 4 * e + 2;
    assert(quad(0x364c704643d86ce71b655cbc389834d1e4fce684b654307eff031160952655f6int, -5, 0, vesta_modulus()) == 0x3da1c82339364ab45cfb3fdd4323827bc92bf5e78d14871b435dfc3dbc79c4a0int) by (nonlinear_arith);
    lemma_quad(-5, e, 0x364c704643d86ce71b655cbc389834d1e4fce684b654307eff031160952655f6int, 0, vesta_modulus());
    let e: nat = 4 * e + 0;
    assert(quad(0x3da1c82339364ab45cfb3fdd4323827bc92bf5e78d14871b435dfc3dbc79c4a0int, -5, 0, vesta_modulus()) == 0x160165b4c8256b00d3cfe2a3619f5f62ccb443b5f6d5c4250e723b8a154e4928int) by (nonlinear_arith);
    lemma_quad(-5, e, 0x3da1c82339364ab45cfb3fdd4323827bc92bf5e78d14871b435dfc3dbc79c4a0int, 0, vesta_modulus());
    let e: nat = 4 * e + 0;
    assert(quad(0x160165b4c8256b00d3cfe2a3619f5f62ccb443b5f6d5c4250e723b8a154e4928int, -5, 3, vesta_modulus()) == 0x204e5a0655a53990ddf818b3c4990343afd9ae7ab3eadfa552471c13dc950386int) by (nonlinear_arith);
    lemma_quad(-5, e, 0x160165b4c8256b00d3cfe2a3619f5f62ccb443b5f6d5c4250e723b8a154e4928int, 3, vesta_modulus());
    let e: nat = 4 * e + 3;
    assert(quad(0x204e5a0655a53990ddf818b3c4990343afd9ae7ab3eadfa552471c13dc950386int, -5, 0, vesta_modulus()) == 0x2bcfc20096b43560569437a424cbcd1ebb627bc9d48fdf199ccd40a06ccab6d8int) by (nonlinear_arith);
    lemma_quad(-5, e, 0x204e5a0655a53990ddf818b3c4990343afd9ae7ab3eadfa552471c13dc950386int, 0, vesta_modulus());
    let e: nat = 4 * e + 0;
    assert(quad(0x2bcfc20096b43560569437a424cbcd1ebb627bc9d48fdf199ccd40a06ccab6d8int, -5, 0, vesta_modulus()) == 0x3aba9455955984bcdf972b93f414186ae7c63bba0fab98bcea224dc01d51440dint) by (nonlinear_arith);
    lemma_quad(-5, e, 0x2bcfc20096b43560569437a424cbcd1ebb627bc9d48fdf199ccd40a06ccab6d8int, 0, vesta_modulus());
    let e: nat = 4 * e + 0;
    assert(quad(0x3aba9455955984bcdf972b93f414186ae7c63bba0fab98bcea224dc01d51440dint, -5, 2, vesta_modulus()) == 0xdccf821ad3bc45e3f6daf73e118a91719a469fbdff12c9118a86aea16a53b63int) by (nonlinear_arith);
    lemma_quad(-5, e, 0x3aba9455955984bcdf972b93f414186ae7c63bba0fab98bcea224dc01d51440dint, 2, vesta_modulus());
    let e: nat = 4 * e + 2;
    assert(quad(0xdccf821ad3bc45e3f6daf73e118a91719a469fbdff12c9118a86aea16a53b63int, -5, 0, vesta_modulus()) == 0x24e14e53814fe5cbfa70dc8abde0018702e59daf2ab46c5afed487cc18406370int) by (nonlinear_arith);
    lemma_quad(-5, e, 0xdccf821ad3bc45e3f6daf73e118a91719a469fbdff12c9118a86aea16a53b63int, 0, vesta_modulus());
    let e: nat = 4 * e + 0;
    assert(quad(0x24e14e53814fe5cbfa70dc8abde0018702e59daf2ab46c5afed487cc18406370int, -5, 3, vesta_modulus()) == 0x52cc9c951e7d17f7f26ee6f9a85fba15c41c44373e5ed0153d64f7ce58f8f5cint) by (nonlinear_arith);
    lemma_quad(-5, e, 0x24e14e53814fe5cbfa70dc8abde0018702e59daf2ab46c5afed487cc18406370int, 3, vesta_modulus());
    let e: nat = 4 * e + 3;
    assert(quad(0x52cc9c951e7d17f7f26ee6f9a85fba15c41c44373e5ed0153d64f7ce58f8f5cint, -5, 0, vesta_modulus()) == 0x2b09bc269e30222a26c8ca631f204431dd0cde63a11018a40e686ad19e934a0int) by (nonlinear_arith);
    lemma_quad(-5, e, 0x52cc9c951e7d17f7f26ee6f9a85fba15c41c44373e5ed0153d64f7ce58f8f5cint, 0, vesta_modulus());
    let e: nat = 4 * e + 0;
    assert(quad(0x2b09bc269e30222a26c8ca631f204431dd0cde63a11018a40e686ad19e934a0int, -5, 2, vesta_modulus()) == 0x2fc96defd1b4ff971bde4cfc0ba350784c0e9cc0ab2ae6d801bcbab9dc0469b3int) by (nonlinear_arith);
    lemma_quad(-5, e, 0x2b09bc269e30222a26c8ca631f204431dd0cde63a11018a40e686ad19e934a0int, 2, vesta_modulus());
    let e: nat = 4 * e + 2;
    assert(quad(0x2fc96defd1b4ff971bde4cfc0ba350784c0e9cc0ab2ae6d801bcbab9dc0469b3int, -5, 3, vesta_modulus()) == 0x1ca49c38c276f8f8fff6980622cf0f9248c14f9ac5bddd1053a3380ab966f1f0int) by (nonlinear_arith);
    lemma_quad(-5, e, 0x2fc96defd1b4ff971bde4cfc0ba350784c0e9cc0ab2ae6d801bcbab9dc0469b3int, 3, vesta_modulus());
    let e: nat = 4 * e + 3;
    assert(quad(0x1ca49c38c276f8f8fff6980622cf0f9248c14f9ac5bddd1053a3380ab966f1f0int, -5, 3, vesta_modulus()) == 0x3206b228991edb81ad52a6c058c625ccbd678cc1846665a08e109e21fdaf99bfint) by (nonlinear_arith);
    lemma_quad(-5, e, 0x1ca49c38c276f8f8fff6980622cf0f9248c14f9ac5bddd1053a3380ab966f1f0int, 3, vesta_modulus());
    let e: nat = 4 * e + 3;
    assert(quad(0x3206b228991edb81ad52a6c058c625ccbd678cc1846665a08e109e21fdaf99bfint, -5, 3, vesta_modulus()) == 0x108c1808da0507dcbb72f0bf1fa37288fde68f3943aca350031a1fedd0c6befint) by (nonlinear_arith);
    lemma_quad(-5, e, 0x3206b228991edb81ad52a6c058c625ccbd678cc1846665a08e109e21fdaf99bfint, 3, vesta_modulus());
    let e: nat = 4 * e + 3;
    assert(quad(0x108c1808da0507dcbb72f0bf1fa37288fde68f3943aca350031a1fedd0c6befint, -5, 2, vesta_modulus()) == 0x90b3238aa0f89e0c0afa3b4cbc6a9ab5a52c1585875bf2374f5240d53ac44b6int) by (nonlinear_arith);
    lemma_quad(-5, e, 0x108c1808da0507dcbb72f0bf1fa37288fde68f3943aca350031a1fedd0c6befint, 2, vesta_modulus());
    let e: nat = 4 * e + 2;
    assert(quad(0x90b3238aa0f89e0c0afa3b4cbc6a9ab5a52c1585875bf2374f5240d53ac44b6int, -5, 2, vesta_modulus()) == 0x355974432df77ab81e9fd76621de951378b4db88dad7af586588e839d747bdedint) by (nonlinear_arith);
    lemma_quad(-5, e, 0x90b3238aa0f89e0c0afa3b4cbc6a9ab5a52c1585875bf2374f5240d53ac44b6int, 2, vesta_modulus());
    let e: nat = 4 * e + 2;
    assert(quad(0x355974432df77ab81e9fd76621de951378b4db88dad7af586588e839d747bdedint, -5, 2, vesta_modulus()) == 0x2683c7140641021d2b019f16e790bf74f288fe9e7db270c2c3ecfe4023f26eaeint) by (nonlinear_arith);
    lemma_quad(-5, e, 0x355974432df77ab81e9fd76621de951378b4db88dad7af586588e839d747bdedint, 2, vesta_modulus());
    let e: nat = 4 * e + 2;
    assert(quad(0x2683c7140641021d2b019f16e790bf74f288fe9e7db270c2c3ecfe4023f26eaeint, -5, 3, vesta_modulus()) == 0x8af863739124a4d8122f6514fb78a823be6765f1ed8e1bc511a980099ba3674int) by (nonlinear_arith);
    lemma_quad(-5, e, 0x2683c7140641021d2b019f16e790bf74f288fe9e7db270c2c3ecfe4023f26eaeint, 3, vesta_modulus());
    let e: nat = 4 * e + 3;
    assert(quad(0x8af863739124a4d8122f6514fb78a823be6765f1ed8e1bc511a980099ba3674int, -5, 1, vesta_modulus()) == 0x12896017a98e7e0104e4582a03e873cd0e191743eed56a82c0bfe0d06c15dc68int) by (nonlinear_arith);
    lemma_quad(-5, e, 0x8af863739124a4d8122f6514fb78a823be6765f1ed8e1bc511a980099ba3674int, 1, vesta_modulus());
    let e: nat = 4 * e + 1;
    assert(quad(0x12896017a98e7e0104e4582a03e873cd0e191743eed56a82c0bfe0d06c15dc68int, -5, 3, vesta_modulus()) == 0x1ff6775fc1712ad0578488bc12708ff8790d72371900d8b11ba3f17f582de045int) by (nonlinear_arith);
    lemma_quad(-5, e, 0x12896017a98e7e0104e4582a03e873cd0e191743eed56a82c0bfe0d06c15dc68int, 3, vesta_modulus());
    let e: nat = 4 * e + 3;
    assert(quad(0x1ff6775fc1712ad0578488bc12708ff8790d72371900d8b11ba3f17f582de045int, -5, 1, vesta_modulus()) == 0x3335a3ea8725391620cacce68c5ec9ee2913037ca9b4d47e38ce7850a6d09e10int) by (nonlinear_arith);
    lemma_quad(-5, e, 0x1ff6775fc1712ad0578488bc12708ff8790d72371900d8b11ba3f17f582de045int, 1, vesta_modulus());
    let e: nat = 4 * e + 1;
    assert(quad(0x3335a3ea8725391620cacce68c5ec9ee2913037ca9b4d47e38ce7850a6d09e10int, -5, 3, vesta_modulus()) == 0x3b2e7b830826fe4f3db21d07b9cf9f84ad9ef513042b940f74286adc8659161int) by (nonlinear_arith);
    lemma_quad(-5, e, 0x3335a3ea8725391620cacce68c5ec9ee2913037ca9b4d47e38ce7850a6d09e10int, 3, vesta_modulus());
    let e: nat = 4 * e + 3;
    assert(quad(0x3b2e7b830826fe4f3db21d07b9cf9f84ad9ef513042b940f74286adc8659161int, -5, 0, vesta_modulus()) == 0x3a099717070c1c5b759725d78dca903f17f52fdfba73a33879a5d01f86520310int) by (nonlinear_arith);
    lemma_quad(-5, e, 0x3b2e7b830826fe4f3db21d07b9cf9f84ad9ef513042b940f74286adc8659161int, 0, vesta_modulus());
    let e: nat = 4 * e + 0;
    assert(quad(0x3a099717070c1c5b759725d78dca903f17f52fdfba73a33879a5d01f86520310int, -5, 0, vesta_modulus()) == 0x187025b40468f4d5d4740db94d2cf0def12ace5a1fcca8d08e6dcbf69fc1d43aint) by (nonlinear_arith);
    lemma_quad(-5, e, 0x3a099717070c1c5b759725d78dca903f17f52fdfba73a33879a5d01f86520310int, 0, vesta_modulus());
    let e: nat = 4 * e + 0;
    assert(quad(0x187025b40468f4d5d4740db94d2cf0def12ace5a1fcca8d08e6dcbf69fc1d43aint, -5, 3, vesta_modulus()) == 0x38770ec058fe9dd2a4e40fe49aeb0bd14b626168f8863375d1b8b9849fc64a0fint) by (nonlinear_arith);
    lemma_quad(-5, e, 0x187025b40468f4d5d4740db94d2cf0def12ace5a1fcca8d08e6dcbf69fc1d43aint, 3, vesta_modulus());
    let e: nat = 4 * e + 3;
    assert(quad(0x38770ec058fe9dd2a4e40fe49aeb0bd14b626168f8863375d1b8b9849fc64a0fint, -5, 2, vesta_modulus()) == 0x327351b247e9ec70be992519a7e02f76ce59acec211bd1c171a93fbd759f3ad9int) by (nonlinear_arith);
    lemma_quad(-5, e, 0x38770ec058fe9dd2a4e40fe49aeb0bd14b626168f8863375d1b8b9849fc64a0fint, 2, vesta_modulus());
    let e: nat = 4 * e + 2;
    assert(quad(0x327351b247e9ec70be992519a7e02f76ce59acec211bd1c171a93fbd759f3ad9int, -5, 0, vesta_modulus()) == 0x2f0bec179c1c0720c324b529e367bee938b647e5adcc27dbb8bdd630e9c59ce9int) by (nonlinear_arith);
    lemma_quad(-5, e, 0x327351b247e9ec70be992519a7e02f76ce59acec211bd1c171a93fbd759f3ad9int, 0, vesta_modulus());
    let e: nat = 4 * e + 0;
    assert(quad(0x2f0bec179c1c0720c324b529e367bee938b647e5adcc27dbb8bdd630e9c59ce9int, -5, 1, vesta_modulus()) == 0x25997fa86a157eca8b11bf71de9a04fb1641649cbef671b7a8ce50ec9d40c090int) by (nonlinear_arith);
    lemma_quad(-5, e, 0x2f0bec179c1c0720c324b529e367bee938b647e5adcc27dbb8bdd630e9c59ce9int, 1, vesta_modulus());
    let e: nat = 4 * e + 1;
    assert(quad(0x25997fa86a157eca8b11bf71de9a04fb1641649cbef671b7a8ce50ec9d40c090int, -5, 0, vesta_modulus()) == 0xf7374ff50021f7c64c860fd8d0c513f22943e4b596e7aa305d27fc8ba69e82fint) by (nonlinear_arith);
    lemma_quad(-5, e, 0x25997fa86a157eca8b11bf71de9a04fb1641649cbef671b7a8ce50ec9d40c090int, 0, vesta_modulus());
    let e: nat = 4 * e + 0;
    assert(quad(0xf7374ff50021f7c64c860fd8d0c513f22943e4b596e7aa305d27fc8ba69e82fint, -5, 2, vesta_modulus()) == 0x2d60c3abff2cd58e2d88644979dee9f788102f608df64045704e81bf5e2ac679int) by (nonlinear_arith);
    lemma_quad(-5, e, 0xf7374ff50021f7c64c860fd8d0c513f22943e4b596e7aa305d27fc8ba69e82fint, 2, vesta_modulus());
    let e: nat = 4 * e + 2;
    assert(quad(0x2d60c3abff2cd58e2d88644979dee9f788102f608df64045704e81bf5e2ac679int, -5, 1, vesta_modulus()) == 0x2a6d34d15d46ff7709d69997f3830f297d1cce6fda33e5e091147a8647578beeint) by (nonlinear_arith);
    lemma_quad(-5, e, 0x2d60c3abff2cd58e2d88644979dee9f788102f608df64045704e81bf5e2ac679int, 1, vesta_modulus());
    let e: nat = 4 * e + 1;
    assert(quad(0x2a6d34d15d46ff7709d69997f3830f297d1cce6fda33e5e091147a8647578beeint, -5, 3, vesta_modulus()) == 0x23259cc2249e6274eaa38f9e0d2370112dfb60becc2676038d8a1cdff7fbe5e8int) by (nonlinear_arith);
    lemma_quad(-5, e, 0x2a6d34d15d46ff7709d69997f3830f297d1cce6fda33e5e091147a8647578beeint, 3, vesta_modulus());
    let e: nat = 4 * e + 3;
    assert(quad(0x23259cc2249e6274eaa38f9e0d2370112dfb60becc2676038d8a1cdff7fbe5e8int, -5, 1, vesta_modulus()) == 0x349d9d6217665063bfa598faa0ff89727970ff7506a469cf1ac70422a7912343int) by (nonlinear_arith);
    lemma_quad(-5, e, 0x23259cc2249e6274eaa38f9e0d2370112dfb60becc2676038d8a1cdff7fbe5e8int, 1, vesta_modulus());
    let e: nat = 4 * e + 1;
    assert(quad(0x349d9d6217665063bfa598faa0ff89727970ff7506a469cf1ac70422a7912343int, -5, 2, vesta_modulus()) == 0x24de32f7fdc4b13c6193f94b5f5b9d42a841f1779d95777ead670ba532f2ba6aint) by (nonlinear_arith);
    lemma_quad(-5, e, 0x349d9d6217665063bfa598faa0ff89727970ff7506a469cf1ac70422a7912343int, 2, vesta_modulus());
    let e: nat = 4 * e + 2;
    assert(quad(0x24de32f7fdc4b13c6193f94b5f5b9d42a841f1779d95777ead670ba532f2ba6aint, -5, 1, vesta_modulus()) == 0x153f3723ec2e209d50b996022f4b3fb088c9ed52e15c076efca57f6fb3cd49d6int) by (nonlinear_arith);
    lemma_quad(-5, e, 0x24de32f7fdc4b13c6193f94b5f5b9d42a841f1779d95777ead670ba532f2ba6aint, 1, vesta_modulus());
    let e: nat = 4 * e + 1;
    assert(quad(0x153f3723ec2e209d50b996022f4b3fb088c9ed52e15c076efca57f6fb3cd49d6int, -5, 1, vesta_modulus()) == 0x1eb4bb1e9150e1285121fd9199bfa8ffa065dc64c12312c4ed9d22f6592677d1int) by (nonlinear_arith);
    lemma_quad(-5, e, 0x153f3723ec2e209d50b996022f4b3fb088c9ed52e15c076efca57f6fb3cd49d6int, 1, vesta_modulus());
    let e: nat = 4 * e + 1;
    assert(quad(0x1eb4bb1e9150e1285121fd9199bfa8ffa065dc64c12312c4ed9d22f6592677d1int, -5, 2, vesta_modulus()) == 0x249e40cb4fd0b88a80fd359d61f1748797fd2182ef5564d9910cbc6e7b11f2e6int) by (nonlinear_arith);
    lemma_quad(-5, e, 0x1eb4bb1e9150e1285121fd9199bfa8ffa065dc64c12312c4ed9d22f6592677d1int, 2, vesta_modulus());
    let e: nat = 4 * e + 2;
    assert(quad(0x249e40cb4fd0b88a80fd359d61f1748797fd2182ef5564d9910cbc6e7b11f2e6int, -5, 3, vesta_modulus()) == 0x180e05de56c401e73364930514b83c1b57cd5f66b1795420fd3c506e63d0c4d8int) by (nonlinear_arith);
    lemma_quad(-5, e, 0x249e40cb4fd0b88a80fd359d61f1748797fd2182ef5564d9910cbc6e7b11f2e6int, 3, vesta_modulus());
    let e: nat = 4 * e + 3;
    assert(quad(0x180e05de56c401e73364930514b83c1b57cd5f66b1795420fd3c506e63d0c4d8int, -5, 0, vesta_modulus()) == 0x2bc0fcd88a548900833eaa5a79afdbab331bde954f21804bdc60a718361f8303int) by (nonlinear_arith);
    lemma_quad(-5, e, 0x180e05de56c401e73364930514b83c1b57cd5f66b1795420fd3c506e63d0c4d8int, 0, vesta_modulus());
    let e: nat = 4 * e + 0;
    assert(quad(0x2bc0fcd88a548900833eaa5a79afdbab331bde954f21804bdc60a718361f8303int, -5, 3, vesta_modulus()) == 0x754611ac12f2120ded3899e9d69d662daa666e3764a4a8cbac8310aff2a9912int) by (nonlinear_arith);
    lemma_quad(-5, e, 0x2bc0fcd88a548900833eaa5a79afdbab331bde954f21804bdc60a718361f8303int, 3, vesta_modulus());
    let e: nat = 4 * e + 3;
    assert(quad(0x754611ac12f2120ded3899e9d69d662daa666e3764a4a8cbac8310aff2a9912int, -5, 3, vesta_modulus()) == 0x6b07c77b8c2a7e0cc73ba02c282085637e0db8b2797dcfa4a9da5bb8a0514aeint) by (nonlinear_arith);
    lemma_quad(-5, e, 0x754611ac12f2120ded3899e9d69d662daa666e3764a4a8cbac8310aff2a9912int, 3, vesta_modulus());
    let e: nat = 4 * e + 3;
    assert(quad(0x6b07c77b8c2a7e0cc73ba02c282085637e0db8b2797dcfa4a9da5bb8a0514aeint, -5, 2, vesta_modulus()) == 0x25ebe2d71737da8070a039d44008742ce28113d48e8e99caaa2a6f597296baf6int) by (nonlinear_arith);
    lemma_quad(-5, e, 0x6b07c77b8c2a7e0cc73ba02c282085637e0db8b2797dcfa4a9da5bb8a0514aeint, 2, vesta_modulus());
    let e: nat = 4 * e + 2;
    assert(quad(0x25ebe2d71737da8070a039d44008742ce28113d48e8e99caaa2a6f597296baf6int, -5, 1, vesta_modulus()) == 0x3e85732d7fbb2be47bbfa3150ab3d740bc6bfda9aa220c388291e5e379cd0346int) by (nonlinear_arith);
    lemma_quad(-5, e, 0x25ebe2d71737da8070a039d44008742ce28113d48e8e99caaa2a6f597296baf6int, 1, vesta_modulus());
    let e: nat = 4 * e + 1;
    assert(quad(0x3e85732d7fbb2be47bbfa3150ab3d740bc6bfda9aa220c388291e5e379cd0346int, -5, 0, vesta_modulus()) == 0x335a061646ae8e353fef3bd73749411552a256519e4d5b332a2952e0a98f1a6int) by (nonlinear_arith);
    lemma_quad(-5, e, 0x3e85732d7fbb2be47bbfa3150ab3d740bc6bfda9aa220c388291e5e379cd0346int, 0, vesta_modulus());
    let e: nat = 4 * e + 0;
    assert(quad(0x335a061646ae8e353fef3bd73749411552a256519e4d5b332a2952e0a98f1a6int, -5, 0, vesta_modulus()) == 0x2a349cd7a2ac1acfe6db179b818edd0654254cfe72aa832e0add45e7291beaaeint) by (nonlinear_arith);
    lemma_quad(-5, e, 0x335a061646ae8e353fef3bd73749411552a256519e4d5b332a2952e0a98f1a6int, 0, vesta_modulus());
    let e: nat = 4 * e + 0;
    assert(quad(0x2a349cd7a2ac1acfe6db179b818edd0654254cfe72aa832e0add45e7291beaaeint, -5, 2, vesta_modulus()) == 0x17455f7ae481c4b9cbbdd8f7121a7f5dcde0a8456a353c9f4d8c38d3ea49a48aint) by (nonlinear_arith);
    lemma_quad(-5, e, 0x2a349cd7a2ac1acfe6db179b818edd0654254cfe72aa832e0add45e7291beaaeint, 2, vesta_modulus());
    let e: nat = 4 * e + 2;
    assert(quad(0x17455f7ae481c4b9cbbdd8f7121a7f5dcde0a8456a353c9f4d8c38d3ea49a48aint, -5, 3, vesta_modulus()) == 0x1e5c9dc96b31ff65f14b7ec18ea0e7dbd00faaa2ac53cedcc2d15bd5714dca57int) by (nonlinear_arith);
    lemma_quad(-5, e, 0x17455f7ae481c4b9cbbdd8f7121a7f5dcde0a8456a353c9f4d8c38d3ea49a48aint, 3, vesta_modulus());
    let e: nat = 4 * e + 3;
    assert(quad(0x1e5c9dc96b31ff65f14b7ec18ea0e7dbd00faaa2ac53cedcc2d15bd5714dca57int, -5, 0, vesta_modulus()) == 0x1a67b9ec0c4dc74c12f6d2488b34dd142966f8c325bca652dc3c9e7387d5e9c6int) by (nonlinear_arith);
    lemma_quad(-5, e, 0x1e5c9dc96b31ff65f14b7ec18ea0e7dbd00faaa2ac53cedcc2d15bd5714dca57int, 0, vesta_modulus());
    let e: nat = 4 * e + 0;
    assert(quad(0x1a67b9ec0c4dc74c12f6d2488b34dd142966f8c325bca652dc3c9e7387d5e9c6int, -5, 0, vesta_modulus()) == 0x3397bfb465b878f1e36aaea383ba6961b6c3f99af38276c533771bf36dcf2fb2int) by (nonlinear_arith);
    lemma_quad(-5, e, 0x1a67b9ec0c4dc74c12f6d2488b34dd142966f8c325bca652dc3c9e7387d5e9c6int, 0, vesta_modulus());
    let e: nat = 4 * e + 0;
    assert(quad(0x3397bfb465b878f1e36aaea383ba6961b6c3f99af38276c533771bf36dcf2fb2int, -5, 0, vesta_modulus()) == 0x7fc66d47dabe55b8cd7fd5b13dba84e414b3c90162b739c538f587bc0a1c800int) by (nonlinear_arith);
    lemma_quad(-5, e, 0x3397bfb465b878f1e36aaea383ba6961b6c3f99af38276c533771bf36dcf2fb2int, 0, vesta_modulus());
    let e: nat = 4 * e + 0;
    assert(quad(0x7fc66d47dabe55b8cd7fd5b13dba84e414b3c90162b739c538f587bc0a1c800int, -5, 0, vesta_modulus()) == 0x201fcc820e4d281df5110de6379ecb5c8f6e7f081cfe963c75bdf930ee403a28int) by (nonlinear_arith);
    lemma_quad(-5, e, 0x7fc66d47dabe55b8cd7fd5b13dba84e414b3c90162b739c538f587bc0a1c800int, 0, vesta_modulus());
    let e: nat = 4 * e + 0;
    assert(quad(0x201fcc820e4d281df5110de6379ecb5c8f6e7f081cfe963c75bdf930ee403a28int, -5, 0, vesta_modulus()) == 0x21266be4c6c008df67b0190feb4ca89b3eed1abcde917aec35ffa2fd5d903553int) by (nonlinear_arith);
    lemma_quad(-5, e, 0x201fcc820e4d281df5110de6379ecb5c8f6e7f081cfe963c75bdf930ee403a28int, 0, vesta_modulus());
    let e: nat = 4 * e + 0;
    assert(quad(0x21266be4c6c008df67b0190feb4ca89b3eed1abcde917aec35ffa2fd5d903553int, -5, 0, vesta_modulus()) == 0x1547af19faf25cd83feaa16857e30a6d7f64784c173c3989f63df447a1553278int) by (nonlinear_arith);
    lemma_quad(-5, e, 0x21266be4c6c008df67b0190feb4ca89b3eed1abcde917aec35ffa2fd5d903553int, 0, vesta_modulus());
    let e: nat = 4 * e + 0;
    assert(quad(0x1547af19faf25cd83feaa16857e30a6d7f64784c173c3989f63df447a1553278int, -5, 0, vesta_modulus()) == 0x2d9bfb7accf2582410d3650285013c1c66b175a1f22cf7de38c5ba5f8fc7f55fint) by (nonlinear_arith);
    lemma_quad(-5, e, 0x1547af19faf25cd83feaa16857e30a6d7f64784c173c3989f63df447a1553278int, 0, vesta_modulus());
    let e: nat = 4 * e + 0;
    assert(quad(0x2d9bfb7accf2582410d3650285013c1c66b175a1f22cf7de38c5ba5f8fc7f55fint, -5, 0, vesta_modulus()) == 0x155777a6ffd9a749d187de5cdeec214c25487d0e66f8640ed9c67664859e6e75int) by (nonlinear_arith);
    lemma_quad(-5, e, 0x2d9bfb7accf2582410d3650285013c1c66b175a1f22cf7de38c5ba5f8fc7f55fint, 0, vesta_modulus());
    let e: nat = 4 * e + 0;
    assert(quad(0x155777a6ffd9a749d187de5cdeec214c25487d0e66f8640ed9c67664859e6e75int, -5, 0, vesta_modulus()) == 0x1c99cc4fdfdeabdeb3149b11159a6af4343b8e590d08dcbd748cd89ae5ddef64int) by (nonlinear_arith);
    lemma_quad(-5, e, 0x155777a6ffd9a749d187de5cdeec214c25487d0e66f8640ed9c67664859e6e75int, 0, vesta_modulus());
    let e: nat = 4 * e + 0;
    assert(quad(0x1c99cc4fdfdeabdeb3149b11159a6af4343b8e590d08dcbd748cd89ae5ddef64int, -5, 0, vesta_modulus()) == 0x35fd769f74aacf7be1be265a0bcdf687509d4f2742346534e2406faa478e0976int) by (nonlinear_arith);
    lemma_quad(-5, e, 0x1c99cc4fdfdeabdeb3149b11159a6af4343b8e590d08dcbd748cd89ae5ddef64int, 0, vesta_modulus());
    let e: nat = 4 * e + 0;
    assert(quad(0x35fd769f74aacf7be1be265a0bcdf687509d4f2742346534e2406faa478e0976int, -5, 0, vesta_modulus()) == 0x1eca9393244264dafdce600b96f3afb65079b545c48382412917e285109ade18int) by (nonlinear_arith);
    lemma_quad(-5, e, 0x35fd769f74aacf7be1be265a0bcdf687509d4f2742346534e2406faa478e0976int, 0, vesta_modulus());
    let e: nat = 4 * e + 0;
    assert(quad(0x1eca9393244264dafdce600b96f3afb65079b545c48382412917e285109ade18int, -5, 0, vesta_modulus()) == 0x10a733cdffbc3fbef8fc13e3fd938cfde3c6a5fa2992f2614b65fbe9401ebca8int) by (nonlinear_arith);
    lemma_quad(-5, e, 0x1eca9393244264dafdce600b96f3afb65079b545c48382412917e285109ade18int, 0, vesta_modulus());
    let e: nat = 4 * e + 0;
    assert(quad(0x10a733cdffbc3fbef8fc13e3fd938cfde3c6a5fa2992f2614b65fbe9401ebca8int, -5, 0, vesta_modulus()) == 0x1b32b11a120a2d538ad1af7d79bd37ac7c176c51f4f94b46fe9bd6aa8bfee6f8int) by (nonlinear_arith);
    lemma_quad(-5, e, 0x10a733cdffbc3fbef8fc13e3fd938cfde3c6a5fa2992f2614b65fbe9401ebca8int, 0, vesta_modulus());
    let e: nat = 4 * e + 0;
    assert(quad(0x1b32b11a120a2d538ad1af7d79bd37ac7c176c51f4f94b46fe9bd6aa8bfee6f8int, -5, 0, vesta_modulus()) == 0x11446c227d1237ab7377b869634d523cfae8fdd16cacaf9b72cd0699bb05a00aint) by (nonlinear_arith);
    lemma_quad(-5, e, 0x1b32b11a120a2d538ad1af7d79bd37ac7c176c51f4f94b46fe9bd6aa8bfee6f8int, 0, vesta_modulus());
    let e: nat = 4 * e + 0;
    assert(quad(0x11446c227d1237ab7377b869634d523cfae8fdd16cacaf9b72cd0699bb05a00aint, -5, 0, vesta_modulus()) == 0x37da45228bc002aed6f884442caf9d1eaafd97028d45642841eef0864af73208int) by (nonlinear_arith);
    lemma_quad(-5, e, 0x11446c227d1237ab7377b869634d523cfae8fdd16cacaf9b72cd0699bb05a00aint, 0, vesta_modulus());
    let e: nat = 4 * e + 0;
    assert(quad(0x37da45228bc002aed6f884442caf9d1eaafd97028d45642841eef0864af73208int, -5, 0, vesta_modulus()) == 0x6819a58283e528e511db4d81cf70f5a0fed467d47c033af2aa9d2e050aa0e4fint) by (nonlinear_arith);
    lemma_quad(-5, e, 0x37da45228bc002aed6f884442caf9d1eaafd97028d45642841eef0864af73208int, 0, vesta_modulus());
    let e: nat = 4 * e + 0;
    assert(e == 0x1555555555555555555555555555555560c232feaddc3849d96cf90b00000000int);
}

/// All points of the Vesta curve have its order, and the endomorphism multiplies with a cube root
/// of one.
pub proof fn lemma_vesta_group()
    ensures
        is_group::<Vesta>(),
{
    lemma_vesta_points();
    lemma_vesta_chain_15();
    lemma_vesta_power();
    lemma_axis::<Vesta>(0x1555555555555555555555555555555560c232feaddc3849d96cf90b00000000nat, 0x6819a58283e528e511db4d81cf70f5a0fed467d47c033af2aa9d2e050aa0e4fint);
    lemma_relation::<Vesta>(vesta_generator(), vesta_image(), 0x49e69d1640f049157fcae1c700000000nat, 0x49e69d1640a899538cb1279300000001nat);
    assert(0x49e69d1640f049157fcae1c700000000int * 0x49e69d1640f049157fcae1c700000000int + 0x49e69d1640f049157fcae1c700000000int * 0x49e69d1640a899538cb1279300000001int + 0x49e69d1640a899538cb1279300000001int * 0x49e69d1640a899538cb1279300000001int == 0x40000000000000000000000000000000224698fc094cf91b992d30ed00000001int) by (nonlinear_arith);
    assert((0x49e69d1640a899538cb1279300000001int * 0x12ccca834acdba712caad5dc57aab1b01d1f8bd237ad31491dad5ebdfdfe4ab9int) % 0x40000000000000000000000000000000224698fc094cf91b992d30ed00000001int == 0x49e69d1640f049157fcae1c700000000int) by (nonlinear_arith);
    assert(0x49e69d1640f049157fcae1c700000000int % 0x40000000000000000000000000000000224698fc094cf91b992d30ed00000001int == 0x49e69d1640f049157fcae1c700000000int);
    lemma_group_from_relation::<Vesta>(0x40000000000000000000000000000000224698fc0994a8dd8c46eb2100000000int, 2, 0x49e69d1640f049157fcae1c700000000nat, 0x49e69d1640a899538cb1279300000001nat);
}

} // verus!
