//! The modulus of the Jubjub base field is prime, and the parameter of the curve is no square.
//!
//! The certificates are of the kind of those of the Pallas and Vesta moduli.
use crate::field::certificates::{
    lemma_prime_2, lemma_prime_11, lemma_certify, lemma_power_of_power, lemma_quad, quad,
};
use crate::field::congruence::congruent;
use crate::field::fermat::lemma_nonsquare;
use crate::field::primes::{
    is_prime, lemma_certified_prime, lemma_divides_orders, lemma_divides_orders_next,
    lemma_order_prime,
};
use crate::pedersen::edwards::{base_modulus, edwards_d};
use vstd::arithmetic::power::{lemma_pow0, lemma_pow1, lemma_pow_adds, pow};
use vstd::prelude::*;

verus! {

proof fn lemma_power_89_c()
    ensures
        pow(78int, 11nat) % 89int == 1int,
{
    lemma_pow0(78int);
    let e: nat = 0;
    assert(quad(1int, 78int, 2, 89int) == 32int) by (nonlinear_arith);
    lemma_quad(78int, e, 1int, 2, 89int);
    let e: nat = 4 * e + 2;
    assert(quad(32int, 78int, 3, 89int) == 1int) by (nonlinear_arith);
    lemma_quad(78int, e, 32int, 3, 89int);
    let e: nat = 4 * e + 3;
    assert(e == 11int);
}

proof fn lemma_prime_89()
    ensures
        is_prime(89int),
{
    lemma_prime_11();
    lemma_pow1(11int);
    lemma_pow0(2);
    lemma_pow1(78int);
    lemma_power_89_c();
    lemma_certify(89int, 78int, 11nat, 11int, 1, 78int, 37int);
    lemma_certified_prime(89int, 78int, 11nat, 11int, 1, 2, 0, 11int, 1, 12int);
}

proof fn lemma_power_179_c()
    ensures
        pow(4int, 89nat) % 179int == 1int,
{
    lemma_pow0(4int);
    let e: nat = 0;
    assert(quad(1int, 4int, 1, 179int) == 4int) by (nonlinear_arith);
    lemma_quad(4int, e, 1int, 1, 179int);
    let e: nat = 4 * e + 1;
    assert(quad(4int, 4int, 1, 179int) == 129int) by (nonlinear_arith);
    lemma_quad(4int, e, 4int, 1, 179int);
    let e: nat = 4 * e + 1;
    assert(quad(129int, 4int, 2, 179int) == 39int) by (nonlinear_arith);
    lemma_quad(4int, e, 129int, 2, 179int);
    let e: nat = 4 * e + 2;
    assert(quad(39int, 4int, 1, 179int) == 1int) by (nonlinear_arith);
    lemma_quad(4int, e, 39int, 1, 179int);
    let e: nat = 4 * e + 1;
    assert(e == 89int);
}

proof fn lemma_prime_179()
    ensures
        is_prime(179int),
{
    lemma_prime_89();
    lemma_pow1(89int);
    lemma_pow0(2);
    lemma_pow1(4int);
    lemma_power_179_c();
    lemma_certify(179int, 4int, 89nat, 89int, 1, 4int, 60int);
    lemma_certified_prime(179int, 4int, 89nat, 89int, 1, 2, 0, 89int, 1, 90int);
}

proof fn lemma_power_359_c()
    ensures
        pow(4int, 179nat) % 359int == 1int,
{
    lemma_pow0(4int);
    let e: nat = 0;
    assert(quad(1int, 4int, 2, 359int) == 16int) by (nonlinear_arith);
    lemma_quad(4int, e, 1int, 2, 359int);
    let e: nat = 4 * e + 2;
    assert(quad(16int, 4int, 3, 359int) == 107int) by (nonlinear_arith);
    lemma_quad(4int, e, 16int, 3, 359int);
    let e: nat = 4 * e + 3;
    assert(quad(107int, 4int, 0, 359int) == 85int) by (nonlinear_arith);
    lemma_quad(4int, e, 107int, 0, 359int);
    let e: nat = 4 * e + 0;
    assert(quad(85int, 4int, 3, 359int) == 1int) by (nonlinear_arith);
    lemma_quad(4int, e, 85int, 3, 359int);
    let e: nat = 4 * e + 3;
    assert(e == 179int);
}

proof fn lemma_prime_359()
    ensures
        is_prime(359int),
{
    lemma_prime_179();
    lemma_pow1(179int);
    lemma_pow0(2);
    lemma_pow1(4int);
    lemma_power_359_c();
    lemma_certify(359int, 4int, 179nat, 179int, 1, 4int, 120int);
    lemma_certified_prime(359int, 4int, 179nat, 179int, 1, 2, 0, 179int, 1, 180int);
}

proof fn lemma_power_110573_c()
    ensures
        pow(49205int, 359nat) % 110573int == 1int,
{
    lemma_pow0(49205int);
    let e: nat = 0;
    assert(quad(1int, 49205int, 1, 110573int) == 49205int) by (nonlinear_arith);
    lemma_quad(49205int, e, 1int, 1, 110573int);
    let e: nat = 4 * e + 1;
    assert(quad(49205int, 49205int, 1, 110573int) == 69360int) by (nonlinear_arith);
    lemma_quad(49205int, e, 49205int, 1, 110573int);
    let e: nat = 4 * e + 1;
    assert(quad(69360int, 49205int, 2, 110573int) == 28669int) by (nonlinear_arith);
    lemma_quad(49205int, e, 69360int, 2, 110573int);
    let e: nat = 4 * e + 2;
    assert(quad(28669int, 49205int, 1, 110573int) == 73381int) by (nonlinear_arith);
    lemma_quad(49205int, e, 28669int, 1, 110573int);
    let e: nat = 4 * e + 1;
    assert(quad(73381int, 49205int, 3, 110573int) == 1int) by (nonlinear_arith);
    lemma_quad(49205int, e, 73381int, 3, 110573int);
    let e: nat = 4 * e + 3;
    assert(e == 359int);
}

proof fn lemma_prime_110573()
    ensures
        is_prime(110573int),
{
    lemma_prime_359();
    lemma_pow1(359int);
    lemma_pow0(2);
    lemma_pow1(49205int);
    lemma_power_110573_c();
    lemma_certify(110573int, 49205int, 359nat, 359int, 1, 49205int, 49392int);
    lemma_certified_prime(110573int, 49205int, 359nat, 359int, 1, 2, 0, 359int, 1, 360int);
}

proof fn lemma_power_2653753_c()
    ensures
        pow(854698int, 110573nat) % 2653753int == 1int,
{
    lemma_pow0(854698int);
    let e: nat = 0;
    assert(quad(1int, 854698int, 1, 2653753int) == 854698int) by (nonlinear_arith);
    lemma_quad(854698int, e, 1int, 1, 2653753int);
    let e: nat = 4 * e + 1;
    assert(quad(854698int, 854698int, 2, 2653753int) == 1498176int) by (nonlinear_arith);
    lemma_quad(854698int, e, 854698int, 2, 2653753int);
    let e: nat = 4 * e + 2;
    assert(quad(1498176int, 854698int, 2, 2653753int) == 711392int) by (nonlinear_arith);
    lemma_quad(854698int, e, 1498176int, 2, 2653753int);
    let e: nat = 4 * e + 2;
    assert(quad(711392int, 854698int, 3, 2653753int) == 313871int) by (nonlinear_arith);
    lemma_quad(854698int, e, 711392int, 3, 2653753int);
    let e: nat = 4 * e + 3;
    assert(quad(313871int, 854698int, 3, 2653753int) == 2393443int) by (nonlinear_arith);
    lemma_quad(854698int, e, 313871int, 3, 2653753int);
    let e: nat = 4 * e + 3;
    assert(quad(2393443int, 854698int, 3, 2653753int) == 693093int) by (nonlinear_arith);
    lemma_quad(854698int, e, 2393443int, 3, 2653753int);
    let e: nat = 4 * e + 3;
    assert(quad(693093int, 854698int, 2, 2653753int) == 2493215int) by (nonlinear_arith);
    lemma_quad(854698int, e, 693093int, 2, 2653753int);
    let e: nat = 4 * e + 2;
    assert(quad(2493215int, 854698int, 3, 2653753int) == 373184int) by (nonlinear_arith);
    lemma_quad(854698int, e, 2493215int, 3, 2653753int);
    let e: nat = 4 * e + 3;
    assert(quad(373184int, 854698int, 1, 2653753int) == 1int) by (nonlinear_arith);
    lemma_quad(854698int, e, 373184int, 1, 2653753int);
    let e: nat = 4 * e + 1;
    assert(e == 110573int);
}

proof fn lemma_prime_2653753()
    ensures
        is_prime(2653753int),
{
    lemma_prime_110573();
    lemma_pow1(110573int);
    lemma_pow0(2);
    lemma_pow1(854698int);
    lemma_power_2653753_c();
    lemma_certify(2653753int, 854698int, 110573nat, 110573int, 1, 854698int, 166544int);
    lemma_certified_prime(2653753int, 854698int, 110573nat, 110573int, 1, 2, 0, 110573int, 1, 110574int);
}

proof fn lemma_power_63690073_c()
    ensures
        pow(16777216int, 2653753nat) % 63690073int == 1int,
{
    lemma_pow0(16777216int);
    let e: nat = 0;
    assert(quad(1int, 16777216int, 2, 63690073int) == 10970952int) by (nonlinear_arith);
    lemma_quad(16777216int, e, 1int, 2, 63690073int);
    let e: nat = 4 * e + 2;
    assert(quad(10970952int, 16777216int, 2, 63690073int) == 57476179int) by (nonlinear_arith);
    lemma_quad(16777216int, e, 10970952int, 2, 63690073int);
    let e: nat = 4 * e + 2;
    assert(quad(57476179int, 16777216int, 0, 63690073int) == 10725131int) by (nonlinear_arith);
    lemma_quad(16777216int, e, 57476179int, 0, 63690073int);
    let e: nat = 4 * e + 0;
    assert(quad(10725131int, 16777216int, 1, 63690073int) == 56846450int) by (nonlinear_arith);
    lemma_quad(16777216int, e, 10725131int, 1, 63690073int);
    let e: nat = 4 * e + 1;
    assert(quad(56846450int, 16777216int, 3, 63690073int) == 29732914int) by (nonlinear_arith);
    lemma_quad(16777216int, e, 56846450int, 3, 63690073int);
    let e: nat = 4 * e + 3;
    assert(quad(29732914int, 16777216int, 3, 63690073int) == 3127971int) by (nonlinear_arith);
    lemma_quad(16777216int, e, 29732914int, 3, 63690073int);
    let e: nat = 4 * e + 3;
    assert(quad(3127971int, 16777216int, 2, 63690073int) == 24389712int) by (nonlinear_arith);
    lemma_quad(16777216int, e, 3127971int, 2, 63690073int);
    let e: nat = 4 * e + 2;
    assert(quad(24389712int, 16777216int, 0, 63690073int) == 14627087int) by (nonlinear_arith);
    lemma_quad(16777216int, e, 24389712int, 0, 63690073int);
    let e: nat = 4 * e + 0;
    assert(quad(14627087int, 16777216int, 3, 63690073int) == 46872873int) by (nonlinear_arith);
    lemma_quad(16777216int, e, 14627087int, 3, 63690073int);
    let e: nat = 4 * e + 3;
    assert(quad(46872873int, 16777216int, 2, 63690073int) == 22888620int) by (nonlinear_arith);
    lemma_quad(16777216int, e, 46872873int, 2, 63690073int);
    let e: nat = 4 * e + 2;
    assert(quad(22888620int, 16777216int, 1, 63690073int) == 1int) by (nonlinear_arith);
    lemma_quad(16777216int, e, 22888620int, 1, 63690073int);
    let e: nat = 4 * e + 1;
    assert(e == 2653753int);
}

proof fn lemma_prime_63690073()
    ensures
        is_prime(63690073int),
{
    lemma_prime_2653753();
    lemma_pow1(2653753int);
    lemma_pow0(2);
    lemma_pow1(16777216int);
    lemma_power_63690073_c();
    lemma_certify(63690073int, 16777216int, 2653753nat, 2653753int, 1, 16777216int, 34981479int);
    lemma_certified_prime(63690073int, 16777216int, 2653753nat, 2653753int, 1, 2, 0, 2653753int, 1, 2653754int);
}

proof fn lemma_power_254760293_c()
    ensures
        pow(16int, 63690073nat) % 254760293int == 1int,
{
    lemma_pow0(16int);
    let e: nat = 0;
    assert(quad(1int, 16int, 3, 254760293int) == 4096int) by (nonlinear_arith);
    lemma_quad(16int, e, 1int, 3, 254760293int);
    let e: nat = 4 * e + 3;
    assert(quad(4096int, 16int, 3, 254760293int) == 159378346int) by (nonlinear_arith);
    lemma_quad(16int, e, 4096int, 3, 254760293int);
    let e: nat = 4 * e + 3;
    assert(quad(159378346int, 16int, 0, 254760293int) == 110679803int) by (nonlinear_arith);
    lemma_quad(16int, e, 159378346int, 0, 254760293int);
    let e: nat = 4 * e + 0;
    assert(quad(110679803int, 16int, 2, 254760293int) == 210237094int) by (nonlinear_arith);
    lemma_quad(16int, e, 110679803int, 2, 254760293int);
    let e: nat = 4 * e + 2;
    assert(quad(210237094int, 16int, 3, 254760293int) == 207749424int) by (nonlinear_arith);
    lemma_quad(16int, e, 210237094int, 3, 254760293int);
    let e: nat = 4 * e + 3;
    assert(quad(207749424int, 16int, 3, 254760293int) == 197431433int) by (nonlinear_arith);
    lemma_quad(16int, e, 207749424int, 3, 254760293int);
    let e: nat = 4 * e + 3;
    assert(quad(197431433int, 16int, 1, 254760293int) == 146079511int) by (nonlinear_arith);
    lemma_quad(16int, e, 197431433int, 1, 254760293int);
    let e: nat = 4 * e + 1;
    assert(quad(146079511int, 16int, 1, 254760293int) == 204597954int) by (nonlinear_arith);
    lemma_quad(16int, e, 146079511int, 1, 254760293int);
    let e: nat = 4 * e + 1;
    assert(quad(204597954int, 16int, 1, 254760293int) == 101340931int) by (nonlinear_arith);
    lemma_quad(16int, e, 204597954int, 1, 254760293int);
    let e: nat = 4 * e + 1;
    assert(quad(101340931int, 16int, 1, 254760293int) == 213627711int) by (nonlinear_arith);
    lemma_quad(16int, e, 101340931int, 1, 254760293int);
    let e: nat = 4 * e + 1;
    assert(quad(213627711int, 16int, 1, 254760293int) == 153842310int) by (nonlinear_arith);
    lemma_quad(16int, e, 213627711int, 1, 254760293int);
    let e: nat = 4 * e + 1;
    assert(quad(153842310int, 16int, 2, 254760293int) == 94575019int) by (nonlinear_arith);
    lemma_quad(16int, e, 153842310int, 2, 254760293int);
    let e: nat = 4 * e + 2;
    assert(quad(94575019int, 16int, 1, 254760293int) == 1int) by (nonlinear_arith);
    lemma_quad(16int, e, 94575019int, 1, 254760293int);
    let e: nat = 4 * e + 1;
    assert(e == 63690073int);
}

proof fn lemma_prime_254760293()
    ensures
        is_prime(254760293int),
{
    lemma_prime_63690073();
    lemma_pow1(63690073int);
    lemma_pow0(2);
    lemma_pow1(16int);
    lemma_power_254760293_c();
    lemma_certify(254760293int, 16int, 63690073nat, 63690073int, 1, 16int, 220792254int);
    lemma_certified_prime(254760293int, 16int, 63690073nat, 63690073int, 1, 2, 0, 63690073int, 1, 63690074int);
}

proof fn lemma_power_73_a()
    ensures
        pow(10int, 4nat) % 73int == 72int,
{
    lemma_pow0(10int);
    let e: nat = 0;
    assert(quad(1int, 10int, 1, 73int) == 10int) by (nonlinear_arith);
    lemma_quad(10int, e, 1int, 1, 73int);
    let e: nat = 4 * e + 1;
    assert(quad(10int, 10int, 0, 73int) == 72int) by (nonlinear_arith);
    lemma_quad(10int, e, 10int, 0, 73int);
    let e: nat = 4 * e + 0;
    assert(e == 4int);
}

proof fn lemma_power_73_c()
    ensures
        pow(72int, 2nat) % 73int == 1int,
{
    lemma_pow0(72int);
    let e: nat = 0;
    assert(quad(1int, 72int, 2, 73int) == 1int) by (nonlinear_arith);
    lemma_quad(72int, e, 1int, 2, 73int);
    let e: nat = 4 * e + 2;
    assert(e == 2int);
}

proof fn lemma_prime_73()
    ensures
        is_prime(73int),
{
    lemma_prime_2();
    assert(pow(2int, 3) == 8int) by {
        reveal_with_fuel(pow, 4);
    }
    lemma_pow0(2);
    lemma_power_73_a();
    lemma_power_73_c();
    lemma_power_of_power(10int, 4nat, 72int, 2nat, 73int);
    lemma_certify(73int, 10int, 8nat, 2int, 3, 72int, 36int);
    lemma_certified_prime(73int, 10int, 8nat, 2int, 3, 2, 0, 8int, 1, 9int);
}

proof fn lemma_power_1607_c()
    ensures
        pow(34int, 73nat) % 1607int == 1int,
{
    lemma_pow0(34int);
    let e: nat = 0;
    assert(quad(1int, 34int, 1, 1607int) == 34int) by (nonlinear_arith);
    lemma_quad(34int, e, 1int, 1, 1607int);
    let e: nat = 4 * e + 1;
    assert(quad(34int, 34int, 0, 1607int) == 919int) by (nonlinear_arith);
    lemma_quad(34int, e, 34int, 0, 1607int);
    let e: nat = 4 * e + 0;
    assert(quad(919int, 34int, 2, 1607int) == 153int) by (nonlinear_arith);
    lemma_quad(34int, e, 919int, 2, 1607int);
    let e: nat = 4 * e + 2;
    assert(quad(153int, 34int, 1, 1607int) == 1int) by (nonlinear_arith);
    lemma_quad(34int, e, 153int, 1, 1607int);
    let e: nat = 4 * e + 1;
    assert(e == 73int);
}

proof fn lemma_prime_1607()
    ensures
        is_prime(1607int),
{
    lemma_prime_73();
    lemma_pow1(73int);
    lemma_pow0(2);
    lemma_pow1(34int);
    lemma_power_1607_c();
    lemma_certify(1607int, 34int, 73nat, 73int, 1, 34int, 487int);
    lemma_certified_prime(1607int, 34int, 73nat, 73int, 1, 2, 0, 73int, 1, 74int);
}

proof fn lemma_power_906349_c()
    ensures
        pow(210417int, 1607nat) % 906349int == 1int,
{
    lemma_pow0(210417int);
    let e: nat = 0;
    assert(quad(1int, 210417int, 1, 906349int) == 210417int) by (nonlinear_arith);
    lemma_quad(210417int, e, 1int, 1, 906349int);
    let e: nat = 4 * e + 1;
    assert(quad(210417int, 210417int, 2, 906349int) == 370901int) by (nonlinear_arith);
    lemma_quad(210417int, e, 210417int, 2, 906349int);
    let e: nat = 4 * e + 2;
    assert(quad(370901int, 210417int, 1, 906349int) == 507258int) by (nonlinear_arith);
    lemma_quad(210417int, e, 370901int, 1, 906349int);
    let e: nat = 4 * e + 1;
    assert(quad(507258int, 210417int, 0, 906349int) == 848807int) by (nonlinear_arith);
    lemma_quad(210417int, e, 507258int, 0, 906349int);
    let e: nat = 4 * e + 0;
    assert(quad(848807int, 210417int, 1, 906349int) == 288547int) by (nonlinear_arith);
    lemma_quad(210417int, e, 848807int, 1, 906349int);
    let e: nat = 4 * e + 1;
    assert(quad(288547int, 210417int, 3, 906349int) == 1int) by (nonlinear_arith);
    lemma_quad(210417int, e, 288547int, 3, 906349int);
    let e: nat = 4 * e + 3;
    assert(e == 1607int);
}

proof fn lemma_prime_906349()
    ensures
        is_prime(906349int),
{
    lemma_prime_1607();
    lemma_pow1(1607int);
    lemma_pow0(2);
    lemma_pow1(210417int);
    lemma_power_906349_c();
    lemma_certify(906349int, 210417int, 1607nat, 1607int, 1, 210417int, 298534int);
    lemma_certified_prime(906349int, 210417int, 1607nat, 1607int, 1, 2, 0, 1607int, 1, 1608int);
}

proof fn lemma_power_449_a()
    ensures
        pow(221int, 16nat) % 449int == 448int,
{
    lemma_pow0(221int);
    let e: nat = 0;
    assert(quad(1int, 221int, 1, 449int) == 221int) by (nonlinear_arith);
    lemma_quad(221int, e, 1int, 1, 449int);
    let e: nat = 4 * e + 1;
    assert(quad(221int, 221int, 0, 449int) == 122int) by (nonlinear_arith);
    lemma_quad(221int, e, 221int, 0, 449int);
    let e: nat = 4 * e + 0;
    assert(quad(122int, 221int, 0, 449int) == 448int) by (nonlinear_arith);
    lemma_quad(221int, e, 122int, 0, 449int);
    let e: nat = 4 * e + 0;
    assert(e == 16int);
}

proof fn lemma_power_449_c()
    ensures
        pow(448int, 2nat) % 449int == 1int,
{
    lemma_pow0(448int);
    let e: nat = 0;
    assert(quad(1int, 448int, 2, 449int) == 1int) by (nonlinear_arith);
    lemma_quad(448int, e, 1int, 2, 449int);
    let e: nat = 4 * e + 2;
    assert(e == 2int);
}

proof fn lemma_prime_449()
    ensures
        is_prime(449int),
{
    lemma_prime_2();
    assert(pow(2int, 5) == 32int) by {
        reveal_with_fuel(pow, 6);
    }
    lemma_pow0(2);
    lemma_power_449_a();
    lemma_power_449_c();
    lemma_power_of_power(221int, 16nat, 448int, 2nat, 449int);
    lemma_certify(449int, 221int, 32nat, 2int, 5, 448int, 224int);
    lemma_certified_prime(449int, 221int, 32nat, 2int, 5, 2, 0, 32int, 1, 33int);
}

proof fn lemma_power_609743_a()
    ensures
        pow(149340int, 449nat) % 609743int == 609742int,
{
    lemma_pow0(149340int);
    let e: nat = 0;
    assert(quad(1int, 149340int, 1, 609743int) == 149340int) by (nonlinear_arith);
    lemma_quad(149340int, e, 1int, 1, 609743int);
    let e: nat = 4 * e + 1;
    assert(quad(149340int, 149340int, 3, 609743int) == 22637int) by (nonlinear_arith);
    lemma_quad(149340int, e, 149340int, 3, 609743int);
    let e: nat = 4 * e + 3;
    assert(quad(22637int, 149340int, 0, 609743int) == 352199int) by (nonlinear_arith);
    lemma_quad(149340int, e, 22637int, 0, 609743int);
    let e: nat = 4 * e + 0;
    assert(quad(352199int, 149340int, 0, 609743int) == 19923int) by (nonlinear_arith);
    lemma_quad(149340int, e, 352199int, 0, 609743int);
    let e: nat = 4 * e + 0;
    assert(quad(19923int, 149340int, 1, 609743int) == 609742int) by (nonlinear_arith);
    lemma_quad(149340int, e, 19923int, 1, 609743int);
    let e: nat = 4 * e + 1;
    assert(e == 449int);
}

proof fn lemma_power_609743_b()
    ensures
        pow(149340int, 2nat) % 609743int == 475632int,
{
    lemma_pow0(149340int);
    let e: nat = 0;
    assert(quad(1int, 149340int, 2, 609743int) == 475632int) by (nonlinear_arith);
    lemma_quad(149340int, e, 1int, 2, 609743int);
    let e: nat = 4 * e + 2;
    assert(e == 2int);
}

proof fn lemma_power_609743_c()
    ensures
        pow(609742int, 2nat) % 609743int == 1int,
{
    lemma_pow0(609742int);
    let e: nat = 0;
    assert(quad(1int, 609742int, 2, 609743int) == 1int) by (nonlinear_arith);
    lemma_quad(609742int, e, 1int, 2, 609743int);
    let e: nat = 4 * e + 2;
    assert(e == 2int);
}

proof fn lemma_prime_609743()
    ensures
        is_prime(609743int),
{
    lemma_prime_2();
    lemma_pow1(2int);
    lemma_prime_449();
    lemma_pow1(449int);
    lemma_power_609743_a();
    lemma_power_609743_b();
    lemma_power_609743_c();
    lemma_power_of_power(149340int, 449nat, 609742int, 2nat, 609743int);
    lemma_certify(609743int, 149340int, 898nat, 2int, 1, 609742int, 304871int);
    lemma_certify(609743int, 149340int, 898nat, 449int, 1, 475632int, 143811int);
    lemma_certified_prime(609743int, 149340int, 898nat, 2int, 1, 449int, 1, 2int, 449int, 899int);
}

proof fn lemma_power_52437899_c()
    ensures
        pow(27034091int, 609743nat) % 52437899int == 1int,
{
    lemma_pow0(27034091int);
    let e: nat = 0;
    assert(quad(1int, 27034091int, 2, 52437899int) == 28156268int) by (nonlinear_arith);
    lemma_quad(27034091int, e, 1int, 2, 52437899int);
    let e: nat = 4 * e + 2;
    assert(quad(28156268int, 27034091int, 1, 52437899int) == 32786480int) by (nonlinear_arith);
    lemma_quad(27034091int, e, 28156268int, 1, 52437899int);
    let e: nat = 4 * e + 1;
    assert(quad(32786480int, 27034091int, 1, 52437899int) == 17133963int) by (nonlinear_arith);
    lemma_quad(27034091int, e, 32786480int, 1, 52437899int);
    let e: nat = 4 * e + 1;
    assert(quad(17133963int, 27034091int, 0, 52437899int) == 11998027int) by (nonlinear_arith);
    lemma_quad(27034091int, e, 17133963int, 0, 52437899int);
    let e: nat = 4 * e + 0;
    assert(quad(11998027int, 27034091int, 3, 52437899int) == 31057641int) by (nonlinear_arith);
    lemma_quad(27034091int, e, 11998027int, 3, 52437899int);
    let e: nat = 4 * e + 3;
    assert(quad(31057641int, 27034091int, 1, 52437899int) == 31542690int) by (nonlinear_arith);
    lemma_quad(27034091int, e, 31057641int, 1, 52437899int);
    let e: nat = 4 * e + 1;
    assert(quad(31542690int, 27034091int, 3, 52437899int) == 36593817int) by (nonlinear_arith);
    lemma_quad(27034091int, e, 31542690int, 3, 52437899int);
    let e: nat = 4 * e + 3;
    assert(quad(36593817int, 27034091int, 0, 52437899int) == 27335841int) by (nonlinear_arith);
    lemma_quad(27034091int, e, 36593817int, 0, 52437899int);
    let e: nat = 4 * e + 0;
    assert(quad(27335841int, 27034091int, 3, 52437899int) == 18544105int) by (nonlinear_arith);
    lemma_quad(27034091int, e, 27335841int, 3, 52437899int);
    let e: nat = 4 * e + 3;
    assert(quad(18544105int, 27034091int, 3, 52437899int) == 1int) by (nonlinear_arith);
    lemma_quad(27034091int, e, 18544105int, 3, 52437899int);
    let e: nat = 4 * e + 3;
    assert(e == 609743int);
}

proof fn lemma_prime_52437899()
    ensures
        is_prime(52437899int),
{
    lemma_prime_609743();
    lemma_pow1(609743int);
    lemma_pow0(2);
    lemma_pow1(27034091int);
    lemma_power_52437899_c();
    lemma_certify(52437899int, 27034091int, 609743nat, 609743int, 1, 27034091int, 17952639int);
    lemma_certified_prime(52437899int, 27034091int, 609743nat, 609743int, 1, 2, 0, 609743int, 1, 609744int);
}

spec fn certificate_base() -> int {
    0x463aec4b928dd43f11b51f817235dfdd0c8744dc7b8743634168d7067e596816int
}

proof fn lemma_power_modulus_a()
    ensures
        pow(certificate_base(), 0x10d38c5c92e1a55e048298b019011c580000000nat) % base_modulus() == 0x73eda753299d7d483339d80809a1d80553bda402fffe5bfeffffffff00000000int,
{
    lemma_pow0(certificate_base());
    let e: nat = 0;
    assert(quad(1int, certificate_base(), 1, base_modulus()) == 0x463aec4b928dd43f11b51f817235dfdd0c8744dc7b8743634168d7067e596816int) by (nonlinear_arith);
    lemma_quad(certificate_base(), e, 1int, 1, base_modulus());
    let e: nat = 4 * e + 1;
    assert(quad(0x463aec4b928dd43f11b51f817235dfdd0c8744dc7b8743634168d7067e596816int, certificate_base(), 0, base_modulus()) == 0xebd5e683057e9f2ad75fbfe1e0091a9f3bcc3665b63160eb99760fb61c56309int) by (nonlinear_arith);
    lemma_quad(certificate_base(), e, 0x463aec4b928dd43f11b51f817235dfdd0c8744dc7b8743634168d7067e596816int, 0, base_modulus());
    let e: nat = 4 * e + 0;
    assert(quad(0xebd5e683057e9f2ad75fbfe1e0091a9f3bcc3665b63160eb99760fb61c56309int, certificate_base(), 0, base_modulus()) == 0xc28a6849dbb9d44ce64e8d93fe02a5d70fe90308fe9b06a62c263cee78d4191int) by (nonlinear_arith);
    lemma_quad(certificate_base(), e, 0xebd5e683057e9f2ad75fbfe1e0091a9f3bcc3665b63160eb99760fb61c56309int, 0, base_modulus());
    let e: nat = 4 * e + 0;
    assert(quad(0xc28a6849dbb9d44ce64e8d93fe02a5d70fe90308fe9b06a62c263cee78d4191int, certificate_base(), 3, base_modulus()) == 0x4e09e7170cd9b620c11a818e082093a58493a4ea097134b13b299cef1c3a8ba2int) by (nonlinear_arith);
    lemma_quad(certificate_base(), e, 0xc28a6849dbb9d44ce64e8d93fe02a5d70fe90308fe9b06a62c263cee78d4191int, 3, base_modulus());
    let e: nat = 4 * e + 3;
    assert(quad(0x4e09e7170cd9b620c11a818e082093a58493a4ea097134b13b299cef1c3a8ba2int, certificate_base(), 1, base_modulus()) == 0x5f7892a91785f156a7c0e7f5cd18959737526199cd9be559c028b5efe72495a2int) by (nonlinear_arith);
    lemma_quad(certificate_base(), e, 0x4e09e7170cd9b620c11a818e082093a58493a4ea097134b13b299cef1c3a8ba2int, 1, base_modulus());
    let e: nat = 4 * e + 1;
    assert(quad(0x5f7892a91785f156a7c0e7f5cd18959737526199cd9be559c028b5efe72495a2int, certificate_base(), 0, base_modulus()) == 0x420342e983089b91d240658744ab7b1cef51ca128342af3a00128f2e85fe2363int) by (nonlinear_arith);
    lemma_quad(certificate_base(), e, 0x5f7892a91785f156a7c0e7f5cd18959737526199cd9be559c028b5efe72495a2int, 0, base_modulus());
    let e: nat = 4 * e + 0;
    assert(quad(0x420342e983089b91d240658744ab7b1cef51ca128342af3a00128f2e85fe2363int, certificate_base(), 3, base_modulus()) == 0x6e36028fd9ec76a5b28fd146a1a546aa7dbbb9f0bbb5a41b4be14a668aa5528dint) by (nonlinear_arith);
    lemma_quad(certificate_base(), e, 0x420342e983089b91d240658744ab7b1cef51ca128342af3a00128f2e85fe2363int, 3, base_modulus());
    let e: nat = 4 * e + 3;
    assert(quad(0x6e36028fd9ec76a5b28fd146a1a546aa7dbbb9f0bbb5a41b4be14a668aa5528dint, certificate_base(), 2, base_modulus()) == 0x6cd47ab923e40fb4b95e6772825bc8090bb0c8a85bf402638f9416022919e222int) by (nonlinear_arith);
    lemma_quad(certificate_base(), e, 0x6e36028fd9ec76a5b28fd146a1a546aa7dbbb9f0bbb5a41b4be14a668aa5528dint, 2, base_modulus());
    let e: nat = 4 * e + 2;
    assert(quad(0x6cd47ab923e40fb4b95e6772825bc8090bb0c8a85bf402638f9416022919e222int, certificate_base(), 0, base_modulus()) == 0x3a69a8c1ced92d34700891d33b7ec9f1b016c5dfdec256924be31ad4a1d846a1int) by (nonlinear_arith);
    lemma_quad(certificate_base(), e, 0x6cd47ab923e40fb4b95e6772825bc8090bb0c8a85bf402638f9416022919e222int, 0, base_modulus());
    let e: nat = 4 * e + 0;
    assert(quad(0x3a69a8c1ced92d34700891d33b7ec9f1b016c5dfdec256924be31ad4a1d846a1int, certificate_base(), 3, base_modulus()) == 0x45de380d4c9ed97fd4a9c18892c3a6a0755a8996aefe2c1fcb86e60e435ad8f0int) by (nonlinear_arith);
    lemma_quad(certificate_base(), e, 0x3a69a8c1ced92d34700891d33b7ec9f1b016c5dfdec256924be31ad4a1d846a1int, 3, base_modulus());
    let e: nat = 4 * e + 3;
    assert(quad(0x45de380d4c9ed97fd4a9c18892c3a6a0755a8996aefe2c1fcb86e60e435ad8f0int, certificate_base(), 0, base_modulus()) == 0xfdf1cb8e794754206fdcf3fb773db81824c0664c278a70301427baffdb1c03aint) by (nonlinear_arith);
    lemma_quad(certificate_base(), e, 0x45de380d4c9ed97fd4a9c18892c3a6a0755a8996aefe2c1fcb86e60e435ad8f0int, 0, base_modulus());
    let e: nat = 4 * e + 0;
    assert(quad(0xfdf1cb8e794754206fdcf3fb773db81824c0664c278a70301427baffdb1c03aint, certificate_base(), 1, base_modulus()) == 0x4f3b0298978c696eae52d5cad69ff918693933df4e53d54eb4291322131532c6int) by (nonlinear_arith);
    lemma_quad(certificate_base(), e, 0xfdf1cb8e794754206fdcf3fb773db81824c0664c278a70301427baffdb1c03aint, 1, base_modulus());
    let e: nat = 4 * e + 1;
    assert(quad(0x4f3b0298978c696eae52d5cad69ff918693933df4e53d54eb4291322131532c6int, certificate_base(), 1, base_modulus()) == 0x5b9999d67ddf7a8c0bcf12cd89dc1c342bc4ee6d5c3f698d5a492ffe2155988dint) by (nonlinear_arith);
    lemma_quad(certificate_base(), e, 0x4f3b0298978c696eae52d5cad69ff918693933df4e53d54eb4291322131532c6int, 1, base_modulus());
    let e: nat = 4 * e + 1;
    assert(quad(0x5b9999d67ddf7a8c0bcf12cd89dc1c342bc4ee6d5c3f698d5a492ffe2155988dint, certificate_base(), 3, base_modulus()) == 0x4dee8416ef4c1ea92b542b4c5acf4ed22c61298efdc54132df2c61bba278a521int) by (nonlinear_arith);
    lemma_quad(certificate_base(), e, 0x5b9999d67ddf7a8c0bcf12cd89dc1c342bc4ee6d5c3f698d5a492ffe2155988dint, 3, base_modulus());
    let e: nat = 4 * e + 3;
    assert(quad(0x4dee8416ef4c1ea92b542b4c5acf4ed22c61298efdc54132df2c61bba278a521int, certificate_base(), 0, base_modulus()) == 0x159056c7d7043826fb473028a9c31b7bd1ca9c3b908995f4105d9e98e86c1471int) by (nonlinear_arith);
    lemma_quad(certificate_base(), e, 0x4dee8416ef4c1ea92b542b4c5acf4ed22c61298efdc54132df2c61bba278a521int, 0, base_modulus());
    let e: nat = 4 * e + 0;
    assert(quad(0x159056c7d7043826fb473028a9c31b7bd1ca9c3b908995f4105d9e98e86c1471int, certificate_base(), 2, base_modulus()) == 0x5c3a6e8125b1ec1bb736bdefb70bf47ae1ccfdff19d742da07fb337fe114db39int) by (nonlinear_arith);
    lemma_quad(certificate_base(), e, 0x159056c7d7043826fb473028a9c31b7bd1ca9c3b908995f4105d9e98e86c1471int, 2, base_modulus());
    let e: nat = 4 * e + 2;
    assert(quad(0x5c3a6e8125b1ec1bb736bdefb70bf47ae1ccfdff19d742da07fb337fe114db39int, certificate_base(), 1, base_modulus()) == 0x6da47db8866e59b66b570b8f69d6cebab915a9cf4bdaaf064701c6ad4ddd4c6int) by (nonlinear_arith);
    lemma_quad(certificate_base(), e, 0x5c3a6e8125b1ec1bb736bdefb70bf47ae1ccfdff19d742da07fb337fe114db39int, 1, base_modulus());
    let e: nat = 4 * e + 1;
    assert(quad(0x6da47db8866e59b66b570b8f69d6cebab915a9cf4bdaaf064701c6ad4ddd4c6int, certificate_base(), 0, base_modulus()) == 0x5ad58c160438ec6308bd696bac3fb75c971e6e9e0bbca421a5218b80339e9ec3int) by (nonlinear_arith);
    lemma_quad(certificate_base(), e, 0x6da47db8866e59b66b570b8f69d6cebab915a9cf4bdaaf064701c6ad4ddd4c6int, 0, base_modulus());
    let e: nat = 4 * e + 0;
    assert(quad(0x5ad58c160438ec6308bd696bac3fb75c971e6e9e0bbca421a5218b80339e9ec3int, certificate_base(), 2, base_modulus()) == 0x69fe315091e289433d1abca8cdf5d791776214c336bed6b07c08ce24189c3d72int) by (nonlinear_arith);
    lemma_quad(certificate_base(), e, 0x5ad58c160438ec6308bd696bac3fb75c971e6e9e0bbca421a5218b80339e9ec3int, 2, base_modulus());
    let e: nat = 4 * e + 2;
    assert(quad(0x69fe315091e289433d1abca8cdf5d791776214c336bed6b07c08ce24189c3d72int, certificate_base(), 3, base_modulus()) == 0x30b989ee8d502a07e39d158fb447e9842296e4226485e3505db67eee6429d92fint) by (nonlinear_arith);
    lemma_quad(certificate_base(), e, 0x69fe315091e289433d1abca8cdf5d791776214c336bed6b07c08ce24189c3d72int, 3, base_modulus());
    let e: nat = 4 * e + 3;
    assert(quad(0x30b989ee8d502a07e39d158fb447e9842296e4226485e3505db67eee6429d92fint, certificate_base(), 2, base_modulus()) == 0x3a43b652a190aafe414a492ed99b1594cff349bf8e053576a4d44e276e8f529aint) by (nonlinear_arith);
    lemma_quad(certificate_base(), e, 0x30b989ee8d502a07e39d158fb447e9842296e4226485e3505db67eee6429d92fint, 2, base_modulus());
    let e: nat = 4 * e + 2;
    assert(quad(0x3a43b652a190aafe414a492ed99b1594cff349bf8e053576a4d44e276e8f529aint, certificate_base(), 0, base_modulus()) == 0x123336097fd3b2da470c5ff96403dd86686234f6a61b276b81a9ba7eea1a82c5int) by (nonlinear_arith);
    lemma_quad(certificate_base(), e, 0x3a43b652a190aafe414a492ed99b1594cff349bf8e053576a4d44e276e8f529aint, 0, base_modulus());
    let e: nat = 4 * e + 0;
    assert(quad(0x123336097fd3b2da470c5ff96403dd86686234f6a61b276b81a9ba7eea1a82c5int, certificate_base(), 1, base_modulus()) == 0x25ba15252290b82ce502cc907b10b114c5add76916cf327d6aa7115953e31905int) by (nonlinear_arith);
    lemma_quad(certificate_base(), e, 0x123336097fd3b2da470c5ff96403dd86686234f6a61b276b81a9ba7eea1a82c5int, 1, base_modulus());
    let e: nat = 4 * e + 1;
    assert(quad(0x25ba15252290b82ce502cc907b10b114c5add76916cf327d6aa7115953e31905int, certificate_base(), 2, base_modulus()) == 0x5f8e9b2385d468d68fe1b93b271e34ce5a36e34d584991528c65eeb3e176b6e0int) by (nonlinear_arith);
    lemma_quad(certificate_base(), e, 0x25ba15252290b82ce502cc907b10b114c5add76916cf327d6aa7115953e31905int, 2, base_modulus());
    let e: nat = 4 * e + 2;
    assert(quad(0x5f8e9b2385d468d68fe1b93b271e34ce5a36e34d584991528c65eeb3e176b6e0int, certificate_base(), 2, base_modulus()) == 0x6c4ad49cde5483a3e921570b42d4cd7569f70fa2b8bb266058c702cda82b7e81int) by (nonlinear_arith);
    lemma_quad(certificate_base(), e, 0x5f8e9b2385d468d68fe1b93b271e34ce5a36e34d584991528c65eeb3e176b6e0int, 2, base_modulus());
    let e: nat = 4 * e + 2;
    assert(quad(0x6c4ad49cde5483a3e921570b42d4cd7569f70fa2b8bb266058c702cda82b7e81int, certificate_base(), 1, base_modulus()) == 0x3002c30bb826fb7c24bcf66f0f8380ee52f1827e6671690d75c6e618e36ad60dint) by (nonlinear_arith);
    lemma_quad(certificate_base(), e, 0x6c4ad49cde5483a3e921570b42d4cd7569f70fa2b8bb266058c702cda82b7e81int, 1, base_modulus());
    let e: nat = 4 * e + 1;
    assert(quad(0x3002c30bb826fb7c24bcf66f0f8380ee52f1827e6671690d75c6e618e36ad60dint, certificate_base(), 1, base_modulus()) == 0x350047809bec76a0a98c07017fee040d521a8292a8a371a7983600c2454663aaint) by (nonlinear_arith);
    lemma_quad(certificate_base(), e, 0x3002c30bb826fb7c24bcf66f0f8380ee52f1827e6671690d75c6e618e36ad60dint, 1, base_modulus());
    let e: nat = 4 * e + 1;
    assert(quad(0x350047809bec76a0a98c07017fee040d521a8292a8a371a7983600c2454663aaint, certificate_base(), 1, base_modulus()) == 0x6d35e03b83fafcf76dcaba4516b9d8ea004650ab1bef267a9ec4ddfd48a7c8efint) by (nonlinear_arith);
    lemma_quad(certificate_base(), e, 0x350047809bec76a0a98c07017fee040d521a8292a8a371a7983600c2454663aaint, 1, base_modulus());
    let e: nat = 4 * e + 1;
    assert(quad(0x6d35e03b83fafcf76dcaba4516b9d8ea004650ab1bef267a9ec4ddfd48a7c8efint, certificate_base(), 1, base_modulus()) == 0x67b4cf9fa9bf27cd0f9a05daaefb0c22ac07cb5a94cff63c293d48ae5cbef01aint) by (nonlinear_arith);
    lemma_quad(certificate_base(), e, 0x6d35e03b83fafcf76dcaba4516b9d8ea004650ab1bef267a9ec4ddfd48a7c8efint, 1, base_modulus());
    let e: nat = 4 * e + 1;
    assert(quad(0x67b4cf9fa9bf27cd0f9a05daaefb0c22ac07cb5a94cff63c293d48ae5cbef01aint, certificate_base(), 3, base_modulus()) == 0xd682f00381129b245c6dcd067b953059d802a60a2bd6fef5235315aea0fd779int) by (nonlinear_arith);
    lemma_quad(certificate_base(), e, 0x67b4cf9fa9bf27cd0f9a05daaefb0c22ac07cb5a94cff63c293d48ae5cbef01aint, 3, base_modulus());
    let e: nat = 4 * e + 3;
    assert(quad(0xd682f00381129b245c6dcd067b953059d802a60a2bd6fef5235315aea0fd779int, certificate_base(), 2, base_modulus()) == 0xb0d44f7b2f8c649edaacd87f117eb4f68c5acfd251746d97b1552b32f43aa60int) by (nonlinear_arith);
    lemma_quad(certificate_base(), e, 0xd682f00381129b245c6dcd067b953059d802a60a2bd6fef5235315aea0fd779int, 2, base_modulus());
    let e: nat = 4 * e + 2;
    assert(quad(0xb0d44f7b2f8c649edaacd87f117eb4f68c5acfd251746d97b1552b32f43aa60int, certificate_base(), 0, base_modulus()) == 0x6a5eccd0717e851ed50b91f0a14277f3c8f15471f604e41ec571dbe3b3e12be4int) by (nonlinear_arith);
    lemma_quad(certificate_base(), e, 0xb0d44f7b2f8c649edaacd87f117eb4f68c5acfd251746d97b1552b32f43aa60int, 0, base_modulus());
    let e: nat = 4 * e + 0;
    assert(quad(0x6a5eccd0717e851ed50b91f0a14277f3c8f15471f604e41ec571dbe3b3e12be4int, certificate_base(), 0, base_modulus()) == 0x28dc00992edfbe5167bc3cf0d0cded51371133a6f57ca08df342be09b31fccb0int) by (nonlinear_arith);
    lemma_quad(certificate_base(), e, 0x6a5eccd0717e851ed50b91f0a14277f3c8f15471f604e41ec571dbe3b3e12be4int, 0, base_modulus());
    let e: nat = 4 * e + 0;
    assert(quad(0x28dc00992edfbe5167bc3cf0d0cded51371133a6f57ca08df342be09b31fccb0int, certificate_base(), 1, base_modulus()) == 0x525f7302162410f15a1fcdb5ae9cb7588b38f8125d10f3443bef16485a6c84e7int) by (nonlinear_arith);
    lemma_quad(certificate_base(), e, 0x28dc00992edfbe5167bc3cf0d0cded51371133a6f57ca08df342be09b31fccb0int, 1, base_modulus());
    let e: nat = 4 * e + 1;
    assert(quad(0x525f7302162410f15a1fcdb5ae9cb7588b38f8125d10f3443bef16485a6c84e7int, certificate_base(), 0, base_modulus()) == 0x187f96351ecf9eb9f1dc89a5908066244d0d59823c0c1658f1cf6ce2d6f03169int) by (nonlinear_arith);
    lemma_quad(certificate_base(), e, 0x525f7302162410f15a1fcdb5ae9cb7588b38f8125d10f3443bef16485a6c84e7int, 0, base_modulus());
    let e: nat = 4 * e + 0;
    assert(quad(0x187f96351ecf9eb9f1dc89a5908066244d0d59823c0c1658f1cf6ce2d6f03169int, certificate_base(), 2, base_modulus()) == 0x63ca689a3d88f2eb424f787b5bcd743c842f54228cf85291850b90c57bb2445bint) by (nonlinear_arith);
    lemma_quad(certificate_base(), e, 0x187f96351ecf9eb9f1dc89a5908066244d0d59823c0c1658f1cf6ce2d6f03169int, 2, base_modulus());
    let e: nat = 4 * e + 2;
    assert(quad(0x63ca689a3d88f2eb424f787b5bcd743c842f54228cf85291850b90c57bb2445bint, certificate_base(), 0, base_modulus()) == 0x143b310a812768f537059bf0d6cea1e108eaab64b45df0260bab5379696e1335int) by (nonlinear_arith);
    lemma_quad(certificate_base(), e, 0x63ca689a3d88f2eb424f787b5bcd743c842f54228cf85291850b90c57bb2445bint, 0, base_modulus());
    let e: nat = 4 * e + 0;
    assert(quad(0x143b310a812768f537059bf0d6cea1e108eaab64b45df0260bab5379696e1335int, certificate_base(), 0, base_modulus()) == 0x6963dd24074fb94313ca3849f960ff6d278b896ad573bfb59ab44b7e88816ecaint) by (nonlinear_arith);
    lemma_quad(certificate_base(), e, 0x143b310a812768f537059bf0d6cea1e108eaab64b45df0260bab5379696e1335int, 0, base_modulus());
    let e: nat = 4 * e + 0;
    assert(quad(0x6963dd24074fb94313ca3849f960ff6d278b896ad573bfb59ab44b7e88816ecaint, certificate_base(), 2, base_modulus()) == 0x33b43eb179997d6ba239b459c2b318c1e38db71582c1d3195ccf1c1c9a5e3926int) by (nonlinear_arith);
    lemma_quad(certificate_base(), e, 0x6963dd24074fb94313ca3849f960ff6d278b896ad573bfb59ab44b7e88816ecaint, 2, base_modulus());
    let e: nat = 4 * e + 2;
    assert(quad(0x33b43eb179997d6ba239b459c2b318c1e38db71582c1d3195ccf1c1c9a5e3926int, certificate_base(), 2, base_modulus()) == 0xc3a13dddf31086ecec80a91a8e24fec474d5007e0e2b49a650585326bf5a2bcint) by (nonlinear_arith);
    lemma_quad(certificate_base(), e, 0x33b43eb179997d6ba239b459c2b318c1e38db71582c1d3195ccf1c1c9a5e3926int, 2, base_modulus());
    let e: nat = 4 * e + 2;
    assert(quad(0xc3a13dddf31086ecec80a91a8e24fec474d5007e0e2b49a650585326bf5a2bcint, certificate_base(), 1, base_modulus()) == 0x5c9e6a80868e2f699db76130b22b0bc4da8e8936afda66081a7492562b2547edint) by (nonlinear_arith);
    lemma_quad(certificate_base(), e, 0xc3a13dddf31086ecec80a91a8e24fec474d5007e0e2b49a650585326bf5a2bcint, 1, base_modulus());
    let e: nat = 4 * e + 1;
    assert(quad(0x5c9e6a80868e2f699db76130b22b0bc4da8e8936afda66081a7492562b2547edint, certificate_base(), 2, base_modulus()) == 0x55eb2f2f754fe5c88b485ea280a8d41051525b6e0559931447ae40315def92b7int) by (nonlinear_arith);
    lemma_quad(certificate_base(), e, 0x5c9e6a80868e2f699db76130b22b0bc4da8e8936afda66081a7492562b2547edint, 2, base_modulus());
    let e: nat = 4 * e + 2;
    assert(quad(0x55eb2f2f754fe5c88b485ea280a8d41051525b6e0559931447ae40315def92b7int, certificate_base(), 0, base_modulus()) == 0x6d6585ed55efa4c541f9b807d6b34cd9bf92925b508b3019f40c31625642df37int) by (nonlinear_arith);
    lemma_quad(certificate_base(), e, 0x55eb2f2f754fe5c88b485ea280a8d41051525b6e0559931447ae40315def92b7int, 0, base_modulus());
    let e: nat = 4 * e + 0;
    assert(quad(0x6d6585ed55efa4c541f9b807d6b34cd9bf92925b508b3019f40c31625642df37int, certificate_base(), 2, base_modulus()) == 0x36464face31d1d48a7b8d827f79f1517b5afd12231ce020feb4a603b9a6ca961int) by (nonlinear_arith);
    lemma_quad(certificate_base(), e, 0x6d6585ed55efa4c541f9b807d6b34cd9bf92925b508b3019f40c31625642df37int, 2, base_modulus());
    let e: nat = 4 * e + 2;
    assert(quad(0x36464face31d1d48a7b8d827f79f1517b5afd12231ce020feb4a603b9a6ca961int, certificate_base(), 3, base_modulus()) == 0x77a08591171c8888e1cf028873e4cfe2d9198bc11e69a4a381e5c7f41a5589eint) by (nonlinear_arith);
    lemma_quad(certificate_base(), e, 0x36464face31d1d48a7b8d827f79f1517b5afd12231ce020feb4a603b9a6ca961int, 3, base_modulus());
    let e: nat = 4 * e + 3;
    assert(quad(0x77a08591171c8888e1cf028873e4cfe2d9198bc11e69a4a381e5c7f41a5589eint, certificate_base(), 0, base_modulus()) == 0x2890a78dd610c876580d23ffca3c96b35e84c4542601b69a111eeb6ac23b14f6int) by (nonlinear_arith);
    lemma_quad(certificate_base(), e, 0x77a08591171c8888e1cf028873e4cfe2d9198bc11e69a4a381e5c7f41a5589eint, 0, base_modulus());
    let e: nat = 4 * e + 0;
    assert(quad(0x2890a78dd610c876580d23ffca3c96b35e84c4542601b69a111eeb6ac23b14f6int, certificate_base(), 0, base_modulus()) == 0x4e9e79f2a0ca991ec7a1f8280ab1b8067f157512177dab4e1276d026da51351cint) by (nonlinear_arith);
    lemma_quad(certificate_base(), e, 0x2890a78dd610c876580d23ffca3c96b35e84c4542601b69a111eeb6ac23b14f6int, 0, base_modulus());
    let e: nat = 4 * e + 0;
    assert(quad(0x4e9e79f2a0ca991ec7a1f8280ab1b8067f157512177dab4e1276d026da51351cint, certificate_base(), 0, base_modulus()) == 0x1c365809524ae761ae0cadd4973b15e763b69e8760aa505b124ecf1d2769ee99int) by (nonlinear_arith);
    lemma_quad(certificate_base(), e, 0x4e9e79f2a0ca991ec7a1f8280ab1b8067f157512177dab4e1276d026da51351cint, 0, base_modulus());
    let e: nat = 4 * e + 0;
    assert(quad(0x1c365809524ae761ae0cadd4973b15e763b69e8760aa505b124ecf1d2769ee99int, certificate_base(), 1, base_modulus()) == 0x3cd6f4d677e491a4d3947de1d16587192e2b68438c405ea165a4c459bd5602dbint) by (nonlinear_arith);
    lemma_quad(certificate_base(), e, 0x1c365809524ae761ae0cadd4973b15e763b69e8760aa505b124ecf1d2769ee99int, 1, base_modulus());
    let e: nat = 4 * e + 1;
    assert(quad(0x3cd6f4d677e491a4d3947de1d16587192e2b68438c405ea165a4c459bd5602dbint, certificate_base(), 2, base_modulus()) == 0xbaf91c1b8a4858cd817232019f1db42f2e7d2533e1212e7764c41833fb17c7dint) by (nonlinear_arith);
    lemma_quad(certificate_base(), e, 0x3cd6f4d677e491a4d3947de1d16587192e2b68438c405ea165a4c459bd5602dbint, 2, base_modulus());
    let e: nat = 4 * e + 2;
    assert(quad(0xbaf91c1b8a4858cd817232019f1db42f2e7d2533e1212e7764c41833fb17c7dint, certificate_base(), 1, base_modulus()) == 0x18e35f69f08703e91a2c3d4f0682b3ee2629808ef052e784a10f56f377ada31dint) by (nonlinear_arith);
    lemma_quad(certificate_base(), e, 0xbaf91c1b8a4858cd817232019f1db42f2e7d2533e1212e7764c41833fb17c7dint, 1, base_modulus());
    let e: nat = 4 * e + 1;
    assert(quad(0x18e35f69f08703e91a2c3d4f0682b3ee2629808ef052e784a10f56f377ada31dint, certificate_base(), 0, base_modulus()) == 0x7bc3b39c1fadb81043da845ea5ff20def91fb09a6a0088687dad1f165ddb15fint) by (nonlinear_arith);
    lemma_quad(certificate_base(), e, 0x18e35f69f08703e91a2c3d4f0682b3ee2629808ef052e784a10f56f377ada31dint, 0, base_modulus());
    let e: nat = 4 * e + 0;
    assert(quad(0x7bc3b39c1fadb81043da845ea5ff20def91fb09a6a0088687dad1f165ddb15fint, certificate_base(), 0, base_modulus()) == 0x7305f48c90a53e02eb8f5942fe8057fd7cc8f790100c3677f684455865c9ed52int) by (nonlinear_arith);
    lemma_quad(certificate_base(), e, 0x7bc3b39c1fadb81043da845ea5ff20def91fb09a6a0088687dad1f165ddb15fint, 0, base_modulus());
    let e: nat = 4 * e + 0;
    assert(quad(0x7305f48c90a53e02eb8f5942fe8057fd7cc8f790100c3677f684455865c9ed52int, certificate_base(), 0, base_modulus()) == 0x2e5716e7e6f17ca7e2ca3b281f7292dc9f8826b70a5e0027cefa9a426dad246int) by (nonlinear_arith);
    lemma_quad(certificate_base(), e, 0x7305f48c90a53e02eb8f5942fe8057fd7cc8f790100c3677f684455865c9ed52int, 0, base_modulus());
    let e: nat = 4 * e + 0;
    assert(quad(0x2e5716e7e6f17ca7e2ca3b281f7292dc9f8826b70a5e0027cefa9a426dad246int, certificate_base(), 1, base_modulus()) == 0x6187f012af35ba8016210efa9270c5052d56910d5868142b8b4e99ca37bc6120int) by (nonlinear_arith);
    lemma_quad(certificate_base(), e, 0x2e5716e7e6f17ca7e2ca3b281f7292dc9f8826b70a5e0027cefa9a426dad246int, 1, base_modulus());
    let e: nat = 4 * e + 1;
    assert(quad(0x6187f012af35ba8016210efa9270c5052d56910d5868142b8b4e99ca37bc6120int, certificate_base(), 0, base_modulus()) == 0x21805563561999a037d7ff647b8f6dbbaf8c6725b385f5243648c5ea8311166fint) by (nonlinear_arith);
    lemma_quad(certificate_base(), e, 0x6187f012af35ba8016210efa9270c5052d56910d5868142b8b4e99ca37bc6120int, 0, base_modulus());
    let e: nat = 4 * e + 0;
    assert(quad(0x21805563561999a037d7ff647b8f6dbbaf8c6725b385f5243648c5ea8311166fint, certificate_base(), 1, base_modulus()) == 0x706baddd70ab22dc5c32a2d8d729986f1bb465a3d7a4832afca65e5baafeef9cint) by (nonlinear_arith);
    lemma_quad(certificate_base(), e, 0x21805563561999a037d7ff647b8f6dbbaf8c6725b385f5243648c5ea8311166fint, 1, base_modulus());
    let e: nat = 4 * e + 1;
    assert(quad(0x706baddd70ab22dc5c32a2d8d729986f1bb465a3d7a4832afca65e5baafeef9cint, certificate_base(), 3, base_modulus()) == 0x5a86129b48856f5b4a216d5bc95fb6ee70351d4bc9c38b9225bac82b33260da1int) by (nonlinear_arith);
    lemma_quad(certificate_base(), e, 0x706baddd70ab22dc5c32a2d8d729986f1bb465a3d7a4832afca65e5baafeef9cint, 3, base_modulus());
    let e: nat = 4 * e + 3;
    assert(quad(0x5a86129b48856f5b4a216d5bc95fb6ee70351d4bc9c38b9225bac82b33260da1int, certificate_base(), 0, base_modulus()) == 0x15281b7fae3101818c8996c66a78cef83f219fe525018f2eebce184d9c4ae748int) by (nonlinear_arith);
    lemma_quad(certificate_base(), e, 0x5a86129b48856f5b4a216d5bc95fb6ee70351d4bc9c38b9225bac82b33260da1int, 0, base_modulus());
    let e: nat = 4 * e + 0;
    assert(quad(0x15281b7fae3101818c8996c66a78cef83f219fe525018f2eebce184d9c4ae748int, certificate_base(), 1, base_modulus()) == 0x1a7e261751c6eb807d75bd501a822d6268c823a6f1221073d8811a4b378fc201int) by (nonlinear_arith);
    lemma_quad(certificate_base(), e, 0x15281b7fae3101818c8996c66a78cef83f219fe525018f2eebce184d9c4ae748int, 1, base_modulus());
    let e: nat = 4 * e + 1;
    assert(quad(0x1a7e261751c6eb807d75bd501a822d6268c823a6f1221073d8811a4b378fc201int, certificate_base(), 1, base_modulus()) == 0x105c3ada6300ff66a516a61e852969269a5a624e8477299a4df90dd14d7c21f5int) by (nonlinear_arith);
    lemma_quad(certificate_base(), e, 0x1a7e261751c6eb807d75bd501a822d6268c823a6f1221073d8811a4b378fc201int, 1, base_modulus());
    let e: nat = 4 * e + 1;
    assert(quad(0x105c3ada6300ff66a516a61e852969269a5a624e8477299a4df90dd14d7c21f5int, certificate_base(), 2, base_modulus()) == 0x6064ab727923597d51de21becd6a205fc7537fb902ebc38db427c9b367e4756aint) by (nonlinear_arith);
    lemma_quad(certificate_base(), e, 0x105c3ada6300ff66a516a61e852969269a5a624e8477299a4df90dd14d7c21f5int, 2, base_modulus());
    let e: nat = 4 * e + 2;
    assert(quad(0x6064ab727923597d51de21becd6a205fc7537fb902ebc38db427c9b367e4756aint, certificate_base(), 0, base_modulus()) == 0x705aba4f4a939684c3974d73a04fccf33ba4a15774a7ded175c55c7b575a0b79int) by (nonlinear_arith);
    lemma_quad(certificate_base(), e, 0x6064ab727923597d51de21becd6a205fc7537fb902ebc38db427c9b367e4756aint, 0, base_modulus());
    let e: nat = 4 * e + 0;
    assert(quad(0x705aba4f4a939684c3974d73a04fccf33ba4a15774a7ded175c55c7b575a0b79int, certificate_base(), 0, base_modulus()) == 0x350fe98d37b7a1144307987fe64cfc70ac96c38ff010ea74eb162203fd88f133int) by (nonlinear_arith);
    lemma_quad(certificate_base(), e, 0x705aba4f4a939684c3974d73a04fccf33ba4a15774a7ded175c55c7b575a0b79int, 0, base_modulus());
    let e: nat = 4 * e + 0;
    assert(quad(0x350fe98d37b7a1144307987fe64cfc70ac96c38ff010ea74eb162203fd88f133int, certificate_base(), 0, base_modulus()) == 0x16d9d3cdac5d094f95508d2747d39803bc535c5ce12fc974801c894c59a2e8ebint) by (nonlinear_arith);
    lemma_quad(certificate_base(), e, 0x350fe98d37b7a1144307987fe64cfc70ac96c38ff010ea74eb162203fd88f133int, 0, base_modulus());
    let e: nat = 4 * e + 0;
    assert(quad(0x16d9d3cdac5d094f95508d2747d39803bc535c5ce12fc974801c894c59a2e8ebint, certificate_base(), 0, base_modulus()) == 0x5145c4cd2dc0beb0bcdafec84e55aa0255bbbf1eb63edd021e91484876504cf8int) by (nonlinear_arith);
    lemma_quad(certificate_base(), e, 0x16d9d3cdac5d094f95508d2747d39803bc535c5ce12fc974801c894c59a2e8ebint, 0, base_modulus());
    let e: nat = 4 * e + 0;
    assert(quad(0x5145c4cd2dc0beb0bcdafec84e55aa0255bbbf1eb63edd021e91484876504cf8int, certificate_base(), 0, base_modulus()) == 0x6eee34d57e7046e036f8f165fb4460f767c6630f9116e877007e082a436ba2e7int) by (nonlinear_arith);
    lemma_quad(certificate_base(), e, 0x5145c4cd2dc0beb0bcdafec84e55aa0255bbbf1eb63edd021e91484876504cf8int, 0, base_modulus());
    let e: nat = 4 * e + 0;
    assert(quad(0x6eee34d57e7046e036f8f165fb4460f767c6630f9116e877007e082a436ba2e7int, certificate_base(), 0, base_modulus()) == 0x3a689e83aa0a1d802e1d9a1922cc3253a672867368812f7f6499688417cd0c14int) by (nonlinear_arith);
    lemma_quad(certificate_base(), e, 0x6eee34d57e7046e036f8f165fb4460f767c6630f9116e877007e082a436ba2e7int, 0, base_modulus());
    let e: nat = 4 * e + 0;
    assert(quad(0x3a689e83aa0a1d802e1d9a1922cc3253a672867368812f7f6499688417cd0c14int, certificate_base(), 0, base_modulus()) == 0x5deb333f8727901ebe905bd4fb9ac5c77d85a937ff858ec10251f7d8831e03eint) by (nonlinear_arith);
    lemma_quad(certificate_base(), e, 0x3a689e83aa0a1d802e1d9a1922cc3253a672867368812f7f6499688417cd0c14int, 0, base_modulus());
    let e: nat = 4 * e + 0;
    assert(quad(0x5deb333f8727901ebe905bd4fb9ac5c77d85a937ff858ec10251f7d8831e03eint, certificate_base(), 0, base_modulus()) == 0x42c22911f5f07f43a22ba63dd6e7b1c839929d2e88fbbc57e6a354dda97eccd4int) by (nonlinear_arith);
    lemma_quad(certificate_base(), e, 0x5deb333f8727901ebe905bd4fb9ac5c77d85a937ff858ec10251f7d8831e03eint, 0, base_modulus());
    let e: nat = 4 * e + 0;
    assert(quad(0x42c22911f5f07f43a22ba63dd6e7b1c839929d2e88fbbc57e6a354dda97eccd4int, certificate_base(), 0, base_modulus()) == 0xac00eb8b3f7f8da70491431cab3c3cc87d188ce7a02775923c9159959a0be92int) by (nonlinear_arith);
    lemma_quad(certificate_base(), e, 0x42c22911f5f07f43a22ba63dd6e7b1c839929d2e88fbbc57e6a354dda97eccd4int, 0, base_modulus());
    let e: nat = 4 * e + 0;
    assert(quad(0xac00eb8b3f7f8da70491431cab3c3cc87d188ce7a02775923c9159959a0be92int, certificate_base(), 0, base_modulus()) == 0x43527a8bca252472eb674a1a620890d7a534af14b61e0abe74a1f6718c130477int) by (nonlinear_arith);
    lemma_quad(certificate_base(), e, 0xac00eb8b3f7f8da70491431cab3c3cc87d188ce7a02775923c9159959a0be92int, 0, base_modulus());
    let e: nat = 4 * e + 0;
    assert(quad(0x43527a8bca252472eb674a1a620890d7a534af14b61e0abe74a1f6718c130477int, certificate_base(), 0, base_modulus()) == 0x1bb466679a5d88b1ecfbede342dee7f415c1ad4c687f28a233811ea1fe0c65f4int) by (nonlinear_arith);
    lemma_quad(certificate_base(), e, 0x43527a8bca252472eb674a1a620890d7a534af14b61e0abe74a1f6718c130477int, 0, base_modulus());
    let e: nat = 4 * e + 0;
    assert(quad(0x1bb466679a5d88b1ecfbede342dee7f415c1ad4c687f28a233811ea1fe0c65f4int, certificate_base(), 0, base_modulus()) == 0x7d0c802a94a946e8cbe2437f0b4b276501dff643be95635b750da4cab28e208int) by (nonlinear_arith);
    lemma_quad(certificate_base(), e, 0x1bb466679a5d88b1ecfbede342dee7f415c1ad4c687f28a233811ea1fe0c65f4int, 0, base_modulus());
    let e: nat = 4 * e + 0;
    assert(quad(0x7d0c802a94a946e8cbe2437f0b4b276501dff643be95635b750da4cab28e208int, certificate_base(), 0, base_modulus()) == 0x476fa2fb6162ffabd84f8612c8b6cc00bd7fdf9c77487ae79733f3a6ba60eaa6int) by (nonlinear_arith);
    lemma_quad(certificate_base(), e, 0x7d0c802a94a946e8cbe2437f0b4b276501dff643be95635b750da4cab28e208int, 0, base_modulus());
    let e: nat = 4 * e + 0;
    assert(quad(0x476fa2fb6162ffabd84f8612c8b6cc00bd7fdf9c77487ae79733f3a6ba60eaa6int, certificate_base(), 0, base_modulus()) == 0x3f96405d25a31660a733b23a98ca5b22a032824078eaa4fe8dd702cb688bc087int) by (nonlinear_arith);
    lemma_quad(certificate_base(), e, 0x476fa2fb6162ffabd84f8612c8b6cc00bd7fdf9c77487ae79733f3a6ba60eaa6int, 0, base_modulus());
    let e: nat = 4 * e + 0;
    assert(quad(0x3f96405d25a31660a733b23a98ca5b22a032824078eaa4fe8dd702cb688bc087int, certificate_base(), 0, base_modulus()) == 0x73eda753299d7d483339d80809a1d80553bda402fffe5bfeffffffff00000000int) by (nonlinear_arith);
    lemma_quad(certificate_base(), e, 0x3f96405d25a31660a733b23a98ca5b22a032824078eaa4fe8dd702cb688bc087int, 0, base_modulus());
    let e: nat = 4 * e + 0;
    assert(e == 0x10d38c5c92e1a55e048298b019011c580000000int);
}

proof fn lemma_power_modulus_b()
    ensures
        pow(certificate_base(), 0x23758adedd2ff768c02d3e2f00000000nat) % base_modulus() == 0x6066d68091422459ea719b5c257f54a3a5509ba90dd017135d4facfcccdf73d6int,
{
    lemma_pow0(certificate_base());
    let e: nat = 0;
    assert(quad(1int, certificate_base(), 2, base_modulus()) == 0x4c23a1347d7be4a9d87040e88c939b340ee1d25a50ef6c5dbcc077ffaf883acbint) by (nonlinear_arith);
    lemma_quad(certificate_base(), e, 1int, 2, base_modulus());
    let e: nat = 4 * e + 2;
    assert(quad(0x4c23a1347d7be4a9d87040e88c939b340ee1d25a50ef6c5dbcc077ffaf883acbint, certificate_base(), 0, base_modulus()) == 0xc9ec0af283632cc14332d1967f7fe565d08d184f16811b3f7be5e5af6aebc52int) by (nonlinear_arith);
    lemma_quad(certificate_base(), e, 0x4c23a1347d7be4a9d87040e88c939b340ee1d25a50ef6c5dbcc077ffaf883acbint, 0, base_modulus());
    let e: nat = 4 * e + 0;
    assert(quad(0xc9ec0af283632cc14332d1967f7fe565d08d184f16811b3f7be5e5af6aebc52int, certificate_base(), 3, base_modulus()) == 0xe4870dfd943c382079c765d13cb1f1bd64abc0352c588183667074d88083f2fint) by (nonlinear_arith);
    lemma_quad(certificate_base(), e, 0xc9ec0af283632cc14332d1967f7fe565d08d184f16811b3f7be5e5af6aebc52int, 3, base_modulus());
    let e: nat = 4 * e + 3;
    assert(quad(0xe4870dfd943c382079c765d13cb1f1bd64abc0352c588183667074d88083f2fint, certificate_base(), 1, base_modulus()) == 0x5d5ff2456fdcdc35b696a8a1831cfc9a96ec2e8309e635851c2eaeccc0ac11a5int) by (nonlinear_arith);
    lemma_quad(certificate_base(), e, 0xe4870dfd943c382079c765d13cb1f1bd64abc0352c588183667074d88083f2fint, 1, base_modulus());
    let e: nat = 4 * e + 1;
    assert(quad(0x5d5ff2456fdcdc35b696a8a1831cfc9a96ec2e8309e635851c2eaeccc0ac11a5int, certificate_base(), 3, base_modulus()) == 0x126d4e63e4aab55e165276cc52a1aeaaaf5e5b5dfbaff32166762b18c2776d12int) by (nonlinear_arith);
    lemma_quad(certificate_base(), e, 0x5d5ff2456fdcdc35b696a8a1831cfc9a96ec2e8309e635851c2eaeccc0ac11a5int, 3, base_modulus());
    let e: nat = 4 * e + 3;
    assert(quad(0x126d4e63e4aab55e165276cc52a1aeaaaf5e5b5dfbaff32166762b18c2776d12int, certificate_base(), 1, base_modulus()) == 0x1d8517f3843a7659b5d6927807642645f72ef287e3191f83ce0f90c5d268dbd6int) by (nonlinear_arith);
    lemma_quad(certificate_base(), e, 0x126d4e63e4aab55e165276cc52a1aeaaaf5e5b5dfbaff32166762b18c2776d12int, 1, base_modulus());
    let e: nat = 4 * e + 1;
    assert(quad(0x1d8517f3843a7659b5d6927807642645f72ef287e3191f83ce0f90c5d268dbd6int, certificate_base(), 1, base_modulus()) == 0x318de3f665eebb8a78c204e78e93741116a8d84964b0c6e542b1379a70e24203int) by (nonlinear_arith);
    lemma_quad(certificate_base(), e, 0x1d8517f3843a7659b5d6927807642645f72ef287e3191f83ce0f90c5d268dbd6int, 1, base_modulus());
    let e: nat = 4 * e + 1;
    assert(quad(0x318de3f665eebb8a78c204e78e93741116a8d84964b0c6e542b1379a70e24203int, certificate_base(), 2, base_modulus()) == 0x978c4469ca020e27601132e985f299778f8229639157549ae1551f05ee12333int) by (nonlinear_arith);
    lemma_quad(certificate_base(), e, 0x318de3f665eebb8a78c204e78e93741116a8d84964b0c6e542b1379a70e24203int, 2, base_modulus());
    let e: nat = 4 * e + 2;
    assert(quad(0x978c4469ca020e27601132e985f299778f8229639157549ae1551f05ee12333int, certificate_base(), 0, base_modulus()) == 0x1727d858dbcd8c6dd960a60ed26a4c7fa9cfb458ac47fbabf8d1ef6d7bd7a9dint) by (nonlinear_arith);
    lemma_quad(certificate_base(), e, 0x978c4469ca020e27601132e985f299778f8229639157549ae1551f05ee12333int, 0, base_modulus());
    let e: nat = 4 * e + 0;
    assert(quad(0x1727d858dbcd8c6dd960a60ed26a4c7fa9cfb458ac47fbabf8d1ef6d7bd7a9dint, certificate_base(), 2, base_modulus()) == 0x3fd9ae71b05e559b8ecb4d48a812d91dc9ff1a7b56dc525249ef5c81053d157fint) by (nonlinear_arith);
    lemma_quad(certificate_base(), e, 0x1727d858dbcd8c6dd960a60ed26a4c7fa9cfb458ac47fbabf8d1ef6d7bd7a9dint, 2, base_modulus());
    let e: nat = 4 * e + 2;
    assert(quad(0x3fd9ae71b05e559b8ecb4d48a812d91dc9ff1a7b56dc525249ef5c81053d157fint, certificate_base(), 2, base_modulus()) == 0x12db67c965e64b147778047e48b7d481bf64c3dca1beef9994b4dfa4a974ca01int) by (nonlinear_arith);
    lemma_quad(certificate_base(), e, 0x3fd9ae71b05e559b8ecb4d48a812d91dc9ff1a7b56dc525249ef5c81053d157fint, 2, base_modulus());
    let e: nat = 4 * e + 2;
    assert(quad(0x12db67c965e64b147778047e48b7d481bf64c3dca1beef9994b4dfa4a974ca01int, certificate_base(), 3, base_modulus()) == 0x50052292c059c780e98e1657146a965be2e1da1c45deff79e65fd71a501071bdint) by (nonlinear_arith);
    lemma_quad(certificate_base(), e, 0x12db67c965e64b147778047e48b7d481bf64c3dca1beef9994b4dfa4a974ca01int, 3, base_modulus());
    let e: nat = 4 * e + 3;
    assert(quad(0x50052292c059c780e98e1657146a965be2e1da1c45deff79e65fd71a501071bdint, certificate_base(), 1, base_modulus()) == 0x32882c3772a8dbb75de4cd46e4896cc0635bed08a873c9050224ad9179938f86int) by (nonlinear_arith);
    lemma_quad(certificate_base(), e, 0x50052292c059c780e98e1657146a965be2e1da1c45deff79e65fd71a501071bdint, 1, base_modulus());
    let e: nat = 4 * e + 1;
    assert(quad(0x32882c3772a8dbb75de4cd46e4896cc0635bed08a873c9050224ad9179938f86int, certificate_base(), 3, base_modulus()) == 0x1da711573648b126d5983e6ec4cb80c3836cc132f84dfeb098799db45b773fe8int) by (nonlinear_arith);
    lemma_quad(certificate_base(), e, 0x32882c3772a8dbb75de4cd46e4896cc0635bed08a873c9050224ad9179938f86int, 3, base_modulus());
    let e: nat = 4 * e + 3;
    assert(quad(0x1da711573648b126d5983e6ec4cb80c3836cc132f84dfeb098799db45b773fe8int, certificate_base(), 2, base_modulus()) == 0x6c1c3c44590919780c86ab98ccd85dd68447b68c7dd98976e5a0822c97d72997int) by (nonlinear_arith);
    lemma_quad(certificate_base(), e, 0x1da711573648b126d5983e6ec4cb80c3836cc132f84dfeb098799db45b773fe8int, 2, base_modulus());
    let e: nat = 4 * e + 2;
    assert(quad(0x6c1c3c44590919780c86ab98ccd85dd68447b68c7dd98976e5a0822c97d72997int, certificate_base(), 3, base_modulus()) == 0x2d2cbbc8f07a30f7961ed2856295a5b54067ef9219e670da17ad9c06e3df0bbdint) by (nonlinear_arith);
    lemma_quad(certificate_base(), e, 0x6c1c3c44590919780c86ab98ccd85dd68447b68c7dd98976e5a0822c97d72997int, 3, base_modulus());
    let e: nat = 4 * e + 3;
    assert(quad(0x2d2cbbc8f07a30f7961ed2856295a5b54067ef9219e670da17ad9c06e3df0bbdint, certificate_base(), 1, base_modulus()) == 0x447628fff2616afab6aace5e4fb0d0b7fb5da1df349af2c8484e2555158dabeint) by (nonlinear_arith);
    lemma_quad(certificate_base(), e, 0x2d2cbbc8f07a30f7961ed2856295a5b54067ef9219e670da17ad9c06e3df0bbdint, 1, base_modulus());
    let e: nat = 4 * e + 1;
    assert(quad(0x447628fff2616afab6aace5e4fb0d0b7fb5da1df349af2c8484e2555158dabeint, certificate_base(), 3, base_modulus()) == 0x36cb3e47d2e1d09149829e78481466b393547d71452cb95eaed768c40eb5bcf5int) by (nonlinear_arith);
    lemma_quad(certificate_base(), e, 0x447628fff2616afab6aace5e4fb0d0b7fb5da1df349af2c8484e2555158dabeint, 3, base_modulus());
    let e: nat = 4 * e + 3;
    assert(quad(0x36cb3e47d2e1d09149829e78481466b393547d71452cb95eaed768c40eb5bcf5int, certificate_base(), 1, base_modulus()) == 0x3d87365564a9ae99b22b0a149164c8f9be41e80d1af6fd9e9c1fce4cb432f722int) by (nonlinear_arith);
    lemma_quad(certificate_base(), e, 0x36cb3e47d2e1d09149829e78481466b393547d71452cb95eaed768c40eb5bcf5int, 1, base_modulus());
    let e: nat = 4 * e + 1;
    assert(quad(0x3d87365564a9ae99b22b0a149164c8f9be41e80d1af6fd9e9c1fce4cb432f722int, certificate_base(), 0, base_modulus()) == 0x2c83b90cebcc52d2ef1ea4f62116e836d55d981c16e495e0b600f6cbd6141cdint) by (nonlinear_arith);
    lemma_quad(certificate_base(), e, 0x3d87365564a9ae99b22b0a149164c8f9be41e80d1af6fd9e9c1fce4cb432f722int, 0, base_modulus());
    let e: nat = 4 * e + 0;
    assert(quad(0x2c83b90cebcc52d2ef1ea4f62116e836d55d981c16e495e0b600f6cbd6141cdint, certificate_base(), 2, base_modulus()) == 0x6d729d723ef2b30cf520e4c42e84c1c3013710e5350518a50c092d5efaac5b69int) by (nonlinear_arith);
    lemma_quad(certificate_base(), e, 0x2c83b90cebcc52d2ef1ea4f62116e836d55d981c16e495e0b600f6cbd6141cdint, 2, base_modulus());
    let e: nat = 4 * e + 2;
    assert(quad(0x6d729d723ef2b30cf520e4c42e84c1c3013710e5350518a50c092d5efaac5b69int, certificate_base(), 3, base_modulus()) == 0x64bf9da5183bd5aa2d2d380ba5bb8730d1d50b9e9a833202fcf012f02574f37aint) by (nonlinear_arith);
    lemma_quad(certificate_base(), e, 0x6d729d723ef2b30cf520e4c42e84c1c3013710e5350518a50c092d5efaac5b69int, 3, base_modulus());
    let e: nat = 4 * e + 3;
    assert(quad(0x64bf9da5183bd5aa2d2d380ba5bb8730d1d50b9e9a833202fcf012f02574f37aint, certificate_base(), 3, base_modulus()) == 0x6701c595c7d8d601f6dff6b7479570d6a581439a335b135e701fdd15cf6292bbint) by (nonlinear_arith);
    lemma_quad(certificate_base(), e, 0x64bf9da5183bd5aa2d2d380ba5bb8730d1d50b9e9a833202fcf012f02574f37aint, 3, base_modulus());
    let e: nat = 4 * e + 3;
    assert(quad(0x6701c595c7d8d601f6dff6b7479570d6a581439a335b135e701fdd15cf6292bbint, certificate_base(), 3, base_modulus()) == 0x52ec7ae0ce8a9d9dbcb7b57849806c53809873c2b30c500f1033150e764e4713int) by (nonlinear_arith);
    lemma_quad(certificate_base(), e, 0x6701c595c7d8d601f6dff6b7479570d6a581439a335b135e701fdd15cf6292bbint, 3, base_modulus());
    let e: nat = 4 * e + 3;
    assert(quad(0x52ec7ae0ce8a9d9dbcb7b57849806c53809873c2b30c500f1033150e764e4713int, certificate_base(), 3, base_modulus()) == 0x1594ff19a8c6ec983032f0d2d39c87ec74870b9c7e6a6c87d9fc73308eac50feint) by (nonlinear_arith);
    lemma_quad(certificate_base(), e, 0x52ec7ae0ce8a9d9dbcb7b57849806c53809873c2b30c500f1033150e764e4713int, 3, base_modulus());
    let e: nat = 4 * e + 3;
    assert(quad(0x1594ff19a8c6ec983032f0d2d39c87ec74870b9c7e6a6c87d9fc73308eac50feint, certificate_base(), 1, base_modulus()) == 0x2109d91781d83c73d1bf66a41dbabf4dc66395bf8d00cd59f8541ea35228175dint) by (nonlinear_arith);
    lemma_quad(certificate_base(), e, 0x1594ff19a8c6ec983032f0d2d39c87ec74870b9c7e6a6c87d9fc73308eac50feint, 1, base_modulus());
    let e: nat = 4 * e + 1;
    assert(quad(0x2109d91781d83c73d1bf66a41dbabf4dc66395bf8d00cd59f8541ea35228175dint, certificate_base(), 3, base_modulus()) == 0x153feb179dd78e724819403937b74a13e3f1a0d45b7ee73319207cb8a476d43aint) by (nonlinear_arith);
    lemma_quad(certificate_base(), e, 0x2109d91781d83c73d1bf66a41dbabf4dc66395bf8d00cd59f8541ea35228175dint, 3, base_modulus());
    let e: nat = 4 * e + 3;
    assert(quad(0x153feb179dd78e724819403937b74a13e3f1a0d45b7ee73319207cb8a476d43aint, certificate_base(), 1, base_modulus()) == 0x3e29c0798c8ee52ffc8830ac1c91e330e60cd5991fd579fa89d3f8c849aa727bint) by (nonlinear_arith);
    lemma_quad(certificate_base(), e, 0x153feb179dd78e724819403937b74a13e3f1a0d45b7ee73319207cb8a476d43aint, 1, base_modulus());
    let e: nat = 4 * e + 1;
    assert(quad(0x3e29c0798c8ee52ffc8830ac1c91e330e60cd5991fd579fa89d3f8c849aa727bint, certificate_base(), 2, base_modulus()) == 0x9c606dec825fae49e0057fe3f589b56fd4354ef2ac83632f176a8906c8193e8int) by (nonlinear_arith);
    lemma_quad(certificate_base(), e, 0x3e29c0798c8ee52ffc8830ac1c91e330e60cd5991fd579fa89d3f8c849aa727bint, 2, base_modulus());
    let e: nat = 4 * e + 2;
    assert(quad(0x9c606dec825fae49e0057fe3f589b56fd4354ef2ac83632f176a8906c8193e8int, certificate_base(), 2, base_modulus()) == 0x329cfe74253a43b3bfc6b8764e13bc896feecd67998cfc99f4a4621a7985c8dint) by (nonlinear_arith);
    lemma_quad(certificate_base(), e, 0x9c606dec825fae49e0057fe3f589b56fd4354ef2ac83632f176a8906c8193e8int, 2, base_modulus());
    let e: nat = 4 * e + 2;
    assert(quad(0x329cfe74253a43b3bfc6b8764e13bc896feecd67998cfc99f4a4621a7985c8dint, certificate_base(), 0, base_modulus()) == 0x950f0992581b0efa44eb80e3a3fdaf60ce130b4b8f61047966a6a7a864caea7int) by (nonlinear_arith);
    lemma_quad(certificate_base(), e, 0x329cfe74253a43b3bfc6b8764e13bc896feecd67998cfc99f4a4621a7985c8dint, 0, base_modulus());
    let e: nat = 4 * e + 0;
    assert(quad(0x950f0992581b0efa44eb80e3a3fdaf60ce130b4b8f61047966a6a7a864caea7int, certificate_base(), 3, base_modulus()) == 0x5693ff2e9b3a0bbdd62268bb0df9927fbb90e52904625797b56b9655ed02fb8int) by (nonlinear_arith);
    lemma_quad(certificate_base(), e, 0x950f0992581b0efa44eb80e3a3fdaf60ce130b4b8f61047966a6a7a864caea7int, 3, base_modulus());
    let e: nat = 4 * e + 3;
    assert(quad(0x5693ff2e9b3a0bbdd62268bb0df9927fbb90e52904625797b56b9655ed02fb8int, certificate_base(), 0, base_modulus()) == 0x1ec9f9d5ade6c5adb570d829d2113ac92c6b732091818fae97ad2a64d77e7c99int) by (nonlinear_arith);
    lemma_quad(certificate_base(), e, 0x5693ff2e9b3a0bbdd62268bb0df9927fbb90e52904625797b56b9655ed02fb8int, 0, base_modulus());
    let e: nat = 4 * e + 0;
    assert(quad(0x1ec9f9d5ade6c5adb570d829d2113ac92c6b732091818fae97ad2a64d77e7c99int, certificate_base(), 0, base_modulus()) == 0x3119316e91d6e02f9b205b015a3d8d4b56bd595d7d878d7aede6c6c95e51d8acint) by (nonlinear_arith);
    lemma_quad(certificate_base(), e, 0x1ec9f9d5ade6c5adb570d829d2113ac92c6b732091818fae97ad2a64d77e7c99int, 0, base_modulus());
    let e: nat = 4 * e + 0;
    assert(quad(0x3119316e91d6e02f9b205b015a3d8d4b56bd595d7d878d7aede6c6c95e51d8acint, certificate_base(), 0, base_modulus()) == 0xeb023f7d4564e5261db262347896bb33af498745251b0f114fc188e4a44858eint) by (nonlinear_arith);
    lemma_quad(certificate_base(), e, 0x3119316e91d6e02f9b205b015a3d8d4b56bd595d7d878d7aede6c6c95e51d8acint, 0, base_modulus());
    let e: nat = 4 * e + 0;
    assert(quad(0xeb023f7d4564e5261db262347896bb33af498745251b0f114fc188e4a44858eint, certificate_base(), 0, base_modulus()) == 0x2936ed495d44c37bfd6dd1d6e7b20987c5a4d125a2aa555b70fe92bf05f741d3int) by (nonlinear_arith);
    lemma_quad(certificate_base(), e, 0xeb023f7d4564e5261db262347896bb33af498745251b0f114fc188e4a44858eint, 0, base_modulus());
    let e: nat = 4 * e + 0;
    assert(quad(0x2936ed495d44c37bfd6dd1d6e7b20987c5a4d125a2aa555b70fe92bf05f741d3int, certificate_base(), 2, base_modulus()) == 0x3f591e4c31e13248cf836ab620ffc4bb46eb92a903065b3e7b2f9eed4c0313d8int) by (nonlinear_arith);
    lemma_quad(certificate_base(), e, 0x2936ed495d44c37bfd6dd1d6e7b20987c5a4d125a2aa555b70fe92bf05f741d3int, 2, base_modulus());
    let e: nat = 4 * e + 2;
    assert(quad(0x3f591e4c31e13248cf836ab620ffc4bb46eb92a903065b3e7b2f9eed4c0313d8int, certificate_base(), 3, base_modulus()) == 0x3f04cf2d9505760963219aaf8bfc378b5aa89c0ea917d36eee3ea2cebd6ec03int) by (nonlinear_arith);
    lemma_quad(certificate_base(), e, 0x3f591e4c31e13248cf836ab620ffc4bb46eb92a903065b3e7b2f9eed4c0313d8int, 3, base_modulus());
    let e: nat = 4 * e + 3;
    assert(quad(0x3f04cf2d9505760963219aaf8bfc378b5aa89c0ea917d36eee3ea2cebd6ec03int, certificate_base(), 1, base_modulus()) == 0x11dfc437537d1450c4cf9b6939a23695811d4999bfd97cfb4b734f7ba83af33eint) by (nonlinear_arith);
    lemma_quad(certificate_base(), e, 0x3f04cf2d9505760963219aaf8bfc378b5aa89c0ea917d36eee3ea2cebd6ec03int, 1, base_modulus());
    let e: nat = 4 * e + 1;
    assert(quad(0x11dfc437537d1450c4cf9b6939a23695811d4999bfd97cfb4b734f7ba83af33eint, certificate_base(), 0, base_modulus()) == 0xed0d83d8710a472524b0649dc264afa53d594f9290b24d5422ab7521d345d1int) by (nonlinear_arith);
    lemma_quad(certificate_base(), e, 0x11dfc437537d1450c4cf9b6939a23695811d4999bfd97cfb4b734f7ba83af33eint, 0, base_modulus());
    let e: nat = 4 * e + 0;
    assert(quad(0xed0d83d8710a472524b0649dc264afa53d594f9290b24d5422ab7521d345d1int, certificate_base(), 3, base_modulus()) == 0x184d559fcd2ebaa700486c30a8614eb74df62865ddd04247a0ae99762fe3816cint) by (nonlinear_arith);
    lemma_quad(certificate_base(), e, 0xed0d83d8710a472524b0649dc264afa53d594f9290b24d5422ab7521d345d1int, 3, base_modulus());
    let e: nat = 4 * e + 3;
    assert(quad(0x184d559fcd2ebaa700486c30a8614eb74df62865ddd04247a0ae99762fe3816cint, certificate_base(), 3, base_modulus()) == 0x28afaff36a051c809456b56ff0359e6a56d3b7eb68c8a6b8e674408ed4c69ddcint) by (nonlinear_arith);
    lemma_quad(certificate_base(), e, 0x184d559fcd2ebaa700486c30a8614eb74df62865ddd04247a0ae99762fe3816cint, 3, base_modulus());
    let e: nat = 4 * e + 3;
    assert(quad(0x28afaff36a051c809456b56ff0359e6a56d3b7eb68c8a6b8e674408ed4c69ddcint, certificate_base(), 2, base_modulus()) == 0x42f2818d7555913dca11455290df2f4057cc99ae52f9f1b13f000632b38c5bbfint) by (nonlinear_arith);
    lemma_quad(certificate_base(), e, 0x28afaff36a051c809456b56ff0359e6a56d3b7eb68c8a6b8e674408ed4c69ddcint, 2, base_modulus());
    let e: nat = 4 * e + 2;
    assert(quad(0x42f2818d7555913dca11455290df2f4057cc99ae52f9f1b13f000632b38c5bbfint, certificate_base(), 0, base_modulus()) == 0x3b5132b9d6a9056adce0d24276595ea94948fe53069e4478069f324be16e222aint) by (nonlinear_arith);
    lemma_quad(certificate_base(), e, 0x42f2818d7555913dca11455290df2f4057cc99ae52f9f1b13f000632b38c5bbfint, 0, base_modulus());
    let e: nat = 4 * e + 0;
    assert(quad(0x3b5132b9d6a9056adce0d24276595ea94948fe53069e4478069f324be16e222aint, certificate_base(), 2, base_modulus()) == 0xe284e4def4f65aafd9acfcd00bad9126ce200e4e19329680ce8fdd5257a4160int) by (nonlinear_arith);
    lemma_quad(certificate_base(), e, 0x3b5132b9d6a9056adce0d24276595ea94948fe53069e4478069f324be16e222aint, 2, base_modulus());
    let e: nat = 4 * e + 2;
    assert(quad(0xe284e4def4f65aafd9acfcd00bad9126ce200e4e19329680ce8fdd5257a4160int, certificate_base(), 3, base_modulus()) == 0x1b5aa830b47c972036ce20c9cba15352cfe1a6b3b6dbe30f436911f28d708401int) by (nonlinear_arith);
    lemma_quad(certificate_base(), e, 0xe284e4def4f65aafd9acfcd00bad9126ce200e4e19329680ce8fdd5257a4160int, 3, base_modulus());
    let e: nat = 4 * e + 3;
    assert(quad(0x1b5aa830b47c972036ce20c9cba15352cfe1a6b3b6dbe30f436911f28d708401int, certificate_base(), 3, base_modulus()) == 0xb7ed5b8e6b82ec4ba3c5a6eb57a54c2658522e2be704689778e2a00c6b8c78int) by (nonlinear_arith);
    lemma_quad(certificate_base(), e, 0x1b5aa830b47c972036ce20c9cba15352cfe1a6b3b6dbe30f436911f28d708401int, 3, base_modulus());
    let e: nat = 4 * e + 3;
    assert(quad(0xb7ed5b8e6b82ec4ba3c5a6eb57a54c2658522e2be704689778e2a00c6b8c78int, certificate_base(), 0, base_modulus()) == 0x59246c5df471096e64460c7ccf282145f4c620002f707cb308cc39eaadb560e3int) by (nonlinear_arith);
    lemma_quad(certificate_base(), e, 0xb7ed5b8e6b82ec4ba3c5a6eb57a54c2658522e2be704689778e2a00c6b8c78int, 0, base_modulus());
    let e: nat = 4 * e + 0;
    assert(quad(0x59246c5df471096e64460c7ccf282145f4c620002f707cb308cc39eaadb560e3int, certificate_base(), 0, base_modulus()) == 0x22c069fa55ccac0d6810e79badf988a479fb2a471b56df0c23da2afdff9a6b23int) by (nonlinear_arith);
    lemma_quad(certificate_base(), e, 0x59246c5df471096e64460c7ccf282145f4c620002f707cb308cc39eaadb560e3int, 0, base_modulus());
    let e: nat = 4 * e + 0;
    assert(quad(0x22c069fa55ccac0d6810e79badf988a479fb2a471b56df0c23da2afdff9a6b23int, certificate_base(), 0, base_modulus()) == 0x16f9e252a882c2f30bed55915e0fba60a99a0550d8eac362bfc3bc4a398e34d5int) by (nonlinear_arith);
    lemma_quad(certificate_base(), e, 0x22c069fa55ccac0d6810e79badf988a479fb2a471b56df0c23da2afdff9a6b23int, 0, base_modulus());
    let e: nat = 4 * e + 0;
    assert(quad(0x16f9e252a882c2f30bed55915e0fba60a99a0550d8eac362bfc3bc4a398e34d5int, certificate_base(), 0, base_modulus()) == 0x21964795060cc9a3e892f1cd0f71a9155ba1e1db9f05a9da315b55f7689c0e62int) by (nonlinear_arith);
    lemma_quad(certificate_base(), e, 0x16f9e252a882c2f30bed55915e0fba60a99a0550d8eac362bfc3bc4a398e34d5int, 0, base_modulus());
    let e: nat = 4 * e + 0;
    assert(quad(0x21964795060cc9a3e892f1cd0f71a9155ba1e1db9f05a9da315b55f7689c0e62int, certificate_base(), 0, base_modulus()) == 0x68e1a3f49a427e0ac00968545979f1b254684a1e82fa68590e5d17b43b11dc31int) by (nonlinear_arith);
    lemma_quad(certificate_base(), e, 0x21964795060cc9a3e892f1cd0f71a9155ba1e1db9f05a9da315b55f7689c0e62int, 0, base_modulus());
    let e: nat = 4 * e + 0;
    assert(quad(0x68e1a3f49a427e0ac00968545979f1b254684a1e82fa68590e5d17b43b11dc31int, certificate_base(), 0, base_modulus()) == 0x511ec89cf18591dcc913b5cd59a73d1ed8bd463af1afbbe274fc93543d0bbf2aint) by (nonlinear_arith);
    lemma_quad(certificate_base(), e, 0x68e1a3f49a427e0ac00968545979f1b254684a1e82fa68590e5d17b43b11dc31int, 0, base_modulus());
    let e: nat = 4 * e + 0;
    assert(quad(0x511ec89cf18591dcc913b5cd59a73d1ed8bd463af1afbbe274fc93543d0bbf2aint, certificate_base(), 0, base_modulus()) == 0x6f2bae912c1c79025d3239b85b421b4c90d5f9fcfe55e0ac9dff8234e0754221int) by (nonlinear_arith);
    lemma_quad(certificate_base(), e, 0x511ec89cf18591dcc913b5cd59a73d1ed8bd463af1afbbe274fc93543d0bbf2aint, 0, base_modulus());
    let e: nat = 4 * e + 0;
    assert(quad(0x6f2bae912c1c79025d3239b85b421b4c90d5f9fcfe55e0ac9dff8234e0754221int, certificate_base(), 0, base_modulus()) == 0x15d310575aa880f0da215240807b704890982597ee999cc5c1243e42fff6038int) by (nonlinear_arith);
    lemma_quad(certificate_base(), e, 0x6f2bae912c1c79025d3239b85b421b4c90d5f9fcfe55e0ac9dff8234e0754221int, 0, base_modulus());
    let e: nat = 4 * e + 0;
    assert(quad(0x15d310575aa880f0da215240807b704890982597ee999cc5c1243e42fff6038int, certificate_base(), 0, base_modulus()) == 0x32c7bfa99fe713343841d447cca2beca1558621f6fd94ebed3c8a898f978bbd0int) by (nonlinear_arith);
    lemma_quad(certificate_base(), e, 0x15d310575aa880f0da215240807b704890982597ee999cc5c1243e42fff6038int, 0, base_modulus());
    let e: nat = 4 * e + 0;
    assert(quad(0x32c7bfa99fe713343841d447cca2beca1558621f6fd94ebed3c8a898f978bbd0int, certificate_base(), 0, base_modulus()) == 0xb084ab4c5baa2575b5b23bb395636702c415f5f7f94d2c3286b27addd44e9b5int) by (nonlinear_arith);
    lemma_quad(certificate_base(), e, 0x32c7bfa99fe713343841d447cca2beca1558621f6fd94ebed3c8a898f978bbd0int, 0, base_modulus());
    let e: nat = 4 * e + 0;
    assert(quad(0xb084ab4c5baa2575b5b23bb395636702c415f5f7f94d2c3286b27addd44e9b5int, certificate_base(), 0, base_modulus()) == 0x217fa3aa96467fa9b05a9a9c16d108a237c0f560605a750bf464df57bcf94b24int) by (nonlinear_arith);
    lemma_quad(certificate_base(), e, 0xb084ab4c5baa2575b5b23bb395636702c415f5f7f94d2c3286b27addd44e9b5int, 0, base_modulus());
    let e: nat = 4 * e + 0;
    assert(quad(0x217fa3aa96467fa9b05a9a9c16d108a237c0f560605a750bf464df57bcf94b24int, certificate_base(), 0, base_modulus()) == 0x14808ab938534ebda1827b8ed86b6021a85350826d7fed8a2d6691378d5ae445int) by (nonlinear_arith);
    lemma_quad(certificate_base(), e, 0x217fa3aa96467fa9b05a9a9c16d108a237c0f560605a750bf464df57bcf94b24int, 0, base_modulus());
    let e: nat = 4 * e + 0;
    assert(quad(0x14808ab938534ebda1827b8ed86b6021a85350826d7fed8a2d6691378d5ae445int, certificate_base(), 0, base_modulus()) == 0x18b0330a1ff26f1769ee3eee1fd8d2852b33c22cc9578957616e0496c77813f6int) by (nonlinear_arith);
    lemma_quad(certificate_base(), e, 0x14808ab938534ebda1827b8ed86b6021a85350826d7fed8a2d6691378d5ae445int, 0, base_modulus());
    let e: nat = 4 * e + 0;
    assert(quad(0x18b0330a1ff26f1769ee3eee1fd8d2852b33c22cc9578957616e0496c77813f6int, certificate_base(), 0, base_modulus()) == 0x43a1077d4901ac641e637862c4a2f5897565a27ba52612e75adcbbcdbb462f5eint) by (nonlinear_arith);
    lemma_quad(certificate_base(), e, 0x18b0330a1ff26f1769ee3eee1fd8d2852b33c22cc9578957616e0496c77813f6int, 0, base_modulus());
    let e: nat = 4 * e + 0;
    assert(quad(0x43a1077d4901ac641e637862c4a2f5897565a27ba52612e75adcbbcdbb462f5eint, certificate_base(), 0, base_modulus()) == 0x178328fb7e926ee8cba13bceddd688f44e91fcdecb3c411c0e46bcb96fb6db6cint) by (nonlinear_arith);
    lemma_quad(certificate_base(), e, 0x43a1077d4901ac641e637862c4a2f5897565a27ba52612e75adcbbcdbb462f5eint, 0, base_modulus());
    let e: nat = 4 * e + 0;
    assert(quad(0x178328fb7e926ee8cba13bceddd688f44e91fcdecb3c411c0e46bcb96fb6db6cint, certificate_base(), 0, base_modulus()) == 0x6066d68091422459ea719b5c257f54a3a5509ba90dd017135d4facfcccdf73d6int) by (nonlinear_arith);
    lemma_quad(certificate_base(), e, 0x178328fb7e926ee8cba13bceddd688f44e91fcdecb3c411c0e46bcb96fb6db6cint, 0, base_modulus());
    let e: nat = 4 * e + 0;
    assert(e == 0x23758adedd2ff768c02d3e2f00000000int);
}

proof fn lemma_power_modulus_c()
    ensures
        pow(certificate_base(), 0x26ef00da9cb7f800dd93002cd700000000nat) % base_modulus() == 0xa59bce66d135443a905cbe27f7ef0033465237fca4ffdb9927f6206dba51b0aint,
{
    lemma_pow0(certificate_base());
    let e: nat = 0;
    assert(quad(1int, certificate_base(), 2, base_modulus()) == 0x4c23a1347d7be4a9d87040e88c939b340ee1d25a50ef6c5dbcc077ffaf883acbint) by (nonlinear_arith);
    lemma_quad(certificate_base(), e, 1int, 2, base_modulus());
    let e: nat = 4 * e + 2;
    assert(quad(0x4c23a1347d7be4a9d87040e88c939b340ee1d25a50ef6c5dbcc077ffaf883acbint, certificate_base(), 1, base_modulus()) == 0x3dde2dd3c27683a17989e1a4ec424c6736a57c09cb8f31325e350bcf19c0a680int) by (nonlinear_arith);
    lemma_quad(certificate_base(), e, 0x4c23a1347d7be4a9d87040e88c939b340ee1d25a50ef6c5dbcc077ffaf883acbint, 1, base_modulus());
    let e: nat = 4 * e + 1;
    assert(quad(0x3dde2dd3c27683a17989e1a4ec424c6736a57c09cb8f31325e350bcf19c0a680int, certificate_base(), 2, base_modulus()) == 0x245394026ffd048b6127d6ff014f830133131ac43227083241181d79b694e3efint) by (nonlinear_arith);
    lemma_quad(certificate_base(), e, 0x3dde2dd3c27683a17989e1a4ec424c6736a57c09cb8f31325e350bcf19c0a680int, 2, base_modulus());
    let e: nat = 4 * e + 2;
    assert(quad(0x245394026ffd048b6127d6ff014f830133131ac43227083241181d79b694e3efint, certificate_base(), 3, base_modulus()) == 0x568f9183d98276a314f4852e971fc339419480643b85c0684ed29b25c5fff829int) by (nonlinear_arith);
    lemma_quad(certificate_base(), e, 0x245394026ffd048b6127d6ff014f830133131ac43227083241181d79b694e3efint, 3, base_modulus());
    let e: nat = 4 * e + 3;
    assert(quad(0x568f9183d98276a314f4852e971fc339419480643b85c0684ed29b25c5fff829int, certificate_base(), 2, base_modulus()) == 0x28cdc9d22a10a4a78073bc8e815630385d8f4c59b83f113d32d5e29bdba32a5aint) by (nonlinear_arith);
    lemma_quad(certificate_base(), e, 0x568f9183d98276a314f4852e971fc339419480643b85c0684ed29b25c5fff829int, 2, base_modulus());
    let e: nat = 4 * e + 2;
    assert(quad(0x28cdc9d22a10a4a78073bc8e815630385d8f4c59b83f113d32d5e29bdba32a5aint, certificate_base(), 3, base_modulus()) == 0x6f6f180076fbfb688eaf4397d76996baa4bba531ff45438ba2bbb0c1511306aeint) by (nonlinear_arith);
    lemma_quad(certificate_base(), e, 0x28cdc9d22a10a4a78073bc8e815630385d8f4c59b83f113d32d5e29bdba32a5aint, 3, base_modulus());
    let e: nat = 4 * e + 3;
    assert(quad(0x6f6f180076fbfb688eaf4397d76996baa4bba531ff45438ba2bbb0c1511306aeint, certificate_base(), 3, base_modulus()) == 0x13e6e35d948179e42a746f0a7cf79ef574b1671cab879dd69e928abc4d298405int) by (nonlinear_arith);
    lemma_quad(certificate_base(), e, 0x6f6f180076fbfb688eaf4397d76996baa4bba531ff45438ba2bbb0c1511306aeint, 3, base_modulus());
    let e: nat = 4 * e + 3;
    assert(quad(0x13e6e35d948179e42a746f0a7cf79ef574b1671cab879dd69e928abc4d298405int, certificate_base(), 0, base_modulus()) == 0x34b59164621d49dda41689331018ef7ceec8c3e5a06a9af033916ff33753df85int) by (nonlinear_arith);
    lemma_quad(certificate_base(), e, 0x13e6e35d948179e42a746f0a7cf79ef574b1671cab879dd69e928abc4d298405int, 0, base_modulus());
    let e: nat = 4 * e + 0;
    assert(quad(0x34b59164621d49dda41689331018ef7ceec8c3e5a06a9af033916ff33753df85int, certificate_base(), 0, base_modulus()) == 0x7168d5d7b98d9c532f17bb08a940f88e2048a3c262e2440a3f99242f1b807cafint) by (nonlinear_arith);
    lemma_quad(certificate_base(), e, 0x34b59164621d49dda41689331018ef7ceec8c3e5a06a9af033916ff33753df85int, 0, base_modulus());
    let e: nat = 4 * e + 0;
    assert(quad(0x7168d5d7b98d9c532f17bb08a940f88e2048a3c262e2440a3f99242f1b807cafint, certificate_base(), 0, base_modulus()) == 0x62a28a4a86978bbce8b64398639191e8f7bfd66d4d15567eaf1e7d79493c1a36int) by (nonlinear_arith);
    lemma_quad(certificate_base(), e, 0x7168d5d7b98d9c532f17bb08a940f88e2048a3c262e2440a3f99242f1b807cafint, 0, base_modulus());
    let e: nat = 4 * e + 0;
    assert(quad(0x62a28a4a86978bbce8b64398639191e8f7bfd66d4d15567eaf1e7d79493c1a36int, certificate_base(), 0, base_modulus()) == 0x4740954deb06f58129765ba10283a3d673dca74ef972a516e76aac1fa26a9561int) by (nonlinear_arith);
    lemma_quad(certificate_base(), e, 0x62a28a4a86978bbce8b64398639191e8f7bfd66d4d15567eaf1e7d79493c1a36int, 0, base_modulus());
    let e: nat = 4 * e + 0;
    assert(quad(0x4740954deb06f58129765ba10283a3d673dca74ef972a516e76aac1fa26a9561int, certificate_base(), 3, base_modulus()) == 0x45985b2b29cada9168c62da1ab1cbe0dca29d5b842273b821ef4b9eb4484e2ccint) by (nonlinear_arith);
    lemma_quad(certificate_base(), e, 0x4740954deb06f58129765ba10283a3d673dca74ef972a516e76aac1fa26a9561int, 3, base_modulus());
    let e: nat = 4 * e + 3;
    assert(quad(0x45985b2b29cada9168c62da1ab1cbe0dca29d5b842273b821ef4b9eb4484e2ccint, certificate_base(), 1, base_modulus()) == 0x26759be0d2b4774621263b177f0d97008482aaff5fd5d3bfb853552eff9d318int) by (nonlinear_arith);
    lemma_quad(certificate_base(), e, 0x45985b2b29cada9168c62da1ab1cbe0dca29d5b842273b821ef4b9eb4484e2ccint, 1, base_modulus());
    let e: nat = 4 * e + 1;
    assert(quad(0x26759be0d2b4774621263b177f0d97008482aaff5fd5d3bfb853552eff9d318int, certificate_base(), 2, base_modulus()) == 0x72f77395f476df7a3605345111f8860f11be1c551255df985a1424e4c0ff6336int) by (nonlinear_arith);
    lemma_quad(certificate_base(), e, 0x26759be0d2b4774621263b177f0d97008482aaff5fd5d3bfb853552eff9d318int, 2, base_modulus());
    let e: nat = 4 * e + 2;
    assert(quad(0x72f77395f476df7a3605345111f8860f11be1c551255df985a1424e4c0ff6336int, certificate_base(), 2, base_modulus()) == 0x4aa9cbfbb243b4c4d0650632f01dfb3c074f5d8caeadd57aa8ab3284b909b1f0int) by (nonlinear_arith);
    lemma_quad(certificate_base(), e, 0x72f77395f476df7a3605345111f8860f11be1c551255df985a1424e4c0ff6336int, 2, base_modulus());
    let e: nat = 4 * e + 2;
    assert(quad(0x4aa9cbfbb243b4c4d0650632f01dfb3c074f5d8caeadd57aa8ab3284b909b1f0int, certificate_base(), 2, base_modulus()) == 0x66f68f1569499b2027def3efa879dfca39d0e97d50641f2b1b076fdc81958404int) by (nonlinear_arith);
    lemma_quad(certificate_base(), e, 0x4aa9cbfbb243b4c4d0650632f01dfb3c074f5d8caeadd57aa8ab3284b909b1f0int, 2, base_modulus());
    let e: nat = 4 * e + 2;
    assert(quad(0x66f68f1569499b2027def3efa879dfca39d0e97d50641f2b1b076fdc81958404int, certificate_base(), 1, base_modulus()) == 0x1c3b59463404fde03bd2aee32a73bb19e9bc0497112b0c2928f3b73794e91d79int) by (nonlinear_arith);
    lemma_quad(certificate_base(), e, 0x66f68f1569499b2027def3efa879dfca39d0e97d50641f2b1b076fdc81958404int, 1, base_modulus());
    let e: nat = 4 * e + 1;
    assert(quad(0x1c3b59463404fde03bd2aee32a73bb19e9bc0497112b0c2928f3b73794e91d79int, certificate_base(), 3, base_modulus()) == 0x61b779536c9d824b8abb47970755c2003a88c6a39acd52dbf2a9c2eac653d5c0int) by (nonlinear_arith);
    lemma_quad(certificate_base(), e, 0x1c3b59463404fde03bd2aee32a73bb19e9bc0497112b0c2928f3b73794e91d79int, 3, base_modulus());
    let e: nat = 4 * e + 3;
    assert(quad(0x61b779536c9d824b8abb47970755c2003a88c6a39acd52dbf2a9c2eac653d5c0int, certificate_base(), 0, base_modulus()) == 0x17d3b508e7a3695d4ec64e4950eeedaac72e3c9d7783b10585e446aaab243a30int) by (nonlinear_arith);
    lemma_quad(certificate_base(), e, 0x61b779536c9d824b8abb47970755c2003a88c6a39acd52dbf2a9c2eac653d5c0int, 0, base_modulus());
    let e: nat = 4 * e + 0;
    assert(quad(0x17d3b508e7a3695d4ec64e4950eeedaac72e3c9d7783b10585e446aaab243a30int, certificate_base(), 2, base_modulus()) == 0x539a0a7804d899608dfdc182080f23ae07a2a32b69e83b5dc9f7e80849971c2eint) by (nonlinear_arith);
    lemma_quad(certificate_base(), e, 0x17d3b508e7a3695d4ec64e4950eeedaac72e3c9d7783b10585e446aaab243a30int, 2, base_modulus());
    let e: nat = 4 * e + 2;
    assert(quad(0x539a0a7804d899608dfdc182080f23ae07a2a32b69e83b5dc9f7e80849971c2eint, certificate_base(), 3, base_modulus()) == 0x50ad25cfd09bff8f5d868b5d071042a0576247c6486f83349f6776ff794be355int) by (nonlinear_arith);
    lemma_quad(certificate_base(), e, 0x539a0a7804d899608dfdc182080f23ae07a2a32b69e83b5dc9f7e80849971c2eint, 3, base_modulus());
    let e: nat = 4 * e + 3;
    assert(quad(0x50ad25cfd09bff8f5d868b5d071042a0576247c6486f83349f6776ff794be355int, certificate_base(), 1, base_modulus()) == 0x114352b35e8acf9a4d30ee11cf5be6e602e7839fb5ea4e8c5a1bbb3ac654e563int) by (nonlinear_arith);
    lemma_quad(certificate_base(), e, 0x50ad25cfd09bff8f5d868b5d071042a0576247c6486f83349f6776ff794be355int, 1, base_modulus());
    let e: nat = 4 * e + 1;
    assert(quad(0x114352b35e8acf9a4d30ee11cf5be6e602e7839fb5ea4e8c5a1bbb3ac654e563int, certificate_base(), 3, base_modulus()) == 0x116fdfb900a2f0b0a3006eb6fa6ec28916fb8ce43f9a005cd5deca9077c1957bint) by (nonlinear_arith);
    lemma_quad(certificate_base(), e, 0x114352b35e8acf9a4d30ee11cf5be6e602e7839fb5ea4e8c5a1bbb3ac654e563int, 3, base_modulus());
    let e: nat = 4 * e + 3;
    assert(quad(0x116fdfb900a2f0b0a3006eb6fa6ec28916fb8ce43f9a005cd5deca9077c1957bint, certificate_base(), 3, base_modulus()) == 0x5ce8219e0637b7bcfcdaeea9b068f3d3426105ea0938fc15875fa5978475efd5int) by (nonlinear_arith);
    lemma_quad(certificate_base(), e, 0x116fdfb900a2f0b0a3006eb6fa6ec28916fb8ce43f9a005cd5deca9077c1957bint, 3, base_modulus());
    let e: nat = 4 * e + 3;
    assert(quad(0x5ce8219e0637b7bcfcdaeea9b068f3d3426105ea0938fc15875fa5978475efd5int, certificate_base(), 3, base_modulus()) == 0x812c2e64df080870a89ee9810b2380c52a15665a7a2181ce5c6575ace47069cint) by (nonlinear_arith);
    lemma_quad(certificate_base(), e, 0x5ce8219e0637b7bcfcdaeea9b068f3d3426105ea0938fc15875fa5978475efd5int, 3, base_modulus());
    let e: nat = 4 * e + 3;
    assert(quad(0x812c2e64df080870a89ee9810b2380c52a15665a7a2181ce5c6575ace47069cint, certificate_base(), 2, base_modulus()) == 0x9808fb5f0d0dc378c0bd1055f7052f5646d6173262986ae344788a645fc8b2eint) by (nonlinear_arith);
    lemma_quad(certificate_base(), e, 0x812c2e64df080870a89ee9810b2380c52a15665a7a2181ce5c6575ace47069cint, 2, base_modulus());
    let e: nat = 4 * e + 2;
    assert(quad(0x9808fb5f0d0dc378c0bd1055f7052f5646d6173262986ae344788a645fc8b2eint, certificate_base(), 0, base_modulus()) == 0x1eff7eb30f1a3cd0e7b188016da8ea44f5b83c924d3396a71f2fb05dcc37fb9dint) by (nonlinear_arith);
    lemma_quad(certificate_base(), e, 0x9808fb5f0d0dc378c0bd1055f7052f5646d6173262986ae344788a645fc8b2eint, 0, base_modulus());
    let e: nat = 4 * e + 0;
    assert(quad(0x1eff7eb30f1a3cd0e7b188016da8ea44f5b83c924d3396a71f2fb05dcc37fb9dint, certificate_base(), 0, base_modulus()) == 0x3b9fa92e1ad888ac00c99b8ea6f28ec79f02e105a9d0748aaadb1d6c3f7a4817int) by (nonlinear_arith);
    lemma_quad(certificate_base(), e, 0x1eff7eb30f1a3cd0e7b188016da8ea44f5b83c924d3396a71f2fb05dcc37fb9dint, 0, base_modulus());
    let e: nat = 4 * e + 0;
    assert(quad(0x3b9fa92e1ad888ac00c99b8ea6f28ec79f02e105a9d0748aaadb1d6c3f7a4817int, certificate_base(), 0, base_modulus()) == 0x446e915e3b31bbbe0a9b705d0c9348a4f318ec790e976f3b05d5415f4db56041int) by (nonlinear_arith);
    lemma_quad(certificate_base(), e, 0x3b9fa92e1ad888ac00c99b8ea6f28ec79f02e105a9d0748aaadb1d6c3f7a4817int, 0, base_modulus());
    let e: nat = 4 * e + 0;
    assert(quad(0x446e915e3b31bbbe0a9b705d0c9348a4f318ec790e976f3b05d5415f4db56041int, certificate_base(), 0, base_modulus()) == 0x713cf4f4faefabffce89f43ed10115e567055772a741bfc8dfb7160c6624760eint) by (nonlinear_arith);
    lemma_quad(certificate_base(), e, 0x446e915e3b31bbbe0a9b705d0c9348a4f318ec790e976f3b05d5415f4db56041int, 0, base_modulus());
    let e: nat = 4 * e + 0;
    assert(quad(0x713cf4f4faefabffce89f43ed10115e567055772a741bfc8dfb7160c6624760eint, certificate_base(), 0, base_modulus()) == 0x1405b37a7679d15385da1f02f5a5291a1dab698cf91c50d4cb6514a18d12f92fint) by (nonlinear_arith);
    lemma_quad(certificate_base(), e, 0x713cf4f4faefabffce89f43ed10115e567055772a741bfc8dfb7160c6624760eint, 0, base_modulus());
    let e: nat = 4 * e + 0;
    assert(quad(0x1405b37a7679d15385da1f02f5a5291a1dab698cf91c50d4cb6514a18d12f92fint, certificate_base(), 3, base_modulus()) == 0x63fc166d8664c155fd69e4a1930628b7e29fc6a69cc2d062bf98219acf3bd661int) by (nonlinear_arith);
    lemma_quad(certificate_base(), e, 0x1405b37a7679d15385da1f02f5a5291a1dab698cf91c50d4cb6514a18d12f92fint, 3, base_modulus());
    let e: nat = 4 * e + 3;
    assert(quad(0x63fc166d8664c155fd69e4a1930628b7e29fc6a69cc2d062bf98219acf3bd661int, certificate_base(), 1, base_modulus()) == 0x13e718a1c7c8528e6f14443f63209e73a4061ddc85e6de1be8c6997eed0c99c9int) by (nonlinear_arith);
    lemma_quad(certificate_base(), e, 0x63fc166d8664c155fd69e4a1930628b7e29fc6a69cc2d062bf98219acf3bd661int, 1, base_modulus());
    let e: nat = 4 * e + 1;
    assert(quad(0x13e718a1c7c8528e6f14443f63209e73a4061ddc85e6de1be8c6997eed0c99c9int, certificate_base(), 3, base_modulus()) == 0x3499478d7e794102b04dd172d5b72a24757a998f2b97497a4dff1b160a601868int) by (nonlinear_arith);
    lemma_quad(certificate_base(), e, 0x13e718a1c7c8528e6f14443f63209e73a4061ddc85e6de1be8c6997eed0c99c9int, 3, base_modulus());
    let e: nat = 4 * e + 3;
    assert(quad(0x3499478d7e794102b04dd172d5b72a24757a998f2b97497a4dff1b160a601868int, certificate_base(), 1, base_modulus()) == 0x37e589c93837fac35357e90892efb0c63a07a970707e3cad45f484eee6cb4386int) by (nonlinear_arith);
    lemma_quad(certificate_base(), e, 0x3499478d7e794102b04dd172d5b72a24757a998f2b97497a4dff1b160a601868int, 1, base_modulus());
    let e: nat = 4 * e + 1;
    assert(quad(0x37e589c93837fac35357e90892efb0c63a07a970707e3cad45f484eee6cb4386int, certificate_base(), 2, base_modulus()) == 0x6da8e2171fc9bbc448bc82ec7df691cc191a93068fbdbd1fd23ed7c680e74bd1int) by (nonlinear_arith);
    lemma_quad(certificate_base(), e, 0x37e589c93837fac35357e90892efb0c63a07a970707e3cad45f484eee6cb4386int, 2, base_modulus());
    let e: nat = 4 * e + 2;
    assert(quad(0x6da8e2171fc9bbc448bc82ec7df691cc191a93068fbdbd1fd23ed7c680e74bd1int, certificate_base(), 1, base_modulus()) == 0x187f29df7f210193dfdae72db1e3dc1751bc3f7fc019d7a76ee92d86de13d87cint) by (nonlinear_arith);
    lemma_quad(certificate_base(), e, 0x6da8e2171fc9bbc448bc82ec7df691cc191a93068fbdbd1fd23ed7c680e74bd1int, 1, base_modulus());
    let e: nat = 4 * e + 1;
    assert(quad(0x187f29df7f210193dfdae72db1e3dc1751bc3f7fc019d7a76ee92d86de13d87cint, certificate_base(), 0, base_modulus()) == 0x27afcc414f769aa0b7dcc865a77a32f2ec1790c9db24dfc997d178af26e0543cint) by (nonlinear_arith);
    lemma_quad(certificate_base(), e, 0x187f29df7f210193dfdae72db1e3dc1751bc3f7fc019d7a76ee92d86de13d87cint, 0, base_modulus());
    let e: nat = 4 * e + 0;
    assert(quad(0x27afcc414f769aa0b7dcc865a77a32f2ec1790c9db24dfc997d178af26e0543cint, certificate_base(), 3, base_modulus()) == 0x58bcd27e6da1dba299741f74d4eeba4df4e2ead2f8e55c10c061db1515a0d14int) by (nonlinear_arith);
    lemma_quad(certificate_base(), e, 0x27afcc414f769aa0b7dcc865a77a32f2ec1790c9db24dfc997d178af26e0543cint, 3, base_modulus());
    let e: nat = 4 * e + 3;
    assert(quad(0x58bcd27e6da1dba299741f74d4eeba4df4e2ead2f8e55c10c061db1515a0d14int, certificate_base(), 0, base_modulus()) == 0x2d7fbbfecc3a3730469b52c8aa1b238b457c070954ccaa975e51ba3799e7273bint) by (nonlinear_arith);
    lemma_quad(certificate_base(), e, 0x58bcd27e6da1dba299741f74d4eeba4df4e2ead2f8e55c10c061db1515a0d14int, 0, base_modulus());
    let e: nat = 4 * e + 0;
    assert(quad(0x2d7fbbfecc3a3730469b52c8aa1b238b457c070954ccaa975e51ba3799e7273bint, certificate_base(), 0, base_modulus()) == 0x3ae54bbbb4467a963e96b2b95403db82ae617afbdaa946713b19fae038f4db87int) by (nonlinear_arith);
    lemma_quad(certificate_base(), e, 0x2d7fbbfecc3a3730469b52c8aa1b238b457c070954ccaa975e51ba3799e7273bint, 0, base_modulus());
    let e: nat = 4 * e + 0;
    assert(quad(0x3ae54bbbb4467a963e96b2b95403db82ae617afbdaa946713b19fae038f4db87int, certificate_base(), 0, base_modulus()) == 0x4414c84e3d9e85e1f8897e9eb7e73031344d1076719d915679d4f093ced9b543int) by (nonlinear_arith);
    lemma_quad(certificate_base(), e, 0x3ae54bbbb4467a963e96b2b95403db82ae617afbdaa946713b19fae038f4db87int, 0, base_modulus());
    let e: nat = 4 * e + 0;
    assert(quad(0x4414c84e3d9e85e1f8897e9eb7e73031344d1076719d915679d4f093ced9b543int, certificate_base(), 0, base_modulus()) == 0x287b2b05b877d0850df79f7c6971efd4e57eed3bda929859021e3dc1ed35e011int) by (nonlinear_arith);
    lemma_quad(certificate_base(), e, 0x4414c84e3d9e85e1f8897e9eb7e73031344d1076719d915679d4f093ced9b543int, 0, base_modulus());
    let e: nat = 4 * e + 0;
    assert(quad(0x287b2b05b877d0850df79f7c6971efd4e57eed3bda929859021e3dc1ed35e011int, certificate_base(), 0, base_modulus()) == 0x3ac06ca31f16b1624d8a973b77b142070a54b2683b78b35187ce142f98ffc472int) by (nonlinear_arith);
    lemma_quad(certificate_base(), e, 0x287b2b05b877d0850df79f7c6971efd4e57eed3bda929859021e3dc1ed35e011int, 0, base_modulus());
    let e: nat = 4 * e + 0;
    assert(quad(0x3ac06ca31f16b1624d8a973b77b142070a54b2683b78b35187ce142f98ffc472int, certificate_base(), 2, base_modulus()) == 0x67c58a70a5a7c88f83148f9d526ac1f4cae277d3649492f40c70bc48a55260fint) by (nonlinear_arith);
    lemma_quad(certificate_base(), e, 0x3ac06ca31f16b1624d8a973b77b142070a54b2683b78b35187ce142f98ffc472int, 2, base_modulus());
    let e: nat = 4 * e + 2;
    assert(quad(0x67c58a70a5a7c88f83148f9d526ac1f4cae277d3649492f40c70bc48a55260fint, certificate_base(), 3, base_modulus()) == 0x33c50598835146a7cd33490cc709c9dc57aafa45d706c6f843202d4a9219bdaaint) by (nonlinear_arith);
    lemma_quad(certificate_base(), e, 0x67c58a70a5a7c88f83148f9d526ac1f4cae277d3649492f40c70bc48a55260fint, 3, base_modulus());
    let e: nat = 4 * e + 3;
    assert(quad(0x33c50598835146a7cd33490cc709c9dc57aafa45d706c6f843202d4a9219bdaaint, certificate_base(), 0, base_modulus()) == 0x56024cc27d79b00929cd8dc79dabd450651e3d62988b21969e743454aba23841int) by (nonlinear_arith);
    lemma_quad(certificate_base(), e, 0x33c50598835146a7cd33490cc709c9dc57aafa45d706c6f843202d4a9219bdaaint, 0, base_modulus());
    let e: nat = 4 * e + 0;
    assert(quad(0x56024cc27d79b00929cd8dc79dabd450651e3d62988b21969e743454aba23841int, certificate_base(), 3, base_modulus()) == 0x38ff14f87d6c867f614679ebb1baa14510337dfe8e7fe8c1439b1ce8ff27d4a2int) by (nonlinear_arith);
    lemma_quad(certificate_base(), e, 0x56024cc27d79b00929cd8dc79dabd450651e3d62988b21969e743454aba23841int, 3, base_modulus());
    let e: nat = 4 * e + 3;
    assert(quad(0x38ff14f87d6c867f614679ebb1baa14510337dfe8e7fe8c1439b1ce8ff27d4a2int, certificate_base(), 1, base_modulus()) == 0x2a29c1e1577278a681260d56b672f9a44b3e2109aaf48245d555f089f27c5f53int) by (nonlinear_arith);
    lemma_quad(certificate_base(), e, 0x38ff14f87d6c867f614679ebb1baa14510337dfe8e7fe8c1439b1ce8ff27d4a2int, 1, base_modulus());
    let e: nat = 4 * e + 1;
    assert(quad(0x2a29c1e1577278a681260d56b672f9a44b3e2109aaf48245d555f089f27c5f53int, certificate_base(), 1, base_modulus()) == 0x2885602db4e5e98d427749d81dc1daffc2e8877f643c6f5c7ed7ce4b6aeee8bfint) by (nonlinear_arith);
    lemma_quad(certificate_base(), e, 0x2a29c1e1577278a681260d56b672f9a44b3e2109aaf48245d555f089f27c5f53int, 1, base_modulus());
    let e: nat = 4 * e + 1;
    assert(quad(0x2885602db4e5e98d427749d81dc1daffc2e8877f643c6f5c7ed7ce4b6aeee8bfint, certificate_base(), 3, base_modulus()) == 0x5dc7f6503c83bf0c16b5617c170bec2cd2d4d9cfc74f740e41e30706af11b45int) by (nonlinear_arith);
    lemma_quad(certificate_base(), e, 0x2885602db4e5e98d427749d81dc1daffc2e8877f643c6f5c7ed7ce4b6aeee8bfint, 3, base_modulus());
    let e: nat = 4 * e + 3;
    assert(quad(0x5dc7f6503c83bf0c16b5617c170bec2cd2d4d9cfc74f740e41e30706af11b45int, certificate_base(), 0, base_modulus()) == 0x67d5541fb75a5738a664fbfd378423b8714257741e9c53fe73db94fbba5ae2abint) by (nonlinear_arith);
    lemma_quad(certificate_base(), e, 0x5dc7f6503c83bf0c16b5617c170bec2cd2d4d9cfc74f740e41e30706af11b45int, 0, base_modulus());
    let e: nat = 4 * e + 0;
    assert(quad(0x67d5541fb75a5738a664fbfd378423b8714257741e9c53fe73db94fbba5ae2abint, certificate_base(), 0, base_modulus()) == 0x326c4c107cb2325714e77fa269aef973e628297919a492b995cf318aa5102befint) by (nonlinear_arith);
    lemma_quad(certificate_base(), e, 0x67d5541fb75a5738a664fbfd378423b8714257741e9c53fe73db94fbba5ae2abint, 0, base_modulus());
    let e: nat = 4 * e + 0;
    assert(quad(0x326c4c107cb2325714e77fa269aef973e628297919a492b995cf318aa5102befint, certificate_base(), 0, base_modulus()) == 0xe7a46b0b1970dfeaffe1bd014a5d8a031c039885704a905f78ab3a9b5a87829int) by (nonlinear_arith);
    lemma_quad(certificate_base(), e, 0x326c4c107cb2325714e77fa269aef973e628297919a492b995cf318aa5102befint, 0, base_modulus());
    let e: nat = 4 * e + 0;
    assert(quad(0xe7a46b0b1970dfeaffe1bd014a5d8a031c039885704a905f78ab3a9b5a87829int, certificate_base(), 0, base_modulus()) == 0xec4e408a391fdb9186b9a49326d2fb4bf834a9b4ab841d8534e0db9bb4f098aint) by (nonlinear_arith);
    lemma_quad(certificate_base(), e, 0xe7a46b0b1970dfeaffe1bd014a5d8a031c039885704a905f78ab3a9b5a87829int, 0, base_modulus());
    let e: nat = 4 * e + 0;
    assert(quad(0xec4e408a391fdb9186b9a49326d2fb4bf834a9b4ab841d8534e0db9bb4f098aint, certificate_base(), 0, base_modulus()) == 0x6d4f44ff9b881cd86be901077f74a12c9bd020802be15598ee8c51932fa39aedint) by (nonlinear_arith);
    lemma_quad(certificate_base(), e, 0xec4e408a391fdb9186b9a49326d2fb4bf834a9b4ab841d8534e0db9bb4f098aint, 0, base_modulus());
    let e: nat = 4 * e + 0;
    assert(quad(0x6d4f44ff9b881cd86be901077f74a12c9bd020802be15598ee8c51932fa39aedint, certificate_base(), 0, base_modulus()) == 0x4bebccb97d7560f32a1ed98d4ee345bcbcee407bdd94cdb3ed8be4d3782aa298int) by (nonlinear_arith);
    lemma_quad(certificate_base(), e, 0x6d4f44ff9b881cd86be901077f74a12c9bd020802be15598ee8c51932fa39aedint, 0, base_modulus());
    let e: nat = 4 * e + 0;
    assert(quad(0x4bebccb97d7560f32a1ed98d4ee345bcbcee407bdd94cdb3ed8be4d3782aa298int, certificate_base(), 0, base_modulus()) == 0x28086608bb57a935b92114cf5bff97ec799c8b5b27fd9bd3d1052e9194eec9afint) by (nonlinear_arith);
    lemma_quad(certificate_base(), e, 0x4bebccb97d7560f32a1ed98d4ee345bcbcee407bdd94cdb3ed8be4d3782aa298int, 0, base_modulus());
    let e: nat = 4 * e + 0;
    assert(quad(0x28086608bb57a935b92114cf5bff97ec799c8b5b27fd9bd3d1052e9194eec9afint, certificate_base(), 0, base_modulus()) == 0x621b11096a8e29a2a3b2f01086326a57a12894e12e1335d9ea8e48655b2acc9int) by (nonlinear_arith);
    lemma_quad(certificate_base(), e, 0x28086608bb57a935b92114cf5bff97ec799c8b5b27fd9bd3d1052e9194eec9afint, 0, base_modulus());
    let e: nat = 4 * e + 0;
    assert(quad(0x621b11096a8e29a2a3b2f01086326a57a12894e12e1335d9ea8e48655b2acc9int, certificate_base(), 0, base_modulus()) == 0x5f51397970865e0dfd087c2f331f5ba2e6824f2722e7e952c5421fb455959a0bint) by (nonlinear_arith);
    lemma_quad(certificate_base(), e, 0x621b11096a8e29a2a3b2f01086326a57a12894e12e1335d9ea8e48655b2acc9int, 0, base_modulus());
    let e: nat = 4 * e + 0;
    assert(quad(0x5f51397970865e0dfd087c2f331f5ba2e6824f2722e7e952c5421fb455959a0bint, certificate_base(), 0, base_modulus()) == 0x4a60868a78a982a8258c44a2de3129cf779f955a8d5285a0ba2d47a073be2bf5int) by (nonlinear_arith);
    lemma_quad(certificate_base(), e, 0x5f51397970865e0dfd087c2f331f5ba2e6824f2722e7e952c5421fb455959a0bint, 0, base_modulus());
    let e: nat = 4 * e + 0;
    assert(quad(0x4a60868a78a982a8258c44a2de3129cf779f955a8d5285a0ba2d47a073be2bf5int, certificate_base(), 0, base_modulus()) == 0x587492cdf5f889aef3a3030a3ebfbc5dfc26dde34fa01db9d64e428526379202int) by (nonlinear_arith);
    lemma_quad(certificate_base(), e, 0x4a60868a78a982a8258c44a2de3129cf779f955a8d5285a0ba2d47a073be2bf5int, 0, base_modulus());
    let e: nat = 4 * e + 0;
    assert(quad(0x587492cdf5f889aef3a3030a3ebfbc5dfc26dde34fa01db9d64e428526379202int, certificate_base(), 0, base_modulus()) == 0x69bec2267d3aca58de19335563ed327a810ac0f28ffea3cc3bc3ce6fe4657da8int) by (nonlinear_arith);
    lemma_quad(certificate_base(), e, 0x587492cdf5f889aef3a3030a3ebfbc5dfc26dde34fa01db9d64e428526379202int, 0, base_modulus());
    let e: nat = 4 * e + 0;
    assert(quad(0x69bec2267d3aca58de19335563ed327a810ac0f28ffea3cc3bc3ce6fe4657da8int, certificate_base(), 0, base_modulus()) == 0x58db00f7b663c8452a94b6731e76fe509f51d70aa3ad4f2cba24533529f86fe4int) by (nonlinear_arith);
    lemma_quad(certificate_base(), e, 0x69bec2267d3aca58de19335563ed327a810ac0f28ffea3cc3bc3ce6fe4657da8int, 0, base_modulus());
    let e: nat = 4 * e + 0;
    assert(quad(0x58db00f7b663c8452a94b6731e76fe509f51d70aa3ad4f2cba24533529f86fe4int, certificate_base(), 0, base_modulus()) == 0x3cdc4265720c86247dfbc58c0f5b43a8c496f6ca135be9a45fef0c4cce613a03int) by (nonlinear_arith);
    lemma_quad(certificate_base(), e, 0x58db00f7b663c8452a94b6731e76fe509f51d70aa3ad4f2cba24533529f86fe4int, 0, base_modulus());
    let e: nat = 4 * e + 0;
    assert(quad(0x3cdc4265720c86247dfbc58c0f5b43a8c496f6ca135be9a45fef0c4cce613a03int, certificate_base(), 0, base_modulus()) == 0x50f981a640ecac8328cf00626493e68b1fea14037904bf8eeb5cc209099abcf6int) by (nonlinear_arith);
    lemma_quad(certificate_base(), e, 0x3cdc4265720c86247dfbc58c0f5b43a8c496f6ca135be9a45fef0c4cce613a03int, 0, base_modulus());
    let e: nat = 4 * e + 0;
    assert(quad(0x50f981a640ecac8328cf00626493e68b1fea14037904bf8eeb5cc209099abcf6int, certificate_base(), 0, base_modulus()) == 0xa59bce66d135443a905cbe27f7ef0033465237fca4ffdb9927f6206dba51b0aint) by (nonlinear_arith);
    lemma_quad(certificate_base(), e, 0x50f981a640ecac8328cf00626493e68b1fea14037904bf8eeb5cc209099abcf6int, 0, base_modulus());
    let e: nat = 4 * e + 0;
    assert(e == 0x26ef00da9cb7f800dd93002cd700000000int);
}

proof fn lemma_power_modulus_d()
    ensures
        pow(certificate_base(), 0xac45a4010001a4020000000100000000nat) % base_modulus() == 0x3ce42c62e198920c5ceb364ca985648aae2fa68c6b8868a1167c2adeee9037bint,
{
    lemma_pow0(certificate_base());
    let e: nat = 0;
    assert(quad(1int, certificate_base(), 2, base_modulus()) == 0x4c23a1347d7be4a9d87040e88c939b340ee1d25a50ef6c5dbcc077ffaf883acbint) by (nonlinear_arith);
    lemma_quad(certificate_base(), e, 1int, 2, base_modulus());
    let e: nat = 4 * e + 2;
    assert(quad(0x4c23a1347d7be4a9d87040e88c939b340ee1d25a50ef6c5dbcc077ffaf883acbint, certificate_base(), 2, base_modulus()) == 0xacd338b230f72f3dfd86fc458cd163a5693fd6a4e814faa2b271f8ba974fbfcint) by (nonlinear_arith);
    lemma_quad(certificate_base(), e, 0x4c23a1347d7be4a9d87040e88c939b340ee1d25a50ef6c5dbcc077ffaf883acbint, 2, base_modulus());
    let e: nat = 4 * e + 2;
    assert(quad(0xacd338b230f72f3dfd86fc458cd163a5693fd6a4e814faa2b271f8ba974fbfcint, certificate_base(), 3, base_modulus()) == 0x52eb56b41c9322cb680ee66d6e2221691d6196f6673526cf499e34fa960bd754int) by (nonlinear_arith);
    lemma_quad(certificate_base(), e, 0xacd338b230f72f3dfd86fc458cd163a5693fd6a4e814faa2b271f8ba974fbfcint, 3, base_modulus());
    let e: nat = 4 * e + 3;
    assert(quad(0x52eb56b41c9322cb680ee66d6e2221691d6196f6673526cf499e34fa960bd754int, certificate_base(), 0, base_modulus()) == 0x31ad11f0f8f84f2a55ab6c4083689f0329d665f8c5b0b280b156052fc6338f4int) by (nonlinear_arith);
    lemma_quad(certificate_base(), e, 0x52eb56b41c9322cb680ee66d6e2221691d6196f6673526cf499e34fa960bd754int, 0, base_modulus());
    let e: nat = 4 * e + 0;
    assert(quad(0x31ad11f0f8f84f2a55ab6c4083689f0329d665f8c5b0b280b156052fc6338f4int, certificate_base(), 1, base_modulus()) == 0x2ff72aa96eccbd13a575e31dda71b5b766102304237e828b1964ecf3719fcf9int) by (nonlinear_arith);
    lemma_quad(certificate_base(), e, 0x31ad11f0f8f84f2a55ab6c4083689f0329d665f8c5b0b280b156052fc6338f4int, 1, base_modulus());
    let e: nat = 4 * e + 1;
    assert(quad(0x2ff72aa96eccbd13a575e31dda71b5b766102304237e828b1964ecf3719fcf9int, certificate_base(), 0, base_modulus()) == 0x23f2126a771a68453c7c7816df6d64c95a8f222ff469fe4995012df6d93b4e31int) by (nonlinear_arith);
    lemma_quad(certificate_base(), e, 0x2ff72aa96eccbd13a575e31dda71b5b766102304237e828b1964ecf3719fcf9int, 0, base_modulus());
    let e: nat = 4 * e + 0;
    assert(quad(0x23f2126a771a68453c7c7816df6d64c95a8f222ff469fe4995012df6d93b4e31int, certificate_base(), 1, base_modulus()) == 0x1091e05bcb8b46e688057b785a007c21cd8d3d0fd3d7e55164d84dac5d153d33int) by (nonlinear_arith);
    lemma_quad(certificate_base(), e, 0x23f2126a771a68453c7c7816df6d64c95a8f222ff469fe4995012df6d93b4e31int, 1, base_modulus());
    let e: nat = 4 * e + 1;
    assert(quad(0x1091e05bcb8b46e688057b785a007c21cd8d3d0fd3d7e55164d84dac5d153d33int, certificate_base(), 1, base_modulus()) == 0x16978a8bdb9f5e099fbd2ac455553bd7b194f1f62524159a349cd49b681270c6int) by (nonlinear_arith);
    lemma_quad(certificate_base(), e, 0x1091e05bcb8b46e688057b785a007c21cd8d3d0fd3d7e55164d84dac5d153d33int, 1, base_modulus());
    let e: nat = 4 * e + 1;
    assert(quad(0x16978a8bdb9f5e099fbd2ac455553bd7b194f1f62524159a349cd49b681270c6int, certificate_base(), 2, base_modulus()) == 0x3a4f5ea1ced2cfe250011d718e0a06f8fe94a21c9bb60cc187bd0c279d2c25a8int) by (nonlinear_arith);
    lemma_quad(certificate_base(), e, 0x16978a8bdb9f5e099fbd2ac455553bd7b194f1f62524159a349cd49b681270c6int, 2, base_modulus());
    let e: nat = 4 * e + 2;
    assert(quad(0x3a4f5ea1ced2cfe250011d718e0a06f8fe94a21c9bb60cc187bd0c279d2c25a8int, certificate_base(), 2, base_modulus()) == 0x17ae240b472261a7edf43a6d1af82bffe5048aa8040a55d755011e1d8265c3f7int) by (nonlinear_arith);
    lemma_quad(certificate_base(), e, 0x3a4f5ea1ced2cfe250011d718e0a06f8fe94a21c9bb60cc187bd0c279d2c25a8int, 2, base_modulus());
    let e: nat = 4 * e + 2;
    assert(quad(0x17ae240b472261a7edf43a6d1af82bffe5048aa8040a55d755011e1d8265c3f7int, certificate_base(), 1, base_modulus()) == 0x503dc8e9ac45b65849ba62c96a312562179007ba623769a7001d1155a3dfa1f3int) by (nonlinear_arith);
    lemma_quad(certificate_base(), e, 0x17ae240b472261a7edf43a6d1af82bffe5048aa8040a55d755011e1d8265c3f7int, 1, base_modulus());
    let e: nat = 4 * e + 1;
    assert(quad(0x503dc8e9ac45b65849ba62c96a312562179007ba623769a7001d1155a3dfa1f3int, certificate_base(), 0, base_modulus()) == 0x5c7740625798fe8947162f4c7ca9e8d7bd2adeaa6c83d02245f36db7bcf44abaint) by (nonlinear_arith);
    lemma_quad(certificate_base(), e, 0x503dc8e9ac45b65849ba62c96a312562179007ba623769a7001d1155a3dfa1f3int, 0, base_modulus());
    let e: nat = 4 * e + 0;
    assert(quad(0x5c7740625798fe8947162f4c7ca9e8d7bd2adeaa6c83d02245f36db7bcf44abaint, certificate_base(), 0, base_modulus()) == 0x66c97190e5d09f7acbe5a36248bdd24307eac7ca281285bd0d0291f8ecaa7153int) by (nonlinear_arith);
    lemma_quad(certificate_base(), e, 0x5c7740625798fe8947162f4c7ca9e8d7bd2adeaa6c83d02245f36db7bcf44abaint, 0, base_modulus());
    let e: nat = 4 * e + 0;
    assert(quad(0x66c97190e5d09f7acbe5a36248bdd24307eac7ca281285bd0d0291f8ecaa7153int, certificate_base(), 0, base_modulus()) == 0x6f91c4eaf6b7b0ca02976bd60905bb8ee5c38502893415bf6c5d48bac0495448int) by (nonlinear_arith);
    lemma_quad(certificate_base(), e, 0x66c97190e5d09f7acbe5a36248bdd24307eac7ca281285bd0d0291f8ecaa7153int, 0, base_modulus());
    let e: nat = 4 * e + 0;
    assert(quad(0x6f91c4eaf6b7b0ca02976bd60905bb8ee5c38502893415bf6c5d48bac0495448int, certificate_base(), 0, base_modulus()) == 0x214231b1679030316cd01cc7e65eb5878245ec0b44cad2bbfbee2ec0cbc7b220int) by (nonlinear_arith);
    lemma_quad(certificate_base(), e, 0x6f91c4eaf6b7b0ca02976bd60905bb8ee5c38502893415bf6c5d48bac0495448int, 0, base_modulus());
    let e: nat = 4 * e + 0;
    assert(quad(0x214231b1679030316cd01cc7e65eb5878245ec0b44cad2bbfbee2ec0cbc7b220int, certificate_base(), 1, base_modulus()) == 0x47fc70b2deb963e58bad10546662eb6cf80b6c989fcce0d31c3f7488988c0b8int) by (nonlinear_arith);
    lemma_quad(certificate_base(), e, 0x214231b1679030316cd01cc7e65eb5878245ec0b44cad2bbfbee2ec0cbc7b220int, 1, base_modulus());
    let e: nat = 4 * e + 1;
    assert(quad(0x47fc70b2deb963e58bad10546662eb6cf80b6c989fcce0d31c3f7488988c0b8int, certificate_base(), 0, base_modulus()) == 0x37d65bc24c69cad285a1669050b70f334db024a16d9c322cebd58b06522437e5int) by (nonlinear_arith);
    lemma_quad(certificate_base(), e, 0x47fc70b2deb963e58bad10546662eb6cf80b6c989fcce0d31c3f7488988c0b8int, 0, base_modulus());
    let e: nat = 4 * e + 0;
    assert(quad(0x37d65bc24c69cad285a1669050b70f334db024a16d9c322cebd58b06522437e5int, certificate_base(), 0, base_modulus()) == 0x61a639f3309ee0d7acb3bbfb12201c339760ce1670b9c3249cf455f45321bbd9int) by (nonlinear_arith);
    lemma_quad(certificate_base(), e, 0x37d65bc24c69cad285a1669050b70f334db024a16d9c322cebd58b06522437e5int, 0, base_modulus());
    let e: nat = 4 * e + 0;
    assert(quad(0x61a639f3309ee0d7acb3bbfb12201c339760ce1670b9c3249cf455f45321bbd9int, certificate_base(), 0, base_modulus()) == 0x4f017bdf3ad723f127b694be04bb9d553b21b80f16b891bce798720bed5416d2int) by (nonlinear_arith);
    lemma_quad(certificate_base(), e, 0x61a639f3309ee0d7acb3bbfb12201c339760ce1670b9c3249cf455f45321bbd9int, 0, base_modulus());
    let e: nat = 4 * e + 0;
    assert(quad(0x4f017bdf3ad723f127b694be04bb9d553b21b80f16b891bce798720bed5416d2int, certificate_base(), 0, base_modulus()) == 0x7ee32acbe0b8cb4c6c32ef8f72cd45bc084e8f93f7e6e8fc994f8fa780ad375int) by (nonlinear_arith);
    lemma_quad(certificate_base(), e, 0x4f017bdf3ad723f127b694be04bb9d553b21b80f16b891bce798720bed5416d2int, 0, base_modulus());
    let e: nat = 4 * e + 0;
    assert(quad(0x7ee32acbe0b8cb4c6c32ef8f72cd45bc084e8f93f7e6e8fc994f8fa780ad375int, certificate_base(), 0, base_modulus()) == 0x15490f92976667451f8ce2e10b1dab1eadbf456049a0451a947f0ff0472682bfint) by (nonlinear_arith);
    lemma_quad(certificate_base(), e, 0x7ee32acbe0b8cb4c6c32ef8f72cd45bc084e8f93f7e6e8fc994f8fa780ad375int, 0, base_modulus());
    let e: nat = 4 * e + 0;
    assert(quad(0x15490f92976667451f8ce2e10b1dab1eadbf456049a0451a947f0ff0472682bfint, certificate_base(), 0, base_modulus()) == 0x70327d17b28ff00f370f8e8e2f731c7af5e615fefd970b3cc85501c48ba36d29int) by (nonlinear_arith);
    lemma_quad(certificate_base(), e, 0x15490f92976667451f8ce2e10b1dab1eadbf456049a0451a947f0ff0472682bfint, 0, base_modulus());
    let e: nat = 4 * e + 0;
    assert(quad(0x70327d17b28ff00f370f8e8e2f731c7af5e615fefd970b3cc85501c48ba36d29int, certificate_base(), 0, base_modulus()) == 0x5017b58afb83c12f4b6b6b3efd819a1049dfdb79da044021a357f6ce586bb3c8int) by (nonlinear_arith);
    lemma_quad(certificate_base(), e, 0x70327d17b28ff00f370f8e8e2f731c7af5e615fefd970b3cc85501c48ba36d29int, 0, base_modulus());
    let e: nat = 4 * e + 0;
    assert(quad(0x5017b58afb83c12f4b6b6b3efd819a1049dfdb79da044021a357f6ce586bb3c8int, certificate_base(), 1, base_modulus()) == 0x683e62cdf8cfaf53d9d0d1efee445ee99f4113b8c521edf3f9510fd792c8d642int) by (nonlinear_arith);
    lemma_quad(certificate_base(), e, 0x5017b58afb83c12f4b6b6b3efd819a1049dfdb79da044021a357f6ce586bb3c8int, 1, base_modulus());
    let e: nat = 4 * e + 1;
    assert(quad(0x683e62cdf8cfaf53d9d0d1efee445ee99f4113b8c521edf3f9510fd792c8d642int, certificate_base(), 2, base_modulus()) == 0x18120c5302ecbdc038fa8e4d2f139b043374f6f9ba0ed2934632e10a39c2458bint) by (nonlinear_arith);
    lemma_quad(certificate_base(), e, 0x683e62cdf8cfaf53d9d0d1efee445ee99f4113b8c521edf3f9510fd792c8d642int, 2, base_modulus());
    let e: nat = 4 * e + 2;
    assert(quad(0x18120c5302ecbdc038fa8e4d2f139b043374f6f9ba0ed2934632e10a39c2458bint, certificate_base(), 2, base_modulus()) == 0x7041f3fd4ac164d6800150eda250b2c4984d980162f969a4d35def0c47f7f32dint) by (nonlinear_arith);
    lemma_quad(certificate_base(), e, 0x18120c5302ecbdc038fa8e4d2f139b043374f6f9ba0ed2934632e10a39c2458bint, 2, base_modulus());
    let e: nat = 4 * e + 2;
    assert(quad(0x7041f3fd4ac164d6800150eda250b2c4984d980162f969a4d35def0c47f7f32dint, certificate_base(), 1, base_modulus()) == 0x42e71686b5b16a2cb8c49d1260d66c596c74c76a17e584b0a34267ae0211b298int) by (nonlinear_arith);
    lemma_quad(certificate_base(), e, 0x7041f3fd4ac164d6800150eda250b2c4984d980162f969a4d35def0c47f7f32dint, 1, base_modulus());
    let e: nat = 4 * e + 1;
    assert(quad(0x42e71686b5b16a2cb8c49d1260d66c596c74c76a17e584b0a34267ae0211b298int, certificate_base(), 0, base_modulus()) == 0x6ad19814cc720ccc7e1cbbd872c2b800076adabebfb9d82884fd52a8ef45e188int) by (nonlinear_arith);
    lemma_quad(certificate_base(), e, 0x42e71686b5b16a2cb8c49d1260d66c596c74c76a17e584b0a34267ae0211b298int, 0, base_modulus());
    let e: nat = 4 * e + 0;
    assert(quad(0x6ad19814cc720ccc7e1cbbd872c2b800076adabebfb9d82884fd52a8ef45e188int, certificate_base(), 0, base_modulus()) == 0x554425a3ac041c0275c64175a4396bb033897861bec032cccd201b96187a7c91int) by (nonlinear_arith);
    lemma_quad(certificate_base(), e, 0x6ad19814cc720ccc7e1cbbd872c2b800076adabebfb9d82884fd52a8ef45e188int, 0, base_modulus());
    let e: nat = 4 * e + 0;
    assert(quad(0x554425a3ac041c0275c64175a4396bb033897861bec032cccd201b96187a7c91int, certificate_base(), 0, base_modulus()) == 0x2884ef0c50ab2c5aab2675500f26e8f4dcee343f6392746c75c8b739ec2367aaint) by (nonlinear_arith);
    lemma_quad(certificate_base(), e, 0x554425a3ac041c0275c64175a4396bb033897861bec032cccd201b96187a7c91int, 0, base_modulus());
    let e: nat = 4 * e + 0;
    assert(quad(0x2884ef0c50ab2c5aab2675500f26e8f4dcee343f6392746c75c8b739ec2367aaint, certificate_base(), 0, base_modulus()) == 0x552fe8a92dfcc3e0505e23f978744815a9d0d5cd063523cd9ff22ee858a47c3cint) by (nonlinear_arith);
    lemma_quad(certificate_base(), e, 0x2884ef0c50ab2c5aab2675500f26e8f4dcee343f6392746c75c8b739ec2367aaint, 0, base_modulus());
    let e: nat = 4 * e + 0;
    assert(quad(0x552fe8a92dfcc3e0505e23f978744815a9d0d5cd063523cd9ff22ee858a47c3cint, certificate_base(), 2, base_modulus()) == 0x68e91c295764715201639d026f054b336d9c3f414ab3e4a6c350c72967cd6250int) by (nonlinear_arith);
    lemma_quad(certificate_base(), e, 0x552fe8a92dfcc3e0505e23f978744815a9d0d5cd063523cd9ff22ee858a47c3cint, 2, base_modulus());
    let e: nat = 4 * e + 2;
    assert(quad(0x68e91c295764715201639d026f054b336d9c3f414ab3e4a6c350c72967cd6250int, certificate_base(), 0, base_modulus()) == 0x405e7edace69cbfafad3cc17f6c21d500805d2ae7ff6987d9ca48e1ff7e88e94int) by (nonlinear_arith);
    lemma_quad(certificate_base(), e, 0x68e91c295764715201639d026f054b336d9c3f414ab3e4a6c350c72967cd6250int, 0, base_modulus());
    let e: nat = 4 * e + 0;
    assert(quad(0x405e7edace69cbfafad3cc17f6c21d500805d2ae7ff6987d9ca48e1ff7e88e94int, certificate_base(), 0, base_modulus()) == 0x30d116a5de7ea04aa74580a6530267e0771c41ecce897d60d36f411e8ee7da43int) by (nonlinear_arith);
    lemma_quad(certificate_base(), e, 0x405e7edace69cbfafad3cc17f6c21d500805d2ae7ff6987d9ca48e1ff7e88e94int, 0, base_modulus());
    let e: nat = 4 * e + 0;
    assert(quad(0x30d116a5de7ea04aa74580a6530267e0771c41ecce897d60d36f411e8ee7da43int, certificate_base(), 0, base_modulus()) == 0x2f6fa8a9c9a7f44cbefd2ce63c37b55194ecd83e60c798531f1176a407a80ad7int) by (nonlinear_arith);
    lemma_quad(certificate_base(), e, 0x30d116a5de7ea04aa74580a6530267e0771c41ecce897d60d36f411e8ee7da43int, 0, base_modulus());
    let e: nat = 4 * e + 0;
    assert(quad(0x2f6fa8a9c9a7f44cbefd2ce63c37b55194ecd83e60c798531f1176a407a80ad7int, certificate_base(), 0, base_modulus()) == 0x2fc2fdf68becdeca1b89960504f95620635b4a56c8ab5ebbba0b2feef599a84int) by (nonlinear_arith);
    lemma_quad(certificate_base(), e, 0x2f6fa8a9c9a7f44cbefd2ce63c37b55194ecd83e60c798531f1176a407a80ad7int, 0, base_modulus());
    let e: nat = 4 * e + 0;
    assert(quad(0x2fc2fdf68becdeca1b89960504f95620635b4a56c8ab5ebbba0b2feef599a84int, certificate_base(), 0, base_modulus()) == 0x64fd81f0106731792b24e5e316f83a78d16b6c05ecee95a59789f3c2264280c2int) by (nonlinear_arith);
    lemma_quad(certificate_base(), e, 0x2fc2fdf68becdeca1b89960504f95620635b4a56c8ab5ebbba0b2feef599a84int, 0, base_modulus());
    let e: nat = 4 * e + 0;
    assert(quad(0x64fd81f0106731792b24e5e316f83a78d16b6c05ecee95a59789f3c2264280c2int, certificate_base(), 0, base_modulus()) == 0x3ef2eea0fcc468e29bdd606357125fda58ddcf2d4d50b1fb561a209f7e1da9daint) by (nonlinear_arith);
    lemma_quad(certificate_base(), e, 0x64fd81f0106731792b24e5e316f83a78d16b6c05ecee95a59789f3c2264280c2int, 0, base_modulus());
    let e: nat = 4 * e + 0;
    assert(quad(0x3ef2eea0fcc468e29bdd606357125fda58ddcf2d4d50b1fb561a209f7e1da9daint, certificate_base(), 0, base_modulus()) == 0x20305c5a2112b854cea16e5e689f737d794831feda5fc72f64d9821506987b87int) by (nonlinear_arith);
    lemma_quad(certificate_base(), e, 0x3ef2eea0fcc468e29bdd606357125fda58ddcf2d4d50b1fb561a209f7e1da9daint, 0, base_modulus());
    let e: nat = 4 * e + 0;
    assert(quad(0x20305c5a2112b854cea16e5e689f737d794831feda5fc72f64d9821506987b87int, certificate_base(), 0, base_modulus()) == 0x6cee216bfd16f8c6c1adff24f6fcd862450e313fade1b4daee61559b2c2929d0int) by (nonlinear_arith);
    lemma_quad(certificate_base(), e, 0x20305c5a2112b854cea16e5e689f737d794831feda5fc72f64d9821506987b87int, 0, base_modulus());
    let e: nat = 4 * e + 0;
    assert(quad(0x6cee216bfd16f8c6c1adff24f6fcd862450e313fade1b4daee61559b2c2929d0int, certificate_base(), 0, base_modulus()) == 0x408a0a4784483d720f25efb2b4e417e539b888a103df17420bc855d65f9ad27cint) by (nonlinear_arith);
    lemma_quad(certificate_base(), e, 0x6cee216bfd16f8c6c1adff24f6fcd862450e313fade1b4daee61559b2c2929d0int, 0, base_modulus());
    let e: nat = 4 * e + 0;
    assert(quad(0x408a0a4784483d720f25efb2b4e417e539b888a103df17420bc855d65f9ad27cint, certificate_base(), 0, base_modulus()) == 0x24c7e30a9d4268b5512e23f69667e79c91a60f03dda8b1c6c6f546758826117dint) by (nonlinear_arith);
    lemma_quad(certificate_base(), e, 0x408a0a4784483d720f25efb2b4e417e539b888a103df17420bc855d65f9ad27cint, 0, base_modulus());
    let e: nat = 4 * e + 0;
    assert(quad(0x24c7e30a9d4268b5512e23f69667e79c91a60f03dda8b1c6c6f546758826117dint, certificate_base(), 0, base_modulus()) == 0x3aab34f4830641cb7d41e91588f27a2314af3ab8fd2dc22bec0db389847ee2e2int) by (nonlinear_arith);
    lemma_quad(certificate_base(), e, 0x24c7e30a9d4268b5512e23f69667e79c91a60f03dda8b1c6c6f546758826117dint, 0, base_modulus());
    let e: nat = 4 * e + 0;
    assert(quad(0x3aab34f4830641cb7d41e91588f27a2314af3ab8fd2dc22bec0db389847ee2e2int, certificate_base(), 0, base_modulus()) == 0x6e51fa65d2c2809aabb2b7d238bd5e0d207ad29a7020eebda26c1dc6f299a9dfint) by (nonlinear_arith);
    lemma_quad(certificate_base(), e, 0x3aab34f4830641cb7d41e91588f27a2314af3ab8fd2dc22bec0db389847ee2e2int, 0, base_modulus());
    let e: nat = 4 * e + 0;
    assert(quad(0x6e51fa65d2c2809aabb2b7d238bd5e0d207ad29a7020eebda26c1dc6f299a9dfint, certificate_base(), 0, base_modulus()) == 0x2c725422b28f295ee0240890fa98c6d4dd5907d47a63885dc9249911cd81c284int) by (nonlinear_arith);
    lemma_quad(certificate_base(), e, 0x6e51fa65d2c2809aabb2b7d238bd5e0d207ad29a7020eebda26c1dc6f299a9dfint, 0, base_modulus());
    let e: nat = 4 * e + 0;
    assert(quad(0x2c725422b28f295ee0240890fa98c6d4dd5907d47a63885dc9249911cd81c284int, certificate_base(), 0, base_modulus()) == 0x72bf4e7f935e392582972ad40f79de555c24a74c71287ee383d6e24372bf03aeint) by (nonlinear_arith);
    lemma_quad(certificate_base(), e, 0x2c725422b28f295ee0240890fa98c6d4dd5907d47a63885dc9249911cd81c284int, 0, base_modulus());
    let e: nat = 4 * e + 0;
    assert(quad(0x72bf4e7f935e392582972ad40f79de555c24a74c71287ee383d6e24372bf03aeint, certificate_base(), 0, base_modulus()) == 0x6971a6ac71a79e83d263198084c67f24de1e659a28cdabf2f4361521b104c21dint) by (nonlinear_arith);
    lemma_quad(certificate_base(), e, 0x72bf4e7f935e392582972ad40f79de555c24a74c71287ee383d6e24372bf03aeint, 0, base_modulus());
    let e: nat = 4 * e + 0;
    assert(quad(0x6971a6ac71a79e83d263198084c67f24de1e659a28cdabf2f4361521b104c21dint, certificate_base(), 1, base_modulus()) == 0x6152b3a3b46dd686a790627756e2237882473a9b97b47d2c70ffd708f42dbd41int) by (nonlinear_arith);
    lemma_quad(certificate_base(), e, 0x6971a6ac71a79e83d263198084c67f24de1e659a28cdabf2f4361521b104c21dint, 1, base_modulus());
    let e: nat = 4 * e + 1;
    assert(quad(0x6152b3a3b46dd686a790627756e2237882473a9b97b47d2c70ffd708f42dbd41int, certificate_base(), 0, base_modulus()) == 0x32040b6179026084bcbf57e8b6cbc693d5623789ac019c9d2e165075e491d60int) by (nonlinear_arith);
    lemma_quad(certificate_base(), e, 0x6152b3a3b46dd686a790627756e2237882473a9b97b47d2c70ffd708f42dbd41int, 0, base_modulus());
    let e: nat = 4 * e + 0;
    assert(quad(0x32040b6179026084bcbf57e8b6cbc693d5623789ac019c9d2e165075e491d60int, certificate_base(), 0, base_modulus()) == 0x70b054fb303b33a71a76aaaeaed5bc5abf82cef2c299efba73ad621e7d988145int) by (nonlinear_arith);
    lemma_quad(certificate_base(), e, 0x32040b6179026084bcbf57e8b6cbc693d5623789ac019c9d2e165075e491d60int, 0, base_modulus());
    let e: nat = 4 * e + 0;
    assert(quad(0x70b054fb303b33a71a76aaaeaed5bc5abf82cef2c299efba73ad621e7d988145int, certificate_base(), 0, base_modulus()) == 0x55ee3b76c69de4e379f1d63eab935bd183f47a3fb3260501735a070b128ec8fcint) by (nonlinear_arith);
    lemma_quad(certificate_base(), e, 0x70b054fb303b33a71a76aaaeaed5bc5abf82cef2c299efba73ad621e7d988145int, 0, base_modulus());
    let e: nat = 4 * e + 0;
    assert(quad(0x55ee3b76c69de4e379f1d63eab935bd183f47a3fb3260501735a070b128ec8fcint, certificate_base(), 0, base_modulus()) == 0x42aad796dd63bcbfa03f63888bf21b4cd23bd3669a371d0195d345345f6918e3int) by (nonlinear_arith);
    lemma_quad(certificate_base(), e, 0x55ee3b76c69de4e379f1d63eab935bd183f47a3fb3260501735a070b128ec8fcint, 0, base_modulus());
    let e: nat = 4 * e + 0;
    assert(quad(0x42aad796dd63bcbfa03f63888bf21b4cd23bd3669a371d0195d345345f6918e3int, certificate_base(), 0, base_modulus()) == 0x73691a1be96c998b4ceec74ee2d7c8550b1f70530b4a96288be34cb6a4fbee60int) by (nonlinear_arith);
    lemma_quad(certificate_base(), e, 0x42aad796dd63bcbfa03f63888bf21b4cd23bd3669a371d0195d345345f6918e3int, 0, base_modulus());
    let e: nat = 4 * e + 0;
    assert(quad(0x73691a1be96c998b4ceec74ee2d7c8550b1f70530b4a96288be34cb6a4fbee60int, certificate_base(), 0, base_modulus()) == 0x10520a333866ab5cce67666640129b2b16c529b3ea4f85fcf856db51b8b9575eint) by (nonlinear_arith);
    lemma_quad(certificate_base(), e, 0x73691a1be96c998b4ceec74ee2d7c8550b1f70530b4a96288be34cb6a4fbee60int, 0, base_modulus());
    let e: nat = 4 * e + 0;
    assert(quad(0x10520a333866ab5cce67666640129b2b16c529b3ea4f85fcf856db51b8b9575eint, certificate_base(), 0, base_modulus()) == 0x62cda1afcb4832b82c57f4fbe30d6bf10042df8f98946b2ef31678f6c26ccc64int) by (nonlinear_arith);
    lemma_quad(certificate_base(), e, 0x10520a333866ab5cce67666640129b2b16c529b3ea4f85fcf856db51b8b9575eint, 0, base_modulus());
    let e: nat = 4 * e + 0;
    assert(quad(0x62cda1afcb4832b82c57f4fbe30d6bf10042df8f98946b2ef31678f6c26ccc64int, certificate_base(), 0, base_modulus()) == 0x1f89cc7fb96e52a436f910d1fda246a8fbd28bb9a119131fc8aa845f400076eeint) by (nonlinear_arith);
    lemma_quad(certificate_base(), e, 0x62cda1afcb4832b82c57f4fbe30d6bf10042df8f98946b2ef31678f6c26ccc64int, 0, base_modulus());
    let e: nat = 4 * e + 0;
    assert(quad(0x1f89cc7fb96e52a436f910d1fda246a8fbd28bb9a119131fc8aa845f400076eeint, certificate_base(), 0, base_modulus()) == 0x5ee89eaa30a789020a3891a19be0fe7dd54a7ee7f048ddb7d63e830c9105f10dint) by (nonlinear_arith);
    lemma_quad(certificate_base(), e, 0x1f89cc7fb96e52a436f910d1fda246a8fbd28bb9a119131fc8aa845f400076eeint, 0, base_modulus());
    let e: nat = 4 * e + 0;
    assert(quad(0x5ee89eaa30a789020a3891a19be0fe7dd54a7ee7f048ddb7d63e830c9105f10dint, certificate_base(), 0, base_modulus()) == 0x49980b3f389b10db6b43216070d3514f3f774985f77cf455c8eed1e8e97fabb4int) by (nonlinear_arith);
    lemma_quad(certificate_base(), e, 0x5ee89eaa30a789020a3891a19be0fe7dd54a7ee7f048ddb7d63e830c9105f10dint, 0, base_modulus());
    let e: nat = 4 * e + 0;
    assert(quad(0x49980b3f389b10db6b43216070d3514f3f774985f77cf455c8eed1e8e97fabb4int, certificate_base(), 0, base_modulus()) == 0x29c453712b25834671e2a6100c58ff3efb072d72293d71d6f3d1ed3d1c72c9a3int) by (nonlinear_arith);
    lemma_quad(certificate_base(), e, 0x49980b3f389b10db6b43216070d3514f3f774985f77cf455c8eed1e8e97fabb4int, 0, base_modulus());
    let e: nat = 4 * e + 0;
    assert(quad(0x29c453712b25834671e2a6100c58ff3efb072d72293d71d6f3d1ed3d1c72c9a3int, certificate_base(), 0, base_modulus()) == 0x559291c44b7dd10e3f356e0b6a3c460e101c5262b884c09fb45a2f3906d6a2b7int) by (nonlinear_arith);
    lemma_quad(certificate_base(), e, 0x29c453712b25834671e2a6100c58ff3efb072d72293d71d6f3d1ed3d1c72c9a3int, 0, base_modulus());
    let e: nat = 4 * e + 0;
    assert(quad(0x559291c44b7dd10e3f356e0b6a3c460e101c5262b884c09fb45a2f3906d6a2b7int, certificate_base(), 0, base_modulus()) == 0x5e581df7405360bed5614788cf7f12168ff43dde3c9fa43f0a781c6d33d113c6int) by (nonlinear_arith);
    lemma_quad(certificate_base(), e, 0x559291c44b7dd10e3f356e0b6a3c460e101c5262b884c09fb45a2f3906d6a2b7int, 0, base_modulus());
    let e: nat = 4 * e + 0;
    assert(quad(0x5e581df7405360bed5614788cf7f12168ff43dde3c9fa43f0a781c6d33d113c6int, certificate_base(), 0, base_modulus()) == 0x1de36a1fa38ca55874c2c7ce144a58d29bed169c0ae7abb55d9e235f948cf58fint) by (nonlinear_arith);
    lemma_quad(certificate_base(), e, 0x5e581df7405360bed5614788cf7f12168ff43dde3c9fa43f0a781c6d33d113c6int, 0, base_modulus());
    let e: nat = 4 * e + 0;
    assert(quad(0x1de36a1fa38ca55874c2c7ce144a58d29bed169c0ae7abb55d9e235f948cf58fint, certificate_base(), 0, base_modulus()) == 0x4b4a4d42e86fe3b89ec25b55240f1557a01cf576bff1ffcfc1ef0c22551c290aint) by (nonlinear_arith);
    lemma_quad(certificate_base(), e, 0x1de36a1fa38ca55874c2c7ce144a58d29bed169c0ae7abb55d9e235f948cf58fint, 0, base_modulus());
    let e: nat = 4 * e + 0;
    assert(quad(0x4b4a4d42e86fe3b89ec25b55240f1557a01cf576bff1ffcfc1ef0c22551c290aint, certificate_base(), 0, base_modulus()) == 0x3ce42c62e198920c5ceb364ca985648aae2fa68c6b8868a1167c2adeee9037bint) by (nonlinear_arith);
    lemma_quad(certificate_base(), e, 0x4b4a4d42e86fe3b89ec25b55240f1557a01cf576bff1ffcfc1ef0c22551c290aint, 0, base_modulus());
    let e: nat = 4 * e + 0;
    assert(e == 0xac45a4010001a4020000000100000000int);
}

proof fn lemma_power_modulus_e()
    ensures
        pow(0x73eda753299d7d483339d80809a1d80553bda402fffe5bfeffffffff00000000int, 2nat) % base_modulus() == 1,
{
    assert((0x73eda753299d7d483339d80809a1d80553bda402fffe5bfeffffffff00000000int * 0x73eda753299d7d483339d80809a1d80553bda402fffe5bfeffffffff00000000int) % base_modulus() == 1) by (nonlinear_arith);
    lemma_pow1(0x73eda753299d7d483339d80809a1d80553bda402fffe5bfeffffffff00000000int);
    lemma_pow_adds(0x73eda753299d7d483339d80809a1d80553bda402fffe5bfeffffffff00000000int, 1, 1);
}

/// The modulus of the base field is prime.
pub proof fn lemma_base_prime()
    ensures
        is_prime(base_modulus()),
{
    lemma_prime_2();
    lemma_prime_254760293();
    lemma_prime_906349();
    lemma_prime_52437899();
    vstd::arithmetic::power2::lemma2_to64();
    vstd::arithmetic::power2::lemma_pow2(32);
    assert(pow(254760293int, 2) == 0xe694c24d9239d9int) by {
        reveal_with_fuel(pow, 3);
    }
    assert(pow(906349int, 2) == 0xbf4356b669int) by {
        reveal_with_fuel(pow, 3);
    }
    lemma_pow1(52437899int);
    lemma_power_modulus_a();
    lemma_power_modulus_b();
    lemma_power_modulus_c();
    lemma_power_modulus_d();
    lemma_power_modulus_e();
    lemma_power_of_power(certificate_base(), 0x10d38c5c92e1a55e048298b019011c580000000nat, 0x73eda753299d7d483339d80809a1d80553bda402fffe5bfeffffffff00000000int, 2nat, base_modulus());
    lemma_certify(base_modulus(), certificate_base(), 0x21a718b925c34abc09053160320238b00000000nat, 2int, 32, 0x73eda753299d7d483339d80809a1d80553bda402fffe5bfeffffffff00000000int, 0x39f6d3a994cebea4199cec0404d0ec02a9ded2017fff2dff7fffffff80000000int);
    lemma_divides_orders(base_modulus(), certificate_base(), 0x21a718b925c34abc09053160320238b00000000nat, 2int, 32);
    lemma_certify(base_modulus(), certificate_base(), 0x21a718b925c34abc09053160320238b00000000nat, 254760293int, 2, 0x6066d68091422459ea719b5c257f54a3a5509ba90dd017135d4facfcccdf73d6int, 0x4ef49a8d838031b2174f19950fc68a46adf3dc6ba38b27920f44717257d57d07int);
    lemma_divides_orders_next(base_modulus(), certificate_base(), 0x21a718b925c34abc09053160320238b00000000nat, 0x100000000int, 254760293int, 2);
    assert(0x100000000int * 0xe694c24d9239d9int == 0xe694c24d9239d900000000int) by (nonlinear_arith);
    lemma_certify(base_modulus(), certificate_base(), 0x21a718b925c34abc09053160320238b00000000nat, 906349int, 2, 0xa59bce66d135443a905cbe27f7ef0033465237fca4ffdb9927f6206dba51b0aint, 0x335a960203cb799e9d63ea562b4c2efb725b0bac6fad4ccc35c862c4a8b79d53int);
    lemma_divides_orders_next(base_modulus(), certificate_base(), 0x21a718b925c34abc09053160320238b00000000nat, 0xe694c24d9239d900000000int, 906349int, 2);
    assert(0xe694c24d9239d900000000int * 0xbf4356b669int == 0xac45a4010001a4020000000100000000int) by (nonlinear_arith);
    lemma_certify(base_modulus(), certificate_base(), 0x21a718b925c34abc09053160320238b00000000nat, 52437899int, 1, 0x3ce42c62e198920c5ceb364ca985648aae2fa68c6b8868a1167c2adeee9037bint, 0x33764a4fb4519d36ed59b73a2393ff596e170d7847c77295ecc41111334d5aa3int);
    lemma_divides_orders_next(base_modulus(), certificate_base(), 0x21a718b925c34abc09053160320238b00000000nat, 0xac45a4010001a4020000000100000000int, 52437899int, 1);
    assert(0xac45a4010001a4020000000100000000int * 52437899int == 0x21a718b925c34abc09053160320238b00000000int) by (nonlinear_arith);
    lemma_order_prime(base_modulus(), certificate_base(), 0x21a718b925c34abc09053160320238b00000000nat, 0x21a718b925c34abc09053160320238b00000000int);
}

proof fn lemma_power_parameter()
    ensures
        pow(edwards_d(), 0x39f6d3a994cebea4199cec0404d0ec02a9ded2017fff2dff7fffffff80000000nat) % base_modulus() == 0x73eda753299d7d483339d80809a1d80553bda402fffe5bfeffffffff00000000int,
{
    lemma_pow0(edwards_d());
    let e: nat = 0;
    assert(quad(1int, edwards_d(), 3, base_modulus()) == 0x3dba1a827e53b9c548c3b6b67484184335773d30f2d35e46bb7595aea2424014int) by (nonlinear_arith);
    lemma_quad(edwards_d(), e, 1int, 3, base_modulus());
    let e: nat = 4 * e + 3;
    assert(quad(0x3dba1a827e53b9c548c3b6b67484184335773d30f2d35e46bb7595aea2424014int, edwards_d(), 2, base_modulus()) == 0xb417d0dd20bf883b474d7a893ec278372f631912d0158cace87dd345f61f673int) by (nonlinear_arith);
    lemma_quad(edwards_d(), e, 0x3dba1a827e53b9c548c3b6b67484184335773d30f2d35e46bb7595aea2424014int, 2, base_modulus());
    let e: nat = 4 * e + 2;
    assert(quad(0xb417d0dd20bf883b474d7a893ec278372f631912d0158cace87dd345f61f673int, edwards_d(), 1, base_modulus()) == 0x37cd5c5701e22c5ea23fb07c2e6d611f85c6929ef1a3c7925d500cbc0d4a95bdint) by (nonlinear_arith);
    lemma_quad(edwards_d(), e, 0xb417d0dd20bf883b474d7a893ec278372f631912d0158cace87dd345f61f673int, 1, base_modulus());
    let e: nat = 4 * e + 1;
    assert(quad(0x37cd5c5701e22c5ea23fb07c2e6d611f85c6929ef1a3c7925d500cbc0d4a95bdint, edwards_d(), 3, base_modulus()) == 0x3c323bbc1d91e510687eff14d4d67e68abaf1e0494f4d82ad15cfb1f4fe7a70aint) by (nonlinear_arith);
    lemma_quad(edwards_d(), e, 0x37cd5c5701e22c5ea23fb07c2e6d611f85c6929ef1a3c7925d500cbc0d4a95bdint, 3, base_modulus());
    let e: nat = 4 * e + 3;
    assert(quad(0x3c323bbc1d91e510687eff14d4d67e68abaf1e0494f4d82ad15cfb1f4fe7a70aint, edwards_d(), 3, base_modulus()) == 0x3e2a52a80e21ce095a063f59640a0c38da0a698a3bc19a0cd844f7d77550f64aint) by (nonlinear_arith);
    lemma_quad(edwards_d(), e, 0x3c323bbc1d91e510687eff14d4d67e68abaf1e0494f4d82ad15cfb1f4fe7a70aint, 3, base_modulus());
    let e: nat = 4 * e + 3;
    assert(quad(0x3e2a52a80e21ce095a063f59640a0c38da0a698a3bc19a0cd844f7d77550f64aint, edwards_d(), 1, base_modulus()) == 0x2d9f5b968fe30e0d48176a382620ec126e0633add622a78f70a5eec93d433052int) by (nonlinear_arith);
    lemma_quad(edwards_d(), e, 0x3e2a52a80e21ce095a063f59640a0c38da0a698a3bc19a0cd844f7d77550f64aint, 1, base_modulus());
    let e: nat = 4 * e + 1;
    assert(quad(0x2d9f5b968fe30e0d48176a382620ec126e0633add622a78f70a5eec93d433052int, edwards_d(), 2, base_modulus()) == 0x6b2add7496a2064b1d145ebb8ca2a7aa3b305f8dea94480746e993507455e821int) by (nonlinear_arith);
    lemma_quad(edwards_d(), e, 0x2d9f5b968fe30e0d48176a382620ec126e0633add622a78f70a5eec93d433052int, 2, base_modulus());
    let e: nat = 4 * e + 2;
    assert(quad(0x6b2add7496a2064b1d145ebb8ca2a7aa3b305f8dea94480746e993507455e821int, edwards_d(), 3, base_modulus()) == 0x2e1cb9a72c620e17a24f9a597e9225533042afcde3d6cec0dbf9c7bae60a07dcint) by (nonlinear_arith);
    lemma_quad(edwards_d(), e, 0x6b2add7496a2064b1d145ebb8ca2a7aa3b305f8dea94480746e993507455e821int, 3, base_modulus());
    let e: nat = 4 * e + 3;
    assert(quad(0x2e1cb9a72c620e17a24f9a597e9225533042afcde3d6cec0dbf9c7bae60a07dcint, edwards_d(), 1, base_modulus()) == 0x99c47cac82d0103e82b78776f5633356075d182edaa23a6e4b6ed6a9770a2f3int) by (nonlinear_arith);
    lemma_quad(edwards_d(), e, 0x2e1cb9a72c620e17a24f9a597e9225533042afcde3d6cec0dbf9c7bae60a07dcint, 1, base_modulus());
    let e: nat = 4 * e + 1;
    assert(quad(0x99c47cac82d0103e82b78776f5633356075d182edaa23a6e4b6ed6a9770a2f3int, edwards_d(), 0, base_modulus()) == 0x47b7222df3e7f71253ddbe59f0fc8e074e9f098eb73849967dc114951b21989int) by (nonlinear_arith);
    lemma_quad(edwards_d(), e, 0x99c47cac82d0103e82b78776f5633356075d182edaa23a6e4b6ed6a9770a2f3int, 0, base_modulus());
    let e: nat = 4 * e + 0;
    assert(quad(0x47b7222df3e7f71253ddbe59f0fc8e074e9f098eb73849967dc114951b21989int, edwards_d(), 3, base_modulus()) == 0x4f2986293882e4f74685aa3d1d0aac3fb1f2df0a6f74bcd66f9e3ad4de7cd19bint) by (nonlinear_arith);
    lemma_quad(edwards_d(), e, 0x47b7222df3e7f71253ddbe59f0fc8e074e9f098eb73849967dc114951b21989int, 3, base_modulus());
    let e: nat = 4 * e + 3;
    assert(quad(0x4f2986293882e4f74685aa3d1d0aac3fb1f2df0a6f74bcd66f9e3ad4de7cd19bint, edwards_d(), 2, base_modulus()) == 0xb07b5177f982173e752276586ef4d7e98b3548e2335d22ccf20ed81c774916int) by (nonlinear_arith);
    lemma_quad(edwards_d(), e, 0x4f2986293882e4f74685aa3d1d0aac3fb1f2df0a6f74bcd66f9e3ad4de7cd19bint, 2, base_modulus());
    let e: nat = 4 * e + 2;
    assert(quad(0xb07b5177f982173e752276586ef4d7e98b3548e2335d22ccf20ed81c774916int, edwards_d(), 2, base_modulus()) == 0x71b9ed7c9a24ae8a149149f5694fc6358857c8e6d22c7352be3c6e456a44ac8dint) by (nonlinear_arith);
    lemma_quad(edwards_d(), e, 0xb07b5177f982173e752276586ef4d7e98b3548e2335d22ccf20ed81c774916int, 2, base_modulus());
    let e: nat = 4 * e + 2;
    assert(quad(0x71b9ed7c9a24ae8a149149f5694fc6358857c8e6d22c7352be3c6e456a44ac8dint, edwards_d(), 2, base_modulus()) == 0x50744394f27081329633ae020cc38d9c566f0f3ac50a919484a3892085179674int) by (nonlinear_arith);
    lemma_quad(edwards_d(), e, 0x71b9ed7c9a24ae8a149149f5694fc6358857c8e6d22c7352be3c6e456a44ac8dint, 2, base_modulus());
    let e: nat = 4 * e + 2;
    assert(quad(0x50744394f27081329633ae020cc38d9c566f0f3ac50a919484a3892085179674int, edwards_d(), 1, base_modulus()) == 0x38f25c440d440a1e2964abb23b0b446dc419d0ccf324c093e92489a651fa5543int) by (nonlinear_arith);
    lemma_quad(edwards_d(), e, 0x50744394f27081329633ae020cc38d9c566f0f3ac50a919484a3892085179674int, 1, base_modulus());
    let e: nat = 4 * e + 1;
    assert(quad(0x38f25c440d440a1e2964abb23b0b446dc419d0ccf324c093e92489a651fa5543int, edwards_d(), 2, base_modulus()) == 0x14491cae48886c5e142c06ef5d8b343956e3100438ec238086f4287f64ae1a71int) by (nonlinear_arith);
    lemma_quad(edwards_d(), e, 0x38f25c440d440a1e2964abb23b0b446dc419d0ccf324c093e92489a651fa5543int, 2, base_modulus());
    let e: nat = 4 * e + 2;
    assert(quad(0x14491cae48886c5e142c06ef5d8b343956e3100438ec238086f4287f64ae1a71int, edwards_d(), 1, base_modulus()) == 0xc5d427dc6daee1dc951a559a0a2a7134693d42b5fc54cdf73078bfab380ae97int) by (nonlinear_arith);
    lemma_quad(edwards_d(), e, 0x14491cae48886c5e142c06ef5d8b343956e3100438ec238086f4287f64ae1a71int, 1, base_modulus());
    let e: nat = 4 * e + 1;
    assert(quad(0xc5d427dc6daee1dc951a559a0a2a7134693d42b5fc54cdf73078bfab380ae97int, edwards_d(), 1, base_modulus()) == 0xd19695c4c15f7f6d9818f293a2343462b04a83e763677b415e9c59853d6faa0int) by (nonlinear_arith);
    lemma_quad(edwards_d(), e, 0xc5d427dc6daee1dc951a559a0a2a7134693d42b5fc54cdf73078bfab380ae97int, 1, base_modulus());
    let e: nat = 4 * e + 1;
    assert(quad(0xd19695c4c15f7f6d9818f293a2343462b04a83e763677b415e9c59853d6faa0int, edwards_d(), 0, base_modulus()) == 0x60567bf8d8e19248caf99e55244bd59b8a844416451a8bf07dc18e5f93b95746int) by (nonlinear_arith);
    lemma_quad(edwards_d(), e, 0xd19695c4c15f7f6d9818f293a2343462b04a83e763677b415e9c59853d6faa0int, 0, base_modulus());
    let e: nat = 4 * e + 0;
    assert(quad(0x60567bf8d8e19248caf99e55244bd59b8a844416451a8bf07dc18e5f93b95746int, edwards_d(), 3, base_modulus()) == 0x4fecc370bfe2695d75a335472e88f422385bb9502910c34d4a242763d079453dint) by (nonlinear_arith);
    lemma_quad(edwards_d(), e, 0x60567bf8d8e19248caf99e55244bd59b8a844416451a8bf07dc18e5f93b95746int, 3, base_modulus());
    let e: nat = 4 * e + 3;
    assert(quad(0x4fecc370bfe2695d75a335472e88f422385bb9502910c34d4a242763d079453dint, edwards_d(), 0, base_modulus()) == 0x4fd3ace9722595083271ba38a8309a3fe3f59004359670f9a4caf5a0240fd67eint) by (nonlinear_arith);
    lemma_quad(edwards_d(), e, 0x4fecc370bfe2695d75a335472e88f422385bb9502910c34d4a242763d079453dint, 0, base_modulus());
    let e: nat = 4 * e + 0;
    assert(quad(0x4fd3ace9722595083271ba38a8309a3fe3f59004359670f9a4caf5a0240fd67eint, edwards_d(), 3, base_modulus()) == 0x208fce9aba87d6db2613fdedf180c5759d20f2fdf8b5cb6f1689136614383d32int) by (nonlinear_arith);
    lemma_quad(edwards_d(), e, 0x4fd3ace9722595083271ba38a8309a3fe3f59004359670f9a4caf5a0240fd67eint, 3, base_modulus());
    let e: nat = 4 * e + 3;
    assert(quad(0x208fce9aba87d6db2613fdedf180c5759d20f2fdf8b5cb6f1689136614383d32int, edwards_d(), 2, base_modulus()) == 0x56069200be9696b6087d31dbf60de1b1b9924838bc57a7e8c8997b1f70b3c541int) by (nonlinear_arith);
    lemma_quad(edwards_d(), e, 0x208fce9aba87d6db2613fdedf180c5759d20f2fdf8b5cb6f1689136614383d32int, 2, base_modulus());
    let e: nat = 4 * e + 2;
    assert(quad(0x56069200be9696b6087d31dbf60de1b1b9924838bc57a7e8c8997b1f70b3c541int, edwards_d(), 2, base_modulus()) == 0x551b2654e9f5e7663dc17732111aeb8fd55b96d585ee186cfd5e057cd3c952acint) by (nonlinear_arith);
    lemma_quad(edwards_d(), e, 0x56069200be9696b6087d31dbf60de1b1b9924838bc57a7e8c8997b1f70b3c541int, 2, base_modulus());
    let e: nat = 4 * e + 2;
    assert(quad(0x551b2654e9f5e7663dc17732111aeb8fd55b96d585ee186cfd5e057cd3c952acint, edwards_d(), 3, base_modulus()) == 0x23aa773eb9da20bc3611b46f11f3d61aefc108f70d4f13290a06c63d679a3e8eint) by (nonlinear_arith);
    lemma_quad(edwards_d(), e, 0x551b2654e9f5e7663dc17732111aeb8fd55b96d585ee186cfd5e057cd3c952acint, 3, base_modulus());
    let e: nat = 4 * e + 3;
    assert(quad(0x23aa773eb9da20bc3611b46f11f3d61aefc108f70d4f13290a06c63d679a3e8eint, edwards_d(), 3, base_modulus()) == 0x166999759575cffacb2a47b2b2f56b6e5e2056f2b2d9902440b1921e78e2d370int) by (nonlinear_arith);
    lemma_quad(edwards_d(), e, 0x23aa773eb9da20bc3611b46f11f3d61aefc108f70d4f13290a06c63d679a3e8eint, 3, base_modulus());
    let e: nat = 4 * e + 3;
    assert(quad(0x166999759575cffacb2a47b2b2f56b6e5e2056f2b2d9902440b1921e78e2d370int, edwards_d(), 2, base_modulus()) == 0x65b8bae180eb1af8bb4ef78c4b1e9fc162086ba9d2807630144d87050b89e4fint) by (nonlinear_arith);
    lemma_quad(edwards_d(), e, 0x166999759575cffacb2a47b2b2f56b6e5e2056f2b2d9902440b1921e78e2d370int, 2, base_modulus());
    let e: nat = 4 * e + 2;
    assert(quad(0x65b8bae180eb1af8bb4ef78c4b1e9fc162086ba9d2807630144d87050b89e4fint, edwards_d(), 2, base_modulus()) == 0x481370cdd0a02206b65ec5f4b81b0963c7a8e8822949ba60d400a8c4820e9716int) by (nonlinear_arith);
    lemma_quad(edwards_d(), e, 0x65b8bae180eb1af8bb4ef78c4b1e9fc162086ba9d2807630144d87050b89e4fint, 2, base_modulus());
    let e: nat = 4 * e + 2;
    assert(quad(0x481370cdd0a02206b65ec5f4b81b0963c7a8e8822949ba60d400a8c4820e9716int, edwards_d(), 2, base_modulus()) == 0x1aa7540c20f8b6fb3a41ee66e3a5ce76298d707032ba38fbc3f236a273ff4f8bint) by (nonlinear_arith);
    lemma_quad(edwards_d(), e, 0x481370cdd0a02206b65ec5f4b81b0963c7a8e8822949ba60d400a8c4820e9716int, 2, base_modulus());
    let e: nat = 4 * e + 2;
    assert(quad(0x1aa7540c20f8b6fb3a41ee66e3a5ce76298d707032ba38fbc3f236a273ff4f8bint, edwards_d(), 1, base_modulus()) == 0x39d7665b0da639f3ac1cf04f4153a4938797476b145bc0de58a983f10faec47eint) by (nonlinear_arith);
    lemma_quad(edwards_d(), e, 0x1aa7540c20f8b6fb3a41ee66e3a5ce76298d707032ba38fbc3f236a273ff4f8bint, 1, base_modulus());
    let e: nat = 4 * e + 1;
    assert(quad(0x39d7665b0da639f3ac1cf04f4153a4938797476b145bc0de58a983f10faec47eint, edwards_d(), 0, base_modulus()) == 0x15fcf5749c6faf3b5ab613c1551b04860784e2dae0621a8be8501285f350121dint) by (nonlinear_arith);
    lemma_quad(edwards_d(), e, 0x39d7665b0da639f3ac1cf04f4153a4938797476b145bc0de58a983f10faec47eint, 0, base_modulus());
    let e: nat = 4 * e + 0;
    assert(quad(0x15fcf5749c6faf3b5ab613c1551b04860784e2dae0621a8be8501285f350121dint, edwards_d(), 0, base_modulus()) == 0xe6653a353ddd19e1c15093a9549ac44391f58ff540c3a76c01ea00ea4e29753int) by (nonlinear_arith);
    lemma_quad(edwards_d(), e, 0x15fcf5749c6faf3b5ab613c1551b04860784e2dae0621a8be8501285f350121dint, 0, base_modulus());
    let e: nat = 4 * e + 0;
    assert(quad(0xe6653a353ddd19e1c15093a9549ac44391f58ff540c3a76c01ea00ea4e29753int, edwards_d(), 1, base_modulus()) == 0x5af32b29ce3f96c7fad87c809c7bef411e47b9c02c3df8fa7b7a370a3b97a687int) by (nonlinear_arith);
    lemma_quad(edwards_d(), e, 0xe6653a353ddd19e1c15093a9549ac44391f58ff540c3a76c01ea00ea4e29753int, 1, base_modulus());
    let e: nat = 4 * e + 1;
    assert(quad(0x5af32b29ce3f96c7fad87c809c7bef411e47b9c02c3df8fa7b7a370a3b97a687int, edwards_d(), 2, base_modulus()) == 0x282cecf300cda56757ee78a32da2d282d34f404e69a35b743b5941499d56afe3int) by (nonlinear_arith);
    lemma_quad(edwards_d(), e, 0x5af32b29ce3f96c7fad87c809c7bef411e47b9c02c3df8fa7b7a370a3b97a687int, 2, base_modulus());
    let e: nat = 4 * e + 2;
    assert(quad(0x282cecf300cda56757ee78a32da2d282d34f404e69a35b743b5941499d56afe3int, edwards_d(), 1, base_modulus()) == 0x4437e3f42e33be5478c3d4d59f33c0b122d5afa4f975a12b023322c0c40d63c7int) by (nonlinear_arith);
    lemma_quad(edwards_d(), e, 0x282cecf300cda56757ee78a32da2d282d34f404e69a35b743b5941499d56afe3int, 1, base_modulus());
    let e: nat = 4 * e + 1;
    assert(quad(0x4437e3f42e33be5478c3d4d59f33c0b122d5afa4f975a12b023322c0c40d63c7int, edwards_d(), 2, base_modulus()) == 0x4b5df07bd36ac80bc8cfa1cf14fc1694b5c1bb31eb21b0601207e94f258f061bint) by (nonlinear_arith);
    lemma_quad(edwards_d(), e, 0x4437e3f42e33be5478c3d4d59f33c0b122d5afa4f975a12b023322c0c40d63c7int, 2, base_modulus());
    let e: nat = 4 * e + 2;
    assert(quad(0x4b5df07bd36ac80bc8cfa1cf14fc1694b5c1bb31eb21b0601207e94f258f061bint, edwards_d(), 1, base_modulus()) == 0x68bf55628691843b4e993a66e20802df6f63bebdc3c7c7554025785b6268bf18int) by (nonlinear_arith);
    lemma_quad(edwards_d(), e, 0x4b5df07bd36ac80bc8cfa1cf14fc1694b5c1bb31eb21b0601207e94f258f061bint, 1, base_modulus());
    let e: nat = 4 * e + 1;
    assert(quad(0x68bf55628691843b4e993a66e20802df6f63bebdc3c7c7554025785b6268bf18int, edwards_d(), 3, base_modulus()) == 0x2e7df55fbcf92897bb3503553179690621641f4fc9d0cfe6a508faec819246c8int) by (nonlinear_arith);
    lemma_quad(edwards_d(), e, 0x68bf55628691843b4e993a66e20802df6f63bebdc3c7c7554025785b6268bf18int, 3, base_modulus());
    let e: nat = 4 * e + 3;
    assert(quad(0x2e7df55fbcf92897bb3503553179690621641f4fc9d0cfe6a508faec819246c8int, edwards_d(), 0, base_modulus()) == 0x320a4c0fa02c5476076c323931a8b10850a78978e2200f749e1dc2512bcd4ceint) by (nonlinear_arith);
    lemma_quad(edwards_d(), e, 0x2e7df55fbcf92897bb3503553179690621641f4fc9d0cfe6a508faec819246c8int, 0, base_modulus());
    let e: nat = 4 * e + 0;
    assert(quad(0x320a4c0fa02c5476076c323931a8b10850a78978e2200f749e1dc2512bcd4ceint, edwards_d(), 3, base_modulus()) == 0x214d28a5bcc218a63d3236fe6e13b343c35c5369a7ad5ca949d9048409fb85dcint) by (nonlinear_arith);
    lemma_quad(edwards_d(), e, 0x320a4c0fa02c5476076c323931a8b10850a78978e2200f749e1dc2512bcd4ceint, 3, base_modulus());
    let e: nat = 4 * e + 3;
    assert(quad(0x214d28a5bcc218a63d3236fe6e13b343c35c5369a7ad5ca949d9048409fb85dcint, edwards_d(), 2, base_modulus()) == 0x17954742ea4cf731998f142763aecd1e1363b6981640295abbce0a2ae06da6edint) by (nonlinear_arith);
    lemma_quad(edwards_d(), e, 0x214d28a5bcc218a63d3236fe6e13b343c35c5369a7ad5ca949d9048409fb85dcint, 2, base_modulus());
    let e: nat = 4 * e + 2;
    assert(quad(0x17954742ea4cf731998f142763aecd1e1363b6981640295abbce0a2ae06da6edint, edwards_d(), 3, base_modulus()) == 0x332be6600fa4dabafa683911658e7006592214df7887fa8c45d99cadc5a2b084int) by (nonlinear_arith);
    lemma_quad(edwards_d(), e, 0x17954742ea4cf731998f142763aecd1e1363b6981640295abbce0a2ae06da6edint, 3, base_modulus());
    let e: nat = 4 * e + 3;
    assert(quad(0x332be6600fa4dabafa683911658e7006592214df7887fa8c45d99cadc5a2b084int, edwards_d(), 0, base_modulus()) == 0x1268a09d2e738260047513b1c7f61490111a3a06dbdb87e2878aa078ad3b8237int) by (nonlinear_arith);
    lemma_quad(edwards_d(), e, 0x332be6600fa4dabafa683911658e7006592214df7887fa8c45d99cadc5a2b084int, 0, base_modulus());
    let e: nat = 4 * e + 0;
    assert(quad(0x1268a09d2e738260047513b1c7f61490111a3a06dbdb87e2878aa078ad3b8237int, edwards_d(), 0, base_modulus()) == 0x2ef7532d8eea8ac72cfdbcfb1dbc6f158c16efb433ebed9918646437861017int) by (nonlinear_arith);
    lemma_quad(edwards_d(), e, 0x1268a09d2e738260047513b1c7f61490111a3a06dbdb87e2878aa078ad3b8237int, 0, base_modulus());
    let e: nat = 4 * e + 0;
    assert(quad(0x2ef7532d8eea8ac72cfdbcfb1dbc6f158c16efb433ebed9918646437861017int, edwards_d(), 0, base_modulus()) == 0x1bf61433f5da7f138b5d5e71997687406775a6728bace688e91771a25e4e0cb9int) by (nonlinear_arith);
    lemma_quad(edwards_d(), e, 0x2ef7532d8eea8ac72cfdbcfb1dbc6f158c16efb433ebed9918646437861017int, 0, base_modulus());
    let e: nat = 4 * e + 0;
    assert(quad(0x1bf61433f5da7f138b5d5e71997687406775a6728bace688e91771a25e4e0cb9int, edwards_d(), 1, base_modulus()) == 0x816acb5722420fb34447ce67ab34cb54935f94c52cb59c293c94a9d9237cdacint) by (nonlinear_arith);
    lemma_quad(edwards_d(), e, 0x1bf61433f5da7f138b5d5e71997687406775a6728bace688e91771a25e4e0cb9int, 1, base_modulus());
    let e: nat = 4 * e + 1;
    assert(quad(0x816acb5722420fb34447ce67ab34cb54935f94c52cb59c293c94a9d9237cdacint, edwards_d(), 0, base_modulus()) == 0x111897993ee87ba88571bbd44bc3519f5f87bcbe2056721c48635b9c688a3465int) by (nonlinear_arith);
    lemma_quad(edwards_d(), e, 0x816acb5722420fb34447ce67ab34cb54935f94c52cb59c293c94a9d9237cdacint, 0, base_modulus());
    let e: nat = 4 * e + 0;
    assert(quad(0x111897993ee87ba88571bbd44bc3519f5f87bcbe2056721c48635b9c688a3465int, edwards_d(), 0, base_modulus()) == 0x5a333d49922c0ee6d58cbb7915ef828175737727badff0bdac56524e8e174675int) by (nonlinear_arith);
    lemma_quad(edwards_d(), e, 0x111897993ee87ba88571bbd44bc3519f5f87bcbe2056721c48635b9c688a3465int, 0, base_modulus());
    let e: nat = 4 * e + 0;
    assert(quad(0x5a333d49922c0ee6d58cbb7915ef828175737727badff0bdac56524e8e174675int, edwards_d(), 0, base_modulus()) == 0x147c389246ecb6a2ac5bc25516768c18f482ffee384f4642a71c921e6de48ae7int) by (nonlinear_arith);
    lemma_quad(edwards_d(), e, 0x5a333d49922c0ee6d58cbb7915ef828175737727badff0bdac56524e8e174675int, 0, base_modulus());
    let e: nat = 4 * e + 0;
    assert(quad(0x147c389246ecb6a2ac5bc25516768c18f482ffee384f4642a71c921e6de48ae7int, edwards_d(), 1, base_modulus()) == 0xf1a9bce464797630b2050855c568a4c2e9a7ea0521146ec47f6b8459aa521aint) by (nonlinear_arith);
    lemma_quad(edwards_d(), e, 0x147c389246ecb6a2ac5bc25516768c18f482ffee384f4642a71c921e6de48ae7int, 1, base_modulus());
    let e: nat = 4 * e + 1;
    assert(quad(0xf1a9bce464797630b2050855c568a4c2e9a7ea0521146ec47f6b8459aa521aint, edwards_d(), 0, base_modulus()) == 0x54b5da7d54139ea6cc18f53460f505591aa0b7a2ef19066000b57ef7ddee7964int) by (nonlinear_arith);
    lemma_quad(edwards_d(), e, 0xf1a9bce464797630b2050855c568a4c2e9a7ea0521146ec47f6b8459aa521aint, 0, base_modulus());
    let e: nat = 4 * e + 0;
    assert(quad(0x54b5da7d54139ea6cc18f53460f505591aa0b7a2ef19066000b57ef7ddee7964int, edwards_d(), 3, base_modulus()) == 0x6d595d0864cfbdd5b2f75b91c1007a164eeb4bfcc8521a0cea747be3820d430eint) by (nonlinear_arith);
    lemma_quad(edwards_d(), e, 0x54b5da7d54139ea6cc18f53460f505591aa0b7a2ef19066000b57ef7ddee7964int, 3, base_modulus());
    let e: nat = 4 * e + 3;
    assert(quad(0x6d595d0864cfbdd5b2f75b91c1007a164eeb4bfcc8521a0cea747be3820d430eint, edwards_d(), 1, base_modulus()) == 0x2705ca9a00b2bd96232976ccb34f33929541e717e72a1c8fe21ab3d6f5193253int) by (nonlinear_arith);
    lemma_quad(edwards_d(), e, 0x6d595d0864cfbdd5b2f75b91c1007a164eeb4bfcc8521a0cea747be3820d430eint, 1, base_modulus());
    let e: nat = 4 * e + 1;
    assert(quad(0x2705ca9a00b2bd96232976ccb34f33929541e717e72a1c8fe21ab3d6f5193253int, edwards_d(), 0, base_modulus()) == 0x2ba3a220e696315c7438e1c5867c5a7ecabf814a69bd610945743e7c86a2f221int) by (nonlinear_arith);
    lemma_quad(edwards_d(), e, 0x2705ca9a00b2bd96232976ccb34f33929541e717e72a1c8fe21ab3d6f5193253int, 0, base_modulus());
    let e: nat = 4 * e + 0;
    assert(quad(0x2ba3a220e696315c7438e1c5867c5a7ecabf814a69bd610945743e7c86a2f221int, edwards_d(), 0, base_modulus()) == 0x3d7591840f1e77cf805e55e85385b4da36fa4f665885109aea0febfd161baa77int) by (nonlinear_arith);
    lemma_quad(edwards_d(), e, 0x2ba3a220e696315c7438e1c5867c5a7ecabf814a69bd610945743e7c86a2f221int, 0, base_modulus());
    let e: nat = 4 * e + 0;
    assert(quad(0x3d7591840f1e77cf805e55e85385b4da36fa4f665885109aea0febfd161baa77int, edwards_d(), 3, base_modulus()) == 0xd2d9c4a63a2ad0a066ed473a03503f1df1f2bbacac249970e2c12397ad8ca53int) by (nonlinear_arith);
    lemma_quad(edwards_d(), e, 0x3d7591840f1e77cf805e55e85385b4da36fa4f665885109aea0febfd161baa77int, 3, base_modulus());
    let e: nat = 4 * e + 3;
    assert(quad(0xd2d9c4a63a2ad0a066ed473a03503f1df1f2bbacac249970e2c12397ad8ca53int, edwards_d(), 2, base_modulus()) == 0xf7293e4da40e36e134c9b198a50d7a8031aeeca960b075624002bf9efa25181int) by (nonlinear_arith);
    lemma_quad(edwards_d(), e, 0xd2d9c4a63a2ad0a066ed473a03503f1df1f2bbacac249970e2c12397ad8ca53int, 2, base_modulus());
    let e: nat = 4 * e + 2;
    assert(quad(0xf7293e4da40e36e134c9b198a50d7a8031aeeca960b075624002bf9efa25181int, edwards_d(), 3, base_modulus()) == 0x1a683a4228932912a9ae09508e17affc74be3840d8a3847eb6e495330affeaaeint) by (nonlinear_arith);
    lemma_quad(edwards_d(), e, 0xf7293e4da40e36e134c9b198a50d7a8031aeeca960b075624002bf9efa25181int, 3, base_modulus());
    let e: nat = 4 * e + 3;
    assert(quad(0x1a683a4228932912a9ae09508e17affc74be3840d8a3847eb6e495330affeaaeint, edwards_d(), 0, base_modulus()) == 0x53e476e6beb195a1a3751c9bb9319b5a20556a596cbb3fe82d018567f6c4fee2int) by (nonlinear_arith);
    lemma_quad(edwards_d(), e, 0x1a683a4228932912a9ae09508e17affc74be3840d8a3847eb6e495330affeaaeint, 0, base_modulus());
    let e: nat = 4 * e + 0;
    assert(quad(0x53e476e6beb195a1a3751c9bb9319b5a20556a596cbb3fe82d018567f6c4fee2int, edwards_d(), 0, base_modulus()) == 0x4cf4782b24878e8d23909f7d279a0b24f5ff2a400c3a37889f077baaaf505bd4int) by (nonlinear_arith);
    lemma_quad(edwards_d(), e, 0x53e476e6beb195a1a3751c9bb9319b5a20556a596cbb3fe82d018567f6c4fee2int, 0, base_modulus());
    let e: nat = 4 * e + 0;
    assert(quad(0x4cf4782b24878e8d23909f7d279a0b24f5ff2a400c3a37889f077baaaf505bd4int, edwards_d(), 0, base_modulus()) == 0x691d1b87586671010f4aa451015832419c30320210ae442475d15da67d211ee8int) by (nonlinear_arith);
    lemma_quad(edwards_d(), e, 0x4cf4782b24878e8d23909f7d279a0b24f5ff2a400c3a37889f077baaaf505bd4int, 0, base_modulus());
    let e: nat = 4 * e + 0;
    assert(quad(0x691d1b87586671010f4aa451015832419c30320210ae442475d15da67d211ee8int, edwards_d(), 0, base_modulus()) == 0x3d84cdbe5d6ad967801467d1fd3a9249d21b69b30e4b225353f8b73b382be103int) by (nonlinear_arith);
    lemma_quad(edwards_d(), e, 0x691d1b87586671010f4aa451015832419c30320210ae442475d15da67d211ee8int, 0, base_modulus());
    let e: nat = 4 * e + 0;
    assert(quad(0x3d84cdbe5d6ad967801467d1fd3a9249d21b69b30e4b225353f8b73b382be103int, edwards_d(), 2, base_modulus()) == 0x47631be6bf2f2dfaef80c3768af719379392ac3ea12ba8ca05e7f94c1527dfint) by (nonlinear_arith);
    lemma_quad(edwards_d(), e, 0x3d84cdbe5d6ad967801467d1fd3a9249d21b69b30e4b225353f8b73b382be103int, 2, base_modulus());
    let e: nat = 4 * e + 2;
    assert(quad(0x47631be6bf2f2dfaef80c3768af719379392ac3ea12ba8ca05e7f94c1527dfint, edwards_d(), 2, base_modulus()) == 0x96c467b470f7f1847c28d511f7b6d2f48d2061c44cd89908a4349e811de96cint) by (nonlinear_arith);
    lemma_quad(edwards_d(), e, 0x47631be6bf2f2dfaef80c3768af719379392ac3ea12ba8ca05e7f94c1527dfint, 2, base_modulus());
    let e: nat = 4 * e + 2;
    assert(quad(0x96c467b470f7f1847c28d511f7b6d2f48d2061c44cd89908a4349e811de96cint, edwards_d(), 2, base_modulus()) == 0x16d41f904140eddffabba33d8c7ac63d75bbc64833760cde1d6a75d30fa1c8deint) by (nonlinear_arith);
    lemma_quad(edwards_d(), e, 0x96c467b470f7f1847c28d511f7b6d2f48d2061c44cd89908a4349e811de96cint, 2, base_modulus());
    let e: nat = 4 * e + 2;
    assert(quad(0x16d41f904140eddffabba33d8c7ac63d75bbc64833760cde1d6a75d30fa1c8deint, edwards_d(), 2, base_modulus()) == 0x3c83b86a5c29358db9dce6d44fb6d48e3762af4b76f04ef8c69a1b3fc22b9fe2int) by (nonlinear_arith);
    lemma_quad(edwards_d(), e, 0x16d41f904140eddffabba33d8c7ac63d75bbc64833760cde1d6a75d30fa1c8deint, 2, base_modulus());
    let e: nat = 4 * e + 2;
    assert(quad(0x3c83b86a5c29358db9dce6d44fb6d48e3762af4b76f04ef8c69a1b3fc22b9fe2int, edwards_d(), 1, base_modulus()) == 0x25274425b2c474b3bff1bd52de71daba5da6c892cfa746bb57b67f722cd4864fint) by (nonlinear_arith);
    lemma_quad(edwards_d(), e, 0x3c83b86a5c29358db9dce6d44fb6d48e3762af4b76f04ef8c69a1b3fc22b9fe2int, 1, base_modulus());
    let e: nat = 4 * e + 1;
    assert(quad(0x25274425b2c474b3bff1bd52de71daba5da6c892cfa746bb57b67f722cd4864fint, edwards_d(), 3, base_modulus()) == 0x2d2717fdf5b27635084493fa21d96366267d31732121b7e5137c2d11808f2390int) by (nonlinear_arith);
    lemma_quad(edwards_d(), e, 0x25274425b2c474b3bff1bd52de71daba5da6c892cfa746bb57b67f722cd4864fint, 3, base_modulus());
    let e: nat = 4 * e + 3;
    assert(quad(0x2d2717fdf5b27635084493fa21d96366267d31732121b7e5137c2d11808f2390int, edwards_d(), 1, base_modulus()) == 0x334b45aa2d0004ddf5acbf53a864e2796ca6404febf62bf470b74aec5d89367dint) by (nonlinear_arith);
    lemma_quad(edwards_d(), e, 0x2d2717fdf5b27635084493fa21d96366267d31732121b7e5137c2d11808f2390int, 1, base_modulus());
    let e: nat = 4 * e + 1;
    assert(quad(0x334b45aa2d0004ddf5acbf53a864e2796ca6404febf62bf470b74aec5d89367dint, edwards_d(), 3, base_modulus()) == 0x5253d3ada1221a7dc15b616539ae2f0a6dc80ece3bf63c0c425346f161e5534aint) by (nonlinear_arith);
    lemma_quad(edwards_d(), e, 0x334b45aa2d0004ddf5acbf53a864e2796ca6404febf62bf470b74aec5d89367dint, 3, base_modulus());
    let e: nat = 4 * e + 3;
    assert(quad(0x5253d3ada1221a7dc15b616539ae2f0a6dc80ece3bf63c0c425346f161e5534aint, edwards_d(), 2, base_modulus()) == 0x64c7bcb527493f528137473749bf506991c811ba01cdccdaa54739b279fd3ca9int) by (nonlinear_arith);
    lemma_quad(edwards_d(), e, 0x5253d3ada1221a7dc15b616539ae2f0a6dc80ece3bf63c0c425346f161e5534aint, 2, base_modulus());
    let e: nat = 4 * e + 2;
    assert(quad(0x64c7bcb527493f528137473749bf506991c811ba01cdccdaa54739b279fd3ca9int, edwards_d(), 3, base_modulus()) == 0x600d14a46d8b44b9e547a339a641a8fcdda8f704a3a54c9813abb725dc2bc847int) by (nonlinear_arith);
    lemma_quad(edwards_d(), e, 0x64c7bcb527493f528137473749bf506991c811ba01cdccdaa54739b279fd3ca9int, 3, base_modulus());
    let e: nat = 4 * e + 3;
    assert(quad(0x600d14a46d8b44b9e547a339a641a8fcdda8f704a3a54c9813abb725dc2bc847int, edwards_d(), 1, base_modulus()) == 0x5d8bbb4e6c1ad9010ed9d7122fcdc829853923240c5b7563b6be08810b9d192int) by (nonlinear_arith);
    lemma_quad(edwards_d(), e, 0x600d14a46d8b44b9e547a339a641a8fcdda8f704a3a54c9813abb725dc2bc847int, 1, base_modulus());
    let e: nat = 4 * e + 1;
    assert(quad(0x5d8bbb4e6c1ad9010ed9d7122fcdc829853923240c5b7563b6be08810b9d192int, edwards_d(), 0, base_modulus()) == 0x176723da7578f2008b1fb104d7e1e9533c93437be50f699fa86ec72c35653aadint) by (nonlinear_arith);
    lemma_quad(edwards_d(), e, 0x5d8bbb4e6c1ad9010ed9d7122fcdc829853923240c5b7563b6be08810b9d192int, 0, base_modulus());
    let e: nat = 4 * e + 0;
    assert(quad(0x176723da7578f2008b1fb104d7e1e9533c93437be50f699fa86ec72c35653aadint, edwards_d(), 2, base_modulus()) == 0x41ba4d51e73ddfa52a6cc2ef56979641b669b280302797c698c159301861b613int) by (nonlinear_arith);
    lemma_quad(edwards_d(), e, 0x176723da7578f2008b1fb104d7e1e9533c93437be50f699fa86ec72c35653aadint, 2, base_modulus());
    let e: nat = 4 * e + 2;
    assert(quad(0x41ba4d51e73ddfa52a6cc2ef56979641b669b280302797c698c159301861b613int, edwards_d(), 0, base_modulus()) == 0x3cbdccaecbdbc6aa17daaa431560a20ce3e80cdadc7261195da1698902351757int) by (nonlinear_arith);
    lemma_quad(edwards_d(), e, 0x41ba4d51e73ddfa52a6cc2ef56979641b669b280302797c698c159301861b613int, 0, base_modulus());
    let e: nat = 4 * e + 0;
    assert(quad(0x3cbdccaecbdbc6aa17daaa431560a20ce3e80cdadc7261195da1698902351757int, edwards_d(), 0, base_modulus()) == 0x60662c33a75259252b826cf55d76ff63bb15ff00533cbc2e5f35ed92c393cee0int) by (nonlinear_arith);
    lemma_quad(edwards_d(), e, 0x3cbdccaecbdbc6aa17daaa431560a20ce3e80cdadc7261195da1698902351757int, 0, base_modulus());
    let e: nat = 4 * e + 0;
    assert(quad(0x60662c33a75259252b826cf55d76ff63bb15ff00533cbc2e5f35ed92c393cee0int, edwards_d(), 0, base_modulus()) == 0x6a0c673eff695578511e15471a852ec00d3d1058189504b3fbbf5ef37ffff03dint) by (nonlinear_arith);
    lemma_quad(edwards_d(), e, 0x60662c33a75259252b826cf55d76ff63bb15ff00533cbc2e5f35ed92c393cee0int, 0, base_modulus());
    let e: nat = 4 * e + 0;
    assert(quad(0x6a0c673eff695578511e15471a852ec00d3d1058189504b3fbbf5ef37ffff03dint, edwards_d(), 1, base_modulus()) == 0x61d1d22811e4625a85b45215c5251049ecba20099cd60bff59cbb4e9dac78585int) by (nonlinear_arith);
    lemma_quad(edwards_d(), e, 0x6a0c673eff695578511e15471a852ec00d3d1058189504b3fbbf5ef37ffff03dint, 1, base_modulus());
    let e: nat = 4 * e + 1;
    assert(quad(0x61d1d22811e4625a85b45215c5251049ecba20099cd60bff59cbb4e9dac78585int, edwards_d(), 1, base_modulus()) == 0x28a22f6545ae8c02b4118d49ad076a4e5fa9d20e9b530acec80150cfc57626aaint) by (nonlinear_arith);
    lemma_quad(edwards_d(), e, 0x61d1d22811e4625a85b45215c5251049ecba20099cd60bff59cbb4e9dac78585int, 1, base_modulus());
    let e: nat = 4 * e + 1;
    assert(quad(0x28a22f6545ae8c02b4118d49ad076a4e5fa9d20e9b530acec80150cfc57626aaint, edwards_d(), 3, base_modulus()) == 0x1a4470251d45f1637d5f6bb689ec48ba9656b80cadf1da9106c59d6de850e130int) by (nonlinear_arith);
    lemma_quad(edwards_d(), e, 0x28a22f6545ae8c02b4118d49ad076a4e5fa9d20e9b530acec80150cfc57626aaint, 3, base_modulus());
    let e: nat = 4 * e + 3;
    assert(quad(0x1a4470251d45f1637d5f6bb689ec48ba9656b80cadf1da9106c59d6de850e130int, edwards_d(), 3, base_modulus()) == 0x557852f7a5204ddea271c0307ab2fc4bacda2b151a16722438d0a169d10d7b70int) by (nonlinear_arith);
    lemma_quad(edwards_d(), e, 0x1a4470251d45f1637d5f6bb689ec48ba9656b80cadf1da9106c59d6de850e130int, 3, base_modulus());
    let e: nat = 4 * e + 3;
    assert(quad(0x557852f7a5204ddea271c0307ab2fc4bacda2b151a16722438d0a169d10d7b70int, edwards_d(), 3, base_modulus()) == 0x504cc7b2ed5a65a6b2b111627d78f9a36032332e5a69463816447bcfc56b51d3int) by (nonlinear_arith);
    lemma_quad(edwards_d(), e, 0x557852f7a5204ddea271c0307ab2fc4bacda2b151a16722438d0a169d10d7b70int, 3, base_modulus());
    let e: nat = 4 * e + 3;
    assert(quad(0x504cc7b2ed5a65a6b2b111627d78f9a36032332e5a69463816447bcfc56b51d3int, edwards_d(), 3, base_modulus()) == 0x237315e289c599017a6f524c382aa70eea84a12ea97e42518de59740f6185061int) by (nonlinear_arith);
    lemma_quad(edwards_d(), e, 0x504cc7b2ed5a65a6b2b111627d78f9a36032332e5a69463816447bcfc56b51d3int, 3, base_modulus());
    let e: nat = 4 * e + 3;
    assert(quad(0x237315e289c599017a6f524c382aa70eea84a12ea97e42518de59740f6185061int, edwards_d(), 3, base_modulus()) == 0x303a141c0fe44f9f6cfbb91e41e60bf4d40f1055b0bd1ba9b5b2e155ab54fe5dint) by (nonlinear_arith);
    lemma_quad(edwards_d(), e, 0x237315e289c599017a6f524c382aa70eea84a12ea97e42518de59740f6185061int, 3, base_modulus());
    let e: nat = 4 * e + 3;
    assert(quad(0x303a141c0fe44f9f6cfbb91e41e60bf4d40f1055b0bd1ba9b5b2e155ab54fe5dint, edwards_d(), 3, base_modulus()) == 0x57b95785211f7721da8dda0e47ec5b785a586ebc5f7c5dc748a13f2772545a41int) by (nonlinear_arith);
    lemma_quad(edwards_d(), e, 0x303a141c0fe44f9f6cfbb91e41e60bf4d40f1055b0bd1ba9b5b2e155ab54fe5dint, 3, base_modulus());
    let e: nat = 4 * e + 3;
    assert(quad(0x57b95785211f7721da8dda0e47ec5b785a586ebc5f7c5dc748a13f2772545a41int, edwards_d(), 3, base_modulus()) == 0x25066bd33894f236fe860800a0ee95241cfa26a0e4320dca97bf4c5ac77f6bb5int) by (nonlinear_arith);
    lemma_quad(edwards_d(), e, 0x57b95785211f7721da8dda0e47ec5b785a586ebc5f7c5dc748a13f2772545a41int, 3, base_modulus());
    let e: nat = 4 * e + 3;
    assert(quad(0x25066bd33894f236fe860800a0ee95241cfa26a0e4320dca97bf4c5ac77f6bb5int, edwards_d(), 0, base_modulus()) == 0x6ee9bba12a5f3823899d50a6c21f281d9194e0b976c40ac20734504d1e4c51e6int) by (nonlinear_arith);
    lemma_quad(edwards_d(), e, 0x25066bd33894f236fe860800a0ee95241cfa26a0e4320dca97bf4c5ac77f6bb5int, 0, base_modulus());
    let e: nat = 4 * e + 0;
    assert(quad(0x6ee9bba12a5f3823899d50a6c21f281d9194e0b976c40ac20734504d1e4c51e6int, edwards_d(), 2, base_modulus()) == 0xfa11e9d86b86137e53fe5a35c154e4bbe61547db74c33d2862617b93fce58a9int) by (nonlinear_arith);
    lemma_quad(edwards_d(), e, 0x6ee9bba12a5f3823899d50a6c21f281d9194e0b976c40ac20734504d1e4c51e6int, 2, base_modulus());
    let e: nat = 4 * e + 2;
    assert(quad(0xfa11e9d86b86137e53fe5a35c154e4bbe61547db74c33d2862617b93fce58a9int, edwards_d(), 3, base_modulus()) == 0x2126bafbb1a30af42e4e63fcbcfe170685785603af8dabb6f7460198cd5d14e8int) by (nonlinear_arith);
    lemma_quad(edwards_d(), e, 0xfa11e9d86b86137e53fe5a35c154e4bbe61547db74c33d2862617b93fce58a9int, 3, base_modulus());
    let e: nat = 4 * e + 3;
    assert(quad(0x2126bafbb1a30af42e4e63fcbcfe170685785603af8dabb6f7460198cd5d14e8int, edwards_d(), 1, base_modulus()) == 0x24b2637f78c8fe32f7ff7424387256188ffe947a8f5a74a728392e94ec64b6aint) by (nonlinear_arith);
    lemma_quad(edwards_d(), e, 0x2126bafbb1a30af42e4e63fcbcfe170685785603af8dabb6f7460198cd5d14e8int, 1, base_modulus());
    let e: nat = 4 * e + 1;
    assert(quad(0x24b2637f78c8fe32f7ff7424387256188ffe947a8f5a74a728392e94ec64b6aint, edwards_d(), 3, base_modulus()) == 0x3846a5420cfbf92db737c56e40e43e888c3537b992c3e14bbc6aa020dd50fb7aint) by (nonlinear_arith);
    lemma_quad(edwards_d(), e, 0x24b2637f78c8fe32f7ff7424387256188ffe947a8f5a74a728392e94ec64b6aint, 3, base_modulus());
    let e: nat = 4 * e + 3;
    assert(quad(0x3846a5420cfbf92db737c56e40e43e888c3537b992c3e14bbc6aa020dd50fb7aint, edwards_d(), 3, base_modulus()) == 0x56b187f2e76e19de7ebacd5d4de9724e93b5ced47e27d9a070aa715d34513adaint) by (nonlinear_arith);
    lemma_quad(edwards_d(), e, 0x3846a5420cfbf92db737c56e40e43e888c3537b992c3e14bbc6aa020dd50fb7aint, 3, base_modulus());
    let e: nat = 4 * e + 3;
    assert(quad(0x56b187f2e76e19de7ebacd5d4de9724e93b5ced47e27d9a070aa715d34513adaint, edwards_d(), 3, base_modulus()) == 0x72a3ca88a094f89e44dbde6ec5614ee2cdce67619b4a04bfec7a9e420f91978aint) by (nonlinear_arith);
    lemma_quad(edwards_d(), e, 0x56b187f2e76e19de7ebacd5d4de9724e93b5ced47e27d9a070aa715d34513adaint, 3, base_modulus());
    let e: nat = 4 * e + 3;
    assert(quad(0x72a3ca88a094f89e44dbde6ec5614ee2cdce67619b4a04bfec7a9e420f91978aint, edwards_d(), 3, base_modulus()) == 0x67e29a26e0f08548985897dffe39d38fd44bde8a126ef91bbe6a477c4665065bint) by (nonlinear_arith);
    lemma_quad(edwards_d(), e, 0x72a3ca88a094f89e44dbde6ec5614ee2cdce67619b4a04bfec7a9e420f91978aint, 3, base_modulus());
    let e: nat = 4 * e + 3;
    assert(quad(0x67e29a26e0f08548985897dffe39d38fd44bde8a126ef91bbe6a477c4665065bint, edwards_d(), 1, base_modulus()) == 0x7011bedd624427a43cf1f71a6391afa654b9b5e0c4581dc8b207f57ae00f9d40int) by (nonlinear_arith);
    lemma_quad(edwards_d(), e, 0x67e29a26e0f08548985897dffe39d38fd44bde8a126ef91bbe6a477c4665065bint, 1, base_modulus());
    let e: nat = 4 * e + 1;
    assert(quad(0x7011bedd624427a43cf1f71a6391afa654b9b5e0c4581dc8b207f57ae00f9d40int, edwards_d(), 3, base_modulus()) == 0x71fa1bf988eaec9bbfd31ede0c0aeec62e45ec60ec1d2cbabab16e828d5b9259int) by (nonlinear_arith);
    lemma_quad(edwards_d(), e, 0x7011bedd624427a43cf1f71a6391afa654b9b5e0c4581dc8b207f57ae00f9d40int, 3, base_modulus());
    let e: nat = 4 * e + 3;
    assert(quad(0x71fa1bf988eaec9bbfd31ede0c0aeec62e45ec60ec1d2cbabab16e828d5b9259int, edwards_d(), 3, base_modulus()) == 0x1dd844c6c919d17bdcfe4b19dbc2a2e41ffcf7dd09a8da71e9ac2b6b3ab883a9int) by (nonlinear_arith);
    lemma_quad(edwards_d(), e, 0x71fa1bf988eaec9bbfd31ede0c0aeec62e45ec60ec1d2cbabab16e828d5b9259int, 3, base_modulus());
    let e: nat = 4 * e + 3;
    assert(quad(0x1dd844c6c919d17bdcfe4b19dbc2a2e41ffcf7dd09a8da71e9ac2b6b3ab883a9int, edwards_d(), 3, base_modulus()) == 0x4b13a0fcb1aeccd652ff857d8212830f822d80bf7e1f64f6942436caae940aint) by (nonlinear_arith);
    lemma_quad(edwards_d(), e, 0x1dd844c6c919d17bdcfe4b19dbc2a2e41ffcf7dd09a8da71e9ac2b6b3ab883a9int, 3, base_modulus());
    let e: nat = 4 * e + 3;
    assert(quad(0x4b13a0fcb1aeccd652ff857d8212830f822d80bf7e1f64f6942436caae940aint, edwards_d(), 3, base_modulus()) == 0x2f70e61d0c91f8816fb3417f572a01d10d5ca5972c5c7568ce705fb609fcd320int) by (nonlinear_arith);
    lemma_quad(edwards_d(), e, 0x4b13a0fcb1aeccd652ff857d8212830f822d80bf7e1f64f6942436caae940aint, 3, base_modulus());
    let e: nat = 4 * e + 3;
    assert(quad(0x2f70e61d0c91f8816fb3417f572a01d10d5ca5972c5c7568ce705fb609fcd320int, edwards_d(), 3, base_modulus()) == 0x163e2fd10fd4f602445855e978c62003e26f28fe10864e677fb3b66de832cb51int) by (nonlinear_arith);
    lemma_quad(edwards_d(), e, 0x2f70e61d0c91f8816fb3417f572a01d10d5ca5972c5c7568ce705fb609fcd320int, 3, base_modulus());
    let e: nat = 4 * e + 3;
    assert(quad(0x163e2fd10fd4f602445855e978c62003e26f28fe10864e677fb3b66de832cb51int, edwards_d(), 3, base_modulus()) == 0x3c2662350dbbcafb4865b9d4f548b4005113f8df8f38dc527c666ad135de5afaint) by (nonlinear_arith);
    lemma_quad(edwards_d(), e, 0x163e2fd10fd4f602445855e978c62003e26f28fe10864e677fb3b66de832cb51int, 3, base_modulus());
    let e: nat = 4 * e + 3;
    assert(quad(0x3c2662350dbbcafb4865b9d4f548b4005113f8df8f38dc527c666ad135de5afaint, edwards_d(), 3, base_modulus()) == 0x4960332ef1007a6d9e09754d68d7ed7533504be9cf8f112cbf8cb5ae59480998int) by (nonlinear_arith);
    lemma_quad(edwards_d(), e, 0x3c2662350dbbcafb4865b9d4f548b4005113f8df8f38dc527c666ad135de5afaint, 3, base_modulus());
    let e: nat = 4 * e + 3;
    assert(quad(0x4960332ef1007a6d9e09754d68d7ed7533504be9cf8f112cbf8cb5ae59480998int, edwards_d(), 3, base_modulus()) == 0x2cd66a74e2f091832627d772fcef7089b4962e411ddd930ed1328456ca9a0f1fint) by (nonlinear_arith);
    lemma_quad(edwards_d(), e, 0x4960332ef1007a6d9e09754d68d7ed7533504be9cf8f112cbf8cb5ae59480998int, 3, base_modulus());
    let e: nat = 4 * e + 3;
    assert(quad(0x2cd66a74e2f091832627d772fcef7089b4962e411ddd930ed1328456ca9a0f1fint, edwards_d(), 3, base_modulus()) == 0x4ab5e35c8a00c6b241f834e39b424833154ce1c39e901b9f458ab2daff8fe03int) by (nonlinear_arith);
    lemma_quad(edwards_d(), e, 0x2cd66a74e2f091832627d772fcef7089b4962e411ddd930ed1328456ca9a0f1fint, 3, base_modulus());
    let e: nat = 4 * e + 3;
    assert(quad(0x4ab5e35c8a00c6b241f834e39b424833154ce1c39e901b9f458ab2daff8fe03int, edwards_d(), 3, base_modulus()) == 0xb059909e6be6639c36a3351c42a344cac6e373207195eb74670a745b5603520int) by (nonlinear_arith);
    lemma_quad(edwards_d(), e, 0x4ab5e35c8a00c6b241f834e39b424833154ce1c39e901b9f458ab2daff8fe03int, 3, base_modulus());
    let e: nat = 4 * e + 3;
    assert(quad(0xb059909e6be6639c36a3351c42a344cac6e373207195eb74670a745b5603520int, edwards_d(), 3, base_modulus()) == 0x241f14e4fca683c92a4146355c5ede49a9bf3066b5522311d22abc195ace7518int) by (nonlinear_arith);
    lemma_quad(edwards_d(), e, 0xb059909e6be6639c36a3351c42a344cac6e373207195eb74670a745b5603520int, 3, base_modulus());
    let e: nat = 4 * e + 3;
    assert(quad(0x241f14e4fca683c92a4146355c5ede49a9bf3066b5522311d22abc195ace7518int, edwards_d(), 3, base_modulus()) == 0x13dc10691b709223e724b96390b4a72d25f5e1ec361e42ebbc78e207eb9d123int) by (nonlinear_arith);
    lemma_quad(edwards_d(), e, 0x241f14e4fca683c92a4146355c5ede49a9bf3066b5522311d22abc195ace7518int, 3, base_modulus());
    let e: nat = 4 * e + 3;
    assert(quad(0x13dc10691b709223e724b96390b4a72d25f5e1ec361e42ebbc78e207eb9d123int, edwards_d(), 3, base_modulus()) == 0x33099d6d12948014ebd63107a2f752d2f4e075b403f54461f95972a12bd5a20bint) by (nonlinear_arith);
    lemma_quad(edwards_d(), e, 0x13dc10691b709223e724b96390b4a72d25f5e1ec361e42ebbc78e207eb9d123int, 3, base_modulus());
    let e: nat = 4 * e + 3;
    assert(quad(0x33099d6d12948014ebd63107a2f752d2f4e075b403f54461f95972a12bd5a20bint, edwards_d(), 3, base_modulus()) == 0xf2a629e5e0acb99b24b52bd782b5a5c3f796b1b5c9745547bf601b7a0442e9fint) by (nonlinear_arith);
    lemma_quad(edwards_d(), e, 0x33099d6d12948014ebd63107a2f752d2f4e075b403f54461f95972a12bd5a20bint, 3, base_modulus());
    let e: nat = 4 * e + 3;
    assert(quad(0xf2a629e5e0acb99b24b52bd782b5a5c3f796b1b5c9745547bf601b7a0442e9fint, edwards_d(), 3, base_modulus()) == 0x6f5b8b8e2093d3ada7646b64a21380edb7dd83f24a2a644fb6d26df44894bff3int) by (nonlinear_arith);
    lemma_quad(edwards_d(), e, 0xf2a629e5e0acb99b24b52bd782b5a5c3f796b1b5c9745547bf601b7a0442e9fint, 3, base_modulus());
    let e: nat = 4 * e + 3;
    assert(quad(0x6f5b8b8e2093d3ada7646b64a21380edb7dd83f24a2a644fb6d26df44894bff3int, edwards_d(), 2, base_modulus()) == 0x4d1b49d97b1d702c2931e30b313acda22942a0d9ec63eb5221de573ffc1a9c2fint) by (nonlinear_arith);
    lemma_quad(edwards_d(), e, 0x6f5b8b8e2093d3ada7646b64a21380edb7dd83f24a2a644fb6d26df44894bff3int, 2, base_modulus());
    let e: nat = 4 * e + 2;
    assert(quad(0x4d1b49d97b1d702c2931e30b313acda22942a0d9ec63eb5221de573ffc1a9c2fint, edwards_d(), 0, base_modulus()) == 0x6129217947ded95bc7513cfc86e08c639e9f639396427665be8b7e8898b0dc5dint) by (nonlinear_arith);
    lemma_quad(edwards_d(), e, 0x4d1b49d97b1d702c2931e30b313acda22942a0d9ec63eb5221de573ffc1a9c2fint, 0, base_modulus());
    let e: nat = 4 * e + 0;
    assert(quad(0x6129217947ded95bc7513cfc86e08c639e9f639396427665be8b7e8898b0dc5dint, edwards_d(), 0, base_modulus()) == 0x593e2dc4f733112f08a50398409e9369b0719d039a586d37970f2492a3b8731cint) by (nonlinear_arith);
    lemma_quad(edwards_d(), e, 0x6129217947ded95bc7513cfc86e08c639e9f639396427665be8b7e8898b0dc5dint, 0, base_modulus());
    let e: nat = 4 * e + 0;
    assert(quad(0x593e2dc4f733112f08a50398409e9369b0719d039a586d37970f2492a3b8731cint, edwards_d(), 0, base_modulus()) == 0x4573a3ff26999e8942bce571b36d7686a5a767c54e76b50aef31d3e0084de388int) by (nonlinear_arith);
    lemma_quad(edwards_d(), e, 0x593e2dc4f733112f08a50398409e9369b0719d039a586d37970f2492a3b8731cint, 0, base_modulus());
    let e: nat = 4 * e + 0;
    assert(quad(0x4573a3ff26999e8942bce571b36d7686a5a767c54e76b50aef31d3e0084de388int, edwards_d(), 0, base_modulus()) == 0x3694f7e5675b64288081c42ef9aacf853bdc00f4af935f94edac5481ca76b24cint) by (nonlinear_arith);
    lemma_quad(edwards_d(), e, 0x4573a3ff26999e8942bce571b36d7686a5a767c54e76b50aef31d3e0084de388int, 0, base_modulus());
    let e: nat = 4 * e + 0;
    assert(quad(0x3694f7e5675b64288081c42ef9aacf853bdc00f4af935f94edac5481ca76b24cint, edwards_d(), 0, base_modulus()) == 0x61eb6b2812e8acd1f7047a4579564fca905de2c95abb115f0621285d95aa2e46int) by (nonlinear_arith);
    lemma_quad(edwards_d(), e, 0x3694f7e5675b64288081c42ef9aacf853bdc00f4af935f94edac5481ca76b24cint, 0, base_modulus());
    let e: nat = 4 * e + 0;
    assert(quad(0x61eb6b2812e8acd1f7047a4579564fca905de2c95abb115f0621285d95aa2e46int, edwards_d(), 0, base_modulus()) == 0x370bafd07ad0bacb045ad4fc100b01bd9285cb5fde85a555b632408a0ff8f891int) by (nonlinear_arith);
    lemma_quad(edwards_d(), e, 0x61eb6b2812e8acd1f7047a4579564fca905de2c95abb115f0621285d95aa2e46int, 0, base_modulus());
    let e: nat = 4 * e + 0;
    assert(quad(0x370bafd07ad0bacb045ad4fc100b01bd9285cb5fde85a555b632408a0ff8f891int, edwards_d(), 0, base_modulus()) == 0x712e74ebac271b471144405d97e5ee9fdaf288998e12c958e59eda358542a7abint) by (nonlinear_arith);
    lemma_quad(edwards_d(), e, 0x370bafd07ad0bacb045ad4fc100b01bd9285cb5fde85a555b632408a0ff8f891int, 0, base_modulus());
    let e: nat = 4 * e + 0;
    assert(quad(0x712e74ebac271b471144405d97e5ee9fdaf288998e12c958e59eda358542a7abint, edwards_d(), 0, base_modulus()) == 0x202aed25ce8e6205ab14b0ad89aa289fd0dda5476e8d329434f0d6f612634339int) by (nonlinear_arith);
    lemma_quad(edwards_d(), e, 0x712e74ebac271b471144405d97e5ee9fdaf288998e12c958e59eda358542a7abint, 0, base_modulus());
    let e: nat = 4 * e + 0;
    assert(quad(0x202aed25ce8e6205ab14b0ad89aa289fd0dda5476e8d329434f0d6f612634339int, edwards_d(), 0, base_modulus()) == 0x506db28cd8c7d1ae0acf5542d43f0fda3af6669ef4b24bc4b09a68c2703bcbd9int) by (nonlinear_arith);
    lemma_quad(edwards_d(), e, 0x202aed25ce8e6205ab14b0ad89aa289fd0dda5476e8d329434f0d6f612634339int, 0, base_modulus());
    let e: nat = 4 * e + 0;
    assert(quad(0x506db28cd8c7d1ae0acf5542d43f0fda3af6669ef4b24bc4b09a68c2703bcbd9int, edwards_d(), 0, base_modulus()) == 0x6f482e6efad085ce099ee55f6c643d7050090554eb33fa5104a58b430e6996b2int) by (nonlinear_arith);
    lemma_quad(edwards_d(), e, 0x506db28cd8c7d1ae0acf5542d43f0fda3af6669ef4b24bc4b09a68c2703bcbd9int, 0, base_modulus());
    let e: nat = 4 * e + 0;
    assert(quad(0x6f482e6efad085ce099ee55f6c643d7050090554eb33fa5104a58b430e6996b2int, edwards_d(), 0, base_modulus()) == 0x2ca0b0c5760e32cd0b9943d2d6d61529ebbc8a5b856414d3e0fda947724a81e9int) by (nonlinear_arith);
    lemma_quad(edwards_d(), e, 0x6f482e6efad085ce099ee55f6c643d7050090554eb33fa5104a58b430e6996b2int, 0, base_modulus());
    let e: nat = 4 * e + 0;
    assert(quad(0x2ca0b0c5760e32cd0b9943d2d6d61529ebbc8a5b856414d3e0fda947724a81e9int, edwards_d(), 0, base_modulus()) == 0x1325b766f5943eadc0dcf3788fe23b2f533c9d94a870e33f9df832cfdf2062efint) by (nonlinear_arith);
    lemma_quad(edwards_d(), e, 0x2ca0b0c5760e32cd0b9943d2d6d61529ebbc8a5b856414d3e0fda947724a81e9int, 0, base_modulus());
    let e: nat = 4 * e + 0;
    assert(quad(0x1325b766f5943eadc0dcf3788fe23b2f533c9d94a870e33f9df832cfdf2062efint, edwards_d(), 0, base_modulus()) == 0x5e73ed8c432405d0ae25b21df6c52b2a6c7876bf0928e68fae34a81e1cfca2ecint) by (nonlinear_arith);
    lemma_quad(edwards_d(), e, 0x1325b766f5943eadc0dcf3788fe23b2f533c9d94a870e33f9df832cfdf2062efint, 0, base_modulus());
    let e: nat = 4 * e + 0;
    assert(quad(0x5e73ed8c432405d0ae25b21df6c52b2a6c7876bf0928e68fae34a81e1cfca2ecint, edwards_d(), 0, base_modulus()) == 0x60b9f524ccbc6d03787d7d083f1b189fc54913cc6b4e0c269fc8017d5166afd3int) by (nonlinear_arith);
    lemma_quad(edwards_d(), e, 0x5e73ed8c432405d0ae25b21df6c52b2a6c7876bf0928e68fae34a81e1cfca2ecint, 0, base_modulus());
    let e: nat = 4 * e + 0;
    assert(quad(0x60b9f524ccbc6d03787d7d083f1b189fc54913cc6b4e0c269fc8017d5166afd3int, edwards_d(), 0, base_modulus()) == 0x73eda753299d7d483339d80809a1d80553bda402fffe5bfeffffffff00000000int) by (nonlinear_arith);
    lemma_quad(edwards_d(), e, 0x60b9f524ccbc6d03787d7d083f1b189fc54913cc6b4e0c269fc8017d5166afd3int, 0, base_modulus());
    let e: nat = 4 * e + 0;
    assert(e == 0x39f6d3a994cebea4199cec0404d0ec02a9ded2017fff2dff7fffffff80000000int);
}

/// The parameter of the curve is no square, not even times a square.
pub proof fn lemma_parameter(t: int, z: int)
    requires
        t % base_modulus() != 0,
    ensures
        !congruent(edwards_d() * (t * t), z * z, base_modulus()),
{
    lemma_base_prime();
    lemma_power_parameter();
    lemma_nonsquare(edwards_d(), t, z, base_modulus());
}

/// A square root of minus one.
pub open spec fn imaginary() -> int {
    0x8d51ccce760304d0ec030002760300000001000000000000int
}

/// Minus one is a square.
pub proof fn lemma_imaginary()
    ensures
        congruent(imaginary() * imaginary(), -1, base_modulus()),
{
    assert((0x8d51ccce760304d0ec030002760300000001000000000000int * 0x8d51ccce760304d0ec030002760300000001000000000000int) % 0x73eda753299d7d483339d80809a1d80553bda402fffe5bfeffffffff00000001int == 0x73eda753299d7d483339d80809a1d80553bda402fffe5bfeffffffff00000000int) by (nonlinear_arith);
    assert((-1int) % 0x73eda753299d7d483339d80809a1d80553bda402fffe5bfeffffffff00000001int == 0x73eda753299d7d483339d80809a1d80553bda402fffe5bfeffffffff00000000int);
}

} // verus!
