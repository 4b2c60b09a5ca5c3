//! The roots of unity of order two to the 32 of both fields, as powers of the generator five.
use crate::field::certificates::{lemma_quad, pallas_modulus, quad, vesta_modulus};
use vstd::arithmetic::div_mod::{lemma_mul_mod_noop_general, lemma_small_mod};
use vstd::arithmetic::power::{lemma_pow0, lemma_pow1, lemma_pow_adds, pow};
use vstd::prelude::*;

verus! {

proof fn lemma_pallas_root_a()
    ensures
        pow(5, 0x40000000000000nat) % pallas_modulus() == 0x97ebf35ebbb63fda11d38066fd56cf6d8a231be34dbd249f01544b6fec56efbint,
{
    lemma_pow0(5);
    let e: nat = 0;
    assert(quad(0x1int, 5, 1, pallas_modulus()) == 0x5int) by (nonlinear_arith);
    lemma_quad(5, e, 0x1int, 1, pallas_modulus());
    let e: nat = 4 * e + 1;
    assert(quad(0x5int, 5, 0, pallas_modulus()) == 0x271int) by (nonlinear_arith);
    lemma_quad(5, e, 0x5int, 0, pallas_modulus());
    let e: nat = 4 * e + 0;
    assert(quad(0x271int, 5, 0, pallas_modulus()) == 0x2386f26fc1int) by (nonlinear_arith);
    lemma_quad(5, e, 0x271int, 0, pallas_modulus());
    let e: nat = 4 * e + 0;
    assert(quad(0x2386f26fc1int, 5, 0, pallas_modulus()) == 0x184f03e93ff9f4daa797ed6e38ed64bf6a1f01int) by (nonlinear_arith);
    lemma_quad(5, e, 0x2386f26fc1int, 0, pallas_modulus());
    let e: nat = 4 * e + 0;
    assert(quad(0x184f03e93ff9f4daa797ed6e38ed64bf6a1f01int, 5, 0, pallas_modulus()) == 0x3231a7ac888f86bd921e33580bd5c3a2e3b8cbd4ac1c260b990b21d35b6b583bint) by (nonlinear_arith);
    lemma_quad(5, e, 0x184f03e93ff9f4daa797ed6e38ed64bf6a1f01int, 0, pallas_modulus());
    let e: nat = 4 * e + 0;
    assert(quad(0x3231a7ac888f86bd921e33580bd5c3a2e3b8cbd4ac1c260b990b21d35b6b583bint, 5, 0, pallas_modulus()) == 0x2e4ea6d704185b51b354c60fe838375b53d1727bd6e1ec44e49ee657b4fb0699int) by (nonlinear_arith);
    lemma_quad(5, e, 0x3231a7ac888f86bd921e33580bd5c3a2e3b8cbd4ac1c260b990b21d35b6b583bint, 0, pallas_modulus());
    let e: nat = 4 * e + 0;
    assert(quad(0x2e4ea6d704185b51b354c60fe838375b53d1727bd6e1ec44e49ee657b4fb0699int, 5, 0, pallas_modulus()) == 0x252711fdcbcc54214fd6bea1019c4a5475e74f30bef22c921116cc3df2ac1ba7int) by (nonlinear_arith);
    lemma_quad(5, e, 0x2e4ea6d704185b51b354c60fe838375b53d1727bd6e1ec44e49ee657b4fb0699int, 0, pallas_modulus());
    let e: nat = 4 * e + 0;
    assert(quad(0x252711fdcbcc54214fd6bea1019c4a5475e74f30bef22c921116cc3df2ac1ba7int, 5, 0, pallas_modulus()) == 0x2fc2e33e61f21bdeb5794b44567b32574cf37a28bca6ff146495f130c966e641int) by (nonlinear_arith);
    lemma_quad(5, e, 0x252711fdcbcc54214fd6bea1019c4a5475e74f30bef22c921116cc3df2ac1ba7int, 0, pallas_modulus());
    let e: nat = 4 * e + 0;
    assert(quad(0x2fc2e33e61f21bdeb5794b44567b32574cf37a28bca6ff146495f130c966e641int, 5, 0, pallas_modulus()) == 0x131192184af527d67d64e99c7292dde4f80e7ba939ca60ac0e6c0f370f5b4101int) by (nonlinear_arith);
    lemma_quad(5, e, 0x2fc2e33e61f21bdeb5794b44567b32574cf37a28bca6ff146495f130c966e641int, 0, pallas_modulus());
    let e: nat = 4 * e + 0;
    assert(quad(0x131192184af527d67d64e99c7292dde4f80e7ba939ca60ac0e6c0f370f5b4101int, 5, 0, pallas_modulus()) == 0x33646fab85cbe76f2a88f0acc575cda7129f77919d0d25be91264126496e6e1bint) by (nonlinear_arith);
    lemma_quad(5, e, 0x131192184af527d67d64e99c7292dde4f80e7ba939ca60ac0e6c0f370f5b4101int, 0, pallas_modulus());
    let e: nat = 4 * e + 0;
    assert(quad(0x33646fab85cbe76f2a88f0acc575cda7129f77919d0d25be91264126496e6e1bint, 5, 0, pallas_modulus()) == 0x3f8445cec9e7d22737013893cf61f1d915694488e0b400123648636b337f0c3eint) by (nonlinear_arith);
    lemma_quad(5, e, 0x33646fab85cbe76f2a88f0acc575cda7129f77919d0d25be91264126496e6e1bint, 0, pallas_modulus());
    let e: nat = 4 * e + 0;
    assert(quad(0x3f8445cec9e7d22737013893cf61f1d915694488e0b400123648636b337f0c3eint, 5, 0, pallas_modulus()) == 0x273d378979ad6cdacf8fa36ce6c3b53c4dea5b45276980b3d26d2da2a9a3b786int) by (nonlinear_arith);
    lemma_quad(5, e, 0x3f8445cec9e7d22737013893cf61f1d915694488e0b400123648636b337f0c3eint, 0, pallas_modulus());
    let e: nat = 4 * e + 0;
    assert(quad(0x273d378979ad6cdacf8fa36ce6c3b53c4dea5b45276980b3d26d2da2a9a3b786int, 5, 0, pallas_modulus()) == 0x81d369e38e96e24425d79323ded4254a835a23397d0a756040c08ef2f66d639int) by (nonlinear_arith);
    lemma_quad(5, e, 0x273d378979ad6cdacf8fa36ce6c3b53c4dea5b45276980b3d26d2da2a9a3b786int, 0, pallas_modulus());
    let e: nat = 4 * e + 0;
    assert(quad(0x81d369e38e96e24425d79323ded4254a835a23397d0a756040c08ef2f66d639int, 5, 0, pallas_modulus()) == 0x36cb408a32c26e9ebc4d45d4649c3e2c85861a55dfc39b987c063130cf2b7172int) by (nonlinear_arith);
    lemma_quad(5, e, 0x81d369e38e96e24425d79323ded4254a835a23397d0a756040c08ef2f66d639int, 0, pallas_modulus());
    let e: nat = 4 * e + 0;
    assert(quad(0x36cb408a32c26e9ebc4d45d4649c3e2c85861a55dfc39b987c063130cf2b7172int, 5, 0, pallas_modulus()) == 0x2da4f612e8ebfd1010c0f635ad5f6dd48184e48474a5f316765f875b213c8c62int) by (nonlinear_arith);
    lemma_quad(5, e, 0x36cb408a32c26e9ebc4d45d4649c3e2c85861a55dfc39b987c063130cf2b7172int, 0, pallas_modulus());
    let e: nat = 4 * e + 0;
    assert(quad(0x2da4f612e8ebfd1010c0f635ad5f6dd48184e48474a5f316765f875b213c8c62int, 5, 0, pallas_modulus()) == 0x14ed14a21b39abc0bfb7b6849a5bca4b93172ebbed3fb96c499e40c06d08053aint) by (nonlinear_arith);
    lemma_quad(5, e, 0x2da4f612e8ebfd1010c0f635ad5f6dd48184e48474a5f316765f875b213c8c62int, 0, pallas_modulus());
    let e: nat = 4 * e + 0;
    assert(quad(0x14ed14a21b39abc0bfb7b6849a5bca4b93172ebbed3fb96c499e40c06d08053aint, 5, 0, pallas_modulus()) == 0xa757d0f0006ab6cbd455b7112a5049df5e4f3f13eee56366a6ccd20dd7b9ba2int) by (nonlinear_arith);
    lemma_quad(5, e, 0x14ed14a21b39abc0bfb7b6849a5bca4b93172ebbed3fb96c499e40c06d08053aint, 0, pallas_modulus());
    let e: nat = 4 * e + 0;
    assert(quad(0xa757d0f0006ab6cbd455b7112a5049df5e4f3f13eee56366a6ccd20dd7b9ba2int, 5, 0, pallas_modulus()) == 0x15fdc86e1969b568bfdc9d7bef8d0e5a2cd46a3fa0021205ed58163b2de8f3d5int) by (nonlinear_arith);
    lemma_quad(5, e, 0xa757d0f0006ab6cbd455b7112a5049df5e4f3f13eee56366a6ccd20dd7b9ba2int, 0, pallas_modulus());
    let e: nat = 4 * e + 0;
    assert(quad(0x15fdc86e1969b568bfdc9d7bef8d0e5a2cd46a3fa0021205ed58163b2de8f3d5int, 5, 0, pallas_modulus()) == 0x2294409f54224e3c4f7c1dfaaac126a1c44dcdc4db152764b70ae2732e0f37cfint) by (nonlinear_arith);
    lemma_quad(5, e, 0x15fdc86e1969b568bfdc9d7bef8d0e5a2cd46a3fa0021205ed58163b2de8f3d5int, 0, pallas_modulus());
    let e: nat = 4 * e + 0;
    assert(quad(0x2294409f54224e3c4f7c1dfaaac126a1c44dcdc4db152764b70ae2732e0f37cfint, 5, 0, pallas_modulus()) == 0x2229d7967b183d978e84d475eecdee57a428e68272df4bf7ee3ac9969e214379int) by (nonlinear_arith);
    lemma_quad(5, e, 0x2294409f54224e3c4f7c1dfaaac126a1c44dcdc4db152764b70ae2732e0f37cfint, 0, pallas_modulus());
    let e: nat = 4 * e + 0;
    assert(quad(0x2229d7967b183d978e84d475eecdee57a428e68272df4bf7ee3ac9969e214379int, 5, 0, pallas_modulus()) == 0x16997cd6b34b41ec8519d4d92982458a190c97ccb95fde8534c6347421f249caint) by (nonlinear_arith);
    lemma_quad(5, e, 0x2229d7967b183d978e84d475eecdee57a428e68272df4bf7ee3ac9969e214379int, 0, pallas_modulus());
    let e: nat = 4 * e + 0;
    assert(quad(0x16997cd6b34b41ec8519d4d92982458a190c97ccb95fde8534c6347421f249caint, 5, 0, pallas_modulus()) == 0x1d45427d487dd645cf9c5706f9b5054250aa72a5fe235908c61270594e1cca16int) by (nonlinear_arith);
    lemma_quad(5, e, 0x16997cd6b34b41ec8519d4d92982458a190c97ccb95fde8534c6347421f249caint, 0, pallas_modulus());
    let e: nat = 4 * e + 0;
    assert(quad(0x1d45427d487dd645cf9c5706f9b5054250aa72a5fe235908c61270594e1cca16int, 5, 0, pallas_modulus()) == 0x3950279d96b68b8abbeb7b341b376c73993b4f2a4a0e5e71cf51e1a94d2cfc0int) by (nonlinear_arith);
    lemma_quad(5, e, 0x1d45427d487dd645cf9c5706f9b5054250aa72a5fe235908c61270594e1cca16int, 0, pallas_modulus());
    let e: nat = 4 * e + 0;
    assert(quad(0x3950279d96b68b8abbeb7b341b376c73993b4f2a4a0e5e71cf51e1a94d2cfc0int, 5, 0, pallas_modulus()) == 0xf68f5156bde865c14d0334cad1d8ebc72008f0990c92a6ef9bd918d13f07b98int) by (nonlinear_arith);
    lemma_quad(5, e, 0x3950279d96b68b8abbeb7b341b376c73993b4f2a4a0e5e71cf51e1a94d2cfc0int, 0, pallas_modulus());
    let e: nat = 4 * e + 0;
    assert(quad(0xf68f5156bde865c14d0334cad1d8ebc72008f0990c92a6ef9bd918d13f07b98int, 5, 0, pallas_modulus()) == 0x12a29b90b6491e2a1d40f26d7b5e1da4707e58efe2785a840cd996b7c26fc9f6int) by (nonlinear_arith);
    lemma_quad(5, e, 0xf68f5156bde865c14d0334cad1d8ebc72008f0990c92a6ef9bd918d13f07b98int, 0, pallas_modulus());
    let e: nat = 4 * e + 0;
    assert(quad(0x12a29b90b6491e2a1d40f26d7b5e1da4707e58efe2785a840cd996b7c26fc9f6int, 5, 0, pallas_modulus()) == 0xb4ed00a340ba4e2baa3ecc2b07bd611187c70a2d18f9c6ff82e9ae8af5eb77fint) by (nonlinear_arith);
    lemma_quad(5, e, 0x12a29b90b6491e2a1d40f26d7b5e1da4707e58efe2785a840cd996b7c26fc9f6int, 0, pallas_modulus());
    let e: nat = 4 * e + 0;
    assert(quad(0xb4ed00a340ba4e2baa3ecc2b07bd611187c70a2d18f9c6ff82e9ae8af5eb77fint, 5, 0, pallas_modulus()) == 0x3236acc8fc4bb400e1a0b84e063c7a25bb504a263441c2cd1f3e760742c58e93int) by (nonlinear_arith);
    lemma_quad(5, e, 0xb4ed00a340ba4e2baa3ecc2b07bd611187c70a2d18f9c6ff82e9ae8af5eb77fint, 0, pallas_modulus());
    let e: nat = 4 * e + 0;
    assert(quad(0x3236acc8fc4bb400e1a0b84e063c7a25bb504a263441c2cd1f3e760742c58e93int, 5, 0, pallas_modulus()) == 0x97ebf35ebbb63fda11d38066fd56cf6d8a231be34dbd249f01544b6fec56efbint) by (nonlinear_arith);
    lemma_quad(5, e, 0x3236acc8fc4bb400e1a0b84e063c7a25bb504a263441c2cd1f3e760742c58e93int, 0, pallas_modulus());
    let e: nat = 4 * e + 0;
    assert(e == 0x40000000000000int);
}

proof fn lemma_pallas_root_b()
    ensures
        pow(5, 0x4000000000000000000000000000nat) % pallas_modulus() == 0x20819f7c4453332a10eb867d543fa3749f43c362141775980cd5a3baee5e7e8eint,
{
    lemma_pallas_root_a();
    let e: nat = 0x40000000000000nat;
    assert(quad(0x97ebf35ebbb63fda11d38066fd56cf6d8a231be34dbd249f01544b6fec56efbint, 5, 0, pallas_modulus()) == 0x7de9800f2ffa367940929c9eac333e5cb0d51937ee31ef2afeea74e92a1e809int) by (nonlinear_arith);
    lemma_quad(5, e, 0x97ebf35ebbb63fda11d38066fd56cf6d8a231be34dbd249f01544b6fec56efbint, 0, pallas_modulus());
    let e: nat = 4 * e + 0;
    assert(quad(0x7de9800f2ffa367940929c9eac333e5cb0d51937ee31ef2afeea74e92a1e809int, 5, 0, pallas_modulus()) == 0x25fe15d1d134472d65f131fc293aa441df481a2b69667091dc3322c1bff39d0int) by (nonlinear_arith);
    lemma_quad(5, e, 0x7de9800f2ffa367940929c9eac333e5cb0d51937ee31ef2afeea74e92a1e809int, 0, pallas_modulus());
    let e: nat = 4 * e + 0;
    assert(quad(0x25fe15d1d134472d65f131fc293aa441df481a2b69667091dc3322c1bff39d0int, 5, 0, pallas_modulus()) == 0x3cb2f947722a5b4441aaeb7217d754c7e0e16cdbc8657bc36b6f67b8aa5d7dc2int) by (nonlinear_arith);
    lemma_quad(5, e, 0x25fe15d1d134472d65f131fc293aa441df481a2b69667091dc3322c1bff39d0int, 0, pallas_modulus());
    let e: nat = 4 * e + 0;
    assert(quad(0x3cb2f947722a5b4441aaeb7217d754c7e0e16cdbc8657bc36b6f67b8aa5d7dc2int, 5, 0, pallas_modulus()) == 0x125e0c254012835a2115165dcb46afe9f71914b15a1eadcf3b3dbc2b8dcc9f03int) by (nonlinear_arith);
    lemma_quad(5, e, 0x3cb2f947722a5b4441aaeb7217d754c7e0e16cdbc8657bc36b6f67b8aa5d7dc2int, 0, pallas_modulus());
    let e: nat = 4 * e + 0;
    assert(quad(0x125e0c254012835a2115165dcb46afe9f71914b15a1eadcf3b3dbc2b8dcc9f03int, 5, 0, pallas_modulus()) == 0x172e0da27d8164371e195ba18e95b1ebcba1629558b6d63104cdc0a58d7eced4int) by (nonlinear_arith);
    lemma_quad(5, e, 0x125e0c254012835a2115165dcb46afe9f71914b15a1eadcf3b3dbc2b8dcc9f03int, 0, pallas_modulus());
    let e: nat = 4 * e + 0;
    assert(quad(0x172e0da27d8164371e195ba18e95b1ebcba1629558b6d63104cdc0a58d7eced4int, 5, 0, pallas_modulus()) == 0x19c22bc87e1108e4b46e61f298993d8ffa342ec48ab0706aaa607320eb92027fint) by (nonlinear_arith);
    lemma_quad(5, e, 0x172e0da27d8164371e195ba18e95b1ebcba1629558b6d63104cdc0a58d7eced4int, 0, pallas_modulus());
    let e: nat = 4 * e + 0;
    assert(quad(0x19c22bc87e1108e4b46e61f298993d8ffa342ec48ab0706aaa607320eb92027fint, 5, 0, pallas_modulus()) == 0x2cd5e31ec40c654fe94426a79f6dee64b1bc0d842795714d3065a0195eaf6283int) by (nonlinear_arith);
    lemma_quad(5, e, 0x19c22bc87e1108e4b46e61f298993d8ffa342ec48ab0706aaa607320eb92027fint, 0, pallas_modulus());
    let e: nat = 4 * e + 0;
    assert(quad(0x2cd5e31ec40c654fe94426a79f6dee64b1bc0d842795714d3065a0195eaf6283int, 5, 0, pallas_modulus()) == 0x408c78cdecf696093d51632c0fe245e69def2d470a565402b7fd0a2947fcd41int) by (nonlinear_arith);
    lemma_quad(5, e, 0x2cd5e31ec40c654fe94426a79f6dee64b1bc0d842795714d3065a0195eaf6283int, 0, pallas_modulus());
    let e: nat = 4 * e + 0;
    assert(quad(0x408c78cdecf696093d51632c0fe245e69def2d470a565402b7fd0a2947fcd41int, 5, 0, pallas_modulus()) == 0x33f6625ccd1006f5d501667faab79d238ce50d7b7343b20e450c90f9f2a1c173int) by (nonlinear_arith);
    lemma_quad(5, e, 0x408c78cdecf696093d51632c0fe245e69def2d470a565402b7fd0a2947fcd41int, 0, pallas_modulus());
    let e: nat = 4 * e + 0;
    assert(quad(0x33f6625ccd1006f5d501667faab79d238ce50d7b7343b20e450c90f9f2a1c173int, 5, 0, pallas_modulus()) == 0x381bf3d985980699252298194394a353f61b588e2a238dae12104427f512f382int) by (nonlinear_arith);
    lemma_quad(5, e, 0x33f6625ccd1006f5d501667faab79d238ce50d7b7343b20e450c90f9f2a1c173int, 0, pallas_modulus());
    let e: nat = 4 * e + 0;
    assert(quad(0x381bf3d985980699252298194394a353f61b588e2a238dae12104427f512f382int, 5, 0, pallas_modulus()) == 0x10f164ad36789d53dc8c6273876b955ae8e27f204c7d3e04675606babdc84927int) by (nonlinear_arith);
    lemma_quad(5, e, 0x381bf3d985980699252298194394a353f61b588e2a238dae12104427f512f382int, 0, pallas_modulus());
    let e: nat = 4 * e + 0;
    assert(quad(0x10f164ad36789d53dc8c6273876b955ae8e27f204c7d3e04675606babdc84927int, 5, 0, pallas_modulus()) == 0x127483b3fb2588f7845e25dab0a357ae2100d478543e337d6fddbd587876f690int) by (nonlinear_arith);
    lemma_quad(5, e, 0x10f164ad36789d53dc8c6273876b955ae8e27f204c7d3e04675606babdc84927int, 0, pallas_modulus());
    let e: nat = 4 * e + 0;
    assert(quad(0x127483b3fb2588f7845e25dab0a357ae2100d478543e337d6fddbd587876f690int, 5, 0, pallas_modulus()) == 0x3d366515e76dd8ca52f545f4b41c516c4ec85af577387a6af97c5bec29b2b688int) by (nonlinear_arith);
    lemma_quad(5, e, 0x127483b3fb2588f7845e25dab0a357ae2100d478543e337d6fddbd587876f690int, 0, pallas_modulus());
    let e: nat = 4 * e + 0;
    assert(quad(0x3d366515e76dd8ca52f545f4b41c516c4ec85af577387a6af97c5bec29b2b688int, 5, 0, pallas_modulus()) == 0x1eb3be5376472d048bc0827652d4b91aef54778731b9ac4c6d765278f7672e35int) by (nonlinear_arith);
    lemma_quad(5, e, 0x3d366515e76dd8ca52f545f4b41c516c4ec85af577387a6af97c5bec29b2b688int, 0, pallas_modulus());
    let e: nat = 4 * e + 0;
    assert(quad(0x1eb3be5376472d048bc0827652d4b91aef54778731b9ac4c6d765278f7672e35int, 5, 0, pallas_modulus()) == 0x9a426bc41a6aaeb5addac737a3988e598c1b8b7dfb50284ec9f3af4b8eee811int) by (nonlinear_arith);
    lemma_quad(5, e, 0x1eb3be5376472d048bc0827652d4b91aef54778731b9ac4c6d765278f7672e35int, 0, pallas_modulus());
    let e: nat = 4 * e + 0;
    assert(quad(0x9a426bc41a6aaeb5addac737a3988e598c1b8b7dfb50284ec9f3af4b8eee811int, 5, 0, pallas_modulus()) == 0xbaca67b0837a680cb2c07c86934e3a0bb880504a70bfb643c3ab8d7d997cf05int) by (nonlinear_arith);
    lemma_quad(5, e, 0x9a426bc41a6aaeb5addac737a3988e598c1b8b7dfb50284ec9f3af4b8eee811int, 0, pallas_modulus());
    let e: nat = 4 * e + 0;
    assert(quad(0xbaca67b0837a680cb2c07c86934e3a0bb880504a70bfb643c3ab8d7d997cf05int, 5, 0, pallas_modulus()) == 0xd4b447c2e8c5d54d5aab114e7b62199941ca3a4ed8516d73c354b9cb2e12df6int) by (nonlinear_arith);
    lemma_quad(5, e, 0xbaca67b0837a680cb2c07c86934e3a0bb880504a70bfb643c3ab8d7d997cf05int, 0, pallas_modulus());
    let e: nat = 4 * e + 0;
    assert(quad(0xd4b447c2e8c5d54d5aab114e7b62199941ca3a4ed8516d73c354b9cb2e12df6int, 5, 0, pallas_modulus()) == 0x32e982330c553de673b8fa2bc6a916a2f5fcef85d62c7cbf2f14de773ab6139cint) by (nonlinear_arith);
    lemma_quad(5, e, 0xd4b447c2e8c5d54d5aab114e7b62199941ca3a4ed8516d73c354b9cb2e12df6int, 0, pallas_modulus());
    let e: nat = 4 * e + 0;
    assert(quad(0x32e982330c553de673b8fa2bc6a916a2f5fcef85d62c7cbf2f14de773ab6139cint, 5, 0, pallas_modulus()) == 0x2525a4ef3044962c73dad73311764b1c43f87386698a3a0c883962fb092b18d3int) by (nonlinear_arith);
    lemma_quad(5, e, 0x32e982330c553de673b8fa2bc6a916a2f5fcef85d62c7cbf2f14de773ab6139cint, 0, pallas_modulus());
    let e: nat = 4 * e + 0;
    assert(quad(0x2525a4ef3044962c73dad73311764b1c43f87386698a3a0c883962fb092b18d3int, 5, 0, pallas_modulus()) == 0x3a7083b43ac2cd5ac71b7407312bbaca72ba529cdaec6e2e77913c9d7db85044int) by (nonlinear_arith);
    lemma_quad(5, e, 0x2525a4ef3044962c73dad73311764b1c43f87386698a3a0c883962fb092b18d3int, 0, pallas_modulus());
    let e: nat = 4 * e + 0;
    assert(quad(0x3a7083b43ac2cd5ac71b7407312bbaca72ba529cdaec6e2e77913c9d7db85044int, 5, 0, pallas_modulus()) == 0x2b503d5960c9827a01254e18b52e7da442fcd619cb6f151b623acc5c12d0ef52int) by (nonlinear_arith);
    lemma_quad(5, e, 0x3a7083b43ac2cd5ac71b7407312bbaca72ba529cdaec6e2e77913c9d7db85044int, 0, pallas_modulus());
    let e: nat = 4 * e + 0;
    assert(quad(0x2b503d5960c9827a01254e18b52e7da442fcd619cb6f151b623acc5c12d0ef52int, 5, 0, pallas_modulus()) == 0x3583df5d1d4d768c06977ad8ef6372d45a8e321e105f1cb49f6550e648dd55b5int) by (nonlinear_arith);
    lemma_quad(5, e, 0x2b503d5960c9827a01254e18b52e7da442fcd619cb6f151b623acc5c12d0ef52int, 0, pallas_modulus());
    let e: nat = 4 * e + 0;
    assert(quad(0x3583df5d1d4d768c06977ad8ef6372d45a8e321e105f1cb49f6550e648dd55b5int, 5, 0, pallas_modulus()) == 0x385975b2d2766fe3c987eefd052fff39b6506069caa786c471a24a964f852064int) by (nonlinear_arith);
    lemma_quad(5, e, 0x3583df5d1d4d768c06977ad8ef6372d45a8e321e105f1cb49f6550e648dd55b5int, 0, pallas_modulus());
    let e: nat = 4 * e + 0;
    assert(quad(0x385975b2d2766fe3c987eefd052fff39b6506069caa786c471a24a964f852064int, 5, 0, pallas_modulus()) == 0x1ca7f58c2e429f95dc292597300e5f3634030d40851096932bb23ff8f3af7b89int) by (nonlinear_arith);
    lemma_quad(5, e, 0x385975b2d2766fe3c987eefd052fff39b6506069caa786c471a24a964f852064int, 0, pallas_modulus());
    let e: nat = 4 * e + 0;
    assert(quad(0x1ca7f58c2e429f95dc292597300e5f3634030d40851096932bb23ff8f3af7b89int, 5, 0, pallas_modulus()) == 0x287be2cbb8e10826b288f40e12ce44c4adcd88d69c61e62362ec05bbdde55061int) by (nonlinear_arith);
    lemma_quad(5, e, 0x1ca7f58c2e429f95dc292597300e5f3634030d40851096932bb23ff8f3af7b89int, 0, pallas_modulus());
    let e: nat = 4 * e + 0;
    assert(quad(0x287be2cbb8e10826b288f40e12ce44c4adcd88d69c61e62362ec05bbdde55061int, 5, 0, pallas_modulus()) == 0x178a3d5e6a0d6d83c1a5501e08ddf81ee36fa7882979de1ebcce3d2607b3d1bbint) by (nonlinear_arith);
    lemma_quad(5, e, 0x287be2cbb8e10826b288f40e12ce44c4adcd88d69c61e62362ec05bbdde55061int, 0, pallas_modulus());
    let e: nat = 4 * e + 0;
    assert(quad(0x178a3d5e6a0d6d83c1a5501e08ddf81ee36fa7882979de1ebcce3d2607b3d1bbint, 5, 0, pallas_modulus()) == 0x31a786e9a5d3c0319bf5ec736fc5022c340886597d291b3be696792e72398137int) by (nonlinear_arith);
    lemma_quad(5, e, 0x178a3d5e6a0d6d83c1a5501e08ddf81ee36fa7882979de1ebcce3d2607b3d1bbint, 0, pallas_modulus());
    let e: nat = 4 * e + 0;
    assert(quad(0x31a786e9a5d3c0319bf5ec736fc5022c340886597d291b3be696792e72398137int, 5, 0, pallas_modulus()) == 0x20819f7c4453332a10eb867d543fa3749f43c362141775980cd5a3baee5e7e8eint) by (nonlinear_arith);
    lemma_quad(5, e, 0x31a786e9a5d3c0319bf5ec736fc5022c340886597d291b3be696792e72398137int, 0, pallas_modulus());
    let e: nat = 4 * e + 0;
    assert(e == 0x4000000000000000000000000000int);
}

proof fn lemma_pallas_root_c()
    ensures
        pow(5, 0x40000000000000000000000000000000224698fc09nat) % pallas_modulus() == 0x3611658e1423d6313120c236a5aa73ddc711d5db0f2b27507f4424b75ccff3bint,
{
    lemma_pallas_root_b();
    let e: nat = 0x4000000000000000000000000000nat;
    assert(quad(0x20819f7c4453332a10eb867d543fa3749f43c362141775980cd5a3baee5e7e8eint, 5, 0, pallas_modulus()) == 0x3d6cecabf5f455633c4c9c28d2b551063a0cf5df7b4199ec4e3080feadb34f95int) by (nonlinear_arith);
    lemma_quad(5, e, 0x20819f7c4453332a10eb867d543fa3749f43c362141775980cd5a3baee5e7e8eint, 0, pallas_modulus());
    let e: nat = 4 * e + 0;
    assert(quad(0x3d6cecabf5f455633c4c9c28d2b551063a0cf5df7b4199ec4e3080feadb34f95int, 5, 0, pallas_modulus()) == 0x14ed2380b6c70a4ad37580898e0f042d6e84c18a2b46eeb7fe079072ca01f51eint) by (nonlinear_arith);
    lemma_quad(5, e, 0x3d6cecabf5f455633c4c9c28d2b551063a0cf5df7b4199ec4e3080feadb34f95int, 0, pallas_modulus());
    let e: nat = 4 * e + 0;
    assert(quad(0x14ed2380b6c70a4ad37580898e0f042d6e84c18a2b46eeb7fe079072ca01f51eint, 5, 0, pallas_modulus()) == 0x152cf9a10c9d500b08bdb304f8570eefa45b974a5758070dc5e9cd7ce5ac2726int) by (nonlinear_arith);
    lemma_quad(5, e, 0x14ed2380b6c70a4ad37580898e0f042d6e84c18a2b46eeb7fe079072ca01f51eint, 0, pallas_modulus());
    let e: nat = 4 * e + 0;
    assert(quad(0x152cf9a10c9d500b08bdb304f8570eefa45b974a5758070dc5e9cd7ce5ac2726int, 5, 0, pallas_modulus()) == 0x291320696bdf785b9980d1c5c17119902f7f80060cd38b6ae99b32a6cd5fab65int) by (nonlinear_arith);
    lemma_quad(5, e, 0x152cf9a10c9d500b08bdb304f8570eefa45b974a5758070dc5e9cd7ce5ac2726int, 0, pallas_modulus());
    let e: nat = 4 * e + 0;
    assert(quad(0x291320696bdf785b9980d1c5c17119902f7f80060cd38b6ae99b32a6cd5fab65int, 5, 0, pallas_modulus()) == 0xcd1dbe09ecb658d45d589335f9659bb1f862aaa22cc087f8c897bce95054db4int) by (nonlinear_arith);
    lemma_quad(5, e, 0x291320696bdf785b9980d1c5c17119902f7f80060cd38b6ae99b32a6cd5fab65int, 0, pallas_modulus());
    let e: nat = 4 * e + 0;
    assert(quad(0xcd1dbe09ecb658d45d589335f9659bb1f862aaa22cc087f8c897bce95054db4int, 5, 0, pallas_modulus()) == 0x31e9fda06a2395aeebfe12f83752f120eed3a4eb305f082aa5ee132211985ca7int) by (nonlinear_arith);
    lemma_quad(5, e, 0xcd1dbe09ecb658d45d589335f9659bb1f862aaa22cc087f8c897bce95054db4int, 0, pallas_modulus());
    let e: nat = 4 * e + 0;
    assert(quad(0x31e9fda06a2395aeebfe12f83752f120eed3a4eb305f082aa5ee132211985ca7int, 5, 0, pallas_modulus()) == 0x1556c286c7d6cba44b73936491d7914c34378d69ac7ead6a66b5c91b8a0fa99int) by (nonlinear_arith);
    lemma_quad(5, e, 0x31e9fda06a2395aeebfe12f83752f120eed3a4eb305f082aa5ee132211985ca7int, 0, pallas_modulus());
    let e: nat = 4 * e + 0;
    assert(quad(0x1556c286c7d6cba44b73936491d7914c34378d69ac7ead6a66b5c91b8a0fa99int, 5, 0, pallas_modulus()) == 0x27900155e101bb8d4b0c0f9935ed4732724b77e27d33d4036b91b243bfa5981int) by (nonlinear_arith);
    lemma_quad(5, e, 0x1556c286c7d6cba44b73936491d7914c34378d69ac7ead6a66b5c91b8a0fa99int, 0, pallas_modulus());
    let e: nat = 4 * e + 0;
    assert(quad(0x27900155e101bb8d4b0c0f9935ed4732724b77e27d33d4036b91b243bfa5981int, 5, 0, pallas_modulus()) == 0x224930dd7feb502a44d02b43b70715df1eb89ca1b8917edc4afc9596724bdbbdint) by (nonlinear_arith);
    lemma_quad(5, e, 0x27900155e101bb8d4b0c0f9935ed4732724b77e27d33d4036b91b243bfa5981int, 0, pallas_modulus());
    let e: nat = 4 * e + 0;
    assert(quad(0x224930dd7feb502a44d02b43b70715df1eb89ca1b8917edc4afc9596724bdbbdint, 5, 2, pallas_modulus()) == 0x393a2b79a4f0a51749080378607e864aa05c269e95b6b6812e705d4481365883int) by (nonlinear_arith);
    lemma_quad(5, e, 0x224930dd7feb502a44d02b43b70715df1eb89ca1b8917edc4afc9596724bdbbdint, 2, pallas_modulus());
    let e: nat = 4 * e + 2;
    assert(quad(0x393a2b79a4f0a51749080378607e864aa05c269e95b6b6812e705d4481365883int, 5, 0, pallas_modulus()) == 0x578b64ee3ab9829db93bf737e7f7689f5063d28ccaf81db5b5f87dacb31c01dint) by (nonlinear_arith);
    lemma_quad(5, e, 0x393a2b79a4f0a51749080378607e864aa05c269e95b6b6812e705d4481365883int, 0, pallas_modulus());
    let e: nat = 4 * e + 0;
    assert(quad(0x578b64ee3ab9829db93bf737e7f7689f5063d28ccaf81db5b5f87dacb31c01dint, 5, 2, pallas_modulus()) == 0x12f983f22b2c072f2042b78defd5a134d73463c125e604f7155a197165cbfd4dint) by (nonlinear_arith);
    lemma_quad(5, e, 0x578b64ee3ab9829db93bf737e7f7689f5063d28ccaf81db5b5f87dacb31c01dint, 2, pallas_modulus());
    let e: nat = 4 * e + 2;
    assert(quad(0x12f983f22b2c072f2042b78defd5a134d73463c125e604f7155a197165cbfd4dint, 5, 1, pallas_modulus()) == 0xf5e60357dd3b3092eb06237104ce880ec75b3629a45458440ee3a824e7485a2int) by (nonlinear_arith);
    lemma_quad(5, e, 0x12f983f22b2c072f2042b78defd5a134d73463c125e604f7155a197165cbfd4dint, 1, pallas_modulus());
    let e: nat = 4 * e + 1;
    assert(quad(0xf5e60357dd3b3092eb06237104ce880ec75b3629a45458440ee3a824e7485a2int, 5, 0, pallas_modulus()) == 0x1f1ff3def2a55f638350e309fa36bc0f34217d80e964fd9661f2c71c8b252aa4int) by (nonlinear_arith);
    lemma_quad(5, e, 0xf5e60357dd3b3092eb06237104ce880ec75b3629a45458440ee3a824e7485a2int, 0, pallas_modulus());
    let e: nat = 4 * e + 0;
    assert(quad(0x1f1ff3def2a55f638350e309fa36bc0f34217d80e964fd9661f2c71c8b252aa4int, 5, 1, pallas_modulus()) == 0x1097c2d6aa2ba73b1abf152b2cb6e7864eca22a6e49c524d9b715982d70ed4b2int) by (nonlinear_arith);
    lemma_quad(5, e, 0x1f1ff3def2a55f638350e309fa36bc0f34217d80e964fd9661f2c71c8b252aa4int, 1, pallas_modulus());
    let e: nat = 4 * e + 1;
    assert(quad(0x1097c2d6aa2ba73b1abf152b2cb6e7864eca22a6e49c524d9b715982d70ed4b2int, 5, 2, pallas_modulus()) == 0x39b51bd1dbe33b160d33e72db2d6b8cc44b97d03fbd086193ba0f43d9e9c1b84int) by (nonlinear_arith);
    lemma_quad(5, e, 0x1097c2d6aa2ba73b1abf152b2cb6e7864eca22a6e49c524d9b715982d70ed4b2int, 2, pallas_modulus());
    let e: nat = 4 * e + 2;
    assert(quad(0x39b51bd1dbe33b160d33e72db2d6b8cc44b97d03fbd086193ba0f43d9e9c1b84int, 5, 2, pallas_modulus()) == 0x36ef0d2ba001c046d1f6d8fd95689b63cbb20d72b6cac0a3d4dae5fdff1b40edint) by (nonlinear_arith);
    lemma_quad(5, e, 0x39b51bd1dbe33b160d33e72db2d6b8cc44b97d03fbd086193ba0f43d9e9c1b84int, 2, pallas_modulus());
    let e: nat = 4 * e + 2;
    assert(quad(0x36ef0d2ba001c046d1f6d8fd95689b63cbb20d72b6cac0a3d4dae5fdff1b40edint, 5, 1, pallas_modulus()) == 0x1c937ed3b7c4f5824321c3d7ca088242dc987ae3e5c6578e1b506f5039c9ad83int) by (nonlinear_arith);
    lemma_quad(5, e, 0x36ef0d2ba001c046d1f6d8fd95689b63cbb20d72b6cac0a3d4dae5fdff1b40edint, 1, pallas_modulus());
    let e: nat = 4 * e + 1;
    assert(quad(0x1c937ed3b7c4f5824321c3d7ca088242dc987ae3e5c6578e1b506f5039c9ad83int, 5, 2, pallas_modulus()) == 0x38119b7cda5c42141ca4e0981dc92f0064962b2ac14c139a047953ad43ccb468int) by (nonlinear_arith);
    lemma_quad(5, e, 0x1c937ed3b7c4f5824321c3d7ca088242dc987ae3e5c6578e1b506f5039c9ad83int, 2, pallas_modulus());
    let e: nat = 4 * e + 2;
    assert(quad(0x38119b7cda5c42141ca4e0981dc92f0064962b2ac14c139a047953ad43ccb468int, 5, 0, pallas_modulus()) == 0x328adf264c35fec4fff6b500b7568231416f5d16ca157b3ef06e3f118bb9875fint) by (nonlinear_arith);
    lemma_quad(5, e, 0x38119b7cda5c42141ca4e0981dc92f0064962b2ac14c139a047953ad43ccb468int, 0, pallas_modulus());
    let e: nat = 4 * e + 0;
    assert(quad(0x328adf264c35fec4fff6b500b7568231416f5d16ca157b3ef06e3f118bb9875fint, 5, 3, pallas_modulus()) == 0xc130d29c30211fe5fcb87022056f2e9287b33ffb3c39587f831c284a2fe160int) by (nonlinear_arith);
    lemma_quad(5, e, 0x328adf264c35fec4fff6b500b7568231416f5d16ca157b3ef06e3f118bb9875fint, 3, pallas_modulus());
    let e: nat = 4 * e + 3;
    assert(quad(0xc130d29c30211fe5fcb87022056f2e9287b33ffb3c39587f831c284a2fe160int, 5, 3, pallas_modulus()) == 0x32daa2fe23590641ac965cb7e78415257ad9c0522aa5f3b4d83d9f6d06352410int) by (nonlinear_arith);
    lemma_quad(5, e, 0xc130d29c30211fe5fcb87022056f2e9287b33ffb3c39587f831c284a2fe160int, 3, pallas_modulus());
    let e: nat = 4 * e + 3;
    assert(quad(0x32daa2fe23590641ac965cb7e78415257ad9c0522aa5f3b4d83d9f6d06352410int, 5, 3, pallas_modulus()) == 0x3d2a8600912a9985eb08c1b7c3d273de6f79b2521c3f6c8a73c821d84967ffdint) by (nonlinear_arith);
    lemma_quad(5, e, 0x32daa2fe23590641ac965cb7e78415257ad9c0522aa5f3b4d83d9f6d06352410int, 3, pallas_modulus());
    let e: nat = 4 * e + 3;
    assert(quad(0x3d2a8600912a9985eb08c1b7c3d273de6f79b2521c3f6c8a73c821d84967ffdint, 5, 0, pallas_modulus()) == 0x201ea1762d8edae16708a92226327af7280ddb55eb3ff93ef11445ad3252c04bint) by (nonlinear_arith);
    lemma_quad(5, e, 0x3d2a8600912a9985eb08c1b7c3d273de6f79b2521c3f6c8a73c821d84967ffdint, 0, pallas_modulus());
    let e: nat = 4 * e + 0;
    assert(quad(0x201ea1762d8edae16708a92226327af7280ddb55eb3ff93ef11445ad3252c04bint, 5, 0, pallas_modulus()) == 0x3e9e910b24104614c64eb9547df55652f12c9c4c678420bf28c89486b6184421int) by (nonlinear_arith);
    lemma_quad(5, e, 0x201ea1762d8edae16708a92226327af7280ddb55eb3ff93ef11445ad3252c04bint, 0, pallas_modulus());
    let e: nat = 4 * e + 0;
    assert(quad(0x3e9e910b24104614c64eb9547df55652f12c9c4c678420bf28c89486b6184421int, 5, 0, pallas_modulus()) == 0x3a8f05dbe8735ed2bbf454dc0450affb6b0a9ca576aca11efeb5b68aa0873c46int) by (nonlinear_arith);
    lemma_quad(5, e, 0x3e9e910b24104614c64eb9547df55652f12c9c4c678420bf28c89486b6184421int, 0, pallas_modulus());
    let e: nat = 4 * e + 0;
    assert(quad(0x3a8f05dbe8735ed2bbf454dc0450affb6b0a9ca576aca11efeb5b68aa0873c46int, 5, 2, pallas_modulus()) == 0x16e63f49bfc091475b98d2e17603c57e62e45dbb4b83d63a1b28c03a61824631int) by (nonlinear_arith);
    lemma_quad(5, e, 0x3a8f05dbe8735ed2bbf454dc0450affb6b0a9ca576aca11efeb5b68aa0873c46int, 2, pallas_modulus());
    let e: nat = 4 * e + 2;
    assert(quad(0x16e63f49bfc091475b98d2e17603c57e62e45dbb4b83d63a1b28c03a61824631int, 5, 1, pallas_modulus()) == 0x3611658e1423d6313120c236a5aa73ddc711d5db0f2b27507f4424b75ccff3bint) by (nonlinear_arith);
    lemma_quad(5, e, 0x16e63f49bfc091475b98d2e17603c57e62e45dbb4b83d63a1b28c03a61824631int, 1, pallas_modulus());
    let e: nat = 4 * e + 1;
    assert(e == 0x40000000000000000000000000000000224698fc09int);
}

proof fn lemma_pallas_root_d()
    ensures
        pow(5, 0x40000000000000000000000000000000224698fc094cf91b992d30ednat) % pallas_modulus() == 0x2bce74deac30ebda362120830561f81aea322bf2b7bb7584bdad6fabd87ea32fint,
{
    lemma_pallas_root_c();
    let e: nat = 0x40000000000000000000000000000000224698fc09nat;
    assert(quad(0x3611658e1423d6313120c236a5aa73ddc711d5db0f2b27507f4424b75ccff3bint, 5, 1, pallas_modulus()) == 0x2df8add90435d1429744c59ef43940809b373e4431cae6f9f609d6b832f08be7int) by (nonlinear_arith);
    lemma_quad(5, e, 0x3611658e1423d6313120c236a5aa73ddc711d5db0f2b27507f4424b75ccff3bint, 1, pallas_modulus());
    let e: nat = 4 * e + 1;
    assert(quad(0x2df8add90435d1429744c59ef43940809b373e4431cae6f9f609d6b832f08be7int, 5, 0, pallas_modulus()) == 0x14798cacdf86cd37d7b08536552deec8989a7bedac972f1fbfcde58c1c2b8df7int) by (nonlinear_arith);
    lemma_quad(5, e, 0x2df8add90435d1429744c59ef43940809b373e4431cae6f9f609d6b832f08be7int, 0, pallas_modulus());
    let e: nat = 4 * e + 0;
    assert(quad(0x14798cacdf86cd37d7b08536552deec8989a7bedac972f1fbfcde58c1c2b8df7int, 5, 3, pallas_modulus()) == 0x2550e3b3c7a7e87f75cf516d19be110b1d61fe24b57688ae3620ed66bf731a4eint) by (nonlinear_arith);
    lemma_quad(5, e, 0x14798cacdf86cd37d7b08536552deec8989a7bedac972f1fbfcde58c1c2b8df7int, 3, pallas_modulus());
    let e: nat = 4 * e + 3;
    assert(quad(0x2550e3b3c7a7e87f75cf516d19be110b1d61fe24b57688ae3620ed66bf731a4eint, 5, 0, pallas_modulus()) == 0x1e03391e8ab6cf1e086850b6dcaffcec00d3c8cee2baa90c1574c31faa3d1ecaint) by (nonlinear_arith);
    lemma_quad(5, e, 0x2550e3b3c7a7e87f75cf516d19be110b1d61fe24b57688ae3620ed66bf731a4eint, 0, pallas_modulus());
    let e: nat = 4 * e + 0;
    assert(quad(0x1e03391e8ab6cf1e086850b6dcaffcec00d3c8cee2baa90c1574c31faa3d1ecaint, 5, 3, pallas_modulus()) == 0x1952e8f237eaf23da9b29d562fb0994c9b6a076db9d436bd6cc54b12e210296cint) by (nonlinear_arith);
    lemma_quad(5, e, 0x1e03391e8ab6cf1e086850b6dcaffcec00d3c8cee2baa90c1574c31faa3d1ecaint, 3, pallas_modulus());
    let e: nat = 4 * e + 3;
    assert(quad(0x1952e8f237eaf23da9b29d562fb0994c9b6a076db9d436bd6cc54b12e210296cint, 5, 3, pallas_modulus()) == 0x3a2a408472149e13101b3e7056a9197849490bf000ae2ad7ac24afcbd0d63d26int) by (nonlinear_arith);
    lemma_quad(5, e, 0x1952e8f237eaf23da9b29d562fb0994c9b6a076db9d436bd6cc54b12e210296cint, 3, pallas_modulus());
    let e: nat = 4 * e + 3;
    assert(quad(0x3a2a408472149e13101b3e7056a9197849490bf000ae2ad7ac24afcbd0d63d26int, 5, 2, pallas_modulus()) == 0x45d720147de1d6c646646d99ef8c15b47cb96073df0a1de2729694333e3a21eint) by (nonlinear_arith);
    lemma_quad(5, e, 0x3a2a408472149e13101b3e7056a9197849490bf000ae2ad7ac24afcbd0d63d26int, 2, pallas_modulus());
    let e: nat = 4 * e + 2;
    assert(quad(0x45d720147de1d6c646646d99ef8c15b47cb96073df0a1de2729694333e3a21eint, 5, 1, pallas_modulus()) == 0x783e51ab42832989c63b671474f4ee59760313467d53e61f8e4c2d583fcac4cint) by (nonlinear_arith);
    lemma_quad(5, e, 0x45d720147de1d6c646646d99ef8c15b47cb96073df0a1de2729694333e3a21eint, 1, pallas_modulus());
    let e: nat = 4 * e + 1;
    assert(quad(0x783e51ab42832989c63b671474f4ee59760313467d53e61f8e4c2d583fcac4cint, 5, 0, pallas_modulus()) == 0x188a26fb75452643e44a617c49d6c09f7e1a1e393c583e1e453e84d635b81dafint) by (nonlinear_arith);
    lemma_quad(5, e, 0x783e51ab42832989c63b671474f4ee59760313467d53e61f8e4c2d583fcac4cint, 0, pallas_modulus());
    let e: nat = 4 * e + 0;
    assert(quad(0x188a26fb75452643e44a617c49d6c09f7e1a1e393c583e1e453e84d635b81dafint, 5, 1, pallas_modulus()) == 0x2a6ffc473a42940f919c127a055d31b69cc153abd8a43b937c7f2da93189beecint) by (nonlinear_arith);
    lemma_quad(5, e, 0x188a26fb75452643e44a617c49d6c09f7e1a1e393c583e1e453e84d635b81dafint, 1, pallas_modulus());
    let e: nat = 4 * e + 1;
    assert(quad(0x2a6ffc473a42940f919c127a055d31b69cc153abd8a43b937c7f2da93189beecint, 5, 2, pallas_modulus()) == 0x35576d7675b74ea45ae0bf8a0c130e9ce7bdb8e846f2ff373fc9b9b93e3c3cc7int) by (nonlinear_arith);
    lemma_quad(5, e, 0x2a6ffc473a42940f919c127a055d31b69cc153abd8a43b937c7f2da93189beecint, 2, pallas_modulus());
    let e: nat = 4 * e + 2;
    assert(quad(0x35576d7675b74ea45ae0bf8a0c130e9ce7bdb8e846f2ff373fc9b9b93e3c3cc7int, 5, 3, pallas_modulus()) == 0x8a571745f7fdbb951b89e10cdd48467fce839b8f8819cf4ea867dc56ba33ff8int) by (nonlinear_arith);
    lemma_quad(5, e, 0x35576d7675b74ea45ae0bf8a0c130e9ce7bdb8e846f2ff373fc9b9b93e3c3cc7int, 3, pallas_modulus());
    let e: nat = 4 * e + 3;
    assert(quad(0x8a571745f7fdbb951b89e10cdd48467fce839b8f8819cf4ea867dc56ba33ff8int, 5, 2, pallas_modulus()) == 0x1a404f09697c7a2abc514fecd24a352249e2a2a902c03743ecfa40e418cccf63int) by (nonlinear_arith);
    lemma_quad(5, e, 0x8a571745f7fdbb951b89e10cdd48467fce839b8f8819cf4ea867dc56ba33ff8int, 2, pallas_modulus());
    let e: nat = 4 * e + 2;
    assert(quad(0x1a404f09697c7a2abc514fecd24a352249e2a2a902c03743ecfa40e418cccf63int, 5, 1, pallas_modulus()) == 0x19034c306c2bff3ab8b692e4f2c44a11a38757d1360e283173a656b904e34e79int) by (nonlinear_arith);
    lemma_quad(5, e, 0x1a404f09697c7a2abc514fecd24a352249e2a2a902c03743ecfa40e418cccf63int, 1, pallas_modulus());
    let e: nat = 4 * e + 1;
    assert(quad(0x19034c306c2bff3ab8b692e4f2c44a11a38757d1360e283173a656b904e34e79int, 5, 2, pallas_modulus()) == 0x2ed114b213d0583be6b3a02930c60f4fb36098ebac090628976141482fc200d1int) by (nonlinear_arith);
    lemma_quad(5, e, 0x19034c306c2bff3ab8b692e4f2c44a11a38757d1360e283173a656b904e34e79int, 2, pallas_modulus());
    let e: nat = 4 * e + 2;
    assert(quad(0x2ed114b213d0583be6b3a02930c60f4fb36098ebac090628976141482fc200d1int, 5, 1, pallas_modulus()) == 0x2c9c42d0efe8daa774f2629aa2458567f4cc5fa0438b39ec4e2e7aaca6dab6d0int) by (nonlinear_arith);
    lemma_quad(5, e, 0x2ed114b213d0583be6b3a02930c60f4fb36098ebac090628976141482fc200d1int, 1, pallas_modulus());
    let e: nat = 4 * e + 1;
    assert(quad(0x2c9c42d0efe8daa774f2629aa2458567f4cc5fa0438b39ec4e2e7aaca6dab6d0int, 5, 0, pallas_modulus()) == 0x33156f3bfc8ecf8bdbf09cec5648de2ae757e97f341884c33d415a51f91cc7b0int) by (nonlinear_arith);
    lemma_quad(5, e, 0x2c9c42d0efe8daa774f2629aa2458567f4cc5fa0438b39ec4e2e7aaca6dab6d0int, 0, pallas_modulus());
    let e: nat = 4 * e + 0;
    assert(quad(0x33156f3bfc8ecf8bdbf09cec5648de2ae757e97f341884c33d415a51f91cc7b0int, 5, 2, pallas_modulus()) == 0x2119b37153dc85703197d1f37acd0990b3905c72e8677989bf05c8db5442bd68int) by (nonlinear_arith);
    lemma_quad(5, e, 0x33156f3bfc8ecf8bdbf09cec5648de2ae757e97f341884c33d415a51f91cc7b0int, 2, pallas_modulus());
    let e: nat = 4 * e + 2;
    assert(quad(0x2119b37153dc85703197d1f37acd0990b3905c72e8677989bf05c8db5442bd68int, 5, 3, pallas_modulus()) == 0x3e07efbe7b2c6288ff90325383708f3c15021244b891d90db6f3abe46138d64fint) by (nonlinear_arith);
    lemma_quad(5, e, 0x2119b37153dc85703197d1f37acd0990b3905c72e8677989bf05c8db5442bd68int, 3, pallas_modulus());
    let e: nat = 4 * e + 3;
    assert(quad(0x3e07efbe7b2c6288ff90325383708f3c15021244b891d90db6f3abe46138d64fint, 5, 1, pallas_modulus()) == 0x188e2ff48352ab776d7fb978c2097725816d89cce80993b157501427f088b902int) by (nonlinear_arith);
    lemma_quad(5, e, 0x3e07efbe7b2c6288ff90325383708f3c15021244b891d90db6f3abe46138d64fint, 1, pallas_modulus());
    let e: nat = 4 * e + 1;
    assert(quad(0x188e2ff48352ab776d7fb978c2097725816d89cce80993b157501427f088b902int, 5, 0, pallas_modulus()) == 0x2f0574e862cef9aade6f12f33d88d098ee52660c0a1c1bf6aa4fb2643acbb26bint) by (nonlinear_arith);
    lemma_quad(5, e, 0x188e2ff48352ab776d7fb978c2097725816d89cce80993b157501427f088b902int, 0, pallas_modulus());
    let e: nat = 4 * e + 0;
    assert(quad(0x2f0574e862cef9aade6f12f33d88d098ee52660c0a1c1bf6aa4fb2643acbb26bint, 5, 3, pallas_modulus()) == 0x1a9e4ee86d892c2eec990b44daf1824185d9372c745c31b50b176cbeb30485e6int) by (nonlinear_arith);
    lemma_quad(5, e, 0x2f0574e862cef9aade6f12f33d88d098ee52660c0a1c1bf6aa4fb2643acbb26bint, 3, pallas_modulus());
    let e: nat = 4 * e + 3;
    assert(quad(0x1a9e4ee86d892c2eec990b44daf1824185d9372c745c31b50b176cbeb30485e6int, 5, 0, pallas_modulus()) == 0x37107dfa22088dccaf247d6387dc4ce638fd9eb4b7330b51a642dd3a92376934int) by (nonlinear_arith);
    lemma_quad(5, e, 0x1a9e4ee86d892c2eec990b44daf1824185d9372c745c31b50b176cbeb30485e6int, 0, pallas_modulus());
    let e: nat = 4 * e + 0;
    assert(quad(0x37107dfa22088dccaf247d6387dc4ce638fd9eb4b7330b51a642dd3a92376934int, 5, 0, pallas_modulus()) == 0x11cc48a1c2bfa415b06d512ab8b0a6508b10b533e6a9a68580fb6ef6712c35e0int) by (nonlinear_arith);
    lemma_quad(5, e, 0x37107dfa22088dccaf247d6387dc4ce638fd9eb4b7330b51a642dd3a92376934int, 0, pallas_modulus());
    let e: nat = 4 * e + 0;
    assert(quad(0x11cc48a1c2bfa415b06d512ab8b0a6508b10b533e6a9a68580fb6ef6712c35e0int, 5, 3, pallas_modulus()) == 0x3bae750e1084e96516590f696f21ca589ac519417ed99c884661b7c87ec88f0aint) by (nonlinear_arith);
    lemma_quad(5, e, 0x11cc48a1c2bfa415b06d512ab8b0a6508b10b533e6a9a68580fb6ef6712c35e0int, 3, pallas_modulus());
    let e: nat = 4 * e + 3;
    assert(quad(0x3bae750e1084e96516590f696f21ca589ac519417ed99c884661b7c87ec88f0aint, 5, 2, pallas_modulus()) == 0x37ec1137d77a7378fb3ea896e70340c58e8d5b91531b088da06010ac998fff7dint) by (nonlinear_arith);
    lemma_quad(5, e, 0x3bae750e1084e96516590f696f21ca589ac519417ed99c884661b7c87ec88f0aint, 2, pallas_modulus());
    let e: nat = 4 * e + 2;
    assert(quad(0x37ec1137d77a7378fb3ea896e70340c58e8d5b91531b088da06010ac998fff7dint, 5, 3, pallas_modulus()) == 0x272713b1fac9c4e26ec7848da8a54c2622fdb07e203e411b258b8292c8b02022int) by (nonlinear_arith);
    lemma_quad(5, e, 0x37ec1137d77a7378fb3ea896e70340c58e8d5b91531b088da06010ac998fff7dint, 3, pallas_modulus());
    let e: nat = 4 * e + 3;
    assert(quad(0x272713b1fac9c4e26ec7848da8a54c2622fdb07e203e411b258b8292c8b02022int, 5, 1, pallas_modulus()) == 0x2bce74deac30ebda362120830561f81aea322bf2b7bb7584bdad6fabd87ea32fint) by (nonlinear_arith);
    lemma_quad(5, e, 0x272713b1fac9c4e26ec7848da8a54c2622fdb07e203e411b258b8292c8b02022int, 1, pallas_modulus());
    let e: nat = 4 * e + 1;
    assert(e == 0x40000000000000000000000000000000224698fc094cf91b992d30edint);
}

/// The power of the root to two to the 31 is minus one.
proof fn lemma_pallas_root_order()
    ensures
        pow(0x2bce74deac30ebda362120830561f81aea322bf2b7bb7584bdad6fabd87ea32fint, 0x8000_0000) % pallas_modulus() == pallas_modulus() - 1,
{
    let a: int = 0x2bce74deac30ebda362120830561f81aea322bf2b7bb7584bdad6fabd87ea32fint;
    lemma_pow1(a);
    lemma_small_mod(0x2bce74deac30ebda362120830561f81aea322bf2b7bb7584bdad6fabd87ea32fnat, pallas_modulus() as nat);
    let e: nat = 1;
    assert(quad(0x2bce74deac30ebda362120830561f81aea322bf2b7bb7584bdad6fabd87ea32fint, 0x2bce74deac30ebda362120830561f81aea322bf2b7bb7584bdad6fabd87ea32fint, 0, pallas_modulus()) == 0x2e99e0eeba6afb04d748bb4c8f7746167a3163883882dd3401793e65f9e09bbdint) by (nonlinear_arith);
    lemma_quad(a, e, 0x2bce74deac30ebda362120830561f81aea322bf2b7bb7584bdad6fabd87ea32fint, 0, pallas_modulus());
    let e: nat = 4 * e;
    assert(quad(0x2e99e0eeba6afb04d748bb4c8f7746167a3163883882dd3401793e65f9e09bbdint, 0x2bce74deac30ebda362120830561f81aea322bf2b7bb7584bdad6fabd87ea32fint, 0, pallas_modulus()) == 0x88ef444b9a63e67dce3f521ea318e20d55a3e3fa4f0d2de615bd0d717c62c05int) by (nonlinear_arith);
    lemma_quad(a, e, 0x2e99e0eeba6afb04d748bb4c8f7746167a3163883882dd3401793e65f9e09bbdint, 0, pallas_modulus());
    let e: nat = 4 * e;
    assert(quad(0x88ef444b9a63e67dce3f521ea318e20d55a3e3fa4f0d2de615bd0d717c62c05int, 0x2bce74deac30ebda362120830561f81aea322bf2b7bb7584bdad6fabd87ea32fint, 0, pallas_modulus()) == 0x2b32b23c415d3e576c4d05c1b1d89d9ba57789d36d6a6e3726a28916f7e648e1int) by (nonlinear_arith);
    lemma_quad(a, e, 0x88ef444b9a63e67dce3f521ea318e20d55a3e3fa4f0d2de615bd0d717c62c05int, 0, pallas_modulus());
    let e: nat = 4 * e;
    assert(quad(0x2b32b23c415d3e576c4d05c1b1d89d9ba57789d36d6a6e3726a28916f7e648e1int, 0x2bce74deac30ebda362120830561f81aea322bf2b7bb7584bdad6fabd87ea32fint, 0, pallas_modulus()) == 0x31951d72cbf5ee0d78d9867098e13b79fb81505e6db526ce5190e23731a54569int) by (nonlinear_arith);
    lemma_quad(a, e, 0x2b32b23c415d3e576c4d05c1b1d89d9ba57789d36d6a6e3726a28916f7e648e1int, 0, pallas_modulus());
    let e: nat = 4 * e;
    assert(quad(0x31951d72cbf5ee0d78d9867098e13b79fb81505e6db526ce5190e23731a54569int, 0x2bce74deac30ebda362120830561f81aea322bf2b7bb7584bdad6fabd87ea32fint, 0, pallas_modulus()) == 0xd8c20d3f81693b34d98347484bde7a92c9244a2a37a6ded9bfb7e07b75cb10cint) by (nonlinear_arith);
    lemma_quad(a, e, 0x31951d72cbf5ee0d78d9867098e13b79fb81505e6db526ce5190e23731a54569int, 0, pallas_modulus());
    let e: nat = 4 * e;
    assert(quad(0xd8c20d3f81693b34d98347484bde7a92c9244a2a37a6ded9bfb7e07b75cb10cint, 0x2bce74deac30ebda362120830561f81aea322bf2b7bb7584bdad6fabd87ea32fint, 0, pallas_modulus()) == 0x3a4a077c9c0654e7e98d9f1c0b146bf64171285db283f84b463f4019b18ed31bint) by (nonlinear_arith);
    lemma_quad(a, e, 0xd8c20d3f81693b34d98347484bde7a92c9244a2a37a6ded9bfb7e07b75cb10cint, 0, pallas_modulus());
    let e: nat = 4 * e;
    assert(quad(0x3a4a077c9c0654e7e98d9f1c0b146bf64171285db283f84b463f4019b18ed31bint, 0x2bce74deac30ebda362120830561f81aea322bf2b7bb7584bdad6fabd87ea32fint, 0, pallas_modulus()) == 0x14078ea8cdee85a0950d9a272227e4f52c624e853d02ad879ec22f8bf80662c4int) by (nonlinear_arith);
    lemma_quad(a, e, 0x3a4a077c9c0654e7e98d9f1c0b146bf64171285db283f84b463f4019b18ed31bint, 0, pallas_modulus());
    let e: nat = 4 * e;
    assert(quad(0x14078ea8cdee85a0950d9a272227e4f52c624e853d02ad879ec22f8bf80662c4int, 0x2bce74deac30ebda362120830561f81aea322bf2b7bb7584bdad6fabd87ea32fint, 0, pallas_modulus()) == 0x23222d06029d21a655392ad9dda387278c1c46359289a4d3d465aafc06d1cf1aint) by (nonlinear_arith);
    lemma_quad(a, e, 0x14078ea8cdee85a0950d9a272227e4f52c624e853d02ad879ec22f8bf80662c4int, 0, pallas_modulus());
    let e: nat = 4 * e;
    assert(quad(0x23222d06029d21a655392ad9dda387278c1c46359289a4d3d465aafc06d1cf1aint, 0x2bce74deac30ebda362120830561f81aea322bf2b7bb7584bdad6fabd87ea32fint, 0, pallas_modulus()) == 0x1aa07732b05972abcadc042243371883e38cca91106ecac1e26a77c64bc5bec4int) by (nonlinear_arith);
    lemma_quad(a, e, 0x23222d06029d21a655392ad9dda387278c1c46359289a4d3d465aafc06d1cf1aint, 0, pallas_modulus());
    let e: nat = 4 * e;
    assert(quad(0x1aa07732b05972abcadc042243371883e38cca91106ecac1e26a77c64bc5bec4int, 0x2bce74deac30ebda362120830561f81aea322bf2b7bb7584bdad6fabd87ea32fint, 0, pallas_modulus()) == 0x28961bbd9c63b7bd7c75f72e02a9727d14d99e7985184470d34cd1b8ef03001int) by (nonlinear_arith);
    lemma_quad(a, e, 0x1aa07732b05972abcadc042243371883e38cca91106ecac1e26a77c64bc5bec4int, 0, pallas_modulus());
    let e: nat = 4 * e;
    assert(quad(0x28961bbd9c63b7bd7c75f72e02a9727d14d99e7985184470d34cd1b8ef03001int, 0x2bce74deac30ebda362120830561f81aea322bf2b7bb7584bdad6fabd87ea32fint, 0, pallas_modulus()) == 0x1421deb15f5ce205068512b010382353dc0aa1b40386a1c14774c65664bb8182int) by (nonlinear_arith);
    lemma_quad(a, e, 0x28961bbd9c63b7bd7c75f72e02a9727d14d99e7985184470d34cd1b8ef03001int, 0, pallas_modulus());
    let e: nat = 4 * e;
    assert(quad(0x1421deb15f5ce205068512b010382353dc0aa1b40386a1c14774c65664bb8182int, 0x2bce74deac30ebda362120830561f81aea322bf2b7bb7584bdad6fabd87ea32fint, 0, pallas_modulus()) == 0x21d0b0a3be45b5ee2ff5140e6007a63bc5ac7dc51c50ed52ebf2f918f4d603c9int) by (nonlinear_arith);
    lemma_quad(a, e, 0x1421deb15f5ce205068512b010382353dc0aa1b40386a1c14774c65664bb8182int, 0, pallas_modulus());
    let e: nat = 4 * e;
    assert(quad(0x21d0b0a3be45b5ee2ff5140e6007a63bc5ac7dc51c50ed52ebf2f918f4d603c9int, 0x2bce74deac30ebda362120830561f81aea322bf2b7bb7584bdad6fabd87ea32fint, 0, pallas_modulus()) == 0x1868ca50534a180d97ff23a878e088b0b9569c85b0a15d666c23ded157fceebaint) by (nonlinear_arith);
    lemma_quad(a, e, 0x21d0b0a3be45b5ee2ff5140e6007a63bc5ac7dc51c50ed52ebf2f918f4d603c9int, 0, pallas_modulus());
    let e: nat = 4 * e;
    assert(quad(0x1868ca50534a180d97ff23a878e088b0b9569c85b0a15d666c23ded157fceebaint, 0x2bce74deac30ebda362120830561f81aea322bf2b7bb7584bdad6fabd87ea32fint, 0, pallas_modulus()) == 0x17e6c570737897f385e789dcbc7a09bd4f82ab3e1182aecd80ec9d0beefa6c6dint) by (nonlinear_arith);
    lemma_quad(a, e, 0x1868ca50534a180d97ff23a878e088b0b9569c85b0a15d666c23ded157fceebaint, 0, pallas_modulus());
    let e: nat = 4 * e;
    assert(quad(0x17e6c570737897f385e789dcbc7a09bd4f82ab3e1182aecd80ec9d0beefa6c6dint, 0x2bce74deac30ebda362120830561f81aea322bf2b7bb7584bdad6fabd87ea32fint, 0, pallas_modulus()) == 0x36bdcc7b0f28b5df31744fb72326829dff98203a45f8ebf0e047f48898cdb6dbint) by (nonlinear_arith);
    lemma_quad(a, e, 0x17e6c570737897f385e789dcbc7a09bd4f82ab3e1182aecd80ec9d0beefa6c6dint, 0, pallas_modulus());
    let e: nat = 4 * e;
    assert(e == 0x4000_0000);
    lemma_pow_adds(a, e, e);
    lemma_mul_mod_noop_general(pow(a, e), pow(a, e), pallas_modulus());
    assert((0x36bdcc7b0f28b5df31744fb72326829dff98203a45f8ebf0e047f48898cdb6dbint * 0x36bdcc7b0f28b5df31744fb72326829dff98203a45f8ebf0e047f48898cdb6dbint) % pallas_modulus() == pallas_modulus() - 1) by (nonlinear_arith);
}

/// The root of unity is the power of the generator five to the odd part of `p - 1`; it has order
/// two to the 32.
pub proof fn lemma_pallas_root()
    ensures
        pow(5, 0x40000000000000000000000000000000224698fc094cf91b992d30ednat) % pallas_modulus() == 0x2bce74deac30ebda362120830561f81aea322bf2b7bb7584bdad6fabd87ea32fint,
        0x40000000000000000000000000000000224698fc094cf91b992d30edint * 0x1_0000_0000 == pallas_modulus() - 1,
        pow(0x2bce74deac30ebda362120830561f81aea322bf2b7bb7584bdad6fabd87ea32fint, 0x8000_0000) % pallas_modulus() == pallas_modulus() - 1,
{
    lemma_pallas_root_d();
    lemma_pallas_root_order();
}

proof fn lemma_vesta_root_a()
    ensures
        pow(5, 0x40000000000000nat) % vesta_modulus() == 0x1fc173c32508a8c8204afc941066534cbb77ab3d67978e1508cdebe7b705e7c0int,
{
    lemma_pow0(5);
    let e: nat = 0;
    assert(quad(0x1int, 5, 1, vesta_modulus()) == 0x5int) by (nonlinear_arith);
    lemma_quad(5, e, 0x1int, 1, vesta_modulus());
    let e: nat = 4 * e + 1;
    assert(quad(0x5int, 5, 0, vesta_modulus()) == 0x271int) by (nonlinear_arith);
    lemma_quad(5, e, 0x5int, 0, vesta_modulus());
    let e: nat = 4 * e + 0;
    assert(quad(0x271int, 5, 0, vesta_modulus()) == 0x2386f26fc1int) by (nonlinear_arith);
    lemma_quad(5, e, 0x271int, 0, vesta_modulus());
    let e: nat = 4 * e + 0;
    assert(quad(0x2386f26fc1int, 5, 0, vesta_modulus()) == 0x184f03e93ff9f4daa797ed6e38ed64bf6a1f01int) by (nonlinear_arith);
    lemma_quad(5, e, 0x2386f26fc1int, 0, vesta_modulus());
    let e: nat = 4 * e + 0;
    assert(quad(0x184f03e93ff9f4daa797ed6e38ed64bf6a1f01int, 5, 0, vesta_modulus()) == 0x397acecee0d8f7f18a520ebfa91c9ecfabce5db4164ad0ef17d88111ba5a887bint) by (nonlinear_arith);
    lemma_quad(5, e, 0x184f03e93ff9f4daa797ed6e38ed64bf6a1f01int, 0, vesta_modulus());
    let e: nat = 4 * e + 0;
    assert(quad(0x397acecee0d8f7f18a520ebfa91c9ecfabce5db4164ad0ef17d88111ba5a887bint, 5, 0, vesta_modulus()) == 0x20c2b173029524a961c9eaf8fef38662e06b6c1d0c64bc1cbc3e4d1efa8e4ad9int) by (nonlinear_arith);
    lemma_quad(5, e, 0x397acecee0d8f7f18a520ebfa91c9ecfabce5db4164ad0ef17d88111ba5a887bint, 0, vesta_modulus());
    let e: nat = 4 * e + 0;
    assert(quad(0x20c2b173029524a961c9eaf8fef38662e06b6c1d0c64bc1cbc3e4d1efa8e4ad9int, 5, 0, vesta_modulus()) == 0x2215708bd14430c2a6d2d138f65bdf5324d2c442f7fb6a27fab34ba8774776f2int) by (nonlinear_arith);
    lemma_quad(5, e, 0x20c2b173029524a961c9eaf8fef38662e06b6c1d0c64bc1cbc3e4d1efa8e4ad9int, 0, vesta_modulus());
    let e: nat = 4 * e + 0;
    assert(quad(0x2215708bd14430c2a6d2d138f65bdf5324d2c442f7fb6a27fab34ba8774776f2int, 5, 0, vesta_modulus()) == 0x317d46cf98256c9d3e2cbddd6e7c6ef0a801eaa5feb1948edc8b2f7eacb66cb5int) by (nonlinear_arith);
    lemma_quad(5, e, 0x2215708bd14430c2a6d2d138f65bdf5324d2c442f7fb6a27fab34ba8774776f2int, 0, vesta_modulus());
    let e: nat = 4 * e + 0;
    assert(quad(0x317d46cf98256c9d3e2cbddd6e7c6ef0a801eaa5feb1948edc8b2f7eacb66cb5int, 5, 0, vesta_modulus()) == 0x1345b4db15592821338a91268e929a53955d4baa2f3f84e91c3abb8dc41c06d0int) by (nonlinear_arith);
    lemma_quad(5, e, 0x317d46cf98256c9d3e2cbddd6e7c6ef0a801eaa5feb1948edc8b2f7eacb66cb5int, 0, vesta_modulus());
    let e: nat = 4 * e + 0;
    assert(quad(0x1345b4db15592821338a91268e929a53955d4baa2f3f84e91c3abb8dc41c06d0int, 5, 0, vesta_modulus()) == 0x1647cf95694ea6e169979d2919f0047bec94941865351049f3f16f4b8e55d8cbint) by (nonlinear_arith);
    lemma_quad(5, e, 0x1345b4db15592821338a91268e929a53955d4baa2f3f84e91c3abb8dc41c06d0int, 0, vesta_modulus());
    let e: nat = 4 * e + 0;
    assert(quad(0x1647cf95694ea6e169979d2919f0047bec94941865351049f3f16f4b8e55d8cbint, 5, 0, vesta_modulus()) == 0x2de665277c56f6585c4a527795b7ffeb1d0c44f2b855523be16bc3980ae57896int) by (nonlinear_arith);
    lemma_quad(5, e, 0x1647cf95694ea6e169979d2919f0047bec94941865351049f3f16f4b8e55d8cbint, 0, vesta_modulus());
    let e: nat = 4 * e + 0;
    assert(quad(0x2de665277c56f6585c4a527795b7ffeb1d0c44f2b855523be16bc3980ae57896int, 5, 0, vesta_modulus()) == 0x61f22e11c4db736a6b5bf22b209f29c5aef15a76df9c170d4ab1eeb06e069e7int) by (nonlinear_arith);
    lemma_quad(5, e, 0x2de665277c56f6585c4a527795b7ffeb1d0c44f2b855523be16bc3980ae57896int, 0, vesta_modulus());
    let e: nat = 4 * e + 0;
    assert(quad(0x61f22e11c4db736a6b5bf22b209f29c5aef15a76df9c170d4ab1eeb06e069e7int, 5, 0, vesta_modulus()) == 0x146d17dae76a3de120d22d5ae99f42bb62cb4d597e0204d504aefe288892349int) by (nonlinear_arith);
    lemma_quad(5, e, 0x61f22e11c4db736a6b5bf22b209f29c5aef15a76df9c170d4ab1eeb06e069e7int, 0, vesta_modulus());
    let e: nat = 4 * e + 0;
    assert(quad(0x146d17dae76a3de120d22d5ae99f42bb62cb4d597e0204d504aefe288892349int, 5, 0, vesta_modulus()) == 0x127519fb5c221aa37e23a1b8aa201bd5317300624b92645ba6196c6cf2cc5abfint) by (nonlinear_arith);
    lemma_quad(5, e, 0x146d17dae76a3de120d22d5ae99f42bb62cb4d597e0204d504aefe288892349int, 0, vesta_modulus());
    let e: nat = 4 * e + 0;
    assert(quad(0x127519fb5c221aa37e23a1b8aa201bd5317300624b92645ba6196c6cf2cc5abfint, 5, 0, vesta_modulus()) == 0x24c76c4acccc0e1e36231fd6759e0022c52cdc098ca1a4b3a1d0d41c1501637int) by (nonlinear_arith);
    lemma_quad(5, e, 0x127519fb5c221aa37e23a1b8aa201bd5317300624b92645ba6196c6cf2cc5abfint, 0, vesta_modulus());
    let e: nat = 4 * e + 0;
    assert(quad(0x24c76c4acccc0e1e36231fd6759e0022c52cdc098ca1a4b3a1d0d41c1501637int, 5, 0, vesta_modulus()) == 0x32a82e6f0ce7e4ea23aa72b1d6da532cde41d9f867d3fe9daf6046328cf4104dint) by (nonlinear_arith);
    lemma_quad(5, e, 0x24c76c4acccc0e1e36231fd6759e0022c52cdc098ca1a4b3a1d0d41c1501637int, 0, vesta_modulus());
    let e: nat = 4 * e + 0;
    assert(quad(0x32a82e6f0ce7e4ea23aa72b1d6da532cde41d9f867d3fe9daf6046328cf4104dint, 5, 0, vesta_modulus()) == 0x2237d5442372416606f0a88e7f7949f8e3ac3376541d11408494392472d1683cint) by (nonlinear_arith);
    lemma_quad(5, e, 0x32a82e6f0ce7e4ea23aa72b1d6da532cde41d9f867d3fe9daf6046328cf4104dint, 0, vesta_modulus());
    let e: nat = 4 * e + 0;
    assert(quad(0x2237d5442372416606f0a88e7f7949f8e3ac3376541d11408494392472d1683cint, 5, 0, vesta_modulus()) == 0x1ffd4e509f9a71807b32cf8c36314e5eb1c79e1074ae2c54c941fc4fd3906358int) by (nonlinear_arith);
    lemma_quad(5, e, 0x2237d5442372416606f0a88e7f7949f8e3ac3376541d11408494392472d1683cint, 0, vesta_modulus());
    let e: nat = 4 * e + 0;
    assert(quad(0x1ffd4e509f9a71807b32cf8c36314e5eb1c79e1074ae2c54c941fc4fd3906358int, 5, 0, vesta_modulus()) == 0x3a59a390f964b485a643a5425473878944ad1bfb0d7a8fc340a28c98d1e24413int) by (nonlinear_arith);
    lemma_quad(5, e, 0x1ffd4e509f9a71807b32cf8c36314e5eb1c79e1074ae2c54c941fc4fd3906358int, 0, vesta_modulus());
    let e: nat = 4 * e + 0;
    assert(quad(0x3a59a390f964b485a643a5425473878944ad1bfb0d7a8fc340a28c98d1e24413int, 5, 0, vesta_modulus()) == 0x23a6a83fb25ce034b69ec2be44e141474af966ea644bbac654c268de0dae040cint) by (nonlinear_arith);
    lemma_quad(5, e, 0x3a59a390f964b485a643a5425473878944ad1bfb0d7a8fc340a28c98d1e24413int, 0, vesta_modulus());
    let e: nat = 4 * e + 0;
    assert(quad(0x23a6a83fb25ce034b69ec2be44e141474af966ea644bbac654c268de0dae040cint, 5, 0, vesta_modulus()) == 0x3a661367114ce635ed3435c0aa44879a4c9491ac99e42b3848588810ab0c4b8eint) by (nonlinear_arith);
    lemma_quad(5, e, 0x23a6a83fb25ce034b69ec2be44e141474af966ea644bbac654c268de0dae040cint, 0, vesta_modulus());
    let e: nat = 4 * e + 0;
    assert(quad(0x3a661367114ce635ed3435c0aa44879a4c9491ac99e42b3848588810ab0c4b8eint, 5, 0, vesta_modulus()) == 0x1b9e48bd99ee1b5cd2eae260eaaa53a1a42601a9aae76c9945d4e14d110c65f1int) by (nonlinear_arith);
    lemma_quad(5, e, 0x3a661367114ce635ed3435c0aa44879a4c9491ac99e42b3848588810ab0c4b8eint, 0, vesta_modulus());
    let e: nat = 4 * e + 0;
    assert(quad(0x1b9e48bd99ee1b5cd2eae260eaaa53a1a42601a9aae76c9945d4e14d110c65f1int, 5, 0, vesta_modulus()) == 0x3c96bf7025cf69025dc3802bd1f64b6a0dc3e929071193b05cf7b3522d2ac610int) by (nonlinear_arith);
    lemma_quad(5, e, 0x1b9e48bd99ee1b5cd2eae260eaaa53a1a42601a9aae76c9945d4e14d110c65f1int, 0, vesta_modulus());
    let e: nat = 4 * e + 0;
    assert(quad(0x3c96bf7025cf69025dc3802bd1f64b6a0dc3e929071193b05cf7b3522d2ac610int, 5, 0, vesta_modulus()) == 0x9d02f2384ab9c695db75b5418030dad1f5f6e77a80293fe42ca076acfd8007fint) by (nonlinear_arith);
    lemma_quad(5, e, 0x3c96bf7025cf69025dc3802bd1f64b6a0dc3e929071193b05cf7b3522d2ac610int, 0, vesta_modulus());
    let e: nat = 4 * e + 0;
    assert(quad(0x9d02f2384ab9c695db75b5418030dad1f5f6e77a80293fe42ca076acfd8007fint, 5, 0, vesta_modulus()) == 0x178a38619e4f043c29e56868e828166f3e4553143e4458abfced4f89a429e00int) by (nonlinear_arith);
    lemma_quad(5, e, 0x9d02f2384ab9c695db75b5418030dad1f5f6e77a80293fe42ca076acfd8007fint, 0, vesta_modulus());
    let e: nat = 4 * e + 0;
    assert(quad(0x178a38619e4f043c29e56868e828166f3e4553143e4458abfced4f89a429e00int, 5, 0, vesta_modulus()) == 0x23ee983c2d3068cbbe5dec3f60325002564cdf77abf89ae46d8d1218bc7fafb5int) by (nonlinear_arith);
    lemma_quad(5, e, 0x178a38619e4f043c29e56868e828166f3e4553143e4458abfced4f89a429e00int, 0, vesta_modulus());
    let e: nat = 4 * e + 0;
    assert(quad(0x23ee983c2d3068cbbe5dec3f60325002564cdf77abf89ae46d8d1218bc7fafb5int, 5, 0, vesta_modulus()) == 0x3b8d28b31400a9f76fc9058ab09d06cea98c28e2c913b21bb681465a0d41647aint) by (nonlinear_arith);
    lemma_quad(5, e, 0x23ee983c2d3068cbbe5dec3f60325002564cdf77abf89ae46d8d1218bc7fafb5int, 0, vesta_modulus());
    let e: nat = 4 * e + 0;
    assert(quad(0x3b8d28b31400a9f76fc9058ab09d06cea98c28e2c913b21bb681465a0d41647aint, 5, 0, vesta_modulus()) == 0x1fc173c32508a8c8204afc941066534cbb77ab3d67978e1508cdebe7b705e7c0int) by (nonlinear_arith);
    lemma_quad(5, e, 0x3b8d28b31400a9f76fc9058ab09d06cea98c28e2c913b21bb681465a0d41647aint, 0, vesta_modulus());
    let e: nat = 4 * e + 0;
    assert(e == 0x40000000000000int);
}

proof fn lemma_vesta_root_b()
    ensures
        pow(5, 0x4000000000000000000000000000nat) % vesta_modulus() == 0x209957584a778b5bf341896abe70211855c2223ed9084b7e5e3ce7f488e3e8d6int,
{
    lemma_vesta_root_a();
    let e: nat = 0x40000000000000nat;
    assert(quad(0x1fc173c32508a8c8204afc941066534cbb77ab3d67978e1508cdebe7b705e7c0int, 5, 0, vesta_modulus()) == 0x2f68140542a460fbac903ca3aa7c10ec01447609795756af01a6acc569900677int) by (nonlinear_arith);
    lemma_quad(5, e, 0x1fc173c32508a8c8204afc941066534cbb77ab3d67978e1508cdebe7b705e7c0int, 0, vesta_modulus());
    let e: nat = 4 * e + 0;
    assert(quad(0x2f68140542a460fbac903ca3aa7c10ec01447609795756af01a6acc569900677int, 5, 0, vesta_modulus()) == 0x8dc55a7f71cc900c453ecea559359d2ef130355b890cc049f3746176a41a926int) by (nonlinear_arith);
    lemma_quad(5, e, 0x2f68140542a460fbac903ca3aa7c10ec01447609795756af01a6acc569900677int, 0, vesta_modulus());
    let e: nat = 4 * e + 0;
    assert(quad(0x8dc55a7f71cc900c453ecea559359d2ef130355b890cc049f3746176a41a926int, 5, 0, vesta_modulus()) == 0x3279c1c5b3759b41847eb312eb01c6ddd15ebc63f2ec6e9fa66b6ec42aa93357int) by (nonlinear_arith);
    lemma_quad(5, e, 0x8dc55a7f71cc900c453ecea559359d2ef130355b890cc049f3746176a41a926int, 0, vesta_modulus());
    let e: nat = 4 * e + 0;
    assert(quad(0x3279c1c5b3759b41847eb312eb01c6ddd15ebc63f2ec6e9fa66b6ec42aa93357int, 5, 0, vesta_modulus()) == 0x22986b702927b94967e3cabd2f23bc4a9283381c9580ab46c9de27775229bbfaint) by (nonlinear_arith);
    lemma_quad(5, e, 0x3279c1c5b3759b41847eb312eb01c6ddd15ebc63f2ec6e9fa66b6ec42aa93357int, 0, vesta_modulus());
    let e: nat = 4 * e + 0;
    assert(quad(0x22986b702927b94967e3cabd2f23bc4a9283381c9580ab46c9de27775229bbfaint, 5, 0, vesta_modulus()) == 0x3ba05596d9f6ef09e2b7fde527557c401c25fc296217a1279e6261ec65439751int) by (nonlinear_arith);
    lemma_quad(5, e, 0x22986b702927b94967e3cabd2f23bc4a9283381c9580ab46c9de27775229bbfaint, 0, vesta_modulus());
    let e: nat = 4 * e + 0;
    assert(quad(0x3ba05596d9f6ef09e2b7fde527557c401c25fc296217a1279e6261ec65439751int, 5, 0, vesta_modulus()) == 0x2d560a427664a8f8ba1b71c25ad9176a3df693ac44cb8ebbbad6513e57d56b23int) by (nonlinear_arith);
    lemma_quad(5, e, 0x3ba05596d9f6ef09e2b7fde527557c401c25fc296217a1279e6261ec65439751int, 0, vesta_modulus());
    let e: nat = 4 * e + 0;
    assert(quad(0x2d560a427664a8f8ba1b71c25ad9176a3df693ac44cb8ebbbad6513e57d56b23int, 5, 0, vesta_modulus()) == 0x124da25da04bf0763a4a3a483b3c1ca5dff217873ed41ca24bb155e7633fc655int) by (nonlinear_arith);
    lemma_quad(5, e, 0x2d560a427664a8f8ba1b71c25ad9176a3df693ac44cb8ebbbad6513e57d56b23int, 0, vesta_modulus());
    let e: nat = 4 * e + 0;
    assert(quad(0x124da25da04bf0763a4a3a483b3c1ca5dff217873ed41ca24bb155e7633fc655int, 5, 0, vesta_modulus()) == 0x3d9ef98a99ed689dc7c9129e0767611478d2625ccbe62307f25550c2ffbdbf6eint) by (nonlinear_arith);
    lemma_quad(5, e, 0x124da25da04bf0763a4a3a483b3c1ca5dff217873ed41ca24bb155e7633fc655int, 0, vesta_modulus());
    let e: nat = 4 * e + 0;
    assert(quad(0x3d9ef98a99ed689dc7c9129e0767611478d2625ccbe62307f25550c2ffbdbf6eint, 5, 0, vesta_modulus()) == 0x3dec65d7cfd085c4eb5bbd1741a239d262c87f14a6e42812ec7672ec5c21243fint) by (nonlinear_arith);
    lemma_quad(5, e, 0x3d9ef98a99ed689dc7c9129e0767611478d2625ccbe62307f25550c2ffbdbf6eint, 0, vesta_modulus());
    let e: nat = 4 * e + 0;
    assert(quad(0x3dec65d7cfd085c4eb5bbd1741a239d262c87f14a6e42812ec7672ec5c21243fint, 5, 0, vesta_modulus()) == 0x134babf97db0ed49519040c790585f505b8bc12d3fb4ba9f91075c1fea74711aint) by (nonlinear_arith);
    lemma_quad(5, e, 0x3dec65d7cfd085c4eb5bbd1741a239d262c87f14a6e42812ec7672ec5c21243fint, 0, vesta_modulus());
    let e: nat = 4 * e + 0;
    assert(quad(0x134babf97db0ed49519040c790585f505b8bc12d3fb4ba9f91075c1fea74711aint, 5, 0, vesta_modulus()) == 0x356ae874ddfd1f7b69fff3463ba376d500476ec3dffdbab446c50fb471347574int) by (nonlinear_arith);
    lemma_quad(5, e, 0x134babf97db0ed49519040c790585f505b8bc12d3fb4ba9f91075c1fea74711aint, 0, vesta_modulus());
    let e: nat = 4 * e + 0;
    assert(quad(0x356ae874ddfd1f7b69fff3463ba376d500476ec3dffdbab446c50fb471347574int, 5, 0, vesta_modulus()) == 0x1768147ea63ca8363d223a4d9b2a6577d577d4ee82ceda6c76bcd5635570dda2int) by (nonlinear_arith);
    lemma_quad(5, e, 0x356ae874ddfd1f7b69fff3463ba376d500476ec3dffdbab446c50fb471347574int, 0, vesta_modulus());
    let e: nat = 4 * e + 0;
    assert(quad(0x1768147ea63ca8363d223a4d9b2a6577d577d4ee82ceda6c76bcd5635570dda2int, 5, 0, vesta_modulus()) == 0x3f006c83afc618bf2e4db33b172c10cc044df4797877ce7c2ea12054fc8e4672int) by (nonlinear_arith);
    lemma_quad(5, e, 0x1768147ea63ca8363d223a4d9b2a6577d577d4ee82ceda6c76bcd5635570dda2int, 0, vesta_modulus());
    let e: nat = 4 * e + 0;
    assert(quad(0x3f006c83afc618bf2e4db33b172c10cc044df4797877ce7c2ea12054fc8e4672int, 5, 0, vesta_modulus()) == 0x6ed760d3ea95f07fceee0db792e146baa8440160f3338d1c92839ecad905e1cint) by (nonlinear_arith);
    lemma_quad(5, e, 0x3f006c83afc618bf2e4db33b172c10cc044df4797877ce7c2ea12054fc8e4672int, 0, vesta_modulus());
    let e: nat = 4 * e + 0;
    assert(quad(0x6ed760d3ea95f07fceee0db792e146baa8440160f3338d1c92839ecad905e1cint, 5, 0, vesta_modulus()) == 0x102841507525807d4b74af071cb3eb9984f7a677b2a471651a703686bd297int) by (nonlinear_arith);
    lemma_quad(5, e, 0x6ed760d3ea95f07fceee0db792e146baa8440160f3338d1c92839ecad905e1cint, 0, vesta_modulus());
    let e: nat = 4 * e + 0;
    assert(quad(0x102841507525807d4b74af071cb3eb9984f7a677b2a471651a703686bd297int, 5, 0, vesta_modulus()) == 0x37f00f993ab25ace02e5c55c9fe0c7e665fe4e3246294ea3ddcb189220657f67int) by (nonlinear_arith);
    lemma_quad(5, e, 0x102841507525807d4b74af071cb3eb9984f7a677b2a471651a703686bd297int, 0, vesta_modulus());
    let e: nat = 4 * e + 0;
    assert(quad(0x37f00f993ab25ace02e5c55c9fe0c7e665fe4e3246294ea3ddcb189220657f67int, 5, 0, vesta_modulus()) == 0x3ecefa1fa127c78eb4f392b006c03a18181f160f839dca8daf9ca28a9ee024fcint) by (nonlinear_arith);
    lemma_quad(5, e, 0x37f00f993ab25ace02e5c55c9fe0c7e665fe4e3246294ea3ddcb189220657f67int, 0, vesta_modulus());
    let e: nat = 4 * e + 0;
    assert(quad(0x3ecefa1fa127c78eb4f392b006c03a18181f160f839dca8daf9ca28a9ee024fcint, 5, 0, vesta_modulus()) == 0x321bde97561d43f7ed6b07ba9b8ebf1ac7c8e1fcf63d99fbde767d98cbad5d62int) by (nonlinear_arith);
    lemma_quad(5, e, 0x3ecefa1fa127c78eb4f392b006c03a18181f160f839dca8daf9ca28a9ee024fcint, 0, vesta_modulus());
    let e: nat = 4 * e + 0;
    assert(quad(0x321bde97561d43f7ed6b07ba9b8ebf1ac7c8e1fcf63d99fbde767d98cbad5d62int, 5, 0, vesta_modulus()) == 0x64b60a40cff46aa4aed1105f1ce75379f175a4a1da5f971e3928e4f6be29ee7int) by (nonlinear_arith);
    lemma_quad(5, e, 0x321bde97561d43f7ed6b07ba9b8ebf1ac7c8e1fcf63d99fbde767d98cbad5d62int, 0, vesta_modulus());
    let e: nat = 4 * e + 0;
    assert(quad(0x64b60a40cff46aa4aed1105f1ce75379f175a4a1da5f971e3928e4f6be29ee7int, 5, 0, vesta_modulus()) == 0x1c3d3e2f2b328b880240238bf59d2ecfe8852a37aece0d6e8514e646f7abd5a3int) by (nonlinear_arith);
    lemma_quad(5, e, 0x64b60a40cff46aa4aed1105f1ce75379f175a4a1da5f971e3928e4f6be29ee7int, 0, vesta_modulus());
    let e: nat = 4 * e + 0;
    assert(quad(0x1c3d3e2f2b328b880240238bf59d2ecfe8852a37aece0d6e8514e646f7abd5a3int, 5, 0, vesta_modulus()) == 0x304ded2289828a7f850bf06ab12e87c68a6fec2208d9f6672e479468dfb6b1ebint) by (nonlinear_arith);
    lemma_quad(5, e, 0x1c3d3e2f2b328b880240238bf59d2ecfe8852a37aece0d6e8514e646f7abd5a3int, 0, vesta_modulus());
    let e: nat = 4 * e + 0;
    assert(quad(0x304ded2289828a7f850bf06ab12e87c68a6fec2208d9f6672e479468dfb6b1ebint, 5, 0, vesta_modulus()) == 0x393887c3d7945252a3950a103358ec789bfa4149dc54a8baf9d3da70f7013d77int) by (nonlinear_arith);
    lemma_quad(5, e, 0x304ded2289828a7f850bf06ab12e87c68a6fec2208d9f6672e479468dfb6b1ebint, 0, vesta_modulus());
    let e: nat = 4 * e + 0;
    assert(quad(0x393887c3d7945252a3950a103358ec789bfa4149dc54a8baf9d3da70f7013d77int, 5, 0, vesta_modulus()) == 0x10ab9087f64f2ead1b6b4748396da33b7a83f83a85db52d2f2ca96483506e46dint) by (nonlinear_arith);
    lemma_quad(5, e, 0x393887c3d7945252a3950a103358ec789bfa4149dc54a8baf9d3da70f7013d77int, 0, vesta_modulus());
    let e: nat = 4 * e + 0;
    assert(quad(0x10ab9087f64f2ead1b6b4748396da33b7a83f83a85db52d2f2ca96483506e46dint, 5, 0, vesta_modulus()) == 0x2044d36cc2586d17abc862c9dfa5c542ecc4764bb365e97a9cfd299a19d21b1aint) by (nonlinear_arith);
    lemma_quad(5, e, 0x10ab9087f64f2ead1b6b4748396da33b7a83f83a85db52d2f2ca96483506e46dint, 0, vesta_modulus());
    let e: nat = 4 * e + 0;
    assert(quad(0x2044d36cc2586d17abc862c9dfa5c542ecc4764bb365e97a9cfd299a19d21b1aint, 5, 0, vesta_modulus()) == 0x150596cdfa92ed79bac3f4e775d4d12e9bd9800d91b08e28f2582e410ef7f361int) by (nonlinear_arith);
    lemma_quad(5, e, 0x2044d36cc2586d17abc862c9dfa5c542ecc4764bb365e97a9cfd299a19d21b1aint, 0, vesta_modulus());
    let e: nat = 4 * e + 0;
    assert(quad(0x150596cdfa92ed79bac3f4e775d4d12e9bd9800d91b08e28f2582e410ef7f361int, 5, 0, vesta_modulus()) == 0x3d7fa501dde766a5f704dcb863385bee61446fca1417f8b81c5b91d373618143int) by (nonlinear_arith);
    lemma_quad(5, e, 0x150596cdfa92ed79bac3f4e775d4d12e9bd9800d91b08e28f2582e410ef7f361int, 0, vesta_modulus());
    let e: nat = 4 * e + 0;
    assert(quad(0x3d7fa501dde766a5f704dcb863385bee61446fca1417f8b81c5b91d373618143int, 5, 0, vesta_modulus()) == 0x114ed74c2cedd1120f71d3d0edaa8ec6d94fb683041d387792a75bdf59b26dbbint) by (nonlinear_arith);
    lemma_quad(5, e, 0x3d7fa501dde766a5f704dcb863385bee61446fca1417f8b81c5b91d373618143int, 0, vesta_modulus());
    let e: nat = 4 * e + 0;
    assert(quad(0x114ed74c2cedd1120f71d3d0edaa8ec6d94fb683041d387792a75bdf59b26dbbint, 5, 0, vesta_modulus()) == 0x209957584a778b5bf341896abe70211855c2223ed9084b7e5e3ce7f488e3e8d6int) by (nonlinear_arith);
    lemma_quad(5, e, 0x114ed74c2cedd1120f71d3d0edaa8ec6d94fb683041d387792a75bdf59b26dbbint, 0, vesta_modulus());
    let e: nat = 4 * e + 0;
    assert(e == 0x4000000000000000000000000000int);
}

proof fn lemma_vesta_root_c()
    ensures
        pow(5, 0x40000000000000000000000000000000224698fc09nat) % vesta_modulus() == 0x21e9a30ff7de5c5d809824a5cda0a9aedbb9d006d1d01563fcffc3c5e897f63fint,
{
    lemma_vesta_root_b();
    let e: nat = 0x4000000000000000000000000000nat;
    assert(quad(0x209957584a778b5bf341896abe70211855c2223ed9084b7e5e3ce7f488e3e8d6int, 5, 0, vesta_modulus()) == 0x3a67257e43bc55065ca608ac007eadbe39e8b0fac8d074d29e9a5c72eae45873int) by (nonlinear_arith);
    lemma_quad(5, e, 0x209957584a778b5bf341896abe70211855c2223ed9084b7e5e3ce7f488e3e8d6int, 0, vesta_modulus());
    let e: nat = 4 * e + 0;
    assert(quad(0x3a67257e43bc55065ca608ac007eadbe39e8b0fac8d074d29e9a5c72eae45873int, 5, 0, vesta_modulus()) == 0xea9f3d34af34489800baac534c27ac071bd8472a04480b5bef2881bf2b9cc97int) by (nonlinear_arith);
    lemma_quad(5, e, 0x3a67257e43bc55065ca608ac007eadbe39e8b0fac8d074d29e9a5c72eae45873int, 0, vesta_modulus());
    let e: nat = 4 * e + 0;
    assert(quad(0xea9f3d34af34489800baac534c27ac071bd8472a04480b5bef2881bf2b9cc97int, 5, 0, vesta_modulus()) == 0x2e73988eabddb1a5da51405a5ae79482b576b23fffc8f5b2c80661c47ece629aint) by (nonlinear_arith);
    lemma_quad(5, e, 0xea9f3d34af34489800baac534c27ac071bd8472a04480b5bef2881bf2b9cc97int, 0, vesta_modulus());
    let e: nat = 4 * e + 0;
    assert(quad(0x2e73988eabddb1a5da51405a5ae79482b576b23fffc8f5b2c80661c47ece629aint, 5, 0, vesta_modulus()) == 0x2eefa13c565be660ab6c1b7b4050f56f0aba9e7a091ed4592af42a419de10302int) by (nonlinear_arith);
    lemma_quad(5, e, 0x2e73988eabddb1a5da51405a5ae79482b576b23fffc8f5b2c80661c47ece629aint, 0, vesta_modulus());
    let e: nat = 4 * e + 0;
    assert(quad(0x2eefa13c565be660ab6c1b7b4050f56f0aba9e7a091ed4592af42a419de10302int, 5, 0, vesta_modulus()) == 0x29772772c00fbf465fc1fc2e58c1f2ccdf3162938aca1702fa5ad389124bc5d1int) by (nonlinear_arith);
    lemma_quad(5, e, 0x2eefa13c565be660ab6c1b7b4050f56f0aba9e7a091ed4592af42a419de10302int, 0, vesta_modulus());
    let e: nat = 4 * e + 0;
    assert(quad(0x29772772c00fbf465fc1fc2e58c1f2ccdf3162938aca1702fa5ad389124bc5d1int, 5, 0, vesta_modulus()) == 0x1af7bb36b529726066ad00e2ea8c0d35d93296f507be87a37f56714a95263ae6int) by (nonlinear_arith);
    lemma_quad(5, e, 0x29772772c00fbf465fc1fc2e58c1f2ccdf3162938aca1702fa5ad389124bc5d1int, 0, vesta_modulus());
    let e: nat = 4 * e + 0;
    assert(quad(0x1af7bb36b529726066ad00e2ea8c0d35d93296f507be87a37f56714a95263ae6int, 5, 0, vesta_modulus()) == 0x1c774b9f180c780ad987db15169f8435d4cbaba6dc193224759c304e1bfb4e0dint) by (nonlinear_arith);
    lemma_quad(5, e, 0x1af7bb36b529726066ad00e2ea8c0d35d93296f507be87a37f56714a95263ae6int, 0, vesta_modulus());
    let e: nat = 4 * e + 0;
    assert(quad(0x1c774b9f180c780ad987db15169f8435d4cbaba6dc193224759c304e1bfb4e0dint, 5, 0, vesta_modulus()) == 0x267ab8144a4d3baf25a95af5b04424af4ab291664ca212f09960b86746d284e0int) by (nonlinear_arith);
    lemma_quad(5, e, 0x1c774b9f180c780ad987db15169f8435d4cbaba6dc193224759c304e1bfb4e0dint, 0, vesta_modulus());
    let e: nat = 4 * e + 0;
    assert(quad(0x267ab8144a4d3baf25a95af5b04424af4ab291664ca212f09960b86746d284e0int, 5, 0, vesta_modulus()) == 0xc6bc11a6195b71fa93d5877a5714dde806436caa864336af6e0bcef02d31562int) by (nonlinear_arith);
    lemma_quad(5, e, 0x267ab8144a4d3baf25a95af5b04424af4ab291664ca212f09960b86746d284e0int, 0, vesta_modulus());
    let e: nat = 4 * e + 0;
    assert(quad(0xc6bc11a6195b71fa93d5877a5714dde806436caa864336af6e0bcef02d31562int, 5, 2, vesta_modulus()) == 0x3d6b8882602ba6b159d04244afa1481debbd0fcebd5f21672e3fc0d9eeee2ffdint) by (nonlinear_arith);
    lemma_quad(5, e, 0xc6bc11a6195b71fa93d5877a5714dde806436caa864336af6e0bcef02d31562int, 2, vesta_modulus());
    let e: nat = 4 * e + 2;
    assert(quad(0x3d6b8882602ba6b159d04244afa1481debbd0fcebd5f21672e3fc0d9eeee2ffdint, 5, 0, vesta_modulus()) == 0x17fbcdbf4eeeb254a39e25629667ba547ce905186fd3c29abab80c5c478b9224int) by (nonlinear_arith);
    lemma_quad(5, e, 0x3d6b8882602ba6b159d04244afa1481debbd0fcebd5f21672e3fc0d9eeee2ffdint, 0, vesta_modulus());
    let e: nat = 4 * e + 0;
    assert(quad(0x17fbcdbf4eeeb254a39e25629667ba547ce905186fd3c29abab80c5c478b9224int, 5, 2, vesta_modulus()) == 0xee3dd08fc0d744837bd88395cd8651d9462d3c2f281ba76440df781136a634dint) by (nonlinear_arith);
    lemma_quad(5, e, 0x17fbcdbf4eeeb254a39e25629667ba547ce905186fd3c29abab80c5c478b9224int, 2, vesta_modulus());
    let e: nat = 4 * e + 2;
    assert(quad(0xee3dd08fc0d744837bd88395cd8651d9462d3c2f281ba76440df781136a634dint, 5, 1, vesta_modulus()) == 0x26e15da0629624330afc025168f4ce7cbb129a128a6bc295b177d48eb192351int) by (nonlinear_arith);
    lemma_quad(5, e, 0xee3dd08fc0d744837bd88395cd8651d9462d3c2f281ba76440df781136a634dint, 1, vesta_modulus());
    let e: nat = 4 * e + 1;
    assert(quad(0x26e15da0629624330afc025168f4ce7cbb129a128a6bc295b177d48eb192351int, 5, 0, vesta_modulus()) == 0xcb3d9dc439f92d56ce71f26dc47569949c7254d446a41e2b0631dd48b180377int) by (nonlinear_arith);
    lemma_quad(5, e, 0x26e15da0629624330afc025168f4ce7cbb129a128a6bc295b177d48eb192351int, 0, vesta_modulus());
    let e: nat = 4 * e + 0;
    assert(quad(0xcb3d9dc439f92d56ce71f26dc47569949c7254d446a41e2b0631dd48b180377int, 5, 1, vesta_modulus()) == 0x20ba741aaa8cd0f00fca29f2d54534abd68e802172920d6304e02859f4c859ecint) by (nonlinear_arith);
    lemma_quad(5, e, 0xcb3d9dc439f92d56ce71f26dc47569949c7254d446a41e2b0631dd48b180377int, 1, vesta_modulus());
    let e: nat = 4 * e + 1;
    assert(quad(0x20ba741aaa8cd0f00fca29f2d54534abd68e802172920d6304e02859f4c859ecint, 5, 2, vesta_modulus()) == 0x48f7622fb9a680da76a255cb5f50a062cdad2573895894bd5b39d351dfbe9a0int) by (nonlinear_arith);
    lemma_quad(5, e, 0x20ba741aaa8cd0f00fca29f2d54534abd68e802172920d6304e02859f4c859ecint, 2, vesta_modulus());
    let e: nat = 4 * e + 2;
    assert(quad(0x48f7622fb9a680da76a255cb5f50a062cdad2573895894bd5b39d351dfbe9a0int, 5, 2, vesta_modulus()) == 0x2187a3c37ef4410cd67cd3561e169eed4e1b23c59ea86adfb7e2a06877e75effint) by (nonlinear_arith);
    lemma_quad(5, e, 0x48f7622fb9a680da76a255cb5f50a062cdad2573895894bd5b39d351dfbe9a0int, 2, vesta_modulus());
    let e: nat = 4 * e + 2;
    assert(quad(0x2187a3c37ef4410cd67cd3561e169eed4e1b23c59ea86adfb7e2a06877e75effint, 5, 1, vesta_modulus()) == 0x3d809e1cd6beb4028d678a88def3a2dcd73f8e22c77df4eb768c197bb7d8a374int) by (nonlinear_arith);
    lemma_quad(5, e, 0x2187a3c37ef4410cd67cd3561e169eed4e1b23c59ea86adfb7e2a06877e75effint, 1, vesta_modulus());
    let e: nat = 4 * e + 1;
    assert(quad(0x3d809e1cd6beb4028d678a88def3a2dcd73f8e22c77df4eb768c197bb7d8a374int, 5, 2, vesta_modulus()) == 0x3f9c805e25b6f5f5a07480172793036702d64c49111fd74d2f26c89c33974466int) by (nonlinear_arith);
    lemma_quad(5, e, 0x3d809e1cd6beb4028d678a88def3a2dcd73f8e22c77df4eb768c197bb7d8a374int, 2, vesta_modulus());
    let e: nat = 4 * e + 2;
    assert(quad(0x3f9c805e25b6f5f5a07480172793036702d64c49111fd74d2f26c89c33974466int, 5, 0, vesta_modulus()) == 0x14a7a98121d4f9db1de31b24962b64ce8d1ff264e593767f803e8aa3758ac9efint) by (nonlinear_arith);
    lemma_quad(5, e, 0x3f9c805e25b6f5f5a07480172793036702d64c49111fd74d2f26c89c33974466int, 0, vesta_modulus());
    let e: nat = 4 * e + 0;
    assert(quad(0x14a7a98121d4f9db1de31b24962b64ce8d1ff264e593767f803e8aa3758ac9efint, 5, 3, vesta_modulus()) == 0xaeb503fdf70aa75e050a1d94872221f910a5ba93ae489f6288c078b0035fe06int) by (nonlinear_arith);
    lemma_quad(5, e, 0x14a7a98121d4f9db1de31b24962b64ce8d1ff264e593767f803e8aa3758ac9efint, 3, vesta_modulus());
    let e: nat = 4 * e + 3;
    assert(quad(0xaeb503fdf70aa75e050a1d94872221f910a5ba93ae489f6288c078b0035fe06int, 5, 3, vesta_modulus()) == 0x29deb3ed6a2a0722e391d688906115c6f88be6b4161e73b8eb30a33922805cf2int) by (nonlinear_arith);
    lemma_quad(5, e, 0xaeb503fdf70aa75e050a1d94872221f910a5ba93ae489f6288c078b0035fe06int, 3, vesta_modulus());
    let e: nat = 4 * e + 3;
    assert(quad(0x29deb3ed6a2a0722e391d688906115c6f88be6b4161e73b8eb30a33922805cf2int, 5, 3, vesta_modulus()) == 0x6bac545d38a5f76175f2acff348e113e9db884a80ec211622ca8cc963790a11int) by (nonlinear_arith);
    lemma_quad(5, e, 0x29deb3ed6a2a0722e391d688906115c6f88be6b4161e73b8eb30a33922805cf2int, 3, vesta_modulus());
    let e: nat = 4 * e + 3;
    assert(quad(0x6bac545d38a5f76175f2acff348e113e9db884a80ec211622ca8cc963790a11int, 5, 0, vesta_modulus()) == 0x16a9b33024e054601d61ce3f18bff73a9ccb447c6c1d4756975b667fda7e38e5int) by (nonlinear_arith);
    lemma_quad(5, e, 0x6bac545d38a5f76175f2acff348e113e9db884a80ec211622ca8cc963790a11int, 0, vesta_modulus());
    let e: nat = 4 * e + 0;
    assert(quad(0x16a9b33024e054601d61ce3f18bff73a9ccb447c6c1d4756975b667fda7e38e5int, 5, 0, vesta_modulus()) == 0x1d9d1e0f5f2ebce42a6bff727b051928e1935a06f227fdc8630a77120747bc56int) by (nonlinear_arith);
    lemma_quad(5, e, 0x16a9b33024e054601d61ce3f18bff73a9ccb447c6c1d4756975b667fda7e38e5int, 0, vesta_modulus());
    let e: nat = 4 * e + 0;
    assert(quad(0x1d9d1e0f5f2ebce42a6bff727b051928e1935a06f227fdc8630a77120747bc56int, 5, 0, vesta_modulus()) == 0x1e83a7cb41a979df5a20b62841f4335a5f843cadddd77a451abc5ad24bb4fb35int) by (nonlinear_arith);
    lemma_quad(5, e, 0x1d9d1e0f5f2ebce42a6bff727b051928e1935a06f227fdc8630a77120747bc56int, 0, vesta_modulus());
    let e: nat = 4 * e + 0;
    assert(quad(0x1e83a7cb41a979df5a20b62841f4335a5f843cadddd77a451abc5ad24bb4fb35int, 5, 2, vesta_modulus()) == 0x26f4d6cc412e35ffefcf45e9bc440bec15c677c3dfa4bd936e66aaab30aaebfbint) by (nonlinear_arith);
    lemma_quad(5, e, 0x1e83a7cb41a979df5a20b62841f4335a5f843cadddd77a451abc5ad24bb4fb35int, 2, vesta_modulus());
    let e: nat = 4 * e + 2;
    assert(quad(0x26f4d6cc412e35ffefcf45e9bc440bec15c677c3dfa4bd936e66aaab30aaebfbint, 5, 1, vesta_modulus()) == 0x21e9a30ff7de5c5d809824a5cda0a9aedbb9d006d1d01563fcffc3c5e897f63fint) by (nonlinear_arith);
    lemma_quad(5, e, 0x26f4d6cc412e35ffefcf45e9bc440bec15c677c3dfa4bd936e66aaab30aaebfbint, 1, vesta_modulus());
    let e: nat = 4 * e + 1;
    assert(e == 0x40000000000000000000000000000000224698fc09int);
}

proof fn lemma_vesta_root_d()
    ensures
        pow(5, 0x40000000000000000000000000000000224698fc0994a8dd8c46eb21nat) % vesta_modulus() == 0x2de6a9b8746d3f589e5c4dfd492ae26e9bb97ea3c106f049a70e2c1102b6d05fint,
{
    lemma_vesta_root_c();
    let e: nat = 0x40000000000000000000000000000000224698fc09nat;
    assert(quad(0x21e9a30ff7de5c5d809824a5cda0a9aedbb9d006d1d01563fcffc3c5e897f63fint, 5, 2, vesta_modulus()) == 0xcd11229f8e05628e2119a773926a508445b37089b7960df62c88481ad20f66int) by (nonlinear_arith);
    lemma_quad(5, e, 0x21e9a30ff7de5c5d809824a5cda0a9aedbb9d006d1d01563fcffc3c5e897f63fint, 2, vesta_modulus());
    let e: nat = 4 * e + 2;
    assert(quad(0xcd11229f8e05628e2119a773926a508445b37089b7960df62c88481ad20f66int, 5, 1, vesta_modulus()) == 0x303913a0bfb089a4146a3b9269d69c0c8735a37ad5a9a0885399da1f356434acint) by (nonlinear_arith);
    lemma_quad(5, e, 0xcd11229f8e05628e2119a773926a508445b37089b7960df62c88481ad20f66int, 1, vesta_modulus());
    let e: nat = 4 * e + 1;
    assert(quad(0x303913a0bfb089a4146a3b9269d69c0c8735a37ad5a9a0885399da1f356434acint, 5, 1, vesta_modulus()) == 0x3dc6df2c3b870900437874c1de4e6aca8a8ec1882db404cf3c4e589ae13574ceint) by (nonlinear_arith);
    lemma_quad(5, e, 0x303913a0bfb089a4146a3b9269d69c0c8735a37ad5a9a0885399da1f356434acint, 1, vesta_modulus());
    let e: nat = 4 * e + 1;
    assert(quad(0x3dc6df2c3b870900437874c1de4e6aca8a8ec1882db404cf3c4e589ae13574ceint, 5, 0, vesta_modulus()) == 0x181586a8940357d71cf67b2b7da1c87b9085dd4b80737ce7f8b6eb265cfbad0dint) by (nonlinear_arith);
    lemma_quad(5, e, 0x3dc6df2c3b870900437874c1de4e6aca8a8ec1882db404cf3c4e589ae13574ceint, 0, vesta_modulus());
    let e: nat = 4 * e + 0;
    assert(quad(0x181586a8940357d71cf67b2b7da1c87b9085dd4b80737ce7f8b6eb265cfbad0dint, 5, 2, vesta_modulus()) == 0xb7b97c55bdc2f94bc5f71f71b0e72da8327787a8ac326f9262a6acd3dd032int) by (nonlinear_arith);
    lemma_quad(5, e, 0x181586a8940357d71cf67b2b7da1c87b9085dd4b80737ce7f8b6eb265cfbad0dint, 2, vesta_modulus());
    let e: nat = 4 * e + 2;
    assert(quad(0xb7b97c55bdc2f94bc5f71f71b0e72da8327787a8ac326f9262a6acd3dd032int, 5, 2, vesta_modulus()) == 0x2b26472b61d3a72a0a9351e7a287093bb38cb3c15387f49f115aa3ebf5cf7928int) by (nonlinear_arith);
    lemma_quad(5, e, 0xb7b97c55bdc2f94bc5f71f71b0e72da8327787a8ac326f9262a6acd3dd032int, 2, vesta_modulus());
    let e: nat = 4 * e + 2;
    assert(quad(0x2b26472b61d3a72a0a9351e7a287093bb38cb3c15387f49f115aa3ebf5cf7928int, 5, 2, vesta_modulus()) == 0xdcc563eae622665547ebfeda0d6f48196b377acb6b5d9f8dfd3be1d46eabbbaint) by (nonlinear_arith);
    lemma_quad(5, e, 0x2b26472b61d3a72a0a9351e7a287093bb38cb3c15387f49f115aa3ebf5cf7928int, 2, vesta_modulus());
    let e: nat = 4 * e + 2;
    assert(quad(0xdcc563eae622665547ebfeda0d6f48196b377acb6b5d9f8dfd3be1d46eabbbaint, 5, 0, vesta_modulus()) == 0x1ee9795379305f6451405a0dbee3f16c240bb54688352efa19a3b76af1acf2d2int) by (nonlinear_arith);
    lemma_quad(5, e, 0xdcc563eae622665547ebfeda0d6f48196b377acb6b5d9f8dfd3be1d46eabbbaint, 0, vesta_modulus());
    let e: nat = 4 * e + 0;
    assert(quad(0x1ee9795379305f6451405a0dbee3f16c240bb54688352efa19a3b76af1acf2d2int, 5, 3, vesta_modulus()) == 0x1550b9eefe842226de2a9aeaa8576e1be67037bb96ffac0f0b0a98711401d2d8int) by (nonlinear_arith);
    lemma_quad(5, e, 0x1ee9795379305f6451405a0dbee3f16c240bb54688352efa19a3b76af1acf2d2int, 3, vesta_modulus());
    let e: nat = 4 * e + 3;
    assert(quad(0x1550b9eefe842226de2a9aeaa8576e1be67037bb96ffac0f0b0a98711401d2d8int, 5, 1, vesta_modulus()) == 0x81160619c452664359abb0474a37bb2b26a12b89d1d03c52cc2828b91328ff7int) by (nonlinear_arith);
    lemma_quad(5, e, 0x1550b9eefe842226de2a9aeaa8576e1be67037bb96ffac0f0b0a98711401d2d8int, 1, vesta_modulus());
    let e: nat = 4 * e + 1;
    assert(quad(0x81160619c452664359abb0474a37bb2b26a12b89d1d03c52cc2828b91328ff7int, 5, 3, vesta_modulus()) == 0x1ea8c2898fd584541a7e09cb6f5b4426e6879dd1fceabe20b29bf55fdf9941bbint) by (nonlinear_arith);
    lemma_quad(5, e, 0x81160619c452664359abb0474a37bb2b26a12b89d1d03c52cc2828b91328ff7int, 3, vesta_modulus());
    let e: nat = 4 * e + 3;
    assert(quad(0x1ea8c2898fd584541a7e09cb6f5b4426e6879dd1fceabe20b29bf55fdf9941bbint, 5, 1, vesta_modulus()) == 0x3bc079cb24014edcf059f58ec104bb2c5557708f5c881580b178897017c80797int) by (nonlinear_arith);
    lemma_quad(5, e, 0x1ea8c2898fd584541a7e09cb6f5b4426e6879dd1fceabe20b29bf55fdf9941bbint, 1, vesta_modulus());
    let e: nat = 4 * e + 1;
    assert(quad(0x3bc079cb24014edcf059f58ec104bb2c5557708f5c881580b178897017c80797int, 5, 2, vesta_modulus()) == 0x112209c37c8dbf98ecc2889da7831d6fe88895db5c6e7dd86d9dc4bb5c048243int) by (nonlinear_arith);
    lemma_quad(5, e, 0x3bc079cb24014edcf059f58ec104bb2c5557708f5c881580b178897017c80797int, 2, vesta_modulus());
    let e: nat = 4 * e + 2;
    assert(quad(0x112209c37c8dbf98ecc2889da7831d6fe88895db5c6e7dd86d9dc4bb5c048243int, 5, 0, vesta_modulus()) == 0x298173b891b39d87255ac8546b9b0e8c0e4778c3582b11917d6741e832f84ca1int) by (nonlinear_arith);
    lemma_quad(5, e, 0x112209c37c8dbf98ecc2889da7831d6fe88895db5c6e7dd86d9dc4bb5c048243int, 0, vesta_modulus());
    let e: nat = 4 * e + 0;
    assert(quad(0x298173b891b39d87255ac8546b9b0e8c0e4778c3582b11917d6741e832f84ca1int, 5, 3, vesta_modulus()) == 0x8635c22c7563c125b3524626ab1875b9aec508047f3271c7937ce2a1a2588bfint) by (nonlinear_arith);
    lemma_quad(5, e, 0x298173b891b39d87255ac8546b9b0e8c0e4778c3582b11917d6741e832f84ca1int, 3, vesta_modulus());
    let e: nat = 4 * e + 3;
    assert(quad(0x8635c22c7563c125b3524626ab1875b9aec508047f3271c7937ce2a1a2588bfint, 5, 0, vesta_modulus()) == 0x2bf2b575b0aedec2f60ec1b8eebbbcd15e39e17919bd659409925c104ee48402int) by (nonlinear_arith);
    lemma_quad(5, e, 0x8635c22c7563c125b3524626ab1875b9aec508047f3271c7937ce2a1a2588bfint, 0, vesta_modulus());
    let e: nat = 4 * e + 0;
    assert(quad(0x2bf2b575b0aedec2f60ec1b8eebbbcd15e39e17919bd659409925c104ee48402int, 5, 1, vesta_modulus()) == 0x224649292534751677fb46a0cf8a392a84b99ffadadaf44aca818b12d48db567int) by (nonlinear_arith);
    lemma_quad(5, e, 0x2bf2b575b0aedec2f60ec1b8eebbbcd15e39e17919bd659409925c104ee48402int, 1, vesta_modulus());
    let e: nat = 4 * e + 1;
    assert(quad(0x224649292534751677fb46a0cf8a392a84b99ffadadaf44aca818b12d48db567int, 5, 0, vesta_modulus()) == 0x12c760037a902c477fd8cd71e3e382845f9d9884c24508582b2ddf58210a5fd0int) by (nonlinear_arith);
    lemma_quad(5, e, 0x224649292534751677fb46a0cf8a392a84b99ffadadaf44aca818b12d48db567int, 0, vesta_modulus());
    let e: nat = 4 * e + 0;
    assert(quad(0x12c760037a902c477fd8cd71e3e382845f9d9884c24508582b2ddf58210a5fd0int, 5, 1, vesta_modulus()) == 0x28852f38418ac9b73f20fe2c87f64c791167319f50fed5e759cf4d6acf7ed8aaint) by (nonlinear_arith);
    lemma_quad(5, e, 0x12c760037a902c477fd8cd71e3e382845f9d9884c24508582b2ddf58210a5fd0int, 1, vesta_modulus());
    let e: nat = 4 * e + 1;
    assert(quad(0x28852f38418ac9b73f20fe2c87f64c791167319f50fed5e759cf4d6acf7ed8aaint, 5, 2, vesta_modulus()) == 0x24da6f90c21e7070b3b9f8c78d5e20c702b66218ea63843b7759d89c3fafbb2dint) by (nonlinear_arith);
    lemma_quad(5, e, 0x28852f38418ac9b73f20fe2c87f64c791167319f50fed5e759cf4d6acf7ed8aaint, 2, vesta_modulus());
    let e: nat = 4 * e + 2;
    assert(quad(0x24da6f90c21e7070b3b9f8c78d5e20c702b66218ea63843b7759d89c3fafbb2dint, 5, 3, vesta_modulus()) == 0x1ce5e7bb7cec8f9138b34f20c69f067f4409f374afece9d6c2f93a6daa385074int) by (nonlinear_arith);
    lemma_quad(5, e, 0x24da6f90c21e7070b3b9f8c78d5e20c702b66218ea63843b7759d89c3fafbb2dint, 3, vesta_modulus());
    let e: nat = 4 * e + 3;
    assert(quad(0x1ce5e7bb7cec8f9138b34f20c69f067f4409f374afece9d6c2f93a6daa385074int, 5, 2, vesta_modulus()) == 0x1caec07cd13940a031e07afc8af3deb72969b0317fe8998b1ec5aca1a94f53c3int) by (nonlinear_arith);
    lemma_quad(5, e, 0x1ce5e7bb7cec8f9138b34f20c69f067f4409f374afece9d6c2f93a6daa385074int, 2, vesta_modulus());
    let e: nat = 4 * e + 2;
    assert(quad(0x1caec07cd13940a031e07afc8af3deb72969b0317fe8998b1ec5aca1a94f53c3int, 5, 2, vesta_modulus()) == 0x1351d601520cfefcfb0a225bc6b292c88ec7b0624ba0c10f7138656737bf93a0int) by (nonlinear_arith);
    lemma_quad(5, e, 0x1caec07cd13940a031e07afc8af3deb72969b0317fe8998b1ec5aca1a94f53c3int, 2, vesta_modulus());
    let e: nat = 4 * e + 2;
    assert(quad(0x1351d601520cfefcfb0a225bc6b292c88ec7b0624ba0c10f7138656737bf93a0int, 5, 3, vesta_modulus()) == 0x1a519bdd711d1109ce98998ec598f968ab6fc787bb5522a9b358f6cd017cf098int) by (nonlinear_arith);
    lemma_quad(5, e, 0x1351d601520cfefcfb0a225bc6b292c88ec7b0624ba0c10f7138656737bf93a0int, 3, vesta_modulus());
    let e: nat = 4 * e + 3;
    assert(quad(0x1a519bdd711d1109ce98998ec598f968ab6fc787bb5522a9b358f6cd017cf098int, 5, 0, vesta_modulus()) == 0x284093d83e45c4cb9b0f16aab75257ab1cc2da3ee4b249791cac8bb36a22355aint) by (nonlinear_arith);
    lemma_quad(5, e, 0x1a519bdd711d1109ce98998ec598f968ab6fc787bb5522a9b358f6cd017cf098int, 0, vesta_modulus());
    let e: nat = 4 * e + 0;
    assert(quad(0x284093d83e45c4cb9b0f16aab75257ab1cc2da3ee4b249791cac8bb36a22355aint, 5, 2, vesta_modulus()) == 0xba87ceffebf805b08d71569f7b9ee5d5c18fc6a4b06f323d845bc2067438b2eint) by (nonlinear_arith);
    lemma_quad(5, e, 0x284093d83e45c4cb9b0f16aab75257ab1cc2da3ee4b249791cac8bb36a22355aint, 2, vesta_modulus());
    let e: nat = 4 * e + 2;
    assert(quad(0xba87ceffebf805b08d71569f7b9ee5d5c18fc6a4b06f323d845bc2067438b2eint, 5, 0, vesta_modulus()) == 0x35c739ce31d527732135de50e6b3af0dafee62aac343e0706f472b83271f8d4fint) by (nonlinear_arith);
    lemma_quad(5, e, 0xba87ceffebf805b08d71569f7b9ee5d5c18fc6a4b06f323d845bc2067438b2eint, 0, vesta_modulus());
    let e: nat = 4 * e + 0;
    assert(quad(0x35c739ce31d527732135de50e6b3af0dafee62aac343e0706f472b83271f8d4fint, 5, 1, vesta_modulus()) == 0x2de6a9b8746d3f589e5c4dfd492ae26e9bb97ea3c106f049a70e2c1102b6d05fint) by (nonlinear_arith);
    lemma_quad(5, e, 0x35c739ce31d527732135de50e6b3af0dafee62aac343e0706f472b83271f8d4fint, 1, vesta_modulus());
    let e: nat = 4 * e + 1;
    assert(e == 0x40000000000000000000000000000000224698fc0994a8dd8c46eb21int);
}

/// The power of the root to two to the 31 is minus one.
proof fn lemma_vesta_root_order()
    ensures
        pow(0x2de6a9b8746d3f589e5c4dfd492ae26e9bb97ea3c106f049a70e2c1102b6d05fint, 0x8000_0000) % vesta_modulus() == vesta_modulus() - 1,
{
    let a: int = 0x2de6a9b8746d3f589e5c4dfd492ae26e9bb97ea3c106f049a70e2c1102b6d05fint;
    lemma_pow1(a);
    lemma_small_mod(0x2de6a9b8746d3f589e5c4dfd492ae26e9bb97ea3c106f049a70e2c1102b6d05fnat, vesta_modulus() as nat);
    let e: nat = 1;
    assert(quad(0x2de6a9b8746d3f589e5c4dfd492ae26e9bb97ea3c106f049a70e2c1102b6d05fint, 0x2de6a9b8746d3f589e5c4dfd492ae26e9bb97ea3c106f049a70e2c1102b6d05fint, 0, vesta_modulus()) == 0x29839b52d5dcf6b3b46faf306087325a425f8ef6d5daf4fc666cd37450354bfdint) by (nonlinear_arith);
    lemma_quad(a, e, 0x2de6a9b8746d3f589e5c4dfd492ae26e9bb97ea3c106f049a70e2c1102b6d05fint, 0, vesta_modulus());
    let e: nat = 4 * e;
    assert(quad(0x29839b52d5dcf6b3b46faf306087325a425f8ef6d5daf4fc666cd37450354bfdint, 0x2de6a9b8746d3f589e5c4dfd492ae26e9bb97ea3c106f049a70e2c1102b6d05fint, 0, vesta_modulus()) == 0x3259338dfd6b479b91721c69a97084189cf843b3fae516cae8316602c44f2989int) by (nonlinear_arith);
    lemma_quad(a, e, 0x29839b52d5dcf6b3b46faf306087325a425f8ef6d5daf4fc666cd37450354bfdint, 0, vesta_modulus());
    let e: nat = 4 * e;
    assert(quad(0x3259338dfd6b479b91721c69a97084189cf843b3fae516cae8316602c44f2989int, 0x2de6a9b8746d3f589e5c4dfd492ae26e9bb97ea3c106f049a70e2c1102b6d05fint, 0, vesta_modulus()) == 0xf769a6248dc291bfebb3fe0a98b24be3b1462bcca508eefde7fff0de2fef236int) by (nonlinear_arith);
    lemma_quad(a, e, 0x3259338dfd6b479b91721c69a97084189cf843b3fae516cae8316602c44f2989int, 0, vesta_modulus());
    let e: nat = 4 * e;
    assert(quad(0xf769a6248dc291bfebb3fe0a98b24be3b1462bcca508eefde7fff0de2fef236int, 0x2de6a9b8746d3f589e5c4dfd492ae26e9bb97ea3c106f049a70e2c1102b6d05fint, 0, vesta_modulus()) == 0x144e6eba6d684acf84e02261743f788b2ae72b37bffdb012102c8c2f7fa53afeint) by (nonlinear_arith);
    lemma_quad(a, e, 0xf769a6248dc291bfebb3fe0a98b24be3b1462bcca508eefde7fff0de2fef236int, 0, vesta_modulus());
    let e: nat = 4 * e;
    assert(quad(0x144e6eba6d684acf84e02261743f788b2ae72b37bffdb012102c8c2f7fa53afeint, 0x2de6a9b8746d3f589e5c4dfd492ae26e9bb97ea3c106f049a70e2c1102b6d05fint, 0, vesta_modulus()) == 0x347db234f82ecdd103d137276806465f588fade0760e9fd69a9dd83047ee3450int) by (nonlinear_arith);
    lemma_quad(a, e, 0x144e6eba6d684acf84e02261743f788b2ae72b37bffdb012102c8c2f7fa53afeint, 0, vesta_modulus());
    let e: nat = 4 * e;
    assert(quad(0x347db234f82ecdd103d137276806465f588fade0760e9fd69a9dd83047ee3450int, 0x2de6a9b8746d3f589e5c4dfd492ae26e9bb97ea3c106f049a70e2c1102b6d05fint, 0, vesta_modulus()) == 0x19e9df871f6c4b14a3615751d1f43923b5f9ce8d08f92d2629c2afb67fb34869int) by (nonlinear_arith);
    lemma_quad(a, e, 0x347db234f82ecdd103d137276806465f588fade0760e9fd69a9dd83047ee3450int, 0, vesta_modulus());
    let e: nat = 4 * e;
    assert(quad(0x19e9df871f6c4b14a3615751d1f43923b5f9ce8d08f92d2629c2afb67fb34869int, 0x2de6a9b8746d3f589e5c4dfd492ae26e9bb97ea3c106f049a70e2c1102b6d05fint, 0, vesta_modulus()) == 0x18c8fb7d71146b9efc57b4553b1d6ac967ed98779b8f28bf8d205918a75258f4int) by (nonlinear_arith);
    lemma_quad(a, e, 0x19e9df871f6c4b14a3615751d1f43923b5f9ce8d08f92d2629c2afb67fb34869int, 0, vesta_modulus());
    let e: nat = 4 * e;
    assert(quad(0x18c8fb7d71146b9efc57b4553b1d6ac967ed98779b8f28bf8d205918a75258f4int, 0x2de6a9b8746d3f589e5c4dfd492ae26e9bb97ea3c106f049a70e2c1102b6d05fint, 0, vesta_modulus()) == 0x385e22fc1565ebd8a13142cc27b8876f05ec017404d761eff3a89df3fe315f99int) by (nonlinear_arith);
    lemma_quad(a, e, 0x18c8fb7d71146b9efc57b4553b1d6ac967ed98779b8f28bf8d205918a75258f4int, 0, vesta_modulus());
    let e: nat = 4 * e;
    assert(quad(0x385e22fc1565ebd8a13142cc27b8876f05ec017404d761eff3a89df3fe315f99int, 0x2de6a9b8746d3f589e5c4dfd492ae26e9bb97ea3c106f049a70e2c1102b6d05fint, 0, vesta_modulus()) == 0x1e5587687024253bb079b38d9c5371594958e496c605d3bd898b34d068afbee7int) by (nonlinear_arith);
    lemma_quad(a, e, 0x385e22fc1565ebd8a13142cc27b8876f05ec017404d761eff3a89df3fe315f99int, 0, vesta_modulus());
    let e: nat = 4 * e;
    assert(quad(0x1e5587687024253bb079b38d9c5371594958e496c605d3bd898b34d068afbee7int, 0x2de6a9b8746d3f589e5c4dfd492ae26e9bb97ea3c106f049a70e2c1102b6d05fint, 0, vesta_modulus()) == 0xd22c941a0b04b71d4ce80179437306907072be91feb7c9acf2eecbb96072570int) by (nonlinear_arith);
    lemma_quad(a, e, 0x1e5587687024253bb079b38d9c5371594958e496c605d3bd898b34d068afbee7int, 0, vesta_modulus());
    let e: nat = 4 * e;
    assert(quad(0xd22c941a0b04b71d4ce80179437306907072be91feb7c9acf2eecbb96072570int, 0x2de6a9b8746d3f589e5c4dfd492ae26e9bb97ea3c106f049a70e2c1102b6d05fint, 0, vesta_modulus()) == 0xd54c4d29ccd1de47f696cf29c89c9412a5e63e992d309699776a573c157dc6aint) by (nonlinear_arith);
    lemma_quad(a, e, 0xd22c941a0b04b71d4ce80179437306907072be91feb7c9acf2eecbb96072570int, 0, vesta_modulus());
    let e: nat = 4 * e;
    assert(quad(0xd54c4d29ccd1de47f696cf29c89c9412a5e63e992d309699776a573c157dc6aint, 0x2de6a9b8746d3f589e5c4dfd492ae26e9bb97ea3c106f049a70e2c1102b6d05fint, 0, vesta_modulus()) == 0xa81955d1b842bf9baa32f613be2e8a90afad96d7d4dabe3fb0d5b1b6b26f170int) by (nonlinear_arith);
    lemma_quad(a, e, 0xd54c4d29ccd1de47f696cf29c89c9412a5e63e992d309699776a573c157dc6aint, 0, vesta_modulus());
    let e: nat = 4 * e;
    assert(quad(0xa81955d1b842bf9baa32f613be2e8a90afad96d7d4dabe3fb0d5b1b6b26f170int, 0x2de6a9b8746d3f589e5c4dfd492ae26e9bb97ea3c106f049a70e2c1102b6d05fint, 0, vesta_modulus()) == 0x396578a156cd522a7133d40f77cca3c06bceb1fdb09aa3cf2e36062f68e08d79int) by (nonlinear_arith);
    lemma_quad(a, e, 0xa81955d1b842bf9baa32f613be2e8a90afad96d7d4dabe3fb0d5b1b6b26f170int, 0, vesta_modulus());
    let e: nat = 4 * e;
    assert(quad(0x396578a156cd522a7133d40f77cca3c06bceb1fdb09aa3cf2e36062f68e08d79int, 0x2de6a9b8746d3f589e5c4dfd492ae26e9bb97ea3c106f049a70e2c1102b6d05fint, 0, vesta_modulus()) == 0x196249e6016990925bb6031a1cc6ac5dace79f8e05d27d7beb49261266c85a9bint) by (nonlinear_arith);
    lemma_quad(a, e, 0x396578a156cd522a7133d40f77cca3c06bceb1fdb09aa3cf2e36062f68e08d79int, 0, vesta_modulus());
    let e: nat = 4 * e;
    assert(quad(0x196249e6016990925bb6031a1cc6ac5dace79f8e05d27d7beb49261266c85a9bint, 0x2de6a9b8746d3f589e5c4dfd492ae26e9bb97ea3c106f049a70e2c1102b6d05fint, 0, vesta_modulus()) == 0x3691ce115adfa1187d65aa6313c354eb4a146505975fd3435d2f235b4abeb917int) by (nonlinear_arith);
    lemma_quad(a, e, 0x196249e6016990925bb6031a1cc6ac5dace79f8e05d27d7beb49261266c85a9bint, 0, vesta_modulus());
    let e: nat = 4 * e;
    assert(e == 0x4000_0000);
    lemma_pow_adds(a, e, e);
    lemma_mul_mod_noop_general(pow(a, e), pow(a, e), vesta_modulus());
    assert((0x3691ce115adfa1187d65aa6313c354eb4a146505975fd3435d2f235b4abeb917int * 0x3691ce115adfa1187d65aa6313c354eb4a146505975fd3435d2f235b4abeb917int) % vesta_modulus() == vesta_modulus() - 1) by (nonlinear_arith);
}

/// The root of unity is the power of the generator five to the odd part of `p - 1`; it has order
/// two to the 32.
pub proof fn lemma_vesta_root()
    ensures
        pow(5, 0x40000000000000000000000000000000224698fc0994a8dd8c46eb21nat) % vesta_modulus() == 0x2de6a9b8746d3f589e5c4dfd492ae26e9bb97ea3c106f049a70e2c1102b6d05fint,
        0x40000000000000000000000000000000224698fc0994a8dd8c46eb21int * 0x1_0000_0000 == vesta_modulus() - 1,
        pow(0x2de6a9b8746d3f589e5c4dfd492ae26e9bb97ea3c106f049a70e2c1102b6d05fint, 0x8000_0000) % vesta_modulus() == vesta_modulus() - 1,
{
    lemma_vesta_root_d();
    lemma_vesta_root_order();
}

} // verus!
