//! The width of the windows is the natural logarithm of the number of terms, rounded up, and the
//! estimated work is linear in the number of terms.
use crate::glv::multiexp::{
    booth_work, chosen_window, default_window, exceeded, is_glv_better, thresholds,
};
use vstd::arithmetic::div_mod::lemma_fundamental_div_mod;
use vstd::arithmetic::power::{lemma_pow0, lemma_pow_positive, pow};
use vstd::arithmetic::power2::{lemma_pow2_unfold, pow2};
use vstd::prelude::*;

verus! {

/// A lower bound of the base of the natural logarithm, in units of ten to the minus twelve.
pub open spec fn lower_e() -> int {
    2_718_281_828_459
}

/// An upper bound of the base of the natural logarithm, in units of ten to the minus twelve.
pub open spec fn upper_e() -> int {
    2_718_281_828_460
}

/// Ten to the twelve.
pub open spec fn unit() -> int {
    1_000_000_000_000
}

proof fn lemma_next_power(b: int, e: nat, v: int, w: int)
    requires
        pow(b, e) == v,
        b * v == w,
    ensures
        pow(b, e + 1) == w,
{
    reveal(pow);
}

proof fn lemma_lower_powers()
    ensures
        pow(lower_e(), 3) == 0xf1c556d6cda00158fdcd65b66170953int,
        pow(lower_e(), 4) == 0x255b89b8b342dc6dfbdc5d57e7e8f1e5ce09667db1int,
        pow(lower_e(), 5) == 0x5c5b949052a1ce8140b0a112c97208de843068a1f720242d10fbint,
        pow(lower_e(), 6) == 0xe455259f3334c12f8e670918779e8d1cd7fec1e5c5aaf10155c282d140f0e9int,
        pow(lower_e(), 7) == 0x2347f8c3f4aeb746cdb58fbf6d80eb1054186178afbd74dcc198a8694ac601256778cf963int,
        pow(lower_e(), 8) == 0x573968a9737fa603e8fe909e2efba695a36a9c0565e6b85c1aabccc48e61840dcdbf56b50bad8c25461int,
        pow(lower_e(), 9) == 0xd7a42b6503eee54aa9f233200aa59d32b377b7a5e3cac77ed471cbbecd34a20d094d2d66a8c4ee679bf6a9b754c8bint,
        pow(lower_e(), 10) == 0x2151f38ab0363c5ddddcc41d37b0e639e003d372ffe0bfb59f36307e214bdb729a82bdaa2274a564101e5e7352db4d75915e5619int,
        pow(lower_e(), 11) == 0x5260484b8956f41e84d7cd10a608a9961019ba5debd98d26b8e330a7e78e6f89bc8faa6742d0615ec890a84da6e12ac9753cc1b9c256afc473int,
        pow(lower_e(), 12) == 0xcba7c755947560f2e4d9e0b44bc7dea5e7ff505d42aa77447a08f29bc6b78a786053c5aa78f6d4ed1f6b8fc80192d2db98bda12109b36adaea79c935b411int,
        pow(lower_e(), 13) == 0x1f77d5a376b2491d84a81aa8e2c8fbea8d84b2daee135b8f1398af423f7d7a843c59533566bae314db04a63fffc15de29e8913a291b464d8882ff64dd4c65e524dbcb1bint,
        pow(lower_e(), 14) == 0x4dcc2418355bf1834a7a90ddcd3ea167cf43d8e72d907c08bc6c5af36b3edca824877573a3227fd5a5c71aeff5998af09cd50e402daf5bc3d5be8664df79f5d546fddd7ffc139bc49int,
        pow(lower_e(), 15) == 0xc055efd93469c4905dc6b563383028eb5ba20c4a913b3e0c3931fff451d9dfb9702ad7469548c59d67f07767696c3465ffbdfa1c26d3bf3a35a22906ba8d298eb1d4a821da3968dff2c1344fa83int,
        pow(lower_e(), 16) == 0x1db81202f2c04fafffa314ee06da630b6c0c631cb72a27435d18d3edc2708b5e7fd59e23b371d20aa82b0ac7b27b71c2f7f1d592c21aa1f65a320f5a99536a850afdbd68f2d907768d8dc359bdbedbaed3ccc1int,
        pow(lower_e(), 17) == 0x497926766c20052dba7156ea4b601d6f82bf929fd89a4be8b0f8c7bff782797c054fa7ff456563f7e410dbd9fb13e63e11115a6146ca91d80806aa5b649a434d62131cb3b68450ee28eb7efa9926fe84e92356deade59cabint,
        pow(lower_e(), 18) == 0xb5a52a2b4d6366678cb60a81ad6742746c0855feb3a1c4889736d90c8fba72bc581d5e24dfc809893c2f3837277e27e578ba81b0b0f66ea0554bfe0db5f7ae3532801b6a1e0788ecf26f017000fa0f6200df8ca77e43280d8b5ff0d379int,
        pow(lower_e(), 19) == 0x1c1131af6896dea534aaaa2dbca7000e2bbcdcc41f2dca26ddeec6e330b5bede150321e43a14c52974fc91be16c32b3d9ba8bf976efc9b7a476ec65b5b324b3bb690d727ef1b09c43f3aa0ae5212897f549da7dc5a1dc5b5a540a68eed1966c352b93int,
        pow(lower_e(), 20) == 0x4563b05c6e2138bd0f73726881109bbd3aca81e6dc838f8bb749fba6e8e00c90b1effce10fdca4a250e1b5787137b8058fe017422c0b934f921c51edc0b3effc3dcc4441cde8b9d1715ed8a5c544d6fb6ecaa156c61daaf49cc82461f8ecc764557bd25a950ce71int,
        pow(lower_e(), 21) == 0xab8c826a1d4fb80b30b4a53afe0f0e397e4ab3bbaaa2032f9142e6e8bfd24b906e6a974d4a8a48ef52b064af01fb1a2f5939c3dff98145ab66c5584bb089afb4cac9acfa9edeb342c3c3b8841787813da6e241bcd89f4af58b9f2aa44270cbac4a050610cac942f77c862d13bint,
        pow(lower_e(), 22) == 0x1a81d286b10d49254ff044a5482003a1daa436cb163fee567237114535fe381fb8decc3f94ca1d98cc7df206a659d873c895215c15be7708fef8be6a3fa9c9e0e00465f79eff407232e8d9df77ac9a64b6f3ae8aba2e98bc7b481fa5d426d96e82c2bc67b5929155b50ba71484f76ffa4ba9int,
        pow(lower_e(), 23) == 0x41885647711eb3239e9320df4dc234a54e245f10a51b63095bfffadc57c8145bf4e833051d2850240a37135528f2f27e4abe79172c569fa6bb167e5f7d5df003bcf177f7e57829302110b7ea994885ececf05a3f5e3880acb6f9081b83909255c366df87f01f57e4d1ca4faed7eefbd558e6d84e9be7a3int,
{
    lemma_pow0(lower_e());
    assert(0x278e639086bint * 0x1int == 0x278e639086bint) by (nonlinear_arith);
    lemma_next_power(lower_e(), 0, 0x1int, 0x278e639086bint);
    assert(0x278e639086bint * 0x278e639086bint == 0x61cb188a4182503ecdcb9int) by (nonlinear_arith);
    lemma_next_power(lower_e(), 1, 0x278e639086bint, 0x61cb188a4182503ecdcb9int);
    assert(0x278e639086bint * 0x61cb188a4182503ecdcb9int == 0xf1c556d6cda00158fdcd65b66170953int) by (nonlinear_arith);
    lemma_next_power(lower_e(), 2, 0x61cb188a4182503ecdcb9int, 0xf1c556d6cda00158fdcd65b66170953int);
    assert(0x278e639086bint * 0xf1c556d6cda00158fdcd65b66170953int == 0x255b89b8b342dc6dfbdc5d57e7e8f1e5ce09667db1int) by (nonlinear_arith);
    lemma_next_power(lower_e(), 3, 0xf1c556d6cda00158fdcd65b66170953int, 0x255b89b8b342dc6dfbdc5d57e7e8f1e5ce09667db1int);
    assert(0x278e639086bint * 0x255b89b8b342dc6dfbdc5d57e7e8f1e5ce09667db1int == 0x5c5b949052a1ce8140b0a112c97208de843068a1f720242d10fbint) by (nonlinear_arith);
    lemma_next_power(lower_e(), 4, 0x255b89b8b342dc6dfbdc5d57e7e8f1e5ce09667db1int, 0x5c5b949052a1ce8140b0a112c97208de843068a1f720242d10fbint);
    assert(0x278e639086bint * 0x5c5b949052a1ce8140b0a112c97208de843068a1f720242d10fbint == 0xe455259f3334c12f8e670918779e8d1cd7fec1e5c5aaf10155c282d140f0e9int) by (nonlinear_arith);
    lemma_next_power(lower_e(), 5, 0x5c5b949052a1ce8140b0a112c97208de843068a1f720242d10fbint, 0xe455259f3334c12f8e670918779e8d1cd7fec1e5c5aaf10155c282d140f0e9int);
    assert(0x278e639086bint * 0xe455259f3334c12f8e670918779e8d1cd7fec1e5c5aaf10155c282d140f0e9int == 0x2347f8c3f4aeb746cdb58fbf6d80eb1054186178afbd74dcc198a8694ac601256778cf963int) by (nonlinear_arith);
    lemma_next_power(lower_e(), 6, 0xe455259f3334c12f8e670918779e8d1cd7fec1e5c5aaf10155c282d140f0e9int, 0x2347f8c3f4aeb746cdb58fbf6d80eb1054186178afbd74dcc198a8694ac601256778cf963int);
    assert(0x278e639086bint * 0x2347f8c3f4aeb746cdb58fbf6d80eb1054186178afbd74dcc198a8694ac601256778cf963int == 0x573968a9737fa603e8fe909e2efba695a36a9c0565e6b85c1aabccc48e61840dcdbf56b50bad8c25461int) by (nonlinear_arith);
    lemma_next_power(lower_e(), 7, 0x2347f8c3f4aeb746cdb58fbf6d80eb1054186178afbd74dcc198a8694ac601256778cf963int, 0x573968a9737fa603e8fe909e2efba695a36a9c0565e6b85c1aabccc48e61840dcdbf56b50bad8c25461int);
    assert(0x278e639086bint * 0x573968a9737fa603e8fe909e2efba695a36a9c0565e6b85c1aabccc48e61840dcdbf56b50bad8c25461int == 0xd7a42b6503eee54aa9f233200aa59d32b377b7a5e3cac77ed471cbbecd34a20d094d2d66a8c4ee679bf6a9b754c8bint) by (nonlinear_arith);
    lemma_next_power(lower_e(), 8, 0x573968a9737fa603e8fe909e2efba695a36a9c0565e6b85c1aabccc48e61840dcdbf56b50bad8c25461int, 0xd7a42b6503eee54aa9f233200aa59d32b377b7a5e3cac77ed471cbbecd34a20d094d2d66a8c4ee679bf6a9b754c8bint);
    assert(0x278e639086bint * 0xd7a42b6503eee54aa9f233200aa59d32b377b7a5e3cac77ed471cbbecd34a20d094d2d66a8c4ee679bf6a9b754c8bint == 0x2151f38ab0363c5ddddcc41d37b0e639e003d372ffe0bfb59f36307e214bdb729a82bdaa2274a564101e5e7352db4d75915e5619int) by (nonlinear_arith);
    lemma_next_power(lower_e(), 9, 0xd7a42b6503eee54aa9f233200aa59d32b377b7a5e3cac77ed471cbbecd34a20d094d2d66a8c4ee679bf6a9b754c8bint, 0x2151f38ab0363c5ddddcc41d37b0e639e003d372ffe0bfb59f36307e214bdb729a82bdaa2274a564101e5e7352db4d75915e5619int);
    assert(0x278e639086bint * 0x2151f38ab0363c5ddddcc41d37b0e639e003d372ffe0bfb59f36307e214bdb729a82bdaa2274a564101e5e7352db4d75915e5619int == 0x5260484b8956f41e84d7cd10a608a9961019ba5debd98d26b8e330a7e78e6f89bc8faa6742d0615ec890a84da6e12ac9753cc1b9c256afc473int) by (nonlinear_arith);
    lemma_next_power(lower_e(), 10, 0x2151f38ab0363c5ddddcc41d37b0e639e003d372ffe0bfb59f36307e214bdb729a82bdaa2274a564101e5e7352db4d75915e5619int, 0x5260484b8956f41e84d7cd10a608a9961019ba5debd98d26b8e330a7e78e6f89bc8faa6742d0615ec890a84da6e12ac9753cc1b9c256afc473int);
    assert(0x278e639086bint * 0x5260484b8956f41e84d7cd10a608a9961019ba5debd98d26b8e330a7e78e6f89bc8faa6742d0615ec890a84da6e12ac9753cc1b9c256afc473int == 0xcba7c755947560f2e4d9e0b44bc7dea5e7ff505d42aa77447a08f29bc6b78a786053c5aa78f6d4ed1f6b8fc80192d2db98bda12109b36adaea79c935b411int) by (nonlinear_arith);
    lemma_next_power(lower_e(), 11, 0x5260484b8956f41e84d7cd10a608a9961019ba5debd98d26b8e330a7e78e6f89bc8faa6742d0615ec890a84da6e12ac9753cc1b9c256afc473int, 0xcba7c755947560f2e4d9e0b44bc7dea5e7ff505d42aa77447a08f29bc6b78a786053c5aa78f6d4ed1f6b8fc80192d2db98bda12109b36adaea79c935b411int);
    assert(0x278e639086bint * 0xcba7c755947560f2e4d9e0b44bc7dea5e7ff505d42aa77447a08f29bc6b78a786053c5aa78f6d4ed1f6b8fc80192d2db98bda12109b36adaea79c935b411int == 0x1f77d5a376b2491d84a81aa8e2c8fbea8d84b2daee135b8f1398af423f7d7a843c59533566bae314db04a63fffc15de29e8913a291b464d8882ff64dd4c65e524dbcb1bint) by (nonlinear_arith);
    lemma_next_power(lower_e(), 12, 0xcba7c755947560f2e4d9e0b44bc7dea5e7ff505d42aa77447a08f29bc6b78a786053c5aa78f6d4ed1f6b8fc80192d2db98bda12109b36adaea79c935b411int, 0x1f77d5a376b2491d84a81aa8e2c8fbea8d84b2daee135b8f1398af423f7d7a843c59533566bae314db04a63fffc15de29e8913a291b464d8882ff64dd4c65e524dbcb1bint);
    assert(0x278e639086bint * 0x1f77d5a376b2491d84a81aa8e2c8fbea8d84b2daee135b8f1398af423f7d7a843c59533566bae314db04a63fffc15de29e8913a291b464d8882ff64dd4c65e524dbcb1bint == 0x4dcc2418355bf1834a7a90ddcd3ea167cf43d8e72d907c08bc6c5af36b3edca824877573a3227fd5a5c71aeff5998af09cd50e402daf5bc3d5be8664df79f5d546fddd7ffc139bc49int) by (nonlinear_arith);
    lemma_next_power(lower_e(), 13, 0x1f77d5a376b2491d84a81aa8e2c8fbea8d84b2daee135b8f1398af423f7d7a843c59533566bae314db04a63fffc15de29e8913a291b464d8882ff64dd4c65e524dbcb1bint, 0x4dcc2418355bf1834a7a90ddcd3ea167cf43d8e72d907c08bc6c5af36b3edca824877573a3227fd5a5c71aeff5998af09cd50e402daf5bc3d5be8664df79f5d546fddd7ffc139bc49int);
    assert(0x278e639086bint * 0x4dcc2418355bf1834a7a90ddcd3ea167cf43d8e72d907c08bc6c5af36b3edca824877573a3227fd5a5c71aeff5998af09cd50e402daf5bc3d5be8664df79f5d546fddd7ffc139bc49int == 0xc055efd93469c4905dc6b563383028eb5ba20c4a913b3e0c3931fff451d9dfb9702ad7469548c59d67f07767696c3465ffbdfa1c26d3bf3a35a22906ba8d298eb1d4a821da3968dff2c1344fa83int) by (nonlinear_arith);
    lemma_next_power(lower_e(), 14, 0x4dcc2418355bf1834a7a90ddcd3ea167cf43d8e72d907c08bc6c5af36b3edca824877573a3227fd5a5c71aeff5998af09cd50e402daf5bc3d5be8664df79f5d546fddd7ffc139bc49int, 0xc055efd93469c4905dc6b563383028eb5ba20c4a913b3e0c3931fff451d9dfb9702ad7469548c59d67f07767696c3465ffbdfa1c26d3bf3a35a22906ba8d298eb1d4a821da3968dff2c1344fa83int);
    assert(0x278e639086bint * 0xc055efd93469c4905dc6b563383028eb5ba20c4a913b3e0c3931fff451d9dfb9702ad7469548c59d67f07767696c3465ffbdfa1c26d3bf3a35a22906ba8d298eb1d4a821da3968dff2c1344fa83int == 0x1db81202f2c04fafffa314ee06da630b6c0c631cb72a27435d18d3edc2708b5e7fd59e23b371d20aa82b0ac7b27b71c2f7f1d592c21aa1f65a320f5a99536a850afdbd68f2d907768d8dc359bdbedbaed3ccc1int) by (nonlinear_arith);
    lemma_next_power(lower_e(), 15, 0xc055efd93469c4905dc6b563383028eb5ba20c4a913b3e0c3931fff451d9dfb9702ad7469548c59d67f07767696c3465ffbdfa1c26d3bf3a35a22906ba8d298eb1d4a821da3968dff2c1344fa83int, 0x1db81202f2c04fafffa314ee06da630b6c0c631cb72a27435d18d3edc2708b5e7fd59e23b371d20aa82b0ac7b27b71c2f7f1d592c21aa1f65a320f5a99536a850afdbd68f2d907768d8dc359bdbedbaed3ccc1int);
    assert(0x278e639086bint * 0x1db81202f2c04fafffa314ee06da630b6c0c631cb72a27435d18d3edc2708b5e7fd59e23b371d20aa82b0ac7b27b71c2f7f1d592c21aa1f65a320f5a99536a850afdbd68f2d907768d8dc359bdbedbaed3ccc1int == 0x497926766c20052dba7156ea4b601d6f82bf929fd89a4be8b0f8c7bff782797c054fa7ff456563f7e410dbd9fb13e63e11115a6146ca91d80806aa5b649a434d62131cb3b68450ee28eb7efa9926fe84e92356deade59cabint) by (nonlinear_arith);
    lemma_next_power(lower_e(), 16, 0x1db81202f2c04fafffa314ee06da630b6c0c631cb72a27435d18d3edc2708b5e7fd59e23b371d20aa82b0ac7b27b71c2f7f1d592c21aa1f65a320f5a99536a850afdbd68f2d907768d8dc359bdbedbaed3ccc1int, 0x497926766c20052dba7156ea4b601d6f82bf929fd89a4be8b0f8c7bff782797c054fa7ff456563f7e410dbd9fb13e63e11115a6146ca91d80806aa5b649a434d62131cb3b68450ee28eb7efa9926fe84e92356deade59cabint);
    assert(0x278e639086bint * 0x497926766c20052dba7156ea4b601d6f82bf929fd89a4be8b0f8c7bff782797c054fa7ff456563f7e410dbd9fb13e63e11115a6146ca91d80806aa5b649a434d62131cb3b68450ee28eb7efa9926fe84e92356deade59cabint == 0xb5a52a2b4d6366678cb60a81ad6742746c0855feb3a1c4889736d90c8fba72bc581d5e24dfc809893c2f3837277e27e578ba81b0b0f66ea0554bfe0db5f7ae3532801b6a1e0788ecf26f017000fa0f6200df8ca77e43280d8b5ff0d379int) by (nonlinear_arith);
    lemma_next_power(lower_e(), 17, 0x497926766c20052dba7156ea4b601d6f82bf929fd89a4be8b0f8c7bff782797c054fa7ff456563f7e410dbd9fb13e63e11115a6146ca91d80806aa5b649a434d62131cb3b68450ee28eb7efa9926fe84e92356deade59cabint, 0xb5a52a2b4d6366678cb60a81ad6742746c0855feb3a1c4889736d90c8fba72bc581d5e24dfc809893c2f3837277e27e578ba81b0b0f66ea0554bfe0db5f7ae3532801b6a1e0788ecf26f017000fa0f6200df8ca77e43280d8b5ff0d379int);
    assert(0x278e639086bint * 0xb5a52a2b4d6366678cb60a81ad6742746c0855feb3a1c4889736d90c8fba72bc581d5e24dfc809893c2f3837277e27e578ba81b0b0f66ea0554bfe0db5f7ae3532801b6a1e0788ecf26f017000fa0f6200df8ca77e43280d8b5ff0d379int == 0x1c1131af6896dea534aaaa2dbca7000e2bbcdcc41f2dca26ddeec6e330b5bede150321e43a14c52974fc91be16c32b3d9ba8bf976efc9b7a476ec65b5b324b3bb690d727ef1b09c43f3aa0ae5212897f549da7dc5a1dc5b5a540a68eed1966c352b93int) by (nonlinear_arith);
    lemma_next_power(lower_e(), 18, 0xb5a52a2b4d6366678cb60a81ad6742746c0855feb3a1c4889736d90c8fba72bc581d5e24dfc809893c2f3837277e27e578ba81b0b0f66ea0554bfe0db5f7ae3532801b6a1e0788ecf26f017000fa0f6200df8ca77e43280d8b5ff0d379int, 0x1c1131af6896dea534aaaa2dbca7000e2bbcdcc41f2dca26ddeec6e330b5bede150321e43a14c52974fc91be16c32b3d9ba8bf976efc9b7a476ec65b5b324b3bb690d727ef1b09c43f3aa0ae5212897f549da7dc5a1dc5b5a540a68eed1966c352b93int);
    assert(0x278e639086bint * 0x1c1131af6896dea534aaaa2dbca7000e2bbcdcc41f2dca26ddeec6e330b5bede150321e43a14c52974fc91be16c32b3d9ba8bf976efc9b7a476ec65b5b324b3bb690d727ef1b09c43f3aa0ae5212897f549da7dc5a1dc5b5a540a68eed1966c352b93int == 0x4563b05c6e2138bd0f73726881109bbd3aca81e6dc838f8bb749fba6e8e00c90b1effce10fdca4a250e1b5787137b8058fe017422c0b934f921c51edc0b3effc3dcc4441cde8b9d1715ed8a5c544d6fb6ecaa156c61daaf49cc82461f8ecc764557bd25a950ce71int) by (nonlinear_arith);
    lemma_next_power(lower_e(), 19, 0x1c1131af6896dea534aaaa2dbca7000e2bbcdcc41f2dca26ddeec6e330b5bede150321e43a14c52974fc91be16c32b3d9ba8bf976efc9b7a476ec65b5b324b3bb690d727ef1b09c43f3aa0ae5212897f549da7dc5a1dc5b5a540a68eed1966c352b93int, 0x4563b05c6e2138bd0f73726881109bbd3aca81e6dc838f8bb749fba6e8e00c90b1effce10fdca4a250e1b5787137b8058fe017422c0b934f921c51edc0b3effc3dcc4441cde8b9d1715ed8a5c544d6fb6ecaa156c61daaf49cc82461f8ecc764557bd25a950ce71int);
    assert(0x278e639086bint * 0x4563b05c6e2138bd0f73726881109bbd3aca81e6dc838f8bb749fba6e8e00c90b1effce10fdca4a250e1b5787137b8058fe017422c0b934f921c51edc0b3effc3dcc4441cde8b9d1715ed8a5c544d6fb6ecaa156c61daaf49cc82461f8ecc764557bd25a950ce71int == 0xab8c826a1d4fb80b30b4a53afe0f0e397e4ab3bbaaa2032f9142e6e8bfd24b906e6a974d4a8a48ef52b064af01fb1a2f5939c3dff98145ab66c5584bb089afb4cac9acfa9edeb342c3c3b8841787813da6e241bcd89f4af58b9f2aa44270cbac4a050610cac942f77c862d13bint) by (nonlinear_arith);
    lemma_next_power(lower_e(), 20, 0x4563b05c6e2138bd0f73726881109bbd3aca81e6dc838f8bb749fba6e8e00c90b1effce10fdca4a250e1b5787137b8058fe017422c0b934f921c51edc0b3effc3dcc4441cde8b9d1715ed8a5c544d6fb6ecaa156c61daaf49cc82461f8ecc764557bd25a950ce71int, 0xab8c826a1d4fb80b30b4a53afe0f0e397e4ab3bbaaa2032f9142e6e8bfd24b906e6a974d4a8a48ef52b064af01fb1a2f5939c3dff98145ab66c5584bb089afb4cac9acfa9edeb342c3c3b8841787813da6e241bcd89f4af58b9f2aa44270cbac4a050610cac942f77c862d13bint);
    assert(0x278e639086bint * 0xab8c826a1d4fb80b30b4a53afe0f0e397e4ab3bbaaa2032f9142e6e8bfd24b906e6a974d4a8a48ef52b064af01fb1a2f5939c3dff98145ab66c5584bb089afb4cac9acfa9edeb342c3c3b8841787813da6e241bcd89f4af58b9f2aa44270cbac4a050610cac942f77c862d13bint == 0x1a81d286b10d49254ff044a5482003a1daa436cb163fee567237114535fe381fb8decc3f94ca1d98cc7df206a659d873c895215c15be7708fef8be6a3fa9c9e0e00465f79eff407232e8d9df77ac9a64b6f3ae8aba2e98bc7b481fa5d426d96e82c2bc67b5929155b50ba71484f76ffa4ba9int) by (nonlinear_arith);
    lemma_next_power(lower_e(), 21, 0xab8c826a1d4fb80b30b4a53afe0f0e397e4ab3bbaaa2032f9142e6e8bfd24b906e6a974d4a8a48ef52b064af01fb1a2f5939c3dff98145ab66c5584bb089afb4cac9acfa9edeb342c3c3b8841787813da6e241bcd89f4af58b9f2aa44270cbac4a050610cac942f77c862d13bint, 0x1a81d286b10d49254ff044a5482003a1daa436cb163fee567237114535fe381fb8decc3f94ca1d98cc7df206a659d873c895215c15be7708fef8be6a3fa9c9e0e00465f79eff407232e8d9df77ac9a64b6f3ae8aba2e98bc7b481fa5d426d96e82c2bc67b5929155b50ba71484f76ffa4ba9int);
    assert(0x278e639086bint * 0x1a81d286b10d49254ff044a5482003a1daa436cb163fee567237114535fe381fb8decc3f94ca1d98cc7df206a659d873c895215c15be7708fef8be6a3fa9c9e0e00465f79eff407232e8d9df77ac9a64b6f3ae8aba2e98bc7b481fa5d426d96e82c2bc67b5929155b50ba71484f76ffa4ba9int == 0x41885647711eb3239e9320df4dc234a54e245f10a51b63095bfffadc57c8145bf4e833051d2850240a37135528f2f27e4abe79172c569fa6bb167e5f7d5df003bcf177f7e57829302110b7ea994885ececf05a3f5e3880acb6f9081b83909255c366df87f01f57e4d1ca4faed7eefbd558e6d84e9be7a3int) by (nonlinear_arith);
    lemma_next_power(lower_e(), 22, 0x1a81d286b10d49254ff044a5482003a1daa436cb163fee567237114535fe381fb8decc3f94ca1d98cc7df206a659d873c895215c15be7708fef8be6a3fa9c9e0e00465f79eff407232e8d9df77ac9a64b6f3ae8aba2e98bc7b481fa5d426d96e82c2bc67b5929155b50ba71484f76ffa4ba9int, 0x41885647711eb3239e9320df4dc234a54e245f10a51b63095bfffadc57c8145bf4e833051d2850240a37135528f2f27e4abe79172c569fa6bb167e5f7d5df003bcf177f7e57829302110b7ea994885ececf05a3f5e3880acb6f9081b83909255c366df87f01f57e4d1ca4faed7eefbd558e6d84e9be7a3int);
}

proof fn lemma_upper_powers()
    ensures
        pow(upper_e(), 3) == 0xf1c556d6cec562a29c926352488b8c0int,
        pow(upper_e(), 4) == 0x255b89b8b37f4dc3b18fea04675c3dd9fd5233f100int,
        pow(upper_e(), 5) == 0x5c5b9490535c9831dc31867c45a397725b7eea64d186f671ac00int,
        pow(upper_e(), 6) == 0xe455259f355ee6aaf059044c90f532fc69d5bc85d89ac05a2c3c7ad1549000int,
        pow(upper_e(), 7) == 0x2347f8c3f5129c87435c700c254ca4ea66139fc68314c82d91f446d5c04bb6f8f042cc000int,
        pow(upper_e(), 8) == 0x573968a97499e5ca08a595ed673fedf33171d5b412358ba7d1c95bb683c08c1e0007da1aaede8e10000int,
        pow(upper_e(), 9) == 0xd7a42b6506ffe9f89f06a6152964fd88c81901d909bc58b83c22e7322b752ca2efd3b38e3b809c7368bbe46ec0000int,
        pow(upper_e(), 10) == 0x2151f38ab0bd02f8fd002ebdfcb7b37972bf37ed0ffa3a8f957bb72b2f24c703ff76536ccd3748f3afa34ccae716b9094b900000int,
        pow(upper_e(), 11) == 0x5260484b8ac579957a6d06ed03bc670c05b64fece4444ef24fa316d2f7e5ae7b8d9d423a926c9c0ec416cecb90182f6a124bd38d5860c00000int,
        pow(upper_e(), 12) == 0xcba7c7559851e4566f528b4683c375d3514f983b7a44e0376a51697b5c503c86ac3952caaa832338214676f9c61a93783a91efc9375d53446f0ed1000000int,
        pow(upper_e(), 13) == 0x1f77d5a37757c16f7a324b9d08932ccc9ef85bec004f977b87feae88c249d216ba519f9fbacead5fe3d73c70cee34a70cc9da7e193b1f00302778914669d9c82c000000int,
        pow(upper_e(), 14) == 0x4dcc241837147f323afcd727a836968ab17d02c1ce17f7b45c11bebe80b626251071ac3b54620ea1bc8106754b68cf1204726096ceeaf627771a8eb57bf58d4e4f88fedd290000000int,
        pow(upper_e(), 15) == 0xc055efd938f8baadc8f400b089991d27caf8b27bd3504f29592f897a97c72ee6b861b13cab767085ee99ba10398b3f8cb25c10204b46d052fcf02cc589eda5f065241c0bfe7fd68f954c0000000int,
        pow(upper_e(), 16) == 0x1db81202f380a59fd8d9c62da5edbe3fc4d29b1ce8e122eccec9c0ba7fb90be5d8a2db35fdd1bb50c10772f3d6887bfcf16829571a490fc7ec95b0b1c4a2b51f21f3bfbb86d1d086cb7b65d87295c100000000int,
        pow(upper_e(), 17) == 0x497926766e193e5fec967f0f72103c40bbfd353aad0c2aaf9952a93cdc543f32fea34cee3c6a648c0f6f210202f6b799cf9acf9a9f739d9d9392ef48adfc9a34f4287e46aef2af122a507fc98eb91641a2fe356c00000000int,
        pow(upper_e(), 18) == 0xb5a52a2b528deb1be0620de1a84675d1a44d26333e000f21bb2b62b49390a611fe1bcb9717d9472a31236d8fef751b928c8dc7191735e8e794df1e0536f4939a9df88132efcb12ad7527a5a55040fe38bd4f690201a1f5e99000000000int,
        pow(upper_e(), 19) == 0x1c1131af696e92c74819a17622afc2d8b8d6529759454ffee6fe846c537d546159f3f23c9a5068fd1f6e9e497ffb5aa51d87a30689ae6905d47ec2835dfd16632b298a48052edfe0c33bc02f19b3243eb32d41fc1d48f895580d8641b08c000000000int,
        pow(upper_e(), 20) == 0x4563b05c7052909ec3a7a8d6bdf03c782589aa94c56e04363beb5ebbd4540cc15c763edc71eb21e18400e45b0ff37e2d0a47054e63c50b9ba4c102e464fa0ebea532e1db78cc428e016abb142bc90bb2ea2f60b4d180bf7c8d8a4dbd8f54c4c866db10000000000int,
        pow(upper_e(), 21) == 0xab8c826a2300e582c5d464fd42378d59f5b7946e0c2f83d01a518626f9aa571d6907e66f7dfdc3ab187244496fc13dfeaf4542d56d78ac97bc67a9fe3baa6be716d07042a8f92fdc373ea29297ce08cfd93f61faa0795780065fa25e95800799dce7c07ee8cceac0000000000int,
        pow(upper_e(), 22) == 0x1a81d286b1f92a58a1dc7c1199b97c9225d94db868a66d6df90ea686783e619820bc4000aba1308cca9b8539508f629a6f381a05c49ff18befdd5474f5948fc718276cd3c0a2d47198af6eaff89ef2dd48183226a59ca57ee70bb411ae2e2de88c25c1da3ab0b16a75962890900000000000int,
        pow(upper_e(), 23) == 0x4188564773805d0db885eb0f761ed84d402128a74f190d87ef610c5406455c359fe6645a4641b3e9bbeed69d8b5fe52e78be61d5bd1147f4ac9f18096f457463c8c3875810783d2eeaa8e70ba16c6cede2b86bf975e9e48b5604fc49cad2ff208810d255cf6c846975b923685ab62db17cc00000000000int,
{
    lemma_pow0(upper_e());
    assert(0x278e639086cint * 0x1int == 0x278e639086cint) by (nonlinear_arith);
    lemma_next_power(upper_e(), 0, 0x1int, 0x278e639086cint);
    assert(0x278e639086cint * 0x278e639086cint == 0x61cb188a41d16d05eed90int) by (nonlinear_arith);
    lemma_next_power(upper_e(), 1, 0x278e639086cint, 0x61cb188a41d16d05eed90int);
    assert(0x278e639086cint * 0x61cb188a41d16d05eed90int == 0xf1c556d6cec562a29c926352488b8c0int) by (nonlinear_arith);
    lemma_next_power(upper_e(), 2, 0x61cb188a41d16d05eed90int, 0xf1c556d6cec562a29c926352488b8c0int);
    assert(0x278e639086cint * 0xf1c556d6cec562a29c926352488b8c0int == 0x255b89b8b37f4dc3b18fea04675c3dd9fd5233f100int) by (nonlinear_arith);
    lemma_next_power(upper_e(), 3, 0xf1c556d6cec562a29c926352488b8c0int, 0x255b89b8b37f4dc3b18fea04675c3dd9fd5233f100int);
    assert(0x278e639086cint * 0x255b89b8b37f4dc3b18fea04675c3dd9fd5233f100int == 0x5c5b9490535c9831dc31867c45a397725b7eea64d186f671ac00int) by (nonlinear_arith);
    lemma_next_power(upper_e(), 4, 0x255b89b8b37f4dc3b18fea04675c3dd9fd5233f100int, 0x5c5b9490535c9831dc31867c45a397725b7eea64d186f671ac00int);
    assert(0x278e639086cint * 0x5c5b9490535c9831dc31867c45a397725b7eea64d186f671ac00int == 0xe455259f355ee6aaf059044c90f532fc69d5bc85d89ac05a2c3c7ad1549000int) by (nonlinear_arith);
    lemma_next_power(upper_e(), 5, 0x5c5b9490535c9831dc31867c45a397725b7eea64d186f671ac00int, 0xe455259f355ee6aaf059044c90f532fc69d5bc85d89ac05a2c3c7ad1549000int);
    assert(0x278e639086cint * 0xe455259f355ee6aaf059044c90f532fc69d5bc85d89ac05a2c3c7ad1549000int == 0x2347f8c3f5129c87435c700c254ca4ea66139fc68314c82d91f446d5c04bb6f8f042cc000int) by (nonlinear_arith);
    lemma_next_power(upper_e(), 6, 0xe455259f355ee6aaf059044c90f532fc69d5bc85d89ac05a2c3c7ad1549000int, 0x2347f8c3f5129c87435c700c254ca4ea66139fc68314c82d91f446d5c04bb6f8f042cc000int);
    assert(0x278e639086cint * 0x2347f8c3f5129c87435c700c254ca4ea66139fc68314c82d91f446d5c04bb6f8f042cc000int == 0x573968a97499e5ca08a595ed673fedf33171d5b412358ba7d1c95bb683c08c1e0007da1aaede8e10000int) by (nonlinear_arith);
    lemma_next_power(upper_e(), 7, 0x2347f8c3f5129c87435c700c254ca4ea66139fc68314c82d91f446d5c04bb6f8f042cc000int, 0x573968a97499e5ca08a595ed673fedf33171d5b412358ba7d1c95bb683c08c1e0007da1aaede8e10000int);
    assert(0x278e639086cint * 0x573968a97499e5ca08a595ed673fedf33171d5b412358ba7d1c95bb683c08c1e0007da1aaede8e10000int == 0xd7a42b6506ffe9f89f06a6152964fd88c81901d909bc58b83c22e7322b752ca2efd3b38e3b809c7368bbe46ec0000int) by (nonlinear_arith);
    lemma_next_power(upper_e(), 8, 0x573968a97499e5ca08a595ed673fedf33171d5b412358ba7d1c95bb683c08c1e0007da1aaede8e10000int, 0xd7a42b6506ffe9f89f06a6152964fd88c81901d909bc58b83c22e7322b752ca2efd3b38e3b809c7368bbe46ec0000int);
    assert(0x278e639086cint * 0xd7a42b6506ffe9f89f06a6152964fd88c81901d909bc58b83c22e7322b752ca2efd3b38e3b809c7368bbe46ec0000int == 0x2151f38ab0bd02f8fd002ebdfcb7b37972bf37ed0ffa3a8f957bb72b2f24c703ff76536ccd3748f3afa34ccae716b9094b900000int) by (nonlinear_arith);
    lemma_next_power(upper_e(), 9, 0xd7a42b6506ffe9f89f06a6152964fd88c81901d909bc58b83c22e7322b752ca2efd3b38e3b809c7368bbe46ec0000int, 0x2151f38ab0bd02f8fd002ebdfcb7b37972bf37ed0ffa3a8f957bb72b2f24c703ff76536ccd3748f3afa34ccae716b9094b900000int);
    assert(0x278e639086cint * 0x2151f38ab0bd02f8fd002ebdfcb7b37972bf37ed0ffa3a8f957bb72b2f24c703ff76536ccd3748f3afa34ccae716b9094b900000int == 0x5260484b8ac579957a6d06ed03bc670c05b64fece4444ef24fa316d2f7e5ae7b8d9d423a926c9c0ec416cecb90182f6a124bd38d5860c00000int) by (nonlinear_arith);
    lemma_next_power(upper_e(), 10, 0x2151f38ab0bd02f8fd002ebdfcb7b37972bf37ed0ffa3a8f957bb72b2f24c703ff76536ccd3748f3afa34ccae716b9094b900000int, 0x5260484b8ac579957a6d06ed03bc670c05b64fece4444ef24fa316d2f7e5ae7b8d9d423a926c9c0ec416cecb90182f6a124bd38d5860c00000int);
    assert(0x278e639086cint * 0x5260484b8ac579957a6d06ed03bc670c05b64fece4444ef24fa316d2f7e5ae7b8d9d423a926c9c0ec416cecb90182f6a124bd38d5860c00000int == 0xcba7c7559851e4566f528b4683c375d3514f983b7a44e0376a51697b5c503c86ac3952caaa832338214676f9c61a93783a91efc9375d53446f0ed1000000int) by (nonlinear_arith);
    lemma_next_power(upper_e(), 11, 0x5260484b8ac579957a6d06ed03bc670c05b64fece4444ef24fa316d2f7e5ae7b8d9d423a926c9c0ec416cecb90182f6a124bd38d5860c00000int, 0xcba7c7559851e4566f528b4683c375d3514f983b7a44e0376a51697b5c503c86ac3952caaa832338214676f9c61a93783a91efc9375d53446f0ed1000000int);
    assert(0x278e639086cint * 0xcba7c7559851e4566f528b4683c375d3514f983b7a44e0376a51697b5c503c86ac3952caaa832338214676f9c61a93783a91efc9375d53446f0ed1000000int == 0x1f77d5a37757c16f7a324b9d08932ccc9ef85bec004f977b87feae88c249d216ba519f9fbacead5fe3d73c70cee34a70cc9da7e193b1f00302778914669d9c82c000000int) by (nonlinear_arith);
    lemma_next_power(upper_e(), 12, 0xcba7c7559851e4566f528b4683c375d3514f983b7a44e0376a51697b5c503c86ac3952caaa832338214676f9c61a93783a91efc9375d53446f0ed1000000int, 0x1f77d5a37757c16f7a324b9d08932ccc9ef85bec004f977b87feae88c249d216ba519f9fbacead5fe3d73c70cee34a70cc9da7e193b1f00302778914669d9c82c000000int);
    assert(0x278e639086cint * 0x1f77d5a37757c16f7a324b9d08932ccc9ef85bec004f977b87feae88c249d216ba519f9fbacead5fe3d73c70cee34a70cc9da7e193b1f00302778914669d9c82c000000int == 0x4dcc241837147f323afcd727a836968ab17d02c1ce17f7b45c11bebe80b626251071ac3b54620ea1bc8106754b68cf1204726096ceeaf627771a8eb57bf58d4e4f88fedd290000000int) by (nonlinear_arith);
    lemma_next_power(upper_e(), 13, 0x1f77d5a37757c16f7a324b9d08932ccc9ef85bec004f977b87feae88c249d216ba519f9fbacead5fe3d73c70cee34a70cc9da7e193b1f00302778914669d9c82c000000int, 0x4dcc241837147f323afcd727a836968ab17d02c1ce17f7b45c11bebe80b626251071ac3b54620ea1bc8106754b68cf1204726096ceeaf627771a8eb57bf58d4e4f88fedd290000000int);
    assert(0x278e639086cint * 0x4dcc241837147f323afcd727a836968ab17d02c1ce17f7b45c11bebe80b626251071ac3b54620ea1bc8106754b68cf1204726096ceeaf627771a8eb57bf58d4e4f88fedd290000000int == 0xc055efd938f8baadc8f400b089991d27caf8b27bd3504f29592f897a97c72ee6b861b13cab767085ee99ba10398b3f8cb25c10204b46d052fcf02cc589eda5f065241c0bfe7fd68f954c0000000int) by (nonlinear_arith);
    lemma_next_power(upper_e(), 14, 0x4dcc241837147f323afcd727a836968ab17d02c1ce17f7b45c11bebe80b626251071ac3b54620ea1bc8106754b68cf1204726096ceeaf627771a8eb57bf58d4e4f88fedd290000000int, 0xc055efd938f8baadc8f400b089991d27caf8b27bd3504f29592f897a97c72ee6b861b13cab767085ee99ba10398b3f8cb25c10204b46d052fcf02cc589eda5f065241c0bfe7fd68f954c0000000int);
    assert(0x278e639086cint * 0xc055efd938f8baadc8f400b089991d27caf8b27bd3504f29592f897a97c72ee6b861b13cab767085ee99ba10398b3f8cb25c10204b46d052fcf02cc589eda5f065241c0bfe7fd68f954c0000000int == 0x1db81202f380a59fd8d9c62da5edbe3fc4d29b1ce8e122eccec9c0ba7fb90be5d8a2db35fdd1bb50c10772f3d6887bfcf16829571a490fc7ec95b0b1c4a2b51f21f3bfbb86d1d086cb7b65d87295c100000000int) by (nonlinear_arith);
    lemma_next_power(upper_e(), 15, 0xc055efd938f8baadc8f400b089991d27caf8b27bd3504f29592f897a97c72ee6b861b13cab767085ee99ba10398b3f8cb25c10204b46d052fcf02cc589eda5f065241c0bfe7fd68f954c0000000int, 0x1db81202f380a59fd8d9c62da5edbe3fc4d29b1ce8e122eccec9c0ba7fb90be5d8a2db35fdd1bb50c10772f3d6887bfcf16829571a490fc7ec95b0b1c4a2b51f21f3bfbb86d1d086cb7b65d87295c100000000int);
    assert(0x278e639086cint * 0x1db81202f380a59fd8d9c62da5edbe3fc4d29b1ce8e122eccec9c0ba7fb90be5d8a2db35fdd1bb50c10772f3d6887bfcf16829571a490fc7ec95b0b1c4a2b51f21f3bfbb86d1d086cb7b65d87295c100000000int == 0x497926766e193e5fec967f0f72103c40bbfd353aad0c2aaf9952a93cdc543f32fea34cee3c6a648c0f6f210202f6b799cf9acf9a9f739d9d9392ef48adfc9a34f4287e46aef2af122a507fc98eb91641a2fe356c00000000int) by (nonlinear_arith);
    lemma_next_power(upper_e(), 16, 0x1db81202f380a59fd8d9c62da5edbe3fc4d29b1ce8e122eccec9c0ba7fb90be5d8a2db35fdd1bb50c10772f3d6887bfcf16829571a490fc7ec95b0b1c4a2b51f21f3bfbb86d1d086cb7b65d87295c100000000int, 0x497926766e193e5fec967f0f72103c40bbfd353aad0c2aaf9952a93cdc543f32fea34cee3c6a648c0f6f210202f6b799cf9acf9a9f739d9d9392ef48adfc9a34f4287e46aef2af122a507fc98eb91641a2fe356c00000000int);
    assert(0x278e639086cint * 0x497926766e193e5fec967f0f72103c40bbfd353aad0c2aaf9952a93cdc543f32fea34cee3c6a648c0f6f210202f6b799cf9acf9a9f739d9d9392ef48adfc9a34f4287e46aef2af122a507fc98eb91641a2fe356c00000000int == 0xb5a52a2b528deb1be0620de1a84675d1a44d26333e000f21bb2b62b49390a611fe1bcb9717d9472a31236d8fef751b928c8dc7191735e8e794df1e0536f4939a9df88132efcb12ad7527a5a55040fe38bd4f690201a1f5e99000000000int) by (nonlinear_arith);
    lemma_next_power(upper_e(), 17, 0x497926766e193e5fec967f0f72103c40bbfd353aad0c2aaf9952a93cdc543f32fea34cee3c6a648c0f6f210202f6b799cf9acf9a9f739d9d9392ef48adfc9a34f4287e46aef2af122a507fc98eb91641a2fe356c00000000int, 0xb5a52a2b528deb1be0620de1a84675d1a44d26333e000f21bb2b62b49390a611fe1bcb9717d9472a31236d8fef751b928c8dc7191735e8e794df1e0536f4939a9df88132efcb12ad7527a5a55040fe38bd4f690201a1f5e99000000000int);
    assert(0x278e639086cint * 0xb5a52a2b528deb1be0620de1a84675d1a44d26333e000f21bb2b62b49390a611fe1bcb9717d9472a31236d8fef751b928c8dc7191735e8e794df1e0536f4939a9df88132efcb12ad7527a5a55040fe38bd4f690201a1f5e99000000000int == 0x1c1131af696e92c74819a17622afc2d8b8d6529759454ffee6fe846c537d546159f3f23c9a5068fd1f6e9e497ffb5aa51d87a30689ae6905d47ec2835dfd16632b298a48052edfe0c33bc02f19b3243eb32d41fc1d48f895580d8641b08c000000000int) by (nonlinear_arith);
    lemma_next_power(upper_e(), 18, 0xb5a52a2b528deb1be0620de1a84675d1a44d26333e000f21bb2b62b49390a611fe1bcb9717d9472a31236d8fef751b928c8dc7191735e8e794df1e0536f4939a9df88132efcb12ad7527a5a55040fe38bd4f690201a1f5e99000000000int, 0x1c1131af696e92c74819a17622afc2d8b8d6529759454ffee6fe846c537d546159f3f23c9a5068fd1f6e9e497ffb5aa51d87a30689ae6905d47ec2835dfd16632b298a48052edfe0c33bc02f19b3243eb32d41fc1d48f895580d8641b08c000000000int);
    assert(0x278e639086cint * 0x1c1131af696e92c74819a17622afc2d8b8d6529759454ffee6fe846c537d546159f3f23c9a5068fd1f6e9e497ffb5aa51d87a30689ae6905d47ec2835dfd16632b298a48052edfe0c33bc02f19b3243eb32d41fc1d48f895580d8641b08c000000000int == 0x4563b05c7052909ec3a7a8d6bdf03c782589aa94c56e04363beb5ebbd4540cc15c763edc71eb21e18400e45b0ff37e2d0a47054e63c50b9ba4c102e464fa0ebea532e1db78cc428e016abb142bc90bb2ea2f60b4d180bf7c8d8a4dbd8f54c4c866db10000000000int) by (nonlinear_arith);
    lemma_next_power(upper_e(), 19, 0x1c1131af696e92c74819a17622afc2d8b8d6529759454ffee6fe846c537d546159f3f23c9a5068fd1f6e9e497ffb5aa51d87a30689ae6905d47ec2835dfd16632b298a48052edfe0c33bc02f19b3243eb32d41fc1d48f895580d8641b08c000000000int, 0x4563b05c7052909ec3a7a8d6bdf03c782589aa94c56e04363beb5ebbd4540cc15c763edc71eb21e18400e45b0ff37e2d0a47054e63c50b9ba4c102e464fa0ebea532e1db78cc428e016abb142bc90bb2ea2f60b4d180bf7c8d8a4dbd8f54c4c866db10000000000int);
    assert(0x278e639086cint * 0x4563b05c7052909ec3a7a8d6bdf03c782589aa94c56e04363beb5ebbd4540cc15c763edc71eb21e18400e45b0ff37e2d0a47054e63c50b9ba4c102e464fa0ebea532e1db78cc428e016abb142bc90bb2ea2f60b4d180bf7c8d8a4dbd8f54c4c866db10000000000int == 0xab8c826a2300e582c5d464fd42378d59f5b7946e0c2f83d01a518626f9aa571d6907e66f7dfdc3ab187244496fc13dfeaf4542d56d78ac97bc67a9fe3baa6be716d07042a8f92fdc373ea29297ce08cfd93f61faa0795780065fa25e95800799dce7c07ee8cceac0000000000int) by (nonlinear_arith);
    lemma_next_power(upper_e(), 20, 0x4563b05c7052909ec3a7a8d6bdf03c782589aa94c56e04363beb5ebbd4540cc15c763edc71eb21e18400e45b0ff37e2d0a47054e63c50b9ba4c102e464fa0ebea532e1db78cc428e016abb142bc90bb2ea2f60b4d180bf7c8d8a4dbd8f54c4c866db10000000000int, 0xab8c826a2300e582c5d464fd42378d59f5b7946e0c2f83d01a518626f9aa571d6907e66f7dfdc3ab187244496fc13dfeaf4542d56d78ac97bc67a9fe3baa6be716d07042a8f92fdc373ea29297ce08cfd93f61faa0795780065fa25e95800799dce7c07ee8cceac0000000000int);
    assert(0x278e639086cint * 0xab8c826a2300e582c5d464fd42378d59f5b7946e0c2f83d01a518626f9aa571d6907e66f7dfdc3ab187244496fc13dfeaf4542d56d78ac97bc67a9fe3baa6be716d07042a8f92fdc373ea29297ce08cfd93f61faa0795780065fa25e95800799dce7c07ee8cceac0000000000int == 0x1a81d286b1f92a58a1dc7c1199b97c9225d94db868a66d6df90ea686783e619820bc4000aba1308cca9b8539508f629a6f381a05c49ff18befdd5474f5948fc718276cd3c0a2d47198af6eaff89ef2dd48183226a59ca57ee70bb411ae2e2de88c25c1da3ab0b16a75962890900000000000int) by (nonlinear_arith);
    lemma_next_power(upper_e(), 21, 0xab8c826a2300e582c5d464fd42378d59f5b7946e0c2f83d01a518626f9aa571d6907e66f7dfdc3ab187244496fc13dfeaf4542d56d78ac97bc67a9fe3baa6be716d07042a8f92fdc373ea29297ce08cfd93f61faa0795780065fa25e95800799dce7c07ee8cceac0000000000int, 0x1a81d286b1f92a58a1dc7c1199b97c9225d94db868a66d6df90ea686783e619820bc4000aba1308cca9b8539508f629a6f381a05c49ff18befdd5474f5948fc718276cd3c0a2d47198af6eaff89ef2dd48183226a59ca57ee70bb411ae2e2de88c25c1da3ab0b16a75962890900000000000int);
    assert(0x278e639086cint * 0x1a81d286b1f92a58a1dc7c1199b97c9225d94db868a66d6df90ea686783e619820bc4000aba1308cca9b8539508f629a6f381a05c49ff18befdd5474f5948fc718276cd3c0a2d47198af6eaff89ef2dd48183226a59ca57ee70bb411ae2e2de88c25c1da3ab0b16a75962890900000000000int == 0x4188564773805d0db885eb0f761ed84d402128a74f190d87ef610c5406455c359fe6645a4641b3e9bbeed69d8b5fe52e78be61d5bd1147f4ac9f18096f457463c8c3875810783d2eeaa8e70ba16c6cede2b86bf975e9e48b5604fc49cad2ff208810d255cf6c846975b923685ab62db17cc00000000000int) by (nonlinear_arith);
    lemma_next_power(upper_e(), 22, 0x1a81d286b1f92a58a1dc7c1199b97c9225d94db868a66d6df90ea686783e619820bc4000aba1308cca9b8539508f629a6f381a05c49ff18befdd5474f5948fc718276cd3c0a2d47198af6eaff89ef2dd48183226a59ca57ee70bb411ae2e2de88c25c1da3ab0b16a75962890900000000000int, 0x4188564773805d0db885eb0f761ed84d402128a74f190d87ef610c5406455c359fe6645a4641b3e9bbeed69d8b5fe52e78be61d5bd1147f4ac9f18096f457463c8c3875810783d2eeaa8e70ba16c6cede2b86bf975e9e48b5604fc49cad2ff208810d255cf6c846975b923685ab62db17cc00000000000int);
}

proof fn lemma_unit_powers()
    ensures
        pow(unit(), 3) == 0xc097ce7bc90715b34b9f1000000000int,
        pow(unit(), 4) == 0xaf298d050e4395d69670b12b7f41000000000000int,
        pow(unit(), 5) == 0x9f4f2726179a224501d762422c946590d91000000000000000int,
        pow(unit(), 6) == 0x90e40fbeea1d3a4abc8955e946fe31cdcf66f634e1000000000000000000int,
        pow(unit(), 7) == 0x83c7088e1aab65db792667c6da79e0fa0861d3ee22d1cc531000000000000000000000int,
        pow(unit(), 8) == 0x77d9d58b62cd8a5162e7f4a779f5080f1c46d01ae478b23be1178e81000000000000000000000000int,
        pow(unit(), 9) == 0x6d00f7320d3846f4f40737a410664a4aeba5d5681de0ec69efff7c792b260d1000000000000000000000000000int,
        pow(unit(), 10) == 0x63236b1a80d0a88ed940f0feaa0a80dc5fe05d4bb23606479fa956af8ea417bb8a0c21000000000000000000000000000000int,
        pow(unit(), 11) == 0x5a2a7250bcee8c3b94dd5f22cc6188fdd318d1eb76582906116e3d2d021b674e49f6aba5c6071000000000000000000000000000000000int,
        pow(unit(), 12) == 0x52015ce2d469d373af8b10364e3104d31ce577b76b17c82db0c5d0589780697c4b28b664fccaf7582dc1000000000000000000000000000000000000int,
        pow(unit(), 13) == 0x4a955a2e7d4bd0596eca2d3a3df930c1cc3041571172f098338b9e6b5e4ff51f3b0ed73880d3c57b5c9816d4411000000000000000000000000000000000000000int,
        pow(unit(), 14) == 0x43d54d7fbc821143487da269782e84217d88c7e4e10bd0e9590259ecb437aadab95ece59b12f78e7e1975d0712f49c7361000000000000000000000000000000000000000000int,
        pow(unit(), 15) == 0x3db1a69ca8e627d6e2ab552795c9cf514391c26df6e01677284b4c650f72dfe2d9b914a9dbc675b0f05d008c1b74c002f79478bb1000000000000000000000000000000000000000000000int,
        pow(unit(), 16) == 0x381c3de34e49d55aa16ef894fd1ec505c3c46289d6388cec73add001e6a2cf4cfea73c80f1b8a046769dbb7e6412e125a9e17e1fac815d01000000000000000000000000000000000000000000000000int,
        pow(unit(), 17) == 0x330833a6f4d71e294c7b00e37ded107d09191f785411a63ad30285c83c84c476cc540644aa4a61ffb0b09b64e3102a13017061e21af2639415db751000000000000000000000000000000000000000000000000000int,
        pow(unit(), 18) == 0x2e69d2818df38bb85b654f8af5c5cda4a23bec00deb022f7992f5502110cdb83b67a3462587b147575ae4bf0fc846c2bad2beae37dc6d47893c5a72b416aa1000000000000000000000000000000000000000000000000000000int,
        pow(unit(), 19) == 0x2a367454d738ece59fc60e69d068534359449e5afd635922c969857159e96ab380bb7984ad0779a43fcc6559fa4031824b1a1e94cf83a77e3d247df544342213246f1000000000000000000000000000000000000000000000000000000000int,
        pow(unit(), 20) == 0x266469bcf5afc5d96b329b68782a3bca40dbb91467566a0e35ff6a4ed4f4640819acde91bfb82c3e37b488803366bdf217e1efe4b6a2fbddef2289aaec62ae576e174a271c41000000000000000000000000000000000000000000000000000000000000int,
        pow(unit(), 21) == 0x22eae3bbed90270686b4226db0bdd5238971ee216e919b8ddc75f98c79c1493901b965ea6cb3864ab6089b001002d65d20f971080ca85b3c2b071e5d1ca8f4c1fcb585e8be3e257ba91000000000000000000000000000000000000000000000000000000000000000int,
        pow(unit(), 22) == 0x1fc1df6a7a61ba9afda4719a707540221c3a4bf6857df3e823a1a3cfc7e321ad7d0bc39172eb2d156b9d179757008ef0bf58c913bb944ec3622590e7ce18c3052dfa1bae9bcd3e990da98cf1e1000000000000000000000000000000000000000000000000000000000000000000int,
        pow(unit(), 23) == 0x1ce2137f74338193a198a24ce14f075a9f7e3371a7bb54cae29bdbc95de6876effe5236a2a6143c582051b2baa32928958f10620957c07549ac82ce66b7b93910933432a3d444c07914d87830ea709231000000000000000000000000000000000000000000000000000000000000000000000int,
{
    lemma_pow0(unit());
    assert(0xe8d4a51000int * 0x1int == 0xe8d4a51000int) by (nonlinear_arith);
    lemma_next_power(unit(), 0, 0x1int, 0xe8d4a51000int);
    assert(0xe8d4a51000int * 0xe8d4a51000int == 0xd3c21bcecceda1000000int) by (nonlinear_arith);
    lemma_next_power(unit(), 1, 0xe8d4a51000int, 0xd3c21bcecceda1000000int);
    assert(0xe8d4a51000int * 0xd3c21bcecceda1000000int == 0xc097ce7bc90715b34b9f1000000000int) by (nonlinear_arith);
    lemma_next_power(unit(), 2, 0xd3c21bcecceda1000000int, 0xc097ce7bc90715b34b9f1000000000int);
    assert(0xe8d4a51000int * 0xc097ce7bc90715b34b9f1000000000int == 0xaf298d050e4395d69670b12b7f41000000000000int) by (nonlinear_arith);
    lemma_next_power(unit(), 3, 0xc097ce7bc90715b34b9f1000000000int, 0xaf298d050e4395d69670b12b7f41000000000000int);
    assert(0xe8d4a51000int * 0xaf298d050e4395d69670b12b7f41000000000000int == 0x9f4f2726179a224501d762422c946590d91000000000000000int) by (nonlinear_arith);
    lemma_next_power(unit(), 4, 0xaf298d050e4395d69670b12b7f41000000000000int, 0x9f4f2726179a224501d762422c946590d91000000000000000int);
    assert(0xe8d4a51000int * 0x9f4f2726179a224501d762422c946590d91000000000000000int == 0x90e40fbeea1d3a4abc8955e946fe31cdcf66f634e1000000000000000000int) by (nonlinear_arith);
    lemma_next_power(unit(), 5, 0x9f4f2726179a224501d762422c946590d91000000000000000int, 0x90e40fbeea1d3a4abc8955e946fe31cdcf66f634e1000000000000000000int);
    assert(0xe8d4a51000int * 0x90e40fbeea1d3a4abc8955e946fe31cdcf66f634e1000000000000000000int == 0x83c7088e1aab65db792667c6da79e0fa0861d3ee22d1cc531000000000000000000000int) by (nonlinear_arith);
    lemma_next_power(unit(), 6, 0x90e40fbeea1d3a4abc8955e946fe31cdcf66f634e1000000000000000000int, 0x83c7088e1aab65db792667c6da79e0fa0861d3ee22d1cc531000000000000000000000int);
    assert(0xe8d4a51000int * 0x83c7088e1aab65db792667c6da79e0fa0861d3ee22d1cc531000000000000000000000int == 0x77d9d58b62cd8a5162e7f4a779f5080f1c46d01ae478b23be1178e81000000000000000000000000int) by (nonlinear_arith);
    lemma_next_power(unit(), 7, 0x83c7088e1aab65db792667c6da79e0fa0861d3ee22d1cc531000000000000000000000int, 0x77d9d58b62cd8a5162e7f4a779f5080f1c46d01ae478b23be1178e81000000000000000000000000int);
    assert(0xe8d4a51000int * 0x77d9d58b62cd8a5162e7f4a779f5080f1c46d01ae478b23be1178e81000000000000000000000000int == 0x6d00f7320d3846f4f40737a410664a4aeba5d5681de0ec69efff7c792b260d1000000000000000000000000000int) by (nonlinear_arith);
    lemma_next_power(unit(), 8, 0x77d9d58b62cd8a5162e7f4a779f5080f1c46d01ae478b23be1178e81000000000000000000000000int, 0x6d00f7320d3846f4f40737a410664a4aeba5d5681de0ec69efff7c792b260d1000000000000000000000000000int);
    assert(0xe8d4a51000int * 0x6d00f7320d3846f4f40737a410664a4aeba5d5681de0ec69efff7c792b260d1000000000000000000000000000int == 0x63236b1a80d0a88ed940f0feaa0a80dc5fe05d4bb23606479fa956af8ea417bb8a0c21000000000000000000000000000000int) by (nonlinear_arith);
    lemma_next_power(unit(), 9, 0x6d00f7320d3846f4f40737a410664a4aeba5d5681de0ec69efff7c792b260d1000000000000000000000000000int, 0x63236b1a80d0a88ed940f0feaa0a80dc5fe05d4bb23606479fa956af8ea417bb8a0c21000000000000000000000000000000int);
    assert(0xe8d4a51000int * 0x63236b1a80d0a88ed940f0feaa0a80dc5fe05d4bb23606479fa956af8ea417bb8a0c21000000000000000000000000000000int == 0x5a2a7250bcee8c3b94dd5f22cc6188fdd318d1eb76582906116e3d2d021b674e49f6aba5c6071000000000000000000000000000000000int) by (nonlinear_arith);
    lemma_next_power(unit(), 10, 0x63236b1a80d0a88ed940f0feaa0a80dc5fe05d4bb23606479fa956af8ea417bb8a0c21000000000000000000000000000000int, 0x5a2a7250bcee8c3b94dd5f22cc6188fdd318d1eb76582906116e3d2d021b674e49f6aba5c6071000000000000000000000000000000000int);
    assert(0xe8d4a51000int * 0x5a2a7250bcee8c3b94dd5f22cc6188fdd318d1eb76582906116e3d2d021b674e49f6aba5c6071000000000000000000000000000000000int == 0x52015ce2d469d373af8b10364e3104d31ce577b76b17c82db0c5d0589780697c4b28b664fccaf7582dc1000000000000000000000000000000000000int) by (nonlinear_arith);
    lemma_next_power(unit(), 11, 0x5a2a7250bcee8c3b94dd5f22cc6188fdd318d1eb76582906116e3d2d021b674e49f6aba5c6071000000000000000000000000000000000int, 0x52015ce2d469d373af8b10364e3104d31ce577b76b17c82db0c5d0589780697c4b28b664fccaf7582dc1000000000000000000000000000000000000int);
    assert(0xe8d4a51000int * 0x52015ce2d469d373af8b10364e3104d31ce577b76b17c82db0c5d0589780697c4b28b664fccaf7582dc1000000000000000000000000000000000000int == 0x4a955a2e7d4bd0596eca2d3a3df930c1cc3041571172f098338b9e6b5e4ff51f3b0ed73880d3c57b5c9816d4411000000000000000000000000000000000000000int) by (nonlinear_arith);
    lemma_next_power(unit(), 12, 0x52015ce2d469d373af8b10364e3104d31ce577b76b17c82db0c5d0589780697c4b28b664fccaf7582dc1000000000000000000000000000000000000int, 0x4a955a2e7d4bd0596eca2d3a3df930c1cc3041571172f098338b9e6b5e4ff51f3b0ed73880d3c57b5c9816d4411000000000000000000000000000000000000000int);
    assert(0xe8d4a51000int * 0x4a955a2e7d4bd0596eca2d3a3df930c1cc3041571172f098338b9e6b5e4ff51f3b0ed73880d3c57b5c9816d4411000000000000000000000000000000000000000int == 0x43d54d7fbc821143487da269782e84217d88c7e4e10bd0e9590259ecb437aadab95ece59b12f78e7e1975d0712f49c7361000000000000000000000000000000000000000000int) by (nonlinear_arith);
    lemma_next_power(unit(), 13, 0x4a955a2e7d4bd0596eca2d3a3df930c1cc3041571172f098338b9e6b5e4ff51f3b0ed73880d3c57b5c9816d4411000000000000000000000000000000000000000int, 0x43d54d7fbc821143487da269782e84217d88c7e4e10bd0e9590259ecb437aadab95ece59b12f78e7e1975d0712f49c7361000000000000000000000000000000000000000000int);
    assert(0xe8d4a51000int * 0x43d54d7fbc821143487da269782e84217d88c7e4e10bd0e9590259ecb437aadab95ece59b12f78e7e1975d0712f49c7361000000000000000000000000000000000000000000int == 0x3db1a69ca8e627d6e2ab552795c9cf514391c26df6e01677284b4c650f72dfe2d9b914a9dbc675b0f05d008c1b74c002f79478bb1000000000000000000000000000000000000000000000int) by (nonlinear_arith);
    lemma_next_power(unit(), 14, 0x43d54d7fbc821143487da269782e84217d88c7e4e10bd0e9590259ecb437aadab95ece59b12f78e7e1975d0712f49c7361000000000000000000000000000000000000000000int, 0x3db1a69ca8e627d6e2ab552795c9cf514391c26df6e01677284b4c650f72dfe2d9b914a9dbc675b0f05d008c1b74c002f79478bb1000000000000000000000000000000000000000000000int);
    assert(0xe8d4a51000int * 0x3db1a69ca8e627d6e2ab552795c9cf514391c26df6e01677284b4c650f72dfe2d9b914a9dbc675b0f05d008c1b74c002f79478bb1000000000000000000000000000000000000000000000int == 0x381c3de34e49d55aa16ef894fd1ec505c3c46289d6388cec73add001e6a2cf4cfea73c80f1b8a046769dbb7e6412e125a9e17e1fac815d01000000000000000000000000000000000000000000000000int) by (nonlinear_arith);
    lemma_next_power(unit(), 15, 0x3db1a69ca8e627d6e2ab552795c9cf514391c26df6e01677284b4c650f72dfe2d9b914a9dbc675b0f05d008c1b74c002f79478bb1000000000000000000000000000000000000000000000int, 0x381c3de34e49d55aa16ef894fd1ec505c3c46289d6388cec73add001e6a2cf4cfea73c80f1b8a046769dbb7e6412e125a9e17e1fac815d01000000000000000000000000000000000000000000000000int);
    assert(0xe8d4a51000int * 0x381c3de34e49d55aa16ef894fd1ec505c3c46289d6388cec73add001e6a2cf4cfea73c80f1b8a046769dbb7e6412e125a9e17e1fac815d01000000000000000000000000000000000000000000000000int == 0x330833a6f4d71e294c7b00e37ded107d09191f785411a63ad30285c83c84c476cc540644aa4a61ffb0b09b64e3102a13017061e21af2639415db751000000000000000000000000000000000000000000000000000int) by (nonlinear_arith);
    lemma_next_power(unit(), 16, 0x381c3de34e49d55aa16ef894fd1ec505c3c46289d6388cec73add001e6a2cf4cfea73c80f1b8a046769dbb7e6412e125a9e17e1fac815d01000000000000000000000000000000000000000000000000int, 0x330833a6f4d71e294c7b00e37ded107d09191f785411a63ad30285c83c84c476cc540644aa4a61ffb0b09b64e3102a13017061e21af2639415db751000000000000000000000000000000000000000000000000000int);
    assert(0xe8d4a51000int * 0x330833a6f4d71e294c7b00e37ded107d09191f785411a63ad30285c83c84c476cc540644aa4a61ffb0b09b64e3102a13017061e21af2639415db751000000000000000000000000000000000000000000000000000int == 0x2e69d2818df38bb85b654f8af5c5cda4a23bec00deb022f7992f5502110cdb83b67a3462587b147575ae4bf0fc846c2bad2beae37dc6d47893c5a72b416aa1000000000000000000000000000000000000000000000000000000int) by (nonlinear_arith);
    lemma_next_power(unit(), 17, 0x330833a6f4d71e294c7b00e37ded107d09191f785411a63ad30285c83c84c476cc540644aa4a61ffb0b09b64e3102a13017061e21af2639415db751000000000000000000000000000000000000000000000000000int, 0x2e69d2818df38bb85b654f8af5c5cda4a23bec00deb022f7992f5502110cdb83b67a3462587b147575ae4bf0fc846c2bad2beae37dc6d47893c5a72b416aa1000000000000000000000000000000000000000000000000000000int);
    assert(0xe8d4a51000int * 0x2e69d2818df38bb85b654f8af5c5cda4a23bec00deb022f7992f5502110cdb83b67a3462587b147575ae4bf0fc846c2bad2beae37dc6d47893c5a72b416aa1000000000000000000000000000000000000000000000000000000int == 0x2a367454d738ece59fc60e69d068534359449e5afd635922c969857159e96ab380bb7984ad0779a43fcc6559fa4031824b1a1e94cf83a77e3d247df544342213246f1000000000000000000000000000000000000000000000000000000000int) by (nonlinear_arith);
    lemma_next_power(unit(), 18, 0x2e69d2818df38bb85b654f8af5c5cda4a23bec00deb022f7992f5502110cdb83b67a3462587b147575ae4bf0fc846c2bad2beae37dc6d47893c5a72b416aa1000000000000000000000000000000000000000000000000000000int, 0x2a367454d738ece59fc60e69d068534359449e5afd635922c969857159e96ab380bb7984ad0779a43fcc6559fa4031824b1a1e94cf83a77e3d247df544342213246f1000000000000000000000000000000000000000000000000000000000int);
    assert(0xe8d4a51000int * 0x2a367454d738ece59fc60e69d068534359449e5afd635922c969857159e96ab380bb7984ad0779a43fcc6559fa4031824b1a1e94cf83a77e3d247df544342213246f1000000000000000000000000000000000000000000000000000000000int == 0x266469bcf5afc5d96b329b68782a3bca40dbb91467566a0e35ff6a4ed4f4640819acde91bfb82c3e37b488803366bdf217e1efe4b6a2fbddef2289aaec62ae576e174a271c41000000000000000000000000000000000000000000000000000000000000int) by (nonlinear_arith);
    lemma_next_power(unit(), 19, 0x2a367454d738ece59fc60e69d068534359449e5afd635922c969857159e96ab380bb7984ad0779a43fcc6559fa4031824b1a1e94cf83a77e3d247df544342213246f1000000000000000000000000000000000000000000000000000000000int, 0x266469bcf5afc5d96b329b68782a3bca40dbb91467566a0e35ff6a4ed4f4640819acde91bfb82c3e37b488803366bdf217e1efe4b6a2fbddef2289aaec62ae576e174a271c41000000000000000000000000000000000000000000000000000000000000int);
    assert(0xe8d4a51000int * 0x266469bcf5afc5d96b329b68782a3bca40dbb91467566a0e35ff6a4ed4f4640819acde91bfb82c3e37b488803366bdf217e1efe4b6a2fbddef2289aaec62ae576e174a271c41000000000000000000000000000000000000000000000000000000000000int == 0x22eae3bbed90270686b4226db0bdd5238971ee216e919b8ddc75f98c79c1493901b965ea6cb3864ab6089b001002d65d20f971080ca85b3c2b071e5d1ca8f4c1fcb585e8be3e257ba91000000000000000000000000000000000000000000000000000000000000000int) by (nonlinear_arith);
    lemma_next_power(unit(), 20, 0x266469bcf5afc5d96b329b68782a3bca40dbb91467566a0e35ff6a4ed4f4640819acde91bfb82c3e37b488803366bdf217e1efe4b6a2fbddef2289aaec62ae576e174a271c41000000000000000000000000000000000000000000000000000000000000int, 0x22eae3bbed90270686b4226db0bdd5238971ee216e919b8ddc75f98c79c1493901b965ea6cb3864ab6089b001002d65d20f971080ca85b3c2b071e5d1ca8f4c1fcb585e8be3e257ba91000000000000000000000000000000000000000000000000000000000000000int);
    assert(0xe8d4a51000int * 0x22eae3bbed90270686b4226db0bdd5238971ee216e919b8ddc75f98c79c1493901b965ea6cb3864ab6089b001002d65d20f971080ca85b3c2b071e5d1ca8f4c1fcb585e8be3e257ba91000000000000000000000000000000000000000000000000000000000000000int == 0x1fc1df6a7a61ba9afda4719a707540221c3a4bf6857df3e823a1a3cfc7e321ad7d0bc39172eb2d156b9d179757008ef0bf58c913bb944ec3622590e7ce18c3052dfa1bae9bcd3e990da98cf1e1000000000000000000000000000000000000000000000000000000000000000000int) by (nonlinear_arith);
    lemma_next_power(unit(), 21, 0x22eae3bbed90270686b4226db0bdd5238971ee216e919b8ddc75f98c79c1493901b965ea6cb3864ab6089b001002d65d20f971080ca85b3c2b071e5d1ca8f4c1fcb585e8be3e257ba91000000000000000000000000000000000000000000000000000000000000000int, 0x1fc1df6a7a61ba9afda4719a707540221c3a4bf6857df3e823a1a3cfc7e321ad7d0bc39172eb2d156b9d179757008ef0bf58c913bb944ec3622590e7ce18c3052dfa1bae9bcd3e990da98cf1e1000000000000000000000000000000000000000000000000000000000000000000int);
    assert(0xe8d4a51000int * 0x1fc1df6a7a61ba9afda4719a707540221c3a4bf6857df3e823a1a3cfc7e321ad7d0bc39172eb2d156b9d179757008ef0bf58c913bb944ec3622590e7ce18c3052dfa1bae9bcd3e990da98cf1e1000000000000000000000000000000000000000000000000000000000000000000int == 0x1ce2137f74338193a198a24ce14f075a9f7e3371a7bb54cae29bdbc95de6876effe5236a2a6143c582051b2baa32928958f10620957c07549ac82ce66b7b93910933432a3d444c07914d87830ea709231000000000000000000000000000000000000000000000000000000000000000000000int) by (nonlinear_arith);
    lemma_next_power(unit(), 22, 0x1fc1df6a7a61ba9afda4719a707540221c3a4bf6857df3e823a1a3cfc7e321ad7d0bc39172eb2d156b9d179757008ef0bf58c913bb944ec3622590e7ce18c3052dfa1bae9bcd3e990da98cf1e1000000000000000000000000000000000000000000000000000000000000000000int, 0x1ce2137f74338193a198a24ce14f075a9f7e3371a7bb54cae29bdbc95de6876effe5236a2a6143c582051b2baa32928958f10620957c07549ac82ce66b7b93910933432a3d444c07914d87830ea709231000000000000000000000000000000000000000000000000000000000000000000000int);
}

/// The thresholds are the integer parts of the powers of the base of the natural logarithm.
proof fn lemma_thresholds_between()
    ensures
        pow(upper_e(), 3) < 21 * pow(unit(), 3),
        thresholds()[0] * pow(unit(), 4) < pow(lower_e(), 4),
        pow(upper_e(), 4) < (thresholds()[0] + 1) * pow(unit(), 4),
        thresholds()[1] * pow(unit(), 5) < pow(lower_e(), 5),
        pow(upper_e(), 5) < (thresholds()[1] + 1) * pow(unit(), 5),
        thresholds()[2] * pow(unit(), 6) < pow(lower_e(), 6),
        pow(upper_e(), 6) < (thresholds()[2] + 1) * pow(unit(), 6),
        thresholds()[3] * pow(unit(), 7) < pow(lower_e(), 7),
        pow(upper_e(), 7) < (thresholds()[3] + 1) * pow(unit(), 7),
        thresholds()[4] * pow(unit(), 8) < pow(lower_e(), 8),
        pow(upper_e(), 8) < (thresholds()[4] + 1) * pow(unit(), 8),
        thresholds()[5] * pow(unit(), 9) < pow(lower_e(), 9),
        pow(upper_e(), 9) < (thresholds()[5] + 1) * pow(unit(), 9),
        thresholds()[6] * pow(unit(), 10) < pow(lower_e(), 10),
        pow(upper_e(), 10) < (thresholds()[6] + 1) * pow(unit(), 10),
        thresholds()[7] * pow(unit(), 11) < pow(lower_e(), 11),
        pow(upper_e(), 11) < (thresholds()[7] + 1) * pow(unit(), 11),
        thresholds()[8] * pow(unit(), 12) < pow(lower_e(), 12),
        pow(upper_e(), 12) < (thresholds()[8] + 1) * pow(unit(), 12),
        thresholds()[9] * pow(unit(), 13) < pow(lower_e(), 13),
        pow(upper_e(), 13) < (thresholds()[9] + 1) * pow(unit(), 13),
        thresholds()[10] * pow(unit(), 14) < pow(lower_e(), 14),
        pow(upper_e(), 14) < (thresholds()[10] + 1) * pow(unit(), 14),
        thresholds()[11] * pow(unit(), 15) < pow(lower_e(), 15),
        pow(upper_e(), 15) < (thresholds()[11] + 1) * pow(unit(), 15),
        thresholds()[12] * pow(unit(), 16) < pow(lower_e(), 16),
        pow(upper_e(), 16) < (thresholds()[12] + 1) * pow(unit(), 16),
        thresholds()[13] * pow(unit(), 17) < pow(lower_e(), 17),
        pow(upper_e(), 17) < (thresholds()[13] + 1) * pow(unit(), 17),
        thresholds()[14] * pow(unit(), 18) < pow(lower_e(), 18),
        pow(upper_e(), 18) < (thresholds()[14] + 1) * pow(unit(), 18),
        thresholds()[15] * pow(unit(), 19) < pow(lower_e(), 19),
        pow(upper_e(), 19) < (thresholds()[15] + 1) * pow(unit(), 19),
        thresholds()[16] * pow(unit(), 20) < pow(lower_e(), 20),
        pow(upper_e(), 20) < (thresholds()[16] + 1) * pow(unit(), 20),
        thresholds()[17] * pow(unit(), 21) < pow(lower_e(), 21),
        pow(upper_e(), 21) < (thresholds()[17] + 1) * pow(unit(), 21),
        thresholds()[18] * pow(unit(), 22) < pow(lower_e(), 22),
        pow(upper_e(), 22) < (thresholds()[18] + 1) * pow(unit(), 22),
        u32::MAX * pow(unit(), 23) < pow(lower_e(), 23),
{
    lemma_lower_powers();
    lemma_upper_powers();
    lemma_unit_powers();
    assert(0xf1c556d6cec562a29c926352488b8c0int < 21 * 0xc097ce7bc90715b34b9f1000000000int) by (nonlinear_arith);
    assert(thresholds()[0] == 54);
    assert(54int * 0xaf298d050e4395d69670b12b7f41000000000000int < 0x255b89b8b342dc6dfbdc5d57e7e8f1e5ce09667db1int) by (nonlinear_arith);
    assert(0x255b89b8b37f4dc3b18fea04675c3dd9fd5233f100int < (54int + 1) * 0xaf298d050e4395d69670b12b7f41000000000000int) by (nonlinear_arith);
    assert(thresholds()[1] == 148);
    assert(148int * 0x9f4f2726179a224501d762422c946590d91000000000000000int < 0x5c5b949052a1ce8140b0a112c97208de843068a1f720242d10fbint) by (nonlinear_arith);
    assert(0x5c5b9490535c9831dc31867c45a397725b7eea64d186f671ac00int < (148int + 1) * 0x9f4f2726179a224501d762422c946590d91000000000000000int) by (nonlinear_arith);
    assert(thresholds()[2] == 403);
    assert(403int * 0x90e40fbeea1d3a4abc8955e946fe31cdcf66f634e1000000000000000000int < 0xe455259f3334c12f8e670918779e8d1cd7fec1e5c5aaf10155c282d140f0e9int) by (nonlinear_arith);
    assert(0xe455259f355ee6aaf059044c90f532fc69d5bc85d89ac05a2c3c7ad1549000int < (403int + 1) * 0x90e40fbeea1d3a4abc8955e946fe31cdcf66f634e1000000000000000000int) by (nonlinear_arith);
    assert(thresholds()[3] == 1096);
    assert(1096int * 0x83c7088e1aab65db792667c6da79e0fa0861d3ee22d1cc531000000000000000000000int < 0x2347f8c3f4aeb746cdb58fbf6d80eb1054186178afbd74dcc198a8694ac601256778cf963int) by (nonlinear_arith);
    assert(0x2347f8c3f5129c87435c700c254ca4ea66139fc68314c82d91f446d5c04bb6f8f042cc000int < (1096int + 1) * 0x83c7088e1aab65db792667c6da79e0fa0861d3ee22d1cc531000000000000000000000int) by (nonlinear_arith);
    assert(thresholds()[4] == 2980);
    assert(2980int * 0x77d9d58b62cd8a5162e7f4a779f5080f1c46d01ae478b23be1178e81000000000000000000000000int < 0x573968a9737fa603e8fe909e2efba695a36a9c0565e6b85c1aabccc48e61840dcdbf56b50bad8c25461int) by (nonlinear_arith);
    assert(0x573968a97499e5ca08a595ed673fedf33171d5b412358ba7d1c95bb683c08c1e0007da1aaede8e10000int < (2980int + 1) * 0x77d9d58b62cd8a5162e7f4a779f5080f1c46d01ae478b23be1178e81000000000000000000000000int) by (nonlinear_arith);
    assert(thresholds()[5] == 8103);
    assert(8103int * 0x6d00f7320d3846f4f40737a410664a4aeba5d5681de0ec69efff7c792b260d1000000000000000000000000000int < 0xd7a42b6503eee54aa9f233200aa59d32b377b7a5e3cac77ed471cbbecd34a20d094d2d66a8c4ee679bf6a9b754c8bint) by (nonlinear_arith);
    assert(0xd7a42b6506ffe9f89f06a6152964fd88c81901d909bc58b83c22e7322b752ca2efd3b38e3b809c7368bbe46ec0000int < (8103int + 1) * 0x6d00f7320d3846f4f40737a410664a4aeba5d5681de0ec69efff7c792b260d1000000000000000000000000000int) by (nonlinear_arith);
    assert(thresholds()[6] == 22026);
    assert(22026int * 0x63236b1a80d0a88ed940f0feaa0a80dc5fe05d4bb23606479fa956af8ea417bb8a0c21000000000000000000000000000000int < 0x2151f38ab0363c5ddddcc41d37b0e639e003d372ffe0bfb59f36307e214bdb729a82bdaa2274a564101e5e7352db4d75915e5619int) by (nonlinear_arith);
    assert(0x2151f38ab0bd02f8fd002ebdfcb7b37972bf37ed0ffa3a8f957bb72b2f24c703ff76536ccd3748f3afa34ccae716b9094b900000int < (22026int + 1) * 0x63236b1a80d0a88ed940f0feaa0a80dc5fe05d4bb23606479fa956af8ea417bb8a0c21000000000000000000000000000000int) by (nonlinear_arith);
    assert(thresholds()[7] == 59874);
    assert(59874int * 0x5a2a7250bcee8c3b94dd5f22cc6188fdd318d1eb76582906116e3d2d021b674e49f6aba5c6071000000000000000000000000000000000int < 0x5260484b8956f41e84d7cd10a608a9961019ba5debd98d26b8e330a7e78e6f89bc8faa6742d0615ec890a84da6e12ac9753cc1b9c256afc473int) by (nonlinear_arith);
    assert(0x5260484b8ac579957a6d06ed03bc670c05b64fece4444ef24fa316d2f7e5ae7b8d9d423a926c9c0ec416cecb90182f6a124bd38d5860c00000int < (59874int + 1) * 0x5a2a7250bcee8c3b94dd5f22cc6188fdd318d1eb76582906116e3d2d021b674e49f6aba5c6071000000000000000000000000000000000int) by (nonlinear_arith);
    assert(thresholds()[8] == 162754);
    assert(162754int * 0x52015ce2d469d373af8b10364e3104d31ce577b76b17c82db0c5d0589780697c4b28b664fccaf7582dc1000000000000000000000000000000000000int < 0xcba7c755947560f2e4d9e0b44bc7dea5e7ff505d42aa77447a08f29bc6b78a786053c5aa78f6d4ed1f6b8fc80192d2db98bda12109b36adaea79c935b411int) by (nonlinear_arith);
    assert(0xcba7c7559851e4566f528b4683c375d3514f983b7a44e0376a51697b5c503c86ac3952caaa832338214676f9c61a93783a91efc9375d53446f0ed1000000int < (162754int + 1) * 0x52015ce2d469d373af8b10364e3104d31ce577b76b17c82db0c5d0589780697c4b28b664fccaf7582dc1000000000000000000000000000000000000int) by (nonlinear_arith);
    assert(thresholds()[9] == 442413);
    assert(442413int * 0x4a955a2e7d4bd0596eca2d3a3df930c1cc3041571172f098338b9e6b5e4ff51f3b0ed73880d3c57b5c9816d4411000000000000000000000000000000000000000int < 0x1f77d5a376b2491d84a81aa8e2c8fbea8d84b2daee135b8f1398af423f7d7a843c59533566bae314db04a63fffc15de29e8913a291b464d8882ff64dd4c65e524dbcb1bint) by (nonlinear_arith);
    assert(0x1f77d5a37757c16f7a324b9d08932ccc9ef85bec004f977b87feae88c249d216ba519f9fbacead5fe3d73c70cee34a70cc9da7e193b1f00302778914669d9c82c000000int < (442413int + 1) * 0x4a955a2e7d4bd0596eca2d3a3df930c1cc3041571172f098338b9e6b5e4ff51f3b0ed73880d3c57b5c9816d4411000000000000000000000000000000000000000int) by (nonlinear_arith);
    assert(thresholds()[10] == 1202604);
    assert(1202604int * 0x43d54d7fbc821143487da269782e84217d88c7e4e10bd0e9590259ecb437aadab95ece59b12f78e7e1975d0712f49c7361000000000000000000000000000000000000000000int < 0x4dcc2418355bf1834a7a90ddcd3ea167cf43d8e72d907c08bc6c5af36b3edca824877573a3227fd5a5c71aeff5998af09cd50e402daf5bc3d5be8664df79f5d546fddd7ffc139bc49int) by (nonlinear_arith);
    assert(0x4dcc241837147f323afcd727a836968ab17d02c1ce17f7b45c11bebe80b626251071ac3b54620ea1bc8106754b68cf1204726096ceeaf627771a8eb57bf58d4e4f88fedd290000000int < (1202604int + 1) * 0x43d54d7fbc821143487da269782e84217d88c7e4e10bd0e9590259ecb437aadab95ece59b12f78e7e1975d0712f49c7361000000000000000000000000000000000000000000int) by (nonlinear_arith);
    assert(thresholds()[11] == 3269017);
    assert(3269017int * 0x3db1a69ca8e627d6e2ab552795c9cf514391c26df6e01677284b4c650f72dfe2d9b914a9dbc675b0f05d008c1b74c002f79478bb1000000000000000000000000000000000000000000000int < 0xc055efd93469c4905dc6b563383028eb5ba20c4a913b3e0c3931fff451d9dfb9702ad7469548c59d67f07767696c3465ffbdfa1c26d3bf3a35a22906ba8d298eb1d4a821da3968dff2c1344fa83int) by (nonlinear_arith);
    assert(0xc055efd938f8baadc8f400b089991d27caf8b27bd3504f29592f897a97c72ee6b861b13cab767085ee99ba10398b3f8cb25c10204b46d052fcf02cc589eda5f065241c0bfe7fd68f954c0000000int < (3269017int + 1) * 0x3db1a69ca8e627d6e2ab552795c9cf514391c26df6e01677284b4c650f72dfe2d9b914a9dbc675b0f05d008c1b74c002f79478bb1000000000000000000000000000000000000000000000int) by (nonlinear_arith);
    assert(thresholds()[12] == 8886110);
    assert(8886110int * 0x381c3de34e49d55aa16ef894fd1ec505c3c46289d6388cec73add001e6a2cf4cfea73c80f1b8a046769dbb7e6412e125a9e17e1fac815d01000000000000000000000000000000000000000000000000int < 0x1db81202f2c04fafffa314ee06da630b6c0c631cb72a27435d18d3edc2708b5e7fd59e23b371d20aa82b0ac7b27b71c2f7f1d592c21aa1f65a320f5a99536a850afdbd68f2d907768d8dc359bdbedbaed3ccc1int) by (nonlinear_arith);
    assert(0x1db81202f380a59fd8d9c62da5edbe3fc4d29b1ce8e122eccec9c0ba7fb90be5d8a2db35fdd1bb50c10772f3d6887bfcf16829571a490fc7ec95b0b1c4a2b51f21f3bfbb86d1d086cb7b65d87295c100000000int < (8886110int + 1) * 0x381c3de34e49d55aa16ef894fd1ec505c3c46289d6388cec73add001e6a2cf4cfea73c80f1b8a046769dbb7e6412e125a9e17e1fac815d01000000000000000000000000000000000000000000000000int) by (nonlinear_arith);
    assert(thresholds()[13] == 24154952);
    assert(24154952int * 0x330833a6f4d71e294c7b00e37ded107d09191f785411a63ad30285c83c84c476cc540644aa4a61ffb0b09b64e3102a13017061e21af2639415db751000000000000000000000000000000000000000000000000000int < 0x497926766c20052dba7156ea4b601d6f82bf929fd89a4be8b0f8c7bff782797c054fa7ff456563f7e410dbd9fb13e63e11115a6146ca91d80806aa5b649a434d62131cb3b68450ee28eb7efa9926fe84e92356deade59cabint) by (nonlinear_arith);
    assert(0x497926766e193e5fec967f0f72103c40bbfd353aad0c2aaf9952a93cdc543f32fea34cee3c6a648c0f6f210202f6b799cf9acf9a9f739d9d9392ef48adfc9a34f4287e46aef2af122a507fc98eb91641a2fe356c00000000int < (24154952int + 1) * 0x330833a6f4d71e294c7b00e37ded107d09191f785411a63ad30285c83c84c476cc540644aa4a61ffb0b09b64e3102a13017061e21af2639415db751000000000000000000000000000000000000000000000000000int) by (nonlinear_arith);
    assert(thresholds()[14] == 65659969);
    assert(65659969int * 0x2e69d2818df38bb85b654f8af5c5cda4a23bec00deb022f7992f5502110cdb83b67a3462587b147575ae4bf0fc846c2bad2beae37dc6d47893c5a72b416aa1000000000000000000000000000000000000000000000000000000int < 0xb5a52a2b4d6366678cb60a81ad6742746c0855feb3a1c4889736d90c8fba72bc581d5e24dfc809893c2f3837277e27e578ba81b0b0f66ea0554bfe0db5f7ae3532801b6a1e0788ecf26f017000fa0f6200df8ca77e43280d8b5ff0d379int) by (nonlinear_arith);
    assert(0xb5a52a2b528deb1be0620de1a84675d1a44d26333e000f21bb2b62b49390a611fe1bcb9717d9472a31236d8fef751b928c8dc7191735e8e794df1e0536f4939a9df88132efcb12ad7527a5a55040fe38bd4f690201a1f5e99000000000int < (65659969int + 1) * 0x2e69d2818df38bb85b654f8af5c5cda4a23bec00deb022f7992f5502110cdb83b67a3462587b147575ae4bf0fc846c2bad2beae37dc6d47893c5a72b416aa1000000000000000000000000000000000000000000000000000000int) by (nonlinear_arith);
    assert(thresholds()[15] == 178482300);
    assert(178482300int * 0x2a367454d738ece59fc60e69d068534359449e5afd635922c969857159e96ab380bb7984ad0779a43fcc6559fa4031824b1a1e94cf83a77e3d247df544342213246f1000000000000000000000000000000000000000000000000000000000int < 0x1c1131af6896dea534aaaa2dbca7000e2bbcdcc41f2dca26ddeec6e330b5bede150321e43a14c52974fc91be16c32b3d9ba8bf976efc9b7a476ec65b5b324b3bb690d727ef1b09c43f3aa0ae5212897f549da7dc5a1dc5b5a540a68eed1966c352b93int) by (nonlinear_arith);
    assert(0x1c1131af696e92c74819a17622afc2d8b8d6529759454ffee6fe846c537d546159f3f23c9a5068fd1f6e9e497ffb5aa51d87a30689ae6905d47ec2835dfd16632b298a48052edfe0c33bc02f19b3243eb32d41fc1d48f895580d8641b08c000000000int < (178482300int + 1) * 0x2a367454d738ece59fc60e69d068534359449e5afd635922c969857159e96ab380bb7984ad0779a43fcc6559fa4031824b1a1e94cf83a77e3d247df544342213246f1000000000000000000000000000000000000000000000000000000000int) by (nonlinear_arith);
    assert(thresholds()[16] == 485165195);
    assert(485165195int * 0x266469bcf5afc5d96b329b68782a3bca40dbb91467566a0e35ff6a4ed4f4640819acde91bfb82c3e37b488803366bdf217e1efe4b6a2fbddef2289aaec62ae576e174a271c41000000000000000000000000000000000000000000000000000000000000int < 0x4563b05c6e2138bd0f73726881109bbd3aca81e6dc838f8bb749fba6e8e00c90b1effce10fdca4a250e1b5787137b8058fe017422c0b934f921c51edc0b3effc3dcc4441cde8b9d1715ed8a5c544d6fb6ecaa156c61daaf49cc82461f8ecc764557bd25a950ce71int) by (nonlinear_arith);
    assert(0x4563b05c7052909ec3a7a8d6bdf03c782589aa94c56e04363beb5ebbd4540cc15c763edc71eb21e18400e45b0ff37e2d0a47054e63c50b9ba4c102e464fa0ebea532e1db78cc428e016abb142bc90bb2ea2f60b4d180bf7c8d8a4dbd8f54c4c866db10000000000int < (485165195int + 1) * 0x266469bcf5afc5d96b329b68782a3bca40dbb91467566a0e35ff6a4ed4f4640819acde91bfb82c3e37b488803366bdf217e1efe4b6a2fbddef2289aaec62ae576e174a271c41000000000000000000000000000000000000000000000000000000000000int) by (nonlinear_arith);
    assert(thresholds()[17] == 1318815734);
    assert(1318815734int * 0x22eae3bbed90270686b4226db0bdd5238971ee216e919b8ddc75f98c79c1493901b965ea6cb3864ab6089b001002d65d20f971080ca85b3c2b071e5d1ca8f4c1fcb585e8be3e257ba91000000000000000000000000000000000000000000000000000000000000000int < 0xab8c826a1d4fb80b30b4a53afe0f0e397e4ab3bbaaa2032f9142e6e8bfd24b906e6a974d4a8a48ef52b064af01fb1a2f5939c3dff98145ab66c5584bb089afb4cac9acfa9edeb342c3c3b8841787813da6e241bcd89f4af58b9f2aa44270cbac4a050610cac942f77c862d13bint) by (nonlinear_arith);
    assert(0xab8c826a2300e582c5d464fd42378d59f5b7946e0c2f83d01a518626f9aa571d6907e66f7dfdc3ab187244496fc13dfeaf4542d56d78ac97bc67a9fe3baa6be716d07042a8f92fdc373ea29297ce08cfd93f61faa0795780065fa25e95800799dce7c07ee8cceac0000000000int < (1318815734int + 1) * 0x22eae3bbed90270686b4226db0bdd5238971ee216e919b8ddc75f98c79c1493901b965ea6cb3864ab6089b001002d65d20f971080ca85b3c2b071e5d1ca8f4c1fcb585e8be3e257ba91000000000000000000000000000000000000000000000000000000000000000int) by (nonlinear_arith);
    assert(thresholds()[18] == 3584912846);
    assert(3584912846int * 0x1fc1df6a7a61ba9afda4719a707540221c3a4bf6857df3e823a1a3cfc7e321ad7d0bc39172eb2d156b9d179757008ef0bf58c913bb944ec3622590e7ce18c3052dfa1bae9bcd3e990da98cf1e1000000000000000000000000000000000000000000000000000000000000000000int < 0x1a81d286b10d49254ff044a5482003a1daa436cb163fee567237114535fe381fb8decc3f94ca1d98cc7df206a659d873c895215c15be7708fef8be6a3fa9c9e0e00465f79eff407232e8d9df77ac9a64b6f3ae8aba2e98bc7b481fa5d426d96e82c2bc67b5929155b50ba71484f76ffa4ba9int) by (nonlinear_arith);
    assert(0x1a81d286b1f92a58a1dc7c1199b97c9225d94db868a66d6df90ea686783e619820bc4000aba1308cca9b8539508f629a6f381a05c49ff18befdd5474f5948fc718276cd3c0a2d47198af6eaff89ef2dd48183226a59ca57ee70bb411ae2e2de88c25c1da3ab0b16a75962890900000000000int < (3584912846int + 1) * 0x1fc1df6a7a61ba9afda4719a707540221c3a4bf6857df3e823a1a3cfc7e321ad7d0bc39172eb2d156b9d179757008ef0bf58c913bb944ec3622590e7ce18c3052dfa1bae9bcd3e990da98cf1e1000000000000000000000000000000000000000000000000000000000000000000int) by (nonlinear_arith);
    assert(0xffff_ffffint * 0x1ce2137f74338193a198a24ce14f075a9f7e3371a7bb54cae29bdbc95de6876effe5236a2a6143c582051b2baa32928958f10620957c07549ac82ce66b7b93910933432a3d444c07914d87830ea709231000000000000000000000000000000000000000000000000000000000000000000000int < 0x41885647711eb3239e9320df4dc234a54e245f10a51b63095bfffadc57c8145bf4e833051d2850240a37135528f2f27e4abe79172c569fa6bb167e5f7d5df003bcf177f7e57829302110b7ea994885ececf05a3f5e3880acb6f9081b83909255c366df87f01f57e4d1ca4faed7eefbd558e6d84e9be7a3int) by (nonlinear_arith);
}

/// The number of exceeded thresholds tells between which two thresholds the number of terms lies.
proof fn lemma_exceeded(terms: int)
    ensures
        0 <= exceeded(terms, 19) <= 19,
        forall|k: int|
            0 <= k < 19 ==> (terms > #[trigger] thresholds()[k] <==> k < exceeded(terms, 19)),
{
    reveal_with_fuel(exceeded, 20);
    let t = thresholds();
    assert(t[0] < t[1] < t[2] < t[3] < t[4] < t[5] < t[6] < t[7] < t[8] < t[9]);
    assert(t[9] < t[10] < t[11] < t[12] < t[13] < t[14] < t[15] < t[16] < t[17] < t[18]);
}

/// Few terms take windows of one or three bits; otherwise the width of the windows is the natural
/// logarithm of the number of terms, rounded up: the base of the logarithm to the width less one
/// is below the number of terms, and to the width above it.
pub proof fn lemma_window_is_the_logarithm(terms: int)
    requires
        0 <= terms,
    ensures
        terms < 4 ==> default_window(terms) == Some(1int),
        4 <= terms < 32 ==> default_window(terms) == Some(3int),
        terms > 0xffff_ffff ==> default_window(terms) is None,
        32 <= terms <= 0xffff_ffff ==> {
            &&& default_window(terms) matches Some(w)
            &&& 4 <= w <= 23
            &&& pow(upper_e(), (w - 1) as nat) < terms * pow(unit(), (w - 1) as nat)
            &&& terms * pow(unit(), w as nat) < pow(lower_e(), w as nat)
        },
{
    if 32 <= terms <= 0xffff_ffff {
        let n = exceeded(terms, 19);
        let w = 4 + n;
        lemma_exceeded(terms);
        lemma_thresholds_between();
        lemma_pow_positive(unit(), (w - 1) as nat);
        lemma_pow_positive(unit(), w as nat);
        let (lo, hi) = (
            if n == 0 {
                20
            } else {
                thresholds()[n - 1]
            },
            if n == 19 {
                0xffff_ffff
            } else {
                thresholds()[n]
            },
        );
        assert(lo + 1 <= terms <= hi);
        assert(pow(upper_e(), (w - 1) as nat) < (lo + 1) * pow(unit(), (w - 1) as nat)) by {
            lemma_between_cases(n);
        }
        assert(hi * pow(unit(), w as nat) < pow(lower_e(), w as nat)) by {
            lemma_between_cases(n);
        }
        let (x, y) = (pow(unit(), (w - 1) as nat), pow(unit(), w as nat));
        assert((lo + 1) * x <= terms * x) by (nonlinear_arith)
            requires
                lo + 1 <= terms,
                x > 0,
        ;
        assert(terms * y <= hi * y) by (nonlinear_arith)
            requires
                terms <= hi,
                y > 0,
        ;
    }
}

proof fn lemma_between_cases(n: int)
    requires
        0 <= n <= 19,
    ensures
        n == 0 ==> pow(upper_e(), (n + 3) as nat) < 21 * pow(unit(), (n + 3) as nat),
        n > 0 ==> pow(upper_e(), (n + 3) as nat) < (thresholds()[n - 1] + 1) * pow(
            unit(),
            (n + 3) as nat,
        ),
        n < 19 ==> thresholds()[n] * pow(unit(), (n + 4) as nat) < pow(lower_e(), (n + 4) as nat),
        n == 19 ==> 0xffff_ffff * pow(unit(), (n + 4) as nat) < pow(lower_e(), (n + 4) as nat),
{
    lemma_thresholds_between();
    if n < 10 {
        if n < 5 {
            assert(n == 0 || n == 1 || n == 2 || n == 3 || n == 4);
        } else {
            assert(n == 5 || n == 6 || n == 7 || n == 8 || n == 9);
        }
    } else if n < 15 {
        assert(n == 10 || n == 11 || n == 12 || n == 13 || n == 14);
    } else {
        assert(n == 15 || n == 16 || n == 17 || n == 18 || n == 19);
    }
}

/// The estimated work written out: every term is visited once per window, every window has two
/// to the width bucket additions, and every window but the first is reached by doublings, which
/// cover the bits as far as they fill windows.
pub open spec fn work(terms: int, bits: int, width: int) -> int {
    (terms + pow2(width as nat)) * (bits / width + 1) + (bits - bits % width)
}

/// The estimate is that work: each further term adds one visit for each window.
pub proof fn lemma_work(terms: int, more: int, bits: int, width: int)
    requires
        0 <= terms,
        0 <= more,
        0 <= bits,
        1 <= width,
    ensures
        booth_work(terms, bits, width) == work(terms, bits, width),
        booth_work(terms + more, bits, width) - booth_work(terms, bits, width) == more * (bits
            / width + 1),
{
    lemma_fundamental_div_mod(bits, width);
    lemma_pow2_unfold(width as nat);
    let (n, b) = (bits / width + 1, pow2((width - 1) as nat) as int);
    assert(pow2(width as nat) == 2 * b);
    assert(terms * n + 2 * (b * n) == (terms + 2 * b) * n) by (nonlinear_arith);
    assert((terms + more) * n == terms * n + more * n) by (nonlinear_arith);
}

/// A single thread widens windows of nine bits to ten exactly where that is less work; nothing
/// else is widened.
pub proof fn lemma_widened_windows(terms: int, num_threads: int)
    requires
        0 <= terms,
        work(terms, 256, 9) <= usize::MAX,
        work(terms, 256, 10) <= usize::MAX,
    ensures
        num_threads != 1 || default_window(terms) != Some(9int) ==> chosen_window(
            terms,
            num_threads,
        ) == default_window(terms),
        num_threads == 1 && default_window(terms) == Some(9int) ==> {
            &&& chosen_window(terms, num_threads) matches Some(w)
            &&& w == 9 || w == 10
            &&& work(terms, 256, w) <= work(terms, 256, 9)
            &&& work(terms, 256, w) <= work(terms, 256, 10)
            &&& work(terms, 256, 9) == work(terms, 256, 10) ==> w == 9
        },
{
    lemma_work(terms, 0, 256, 9);
    lemma_work(terms, 0, 256, 10);
}

/// The halves of the scalars are used exactly for 256 terms or more where twice the terms of 127
/// bits are less work than the terms of 256 bits.
pub proof fn lemma_halves_are_used(terms: int, width: int)
    requires
        0 <= terms <= usize::MAX / 2,
        1 <= width,
        work(terms, 256, width) <= usize::MAX,
    ensures
        is_glv_better(terms, width) <==> terms >= 256 && work(2 * terms, 127, width) < work(
            terms,
            256,
            width,
        ),
{
    lemma_work(terms, 0, 256, width);
    lemma_work(2 * terms, 0, 127, width);
}

} // verus!
