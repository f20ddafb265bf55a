//! The fixed instantiation data of this gate: width, round counts, the
//! external and internal round constants, and both linear layers of the
//! Poseidon2 permutation over the Goldilocks field at state width 12.
//!
//! These values are the published Poseidon2 Goldilocks-12 parameterization
//! (eight full rounds around twenty-two partial rounds, S-box degree 7); any
//! independent implementation of the same instance must use the same data to
//! be interoperable.

use vstd::prelude::*;

verus! {

/// Number of field elements in the permutation state.
pub const WIDTH: usize = 12;

/// The quadratic non-residue `W` defining the extension `F[X]/(X^2 - W)`.
pub const GOLDILOCKS_W: u64 = 7;

/// Full (external) rounds before the partial block.
pub const ROUNDS_FULL_FIRST: usize = 4;

/// Partial (internal) rounds.
pub const ROUNDS_PARTIAL: usize = 22;

/// Full (external) rounds after the partial block.
pub const ROUNDS_FULL_SECOND: usize = 4;

/// Round constants of the eight external rounds, row-major: entry
/// `12 * r + i` is added to state element `i` in external round `r`
/// (rounds 0..4 come before the partial block, rounds 4..8 after it).
pub open spec fn rc_external() -> Seq<u64> {
    seq![
        0xe034a8785fd284a7, 0xe2463f1ea42e1b80, 0x048742e681ae290a,
        0xe4af50ade990154c, 0x8b13ffaaf4f78f8a, 0xe3fbead7dccd8d63,
        0x631a47705eb92bf8, 0x88fbbb8698548659, 0x74cd2003b0f349c9,
        0xe16a3df6764a3f5d, 0x57ce63971a71aaa2, 0xdc1f7fd3e7823051,
        0xbb8423be34c18d7a, 0xf8bc5a2a0c1b3d6d, 0xf1a01bbd6f7123e5,
        0xed960a080f5e348b, 0x1b9c0c1e87e2390e, 0x18c83caf729a613e,
        0x671ab9fe037a72c4, 0x508565f67d4c276a, 0x4d2cd8827a482590,
        0xa48e11e84dd3500b, 0x825a8c955fc2442b, 0xf573a6ee07cddc68,
        0x7dd3f19c73a39e0b, 0xcc0f13537a796fa6, 0x1d9006bfaedac57f,
        0x4705f69b68b0b7de, 0x5b62bfb718bcc57f, 0x879d821770563827,
        0x3da5ccb7f8dff0e3, 0xb49d6a706923fc5b, 0xb6a0babe883a969d,
        0x2984f9b055401960, 0xcd3496f05511d79d, 0x4791da5d63854fc5,
        0xdb7344d0580a39d4, 0x5aedc4dad1de120a, 0x5e1bdc1fb8e1abf0,
        0x3904c09a0e46747c, 0xb54a0e23ab85ddcd, 0xc0c3cf05bccbdb3a,
        0xb362076a73baf7e9, 0x212c953d81a5d5ba, 0x212d4cc965d898bd,
        0xdd44ddd0f41509b9, 0x8931329fa67823c0, 0xc65510f4d2a873be,
        0x387356e4516fab6f, 0x35310dce33903e67, 0x45f3e5251d30f912,
        0x7c97f480ca428f45, 0x74d5874c20b50de2, 0xff1d5b7cee3dc67f,
        0xa04d5d5ac0ff3de9, 0x1cefb5eb7d24580e, 0xf685e1bfcc0104ad,
        0x6204dd95db22ead4, 0x8265c6c57c73c440, 0x4f708ab0b4e1e382,
        0xcfc60c7a52fbffa7, 0x9c0c1951d8910306, 0x4d06df27c89819f2,
        0x621bdb0e75eca660, 0x343adffd079cee57, 0xa760f0e5debde398,
        0xe3110fefd97b188a, 0x0ed6584e6b150297, 0x2b10e625d0d079c0,
        0xefa493442057264f, 0xebcfaa7b3f26a2b6, 0xf36bcda28e343e2a,
        0xa1183cb63b67aa9e, 0x40f3e415d5e5b0ba, 0xc51fc2367eff7b15,
        0xe07fe5f3aebc649f, 0xc9cb2be56968e8aa, 0x648600db69078a0e,
        0x4e9135ab1256edb9, 0x00382c73435556c2, 0x1d78cafac9150ddf,
        0xb8df60ab6215a233, 0xa7a65ba31f8fcd9a, 0x907d436dd964006b,
        0x3bdf7fd528633b97, 0x265adb359c0cc0f8, 0xf16cfc4034b39614,
        0x71f0751b08fa0947, 0x3165eda4b5403a37, 0xca30fc5680467e46,
        0x4c743354d37777c5, 0x3d1f0a4e6bba4a09, 0xc0c2e289afa75181,
        0x1e4fa2ad948978b7, 0x2a226a127a0bb26a, 0xe61738a70357ce76,
    ]
}

/// Round constants of the twenty-two partial rounds; entry `r` is added to
/// state element 0 in partial round `r`.
pub open spec fn rc_internal() -> Seq<u64> {
    seq![
        0xe3ecbb6ba1e16211, 0x70f5b3266792bbb6, 0xe7560e690634757e,
        0xafd0202bc7eaf66e, 0x349f4c5871f220fd, 0x3697eb3e31529e0d,
        0x7735d5b0622d9900, 0x5f5b58b9cf997668, 0x645534b6548af9d9,
        0x4232d29d91a426a8, 0xb987278aed485d35, 0x6dabeef669bb406e,
        0x35ee78288b749d40, 0x6dcd560f14af0fc3, 0x71ed3dc007ea6383,
        0x8b6b51caab7f5b6f, 0xcf2e8cc4181dbfa8, 0xa01d3f1c306f825a,
        0xccee646a5d8ddb87, 0x70df6f277cbaffeb, 0x64ec0a6556b8f45c,
        0x6f68c9664fda6e37,
    ]
}

/// Diagonal-minus-one of the internal linear layer: the partial-round matrix
/// sends state `s` to `sum(s) + diag_m1[i] * s[i]` at every position `i`.
pub open spec fn internal_diag_m1() -> Seq<u64> {
    seq![
        0xcf6f77ac16722af9, 0x3fd4c0d74672aebc, 0x9b72bf1c1c3d08a8,
        0xe4940f84b71e4ac2, 0x61b27b077118bc72, 0x2efd8379b8e661e2,
        0x858edcf353df0341, 0x2d9c20affb5c4516, 0x5120143f0695defb,
        0x62fc898ae34a5c5b, 0xa3d9560c99123ed2, 0x98fd739d8e7fc933,
    ]
}

/// The 4x4 block `M4` of the external linear layer.
pub open spec fn m4_entry(r: int, c: int) -> int {
    if r == 0 {
        if c == 0 { 5 } else if c == 1 { 7 } else if c == 2 { 1 } else { 3 }
    } else if r == 1 {
        if c == 0 { 4 } else if c == 1 { 6 } else { 1 }
    } else if r == 2 {
        if c == 0 { 1 } else if c == 1 { 3 } else if c == 2 { 5 } else { 7 }
    } else {
        if c == 2 { 4 } else if c == 3 { 6 } else { 1 }
    }
}

/// Entry `(i, j)` of the external linear-layer matrix, the circulant
/// block matrix `circ(2*M4, M4, M4)`.
pub open spec fn external_mat(i: int, j: int) -> int {
    if i / 4 == j / 4 { 2 * m4_entry(i % 4, j % 4) } else { m4_entry(i % 4, j % 4) }
}

/// Round constant of external round `r`, position `i`, as executable data.
pub fn rc_external_vec() -> (v: Vec<u64>)
    ensures
        v@ == rc_external(),
{
    let v: Vec<u64> = vec![
        0xe034a8785fd284a7, 0xe2463f1ea42e1b80, 0x048742e681ae290a,
        0xe4af50ade990154c, 0x8b13ffaaf4f78f8a, 0xe3fbead7dccd8d63,
        0x631a47705eb92bf8, 0x88fbbb8698548659, 0x74cd2003b0f349c9,
        0xe16a3df6764a3f5d, 0x57ce63971a71aaa2, 0xdc1f7fd3e7823051,
        0xbb8423be34c18d7a, 0xf8bc5a2a0c1b3d6d, 0xf1a01bbd6f7123e5,
        0xed960a080f5e348b, 0x1b9c0c1e87e2390e, 0x18c83caf729a613e,
        0x671ab9fe037a72c4, 0x508565f67d4c276a, 0x4d2cd8827a482590,
        0xa48e11e84dd3500b, 0x825a8c955fc2442b, 0xf573a6ee07cddc68,
        0x7dd3f19c73a39e0b, 0xcc0f13537a796fa6, 0x1d9006bfaedac57f,
        0x4705f69b68b0b7de, 0x5b62bfb718bcc57f, 0x879d821770563827,
        0x3da5ccb7f8dff0e3, 0xb49d6a706923fc5b, 0xb6a0babe883a969d,
        0x2984f9b055401960, 0xcd3496f05511d79d, 0x4791da5d63854fc5,
        0xdb7344d0580a39d4, 0x5aedc4dad1de120a, 0x5e1bdc1fb8e1abf0,
        0x3904c09a0e46747c, 0xb54a0e23ab85ddcd, 0xc0c3cf05bccbdb3a,
        0xb362076a73baf7e9, 0x212c953d81a5d5ba, 0x212d4cc965d898bd,
        0xdd44ddd0f41509b9, 0x8931329fa67823c0, 0xc65510f4d2a873be,
        0x387356e4516fab6f, 0x35310dce33903e67, 0x45f3e5251d30f912,
        0x7c97f480ca428f45, 0x74d5874c20b50de2, 0xff1d5b7cee3dc67f,
        0xa04d5d5ac0ff3de9, 0x1cefb5eb7d24580e, 0xf685e1bfcc0104ad,
        0x6204dd95db22ead4, 0x8265c6c57c73c440, 0x4f708ab0b4e1e382,
        0xcfc60c7a52fbffa7, 0x9c0c1951d8910306, 0x4d06df27c89819f2,
        0x621bdb0e75eca660, 0x343adffd079cee57, 0xa760f0e5debde398,
        0xe3110fefd97b188a, 0x0ed6584e6b150297, 0x2b10e625d0d079c0,
        0xefa493442057264f, 0xebcfaa7b3f26a2b6, 0xf36bcda28e343e2a,
        0xa1183cb63b67aa9e, 0x40f3e415d5e5b0ba, 0xc51fc2367eff7b15,
        0xe07fe5f3aebc649f, 0xc9cb2be56968e8aa, 0x648600db69078a0e,
        0x4e9135ab1256edb9, 0x00382c73435556c2, 0x1d78cafac9150ddf,
        0xb8df60ab6215a233, 0xa7a65ba31f8fcd9a, 0x907d436dd964006b,
        0x3bdf7fd528633b97, 0x265adb359c0cc0f8, 0xf16cfc4034b39614,
        0x71f0751b08fa0947, 0x3165eda4b5403a37, 0xca30fc5680467e46,
        0x4c743354d37777c5, 0x3d1f0a4e6bba4a09, 0xc0c2e289afa75181,
        0x1e4fa2ad948978b7, 0x2a226a127a0bb26a, 0xe61738a70357ce76,
    ];
    proof {
        assert(v@ =~= rc_external());
    }
    v
}

/// The partial-round constants as executable data.
pub fn rc_internal_vec() -> (v: Vec<u64>)
    ensures
        v@ == rc_internal(),
{
    let v: Vec<u64> = vec![
        0xe3ecbb6ba1e16211, 0x70f5b3266792bbb6, 0xe7560e690634757e,
        0xafd0202bc7eaf66e, 0x349f4c5871f220fd, 0x3697eb3e31529e0d,
        0x7735d5b0622d9900, 0x5f5b58b9cf997668, 0x645534b6548af9d9,
        0x4232d29d91a426a8, 0xb987278aed485d35, 0x6dabeef669bb406e,
        0x35ee78288b749d40, 0x6dcd560f14af0fc3, 0x71ed3dc007ea6383,
        0x8b6b51caab7f5b6f, 0xcf2e8cc4181dbfa8, 0xa01d3f1c306f825a,
        0xccee646a5d8ddb87, 0x70df6f277cbaffeb, 0x64ec0a6556b8f45c,
        0x6f68c9664fda6e37,
    ];
    proof {
        assert(v@ =~= rc_internal());
    }
    v
}

/// The internal-layer diagonal (minus one) as executable data.
pub fn internal_diag_m1_vec() -> (v: Vec<u64>)
    ensures
        v@ == internal_diag_m1(),
{
    let v: Vec<u64> = vec![
        0xcf6f77ac16722af9, 0x3fd4c0d74672aebc, 0x9b72bf1c1c3d08a8,
        0xe4940f84b71e4ac2, 0x61b27b077118bc72, 0x2efd8379b8e661e2,
        0x858edcf353df0341, 0x2d9c20affb5c4516, 0x5120143f0695defb,
        0x62fc898ae34a5c5b, 0xa3d9560c99123ed2, 0x98fd739d8e7fc933,
    ];
    proof {
        assert(v@ =~= internal_diag_m1());
    }
    v
}

/// Entry `(i, j)` of the external linear-layer matrix as an executable value.
pub fn external_mat_at(i: usize, j: usize) -> (r: u64)
    requires
        i < 12,
        j < 12,
    ensures
        r as int == external_mat(i as int, j as int),
{
    let ri: usize = i % 4;
    let ci: usize = j % 4;
    let base: u64 = if ri == 0 {
        if ci == 0 { 5 } else if ci == 1 { 7 } else if ci == 2 { 1 } else { 3 }
    } else if ri == 1 {
        if ci == 0 { 4 } else if ci == 1 { 6 } else { 1 }
    } else if ri == 2 {
        if ci == 0 { 1 } else if ci == 1 { 3 } else if ci == 2 { 5 } else { 7 }
    } else {
        if ci == 2 { 4 } else if ci == 3 { 6 } else { 1 }
    };
    if i / 4 == j / 4 { 2 * base } else { base }
}

} // verus!
