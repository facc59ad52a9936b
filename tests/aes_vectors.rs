use t1ha::t1ha0_aes::{aesdec, aesenc, t1ha0_ia32aes, t1ha0_ia32aes_avx2, Block128};
use t1ha::{t1ha0_ia32aes_avx, t1ha0_ia32aes_noavx, t1ha1_le};

const T1HA_TEST_PATTERN: [u8; 64] = [
    0, 1, 2, 3, 4, 5, 6, 7, 0xFF, 0x7F, 0x3F, 0x1F, 0xF, 8, 16, 32, 64, 0x80, 0xFE, 0xFC, 0xF8,
    0xF0, 0xE0, 0xC0, 0xFD, 0xFB, 0xF7, 0xEF, 0xDF, 0xBF, 0x55, 0xAA, 11, 17, 19, 23, 29, 37, 42,
    43, b'a', b'b', b'c', b'd', b'e', b'f', b'g', b'h', b'i', b'j', b'k', b'l', b'm', b'n', b'o',
    b'p', b'q', b'r', b's', b't', b'u', b'v', b'w', b'x',
];

fn probe<H>(hash: &H, reference: u64, data: &[u8], seed: u64)
where
    H: Fn(&[u8], u64) -> u64,
{
    let h = hash(data, seed);
    assert_eq!(
        h, reference,
        "hash(data = {:?}, seed = 0x{:x}) = 0x{:x}, right = 0x{:x}",
        data, seed, h, reference
    );
}

/// Runs the fixed battery of 81 probes against a table of reference values.
fn selfcheck<H>(hash: H, reference_values: &[u64])
where
    H: Fn(&[u8], u64) -> u64,
{
    let mut iter = reference_values.iter();

    probe(&hash, *iter.next().unwrap(), &[][..], 0);
    probe(&hash, *iter.next().unwrap(), &[][..], !0);
    probe(&hash, *iter.next().unwrap(), &T1HA_TEST_PATTERN[..], 0);

    for i in 1..64 {
        probe(&hash, *iter.next().unwrap(), &T1HA_TEST_PATTERN[..i], 1 << (i - 1));
    }

    for i in 1..=7 {
        probe(&hash, *iter.next().unwrap(), &T1HA_TEST_PATTERN[i..64], !0 << i);
    }

    let pattern_long = (0..512).map(|i| i as u8).collect::<Vec<_>>();
    let seed = !0 << 7;

    for i in 0..=7 {
        probe(&hash, *iter.next().unwrap(), &pattern_long[i..128 + i * 18], seed);
    }
    assert!(iter.next().is_none());
}

const T1HA_REFVAL_IA32AES_A: [u64; 81] = [
    0, 0x772C7311BE32FF42, 0xB231AC660E5B23B5, 0x71F6DF5DA3B4F532,
    0x555859635365F660, 0xE98808F1CD39C626, 0x2EB18FAF2163BB09, 0x7B9DD892C8019C87,
    0xE2B1431C4DA4D15A, 0x1984E718A5477F70, 0x08DD17B266484F79, 0x4C83A05D766AD550,
    0x92DCEBB131D1907D, 0xD67BC6FC881B8549, 0xF6A9886555FBF66B, 0x6E31616D7F33E25E,
    0x36E31B7426E3049D, 0x4F8E4FAF46A13F5F, 0x03EB0CB3253F819F, 0x636A7769905770D2,
    0x3ADF3781D16D1148, 0x92D19CB1818BC9C2, 0x283E68F4D459C533, 0xFA83A8A88DECAA04,
    0x8C6F00368EAC538C, 0x7B66B0CF3797B322, 0x5131E122FDABA3FF, 0x6E59FF515C08C7A9,
    0xBA2C5269B2C377B0, 0xA9D24FD368FE8A2B, 0x22DB13D32E33E891, 0x7B97DFC804B876E5,
    0xC598BDFCD0E834F9, 0xB256163D3687F5A7, 0x66D7A73C6AEF50B3, 0xBB34C6A4396695D2,
    0x7F46E1981C3256AD, 0x4B25A9B217A6C5B4, 0x7A0A6BCDD2321DA9, 0x0A1F55E690A7B44E,
    0x8F451A91D7F05244, 0x624D5D3C9B9800A7, 0x09DDC2B6409DDC25, 0x3E155765865622B6,
    0x96519FAC9511B381, 0x512E58482FE4FBF0, 0x1AB260EA7D54AE1C, 0x67976F12CC28BBBD,
    0x0607B5B2E6250156, 0x7E700BEA717AD36E, 0x06A058D9D61CABB3, 0x57DA5324A824972F,
    0x1193BA74DBEBF7E7, 0xC18DC3140E7002D4, 0x9F7CCC11DFA0EF17, 0xC487D6C20666A13A,
    0xB67190E4B50EF0C8, 0xA53DAA608DF0B9A5, 0x7E13101DE87F9ED3, 0x7F8955AE2F05088B,
    0x2DF7E5A097AD383F, 0xF027683A21EA14B5, 0x9BB8AEC3E3360942, 0x92BE39B54967E7FE,
    0x978C6D332E7AFD27, 0xED512FE96A4FAE81, 0x9E1099B8140D7BA3, 0xDFD5A5BE1E6FE9A6,
    0x1D82600E23B66DD4, 0x3FA3C3B7EE7B52CE, 0xEE84F7D2A655EF4C, 0x2A4361EC769E3BEB,
    0x22E4B38916636702, 0x0063096F5D39A115, 0x6C51B24DAAFA5434, 0xBAFB1DB1B411E344,
    0xFF529F161AE0C4B0, 0x1290EAE3AC0A686F, 0xA7B0D4585447D1BE, 0xAED3D18CB6CCAD53,
    0xFC73D46F8B41BEC6,
];

const T1HA_REFVAL_IA32AES_B: [u64; 81] = [
    0, 0x772C7311BE32FF42, 0x4398F62A8CB6F72A, 0x71F6DF5DA3B4F532,
    0x555859635365F660, 0xE98808F1CD39C626, 0x2EB18FAF2163BB09, 0x7B9DD892C8019C87,
    0xE2B1431C4DA4D15A, 0x1984E718A5477F70, 0x08DD17B266484F79, 0x4C83A05D766AD550,
    0x92DCEBB131D1907D, 0xD67BC6FC881B8549, 0xF6A9886555FBF66B, 0x6E31616D7F33E25E,
    0x36E31B7426E3049D, 0x4F8E4FAF46A13F5F, 0x03EB0CB3253F819F, 0x636A7769905770D2,
    0x3ADF3781D16D1148, 0x92D19CB1818BC9C2, 0x283E68F4D459C533, 0xFA83A8A88DECAA04,
    0x8C6F00368EAC538C, 0x7B66B0CF3797B322, 0x5131E122FDABA3FF, 0x6E59FF515C08C7A9,
    0xBA2C5269B2C377B0, 0xA9D24FD368FE8A2B, 0x22DB13D32E33E891, 0x7B97DFC804B876E5,
    0xC598BDFCD0E834F9, 0xB256163D3687F5A7, 0x66D7A73C6AEF50B3, 0xE810F88E85CEA11A,
    0x4814F8F3B83E4394, 0x9CABA22D10A2F690, 0x0D10032511F58111, 0xE9A36EF5EEA3CD58,
    0xC79242DE194D9D7C, 0xC3871AA0435EE5C8, 0x52890BED43CCF4CD, 0x07A1D0861ACCD373,
    0x227B816FF0FEE9ED, 0x59FFBF73AACFC0C4, 0x09AB564F2BEDAD0C, 0xC05F744F2EE38318,
    0x7B50B621D547C661, 0x0C1F71CB4E68E5D1, 0x0E33A47881D4DBAA, 0xF5C3BF198E9A7C2E,
    0x16328FD8C0F68A91, 0xA3E399C9AB3E9A59, 0x163AE71CBCBB18B8, 0x18F17E4A8C79F7AB,
    0x9250E2EA37014B45, 0x7BBBB111D60B03E4, 0x3DAA4A3071A0BD88, 0xA28828D790A2D6DC,
    0xBC70FC88F64BE3F1, 0xA3E48008BA4333C7, 0x739E435ACAFC79F7, 0x42BBB360BE007CC6,
    0x4FFB6FD2AF74EC92, 0x2A799A2994673146, 0xBE0A045B69D48E9F, 0x549432F54FC6A278,
    0x371D3C60369FC702, 0xDB4557D415B08CA7, 0xE8692F0A83850B37, 0x022E46AEB36E9AAB,
    0x117AC9B814E4652D, 0xA361041267AE9048, 0x277CB51C961C3DDA, 0xAFFC96F377CB8A8D,
    0x83CC79FA01DD1BA7, 0xA494842ACF4B802C, 0xFC6D9CDDE2C34A3F, 0x4ED6863CE455F7A7,
    0x630914D0DB7AAE98,
];

const T1HA_REFVAL_IA32AES: [u64; 81] = [
    0, 0x772C7311BE32FF42, 0xB231AC660E5B23B5, 0x71F6DF5DA3B4F532,
    0x555859635365F660, 0xE98808F1CD39C626, 0x2EB18FAF2163BB09, 0x7B9DD892C8019C87,
    0xE2B1431C4DA4D15A, 0x1984E718A5477F70, 0x08DD17B266484F79, 0x4C83A05D766AD550,
    0x92DCEBB131D1907D, 0xD67BC6FC881B8549, 0xF6A9886555FBF66B, 0x6E31616D7F33E25E,
    0x36E31B7426E3049D, 0x4F8E4FAF46A13F5F, 0x03EB0CB3253F819F, 0x636A7769905770D2,
    0x3ADF3781D16D1148, 0x92D19CB1818BC9C2, 0x283E68F4D459C533, 0xFA83A8A88DECAA04,
    0x8C6F00368EAC538C, 0x7B66B0CF3797B322, 0x5131E122FDABA3FF, 0x6E59FF515C08C7A9,
    0xBA2C5269B2C377B0, 0xA9D24FD368FE8A2B, 0x22DB13D32E33E891, 0x7B97DFC804B876E5,
    0xC598BDFCD0E834F9, 0xB256163D3687F5A7, 0x66D7A73C6AEF50B3, 0xBB34C6A4396695D2,
    0x7F46E1981C3256AD, 0x4B25A9B217A6C5B4, 0x7A0A6BCDD2321DA9, 0x0A1F55E690A7B44E,
    0x8F451A91D7F05244, 0x624D5D3C9B9800A7, 0x09DDC2B6409DDC25, 0x3E155765865622B6,
    0x96519FAC9511B381, 0x512E58482FE4FBF0, 0x1AB260EA7D54AE1C, 0x67976F12CC28BBBD,
    0x0607B5B2E6250156, 0x7E700BEA717AD36E, 0x06A058D9D61CABB3, 0x57DA5324A824972F,
    0x1193BA74DBEBF7E7, 0xC18DC3140E7002D4, 0x9F7CCC11DFA0EF17, 0xC487D6C20666A13A,
    0xB67190E4B50EF0C8, 0xA53DAA608DF0B9A5, 0x7E13101DE87F9ED3, 0x7F8955AE2F05088B,
    0x2DF7E5A097AD383F, 0xF027683A21EA14B5, 0x9BB8AEC3E3360942, 0x92BE39B54967E7FE,
    0x978C6D332E7AFD27, 0xED512FE96A4FAE81, 0x9E1099B8140D7BA3, 0xDFD5A5BE1E6FE9A6,
    0x1D82600E23B66DD4, 0x3FA3C3B7EE7B52CE, 0xEE84F7D2A655EF4C, 0x2A4361EC769E3BEB,
    0x22E4B38916636702, 0x0063096F5D39A115, 0x6C51B24DAAFA5434, 0xBAFB1DB1B411E344,
    0xFF529F161AE0C4B0, 0x1290EAE3AC0A686F, 0xA7B0D4585447D1BE, 0xAED3D18CB6CCAD53,
    0xFC73D46F8B41BEC6,
];

#[test]
fn t1ha0_aes_test_ia32aes_avx() {
    selfcheck(t1ha0_ia32aes, &T1HA_REFVAL_IA32AES_A[..])
}

#[test]
fn test_ia32aes_avx2() {
    selfcheck(t1ha0_ia32aes_avx2, &T1HA_REFVAL_IA32AES_B[..])
}

#[test]
fn t1ha0_avx_test_ia32aes_avx() {
    selfcheck(t1ha0_ia32aes_avx, &T1HA_REFVAL_IA32AES[..])
}

#[test]
fn noavx_form_is_the_same_body() {
    selfcheck(t1ha0_ia32aes_noavx, &T1HA_REFVAL_IA32AES_A[..])
}

fn block(bytes: [u8; 16]) -> Block128 {
    Block128 {
        lo: u64::from_le_bytes(bytes[..8].try_into().unwrap()),
        hi: u64::from_le_bytes(bytes[8..].try_into().unwrap()),
    }
}

#[test]
fn aes_round_known_answer() {
    // The first round of the AES-128 example cipher: the state after the
    // initial AddRoundKey, and the first round key.
    let state = block([
        0x19, 0x3d, 0xe3, 0xbe, 0xa0, 0xf4, 0xe2, 0x2b, 0x9a, 0xc6, 0x8d, 0x2a, 0xe9, 0xf8, 0x48,
        0x08,
    ]);
    let key = block([
        0xa0, 0xfa, 0xfe, 0x17, 0x88, 0x54, 0x2c, 0xb1, 0x23, 0xa3, 0x39, 0x39, 0x2a, 0x6c, 0x76,
        0x05,
    ]);
    let expected = block([
        0xa4, 0x9c, 0x7f, 0xf2, 0x68, 0x9f, 0x35, 0x2b, 0x6b, 0x5b, 0xea, 0x43, 0x02, 0x6a, 0x50,
        0x49,
    ]);
    let r = aesenc(state, key);
    assert_eq!((r.lo, r.hi), (expected.lo, expected.hi));
}

#[test]
fn aes_rounds_with_zero_key() {
    // SubBytes of 0 is 0x63; MixColumns of a column of equal bytes keeps it.
    let r = aesenc(Block128 { lo: 0, hi: 0 }, Block128 { lo: 0, hi: 0 });
    assert_eq!((r.lo, r.hi), (0x6363_6363_6363_6363, 0x6363_6363_6363_6363));
    // The inverse S-box maps 0x63 back to 0.
    let d = aesdec(r, Block128 { lo: 0, hi: 0 });
    assert_eq!((d.lo, d.hi), (0, 0));
}

#[test]
fn aes_bodies_differ_from_portable_ones() {
    let data: Vec<u8> = (0..200u32).map(|i| (i * 13 + 1) as u8).collect();
    for len in [33usize, 64, 100, 128, 129, 200] {
        let a = t1ha0_ia32aes(&data[..len], 9);
        let b = t1ha0_ia32aes_avx2(&data[..len], 9);
        let c = t1ha1_le(&data[..len], 9);
        assert_ne!(a, b);
        assert_ne!(a, c);
        assert_ne!(b, c);
    }
}
