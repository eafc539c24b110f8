//! The byte formatter on concrete target-group data.

use groth16_mpc::gt_bytes::{gt_format, fp_to_bytes_format, fp2_to_bytes_format, fp6_to_bytes_format, mac, adc, sbb, montgomery_reduce, subtract_p};

#[test]
fn test_format() {
    let limbs: [u64; 72] = [
    1833778908674098629, 10940135709871646008, 14469595491885370873, 14913175881451308564,
    11966403029181413248, 1437568066627491877, 15160015403425294741, 11342496543937232509,
    11284658528271854226, 17618113228161746858, 11631679852104167526, 593530325556397176,
    6476846807490410049, 2816639779045545485, 14476076704226712645, 854289583575002536,
    10158043504186337989, 1357474178050521694, 6901856076470247221, 3792152084032873317,
    15794447866332370476, 18189857103975979275, 11614596478718820880, 1667299683924412553,
    10617393529686755192, 4897202276192187781, 3567883303013294047, 18047005495499791862,
    7269221731679377840, 1702263405386698527, 7433765206450958098, 941737984852750699,
    11836606406970901870, 13843222440791661477, 7413152441349395753, 429433089456718649,
    15207117319800276601, 6540750982395757316, 15044332445620971789, 14795504289261750215,
    17348569415570950896, 658754416854642350, 11470112406866973014, 16344064576580025875,
    5520926743417199604, 11810793736472093633, 9370321895320649760, 1562574812092930764,
    8977193084816800433, 8352831996646950585, 5933166268838589628, 10062194967764290187,
    334343859671060077, 1776189050943205034, 13511897413297688358, 3049631480761760069,
    18162706820793124512, 8167504369816721655, 8989473046439478774, 286057374490027367,
    9257390537406998103, 2078389900358027886, 12802143409160140646, 14528883079759720004,
    10238260730210410490, 902613341589028802, 16721850712242454449, 8544676805529473132,
    8467638379015603476, 17683295826703475938, 11127716086834177532, 1837080836145357378,
    ];
    let out = gt_format(&limbs);
    assert_eq!(out.len(), 576);
    let expected: Vec<u8> = vec![
    15, 65, 229, 134, 99, 191, 8, 207, 6, 134, 114, 203, 208, 26, 126, 199,
    59, 172, 164, 215, 44, 169, 53, 68, 222, 255, 104, 107, 253, 109, 245, 67,
    212, 142, 170, 36, 175, 228, 126, 30, 253, 228, 73, 56, 59, 103, 102, 49,
    4, 197, 129, 35, 77, 8, 106, 153, 2, 36, 155, 100, 114, 143, 253, 33,
    161, 137, 232, 121, 53, 169, 84, 5, 28, 124, 219, 167, 179, 135, 38, 41,
    164, 250, 252, 5, 6, 98, 69, 203, 145, 8, 240, 36, 45, 15, 227, 239,
    3, 53, 15, 85, 167, 174, 252, 211, 195, 27, 79, 203, 108, 229, 119, 28,
    198, 160, 233, 120, 106, 181, 151, 51, 32, 200, 6, 173, 54, 8, 41, 16,
    123, 168, 16, 197, 160, 159, 253, 217, 190, 34, 145, 160, 194, 90, 153, 162,
    17, 184, 180, 36, 205, 72, 191, 56, 252, 239, 104, 8, 59, 11, 14, 197,
    200, 26, 147, 179, 48, 238, 26, 103, 125, 13, 21, 255, 123, 152, 78, 137,
    120, 239, 72, 136, 30, 50, 250, 201, 27, 147, 180, 115, 51, 226, 186, 87,
    6, 251, 162, 62, 183, 197, 175, 13, 159, 128, 148, 12, 167, 113, 182, 255,
    213, 133, 123, 170, 242, 34, 235, 149, 167, 210, 128, 157, 97, 191, 224, 46,
    27, 253, 27, 104, 255, 2, 240, 184, 16, 42, 225, 194, 213, 213, 171, 26,
    25, 242, 99, 55, 210, 5, 251, 70, 156, 214, 189, 21, 195, 213, 160, 77,
    200, 135, 132, 251, 179, 208, 178, 219, 222, 165, 77, 67, 178, 183, 63, 44,
    187, 18, 213, 131, 134, 168, 112, 62, 15, 148, 130, 38, 228, 126, 232, 157,
    1, 129, 7, 21, 79, 37, 167, 100, 189, 60, 121, 147, 122, 69, 184, 69,
    70, 218, 99, 75, 143, 107, 225, 74, 128, 97, 229, 92, 206, 186, 71, 139,
    35, 247, 218, 202, 163, 92, 140, 167, 139, 234, 233, 98, 64, 69, 180, 182,
    1, 178, 245, 34, 71, 61, 23, 19, 145, 18, 91, 168, 77, 196, 0, 124,
    251, 242, 248, 218, 117, 47, 124, 116, 24, 82, 3, 252, 202, 88, 154, 199,
    25, 195, 77, 255, 187, 170, 216, 67, 29, 173, 28, 31, 181, 151, 170, 165,
    25, 53, 2, 184, 110, 219, 136, 87, 194, 115, 250, 7, 90, 80, 81, 41,
    55, 224, 121, 78, 30, 101, 167, 97, 124, 144, 216, 189, 102, 6, 91, 31,
    255, 229, 29, 122, 87, 153, 115, 177, 49, 80, 33, 236, 60, 25, 147, 79,
    19, 104, 187, 68, 92, 124, 45, 32, 151, 3, 242, 57, 104, 156, 227, 76,
    3, 120, 166, 142, 114, 166, 179, 178, 22, 218, 14, 34, 165, 3, 27, 84,
    221, 255, 87, 48, 147, 150, 179, 140, 136, 28, 76, 132, 158, 194, 62, 135,
    8, 154, 28, 91, 70, 229, 17, 11, 134, 117, 14, 198, 165, 50, 52, 136,
    104, 168, 64, 69, 72, 60, 146, 183, 175, 90, 246, 137, 69, 46, 175, 171,
    241, 168, 148, 62, 80, 67, 159, 29, 89, 136, 42, 152, 234, 160, 23, 15,
    18, 80, 235, 216, 113, 252, 10, 146, 167, 178, 216, 49, 104, 208, 215, 39,
    39, 45, 68, 27, 239, 161, 92, 80, 61, 216, 233, 12, 233, 141, 179, 231,
    182, 209, 148, 246, 8, 57, 197, 8, 168, 67, 5, 170, 202, 23, 137, 182,
    ];
    assert_eq!(out, expected);
}

#[test]
fn fp_bytes_of_one() {
    let out = fp_to_bytes_format(&[1u64, 0, 0, 0, 0, 0]);
    assert_eq!(out.len(), 48);
    let expected: Vec<u8> = vec![
    20, 254, 199, 1, 232, 251, 12, 233, 237, 94, 100, 39, 60, 79, 83, 139,
    23, 151, 171, 20, 88, 168, 141, 233, 52, 62, 169, 121, 20, 149, 109, 200,
    127, 225, 18, 116, 216, 152, 250, 251, 244, 211, 130, 89, 56, 11, 72, 32,
    ];
    assert_eq!(out, expected);
}

#[test]
fn fp_bytes_of_zero() {
    let out = fp_to_bytes_format(&[0u64, 0, 0, 0, 0, 0]);
    assert_eq!(out, vec![0u8; 48]);
}

#[test]
fn fp2_and_fp6_sizes() {
    let twelve = [0u64; 12];
    assert_eq!(fp2_to_bytes_format(&twelve).len(), 96);
    let thirty_six = [0u64; 36];
    assert_eq!(fp6_to_bytes_format(&thirty_six).len(), 288);
}

#[test]
fn mac_adc_sbb_words() {
    assert_eq!(mac(1, 2, 3, 4), (11, 0));
    assert_eq!(mac(u64::MAX, u64::MAX, u64::MAX, u64::MAX), (u64::MAX, u64::MAX));
    assert_eq!(adc(u64::MAX, 1, 0), (0, 1));
    assert_eq!(sbb(5, 3, 0), (2, 0));
    assert_eq!(sbb(3, 5, 0), (0xffff_ffff_ffff_fffe, 0xffff_ffff_ffff_ffff));
}

#[test]
fn montgomery_reduce_of_radix_multiples() {
    // The reduction of zero is zero.
    assert_eq!(montgomery_reduce(0, 0, 0, 0, 0, 0, 0, 0, 0, 0, 0, 0), [0u64; 6]);
    // A value that is exactly the radix reduces to one.
    assert_eq!(montgomery_reduce(0, 0, 0, 0, 0, 0, 1, 0, 0, 0, 0, 0), [1, 0, 0, 0, 0, 0]);
}

#[test]
fn subtract_p_both_sides() {
    assert_eq!(subtract_p(&[1, 0, 0, 0, 0, 0]), [1, 0, 0, 0, 0, 0]);
    // p itself reduces to zero.
    let p_limbs = [
        0xb9fe_ffff_ffff_aaab,
        0x1eab_fffe_b153_ffff,
        0x6730_d2a0_f6b0_f624,
        0x6477_4b84_f385_12bf,
        0x4b1b_a7b6_434b_acd7,
        0x1a01_11ea_397f_e69a,
    ];
    assert_eq!(subtract_p(&p_limbs), [0u64; 6]);
}
