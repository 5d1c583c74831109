//! HID keyboard usage IDs to IchigoJam character codes, for the US and the JA
//! layouts. Each row has four columns: plain, shift, alt, alt+shift.

use vstd::prelude::*;

verus! {

pub open spec fn us_row(hid: u8) -> Seq<u8> {
    if hid == 0x04 { seq![97u8, 65u8, 234u8, 138u8] }
    else if hid == 0x05 { seq![98u8, 66u8, 235u8, 139u8] }
    else if hid == 0x06 { seq![99u8, 67u8, 236u8, 140u8] }
    else if hid == 0x07 { seq![100u8, 68u8, 237u8, 141u8] }
    else if hid == 0x08 { seq![101u8, 69u8, 238u8, 142u8] }
    else if hid == 0x09 { seq![102u8, 70u8, 239u8, 143u8] }
    else if hid == 0x0a { seq![103u8, 71u8, 240u8, 144u8] }
    else if hid == 0x0b { seq![104u8, 72u8, 241u8, 145u8] }
    else if hid == 0x0c { seq![105u8, 73u8, 242u8, 146u8] }
    else if hid == 0x0d { seq![106u8, 74u8, 243u8, 147u8] }
    else if hid == 0x0e { seq![107u8, 75u8, 244u8, 148u8] }
    else if hid == 0x0f { seq![108u8, 76u8, 245u8, 149u8] }
    else if hid == 0x10 { seq![109u8, 77u8, 246u8, 150u8] }
    else if hid == 0x11 { seq![110u8, 78u8, 247u8, 151u8] }
    else if hid == 0x12 { seq![111u8, 79u8, 248u8, 152u8] }
    else if hid == 0x13 { seq![112u8, 80u8, 249u8, 153u8] }
    else if hid == 0x14 { seq![113u8, 81u8, 250u8, 154u8] }
    else if hid == 0x15 { seq![114u8, 82u8, 251u8, 155u8] }
    else if hid == 0x16 { seq![115u8, 83u8, 252u8, 156u8] }
    else if hid == 0x17 { seq![116u8, 84u8, 253u8, 157u8] }
    else if hid == 0x18 { seq![117u8, 85u8, 254u8, 158u8] }
    else if hid == 0x19 { seq![118u8, 86u8, 255u8, 159u8] }
    else if hid == 0x1a { seq![119u8, 87u8, 224u8, 128u8] }
    else if hid == 0x1b { seq![120u8, 88u8, 225u8, 129u8] }
    else if hid == 0x1c { seq![121u8, 89u8, 226u8, 130u8] }
    else if hid == 0x1d { seq![122u8, 90u8, 227u8, 131u8] }
    else if hid == 0x1e { seq![49u8, 33u8, 225u8, 129u8] }
    else if hid == 0x1f { seq![50u8, 64u8, 226u8, 130u8] }
    else if hid == 0x20 { seq![51u8, 35u8, 227u8, 131u8] }
    else if hid == 0x21 { seq![52u8, 36u8, 228u8, 132u8] }
    else if hid == 0x22 { seq![53u8, 37u8, 229u8, 133u8] }
    else if hid == 0x23 { seq![54u8, 94u8, 230u8, 134u8] }
    else if hid == 0x24 { seq![55u8, 38u8, 231u8, 135u8] }
    else if hid == 0x25 { seq![56u8, 42u8, 232u8, 136u8] }
    else if hid == 0x26 { seq![57u8, 40u8, 233u8, 137u8] }
    else if hid == 0x27 { seq![48u8, 41u8, 224u8, 128u8] }
    else if hid == 0x28 { seq![10u8, 16u8, 10u8, 16u8] }
    else if hid == 0x29 { seq![27u8, 27u8, 27u8, 27u8] }
    else if hid == 0x2a { seq![8u8, 8u8, 8u8, 8u8] }
    else if hid == 0x2b { seq![9u8, 9u8, 9u8, 9u8] }
    else if hid == 0x2c { seq![32u8, 14u8, 32u8, 14u8] }
    else if hid == 0x2d { seq![45u8, 95u8, 45u8, 95u8] }
    else if hid == 0x2e { seq![61u8, 43u8, 61u8, 43u8] }
    else if hid == 0x2f { seq![91u8, 123u8, 95u8, 95u8] }
    else if hid == 0x30 { seq![93u8, 125u8, 92u8, 92u8] }
    else if hid == 0x31 { seq![92u8, 124u8, 92u8, 124u8] }
    else if hid == 0x32 { seq![35u8, 126u8, 35u8, 126u8] }
    else if hid == 0x33 { seq![59u8, 58u8, 59u8, 58u8] }
    else if hid == 0x34 { seq![39u8, 34u8, 39u8, 34u8] }
    else if hid == 0x35 { seq![96u8, 126u8, 96u8, 126u8] }
    else if hid == 0x36 { seq![44u8, 60u8, 44u8, 60u8] }
    else if hid == 0x37 { seq![46u8, 62u8, 46u8, 62u8] }
    else if hid == 0x38 { seq![47u8, 63u8, 47u8, 63u8] }
    else if hid == 0x49 { seq![17u8, 17u8, 17u8, 17u8] }
    else if hid == 0x4a { seq![18u8, 18u8, 18u8, 18u8] }
    else if hid == 0x4b { seq![19u8, 19u8, 19u8, 19u8] }
    else if hid == 0x4c { seq![127u8, 127u8, 127u8, 127u8] }
    else if hid == 0x4d { seq![23u8, 23u8, 23u8, 23u8] }
    else if hid == 0x4e { seq![20u8, 20u8, 20u8, 20u8] }
    else if hid == 0x4f { seq![29u8, 29u8, 29u8, 29u8] }
    else if hid == 0x50 { seq![28u8, 28u8, 28u8, 28u8] }
    else if hid == 0x51 { seq![31u8, 31u8, 31u8, 31u8] }
    else if hid == 0x52 { seq![30u8, 30u8, 30u8, 30u8] }
    else if hid == 0x54 { seq![47u8, 47u8, 47u8, 47u8] }
    else if hid == 0x55 { seq![42u8, 42u8, 42u8, 42u8] }
    else if hid == 0x56 { seq![45u8, 45u8, 45u8, 45u8] }
    else if hid == 0x57 { seq![43u8, 43u8, 43u8, 43u8] }
    else if hid == 0x58 { seq![10u8, 16u8, 10u8, 16u8] }
    else if hid == 0x59 { seq![49u8, 49u8, 225u8, 129u8] }
    else if hid == 0x5a { seq![50u8, 50u8, 226u8, 130u8] }
    else if hid == 0x5b { seq![51u8, 51u8, 227u8, 131u8] }
    else if hid == 0x5c { seq![52u8, 52u8, 228u8, 132u8] }
    else if hid == 0x5d { seq![53u8, 53u8, 229u8, 133u8] }
    else if hid == 0x5e { seq![54u8, 54u8, 230u8, 134u8] }
    else if hid == 0x5f { seq![55u8, 55u8, 231u8, 135u8] }
    else if hid == 0x60 { seq![56u8, 56u8, 232u8, 136u8] }
    else if hid == 0x61 { seq![57u8, 57u8, 233u8, 137u8] }
    else if hid == 0x62 { seq![48u8, 48u8, 224u8, 128u8] }
    else if hid == 0x63 { seq![46u8, 46u8, 46u8, 46u8] }
    else if hid == 0x67 { seq![61u8, 61u8, 61u8, 61u8] }
    else { seq![0u8, 0u8, 0u8, 0u8] }
}

pub open spec fn ja_row(hid: u8) -> Seq<u8> {
    if hid == 0x04 { seq![97u8, 65u8, 234u8, 138u8] }
    else if hid == 0x05 { seq![98u8, 66u8, 235u8, 139u8] }
    else if hid == 0x06 { seq![99u8, 67u8, 236u8, 140u8] }
    else if hid == 0x07 { seq![100u8, 68u8, 237u8, 141u8] }
    else if hid == 0x08 { seq![101u8, 69u8, 238u8, 142u8] }
    else if hid == 0x09 { seq![102u8, 70u8, 239u8, 143u8] }
    else if hid == 0x0a { seq![103u8, 71u8, 240u8, 144u8] }
    else if hid == 0x0b { seq![104u8, 72u8, 241u8, 145u8] }
    else if hid == 0x0c { seq![105u8, 73u8, 242u8, 146u8] }
    else if hid == 0x0d { seq![106u8, 74u8, 243u8, 147u8] }
    else if hid == 0x0e { seq![107u8, 75u8, 244u8, 148u8] }
    else if hid == 0x0f { seq![108u8, 76u8, 245u8, 149u8] }
    else if hid == 0x10 { seq![109u8, 77u8, 246u8, 150u8] }
    else if hid == 0x11 { seq![110u8, 78u8, 247u8, 151u8] }
    else if hid == 0x12 { seq![111u8, 79u8, 248u8, 152u8] }
    else if hid == 0x13 { seq![112u8, 80u8, 249u8, 153u8] }
    else if hid == 0x14 { seq![113u8, 81u8, 250u8, 154u8] }
    else if hid == 0x15 { seq![114u8, 82u8, 251u8, 155u8] }
    else if hid == 0x16 { seq![115u8, 83u8, 252u8, 156u8] }
    else if hid == 0x17 { seq![116u8, 84u8, 253u8, 157u8] }
    else if hid == 0x18 { seq![117u8, 85u8, 254u8, 158u8] }
    else if hid == 0x19 { seq![118u8, 86u8, 255u8, 159u8] }
    else if hid == 0x1a { seq![119u8, 87u8, 224u8, 128u8] }
    else if hid == 0x1b { seq![120u8, 88u8, 225u8, 129u8] }
    else if hid == 0x1c { seq![121u8, 89u8, 226u8, 130u8] }
    else if hid == 0x1d { seq![122u8, 90u8, 227u8, 131u8] }
    else if hid == 0x1e { seq![49u8, 33u8, 225u8, 129u8] }
    else if hid == 0x1f { seq![50u8, 34u8, 226u8, 130u8] }
    else if hid == 0x20 { seq![51u8, 35u8, 227u8, 131u8] }
    else if hid == 0x21 { seq![52u8, 36u8, 228u8, 132u8] }
    else if hid == 0x22 { seq![53u8, 37u8, 229u8, 133u8] }
    else if hid == 0x23 { seq![54u8, 38u8, 230u8, 134u8] }
    else if hid == 0x24 { seq![55u8, 39u8, 231u8, 135u8] }
    else if hid == 0x25 { seq![56u8, 40u8, 232u8, 136u8] }
    else if hid == 0x26 { seq![57u8, 41u8, 233u8, 137u8] }
    else if hid == 0x27 { seq![48u8, 48u8, 224u8, 128u8] }
    else if hid == 0x28 { seq![10u8, 16u8, 10u8, 16u8] }
    else if hid == 0x29 { seq![27u8, 27u8, 27u8, 27u8] }
    else if hid == 0x2a { seq![8u8, 8u8, 8u8, 8u8] }
    else if hid == 0x2b { seq![9u8, 9u8, 9u8, 9u8] }
    else if hid == 0x2c { seq![32u8, 14u8, 32u8, 14u8] }
    else if hid == 0x2d { seq![45u8, 61u8, 45u8, 61u8] }
    else if hid == 0x2e { seq![94u8, 126u8, 94u8, 126u8] }
    else if hid == 0x2f { seq![64u8, 96u8, 64u8, 96u8] }
    else if hid == 0x30 { seq![91u8, 123u8, 95u8, 95u8] }
    else if hid == 0x31 { seq![92u8, 124u8, 92u8, 124u8] }
    else if hid == 0x32 { seq![93u8, 125u8, 92u8, 92u8] }
    else if hid == 0x33 { seq![59u8, 43u8, 59u8, 43u8] }
    else if hid == 0x34 { seq![58u8, 42u8, 58u8, 42u8] }
    else if hid == 0x35 { seq![32u8, 32u8, 32u8, 32u8] }
    else if hid == 0x36 { seq![44u8, 60u8, 44u8, 60u8] }
    else if hid == 0x37 { seq![46u8, 62u8, 46u8, 62u8] }
    else if hid == 0x38 { seq![47u8, 63u8, 47u8, 63u8] }
    else if hid == 0x49 { seq![17u8, 17u8, 17u8, 17u8] }
    else if hid == 0x4a { seq![18u8, 18u8, 18u8, 18u8] }
    else if hid == 0x4b { seq![19u8, 19u8, 19u8, 19u8] }
    else if hid == 0x4c { seq![127u8, 127u8, 127u8, 127u8] }
    else if hid == 0x4d { seq![23u8, 23u8, 23u8, 23u8] }
    else if hid == 0x4e { seq![20u8, 20u8, 20u8, 20u8] }
    else if hid == 0x4f { seq![29u8, 29u8, 29u8, 29u8] }
    else if hid == 0x50 { seq![28u8, 28u8, 28u8, 28u8] }
    else if hid == 0x51 { seq![31u8, 31u8, 31u8, 31u8] }
    else if hid == 0x52 { seq![30u8, 30u8, 30u8, 30u8] }
    else if hid == 0x54 { seq![47u8, 47u8, 47u8, 47u8] }
    else if hid == 0x55 { seq![42u8, 42u8, 42u8, 42u8] }
    else if hid == 0x56 { seq![45u8, 45u8, 45u8, 45u8] }
    else if hid == 0x57 { seq![43u8, 43u8, 43u8, 43u8] }
    else if hid == 0x58 { seq![10u8, 16u8, 10u8, 16u8] }
    else if hid == 0x59 { seq![49u8, 49u8, 225u8, 129u8] }
    else if hid == 0x5a { seq![50u8, 50u8, 226u8, 130u8] }
    else if hid == 0x5b { seq![51u8, 51u8, 227u8, 131u8] }
    else if hid == 0x5c { seq![52u8, 52u8, 228u8, 132u8] }
    else if hid == 0x5d { seq![53u8, 53u8, 229u8, 133u8] }
    else if hid == 0x5e { seq![54u8, 54u8, 230u8, 134u8] }
    else if hid == 0x5f { seq![55u8, 55u8, 231u8, 135u8] }
    else if hid == 0x60 { seq![56u8, 56u8, 232u8, 136u8] }
    else if hid == 0x61 { seq![57u8, 57u8, 233u8, 137u8] }
    else if hid == 0x62 { seq![48u8, 48u8, 224u8, 128u8] }
    else if hid == 0x63 { seq![46u8, 46u8, 46u8, 46u8] }
    else if hid == 0x67 { seq![61u8, 61u8, 61u8, 61u8] }
    else { seq![0u8, 0u8, 0u8, 0u8] }
}

fn us_row_exec(hid: u8) -> (r: [u8; 4])
    ensures
        r@ == us_row(hid),
{
    let r: [u8; 4] = match hid {
        0x04 => [97, 65, 234, 138],
        0x05 => [98, 66, 235, 139],
        0x06 => [99, 67, 236, 140],
        0x07 => [100, 68, 237, 141],
        0x08 => [101, 69, 238, 142],
        0x09 => [102, 70, 239, 143],
        0x0a => [103, 71, 240, 144],
        0x0b => [104, 72, 241, 145],
        0x0c => [105, 73, 242, 146],
        0x0d => [106, 74, 243, 147],
        0x0e => [107, 75, 244, 148],
        0x0f => [108, 76, 245, 149],
        0x10 => [109, 77, 246, 150],
        0x11 => [110, 78, 247, 151],
        0x12 => [111, 79, 248, 152],
        0x13 => [112, 80, 249, 153],
        0x14 => [113, 81, 250, 154],
        0x15 => [114, 82, 251, 155],
        0x16 => [115, 83, 252, 156],
        0x17 => [116, 84, 253, 157],
        0x18 => [117, 85, 254, 158],
        0x19 => [118, 86, 255, 159],
        0x1a => [119, 87, 224, 128],
        0x1b => [120, 88, 225, 129],
        0x1c => [121, 89, 226, 130],
        0x1d => [122, 90, 227, 131],
        0x1e => [49, 33, 225, 129],
        0x1f => [50, 64, 226, 130],
        0x20 => [51, 35, 227, 131],
        0x21 => [52, 36, 228, 132],
        0x22 => [53, 37, 229, 133],
        0x23 => [54, 94, 230, 134],
        0x24 => [55, 38, 231, 135],
        0x25 => [56, 42, 232, 136],
        0x26 => [57, 40, 233, 137],
        0x27 => [48, 41, 224, 128],
        0x28 => [10, 16, 10, 16],
        0x29 => [27, 27, 27, 27],
        0x2a => [8, 8, 8, 8],
        0x2b => [9, 9, 9, 9],
        0x2c => [32, 14, 32, 14],
        0x2d => [45, 95, 45, 95],
        0x2e => [61, 43, 61, 43],
        0x2f => [91, 123, 95, 95],
        0x30 => [93, 125, 92, 92],
        0x31 => [92, 124, 92, 124],
        0x32 => [35, 126, 35, 126],
        0x33 => [59, 58, 59, 58],
        0x34 => [39, 34, 39, 34],
        0x35 => [96, 126, 96, 126],
        0x36 => [44, 60, 44, 60],
        0x37 => [46, 62, 46, 62],
        0x38 => [47, 63, 47, 63],
        0x49 => [17, 17, 17, 17],
        0x4a => [18, 18, 18, 18],
        0x4b => [19, 19, 19, 19],
        0x4c => [127, 127, 127, 127],
        0x4d => [23, 23, 23, 23],
        0x4e => [20, 20, 20, 20],
        0x4f => [29, 29, 29, 29],
        0x50 => [28, 28, 28, 28],
        0x51 => [31, 31, 31, 31],
        0x52 => [30, 30, 30, 30],
        0x54 => [47, 47, 47, 47],
        0x55 => [42, 42, 42, 42],
        0x56 => [45, 45, 45, 45],
        0x57 => [43, 43, 43, 43],
        0x58 => [10, 16, 10, 16],
        0x59 => [49, 49, 225, 129],
        0x5a => [50, 50, 226, 130],
        0x5b => [51, 51, 227, 131],
        0x5c => [52, 52, 228, 132],
        0x5d => [53, 53, 229, 133],
        0x5e => [54, 54, 230, 134],
        0x5f => [55, 55, 231, 135],
        0x60 => [56, 56, 232, 136],
        0x61 => [57, 57, 233, 137],
        0x62 => [48, 48, 224, 128],
        0x63 => [46, 46, 46, 46],
        0x67 => [61, 61, 61, 61],
        _ => [0, 0, 0, 0],
    };
    assert(r@ =~= us_row(hid));
    r
}

fn ja_row_exec(hid: u8) -> (r: [u8; 4])
    ensures
        r@ == ja_row(hid),
{
    let r: [u8; 4] = match hid {
        0x04 => [97, 65, 234, 138],
        0x05 => [98, 66, 235, 139],
        0x06 => [99, 67, 236, 140],
        0x07 => [100, 68, 237, 141],
        0x08 => [101, 69, 238, 142],
        0x09 => [102, 70, 239, 143],
        0x0a => [103, 71, 240, 144],
        0x0b => [104, 72, 241, 145],
        0x0c => [105, 73, 242, 146],
        0x0d => [106, 74, 243, 147],
        0x0e => [107, 75, 244, 148],
        0x0f => [108, 76, 245, 149],
        0x10 => [109, 77, 246, 150],
        0x11 => [110, 78, 247, 151],
        0x12 => [111, 79, 248, 152],
        0x13 => [112, 80, 249, 153],
        0x14 => [113, 81, 250, 154],
        0x15 => [114, 82, 251, 155],
        0x16 => [115, 83, 252, 156],
        0x17 => [116, 84, 253, 157],
        0x18 => [117, 85, 254, 158],
        0x19 => [118, 86, 255, 159],
        0x1a => [119, 87, 224, 128],
        0x1b => [120, 88, 225, 129],
        0x1c => [121, 89, 226, 130],
        0x1d => [122, 90, 227, 131],
        0x1e => [49, 33, 225, 129],
        0x1f => [50, 34, 226, 130],
        0x20 => [51, 35, 227, 131],
        0x21 => [52, 36, 228, 132],
        0x22 => [53, 37, 229, 133],
        0x23 => [54, 38, 230, 134],
        0x24 => [55, 39, 231, 135],
        0x25 => [56, 40, 232, 136],
        0x26 => [57, 41, 233, 137],
        0x27 => [48, 48, 224, 128],
        0x28 => [10, 16, 10, 16],
        0x29 => [27, 27, 27, 27],
        0x2a => [8, 8, 8, 8],
        0x2b => [9, 9, 9, 9],
        0x2c => [32, 14, 32, 14],
        0x2d => [45, 61, 45, 61],
        0x2e => [94, 126, 94, 126],
        0x2f => [64, 96, 64, 96],
        0x30 => [91, 123, 95, 95],
        0x31 => [92, 124, 92, 124],
        0x32 => [93, 125, 92, 92],
        0x33 => [59, 43, 59, 43],
        0x34 => [58, 42, 58, 42],
        0x35 => [32, 32, 32, 32],
        0x36 => [44, 60, 44, 60],
        0x37 => [46, 62, 46, 62],
        0x38 => [47, 63, 47, 63],
        0x49 => [17, 17, 17, 17],
        0x4a => [18, 18, 18, 18],
        0x4b => [19, 19, 19, 19],
        0x4c => [127, 127, 127, 127],
        0x4d => [23, 23, 23, 23],
        0x4e => [20, 20, 20, 20],
        0x4f => [29, 29, 29, 29],
        0x50 => [28, 28, 28, 28],
        0x51 => [31, 31, 31, 31],
        0x52 => [30, 30, 30, 30],
        0x54 => [47, 47, 47, 47],
        0x55 => [42, 42, 42, 42],
        0x56 => [45, 45, 45, 45],
        0x57 => [43, 43, 43, 43],
        0x58 => [10, 16, 10, 16],
        0x59 => [49, 49, 225, 129],
        0x5a => [50, 50, 226, 130],
        0x5b => [51, 51, 227, 131],
        0x5c => [52, 52, 228, 132],
        0x5d => [53, 53, 229, 133],
        0x5e => [54, 54, 230, 134],
        0x5f => [55, 55, 231, 135],
        0x60 => [56, 56, 232, 136],
        0x61 => [57, 57, 233, 137],
        0x62 => [48, 48, 224, 128],
        0x63 => [46, 46, 46, 46],
        0x67 => [61, 61, 61, 61],
        _ => [0, 0, 0, 0],
    };
    assert(r@ =~= ja_row(hid));
    r
}

/// The entry for HID usage `hid` and column `col` (0 plain, 1 shift, 2 alt,
/// 3 alt+shift) of a layout: 0 = US, anything else = JA. Usages 128 and up
/// have no entry.
pub open spec fn keymap_entry(keyboard_id: u8, hid: u8, col: int) -> u8 {
    if hid >= 128 {
        0
    } else if keyboard_id == 0 {
        us_row(hid)[col]
    } else {
        ja_row(hid)[col]
    }
}

/// A table with every entry 0.
pub fn empty_table() -> (t: Vec<[u8; 4]>)
    ensures
        t@.len() == 128,
        forall|h: int| 0 <= h < 128 ==> t@[h]@ == seq![0u8, 0u8, 0u8, 0u8],
{
    let mut t: Vec<[u8; 4]> = Vec::new();
    let mut i: usize = 0;
    while i < 128
        invariant
            i <= 128,
            t@.len() == i,
            forall|h: int| 0 <= h < i ==> t@[h]@ == seq![0u8, 0u8, 0u8, 0u8],
        decreases 128 - i,
    {
        let z: [u8; 4] = [0, 0, 0, 0];
        assert(z@ =~= seq![0u8, 0u8, 0u8, 0u8]);
        t.push(z);
        i = i + 1;
    }
    t
}

/// The US layout table, indexed by HID usage.
pub fn build_us() -> (t: Vec<[u8; 4]>)
    ensures
        t@.len() == 128,
        forall|h: int| 0 <= h < 128 ==> t@[h]@ == us_row(h as u8),
{
    let mut t: Vec<[u8; 4]> = Vec::new();
    let mut i: u8 = 0;
    while i < 128
        invariant
            i <= 128,
            t@.len() == i,
            forall|h: int| 0 <= h < i ==> t@[h]@ == us_row(h as u8),
        decreases 128 - i,
    {
        t.push(us_row_exec(i));
        i = i + 1;
    }
    t
}

/// The JA layout table, indexed by HID usage.
pub fn build_ja() -> (t: Vec<[u8; 4]>)
    ensures
        t@.len() == 128,
        forall|h: int| 0 <= h < 128 ==> t@[h]@ == ja_row(h as u8),
{
    let mut t: Vec<[u8; 4]> = Vec::new();
    let mut i: u8 = 0;
    while i < 128
        invariant
            i <= 128,
            t@.len() == i,
            forall|h: int| 0 <= h < i ==> t@[h]@ == ja_row(h as u8),
        decreases 128 - i,
    {
        t.push(ja_row_exec(i));
        i = i + 1;
    }
    t
}

/// HID usage and modifier keys to an IchigoJam code, in the layout
/// `keyboard_id` (0 = US, anything else = JA). 0 means that the key types nothing.
pub fn lookup(keyboard_id: u8, hid: u8, shift: bool, alt: bool) -> (r: u8)
    ensures
        r == keymap_entry(keyboard_id, hid, (if alt { 2int } else { 0int }) + (if shift { 1int } else { 0int })),
{
    if hid >= 128 {
        return 0;
    }
    let row: [u8; 4] = if keyboard_id == 0 { us_row_exec(hid) } else { ja_row_exec(hid) };
    let col: usize = (if alt { 2 } else { 0 }) + (if shift { 1 } else { 0 });
    row[col]
}

/// The letter keys type the same in both layouts, and shift gives the
/// upper-case letter.
pub proof fn lemma_letters_layout_independent(hid: u8, col: int)
    requires
        0x04 <= hid <= 0x1d,
        0 <= col < 4,
    ensures
        keymap_entry(0, hid, col) == keymap_entry(1, hid, col),
        keymap_entry(0, hid, 0) == hid + 93,
        keymap_entry(0, hid, 1) == hid + 61,
{
}

/// Every layout id other than 0 selects the JA layout.
pub proof fn lemma_nonzero_ids_are_ja(k1: u8, k2: u8, hid: u8, col: int)
    requires
        k1 != 0,
        k2 != 0,
    ensures
        keymap_entry(k1, hid, col) == keymap_entry(k2, hid, col),
{
}

/// The JA layout types what the US layout does, except on the shifted digit
/// keys (0x1e..=0x27, shift column) and on the symbol keys (0x2d..=0x38).
pub proof fn lemma_ja_differs_only_on_symbols(hid: u8, col: int)
    requires
        hid < 128,
        0 <= col < 4,
        !(0x1e <= hid <= 0x27 && col == 1),
        !(0x2d <= hid <= 0x38),
    ensures
        keymap_entry(1, hid, col) == keymap_entry(0, hid, col),
{
}

/// The symbols on the digit keys 1 2 3 4 5 6 7 8 9 0 of a US keyboard.
pub open spec fn us_digit_symbols() -> Seq<u8> {
    seq![33u8, 64u8, 35u8, 36u8, 37u8, 94u8, 38u8, 42u8, 40u8, 41u8]
}

/// On the US layout, Shift with a digit key types the symbol printed on that
/// key (`!@#$%^&*()` for 1..9, 0), and no two digit keys type the same
/// symbol with Shift or without.
pub proof fn lemma_us_shifted_digits(h1: u8, h2: u8)
    requires
        0x1e <= h1 <= 0x27,
        0x1e <= h2 <= 0x27,
    ensures
        keymap_entry(0, h1, 1) == us_digit_symbols()[h1 - 0x1e],
        h1 != h2 ==> keymap_entry(0, h1, 1) != keymap_entry(0, h2, 1),
        h1 != h2 ==> keymap_entry(0, h1, 0) != keymap_entry(0, h2, 0),
        keymap_entry(0, h1, 0) == (if h1 == 0x27 { 48u8 } else { (h1 - 0x1e + 49) as u8 }),
{
}

/// The symbols on the digit keys 1 2 3 4 5 6 7 8 9 0 of a JIS keyboard
/// (Shift+0 types 0).
pub open spec fn ja_digit_symbols() -> Seq<u8> {
    seq![33u8, 34u8, 35u8, 36u8, 37u8, 38u8, 39u8, 40u8, 41u8, 48u8]
}

/// On the JA layout, Shift with a digit key types the symbol printed on that
/// key of a JIS keyboard (`!"#$%&'()` for 1..9; 0 has none and types 0).
pub proof fn lemma_ja_shifted_digits(h: u8)
    requires
        0x1e <= h <= 0x27,
    ensures
        keymap_entry(1, h, 1) == ja_digit_symbols()[h - 0x1e],
        keymap_entry(1, h, 0) == keymap_entry(0, h, 0),
{
}

/// The US symbol keys (HID 0x2d..0x38, except the non-US 0x32) type the
/// characters printed on them: `- = [ ] \ ; ' ` , . /` plain and
/// `_ + { } | : " ~ < > ?` with Shift.
pub proof fn lemma_us_symbol_keys(h: u8)
    requires
        0x2d <= h <= 0x38,
        h != 0x32,
    ensures
        ({
            let k = if h < 0x32 { h - 0x2d } else { h - 0x2e };
            &&& keymap_entry(0, h, 0) == seq![45u8, 61u8, 91u8, 93u8, 92u8, 59u8, 39u8, 96u8, 44u8, 46u8, 47u8][k]
            &&& keymap_entry(0, h, 1) == seq![95u8, 43u8, 123u8, 125u8, 124u8, 58u8, 34u8, 126u8, 60u8, 62u8, 63u8][k]
        }),
{
}

} // verus!
