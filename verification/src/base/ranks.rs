//! The ranks of numbers that the rules are written with.
use vstd::prelude::*;

verus! {

/// The rank of 1e-12.
pub const R_1E_MINUS_12: i64 = 0x3D71_9799_812D_EA11;

/// The rank of 1e-09.
pub const R_1E_MINUS_09: i64 = 0x3E11_2E0B_E826_D695;

/// The rank of 1e-06.
pub const R_1E_MINUS_06: i64 = 0x3EB0_C6F7_A0B5_ED8D;

/// The rank of 0.0001.
pub const R_0_0001: i64 = 0x3F1A_36E2_EB1C_432D;

/// The rank of 0.001.
pub const R_0_001: i64 = 0x3F50_624D_D2F1_A9FC;

/// The rank of 0.005.
pub const R_0_005: i64 = 0x3F74_7AE1_47AE_147B;

/// The rank of 0.01.
pub const R_0_01: i64 = 0x3F84_7AE1_47AE_147B;

/// The rank of 0.02.
pub const R_0_02: i64 = 0x3F94_7AE1_47AE_147B;

/// The rank of 0.03.
pub const R_0_03: i64 = 0x3F9E_B851_EB85_1EB8;

/// The rank of 0.05.
pub const R_0_05: i64 = 0x3FA9_9999_9999_999A;

/// The rank of 0.1.
pub const R_0_1: i64 = 0x3FB9_9999_9999_999A;

/// The rank of 0.12.
pub const R_0_12: i64 = 0x3FBE_B851_EB85_1EB8;

/// The rank of 0.15.
pub const R_0_15: i64 = 0x3FC3_3333_3333_3333;

/// The rank of 0.2.
pub const R_0_2: i64 = 0x3FC9_9999_9999_999A;

/// The rank of 0.25.
pub const R_0_25: i64 = 0x3FD0_0000_0000_0000;

/// The rank of 0.3.
pub const R_0_3: i64 = 0x3FD3_3333_3333_3333;

/// The rank of 0.35.
pub const R_0_35: i64 = 0x3FD6_6666_6666_6666;

/// The rank of 0.6.
pub const R_0_6: i64 = 0x3FE3_3333_3333_3333;

/// The rank of 0.7.
pub const R_0_7: i64 = 0x3FE6_6666_6666_6666;

/// The rank of 0.75.
pub const R_0_75: i64 = 0x3FE8_0000_0000_0000;

/// The rank of 0.8.
pub const R_0_8: i64 = 0x3FE9_9999_9999_999A;

/// The rank of 0.84.
pub const R_0_84: i64 = 0x3FEA_E147_AE14_7AE1;

/// The rank of 0.85.
pub const R_0_85: i64 = 0x3FEB_3333_3333_3333;

/// The rank of 0.86.
pub const R_0_86: i64 = 0x3FEB_851E_B851_EB85;

/// The rank of 0.87.
pub const R_0_87: i64 = 0x3FEB_D70A_3D70_A3D7;

/// The rank of 0.88.
pub const R_0_88: i64 = 0x3FEC_28F5_C28F_5C29;

/// The rank of 0.9.
pub const R_0_9: i64 = 0x3FEC_CCCC_CCCC_CCCD;

/// The rank of 0.95.
pub const R_0_95: i64 = 0x3FEE_6666_6666_6666;

/// The rank of 0.99.
pub const R_0_99: i64 = 0x3FEF_AE14_7AE1_47AE;

/// The rank of 0.999.
pub const R_0_999: i64 = 0x3FEF_F7CE_D916_872B;

/// The rank of 0.9999.
pub const R_0_9999: i64 = 0x3FEF_FF2E_48E8_A71E;

/// The rank of 1.2.
pub const R_1_2: i64 = 0x3FF3_3333_3333_3333;

/// The rank of 1.5.
pub const R_1_5: i64 = 0x3FF8_0000_0000_0000;

/// The rank of 2.0.
pub const R_2: i64 = 0x4000_0000_0000_0000;

/// The rank of 3.0.
pub const R_3: i64 = 0x4008_0000_0000_0000;

/// The rank of 5.0.
pub const R_5: i64 = 0x4014_0000_0000_0000;

/// The rank of 10.0.
pub const R_10: i64 = 0x4024_0000_0000_0000;

/// The rank of 50.0.
pub const R_50: i64 = 0x4049_0000_0000_0000;

/// The rank of 95.0.
pub const R_95: i64 = 0x4057_C000_0000_0000;

/// The rank of 100.0.
pub const R_100: i64 = 0x4059_0000_0000_0000;

/// The rank of 240.0.
pub const R_240: i64 = 0x406E_0000_0000_0000;

/// The rank of 250.0.
pub const R_250: i64 = 0x406F_4000_0000_0000;

/// The rank of 300.0.
pub const R_300: i64 = 0x4072_C000_0000_0000;

/// The rank of 500.0.
pub const R_500: i64 = 0x407F_4000_0000_0000;

/// The rank of 999.0.
pub const R_999: i64 = 0x408F_3800_0000_0000;

/// The rank of 10000.0.
pub const R_10000: i64 = 0x40C3_8800_0000_0000;

/// The rank of 50000.0.
pub const R_50000: i64 = 0x40E8_6A00_0000_0000;

/// The rank of 999999.0.
pub const R_999999: i64 = 0x412E_847E_0000_0000;

/// Each rank is that of the binary64 number nearest to the one it is called after: it has the
/// exponent of that number, and its significand is at most half a step off.
pub proof fn law_ranks_are_nearest()
    ensures
        0x3D70_0000_0000_0000 <= R_1E_MINUS_12 < 0x3D80_0000_0000_0000,
        -1000000000000 <= 2 * (1000000000000 * (R_1E_MINUS_12 - 0x3D60000000000000) - 1 * 0x100000000000000000000000int) <= 1000000000000,
        0x3E10_0000_0000_0000 <= R_1E_MINUS_09 < 0x3E20_0000_0000_0000,
        -1000000000 <= 2 * (1000000000 * (R_1E_MINUS_09 - 0x3E00000000000000) - 1 * 0x400000000000000000000int) <= 1000000000,
        0x3EB0_0000_0000_0000 <= R_1E_MINUS_06 < 0x3EC0_0000_0000_0000,
        -1000000 <= 2 * (1000000 * (R_1E_MINUS_06 - 0x3EA0000000000000) - 1 * 0x1000000000000000000int) <= 1000000,
        0x3F10_0000_0000_0000 <= R_0_0001 < 0x3F20_0000_0000_0000,
        -10000 <= 2 * (10000 * (R_0_0001 - 0x3F00000000000000) - 1 * 0x40000000000000000int) <= 10000,
        0x3F50_0000_0000_0000 <= R_0_001 < 0x3F60_0000_0000_0000,
        -1000 <= 2 * (1000 * (R_0_001 - 0x3F40000000000000) - 1 * 0x4000000000000000int) <= 1000,
        0x3F70_0000_0000_0000 <= R_0_005 < 0x3F80_0000_0000_0000,
        -200 <= 2 * (200 * (R_0_005 - 0x3F60000000000000) - 1 * 0x1000000000000000int) <= 200,
        0x3F80_0000_0000_0000 <= R_0_01 < 0x3F90_0000_0000_0000,
        -100 <= 2 * (100 * (R_0_01 - 0x3F70000000000000) - 1 * 0x800000000000000int) <= 100,
        0x3F90_0000_0000_0000 <= R_0_02 < 0x3FA0_0000_0000_0000,
        -50 <= 2 * (50 * (R_0_02 - 0x3F80000000000000) - 1 * 0x400000000000000int) <= 50,
        0x3F90_0000_0000_0000 <= R_0_03 < 0x3FA0_0000_0000_0000,
        -100 <= 2 * (100 * (R_0_03 - 0x3F80000000000000) - 3 * 0x400000000000000int) <= 100,
        0x3FA0_0000_0000_0000 <= R_0_05 < 0x3FB0_0000_0000_0000,
        -20 <= 2 * (20 * (R_0_05 - 0x3F90000000000000) - 1 * 0x200000000000000int) <= 20,
        0x3FB0_0000_0000_0000 <= R_0_1 < 0x3FC0_0000_0000_0000,
        -10 <= 2 * (10 * (R_0_1 - 0x3FA0000000000000) - 1 * 0x100000000000000int) <= 10,
        0x3FB0_0000_0000_0000 <= R_0_12 < 0x3FC0_0000_0000_0000,
        -25 <= 2 * (25 * (R_0_12 - 0x3FA0000000000000) - 3 * 0x100000000000000int) <= 25,
        0x3FC0_0000_0000_0000 <= R_0_15 < 0x3FD0_0000_0000_0000,
        -20 <= 2 * (20 * (R_0_15 - 0x3FB0000000000000) - 3 * 0x80000000000000int) <= 20,
        0x3FC0_0000_0000_0000 <= R_0_2 < 0x3FD0_0000_0000_0000,
        -5 <= 2 * (5 * (R_0_2 - 0x3FB0000000000000) - 1 * 0x80000000000000int) <= 5,
        0x3FD0_0000_0000_0000 <= R_0_25 < 0x3FE0_0000_0000_0000,
        -4 <= 2 * (4 * (R_0_25 - 0x3FC0000000000000) - 1 * 0x40000000000000int) <= 4,
        0x3FD0_0000_0000_0000 <= R_0_3 < 0x3FE0_0000_0000_0000,
        -10 <= 2 * (10 * (R_0_3 - 0x3FC0000000000000) - 3 * 0x40000000000000int) <= 10,
        0x3FD0_0000_0000_0000 <= R_0_35 < 0x3FE0_0000_0000_0000,
        -20 <= 2 * (20 * (R_0_35 - 0x3FC0000000000000) - 7 * 0x40000000000000int) <= 20,
        0x3FE0_0000_0000_0000 <= R_0_6 < 0x3FF0_0000_0000_0000,
        -5 <= 2 * (5 * (R_0_6 - 0x3FD0000000000000) - 3 * 0x20000000000000int) <= 5,
        0x3FE0_0000_0000_0000 <= R_0_7 < 0x3FF0_0000_0000_0000,
        -10 <= 2 * (10 * (R_0_7 - 0x3FD0000000000000) - 7 * 0x20000000000000int) <= 10,
        0x3FE0_0000_0000_0000 <= R_0_75 < 0x3FF0_0000_0000_0000,
        -4 <= 2 * (4 * (R_0_75 - 0x3FD0000000000000) - 3 * 0x20000000000000int) <= 4,
        0x3FE0_0000_0000_0000 <= R_0_8 < 0x3FF0_0000_0000_0000,
        -5 <= 2 * (5 * (R_0_8 - 0x3FD0000000000000) - 4 * 0x20000000000000int) <= 5,
        0x3FE0_0000_0000_0000 <= R_0_84 < 0x3FF0_0000_0000_0000,
        -25 <= 2 * (25 * (R_0_84 - 0x3FD0000000000000) - 21 * 0x20000000000000int) <= 25,
        0x3FE0_0000_0000_0000 <= R_0_85 < 0x3FF0_0000_0000_0000,
        -20 <= 2 * (20 * (R_0_85 - 0x3FD0000000000000) - 17 * 0x20000000000000int) <= 20,
        0x3FE0_0000_0000_0000 <= R_0_86 < 0x3FF0_0000_0000_0000,
        -50 <= 2 * (50 * (R_0_86 - 0x3FD0000000000000) - 43 * 0x20000000000000int) <= 50,
        0x3FE0_0000_0000_0000 <= R_0_87 < 0x3FF0_0000_0000_0000,
        -100 <= 2 * (100 * (R_0_87 - 0x3FD0000000000000) - 87 * 0x20000000000000int) <= 100,
        0x3FE0_0000_0000_0000 <= R_0_88 < 0x3FF0_0000_0000_0000,
        -25 <= 2 * (25 * (R_0_88 - 0x3FD0000000000000) - 22 * 0x20000000000000int) <= 25,
        0x3FE0_0000_0000_0000 <= R_0_9 < 0x3FF0_0000_0000_0000,
        -10 <= 2 * (10 * (R_0_9 - 0x3FD0000000000000) - 9 * 0x20000000000000int) <= 10,
        0x3FE0_0000_0000_0000 <= R_0_95 < 0x3FF0_0000_0000_0000,
        -20 <= 2 * (20 * (R_0_95 - 0x3FD0000000000000) - 19 * 0x20000000000000int) <= 20,
        0x3FE0_0000_0000_0000 <= R_0_99 < 0x3FF0_0000_0000_0000,
        -100 <= 2 * (100 * (R_0_99 - 0x3FD0000000000000) - 99 * 0x20000000000000int) <= 100,
        0x3FE0_0000_0000_0000 <= R_0_999 < 0x3FF0_0000_0000_0000,
        -1000 <= 2 * (1000 * (R_0_999 - 0x3FD0000000000000) - 999 * 0x20000000000000int) <= 1000,
        0x3FE0_0000_0000_0000 <= R_0_9999 < 0x3FF0_0000_0000_0000,
        -10000 <= 2 * (10000 * (R_0_9999 - 0x3FD0000000000000) - 9999 * 0x20000000000000int) <= 10000,
        0x3FF0_0000_0000_0000 <= R_1_2 < 0x4000_0000_0000_0000,
        -5 <= 2 * (5 * (R_1_2 - 0x3FE0000000000000) - 6 * 0x10000000000000int) <= 5,
        0x3FF0_0000_0000_0000 <= R_1_5 < 0x4000_0000_0000_0000,
        -2 <= 2 * (2 * (R_1_5 - 0x3FE0000000000000) - 3 * 0x10000000000000int) <= 2,
        0x4000_0000_0000_0000 <= R_2 < 0x4010_0000_0000_0000,
        -1 <= 2 * (1 * (R_2 - 0x3FF0000000000000) - 2 * 0x8000000000000int) <= 1,
        0x4000_0000_0000_0000 <= R_3 < 0x4010_0000_0000_0000,
        -1 <= 2 * (1 * (R_3 - 0x3FF0000000000000) - 3 * 0x8000000000000int) <= 1,
        0x4010_0000_0000_0000 <= R_5 < 0x4020_0000_0000_0000,
        -1 <= 2 * (1 * (R_5 - 0x4000000000000000) - 5 * 0x4000000000000int) <= 1,
        0x4020_0000_0000_0000 <= R_10 < 0x4030_0000_0000_0000,
        -1 <= 2 * (1 * (R_10 - 0x4010000000000000) - 10 * 0x2000000000000int) <= 1,
        0x4040_0000_0000_0000 <= R_50 < 0x4050_0000_0000_0000,
        -1 <= 2 * (1 * (R_50 - 0x4030000000000000) - 50 * 0x800000000000int) <= 1,
        0x4050_0000_0000_0000 <= R_95 < 0x4060_0000_0000_0000,
        -1 <= 2 * (1 * (R_95 - 0x4040000000000000) - 95 * 0x400000000000int) <= 1,
        0x4050_0000_0000_0000 <= R_100 < 0x4060_0000_0000_0000,
        -1 <= 2 * (1 * (R_100 - 0x4040000000000000) - 100 * 0x400000000000int) <= 1,
        0x4060_0000_0000_0000 <= R_240 < 0x4070_0000_0000_0000,
        -1 <= 2 * (1 * (R_240 - 0x4050000000000000) - 240 * 0x200000000000int) <= 1,
        0x4060_0000_0000_0000 <= R_250 < 0x4070_0000_0000_0000,
        -1 <= 2 * (1 * (R_250 - 0x4050000000000000) - 250 * 0x200000000000int) <= 1,
        0x4070_0000_0000_0000 <= R_300 < 0x4080_0000_0000_0000,
        -1 <= 2 * (1 * (R_300 - 0x4060000000000000) - 300 * 0x100000000000int) <= 1,
        0x4070_0000_0000_0000 <= R_500 < 0x4080_0000_0000_0000,
        -1 <= 2 * (1 * (R_500 - 0x4060000000000000) - 500 * 0x100000000000int) <= 1,
        0x4080_0000_0000_0000 <= R_999 < 0x4090_0000_0000_0000,
        -1 <= 2 * (1 * (R_999 - 0x4070000000000000) - 999 * 0x80000000000int) <= 1,
        0x40C0_0000_0000_0000 <= R_10000 < 0x40D0_0000_0000_0000,
        -1 <= 2 * (1 * (R_10000 - 0x40B0000000000000) - 10000 * 0x8000000000int) <= 1,
        0x40E0_0000_0000_0000 <= R_50000 < 0x40F0_0000_0000_0000,
        -1 <= 2 * (1 * (R_50000 - 0x40D0000000000000) - 50000 * 0x2000000000int) <= 1,
        0x4120_0000_0000_0000 <= R_999999 < 0x4130_0000_0000_0000,
        -1 <= 2 * (1 * (R_999999 - 0x4110000000000000) - 999999 * 0x200000000int) <= 1,
{
}

} // verus!
