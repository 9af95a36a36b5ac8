//! Named positions for trying the engine: openings, middle games, endings,
//! checks, mates and special cases.

use vstd::prelude::*;

verus! {

pub const START: &'static str = "XXXXKXXXX/9/1X5X1/X1X1X1X1X/9/9/x1x1x1x1x/1x5x1/9/xxxxkxxxx -:- r r";
pub const EARLY_1: &'static str = "XXXXKXXXX/9/1X5X1/X1X1X1X1X/9/4X4/x1x1x1x1x/1x5x1/9/xxxxkxxxx -:- b r";
pub const EARLY_2: &'static str = "XXXXKXXXX/9/1X5X1/X1X1X1X1X/4x4/4X4/x1x1x1x1x/1x5x1/9/xxxxkxxxx -:- r r";
pub const EARLY_3: &'static str = "XXXXKXXXX/9/1X5X1/X1X1X1X1X/4x4/2X1X4/x1x1x1x1x/1x5x1/9/xxxxkxxxx -:- b r";
pub const EARLY_4: &'static str = "XXXXKXXXX/9/1X5X1/X1X1X1X1X/4x4/2X1X4/x1x1x1x1x/9/1x5x1/xxxxkxxxx -:- r r";
pub const EARLY_5: &'static str = "XXXXKXXXX/9/1X5X1/X1X1X1X1X/4x4/2X1X1X2/x1x1x1x1x/9/1x3x1x1/xxxxkxxxx -:- b r";
pub const EARLY_6: &'static str = "XXXXKXXXX/9/1X5X1/X1X1C1X1X/4x4/2X5X/x1x1x1x1x/9/1x3x1x1/xxxxkxxxx C:h r r";
pub const EARLY_7: &'static str = "XXXXKXXXX/9/1R5X1/X1X1C1X1X/4x4/2X5X/x1x1c1x1x/9/1r3x1x1/xxxxkxxxx C:h r r";
pub const EARLY_8: &'static str = "XXXXKXXXX/9/1X5X1/X1X1X1X1X/9/4X4/x1x1x1x1x/1x3x3/2x3x2/xxxxkxxxx -:- r r";
pub const EARLY_9: &'static str = "XXXXKXXXX/9/1X5X1/X1X1X1X1X/9/2X6/x1x1x1x1x/1x5x1/9/xxxxkxxxx -:- b r";
pub const EARLY_10: &'static str = "XXXXKXXXX/9/1X3X3/X1X1X1X1X/9/9/x1x1x1x1x/1x5x1/9/xxxxkxxxx -:- b r";
pub const EARLY_11: &'static str = START;
pub const EARLY_12: &'static str = START;
pub const EARLY_13: &'static str = START;
pub const EARLY_14: &'static str = START;
pub const EARLY_15: &'static str = START;
pub const EARLY_16: &'static str = START;
pub const EARLY_17: &'static str = START;
pub const EARLY_18: &'static str = START;
pub const EARLY_19: &'static str = START;
pub const EARLY_20: &'static str = START;
pub const MID_1: &'static str = "4K4/9/4E4/R1P1P1P1R/9/9/r1p1p1p1r/4e4/9/4k4 -:- r r";
pub const MID_2: &'static str = "4K4/9/4E4/R1P1C1P1R/9/9/r1p1c1p1r/4e4/9/4k4 -:- r r";
pub const MID_3: &'static str = "1H2K2H1/9/4E4/R1P1C1P1R/9/9/r1p1c1p1r/4e4/9/1h2k2h1 -:- r r";
pub const MID_4: &'static str = "1X2K2X1/9/4E4/R1X1C1X1R/9/9/r1x1c1x1r/4e4/9/1x2k2x1 -:- r r";
pub const MID_5: &'static str = "4K4/9/4E4/R1P1C1P1R/4H4/9/r1p1p1p1r/4e4/9/4k4 -:- r r";
pub const MID_6: &'static str = "4K4/9/4E4/R1P1P1P1R/9/4h4/r1p1c1p1r/4e4/9/4k4 -:- r r";
pub const MID_7: &'static str = "4K4/9/9/R7R/9/9/r7r/9/9/4k4 -:- r r";
pub const MID_8: &'static str = "4K4/9/9/R3C4/9/9/r3c4/9/9/4k4 -:- r r";
pub const MID_9: &'static str = "4K4/9/9/R3H4/9/9/r3h4/9/9/4k4 -:- r r";
pub const MID_10: &'static str = "1XXXKxxx1/9/1X5x1/X1X1X1x1x/9/9/x1x1x1X1X/1x5X1/9/1xxxkXXX1 -:- r r";
pub const MID_11: &'static str = MID_1;
pub const MID_12: &'static str = MID_1;
pub const MID_13: &'static str = MID_1;
pub const MID_14: &'static str = MID_1;
pub const MID_15: &'static str = MID_1;
pub const MID_16: &'static str = MID_1;
pub const MID_17: &'static str = MID_1;
pub const MID_18: &'static str = MID_1;
pub const MID_19: &'static str = MID_1;
pub const MID_20: &'static str = MID_1;
pub const MID_21: &'static str = MID_1;
pub const MID_22: &'static str = MID_1;
pub const MID_23: &'static str = MID_1;
pub const MID_24: &'static str = MID_1;
pub const MID_25: &'static str = MID_1;
pub const MID_26: &'static str = MID_1;
pub const MID_27: &'static str = MID_1;
pub const MID_28: &'static str = MID_1;
pub const MID_29: &'static str = MID_1;
pub const MID_30: &'static str = MID_1;
pub const END_1: &'static str = "4K4/9/9/9/4R4/9/9/9/9/4k4 -:- r r";
pub const END_2: &'static str = "4K4/9/9/9/4C4/9/9/9/9/4k4 -:- r r";
pub const END_3: &'static str = "4K4/9/9/9/4H4/9/9/9/9/4k4 -:- r r";
pub const END_4: &'static str = "4K4/9/9/4P4/4R4/9/9/9/9/4k4 -:- r r";
pub const END_5: &'static str = "4K4/9/9/2P1P4/9/9/9/9/9/4k4 -:- r r";
pub const END_6: &'static str = "4K4/9/9/4P4/4C4/9/9/9/9/4k4 -:- r r";
pub const END_7: &'static str = "4K4/9/9/4P4/4H4/9/9/9/9/4k4 -:- r r";
pub const END_8: &'static str = "4K4/9/9/9/2R1H4/9/9/9/9/4k4 -:- r r";
pub const END_9: &'static str = "4K4/9/9/9/2R1C4/9/9/9/9/4k4 -:- r r";
pub const END_10: &'static str = "4K4/9/9/9/4R4/9/4r4/9/9/4k4 -:- r r";
pub const END_11: &'static str = END_1;
pub const END_12: &'static str = END_1;
pub const END_13: &'static str = END_1;
pub const END_14: &'static str = END_1;
pub const END_15: &'static str = END_1;
pub const END_16: &'static str = END_1;
pub const END_17: &'static str = END_1;
pub const END_18: &'static str = END_1;
pub const END_19: &'static str = END_1;
pub const END_20: &'static str = END_1;
pub const CHECK_1: &'static str = "4K4/9/9/9/9/9/9/9/4R4/4k4 -:- r r";
pub const CHECK_2: &'static str = "4K4/9/9/9/4P4/9/9/9/4C4/4k4 -:- r r";
pub const CHECK_3: &'static str = "4K4/9/9/9/9/9/9/3H5/9/4k4 -:- r r";
pub const CHECK_4: &'static str = "4K4/9/9/9/9/9/9/9/9/4k4 -:- r r";
pub const CHECK_5: &'static str = "4K4/9/9/9/9/9/9/3H5/4R4/4k4 -:- r r";
pub const CHECK_6: &'static str = "4K4/9/9/9/9/9/9/9/4X4/4k4 -:- r r";
pub const CHECK_7: &'static str = "4K4/9/9/9/4X4/9/9/9/4C4/4k4 -:- r r";
pub const CHECK_8: &'static str = "4K4/9/9/9/9/9/9/9/9/R3k4 -:- r r";
pub const CHECK_9: &'static str = "4K4/9/9/9/9/9/4P4/9/9/C3k4 -:- r r";
pub const CHECK_10: &'static str = "4K4/9/9/9/9/9/9/5H3/9/4k4 -:- r r";
pub const MATE_1: &'static str = "4K4/9/9/9/9/9/9/9/9/4k4 -:- r r";
pub const MATE_2: &'static str = "3AKA3/9/9/9/9/9/9/9/4R4/4k4 -:- r r";
pub const MATE_3: &'static str = "4K4/9/9/9/9/9/9/9/R3R4/4k4 -:- r r";
pub const MATE_4: &'static str = "4K4/9/9/9/9/9/4P4/9/4C4/3Ak4 -:- r r";
pub const MATE_5: &'static str = "4K4/9/9/9/9/9/9/9/4H4/3AkA3 -:- r r";
pub const MATE_6: &'static str = "4K4/9/9/9/4R4/9/9/9/9/4k4 -:- r r";
pub const MATE_7: &'static str = "4K4/9/9/9/4C4/9/9/9/4R4/4k4 -:- r r";
pub const MATE_8: &'static str = "4K4/9/9/9/9/9/9/9/9/R2Ak3R -:- r r";
pub const MATE_9: &'static str = "4K4/9/9/9/9/9/3H5/9/4C4/4k4 -:- r r";
pub const MATE_10: &'static str = "4K4/9/9/9/9/9/9/3H5/4R4/3Ak4 -:- r r";
pub const SPECIAL_1: &'static str = "4K4/9/9/4A4/9/9/9/9/9/4k4 -:- r r";
pub const SPECIAL_2: &'static str = "4K4/9/9/9/2E6/9/9/9/9/4k4 -:- r r";
pub const SPECIAL_3: &'static str = "4K4/9/9/9/3PH4/9/9/9/9/4k4 -:- r r";
pub const SPECIAL_4: &'static str = "4K4/9/9/4P4/2E6/9/9/9/9/4k4 -:- r r";
pub const SPECIAL_5: &'static str = "4K4/9/9/4P4/4P4/9/4P4/9/4C4/4k4 -:- r r";
pub const SPECIAL_6: &'static str = "XXXXKXXXX/9/1R5X1/X1X1X1X1X/9/9/x1x1x1x1x/1x5r1/9/xxxxkxxxx -:- r r";
pub const SPECIAL_7: &'static str = "R3K3R/9/9/9/9/9/9/9/9/r3k3r -:- r r";
pub const SPECIAL_8: &'static str = "3AKA3/9/9/9/9/9/9/9/9/3aka3 -:- r r";
pub const SPECIAL_9: &'static str = "4K4/9/9/9/9/4P4/9/9/9/4k4 -:- r r";
pub const SPECIAL_10: &'static str = "XXXXKxxxx/9/1X5x1/X1X1x1X1x/9/9/x1x1X1x1X/1x5X1/9/xxxxkXXXX -:- r r";

pub const EARLY_POSITIONS: [&'static str; 20] = [
    EARLY_1,
    EARLY_2,
    EARLY_3,
    EARLY_4,
    EARLY_5,
    EARLY_6,
    EARLY_7,
    EARLY_8,
    EARLY_9,
    EARLY_10,
    EARLY_11,
    EARLY_12,
    EARLY_13,
    EARLY_14,
    EARLY_15,
    EARLY_16,
    EARLY_17,
    EARLY_18,
    EARLY_19,
    EARLY_20,
];

pub const MID_POSITIONS: [&'static str; 30] = [
    MID_1,
    MID_2,
    MID_3,
    MID_4,
    MID_5,
    MID_6,
    MID_7,
    MID_8,
    MID_9,
    MID_10,
    MID_11,
    MID_12,
    MID_13,
    MID_14,
    MID_15,
    MID_16,
    MID_17,
    MID_18,
    MID_19,
    MID_20,
    MID_21,
    MID_22,
    MID_23,
    MID_24,
    MID_25,
    MID_26,
    MID_27,
    MID_28,
    MID_29,
    MID_30,
];

pub const END_POSITIONS: [&'static str; 20] = [
    END_1,
    END_2,
    END_3,
    END_4,
    END_5,
    END_6,
    END_7,
    END_8,
    END_9,
    END_10,
    END_11,
    END_12,
    END_13,
    END_14,
    END_15,
    END_16,
    END_17,
    END_18,
    END_19,
    END_20,
];

pub const CHECK_POSITIONS: [&'static str; 10] = [
    CHECK_1,
    CHECK_2,
    CHECK_3,
    CHECK_4,
    CHECK_5,
    CHECK_6,
    CHECK_7,
    CHECK_8,
    CHECK_9,
    CHECK_10,
];

pub const MATE_POSITIONS: [&'static str; 10] = [
    MATE_1,
    MATE_2,
    MATE_3,
    MATE_4,
    MATE_5,
    MATE_6,
    MATE_7,
    MATE_8,
    MATE_9,
    MATE_10,
];

pub const SPECIAL_POSITIONS: [&'static str; 10] = [
    SPECIAL_1,
    SPECIAL_2,
    SPECIAL_3,
    SPECIAL_4,
    SPECIAL_5,
    SPECIAL_6,
    SPECIAL_7,
    SPECIAL_8,
    SPECIAL_9,
    SPECIAL_10,
];

} // verus!
