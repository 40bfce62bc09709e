//! Fixed-point trigonometry for whole-degree angles.
//!
//! `cos_milli_s(d)` is the cosine of `d` degrees scaled by 1000 and rounded
//! to the nearest integer, tabulated for `0 <= d <= 90`. The sine of `d`
//! degrees is the cosine of `90 - d` degrees, so one table serves both.

use vstd::prelude::*;

verus! {

/// Cosine of `d` degrees, times 1000, rounded to nearest, for `0 <= d <= 90`.
pub open spec fn cos_milli_s(d: int) -> int {
    if d == 0 {
        1000
    } else if d == 1 {
        1000
    } else if d == 2 {
        999
    } else if d == 3 {
        999
    } else if d == 4 {
        998
    } else if d == 5 {
        996
    } else if d == 6 {
        995
    } else if d == 7 {
        993
    } else if d == 8 {
        990
    } else if d == 9 {
        988
    } else if d == 10 {
        985
    } else if d == 11 {
        982
    } else if d == 12 {
        978
    } else if d == 13 {
        974
    } else if d == 14 {
        970
    } else if d == 15 {
        966
    } else if d == 16 {
        961
    } else if d == 17 {
        956
    } else if d == 18 {
        951
    } else if d == 19 {
        946
    } else if d == 20 {
        940
    } else if d == 21 {
        934
    } else if d == 22 {
        927
    } else if d == 23 {
        921
    } else if d == 24 {
        914
    } else if d == 25 {
        906
    } else if d == 26 {
        899
    } else if d == 27 {
        891
    } else if d == 28 {
        883
    } else if d == 29 {
        875
    } else if d == 30 {
        866
    } else if d == 31 {
        857
    } else if d == 32 {
        848
    } else if d == 33 {
        839
    } else if d == 34 {
        829
    } else if d == 35 {
        819
    } else if d == 36 {
        809
    } else if d == 37 {
        799
    } else if d == 38 {
        788
    } else if d == 39 {
        777
    } else if d == 40 {
        766
    } else if d == 41 {
        755
    } else if d == 42 {
        743
    } else if d == 43 {
        731
    } else if d == 44 {
        719
    } else if d == 45 {
        707
    } else if d == 46 {
        695
    } else if d == 47 {
        682
    } else if d == 48 {
        669
    } else if d == 49 {
        656
    } else if d == 50 {
        643
    } else if d == 51 {
        629
    } else if d == 52 {
        616
    } else if d == 53 {
        602
    } else if d == 54 {
        588
    } else if d == 55 {
        574
    } else if d == 56 {
        559
    } else if d == 57 {
        545
    } else if d == 58 {
        530
    } else if d == 59 {
        515
    } else if d == 60 {
        500
    } else if d == 61 {
        485
    } else if d == 62 {
        469
    } else if d == 63 {
        454
    } else if d == 64 {
        438
    } else if d == 65 {
        423
    } else if d == 66 {
        407
    } else if d == 67 {
        391
    } else if d == 68 {
        375
    } else if d == 69 {
        358
    } else if d == 70 {
        342
    } else if d == 71 {
        326
    } else if d == 72 {
        309
    } else if d == 73 {
        292
    } else if d == 74 {
        276
    } else if d == 75 {
        259
    } else if d == 76 {
        242
    } else if d == 77 {
        225
    } else if d == 78 {
        208
    } else if d == 79 {
        191
    } else if d == 80 {
        174
    } else if d == 81 {
        156
    } else if d == 82 {
        139
    } else if d == 83 {
        122
    } else if d == 84 {
        105
    } else if d == 85 {
        87
    } else if d == 86 {
        70
    } else if d == 87 {
        52
    } else if d == 88 {
        35
    } else if d == 89 {
        17
    } else {
        0
    }
}

/// Cosine of `abs(d)` degrees, times 1000: cosine is even.
pub open spec fn cos_deg_s(d: int) -> int {
    if d >= 0 {
        cos_milli_s(d)
    } else {
        cos_milli_s(-d)
    }
}

/// Sine of `d` degrees, times 1000, for `-90 <= d <= 90`: sine is odd and
/// `sin d = cos (90 - d)` on `[0, 90]`.
pub open spec fn sin_deg_s(d: int) -> int {
    if d >= 0 {
        cos_milli_s(90 - d)
    } else {
        -cos_milli_s(90 + d)
    }
}

/// The table stays within `[0, 1000]`.
pub proof fn lemma_cos_milli_bounds(d: int)
    requires
        0 <= d <= 90,
    ensures
        0 <= cos_milli_s(d) <= 1000,
{
}

/// Cosine of `d` degrees, times 1000.
pub fn cos_milli(d: i32) -> (r: i32)
    requires
        0 <= d <= 90,
    ensures
        r == cos_milli_s(d as int),
{
    if d == 0 {
        1000
    } else if d == 1 {
        1000
    } else if d == 2 {
        999
    } else if d == 3 {
        999
    } else if d == 4 {
        998
    } else if d == 5 {
        996
    } else if d == 6 {
        995
    } else if d == 7 {
        993
    } else if d == 8 {
        990
    } else if d == 9 {
        988
    } else if d == 10 {
        985
    } else if d == 11 {
        982
    } else if d == 12 {
        978
    } else if d == 13 {
        974
    } else if d == 14 {
        970
    } else if d == 15 {
        966
    } else if d == 16 {
        961
    } else if d == 17 {
        956
    } else if d == 18 {
        951
    } else if d == 19 {
        946
    } else if d == 20 {
        940
    } else if d == 21 {
        934
    } else if d == 22 {
        927
    } else if d == 23 {
        921
    } else if d == 24 {
        914
    } else if d == 25 {
        906
    } else if d == 26 {
        899
    } else if d == 27 {
        891
    } else if d == 28 {
        883
    } else if d == 29 {
        875
    } else if d == 30 {
        866
    } else if d == 31 {
        857
    } else if d == 32 {
        848
    } else if d == 33 {
        839
    } else if d == 34 {
        829
    } else if d == 35 {
        819
    } else if d == 36 {
        809
    } else if d == 37 {
        799
    } else if d == 38 {
        788
    } else if d == 39 {
        777
    } else if d == 40 {
        766
    } else if d == 41 {
        755
    } else if d == 42 {
        743
    } else if d == 43 {
        731
    } else if d == 44 {
        719
    } else if d == 45 {
        707
    } else if d == 46 {
        695
    } else if d == 47 {
        682
    } else if d == 48 {
        669
    } else if d == 49 {
        656
    } else if d == 50 {
        643
    } else if d == 51 {
        629
    } else if d == 52 {
        616
    } else if d == 53 {
        602
    } else if d == 54 {
        588
    } else if d == 55 {
        574
    } else if d == 56 {
        559
    } else if d == 57 {
        545
    } else if d == 58 {
        530
    } else if d == 59 {
        515
    } else if d == 60 {
        500
    } else if d == 61 {
        485
    } else if d == 62 {
        469
    } else if d == 63 {
        454
    } else if d == 64 {
        438
    } else if d == 65 {
        423
    } else if d == 66 {
        407
    } else if d == 67 {
        391
    } else if d == 68 {
        375
    } else if d == 69 {
        358
    } else if d == 70 {
        342
    } else if d == 71 {
        326
    } else if d == 72 {
        309
    } else if d == 73 {
        292
    } else if d == 74 {
        276
    } else if d == 75 {
        259
    } else if d == 76 {
        242
    } else if d == 77 {
        225
    } else if d == 78 {
        208
    } else if d == 79 {
        191
    } else if d == 80 {
        174
    } else if d == 81 {
        156
    } else if d == 82 {
        139
    } else if d == 83 {
        122
    } else if d == 84 {
        105
    } else if d == 85 {
        87
    } else if d == 86 {
        70
    } else if d == 87 {
        52
    } else if d == 88 {
        35
    } else if d == 89 {
        17
    } else {
        0
    }
}

} // verus!
