//! Encoding linear samples as 8-bit sRGB codes.
use vstd::prelude::*;

verus! {

/// For each code `k` in 1..=255, the least sample whose sRGB encoding rounds
/// to `k` or more: `ceil(SAMPLE_ONE * linear((k - 0.5) / 255))`, where
/// `linear(c)` is `c / 12.92` for `c <= 0.04045` and
/// `((c + 0.055) / 1.055) ^ 2.4` above.
pub open spec fn srgb_thresholds() -> Seq<i32> {
    seq![
        2547, 7639, 12731, 17824, 22916, 28008, 33101, 38193,
        43285, 48378, 53491, 58876, 64565, 70561, 76871, 83498,
        90447, 97722, 105327, 113267, 121546, 130167, 139135, 148453,
        158125, 168156, 178548, 189305, 200431, 211930, 223804, 236058,
        248694, 261717, 275129, 288933, 303133, 317732, 332734, 348140,
        363955, 380181, 396822, 413880, 431358, 449259, 467586, 486342,
        505530, 525152, 545212, 565711, 586653, 608041, 629877, 652163,
        674903, 698099, 721753, 745868, 770447, 795492, 821005, 846990,
        873448, 900382, 927794, 955687, 984063, 1012925, 1042275, 1072114,
        1102447, 1133274, 1164598, 1196421, 1228746, 1261575, 1294910, 1328753,
        1363106, 1397972, 1433353, 1469251, 1505668, 1542606, 1580067, 1618054,
        1656568, 1695611, 1735186, 1775295, 1815940, 1857122, 1898844, 1941107,
        1983914, 2027267, 2071168, 2115618, 2160620, 2206175, 2252286, 2298954,
        2346181, 2393970, 2442321, 2491238, 2540721, 2590773, 2641395, 2692590,
        2744359, 2796704, 2849626, 2903129, 2957212, 3011879, 3067131, 3122970,
        3179398, 3236415, 3294025, 3352228, 3411027, 3470424, 3530419, 3591015,
        3652213, 3714016, 3776424, 3839440, 3903065, 3967301, 4032149, 4097611,
        4163690, 4230385, 4297700, 4365635, 4434193, 4503375, 4573182, 4643617,
        4714680, 4786374, 4858699, 4931659, 5005253, 5079484, 5154353, 5229862,
        5306012, 5382806, 5460243, 5538327, 5617058, 5696439, 5776469, 5857152,
        5938489, 6020480, 6103129, 6186435, 6270401, 6355028, 6440317, 6526270,
        6612889, 6700175, 6788129, 6876753, 6966049, 7056017, 7146659, 7237977,
        7329972, 7422645, 7515999, 7610034, 7704751, 7800153, 7896240, 7993014,
        8090476, 8188628, 8287471, 8387007, 8487237, 8588162, 8689783, 8792103,
        8895122, 8998841, 9103263, 9208388, 9314218, 9420754, 9527998, 9635950,
        9744612, 9853986, 9964073, 10074874, 10186390, 10298623, 10411574, 10525244,
        10639635, 10754748, 10870584, 10987145, 11104431, 11222445, 11341187, 11460658,
        11580861, 11701796, 11823464, 11945867, 12069007, 12192883, 12317498, 12442853,
        12568949, 12695787, 12823368, 12951695, 13080767, 13210587, 13341155, 13472472,
        13604541, 13737362, 13870936, 14005265, 14140350, 14276191, 14412791, 14550150,
        14688270, 14827152, 14966796, 15107205, 15248379, 15390320, 15533029, 15676506,
        15820754, 15965773, 16111564, 16258129, 16405469, 16553585, 16702478,
    ]
}

/// How many of `t` are at most `s`.
pub open spec fn count_at_most(t: Seq<i32>, s: int) -> nat
    decreases t.len(),
{
    if t.len() == 0 {
        0
    } else {
        count_at_most(t.drop_last(), s) + if t.last() <= s {
            1nat
        } else {
            0nat
        }
    }
}

/// The 8-bit sRGB code of the linear sample `s`: `round(255 * srgb(s))` for
/// `s` clamped to [0, 1], which is the number of thresholds at most `s`.
pub open spec fn srgb_byte(s: int) -> int {
    count_at_most(srgb_thresholds(), s) as int
}

/// The table of `srgb_thresholds`, built once for many calls of `srgb_byte_of`.
pub(crate) fn srgb_table() -> (r: Vec<i32>)
    ensures
        r@ == srgb_thresholds(),
{
    let table: Vec<i32> = vec![
        2547, 7639, 12731, 17824, 22916, 28008, 33101, 38193,
        43285, 48378, 53491, 58876, 64565, 70561, 76871, 83498,
        90447, 97722, 105327, 113267, 121546, 130167, 139135, 148453,
        158125, 168156, 178548, 189305, 200431, 211930, 223804, 236058,
        248694, 261717, 275129, 288933, 303133, 317732, 332734, 348140,
        363955, 380181, 396822, 413880, 431358, 449259, 467586, 486342,
        505530, 525152, 545212, 565711, 586653, 608041, 629877, 652163,
        674903, 698099, 721753, 745868, 770447, 795492, 821005, 846990,
        873448, 900382, 927794, 955687, 984063, 1012925, 1042275, 1072114,
        1102447, 1133274, 1164598, 1196421, 1228746, 1261575, 1294910, 1328753,
        1363106, 1397972, 1433353, 1469251, 1505668, 1542606, 1580067, 1618054,
        1656568, 1695611, 1735186, 1775295, 1815940, 1857122, 1898844, 1941107,
        1983914, 2027267, 2071168, 2115618, 2160620, 2206175, 2252286, 2298954,
        2346181, 2393970, 2442321, 2491238, 2540721, 2590773, 2641395, 2692590,
        2744359, 2796704, 2849626, 2903129, 2957212, 3011879, 3067131, 3122970,
        3179398, 3236415, 3294025, 3352228, 3411027, 3470424, 3530419, 3591015,
        3652213, 3714016, 3776424, 3839440, 3903065, 3967301, 4032149, 4097611,
        4163690, 4230385, 4297700, 4365635, 4434193, 4503375, 4573182, 4643617,
        4714680, 4786374, 4858699, 4931659, 5005253, 5079484, 5154353, 5229862,
        5306012, 5382806, 5460243, 5538327, 5617058, 5696439, 5776469, 5857152,
        5938489, 6020480, 6103129, 6186435, 6270401, 6355028, 6440317, 6526270,
        6612889, 6700175, 6788129, 6876753, 6966049, 7056017, 7146659, 7237977,
        7329972, 7422645, 7515999, 7610034, 7704751, 7800153, 7896240, 7993014,
        8090476, 8188628, 8287471, 8387007, 8487237, 8588162, 8689783, 8792103,
        8895122, 8998841, 9103263, 9208388, 9314218, 9420754, 9527998, 9635950,
        9744612, 9853986, 9964073, 10074874, 10186390, 10298623, 10411574, 10525244,
        10639635, 10754748, 10870584, 10987145, 11104431, 11222445, 11341187, 11460658,
        11580861, 11701796, 11823464, 11945867, 12069007, 12192883, 12317498, 12442853,
        12568949, 12695787, 12823368, 12951695, 13080767, 13210587, 13341155, 13472472,
        13604541, 13737362, 13870936, 14005265, 14140350, 14276191, 14412791, 14550150,
        14688270, 14827152, 14966796, 15107205, 15248379, 15390320, 15533029, 15676506,
        15820754, 15965773, 16111564, 16258129, 16405469, 16553585, 16702478,
    ];
    assert(table@ =~= srgb_thresholds());
    table
}

proof fn lemma_count_at_most_len(t: Seq<i32>, s: int)
    ensures
        count_at_most(t, s) <= t.len(),
    decreases t.len(),
{
    if t.len() > 0 {
        lemma_count_at_most_len(t.drop_last(), s);
    }
}

/// Computes `srgb_byte(s)` against `table`, the table of `srgb_thresholds`.
pub(crate) fn srgb_byte_of(table: &Vec<i32>, s: i32) -> (r: u8)
    requires
        table@ == srgb_thresholds(),
    ensures
        r == srgb_byte(s as int),
{
    let n: usize = table.len();
    let mut count: u8 = 0;
    let mut i: usize = 0;
    while i < n
        invariant
            i <= n,
            n == table@.len(),
            n == 255,
            count == count_at_most(table@.subrange(0, i as int), s as int),
        decreases n - i,
    {
        let ghost prefix = table@.subrange(0, i as int);
        let ghost next = table@.subrange(0, i as int + 1);
        assert(next.drop_last() =~= prefix);
        proof {
            lemma_count_at_most_len(prefix, s as int);
        }
        if table[i] <= s {
            count = count + 1;
        }
        i = i + 1;
    }
    assert(table@.subrange(0, n as int) =~= table@);
    count
}

} // verus!
