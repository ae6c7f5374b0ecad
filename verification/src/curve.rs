use vstd::prelude::*;

verus! {

/// The bomb-placement probability for a difficulty level, in parts per
/// million. The curve is the logistic function `0.6 / (1 + e^(-(level-5)))`:
/// centered at level 5 (probability 0.3), approaching 0 at low levels and
/// saturating toward 0.6 at high levels, so the worst-case bomb density is
/// bounded at 60%. Each value below is that expression rounded to the
/// nearest part per million.
pub open spec fn bomb_probability_ppm_spec(level: int) -> int {
    if level == 1 {
        10792
    } else if level == 2 {
        28456
    } else if level == 3 {
        71522
    } else if level == 4 {
        161365
    } else if level == 5 {
        300000
    } else if level == 6 {
        438635
    } else if level == 7 {
        528478
    } else if level == 8 {
        571544
    } else {
        589208
    }
}

/// Maps a difficulty level in `1..=9` to the bomb-placement probability in
/// parts per million, along the logistic curve described by
/// [`bomb_probability_ppm_spec`].
pub fn bomb_probability_ppm(level: u16) -> (ppm: u32)
    requires
        1 <= level <= 9,
    ensures
        ppm as int == bomb_probability_ppm_spec(level as int),
        ppm < 600000,
{
    if level == 1 {
        10792
    } else if level == 2 {
        28456
    } else if level == 3 {
        71522
    } else if level == 4 {
        161365
    } else if level == 5 {
        300000
    } else if level == 6 {
        438635
    } else if level == 7 {
        528478
    } else if level == 8 {
        571544
    } else {
        589208
    }
}

} // verus!
