//! Score milestones shown to a player, in ascending order of score.
use vstd::prelude::*;

verus! {

/// A score threshold and the title earned on reaching it.
pub struct Milestone {
    pub score: u32,
    pub label: &'static str,
}

/// How many milestones there are.
pub const MILESTONE_COUNT: usize = 9;

/// Score needed for milestone `i`; strictly ascending in `i`.
pub open spec fn milestone_score(i: int) -> u32 {
    if i == 0 {
        5
    } else if i == 1 {
        10
    } else if i == 2 {
        15
    } else if i == 3 {
        20
    } else if i == 4 {
        30
    } else if i == 5 {
        40
    } else if i == 6 {
        50
    } else if i == 7 {
        75
    } else {
        100
    }
}

/// Title of milestone `i`.
pub open spec fn milestone_label(i: int) -> Seq<char> {
    if i == 0 {
        "Snack Streak"@
    } else if i == 1 {
        "Garden Glutton"@
    } else if i == 2 {
        "Tunnel Tactician"@
    } else if i == 3 {
        "Viper Velocity"@
    } else if i == 4 {
        "Coil Commander"@
    } else if i == 5 {
        "Shedmaster"@
    } else if i == 6 {
        "Apex Adder"@
    } else if i == 7 {
        "Mythscale"@
    } else {
        "Ouro Ascends"@
    }
}

/// Milestone `i`.
pub fn milestone(i: usize) -> (m: Milestone)
    requires
        i < MILESTONE_COUNT,
    ensures
        m.score == milestone_score(i as int),
        m.label@ == milestone_label(i as int),
{
    if i == 0 {
        Milestone { score: 5, label: "Snack Streak" }
    } else if i == 1 {
        Milestone { score: 10, label: "Garden Glutton" }
    } else if i == 2 {
        Milestone { score: 15, label: "Tunnel Tactician" }
    } else if i == 3 {
        Milestone { score: 20, label: "Viper Velocity" }
    } else if i == 4 {
        Milestone { score: 30, label: "Coil Commander" }
    } else if i == 5 {
        Milestone { score: 40, label: "Shedmaster" }
    } else if i == 6 {
        Milestone { score: 50, label: "Apex Adder" }
    } else if i == 7 {
        Milestone { score: 75, label: "Mythscale" }
    } else {
        Milestone { score: 100, label: "Ouro Ascends" }
    }
}

/// The index and title of the highest milestone `score` reaches, if any.
pub fn milestone_for_score(score: u32) -> (r: Option<(usize, &'static str)>)
    ensures
        match r {
            None => score < milestone_score(0),
            Some((i, label)) => {
                &&& i < MILESTONE_COUNT
                &&& milestone_score(i as int) <= score
                &&& (i + 1 < MILESTONE_COUNT ==> score < milestone_score(i + 1))
                &&& label@ == milestone_label(i as int)
            },
        },
{
    let mut found: Option<(usize, &'static str)> = None;
    let mut i: usize = 0;
    let mut passed = true;
    while i < MILESTONE_COUNT && passed
        invariant
            i <= MILESTONE_COUNT,
            !passed ==> i < MILESTONE_COUNT && score < milestone_score(i as int),
            match found {
                None => i == 0,
                Some((j, label)) => {
                    &&& j + 1 == i
                    &&& milestone_score(j as int) <= score
                    &&& label@ == milestone_label(j as int)
                },
            },
        decreases MILESTONE_COUNT - i + if passed { 1int } else { 0int },
    {
        let m = milestone(i);
        if score >= m.score {
            found = Some((i, m.label));
            i = i + 1;
        } else {
            passed = false;
        }
    }
    found
}

} // verus!
