use vstd::prelude::*;

verus! {

/// The biome kinds a hex can hold. `NONE` marks a cell that has not been generated yet.
#[allow(non_camel_case_types)]
#[derive(Copy, Clone, PartialEq, Eq, Structural, Debug, Hash)]
pub enum Environment {
    NONE,
    AQUATIC,
    ARCTIC,
    DESERT,
    FOREST,
    MOUNTAIN,
    PLAINS,
    SWAMP,
    AERIAL,
    GLACIER,
    VOLCANIC,
}

/// Number of environment kinds, `NONE` included.
pub const ENVIRONMENT_COUNT: usize = 11;

/// The environment kinds in declaration order.
pub open spec fn environment_at(i: int) -> Environment {
    if i == 0 {
        Environment::NONE
    } else if i == 1 {
        Environment::AQUATIC
    } else if i == 2 {
        Environment::ARCTIC
    } else if i == 3 {
        Environment::DESERT
    } else if i == 4 {
        Environment::FOREST
    } else if i == 5 {
        Environment::MOUNTAIN
    } else if i == 6 {
        Environment::PLAINS
    } else if i == 7 {
        Environment::SWAMP
    } else if i == 8 {
        Environment::AERIAL
    } else if i == 9 {
        Environment::GLACIER
    } else {
        Environment::VOLCANIC
    }
}

/// Position of an environment kind in declaration order.
pub open spec fn index_of(e: Environment) -> int {
    match e {
        Environment::NONE => 0,
        Environment::AQUATIC => 1,
        Environment::ARCTIC => 2,
        Environment::DESERT => 3,
        Environment::FOREST => 4,
        Environment::MOUNTAIN => 5,
        Environment::PLAINS => 6,
        Environment::SWAMP => 7,
        Environment::AERIAL => 8,
        Environment::GLACIER => 9,
        Environment::VOLCANIC => 10,
    }
}

/// Water-like environments: open water and the two kinds of ice.
pub open spec fn is_water(e: Environment) -> bool {
    e == Environment::AQUATIC || e == Environment::ARCTIC || e == Environment::GLACIER
}

pub proof fn lemma_index_round_trip(e: Environment)
    ensures
        0 <= index_of(e) < ENVIRONMENT_COUNT,
        environment_at(index_of(e)) == e,
{
}

/// How many entries of `s` are one of `kinds`.
pub open spec fn count_of(s: Seq<Environment>, kinds: Seq<Environment>) -> nat
    decreases s.len(),
{
    if s.len() == 0 {
        0
    } else {
        count_of(s.drop_last(), kinds) + if kinds.contains(s.last()) {
            1nat
        } else {
            0nat
        }
    }
}

pub proof fn lemma_count_of_bounded(s: Seq<Environment>, kinds: Seq<Environment>)
    ensures
        count_of(s, kinds) <= s.len(),
    decreases s.len(),
{
    if s.len() > 0 {
        lemma_count_of_bounded(s.drop_last(), kinds);
    }
}

/// Whether `e` is one of `kinds`.
pub fn contains_environment(kinds: &Vec<Environment>, e: Environment) -> (r: bool)
    ensures
        r == kinds@.contains(e),
{
    let mut i: usize = 0;
    while i < kinds.len()
        invariant
            i <= kinds@.len(),
            forall|j: int| 0 <= j < i ==> kinds@[j] != e,
        decreases kinds@.len() - i,
    {
        if kinds[i] == e {
            return true;
        }
        i = i + 1;
    }
    false
}

/// How many entries of `s` are one of `kinds`.
pub fn count_environments(s: &Vec<Environment>, kinds: &Vec<Environment>) -> (r: u32)
    requires
        s@.len() <= u32::MAX,
    ensures
        r == count_of(s@, kinds@),
{
    let mut count: u32 = 0;
    let mut i: usize = 0;
    while i < s.len()
        invariant
            i <= s@.len(),
            s@.len() <= u32::MAX,
            count == count_of(s@.subrange(0, i as int), kinds@),
        decreases s@.len() - i,
    {
        proof {
            let next = s@.subrange(0, i as int + 1);
            assert(next.drop_last() =~= s@.subrange(0, i as int));
            lemma_count_of_bounded(s@.subrange(0, i as int), kinds@);
        }
        if contains_environment(kinds, s[i]) {
            count = count + 1;
        }
        i = i + 1;
    }
    assert(s@.subrange(0, s@.len() as int) =~= s@);
    count
}

impl Environment {
    /// The environment at position `i` in declaration order.
    pub fn from_index(i: usize) -> (r: Environment)
        requires
            i < ENVIRONMENT_COUNT,
        ensures
            r == environment_at(i as int),
            index_of(r) == i,
    {
        if i == 0 {
            Environment::NONE
        } else if i == 1 {
            Environment::AQUATIC
        } else if i == 2 {
            Environment::ARCTIC
        } else if i == 3 {
            Environment::DESERT
        } else if i == 4 {
            Environment::FOREST
        } else if i == 5 {
            Environment::MOUNTAIN
        } else if i == 6 {
            Environment::PLAINS
        } else if i == 7 {
            Environment::SWAMP
        } else if i == 8 {
            Environment::AERIAL
        } else if i == 9 {
            Environment::GLACIER
        } else {
            Environment::VOLCANIC
        }
    }

    /// Display color as red, green and blue components.
    pub fn color(self) -> (r: (u8, u8, u8))
        ensures
            r == color_of(self),
    {
        match self {
            Environment::NONE => (40, 40, 40),
            Environment::AQUATIC => (0, 130, 220),
            Environment::ARCTIC => (145, 230, 230),
            Environment::DESERT => (230, 230, 30),
            Environment::FOREST => (10, 105, 15),
            Environment::MOUNTAIN => (88, 97, 96),
            Environment::PLAINS => (0, 205, 12),
            Environment::SWAMP => (50, 80, 10),
            Environment::AERIAL => (202, 216, 214),
            Environment::GLACIER => (216, 255, 255),
            Environment::VOLCANIC => (154, 5, 3),
        }
    }
}

/// The fixed display color of each environment.
pub open spec fn color_of(e: Environment) -> (u8, u8, u8) {
    match e {
        Environment::NONE => (40, 40, 40),
        Environment::AQUATIC => (0, 130, 220),
        Environment::ARCTIC => (145, 230, 230),
        Environment::DESERT => (230, 230, 30),
        Environment::FOREST => (10, 105, 15),
        Environment::MOUNTAIN => (88, 97, 96),
        Environment::PLAINS => (0, 205, 12),
        Environment::SWAMP => (50, 80, 10),
        Environment::AERIAL => (202, 216, 214),
        Environment::GLACIER => (216, 255, 255),
        Environment::VOLCANIC => (154, 5, 3),
    }
}

} // verus!
