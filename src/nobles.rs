use crate::gems::Gems;
use vstd::prelude::*;

verus! {

/// Identifier of a noble: its index in the catalogue.
pub type NobleId = u8;

/// Number of nobles in the catalogue.
pub const NUM_NOBLES: usize = 10;

/// A noble tile, worth points to the first player whose developments meet its requirements.
#[derive(PartialEq, Eq, Structural, Copy, Clone, Debug)]
pub struct Noble {
    pub points: u8,
    pub id: NobleId,
    pub requirements: Gems,
}

/// Whether `dev` meets `req` in each of the five card colours.
pub open spec fn meets(dev: Gems, req: Gems) -> bool {
    dev.onyx >= req.onyx && dev.sapphire >= req.sapphire && dev.emerald >= req.emerald && dev.ruby
        >= req.ruby && dev.diamond >= req.diamond
}

/// The catalogue entry with id `id` (ids past the end read as the last entry).
pub open spec fn noble_table(id: NobleId) -> Noble {
    match id {
        0 => Noble { points: 3, id: 0, requirements: Gems { onyx: 0, sapphire: 0, emerald: 4, ruby: 4, diamond: 0, gold: 0 } },
        1 => Noble { points: 3, id: 1, requirements: Gems { onyx: 3, sapphire: 0, emerald: 0, ruby: 3, diamond: 3, gold: 0 } },
        2 => Noble { points: 3, id: 2, requirements: Gems { onyx: 3, sapphire: 0, emerald: 3, ruby: 3, diamond: 0, gold: 0 } },
        3 => Noble { points: 3, id: 3, requirements: Gems { onyx: 0, sapphire: 4, emerald: 0, ruby: 0, diamond: 4, gold: 0 } },
        4 => Noble { points: 3, id: 4, requirements: Gems { onyx: 4, sapphire: 0, emerald: 0, ruby: 0, diamond: 4, gold: 0 } },
        5 => Noble { points: 3, id: 5, requirements: Gems { onyx: 0, sapphire: 4, emerald: 4, ruby: 0, diamond: 0, gold: 0 } },
        6 => Noble { points: 3, id: 6, requirements: Gems { onyx: 0, sapphire: 3, emerald: 3, ruby: 3, diamond: 0, gold: 0 } },
        7 => Noble { points: 3, id: 7, requirements: Gems { onyx: 0, sapphire: 3, emerald: 3, ruby: 0, diamond: 3, gold: 0 } },
        8 => Noble { points: 3, id: 8, requirements: Gems { onyx: 4, sapphire: 0, emerald: 4, ruby: 0, diamond: 0, gold: 0 } },
        _ => Noble { points: 3, id: 9, requirements: Gems { onyx: 3, sapphire: 3, emerald: 0, ruby: 0, diamond: 3, gold: 0 } },
    }
}

impl Noble {
    /// The shape that every noble of the catalogue has.
    pub open spec fn wf(self) -> bool {
        self.id < NUM_NOBLES && self.points == 3 && self.requirements.is_legal()
            && self.requirements.gold == 0
    }

    /// The catalogue entry with the given id.
    pub fn from_id(id: NobleId) -> (n: Noble)
        requires
            id < NUM_NOBLES,
        ensures
            n == noble_table(id),
            n.id == id,
            n.wf(),
    {
        match id {
            0 => Noble { points: 3, id: 0, requirements: Gems { onyx: 0, sapphire: 0, emerald: 4, ruby: 4, diamond: 0, gold: 0 } },
            1 => Noble { points: 3, id: 1, requirements: Gems { onyx: 3, sapphire: 0, emerald: 0, ruby: 3, diamond: 3, gold: 0 } },
            2 => Noble { points: 3, id: 2, requirements: Gems { onyx: 3, sapphire: 0, emerald: 3, ruby: 3, diamond: 0, gold: 0 } },
            3 => Noble { points: 3, id: 3, requirements: Gems { onyx: 0, sapphire: 4, emerald: 0, ruby: 0, diamond: 4, gold: 0 } },
            4 => Noble { points: 3, id: 4, requirements: Gems { onyx: 4, sapphire: 0, emerald: 0, ruby: 0, diamond: 4, gold: 0 } },
            5 => Noble { points: 3, id: 5, requirements: Gems { onyx: 0, sapphire: 4, emerald: 4, ruby: 0, diamond: 0, gold: 0 } },
            6 => Noble { points: 3, id: 6, requirements: Gems { onyx: 0, sapphire: 3, emerald: 3, ruby: 3, diamond: 0, gold: 0 } },
            7 => Noble { points: 3, id: 7, requirements: Gems { onyx: 0, sapphire: 3, emerald: 3, ruby: 0, diamond: 3, gold: 0 } },
            8 => Noble { points: 3, id: 8, requirements: Gems { onyx: 4, sapphire: 0, emerald: 4, ruby: 0, diamond: 0, gold: 0 } },
            _ => Noble { points: 3, id: 9, requirements: Gems { onyx: 3, sapphire: 3, emerald: 0, ruby: 0, diamond: 3, gold: 0 } },
        }
    }

    /// The whole catalogue, indexed by noble id.
    pub fn all() -> (r: Vec<Noble>)
        ensures
            r@.len() == NUM_NOBLES,
            forall|i: int| 0 <= i < NUM_NOBLES ==> (#[trigger] r@[i]).id == i && r@[i].wf(),
            forall|i: int| 0 <= i < NUM_NOBLES ==> #[trigger] r@[i] == noble_table(i as u8),
    {
        let mut nobles: Vec<Noble> = Vec::new();
        let mut i: u8 = 0;
        while (i as usize) < NUM_NOBLES
            invariant
                i <= NUM_NOBLES,
                nobles@.len() == i,
                forall|j: int| 0 <= j < i ==> (#[trigger] nobles@[j]).id == j && nobles@[j].wf(),
                forall|j: int| 0 <= j < i ==> #[trigger] nobles@[j] == noble_table(j as u8),
            decreases NUM_NOBLES - i,
        {
            nobles.push(Noble::new(i));
            i = i + 1;
        }
        nobles
    }

    fn new(id: NobleId) -> (n: Noble)
        requires
            id < NUM_NOBLES,
        ensures
            n == noble_table(id),
            n.id == id,
            n.wf(),
    {
        Noble::from_id(id)
    }

    /// Whether `developments` meet this noble's requirements.
    pub fn is_attracted_to(&self, developments: &Gems) -> (r: bool)
        ensures
            r == meets(*developments, self.requirements),
    {
        (developments.onyx >= self.requirements.onyx) && (developments.sapphire
            >= self.requirements.sapphire) && (developments.emerald >= self.requirements.emerald)
            && (developments.ruby >= self.requirements.ruby) && (developments.diamond
            >= self.requirements.diamond)
    }

    pub fn id(&self) -> (r: NobleId)
        ensures
            r == self.id,
    {
        self.id
    }

    pub fn points(&self) -> (r: u8)
        ensures
            r == self.points,
    {
        self.points
    }

    pub fn requirements(&self) -> (r: &Gems)
        ensures
            *r == self.requirements,
    {
        &self.requirements
    }
}

} // verus!
