//! Names of unit types and abilities, as the game data lists them.
use std::collections::HashMap;
use vstd::prelude::*;

verus! {

broadcast use vstd::std_specs::hash::group_hash_axioms;

#[derive(Clone, Debug)]
pub struct AbilityData {
    pub id: u32,
    pub name: String,
}

#[derive(Clone, Debug)]
pub struct UnitData {
    pub id: u32,
    pub name: String,
}

/// The name that a list gives an id: the last entry with that id wins.
pub open spec fn ability_names(list: Seq<AbilityData>) -> Map<u32, Seq<char>>
    decreases list.len(),
{
    if list.len() == 0 {
        Map::empty()
    } else {
        ability_names(list.drop_last()).insert(list.last().id, list.last().name@)
    }
}

/// The name that a list gives a unit type: the last entry with that id wins.
pub open spec fn unit_names(list: Seq<UnitData>) -> Map<u32, Seq<char>>
    decreases list.len(),
{
    if list.len() == 0 {
        Map::empty()
    } else {
        unit_names(list.drop_last()).insert(list.last().id, list.last().name@)
    }
}

/// The first entry of a list with the given id.
pub open spec fn first_ability(list: Seq<AbilityData>, id: u32) -> Option<Seq<char>>
    decreases list.len(),
{
    if list.len() == 0 {
        None
    } else if list[0].id == id {
        Some(list[0].name@)
    } else {
        first_ability(list.drop_first(), id)
    }
}

/// The name of the first ability with id `ability_id` in the list.
pub fn ability_name_by_id(abilities: &[AbilityData], ability_id: u32) -> (r: Option<String>)
    ensures
        match r {
            Some(n) => first_ability(abilities@, ability_id) == Some(n@),
            None => first_ability(abilities@, ability_id) is None,
        },
{
    let mut i: usize = 0;
    assert(abilities@.subrange(0, abilities@.len() as int) =~= abilities@);
    while i < abilities.len()
        invariant
            i <= abilities@.len(),
            first_ability(abilities@, ability_id) == first_ability(abilities@.subrange(i as int, abilities@.len() as int), ability_id),
        decreases abilities@.len() - i,
    {
        let ghost rest = abilities@.subrange(i as int, abilities@.len() as int);
        assert(rest[0] == abilities@[i as int]);
        if abilities[i].id == ability_id {
            return Some(abilities[i].name.clone());
        }
        assert(rest.drop_first() =~= abilities@.subrange(i + 1, abilities@.len() as int));
        i = i + 1;
    }
    assert(abilities@.subrange(i as int, abilities@.len() as int).len() == 0);
    None
}

/// Unit type and ability names by id.
pub struct EntitySystem {
    units: HashMap<u32, String>,
    abilities: HashMap<u32, String>,
}

pub open spec fn texts(m: Map<u32, String>) -> Map<u32, Seq<char>> {
    m.map_values(|s: String| s@)
}

impl EntitySystem {
    pub closed spec fn unit_table(&self) -> Map<u32, Seq<char>> {
        texts(self.units@)
    }

    pub closed spec fn ability_table(&self) -> Map<u32, Seq<char>> {
        texts(self.abilities@)
    }

    /// Indexes the game data by id.
    pub fn load(units: &[UnitData], abilities: &[AbilityData]) -> (r: Self)
        ensures
            r.unit_table() == unit_names(units@),
            r.ability_table() == ability_names(abilities@),
    {
        let mut unit_map: HashMap<u32, String> = HashMap::new();
        let mut i: usize = 0;
        proof {
            assert(units@.subrange(0, 0) =~= Seq::<UnitData>::empty());
            assert(texts(unit_map@) =~= Map::<u32, Seq<char>>::empty());
        }
        while i < units.len()
            invariant
                i <= units@.len(),
                texts(unit_map@) == unit_names(units@.subrange(0, i as int)),
            decreases units@.len() - i,
        {
            let u = &units[i];
            unit_map.insert(u.id, u.name.clone());
            proof {
                let next = units@.subrange(0, i + 1);
                assert(next.drop_last() =~= units@.subrange(0, i as int));
                assert(next.last() == units@[i as int]);
                assert(texts(unit_map@) =~= unit_names(next));
            }
            i = i + 1;
        }
        assert(units@.subrange(0, units@.len() as int) =~= units@);
        let mut ability_map: HashMap<u32, String> = HashMap::new();
        let mut j: usize = 0;
        proof {
            assert(abilities@.subrange(0, 0) =~= Seq::<AbilityData>::empty());
            assert(texts(ability_map@) =~= Map::<u32, Seq<char>>::empty());
        }
        while j < abilities.len()
            invariant
                j <= abilities@.len(),
                texts(ability_map@) == ability_names(abilities@.subrange(0, j as int)),
            decreases abilities@.len() - j,
        {
            let a = &abilities[j];
            ability_map.insert(a.id, a.name.clone());
            proof {
                let next = abilities@.subrange(0, j + 1);
                assert(next.drop_last() =~= abilities@.subrange(0, j as int));
                assert(next.last() == abilities@[j as int]);
                assert(texts(ability_map@) =~= ability_names(next));
            }
            j = j + 1;
        }
        assert(abilities@.subrange(0, abilities@.len() as int) =~= abilities@);
        EntitySystem { units: unit_map, abilities: ability_map }
    }

    /// The name of a unit type, if the data lists it.
    pub fn unit_name(&self, unit_id: u32) -> (r: Option<String>)
        ensures
            match r {
                Some(n) => self.unit_table().contains_key(unit_id) && n@ == self.unit_table()[unit_id],
                None => !self.unit_table().contains_key(unit_id),
            },
    {
        match self.units.get(&unit_id) {
            Some(n) => Some(n.clone()),
            None => None,
        }
    }

    /// The name of an ability, if the data lists it.
    pub fn ability_name(&self, ability_id: u32) -> (r: Option<String>)
        ensures
            match r {
                Some(n) => self.ability_table().contains_key(ability_id) && n@ == self.ability_table()[ability_id],
                None => !self.ability_table().contains_key(ability_id),
            },
    {
        match self.abilities.get(&ability_id) {
            Some(n) => Some(n.clone()),
            None => None,
        }
    }
}

} // verus!
