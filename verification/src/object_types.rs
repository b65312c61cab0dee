//! The catalogue of unit types and weapon types.
use vstd::prelude::*;
use crate::types::ZInt;

verus! {

/// Broad kind of a unit.
#[derive(Clone, Copy, Debug, PartialEq, Eq, Structural)]
pub enum UnitClass {
    Infantry,
    Vehicle,
}

/// Fixed data of a weapon.
#[derive(Debug)]
pub struct WeaponType {
    pub name: String,
    pub damage: ZInt,
    pub ap: ZInt,
    pub accuracy: ZInt,
    pub min_distance: ZInt,
    pub max_distance: ZInt,
}

/// A weapon type as a mathematical value.
pub struct WeaponTypeView {
    pub name: Seq<char>,
    pub damage: int,
    pub ap: int,
    pub accuracy: int,
    pub min_distance: int,
    pub max_distance: int,
}

impl View for WeaponType {
    type V = WeaponTypeView;

    open spec fn view(&self) -> WeaponTypeView {
        WeaponTypeView {
            name: self.name@,
            damage: self.damage as int,
            ap: self.ap as int,
            accuracy: self.accuracy as int,
            min_distance: self.min_distance as int,
            max_distance: self.max_distance as int,
        }
    }
}

impl Clone for WeaponType {
    fn clone(&self) -> (copy: WeaponType)
        ensures
            copy@ == self@,
    {
        WeaponType {
            name: self.name.clone(),
            damage: self.damage,
            ap: self.ap,
            accuracy: self.accuracy,
            min_distance: self.min_distance,
            max_distance: self.max_distance,
        }
    }
}

/// Place of a weapon type in the catalogue.
#[derive(Clone, Copy, Debug, PartialEq, Eq, Structural)]
pub struct WeaponTypeId {
    pub id: ZInt,
}

/// Fixed data of a kind of unit.
#[derive(Debug)]
pub struct UnitType {
    pub name: String,
    pub class: UnitClass,
    pub count: ZInt,
    pub size: ZInt,
    pub armor: ZInt,
    pub toughness: ZInt,
    pub weapon_skill: ZInt,
    pub weapon_type_id: WeaponTypeId,
    pub move_points: ZInt,
}

/// A unit type as a mathematical value.
pub struct UnitTypeView {
    pub name: Seq<char>,
    pub class: UnitClass,
    pub count: int,
    pub size: int,
    pub armor: int,
    pub toughness: int,
    pub weapon_skill: int,
    pub weapon_type_id: int,
    pub move_points: int,
}

impl View for UnitType {
    type V = UnitTypeView;

    open spec fn view(&self) -> UnitTypeView {
        UnitTypeView {
            name: self.name@,
            class: self.class,
            count: self.count as int,
            size: self.size as int,
            armor: self.armor as int,
            toughness: self.toughness as int,
            weapon_skill: self.weapon_skill as int,
            weapon_type_id: self.weapon_type_id.id as int,
            move_points: self.move_points as int,
        }
    }
}

impl Clone for UnitType {
    fn clone(&self) -> (copy: UnitType)
        ensures
            copy@ == self@,
    {
        UnitType {
            name: self.name.clone(),
            class: self.class,
            count: self.count,
            size: self.size,
            armor: self.armor,
            toughness: self.toughness,
            weapon_skill: self.weapon_skill,
            weapon_type_id: self.weapon_type_id,
            move_points: self.move_points,
        }
    }
}

/// Place of a unit type in the catalogue.
#[derive(Clone, Copy, Debug, PartialEq, Eq, Structural)]
pub struct UnitTypeId {
    pub id: ZInt,
}

/// The weapon types of the reference scenario: a cannon and a rifle.
pub open spec fn reference_weapon_types() -> Seq<WeaponTypeView> {
    seq![
        WeaponTypeView {
            name: "cannon"@,
            damage: 9,
            ap: 9,
            accuracy: 5,
            min_distance: 0,
            max_distance: 5,
        },
        WeaponTypeView {
            name: "rifle"@,
            damage: 2,
            ap: 1,
            accuracy: 5,
            min_distance: 0,
            max_distance: 3,
        },
    ]
}

/// The unit types of the reference scenario: a tank that carries the cannon
/// and a squad of soldiers that carries rifles.
pub open spec fn reference_unit_types() -> Seq<UnitTypeView> {
    seq![
        UnitTypeView {
            name: "tank"@,
            class: UnitClass::Vehicle,
            count: 1,
            size: 6,
            armor: 11,
            toughness: 9,
            weapon_skill: 5,
            weapon_type_id: 0,
            move_points: 5,
        },
        UnitTypeView {
            name: "soldier"@,
            class: UnitClass::Infantry,
            count: 4,
            size: 4,
            armor: 1,
            toughness: 2,
            weapon_skill: 5,
            weapon_type_id: 1,
            move_points: 3,
        },
    ]
}

/// Whether the two lists make a catalogue: places fit a `ZInt`, and every
/// unit type carries a weapon type of the list.
pub open spec fn make_catalogue(
    unit_types: Seq<UnitTypeView>,
    weapon_types: Seq<WeaponTypeView>,
) -> bool {
    &&& unit_types.len() <= i32::MAX
    &&& weapon_types.len() <= i32::MAX
    &&& forall|i: int|
        0 <= i < unit_types.len() ==> 0 <= (#[trigger] unit_types[i]).weapon_type_id
            < weapon_types.len()
}

/// The unit types of a list as mathematical values.
pub open spec fn unit_types_view(unit_types: Seq<UnitType>) -> Seq<UnitTypeView> {
    unit_types.map_values(|t: UnitType| t@)
}

/// The weapon types of a list as mathematical values.
pub open spec fn weapon_types_view(weapon_types: Seq<WeaponType>) -> Seq<WeaponTypeView> {
    weapon_types.map_values(|t: WeaponType| t@)
}

/// Whether `i` is the place of the first entry of `names` that equals `name`.
pub open spec fn first_named(names: Seq<Seq<char>>, name: Seq<char>, i: int) -> bool {
    &&& 0 <= i < names.len()
    &&& names[i] == name
    &&& forall|j: int| 0 <= j < i ==> names[j] != name
}

/// The four names of the reference scenario differ from one another.
pub proof fn lemma_reference_names()
    ensures
        "cannon"@ != "rifle"@,
        "tank"@ != "soldier"@,
        "cannon"@.len() == 6,
        "rifle"@.len() == 5,
        "tank"@.len() == 4,
        "soldier"@.len() == 7,
{
    reveal_strlit("cannon");
    reveal_strlit("rifle");
    reveal_strlit("tank");
    reveal_strlit("soldier");
    assert("cannon"@.len() == 6 && "rifle"@.len() == 5);
    assert("tank"@.len() == 4 && "soldier"@.len() == 7);
}

/// The unit types and weapon types that the game knows, each found by its
/// place or by its name. Nothing changes after construction.
#[derive(Debug)]
pub struct ObjectTypes {
    unit_types: Vec<UnitType>,
    weapon_types: Vec<WeaponType>,
}

impl ObjectTypes {
    /// Places fit a `ZInt`, and every unit type carries a weapon type of the
    /// catalogue.
    #[verifier::type_invariant]
    pub closed spec fn wf(self) -> bool {
        &&& self.unit_types@.len() <= i32::MAX
        &&& self.weapon_types@.len() <= i32::MAX
        &&& forall|i: int|
            0 <= i < self.unit_types@.len() ==> 0 <= (
            #[trigger] self.unit_types@[i]).weapon_type_id.id < self.weapon_types@.len()
    }

    /// The unit types, by place.
    pub closed spec fn unit_types(self) -> Seq<UnitTypeView> {
        unit_types_view(self.unit_types@)
    }

    /// The weapon types, by place.
    pub closed spec fn weapon_types(self) -> Seq<WeaponTypeView> {
        weapon_types_view(self.weapon_types@)
    }

    /// The names of the unit types, by place.
    pub open spec fn unit_type_names(self) -> Seq<Seq<char>> {
        self.unit_types().map_values(|t: UnitTypeView| t.name)
    }

    /// The names of the weapon types, by place.
    pub open spec fn weapon_type_names(self) -> Seq<Seq<char>> {
        self.weapon_types().map_values(|t: WeaponTypeView| t.name)
    }

    /// What holds of every catalogue: its lists make a catalogue.
    pub open spec fn valid(self) -> bool {
        make_catalogue(self.unit_types(), self.weapon_types())
    }

    /// The place of the first unit type called `name`.
    pub open spec fn unit_type_id_of(self, name: Seq<char>) -> int {
        choose|i: int| first_named(self.unit_type_names(), name, i)
    }

    /// Whether `id` is the place of a unit type.
    pub open spec fn has_unit_type(self, id: UnitTypeId) -> bool {
        0 <= id.id < self.unit_types().len()
    }

    /// Whether `id` is the place of a weapon type.
    pub open spec fn has_weapon_type(self, id: WeaponTypeId) -> bool {
        0 <= id.id < self.weapon_types().len()
    }

    /// The catalogue of the reference scenario.
    pub fn new() -> (object_types: ObjectTypes)
        ensures
            object_types.weapon_types() == reference_weapon_types(),
            object_types.unit_types() == reference_unit_types(),
            object_types.valid(),
    {
        let weapons_only = ObjectTypes {
            unit_types: Vec::new(),
            weapon_types: Self::get_weapon_types(),
        };
        let unit_types = weapons_only.get_unit_types();
        let object_types = ObjectTypes {
            unit_types: unit_types,
            weapon_types: weapons_only.weapon_types,
        };
        object_types
    }

    /// A catalogue of the unit types `unit_types` and the weapon types
    /// `weapon_types`, if the two lists make one.
    pub fn from_lists(unit_types: Vec<UnitType>, weapon_types: Vec<WeaponType>) -> (object_types:
        Option<ObjectTypes>)
        ensures
            match object_types {
                Some(object_types) => {
                    &&& object_types.unit_types() == unit_types_view(unit_types@)
                    &&& object_types.weapon_types() == weapon_types_view(weapon_types@)
                    &&& object_types.valid()
                },
                None => !make_catalogue(
                    unit_types_view(unit_types@),
                    weapon_types_view(weapon_types@),
                ),
            },
    {
        let limit: usize = 0x7fff_ffff;
        if unit_types.len() > limit || weapon_types.len() > limit {
            return None;
        }
        let mut i: usize = 0;
        while i < unit_types.len()
            invariant
                0 <= i <= unit_types@.len(),
                forall|j: int|
                    0 <= j < i ==> 0 <= (#[trigger] unit_types@[j]).weapon_type_id.id
                        < weapon_types@.len(),
            decreases unit_types@.len() - i,
        {
            let id: ZInt = unit_types[i].weapon_type_id.id;
            if id < 0 || id as usize >= weapon_types.len() {
                proof {
                    assert(unit_types_view(unit_types@)[i as int] == unit_types@[i as int]@);
                }
                return None;
            }
            i = i + 1;
        }
        Some(ObjectTypes { unit_types: unit_types, weapon_types: weapon_types })
    }

    fn get_weapon_types() -> (weapon_types: Vec<WeaponType>)
        ensures
            weapon_types@.map_values(|t: WeaponType| t@) == reference_weapon_types(),
            weapon_types@.len() == 2,
    {
        let mut weapon_types: Vec<WeaponType> = Vec::new();
        weapon_types.push(
            WeaponType {
                name: "cannon".to_owned(),
                damage: 9,
                ap: 9,
                accuracy: 5,
                min_distance: 0,
                max_distance: 5,
            },
        );
        weapon_types.push(
            WeaponType {
                name: "rifle".to_owned(),
                damage: 2,
                ap: 1,
                accuracy: 5,
                min_distance: 0,
                max_distance: 3,
            },
        );
        weapon_types
    }

    fn get_unit_types(&self) -> (unit_types: Vec<UnitType>)
        requires
            self.weapon_types() == reference_weapon_types(),
        ensures
            unit_types@.map_values(|t: UnitType| t@) == reference_unit_types(),
            unit_types@.len() == 2,
            forall|i: int|
                0 <= i < unit_types@.len() ==> 0 <= (
                #[trigger] unit_types@[i]).weapon_type_id.id < 2,
    {
        proof {
            lemma_reference_names();
            assert(first_named(self.weapon_type_names(), "cannon"@, 0));
            assert(first_named(self.weapon_type_names(), "rifle"@, 1));
        }
        let cannon_id = self.get_weapon_type_id("cannon");
        let rifle_id = self.get_weapon_type_id("rifle");
        let mut unit_types: Vec<UnitType> = Vec::new();
        unit_types.push(
            UnitType {
                name: "tank".to_owned(),
                class: UnitClass::Vehicle,
                size: 6,
                count: 1,
                armor: 11,
                toughness: 9,
                weapon_skill: 5,
                weapon_type_id: cannon_id,
                move_points: 5,
            },
        );
        unit_types.push(
            UnitType {
                name: "soldier".to_owned(),
                class: UnitClass::Infantry,
                size: 4,
                count: 4,
                armor: 1,
                toughness: 2,
                weapon_skill: 5,
                weapon_type_id: rifle_id,
                move_points: 3,
            },
        );
        unit_types
    }

    /// The place of the first unit type called `name`, if there is one.
    pub fn get_unit_type_id_opt(&self, name: &str) -> (id: Option<UnitTypeId>)
        ensures
            match id {
                Some(id) => first_named(self.unit_type_names(), name@, id.id as int),
                None => !self.unit_type_names().contains(name@),
            },
    {
        proof {
            use_type_invariant(self);
        }
        let wanted: String = name.to_owned();
        let mut id: usize = 0;
        while id < self.unit_types.len()
            invariant
                0 <= id <= self.unit_types@.len() <= i32::MAX,
                wanted@ == name@,
                self.unit_type_names().len() == self.unit_types@.len(),
                forall|j: int| 0 <= j < id ==> self.unit_type_names()[j] != name@,
            decreases self.unit_types@.len() - id,
        {
            if self.unit_types[id].name == wanted {
                return Some(UnitTypeId { id: id as ZInt });
            }
            id = id + 1;
        }
        None
    }

    /// The unit type at the place `unit_type_id`.
    pub fn get_unit_type<'a>(&'a self, unit_type_id: &UnitTypeId) -> (unit_type: &'a UnitType)
        requires
            self.has_unit_type(*unit_type_id),
        ensures
            unit_type@ == self.unit_types()[unit_type_id.id as int],
            self.has_weapon_type(unit_type.weapon_type_id),
    {
        proof {
            use_type_invariant(self);
        }
        &self.unit_types[unit_type_id.id as usize]
    }

    /// The weapon type at the place `weapon_type_id`.
    pub fn get_weapon_type<'a>(&'a self, weapon_type_id: &WeaponTypeId) -> (weapon_type:
        &'a WeaponType)
        requires
            self.has_weapon_type(*weapon_type_id),
        ensures
            weapon_type@ == self.weapon_types()[weapon_type_id.id as int],
    {
        &self.weapon_types[weapon_type_id.id as usize]
    }

    /// The place of the first unit type called `name`. There must be one.
    pub fn get_unit_type_id(&self, name: &str) -> (id: UnitTypeId)
        requires
            self.unit_type_names().contains(name@),
        ensures
            first_named(self.unit_type_names(), name@, id.id as int),
            self.has_unit_type(id),
    {
        self.get_unit_type_id_opt(name).unwrap()
    }

    /// The place of the first weapon type called `name`, if there is one.
    pub fn get_weapon_type_id_opt(&self, name: &str) -> (id: Option<WeaponTypeId>)
        ensures
            match id {
                Some(id) => first_named(self.weapon_type_names(), name@, id.id as int),
                None => !self.weapon_type_names().contains(name@),
            },
    {
        proof {
            use_type_invariant(self);
        }
        let wanted: String = name.to_owned();
        let mut id: usize = 0;
        while id < self.weapon_types.len()
            invariant
                0 <= id <= self.weapon_types@.len() <= i32::MAX,
                wanted@ == name@,
                self.weapon_type_names().len() == self.weapon_types@.len(),
                forall|j: int| 0 <= j < id ==> self.weapon_type_names()[j] != name@,
            decreases self.weapon_types@.len() - id,
        {
            if self.weapon_types[id].name == wanted {
                return Some(WeaponTypeId { id: id as ZInt });
            }
            id = id + 1;
        }
        None
    }

    /// The place of the first weapon type called `name`. There must be one.
    pub fn get_weapon_type_id(&self, name: &str) -> (id: WeaponTypeId)
        requires
            self.weapon_type_names().contains(name@),
        ensures
            first_named(self.weapon_type_names(), name@, id.id as int),
            self.has_weapon_type(id),
    {
        self.get_weapon_type_id_opt(name).unwrap()
    }

    /// Whether `id` is the place of a unit type.
    pub fn is_unit_type(&self, id: &UnitTypeId) -> (known: bool)
        ensures
            known == self.has_unit_type(*id),
            self.valid(),
    {
        proof {
            use_type_invariant(self);
        }
        id.id >= 0 && (id.id as usize) < self.unit_types.len()
    }

    /// Whether `id` is the place of a weapon type.
    pub fn is_weapon_type(&self, id: &WeaponTypeId) -> (known: bool)
        ensures
            known == self.has_weapon_type(*id),
    {
        proof {
            use_type_invariant(self);
        }
        id.id >= 0 && (id.id as usize) < self.weapon_types.len()
    }
}

} // verus!
