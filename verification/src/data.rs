//! Component data: the link between concrete component types and the erased
//! form in which a store or a sheet holds them, and the data components of a
//! character.

use vstd::prelude::*;

verus! {

/// Identifies one component type among the types that share an erased form.
pub type TypeKey = u64;

/// A component type that a store can hold in the erased form `V` and hand
/// back by type.
///
/// `V` is the one type of value that a store keeps, typically an enum with a
/// variant for each component type. A store files every value under its type's
/// key, so two types that one store holds must not share a key.
pub trait Data<V>: Sized {
    /// The key under which values of this type are filed.
    spec fn type_key() -> TypeKey;

    /// The erased form of a value.
    spec fn erased(self) -> V;

    /// The value of this type that an erased form stands for, if there is one.
    spec fn recovered(v: V) -> Option<Self>;

    /// Erasing a value loses nothing: the erased form stands for that value.
    proof fn lemma_recover_erased(self)
        ensures
            Self::recovered(self.erased()) == Some(self),
    ;

    /// The key under which values of this type are filed.
    fn key() -> (k: TypeKey)
        ensures
            k == Self::type_key(),
    ;

    /// Gives the value up for its erased form.
    fn erase(self) -> (v: V)
        ensures
            v == self.erased(),
    ;

    /// The value that `v` stands for, if it is one of this type.
    fn recover(v: &V) -> (r: Option<&Self>)
        ensures
            (match r {
                Some(d) => Some(*d),
                None => None,
            }) == Self::recovered(*v),
    ;

    /// The value that `v` stands for, for changes in place: what the caller
    /// leaves there is what `v` then stands for.
    fn recover_mut(v: &mut V) -> (r: Option<&mut Self>)
        ensures
            (match r {
                Some(d) => {
                    &&& Self::recovered(*old(v)) == Some(*d)
                    &&& *final(v) == (*final(d)).erased()
                },
                None => Self::recovered(*old(v)) is None && *final(v) == *old(v),
            }),
    ;
}

/// The data of type `T` among `data`, in the order of `data`.
pub open spec fn data_of<V, T: Data<V>>(data: Seq<V>) -> Seq<T> {
    data.filter_map(|v: V| T::recovered(v))
}

/// Whether `place` is where `data` holds the datum of type `T` that has
/// `index` data of type `T` before it.
pub open spec fn is_place_of<V, T: Data<V>>(data: Seq<V>, place: int, index: int) -> bool {
    &&& 0 <= place < data.len()
    &&& T::recovered(data[place]) is Some
    &&& data_of::<V, T>(data.take(place)).len() == index
}

/// The data of one sheet, in the order in which it was added.
pub struct DataSheetComponent<V> {
    pub data: Vec<V>,
}

impl<V> DataSheetComponent<V> {
    /// A sheet without data.
    pub fn new() -> (sheet: DataSheetComponent<V>)
        ensures
            sheet.data@ == Seq::<V>::empty(),
    {
        DataSheetComponent { data: Vec::new() }
    }

    /// The sheet with `data` added behind what it holds.
    pub fn with<T: Data<V>>(self, data: T) -> (sheet: Self)
        ensures
            sheet.data@ == self.data@.push(data.erased()),
    {
        let mut sheet = self;
        sheet.data.push(data.erase());
        sheet
    }

    /// The data of type `T` on the sheet, in the order of the sheet.
    pub fn query<T: Data<V>>(&self) -> (found: Vec<&T>)
        ensures
            found@.len() == data_of::<V, T>(self.data@).len(),
            forall|i: int|
                0 <= i < found@.len() ==> *#[trigger] found@[i] == data_of::<V, T>(self.data@)[i],
    {
        let mut found: Vec<&T> = Vec::new();
        let mut i: usize = 0;
        while i < self.data.len()
            invariant
                i <= self.data@.len(),
                found@.len() == data_of::<V, T>(self.data@.take(i as int)).len(),
                forall|j: int|
                    0 <= j < found@.len() ==> *#[trigger] found@[j] == data_of::<V, T>(
                        self.data@.take(i as int),
                    )[j],
            decreases self.data@.len() - i,
        {
            proof {
                let next = self.data@.take(i as int + 1);
                assert(next.drop_last() =~= self.data@.take(i as int));
            }
            match T::recover(&self.data[i]) {
                Some(d) => {
                    found.push(d);
                },
                None => {},
            }
            i += 1;
        }
        assert(self.data@.take(self.data@.len() as int) =~= self.data@);
        found
    }

    /// The datum at `index` of the data of type `T`, counted as
    /// [`DataSheetComponent::query`] hands them out, for changes in place:
    /// what the caller leaves there is what the sheet then holds in its
    /// place.
    pub fn query_mut<T: Data<V>>(&mut self, index: usize) -> (found: Option<&mut T>)
        ensures
            (match found {
                Some(d) => exists|place: int|
                    ({
                        &&& #[trigger] is_place_of::<V, T>(old(self).data@, place, index as int)
                        &&& T::recovered(old(self).data@[place]) == Some(*d)
                        &&& final(self).data@ == old(self).data@.update(place, (*final(d)).erased())
                    }),
                None => {
                    &&& index >= data_of::<V, T>(old(self).data@).len()
                    &&& final(self).data@ == old(self).data@
                },
            }),
    {
        let mut seen: usize = 0;
        let mut i: usize = 0;
        while i < self.data.len()
            invariant
                i <= self.data@.len(),
                *self == *old(self),
                seen == data_of::<V, T>(self.data@.take(i as int)).len(),
                seen <= i,
                seen <= index,
            decreases self.data@.len() - i,
        {
            proof {
                let next = self.data@.take(i as int + 1);
                assert(next.drop_last() =~= self.data@.take(i as int));
            }
            if T::recover(&self.data[i]).is_some() {
                if seen == index {
                    assert(is_place_of::<V, T>(old(self).data@, i as int, index as int));
                    return T::recover_mut(&mut self.data[i]);
                }
                seen += 1;
            }
            i += 1;
        }
        assert(self.data@.take(self.data@.len() as int) =~= self.data@);
        None
    }
}

/// Hit points.
#[derive(Clone, Copy, Debug, PartialEq, Eq, Structural)]
pub struct Health(pub i32);

impl Default for Health {
    fn default() -> (health: Health)
        ensures
            health == Health(0),
    {
        Health(0)
    }
}

/// An ability score with the modifier that it gives.
#[derive(Clone, Copy, Debug, PartialEq, Eq, Structural)]
pub struct AbilityScore {
    pub base_score: i32,
    pub effective_score: i32,
    pub modifier: i32,
}

impl Default for AbilityScore {
    fn default() -> (score: AbilityScore)
        ensures
            score == (AbilityScore { base_score: 0, effective_score: 0, modifier: 0 }),
    {
        AbilityScore { base_score: 0, effective_score: 0, modifier: 0 }
    }
}

/// The strength score.
#[derive(Clone, Copy, Debug, PartialEq, Eq, Structural)]
pub struct Strength(pub AbilityScore);

/// The dexterity score.
#[derive(Clone, Copy, Debug, PartialEq, Eq, Structural)]
pub struct Dexterity(pub AbilityScore);

/// The constitution score.
#[derive(Clone, Copy, Debug, PartialEq, Eq, Structural)]
pub struct Constitution(pub AbilityScore);

/// The intelligence score.
#[derive(Clone, Copy, Debug, PartialEq, Eq, Structural)]
pub struct Intelligence(pub AbilityScore);

/// The charisma score.
#[derive(Clone, Copy, Debug, PartialEq, Eq, Structural)]
pub struct Charisma(pub AbilityScore);

/// The wisdom score.
#[derive(Clone, Copy, Debug, PartialEq, Eq, Structural)]
pub struct Wisdom(pub AbilityScore);

/// Any one of the data components, as a sheet or a store holds it.
#[derive(Clone, Copy, Debug, PartialEq, Eq, Structural)]
pub enum SheetData {
    Health(Health),
    Strength(Strength),
    Dexterity(Dexterity),
    Constitution(Constitution),
    Intelligence(Intelligence),
    Charisma(Charisma),
    Wisdom(Wisdom),
}

impl Data<SheetData> for Health {
    open spec fn type_key() -> TypeKey {
        0
    }

    open spec fn erased(self) -> SheetData {
        SheetData::Health(self)
    }

    open spec fn recovered(v: SheetData) -> Option<Self> {
        match v {
            SheetData::Health(data) => Some(data),
            _ => None,
        }
    }

    proof fn lemma_recover_erased(self) {
    }

    fn key() -> (k: TypeKey) {
        0
    }

    fn erase(self) -> (v: SheetData) {
        SheetData::Health(self)
    }

    fn recover(v: &SheetData) -> (r: Option<&Self>) {
        match v {
            SheetData::Health(data) => Some(data),
            _ => None,
        }
    }

    fn recover_mut(v: &mut SheetData) -> (r: Option<&mut Self>) {
        match v {
            SheetData::Health(data) => Some(data),
            _ => None,
        }
    }
}

impl Data<SheetData> for Strength {
    open spec fn type_key() -> TypeKey {
        1
    }

    open spec fn erased(self) -> SheetData {
        SheetData::Strength(self)
    }

    open spec fn recovered(v: SheetData) -> Option<Self> {
        match v {
            SheetData::Strength(data) => Some(data),
            _ => None,
        }
    }

    proof fn lemma_recover_erased(self) {
    }

    fn key() -> (k: TypeKey) {
        1
    }

    fn erase(self) -> (v: SheetData) {
        SheetData::Strength(self)
    }

    fn recover(v: &SheetData) -> (r: Option<&Self>) {
        match v {
            SheetData::Strength(data) => Some(data),
            _ => None,
        }
    }

    fn recover_mut(v: &mut SheetData) -> (r: Option<&mut Self>) {
        match v {
            SheetData::Strength(data) => Some(data),
            _ => None,
        }
    }
}

impl Data<SheetData> for Dexterity {
    open spec fn type_key() -> TypeKey {
        2
    }

    open spec fn erased(self) -> SheetData {
        SheetData::Dexterity(self)
    }

    open spec fn recovered(v: SheetData) -> Option<Self> {
        match v {
            SheetData::Dexterity(data) => Some(data),
            _ => None,
        }
    }

    proof fn lemma_recover_erased(self) {
    }

    fn key() -> (k: TypeKey) {
        2
    }

    fn erase(self) -> (v: SheetData) {
        SheetData::Dexterity(self)
    }

    fn recover(v: &SheetData) -> (r: Option<&Self>) {
        match v {
            SheetData::Dexterity(data) => Some(data),
            _ => None,
        }
    }

    fn recover_mut(v: &mut SheetData) -> (r: Option<&mut Self>) {
        match v {
            SheetData::Dexterity(data) => Some(data),
            _ => None,
        }
    }
}

impl Data<SheetData> for Constitution {
    open spec fn type_key() -> TypeKey {
        3
    }

    open spec fn erased(self) -> SheetData {
        SheetData::Constitution(self)
    }

    open spec fn recovered(v: SheetData) -> Option<Self> {
        match v {
            SheetData::Constitution(data) => Some(data),
            _ => None,
        }
    }

    proof fn lemma_recover_erased(self) {
    }

    fn key() -> (k: TypeKey) {
        3
    }

    fn erase(self) -> (v: SheetData) {
        SheetData::Constitution(self)
    }

    fn recover(v: &SheetData) -> (r: Option<&Self>) {
        match v {
            SheetData::Constitution(data) => Some(data),
            _ => None,
        }
    }

    fn recover_mut(v: &mut SheetData) -> (r: Option<&mut Self>) {
        match v {
            SheetData::Constitution(data) => Some(data),
            _ => None,
        }
    }
}

impl Data<SheetData> for Intelligence {
    open spec fn type_key() -> TypeKey {
        4
    }

    open spec fn erased(self) -> SheetData {
        SheetData::Intelligence(self)
    }

    open spec fn recovered(v: SheetData) -> Option<Self> {
        match v {
            SheetData::Intelligence(data) => Some(data),
            _ => None,
        }
    }

    proof fn lemma_recover_erased(self) {
    }

    fn key() -> (k: TypeKey) {
        4
    }

    fn erase(self) -> (v: SheetData) {
        SheetData::Intelligence(self)
    }

    fn recover(v: &SheetData) -> (r: Option<&Self>) {
        match v {
            SheetData::Intelligence(data) => Some(data),
            _ => None,
        }
    }

    fn recover_mut(v: &mut SheetData) -> (r: Option<&mut Self>) {
        match v {
            SheetData::Intelligence(data) => Some(data),
            _ => None,
        }
    }
}

impl Data<SheetData> for Charisma {
    open spec fn type_key() -> TypeKey {
        5
    }

    open spec fn erased(self) -> SheetData {
        SheetData::Charisma(self)
    }

    open spec fn recovered(v: SheetData) -> Option<Self> {
        match v {
            SheetData::Charisma(data) => Some(data),
            _ => None,
        }
    }

    proof fn lemma_recover_erased(self) {
    }

    fn key() -> (k: TypeKey) {
        5
    }

    fn erase(self) -> (v: SheetData) {
        SheetData::Charisma(self)
    }

    fn recover(v: &SheetData) -> (r: Option<&Self>) {
        match v {
            SheetData::Charisma(data) => Some(data),
            _ => None,
        }
    }

    fn recover_mut(v: &mut SheetData) -> (r: Option<&mut Self>) {
        match v {
            SheetData::Charisma(data) => Some(data),
            _ => None,
        }
    }
}

impl Data<SheetData> for Wisdom {
    open spec fn type_key() -> TypeKey {
        6
    }

    open spec fn erased(self) -> SheetData {
        SheetData::Wisdom(self)
    }

    open spec fn recovered(v: SheetData) -> Option<Self> {
        match v {
            SheetData::Wisdom(data) => Some(data),
            _ => None,
        }
    }

    proof fn lemma_recover_erased(self) {
    }

    fn key() -> (k: TypeKey) {
        6
    }

    fn erase(self) -> (v: SheetData) {
        SheetData::Wisdom(self)
    }

    fn recover(v: &SheetData) -> (r: Option<&Self>) {
        match v {
            SheetData::Wisdom(data) => Some(data),
            _ => None,
        }
    }

    fn recover_mut(v: &mut SheetData) -> (r: Option<&mut Self>) {
        match v {
            SheetData::Wisdom(data) => Some(data),
            _ => None,
        }
    }
}

} // verus!
