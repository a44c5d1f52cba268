//! Villains, as stored in the `Villain` table.

use vstd::prelude::*;

verus! {

/// A row of the `Villain` table.
#[derive(Debug, Clone, PartialEq, Eq)]
pub struct SqlVillain {
    id: i64,
    level: i32,
    name: String,
    other_name: String,
    picture: String,
    powers: String,
}

/// What a villain row holds, its texts as character sequences.
pub struct VillainView {
    pub id: i64,
    pub level: i32,
    pub name: Seq<char>,
    pub other_name: Seq<char>,
    pub picture: Seq<char>,
    pub powers: Seq<char>,
}

impl View for SqlVillain {
    type V = VillainView;

    closed spec fn view(&self) -> VillainView {
        VillainView {
            id: self.id,
            level: self.level,
            name: self.name@,
            other_name: self.other_name@,
            picture: self.picture@,
            powers: self.powers@,
        }
    }
}

impl SqlVillain {
    /// A villain row with the given columns.
    pub fn new(
        id: i64,
        level: i32,
        name: String,
        other_name: String,
        picture: String,
        powers: String,
    ) -> (res: SqlVillain)
        ensures
            res@.id == id,
            res@.level == level,
            res@.name == name@,
            res@.other_name == other_name@,
            res@.picture == picture@,
            res@.powers == powers@,
    {
        SqlVillain { id, level, name, other_name, picture, powers }
    }

    /// The villain's id.
    pub fn id(&self) -> (res: i64)
        ensures
            res == self@.id,
    {
        self.id
    }

    /// The villain's level.
    pub fn level(&self) -> (res: i32)
        ensures
            res == self@.level,
    {
        self.level
    }

    /// The villain's name.
    pub fn name(&self) -> (res: &String)
        ensures
            res@ == self@.name,
    {
        &self.name
    }

    /// The villain's other name.
    pub fn other_name(&self) -> (res: &String)
        ensures
            res@ == self@.other_name,
    {
        &self.other_name
    }

    /// The villain's picture.
    pub fn picture(&self) -> (res: &String)
        ensures
            res@ == self@.picture,
    {
        &self.picture
    }

    /// The villain's powers.
    pub fn powers(&self) -> (res: &String)
        ensures
            res@ == self@.powers,
    {
        &self.powers
    }
}

} // verus!
