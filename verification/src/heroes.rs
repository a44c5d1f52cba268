//! Heroes, as stored in the `Hero` table.

use vstd::prelude::*;

verus! {

/// A row of the `Hero` table.
#[derive(Debug, Clone, PartialEq, Eq)]
pub struct SqlHero {
    id: i64,
    pub level: i32,
    pub name: String,
    pub other_name: Option<String>,
    pub picture: String,
    pub powers: String,
}

/// What a hero row holds, its texts as character sequences.
pub struct HeroView {
    pub id: i64,
    pub level: i32,
    pub name: Seq<char>,
    pub other_name: Option<Seq<char>>,
    pub picture: Seq<char>,
    pub powers: Seq<char>,
}

impl View for SqlHero {
    type V = HeroView;

    closed spec fn view(&self) -> HeroView {
        HeroView {
            id: self.id,
            level: self.level,
            name: self.name@,
            other_name: match self.other_name {
                Some(o) => Some(o@),
                None => None,
            },
            picture: self.picture@,
            powers: self.powers@,
        }
    }
}

impl SqlHero {
    /// A hero row with the given columns.
    pub fn new(
        id: i64,
        level: i32,
        name: String,
        other_name: Option<String>,
        picture: String,
        powers: String,
    ) -> (res: SqlHero)
        ensures
            res@.id == id,
            res@.level == level,
            res@.name == name@,
            res@.other_name == (match other_name {
                Some(o) => Some(o@),
                None => None::<Seq<char>>,
            }),
            res@.picture == picture@,
            res@.powers == powers@,
    {
        SqlHero { id, level, name, other_name, picture, powers }
    }

    /// The hero's id.
    pub fn id(&self) -> (res: i64)
        ensures
            res == self@.id,
    {
        self.id
    }

    /// The hero's level.
    pub fn level(&self) -> (res: i32)
        ensures
            res == self@.level,
    {
        self.level
    }

    /// The hero's name.
    pub fn name(&self) -> (res: &String)
        ensures
            res@ == self@.name,
    {
        &self.name
    }

    /// The hero's picture.
    pub fn picture(&self) -> (res: &String)
        ensures
            res@ == self@.picture,
    {
        &self.picture
    }

    /// The hero's powers.
    pub fn powers(&self) -> (res: &String)
        ensures
            res@ == self@.powers,
    {
        &self.powers
    }
}

} // verus!
