use vstd::prelude::*;

use crate::errors::RecruitError;

verus! {

/// A language a display name can be given in.
#[derive(Clone, Copy, Debug, PartialEq, Eq, Structural)]
pub enum Language {
    Japanese,
    English,
}

/// A rarity tier, ordered from the most common to the rarest.
#[derive(Clone, Copy, Debug, PartialEq, Eq, PartialOrd, Ord, Hash, Structural)]
pub enum Rarity {
    One,
    Two,
    Three,
}

/// A recruitable character: an identity, its display names by language, its
/// rarity tier, and the asset key that resolves its thumbnail.
pub struct Character {
    pub id: u64,
    pub names: Vec<(Language, String)>,
    pub rarity: Rarity,
    pub asset: String,
}

/// The mathematical shape of a [`Character`].
#[verifier::ext_equal]
pub struct CharView {
    pub id: u64,
    pub names: Seq<(Language, Seq<char>)>,
    pub rarity: Rarity,
    pub asset: Seq<char>,
}

/// The mathematical shape of a language-to-name listing.
pub open spec fn names_view(names: Seq<(Language, String)>) -> Seq<(Language, Seq<char>)> {
    Seq::new(names.len(), |i: int| (names[i].0, names[i].1@))
}

impl View for Character {
    type V = CharView;

    open spec fn view(&self) -> CharView {
        CharView {
            id: self.id,
            names: names_view(self.names@),
            rarity: self.rarity,
            asset: self.asset@,
        }
    }
}

/// The name listed for `lang`, searching front to back; `None` when no entry
/// carries that language.
pub open spec fn lookup_name(names: Seq<(Language, Seq<char>)>, lang: Language) -> Option<
    Seq<char>,
>
    decreases names.len(),
{
    if names.len() == 0 {
        None
    } else if names[0].0 == lang {
        Some(names[0].1)
    } else {
        lookup_name(names.drop_first(), lang)
    }
}

impl Clone for Character {
    fn clone(&self) -> (r: Self)
        ensures
            r@ == self@,
    {
        let mut names: Vec<(Language, String)> = Vec::new();
        let mut i: usize = 0;
        while i < self.names.len()
            invariant
                i <= self.names.len(),
                names@.len() == i as int,
                forall|k: int|
                    0 <= k < i ==> names@[k].0 == self.names@[k].0 && names@[k].1@
                        == self.names@[k].1@,
            decreases self.names.len() - i,
        {
            let entry = &self.names[i];
            names.push((entry.0, entry.1.clone()));
            i = i + 1;
        }
        let r = Character { id: self.id, names, rarity: self.rarity, asset: self.asset.clone() };
        proof {
            assert(r@.names =~= self@.names);
            assert(r@ =~= self@);
        }
        r
    }
}

/// Looks `lang` up in a language-to-name listing; `MissingTranslation`
/// exactly when no entry for `lang` exists.
pub fn find_name(names: &Vec<(Language, String)>, lang: Language) -> (r: Result<
    String,
    RecruitError,
>)
    ensures
        match r {
            Ok(s) => lookup_name(names_view(names@), lang) == Some(s@),
            Err(e) => e == RecruitError::MissingTranslation && lookup_name(
                names_view(names@),
                lang,
            ) is None,
        },
{
    let ghost nv = names_view(names@);
    let mut i: usize = 0;
    proof {
        assert(nv.skip(0) =~= nv);
    }
    while i < names.len()
        invariant
            i <= names.len(),
            nv == names_view(names@),
            lookup_name(nv, lang) == lookup_name(nv.skip(i as int), lang),
        decreases names.len() - i,
    {
        let entry = &names[i];
        if entry.0 == lang {
            proof {
                assert(nv.skip(i as int)[0] == nv[i as int]);
            }
            return Ok(entry.1.clone());
        }
        proof {
            assert(nv.skip(i as int).drop_first() =~= nv.skip(i + 1));
            assert(nv.skip(i as int)[0] == nv[i as int]);
        }
        i = i + 1;
    }
    proof {
        assert(nv.skip(i as int).len() == 0);
    }
    Err(RecruitError::MissingTranslation)
}

impl Character {
    /// The display name of this character in `lang`; `MissingTranslation`
    /// exactly when no entry for `lang` exists.
    pub fn name(&self, lang: Language) -> (r: Result<String, RecruitError>)
        ensures
            match r {
                Ok(s) => lookup_name(self@.names, lang) == Some(s@),
                Err(e) => e == RecruitError::MissingTranslation && lookup_name(self@.names, lang)
                    is None,
            },
    {
        find_name(&self.names, lang)
    }
}

/// The RGB colour a rarity is displayed with.
pub open spec fn rarity_colour_spec(rarity: Rarity) -> (u8, u8, u8) {
    match rarity {
        Rarity::One => (227u8, 234u8, 240u8),
        Rarity::Two => (255u8, 248u8, 124u8),
        Rarity::Three => (253u8, 198u8, 229u8),
    }
}

/// The RGB colour a rarity is displayed with.
pub fn get_rarity_colour(rarity: Rarity) -> (rgb: (u8, u8, u8))
    ensures
        rgb == rarity_colour_spec(rarity),
{
    match rarity {
        Rarity::One => (227, 234, 240),
        Rarity::Two => (255, 248, 124),
        Rarity::Three => (253, 198, 229),
    }
}

} // verus!
