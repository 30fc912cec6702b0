use vstd::prelude::*;

use crate::character::{find_name, lookup_name, names_view, CharView, Character, Language};
use crate::engine::{
    boost_valid, engine_wf, in_pool, pool_valid, views_of, weights_valid, EngineView, RarityModel,
    RecruitmentEngine,
};
use crate::errors::RecruitError;

verus! {

broadcast use vstd::string::group_string_axioms;

/// A named, display-ready wrapper around one recruitment configuration:
/// the banner's name and its translations, the engine, and the list of
/// currently boosted characters for display.  Immutable once built.
pub struct Banner {
    pub name: String,
    pub translations: Vec<(Language, String)>,
    pub engine: RecruitmentEngine,
    pub sparkable: Vec<Character>,
}

/// The mathematical shape of a [`Banner`].
#[verifier::ext_equal]
pub struct BannerView {
    pub name: Seq<char>,
    pub translations: Seq<(Language, Seq<char>)>,
    pub engine: EngineView,
    pub sparkable: Seq<CharView>,
}

impl View for Banner {
    type V = BannerView;

    open spec fn view(&self) -> BannerView {
        BannerView {
            name: self.name@,
            translations: names_view(self.translations@),
            engine: self.engine@,
            sparkable: views_of(self.sparkable@),
        }
    }
}

/// The characters of `pool` whose identity is listed in `boosted`, in pool
/// order: the display list of a banner's rate-up subjects.
pub open spec fn boosted_of(pool: Seq<CharView>, boosted: Seq<u64>) -> Seq<CharView>
    decreases pool.len(),
{
    if pool.len() == 0 {
        Seq::empty()
    } else {
        let prefix = boosted_of(pool.drop_last(), boosted);
        if boosted.contains(pool.last().id) {
            prefix.push(pool.last())
        } else {
            prefix
        }
    }
}

/// The characters of `catalog` whose identity is not listed in `excluded`,
/// in catalog order: the pool a banner draws from.
pub open spec fn filter_pool(catalog: Seq<CharView>, excluded: Seq<u64>) -> Seq<CharView>
    decreases catalog.len(),
{
    if catalog.len() == 0 {
        Seq::empty()
    } else {
        let prefix = filter_pool(catalog.drop_last(), excluded);
        if !excluded.contains(catalog.last().id) {
            prefix.push(catalog.last())
        } else {
            prefix
        }
    }
}

/// The tier weights of the shipped rate-up banner: 79%, 18.5% and 2.5%,
/// in parts per million.
pub open spec fn banner_weights() -> RarityModel {
    RarityModel { one: 790000u32, two: 185000u32, three: 25000u32 }
}

pub open spec fn banner_wf(v: BannerView) -> bool {
    &&& engine_wf(v.engine)
    &&& v.sparkable == boosted_of(v.engine.pool, v.engine.boosted)
}

fn id_listed(ids: &Vec<u64>, id: u64) -> (r: bool)
    ensures
        r == ids@.contains(id),
{
    let mut i: usize = 0;
    while i < ids.len()
        invariant
            i <= ids.len(),
            forall|k: int| 0 <= k < i ==> ids@[k] != id,
        decreases ids.len() - i,
    {
        if ids[i] == id {
            return true;
        }
        i = i + 1;
    }
    false
}

impl Banner {
    /// Wraps a validated engine with its display metadata; the sparkable
    /// display list is exactly the boosted part of the engine's pool.
    pub fn new(name: String, translations: Vec<(Language, String)>, engine: RecruitmentEngine) -> (b:
        Banner)
        requires
            engine_wf(engine@),
        ensures
            b@.name == name@,
            b@.translations == names_view(translations@),
            b@.engine == engine@,
            b@.sparkable == boosted_of(engine@.pool, engine@.boosted),
            banner_wf(b@),
    {
        let ghost pv = engine@.pool;
        let mut sparkable: Vec<Character> = Vec::new();
        let mut i: usize = 0;
        proof {
            assert(pv.take(0) =~= Seq::<CharView>::empty());
        }
        while i < engine.pool.len()
            invariant
                i <= engine.pool.len(),
                pv == engine@.pool,
                views_of(sparkable@) == boosted_of(pv.take(i as int), engine.priority.boosted@),
            decreases engine.pool.len() - i,
        {
            proof {
                assert(pv.take(i + 1).drop_last() =~= pv.take(i as int));
                assert(pv.take(i + 1).last() == pv[i as int]);
            }
            if engine.priority.id_boosted(engine.pool[i].id) {
                let c = engine.pool[i].clone();
                sparkable.push(c);
            }
            proof {
                assert(views_of(sparkable@) =~= boosted_of(pv.take(i + 1), engine.priority.boosted@));
            }
            i = i + 1;
        }
        proof {
            assert(pv.take(engine.pool@.len() as int) =~= pv);
        }
        let b = Banner { name, translations, engine, sparkable };
        proof {
            assert(b@.sparkable =~= boosted_of(b@.engine.pool, b@.engine.boosted));
        }
        b
    }

    /// The banner's name in `lang`; `MissingTranslation` exactly when no
    /// translation for `lang` is listed, never a silent substitute.
    pub fn localized_name(&self, lang: Language) -> (r: Result<String, RecruitError>)
        ensures
            match r {
                Ok(s) => lookup_name(self@.translations, lang) == Some(s@),
                Err(e) => e == RecruitError::MissingTranslation && lookup_name(
                    self@.translations,
                    lang,
                ) is None,
            },
    {
        find_name(&self.translations, lang)
    }

    /// One draw from this banner's pool.
    pub fn draw(&self) -> (c: Character)
        requires
            banner_wf(self@),
        ensures
            in_pool(self@.engine, c@),
    {
        self.engine.sample_one()
    }

    /// A batch of ten independent draws, in draw order, with replacement:
    /// repeats are possible and nothing is excluded.
    pub fn draw_ten(&self) -> (cs: Vec<Character>)
        requires
            banner_wf(self@),
        ensures
            cs@.len() == 10,
            forall|k: int| 0 <= k < 10 ==> in_pool(self@.engine, #[trigger] cs@[k]@),
    {
        self.engine.sample_many(10)
    }

    /// The characters currently boosted, for display.
    pub fn boosted_characters(&self) -> (cs: &Vec<Character>)
        ensures
            views_of(cs@) == self@.sparkable,
    {
        &self.sparkable
    }
}

/// Builds the rate-up banner this library ships: the catalog minus the
/// excluded identities as the pool, tier weights of 79% / 18.5% / 2.5%, and
/// 70% of the boosted characters' tier mass reserved for them.  The errors
/// mirror the engine's construction errors on the filtered pool.
pub fn create_banner(
    catalog: &Vec<Character>,
    excluded: &Vec<u64>,
    sparkable_ids: Vec<u64>,
) -> (r: Result<Banner, RecruitError>)
    ensures
        match r {
            Ok(b) => {
                &&& b@.engine == (EngineView {
                    pool: filter_pool(views_of(catalog@), excluded@),
                    model: banner_weights(),
                    boosted: sparkable_ids@,
                    boost: 700000u32,
                })
                &&& b@.name == "ピックアップ募集"@
                &&& b@.translations == Seq::<(Language, Seq<char>)>::empty().push(
                    (Language::English, "Rate-Up Recruitment"@),
                )
                &&& b@.sparkable == boosted_of(b@.engine.pool, sparkable_ids@)
                &&& banner_wf(b@)
            },
            Err(err) => {
                &&& (err == RecruitError::InvalidBoost || err == RecruitError::EmptyTierPool)
                &&& (err == RecruitError::InvalidBoost <==> !boost_valid(
                    filter_pool(views_of(catalog@), excluded@),
                    sparkable_ids@,
                    700000u32,
                ))
                &&& (err == RecruitError::EmptyTierPool <==> boost_valid(
                    filter_pool(views_of(catalog@), excluded@),
                    sparkable_ids@,
                    700000u32,
                ) && !pool_valid(filter_pool(views_of(catalog@), excluded@), banner_weights()))
            },
        },
{
    let ghost cv = views_of(catalog@);
    let mut pool: Vec<Character> = Vec::new();
    let mut i: usize = 0;
    proof {
        assert(cv.take(0) =~= Seq::<CharView>::empty());
    }
    while i < catalog.len()
        invariant
            i <= catalog.len(),
            cv == views_of(catalog@),
            views_of(pool@) == filter_pool(cv.take(i as int), excluded@),
        decreases catalog.len() - i,
    {
        proof {
            assert(cv.take(i + 1).drop_last() =~= cv.take(i as int));
            assert(cv.take(i + 1).last() == cv[i as int]);
        }
        if !id_listed(excluded, catalog[i].id) {
            let c = catalog[i].clone();
            pool.push(c);
        }
        proof {
            assert(views_of(pool@) =~= filter_pool(cv.take(i + 1), excluded@));
        }
        i = i + 1;
    }
    proof {
        assert(cv.take(catalog.len() as int) =~= cv);
        assert(weights_valid(790000u32, 185000u32, 25000u32));
    }
    let engine = match RecruitmentEngine::new(pool, 790000, 185000, 25000, sparkable_ids, 700000) {
        Ok(e) => e,
        Err(err) => {
            return Err(err);
        },
    };
    let name: String = "ピックアップ募集".to_string();
    let mut translations: Vec<(Language, String)> = Vec::new();
    translations.push((Language::English, "Rate-Up Recruitment".to_string()));
    proof {
        assert(names_view(translations@) =~= Seq::<(Language, Seq<char>)>::empty().push(
            (Language::English, "Rate-Up Recruitment"@),
        ));
    }
    Ok(Banner::new(name, translations, engine))
}

} // verus!
