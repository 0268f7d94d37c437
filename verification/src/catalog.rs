//! The catalog: the cassettes of the site, each under its identifier.

use crate::blogger::Entry;
use crate::cassette::{cassette_of, classification, Cassette, CassetteView};
use crate::subcategory::{subcategory_views, Subcategory, SubcategoryView};
use std::collections::HashMap;
use vstd::prelude::*;

verus! {

/// The cassettes of the site. A cassette is kept under its own identifier,
/// so two cassettes with one identifier are one record: the later one.
pub struct Catalog {
    cassettes: HashMap<u128, Cassette>,
}

/// The cassette `cassette`, filed under those of `subcategories` that hold
/// it.
pub open spec fn filed(cassette: CassetteView, subcategories: Seq<SubcategoryView>) -> CassetteView {
    CassetteView {
        subcategories: classification(subcategories, cassette.labels, cassette.url),
        ..cassette
    }
}

/// The catalog that holds `cassettes`, put in one after the other.
pub open spec fn catalog_of(cassettes: Seq<CassetteView>) -> Map<u128, CassetteView>
    decreases cassettes.len(),
{
    if cassettes.len() == 0 {
        Map::empty()
    } else {
        catalog_of(cassettes.drop_last()).insert(cassettes.last().uuid, cassettes.last())
    }
}

/// The catalog after the posts `entries` of a page of the feed have been
/// read in order: each post that is a cassette is filed under
/// `subcategories` and put in; the other posts leave no trace.
pub open spec fn absorbed(
    catalog: Map<u128, CassetteView>,
    entries: Seq<Entry>,
    subcategories: Seq<SubcategoryView>,
) -> Map<u128, CassetteView>
    decreases entries.len(),
{
    if entries.len() == 0 {
        catalog
    } else {
        let before = absorbed(catalog, entries.drop_last(), subcategories);
        match cassette_of(entries.last()) {
            Some(cassette) => before.insert(cassette.uuid, filed(cassette, subcategories)),
            None => before,
        }
    }
}

/// The views of a list of cassettes, in order.
pub open spec fn cassette_views(cassettes: Seq<Cassette>) -> Seq<CassetteView> {
    cassettes.map_values(|c: Cassette| c@)
}

/// The views of the cassettes of a map, each under its key.
pub open spec fn views_of(cassettes: Map<u128, Cassette>) -> Map<u128, CassetteView> {
    cassettes.map_values(|c: Cassette| c@)
}

impl View for Catalog {
    type V = Map<u128, CassetteView>;

    closed spec fn view(&self) -> Map<u128, CassetteView> {
        views_of(self.cassettes@)
    }
}

impl Catalog {
    #[verifier::type_invariant]
    spec fn keyed_by_identifier(self) -> bool {
        forall|id: u128| #[trigger]
            self.cassettes@.contains_key(id) ==> self.cassettes@[id].uuid == id
    }

    /// A catalog without cassettes.
    pub fn new() -> (catalog: Catalog)
        ensures
            catalog@ == Map::<u128, CassetteView>::empty(),
    {
        let catalog = Catalog { cassettes: HashMap::new() };
        assert(catalog@ =~= Map::<u128, CassetteView>::empty());
        catalog
    }

    /// Puts `cassette` in under its identifier, in place of the cassette that
    /// stood there, if any.
    pub fn insert(&mut self, cassette: Cassette)
        ensures
            final(self)@ == old(self)@.insert(cassette.uuid, cassette@),
    {
        let mut taken = Catalog::new();
        std::mem::swap(self, &mut taken);
        proof {
            use_type_invariant(&taken);
        }
        let mut cassettes = taken.cassettes;
        let ghost before = cassettes@;
        cassettes.insert(cassette.uuid, cassette);
        assert(views_of(cassettes@) =~= views_of(before).insert(cassette.uuid, cassette@));
        *self = Catalog { cassettes };
    }

    /// The cassette with the identifier `id`, if the catalog has one.
    pub fn get(&self, id: u128) -> (found: Option<&Cassette>)
        ensures
            match found {
                Some(cassette) => self@.contains_key(id) && self@[id] == cassette@ && cassette.uuid
                    == id,
                None => !self@.contains_key(id),
            },
    {
        proof {
            use_type_invariant(self);
        }
        self.cassettes.get(&id)
    }

    /// Tells whether the catalog has a cassette with the identifier `id`.
    pub fn contains(&self, id: u128) -> (found: bool)
        ensures
            found == self@.contains_key(id),
    {
        self.cassettes.contains_key(&id)
    }

    /// The number of cassettes.
    pub fn len(&self) -> (count: usize)
        ensures
            count == self@.len(),
    {
        assert(self@.dom() =~= self.cassettes@.dom());
        self.cassettes.len()
    }

    /// Tells whether the catalog has no cassette.
    pub fn is_empty(&self) -> (empty: bool)
        ensures
            empty == (self@.len() == 0),
            empty == (self@ == Map::<u128, CassetteView>::empty()),
    {
        proof {
            assert(self@.dom() =~= self.cassettes@.dom());
            if self@.len() == 0 {
                assert(self@ =~= Map::<u128, CassetteView>::empty());
            }
        }
        self.cassettes.len() == 0
    }

    /// The cassettes as a map, for a caller that walks them.
    pub fn as_map(&self) -> (map: &HashMap<u128, Cassette>)
        ensures
            views_of(map@) == self@,
            forall|id: u128| #[trigger] map@.contains_key(id) ==> map@[id].uuid == id,
    {
        proof {
            use_type_invariant(self);
        }
        &self.cassettes
    }

    /// The catalog that holds `cassettes`, put in one after the other.
    pub fn from_cassettes(cassettes: Vec<Cassette>) -> (catalog: Catalog)
        ensures
            catalog@ == catalog_of(cassette_views(cassettes@)),
    {
        let mut catalog = Catalog::new();
        let ghost all = cassette_views(cassettes@);
        assert(all.take(0) =~= Seq::empty());
        for cassette in it: cassettes.into_iter()
            invariant
                it.seq() == cassettes@,
                all == cassette_views(cassettes@),
                catalog@ == catalog_of(all.take(it.index())),
        {
            proof {
                let now = all.take(it.index() + 1);
                assert(now.drop_last() =~= all.take(it.index()));
                assert(now.last() == cassette@);
            }
            catalog.insert(cassette);
        }
        assert(all.take(all.len() as int) =~= all);
        catalog
    }

    /// Reads the posts `entries` of a page of the feed in order: each post
    /// that is a cassette is filed under `subcategories` and put in.
    pub fn absorb(&mut self, entries: Vec<Entry>, subcategories: &Vec<Subcategory>)
        ensures
            final(self)@ == absorbed(old(self)@, entries@, subcategory_views(subcategories@)),
    {
        let ghost start = self@;
        let ghost filing = subcategory_views(subcategories@);
        assert(entries@.take(0) =~= Seq::empty());
        for entry in it: entries.into_iter()
            invariant
                it.seq() == entries@,
                filing == subcategory_views(subcategories@),
                self@ == absorbed(start, entries@.take(it.index()), filing),
        {
            proof {
                let now = entries@.take(it.index() + 1);
                assert(now.drop_last() =~= entries@.take(it.index()));
                assert(now.last() == entry);
            }
            match Cassette::try_from_entry(entry) {
                Some(mut cassette) => {
                    cassette.fill_subcategories(subcategories);
                    assert(cassette@ == filed(cassette_of(entry)->0, filing));
                    self.insert(cassette);
                },
                None => {},
            }
        }
        assert(entries@.take(entries@.len() as int) =~= entries@);
    }
}

/// Every cassette of `catalog` stands under its own identifier, has the
/// identifier that its address gives, and is filed under exactly those of
/// `subcategories` that hold it.
pub open spec fn sound(catalog: Map<u128, CassetteView>, subcategories: Seq<SubcategoryView>) -> bool {
    forall|id: u128| #[trigger]
        catalog.contains_key(id) ==> {
            &&& catalog[id].uuid == id
            &&& catalog[id].identified()
            &&& catalog[id].classified_by(subcategories)
        }
}

/// Reading a page keeps a catalog sound: what a crawl gathers, beginning
/// with no cassette, is sound after every page.
pub proof fn lemma_absorbed_sound(
    catalog: Map<u128, CassetteView>,
    entries: Seq<Entry>,
    subcategories: Seq<SubcategoryView>,
)
    requires
        sound(catalog, subcategories),
    ensures
        sound(absorbed(catalog, entries, subcategories), subcategories),
        sound(Map::empty(), subcategories),
    decreases entries.len(),
{
    if entries.len() > 0 {
        lemma_absorbed_sound(catalog, entries.drop_last(), subcategories);
    }
}

/// A post that is no cassette leaves no trace: the page goes on without it.
pub proof fn lemma_absorbed_skips(
    catalog: Map<u128, CassetteView>,
    entries: Seq<Entry>,
    entry: Entry,
    subcategories: Seq<SubcategoryView>,
)
    requires
        cassette_of(entry) is None,
    ensures
        absorbed(catalog, entries.push(entry), subcategories) == absorbed(
            catalog,
            entries,
            subcategories,
        ),
{
    assert(entries.push(entry).drop_last() =~= entries);
}

/// A post that is a cassette stands in the catalog after its page, under its
/// identifier, unless a later post of the page has the same identifier.
pub proof fn lemma_absorbed_holds(
    catalog: Map<u128, CassetteView>,
    entries: Seq<Entry>,
    at: int,
    subcategories: Seq<SubcategoryView>,
)
    requires
        0 <= at < entries.len(),
        cassette_of(entries[at]) is Some,
        forall|j: int|
            at < j < entries.len() && cassette_of(#[trigger] entries[j]) is Some ==> cassette_of(
                entries[j],
            )->0.uuid != cassette_of(entries[at])->0.uuid,
    ensures
        absorbed(catalog, entries, subcategories).contains_key(cassette_of(entries[at])->0.uuid),
        absorbed(catalog, entries, subcategories)[cassette_of(entries[at])->0.uuid] == filed(
            cassette_of(entries[at])->0,
            subcategories,
        ),
    decreases entries.len(),
{
    if at < entries.len() - 1 {
        let front = entries.drop_last();
        assert(front[at] == entries[at]);
        assert forall|j: int|
            at < j < front.len() && cassette_of(#[trigger] front[j]) is Some implies cassette_of(
            front[j],
        )->0.uuid != cassette_of(front[at])->0.uuid by {
            assert(front[j] == entries[j]);
        }
        lemma_absorbed_holds(catalog, front, at, subcategories);
        assert(entries.last() == entries[entries.len() - 1]);
    }
}

/// Two cassettes with one address are one record, the later one: their
/// identifiers are the same, so the second takes the place of the first.
pub proof fn lemma_same_address_one_record(
    catalog: Map<u128, CassetteView>,
    first: CassetteView,
    second: CassetteView,
)
    requires
        first.identified(),
        second.identified(),
        first.url == second.url,
    ensures
        first.uuid == second.uuid,
        catalog.insert(first.uuid, first).insert(second.uuid, second) == catalog.insert(
            second.uuid,
            second,
        ),
{
    assert(catalog.insert(first.uuid, first).insert(second.uuid, second) =~= catalog.insert(
        second.uuid,
        second,
    ));
}

} // verus!
