//! Game content model: localized names, hull classes, ship modules,
//! technologies with their prerequisites, species, and id lookups.

use vstd::prelude::*;
use crate::text::same_text;

verus! {

/// Sentinel tech index meaning "no technology required".
pub const NO_TECH_REQUIREMENT: i32 = -1i32;

/// Language of the user interface.
#[derive(Clone, Copy, Debug, PartialEq, Eq, Structural)]
pub enum Language {
    En,
    Ru,
}

impl Default for Language {
    fn default() -> (l: Self)
        ensures
            l == Language::En,
    {
        Language::En
    }
}

/// A text in every supported language.
#[derive(Clone, Debug, PartialEq, Eq)]
pub struct LocalizedText {
    pub en: String,
    pub ru: String,
}

impl LocalizedText {
    /// The text in `language`.
    pub open spec fn text_in(&self, language: Language) -> Seq<char> {
        match language {
            Language::En => self.en@,
            Language::Ru => self.ru@,
        }
    }

    /// The text in `language`.
    pub fn get(&self, language: Language) -> (r: &str)
        ensures
            r@ == self.text_in(language),
    {
        match language {
            Language::En => self.en.as_str(),
            Language::Ru => self.ru.as_str(),
        }
    }
}

/// Content items that are found by their identifier.
pub trait HasId {
    /// The identifier's characters.
    spec fn spec_id(&self) -> Seq<char>;

    /// The identifier.
    fn id(&self) -> (r: &str)
        ensures
            r@ == self.spec_id(),
    ;
}

/// Class of ship hull.
#[derive(Clone, Debug, PartialEq, Eq)]
pub struct HullClass {
    pub id: String,
    pub name: LocalizedText,
    pub description: LocalizedText,
    pub size_index: i32,
    /// Number of module slots.
    pub max_items: i32,
}

impl HullClass {
    /// The hull's name in `language`.
    pub fn name(&self, language: Language) -> (r: &str)
        ensures
            r@ == self.name.text_in(language),
    {
        self.name.get(language)
    }

    /// The hull's description in `language`.
    pub fn description(&self, language: Language) -> (r: &str)
        ensures
            r@ == self.description.text_in(language),
    {
        self.description.get(language)
    }

    /// A field-by-field copy of the hull class.
    pub fn duplicate(&self) -> (r: Self)
        ensures
            r == *self,
    {
        HullClass {
            id: self.id.clone(),
            name: LocalizedText { en: self.name.en.clone(), ru: self.name.ru.clone() },
            description: LocalizedText {
                en: self.description.en.clone(),
                ru: self.description.ru.clone(),
            },
            size_index: self.size_index,
            max_items: self.max_items,
        }
    }
}

/// Engine module.
#[derive(Clone, Debug, PartialEq, Eq)]
pub struct Engine {
    pub id: String,
    pub power_use: i32,
}

/// Weapon module.
#[derive(Clone, Debug, PartialEq, Eq)]
pub struct Weapon {
    pub id: String,
    pub power_use: i32,
}

/// Shield module.
#[derive(Clone, Debug, PartialEq, Eq)]
pub struct Shield {
    pub id: String,
}

/// Scanner module.
#[derive(Clone, Debug, PartialEq, Eq)]
pub struct Scanner {
    pub id: String,
    pub range: i32,
}

/// Special-purpose module.
#[derive(Clone, Debug, PartialEq, Eq)]
pub struct SpecialModule {
    pub id: String,
    pub power_use: i32,
}

/// A technology that can be researched.
#[derive(Clone, Debug, PartialEq, Eq)]
pub struct Tech {
    pub id: String,
    pub research_cost: i32,
}

/// Research prerequisite: `from` must be completed before `to`.
#[derive(Clone, Debug, PartialEq, Eq)]
pub struct TechPrereq {
    pub from: String,
    pub to: String,
}

/// Definition of a kind of surface building.
#[derive(Clone, Debug, PartialEq, Eq)]
pub struct SurfaceBuilding {
    pub id: String,
    /// Whether the building extends the colony's power grid.
    pub counts_for_adjacency: bool,
}

/// A playable species.
#[derive(Clone, Debug, PartialEq, Eq)]
pub struct Species {
    pub id: String,
    pub name: LocalizedText,
    pub description: LocalizedText,
}

impl Species {
    /// The species' name in `language`.
    pub fn name(&self, language: Language) -> (r: &str)
        ensures
            r@ == self.name.text_in(language),
    {
        self.name.get(language)
    }

    /// The species' description in `language`.
    pub fn description(&self, language: Language) -> (r: &str)
        ensures
            r@ == self.description.text_in(language),
    {
        self.description.get(language)
    }
}

impl HasId for HullClass {
    open spec fn spec_id(&self) -> Seq<char> {
        self.id@
    }

    fn id(&self) -> (r: &str) {
        self.id.as_str()
    }
}

impl HasId for Engine {
    open spec fn spec_id(&self) -> Seq<char> {
        self.id@
    }

    fn id(&self) -> (r: &str) {
        self.id.as_str()
    }
}

impl HasId for Weapon {
    open spec fn spec_id(&self) -> Seq<char> {
        self.id@
    }

    fn id(&self) -> (r: &str) {
        self.id.as_str()
    }
}

impl HasId for Shield {
    open spec fn spec_id(&self) -> Seq<char> {
        self.id@
    }

    fn id(&self) -> (r: &str) {
        self.id.as_str()
    }
}

impl HasId for Scanner {
    open spec fn spec_id(&self) -> Seq<char> {
        self.id@
    }

    fn id(&self) -> (r: &str) {
        self.id.as_str()
    }
}

impl HasId for SpecialModule {
    open spec fn spec_id(&self) -> Seq<char> {
        self.id@
    }

    fn id(&self) -> (r: &str) {
        self.id.as_str()
    }
}

impl HasId for Tech {
    open spec fn spec_id(&self) -> Seq<char> {
        self.id@
    }

    fn id(&self) -> (r: &str) {
        self.id.as_str()
    }
}

impl HasId for SurfaceBuilding {
    open spec fn spec_id(&self) -> Seq<char> {
        self.id@
    }

    fn id(&self) -> (r: &str) {
        self.id.as_str()
    }
}

impl HasId for Species {
    open spec fn spec_id(&self) -> Seq<char> {
        self.id@
    }

    fn id(&self) -> (r: &str) {
        self.id.as_str()
    }
}

/// Some item of `items` has identifier `id`.
pub open spec fn has_id<T: HasId>(items: Seq<T>, id: Seq<char>) -> bool {
    exists|i: int| 0 <= i < items.len() && #[trigger] items[i].spec_id() == id
}

/// `i` is the first position of `items` whose identifier is `id`.
pub open spec fn is_first_with_id<T: HasId>(items: Seq<T>, id: Seq<char>, i: int) -> bool {
    &&& 0 <= i < items.len()
    &&& items[i].spec_id() == id
    &&& forall|k: int| 0 <= k < i ==> #[trigger] items[k].spec_id() != id
}

/// What a lookup of `id` in `items` gives: the first item with that identifier.
pub open spec fn lookup_result<T: HasId>(items: Seq<T>, id: Seq<char>, r: Option<&T>) -> bool {
    match r {
        Some(t) => exists|i: int| is_first_with_id(items, id, i) && *t == items[i],
        None => !has_id(items, id),
    }
}

/// Position of the first item of `items` with identifier `id`.
pub fn find_by_id<T: HasId>(items: &[T], id: &str) -> (r: Option<usize>)
    ensures
        r matches Some(i) ==> is_first_with_id(items@, id@, i as int),
        r is None ==> !has_id(items@, id@),
{
    let mut i: usize = 0;
    while i < items.len()
        invariant
            i <= items@.len(),
            forall|k: int| 0 <= k < i ==> #[trigger] items@[k].spec_id() != id@,
        decreases items@.len() - i,
    {
        if same_text(items[i].id(), id) {
            return Some(i);
        }
        i = i + 1;
    }
    None
}

/// The first item of `items` with identifier `id`.
pub fn lookup<'a, T: HasId>(items: &'a [T], id: &str) -> (r: Option<&'a T>)
    ensures
        lookup_result(items@, id@, r),
{
    match find_by_id(items, id) {
        Some(i) => Some(&items[i]),
        None => None,
    }
}

/// All loaded game content.
#[derive(Clone, Debug, PartialEq, Eq)]
pub struct GameData {
    pub hull_classes: Vec<HullClass>,
    pub engines: Vec<Engine>,
    pub weapons: Vec<Weapon>,
    pub shields: Vec<Shield>,
    pub scanners: Vec<Scanner>,
    pub special_modules: Vec<SpecialModule>,
    pub techs: Vec<Tech>,
    pub research_prereqs: Vec<TechPrereq>,
    pub species: Vec<Species>,
    pub surface_buildings: Vec<SurfaceBuilding>,
}

/// Identifiers of the prerequisites of tech `id`, in declaration order.
pub open spec fn prereqs_of(prereqs: Seq<TechPrereq>, id: Seq<char>) -> Seq<Seq<char>>
    decreases prereqs.len(),
{
    if prereqs.len() == 0 {
        Seq::empty()
    } else {
        let rest = prereqs_of(prereqs.drop_last(), id);
        if prereqs.last().to@ == id {
            rest.push(prereqs.last().from@)
        } else {
            rest
        }
    }
}

impl GameData {
    /// Game data with no content.
    pub fn empty() -> (d: Self)
        ensures
            d.hull_classes@.len() == 0,
            d.engines@.len() == 0,
            d.weapons@.len() == 0,
            d.shields@.len() == 0,
            d.scanners@.len() == 0,
            d.special_modules@.len() == 0,
            d.techs@.len() == 0,
            d.research_prereqs@.len() == 0,
            d.species@.len() == 0,
            d.surface_buildings@.len() == 0,
    {
        GameData {
            hull_classes: Vec::new(),
            engines: Vec::new(),
            weapons: Vec::new(),
            shields: Vec::new(),
            scanners: Vec::new(),
            special_modules: Vec::new(),
            techs: Vec::new(),
            research_prereqs: Vec::new(),
            species: Vec::new(),
            surface_buildings: Vec::new(),
        }
    }

    /// All hull classes, in declaration order.
    pub fn hull_classes(&self) -> (r: &[HullClass])
        ensures
            r@ == self.hull_classes@,
    {
        self.hull_classes.as_slice()
    }

    /// All engines, in declaration order.
    pub fn engines(&self) -> (r: &[Engine])
        ensures
            r@ == self.engines@,
    {
        self.engines.as_slice()
    }

    /// All technologies, in declaration order.
    pub fn techs(&self) -> (r: &[Tech])
        ensures
            r@ == self.techs@,
    {
        self.techs.as_slice()
    }

    /// All playable species, in declaration order.
    pub fn species(&self) -> (r: &[Species])
        ensures
            r@ == self.species@,
    {
        self.species.as_slice()
    }

    /// Identifiers of the technologies that tech `id` requires.
    pub fn tech_prereqs(&self, id: &str) -> (r: Vec<String>)
        ensures
            r@.map_values(|s: String| s@) == prereqs_of(self.research_prereqs@, id@),
    {
        let mut out: Vec<String> = Vec::new();
        let mut i: usize = 0;
        while i < self.research_prereqs.len()
            invariant
                i <= self.research_prereqs@.len(),
                out@.map_values(|s: String| s@) == prereqs_of(
                    self.research_prereqs@.subrange(0, i as int),
                    id@,
                ),
            decreases self.research_prereqs@.len() - i,
        {
            let p = &self.research_prereqs[i];
            proof {
                assert(self.research_prereqs@.subrange(0, i + 1).drop_last()
                    =~= self.research_prereqs@.subrange(0, i as int));
            }
            if same_text(p.to.as_str(), id) {
                out.push(p.from.clone());
                proof {
                    assert(out@.map_values(|s: String| s@) =~= prereqs_of(
                        self.research_prereqs@.subrange(0, i as int),
                        id@,
                    ).push(p.from@));
                }
            }
            i = i + 1;
        }
        proof {
            assert(self.research_prereqs@.subrange(0, i as int) =~= self.research_prereqs@);
        }
        out
    }
}

/// Looks up content items by identifier.
#[derive(Clone, Copy, Debug, PartialEq, Eq, Default)]
pub struct GameRegistry;

impl GameRegistry {
    /// The first hull class with identifier `id`.
    pub fn hull_class<'a>(&self, data: &'a GameData, id: &str) -> (r: Option<&'a HullClass>)
        ensures
            lookup_result(data.hull_classes@, id@, r),
    {
        lookup(data.hull_classes.as_slice(), id)
    }

    /// The first engine with identifier `id`.
    pub fn engine<'a>(&self, data: &'a GameData, id: &str) -> (r: Option<&'a Engine>)
        ensures
            lookup_result(data.engines@, id@, r),
    {
        lookup(data.engines.as_slice(), id)
    }

    /// The first weapon with identifier `id`.
    pub fn weapon<'a>(&self, data: &'a GameData, id: &str) -> (r: Option<&'a Weapon>)
        ensures
            lookup_result(data.weapons@, id@, r),
    {
        lookup(data.weapons.as_slice(), id)
    }

    /// The first shield with identifier `id`.
    pub fn shield<'a>(&self, data: &'a GameData, id: &str) -> (r: Option<&'a Shield>)
        ensures
            lookup_result(data.shields@, id@, r),
    {
        lookup(data.shields.as_slice(), id)
    }

    /// The first scanner with identifier `id`.
    pub fn scanner<'a>(&self, data: &'a GameData, id: &str) -> (r: Option<&'a Scanner>)
        ensures
            lookup_result(data.scanners@, id@, r),
    {
        lookup(data.scanners.as_slice(), id)
    }

    /// The first special module with identifier `id`.
    pub fn special_module<'a>(&self, data: &'a GameData, id: &str) -> (r: Option<
        &'a SpecialModule,
    >)
        ensures
            lookup_result(data.special_modules@, id@, r),
    {
        lookup(data.special_modules.as_slice(), id)
    }

    /// The first technology with identifier `id`.
    pub fn technology<'a>(&self, data: &'a GameData, id: &str) -> (r: Option<&'a Tech>)
        ensures
            lookup_result(data.techs@, id@, r),
    {
        lookup(data.techs.as_slice(), id)
    }

    /// The first surface-building definition with identifier `id`.
    pub fn surface_building<'a>(&self, data: &'a GameData, id: &str) -> (r: Option<&'a SurfaceBuilding>)
        ensures
            lookup_result(data.surface_buildings@, id@, r),
    {
        lookup(data.surface_buildings.as_slice(), id)
    }
}

} // verus!

verus! {

/// The first position with a given identifier is unique.
pub proof fn lemma_first_with_id_unique<T: HasId>(items: Seq<T>, id: Seq<char>, i: int)
    requires
        is_first_with_id(items, id, i),
    ensures
        forall|j: int| #[trigger] is_first_with_id(items, id, j) ==> j == i,
        has_id(items, id),
        (choose|j: int| is_first_with_id(items, id, j)) == i,
{
    assert forall|j: int| #[trigger] is_first_with_id(items, id, j) implies j == i by {
        if j < i {
            assert(items[j].spec_id() != id);
        } else if i < j {
            assert(items[i].spec_id() != id);
        }
    }
    assert(items[i].spec_id() == id);
}

/// A lookup finds something exactly when some item has the identifier.
pub proof fn lemma_lookup_some_iff<T: HasId>(items: Seq<T>, id: Seq<char>)
    ensures
        forall|r: Option<&T>| #[trigger] lookup_result(items, id, r) ==> (r is Some <==> has_id(items, id)),
{
    assert forall|r: Option<&T>| #[trigger] lookup_result(items, id, r) implies (r is Some <==> has_id(items, id)) by {
        if let Some(t) = r {
            let i = choose|i: int| is_first_with_id(items, id, i) && *t == items[i];
            assert(items[i].spec_id() == id);
        }
    }
}

} // verus!
