use crate::regex_match::{regex_compiles, regex_finds, CompiledRegex};
use crate::smooth_operator::{ClusterEntity, IterableEnum};
use vstd::prelude::*;

verus! {

/// Why a name pattern was refused.
#[derive(Clone, Copy, Debug, PartialEq, Eq, Structural)]
pub enum PatternError {
    /// `regex` does not accept the pattern.
    Invalid,
}

/// A name pattern: a regular expression together with its source text.
pub struct NamePattern {
    source: String,
    compiled: CompiledRegex,
}

impl NamePattern {
    /// The regex a pattern holds is the one compiled from its source text.
    #[verifier::type_invariant]
    spec fn compiled_from_source(self) -> bool {
        self.compiled@ == self.source@
    }
}

impl View for NamePattern {
    type V = Seq<char>;

    /// The source text of the pattern.
    closed spec fn view(&self) -> Seq<char> {
        self.source@
    }
}

impl NamePattern {
    /// Compiles `source`; fails exactly when `regex` refuses it.
    pub fn new(source: &str) -> (pattern: Result<NamePattern, PatternError>)
        ensures
            pattern is Ok == regex_compiles(source@),
            pattern matches Ok(p) ==> p@ == source@,
            pattern matches Err(e) ==> e == PatternError::Invalid,
    {
        match CompiledRegex::compile(source) {
            Some(compiled) => Ok(NamePattern { source: String::from_str(source), compiled }),
            None => Err(PatternError::Invalid),
        }
    }

    /// Whether the pattern matches somewhere in `name`.
    pub fn is_found_in(&self, name: &str) -> (found: bool)
        ensures
            found == regex_finds(self@, name@),
    {
        proof {
            use_type_invariant(self);
        }
        self.compiled.find_is_some(name)
    }
}

/// The names of the objects of each kind in one namespace, in the order the
/// cluster listed them.
pub struct NamespaceListing {
    pub persistent_volume_claims: Vec<String>,
    pub deployments: Vec<String>,
    pub services: Vec<String>,
    pub pods: Vec<String>,
}

impl NamespaceListing {
    pub open spec fn names_spec(&self, entity: ClusterEntity) -> Seq<String> {
        match entity {
            ClusterEntity::_PersistentVolumeClaim => self.persistent_volume_claims@,
            ClusterEntity::_Deployment => self.deployments@,
            ClusterEntity::_Service => self.services@,
            ClusterEntity::_Pod => self.pods@,
        }
    }

    /// The names listed for objects of kind `entity`.
    pub fn names_of(&self, entity: &ClusterEntity) -> (names: &Vec<String>)
        ensures
            names@ == self.names_spec(*entity),
    {
        match entity {
            ClusterEntity::_PersistentVolumeClaim => &self.persistent_volume_claims,
            ClusterEntity::_Deployment => &self.deployments,
            ClusterEntity::_Service => &self.services,
            ClusterEntity::_Pod => &self.pods,
        }
    }
}

/// The names found so far, grouped by kind: a map from each kind that has an
/// entry to the list of names found for it.
pub struct FoundEntities {
    persistent_volume_claims: Option<Vec<String>>,
    deployments: Option<Vec<String>>,
    services: Option<Vec<String>>,
    pods: Option<Vec<String>>,
}

/// The list under `entity`, or the empty list where `entity` has no entry.
pub open spec fn names_or_empty(
    found: Map<ClusterEntity, Seq<String>>,
    entity: ClusterEntity,
) -> Seq<String> {
    if found.contains_key(entity) {
        found[entity]
    } else {
        Seq::empty()
    }
}

/// `found` with `name` appended to the list under `entity`; a kind without
/// an entry gets a list of its own.
pub open spec fn with_name(
    found: Map<ClusterEntity, Seq<String>>,
    entity: ClusterEntity,
    name: String,
) -> Map<ClusterEntity, Seq<String>> {
    found.insert(entity, names_or_empty(found, entity).push(name))
}

/// `found` with `names` appended to the list under `entity`; nothing changes
/// when `names` is empty.
pub open spec fn with_names(
    found: Map<ClusterEntity, Seq<String>>,
    entity: ClusterEntity,
    names: Seq<String>,
) -> Map<ClusterEntity, Seq<String>> {
    if names.len() == 0 {
        found
    } else {
        found.insert(entity, names_or_empty(found, entity) + names)
    }
}

/// The map in which every kind has an empty list.
pub open spec fn all_kinds_empty() -> Map<ClusterEntity, Seq<String>> {
    Map::total(|entity: ClusterEntity| Seq::<String>::empty())
}

impl FoundEntities {
    spec fn slot(&self, entity: ClusterEntity) -> Option<Vec<String>> {
        match entity {
            ClusterEntity::_PersistentVolumeClaim => self.persistent_volume_claims,
            ClusterEntity::_Deployment => self.deployments,
            ClusterEntity::_Service => self.services,
            ClusterEntity::_Pod => self.pods,
        }
    }
}

impl View for FoundEntities {
    type V = Map<ClusterEntity, Seq<String>>;

    closed spec fn view(&self) -> Map<ClusterEntity, Seq<String>> {
        Map::new(
            |entity: ClusterEntity| self.slot(entity) is Some,
            |entity: ClusterEntity| self.slot(entity).unwrap()@,
        )
    }
}

/// Appends `name` to the list in `slot`, which is created where missing.
fn push_into(slot: &mut Option<Vec<String>>, name: String)
    ensures
        *final(slot) is Some,
        (*final(slot)).unwrap()@ == (match *old(slot) {
            Some(names) => names@,
            None => Seq::empty(),
        }).push(name),
{
    match slot {
        Some(names) => names.push(name),
        None => {
            let mut names = Vec::new();
            names.push(name);
            *slot = Some(names);
        },
    }
}

impl FoundEntities {
    /// A map with no entries.
    pub fn new() -> (found: FoundEntities)
        ensures
            found@ == Map::<ClusterEntity, Seq<String>>::empty(),
    {
        let found = FoundEntities {
            persistent_volume_claims: None,
            deployments: None,
            services: None,
            pods: None,
        };
        assert(found@ =~= Map::<ClusterEntity, Seq<String>>::empty());
        found
    }

    /// A map in which every kind has an empty list.
    pub fn with_all_entities() -> (found: FoundEntities)
        ensures
            found@ == all_kinds_empty(),
    {
        let found = FoundEntities {
            persistent_volume_claims: Some(Vec::new()),
            deployments: Some(Vec::new()),
            services: Some(Vec::new()),
            pods: Some(Vec::new()),
        };
        assert(found@ =~= all_kinds_empty());
        found
    }

    /// The list under `entity`, if it has an entry.
    pub fn get(&self, entity: &ClusterEntity) -> (names: Option<&Vec<String>>)
        ensures
            names is Some == self@.contains_key(*entity),
            names is Some ==> names.unwrap()@ == self@[*entity],
    {
        match entity {
            ClusterEntity::_PersistentVolumeClaim => self.persistent_volume_claims.as_ref(),
            ClusterEntity::_Deployment => self.deployments.as_ref(),
            ClusterEntity::_Service => self.services.as_ref(),
            ClusterEntity::_Pod => self.pods.as_ref(),
        }
    }

    /// Appends `name` to the list under `entity`, creating the entry where missing.
    pub fn push_name(&mut self, entity: &ClusterEntity, name: String)
        ensures
            final(self)@ == with_name(old(self)@, *entity, name),
    {
        match entity {
            ClusterEntity::_PersistentVolumeClaim => push_into(
                &mut self.persistent_volume_claims,
                name,
            ),
            ClusterEntity::_Deployment => push_into(&mut self.deployments, name),
            ClusterEntity::_Service => push_into(&mut self.services, name),
            ClusterEntity::_Pod => push_into(&mut self.pods, name),
        }
        assert(self@ =~= with_name(old(self)@, *entity, name));
    }
}

/// The names among `names` in which `pattern` finds a match, in their order.
pub open spec fn matching_names(pattern: Seq<char>, names: Seq<String>) -> Seq<String> {
    names.filter(|name: String| regex_finds(pattern, name@))
}

/// What searching one namespace makes of `found`: under each kind, the names
/// listed for that kind in which the pattern finds a match are appended, in
/// order; a kind without an entry gets one only where one of its names matched.
pub open spec fn found_in_namespace(
    pattern: Seq<char>,
    listing: NamespaceListing,
    found: Map<ClusterEntity, Seq<String>>,
) -> Map<ClusterEntity, Seq<String>> {
    Map::new(
        |entity: ClusterEntity|
            found.contains_key(entity) || matching_names(pattern, listing.names_spec(entity)).len()
                > 0,
        |entity: ClusterEntity|
            names_or_empty(found, entity) + matching_names(pattern, listing.names_spec(entity)),
    )
}

/// `found_in_namespace`, restricted to the kinds in `kinds`.
spec fn found_in_kinds(
    pattern: Seq<char>,
    listing: NamespaceListing,
    found: Map<ClusterEntity, Seq<String>>,
    kinds: Seq<ClusterEntity>,
) -> Map<ClusterEntity, Seq<String>> {
    Map::new(
        |entity: ClusterEntity|
            found.contains_key(entity) || (kinds.contains(entity) && matching_names(
                pattern,
                listing.names_spec(entity),
            ).len() > 0),
        |entity: ClusterEntity|
            names_or_empty(found, entity) + if kinds.contains(entity) {
                matching_names(pattern, listing.names_spec(entity))
            } else {
                Seq::empty()
            },
    )
}

/// What searching the namespaces of `listings`, in order, makes of `found`.
pub open spec fn found_in_namespaces(
    pattern: Seq<char>,
    listings: Seq<NamespaceListing>,
    found: Map<ClusterEntity, Seq<String>>,
) -> Map<ClusterEntity, Seq<String>>
    decreases listings.len(),
{
    if listings.len() == 0 {
        found
    } else {
        found_in_namespace(
            pattern,
            listings.last(),
            found_in_namespaces(pattern, listings.drop_last(), found),
        )
    }
}

/// Appends to the list under `entity` each of `names` in which `pattern`
/// finds a match.
fn add_matching_names(
    pattern: &NamePattern,
    entity: &ClusterEntity,
    names: &Vec<String>,
    found: &mut FoundEntities,
)
    ensures
        final(found)@ == with_names(old(found)@, *entity, matching_names(pattern@, names@)),
{
    let mut j: usize = 0;
    proof {
        reveal(Seq::filter);
        assert(names@.take(0) =~= Seq::<String>::empty());
        assert(found@ =~= with_names(old(found)@, *entity, matching_names(pattern@, names@.take(0))));
    }
    while j < names.len()
        invariant
            0 <= j <= names.len(),
            found@ == with_names(
                old(found)@,
                *entity,
                matching_names(pattern@, names@.take(j as int)),
            ),
        decreases names.len() - j,
    {
        let name = &names[j];
        let ghost before = matching_names(pattern@, names@.take(j as int));
        let matched = pattern.is_found_in(name.as_str());
        if matched {
            found.push_name(entity, name.clone());
        }
        proof {
            reveal(Seq::filter);
            let next = names@.take(j + 1);
            assert(next.drop_last() =~= names@.take(j as int));
            assert(next.last() == *name);
            if matched {
                assert(matching_names(pattern@, next) == before.push(*name));
                assert(found@ =~= with_names(old(found)@, *entity, before.push(*name)));
            } else {
                assert(matching_names(pattern@, next) == before);
            }
        }
        j += 1;
    }
    assert(names@.take(j as int) =~= names@);
}

/// Searches one namespace: under each kind, appends the names listed for it
/// in which `pattern` finds a match.
pub fn find_entity_by_name_like_namespaced(
    pattern: &NamePattern,
    listing: &NamespaceListing,
    map: &mut FoundEntities,
)
    ensures
        final(map)@ == found_in_namespace(pattern@, *listing, old(map)@),
{
    let entities = ClusterEntity::iterator();
    let mut k: usize = 0;
    assert(entities@.take(0) =~= Seq::<ClusterEntity>::empty());
    assert(map@ =~= found_in_kinds(pattern@, *listing, old(map)@, entities@.take(0)));
    while k < entities.len()
        invariant
            0 <= k <= entities.len(),
            entities@ == ClusterEntity::all_values(),
            map@ == found_in_kinds(pattern@, *listing, old(map)@, entities@.take(k as int)),
        decreases entities.len() - k,
    {
        let entity = entities[k];
        let ghost before = map@;
        add_matching_names(pattern, &entity, listing.names_of(&entity), map);
        proof {
            let done = entities@.take(k as int);
            let next = entities@.take(k + 1);
            assert(next =~= done.push(entity));
            assert(!done.contains(entity));
            assert forall|e: ClusterEntity| next.contains(e) == (done.contains(e) || e == entity) by {
                if e == entity {
                    assert(next[k as int] == e);
                }
                if done.contains(e) {
                    let i = choose|i: int| 0 <= i < done.len() && done[i] == e;
                    assert(next[i] == e);
                }
            }
            assert(map@ =~= found_in_kinds(pattern@, *listing, old(map)@, next));
        }
        k += 1;
    }
    proof {
        assert(entities@.take(k as int) =~= entities@);
        assert forall|e: ClusterEntity| entities@.contains(e) by {
            match e {
                ClusterEntity::_PersistentVolumeClaim => assert(entities@[0] == e),
                ClusterEntity::_Service => assert(entities@[1] == e),
                ClusterEntity::_Pod => assert(entities@[2] == e),
                ClusterEntity::_Deployment => assert(entities@[3] == e),
            }
        }
        assert(map@ =~= found_in_namespace(pattern@, *listing, old(map)@));
    }
}

/// Searches the namespaces of `listings` in order, starting from an empty
/// list under every kind.
pub fn find_entity_by_name_like(pattern: &NamePattern, listings: &Vec<NamespaceListing>) -> (found:
    FoundEntities)
    ensures
        found@ == found_in_namespaces(pattern@, listings@, all_kinds_empty()),
{
    let mut map = FoundEntities::with_all_entities();
    let mut i: usize = 0;
    assert(listings@.take(0) =~= Seq::<NamespaceListing>::empty());
    while i < listings.len()
        invariant
            0 <= i <= listings.len(),
            map@ == found_in_namespaces(pattern@, listings@.take(i as int), all_kinds_empty()),
        decreases listings.len() - i,
    {
        find_entity_by_name_like_namespaced(pattern, &listings[i], &mut map);
        proof {
            let next = listings@.take(i + 1);
            assert(next.drop_last() =~= listings@.take(i as int));
            assert(next.last() == listings@[i as int]);
        }
        i += 1;
    }
    assert(listings@.take(i as int) =~= listings@);
    map
}

/// The names of kind `entity` in which `pattern` finds a match, namespace by
/// namespace in the order of `listings`.
pub open spec fn matches_across(
    pattern: Seq<char>,
    listings: Seq<NamespaceListing>,
    entity: ClusterEntity,
) -> Seq<String>
    decreases listings.len(),
{
    if listings.len() == 0 {
        Seq::empty()
    } else {
        matches_across(pattern, listings.drop_last(), entity) + matching_names(
            pattern,
            listings.last().names_spec(entity),
        )
    }
}

/// A search of the whole cluster gives every kind an entry, and the entry of
/// a kind holds exactly the names of that kind in which the pattern finds a
/// match, namespace by namespace and, within one, in listing order.
pub proof fn lemma_search_collects_matches(pattern: Seq<char>, listings: Seq<NamespaceListing>)
    ensures
        forall|entity: ClusterEntity|
            #![trigger found_in_namespaces(pattern, listings, all_kinds_empty())[entity]]
            found_in_namespaces(pattern, listings, all_kinds_empty()).contains_key(entity)
                && found_in_namespaces(pattern, listings, all_kinds_empty())[entity]
                == matches_across(pattern, listings, entity),
    decreases listings.len(),
{
    let found = found_in_namespaces(pattern, listings, all_kinds_empty());
    if listings.len() > 0 {
        lemma_search_collects_matches(pattern, listings.drop_last());
        let before = found_in_namespaces(pattern, listings.drop_last(), all_kinds_empty());
        assert forall|entity: ClusterEntity| #[trigger]
            found.contains_key(entity) && found[entity] == matches_across(
                pattern,
                listings,
                entity,
            ) by {
            assert(before[entity] == matches_across(pattern, listings.drop_last(), entity));
            assert(before.contains_key(entity));
            assert(names_or_empty(before, entity) == before[entity]);
        }
    } else {
        assert forall|entity: ClusterEntity| #[trigger]
            found.contains_key(entity) && found[entity] == matches_across(
                pattern,
                listings,
                entity,
            ) by {
            assert(all_kinds_empty().dom().contains(entity));
        }
    }
}

/// Every name a search of the cluster reports under a kind was listed under
/// that kind in one of the namespaces, and the pattern finds a match in it.
pub proof fn lemma_found_names_match(
    pattern: Seq<char>,
    listings: Seq<NamespaceListing>,
    entity: ClusterEntity,
    name: String,
)
    requires
        found_in_namespaces(pattern, listings, all_kinds_empty())[entity].contains(name),
    ensures
        regex_finds(pattern, name@),
        exists|k: int| 0 <= k < listings.len() && (#[trigger] listings[k]).names_spec(entity).contains(name),
{
    lemma_search_collects_matches(pattern, listings);
    lemma_matches_across_sound(pattern, listings, entity, name);
}

proof fn lemma_matches_across_sound(
    pattern: Seq<char>,
    listings: Seq<NamespaceListing>,
    entity: ClusterEntity,
    name: String,
)
    requires
        matches_across(pattern, listings, entity).contains(name),
    ensures
        regex_finds(pattern, name@),
        exists|k: int| 0 <= k < listings.len() && (#[trigger] listings[k]).names_spec(entity).contains(name),
    decreases listings.len(),
{
    broadcast use vstd::seq_lib::group_filter_ensures;

    let before = matches_across(pattern, listings.drop_last(), entity);
    let here = matching_names(pattern, listings.last().names_spec(entity));
    let i = choose|i: int| 0 <= i < before.len() + here.len() && (before + here)[i] == name;
    if i < before.len() {
        assert(before[i] == name);
        lemma_matches_across_sound(pattern, listings.drop_last(), entity, name);
        let k = choose|k: int|
            0 <= k < listings.drop_last().len() && (#[trigger] listings.drop_last()[k]).names_spec(
                entity,
            ).contains(name);
        assert(listings[k] == listings.drop_last()[k]);
    } else {
        assert(here[i - before.len()] == name);
        assert(here.contains(name));
        listings.last().names_spec(entity).lemma_filter_contains_rev(
            |n: String| regex_finds(pattern, n@),
            name,
        );
        assert(listings[listings.len() - 1] == listings.last());
    }
}

/// Every name listed under a kind in one of the namespaces in which the
/// pattern finds a match is reported under that kind by a search of the cluster.
pub proof fn lemma_matching_names_are_found(
    pattern: Seq<char>,
    listings: Seq<NamespaceListing>,
    entity: ClusterEntity,
    k: int,
    name: String,
)
    requires
        0 <= k < listings.len(),
        listings[k].names_spec(entity).contains(name),
        regex_finds(pattern, name@),
    ensures
        found_in_namespaces(pattern, listings, all_kinds_empty())[entity].contains(name),
{
    lemma_search_collects_matches(pattern, listings);
    lemma_matches_across_complete(pattern, listings, entity, k, name);
}

proof fn lemma_matches_across_complete(
    pattern: Seq<char>,
    listings: Seq<NamespaceListing>,
    entity: ClusterEntity,
    k: int,
    name: String,
)
    requires
        0 <= k < listings.len(),
        listings[k].names_spec(entity).contains(name),
        regex_finds(pattern, name@),
    ensures
        matches_across(pattern, listings, entity).contains(name),
    decreases listings.len(),
{
    broadcast use vstd::seq_lib::group_filter_ensures;

    let before = matches_across(pattern, listings.drop_last(), entity);
    let here = matching_names(pattern, listings.last().names_spec(entity));
    if k < listings.len() - 1 {
        assert(listings.drop_last()[k] == listings[k]);
        lemma_matches_across_complete(pattern, listings.drop_last(), entity, k, name);
        let i = choose|i: int| 0 <= i < before.len() && before[i] == name;
        assert((before + here)[i] == name);
    } else {
        let names = listings.last().names_spec(entity);
        let i = choose|i: int| 0 <= i < names.len() && names[i] == name;
        assert(here.contains(names[i]));
        let j = choose|j: int| 0 <= j < here.len() && here[j] == name;
        assert((before + here)[before.len() + j] == name);
    }
}

/// Appending a name and then looking the kind up gives the list before with
/// the name at its end; the other kinds keep their entries.
pub proof fn lemma_push_then_get(
    found: Map<ClusterEntity, Seq<String>>,
    entity: ClusterEntity,
    name: String,
)
    ensures
        with_name(found, entity, name).contains_key(entity),
        with_name(found, entity, name)[entity] == names_or_empty(found, entity).push(name),
        forall|other: ClusterEntity|
            other != entity ==> (#[trigger] with_name(found, entity, name).contains_key(other)
                == found.contains_key(other)) && (found.contains_key(other) ==> with_name(
                found,
                entity,
                name,
            )[other] == found[other]),
{
}

} // verus!
