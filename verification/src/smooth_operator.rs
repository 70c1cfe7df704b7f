use crate::arg_matches::ArgumentMatches;
use vstd::prelude::*;

verus! {

/// The parameters that one command line asks for.
pub struct ParsedParameters {
    pub namespace: Option<String>,
    pub operation_call: Option<OperationCall>,
    pub entity_call: Option<ClusterEntity>,
    pub argument_call: Option<ArgumentCall>,
}

/// Operations that act on the objects a search found.
#[derive(Clone, Copy, Debug, PartialEq, Eq, Structural)]
pub enum DefaultClusterOperations {
    Delete,
}

/// Arguments that say where in the cluster to act.
#[derive(Clone, Copy, Debug)]
pub enum EnvironmentSpecifiers {
    Namespace,
}

/// The kinds of cluster objects the tool can find and delete.
#[derive(Clone, Copy, Debug, PartialEq, Eq, Hash, Structural)]
pub enum ClusterEntity {
    _PersistentVolumeClaim,
    _Deployment,
    _Service,
    _Pod,
}

/// Operations that take a value, such as a name pattern.
#[derive(Clone, Copy, Debug, PartialEq, Eq, Hash, Structural)]
pub enum Operation {
    FindNameLike,
}

/// A requested operation with the value it was given.
#[derive(Debug, PartialEq, Eq, Hash)]
pub struct OperationCall {
    pub operation: Operation,
    pub value: Option<String>,
    pub trailing: Option<Box<OperationCall>>,
}

/// A requested default operation.
pub struct ArgumentCall {
    pub initial: DefaultClusterOperations,
    pub trailing: Option<Box<ArgumentCall>>,
}

impl Clone for OperationCall {
    fn clone(&self) -> (copy: Self)
        ensures
            copy == *self,
        decreases self,
    {
        let value = match &self.value {
            Some(v) => Some(v.clone()),
            None => None,
        };
        let trailing = match &self.trailing {
            Some(next) => Some(Box::new((**next).clone())),
            None => None,
        };
        OperationCall { operation: self.operation, value, trailing }
    }
}

impl Clone for ParsedParameters {
    fn clone(&self) -> (copy: Self)
        ensures
            copy == *self,
    {
        ParsedParameters {
            namespace: match &self.namespace {
                Some(n) => Some(n.clone()),
                None => None,
            },
            operation_call: match &self.operation_call {
                Some(call) => Some(call.clone()),
                None => None,
            },
            entity_call: self.entity_call,
            argument_call: match &self.argument_call {
                Some(call) => Some(call.clone()),
                None => None,
            },
        }
    }
}

impl Clone for ArgumentCall {
    fn clone(&self) -> (copy: Self)
        ensures
            copy == *self,
        decreases self,
    {
        let trailing = match &self.trailing {
            Some(next) => Some(Box::new((**next).clone())),
            None => None,
        };
        ArgumentCall { initial: self.initial, trailing }
    }
}

/// An argument that is given on the command line by a name of its own.
pub trait NamedArgument {
    /// The name under which the argument is given.
    spec fn name_view(&self) -> Seq<char>;

    fn name(&self) -> (name: &'static str)
        ensures
            name@ == self.name_view(),
    ;
}

/// An argument that comes with a help text.
pub trait DescriptionArgument {
    /// The help text of the argument.
    spec fn description_view(&self) -> Seq<char>;

    fn description(&self) -> (description: &'static str)
        ensures
            description@ == self.description_view(),
    ;
}

/// Finds what the command line asks for among the values of a type.
pub trait MatchParser<T>: Sized {
    /// The command lines on which the search is defined.
    spec fn match_allowed(arg_matches: &ArgumentMatches) -> bool;

    /// What the search finds.
    spec fn matched(arg_matches: &ArgumentMatches) -> Option<T>;

    fn find_operation_match(arg_matches: &ArgumentMatches) -> (found: Option<T>)
        requires
            Self::match_allowed(arg_matches),
        ensures
            found == Self::matched(arg_matches),
    ;
}

/// An enumeration whose values can be listed, in priority order.
pub trait IterableEnum: Sized {
    /// Every value of the type, each once, in priority order.
    spec fn all_values() -> Seq<Self>;

    fn iterator() -> (values: Vec<Self>)
        ensures
            values@ == Self::all_values(),
    ;
}

impl DescriptionArgument for Operation {
    open spec fn description_view(&self) -> Seq<char> {
        match self {
            Operation::FindNameLike => "Find matches for name like provided regexp from all-across the cluster"@,
        }
    }

    fn description(&self) -> (description: &'static str) {
        match self {
            Operation::FindNameLike => "Find matches for name like provided regexp from all-across the cluster",
        }
    }
}

impl NamedArgument for Operation {
    open spec fn name_view(&self) -> Seq<char> {
        match self {
            Operation::FindNameLike => "fanl"@,
        }
    }

    fn name(&self) -> (name: &'static str) {
        match self {
            Operation::FindNameLike => "fanl",
        }
    }
}

impl NamedArgument for DefaultClusterOperations {
    open spec fn name_view(&self) -> Seq<char> {
        match self {
            DefaultClusterOperations::Delete => "delete"@,
        }
    }

    fn name(&self) -> (name: &'static str) {
        match self {
            DefaultClusterOperations::Delete => "delete",
        }
    }
}

impl NamedArgument for EnvironmentSpecifiers {
    open spec fn name_view(&self) -> Seq<char> {
        match self {
            EnvironmentSpecifiers::Namespace => "namespace"@,
        }
    }

    fn name(&self) -> (name: &'static str) {
        match self {
            EnvironmentSpecifiers::Namespace => "namespace",
        }
    }
}

impl NamedArgument for ClusterEntity {
    open spec fn name_view(&self) -> Seq<char> {
        match self {
            ClusterEntity::_PersistentVolumeClaim => "pvc"@,
            ClusterEntity::_Service => "svc"@,
            ClusterEntity::_Pod => "pod"@,
            ClusterEntity::_Deployment => "dpl"@,
        }
    }

    fn name(&self) -> (name: &'static str) {
        match self {
            ClusterEntity::_PersistentVolumeClaim => "pvc",
            ClusterEntity::_Service => "svc",
            ClusterEntity::_Pod => "pod",
            ClusterEntity::_Deployment => "dpl",
        }
    }
}

impl IterableEnum for DefaultClusterOperations {
    open spec fn all_values() -> Seq<Self> {
        seq![DefaultClusterOperations::Delete]
    }

    fn iterator() -> (values: Vec<Self>) {
        let values = vec![DefaultClusterOperations::Delete];
        assert(values@ =~= Self::all_values());
        values
    }
}

impl IterableEnum for ClusterEntity {
    open spec fn all_values() -> Seq<Self> {
        seq![
            ClusterEntity::_PersistentVolumeClaim,
            ClusterEntity::_Service,
            ClusterEntity::_Pod,
            ClusterEntity::_Deployment,
        ]
    }

    fn iterator() -> (values: Vec<Self>) {
        let values = vec![
            ClusterEntity::_PersistentVolumeClaim,
            ClusterEntity::_Service,
            ClusterEntity::_Pod,
            ClusterEntity::_Deployment,
        ];
        assert(values@ =~= Self::all_values());
        values
    }
}

impl IterableEnum for Operation {
    open spec fn all_values() -> Seq<Self> {
        seq![Operation::FindNameLike]
    }

    fn iterator() -> (values: Vec<Self>) {
        let values = vec![Operation::FindNameLike];
        assert(values@ =~= Self::all_values());
        values
    }
}

/// The first of `candidates` whose flag was given at least once.
pub open spec fn first_flagged<T: NamedArgument>(
    arg_matches: &ArgumentMatches,
    candidates: Seq<T>,
) -> Option<T>
    decreases candidates.len(),
{
    if candidates.len() == 0 {
        None
    } else if arg_matches.count_of(candidates[0].name_view()) > 0 {
        Some(candidates[0])
    } else {
        first_flagged(arg_matches, candidates.drop_first())
    }
}

/// The first of `candidates` that was given a value, with that value.
pub open spec fn first_valued<T: NamedArgument>(
    arg_matches: &ArgumentMatches,
    candidates: Seq<T>,
) -> Option<(T, String)>
    decreases candidates.len(),
{
    if candidates.len() == 0 {
        None
    } else {
        match arg_matches.value_of(candidates[0].name_view()) {
            Some(value) => Some((candidates[0], value)),
            None => first_valued(arg_matches, candidates.drop_first()),
        }
    }
}

/// Searches `candidates` in order for the first one whose flag was given.
fn find_first_flagged<T: NamedArgument + Copy>(
    arg_matches: &ArgumentMatches,
    candidates: &Vec<T>,
) -> (found: Option<T>)
    ensures
        found == first_flagged(arg_matches, candidates@),
{
    let mut i: usize = 0;
    assert(candidates@.skip(0) =~= candidates@);
    while i < candidates.len()
        invariant
            0 <= i <= candidates.len(),
            first_flagged(arg_matches, candidates@) == first_flagged(
                arg_matches,
                candidates@.skip(i as int),
            ),
        decreases candidates.len() - i,
    {
        let candidate = candidates[i];
        if arg_matches.get_count(candidate.name()) > 0 {
            return Some(candidate);
        }
        assert(candidates@.skip(i as int).drop_first() =~= candidates@.skip(i + 1));
        i += 1;
    }
    assert(candidates@.skip(i as int).len() == 0);
    None
}

/// Searches `candidates` in order for the first one that was given a value.
fn find_first_valued<T: NamedArgument + Copy>(
    arg_matches: &ArgumentMatches,
    candidates: &Vec<T>,
) -> (found: Option<(T, String)>)
    ensures
        found == first_valued(arg_matches, candidates@),
{
    let mut i: usize = 0;
    assert(candidates@.skip(0) =~= candidates@);
    while i < candidates.len()
        invariant
            0 <= i <= candidates.len(),
            first_valued(arg_matches, candidates@) == first_valued(
                arg_matches,
                candidates@.skip(i as int),
            ),
        decreases candidates.len() - i,
    {
        let candidate = candidates[i];
        if let Some(specified) = arg_matches.get_one(candidate.name()) {
            return Some((candidate, specified.clone()));
        }
        assert(candidates@.skip(i as int).drop_first() =~= candidates@.skip(i + 1));
        i += 1;
    }
    assert(candidates@.skip(i as int).len() == 0);
    None
}

impl MatchParser<ClusterEntity> for ClusterEntity {
    open spec fn match_allowed(arg_matches: &ArgumentMatches) -> bool {
        true
    }

    /// The first entity, in priority order, whose flag was given.
    open spec fn matched(arg_matches: &ArgumentMatches) -> Option<ClusterEntity> {
        first_flagged(arg_matches, Self::all_values())
    }

    fn find_operation_match(arg_matches: &ArgumentMatches) -> (found: Option<ClusterEntity>) {
        let entities = ClusterEntity::iterator();
        find_first_flagged(arg_matches, &entities)
    }
}

impl MatchParser<ArgumentCall> for DefaultClusterOperations {
    /// The search panics on a command line that names no argument at all.
    open spec fn match_allowed(arg_matches: &ArgumentMatches) -> bool {
        arg_matches.explicit
    }

    /// The first operation, in priority order, whose flag was given, as a
    /// call with nothing after it.
    open spec fn matched(arg_matches: &ArgumentMatches) -> Option<ArgumentCall> {
        match first_flagged(arg_matches, Self::all_values()) {
            Some(op) => Some(ArgumentCall { initial: op, trailing: None }),
            None => None,
        }
    }

    fn find_operation_match(arg_matches: &ArgumentMatches) -> (found: Option<ArgumentCall>) {
        let operations = DefaultClusterOperations::iterator();
        match find_first_flagged(arg_matches, &operations) {
            Some(op) => Some(ArgumentCall { initial: op, trailing: None }),
            None => None,
        }
    }
}

impl MatchParser<OperationCall> for Operation {
    open spec fn match_allowed(arg_matches: &ArgumentMatches) -> bool {
        true
    }

    /// The first operation, in priority order, that was given a value, as a
    /// call with that value and nothing after it.
    open spec fn matched(arg_matches: &ArgumentMatches) -> Option<OperationCall> {
        match first_valued(arg_matches, Self::all_values()) {
            Some((op, value)) => Some(
                OperationCall { operation: op, value: Some(value), trailing: None },
            ),
            None => None,
        }
    }

    fn find_operation_match(arg_matches: &ArgumentMatches) -> (found: Option<OperationCall>) {
        let operations = Operation::iterator();
        match find_first_valued(arg_matches, &operations) {
            Some((op, value)) => Some(
                OperationCall { operation: op, value: Some(value), trailing: None },
            ),
            None => None,
        }
    }
}

/// No two kinds of cluster objects share a flag name, so a flag selects one kind.
pub proof fn lemma_entity_names_distinct(a: ClusterEntity, b: ClusterEntity)
    ensures
        a.name_view() == b.name_view() ==> a == b,
{
    reveal_strlit("pvc");
    reveal_strlit("svc");
    reveal_strlit("pod");
    reveal_strlit("dpl");
    if a != b {
        assert(a.name_view()[0] != b.name_view()[0] || a.name_view()[1] != b.name_view()[1]
            || a.name_view()[2] != b.name_view()[2]);
    }
}

/// The kinds of cluster objects are listed each exactly once.
pub proof fn lemma_entities_listed_once(entity: ClusterEntity)
    ensures
        ClusterEntity::all_values().contains(entity),
        ClusterEntity::all_values().no_duplicates(),
{
    let all = ClusterEntity::all_values();
    match entity {
        ClusterEntity::_PersistentVolumeClaim => assert(all[0] == entity),
        ClusterEntity::_Service => assert(all[1] == entity),
        ClusterEntity::_Pod => assert(all[2] == entity),
        ClusterEntity::_Deployment => assert(all[3] == entity),
    }
}

/// The search of a command line finds the first candidate, in priority order,
/// whose flag was given; when it finds none, no candidate's flag was given.
pub proof fn lemma_first_flagged_is_first_given<T: NamedArgument>(
    arg_matches: &ArgumentMatches,
    candidates: Seq<T>,
)
    ensures
        first_flagged(arg_matches, candidates) matches Some(found) ==> exists|i: int|
            0 <= i < candidates.len() && candidates[i] == found && arg_matches.count_of(
                found.name_view(),
            ) > 0 && forall|j: int|
                0 <= j < i ==> arg_matches.count_of(#[trigger] candidates[j].name_view()) == 0,
        first_flagged(arg_matches, candidates) is None ==> forall|j: int|
            0 <= j < candidates.len() ==> arg_matches.count_of(
                #[trigger] candidates[j].name_view(),
            ) == 0,
    decreases candidates.len(),
{
    if candidates.len() > 0 {
        let rest = candidates.drop_first();
        lemma_first_flagged_is_first_given(arg_matches, rest);
        if arg_matches.count_of(candidates[0].name_view()) > 0 {
            assert(candidates[0] == first_flagged(arg_matches, candidates).unwrap());
        } else {
            if first_flagged(arg_matches, rest) is Some {
                let found = first_flagged(arg_matches, rest).unwrap();
                let i = choose|i: int|
                    0 <= i < rest.len() && rest[i] == found && arg_matches.count_of(
                        found.name_view(),
                    ) > 0 && forall|j: int|
                        0 <= j < i ==> arg_matches.count_of(#[trigger] rest[j].name_view()) == 0;
                assert forall|j: int| 0 <= j < i + 1 implies arg_matches.count_of(
                    #[trigger] candidates[j].name_view(),
                ) == 0 by {
                    if j > 0 {
                        assert(candidates[j] == rest[j - 1]);
                    }
                }
                assert(candidates[i + 1] == found);
            } else {
                assert forall|j: int| 0 <= j < candidates.len() implies arg_matches.count_of(
                    #[trigger] candidates[j].name_view(),
                ) == 0 by {
                    if j > 0 {
                        assert(candidates[j] == rest[j - 1]);
                    }
                }
            }
        }
    }
}

/// The kind a command line names is found whenever the flag of some kind was
/// given: it is a kind whose flag was given, and every kind before it in
/// priority order was not given; when no kind's flag was given, none is found.
pub proof fn lemma_entity_match_is_first_given_kind(arg_matches: &ArgumentMatches)
    ensures
        (exists|kind: ClusterEntity| arg_matches.count_of(#[trigger] kind.name_view()) > 0)
            ==> <ClusterEntity as MatchParser<ClusterEntity>>::matched(arg_matches) is Some,
        <ClusterEntity as MatchParser<ClusterEntity>>::matched(arg_matches) matches Some(found)
            ==> arg_matches.count_of(found.name_view()) > 0 && exists|i: int|
            0 <= i < ClusterEntity::all_values().len() && ClusterEntity::all_values()[i] == found
                && forall|j: int|
                0 <= j < i ==> arg_matches.count_of(
                    #[trigger] ClusterEntity::all_values()[j].name_view(),
                ) == 0,
        <ClusterEntity as MatchParser<ClusterEntity>>::matched(arg_matches) is None ==> forall|
            kind: ClusterEntity,
        | arg_matches.count_of(#[trigger] kind.name_view()) == 0,
{
    let all = ClusterEntity::all_values();
    lemma_first_flagged_is_first_given(arg_matches, all);
    if exists|kind: ClusterEntity| arg_matches.count_of(#[trigger] kind.name_view()) > 0 {
        let kind = choose|kind: ClusterEntity| arg_matches.count_of(#[trigger] kind.name_view()) > 0;
        lemma_entities_listed_once(kind);
        let i = choose|i: int| 0 <= i < all.len() && all[i] == kind;
        assert(arg_matches.count_of(all[i].name_view()) > 0);
    }
    if first_flagged(arg_matches, all) is None {
        assert forall|kind: ClusterEntity| arg_matches.count_of(#[trigger] kind.name_view()) == 0 by {
            lemma_entities_listed_once(kind);
            let i = choose|i: int| 0 <= i < all.len() && all[i] == kind;
            assert(arg_matches.count_of(all[i].name_view()) == 0);
        }
    }
}

/// The name search a command line asks for is the one given to the `fanl`
/// argument, with its value, whatever other arguments were given; there is
/// none when `fanl` was given no value.
pub proof fn lemma_operation_match_is_the_fanl_value(arg_matches: &ArgumentMatches)
    ensures
        <Operation as MatchParser<OperationCall>>::matched(arg_matches) == match arg_matches.value_of(
            Operation::FindNameLike.name_view(),
        ) {
            Some(value) => Some(
                OperationCall {
                    operation: Operation::FindNameLike,
                    value: Some(value),
                    trailing: None,
                },
            ),
            None => None,
        },
{
    let all = Operation::all_values();
    assert(all[0] == Operation::FindNameLike);
    assert(all.drop_first() =~= Seq::<Operation>::empty());
    assert(first_valued(arg_matches, all.drop_first()) is None);
}

} // verus!
