use crate::arg_matches::ArgumentMatches;
use crate::smooth_operator::{
    ArgumentCall, ClusterEntity, DefaultClusterOperations, EnvironmentSpecifiers, IterableEnum,
    MatchParser, NamedArgument, Operation, OperationCall, ParsedParameters,
    lemma_entities_listed_once,
};
use vstd::prelude::*;

verus! {

/// Reads the parameters of one run from what the command line parser found.
///
/// Panics, like the search for a default operation, on a command line that
/// gives no argument at all; callers check `args_present` first.
pub fn parse_args(arg_matches: &ArgumentMatches) -> (parsed: Option<ParsedParameters>)
    requires
        arg_matches.explicit,
    ensures
        parsed == Some(
            ParsedParameters {
                namespace: arg_matches.value_of(EnvironmentSpecifiers::Namespace.name_view()),
                operation_call: <Operation as MatchParser<OperationCall>>::matched(arg_matches),
                entity_call: <ClusterEntity as MatchParser<ClusterEntity>>::matched(arg_matches),
                argument_call: <DefaultClusterOperations as MatchParser<
                    ArgumentCall,
                >>::matched(arg_matches),
            },
        ),
{
    let namespace = arg_matches.get_one(EnvironmentSpecifiers::Namespace.name());
    Some(
        ParsedParameters {
            namespace: if namespace.is_some() {
                Some(namespace.unwrap().clone())
            } else {
                None
            },
            operation_call: Operation::find_operation_match(arg_matches),
            entity_call: ClusterEntity::find_operation_match(arg_matches),
            argument_call: DefaultClusterOperations::find_operation_match(arg_matches),
        },
    )
}

/// The entities whose flags conflict with the flag of `entity`: every other
/// entity, in priority order.
pub fn conflicting_entities(entity: &ClusterEntity) -> (others: Vec<ClusterEntity>)
    ensures
        others@ == ClusterEntity::all_values().filter(|x: ClusterEntity| x != *entity),
{
    let all = ClusterEntity::iterator();
    let ghost pred = |x: ClusterEntity| x != *entity;
    let mut others: Vec<ClusterEntity> = Vec::new();
    let mut i: usize = 0;
    assert(all@.take(0) =~= Seq::<ClusterEntity>::empty());
    proof {
        reveal(Seq::filter);
    }
    while i < all.len()
        invariant
            0 <= i <= all.len(),
            all@ == ClusterEntity::all_values(),
            pred == (|x: ClusterEntity| x != *entity),
            others@ == all@.take(i as int).filter(pred),
        decreases all.len() - i,
    {
        let candidate = all[i];
        let ghost before = others@;
        if candidate != *entity {
            others.push(candidate);
        }
        proof {
            reveal(Seq::filter);
            let next = all@.take(i + 1);
            assert(next.drop_last() =~= all@.take(i as int));
            assert(next.last() == candidate);
            assert(next.filter(pred) == if pred(candidate) {
                before.push(candidate)
            } else {
                before
            });
        }
        i += 1;
    }
    assert(all@.take(i as int) =~= all@);
    others
}

/// A kind's flag conflicts with the flag of every other kind and never with itself.
pub proof fn lemma_conflicts_are_the_other_kinds(entity: ClusterEntity, other: ClusterEntity)
    ensures
        ClusterEntity::all_values().filter(|x: ClusterEntity| x != entity).contains(other) == (
        other != entity),
{
    broadcast use vstd::seq_lib::group_filter_ensures;

    let all = ClusterEntity::all_values();
    let pred = |x: ClusterEntity| x != entity;
    lemma_entities_listed_once(other);
    if all.filter(pred).contains(other) {
        let i = choose|i: int| 0 <= i < all.filter(pred).len() && all.filter(pred)[i] == other;
        assert(pred(all.filter(pred)[i]));
    }
    if other != entity {
        let i = choose|i: int| 0 <= i < all.len() && all[i] == other;
        assert(all.filter(pred).contains(all[i]));
    }
}

} // verus!
