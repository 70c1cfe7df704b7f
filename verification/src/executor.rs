use crate::kube::FoundEntities;
use crate::smooth_operator::{
    ArgumentCall, ClusterEntity, DefaultClusterOperations, Operation, OperationCall,
    ParsedParameters,
};
use vstd::prelude::*;

verus! {

/// The namespace a deletion acts in when the command line names none.
pub open spec fn default_namespace() -> Seq<char> {
    "default"@
}

/// Deleting the objects of one kind that a search found.
pub struct DeletionRequest {
    pub namespace: String,
    pub entity: ClusterEntity,
    /// The names found for the kind; `None` where the search made no entry for it.
    pub names: Option<Vec<String>>,
}

/// Whether the parameters ask for a name search.
pub open spec fn asks_for_search(params: &ParsedParameters) -> bool {
    params.operation_call matches Some(call) && call.operation == Operation::FindNameLike
}

/// Whether the parameters ask for a deletion.
pub open spec fn asks_for_deletion(params: &ParsedParameters) -> bool {
    params.argument_call matches Some(call) && call.initial == DefaultClusterOperations::Delete
}

/// The pattern a run searches the cluster with: the value of its name-search
/// call, if it has one.
pub open spec fn searched_pattern(params: &ParsedParameters) -> Option<String> {
    if asks_for_search(params) {
        params.operation_call.unwrap().value
    } else {
        None
    }
}

/// The name pattern to search the cluster with, where the parameters ask for
/// a search.
pub fn search_pattern(params: &ParsedParameters) -> (pattern: Option<String>)
    requires
        asks_for_search(params) ==> params.operation_call.unwrap().value is Some,
    ensures
        pattern == searched_pattern(params),
{
    match &params.operation_call {
        Some(call) => {
            if call.operation == Operation::FindNameLike {
                Some(call.value.as_ref().unwrap().clone())
            } else {
                None
            }
        },
        None => None,
    }
}

/// What to delete, where the parameters ask for a deletion: the kind they
/// name, in their namespace or else the default one, with the names `found`
/// holds for that kind.
pub fn deletion_request(params: &ParsedParameters, found: &FoundEntities) -> (request: Option<
    DeletionRequest,
>)
    requires
        asks_for_deletion(params) ==> params.entity_call is Some,
    ensures
        request is Some == asks_for_deletion(params),
        request matches Some(r) ==> {
            &&& r.namespace@ == (match params.namespace {
                Some(n) => n@,
                None => default_namespace(),
            })
            &&& r.entity == params.entity_call.unwrap()
            &&& r.names is Some == found@.contains_key(r.entity)
            &&& r.names is Some ==> r.names.unwrap()@ == found@[r.entity]
        },
{
    match &params.argument_call {
        Some(call) => {
            if call.initial == DefaultClusterOperations::Delete {
                let entity = params.entity_call.unwrap();
                let namespace = match &params.namespace {
                    Some(n) => n.clone(),
                    None => String::from_str("default"),
                };
                let names = match found.get(&entity) {
                    Some(names) => Some(clone_names(names)),
                    None => None,
                };
                Some(DeletionRequest { namespace, entity, names })
            } else {
                None
            }
        },
        None => None,
    }
}

/// A run whose operation call is a name search with value `v` searches the
/// cluster with `v`, whatever namespace, kind and default operation it names.
pub proof fn lemma_search_runs_for_a_name_search(params: &ParsedParameters, call: OperationCall)
    requires
        params.operation_call == Some(call),
        call.operation == Operation::FindNameLike,
    ensures
        searched_pattern(params) == call.value,
{
}

/// Whether and with what a run searches depends on its operation call alone.
pub proof fn lemma_search_depends_on_operation_call_alone(
    p: &ParsedParameters,
    q: &ParsedParameters,
)
    requires
        p.operation_call == q.operation_call,
    ensures
        searched_pattern(p) == searched_pattern(q),
{
}

/// A run without an operation call searches nothing.
pub proof fn lemma_no_search_without_operation_call(params: &ParsedParameters)
    requires
        params.operation_call is None,
    ensures
        searched_pattern(params) is None,
{
}

/// A run whose default operation is a deletion asks for one, whatever kind,
/// namespace and operation call it names.
pub proof fn lemma_deletion_follows_the_delete_call(params: &ParsedParameters, call: ArgumentCall)
    requires
        params.argument_call == Some(call),
        call.initial == DefaultClusterOperations::Delete,
    ensures
        asks_for_deletion(params),
{
}

/// Whether a run deletes depends on its default operation call alone.
pub proof fn lemma_deletion_depends_on_argument_call_alone(
    p: &ParsedParameters,
    q: &ParsedParameters,
)
    requires
        p.argument_call == q.argument_call,
    ensures
        asks_for_deletion(p) == asks_for_deletion(q),
{
}

/// A run without a default operation call deletes nothing.
pub proof fn lemma_no_deletion_without_argument_call(params: &ParsedParameters)
    requires
        params.argument_call is None,
    ensures
        !asks_for_deletion(params),
{
}

/// A copy of `names`.
fn clone_names(names: &Vec<String>) -> (copy: Vec<String>)
    ensures
        copy@ == names@,
{
    let mut copy: Vec<String> = Vec::new();
    let mut i: usize = 0;
    while i < names.len()
        invariant
            0 <= i <= names.len(),
            copy@ == names@.take(i as int),
        decreases names.len() - i,
    {
        copy.push(names[i].clone());
        assert(copy@ =~= names@.take(i + 1));
        i += 1;
    }
    assert(names@.take(i as int) =~= names@);
    copy
}

} // verus!
