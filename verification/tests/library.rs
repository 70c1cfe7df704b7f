use kubus::arg_matches::ArgumentMatches;
use kubus::args::{conflicting_entities, parse_args};
use kubus::executor::{deletion_request, search_pattern};
use kubus::kube::{
    find_entity_by_name_like, find_entity_by_name_like_namespaced, FoundEntities, NamePattern,
    NamespaceListing, PatternError,
};
use kubus::smooth_operator::{
    ArgumentCall, ClusterEntity, DefaultClusterOperations, DescriptionArgument,
    EnvironmentSpecifiers, IterableEnum, MatchParser, NamedArgument, Operation, OperationCall,
    ParsedParameters,
};

fn strings(names: &[&str]) -> Vec<String> {
    names.iter().map(|n| n.to_string()).collect()
}

fn matches(counts: &[(&str, u8)], values: &[(&str, &str)], explicit: bool) -> ArgumentMatches {
    ArgumentMatches {
        counts: counts.iter().map(|(n, c)| (n.to_string(), *c)).collect(),
        values: values.iter().map(|(n, v)| (n.to_string(), v.to_string())).collect(),
        explicit,
    }
}

fn listing(pvcs: &[&str], deployments: &[&str], services: &[&str], pods: &[&str]) -> NamespaceListing {
    NamespaceListing {
        persistent_volume_claims: strings(pvcs),
        deployments: strings(deployments),
        services: strings(services),
        pods: strings(pods),
    }
}

#[test]
fn entity_names_are_the_flag_names() {
    assert_eq!(ClusterEntity::_PersistentVolumeClaim.name(), "pvc");
    assert_eq!(ClusterEntity::_Service.name(), "svc");
    assert_eq!(ClusterEntity::_Pod.name(), "pod");
    assert_eq!(ClusterEntity::_Deployment.name(), "dpl");
}

#[test]
fn other_argument_names() {
    assert_eq!(Operation::FindNameLike.name(), "fanl");
    assert_eq!(DefaultClusterOperations::Delete.name(), "delete");
    assert_eq!(EnvironmentSpecifiers::Namespace.name(), "namespace");
}

#[test]
fn operation_description() {
    assert_eq!(
        Operation::FindNameLike.description(),
        "Find matches for name like provided regexp from all-across the cluster"
    );
}

#[test]
fn iterators_list_values_in_priority_order() {
    assert_eq!(
        ClusterEntity::iterator(),
        vec![
            ClusterEntity::_PersistentVolumeClaim,
            ClusterEntity::_Service,
            ClusterEntity::_Pod,
            ClusterEntity::_Deployment,
        ]
    );
    assert_eq!(DefaultClusterOperations::iterator(), vec![DefaultClusterOperations::Delete]);
    assert_eq!(Operation::iterator(), vec![Operation::FindNameLike]);
}

#[test]
fn entity_names_are_distinct() {
    let all = ClusterEntity::iterator();
    for a in &all {
        for b in &all {
            assert_eq!(a.name() == b.name(), a == b);
        }
    }
}

#[test]
fn get_count_uses_the_first_entry_and_defaults_to_zero() {
    let m = matches(&[("pod", 2), ("svc", 0), ("pod", 5)], &[], true);
    assert_eq!(m.get_count("pod"), 2);
    assert_eq!(m.get_count("svc"), 0);
    assert_eq!(m.get_count("dpl"), 0);
}

#[test]
fn get_one_uses_the_first_entry() {
    let m = matches(&[], &[("fanl", "revify"), ("fanl", "other")], true);
    assert_eq!(m.get_one("fanl"), Some(&"revify".to_string()));
    assert_eq!(m.get_one("namespace"), None);
    assert!(m.args_present());
    assert!(!matches(&[], &[], false).args_present());
}

#[test]
fn entity_match_takes_the_first_given_in_priority_order() {
    let m = matches(&[("pod", 1), ("svc", 1), ("pvc", 0), ("dpl", 3)], &[], true);
    assert_eq!(ClusterEntity::find_operation_match(&m), Some(ClusterEntity::_Service));
    let m = matches(&[("pod", 1), ("dpl", 1)], &[], true);
    assert_eq!(ClusterEntity::find_operation_match(&m), Some(ClusterEntity::_Pod));
    let m = matches(&[("pvc", 0), ("svc", 0)], &[], true);
    assert_eq!(ClusterEntity::find_operation_match(&m), None);
}

#[test]
fn default_operation_match() {
    let m = matches(&[("delete", 1)], &[], true);
    let found = DefaultClusterOperations::find_operation_match(&m).unwrap();
    assert_eq!(found.initial, DefaultClusterOperations::Delete);
    assert!(found.trailing.is_none());
    let m = matches(&[("delete", 0), ("pod", 1)], &[], true);
    assert!(DefaultClusterOperations::find_operation_match(&m).is_none());
}

#[test]
fn operation_match_carries_the_value() {
    let m = matches(&[], &[("fanl", "revify")], true);
    assert_eq!(
        Operation::find_operation_match(&m),
        Some(OperationCall {
            operation: Operation::FindNameLike,
            value: Some("revify".to_string()),
            trailing: None,
        })
    );
    let m = matches(&[], &[("namespace", "kube-system")], true);
    assert_eq!(Operation::find_operation_match(&m), None);
}

#[test]
fn parse_args_reads_every_parameter() {
    let m = matches(
        &[("delete", 1), ("pvc", 0), ("svc", 1), ("pod", 0), ("dpl", 0)],
        &[("fanl", "revify"), ("namespace", "prod")],
        true,
    );
    let parsed: ParsedParameters = parse_args(&m).unwrap();
    assert_eq!(parsed.namespace, Some("prod".to_string()));
    assert_eq!(parsed.entity_call, Some(ClusterEntity::_Service));
    assert_eq!(
        parsed.operation_call,
        Some(OperationCall {
            operation: Operation::FindNameLike,
            value: Some("revify".to_string()),
            trailing: None,
        })
    );
    let argument: ArgumentCall = parsed.argument_call.unwrap();
    assert_eq!(argument.initial, DefaultClusterOperations::Delete);
}

#[test]
fn parse_args_without_optional_parameters() {
    let m = matches(&[("dpl", 1)], &[], true);
    let parsed = parse_args(&m).unwrap();
    assert_eq!(parsed.namespace, None);
    assert_eq!(parsed.operation_call, None);
    assert_eq!(parsed.entity_call, Some(ClusterEntity::_Deployment));
    assert!(parsed.argument_call.is_none());
}

#[test]
fn conflicts_are_the_other_entities_in_order() {
    assert_eq!(
        conflicting_entities(&ClusterEntity::_Service),
        vec![
            ClusterEntity::_PersistentVolumeClaim,
            ClusterEntity::_Pod,
            ClusterEntity::_Deployment,
        ]
    );
    for entity in ClusterEntity::iterator() {
        let others = conflicting_entities(&entity);
        assert_eq!(others.len(), 3);
        assert!(!others.contains(&entity));
    }
}

#[test]
fn invalid_pattern_is_refused() {
    assert_eq!(NamePattern::new("revify(").err(), Some(PatternError::Invalid));
    assert!(NamePattern::new("revify").is_ok());
}

#[test]
fn pattern_finds_matches_anywhere() {
    let pattern = NamePattern::new("eur.ka").unwrap();
    assert!(pattern.is_found_in("revify-eureka-cip"));
    assert!(!pattern.is_found_in("revify-cip"));
    let anchored = NamePattern::new("^revify").unwrap();
    assert!(anchored.is_found_in("revify-eureka"));
    assert!(!anchored.is_found_in("x-revify"));
}

#[test]
fn found_entities_push_then_get() {
    let mut found = FoundEntities::new();
    assert!(found.get(&ClusterEntity::_Pod).is_none());
    found.push_name(&ClusterEntity::_Pod, "a".to_string());
    found.push_name(&ClusterEntity::_Pod, "b".to_string());
    assert_eq!(found.get(&ClusterEntity::_Pod), Some(&strings(&["a", "b"])));
    assert!(found.get(&ClusterEntity::_Service).is_none());

    let all = FoundEntities::with_all_entities();
    for entity in ClusterEntity::iterator() {
        assert_eq!(all.get(&entity), Some(&Vec::new()));
    }
}

#[test]
fn namespace_search_appends_matching_names() {
    let pattern = NamePattern::new("revify").unwrap();
    let mut found = FoundEntities::new();
    found.push_name(&ClusterEntity::_Pod, "earlier".to_string());
    let l = listing(
        &["data"],
        &["revify-eureka"],
        &["revify-eureka-cip", "other", "revify-eureka-lb"],
        &["revify-eureka-589bff7f99-q6b2x"],
    );
    find_entity_by_name_like_namespaced(&pattern, &l, &mut found);
    assert_eq!(
        found.get(&ClusterEntity::_Service),
        Some(&strings(&["revify-eureka-cip", "revify-eureka-lb"]))
    );
    assert_eq!(
        found.get(&ClusterEntity::_Pod),
        Some(&strings(&["earlier", "revify-eureka-589bff7f99-q6b2x"]))
    );
    assert_eq!(found.get(&ClusterEntity::_Deployment), Some(&strings(&["revify-eureka"])));
    // no name of this kind matched, so it gets no entry
    assert!(found.get(&ClusterEntity::_PersistentVolumeClaim).is_none());
}

#[test]
fn cluster_search_collects_matches_of_every_namespace() {
    let pattern = NamePattern::new("revify").unwrap();
    let listings = vec![
        listing(&[], &["revify-eureka"], &["revify-eureka-cip"], &["revify-a"]),
        listing(&["revify-data"], &["other"], &["revify-eureka-lb"], &["x"]),
    ];
    let found = find_entity_by_name_like(&pattern, &listings);
    assert_eq!(
        found.get(&ClusterEntity::_Service),
        Some(&strings(&["revify-eureka-cip", "revify-eureka-lb"]))
    );
    assert_eq!(found.get(&ClusterEntity::_Pod), Some(&strings(&["revify-a"])));
    assert_eq!(found.get(&ClusterEntity::_Deployment), Some(&strings(&["revify-eureka"])));
    assert_eq!(
        found.get(&ClusterEntity::_PersistentVolumeClaim),
        Some(&strings(&["revify-data"]))
    );
}

#[test]
fn cluster_search_without_namespaces_has_every_kind_empty() {
    let pattern = NamePattern::new("revify").unwrap();
    let found = find_entity_by_name_like(&pattern, &Vec::new());
    for entity in ClusterEntity::iterator() {
        assert_eq!(found.get(&entity), Some(&Vec::new()));
    }
}

#[test]
fn found_names_match_and_matching_names_are_found() {
    let pattern = NamePattern::new("^a").unwrap();
    let listings = vec![
        listing(&["ab", "ba"], &[], &["a"], &[]),
        listing(&["ac"], &["b"], &[], &["aa", "c"]),
    ];
    let found = find_entity_by_name_like(&pattern, &listings);
    for entity in ClusterEntity::iterator() {
        let names = found.get(&entity).unwrap();
        for name in names {
            assert!(pattern.is_found_in(name));
        }
    }
    assert_eq!(found.get(&ClusterEntity::_PersistentVolumeClaim), Some(&strings(&["ab", "ac"])));
    assert_eq!(found.get(&ClusterEntity::_Pod), Some(&strings(&["aa"])));
    assert_eq!(found.get(&ClusterEntity::_Deployment), Some(&Vec::new()));
}

fn params(
    namespace: Option<&str>,
    pattern: Option<&str>,
    entity: Option<ClusterEntity>,
    delete: bool,
) -> ParsedParameters {
    ParsedParameters {
        namespace: namespace.map(|n| n.to_string()),
        operation_call: pattern.map(|p| OperationCall {
            operation: Operation::FindNameLike,
            value: Some(p.to_string()),
            trailing: None,
        }),
        entity_call: entity,
        argument_call: if delete {
            Some(ArgumentCall { initial: DefaultClusterOperations::Delete, trailing: None })
        } else {
            None
        },
    }
}

#[test]
fn search_pattern_comes_from_the_find_operation() {
    assert_eq!(search_pattern(&params(None, Some("revify"), None, false)), Some("revify".to_string()));
    assert_eq!(search_pattern(&params(None, None, Some(ClusterEntity::_Pod), true)), None);
}

#[test]
fn deletion_uses_the_default_namespace_when_none_is_given() {
    let mut found = FoundEntities::with_all_entities();
    found.push_name(&ClusterEntity::_Service, "revify-eureka-cip".to_string());
    found.push_name(&ClusterEntity::_Service, "revify-eureka-lb".to_string());
    let request =
        deletion_request(&params(None, Some("revify"), Some(ClusterEntity::_Service), true), &found)
            .unwrap();
    assert_eq!(request.namespace, "default");
    assert_eq!(request.entity, ClusterEntity::_Service);
    assert_eq!(request.names, Some(strings(&["revify-eureka-cip", "revify-eureka-lb"])));
}

#[test]
fn deletion_uses_the_given_namespace() {
    let found = FoundEntities::new();
    let request =
        deletion_request(&params(Some("prod"), None, Some(ClusterEntity::_Pod), true), &found)
            .unwrap();
    assert_eq!(request.namespace, "prod");
    assert_eq!(request.entity, ClusterEntity::_Pod);
    assert_eq!(request.names, None);
}

#[test]
fn no_deletion_without_the_delete_flag() {
    let found = FoundEntities::with_all_entities();
    assert!(deletion_request(&params(None, Some("x"), Some(ClusterEntity::_Pod), false), &found).is_none());
}

#[test]
fn parameters_clone_equal() {
    let p = params(Some("ns"), Some("x"), Some(ClusterEntity::_Pod), true);
    let q = p.clone();
    assert_eq!(q.namespace, p.namespace);
    assert_eq!(q.operation_call, p.operation_call);
    assert_eq!(q.entity_call, p.entity_call);
    assert_eq!(q.argument_call.unwrap().initial, DefaultClusterOperations::Delete);
}
