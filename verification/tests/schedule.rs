use mod_plugins::error::ErrorKind;
use mod_plugins::kind::{FunctionKind, OrderingSpec, PhaseExpr, Rank};
use mod_plugins::registration::{Edge, Registration, Relation, SystemSet};
use mod_plugins::schedule::{
    chain_names, collect_bucket, collect_chain, collect_edges, find_unresolved, resolve,
    sibling_exists, sort_chain, ChainEntry, Definition,
};
use mod_plugins::systems::SystemProcessor;

fn system_def(name: &str, phase: PhaseExpr, ordering: OrderingSpec) -> Definition {
    Definition { name: name.to_string(), kind: FunctionKind::ScheduledSystem { phase, ordering } }
}

fn update_def(name: &str, ordering: OrderingSpec) -> Definition {
    system_def(name, PhaseExpr::Update, ordering)
}

fn ranked(name: &str, rank: Rank) -> Definition {
    update_def(name, OrderingSpec::Priority(rank))
}

fn entry(name: &str, rank: Rank) -> ChainEntry {
    ChainEntry { rank, name: name.to_string() }
}

fn edge(subject: &str, relation: Relation, target: &str) -> Edge {
    Edge { subject: subject.to_string(), relation, target: target.to_string() }
}

fn names(list: &[&str]) -> Vec<String> {
    list.iter().map(|s| s.to_string()).collect()
}

fn state(list: &[&str]) -> Vec<String> {
    names(list)
}

#[test]
fn priority_ties_keep_declaration_order() {
    let bucket = vec![ranked("A", Rank::High), ranked("B", Rank::Normal), ranked("C", Rank::High)];
    let set = resolve(&bucket).unwrap();
    assert_eq!(set.chain, names(&["A", "C", "B"]));
    assert!(set.edges.is_empty());
    assert!(set.free.is_empty());
}

#[test]
fn chain_runs_from_highest_to_lowest() {
    let bucket = vec![
        ranked("lowest", Rank::Lowest),
        ranked("low", Rank::Low),
        update_def("plain", OrderingSpec::Unspecified),
        ranked("normal", Rank::Normal),
        ranked("high", Rank::High),
        ranked("highest", Rank::Highest),
    ];
    let set = resolve(&bucket).unwrap();
    assert_eq!(set.chain, names(&["highest", "high", "plain", "normal", "low", "lowest"]));
}

#[test]
fn custom_ranks_sit_on_the_same_scale() {
    let bucket = vec![
        ranked("c0", Rank::Custom(0)),
        ranked("lowest", Rank::Lowest),
        ranked("c_max", Rank::Custom(u32::MAX)),
        ranked("highest", Rank::Highest),
        ranked("c_mid", Rank::Custom(u32::MAX / 2 + 1)),
        ranked("normal", Rank::Normal),
        ranked("c_big", Rank::Custom(4_000_000_000)),
    ];
    let set = resolve(&bucket).unwrap();
    assert_eq!(
        set.chain,
        names(&["c_max", "highest", "c_big", "c_mid", "normal", "c0", "lowest"])
    );
}

#[test]
fn sort_chain_is_stable_and_complete() {
    let entries = vec![
        entry("a", Rank::Low),
        entry("b", Rank::High),
        entry("c", Rank::Low),
        entry("d", Rank::High),
        entry("e", Rank::Low),
    ];
    let chain = sort_chain(&entries);
    assert_eq!(chain_names(&chain), names(&["b", "d", "a", "c", "e"]));
    assert_eq!(chain.len(), entries.len());
    assert!(sort_chain(&Vec::new()).is_empty());
}

#[test]
fn before_constrains_only_its_target() {
    let bucket = vec![
        update_def("X", OrderingSpec::Unspecified),
        update_def("Y", OrderingSpec::Before("X".to_string())),
        update_def("Z", OrderingSpec::Unspecified),
    ];
    let set = resolve(&bucket).unwrap();
    assert_eq!(set.edges, vec![edge("Y", Relation::Before, "X")]);
    assert!(!set.chain.contains(&"Y".to_string()));
    assert_eq!(set.chain, names(&["X", "Z"]));
    assert!(set.edges.iter().all(|e| e.subject != "Z" && e.target != "Z"));
}

#[test]
fn after_and_pipe_become_edges() {
    let bucket = vec![
        update_def("load", OrderingSpec::Unspecified),
        update_def("show", OrderingSpec::After("load".to_string())),
        update_def("feed", OrderingSpec::Pipe("show".to_string())),
    ];
    let set = resolve(&bucket).unwrap();
    assert_eq!(set.chain, names(&["load"]));
    assert_eq!(
        set.edges,
        vec![edge("show", Relation::After, "load"), edge("feed", Relation::Pipe, "show")]
    );
}

#[test]
fn unresolved_reference_is_a_failure() {
    let bucket = vec![
        update_def("a", OrderingSpec::Unspecified),
        update_def("b", OrderingSpec::Before("missing".to_string())),
    ];
    let error = resolve(&bucket).unwrap_err();
    assert_eq!(error.kind, ErrorKind::UnresolvedOrderingReference);
    assert_eq!(error.declaration, "b");
    assert_eq!(error.tag, "before");
    assert_eq!(find_unresolved(&bucket), Some((1, Relation::Before)));
}

#[test]
fn a_system_is_no_sibling_of_itself() {
    let bucket = vec![update_def("a", OrderingSpec::After("a".to_string()))];
    let error = resolve(&bucket).unwrap_err();
    assert_eq!(error.kind, ErrorKind::UnresolvedOrderingReference);
    assert_eq!(error.tag, "after");
    assert!(!sibling_exists(&bucket, 0, "a"));
    let twins = vec![
        update_def("a", OrderingSpec::After("a".to_string())),
        update_def("a", OrderingSpec::Unspecified),
    ];
    assert!(sibling_exists(&twins, 0, "a"));
    assert!(resolve(&twins).is_ok());
}

#[test]
fn first_unresolved_edge_is_reported() {
    let bucket = vec![
        update_def("a", OrderingSpec::Pipe("nobody".to_string())),
        update_def("b", OrderingSpec::Before("nothing".to_string())),
    ];
    let error = resolve(&bucket).unwrap_err();
    assert_eq!(error.declaration, "a");
    assert_eq!(error.tag, "pipe");
}

#[test]
fn buckets_are_told_apart_by_phase_and_state_value() {
    let red = state(&["S", ":", ":", "Red"]);
    let blue = state(&["S", ":", ":", "Blue"]);
    let defs = vec![
        system_def("a", PhaseExpr::OnEnter(red.clone()), OrderingSpec::Unspecified),
        system_def("b", PhaseExpr::OnExit(red.clone()), OrderingSpec::Unspecified),
        system_def("c", PhaseExpr::OnEnter(blue.clone()), OrderingSpec::Unspecified),
        system_def("d", PhaseExpr::OnEnter(red.clone()), OrderingSpec::Unspecified),
        Definition { name: "e".to_string(), kind: FunctionKind::Plain },
    ];
    let bucket = collect_bucket(&defs, &PhaseExpr::OnEnter(red.clone()));
    let found: Vec<&str> = bucket.iter().map(|d| d.name.as_str()).collect();
    assert_eq!(found, vec!["a", "d"]);
    assert!(collect_bucket(&defs, &PhaseExpr::Startup).is_empty());
    assert!(PhaseExpr::OnEnter(red.clone()).same_as(&PhaseExpr::OnEnter(red.clone())));
    assert!(!PhaseExpr::OnEnter(red.clone()).same_as(&PhaseExpr::OnExit(red.clone())));
    assert!(!PhaseExpr::OnEnter(red).same_as(&PhaseExpr::OnEnter(blue)));
    assert!(PhaseExpr::Startup.same_as(&PhaseExpr::Startup));
    assert!(!PhaseExpr::Startup.same_as(&PhaseExpr::Update));
}

#[test]
fn an_edge_is_resolved_within_its_own_phase_only() {
    let mut processor = SystemProcessor::new();
    processor.definitions.push(system_def("x", PhaseExpr::Startup, OrderingSpec::Unspecified));
    processor.definitions.push(update_def("y", OrderingSpec::Before("x".to_string())));
    let mut calls = Vec::new();
    let error = processor.apply_app_exts(&mut calls).unwrap_err();
    assert_eq!(error.kind, ErrorKind::UnresolvedOrderingReference);
    assert_eq!(error.declaration, "y");
    assert!(calls.is_empty());
}

#[test]
fn one_call_per_phase_then_factories_then_observers() {
    let mut processor = SystemProcessor::new();
    let defs = vec![
        Definition {
            name: "seen".to_string(),
            kind: FunctionKind::Observer {
                event_kind: names(&["OnAdd"]),
                component_type: names(&["T"]),
            },
        },
        update_def("u1", OrderingSpec::Unspecified),
        Definition { name: "make".to_string(), kind: FunctionKind::ResourceFactory },
        system_def("s1", PhaseExpr::Startup, OrderingSpec::Priority(Rank::Low)),
        update_def("u2", OrderingSpec::Priority(Rank::High)),
        system_def("s2", PhaseExpr::Startup, OrderingSpec::Unspecified),
        Definition { name: "hook".to_string(), kind: FunctionKind::LifecycleBuild },
        update_def("u3", OrderingSpec::After("u1".to_string())),
    ];
    for def in defs {
        processor.definitions.push(def);
    }
    let mut calls = vec![Registration::AddEvent("E".to_string())];
    processor.apply_app_exts(&mut calls).unwrap();
    assert_eq!(
        calls,
        vec![
            Registration::AddEvent("E".to_string()),
            Registration::AddSystems {
                phase: PhaseExpr::Update,
                set: SystemSet {
                    chain: names(&["u2", "u1"]),
                    edges: vec![edge("u3", Relation::After, "u1")],
                    free: vec![],
                },
            },
            Registration::AddSystems {
                phase: PhaseExpr::Startup,
                set: SystemSet { chain: names(&["s2", "s1"]), edges: vec![], free: vec![] },
            },
            Registration::InsertFactory("make".to_string()),
            Registration::Observe("seen".to_string()),
        ]
    );
}

#[test]
fn chain_and_edge_subsets_partition_the_bucket() {
    let bucket = vec![
        update_def("a", OrderingSpec::Unspecified),
        update_def("b", OrderingSpec::Before("a".to_string())),
        ranked("c", Rank::Highest),
    ];
    let chain = collect_chain(&bucket);
    assert_eq!(chain, vec![entry("a", Rank::Normal), entry("c", Rank::Highest)]);
    assert_eq!(collect_edges(&bucket), vec![edge("b", Relation::Before, "a")]);
}

#[test]
fn relation_tag_names() {
    assert_eq!(Relation::Before.tag_name(), "before");
    assert_eq!(Relation::After.tag_name(), "after");
    assert_eq!(Relation::Pipe.tag_name(), "pipe");
}
