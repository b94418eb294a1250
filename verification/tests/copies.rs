use mod_plugins::classify::{
    apply_canonical_tag, bind_event, bind_query, build_system_enum_variant, inject_event_reader,
    make_observer, make_resource_system, make_system, set_ordering, wrap_matches, Draft,
};
use mod_plugins::error::ErrorKind;
use mod_plugins::events::lone_system;
use mod_plugins::groups::{copy_bindings, Group};
use mod_plugins::kind::{FunctionKind, OrderingSpec, PhaseExpr, Rank};
use mod_plugins::plugin::{
    add_cleanups, consume_type_tag, item_scopes_to, push_camel, scan, Declaration, Scanner,
    TypeAlias, TypeWork,
};
use mod_plugins::initialization::{InitRequest, InitializationSystems};
use mod_plugins::prefab::{DataType, Scope};
use mod_plugins::registration::{
    copy_edges, extend_calls, Edge, Registration, Relation, SystemSet,
};
use mod_plugins::schedule::{own_edge, Definition};
use mod_plugins::systems::SystemProcessor;
use mod_plugins::text::to_upper_initial;
use mod_plugins::unit::{
    copy_layers, copy_params, copy_tags, BehaviorUnit, BodyLayer, Param, QueryBinding, Tag,
    UnitBody,
};

fn texts(items: &[&str]) -> Vec<String> {
    items.iter().map(|s| s.to_string()).collect()
}

fn note(name: &str, tokens: &[&str]) -> Tag {
    Tag { name: name.to_string(), tokens: texts(tokens) }
}

fn blank() -> Draft {
    Draft {
        kind: FunctionKind::Plain,
        claimed: false,
        params: Vec::new(),
        yields: true,
        layers: Vec::new(),
        queries: 0,
    }
}

fn scheduled(phase: PhaseExpr) -> Draft {
    Draft {
        kind: FunctionKind::ScheduledSystem { phase, ordering: OrderingSpec::Unspecified },
        claimed: true,
        params: Vec::new(),
        yields: false,
        layers: Vec::new(),
        queries: 0,
    }
}

fn sample_unit() -> BehaviorUnit {
    BehaviorUnit {
        name: "sample".to_string(),
        tags: vec![note("update", &[]), note("query", &["&", "A"])],
        params: vec![
            Param::Declared { name: "a".to_string(), ty: "Res<A>".to_string() },
            Param::Handle,
            Param::StateRead { state: "S".to_string() },
            Param::EventReader { name: "e".to_string(), event: "E".to_string() },
            Param::Query(QueryBinding {
                name: "query1".to_string(),
                inclusion: vec![texts(&["&", "A"])],
                filter: vec![texts(&["With", "<", "B", ">"])],
                mutable: false,
            }),
            Param::Trigger { event_kind: texts(&["OnAdd"]), component_type: texts(&["T"]) },
            Param::Current { ty: "Box<T>".to_string() },
        ],
        yields: true,
        layers: vec![
            BodyLayer::ForEachEvent { reader: "e".to_string() },
            BodyLayer::ForEachMatch { query: "query1".to_string(), mutable: true },
            BodyLayer::StoreResult { handle: "commands".to_string() },
        ],
        body: UnitBody::ScopeCleanup { state: "S".to_string(), variant: "V".to_string() },
    }
}

fn plain_type(name: &str) -> DataType {
    DataType {
        name: name.to_string(),
        tags: vec![],
        variants: texts(&["On", "Off"]),
        named_fields: true,
        scope: None,
        bundle: false,
        state: false,
    }
}

#[test]
fn duplicates_equal_their_source() {
    let unit = sample_unit();
    assert_eq!(unit.duplicate(), unit);
    assert_eq!(copy_tags(&unit.tags), unit.tags);
    assert_eq!(copy_params(&unit.params), unit.params);
    assert_eq!(copy_layers(&unit.layers), unit.layers);
    for param in &unit.params {
        assert_eq!(&param.duplicate(), param);
    }
    for layer in &unit.layers {
        assert_eq!(&layer.duplicate(), layer);
    }
    assert_eq!(unit.body.duplicate(), unit.body);
    assert_eq!(UnitBody::Source.duplicate(), UnitBody::Source);
    let dispatch = UnitBody::EventDispatch {
        groups: vec![Group { key: texts(&["E"]), members: texts(&["h1", "h2"]) }],
    };
    assert_eq!(dispatch.duplicate(), dispatch);
    let insertion = UnitBody::ResourceInsertion { systems: texts(&["s1", "s2"]) };
    assert_eq!(insertion.duplicate(), insertion);
    let groups = vec![
        Group { key: texts(&["A"]), members: texts(&["x"]) },
        Group { key: texts(&["B", "C"]), members: texts(&[]) },
    ];
    assert_eq!(copy_bindings(&groups), groups);
    assert_eq!(groups[0].duplicate(), groups[0]);
}

#[test]
fn kinds_and_calls_duplicate() {
    let kinds = vec![
        FunctionKind::Plain,
        FunctionKind::LifecycleBuild,
        FunctionKind::ResourceFactory,
        FunctionKind::ScheduledSystem {
            phase: PhaseExpr::OnExit(texts(&["S", ":", ":", "A"])),
            ordering: OrderingSpec::Pipe("sink".to_string()),
        },
        FunctionKind::ScheduledSystem {
            phase: PhaseExpr::Startup,
            ordering: OrderingSpec::Priority(Rank::Custom(9)),
        },
        FunctionKind::Observer { event_kind: texts(&["OnAdd"]), component_type: texts(&["T"]) },
    ];
    for kind in &kinds {
        assert_eq!(&kind.duplicate(), kind);
        let def = Definition { name: "d".to_string(), kind: kind.duplicate() };
        assert_eq!(def.duplicate(), def);
    }
    for ordering in [
        OrderingSpec::Unspecified,
        OrderingSpec::Before("a".to_string()),
        OrderingSpec::After("b".to_string()),
    ] {
        assert_eq!(ordering.duplicate(), ordering);
    }
    let edges = vec![Edge {
        subject: "a".to_string(),
        relation: Relation::Pipe,
        target: "b".to_string(),
    }];
    assert_eq!(copy_edges(&edges), edges);
    let calls = vec![
        Registration::AddEvent("E".to_string()),
        Registration::InitResource("R".to_string()),
        Registration::InsertResource(texts(&["R", "1"])),
        Registration::RegisterType("T".to_string()),
        Registration::InitState("S".to_string()),
        Registration::InsertState(texts(&["S", ":", ":", "A"])),
        Registration::AddSystems {
            phase: PhaseExpr::Update,
            set: SystemSet { chain: texts(&["a"]), edges, free: texts(&["f"]) },
        },
        Registration::InsertFactory("make".to_string()),
        Registration::Observe("seen".to_string()),
    ];
    for call in &calls {
        assert_eq!(&call.duplicate(), call);
    }
    let mut list = vec![Registration::Observe("first".to_string())];
    extend_calls(&mut list, vec![Registration::Observe("second".to_string())]);
    assert_eq!(
        list,
        vec![
            Registration::Observe("first".to_string()),
            Registration::Observe("second".to_string())
        ]
    );
}

#[test]
fn declarations_duplicate() {
    let mut ty = plain_type("T");
    ty.scope = Some(Scope::Local("S".to_string()));
    ty.tags.push(note("derive", &["Debug"]));
    assert_eq!(ty.duplicate(), ty);
    assert_eq!(Scope::Global.duplicate(), Scope::Global);
    let alias = TypeAlias {
        name: "score".to_string(),
        tags: vec![note("field", &[])],
        ty: "u32".to_string(),
        public: true,
    };
    assert_eq!(alias.duplicate(), alias);
    assert_eq!(note("a", &["b"]).duplicate(), note("a", &["b"]));
}

#[test]
fn a_free_set_orders_nothing() {
    let set = SystemSet::unordered(texts(&["a", "b"]));
    assert!(set.chain.is_empty());
    assert!(set.edges.is_empty());
    assert_eq!(set.free, texts(&["a", "b"]));
    assert_eq!(
        lone_system(PhaseExpr::Startup, "only"),
        Registration::AddSystems {
            phase: PhaseExpr::Startup,
            set: SystemSet { chain: vec![], edges: vec![], free: texts(&["only"]) },
        }
    );
}

#[test]
fn camel_case_is_built_character_by_character() {
    let mut name = String::new();
    let next = push_camel(&mut name, 'a', true, 'A');
    assert_eq!((name.as_str(), next), ("A", false));
    let next = push_camel(&mut name, 'b', false, 'B');
    assert_eq!((name.as_str(), next), ("Ab", false));
    let next = push_camel(&mut name, '_', false, '_');
    assert_eq!((name.as_str(), next), ("Ab", true));
    let next = push_camel(&mut name, '_', true, '_');
    assert_eq!((name.as_str(), next), ("Ab", true));
    let next = push_camel(&mut name, 'c', true, 'X');
    assert_eq!((name.as_str(), next), ("AbX", false));
    assert_eq!(to_upper_initial('q'), 'Q');
    assert_eq!(to_upper_initial('Q'), 'Q');
    assert_eq!(to_upper_initial('ß'), 'S');
    assert_eq!(to_upper_initial('7'), '7');
}

#[test]
fn canonical_tags_one_by_one() {
    let out = make_system(blank(), &note("system", &["enter", ",", "S", ":", ":", "A"])).unwrap();
    assert_eq!(
        out.kind,
        FunctionKind::ScheduledSystem {
            phase: PhaseExpr::OnEnter(texts(&["S", ":", ":", "A"])),
            ordering: OrderingSpec::Unspecified
        }
    );
    assert_eq!(out.params, vec![Param::StateRead { state: "S".to_string() }]);
    assert!(out.yields);
    assert_eq!(
        build_system_enum_variant(&texts(&["update"])),
        Some(FunctionKind::ScheduledSystem {
            phase: PhaseExpr::Update,
            ordering: OrderingSpec::Unspecified
        })
    );
    assert_eq!(build_system_enum_variant(&texts(&["sometimes"])), None);

    let out = make_resource_system(blank(), &note("resource_system", &[])).unwrap();
    assert!(!out.yields);
    assert_eq!(out.params, vec![Param::Handle]);
    assert_eq!(
        make_resource_system(scheduled(PhaseExpr::Update), &note("resource_system", &[])),
        Err(ErrorKind::DuplicateClassification)
    );

    let out = set_ordering(scheduled(PhaseExpr::Update), &note("pipe", &["sink"])).unwrap();
    assert_eq!(
        out.kind,
        FunctionKind::ScheduledSystem {
            phase: PhaseExpr::Update,
            ordering: OrderingSpec::Pipe("sink".to_string())
        }
    );
    assert_eq!(set_ordering(blank(), &note("pipe", &["sink"])), Err(ErrorKind::OrderingOnNonSystem));
    assert_eq!(
        set_ordering(scheduled(PhaseExpr::Update), &note("sideways", &["sink"])),
        Err(ErrorKind::MalformedTag)
    );

    let out = make_observer(blank(), &note("trigger", &["OnAdd", ",", "T"])).unwrap();
    assert_eq!(
        out.params,
        vec![Param::Trigger { event_kind: texts(&["OnAdd"]), component_type: texts(&["T"]) }]
    );

    let out = inject_event_reader(blank(), "Hit", "chosen".to_string());
    assert_eq!(
        out.params,
        vec![Param::EventReader { name: "chosen".to_string(), event: "Hit".to_string() }]
    );
    assert_eq!(out.layers, vec![BodyLayer::ForEachEvent { reader: "chosen".to_string() }]);
    assert_eq!(out.kind, FunctionKind::Plain);
    let out = bind_event(scheduled(PhaseExpr::Startup), &note("event", &["HitPoint"])).unwrap();
    assert_eq!(
        out.params,
        vec![Param::EventReader { name: "hit_point".to_string(), event: "HitPoint".to_string() }]
    );
    assert_eq!(
        out.kind,
        FunctionKind::ScheduledSystem {
            phase: PhaseExpr::Startup,
            ordering: OrderingSpec::Unspecified
        }
    );

    let out = bind_query(blank(), &note("query7", &["&", "mut", "A"])).unwrap();
    match &out.params[0] {
        Param::Query(query) => {
            assert_eq!(query.name, "query7");
            assert!(query.mutable);
        }
        other => panic!("unexpected parameter {:?}", other),
    }
    let out = wrap_matches(blank(), &note("on", &["query7", ",", "mut"])).unwrap();
    assert_eq!(
        out.layers,
        vec![BodyLayer::ForEachMatch { query: "query7".to_string(), mutable: true }]
    );
    assert_eq!(
        apply_canonical_tag(blank(), &note("startup", &[])),
        Err(ErrorKind::UnknownTag)
    );
    assert_eq!(
        apply_canonical_tag(blank(), &note("query", &["&", "A"])),
        Err(ErrorKind::UnknownTag)
    );
}

#[test]
fn definitions_tell_their_edge() {
    let def = Definition {
        name: "y".to_string(),
        kind: FunctionKind::ScheduledSystem {
            phase: PhaseExpr::Update,
            ordering: OrderingSpec::Before("x".to_string()),
        },
    };
    assert_eq!(
        own_edge(&def),
        Some(Edge {
            subject: "y".to_string(),
            relation: Relation::Before,
            target: "x".to_string()
        })
    );
    let def = Definition { name: "h".to_string(), kind: FunctionKind::LifecycleBuild };
    assert_eq!(own_edge(&def), None);
}

#[test]
fn scanner_steps() {
    let mut cube = plain_type("Cube");
    cube.tags.push(note("prefab", &["scope", "local", "Mode"]));
    let cube = Declaration::Type(cube);
    assert!(item_scopes_to(&cube, "Mode"));
    assert!(!item_scopes_to(&cube, "Other"));
    assert!(!item_scopes_to(&Declaration::Other(0), "Mode"));

    let processor = add_cleanups(SystemProcessor::new(), "Mode", &texts(&["On", "Off"])).unwrap();
    let names: Vec<&str> = processor.base_functions().iter().map(|u| u.name.as_str()).collect();
    assert_eq!(names, vec!["remove_on", "remove_off"]);

    let work = TypeWork {
        ty: plain_type("Mode"),
        init: InitializationSystems::new(),
        processor: SystemProcessor::new(),
    };
    let work = consume_type_tag(work, &note("init_state", &[]), true).unwrap();
    assert!(work.ty.state);
    assert_eq!(work.init.requests, vec![InitRequest::DefaultState("Mode".to_string())]);
    assert_eq!(work.processor.definitions.len(), 2);
    let work = consume_type_tag(work, &note("derive", &["Debug"]), true).unwrap();
    assert_eq!(work.ty.tags, vec![note("derive", &["Debug"])]);

    let scanner = Scanner {
        processor: SystemProcessor::new(),
        init: InitializationSystems::new(),
        fields: Vec::new(),
        items: Vec::new(),
    };
    let all = vec![Declaration::Other(0)];
    let scanner = scan(scanner, &all[0], &all).unwrap();
    assert_eq!(scanner.items, vec![Declaration::Other(0)]);
    assert!(scanner.fields.is_empty());
}
