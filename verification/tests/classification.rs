use mod_plugins::classify::{apply_written_tag, find_handle, Draft, HandleUse};
use mod_plugins::error::ErrorKind;
use mod_plugins::kind::{FunctionKind, OrderingSpec, PhaseExpr, Rank};
use mod_plugins::normalize::normalize_tag;
use mod_plugins::systems::{classify_unit, SystemProcessor};
use mod_plugins::unit::{BehaviorUnit, BodyLayer, Param, QueryBinding, Tag, UnitBody};

fn words(items: &[&str]) -> Vec<String> {
    items.iter().map(|s| s.to_string()).collect()
}

fn tag(name: &str, tokens: &[&str]) -> Tag {
    Tag { name: name.to_string(), tokens: words(tokens) }
}

fn unit(name: &str, tags: Vec<Tag>) -> BehaviorUnit {
    BehaviorUnit {
        name: name.to_string(),
        tags,
        params: Vec::new(),
        yields: false,
        layers: Vec::new(),
        body: UnitBody::Source,
    }
}

fn declared(name: &str, ty: &str) -> Param {
    Param::Declared { name: name.to_string(), ty: ty.to_string() }
}

fn system(phase: PhaseExpr, ordering: OrderingSpec) -> FunctionKind {
    FunctionKind::ScheduledSystem { phase, ordering }
}

fn kind_of(tags: Vec<Tag>) -> Result<FunctionKind, ErrorKind> {
    match classify_unit(&unit("subject", tags)) {
        Ok(draft) => Ok(draft.kind),
        Err(error) => {
            assert_eq!(error.declaration, "subject");
            Err(error.kind)
        }
    }
}

#[test]
fn untagged_unit_is_plain() {
    assert_eq!(kind_of(vec![]), Ok(FunctionKind::Plain));
}

#[test]
fn startup_alias_places_like_canonical_form() {
    let alias = classify_unit(&unit("setup", vec![tag("startup", &[])])).unwrap();
    let canonical = classify_unit(&unit("setup", vec![tag("system", &["startup"])])).unwrap();
    assert_eq!(alias, canonical);
    assert_eq!(alias.kind, system(PhaseExpr::Startup, OrderingSpec::Unspecified));
    assert!(alias.params.is_empty());
    assert!(alias.layers.is_empty());
}

#[test]
fn update_alias_places_like_canonical_form() {
    let alias = classify_unit(&unit("tick", vec![tag("update", &[])])).unwrap();
    let canonical = classify_unit(&unit("tick", vec![tag("system", &["update"])])).unwrap();
    assert_eq!(alias, canonical);
    assert_eq!(alias.kind, system(PhaseExpr::Update, OrderingSpec::Unspecified));
}

#[test]
fn enter_alias_places_like_canonical_form() {
    let state = ["TestState", ":", ":", "Red"];
    let alias = classify_unit(&unit("start_red", vec![tag("enter", &state)])).unwrap();
    let canonical = classify_unit(&unit(
        "start_red",
        vec![tag("system", &["enter", ",", "TestState", ":", ":", "Red"])],
    ))
    .unwrap();
    assert_eq!(alias, canonical);
    assert_eq!(alias.kind, system(PhaseExpr::OnEnter(words(&state)), OrderingSpec::Unspecified));
    assert_eq!(alias.params, vec![Param::StateRead { state: "TestState".to_string() }]);
}

#[test]
fn exit_alias_places_like_canonical_form() {
    let state = ["TestState", ":", ":", "Blue"];
    let alias = classify_unit(&unit("end_blue", vec![tag("exit", &state)])).unwrap();
    let canonical = classify_unit(&unit(
        "end_blue",
        vec![tag("system", &["exit", ",", "TestState", ":", ":", "Blue"])],
    ))
    .unwrap();
    assert_eq!(alias, canonical);
    assert_eq!(alias.kind, system(PhaseExpr::OnExit(words(&state)), OrderingSpec::Unspecified));
    assert_eq!(alias.params, vec![Param::StateRead { state: "TestState".to_string() }]);
}

#[test]
fn bracketed_values_stay_whole() {
    let value = ["Level", "(", "Two", ",", "3", ")"];
    let draft = classify_unit(&unit("reach", vec![tag("enter", &value)])).unwrap();
    assert_eq!(draft.kind, system(PhaseExpr::OnEnter(words(&value)), OrderingSpec::Unspecified));
    assert_eq!(draft.params, vec![Param::StateRead { state: "Level".to_string() }]);
    let bare = ["Level", "Two"];
    let other = classify_unit(&unit("reach", vec![tag("enter", &bare)])).unwrap();
    assert_ne!(draft.kind, other.kind);

    let tags = vec![tag("trigger", &["Hit", ",", "Pair", "<", "(", "A", ",", "B", ")", ">"])];
    assert_eq!(
        kind_of(tags),
        Ok(FunctionKind::Observer {
            event_kind: words(&["Hit"]),
            component_type: words(&["Pair", "<", "(", "A", ",", "B", ")", ">"])
        })
    );

    let tags = vec![tag("query", &["(", "&", "A", ",", "&", "mut", "B", ")", ",", "With", "<", "C", ">"])];
    let draft = classify_unit(&unit("pairs", tags)).unwrap();
    assert_eq!(
        draft.params,
        vec![Param::Query(QueryBinding {
            name: "query1".to_string(),
            inclusion: vec![words(&["(", "&", "A", ",", "&", "mut", "B", ")"])],
            filter: vec![words(&["With", "<", "C", ">"])],
            mutable: true,
        })]
    );
}

#[test]
fn normalizer_forwards_tokens_verbatim() {
    let out = normalize_tag(&tag("enter", &["Game", ":", ":", "Over"]), 0);
    assert_eq!(out, vec![tag("system", &["enter", ",", "Game", ":", ":", "Over"])]);
    let out = normalize_tag(&tag("startup", &[]), 3);
    assert_eq!(out, vec![tag("system", &["startup"])]);
    let out = normalize_tag(&tag("event", &["KeyboardInput"]), 0);
    assert_eq!(out, vec![tag("system", &["update"]), tag("event", &["KeyboardInput"])]);
    let out = normalize_tag(&tag("added", &["Transform"]), 0);
    assert_eq!(out, vec![tag("trigger", &["bevy", ":", ":", "prelude", ":", ":", "OnAdd", ",", "Transform"])]);
    let out = normalize_tag(&tag("removed", &["Transform"]), 0);
    assert_eq!(out, vec![tag("trigger", &["bevy", ":", ":", "prelude", ":", ":", "OnRemove", ",", "Transform"])]);
    let out = normalize_tag(&tag("priority", &["HIGH"]), 0);
    assert_eq!(out, vec![tag("priority", &["HIGH"])]);
}

#[test]
fn normalizer_numbers_queries_by_occurrence() {
    assert_eq!(normalize_tag(&tag("query", &["&", "A"]), 0), vec![tag("query1", &["&", "A"])]);
    assert_eq!(normalize_tag(&tag("query", &["&", "A"]), 1), vec![tag("query2", &["&", "A"])]);
    assert_eq!(normalize_tag(&tag("query", &["&", "A"]), 11), vec![tag("query12", &["&", "A"])]);
}

#[test]
fn build_and_factory_kinds() {
    assert_eq!(kind_of(vec![tag("build", &[])]), Ok(FunctionKind::LifecycleBuild));
    assert_eq!(kind_of(vec![tag("resource_factory", &[])]), Ok(FunctionKind::ResourceFactory));
}

#[test]
fn priority_on_plain_unit_is_ordering_on_non_system() {
    let error = classify_unit(&unit("helper", vec![tag("priority", &["LOW"])])).unwrap_err();
    assert_eq!(error.kind, ErrorKind::OrderingOnNonSystem);
    assert_eq!(error.declaration, "helper");
    assert_eq!(error.tag, "priority");
}

#[test]
fn ordering_tags_need_a_scheduled_system() {
    for name in ["priority", "before", "after", "pipe"] {
        assert_eq!(kind_of(vec![tag(name, &["x"])]), Err(ErrorKind::OrderingOnNonSystem));
        assert_eq!(
            kind_of(vec![tag("build", &[]), tag(name, &["x"])]),
            Err(ErrorKind::OrderingOnNonSystem)
        );
        assert_eq!(
            kind_of(vec![tag("added", &["T"]), tag(name, &["x"])]),
            Err(ErrorKind::OrderingOnNonSystem)
        );
    }
    // the kind is looked at before the tokens
    assert_eq!(kind_of(vec![tag("priority", &[])]), Err(ErrorKind::OrderingOnNonSystem));
}

#[test]
fn unknown_tag_is_rejected() {
    let error = classify_unit(&unit("odd", vec![tag("foo", &["bar"])])).unwrap_err();
    assert_eq!(error.kind, ErrorKind::UnknownTag);
    assert_eq!(error.declaration, "odd");
    assert_eq!(error.tag, "foo");
    assert_eq!(
        kind_of(vec![tag("update", &[]), tag("doc", &["=", "\"text\""])]),
        Err(ErrorKind::UnknownTag)
    );
    assert_eq!(kind_of(vec![tag("query", &["&", "A"]), tag("query0x", &[])]), Err(ErrorKind::UnknownTag));
    assert_eq!(kind_of(vec![tag("queryx", &["&", "A"])]), Err(ErrorKind::UnknownTag));
}

#[test]
fn second_kind_tag_is_duplicate_classification() {
    let both = vec![tag("build", &[]), tag("system", &["update"])];
    let error = classify_unit(&unit("twice", both)).unwrap_err();
    assert_eq!(error.kind, ErrorKind::DuplicateClassification);
    assert_eq!(error.tag, "system");
    assert_eq!(
        kind_of(vec![tag("startup", &[]), tag("update", &[])]),
        Err(ErrorKind::DuplicateClassification)
    );
    assert_eq!(
        kind_of(vec![tag("update", &[]), tag("resource_system", &[])]),
        Err(ErrorKind::DuplicateClassification)
    );
    assert_eq!(
        kind_of(vec![tag("resource_factory", &[]), tag("build", &[])]),
        Err(ErrorKind::DuplicateClassification)
    );
    assert_eq!(
        kind_of(vec![tag("update", &[]), tag("trigger", &["OnAdd", ",", "T"])]),
        Err(ErrorKind::DuplicateClassification)
    );
    assert_eq!(
        kind_of(vec![tag("startup", &[]), tag("event", &["E"])]),
        Err(ErrorKind::DuplicateClassification)
    );
}

#[test]
fn malformed_tags_are_rejected() {
    let cases: Vec<Vec<Tag>> = vec![
        vec![tag("system", &[])],
        vec![tag("system", &["sometimes"])],
        vec![tag("system", &["startup", "twice"])],
        vec![tag("system", &["enter"])],
        vec![tag("system", &["enter", ","])],
        vec![tag("system", &["enter", "State", ":", ":", "A"])],
        vec![tag("enter", &[])],
        vec![tag("startup", &["now"])],
        vec![tag("build", &["x"])],
        vec![tag("resource_factory", &["x"])],
        vec![tag("resource_system", &["x"])],
        vec![tag("update", &[]), tag("priority", &[])],
        vec![tag("update", &[]), tag("priority", &["URGENT"])],
        vec![tag("update", &[]), tag("priority", &["CUSTOM"])],
        vec![tag("update", &[]), tag("priority", &["CUSTOM", "5"])],
        vec![tag("update", &[]), tag("priority", &["CUSTOM", ",", "five"])],
        vec![tag("update", &[]), tag("priority", &["CUSTOM", ",", "4294967296"])],
        vec![tag("update", &[]), tag("priority", &["CUSTOM", ",", ""])],
        vec![tag("update", &[]), tag("before", &[])],
        vec![tag("update", &[]), tag("after", &["a", "b"])],
        vec![tag("trigger", &["OnAdd"])],
        vec![tag("trigger", &["OnAdd", ","])],
        vec![tag("trigger", &[",", "T"])],
        vec![tag("trigger", &["A", ",", "B", ",", "C"])],
        vec![tag("added", &[])],
        vec![tag("event", &[])],
        vec![tag("event", &["A", "B"])],
        vec![tag("query", &[])],
        vec![tag("query", &["&", "A", ","])],
        vec![tag("update", &[]), tag("on", &[])],
        vec![tag("update", &[]), tag("on", &["q", "mut"])],
        vec![tag("update", &[]), tag("on", &["q", ",", "ref"])],
    ];
    for tags in cases {
        let shown = format!("{:?}", tags);
        assert_eq!(kind_of(tags), Err(ErrorKind::MalformedTag), "{}", shown);
    }
}

#[test]
fn priority_ranks_are_read() {
    let ranks = [
        (vec!["LOWEST"], Rank::Lowest),
        (vec!["LOW"], Rank::Low),
        (vec!["NORMAL"], Rank::Normal),
        (vec!["HIGH"], Rank::High),
        (vec!["HIGHEST"], Rank::Highest),
        (vec!["CUSTOM", ",", "0"], Rank::Custom(0)),
        (vec!["CUSTOM", ",", "42"], Rank::Custom(42)),
        (vec!["CUSTOM", ",", "007"], Rank::Custom(7)),
        (vec!["CUSTOM", ",", "4294967295"], Rank::Custom(u32::MAX)),
    ];
    for (tokens, rank) in ranks {
        assert_eq!(
            kind_of(vec![tag("update", &[]), tag("priority", &tokens)]),
            Ok(system(PhaseExpr::Update, OrderingSpec::Priority(rank)))
        );
    }
}

#[test]
fn edges_are_read_and_the_last_ordering_wins() {
    assert_eq!(
        kind_of(vec![tag("system", &["update"]), tag("before", &["update0"])]),
        Ok(system(PhaseExpr::Update, OrderingSpec::Before("update0".to_string())))
    );
    assert_eq!(
        kind_of(vec![tag("startup", &[]), tag("after", &["load"])]),
        Ok(system(PhaseExpr::Startup, OrderingSpec::After("load".to_string())))
    );
    assert_eq!(
        kind_of(vec![tag("update", &[]), tag("pipe", &["sink"])]),
        Ok(system(PhaseExpr::Update, OrderingSpec::Pipe("sink".to_string())))
    );
    assert_eq!(
        kind_of(vec![tag("update", &[]), tag("before", &["a"]), tag("priority", &["HIGH"])]),
        Ok(system(PhaseExpr::Update, OrderingSpec::Priority(Rank::High)))
    );
}

#[test]
fn event_appends_snake_case_reader_and_wraps_body() {
    let mut input = unit("keyboard_input1", vec![tag("event", &["KeyboardInput"])]);
    input.params.push(declared("state", "Res<State<TestState>>"));
    let draft = classify_unit(&input).unwrap();
    assert_eq!(draft.kind, system(PhaseExpr::Update, OrderingSpec::Unspecified));
    assert_eq!(
        draft.params,
        vec![
            declared("state", "Res<State<TestState>>"),
            Param::EventReader {
                name: "keyboard_input".to_string(),
                event: "KeyboardInput".to_string()
            },
        ]
    );
    assert_eq!(
        draft.layers,
        vec![BodyLayer::ForEachEvent { reader: "keyboard_input".to_string() }]
    );
}

#[test]
fn event_reader_name_is_converted_not_copied() {
    let draft = classify_unit(&unit("h", vec![tag("event", &["MouseButtonInput"])])).unwrap();
    match &draft.params[0] {
        Param::EventReader { name, event } => {
            assert_eq!(name, "mouse_button_input");
            assert_eq!(event, "MouseButtonInput");
            assert_ne!(name, event);
        }
        other => panic!("unexpected parameter {:?}", other),
    }
}

#[test]
fn query_splits_selection_from_filters() {
    let tags = vec![
        tag("update", &[]),
        tag("query", &["&", "mut", "Transform", ",", "With", "<", "Visibility", ">"]),
        tag("on", &["query1"]),
    ];
    let draft = classify_unit(&unit("test_cube", tags)).unwrap();
    assert_eq!(draft.kind, system(PhaseExpr::Update, OrderingSpec::Unspecified));
    assert_eq!(
        draft.params,
        vec![Param::Query(QueryBinding {
            name: "query1".to_string(),
            inclusion: vec![words(&["&", "mut", "Transform"])],
            filter: vec![words(&["With", "<", "Visibility", ">"])],
            mutable: true,
        })]
    );
    assert_eq!(
        draft.layers,
        vec![BodyLayer::ForEachMatch { query: "query1".to_string(), mutable: false }]
    );
    assert_eq!(draft.queries, 1);
}

#[test]
fn queries_are_numbered_in_order_and_default_to_update() {
    let tags = vec![
        tag("query", &["&", "A", ",", "Entity"]),
        tag("query", &["&", "B", ",", "Without", "<", "A", ">", ",", "Changed", "<", "B", ">"]),
        tag("on", &["query2", ",", "mut"]),
    ];
    let draft = classify_unit(&unit("pairs", tags)).unwrap();
    assert_eq!(draft.kind, system(PhaseExpr::Update, OrderingSpec::Unspecified));
    assert_eq!(
        draft.params,
        vec![
            Param::Query(QueryBinding {
                name: "query1".to_string(),
                inclusion: vec![words(&["&", "A"]), words(&["Entity"])],
                filter: vec![],
                mutable: false,
            }),
            Param::Query(QueryBinding {
                name: "query2".to_string(),
                inclusion: vec![words(&["&", "B"])],
                filter: vec![
                    words(&["Without", "<", "A", ">"]),
                    words(&["Changed", "<", "B", ">"])
                ],
                mutable: false,
            }),
        ]
    );
    assert_eq!(
        draft.layers,
        vec![BodyLayer::ForEachMatch { query: "query2".to_string(), mutable: true }]
    );
}

#[test]
fn query_of_filters_only_appends_nothing() {
    let tags = vec![tag("query", &["With", "<", "A", ">", ",", "Added", "<", "B", ">"])];
    let draft = classify_unit(&unit("none", tags)).unwrap();
    assert_eq!(draft.kind, system(PhaseExpr::Update, OrderingSpec::Unspecified));
    assert!(draft.params.is_empty());
    assert_eq!(draft.queries, 1);
}

#[test]
fn query_keeps_an_explicit_phase() {
    let tags = vec![tag("startup", &[]), tag("query", &["&", "A"])];
    assert_eq!(kind_of(tags), Ok(system(PhaseExpr::Startup, OrderingSpec::Unspecified)));
}

#[test]
fn a_query_claims_no_kind() {
    let tags = vec![tag("query", &["&", "A"]), tag("startup", &[])];
    assert_eq!(kind_of(tags), Ok(system(PhaseExpr::Startup, OrderingSpec::Unspecified)));
    let tags = vec![tag("query", &["&", "A"]), tag("update", &[]), tag("on", &["query1"])];
    let draft = classify_unit(&unit("q", tags)).unwrap();
    assert_eq!(draft.kind, system(PhaseExpr::Update, OrderingSpec::Unspecified));
    assert!(draft.claimed);
    assert_eq!(draft.params.len(), 1);
    let tags = vec![tag("query", &["&", "A"]), tag("event", &["Hit"])];
    assert_eq!(kind_of(tags), Ok(system(PhaseExpr::Update, OrderingSpec::Unspecified)));
    let tags = vec![tag("query", &["&", "A"]), tag("priority", &["HIGH"])];
    assert_eq!(kind_of(tags), Ok(system(PhaseExpr::Update, OrderingSpec::Priority(Rank::High))));
    let tags = vec![tag("query", &["&", "A"]), tag("build", &[])];
    assert_eq!(kind_of(tags), Ok(FunctionKind::LifecycleBuild));
    let tags = vec![tag("query", &["&", "A"]), tag("build", &[]), tag("startup", &[])];
    assert_eq!(kind_of(tags), Err(ErrorKind::DuplicateClassification));
    let draft = classify_unit(&unit("q", vec![tag("query", &["&", "A"])])).unwrap();
    assert!(!draft.claimed);
}

#[test]
fn a_filter_word_needs_its_bracket() {
    let tags = vec![tag("query", &["With", ",", "Removed", "<", "A", ">"])];
    let draft = classify_unit(&unit("q", tags)).unwrap();
    assert_eq!(
        draft.params,
        vec![Param::Query(QueryBinding {
            name: "query1".to_string(),
            inclusion: vec![words(&["With"])],
            filter: vec![words(&["Removed", "<", "A", ">"])],
            mutable: false,
        })]
    );
}

#[test]
fn trigger_context_comes_first() {
    let mut input = unit("test_transform_added", vec![tag("added", &["Transform"])]);
    input.params.push(declared("query", "Query<&Transform>"));
    let draft = classify_unit(&input).unwrap();
    assert_eq!(
        draft.kind,
        FunctionKind::Observer {
            event_kind: words(&["bevy", ":", ":", "prelude", ":", ":", "OnAdd"]),
            component_type: words(&["Transform"])
        }
    );
    assert_eq!(
        draft.params,
        vec![
            Param::Trigger {
                event_kind: words(&["bevy", ":", ":", "prelude", ":", ":", "OnAdd"]),
                component_type: words(&["Transform"])
            },
            declared("query", "Query<&Transform>"),
        ]
    );
    assert!(draft.layers.is_empty());
}

#[test]
fn removed_and_trigger_make_observers() {
    assert_eq!(
        kind_of(vec![tag("removed", &["Health"])]),
        Ok(FunctionKind::Observer {
            event_kind: words(&["bevy", ":", ":", "prelude", ":", ":", "OnRemove"]),
            component_type: words(&["Health"])
        })
    );
    assert_eq!(
        kind_of(vec![tag("trigger", &["Explode", ",", "game", ":", ":", "Bomb"])]),
        Ok(FunctionKind::Observer {
            event_kind: words(&["Explode"]),
            component_type: words(&["game", ":", ":", "Bomb"])
        })
    );
}

#[test]
fn resource_system_injects_the_handle() {
    let mut input = unit("setup", vec![tag("resource_system", &[])]);
    input.yields = true;
    input.params.push(declared("a", "Res<ResourceA>"));
    let draft = classify_unit(&input).unwrap();
    assert_eq!(draft.kind, system(PhaseExpr::Startup, OrderingSpec::Unspecified));
    assert_eq!(draft.params, vec![declared("a", "Res<ResourceA>"), Param::Handle]);
    assert_eq!(draft.layers, vec![BodyLayer::StoreResult { handle: "commands".to_string() }]);
    assert!(!draft.yields);
}

#[test]
fn resource_system_uses_a_declared_handle() {
    let mut input = unit("setup", vec![tag("resource_system", &[])]);
    input.yields = true;
    input.params.push(declared("commands", "Commands"));
    input.params.push(declared("a", "Res<ResourceA>"));
    let draft = classify_unit(&input).unwrap();
    assert_eq!(
        draft.params,
        vec![declared("commands", "Commands"), declared("a", "Res<ResourceA>")]
    );
    assert_eq!(draft.layers, vec![BodyLayer::StoreResult { handle: "commands".to_string() }]);
    assert!(!draft.yields);
}

#[test]
fn resource_system_rejects_a_handle_of_another_name() {
    let mut input = unit("setup", vec![tag("resource_system", &[])]);
    input.params.push(declared("cmds", "Commands"));
    let error = classify_unit(&input).unwrap_err();
    assert_eq!(error.kind, ErrorKind::MalformedTag);
    assert_eq!(error.tag, "resource_system");
}

#[test]
fn find_handle_tells_the_three_cases() {
    assert_eq!(find_handle(&vec![declared("a", "Res<A>")]), HandleUse::Absent);
    assert_eq!(
        find_handle(&vec![declared("a", "Res<A>"), declared("commands", "Commands")]),
        HandleUse::Present
    );
    assert_eq!(
        find_handle(&vec![declared("commands", "Commands"), declared("c", "Commands")]),
        HandleUse::Conflicting
    );
    assert_eq!(find_handle(&vec![Param::Handle]), HandleUse::Absent);
}

#[test]
fn first_failing_tag_is_reported() {
    let tags = vec![tag("update", &[]), tag("nonsense", &[]), tag("priority", &[])];
    let error = classify_unit(&unit("u", tags)).unwrap_err();
    assert_eq!(error.kind, ErrorKind::UnknownTag);
    assert_eq!(error.tag, "nonsense");
    let tags = vec![tag("priority", &["LOW"]), tag("nonsense", &[])];
    let error = classify_unit(&unit("u", tags)).unwrap_err();
    assert_eq!(error.kind, ErrorKind::OrderingOnNonSystem);
}

#[test]
fn apply_written_tag_counts_queries() {
    let draft = Draft {
        kind: FunctionKind::Plain,
        claimed: false,
        params: Vec::new(),
        yields: false,
        layers: Vec::new(),
        queries: 4,
    };
    let next = apply_written_tag(draft, &tag("query", &["&", "A"])).unwrap();
    assert_eq!(next.queries, 5);
    match &next.params[0] {
        Param::Query(query) => assert_eq!(query.name, "query5"),
        other => panic!("unexpected parameter {:?}", other),
    }
}

#[test]
fn processor_sorts_units_into_methods_and_functions() {
    let mut processor = SystemProcessor::new();
    processor.process_item_fn(unit("helper", vec![])).unwrap();
    processor.process_item_fn(unit("hook", vec![tag("build", &[])])).unwrap();
    processor.process_item_fn(unit("make", vec![tag("resource_factory", &[])])).unwrap();
    processor.process_item_fn(unit("tick", vec![tag("update", &[])])).unwrap();
    processor.process_item_fn(unit("seen", vec![tag("added", &["T"])])).unwrap();
    let methods: Vec<&str> = processor.impl_functions().iter().map(|u| u.name.as_str()).collect();
    let functions: Vec<&str> = processor.base_functions().iter().map(|u| u.name.as_str()).collect();
    assert_eq!(methods, vec!["helper", "hook"]);
    assert_eq!(functions, vec!["make", "tick", "seen"]);
    let names: Vec<&str> = processor.definitions.iter().map(|d| d.name.as_str()).collect();
    assert_eq!(names, vec!["helper", "hook", "make", "tick", "seen"]);
    assert!(processor.base_functions().iter().all(|u| u.tags.is_empty()));
    let mut builds = vec!["earlier".to_string()];
    processor.apply_build(&mut builds);
    assert_eq!(builds, vec!["earlier", "hook"]);
}

#[test]
fn a_name_is_defined_once() {
    let mut processor = SystemProcessor::new();
    processor.process_item_fn(unit("tick", vec![tag("update", &[])])).unwrap();
    assert!(processor.defines("tick"));
    assert!(!processor.defines("tock"));
    let error = processor.process_item_fn(unit("tick", vec![tag("startup", &[])])).unwrap_err();
    assert_eq!(error.kind, ErrorKind::DuplicateClassification);
    assert_eq!(error.declaration, "tick");
    assert_eq!(error.tag, "");
    assert_eq!(processor.definitions.len(), 1);
    assert_eq!(processor.base_functions().len(), 1);
    let error = processor.process_item_fn(unit("tick", vec![tag("foo", &[])])).unwrap_err();
    assert_eq!(error.kind, ErrorKind::UnknownTag);
    processor.process_item_fn(unit("tock", vec![])).unwrap();
    assert_eq!(processor.definitions.len(), 2);
}

#[test]
fn processor_is_unchanged_by_a_failing_unit() {
    let mut processor = SystemProcessor::default();
    processor.process_item_fn(unit("tick", vec![tag("update", &[])])).unwrap();
    let error = processor.process_item_fn(unit("odd", vec![tag("foo", &["bar"])])).unwrap_err();
    assert_eq!(error.kind, ErrorKind::UnknownTag);
    assert_eq!(processor.definitions.len(), 1);
    assert_eq!(processor.base_functions().len(), 1);
    assert!(processor.impl_functions().is_empty());
}
