use mod_plugins::basic::BasicSystems;
use bevy::prelude::World;
use mod_plugins::current::{Current, Executable};
use mod_plugins::error::ErrorKind;
use mod_plugins::events::{run_handlers, run_layer, EventCursor, EventSystems, Run};
use mod_plugins::executable::executable;
use mod_plugins::groups::{Group, GroupMap};
use mod_plugins::kind::PhaseExpr;
use mod_plugins::prefab::{derive_cleanup, despawns, run_body, run_cleanup, ScopeLocal};
use mod_plugins::registration::{Registration, SystemSet};
use mod_plugins::resources::ResourceSystems;
use mod_plugins::states::{StateSystems, StateType};
use mod_plugins::unit::{BehaviorUnit, BodyLayer, Param, Tag, UnitBody};

fn list(items: &[&str]) -> Vec<String> {
    items.iter().map(|s| s.to_string()).collect()
}

fn label(name: &str, tokens: &[&str]) -> Tag {
    Tag { name: name.to_string(), tokens: list(tokens) }
}

fn handler(name: &str) -> BehaviorUnit {
    BehaviorUnit {
        name: name.to_string(),
        tags: Vec::new(),
        params: Vec::new(),
        yields: false,
        layers: Vec::new(),
        body: UnitBody::Source,
    }
}

fn free_call(phase: PhaseExpr, systems: &[&str]) -> Registration {
    Registration::AddSystems {
        phase,
        set: SystemSet { chain: vec![], edges: vec![], free: list(systems) },
    }
}

#[test]
fn two_handlers_each_observe_every_event_in_order() {
    let mut events: Vec<u64> = vec![90, 91];
    let mut h1 = EventCursor::new();
    let mut h2 = EventCursor::new();
    assert_eq!(h1.read(&events), vec![90, 91]);
    assert_eq!(h2.read(&events), vec![90, 91]);
    events.push(1);
    events.push(2);
    assert_eq!(h1.read(&events), vec![1, 2]);
    assert_eq!(h1.read(&events), Vec::<u64>::new());
    assert_eq!(h2.read(&events), vec![1, 2]);
    assert_eq!(h2.read(&events), Vec::<u64>::new());
    assert_eq!(h1.next, 4);
    assert_eq!(h2.next, 4);
}

#[test]
fn a_late_handler_catches_up_without_disturbing_others() {
    let mut events: Vec<char> = Vec::new();
    let mut eager = EventCursor::new();
    let mut lazy = EventCursor::new();
    events.push('a');
    assert_eq!(eager.read(&events), vec!['a']);
    events.push('b');
    events.push('c');
    assert_eq!(eager.read(&events), vec!['b', 'c']);
    assert_eq!(lazy.read(&events), vec!['a', 'b', 'c']);
    events.push('d');
    assert_eq!(lazy.read(&events), vec!['d']);
    assert_eq!(eager.read(&events), vec!['d']);
}

#[test]
fn a_cursor_beyond_the_events_reads_nothing() {
    let mut cursor = EventCursor { next: 5 };
    assert_eq!(cursor.read(&vec![1u8, 2]), Vec::<u8>::new());
    assert_eq!(cursor.next, 2);
}

#[test]
fn exactly_one_cleanup_despawns_a_scoped_entity() {
    let cube = ScopeLocal("Exists".to_string());
    assert!(despawns(&cube, "DoesNotExist"));
    assert!(!despawns(&cube, "Exists"));
    let ghost = ScopeLocal("DoesNotExist".to_string());
    assert!(despawns(&ghost, "Exists"));
    assert!(!despawns(&ghost, "DoesNotExist"));
    for scope in [&cube, &ghost] {
        let removed = [despawns(scope, "Exists"), despawns(scope, "DoesNotExist")];
        assert_eq!(removed.iter().filter(|gone| **gone).count(), 1);
    }
}

#[test]
fn cleanup_keeps_only_the_entities_of_the_entered_variant() {
    let scopes = vec![
        ScopeLocal("Exists".to_string()),
        ScopeLocal("DoesNotExist".to_string()),
        ScopeLocal("Exists".to_string()),
    ];
    assert_eq!(run_cleanup(&scopes, "Exists"), vec![0, 2]);
    assert_eq!(run_cleanup(&scopes, "DoesNotExist"), vec![1]);
    assert_eq!(run_cleanup(&scopes, "Other"), Vec::<usize>::new());
    assert_eq!(run_cleanup(&Vec::new(), "Exists"), Vec::<usize>::new());
}

#[test]
fn current_wraps_a_value() {
    let mut current = Current::new(vec![1, 2]);
    assert_eq!(current.get(), &vec![1, 2]);
    current.get_mut().push(3);
    assert_eq!(current.get(), &vec![1, 2, 3]);
    assert_eq!(current.len(), 3);
    let copy = current.clone();
    assert_eq!(current.into_inner(), vec![1, 2, 3]);
    assert_eq!(copy.into_inner(), vec![1, 2, 3]);
}

struct Spawner(u32);

impl Executable<u32> for Spawner {
    fn execute(self: Box<Self>, world: &mut World) -> u32 {
        for _ in 0..self.0 {
            world.spawn_empty();
        }
        world.entities().len()
    }
}

#[test]
fn executable_runs_on_the_world() {
    let mut world = World::new();
    assert_eq!(Box::new(Spawner(3)).execute(&mut world), 3);
    assert_eq!(Box::new(Spawner(2)).execute(&mut world), 5);
}

#[test]
fn executable_appends_the_current_value() {
    let mut input = handler("spawn_cube");
    input.params.push(Param::Declared { name: "commands".to_string(), ty: "Commands".to_string() });
    let (implementation, unit) = executable("Cube", input, None);
    assert_eq!(implementation.target, "Cube");
    assert_eq!(implementation.function, "spawn_cube");
    assert_eq!(implementation.output, "()");
    assert_eq!(
        unit.params,
        vec![
            Param::Declared { name: "commands".to_string(), ty: "Commands".to_string() },
            Param::Current { ty: "Box<Cube>".to_string() },
        ]
    );
    let (implementation, _) = executable("Cube", handler("count"), Some("usize".to_string()));
    assert_eq!(implementation.output, "usize");
}

#[test]
fn group_map_groups_by_first_occurrence() {
    let mut map = GroupMap::new();
    assert!(map.is_empty());
    map.add(&list(&["A"]), "one");
    map.add(&list(&["B"]), "two");
    map.add(&list(&["A"]), "three");
    map.add(&list(&["A", "B"]), "four");
    assert!(!map.is_empty());
    assert_eq!(
        map.groups,
        vec![
            Group { key: list(&["A"]), members: list(&["one", "three"]) },
            Group { key: list(&["B"]), members: list(&["two"]) },
            Group { key: list(&["A", "B"]), members: list(&["four"]) },
        ]
    );
}

#[test]
fn event_systems_bind_handlers() {
    let mut events = EventSystems::new();
    let mut first = handler("keyboard_input1");
    let mut second = handler("keyboard_input2");
    let mut mouse = handler("mouse_input1");
    events.push(&mut first, &label("event", &["KeyboardInput"])).unwrap();
    events.push(&mut second, &label("event", &["KeyboardInput"])).unwrap();
    events.push(&mut mouse, &label("event", &["MouseButtonInput"])).unwrap();
    assert_eq!(first.params, vec![Param::Current { ty: "KeyboardInput".to_string() }]);
    assert_eq!(mouse.params, vec![Param::Current { ty: "MouseButtonInput".to_string() }]);
    assert_eq!(
        events.map.groups,
        vec![
            Group {
                key: list(&["KeyboardInput"]),
                members: list(&["keyboard_input1", "keyboard_input2"])
            },
            Group { key: list(&["MouseButtonInput"]), members: list(&["mouse_input1"]) },
        ]
    );
    let mut output = Vec::new();
    let mut calls = Vec::new();
    events.append(&mut output, &mut calls);
    assert_eq!(output.len(), 1);
    assert_eq!(output[0].name, "_plugin_events");
    assert_eq!(
        output[0].body,
        UnitBody::EventDispatch {
            groups: vec![
                Group {
                    key: list(&["KeyboardInput"]),
                    members: list(&["keyboard_input1", "keyboard_input2"])
                },
                Group { key: list(&["MouseButtonInput"]), members: list(&["mouse_input1"]) },
            ]
        }
    );
    assert_eq!(calls, vec![free_call(PhaseExpr::Update, &["_plugin_events"])]);
}

fn run(handler: &str, event: u32) -> Run<u32> {
    Run { handler: handler.to_string(), event }
}

#[test]
fn one_dispatch_runs_each_handler_once_per_pending_event() {
    let mut events = EventSystems::new();
    let mut h1 = handler("h1");
    let mut h2 = handler("h2");
    let mut other = handler("m");
    events.push(&mut h1, &label("event", &["E"])).unwrap();
    events.push(&mut other, &label("event", &["M"])).unwrap();
    events.push(&mut h2, &label("event", &["E"])).unwrap();
    assert_eq!(
        events.dispatch(&list(&["E"]), &vec![1u32, 2]),
        vec![run("h1", 1), run("h1", 2), run("h2", 1), run("h2", 2)]
    );
    assert_eq!(events.dispatch(&list(&["M"]), &vec![7u32]), vec![run("m", 7)]);
    assert_eq!(events.dispatch(&list(&["E"]), &Vec::<u32>::new()), vec![]);
    assert_eq!(events.dispatch(&list(&["Unbound"]), &vec![1u32, 2]), vec![]);
    assert_eq!(
        run_handlers(&list(&["a", "b", "c"]), &vec![5u32]),
        vec![run("a", 5), run("b", 5), run("c", 5)]
    );
    assert_eq!(run_handlers(&list(&[]), &vec![5u32]), vec![]);
}

#[test]
fn an_event_layer_reads_through_the_units_own_cursor() {
    let layer = BodyLayer::ForEachEvent { reader: "hit".to_string() };
    let events = vec![10u8, 11, 12];
    let mut first = EventCursor::new();
    let mut second = EventCursor { next: 2 };
    assert_eq!(run_layer(&layer, &mut first, &events), vec![10, 11, 12]);
    assert_eq!(run_layer(&layer, &mut first, &events), Vec::<u8>::new());
    assert_eq!(run_layer(&layer, &mut second, &events), vec![12]);
    assert_eq!((first.next, second.next), (3, 3));
    let other = BodyLayer::ForEachMatch { query: "q".to_string(), mutable: false };
    let mut idle = EventCursor { next: 1 };
    assert_eq!(run_layer(&other, &mut idle, &events), Vec::<u8>::new());
    assert_eq!(idle.next, 1);
}

#[test]
fn a_derived_cleanup_unit_runs_the_cleanup_of_its_variant() {
    let scopes = vec![
        ScopeLocal("Exists".to_string()),
        ScopeLocal("DoesNotExist".to_string()),
        ScopeLocal("Exists".to_string()),
    ];
    let leave = derive_cleanup("CubeState", "DoesNotExist");
    let enter = derive_cleanup("CubeState", "Exists");
    assert_eq!(run_body(&leave.body, &scopes), vec![1]);
    assert_eq!(run_body(&enter.body, &scopes), vec![0, 2]);
    assert_eq!(run_body(&UnitBody::Source, &scopes), vec![0, 1, 2]);
}

#[test]
fn event_systems_reject_a_bare_tag() {
    let mut events = EventSystems::new();
    let mut unit = handler("h");
    let error = events.push(&mut unit, &label("event", &[])).unwrap_err();
    assert_eq!(error.kind, ErrorKind::MalformedTag);
    assert_eq!(error.declaration, "h");
    assert_eq!(error.tag, "event");
    assert!(unit.params.is_empty());
    assert!(events.map.is_empty());
    let mut output = Vec::new();
    let mut calls = Vec::new();
    events.append(&mut output, &mut calls);
    assert!(output.is_empty());
    assert!(calls.is_empty());
}

#[test]
fn state_systems_group_hooks_by_state_value() {
    let mut states = StateSystems::new();
    let red = ["TestState", ":", ":", "Red"];
    let blue = ["TestState", ":", ":", "Blue"];
    states.push(StateType::Enter, &label("enter", &red), "start_red").unwrap();
    states.push(StateType::Exit, &label("exit", &red), "end_red").unwrap();
    states.push(StateType::Enter, &label("enter", &blue), "start_blue").unwrap();
    states.push(StateType::Enter, &label("enter", &red), "paint").unwrap();
    let error = states.push(StateType::Exit, &label("exit", &[]), "lost").unwrap_err();
    assert_eq!(error.kind, ErrorKind::MalformedTag);
    assert_eq!(error.declaration, "lost");
    let mut calls = Vec::new();
    states.append(&mut calls);
    assert_eq!(
        calls,
        vec![
            free_call(PhaseExpr::OnEnter(list(&red)), &["start_red", "paint"]),
            free_call(PhaseExpr::OnEnter(list(&blue)), &["start_blue"]),
            free_call(PhaseExpr::OnExit(list(&red)), &["end_red"]),
        ]
    );
}

#[test]
fn basic_systems_register_each_phase_once() {
    let mut basic = BasicSystems::new();
    let mut calls = Vec::new();
    basic.append(&mut calls);
    assert!(calls.is_empty());
    basic.push_update("tick".to_string());
    basic.push_startup("setup".to_string());
    basic.push_update("tock".to_string());
    basic.append(&mut calls);
    assert_eq!(
        calls,
        vec![
            free_call(PhaseExpr::Startup, &["setup"]),
            free_call(PhaseExpr::Update, &["tick", "tock"]),
        ]
    );
}

#[test]
fn resource_systems_emit_defaults_factories_and_the_inserting_unit() {
    let mut resources = ResourceSystems::new();
    let mut output = Vec::new();
    let mut calls = Vec::new();
    resources.push_factory("create_b".to_string());
    resources.push_default("ResourceA".to_string());
    resources.append(&mut output, &mut calls);
    assert!(output.is_empty());
    assert_eq!(
        calls,
        vec![
            Registration::InitResource("ResourceA".to_string()),
            Registration::InsertFactory("create_b".to_string()),
        ]
    );
    resources.push_system("setup".to_string());
    let mut calls = Vec::new();
    resources.append(&mut output, &mut calls);
    assert_eq!(output.len(), 1);
    assert_eq!(output[0].name, "_insert_resources");
    resources.push_system("later".to_string());
    let mut second = Vec::new();
    resources.append(&mut second, &mut Vec::new());
    assert_eq!(output[0].body, UnitBody::ResourceInsertion { systems: list(&["setup"]) });
    assert_eq!(
        second[0].body,
        UnitBody::ResourceInsertion { systems: list(&["setup", "later"]) }
    );
    assert_eq!(
        calls,
        vec![
            Registration::InitResource("ResourceA".to_string()),
            Registration::InsertFactory("create_b".to_string()),
            free_call(PhaseExpr::Startup, &["_insert_resources"]),
        ]
    );
}
