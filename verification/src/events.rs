//! Event bindings: which handlers listen to which event type, the unit
//! that dispatches pending events to them, and the read cursor through
//! which each handler sees every event exactly once.

use crate::error::{CompileError, CompileErrorModel, ErrorKind};
use crate::groups::{copy_bindings, find_group, with_member, GroupMap, GroupModel};
use crate::kind::{PhaseExpr, PhaseModel};
use crate::registration::{free_set, Registration, RegistrationModel, SystemSet};
use crate::text::{texts_eq, Text};
use crate::classify::{apply_event, DraftModel};
use crate::text::snake_case;
use crate::unit::{
    BehaviorUnit, BodyLayer, BodyModel, LayerModel, Param, ParamModel, Tag, TagModel, UnitBody,
    UnitModel,
};
use vstd::prelude::*;
use vstd::string::*;

verus! {

/// The handlers of every event type, in the order in which the event
/// types were first bound.
#[derive(Debug, PartialEq, Eq)]
pub struct EventSystems {
    pub map: GroupMap,
}

/// The unit that dispatches the pending events of the bound event types:
/// it takes the world, and its body holds the event types with their
/// handlers, each in the order in which it was bound.
pub open spec fn dispatch_unit(groups: Seq<GroupModel>) -> UnitModel {
    UnitModel {
        name: "_plugin_events"@,
        tags: Seq::<TagModel>::empty(),
        params: seq![ParamModel::Declared { name: "world"@, ty: "&mut World"@ }],
        yields: false,
        layers: Seq::<LayerModel>::empty(),
        body: BodyModel::EventDispatch { groups },
    }
}

/// The call that registers a derived unit, free of any order, in `phase`.
pub open spec fn lone_system_call(phase: PhaseModel, name: Text) -> RegistrationModel {
    RegistrationModel::AddSystems { phase, set: free_set(seq![name]) }
}

/// Builds the call that registers one unit, free of any order, in `phase`.
pub fn lone_system(phase: PhaseExpr, name: &str) -> (call: Registration)
    ensures
        call@ == lone_system_call(phase@, name@),
{
    let mut systems: Vec<String> = Vec::new();
    systems.push(String::from_str(name));
    assert(systems.deep_view() =~= seq![name@]);
    Registration::AddSystems { phase, set: SystemSet::unordered(systems) }
}

impl EventSystems {
    /// The runs that one dispatch makes for the event type `event`, whose
    /// pending events are `pending`: each handler bound to that type, in
    /// the order of binding, once for each pending event, in arrival
    /// order; none where no handler is bound to the type.
    pub fn dispatch<E: Copy>(&self, event: &Vec<String>, pending: &Vec<E>) -> (runs: Vec<Run<E>>)
        ensures
            run_views(runs@) == dispatch_runs(self.map@, event.deep_view(), pending@),
    {
        let mut i: usize = 0;
        while i < self.map.groups.len()
            invariant
                i <= self.map.groups.len(),
                find_group(self.map@, event.deep_view(), 0) == find_group(
                    self.map@,
                    event.deep_view(),
                    i as int,
                ),
            decreases self.map.groups.len() - i,
        {
            assert(self.map@[i as int] == self.map.groups[i as int]@);
            if texts_eq(&self.map.groups[i].key, event) {
                return run_handlers(&self.map.groups[i].members, pending);
            }
            i += 1;
        }
        let runs: Vec<Run<E>> = Vec::new();
        assert(run_views(runs@) =~= Seq::<(Text, E)>::empty());
        runs
    }

    /// No event bound.
    pub fn new() -> (events: EventSystems)
        ensures
            events.map@ == Seq::<GroupModel>::empty(),
            events.map.wf(),
    {
        EventSystems { map: GroupMap::new() }
    }

    /// Binds a unit to the event type that its `event(E)` tag names: the
    /// unit gains read access to the current event, and is recorded among
    /// the handlers of `E`. A tag that does not carry exactly one token is
    /// malformed, and changes nothing.
    pub fn push(&mut self, input: &mut BehaviorUnit, attr: &Tag) -> (out: Result<
        (),
        CompileError,
    >)
        ensures
            old(self).map.wf() ==> final(self).map.wf(),
            match out {
                Ok(()) => {
                    &&& attr@.tokens.len() == 1
                    &&& final(input)@ == (UnitModel {
                        params: old(input)@.params.push(
                            ParamModel::Current { ty: attr@.tokens[0] },
                        ),
                        ..old(input)@
                    })
                    &&& final(self).map@ == with_member(
                        old(self).map@,
                        attr@.tokens,
                        old(input)@.name,
                    )
                },
                Err(error) => {
                    &&& attr@.tokens.len() != 1
                    &&& error@ == (CompileErrorModel {
                        kind: ErrorKind::MalformedTag,
                        declaration: old(input)@.name,
                        tag: attr@.name,
                    })
                    &&& final(input)@ == old(input)@
                    &&& final(self).map@ == old(self).map@
                },
            },
    {
        if attr.tokens.len() != 1 {
            return Err(
                CompileError::new(
                    ErrorKind::MalformedTag,
                    input.name.as_str(),
                    attr.name.as_str(),
                ),
            );
        }
        assert(attr@.tokens[0] == attr.tokens[0]@);
        let ghost before = input.params.deep_view();
        input.params.push(Param::Current { ty: attr.tokens[0].clone() });
        assert(input.params.deep_view() =~= before.push(
            ParamModel::Current { ty: attr@.tokens[0] },
        ));
        self.map.add(&attr.tokens, input.name.as_str());
        Ok(())
    }

    /// Where any event is bound, appends to `output` the dispatching unit,
    /// whose body holds every bound event type with its handlers, and to
    /// `app_ext` its registration in the update phase; where none is,
    /// appends nothing.
    pub fn append(&self, output: &mut Vec<BehaviorUnit>, app_ext: &mut Vec<Registration>)
        ensures
            final(output).deep_view() == if self.map@.len() == 0 {
                old(output).deep_view()
            } else {
                old(output).deep_view().push(dispatch_unit(self.map@))
            },
            final(app_ext).deep_view() == if self.map@.len() == 0 {
                old(app_ext).deep_view()
            } else {
                old(app_ext).deep_view().push(
                    lone_system_call(PhaseModel::Update, "_plugin_events"@),
                )
            },
    {
        if self.map.is_empty() {
            return ;
        }
        let ghost units = output.deep_view();
        let ghost calls = app_ext.deep_view();
        let tags = Vec::new();
        let layers = Vec::new();
        let mut params: Vec<Param> = Vec::new();
        params.push(
            Param::Declared { name: String::from_str("world"), ty: String::from_str("&mut World") },
        );
        assert(tags.deep_view() =~= Seq::<TagModel>::empty());
        assert(layers.deep_view() =~= Seq::<LayerModel>::empty());
        assert(params.deep_view() =~= seq![
            ParamModel::Declared { name: "world"@, ty: "&mut World"@ },
        ]);
        output.push(
            BehaviorUnit {
                name: String::from_str("_plugin_events"),
                tags,
                params,
                yields: false,
                layers,
                body: UnitBody::EventDispatch { groups: copy_bindings(&self.map.groups) },
            },
        );
        assert(output.deep_view() =~= units.push(dispatch_unit(self.map@)));
        app_ext.push(lone_system(PhaseExpr::Update, "_plugin_events"));
        assert(app_ext.deep_view() =~= calls.push(
            lone_system_call(PhaseModel::Update, "_plugin_events"@),
        ));
    }
}

/// One run of a handler by the dispatching unit: the handler, and the
/// event that is its current value during the run.
#[derive(Debug, PartialEq, Eq)]
pub struct Run<E> {
    pub handler: String,
    pub event: E,
}

/// The mathematical value of a sequence of runs: handler and event of
/// each, in order.
pub open spec fn run_views<E>(runs: Seq<Run<E>>) -> Seq<(Text, E)> {
    Seq::new(runs.len(), |i: int| (runs[i].handler@, runs[i].event))
}

/// The runs of one handler over the pending events: one per event, in
/// arrival order.
pub open spec fn handler_runs<E>(handler: Text, pending: Seq<E>) -> Seq<(Text, E)> {
    Seq::new(pending.len(), |i: int| (handler, pending[i]))
}

/// The runs of the handlers of one event type over its pending events:
/// handler by handler in the order in which they were bound, each over
/// every pending event.
pub open spec fn handlers_runs<E>(handlers: Seq<Text>, pending: Seq<E>) -> Seq<(Text, E)>
    decreases handlers.len(),
{
    if handlers.len() == 0 {
        Seq::<(Text, E)>::empty()
    } else {
        handlers_runs(handlers.drop_last(), pending) + handler_runs(handlers.last(), pending)
    }
}

/// The runs that one dispatch makes for the event type `event`, whose
/// pending events are `pending`: those of the handlers bound to that type,
/// and none where no handler is bound to it.
pub open spec fn dispatch_runs<E>(groups: Seq<GroupModel>, event: Seq<Text>, pending: Seq<E>)
    -> Seq<(Text, E)> {
    match find_group(groups, event, 0) {
        Some(at) => handlers_runs(groups[at].members, pending),
        None => Seq::<(Text, E)>::empty(),
    }
}

/// The runs of the handlers of one event type over its pending events.
pub fn run_handlers<E: Copy>(handlers: &Vec<String>, pending: &Vec<E>) -> (runs: Vec<Run<E>>)
    ensures
        run_views(runs@) == handlers_runs(handlers.deep_view(), pending@),
{
    let mut runs: Vec<Run<E>> = Vec::new();
    let mut h: usize = 0;
    assert(handlers.deep_view().take(0) =~= Seq::<Text>::empty());
    assert(run_views(runs@) =~= Seq::<(Text, E)>::empty());
    while h < handlers.len()
        invariant
            h <= handlers.len(),
            run_views(runs@) == handlers_runs(handlers.deep_view().take(h as int), pending@),
        decreases handlers.len() - h,
    {
        let ghost before = run_views(runs@);
        proof {
            assert(handlers.deep_view().take(h + 1).drop_last() =~= handlers.deep_view().take(
                h as int,
            ));
            assert(handlers.deep_view().take(h + 1).last() == handlers[h as int]@);
        }
        let mut e: usize = 0;
        while e < pending.len()
            invariant
                e <= pending.len(),
                h < handlers.len(),
                run_views(runs@) == before + handler_runs(
                    handlers[h as int]@,
                    pending@.take(e as int),
                ),
            decreases pending.len() - e,
        {
            let ghost so_far = run_views(runs@);
            runs.push(Run { handler: handlers[h].clone(), event: pending[e] });
            assert(run_views(runs@) =~= so_far.push((handlers[h as int]@, pending[e as int])));
            assert(run_views(runs@) =~= before + handler_runs(
                handlers[h as int]@,
                pending@.take(e + 1),
            ));
            e += 1;
        }
        assert(pending@.take(e as int) =~= pending@);
        h += 1;
    }
    assert(handlers.deep_view().take(h as int) =~= handlers.deep_view());
    runs
}

/// The runs of two lists of handlers, one after the other, are the runs
/// of the first list followed by the runs of the second.
pub proof fn lemma_handlers_runs_concat<E>(first: Seq<Text>, second: Seq<Text>, pending: Seq<E>)
    ensures
        handlers_runs(first + second, pending) == handlers_runs(first, pending) + handlers_runs(
            second,
            pending,
        ),
    decreases second.len(),
{
    if second.len() == 0 {
        assert(first + second =~= first);
        assert(handlers_runs(first, pending) + Seq::<(Text, E)>::empty() =~= handlers_runs(
            first,
            pending,
        ));
    } else {
        assert((first + second).drop_last() =~= first + second.drop_last());
        assert((first + second).last() == second.last());
        lemma_handlers_runs_concat(first, second.drop_last(), pending);
        assert(handlers_runs(first + second, pending) =~= handlers_runs(first, pending)
            + handlers_runs(second, pending));
    }
}

/// Each handler runs once per pending event, in arrival order: the runs
/// of one dispatch are the runs of the handlers bound before the handler
/// at `at`, then that handler with each pending event in arrival order,
/// then the runs of the handlers bound after it. Nothing of one handler's
/// runs depends on another handler.
pub proof fn lemma_each_handler_runs_once_per_event<E>(
    handlers: Seq<Text>,
    pending: Seq<E>,
    at: int,
)
    requires
        0 <= at < handlers.len(),
    ensures
        handlers_runs(handlers, pending) == handlers_runs(handlers.take(at), pending)
            + handler_runs(handlers[at], pending) + handlers_runs(
            handlers.skip(at + 1),
            pending,
        ),
        handler_runs(handlers[at], pending).len() == pending.len(),
        forall|i: int|
            0 <= i < pending.len() ==> (#[trigger] handler_runs(handlers[at], pending)[i]) == (
                handlers[at],
                pending[i],
            ),
{
    let before = handlers.take(at);
    let one = seq![handlers[at]];
    let after = handlers.skip(at + 1);
    assert(handlers =~= (before + one) + after);
    lemma_handlers_runs_concat(before + one, after, pending);
    lemma_handlers_runs_concat(before, one, pending);
    assert(one.drop_last() =~= Seq::<Text>::empty());
    assert(one.last() == handlers[at]);
    assert(handlers_runs(one.drop_last(), pending) =~= Seq::<(Text, E)>::empty());
    assert(handlers_runs(one, pending) == handlers_runs(one.drop_last(), pending) + handler_runs(
        one.last(),
        pending,
    ));
    assert(handlers_runs(one, pending) =~= handler_runs(handlers[at], pending));
}

/// `n` handlers over `m` pending events make `n * m` runs.
pub proof fn lemma_dispatch_run_count<E>(handlers: Seq<Text>, pending: Seq<E>)
    ensures
        handlers_runs(handlers, pending).len() == handlers.len() * pending.len(),
    decreases handlers.len(),
{
    let n = handlers.len() as int;
    let m = pending.len() as int;
    if n == 0 {
        assert(0 * m == 0) by (nonlinear_arith);
    } else {
        lemma_dispatch_run_count(handlers.drop_last(), pending);
        assert((n - 1) * m + m == n * m) by (nonlinear_arith);
    }
}

/// The read position of one handler over the events of one type. Every
/// handler has its own: what one handler has read does not move another.
#[derive(Debug, PartialEq, Eq)]
pub struct EventCursor {
    pub next: usize,
}

/// The events that a reader at position `next` has not read yet, in
/// arrival order.
pub open spec fn unread<E>(events: Seq<E>, next: nat) -> Seq<E> {
    if next <= events.len() {
        events.skip(next as int)
    } else {
        Seq::<E>::empty()
    }
}

impl EventCursor {
    /// A cursor that has read nothing.
    pub fn new() -> (cursor: EventCursor)
        ensures
            cursor.next == 0,
    {
        EventCursor { next: 0 }
    }

    /// Reads the pending events: gives every event that arrived since this
    /// cursor last read, in arrival order, and moves the cursor behind the
    /// last of them.
    pub fn read<E: Copy>(&mut self, events: &Vec<E>) -> (seen: Vec<E>)
        ensures
            seen@ == unread(events@, old(self).next as nat),
            final(self).next == events.len(),
    {
        let mut seen: Vec<E> = Vec::new();
        let start = self.next;
        let mut i: usize = start;
        while i < events.len()
            invariant
                start <= i,
                start <= events.len() ==> i <= events.len(),
                start <= events.len() ==> seen@ == events@.subrange(start as int, i as int),
                start > events.len() ==> seen@ == Seq::<E>::empty(),
            decreases events.len() - i,
        {
            let ghost before = seen@;
            seen.push(events[i]);
            assert(seen@ =~= events@.subrange(start as int, i + 1));
            i += 1;
        }
        self.next = events.len();
        assert(seen@ =~= unread(events@, start as nat));
        seen
    }
}

/// The events that one run of a unit binds the body to through a layer,
/// where the unit's reader had read `next` events before: a
/// for-each-event layer binds every unread event, in arrival order; no
/// other layer binds an event.
pub open spec fn layer_events<E>(layer: LayerModel, events: Seq<E>, next: nat) -> Seq<E> {
    match layer {
        LayerModel::ForEachEvent { .. } => unread(events, next),
        _ => Seq::<E>::empty(),
    }
}

/// Runs one layer of a unit over the events of its type: gives the events
/// that the body is bound to, in order. A for-each-event layer reads
/// through the unit's own cursor and moves it; any other layer leaves the
/// cursor where it is.
pub fn run_layer<E: Copy>(layer: &BodyLayer, cursor: &mut EventCursor, events: &Vec<E>) -> (bound:
    Vec<E>)
    ensures
        bound@ == layer_events(layer@, events@, old(cursor).next as nat),
        final(cursor).next == if layer@ is ForEachEvent {
            events.len()
        } else {
            old(cursor).next
        },
{
    match layer {
        BodyLayer::ForEachEvent { reader: _ } => cursor.read(events),
        _ => Vec::new(),
    }
}

/// A unit tagged `event(E)` is served by a reader of its own: the tag
/// appends, as the unit's last parameter, a reader over `E`, and, as its
/// outermost layer, the loop over that very reader; one run of the layer
/// binds the body to exactly what the reader's cursor has not read, each
/// event once, in arrival order. With `n` unread events the body runs `n`
/// times, with none it does not run.
pub proof fn lemma_event_layer_reads_by_the_units_own_reader<E>(
    draft: DraftModel,
    tag: TagModel,
    events: Seq<E>,
    next: nat,
)
    requires
        apply_event(draft, tag) is Ok,
    ensures
        ({
            let served = apply_event(draft, tag)->Ok_0;
            &&& served.params.last() == (ParamModel::EventReader {
                name: snake_case(tag.tokens[0]),
                event: tag.tokens[0],
            })
            &&& served.layers.last() == (LayerModel::ForEachEvent {
                reader: snake_case(tag.tokens[0]),
            })
            &&& served.params.drop_last() == draft.params
            &&& served.layers.drop_last() == draft.layers
            &&& layer_events(served.layers.last(), events, next) == unread(events, next)
            &&& next <= events.len() ==> layer_events(served.layers.last(), events, next).len()
                == events.len() - next
        }),
{
    let served = apply_event(draft, tag)->Ok_0;
    assert(served.params.drop_last() =~= draft.params);
    assert(served.layers.drop_last() =~= draft.layers);
}

/// A handler that had read everything sees, at the next dispatch, exactly
/// the events emitted since: all of them, in arrival order, none twice
/// and none missing. Two handlers of one event type both do, whichever
/// reads first, because each has a cursor of its own.
pub proof fn lemma_every_handler_sees_what_was_emitted<E>(
    earlier: Seq<E>,
    emitted: Seq<E>,
    first: EventCursor,
    second: EventCursor,
)
    requires
        first.next == earlier.len(),
        second.next == earlier.len(),
    ensures
        unread(earlier + emitted, first.next as nat) == emitted,
        unread(earlier + emitted, second.next as nat) == emitted,
{
    assert((earlier + emitted).skip(earlier.len() as int) =~= emitted);
}

/// Two reads in a row deliver every pending event exactly once: what the
/// first read gave, followed by what the second gave, is what one read at
/// the end would have given.
pub proof fn lemma_successive_reads_deliver_once<E>(events: Seq<E>, next: nat, between: nat)
    requires
        next <= between <= events.len(),
    ensures
        unread(events.take(between as int), next) + unread(events, between) == unread(
            events,
            next,
        ),
{
    assert(events.take(between as int).skip(next as int) + events.skip(between as int)
        =~= events.skip(next as int));
}

} // verus!
