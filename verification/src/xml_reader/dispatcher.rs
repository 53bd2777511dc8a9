//! The event dispatcher and its handler stack. The stack is seeded with one
//! root handler; the current top handler decides the handler for each child
//! element, text runs go to the top handler, and an element end pops the
//! top handler, collecting the record it finished, if any.

use vstd::prelude::*;

use crate::android_string::{AndroidString, AndroidStringV};
use crate::error::Error;
use crate::events::{clone_attributes, Attribute, AttributeV, ParseEvent, ParseEventV};
use crate::xml_reader::string_event_handler::{missing_name_message, spec_appended, spec_build,
    spec_cdata_wrapped, StringEventHandler, StringEventHandlerV};

verus! {

/// Mathematical model of an [`EventHandler`].
pub ghost enum SpecHandler {
    Root,
    Sinking,
    Entry(StringEventHandlerV),
}

/// The dispatcher's state: the handler stack (bottom first) and the records
/// collected so far.
pub ghost struct DispatchState {
    pub stack: Seq<SpecHandler>,
    pub out: Seq<AndroidStringV>,
}

/// The two structural faults dispatch can hit.
pub ghost enum ParseFault {
    /// An entry element without the required name attribute.
    MissingName,
    /// An element end with only the root handler on the stack.
    UnmatchedEnd,
}

/// The message carried by the syntax error for an element end that has no
/// enclosing element start.
pub open spec fn unmatched_end_message() -> Seq<char> {
    "end of element with no enclosing element"@
}

/// The handler the current top produces for a child element: the root
/// handler recognises the entry tag and keeps looking for entries below any
/// other tag; an entry handler sinks its child elements, entry content
/// being text-only; a sinking handler sinks everything below it.
pub open spec fn spec_child(
    h: SpecHandler,
    tag_name: Seq<char>,
    attributes: Seq<AttributeV>,
) -> Result<SpecHandler, ParseFault> {
    match h {
        SpecHandler::Root => {
            if tag_name == "string"@ {
                match spec_build(attributes) {
                    Some(e) => Ok(SpecHandler::Entry(e)),
                    None => Err(ParseFault::MissingName),
                }
            } else {
                Ok(SpecHandler::Root)
            }
        },
        SpecHandler::Sinking => Ok(SpecHandler::Sinking),
        SpecHandler::Entry(_) => Ok(SpecHandler::Sinking),
    }
}

/// Delivery of one already-delimited run to a handler: only an entry
/// handler accumulates it.
pub open spec fn spec_delivered(h: SpecHandler, run: Seq<char>) -> SpecHandler {
    match h {
        SpecHandler::Entry(e) => SpecHandler::Entry(spec_appended(e, run)),
        _ => h,
    }
}

/// One dispatch step.
pub open spec fn spec_step(st: DispatchState, ev: ParseEventV) -> Result<
    DispatchState,
    ParseFault,
> {
    match ev {
        ParseEventV::StartElement { tag_name, attributes } => {
            match spec_child(st.stack.last(), tag_name, attributes) {
                Ok(h) => Ok(DispatchState { stack: st.stack.push(h), out: st.out }),
                Err(f) => Err(f),
            }
        },
        ParseEventV::EndElement => {
            if st.stack.len() <= 1 {
                Err(ParseFault::UnmatchedEnd)
            } else {
                let out = match st.stack.last() {
                    SpecHandler::Entry(e) => match e.built {
                        Some(s) => st.out.push(s),
                        None => st.out,
                    },
                    _ => st.out,
                };
                Ok(DispatchState { stack: st.stack.drop_last(), out })
            }
        },
        ParseEventV::Characters(text) => Ok(
            DispatchState {
                stack: st.stack.update(
                    st.stack.len() - 1,
                    spec_delivered(st.stack.last(), text),
                ),
                out: st.out,
            },
        ),
        ParseEventV::Cdata(text) => Ok(
            DispatchState {
                stack: st.stack.update(
                    st.stack.len() - 1,
                    spec_delivered(st.stack.last(), spec_cdata_wrapped(text)),
                ),
                out: st.out,
            },
        ),
    }
}

/// The dispatcher's initial state: one root handler, nothing collected.
pub open spec fn spec_init() -> DispatchState {
    DispatchState { stack: seq![SpecHandler::Root], out: Seq::empty() }
}

/// Dispatch of a whole event sequence from a given state; the first fault
/// stops everything.
pub open spec fn spec_run_from(st: DispatchState, events: Seq<ParseEventV>) -> Result<
    DispatchState,
    ParseFault,
>
    decreases events.len(),
{
    if events.len() == 0 {
        Ok(st)
    } else {
        match spec_run_from(st, events.drop_last()) {
            Ok(m) => spec_step(m, events.last()),
            Err(f) => Err(f),
        }
    }
}

/// The records a well-dispatched event sequence yields, or the fault that
/// stops it.
pub open spec fn spec_parse(events: Seq<ParseEventV>) -> Result<Seq<AndroidStringV>, ParseFault> {
    match spec_run_from(spec_init(), events) {
        Ok(m) => Ok(m.out),
        Err(f) => Err(f),
    }
}

/// A handler on the dispatcher's stack: the root/container handler, the
/// sinking handler that discards an unknown subtree nested in an entry, or
/// an entry handler building one record.
pub enum EventHandler {
    Root,
    Sinking,
    Entry(StringEventHandler),
}

impl View for EventHandler {
    type V = SpecHandler;

    open spec fn view(&self) -> SpecHandler {
        match self {
            EventHandler::Root => SpecHandler::Root,
            EventHandler::Sinking => SpecHandler::Sinking,
            EventHandler::Entry(h) => SpecHandler::Entry(h@),
        }
    }
}

impl DeepView for EventHandler {
    type V = SpecHandler;

    open spec fn deep_view(&self) -> SpecHandler {
        self.view()
    }
}

impl EventHandler {
    /// Produces the handler for a child element, as [`spec_child`] says.
    pub fn handler_for_start_element_event(
        &self,
        tag_name: &String,
        attributes: &Vec<Attribute>,
    ) -> (r: Result<EventHandler, Error>)
        ensures
            match r {
                Ok(h) => spec_child(self@, tag_name@, attributes.deep_view())
                    == Ok::<SpecHandler, ParseFault>(h@),
                Err(e) => {
                    &&& spec_child(self@, tag_name@, attributes.deep_view())
                        == Err::<SpecHandler, ParseFault>(ParseFault::MissingName)
                    &&& e matches Error::SyntaxError(m) && m@ == missing_name_message()
                },
            },
    {
        match self {
            EventHandler::Root => {
                let string_tag: String = "string".to_owned();
                if *tag_name == string_tag {
                    match StringEventHandler::build(clone_attributes(attributes)) {
                        Ok(h) => Ok(EventHandler::Entry(h)),
                        Err(e) => Err(e),
                    }
                } else {
                    Ok(EventHandler::Root)
                }
            },
            EventHandler::Sinking => Ok(EventHandler::Sinking),
            EventHandler::Entry(_) => Ok(EventHandler::Sinking),
        }
    }
}

/// Dispatching one event is one step.
pub proof fn lemma_run_one(st: DispatchState, ev: ParseEventV)
    ensures
        spec_run_from(st, seq![ev]) == spec_step(st, ev),
{
    reveal_with_fuel(spec_run_from, 2);
    assert(seq![ev].drop_last() =~= Seq::<ParseEventV>::empty());
    assert(seq![ev].last() == ev);
}

/// Dispatching a concatenation is dispatching the first part, then the
/// second from where the first ended.
pub proof fn lemma_run_concat(st: DispatchState, a: Seq<ParseEventV>, b: Seq<ParseEventV>)
    ensures
        spec_run_from(st, a + b) == match spec_run_from(st, a) {
            Ok(m) => spec_run_from(m, b),
            Err(f) => Err(f),
        },
    decreases b.len(),
{
    if b.len() == 0 {
        assert(a + b =~= a);
        assert(b =~= Seq::<ParseEventV>::empty());
    } else {
        assert((a + b).drop_last() =~= a + b.drop_last());
        assert((a + b).last() == b.last());
        lemma_run_concat(st, a, b.drop_last());
    }
}

/// A run that never faults with an unmatched end only reads and grows the
/// stack above its base: extra handlers below it change nothing about what
/// it does or collects.
pub proof fn lemma_run_framed(
    pre: Seq<SpecHandler>,
    st: DispatchState,
    events: Seq<ParseEventV>,
)
    requires
        st.stack.len() >= 1,
        spec_run_from(st, events) != Err::<DispatchState, ParseFault>(ParseFault::UnmatchedEnd),
    ensures
        match spec_run_from(st, events) {
            Ok(m) => {
                &&& m.stack.len() >= 1
                &&& spec_run_from(
                    DispatchState { stack: pre + st.stack, out: st.out },
                    events,
                ) == Ok::<DispatchState, ParseFault>(
                    DispatchState { stack: pre + m.stack, out: m.out },
                )
            },
            Err(f) => spec_run_from(DispatchState { stack: pre + st.stack, out: st.out }, events)
                == Err::<DispatchState, ParseFault>(f),
        },
    decreases events.len(),
{
    if events.len() == 0 {
        assert(spec_run_from(st, events) == Ok::<DispatchState, ParseFault>(st));
    } else {
        let front = events.drop_last();
        let ev = events.last();
        match spec_run_from(st, front) {
            Err(f) => {
                assert(spec_run_from(st, events) == Err::<DispatchState, ParseFault>(f));
                lemma_run_framed(pre, st, front);
            },
            Ok(m) => {
                assert(spec_run_from(st, front) != Err::<DispatchState, ParseFault>(
                    ParseFault::UnmatchedEnd,
                ));
                lemma_run_framed(pre, st, front);
                let framed = DispatchState { stack: pre + m.stack, out: m.out };
                match ev {
                    ParseEventV::StartElement { tag_name, attributes } => {
                        assert((pre + m.stack).last() == m.stack.last());
                        match spec_child(m.stack.last(), tag_name, attributes) {
                            Ok(h) => {
                                assert(pre + m.stack.push(h) =~= (pre + m.stack).push(h));
                            },
                            Err(f) => {
                                assert(spec_run_from(st, events)
                                    == Err::<DispatchState, ParseFault>(f));
                            },
                        }
                    },
                    ParseEventV::EndElement => {
                        if m.stack.len() <= 1 {
                            assert(spec_run_from(st, events) == Err::<DispatchState, ParseFault>(
                                ParseFault::UnmatchedEnd,
                            ));
                            assert(false);
                        } else {
                            assert((pre + m.stack).last() == m.stack.last());
                            assert(pre + m.stack.drop_last() =~= (pre + m.stack).drop_last());
                        }
                    },
                    ParseEventV::Characters(text) => {
                        assert((pre + m.stack).last() == m.stack.last());
                        assert(pre + m.stack.update(
                            m.stack.len() - 1,
                            spec_delivered(m.stack.last(), text),
                        ) =~= (pre + m.stack).update(
                            (pre + m.stack).len() - 1,
                            spec_delivered((pre + m.stack).last(), text),
                        ));
                    },
                    ParseEventV::Cdata(text) => {
                        assert((pre + m.stack).last() == m.stack.last());
                        assert(pre + m.stack.update(
                            m.stack.len() - 1,
                            spec_delivered(m.stack.last(), spec_cdata_wrapped(text)),
                        ) =~= (pre + m.stack).update(
                            (pre + m.stack).len() - 1,
                            spec_delivered((pre + m.stack).last(), spec_cdata_wrapped(text)),
                        ));
                    },
                }
            },
        }
    }
}

/// A complete event sequence: dispatch brings the stack back to the root
/// handler alone, or faults on a missing name attribute — it never tries to
/// pop the root handler.
pub open spec fn complete_events(events: Seq<ParseEventV>) -> bool {
    match spec_run_from(spec_init(), events) {
        Ok(m) => m.stack.len() == 1,
        Err(f) => f == ParseFault::MissingName,
    }
}

/// Unknown-subtree skip, one level: wrapping a complete event sequence in
/// one unrecognised element changes nothing about what is parsed; the
/// wrapped sequence is complete again.
pub proof fn lemma_unknown_wrap(
    tag_name: Seq<char>,
    attributes: Seq<AttributeV>,
    inner: Seq<ParseEventV>,
)
    requires
        tag_name != "string"@,
        complete_events(inner),
    ensures
        spec_parse(
            seq![ParseEventV::StartElement { tag_name, attributes }] + inner
                + seq![ParseEventV::EndElement],
        ) == spec_parse(inner),
        complete_events(
            seq![ParseEventV::StartElement { tag_name, attributes }] + inner
                + seq![ParseEventV::EndElement],
        ),
{
    let start = seq![ParseEventV::StartElement { tag_name, attributes }];
    let end = seq![ParseEventV::EndElement];
    let whole = start + inner + end;
    lemma_run_one(spec_init(), ParseEventV::StartElement { tag_name, attributes });
    let st1 = DispatchState { stack: seq![SpecHandler::Root, SpecHandler::Root], out: Seq::empty() };
    assert(spec_run_from(spec_init(), start) == Ok::<DispatchState, ParseFault>(st1)) by {
        assert(spec_init().stack.last() == SpecHandler::Root);
        assert(spec_init().stack.push(SpecHandler::Root) =~= st1.stack);
    }
    lemma_run_concat(spec_init(), start, inner + end);
    assert(whole =~= start + (inner + end));
    lemma_run_framed(seq![SpecHandler::Root], spec_init(), inner);
    assert(seq![SpecHandler::Root] + spec_init().stack =~= st1.stack);
    lemma_run_concat(st1, inner, end);
    match spec_run_from(spec_init(), inner) {
        Ok(m) => {
            assert(m.stack.len() == 1);
            let framed = DispatchState { stack: seq![SpecHandler::Root] + m.stack, out: m.out };
            assert(spec_run_from(st1, inner) == Ok::<DispatchState, ParseFault>(framed));
            lemma_run_one(framed, ParseEventV::EndElement);
            assert(framed.stack.len() == 2);
            assert(framed.stack.last() == m.stack.last());
            let popped = spec_step(framed, ParseEventV::EndElement);
            assert(framed.stack.last() == m.stack[0]);
            assert(stack_base_is_root(m)) by {
                lemma_base_handler_stays_root(spec_init(), inner);
            }
            assert(m.stack[0] == SpecHandler::Root);
            assert(popped == Ok::<DispatchState, ParseFault>(
                DispatchState { stack: framed.stack.drop_last(), out: m.out },
            ));
            assert(framed.stack.drop_last() =~= seq![SpecHandler::Root]);
            assert(spec_run_from(spec_init(), whole) == Ok::<DispatchState, ParseFault>(
                DispatchState { stack: seq![SpecHandler::Root], out: m.out },
            ));
        },
        Err(f) => {
            assert(f == ParseFault::MissingName);
            lemma_run_framed(seq![SpecHandler::Root], spec_init(), inner);
            assert(spec_run_from(st1, inner) == Err::<DispatchState, ParseFault>(f));
        },
    }
}

/// The bottom of the stack is the root handler.
pub open spec fn stack_base_is_root(st: DispatchState) -> bool {
    st.stack.len() >= 1 && st.stack[0] == SpecHandler::Root
}

/// Dispatch never replaces the handler at the bottom of a stack of height
/// one or more, except to pop it — so as long as the stack stays nonempty,
/// a root handler at the bottom stays.
pub proof fn lemma_base_handler_stays_root(st: DispatchState, events: Seq<ParseEventV>)
    requires
        stack_base_is_root(st),
        st.stack.len() == 1,
    ensures
        match spec_run_from(st, events) {
            Ok(m) => m.stack.len() >= 1 && m.stack[0] == SpecHandler::Root,
            Err(_) => true,
        },
    decreases events.len(),
{
    if events.len() > 0 {
        lemma_base_handler_stays_root(st, events.drop_last());
        match spec_run_from(st, events.drop_last()) {
            Ok(m) => {
                match events.last() {
                    ParseEventV::Characters(text) => {
                        if m.stack.len() == 1 {
                            assert(spec_delivered(m.stack.last(), text) == m.stack.last());
                        }
                    },
                    ParseEventV::Cdata(text) => {
                        if m.stack.len() == 1 {
                            assert(spec_delivered(m.stack.last(), spec_cdata_wrapped(text))
                                == m.stack.last());
                        }
                    },
                    _ => {},
                }
            },
            Err(_) => {},
        }
    }
}

/// A nest of unknown elements: each level wraps the next in one element
/// start and its matching end.
pub open spec fn spec_deeply_wrapped(
    wraps: Seq<(Seq<char>, Seq<AttributeV>)>,
    inner: Seq<ParseEventV>,
) -> Seq<ParseEventV>
    decreases wraps.len(),
{
    if wraps.len() == 0 {
        inner
    } else {
        seq![ParseEventV::StartElement { tag_name: wraps[0].0, attributes: wraps[0].1 }]
            + spec_deeply_wrapped(wraps.drop_first(), inner) + seq![ParseEventV::EndElement]
    }
}

/// Unknown-subtree skip: a complete entry collection embedded inside
/// arbitrarily deep unknown nested elements is parsed exactly as it would
/// be at the top level.
pub proof fn lemma_unknown_subtree_skip(
    wraps: Seq<(Seq<char>, Seq<AttributeV>)>,
    inner: Seq<ParseEventV>,
)
    requires
        forall|k: int| 0 <= k < wraps.len() ==> (#[trigger] wraps[k]).0 != "string"@,
        complete_events(inner),
    ensures
        spec_parse(spec_deeply_wrapped(wraps, inner)) == spec_parse(inner),
        complete_events(spec_deeply_wrapped(wraps, inner)),
    decreases wraps.len(),
{
    if wraps.len() > 0 {
        assert forall|k: int| 0 <= k < wraps.drop_first().len() implies (#[trigger] wraps.drop_first()[k]).0
            != "string"@ by {
            assert(wraps.drop_first()[k] == wraps[k + 1]);
        }
        lemma_unknown_subtree_skip(wraps.drop_first(), inner);
        lemma_unknown_wrap(wraps[0].0, wraps[0].1, spec_deeply_wrapped(wraps.drop_first(), inner));
    }
}

/// Once dispatch faults on a prefix, the whole run faults the same way.
proof fn lemma_error_persists(
    st: DispatchState,
    events: Seq<ParseEventV>,
    k: int,
    f: ParseFault,
)
    requires
        0 <= k <= events.len(),
        spec_run_from(st, events.take(k)) == Err::<DispatchState, ParseFault>(f),
    ensures
        spec_run_from(st, events) == Err::<DispatchState, ParseFault>(f),
    decreases events.len() - k,
{
    if k < events.len() {
        assert(events.take(k + 1).drop_last() =~= events.take(k));
        lemma_error_persists(st, events, k + 1, f);
    } else {
        assert(events.take(k) =~= events);
    }
}

/// Consumes the event sequence and yields the record collection it
/// finishes, or the syntax error for the first structural fault: an entry
/// element without its name attribute, or an element end with no enclosing
/// start. No partial collection is ever returned.
pub fn read_events(events: &Vec<ParseEvent>) -> (r: Result<Vec<AndroidString>, Error>)
    ensures
        match r {
            Ok(v) => spec_parse(events.deep_view()) == Ok::<Seq<AndroidStringV>, ParseFault>(
                v.deep_view(),
            ),
            Err(e) => {
                &&& spec_parse(events.deep_view()) is Err
                &&& e matches Error::SyntaxError(m)
                &&& spec_parse(events.deep_view()) == Err::<Seq<AndroidStringV>, ParseFault>(
                    ParseFault::MissingName,
                ) ==> m@ == missing_name_message()
                &&& spec_parse(events.deep_view()) == Err::<Seq<AndroidStringV>, ParseFault>(
                    ParseFault::UnmatchedEnd,
                ) ==> m@ == unmatched_end_message()
            },
        },
{
    let ghost evs = events.deep_view();
    let mut stack: Vec<EventHandler> = Vec::new();
    stack.push(EventHandler::Root);
    let mut out: Vec<AndroidString> = Vec::new();
    proof {
        assert(evs.take(0int) =~= Seq::<ParseEventV>::empty());
        assert(stack.deep_view() =~= spec_init().stack);
        assert(out.deep_view() =~= spec_init().out);
    }
    let mut i: usize = 0;
    while i < events.len()
        invariant
            i <= events.len(),
            evs == events.deep_view(),
            stack.len() >= 1,
            spec_run_from(spec_init(), evs.take(i as int)) == Ok::<DispatchState, ParseFault>(
                DispatchState { stack: stack.deep_view(), out: out.deep_view() },
            ),
        decreases events.len() - i,
    {
        let ghost pre = DispatchState { stack: stack.deep_view(), out: out.deep_view() };
        proof {
            assert(evs.take(i + 1int).drop_last() =~= evs.take(i as int));
            assert(evs.take(i + 1int).last() == evs[i as int]);
        }
        let ev = &events[i];
        match ev {
            ParseEvent::StartElement { tag_name, attributes } => {
                let top = stack.len() - 1;
                match stack[top].handler_for_start_element_event(tag_name, attributes) {
                    Ok(h) => {
                        stack.push(h);
                        proof {
                            assert(stack.deep_view() =~= pre.stack.push(h@));
                        }
                    },
                    Err(e) => {
                        proof {
                            lemma_error_persists(
                                spec_init(),
                                evs,
                                i + 1,
                                ParseFault::MissingName,
                            );
                        }
                        return Err(e);
                    },
                }
            },
            ParseEvent::EndElement => {
                if stack.len() <= 1 {
                    proof {
                        lemma_error_persists(spec_init(), evs, i + 1, ParseFault::UnmatchedEnd);
                    }
                    return Err(
                        Error::SyntaxError("end of element with no enclosing element".to_owned()),
                    );
                }
                let h = stack.pop().unwrap();
                match h {
                    EventHandler::Entry(entry) => {
                        match entry.built_string() {
                            Some(s) => {
                                out.push(s);
                                proof {
                                    assert(out.deep_view() =~= pre.out.push(s@));
                                }
                            },
                            None => {},
                        }
                    },
                    _ => {},
                }
                proof {
                    assert(stack.deep_view() =~= pre.stack.drop_last());
                }
            },
            ParseEvent::Characters(text) => {
                let h = stack.pop().unwrap();
                let replaced = match h {
                    EventHandler::Entry(mut entry) => {
                        entry.handle_characters_event(text.clone());
                        EventHandler::Entry(entry)
                    },
                    other => other,
                };
                stack.push(replaced);
                proof {
                    assert(stack.deep_view() =~= pre.stack.update(
                        pre.stack.len() - 1,
                        spec_delivered(pre.stack.last(), text@),
                    ));
                }
            },
            ParseEvent::Cdata(text) => {
                let h = stack.pop().unwrap();
                let replaced = match h {
                    EventHandler::Entry(mut entry) => {
                        entry.handle_cdata_event(text.clone());
                        EventHandler::Entry(entry)
                    },
                    other => other,
                };
                stack.push(replaced);
                proof {
                    assert(stack.deep_view() =~= pre.stack.update(
                        pre.stack.len() - 1,
                        spec_delivered(pre.stack.last(), spec_cdata_wrapped(text@)),
                    ));
                }
            },
        }
        i = i + 1;
    }
    proof {
        assert(evs.take(events.len() as int) =~= evs);
    }
    Ok(out)
}

} // verus!
