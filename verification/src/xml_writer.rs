//! The output-format contract: the structural events that serialise a
//! record collection. One container element holds one entry element per
//! record; a non-translatable record carries the translatable-false
//! attribute explicitly, a translatable one omits it. An outside emitter
//! turns these events into markup text.

use vstd::prelude::*;

use crate::android_string::{AndroidString, AndroidStringV};
use crate::events::{Attribute, AttributeV, ParseEvent, ParseEventV};
use crate::xml_reader::dispatcher::{lemma_run_concat, lemma_run_one, spec_child, spec_init,
    spec_parse, spec_run_from, spec_step, DispatchState, ParseFault, SpecHandler};
use crate::xml_reader::string_event_handler::spec_appended;

verus! {

/// The attributes of one entry element: its name, and the explicit
/// translatable-false attribute exactly when the record is not
/// translatable.
pub open spec fn spec_entry_attributes(s: AndroidStringV) -> Seq<AttributeV> {
    let name_attr = AttributeV { name: "name"@, value: s.name };
    if s.translatable {
        seq![name_attr]
    } else {
        seq![name_attr, AttributeV { name: "translatable"@, value: "false"@ }]
    }
}

/// The three events that serialise one record: entry start, its value as
/// one plain-text run, entry end.
pub open spec fn spec_string_events(s: AndroidStringV) -> Seq<ParseEventV> {
    seq![
        ParseEventV::StartElement { tag_name: "string"@, attributes: spec_entry_attributes(s) },
        ParseEventV::Characters(s.value),
        ParseEventV::EndElement,
    ]
}

/// The events of all records, in collection order.
pub open spec fn spec_entries_events(rs: Seq<AndroidStringV>) -> Seq<ParseEventV>
    decreases rs.len(),
{
    if rs.len() == 0 {
        Seq::empty()
    } else {
        spec_entries_events(rs.drop_last()) + spec_string_events(rs.last())
    }
}

/// The whole document: the container element around the record events.
pub open spec fn spec_document_events(rs: Seq<AndroidStringV>) -> Seq<ParseEventV> {
    seq![
        ParseEventV::StartElement { tag_name: "resources"@, attributes: Seq::empty() },
    ] + spec_entries_events(rs) + seq![ParseEventV::EndElement]
}

/// Serialises a record collection into its structural events, ready for an
/// outside markup emitter.
pub fn document_events(strings: &Vec<AndroidString>) -> (r: Vec<ParseEvent>)
    ensures
        r.deep_view() == spec_document_events(strings.deep_view()),
{
    let ghost all = strings.deep_view();
    let mut r: Vec<ParseEvent> = Vec::new();
    let root_attributes: Vec<Attribute> = Vec::new();
    proof {
        assert(root_attributes.deep_view() =~= Seq::<AttributeV>::empty());
    }
    r.push(ParseEvent::StartElement { tag_name: "resources".to_owned(), attributes: root_attributes });
    proof {
        assert(r.deep_view() =~= seq![
            ParseEventV::StartElement { tag_name: "resources"@, attributes: Seq::empty() },
        ] + spec_entries_events(all.take(0int)));
    }
    let mut i: usize = 0;
    while i < strings.len()
        invariant
            i <= strings.len(),
            all == strings.deep_view(),
            r.deep_view() == seq![
                ParseEventV::StartElement { tag_name: "resources"@, attributes: Seq::empty() },
            ] + spec_entries_events(all.take(i as int)),
        decreases strings.len() - i,
    {
        let ghost prev = r.deep_view();
        let s = &strings[i];
        let mut attributes: Vec<Attribute> = Vec::new();
        attributes.push(Attribute { name: "name".to_owned(), value: s.name().to_owned() });
        if !s.is_translatable() {
            attributes.push(
                Attribute { name: "translatable".to_owned(), value: "false".to_owned() },
            );
        }
        proof {
            assert(attributes.deep_view() =~= spec_entry_attributes(all[i as int]));
        }
        r.push(ParseEvent::StartElement { tag_name: "string".to_owned(), attributes });
        r.push(ParseEvent::Characters(s.value().to_owned()));
        r.push(ParseEvent::EndElement);
        proof {
            assert(r.deep_view() =~= prev + spec_string_events(all[i as int]));
            assert(all.take(i + 1int).drop_last() =~= all.take(i as int));
            assert(all.take(i + 1int).last() == all[i as int]);
        }
        i = i + 1;
    }
    r.push(ParseEvent::EndElement);
    proof {
        assert(all.take(strings.len() as int) =~= all);
        assert(r.deep_view() =~= spec_document_events(all));
    }
    r
}

/// Dispatching one record's events from any state whose top handler is the
/// root handler collects exactly that record.
proof fn lemma_string_events_run(s: AndroidStringV, st: DispatchState)
    requires
        st.stack.len() >= 1,
        st.stack.last() == SpecHandler::Root,
    ensures
        spec_run_from(st, spec_string_events(s)) == Ok::<DispatchState, ParseFault>(
            DispatchState { stack: st.stack, out: st.out.push(s) },
        ),
{
    reveal_strlit("string");
    reveal_strlit("resources");
    reveal_strlit("name");
    reveal_strlit("translatable");
    reveal_strlit("false");
    let e1 = ParseEventV::StartElement { tag_name: "string"@, attributes: spec_entry_attributes(s) };
    let e2 = ParseEventV::Characters(s.value);
    let e3 = ParseEventV::EndElement;
    assert(spec_string_events(s) =~= seq![e1] + (seq![e2] + seq![e3]));
    let attrs = spec_entry_attributes(s);
    assert(attrs[0] == (AttributeV { name: "name"@, value: s.name }));
    if !s.translatable {
        assert(attrs.drop_last() =~= seq![AttributeV { name: "name"@, value: s.name }]);
        assert(attrs.drop_last().drop_last() =~= Seq::<AttributeV>::empty());
        assert("translatable"@ != "name"@) by {
            assert("translatable"@.len() == 12);
            assert("name"@.len() == 4);
        }
    } else {
        assert(attrs.drop_last() =~= Seq::<AttributeV>::empty());
    }
    let ent = crate::xml_reader::string_event_handler::StringEventHandlerV {
        name: s.name,
        is_translatable: s.translatable,
        built: None,
    };
    reveal_with_fuel(crate::xml_reader::string_event_handler::spec_attr_fold, 3);
    if !s.translatable {
        assert(crate::xml_reader::string_event_handler::spec_attr_fold(attrs.drop_last())
            == (Some(s.name), true));
        assert(crate::xml_reader::string_event_handler::spec_attr_fold(attrs)
            == (Some(s.name), false));
    } else {
        assert(crate::xml_reader::string_event_handler::spec_attr_fold(attrs)
            == (Some(s.name), true));
    }
    assert(spec_child(SpecHandler::Root, "string"@, attrs) == Ok::<SpecHandler, ParseFault>(
        SpecHandler::Entry(ent),
    ));
    let st1 = DispatchState { stack: st.stack.push(SpecHandler::Entry(ent)), out: st.out };
    lemma_run_one(st, e1);
    assert(spec_step(st, e1) == Ok::<DispatchState, ParseFault>(st1));
    lemma_run_concat(st, seq![e1], seq![e2] + seq![e3]);
    let ent2 = spec_appended(ent, s.value);
    assert(ent2.built == Some(
        AndroidStringV { name: s.name, value: Seq::<char>::empty() + s.value, translatable: s.translatable },
    ));
    assert(Seq::<char>::empty() + s.value =~= s.value);
    let st2 = DispatchState { stack: st.stack.push(SpecHandler::Entry(ent2)), out: st.out };
    lemma_run_one(st1, e2);
    assert(st1.stack.update(st1.stack.len() - 1, SpecHandler::Entry(ent2)) =~= st2.stack);
    assert(spec_step(st1, e2) == Ok::<DispatchState, ParseFault>(st2));
    lemma_run_concat(st1, seq![e2], seq![e3]);
    lemma_run_one(st2, e3);
    assert(st2.stack.len() >= 2);
    assert(ent2.built == Some(s));
    assert(st2.stack.drop_last() =~= st.stack);
    assert(spec_step(st2, e3) == Ok::<DispatchState, ParseFault>(
        DispatchState { stack: st.stack, out: st.out.push(s) },
    ));
}

/// Dispatching a whole record collection's events from a root-topped state
/// collects the collection, in order, and leaves the stack as it was.
proof fn lemma_entries_events_run(rs: Seq<AndroidStringV>, st: DispatchState)
    requires
        st.stack.len() >= 1,
        st.stack.last() == SpecHandler::Root,
    ensures
        spec_run_from(st, spec_entries_events(rs)) == Ok::<DispatchState, ParseFault>(
            DispatchState { stack: st.stack, out: st.out + rs },
        ),
    decreases rs.len(),
{
    if rs.len() == 0 {
        assert(st.out + rs =~= st.out);
        assert(DispatchState { stack: st.stack, out: st.out + rs } == st);
    } else {
        lemma_entries_events_run(rs.drop_last(), st);
        let mid = DispatchState { stack: st.stack, out: st.out + rs.drop_last() };
        lemma_run_concat(st, spec_entries_events(rs.drop_last()), spec_string_events(rs.last()));
        lemma_string_events_run(rs.last(), mid);
        assert((st.out + rs.drop_last()).push(rs.last()) =~= st.out + rs);
    }
}

/// Round-trip: writing a record collection as document events and
/// dispatching them back reproduces the records exactly — same names, same
/// values (literal-block delimiters included, since a written value is one
/// plain-text run), same translatable flags, in the same order.
pub proof fn lemma_write_read_round_trip(rs: Seq<AndroidStringV>)
    ensures
        spec_parse(spec_document_events(rs)) == Ok::<Seq<AndroidStringV>, ParseFault>(rs),
{
    reveal_strlit("string");
    reveal_strlit("resources");
    let start = ParseEventV::StartElement { tag_name: "resources"@, attributes: Seq::empty() };
    let doc = spec_document_events(rs);
    assert(doc =~= seq![start] + (spec_entries_events(rs) + seq![ParseEventV::EndElement]));
    assert("resources"@ != "string"@) by {
        assert("resources"@.len() == 9);
        assert("string"@.len() == 6);
    }
    lemma_run_one(spec_init(), start);
    let st1 = DispatchState {
        stack: seq![SpecHandler::Root, SpecHandler::Root],
        out: Seq::empty(),
    };
    assert(spec_init().stack.push(SpecHandler::Root) =~= st1.stack);
    assert(spec_step(spec_init(), start) == Ok::<DispatchState, ParseFault>(st1));
    lemma_run_concat(spec_init(), seq![start], spec_entries_events(rs) + seq![ParseEventV::EndElement]);
    lemma_entries_events_run(rs, st1);
    let st2 = DispatchState { stack: st1.stack, out: Seq::empty() + rs };
    lemma_run_concat(st1, spec_entries_events(rs), seq![ParseEventV::EndElement]);
    lemma_run_one(st2, ParseEventV::EndElement);
    assert(st2.stack.len() == 2);
    assert(spec_step(st2, ParseEventV::EndElement) == Ok::<DispatchState, ParseFault>(
        DispatchState { stack: st2.stack.drop_last(), out: st2.out },
    ));
    assert(Seq::<AndroidStringV>::empty() + rs =~= rs);
}

} // verus!
