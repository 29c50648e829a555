//! The generator's view of a markup byte stream: the events it reads from
//! the stream, and the extraction of the named widgets they declare.

use vstd::prelude::*;

use crate::names::str_eq;

verus! {

/// One event of the markup stream, as the generator reads it: the start of
/// an element with its local name and its attributes (each a local name and
/// a value), a parse fault, or any other event.
pub enum UiEvent {
    Start { name: String, attributes: Vec<(String, String)> },
    Fault,
    Other,
}

/// The mathematical value of a `UiEvent`.
pub enum UiEventModel {
    Start { name: Seq<char>, attributes: Seq<(Seq<char>, Seq<char>)> },
    Fault,
    Other,
}

impl DeepView for UiEvent {
    type V = UiEventModel;

    open spec fn deep_view(&self) -> UiEventModel {
        match self {
            UiEvent::Start { name, attributes } => UiEventModel::Start {
                name: name@,
                attributes: attributes.deep_view(),
            },
            UiEvent::Fault => UiEventModel::Fault,
            UiEvent::Other => UiEventModel::Other,
        }
    }
}

/// What the markup reader yields for a given byte stream: its events in
/// order, ending with the end of the document or with the first fault.
pub uninterp spec fn ui_events_of(bytes: Seq<u8>) -> Seq<UiEventModel>;

/// Relies on xml's `EventReader`: the events pulled from a byte stream are
/// a function of the bytes alone, and the reader's iterator ends once it
/// has yielded the end of the document or a first error.
#[verifier::external_body]
pub(crate) fn read_ui_events(bytes: &[u8]) -> (r: Vec<UiEvent>)
    ensures
        r.deep_view() == ui_events_of(bytes@),
{
    let mut out = Vec::new();
    for event in xml::reader::EventReader::new(bytes) {
        match event {
            Ok(xml::reader::XmlEvent::StartElement { name, attributes, .. }) => {
                let attributes = attributes.into_iter().map(|a| (a.name.local_name, a.value)).collect();
                out.push(UiEvent::Start { name: name.local_name, attributes });
            }
            Ok(_) => out.push(UiEvent::Other),
            Err(_) => out.push(UiEvent::Fault),
        }
    }
    out
}

/// Some event of the stream is a parse fault.
pub open spec fn spec_has_fault(events: Seq<UiEventModel>) -> bool {
    exists|i: int| 0 <= i < events.len() && events[i] is Fault
}

/// Whether `events` holds a parse fault.
pub fn has_fault(events: &Vec<UiEvent>) -> (r: bool)
    ensures
        r == spec_has_fault(events.deep_view()),
{
    let n = events.len();
    let mut i: usize = 0;
    while i < n
        invariant
            n == events.len(),
            i <= n,
            forall|k: int| 0 <= k < i ==> !(events.deep_view()[k] is Fault),
        decreases n - i,
    {
        proof {
            assert(events.deep_view()[i as int] == events@[i as int].deep_view());
        }
        match &events[i] {
            UiEvent::Fault => {
                proof {
                    assert(events.deep_view()[i as int] is Fault);
                }
                return true;
            },
            UiEvent::Start { .. } => {},
            UiEvent::Other => {},
        }
        i = i + 1;
    }
    false
}

/// Whether parsing `markup` runs into a fault, so that only the widgets
/// read before it are bound.
pub fn markup_has_fault(markup: &[u8]) -> (r: bool)
    ensures
        r == spec_has_fault(ui_events_of(markup@)),
{
    let events = read_ui_events(markup);
    has_fault(&events)
}

/// The value of the first attribute of `attrs` whose name is `key`, if any.
pub open spec fn spec_first_attr(attrs: Seq<(Seq<char>, Seq<char>)>, key: Seq<char>) -> Option<
    Seq<char>,
>
    decreases attrs.len(),
{
    if attrs.len() == 0 {
        None
    } else if attrs[0].0 == key {
        Some(attrs[0].1)
    } else {
        spec_first_attr(attrs.drop_first(), key)
    }
}

/// The widget that an element start declares: its identifier and its class,
/// for an `object` element that carries both; `None` otherwise.
pub open spec fn spec_object_entry(
    name: Seq<char>,
    attrs: Seq<(Seq<char>, Seq<char>)>,
) -> Option<(Seq<char>, Seq<char>)> {
    if name == "object"@ {
        match spec_first_attr(attrs, "id"@) {
            Some(id) => match spec_first_attr(attrs, "class"@) {
                Some(class) => Some((id, class)),
                None => None,
            },
            None => None,
        }
    } else {
        None
    }
}

/// The identifier and class of every named widget that the event stream
/// declares, in order, reading nothing past the first fault.
pub open spec fn spec_extract_objects(events: Seq<UiEventModel>) -> Seq<(Seq<char>, Seq<char>)>
    decreases events.len(),
{
    if events.len() == 0 {
        Seq::empty()
    } else {
        match events[0] {
            UiEventModel::Fault => Seq::empty(),
            UiEventModel::Start { name, attributes } => match spec_object_entry(
                name,
                attributes,
            ) {
                Some(e) => seq![e] + spec_extract_objects(events.drop_first()),
                None => spec_extract_objects(events.drop_first()),
            },
            UiEventModel::Other => spec_extract_objects(events.drop_first()),
        }
    }
}

/// The value of the first attribute of `attrs` whose name is `key`.
pub fn find_attr(attrs: &Vec<(String, String)>, key: &str) -> (r: Option<String>)
    ensures
        r.deep_view() == spec_first_attr(attrs.deep_view(), key@),
{
    let n = attrs.len();
    let mut k: usize = 0;
    proof {
        assert(attrs.deep_view().skip(0) =~= attrs.deep_view());
    }
    while k < n
        invariant
            n == attrs.len(),
            k <= n,
            spec_first_attr(attrs.deep_view(), key@) == spec_first_attr(
                attrs.deep_view().skip(k as int),
                key@,
            ),
        decreases n - k,
    {
        proof {
            assert(attrs.deep_view().skip(k as int)[0] == attrs.deep_view()[k as int]);
            assert(attrs.deep_view()[k as int] == (attrs@[k as int].0@, attrs@[k as int].1@));
        }
        if str_eq(attrs[k].0.as_str(), key) {
            return Some(attrs[k].1.clone());
        }
        proof {
            assert(attrs.deep_view().skip(k as int).drop_first() =~= attrs.deep_view().skip(
                k as int + 1,
            ));
        }
        k = k + 1;
    }
    proof {
        assert(attrs.deep_view().skip(n as int) =~= Seq::<(Seq<char>, Seq<char>)>::empty());
    }
    None
}

/// Collect the identifier and class of every named widget that `events`
/// declare, in order, reading nothing past the first fault.
pub fn extract_objects(events: &Vec<UiEvent>) -> (r: Vec<(String, String)>)
    ensures
        r.deep_view() == spec_extract_objects(events.deep_view()),
{
    let n = events.len();
    let mut out: Vec<(String, String)> = Vec::new();
    let mut i: usize = 0;
    proof {
        assert(events.deep_view().skip(0) =~= events.deep_view());
        assert(out.deep_view() + spec_extract_objects(events.deep_view()) =~= spec_extract_objects(
            events.deep_view(),
        ));
    }
    while i < n
        invariant
            n == events.len(),
            i <= n,
            out.deep_view() + spec_extract_objects(events.deep_view().skip(i as int))
                == spec_extract_objects(events.deep_view()),
        decreases n - i,
    {
        proof {
            assert(events.deep_view().skip(i as int)[0] == events.deep_view()[i as int]);
            assert(events.deep_view()[i as int] == events@[i as int].deep_view());
            assert(events.deep_view().skip(i as int).drop_first() =~= events.deep_view().skip(
                i as int + 1,
            ));
        }
        match &events[i] {
            UiEvent::Start { name, attributes } => {
                if str_eq(name.as_str(), "object") {
                    if let Some(id) = find_attr(attributes, "id") {
                        if let Some(class) = find_attr(attributes, "class") {
                            let ghost pre = out.deep_view();
                            let ghost entry = (id@, class@);
                            out.push((id, class));
                            proof {
                                assert(out.deep_view() =~= pre + seq![entry]);
                                assert(pre + (seq![entry] + spec_extract_objects(
                                    events.deep_view().skip(i as int + 1),
                                )) =~= (pre + seq![entry]) + spec_extract_objects(
                                    events.deep_view().skip(i as int + 1),
                                ));
                            }
                        }
                    }
                }
            },
            UiEvent::Fault => {
                proof {
                    assert(spec_extract_objects(events.deep_view().skip(i as int))
                        =~= Seq::<(Seq<char>, Seq<char>)>::empty());
                    assert(out.deep_view() + Seq::<(Seq<char>, Seq<char>)>::empty()
                        =~= out.deep_view());
                }
                return out;
            },
            UiEvent::Other => {},
        }
        i = i + 1;
    }
    proof {
        assert(events.deep_view().skip(n as int) =~= Seq::<UiEventModel>::empty());
        assert(out.deep_view() + Seq::<(Seq<char>, Seq<char>)>::empty() =~= out.deep_view());
    }
    out
}

} // verus!
