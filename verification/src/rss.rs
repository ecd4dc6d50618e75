//! The running-events feed: an RSS/XML document stream-parsed into events,
//! and the verified walk that collects `title` texts and the feed-health
//! marker count.
use vstd::prelude::*;

use crate::extract::ExtractError;
use quick_xml::events::Event as QxEvent;

verus! {

/// One parse event of the XML stream, reduced to plain values: an element
/// opens or closes under a name, text content appears, something else
/// happened, or the document could not be parsed further.
pub enum XmlEvent {
    Open(String),
    Close(String),
    Text(String),
    Other,
    Malformed,
}

/// The mathematical value of one parse event.
pub enum XmlEventV {
    Open(Seq<char>),
    Close(Seq<char>),
    Text(Seq<char>),
    Other,
    Malformed,
}

impl DeepView for XmlEvent {
    type V = XmlEventV;

    open spec fn deep_view(&self) -> XmlEventV {
        match self {
            XmlEvent::Open(s) => XmlEventV::Open(s@),
            XmlEvent::Close(s) => XmlEventV::Close(s@),
            XmlEvent::Text(s) => XmlEventV::Text(s@),
            XmlEvent::Other => XmlEventV::Other,
            XmlEvent::Malformed => XmlEventV::Malformed,
        }
    }
}

/// The event stream of an XML document: whitespace-trimmed, in document
/// order, cut short by a single `Malformed` marker where parsing fails.
/// The result depends on the document text alone; it carries a name here
/// rather than a transcription of the XML grammar.
pub uninterp spec fn xml_events_of(xml: Seq<char>) -> Seq<XmlEventV>;

/// Relies on quick_xml's `Reader::read_event` over a string slice: the
/// document's parse events with element names and text content as plain
/// values. Text is whitespace-trimmed as the reader's `trim_text` setting
/// documents; a parse error ends the stream with one `Malformed` marker.
#[verifier::external_body]
pub fn xml_events(xml: &str) -> (r: Vec<XmlEvent>)
    ensures
        r.deep_view() == xml_events_of(xml@),
{
    let mut reader = quick_xml::Reader::from_str(xml);
    reader.config_mut().trim_text(true);
    let mut out = Vec::new();
    loop {
        match reader.read_event() {
            Ok(QxEvent::Start(e)) => out.push(XmlEvent::Open(e.name().as_ref().to_owned())),
            Ok(QxEvent::End(e)) => out.push(XmlEvent::Close(e.name().as_ref().to_owned())),
            Ok(QxEvent::Text(t)) => out.push(XmlEvent::Text(t.into_inner().into_owned())),
            Ok(QxEvent::Eof) => return out,
            Ok(_) => out.push(XmlEvent::Other),
            Err(_) => { out.push(XmlEvent::Malformed); return out; },
        }
    }
}

/// The stream holds a parse-failure marker.
pub open spec fn has_malformed(events: Seq<XmlEventV>) -> bool {
    exists|i: int| 0 <= i < events.len() && events[i] is Malformed
}

/// The element name whose text content the feed walk collects.
pub open spec fn title_name() -> Seq<char> {
    "title"@
}

/// The title texts still to be collected from `events`, with `inside`
/// holding the text accumulated for a `title` element whose end tag has
/// not appeared yet. A title left open at the end of the stream yields
/// nothing.
pub open spec fn titles_from(events: Seq<XmlEventV>, inside: Option<Seq<char>>) -> Seq<Seq<char>>
    decreases events.len(),
{
    if events.len() == 0 {
        Seq::empty()
    } else {
        match inside {
            None => match events.first() {
                XmlEventV::Open(n) => if n == title_name() {
                    titles_from(events.drop_first(), Some(Seq::empty()))
                } else {
                    titles_from(events.drop_first(), None)
                },
                _ => titles_from(events.drop_first(), None),
            },
            Some(acc) => match events.first() {
                XmlEventV::Close(n) => if n == title_name() {
                    seq![acc] + titles_from(events.drop_first(), None)
                } else {
                    titles_from(events.drop_first(), Some(acc))
                },
                XmlEventV::Text(t) => titles_from(events.drop_first(), Some(acc + t)),
                _ => titles_from(events.drop_first(), Some(acc)),
            },
        }
    }
}

/// Every `title` text of the stream, in document order.
pub open spec fn titles_of(events: Seq<XmlEventV>) -> Seq<Seq<char>> {
    titles_from(events, None)
}

/// Collect the text of every `title` element: text events between a
/// `title` open tag and its close tag are concatenated into one title.
pub fn titles_of_events(events: &Vec<XmlEvent>) -> (r: Vec<String>)
    ensures
        r.deep_view() == titles_of(events.deep_view()),
{
    let ghost edv = events.deep_view();
    let title_tag: String = "title".to_owned();
    let mut out: Vec<String> = Vec::new();
    let mut inside = false;
    let mut acc = String::new();
    proof {
        assert(edv.skip(0) =~= edv);
        assert(out.deep_view() =~= Seq::<Seq<char>>::empty());
        assert(out.deep_view() + titles_from(edv, None) =~= titles_from(edv, None));
    }
    let mut i: usize = 0;
    while i < events.len()
        invariant
            i <= events@.len(),
            edv == events.deep_view(),
            events@.len() == edv.len(),
            title_tag@ == title_name(),
            out.deep_view() + titles_from(
                edv.skip(i as int),
                if inside {
                    Some(acc@)
                } else {
                    None
                },
            ) == titles_of(edv),
        decreases events@.len() - i,
    {
        proof {
            assert(edv.skip(i as int).drop_first() =~= edv.skip(i + 1));
            assert(edv.skip(i as int).first() == edv[i as int]);
            assert(edv[i as int] == events@[i as int].deep_view());
        }
        if !inside {
            match &events[i] {
                XmlEvent::Open(n) => {
                    if *n == title_tag {
                        inside = true;
                        acc = String::new();
                    }
                },
                _ => {},
            }
        } else {
            match &events[i] {
                XmlEvent::Close(n) => {
                    if *n == title_tag {
                        let ghost prev = out.deep_view();
                        let ghost accv = acc@;
                        out.push(acc);
                        inside = false;
                        acc = String::new();
                        proof {
                            assert(out.deep_view() =~= prev + seq![accv]);
                        }
                    }
                },
                XmlEvent::Text(t) => {
                    acc.append(t.as_str());
                },
                _ => {},
            }
        }
        i = i + 1;
    }
    proof {
        assert(edv.skip(edv.len() as int) =~= Seq::<XmlEventV>::empty());
    }
    out
}

/// How many feed-health marker elements the stream opens.
pub open spec fn marker_count_spec(events: Seq<XmlEventV>) -> nat
    decreases events.len(),
{
    if events.len() == 0 {
        0
    } else {
        (if events.first() == XmlEventV::Open("tag2"@) {
            1nat
        } else {
            0nat
        }) + marker_count_spec(events.drop_first())
    }
}

/// Count the feed-health marker elements of the stream. The count is a
/// health signal only and never reaches the displayed data model.
pub fn entry_marker_count(events: &Vec<XmlEvent>) -> (r: usize)
    ensures
        r as nat == marker_count_spec(events.deep_view()),
{
    let ghost edv = events.deep_view();
    let marker_tag: String = "tag2".to_owned();
    let mut count: usize = 0;
    proof {
        assert(edv.skip(0) =~= edv);
    }
    let mut i: usize = 0;
    while i < events.len()
        invariant
            i <= events@.len(),
            edv == events.deep_view(),
            events@.len() == edv.len(),
            marker_tag@ == "tag2"@,
            count <= i,
            count as nat + marker_count_spec(edv.skip(i as int)) == marker_count_spec(edv),
        decreases events@.len() - i,
    {
        proof {
            assert(edv.skip(i as int).drop_first() =~= edv.skip(i + 1));
            assert(edv.skip(i as int).first() == edv[i as int]);
            assert(edv[i as int] == events@[i as int].deep_view());
        }
        match &events[i] {
            XmlEvent::Open(n) => {
                if *n == marker_tag {
                    count = count + 1;
                }
            },
            _ => {},
        }
        i = i + 1;
    }
    proof {
        assert(edv.skip(edv.len() as int) =~= Seq::<XmlEventV>::empty());
    }
    count
}

/// Whether the stream holds a parse-failure marker.
pub fn stream_is_malformed(events: &Vec<XmlEvent>) -> (r: bool)
    ensures
        r == has_malformed(events.deep_view()),
{
    let ghost edv = events.deep_view();
    let mut i: usize = 0;
    while i < events.len()
        invariant
            i <= events@.len(),
            edv == events.deep_view(),
            events@.len() == edv.len(),
            forall|j: int| 0 <= j < i ==> !(#[trigger] edv[j] is Malformed),
        decreases events@.len() - i,
    {
        proof {
            assert(edv[i as int] == events@[i as int].deep_view());
        }
        match &events[i] {
            XmlEvent::Malformed => {
                return true;
            },
            _ => {},
        }
        i = i + 1;
    }
    false
}

/// The displayed running-events list built from the feed's titles: the
/// first title names the feed itself and is excluded, and an empty result
/// is replaced by one placeholder row.
pub open spec fn running_list_spec(titles: Seq<Seq<char>>) -> Seq<Seq<char>> {
    if titles.len() <= 1 {
        seq!["None"@]
    } else {
        titles.drop_first()
    }
}

/// Build the displayed running-events list: skip the feed's own title and
/// fall back to one placeholder row when nothing is running.
pub fn running_events_list(titles: &Vec<String>) -> (r: Vec<String>)
    ensures
        r.deep_view() == running_list_spec(titles.deep_view()),
{
    let ghost tdv = titles.deep_view();
    if titles.len() <= 1 {
        let mut out: Vec<String> = Vec::new();
        out.push("None".to_owned());
        proof {
            assert(out.deep_view() =~= seq!["None"@]);
        }
        return out;
    }
    let mut out: Vec<String> = Vec::new();
    proof {
        assert(out.deep_view() =~= tdv.subrange(1, 1));
    }
    let mut i: usize = 1;
    while i < titles.len()
        invariant
            1 <= i <= titles@.len(),
            titles@.len() > 1,
            tdv == titles.deep_view(),
            titles@.len() == tdv.len(),
            out.deep_view() == tdv.subrange(1, i as int),
        decreases titles@.len() - i,
    {
        let ghost prev = out.deep_view();
        out.push(titles[i].clone());
        proof {
            assert(tdv[i as int] == titles@[i as int].deep_view());
            assert(out.deep_view() =~= prev + seq![tdv[i as int]]);
            assert(out.deep_view() =~= tdv.subrange(1, i + 1));
        }
        i = i + 1;
    }
    proof {
        assert(tdv.subrange(1, tdv.len() as int) =~= tdv.drop_first());
    }
    out
}

/// Turn the raw text of the running-events RSS feed into the displayed
/// list. A document that cannot be parsed is reported as a parse error;
/// otherwise the feed's own title is dropped and an empty list becomes one
/// placeholder row.
pub fn running_events_from_rss(xml: &str) -> (r: Result<Vec<String>, ExtractError>)
    ensures
        r matches Ok(v) ==> !has_malformed(xml_events_of(xml@)) && v.deep_view()
            == running_list_spec(titles_of(xml_events_of(xml@))),
        r matches Err(e) ==> e == ExtractError::Parse && has_malformed(xml_events_of(xml@)),
{
    let events = xml_events(xml);
    if stream_is_malformed(&events) {
        Err(ExtractError::Parse)
    } else {
        let titles = titles_of_events(&events);
        Ok(running_events_list(&titles))
    }
}

} // verus!
