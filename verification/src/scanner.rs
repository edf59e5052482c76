//! Scanning an XML document for raw timecode tokens.
//!
//! The scanner walks the document's start-tag, character-data and end-tag
//! events in a single forward pass, keeping an accumulator of the character
//! data seen since the most recent `artwork_time` start tag. At each
//! `artwork_time` end tag, the accumulated text is trimmed; it is emitted as
//! a raw timecode exactly when the trimmed text has exactly 11 characters,
//! and discarded silently otherwise.

use vstd::prelude::*;

use crate::errors::PipelineError;
use crate::str_eq;
use crate::string_views;

verus! {

/// The events of a markup document that the scanner distinguishes.
pub enum MarkupEvent {
    /// A start tag, by its local name.
    Start { name: String },
    /// A run of character data.
    Text { data: String },
    /// An end tag, by its local name.
    End { name: String },
    /// Anything else in the document.
    Other,
}

/// The mathematical model of one markup event.
pub enum MarkupEventModel {
    Start { name: Seq<char> },
    Text { data: Seq<char> },
    End { name: Seq<char> },
    Other,
}

impl View for MarkupEvent {
    type V = MarkupEventModel;

    open spec fn view(&self) -> MarkupEventModel {
        match self {
            MarkupEvent::Start { name } => MarkupEventModel::Start { name: name@ },
            MarkupEvent::Text { data } => MarkupEventModel::Text { data: data@ },
            MarkupEvent::End { name } => MarkupEventModel::End { name: name@ },
            MarkupEvent::Other => MarkupEventModel::Other,
        }
    }
}

/// The models of a sequence of markup events.
pub open spec fn event_views(v: Seq<MarkupEvent>) -> Seq<MarkupEventModel> {
    v.map_values(|e: MarkupEvent| e@)
}

/// The element whose text bodies carry raw timecodes.
pub open spec fn target_element() -> Seq<char> {
    "artwork_time"@
}

/// Unicode whitespace, as trimmed from an accumulated text body: the
/// characters with the White_Space property, the set `str::trim` removes.
pub open spec fn is_space(c: char) -> bool {
    let u = c as int;
    (0x09 <= u && u <= 0x0d) || u == 0x20 || u == 0x85 || u == 0xa0 || u == 0x1680 || (0x2000 <= u
        && u <= 0x200a) || u == 0x2028 || u == 0x2029 || u == 0x202f || u == 0x205f || u == 0x3000
}

/// `s` without its leading whitespace.
pub open spec fn trim_front(s: Seq<char>) -> Seq<char>
    decreases s.len(),
{
    if s.len() > 0 && is_space(s[0]) {
        trim_front(s.drop_first())
    } else {
        s
    }
}

/// `s` without its trailing whitespace.
pub open spec fn trim_back(s: Seq<char>) -> Seq<char>
    decreases s.len(),
{
    if s.len() > 0 && is_space(s.last()) {
        trim_back(s.drop_last())
    } else {
        s
    }
}

/// `s` without leading and trailing whitespace.
pub open spec fn trim_spec(s: Seq<char>) -> Seq<char> {
    trim_back(trim_front(s))
}

fn is_space_ch(c: char) -> (b: bool)
    ensures
        b == is_space(c),
{
    let u = c as u32;
    (0x09 <= u && u <= 0x0d) || u == 0x20 || u == 0x85 || u == 0xa0 || u == 0x1680 || (0x2000 <= u
        && u <= 0x200a) || u == 0x2028 || u == 0x2029 || u == 0x202f || u == 0x205f || u == 0x3000
}

/// Removes leading and trailing whitespace.
pub fn trim(s: &str) -> (t: String)
    ensures
        t@ == trim_spec(s@),
{
    let len = s.unicode_len();
    proof {
        assert(s@.skip(0) =~= s@);
    }
    let mut i: usize = 0;
    while i < len && is_space_ch(s.get_char(i))
        invariant
            0 <= i <= len,
            len == s@.len(),
            trim_front(s@) == trim_front(s@.skip(i as int)),
        decreases len - i,
    {
        proof {
            assert(s@.skip(i as int)[0] == s@[i as int]);
            assert(s@.skip(i as int).drop_first() =~= s@.skip(i as int + 1));
        }
        i = i + 1;
    }
    proof {
        if i < len {
            assert(s@.skip(i as int)[0] == s@[i as int]);
        }
        assert(trim_front(s@) == s@.skip(i as int));
        assert(s@.skip(i as int) =~= s@.subrange(i as int, len as int));
    }
    let mut j: usize = len;
    while j > i && is_space_ch(s.get_char(j - 1))
        invariant
            i <= j <= len,
            len == s@.len(),
            trim_front(s@) == s@.subrange(i as int, len as int),
            trim_spec(s@) == trim_back(s@.subrange(i as int, j as int)),
        decreases j,
    {
        proof {
            let cur = s@.subrange(i as int, j as int);
            assert(cur.last() == s@[j - 1]);
            assert(cur.drop_last() =~= s@.subrange(i as int, j as int - 1));
        }
        j = j - 1;
    }
    proof {
        let cur = s@.subrange(i as int, j as int);
        if j > i {
            assert(cur.last() == s@[j - 1]);
        }
        assert(trim_back(cur) == cur);
    }
    let piece = s.substring_char(i, j);
    String::from_str(piece)
}

/// What the scan of an event sequence emits, given the text accumulated so
/// far: start tags of the target element reset the accumulator, character
/// data extends it, and an end tag of the target element emits the trimmed
/// accumulator exactly when that trimmed text has exactly 11 characters.
pub open spec fn scan_spec(events: Seq<MarkupEventModel>, acc: Seq<char>) -> Seq<Seq<char>>
    decreases events.len(),
{
    if events.len() == 0 {
        Seq::empty()
    } else {
        let rest = events.drop_first();
        match events[0] {
            MarkupEventModel::Start { name } => if name == target_element() {
                scan_spec(rest, Seq::empty())
            } else {
                scan_spec(rest, acc)
            },
            MarkupEventModel::Text { data } => scan_spec(rest, acc + data),
            MarkupEventModel::End { name } => if name == target_element() && trim_spec(acc).len()
                == 11 {
                seq![trim_spec(acc)] + scan_spec(rest, acc)
            } else {
                scan_spec(rest, acc)
            },
            MarkupEventModel::Other => scan_spec(rest, acc),
        }
    }
}

/// Scans an event sequence for raw timecode tokens, in document order.
pub fn scan_events(events: &Vec<MarkupEvent>) -> (out: Vec<String>)
    ensures
        string_views(out@) == scan_spec(event_views(events@), Seq::empty()),
{
    let ghost all = event_views(events@);
    let mut out: Vec<String> = Vec::new();
    let mut text = String::new();
    proof {
        assert(all.skip(0) =~= all);
        assert(string_views(out@) =~= Seq::<Seq<char>>::empty());
        assert(string_views(out@) + scan_spec(all, text@) =~= scan_spec(all, Seq::empty()));
    }
    let mut idx: usize = 0;
    while idx < events.len()
        invariant
            0 <= idx <= events@.len(),
            all == event_views(events@),
            scan_spec(all, Seq::empty()) == string_views(out@) + scan_spec(
                all.skip(idx as int),
                text@,
            ),
        decreases events@.len() - idx,
    {
        proof {
            assert(all.skip(idx as int)[0] == events@[idx as int]@);
            assert(all.skip(idx as int).drop_first() =~= all.skip(idx as int + 1));
        }
        let ev = &events[idx];
        match ev {
            MarkupEvent::Start { name } => {
                if str_eq(name.as_str(), "artwork_time") {
                    text = String::new();
                }
            },
            MarkupEvent::Text { data } => {
                text.append(data.as_str());
            },
            MarkupEvent::End { name } => {
                if str_eq(name.as_str(), "artwork_time") {
                    let t = trim(text.as_str());
                    if t.unicode_len() == 11 {
                        let ghost old_out = out@;
                        out.push(t);
                        proof {
                            assert(string_views(out@) =~= string_views(old_out) + seq![t@]);
                            assert(string_views(old_out) + (seq![t@] + scan_spec(
                                all.skip(idx as int + 1),
                                text@,
                            )) =~= string_views(out@) + scan_spec(all.skip(idx as int + 1), text@));
                        }
                    }
                }
            },
            MarkupEvent::Other => {},
        }
        idx = idx + 1;
    }
    proof {
        assert(all.skip(idx as int) =~= Seq::<MarkupEventModel>::empty());
        assert(string_views(out@) + scan_spec(all.skip(idx as int), text@) =~= string_views(out@));
    }
    out
}

/// Every token a scan emits has exactly 11 characters: the emission guard
/// admits nothing else. This is the RawTimecode length invariant that the
/// conversion stage relies on.
pub proof fn lemma_scan_tokens_have_length_11(events: Seq<MarkupEventModel>, acc: Seq<char>)
    ensures
        forall|k: int|
            0 <= k < scan_spec(events, acc).len() ==> (#[trigger] scan_spec(events, acc)[k]).len()
                == 11,
    decreases events.len(),
{
    if events.len() == 0 {
    } else {
        let rest = events.drop_first();
        match events[0] {
            MarkupEventModel::Start { name } => {
                if name == target_element() {
                    lemma_scan_tokens_have_length_11(rest, Seq::empty());
                    assert(scan_spec(events, acc) == scan_spec(rest, Seq::empty()));
                } else {
                    lemma_scan_tokens_have_length_11(rest, acc);
                    assert(scan_spec(events, acc) == scan_spec(rest, acc));
                }
            },
            MarkupEventModel::Text { data } => {
                lemma_scan_tokens_have_length_11(rest, acc + data);
                assert(scan_spec(events, acc) == scan_spec(rest, acc + data));
            },
            MarkupEventModel::End { name } => {
                lemma_scan_tokens_have_length_11(rest, acc);
                if name == target_element() && trim_spec(acc).len() == 11 {
                    assert(scan_spec(events, acc) == seq![trim_spec(acc)] + scan_spec(rest, acc));
                    assert(scan_spec(events, acc)[0] == trim_spec(acc));
                    assert(forall|k: int|
                        1 <= k < scan_spec(events, acc).len()
                            ==> #[trigger] scan_spec(events, acc)[k] == scan_spec(rest, acc)[k
                            - 1]);
                } else {
                    assert(scan_spec(events, acc) == scan_spec(rest, acc));
                }
            },
            MarkupEventModel::Other => {
                lemma_scan_tokens_have_length_11(rest, acc);
                assert(scan_spec(events, acc) == scan_spec(rest, acc));
            },
        }
    }
}

/// The event stream of a markup document, or `None` when the document is
/// not well-formed XML.
pub uninterp spec fn markup_events_of(doc: Seq<char>) -> Option<Seq<MarkupEventModel>>;

/// Relies on xml::reader::EventReader: pulling events over a document held
/// wholly in memory is a pure parse, so the event stream — and whether the
/// document is well-formed at all — depends on the document text alone.
#[verifier::external_body]
fn read_markup_events(doc: &str) -> (r: Option<Vec<MarkupEvent>>)
    ensures
        match r {
            Some(evs) => markup_events_of(doc@) == Some(event_views(evs@)),
            None => markup_events_of(doc@) is None,
        },
{
    let mut out = Vec::new();
    for ev in xml::reader::EventReader::from_str(doc) {
        match ev {
            Ok(xml::reader::XmlEvent::StartElement { name, .. }) => {
                out.push(MarkupEvent::Start { name: name.local_name })
            },
            Ok(xml::reader::XmlEvent::EndElement { name }) => {
                out.push(MarkupEvent::End { name: name.local_name })
            },
            Ok(xml::reader::XmlEvent::Characters(data)) => out.push(MarkupEvent::Text { data }),
            Ok(_) => out.push(MarkupEvent::Other),
            Err(_) => return None,
        }
    }
    Some(out)
}

/// Scans a markup document for raw timecode tokens: the ordered bodies of
/// its `artwork_time` elements whose trimmed text has exactly 11 characters.
/// A document that is not well-formed XML is a syntax failure; a document
/// with no qualifying element yields the empty sequence, not an error.
pub fn scan_xml(doc: &str) -> (r: Result<Vec<String>, PipelineError>)
    ensures
        match markup_events_of(doc@) {
            Some(evs) => r matches Ok(v) && string_views(v@) == scan_spec(evs, Seq::empty()),
            None => r == Err::<Vec<String>, PipelineError>(PipelineError::XmlSyntax),
        },
{
    match read_markup_events(doc) {
        Some(evs) => Ok(scan_events(&evs)),
        None => Err(PipelineError::XmlSyntax),
    }
}

/// The events of one `artwork_time` element holding one run of text.
pub open spec fn element_events(text: Seq<char>) -> Seq<MarkupEventModel> {
    seq![
        MarkupEventModel::Start { name: target_element() },
        MarkupEventModel::Text { data: text },
        MarkupEventModel::End { name: target_element() },
    ]
}

/// A document made of `artwork_time` elements alone, one per text body.
pub open spec fn elements_doc(texts: Seq<Seq<char>>) -> Seq<MarkupEventModel>
    decreases texts.len(),
{
    if texts.len() == 0 {
        Seq::empty()
    } else {
        element_events(texts[0]) + elements_doc(texts.drop_first())
    }
}

/// The trimmed bodies of exactly those elements whose trimmed text has
/// exactly 11 characters, in document order.
pub open spec fn emitted_tokens(texts: Seq<Seq<char>>) -> Seq<Seq<char>>
    decreases texts.len(),
{
    if texts.len() == 0 {
        Seq::empty()
    } else if trim_spec(texts[0]).len() == 11 {
        seq![trim_spec(texts[0])] + emitted_tokens(texts.drop_first())
    } else {
        emitted_tokens(texts.drop_first())
    }
}

/// For a document that is a sequence of `artwork_time` elements, the scan
/// emits exactly one token per element whose trimmed text has exactly 11
/// characters — that trimmed text — in document order, and nothing for any
/// element of another length, whatever text was accumulated beforehand.
pub proof fn lemma_scan_emits_per_element(texts: Seq<Seq<char>>, acc: Seq<char>)
    ensures
        scan_spec(elements_doc(texts), acc) == emitted_tokens(texts),
    decreases texts.len(),
{
    if texts.len() == 0 {
    } else {
        let t0 = texts[0];
        let rest_doc = elements_doc(texts.drop_first());
        let doc = elements_doc(texts);
        assert(doc == element_events(t0) + rest_doc);
        assert(doc.len() == 3 + rest_doc.len());
        assert(doc[0] == MarkupEventModel::Start { name: target_element() });
        assert(doc[1] == MarkupEventModel::Text { data: t0 });
        assert(doc[2] == MarkupEventModel::End { name: target_element() });
        let d1 = doc.drop_first();
        let d2 = d1.drop_first();
        let d3 = d2.drop_first();
        assert(d1[0] == doc[1]);
        assert(d2[0] == doc[2]);
        assert(d3 =~= rest_doc);
        assert(scan_spec(doc, acc) == scan_spec(d1, Seq::empty()));
        assert(Seq::<char>::empty() + t0 =~= t0);
        assert(scan_spec(d1, Seq::empty()) == scan_spec(d2, t0));
        lemma_scan_emits_per_element(texts.drop_first(), t0);
        if trim_spec(t0).len() == 11 {
            assert(scan_spec(d2, t0) == seq![trim_spec(t0)] + scan_spec(d3, t0));
        } else {
            assert(scan_spec(d2, t0) == scan_spec(d3, t0));
        }
    }
}

} // verus!
