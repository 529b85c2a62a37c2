//! Finding the maintainer in a package's `metadata.xml`.
use vstd::prelude::*;

use quick_xml::events::Event;
use quick_xml::Reader;

use crate::text::opt_view;

verus! {

#[verifier::external_type_specification]
#[verifier::external_body]
#[verifier::reject_recursive_types(R)]
pub struct ExReader<R>(Reader<R>);

/// What the maintainer search reads of one XML event: the name of an opening or a
/// closing tag, the content of a text (none where it could not be decoded), the end
/// of the document, a parse error, or another kind of event.
#[derive(Debug)]
pub enum XmlEvent {
    Start(Vec<u8>),
    End(Vec<u8>),
    Text(Option<String>),
    Eof,
    Error,
    Other,
}

/// The name of the element that holds a maintainer: `maintainer`.
pub open spec fn maintainer_tag() -> Seq<u8> {
    seq![109u8, 97u8, 105u8, 110u8, 116u8, 97u8, 105u8, 110u8, 101u8, 114u8]
}

fn is_maintainer_tag(name: &Vec<u8>) -> (b: bool)
    ensures
        b == (name@ == maintainer_tag()),
{
    let tag: [u8; 10] = [109u8, 97u8, 105u8, 110u8, 116u8, 97u8, 105u8, 110u8, 101u8, 114u8];
    assert(tag@ =~= maintainer_tag());
    if name.len() != 10 {
        return false;
    }
    let mut i: usize = 0;
    while i < 10
        invariant
            name@.len() == 10,
            tag@ == maintainer_tag(),
            i <= 10,
            forall|k: int| 0 <= k < i ==> name@[k] == maintainer_tag()[k],
        decreases 10 - i,
    {
        if name[i] != tag[i] {
            return false;
        }
        i = i + 1;
    }
    assert(name@ =~= maintainer_tag());
    true
}

/// What the search does after an event.
#[derive(Debug)]
pub enum MaintainerStep {
    /// Read on, inside a `maintainer` element or not.
    Continue(bool),
    /// Stop with this answer.
    Found(Option<String>),
    /// Stop without a maintainer.
    Stop,
}

/// One step of the maintainer search: an opening `maintainer` tag enters the element,
/// the first text inside it is the answer (none if it could not be decoded), a closing
/// `maintainer` tag leaves it, and the end of the document or an error ends the
/// search; other events change nothing.
pub fn maintainer_step(in_maintainer: bool, event: XmlEvent) -> (r: MaintainerStep)
    ensures
        match event {
            XmlEvent::Start(name) => if name@ == maintainer_tag() {
                r == MaintainerStep::Continue(true)
            } else {
                r == MaintainerStep::Continue(in_maintainer)
            },
            XmlEvent::Text(t) => if in_maintainer {
                r == MaintainerStep::Found(t)
            } else {
                r == MaintainerStep::Continue(in_maintainer)
            },
            XmlEvent::End(name) => if name@ == maintainer_tag() {
                r == MaintainerStep::Continue(false)
            } else {
                r == MaintainerStep::Continue(in_maintainer)
            },
            XmlEvent::Eof | XmlEvent::Error => r == MaintainerStep::Stop,
            XmlEvent::Other => r == MaintainerStep::Continue(in_maintainer),
        },
        step_view(r) == step_of(in_maintainer, event@),
{
    match event {
        XmlEvent::Start(name) => if is_maintainer_tag(&name) {
            MaintainerStep::Continue(true)
        } else {
            MaintainerStep::Continue(in_maintainer)
        },
        XmlEvent::Text(t) => if in_maintainer {
            MaintainerStep::Found(t)
        } else {
            MaintainerStep::Continue(in_maintainer)
        },
        XmlEvent::End(name) => if is_maintainer_tag(&name) {
            MaintainerStep::Continue(false)
        } else {
            MaintainerStep::Continue(in_maintainer)
        },
        XmlEvent::Eof | XmlEvent::Error => MaintainerStep::Stop,
        XmlEvent::Other => MaintainerStep::Continue(in_maintainer),
    }
}

impl View for XmlEvent {
    /// The kind of the event, the name of its tag (empty but for tags), and its text
    /// (none but for texts).
    type V = (u8, Seq<u8>, Option<Seq<char>>);

    open spec fn view(&self) -> (u8, Seq<u8>, Option<Seq<char>>) {
        match self {
            XmlEvent::Start(n) => (0u8, n@, None),
            XmlEvent::End(n) => (1u8, n@, None),
            XmlEvent::Text(t) => (2u8, seq![], opt_view(*t)),
            XmlEvent::Eof => (3u8, seq![], None),
            XmlEvent::Error => (4u8, seq![], None),
            XmlEvent::Other => (5u8, seq![], None),
        }
    }
}

/// What a step of the search does, as the contracts speak of it.
pub enum StepView {
    Continue(bool),
    Found(Option<Seq<char>>),
    Stop,
}

/// The view of a step.
pub open spec fn step_view(s: MaintainerStep) -> StepView {
    match s {
        MaintainerStep::Continue(b) => StepView::Continue(b),
        MaintainerStep::Found(t) => StepView::Found(opt_view(t)),
        MaintainerStep::Stop => StepView::Stop,
    }
}

/// One step of the search on the view of an event (see [`maintainer_step`]).
pub open spec fn step_of(inside: bool, e: (u8, Seq<u8>, Option<Seq<char>>)) -> StepView {
    if e.0 == 0 {
        StepView::Continue(if e.1 == maintainer_tag() { true } else { inside })
    } else if e.0 == 1 {
        StepView::Continue(if e.1 == maintainer_tag() { false } else { inside })
    } else if e.0 == 2 {
        if inside { StepView::Found(e.2) } else { StepView::Continue(inside) }
    } else if e.0 == 3 || e.0 == 4 {
        StepView::Stop
    } else {
        StepView::Continue(inside)
    }
}

/// The `i`th event (counting from 0) that quick-xml reads from `content`, with its
/// reader made by `Reader::from_str` and set to trim the whitespace around texts.
pub uninterp spec fn xml_event_at(content: Seq<char>, i: nat) -> (u8, Seq<u8>, Option<Seq<char>>);

/// A quick-xml reader over a text, with the text and the number of events read so far
/// kept for the contracts.
pub struct XmlCursor<'a> {
    reader: Reader<&'a [u8]>,
    content: Ghost<Seq<char>>,
    pos: Ghost<nat>,
}

impl<'a> XmlCursor<'a> {
    /// The text that the reader reads.
    pub closed spec fn content(&self) -> Seq<char> {
        self.content@
    }

    /// The number of events read so far.
    pub closed spec fn pos(&self) -> nat {
        self.pos@
    }
}

/// Makes a quick-xml reader over `content` with `Reader::from_str`, and turns on the
/// trimming of whitespace around texts with `config_mut().trim_text(true)`. The contract
/// claims only that nothing has been read yet.
#[verifier::external_body]
fn cursor_new<'a>(content: &'a str) -> (c: XmlCursor<'a>)
    ensures
        c.content() == content@,
        c.pos() == 0,
{
    let mut reader = Reader::from_str(content);
    reader.config_mut().trim_text(true);
    XmlCursor { reader, content: Ghost(content@), pos: Ghost(0) }
}

/// Reads the next event with quick-xml's `Reader::read_event_into` and keeps of it what
/// the search reads (see [`XmlEvent`]); a text's content comes from
/// `BytesText::xml_content`, and is none where that fails. The contract claims that the
/// event is the one that quick-xml reads at this place of this text, which depends on
/// the text and the place alone; the buffer must come in empty, so that what it held
/// does not enter.
#[verifier::external_body]
fn cursor_next(cursor: &mut XmlCursor, buf: &mut Vec<u8>) -> (e: XmlEvent)
    requires
        old(buf)@.len() == 0,
    ensures
        e@ == xml_event_at(old(cursor).content(), old(cursor).pos()),
        final(cursor).content() == old(cursor).content(),
        final(cursor).pos() == old(cursor).pos() + 1,
{
    let e = match cursor.reader.read_event_into(buf) {
        Ok(Event::Start(e)) => XmlEvent::Start(e.name().as_ref().to_vec()),
        Ok(Event::End(e)) => XmlEvent::End(e.name().as_ref().to_vec()),
        Ok(Event::Text(e)) => XmlEvent::Text(e.xml_content().ok().map(|s| s.into_owned())),
        Ok(Event::Eof) => XmlEvent::Eof,
        Ok(_) => XmlEvent::Other,
        Err(_) => XmlEvent::Error,
    };
    cursor.pos = Ghost(cursor.pos@ + 1);
    e
}

/// The answer of the search over the events of `content` from the `i`th on, inside a
/// `maintainer` element or not, when at most `budget` more events may follow this one:
/// each event takes a step of [`step_of`]; the first text inside the element is the
/// answer, and the end of the document, an error or the end of the budget gives none.
pub open spec fn maintainer_search(content: Seq<char>, i: nat, inside: bool, budget: nat) -> Option<Seq<char>>
    decreases budget,
{
    match step_of(inside, xml_event_at(content, i)) {
        StepView::Continue(b) => if budget == 0 {
            None
        } else {
            maintainer_search(content, i + 1, b, (budget - 1) as nat)
        },
        StepView::Found(t) => t,
        StepView::Stop => None,
    }
}

/// The maintainer that a `metadata.xml` names: the first text inside a `maintainer`
/// element, read with quick-xml as [`maintainer_step`] says. Every event but the end of
/// the document takes at least one byte of `content`, so the search reads at most one
/// event more than `content` has bytes.
pub fn extract_maintainer(content: &str) -> (r: Option<String>)
    ensures
        opt_view(r) == maintainer_search(content@, 0, false, content.len() as nat),
{
    let mut cursor = cursor_new(content);
    let mut buf: Vec<u8> = Vec::new();
    let mut in_maintainer = false;
    let mut budget: usize = content.len();
    loop
        invariant
            cursor.content() == content@,
            buf@.len() == 0,
            maintainer_search(content@, cursor.pos(), in_maintainer, budget as nat)
                == maintainer_search(content@, 0, false, content.len() as nat),
        decreases budget,
    {
        let event = cursor_next(&mut cursor, &mut buf);
        match maintainer_step(in_maintainer, event) {
            MaintainerStep::Continue(inside) => in_maintainer = inside,
            MaintainerStep::Found(t) => return t,
            MaintainerStep::Stop => return None,
        }
        buf.clear();
        if budget == 0 {
            return None;
        }
        budget = budget - 1;
    }
}

} // verus!

verus! {

/// The search answers with the first text inside a `maintainer` element: where the
/// events from the `i`th on keep the search going for `k` events (each opening or
/// closing tag moving it into or out of the element as `inside` records, within the
/// budget), and the next event is a text inside the element, the answer is that text,
/// whatever follows it.
pub proof fn law_first_text_inside_maintainer(
    content: Seq<char>,
    i: nat,
    inside: Seq<bool>,
    budget: nat,
    t: Option<Seq<char>>,
)
    requires
        inside.len() >= 1,
        inside.len() - 1 <= budget,
        forall|j: int| 0 <= j < inside.len() - 1 ==> step_of(#[trigger] inside[j], xml_event_at(content, (i + j) as nat))
            == StepView::Continue(inside[j + 1]),
        step_of(inside.last(), xml_event_at(content, (i + inside.len() - 1) as nat)) == StepView::Found(t),
    ensures
        maintainer_search(content, i, inside[0], budget) == t,
    decreases inside.len(),
{
    if inside.len() > 1 {
        let rest = inside.drop_first();
        assert(step_of(inside[0], xml_event_at(content, i)) == StepView::Continue(inside[1]));
        assert forall|j: int| 0 <= j < rest.len() - 1 implies step_of(#[trigger] rest[j], xml_event_at(content, (i + 1 + j) as nat))
            == StepView::Continue(rest[j + 1]) by {
            assert(rest[j] == inside[j + 1]);
            assert(rest[j + 1] == inside[j + 2]);
            assert(step_of(inside[j + 1], xml_event_at(content, (i + (j + 1)) as nat)) == StepView::Continue(inside[j + 2]));
            assert((i + 1 + j) as nat == (i + (j + 1)) as nat);
        }
        assert(rest.last() == inside.last());
        assert((i + 1 + rest.len() - 1) as nat == (i + inside.len() - 1) as nat);
        law_first_text_inside_maintainer(content, i + 1, rest, (budget - 1) as nat, t);
    } else {
        assert(inside.last() == inside[0]);
    }
}

/// The search ends without a maintainer where, before any text inside a `maintainer`
/// element, the document ends or an error comes.
pub proof fn law_no_maintainer_after_stop(content: Seq<char>, i: nat, inside: Seq<bool>, budget: nat)
    requires
        inside.len() >= 1,
        inside.len() - 1 <= budget,
        forall|j: int| 0 <= j < inside.len() - 1 ==> step_of(#[trigger] inside[j], xml_event_at(content, (i + j) as nat))
            == StepView::Continue(inside[j + 1]),
        step_of(inside.last(), xml_event_at(content, (i + inside.len() - 1) as nat)) == StepView::Stop,
    ensures
        maintainer_search(content, i, inside[0], budget) is None,
    decreases inside.len(),
{
    if inside.len() > 1 {
        let rest = inside.drop_first();
        assert(step_of(inside[0], xml_event_at(content, i)) == StepView::Continue(inside[1]));
        assert forall|j: int| 0 <= j < rest.len() - 1 implies step_of(#[trigger] rest[j], xml_event_at(content, (i + 1 + j) as nat))
            == StepView::Continue(rest[j + 1]) by {
            assert(rest[j] == inside[j + 1]);
            assert(rest[j + 1] == inside[j + 2]);
            assert(step_of(inside[j + 1], xml_event_at(content, (i + (j + 1)) as nat)) == StepView::Continue(inside[j + 2]));
            assert((i + 1 + j) as nat == (i + (j + 1)) as nat);
        }
        assert(rest.last() == inside.last());
        assert((i + 1 + rest.len() - 1) as nat == (i + inside.len() - 1) as nat);
        law_no_maintainer_after_stop(content, i + 1, rest, (budget - 1) as nat);
    } else {
        assert(inside.last() == inside[0]);
    }
}

} // verus!
