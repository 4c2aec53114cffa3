//! Event-stream document model and its serializer.
use vstd::prelude::*;

verus! {

/// The entity reference that stands for a character in escaped text, or the
/// character itself.
pub open spec fn escape_char(c: char) -> Seq<char> {
    if c == '<' {
        seq!['&', 'l', 't', ';']
    } else if c == '>' {
        seq!['&', 'g', 't', ';']
    } else if c == '\'' {
        seq!['&', 'a', 'p', 'o', 's', ';']
    } else if c == '&' {
        seq!['&', 'a', 'm', 'p', ';']
    } else if c == '"' {
        seq!['&', 'q', 'u', 'o', 't', ';']
    } else {
        seq![c]
    }
}

/// Text with each of `<`, `>`, `'`, `&`, `"` replaced by its entity
/// reference.
pub open spec fn xml_escape(s: Seq<char>) -> Seq<char>
    decreases s.len(),
{
    if s.len() == 0 {
        Seq::empty()
    } else {
        xml_escape(s.drop_last()) + escape_char(s.last())
    }
}

/// No character of `s` can open or close a tag or end an attribute value.
pub open spec fn is_markup_free(s: Seq<char>) -> bool {
    forall|i: int| 0 <= i < s.len() ==> s[i] != '<' && s[i] != '>' && s[i] != '"'
}

#[verifier::spinoff_prover]
pub proof fn lemma_escape_is_markup_free(s: Seq<char>)
    ensures
        is_markup_free(xml_escape(s)),
    decreases s.len(),
{
    if s.len() > 0 {
        lemma_escape_is_markup_free(s.drop_last());
        let a = xml_escape(s.drop_last());
        let b = escape_char(s.last());
        assert forall|i: int| 0 <= i < (a + b).len() implies (a + b)[i] != '<' && (a + b)[i]
            != '>' && (a + b)[i] != '"' by {
            if i >= a.len() {
                assert((a + b)[i] == b[i - a.len()]);
            }
        }
    }
}

/// Relies on `quick_xml::escape::escape`, the escaping that quick-xml applies
/// to text content and to attribute values: it replaces `<`, `>`, `'`, `&`
/// and `"` by `&lt;`, `&gt;`, `&apos;`, `&amp;` and `&quot;`.
#[verifier::external_body]
fn escape(s: &str) -> (r: String)
    ensures
        r@ == xml_escape(s@),
{
    quick_xml::escape::escape(s).into_owned()
}

/// One structural event of a document.
pub enum XmlEvent {
    /// An element opens, with its attributes in the order they are written.
    Start(String, Vec<(String, String)>),
    /// Character data.
    Text(String),
    /// An element closes.
    End(String),
    /// An element with attributes and no content, written self-closed.
    Empty(String, Vec<(String, String)>),
}

/// The mathematical value of an [`XmlEvent`].
pub enum EventView {
    Start(Seq<char>, Seq<(Seq<char>, Seq<char>)>),
    Text(Seq<char>),
    End(Seq<char>),
    Empty(Seq<char>, Seq<(Seq<char>, Seq<char>)>),
}

pub open spec fn attrs_view(attrs: Seq<(String, String)>) -> Seq<(Seq<char>, Seq<char>)> {
    attrs.map_values(|a: (String, String)| (a.0@, a.1@))
}

impl View for XmlEvent {
    type V = EventView;

    open spec fn view(&self) -> EventView {
        match self {
            XmlEvent::Start(n, a) => EventView::Start(n@, attrs_view(a@)),
            XmlEvent::Text(t) => EventView::Text(t@),
            XmlEvent::End(n) => EventView::End(n@),
            XmlEvent::Empty(n, a) => EventView::Empty(n@, attrs_view(a@)),
        }
    }
}

pub open spec fn events_view(es: Seq<XmlEvent>) -> Seq<EventView> {
    es.map_values(|e: XmlEvent| e@)
}

/// The text of an attribute list: each attribute as ` name="escaped value"`.
pub open spec fn attrs_text(attrs: Seq<(Seq<char>, Seq<char>)>) -> Seq<char>
    decreases attrs.len(),
{
    if attrs.len() == 0 {
        Seq::empty()
    } else {
        let a = attrs.last();
        attrs_text(attrs.drop_last()) + seq![' '] + a.0 + seq!['=', '"'] + xml_escape(a.1)
            + seq!['"']
    }
}

/// The text of one event.
pub open spec fn event_text(e: EventView) -> Seq<char> {
    match e {
        EventView::Start(n, a) => seq!['<'] + n + attrs_text(a) + seq!['>'],
        EventView::Text(t) => xml_escape(t),
        EventView::End(n) => seq!['<', '/'] + n + seq!['>'],
        EventView::Empty(n, a) => seq!['<'] + n + attrs_text(a) + seq!['/', '>'],
    }
}

/// The text of a document: the texts of its events, in order, with nothing
/// between them.
pub open spec fn document_text(es: Seq<EventView>) -> Seq<char>
    decreases es.len(),
{
    if es.len() == 0 {
        Seq::empty()
    } else {
        document_text(es.drop_last()) + event_text(es.last())
    }
}

#[verifier::spinoff_prover]
pub proof fn lemma_document_text_append(a: Seq<EventView>, b: Seq<EventView>)
    ensures
        document_text(a + b) == document_text(a) + document_text(b),
    decreases b.len(),
{
    if b.len() == 0 {
        assert(a + b =~= a);
        assert(document_text(b) =~= Seq::<char>::empty());
        assert(document_text(a) + document_text(b) =~= document_text(a));
    } else {
        lemma_document_text_append(a, b.drop_last());
        assert((a + b).drop_last() =~= a + b.drop_last());
        assert(document_text(a) + document_text(b) =~= document_text(a) + document_text(
            b.drop_last(),
        ) + event_text(b.last()));
    }
}

/// An element with no attributes opens.
pub open spec fn open_view(name: Seq<char>) -> EventView {
    EventView::Start(name, Seq::empty())
}

/// An element that holds only `text`.
pub open spec fn text_element_view(name: Seq<char>, text: Seq<char>) -> Seq<EventView> {
    seq![open_view(name), EventView::Text(text), EventView::End(name)]
}

/// An empty element with one attribute.
pub open spec fn attr_element_view(name: Seq<char>, key: Seq<char>, value: Seq<char>) -> Seq<
    EventView,
> {
    seq![EventView::Empty(name, seq![(key, value)])]
}

pub fn start_event(name: &str) -> (r: XmlEvent)
    ensures
        r@ == open_view(name@),
{
    let r = XmlEvent::Start(String::from_str(name), Vec::new());
    proof {
        assert(attrs_view(Seq::<(String, String)>::empty()) =~= Seq::empty());
    }
    r
}

pub fn start_event_with(name: &str, key: &str, value: &str) -> (r: XmlEvent)
    ensures
        r@ == EventView::Start(name@, seq![(key@, value@)]),
{
    let mut attrs: Vec<(String, String)> = Vec::new();
    attrs.push((String::from_str(key), String::from_str(value)));
    let r = XmlEvent::Start(String::from_str(name), attrs);
    proof {
        assert(attrs_view(attrs@) =~= seq![(key@, value@)]);
    }
    r
}

pub fn empty_event_with(name: &str, key: &str, value: &str) -> (r: XmlEvent)
    ensures
        r@ == EventView::Empty(name@, seq![(key@, value@)]),
{
    let mut attrs: Vec<(String, String)> = Vec::new();
    attrs.push((String::from_str(key), String::from_str(value)));
    let r = XmlEvent::Empty(String::from_str(name), attrs);
    proof {
        assert(attrs_view(attrs@) =~= seq![(key@, value@)]);
    }
    r
}

pub fn text_event(text: &str) -> (r: XmlEvent)
    ensures
        r@ == EventView::Text(text@),
{
    XmlEvent::Text(String::from_str(text))
}

pub fn end_event(name: &str) -> (r: XmlEvent)
    ensures
        r@ == EventView::End(name@),
{
    XmlEvent::End(String::from_str(name))
}

pub fn push_event(events: &mut Vec<XmlEvent>, e: XmlEvent)
    ensures
        events_view(final(events)@) == events_view(old(events)@).push(e@),
{
    let ghost v = e@;
    events.push(e);
    proof {
        assert(events_view(events@) =~= events_view(old(events)@).push(v));
    }
}

/// Appends all of `more` to `events`.
pub fn push_events(events: &mut Vec<XmlEvent>, more: Vec<XmlEvent>)
    ensures
        events_view(final(events)@) == events_view(old(events)@) + events_view(more@),
{
    let mut more = more;
    let ghost start = events_view(events@);
    let ghost all = events_view(more@);
    let n = more.len();
    let mut held: Vec<XmlEvent> = Vec::new();
    while more.len() > 0
        invariant
            all.len() == n,
            more@.len() + held@.len() == n,
            events_view(more@) == all.subrange(0, more@.len() as int),
            forall|i: int| 0 <= i < held@.len() ==> held@[i]@ == all[n - 1 - i],
        decreases more.len(),
    {
        let ghost before = more@;
        let e = more.pop().unwrap();
        proof {
            assert(e == before[before.len() - 1]);
            assert(events_view(before)[before.len() - 1] == e@);
        }
        held.push(e);
        proof {
            assert(events_view(more@) =~= all.subrange(0, more@.len() as int));
        }
    }
    while held.len() > 0
        invariant
            all.len() == n,
            held@.len() <= n,
            forall|i: int| 0 <= i < held@.len() ==> held@[i]@ == all[n - 1 - i],
            events_view(events@) == start + all.subrange(0, n - held@.len()),
        decreases held.len(),
    {
        let ghost k = n - held@.len();
        let e = held.pop().unwrap();
        push_event(events, e);
        proof {
            assert(all.subrange(0, k + 1) =~= all.subrange(0, k).push(all[k]));
        }
    }
    proof {
        assert(all.subrange(0, n as int) =~= all);
    }
}

pub fn push_text_element(events: &mut Vec<XmlEvent>, name: &str, text: &str)
    ensures
        events_view(final(events)@) == events_view(old(events)@) + text_element_view(name@, text@),
{
    push_event(events, start_event(name));
    push_event(events, text_event(text));
    push_event(events, end_event(name));
    proof {
        assert(events_view(events@) =~= events_view(old(events)@) + text_element_view(
            name@,
            text@,
        ));
    }
}

pub fn push_attr_element(events: &mut Vec<XmlEvent>, name: &str, key: &str, value: &str)
    ensures
        events_view(final(events)@) == events_view(old(events)@) + attr_element_view(
            name@,
            key@,
            value@,
        ),
{
    push_event(events, empty_event_with(name, key, value));
    proof {
        assert(events_view(events@) =~= events_view(old(events)@) + attr_element_view(
            name@,
            key@,
            value@,
        ));
    }
}

fn append_attrs(out: &mut String, attrs: &Vec<(String, String)>)
    ensures
        final(out)@ == old(out)@ + attrs_text(attrs_view(attrs@)),
{
    let ghost start = out@;
    let mut i: usize = 0;
    while i < attrs.len()
        invariant
            i <= attrs@.len(),
            out@ == start + attrs_text(attrs_view(attrs@.subrange(0, i as int))),
        decreases attrs.len() - i,
    {
        let a = &attrs[i];
        out.append(" ");
        out.append(a.0.as_str());
        out.append("=\"");
        let v = escape(a.1.as_str());
        out.append(v.as_str());
        out.append("\"");
        proof {
            reveal_strlit(" ");
            reveal_strlit("=\"");
            reveal_strlit("\"");
            let pre = attrs_view(attrs@.subrange(0, i as int));
            let post = attrs_view(attrs@.subrange(0, i + 1));
            assert(post.drop_last() =~= pre);
            assert(post.last() == (a.0@, a.1@));
            assert(out@ =~= start + attrs_text(post));
        }
        i += 1;
    }
    proof {
        assert(attrs@.subrange(0, attrs@.len() as int) =~= attrs@);
    }
}

fn append_event(out: &mut String, e: &XmlEvent)
    ensures
        final(out)@ == old(out)@ + event_text(e@),
{
    let ghost start = out@;
    match e {
        XmlEvent::Start(n, a) => {
            out.append("<");
            out.append(n.as_str());
            append_attrs(out, a);
            out.append(">");
            proof {
                reveal_strlit("<");
                reveal_strlit(">");
                assert(out@ =~= start + event_text(e@));
            }
        },
        XmlEvent::Empty(n, a) => {
            out.append("<");
            out.append(n.as_str());
            append_attrs(out, a);
            out.append("/>");
            proof {
                reveal_strlit("<");
                reveal_strlit("/>");
                assert(out@ =~= start + event_text(e@));
            }
        },
        XmlEvent::Text(t) => {
            let v = escape(t.as_str());
            out.append(v.as_str());
        },
        XmlEvent::End(n) => {
            out.append("</");
            out.append(n.as_str());
            out.append(">");
            proof {
                reveal_strlit("</");
                reveal_strlit(">");
                assert(out@ =~= start + event_text(e@));
            }
        },
    }
}

/// Renders a document: attributes in the order given, no whitespace added,
/// text and attribute values escaped.
pub fn xml_events_to_xml_string(events: &[XmlEvent]) -> (r: String)
    ensures
        r@ == document_text(events_view(events@)),
{
    let mut out = String::new();
    let mut i: usize = 0;
    while i < events.len()
        invariant
            i <= events@.len(),
            out@ == document_text(events_view(events@.subrange(0, i as int))),
        decreases events.len() - i,
    {
        append_event(&mut out, &events[i]);
        proof {
            let pre = events_view(events@.subrange(0, i as int));
            let post = events_view(events@.subrange(0, i + 1));
            assert(post.drop_last() =~= pre);
        }
        i += 1;
    }
    proof {
        assert(events@.subrange(0, events@.len() as int) =~= events@);
    }
    out
}

/// The elements left open after a document, outermost first, or `None` where
/// an element closes that is not the innermost one open.
pub open spec fn open_elements(es: Seq<EventView>) -> Option<Seq<Seq<char>>>
    decreases es.len(),
{
    if es.len() == 0 {
        Some(Seq::empty())
    } else {
        match open_elements(es.drop_last()) {
            None => None,
            Some(st) => match es.last() {
                EventView::Start(n, _) => Some(st.push(n)),
                EventView::End(n) => if st.len() > 0 && st.last() == n {
                    Some(st.drop_last())
                } else {
                    None
                },
                _ => Some(st),
            },
        }
    }
}

/// Every element that opens closes, innermost first.
pub open spec fn is_well_formed(es: Seq<EventView>) -> bool {
    open_elements(es) == Some(Seq::<Seq<char>>::empty())
}

/// Tells a well-formed document from a malformed one, whose elements do not
/// nest.
pub fn is_well_formed_document(events: &[XmlEvent]) -> (r: bool)
    ensures
        r == is_well_formed(events_view(events@)),
{
    let mut stack: Vec<String> = Vec::new();
    let mut ok = true;
    let mut i: usize = 0;
    let ghost es = events_view(events@);
    proof {
        assert(stack@.map_values(|s: String| s@) =~= Seq::<Seq<char>>::empty());
    }
    while i < events.len()
        invariant
            i <= events@.len(),
            es == events_view(events@),
            ok ==> open_elements(es.subrange(0, i as int)) == Some(
                stack@.map_values(|s: String| s@),
            ),
            !ok ==> open_elements(es.subrange(0, i as int)) is None,
        decreases events.len() - i,
    {
        proof {
            assert(es.subrange(0, i + 1).drop_last() =~= es.subrange(0, i as int));
            assert(es.subrange(0, i + 1).last() == events@[i as int]@);
        }
        if ok {
            let ghost st = stack@.map_values(|s: String| s@);
            match &events[i] {
                XmlEvent::Start(n, _) => {
                    stack.push(n.clone());
                    proof {
                        assert(stack@.map_values(|s: String| s@) =~= st.push(n@));
                    }
                },
                XmlEvent::End(n) => {
                    let k = stack.len();
                    if k > 0 && stack[k - 1] == *n {
                        stack.pop();
                        proof {
                            assert(stack@.map_values(|s: String| s@) =~= st.drop_last());
                        }
                    } else {
                        proof {
                            if k > 0 {
                                assert(st.last() == stack@[k - 1]@);
                            }
                        }
                        ok = false;
                    }
                },
                _ => {},
            }
        }
        i += 1;
    }
    proof {
        assert(es.subrange(0, events@.len() as int) =~= es);
        let m = stack@.map_values(|s: String| s@);
        if stack@.len() == 0 {
            assert(m =~= Seq::<Seq<char>>::empty());
        } else {
            assert(m.len() != Seq::<Seq<char>>::empty().len());
        }
    }
    ok && stack.len() == 0
}

/// A tag as a reader of the text sees it.
pub enum TagView {
    /// An element opens, with its attributes as written: names and escaped
    /// values, in order.
    Open(Seq<char>, Seq<(Seq<char>, Seq<char>)>),
    Close(Seq<char>),
    Empty(Seq<char>, Seq<(Seq<char>, Seq<char>)>),
}

/// Attributes as they are written: each value escaped.
pub open spec fn written_attrs(a: Seq<(Seq<char>, Seq<char>)>) -> Seq<(Seq<char>, Seq<char>)> {
    a.map_values(|p: (Seq<char>, Seq<char>)| (p.0, xml_escape(p.1)))
}

/// Reads an attribute list ` name="value"` ... from its end; values are
/// taken as written.
pub open spec fn read_attrs(s: Seq<char>) -> Seq<(Seq<char>, Seq<char>)>
    decreases s.len(),
{
    if s.len() == 0 || s.last() != '"' {
        Seq::empty()
    } else {
        let body = s.drop_last();
        let q = last_index_of(body, '"');
        if 1 <= q && q < body.len() && body[q - 1] == '=' {
            let sp = last_index_of(body.subrange(0, q - 1), ' ');
            if 0 <= sp && sp < q - 1 {
                read_attrs(body.subrange(0, sp)).push(
                    (body.subrange(sp + 1, q - 1), body.subrange(q + 1, body.len() as int)),
                )
            } else {
                Seq::empty()
            }
        } else {
            Seq::empty()
        }
    }
}

/// The element name and attribute list inside a tag.
pub open spec fn open_tag_of(inner: Seq<char>) -> (Seq<char>, Seq<(Seq<char>, Seq<char>)>) {
    let n = name_part(inner);
    (n, read_attrs(inner.subrange(n.len() as int, inner.len() as int)))
}

/// The tags of a document, in order; text carries no structure.
pub open spec fn tags_of(es: Seq<EventView>) -> Seq<TagView>
    decreases es.len(),
{
    if es.len() == 0 {
        Seq::empty()
    } else {
        let t = tags_of(es.drop_last());
        match es.last() {
            EventView::Start(n, a) => t.push(TagView::Open(n, written_attrs(a))),
            EventView::End(n) => t.push(TagView::Close(n)),
            EventView::Empty(n, a) => t.push(TagView::Empty(n, written_attrs(a))),
            EventView::Text(_) => t,
        }
    }
}

/// A name of an element or attribute: not empty, and free of the characters
/// that delimit names, tags and values.
pub open spec fn is_xml_name(n: Seq<char>) -> bool {
    &&& n.len() > 0
    &&& forall|i: int|
        0 <= i < n.len() ==> n[i] != '<' && n[i] != '>' && n[i] != '/' && n[i] != ' ' && n[i]
            != '"' && n[i] != '='
}

/// The element and attributes of an event have proper names.
pub open spec fn event_names_valid(e: EventView) -> bool {
    match e {
        EventView::Start(n, a) => is_xml_name(n) && forall|j: int|
            0 <= j < a.len() ==> is_xml_name(#[trigger] a[j].0),
        EventView::Empty(n, a) => is_xml_name(n) && forall|j: int|
            0 <= j < a.len() ==> is_xml_name(#[trigger] a[j].0),
        EventView::End(n) => is_xml_name(n),
        EventView::Text(_) => true,
    }
}

/// Every element and attribute of the document has a proper name.
pub open spec fn has_valid_names(es: Seq<EventView>) -> bool {
    forall|i: int| 0 <= i < es.len() ==> event_names_valid(#[trigger] es[i])
}

/// The position of the last `c` in `s`, or -1.
pub open spec fn last_index_of(s: Seq<char>, c: char) -> int
    decreases s.len(),
{
    if s.len() == 0 {
        -1
    } else if s.last() == c {
        s.len() - 1
    } else {
        last_index_of(s.drop_last(), c)
    }
}

/// The name at the start of a tag's inside: up to the first space.
pub open spec fn name_part(s: Seq<char>) -> Seq<char>
    decreases s.len(),
{
    if s.len() == 0 {
        s
    } else if s[0] == ' ' {
        Seq::empty()
    } else {
        seq![s[0]] + name_part(s.drop_first())
    }
}

/// The tag that the text `<...>` stands for.
pub open spec fn tag_of(t: Seq<char>) -> TagView {
    let inner = t.subrange(1, t.len() - 1);
    if inner.len() > 0 && inner[0] == '/' {
        TagView::Close(inner.drop_first())
    } else if inner.len() > 0 && inner.last() == '/' {
        TagView::Empty(open_tag_of(inner.drop_last()).0, open_tag_of(inner.drop_last()).1)
    } else {
        TagView::Open(open_tag_of(inner).0, open_tag_of(inner).1)
    }
}

/// Reads the tags of a text from its end: a `>` ends a tag that the last `<`
/// before it starts; any other character is text.
pub open spec fn read_tags(s: Seq<char>) -> Seq<TagView>
    decreases s.len(),
{
    if s.len() == 0 {
        Seq::empty()
    } else if s.last() != '>' {
        read_tags(s.drop_last())
    } else {
        let k = last_index_of(s, '<');
        if 0 <= k && k < s.len() {
            read_tags(s.subrange(0, k)).push(tag_of(s.subrange(k, s.len() as int)))
        } else {
            Seq::empty()
        }
    }
}

#[verifier::spinoff_prover]
proof fn lemma_skip_text(p: Seq<char>, t: Seq<char>)
    requires
        forall|i: int| 0 <= i < t.len() ==> t[i] != '>',
    ensures
        read_tags(p + t) == read_tags(p),
    decreases t.len(),
{
    if t.len() == 0 {
        assert(p + t =~= p);
    } else {
        assert((p + t).drop_last() =~= p + t.drop_last());
        assert((p + t).last() == t.last());
        lemma_skip_text(p, t.drop_last());
    }
}

#[verifier::spinoff_prover]
proof fn lemma_last_index(s: Seq<char>, c: char, k: int)
    requires
        0 <= k < s.len(),
        s[k] == c,
        forall|j: int| k < j < s.len() ==> s[j] != c,
    ensures
        last_index_of(s, c) == k,
    decreases s.len(),
{
    if k < s.len() - 1 {
        lemma_last_index(s.drop_last(), c, k);
    }
}

#[verifier::spinoff_prover]
proof fn lemma_name_part(n: Seq<char>, rest: Seq<char>)
    requires
        forall|i: int| 0 <= i < n.len() ==> n[i] != ' ',
        rest.len() == 0 || rest[0] == ' ',
    ensures
        name_part(n + rest) == n,
    decreases n.len(),
{
    if n.len() == 0 {
        assert(n + rest =~= rest);
    } else {
        assert((n + rest).drop_first() =~= n.drop_first() + rest);
        lemma_name_part(n.drop_first(), rest);
        assert(n =~= seq![n[0]] + n.drop_first());
    }
}

#[verifier::spinoff_prover]
#[verifier::rlimit(40)]
proof fn lemma_read_attrs(a: Seq<(Seq<char>, Seq<char>)>)
    requires
        forall|j: int| 0 <= j < a.len() ==> is_xml_name(#[trigger] a[j].0),
    ensures
        read_attrs(attrs_text(a)) == written_attrs(a),
    decreases a.len(),
{
    if a.len() == 0 {
        assert(written_attrs(a) =~= Seq::empty());
    } else {
        let b = a.drop_last();
        assert forall|j: int| 0 <= j < b.len() implies is_xml_name(#[trigger] b[j].0) by {
            assert(b[j] == a[j]);
        }
        lemma_read_attrs(b);
        let k = a.last().0;
        let v = a.last().1;
        assert(is_xml_name(a[a.len() - 1].0));
        lemma_escape_is_markup_free(v);
        let ev = xml_escape(v);
        let x = attrs_text(b);
        let s = attrs_text(a);
        assert(s =~= x + seq![' '] + k + seq!['=', '"'] + ev + seq!['"']);
        let body = s.drop_last();
        assert(body =~= x + seq![' '] + k + seq!['=', '"'] + ev);
        let q: int = (x.len() + k.len() + 2) as int;
        assert(body[q] == '"');
        assert forall|j: int| q < j < body.len() implies body[j] != '"' by {
            assert(body[j] == ev[j - q - 1]);
        }
        lemma_last_index(body, '"', q);
        assert(body[q - 1] == '=');
        let pre = body.subrange(0, q - 1);
        assert(pre =~= x + seq![' '] + k);
        assert forall|j: int| x.len() < j < pre.len() implies pre[j] != ' ' by {
            assert(pre[j] == k[j - x.len() - 1]);
        }
        lemma_last_index(pre, ' ', x.len() as int);
        assert(body.subrange(0, x.len() as int) =~= x);
        assert(body.subrange(x.len() as int + 1, q - 1) =~= k);
        assert(body.subrange(q + 1, body.len() as int) =~= ev);
        assert(written_attrs(a) =~= written_attrs(b).push((k, ev)));
    }
}

#[verifier::spinoff_prover]
proof fn lemma_attrs_text_shape(a: Seq<(Seq<char>, Seq<char>)>)
    requires
        forall|j: int| 0 <= j < a.len() ==> is_xml_name(#[trigger] a[j].0),
    ensures
        forall|i: int| 0 <= i < attrs_text(a).len() ==> attrs_text(a)[i] != '<',
        attrs_text(a).len() > 0 ==> attrs_text(a)[0] == ' ',
    decreases a.len(),
{
    if a.len() > 0 {
        let b = a.drop_last();
        assert forall|j: int| 0 <= j < b.len() implies is_xml_name(#[trigger] b[j].0) by {
            assert(b[j] == a[j]);
        }
        lemma_attrs_text_shape(b);
        let last = a.last();
        assert(is_xml_name(a[a.len() - 1].0));
        lemma_escape_is_markup_free(last.1);
        let x = attrs_text(b);
        let y = seq![' '] + last.0 + seq!['=', '"'] + xml_escape(last.1) + seq!['"'];
        assert(attrs_text(a) =~= x + y);
        assert forall|i: int| 0 <= i < (x + y).len() implies (x + y)[i] != '<' by {
            if i >= x.len() {
                let j = i - x.len();
                assert((x + y)[i] == y[j]);
                let e = xml_escape(last.1);
                if 1 <= j < 1 + last.0.len() {
                    assert(y[j] == last.0[j - 1]);
                } else if 3 + last.0.len() <= j < 3 + last.0.len() + e.len() {
                    assert(y[j] == e[j - 3 - last.0.len()]);
                }
            }
        }
    }
}

#[verifier::spinoff_prover]
#[verifier::rlimit(40)]
proof fn lemma_read_tag(p: Seq<char>, e: EventView)
    requires
        !(e is Text),
        has_valid_names(seq![e]),
    ensures
        read_tags(p + event_text(e)) == read_tags(p).push(
            match e {
                EventView::Start(n, a) => TagView::Open(n, written_attrs(a)),
                EventView::End(n) => TagView::Close(n),
                EventView::Empty(n, a) => TagView::Empty(n, written_attrs(a)),
                EventView::Text(_) => TagView::Close(Seq::empty()),
            },
        ),
{
    assert(seq![e][0] == e);
    let t = event_text(e);
    let s = p + t;
    match e {
        EventView::Start(n, a) => {
            lemma_attrs_text_shape(a);
            let at = attrs_text(a);
            assert(t =~= seq!['<'] + (n + at) + seq!['>']);
            assert forall|j: int| p.len() < j < s.len() implies s[j] != '<' by {
                let m = j - p.len();
                assert(s[j] == t[m]);
                if m <= n.len() {
                    assert(t[m] == n[m - 1]);
                } else if m < t.len() - 1 {
                    assert(t[m] == at[m - 1 - n.len()]);
                }
            }
            lemma_last_index(s, '<', p.len() as int);
            assert(s.subrange(0, p.len() as int) =~= p);
            assert(s.subrange(p.len() as int, s.len() as int) =~= t);
            assert(t.subrange(1, t.len() - 1) =~= n + at);
            assert((n + at)[0] == n[0]);
            if at.len() > 0 {
                assert((n + at).last() == at.last());
            } else {
                assert((n + at).last() == n.last());
            }
            lemma_name_part(n, at);
            lemma_read_attrs(a);
            assert((n + at).subrange(n.len() as int, (n + at).len() as int) =~= at);
        },
        EventView::Empty(n, a) => {
            lemma_attrs_text_shape(a);
            let at = attrs_text(a);
            assert(t =~= seq!['<'] + (n + at + seq!['/']) + seq!['>']);
            assert forall|j: int| p.len() < j < s.len() implies s[j] != '<' by {
                let m = j - p.len();
                assert(s[j] == t[m]);
                if m <= n.len() {
                    assert(t[m] == n[m - 1]);
                } else if m < t.len() - 2 {
                    assert(t[m] == at[m - 1 - n.len()]);
                }
            }
            lemma_last_index(s, '<', p.len() as int);
            assert(s.subrange(0, p.len() as int) =~= p);
            assert(s.subrange(p.len() as int, s.len() as int) =~= t);
            assert(t.subrange(1, t.len() - 1) =~= n + at + seq!['/']);
            assert((n + at + seq!['/'])[0] == n[0]);
            assert((n + at + seq!['/']).drop_last() =~= n + at);
            lemma_name_part(n, at);
            lemma_read_attrs(a);
            assert((n + at).subrange(n.len() as int, (n + at).len() as int) =~= at);
        },
        EventView::End(n) => {
            assert(t =~= seq!['<', '/'] + n + seq!['>']);
            assert forall|j: int| p.len() < j < s.len() implies s[j] != '<' by {
                let m = j - p.len();
                assert(s[j] == t[m]);
                if 2 <= m < 2 + n.len() {
                    assert(t[m] == n[m - 2]);
                }
            }
            lemma_last_index(s, '<', p.len() as int);
            assert(s.subrange(0, p.len() as int) =~= p);
            assert(s.subrange(p.len() as int, s.len() as int) =~= t);
            assert(t.subrange(1, t.len() - 1) =~= seq!['/'] + n);
            assert((seq!['/'] + n).drop_first() =~= n);
        },
        EventView::Text(_) => {},
    }
}

/// Serializing keeps the structure: reading the tags back from the text of a
/// document whose names are proper gives the document's own tags, opening and
/// closing in the same order, so the nesting is the same, each with its
/// attributes in order, names as given and values as escaped.
#[verifier::spinoff_prover]
pub proof fn structure_survives_serialization(es: Seq<EventView>)
    requires
        has_valid_names(es),
    ensures
        read_tags(document_text(es)) == tags_of(es),
    decreases es.len(),
{
    if es.len() > 0 {
        let pre = es.drop_last();
        assert(has_valid_names(pre)) by {
            assert forall|i: int| 0 <= i < pre.len() implies event_names_valid(#[trigger] pre[i]) by {
                assert(pre[i] == es[i]);
            }
        }
        structure_survives_serialization(pre);
        let e = es.last();
        match e {
            EventView::Text(t) => {
                lemma_escape_is_markup_free(t);
                lemma_skip_text(document_text(pre), xml_escape(t));
            },
            _ => {
                assert(has_valid_names(seq![e])) by {
                    assert forall|i: int| 0 <= i < 1 implies event_names_valid(
                        #[trigger] seq![e][i],
                    ) by {
                        assert(seq![e][i] == es[es.len() - 1]);
                    }
                }
                lemma_read_tag(document_text(pre), e);
            },
        }
    }
}

} // verus!
