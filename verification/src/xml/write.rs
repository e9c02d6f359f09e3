//! Decisions taken while writing XML: the qualified name of an element,
//! the namespace declaration it carries, and the events written for a value.

use crate::text::concat;
use crate::xml::namespace::{ns_view, NamespaceOwned};
use vstd::prelude::*;

verus! {

/// The map of namespace to prefix that a list of entries builds, a later
/// entry for a namespace replacing an earlier one.
pub open spec fn prefix_map(s: Seq<(NamespaceOwned, String)>) -> Map<Seq<u8>, Seq<char>>
    decreases s.len(),
{
    if s.len() == 0 {
        Map::empty()
    } else {
        prefix_map(s.drop_last()).insert(s.last().0@, s.last().1@)
    }
}

proof fn lemma_prefix_map_suffix(s: Seq<(NamespaceOwned, String)>, i: int, k: Seq<u8>)
    requires
        0 <= i <= s.len(),
        forall|j: int| i <= j < s.len() ==> #[trigger] s[j].0@ != k,
    ensures
        prefix_map(s).contains_key(k) == prefix_map(s.take(i)).contains_key(k),
        prefix_map(s).contains_key(k) ==> prefix_map(s)[k] == prefix_map(s.take(i))[k],
    decreases s.len() - i,
{
    if i < s.len() {
        let t = s.drop_last();
        assert forall|j: int| i <= j < t.len() implies #[trigger] t[j].0@ != k by {
            assert(t[j] == s[j]);
        }
        lemma_prefix_map_suffix(t, i, k);
        assert(t.take(i) =~= s.take(i));
    } else {
        assert(s.take(i) =~= s);
    }
}

/// The prefixes under which namespaces are written.
#[derive(Debug, Clone)]
pub struct NamespacePrefixes {
    entries: Vec<(NamespaceOwned, String)>,
}

impl View for NamespacePrefixes {
    type V = Map<Seq<u8>, Seq<char>>;

    closed spec fn view(&self) -> Map<Seq<u8>, Seq<char>> {
        prefix_map(self.entries@)
    }
}

impl NamespacePrefixes {
    /// The table built from `(namespace, prefix)` entries; a later entry
    /// for a namespace replaces an earlier one.
    pub fn from_entries(entries: Vec<(NamespaceOwned, String)>) -> (res: NamespacePrefixes)
        ensures
            res@ == prefix_map(entries@),
    {
        NamespacePrefixes { entries }
    }

    /// The empty table.
    pub fn new() -> (res: NamespacePrefixes)
        ensures
            res@ == Map::<Seq<u8>, Seq<char>>::empty(),
    {
        NamespacePrefixes { entries: Vec::new() }
    }

    /// Writes the namespace `ns` under `prefix`, replacing a former prefix of it.
    pub fn insert(&mut self, ns: NamespaceOwned, prefix: String)
        ensures
            final(self)@ == old(self)@.insert(ns@, prefix@),
    {
        let ghost before = self.entries@;
        self.entries.push((ns, prefix));
        assert(self.entries@.drop_last() =~= before);
    }

    /// The prefix of a namespace, when it has one.
    pub fn get(&self, ns: &[u8]) -> (res: Option<&String>)
        ensures
            match res {
                Some(p) => self@.contains_key(ns@) && self@[ns@] == p@,
                None => !self@.contains_key(ns@),
            },
    {
        let mut i: usize = self.entries.len();
        while i > 0
            invariant
                i <= self.entries@.len(),
                forall|j: int| i <= j < self.entries@.len() ==> #[trigger] self.entries@[j].0@ != ns@,
            decreases i,
        {
            if crate::text::bytes_eq(self.entries[i - 1].0.as_bytes(), ns) {
                proof {
                    lemma_prefix_map_suffix(self.entries@, i as int, ns@);
                    assert(self.entries@.take(i as int).drop_last() =~= self.entries@.take(i - 1));
                }
                return Some(&self.entries[i - 1].1);
            }
            i = i - 1;
        }
        proof {
            lemma_prefix_map_suffix(self.entries@, 0, ns@);
            assert(self.entries@.take(0) =~= Seq::<(NamespaceOwned, String)>::empty());
        }
        None
    }
}


/// The text written before a local name for namespace `ns`: the namespace's
/// prefix and a colon, nothing for the empty prefix, and no text at all
/// (`None`) when the namespace has no prefix or there is no namespace.
pub open spec fn prefix_text(ns: Option<Seq<u8>>, prefixes: Map<Seq<u8>, Seq<char>>) -> Option<Seq<char>> {
    match ns {
        Some(n) => if prefixes.contains_key(n) {
            let p = prefixes[n];
            Some(
                if p.len() == 0 {
                    Seq::<char>::empty()
                } else {
                    p + seq![':']
                },
            )
        } else {
            None
        },
        None => None,
    }
}

/// The qualified name written for an element with local name `tag`.
pub open spec fn qname_spec(ns: Option<Seq<u8>>, tag: Option<Seq<char>>, prefixes: Map<Seq<u8>, Seq<char>>) -> Option<Seq<char>> {
    match tag {
        Some(t) => Some(
            match prefix_text(ns, prefixes) {
                Some(p) => p + t,
                None => t,
            },
        ),
        None => None,
    }
}

/// The namespace declared on the element: its own namespace, when the
/// element is written and its namespace has no prefix.
pub open spec fn xmlns_spec(ns: Option<Seq<u8>>, tag: Option<Seq<char>>, prefixes: Map<Seq<u8>, Seq<char>>) -> Option<Seq<u8>> {
    if tag is Some && prefix_text(ns, prefixes) is None {
        ns
    } else {
        None
    }
}

/// Naming an element `tag` of namespace `ns`: a namespace with a prefix
/// writes the prefix, a colon and the tag, and declares nothing; a
/// namespace with the empty prefix writes the bare tag and declares
/// nothing; a namespace without a prefix writes the bare tag and declares
/// the namespace; no namespace writes the bare tag; an element without a
/// tag is not written.
pub proof fn law_element_name(ns: Option<Seq<u8>>, tag: Seq<char>, prefixes: Map<Seq<u8>, Seq<char>>)
    ensures
        ns matches Some(n) ==> (prefixes.contains_key(n) && prefixes[n].len() > 0 ==> qname_spec(ns, Some(tag), prefixes)
            == Some(prefixes[n] + seq![':'] + tag) && xmlns_spec(ns, Some(tag), prefixes) is None),
        ns matches Some(n) ==> (prefixes.contains_key(n) && prefixes[n].len() == 0 ==> qname_spec(ns, Some(tag), prefixes)
            == Some(tag) && xmlns_spec(ns, Some(tag), prefixes) is None),
        ns matches Some(n) ==> (!prefixes.contains_key(n) ==> qname_spec(ns, Some(tag), prefixes) == Some(tag)
            && xmlns_spec(ns, Some(tag), prefixes) == Some(n)),
        ns is None ==> qname_spec(ns, Some(tag), prefixes) == Some(tag) && xmlns_spec(ns, Some(tag), prefixes) is None,
        qname_spec(ns, None, prefixes) is None && xmlns_spec(ns, None, prefixes) is None,
{
    if let Some(n) = ns {
        if prefixes.contains_key(n) && prefixes[n].len() == 0 {
            assert(Seq::<char>::empty() + tag =~= tag);
        }
    }
}

/// How an element is written: its qualified name (none for an element that
/// is written without tags), and the namespace it declares.
#[derive(Debug, Clone)]
pub struct ElementName {
    pub qname: Option<String>,
    pub xmlns: Option<NamespaceOwned>,
}

/// The view of an optional namespace.
pub open spec fn opt_ns(ns: Option<&NamespaceOwned>) -> Option<Seq<u8>> {
    match ns {
        Some(n) => Some(n@),
        None => None,
    }
}

/// The view of an optional string.
pub open spec fn opt_str(s: Option<&str>) -> Option<Seq<char>> {
    match s {
        Some(t) => Some(t@),
        None => None,
    }
}

/// Decides how an element of namespace `ns` and local name `tag` is written.
pub fn element_name(ns: Option<&NamespaceOwned>, tag: Option<&str>, prefixes: &NamespacePrefixes) -> (res: ElementName)
    ensures
        match res.qname {
            Some(q) => qname_spec(opt_ns(ns), opt_str(tag), prefixes@) == Some(q@),
            None => qname_spec(opt_ns(ns), opt_str(tag), prefixes@) is None,
        },
        match res.xmlns {
            Some(x) => xmlns_spec(opt_ns(ns), opt_str(tag), prefixes@) == Some(x@),
            None => xmlns_spec(opt_ns(ns), opt_str(tag), prefixes@) is None,
        },
{
    let prefix: Option<String> = match ns {
        Some(n) => match prefixes.get(n.as_bytes()) {
            Some(p) => {
                if p.as_str().is_empty() {
                    Some(String::new())
                } else {
                    let mut t = p.clone();
                    crate::text::push_char(&mut t, ':');
                    Some(t)
                }
            },
            None => None,
        },
        None => None,
    };
    proof {
        if prefix is Some {
            let n = ns.unwrap();
            let pv = prefixes@[n@];
            if pv.len() == 0 {
                assert(prefix->0@ =~= Seq::<char>::empty());
            }
        }
    }
    let has_prefix = prefix.is_some();
    let qname = match tag {
        Some(t) => match prefix {
            Some(p) => Some(concat(p.as_str(), t)),
            None => Some(t.to_owned()),
        },
        None => None,
    };
    let xmlns = if qname.is_some() && !has_prefix {
        match ns {
            Some(n) => Some(n.duplicate()),
            None => None,
        }
    } else {
        None
    };
    ElementName { qname, xmlns }
}

/// An event written to the XML output.
#[derive(Debug, Clone)]
pub enum WriteEvent {
    /// A start tag with its attributes, names and values.
    Start { name: String, attributes: Vec<(Vec<u8>, Vec<u8>)> },
    /// An empty element with its attributes.
    Empty { name: String, attributes: Vec<(Vec<u8>, Vec<u8>)> },
    /// Character data, escaped when written.
    Text(String),
    /// An end tag.
    End(String),
}

/// The view of a written event: names and text as characters, attributes as bytes.
pub enum WriteEventView {
    Start { name: Seq<char>, attributes: Seq<(Seq<u8>, Seq<u8>)> },
    Empty { name: Seq<char>, attributes: Seq<(Seq<u8>, Seq<u8>)> },
    Text(Seq<char>),
    End(Seq<char>),
}

impl View for WriteEvent {
    type V = WriteEventView;

    open spec fn view(&self) -> WriteEventView {
        match self {
            WriteEvent::Start { name, attributes } => WriteEventView::Start { name: name@, attributes: attrs_view(attributes@) },
            WriteEvent::Empty { name, attributes } => WriteEventView::Empty { name: name@, attributes: attrs_view(attributes@) },
            WriteEvent::Text(t) => WriteEventView::Text(t@),
            WriteEvent::End(n) => WriteEventView::End(n@),
        }
    }
}

/// The view of a list of written events.
pub open spec fn events_view(events: Seq<WriteEvent>) -> Seq<WriteEventView> {
    events.map_values(|e: WriteEvent| e@)
}

/// The attribute name `xmlns`, as bytes.
pub open spec fn xmlns_name() -> Seq<u8> {
    seq![0x78u8, 0x6du8, 0x6cu8, 0x6eu8, 0x73u8]
}

/// The view of a list of attributes: names and values as bytes.
pub open spec fn attrs_view(attrs: Seq<(Vec<u8>, Vec<u8>)>) -> Seq<(Seq<u8>, Seq<u8>)> {
    attrs.map_values(|a: (Vec<u8>, Vec<u8>)| (a.0@, a.1@))
}

/// The namespace declaration (if any) of `xmlns`.
pub open spec fn declaration_spec(xmlns: Option<Seq<u8>>) -> Seq<(Seq<u8>, Seq<u8>)> {
    match xmlns {
        Some(n) => seq![(xmlns_name(), n)],
        None => Seq::empty(),
    }
}

/// An element declares its namespace, when it has to, with the single
/// attribute `xmlns` holding the namespace, and declares nothing otherwise.
pub proof fn law_declaration(xmlns: Option<Seq<u8>>)
    ensures
        xmlns matches Some(n) ==> declaration_spec(xmlns) == seq![(seq![0x78u8, 0x6du8, 0x6cu8, 0x6eu8, 0x73u8], n)],
        xmlns is None ==> declaration_spec(xmlns).len() == 0,
{
}

/// Whether `attrs` is the namespace declaration (if any) of `xmlns`.
pub open spec fn declaration_attrs(attrs: Seq<(Vec<u8>, Vec<u8>)>, xmlns: Option<NamespaceOwned>) -> bool {
    match xmlns {
        Some(n) => attrs.len() == 1 && attrs[0].0@ == xmlns_name() && attrs[0].1@ == n@,
        None => attrs.len() == 0,
    }
}

fn declaration(xmlns: &Option<NamespaceOwned>) -> (res: Vec<(Vec<u8>, Vec<u8>)>)
    ensures
        declaration_attrs(res@, *xmlns),
        attrs_view(res@) == declaration_spec(ns_view(*xmlns)),
{
    let mut v: Vec<(Vec<u8>, Vec<u8>)> = Vec::new();
    match xmlns {
        Some(n) => {
            let k: Vec<u8> = vec![0x78u8, 0x6du8, 0x6cu8, 0x6eu8, 0x73u8];
            assert(k@ =~= xmlns_name());
            v.push((k, n.duplicate().0));
        },
        None => {},
    }
    assert(attrs_view(v@) =~= declaration_spec(ns_view(*xmlns)));
    v
}

/// The events that write a text value: the start tag (with the namespace
/// declaration) when the element has a name, the text, and the end tag.
pub fn value_events(name: &ElementName, text: String) -> (res: Vec<WriteEvent>)
    ensures
        match name.qname {
            Some(q) => res@.len() == 3 && (res@[0] matches WriteEvent::Start { name: n, attributes: a }
                && n@ == q@ && declaration_attrs(a@, name.xmlns)) && (res@[1] matches WriteEvent::Text(t)
                && t@ == text@) && (res@[2] matches WriteEvent::End(e) && e@ == q@),
            None => res@.len() == 1 && (res@[0] matches WriteEvent::Text(t) && t@ == text@),
        },
{
    let mut v: Vec<WriteEvent> = Vec::new();
    match &name.qname {
        Some(q) => {
            let attributes = declaration(&name.xmlns);
            v.push(WriteEvent::Start { name: q.clone(), attributes });
            v.push(WriteEvent::Text(text));
            v.push(WriteEvent::End(q.clone()));
        },
        None => {
            v.push(WriteEvent::Text(text));
        },
    }
    v
}

/// The events that write an element without content: an empty element
/// when it has a name, nothing otherwise.
pub fn unit_events(name: &ElementName) -> (res: Vec<WriteEvent>)
    ensures
        match name.qname {
            Some(q) => res@.len() == 1 && (res@[0] matches WriteEvent::Empty { name: n, attributes: a }
                && n@ == q@ && declaration_attrs(a@, name.xmlns)),
            None => res@.len() == 0,
        },
{
    let mut v: Vec<WriteEvent> = Vec::new();
    match &name.qname {
        Some(q) => {
            let attributes = declaration(&name.xmlns);
            v.push(WriteEvent::Empty { name: q.clone(), attributes });
        },
        None => {},
    }
    v
}

/// The declaration that comes before a serialised document.
pub open spec fn document_header() -> Seq<char> {
    "<?xml version=\"1.0\" encoding=\"utf-8\"?>\n"@
}

/// The declaration written before a serialised document.
pub fn header() -> (res: &'static str)
    ensures
        res@ == document_header(),
{
    "<?xml version=\"1.0\" encoding=\"utf-8\"?>\n"
}


/// The start event of a struct element: a start tag, or an empty element
/// when the struct writes no content, carrying the element's namespace
/// declaration, then `extra` (root prefix declarations, the struct's own
/// attributes and those of its untagged fields), in that order. An element
/// without a name has no start event.
pub fn struct_start_event(name: &ElementName, extra: Vec<(Vec<u8>, Vec<u8>)>, is_empty: bool) -> (res: Option<WriteEvent>)
    ensures
        match name.qname {
            Some(q) => res matches Some(ev) && match ev {
                WriteEvent::Start { name: n, attributes: a } => !is_empty && n@ == q@
                    && attrs_view(a@) == declaration_spec(ns_view(name.xmlns)) + attrs_view(extra@),
                WriteEvent::Empty { name: n, attributes: a } => is_empty && n@ == q@
                    && attrs_view(a@) == declaration_spec(ns_view(name.xmlns)) + attrs_view(extra@),
                _ => false,
            },
            None => res is None,
        },
{
    match &name.qname {
        Some(q) => {
            let mut attributes = declaration(&name.xmlns);
            let ghost decl = attributes@;
            let mut extra = extra;
            let ghost ex = extra@;
            attributes.append(&mut extra);
            assert(attrs_view(attributes@) =~= attrs_view(decl) + attrs_view(ex));
            if is_empty {
                Some(WriteEvent::Empty { name: q.clone(), attributes })
            } else {
                Some(WriteEvent::Start { name: q.clone(), attributes })
            }
        },
        None => None,
    }
}

/// The end event of a struct element: an end tag when the element has a
/// name and content.
pub fn struct_end_event(name: &ElementName, is_empty: bool) -> (res: Option<WriteEvent>)
    ensures
        match name.qname {
            Some(q) => if is_empty {
                res is None
            } else {
                res matches Some(WriteEvent::End(e)) && e@ == q@
            },
            None => res is None,
        },
{
    match &name.qname {
        Some(q) => if is_empty {
            None
        } else {
            Some(WriteEvent::End(q.clone()))
        },
        None => None,
    }
}

} // verus!
