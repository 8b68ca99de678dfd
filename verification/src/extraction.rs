//! Entities of a page (links, images, headings, forms and metadata) as the
//! knowledge panel shows them. The HTML is parsed and searched by `scraper`;
//! what counts as an entity, and how it is labelled, is decided here.

use vstd::prelude::*;
use crate::text::{chars_of, concat_chars, string_of, trim, trim_chars};

verus! {

/// One entity found on a page.
#[derive(Debug, Clone)]
pub struct ExtractedEntity {
    pub kind: String,
    pub value: String,
    pub label: String,
    pub metadata: Vec<(String, String)>,
}

/// An element that a selector found: its text nodes in document order, and
/// the values of the attributes that were asked for, in the order asked.
pub type ElementRecord = (Seq<Seq<char>>, Seq<Option<Seq<char>>>);

/// An entity as plain values: (kind, value, label, metadata).
pub type EntityView = (Seq<char>, Seq<char>, Seq<char>, Seq<(Seq<char>, Seq<char>)>);

/// The selectors this module asks for; each is well formed.
pub open spec fn known_selector(s: Seq<char>) -> bool {
    s == "a[href]"@ || s == "img[src]"@ || s == "h1"@ || s == "h2"@ || s == "h3"@ || s == "h4"@
        || s == "h5"@ || s == "h6"@ || s == "form"@ || s == "meta"@
}

/// What `scraper` finds when it parses `html` as a document and selects
/// with `selector`: one record per selected element, in document order,
/// holding the element's descendant text nodes and the values of the
/// attributes named in `attrs`.
pub uninterp spec fn selected_elements(html: Seq<char>, selector: Seq<char>, attrs: Seq<Seq<char>>) -> Seq<ElementRecord>;

/// The records as plain values.
pub open spec fn records_view(r: Seq<(Vec<String>, Vec<Option<String>>)>) -> Seq<ElementRecord> {
    Seq::new(r.len(), |i: int| (
        Seq::new(r[i].0@.len(), |j: int| r[i].0@[j]@),
        Seq::new(r[i].1@.len(), |j: int| match r[i].1@[j] { Some(v) => Some(v@), None => None }),
    ))
}

pub open spec fn names_view(a: Seq<&str>) -> Seq<Seq<char>> {
    Seq::new(a.len(), |i: int| a[i]@)
}

/// `scraper::Html::parse_document`, then `Selector::parse` and `select`:
/// for each selected element, its `text()` nodes and its `attr(..)` values.
#[verifier::external_body]
fn select_elements(html: &str, selector: &str, attrs: &[&str]) -> (r: Vec<(Vec<String>, Vec<Option<String>>)>)
    requires
        known_selector(selector@),
    ensures
        records_view(r@) == selected_elements(html@, selector@, names_view(attrs@)),
{
    let document = scraper::Html::parse_document(html);
    let parsed = scraper::Selector::parse(selector).unwrap();
    let mut out = Vec::new();
    for element in document.select(&parsed) {
        let text: Vec<String> = element.text().map(String::from).collect();
        let mut values = Vec::new();
        for name in attrs {
            values.push(element.value().attr(name).map(String::from));
        }
        out.push((text, values));
    }
    out
}

/// The text nodes joined with single spaces.
pub open spec fn join_spaced(parts: Seq<Seq<char>>) -> Seq<char>
    decreases parts.len(),
{
    if parts.len() == 0 {
        Seq::empty()
    } else if parts.len() == 1 {
        parts[0]
    } else {
        join_spaced(parts.drop_last()) + seq![' '] + parts.last()
    }
}

/// The trimmed text of an element.
pub open spec fn element_text(r: ElementRecord) -> Seq<char> {
    trim(join_spaced(r.0))
}

/// The value of the `i`-th attribute asked for.
pub open spec fn attr_at(r: ElementRecord, i: int) -> Option<Seq<char>> {
    if 0 <= i < r.1.len() { r.1[i] } else { None }
}

pub open spec fn or_empty(o: Option<Seq<char>>) -> Seq<char> {
    match o {
        Some(v) => v,
        None => Seq::empty(),
    }
}

/// The kinds of entity, in the order they are reported: links, images,
/// headings of levels 1 to 6, forms, metadata.
pub open spec fn heading_kind(level: int) -> Seq<char> {
    seq!['h', (('0' as int) + level) as char]
}

/// The entity that one selected element gives, if any.
///  - a link (`a[href]`, asked for `href`) whose target is not empty and
///    does not start with '#': labelled by its text, else its target;
///  - an image (`img[src]`, asked for `src` and `alt`): labelled by its
///    alternative text, else its source;
///  - a heading of level 1 to 6 with text: its text as value and label;
///  - a form (asked for `action` and `method`): its action, labelled
///    "action [method]", the method defaulting to "GET" and kept in the
///    metadata;
///  - a meta tag (asked for `name`, `property`, `content`) with a name (or
///    else a property) and a content, neither empty: labelled "name: content".
pub open spec fn entity_for(kind: int, r: ElementRecord) -> Option<EntityView> {
    if kind == 0 {
        match attr_at(r, 0) {
            Some(href) => if href.len() > 0 && href[0] != '#' {
                let text = element_text(r);
                Some(("link"@, href, if text.len() == 0 { href } else { text }, Seq::empty()))
            } else {
                None
            },
            None => None,
        }
    } else if kind == 1 {
        match attr_at(r, 0) {
            Some(src) => {
                let alt = or_empty(attr_at(r, 1));
                Some(("image"@, src, if alt.len() == 0 { src } else { alt }, Seq::empty()))
            },
            None => None,
        }
    } else if 2 <= kind <= 7 {
        let text = element_text(r);
        if text.len() > 0 { Some((heading_kind(kind - 1), text, text, Seq::empty())) } else { None }
    } else if kind == 8 {
        let action = or_empty(attr_at(r, 0));
        let method = match attr_at(r, 1) { Some(m) => m, None => "GET"@ };
        Some(("form"@, action, action + " ["@ + method + "]"@, seq![("method"@, method)]))
    } else {
        let name = match attr_at(r, 0) { Some(n) => n, None => or_empty(attr_at(r, 1)) };
        let content = or_empty(attr_at(r, 2));
        if name.len() > 0 && content.len() > 0 {
            Some(("metadata"@, content, name + ": "@ + content, Seq::empty()))
        } else {
            None
        }
    }
}

/// The entities that a list of selected elements gives, in order.
pub open spec fn entities_of(kind: int, recs: Seq<ElementRecord>) -> Seq<EntityView>
    decreases recs.len(),
{
    if recs.len() == 0 {
        Seq::empty()
    } else {
        let rest = entities_of(kind, recs.drop_last());
        match entity_for(kind, recs.last()) {
            Some(e) => rest.push(e),
            None => rest,
        }
    }
}

/// The selector and attributes asked for each kind.
pub open spec fn kind_selector(kind: int) -> Seq<char> {
    if kind == 0 { "a[href]"@ }
    else if kind == 1 { "img[src]"@ }
    else if kind == 2 { "h1"@ }
    else if kind == 3 { "h2"@ }
    else if kind == 4 { "h3"@ }
    else if kind == 5 { "h4"@ }
    else if kind == 6 { "h5"@ }
    else if kind == 7 { "h6"@ }
    else if kind == 8 { "form"@ }
    else { "meta"@ }
}

pub open spec fn kind_attrs(kind: int) -> Seq<Seq<char>> {
    if kind == 0 { seq!["href"@] }
    else if kind == 1 { seq!["src"@, "alt"@] }
    else if kind == 8 { seq!["action"@, "method"@] }
    else if kind == 9 { seq!["name"@, "property"@, "content"@] }
    else { Seq::empty() }
}

/// The entities of the kinds below `n`, in kind order.
pub open spec fn entities_upto(html: Seq<char>, n: int) -> Seq<EntityView>
    decreases n,
{
    if n <= 0 {
        Seq::empty()
    } else {
        entities_upto(html, n - 1) + entities_of(n - 1, selected_elements(html, kind_selector(n - 1), kind_attrs(n - 1)))
    }
}

/// The entities of a page: every kind, in kind order.
pub open spec fn page_entities(html: Seq<char>) -> Seq<EntityView> {
    entities_upto(html, 10)
}

impl ExtractedEntity {
    pub open spec fn view(&self) -> EntityView {
        (self.kind@, self.value@, self.label@, Seq::new(self.metadata@.len(), |i: int| (self.metadata@[i].0@, self.metadata@[i].1@)))
    }
}

pub open spec fn entities_view(v: Seq<ExtractedEntity>) -> Seq<EntityView> {
    Seq::new(v.len(), |i: int| v[i].view())
}

fn join_text(parts: &Vec<String>) -> (r: Vec<char>)
    ensures
        r@ == join_spaced(Seq::new(parts@.len(), |j: int| parts@[j]@)),
{
    let ghost pv = Seq::new(parts@.len(), |j: int| parts@[j]@);
    let mut out: Vec<char> = Vec::new();
    let mut i: usize = 0;
    while i < parts.len()
        invariant
            i <= parts@.len(),
            pv == Seq::new(parts@.len(), |j: int| parts@[j]@),
            out@ == join_spaced(pv.subrange(0, i as int)),
        decreases parts@.len() - i,
    {
        let piece = chars_of(parts[i].as_str());
        proof {
            let pre = pv.subrange(0, i as int + 1);
            assert(pre.drop_last() =~= pv.subrange(0, i as int));
            assert(pre.last() == piece@);
        }
        if i == 0 {
            out = piece;
            assert(pv.subrange(0, 1) =~= seq![pv[0]]);
        } else {
            let sep: Vec<char> = vec![' '];
            let with_sep = concat_chars(out.as_slice(), sep.as_slice());
            out = concat_chars(with_sep.as_slice(), piece.as_slice());
            assert(sep@ =~= seq![' ']);
        }
        i = i + 1;
    }
    assert(pv.subrange(0, parts@.len() as int) =~= pv);
    out
}

fn opt_chars(o: &Option<String>) -> (r: Option<Vec<char>>)
    ensures
        match r {
            Some(v) => *o matches Some(s) && v@ == s@,
            None => o is None,
        },
{
    match o {
        Some(s) => Some(chars_of(s.as_str())),
        None => None,
    }
}

fn text_of(s: &str) -> (r: String)
    ensures
        r@ == s@,
{
    crate::text::owned(s)
}

fn record_attr(rec: &(Vec<String>, Vec<Option<String>>), i: usize) -> (a: Option<Vec<char>>)
    ensures
        match a {
            Some(v) => attr_at(records_view(seq![*rec])[0], i as int) == Some(v@),
            None => attr_at(records_view(seq![*rec])[0], i as int) is None,
        },
{
    if i < rec.1.len() { opt_chars(&rec.1[i]) } else { None }
}

/// The entity that one selected element gives, if any.
fn entity_for_record(kind: u8, rec: &(Vec<String>, Vec<Option<String>>)) -> (r: Option<ExtractedEntity>)
    requires
        kind < 10,
    ensures
        match r {
            Some(e) => entity_for(kind as int, records_view(seq![*rec])[0]) == Some(e.view()),
            None => entity_for(kind as int, records_view(seq![*rec])[0]) is None,
        },
{
    let ghost rv = records_view(seq![*rec])[0];
    assert(rv.0 =~= Seq::new(rec.0@.len(), |j: int| rec.0@[j]@));
    if kind == 0 {
        match record_attr(rec, 0) {
            Some(href) => {
                if href.len() > 0 && href[0] != '#' {
                    let joined = join_text(&rec.0);
                    let text = trim_chars(joined.as_slice());
                    let label = if text.len() == 0 { string_of(href.as_slice()) } else { string_of(text.as_slice()) };
                    Some(ExtractedEntity { kind: text_of("link"), value: string_of(href.as_slice()), label, metadata: Vec::new() })
                } else {
                    None
                }
            },
            None => None,
        }
    } else if kind == 1 {
        match record_attr(rec, 0) {
            Some(src) => {
                let alt = match record_attr(rec, 1) {
                    Some(a) => a,
                    None => Vec::new(),
                };
                let label = if alt.len() == 0 { string_of(src.as_slice()) } else { string_of(alt.as_slice()) };
                Some(ExtractedEntity { kind: text_of("image"), value: string_of(src.as_slice()), label, metadata: Vec::new() })
            },
            None => None,
        }
    } else if kind <= 7 {
        let joined = join_text(&rec.0);
        let text = trim_chars(joined.as_slice());
        if text.len() > 0 {
            let digit: char = if kind == 2 { '1' } else if kind == 3 { '2' } else if kind == 4 { '3' }
                else if kind == 5 { '4' } else if kind == 6 { '5' } else { '6' };
            let k: Vec<char> = vec!['h', digit];
            assert(k@ =~= heading_kind(kind - 1));
            Some(ExtractedEntity { kind: string_of(k.as_slice()), value: string_of(text.as_slice()), label: string_of(text.as_slice()), metadata: Vec::new() })
        } else {
            None
        }
    } else if kind == 8 {
        let action = match record_attr(rec, 0) {
            Some(a) => a,
            None => Vec::new(),
        };
        let method = match record_attr(rec, 1) {
            Some(m) => m,
            None => chars_of("GET"),
        };
        let open = chars_of(" [");
        let close = chars_of("]");
        let l1 = concat_chars(action.as_slice(), open.as_slice());
        let l2 = concat_chars(l1.as_slice(), method.as_slice());
        let l3 = concat_chars(l2.as_slice(), close.as_slice());
        let metadata = vec![(text_of("method"), string_of(method.as_slice()))];
        let e = ExtractedEntity { kind: text_of("form"), value: string_of(action.as_slice()), label: string_of(l3.as_slice()), metadata };
        assert(e.view().3 =~= seq![("method"@, method@)]);
        Some(e)
    } else {
        let name = match record_attr(rec, 0) {
            Some(n) => n,
            None => match record_attr(rec, 1) {
                Some(p) => p,
                None => Vec::new(),
            },
        };
        let content = match record_attr(rec, 2) {
            Some(c) => c,
            None => Vec::new(),
        };
        if name.len() > 0 && content.len() > 0 {
            let sep = chars_of(": ");
            let l1 = concat_chars(name.as_slice(), sep.as_slice());
            let l2 = concat_chars(l1.as_slice(), content.as_slice());
            Some(ExtractedEntity { kind: text_of("metadata"), value: string_of(content.as_slice()), label: string_of(l2.as_slice()), metadata: Vec::new() })
        } else {
            None
        }
    }
}

/// Appends the entities that the elements selected for a kind of entity
/// give (kinds numbered as `extract_entities` goes through them).
pub fn push_entities(out: &mut Vec<ExtractedEntity>, kind: u8, recs: &Vec<(Vec<String>, Vec<Option<String>>)>)
    requires
        kind < 10,
    ensures
        entities_view(final(out)@) == entities_view(old(out)@) + entities_of(kind as int, records_view(recs@)),
{
    let ghost base = entities_view(out@);
    let ghost rv = records_view(recs@);
    let mut i: usize = 0;
    while i < recs.len()
        invariant
            kind < 10,
            i <= recs@.len(),
            rv == records_view(recs@),
            entities_view(out@) == base + entities_of(kind as int, rv.subrange(0, i as int)),
        decreases recs@.len() - i,
    {
        let e = entity_for_record(kind, &recs[i]);
        proof {
            let pre = rv.subrange(0, i as int + 1);
            assert(pre.drop_last() =~= rv.subrange(0, i as int));
            assert(records_view(seq![recs@[i as int]])[0] == rv[i as int]);
            assert(pre.last() == rv[i as int]);
        }
        match e {
            Some(ent) => {
                let ghost before = entities_view(out@);
                out.push(ent);
                assert(entities_view(out@) =~= before.push(ent.view()));
            },
            None => {},
        }
        i = i + 1;
    }
    assert(rv.subrange(0, recs@.len() as int) =~= rv);
}

/// The selector and attributes asked for a kind of entity.
fn kind_query(kind: u8) -> (r: (&'static str, Vec<&'static str>))
    requires
        kind < 10,
    ensures
        r.0@ == kind_selector(kind as int),
        names_view(r.1@) == kind_attrs(kind as int),
        known_selector(r.0@),
{
    let r: (&'static str, Vec<&'static str>) = if kind == 0 {
        ("a[href]", vec!["href"])
    } else if kind == 1 {
        ("img[src]", vec!["src", "alt"])
    } else if kind == 2 {
        ("h1", Vec::new())
    } else if kind == 3 {
        ("h2", Vec::new())
    } else if kind == 4 {
        ("h3", Vec::new())
    } else if kind == 5 {
        ("h4", Vec::new())
    } else if kind == 6 {
        ("h5", Vec::new())
    } else if kind == 7 {
        ("h6", Vec::new())
    } else if kind == 8 {
        ("form", vec!["action", "method"])
    } else {
        ("meta", vec!["name", "property", "content"])
    };
    assert(names_view(r.1@) =~= kind_attrs(kind as int));
    r
}

/// Finds the entities of a page: links, then images, then headings from
/// level 1 to 6, then forms, then metadata, each in document order.
pub fn extract_entities(html: &str) -> (r: Vec<ExtractedEntity>)
    ensures
        entities_view(r@) == page_entities(html@),
{
    let mut out: Vec<ExtractedEntity> = Vec::new();
    assert(entities_view(out@) =~= Seq::<EntityView>::empty());
    let mut kind: u8 = 0;
    while kind < 10
        invariant
            kind <= 10,
            entities_view(out@) == entities_upto(html@, kind as int),
        decreases 10 - kind,
    {
        let (selector, attrs) = kind_query(kind);
        let recs = select_elements(html, selector, attrs.as_slice());
        push_entities(&mut out, kind, &recs);
        kind = kind + 1;
    }
    out
}

/// Every form selected gives exactly one entity, in order: its action
/// (empty when absent) as value, labelled by the action, " [", the form's
/// method and "]", with the method kept in the metadata; the method is the
/// `method` attribute when the form has one and "GET" only when it has none.
pub proof fn law_form_entities_keep_method(recs: Seq<ElementRecord>)
    requires
        forall|i: int| 0 <= i < recs.len() ==> (#[trigger] recs[i]).1.len() == 2,
    ensures
        entities_of(8, recs).len() == recs.len(),
        forall|i: int| 0 <= i < recs.len() ==> {
            let action = match recs[i].1[0] { Some(a) => a, None => Seq::<char>::empty() };
            let method = match recs[i].1[1] { Some(m) => m, None => "GET"@ };
            #[trigger] entities_of(8, recs)[i] == ("form"@, action, action + " ["@ + method + "]"@, seq![("method"@, method)])
        },
    decreases recs.len(),
{
    if recs.len() > 0 {
        let init = recs.drop_last();
        assert forall|i: int| 0 <= i < init.len() implies (#[trigger] init[i]).1.len() == 2 by {
            assert(init[i] == recs[i]);
        }
        law_form_entities_keep_method(init);
        assert forall|i: int| 0 <= i < recs.len() implies {
            let action = match recs[i].1[0] { Some(a) => a, None => Seq::<char>::empty() };
            let method = match recs[i].1[1] { Some(m) => m, None => "GET"@ };
            #[trigger] entities_of(8, recs)[i] == ("form"@, action, action + " ["@ + method + "]"@, seq![("method"@, method)])
        } by {
            if i < init.len() {
                assert(init[i] == recs[i]);
            }
        }
    }
}

} // verus!
