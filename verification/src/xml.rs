//! An XML document as a tree of elements, read with elementtree, and the
//! lookups that the GPX reader makes on it.
use vstd::prelude::*;
use vstd::string::StringExecFns;
use elementtree::Element;

verus! {

/// An attribute of an element: its namespace URI (if any), its local
/// name and its value.
pub struct XmlAttr {
    pub ns: Option<String>,
    pub name: String,
    pub value: String,
}

/// An element with its child elements in document order.
pub struct XmlElement {
    /// Namespace URI of the tag, if any.
    pub ns: Option<String>,
    /// Local name of the tag.
    pub name: String,
    /// Attributes of the element, each qualified name at most once.
    pub attrs: Vec<XmlAttr>,
    /// Text of the element (the character data before its first child).
    pub text: String,
    /// Child elements, in the order of the text.
    pub children: Vec<XmlElement>,
}

/// Mathematical model of an attribute.
pub struct AttrModel {
    pub ns: Option<Seq<char>>,
    pub name: Seq<char>,
    pub value: Seq<char>,
}

/// Mathematical model of an element.
pub struct ElementModel {
    pub ns: Option<Seq<char>>,
    pub name: Seq<char>,
    pub attrs: Seq<AttrModel>,
    pub text: Seq<char>,
    pub children: Seq<ElementModel>,
}

impl DeepView for XmlAttr {
    type V = AttrModel;

    open spec fn deep_view(&self) -> AttrModel {
        AttrModel { ns: self.ns.deep_view(), name: self.name@, value: self.value@ }
    }
}

/// Mathematical model of an element and, recursively, of its children.
pub open spec fn element_view(e: XmlElement) -> ElementModel
    decreases e,
{
    ElementModel {
        ns: e.ns.deep_view(),
        name: e.name@,
        attrs: e.attrs.deep_view(),
        text: e.text@,
        children: Seq::new(
            e.children@.len(),
            |i: int|
                if 0 <= i < e.children@.len() {
                    element_view(e.children@[i])
                } else {
                    arbitrary()
                },
        ),
    }
}

impl DeepView for XmlElement {
    type V = ElementModel;

    open spec fn deep_view(&self) -> ElementModel {
        element_view(*self)
    }
}

fn owned_name(s: Option<&str>) -> (res: Option<String>)
    ensures
        res.deep_view() == s.deep_view(),
{
    match s {
        Some(t) => Some(String::from_str(t)),
        None => None,
    }
}

impl XmlAttr {
    /// An attribute built from the pieces that elementtree hands out.
    pub fn new(ns: Option<&str>, name: &str, value: &str) -> (res: XmlAttr)
        ensures
            res.deep_view() == (AttrModel { ns: ns.deep_view(), name: name@, value: value@ }),
    {
        XmlAttr { ns: owned_name(ns), name: String::from_str(name), value: String::from_str(value) }
    }
}

impl XmlElement {
    /// An element built from the pieces that elementtree hands out.
    pub fn new(
        ns: Option<&str>,
        name: &str,
        attrs: Vec<XmlAttr>,
        text: &str,
        children: Vec<XmlElement>,
    ) -> (res: XmlElement)
        ensures
            res.ns.deep_view() == ns.deep_view(),
            res.name@ == name@,
            res.attrs == attrs,
            res.text@ == text@,
            res.children == children,
    {
        XmlElement {
            ns: owned_name(ns),
            name: String::from_str(name),
            attrs,
            text: String::from_str(text),
            children,
        }
    }
}

#[verifier::external_type_specification]
#[verifier::external_body]
pub struct ExXmlError(elementtree::Error);

#[verifier::external_type_specification]
#[verifier::external_body]
pub struct ExElement(elementtree::Element);

/// The document element that elementtree reads from the text `text`, or
/// `None` where elementtree refuses the text.
pub uninterp spec fn xml_root(text: Seq<char>) -> Option<Element>;

/// The tag, attributes, text and child elements of the element `e`, as
/// elementtree hands them out.
pub uninterp spec fn element_model(e: Element) -> ElementModel;

/// Reads `text` with `elementtree::Element::from_reader`.
///
/// Trusted: it succeeds exactly where the named `xml_root(text@)` is some
/// element, and then gives that element.
#[verifier::external_body]
fn xml_parse(text: &str) -> (res: Result<Element, elementtree::Error>)
    ensures
        res is Ok <==> xml_root(text@) is Some,
        res matches Ok(e) ==> xml_root(text@) == Some(e),
{
    Element::from_reader(text.as_bytes())
}

/// Converts the element `e` one for one, with `tag().ns()`, `tag().name()`,
/// `attrs()`, `text()` and `children()`, into the library's element type.
///
/// Trusted: the result is the named `element_model(*e)`.
#[verifier::external_body]
fn element_tree(e: &Element) -> (res: XmlElement)
    ensures
        res.deep_view() == element_model(*e),
{
    let attrs = e.attrs().map(|(k, v)| XmlAttr::new(k.ns(), k.name(), v)).collect();
    XmlElement::new(e.tag().ns(), e.tag().name(), attrs, e.text(), e.children().map(element_tree).collect())
}

/// The tree that elementtree reads from the text `text`, or `None` where
/// elementtree refuses the text.
pub open spec fn xml_tree(text: Seq<char>) -> Option<ElementModel> {
    match xml_root(text) {
        Some(e) => Some(element_model(e)),
        None => None,
    }
}

/// Reads the XML text `text` into a tree.
pub fn read_tree(text: &str) -> (res: Result<XmlElement, elementtree::Error>)
    ensures
        res is Ok <==> xml_tree(text@) is Some,
        res matches Ok(t) ==> xml_tree(text@) == Some(t.deep_view()),
{
    match xml_parse(text) {
        Ok(root) => Ok(element_tree(&root)),
        Err(err) => Err(err),
    }
}

/// Child `j` of `children` has tag `{ns}name`.
pub open spec fn is_tagged(children: Seq<ElementModel>, ns: Seq<char>, name: Seq<char>, j: int) -> bool {
    &&& 0 <= j < children.len()
    &&& children[j].ns == Some(ns)
    &&& children[j].name == name
}

/// The positions below `n` of the children tagged `{ns}name`, in
/// increasing order.
pub open spec fn tagged_below(children: Seq<ElementModel>, ns: Seq<char>, name: Seq<char>, n: int) -> Seq<
    int,
>
    decreases n,
{
    if n <= 0 {
        Seq::empty()
    } else {
        let before = tagged_below(children, ns, name, n - 1);
        if is_tagged(children, ns, name, n - 1) {
            before.push(n - 1)
        } else {
            before
        }
    }
}

/// The positions of all children tagged `{ns}name`, in document order.
pub open spec fn tagged_children(children: Seq<ElementModel>, ns: Seq<char>, name: Seq<char>) -> Seq<
    int,
> {
    tagged_below(children, ns, name, children.len() as int)
}

/// The first child tagged `{ns}name` at position `i` or later.
pub open spec fn first_tagged_from(
    children: Seq<ElementModel>,
    ns: Seq<char>,
    name: Seq<char>,
    i: int,
) -> Option<int>
    decreases children.len() - i,
{
    if i < 0 || i >= children.len() {
        None
    } else if is_tagged(children, ns, name, i) {
        Some(i)
    } else {
        first_tagged_from(children, ns, name, i + 1)
    }
}

/// The first child tagged `{ns}name` (elementtree's `find`).
pub open spec fn first_tagged_child(children: Seq<ElementModel>, ns: Seq<char>, name: Seq<char>) -> Option<
    int,
> {
    first_tagged_from(children, ns, name, 0)
}

/// The value of the attribute without namespace named `name`, looking at
/// `attrs` from index `i` on.
pub open spec fn attr_value_from(attrs: Seq<AttrModel>, name: Seq<char>, i: int) -> Option<Seq<char>>
    decreases attrs.len() - i,
{
    if i < 0 || i >= attrs.len() {
        None
    } else if attrs[i].ns is None && attrs[i].name == name {
        Some(attrs[i].value)
    } else {
        attr_value_from(attrs, name, i + 1)
    }
}

/// The value of the attribute without namespace named `name`
/// (elementtree's `get_attr`).
pub open spec fn attr_value(attrs: Seq<AttrModel>, name: Seq<char>) -> Option<Seq<char>> {
    attr_value_from(attrs, name, 0)
}

/// What `first_tagged_from` finds: the least tagged child at `i` or later,
/// or nothing where there is none.
proof fn lemma_first_from(children: Seq<ElementModel>, ns: Seq<char>, name: Seq<char>, i: int)
    requires
        0 <= i,
    ensures
        match first_tagged_from(children, ns, name, i) {
            Some(j) => i <= j && is_tagged(children, ns, name, j) && forall|k: int|
                i <= k < j ==> !is_tagged(children, ns, name, k),
            None => forall|k: int| i <= k ==> !is_tagged(children, ns, name, k),
        },
    decreases children.len() - i,
{
    if i < children.len() && !is_tagged(children, ns, name, i) {
        lemma_first_from(children, ns, name, i + 1);
    }
}

/// What `tagged_below` lists: exactly the tagged children below `n`, in
/// strictly increasing order.
proof fn lemma_tagged_below(children: Seq<ElementModel>, ns: Seq<char>, name: Seq<char>, n: int)
    ensures
        forall|k: int|
            0 <= k < tagged_below(children, ns, name, n).len() ==> {
                let j = #[trigger] tagged_below(children, ns, name, n)[k];
                j < n && is_tagged(children, ns, name, j)
            },
        forall|a: int, b: int|
            0 <= a < b < tagged_below(children, ns, name, n).len() ==> #[trigger] tagged_below(
                children,
                ns,
                name,
                n,
            )[a] < #[trigger] tagged_below(children, ns, name, n)[b],
        forall|j: int|
            0 <= j < n && #[trigger] is_tagged(children, ns, name, j) ==> exists|k: int|
                0 <= k < tagged_below(children, ns, name, n).len() && #[trigger] tagged_below(
                    children,
                    ns,
                    name,
                    n,
                )[k] == j,
    decreases n,
{
    if n > 0 {
        lemma_tagged_below(children, ns, name, n - 1);
        let before = tagged_below(children, ns, name, n - 1);
        let c = tagged_below(children, ns, name, n);
        assert forall|j: int|
            0 <= j < n && #[trigger] is_tagged(children, ns, name, j) implies exists|k: int|
                0 <= k < c.len() && #[trigger] c[k] == j by {
            if j < n - 1 {
                let k = choose|k: int| 0 <= k < before.len() && #[trigger] before[k] == j;
                assert(c[k] == j);
            } else {
                assert(c[c.len() - 1] == j);
            }
        }
    }
}

/// Law: the first tagged child is tagged, no child before it is, and there
/// is none exactly where no child at all is tagged.
pub proof fn lemma_first_tagged_child(children: Seq<ElementModel>, ns: Seq<char>, name: Seq<char>)
    ensures
        match first_tagged_child(children, ns, name) {
            Some(j) => is_tagged(children, ns, name, j) && forall|k: int|
                0 <= k < j ==> !is_tagged(children, ns, name, k),
            None => forall|k: int| !is_tagged(children, ns, name, k),
        },
{
    lemma_first_from(children, ns, name, 0);
}

/// Law: `find_children` lists exactly the tagged children, each once, in
/// increasing position.
pub proof fn lemma_tagged_children(children: Seq<ElementModel>, ns: Seq<char>, name: Seq<char>)
    ensures
        forall|k: int|
            0 <= k < tagged_children(children, ns, name).len() ==> is_tagged(
                children,
                ns,
                name,
                #[trigger] tagged_children(children, ns, name)[k],
            ),
        forall|a: int, b: int|
            0 <= a < b < tagged_children(children, ns, name).len() ==> #[trigger] tagged_children(
                children,
                ns,
                name,
            )[a] < #[trigger] tagged_children(children, ns, name)[b],
        forall|j: int|
            #[trigger] is_tagged(children, ns, name, j) ==> exists|k: int|
                0 <= k < tagged_children(children, ns, name).len() && #[trigger] tagged_children(
                    children,
                    ns,
                    name,
                )[k] == j,
{
    let n = children.len() as int;
    lemma_tagged_below(children, ns, name, n);
    let c = tagged_children(children, ns, name);
    assert forall|j: int| #[trigger] is_tagged(children, ns, name, j) implies exists|k: int|
        0 <= k < c.len() && #[trigger] c[k] == j by {
        assert(0 <= j < n);
        let k = choose|k: int|
            0 <= k < tagged_below(children, ns, name, n).len() && #[trigger] tagged_below(
                children,
                ns,
                name,
                n,
            )[k] == j;
        assert(c[k] == j);
    }
}

/// Law: `find_child` gives the first of the children that `find_children`
/// lists, and nothing exactly where that list is empty.
pub proof fn lemma_find_child_is_first_of_find_children(
    children: Seq<ElementModel>,
    ns: Seq<char>,
    name: Seq<char>,
)
    ensures
        first_tagged_child(children, ns, name) == (if tagged_children(children, ns, name).len() > 0 {
            Some(tagged_children(children, ns, name)[0])
        } else {
            None
        }),
{
    let c = tagged_children(children, ns, name);
    lemma_first_from(children, ns, name, 0);
    lemma_tagged_below(children, ns, name, children.len() as int);
    match first_tagged_child(children, ns, name) {
        Some(j) => {
            let k = choose|k: int| 0 <= k < c.len() && #[trigger] c[k] == j;
            if k > 0 {
                assert(c[0] < c[k]);
                assert(is_tagged(children, ns, name, c[0]));
            }
        },
        None => {
            if c.len() > 0 {
                assert(is_tagged(children, ns, name, c[0]));
            }
        },
    }
}

fn has_tag(e: &XmlElement, ns: &String, name: &String) -> (res: bool)
    ensures
        res == (e.ns.deep_view() == Some(ns@) && e.name@ == name@),
{
    let ns_ok = match &e.ns {
        Some(n) => n.eq(ns),
        None => false,
    };
    ns_ok && e.name.eq(name)
}

/// Positions of all children of `parent` tagged `{ns}name`, in document
/// order (elementtree's `find_all`).
pub fn find_children(parent: &XmlElement, ns: &String, name: &String) -> (res: Vec<usize>)
    ensures
        res@.len() == tagged_children(parent.deep_view().children, ns@, name@).len(),
        forall|k: int|
            0 <= k < res@.len() ==> res@[k] as int == tagged_children(
                parent.deep_view().children,
                ns@,
                name@,
            )[k],
        forall|k: int| 0 <= k < res@.len() ==> #[trigger] res@[k] < parent.children@.len(),
{
    let ghost d = parent.deep_view().children;
    let mut res: Vec<usize> = Vec::new();
    let mut i: usize = 0;
    while i < parent.children.len()
        invariant
            i <= parent.children@.len(),
            d == parent.deep_view().children,
            res@.len() == tagged_below(d, ns@, name@, i as int).len(),
            forall|k: int|
                0 <= k < res@.len() ==> res@[k] as int == tagged_below(d, ns@, name@, i as int)[k],
            forall|k: int| 0 <= k < res@.len() ==> #[trigger] res@[k] < i,
        decreases parent.children@.len() - i,
    {
        assert(d[i as int] == parent.children@[i as int].deep_view());
        if has_tag(&parent.children[i], ns, name) {
            res.push(i);
        }
        i = i + 1;
    }
    res
}

/// Position of the first child of `parent` tagged `{ns}name`
/// (elementtree's `find`).
pub fn find_child(parent: &XmlElement, ns: &String, name: &String) -> (res: Option<usize>)
    ensures
        res is None <==> first_tagged_child(parent.deep_view().children, ns@, name@) is None,
        res matches Some(j) ==> j < parent.children@.len() && first_tagged_child(
            parent.deep_view().children,
            ns@,
            name@,
        ) == Some(j as int),
{
    let ghost d = parent.deep_view().children;
    let mut i: usize = 0;
    while i < parent.children.len()
        invariant
            i <= parent.children@.len(),
            d == parent.deep_view().children,
            first_tagged_child(d, ns@, name@) == first_tagged_from(d, ns@, name@, i as int),
        decreases parent.children@.len() - i,
    {
        assert(d[i as int] == parent.children@[i as int].deep_view());
        if has_tag(&parent.children[i], ns, name) {
            return Some(i);
        }
        i = i + 1;
    }
    None
}

/// Value of the attribute without namespace named `name` of `e`
/// (elementtree's `get_attr`).
pub fn get_attr(e: &XmlElement, name: &String) -> (res: Option<String>)
    ensures
        res.deep_view() == attr_value(e.attrs.deep_view(), name@),
{
    let ghost a = e.attrs.deep_view();
    let mut i: usize = 0;
    while i < e.attrs.len()
        invariant
            i <= e.attrs.len(),
            a == e.attrs.deep_view(),
            attr_value(a, name@) == attr_value_from(a, name@, i as int),
        decreases e.attrs.len() - i,
    {
        let attr = &e.attrs[i];
        assert(a[i as int] == attr.deep_view());
        if attr.ns.is_none() && attr.name.eq(name) {
            return Some(attr.value.clone());
        }
        i = i + 1;
    }
    None
}

} // verus!
