//! An HTML page as the crawler reads it: a list of nodes in document order,
//! each with its parent, its element name, its attributes and its text, and
//! the selectors (by attribute, class, element name, negation, conjunction
//! and ancestry) with which the crawler finds what it needs on a page.
use vstd::prelude::*;

verus! {

/// One attribute of an element: its local name and its value.
pub struct Attribute {
    pub name: String,
    pub value: String,
}

/// One node of a parsed page. Text and comment nodes have no name and no
/// attributes; `text` is the text of the node and all its descendants.
pub struct HtmlNode {
    pub parent: Option<usize>,
    pub name: Option<String>,
    pub attrs: Vec<Attribute>,
    pub text: String,
}

/// A parsed page: its nodes in document order.
pub struct HtmlDoc {
    pub nodes: Vec<HtmlNode>,
}

/// The mathematical content of a node.
pub struct NodeModel {
    pub parent: Option<int>,
    pub name: Option<Seq<char>>,
    pub attrs: Seq<(Seq<char>, Seq<char>)>,
    pub text: Seq<char>,
}

pub open spec fn opt_seq(o: Option<String>) -> Option<Seq<char>> {
    match o {
        Some(s) => Some(s@),
        None => None,
    }
}

impl View for Attribute {
    type V = (Seq<char>, Seq<char>);

    open spec fn view(&self) -> (Seq<char>, Seq<char>) {
        (self.name@, self.value@)
    }
}

impl View for HtmlNode {
    type V = NodeModel;

    open spec fn view(&self) -> NodeModel {
        NodeModel {
            parent: match self.parent {
                Some(p) => Some(p as int),
                None => None,
            },
            name: opt_seq(self.name),
            attrs: self.attrs@.map_values(|a: Attribute| a@),
            text: self.text@,
        }
    }
}

impl View for HtmlDoc {
    type V = Seq<NodeModel>;

    open spec fn view(&self) -> Seq<NodeModel> {
        self.nodes@.map_values(|n: HtmlNode| n@)
    }
}

/// Every parent comes before its children in document order.
pub open spec fn doc_wf(doc: Seq<NodeModel>) -> bool {
    forall|i: int|
        0 <= i < doc.len() ==> match (#[trigger] doc[i]).parent {
            Some(p) => 0 <= p < i,
            None => true,
        }
}

impl HtmlDoc {
    pub open spec fn wf(&self) -> bool {
        doc_wf(self@)
    }
}

/// The page that `select::document::Document::from` builds from `html`, as
/// plain values.
pub uninterp spec fn parsed_html(html: Seq<char>) -> Seq<NodeModel>;

/// Calls `select::document::Document::from(html)` and copies each node of
/// the resulting document, in index order, into plain values: the index of
/// its parent (`Node::parent`, `Node::index`), its element name
/// (`Node::name`), its attributes in order (`Node::attrs`) and its text
/// (`Node::text`). Claimed: the result is the named `parsed_html` of the
/// input, and each parent index is smaller than the index of its child
/// (select appends a node before recursing into its children).
#[verifier::external_body]
fn select_document(html: &str) -> (doc: HtmlDoc)
    ensures
        doc@ == parsed_html(html@),
        doc.wf(),
{
    let d = select::document::Document::from(html);
    let nodes = (0..d.nodes.len()).map(|i| d.nth(i).unwrap()).map(|n| HtmlNode {
        parent: n.parent().map(|p| p.index()),
        name: n.name().map(|s| s.to_string()),
        attrs: n.attrs().map(|(k, v)| Attribute { name: k.to_string(), value: v.to_string() }).collect(),
        text: n.text(),
    }).collect();
    HtmlDoc { nodes }
}

/// Parses an HTML page into its nodes.
pub fn parse_html(html: &str) -> (doc: HtmlDoc)
    ensures
        doc@ == parsed_html(html@),
        doc.wf(),
{
    select_document(html)
}

// ----------------------------------------------------------------------------
// Attributes and classes
// ----------------------------------------------------------------------------

/// The value of the first attribute called `name` (what `Node::attr` gives).
pub open spec fn attr_in(attrs: Seq<(Seq<char>, Seq<char>)>, name: Seq<char>) -> Option<Seq<char>>
    decreases attrs.len(),
{
    if attrs.len() == 0 {
        None
    } else if attrs[0].0 == name {
        Some(attrs[0].1)
    } else {
        attr_in(attrs.drop_first(), name)
    }
}

pub open spec fn attr_of(n: NodeModel, name: Seq<char>) -> Option<Seq<char>> {
    attr_in(n.attrs, name)
}

/// Unicode White_Space, which `char::is_whitespace` tests.
pub open spec fn is_white_space(c: char) -> bool {
    ('\u{9}' <= c <= '\u{d}') || c == ' ' || c == '\u{85}' || c == '\u{a0}' || c == '\u{1680}'
        || ('\u{2000}' <= c <= '\u{200a}') || c == '\u{2028}' || c == '\u{2029}' || c == '\u{202f}'
        || c == '\u{205f}' || c == '\u{3000}'
}

/// `tok` is one of the whitespace-separated words of `s` (what
/// `str::split_whitespace` yields): a non-empty run of non-whitespace
/// characters bounded by whitespace or the ends of `s`.
pub open spec fn is_word_at(s: Seq<char>, tok: Seq<char>, i: int) -> bool {
    &&& tok.len() > 0
    &&& 0 <= i && i + tok.len() <= s.len()
    &&& s.subrange(i, i + tok.len()) == tok
    &&& forall|k: int| 0 <= k < tok.len() ==> !is_white_space(#[trigger] tok[k])
    &&& (i == 0 || is_white_space(s[i - 1]))
    &&& (i + tok.len() == s.len() || is_white_space(s[i + tok.len()]))
}

pub open spec fn has_word(s: Seq<char>, tok: Seq<char>) -> bool {
    exists|i: int| is_word_at(s, tok, i)
}

/// The element's `class` attribute lists `class` among its words.
pub open spec fn has_class(n: NodeModel, class: Seq<char>) -> bool {
    match attr_of(n, seq!['c', 'l', 'a', 's', 's']) {
        Some(classes) => has_word(classes, class),
        None => false,
    }
}

fn is_white_space_char(c: char) -> (b: bool)
    ensures
        b == is_white_space(c),
{
    ('\u{9}' <= c && c <= '\u{d}') || c == ' ' || c == '\u{85}' || c == '\u{a0}' || c == '\u{1680}'
        || ('\u{2000}' <= c && c <= '\u{200a}') || c == '\u{2028}' || c == '\u{2029}' || c == '\u{202f}'
        || c == '\u{205f}' || c == '\u{3000}'
}

fn attr_lookup<'a>(attrs: &'a Vec<Attribute>, name: &str) -> (r: Option<&'a String>)
    ensures
        match r {
            Some(v) => attr_in(attrs@.map_values(|a: Attribute| a@), name@) == Some(v@),
            None => attr_in(attrs@.map_values(|a: Attribute| a@), name@) is None,
        },
{
    let ghost all = attrs@.map_values(|a: Attribute| a@);
    let key = name.to_owned();
    assert(all.skip(0) =~= all);
    let mut i: usize = 0;
    while i < attrs.len()
        invariant
            i <= attrs.len(),
            all == attrs@.map_values(|a: Attribute| a@),
            key@ == name@,
            attr_in(all, name@) == attr_in(all.skip(i as int), name@),
        decreases attrs.len() - i,
    {
        let ghost rest = all.skip(i as int);
        assert(rest[0] == attrs@[i as int]@);
        if attrs[i].name == key {
            return Some(&attrs[i].value);
        }
        assert(rest.drop_first() =~= all.skip(i + 1));
        i = i + 1;
    }
    assert(all.skip(i as int) =~= Seq::<(Seq<char>, Seq<char>)>::empty());
    None
}

/// Whether the whitespace-separated words of `s` include `tok`.
pub fn contains_word(s: &str, tok: &str) -> (b: bool)
    ensures
        b == has_word(s@, tok@),
{
    let v = crate::text::chars_of(s);
    let t = crate::text::chars_of(tok);
    if t.len() == 0 {
        return false;
    }
    let mut i: usize = 0;
    while i < v.len()
        invariant
            v@ == s@,
            t@ == tok@,
            t.len() > 0,
            i <= v.len(),
            i == 0 || is_white_space(v@[i - 1]) || i == v.len(),
            forall|j: int| 0 <= j < i ==> !is_word_at(s@, tok@, j),
        decreases v.len() - i,
    {
        // `i` starts a run; find its end.
        let mut e: usize = i;
        while e < v.len() && !is_white_space_char(v[e])
            invariant
                i <= e <= v.len(),
                forall|k: int| i <= k < e ==> !is_white_space(v@[k]),
            decreases v.len() - e,
        {
            e = e + 1;
        }
        let mut found = false;
        if e - i == t.len() {
            let mut k: usize = 0;
            let mut same = true;
            while k < t.len()
                invariant
                    e - i == t.len(),
                    e <= v.len(),
                    k <= t.len(),
                    same == forall|m: int| 0 <= m < k ==> v@[i + m] == t@[m],
                decreases t.len() - k,
            {
                if v[i + k] != t[k] {
                    same = false;
                }
                k = k + 1;
            }
            if same && e > i {
                assert(s@.subrange(i as int, i + tok@.len()) =~= tok@);
                assert(is_word_at(s@, tok@, i as int));
                found = true;
            }
        }
        if found {
            return true;
        }
        // No word starts strictly inside the run, and the run itself is not `tok`.
        assert forall|j: int| i <= j < e implies !is_word_at(s@, tok@, j) by {
            if is_word_at(s@, tok@, j) {
                if j > i {
                    assert(!is_white_space(s@[j - 1]));
                } else {
                    let end = j + tok@.len();
                    if end < e {
                        assert(!is_white_space(s@[end]));
                    } else if end > e {
                        assert(!is_white_space(tok@[e - j]));
                        assert(tok@[e - j] == s@.subrange(j, end)[e - j]);
                    } else {
                        assert(forall|m: int| 0 <= m < tok@.len() ==> s@[i + m] == #[trigger] tok@[m]
                            ) by {
                            assert forall|m: int| 0 <= m < tok@.len() implies s@[i + m] == #[trigger] tok@[m] by {
                                assert(s@.subrange(j, end)[m] == s@[j + m]);
                            }
                        }
                    }
                }
            }
        }
        if e < v.len() {
            // skip the whitespace character that ends the run
            assert(!is_word_at(s@, tok@, e as int)) by {
                assert(is_white_space(s@[e as int]));
                if is_word_at(s@, tok@, e as int) {
                    assert(s@.subrange(e as int, e + tok@.len())[0] == s@[e as int]);
                }
            }
            i = e + 1;
        } else {
            i = e;
        }
    }
    assert forall|j: int| !is_word_at(s@, tok@, j) by {
        if is_word_at(s@, tok@, j) {
            assert(j < i);
        }
    }
    false
}

// ----------------------------------------------------------------------------
// Selectors
// ----------------------------------------------------------------------------

/// Which nodes a selector picks; the forms of `select::predicate` the
/// crawler uses.
pub enum Selector {
    /// An element whose attribute `name` has exactly the value `value`.
    Attr(String, String),
    /// An element whose `class` attribute lists the class.
    Class(String),
    /// An element with this (local) name.
    Name(String),
    /// Nodes the inner selector does not pick.
    Not(Box<Selector>),
    /// Nodes both selectors pick.
    And(Box<Selector>, Box<Selector>),
    /// Nodes the second selector picks that have an ancestor the first picks.
    Descendant(Box<Selector>, Box<Selector>),
}

pub enum SelectorView {
    Attr(Seq<char>, Seq<char>),
    Class(Seq<char>),
    Name(Seq<char>),
    Not(Box<SelectorView>),
    And(Box<SelectorView>, Box<SelectorView>),
    Descendant(Box<SelectorView>, Box<SelectorView>),
}

impl View for Selector {
    type V = SelectorView;

    open spec fn view(&self) -> SelectorView
        decreases self,
    {
        match self {
            Selector::Attr(n, v) => SelectorView::Attr(n@, v@),
            Selector::Class(c) => SelectorView::Class(c@),
            Selector::Name(n) => SelectorView::Name(n@),
            Selector::Not(a) => SelectorView::Not(Box::new((**a).view())),
            Selector::And(a, b) => SelectorView::And(Box::new((**a).view()), Box::new((**b).view())),
            Selector::Descendant(a, b) => SelectorView::Descendant(
                Box::new((**a).view()),
                Box::new((**b).view()),
            ),
        }
    }
}

impl Selector {
    /// `Attr(name, value)`: attribute `name` equal to `value`.
    pub fn attr(name: &str, value: &str) -> (s: Selector)
        ensures
            s@ == SelectorView::Attr(name@, value@),
    {
        Selector::Attr(name.to_owned(), value.to_owned())
    }

    /// `Class(class)`: the class list contains `class`.
    pub fn class(class: &str) -> (s: Selector)
        ensures
            s@ == SelectorView::Class(class@),
    {
        Selector::Class(class.to_owned())
    }

    /// `Name(name)`: an element called `name`.
    pub fn name(name: &str) -> (s: Selector)
        ensures
            s@ == SelectorView::Name(name@),
    {
        Selector::Name(name.to_owned())
    }

    /// Nodes `a` does not pick.
    pub fn not(a: Selector) -> (s: Selector)
        ensures
            s@ == SelectorView::Not(Box::new(a@)),
    {
        Selector::Not(Box::new(a))
    }

    /// Nodes both `a` and `b` pick.
    pub fn and(a: Selector, b: Selector) -> (s: Selector)
        ensures
            s@ == SelectorView::And(Box::new(a@), Box::new(b@)),
    {
        Selector::And(Box::new(a), Box::new(b))
    }

    /// Nodes `b` picks below a node `a` picks.
    pub fn descendant(a: Selector, b: Selector) -> (s: Selector)
        ensures
            s@ == SelectorView::Descendant(Box::new(a@), Box::new(b@)),
    {
        Selector::Descendant(Box::new(a), Box::new(b))
    }
}

/// `j` is a proper ancestor of `i`: reached from `i` by following parents.
pub open spec fn is_ancestor(doc: Seq<NodeModel>, j: int, i: int) -> bool
    decreases i,
{
    if 0 <= i < doc.len() {
        match doc[i].parent {
            Some(p) => p == j || (0 <= p < i && is_ancestor(doc, j, p)),
            None => false,
        }
    } else {
        false
    }
}

/// Whether the selector picks node `i` of `doc`.
pub open spec fn selects(doc: Seq<NodeModel>, i: int, s: SelectorView) -> bool
    decreases s, 0int,
{
    match s {
        SelectorView::Attr(n, v) => attr_of(doc[i], n) == Some(v),
        SelectorView::Class(c) => has_class(doc[i], c),
        SelectorView::Name(n) => doc[i].name == Some(n),
        SelectorView::Not(a) => !selects(doc, i, *a),
        SelectorView::And(a, b) => selects(doc, i, *a) && selects(doc, i, *b),
        SelectorView::Descendant(a, b) => selects(doc, i, *b) && ancestor_selects(doc, i, *a),
    }
}

/// Whether `a` picks some proper ancestor of node `i` (the parent, its
/// parent, and so on).
pub open spec fn ancestor_selects(doc: Seq<NodeModel>, i: int, a: SelectorView) -> bool
    decreases a, i,
{
    if 0 <= i < doc.len() {
        match doc[i].parent {
            Some(p) => 0 <= p < i && (selects(doc, p, a) || ancestor_selects(doc, p, a)),
            None => false,
        }
    } else {
        false
    }
}

/// The indices below `n` of the nodes the selector picks, in document order.
pub open spec fn selected_below(doc: Seq<NodeModel>, s: SelectorView, n: nat) -> Seq<int>
    decreases n,
{
    if n == 0 {
        seq![]
    } else {
        let before = selected_below(doc, s, (n - 1) as nat);
        if selects(doc, n - 1, s) {
            before.push(n - 1)
        } else {
            before
        }
    }
}

/// The indices of all nodes the selector picks, in document order (what
/// `Document::find` iterates over).
pub open spec fn selected(doc: Seq<NodeModel>, s: SelectorView) -> Seq<int> {
    selected_below(doc, s, doc.len())
}

/// The first node the selector picks (what `Document::find(..).next()` gives).
pub open spec fn first_selected(doc: Seq<NodeModel>, s: SelectorView) -> Option<int> {
    if selected(doc, s).len() > 0 {
        Some(selected(doc, s)[0])
    } else {
        None
    }
}

/// A lookup of an attribute on the first node a selector picks.
pub enum Lookup {
    /// The node and its attribute were found; the attribute's value.
    Found(String),
    /// No node is picked.
    NoElement,
    /// The first picked node lacks the attribute.
    NoAttribute,
}

pub enum LookupView {
    Found(Seq<char>),
    NoElement,
    NoAttribute,
}

impl View for Lookup {
    type V = LookupView;

    open spec fn view(&self) -> LookupView {
        match self {
            Lookup::Found(s) => LookupView::Found(s@),
            Lookup::NoElement => LookupView::NoElement,
            Lookup::NoAttribute => LookupView::NoAttribute,
        }
    }
}

/// What looking up `attr` on the first node `s` picks gives.
pub open spec fn lookup_attr(doc: Seq<NodeModel>, s: SelectorView, attr: Seq<char>) -> LookupView {
    match first_selected(doc, s) {
        None => LookupView::NoElement,
        Some(i) => match attr_of(doc[i], attr) {
            Some(v) => LookupView::Found(v),
            None => LookupView::NoAttribute,
        },
    }
}

/// Every node the selector picks lies in the document and is picked.
pub proof fn lemma_selected_below_facts(doc: Seq<NodeModel>, s: SelectorView, n: nat)
    ensures
        forall|k: int| 0 <= k < selected_below(doc, s, n).len() ==> {
            let i = #[trigger] selected_below(doc, s, n)[k];
            0 <= i < n && selects(doc, i, s)
        },
        forall|k1: int, k2: int|
            0 <= k1 < k2 < selected_below(doc, s, n).len() ==> selected_below(doc, s, n)[k1]
                < selected_below(doc, s, n)[k2],
        forall|i: int| 0 <= i < n && selects(doc, i, s) ==> selected_below(doc, s, n).contains(i),
    decreases n,
{
    if n > 0 {
        lemma_selected_below_facts(doc, s, (n - 1) as nat);
        let before = selected_below(doc, s, (n - 1) as nat);
        if selects(doc, n - 1, s) {
            assert forall|i: int| 0 <= i < n && selects(doc, i, s) implies selected_below(
                doc,
                s,
                n,
            ).contains(i) by {
                if i < n - 1 {
                    let k = choose|k: int| 0 <= k < before.len() && before[k] == i;
                    assert(before.push(n - 1)[k] == i);
                } else {
                    assert(before.push(n - 1)[before.len() as int] == i);
                }
            }
        }
    }
}

/// The first picked node is picked, and no node before it is.
pub proof fn lemma_first_selected(doc: Seq<NodeModel>, s: SelectorView)
    ensures
        match first_selected(doc, s) {
            Some(i) => 0 <= i < doc.len() && selects(doc, i, s) && forall|j: int|
                0 <= j < i ==> !#[trigger] selects(doc, j, s),
            None => forall|j: int| 0 <= j < doc.len() ==> !#[trigger] selects(doc, j, s),
        },
{
    lemma_selected_below_facts(doc, s, doc.len());
    let all = selected(doc, s);
    match first_selected(doc, s) {
        Some(i) => {
            assert(all[0] == i);
            assert forall|j: int| 0 <= j < i implies !#[trigger] selects(doc, j, s) by {
                if selects(doc, j, s) {
                    assert(all.contains(j));
                    let k = choose|k: int| 0 <= k < all.len() && all[k] == j;
                    if k > 0 {
                        assert(all[0] < all[k]);
                    }
                }
            }
        },
        None => {
            assert forall|j: int| 0 <= j < doc.len() implies !#[trigger] selects(doc, j, s) by {
                if selects(doc, j, s) {
                    assert(all.contains(j));
                }
            }
        },
    }
}

impl HtmlDoc {
    /// Whether node `i` carries attribute `name` with exactly `value`.
    fn attr_is(&self, i: usize, name: &String, value: &String) -> (b: bool)
        requires
            i < self@.len(),
        ensures
            b == (attr_of(self@[i as int], name@) == Some(value@)),
    {
        let node = &self.nodes[i];
        assert(node.attrs@.map_values(|a: Attribute| a@) == self@[i as int].attrs);
        match attr_lookup(&node.attrs, name.as_str()) {
            Some(v) => *v == *value,
            None => false,
        }
    }

    fn class_is(&self, i: usize, class: &String) -> (b: bool)
        requires
            i < self@.len(),
        ensures
            b == has_class(self@[i as int], class@),
    {
        let node = &self.nodes[i];
        assert(node.attrs@.map_values(|a: Attribute| a@) == self@[i as int].attrs);
        let key = "class";
        proof {
            reveal_strlit("class");
            assert(key@ =~= seq!['c', 'l', 'a', 's', 's']);
        }
        match attr_lookup(&node.attrs, key) {
            Some(v) => contains_word(v.as_str(), class.as_str()),
            None => false,
        }
    }

    fn name_is(&self, i: usize, name: &String) -> (b: bool)
        requires
            i < self@.len(),
        ensures
            b == (self@[i as int].name == Some(name@)),
    {
        match &self.nodes[i].name {
            Some(n) => *n == *name,
            None => false,
        }
    }

    /// Whether the selector picks node `i`.
    pub fn matches(&self, i: usize, s: &Selector) -> (b: bool)
        requires
            self.wf(),
            i < self@.len(),
        ensures
            b == selects(self@, i as int, s@),
        decreases s, 0nat,
    {
        match s {
            Selector::Attr(n, v) => self.attr_is(i, n, v),
            Selector::Class(c) => self.class_is(i, c),
            Selector::Name(n) => self.name_is(i, n),
            Selector::Not(a) => !self.matches(i, a),
            Selector::And(a, b) => self.matches(i, a) && self.matches(i, b),
            Selector::Descendant(a, b) => self.matches(i, b) && self.ancestor_matches(i, a),
        }
    }

    /// Whether some proper ancestor of node `i` is picked by `a`.
    fn ancestor_matches(&self, i: usize, a: &Selector) -> (b: bool)
        requires
            self.wf(),
            i < self@.len(),
        ensures
            b == ancestor_selects(self@, i as int, a@),
        decreases a, 1nat,
    {
        let ghost doc = self@;
        let mut cur: Option<usize> = self.nodes[i].parent;
        assert(doc[i as int].parent == match cur {
            Some(p) => Some(p as int),
            None => None::<int>,
        });
        while cur.is_some()
            invariant
                self.wf(),
                doc == self@,
                i < doc.len(),
                match cur {
                    Some(c) => c < doc.len() && ancestor_selects(doc, i as int, a@) == (selects(
                        doc,
                        c as int,
                        a@,
                    ) || ancestor_selects(doc, c as int, a@)),
                    None => !ancestor_selects(doc, i as int, a@),
                },
            decreases match cur {
                Some(c) => c + 1,
                None => 0,
            },
        {
            let c = cur.unwrap();
            if self.matches(c, a) {
                return true;
            }
            let next = self.nodes[c].parent;
            assert(doc[c as int].parent == match next {
                Some(p) => Some(p as int),
                None => None::<int>,
            });
            cur = next;
        }
        false
    }

    /// The indices of all nodes the selector picks, in document order.
    pub fn find_all(&self, s: &Selector) -> (r: Vec<usize>)
        requires
            self.wf(),
        ensures
            r@.map_values(|i: usize| i as int) == selected(self@, s@),
    {
        let mut r: Vec<usize> = Vec::new();
        let mut i: usize = 0;
        while i < self.nodes.len()
            invariant
                self.wf(),
                i <= self@.len(),
                self.nodes.len() == self@.len(),
                r@.map_values(|k: usize| k as int) == selected_below(self@, s@, i as nat),
            decreases self.nodes.len() - i,
        {
            let ghost before = r@;
            if self.matches(i, s) {
                r.push(i);
                assert(r@.map_values(|k: usize| k as int) =~= before.map_values(|k: usize| k as int).push(
                    i as int,
                ));
            }
            i = i + 1;
        }
        r
    }

    /// The first node the selector picks, if any.
    pub fn find_first(&self, s: &Selector) -> (r: Option<usize>)
        requires
            self.wf(),
        ensures
            match r {
                Some(i) => first_selected(self@, s@) == Some(i as int),
                None => first_selected(self@, s@) is None,
            },
    {
        let mut i: usize = 0;
        while i < self.nodes.len()
            invariant
                self.wf(),
                i <= self@.len(),
                self.nodes.len() == self@.len(),
                forall|j: int| 0 <= j < i ==> !#[trigger] selects(self@, j, s@),
            decreases self.nodes.len() - i,
        {
            if self.matches(i, s) {
                proof {
                    lemma_first_selected(self@, s@);
                    lemma_selected_below_facts(self@, s@, self@.len());
                    match first_selected(self@, s@) {
                        Some(f) => {
                            if f < i {
                                assert(!selects(self@, f, s@));
                            } else if f > i {
                                assert(selects(self@, i as int, s@));
                            }
                        },
                        None => {
                            assert(selects(self@, i as int, s@));
                        },
                    }
                }
                return Some(i);
            }
            i = i + 1;
        }
        proof {
            lemma_first_selected(self@, s@);
            match first_selected(self@, s@) {
                Some(f) => {
                    assert(selects(self@, f, s@));
                },
                None => {},
            }
        }
        None
    }

    /// The text of node `i` and its descendants.
    pub fn text_of(&self, i: usize) -> (t: String)
        requires
            i < self@.len(),
        ensures
            t@ == self@[i as int].text,
    {
        self.nodes[i].text.clone()
    }

    /// The value of attribute `name` on node `i`, if it has one.
    pub fn attr_of(&self, i: usize, name: &str) -> (v: Option<String>)
        requires
            i < self@.len(),
        ensures
            opt_seq(v) == attr_of(self@[i as int], name@),
    {
        let node = &self.nodes[i];
        assert(node.attrs@.map_values(|a: Attribute| a@) == self@[i as int].attrs);
        match attr_lookup(&node.attrs, name) {
            Some(v) => Some(v.clone()),
            None => None,
        }
    }

    /// Looks up attribute `attr` on the first node `s` picks.
    pub fn lookup(&self, s: &Selector, attr: &str) -> (r: Lookup)
        requires
            self.wf(),
        ensures
            r@ == lookup_attr(self@, s@, attr@),
    {
        let f = self.find_first(s);
        proof {
            lemma_first_selected(self@, s@);
        }
        match f {
            None => Lookup::NoElement,
            Some(i) => match self.attr_of(i, attr) {
                Some(v) => Lookup::Found(v),
                None => Lookup::NoAttribute,
            },
        }
    }
}

/// A proper ancestor of `i` is picked exactly when some node reached by
/// following parents from `i` is picked.
pub proof fn lemma_ancestor_selects_iff(doc: Seq<NodeModel>, i: int, a: SelectorView)
    requires
        doc_wf(doc),
    ensures
        ancestor_selects(doc, i, a) <==> exists|j: int| is_ancestor(doc, j, i) && #[trigger] selects(doc, j, a),
    decreases i,
{
    if 0 <= i < doc.len() {
        match doc[i].parent {
            Some(p) => {
                lemma_ancestor_selects_iff(doc, p, a);
                if ancestor_selects(doc, i, a) {
                    if selects(doc, p, a) {
                        assert(is_ancestor(doc, p, i));
                    } else {
                        let j = choose|j: int| is_ancestor(doc, j, p) && #[trigger] selects(doc, j, a);
                        assert(is_ancestor(doc, j, i));
                    }
                }
                if exists|j: int| is_ancestor(doc, j, i) && #[trigger] selects(doc, j, a) {
                    let j = choose|j: int| is_ancestor(doc, j, i) && #[trigger] selects(doc, j, a);
                    if j != p {
                        assert(is_ancestor(doc, j, p));
                    }
                }
            },
            None => {},
        }
    }
}

/// The first match is the earliest picked node: when node `k` is picked and
/// no node before it is, looking for the first match gives `k`.
pub proof fn lemma_first_selected_is_earliest(doc: Seq<NodeModel>, s: SelectorView, k: int)
    requires
        0 <= k < doc.len(),
        selects(doc, k, s),
        forall|j: int| 0 <= j < k ==> !#[trigger] selects(doc, j, s),
    ensures
        first_selected(doc, s) == Some(k),
{
    lemma_selected_below_facts(doc, s, doc.len());
    let all = selected(doc, s);
    assert(all.contains(k));
    let m = choose|m: int| 0 <= m < all.len() && all[m] == k;
    assert(selects(doc, all[0], s));
    if m > 0 {
        assert(all[0] < all[m]);
    }
}

/// A descendant selector picks a node at any depth: exactly the nodes the
/// inner selector picks that have some ancestor, however far up, picked by
/// the outer selector.
pub proof fn lemma_descendant_any_depth(doc: Seq<NodeModel>, i: int, a: SelectorView, b: SelectorView)
    requires
        doc_wf(doc),
    ensures
        selects(doc, i, SelectorView::Descendant(Box::new(a), Box::new(b))) <==> (selects(doc, i, b)
            && exists|j: int| is_ancestor(doc, j, i) && #[trigger] selects(doc, j, a)),
{
    lemma_ancestor_selects_iff(doc, i, a);
}

} // verus!
