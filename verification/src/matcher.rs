//! The link matcher: which links of a page a rule selects.
//!
//! A rule pairs a selector with a pattern. The selector picks elements out
//! of the markup, the pattern is tested against one attribute of each, and
//! the elements whose whole value it matches come back in the order the
//! selector engine gave them. Parsing and selecting are done by `crabler`'s
//! document type, the pattern test by `regex`; both are reached through the
//! two trusted functions of this module, whose results the contracts name
//! rather than describe.

use crate::text::{concatenate, to_chars};
use vstd::prelude::*;

verus! {

/// One element that a selector picked: the value of the attribute that was
/// asked for, if the element has it, and the element's own text, which is
/// the text directly inside it.
#[derive(Clone, Debug, PartialEq, Eq)]
pub struct Anchor {
    pub value: Option<String>,
    pub text: Option<String>,
}

impl View for Anchor {
    type V = (Option<Seq<char>>, Option<Seq<char>>);

    open spec fn view(&self) -> (Option<Seq<char>>, Option<Seq<char>>) {
        (
            match self.value {
                Some(v) => Some(v@),
                None => None,
            },
            match self.text {
                Some(t) => Some(t@),
                None => None,
            },
        )
    }
}

/// A link that a rule retained: the attribute value that passed the
/// pattern, and the text of the element.
#[derive(Clone, Debug, PartialEq, Eq)]
pub struct Link {
    pub target: String,
    pub text: String,
}

/// The mathematical content of a [`Link`].
pub struct LinkView {
    pub target: Seq<char>,
    pub text: Seq<char>,
}

impl View for Link {
    type V = LinkView;

    open spec fn view(&self) -> LinkView {
        LinkView { target: self.target@, text: self.text@ }
    }
}

/// The views of a sequence of selected elements.
pub open spec fn anchor_views(anchors: Seq<Anchor>) -> Seq<(Option<Seq<char>>, Option<Seq<char>>)> {
    anchors.map_values(|a: Anchor| a@)
}

/// The views of a sequence of links.
pub open spec fn link_views(links: Seq<Link>) -> Seq<LinkView> {
    links.map_values(|l: Link| l@)
}

/// What `regex`, in the version this crate is built with, answers when
/// `pattern` is compiled with `Regex::new` and the compiled expression is
/// asked `is_match` of `text`: `None` where the pattern does not compile,
/// otherwise whether it matches somewhere in the text.
pub uninterp spec fn regex_match(pattern: Seq<char>, text: Seq<char>) -> Option<bool>;

/// What `crabler`'s document type, in the version this crate is built
/// with, yields for `markup` and `selector`: for each selected element, in
/// the order `select` returns them, the value of `attribute` and the
/// element's text. The engine yields what lies inside an element before
/// the element itself, and a selector of several parts can yield one
/// element more than once.
pub uninterp spec fn selected_elements(
    markup: Seq<char>,
    selector: Seq<char>,
    attribute: Seq<char>,
) -> Seq<(Option<Seq<char>>, Option<Seq<char>>)>;

/// Whether `c` is one of the 128 characters of ASCII.
pub open spec fn is_ascii(c: char) -> bool {
    c <= '\u{7f}'
}

/// The selectors this crate hands to the selector engine: those in which
/// every `=` that has a character before it has an ASCII character other
/// than `[` before it.
///
/// The engine's parser of attribute tests with a value cuts the last
/// character off the text between `[` and the first `=` after it, and
/// stops the program where that text is empty or ends in a character of
/// more than one byte. A selector of this kind never brings it there:
/// `a[href]`, `a[href="x"]` and `a[href^="ap"]` are supported, `a[="x"]`
/// and `a[h\u{e9}="x"]` are not.
pub open spec fn selector_is_supported(selector: Seq<char>) -> bool {
    forall|i: int|
        0 < i < selector.len() && #[trigger] selector[i] == '=' ==> is_ascii(selector[i - 1])
            && selector[i - 1] != '['
}

/// Trusted: `regex::Regex::new` followed by `regex::Regex::is_match`.
/// The contract claims only that the answer is a function of the pattern's
/// and the text's characters, which it names [`regex_match`]. Compiling
/// reports a pattern it cannot take as an error, which becomes `None`.
#[verifier::external_body]
fn pattern_matches(pattern: &str, text: &str) -> (r: Option<bool>)
    ensures
        r == regex_match(pattern@, text@),
{
    match regex::Regex::new(pattern) {
        Ok(expression) => Some(expression.is_match(text)),
        Err(_) => None,
    }
}

/// Trusted: `crabler::Document::from`, `Document::select`, and for each
/// element `Element::attr` and `Element::text`; `crabler` hands these on
/// from `crabquery`, where their source is. The contract claims only that
/// what comes back is a function of the three texts, which it names
/// [`selected_elements`]. The selectors on which the engine can panic are
/// left out: see [`selector_is_supported`]. The engine walks the document
/// recursively, so the call presumes stack enough for the markup's nesting.
#[verifier::external_body]
fn select_elements(markup: &str, selector: &str, attribute: &str) -> (r: Vec<Anchor>)
    requires
        selector_is_supported(selector@),
    ensures
        anchor_views(r@) == selected_elements(markup@, selector@, attribute@),
{
    let document = crabler::Document::from(markup);
    document.select(selector).iter().map(
        |element| Anchor { value: element.attr(attribute), text: element.text() },
    ).collect()
}

/// `pattern` made to span a whole value: the pattern in a group of its
/// own, between `^` and `$`.
pub open spec fn whole_value(pattern: Seq<char>) -> Seq<char> {
    "^(?:"@ + pattern + ")$"@
}

/// Tells whether the selector engine supports `selector`.
pub fn supports_selector(selector: &str) -> (r: bool)
    ensures
        r == selector_is_supported(selector@),
{
    let chars = to_chars(selector);
    let mut i: usize = 1;
    while i < chars.len()
        invariant
            1 <= i,
            chars@ == selector@,
            forall|j: int|
                0 < j < i && j < chars.len() && #[trigger] chars@[j] == '=' ==> is_ascii(
                    chars@[j - 1],
                ) && chars@[j - 1] != '[',
        decreases chars.len() - i,
    {
        if chars[i] == '=' && (chars[i - 1] > '\u{7f}' || chars[i - 1] == '[') {
            return false;
        }
        i += 1;
    }
    true
}

/// A rule of the link matcher: a selector, the attribute to read from each
/// selected element, and the pattern that the attribute's value must match
/// from its first character to its last.
#[derive(Debug)]
pub struct LinkRule {
    selector: String,
    attribute: String,
    pattern: String,
    /// The pattern as it is handed to the pattern test.
    spanning: String,
}

impl LinkRule {
    /// Every rule has a selector that the engine supports, and holds its
    /// pattern in the spanning form as well.
    #[verifier::type_invariant]
    spec fn well_formed(self) -> bool {
        selector_is_supported(self.selector@) && self.spanning@ == whole_value(self.pattern@)
    }

    /// The rule's selector.
    pub closed spec fn selector(self) -> Seq<char> {
        self.selector@
    }

    /// The name of the attribute the rule reads.
    pub closed spec fn attribute(self) -> Seq<char> {
        self.attribute@
    }

    /// The rule's pattern.
    pub closed spec fn pattern(self) -> Seq<char> {
        self.pattern@
    }

    /// Makes a rule. A selector that the engine does not support is
    /// refused.
    pub fn new(selector: &str, attribute: &str, pattern: &str) -> (r: Option<LinkRule>)
        ensures
            r is Some <==> selector_is_supported(selector@),
            r matches Some(rule) ==> rule.selector() == selector@ && rule.attribute() == attribute@
                && rule.pattern() == pattern@,
    {
        if supports_selector(selector) {
            Some(LinkRule::assemble(selector, attribute, pattern))
        } else {
            None
        }
    }

    /// Puts a rule together from parts that are known to be in order.
    fn assemble(selector: &str, attribute: &str, pattern: &str) -> (r: LinkRule)
        requires
            selector_is_supported(selector@),
        ensures
            r.selector() == selector@,
            r.attribute() == attribute@,
            r.pattern() == pattern@,
    {
        let mut spanning = concatenate("^(?:", pattern);
        spanning.append(")$");
        LinkRule {
            selector: selector.to_owned(),
            attribute: attribute.to_owned(),
            pattern: pattern.to_owned(),
            spanning,
        }
    }

    /// The rule's selector.
    pub fn selector_text(&self) -> (r: &str)
        ensures
            r@ == self.selector(),
            selector_is_supported(r@),
    {
        proof {
            use_type_invariant(self);
        }
        self.selector.as_str()
    }

    /// The name of the attribute the rule reads.
    pub fn attribute_name(&self) -> (r: &str)
        ensures
            r@ == self.attribute(),
    {
        self.attribute.as_str()
    }

    /// The rule's pattern.
    pub fn pattern_text(&self) -> (r: &str)
        ensures
            r@ == self.pattern(),
    {
        self.pattern.as_str()
    }

    /// Tells whether the rule's pattern matches the whole of `value`. A
    /// pattern that does not compile matches nothing.
    pub fn accepts(&self, value: &str) -> (r: bool)
        ensures
            r == accepted(self.pattern(), value@),
    {
        proof {
            use_type_invariant(self);
        }
        verdict(pattern_matches(self.spanning.as_str(), value))
    }
}

/// `a[href]`: every anchor that has a link target.
pub open spec fn anchor_selector() -> Seq<char> {
    "a[href]"@
}

/// The rule that tests the link target of every anchor against `pattern`.
fn anchor_rule(pattern: &str) -> (r: LinkRule)
    ensures
        r.selector() == anchor_selector(),
        r.attribute() == target_attribute(),
        r.pattern() == pattern@,
{
    proof {
        lemma_anchor_selector_is_supported();
    }
    LinkRule::assemble("a[href]", "href", pattern)
}

/// `href`
pub open spec fn target_attribute() -> Seq<char> {
    "href"@
}

/// The pattern of entry pages on the index: `ap`, six digits, `.html`.
pub open spec fn index_pattern() -> Seq<char> {
    "^ap\\d{6}\\.html$"@
}

/// The pattern of image links on an entry page: anything under `image/`
/// that ends in `.jpg` or `.jpeg`.
pub open spec fn asset_pattern() -> Seq<char> {
    "^image/.*\\.jpe?g$"@
}

proof fn lemma_anchor_selector_is_supported()
    ensures
        selector_is_supported(anchor_selector()),
{
    reveal_strlit("a[href]");
    let s = anchor_selector();
    assert forall|i: int| 0 <= i < s.len() implies s[i] != '=' by {
        assert(s[0] == 'a' && s[1] == '[' && s[2] == 'h' && s[3] == 'r' && s[4] == 'e' && s[5]
            == 'f' && s[6] == ']');
    }
}

/// The rule that finds entry pages on the index.
pub fn index_rule() -> (r: LinkRule)
    ensures
        r.selector() == anchor_selector(),
        r.attribute() == target_attribute(),
        r.pattern() == index_pattern(),
{
    anchor_rule("^ap\\d{6}\\.html$")
}

/// The rule that finds the image on an entry page.
pub fn asset_rule() -> (r: LinkRule)
    ensures
        r.selector() == anchor_selector(),
        r.attribute() == target_attribute(),
        r.pattern() == asset_pattern(),
{
    anchor_rule("^image/.*\\.jpe?g$")
}

/// Whether `pattern`, made to span a whole value, compiles and matches
/// `value`.
pub open spec fn accepted(pattern: Seq<char>, value: Seq<char>) -> bool {
    regex_match(whole_value(pattern), value) == Some(true)
}

/// Whether an element passes a rule with pattern `pattern`: it has the
/// attribute, and the pattern matches its value.
pub open spec fn passes(element: (Option<Seq<char>>, Option<Seq<char>>), pattern: Seq<char>) -> bool {
    element.0 matches Some(value) && accepted(pattern, value)
}

/// The verdict on each of `elements`, in order.
pub open spec fn verdicts_of(
    elements: Seq<(Option<Seq<char>>, Option<Seq<char>>)>,
    pattern: Seq<char>,
) -> Seq<bool> {
    Seq::new(elements.len(), |i: int| passes(elements[i], pattern))
}

/// The link that a retained element becomes. An element without text
/// gives a link with empty text.
pub open spec fn link_of(element: (Option<Seq<char>>, Option<Seq<char>>)) -> LinkView {
    LinkView {
        target: match element.0 {
            Some(value) => value,
            None => Seq::empty(),
        },
        text: match element.1 {
            Some(text) => text,
            None => Seq::empty(),
        },
    }
}

/// Whether element `i` is retained: it has a verdict, the verdict is
/// `true`, and the element has the attribute.
pub open spec fn retains(
    elements: Seq<(Option<Seq<char>>, Option<Seq<char>>)>,
    verdicts: Seq<bool>,
    i: int,
) -> bool {
    0 <= i < elements.len() && i < verdicts.len() && verdicts[i] && elements[i].0 is Some
}

/// The links of the retained elements, in the order of the elements.
pub open spec fn retained(
    elements: Seq<(Option<Seq<char>>, Option<Seq<char>>)>,
    verdicts: Seq<bool>,
) -> Seq<LinkView>
    decreases elements.len(),
{
    if elements.len() == 0 {
        Seq::empty()
    } else {
        let before = retained(elements.drop_last(), verdicts);
        if retains(elements, verdicts, elements.len() - 1) {
            before.push(link_of(elements.last()))
        } else {
            before
        }
    }
}

/// The links that the rule with these three parts selects from `markup`.
pub open spec fn matching_links(
    markup: Seq<char>,
    selector: Seq<char>,
    attribute: Seq<char>,
    pattern: Seq<char>,
) -> Seq<LinkView> {
    let elements = selected_elements(markup, selector, attribute);
    retained(elements, verdicts_of(elements, pattern))
}

/// Reads the answer of the pattern test: only a pattern that compiled and
/// matched counts as a match.
pub fn verdict(answer: Option<bool>) -> (r: bool)
    ensures
        r == (answer == Some(true)),
{
    match answer {
        Some(matched) => matched,
        None => false,
    }
}

/// Tests the attribute value of each element against `rule`'s pattern.
pub fn judge(elements: &Vec<Anchor>, rule: &LinkRule) -> (r: Vec<bool>)
    ensures
        r@ == verdicts_of(anchor_views(elements@), rule.pattern()),
{
    let mut out: Vec<bool> = Vec::new();
    let mut i: usize = 0;
    while i < elements.len()
        invariant
            i <= elements.len(),
            out@.len() == i,
            forall|j: int|
                0 <= j < i ==> out@[j] == passes(
                    #[trigger] anchor_views(elements@)[j],
                    rule.pattern(),
                ),
        decreases elements.len() - i,
    {
        let passed = match &elements[i].value {
            Some(value) => rule.accepts(value.as_str()),
            None => false,
        };
        out.push(passed);
        i += 1;
    }
    out
}

/// Keeps the elements whose verdict is `true`, as links, in order.
///
/// An element without a verdict, or without the attribute, is dropped.
pub fn retain(elements: &Vec<Anchor>, verdicts: &Vec<bool>) -> (r: Vec<Link>)
    ensures
        link_views(r@) == retained(anchor_views(elements@), verdicts@),
{
    let mut out: Vec<Link> = Vec::new();
    let mut i: usize = 0;
    let ghost views = anchor_views(elements@);
    while i < elements.len()
        invariant
            i <= elements.len(),
            views == anchor_views(elements@),
            link_views(out@) == retained(views.take(i as int), verdicts@),
        decreases elements.len() - i,
    {
        assert(views.take(i + 1).drop_last() =~= views.take(i as int));
        if i < verdicts.len() && verdicts[i] {
            match &elements[i].value {
                Some(value) => {
                    let text = match &elements[i].text {
                        Some(text) => text.clone(),
                        None => String::new(),
                    };
                    out.push(Link { target: value.clone(), text });
                },
                None => {},
            }
        }
        i += 1;
    }
    assert(views.take(elements.len() as int) =~= views);
    out
}

/// The links that `rule` retains among `elements`.
pub fn filter_links(elements: &Vec<Anchor>, rule: &LinkRule) -> (r: Vec<Link>)
    ensures
        link_views(r@) == retained(
            anchor_views(elements@),
            verdicts_of(anchor_views(elements@), rule.pattern()),
        ),
{
    let verdicts = judge(elements, rule);
    retain(elements, &verdicts)
}

/// Applies `rule` to `markup`: selects the elements, reads the attribute
/// of each, and keeps those whose value the pattern matches, in the order
/// the selector engine yields them. The markup is not changed.
pub fn match_links(markup: &str, rule: &LinkRule) -> (r: Vec<Link>)
    ensures
        link_views(r@) == matching_links(
            markup@,
            rule.selector(),
            rule.attribute(),
            rule.pattern(),
        ),
{
    let elements = select_elements(markup, rule.selector_text(), rule.attribute_name());
    filter_links(&elements, rule)
}

} // verus!
