use apod_crawl::matcher::{
    asset_rule, filter_links, index_rule, judge, match_links, retain, supports_selector, verdict,
    Anchor, Link, LinkRule,
};

fn anchor(value: Option<&str>, text: Option<&str>) -> Anchor {
    Anchor { value: value.map(|v| v.to_string()), text: text.map(|t| t.to_string()) }
}

fn link(target: &str, text: &str) -> Link {
    Link { target: target.to_string(), text: text.to_string() }
}

#[test]
fn index_rule_finds_entry_links_in_page_order() {
    let markup = "<html><body>\
        <a href=\"ap200102.html\">Second</a>\
        <a href=\"about.html\">About</a>\
        <b><a href=\"ap200101.html\">First Light</a></b>\
        <a name=\"top\">no target</a>\
        </body></html>";
    let links = match_links(markup, &index_rule());
    assert_eq!(links, vec![link("ap200102.html", "Second"), link("ap200101.html", "First Light")]);
}

#[test]
fn index_rule_wants_the_whole_value_to_match() {
    let rule = index_rule();
    assert!(rule.accepts("ap200101.html"));
    assert!(!rule.accepts("ap20010.html"));
    assert!(!rule.accepts("ap2001011.html"));
    assert!(!rule.accepts("xap200101.html"));
    assert!(!rule.accepts("ap200101.html?x"));
    assert!(!rule.accepts("ap200101xhtml"));
    assert!(!rule.accepts("archive/ap200101.html"));
    assert!(!rule.accepts(""));
}

#[test]
fn asset_rule_takes_jpg_and_jpeg() {
    let rule = asset_rule();
    assert!(rule.accepts("image/2020/ap200101.jpg"));
    assert!(rule.accepts("image/2020/ap200101.jpeg"));
    assert!(rule.accepts("image/.jpg"));
    assert!(!rule.accepts("image/2020/ap200101.png"));
    assert!(!rule.accepts("image/2020/ap200101.jpg.html"));
    assert!(!rule.accepts("images/2020/ap200101.jpg"));
    assert!(!rule.accepts("/image/2020/ap200101.jpg"));
    assert!(!rule.accepts("image/2020/ap200101.JPG"));
}

#[test]
fn asset_rule_finds_image_links() {
    let markup = "<html><body><center><p>\
        <a href=\"image/2001/first.jpg\"><img src=\"image/2001/first_small.jpg\"></a>\
        </p></center><a href=\"ap200102.html\">next</a></body></html>";
    let links = match_links(markup, &asset_rule());
    assert_eq!(links, vec![link("image/2001/first.jpg", "")]);
}

#[test]
fn markup_without_links_gives_nothing() {
    assert_eq!(match_links("", &index_rule()), Vec::<Link>::new());
    assert_eq!(match_links("<p>ap200101.html</p>", &index_rule()), Vec::<Link>::new());
    assert_eq!(match_links("<a>ap200101.html</a>", &index_rule()), Vec::<Link>::new());
}

#[test]
fn rule_with_other_selector_and_attribute() {
    let rule = LinkRule::new("b a[href]", "href", "^ap\\d{6}\\.html$").unwrap();
    let markup = "<a href=\"ap200102.html\">plain</a><b><a href=\"ap200101.html\">bold</a></b>";
    assert_eq!(match_links(markup, &rule), vec![link("ap200101.html", "bold")]);
    let by_title = LinkRule::new("a", "title", "^t.$").unwrap();
    let markup = "<a title=\"t1\">one</a><a title=\"u2\">two</a><a>three</a><a title=\"t3\">four</a>";
    assert_eq!(match_links(markup, &by_title), vec![link("t1", "one"), link("t3", "four")]);
}

#[test]
fn rule_wants_the_whole_value_even_without_anchors() {
    let rule = LinkRule::new("a[href]", "href", "ap\\d{6}").unwrap();
    assert!(rule.accepts("ap200101"));
    assert!(!rule.accepts("ap200101.html"));
    assert!(!rule.accepts("xap200101"));
    assert!(!rule.accepts("ap200101\n"));
    let either = LinkRule::new("a[href]", "href", "a|bc").unwrap();
    assert!(either.accepts("a"));
    assert!(either.accepts("bc"));
    assert!(!either.accepts("abc"));
    assert!(!either.accepts("ab"));
    let markup = "<a href=\"ap200101\">one</a><a href=\"ap200101.html\">two</a>";
    assert_eq!(match_links(markup, &rule), vec![link("ap200101", "one")]);
}

#[test]
fn rule_keeps_its_parts() {
    let rule = LinkRule::new("b a[href]", "href", "^x$").unwrap();
    assert_eq!(rule.selector_text(), "b a[href]");
    assert_eq!(rule.attribute_name(), "href");
    assert_eq!(rule.pattern_text(), "^x$");
    assert_eq!(index_rule().selector_text(), "a[href]");
    assert_eq!(index_rule().pattern_text(), "^ap\\d{6}\\.html$");
    assert_eq!(asset_rule().pattern_text(), "^image/.*\\.jpe?g$");
    assert_eq!(asset_rule().attribute_name(), "href");
}

#[test]
fn selector_that_the_engine_cannot_take_is_refused() {
    assert!(LinkRule::new("[=x]", "href", ".*").is_none());
    assert!(LinkRule::new("a[=\"x\"]", "href", ".*").is_none());
    assert!(LinkRule::new("a[h\u{e9}=\"x\"]", "href", ".*").is_none());
    assert!(LinkRule::new("a[href] b[=", "href", ".*").is_none());
    assert!(LinkRule::new("\u{e9}=", "href", ".*").is_none());
    assert!(!supports_selector("[="));
    assert!(!supports_selector("a[b=c] [=d]"));
}

#[test]
fn selector_with_a_value_test_is_taken() {
    assert!(LinkRule::new("a[href=\"x\"]", "href", ".*").is_some());
    assert!(LinkRule::new("a[href^=\"ap\"]", "href", ".*").is_some());
    assert!(LinkRule::new("a[\u{e9}h=x]", "href", ".*").is_some());
    assert!(LinkRule::new("a[href]", "href", ".*").is_some());
    assert!(LinkRule::new("", "href", ".*").is_some());
    assert!(LinkRule::new("=", "href", ".*").is_some());
    assert!(LinkRule::new("a=b", "href", ".*").is_some());
    assert!(supports_selector("a[b==]"));
    assert!(supports_selector("a[b=c=d]"));
    assert!(supports_selector("]=x"));
    assert!(supports_selector("#=x"));
}

#[test]
fn selector_picks_by_attribute_value() {
    let markup = "<a rel=\"prev\" href=\"ap200101.html\">before</a>\
        <a rel=\"next\" href=\"ap200103.html\">after</a>\
        <a href=\"ap200102.html\">today</a>";
    let exact = LinkRule::new("a[rel=\"next\"]", "href", ".*").unwrap();
    assert_eq!(match_links(markup, &exact), vec![link("ap200103.html", "after")]);
    let starts = LinkRule::new("a[rel^=\"pr\"]", "href", ".*").unwrap();
    assert_eq!(match_links(markup, &starts), vec![link("ap200101.html", "before")]);
    let ends = LinkRule::new("a[href$=\"3\"]", "href", ".*").unwrap();
    assert!(match_links(markup, &ends).len() <= 3);
    let holds = LinkRule::new("a[rel*=\"e\"]", "href", ".*").unwrap();
    assert_eq!(
        match_links(markup, &holds),
        vec![link("ap200101.html", "before"), link("ap200103.html", "after")]
    );
}

#[test]
fn every_short_supported_selector_is_taken_by_the_engine() {
    let alphabet = ['a', '=', '[', ']', '#', '.', '>', ' ', '\u{e9}', '"', '^', '$'];
    let markup = "<a id=\"a\" class=\"a\" a=\"a\" href=\"a\">a</a>";
    let mut selectors: Vec<String> = vec![String::new()];
    let mut tried = 0usize;
    let mut taken = 0usize;
    for _ in 0..4 {
        let mut longer = Vec::new();
        for selector in &selectors {
            for c in alphabet {
                let mut next = selector.clone();
                next.push(c);
                longer.push(next);
            }
        }
        for selector in &longer {
            tried += 1;
            if let Some(rule) = LinkRule::new(selector, "href", ".*") {
                taken += 1;
                for found in match_links(markup, &rule) {
                    assert_eq!(found, link("a", "a"));
                }
            }
        }
        selectors = longer;
    }
    assert_eq!(tried, 12 + 144 + 1728 + 20736);
    assert!(taken > tried / 2);
    assert!(taken < tried);
}

#[test]
fn pattern_that_does_not_compile_matches_nothing() {
    let rule = LinkRule::new("a[href]", "href", "(").unwrap();
    assert!(!rule.accepts("("));
    assert!(!rule.accepts(""));
    assert_eq!(match_links("<a href=\"(\">x</a>", &rule), Vec::<Link>::new());
}

#[test]
fn verdict_reads_only_a_match_as_yes() {
    assert!(verdict(Some(true)));
    assert!(!verdict(Some(false)));
    assert!(!verdict(None));
}

#[test]
fn retain_keeps_what_passed_in_order() {
    let elements = vec![
        anchor(Some("a"), Some("one")),
        anchor(Some("b"), Some("two")),
        anchor(Some("c"), None),
        anchor(None, Some("four")),
        anchor(Some("e"), Some("five")),
    ];
    let links = retain(&elements, &vec![true, false, true, true, true]);
    assert_eq!(links, vec![link("a", "one"), link("c", ""), link("e", "five")]);
}

#[test]
fn retain_drops_elements_without_verdict() {
    let elements = vec![anchor(Some("a"), Some("one")), anchor(Some("b"), Some("two"))];
    assert_eq!(retain(&elements, &vec![true]), vec![link("a", "one")]);
    assert_eq!(retain(&elements, &vec![]), Vec::<Link>::new());
    assert_eq!(retain(&elements, &vec![false, true, true]), vec![link("b", "two")]);
    assert_eq!(retain(&Vec::new(), &vec![true]), Vec::<Link>::new());
}

#[test]
fn judge_gives_one_verdict_per_element() {
    let elements = vec![
        anchor(Some("ap200101.html"), Some("one")),
        anchor(None, Some("two")),
        anchor(Some("index.html"), None),
        anchor(Some("ap991231.html"), None),
    ];
    assert_eq!(judge(&elements, &index_rule()), vec![true, false, false, true]);
    assert_eq!(judge(&Vec::new(), &index_rule()), Vec::<bool>::new());
}

#[test]
fn filter_links_judges_and_retains() {
    let elements = vec![
        anchor(Some("image/a.jpg"), Some("one")),
        anchor(Some("a.jpg"), Some("two")),
        anchor(Some("image/b.jpeg"), None),
    ];
    assert_eq!(
        filter_links(&elements, &asset_rule()),
        vec![link("image/a.jpg", "one"), link("image/b.jpeg", "")]
    );
}

#[test]
fn odd_selectors_without_equals_sign_are_taken() {
    let markup = "<html><body><div id=\"x\" class=\"c d\"><p><a href=\"ap200101.html\">t</a></p></div></body></html>";
    let selectors = [
        "", " ", ">", "a>b", "a > b", "div > p a", "[", "]", "[[", "]]", "a[", "a]", "a[]",
        "#", ".", "#.", "a#.b[c]d", "é[ü]", "[é", "*", "a[href", "a]href[", "a  [href]",
        "div.c.d#x a[href]", "[href][href]", ".c .d", "#x#x", "\u{1F980}", "a\tb\nc",
    ];
    for selector in selectors {
        let rule = LinkRule::new(selector, "href", ".*").unwrap();
        for found in match_links(markup, &rule) {
            assert_eq!(found, link("ap200101.html", "t"), "selector {:?}", selector);
        }
        assert!(match_links("", &rule).is_empty());
    }
}

#[test]
fn selector_picks_by_class_and_id() {
    let markup = "<div class=\"list\"><a id=\"one\" href=\"ap200101.html\">first</a>\
        <a class=\"big\" href=\"ap200102.html\">second</a></div><a href=\"ap200103.html\">third</a>";
    let by_id = LinkRule::new("a#one", "href", ".*").unwrap();
    assert_eq!(match_links(markup, &by_id), vec![link("ap200101.html", "first")]);
    let by_class = LinkRule::new("div.list a.big", "href", ".*").unwrap();
    assert_eq!(match_links(markup, &by_class), vec![link("ap200102.html", "second")]);
    let inside = LinkRule::new("div a", "href", ".*").unwrap();
    assert_eq!(
        match_links(markup, &inside),
        vec![link("ap200101.html", "first"), link("ap200102.html", "second")]
    );
}

#[test]
fn link_text_is_the_text_directly_inside_the_element() {
    let markup = "<a href=\"ap200101.html\">The <i>Crab</i> Nebula</a><a href=\"ap200102.html\"><img src=\"x.gif\"></a>";
    assert_eq!(
        match_links(markup, &index_rule()),
        vec![link("ap200101.html", "The  Nebula"), link("ap200102.html", "")]
    );
}

#[test]
fn markup_is_read_leniently() {
    let markup = "<A HREF=ap200101.html>Upper</A><a href='ap200102.html'>single<a href=\"ap200103.html\">unclosed";
    assert_eq!(
        match_links(markup, &index_rule()),
        vec![
            link("ap200101.html", "Upper"),
            link("ap200102.html", "single"),
            link("ap200103.html", "unclosed"),
        ]
    );
}

#[test]
fn index_rule_takes_digits_beyond_ascii_as_the_pattern_test_does() {
    let rule = index_rule();
    assert!(rule.accepts("ap\u{0661}\u{0662}\u{0663}\u{0664}\u{0665}\u{0666}.html"));
    assert!(!rule.accepts("apabcdef.html"));
}
