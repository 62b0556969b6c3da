use minihtml::attrs::AttrMap;
use minihtml::cursor::Cursor;
use minihtml::parser::{
    parse, parse_attr, parse_attr_body, parse_attr_key, parse_attr_sub, parse_attr_value, parse_element, parse_element_head, parse_element_tail,
    parse_nodes, parse_tag, parse_tag_sub, parse_text,
};
use minihtml::tree::{Element, Node, NodeType, ParseError, Text};

fn element(tag: &str, attributes: AttrMap, children: Vec<Node>) -> Node {
    Node {
        node_type: NodeType::Element(Element { tag_name: tag.to_string(), attributes }),
        children,
    }
}

fn text(data: &str) -> Node {
    Node { node_type: NodeType::Text(Text { data: data.to_string() }), children: vec![] }
}

fn attrs(pairs: &[(&str, &str)]) -> AttrMap {
    let mut m = AttrMap::new();
    for (k, v) in pairs {
        m.insert(k.to_string(), v.to_string());
    }
    m
}

#[test]
fn parse_element_head_test() {
    let str = "<body>";
    let result = parse_element_head(&mut Cursor::new(str));
    let expected = ("body".to_string(), AttrMap::new());
    assert_eq!(Ok(expected), result);

    let str = "<div id=\"nyan\">";
    let result = parse_element_head(&mut Cursor::new(str));
    let mut attr_map = AttrMap::new();
    attr_map.insert("id".to_string(), "nyan".to_string());

    let expected = ("div".to_string(), attr_map);
    assert_eq!(Ok(expected), result);

    let str = "<div id=\"nyan\" class=\"aaa\">";
    let result = parse_element_head(&mut Cursor::new(str));
    let mut attr_map = AttrMap::new();
    attr_map.insert("id".to_string(), "nyan".to_string());
    attr_map.insert("class".to_string(), "aaa".to_string());

    let expected = ("div".to_string(), attr_map);
    assert_eq!(Ok(expected), result)
}

#[test]
fn parse_element_test() {
    let str = "<body></body>";
    let result = parse_element(&mut Cursor::new(str));
    let expected = element("body", AttrMap::new(), vec![]);
    assert_eq!(Ok(expected), result);
}

#[test]
fn parse_tag_sub_test() {
    let str = "body ";
    let result = parse_tag_sub(&mut Cursor::new(str));
    let expected = "body";
    assert_eq!(Ok(expected.to_string()), result)
}

#[test]
fn test_parse() {
    let html = "<body><div class=\"aa\" id=\"aaa\">nyan</div></body>";
    let result = parse(&mut Cursor::new(html));

    let mut div_attr = AttrMap::new();
    div_attr.insert("class".to_string(), "aa".to_string());
    div_attr.insert("id".to_string(), "aaa".to_string());

    let goal = element("body", AttrMap::new(), vec![element("div", div_attr, vec![text("nyan")])]);

    assert_eq!(Ok(goal), result);
}

#[test]
fn minimal_document_has_one_attribute_and_one_text_child() {
    let result = parse(&mut Cursor::new("<p lang=\"en\">hello world</p>"));
    let expected = element("p", attrs(&[("lang", "en")]), vec![text("hello world")]);
    assert_eq!(Ok(expected), result);
}

#[test]
fn empty_element_has_no_attributes_or_children() {
    let result = parse(&mut Cursor::new("<body></body>")).unwrap();
    assert_eq!(result.children.len(), 0);
    match result.node_type {
        NodeType::Element(e) => {
            assert_eq!(e.tag_name, "body");
            assert!(e.attributes.is_empty());
        }
        NodeType::Text(_) => panic!("expected an element"),
    }
}

#[test]
fn attributes_compare_without_regard_to_order() {
    let (tag, found) = parse_element_head(&mut Cursor::new("<div id=\"nyan\" class=\"aaa\">")).unwrap();
    assert_eq!(tag, "div");
    assert_eq!(found, attrs(&[("class", "aaa"), ("id", "nyan")]));
    assert_ne!(found, attrs(&[("class", "aaa")]));
    assert_ne!(found, attrs(&[("class", "aaa"), ("id", "other")]));
    assert_eq!(found.get("id"), Some(&"nyan".to_string()));
    assert_eq!(found.get("class"), Some(&"aaa".to_string()));
    assert_eq!(found.get("style"), None);
}

#[test]
fn quotes_are_dropped_anywhere_in_a_value() {
    let mut c = Cursor::new("a\"b\"c\"> rest");
    assert_eq!(parse_attr_value(&mut c), Ok("abc".to_string()));
    assert_eq!(c.peek(), Some('>'));
    let (_, found) = parse_element_head(&mut Cursor::new("<x k=\"\"v\"\">")).unwrap();
    assert_eq!(found.get("k"), Some(&"v".to_string()));
}

#[test]
fn mismatched_closing_tag_names_both_tags() {
    let result = parse(&mut Cursor::new("<a></b>"));
    assert_eq!(result, Err(ParseError::TagMismatch("a".to_string(), "b".to_string())));
}

#[test]
fn truncated_opening_tag_is_end_of_input() {
    let result = parse(&mut Cursor::new("<div id=\"x\""));
    assert_eq!(result, Err(ParseError::UnexpectedEndOfInput));
}

#[test]
fn nested_elements() {
    let result = parse(&mut Cursor::new("<a><b></b></a>"));
    let expected = element("a", AttrMap::new(), vec![element("b", AttrMap::new(), vec![])]);
    assert_eq!(Ok(expected), result);
}

#[test]
fn parsing_twice_gives_equal_trees() {
    let doc = "<ul class=\"x\"><li>one</li><li id=\"2\">two</li></ul>";
    let first = parse(&mut Cursor::new(doc));
    let second = parse(&mut Cursor::new(doc));
    assert!(first.is_ok());
    assert_eq!(first, second);
    let bad = "<ul><li></ul>";
    assert_eq!(parse(&mut Cursor::new(bad)), parse(&mut Cursor::new(bad)));
}

#[test]
fn siblings_mix_text_and_elements() {
    let result = parse(&mut Cursor::new("<p>a<b>bold</b> c</p>"));
    let expected = element(
        "p",
        AttrMap::new(),
        vec![text("a"), element("b", AttrMap::new(), vec![text("bold")]), text(" c")],
    );
    assert_eq!(Ok(expected), result);
}

#[test]
fn later_duplicate_attribute_wins() {
    let (_, found) = parse_element_head(&mut Cursor::new("<a x=1 x=2>")).unwrap();
    assert_eq!(found, attrs(&[("x", "2")]));
}

#[test]
fn spaces_before_closing_bracket_are_allowed() {
    let result = parse(&mut Cursor::new("<a></a   >"));
    assert_eq!(result, Ok(element("a", AttrMap::new(), vec![])));
}

#[test]
fn empty_tag_name_is_an_unexpected_token() {
    assert_eq!(parse(&mut Cursor::new("<>")), Err(ParseError::UnexpectedToken));
    assert_eq!(parse_tag(&mut Cursor::new(">")), Err(ParseError::UnexpectedToken));
}

#[test]
fn junk_in_closing_tag_is_an_unexpected_token() {
    assert_eq!(parse(&mut Cursor::new("<a></a x>")), Err(ParseError::UnexpectedToken));
}

#[test]
fn key_without_equals_is_malformed() {
    assert_eq!(parse(&mut Cursor::new("<a b></a>")), Err(ParseError::MalformedAttribute));
}

#[test]
fn missing_closing_tag_is_end_of_input() {
    assert_eq!(parse(&mut Cursor::new("<a>text")), Err(ParseError::UnexpectedEndOfInput));
    assert_eq!(parse(&mut Cursor::new("<a>")), Err(ParseError::UnexpectedEndOfInput));
}

#[test]
fn empty_input_and_bare_text_are_end_of_input() {
    assert_eq!(parse(&mut Cursor::new("")), Err(ParseError::UnexpectedEndOfInput));
    assert_eq!(parse(&mut Cursor::new("just text")), Err(ParseError::UnexpectedEndOfInput));
}

#[test]
fn text_before_a_tag_is_a_node() {
    let mut c = Cursor::new("héllo<b>");
    assert_eq!(parse_text(&mut c), Some(text("héllo")));
    assert_eq!(c.peek(), Some('<'));
    assert_eq!(parse_text(&mut Cursor::new("no tag")), None);
}

#[test]
fn tag_name_stops_at_space_or_bracket() {
    let mut c = Cursor::new("div id=x>");
    assert_eq!(parse_tag(&mut c), Ok("div".to_string()));
    assert_eq!(c.advance(), Some(' '));
    assert_eq!(parse_tag_sub(&mut Cursor::new("div")), Err(ParseError::UnexpectedEndOfInput));
}

#[test]
fn attribute_list_consumes_closing_bracket() {
    let mut c = Cursor::new("  a=1  b=\"2\"  >rest");
    let found = parse_attr(&mut c).unwrap();
    assert_eq!(found, attrs(&[("a", "1"), ("b", "2")]));
    assert_eq!(c.peek(), Some('r'));
}

#[test]
fn closing_tag_checks_its_name() {
    let tag = "a".to_string();
    let mut c = Cursor::new("/a>after");
    assert_eq!(parse_element_tail(&mut c, &tag), Ok(()));
    assert_eq!(c.peek(), Some('a'));
    assert_eq!(
        parse_element_tail(&mut Cursor::new("/b>"), &tag),
        Err(ParseError::TagMismatch("a".to_string(), "b".to_string()))
    );
}

#[test]
fn children_stop_after_closing_tag_opener() {
    let mut c = Cursor::new("x<i></i></a>");
    let kids = parse_nodes(&mut c).unwrap();
    assert_eq!(kids, vec![text("x"), element("i", AttrMap::new(), vec![])]);
    assert_eq!(c.peek(), Some('/'));
}

#[test]
fn cursor_reads_characters_in_order() {
    let mut c = Cursor::new("aé");
    assert_eq!(c.peek(), Some('a'));
    assert_eq!(c.advance(), Some('a'));
    assert_eq!(c.advance(), Some('é'));
    assert_eq!(c.advance(), None);
    assert_eq!(c.peek(), None);
}

#[test]
fn tag_name_may_not_be_empty() {
    assert_eq!(parse(&mut Cursor::new("< ></ >")), Err(ParseError::UnexpectedToken));
    assert_eq!(parse_tag(&mut Cursor::new(" a>")), Err(ParseError::UnexpectedToken));
    assert_eq!(parse(&mut Cursor::new("<a></ >")), Err(ParseError::UnexpectedToken));
}

#[test]
fn attribute_key_may_not_be_empty() {
    assert_eq!(parse(&mut Cursor::new("<a =x></a>")), Err(ParseError::MalformedAttribute));
    assert_eq!(parse_attr_key(&mut Cursor::new("=x")), Err(ParseError::MalformedAttribute));
    assert_eq!(parse_attr_key(&mut Cursor::new("key=x")), Ok("key".to_string()));
}

#[test]
fn failed_binding_leaves_the_map_unchanged() {
    let mut m = attrs(&[("a", "1")]);
    assert_eq!(parse_attr_body(&mut Cursor::new("k>"), &mut m), Err(ParseError::MalformedAttribute));
    assert_eq!(m, attrs(&[("a", "1")]));
    assert_eq!(parse_attr_body(&mut Cursor::new("k=\"v"), &mut m), Err(ParseError::UnexpectedEndOfInput));
    assert_eq!(m, attrs(&[("a", "1")]));
    assert_eq!(parse_attr_sub(&mut Cursor::new("k"), &mut m), Err(ParseError::UnexpectedEndOfInput));
    assert_eq!(m, attrs(&[("a", "1")]));
    assert_eq!(parse_attr_sub(&mut Cursor::new("k=2 "), &mut m), Ok(()));
    assert_eq!(m, attrs(&[("a", "1"), ("k", "2")]));
}

#[test]
fn parse_leaves_trailing_input_unread() {
    let mut c = Cursor::new("<a></a>tail");
    assert_eq!(parse(&mut c), Ok(element("a", AttrMap::new(), vec![])));
    assert_eq!(c.peek(), Some('t'));
    let mut d = Cursor::new("<a></a>tail");
    parse(&mut d).unwrap();
    assert_eq!(c.advance(), d.advance());
}
