//! The recursive-descent parser. Every routine reads from one shared
//! `Cursor` and is proved to do exactly what its grammar function in
//! `grammar` states, on every input.
use vstd::prelude::*;

use crate::attrs::AttrMap;
use crate::cursor::Cursor;
use crate::grammar::{
    prepend,
    attr_bind, attr_key, attr_list, attr_step, attr_value, children, closing_rest, document,
    element, element_head, element_rest, element_tail, key_stops, node, scan, tag_name, tag_stops,
    tag_word, text, text_stops, unquoted, Parsed,
};
use crate::tree::{Element, Node, NodeType, NodeView, ParseError, ParseErrorView, Text, nodes_view};

verus! {

/// Relies on `String::push`: the character is appended at the end.
pub assume_specification[ String::push ](s: &mut String, ch: char)
    ensures
        final(s)@ == old(s)@.push(ch),
;

/// What a parsing routine returned, read as a value of the grammar.
pub open spec fn outcome<T: View>(r: Result<T, ParseError>, rest: Seq<char>) -> Parsed<T::V> {
    match r {
        Ok(v) => Ok((v@, rest)),
        Err(e) => Err(e@),
    }
}

/// A routine that returns no value: on success, `v` and the input left.
pub open spec fn settled<T, V>(r: Result<T, ParseError>, v: V, rest: Seq<char>) -> Parsed<V> {
    match r {
        Ok(_) => Ok((v, rest)),
        Err(e) => Err(e@),
    }
}

/// `acc` in front of the run that `o` found.
pub open spec fn shifted(acc: Seq<char>, o: Option<(Seq<char>, Seq<char>)>) -> Option<
    (Seq<char>, Seq<char>),
> {
    match o {
        Some((w, r)) => Some((acc + w, r)),
        None => None,
    }
}

/// The node, if any, that `o` holds.
pub open spec fn node_opt(o: Option<Node>) -> Option<NodeView> {
    match o {
        Some(n) => Some(n@),
        None => None,
    }
}

/// `acc` in front of the nodes that `rest` parsed.
pub open spec fn prepend_all(acc: Seq<NodeView>, rest: Parsed<Seq<NodeView>>) -> Parsed<
    Seq<NodeView>,
> {
    match rest {
        Ok((ns, r)) => Ok((acc + ns, r)),
        Err(e) => Err(e),
    }
}

proof fn lemma_nodes_view_push(v: Seq<Node>, n: Node)
    ensures
        nodes_view(v.push(n)) == nodes_view(v).push(n@),
{
    assert(v.push(n).subrange(0, v.len() as int) =~= v);
}

proof fn lemma_prepend_step(acc: Seq<NodeView>, n: NodeView, rest: Parsed<Seq<NodeView>>)
    ensures
        prepend_all(acc, prepend(n, rest)) == prepend_all(acc.push(n), rest),
{
    match rest {
        Ok((ns, r)) => {
            assert(acc + (seq![n] + ns) =~= acc.push(n) + ns);
        },
        Err(_) => {},
    }
}

proof fn lemma_prepend_none(acc: Seq<NodeView>, r: Seq<char>)
    ensures
        prepend_all(acc, Ok((Seq::empty(), r))) == Ok::<(Seq<NodeView>, Seq<char>), ParseErrorView>((acc, r)),
{
    assert(acc + Seq::<NodeView>::empty() =~= acc);
}

proof fn lemma_scan_step(acc: Seq<char>, s: Seq<char>, stops: Set<char>)
    requires
        s.len() > 0,
        !stops.contains(s[0]),
    ensures
        shifted(acc, scan(s, stops)) == shifted(acc.push(s[0]), scan(s.drop_first(), stops)),
{
    match scan(s.drop_first(), stops) {
        Some((w, r)) => {
            assert(acc + (seq![s[0]] + w) =~= acc.push(s[0]) + w);
        },
        None => {},
    }
}

proof fn lemma_scan_stop(acc: Seq<char>, s: Seq<char>, stops: Set<char>)
    requires
        s.len() > 0,
        stops.contains(s[0]),
    ensures
        shifted(acc, scan(s, stops)) == Some((acc, s)),
{
    assert(acc + Seq::<char>::empty() =~= acc);
}

proof fn lemma_unquoted_push(v: Seq<char>, c: char)
    ensures
        unquoted(v.push(c)) == (if c == '"' { unquoted(v) } else { unquoted(v).push(c) }),
{
    reveal(Seq::filter);
    assert(v.push(c).drop_last() =~= v);
}

/// Reads characters up to the first space or `>`, which is left in place.
pub fn parse_tag_sub(s: &mut Cursor) -> (r: Result<String, ParseError>)
    ensures
        outcome(r, final(s)@) == tag_word(old(s)@),
        final(s)@.len() <= old(s)@.len(),
{
    let mut result = String::new();
    loop
        invariant
            shifted(result@, scan(s@, tag_stops())) == scan(old(s)@, tag_stops()),
            s@.len() <= old(s)@.len(),
        decreases s@.len(),
    {
        match s.peek() {
            Some(c) => {
                if c == ' ' || c == '>' {
                    proof {
                        lemma_scan_stop(result@, s@, tag_stops());
                    }
                    return Ok(result);
                }
                proof {
                    lemma_scan_step(result@, s@, tag_stops());
                }
                s.advance();
                result.push(c);
            },
            None => {
                return Err(ParseError::UnexpectedEndOfInput);
            },
        }
    }
}

/// Reads a tag name; fails when it would be empty (a space or `>` in first
/// place) or at the end of the input.
pub fn parse_tag(s: &mut Cursor) -> (r: Result<String, ParseError>)
    ensures
        outcome(r, final(s)@) == tag_name(old(s)@),
        final(s)@.len() <= old(s)@.len(),
{
    match s.peek() {
        Some(c) => {
            if c == ' ' || c == '>' {
                Err(ParseError::UnexpectedToken)
            } else {
                parse_tag_sub(s)
            }
        },
        None => Err(ParseError::UnexpectedEndOfInput),
    }
}

/// Reads an attribute key, up to the first space, `>` or `=`, which is left
/// in place; fails when the key would be empty.
pub fn parse_attr_key(s: &mut Cursor) -> (r: Result<String, ParseError>)
    ensures
        outcome(r, final(s)@) == attr_key(old(s)@),
        final(s)@.len() <= old(s)@.len(),
{
    if let Some(c) = s.peek() {
        if c == ' ' || c == '>' || c == '=' {
            return Err(ParseError::MalformedAttribute);
        }
    }
    let mut result = String::new();
    loop
        invariant
            shifted(result@, scan(s@, key_stops())) == scan(old(s)@, key_stops()),
            !(old(s)@.len() > 0 && key_stops().contains(old(s)@[0])),
            s@.len() <= old(s)@.len(),
        decreases s@.len(),
    {
        match s.peek() {
            Some(c) => {
                if c == ' ' || c == '>' || c == '=' {
                    proof {
                        lemma_scan_stop(result@, s@, key_stops());
                    }
                    return Ok(result);
                }
                proof {
                    lemma_scan_step(result@, s@, key_stops());
                }
                s.advance();
                result.push(c);
            },
            None => {
                return Err(ParseError::UnexpectedEndOfInput);
            },
        }
    }
}

/// Reads an attribute value, up to the first space or `>`, which is left in
/// place. Every `"` is consumed and left out of the value.
pub fn parse_attr_value(s: &mut Cursor) -> (r: Result<String, ParseError>)
    ensures
        outcome(r, final(s)@) == attr_value(old(s)@),
        final(s)@.len() <= old(s)@.len(),
{
    let ghost mut read: Seq<char> = Seq::empty();
    let mut result = String::new();
    loop
        invariant
            shifted(read, scan(s@, tag_stops())) == scan(old(s)@, tag_stops()),
            result@ == unquoted(read),
            s@.len() <= old(s)@.len(),
        decreases s@.len(),
    {
        match s.peek() {
            Some(c) => {
                if c == ' ' || c == '>' {
                    proof {
                        lemma_scan_stop(read, s@, tag_stops());
                    }
                    return Ok(result);
                }
                proof {
                    lemma_scan_step(read, s@, tag_stops());
                    lemma_unquoted_push(read, c);
                    read = read.push(c);
                }
                s.advance();
                if c != '"' {
                    result.push(c);
                }
            },
            None => {
                return Err(ParseError::UnexpectedEndOfInput);
            },
        }
    }
}

/// Reads one binding `key=value` and adds it to `attr_map`.
pub fn parse_attr_body(s: &mut Cursor, attr_map: &mut AttrMap) -> (r: Result<(), ParseError>)
    ensures
        settled(r, final(attr_map)@, final(s)@) == attr_bind(old(s)@, old(attr_map)@),
        r is Err ==> final(attr_map)@ == old(attr_map)@,
        final(s)@.len() <= old(s)@.len(),
        r is Ok ==> final(s)@.len() < old(s)@.len(),
{
    let key = match parse_attr_key(s) {
        Ok(k) => k,
        Err(e) => {
            return Err(e);
        },
    };
    match s.advance() {
        Some(c) => {
            if c != '=' {
                return Err(ParseError::MalformedAttribute);
            }
        },
        None => {
            return Err(ParseError::MalformedAttribute);
        },
    }
    let value = match parse_attr_value(s) {
        Ok(v) => v,
        Err(e) => {
            return Err(e);
        },
    };
    attr_map.insert(key, value);
    Ok(())
}

/// Reads one binding unless the next character is `>`, which is left in place.
pub fn parse_attr_sub(s: &mut Cursor, attr_map: &mut AttrMap) -> (r: Result<(), ParseError>)
    ensures
        settled(r, final(attr_map)@, final(s)@) == attr_step(old(s)@, old(attr_map)@),
        r is Err ==> final(attr_map)@ == old(attr_map)@,
        final(s)@.len() <= old(s)@.len(),
        r is Ok && old(s)@.len() > 0 && old(s)@[0] != '>' ==> final(s)@.len() < old(s)@.len(),
{
    match s.peek() {
        Some(c) => {
            if c == '>' {
                Ok(())
            } else {
                parse_attr_body(s, attr_map)
            }
        },
        None => Err(ParseError::UnexpectedEndOfInput),
    }
}

/// Reads the attributes of an opening tag, up to and including its `>`.
pub fn parse_attr(s: &mut Cursor) -> (r: Result<AttrMap, ParseError>)
    ensures
        outcome(r, final(s)@) == attr_list(old(s)@, Map::empty()),
        final(s)@.len() <= old(s)@.len(),
        r is Ok ==> final(s)@.len() < old(s)@.len(),
{
    let mut attr_map = AttrMap::new();
    loop
        invariant
            attr_list(s@, attr_map@) == attr_list(old(s)@, Map::empty()),
            s@.len() <= old(s)@.len(),
        decreases s@.len(),
    {
        match s.peek() {
            Some(c) => {
                if c == ' ' {
                    s.advance();
                } else if c == '>' {
                    s.advance();
                    return Ok(attr_map);
                } else {
                    match parse_attr_sub(s, &mut attr_map) {
                        Ok(()) => {},
                        Err(e) => {
                            return Err(e);
                        },
                    }
                }
            },
            None => {
                return Err(ParseError::UnexpectedEndOfInput);
            },
        }
    }
}

/// Reads an opening tag, from its `<` up to and including its `>`: the tag
/// name and the attributes.
pub fn parse_element_head(s: &mut Cursor) -> (r: Result<(String, AttrMap), ParseError>)
    ensures
        outcome(r, final(s)@) == element_head(old(s)@),
        final(s)@.len() <= old(s)@.len(),
{
    match s.advance() {
        Some(c) => {
            if c != '<' {
                return Err(ParseError::UnexpectedToken);
            }
        },
        None => {
            return Err(ParseError::UnexpectedEndOfInput);
        },
    }
    let tag = match parse_tag(s) {
        Ok(t) => t,
        Err(e) => {
            return Err(e);
        },
    };
    match parse_attr(s) {
        Ok(attrs) => Ok((tag, attrs)),
        Err(e) => Err(e),
    }
}

/// Reads a closing tag whose `<` has been consumed: `/`, a name that must be
/// `tag_name`, any spaces, then `>`.
pub fn parse_element_tail(s: &mut Cursor, tag_name: &String) -> (r: Result<(), ParseError>)
    ensures
        match r {
            Ok(_) => element_tail(old(s)@, tag_name@) == Ok::<Seq<char>, ParseErrorView>(final(s)@),
            Err(e) => element_tail(old(s)@, tag_name@) == Err::<Seq<char>, ParseErrorView>(e@),
        },
        final(s)@.len() <= old(s)@.len(),
{
    match s.advance() {
        Some(c) => {
            if c != '/' {
                return Err(ParseError::UnexpectedToken);
            }
        },
        None => {
            return Err(ParseError::UnexpectedEndOfInput);
        },
    }
    let tag = match parse_tag(s) {
        Ok(t) => t,
        Err(e) => {
            return Err(e);
        },
    };
    if tag != *tag_name {
        return Err(ParseError::TagMismatch(tag_name.clone(), tag));
    }
    loop
        invariant
            element_tail(old(s)@, tag_name@) == closing_rest(s@),
            s@.len() <= old(s)@.len(),
        decreases s@.len(),
    {
        match s.advance() {
            Some(c) => {
                if c == '>' {
                    return Ok(());
                } else if c != ' ' {
                    return Err(ParseError::UnexpectedToken);
                }
            },
            None => {
                return Err(ParseError::UnexpectedEndOfInput);
            },
        }
    }
}

/// Reads text up to the next `<`, which is left in place. Text that runs to
/// the end of the input gives no node.
pub fn parse_text(s: &mut Cursor) -> (r: Option<Node>)
    ensures
        (node_opt(r), final(s)@) == text(old(s)@),
        final(s)@.len() <= old(s)@.len(),
        old(s)@.len() > 0 && old(s)@[0] != '<' ==> final(s)@.len() < old(s)@.len(),
{
    let mut result = String::new();
    loop
        invariant
            shifted(result@, scan(s@, text_stops())) == scan(old(s)@, text_stops()),
            s@ == old(s)@ || s@.len() < old(s)@.len(),
        decreases s@.len(),
    {
        match s.peek() {
            Some(c) => {
                if c == '<' {
                    proof {
                        lemma_scan_stop(result@, s@, text_stops());
                        assert(nodes_view(Seq::<Node>::empty()) =~= Seq::<NodeView>::empty());
                    }
                    return Some(Node { node_type: NodeType::Text(Text { data: result }), children: Vec::new() });
                }
                proof {
                    lemma_scan_step(result@, s@, text_stops());
                }
                s.advance();
                result.push(c);
            },
            None => {
                return None;
            },
        }
    }
}

/// Reads an element whose opening `<` has been consumed: the rest of the
/// opening tag, the children, and the closing tag.
pub fn parse_element_rest(s: &mut Cursor) -> (r: Result<Node, ParseError>)
    ensures
        outcome(r, final(s)@) == element_rest(old(s)@),
        final(s)@.len() <= old(s)@.len(),
    decreases old(s)@.len(), 1int,
{
    let tag = match parse_tag(s) {
        Ok(t) => t,
        Err(e) => {
            return Err(e);
        },
    };
    let attributes = match parse_attr(s) {
        Ok(a) => a,
        Err(e) => {
            return Err(e);
        },
    };
    let children = match parse_nodes(s) {
        Ok(c) => c,
        Err(e) => {
            return Err(e);
        },
    };
    match parse_element_tail(s, &tag) {
        Ok(()) => {},
        Err(e) => {
            return Err(e);
        },
    }
    Ok(Node { node_type: NodeType::Element(Element { tag_name: tag, attributes }), children })
}

/// Reads the children of an element, up to and including the `<` of its
/// closing tag, or up to the end of the input.
///
/// The cursor looks one character ahead, and a `<` may open a child element
/// or the closing tag. So a `<` is consumed first: when `/` follows, it was
/// the closing tag's, and the children are complete; otherwise it was the
/// child element's.
pub fn parse_nodes(s: &mut Cursor) -> (r: Result<Vec<Node>, ParseError>)
    ensures
        match r {
            Ok(v) => children(old(s)@) == Ok::<(Seq<NodeView>, Seq<char>), ParseErrorView>((nodes_view(v@), final(s)@)),
            Err(e) => children(old(s)@) == Err::<(Seq<NodeView>, Seq<char>), ParseErrorView>(e@),
        },
        final(s)@.len() <= old(s)@.len(),
    decreases old(s)@.len(), 0int,
{
    let mut nodes: Vec<Node> = Vec::new();
    loop
        invariant
            children(old(s)@) == prepend_all(nodes_view(nodes@), children(s@)),
            s@.len() <= old(s)@.len(),
        decreases s@.len(),
    {
        match s.peek() {
            None => {
                proof {
                    lemma_prepend_none(nodes_view(nodes@), s@);
                }
                return Ok(nodes);
            },
            Some(c) => {
                if c == '<' {
                    s.advance();
                    if let Some('/') = s.peek() {
                        proof {
                            lemma_prepend_none(nodes_view(nodes@), s@);
                        }
                        return Ok(nodes);
                    }
                    match parse_element_rest(s) {
                        Ok(n) => {
                            proof {
                                lemma_prepend_step(nodes_view(nodes@), n@, children(s@));
                                lemma_nodes_view_push(nodes@, n);
                            }
                            nodes.push(n);
                        },
                        Err(e) => {
                            return Err(e);
                        },
                    }
                } else {
                    match parse_text(s) {
                        Some(n) => {
                            proof {
                                lemma_prepend_step(nodes_view(nodes@), n@, children(s@));
                                lemma_nodes_view_push(nodes@, n);
                            }
                            nodes.push(n);
                        },
                        None => {},
                    }
                }
            },
        }
    }
}

/// Reads an element, from its opening `<` to the end of its closing tag.
pub fn parse_element(s: &mut Cursor) -> (r: Result<Node, ParseError>)
    ensures
        outcome(r, final(s)@) == element(old(s)@),
        final(s)@.len() <= old(s)@.len(),
        old(s)@.len() > 0 ==> final(s)@.len() < old(s)@.len(),
{
    match s.advance() {
        Some(c) => {
            if c != '<' {
                return Err(ParseError::UnexpectedToken);
            }
        },
        None => {
            return Err(ParseError::UnexpectedEndOfInput);
        },
    }
    parse_element_rest(s)
}

/// Reads one node: an element when the next character is `<`, else text.
pub fn parse_node(s: &mut Cursor) -> (r: Result<Option<Node>, ParseError>)
    requires
        old(s)@.len() > 0,
    ensures
        match r {
            Ok(o) => node(old(s)@) == Ok::<(Option<NodeView>, Seq<char>), ParseErrorView>((node_opt(o), final(s)@)),
            Err(e) => node(old(s)@) == Err::<(Option<NodeView>, Seq<char>), ParseErrorView>(e@),
        },
        final(s)@.len() < old(s)@.len(),
{
    match s.peek() {
        Some(c) => {
            if c == '<' {
                match parse_element(s) {
                    Ok(n) => Ok(Some(n)),
                    Err(e) => Err(e),
                }
            } else {
                Ok(parse_text(s))
            }
        },
        None => Ok(None),
    }
}

/// `r` is what the document `s` parses to, and on success `rest` is the
/// input left after its node.
pub open spec fn parses_to(s: Seq<char>, r: Result<Node, ParseError>, rest: Seq<char>) -> bool {
    match r {
        Ok(n) => {
            &&& document(s) == Ok::<NodeView, ParseErrorView>(n@)
            &&& node(s) == Ok::<(Option<NodeView>, Seq<char>), ParseErrorView>((Some(n@), rest))
        },
        Err(e) => document(s) == Err::<NodeView, ParseErrorView>(e@),
    }
}

/// Parses a document: the one node at the start of the input.
pub fn parse(s: &mut Cursor) -> (r: Result<Node, ParseError>)
    ensures
        parses_to(old(s)@, r, final(s)@),
{
    if s.peek().is_none() {
        return Err(ParseError::UnexpectedEndOfInput);
    }
    match parse_node(s) {
        Ok(Some(n)) => Ok(n),
        Ok(None) => Err(ParseError::UnexpectedEndOfInput),
        Err(e) => Err(e),
    }
}

} // verus!
