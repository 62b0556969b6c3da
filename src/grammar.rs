//! The accepted language, stated over the input that remains to be read.
//! Each function gives what one parsing step produces together with the
//! input left after it, or the error that ends the parse.
use vstd::prelude::*;

use crate::tree::{element_node, text_node, NodeView, ParseErrorView};

verus! {

/// A value read from the front of the input, and what is left after it.
pub type Parsed<T> = Result<(T, Seq<char>), ParseErrorView>;

/// The characters that end a tag name or an attribute value.
pub open spec fn tag_stops() -> Set<char> {
    set![' ', '>']
}

/// The characters that end an attribute key.
pub open spec fn key_stops() -> Set<char> {
    set![' ', '>', '=']
}

/// The character that ends a run of text.
pub open spec fn text_stops() -> Set<char> {
    set!['<']
}

/// Splits `s` before its first character in `stops`: the run in front and the
/// rest, which starts with that character. `None` when no such character occurs.
pub open spec fn scan(s: Seq<char>, stops: Set<char>) -> Option<(Seq<char>, Seq<char>)>
    decreases s.len(),
{
    if s.len() == 0 {
        None
    } else if stops.contains(s[0]) {
        Some((Seq::empty(), s))
    } else {
        match scan(s.drop_first(), stops) {
            Some((w, r)) => Some((seq![s[0]] + w, r)),
            None => None,
        }
    }
}

/// An attribute value as stored: every `"` left out, wherever it stood.
pub open spec fn unquoted(v: Seq<char>) -> Seq<char> {
    v.filter(|c: char| c != '"')
}

/// A run that ends at a space or `>`.
pub open spec fn tag_word(s: Seq<char>) -> Parsed<Seq<char>> {
    match scan(s, tag_stops()) {
        Some(p) => Ok(p),
        None => Err(ParseErrorView::UnexpectedEndOfInput),
    }
}

/// A tag name: a word that is not empty, so it may not begin with a space or `>`.
pub open spec fn tag_name(s: Seq<char>) -> Parsed<Seq<char>> {
    if s.len() > 0 && tag_stops().contains(s[0]) {
        Err(ParseErrorView::UnexpectedToken)
    } else {
        tag_word(s)
    }
}

/// An attribute key: a run that ends at a space, `>` or `=`, and is not empty.
pub open spec fn attr_key(s: Seq<char>) -> Parsed<Seq<char>> {
    if s.len() > 0 && key_stops().contains(s[0]) {
        Err(ParseErrorView::MalformedAttribute)
    } else {
        match scan(s, key_stops()) {
            Some(p) => Ok(p),
            None => Err(ParseErrorView::UnexpectedEndOfInput),
        }
    }
}

/// An attribute value: a run that ends at a space or `>`, without its quotes.
pub open spec fn attr_value(s: Seq<char>) -> Parsed<Seq<char>> {
    match scan(s, tag_stops()) {
        Some((v, r)) => Ok((unquoted(v), r)),
        None => Err(ParseErrorView::UnexpectedEndOfInput),
    }
}

/// One binding `key=value`.
pub open spec fn attr_pair(s: Seq<char>) -> Parsed<(Seq<char>, Seq<char>)> {
    match attr_key(s) {
        Err(e) => Err(e),
        Ok((k, r)) => if r.len() > 0 && r[0] == '=' {
            match attr_value(r.drop_first()) {
                Err(e) => Err(e),
                Ok((v, r2)) => Ok(((k, v), r2)),
            }
        } else {
            Err(ParseErrorView::MalformedAttribute)
        },
    }
}

/// One binding, added to `m`.
pub open spec fn attr_bind(s: Seq<char>, m: Map<Seq<char>, Seq<char>>) -> Parsed<
    Map<Seq<char>, Seq<char>>,
> {
    match attr_pair(s) {
        Err(e) => Err(e),
        Ok(((k, v), r)) => Ok((m.insert(k, v), r)),
    }
}

/// One step of an attribute list: nothing in front of `>`, else one binding added to `m`.
pub open spec fn attr_step(s: Seq<char>, m: Map<Seq<char>, Seq<char>>) -> Parsed<
    Map<Seq<char>, Seq<char>>,
> {
    if s.len() == 0 {
        Err(ParseErrorView::UnexpectedEndOfInput)
    } else if s[0] == '>' {
        Ok((m, s))
    } else {
        attr_bind(s, m)
    }
}

/// The rest of an opening tag: spaces and bindings up to and including `>`,
/// the bindings added to `m` in order, a later one for a key replacing an earlier.
pub open spec fn attr_list(s: Seq<char>, m: Map<Seq<char>, Seq<char>>) -> Parsed<
    Map<Seq<char>, Seq<char>>,
>
    decreases s.len(),
{
    if s.len() == 0 {
        Err(ParseErrorView::UnexpectedEndOfInput)
    } else if s[0] == ' ' {
        attr_list(s.drop_first(), m)
    } else if s[0] == '>' {
        Ok((m, s.drop_first()))
    } else {
        match attr_pair(s) {
            Err(e) => Err(e),
            Ok(((k, v), r)) => if r.len() < s.len() {
                attr_list(r, m.insert(k, v))
            } else {
                Err(ParseErrorView::UnexpectedEndOfInput)
            },
        }
    }
}

/// An opening tag after its `<`: the tag name and the attributes.
pub open spec fn head_after_open(s: Seq<char>) -> Parsed<(Seq<char>, Map<Seq<char>, Seq<char>>)> {
    match tag_name(s) {
        Err(e) => Err(e),
        Ok((t, r)) => match attr_list(r, Map::empty()) {
            Err(e) => Err(e),
            Ok((m, r2)) => Ok(((t, m), r2)),
        },
    }
}

/// An opening tag, `<` included.
pub open spec fn element_head(s: Seq<char>) -> Parsed<(Seq<char>, Map<Seq<char>, Seq<char>>)> {
    if s.len() == 0 {
        Err(ParseErrorView::UnexpectedEndOfInput)
    } else if s[0] != '<' {
        Err(ParseErrorView::UnexpectedToken)
    } else {
        head_after_open(s.drop_first())
    }
}

/// The end of a closing tag after its name: spaces, then `>`.
pub open spec fn closing_rest(s: Seq<char>) -> Result<Seq<char>, ParseErrorView>
    decreases s.len(),
{
    if s.len() == 0 {
        Err(ParseErrorView::UnexpectedEndOfInput)
    } else if s[0] == ' ' {
        closing_rest(s.drop_first())
    } else if s[0] == '>' {
        Ok(s.drop_first())
    } else {
        Err(ParseErrorView::UnexpectedToken)
    }
}

/// A closing tag after its `<`, which must name `tag`.
pub open spec fn element_tail(s: Seq<char>, tag: Seq<char>) -> Result<Seq<char>, ParseErrorView> {
    if s.len() == 0 {
        Err(ParseErrorView::UnexpectedEndOfInput)
    } else if s[0] != '/' {
        Err(ParseErrorView::UnexpectedToken)
    } else {
        match tag_name(s.drop_first()) {
            Err(e) => Err(e),
            Ok((t, r)) => if t == tag {
                closing_rest(r)
            } else {
                Err(ParseErrorView::TagMismatch(tag, t))
            },
        }
    }
}

/// A run of text up to the next `<`; no node when no `<` follows.
pub open spec fn text(s: Seq<char>) -> (Option<NodeView>, Seq<char>) {
    match scan(s, text_stops()) {
        Some((w, r)) => (Some(text_node(w)), r),
        None => (None, Seq::empty()),
    }
}

/// `n` in front of the nodes that `rest` parsed.
pub open spec fn prepend(n: NodeView, rest: Parsed<Seq<NodeView>>) -> Parsed<Seq<NodeView>> {
    match rest {
        Ok((ns, r)) => Ok((seq![n] + ns, r)),
        Err(e) => Err(e),
    }
}

/// An element after its opening `<`: head, children and matching closing tag.
pub open spec fn element_rest(s: Seq<char>) -> Parsed<NodeView>
    decreases s.len(), 1int,
{
    match head_after_open(s) {
        Err(e) => Err(e),
        Ok(((t, m), r)) => if r.len() < s.len() {
            match children(r) {
                Err(e) => Err(e),
                Ok((kids, r2)) => match element_tail(r2, t) {
                    Err(e) => Err(e),
                    Ok(r3) => Ok((element_node(t, m, kids), r3)),
                },
            }
        } else {
            Err(ParseErrorView::UnexpectedEndOfInput)
        },
    }
}

/// The children of an element: nodes up to the `<` of a closing tag, which is
/// consumed, or up to the end of the input. A `<` that is not followed by `/`
/// opens a child element.
pub open spec fn children(s: Seq<char>) -> Parsed<Seq<NodeView>>
    decreases s.len(), 0int,
{
    if s.len() == 0 {
        Ok((Seq::empty(), s))
    } else if s[0] == '<' {
        let t = s.drop_first();
        if t.len() > 0 && t[0] == '/' {
            Ok((Seq::empty(), t))
        } else {
            match element_rest(t) {
                Err(e) => Err(e),
                Ok((n, r)) => if r.len() < s.len() {
                    prepend(n, children(r))
                } else {
                    Err(ParseErrorView::UnexpectedEndOfInput)
                },
            }
        }
    } else {
        let (o, r) = text(s);
        if r.len() < s.len() {
            match o {
                Some(n) => prepend(n, children(r)),
                None => children(r),
            }
        } else {
            Err(ParseErrorView::UnexpectedEndOfInput)
        }
    }
}

/// An element, `<` included.
pub open spec fn element(s: Seq<char>) -> Parsed<NodeView> {
    if s.len() == 0 {
        Err(ParseErrorView::UnexpectedEndOfInput)
    } else if s[0] != '<' {
        Err(ParseErrorView::UnexpectedToken)
    } else {
        element_rest(s.drop_first())
    }
}

/// One node: an element when the input starts with `<`, else a run of text.
pub open spec fn node(s: Seq<char>) -> Parsed<Option<NodeView>> {
    if s.len() > 0 && s[0] == '<' {
        match element_rest(s.drop_first()) {
            Ok((n, r)) => Ok((Some(n), r)),
            Err(e) => Err(e),
        }
    } else {
        Ok(text(s))
    }
}

/// A document: the one node at the start of the input. Text that no tag
/// follows gives no node, and the document is then incomplete.
pub open spec fn document(s: Seq<char>) -> Result<NodeView, ParseErrorView> {
    match node(s) {
        Ok((Some(n), _)) => Ok(n),
        Ok((None, _)) => Err(ParseErrorView::UnexpectedEndOfInput),
        Err(e) => Err(e),
    }
}

} // verus!
