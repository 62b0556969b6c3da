//! Properties of the parser as a whole, proved from the grammar.
use vstd::prelude::*;

use crate::grammar::{
    attr_list, attr_value, children, document, element_rest, element_tail, head_after_open, key_stops, scan, tag_stops, text_stops, unquoted,
};
use crate::parser::parses_to;
use crate::tree::{element_node, text_node, Node, NodeView, ParseError, ParseErrorView};

verus! {

proof fn lemma_scan_run(w: Seq<char>, r: Seq<char>, stops: Set<char>)
    requires
        forall|i: int| 0 <= i < w.len() ==> !stops.contains(#[trigger] w[i]),
        r.len() > 0,
        stops.contains(r[0]),
    ensures
        scan(w + r, stops) == Some((w, r)),
    decreases w.len(),
{
    if w.len() == 0 {
        assert(w + r =~= r);
    } else {
        assert((w + r).drop_first() =~= w.drop_first() + r);
        lemma_scan_run(w.drop_first(), r, stops);
        assert(seq![w[0]] + w.drop_first() =~= w);
    }
}

proof fn lemma_unquoted_plain(v: Seq<char>)
    requires
        forall|i: int| 0 <= i < v.len() ==> #[trigger] v[i] != '"',
    ensures
        unquoted(v) == v,
    decreases v.len(),
{
    reveal(Seq::filter);
    if v.len() > 0 {
        lemma_unquoted_plain(v.drop_last());
        assert(v.drop_last().push(v.last()) =~= v);
    }
}

/// An attribute value is stored with every `"` left out, wherever it stood
/// in the raw run: the value holds no `"`, and it is the raw run without them.
pub proof fn quotes_are_elided(s: Seq<char>)
    ensures
        match attr_value(s) {
            Ok((v, _)) => match scan(s, tag_stops()) {
                Some((raw, _)) => {
                    &&& v == raw.filter(|c: char| c != '"')
                    &&& forall|i: int| 0 <= i < v.len() ==> v[i] != '"'
                },
                None => false,
            },
            Err(_) => scan(s, tag_stops()) is None,
        },
{
    if let Ok((v, _)) = attr_value(s) {
        let raw = scan(s, tag_stops()).unwrap().0;
        assert forall|i: int| 0 <= i < v.len() implies v[i] != '"' by {
            raw.lemma_filter_pred(|c: char| c != '"', i);
        }
    }
}

/// A minimal document `<tag attr="v">text</tag>` parses to one element named
/// `tag`, whose one attribute binds `attr` to `v` and whose one child is the
/// text `text`.
pub proof fn minimal_document_structure(
    tag: Seq<char>,
    attr: Seq<char>,
    v: Seq<char>,
    text: Seq<char>,
)
    requires
        tag.len() > 0,
        forall|i: int| 0 <= i < tag.len() ==> !tag_stops().contains(#[trigger] tag[i]),
        attr.len() > 0,
        forall|i: int| 0 <= i < attr.len() ==> !key_stops().contains(#[trigger] attr[i]),
        forall|i: int| 0 <= i < v.len() ==> !tag_stops().contains(#[trigger] v[i]) && v[i] != '"',
        text.len() > 0,
        forall|i: int| 0 <= i < text.len() ==> #[trigger] text[i] != '<',
    ensures
        document(
            seq!['<'] + tag + seq![' '] + attr + seq!['=', '"'] + v + seq!['"', '>'] + text + seq![
                '<',
                '/',
            ] + tag + seq!['>'],
        ) == Ok::<_, ParseErrorView>(
            element_node(
                tag,
                Map::<Seq<char>, Seq<char>>::empty().insert(attr, v),
                seq![text_node(text)],
            ),
        ),
{
    let input = seq!['<'] + tag + seq![' '] + attr + seq!['=', '"'] + v + seq!['"', '>'] + text
        + seq!['<', '/'] + tag + seq!['>'];
    let t = seq!['/'] + tag + seq!['>'];
    let close = seq!['<'] + t;
    let r5 = text + close;
    let r4 = seq!['>'] + r5;
    let raw = seq!['"'] + v + seq!['"'];
    let r3 = raw + r4;
    let r2 = attr + (seq!['='] + r3);
    let r1 = seq![' '] + r2;
    let s1 = tag + r1;
    assert(input =~= seq!['<'] + s1);
    assert(input.drop_first() =~= s1);

    // the opening tag
    lemma_scan_run(tag, r1, tag_stops());
    assert(s1[0] == tag[0]);
    assert(r1.drop_first() =~= r2);
    assert(r2[0] == attr[0]);
    assert(!key_stops().contains(attr[0]));
    lemma_scan_run(attr, seq!['='] + r3, key_stops());
    assert((seq!['='] + r3).drop_first() =~= r3);
    assert forall|i: int| 0 <= i < raw.len() implies !tag_stops().contains(#[trigger] raw[i]) by {
        if 1 <= i < raw.len() - 1 {
            assert(raw[i] == v[i - 1]);
        }
    }
    lemma_scan_run(raw, r4, tag_stops());
    lemma_unquoted_plain(v);
    reveal(Seq::filter);
    assert(seq!['"'].drop_last() =~= Seq::<char>::empty());
    assert(unquoted(Seq::<char>::empty()) =~= Seq::<char>::empty());
    assert(unquoted(seq!['"']) =~= Seq::<char>::empty());
    Seq::filter_distributes_over_add(seq!['"'] + v, seq!['"'], |c: char| c != '"');
    Seq::filter_distributes_over_add(seq!['"'], v, |c: char| c != '"');
    assert(unquoted(raw) =~= v);
    assert(crate::grammar::attr_value(r3) == Ok::<_, ParseErrorView>((v, r4)));
    assert(crate::grammar::attr_pair(r2) == Ok::<_, ParseErrorView>(((attr, v), r4)));
    assert(r4.drop_first() =~= r5);

    // the text child, then the closing tag
    assert(r5[0] == text[0]);
    lemma_scan_run(text, close, text_stops());
    assert(close.drop_first() =~= t);
    assert(t.drop_first() =~= tag + seq!['>']);
    lemma_scan_run(tag, seq!['>'], tag_stops());
    assert(seq!['>'].drop_first() =~= Seq::<char>::empty());
    assert(seq![text_node(text)] + Seq::empty() =~= seq![text_node(text)]);
    let m = Map::<Seq<char>, Seq<char>>::empty().insert(attr, v);
    assert(attr_list(r4, m) == Ok::<_, ParseErrorView>((m, r5)));
    assert(attr_list(r2, Map::empty()) == Ok::<_, ParseErrorView>((m, r5)));
    assert(attr_list(r1, Map::empty()) == Ok::<_, ParseErrorView>((m, r5)));
    assert(head_after_open(s1) == Ok::<_, ParseErrorView>(((tag, m), r5)));
    assert(children(close) == Ok::<_, ParseErrorView>((Seq::<NodeView>::empty(), t)));
    assert(crate::grammar::text(r5) == (Some(text_node(text)), close));
    assert(children(r5) == Ok::<_, ParseErrorView>((seq![text_node(text)], t)));
    assert(element_tail(t, tag) == Ok::<_, ParseErrorView>(Seq::<char>::empty()));
    assert(element_rest(s1) == Ok::<_, ParseErrorView>((element_node(tag, m, seq![text_node(text)]), Seq::<char>::empty())));
}

/// Parsing is deterministic: any two results that `parse` may give for the
/// same input are structurally equal trees that leave the same input unread,
/// or equal errors.
pub proof fn parsing_is_deterministic(
    s: Seq<char>,
    r1: Result<Node, ParseError>,
    rest1: Seq<char>,
    r2: Result<Node, ParseError>,
    rest2: Seq<char>,
)
    requires
        parses_to(s, r1, rest1),
        parses_to(s, r2, rest2),
    ensures
        match (r1, r2) {
            (Ok(a), Ok(b)) => a@ == b@ && rest1 == rest2,
            (Err(a), Err(b)) => a@ == b@,
            _ => false,
        },
{
}

} // verus!
