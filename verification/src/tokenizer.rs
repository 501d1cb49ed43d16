//! Text normalisation for full-text search: lower-casing, splitting into
//! index tokens, and pulling the plain text out of a rich-text note.
use vstd::prelude::*;
use crate::pattern::{regex_replace_all, regex_split, replace_all, split};
use crate::text::{
    chars_of, join_with, lowercase, non_empty, push_char,
    to_lower, trimmed, trimmed_range,
};

verus! {

/// Runs of characters that separate index tokens.
pub const TOKEN_SEPARATORS: &'static str = "[^a-z0-9._-]+";

/// Runs of whitespace.
pub const SPACE_RUNS: &'static str = "\\s+";

/// The pieces of the lower-cased text between separator runs; the whole
/// lower-cased text where the separator pattern does not compile.
pub open spec fn separated_pieces(text: Seq<char>) -> Seq<Seq<char>> {
    match regex_split(TOKEN_SEPARATORS@, lowercase(text)) {
        Some(pieces) => pieces,
        None => seq![lowercase(text)],
    }
}

/// What `hybrid_tokenize` returns: the non-empty pieces of the lower-cased
/// text, joined by single spaces.
pub open spec fn hybrid_tokens(text: Seq<char>) -> Seq<char> {
    if text.len() == 0 {
        Seq::empty()
    } else {
        join_with(non_empty(separated_pieces(text)), seq![' '])
    }
}

/// Lower-cases `text` for case-insensitive matching.
pub fn normalize_for_search(text: &str) -> (r: String)
    ensures
        r@ == lowercase(text@),
{
    to_lower(text)
}

/// Joins the non-empty pieces with single spaces.
pub fn join_words(pieces: &Vec<String>) -> (r: String)
    ensures
        r@ == join_with(non_empty(pieces.deep_view()), seq![' ']),
{
    let ghost all = pieces.deep_view();
    let mut out = String::new();
    let mut count: usize = 0;
    let mut i: usize = 0;
    while i < pieces.len()
        invariant
            0 <= i <= pieces.len(),
            all == pieces.deep_view(),
            count == non_empty(all.take(i as int)).len(),
            out@ == join_with(non_empty(all.take(i as int)), seq![' ']),
            count <= i,
        decreases pieces.len() - i,
    {
        let ghost before = non_empty(all.take(i as int));
        assert(all.take(i + 1).drop_last() == all.take(i as int));
        assert(all.take(i + 1).last() == all[i as int]);
        let piece = chars_of(pieces[i].as_str());
        assert(piece@ == all[i as int]);
        if piece.len() > 0 {
            if count > 0 {
                push_char(&mut out, ' ');
            }
            let mut j: usize = 0;
            let ghost start = out@;
            while j < piece.len()
                invariant
                    0 <= j <= piece.len(),
                    out@ == start + piece@.take(j as int),
                decreases piece.len() - j,
            {
                push_char(&mut out, piece[j]);
                assert(piece@.take(j + 1) == piece@.take(j as int).push(piece@[j as int]));
                j += 1;
            }
            assert(piece@.take(piece.len() as int) == piece@);
            let ghost after = before.push(piece@);
            assert(after.drop_last() == before);
            if count == 0 {
                assert(start == Seq::<char>::empty());
                assert(out@ == piece@);
            }
            count += 1;
        }
        i += 1;
    }
    assert(all.take(pieces.len() as int) == all);
    out
}

/// Lower-cases `text` and splits it into index tokens: maximal runs of
/// `a-z`, `0-9`, `.`, `_` and `-`, joined by single spaces.
pub fn hybrid_tokenize(text: &str) -> (r: String)
    ensures
        r@ == hybrid_tokens(text@),
{
    if text.is_empty() {
        return String::new();
    }
    let normalized = normalize_for_search(text);
    let pieces = match split(TOKEN_SEPARATORS, normalized.as_str()) {
        Some(pieces) => pieces,
        None => {
            let whole = normalized.clone();
            let v = vec![whole];
            assert(v.deep_view() =~= seq![normalized@]);
            v
        },
    };
    join_words(&pieces)
}

/// A node of a rich-text note document, holding what text extraction reads
/// of it. A node that is not a JSON object has none of the three members.
#[derive(Debug)]
pub struct NoteNode {
    /// Whether the node is a JSON object.
    pub is_object: bool,
    /// Its `text` member, where that is a string.
    pub text: Option<String>,
    /// Its `type` member, where that is a string.
    pub node_type: Option<String>,
    /// Its `content` member, where that is an array.
    pub content: Option<Vec<NoteNode>>,
}

/// Whether a node of this type ends a block of text.
pub open spec fn is_block_type(t: Seq<char>) -> bool {
    t == "paragraph"@ || t == "heading"@ || t == "list_item"@
}

/// The text of a note node and its descendants in document order, with a
/// space after each block.
pub open spec fn note_text(n: NoteNode) -> Seq<char>
    decreases n, 0nat,
{
    let own = match n.text {
        Some(t) => t@,
        None => Seq::empty(),
    };
    match n.content {
        Some(children) => {
            let sep = match n.node_type {
                Some(t) => if is_block_type(t@) { seq![' '] } else { Seq::empty() },
                None => Seq::empty(),
            };
            own + children_text(children@, children@.len() as nat) + sep
        },
        None => own,
    }
}

/// The text of the first `k` nodes of `nodes`.
pub open spec fn children_text(nodes: Seq<NoteNode>, k: nat) -> Seq<char>
    decreases nodes, k,
{
    if k == 0 || k > nodes.len() {
        Seq::empty()
    } else {
        children_text(nodes, (k - 1) as nat) + note_text(nodes[k - 1])
    }
}

/// `s` with every run of whitespace replaced by one space; `s` itself where
/// the pattern does not compile.
pub open spec fn collapse_spaces(s: Seq<char>) -> Seq<char> {
    match regex_replace_all(SPACE_RUNS@, s, " "@) {
        Some(r) => r,
        None => s,
    }
}

/// What `extract_note_text` returns.
pub open spec fn note_plain_text(n: NoteNode) -> Seq<char> {
    if !n.is_object || n.content is None {
        Seq::empty()
    } else {
        trimmed(collapse_spaces(note_text(n)))
    }
}

fn append_string(out: &mut String, s: &String)
    ensures
        final(out)@ == old(out)@ + s@,
{
    let v = chars_of(s.as_str());
    let mut j: usize = 0;
    let ghost start = out@;
    while j < v.len()
        invariant
            0 <= j <= v.len(),
            out@ == start + v@.take(j as int),
        decreases v.len() - j,
    {
        push_char(out, v[j]);
        assert(v@.take(j + 1) == v@.take(j as int).push(v@[j as int]));
        j += 1;
    }
    assert(v@.take(v.len() as int) == v@);
}

fn block_type(t: &String) -> (b: bool)
    ensures
        b == is_block_type(t@),
{
    crate::text::same_text(t.as_str(), "paragraph") || crate::text::same_text(t.as_str(), "heading")
        || crate::text::same_text(t.as_str(), "list_item")
}

/// Appends the text of `node` and its descendants to `out`.
fn traverse_note(node: &NoteNode, out: &mut String)
    ensures
        final(out)@ == old(out)@ + note_text(*node),
    decreases node,
{
    if let Some(t) = &node.text {
        append_string(out, t);
    }
    if let Some(children) = &node.content {
        let ghost before = out@;
        let mut i: usize = 0;
        while i < children.len()
            invariant
                0 <= i <= children.len(),
                node.content == Some(*children),
                out@ == before + children_text(children@, i as nat),
            decreases children.len() - i,
        {
            proof {
                let ghost c = node.content;
                assert(decreases_to!(*node => c));
                assert(decreases_to!(c => c->0));
                assert(decreases_to!(*children => children@));
                assert(decreases_to!(children@ => children@[i as int]));
                assert(decreases_to!(*node => children@[i as int]));
            }
            traverse_note(&children[i], out);
            i += 1;
        }
        if let Some(t) = &node.node_type {
            if block_type(t) {
                push_char(out, ' ');
            }
        }
    }
}

/// The plain text of a rich-text note: the text of all its nodes in document
/// order, with a space after each paragraph, heading and list item, runs of
/// whitespace collapsed to one space and the ends trimmed. A note that is not
/// an object, or has no `content` array, has no text.
pub fn extract_note_text(note: &NoteNode) -> (r: String)
    ensures
        r@ == note_plain_text(*note),
{
    if !note.is_object || note.content.is_none() {
        return String::new();
    }
    let mut joined = String::new();
    traverse_note(note, &mut joined);
    let collapsed = match replace_all(SPACE_RUNS, joined.as_str(), " ") {
        Some(s) => s,
        None => joined,
    };
    let v = chars_of(collapsed.as_str());
    let r = trimmed_range(&v, 0, v.len());
    assert(v@.subrange(0, v.len() as int) == v@);
    r
}

} // verus!
