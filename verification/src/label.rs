//! Display labels for preset names: `fast-1080p` is shown as `Fast 1080p`.
//!
//! A name is cut at its hyphens, each piece that is not empty has its first
//! character put in upper case, and these pieces are joined by single spaces.

use vstd::prelude::*;
use vstd::string::StringExecFns;
use crate::text::{uppercase, uppercase_of};

verus! {

/// The character that separates the tokens of a preset name.
pub const HYPHEN: char = '-';

/// The character that separates the tokens of a label.
pub const SPACE: char = ' ';

/// The pieces of `s` that lie between the occurrences of `sep`, in order. There
/// is one piece more than there are separators; a piece may be empty.
pub open spec fn split(s: Seq<char>, sep: char) -> Seq<Seq<char>>
    decreases s.len(),
{
    if s.len() == 0 {
        seq![Seq::empty()]
    } else {
        let before = split(s.drop_last(), sep);
        if s.last() == sep {
            before.push(Seq::empty())
        } else {
            before.drop_last().push(before.last().push(s.last()))
        }
    }
}

/// A piece counts as a token when it is not empty.
pub open spec fn is_token(piece: Seq<char>) -> bool {
    piece.len() > 0
}

/// The pieces among `pieces` that are tokens, in order.
pub open spec fn only_tokens(pieces: Seq<Seq<char>>) -> Seq<Seq<char>> {
    pieces.filter(|piece: Seq<char>| is_token(piece))
}

/// The tokens of a preset name: its non-empty hyphen-separated pieces.
pub open spec fn tokens_of(name: Seq<char>) -> Seq<Seq<char>> {
    only_tokens(split(name, HYPHEN))
}

/// A token with its first character replaced by that character's uppercase
/// mapping; the rest is kept as it is.
pub open spec fn capitalized(token: Seq<char>) -> Seq<char> {
    if token.len() == 0 {
        token
    } else {
        uppercase_of(token.first()) + token.drop_first()
    }
}

/// Each of `parts` capitalized.
pub open spec fn all_capitalized(parts: Seq<Seq<char>>) -> Seq<Seq<char>> {
    parts.map_values(|token: Seq<char>| capitalized(token))
}

/// `parts` written one after the other with one `sep` between neighbours.
pub open spec fn joined(parts: Seq<Seq<char>>, sep: char) -> Seq<char>
    decreases parts.len(),
{
    if parts.len() == 0 {
        Seq::empty()
    } else if parts.len() == 1 {
        parts.last()
    } else {
        joined(parts.drop_last(), sep).push(sep) + parts.last()
    }
}

/// The label of a preset name: its tokens, each capitalized, joined by single
/// spaces.
pub open spec fn label_of(name: Seq<char>) -> Seq<char> {
    joined(all_capitalized(tokens_of(name)), SPACE)
}

/// What each of `list` holds.
pub open spec fn texts(list: Seq<String>) -> Seq<Seq<char>> {
    list.map_values(|text: String| text@)
}

/// Whether `sep` does not occur in `piece`.
pub open spec fn lacks(piece: Seq<char>, sep: char) -> bool {
    forall|j: int| 0 <= j < piece.len() ==> piece[j] != sep
}

/// Whether `sep` occurs in none of `pieces`.
pub open spec fn all_lack(pieces: Seq<Seq<char>>, sep: char) -> bool {
    forall|i: int| 0 <= i < pieces.len() ==> lacks(#[trigger] pieces[i], sep)
}

/// Whether each of `parts` is a token.
pub open spec fn all_tokens(parts: Seq<Seq<char>>) -> bool {
    forall|i: int| 0 <= i < parts.len() ==> is_token(#[trigger] parts[i])
}

/// One more character either starts a new piece or lengthens the last one.
proof fn lemma_split_push(s: Seq<char>, c: char, sep: char)
    ensures
        split(s, sep).len() >= 1,
        split(s.push(c), sep) == if c == sep {
            split(s, sep).push(Seq::empty())
        } else {
            split(s, sep).drop_last().push(split(s, sep).last().push(c))
        },
{
    assert(s.push(c).drop_last() =~= s);
}

/// One more part goes behind a separator, unless it is the first.
proof fn lemma_joined_push(parts: Seq<Seq<char>>, part: Seq<char>, sep: char)
    ensures
        joined(parts.push(part), sep) == if parts.len() == 0 {
            part
        } else {
            joined(parts, sep).push(sep) + part
        },
{
    assert(parts.push(part).drop_last() =~= parts);
}

/// Cutting a text at a separator leaves at least one piece, and the separator
/// occurs in none of the pieces.
pub proof fn lemma_split_pieces(s: Seq<char>, sep: char)
    ensures
        split(s, sep).len() >= 1,
        all_lack(split(s, sep), sep),
    decreases s.len(),
{
    if s.len() > 0 {
        lemma_split_pieces(s.drop_last(), sep);
    }
}

/// Joining the pieces of a text by the separator it was cut at gives the text
/// back.
pub proof fn lemma_joined_split(s: Seq<char>, sep: char)
    ensures
        joined(split(s, sep), sep) == s,
    decreases s.len(),
{
    if s.len() > 0 {
        let t = s.drop_last();
        let c = s.last();
        let pieces = split(t, sep);
        lemma_joined_split(t, sep);
        if c == sep {
            lemma_joined_push(pieces, Seq::empty(), sep);
        } else {
            let closed = pieces.drop_last();
            let open = pieces.last();
            lemma_joined_push(closed, open.push(c), sep);
            assert(joined(closed.push(open.push(c)), sep) =~= joined(pieces, sep).push(c));
        }
    }
}

/// Text without a separator, added at the end, lengthens the last piece.
proof fn lemma_split_append(s: Seq<char>, tail: Seq<char>, sep: char)
    requires
        lacks(tail, sep),
    ensures
        split(s + tail, sep) == split(s, sep).drop_last().push(split(s, sep).last() + tail),
    decreases tail.len(),
{
    let pieces = split(s, sep);
    if tail.len() > 0 {
        let t = tail.drop_last();
        let c = tail.last();
        lemma_split_append(s, t, sep);
        lemma_split_push(s + t, c, sep);
        assert(s + tail =~= (s + t).push(c));
        assert((pieces.last() + t).push(c) =~= pieces.last() + tail);
    }
}

/// Cutting a joined text at the separator gives the pieces back, where there is
/// at least one piece and the separator occurs in none.
pub proof fn lemma_split_joined(pieces: Seq<Seq<char>>, sep: char)
    requires
        pieces.len() >= 1,
        all_lack(pieces, sep),
    ensures
        split(joined(pieces, sep), sep) == pieces,
    decreases pieces.len(),
{
    let last = pieces.last();
    if pieces.len() == 1 {
        lemma_split_append(Seq::empty(), last, sep);
    } else {
        let init = pieces.drop_last();
        let head = joined(init, sep);
        lemma_split_joined(init, sep);
        lemma_split_push(head, sep, sep);
        lemma_split_append(head.push(sep), last, sep);
    }
}

/// A further piece is kept if and only if it is a token.
proof fn lemma_only_tokens_push(pieces: Seq<Seq<char>>, piece: Seq<char>)
    ensures
        only_tokens(pieces.push(piece)) == if is_token(piece) {
            only_tokens(pieces).push(piece)
        } else {
            only_tokens(pieces)
        },
{
    pieces.lemma_filter_push(piece, |piece: Seq<char>| is_token(piece));
}

/// Where every piece is a token, all of them are kept.
proof fn lemma_only_tokens_all(parts: Seq<Seq<char>>)
    requires
        all_tokens(parts),
    ensures
        only_tokens(parts) == parts,
    decreases parts.len(),
{
    if parts.len() > 0 {
        lemma_only_tokens_all(parts.drop_last());
        lemma_only_tokens_push(parts.drop_last(), parts.last());
        assert(parts.drop_last().push(parts.last()) =~= parts);
    }
}

/// Every token of a name is non-empty and free of hyphens.
pub proof fn lemma_tokens_clean(name: Seq<char>)
    ensures
        all_tokens(tokens_of(name)),
        all_lack(tokens_of(name), HYPHEN),
{
    let keep = |piece: Seq<char>| is_token(piece);
    let pieces = split(name, HYPHEN);
    lemma_split_pieces(name, HYPHEN);
    assert forall|i: int| 0 <= i < tokens_of(name).len() implies lacks(
        #[trigger] tokens_of(name)[i],
        HYPHEN,
    ) && is_token(tokens_of(name)[i]) by {
        let token = tokens_of(name)[i];
        pieces.lemma_filter_contains_rev(keep, token);
    }
}

/// A name made of tokens with single hyphens between them has exactly these
/// tokens, and its label is the tokens, each capitalized, with single spaces
/// between them.
pub proof fn lemma_label_of_tokens(parts: Seq<Seq<char>>)
    requires
        all_tokens(parts),
        all_lack(parts, HYPHEN),
    ensures
        tokens_of(joined(parts, HYPHEN)) == parts,
        label_of(joined(parts, HYPHEN)) == joined(all_capitalized(parts), SPACE),
{
    if parts.len() == 0 {
        lemma_only_tokens_push(Seq::empty(), Seq::empty());
    } else {
        lemma_split_joined(parts, HYPHEN);
        lemma_only_tokens_all(parts);
    }
}

/// The tokens of a preset name: the pieces between its hyphens, without the
/// empty ones, in order.
pub fn tokens(name: &str) -> (list: Vec<String>)
    ensures
        texts(list@) == tokens_of(name@),
{
    let mut list: Vec<String> = Vec::new();
    let mut current = String::new();
    let ghost mut seen: Seq<char> = Seq::empty();
    for c in it: name.chars()
        invariant
            it.seq() == name@,
            seen == name@.take(it.index()),
            split(seen, HYPHEN).len() >= 1,
            texts(list@) == only_tokens(split(seen, HYPHEN).drop_last()),
            current@ == split(seen, HYPHEN).last(),
    {
        let ghost pieces = split(seen, HYPHEN);
        proof {
            lemma_split_push(seen, c, HYPHEN);
            seen = seen.push(c);
        }
        if c == HYPHEN {
            proof {
                lemma_only_tokens_push(pieces.drop_last(), pieces.last());
                assert(pieces.drop_last().push(pieces.last()) =~= pieces);
                assert(pieces.push(Seq::empty()).drop_last() =~= pieces);
            }
            if !current.as_str().is_empty() {
                list.push(current);
            }
            current = String::new();
        } else {
            current.push(c);
            assert(pieces.drop_last().push(pieces.last().push(c)).drop_last()
                =~= pieces.drop_last());
        }
    }
    let ghost pieces = split(seen, HYPHEN);
    proof {
        assert(seen =~= name@);
        lemma_only_tokens_push(pieces.drop_last(), pieces.last());
        assert(pieces.drop_last().push(pieces.last()) =~= pieces);
    }
    if !current.as_str().is_empty() {
        list.push(current);
    }
    list
}

/// `token` with its first character replaced by that character's uppercase
/// mapping, which may be more than one character. An empty token stays empty.
pub fn capitalize(token: &str) -> (text: String)
    ensures
        text@ == capitalized(token@),
{
    let mut text = String::new();
    let mut first = true;
    let ghost mut seen: Seq<char> = Seq::empty();
    for c in it: token.chars()
        invariant
            it.seq() == token@,
            seen == token@.take(it.index()),
            first == (seen.len() == 0),
            text@ == capitalized(seen),
    {
        if first {
            let upper = uppercase(c);
            text.append(upper.as_str());
            first = false;
        } else {
            text.push(c);
        }
        proof {
            seen = seen.push(c);
        }
    }
    text
}

/// `parts` one after the other, with one `sep` between neighbours.
pub fn join(parts: &Vec<String>, sep: char) -> (text: String)
    ensures
        text@ == joined(texts(parts@), sep),
{
    let mut text = String::new();
    let mut i: usize = 0;
    while i < parts.len()
        invariant
            i <= parts.len(),
            texts(parts@).len() == parts.len(),
            text@ == joined(texts(parts@).take(i as int), sep),
        decreases parts.len() - i,
    {
        proof {
            lemma_joined_push(texts(parts@).take(i as int), parts[i as int]@, sep);
            assert(texts(parts@).take(i + 1) =~= texts(parts@).take(i as int).push(
                parts[i as int]@,
            ));
        }
        if i > 0 {
            text.push(sep);
        }
        text.append(parts[i].as_str());
        i += 1;
    }
    assert(texts(parts@).take(i as int) =~= texts(parts@));
    text
}

/// The display label of a preset name.
///
/// The name is cut at its hyphens. Each piece that is not empty has its first
/// character replaced by that character's uppercase mapping, and these pieces
/// are joined by single spaces. Empty pieces, as between two neighbouring
/// hyphens, leave no trace.
pub fn format_label(name: &str) -> (label: String)
    ensures
        label@ == label_of(name@),
{
    let parts = tokens(name);
    let mut capitals: Vec<String> = Vec::new();
    let mut i: usize = 0;
    while i < parts.len()
        invariant
            i <= parts.len(),
            texts(parts@).len() == parts.len(),
            capitals.len() == i,
            texts(capitals@) == all_capitalized(texts(parts@).take(i as int)),
        decreases parts.len() - i,
    {
        let ghost before = capitals@;
        capitals.push(capitalize(parts[i].as_str()));
        proof {
            let longer = texts(parts@).take(i + 1);
            assert forall|k: int| 0 <= k < i + 1 implies texts(capitals@)[k] == all_capitalized(
                longer,
            )[k] by {
                if k < i {
                    assert(texts(before)[k] == all_capitalized(texts(parts@).take(i as int))[k]);
                }
            }
        }
        i += 1;
    }
    assert(texts(parts@).take(i as int) =~= texts(parts@));
    join(&capitals, SPACE)
}

} // verus!
