//! A stream of token trees laid out flat, for a parser that walks it with a
//! cursor.
//!
//! Each token tree takes a slot. A group is followed by the slots of its
//! stream and a slot that ends it. To a cursor that looks for a name, a
//! punctuation mark, a literal or a bracketed group, an invisible group is
//! transparent: the cursor steps into it, and out of it at its end.

use crate::tokens::{Delimiter, Span, TokenTree};
use vstd::prelude::*;

verus! {

/// A slot of the buffer as a value of the logic.
pub enum Slot {
    /// A token tree, and for a group the number of slots that its stream
    /// takes.
    Tree { tree: TokenTree, inner: nat },
    /// The end of a group, or of the buffer.
    End,
}

/// The slots that a token tree takes.
pub open spec fn flat_tree(tree: TokenTree) -> Seq<Slot>
    decreases tree, 0nat,
{
    match tree {
        TokenTree::Group { stream, .. } => {
            let inner = flat_stream(stream@, stream.len() as nat);
            seq![Slot::Tree { tree, inner: inner.len() }] + inner + seq![Slot::End]
        },
        _ => seq![Slot::Tree { tree, inner: 0 }],
    }
}

/// The slots that the first `n` token trees of a stream take.
pub open spec fn flat_stream(stream: Seq<TokenTree>, n: nat) -> Seq<Slot>
    decreases stream, n,
{
    if n == 0 || n > stream.len() {
        Seq::empty()
    } else {
        flat_stream(stream, (n - 1) as nat) + flat_tree(stream[n - 1])
    }
}

/// The buffer of a stream: its slots and the end.
pub open spec fn buffer_of(stream: Seq<TokenTree>) -> Seq<Slot> {
    flat_stream(stream, stream.len()) + seq![Slot::End]
}

/// The slot at a place, the end beyond the buffer.
pub open spec fn slot_at(buffer: Seq<Slot>, at: int) -> Slot {
    if 0 <= at < buffer.len() {
        buffer[at]
    } else {
        Slot::End
    }
}

/// The place where a cursor comes to rest that is put at `at`: it steps
/// over the ends of groups, up to the end of its scope.
pub open spec fn settle(buffer: Seq<Slot>, at: int, scope: int) -> int
    decreases scope - at,
{
    if at >= scope {
        scope
    } else if slot_at(buffer, at) is End {
        settle(buffer, at + 1, scope)
    } else {
        at
    }
}

/// Whether a slot holds an invisible group.
pub open spec fn invisible(slot: Slot) -> bool {
    match slot {
        Slot::Tree { tree, .. } => tree is Group && tree->delimiter == Delimiter::Invisible,
        Slot::End => false,
    }
}

/// A cursor comes to rest between where it is put and the end of its scope.
pub proof fn lemma_settle_bounds(buffer: Seq<Slot>, at: int, scope: int)
    requires
        at <= scope,
    ensures
        at <= settle(buffer, at, scope) <= scope,
    decreases scope - at,
{
    if at < scope && slot_at(buffer, at) is End {
        lemma_settle_bounds(buffer, at + 1, scope);
    }
}

/// The place from which a cursor at `at` looks for a token: it steps into
/// the invisible groups before it.
pub open spec fn enter(buffer: Seq<Slot>, at: int, scope: int) -> int
    decreases scope - at,
{
    if at < scope && invisible(slot_at(buffer, at)) {
        let next = settle(buffer, at + 1, scope);
        if at < next <= scope {
            enter(buffer, next, scope)
        } else {
            at
        }
    } else {
        at
    }
}

/// A cursor looks from between where it is and the end of its scope.
pub proof fn lemma_enter_bounds(buffer: Seq<Slot>, at: int, scope: int)
    requires
        at <= scope,
    ensures
        at <= enter(buffer, at, scope) <= scope,
    decreases scope - at,
{
    if at < scope && invisible(slot_at(buffer, at)) {
        lemma_settle_bounds(buffer, at + 1, scope);
        lemma_enter_bounds(buffer, settle(buffer, at + 1, scope), scope);
    }
}

/// The end of the stream of the group at `at`, held within the scope.
pub open spec fn close_of(buffer: Seq<Slot>, at: int, scope: int) -> int {
    let inner = slot_at(buffer, at)->inner;
    if at + inner + 1 <= scope {
        at + inner + 1
    } else {
        scope
    }
}

/// The place behind the token tree at `at`.
pub open spec fn behind(buffer: Seq<Slot>, at: int, scope: int) -> int {
    match slot_at(buffer, at) {
        Slot::Tree { tree, inner } => if tree is Group {
            settle(buffer, close_of(buffer, at, scope), scope)
        } else {
            settle(buffer, at + 1, scope)
        },
        Slot::End => at,
    }
}

/// A slot of the buffer.
pub struct Entry<'a> {
    /// The token tree, or nothing at the end of a group.
    pub tree: Option<&'a TokenTree>,
    /// For a group the number of slots that its stream takes.
    pub inner: usize,
}

impl<'a> View for Entry<'a> {
    type V = Slot;

    open spec fn view(&self) -> Slot {
        match self.tree {
            Some(tree) => Slot::Tree { tree: *tree, inner: self.inner as nat },
            None => Slot::End,
        }
    }
}

/// The slots of a list of entries.
pub open spec fn slots(entries: Seq<Entry>) -> Seq<Slot> {
    Seq::new(entries.len(), |i: int| entries[i]@)
}

#[verifier::loop_isolation(false)]
fn fill<'a>(entries: &mut Vec<Entry<'a>>, stream: &'a Vec<TokenTree>)
    ensures
        slots(final(entries)@) == slots(old(entries)@) + flat_stream(stream@, stream.len() as nat),
    decreases stream,
{
    let mut i: usize = 0;
    while i < stream.len()
        invariant
            i <= stream.len(),
            slots(entries@) == slots(old(entries)@) + flat_stream(stream@, i as nat),
        decreases stream.len() - i,
    {
        let ghost before = slots(entries@);
        let tree = &stream[i];
        match tree {
            TokenTree::Group { stream: inner, .. } => {
                let start = entries.len();
                entries.push(Entry { tree: Some(tree), inner: 0 });
                let ghost opened = entries@;
                fill(entries, inner);
                let ghost filled = entries@;
                proof {
                    let content = flat_stream(inner@, inner.len() as nat);
                    assert(slots(filled).len() == slots(opened).len() + content.len());
                    assert(slots(filled).len() == filled.len());
                    assert(slots(opened).len() == opened.len());
                }
                let count = entries.len() - start - 1;
                entries[start] = Entry { tree: Some(tree), inner: count };
                entries.push(Entry { tree: None, inner: 0 });
                proof {
                    let content = flat_stream(inner@, inner.len() as nat);
                    assert(slots(filled) == slots(opened) + content);
                    assert(slots(filled).len() == slots(opened).len() + content.len());
                    assert(count == content.len());
                    assert(slots(entries@) =~= before + flat_tree(*tree)) by {
                        assert forall|k: int| 0 <= k < slots(entries@).len() implies slots(
                            entries@,
                        )[k] == (before + flat_tree(*tree))[k] by {
                            if k < start {
                                assert(slots(opened)[k] == before[k]);
                                assert(slots(filled)[k] == slots(opened)[k]);
                            } else if k == start {
                            } else if k < start + 1 + count {
                                assert(slots(filled)[k] == content[k - start - 1]);
                            } else {
                            }
                        }
                    }
                }
            },
            _ => {
                entries.push(Entry { tree: Some(tree), inner: 0 });
                assert(slots(entries@) =~= before + flat_tree(*tree));
            },
        }
        assert(flat_stream(stream@, (i + 1) as nat) == flat_stream(stream@, i as nat) + flat_tree(
            stream[i as int],
        ));
        i += 1;
    }
}

/// The buffer of a stream.
pub fn buffer<'a>(stream: &'a Vec<TokenTree>) -> (entries: Vec<Entry<'a>>)
    ensures
        slots(entries@) == buffer_of(stream@),
{
    let mut entries: Vec<Entry<'a>> = Vec::new();
    fill(&mut entries, stream);
    let ghost filled = slots(entries@);
    entries.push(Entry { tree: None, inner: 0 });
    assert(slots(entries@) =~= filled + seq![Slot::End]);
    assert(filled =~= flat_stream(stream@, stream.len() as nat));
    entries
}

/// The token tree at a place within the scope.
pub open spec fn tree_at(buffer: Seq<Slot>, at: int, scope: int) -> Option<TokenTree> {
    if at < scope {
        match slot_at(buffer, at) {
            Slot::Tree { tree, .. } => Some(tree),
            Slot::End => None,
        }
    } else {
        None
    }
}

/// The token that a cursor at `at` sees when it looks for a name, a
/// punctuation mark, a literal or a bracketed group, and where it stands.
pub open spec fn seen(buffer: Seq<Slot>, at: int, scope: int) -> Option<TokenTree> {
    tree_at(buffer, enter(buffer, at, scope), scope)
}

/// The place behind the token that a cursor at `at` sees, where that token
/// is no group.
pub open spec fn past_seen(buffer: Seq<Slot>, at: int, scope: int) -> int {
    settle(buffer, enter(buffer, at, scope) + 1, scope)
}

/// Whether a cursor sees the punctuation mark `ch`.
pub open spec fn sees_punct(buffer: Seq<Slot>, at: int, scope: int, ch: char) -> bool {
    match seen(buffer, at, scope) {
        Some(TokenTree::Punct { ch: found, .. }) => found == ch && found != '\'',
        _ => false,
    }
}

/// Whether a cursor sees a group in the given brackets.
pub open spec fn sees_group(buffer: Seq<Slot>, at: int, scope: int, delimiter: Delimiter) -> bool {
    match seen(buffer, at, scope) {
        Some(TokenTree::Group { delimiter: found, .. }) => found == delimiter,
        _ => false,
    }
}

/// Whether a slot holds a name.
pub open spec fn holds_ident(slot: Slot) -> bool {
    match slot {
        Slot::Tree { tree, .. } => tree is Ident,
        Slot::End => false,
    }
}

/// The place behind the token that a cursor sees, a lifetime counting as
/// one token. Nothing at the end of the scope.
pub open spec fn skipped(buffer: Seq<Slot>, at: int, scope: int) -> Option<int> {
    let from = enter(buffer, at, scope);
    match tree_at(buffer, from, scope) {
        Some(TokenTree::Group { .. }) => Some(settle(buffer, close_of(buffer, from, scope), scope)),
        Some(TokenTree::Punct { ch, joint, .. }) => if ch == '\'' && joint && holds_ident(
            slot_at(buffer, from + 1),
        ) && from + 2 <= scope {
            Some(settle(buffer, from + 2, scope))
        } else {
            Some(settle(buffer, from + 1, scope))
        },
        Some(_) => Some(settle(buffer, from + 1, scope)),
        None => None,
    }
}

/// The span that a complaint about the place `at` points to: that of the
/// token tree there, or at the end of the scope the span of the scope.
pub open spec fn span_at(buffer: Seq<Slot>, at: int, scope: int, scope_span: Span) -> Span {
    match tree_at(buffer, at, scope) {
        Some(tree) => span_of(tree),
        None => scope_span,
    }
}

/// The span of a token tree.
pub open spec fn span_of(tree: TokenTree) -> Span {
    match tree {
        TokenTree::Ident { span, .. } => span,
        TokenTree::Punct { span, .. } => span,
        TokenTree::Literal { span, .. } => span,
        TokenTree::Group { span, .. } => span,
    }
}

impl TokenTree {
    /// The span of the token tree.
    pub fn span(&self) -> (span: Span)
        ensures
            span == span_of(*self),
    {
        match self {
            TokenTree::Ident { span, .. } => *span,
            TokenTree::Punct { span, .. } => *span,
            TokenTree::Literal { span, .. } => *span,
            TokenTree::Group { span, .. } => *span,
        }
    }
}

/// A cursor into a buffer: a place, and the place where its scope ends.
#[derive(Clone, Copy, Debug, PartialEq, Eq, Structural)]
pub struct Cursor {
    pub at: usize,
    pub scope: usize,
}

impl Cursor {
    /// Whether the cursor lies within the buffer.
    pub open spec fn fits(self, entries: Seq<Entry>) -> bool {
        self.at <= self.scope <= entries.len()
    }

    /// The cursor at the first token tree of a stream's buffer.
    pub fn begin(entries: &Vec<Entry>) -> (cursor: Cursor)
        requires
            entries.len() > 0,
        ensures
            cursor.fits(entries@),
            cursor.scope == entries.len() - 1,
            cursor.at == settle(slots(entries@), 0, cursor.scope as int),
    {
        let scope = entries.len() - 1;
        Cursor { at: settle_at(entries, 0, scope), scope }
    }

    /// Whether the cursor stands at the end of its scope.
    pub fn eof(&self) -> (r: bool)
        ensures
            r == (self.at >= self.scope),
    {
        self.at >= self.scope
    }

    /// The token tree at the cursor.
    pub fn tree<'a>(&self, entries: &Vec<Entry<'a>>) -> (found: Option<&'a TokenTree>)
        requires
            self.fits(entries@),
        ensures
            match found {
                Some(tree) => tree_at(slots(entries@), self.at as int, self.scope as int) == Some(
                    *tree,
                ),
                None => tree_at(slots(entries@), self.at as int, self.scope as int) is None,
            },
    {
        if self.at < self.scope {
            entries[self.at].tree
        } else {
            None
        }
    }

    /// The cursor where it looks for a token: within the invisible groups
    /// before it.
    pub fn entered(&self, entries: &Vec<Entry>) -> (cursor: Cursor)
        requires
            self.fits(entries@),
        ensures
            cursor.fits(entries@),
            cursor.scope == self.scope,
            cursor.at == enter(slots(entries@), self.at as int, self.scope as int),
            self.at <= cursor.at,
    {
        let mut at = self.at;
        let scope = self.scope;
        loop
            invariant
                self.at <= at <= scope <= entries.len(),
                scope == self.scope,
                enter(slots(entries@), self.at as int, scope as int) == enter(
                    slots(entries@),
                    at as int,
                    scope as int,
                ),
            ensures
                self.at <= at <= scope,
                at == enter(slots(entries@), self.at as int, scope as int),
            decreases scope - at,
        {
            if at >= scope {
                break ;
            }
            let hidden = match entries[at].tree {
                Some(TokenTree::Group { delimiter, .. }) => match delimiter {
                    Delimiter::Invisible => true,
                    _ => false,
                },
                _ => false,
            };
            if !hidden {
                break ;
            }
            let next = settle_at(entries, at + 1, scope);
            at = next;
        }
        Cursor { at, scope }
    }

    /// The token that the cursor sees.
    pub fn look<'a>(&self, entries: &Vec<Entry<'a>>) -> (found: Option<&'a TokenTree>)
        requires
            self.fits(entries@),
        ensures
            match found {
                Some(tree) => seen(slots(entries@), self.at as int, self.scope as int) == Some(
                    *tree,
                ),
                None => seen(slots(entries@), self.at as int, self.scope as int) is None,
            },
    {
        self.entered(entries).tree(entries)
    }

    /// The cursor behind the token that it sees, where that is no group.
    pub fn past<'a>(&self, entries: &Vec<Entry<'a>>) -> (cursor: Cursor)
        requires
            self.fits(entries@),
            seen(slots(entries@), self.at as int, self.scope as int) is Some,
        ensures
            cursor.fits(entries@),
            cursor.scope == self.scope,
            cursor.at == past_seen(slots(entries@), self.at as int, self.scope as int),
            cursor.at > self.at,
    {
        let from = self.entered(entries);
        Cursor { at: settle_at(entries, from.at + 1, self.scope), scope: self.scope }
    }

    /// The cursor behind the token tree at the cursor, where that is no
    /// group.
    pub fn past_here<'a>(&self, entries: &Vec<Entry<'a>>) -> (cursor: Cursor)
        requires
            self.fits(entries@),
            self.at < self.scope,
        ensures
            cursor.fits(entries@),
            cursor.scope == self.scope,
            cursor.at == settle(slots(entries@), self.at + 1, self.scope as int),
            cursor.at > self.at,
    {
        Cursor { at: settle_at(entries, self.at + 1, self.scope), scope: self.scope }
    }

    /// The cursor into the stream of the group at the cursor, and the
    /// cursor behind the group.
    pub fn open<'a>(&self, entries: &Vec<Entry<'a>>) -> (cursors: (Cursor, Cursor))
        requires
            self.fits(entries@),
            tree_at(slots(entries@), self.at as int, self.scope as int) is Some,
        ensures
            cursors.0.fits(entries@),
            cursors.1.fits(entries@),
            cursors.0.scope == close_of(slots(entries@), self.at as int, self.scope as int),
            cursors.0.at == settle(slots(entries@), self.at + 1, cursors.0.scope as int),
            cursors.1.scope == self.scope,
            cursors.1.at == settle(slots(entries@), cursors.0.scope as int, self.scope as int),
            self.at < cursors.0.at,
            self.at < cursors.0.scope <= cursors.1.at,
            (tree_at(slots(entries@), self.at as int, self.scope as int).unwrap() is Group)
                ==> cursors.1.at == behind(slots(entries@), self.at as int, self.scope as int),
    {
        let inner = entries[self.at].inner;
        let close = if inner < self.scope - self.at {
            self.at + inner + 1
        } else {
            self.scope
        };
        let inside = Cursor { at: settle_at(entries, self.at + 1, close), scope: close };
        let after = Cursor { at: settle_at(entries, close, self.scope), scope: self.scope };
        (inside, after)
    }
}

fn settle_at(entries: &Vec<Entry>, at: usize, scope: usize) -> (rest: usize)
    requires
        at <= scope <= entries.len(),
    ensures
        rest == settle(slots(entries@), at as int, scope as int),
        at <= rest <= scope,
{
    let mut rest = at;
    while rest < scope && entries[rest].tree.is_none()
        invariant
            at <= rest <= scope <= entries.len(),
            settle(slots(entries@), at as int, scope as int) == settle(
                slots(entries@),
                rest as int,
                scope as int,
            ),
        decreases scope - rest,
    {
        rest += 1;
    }
    rest
}

} // verus!
