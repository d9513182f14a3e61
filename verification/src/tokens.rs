//! Token trees as plain values.

use vstd::prelude::*;

verus! {

/// The brackets of a group.
#[derive(Clone, Copy, Debug, PartialEq, Eq, Structural)]
pub enum Delimiter {
    Parenthesis,
    Brace,
    Bracket,
    /// No brackets: the invisible group around a macro's argument.
    Invisible,
}

/// Where a token comes from.
#[derive(Clone, Copy, Debug, PartialEq, Eq, Structural)]
pub enum Span {
    /// The place where the macro is called.
    CallSite,
    /// The caller's number for a place in the source.
    Source(usize),
}

/// A token tree.
pub enum TokenTree {
    /// A name, raw names with their `r#`.
    Ident { name: String, span: Span },
    /// A single character of punctuation. It is joint where the next token
    /// is punctuation that follows it without a gap.
    Punct { ch: char, joint: bool, span: Span },
    /// A literal as it is written.
    Literal { text: String, span: Span },
    /// A bracketed stream of token trees.
    Group { delimiter: Delimiter, stream: Vec<TokenTree>, span: Span },
}

/// A token tree as a value of the logic.
pub enum Tree {
    Ident { name: Seq<char>, span: Span },
    Punct { ch: char, joint: bool, span: Span },
    Literal { text: Seq<char>, span: Span },
    Group { delimiter: Delimiter, stream: Seq<Tree>, span: Span },
}

/// A token tree as a value of the logic.
pub open spec fn tree_of(tree: TokenTree) -> Tree
    decreases tree,
{
    match tree {
        TokenTree::Ident { name, span } => Tree::Ident { name: name@, span },
        TokenTree::Punct { ch, joint, span } => Tree::Punct { ch, joint, span },
        TokenTree::Literal { text, span } => Tree::Literal { text: text@, span },
        TokenTree::Group { delimiter, stream, span } => Tree::Group {
            delimiter,
            stream: Seq::new(
                stream.len() as nat,
                |i: int|
                    if 0 <= i < stream.len() {
                        tree_of(stream[i])
                    } else {
                        arbitrary()
                    },
            ),
            span,
        },
    }
}

impl View for TokenTree {
    type V = Tree;

    open spec fn view(&self) -> Tree {
        tree_of(*self)
    }
}

/// A stream of token trees as a value of the logic.
pub open spec fn trees(stream: Seq<TokenTree>) -> Seq<Tree> {
    Seq::new(stream.len(), |i: int| stream[i]@)
}

/// The stream of a group is that of its trees.
pub proof fn lemma_group_view(tree: TokenTree)
    requires
        tree is Group,
    ensures
        tree@ == (Tree::Group {
            delimiter: tree->delimiter,
            stream: trees(tree->stream@),
            span: tree->Group_span,
        }),
{
    assert(tree@->Group_stream =~= trees(tree->stream@));
}

impl TokenTree {
    /// A copy of the tree.
    #[verifier::loop_isolation(false)]
    pub fn duplicate(&self) -> (copy: TokenTree)
        ensures
            copy@ == self@,
        decreases self,
    {
        match self {
            TokenTree::Ident { name, span } => TokenTree::Ident { name: name.clone(), span: *span },
            TokenTree::Punct { ch, joint, span } => TokenTree::Punct {
                ch: *ch,
                joint: *joint,
                span: *span,
            },
            TokenTree::Literal { text, span } => TokenTree::Literal {
                text: text.clone(),
                span: *span,
            },
            TokenTree::Group { delimiter, stream, span } => {
                let mut copies: Vec<TokenTree> = Vec::new();
                let mut i: usize = 0;
                while i < stream.len()
                    invariant
                        i <= stream.len(),
                        copies.len() == i,
                        forall|j: int| 0 <= j < i ==> copies[j]@ == stream[j]@,
                    decreases stream.len() - i,
                {
                    copies.push(stream[i].duplicate());
                    i += 1;
                }
                let copy = TokenTree::Group { delimiter: *delimiter, stream: copies, span: *span };
                proof {
                    lemma_group_view(copy);
                    lemma_group_view(*self);
                    assert(trees(copies@) =~= trees(stream@));
                }
                copy
            },
        }
    }
}

} // verus!
