//! Repeating a stream of tokens for each number of a range.
//!
//! In the stream a name stands for the number. `#( .. )*` marks a section
//! that is repeated; without such a section the whole stream is. `a ~ N`
//! pastes a name and the number into one name.

pub mod buffer;
pub mod lexical;
pub mod parse;

use crate::seq::buffer::{buffer, buffer_of, slots, Slot};
use crate::seq::parse::{
    header_of, parse_header, parse_trees, trees_at, Complaint, Head, Header, ParseError,
};
use crate::text::{decimal, is_word, texts, to_decimal};
use crate::tokens::{lemma_group_view, trees, Delimiter, Span, TokenTree, Tree};
use vstd::prelude::*;
use vstd::string::StringExecFns;

verus! {

/// A piece of the stream.
pub enum SeqTokenTree {
    /// A token tree that is given out as it is, but for the name that
    /// stands for the number.
    Raw(TokenTree),
    /// Names that are pasted into one name.
    Ident(Vec<String>),
    /// A group whose stream is made of pieces.
    Group(SeqGroup),
    /// A section of the stream.
    Trees(SeqTrees),
}

/// A section of the stream.
pub struct SeqTrees {
    /// Whether the section is repeated for each number.
    pub to_expand: bool,
    pub token_trees: Vec<SeqTokenTree>,
}

/// A group whose stream is made of pieces.
pub struct SeqGroup {
    pub delimiter: Delimiter,
    pub trees: SeqTrees,
    pub span: Span,
}

/// A piece of the stream as a value of the logic.
pub enum Part {
    Raw(Tree),
    Ident(Seq<Seq<char>>),
    Group { delimiter: Delimiter, span: Span, to_expand: bool, parts: Seq<Part> },
    Trees { to_expand: bool, parts: Seq<Part> },
}

/// A piece of the stream as a value of the logic.
pub open spec fn part_of(piece: SeqTokenTree) -> Part
    decreases piece,
{
    match piece {
        SeqTokenTree::Raw(tree) => Part::Raw(tree@),
        SeqTokenTree::Ident(names) => Part::Ident(texts(names@)),
        SeqTokenTree::Group(group) => Part::Group {
            delimiter: group.delimiter,
            span: group.span,
            to_expand: group.trees.to_expand,
            parts: Seq::new(
                group.trees.token_trees.len() as nat,
                |i: int|
                    if 0 <= i < group.trees.token_trees.len() {
                        part_of(group.trees.token_trees[i])
                    } else {
                        arbitrary()
                    },
            ),
        },
        SeqTokenTree::Trees(section) => Part::Trees {
            to_expand: section.to_expand,
            parts: Seq::new(
                section.token_trees.len() as nat,
                |i: int|
                    if 0 <= i < section.token_trees.len() {
                        part_of(section.token_trees[i])
                    } else {
                        arbitrary()
                    },
            ),
        },
    }
}

/// The pieces of a section as values of the logic.
pub open spec fn parts_of(pieces: Seq<SeqTokenTree>) -> Seq<Part> {
    Seq::new(pieces.len(), |i: int| part_of(pieces[i]))
}

impl View for SeqTokenTree {
    type V = Part;

    open spec fn view(&self) -> Part {
        part_of(*self)
    }
}

impl View for SeqTrees {
    type V = Part;

    open spec fn view(&self) -> Part {
        Part::Trees { to_expand: self.to_expand, parts: parts_of(self.token_trees@) }
    }
}

/// The pieces of a group or a section are those of its trees.
pub proof fn lemma_part_view(piece: SeqTokenTree)
    ensures
        piece matches SeqTokenTree::Group(group) ==> piece@ == (Part::Group {
            delimiter: group.delimiter,
            span: group.span,
            to_expand: group.trees.to_expand,
            parts: parts_of(group.trees.token_trees@),
        }),
        piece matches SeqTokenTree::Trees(section) ==> piece@ == section@,
{
    match piece {
        SeqTokenTree::Group(group) => {
            assert(piece@->Group_parts =~= parts_of(group.trees.token_trees@));
        },
        SeqTokenTree::Trees(section) => {
            assert(piece@->Trees_parts =~= parts_of(section.token_trees@));
        },
        _ => {},
    }
}

/// Whether a section is repeated, or holds a section that is.
pub open spec fn section_expands(to_expand: bool, parts: Seq<Part>) -> bool
    decreases parts, 1nat,
{
    to_expand || exists|i: int| 0 <= i < parts.len() && part_expands(#[trigger] parts[i])
}

/// Whether a piece holds a section that is repeated.
pub open spec fn part_expands(part: Part) -> bool
    decreases part, 0nat,
{
    match part {
        Part::Raw(_) => false,
        Part::Ident(_) => false,
        Part::Group { to_expand, parts, .. } => section_expands(to_expand, parts),
        Part::Trees { to_expand, parts } => section_expands(to_expand, parts),
    }
}

impl SeqTrees {
    /// Whether the section is repeated, or holds a section that is.
    #[verifier::loop_isolation(false)]
    pub fn has_to_expand(&self) -> (r: bool)
        ensures
            r == section_expands(self.to_expand, parts_of(self.token_trees@)),
        decreases self,
    {
        if self.to_expand {
            return true;
        }
        let mut i: usize = 0;
        while i < self.token_trees.len()
            invariant
                i <= self.token_trees.len(),
                forall|j: int| 0 <= j < i ==> !part_expands(#[trigger] parts_of(self.token_trees@)[j]),
            decreases self.token_trees.len() - i,
        {
            proof {
                lemma_part_view(self.token_trees[i as int]);
            }
            let found = match &self.token_trees[i] {
                SeqTokenTree::Raw(_) => false,
                SeqTokenTree::Ident(_) => false,
                SeqTokenTree::Group(group) => group.trees.has_to_expand(),
                SeqTokenTree::Trees(section) => section.has_to_expand(),
            };
            if found {
                assert(part_expands(parts_of(self.token_trees@)[i as int]));
                return true;
            }
            i += 1;
        }
        false
    }
}

/// The numbers that are still to come.
#[derive(Clone, Copy, Debug, PartialEq, Eq, Structural)]
pub enum RangeWrapper {
    /// The numbers from `start` up to, but without, `end`.
    Range { start: usize, end: usize },
    /// The numbers from `start` up to `end`, unless they are used up.
    RangeInclusive { start: usize, end: usize, exhausted: bool },
}

impl RangeWrapper {
    /// The numbers that are still to come, in their order.
    pub open spec fn remaining(self) -> Seq<usize> {
        match self {
            RangeWrapper::Range { start, end } => if start < end {
                Seq::new((end - start) as nat, |i: int| (start + i) as usize)
            } else {
                Seq::empty()
            },
            RangeWrapper::RangeInclusive { start, end, exhausted } => if !exhausted && start
                <= end {
                Seq::new((end - start + 1) as nat, |i: int| (start + i) as usize)
            } else {
                Seq::empty()
            },
        }
    }

    /// The numbers `start .. end`.
    pub fn range(start: usize, end: usize) -> (numbers: Self)
        ensures
            numbers == (RangeWrapper::Range { start, end }),
    {
        RangeWrapper::Range { start, end }
    }

    /// The numbers `start ..= end`.
    pub fn inclusive(start: usize, end: usize) -> (numbers: Self)
        ensures
            numbers == (RangeWrapper::RangeInclusive { start, end, exhausted: false }),
    {
        RangeWrapper::RangeInclusive { start, end, exhausted: false }
    }

    /// The one number `n`.
    pub fn once(n: usize) -> (numbers: Self)
        ensures
            numbers.remaining() == seq![n],
    {
        let numbers = RangeWrapper::RangeInclusive { start: n, end: n, exhausted: false };
        assert(numbers.remaining() =~= seq![n]);
        numbers
    }

    /// Takes the next number.
    pub fn next(&mut self) -> (number: Option<usize>)
        ensures
            match number {
                Some(n) => old(self).remaining().len() > 0 && n == old(self).remaining()[0]
                    && final(self).remaining() == old(self).remaining().drop_first(),
                None => old(self).remaining().len() == 0 && final(self).remaining().len() == 0,
            },
    {
        match self {
            RangeWrapper::Range { start, end } => {
                if *start < *end {
                    let n = *start;
                    *start = n + 1;
                    assert(final(self).remaining() =~= old(self).remaining().drop_first());
                    Some(n)
                } else {
                    None
                }
            },
            RangeWrapper::RangeInclusive { start, end, exhausted } => {
                if *exhausted || *start > *end {
                    None
                } else if *start < *end {
                    let n = *start;
                    *start = n + 1;
                    assert(final(self).remaining() =~= old(self).remaining().drop_first());
                    Some(n)
                } else {
                    let n = *start;
                    *exhausted = true;
                    assert(final(self).remaining() =~= old(self).remaining().drop_first());
                    Some(n)
                }
            },
        }
    }
}

/// What pasting the first `n` names gives: the text so far and the numbers
/// that are left, or nothing where a number is asked for and none is left.
/// Each name that is the word takes the next number and stands for it.
pub open spec fn paste_upto(
    names: Seq<Seq<char>>,
    n: int,
    word: Seq<char>,
    numbers: Seq<usize>,
) -> Option<(Seq<char>, Seq<usize>)>
    decreases n,
{
    if n <= 0 {
        Some((Seq::empty(), numbers))
    } else {
        match paste_upto(names, n - 1, word, numbers) {
            Some((text, rest)) => if names[n - 1] == word {
                if rest.len() > 0 {
                    Some((text + decimal(rest[0] as nat), rest.drop_first()))
                } else {
                    None
                }
            } else {
                Some((text + names[n - 1], rest))
            },
            None => None,
        }
    }
}

/// What a piece comes to: the token trees that it gives and the numbers
/// that are left, or nothing where a number is asked for and none is left.
///
/// The word stands for the next number, as a literal or within a pasted
/// name. A repeated section takes every number that is left and gives its
/// pieces once for each; within one repetition each piece has the number
/// once.
pub open spec fn expand_part(part: Part, word: Seq<char>, numbers: Seq<usize>) -> Option<
    (Seq<Tree>, Seq<usize>),
>
    decreases part, 0nat,
{
    match part {
        Part::Raw(tree) => if tree is Ident && tree->name == word {
            if numbers.len() > 0 {
                Some(
                    (
                        seq![
                            Tree::Literal {
                                text: decimal(numbers[0] as nat),
                                span: Span::CallSite,
                            },
                        ],
                        numbers.drop_first(),
                    ),
                )
            } else {
                None
            }
        } else {
            Some((seq![tree], numbers))
        },
        Part::Ident(names) => match paste_upto(names, names.len() as int, word, numbers) {
            Some((name, rest)) => Some((seq![Tree::Ident { name, span: Span::CallSite }], rest)),
            None => None,
        },
        Part::Group { delimiter, span, to_expand, parts } => match expand_upto(
            parts,
            parts.len(),
            word,
            numbers,
        ) {
            Some((stream, rest)) => Some((seq![Tree::Group { delimiter, stream, span }], rest)),
            None => None,
        },
        Part::Trees { to_expand, parts } => if to_expand {
            match repeat_upto(parts, word, numbers, numbers.len()) {
                Some(stream) => Some((stream, Seq::empty())),
                None => None,
            }
        } else {
            expand_upto(parts, parts.len(), word, numbers)
        },
    }
}

/// What the first `n` pieces come to, one after the other on the same
/// numbers.
pub open spec fn expand_upto(parts: Seq<Part>, n: nat, word: Seq<char>, numbers: Seq<usize>) -> Option<
    (Seq<Tree>, Seq<usize>),
>
    decreases parts, n,
{
    if n == 0 || n > parts.len() {
        Some((Seq::empty(), numbers))
    } else {
        match expand_upto(parts, (n - 1) as nat, word, numbers) {
            Some((stream, rest)) => match expand_part(parts[n - 1], word, rest) {
                Some((more, left)) => Some((stream + more, left)),
                None => None,
            },
            None => None,
        }
    }
}

/// What the first `n` pieces come to when each has the one number `number`.
pub open spec fn each_upto(parts: Seq<Part>, n: nat, word: Seq<char>, number: usize) -> Option<
    Seq<Tree>,
>
    decreases parts, n,
{
    if n == 0 || n > parts.len() {
        Some(Seq::empty())
    } else {
        match each_upto(parts, (n - 1) as nat, word, number) {
            Some(stream) => match expand_part(parts[n - 1], word, seq![number]) {
                Some((more, left)) => Some(stream + more),
                None => None,
            },
            None => None,
        }
    }
}

/// What the pieces come to when they are given once for each of the first
/// `k` numbers.
pub open spec fn repeat_upto(parts: Seq<Part>, word: Seq<char>, numbers: Seq<usize>, k: nat) -> Option<
    Seq<Tree>,
>
    decreases parts, parts.len() + 1 + k,
{
    if k == 0 || k > numbers.len() {
        Some(Seq::empty())
    } else {
        match repeat_upto(parts, word, numbers, (k - 1) as nat) {
            Some(stream) => match each_upto(parts, parts.len(), word, numbers[k - 1]) {
                Some(more) => Some(stream + more),
                None => None,
            },
            None => None,
        }
    }
}

fn paste(names: &Vec<String>, iter: &mut RangeWrapper, word: &str) -> (name: Option<String>)
    ensures
        match name {
            Some(text) => paste_upto(
                texts(names@),
                names.len() as int,
                word@,
                old(iter).remaining(),
            ) == Some((text@, final(iter).remaining())),
            None => paste_upto(texts(names@), names.len() as int, word@, old(iter).remaining())
                is None,
        },
{
    let mut text = String::new();
    let mut i: usize = 0;
    while i < names.len()
        invariant
            i <= names.len(),
            paste_upto(texts(names@), i as int, word@, old(iter).remaining()) == Some(
                (text@, iter.remaining()),
            ),
        decreases names.len() - i,
    {
        if is_word(&names[i], word) {
            match iter.next() {
                Some(n) => {
                    let digits = to_decimal(n);
                    text.append(digits.as_str());
                },
                None => {
                    assert(paste_upto(texts(names@), i + 1, word@, old(iter).remaining()) is None);
                    proof {
                        lemma_paste_fails(
                            texts(names@),
                            i + 1,
                            names.len() as int,
                            word@,
                            old(iter).remaining(),
                        );
                    }
                    return None;
                },
            }
        } else {
            text.append(names[i].as_str());
        }
        i += 1;
    }
    Some(text)
}

proof fn lemma_paste_fails(
    names: Seq<Seq<char>>,
    n: int,
    m: int,
    word: Seq<char>,
    numbers: Seq<usize>,
)
    requires
        n <= m,
        paste_upto(names, n, word, numbers) is None,
    ensures
        paste_upto(names, m, word, numbers) is None,
    decreases m - n,
{
    if n < m {
        lemma_paste_fails(names, n, m - 1, word, numbers);
    }
}

proof fn lemma_expand_fails(parts: Seq<Part>, n: nat, m: nat, word: Seq<char>, numbers: Seq<usize>)
    requires
        n <= m <= parts.len(),
        expand_upto(parts, n, word, numbers) is None,
    ensures
        expand_upto(parts, m, word, numbers) is None,
    decreases m - n,
{
    if n < m {
        lemma_expand_fails(parts, n, (m - 1) as nat, word, numbers);
    }
}

proof fn lemma_each_fails(parts: Seq<Part>, n: nat, m: nat, word: Seq<char>, number: usize)
    requires
        n <= m <= parts.len(),
        each_upto(parts, n, word, number) is None,
    ensures
        each_upto(parts, m, word, number) is None,
    decreases m - n,
{
    if n < m {
        lemma_each_fails(parts, n, (m - 1) as nat, word, number);
    }
}

proof fn lemma_repeat_fails(parts: Seq<Part>, word: Seq<char>, numbers: Seq<usize>, k: nat, m: nat)
    requires
        k <= m <= numbers.len(),
        repeat_upto(parts, word, numbers, k) is None,
    ensures
        repeat_upto(parts, word, numbers, m) is None,
    decreases m - k,
{
    if k < m {
        lemma_repeat_fails(parts, word, numbers, k, (m - 1) as nat);
    }
}

/// The pieces one after the other on the same numbers.
#[verifier::loop_isolation(false)]
fn expand_all(pieces: &Vec<SeqTokenTree>, iter: &mut RangeWrapper, ident_replace: &str) -> (out:
    Option<Vec<TokenTree>>)
    ensures
        match out {
            Some(stream) => expand_upto(
                parts_of(pieces@),
                pieces.len() as nat,
                ident_replace@,
                old(iter).remaining(),
            ) == Some((trees(stream@), final(iter).remaining())),
            None => expand_upto(
                parts_of(pieces@),
                pieces.len() as nat,
                ident_replace@,
                old(iter).remaining(),
            ) is None,
        },
    decreases pieces, 1nat,
{
    let mut stream: Vec<TokenTree> = Vec::new();
    let mut i: usize = 0;
    while i < pieces.len()
        invariant
            i <= pieces.len(),
            expand_upto(parts_of(pieces@), i as nat, ident_replace@, old(iter).remaining())
                == Some((trees(stream@), iter.remaining())),
        decreases pieces.len() - i,
    {
        let ghost before = trees(stream@);
        match pieces[i].to_token_tree(iter, ident_replace) {
            Some(mut more) => {
                let ghost added = trees(more@);
                stream.append(&mut more);
                assert(trees(stream@) =~= before + added);
            },
            None => {
                proof {
                    lemma_expand_fails(
                        parts_of(pieces@),
                        (i + 1) as nat,
                        pieces.len() as nat,
                        ident_replace@,
                        old(iter).remaining(),
                    );
                }
                return None;
            },
        }
        i += 1;
    }
    Some(stream)
}

/// The pieces one after the other, each with the one number `number`.
#[verifier::loop_isolation(false)]
fn expand_each(pieces: &Vec<SeqTokenTree>, number: usize, ident_replace: &str) -> (out: Option<
    Vec<TokenTree>,
>)
    ensures
        match out {
            Some(stream) => each_upto(
                parts_of(pieces@),
                pieces.len() as nat,
                ident_replace@,
                number,
            ) == Some(trees(stream@)),
            None => each_upto(parts_of(pieces@), pieces.len() as nat, ident_replace@, number)
                is None,
        },
    decreases pieces, 1nat,
{
    let mut stream: Vec<TokenTree> = Vec::new();
    let mut i: usize = 0;
    while i < pieces.len()
        invariant
            i <= pieces.len(),
            each_upto(parts_of(pieces@), i as nat, ident_replace@, number) == Some(
                trees(stream@),
            ),
        decreases pieces.len() - i,
    {
        let ghost before = trees(stream@);
        let mut once = RangeWrapper::once(number);
        match pieces[i].to_token_tree(&mut once, ident_replace) {
            Some(mut more) => {
                let ghost added = trees(more@);
                stream.append(&mut more);
                assert(trees(stream@) =~= before + added);
            },
            None => {
                proof {
                    lemma_each_fails(
                        parts_of(pieces@),
                        (i + 1) as nat,
                        pieces.len() as nat,
                        ident_replace@,
                        number,
                    );
                }
                return None;
            },
        }
        i += 1;
    }
    Some(stream)
}

/// The pieces once for each number that is left.
#[verifier::loop_isolation(false)]
fn repeat(pieces: &Vec<SeqTokenTree>, iter: &mut RangeWrapper, ident_replace: &str) -> (out: Option<
    Vec<TokenTree>,
>)
    ensures
        match out {
            Some(stream) => repeat_upto(
                parts_of(pieces@),
                ident_replace@,
                old(iter).remaining(),
                old(iter).remaining().len(),
            ) == Some(trees(stream@)) && final(iter).remaining().len() == 0,
            None => repeat_upto(
                parts_of(pieces@),
                ident_replace@,
                old(iter).remaining(),
                old(iter).remaining().len(),
            ) is None,
        },
    decreases pieces, 2nat,
{
    let ghost numbers = old(iter).remaining();
    let ghost mut k: nat = 0;
    let mut stream: Vec<TokenTree> = Vec::new();
    let mut done = false;
    while !done
        invariant
            k <= numbers.len(),
            iter.remaining() == numbers.skip(k as int),
            done ==> iter.remaining().len() == 0,
            repeat_upto(parts_of(pieces@), ident_replace@, numbers, k) == Some(trees(stream@)),
        decreases numbers.len() - k + (if done { 0int } else { 1int }),
    {
        let ghost before = trees(stream@);
        match iter.next() {
            Some(n) => {
                assert(n == numbers[k as int]);
                match expand_each(pieces, n, ident_replace) {
                    Some(mut more) => {
                        let ghost added = trees(more@);
                        stream.append(&mut more);
                        proof {
                            assert(trees(stream@) =~= before + added);
                            assert(numbers.skip(k as int).drop_first() =~= numbers.skip(
                                k as int + 1,
                            ));
                            k = k + 1;
                        }
                    },
                    None => {
                        proof {
                            lemma_repeat_fails(
                                parts_of(pieces@),
                                ident_replace@,
                                numbers,
                                k + 1,
                                numbers.len(),
                            );
                        }
                        return None;
                    },
                }
            },
            None => {
                done = true;
            },
        }
    }
    Some(stream)
}

impl SeqTokenTree {
    /// The token trees that the piece gives, with the name `ident_replace`
    /// standing for the numbers of `iter`.
    ///
    /// Gives nothing where a number is asked for and none is left.
    pub fn to_token_tree(&self, iter: &mut RangeWrapper, ident_replace: &str) -> (out: Option<
        Vec<TokenTree>,
    >)
        ensures
            match out {
                Some(stream) => expand_part(self@, ident_replace@, old(iter).remaining()) == Some(
                    (trees(stream@), final(iter).remaining()),
                ),
                None => expand_part(self@, ident_replace@, old(iter).remaining()) is None,
            },
        decreases self, 0nat,
    {
        proof {
            lemma_part_view(*self);
        }
        let mut stream: Vec<TokenTree> = Vec::new();
        match self {
            SeqTokenTree::Raw(tree) => {
                let replaced = match tree {
                    TokenTree::Ident { name, span } => is_word(name, ident_replace),
                    _ => false,
                };
                if replaced {
                    match iter.next() {
                        Some(n) => {
                            stream.push(
                                TokenTree::Literal { text: to_decimal(n), span: Span::CallSite },
                            );
                        },
                        None => {
                            return None;
                        },
                    }
                } else {
                    stream.push(tree.duplicate());
                }
                assert(trees(stream@) =~= seq![stream[0]@]);
                Some(stream)
            },
            SeqTokenTree::Ident(names) => match paste(names, iter, ident_replace) {
                Some(name) => {
                    stream.push(TokenTree::Ident { name, span: Span::CallSite });
                    assert(trees(stream@) =~= seq![stream[0]@]);
                    Some(stream)
                },
                None => None,
            },
            SeqTokenTree::Group(group) => match expand_all(
                &group.trees.token_trees,
                iter,
                ident_replace,
            ) {
                Some(inner) => {
                    let whole = TokenTree::Group {
                        delimiter: group.delimiter,
                        stream: inner,
                        span: group.span,
                    };
                    proof {
                        lemma_group_view(whole);
                    }
                    stream.push(whole);
                    assert(trees(stream@) =~= seq![stream[0]@]);
                    Some(stream)
                },
                None => None,
            },
            SeqTokenTree::Trees(section) => {
                if section.to_expand {
                    repeat(&section.token_trees, iter, ident_replace)
                } else {
                    expand_all(&section.token_trees, iter, ident_replace)
                }
            },
        }
    }
}

impl SeqTrees {
    /// The token trees that the section gives, with the name
    /// `ident_replace` standing for the numbers of `iter`.
    ///
    /// Gives nothing where a number is asked for and none is left.
    pub fn to_token_tree(&self, iter: &mut RangeWrapper, ident_replace: &str) -> (out: Option<
        Vec<TokenTree>,
    >)
        ensures
            match out {
                Some(stream) => expand_part(self@, ident_replace@, old(iter).remaining()) == Some(
                    (trees(stream@), final(iter).remaining()),
                ),
                None => expand_part(self@, ident_replace@, old(iter).remaining()) is None,
            },
    {
        if self.to_expand {
            repeat(&self.token_trees, iter, ident_replace)
        } else {
            expand_all(&self.token_trees, iter, ident_replace)
        }
    }
}

/// A section with the range for which it is repeated and the name that
/// stands for the number.
pub struct SeqGroupToReplace<'a, 'b> {
    range: RangeWrapper,
    group: &'a SeqTrees,
    ident: &'b String,
}

impl<'a, 'b> SeqGroupToReplace<'a, 'b> {
    /// The range for which the section is repeated.
    pub closed spec fn range(self) -> RangeWrapper {
        self.range
    }

    /// The section.
    pub closed spec fn group(self) -> SeqTrees {
        *self.group
    }

    /// The name that stands for the number.
    pub closed spec fn ident(self) -> String {
        *self.ident
    }

    /// Puts a section together with its range and the name.
    pub fn new(range: RangeWrapper, group: &'a SeqTrees, ident: &'b String) -> (made: Self)
        ensures
            made.range() == range,
            made.group() == *group,
            made.ident() == *ident,
    {
        SeqGroupToReplace { range, group, ident }
    }

    /// The token trees that the section gives for the numbers of the
    /// range, or nothing where a number is asked for and none is left.
    pub fn to_tokens(&self) -> (out: Option<Vec<TokenTree>>)
        ensures
            match out {
                Some(stream) => exists|rest: Seq<usize>|
                    expand_part(self.group()@, self.ident()@, self.range().remaining()) == Some(
                        (trees(stream@), rest),
                    ),
                None => expand_part(self.group()@, self.ident()@, self.range().remaining())
                    is None,
            },
    {
        let mut iter = self.range;
        self.group.to_token_tree(&mut iter, self.ident.as_str())
    }
}

/// Why the repetition gives no token trees.
pub enum Failure {
    /// The input is refused, with the complaints in their order.
    Rejected(Vec<ParseError>),
    /// Outside a repeated section the name stands where no number is left.
    Exhausted,
}

/// What the repetition comes to, as a value of the logic.
pub enum Outcome {
    Tokens(Seq<Tree>),
    Rejected(Seq<Complaint>),
    Exhausted,
}

/// The complaints about the bounds of the range: about the lower bound
/// first.
pub open spec fn bound_complaints(head: Head) -> Seq<Complaint> {
    let first = match head.start.value {
        Ok(_) => Seq::<Complaint>::empty(),
        Err(message) => seq![Complaint { message, span: head.start.span }],
    };
    let second = match head.end.value {
        Ok(_) => Seq::<Complaint>::empty(),
        Err(message) => seq![Complaint { message, span: head.end.span }],
    };
    first + second
}

/// The numbers of the range.
pub open spec fn numbers_of(start: usize, end: usize, inclusive: bool) -> Seq<usize> {
    if inclusive {
        (RangeWrapper::RangeInclusive { start, end, exhausted: false }).remaining()
    } else {
        (RangeWrapper::Range { start, end }).remaining()
    }
}

/// What the repetition comes to for the input in a buffer.
///
/// The input is read as a name, a range and a stream. The stream is given
/// once for each number of the range, the name standing for the number.
/// Where the stream holds sections marked for repetition, only those are
/// repeated.
pub open spec fn seq_outcome(buffer: Seq<Slot>) -> Outcome {
    match header_of(buffer, buffer.len() - 1) {
        Err(complaint) => Outcome::Rejected(seq![complaint]),
        Ok(head) => match (head.start.value, head.end.value) {
            (Ok(start), Ok(end)) => match trees_at(
                buffer,
                head.body,
                head.body_end,
                Span::CallSite,
            ) {
                Err(complaint) => Outcome::Rejected(seq![complaint]),
                Ok(parts) => match expand_part(
                    Part::Trees { to_expand: !section_expands(false, parts), parts },
                    head.word,
                    numbers_of(start, end, head.inclusive),
                ) {
                    Some((stream, _)) => Outcome::Tokens(stream),
                    None => Outcome::Exhausted,
                },
            },
            _ => Outcome::Rejected(bound_complaints(head)),
        },
    }
}

/// A list of complaints as values of the logic.
pub open spec fn complaints(errors: Seq<ParseError>) -> Seq<Complaint> {
    Seq::new(errors.len(), |i: int| errors[i]@)
}

/// What the result of the repetition stands for.
pub open spec fn outcome_of(result: Result<Vec<TokenTree>, Failure>) -> Outcome {
    match result {
        Ok(stream) => Outcome::Tokens(trees(stream@)),
        Err(Failure::Rejected(errors)) => Outcome::Rejected(complaints(errors@)),
        Err(Failure::Exhausted) => Outcome::Exhausted,
    }
}

/// Repeats a stream of token trees for each number of a range.
///
/// The input reads `name in start .. end { stream }`, or with `..=` where
/// the upper bound belongs to the range.
pub fn seq(input: &Vec<TokenTree>) -> (result: Result<Vec<TokenTree>, Failure>)
    ensures
        outcome_of(result) == seq_outcome(buffer_of(input@)),
{
    let entries = buffer(input);
    assert(slots(entries@).len() == entries.len());
    let header = match parse_header(&entries) {
        Ok(header) => header,
        Err(error) => {
            let mut errors: Vec<ParseError> = Vec::new();
            errors.push(error);
            assert(complaints(errors@) =~= seq![error@]);
            return Err(Failure::Rejected(errors));
        },
    };
    let ghost head = header@;
    let Header { ident_replace, start, end, inclusive, tokens } = header;
    let (start, end) = match (start.value, end.value) {
        (Ok(start), Ok(end)) => (start, end),
        (first, second) => {
            let mut errors: Vec<ParseError> = Vec::new();
            match first {
                Ok(_) => {},
                Err(message) => {
                    errors.push(ParseError { message, span: start.span });
                },
            }
            match second {
                Ok(_) => {},
                Err(message) => {
                    errors.push(ParseError { message, span: end.span });
                },
            }
            assert(complaints(errors@) =~= bound_complaints(head));
            return Err(Failure::Rejected(errors));
        },
    };
    let mut seq_token_tree = match parse_trees(&entries, tokens, Span::CallSite) {
        Ok(section) => section,
        Err(error) => {
            let mut errors: Vec<ParseError> = Vec::new();
            errors.push(error);
            assert(complaints(errors@) =~= seq![error@]);
            return Err(Failure::Rejected(errors));
        },
    };
    let expands = seq_token_tree.has_to_expand();
    seq_token_tree.to_expand = seq_token_tree.to_expand || !expands;
    let range = if inclusive {
        RangeWrapper::inclusive(start, end)
    } else {
        RangeWrapper::range(start, end)
    };
    match SeqGroupToReplace::new(range, &seq_token_tree, &ident_replace).to_tokens() {
        Some(stream) => Ok(stream),
        None => Err(Failure::Exhausted),
    }
}

} // verus!
