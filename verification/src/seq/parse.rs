//! Reading the input of the repetition: the name, the range and the stream
//! that is repeated.

use crate::seq::buffer::{
    behind, close_of, enter, past_seen, seen, sees_group, sees_punct, settle, skipped, slots,
    span_at, tree_at, Cursor, Entry, Slot,
};
use crate::seq::lexical::{accepts_ident, ident_accepted, int_literal, read_int_literal};
use crate::seq::{lemma_part_view, parts_of, Part, SeqGroup, SeqTokenTree, SeqTrees};
use crate::text::{concat2, is_word, texts};
use crate::tokens::{Delimiter, Span, TokenTree};
use vstd::prelude::*;
use vstd::string::StringExecFns;

verus! {

/// A complaint about the input, and the span that it points to.
pub struct ParseError {
    pub message: String,
    pub span: Span,
}

/// A complaint as a value of the logic.
pub struct Complaint {
    pub message: Seq<char>,
    pub span: Span,
}

impl View for ParseError {
    type V = Complaint;

    open spec fn view(&self) -> Complaint {
        Complaint { message: self.message@, span: self.span }
    }
}

/// The complaint that something is missing at a place: at the end of the
/// scope it says so, and points to the scope.
pub open spec fn complaint_at(
    buffer: Seq<Slot>,
    at: int,
    scope: int,
    scope_span: Span,
    message: Seq<char>,
) -> Complaint {
    if at >= scope {
        Complaint { message: "unexpected end of input, "@ + message, span: scope_span }
    } else {
        Complaint { message, span: span_at(buffer, at, scope, scope_span) }
    }
}

/// The span that a complaint about missing punctuation points to: that of
/// the punctuation mark that is seen in its place, or else that of the
/// place itself.
pub open spec fn punct_span(buffer: Seq<Slot>, at: int, scope: int, scope_span: Span) -> Span {
    match seen(buffer, at, scope) {
        Some(TokenTree::Punct { ch, span, .. }) => if ch != '\'' {
            span
        } else {
            span_at(buffer, at, scope, scope_span)
        },
        _ => span_at(buffer, at, scope, scope_span),
    }
}

/// The complaint about a keyword in the place of a name.
pub open spec fn keyword_message(name: Seq<char>) -> Seq<char> {
    "expected identifier, found keyword `"@ + name + "`"@
}

/// The name at a place and the place behind it, or the complaint that there
/// is none.
pub open spec fn name_at(buffer: Seq<Slot>, at: int, scope: int, scope_span: Span) -> Result<
    (Seq<char>, int),
    Complaint,
> {
    match seen(buffer, at, scope) {
        Some(TokenTree::Ident { name, .. }) => if ident_accepted(name@) {
            Ok((name@, past_seen(buffer, at, scope)))
        } else {
            Err(complaint_at(buffer, at, scope, scope_span, keyword_message(name@)))
        },
        _ => Err(complaint_at(buffer, at, scope, scope_span, "expected identifier"@)),
    }
}

fn fail(entries: &Vec<Entry>, cursor: Cursor, scope_span: Span, message: &str) -> (error:
    ParseError)
    requires
        cursor.fits(entries@),
    ensures
        error@ == complaint_at(
            slots(entries@),
            cursor.at as int,
            cursor.scope as int,
            scope_span,
            message@,
        ),
{
    match cursor.tree(entries) {
        Some(tree) => ParseError { message: String::from_str(message), span: tree.span() },
        None => {
            if cursor.eof() {
                ParseError { message: concat2("unexpected end of input, ", message), span: scope_span }
            } else {
                ParseError { message: String::from_str(message), span: scope_span }
            }
        },
    }
}

fn read_name(entries: &Vec<Entry>, cursor: Cursor, scope_span: Span) -> (read: Result<
    (String, Cursor),
    ParseError,
>)
    requires
        cursor.fits(entries@),
    ensures
        match read {
            Ok((name, next)) => name_at(
                slots(entries@),
                cursor.at as int,
                cursor.scope as int,
                scope_span,
            ) == Ok::<(Seq<char>, int), Complaint>((name@, next.at as int)) && next.fits(entries@)
                && next.scope == cursor.scope && next.at > cursor.at,
            Err(error) => name_at(
                slots(entries@),
                cursor.at as int,
                cursor.scope as int,
                scope_span,
            ) == Err::<(Seq<char>, int), Complaint>(error@),
        },
{
    match cursor.look(entries) {
        Some(TokenTree::Ident { name, .. }) => {
            if accepts_ident(name.as_str()) {
                Ok((name.clone(), cursor.past(entries)))
            } else {
                let mut message = concat2("expected identifier, found keyword `", name.as_str());
                message.append("`");
                Err(fail(entries, cursor, scope_span, message.as_str()))
            }
        },
        _ => Err(fail(entries, cursor, scope_span, "expected identifier")),
    }
}

/// A bound of the range: its value, or the complaint about its digits, and
/// the span of the literal.
pub struct LitInt {
    pub value: Result<usize, String>,
    pub span: Span,
}

/// A bound of the range as a value of the logic.
pub struct Number {
    pub value: Result<usize, Seq<char>>,
    pub span: Span,
}

impl View for LitInt {
    type V = Number;

    open spec fn view(&self) -> Number {
        Number {
            value: match self.value {
                Ok(value) => Ok(value),
                Err(message) => Err(message@),
            },
            span: self.span,
        }
    }
}

/// The value of a literal as far as a `usize` holds it.
pub open spec fn fit(read: Result<u64, Seq<char>>) -> Result<usize, Seq<char>> {
    match read {
        Ok(value) => if value <= usize::MAX {
            Ok(value as usize)
        } else {
            Err("number too large to fit in target type"@)
        },
        Err(message) => Err(message),
    }
}

/// The integer literal at a place and the place behind it, or the complaint
/// that there is none. A minus sign before the literal belongs to it.
pub open spec fn number_at(buffer: Seq<Slot>, at: int, scope: int, scope_span: Span) -> Result<
    (Number, int),
    Complaint,
> {
    let missing = Err::<(Number, int), Complaint>(
        complaint_at(buffer, at, scope, scope_span, "expected integer literal"@),
    );
    match seen(buffer, at, scope) {
        Some(TokenTree::Literal { text, span }) => match int_literal(text@) {
            Some(read) => Ok((Number { value: fit(read), span }, past_seen(buffer, at, scope))),
            None => missing,
        },
        Some(TokenTree::Punct { ch, span, .. }) => if ch == '-' {
            let next = past_seen(buffer, at, scope);
            match seen(buffer, next, scope) {
                Some(TokenTree::Literal { text, .. }) => match int_literal("-"@ + text@) {
                    Some(read) => Ok(
                        (Number { value: fit(read), span }, past_seen(buffer, next, scope)),
                    ),
                    None => missing,
                },
                _ => missing,
            }
        } else {
            missing
        },
        _ => missing,
    }
}

fn fitted(read: Result<u64, String>) -> (value: Result<usize, String>)
    ensures
        match (read, value) {
            (Ok(wide), Ok(narrow)) => fit(Ok(wide)) == Ok::<usize, Seq<char>>(narrow),
            (Ok(wide), Err(message)) => fit(Ok(wide)) == Err::<usize, Seq<char>>(message@),
            (Err(given), Err(message)) => given@ == message@,
            (Err(_), Ok(_)) => false,
        },
{
    match read {
        Ok(wide) => {
            if wide <= usize::MAX as u64 {
                Ok(wide as usize)
            } else {
                Err(String::from_str("number too large to fit in target type"))
            }
        },
        Err(message) => Err(message),
    }
}

fn read_number(entries: &Vec<Entry>, cursor: Cursor, scope_span: Span) -> (read: Result<
    (LitInt, Cursor),
    ParseError,
>)
    requires
        cursor.fits(entries@),
    ensures
        match read {
            Ok((number, next)) => number_at(
                slots(entries@),
                cursor.at as int,
                cursor.scope as int,
                scope_span,
            ) == Ok::<(Number, int), Complaint>((number@, next.at as int)) && next.fits(
                entries@,
            ) && next.scope == cursor.scope && next.at > cursor.at,
            Err(error) => number_at(
                slots(entries@),
                cursor.at as int,
                cursor.scope as int,
                scope_span,
            ) == Err::<(Number, int), Complaint>(error@),
        },
{
    match cursor.look(entries) {
        Some(TokenTree::Literal { text, span }) => match read_int_literal(text.as_str()) {
            Some(read) => {
                let number = LitInt { value: fitted(read), span: *span };
                Ok((number, cursor.past(entries)))
            },
            None => Err(fail(entries, cursor, scope_span, "expected integer literal")),
        },
        Some(TokenTree::Punct { ch, span, .. }) => {
            if *ch == '-' {
                let next = cursor.past(entries);
                match next.look(entries) {
                    Some(TokenTree::Literal { text, .. }) => {
                        let signed = concat2("-", text.as_str());
                        match read_int_literal(signed.as_str()) {
                            Some(read) => {
                                let number = LitInt { value: fitted(read), span: *span };
                                Ok((number, next.past(entries)))
                            },
                            None => Err(
                                fail(entries, cursor, scope_span, "expected integer literal"),
                            ),
                        }
                    },
                    _ => Err(fail(entries, cursor, scope_span, "expected integer literal")),
                }
            } else {
                Err(fail(entries, cursor, scope_span, "expected integer literal"))
            }
        },
        _ => Err(fail(entries, cursor, scope_span, "expected integer literal")),
    }
}

/// Whether a cursor sees the given name.
pub open spec fn sees_word(buffer: Seq<Slot>, at: int, scope: int, word: Seq<char>) -> bool {
    match seen(buffer, at, scope) {
        Some(TokenTree::Ident { name, .. }) => name@ == word,
        _ => false,
    }
}

/// Whether a cursor sees `..`: two dots of which the first is joint.
pub open spec fn sees_dots(buffer: Seq<Slot>, at: int, scope: int) -> bool {
    match seen(buffer, at, scope) {
        Some(TokenTree::Punct { ch, joint, .. }) => ch == '.' && joint && sees_punct(
            buffer,
            past_seen(buffer, at, scope),
            scope,
            '.',
        ),
        _ => false,
    }
}

/// What stands before the stream that is repeated, as a value of the
/// logic: the name that stands for the number, the bounds of the range and
/// whether the upper bound belongs to it, and where the stream lies in the
/// buffer.
pub struct Head {
    pub word: Seq<char>,
    pub start: Number,
    pub end: Number,
    pub inclusive: bool,
    pub body: int,
    pub body_end: int,
}

/// The input read as `name in start .. end { stream }` or as
/// `name in start ..= end { stream }`, or the complaint about the first
/// thing that does not fit.
pub open spec fn header_of(buffer: Seq<Slot>, scope: int) -> Result<Head, Complaint> {
    let call = Span::CallSite;
    let at = settle(buffer, 0, scope);
    match name_at(buffer, at, scope, call) {
        Err(complaint) => Err(complaint),
        Ok((word, at)) => if !sees_word(buffer, at, scope, "in"@) {
            Err(complaint_at(buffer, at, scope, call, "expected `in`"@))
        } else {
            match number_at(buffer, past_seen(buffer, at, scope), scope, call) {
                Err(complaint) => Err(complaint),
                Ok((start, at)) => if !sees_dots(buffer, at, scope) {
                    Err(
                        Complaint {
                            message: "expected `..`"@,
                            span: punct_span(buffer, at, scope, call),
                        },
                    )
                } else {
                    let at = past_seen(buffer, past_seen(buffer, at, scope), scope);
                    let inclusive = sees_punct(buffer, at, scope, '=');
                    let at = if inclusive {
                        past_seen(buffer, at, scope)
                    } else {
                        at
                    };
                    match number_at(buffer, at, scope, call) {
                        Err(complaint) => Err(complaint),
                        Ok((end, at)) => if !sees_group(buffer, at, scope, Delimiter::Brace) {
                            Err(complaint_at(buffer, at, scope, call, "expected curly braces"@))
                        } else {
                            let group = enter(buffer, at, scope);
                            let body_end = close_of(buffer, group, scope);
                            let body = settle(buffer, group + 1, body_end);
                            let rest = enter(buffer, settle(buffer, body_end, scope), scope);
                            if rest < scope {
                                Err(
                                    Complaint {
                                        message: "unexpected token"@,
                                        span: span_at(buffer, rest, scope, call),
                                    },
                                )
                            } else {
                                Ok(Head { word, start, end, inclusive, body, body_end })
                            }
                        },
                    }
                },
            }
        },
    }
}

/// What stands before the stream that is repeated.
pub struct Header {
    pub ident_replace: String,
    pub start: LitInt,
    pub end: LitInt,
    pub inclusive: bool,
    /// The stream that is repeated, as a cursor into the buffer.
    pub tokens: Cursor,
}

impl View for Header {
    type V = Head;

    open spec fn view(&self) -> Head {
        Head {
            word: self.ident_replace@,
            start: self.start@,
            end: self.end@,
            inclusive: self.inclusive,
            body: self.tokens.at as int,
            body_end: self.tokens.scope as int,
        }
    }
}

fn punct_error(entries: &Vec<Entry>, cursor: Cursor, scope_span: Span, message: &str) -> (error:
    ParseError)
    requires
        cursor.fits(entries@),
    ensures
        error@ == (Complaint {
            message: message@,
            span: punct_span(slots(entries@), cursor.at as int, cursor.scope as int, scope_span),
        }),
{
    let span = match cursor.look(entries) {
        Some(TokenTree::Punct { ch, span, .. }) => {
            if *ch != '\'' {
                Some(*span)
            } else {
                None
            }
        },
        _ => None,
    };
    let span = match span {
        Some(span) => span,
        None => match cursor.tree(entries) {
            Some(tree) => tree.span(),
            None => scope_span,
        },
    };
    ParseError { message: String::from_str(message), span }
}

fn looks_at_punct(entries: &Vec<Entry>, cursor: Cursor, mark: char) -> (r: bool)
    requires
        cursor.fits(entries@),
    ensures
        r == sees_punct(slots(entries@), cursor.at as int, cursor.scope as int, mark),
{
    match cursor.look(entries) {
        Some(TokenTree::Punct { ch, .. }) => *ch == mark && *ch != '\'',
        _ => false,
    }
}

fn looks_at_group(entries: &Vec<Entry>, cursor: Cursor, delimiter: Delimiter) -> (r: bool)
    requires
        cursor.fits(entries@),
    ensures
        r == sees_group(slots(entries@), cursor.at as int, cursor.scope as int, delimiter),
{
    match cursor.look(entries) {
        Some(TokenTree::Group { delimiter: found, .. }) => *found == delimiter,
        _ => false,
    }
}

/// Reads what stands before the stream that is repeated.
pub fn parse_header(entries: &Vec<Entry>) -> (read: Result<Header, ParseError>)
    requires
        entries.len() > 0,
    ensures
        match read {
            Ok(header) => header_of(slots(entries@), entries.len() - 1) == Ok::<Head, Complaint>(
                header@,
            ) && header.tokens.fits(entries@),
            Err(error) => header_of(slots(entries@), entries.len() - 1) == Err::<Head, Complaint>(
                error@,
            ),
        },
{
    let call = Span::CallSite;
    let cursor = Cursor::begin(entries);
    let (ident_replace, cursor) = match read_name(entries, cursor, call) {
        Ok(read) => read,
        Err(error) => {
            return Err(error);
        },
    };
    let is_in = match cursor.look(entries) {
        Some(TokenTree::Ident { name, .. }) => is_word(name, "in"),
        _ => false,
    };
    if !is_in {
        return Err(fail(entries, cursor, call, "expected `in`"));
    }
    let cursor = cursor.past(entries);
    let (start, cursor) = match read_number(entries, cursor, call) {
        Ok(read) => read,
        Err(error) => {
            return Err(error);
        },
    };
    let dots = match cursor.look(entries) {
        Some(TokenTree::Punct { ch, joint, .. }) => {
            if *ch == '.' && *joint {
                looks_at_punct(entries, cursor.past(entries), '.')
            } else {
                false
            }
        },
        _ => false,
    };
    if !dots {
        return Err(punct_error(entries, cursor, call, "expected `..`"));
    }
    let cursor = cursor.past(entries).past(entries);
    let inclusive = looks_at_punct(entries, cursor, '=');
    let cursor = if inclusive {
        cursor.past(entries)
    } else {
        cursor
    };
    let (end, cursor) = match read_number(entries, cursor, call) {
        Ok(read) => read,
        Err(error) => {
            return Err(error);
        },
    };
    if !looks_at_group(entries, cursor, Delimiter::Brace) {
        return Err(fail(entries, cursor, call, "expected curly braces"));
    }
    let (tokens, after) = cursor.entered(entries).open(entries);
    let rest = after.entered(entries);
    match rest.tree(entries) {
        Some(tree) => Err(
            ParseError { message: String::from_str("unexpected token"), span: tree.span() },
        ),
        None => {
            if rest.eof() {
                Ok(Header { ident_replace, start, end, inclusive, tokens })
            } else {
                Err(ParseError { message: String::from_str("unexpected token"), span: call })
            }
        },
    }
}

/// Whether a cursor that sees `#` sees a group in round brackets behind it.
pub open spec fn section_follows(buffer: Seq<Slot>, at: int, scope: int) -> bool {
    match skipped(buffer, at, scope) {
        Some(next) => sees_group(buffer, next, scope, Delimiter::Parenthesis),
        None => false,
    }
}

/// The piece that starts at a place, and the place behind it.
///
/// `#( .. )*` is a section that is repeated. A name followed by `~` and a
/// second name is a pasted name. Any other group is read piece by piece,
/// and any other token tree stands for itself. An invisible group is a
/// group like any other, unless the cursor stepped into it to see a `#`,
/// a `~` or a name.
pub open spec fn piece_at(buffer: Seq<Slot>, at: int, scope: int, scope_span: Span) -> Result<
    (Part, int),
    Complaint,
>
    decreases scope - at, 0nat,
{
    let stuck = Err::<(Part, int), Complaint>(
        complaint_at(buffer, at, scope, scope_span, "expected token tree"@),
    );
    if at >= scope {
        stuck
    } else if sees_punct(buffer, at, scope, '#') && section_follows(buffer, at, scope) {
        let group = enter(buffer, past_seen(buffer, at, scope), scope);
        let close = close_of(buffer, group, scope);
        let inside = settle(buffer, group + 1, close);
        let after = settle(buffer, close, scope);
        if !sees_punct(buffer, after, scope, '*') {
            Err(
                Complaint {
                    message: "expected `*`"@,
                    span: punct_span(buffer, after, scope, scope_span),
                },
            )
        } else if at < inside <= close <= scope {
            match trees_at(buffer, inside, close, span_at(buffer, group, scope, scope_span)) {
                Ok(parts) => Ok(
                    (Part::Trees { to_expand: true, parts }, past_seen(buffer, after, scope)),
                ),
                Err(complaint) => Err(complaint),
            }
        } else {
            stuck
        }
    } else {
        match tree_at(buffer, at, scope) {
            None => stuck,
            Some(tree) => {
                let next = behind(buffer, at, scope);
                if sees_punct(buffer, next, scope, '~') {
                    match tree {
                        TokenTree::Ident { name, .. } => match name_at(
                            buffer,
                            past_seen(buffer, next, scope),
                            scope,
                            scope_span,
                        ) {
                            Ok((pasted, rest)) => Ok((Part::Ident(seq![name@, pasted]), rest)),
                            Err(complaint) => Err(complaint),
                        },
                        _ => Ok((Part::Raw(tree@), next)),
                    }
                } else {
                    match tree {
                        TokenTree::Group { delimiter, span, .. } => {
                            let close = close_of(buffer, at, scope);
                            let inside = settle(buffer, at + 1, close);
                            if at < inside <= close <= scope {
                                match trees_at(buffer, inside, close, Span::CallSite) {
                                    Ok(parts) => Ok(
                                        (
                                            Part::Group { delimiter, span, to_expand: false, parts },
                                            next,
                                        ),
                                    ),
                                    Err(complaint) => Err(complaint),
                                }
                            } else {
                                stuck
                            }
                        },
                        _ => Ok((Part::Raw(tree@), next)),
                    }
                }
            },
        }
    }
}

/// The pieces from a place to the end of the scope.
pub open spec fn trees_at(buffer: Seq<Slot>, at: int, scope: int, scope_span: Span) -> Result<
    Seq<Part>,
    Complaint,
>
    decreases scope - at, 1nat,
{
    if at >= scope {
        Ok(Seq::empty())
    } else {
        match piece_at(buffer, at, scope, scope_span) {
            Ok((part, next)) => if at < next <= scope {
                prepend(seq![part], trees_at(buffer, next, scope, scope_span))
            } else {
                Ok(seq![part])
            },
            Err(complaint) => Err(complaint),
        }
    }
}

/// The pieces `parts` before the pieces that follow, where those were read.
pub open spec fn prepend(parts: Seq<Part>, rest: Result<Seq<Part>, Complaint>) -> Result<
    Seq<Part>,
    Complaint,
> {
    match rest {
        Ok(more) => Ok(parts + more),
        Err(complaint) => Err(complaint),
    }
}

fn parse_piece(entries: &Vec<Entry>, cursor: Cursor, scope_span: Span) -> (read: Result<
    (SeqTokenTree, Cursor),
    ParseError,
>)
    requires
        cursor.fits(entries@),
        cursor.at < cursor.scope,
    ensures
        match read {
            Ok((piece, next)) => piece_at(
                slots(entries@),
                cursor.at as int,
                cursor.scope as int,
                scope_span,
            ) == Ok::<(Part, int), Complaint>((piece@, next.at as int)) && next.fits(entries@)
                && next.scope == cursor.scope && next.at > cursor.at,
            Err(error) => piece_at(
                slots(entries@),
                cursor.at as int,
                cursor.scope as int,
                scope_span,
            ) == Err::<(Part, int), Complaint>(error@),
        },
    decreases cursor.scope - cursor.at, 0nat,
{
    let section = if looks_at_punct(entries, cursor, '#') {
        looks_at_group(entries, cursor.past(entries), Delimiter::Parenthesis)
    } else {
        false
    };
    if section {
        let group = cursor.past(entries).entered(entries);
        let scope_of_section = match group.tree(entries) {
            Some(tree) => tree.span(),
            None => scope_span,
        };
        let (inside, after) = group.open(entries);
        if !looks_at_punct(entries, after, '*') {
            return Err(punct_error(entries, after, scope_span, "expected `*`"));
        }
        let next = after.past(entries);
        match parse_trees(entries, inside, scope_of_section) {
            Ok(trees) => {
                let piece = SeqTokenTree::Trees(
                    SeqTrees { to_expand: true, token_trees: trees.token_trees },
                );
                proof {
                    lemma_part_view(piece);
                    assert(piece_at(
                        slots(entries@),
                        cursor.at as int,
                        cursor.scope as int,
                        scope_span,
                    ) == Ok::<(Part, int), Complaint>((piece@, next.at as int)));
                }
                Ok((piece, next))
            },
            Err(error) => Err(error),
        }
    } else {
        let tree = match cursor.tree(entries) {
            Some(tree) => tree,
            None => {
                return Err(fail(entries, cursor, scope_span, "expected token tree"));
            },
        };
        let (inside, after) = cursor.open(entries);
        let next = match tree {
            TokenTree::Group { .. } => after,
            _ => cursor.past_here(entries),
        };
        if looks_at_punct(entries, next, '~') {
            match tree {
                TokenTree::Ident { name, .. } => match read_name(
                    entries,
                    next.past(entries),
                    scope_span,
                ) {
                    Ok((pasted, rest)) => {
                        let mut names: Vec<String> = Vec::new();
                        names.push(name.clone());
                        names.push(pasted);
                        let piece = SeqTokenTree::Ident(names);
                        assert(texts(names@) =~= seq![name@, pasted@]);
                        assert(piece_at(
                            slots(entries@),
                            cursor.at as int,
                            cursor.scope as int,
                            scope_span,
                        ) == Ok::<(Part, int), Complaint>((piece@, rest.at as int)));
                        Ok((piece, rest))
                    },
                    Err(error) => Err(error),
                },
                _ => {
                    let piece = SeqTokenTree::Raw(tree.duplicate());
                    assert(piece_at(
                        slots(entries@),
                        cursor.at as int,
                        cursor.scope as int,
                        scope_span,
                    ) == Ok::<(Part, int), Complaint>((piece@, next.at as int)));
                    Ok((piece, next))
                },
            }
        } else {
            match tree {
                TokenTree::Group { delimiter, span, .. } => match parse_trees(
                    entries,
                    inside,
                    Span::CallSite,
                ) {
                    Ok(trees) => {
                        let piece = SeqTokenTree::Group(
                            SeqGroup {
                                delimiter: *delimiter,
                                trees: SeqTrees { to_expand: false, token_trees: trees.token_trees },
                                span: *span,
                            },
                        );
                        proof {
                            lemma_part_view(piece);
                            assert(piece_at(
                                slots(entries@),
                                cursor.at as int,
                                cursor.scope as int,
                                scope_span,
                            ) == Ok::<(Part, int), Complaint>((piece@, next.at as int)));
                        }
                        Ok((piece, next))
                    },
                    Err(error) => Err(error),
                },
                _ => {
                    let piece = SeqTokenTree::Raw(tree.duplicate());
                    assert(piece_at(
                        slots(entries@),
                        cursor.at as int,
                        cursor.scope as int,
                        scope_span,
                    ) == Ok::<(Part, int), Complaint>((piece@, next.at as int)));
                    Ok((piece, next))
                },
            }
        }
    }
}

/// Reads the pieces from the cursor to the end of its scope.
#[verifier::loop_isolation(false)]
pub fn parse_trees(entries: &Vec<Entry>, cursor: Cursor, scope_span: Span) -> (read: Result<
    SeqTrees,
    ParseError,
>)
    requires
        cursor.fits(entries@),
    ensures
        match read {
            Ok(section) => trees_at(
                slots(entries@),
                cursor.at as int,
                cursor.scope as int,
                scope_span,
            ) == Ok::<Seq<Part>, Complaint>(parts_of(section.token_trees@))
                && !section.to_expand,
            Err(error) => trees_at(
                slots(entries@),
                cursor.at as int,
                cursor.scope as int,
                scope_span,
            ) == Err::<Seq<Part>, Complaint>(error@),
        },
    decreases cursor.scope - cursor.at, 1nat,
{
    let mut pieces: Vec<SeqTokenTree> = Vec::new();
    let mut here = cursor;
    while !here.eof()
        invariant
            here.fits(entries@),
            here.scope == cursor.scope,
            cursor.at <= here.at,
            trees_at(slots(entries@), cursor.at as int, cursor.scope as int, scope_span)
                == prepend(
                parts_of(pieces@),
                trees_at(slots(entries@), here.at as int, cursor.scope as int, scope_span),
            ),
        decreases here.scope - here.at,
    {
        let ghost before = parts_of(pieces@);
        match parse_piece(entries, here, scope_span) {
            Ok((piece, next)) => {
                pieces.push(piece);
                proof {
                    assert(parts_of(pieces@) =~= before + seq![piece@]);
                    let rest = trees_at(
                        slots(entries@),
                        next.at as int,
                        cursor.scope as int,
                        scope_span,
                    );
                    match rest {
                        Ok(more) => {
                            assert(before + (seq![piece@] + more) =~= (before + seq![piece@])
                                + more);
                        },
                        Err(_) => {},
                    }
                }
                here = next;
            },
            Err(error) => {
                return Err(error);
            },
        }
    }
    proof {
        assert(parts_of(pieces@) + Seq::<Part>::empty() =~= parts_of(pieces@));
    }
    Ok(SeqTrees { to_expand: false, token_trees: pieces })
}

} // verus!
