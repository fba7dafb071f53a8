use crate::lexer::token::Span;
use crate::lexer::token::Token;
use crate::lexer::token::TokenKind;
use crate::parser::ast::comments::Comment;
use crate::parser::ast::comments::CommentFormat;
use crate::parser::ast::identifiers::in_source_order;
use crate::parser::internal::grouping::Scope;
use vstd::prelude::*;

verus! {

/// The input with its sentinel: `input` itself where it ends in `Eof`, else
/// `input` followed by an `Eof` at the position of its last token.
pub open spec fn terminated(input: Seq<Token>) -> Seq<Token> {
    if input.len() > 0 && input.last().kind is Eof {
        input
    } else if input.len() > 0 {
        input.push(Token { kind: TokenKind::Eof, span: input.last().span })
    } else {
        input.push(Token { kind: TokenKind::Eof, span: Span { line: 1, column: 1, position: 0 } })
    }
}

/// Giving the input its sentinel keeps it in source order.
pub proof fn lemma_terminated_in_source_order(input: Seq<Token>)
    requires
        in_source_order(input),
    ensures
        in_source_order(terminated(input)),
{
    let all = terminated(input);
    assert forall|i: int, j: int|
        #![trigger all[i], all[j]]
        0 <= i <= j < all.len() implies all[i].span.position <= all[j].span.position by {
        if j < input.len() {
            assert(input[i].span.position <= input[j].span.position);
        } else if i < input.len() {
            assert(input[i].span.position <= input[input.len() - 1].span.position);
        }
    }
}

/// The index of the first token at or after `from` that is no comment.
pub open spec fn comments_end(tokens: Seq<Token>, from: int) -> int
    decreases tokens.len() - from,
{
    if 0 <= from < tokens.len() && tokens[from].kind.is_comment() {
        comments_end(tokens, from + 1)
    } else {
        from
    }
}

/// The index that `n` steps from `from` lead to. A step from an `Eof` leads
/// nowhere.
pub open spec fn ahead(tokens: Seq<Token>, from: int, n: nat) -> int
    decreases n,
{
    if n == 0 || !(0 <= from < tokens.len() - 1) || tokens[from].kind is Eof {
        from
    } else {
        ahead(tokens, from + 1, (n - 1) as nat)
    }
}

/// The format of a comment token.
pub open spec fn comment_format(kind: TokenKind) -> CommentFormat {
    match kind {
        TokenKind::MultiLineComment(_) => CommentFormat::MultiLine,
        TokenKind::HashMarkComment(_) => CommentFormat::HashMark,
        TokenKind::DocumentComment(_) => CommentFormat::Document,
        _ => CommentFormat::SingleLine,
    }
}

/// The text of a comment token.
pub open spec fn comment_content(kind: TokenKind) -> Seq<u8> {
    match kind {
        TokenKind::SingleLineComment(c) => c@,
        TokenKind::MultiLineComment(c) => c@,
        TokenKind::HashMarkComment(c) => c@,
        TokenKind::DocumentComment(c) => c@,
        _ => Seq::empty(),
    }
}

/// Whether `comment` is the node for the comment token at `index`: it starts
/// there, ends at the next token and has the token's format and text.
pub open spec fn comment_at(tokens: Seq<Token>, index: int, comment: Comment) -> bool {
    &&& comment.start == tokens[index].span
    &&& comment.end == tokens[index + 1].span
    &&& comment.format == comment_format(tokens[index].kind)
    &&& comment.content@ == comment_content(tokens[index].kind)
}

/// A cursor over the tokens, with the scope flags and the comments that
/// were met and not yet handed on.
pub struct State {
    pub tokens: Vec<Token>,
    pub position: usize,
    pub comments: Vec<Comment>,
    pub has_class_scope: bool,
    pub has_class_parent_scope: bool,
}

impl State {
    /// The tokens end in `Eof`, the cursor is on one of them and has passed
    /// no `Eof`, and the comments held come from the tokens.
    pub open spec fn wf(self) -> bool {
        &&& self.tokens@.len() > 0
        &&& self.tokens@.last().kind is Eof
        &&& self.position < self.tokens@.len()
        &&& forall|i: int| 0 <= i < self.position ==> !((#[trigger] self.tokens@[i]).kind is Eof)
        &&& forall|i: int|
            0 <= i < self.comments@.len() ==> (#[trigger] self.comments@[i]).valid(self.tokens@)
    }

    /// The kind of the current token.
    pub open spec fn kind(self) -> TokenKind {
        self.tokens@[self.position as int].kind
    }

    /// The position of the current token.
    pub open spec fn span(self) -> Span {
        self.tokens@[self.position as int].span
    }

    /// The index after one step: the cursor does not leave an `Eof`.
    pub open spec fn stepped(self) -> int {
        if self.kind() is Eof {
            self.position as int
        } else {
            self.position + 1
        }
    }

    /// The kind of the token after the current one.
    pub open spec fn peek_kind(self) -> TokenKind {
        self.tokens@[self.stepped()].kind
    }

    /// What `self`, `static` and `parent` mean at the cursor.
    pub open spec fn scope(self) -> Scope {
        Scope { class: self.has_class_scope, parent: self.has_class_parent_scope }
    }

    /// How many tokens lie at or after the cursor.
    pub open spec fn remaining(self) -> nat {
        (self.tokens@.len() - self.position) as nat
    }

    /// Whether `self` can be reached from `before` by parsing: same tokens,
    /// same scope, the cursor not moved back.
    pub open spec fn follows(self, before: State) -> bool {
        &&& self.wf()
        &&& self.tokens == before.tokens
        &&& self.position >= before.position
        &&& self.has_class_scope == before.has_class_scope
        &&& self.has_class_parent_scope == before.has_class_parent_scope
    }

    /// Starts at the first token, outside any class, with no comment held.
    pub fn new(tokens: Vec<Token>) -> (state: State)
        ensures
            state.wf(),
            state.tokens@ == terminated(tokens@),
            state.position == 0,
            state.comments@.len() == 0,
            !state.has_class_scope,
            !state.has_class_parent_scope,
    {
        let mut tokens = tokens;
        let n = tokens.len();
        if n == 0 {
            tokens.push(Token { kind: TokenKind::Eof, span: Span { line: 1, column: 1, position: 0 } });
        } else if !matches!(tokens[n - 1].kind, TokenKind::Eof) {
            let span = tokens[n - 1].span;
            tokens.push(Token { kind: TokenKind::Eof, span });
        }
        State {
            tokens,
            position: 0,
            comments: Vec::new(),
            has_class_scope: false,
            has_class_parent_scope: false,
        }
    }

    /// The current token.
    pub fn current(&self) -> (t: &Token)
        requires
            self.wf(),
        ensures
            *t == self.tokens@[self.position as int],
    {
        &self.tokens[self.position]
    }

    /// The token after the current one; on an `Eof`, that `Eof`.
    pub fn peek(&self) -> (t: &Token)
        requires
            self.wf(),
        ensures
            *t == self.tokens@[self.stepped()],
    {
        let len = self.tokens.len();
        if !matches!(self.tokens[self.position].kind, TokenKind::Eof) && self.position < len - 1 {
            &self.tokens[self.position + 1]
        } else {
            &self.tokens[self.position]
        }
    }

    /// The token `n` steps after the current one; the first `Eof` on the
    /// way where there is one.
    pub fn lookahead(&self, n: usize) -> (t: &Token)
        requires
            self.wf(),
        ensures
            *t == self.tokens@[ahead(self.tokens@, self.position as int, n as nat)],
            self.position <= ahead(self.tokens@, self.position as int, n as nat)
                < self.tokens@.len(),
    {
        let mut index: usize = self.position;
        let mut left: usize = n;
        while left > 0 && index < self.tokens.len() - 1 && !matches!(
            self.tokens[index].kind,
            TokenKind::Eof
        )
            invariant
                self.position <= index < self.tokens@.len(),
                ahead(self.tokens@, self.position as int, n as nat) == ahead(
                    self.tokens@,
                    index as int,
                    left as nat,
                ),
            decreases left,
        {
            index = index + 1;
            left = left - 1;
        }
        &self.tokens[index]
    }

    /// The first token at or after the cursor that is no comment.
    pub fn past_comments(&self) -> (t: &Token)
        requires
            self.wf(),
        ensures
            *t == self.tokens@[comments_end(self.tokens@, self.position as int)],
            self.position <= comments_end(self.tokens@, self.position as int) < self.tokens@.len(),
    {
        let mut index: usize = self.position;
        while index < self.tokens.len() - 1 && matches!(
            self.tokens[index].kind,
            TokenKind::SingleLineComment(_)
                | TokenKind::MultiLineComment(_)
                | TokenKind::HashMarkComment(_)
                | TokenKind::DocumentComment(_)
        )
            invariant
                self.wf(),
                self.position <= index < self.tokens@.len(),
                comments_end(self.tokens@, self.position as int) == comments_end(
                    self.tokens@,
                    index as int,
                ),
            decreases self.tokens@.len() - index,
        {
            index = index + 1;
        }
        &self.tokens[index]
    }

    /// Moves to the next token. On an `Eof` the cursor stays.
    pub fn next(&mut self)
        requires
            old(self).wf(),
        ensures
            final(self).follows(*old(self)),
            final(self).position == old(self).stepped(),
            !(old(self).kind() is Eof) ==> final(self).position == old(self).position + 1,
            final(self).comments == old(self).comments,
    {
        let len = self.tokens.len();
        if !matches!(self.tokens[self.position].kind, TokenKind::Eof) && self.position < len - 1 {
            self.position = self.position + 1;
        }
    }

    /// Whether the current token is `Eof`.
    pub fn is_eof(&self) -> (b: bool)
        requires
            self.wf(),
        ensures
            b == (self.kind() is Eof),
    {
        matches!(self.tokens[self.position].kind, TokenKind::Eof)
    }

    /// Whether the current token is a comment.
    pub fn at_comment(&self) -> (b: bool)
        requires
            self.wf(),
        ensures
            b == self.kind().is_comment(),
    {
        matches!(
            self.tokens[self.position].kind,
            TokenKind::SingleLineComment(_)
                | TokenKind::MultiLineComment(_)
                | TokenKind::HashMarkComment(_)
                | TokenKind::DocumentComment(_)
        )
    }

    /// Takes the comment under the cursor as a node and moves past it.
    pub fn take_comment(&mut self) -> (comment: Comment)
        requires
            old(self).wf(),
            old(self).kind().is_comment(),
        ensures
            final(self).follows(*old(self)),
            final(self).position == old(self).position + 1,
            final(self).comments == old(self).comments,
            comment_at(old(self).tokens@, old(self).position as int, comment),
            comment.valid(old(self).tokens@),
    {
        let start = self.tokens[self.position].span;
        let (format, content) = match &self.tokens[self.position].kind {
            TokenKind::SingleLineComment(c) => (CommentFormat::SingleLine, c.clone()),
            TokenKind::MultiLineComment(c) => (CommentFormat::MultiLine, c.clone()),
            TokenKind::HashMarkComment(c) => (CommentFormat::HashMark, c.clone()),
            TokenKind::DocumentComment(c) => (CommentFormat::Document, c.clone()),
            _ => (CommentFormat::SingleLine, Vec::new()),
        };
        self.next();
        let end = self.tokens[self.position].span;
        Comment { start, end, format, content }
    }

    /// Moves past the comments under the cursor and keeps them, in order,
    /// behind those already held.
    pub fn gather_comments(&mut self)
        requires
            old(self).wf(),
        ensures
            final(self).follows(*old(self)),
            final(self).position == comments_end(old(self).tokens@, old(self).position as int),
            !final(self).kind().is_comment(),
            final(self).comments@.len() == old(self).comments@.len() + final(self).position
                - old(self).position,
            forall|i: int|
                0 <= i < old(self).comments@.len() ==> final(self).comments@[i] == old(self).comments@[i],
            forall|i: int|
                old(self).position <= i < final(self).position ==> comment_at(
                    old(self).tokens@,
                    i,
                    #[trigger] final(self).comments@[old(self).comments@.len() + i - old(self).position],
                ),
    {
        while self.at_comment()
            invariant
                self.follows(*old(self)),
                comments_end(self.tokens@, self.position as int) == comments_end(
                    old(self).tokens@,
                    old(self).position as int,
                ),
                self.comments@.len() == old(self).comments@.len() + self.position - old(self).position,
                forall|i: int|
                    0 <= i < old(self).comments@.len() ==> self.comments@[i] == old(self).comments@[i],
                forall|i: int|
                    old(self).position <= i < self.position ==> comment_at(
                        old(self).tokens@,
                        i,
                        #[trigger] self.comments@[old(self).comments@.len() + i - old(self).position],
                    ),
            decreases self.remaining(),
        {
            let comment = self.take_comment();
            self.comments.push(comment);
        }
    }

    /// Moves past the comments under the cursor and drops them.
    pub fn skip_comments(&mut self)
        requires
            old(self).wf(),
        ensures
            final(self).follows(*old(self)),
            final(self).position == comments_end(old(self).tokens@, old(self).position as int),
            !final(self).kind().is_comment(),
            final(self).comments == old(self).comments,
    {
        while self.at_comment()
            invariant
                self.follows(*old(self)),
                self.comments == old(self).comments,
                comments_end(self.tokens@, self.position as int) == comments_end(
                    old(self).tokens@,
                    old(self).position as int,
                ),
            decreases self.remaining(),
        {
            self.next();
        }
    }

    /// Drops the comments held.
    pub fn clear_comments(&mut self)
        requires
            old(self).wf(),
        ensures
            final(self).follows(*old(self)),
            final(self).position == old(self).position,
            final(self).comments@.len() == 0,
    {
        self.comments = Vec::new();
    }
}

} // verus!
