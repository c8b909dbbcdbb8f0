//! Recursive-descent parser from tokens to the syntax tree.
use vstd::prelude::*;

use crate::ast::{
    ActionDecl, AstModule, BinaryOp, BindingPattern, BindingPatternKind, CallArg,
    ConditionalBranch, ConstDecl, Decl, EnumDecl, EnumVariant, Expr, ExprKind, ExternDecl,
    FieldDecl, ImportDecl, ImportKind, MatchArm, ModuleDecl, ModuleName, NodeId, Param, Pattern,
    PatternKind, PatternLiteral, Purity, RecordBindingField, RecordDecl, RecordPatternField, Stmt,
    StmtKind, Target, TestDecl, TypeRef, UnaryOp, VariantField,
};
use crate::diagnostics::{failure_of, one, Diagnostic, Phase, SourceSpan};
use crate::lexer::{operator_token, well_formed_stream, SpannedToken, Token};
use crate::metadata::binary_op_word;
use crate::text::{concat, concat3, str_eq};

verus! {

/// A parse step either succeeds or reports one parse diagnostic.
pub open spec fn parse_outcome<T>(r: Result<T, Vec<Diagnostic>>) -> bool {
    r matches Err(ds) ==> failure_of(ds@, Phase::Parse) && ds@.len() == 1
}

/// The expression a single token stands for on its own: a name or a
/// literal other than text and decimals.
pub open spec fn atom_kind(t: Token) -> Option<ExprKind> {
    match t {
        Token::Identifier(n) => Some(ExprKind::Name(n)),
        Token::IntLiteral(v) => Some(ExprKind::Int(v)),
        Token::True => Some(ExprKind::Bool(true)),
        Token::False => Some(ExprKind::Bool(false)),
        Token::NoneKeyword => Some(ExprKind::NoneLiteral),
        _ => None,
    }
}

/// A token that no expression goes on past: a line break, the end of
/// input, a closing bracket, a comma or a colon.
pub open spec fn ends_expression(t: Token) -> bool {
    t is Newline || t is Eof || t is RParen || t is RBracket || t is Comma || t is Colon
}


/// How loosely a binary operator token binds, from `or` (1) to `*`, `/`
/// and `%` (6); 0 for a token that is no binary operator.
pub open spec fn op_level(t: Token) -> int {
    match t {
        Token::Or => 1,
        Token::And => 2,
        Token::EqualEqual | Token::NotEqual => 3,
        Token::Less | Token::LessEqual | Token::Greater | Token::GreaterEqual => 4,
        Token::Plus | Token::Minus => 5,
        Token::Star | Token::Slash | Token::Percent => 6,
        _ => 0,
    }
}

/// Each binary operator, written out, reads back as its own token.
proof fn lemma_operator_words()
    ensures
        operator_token(binary_op_word(BinaryOp::Add)) == Some(Token::Plus),
        operator_token(binary_op_word(BinaryOp::Subtract)) == Some(Token::Minus),
        operator_token(binary_op_word(BinaryOp::Multiply)) == Some(Token::Star),
        operator_token(binary_op_word(BinaryOp::Divide)) == Some(Token::Slash),
        operator_token(binary_op_word(BinaryOp::Modulo)) == Some(Token::Percent),
        operator_token(binary_op_word(BinaryOp::Equal)) == Some(Token::EqualEqual),
        operator_token(binary_op_word(BinaryOp::NotEqual)) == Some(Token::NotEqual),
        operator_token(binary_op_word(BinaryOp::Less)) == Some(Token::Less),
        operator_token(binary_op_word(BinaryOp::LessEqual)) == Some(Token::LessEqual),
        operator_token(binary_op_word(BinaryOp::Greater)) == Some(Token::Greater),
        operator_token(binary_op_word(BinaryOp::GreaterEqual)) == Some(Token::GreaterEqual),
        operator_token(binary_op_word(BinaryOp::And)) == Some(Token::And),
        operator_token(binary_op_word(BinaryOp::Or)) == Some(Token::Or),
{
    reveal_strlit("+");
    reveal_strlit("-");
    reveal_strlit("*");
    reveal_strlit("/");
    reveal_strlit("%");
    reveal_strlit("==");
    reveal_strlit("!=");
    reveal_strlit("<");
    reveal_strlit("<=");
    reveal_strlit(">");
    reveal_strlit(">=");
    reveal_strlit("and");
    reveal_strlit("or");
    reveal_strlit("action");
    reveal_strlit("as");
    reveal_strlit("break");
    reveal_strlit("const");
    reveal_strlit("continue");
    reveal_strlit("each");
    reveal_strlit("elif");
    reveal_strlit("else");
    reveal_strlit("enum");
    reveal_strlit("expect");
    reveal_strlit("extern");
    reveal_strlit("for");
    reveal_strlit("from");
    reveal_strlit("if");
    reveal_strlit("import");
    reveal_strlit("impure");
    reveal_strlit("in");
    reveal_strlit("let");
    reveal_strlit("match");
    reveal_strlit("module");
    reveal_strlit("pure");
    reveal_strlit("record");
    reveal_strlit("return");
    reveal_strlit("test");
    reveal_strlit("var");
    reveal_strlit("while");
    assert("and"@ != "module"@) by {
        assert("and"@.len() != "module"@.len());
    }
    assert("and"@ != "import"@) by {
        assert("and"@.len() != "import"@.len());
    }
    assert("and"@ != "as"@) by {
        assert("and"@.len() != "as"@.len());
    }
    assert("and"@ != "from"@) by {
        assert("and"@.len() != "from"@.len());
    }
    assert("and"@ != "const"@) by {
        assert("and"@.len() != "const"@.len());
    }
    assert("and"@ != "record"@) by {
        assert("and"@.len() != "record"@.len());
    }
    assert("and"@ != "enum"@) by {
        assert("and"@.len() != "enum"@.len());
    }
    assert("and"@ != "extern"@) by {
        assert("and"@.len() != "extern"@.len());
    }
    assert("and"@ != "pure"@) by {
        assert("and"@.len() != "pure"@.len());
    }
    assert("and"@ != "impure"@) by {
        assert("and"@.len() != "impure"@.len());
    }
    assert("and"@ != "action"@) by {
        assert("and"@.len() != "action"@.len());
    }
    assert("and"@ != "test"@) by {
        assert("and"@.len() != "test"@.len());
    }
    assert("and"@ != "let"@) by {
        assert("and"@[0] != "let"@[0]);
    }
    assert("and"@ != "var"@) by {
        assert("and"@[0] != "var"@[0]);
    }
    assert("and"@ != "if"@) by {
        assert("and"@.len() != "if"@.len());
    }
    assert("and"@ != "elif"@) by {
        assert("and"@.len() != "elif"@.len());
    }
    assert("and"@ != "else"@) by {
        assert("and"@.len() != "else"@.len());
    }
    assert("and"@ != "while"@) by {
        assert("and"@.len() != "while"@.len());
    }
    assert("and"@ != "for"@) by {
        assert("and"@[0] != "for"@[0]);
    }
    assert("and"@ != "each"@) by {
        assert("and"@.len() != "each"@.len());
    }
    assert("and"@ != "in"@) by {
        assert("and"@.len() != "in"@.len());
    }
    assert("and"@ != "match"@) by {
        assert("and"@.len() != "match"@.len());
    }
    assert("and"@ != "return"@) by {
        assert("and"@.len() != "return"@.len());
    }
    assert("and"@ != "break"@) by {
        assert("and"@.len() != "break"@.len());
    }
    assert("and"@ != "continue"@) by {
        assert("and"@.len() != "continue"@.len());
    }
    assert("and"@ != "expect"@) by {
        assert("and"@.len() != "expect"@.len());
    }
    assert("or"@ != "module"@) by {
        assert("or"@.len() != "module"@.len());
    }
    assert("or"@ != "import"@) by {
        assert("or"@.len() != "import"@.len());
    }
    assert("or"@ != "as"@) by {
        assert("or"@[0] != "as"@[0]);
    }
    assert("or"@ != "from"@) by {
        assert("or"@.len() != "from"@.len());
    }
    assert("or"@ != "const"@) by {
        assert("or"@.len() != "const"@.len());
    }
    assert("or"@ != "record"@) by {
        assert("or"@.len() != "record"@.len());
    }
    assert("or"@ != "enum"@) by {
        assert("or"@.len() != "enum"@.len());
    }
    assert("or"@ != "extern"@) by {
        assert("or"@.len() != "extern"@.len());
    }
    assert("or"@ != "pure"@) by {
        assert("or"@.len() != "pure"@.len());
    }
    assert("or"@ != "impure"@) by {
        assert("or"@.len() != "impure"@.len());
    }
    assert("or"@ != "action"@) by {
        assert("or"@.len() != "action"@.len());
    }
    assert("or"@ != "test"@) by {
        assert("or"@.len() != "test"@.len());
    }
    assert("or"@ != "let"@) by {
        assert("or"@.len() != "let"@.len());
    }
    assert("or"@ != "var"@) by {
        assert("or"@.len() != "var"@.len());
    }
    assert("or"@ != "if"@) by {
        assert("or"@[0] != "if"@[0]);
    }
    assert("or"@ != "elif"@) by {
        assert("or"@.len() != "elif"@.len());
    }
    assert("or"@ != "else"@) by {
        assert("or"@.len() != "else"@.len());
    }
    assert("or"@ != "while"@) by {
        assert("or"@.len() != "while"@.len());
    }
    assert("or"@ != "for"@) by {
        assert("or"@.len() != "for"@.len());
    }
    assert("or"@ != "each"@) by {
        assert("or"@.len() != "each"@.len());
    }
    assert("or"@ != "in"@) by {
        assert("or"@[0] != "in"@[0]);
    }
    assert("or"@ != "match"@) by {
        assert("or"@.len() != "match"@.len());
    }
    assert("or"@ != "return"@) by {
        assert("or"@.len() != "return"@.len());
    }
    assert("or"@ != "break"@) by {
        assert("or"@.len() != "break"@.len());
    }
    assert("or"@ != "continue"@) by {
        assert("or"@.len() != "continue"@.len());
    }
    assert("or"@ != "expect"@) by {
        assert("or"@.len() != "expect"@.len());
    }
    assert("or"@ != "and"@) by {
        assert("or"@.len() != "and"@.len());
    }
}

/// Parses a token stream into a module, an expression or a statement.
pub struct Parser {
    path: String,
    tokens: Vec<SpannedToken>,
    position: usize,
    next_node_id: NodeId,
    action_body_depth: usize,
}

impl Parser {
    /// The parser stands on a token of a stream that ends with `Eof`.
    pub closed spec fn wf(&self) -> bool {
        &&& self.tokens@.len() > 0
        &&& self.tokens@.last().token matches Token::Eof
        &&& self.position < self.tokens@.len()
        &&& self.action_body_depth <= 1
    }

    /// The parser is outside any action body.
    pub closed spec fn at_top_level(&self) -> bool {
        self.action_body_depth == 0
    }

    /// How many tokens are left, the current one included.
    pub closed spec fn remaining(&self) -> int {
        self.tokens@.len() - self.position
    }

    /// The token the parser stands on.
    pub closed spec fn cur(&self) -> Token {
        self.tokens@[self.position as int].token
    }

    /// Whether every token from the current one on is a line break or the
    /// end of input.
    pub closed spec fn rest_is_blank(&self) -> bool {
        forall|k: int| self.position <= k < self.tokens@.len() ==> (#[trigger] self.tokens@[k]).token is Newline
            || self.tokens@[k].token is Eof
    }

    /// Whether the stream holds a token `k` places after the current one.
    pub closed spec fn has_ahead(&self, k: int) -> bool {
        0 <= self.position + k < self.tokens@.len()
    }

    /// The token `k` places after the current one.
    pub closed spec fn ahead(&self, k: int) -> Token {
        self.tokens@[self.position + k].token
    }

    /// The parser stands on a name or literal followed by a token that ends
    /// an expression or by a binary operator that binds more loosely than
    /// those of `level`.
    pub open spec fn term_ahead(&self, level: int) -> bool {
        &&& self.has_ahead(1)
        &&& atom_kind(self.ahead(0)) is Some
        &&& ends_expression(self.ahead(1)) || (0 < op_level(self.ahead(1)) && op_level(self.ahead(1)) < level)
    }

    /// The parser stands on `x op y`, with `x` and `y` names or literals and
    /// `op` a binary operator of `level` or one that binds more tightly,
    /// followed by a token that ends an expression.
    pub open spec fn binary_ahead(&self, level: int) -> bool {
        &&& self.has_ahead(3)
        &&& atom_kind(self.ahead(0)) is Some
        &&& op_level(self.ahead(1)) >= level
        &&& atom_kind(self.ahead(2)) is Some
        &&& ends_expression(self.ahead(3))
    }

    /// `e` is the expression that `binary_ahead` describes: its operator,
    /// written out, reads back as the token between its operands.
    pub open spec fn is_binary_read(&self, e: Expr) -> bool {
        &&& e.kind matches ExprKind::Binary { left, op, right }
        &&& Some(left.kind) == atom_kind(self.ahead(0))
        &&& Some(right.kind) == atom_kind(self.ahead(2))
        &&& operator_token(binary_op_word(op)) == Some(self.ahead(1))
    }

    /// The span of the current token.
    pub closed spec fn current_span_spec(&self) -> SourceSpan {
        self.tokens@[self.position as int].span
    }

    /// `new` is `old` after some tokens were consumed.
    pub closed spec fn moved(old: Parser, new: Parser) -> bool {
        &&& new.wf()
        &&& new.tokens == old.tokens
        &&& new.path == old.path
        &&& new.action_body_depth == old.action_body_depth
        &&& old.position <= new.position
    }

    /// A parser over `tokens`, read from `path`, at the first token.
    pub fn new(path: &str, tokens: Vec<SpannedToken>) -> (r: Self)
        ensures
            well_formed_stream(tokens@) ==> r.wf(),
            r.at_top_level(),
            r.remaining() == tokens@.len(),
    {
        Parser {
            path: String::from_str(path),
            tokens,
            position: 0,
            next_node_id: 1,
            action_body_depth: 0,
        }
    }

    /// Parses a whole module: an optional `module` declaration, imports and
    /// top-level declarations, up to `Eof`.
    pub fn parse_module(self) -> (r: Result<AstModule, Vec<Diagnostic>>)
        requires
            self.wf(),
            self.at_top_level(),
        ensures
            parse_outcome(r),
            r matches Ok(m) ==> m.imports_well_formed(),
            r matches Ok(m) ==> m.span == self.current_span_spec(),
            self.rest_is_blank() ==> (r matches Ok(m) && m.module_decl is None && m.imports@.len() == 0
                && m.declarations@.len() == 0),
    {
        let ghost start = self;
        let mut this = self;
        let span = this.current_span();
        let mut module_decl: Option<ModuleDecl> = None;
        let mut imports: Vec<ImportDecl> = Vec::new();
        let mut declarations: Vec<Decl> = Vec::new();
        this.skip_newlines();
        proof {
            if start.rest_is_blank() {
                assert(this.tokens@[this.position as int].token is Newline || this.tokens@[this.position as int].token is Eof);
            }
        }
        if this.at(&Token::Eof) {
            return Ok(AstModule { module_decl, imports, declarations, span });
        }
        while !this.at(&Token::Eof)
            invariant
                this.wf(),
                this.action_body_depth == 0,
                forall|i: int| 0 <= i < imports@.len() ==> (#[trigger] imports@[i]).well_formed(),
                span == start.current_span_spec(),
                !start.rest_is_blank(),
                start == self,
            decreases this.remaining(),
        {
            if this.at(&Token::Module) {
                if module_decl.is_some() {
                    return this.fail("module declaration may only appear once");
                }
                module_decl = Some(this.parse_module_decl()?);
            } else if this.at(&Token::Import) || this.at(&Token::From) {
                let d = this.parse_import_decl()?;
                imports.push(d);
            } else {
                let d = this.parse_decl()?;
                declarations.push(d);
            }
            this.skip_newlines();
        }
        Ok(AstModule { module_decl, imports, declarations, span })
    }

    /// Parses a single expression that must span the whole input.
    pub fn parse_expression(self) -> (r: Result<Expr, Vec<Diagnostic>>)
        requires
            self.wf(),
        ensures
            parse_outcome(r),
            self.binary_ahead(1) && (self.ahead(3) is Eof || (self.ahead(3) is Newline && self.has_ahead(4) && self.ahead(4) is Eof))
                ==> (r matches Ok(e) && self.is_binary_read(e)),
    {
        let ghost start = self;
        let mut this = self;
        this.skip_newlines();
        proof {
            if start.binary_ahead(1) {
                assert(this.position == start.position);
            }
        }
        let expr = this.parse_expr()?;
        let ghost mid = this.position;
        this.skip_newlines();
        proof {
            if start.binary_ahead(1) && start.ahead(3) is Newline && start.has_ahead(4) && start.ahead(4) is Eof {
                assert(mid == start.position + 3);
                if this.position > mid + 1 {
                    assert(this.tokens@[mid + 1].token is Newline);
                }
                assert(this.position == mid + 1);
            }
        }
        if !this.at(&Token::Eof) {
            return this.fail("expected end of input after expression");
        }
        Ok(expr)
    }

    /// Parses a single statement that must span the whole input.
    pub fn parse_statement(self) -> (r: Result<Stmt, Vec<Diagnostic>>)
        requires
            self.wf(),
        ensures
            parse_outcome(r),
    {
        let mut this = self;
        this.skip_newlines();
        let stmt = this.parse_stmt()?;
        this.skip_newlines();
        if !this.at(&Token::Eof) {
            return this.fail("expected end of input after statement");
        }
        Ok(stmt)
    }

    // ---------------------------------------------------------------------
    // Token-level helpers

    fn current_token(&self) -> (r: &Token)
        requires
            self.wf(),
        ensures
            *r == self.cur(),
    {
        &self.tokens[self.position].token
    }

    fn peek_token(&self) -> (r: Option<&Token>)
        requires
            self.wf(),
        ensures
            self.position + 1 < self.tokens@.len() ==> r == Some(
                &self.tokens@[self.position + 1].token,
            ),
            self.position + 1 >= self.tokens@.len() ==> r is None,
    {
        let n = self.tokens.len();
        if self.position + 1 < n {
            Some(&self.tokens[self.position + 1].token)
        } else {
            None
        }
    }

    fn token_at(&self, index: usize) -> (r: Option<&Token>)
        ensures
            index < self.tokens@.len() ==> r == Some(&self.tokens@[index as int].token),
            index >= self.tokens@.len() ==> r is None,
    {
        if index < self.tokens.len() {
            Some(&self.tokens[index].token)
        } else {
            None
        }
    }

    fn at(&self, token: &Token) -> (r: bool)
        requires
            self.wf(),
        ensures
            r == (self.cur().tag() == token.tag()),
    {
        self.current_token().same_variant(token)
    }

    fn current_span(&self) -> (r: SourceSpan)
        requires
            self.wf(),
        ensures
            r == self.tokens@[self.position as int].span,
    {
        self.tokens[self.position].span.duplicate()
    }

    fn error_here(&self, message: String) -> (r: Diagnostic)
        requires
            self.wf(),
        ensures
            r.phase == Phase::Parse,
            r.message == message,
    {
        Diagnostic::new(self.current_span(), Phase::Parse, message)
    }

    fn fail<T>(&self, message: &str) -> (r: Result<T, Vec<Diagnostic>>)
        requires
            self.wf(),
        ensures
            r is Err,
            parse_outcome(r),
    {
        Err(one(self.error_here(String::from_str(message))))
    }

    fn fail_owned<T>(&self, message: String) -> (r: Result<T, Vec<Diagnostic>>)
        requires
            self.wf(),
        ensures
            r is Err,
            parse_outcome(r),
    {
        Err(one(self.error_here(message)))
    }

    proof fn lemma_not_eof_has_next(&self)
        requires
            self.wf(),
            !(self.cur() matches Token::Eof),
        ensures
            self.position + 1 < self.tokens@.len(),
    {
        assert(self.tokens@.last() == self.tokens@[self.tokens@.len() - 1]);
    }

    fn bump(&mut self)
        requires
            old(self).wf(),
        ensures
            Self::moved(*old(self), *final(self)),
            final(self).next_node_id == old(self).next_node_id,
            !(old(self).cur() matches Token::Eof) ==> final(self).position == old(self).position
                + 1,
    {
        let n = self.tokens.len();
        if self.position + 1 < n {
            self.position = self.position + 1;
        }
        proof {
            if !(old(self).cur() matches Token::Eof) {
                old(self).lemma_not_eof_has_next();
            }
        }
    }

    fn alloc_node_id(&mut self) -> (r: NodeId)
        ensures
            r == old(self).next_node_id,
            final(self).position == old(self).position,
            final(self).tokens == old(self).tokens,
            final(self).path == old(self).path,
            final(self).action_body_depth == old(self).action_body_depth,
    {
        let id = self.next_node_id;
        self.next_node_id = self.next_node_id.wrapping_add(1);
        id
    }

    fn expr(&mut self, span: SourceSpan, kind: ExprKind) -> (r: Expr)
        ensures
            r.span == span,
            r.kind == kind,
            final(self).position == old(self).position,
            final(self).tokens == old(self).tokens,
            final(self).path == old(self).path,
            final(self).action_body_depth == old(self).action_body_depth,
    {
        let id = self.alloc_node_id();
        Expr { id, kind, span }
    }

    fn expect_simple(&mut self, expected: Token, message: &str) -> (r: Result<SourceSpan, Vec<Diagnostic>>)
        requires
            old(self).wf(),
            !(expected matches Token::Eof),
        ensures
            Self::moved(*old(self), *final(self)),
            r is Ok <==> old(self).cur().tag() == expected.tag(),
            r is Ok ==> final(self).position == old(self).position + 1,
            r matches Ok(s) ==> s == old(self).tokens@[old(self).position as int].span,
            parse_outcome(r),
    {
        if self.at(&expected) {
            let span = self.current_span();
            self.bump();
            Ok(span)
        } else {
            self.fail(message)
        }
    }

    fn expect_simple_owned(&mut self, expected: Token, message: String) -> (r: Result<SourceSpan, Vec<Diagnostic>>)
        requires
            old(self).wf(),
            !(expected matches Token::Eof),
        ensures
            Self::moved(*old(self), *final(self)),
            r is Ok <==> old(self).cur().tag() == expected.tag(),
            r is Ok ==> final(self).position == old(self).position + 1,
            parse_outcome(r),
    {
        if self.at(&expected) {
            let span = self.current_span();
            self.bump();
            Ok(span)
        } else {
            self.fail_owned(message)
        }
    }

    fn expect_identifier(&mut self, message: &str) -> (r: Result<String, Vec<Diagnostic>>)
        requires
            old(self).wf(),
        ensures
            Self::moved(*old(self), *final(self)),
            r is Ok ==> final(self).position == old(self).position + 1,
            r matches Ok(name) ==> old(self).cur() matches Token::Identifier(n) && n == name,
            (old(self).cur() matches Token::Identifier(_)) ==> r is Ok,
            parse_outcome(r),
    {
        match self.current_token() {
            Token::Identifier(name) => {
                let name = name.clone();
                self.bump();
                Ok(name)
            },
            _ => self.fail(message),
        }
    }

    fn expect_string_literal(&mut self, message: &str) -> (r: Result<String, Vec<Diagnostic>>)
        requires
            old(self).wf(),
        ensures
            Self::moved(*old(self), *final(self)),
            r is Ok ==> final(self).position == old(self).position + 1,
            r matches Ok(text) ==> old(self).cur() matches Token::StringLiteral(t) && t == text,
            parse_outcome(r),
    {
        match self.current_token() {
            Token::StringLiteral(value) => {
                let value = value.clone();
                self.bump();
                Ok(value)
            },
            _ => self.fail(message),
        }
    }

    fn expect_newline(&mut self, message: &str) -> (r: Result<(), Vec<Diagnostic>>)
        requires
            old(self).wf(),
        ensures
            Self::moved(*old(self), *final(self)),
            r is Ok ==> final(self).position > old(self).position,
            r is Ok ==> !(final(self).cur() matches Token::Newline),
            parse_outcome(r),
    {
        self.expect_simple(Token::Newline, message)?;
        self.skip_newlines();
        Ok(())
    }

    fn skip_newlines(&mut self)
        requires
            old(self).wf(),
        ensures
            Self::moved(*old(self), *final(self)),
            !(final(self).cur() matches Token::Newline),
            forall|k: int| old(self).position <= k < final(self).position ==> (#[trigger] final(self).tokens@[k]).token is Newline,
    {
        while self.at(&Token::Newline)
            invariant
                Self::moved(*old(self), *self),
                forall|k: int| old(self).position <= k < self.position ==> (#[trigger] self.tokens@[k]).token is Newline,
            decreases self.remaining(),
        {
            self.bump();
        }
    }

    fn ensure_action_body_context(&self, construct: &str) -> (r: Result<(), Vec<Diagnostic>>)
        requires
            self.wf(),
        ensures
            r is Ok <==> self.action_body_depth != 0,
            parse_outcome(r),
    {
        if self.action_body_depth == 0 {
            self.fail_owned(concat(construct, " are only allowed inside action bodies"))
        } else {
            Ok(())
        }
    }

    // ---------------------------------------------------------------------
    // Declarations

    fn parse_module_decl(&mut self) -> (r: Result<ModuleDecl, Vec<Diagnostic>>)
        requires
            old(self).wf(),
        ensures
            Self::moved(*old(self), *final(self)),
            r is Ok ==> final(self).position > old(self).position,
            parse_outcome(r),
    {
        let span = self.expect_simple(Token::Module, "expected `module`")?;
        let name = self.parse_module_name()?;
        self.expect_newline("expected newline after module declaration")?;
        Ok(ModuleDecl { name, span })
    }

    fn parse_import_decl(&mut self) -> (r: Result<ImportDecl, Vec<Diagnostic>>)
        requires
            old(self).wf(),
        ensures
            r matches Ok(d) ==> d.well_formed(),
            Self::moved(*old(self), *final(self)),
            r is Ok ==> final(self).position > old(self).position,
            parse_outcome(r),
    {
        let span = self.current_span();
        if self.at(&Token::Import) {
            self.bump();
            let module = self.parse_module_name()?;
            let alias = if self.at(&Token::As) {
                self.bump();
                Some(self.expect_identifier("expected alias name after `as`")?)
            } else {
                None
            };
            self.expect_newline("expected newline after import")?;
            Ok(ImportDecl { kind: ImportKind::Module { module, alias }, span })
        } else {
            self.expect_simple(Token::From, "expected `from`")?;
            let module = self.parse_module_name()?;
            self.expect_simple(Token::Import, "expected `import` in from-import declaration")?;
            let mut names: Vec<String> = Vec::new();
            let first = self.expect_identifier("expected imported symbol name")?;
            names.push(first);
            while self.at(&Token::Comma)
                invariant
                    Self::moved(*old(self), *self),
                    self.position > old(self).position,
                decreases self.remaining(),
            {
                self.bump();
                let name = self.expect_identifier("expected imported symbol name")?;
                names.push(name);
            }
            self.expect_newline("expected newline after import")?;
            Ok(ImportDecl { kind: ImportKind::From { module, names }, span })
        }
    }

    fn parse_decl(&mut self) -> (r: Result<Decl, Vec<Diagnostic>>)
        requires
            old(self).wf(),
            old(self).action_body_depth == 0,
        ensures
            Self::moved(*old(self), *final(self)),
            r is Ok ==> final(self).position > old(self).position,
            parse_outcome(r),
    {
        if self.at(&Token::Const) {
            Ok(Decl::Const(self.parse_const_decl()?))
        } else if self.at(&Token::Record) {
            Ok(Decl::Record(self.parse_record_decl()?))
        } else if self.at(&Token::Enum) {
            Ok(Decl::Enum(self.parse_enum_decl()?))
        } else if self.at(&Token::Extern) {
            Ok(Decl::Extern(self.parse_extern_decl()?))
        } else if self.at(&Token::Action) {
            Ok(Decl::Action(self.parse_action_decl()?))
        } else if self.at(&Token::Test) {
            Ok(Decl::Test(self.parse_test_decl()?))
        } else if self.at(&Token::Intent) || self.at(&Token::Explain) || self.at(&Token::Step)
            || self.at(&Token::Requires) || self.at(&Token::Ensures) || self.at(&Token::Example) {
            self.fail("semantic-layer constructs are only allowed inside action bodies")
        } else if self.at(&Token::Meaning) {
            self.fail(
                "`meaning:` annotations are only allowed beneath record field declarations",
            )
        } else {
            self.fail("expected a top-level declaration")
        }
    }

    fn parse_const_decl(&mut self) -> (r: Result<ConstDecl, Vec<Diagnostic>>)
        requires
            old(self).wf(),
        ensures
            Self::moved(*old(self), *final(self)),
            r is Ok ==> final(self).position > old(self).position,
            parse_outcome(r),
    {
        let span = self.expect_simple(Token::Const, "expected `const`")?;
        let name = self.expect_identifier("expected constant name")?;
        self.expect_simple(Token::Colon, "expected `:` after constant name")?;
        let ty = self.parse_type()?;
        self.expect_simple(Token::Assign, "expected `=` in constant declaration")?;
        let value = self.parse_expr()?;
        self.expect_newline("expected newline after constant declaration")?;
        Ok(ConstDecl { name, ty, value, span })
    }

    fn parse_record_decl(&mut self) -> (r: Result<RecordDecl, Vec<Diagnostic>>)
        requires
            old(self).wf(),
        ensures
            Self::moved(*old(self), *final(self)),
            r is Ok ==> final(self).position > old(self).position,
            parse_outcome(r),
    {
        let span = self.expect_simple(Token::Record, "expected `record`")?;
        let name = self.expect_identifier("expected record name")?;
        self.expect_simple(Token::Colon, "expected `:` after record name")?;
        self.expect_newline("expected newline after record header")?;
        self.expect_simple(Token::Indent, "expected an indented record body")?;
        let mut fields: Vec<FieldDecl> = Vec::new();
        while !self.at(&Token::Dedent) && !self.at(&Token::Eof)
            invariant
                Self::moved(*old(self), *self),
                self.position > old(self).position,
            decreases self.remaining(),
        {
            let field_span = self.current_span();
            let field_name = self.expect_identifier("expected record field name")?;
            self.expect_simple(Token::Colon, "expected `:` after field name")?;
            let field_type = self.parse_type()?;
            self.expect_newline("expected newline after field declaration")?;
            let meaning = if self.at(&Token::Indent) {
                self.bump();
                self.expect_simple(Token::Meaning, "expected `meaning:` annotation")?;
                self.expect_simple(Token::Colon, "expected `:` after `meaning`")?;
                let meaning = self.expect_string_literal(
                    "expected text literal after `meaning:`",
                )?;
                self.expect_newline("expected newline after `meaning:` annotation")?;
                self.expect_simple(
                    Token::Dedent,
                    "expected dedent after record field annotation block",
                )?;
                Some(meaning)
            } else {
                None
            };
            fields.push(FieldDecl { name: field_name, ty: field_type, meaning, span: field_span });
        }
        self.expect_simple(Token::Dedent, "expected dedent after record body")?;
        Ok(RecordDecl { name, fields, span })
    }

    fn parse_enum_decl(&mut self) -> (r: Result<EnumDecl, Vec<Diagnostic>>)
        requires
            old(self).wf(),
        ensures
            Self::moved(*old(self), *final(self)),
            r is Ok ==> final(self).position > old(self).position,
            parse_outcome(r),
    {
        let span = self.expect_simple(Token::Enum, "expected `enum`")?;
        let name = self.expect_identifier("expected enum name")?;
        self.expect_simple(Token::Colon, "expected `:` after enum name")?;
        self.expect_newline("expected newline after enum header")?;
        self.expect_simple(Token::Indent, "expected an indented enum body")?;
        let mut variants: Vec<EnumVariant> = Vec::new();
        while !self.at(&Token::Dedent) && !self.at(&Token::Eof)
            invariant
                Self::moved(*old(self), *self),
                self.position > old(self).position,
            decreases self.remaining(),
        {
            let ghost iteration_start = self.position;
            let variant_span = self.current_span();
            let variant_name = self.expect_identifier("expected enum variant name")?;
            let mut fields: Vec<VariantField> = Vec::new();
            if self.at(&Token::LParen) {
                self.bump();
                if !self.at(&Token::RParen) {
                    loop
                        invariant
                            Self::moved(*old(self), *self),
                            self.position > iteration_start,
                            iteration_start >= old(self).position,
                        decreases self.remaining(),
                    {
                        let field_span = self.current_span();
                        let field_name = self.expect_identifier("expected variant field name")?;
                        self.expect_simple(Token::Colon, "expected `:` after variant field name")?;
                        let field_type = self.parse_type()?;
                        fields.push(VariantField { name: field_name, ty: field_type, span: field_span });
                        if !self.at(&Token::Comma) {
                            break;
                        }
                        self.bump();
                    }
                }
                self.expect_simple(Token::RParen, "expected `)` after variant fields")?;
            }
            self.expect_newline("expected newline after enum variant")?;
            variants.push(EnumVariant { name: variant_name, fields, span: variant_span });
        }
        self.expect_simple(Token::Dedent, "expected dedent after enum body")?;
        Ok(EnumDecl { name, variants, span })
    }

    fn parse_extern_decl(&mut self) -> (r: Result<ExternDecl, Vec<Diagnostic>>)
        requires
            old(self).wf(),
        ensures
            Self::moved(*old(self), *final(self)),
            r is Ok ==> final(self).position > old(self).position,
            parse_outcome(r),
    {
        let span = self.expect_simple(Token::Extern, "expected `extern`")?;
        let purity = if self.at(&Token::Pure) {
            self.bump();
            Some(Purity::Pure)
        } else if self.at(&Token::Impure) {
            self.bump();
            Some(Purity::Impure)
        } else {
            None
        };
        self.expect_simple(Token::Action, "expected `action` in extern declaration")?;
        let name = self.expect_identifier("expected extern action name")?;
        let params = self.parse_params()?;
        self.expect_simple(Token::Arrow, "expected `->` in extern declaration")?;
        let return_type = self.parse_type()?;
        self.expect_newline("expected newline after extern declaration")?;
        Ok(ExternDecl { name, purity, params, return_type, span })
    }

    fn parse_action_decl(&mut self) -> (r: Result<ActionDecl, Vec<Diagnostic>>)
        requires
            old(self).wf(),
            old(self).action_body_depth == 0,
        ensures
            Self::moved(*old(self), *final(self)),
            r is Ok ==> final(self).position > old(self).position,
            parse_outcome(r),
    {
        let span = self.expect_simple(Token::Action, "expected `action`")?;
        let name = self.expect_identifier("expected action name")?;
        let params = self.parse_params()?;
        let return_type = if self.at(&Token::Arrow) {
            self.bump();
            Some(self.parse_type()?)
        } else {
            None
        };
        self.expect_simple(Token::Colon, "expected `:` after action signature")?;
        self.expect_newline("expected newline after action header")?;
        self.action_body_depth = 1;
        let body = self.parse_block();
        self.action_body_depth = 0;
        let body = body?;
        Ok(ActionDecl { name, params, return_type, body, span })
    }

    fn parse_test_decl(&mut self) -> (r: Result<TestDecl, Vec<Diagnostic>>)
        requires
            old(self).wf(),
        ensures
            Self::moved(*old(self), *final(self)),
            r is Ok ==> final(self).position > old(self).position,
            parse_outcome(r),
    {
        let span = self.expect_simple(Token::Test, "expected `test`")?;
        let name = self.expect_identifier("expected test name")?;
        self.expect_simple(Token::Colon, "expected `:` after test name")?;
        self.expect_newline("expected newline after test header")?;
        let body = self.parse_block()?;
        Ok(TestDecl { name, body, span })
    }

    fn parse_module_name(&mut self) -> (r: Result<ModuleName, Vec<Diagnostic>>)
        requires
            old(self).wf(),
        ensures
            Self::moved(*old(self), *final(self)),
            r is Ok ==> final(self).position > old(self).position,
            r matches Ok(m) ==> m.segments@.len() > 0,
            parse_outcome(r),
    {
        let mut segments: Vec<String> = Vec::new();
        let first = self.expect_identifier("expected module name segment")?;
        segments.push(first);
        while self.at(&Token::Dot)
            invariant
                Self::moved(*old(self), *self),
                self.position > old(self).position,
                segments@.len() > 0,
            decreases self.remaining(),
        {
            self.bump();
            let segment = self.expect_identifier("expected module name segment")?;
            segments.push(segment);
        }
        Ok(ModuleName { segments })
    }

    fn parse_params(&mut self) -> (r: Result<Vec<Param>, Vec<Diagnostic>>)
        requires
            old(self).wf(),
        ensures
            Self::moved(*old(self), *final(self)),
            r is Ok ==> final(self).position > old(self).position,
            parse_outcome(r),
    {
        self.expect_simple(Token::LParen, "expected `(` in parameter list")?;
        let mut params: Vec<Param> = Vec::new();
        if !self.at(&Token::RParen) {
            loop
                invariant
                    Self::moved(*old(self), *self),
                    self.position > old(self).position,
                decreases self.remaining(),
            {
                let span = self.current_span();
                let name = self.expect_identifier("expected parameter name")?;
                self.expect_simple(Token::Colon, "expected `:` after parameter name")?;
                let ty = self.parse_type()?;
                params.push(Param { name, ty, span });
                if !self.at(&Token::Comma) {
                    break;
                }
                self.bump();
            }
        }
        self.expect_simple(Token::RParen, "expected `)` after parameter list")?;
        Ok(params)
    }

    // ---------------------------------------------------------------------
    // Types

    fn parse_type(&mut self) -> (r: Result<TypeRef, Vec<Diagnostic>>)
        requires
            old(self).wf(),
        ensures
            Self::moved(*old(self), *final(self)),
            r is Ok ==> final(self).position > old(self).position,
            parse_outcome(r),
        decreases old(self).remaining(), 2int,
    {
        match self.current_token() {
            Token::Identifier(name) => {
                if str_eq(name.as_str(), "Action") {
                    return self.parse_action_or_generic_type();
                }
                let name = name.clone();
                self.bump();
                if self.at(&Token::LBracket) {
                    self.bump();
                    let mut args: Vec<TypeRef> = Vec::new();
                    let first = self.parse_type()?;
                    args.push(first);
                    while self.at(&Token::Comma)
                        invariant
                            Self::moved(*old(self), *self),
                            self.position > old(self).position,
                        decreases self.remaining(),
                    {
                        self.bump();
                        let arg = self.parse_type()?;
                        args.push(arg);
                    }
                    self.expect_simple(Token::RBracket, "expected `]` after type arguments")?;
                    Ok(TypeRef::Generic { name, args })
                } else {
                    Ok(TypeRef::Named(name))
                }
            },
            Token::LParen => {
                self.bump();
                let mut items: Vec<TypeRef> = Vec::new();
                let first = self.parse_type()?;
                items.push(first);
                self.expect_simple(Token::Comma, "expected `,` in tuple type")?;
                let second = self.parse_type()?;
                items.push(second);
                while self.at(&Token::Comma)
                    invariant
                        Self::moved(*old(self), *self),
                        self.position > old(self).position,
                    decreases self.remaining(),
                {
                    self.bump();
                    let item = self.parse_type()?;
                    items.push(item);
                }
                self.expect_simple(Token::RParen, "expected `)` after tuple type")?;
                Ok(TypeRef::Tuple(items))
            },
            _ => self.fail("expected a type"),
        }
    }

    fn parse_action_or_generic_type(&mut self) -> (r: Result<TypeRef, Vec<Diagnostic>>)
        requires
            old(self).wf(),
        ensures
            Self::moved(*old(self), *final(self)),
            r is Ok ==> final(self).position > old(self).position,
            parse_outcome(r),
        decreases old(self).remaining(), 1int,
    {
        let action_name = self.expect_identifier("expected type name")?;
        if !str_eq(action_name.as_str(), "Action") || !self.at(&Token::LBracket) {
            return Ok(TypeRef::Named(action_name));
        }
        self.expect_simple(Token::LBracket, "expected `[` after Action")?;
        let mut params: Vec<TypeRef> = Vec::new();
        if !self.at(&Token::Arrow) {
            let first = self.parse_type()?;
            params.push(first);
            while self.at(&Token::Comma)
                invariant
                    Self::moved(*old(self), *self),
                    self.position > old(self).position,
                decreases self.remaining(),
            {
                self.bump();
                let p = self.parse_type()?;
                params.push(p);
            }
        }
        self.expect_simple(Token::Arrow, "expected `->` in action type")?;
        let result = self.parse_type()?;
        self.expect_simple(Token::RBracket, "expected `]` after action type")?;
        Ok(TypeRef::Action { params, result: Box::new(result) })
    }

    // ---------------------------------------------------------------------
    // Statements

    fn parse_block(&mut self) -> (r: Result<Vec<Stmt>, Vec<Diagnostic>>)
        requires
            old(self).wf(),
        ensures
            Self::moved(*old(self), *final(self)),
            r is Ok ==> final(self).position > old(self).position,
            parse_outcome(r),
        decreases old(self).remaining(), 1int,
    {
        self.expect_simple(Token::Indent, "expected indented block")?;
        let mut statements: Vec<Stmt> = Vec::new();
        while !self.at(&Token::Dedent) && !self.at(&Token::Eof)
            invariant
                Self::moved(*old(self), *self),
                self.position > old(self).position,
            decreases self.remaining(),
        {
            self.skip_newlines();
            if self.at(&Token::Dedent) {
                break;
            }
            let stmt = self.parse_stmt()?;
            statements.push(stmt);
        }
        self.expect_simple(Token::Dedent, "expected dedent after block")?;
        Ok(statements)
    }

    fn parse_stmt(&mut self) -> (r: Result<Stmt, Vec<Diagnostic>>)
        requires
            old(self).wf(),
        ensures
            Self::moved(*old(self), *final(self)),
            r is Ok ==> final(self).position > old(self).position,
            parse_outcome(r),
        decreases old(self).remaining(), 3int,
    {
        let span = self.current_span();
        let kind = if self.at(&Token::Intent) {
            self.ensure_action_body_context("`intent:` blocks")?;
            self.parse_intent_block()?
        } else if self.at(&Token::Explain) {
            self.ensure_action_body_context("`explain:` blocks")?;
            self.parse_explain_block()?
        } else if self.at(&Token::Step) {
            self.ensure_action_body_context("`step` blocks")?;
            self.parse_step_block()?
        } else if self.at(&Token::Requires) {
            self.ensure_action_body_context("`requires` clauses")?;
            self.parse_requires_clause()?
        } else if self.at(&Token::Ensures) {
            self.ensure_action_body_context("`ensures` clauses")?;
            self.parse_ensures_clause()?
        } else if self.at(&Token::Example) {
            self.ensure_action_body_context("`example` blocks")?;
            self.parse_example_block()?
        } else if self.at(&Token::Let) {
            self.parse_let_stmt()?
        } else if self.at(&Token::Var) {
            self.parse_var_stmt()?
        } else if self.at(&Token::If) {
            self.parse_if_stmt()?
        } else if self.at(&Token::While) {
            self.parse_while_stmt()?
        } else if self.at(&Token::Match) {
            self.parse_match_stmt()?
        } else if self.at(&Token::For) {
            self.parse_for_stmt()?
        } else if self.at(&Token::Return) {
            self.parse_return_stmt()?
        } else if self.at(&Token::Break) {
            self.bump();
            self.expect_newline("expected newline after `break`")?;
            StmtKind::Break
        } else if self.at(&Token::Continue) {
            self.bump();
            self.expect_newline("expected newline after `continue`")?;
            StmtKind::Continue
        } else if self.at(&Token::Expect) {
            self.bump();
            let expr = self.parse_expr()?;
            self.expect_newline("expected newline after `expect`")?;
            StmtKind::Expect(expr)
        } else if self.is_legacy_set_stmt() {
            return self.fail(
                "legacy `set target = value` syntax is not supported; use `target := value`",
            );
        } else if self.is_unsupported_destructuring_assignment_stmt() {
            return self.fail("destructuring in `:=` is not supported");
        } else if self.is_assignment_stmt() {
            self.parse_assign_stmt()?
        } else {
            let expr = self.parse_expr()?;
            self.expect_newline("expected newline after expression")?;
            StmtKind::Expr(expr)
        };
        let id = self.alloc_node_id();
        Ok(Stmt { id, kind, span })
    }

    fn parse_requires_clause(&mut self) -> (r: Result<StmtKind, Vec<Diagnostic>>)
        requires
            old(self).wf(),
        ensures
            Self::moved(*old(self), *final(self)),
            r is Ok ==> final(self).position > old(self).position,
            parse_outcome(r),
    {
        self.expect_simple(Token::Requires, "expected `requires`")?;
        let condition = self.parse_expr()?;
        self.expect_newline("expected newline after `requires` clause")?;
        Ok(StmtKind::RequiresClause { condition })
    }

    fn parse_ensures_clause(&mut self) -> (r: Result<StmtKind, Vec<Diagnostic>>)
        requires
            old(self).wf(),
        ensures
            Self::moved(*old(self), *final(self)),
            r is Ok ==> final(self).position > old(self).position,
            parse_outcome(r),
    {
        self.expect_simple(Token::Ensures, "expected `ensures`")?;
        let condition = self.parse_expr()?;
        self.expect_newline("expected newline after `ensures` clause")?;
        Ok(StmtKind::EnsuresClause { condition })
    }

    fn parse_let_stmt(&mut self) -> (r: Result<StmtKind, Vec<Diagnostic>>)
        requires
            old(self).wf(),
        ensures
            Self::moved(*old(self), *final(self)),
            r is Ok ==> final(self).position > old(self).position,
            r matches Ok(k) ==> k matches StmtKind::Let { .. },
            parse_outcome(r),
    {
        self.expect_simple(Token::Let, "expected `let`")?;
        let (pattern, explicit_type, value) = self.parse_binding_rest("let")?;
        Ok(StmtKind::Let { pattern, explicit_type, value })
    }

    fn parse_var_stmt(&mut self) -> (r: Result<StmtKind, Vec<Diagnostic>>)
        requires
            old(self).wf(),
        ensures
            Self::moved(*old(self), *final(self)),
            r is Ok ==> final(self).position > old(self).position,
            r matches Ok(k) ==> k matches StmtKind::Var { .. },
            parse_outcome(r),
    {
        self.expect_simple(Token::Var, "expected `var`")?;
        let (pattern, explicit_type, value) = self.parse_binding_rest("var")?;
        Ok(StmtKind::Var { pattern, explicit_type, value })
    }

    fn parse_assign_stmt(&mut self) -> (r: Result<StmtKind, Vec<Diagnostic>>)
        requires
            old(self).wf(),
        ensures
            Self::moved(*old(self), *final(self)),
            r is Ok ==> final(self).position > old(self).position,
            parse_outcome(r),
    {
        let target = self.parse_target()?;
        self.expect_simple(Token::ColonAssign, "expected `:=` in assignment statement")?;
        let value = self.parse_expr()?;
        self.expect_newline("expected newline after assignment statement")?;
        Ok(StmtKind::Assign { target, value })
    }

    fn parse_return_stmt(&mut self) -> (r: Result<StmtKind, Vec<Diagnostic>>)
        requires
            old(self).wf(),
        ensures
            Self::moved(*old(self), *final(self)),
            r is Ok ==> final(self).position > old(self).position,
            parse_outcome(r),
    {
        self.expect_simple(Token::Return, "expected `return`")?;
        let expr = if self.at(&Token::Newline) {
            None
        } else {
            Some(self.parse_expr()?)
        };
        self.expect_newline("expected newline after return statement")?;
        Ok(StmtKind::Return(expr))
    }

    /// The part of `let` / `var` after the keyword: pattern, optional type,
    /// `=`, value and newline.
    fn parse_binding_rest(&mut self, keyword: &str) -> (r: Result<
        (BindingPattern, Option<TypeRef>, Expr),
        Vec<Diagnostic>,
    >)
        requires
            old(self).wf(),
        ensures
            Self::moved(*old(self), *final(self)),
            r is Ok ==> final(self).position > old(self).position,
            parse_outcome(r),
    {
        let pattern = self.parse_binding_pattern()?;
        let explicit_type = if self.at(&Token::Colon) {
            self.bump();
            Some(self.parse_type()?)
        } else {
            None
        };
        self.expect_simple_owned(Token::Assign, concat3("expected `=` in ", keyword, " statement"))?;
        let value = self.parse_expr()?;
        self.expect_newline_owned(concat3("expected newline after ", keyword, " statement"))?;
        Ok((pattern, explicit_type, value))
    }

    fn expect_newline_owned(&mut self, message: String) -> (r: Result<(), Vec<Diagnostic>>)
        requires
            old(self).wf(),
        ensures
            Self::moved(*old(self), *final(self)),
            r is Ok ==> final(self).position > old(self).position,
            parse_outcome(r),
    {
        self.expect_simple_owned(Token::Newline, message)?;
        self.skip_newlines();
        Ok(())
    }

    fn parse_intent_block(&mut self) -> (r: Result<StmtKind, Vec<Diagnostic>>)
        requires
            old(self).wf(),
        ensures
            Self::moved(*old(self), *final(self)),
            r is Ok ==> final(self).position > old(self).position,
            parse_outcome(r),
    {
        self.expect_simple(Token::Intent, "expected `intent`")?;
        self.expect_simple(Token::Colon, "expected `:` after `intent`")?;
        self.expect_newline("expected newline after `intent:`")?;
        self.expect_simple(Token::Indent, "expected an indented intent block")?;
        let mut goal: Option<String> = None;
        let mut constraints: Vec<String> = Vec::new();
        let mut assumptions: Vec<String> = Vec::new();
        let mut properties: Vec<String> = Vec::new();
        while !self.at(&Token::Dedent) && !self.at(&Token::Eof)
            invariant
                Self::moved(*old(self), *self),
                self.position > old(self).position,
            decreases self.remaining(),
        {
            if self.at(&Token::Goal) {
                self.bump();
                self.expect_simple(Token::Colon, "expected `:` after `goal`")?;
                goal = Some(self.expect_string_literal("expected text literal for `goal:`")?);
                self.expect_newline("expected newline after `goal:`")?;
            } else if self.at(&Token::Constraints) {
                self.bump();
                self.expect_simple(Token::Colon, "expected `:` after `constraints`")?;
                self.expect_newline("expected newline after `constraints:`")?;
                constraints = self.parse_string_list_block("constraints")?;
            } else if self.at(&Token::Assumptions) {
                self.bump();
                self.expect_simple(Token::Colon, "expected `:` after `assumptions`")?;
                self.expect_newline("expected newline after `assumptions:`")?;
                assumptions = self.parse_string_list_block("assumptions")?;
            } else if self.at(&Token::Properties) {
                self.bump();
                self.expect_simple(Token::Colon, "expected `:` after `properties`")?;
                self.expect_newline("expected newline after `properties:`")?;
                properties = self.parse_string_list_block("properties")?;
            } else {
                return self.fail(
                    "unknown `intent:` field; expected `goal`, `constraints`, `assumptions`, or `properties`",
                );
            }
        }
        self.expect_simple(Token::Dedent, "expected dedent after `intent:` block")?;
        Ok(StmtKind::IntentBlock { goal, constraints, assumptions, properties })
    }

    fn parse_explain_block(&mut self) -> (r: Result<StmtKind, Vec<Diagnostic>>)
        requires
            old(self).wf(),
        ensures
            Self::moved(*old(self), *final(self)),
            r is Ok ==> final(self).position > old(self).position,
            parse_outcome(r),
    {
        self.expect_simple(Token::Explain, "expected `explain`")?;
        self.expect_simple(Token::Colon, "expected `:` after `explain`")?;
        self.expect_newline("expected newline after `explain:`")?;
        self.expect_simple(Token::Indent, "expected an indented explain block")?;
        let mut lines: Vec<String> = Vec::new();
        while !self.at(&Token::Dedent) && !self.at(&Token::Eof)
            invariant
                Self::moved(*old(self), *self),
                self.position > old(self).position,
            decreases self.remaining(),
        {
            let line = self.expect_string_literal("expected a text literal line inside `explain:`")?;
            lines.push(line);
            self.expect_newline("expected newline after explain text")?;
        }
        self.expect_simple(Token::Dedent, "expected dedent after `explain:` block")?;
        if lines.len() == 0 {
            return self.fail("`explain:` block must contain at least one line");
        }
        Ok(StmtKind::ExplainBlock { lines })
    }

    fn parse_step_block(&mut self) -> (r: Result<StmtKind, Vec<Diagnostic>>)
        requires
            old(self).wf(),
        ensures
            Self::moved(*old(self), *final(self)),
            r is Ok ==> final(self).position > old(self).position,
            parse_outcome(r),
        decreases old(self).remaining(), 2int,
    {
        self.expect_simple(Token::Step, "expected `step`")?;
        let label = self.expect_identifier("expected step label")?;
        self.expect_simple(Token::Colon, "expected `:` after step label")?;
        self.expect_newline("expected newline after step header")?;
        let body = self.parse_block()?;
        if body.len() == 0 {
            return self.fail("`step` block must not be empty");
        }
        Ok(StmtKind::StepBlock { label, body })
    }

    fn parse_example_block(&mut self) -> (r: Result<StmtKind, Vec<Diagnostic>>)
        requires
            old(self).wf(),
        ensures
            Self::moved(*old(self), *final(self)),
            r is Ok ==> final(self).position > old(self).position,
            parse_outcome(r),
    {
        self.expect_simple(Token::Example, "expected `example`")?;
        let name = self.expect_identifier("expected example name")?;
        self.expect_simple(Token::Colon, "expected `:` after example name")?;
        self.expect_newline("expected newline after example header")?;
        self.expect_simple(Token::Indent, "expected an indented example block")?;
        let mut inputs: Option<Vec<(String, Expr)>> = None;
        let mut outputs: Option<Vec<(String, Expr)>> = None;
        while !self.at(&Token::Dedent) && !self.at(&Token::Eof)
            invariant
                Self::moved(*old(self), *self),
                self.position > old(self).position,
            decreases self.remaining(),
        {
            if self.at(&Token::Input) {
                self.bump();
                self.expect_simple(Token::Colon, "expected `:` after `input`")?;
                self.expect_newline("expected newline after `input:`")?;
                inputs = Some(self.parse_example_bindings("input")?);
            } else if self.at(&Token::Output) {
                self.bump();
                self.expect_simple(Token::Colon, "expected `:` after `output`")?;
                self.expect_newline("expected newline after `output:`")?;
                outputs = Some(self.parse_example_bindings("output")?);
            } else {
                return self.fail("example blocks only support `input:` and `output:` sub-blocks");
            }
        }
        self.expect_simple(Token::Dedent, "expected dedent after `example:` block")?;
        let inputs = match inputs {
            Some(inputs) => inputs,
            None => {
                return self.fail("example block requires `input:`");
            },
        };
        let outputs = match outputs {
            Some(outputs) => outputs,
            None => {
                return self.fail("example block requires `output:`");
            },
        };
        Ok(StmtKind::ExampleBlock { name, inputs, outputs })
    }

    fn parse_if_stmt(&mut self) -> (r: Result<StmtKind, Vec<Diagnostic>>)
        requires
            old(self).wf(),
        ensures
            Self::moved(*old(self), *final(self)),
            r is Ok ==> final(self).position > old(self).position,
            parse_outcome(r),
        decreases old(self).remaining(), 2int,
    {
        self.expect_simple(Token::If, "expected `if`")?;
        let if_span = self.current_span();
        let condition = self.parse_expr()?;
        self.expect_simple(Token::Colon, "expected `:` after if condition")?;
        self.expect_newline("expected newline after if header")?;
        let body = self.parse_block()?;
        let mut branches: Vec<ConditionalBranch> = Vec::new();
        branches.push(ConditionalBranch { condition, body, span: if_span });
        while self.at(&Token::Elif)
            invariant
                Self::moved(*old(self), *self),
                self.position > old(self).position,
            decreases self.remaining(),
        {
            let branch_span = self.current_span();
            self.bump();
            let branch_condition = self.parse_expr()?;
            self.expect_simple(Token::Colon, "expected `:` after elif condition")?;
            self.expect_newline("expected newline after elif header")?;
            let branch_body = self.parse_block()?;
            branches.push(ConditionalBranch { condition: branch_condition, body: branch_body, span: branch_span });
        }
        let else_branch = if self.at(&Token::Else) {
            self.bump();
            self.expect_simple(Token::Colon, "expected `:` after else")?;
            self.expect_newline("expected newline after else header")?;
            self.parse_block()?
        } else {
            Vec::new()
        };
        Ok(StmtKind::If { branches, else_branch })
    }

    fn parse_while_stmt(&mut self) -> (r: Result<StmtKind, Vec<Diagnostic>>)
        requires
            old(self).wf(),
        ensures
            Self::moved(*old(self), *final(self)),
            r is Ok ==> final(self).position > old(self).position,
            parse_outcome(r),
        decreases old(self).remaining(), 2int,
    {
        self.expect_simple(Token::While, "expected `while`")?;
        let condition = self.parse_expr()?;
        self.expect_simple(Token::Colon, "expected `:` after while condition")?;
        self.expect_newline("expected newline after while header")?;
        let body = self.parse_block()?;
        Ok(StmtKind::While { condition, body })
    }

    fn parse_match_stmt(&mut self) -> (r: Result<StmtKind, Vec<Diagnostic>>)
        requires
            old(self).wf(),
        ensures
            Self::moved(*old(self), *final(self)),
            r is Ok ==> final(self).position > old(self).position,
            parse_outcome(r),
        decreases old(self).remaining(), 2int,
    {
        self.expect_simple(Token::Match, "expected `match`")?;
        let scrutinee = self.parse_expr()?;
        self.expect_simple(Token::Colon, "expected `:` after match target")?;
        self.expect_newline("expected newline after match header")?;
        self.expect_simple(Token::Indent, "expected an indented match body")?;
        let mut arms: Vec<MatchArm> = Vec::new();
        while !self.at(&Token::Dedent) && !self.at(&Token::Eof)
            invariant
                Self::moved(*old(self), *self),
                self.position > old(self).position,
            decreases self.remaining(),
        {
            let span = self.current_span();
            let pattern = self.parse_pattern()?;
            self.expect_simple(Token::Colon, "expected `:` after match pattern")?;
            self.expect_newline("expected newline after match arm header")?;
            let body = self.parse_block()?;
            arms.push(MatchArm { pattern, body, span });
        }
        self.expect_simple(Token::Dedent, "expected dedent after match body")?;
        if arms.len() == 0 {
            return self.fail("match statement must contain at least one arm");
        }
        Ok(StmtKind::Match { scrutinee, arms })
    }

    fn parse_for_stmt(&mut self) -> (r: Result<StmtKind, Vec<Diagnostic>>)
        requires
            old(self).wf(),
        ensures
            Self::moved(*old(self), *final(self)),
            r is Ok ==> final(self).position > old(self).position,
            parse_outcome(r),
        decreases old(self).remaining(), 2int,
    {
        self.expect_simple(Token::For, "expected `for`")?;
        self.expect_simple(Token::Each, "expected `each` after `for`")?;
        let binding = self.expect_identifier("expected loop binding name")?;
        self.expect_simple(Token::In, "expected `in` after loop binding")?;
        let iterable = self.parse_expr()?;
        self.expect_simple(Token::Colon, "expected `:` after for-each iterable")?;
        self.expect_newline("expected newline after for-each header")?;
        let body = self.parse_block()?;
        Ok(StmtKind::ForEach { binding, iterable, body })
    }

    fn parse_string_list_block(&mut self, field_name: &str) -> (r: Result<Vec<String>, Vec<Diagnostic>>)
        requires
            old(self).wf(),
        ensures
            Self::moved(*old(self), *final(self)),
            r is Ok ==> final(self).position > old(self).position,
            parse_outcome(r),
    {
        self.expect_simple_owned(
            Token::Indent,
            concat3("expected an indented `", field_name, ":` list"),
        )?;
        let mut items: Vec<String> = Vec::new();
        while !self.at(&Token::Dedent) && !self.at(&Token::Eof)
            invariant
                Self::moved(*old(self), *self),
                self.position > old(self).position,
            decreases self.remaining(),
        {
            self.expect_simple_owned(
                Token::Minus,
                concat3("expected `-` list item in `", field_name, ":`"),
            )?;
            let m = concat3("expected text literal list item in `", field_name, ":`");
            let item = self.expect_string_literal(m.as_str())?;
            items.push(item);
            self.expect_newline("expected newline after list item")?;
        }
        self.expect_simple(Token::Dedent, "expected dedent after list block")?;
        Ok(items)
    }

    fn parse_example_bindings(&mut self, block_name: &str) -> (r: Result<
        Vec<(String, Expr)>,
        Vec<Diagnostic>,
    >)
        requires
            old(self).wf(),
        ensures
            Self::moved(*old(self), *final(self)),
            r is Ok ==> final(self).position > old(self).position,
            parse_outcome(r),
    {
        self.expect_simple_owned(
            Token::Indent,
            concat3("expected an indented `", block_name, ":` block"),
        )?;
        let mut bindings: Vec<(String, Expr)> = Vec::new();
        while !self.at(&Token::Dedent) && !self.at(&Token::Eof)
            invariant
                Self::moved(*old(self), *self),
                self.position > old(self).position,
            decreases self.remaining(),
        {
            let name = self.expect_identifier("expected binding name")?;
            self.expect_simple(Token::Assign, "expected `=` in example binding")?;
            let expr = self.parse_expr()?;
            if !expr_is_literal(&expr) {
                return Err(one(Diagnostic::new(
                    expr.span,
                    Phase::Parse,
                    String::from_str("example bindings must use literal values"),
                )));
            }
            self.expect_newline("expected newline after example binding")?;
            bindings.push((name, expr));
        }
        self.expect_simple(Token::Dedent, "expected dedent after example binding block")?;
        if bindings.len() == 0 {
            return self.fail_owned(
                concat3("`", block_name, ":` block must contain at least one binding"),
            );
        }
        Ok(bindings)
    }

    // ---------------------------------------------------------------------
    // Binding patterns, match patterns and assignment targets

    fn parse_binding_pattern(&mut self) -> (r: Result<BindingPattern, Vec<Diagnostic>>)
        requires
            old(self).wf(),
        ensures
            Self::moved(*old(self), *final(self)),
            r is Ok ==> final(self).position > old(self).position,
            parse_outcome(r),
    {
        let span = self.current_span();
        let kind = match self.current_token() {
            Token::Identifier(name) => {
                if str_eq(name.as_str(), "_") {
                    return self.fail("wildcard destructuring is not supported in declarations");
                }
                let name = name.clone();
                self.bump();
                if self.at(&Token::LParen) {
                    self.parse_record_binding_pattern(name)?
                } else {
                    BindingPatternKind::Name(name)
                }
            },
            Token::LParen => self.parse_tuple_binding_pattern()?,
            _ => {
                return self.fail("expected a binding pattern");
            },
        };
        Ok(BindingPattern { kind, span })
    }

    fn parse_tuple_binding_pattern(&mut self) -> (r: Result<BindingPatternKind, Vec<Diagnostic>>)
        requires
            old(self).wf(),
        ensures
            Self::moved(*old(self), *final(self)),
            r is Ok ==> final(self).position > old(self).position,
            parse_outcome(r),
    {
        self.expect_simple(Token::LParen, "expected `(`")?;
        let first = self.parse_binding_name_in_pattern("tuple destructuring")?;
        if !self.at(&Token::Comma) {
            return self.fail("tuple destructuring requires at least two binding names");
        }
        let mut items: Vec<String> = Vec::new();
        items.push(first);
        while self.at(&Token::Comma)
            invariant
                Self::moved(*old(self), *self),
                self.position > old(self).position,
            decreases self.remaining(),
        {
            self.bump();
            let item = self.parse_binding_name_in_pattern("tuple destructuring")?;
            items.push(item);
        }
        self.expect_simple(Token::RParen, "expected `)` after tuple destructuring")?;
        Ok(BindingPatternKind::Tuple(items))
    }

    /// Whether the parser stands on `name :`, the start of a named field.
    fn at_named_field(&self) -> (r: bool)
        requires
            self.wf(),
        ensures
            r == (self.cur() is Identifier && self.position + 1 < self.tokens@.len() && self.tokens@[self.position + 1].token is Colon),
    {
        match self.current_token() {
            Token::Identifier(_) => match self.peek_token() {
                Some(t) => t.same_variant(&Token::Colon),
                None => false,
            },
            _ => false,
        }
    }

    fn parse_record_binding_pattern(&mut self, name: String) -> (r: Result<
        BindingPatternKind,
        Vec<Diagnostic>,
    >)
        requires
            old(self).wf(),
        ensures
            Self::moved(*old(self), *final(self)),
            r is Ok ==> final(self).position > old(self).position,
            parse_outcome(r),
    {
        self.expect_simple(Token::LParen, "expected `(` after record name")?;
        if self.at(&Token::RParen) {
            return self.fail("record destructuring must bind at least one field");
        }
        if !self.at_named_field() {
            return self.fail("enum or positional destructuring is not supported in declarations");
        }
        let mut fields: Vec<RecordBindingField> = Vec::new();
        loop
            invariant
                Self::moved(*old(self), *self),
                self.position > old(self).position,
            decreases self.remaining(),
        {
            let span = self.current_span();
            let field = self.expect_identifier("expected record field name")?;
            self.expect_simple(Token::Colon, "expected `:` after record field name")?;
            let binding = self.parse_binding_name_in_pattern("record destructuring")?;
            fields.push(RecordBindingField { field, binding, span });
            if !self.at(&Token::Comma) {
                break;
            }
            self.bump();
        }
        self.expect_simple(Token::RParen, "expected `)` after record destructuring")?;
        Ok(BindingPatternKind::Record { name, fields })
    }

    fn parse_binding_name_in_pattern(&mut self, context: &str) -> (r: Result<String, Vec<Diagnostic>>)
        requires
            old(self).wf(),
        ensures
            Self::moved(*old(self), *final(self)),
            r is Ok ==> final(self).position > old(self).position,
            parse_outcome(r),
    {
        match self.current_token() {
            Token::Identifier(name) => {
                if str_eq(name.as_str(), "_") {
                    return self.fail_owned(
                        concat("wildcard destructuring is not supported in ", context),
                    );
                }
                let name = name.clone();
                self.bump();
                if self.at(&Token::LParen) {
                    return self.fail_owned(
                        concat("nested destructuring is not supported in ", context),
                    );
                }
                Ok(name)
            },
            Token::LParen => self.fail_owned(
                concat("nested destructuring is not supported in ", context),
            ),
            _ => self.fail_owned(concat("expected a binding name in ", context)),
        }
    }

    fn parse_pattern(&mut self) -> (r: Result<Pattern, Vec<Diagnostic>>)
        requires
            old(self).wf(),
        ensures
            Self::moved(*old(self), *final(self)),
            r is Ok ==> final(self).position > old(self).position,
            parse_outcome(r),
        decreases old(self).remaining(), 3int,
    {
        let span = self.current_span();
        let kind = match self.current_token() {
            Token::IntLiteral(value) => {
                let value = *value;
                self.bump();
                PatternKind::Literal(PatternLiteral::Int(value))
            },
            Token::DecLiteral(value) => {
                let value = value.clone();
                self.bump();
                PatternKind::Literal(PatternLiteral::Dec(value))
            },
            Token::StringLiteral(value) => {
                let value = value.clone();
                self.bump();
                PatternKind::Literal(PatternLiteral::String(value))
            },
            Token::True => {
                self.bump();
                PatternKind::Literal(PatternLiteral::Bool(true))
            },
            Token::False => {
                self.bump();
                PatternKind::Literal(PatternLiteral::Bool(false))
            },
            Token::NoneKeyword => {
                self.bump();
                PatternKind::Variant { name: String::from_str("None"), args: Vec::new() }
            },
            Token::Identifier(name) => {
                if str_eq(name.as_str(), "_") {
                    self.bump();
                    PatternKind::Wildcard
                } else {
                    let name = name.clone();
                    self.bump();
                    if self.at(&Token::LParen) {
                        self.parse_named_pattern(name)?
                    } else {
                        PatternKind::Binding(name)
                    }
                }
            },
            Token::LParen => self.parse_group_or_tuple_pattern()?,
            _ => {
                return self.fail("expected a match pattern");
            },
        };
        Ok(Pattern { kind, span })
    }

    fn parse_named_pattern(&mut self, name: String) -> (r: Result<PatternKind, Vec<Diagnostic>>)
        requires
            old(self).wf(),
        ensures
            Self::moved(*old(self), *final(self)),
            r is Ok ==> final(self).position > old(self).position,
            parse_outcome(r),
        decreases old(self).remaining(), 2int,
    {
        self.expect_simple(Token::LParen, "expected `(` after pattern name")?;
        if self.at(&Token::RParen) {
            self.bump();
            return Ok(PatternKind::Variant { name, args: Vec::new() });
        }
        if self.at_named_field() {
            let mut fields: Vec<RecordPatternField> = Vec::new();
            loop
                invariant
                    Self::moved(*old(self), *self),
                    self.position > old(self).position,
                decreases self.remaining(),
            {
                let span = self.current_span();
                let field_name = self.expect_identifier("expected record pattern field name")?;
                self.expect_simple(Token::Colon, "expected `:` after record pattern field name")?;
                let pattern = self.parse_pattern()?;
                fields.push(RecordPatternField { name: field_name, pattern, span });
                if !self.at(&Token::Comma) {
                    break;
                }
                self.bump();
            }
            self.expect_simple(Token::RParen, "expected `)` after record pattern")?;
            Ok(PatternKind::Record { name, fields })
        } else {
            let mut args: Vec<Pattern> = Vec::new();
            loop
                invariant
                    Self::moved(*old(self), *self),
                    self.position > old(self).position,
                decreases self.remaining(),
            {
                let arg = self.parse_pattern()?;
                args.push(arg);
                if !self.at(&Token::Comma) {
                    break;
                }
                self.bump();
            }
            self.expect_simple(Token::RParen, "expected `)` after variant pattern")?;
            Ok(PatternKind::Variant { name, args })
        }
    }

    fn parse_group_or_tuple_pattern(&mut self) -> (r: Result<PatternKind, Vec<Diagnostic>>)
        requires
            old(self).wf(),
        ensures
            Self::moved(*old(self), *final(self)),
            r is Ok ==> final(self).position > old(self).position,
            parse_outcome(r),
        decreases old(self).remaining(), 2int,
    {
        self.expect_simple(Token::LParen, "expected `(`")?;
        let first = self.parse_pattern()?;
        if self.at(&Token::Comma) {
            let mut items: Vec<Pattern> = Vec::new();
            items.push(first);
            while self.at(&Token::Comma)
                invariant
                    Self::moved(*old(self), *self),
                    self.position > old(self).position,
                decreases self.remaining(),
            {
                self.bump();
                let item = self.parse_pattern()?;
                items.push(item);
            }
            self.expect_simple(Token::RParen, "expected `)` after tuple pattern")?;
            Ok(PatternKind::Tuple(items))
        } else {
            self.expect_simple(Token::RParen, "expected `)` after grouped pattern")?;
            Ok(first.kind)
        }
    }

    fn parse_target(&mut self) -> (r: Result<Target, Vec<Diagnostic>>)
        requires
            old(self).wf(),
        ensures
            Self::moved(*old(self), *final(self)),
            r is Ok ==> final(self).position > old(self).position,
            parse_outcome(r),
    {
        let span = self.current_span();
        let name = self.expect_identifier("expected assignment target name")?;
        let mut target = Target::Name { name, span };
        loop
            invariant
                Self::moved(*old(self), *self),
                self.position > old(self).position,
            decreases self.remaining(),
        {
            if self.at(&Token::Dot) {
                self.bump();
                let field_span = self.current_span();
                let field = self.expect_identifier("expected field name after `.`")?;
                target = Target::Field { base: Box::new(target), field, span: field_span };
            } else if self.at(&Token::LBracket) {
                let index_span = self.current_span();
                self.bump();
                let index = self.parse_expr()?;
                self.expect_simple(Token::RBracket, "expected `]` after target index")?;
                target = Target::Index { base: Box::new(target), index, span: index_span };
            } else {
                break;
            }
        }
        Ok(target)
    }

    // ---------------------------------------------------------------------
    // Statement lookahead

    fn is_identifier_at(&self, cursor: usize) -> (r: bool)
        ensures
            r ==> cursor < self.tokens@.len(),
            r == identifier_at(self.tokens@, cursor as int),
    {
        match self.token_at(cursor) {
            Some(Token::Identifier(_)) => true,
            _ => false,
        }
    }

    /// Skips a `[ ... ]` group whose `[` is at `cursor - 1`: the position
    /// after the matching `]`, or `None` when a newline or the end comes
    /// first.
    fn skip_bracket_group(&self, start: usize) -> (r: Option<usize>)
        requires
            0 < start <= self.tokens@.len(),
        ensures
            r matches Some(c) ==> start < c <= self.tokens@.len(),
            match r {
                Some(c) => bracket_end(self.tokens@, start as int, 1) == Some(c as int),
                None => bracket_end(self.tokens@, start as int, 1) is None,
            },
    {
        let mut cursor = start;
        let mut depth: usize = 1;
        while cursor < self.tokens.len()
            invariant
                0 < start <= cursor <= self.tokens@.len(),
                1 <= depth <= cursor - start + 1,
                bracket_end(self.tokens@, start as int, 1) == bracket_end(self.tokens@, cursor as int, depth as int),
            decreases self.tokens@.len() - cursor,
        {
            match self.token_at(cursor) {
                Some(Token::LBracket) => {
                    depth = depth + 1;
                },
                Some(Token::RBracket) => {
                    if depth == 1 {
                        return Some(cursor + 1);
                    }
                    depth = depth - 1;
                },
                Some(Token::Eof) | Some(Token::Newline) => {
                    return None;
                },
                _ => {},
            }
            cursor = cursor + 1;
        }
        None
    }

    /// Whether the tokens from `cursor` on are field and index steps followed
    /// by a token of variant `terminator`.
    fn is_target_path_then(&self, start: usize, terminator: &Token) -> (r: bool)
        requires
            start <= self.tokens@.len(),
        ensures
            r == target_path_then(self.tokens@, start as int, terminator.tag()),
    {
        let mut cursor = start;
        while cursor < self.tokens.len()
            invariant
                cursor <= self.tokens@.len(),
                target_path_then(self.tokens@, start as int, terminator.tag()) == target_path_then(
                    self.tokens@,
                    cursor as int,
                    terminator.tag(),
                ),
            decreases self.tokens@.len() - cursor,
        {
            match self.token_at(cursor) {
                Some(Token::Dot) => {
                    if !self.is_identifier_at(cursor + 1) {
                        return false;
                    }
                    cursor = cursor + 2;
                },
                Some(Token::LBracket) => match self.skip_bracket_group(cursor + 1) {
                    Some(next) => {
                        cursor = next;
                    },
                    None => {
                        return false;
                    },
                },
                Some(t) => {
                    return t.same_variant(terminator);
                },
                None => {
                    return false;
                },
            }
        }
        false
    }

    /// Whether the statement at hand is `target := value`.
    fn is_assignment_stmt(&self) -> (r: bool)
        requires
            self.wf(),
        ensures
            r == (identifier_at(self.tokens@, self.position as int) && target_path_then(
                self.tokens@,
                self.position + 1,
                Token::ColonAssign.tag(),
            )),
    {
        let n = self.tokens.len();
        if !self.is_identifier_at(self.position) {
            return false;
        }
        self.is_target_path_then(self.position + 1, &Token::ColonAssign)
    }

    /// Whether the statement at hand is the legacy `set target = value`.
    fn is_legacy_set_stmt(&self) -> (r: bool)
        requires
            self.wf(),
        ensures
            r == ((self.cur() matches Token::Identifier(name) && name@ == "set"@) && identifier_at(
                self.tokens@,
                self.position + 1,
            ) && target_path_then(self.tokens@, self.position + 2, Token::Assign.tag())),
    {
        let n = self.tokens.len();
        let is_set = match self.current_token() {
            Token::Identifier(name) => str_eq(name.as_str(), "set"),
            _ => false,
        };
        if !is_set || !self.is_identifier_at(self.position + 1) {
            return false;
        }
        self.is_target_path_then(self.position + 2, &Token::Assign)
    }

    /// The position after the `)` that balances the `(` at `start`, when no
    /// layout token or end of input comes first.
    fn scan_balanced_parens(&self, start: usize) -> (r: Option<usize>)
        requires
            start <= self.tokens@.len(),
        ensures
            r matches Some(c) ==> c <= self.tokens@.len(),
            match r {
                Some(c) => paren_end(self.tokens@, start as int, 0) == Some(c as int),
                None => paren_end(self.tokens@, start as int, 0) is None,
            },
    {
        let mut cursor = start;
        let mut depth: usize = 0;
        while cursor < self.tokens.len()
            invariant
                cursor <= self.tokens@.len(),
                start <= cursor,
                depth <= cursor - start,
                paren_end(self.tokens@, start as int, 0) == paren_end(self.tokens@, cursor as int, depth as int),
            decreases self.tokens@.len() - cursor,
        {
            match self.token_at(cursor) {
                Some(Token::LParen) => {
                    depth = depth + 1;
                },
                Some(Token::RParen) => {
                    if depth == 0 {
                        return None;
                    }
                    depth = depth - 1;
                    if depth == 0 {
                        return Some(cursor + 1);
                    }
                },
                Some(Token::Newline) | Some(Token::Indent) | Some(Token::Dedent) | Some(
                    Token::Eof,
                ) => {
                    return None;
                },
                _ => {},
            }
            cursor = cursor + 1;
        }
        None
    }

    fn colon_assign_at(&self, cursor: usize) -> (r: bool)
        ensures
            r == (cursor < self.tokens@.len() && self.tokens@[cursor as int].token is ColonAssign),
    {
        match self.token_at(cursor) {
            Some(t) => t.same_variant(&Token::ColonAssign),
            None => false,
        }
    }

    /// Whether the statement at hand is `(a, b) := ...` or `Name(...) := ...`.
    fn is_unsupported_destructuring_assignment_stmt(&self) -> (r: bool)
        requires
            self.wf(),
        ensures
            r == match self.cur() {
                Token::LParen => parens_then_colon_assign(self.tokens@, self.position as int),
                Token::Identifier(_) => self.position + 1 < self.tokens@.len() && self.tokens@[self.position + 1].token is LParen
                    && parens_then_colon_assign(self.tokens@, self.position + 1),
                _ => false,
            },
    {
        match self.current_token() {
            Token::LParen => match self.scan_balanced_parens(self.position) {
                Some(cursor) => self.colon_assign_at(cursor),
                None => false,
            },
            Token::Identifier(_) => {
                let n = self.tokens.len();
                let next_is_paren = match self.token_at(self.position + 1) {
                    Some(t) => t.same_variant(&Token::LParen),
                    None => false,
                };
                if !next_is_paren {
                    return false;
                }
                match self.scan_balanced_parens(self.position + 1) {
                    Some(cursor) => self.colon_assign_at(cursor),
                    None => false,
                }
            },
            _ => false,
        }
    }

    // ---------------------------------------------------------------------
    // Expressions, from the loosest binding level to the tightest

    fn parse_expr(&mut self) -> (r: Result<Expr, Vec<Diagnostic>>)
        requires
            old(self).wf(),
        ensures
            Self::moved(*old(self), *final(self)),
            r is Ok ==> final(self).position > old(self).position,
            parse_outcome(r),
            old(self).term_ahead(1) ==> (r matches Ok(e) && Some(e.kind) == atom_kind(old(self).ahead(0)) && final(self).position
                == old(self).position + 1),
            old(self).binary_ahead(1) ==> (r matches Ok(e) && old(self).is_binary_read(e) && final(self).position
                == old(self).position + 3),
        decreases old(self).remaining(), 12int,
    {
        self.parse_or_expr()
    }

    fn binary(&mut self, left: Expr, op: BinaryOp, right: Expr) -> (r: Expr)
        ensures
            r.kind == (ExprKind::Binary { left: Box::new(left), op, right: Box::new(right) }),
            r.span == left.span,
            final(self).position == old(self).position,
            final(self).tokens == old(self).tokens,
            final(self).path == old(self).path,
            final(self).action_body_depth == old(self).action_body_depth,
    {
        let span = left.span.duplicate();
        self.expr(span, ExprKind::Binary { left: Box::new(left), op, right: Box::new(right) })
    }

    fn parse_or_expr(&mut self) -> (r: Result<Expr, Vec<Diagnostic>>)
        requires
            old(self).wf(),
        ensures
            Self::moved(*old(self), *final(self)),
            r is Ok ==> final(self).position > old(self).position,
            parse_outcome(r),
            old(self).term_ahead(1) ==> (r matches Ok(e) && Some(e.kind) == atom_kind(old(self).ahead(0)) && final(self).position
                == old(self).position + 1),
            old(self).binary_ahead(1) ==> (r matches Ok(e) && old(self).is_binary_read(e) && final(self).position
                == old(self).position + 3),
        decreases old(self).remaining(), 11int,
    {
        let mut expr = self.parse_and_expr()?;
        while self.at(&Token::Or)
            invariant
                old(self).term_ahead(1) ==> self.position == old(self).position + 1 && Some(expr.kind) == atom_kind(old(self).ahead(0)),
                old(self).binary_ahead(1) ==> (op_level(old(self).ahead(1)) == 1 && self.position == old(self).position + 1
                    && Some(expr.kind) == atom_kind(old(self).ahead(0))) || (self.position == old(self).position + 3
                    && old(self).is_binary_read(expr)),
                Self::moved(*old(self), *self),
                self.position > old(self).position,
            decreases self.remaining(),
        {
            proof {
                lemma_operator_words();
            }
            self.bump();
            let right = self.parse_and_expr()?;
            expr = self.binary(expr, BinaryOp::Or, right);
        }
        Ok(expr)
    }

    fn parse_and_expr(&mut self) -> (r: Result<Expr, Vec<Diagnostic>>)
        requires
            old(self).wf(),
        ensures
            Self::moved(*old(self), *final(self)),
            r is Ok ==> final(self).position > old(self).position,
            parse_outcome(r),
            old(self).term_ahead(2) ==> (r matches Ok(e) && Some(e.kind) == atom_kind(old(self).ahead(0)) && final(self).position
                == old(self).position + 1),
            old(self).binary_ahead(2) ==> (r matches Ok(e) && old(self).is_binary_read(e) && final(self).position
                == old(self).position + 3),
        decreases old(self).remaining(), 10int,
    {
        let mut expr = self.parse_equality_expr()?;
        while self.at(&Token::And)
            invariant
                old(self).term_ahead(2) ==> self.position == old(self).position + 1 && Some(expr.kind) == atom_kind(old(self).ahead(0)),
                old(self).binary_ahead(2) ==> (op_level(old(self).ahead(1)) == 2 && self.position == old(self).position + 1
                    && Some(expr.kind) == atom_kind(old(self).ahead(0))) || (self.position == old(self).position + 3
                    && old(self).is_binary_read(expr)),
                Self::moved(*old(self), *self),
                self.position > old(self).position,
            decreases self.remaining(),
        {
            proof {
                lemma_operator_words();
            }
            self.bump();
            let right = self.parse_equality_expr()?;
            expr = self.binary(expr, BinaryOp::And, right);
        }
        Ok(expr)
    }

    fn parse_equality_expr(&mut self) -> (r: Result<Expr, Vec<Diagnostic>>)
        requires
            old(self).wf(),
        ensures
            Self::moved(*old(self), *final(self)),
            r is Ok ==> final(self).position > old(self).position,
            parse_outcome(r),
            old(self).term_ahead(3) ==> (r matches Ok(e) && Some(e.kind) == atom_kind(old(self).ahead(0)) && final(self).position
                == old(self).position + 1),
            old(self).binary_ahead(3) ==> (r matches Ok(e) && old(self).is_binary_read(e) && final(self).position
                == old(self).position + 3),
        decreases old(self).remaining(), 9int,
    {
        let mut expr = self.parse_compare_expr()?;
        while self.at(&Token::EqualEqual) || self.at(&Token::NotEqual)
            invariant
                old(self).term_ahead(3) ==> self.position == old(self).position + 1 && Some(expr.kind) == atom_kind(old(self).ahead(0)),
                old(self).binary_ahead(3) ==> (op_level(old(self).ahead(1)) == 3 && self.position == old(self).position + 1
                    && Some(expr.kind) == atom_kind(old(self).ahead(0))) || (self.position == old(self).position + 3
                    && old(self).is_binary_read(expr)),
                Self::moved(*old(self), *self),
                self.position > old(self).position,
            decreases self.remaining(),
        {
            let op = if self.at(&Token::EqualEqual) {
                BinaryOp::Equal
            } else {
                BinaryOp::NotEqual
            };
            proof {
                lemma_operator_words();
            }
            self.bump();
            let right = self.parse_compare_expr()?;
            expr = self.binary(expr, op, right);
        }
        Ok(expr)
    }

    fn parse_compare_expr(&mut self) -> (r: Result<Expr, Vec<Diagnostic>>)
        requires
            old(self).wf(),
        ensures
            Self::moved(*old(self), *final(self)),
            r is Ok ==> final(self).position > old(self).position,
            parse_outcome(r),
            old(self).term_ahead(4) ==> (r matches Ok(e) && Some(e.kind) == atom_kind(old(self).ahead(0)) && final(self).position
                == old(self).position + 1),
            old(self).binary_ahead(4) ==> (r matches Ok(e) && old(self).is_binary_read(e) && final(self).position
                == old(self).position + 3),
        decreases old(self).remaining(), 8int,
    {
        let mut expr = self.parse_add_expr()?;
        while self.at(&Token::Less) || self.at(&Token::LessEqual) || self.at(&Token::Greater)
            || self.at(&Token::GreaterEqual)
            invariant
                old(self).term_ahead(4) ==> self.position == old(self).position + 1 && Some(expr.kind) == atom_kind(old(self).ahead(0)),
                old(self).binary_ahead(4) ==> (op_level(old(self).ahead(1)) == 4 && self.position == old(self).position + 1
                    && Some(expr.kind) == atom_kind(old(self).ahead(0))) || (self.position == old(self).position + 3
                    && old(self).is_binary_read(expr)),
                Self::moved(*old(self), *self),
                self.position > old(self).position,
            decreases self.remaining(),
        {
            let op = if self.at(&Token::Less) {
                BinaryOp::Less
            } else if self.at(&Token::LessEqual) {
                BinaryOp::LessEqual
            } else if self.at(&Token::Greater) {
                BinaryOp::Greater
            } else {
                BinaryOp::GreaterEqual
            };
            proof {
                lemma_operator_words();
            }
            self.bump();
            let right = self.parse_add_expr()?;
            expr = self.binary(expr, op, right);
        }
        Ok(expr)
    }

    fn parse_add_expr(&mut self) -> (r: Result<Expr, Vec<Diagnostic>>)
        requires
            old(self).wf(),
        ensures
            Self::moved(*old(self), *final(self)),
            r is Ok ==> final(self).position > old(self).position,
            parse_outcome(r),
            old(self).term_ahead(5) ==> (r matches Ok(e) && Some(e.kind) == atom_kind(old(self).ahead(0)) && final(self).position
                == old(self).position + 1),
            old(self).binary_ahead(5) ==> (r matches Ok(e) && old(self).is_binary_read(e) && final(self).position
                == old(self).position + 3),
        decreases old(self).remaining(), 7int,
    {
        let mut expr = self.parse_mul_expr()?;
        while self.at(&Token::Plus) || self.at(&Token::Minus)
            invariant
                old(self).term_ahead(5) ==> self.position == old(self).position + 1 && Some(expr.kind) == atom_kind(old(self).ahead(0)),
                old(self).binary_ahead(5) ==> (op_level(old(self).ahead(1)) == 5 && self.position == old(self).position + 1
                    && Some(expr.kind) == atom_kind(old(self).ahead(0))) || (self.position == old(self).position + 3
                    && old(self).is_binary_read(expr)),
                Self::moved(*old(self), *self),
                self.position > old(self).position,
            decreases self.remaining(),
        {
            let op = if self.at(&Token::Plus) {
                BinaryOp::Add
            } else {
                BinaryOp::Subtract
            };
            proof {
                lemma_operator_words();
            }
            self.bump();
            let right = self.parse_mul_expr()?;
            expr = self.binary(expr, op, right);
        }
        Ok(expr)
    }

    fn parse_mul_expr(&mut self) -> (r: Result<Expr, Vec<Diagnostic>>)
        requires
            old(self).wf(),
        ensures
            Self::moved(*old(self), *final(self)),
            r is Ok ==> final(self).position > old(self).position,
            parse_outcome(r),
            old(self).term_ahead(6) ==> (r matches Ok(e) && Some(e.kind) == atom_kind(old(self).ahead(0)) && final(self).position
                == old(self).position + 1),
            old(self).binary_ahead(6) ==> (r matches Ok(e) && old(self).is_binary_read(e) && final(self).position
                == old(self).position + 3),
        decreases old(self).remaining(), 6int,
    {
        let mut expr = self.parse_unary_expr()?;
        while self.at(&Token::Star) || self.at(&Token::Slash) || self.at(&Token::Percent)
            invariant
                old(self).term_ahead(6) ==> self.position == old(self).position + 1 && Some(expr.kind) == atom_kind(old(self).ahead(0)),
                old(self).binary_ahead(6) ==> (op_level(old(self).ahead(1)) == 6 && self.position == old(self).position + 1
                    && Some(expr.kind) == atom_kind(old(self).ahead(0))) || (self.position == old(self).position + 3
                    && old(self).is_binary_read(expr)),
                Self::moved(*old(self), *self),
                self.position > old(self).position,
            decreases self.remaining(),
        {
            let op = if self.at(&Token::Star) {
                BinaryOp::Multiply
            } else if self.at(&Token::Slash) {
                BinaryOp::Divide
            } else {
                BinaryOp::Modulo
            };
            proof {
                lemma_operator_words();
            }
            self.bump();
            let right = self.parse_unary_expr()?;
            expr = self.binary(expr, op, right);
        }
        Ok(expr)
    }

    fn parse_unary_expr(&mut self) -> (r: Result<Expr, Vec<Diagnostic>>)
        requires
            old(self).wf(),
        ensures
            Self::moved(*old(self), *final(self)),
            r is Ok ==> final(self).position > old(self).position,
            parse_outcome(r),
            old(self).term_ahead(7) ==> (r matches Ok(e) && Some(e.kind) == atom_kind(old(self).ahead(0)) && final(self).position
                == old(self).position + 1),
        decreases old(self).remaining(), 5int,
    {
        if self.at(&Token::Minus) || self.at(&Token::Not) {
            let span = self.current_span();
            let op = if self.at(&Token::Minus) {
                UnaryOp::Negate
            } else {
                UnaryOp::Not
            };
            self.bump();
            let inner = self.parse_unary_expr()?;
            return Ok(self.expr(span, ExprKind::Unary { op, expr: Box::new(inner) }));
        }
        self.parse_postfix_expr()
    }

    fn parse_postfix_expr(&mut self) -> (r: Result<Expr, Vec<Diagnostic>>)
        requires
            old(self).wf(),
        ensures
            Self::moved(*old(self), *final(self)),
            r is Ok ==> final(self).position > old(self).position,
            parse_outcome(r),
            old(self).term_ahead(7) ==> (r matches Ok(e) && Some(e.kind) == atom_kind(old(self).ahead(0)) && final(self).position
                == old(self).position + 1),
        decreases old(self).remaining(), 4int,
    {
        let mut expr = self.parse_primary_expr()?;
        loop
            invariant
                old(self).term_ahead(7) ==> self.position == old(self).position + 1 && Some(expr.kind) == atom_kind(old(self).ahead(0)),
                Self::moved(*old(self), *self),
                self.position > old(self).position,
            decreases self.remaining(),
        {
            if self.at(&Token::Dot) {
                let span = expr.span.duplicate();
                self.bump();
                let field = self.expect_identifier("expected field name after `.`")?;
                expr = self.expr(span, ExprKind::FieldAccess { base: Box::new(expr), field });
            } else if self.at(&Token::LBracket) {
                let span = expr.span.duplicate();
                self.bump();
                let index = self.parse_expr()?;
                self.expect_simple(Token::RBracket, "expected `]` after index expression")?;
                expr = self.expr(
                    span,
                    ExprKind::Index { base: Box::new(expr), index: Box::new(index) },
                );
            } else if self.at(&Token::LParen) {
                let span = expr.span.duplicate();
                let args = self.parse_args()?;
                expr = self.expr(span, ExprKind::Call { callee: Box::new(expr), args });
            } else {
                break;
            }
        }
        Ok(expr)
    }

    fn parse_primary_expr(&mut self) -> (r: Result<Expr, Vec<Diagnostic>>)
        requires
            old(self).wf(),
        ensures
            Self::moved(*old(self), *final(self)),
            r is Ok ==> final(self).position > old(self).position,
            parse_outcome(r),
            old(self).term_ahead(7) ==> (r matches Ok(e) && Some(e.kind) == atom_kind(old(self).ahead(0)) && final(self).position
                == old(self).position + 1),
        decreases old(self).remaining(), 3int,
    {
        let span = self.current_span();
        match self.current_token() {
            Token::IntLiteral(value) => {
                let value = *value;
                self.bump();
                Ok(self.expr(span, ExprKind::Int(value)))
            },
            Token::DecLiteral(value) => {
                let value = value.clone();
                self.bump();
                Ok(self.expr(span, ExprKind::Dec(value)))
            },
            Token::StringLiteral(value) => {
                let value = value.clone();
                self.bump();
                Ok(self.expr(span, ExprKind::String(value)))
            },
            Token::True => {
                self.bump();
                Ok(self.expr(span, ExprKind::Bool(true)))
            },
            Token::False => {
                self.bump();
                Ok(self.expr(span, ExprKind::Bool(false)))
            },
            Token::NoneKeyword => {
                self.bump();
                Ok(self.expr(span, ExprKind::NoneLiteral))
            },
            Token::Identifier(name) => {
                let name = name.clone();
                self.bump();
                Ok(self.expr(span, ExprKind::Name(name)))
            },
            Token::LBracket => self.parse_list_literal(),
            Token::LBrace => self.parse_map_literal(),
            Token::LParen => self.parse_group_or_tuple_expr(),
            _ => self.fail("expected an expression"),
        }
    }

    fn parse_list_literal(&mut self) -> (r: Result<Expr, Vec<Diagnostic>>)
        requires
            old(self).wf(),
        ensures
            Self::moved(*old(self), *final(self)),
            r is Ok ==> final(self).position > old(self).position,
            parse_outcome(r),
        decreases old(self).remaining(), 2int,
    {
        let span = self.current_span();
        self.expect_simple(Token::LBracket, "expected `[`")?;
        let mut items: Vec<Expr> = Vec::new();
        if !self.at(&Token::RBracket) {
            loop
                invariant
                    Self::moved(*old(self), *self),
                    self.position > old(self).position,
                decreases self.remaining(),
            {
                let item = self.parse_expr()?;
                items.push(item);
                if !self.at(&Token::Comma) {
                    break;
                }
                self.bump();
            }
        }
        self.expect_simple(Token::RBracket, "expected `]` after list literal")?;
        Ok(self.expr(span, ExprKind::List(items)))
    }

    fn parse_map_literal(&mut self) -> (r: Result<Expr, Vec<Diagnostic>>)
        requires
            old(self).wf(),
        ensures
            Self::moved(*old(self), *final(self)),
            r is Ok ==> final(self).position > old(self).position,
            parse_outcome(r),
        decreases old(self).remaining(), 2int,
    {
        let span = self.current_span();
        self.expect_simple(Token::LBrace, "expected `{`")?;
        let mut pairs: Vec<(Expr, Expr)> = Vec::new();
        if !self.at(&Token::RBrace) {
            loop
                invariant
                    Self::moved(*old(self), *self),
                    self.position > old(self).position,
                decreases self.remaining(),
            {
                let key = self.parse_expr()?;
                self.expect_simple(Token::Colon, "expected `:` between map key and value")?;
                let value = self.parse_expr()?;
                pairs.push((key, value));
                if !self.at(&Token::Comma) {
                    break;
                }
                self.bump();
            }
        }
        self.expect_simple(Token::RBrace, "expected `}` after map literal")?;
        Ok(self.expr(span, ExprKind::MapLiteral(pairs)))
    }

    fn parse_group_or_tuple_expr(&mut self) -> (r: Result<Expr, Vec<Diagnostic>>)
        requires
            old(self).wf(),
        ensures
            Self::moved(*old(self), *final(self)),
            r is Ok ==> final(self).position > old(self).position,
            parse_outcome(r),
        decreases old(self).remaining(), 2int,
    {
        let span = self.current_span();
        self.expect_simple(Token::LParen, "expected `(`")?;
        let first = self.parse_expr()?;
        if self.at(&Token::Comma) {
            let mut items: Vec<Expr> = Vec::new();
            items.push(first);
            while self.at(&Token::Comma)
                invariant
                    Self::moved(*old(self), *self),
                    self.position > old(self).position,
                decreases self.remaining(),
            {
                self.bump();
                let item = self.parse_expr()?;
                items.push(item);
            }
            self.expect_simple(Token::RParen, "expected `)` after tuple literal")?;
            Ok(self.expr(span, ExprKind::Tuple(items)))
        } else {
            self.expect_simple(Token::RParen, "expected `)` after grouped expression")?;
            Ok(first)
        }
    }

    fn parse_args(&mut self) -> (r: Result<Vec<CallArg>, Vec<Diagnostic>>)
        requires
            old(self).wf(),
        ensures
            Self::moved(*old(self), *final(self)),
            r is Ok ==> final(self).position > old(self).position,
            parse_outcome(r),
        decreases old(self).remaining(), 2int,
    {
        self.expect_simple(Token::LParen, "expected `(`")?;
        let mut args: Vec<CallArg> = Vec::new();
        if !self.at(&Token::RParen) {
            loop
                invariant
                    Self::moved(*old(self), *self),
                    self.position > old(self).position,
                decreases self.remaining(),
            {
                let span = self.current_span();
                let name = if self.at_named_field() {
                    let n = self.expect_identifier("expected argument name")?;
                    self.expect_simple(Token::Colon, "expected `:` after argument name")?;
                    Some(n)
                } else {
                    None
                };
                let expr = self.parse_expr()?;
                args.push(CallArg { name, expr, span });
                if !self.at(&Token::Comma) {
                    break;
                }
                self.bump();
            }
        }
        self.expect_simple(Token::RParen, "expected `)` after call arguments")?;
        Ok(args)
    }
}

/// Whether the token at `i` is an identifier.
spec fn identifier_at(ts: Seq<SpannedToken>, i: int) -> bool {
    0 <= i < ts.len() && ts[i].token is Identifier
}

/// The position after the `]` that closes a bracket group open to depth
/// `depth` at `c`, or `None` when a newline or the end comes first.
spec fn bracket_end(ts: Seq<SpannedToken>, c: int, depth: int) -> Option<int>
    decreases ts.len() - c,
{
    if c < 0 || c >= ts.len() {
        None
    } else {
        match ts[c].token {
            Token::LBracket => bracket_end(ts, c + 1, depth + 1),
            Token::RBracket => if depth == 1 {
                Some(c + 1)
            } else {
                bracket_end(ts, c + 1, depth - 1)
            },
            Token::Eof | Token::Newline => None,
            _ => bracket_end(ts, c + 1, depth),
        }
    }
}

/// Whether the tokens from `c` on are `.name` and `[...]` steps followed by
/// a token with tag `tag`.
spec fn target_path_then(ts: Seq<SpannedToken>, c: int, tag: u8) -> bool
    decreases ts.len() - c,
{
    if c < 0 || c >= ts.len() {
        false
    } else {
        match ts[c].token {
            Token::Dot => identifier_at(ts, c + 1) && c + 2 <= ts.len() && target_path_then(ts, c + 2, tag),
            Token::LBracket => match bracket_end(ts, c + 1, 1) {
                Some(n) => c < n <= ts.len() && target_path_then(ts, n, tag),
                None => false,
            },
            t => t.tag() == tag,
        }
    }
}

/// The position after the `)` that balances the parentheses open to depth
/// `depth` at `c`, or `None` when a layout token or the end comes first or
/// a `)` closes nothing.
spec fn paren_end(ts: Seq<SpannedToken>, c: int, depth: int) -> Option<int>
    decreases ts.len() - c,
{
    if c < 0 || c >= ts.len() {
        None
    } else {
        match ts[c].token {
            Token::LParen => paren_end(ts, c + 1, depth + 1),
            Token::RParen => if depth == 0 {
                None
            } else if depth == 1 {
                Some(c + 1)
            } else {
                paren_end(ts, c + 1, depth - 1)
            },
            Token::Newline | Token::Indent | Token::Dedent | Token::Eof => None,
            _ => paren_end(ts, c + 1, depth),
        }
    }
}

/// Whether balanced parentheses from `c` are followed by `:=`.
spec fn parens_then_colon_assign(ts: Seq<SpannedToken>, c: int) -> bool {
    match paren_end(ts, c, 0) {
        Some(n) => 0 <= n < ts.len() && ts[n].token is ColonAssign,
        None => false,
    }
}

/// Whether an expression is built from literals only (literals, negated
/// numbers, and lists, tuples and maps of such).
pub open spec fn literal_expr(e: Expr) -> bool
    decreases e, 1int,
{
    match e.kind {
        ExprKind::Int(_) | ExprKind::Dec(_) | ExprKind::String(_) | ExprKind::Bool(_) | ExprKind::NoneLiteral => true,
        ExprKind::Unary { op, expr } => op == UnaryOp::Negate && (expr.kind is Int || expr.kind is Dec),
        ExprKind::List(items) => {
            proof {
                assert(decreases_to!(e => e.kind));
                assert(decreases_to!(e.kind => items));
                assert(decreases_to!(items => items@));
            }
            literal_exprs(items@)
        },
        ExprKind::Tuple(items) => {
            proof {
                assert(decreases_to!(e => e.kind));
                assert(decreases_to!(e.kind => items));
                assert(decreases_to!(items => items@));
            }
            literal_exprs(items@)
        },
        ExprKind::MapLiteral(pairs) => {
            proof {
                assert(decreases_to!(e => e.kind));
                assert(decreases_to!(e.kind => pairs));
                assert(decreases_to!(pairs => pairs@));
            }
            literal_pairs(pairs@)
        },
        _ => false,
    }
}

/// Every expression is built from literals only.
pub open spec fn literal_exprs(xs: Seq<Expr>) -> bool
    decreases xs, 0int,
{
    if xs.len() == 0 {
        true
    } else {
        proof {
            assert(decreases_to!(xs => xs.drop_last()));
            assert(decreases_to!(xs => xs.last()));
        }
        literal_exprs(xs.drop_last()) && literal_expr(xs.last())
    }
}

/// Every key and value is built from literals only.
pub open spec fn literal_pairs(xs: Seq<(Expr, Expr)>) -> bool
    decreases xs, 0int,
{
    if xs.len() == 0 {
        true
    } else {
        proof {
            assert(decreases_to!(xs => xs.drop_last()));
            assert(decreases_to!(xs => xs.last()));
        }
        literal_pairs(xs.drop_last()) && literal_expr(xs.last().0) && literal_expr(xs.last().1)
    }
}

/// `literal_exprs` holds of a prefix exactly when each item of it is built
/// from literals.
proof fn lemma_literal_exprs(xs: Seq<Expr>, n: int)
    requires
        0 <= n <= xs.len(),
    ensures
        literal_exprs(xs.subrange(0, n)) <==> forall|k: int| 0 <= k < n ==> literal_expr(#[trigger] xs[k]),
    decreases n,
{
    if n > 0 {
        assert(xs.subrange(0, n).drop_last() =~= xs.subrange(0, n - 1));
        lemma_literal_exprs(xs, n - 1);
    } else {
        assert(xs.subrange(0, n) =~= Seq::<Expr>::empty());
    }
}

/// `literal_pairs` holds of a prefix exactly when each pair of it is built
/// from literals.
proof fn lemma_literal_pairs(xs: Seq<(Expr, Expr)>, n: int)
    requires
        0 <= n <= xs.len(),
    ensures
        literal_pairs(xs.subrange(0, n)) <==> forall|k: int| 0 <= k < n ==> literal_expr(#[trigger] xs[k].0) && literal_expr(xs[k].1),
    decreases n,
{
    if n > 0 {
        assert(xs.subrange(0, n).drop_last() =~= xs.subrange(0, n - 1));
        lemma_literal_pairs(xs, n - 1);
    } else {
        assert(xs.subrange(0, n) =~= Seq::<(Expr, Expr)>::empty());
    }
}

/// Whether an expression is built from literals only (literals, negated
/// numbers, and lists, tuples and maps of such).
fn expr_is_literal(expr: &Expr) -> (r: bool)
    ensures
        r == literal_expr(*expr),
    decreases expr, 1int,
{
    broadcast use vstd::std_specs::vec::group_vec_axioms;

    match &expr.kind {
        ExprKind::Int(_) | ExprKind::Dec(_) | ExprKind::String(_) | ExprKind::Bool(_)
        | ExprKind::NoneLiteral => true,
        ExprKind::Unary { op: UnaryOp::Negate, expr: inner } => matches!(inner.kind, ExprKind::Int(_) | ExprKind::Dec(_)),
        ExprKind::List(items) => {
            let r = all_literal(items, expr);
            r
        },
        ExprKind::Tuple(items) => {
            let r = all_literal(items, expr);
            r
        },
        ExprKind::MapLiteral(pairs) => {
            let r = all_literal_pairs(pairs, expr);
            r
        },
        _ => false,
    }
}

fn all_literal(items: &Vec<Expr>, parent: &Expr) -> (r: bool)
    requires
        parent.kind == ExprKind::List(*items) || parent.kind == ExprKind::Tuple(*items),
    ensures
        r == literal_exprs(items@),
    decreases parent, 0int,
{
    broadcast use vstd::std_specs::vec::group_vec_axioms;

    proof {
        lemma_literal_exprs(items@, items@.len() as int);
        assert(items@.subrange(0, items@.len() as int) =~= items@);
    }
    let mut i: usize = 0;
    while i < items.len()
        invariant
            i <= items@.len(),
            literal_exprs(items@) <==> forall|k: int| 0 <= k < items@.len() ==> literal_expr(#[trigger] items@[k]),
            forall|k: int| 0 <= k < i ==> literal_expr(#[trigger] items@[k]),
            parent.kind == ExprKind::List(*items) || parent.kind == ExprKind::Tuple(*items),
        decreases items@.len() - i,
    {
        proof {
            assert(decreases_to!(*items => items[i as int]));
            assert(decreases_to!(parent => parent.kind));
            match &parent.kind {
                ExprKind::List(v) => {
                    assert(decreases_to!(parent.kind => *v));
                },
                ExprKind::Tuple(v) => {
                    assert(decreases_to!(parent.kind => *v));
                },
                _ => {},
            }
            assert(decreases_to!(parent => items[i as int]));
        }
        if !expr_is_literal(&items[i]) {
            return false;
        }
        i = i + 1;
    }
    true
}

fn all_literal_pairs(pairs: &Vec<(Expr, Expr)>, parent: &Expr) -> (r: bool)
    requires
        parent.kind == ExprKind::MapLiteral(*pairs),
    ensures
        r == literal_pairs(pairs@),
    decreases parent, 0int,
{
    broadcast use vstd::std_specs::vec::group_vec_axioms;

    proof {
        lemma_literal_pairs(pairs@, pairs@.len() as int);
        assert(pairs@.subrange(0, pairs@.len() as int) =~= pairs@);
    }
    let mut i: usize = 0;
    while i < pairs.len()
        invariant
            i <= pairs@.len(),
            literal_pairs(pairs@) <==> forall|k: int| 0 <= k < pairs@.len() ==> literal_expr(#[trigger] pairs@[k].0)
                && literal_expr(pairs@[k].1),
            forall|k: int| 0 <= k < i ==> literal_expr(#[trigger] pairs@[k].0) && literal_expr(pairs@[k].1),
            parent.kind == ExprKind::MapLiteral(*pairs),
        decreases pairs@.len() - i,
    {
        proof {
            assert(decreases_to!(*pairs => pairs[i as int]));
            assert(decreases_to!(parent => parent.kind));
            match &parent.kind {
                ExprKind::MapLiteral(v) => {
                    assert(decreases_to!(parent.kind => *v));
                },
                _ => {},
            }
            assert(decreases_to!(parent => pairs[i as int].0));
            assert(decreases_to!(parent => pairs[i as int].1));
        }
        let pair = &pairs[i];
        let key_literal = expr_is_literal(&pair.0);
        let value_literal = expr_is_literal(&pair.1);
        assert(key_literal == literal_expr(pairs@[i as int].0) && value_literal == literal_expr(pairs@[i as int].1));
        if !key_literal || !value_literal {
            return false;
        }
        assert forall|k: int| 0 <= k < i + 1 implies literal_expr(#[trigger] pairs@[k].0) && literal_expr(pairs@[k].1) by {
            if k == i {
                assert(literal_expr(pairs@[i as int].0));
            }
        }
        i = i + 1;
    }
    true
}

} // verus!
