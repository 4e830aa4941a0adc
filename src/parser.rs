//! The recursive-descent parser.
use vstd::prelude::*;
use crate::token::{Kind, Token, TokenV, Tokenizer, tokens_view, lex, lemma_scan_advances};
use crate::ast::{Node, NodeV, nodes_view, lemma_nodes_view};
use crate::primitive::Type;
use crate::fault::{Fault, FaultKind};
use crate::grammar::{
    ParseV, kind_at, is_at, unexpected, expect, p_program, first_unknown, p_list, p_statement,
    p_block, p_params, p_params_rest, p_expr, p_expr_rest, p_term, p_term_rest, p_factor, p_args,
    p_args_rest,
};
use crate::text::{chars_of, string_of, same_text};

verus! {

/// Whether a parse gave the tree that the grammar gives, ending where it ends, or the
/// same fault.
pub open spec fn parsed(r: Result<Node, Fault>, end: int, g: ParseV<NodeV>) -> bool {
    match g {
        Ok((n, q)) => r matches Ok(x) && x@ == n && end == q,
        Err(f) => r matches Err(e) && e@ == f,
    }
}

/// The same for a parse of a list.
pub open spec fn parsed_list(r: Result<Vec<Node>, Fault>, end: int, g: ParseV<Seq<NodeV>>) -> bool {
    match g {
        Ok((n, q)) => r matches Ok(x) && nodes_view(x@) == n && end == q,
        Err(f) => r matches Err(e) && e@ == f,
    }
}

/// The tokens of a tokenizer still to come: the one in its lookahead, then the rest
/// of its text.
pub open spec fn pending(lookahead: Option<TokenV>, cs: Seq<char>, pos: int) -> Seq<TokenV> {
    match lookahead {
        Some(t) => seq![t] + lex(cs, pos),
        None => lex(cs, pos),
    }
}

proof fn lemma_nodes_view_push(s: Seq<Node>, x: Node)
    ensures
        nodes_view(s.push(x)) == nodes_view(s).push(x@),
{
    assert(s.push(x).subrange(0, s.len() as int) =~= s);
}

proof fn lemma_nodes_view_prepend(x: Node, s: Seq<Node>)
    ensures
        nodes_view(seq![x] + s) == seq![x@] + nodes_view(s),
{
    lemma_nodes_view(seq![x] + s);
    lemma_nodes_view(s);
    assert(nodes_view(seq![x] + s) =~= seq![x@] + nodes_view(s));
}

/// Reads trees off a sequence of tokens.
pub struct Parser {
    tokens: Vec<Token>,
    position: usize,
}

impl Parser {
    /// The tokens.
    pub closed spec fn toks(&self) -> Seq<TokenV> {
        tokens_view(self.tokens@)
    }

    /// Where reading stands among the tokens.
    pub closed spec fn pos(&self) -> int {
        self.position as int
    }

    pub closed spec fn wf(&self) -> bool {
        self.position <= self.tokens@.len()
    }

    /// A parser over the tokens that `lexer` has still to give.
    pub fn new(lexer: Tokenizer) -> (r: Self)
        requires
            lexer.wf(),
        ensures
            r.wf(),
            r.pos() == 0,
            r.toks() == pending(lexer.lookahead(), lexer.chars(), lexer.pos()),
    {
        let ghost all = pending(lexer.lookahead(), lexer.chars(), lexer.pos());
        let ghost cs = lexer.chars();
        let mut lexer = lexer;
        proof {
            lexer.lemma_wf();
        }
        let mut tokens: Vec<Token> = Vec::new();
        if let Some(t) = lexer.get() {
            tokens.push(t);
        }
        proof {
            lemma_scan_advances(cs, lexer.pos());
        }
        let mut cur = lexer.next();
        proof {
            assert(tokens_view(tokens@) + match cur {
                Some(t) => seq![t@] + lex(cs, lexer.pos()),
                None => Seq::<TokenV>::empty(),
            } =~= all);
        }
        while cur.is_some()
            invariant
                lexer.wf(),
                lexer.chars() == cs,
                0 <= lexer.pos() <= cs.len(),
                tokens_view(tokens@) + match cur {
                    Some(t) => seq![t@] + lex(cs, lexer.pos()),
                    None => Seq::<TokenV>::empty(),
                } == all,
            decreases cs.len() - lexer.pos() + if cur is Some { 1int } else { 0int },
        {
            let t = cur.unwrap();
            let ghost before = lexer.pos();
            proof {
                lemma_scan_advances(cs, lexer.pos());
            }
            let ghost tv = t@;
            tokens.push(t);
            cur = lexer.next();
            proof {
                assert(tokens_view(tokens@) =~= tokens_view(tokens@.drop_last()).push(tv));
                assert(tokens@.drop_last() =~= tokens@.subrange(0, tokens@.len() - 1));
                assert(tokens_view(tokens@) + match cur {
                    Some(t) => seq![t@] + lex(cs, lexer.pos()),
                    None => Seq::<TokenV>::empty(),
                } =~= all);
            }
        }
        Parser { tokens, position: 0 }
    }

    fn at_kind(&self, offset: usize, k: Kind) -> (r: bool)
        requires
            self.wf(),
            offset <= 2,
        ensures
            r == (kind_at(self.toks(), self.pos() + offset) == Some(k)),
    {
        offset < self.tokens.len() - self.position && self.tokens[self.position + offset].kind == k
    }

    fn is_here(&self, k: Kind, lit: &str) -> (r: bool)
        requires
            self.wf(),
        ensures
            r == is_at(self.toks(), self.pos(), k, lit@),
    {
        self.position < self.tokens.len() && self.tokens[self.position].kind == k && same_text(
            self.tokens[self.position].value.as_str(),
            lit,
        )
    }

    fn unexpected_at(&self, at: usize, expected: Option<Kind>) -> (r: Fault)
        ensures
            r@ == unexpected(self.toks(), at as int, expected),
    {
        let detail = if at < self.tokens.len() {
            self.tokens[at].value.clone()
        } else {
            string_of(&chars_of("end of file"))
        };
        Fault::at(FaultKind::ParseError, detail, expected, at)
    }

    fn take(&mut self) -> (r: Token)
        requires
            old(self).wf(),
            old(self).pos() < old(self).toks().len(),
        ensures
            final(self).wf(),
            final(self).toks() == old(self).toks(),
            final(self).pos() == old(self).pos() + 1,
            r@ == old(self).toks()[old(self).pos()],
    {
        assert(self.toks().len() == self.tokens@.len());
        let n = self.tokens.len();
        assert(self.position < n);
        let t = self.tokens[self.position].copy();
        self.position = self.position + 1;
        t
    }

    fn expect(&mut self, k: Kind) -> (r: Result<Token, Fault>)
        requires
            old(self).wf(),
        ensures
            final(self).wf(),
            final(self).toks() == old(self).toks(),
            match expect(old(self).toks(), old(self).pos(), k) {
                Ok(_) => r matches Ok(t) && t@ == old(self).toks()[old(self).pos()] && final(self).pos()
                    == old(self).pos() + 1,
                Err(f) => r matches Err(e) && e@ == f,
            },
    {
        if self.at_kind(0, k) {
            Ok(self.take())
        } else {
            Err(self.unexpected_at(self.position, Some(k)))
        }
    }

    /// Parses a program from the reading position: the statement list found there,
    /// after a check that the text held no character that starts no token.
    pub fn parse(&mut self) -> (r: Result<Node, Fault>)
        requires
            old(self).wf(),
        ensures
            final(self).wf(),
            match p_program(old(self).toks(), old(self).pos()) {
                Ok(n) => r matches Ok(x) && x@ == n,
                Err(f) => r matches Err(e) && e@ == f,
            },
    {
        let ghost t = self.toks();
        let mut i: usize = 0;
        while i < self.tokens.len()
            invariant
                self.wf(),
                t == self.toks(),
                i <= t.len(),
                forall|j: int| 0 <= j < i ==> (#[trigger] t[j]).kind != Kind::Unknown,
                first_unknown(t, 0) == first_unknown(t, i as int),
            decreases self.tokens.len() - i,
        {
            if self.tokens[i].kind == Kind::Unknown {
                let detail = self.tokens[i].value.clone();
                return Err(Fault::at(FaultKind::LexError, detail, None, i));
            }
            i = i + 1;
        }
        match self.statement_list() {
            Ok(stmts) => Ok(Node::main(stmts)),
            Err(e) => Err(e),
        }
    }

    fn statement_list(&mut self) -> (r: Result<Vec<Node>, Fault>)
        requires
            old(self).wf(),
        ensures
            final(self).wf(),
            final(self).toks() == old(self).toks(),
            parsed_list(r, final(self).pos(), p_list(old(self).toks(), old(self).pos())),
            r is Ok ==> final(self).pos() >= old(self).pos(),
        decreases old(self).toks().len() - old(self).pos(), 20nat,
    {
        let s = match self.statement() {
            Ok(s) => s,
            Err(e) => return Err(e),
        };
        if self.at_kind(0, Kind::StatementEnd) {
            self.take();
            let mut rest = match self.statement_list() {
                Ok(v) => v,
                Err(e) => return Err(e),
            };
            proof {
                lemma_nodes_view_prepend(s, rest@);
                assert(rest@.insert(0, s) =~= seq![s] + rest@);
            }
            rest.insert(0, s);
            Ok(rest)
        } else {
            let v = vec![s];
            proof {
                lemma_nodes_view(v@);
                assert(nodes_view(v@) =~= seq![s@]);
            }
            Ok(v)
        }
    }

    fn statement(&mut self) -> (r: Result<Node, Fault>)
        requires
            old(self).wf(),
        ensures
            final(self).wf(),
            final(self).toks() == old(self).toks(),
            parsed(r, final(self).pos(), p_statement(old(self).toks(), old(self).pos())),
            r is Ok ==> final(self).pos() >= old(self).pos(),
        decreases old(self).toks().len() - old(self).pos(), 19nat,
    {
        if self.position >= self.tokens.len() {
            return Ok(Node::empty());
        }
        let k = self.tokens[self.position].kind;
        match k {
            Kind::Return => {
                self.position = self.position + 1;
                match self.expr() {
                    Ok(e) => Ok(Node::_return(e)),
                    Err(f) => Err(f),
                }
            },
            Kind::StdOut => {
                self.position = self.position + 1;
                match self.expr() {
                    Ok(e) => Ok(Node::print(e)),
                    Err(f) => Err(f),
                }
            },
            Kind::ImmutableDefine | Kind::MutableDefine | Kind::FunctionDefine => self.define_statement(),
            Kind::ID => {
                if self.at_kind(1, Kind::Assign) {
                    self.assign_statement()
                } else {
                    self.expr()
                }
            },
            Kind::Begin => self.block(),
            Kind::While => self._while(),
            Kind::If => self._if(),
            Kind::End | Kind::Else | Kind::StatementEnd => Ok(Node::empty()),
            _ => self.expr(),
        }
    }

    fn assign_statement(&mut self) -> (r: Result<Node, Fault>)
        requires
            old(self).wf(),
            kind_at(old(self).toks(), old(self).pos()) == Some(Kind::ID),
            kind_at(old(self).toks(), old(self).pos() + 1) == Some(Kind::Assign),
        ensures
            final(self).wf(),
            final(self).toks() == old(self).toks(),
            parsed(r, final(self).pos(), p_statement(old(self).toks(), old(self).pos())),
            r is Ok ==> final(self).pos() >= old(self).pos(),
        decreases old(self).toks().len() - old(self).pos(), 18nat,
    {
        let name = self.take();
        self.take();
        match self.expr() {
            Ok(e) => Ok(Node::reassign(Node::indentifier(name), e)),
            Err(f) => Err(f),
        }
    }

    fn block(&mut self) -> (r: Result<Node, Fault>)
        requires
            old(self).wf(),
        ensures
            final(self).wf(),
            final(self).toks() == old(self).toks(),
            parsed(r, final(self).pos(), p_block(old(self).toks(), old(self).pos())),
            r is Ok ==> final(self).pos() >= old(self).pos(),
        decreases old(self).toks().len() - old(self).pos(), 18nat,
    {
        match self.expect(Kind::Begin) {
            Ok(_) => {},
            Err(e) => return Err(e),
        }
        let stmts = match self.statement_list() {
            Ok(v) => v,
            Err(e) => return Err(e),
        };
        match self.expect(Kind::End) {
            Ok(_) => {},
            Err(e) => return Err(e),
        }
        Ok(Node::block(stmts))
    }

    fn _while(&mut self) -> (r: Result<Node, Fault>)
        requires
            old(self).wf(),
            kind_at(old(self).toks(), old(self).pos()) == Some(Kind::While),
        ensures
            final(self).wf(),
            final(self).toks() == old(self).toks(),
            parsed(r, final(self).pos(), p_statement(old(self).toks(), old(self).pos())),
            r is Ok ==> final(self).pos() >= old(self).pos(),
        decreases old(self).toks().len() - old(self).pos(), 18nat,
    {
        self.take();
        let c = match self.expr() {
            Ok(c) => c,
            Err(e) => return Err(e),
        };
        match self.block() {
            Ok(b) => Ok(Node::conditional(c, b)),
            Err(e) => Err(e),
        }
    }

    fn _if(&mut self) -> (r: Result<Node, Fault>)
        requires
            old(self).wf(),
            kind_at(old(self).toks(), old(self).pos()) == Some(Kind::If),
        ensures
            final(self).wf(),
            final(self).toks() == old(self).toks(),
            parsed(r, final(self).pos(), p_statement(old(self).toks(), old(self).pos())),
            r is Ok ==> final(self).pos() >= old(self).pos(),
        decreases old(self).toks().len() - old(self).pos(), 18nat,
    {
        self.take();
        let condition = match self.expr() {
            Ok(c) => c,
            Err(e) => return Err(e),
        };
        match self.expect(Kind::Begin) {
            Ok(_) => {},
            Err(e) => return Err(e),
        }
        let then_stmts = match self.statement_list() {
            Ok(v) => v,
            Err(e) => return Err(e),
        };
        let else_node = if self.at_kind(0, Kind::Else) {
            self.take();
            match self.statement_list() {
                Ok(v) => Node::block(v),
                Err(e) => return Err(e),
            }
        } else {
            Node::empty()
        };
        match self.expect(Kind::End) {
            Ok(_) => {},
            Err(e) => return Err(e),
        }
        Ok(Node::ifelse(condition, Node::block(then_stmts), else_node))
    }

    fn define_statement(&mut self) -> (r: Result<Node, Fault>)
        requires
            old(self).wf(),
            kind_at(old(self).toks(), old(self).pos()) == Some(Kind::ImmutableDefine) || kind_at(
                old(self).toks(),
                old(self).pos(),
            ) == Some(Kind::MutableDefine) || kind_at(old(self).toks(), old(self).pos()) == Some(
                Kind::FunctionDefine,
            ),
        ensures
            final(self).wf(),
            final(self).toks() == old(self).toks(),
            parsed(r, final(self).pos(), p_statement(old(self).toks(), old(self).pos())),
            r is Ok ==> final(self).pos() >= old(self).pos(),
        decreases old(self).toks().len() - old(self).pos(), 18nat,
    {
        let def = self.take();
        if !self.at_kind(0, Kind::ID) {
            return Err(self.unexpected_at(self.position, Some(Kind::ID)));
        }
        let id = Node::indentifier(self.take());
        if def.kind == Kind::MutableDefine && !self.at_kind(0, Kind::Assign) {
            return Ok(Node::define_mutable(id, Node::empty()));
        }
        if !self.at_kind(0, Kind::Assign) {
            return Err(self.unexpected_at(self.position, Some(Kind::Assign)));
        }
        self.take();
        if def.kind == Kind::FunctionDefine {
            match self.expect(Kind::FunctionParamBegin) {
                Ok(_) => {},
                Err(e) => return Err(e),
            }
            let params = match self.params_list() {
                Ok(v) => v,
                Err(e) => return Err(e),
            };
            match self.expect(Kind::FunctionParamEnd) {
                Ok(_) => {},
                Err(e) => return Err(e),
            }
            match self.block() {
                Ok(b) => Ok(Node::define_function(id, params, b)),
                Err(e) => Err(e),
            }
        } else {
            let e = match self.expr() {
                Ok(e) => e,
                Err(f) => return Err(f),
            };
            if def.kind == Kind::MutableDefine {
                Ok(Node::define_mutable(id, e))
            } else {
                Ok(Node::define_immutable(id, e))
            }
        }
    }

    fn params_list(&mut self) -> (r: Result<Vec<Node>, Fault>)
        requires
            old(self).wf(),
        ensures
            final(self).wf(),
            final(self).toks() == old(self).toks(),
            parsed_list(r, final(self).pos(), p_params(old(self).toks(), old(self).pos())),
            r is Ok ==> final(self).pos() >= old(self).pos(),
    {
        let mut params: Vec<Node> = Vec::new();
        if !self.at_kind(0, Kind::ID) {
            assert(nodes_view(params@) =~= Seq::<NodeV>::empty());
            return Ok(params);
        }
        let first = Node::indentifier(self.take());
        proof {
            lemma_nodes_view_push(params@, first);
            assert(nodes_view(params@) =~= Seq::<NodeV>::empty());
        }
        params.push(first);
        while self.at_kind(0, Kind::Separator)
            invariant
                self.wf(),
                self.toks() == old(self).toks(),
                self.pos() > old(self).pos(),
                p_params(old(self).toks(), old(self).pos()) == p_params_rest(
                    self.toks(),
                    self.pos(),
                    nodes_view(params@),
                ),
            decreases self.toks().len() - self.pos(),
        {
            self.take();
            if !self.at_kind(0, Kind::ID) {
                return Err(self.unexpected_at(self.position, Some(Kind::ID)));
            }
            let p = Node::indentifier(self.take());
            proof {
                lemma_nodes_view_push(params@, p);
            }
            params.push(p);
        }
        Ok(params)
    }

    /// Parses an expression from the reading position.
    pub fn expr(&mut self) -> (r: Result<Node, Fault>)
        requires
            old(self).wf(),
        ensures
            final(self).wf(),
            final(self).toks() == old(self).toks(),
            parsed(r, final(self).pos(), p_expr(old(self).toks(), old(self).pos())),
            r is Ok ==> final(self).pos() >= old(self).pos(),
        decreases old(self).toks().len() - old(self).pos(), 15nat,
    {
        let mut result = match self.term() {
            Ok(l) => l,
            Err(e) => return Err(e),
        };
        loop
            invariant
                self.wf(),
                self.toks() == old(self).toks(),
                self.pos() >= old(self).pos(),
                p_expr(old(self).toks(), old(self).pos()) == p_expr_rest(self.toks(), self.pos(), result@),
            decreases self.toks().len() - self.pos(),
        {
            let low = self.is_here(Kind::Operator, "+") || self.is_here(Kind::Operator, "-");
            let conn = self.is_here(Kind::Comparison, "and") || self.is_here(Kind::Comparison, "&&")
                || self.is_here(Kind::Comparison, "or") || self.is_here(Kind::Comparison, "||");
            if !low && !conn {
                return Ok(result);
            }
            let op = self.take();
            let right = match self.term() {
                Ok(r) => r,
                Err(e) => return Err(e),
            };
            result = if low {
                Node::binary(result, op, right)
            } else {
                Node::comparison(result, op, right)
            };
        }
    }

    fn term(&mut self) -> (r: Result<Node, Fault>)
        requires
            old(self).wf(),
        ensures
            final(self).wf(),
            final(self).toks() == old(self).toks(),
            parsed(r, final(self).pos(), p_term(old(self).toks(), old(self).pos())),
            r is Ok ==> final(self).pos() >= old(self).pos(),
        decreases old(self).toks().len() - old(self).pos(), 13nat,
    {
        let mut result = match self.factor() {
            Ok(l) => l,
            Err(e) => return Err(e),
        };
        loop
            invariant
                self.wf(),
                self.toks() == old(self).toks(),
                self.pos() >= old(self).pos(),
                p_term(old(self).toks(), old(self).pos()) == p_term_rest(self.toks(), self.pos(), result@),
            decreases self.toks().len() - self.pos(),
        {
            let high = self.is_here(Kind::Operator, "*") || self.is_here(Kind::Operator, "/")
                || self.is_here(Kind::Operator, "%");
            let rel = self.is_here(Kind::Comparison, "==") || self.is_here(Kind::Comparison, "!=")
                || self.is_here(Kind::Comparison, ">") || self.is_here(Kind::Comparison, "<");
            if !high && !rel {
                return Ok(result);
            }
            let op = self.take();
            let right = match self.factor() {
                Ok(r) => r,
                Err(e) => return Err(e),
            };
            result = if high {
                Node::binary(result, op, right)
            } else {
                Node::comparison(result, op, right)
            };
        }
    }

    fn factor(&mut self) -> (r: Result<Node, Fault>)
        requires
            old(self).wf(),
        ensures
            final(self).wf(),
            final(self).toks() == old(self).toks(),
            parsed(r, final(self).pos(), p_factor(old(self).toks(), old(self).pos())),
            r is Ok ==> final(self).pos() >= old(self).pos(),
        decreases old(self).toks().len() - old(self).pos(), 11nat,
    {
        if self.position >= self.tokens.len() {
            return Err(self.unexpected_at(self.position, None));
        }
        if self.is_here(Kind::Operator, "+") || self.is_here(Kind::Operator, "-") {
            let op = self.take();
            return match self.factor() {
                Ok(x) => Ok(Node::unary(op, x)),
                Err(e) => Err(e),
            };
        }
        let k = self.tokens[self.position].kind;
        match k {
            Kind::GroupBegin => {
                self.take();
                let e = match self.expr() {
                    Ok(e) => e,
                    Err(f) => return Err(f),
                };
                match self.expect(Kind::GroupEnd) {
                    Ok(_) => Ok(e),
                    Err(f) => Err(f),
                }
            },
            Kind::Integer => {
                let at = self.position;
                let tok = self.take();
                match Type::from(&tok) {
                    Type::Int(_) => Ok(Node::constant(tok)),
                    _ => Err(Fault::at(FaultKind::Overflow, tok.value, None, at)),
                }
            },
            Kind::Bolean => Ok(Node::constant(self.take())),
            Kind::ID => {
                if self.at_kind(1, Kind::GroupBegin) {
                    self.function_call()
                } else {
                    Ok(Node::indentifier(self.take()))
                }
            },
            _ => Err(self.unexpected_at(self.position, None)),
        }
    }

    fn function_call(&mut self) -> (r: Result<Node, Fault>)
        requires
            old(self).wf(),
            kind_at(old(self).toks(), old(self).pos()) == Some(Kind::ID),
            kind_at(old(self).toks(), old(self).pos() + 1) == Some(Kind::GroupBegin),
        ensures
            final(self).wf(),
            final(self).toks() == old(self).toks(),
            parsed(r, final(self).pos(), p_factor(old(self).toks(), old(self).pos())),
            r is Ok ==> final(self).pos() >= old(self).pos(),
        decreases old(self).toks().len() - old(self).pos(), 10nat,
    {
        let name = Node::indentifier(self.take());
        self.take();
        let args = match self.args_list() {
            Ok(v) => v,
            Err(e) => return Err(e),
        };
        match self.expect(Kind::GroupEnd) {
            Ok(_) => Ok(Node::call_function(name, args)),
            Err(e) => Err(e),
        }
    }

    fn args_list(&mut self) -> (r: Result<Vec<Node>, Fault>)
        requires
            old(self).wf(),
        ensures
            final(self).wf(),
            final(self).toks() == old(self).toks(),
            parsed_list(r, final(self).pos(), p_args(old(self).toks(), old(self).pos())),
            r is Ok ==> final(self).pos() >= old(self).pos(),
        decreases old(self).toks().len() - old(self).pos(), 17nat,
    {
        let mut args: Vec<Node> = Vec::new();
        if self.at_kind(0, Kind::GroupEnd) {
            assert(nodes_view(args@) =~= Seq::<NodeV>::empty());
            return Ok(args);
        }
        let first = match self.expr() {
            Ok(e) => e,
            Err(f) => return Err(f),
        };
        proof {
            lemma_nodes_view_push(args@, first);
            assert(nodes_view(args@) =~= Seq::<NodeV>::empty());
        }
        args.push(first);
        while self.at_kind(0, Kind::Separator)
            invariant
                self.wf(),
                self.toks() == old(self).toks(),
                self.pos() >= old(self).pos(),
                p_args(old(self).toks(), old(self).pos()) == p_args_rest(
                    self.toks(),
                    self.pos(),
                    nodes_view(args@),
                ),
            decreases self.toks().len() - self.pos(),
        {
            self.take();
            let e = match self.expr() {
                Ok(e) => e,
                Err(f) => return Err(f),
            };
            proof {
                lemma_nodes_view_push(args@, e);
            }
            args.push(e);
        }
        Ok(args)
    }
}

} // verus!
