//! A program: a collection of registered source files, each addressed by
//! a key, and the pipeline that lexes, parses and runs one of them.

use vstd::prelude::*;

use slotmap::Key;

use crate::ast::{AstNode, AstV};
use crate::error::{Error, ErrorKindV, ErrorV, RuntimeErrorV};
use crate::interpreter::{eval_node, FlowV, Interpreter, StV};
use crate::lexer::{spec_tokenize, Lexer};
use crate::parser::{spec_parse, Parser};
use crate::span::Span;
use crate::token::TokenV;
use crate::value::{Value, ValueV};

verus! {

/// A source file that contains some source code.
#[derive(Debug)]
pub struct Source {
    /// The name of the source, used purely for diagnostics.
    pub name: String,
    /// The content of the source.
    pub content: String,
}

/// The source buffer a token stream points into: what its first token
/// names, as the parser derives it.
pub open spec fn source_of(ts: Seq<TokenV>) -> u64 {
    if ts.len() > 0 {
        ts[0].span.source
    } else {
        0u64
    }
}

impl Source {
    /// Register a source from its name and content.
    pub fn new(name: String, content: String) -> (r: Source)
        ensures
            r.name@ == name@,
            r.content@ == content@,
    {
        Source { name, content }
    }

    /// Lexes the source file under the given key.
    pub fn lex(&self, key: u64) -> (r: Result<Vec<crate::token::Token>, Error>)
        ensures
            match r {
                Ok(v) => spec_tokenize(self.content@, key) == Ok::<Seq<TokenV>, ErrorV>(
                    crate::lexer::view_tokens(v@),
                ),
                Err(e) => spec_tokenize(self.content@, key) == Err::<Seq<TokenV>, ErrorV>(e@),
            },
    {
        Lexer::new(key, self).tokenize()
    }

    /// Lexes and parses the source file under the given key.
    pub fn parse(&self, key: u64) -> (r: Result<AstNode, Error>)
        ensures
            match r {
                Ok(ast) => exists|ts: Seq<TokenV>|
                    spec_tokenize(self.content@, key) == Ok::<Seq<TokenV>, ErrorV>(ts)
                        && spec_parse(ts, source_of(ts)) == Ok::<AstV, ErrorV>(ast@),
                Err(e) => spec_tokenize(self.content@, key) == Err::<Seq<TokenV>, ErrorV>(e@) || (
                exists|ts: Seq<TokenV>|
                    spec_tokenize(self.content@, key) == Ok::<Seq<TokenV>, ErrorV>(ts)
                        && spec_parse(ts, source_of(ts)) == Err::<AstV, ErrorV>(e@)),
            },
    {
        let tokens = match self.lex(key) {
            Ok(ts) => ts,
            Err(e) => {
                return Err(e);
            },
        };
        let ghost tsv = crate::lexer::view_tokens(tokens@);
        let ghost toks0 = tokens@;
        let mut parser = Parser::new(tokens);
        proof {
            assert(crate::parser::toks_of(toks0) =~= tsv);
            if toks0.len() > 0 {
                assert(tsv[0] == toks0[0]@);
            }
            assert(parser.source == source_of(tsv));
        }
        parser.parse()
    }
}

/// The sources a program has registered, in a slot map keyed by the
/// handles handed out at registration.
#[verifier::external_body]
pub struct SourceStore {
    map: slotmap::SlotMap<slotmap::DefaultKey, Source>,
}

/// What the store holds: each handed-out key, mapped to the name and
/// content of its source.
pub uninterp spec fn store_contents(s: SourceStore) -> Map<u64, (Seq<char>, Seq<char>)>;

/// The contents of a store with nothing registered.
pub open spec fn empty_store() -> Map<u64, (Seq<char>, Seq<char>)> {
    Map::empty()
}

/// Relies on `slotmap::SlotMap::new`: a new slot map holds nothing.
#[verifier::external_body]
fn store_new() -> (r: SourceStore)
    ensures
        store_contents(r) == empty_store(),
{
    SourceStore { map: slotmap::SlotMap::new() }
}

/// Relies on `slotmap::SlotMap::insert`, which returns a key no earlier
/// insertion returned (this store never removes), and on
/// `KeyData::as_ffi`, whose value `from_ffi` takes back to an equal key.
/// `insert` panics only when the map is full, which the length bound
/// rules out.
#[verifier::external_body]
fn store_insert(s: &mut SourceStore, source: Source) -> (r: u64)
    requires
        store_contents(*old(s)).dom().finite(),
        store_contents(*old(s)).dom().len() < 0xffff_fffe,
    ensures
        !store_contents(*old(s)).dom().contains(r),
        store_contents(*final(s)) == store_contents(*old(s)).insert(
            r,
            (source.name@, source.content@),
        ),
        store_contents(*final(s)).dom().finite(),
{
    let key = s.map.insert(source);
    key.data().as_ffi()
}

/// Relies on `slotmap::SlotMap::get` and `KeyData::from_ffi`: a key the
/// store handed out finds exactly the source it was handed out for; a
/// key the store never handed out may find nothing.
#[verifier::external_body]
fn store_get(s: &SourceStore, key: u64) -> (r: Option<&Source>)
    ensures
        store_contents(*s).dom().contains(key) ==> (match r {
            Some(source) => (source.name@, source.content@) == store_contents(*s)[key],
            None => false,
        }),
        r is None ==> !store_contents(*s).dom().contains(key),
{
    s.map.get(slotmap::DefaultKey::from(slotmap::KeyData::from_ffi(key)))
}

/// A program: a collection of registered source files and the pipeline
/// that runs one of them through the tokenizer, the parser and a fresh
/// evaluator.
pub struct Program {
    pub sources: SourceStore,
    /// How many sources have been registered.
    pub count: u64,
}

impl Program {
    /// The registered sources: each key, with its source's name and
    /// content.
    pub open spec fn sources_map(&self) -> Map<u64, (Seq<char>, Seq<char>)> {
        store_contents(self.sources)
    }

    /// The store counts its sources, and has room for more.
    pub open spec fn wf(&self) -> bool {
        self.sources_map().dom().finite() && self.sources_map().dom().len() == self.count
            && self.count <= 0xffff_0000
    }

    /// Creates a new program with no sources.
    pub fn new() -> (r: Program)
        ensures
            r.wf(),
            r.sources_map() == empty_store(),
            r.count == 0,
    {
        Program { sources: store_new(), count: 0 }
    }

    /// How many sources have been registered.
    pub fn source_count(&self) -> (r: u64)
        ensures
            r == self.count,
    {
        self.count
    }

    /// Register a new source file with the program; the key returned
    /// addresses it from now on.
    pub fn add_source(&mut self, name: String, content: String) -> (r: u64)
        requires
            old(self).wf(),
            old(self).count < 0xffff_0000,
        ensures
            final(self).wf(),
            !old(self).sources_map().dom().contains(r),
            final(self).sources_map() == old(self).sources_map().insert(
                r,
                (name@, content@),
            ),
            final(self).count == old(self).count + 1,
    {
        let r = store_insert(&mut self.sources, Source { name, content });
        self.count = self.count + 1;
        proof {
            broadcast use vstd::set::axiom_set_insert_len;

            assert(self.sources_map().dom() =~= old(self).sources_map().dom().insert(r));
        }
        r
    }

    /// Executes the given source file by key: tokenize, parse, and
    /// evaluate with a fresh scope stack.
    pub fn run(&mut self, key: u64) -> (r: Result<Value, Error>)
        requires
            old(self).wf(),
            old(self).sources_map().dom().contains(key),
        ensures
            *final(self) == *old(self),
            ({
                let content = old(self).sources_map()[key].1;
                match r {
                    Ok(v) => exists|ts: Seq<TokenV>, ast: AstV, f: nat, stf: StV|
                        {
                            &&& spec_tokenize(content, key) == Ok::<Seq<TokenV>, ErrorV>(ts)
                            &&& spec_parse(ts, source_of(ts)) == Ok::<AstV, ErrorV>(ast)
                            &&& eval_node(ast, seq![Map::<Seq<char>, ValueV>::empty()], f)
                                == Some(
                                Ok::<(FlowV, StV), ErrorV>((FlowV::Normal(v@), stf)),
                            )
                        },
                    Err(e) => spec_tokenize(content, key) == Err::<Seq<TokenV>, ErrorV>(e@) || (
                    exists|ts: Seq<TokenV>|
                        spec_tokenize(content, key) == Ok::<Seq<TokenV>, ErrorV>(ts)
                            && spec_parse(ts, source_of(ts)) == Err::<AstV, ErrorV>(e@)) || (
                    exists|ts: Seq<TokenV>, ast: AstV|
                        {
                            &&& spec_tokenize(content, key) == Ok::<Seq<TokenV>, ErrorV>(ts)
                            &&& spec_parse(ts, source_of(ts)) == Ok::<AstV, ErrorV>(ast)
                            &&& ((exists|f: nat|
                                eval_node(ast, seq![Map::<Seq<char>, ValueV>::empty()], f)
                                    == Some(Err::<(FlowV, StV), ErrorV>(e@))) || (exists|
                                f: nat,
                                sp: Span,
                                stf: StV,
                            |
                                eval_node(ast, seq![Map::<Seq<char>, ValueV>::empty()], f)
                                    == Some(
                                    Ok::<(FlowV, StV), ErrorV>((FlowV::Break(sp), stf)),
                                ) && e@ == (ErrorV {
                                    span: sp,
                                    kind: ErrorKindV::Runtime(RuntimeErrorV::BreakOutsideLoop),
                                })) || (exists|f: nat, sp: Span, stf: StV|
                                eval_node(ast, seq![Map::<Seq<char>, ValueV>::empty()], f)
                                    == Some(
                                    Ok::<(FlowV, StV), ErrorV>((FlowV::Continue(sp), stf)),
                                ) && e@ == (ErrorV {
                                    span: sp,
                                    kind: ErrorKindV::Runtime(
                                        RuntimeErrorV::ContinueOutsideLoop,
                                    ),
                                })) || (e@.kind == ErrorKindV::Runtime(RuntimeErrorV::LoopLimit)
                                && eval_node(
                                    ast,
                                    seq![Map::<Seq<char>, ValueV>::empty()],
                                    0,
                                ) is None))
                        }),
                }
            }),
    {
        let source = match store_get(&self.sources, key) {
            Some(source) => source,
            None => {
                // never reached: the key is required to be registered
                proof {
                    assert(false);
                }
                return Err(
                    Error {
                        span: Span { start: 0, end: 0, source: key },
                        kind: crate::error::ErrorKind::Runtime(
                            crate::error::RuntimeError::UndefinedVariable {
                                name: String::new(),
                            },
                        ),
                    },
                );
            },
        };
        let ast = match source.parse(key) {
            Ok(ast) => ast,
            Err(e) => {
                return Err(e);
            },
        };
        let mut interpreter = Interpreter::new();
        interpreter.run(ast)
    }
}

} // verus!
