//! The grammar of the source language. A program is a list of lines; a
//! line holds one declaration, and a block header is followed by the lines
//! of its body up to a line that holds a closing brace.

use vstd::prelude::*;

use crate::ast::{decls_of, AstNode, Decl};
use crate::lexer::{
    ends_with_brace, is_blank, is_just, lines_of, quoted, reads, split_lines, texts_of, word_at,
    Line,
};

verus! {

/// Why a source text is no program.
#[derive(Debug, PartialEq, Eq)]
pub enum ParseError {
    /// The line begins with a word that opens no declaration.
    UnknownSyntax(String),
    /// The line lacks a word that its declaration needs.
    MissingWord(String),
    /// The line of an assumption holds no double quote.
    MissingQuote(String),
    /// A block header is not followed by an opening brace.
    ExpectedBrace,
}

/// A [`ParseError`] as a mathematical value.
pub enum ParseFailure {
    UnknownSyntax(Seq<char>),
    MissingWord(Seq<char>),
    MissingQuote(Seq<char>),
    ExpectedBrace,
}

impl View for ParseError {
    type V = ParseFailure;

    open spec fn view(&self) -> ParseFailure {
        match self {
            ParseError::UnknownSyntax(line) => ParseFailure::UnknownSyntax(line@),
            ParseError::MissingWord(line) => ParseFailure::MissingWord(line@),
            ParseError::MissingQuote(line) => ParseFailure::MissingQuote(line@),
            ParseError::ExpectedBrace => ParseFailure::ExpectedBrace,
        }
    }
}

/// Declarations, and the line at which what follows them begins.
pub type Parsed = Result<(Seq<Decl>, int), ParseFailure>;

/// The line after the opening brace, where the brace stands alone on the
/// first line from `pos` on that is not blank.
pub open spec fn brace_after(lines: Seq<Seq<char>>, pos: int) -> Option<int>
    decreases lines.len() - pos,
{
    if pos < 0 || pos >= lines.len() {
        None
    } else if is_blank(lines[pos]) {
        brace_after(lines, pos + 1)
    } else if is_just(lines[pos], '{') {
        Some(pos + 1)
    } else {
        None
    }
}

/// Where the body of the block begins whose header is line `pos`: after the
/// header if it ends in an opening brace, else after a brace on a line of
/// its own.
pub open spec fn body_start(lines: Seq<Seq<char>>, pos: int) -> Option<int> {
    if ends_with_brace(lines[pos]) {
        Some(pos + 1)
    } else {
        brace_after(lines, pos + 1)
    }
}

/// The declaration that a line holds which opens no block. Words are taken
/// by position; what follows the words of a declaration is ignored.
pub open spec fn flat_decl(raw: Seq<char>) -> Result<Decl, ParseFailure> {
    let head = word_at(raw, 0);
    if head == Some("phase"@) {
        match word_at(raw, 1) {
            Some(name) => Ok(Decl::PhaseDecl { name }),
            None => Err(ParseFailure::MissingWord(raw)),
        }
    } else if head == Some("region"@) {
        match (word_at(raw, 1), word_at(raw, 2)) {
            (Some(kind), Some(name)) => Ok(Decl::Region { kind, name }),
            _ => Err(ParseFailure::MissingWord(raw)),
        }
    } else if head == Some("lifetime"@) {
        match (word_at(raw, 1), word_at(raw, 4)) {
            (Some(name), Some(scope)) => Ok(Decl::Lifetime { name, scope }),
            _ => Err(ParseFailure::MissingWord(raw)),
        }
    } else if head == Some("let"@) {
        match (word_at(raw, 1), word_at(raw, 3)) {
            (Some(name), Some(region)) => Ok(Decl::Let { name, region }),
            _ => Err(ParseFailure::MissingWord(raw)),
        }
    } else if head == Some("capability"@) {
        match (word_at(raw, 1), word_at(raw, 2), word_at(raw, 4)) {
            (Some(kind), Some(value), Some(lifetime)) => Ok(
                Decl::Capability { kind, value, lifetime },
            ),
            _ => Err(ParseFailure::MissingWord(raw)),
        }
    } else if head == Some("drop"@) {
        match word_at(raw, 1) {
            Some(value) => Ok(Decl::Drop { value }),
            None => Err(ParseFailure::MissingWord(raw)),
        }
    } else if head == Some("assume"@) {
        match quoted(raw) {
            Some(text) => Ok(Decl::Assume { text }),
            None => Err(ParseFailure::MissingQuote(raw)),
        }
    } else {
        Err(ParseFailure::UnknownSyntax(raw))
    }
}

/// The body of the block whose header is line `pos`.
pub open spec fn parsed_body(lines: Seq<Seq<char>>, pos: int) -> Parsed
    decreases lines.len() - pos, 0nat,
{
    match body_start(lines, pos) {
        None => Err(ParseFailure::ExpectedBrace),
        Some(start) => if pos < start <= lines.len() {
            parsed_block(lines, start)
        } else {
            Err(ParseFailure::ExpectedBrace)
        },
    }
}

/// The declaration that begins at line `pos`, which is not blank.
pub open spec fn parsed_statement(lines: Seq<Seq<char>>, pos: int) -> Result<
    (Decl, int),
    ParseFailure,
>
    decreases lines.len() - pos, 1nat,
{
    let raw = lines[pos];
    let head = word_at(raw, 0);
    if head == Some("function"@) {
        match word_at(raw, 1) {
            None => Err(ParseFailure::MissingWord(raw)),
            Some(name) => match parsed_body(lines, pos) {
                Err(e) => Err(e),
                Ok((body, next)) => Ok((Decl::Function { name, body }, next)),
            },
        }
    } else if head == Some("unsafe"@) {
        match parsed_body(lines, pos) {
            Err(e) => Err(e),
            Ok((body, next)) => Ok((Decl::Unsafe { body }, next)),
        }
    } else {
        match flat_decl(raw) {
            Err(e) => Err(e),
            Ok(decl) => Ok((decl, pos + 1)),
        }
    }
}

/// `first`, then what `rest` holds.
pub open spec fn prepend(first: Seq<Decl>, rest: Parsed) -> Parsed {
    match rest {
        Ok((decls, end)) => Ok((first + decls, end)),
        Err(e) => Err(e),
    }
}

/// The declarations from line `pos` up to the end of the block: a line that
/// holds a closing brace, or the end of the text. Blank lines are skipped.
pub open spec fn parsed_block(lines: Seq<Seq<char>>, pos: int) -> Parsed
    decreases lines.len() - pos, 2nat,
{
    if pos < 0 || pos >= lines.len() {
        Ok((Seq::empty(), pos))
    } else if is_blank(lines[pos]) {
        parsed_block(lines, pos + 1)
    } else if is_just(lines[pos], '}') {
        Ok((Seq::empty(), pos + 1))
    } else {
        match parsed_statement(lines, pos) {
            Err(e) => Err(e),
            Ok((decl, next)) => if pos < next <= lines.len() {
                prepend(seq![decl], parsed_block(lines, next))
            } else {
                Ok((seq![decl], next))
            },
        }
    }
}

/// The program that a source text holds.
pub open spec fn parsed_source(source: Seq<char>) -> Result<Seq<Decl>, ParseFailure> {
    match parsed_block(lines_of(source), 0) {
        Ok((decls, end)) => Ok(decls),
        Err(e) => Err(e),
    }
}

pub proof fn lemma_prepend_twice(a: Seq<Decl>, b: Seq<Decl>, rest: Parsed)
    ensures
        prepend(a, prepend(b, rest)) == prepend(a + b, rest),
{
    match rest {
        Ok((decls, end)) => {
            assert(a + (b + decls) =~= (a + b) + decls);
        },
        Err(e) => {},
    }
}

pub proof fn lemma_prepend_nothing(rest: Parsed)
    ensures
        prepend(Seq::empty(), rest) == rest,
{
    match rest {
        Ok((decls, end)) => {
            assert(Seq::<Decl>::empty() + decls =~= decls);
        },
        Err(e) => {},
    }
}

/// The lines are in order: text and characters agree.
pub open spec fn lines_wf(lines: Seq<Line>) -> bool {
    forall|i: int| 0 <= i < lines.len() ==> (#[trigger] lines[i]).wf()
}

/// Skips blank lines from `pos` on and takes a line that holds an opening
/// brace.
fn expect_brace_after(lines: &Vec<Line>, pos: usize) -> (r: Option<usize>)
    requires
        pos <= lines@.len(),
    ensures
        match r {
            Some(start) => brace_after(texts_of(lines@), pos as int) == Some(start as int) && pos
                < start <= lines@.len(),
            None => brace_after(texts_of(lines@), pos as int) is None,
        },
{
    let ghost texts = texts_of(lines@);
    let mut at: usize = pos;
    while at < lines.len()
        invariant
            pos <= at <= lines@.len(),
            texts == texts_of(lines@),
            brace_after(texts, pos as int) == brace_after(texts, at as int),
        decreases lines@.len() - at,
    {
        assert(texts[at as int] == lines@[at as int]@);
        if lines[at].blank() {
            at += 1;
        } else if lines[at].just('{') {
            return Some(at + 1);
        } else {
            return None;
        }
    }
    None
}

/// Finds the opening brace of the block whose header is line `pos`.
fn expect_brace(lines: &Vec<Line>, pos: usize) -> (r: Option<usize>)
    requires
        pos < lines@.len(),
    ensures
        match r {
            Some(start) => body_start(texts_of(lines@), pos as int) == Some(start as int) && pos
                < start <= lines@.len(),
            None => body_start(texts_of(lines@), pos as int) is None,
        },
{
    let count = lines.len();
    assert(texts_of(lines@)[pos as int] == lines@[pos as int]@);
    if lines[pos].brace_at_end() {
        Some(pos + 1)
    } else {
        expect_brace_after(lines, pos + 1)
    }
}

/// Parses a line that opens no block.
fn parse_flat(line: &Line, head: &String) -> (r: Result<AstNode, ParseError>)
    requires
        line.wf(),
        word_at(line@, 0) == Some(head@),
    ensures
        match r {
            Ok(node) => flat_decl(line@) == Ok::<Decl, ParseFailure>(node@),
            Err(e) => flat_decl(line@) == Err::<Decl, ParseFailure>(e@),
        },
{
    if reads(head, "phase") {
        match line.word(1) {
            Some(name) => Ok(AstNode::PhaseDecl { name }),
            None => Err(ParseError::MissingWord(line.text.clone())),
        }
    } else if reads(head, "region") {
        let kind = line.word(1);
        let name = line.word(2);
        match (kind, name) {
            (Some(kind), Some(name)) => Ok(AstNode::Region { kind, name }),
            _ => Err(ParseError::MissingWord(line.text.clone())),
        }
    } else if reads(head, "lifetime") {
        let name = line.word(1);
        let scope = line.word(4);
        match (name, scope) {
            (Some(name), Some(scope)) => Ok(AstNode::Lifetime { name, scope }),
            _ => Err(ParseError::MissingWord(line.text.clone())),
        }
    } else if reads(head, "let") {
        let name = line.word(1);
        let region = line.word(3);
        match (name, region) {
            (Some(name), Some(region)) => Ok(AstNode::Let { name, region }),
            _ => Err(ParseError::MissingWord(line.text.clone())),
        }
    } else if reads(head, "capability") {
        let kind = line.word(1);
        let value = line.word(2);
        let lifetime = line.word(4);
        match (kind, value, lifetime) {
            (Some(kind), Some(value), Some(lifetime)) => Ok(
                AstNode::Capability { kind, value, lifetime },
            ),
            _ => Err(ParseError::MissingWord(line.text.clone())),
        }
    } else if reads(head, "drop") {
        match line.word(1) {
            Some(value) => Ok(AstNode::Drop { value }),
            None => Err(ParseError::MissingWord(line.text.clone())),
        }
    } else if reads(head, "assume") {
        match line.quoted_text() {
            Some(text) => Ok(AstNode::Assume { text }),
            None => Err(ParseError::MissingQuote(line.text.clone())),
        }
    } else {
        Err(ParseError::UnknownSyntax(line.text.clone()))
    }
}

/// Parses the body of the block whose header is line `pos`.
fn parse_body(lines: &Vec<Line>, pos: usize) -> (r: Result<(Vec<AstNode>, usize), ParseError>)
    requires
        pos < lines@.len(),
        lines_wf(lines@),
    ensures
        match r {
            Ok((nodes, next)) => parsed_body(texts_of(lines@), pos as int) == Ok::<
                (Seq<Decl>, int),
                ParseFailure,
            >((decls_of(nodes@), next as int)) && pos < next <= lines@.len(),
            Err(e) => parsed_body(texts_of(lines@), pos as int) == Err::<
                (Seq<Decl>, int),
                ParseFailure,
            >(e@),
        },
    decreases lines@.len() - pos, 0nat,
{
    match expect_brace(lines, pos) {
        Some(start) => parse_block(lines, start),
        None => Err(ParseError::ExpectedBrace),
    }
}

/// Parses the declaration that begins at line `pos`.
fn parse_line(lines: &Vec<Line>, pos: usize) -> (r: Result<(AstNode, usize), ParseError>)
    requires
        pos < lines@.len(),
        lines_wf(lines@),
    ensures
        match r {
            Ok((node, next)) => parsed_statement(texts_of(lines@), pos as int) == Ok::<
                (Decl, int),
                ParseFailure,
            >((node@, next as int)) && pos < next <= lines@.len(),
            Err(e) => parsed_statement(texts_of(lines@), pos as int) == Err::<
                (Decl, int),
                ParseFailure,
            >(e@),
        },
    decreases lines@.len() - pos, 1nat,
{
    let count = lines.len();
    let line = &lines[pos];
    assert(texts_of(lines@)[pos as int] == line@);
    assert(line.wf());
    let head = match line.word(0) {
        Some(head) => head,
        None => { return Err(ParseError::UnknownSyntax(line.text.clone())); },
    };
    if reads(&head, "function") {
        let name = match line.word(1) {
            Some(name) => name,
            None => { return Err(ParseError::MissingWord(line.text.clone())); },
        };
        match parse_body(lines, pos) {
            Ok((body, next)) => Ok((AstNode::Function { name, body }, next)),
            Err(e) => Err(e),
        }
    } else if reads(&head, "unsafe") {
        match parse_body(lines, pos) {
            Ok((body, next)) => Ok((AstNode::Unsafe { body }, next)),
            Err(e) => Err(e),
        }
    } else {
        match parse_flat(line, &head) {
            Ok(node) => Ok((node, pos + 1)),
            Err(e) => Err(e),
        }
    }
}

/// Parses the declarations from line `start` up to the end of the block.
fn parse_block(lines: &Vec<Line>, start: usize) -> (r: Result<(Vec<AstNode>, usize), ParseError>)
    requires
        start <= lines@.len(),
        lines_wf(lines@),
    ensures
        match r {
            Ok((nodes, next)) => parsed_block(texts_of(lines@), start as int) == Ok::<
                (Seq<Decl>, int),
                ParseFailure,
            >((decls_of(nodes@), next as int)) && start <= next <= lines@.len(),
            Err(e) => parsed_block(texts_of(lines@), start as int) == Err::<
                (Seq<Decl>, int),
                ParseFailure,
            >(e@),
        },
    decreases lines@.len() - start, 2nat,
{
    let ghost texts = texts_of(lines@);
    let mut nodes: Vec<AstNode> = Vec::new();
    let mut pos: usize = start;
    proof {
        assert(decls_of(nodes@) =~= Seq::<Decl>::empty());
        lemma_prepend_nothing(parsed_block(texts, start as int));
    }
    while pos < lines.len()
        invariant
            start <= pos <= lines@.len(),
            lines_wf(lines@),
            texts == texts_of(lines@),
            parsed_block(texts, start as int) == prepend(
                decls_of(nodes@),
                parsed_block(texts, pos as int),
            ),
        decreases lines@.len() - pos,
    {
        assert(texts[pos as int] == lines@[pos as int]@);
        if lines[pos].blank() {
            pos += 1;
        } else if lines[pos].just('}') {
            proof {
                assert(decls_of(nodes@) + Seq::<Decl>::empty() =~= decls_of(nodes@));
            }
            return Ok((nodes, pos + 1));
        } else {
            match parse_line(lines, pos) {
                Err(e) => { return Err(e); },
                Ok((node, next)) => {
                    let ghost before = decls_of(nodes@);
                    nodes.push(node);
                    proof {
                        assert(decls_of(nodes@) =~= before + seq![node@]);
                        lemma_prepend_twice(
                            before,
                            seq![node@],
                            parsed_block(texts, next as int),
                        );
                    }
                    pos = next;
                },
            }
        }
    }
    proof {
        assert(decls_of(nodes@) + Seq::<Decl>::empty() =~= decls_of(nodes@));
    }
    Ok((nodes, pos))
}

/// Parses a source text.
pub fn parse(source: &str) -> (r: Result<Vec<AstNode>, ParseError>)
    ensures
        match r {
            Ok(nodes) => parsed_source(source@) == Ok::<Seq<Decl>, ParseFailure>(decls_of(nodes@)),
            Err(e) => parsed_source(source@) == Err::<Seq<Decl>, ParseFailure>(e@),
        },
{
    let lines = split_lines(source);
    match parse_block(&lines, 0) {
        Ok((nodes, _)) => Ok(nodes),
        Err(e) => Err(e),
    }
}

} // verus!
