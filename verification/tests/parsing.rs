use chiru::ast::AstNode;
use chiru::exec::{capability_kind, execute, region_kind, ExecContext, ExecError};
use chiru::graph::{CapabilityKind, RegionKind};
use chiru::interpreter::InterpreterState;
use chiru::lexer::{scan, scan_back, space, split_lines, to_chars, Line, Run};
use chiru::names::NameTable;
use chiru::parser::{parse, ParseError};
use chiru::scope::ScopeKind;

fn s(text: &str) -> String {
    text.to_string()
}

#[test]
fn parses_every_form() {
    let source = "phase main\nfunction f {\n  region heap h\n  lifetime l in scope f\n  let v in h\n  capability Own v for l\n  unsafe {\n    assume \"it holds\"\n  }\n  drop v\n}\n";
    let nodes = parse(source).unwrap();
    assert_eq!(
        nodes,
        vec![
            AstNode::PhaseDecl { name: s("main") },
            AstNode::Function {
                name: s("f"),
                body: vec![
                    AstNode::Region { kind: s("heap"), name: s("h") },
                    AstNode::Lifetime { name: s("l"), scope: s("f") },
                    AstNode::Let { name: s("v"), region: s("h") },
                    AstNode::Capability { kind: s("Own"), value: s("v"), lifetime: s("l") },
                    AstNode::Unsafe { body: vec![AstNode::Assume { text: s("it holds") }] },
                    AstNode::Drop { value: s("v") },
                ],
            },
        ]
    );
}

#[test]
fn brace_may_stand_on_the_next_line() {
    let source = "function f\n\n   \n{\nregion stack s\n}\nunsafe\n{\n}\n";
    let nodes = parse(source).unwrap();
    assert_eq!(
        nodes,
        vec![
            AstNode::Function {
                name: s("f"),
                body: vec![AstNode::Region { kind: s("stack"), name: s("s") }],
            },
            AstNode::Unsafe { body: vec![] },
        ]
    );
}

#[test]
fn missing_brace_is_an_error() {
    assert_eq!(parse("function f\nregion heap h\n"), Err(ParseError::ExpectedBrace));
    assert_eq!(parse("unsafe"), Err(ParseError::ExpectedBrace));
    assert_eq!(parse("function f\n\n"), Err(ParseError::ExpectedBrace));
    assert_eq!(ParseError::ExpectedBrace.message(), "Expected '{'");
}

#[test]
fn incomplete_lines_are_errors() {
    assert_eq!(parse("region heap"), Err(ParseError::MissingWord(s("region heap"))));
    assert_eq!(parse("let v in"), Err(ParseError::MissingWord(s("let v in"))));
    assert_eq!(parse("  drop  "), Err(ParseError::MissingWord(s("  drop  "))));
    assert_eq!(parse("phase"), Err(ParseError::MissingWord(s("phase"))));
    assert_eq!(parse("function"), Err(ParseError::MissingWord(s("function"))));
    assert_eq!(
        parse("lifetime l in scope"),
        Err(ParseError::MissingWord(s("lifetime l in scope")))
    );
    assert_eq!(
        parse("capability Own v for"),
        Err(ParseError::MissingWord(s("capability Own v for")))
    );
    assert_eq!(parse("assume nothing"), Err(ParseError::MissingQuote(s("assume nothing"))));
    assert_eq!(
        ParseError::MissingWord(s("drop")).message(),
        "Incomplete declaration: drop"
    );
    assert_eq!(
        ParseError::MissingQuote(s("assume x")).message(),
        "Expected a quoted text: assume x"
    );
}

#[test]
fn unknown_first_word_is_an_error() {
    assert_eq!(parse("# a comment"), Err(ParseError::UnknownSyntax(s("# a comment"))));
    assert_eq!(parse("assume\"x\""), Err(ParseError::UnknownSyntax(s("assume\"x\""))));
    assert_eq!(parse("{"), Err(ParseError::UnknownSyntax(s("{"))));
}

#[test]
fn words_are_taken_by_position() {
    let nodes = parse("lifetime l of any f and more\ncapability UniqueMut v x l # note\n").unwrap();
    assert_eq!(
        nodes,
        vec![
            AstNode::Lifetime { name: s("l"), scope: s("f") },
            AstNode::Capability { kind: s("UniqueMut"), value: s("v"), lifetime: s("l") },
        ]
    );
}

#[test]
fn quoted_text_runs_to_the_next_quote_or_the_end() {
    assert_eq!(
        parse("assume \"a b\" trailing \"c\""),
        Ok(vec![AstNode::Assume { text: s("a b") }])
    );
    assert_eq!(parse("assume \"open end  "), Ok(vec![AstNode::Assume { text: s("open end  ") }]));
    assert_eq!(parse("assume \"\""), Ok(vec![AstNode::Assume { text: s("") }]));
}

#[test]
fn closing_brace_ends_the_block() {
    // A closing brace at the top level ends the program.
    assert_eq!(
        parse("phase a\n}\nbogus\n"),
        Ok(vec![AstNode::PhaseDecl { name: s("a") }])
    );
    // A block may run to the end of the text.
    assert_eq!(
        parse("unsafe {\nphase a"),
        Ok(vec![AstNode::Unsafe { body: vec![AstNode::PhaseDecl { name: s("a") }] }])
    );
    assert_eq!(parse(""), Ok(vec![]));
    assert_eq!(parse("\n \n\t\n"), Ok(vec![]));
}

#[test]
fn carriage_returns_and_wide_spaces() {
    let nodes = parse("phase a\r\n\u{3000}region\u{a0}heap\th\r\ndrop v\r").unwrap();
    assert_eq!(
        nodes,
        vec![
            AstNode::PhaseDecl { name: s("a") },
            AstNode::Region { kind: s("heap"), name: s("h") },
            AstNode::Drop { value: s("v") },
        ]
    );
}

#[test]
fn lines_are_split_like_text_lines() {
    let texts = |source: &str| -> Vec<String> {
        split_lines(source).into_iter().map(|l| l.text).collect()
    };
    let expected = |source: &str| -> Vec<String> { source.lines().map(|l| l.to_string()).collect() };
    for source in ["", "\n", "a", "a\n", "a\r\n", "a\r", "a\n\nb", "\r\n\r\n", "a\r\r\nb\n", "é\n\u{2028}x"] {
        assert_eq!(texts(source), expected(source), "{:?}", source);
    }
    let line = &split_lines("  ab  cd ")[0];
    assert_eq!(line.chars, to_chars("  ab  cd "));
}

#[test]
fn line_queries() {
    let line = Line::new(s("  region  heap h  {  "));
    assert!(!line.blank());
    assert!(line.brace_at_end());
    assert!(!line.just('{'));
    assert_eq!(line.word(0), Some(s("region")));
    assert_eq!(line.word(1), Some(s("heap")));
    assert_eq!(line.word(2), Some(s("h")));
    assert_eq!(line.word(3), Some(s("{")));
    assert_eq!(line.word(4), None);
    assert_eq!(line.quoted_text(), None);
    assert!(Line::new(s(" \t ")).blank());
    assert!(Line::new(s("")).blank());
    assert!(Line::new(s("  } ")).just('}'));
    assert!(!Line::new(s("}}")).just('}'));
    assert!(!Line::new(s("")).brace_at_end());
    assert_eq!(Line::new(s("é \"ü\" x")).quoted_text(), Some(s("ü")));
    assert_eq!(Line::new(s("aé  ü")).word(1), Some(s("ü")));
}

#[test]
fn scanning_runs() {
    let chars = to_chars("  ab \"c");
    assert_eq!(scan(&chars, 0, Run::Spaces), 2);
    assert_eq!(scan(&chars, 2, Run::Word), 4);
    assert_eq!(scan(&chars, 0, Run::Unquoted), 5);
    assert_eq!(scan(&chars, 0, Run::Line), 7);
    assert_eq!(scan(&chars, 7, Run::Word), 7);
    assert_eq!(scan_back(&to_chars("ab  "), 4), 2);
    assert_eq!(scan_back(&to_chars("ab  "), 2), 2);
}

#[test]
fn white_space_is_what_char_says() {
    let mut c = 0u32;
    while c <= 0x3100 {
        if let Some(ch) = char::from_u32(c) {
            assert_eq!(space(ch), ch.is_whitespace(), "U+{:04X}", c);
        }
        c += 1;
    }
    assert!(!space('\u{10FFFF}'));
}

#[test]
fn kinds_are_named_exactly() {
    assert_eq!(region_kind(&s("heap")), Some(RegionKind::Heap));
    assert_eq!(region_kind(&s("stack")), Some(RegionKind::Stack));
    assert_eq!(region_kind(&s("external")), Some(RegionKind::External));
    assert_eq!(region_kind(&s("static")), Some(RegionKind::Static));
    assert_eq!(region_kind(&s("Heap")), None);
    assert_eq!(capability_kind(&s("Own")), Some(CapabilityKind::Own));
    assert_eq!(capability_kind(&s("SharedRead")), Some(CapabilityKind::SharedRead));
    assert_eq!(capability_kind(&s("UniqueMut")), Some(CapabilityKind::UniqueMut));
    assert_eq!(capability_kind(&s("ThreadSend")), Some(CapabilityKind::ThreadSend));
    assert_eq!(capability_kind(&s("ThreadShare")), Some(CapabilityKind::ThreadShare));
    assert_eq!(capability_kind(&s("own")), None);
}

fn run(source: &str) -> (Result<(), ExecError>, InterpreterState, ExecContext) {
    let nodes = parse(source).unwrap();
    let mut state = InterpreterState::new();
    let mut ctx = ExecContext::new();
    state.enter_scope(ScopeKind::Module);
    let r = execute(&nodes, &mut state, &mut ctx);
    (r, state, ctx)
}

#[test]
fn unknown_names_and_kinds_are_rejected() {
    assert_eq!(run("region pile p").0, Err(ExecError::UnknownRegionKind(s("pile"))));
    assert_eq!(run("let v in nowhere").0, Err(ExecError::UnknownRegion(s("nowhere"))));
    assert_eq!(run("drop ghost").0, Err(ExecError::UnknownValue(s("ghost"))));
    let program = "phase p\nregion heap h\nlet v in h\nlifetime l in scope m\n";
    assert_eq!(
        run(&format!("{}capability Shared v for l", program)).0,
        Err(ExecError::UnknownCapabilityKind(s("Shared")))
    );
    assert_eq!(
        run(&format!("{}capability Own w for l", program)).0,
        Err(ExecError::UnknownValue(s("w")))
    );
    assert_eq!(
        run(&format!("{}capability Own v for k", program)).0,
        Err(ExecError::UnknownLifetime(s("k")))
    );
    assert_eq!(ExecError::UnknownRegion(s("r")).message(), "Unknown region: r");
    assert_eq!(ExecError::UnknownValue(s("v")).message(), "Unknown value: v");
    assert_eq!(ExecError::UnknownLifetime(s("l")).message(), "Unknown lifetime: l");
    assert_eq!(ExecError::UnknownRegionKind(s("k")).message(), "Unknown region kind: k");
    assert_eq!(
        ExecError::UnknownCapabilityKind(s("k")).message(),
        "Unknown capability kind: k"
    );
}

#[test]
fn names_are_flat_and_later_bindings_shadow() {
    let (r, state, ctx) = run(
        "phase p\nfunction f {\nregion heap h\nlet v in h\n}\nfunction g {\nlet w in h\nlet v in h\nunsafe {\nassume \"x\"\n}\n}\n",
    );
    assert_eq!(r, Ok(()));
    // The region of the first function is still known by name in the second.
    assert_eq!(ctx.regions.get(&s("h")), Some(1));
    assert_eq!(ctx.values.get(&s("v")), Some(3));
    assert_eq!(ctx.values.get(&s("w")), Some(2));
    assert_eq!(ctx.values.get(&s("u")), None);
    // The witness list holds the values bound at that time, in order of first binding.
    assert_eq!(state.graph.unsafe_assumptions.get(&1).unwrap().affected_values, vec![3, 2]);
}

#[test]
fn run_stops_at_the_first_rejection() {
    let (r, state, ctx) = run("phase p\nregion heap h\nlet a in h\ndrop a\ndrop a\nlet b in h\n");
    assert_eq!(
        r,
        Err(ExecError::Semantic(chiru::error::SemanticError::AlreadyDestroyed))
    );
    assert_eq!(state.graph.values.len(), 1);
    assert_eq!(ctx.values.get(&s("b")), None);
}

#[test]
fn name_table_binds_in_place() {
    let mut table = NameTable::new();
    assert_eq!(table.get(&s("a")), None);
    table.insert(s("a"), 1);
    table.insert(s("b"), 2);
    table.insert(s("a"), 3);
    assert_eq!(table.get(&s("a")), Some(3));
    assert_eq!(table.get(&s("b")), Some(2));
    assert_eq!(table.ids(), vec![3, 2]);
    assert_eq!(table.entries.len(), 2);
}
