//! The declarations of a program.

use vstd::prelude::*;

verus! {

/// One declaration, as the parser yields it. A block holds the declarations
/// between its braces.
#[derive(Debug, PartialEq, Eq)]
pub enum AstNode {
    PhaseDecl { name: String },
    Function { name: String, body: Vec<AstNode> },
    Unsafe { body: Vec<AstNode> },
    Region { kind: String, name: String },
    Lifetime { name: String, scope: String },
    Let { name: String, region: String },
    Capability { kind: String, value: String, lifetime: String },
    Drop { value: String },
    Assume { text: String },
}

/// A declaration as a mathematical value: its words are character
/// sequences.
pub enum Decl {
    PhaseDecl { name: Seq<char> },
    Function { name: Seq<char>, body: Seq<Decl> },
    Unsafe { body: Seq<Decl> },
    Region { kind: Seq<char>, name: Seq<char> },
    Lifetime { name: Seq<char>, scope: Seq<char> },
    Let { name: Seq<char>, region: Seq<char> },
    Capability { kind: Seq<char>, value: Seq<char>, lifetime: Seq<char> },
    Drop { value: Seq<char> },
    Assume { text: Seq<char> },
}

/// The values of a list of declarations.
pub open spec fn decls_of(nodes: Seq<AstNode>) -> Seq<Decl>
    decreases nodes,
{
    Seq::new(
        nodes.len(),
        |i: int|
            if 0 <= i < nodes.len() {
                nodes[i].view()
            } else {
                Decl::Unsafe { body: Seq::empty() }
            },
    )
}

impl View for AstNode {
    type V = Decl;

    open spec fn view(&self) -> Decl
        decreases self,
    {
        match self {
            AstNode::PhaseDecl { name } => Decl::PhaseDecl { name: name@ },
            AstNode::Function { name, body } => Decl::Function {
                name: name@,
                body: decls_of(body@),
            },
            AstNode::Unsafe { body } => Decl::Unsafe { body: decls_of(body@) },
            AstNode::Region { kind, name } => Decl::Region { kind: kind@, name: name@ },
            AstNode::Lifetime { name, scope } => Decl::Lifetime { name: name@, scope: scope@ },
            AstNode::Let { name, region } => Decl::Let { name: name@, region: region@ },
            AstNode::Capability { kind, value, lifetime } => Decl::Capability {
                kind: kind@,
                value: value@,
                lifetime: lifetime@,
            },
            AstNode::Drop { value } => Decl::Drop { value: value@ },
            AstNode::Assume { text } => Decl::Assume { text: text@ },
        }
    }
}

} // verus!
