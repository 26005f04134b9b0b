//! The command graph: a vector of nodes with integer child indices, and the
//! parsers their arguments use. The built-in graph offers `place <id>`.

use vstd::prelude::*;
use crate::codec::{i32_to_u32, i32_as_u32, push_be_bytes, spec_be_bytes};

verus! {

/// The three node kinds, encoded in the low two bits of a node's flags.
#[derive(Debug, Clone, Copy, PartialEq, Eq, Structural)]
pub enum CommandNodeType {
    Root,
    Literal,
    Argument,
}

/// The wire value of a node kind.
pub open spec fn spec_node_type_bits(t: CommandNodeType) -> u8 {
    match t {
        CommandNodeType::Root => 0,
        CommandNodeType::Literal => 1,
        CommandNodeType::Argument => 2,
    }
}

/// Argument parsers, with numeric bounds where the parser is bounded.
/// Floating-point bounds are carried as their IEEE 754 bit patterns, which
/// is also their wire form.
#[derive(Debug, Clone, Copy)]
pub enum CommandParsers {
    Bool,
    Float { min_bits: Option<u32>, max_bits: Option<u32> },
    Double { min_bits: Option<u64>, max_bits: Option<u64> },
    Integer { min: Option<i32>, max: Option<i32> },
}

/// The parser's wire id.
pub open spec fn spec_parser_id(p: CommandParsers) -> i32 {
    match p {
        CommandParsers::Bool => 0,
        CommandParsers::Float { .. } => 1,
        CommandParsers::Double { .. } => 2,
        CommandParsers::Integer { .. } => 3,
    }
}

/// The flags byte of a bounded parser: bit 0 when a minimum is present,
/// bit 1 when a maximum is present.
pub open spec fn spec_bounds_flags(has_min: bool, has_max: bool) -> u8 {
    ((if has_min {
        1int
    } else {
        0int
    }) + (if has_max {
        2int
    } else {
        0int
    })) as u8
}

/// The property bytes of a parser: for a bounded parser, the flags byte,
/// then the present bounds big-endian, minimum first.
pub open spec fn spec_parser_properties(p: CommandParsers) -> Seq<u8> {
    match p {
        CommandParsers::Bool => seq![],
        CommandParsers::Float { min_bits, max_bits } => seq![
            spec_bounds_flags(min_bits is Some, max_bits is Some),
        ] + (match min_bits {
            Some(m) => spec_be_bytes(m as nat, 4),
            None => seq![],
        }) + (match max_bits {
            Some(m) => spec_be_bytes(m as nat, 4),
            None => seq![],
        }),
        CommandParsers::Double { min_bits, max_bits } => seq![
            spec_bounds_flags(min_bits is Some, max_bits is Some),
        ] + (match min_bits {
            Some(m) => spec_be_bytes(m as nat, 8),
            None => seq![],
        }) + (match max_bits {
            Some(m) => spec_be_bytes(m as nat, 8),
            None => seq![],
        }),
        CommandParsers::Integer { min, max } => seq![
            spec_bounds_flags(min is Some, max is Some),
        ] + (match min {
            Some(m) => spec_be_bytes(i32_to_u32(m) as nat, 4),
            None => seq![],
        }) + (match max {
            Some(m) => spec_be_bytes(i32_to_u32(m) as nat, 4),
            None => seq![],
        }),
    }
}

impl CommandParsers {
    /// The parser's wire id.
    pub fn id(&self) -> (r: i32)
        ensures
            r == spec_parser_id(*self),
    {
        match self {
            CommandParsers::Bool => 0,
            CommandParsers::Float { .. } => 1,
            CommandParsers::Double { .. } => 2,
            CommandParsers::Integer { .. } => 3,
        }
    }

    /// The parser's property bytes, exactly as [`spec_parser_properties`]
    /// says.
    pub fn properties(&self) -> (r: Vec<u8>)
        ensures
            r@ == spec_parser_properties(*self),
    {
        match self {
            CommandParsers::Bool => Vec::new(),
            CommandParsers::Float { min_bits, max_bits } => {
                let flags: u8 = (if min_bits.is_some() {
                    1u8
                } else {
                    0u8
                }) + (if max_bits.is_some() {
                    2u8
                } else {
                    0u8
                });
                let mut bytes: Vec<u8> = Vec::new();
                bytes.push(flags);
                match min_bits {
                    Some(m) => push_be_bytes(&mut bytes, *m as u128, 4),
                    None => {},
                }
                match max_bits {
                    Some(m) => push_be_bytes(&mut bytes, *m as u128, 4),
                    None => {},
                }
                bytes
            },
            CommandParsers::Double { min_bits, max_bits } => {
                let flags: u8 = (if min_bits.is_some() {
                    1u8
                } else {
                    0u8
                }) + (if max_bits.is_some() {
                    2u8
                } else {
                    0u8
                });
                let mut bytes: Vec<u8> = Vec::new();
                bytes.push(flags);
                match min_bits {
                    Some(m) => push_be_bytes(&mut bytes, *m as u128, 8),
                    None => {},
                }
                match max_bits {
                    Some(m) => push_be_bytes(&mut bytes, *m as u128, 8),
                    None => {},
                }
                bytes
            },
            CommandParsers::Integer { min, max } => {
                let flags: u8 = (if min.is_some() {
                    1u8
                } else {
                    0u8
                }) + (if max.is_some() {
                    2u8
                } else {
                    0u8
                });
                let mut bytes: Vec<u8> = Vec::new();
                bytes.push(flags);
                match min {
                    Some(m) => push_be_bytes(&mut bytes, i32_as_u32(*m) as u128, 4),
                    None => {},
                }
                match max {
                    Some(m) => push_be_bytes(&mut bytes, i32_as_u32(*m) as u128, 4),
                    None => {},
                }
                bytes
            },
        }
    }
}

/// One node of the command graph; children point by index into the node
/// vector, so the graph carries no cycles of ownership.
#[derive(Debug)]
pub struct CommandNode {
    pub node_type: CommandNodeType,
    pub is_executable: bool,
    pub children: Vec<i32>,
    pub redirect: Option<i32>,
    pub name: Option<String>,
    pub parser: Option<CommandParsers>,
    pub suggestions_type: Option<String>,
}

/// Spec-level mirror of [`CommandNode`].
#[verifier::ext_equal]
pub struct CommandNodeView {
    pub node_type: CommandNodeType,
    pub is_executable: bool,
    pub children: Seq<i32>,
    pub redirect: Option<i32>,
    pub name: Option<Seq<char>>,
    pub parser: Option<CommandParsers>,
    pub suggestions_type: Option<Seq<char>>,
}

impl View for CommandNode {
    type V = CommandNodeView;

    open spec fn view(&self) -> CommandNodeView {
        CommandNodeView {
            node_type: self.node_type,
            is_executable: self.is_executable,
            children: self.children@,
            redirect: self.redirect,
            name: match &self.name {
                Some(n) => Some(n@),
                None => None,
            },
            parser: self.parser,
            suggestions_type: match &self.suggestions_type {
                Some(s) => Some(s@),
                None => None,
            },
        }
    }
}

/// The built-in command graph: root, the literal `place`, and its integer
/// argument.
pub open spec fn spec_builtin_graph() -> Seq<CommandNodeView> {
    seq![
        CommandNodeView {
            node_type: CommandNodeType::Root,
            is_executable: false,
            children: seq![1i32],
            redirect: None,
            name: None,
            parser: None,
            suggestions_type: None,
        },
        CommandNodeView {
            node_type: CommandNodeType::Literal,
            is_executable: false,
            children: seq![2i32],
            redirect: None,
            name: Some("place"@),
            parser: None,
            suggestions_type: None,
        },
        CommandNodeView {
            node_type: CommandNodeType::Argument,
            is_executable: true,
            children: Seq::<i32>::empty(),
            redirect: None,
            name: Some("id"@),
            parser: Some(CommandParsers::Integer { min: Some(0), max: None }),
            suggestions_type: None,
        },
    ]
}

impl CommandNode {
    /// A literal node.
    pub fn literal(name: &str, is_executable: bool, redirect: Option<i32>, suggestions_type: Option<
        String,
    >) -> (r: Self)
        ensures
            r@ == (CommandNodeView {
                node_type: CommandNodeType::Literal,
                is_executable,
                children: Seq::<i32>::empty(),
                redirect,
                name: Some(name@),
                parser: None,
                suggestions_type: match suggestions_type {
                    Some(s) => Some(s@),
                    None => None,
                },
            }),
    {
        let r = CommandNode {
            node_type: CommandNodeType::Literal,
            is_executable,
            children: Vec::new(),
            redirect,
            name: Some(name.to_owned()),
            parser: None,
            suggestions_type,
        };
        proof {
            assert(r@.children =~= Seq::<i32>::empty());
            assert(r@ =~~= (CommandNodeView {
                node_type: CommandNodeType::Literal,
                is_executable,
                children: Seq::<i32>::empty(),
                redirect,
                name: Some(name@),
                parser: None,
                suggestions_type: r@.suggestions_type,
            }));
        }
        r
    }

    /// An argument node.
    pub fn argument(
        name: &str,
        is_executable: bool,
        parser: CommandParsers,
        redirect: Option<i32>,
        suggestions_type: Option<String>,
    ) -> (r: Self)
        ensures
            r@ == (CommandNodeView {
                node_type: CommandNodeType::Argument,
                is_executable,
                children: Seq::<i32>::empty(),
                redirect,
                name: Some(name@),
                parser: Some(parser),
                suggestions_type: match suggestions_type {
                    Some(s) => Some(s@),
                    None => None,
                },
            }),
    {
        let r = CommandNode {
            node_type: CommandNodeType::Argument,
            is_executable,
            children: Vec::new(),
            redirect,
            name: Some(name.to_owned()),
            parser: Some(parser),
            suggestions_type,
        };
        proof {
            assert(r@.children =~= Seq::<i32>::empty());
            assert(r@ =~~= (CommandNodeView {
                node_type: CommandNodeType::Argument,
                is_executable,
                children: Seq::<i32>::empty(),
                redirect,
                name: Some(name@),
                parser: Some(parser),
                suggestions_type: r@.suggestions_type,
            }));
        }
        r
    }

    /// The built-in graph: a root whose child is the literal `place`, whose
    /// child is a non-negative integer argument, the state id to place.
    pub fn commands() -> (r: Vec<CommandNode>)
        ensures
            r@.len() == 3,
            r@.map_values(|n: CommandNode| n@) == spec_builtin_graph(),
            r@[0]@ == (CommandNodeView {
                node_type: CommandNodeType::Root,
                is_executable: false,
                children: seq![1i32],
                redirect: None,
                name: None,
                parser: None,
                suggestions_type: None,
            }),
            r@[1]@ == (CommandNodeView {
                node_type: CommandNodeType::Literal,
                is_executable: false,
                children: seq![2i32],
                redirect: None,
                name: Some("place"@),
                parser: None,
                suggestions_type: None,
            }),
            r@[2]@ == (CommandNodeView {
                node_type: CommandNodeType::Argument,
                is_executable: true,
                children: Seq::<i32>::empty(),
                redirect: None,
                name: Some("id"@),
                parser: Some(CommandParsers::Integer { min: Some(0), max: None }),
                suggestions_type: None,
            }),
    {
        let mut commands: Vec<CommandNode> = Vec::new();
        let mut root_children: Vec<i32> = Vec::new();
        root_children.push(1);
        commands.push(
            CommandNode {
                node_type: CommandNodeType::Root,
                is_executable: false,
                children: root_children,
                redirect: None,
                name: None,
                parser: None,
                suggestions_type: None,
            },
        );
        let mut place = CommandNode::literal("place", false, None, None);
        place.children.push(2);
        commands.push(place);
        commands.push(
            CommandNode::argument(
                "id",
                true,
                CommandParsers::Integer { min: Some(0), max: None },
                None,
                None,
            ),
        );
        proof {
            assert(commands@[0]@.children =~= seq![1i32]);
            assert(commands@[1]@.children =~= seq![2i32]);
            assert(commands@[0]@ =~~= (CommandNodeView {
                node_type: CommandNodeType::Root,
                is_executable: false,
                children: seq![1i32],
                redirect: None,
                name: None,
                parser: None,
                suggestions_type: None,
            }));
            assert(commands@[1]@ =~~= (CommandNodeView {
                node_type: CommandNodeType::Literal,
                is_executable: false,
                children: seq![2i32],
                redirect: None,
                name: Some("place"@),
                parser: None,
                suggestions_type: None,
            }));
            assert(commands@[2]@ =~~= (CommandNodeView {
                node_type: CommandNodeType::Argument,
                is_executable: true,
                children: Seq::<i32>::empty(),
                redirect: None,
                name: Some("id"@),
                parser: Some(CommandParsers::Integer { min: Some(0), max: None }),
                suggestions_type: None,
            }));
            assert(commands@.map_values(|n: CommandNode| n@) =~~= spec_builtin_graph());
        }
        commands
    }
}

} // verus!
