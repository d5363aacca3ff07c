//! The symbol table and its builder.
//!
//! The table is a flat, unscoped mapping from a declared name to a signature
//! string: the declared type name for a variable, or `fn(T1, T2, ...) -> R`
//! for a function. Declarations inside function bodies flatten into the
//! same table; on a name collision the last declaration wins.

use vstd::prelude::*;
use crate::ast::ASTNode;
use crate::ast::SpecAst;
use crate::ast::view_nodes;
use crate::ast::lemma_view_nodes;

verus! {

/// A mapping from declared name to signature string, abstracted as a
/// `Map<Seq<char>, Seq<char>>` in which a later insertion of the same key
/// overrides an earlier one.
pub struct SymbolTable {
    entries: Vec<(String, String)>,
}

/// The map denoted by a list of entries: the inserts applied left to right,
/// so that the rightmost binding of a name wins.
pub open spec fn entries_map(s: Seq<(String, String)>) -> Map<Seq<char>, Seq<char>>
    decreases s.len(),
{
    if s.len() == 0 {
        Map::empty()
    } else {
        entries_map(s.drop_last()).insert(s.last().0@, s.last().1@)
    }
}

/// The index of the rightmost entry whose key is `k`, or -1 if none is.
pub open spec fn find_last(s: Seq<(String, String)>, k: Seq<char>) -> int
    decreases s.len(),
{
    if s.len() == 0 {
        -1
    } else if s.last().0@ == k {
        s.len() - 1
    } else {
        find_last(s.drop_last(), k)
    }
}

pub proof fn lemma_find_last(s: Seq<(String, String)>, k: Seq<char>)
    ensures
        find_last(s, k) == -1 ==> !entries_map(s).contains_key(k),
        find_last(s, k) >= 0 ==> {
            &&& find_last(s, k) < s.len()
            &&& entries_map(s).contains_key(k)
            &&& s[find_last(s, k)].0@ == k
            &&& entries_map(s)[k] == s[find_last(s, k)].1@
        },
    decreases s.len(),
{
    if s.len() > 0 {
        lemma_find_last(s.drop_last(), k);
    }
}

impl View for SymbolTable {
    type V = Map<Seq<char>, Seq<char>>;

    closed spec fn view(&self) -> Map<Seq<char>, Seq<char>> {
        entries_map(self.entries@)
    }
}

impl SymbolTable {
    pub fn new() -> (r: SymbolTable)
        ensures
            r@ == Map::<Seq<char>, Seq<char>>::empty(),
    {
        SymbolTable { entries: Vec::new() }
    }

    /// Records `name -> signature`, overriding any earlier binding of `name`.
    pub fn insert(&mut self, name: String, signature: String)
        ensures
            final(self)@ == old(self)@.insert(name@, signature@),
    {
        proof {
            let s = self.entries@.push((name, signature));
            assert(s.drop_last() =~= self.entries@);
        }
        self.entries.push((name, signature));
    }

    /// The number of insertions recorded (name collisions counted once each).
    pub fn entry_count(&self) -> (r: usize)
        ensures
            r == self.spec_entry_count(),
    {
        self.entries.len()
    }

    pub closed spec fn spec_entry_count(&self) -> nat {
        self.entries@.len()
    }

    /// Looks a name up, returning the signature of its last declaration.
    #[verifier::loop_isolation(false)]
    pub fn get(&self, name: &String) -> (r: Option<String>)
        ensures
            match r {
                Some(sig) => self@.contains_key(name@) && sig@ == self@[name@],
                None => !self@.contains_key(name@),
            },
    {
        let n = self.entries.len();
        let mut i: usize = 0;
        let mut found: Option<usize> = None;
        while i < n
            invariant
                n == self.entries@.len(),
                i <= n,
                match found {
                    Some(j) => j < i && find_last(self.entries@.take(i as int), name@) == j,
                    None => find_last(self.entries@.take(i as int), name@) == -1,
                },
            decreases n - i,
        {
            proof {
                assert(self.entries@.take(i + 1).drop_last() =~= self.entries@.take(i as int));
            }
            if self.entries[i].0 == *name {
                found = Some(i);
            }
            i += 1;
        }
        proof {
            assert(self.entries@.take(n as int) =~= self.entries@);
            lemma_find_last(self.entries@, name@);
        }
        match found {
            Some(j) => Some(self.entries[j].1.clone()),
            None => None,
        }
    }

    /// Whether a name is declared in the table.
    pub fn contains_key(&self, name: &String) -> (r: bool)
        ensures
            r == self@.contains_key(name@),
    {
        match self.get(name) {
            Some(_) => true,
            None => false,
        }
    }
}

/// The signature string synthesized for a function declaration:
/// `fn(` + the comma-joined parameter type names + `) -> ` + the return
/// type name, or `void` when the return-type node is not a `Type`.
pub open spec fn fn_signature(parameters: Seq<SpecAst>, return_type: SpecAst) -> Seq<char> {
    "fn("@ + join_comma(param_type_names(parameters)) + ") -> "@ + return_type_name(return_type)
}

pub open spec fn return_type_name(return_type: SpecAst) -> Seq<char> {
    match return_type {
        SpecAst::Type { name } => name,
        _ => "void"@,
    }
}

/// The type names of the parameters, in order; a parameter that is not a
/// variable declaration with a `Type` node contributes nothing.
pub open spec fn param_type_names(s: Seq<SpecAst>) -> Seq<Seq<char>>
    decreases s.len(),
{
    if s.len() == 0 {
        Seq::empty()
    } else {
        (match s[0] {
            SpecAst::VariableDeclaration { var_type, .. } => match *var_type {
                SpecAst::Type { name } => seq![name],
                _ => Seq::empty(),
            },
            _ => Seq::empty(),
        }) + param_type_names(s.drop_first())
    }
}

/// The parts joined with `", "` between each pair.
pub open spec fn join_comma(parts: Seq<Seq<char>>) -> Seq<char>
    decreases parts.len(),
{
    if parts.len() == 0 {
        Seq::empty()
    } else if parts.len() == 1 {
        parts[0]
    } else {
        parts[0] + ", "@ + join_comma(parts.drop_first())
    }
}

proof fn lemma_join_comma_push(parts: Seq<Seq<char>>, x: Seq<char>)
    ensures
        parts.len() == 0 ==> join_comma(parts.push(x)) == x,
        parts.len() > 0 ==> join_comma(parts.push(x)) == join_comma(parts) + ", "@ + x,
    decreases parts.len(),
{
    if parts.len() == 0 {
        assert(parts.push(x)[0] == x);
    } else {
        assert(parts.push(x).drop_first() =~= parts.drop_first().push(x));
        lemma_join_comma_push(parts.drop_first(), x);
        if parts.len() == 1 {
            assert(parts.drop_first().len() == 0);
            assert(join_comma(parts.push(x)) == parts[0] + ", "@ + x);
            assert(join_comma(parts) == parts[0]);
        } else {
            assert((parts[0] + ", "@ + join_comma(parts.drop_first())) + ", "@ + x
                =~= parts[0] + ", "@ + (join_comma(parts.drop_first()) + ", "@ + x));
        }
    }
}

proof fn lemma_param_type_names_push(s: Seq<SpecAst>, x: SpecAst)
    ensures
        param_type_names(s.push(x)) == param_type_names(s) + (match x {
            SpecAst::VariableDeclaration { var_type, .. } => match *var_type {
                SpecAst::Type { name } => seq![name],
                _ => Seq::<Seq<char>>::empty(),
            },
            _ => Seq::<Seq<char>>::empty(),
        }),
    decreases s.len(),
{
    let tail = (match x {
        SpecAst::VariableDeclaration { var_type, .. } => match *var_type {
            SpecAst::Type { name } => seq![name],
            _ => Seq::<Seq<char>>::empty(),
        },
        _ => Seq::<Seq<char>>::empty(),
    });
    if s.len() == 0 {
        reveal_with_fuel(param_type_names, 3);
        assert(s.push(x)[0] == x);
        assert(s.push(x).drop_first() =~= Seq::<SpecAst>::empty());
        assert(param_type_names(s.push(x)) =~= tail);
        assert(param_type_names(s) + tail =~= tail);
    } else {
        assert(s.push(x)[0] == s[0]);
        assert(s.push(x).drop_first() =~= s.drop_first().push(x));
        lemma_param_type_names_push(s.drop_first(), x);
        assert((match s[0] {
            SpecAst::VariableDeclaration { var_type, .. } => match *var_type {
                SpecAst::Type { name } => seq![name],
                _ => Seq::<Seq<char>>::empty(),
            },
            _ => Seq::<Seq<char>>::empty(),
        }) + (param_type_names(s.drop_first()) + tail) =~= param_type_names(s) + tail);
    }
}

/// The table derived from one node: variable and function declarations are
/// recorded; `Program` and `Block` sequences are walked in order; a
/// function declaration records its signature and then its body's
/// declarations, so declarations at every nesting depth flatten into the
/// one table, a later declaration of the same name winning. Formal
/// parameters are local to the call and are not recorded.
pub open spec fn st_node(n: SpecAst, acc: Map<Seq<char>, Seq<char>>) -> Map<Seq<char>, Seq<char>>
    decreases n,
{
    match n {
        SpecAst::VariableDeclaration { name, var_type, .. } => match *var_type {
            SpecAst::Type { name: tname } => acc.insert(name, tname),
            _ => acc,
        },
        SpecAst::FunctionDeclaration { name, parameters, return_type, body } => st_node(
            *body,
            acc.insert(name, fn_signature(parameters, *return_type)),
        ),
        SpecAst::Program { decls } => st_seq(decls, acc),
        SpecAst::Block { statements } => st_seq(statements, acc),
        _ => acc,
    }
}

pub open spec fn st_seq(s: Seq<SpecAst>, acc: Map<Seq<char>, Seq<char>>) -> Map<Seq<char>, Seq<char>>
    decreases s,
{
    if s.len() == 0 {
        acc
    } else {
        st_seq(s.drop_first(), st_node(s[0], acc))
    }
}

/// Builds the flat symbol table of an abstract syntax tree.
pub fn generate_symbol_table(ast: &ASTNode) -> (r: SymbolTable)
    ensures
        r@ == st_node(ast@, Map::<Seq<char>, Seq<char>>::empty()),
{
    let mut table = SymbolTable::new();
    st_visit(ast, &mut table);
    table
}

/// Records the declarations of `node` into `table`, in traversal order.
#[verifier::loop_isolation(false)]
fn st_visit(node: &ASTNode, table: &mut SymbolTable)
    ensures
        final(table)@ == st_node(node@, old(table)@),
    decreases node,
{
    match node {
        ASTNode::VariableDeclaration { name, var_type, .. } => {
            match &**var_type {
                ASTNode::Type(tname) => {
                    proof {
                        assert((**var_type)@ == SpecAst::Type { name: tname@ });
                    }
                    table.insert(name.clone(), tname.clone());
                },
                _ => {
                    proof {
                        assert(!((**var_type)@ is Type));
                    }
                },
            }
        },
        ASTNode::FunctionDeclaration { name, parameters, return_type, body } => {
            let mut type_names: Vec<String> = Vec::new();
            let mut i: usize = 0;
            proof {
                lemma_view_nodes(parameters@);
                assert(view_nodes(parameters@).take(0int) =~= Seq::<SpecAst>::empty());
                assert(type_names@.map_values(|t: String| t@) =~= param_type_names(
                    view_nodes(parameters@).take(0int),
                ));
            }
            while i < parameters.len()
                invariant
                    i <= parameters@.len(),
                    type_names@.map_values(|t: String| t@) == param_type_names(
                        view_nodes(parameters@).take(i as int),
                    ),
                decreases parameters@.len() - i,
            {
                proof {
                    lemma_view_nodes(parameters@);
                    assert(view_nodes(parameters@).take(i + 1).drop_last() =~= view_nodes(
                        parameters@,
                    ).take(i as int));
                    lemma_param_type_names_push(
                        view_nodes(parameters@).take(i as int),
                        view_nodes(parameters@)[i as int],
                    );
                    assert(view_nodes(parameters@).take(i + 1) =~= view_nodes(parameters@).take(
                        i as int,
                    ).push(view_nodes(parameters@)[i as int]));
                }
                match &parameters[i] {
                    ASTNode::VariableDeclaration { var_type, .. } => {
                        match &**var_type {
                            ASTNode::Type(tname) => {
                                proof {
                                    assert((**var_type)@ == SpecAst::Type { name: tname@ });
                                }
                                let ghost before = type_names@.map_values(|t: String| t@);
                                type_names.push(tname.clone());
                                proof {
                                    assert(type_names@.map_values(|t: String| t@) =~= before.push(
                                        tname@,
                                    ));
                                }
                            },
                            _ => {
                                proof {
                                    assert(!((**var_type)@ is Type));
                                }
                            },
                        }
                    },
                    _ => {
                        proof {
                            assert(!(view_nodes(parameters@)[i as int] is VariableDeclaration));
                        }
                    },
                }
                proof {
                    assert(type_names@.map_values(|t: String| t@) =~= param_type_names(
                        view_nodes(parameters@).take(i + 1),
                    ));
                }
                i += 1;
            }
            proof {
                lemma_view_nodes(parameters@);
                assert(view_nodes(parameters@).take(parameters@.len() as int) =~= view_nodes(
                    parameters@,
                ));
            }
            let mut signature = String::from_str("fn(");
            let mut j: usize = 0;
            proof {
                let parts = type_names@.map_values(|t: String| t@);
                assert(parts.take(0int) =~= Seq::<Seq<char>>::empty());
                assert(signature@ =~= "fn("@ + join_comma(parts.take(0int)));
            }
            while j < type_names.len()
                invariant
                    j <= type_names@.len(),
                    signature@ == "fn("@ + join_comma(
                        type_names@.map_values(|t: String| t@).take(j as int),
                    ),
                decreases type_names@.len() - j,
            {
                let ghost parts = type_names@.map_values(|t: String| t@);
                proof {
                    lemma_join_comma_push(parts.take(j as int), parts[j as int]);
                    assert(parts.take(j + 1) =~= parts.take(j as int).push(parts[j as int]));
                }
                if j > 0 {
                    signature.append(", ");
                }
                signature.append(type_names[j].as_str());
                proof {
                    if j == 0 {
                        assert(parts.take(0int) =~= Seq::<Seq<char>>::empty());
                        assert(signature@ =~= "fn("@ + join_comma(parts.take(j + 1)));
                    } else {
                        assert(signature@ =~= "fn("@ + join_comma(parts.take(j + 1)));
                    }
                }
                j += 1;
            }
            proof {
                let parts = type_names@.map_values(|t: String| t@);
                assert(parts.take(type_names@.len() as int) =~= parts);
            }
            signature.append(") -> ");
            match &**return_type {
                ASTNode::Type(tname) => {
                    proof {
                        assert((**return_type)@ == SpecAst::Type { name: tname@ });
                    }
                    signature.append(tname.as_str());
                },
                _ => {
                    proof {
                        assert(!((**return_type)@ is Type));
                    }
                    signature.append("void");
                },
            }
            proof {
                assert(signature@ =~= fn_signature(view_nodes(parameters@), (*return_type)@));
            }
            table.insert(name.clone(), signature);
            st_visit(&**body, table);
        },
        ASTNode::Program(nodes) => {
            st_visit_seq(nodes, table);
        },
        ASTNode::Block(nodes) => {
            st_visit_seq(nodes, table);
        },
        _ => {},
    }
}

/// Records the declarations of each node of a list, left to right.
#[verifier::loop_isolation(false)]
fn st_visit_seq(nodes: &Vec<ASTNode>, table: &mut SymbolTable)
    ensures
        final(table)@ == st_seq(view_nodes(nodes@), old(table)@),
    decreases nodes@,
{
    let ghost decls = view_nodes(nodes@);
    let ghost start = table@;
    let mut i: usize = 0;
    proof {
        lemma_view_nodes(nodes@);
        assert(decls.skip(0int) =~= decls);
    }
    while i < nodes.len()
        invariant
            i <= nodes@.len(),
            decls == view_nodes(nodes@),
            decls.len() == nodes@.len(),
            st_seq(decls.skip(i as int), table@) == st_seq(decls, start),
        decreases nodes@.len() - i,
    {
        proof {
            lemma_view_nodes(nodes@);
            assert(decls.skip(i as int)[0] == decls[i as int]);
            assert(decls.skip(i as int).drop_first() =~= decls.skip(i + 1));
        }
        st_visit(&nodes[i], table);
        i += 1;
    }
    proof {
        lemma_view_nodes(nodes@);
        assert(decls.skip(nodes@.len() as int) =~= Seq::<SpecAst>::empty());
    }
}

} // verus!
