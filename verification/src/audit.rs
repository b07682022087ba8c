//! Who made a change and what kind of change it was, as the audit log
//! records them.

use vstd::prelude::*;

verus! {

/// Where a mutation came from.
#[derive(Debug, Clone, Copy, PartialEq, Eq, Structural)]
pub enum Source {
    App,
    Cli,
    Ai,
}

/// The name the audit log stores for a source.
pub open spec fn source_name(s: Source) -> Seq<char> {
    match s {
        Source::App => "app"@,
        Source::Cli => "cli"@,
        Source::Ai => "ai"@,
    }
}

impl Source {
    pub fn as_str(self) -> (r: &'static str)
        ensures
            r@ == source_name(self),
    {
        match self {
            Source::App => "app",
            Source::Cli => "cli",
            Source::Ai => "ai",
        }
    }
}

/// The kind of a mutation.
#[derive(Debug, Clone, Copy, PartialEq, Eq, Structural)]
pub enum Op {
    Create,
    Update,
    Delete,
}

/// The name the audit log stores for an operation.
pub open spec fn op_name(o: Op) -> Seq<char> {
    match o {
        Op::Create => "create"@,
        Op::Update => "update"@,
        Op::Delete => "delete"@,
    }
}

impl Op {
    pub fn as_str(self) -> (r: &'static str)
        ensures
            r@ == op_name(self),
    {
        match self {
            Op::Create => "create",
            Op::Update => "update",
            Op::Delete => "delete",
        }
    }
}

/// Distinct sources are stored under distinct names, and so are distinct
/// operations: the audit log tells them apart.
pub proof fn lemma_names_distinct(a: Source, b: Source, x: Op, y: Op)
    ensures
        source_name(a) == source_name(b) ==> a == b,
        op_name(x) == op_name(y) ==> x == y,
{
    reveal_strlit("app");
    reveal_strlit("cli");
    reveal_strlit("ai");
    reveal_strlit("create");
    reveal_strlit("update");
    reveal_strlit("delete");
    assert("app"@[0] != "cli"@[0]);
    assert("app"@.len() != "ai"@.len());
    assert("cli"@[0] != "ai"@[0]);
    assert("update"@[0] != "create"@[0]);
}

} // verus!
