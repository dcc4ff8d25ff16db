//! The fixed table of builtin commands.
use vstd::prelude::*;
use vstd::string::*;

verus! {

/// The commands that the interpreter carries out itself.
#[derive(Clone, Copy, Debug, PartialEq, Eq, Structural)]
pub enum Builtin {
    Echo,
    Exit,
    Type,
    Pwd,
    Cd,
}

/// The name under which each builtin is invoked.
pub open spec fn name_of(b: Builtin) -> Seq<char> {
    match b {
        Builtin::Echo => "echo"@,
        Builtin::Exit => "exit"@,
        Builtin::Type => "type"@,
        Builtin::Pwd => "pwd"@,
        Builtin::Cd => "cd"@,
    }
}

/// The builtin that `name` invokes, if any.
pub open spec fn builtin_named(name: Seq<char>) -> Option<Builtin> {
    if name == "echo"@ {
        Some(Builtin::Echo)
    } else if name == "exit"@ {
        Some(Builtin::Exit)
    } else if name == "type"@ {
        Some(Builtin::Type)
    } else if name == "pwd"@ {
        Some(Builtin::Pwd)
    } else if name == "cd"@ {
        Some(Builtin::Cd)
    } else {
        None
    }
}

/// Each builtin is found under its own name.
pub proof fn lemma_name_finds_builtin(b: Builtin)
    ensures
        builtin_named(name_of(b)) == Some(b),
{
    reveal_strlit("echo");
    reveal_strlit("exit");
    reveal_strlit("type");
    reveal_strlit("pwd");
    reveal_strlit("cd");
    assert("echo"@[1] != "exit"@[1]);
    assert("echo"@.len() != "pwd"@.len());
    assert("echo"@.len() != "cd"@.len());
    assert("echo"@[0] != "type"@[0]);
    assert("exit"@[0] != "type"@[0]);
    assert("exit"@.len() != "pwd"@.len());
    assert("exit"@.len() != "cd"@.len());
    assert("type"@.len() != "pwd"@.len());
    assert("type"@.len() != "cd"@.len());
    assert("pwd"@.len() != "cd"@.len());
}

/// One row of the table.
pub struct Entry {
    pub name: String,
    pub kind: Builtin,
}

/// The table of builtins, looked up by name.
pub struct Builtins {
    pub entries: Vec<Entry>,
}

impl Builtins {
    /// Every row holds its builtin's own name, and every builtin has a row.
    pub open spec fn wf(&self) -> bool {
        &&& forall|i: int|
            0 <= i < self.entries@.len() ==> #[trigger] self.entries@[i].name@ == name_of(
                self.entries@[i].kind,
            )
        &&& forall|b: Builtin| #[trigger] self.has_row(b)
    }

    /// Some row of the table is for `b`.
    pub open spec fn has_row(&self, b: Builtin) -> bool {
        exists|i: int| 0 <= i < self.entries@.len() && #[trigger] self.entries@[i].kind == b
    }

    /// The builtin that `name` invokes, or `None` for any other name.
    pub fn lookup(&self, name: &String) -> (r: Option<Builtin>)
        requires
            self.wf(),
        ensures
            r == builtin_named(name@),
    {
        let mut i: usize = 0;
        while i < self.entries.len()
            invariant
                self.wf(),
                i <= self.entries@.len(),
                forall|j: int| 0 <= j < i ==> #[trigger] self.entries@[j].name@ != name@,
            decreases self.entries@.len() - i,
        {
            if self.entries[i].name == *name {
                proof {
                    lemma_name_finds_builtin(self.entries@[i as int].kind);
                }
                return Some(self.entries[i].kind);
            }
            i = i + 1;
        }
        proof {
            if let Some(b) = builtin_named(name@) {
                assert(self.has_row(b));
                let k = choose|k: int| 0 <= k < self.entries@.len() && #[trigger] self.entries@[k].kind == b;
                assert(self.entries@[k].name@ == name_of(b));
                assert(name_of(b) == name@);
                assert(false);
            }
        }
        None
    }
}

/// The table of all builtins: `echo`, `exit`, `type`, `pwd` and `cd`.
pub fn register_builtins() -> (r: Builtins)
    ensures
        r.wf(),
{
    let mut entries: Vec<Entry> = Vec::new();
    entries.push(Entry { name: String::from_str("echo"), kind: Builtin::Echo });
    entries.push(Entry { name: String::from_str("exit"), kind: Builtin::Exit });
    entries.push(Entry { name: String::from_str("type"), kind: Builtin::Type });
    entries.push(Entry { name: String::from_str("pwd"), kind: Builtin::Pwd });
    entries.push(Entry { name: String::from_str("cd"), kind: Builtin::Cd });
    let r = Builtins { entries };
    assert forall|b: Builtin| #[trigger] r.has_row(b) by {
        match b {
            Builtin::Echo => assert(r.entries@[0].kind == b),
            Builtin::Exit => assert(r.entries@[1].kind == b),
            Builtin::Type => assert(r.entries@[2].kind == b),
            Builtin::Pwd => assert(r.entries@[3].kind == b),
            Builtin::Cd => assert(r.entries@[4].kind == b),
        }
    }
    r
}

} // verus!
