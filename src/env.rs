//! The compile-time environment: binds local variable names to slots.
use vstd::prelude::*;

verus! {

/// An error found while a program is put together, before it runs.
#[derive(Debug)]
pub enum CompileError {
    /// A variable was read before any assignment declared it.
    UndefinedVariable(String),
}

/// The first slot bound to `name` at or after `i`, or -1.
pub open spec fn slot_of(names: Seq<Seq<char>>, name: Seq<char>, i: int) -> int
    decreases names.len() - i,
{
    if i < 0 || i >= names.len() {
        -1
    } else if names[i] == name {
        i
    } else {
        slot_of(names, name, i + 1)
    }
}

/// The local variables of a compilation unit, one slot each.
///
/// Slots are handed out in order of first declaration and never reused.
pub struct LocalEnv {
    names: Vec<String>,
}

impl View for LocalEnv {
    type V = Seq<Seq<char>>;

    closed spec fn view(&self) -> Seq<Seq<char>> {
        self.names@.map_values(|s: String| s@)
    }
}

impl LocalEnv {
    /// An environment with no variable.
    pub fn new() -> (r: LocalEnv)
        ensures
            r@ == Seq::<Seq<char>>::empty(),
    {
        let r = LocalEnv { names: Vec::new() };
        assert(r@ =~= Seq::<Seq<char>>::empty());
        r
    }

    /// The number of slots handed out.
    pub fn slot_count(&self) -> (r: usize)
        ensures
            r == self@.len(),
    {
        self.names.len()
    }

    /// The slot of `name`, if it is declared.
    pub fn resolve_local(&self, name: &str) -> (r: Option<usize>)
        ensures
            match r {
                Some(i) => i as int == slot_of(self@, name@, 0) && i >= 0,
                None => slot_of(self@, name@, 0) == -1,
            },
    {
        let key = name.to_string();
        let mut i: usize = 0;
        while i < self.names.len()
            invariant
                i <= self.names.len(),
                key@ == name@,
                self@.len() == self.names.len(),
                slot_of(self@, name@, 0) == slot_of(self@, name@, i as int),
            decreases self.names.len() - i,
        {
            assert(self@[i as int] == self.names@[i as int]@);
            if self.names[i] == key {
                return Some(i);
            }
            i = i + 1;
        }
        None
    }

    /// The slot of `name`, declaring it where it is new: a new name takes
    /// the next slot; a known one keeps its own.
    pub fn declare_local(&mut self, name: &str) -> (r: usize)
        requires
            old(self)@.len() < usize::MAX,
        ensures
            slot_of(old(self)@, name@, 0) >= 0 ==> r as int == slot_of(old(self)@, name@, 0)
                && final(self)@ == old(self)@,
            slot_of(old(self)@, name@, 0) == -1 ==> r == old(self)@.len() && final(self)@
                == old(self)@.push(name@),
    {
        match self.resolve_local(name) {
            Some(i) => i,
            None => {
                let n = self.names.len();
                let ghost before = self@;
                self.names.push(name.to_string());
                assert(self@ =~= before.push(name@));
                n
            },
        }
    }

    /// The slot of a variable that is read: an error where no assignment
    /// has declared it.
    pub fn resolve(&self, name: &str) -> (r: Result<usize, CompileError>)
        ensures
            match r {
                Ok(i) => i as int == slot_of(self@, name@, 0) && i >= 0,
                Err(CompileError::UndefinedVariable(n)) => n@ == name@ && slot_of(self@, name@, 0)
                    == -1,
            },
    {
        match self.resolve_local(name) {
            Some(i) => Ok(i),
            None => Err(CompileError::UndefinedVariable(name.to_string())),
        }
    }
}

} // verus!
