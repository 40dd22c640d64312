use vstd::prelude::*;

use crate::file_system::copy_bytes;
use crate::text::{join, joined};

verus! {

/// The view of a list of variable bindings.
pub open spec fn bindings(env: Seq<(String, String)>) -> Seq<(Seq<char>, Seq<char>)> {
    env.map_values(|p: (String, String)| (p.0@, p.1@))
}

/// No variable is bound twice.
pub open spec fn unique_names(env: Seq<(Seq<char>, Seq<char>)>) -> bool {
    forall|i: int, j: int| 0 <= i < j < env.len() ==> env[i].0 != env[j].0
}

/// The bindings after binding `name` to `value`: an earlier binding of
/// `name` is replaced in place, else the binding is added at the end.
pub open spec fn env_set(env: Seq<(Seq<char>, Seq<char>)>, name: Seq<char>, value: Seq<char>) -> Seq<
    (Seq<char>, Seq<char>),
> {
    if exists|i: int| 0 <= i < env.len() && env[i].0 == name {
        env.update(choose|i: int| 0 <= i < env.len() && env[i].0 == name, (name, value))
    } else {
        env.push((name, value))
    }
}

/// The state in which shell commands run: the working directory and the
/// variables exported so far.
#[derive(Clone, Debug)]
pub struct Shell {
    cwd: Vec<u8>,
    env: Vec<(String, String)>,
}

impl Shell {
    pub closed spec fn cwd_view(&self) -> Seq<u8> {
        self.cwd@
    }

    pub closed spec fn env(&self) -> Seq<(Seq<char>, Seq<char>)> {
        bindings(self.env@)
    }

    pub open spec fn wf(&self) -> bool {
        unique_names(self.env())
    }

    /// A shell in the directory `cwd` with no exported variables.
    pub fn new(cwd: Vec<u8>) -> (r: Self)
        ensures
            r.wf(),
            r.cwd_view() == cwd@,
            r.env().len() == 0,
    {
        Shell { cwd, env: Vec::new() }
    }

    pub fn set_cwd(&mut self, path: Vec<u8>)
        ensures
            final(self).cwd_view() == path@,
            final(self).env() == old(self).env(),
    {
        self.cwd = path;
    }

    /// Binds `variable` to `value`, replacing an earlier binding of it.
    pub fn set_env(&mut self, variable: &str, value: &str)
        requires
            old(self).wf(),
        ensures
            final(self).wf(),
            final(self).cwd_view() == old(self).cwd_view(),
            final(self).env() == env_set(old(self).env(), variable@, value@),
    {
        let ghost e = self.env();
        let name = String::from_str(variable);
        let mut i: usize = 0;
        while i < self.env.len()
            invariant
                e == bindings(self.env@),
                e == old(self).env(),
                unique_names(e),
                self.cwd@ == old(self).cwd_view(),
                name@ == variable@,
                i <= self.env@.len(),
                forall|j: int| 0 <= j < i ==> e[j].0 != variable@,
            decreases self.env@.len() - i,
        {
            if self.env[i].0 == name {
                assert(e[i as int].0 == variable@);
                proof {
                    let k = choose|k: int| 0 <= k < e.len() && e[k].0 == variable@;
                    assert(k == i as int);
                }
                self.env.set(i, (name, String::from_str(value)));
                assert(self.env() =~= e.update(i as int, (variable@, value@)));
                assert(unique_names(self.env()));
                return;
            }
            i = i + 1;
        }
        self.env.push((name, String::from_str(value)));
        assert(self.env() =~= e.push((variable@, value@)));
    }

    /// The working directory.
    pub fn cwd(&self) -> (r: &Vec<u8>)
        ensures
            r@ == self.cwd_view(),
    {
        &self.cwd
    }

    /// The exported variables, in the order they were first exported.
    pub fn env_vars(&self) -> (r: &[(String, String)])
        ensures
            bindings(r@) == self.env(),
    {
        self.env.as_slice()
    }
}

/// The program line for a command: `/bin/sh -c` with the words joined by
/// single spaces.
pub open spec fn shell_argv(argv: Seq<Seq<char>>) -> Seq<Seq<char>> {
    seq!["/bin/sh"@, "-c"@, joined(argv, " "@)]
}

/// The argument vector that runs `argv` through `/bin/sh -c`.
pub fn command_argv(argv: &[String]) -> (r: Vec<String>)
    ensures
        r@.map_values(|s: String| s@) == shell_argv(argv@.map_values(|s: String| s@)),
{
    let line = join(argv, " ");
    let mut r: Vec<String> = Vec::new();
    r.push(String::from_str("/bin/sh"));
    r.push(String::from_str("-c"));
    r.push(line);
    assert(r@.map_values(|s: String| s@) =~= shell_argv(argv@.map_values(|s: String| s@)));
    r
}

} // verus!
