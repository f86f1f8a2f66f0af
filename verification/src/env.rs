use vstd::prelude::*;

use crate::ast::Stmt;
use crate::ast::StmtV;
use crate::ast::view_stmt;
use crate::val::Val;

verus! {

/// A function definition: its ordered parameter names and its body.
pub struct FuncDef {
    pub params: Vec<String>,
    pub body: Stmt,
}

/// The mathematical form of a function definition.
pub ghost struct FuncDefV {
    pub params: Seq<Seq<char>>,
    pub body: StmtV,
}

impl View for FuncDef {
    type V = FuncDefV;

    open spec fn view(&self) -> FuncDefV {
        FuncDefV { params: self.params.deep_view(), body: view_stmt(self.body) }
    }
}

/// A lexical scope: its own bindings and function definitions, plus an
/// optional parent scope that is read through but never written.
pub struct Env<'p> {
    bindings: Vec<(String, Val)>,
    funcs: Vec<(String, FuncDef)>,
    parent: Option<&'p Env<'p>>,
}

/// The mathematical form of a scope chain: each scope as two maps from
/// name to entry, linked to its parent.
pub ghost struct EnvV {
    pub bindings: Map<Seq<char>, Val>,
    pub funcs: Map<Seq<char>, FuncDefV>,
    pub parent: Option<Box<EnvV>>,
}

/// The map described by an association list, later entries shadowing
/// earlier ones.
pub open spec fn bindings_map(s: Seq<(String, Val)>) -> Map<Seq<char>, Val>
    decreases s.len(),
{
    if s.len() == 0 {
        Map::empty()
    } else {
        bindings_map(s.drop_last()).insert(s.last().0@, s.last().1)
    }
}

pub open spec fn funcs_map(s: Seq<(String, FuncDef)>) -> Map<Seq<char>, FuncDefV>
    decreases s.len(),
{
    if s.len() == 0 {
        Map::empty()
    } else {
        funcs_map(s.drop_last()).insert(s.last().0@, s.last().1@)
    }
}

pub closed spec fn env_v(env: Env) -> EnvV
    decreases env,
{
    EnvV {
        bindings: bindings_map(env.bindings@),
        funcs: funcs_map(env.funcs@),
        parent: match env.parent {
            Some(p) => Some(Box::new(env_v(*p))),
            None => None,
        },
    }
}

impl<'p> View for Env<'p> {
    type V = EnvV;

    closed spec fn view(&self) -> EnvV {
        env_v(*self)
    }
}

/// The scope chain of a freshly created empty environment.
pub open spec fn empty_env() -> EnvV {
    EnvV { bindings: Map::empty(), funcs: Map::empty(), parent: None }
}

/// The scope chain seen inside a fresh child of `env`.
pub open spec fn child_of(env: EnvV) -> EnvV {
    EnvV { bindings: Map::empty(), funcs: Map::empty(), parent: Some(Box::new(env)) }
}

/// Walks the scope chain for a binding, innermost scope first.
pub open spec fn lookup_binding(env: EnvV, name: Seq<char>) -> Option<Val>
    decreases env,
{
    if env.bindings.contains_key(name) {
        Some(env.bindings[name])
    } else {
        match env.parent {
            Some(p) => lookup_binding(*p, name),
            None => None,
        }
    }
}

/// Walks the scope chain for a function definition, innermost scope first.
pub open spec fn lookup_func(env: EnvV, name: Seq<char>) -> Option<FuncDefV>
    decreases env,
{
    if env.funcs.contains_key(name) {
        Some(env.funcs[name])
    } else {
        match env.parent {
            Some(p) => lookup_func(*p, name),
            None => None,
        }
    }
}

pub open spec fn binding_err(name: Seq<char>) -> Seq<char> {
    "Binding with name `"@ + name + "` does not exist"@
}

pub open spec fn func_err(name: Seq<char>) -> Seq<char> {
    "Function with name `"@ + name + "` does not exist"@
}

proof fn lemma_bindings_map_none(s: Seq<(String, Val)>, name: Seq<char>)
    requires
        forall|j: int| 0 <= j < s.len() ==> (#[trigger] s[j]).0@ != name,
    ensures
        !bindings_map(s).contains_key(name),
    decreases s.len(),
{
    if s.len() > 0 {
        lemma_bindings_map_none(s.drop_last(), name);
    }
}

proof fn lemma_bindings_map_found(s: Seq<(String, Val)>, name: Seq<char>, j: int)
    requires
        0 <= j < s.len(),
        s[j].0@ == name,
        forall|k: int| j < k < s.len() ==> (#[trigger] s[k]).0@ != name,
    ensures
        bindings_map(s).contains_key(name),
        bindings_map(s)[name] == s[j].1,
    decreases s.len(),
{
    if j == s.len() - 1 {
    } else {
        lemma_bindings_map_found(s.drop_last(), name, j);
    }
}

proof fn lemma_funcs_map_none(s: Seq<(String, FuncDef)>, name: Seq<char>)
    requires
        forall|j: int| 0 <= j < s.len() ==> (#[trigger] s[j]).0@ != name,
    ensures
        !funcs_map(s).contains_key(name),
    decreases s.len(),
{
    if s.len() > 0 {
        lemma_funcs_map_none(s.drop_last(), name);
    }
}

proof fn lemma_funcs_map_found(s: Seq<(String, FuncDef)>, name: Seq<char>, j: int)
    requires
        0 <= j < s.len(),
        s[j].0@ == name,
        forall|k: int| j < k < s.len() ==> (#[trigger] s[k]).0@ != name,
    ensures
        funcs_map(s).contains_key(name),
        funcs_map(s)[name] == s[j].1@,
    decreases s.len(),
{
    if j == s.len() - 1 {
    } else {
        lemma_funcs_map_found(s.drop_last(), name, j);
    }
}

fn binding_err_msg(name: &String) -> (m: String)
    ensures
        m@ == binding_err(name@),
{
    let mut m = "Binding with name `".to_owned();
    m.append(name.as_str());
    m.append("` does not exist");
    m
}

fn func_err_msg(name: &String) -> (m: String)
    ensures
        m@ == func_err(name@),
{
    let mut m = "Function with name `".to_owned();
    m.append(name.as_str());
    m.append("` does not exist");
    m
}

impl<'p> Env<'p> {
    /// Defines or redefines `name` in this scope, shadowing any entry of
    /// an ancestor scope.
    pub fn store_binding(&mut self, name: String, val: Val)
        ensures
            final(self)@.bindings == old(self)@.bindings.insert(name@, val),
            final(self)@.funcs == old(self)@.funcs,
            final(self)@.parent == old(self)@.parent,
    {
        let ghost prev = self.bindings@;
        self.bindings.push((name, val));
        proof {
            assert(self.bindings@.drop_last() =~= prev);
        }
    }

    /// Defines or redefines the function `name` in this scope.
    pub fn store_func(&mut self, name: String, params: Vec<String>, body: Stmt)
        ensures
            final(self)@.funcs == old(self)@.funcs.insert(
                name@,
                FuncDefV { params: params.deep_view(), body: view_stmt(body) },
            ),
            final(self)@.bindings == old(self)@.bindings,
            final(self)@.parent == old(self)@.parent,
    {
        let ghost prev = self.funcs@;
        self.funcs.push((name, FuncDef { params, body }));
        proof {
            assert(self.funcs@.drop_last() =~= prev);
        }
    }

    /// Looks `name` up in this scope, then in its ancestors.
    pub fn get_binding(&self, name: &String) -> (r: Result<Val, String>)
        ensures
            match lookup_binding(self@, name@) {
                Some(v) => r == Ok::<Val, String>(v),
                None => r matches Err(e) && e@ == binding_err(name@),
            },
        decreases *self,
    {
        let mut i = self.bindings.len();
        while i > 0
            invariant
                i <= self.bindings.len(),
                forall|k: int|
                    i <= k < self.bindings@.len() ==> (#[trigger] self.bindings@[k]).0@ != name@,
            decreases i,
        {
            i -= 1;
            if self.bindings[i].0 == *name {
                proof {
                    lemma_bindings_map_found(self.bindings@, name@, i as int);
                }
                return Ok(self.bindings[i].1);
            }
        }
        proof {
            lemma_bindings_map_none(self.bindings@, name@);
        }
        match self.parent {
            Some(p) => p.get_binding(name),
            None => Err(binding_err_msg(name)),
        }
    }

    /// Looks the function `name` up in this scope, then in its ancestors;
    /// yields its parameter names and body.
    pub fn get_func<'a>(&'a self, name: &String) -> (r: Result<(&'a Vec<String>, &'a Stmt), String>)
        ensures
            match lookup_func(self@, name@) {
                Some(fd) => r matches Ok(t) && t.0.deep_view() == fd.params && view_stmt(*t.1)
                    == fd.body,
                None => r matches Err(e) && e@ == func_err(name@),
            },
        decreases *self,
    {
        let mut i = self.funcs.len();
        while i > 0
            invariant
                i <= self.funcs.len(),
                forall|k: int| i <= k < self.funcs@.len() ==> (#[trigger] self.funcs@[k]).0@
                    != name@,
            decreases i,
        {
            i -= 1;
            if self.funcs[i].0 == *name {
                proof {
                    lemma_funcs_map_found(self.funcs@, name@, i as int);
                }
                return Ok((&self.funcs[i].1.params, &self.funcs[i].1.body));
            }
        }
        proof {
            lemma_funcs_map_none(self.funcs@, name@);
        }
        match self.parent {
            Some(p) => p.get_func(name),
            None => Err(func_err_msg(name)),
        }
    }

    /// A fresh scope whose parent is this one.  The child reads through to
    /// this scope but its own definitions never leak back into it.
    pub fn create_child<'a>(&'a self) -> (r: Env<'a>)
        ensures
            r@ == child_of(self@),
    {
        let r = Env { bindings: Vec::new(), funcs: Vec::new(), parent: Some(self) };
        proof {
            assert(r@.bindings =~= child_of(self@).bindings);
            assert(r@.funcs =~= child_of(self@).funcs);
        }
        r
    }
}

impl<'p> Default for Env<'p> {
    /// A top-level scope: no bindings, no functions, no parent.
    fn default() -> (e: Env<'p>)
        ensures
            e@ == empty_env(),
    {
        let e = Env { bindings: Vec::new(), funcs: Vec::new(), parent: None };
        proof {
            assert(e@.bindings =~= empty_env().bindings);
            assert(e@.funcs =~= empty_env().funcs);
        }
        e
    }
}

} // verus!
