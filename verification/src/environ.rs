//! Environments: the sums, structs, enums, bindings and functions that are
//! declared at one point of a program, and the modules loaded so far.

use crate::host::{clone_text_option, text_option_view};
use crate::parser::expr::{Expr, ExprModel};
use crate::parser::statement::{param_views, text_views, ParamModel};
use crate::parser::typing::{typing_views, Typing, TypingModel};
use crate::parser::value::{Value, ValueModel};
use std::rc::Rc;
use vstd::prelude::*;

verus! {

/// A declared sum: its name and the types that it joins.
#[derive(Debug)]
pub struct SumDecl {
    pub name: String,
    pub variants: Vec<Typing>,
}

/// A declared struct: its name and its fields.
#[derive(Debug)]
pub struct StructDecl {
    pub name: String,
    pub fields: Vec<(String, Typing, Option<Expr>)>,
}

/// A declared enum: its name and its variants.
#[derive(Debug)]
pub struct EnumDecl {
    pub name: String,
    pub variants: Vec<String>,
}

/// A bound name: the type it was declared with and its value.
#[derive(Debug)]
pub struct Binding {
    pub name: String,
    pub typ: Typing,
    pub value: Value,
}

/// A declared function, with the environment that it was declared in.
#[derive(Debug)]
pub struct FunctionDecl {
    pub env: Environ,
    pub name: String,
    pub params: Vec<(String, Typing, Option<Expr>)>,
    pub body: Expr,
}

/// What is declared at one point of a program. Of two declarations of
/// one kind under one name the later one counts.
#[derive(Debug)]
pub struct Environ {
    pub cd: Option<String>,
    pub types: Vec<Rc<SumDecl>>,
    pub structs: Vec<Rc<StructDecl>>,
    pub enums: Vec<Rc<EnumDecl>>,
    pub vars: Vec<Rc<Binding>>,
    pub funs: Vec<Rc<FunctionDecl>>,
    pub loaded_modules: Vec<String>,
}

/// The mathematical value of a [`SumDecl`].
pub struct SumModel {
    pub name: Seq<char>,
    pub variants: Seq<TypingModel>,
}

/// The mathematical value of a [`StructDecl`].
pub struct StructModel {
    pub name: Seq<char>,
    pub fields: Seq<ParamModel>,
}

/// The mathematical value of an [`EnumDecl`].
pub struct EnumModel {
    pub name: Seq<char>,
    pub variants: Seq<Seq<char>>,
}

/// The mathematical value of a [`Binding`].
pub struct BindingModel {
    pub name: Seq<char>,
    pub typ: TypingModel,
    pub value: ValueModel,
}

/// The mathematical value of a [`FunctionDecl`].
pub struct FunctionModel {
    pub env: EnvironModel,
    pub name: Seq<char>,
    pub params: Seq<ParamModel>,
    pub body: ExprModel,
}

/// The mathematical value of an [`Environ`].
pub struct EnvironModel {
    pub cd: Option<Seq<char>>,
    pub types: Seq<SumModel>,
    pub structs: Seq<StructModel>,
    pub enums: Seq<EnumModel>,
    pub vars: Seq<BindingModel>,
    pub funs: Seq<FunctionModel>,
    pub loaded: Seq<Seq<char>>,
}

impl View for SumDecl {
    type V = SumModel;

    open spec fn view(&self) -> SumModel {
        SumModel { name: self.name@, variants: typing_views(self.variants@) }
    }
}

impl View for StructDecl {
    type V = StructModel;

    open spec fn view(&self) -> StructModel {
        StructModel { name: self.name@, fields: param_views(self.fields@) }
    }
}

impl View for EnumDecl {
    type V = EnumModel;

    open spec fn view(&self) -> EnumModel {
        EnumModel { name: self.name@, variants: text_views(self.variants@) }
    }
}

impl View for Binding {
    type V = BindingModel;

    open spec fn view(&self) -> BindingModel {
        BindingModel { name: self.name@, typ: self.typ@, value: self.value@ }
    }
}

impl FunctionDecl {
    /// The mathematical value of this function.
    pub open spec fn model(&self) -> FunctionModel
        decreases self,
    {
        FunctionModel {
            env: self.env.model(),
            name: self.name@,
            params: param_views(self.params@),
            body: self.body@,
        }
    }
}

impl View for FunctionDecl {
    type V = FunctionModel;

    open spec fn view(&self) -> FunctionModel {
        self.model()
    }
}

impl Environ {
    /// The mathematical value of this environment.
    pub open spec fn model(&self) -> EnvironModel
        decreases self,
    {
        EnvironModel {
            cd: text_option_view(self.cd),
            types: Seq::new(self.types@.len(), |i: int| self.types@[i]@),
            structs: Seq::new(self.structs@.len(), |i: int| self.structs@[i]@),
            enums: Seq::new(self.enums@.len(), |i: int| self.enums@[i]@),
            vars: Seq::new(self.vars@.len(), |i: int| self.vars@[i]@),
            funs: function_views(self.funs@),
            loaded: text_views(self.loaded_modules@),
        }
    }
}

/// The models of a sequence of functions, position by position.
pub open spec fn function_views(xs: Seq<Rc<FunctionDecl>>) -> Seq<FunctionModel>
    decreases xs,
{
    Seq::new(
        xs.len(),
        |i: int|
            if 0 <= i < xs.len() {
                xs[i].model()
            } else {
                arbitrary()
            },
    )
}

impl View for Environ {
    type V = EnvironModel;

    open spec fn view(&self) -> EnvironModel {
        self.model()
    }
}

/// The environment in which nothing is declared.
pub open spec fn empty_environ(cd: Option<Seq<char>>) -> EnvironModel {
    EnvironModel {
        cd,
        types: Seq::empty(),
        structs: Seq::empty(),
        enums: Seq::empty(),
        vars: Seq::empty(),
        funs: Seq::empty(),
        loaded: Seq::empty(),
    }
}

/// The last of the first `i` entries whose name, as `key` tells it, is `name`.
pub open spec fn find_last<T>(s: Seq<T>, name: Seq<char>, key: spec_fn(T) -> Seq<char>, i: int) -> Option<
    T,
>
    decreases i,
{
    if i <= 0 || i > s.len() {
        None
    } else if key(s[i - 1]) == name {
        Some(s[i - 1])
    } else {
        find_last(s, name, key, i - 1)
    }
}

/// The sum declared under `name`.
pub open spec fn sum_of(env: EnvironModel, name: Seq<char>) -> Option<SumModel> {
    find_last(env.types, name, |d: SumModel| d.name, env.types.len() as int)
}

/// The struct declared under `name`.
pub open spec fn struct_of(env: EnvironModel, name: Seq<char>) -> Option<StructModel> {
    find_last(env.structs, name, |d: StructModel| d.name, env.structs.len() as int)
}

/// The enum declared under `name`.
pub open spec fn enum_of(env: EnvironModel, name: Seq<char>) -> Option<EnumModel> {
    find_last(env.enums, name, |d: EnumModel| d.name, env.enums.len() as int)
}

/// The binding of `name`.
pub open spec fn binding_of(env: EnvironModel, name: Seq<char>) -> Option<BindingModel> {
    find_last(env.vars, name, |d: BindingModel| d.name, env.vars.len() as int)
}

/// The function declared under `name`.
pub open spec fn function_of(env: EnvironModel, name: Seq<char>) -> Option<FunctionModel> {
    find_last(env.funs, name, |d: FunctionModel| d.name, env.funs.len() as int)
}

/// Whether `x` is among the first `i` texts of `s`.
pub open spec fn has_text(s: Seq<Seq<char>>, x: Seq<char>, i: int) -> bool
    decreases i,
{
    if i <= 0 || i > s.len() {
        false
    } else {
        s[i - 1] == x || has_text(s, x, i - 1)
    }
}

/// Whether the module under `path` was loaded.
pub open spec fn is_loaded(env: EnvironModel, path: Seq<char>) -> bool {
    has_text(env.loaded, path, env.loaded.len() as int)
}

/// A second handle on a shared value (`Rc::clone`): it stands for the same value.
#[verifier::external_body]
pub(crate) fn share<T>(x: &Rc<T>) -> (r: Rc<T>)
    ensures
        r == *x,
{
    Rc::clone(x)
}

/// Copies a list of shared values.
#[verifier::loop_isolation(false)]
pub fn share_all<T>(xs: &Vec<Rc<T>>) -> (r: Vec<Rc<T>>)
    ensures
        r@ == xs@,
{
    let mut out: Vec<Rc<T>> = Vec::new();
    let mut i: usize = 0;
    while i < xs.len()
        invariant
            i <= xs.len(),
            out@ == xs@.take(i as int),
        decreases xs.len() - i,
    {
        out.push(share(&xs[i]));
        assert(xs@.take(i + 1) =~= xs@.take(i as int).push(xs@[i as int]));
        i += 1;
    }
    assert(xs@.take(xs.len() as int) =~= xs@);
    out
}

/// Copies a list of texts.
#[verifier::loop_isolation(false)]
pub fn copy_texts(xs: &Vec<String>) -> (r: Vec<String>)
    ensures
        r@ == xs@,
{
    let mut out: Vec<String> = Vec::new();
    let mut i: usize = 0;
    while i < xs.len()
        invariant
            i <= xs.len(),
            out@ == xs@.take(i as int),
        decreases xs.len() - i,
    {
        out.push(xs[i].clone());
        assert(xs@.take(i + 1) =~= xs@.take(i as int).push(xs@[i as int]));
        i += 1;
    }
    assert(xs@.take(xs.len() as int) =~= xs@);
    out
}

/// The environment with one more sum.
pub open spec fn with_sum(env: EnvironModel, d: SumModel) -> EnvironModel {
    EnvironModel { types: env.types.push(d), ..env }
}

/// The environment with one more struct.
pub open spec fn with_struct(env: EnvironModel, d: StructModel) -> EnvironModel {
    EnvironModel { structs: env.structs.push(d), ..env }
}

/// The environment with one more enum.
pub open spec fn with_enum(env: EnvironModel, d: EnumModel) -> EnvironModel {
    EnvironModel { enums: env.enums.push(d), ..env }
}

/// The environment with one more binding.
pub open spec fn with_var(env: EnvironModel, d: BindingModel) -> EnvironModel {
    EnvironModel { vars: env.vars.push(d), ..env }
}

/// The environment with one more function.
pub open spec fn with_function(env: EnvironModel, d: FunctionModel) -> EnvironModel {
    EnvironModel { funs: env.funs.push(d), ..env }
}

/// The environment with one more loaded module.
pub open spec fn with_loaded(env: EnvironModel, path: Seq<char>) -> EnvironModel {
    EnvironModel { loaded: env.loaded.push(path), ..env }
}

impl Environ {
    /// The environment in which nothing is declared yet.
    pub fn new(cd: Option<String>) -> (r: Environ)
        ensures
            r@ == empty_environ(text_option_view(cd)),
    {
        let r = Environ {
            cd,
            types: Vec::new(),
            structs: Vec::new(),
            enums: Vec::new(),
            vars: Vec::new(),
            funs: Vec::new(),
            loaded_modules: Vec::new(),
        };
        assert(r@.types =~= Seq::empty());
        assert(r@.structs =~= Seq::empty());
        assert(r@.enums =~= Seq::empty());
        assert(r@.vars =~= Seq::empty());
        assert(r@.funs =~= Seq::empty());
        assert(r@.loaded =~= Seq::empty());
        r
    }

    /// Declares a sum.
    pub fn declare_sum(&mut self, name: String, variants: Vec<Typing>)
        ensures
            final(self)@ == with_sum(
                old(self)@,
                SumModel { name: name@, variants: typing_views(variants@) },
            ),
    {
        self.types.push(Rc::new(SumDecl { name, variants }));
        assert(self@.types =~= old(self)@.types.push(
            SumModel { name: name@, variants: typing_views(variants@) },
        ));
    }

    /// Declares a struct.
    pub fn declare_struct(&mut self, name: String, fields: Vec<(String, Typing, Option<Expr>)>)
        ensures
            final(self)@ == with_struct(
                old(self)@,
                StructModel { name: name@, fields: param_views(fields@) },
            ),
    {
        self.structs.push(Rc::new(StructDecl { name, fields }));
        assert(self@.structs =~= old(self)@.structs.push(
            StructModel { name: name@, fields: param_views(fields@) },
        ));
    }

    /// Declares an enum.
    pub fn declare_enum(&mut self, name: String, variants: Vec<String>)
        ensures
            final(self)@ == with_enum(
                old(self)@,
                EnumModel { name: name@, variants: text_views(variants@) },
            ),
    {
        self.enums.push(Rc::new(EnumDecl { name, variants }));
        assert(self@.enums =~= old(self)@.enums.push(
            EnumModel { name: name@, variants: text_views(variants@) },
        ));
    }

    /// Binds a name.
    pub fn bind(&mut self, name: String, typ: Typing, value: Value)
        ensures
            final(self)@ == with_var(
                old(self)@,
                BindingModel { name: name@, typ: typ@, value: value@ },
            ),
    {
        self.vars.push(Rc::new(Binding { name, typ, value }));
        assert(self@.vars =~= old(self)@.vars.push(
            BindingModel { name: name@, typ: typ@, value: value@ },
        ));
    }

    /// Declares a function.
    pub fn declare_function(&mut self, decl: FunctionDecl)
        ensures
            final(self)@ == with_function(old(self)@, decl@),
    {
        self.funs.push(Rc::new(decl));
        assert(self@.funs =~= old(self)@.funs.push(decl@));
    }

    /// Records that the module under `path` was loaded.
    pub fn mark_loaded(&mut self, path: String)
        ensures
            final(self)@ == with_loaded(old(self)@, path@),
    {
        self.loaded_modules.push(path);
        assert(self@.loaded =~= old(self)@.loaded.push(path@));
    }

    /// Tells whether the module under `path` was loaded.
    #[verifier::loop_isolation(false)]
    pub fn loaded(&self, path: &String) -> (r: bool)
        ensures
            r == is_loaded(self@, path@),
    {
        let mut i: usize = self.loaded_modules.len();
        while i > 0
            invariant
                i <= self.loaded_modules.len(),
                is_loaded(self@, path@) == has_text(self@.loaded, path@, i as int),
            decreases i,
        {
            if self.loaded_modules[i - 1] == *path {
                return true;
            }
            i -= 1;
        }
        false
    }

    /// The sum declared under `name`.
    #[verifier::loop_isolation(false)]
    pub fn sum(&self, name: &String) -> (r: Option<&SumDecl>)
        ensures
            sum_of(self@, name@) == match r {
                Some(d) => Some(d@),
                None => None,
            },
    {
        let ghost key = |d: SumModel| d.name;
        let mut i: usize = self.types.len();
        while i > 0
            invariant
                i <= self.types.len(),
                sum_of(self@, name@) == find_last(self@.types, name@, key, i as int),
            decreases i,
        {
            if self.types[i - 1].name == *name {
                return Some(&self.types[i - 1]);
            }
            i -= 1;
        }
        None
    }

    /// The struct declared under `name`.
    #[verifier::loop_isolation(false)]
    pub fn structure(&self, name: &String) -> (r: Option<&StructDecl>)
        ensures
            struct_of(self@, name@) == match r {
                Some(d) => Some(d@),
                None => None,
            },
    {
        let ghost key = |d: StructModel| d.name;
        let mut i: usize = self.structs.len();
        while i > 0
            invariant
                i <= self.structs.len(),
                struct_of(self@, name@) == find_last(self@.structs, name@, key, i as int),
            decreases i,
        {
            if self.structs[i - 1].name == *name {
                return Some(&self.structs[i - 1]);
            }
            i -= 1;
        }
        None
    }

    /// The enum declared under `name`.
    #[verifier::loop_isolation(false)]
    pub fn enumeration(&self, name: &String) -> (r: Option<&EnumDecl>)
        ensures
            enum_of(self@, name@) == match r {
                Some(d) => Some(d@),
                None => None,
            },
    {
        let ghost key = |d: EnumModel| d.name;
        let mut i: usize = self.enums.len();
        while i > 0
            invariant
                i <= self.enums.len(),
                enum_of(self@, name@) == find_last(self@.enums, name@, key, i as int),
            decreases i,
        {
            if self.enums[i - 1].name == *name {
                return Some(&self.enums[i - 1]);
            }
            i -= 1;
        }
        None
    }

    /// The binding of `name`.
    #[verifier::loop_isolation(false)]
    pub fn binding(&self, name: &String) -> (r: Option<&Binding>)
        ensures
            binding_of(self@, name@) == match r {
                Some(d) => Some(d@),
                None => None,
            },
    {
        let ghost key = |d: BindingModel| d.name;
        let mut i: usize = self.vars.len();
        while i > 0
            invariant
                i <= self.vars.len(),
                binding_of(self@, name@) == find_last(self@.vars, name@, key, i as int),
            decreases i,
        {
            if self.vars[i - 1].name == *name {
                return Some(&self.vars[i - 1]);
            }
            i -= 1;
        }
        None
    }

    /// The function declared under `name`.
    #[verifier::loop_isolation(false)]
    pub fn function(&self, name: &String) -> (r: Option<&FunctionDecl>)
        ensures
            function_of(self@, name@) == match r {
                Some(d) => Some(d@),
                None => None,
            },
    {
        let ghost key = |d: FunctionModel| d.name;
        let mut i: usize = self.funs.len();
        while i > 0
            invariant
                i <= self.funs.len(),
                function_of(self@, name@) == find_last(self@.funs, name@, key, i as int),
            decreases i,
        {
            if self.funs[i - 1].name == *name {
                return Some(&self.funs[i - 1]);
            }
            i -= 1;
        }
        None
    }
}

impl Clone for Environ {
    fn clone(&self) -> (r: Environ)
        ensures
            r@ == self@,
    {
        Environ {
            cd: clone_text_option(&self.cd),
            types: share_all(&self.types),
            structs: share_all(&self.structs),
            enums: share_all(&self.enums),
            vars: share_all(&self.vars),
            funs: share_all(&self.funs),
            loaded_modules: copy_texts(&self.loaded_modules),
        }
    }
}

} // verus!
