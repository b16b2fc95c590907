//! Builtin types: engine-native types documented from standalone
//! declaration snippets, merged into the symbol table and rendered as pages
//! of their own.
use vstd::prelude::*;
use crate::document::{deprecated_view, deprecation_view, transform_deprecated_opt, DocError};
use crate::item::{insert_all, lemma_insert_all_append, lemma_insert_all_one, ItemProvider};
use crate::model::{ConstDecl, FunctionDecl, Ident, MemberDecl, SemanticTree, StructInner, TopLevelDef, TopLevelKind};
use crate::ordering::{lemma_map_multiset, sort_items, sorted, span_le, span_le_exec, SortKey};
use crate::signature::{
    constant_tokens, function_sig_tokens, member_tokens, reconstruct_constant_declaration,
    reconstruct_function_signature, reconstruct_member_declaration,
};
use crate::structures::{
    emit_all, link_prefix_of, opt_view, Builtin, Constant, Dependencies, Dependency, Function, KindV,
    LinkV, LinkedSection, LinkedSectionKind, MemberVariable, Owner, OwnerV,
};
use crate::text::{doc_string, doc_text};

verus! {

/// A member variable of a builtin, as written in its declaration file.
#[derive(Clone, Debug, PartialEq, Eq)]
pub struct MemberVariableFromFile {
    pub def: String,
}

/// A function of a builtin, as written in its declaration file.
#[derive(Clone, Debug, PartialEq, Eq)]
pub struct FunctionFromFile {
    pub def: String,
}

/// A constant of a builtin, as written in its declaration file.
#[derive(Clone, Debug, PartialEq, Eq)]
pub struct ConstantFromFile {
    pub def: String,
}

/// A builtin's declaration file, before its snippets are parsed.
#[derive(Clone, Debug, PartialEq, Eq)]
pub struct BuiltinTypeFromFile {
    pub filename: String,
    pub name: String,
    pub doc: String,
    pub uses_things_from: Option<String>,
    pub members: Option<Vec<MemberVariableFromFile>>,
    pub functions: Option<Vec<FunctionFromFile>>,
    pub constants: Option<Vec<ConstantFromFile>>,
}

#[derive(Debug)]
pub struct MemberVariableHir<'a> {
    pub def: &'a MemberDecl,
}

#[derive(Debug)]
pub struct FunctionHir<'a> {
    pub def: &'a FunctionDecl,
}

#[derive(Debug)]
pub struct ConstantHir<'a> {
    pub def: &'a ConstDecl,
}

/// A builtin with its snippets parsed. Its lists refer to declarations held
/// elsewhere: its own snippets', and after
/// [`BuiltinTypeHir::extend_with_uses_things_from`] those of the struct it
/// uses things from.
#[derive(Debug)]
pub struct BuiltinTypeHir<'a> {
    pub filename: String,
    pub name: Ident,
    pub doc: String,
    /// The struct whose functions, members and constants the builtin also
    /// documents.
    pub uses_things_from: Option<Ident>,
    pub members: Vec<MemberVariableHir<'a>>,
    pub functions: Vec<FunctionHir<'a>>,
    pub constants: Vec<ConstantHir<'a>>,
}

impl<'a> SortKey for FunctionHir<'a> {
    open spec fn key_le(&self, other: &Self) -> bool {
        span_le(self.def.span, other.def.span)
    }

    proof fn lemma_key_total(a: &Self, b: &Self) {
    }

    proof fn lemma_key_trans(a: &Self, b: &Self, c: &Self) {
    }

    fn le(&self, other: &Self) -> (r: bool) {
        span_le_exec(self.def.span, other.def.span)
    }
}

impl<'a> SortKey for MemberVariableHir<'a> {
    open spec fn key_le(&self, other: &Self) -> bool {
        span_le(self.def.span, other.def.span)
    }

    proof fn lemma_key_total(a: &Self, b: &Self) {
    }

    proof fn lemma_key_trans(a: &Self, b: &Self, c: &Self) {
    }

    fn le(&self, other: &Self) -> (r: bool) {
        span_le_exec(self.def.span, other.def.span)
    }
}

impl<'a> SortKey for ConstantHir<'a> {
    open spec fn key_le(&self, other: &Self) -> bool {
        span_le(self.def.span, other.def.span)
    }

    proof fn lemma_key_total(a: &Self, b: &Self) {
    }

    proof fn lemma_key_trans(a: &Self, b: &Self, c: &Self) {
    }

    fn le(&self, other: &Self) -> (r: bool) {
        span_le_exec(self.def.span, other.def.span)
    }
}

/// The declarations a builtin's lists refer to.
pub open spec fn fn_defs<'a>(s: Seq<FunctionHir<'a>>) -> Seq<FunctionDecl> {
    s.map_values(|h: FunctionHir<'a>| *h.def)
}

pub open spec fn member_defs<'a>(s: Seq<MemberVariableHir<'a>>) -> Seq<MemberDecl> {
    s.map_values(|h: MemberVariableHir<'a>| *h.def)
}

pub open spec fn const_defs<'a>(s: Seq<ConstantHir<'a>>) -> Seq<ConstDecl> {
    s.map_values(|h: ConstantHir<'a>| *h.def)
}

/// The functions among `s`, in order.
pub open spec fn struct_functions(s: Seq<StructInner>) -> Seq<FunctionDecl>
    decreases s.len(),
{
    if s.len() == 0 {
        Seq::empty()
    } else {
        struct_functions(s.drop_last()) + match s.last() {
            StructInner::Function(f) => seq![f],
            _ => Seq::empty(),
        }
    }
}

pub open spec fn struct_members(s: Seq<StructInner>) -> Seq<MemberDecl>
    decreases s.len(),
{
    if s.len() == 0 {
        Seq::empty()
    } else {
        struct_members(s.drop_last()) + match s.last() {
            StructInner::Member(m) => seq![m],
            _ => Seq::empty(),
        }
    }
}

pub open spec fn struct_constants(s: Seq<StructInner>) -> Seq<ConstDecl>
    decreases s.len(),
{
    if s.len() == 0 {
        Seq::empty()
    } else {
        struct_constants(s.drop_last()) + match s.last() {
            StructInner::Const(c) => seq![c],
            _ => Seq::empty(),
        }
    }
}

/// References to the functions, members and constants a struct declares,
/// in declaration order.
fn struct_decl_refs<'a>(inners: &'a Vec<StructInner>) -> (r: (Vec<FunctionHir<'a>>, Vec<MemberVariableHir<'a>>, Vec<ConstantHir<'a>>))
    ensures
        fn_defs(r.0@) == struct_functions(inners@),
        member_defs(r.1@) == struct_members(inners@),
        const_defs(r.2@) == struct_constants(inners@),
{
    let mut fs: Vec<FunctionHir<'a>> = Vec::new();
    let mut ms: Vec<MemberVariableHir<'a>> = Vec::new();
    let mut cs: Vec<ConstantHir<'a>> = Vec::new();
    let mut k: usize = 0;
    assert(inners@.take(0) =~= Seq::<StructInner>::empty());
    assert(fn_defs(fs@) =~= Seq::<FunctionDecl>::empty());
    assert(member_defs(ms@) =~= Seq::<MemberDecl>::empty());
    assert(const_defs(cs@) =~= Seq::<ConstDecl>::empty());
    while k < inners.len()
        invariant
            k <= inners@.len(),
            fn_defs(fs@) == struct_functions(inners@.take(k as int)),
            member_defs(ms@) == struct_members(inners@.take(k as int)),
            const_defs(cs@) == struct_constants(inners@.take(k as int)),
        decreases inners.len() - k,
    {
        assert(inners@.take(k + 1).drop_last() =~= inners@.take(k as int));
        let ghost f0 = fn_defs(fs@);
        let ghost m0 = member_defs(ms@);
        let ghost c0 = const_defs(cs@);
        match &inners[k] {
            StructInner::Function(f) => {
                fs.push(FunctionHir { def: f });
                assert(fn_defs(fs@) =~= f0.push(*f));
                assert(member_defs(ms@) =~= m0 + Seq::<MemberDecl>::empty());
                assert(const_defs(cs@) =~= c0 + Seq::<ConstDecl>::empty());
            },
            StructInner::Member(m) => {
                ms.push(MemberVariableHir { def: m });
                assert(member_defs(ms@) =~= m0.push(*m));
                assert(fn_defs(fs@) =~= f0 + Seq::<FunctionDecl>::empty());
                assert(const_defs(cs@) =~= c0 + Seq::<ConstDecl>::empty());
            },
            StructInner::Const(c) => {
                cs.push(ConstantHir { def: c });
                assert(const_defs(cs@) =~= c0.push(*c));
                assert(fn_defs(fs@) =~= f0 + Seq::<FunctionDecl>::empty());
                assert(member_defs(ms@) =~= m0 + Seq::<MemberDecl>::empty());
            },
            _ => {
                assert(fn_defs(fs@) =~= f0 + Seq::<FunctionDecl>::empty());
                assert(member_defs(ms@) =~= m0 + Seq::<MemberDecl>::empty());
                assert(const_defs(cs@) =~= c0 + Seq::<ConstDecl>::empty());
            },
        }
        k += 1;
    }
    assert(inners@.take(inners@.len() as int) =~= inners@);
    (fs, ms, cs)
}

/// Appends `extra` to `own` and sorts the whole.
fn merge_sorted<T: SortKey>(own: &mut Vec<T>, extra: Vec<T>)
    ensures
        final(own)@.to_multiset() == (old(own)@ + extra@).to_multiset(),
        sorted(final(own)@),
{
    let mut all: Vec<T> = Vec::new();
    std::mem::swap(own, &mut all);
    let mut extra = extra;
    all.append(&mut extra);
    *own = sort_items(all);
}

/// The position of the first top-level struct declared under `sym`.
pub open spec fn find_struct(defs: Seq<TopLevelDef>, sym: u64) -> Option<int>
    decreases defs.len(),
{
    if defs.len() == 0 {
        None
    } else {
        match find_struct(defs.drop_last(), sym) {
            Some(i) => Some(i),
            None => match defs.last().kind {
                TopLevelKind::Struct(s) => if s.name.sym == sym {
                    Some(defs.len() - 1)
                } else {
                    None
                },
                _ => None,
            },
        }
    }
}

impl<'a> BuiltinTypeHir<'a> {
    /// Copies into the builtin's lists every function, member and constant
    /// of the struct it uses things from (the struct keeps its own), then
    /// sorts each combined list by source position; fails when no archive
    /// declares that struct.
    pub fn extend_with_uses_things_from(&mut self, tree: &'a SemanticTree) -> (r: Result<(), DocError>)
        ensures
            final(self).filename == old(self).filename,
            final(self).name == old(self).name,
            final(self).doc == old(self).doc,
            final(self).uses_things_from == old(self).uses_things_from,
            match old(self).uses_things_from {
                None => {
                    &&& r is Ok
                    &&& final(self).members@ == old(self).members@
                    &&& final(self).functions@ == old(self).functions@
                    &&& final(self).constants@ == old(self).constants@
                },
                Some(n) => match find_struct(tree.defs@, n.sym) {
                    Some(i) => {
                        let inners = tree.defs@[i].kind->Struct_0.inners@;
                        &&& r is Ok
                        &&& tree.defs@[i].kind is Struct
                        &&& fn_defs(final(self).functions@).to_multiset() == (fn_defs(old(self).functions@) + struct_functions(inners)).to_multiset()
                        &&& sorted(final(self).functions@)
                        &&& member_defs(final(self).members@).to_multiset() == (member_defs(old(self).members@) + struct_members(inners)).to_multiset()
                        &&& sorted(final(self).members@)
                        &&& const_defs(final(self).constants@).to_multiset() == (const_defs(old(self).constants@) + struct_constants(inners)).to_multiset()
                        &&& sorted(final(self).constants@)
                    },
                    None => {
                        &&& r == Err::<(), DocError>(DocError::MissingStruct(n.text))
                        &&& final(self).members@ == old(self).members@
                        &&& final(self).functions@ == old(self).functions@
                        &&& final(self).constants@ == old(self).constants@
                    },
                },
            },
    {
        let sym = match &self.uses_things_from {
            None => return Ok(()),
            Some(n) => n.sym,
        };
        let i = match find_struct_exec(&tree.defs, sym) {
            Some(i) => i,
            None => {
                let text = match &self.uses_things_from {
                    Some(n) => n.text.clone(),
                    None => String::new(),
                };
                return Err(DocError::MissingStruct(text));
            },
        };
        proof {
            lemma_find_struct_bounds(tree.defs@, sym);
        }
        let s = match &tree.defs[i].kind {
            TopLevelKind::Struct(s) => s,
            _ => {
                return Ok(());
            },
        };
        let (fs, ms, cs) = struct_decl_refs(&s.inners);
        let ghost of = self.functions@;
        let ghost om = self.members@;
        let ghost oc = self.constants@;
        merge_sorted(&mut self.functions, fs);
        merge_sorted(&mut self.members, ms);
        merge_sorted(&mut self.constants, cs);
        proof {
            lemma_map_multiset(self.functions@, of + fs@, |h: FunctionHir<'a>| *h.def);
            assert((of + fs@).map_values(|h: FunctionHir<'a>| *h.def) =~= fn_defs(of) + fn_defs(fs@));
            lemma_map_multiset(self.members@, om + ms@, |h: MemberVariableHir<'a>| *h.def);
            assert((om + ms@).map_values(|h: MemberVariableHir<'a>| *h.def) =~= member_defs(om) + member_defs(ms@));
            lemma_map_multiset(self.constants@, oc + cs@, |h: ConstantHir<'a>| *h.def);
            assert((oc + cs@).map_values(|h: ConstantHir<'a>| *h.def) =~= const_defs(oc) + const_defs(cs@));
        }
        Ok(())
    }
}

pub proof fn lemma_find_struct_bounds(defs: Seq<TopLevelDef>, sym: u64)
    ensures
        match find_struct(defs, sym) {
            Some(i) => 0 <= i < defs.len() && defs[i].kind is Struct,
            None => true,
        },
    decreases defs.len(),
{
    if defs.len() > 0 {
        lemma_find_struct_bounds(defs.drop_last(), sym);
    }
}

/// The position of the first top-level struct declared under `sym`.
pub fn find_struct_exec(defs: &Vec<TopLevelDef>, sym: u64) -> (r: Option<usize>)
    ensures
        match r {
            Some(i) => find_struct(defs@, sym) == Some(i as int),
            None => find_struct(defs@, sym) is None,
        },
{
    let mut i: usize = 0;
    while i < defs.len()
        invariant
            i <= defs@.len(),
            find_struct(defs@.take(i as int), sym) is None,
        decreases defs.len() - i,
    {
        assert(defs@.take(i + 1).drop_last() =~= defs@.take(i as int));
        match &defs[i].kind {
            TopLevelKind::Struct(s) => {
                if s.name.sym == sym {
                    proof {
                        lemma_find_struct_prefix(defs@, i as int + 1, sym);
                    }
                    return Some(i);
                }
            },
            _ => {},
        }
        i += 1;
    }
    assert(defs@.take(i as int) =~= defs@);
    None
}

/// A position found in a prefix stays the first one in the whole list.
pub proof fn lemma_find_struct_prefix(defs: Seq<TopLevelDef>, n: int, sym: u64)
    requires
        0 <= n <= defs.len(),
        find_struct(defs.take(n), sym) is Some,
    ensures
        find_struct(defs, sym) == find_struct(defs.take(n), sym),
    decreases defs.len() - n,
{
    if n < defs.len() {
        assert(defs.take(n + 1).drop_last() =~= defs.take(n));
        lemma_find_struct_prefix(defs, n + 1, sym);
    } else {
        assert(defs.take(n) =~= defs);
    }
}

} // verus!

verus! {

/// A builtin's function item: declared in the global scope, listed under the
/// builtin's own name.
pub open spec fn builtin_fn_ok(it: Function, f: FunctionDecl, sym: u64, t: Map<Seq<u64>, LinkV>, base: Ident) -> bool {
    &&& it.context@ == seq![sym]
    &&& it.name@ == f.name.text@
    &&& it.span == f.span
    &&& it.doc_comment@ == doc_text(f.doc)
    &&& it.signature@ == emit_all(Seq::empty(), function_sig_tokens(t, Seq::empty(), OwnerV::Global, f, base))
    &&& it.overrides is None
    &&& deprecated_view(it.deprecated) == deprecation_view(f.deprecated)
}

pub open spec fn builtin_member_ok(it: MemberVariable, m: MemberDecl, sym: u64, t: Map<Seq<u64>, LinkV>, base: Ident) -> bool {
    &&& it.context@ == seq![sym]
    &&& it.name@ == m.name.text@
    &&& it.span == m.span
    &&& it.doc_comment@ == doc_text(m.doc)
    &&& it.def@ == emit_all(Seq::empty(), member_tokens(t, Seq::empty(), OwnerV::Global, m, base))
    &&& deprecated_view(it.deprecated) == deprecation_view(m.deprecated)
}

pub open spec fn builtin_const_ok(it: Constant, c: ConstDecl, sym: u64) -> bool {
    &&& it.context@ == seq![sym]
    &&& it.name@ == c.name.text@
    &&& it.span == c.span
    &&& it.doc_comment@ == doc_text(c.doc)
    &&& it.def@ == emit_all(Seq::empty(), constant_tokens(OwnerV::Global, c))
}

fn single_path(sym: u64) -> (r: Vec<u64>)
    ensures
        r@ == seq![sym],
{
    let mut r: Vec<u64> = Vec::new();
    r.push(sym);
    assert(r@ =~= seq![sym]);
    r
}

fn function_item(f: &FunctionDecl, sym: u64, tbl: &ItemProvider, base: &Ident) -> (r: Function)
    requires
        tbl.wf(),
    ensures
        builtin_fn_ok(r, *f, sym, tbl@, *base),
{
    let empty: Vec<u64> = Vec::new();
    assert(empty@ =~= Seq::<u64>::empty());
    Function {
        context: single_path(sym),
        name: f.name.text.clone(),
        span: f.span,
        doc_comment: doc_string(&f.doc),
        signature: reconstruct_function_signature(Owner::Global, f, tbl, empty.as_slice(), base),
        overrides: None,
        deprecated: transform_deprecated_opt(&f.deprecated),
    }
}

fn member_item(m: &MemberDecl, sym: u64, tbl: &ItemProvider, base: &Ident) -> (r: MemberVariable)
    requires
        tbl.wf(),
    ensures
        builtin_member_ok(r, *m, sym, tbl@, *base),
{
    let empty: Vec<u64> = Vec::new();
    assert(empty@ =~= Seq::<u64>::empty());
    MemberVariable {
        context: single_path(sym),
        name: m.name.text.clone(),
        span: m.span,
        doc_comment: doc_string(&m.doc),
        def: reconstruct_member_declaration(Owner::Global, m, tbl, empty.as_slice(), base),
        deprecated: transform_deprecated_opt(&m.deprecated),
    }
}

fn constant_item(c: &ConstDecl, sym: u64) -> (r: Constant)
    ensures
        builtin_const_ok(r, *c, sym),
{
    Constant {
        context: single_path(sym),
        name: c.name.text.clone(),
        doc_comment: doc_string(&c.doc),
        span: c.span,
        def: reconstruct_constant_declaration(Owner::Global, c),
    }
}

impl<'a> BuiltinTypeHir<'a> {
    /// Assembles the builtin's page: one item for each of its functions,
    /// members and constants, in the order of its lists, each listed under
    /// the builtin's name and rendered from the global scope.
    pub fn produce(&self, tree: &SemanticTree, item_provider: &ItemProvider) -> (r: Builtin)
        requires
            item_provider.wf(),
        ensures
            r.context@ == seq![self.name.sym],
            r.name@ == self.name.text@,
            r.filename@ == self.filename@,
            r.doc_comment@ == self.doc@,
            r.functions@.len() == self.functions@.len(),
            forall|j: int| 0 <= j < r.functions@.len() ==> #[trigger] builtin_fn_ok(r.functions@[j], *self.functions@[j].def, self.name.sym, item_provider@, tree.base_class),
            r.variables@.len() == self.members@.len(),
            forall|j: int| 0 <= j < r.variables@.len() ==> #[trigger] builtin_member_ok(r.variables@[j], *self.members@[j].def, self.name.sym, item_provider@, tree.base_class),
            r.constants@.len() == self.constants@.len(),
            forall|j: int| 0 <= j < r.constants@.len() ==> #[trigger] builtin_const_ok(r.constants@[j], *self.constants@[j].def, self.name.sym),
    {
        let ghost sym = self.name.sym;
        let ghost t = item_provider@;
        let base = &tree.base_class;
        let mut functions: Vec<Function> = Vec::new();
        let mut variables: Vec<MemberVariable> = Vec::new();
        let mut constants: Vec<Constant> = Vec::new();
        let mut i: usize = 0;
        while i < self.functions.len()
            invariant
                item_provider.wf(),
                t == item_provider@,
                sym == self.name.sym,
                i <= self.functions@.len(),
                functions@.len() == i,
                forall|j: int| 0 <= j < i ==> #[trigger] builtin_fn_ok(functions@[j], *self.functions@[j].def, sym, t, *base),
            decreases self.functions.len() - i,
        {
            functions.push(function_item(self.functions[i].def, self.name.sym, item_provider, base));
            i += 1;
        }
        let mut i: usize = 0;
        while i < self.members.len()
            invariant
                item_provider.wf(),
                t == item_provider@,
                sym == self.name.sym,
                i <= self.members@.len(),
                variables@.len() == i,
                forall|j: int| 0 <= j < i ==> #[trigger] builtin_member_ok(variables@[j], *self.members@[j].def, sym, t, *base),
            decreases self.members.len() - i,
        {
            variables.push(member_item(self.members[i].def, self.name.sym, item_provider, base));
            i += 1;
        }
        let mut i: usize = 0;
        while i < self.constants.len()
            invariant
                sym == self.name.sym,
                i <= self.constants@.len(),
                constants@.len() == i,
                forall|j: int| 0 <= j < i ==> #[trigger] builtin_const_ok(constants@[j], *self.constants@[j].def, sym),
            decreases self.constants.len() - i,
        {
            constants.push(constant_item(self.constants[i].def, self.name.sym));
            i += 1;
        }
        Builtin {
            context: single_path(self.name.sym),
            name: self.name.text.clone(),
            filename: self.filename.clone(),
            doc_comment: self.doc.clone(),
            variables,
            functions,
            constants,
        }
    }
}

/// The symbol-table entry of a builtin of an archive with link prefix
/// `prefix`: keyed by the builtin's name alone.
pub open spec fn builtin_entry<'a>(b: BuiltinTypeHir<'a>, prefix: Option<Seq<char>>) -> (Seq<u64>, LinkV) {
    (seq![b.name.sym], LinkV { prefix, text: b.name.text@, kind: KindV::Builtin(b.name.text@) })
}

/// The entries of the builtins of each archive, archive by archive.
pub open spec fn builtins_entries<'a>(bs: Seq<Vec<BuiltinTypeHir<'a>>>, deps: Seq<Dependency>) -> Seq<(Seq<u64>, LinkV)>
    decreases bs.len(),
{
    if bs.len() == 0 {
        Seq::empty()
    } else {
        builtins_entries(bs.drop_last(), deps) + bs.last()@.map_values(
            |b: BuiltinTypeHir<'a>| builtin_entry(b, link_prefix_of(deps, bs.len() - 1)),
        )
    }
}

impl ItemProvider {
    /// Adds the builtins of every archive (`builtins[a]` holds those of
    /// archive `a`), after everything else, keyed by their names.
    pub fn add_builtins<'a>(&mut self, builtins: &Vec<Vec<BuiltinTypeHir<'a>>>, dependencies: &Dependencies)
        requires
            old(self).wf(),
        ensures
            final(self).wf(),
            final(self)@ == insert_all(old(self)@, builtins_entries(builtins@, dependencies.dependency_links@)),
    {
        let ghost m0 = self@;
        let ghost deps = dependencies.dependency_links@;
        let mut a: usize = 0;
        assert(builtins@.take(0) =~= Seq::<Vec<BuiltinTypeHir<'a>>>::empty());
        while a < builtins.len()
            invariant
                self.wf(),
                deps == dependencies.dependency_links@,
                a <= builtins@.len(),
                self@ == insert_all(m0, builtins_entries(builtins@.take(a as int), deps)),
            decreases builtins.len() - a,
        {
            let prefix = dependencies.get_link_prefix(a);
            let ghost pv = opt_view(prefix);
            let ghost f = |b: BuiltinTypeHir<'a>| builtin_entry(b, pv);
            let ghost done = builtins_entries(builtins@.take(a as int), deps);
            let list = &builtins[a];
            let mut i: usize = 0;
            assert(done + list@.take(0).map_values(f) =~= done);
            while i < list.len()
                invariant
                    self.wf(),
                    i <= list@.len(),
                    pv == opt_view(prefix),
                    f == (|b: BuiltinTypeHir<'a>| builtin_entry(b, pv)),
                    self@ == insert_all(m0, done + list@.take(i as int).map_values(f)),
                decreases list.len() - i,
            {
                let b = &list[i];
                let ghost before = self@;
                let ghost e = f(*b);
                self.insert(single_path(b.name.sym), LinkedSection {
                    link_prefix: crate::structures::clone_opt_string(&prefix),
                    text: b.name.text.clone(),
                    kind: LinkedSectionKind::Builtin { link: b.name.text.clone() },
                });
                proof {
                    let prev = done + list@.take(i as int).map_values(f);
                    lemma_insert_all_one(before, e);
                    lemma_insert_all_append(m0, prev, seq![e]);
                    assert(prev + seq![e] =~= done + list@.take(i + 1).map_values(f));
                }
                i += 1;
            }
            proof {
                assert(list@.take(list@.len() as int) =~= list@);
                assert(builtins@.take(a + 1).drop_last() =~= builtins@.take(a as int));
                assert(builtins@.take(a + 1).last() == *list);
            }
            a += 1;
        }
        assert(builtins@.take(builtins@.len() as int) =~= builtins@);
    }
}

} // verus!
