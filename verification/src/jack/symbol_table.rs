//! The compiler's symbol table: each variable's type, scope and index.
use vstd::prelude::*;
use crate::name_map::NameMap;
use crate::jack::tokens::{Primitive, Scope};

verus! {

/// The type of a variable.
#[derive(Debug, Clone)]
pub enum TypeDescriptor {
    Primitive(Primitive),
    Class(String),
}

/// A type with its class name as a character sequence.
pub enum TypeModel {
    Primitive(Primitive),
    Class(Seq<char>),
}

impl View for TypeDescriptor {
    type V = TypeModel;

    open spec fn view(&self) -> TypeModel {
        match self {
            TypeDescriptor::Primitive(p) => TypeModel::Primitive(*p),
            TypeDescriptor::Class(c) => TypeModel::Class(c@),
        }
    }
}

impl TypeDescriptor {
    /// A copy of the type.
    pub fn copy(&self) -> (r: TypeDescriptor)
        ensures
            r@ == self@,
    {
        match self {
            TypeDescriptor::Primitive(p) => TypeDescriptor::Primitive(*p),
            TypeDescriptor::Class(c) => TypeDescriptor::Class(c.clone()),
        }
    }
}

/// One variable.
struct Symbol {
    type_desc: TypeDescriptor,
    segment: Scope,
    index: usize,
}

/// What the table knows of a variable.
pub struct SymbolModel {
    pub type_desc: TypeModel,
    pub segment: Scope,
    pub index: usize,
}

/// The scopes that a variable can be declared in.
pub open spec fn declarable(s: Scope) -> bool {
    s == Scope::Static || s == Scope::Var || s == Scope::Arg || s == Scope::Field
}

/// What the table holds: its variables and the next index of each scope.
pub struct TableModel {
    pub symbols: Map<Seq<char>, SymbolModel>,
    pub static_count: usize,
    pub local_count: usize,
    pub arg_count: usize,
    pub field_count: usize,
}

/// The next index of a declarable scope.
pub open spec fn count_of(t: TableModel, s: Scope) -> usize {
    match s {
        Scope::Static => t.static_count,
        Scope::Var => t.local_count,
        Scope::Arg => t.arg_count,
        _ => t.field_count,
    }
}

/// The table after declaring `name` of type `ty` in scope `s`: it takes
/// the scope's next index, and replaces any variable of that name.
pub open spec fn define_model(t: TableModel, name: Seq<char>, ty: TypeModel, s: Scope) -> TableModel {
    let i = count_of(t, s);
    let t2 = match s {
        Scope::Static => TableModel { static_count: (i + 1) as usize, ..t },
        Scope::Var => TableModel { local_count: (i + 1) as usize, ..t },
        Scope::Arg => TableModel { arg_count: (i + 1) as usize, ..t },
        _ => TableModel { field_count: (i + 1) as usize, ..t },
    };
    TableModel {
        symbols: t2.symbols.insert(name, SymbolModel { type_desc: ty, segment: s, index: i }),
        ..t2
    }
}

/// Whether a variable stays when the table is flushed for a new
/// subroutine: argument and field variables go.
pub open spec fn kept(s: SymbolModel) -> bool {
    s.segment != Scope::Arg && s.segment != Scope::Field
}

/// The table after a flush: argument and field variables gone, their
/// counts back to zero; static and local variables, and the local count,
/// stay.
pub open spec fn flush_model(t: TableModel) -> TableModel {
    TableModel {
        symbols: Map::new(
            |k: Seq<char>| t.symbols.contains_key(k) && kept(t.symbols[k]),
            |k: Seq<char>| t.symbols[k],
        ),
        arg_count: 0,
        field_count: 0,
        ..t
    }
}

/// Declaring a variable gives it the next index of its scope, whose count
/// grows by one; the other counts and the other names stay as they were.
pub proof fn lemma_define_next_index(t: TableModel, name: Seq<char>, ty: TypeModel, s: Scope)
    requires
        declarable(s),
        count_of(t, s) < usize::MAX,
    ensures
        define_model(t, name, ty, s).symbols.contains_key(name),
        define_model(t, name, ty, s).symbols[name] == (SymbolModel {
            type_desc: ty,
            segment: s,
            index: count_of(t, s),
        }),
        count_of(define_model(t, name, ty, s), s) == count_of(t, s) + 1,
        forall|s2: Scope| declarable(s2) && s2 != s ==> count_of(define_model(t, name, ty, s), s2)
            == count_of(t, s2),
        forall|n: Seq<char>| n != name ==> (#[trigger] define_model(t, name, ty, s).symbols.contains_key(n)
            == t.symbols.contains_key(n) && (t.symbols.contains_key(n)
            ==> define_model(t, name, ty, s).symbols[n] == t.symbols[n])),
{
}

/// A flush forgets the argument and field variables and keeps every other
/// variable as it was; the argument and field counts restart at zero and
/// the static and local counts stay.
pub proof fn lemma_flush_keeps_statics_and_locals(t: TableModel, name: Seq<char>)
    ensures
        flush_model(t).symbols.contains_key(name) <==> (t.symbols.contains_key(name) && kept(
            t.symbols[name],
        )),
        flush_model(t).symbols.contains_key(name) ==> flush_model(t).symbols[name] == t.symbols[name],
        flush_model(t).arg_count == 0 && flush_model(t).field_count == 0,
        flush_model(t).static_count == t.static_count && flush_model(t).local_count == t.local_count,
{
}

/// The table after declaring each of `ds` (name, type, scope) in turn.
pub open spec fn define_all(t: TableModel, ds: Seq<(Seq<char>, TypeModel, Scope)>) -> TableModel
    decreases ds.len(),
{
    if ds.len() == 0 {
        t
    } else {
        let d = ds.last();
        define_model(define_all(t, ds.drop_last()), d.0, d.1, d.2)
    }
}

/// How many of the declarations `ds` are in scope `s`.
pub open spec fn scope_count(ds: Seq<(Seq<char>, TypeModel, Scope)>, s: Scope) -> nat
    decreases ds.len(),
{
    if ds.len() == 0 {
        0
    } else {
        scope_count(ds.drop_last(), s) + if ds.last().2 == s { 1nat } else { 0nat }
    }
}

proof fn lemma_scope_count_bound(ds: Seq<(Seq<char>, TypeModel, Scope)>, s: Scope)
    ensures
        scope_count(ds, s) <= ds.len(),
    decreases ds.len(),
{
    if ds.len() > 0 {
        lemma_scope_count_bound(ds.drop_last(), s);
    }
}

/// Declaring variables of distinct names one after another gives each the
/// index that counts the earlier declarations of its own scope (from the
/// scope's count before the first); each scope's count grows by the
/// number of its declarations.
pub proof fn lemma_define_indices(t: TableModel, ds: Seq<(Seq<char>, TypeModel, Scope)>)
    requires
        forall|i: int| 0 <= i < ds.len() ==> declarable(#[trigger] ds[i].2),
        forall|i: int, j: int| 0 <= i < j < ds.len() ==> #[trigger] ds[i].0 != #[trigger] ds[j].0,
        forall|s: Scope| declarable(s) ==> #[trigger] count_of(t, s) + ds.len() < usize::MAX,
    ensures
        forall|s: Scope| declarable(s) ==> #[trigger] count_of(define_all(t, ds), s) == count_of(t, s)
            + scope_count(ds, s),
        forall|k: int| 0 <= k < ds.len() ==> #[trigger] define_all(t, ds).symbols.contains_key(ds[k].0)
            && define_all(t, ds).symbols[ds[k].0] == (SymbolModel {
                type_desc: ds[k].1,
                segment: ds[k].2,
                index: (count_of(t, ds[k].2) + scope_count(ds.take(k), ds[k].2)) as usize,
            }),
    decreases ds.len(),
{
    if ds.len() > 0 {
        let p = ds.drop_last();
        let n = ds.len() - 1;
        let d = ds.last();
        assert forall|i: int| 0 <= i < p.len() implies declarable(#[trigger] p[i].2) by {
            assert(p[i] == ds[i]);
        }
        assert forall|i: int, j: int| 0 <= i < j < p.len() implies #[trigger] p[i].0 != #[trigger] p[j].0 by {
            assert(p[i] == ds[i] && p[j] == ds[j]);
        }
        lemma_define_indices(t, p);
        let tp = define_all(t, p);
        assert(declarable(ds[n].2));
        lemma_scope_count_bound(p, d.2);
        assert(count_of(tp, d.2) < usize::MAX);
        lemma_define_next_index(tp, d.0, d.1, d.2);
        assert(ds.take(n) =~= p);
        assert forall|k: int| 0 <= k < ds.len() implies #[trigger] define_all(t, ds).symbols.contains_key(ds[k].0)
            && define_all(t, ds).symbols[ds[k].0] == (SymbolModel {
                type_desc: ds[k].1,
                segment: ds[k].2,
                index: (count_of(t, ds[k].2) + scope_count(ds.take(k), ds[k].2)) as usize,
            }) by {
            if k < n {
                assert(p[k] == ds[k]);
                assert(p.take(k) =~= ds.take(k));
                assert(ds[k].0 != ds[n].0);
                assert(tp.symbols.contains_key(p[k].0));
            } else {
                assert(k == n);
                assert(count_of(tp, d.2) == count_of(t, d.2) + scope_count(p, d.2));
            }
        }
        assert forall|s: Scope| declarable(s) implies #[trigger] count_of(define_all(t, ds), s) == count_of(t, s)
            + scope_count(ds, s) by {
            assert(count_of(tp, s) == count_of(t, s) + scope_count(p, s));
        }
    }
}

/// The compiler's symbol table.
pub struct SymbolTable {
    table: NameMap<Symbol>,
    static_count: usize,
    local_count: usize,
    arg_count: usize,
    field_count: usize,
}

spec fn symbol_model(s: Symbol) -> SymbolModel {
    SymbolModel { type_desc: s.type_desc@, segment: s.segment, index: s.index }
}

impl View for SymbolTable {
    type V = TableModel;

    closed spec fn view(&self) -> TableModel {
        TableModel {
            symbols: self.table@.map_values(|s: Symbol| symbol_model(s)),
            static_count: self.static_count,
            local_count: self.local_count,
            arg_count: self.arg_count,
            field_count: self.field_count,
        }
    }
}

impl SymbolTable {
    /// The table is well formed.
    pub closed spec fn wf(&self) -> bool {
        self.table.wf()
    }

    /// An empty table with every count at zero.
    pub fn new() -> (r: Self)
        ensures
            r.wf(),
            r@.symbols == Map::<Seq<char>, SymbolModel>::empty(),
            r@.static_count == 0 && r@.local_count == 0 && r@.arg_count == 0 && r@.field_count == 0,
    {
        let r = SymbolTable {
            table: NameMap::new(),
            static_count: 0,
            local_count: 0,
            arg_count: 0,
            field_count: 0,
        };
        assert(r@.symbols =~= Map::<Seq<char>, SymbolModel>::empty());
        r
    }

    /// Declares `name` with its type in a scope (static, var, argument or
    /// field), at the scope's next index.
    pub fn define(&mut self, name: &str, type_desc: &TypeDescriptor, segment: Scope)
        requires
            old(self).wf(),
            declarable(segment),
            count_of(old(self)@, segment) < usize::MAX,
        ensures
            final(self).wf(),
            final(self)@ == define_model(old(self)@, name@, type_desc@, segment),
    {
        let index = match segment {
            Scope::Static => {
                self.static_count = self.static_count + 1;
                self.static_count - 1
            },
            Scope::Var => {
                self.local_count = self.local_count + 1;
                self.local_count - 1
            },
            Scope::Arg => {
                self.arg_count = self.arg_count + 1;
                self.arg_count - 1
            },
            _ => {
                self.field_count = self.field_count + 1;
                self.field_count - 1
            },
        };
        let sym = Symbol { type_desc: type_desc.copy(), segment, index };
        let ghost sm = symbol_model(sym);
        self.table.insert(String::from_str(name), sym);
        assert(self@.symbols =~= define_model(old(self)@, name@, type_desc@, segment).symbols);
    }

    /// Forgets the argument and field variables and resets their counts;
    /// static and local variables stay.
    pub fn flush_subroutine(&mut self)
        requires
            old(self).wf(),
        ensures
            final(self).wf(),
            final(self)@ == flush_model(old(self)@),
    {
        let keys = self.table.keys();
        let ghost m0 = self.table@;
        let mut i: usize = 0;
        while i < keys.len()
            invariant
                i <= keys@.len(),
                self.table.wf(),
                forall|k: Seq<char>| m0.contains_key(k) <==> exists|j: int| 0 <= j < keys@.len() && #[trigger] keys@[j]@ == k,
                forall|k: Seq<char>|
                    #[trigger] self.table@.contains_key(k) <==> (m0.contains_key(k) && ((exists|j: int|
                        0 <= j < i && keys@[j]@ == k) ==> kept(symbol_model(m0[k])))),
                forall|k: Seq<char>| #[trigger] self.table@.contains_key(k) ==> self.table@[k] == m0[k],
                self.static_count == old(self).static_count,
                self.local_count == old(self).local_count,
                self.arg_count == old(self).arg_count,
                self.field_count == old(self).field_count,
            decreases keys@.len() - i,
        {
            let drop = match self.table.get(keys[i].as_str()) {
                Some(sym) => sym.segment == Scope::Arg || sym.segment == Scope::Field,
                None => false,
            };
            if drop {
                let _ = self.table.remove(keys[i].as_str());
            }
            i = i + 1;
        }
        self.arg_count = 0;
        self.field_count = 0;
        assert(self@.symbols =~= flush_model(old(self)@).symbols);
    }

    /// The index of `name`, where it is declared.
    pub fn index_of(&self, name: &str) -> (r: Option<usize>)
        requires
            self.wf(),
        ensures
            r == (if self@.symbols.contains_key(name@) { Some(self@.symbols[name@].index) } else { None::<usize> }),
    {
        match self.table.get(name) {
            Some(s) => Some(s.index),
            None => None,
        }
    }

    /// The scope of `name`, where it is declared.
    pub fn kind_of(&self, name: &str) -> (r: Option<Scope>)
        requires
            self.wf(),
        ensures
            r == (if self@.symbols.contains_key(name@) { Some(self@.symbols[name@].segment) } else { None::<Scope> }),
    {
        match self.table.get(name) {
            Some(s) => Some(s.segment),
            None => None,
        }
    }

    /// The type of `name`, where it is declared.
    pub fn type_of(&self, name: &str) -> (r: Option<&TypeDescriptor>)
        requires
            self.wf(),
        ensures
            match r {
                Some(t) => self@.symbols.contains_key(name@) && t@ == self@.symbols[name@].type_desc,
                None => !self@.symbols.contains_key(name@),
            },
    {
        match self.table.get(name) {
            Some(s) => Some(&s.type_desc),
            None => None,
        }
    }

    /// The number of argument variables declared.
    pub fn arg_count(&self) -> (r: usize)
        ensures
            r == self@.arg_count,
    {
        self.arg_count
    }

    /// The number of local variables declared.
    pub fn local_count(&self) -> (r: usize)
        ensures
            r == self@.local_count,
    {
        self.local_count
    }

    /// The number of field variables declared.
    pub fn field_count(&self) -> (r: usize)
        ensures
            r == self@.field_count,
    {
        self.field_count
    }
}

} // verus!
