//! The registry of classes and methods seen while compiling: which are
//! defined, which only requested (called), and how many arguments a
//! defined method takes.
use vstd::prelude::*;
use crate::name_map::NameMap;

verus! {

/// What is known of a method.
#[derive(Debug, Clone, Copy, PartialEq, Eq, Structural)]
pub struct MethodInfo {
    /// The argument count, known once the method is defined.
    pub arg_count: Option<usize>,
    pub is_defined: bool,
}

impl MethodInfo {
    /// A method whose declaration was compiled, with its argument count.
    pub fn defined(args: usize) -> (r: Self)
        ensures
            r == (MethodInfo { arg_count: Some(args), is_defined: true }),
    {
        MethodInfo { arg_count: Some(args), is_defined: true }
    }

    /// A method seen in a call before its declaration.
    pub fn requested() -> (r: Self)
        ensures
            r == (MethodInfo { arg_count: None, is_defined: false }),
    {
        MethodInfo { arg_count: None, is_defined: false }
    }
}

/// What is known of a class: whether it is defined, and its methods.
pub struct ClassInfo {
    is_defined: bool,
    methods: NameMap<MethodInfo>,
}

/// A class's state as values.
pub struct ClassModel {
    pub is_defined: bool,
    pub methods: Map<Seq<char>, MethodInfo>,
}

impl View for ClassInfo {
    type V = ClassModel;

    closed spec fn view(&self) -> ClassModel {
        ClassModel { is_defined: self.is_defined, methods: self.methods@ }
    }
}

impl ClassInfo {
    /// The class's method table is well formed.
    pub closed spec fn wf(&self) -> bool {
        self.methods.wf()
    }

    /// A class without methods, defined or only requested.
    pub fn new(is_defined: bool) -> (r: Self)
        ensures
            r.wf(),
            r@ == (ClassModel { is_defined, methods: Map::empty() }),
    {
        ClassInfo { is_defined, methods: NameMap::new() }
    }
}

/// The registry's classes, as values.
pub type RegistryModel = Map<Seq<char>, ClassModel>;

/// The registry after the class is seen: defined where `definition` holds,
/// created (with no methods) where it was not there.
pub open spec fn class_status(m: RegistryModel, class: Seq<char>, definition: bool) -> RegistryModel {
    if m.contains_key(class) {
        if definition {
            m.insert(class, ClassModel { is_defined: true, ..m[class] })
        } else {
            m
        }
    } else {
        m.insert(class, ClassModel { is_defined: definition, methods: Map::empty() })
    }
}

/// The registry after a call of `class.method`: the class requested, the
/// method added as requested where it was not there.
pub open spec fn method_request(m: RegistryModel, class: Seq<char>, method: Seq<char>) -> RegistryModel {
    let m2 = class_status(m, class, false);
    if m2[class].methods.contains_key(method) {
        m2
    } else {
        m2.insert(
            class,
            ClassModel {
                methods: m2[class].methods.insert(method, MethodInfo { arg_count: None, is_defined: false }),
                ..m2[class]
            },
        )
    }
}

/// The registry after `class.method` is defined with `n` arguments.
pub open spec fn method_definition(m: RegistryModel, class: Seq<char>, method: Seq<char>, n: usize) -> RegistryModel {
    m.insert(
        class,
        ClassModel {
            methods: m[class].methods.insert(method, MethodInfo { arg_count: Some(n), is_defined: true }),
            ..m[class]
        },
    )
}

/// The argument count of `class.method`, where the method is known and defined.
pub open spec fn arg_count_of(m: RegistryModel, class: Seq<char>, method: Seq<char>) -> Option<usize> {
    if m.contains_key(class) && m[class].methods.contains_key(method) {
        m[class].methods[method].arg_count
    } else {
        None
    }
}

/// Once a method is defined, its argument count is the one it was defined
/// with.
pub proof fn lemma_definition_gives_count(m: RegistryModel, class: Seq<char>, method: Seq<char>, n: usize)
    requires
        m.contains_key(class),
    ensures
        arg_count_of(method_definition(m, class, method, n), class, method) == Some(n),
{
}

/// A call seen after a definition leaves the definition as it was.
pub proof fn lemma_request_keeps_definition(m: RegistryModel, class: Seq<char>, method: Seq<char>, n: usize)
    requires
        m.contains_key(class),
    ensures
        method_request(method_definition(m, class, method, n), class, method) == method_definition(
            m,
            class,
            method,
            n,
        ),
{
}

/// A definition after a call replaces the placeholder the call left.
pub proof fn lemma_definition_after_request(m: RegistryModel, class: Seq<char>, method: Seq<char>, n: usize)
    ensures
        arg_count_of(method_definition(method_request(m, class, method), class, method, n), class, method)
            == Some(n),
        method_definition(method_request(m, class, method), class, method, n)[class].methods[method].is_defined,
{
}

/// A class once declared stays defined whatever is requested of it later.
pub proof fn lemma_declared_stays_defined(m: RegistryModel, class: Seq<char>, other: Seq<char>, method: Seq<char>)
    ensures
        class_status(class_status(m, class, true), other, false)[class].is_defined,
        method_request(class_status(m, class, true), other, method)[class].is_defined,
{
}

/// The classes and methods seen while compiling.
pub struct ClassRegistry {
    class_registry: NameMap<ClassInfo>,
}

impl View for ClassRegistry {
    type V = RegistryModel;

    closed spec fn view(&self) -> RegistryModel {
        self.class_registry@.map_values(|c: ClassInfo| c@)
    }
}

impl ClassRegistry {
    /// The registry and each class in it are well formed.
    pub closed spec fn wf(&self) -> bool {
        &&& self.class_registry.wf()
        &&& forall|k: Seq<char>| #[trigger] self.class_registry@.contains_key(k) ==> self.class_registry@[k].wf()
    }

    /// An empty registry.
    pub fn new() -> (r: Self)
        ensures
            r.wf(),
            r@ == RegistryModel::empty(),
    {
        let r = ClassRegistry { class_registry: NameMap::new() };
        assert(r@ =~= RegistryModel::empty());
        r
    }

    /// Records the definition of a class (`class MyClass { ... }`).
    pub fn declare_class(&mut self, class_name: &str)
        requires
            old(self).wf(),
        ensures
            final(self).wf(),
            final(self)@ == class_status(old(self)@, class_name@, true),
    {
        self.update_class_status(class_name, true);
    }

    /// Records a use of a class (`MyClass x` or `MyClass.f()`).
    pub fn request_class(&mut self, class_name: &str)
        requires
            old(self).wf(),
        ensures
            final(self).wf(),
            final(self)@ == class_status(old(self)@, class_name@, false),
    {
        self.update_class_status(class_name, false);
    }

    fn update_class_status(&mut self, class_name: &str, is_definition: bool)
        requires
            old(self).wf(),
        ensures
            final(self).wf(),
            final(self)@ == class_status(old(self)@, class_name@, is_definition),
    {
        match self.class_registry.remove(class_name) {
            Some(mut info) => {
                if is_definition {
                    info.is_defined = true;
                }
                self.class_registry.insert(String::from_str(class_name), info);
            },
            None => {
                self.class_registry.insert(String::from_str(class_name), ClassInfo::new(is_definition));
            },
        }
        assert(self@ =~= class_status(old(self)@, class_name@, is_definition));
    }

    /// Records the definition of a method of a registered class, with its
    /// argument count; it replaces what a call had recorded.
    pub fn define_method(&mut self, class_name: &str, method_name: &str, arg_count: usize)
        requires
            old(self).wf(),
            old(self)@.contains_key(class_name@),
        ensures
            final(self).wf(),
            final(self)@ == method_definition(old(self)@, class_name@, method_name@, arg_count),
    {
        match self.class_registry.remove(class_name) {
            Some(mut info) => {
                info.methods.insert(String::from_str(method_name), MethodInfo::defined(arg_count));
                self.class_registry.insert(String::from_str(class_name), info);
            },
            None => {},
        }
        assert(self@ =~= method_definition(old(self)@, class_name@, method_name@, arg_count));
    }

    /// Records a call of `class_name.method_name`: the class is requested,
    /// and the method recorded as requested unless it is already known.
    pub fn request_method(&mut self, class_name: &str, method_name: &str)
        requires
            old(self).wf(),
        ensures
            final(self).wf(),
            final(self)@ == method_request(old(self)@, class_name@, method_name@),
    {
        self.request_class(class_name);
        let ghost mid = self@;
        match self.class_registry.remove(class_name) {
            Some(mut info) => {
                if !info.methods.contains_key(method_name) {
                    info.methods.insert(String::from_str(method_name), MethodInfo::requested());
                }
                self.class_registry.insert(String::from_str(class_name), info);
            },
            None => {},
        }
        assert(mid.contains_key(class_name@));
        assert(self@[class_name@].methods =~= method_request(old(self)@, class_name@, method_name@)[class_name@].methods);
        assert(self@ =~= method_request(old(self)@, class_name@, method_name@));
    }

    /// The argument count of a defined method; `None` where the class or
    /// method is unknown or the method only requested.
    pub fn get_method_arg_count(&self, class_name: &str, method_name: &str) -> (r: Option<usize>)
        requires
            self.wf(),
        ensures
            r == arg_count_of(self@, class_name@, method_name@),
    {
        match self.class_registry.get(class_name) {
            Some(c) => match c.methods.get(method_name) {
                Some(m) => m.arg_count,
                None => None,
            },
            None => None,
        }
    }
}

} // verus!
