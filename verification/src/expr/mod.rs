//! Expressions: reading them from text, and the environment of names they refer to.
pub mod tokenizer;
pub mod parser;
pub mod analyzer;
pub mod message;

use vstd::prelude::*;

use self::analyzer::{analyze, resolve_names};
use self::parser::{parse_str, parse_text};
use self::tokenizer::{ParseError, SpecParseError};

verus! {

/// Whether no name occurs twice.
pub open spec fn distinct(names: Seq<Seq<char>>) -> bool {
    forall|i: int, j: int| 0 <= i < j < names.len() ==> names[i] != names[j]
}

/// The index at which `name` occurs in `names`, if it does.
pub open spec fn position_of(names: Seq<Seq<char>>, name: Seq<char>) -> Option<nat> {
    if names.contains(name) {
        Some(choose|i: nat| i < names.len() && names[i as int] == name)
    } else {
        None
    }
}

/// In a list without repeated names, the index of a name is where it stands.
pub proof fn lemma_position_of(names: Seq<Seq<char>>, name: Seq<char>, i: int)
    requires
        distinct(names),
        0 <= i < names.len(),
        names[i] == name,
    ensures
        position_of(names, name) == Some(i as nat),
{
    assert(names.contains(name));
    let k = choose|k: nat| k < names.len() && names[k as int] == name;
    assert(k < names.len() && names[k as int] == name);
    if k != i {
        if k < i {
            assert(names[k as int] != names[i]);
        } else {
            assert(names[i] != names[k as int]);
        }
    }
}

/// A table of named entries: each name has the index it was first added at, and a value
/// there.
#[verifier::ext_equal]
pub struct SpecTable<V> {
    pub names: Seq<Seq<char>>,
    pub values: Seq<V>,
}

impl<V> SpecTable<V> {
    /// No name twice, and one value for each name.
    pub open spec fn wf(self) -> bool {
        &&& distinct(self.names)
        &&& self.names.len() == self.values.len()
    }

    /// The index of `name`, if the table holds it.
    pub open spec fn index_of(self, name: Seq<char>) -> Option<nat> {
        position_of(self.names, name)
    }

    /// The table after adding `name` with `value`: a new name gets the next index, an
    /// existing one keeps its index and gets the new value.
    pub open spec fn add(self, name: Seq<char>, value: V) -> SpecTable<V> {
        match self.index_of(name) {
            Some(i) => SpecTable { names: self.names, values: self.values.update(i as int, value) },
            None => SpecTable { names: self.names.push(name), values: self.values.push(value) },
        }
    }

    /// The table after giving `name` the value `value`, if it holds `name`; unchanged
    /// otherwise.
    pub open spec fn set(self, name: Seq<char>, value: V) -> SpecTable<V> {
        match self.index_of(name) {
            Some(i) => SpecTable { names: self.names, values: self.values.update(i as int, value) },
            None => self,
        }
    }

    /// The empty table.
    pub open spec fn empty() -> SpecTable<V> {
        SpecTable { names: Seq::empty(), values: Seq::empty() }
    }
}

/// Adding a name to a table makes it found, with the value added.
pub proof fn law_add_then_lookup<V>(t: SpecTable<V>, name: Seq<char>, value: V)
    requires
        t.wf(),
    ensures
        t.add(name, value).wf(),
        t.add(name, value).index_of(name) matches Some(i) && t.add(name, value).values[i as int] == value,
{
    let t2 = t.add(name, value);
    match t.index_of(name) {
        Some(i) => {
            lemma_position_of(t.names, name, i as int);
            lemma_position_of(t2.names, name, i as int);
        },
        None => {
            assert(!t.names.contains(name));
            assert(distinct(t2.names)) by {
                assert forall|a: int, b: int| 0 <= a < b < t2.names.len() implies t2.names[a] != t2.names[b] by {
                    if b == t.names.len() {
                        assert(t.names[a] != name) by {
                            if t.names[a] == name {
                                assert(t.names.contains(name));
                            }
                        }
                    }
                }
            }
            lemma_position_of(t2.names, name, t.names.len() as int);
        },
    }
}

/// Adding or setting one name leaves every other name at its index, with its value.
pub proof fn law_update_keeps_others<V>(t: SpecTable<V>, name: Seq<char>, value: V, other: Seq<char>)
    requires
        t.wf(),
        other != name,
    ensures
        t.add(name, value).index_of(other) == t.index_of(other),
        t.set(name, value).index_of(other) == t.index_of(other),
        t.index_of(other) matches Some(i) ==> t.add(name, value).values[i as int] == t.values[i as int]
            && t.set(name, value).values[i as int] == t.values[i as int],
{
    law_add_then_lookup(t, name, value);
    let t2 = t.add(name, value);
    match t.index_of(other) {
        Some(i) => {
            lemma_position_of(t.names, other, i as int);
            lemma_position_of(t2.names, other, i as int);
            if let Some(k) = t.index_of(name) {
                lemma_position_of(t.names, name, k as int);
            }
        },
        None => {
            assert(!t2.names.contains(other)) by {
                if t2.names.contains(other) {
                    let k = choose|k: int| 0 <= k < t2.names.len() && t2.names[k] == other;
                    if k < t.names.len() {
                        assert(t.names.contains(other));
                    }
                }
            }
        },
    }
}

/// Setting a name changes nothing unless the table holds it, and then only its value.
pub proof fn law_set_only_existing<V>(t: SpecTable<V>, name: Seq<char>, value: V)
    requires
        t.wf(),
    ensures
        t.set(name, value).wf(),
        t.set(name, value).names == t.names,
        t.index_of(name) is None ==> t.set(name, value) == t,
        t.index_of(name) matches Some(i) ==> t.set(name, value).values[i as int] == value,
{
}

/// An index, as a machine integer.
pub open spec fn as_index(o: Option<nat>) -> Option<usize> {
    match o {
        Some(i) => Some(i as usize),
        None => None,
    }
}

/// The index of `name` in `names`, if it is there.
pub(crate) fn find_name(names: &Vec<String>, name: &str) -> (res: Option<usize>)
    requires
        distinct(names@.map_values(|s: String| s@)),
    ensures
        res == as_index(position_of(names@.map_values(|s: String| s@), name@)),
        res matches Some(i) ==> i < names@.len() && names@[i as int]@ == name@,
        res is None ==> !names@.map_values(|s: String| s@).contains(name@),
{
    let ghost ns = names@.map_values(|s: String| s@);
    let key = name.to_owned();
    let mut k: usize = 0;
    while k < names.len()
        invariant
            k <= names@.len(),
            ns == names@.map_values(|s: String| s@),
            key@ == name@,
            distinct(ns),
            forall|m: int| 0 <= m < k ==> ns[m] != name@,
        decreases names@.len() - k,
    {
        if names[k] == key {
            proof {
                lemma_position_of(ns, name@, k as int);
            }
            return Some(k);
        }
        k = k + 1;
    }
    assert(!ns.contains(name@));
    None
}

/// Adds `name` with `value` to the table made of `names` and `values`; an existing name
/// gets the new value instead. Returns whether the name was new.
fn table_add<V>(names: &mut Vec<String>, values: &mut Vec<V>, name: &str, value: V) -> (added: bool)
    requires
        (SpecTable { names: old(names)@.map_values(|s: String| s@), values: old(values)@ }).wf(),
    ensures
        (SpecTable { names: final(names)@.map_values(|s: String| s@), values: final(values)@ })
            == (SpecTable { names: old(names)@.map_values(|s: String| s@), values: old(values)@ }).add(name@, value),
        added == !old(names)@.map_values(|s: String| s@).contains(name@),
{
    let ghost ns = names@.map_values(|s: String| s@);
    let ghost vs = values@;
    match find_name(names, name) {
        Some(index) => {
            proof { lemma_position_of(ns, name@, index as int); }
            values.set(index, value);
            assert(values@ =~= vs.update(index as int, value));
            false
        },
        None => {
            values.push(value);
            names.push(name.to_owned());
            assert(names@.map_values(|s: String| s@) =~= ns.push(name@));
            true
        },
    }
}

/// Gives `name` the value `value` in the table, if it holds `name`. Returns whether it did.
fn table_set<V>(names: &Vec<String>, values: &mut Vec<V>, name: &str, value: V) -> (found: bool)
    requires
        (SpecTable { names: names@.map_values(|s: String| s@), values: old(values)@ }).wf(),
    ensures
        (SpecTable { names: names@.map_values(|s: String| s@), values: final(values)@ })
            == (SpecTable { names: names@.map_values(|s: String| s@), values: old(values)@ }).set(name@, value),
        found == names@.map_values(|s: String| s@).contains(name@),
{
    let ghost vs = values@;
    match find_name(names, name) {
        Some(index) => {
            proof { lemma_position_of(names@.map_values(|s: String| s@), name@, index as int); }
            values.set(index, value);
            assert(values@ =~= vs.update(index as int, value));
            true
        },
        None => false,
    }
}

/// The names an expression can refer to: variables, and functions of zero, one and two
/// arguments, each list in the order of their indices.
pub struct EnvSymbols {
    vars: Vec<String>,
    funcs0: Vec<String>,
    funcs1: Vec<String>,
    funcs2: Vec<String>,
}

/// The mathematical model of the names of an environment.
pub struct SpecSymbols {
    pub vars: Seq<Seq<char>>,
    pub funcs0: Seq<Seq<char>>,
    pub funcs1: Seq<Seq<char>>,
    pub funcs2: Seq<Seq<char>>,
}

/// The texts of a list of strings.
pub open spec fn texts(v: Seq<String>) -> Seq<Seq<char>> {
    v.map_values(|s: String| s@)
}

impl View for EnvSymbols {
    type V = SpecSymbols;

    closed spec fn view(&self) -> SpecSymbols {
        SpecSymbols {
            vars: texts(self.vars@),
            funcs0: texts(self.funcs0@),
            funcs1: texts(self.funcs1@),
            funcs2: texts(self.funcs2@),
        }
    }
}

/// `names` with `name` put at the end, unless it holds it already.
pub open spec fn with_name(names: Seq<Seq<char>>, name: Seq<char>) -> Seq<Seq<char>> {
    if names.contains(name) {
        names
    } else {
        names.push(name)
    }
}

/// Puts `name` at the end of `names` unless it is there. Returns whether it was new.
fn add_name(names: &mut Vec<String>, name: &str) -> (added: bool)
    requires
        distinct(texts(old(names)@)),
    ensures
        distinct(texts(final(names)@)),
        texts(final(names)@) == with_name(texts(old(names)@), name@),
        added == !texts(old(names)@).contains(name@),
{
    let ghost ns = texts(names@);
    match find_name(names, name) {
        Some(index) => {
            assert(ns.contains(name@)) by {
                assert(ns[index as int] == name@);
            }
            false
        },
        None => {
            names.push(name.to_owned());
            assert(texts(names@) =~= ns.push(name@));
            assert(distinct(ns.push(name@))) by {
                assert forall|a: int, b: int| 0 <= a < b < ns.len() + 1 implies ns.push(name@)[a] != ns.push(name@)[b] by {
                    if b == ns.len() {
                        if ns[a] == name@ {
                            assert(ns.contains(name@));
                        }
                    }
                }
            }
            true
        },
    }
}

impl EnvSymbols {
    /// No list repeats a name.
    #[verifier::type_invariant]
    spec fn names_distinct(self) -> bool {
        &&& distinct(texts(self.vars@))
        &&& distinct(texts(self.funcs0@))
        &&& distinct(texts(self.funcs1@))
        &&& distinct(texts(self.funcs2@))
    }

    /// No names.
    pub fn new() -> (res: Self)
        ensures
            res@.vars.len() == 0,
            res@.funcs0.len() == 0,
            res@.funcs1.len() == 0,
            res@.funcs2.len() == 0,
    {
        EnvSymbols { vars: Vec::new(), funcs0: Vec::new(), funcs1: Vec::new(), funcs2: Vec::new() }
    }

    /// Adds the variable `name` unless it is there. Returns whether it was new.
    pub fn add_var(&mut self, name: &str) -> (added: bool)
        ensures
            final(self)@.vars == with_name(old(self)@.vars, name@),
            added == !old(self)@.vars.contains(name@),
            final(self)@.funcs0 == old(self)@.funcs0,
            final(self)@.funcs1 == old(self)@.funcs1,
            final(self)@.funcs2 == old(self)@.funcs2,
    {
        proof { use_type_invariant(&*self); }
        let mut names: Vec<String> = Vec::new();
        std::mem::swap(&mut names, &mut self.vars);
        let added = add_name(&mut names, name);
        self.vars = names;
        added
    }

    /// Adds the function of no argument `name` unless it is there. Returns whether it was
    /// new.
    pub fn add_func0(&mut self, name: &str) -> (added: bool)
        ensures
            final(self)@.funcs0 == with_name(old(self)@.funcs0, name@),
            added == !old(self)@.funcs0.contains(name@),
            final(self)@.vars == old(self)@.vars,
            final(self)@.funcs1 == old(self)@.funcs1,
            final(self)@.funcs2 == old(self)@.funcs2,
    {
        proof { use_type_invariant(&*self); }
        let mut names: Vec<String> = Vec::new();
        std::mem::swap(&mut names, &mut self.funcs0);
        let added = add_name(&mut names, name);
        self.funcs0 = names;
        added
    }

    /// Adds the function of one argument `name` unless it is there. Returns whether it was
    /// new.
    pub fn add_func1(&mut self, name: &str) -> (added: bool)
        ensures
            final(self)@.funcs1 == with_name(old(self)@.funcs1, name@),
            added == !old(self)@.funcs1.contains(name@),
            final(self)@.vars == old(self)@.vars,
            final(self)@.funcs0 == old(self)@.funcs0,
            final(self)@.funcs2 == old(self)@.funcs2,
    {
        proof { use_type_invariant(&*self); }
        let mut names: Vec<String> = Vec::new();
        std::mem::swap(&mut names, &mut self.funcs1);
        let added = add_name(&mut names, name);
        self.funcs1 = names;
        added
    }

    /// Adds the function of two arguments `name` unless it is there. Returns whether it was
    /// new.
    pub fn add_func2(&mut self, name: &str) -> (added: bool)
        ensures
            final(self)@.funcs2 == with_name(old(self)@.funcs2, name@),
            added == !old(self)@.funcs2.contains(name@),
            final(self)@.vars == old(self)@.vars,
            final(self)@.funcs0 == old(self)@.funcs0,
            final(self)@.funcs1 == old(self)@.funcs1,
    {
        proof { use_type_invariant(&*self); }
        let mut names: Vec<String> = Vec::new();
        std::mem::swap(&mut names, &mut self.funcs2);
        let added = add_name(&mut names, name);
        self.funcs2 = names;
        added
    }

}

/// The values of an environment, by index.
pub struct EnvValues<N, F0, F1, F2> {
    pub vars: Vec<N>,
    pub funcs0: Vec<F0>,
    pub funcs1: Vec<F1>,
    pub funcs2: Vec<F2>,
}

/// Variables with values of type `N`, and functions of zero, one and two arguments
/// (values of types `F0`, `F1`, `F2`), each known by name and by index.
pub struct Environment<N, F0, F1, F2> {
    symbols: EnvSymbols,
    values: EnvValues<N, F0, F1, F2>,
}

impl<N, F0, F1, F2> Environment<N, F0, F1, F2> {
    /// The variables: names and values.
    pub closed spec fn vars(&self) -> SpecTable<N> {
        SpecTable { names: texts(self.symbols.vars@), values: self.values.vars@ }
    }

    /// The functions of no argument.
    pub closed spec fn funcs0(&self) -> SpecTable<F0> {
        SpecTable { names: texts(self.symbols.funcs0@), values: self.values.funcs0@ }
    }

    /// The functions of one argument.
    pub closed spec fn funcs1(&self) -> SpecTable<F1> {
        SpecTable { names: texts(self.symbols.funcs1@), values: self.values.funcs1@ }
    }

    /// The functions of two arguments.
    pub closed spec fn funcs2(&self) -> SpecTable<F2> {
        SpecTable { names: texts(self.symbols.funcs2@), values: self.values.funcs2@ }
    }

    /// The names, as the analysis of expressions sees them.
    pub closed spec fn symbols(&self) -> SpecSymbols {
        self.symbols@
    }

    /// Each of the four tables is well formed.
    pub open spec fn wf(&self) -> bool {
        &&& self.vars().wf()
        &&& self.funcs0().wf()
        &&& self.funcs1().wf()
        &&& self.funcs2().wf()
    }

    /// The names that resolution looks up are those of the tables.
    pub proof fn lemma_symbols(&self)
        ensures
            self.symbols().vars == self.vars().names,
            self.symbols().funcs0 == self.funcs0().names,
            self.symbols().funcs1 == self.funcs1().names,
            self.symbols().funcs2 == self.funcs2().names,
    {
    }

    /// An environment with no names.
    pub fn new() -> (res: Self)
        ensures
            res.wf(),
            res.vars() == SpecTable::<N>::empty(),
            res.funcs0() == SpecTable::<F0>::empty(),
            res.funcs1() == SpecTable::<F1>::empty(),
            res.funcs2() == SpecTable::<F2>::empty(),
    {
        let res = Environment {
            symbols: EnvSymbols::new(),
            values: EnvValues { vars: Vec::new(), funcs0: Vec::new(), funcs1: Vec::new(), funcs2: Vec::new() },
        };
        assert(res.vars().names =~= Seq::<Seq<char>>::empty());
        assert(res.funcs0().names =~= Seq::<Seq<char>>::empty());
        assert(res.funcs1().names =~= Seq::<Seq<char>>::empty());
        assert(res.funcs2().names =~= Seq::<Seq<char>>::empty());
        res
    }

    /// This environment with the variable `var` added (or set) to `value`.
    pub fn with_var(self, var: &str, value: N) -> (res: Self)
        requires
            self.wf(),
        ensures
            res.wf(),
            res.vars() == self.vars().add(var@, value),
            res.funcs0() == self.funcs0(),
            res.funcs1() == self.funcs1(),
            res.funcs2() == self.funcs2(),
    {
        let mut env = self;
        env.add_var(var, value);
        env
    }

    /// Adds the function of no argument `name`; if it exists, sets it instead. Returns
    /// whether the name was new.
    pub fn add_func0(&mut self, name: &str, value: F0) -> (added: bool)
        requires
            old(self).wf(),
        ensures
            final(self).wf(),
            final(self).funcs0() == old(self).funcs0().add(name@, value),
            added == (old(self).funcs0().index_of(name@) is None),
            final(self).vars() == old(self).vars(),
            final(self).funcs1() == old(self).funcs1(),
            final(self).funcs2() == old(self).funcs2(),
    {
        proof { law_add_then_lookup(self.funcs0(), name@, value); }
        let mut names: Vec<String> = Vec::new();
        std::mem::swap(&mut names, &mut self.symbols.funcs0);
        let added = table_add(&mut names, &mut self.values.funcs0, name, value);
        self.symbols.funcs0 = names;
        added
    }

    /// Adds the function of one argument `name`; if it exists, sets it instead. Returns
    /// whether the name was new.
    pub fn add_func1(&mut self, name: &str, value: F1) -> (added: bool)
        requires
            old(self).wf(),
        ensures
            final(self).wf(),
            final(self).funcs1() == old(self).funcs1().add(name@, value),
            added == (old(self).funcs1().index_of(name@) is None),
            final(self).vars() == old(self).vars(),
            final(self).funcs0() == old(self).funcs0(),
            final(self).funcs2() == old(self).funcs2(),
    {
        proof { law_add_then_lookup(self.funcs1(), name@, value); }
        let mut names: Vec<String> = Vec::new();
        std::mem::swap(&mut names, &mut self.symbols.funcs1);
        let added = table_add(&mut names, &mut self.values.funcs1, name, value);
        self.symbols.funcs1 = names;
        added
    }

    /// Adds the function of two arguments `name`; if it exists, sets it instead. Returns
    /// whether the name was new.
    pub fn add_func2(&mut self, name: &str, value: F2) -> (added: bool)
        requires
            old(self).wf(),
        ensures
            final(self).wf(),
            final(self).funcs2() == old(self).funcs2().add(name@, value),
            added == (old(self).funcs2().index_of(name@) is None),
            final(self).vars() == old(self).vars(),
            final(self).funcs0() == old(self).funcs0(),
            final(self).funcs1() == old(self).funcs1(),
    {
        proof { law_add_then_lookup(self.funcs2(), name@, value); }
        let mut names: Vec<String> = Vec::new();
        std::mem::swap(&mut names, &mut self.symbols.funcs2);
        let added = table_add(&mut names, &mut self.values.funcs2, name, value);
        self.symbols.funcs2 = names;
        added
    }

    /// Adds the variable `name`; if it exists, sets it instead. Returns whether the name
    /// was new.
    pub fn add_var(&mut self, name: &str, value: N) -> (added: bool)
        requires
            old(self).wf(),
        ensures
            final(self).wf(),
            final(self).vars() == old(self).vars().add(name@, value),
            added == (old(self).vars().index_of(name@) is None),
            final(self).funcs0() == old(self).funcs0(),
            final(self).funcs1() == old(self).funcs1(),
            final(self).funcs2() == old(self).funcs2(),
    {
        proof { law_add_then_lookup(self.vars(), name@, value); }
        let mut names: Vec<String> = Vec::new();
        std::mem::swap(&mut names, &mut self.symbols.vars);
        let added = table_add(&mut names, &mut self.values.vars, name, value);
        self.symbols.vars = names;
        added
    }

    /// Sets the function of no argument `name`, if it exists. Returns whether it does.
    pub fn set_func0(&mut self, name: &str, value: F0) -> (found: bool)
        requires
            old(self).wf(),
        ensures
            final(self).wf(),
            final(self).funcs0() == old(self).funcs0().set(name@, value),
            found == (old(self).funcs0().index_of(name@) is Some),
            final(self).vars() == old(self).vars(),
            final(self).funcs1() == old(self).funcs1(),
            final(self).funcs2() == old(self).funcs2(),
    {
        table_set(&self.symbols.funcs0, &mut self.values.funcs0, name, value)
    }

    /// Sets the function of one argument `name`, if it exists. Returns whether it does.
    pub fn set_func1(&mut self, name: &str, value: F1) -> (found: bool)
        requires
            old(self).wf(),
        ensures
            final(self).wf(),
            final(self).funcs1() == old(self).funcs1().set(name@, value),
            found == (old(self).funcs1().index_of(name@) is Some),
            final(self).vars() == old(self).vars(),
            final(self).funcs0() == old(self).funcs0(),
            final(self).funcs2() == old(self).funcs2(),
    {
        table_set(&self.symbols.funcs1, &mut self.values.funcs1, name, value)
    }

    /// Sets the function of two arguments `name`, if it exists. Returns whether it does.
    pub fn set_func2(&mut self, name: &str, value: F2) -> (found: bool)
        requires
            old(self).wf(),
        ensures
            final(self).wf(),
            final(self).funcs2() == old(self).funcs2().set(name@, value),
            found == (old(self).funcs2().index_of(name@) is Some),
            final(self).vars() == old(self).vars(),
            final(self).funcs0() == old(self).funcs0(),
            final(self).funcs1() == old(self).funcs1(),
    {
        table_set(&self.symbols.funcs2, &mut self.values.funcs2, name, value)
    }

    /// Sets the variable `var`, if it exists. Returns whether it does.
    pub fn set_var(&mut self, var: &str, val: N) -> (found: bool)
        requires
            old(self).wf(),
        ensures
            final(self).wf(),
            final(self).vars() == old(self).vars().set(var@, val),
            found == (old(self).vars().index_of(var@) is Some),
            final(self).funcs0() == old(self).funcs0(),
            final(self).funcs1() == old(self).funcs1(),
            final(self).funcs2() == old(self).funcs2(),
    {
        table_set(&self.symbols.vars, &mut self.values.vars, var, val)
    }

    /// The index of the function of no argument `name`.
    pub fn get_func0_index(&self, name: &str) -> (res: Option<usize>)
        requires
            self.wf(),
        ensures
            res == as_index(self.funcs0().index_of(name@)),
    {
        find_name(&self.symbols.funcs0, name)
    }

    /// The index of the function of one argument `name`.
    pub fn get_func1_index(&self, name: &str) -> (res: Option<usize>)
        requires
            self.wf(),
        ensures
            res == as_index(self.funcs1().index_of(name@)),
    {
        find_name(&self.symbols.funcs1, name)
    }

    /// The index of the function of two arguments `name`.
    pub fn get_func2_index(&self, name: &str) -> (res: Option<usize>)
        requires
            self.wf(),
        ensures
            res == as_index(self.funcs2().index_of(name@)),
    {
        find_name(&self.symbols.funcs2, name)
    }

    /// The index of the variable `name`.
    pub fn get_var_index(&self, name: &str) -> (res: Option<usize>)
        requires
            self.wf(),
        ensures
            res == as_index(self.vars().index_of(name@)),
    {
        find_name(&self.symbols.vars, name)
    }

    /// The value of the variable at `index`.
    pub fn var_value(&self, index: usize) -> (res: Option<&N>)
        requires
            self.wf(),
        ensures
            index < self.vars().values.len() ==> res == Some(&self.vars().values[index as int]),
            index >= self.vars().values.len() ==> res is None,
    {
        if index < self.values.vars.len() {
            Some(&self.values.vars[index])
        } else {
            None
        }
    }

    /// The function of no argument at `index`.
    pub fn func0_value(&self, index: usize) -> (res: Option<&F0>)
        requires
            self.wf(),
        ensures
            index < self.funcs0().values.len() ==> res == Some(&self.funcs0().values[index as int]),
            index >= self.funcs0().values.len() ==> res is None,
    {
        if index < self.values.funcs0.len() {
            Some(&self.values.funcs0[index])
        } else {
            None
        }
    }

    /// The function of one argument at `index`.
    pub fn func1_value(&self, index: usize) -> (res: Option<&F1>)
        requires
            self.wf(),
        ensures
            index < self.funcs1().values.len() ==> res == Some(&self.funcs1().values[index as int]),
            index >= self.funcs1().values.len() ==> res is None,
    {
        if index < self.values.funcs1.len() {
            Some(&self.values.funcs1[index])
        } else {
            None
        }
    }

    /// The function of two arguments at `index`.
    pub fn func2_value(&self, index: usize) -> (res: Option<&F2>)
        requires
            self.wf(),
        ensures
            index < self.funcs2().values.len() ==> res == Some(&self.funcs2().values[index as int]),
            index >= self.funcs2().values.len() ==> res is None,
    {
        if index < self.values.funcs2.len() {
            Some(&self.values.funcs2[index])
        } else {
            None
        }
    }
}

/// An expression whose names are resolved to indices in an environment. Numbers are
/// kept as written.
#[derive(Debug)]
pub enum Expr {
    Number(String),
    Variable(usize),
    Func0Call(usize),
    Func1Call(usize, Box<Expr>),
    Func2Call(usize, Box<Expr>, Box<Expr>),
    Add(Box<Expr>, Box<Expr>),
    Sub(Box<Expr>, Box<Expr>),
    Mul(Box<Expr>, Box<Expr>),
    Div(Box<Expr>, Box<Expr>),
    Pow(Box<Expr>, Box<Expr>),
    Minus(Box<Expr>),
}

/// The mathematical model of a resolved expression.
pub enum SpecExpr {
    Number(Seq<char>),
    Variable(usize),
    Func0Call(usize),
    Func1Call(usize, Box<SpecExpr>),
    Func2Call(usize, Box<SpecExpr>, Box<SpecExpr>),
    Add(Box<SpecExpr>, Box<SpecExpr>),
    Sub(Box<SpecExpr>, Box<SpecExpr>),
    Mul(Box<SpecExpr>, Box<SpecExpr>),
    Div(Box<SpecExpr>, Box<SpecExpr>),
    Pow(Box<SpecExpr>, Box<SpecExpr>),
    Minus(Box<SpecExpr>),
}

impl Expr {
    /// The mathematical model of the expression.
    pub open spec fn model(&self) -> SpecExpr
        decreases self,
    {
        match self {
            Expr::Number(s) => SpecExpr::Number(s@),
            Expr::Variable(i) => SpecExpr::Variable(*i),
            Expr::Func0Call(i) => SpecExpr::Func0Call(*i),
            Expr::Func1Call(i, a) => SpecExpr::Func1Call(*i, Box::new(a.model())),
            Expr::Func2Call(i, a, b) => SpecExpr::Func2Call(*i, Box::new(a.model()), Box::new(b.model())),
            Expr::Add(a, b) => SpecExpr::Add(Box::new(a.model()), Box::new(b.model())),
            Expr::Sub(a, b) => SpecExpr::Sub(Box::new(a.model()), Box::new(b.model())),
            Expr::Mul(a, b) => SpecExpr::Mul(Box::new(a.model()), Box::new(b.model())),
            Expr::Div(a, b) => SpecExpr::Div(Box::new(a.model()), Box::new(b.model())),
            Expr::Pow(a, b) => SpecExpr::Pow(Box::new(a.model()), Box::new(b.model())),
            Expr::Minus(a) => SpecExpr::Minus(Box::new(a.model())),
        }
    }

    /// Reads the expression that `input` spells and resolves its names in `env`.
    pub fn parse<N, F0, F1, F2>(input: &str, env: &Environment<N, F0, F1, F2>) -> (res: Result<Expr, ParseError>)
        requires
            env.wf(),
        ensures
            match parse_text(input@) {
                Err(e) => res matches Err(r) && r@ == e,
                Ok(ast) => match resolve_names(ast, env.symbols()) {
                    Ok(e) => res matches Ok(r) && r@ == e,
                    Err(e) => res matches Err(r) && r@ == e,
                },
            },
    {
        let ast = parse_str(input)?;
        proof { env.lemma_symbols(); }
        analyze(&ast, &env.symbols)
    }
}

impl View for Expr {
    type V = SpecExpr;

    open spec fn view(&self) -> SpecExpr {
        self.model()
    }
}

} // verus!
