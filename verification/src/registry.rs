use crate::engine::{compile_pattern, compiles};
use crate::info_types::{may_generate, InfoType};
use crate::regex_matcher::{combined_pattern, new, CompilationError, RegexMatcher};
use vstd::prelude::*;

verus! {

/// Why an info type was not registered.
#[derive(Debug)]
pub enum RegistryError {
    /// An info type of this name is registered already.
    DuplicateName { name: String },
    /// The pattern of the info type of this name does not compile.
    InvalidPattern { name: String, pattern: String },
}

/// The info types that are known, in the order in which they were
/// registered. No two share a name, and the pattern of each compiles.
pub struct Registry {
    info_types: Vec<InfoType>,
}

/// The index of the first info type of a given name, if there is one.
pub open spec fn index_of_name(list: Seq<InfoType>, name: Seq<char>) -> Option<int>
    decreases list.len(),
{
    if list.len() == 0 {
        None
    } else {
        match index_of_name(list.drop_last(), name) {
            Some(k) => Some(k),
            None => if list.last().name@ == name {
                Some(list.len() - 1)
            } else {
                None
            },
        }
    }
}

/// No two info types of the list share a name.
pub open spec fn names_unique(list: Seq<InfoType>) -> bool {
    forall|i: int, j: int|
        0 <= i < j < list.len() ==> (#[trigger] list[i]).name@ != (#[trigger] list[j]).name@
}

/// The pattern of each info type of the list compiles on its own.
pub open spec fn patterns_compile(list: Seq<InfoType>) -> bool {
    forall|i: int| 0 <= i < list.len() ==> compiles((#[trigger] list[i]).expr@)
}

/// `index_of_name` gives the least index of an info type of that name.
pub proof fn lemma_index_of_name(list: Seq<InfoType>, name: Seq<char>)
    ensures
        match index_of_name(list, name) {
            Some(k) => 0 <= k < list.len() && list[k].name@ == name && forall|j: int|
                0 <= j < k ==> list[j].name@ != name,
            None => forall|j: int| 0 <= j < list.len() ==> list[j].name@ != name,
        },
    decreases list.len(),
{
    if list.len() > 0 {
        let front = list.drop_last();
        lemma_index_of_name(front, name);
        match index_of_name(front, name) {
            Some(k) => {
                assert forall|j: int| 0 <= j < k implies list[j].name@ != name by {
                    assert(front[j].name@ != name);
                }
            },
            None => {
                assert forall|j: int| 0 <= j < list.len() - 1 implies list[j].name@ != name by {
                    assert(front[j].name@ != name);
                }
            },
        }
    }
}

/// Finds the first info type of a given name.
pub fn find_by_name(list: &Vec<InfoType>, name: &String) -> (r: Option<usize>)
    ensures
        match r {
            Some(k) => {
                &&& index_of_name(list@, name@) == Some(k as int)
                &&& k < list@.len()
                &&& list@[k as int].name@ == name@
                &&& forall|j: int| 0 <= j < k ==> list@[j].name@ != name@
            },
            None => {
                &&& index_of_name(list@, name@) is None
                &&& forall|j: int| 0 <= j < list@.len() ==> list@[j].name@ != name@
            },
        },
{
    let mut i: usize = 0;
    while i < list.len()
        invariant
            i <= list.len(),
            forall|j: int| 0 <= j < i ==> list@[j].name@ != name@,
        decreases list.len() - i,
    {
        if list[i].name == *name {
            proof {
                lemma_index_of_name(list@, name@);
            }
            return Some(i);
        }
        i += 1;
    }
    proof {
        lemma_index_of_name(list@, name@);
    }
    None
}

impl Registry {
    #[verifier::type_invariant]
    spec fn well_formed(self) -> bool {
        names_unique(self.info_types@) && patterns_compile(self.info_types@)
    }

    /// The registered info types, in registration order.
    pub closed spec fn entries(&self) -> Seq<InfoType> {
        self.info_types@
    }

    /// A registry that holds nothing.
    pub fn new() -> (registry: Self)
        ensures
            registry.entries() == Seq::<InfoType>::empty(),
    {
        Registry { info_types: Vec::new() }
    }

    /// Registers an info type behind those registered before. A name that is
    /// present already is refused, then a pattern that does not compile; a
    /// refusal leaves the registry as it was.
    pub fn register(&mut self, info_type: InfoType) -> (r: Result<(), RegistryError>)
        ensures
            index_of_name(old(self).entries(), info_type.name@) is Some ==> {
                &&& r matches Err(RegistryError::DuplicateName { name })
                &&& name@ == info_type.name@
                &&& final(self).entries() == old(self).entries()
            },
            index_of_name(old(self).entries(), info_type.name@) is None && !compiles(
                info_type.expr@,
            ) ==> {
                &&& r matches Err(RegistryError::InvalidPattern { name, pattern })
                &&& name@ == info_type.name@
                &&& pattern@ == info_type.expr@
                &&& final(self).entries() == old(self).entries()
            },
            index_of_name(old(self).entries(), info_type.name@) is None && compiles(
                info_type.expr@,
            ) ==> {
                &&& r is Ok
                &&& final(self).entries() == old(self).entries().push(info_type)
            },
    {
        proof {
            use_type_invariant(&*self);
            lemma_index_of_name(self.info_types@, info_type.name@);
        }
        if find_by_name(&self.info_types, &info_type.name).is_some() {
            return Err(RegistryError::DuplicateName { name: info_type.name });
        }
        if compile_pattern(info_type.expr.as_str()).is_err() {
            return Err(
                RegistryError::InvalidPattern { name: info_type.name, pattern: info_type.expr },
            );
        }
        let mut list: Vec<InfoType> = Vec::new();
        core::mem::swap(&mut self.info_types, &mut list);
        list.push(info_type);
        self.info_types = list;
        Ok(())
    }

    /// The number of registered info types.
    pub fn len(&self) -> (n: usize)
        ensures
            n == self.entries().len(),
    {
        self.info_types.len()
    }

    /// The registered info types, in registration order.
    pub fn info_types(&self) -> (list: &Vec<InfoType>)
        ensures
            list@ == self.entries(),
            names_unique(list@),
            patterns_compile(list@),
    {
        proof {
            use_type_invariant(self);
        }
        &self.info_types
    }

    /// Produces a synthetic value from the generator of the info type of the
    /// given name; `None` where no info type has that name.
    pub fn generate(&self, name: &str) -> (r: Option<String>)
        ensures
            r is Some <==> index_of_name(self.entries(), name@) is Some,
            r matches Some(s) ==> may_generate(
                self.entries()[index_of_name(self.entries(), name@).unwrap()],
                s@,
            ),
    {
        proof {
            lemma_index_of_name(self.info_types@, name@);
        }
        match find_by_name(&self.info_types, &name.to_owned()) {
            Some(k) => Some(self.info_types[k].generate()),
            None => None,
        }
    }

    /// Builds the matcher over the registered info types, in registration
    /// order.
    pub fn compile(self) -> (r: Result<RegexMatcher, CompilationError>)
        ensures
            r is Ok <==> compiles(combined_pattern(self.entries())),
            r matches Ok(m) ==> m.built_from(self.entries()) && m.group_names().len()
                == self.entries().len(),
            r matches Err(e) ==> e.pattern@ == combined_pattern(self.entries()),
    {
        new(self.info_types)
    }
}

} // verus!
