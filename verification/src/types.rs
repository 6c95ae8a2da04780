//! The types of the values that rule conditions work with, and the
//! structures that modules hand to them.

pub mod signature;

use crate::name_index::NameIndex;
use vstd::prelude::*;

verus! {

/// The static type of an expression.
#[derive(Clone, Copy, Debug, PartialEq, Eq, Structural)]
pub enum Type {
    Unknown,
    Bool,
    Integer,
    Float,
    String,
    Struct,
    Array,
    Mapping,
    Func,
}

/// One signature of a function: the function's name, the types of its
/// arguments and of its result, in mangled form (`name@args@result`).
#[derive(Debug)]
pub struct FuncSignature {
    pub mangled_name: String,
}

/// A function that rules can call, with one signature per overload, in the
/// order in which they were added.
#[derive(Debug)]
pub struct Func {
    signatures: Vec<FuncSignature>,
}

impl Func {
    /// The mangled names of the signatures, in order.
    pub closed spec fn view(&self) -> Seq<Seq<char>> {
        Seq::new(self.signatures@.len(), |i: int| self.signatures@[i].mangled_name@)
    }

    /// A function with one signature.
    pub fn with_signature(signature: FuncSignature) -> (func: Func)
        ensures
            func@ == seq![signature.mangled_name@],
    {
        let mut signatures: Vec<FuncSignature> = Vec::new();
        signatures.push(signature);
        let func = Func { signatures };
        assert(func@ =~= seq![signature.mangled_name@]);
        func
    }

    /// Adds an overload after those that the function has.
    pub fn add_signature(&mut self, signature: FuncSignature)
        ensures
            final(self)@ == old(self)@.push(signature.mangled_name@),
    {
        self.signatures.push(signature);
        assert(self@ =~= old(self)@.push(signature.mangled_name@));
    }

    /// How many signatures the function has.
    pub fn len(&self) -> (n: usize)
        ensures
            n == self@.len(),
    {
        self.signatures.len()
    }

    /// The mangled name of the signature with number `i`.
    pub fn signature(&self, i: usize) -> (mangled_name: &str)
        requires
            i < self@.len(),
        ensures
            mangled_name@ == self@[i as int],
    {
        self.signatures[i].mangled_name.as_str()
    }
}

/// A type together with the value, where the value is known.
///
/// A float is held as the bits of its IEEE-754 double. Strings, structures,
/// arrays, maps and functions live in a [`Heap`] and are named here by their
/// number in it, so that a value can be copied freely.
#[derive(Clone, Copy, Debug)]
pub enum TypeValue {
    Unknown,
    Bool(Option<bool>),
    Integer(Option<i64>),
    Float(Option<u64>),
    String(Option<usize>),
    Struct(usize),
    Array(usize),
    Mapping(usize),
    Func(usize),
}

/// An array, whose items all have one type. Strings and structures are
/// named by their numbers in the heap.
pub enum ArrayValue {
    Integers(Vec<i64>),
    Floats(Vec<u64>),
    Bools(Vec<bool>),
    Strings(Vec<usize>),
    Structs(Vec<usize>),
}

/// A map with keys of one kind. The entries stand in the order in which the
/// module produced them; a lookup finds the first entry with the key.
pub enum MapValue {
    IntegerKeys(Vec<(i64, TypeValue)>),
    StringKeys(Vec<(Vec<u8>, TypeValue)>),
}

/// A field of a structure.
pub struct StructField {
    pub name: String,
    pub type_value: TypeValue,
}

/// An ordered list of named fields. A field's index is its position, and
/// never changes.
pub struct Struct {
    fields: Vec<StructField>,
    names: NameIndex,
}

impl TypeValue {
    /// The static type of the value.
    pub open spec fn ty_spec(self) -> Type {
        match self {
            TypeValue::Unknown => Type::Unknown,
            TypeValue::Bool(_) => Type::Bool,
            TypeValue::Integer(_) => Type::Integer,
            TypeValue::Float(_) => Type::Float,
            TypeValue::String(_) => Type::String,
            TypeValue::Struct(_) => Type::Struct,
            TypeValue::Array(_) => Type::Array,
            TypeValue::Mapping(_) => Type::Mapping,
            TypeValue::Func(_) => Type::Func,
        }
    }

    /// The static type of the value.
    pub fn ty(&self) -> (ty: Type)
        ensures
            ty == self.ty_spec(),
    {
        match self {
            TypeValue::Unknown => Type::Unknown,
            TypeValue::Bool(_) => Type::Bool,
            TypeValue::Integer(_) => Type::Integer,
            TypeValue::Float(_) => Type::Float,
            TypeValue::String(_) => Type::String,
            TypeValue::Struct(_) => Type::Struct,
            TypeValue::Array(_) => Type::Array,
            TypeValue::Mapping(_) => Type::Mapping,
            TypeValue::Func(_) => Type::Func,
        }
    }
}

impl ArrayValue {
    /// How many items the array holds.
    pub open spec fn len_spec(self) -> nat {
        match self {
            ArrayValue::Integers(v) => v@.len(),
            ArrayValue::Floats(v) => v@.len(),
            ArrayValue::Bools(v) => v@.len(),
            ArrayValue::Strings(v) => v@.len(),
            ArrayValue::Structs(v) => v@.len(),
        }
    }

    /// How many items the array holds.
    pub fn len(&self) -> (n: usize)
        ensures
            n == self.len_spec(),
    {
        match self {
            ArrayValue::Integers(v) => v.len(),
            ArrayValue::Floats(v) => v.len(),
            ArrayValue::Bools(v) => v.len(),
            ArrayValue::Strings(v) => v.len(),
            ArrayValue::Structs(v) => v.len(),
        }
    }
}

impl MapValue {
    /// How many entries the map holds.
    pub open spec fn len_spec(self) -> nat {
        match self {
            MapValue::IntegerKeys(entries) => entries@.len(),
            MapValue::StringKeys(entries) => entries@.len(),
        }
    }

    /// How many entries the map holds.
    pub fn len(&self) -> (n: usize)
        ensures
            n == self.len_spec(),
    {
        match self {
            MapValue::IntegerKeys(entries) => entries.len(),
            MapValue::StringKeys(entries) => entries.len(),
        }
    }
}

impl Struct {
    /// The fields, each at its index.
    pub closed spec fn fields(&self) -> Seq<StructField> {
        self.fields@
    }

    /// The values of the fields, each at its index.
    pub open spec fn values(&self) -> Seq<TypeValue> {
        Seq::new(self.fields().len(), |i: int| self.fields()[i].type_value)
    }

    /// The names of the fields, each at its index.
    pub open spec fn field_names(&self) -> Seq<Seq<char>> {
        Seq::new(self.fields().len(), |i: int| self.fields()[i].name@)
    }

    /// The index by name agrees with the list of fields.
    pub closed spec fn wf(&self) -> bool {
        &&& self.names.wf()
        &&& self.names@ == self.field_names()
    }

    /// In a well-formed structure no two fields have the same name.
    pub proof fn lemma_names_distinct(&self, i: int, j: int)
        requires
            self.wf(),
            0 <= i < self.fields().len(),
            0 <= j < self.fields().len(),
            self.fields()[i].name@ == self.fields()[j].name@,
        ensures
            i == j,
    {
        assert(self.field_names()[i] == self.field_names()[j]);
        self.names.lemma_distinct(i, j);
    }

    /// A structure without fields.
    pub fn new() -> (s: Struct)
        ensures
            s.wf(),
            s.fields().len() == 0,
    {
        let s = Struct { fields: Vec::new(), names: NameIndex::new() };
        assert(s.names@ =~= s.field_names());
        s
    }

    /// How many fields the structure has.
    pub fn len(&self) -> (n: usize)
        ensures
            n == self.fields().len(),
    {
        self.fields.len()
    }

    /// The fields, each at its index.
    pub fn fields_ref(&self) -> (fields: &Vec<StructField>)
        ensures
            fields@ == self.fields(),
    {
        &self.fields
    }

    /// Gives the field `name` the value `type_value` and returns the field's
    /// index. A new name gets the next index; a name that the structure has
    /// already keeps its index.
    pub fn add_field(&mut self, name: &str, type_value: TypeValue) -> (index: usize)
        requires
            old(self).wf(),
        ensures
            final(self).wf(),
            index < final(self).fields().len(),
            final(self).fields()[index as int].name@ == name@,
            final(self).fields()[index as int].type_value == type_value,
            old(self).field_names().contains(name@) ==> final(self).fields().len() == old(
                self,
            ).fields().len(),
            !old(self).field_names().contains(name@) ==> index == old(self).fields().len()
                && final(self).fields().len() == index + 1,
            forall|i: int|
                0 <= i < old(self).fields().len() && i != index ==> final(self).fields()[i] == old(
                    self,
                ).fields()[i],
    {
        let ghost before = *self;
        let index = self.names.insert(name);
        let field = StructField { name: String::from_str(name), type_value };
        if index < self.fields.len() {
            self.fields.set(index, field);
            proof {
                assert(before.field_names()[index as int] == name@);
                assert(self.field_names() =~= before.field_names());
            }
        } else {
            self.fields.push(field);
            proof {
                assert(self.field_names() =~= before.field_names().push(name@));
            }
        }
        index
    }

    /// The field with the given index.
    pub fn field_by_index(&self, index: usize) -> (field: Option<&StructField>)
        ensures
            match field {
                Some(f) => index < self.fields().len() && *f == self.fields()[index as int],
                None => index >= self.fields().len(),
            },
    {
        if index < self.fields.len() {
            Some(&self.fields[index])
        } else {
            None
        }
    }

    /// The index of the field with the given name.
    pub fn index_of(&self, name: &str) -> (index: Option<usize>)
        requires
            self.wf(),
        ensures
            match index {
                Some(i) => i < self.fields().len() && self.fields()[i as int].name@ == name@,
                None => !self.field_names().contains(name@),
            },
    {
        self.names.get(name)
    }

    /// The field with the given name.
    pub fn field_by_name(&self, name: &str) -> (field: Option<&StructField>)
        requires
            self.wf(),
        ensures
            match field {
                Some(f) => exists|i: int|
                    0 <= i < self.fields().len() && *f == self.fields()[i] && f.name@ == name@,
                None => !self.field_names().contains(name@),
            },
    {
        match self.names.get(name) {
            Some(i) => Some(&self.fields[i]),
            None => None,
        }
    }
}


/// The strings, structures, arrays, maps and functions that values refer to
/// by number. A heap only grows: what has a number keeps it.
pub struct Heap {
    pub strings: Vec<Vec<u8>>,
    pub structs: Vec<Struct>,
    pub arrays: Vec<ArrayValue>,
    pub maps: Vec<MapValue>,
    pub funcs: Vec<Func>,
}

impl Heap {
    /// Every structure of the heap is well formed.
    pub open spec fn wf(&self) -> bool {
        forall|i: int| 0 <= i < self.structs@.len() ==> (#[trigger] self.structs@[i]).wf()
    }

    /// The field `index` of the structure with number `structure`, where
    /// both exist.
    pub open spec fn field(&self, structure: usize, index: int) -> Option<TypeValue> {
        if structure < self.structs@.len() && 0 <= index < self.structs@[structure as int].fields().len() {
            Some(self.structs@[structure as int].fields()[index].type_value)
        } else {
            None
        }
    }

    /// A heap that holds nothing.
    pub fn new() -> (heap: Heap)
        ensures
            heap.wf(),
            heap.strings@.len() == 0,
            heap.structs@.len() == 0,
            heap.arrays@.len() == 0,
            heap.maps@.len() == 0,
            heap.funcs@.len() == 0,
    {
        Heap {
            strings: Vec::new(),
            structs: Vec::new(),
            arrays: Vec::new(),
            maps: Vec::new(),
            funcs: Vec::new(),
        }
    }

    /// Puts a structure on the heap and returns its number.
    pub fn add_struct(&mut self, s: Struct) -> (id: usize)
        requires
            old(self).wf(),
            s.wf(),
        ensures
            final(self).wf(),
            id == old(self).structs@.len(),
            final(self).structs@ == old(self).structs@.push(s),
            final(self).strings == old(self).strings,
            final(self).arrays == old(self).arrays,
            final(self).maps == old(self).maps,
            final(self).funcs == old(self).funcs,
    {
        let id = self.structs.len();
        self.structs.push(s);
        id
    }

    /// Puts a function on the heap and returns its number.
    pub fn add_func(&mut self, f: Func) -> (id: usize)
        ensures
            id == old(self).funcs@.len(),
            final(self).funcs@ == old(self).funcs@.push(f),
            final(self).structs == old(self).structs,
            final(self).strings == old(self).strings,
            final(self).arrays == old(self).arrays,
            final(self).maps == old(self).maps,
    {
        let id = self.funcs.len();
        self.funcs.push(f);
        id
    }

    /// The field `index` of the structure with number `structure`.
    pub fn field_value(&self, structure: usize, index: usize) -> (value: Option<TypeValue>)
        ensures
            value == self.field(structure, index as int),
    {
        if structure < self.structs.len() {
            match self.structs[structure].field_by_index(index) {
                Some(field) => Some(field.type_value),
                None => None,
            }
        } else {
            None
        }
    }
}

} // verus!
