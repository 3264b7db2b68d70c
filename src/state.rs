use vstd::prelude::*;

use crate::value::{cast_error, converted, lemma_nil_value, nil_value, MrType, MrValue, MrubyError};

verus! {

/// A handle to a class or a module registered in an interpreter instance,
/// given by its position in the instance's class table.
#[derive(Clone, Copy, Debug, PartialEq, Eq, Structural)]
pub enum MrClass {
    Class(usize),
    Module(usize),
}

impl MrClass {
    /// The position of the class or module in its instance's class table.
    pub open spec fn index(self) -> nat {
        match self {
            MrClass::Class(i) => i as nat,
            MrClass::Module(i) => i as nat,
        }
    }
}

/// A handle to a Data object: an interpreter object that carries a host
/// object, given by its position in the instance's Data table.
#[derive(Clone, Copy, Debug, PartialEq, Eq, Structural)]
pub struct MrData {
    index: usize,
}

impl MrData {
    /// The position of the object in its instance's Data table.
    pub closed spec fn index(self) -> nat {
        self.index as nat
    }
}

impl MrValue {
    /// The value that stands for the Data object `data`.
    pub fn data_value(data: MrData) -> (r: MrValue)
        ensures
            r.tag() == MrType::MRB_TT_DATA,
            r.word_payload() == data.index(),
            r.int_payload() == 0,
    {
        MrValue::from_parts(MrType::MRB_TT_DATA, 0, data.index)
    }
}

/// What the interpreter keeps for one Data object: its class, the identity
/// of the descriptor it was made with, the host cell it refers to within
/// that descriptor, and whether the collector has reclaimed it.
#[derive(Clone, Copy, Debug)]
pub struct DataEntry {
    pub class: MrClass,
    pub type_id: u64,
    pub slot: usize,
    pub live: bool,
}

/// One interpreter instance: the heap that heap values point into.
pub struct MrState {
    strings: Vec<String>,
    symbols: Vec<String>,
    arrays: Vec<Vec<MrValue>>,
    classes: Vec<String>,
    modules: Vec<bool>,
    datas: Vec<DataEntry>,
    type_count: u64,
}

impl MrState {
    /// The contents of each string object, by index.
    pub closed spec fn strings(self) -> Seq<Seq<char>> {
        self.strings@.map_values(|s: String| s@)
    }

    /// The name of each interned symbol, by id.
    pub closed spec fn symbols(self) -> Seq<Seq<char>> {
        self.symbols@.map_values(|s: String| s@)
    }

    /// The elements of each array object, by index.
    pub closed spec fn arrays(self) -> Seq<Seq<MrValue>> {
        self.arrays@.map_values(|a: Vec<MrValue>| a@)
    }

    /// The name of each registered class or module, by index.
    pub closed spec fn class_names(self) -> Seq<Seq<char>> {
        self.classes@.map_values(|s: String| s@)
    }

    /// Whether each entry of the class table is a module.
    pub closed spec fn class_is_module(self) -> Seq<bool> {
        self.modules@
    }

    /// The Data table.
    pub closed spec fn datas(self) -> Seq<DataEntry> {
        self.datas@
    }

    /// How many descriptors this instance has issued.
    pub closed spec fn type_count(self) -> nat {
        self.type_count as nat
    }

    /// `v` refers to nothing outside this instance's heap.
    pub open spec fn contains(self, v: MrValue) -> bool {
        let w = v.word_payload();
        match v.tag() {
            MrType::MRB_TT_STRING => w < self.strings().len(),
            MrType::MRB_TT_SYMBOL => w < self.symbols().len(),
            MrType::MRB_TT_ARRAY => w < self.arrays().len(),
            MrType::MRB_TT_DATA => w < self.datas().len(),
            MrType::MRB_TT_CLASS => w < self.class_names().len() && !self.class_is_module()[w as int],
            MrType::MRB_TT_MODULE => w < self.class_names().len() && self.class_is_module()[w as int],
            _ => true,
        }
    }

    /// Every array element lies in the heap, symbols are interned once each,
    /// and every Data object names a class of this instance.
    pub open spec fn wf(self) -> bool {
        &&& forall|i: int, j: int|
            0 <= i < self.arrays().len() && 0 <= j < self.arrays()[i].len() ==> #[trigger] self.contains(
                self.arrays()[i][j],
            )
        &&& forall|i: int, j: int|
            0 <= i < j < self.symbols().len() ==> #[trigger] self.symbols()[i] != #[trigger] self.symbols()[j]
        &&& self.class_is_module().len() == self.class_names().len()
        &&& forall|i: int|
            0 <= i < self.datas().len() ==> (#[trigger] self.datas()[i]).class.index() < self.class_names().len()
    }

    /// The heap is unchanged but for the symbol table.
    pub open spec fn same_but_symbols(self, other: MrState) -> bool {
        &&& self.strings() == other.strings()
        &&& self.arrays() == other.arrays()
        &&& self.class_names() == other.class_names()
        &&& self.class_is_module() == other.class_is_module()
        &&& self.datas() == other.datas()
        &&& self.type_count() == other.type_count()
    }

    /// The heap is unchanged but for the string objects.
    pub open spec fn same_but_strings(self, other: MrState) -> bool {
        &&& self.symbols() == other.symbols()
        &&& self.arrays() == other.arrays()
        &&& self.class_names() == other.class_names()
        &&& self.class_is_module() == other.class_is_module()
        &&& self.datas() == other.datas()
        &&& self.type_count() == other.type_count()
    }

    /// The heap is unchanged but for the array objects.
    pub open spec fn same_but_arrays(self, other: MrState) -> bool {
        &&& self.strings() == other.strings()
        &&& self.symbols() == other.symbols()
        &&& self.class_names() == other.class_names()
        &&& self.class_is_module() == other.class_is_module()
        &&& self.datas() == other.datas()
        &&& self.type_count() == other.type_count()
    }

    /// A fresh instance with an empty heap.
    pub fn new() -> (r: MrState)
        ensures
            r.wf(),
            r.strings() == Seq::<Seq<char>>::empty(),
            r.symbols() == Seq::<Seq<char>>::empty(),
            r.arrays() == Seq::<Seq<MrValue>>::empty(),
            r.class_names() == Seq::<Seq<char>>::empty(),
            r.datas() == Seq::<DataEntry>::empty(),
            r.type_count() == 0,
    {
        let r = MrState {
            strings: Vec::new(),
            symbols: Vec::new(),
            arrays: Vec::new(),
            classes: Vec::new(),
            modules: Vec::new(),
            datas: Vec::new(),
            type_count: 0,
        };
        assert(r.strings() =~= Seq::<Seq<char>>::empty());
        assert(r.symbols() =~= Seq::<Seq<char>>::empty());
        assert(r.arrays() =~= Seq::<Seq<MrValue>>::empty());
        assert(r.class_names() =~= Seq::<Seq<char>>::empty());
        r
    }
}


/// The heap kept its arrays, or gained one empty array, and grew or kept
/// every other table: every array element still lies inside it.
proof fn lemma_arrays_still_inside(before: MrState, after: MrState)
    requires
        before.wf(),
        after.arrays() == before.arrays() || after.arrays() == before.arrays().push(
            Seq::<MrValue>::empty(),
        ),
        before.strings().len() <= after.strings().len(),
        before.symbols().len() <= after.symbols().len(),
        before.datas().len() <= after.datas().len(),
        before.class_names().len() <= after.class_names().len(),
        forall|i: int|
            0 <= i < before.class_is_module().len() ==> after.class_is_module()[i]
                == before.class_is_module()[i],
    ensures
        forall|i: int, j: int|
            0 <= i < after.arrays().len() && 0 <= j < after.arrays()[i].len() ==> #[trigger] after.contains(
                after.arrays()[i][j],
            ),
{
    assert forall|i: int, j: int|
        0 <= i < after.arrays().len() && 0 <= j < after.arrays()[i].len() implies #[trigger] after.contains(
            after.arrays()[i][j],
        ) by {
        assert(before.contains(before.arrays()[i][j]));
    }
}

/// What `to_str` reads from `v` in `mrb`: a string's contents or a
/// symbol's name.
pub open spec fn str_of(v: MrValue, mrb: MrState) -> Option<Seq<char>> {
    if v.tag() == MrType::MRB_TT_STRING {
        Some(mrb.strings()[v.word_payload() as int])
    } else if v.tag() == MrType::MRB_TT_SYMBOL {
        Some(mrb.symbols()[v.word_payload() as int])
    } else {
        None
    }
}

/// What `to_vec` reads from `v` in `mrb`: an array's elements, in order.
pub open spec fn vec_of(v: MrValue, mrb: MrState) -> Option<Seq<MrValue>> {
    if v.tag() == MrType::MRB_TT_ARRAY {
        Some(mrb.arrays()[v.word_payload() as int])
    } else {
        None
    }
}

/// What `to_class` reads from `v`.
pub open spec fn class_of(v: MrValue) -> Option<MrClass> {
    if v.tag() == MrType::MRB_TT_CLASS {
        Some(MrClass::Class(v.word_payload()))
    } else {
        None
    }
}

/// What `to_module` reads from `v`.
pub open spec fn module_of(v: MrValue) -> Option<MrClass> {
    if v.tag() == MrType::MRB_TT_MODULE {
        Some(MrClass::Module(v.word_payload()))
    } else {
        None
    }
}

/// `items` with `value` stored at index `i`: in place when `i` is within
/// the array, else after as many `nil`s as close the gap.
pub open spec fn array_stored(items: Seq<MrValue>, i: int, value: MrValue) -> Seq<MrValue> {
    if i < items.len() {
        items.update(i, value)
    } else {
        items + Seq::new((i - items.len()) as nat, |k: int| nil_value()) + seq![value]
    }
}

/// `r` is a new string object holding `s`, made in `before` giving `after`.
pub open spec fn made_string(before: MrState, s: Seq<char>, r: MrValue, after: MrState) -> bool {
    &&& r.tag() == MrType::MRB_TT_STRING
    &&& r.word_payload() == before.strings().len()
    &&& r.int_payload() == 0
    &&& r.float_payload() == 0
    &&& after.strings() == before.strings().push(s)
    &&& after.same_but_strings(before)
}

/// `r` is the symbol named `s`, interned in `before` giving `after`: the symbol
/// table grows only when `s` was not in it yet.
pub open spec fn interned(before: MrState, s: Seq<char>, r: MrValue, after: MrState) -> bool {
    &&& r.tag() == MrType::MRB_TT_SYMBOL
    &&& r.int_payload() == 0
    &&& r.float_payload() == 0
    &&& r.word_payload() < after.symbols().len()
    &&& after.symbols()[r.word_payload() as int] == s
    &&& after.symbols() == (if before.symbols().contains(s) {
        before.symbols()
    } else {
        before.symbols().push(s)
    })
    &&& after.same_but_symbols(before)
}

/// `r` is a new array object holding `items` in order, made in `before`
/// giving `after`.
pub open spec fn made_array(before: MrState, items: Seq<MrValue>, r: MrValue, after: MrState) -> bool {
    &&& r.tag() == MrType::MRB_TT_ARRAY
    &&& r.word_payload() == before.arrays().len()
    &&& r.int_payload() == 0
    &&& r.float_payload() == 0
    &&& after.arrays() == before.arrays().push(items)
    &&& after.same_but_arrays(before)
}

impl MrState {
    /// Registers a class or a module named `name`.
    fn define(&mut self, name: &str, module: bool) -> (r: MrClass)
        requires
            old(self).wf(),
        ensures
            final(self).wf(),
            r == (if module {
                MrClass::Module(old(self).class_names().len() as usize)
            } else {
                MrClass::Class(old(self).class_names().len() as usize)
            }),
            final(self).class_names() == old(self).class_names().push(name@),
            final(self).class_is_module() == old(self).class_is_module().push(module),
            final(self).strings() == old(self).strings(),
            final(self).symbols() == old(self).symbols(),
            final(self).arrays() == old(self).arrays(),
            final(self).datas() == old(self).datas(),
            final(self).type_count() == old(self).type_count(),
    {
        let n = self.classes.len();
        let r = if module {
            MrClass::Module(n)
        } else {
            MrClass::Class(n)
        };
        self.classes.push(name.to_owned());
        self.modules.push(module);
        assert(self.class_names() =~= old(self).class_names().push(name@));
        assert(self.symbols() == old(self).symbols());
        assert(self.datas() == old(self).datas());
        proof {
            lemma_arrays_still_inside(*old(self), *self);
        }
        r
    }

    /// Registers a class named `name`.
    pub fn define_class(&mut self, name: &str) -> (r: MrClass)
        requires
            old(self).wf(),
        ensures
            final(self).wf(),
            r == MrClass::Class(old(self).class_names().len() as usize),
            final(self).class_names() == old(self).class_names().push(name@),
            final(self).class_is_module() == old(self).class_is_module().push(false),
            final(self).strings() == old(self).strings(),
            final(self).symbols() == old(self).symbols(),
            final(self).arrays() == old(self).arrays(),
            final(self).datas() == old(self).datas(),
            final(self).type_count() == old(self).type_count(),
    {
        self.define(name, false)
    }

    /// Registers a module named `name`.
    pub fn define_module(&mut self, name: &str) -> (r: MrClass)
        requires
            old(self).wf(),
        ensures
            final(self).wf(),
            r == MrClass::Module(old(self).class_names().len() as usize),
            final(self).class_names() == old(self).class_names().push(name@),
            final(self).class_is_module() == old(self).class_is_module().push(true),
            final(self).strings() == old(self).strings(),
            final(self).symbols() == old(self).symbols(),
            final(self).arrays() == old(self).arrays(),
            final(self).datas() == old(self).datas(),
            final(self).type_count() == old(self).type_count(),
    {
        self.define(name, true)
    }

    /// The heap is unchanged but for the Data table.
    pub open spec fn same_but_datas(self, other: MrState) -> bool {
        &&& self.strings() == other.strings()
        &&& self.symbols() == other.symbols()
        &&& self.arrays() == other.arrays()
        &&& self.class_names() == other.class_names()
        &&& self.class_is_module() == other.class_is_module()
        &&& self.type_count() == other.type_count()
    }

    /// Issues a fresh descriptor identity.
    pub(crate) fn next_type_id(&mut self) -> (r: u64)
        requires
            old(self).wf(),
            old(self).type_count() < u64::MAX,
        ensures
            final(self).wf(),
            r == old(self).type_count(),
            final(self).type_count() == old(self).type_count() + 1,
            final(self).strings() == old(self).strings(),
            final(self).symbols() == old(self).symbols(),
            final(self).arrays() == old(self).arrays(),
            final(self).class_names() == old(self).class_names(),
            final(self).class_is_module() == old(self).class_is_module(),
            final(self).datas() == old(self).datas(),
    {
        let r = self.type_count;
        self.type_count = r + 1;
        assert(self.symbols() == old(self).symbols());
        assert(self.datas() == old(self).datas());
        assert(self.arrays() == old(self).arrays());
        proof {
            lemma_arrays_still_inside(*old(self), *self);
        }
        r
    }

    /// Appends `entry` to the Data table, giving the new object's handle.
    pub(crate) fn data_object_alloc(&mut self, entry: DataEntry) -> (r: MrData)
        requires
            old(self).wf(),
            entry.class.index() < old(self).class_names().len(),
        ensures
            final(self).wf(),
            r.index() == old(self).datas().len(),
            final(self).datas() == old(self).datas().push(entry),
            final(self).same_but_datas(*old(self)),
    {
        let r = MrData { index: self.datas.len() };
        self.datas.push(entry);
        assert(self.symbols() == old(self).symbols());
        assert(self.arrays() == old(self).arrays());
        proof {
            lemma_arrays_still_inside(*old(self), *self);
        }
        r
    }

    /// The Data table's entry at `i`.
    pub(crate) fn data_entry(&self, i: usize) -> (r: DataEntry)
        requires
            i < self.datas().len(),
        ensures
            r == self.datas()[i as int],
    {
        self.datas[i]
    }

    /// Marks the Data object at `i` as reclaimed.
    pub(crate) fn data_reclaim(&mut self, i: usize)
        requires
            old(self).wf(),
            i < old(self).datas().len(),
        ensures
            final(self).wf(),
            final(self).datas() == old(self).datas().update(
                i as int,
                DataEntry { live: false, ..old(self).datas()[i as int] },
            ),
            final(self).same_but_datas(*old(self)),
    {
        let mut e = self.datas[i];
        e.live = false;
        self.datas.set(i, e);
        assert(self.symbols() == old(self).symbols());
        assert(self.arrays() == old(self).arrays());
        assert(self.datas() =~= old(self).datas().update(
            i as int,
            DataEntry { live: false, ..old(self).datas()[i as int] },
        ));
        proof {
            lemma_arrays_still_inside(*old(self), *self);
        }
    }

    /// The id of the symbol named `name`, if it is interned.
    fn find_symbol(&self, name: &String) -> (r: Option<usize>)
        ensures
            r matches Some(id) ==> id < self.symbols().len() && self.symbols()[id as int] == name@,
            r is None ==> !self.symbols().contains(name@),
    {
        let mut i: usize = 0;
        while i < self.symbols.len()
            invariant
                i <= self.symbols@.len(),
                forall|k: int| 0 <= k < i ==> self.symbols()[k] != name@,
            decreases self.symbols@.len() - i,
        {
            if self.symbols[i] == *name {
                return Some(i);
            }
            i += 1;
        }
        None
    }

    /// The number of elements that `array` holds now.
    pub fn ary_len(&self, array: MrValue) -> (r: usize)
        requires
            array.tag() == MrType::MRB_TT_ARRAY,
            self.contains(array),
        ensures
            r == self.arrays()[array.word_payload() as int].len(),
    {
        self.arrays[array.word()].len()
    }

    /// The element of `array` at index `i`.
    pub fn ary_ref(&self, array: MrValue, i: usize) -> (r: MrValue)
        requires
            array.tag() == MrType::MRB_TT_ARRAY,
            self.contains(array),
            i < self.arrays()[array.word_payload() as int].len(),
        ensures
            r == self.arrays()[array.word_payload() as int][i as int],
    {
        self.arrays[array.word()][i]
    }

    /// Stores `value` at index `i` of `array`; an index past the end grows
    /// the array, filling the gap with `nil`.
    pub fn ary_set(&mut self, array: MrValue, i: usize, value: MrValue)
        requires
            old(self).wf(),
            array.tag() == MrType::MRB_TT_ARRAY,
            old(self).contains(array),
            old(self).contains(value),
            i < usize::MAX,
        ensures
            final(self).wf(),
            final(self).arrays() == old(self).arrays().update(
                array.word_payload() as int,
                array_stored(old(self).arrays()[array.word_payload() as int], i as int, value),
            ),
            final(self).same_but_arrays(*old(self)),
    {
        let a = array.word();
        let mut items: Vec<MrValue> = Vec::new();
        std::mem::swap(&mut items, &mut self.arrays[a]);
        let ghost before = items@;
        if i < items.len() {
            items.set(i, value);
        } else {
            while items.len() < i
                invariant
                    before.len() <= items@.len() <= i,
                    items@ == before + Seq::new(
                        (items@.len() - before.len()) as nat,
                        |k: int| nil_value(),
                    ),
                decreases i - items@.len(),
            {
                items.push(MrValue::nil());
            }
            items.push(value);
        }
        assert(items@ =~= array_stored(before, i as int, value));
        std::mem::swap(&mut items, &mut self.arrays[a]);
        assert(self.symbols() == old(self).symbols());
        assert(self.datas() == old(self).datas());
        proof {
            lemma_nil_value();
        }
        assert(self.arrays() =~= old(self).arrays().update(
            a as int,
            array_stored(before, i as int, value),
        ));
        assert forall|x: int, y: int|
            0 <= x < self.arrays().len() && 0 <= y < self.arrays()[x].len() implies #[trigger] self.contains(
                self.arrays()[x][y],
            ) by {
            if x != a as int {
                assert(old(self).contains(old(self).arrays()[x][y]));
            } else if y < before.len() && y != i {
                assert(old(self).contains(old(self).arrays()[x][y]));
            }
        }
    }
}

impl MrValue {
    /// A new string object holding a copy of `value`.
    pub fn string(mrb: &mut MrState, value: &str) -> (r: MrValue)
        requires
            old(mrb).wf(),
        ensures
            final(mrb).wf(),
            made_string(*old(mrb), value@, r, *final(mrb)),
    {
        let r = MrValue::from_parts(MrType::MRB_TT_STRING, 0, mrb.strings.len());
        mrb.strings.push(value.to_owned());
        assert(mrb.strings() =~= old(mrb).strings().push(value@));
        assert(mrb.symbols() == old(mrb).symbols());
        assert(mrb.datas() == old(mrb).datas());
        proof {
            lemma_arrays_still_inside(*old(mrb), *mrb);
        }
        r
    }

    /// The symbol named `value`, interned: equal names give equal values.
    pub fn symbol(mrb: &mut MrState, value: &str) -> (r: MrValue)
        requires
            old(mrb).wf(),
        ensures
            final(mrb).wf(),
            interned(*old(mrb), value@, r, *final(mrb)),
    {
        let name = value.to_owned();
        if let Some(id) = mrb.find_symbol(&name) {
            return MrValue::from_parts(MrType::MRB_TT_SYMBOL, 0, id);
        }
        let r = MrValue::from_parts(MrType::MRB_TT_SYMBOL, 0, mrb.symbols.len());
        mrb.symbols.push(name);
        assert(mrb.symbols() =~= old(mrb).symbols().push(value@));
        assert(mrb.datas() == old(mrb).datas());
        assert(mrb.arrays() == old(mrb).arrays());
        assert forall|x: int, y: int| 0 <= x < y < mrb.symbols().len() implies #[trigger] mrb.symbols()[x]
            != #[trigger] mrb.symbols()[y] by {
            if y < old(mrb).symbols().len() {
                assert(old(mrb).symbols()[x] != old(mrb).symbols()[y]);
            }
        }
        proof {
            lemma_arrays_still_inside(*old(mrb), *mrb);
        }
        r
    }

    /// A new array object holding `value`, in order. Its capacity is
    /// fixed to the length of `value`, then each slot is set by index.
    pub fn array(mrb: &mut MrState, value: Vec<MrValue>) -> (r: MrValue)
        requires
            old(mrb).wf(),
            forall|i: int| 0 <= i < value@.len() ==> old(mrb).contains(#[trigger] value@[i]),
        ensures
            final(mrb).wf(),
            made_array(*old(mrb), value@, r, *final(mrb)),
    {
        let r = MrValue::from_parts(MrType::MRB_TT_ARRAY, 0, mrb.arrays.len());
        mrb.arrays.push(Vec::with_capacity(value.len()));
        proof {
            assert(mrb.arrays() =~= old(mrb).arrays().push(Seq::empty()));
            assert(value@.subrange(0, 0) =~= Seq::<MrValue>::empty());
            assert(mrb.symbols() == old(mrb).symbols());
            assert(mrb.datas() == old(mrb).datas());
            lemma_arrays_still_inside(*old(mrb), *mrb);
        }
        let mut i: usize = 0;
        while i < value.len()
            invariant
                mrb.wf(),
                i <= value@.len(),
                r.tag() == MrType::MRB_TT_ARRAY,
                r.word_payload() == old(mrb).arrays().len(),
                r.int_payload() == 0,
                mrb.arrays() == old(mrb).arrays().push(value@.subrange(0, i as int)),
                mrb.same_but_arrays(*old(mrb)),
                forall|k: int| 0 <= k < value@.len() ==> old(mrb).contains(#[trigger] value@[k]),
            decreases value@.len() - i,
        {
            assert(mrb.contains(value@[i as int]));
            mrb.ary_set(r, i, value[i]);
            assert(array_stored(value@.subrange(0, i as int), i as int, value@[i as int])
                =~= value@.subrange(0, i + 1));
            assert(mrb.arrays() =~= old(mrb).arrays().push(value@.subrange(0, i + 1)));
            i += 1;
        }
        assert(value@.subrange(0, value@.len() as int) =~= value@);
        r
    }

    /// A raw pointer value holding `value`. The address is only carried:
    /// nothing here reads, owns or frees what it points to. A raw pointer
    /// is an immediate value, so the instance is not consulted.
    pub fn ptr(_mrb: &MrState, value: usize) -> (r: MrValue)
        ensures
            r.tag() == MrType::MRB_TT_CPTR,
            r.word_payload() == value,
            r.int_payload() == 0,
    {
        MrValue::from_parts(MrType::MRB_TT_CPTR, 0, value)
    }

    /// The value that stands for the class or module `class`.
    pub fn class(class: MrClass) -> (r: MrValue)
        ensures
            r.tag() == (if class is Module {
                MrType::MRB_TT_MODULE
            } else {
                MrType::MRB_TT_CLASS
            }),
            r.word_payload() == class.index(),
            r.int_payload() == 0,
            r.float_payload() == 0,
    {
        match class {
            MrClass::Class(i) => MrValue::from_parts(MrType::MRB_TT_CLASS, 0, i),
            MrClass::Module(i) => MrValue::from_parts(MrType::MRB_TT_MODULE, 0, i),
        }
    }

    /// Succeeds on a string, giving its contents, or on a symbol, giving
    /// its name. The text is borrowed from the interpreter instance and
    /// lives no longer than the borrow of it.
    pub fn to_str<'a>(&self, mrb: &'a MrState) -> (r: Result<&'a str, MrubyError>)
        requires
            mrb.contains(*self),
        ensures
            str_of(*self, *mrb) matches Some(t) ==> (r matches Ok(s) && s@ == t),
            str_of(*self, *mrb) is None ==> converted(r, None, "String"@),
    {
        match self.typ() {
            MrType::MRB_TT_STRING => Ok(mrb.strings[self.word()].as_str()),
            MrType::MRB_TT_SYMBOL => Ok(mrb.symbols[self.word()].as_str()),
            _ => Err(cast_error("String")),
        }
    }

    /// Succeeds on an array, giving its elements in order. The length and
    /// the elements are read from the instance at the time of the call.
    pub fn to_vec(&self, mrb: &MrState) -> (r: Result<Vec<MrValue>, MrubyError>)
        requires
            mrb.contains(*self),
        ensures
            vec_of(*self, *mrb) matches Some(items) ==> (r matches Ok(v) && v@ == items),
            vec_of(*self, *mrb) is None ==> converted(r, None, "Array"@),
    {
        match self.typ() {
            MrType::MRB_TT_ARRAY => {
                let len = mrb.ary_len(*self);
                let mut vec: Vec<MrValue> = Vec::with_capacity(len);
                let mut i: usize = 0;
                while i < len
                    invariant
                        self.tag() == MrType::MRB_TT_ARRAY,
                        mrb.contains(*self),
                        len == mrb.arrays()[self.word_payload() as int].len(),
                        i <= len,
                        vec@ == mrb.arrays()[self.word_payload() as int].subrange(0, i as int),
                    decreases len - i,
                {
                    vec.push(mrb.ary_ref(*self, i));
                    i += 1;
                }
                assert(vec@ =~= mrb.arrays()[self.word_payload() as int]);
                Ok(vec)
            },
            _ => Err(cast_error("Array")),
        }
    }

    /// Succeeds on a class only, giving its handle.
    pub fn to_class(&self) -> (r: Result<MrClass, MrubyError>)
        ensures
            converted(r, class_of(*self), "Class"@),
    {
        match self.typ() {
            MrType::MRB_TT_CLASS => Ok(MrClass::Class(self.word())),
            _ => Err(cast_error("Class")),
        }
    }

    /// Succeeds on a module only, giving its handle.
    pub fn to_module(&self) -> (r: Result<MrClass, MrubyError>)
        ensures
            converted(r, module_of(*self), "Module"@),
    {
        match self.typ() {
            MrType::MRB_TT_MODULE => Ok(MrClass::Module(self.word())),
            _ => Err(cast_error("Module")),
        }
    }
}

} // verus!
