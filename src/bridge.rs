use vstd::prelude::*;

use crate::state::{DataEntry, MrClass, MrState};
use crate::value::{cast_error, is_cast_error, MrType, MrValue, MrubyError};

verus! {

/// A shared host cell in the model's terms: the host value while it is
/// alive, how many handles the host holds to it, and whether the
/// interpreter's Data object still holds its one handle.
pub type CellModel<T> = (Option<T>, nat, bool);

/// How many handles to the cell exist, the interpreter's included.
pub open spec fn handle_total<T>(c: CellModel<T>) -> nat {
    c.1 + if c.2 {
        1nat
    } else {
        0nat
    }
}

/// The cell's invariant: its value is alive exactly while some handle to
/// it exists, and the host's count fits its counter.
pub open spec fn cell_wf<T>(c: CellModel<T>) -> bool {
    &&& (c.0 is Some) == (handle_total(c) > 0)
    &&& c.1 < u64::MAX
}

/// A cell after the host made one more handle to it.
pub open spec fn retained<T>(c: CellModel<T>) -> CellModel<T> {
    (c.0, c.1 + 1, c.2)
}

/// A cell after the host dropped one of its handles: the last handle
/// anywhere frees the value.
pub open spec fn released<T>(c: CellModel<T>) -> CellModel<T> {
    if c.1 == 0 {
        c
    } else if c.1 == 1 && !c.2 {
        (None, 0, false)
    } else {
        (c.0, (c.1 - 1) as nat, c.2)
    }
}

/// A cell after the interpreter dropped its handle: the last handle
/// anywhere frees the value.
pub open spec fn reclaimed<T>(c: CellModel<T>) -> CellModel<T> {
    if !c.2 {
        c
    } else if c.1 == 0 {
        (None, 0, false)
    } else {
        (c.0, c.1, false)
    }
}

struct HostCell<T> {
    value: Option<T>,
    host: u64,
    held: bool,
}

/// The descriptor of one host type embedded in the interpreter as Data:
/// its name, its identity within the instance that issued it, and the
/// shared cells of the host values of that type.
pub struct MrDataType<T> {
    name: String,
    id: u64,
    cells: Vec<HostCell<T>>,
}

/// An owning handle to a shared host cell, as retrieval hands it out. It
/// cannot be copied: each one stands for one of the host's counts of its
/// cell, given back by `MrDataType::release`. A handle never stands for the
/// interpreter's count, which only `MrState::collect` drops.
pub struct MrObj {
    slot: usize,
    type_id: u64,
}

impl MrObj {
    /// The cell that the handle designates.
    pub closed spec fn slot(self) -> nat {
        self.slot as nat
    }

    /// The identity of the descriptor that issued the handle.
    pub closed spec fn type_id(self) -> u64 {
        self.type_id
    }
}

impl<T> MrDataType<T> {
    pub closed spec fn name(self) -> Seq<char> {
        self.name@
    }

    pub closed spec fn id(self) -> u64 {
        self.id
    }

    /// Each cell's host value, host count and interpreter hold.
    pub closed spec fn cells(self) -> Seq<CellModel<T>> {
        self.cells@.map_values(|c: HostCell<T>| (c.value, c.host as nat, c.held))
    }

    /// Every cell keeps its invariant.
    pub open spec fn wf(self) -> bool {
        forall|k: int| 0 <= k < self.cells().len() ==> cell_wf(#[trigger] self.cells()[k])
    }

    /// The cell that `h` designates, if it is one of this descriptor's.
    pub open spec fn cell_of(self, h: MrObj) -> Option<int> {
        if h.type_id() == self.id() && h.slot() < self.cells().len() {
            Some(h.slot() as int)
        } else {
            None
        }
    }

    fn owns(&self, h: &MrObj) -> (r: bool)
        ensures
            r == self.cell_of(*h) is Some,
    {
        h.type_id == self.id && h.slot < self.cells.len()
    }

    /// The name the descriptor was made with.
    pub fn name_str(&self) -> (r: &str)
        ensures
            r@ == self.name(),
    {
        self.name.as_str()
    }

    /// The host value behind `h`, while it is alive.
    pub fn borrow(&self, h: &MrObj) -> (r: Option<&T>)
        ensures
            self.cell_of(*h) is None ==> r is None,
            self.cell_of(*h) matches Some(k) ==> (r is Some) == (self.cells()[k].0 is Some),
            self.cell_of(*h) matches Some(k) ==> (r matches Some(v) ==> self.cells()[k].0 == Some(
                *v,
            )),
    {
        if self.owns(h) {
            self.cells[h.slot].value.as_ref()
        } else {
            None
        }
    }

    /// How many handles to the cell behind `h` exist, the interpreter's
    /// included; 0 once the value is freed or when `h` is not one of this
    /// descriptor's.
    pub fn handle_count(&self, h: &MrObj) -> (r: u64)
        requires
            self.wf(),
        ensures
            self.cell_of(*h) matches Some(k) ==> r == handle_total(self.cells()[k]),
            self.cell_of(*h) is None ==> r == 0,
    {
        if self.owns(h) {
            let cell = &self.cells[h.slot];
            assert(cell_wf(self.cells()[h.slot as int]));
            if cell.held {
                cell.host + 1
            } else {
                cell.host
            }
        } else {
            0
        }
    }

    /// Replaces the host value behind `h`, while it is alive; says whether
    /// it did.
    pub fn set(&mut self, h: &MrObj, value: T) -> (r: bool)
        requires
            old(self).wf(),
        ensures
            final(self).wf(),
            r == (old(self).cell_of(*h) matches Some(k) && old(self).cells()[k].0 is Some),
            final(self).name() == old(self).name(),
            final(self).id() == old(self).id(),
            r ==> final(self).cells() == old(self).cells().update(
                h.slot() as int,
                (Some(value), old(self).cells()[h.slot() as int].1, old(self).cells()[h.slot() as int].2),
            ),
            !r ==> final(self).cells() == old(self).cells(),
    {
        if self.owns(h) && self.cells[h.slot].value.is_some() {
            let host = self.cells[h.slot].host;
            let held = self.cells[h.slot].held;
            self.cells.set(h.slot, HostCell { value: Some(value), host, held });
            assert(self.cells() =~= old(self).cells().update(
                h.slot() as int,
                (Some(value), old(self).cells()[h.slot() as int].1, old(self).cells()[h.slot() as int].2),
            ));
            assert(cell_wf(old(self).cells()[h.slot() as int]));
            true
        } else {
            false
        }
    }

    /// Drops one of the host's counts of the cell at `k`.
    fn release_host(&mut self, k: usize)
        requires
            old(self).wf(),
            k < old(self).cells().len(),
        ensures
            final(self).wf(),
            final(self).name() == old(self).name(),
            final(self).id() == old(self).id(),
            final(self).cells() == old(self).cells().update(k as int, released(old(self).cells()[k as int])),
    {
        let host = self.cells[k].host;
        let held = self.cells[k].held;
        assert(cell_wf(old(self).cells()[k as int]));
        if host == 1 && !held {
            self.cells.set(k, HostCell { value: None, host: 0, held: false });
        } else if host > 0 {
            let cell = &mut self.cells[k];
            cell.host = host - 1;
        }
        assert(self.cells() =~= old(self).cells().update(k as int, released(old(self).cells()[k as int])));
    }

    /// Drops the interpreter's count of the cell at `k`.
    fn release_held(&mut self, k: usize)
        requires
            old(self).wf(),
            k < old(self).cells().len(),
        ensures
            final(self).wf(),
            final(self).name() == old(self).name(),
            final(self).id() == old(self).id(),
            final(self).cells() == old(self).cells().update(k as int, reclaimed(old(self).cells()[k as int])),
    {
        let host = self.cells[k].host;
        let held = self.cells[k].held;
        assert(cell_wf(old(self).cells()[k as int]));
        if held && host == 0 {
            self.cells.set(k, HostCell { value: None, host: 0, held: false });
        } else if held {
            let cell = &mut self.cells[k];
            cell.held = false;
        }
        assert(self.cells() =~= old(self).cells().update(k as int, reclaimed(old(self).cells()[k as int])));
    }

    /// Gives back the host count that `h` stands for. The host value is
    /// freed when this was the last handle anywhere; the interpreter's
    /// count is never touched.
    pub fn release(&mut self, h: MrObj)
        requires
            old(self).wf(),
        ensures
            final(self).wf(),
            final(self).name() == old(self).name(),
            final(self).id() == old(self).id(),
            old(self).cell_of(h) matches Some(k) ==> final(self).cells() == old(self).cells().update(
                k,
                released(old(self).cells()[k]),
            ),
            old(self).cell_of(h) is None ==> final(self).cells() == old(self).cells(),
    {
        if self.owns(&h) {
            self.release_host(h.slot);
        }
    }
}

/// The cell of `typ` that the Data value `v` of `mrb` refers to, when `v`
/// is a live Data object made with `typ`.
pub open spec fn data_cell<T>(v: MrValue, mrb: MrState, typ: MrDataType<T>) -> Option<int> {
    let i = v.word_payload() as int;
    if v.tag() == MrType::MRB_TT_DATA && i < mrb.datas().len() && mrb.datas()[i].live
        && mrb.datas()[i].type_id == typ.id() && mrb.datas()[i].slot < typ.cells().len() {
        Some(mrb.datas()[i].slot as int)
    } else {
        None
    }
}

/// `v` refers to a live host value of `typ`.
pub open spec fn resolves<T>(v: MrValue, mrb: MrState, typ: MrDataType<T>) -> bool {
    data_cell(v, mrb, typ) matches Some(k) && typ.cells()[k].0 is Some
}

/// `v` refers to a cell of `typ` that the interpreter still holds.
pub open spec fn collectable<T>(v: MrValue, mrb: MrState, typ: MrDataType<T>) -> bool {
    data_cell(v, mrb, typ) matches Some(k) && typ.cells()[k].2
}

impl MrState {
    /// A new descriptor for host values of type `T`, named `name`. It is
    /// made once per host type and kept for the instance's lifetime.
    pub fn data_type<T>(&mut self, name: &str) -> (r: MrDataType<T>)
        requires
            old(self).wf(),
            old(self).type_count() < u64::MAX,
        ensures
            final(self).wf(),
            r.wf(),
            r.name() == name@,
            r.id() == old(self).type_count(),
            r.cells() == Seq::<CellModel<T>>::empty(),
            final(self).type_count() == old(self).type_count() + 1,
            final(self).strings() == old(self).strings(),
            final(self).symbols() == old(self).symbols(),
            final(self).arrays() == old(self).arrays(),
            final(self).class_names() == old(self).class_names(),
            final(self).class_is_module() == old(self).class_is_module(),
            final(self).datas() == old(self).datas(),
    {
        let id = self.next_type_id();
        let r = MrDataType { name: name.to_owned(), id, cells: Vec::new() };
        assert(r.cells() =~= Seq::<CellModel<T>>::empty());
        r
    }

    /// The collector's deallocation of the Data object `value` of `typ`:
    /// the object is reclaimed and the interpreter's count of its host cell
    /// is dropped, once. Says whether `value` was such an object; otherwise
    /// nothing changes.
    pub fn collect<T>(&mut self, value: MrValue, typ: &mut MrDataType<T>) -> (r: bool)
        requires
            old(self).wf(),
            old(typ).wf(),
            old(self).contains(value),
        ensures
            final(self).wf(),
            final(typ).wf(),
            r == collectable(value, *old(self), *old(typ)),
            final(typ).name() == old(typ).name(),
            final(typ).id() == old(typ).id(),
            r ==> {
                let k = data_cell(value, *old(self), *old(typ))->0;
                &&& final(typ).cells() == old(typ).cells().update(k, reclaimed(old(typ).cells()[k]))
                &&& final(self).datas() == old(self).datas().update(
                    value.word_payload() as int,
                    (DataEntry { live: false, ..old(self).datas()[value.word_payload() as int] }),
                )
                &&& final(self).same_but_datas(*old(self))
            },
            !r ==> {
                &&& final(typ).cells() == old(typ).cells()
                &&& *final(self) == *old(self)
            },
    {
        if value.typ() != MrType::MRB_TT_DATA {
            return false;
        }
        let i = value.word();
        let e = self.data_entry(i);
        if e.live && e.type_id == typ.id && e.slot < typ.cells.len() && typ.cells[e.slot].held {
            self.data_reclaim(i);
            typ.release_held(e.slot);
            true
        } else {
            false
        }
    }
}

impl MrValue {
    /// Embeds `obj` in the interpreter: a new shared cell of `typ` holds
    /// it, with the interpreter's one count and none of the host's, owned
    /// by a new Data object of class `class`.
    pub fn obj<T>(mrb: &mut MrState, class: MrClass, obj: T, typ: &mut MrDataType<T>) -> (r: MrValue)
        requires
            old(mrb).wf(),
            old(typ).wf(),
            class.index() < old(mrb).class_names().len(),
        ensures
            final(mrb).wf(),
            final(typ).wf(),
            r.tag() == MrType::MRB_TT_DATA,
            r.word_payload() == old(mrb).datas().len(),
            final(mrb).datas() == old(mrb).datas().push(
                (DataEntry {
                    class,
                    type_id: old(typ).id(),
                    slot: old(typ).cells().len() as usize,
                    live: true,
                }),
            ),
            final(mrb).same_but_datas(*old(mrb)),
            final(typ).name() == old(typ).name(),
            final(typ).id() == old(typ).id(),
            final(typ).cells() == old(typ).cells().push((Some(obj), 0, true)),
            data_cell(r, *final(mrb), *final(typ)) == Some(old(typ).cells().len() as int),
            resolves(r, *final(mrb), *final(typ)),
            collectable(r, *final(mrb), *final(typ)),
    {
        let slot = typ.cells.len();
        typ.cells.push(HostCell { value: Some(obj), host: 0, held: true });
        assert(typ.cells() =~= old(typ).cells().push((Some(obj), 0, true)));
        let data = mrb.data_object_alloc(DataEntry { class, type_id: typ.id, slot, live: true });
        MrValue::data_value(data)
    }

    /// Succeeds on a live Data object made with `typ`, giving a new owning
    /// handle to its host cell: the host's count goes up by one and the
    /// interpreter's count is left as it was.
    pub fn to_obj<T>(&self, mrb: &MrState, typ: &mut MrDataType<T>) -> (r: Result<MrObj, MrubyError>)
        requires
            old(typ).wf(),
            mrb.contains(*self),
            data_cell(*self, *mrb, *old(typ)) matches Some(k) ==> old(typ).cells()[k].1 + 1 < u64::MAX,
        ensures
            final(typ).wf(),
            final(typ).name() == old(typ).name(),
            final(typ).id() == old(typ).id(),
            resolves(*self, *mrb, *old(typ)) ==> {
                let k = data_cell(*self, *mrb, *old(typ))->0;
                &&& r matches Ok(h) && h.slot() == k && h.type_id() == old(typ).id()
                &&& final(typ).cells() == old(typ).cells().update(k, retained(old(typ).cells()[k]))
            },
            !resolves(*self, *mrb, *old(typ)) ==> {
                &&& is_cast_error(r, "Data(host object)"@)
                &&& final(typ).cells() == old(typ).cells()
            },
    {
        if self.typ() == MrType::MRB_TT_DATA {
            let e = mrb.data_entry(self.word());
            if e.live && e.type_id == typ.id && e.slot < typ.cells.len()
                && typ.cells[e.slot].value.is_some() {
                let host = typ.cells[e.slot].host;
                let cell = &mut typ.cells[e.slot];
                cell.host = host + 1;
                assert(typ.cells() =~= old(typ).cells().update(
                    e.slot as int,
                    retained(old(typ).cells()[e.slot as int]),
                ));
                return Ok(MrObj { slot: e.slot, type_id: typ.id });
            }
        }
        Err(cast_error("Data(host object)"))
    }
}

} // verus!
