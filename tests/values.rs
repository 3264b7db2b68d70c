use mrusty::bridge::MrDataType;
use mrusty::state::MrState;
use mrusty::value::{MrType, MrValue, MrubyError};

fn cast_name<T>(r: Result<T, MrubyError>) -> String {
    match r {
        Err(MrubyError::Cast(name)) => name,
        Ok(_) => panic!("expected a cast failure"),
    }
}

#[test]
fn fixnum_round_trips() {
    for i in [0, 1, -1, 42, i32::MIN, i32::MAX] {
        assert_eq!(MrValue::fixnum(i).to_i32().unwrap(), i);
    }
}

#[test]
fn bool_round_trips() {
    assert_eq!(MrValue::bool(true).to_bool().unwrap(), true);
    assert_eq!(MrValue::bool(false).to_bool().unwrap(), false);
    assert_eq!(MrValue::bool(true).typ(), MrType::MRB_TT_TRUE);
    assert_eq!(MrValue::bool(false).typ(), MrType::MRB_TT_FALSE);
}

#[test]
fn nil_is_no_boolean() {
    assert_eq!(cast_name(MrValue::nil().to_bool()), "TrueClass or FalseClass");
    assert_eq!(MrValue::nil().typ(), MrType::MRB_TT_FALSE);
    assert!(MrValue::nil() != MrValue::bool(false));
}

#[test]
fn float_round_trips() {
    for f in [0.0f64, -0.0, 1.5, -2.25, f64::MAX, f64::MIN_POSITIVE] {
        let v = MrValue::float_bits(f.to_bits());
        assert_eq!(v.typ(), MrType::MRB_TT_FLOAT);
        assert_eq!(f64::from_bits(v.to_float_bits().unwrap()), f);
    }
}

#[test]
fn string_round_trips() {
    let mut mrb = MrState::new();
    for s in ["", "a", "hello, world", "ünïcödé ✓"] {
        let v = MrValue::string(&mut mrb, s);
        assert_eq!(v.typ(), MrType::MRB_TT_STRING);
        assert_eq!(v.to_str(&mrb).unwrap(), s);
    }
}

#[test]
fn symbol_round_trips() {
    let mut mrb = MrState::new();
    for s in ["", "sym", "ünïcödé"] {
        let v = MrValue::symbol(&mut mrb, s);
        assert_eq!(v.typ(), MrType::MRB_TT_SYMBOL);
        assert_eq!(v.to_str(&mrb).unwrap(), s);
    }
}

#[test]
fn symbol_interning_is_idempotent() {
    let mut mrb = MrState::new();
    let a = MrValue::symbol(&mut mrb, "name");
    let b = MrValue::symbol(&mut mrb, "other");
    let c = MrValue::symbol(&mut mrb, "name");
    assert!(a == c);
    assert!(a != b);
    assert_eq!(a.typ(), c.typ());
}

#[test]
fn strings_are_not_interned() {
    let mut mrb = MrState::new();
    let a = MrValue::string(&mut mrb, "same");
    let b = MrValue::string(&mut mrb, "same");
    assert!(a != b);
    assert_eq!(a.to_str(&mrb).unwrap(), b.to_str(&mrb).unwrap());
}

#[test]
fn array_round_trips() {
    let mut mrb = MrState::new();
    let empty = MrValue::array(&mut mrb, vec![]);
    assert_eq!(empty.to_vec(&mrb).unwrap().len(), 0);

    let items = vec![MrValue::fixnum(3), MrValue::fixnum(2), MrValue::fixnum(1)];
    let v = MrValue::array(&mut mrb, items.clone());
    let back = v.to_vec(&mrb).unwrap();
    assert_eq!(back.len(), 3);
    for (x, y) in back.iter().zip(items.iter()) {
        assert!(x == y);
    }
}

#[test]
fn array_of_mixed_values() {
    let mut mrb = MrState::new();
    let s = MrValue::string(&mut mrb, "a");
    let v = MrValue::array(&mut mrb, vec![MrValue::fixnum(1), s, MrValue::bool(true)]);
    let back = v.to_vec(&mrb).unwrap();
    assert_eq!(back.len(), 3);
    assert_eq!(back[0].to_i32().unwrap(), 1);
    assert_eq!(back[1].to_str(&mrb).unwrap(), "a");
    assert_eq!(back[2].to_bool().unwrap(), true);
}

#[test]
fn to_vec_reads_the_array_as_it_is_now() {
    let mut mrb = MrState::new();
    let v = MrValue::array(&mut mrb, vec![MrValue::fixnum(1), MrValue::fixnum(2)]);
    mrb.ary_set(v, 0, MrValue::fixnum(10));
    let back = v.to_vec(&mrb).unwrap();
    assert_eq!(back.len(), 2);
    assert_eq!(back[0].to_i32().unwrap(), 10);
    assert_eq!(back[1].to_i32().unwrap(), 2);

    mrb.ary_set(v, 4, MrValue::fixnum(5));
    let back = v.to_vec(&mrb).unwrap();
    assert_eq!(back.len(), 5);
    assert!(back[2] == MrValue::nil());
    assert!(back[3] == MrValue::nil());
    assert_eq!(back[4].to_i32().unwrap(), 5);
    assert_eq!(mrb.ary_len(v), 5);
}

#[test]
fn cross_variant_conversions_fail() {
    let mut mrb = MrState::new();
    assert_eq!(cast_name(MrValue::nil().to_i32()), "Fixnum");
    assert_eq!(cast_name(MrValue::fixnum(0).to_bool()), "TrueClass or FalseClass");
    assert_eq!(cast_name(MrValue::bool(true).to_str(&mrb)), "String");
    let f = MrValue::float_bits(1.0f64.to_bits());
    assert_eq!(cast_name(f.to_vec(&mrb)), "Array");
    let s = MrValue::string(&mut mrb, "x");
    assert_eq!(cast_name(s.to_float_bits()), "Float");
    assert_eq!(cast_name(s.to_class()), "Class");
    assert_eq!(cast_name(s.to_module()), "Module");
    assert_eq!(cast_name(s.to_ptr()), "Pointer");
}

#[test]
fn classes_and_modules() {
    let mut mrb = MrState::new();
    let c = mrb.define_class("Point");
    let m = mrb.define_module("Geometry");
    let cv = MrValue::class(c);
    let mv = MrValue::class(m);
    assert_eq!(cv.typ(), MrType::MRB_TT_CLASS);
    assert_eq!(mv.typ(), MrType::MRB_TT_MODULE);
    assert_eq!(cv.to_class().unwrap(), c);
    assert_eq!(mv.to_module().unwrap(), m);
    assert_eq!(cast_name(cv.to_module()), "Module");
    assert_eq!(cast_name(mv.to_class()), "Class");
}

#[test]
fn pointers_are_carried() {
    let mrb = MrState::new();
    let v = MrValue::ptr(&mrb, 0xdead_beef);
    assert_eq!(v.typ(), MrType::MRB_TT_CPTR);
    assert_eq!(v.to_ptr().unwrap(), 0xdead_beef);
    assert_eq!(cast_name(MrValue::fixnum(1).to_ptr()), "Pointer");
}

#[derive(Debug, PartialEq)]
struct Point {
    x: i32,
    y: i32,
}

#[test]
fn embedded_object_round_trips() {
    let mut mrb = MrState::new();
    let class = mrb.define_class("Point");
    let mut typ: MrDataType<Point> = mrb.data_type("Point");
    assert_eq!(typ.name_str(), "Point");
    let v = MrValue::obj(&mut mrb, class, Point { x: 1, y: 2 }, &mut typ);
    assert_eq!(v.typ(), MrType::MRB_TT_DATA);
    let h = v.to_obj(&mrb, &mut typ).unwrap();
    assert_eq!(typ.borrow(&h), Some(&Point { x: 1, y: 2 }));
    assert!(typ.set(&h, Point { x: 3, y: 4 }));
    let h2 = v.to_obj(&mrb, &mut typ).unwrap();
    assert_eq!(typ.borrow(&h2), Some(&Point { x: 3, y: 4 }));
    assert_eq!(typ.handle_count(&h2), 3);
    typ.release(h);
    assert_eq!(typ.handle_count(&h2), 2);
    typ.release(h2);
}

struct Tracker {
    drops: std::rc::Rc<std::cell::Cell<usize>>,
}

impl Drop for Tracker {
    fn drop(&mut self) {
        self.drops.set(self.drops.get() + 1);
    }
}

#[test]
fn releasing_every_handle_frees_the_value_once() {
    for n in 0..4 {
        let drops = std::rc::Rc::new(std::cell::Cell::new(0usize));
        let mut mrb = MrState::new();
        let class = mrb.define_class("Tracker");
        let mut typ: MrDataType<Tracker> = mrb.data_type("Tracker");
        let v = MrValue::obj(&mut mrb, class, Tracker { drops: drops.clone() }, &mut typ);
        let mut handles = Vec::new();
        for _ in 0..n {
            handles.push(v.to_obj(&mrb, &mut typ).unwrap());
        }
        if let Some(h) = handles.first() {
            assert_eq!(typ.handle_count(h), n as u64 + 1);
        }
        for h in handles {
            typ.release(h);
            assert_eq!(drops.get(), 0);
        }
        assert!(mrb.collect(v, &mut typ));
        assert_eq!(drops.get(), 1);
        assert!(!mrb.collect(v, &mut typ));
        assert_eq!(drops.get(), 1);
    }
}

#[test]
fn collection_before_release_keeps_the_value_alive() {
    let drops = std::rc::Rc::new(std::cell::Cell::new(0usize));
    let mut mrb = MrState::new();
    let class = mrb.define_class("Tracker");
    let mut typ: MrDataType<Tracker> = mrb.data_type("Tracker");
    let v = MrValue::obj(&mut mrb, class, Tracker { drops: drops.clone() }, &mut typ);
    let h = v.to_obj(&mrb, &mut typ).unwrap();
    assert!(mrb.collect(v, &mut typ));
    assert_eq!(drops.get(), 0);
    assert!(typ.borrow(&h).is_some());
    assert_eq!(typ.handle_count(&h), 1);
    typ.release(h);
    assert_eq!(drops.get(), 1);
}

#[test]
fn to_obj_rejects_other_variants_and_descriptors() {
    let mut mrb = MrState::new();
    let class = mrb.define_class("Point");
    let mut points: MrDataType<Point> = mrb.data_type("Point");
    let mut others: MrDataType<Point> = mrb.data_type("Other");
    let v = MrValue::obj(&mut mrb, class, Point { x: 0, y: 0 }, &mut points);
    assert_eq!(cast_name(v.to_obj(&mrb, &mut others)), "Data(host object)");
    assert_eq!(cast_name(MrValue::fixnum(1).to_obj(&mrb, &mut points)), "Data(host object)");
    let h = v.to_obj(&mrb, &mut points).unwrap();
    assert_eq!(others.borrow(&h), None);
    points.release(h);
}

#[test]
fn a_handle_never_drops_the_interpreters_count() {
    let drops = std::rc::Rc::new(std::cell::Cell::new(0usize));
    let mut first = MrState::new();
    let first_class = first.define_class("Tracker");
    let mut first_typ: MrDataType<Tracker> = first.data_type("Tracker");
    let first_value = MrValue::obj(&mut first, first_class, Tracker { drops: drops.clone() }, &mut first_typ);
    let handle = first_value.to_obj(&first, &mut first_typ).unwrap();

    let mut second = MrState::new();
    let second_class = second.define_class("Tracker");
    let mut second_typ: MrDataType<Tracker> = second.data_type("Tracker");
    let second_value = MrValue::obj(&mut second, second_class, Tracker { drops: drops.clone() }, &mut second_typ);

    // Both descriptors have the same identity; the stray release finds no
    // host count in the second cell and leaves the interpreter's alone. The
    // first cell keeps the host count that the stray handle stood for.
    second_typ.release(handle);
    assert_eq!(drops.get(), 0);
    let probe = second_value.to_obj(&second, &mut second_typ).unwrap();
    assert_eq!(second_typ.handle_count(&probe), 2);
    second_typ.release(probe);
    assert!(second.collect(second_value, &mut second_typ));
    assert_eq!(drops.get(), 1);
    assert!(first.collect(first_value, &mut first_typ));
    assert_eq!(drops.get(), 1);
}
