//! Laws that relate the constructors, the converters and the ownership
//! bridge, stated over the same models as their contracts.

use vstd::prelude::*;

use crate::bridge::{cell_wf, handle_total, reclaimed, released, retained, CellModel};
use crate::state::{
    array_stored, interned, made_array, made_string, str_of, vec_of, MrState,
};
use crate::value::{bool_of, float_bits_of, i32_of, lemma_value_ext, MrType, MrValue};

verus! {

/// A fixnum made from any `i: i32` converts back to exactly `i`: `v` is
/// what `MrValue::fixnum(i)` returns, and `to_i32` gives its payload
/// narrowed to 32 bits.
pub proof fn law_fixnum_round_trip(i: i32, v: MrValue)
    requires
        v.tag() == MrType::MRB_TT_FIXNUM,
        v.int_payload() == i as i64,
    ensures
        i32_of(v) == Some(i),
{
}

/// A boolean made from `b` converts back to exactly `b`.
pub proof fn law_bool_round_trip(b: bool, v: MrValue)
    requires
        v.tag() == (if b { MrType::MRB_TT_TRUE } else { MrType::MRB_TT_FALSE }),
        v.word_payload() == 1,
    ensures
        bool_of(v) == Some(b),
{
}

/// A float made from the encoding `bits` converts back to exactly `bits`.
pub proof fn law_float_round_trip(bits: u64, v: MrValue)
    requires
        v.tag() == MrType::MRB_TT_FLOAT,
        v.float_payload() == bits,
    ensures
        float_bits_of(v) == Some(bits),
{
}

/// A string object made from `s` lies in the instance and `to_str` reads
/// back exactly `s`.
pub proof fn law_string_round_trip(before: MrState, s: Seq<char>, r: MrValue, after: MrState)
    requires
        made_string(before, s, r, after),
    ensures
        after.contains(r),
        str_of(r, after) == Some(s),
{
}

/// A symbol interned from `s` lies in the instance and `to_str` reads back
/// exactly `s`.
pub proof fn law_symbol_round_trip(before: MrState, s: Seq<char>, r: MrValue, after: MrState)
    requires
        interned(before, s, r, after),
    ensures
        after.contains(r),
        str_of(r, after) == Some(s),
{
}

/// Interning the same name twice gives equal values, and the second time
/// leaves the symbol table as it was.
pub proof fn law_symbol_idempotent(
    m0: MrState,
    s: Seq<char>,
    r1: MrValue,
    m1: MrState,
    r2: MrValue,
    m2: MrState,
)
    requires
        m0.wf(),
        m1.wf(),
        interned(m0, s, r1, m1),
        interned(m1, s, r2, m2),
    ensures
        r1 == r2,
        m2.symbols() == m1.symbols(),
{
    assert(m1.symbols().contains(s)) by {
        assert(m1.symbols()[r1.word_payload() as int] == s);
    }
    assert(m2.symbols() == m1.symbols());
    let a = r1.word_payload() as int;
    let b = r2.word_payload() as int;
    if a < b {
        assert(m1.symbols()[a] != m1.symbols()[b]);
    } else if b < a {
        assert(m1.symbols()[b] != m1.symbols()[a]);
    }
    lemma_value_ext(r1, r2);
}

/// An array object made from `items` lies in the instance and `to_vec`
/// reads back exactly `items`, in order and length.
pub proof fn law_array_round_trip(before: MrState, items: Seq<MrValue>, r: MrValue, after: MrState)
    requires
        made_array(before, items, r, after),
    ensures
        after.contains(r),
        vec_of(r, after) == Some(items),
{
}

/// An array changed by the interpreter after it was made reads back as it
/// is at the time of reading: `items` with `x` stored at `i`, grown when
/// `i` lies past its end.
pub proof fn law_array_reflects_mutation(
    m0: MrState,
    items: Seq<MrValue>,
    a: MrValue,
    m1: MrState,
    i: int,
    x: MrValue,
    m2: MrState,
)
    requires
        made_array(m0, items, a, m1),
        0 <= i,
        m2.arrays() == m1.arrays().update(
            a.word_payload() as int,
            array_stored(m1.arrays()[a.word_payload() as int], i, x),
        ),
    ensures
        vec_of(a, m2) == Some(array_stored(items, i, x)),
        m2.arrays()[a.word_payload() as int].len() == (if i < items.len() {
            items.len() as int
        } else {
            i + 1
        }),
        m2.arrays()[a.word_payload() as int][i] == x,
{
}

/// Each converter refuses the other variants: `nil` is neither a fixnum
/// nor a boolean, a fixnum no boolean, a boolean no string and a float no
/// array.
pub proof fn law_cross_variant_fails(
    mrb: MrState,
    nil: MrValue,
    zero: MrValue,
    yes: MrValue,
    one: MrValue,
)
    requires
        nil.tag() == MrType::MRB_TT_FALSE,
        nil.word_payload() == 0,
        zero.tag() == MrType::MRB_TT_FIXNUM,
        yes.tag() == MrType::MRB_TT_TRUE,
        one.tag() == MrType::MRB_TT_FLOAT,
    ensures
        i32_of(nil) is None,
        bool_of(nil) is None,
        bool_of(zero) is None,
        str_of(yes, mrb) is None,
        vec_of(one, mrb) is None,
{
}

/// `c` after the host made `n` more handles to it.
pub open spec fn retained_n<T>(c: CellModel<T>, n: nat) -> CellModel<T>
    decreases n,
{
    if n == 0 {
        c
    } else {
        retained(retained_n(c, (n - 1) as nat))
    }
}

/// `c` after the host dropped `n` of its handles.
pub open spec fn released_n<T>(c: CellModel<T>, n: nat) -> CellModel<T>
    decreases n,
{
    if n == 0 {
        c
    } else {
        released(released_n(c, (n - 1) as nat))
    }
}

/// Every step of the ownership bridge keeps a cell's invariant and moves its
/// handle total by exactly one: a retrieval adds one, a host release or
/// the interpreter's reclaim takes one away. A host release never touches
/// the interpreter's count, and the reclaim never touches the host's.
pub proof fn law_cell_steps<T>(c: CellModel<T>)
    requires
        cell_wf(c),
    ensures
        c.0 is Some && c.1 + 1 < u64::MAX ==> cell_wf(retained(c)) && handle_total(retained(c))
            == handle_total(c) + 1,
        cell_wf(released(c)),
        released(c).2 == c.2,
        c.1 > 0 ==> handle_total(released(c)) + 1 == handle_total(c),
        cell_wf(reclaimed(c)),
        reclaimed(c).1 == c.1,
        c.2 ==> handle_total(reclaimed(c)) + 1 == handle_total(c),
{
}

/// The life of an embedded host value: after `n` retrievals the host holds
/// `n` handles beside the interpreter's one. Whatever the point `j` at which
/// the interpreter reclaims its Data object among the host's `n` releases,
/// the value stays alive until the last of these `n + 1` releases, which
/// frees it, once, leaving no count.
pub proof fn law_object_lifecycle<T>(x: T, n: nat, j: nat, k: nat)
    requires
        j <= n,
        k <= n - j,
    ensures
        retained_n((Some(x), 0nat, true), n) == (Some(x), n, true),
        released_n(retained_n((Some(x), 0nat, true), n), j) == (Some(x), (n - j) as nat, true),
        released_n(reclaimed(released_n(retained_n((Some(x), 0nat, true), n), j)), k) == (if j + k
            == n {
            (None::<T>, 0nat, false)
        } else {
            (Some(x), (n - j - k) as nat, false)
        }),
{
    lemma_retained_n(x, n);
    lemma_released_n(Some(x), n, true, j);
    if j < n {
        lemma_released_n(Some(x), (n - j) as nat, false, k);
    }
}

proof fn lemma_retained_n<T>(x: T, n: nat)
    ensures
        retained_n((Some(x), 0nat, true), n) == (Some(x), n, true),
    decreases n,
{
    if n > 0 {
        lemma_retained_n(x, (n - 1) as nat);
    }
}

proof fn lemma_released_n<T>(v: Option<T>, m: nat, held: bool, k: nat)
    requires
        k <= m,
    ensures
        released_n((v, m, held), k) == (if !held && k == m && k > 0 {
            (None, 0nat, false)
        } else {
            (v, (m - k) as nat, held)
        }),
    decreases k,
{
    if k > 0 {
        lemma_released_n(v, m, held, (k - 1) as nat);
    }
}

} // verus!
