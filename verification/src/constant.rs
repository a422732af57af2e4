//! Literal values.

use vstd::prelude::*;
use crate::context::is_uint_width;
use crate::context::Context;
use crate::irtype::Type;
use crate::irtype::TypeContentView;

verus! {

/// A literal together with its type.
#[derive(Debug, PartialEq, Eq)]
pub struct Constant {
    pub ty: Type,
    pub value: ConstantValue,
}

/// The payload of a [`Constant`].
#[derive(Debug, PartialEq, Eq)]
pub enum ConstantValue {
    Unit,
    Bool(bool),
    Uint(u64),
    B256([u8; 32]),
    String(Vec<u8>),
    Array(Vec<Constant>),
    Struct(Vec<Constant>),
}

/// What a [`Constant`] stands for.
pub struct ConstantView {
    pub ty: Type,
    pub value: ConstantValueView,
}

/// What a [`ConstantValue`] stands for.
pub enum ConstantValueView {
    Unit,
    Bool(bool),
    Uint(u64),
    B256(Seq<u8>),
    String(Seq<u8>),
    Array(Seq<ConstantView>),
    Struct(Seq<ConstantView>),
}

/// The model of a constant: its type, and its payload with every child modelled in turn.
pub open spec fn constant_view(c: Constant) -> ConstantView
    decreases c,
{
    ConstantView {
        ty: c.ty,
        value: match c.value {
            ConstantValue::Unit => ConstantValueView::Unit,
            ConstantValue::Bool(b) => ConstantValueView::Bool(b),
            ConstantValue::Uint(n) => ConstantValueView::Uint(n),
            ConstantValue::B256(bytes) => ConstantValueView::B256(bytes@),
            ConstantValue::String(bytes) => ConstantValueView::String(bytes@),
            ConstantValue::Array(elems) => ConstantValueView::Array(
                Seq::new(
                    elems@.len(),
                    |i: int|
                        if 0 <= i < elems@.len() {
                            constant_view(elems@[i])
                        } else {
                            arbitrary()
                        },
                ),
            ),
            ConstantValue::Struct(fields) => ConstantValueView::Struct(
                Seq::new(
                    fields@.len(),
                    |i: int|
                        if 0 <= i < fields@.len() {
                            constant_view(fields@[i])
                        } else {
                            arbitrary()
                        },
                ),
            ),
        },
    }
}

impl View for Constant {
    type V = ConstantView;

    open spec fn view(&self) -> ConstantView {
        constant_view(*self)
    }
}

/// Whether two 256-bit words hold the same bytes.
fn same_word(a: &[u8; 32], b: &[u8; 32]) -> (same: bool)
    ensures
        same == (a@ == b@),
{
    let mut i: usize = 0;
    while i < 32
        invariant
            i <= 32,
            forall|k: int| 0 <= k < i ==> a@[k] == b@[k],
        decreases 32 - i,
    {
        if a[i] != b[i] {
            return false;
        }
        i += 1;
    }
    assert(a@ =~= b@);
    true
}

/// Whether two byte strings hold the same bytes.
fn same_bytes(a: &Vec<u8>, b: &Vec<u8>) -> (same: bool)
    ensures
        same == (a@ == b@),
{
    if a.len() != b.len() {
        return false;
    }
    let mut i: usize = 0;
    while i < a.len()
        invariant
            i <= a@.len(),
            a@.len() == b@.len(),
            forall|k: int| 0 <= k < i ==> a@[k] == b@[k],
        decreases a@.len() - i,
    {
        if a[i] != b[i] {
            return false;
        }
        i += 1;
    }
    assert(a@ =~= b@);
    true
}

impl Constant {
    /// The constant of the unit type.
    pub fn new_unit(context: &Context) -> (c: Constant)
        requires
            context.types_valid(),
        ensures
            c == (Constant { ty: context.type_for(TypeContentView::Unit), value: ConstantValue::Unit }),
    {
        Constant { ty: Type::get_unit(context), value: ConstantValue::Unit }
    }

    /// A boolean constant.
    pub fn new_bool(context: &Context, b: bool) -> (c: Constant)
        requires
            context.types_valid(),
        ensures
            c == (Constant { ty: context.type_for(TypeContentView::Bool), value: ConstantValue::Bool(b) }),
    {
        Constant { ty: Type::get_bool(context), value: ConstantValue::Bool(b) }
    }

    /// An unsigned integer constant of the given width in bits, which must be
    /// 8, 16, 32, 64 or 256.
    pub fn new_uint(context: &Context, nbits: u16, n: u64) -> (c: Constant)
        requires
            context.types_valid(),
            is_uint_width(nbits),
        ensures
            c == (Constant {
                ty: context.type_for(TypeContentView::Uint(nbits)),
                value: ConstantValue::Uint(n),
            }),
    {
        Constant { ty: Type::get_uint(context, nbits), value: ConstantValue::Uint(n) }
    }

    /// A constant 256-bit word.
    pub fn new_b256(context: &Context, bytes: [u8; 32]) -> (c: Constant)
        requires
            context.types_valid(),
        ensures
            c == (Constant {
                ty: context.type_for(TypeContentView::B256),
                value: ConstantValue::B256(bytes),
            }),
    {
        Constant { ty: Type::get_b256(context), value: ConstantValue::B256(bytes) }
    }

    /// Whether two constants have the same type and the same payload, children included.
    pub fn same_as(&self, other: &Constant) -> (same: bool)
        ensures
            same == (self@ == other@),
        decreases self,
    {
        if self.ty != other.ty {
            return false;
        }
        match (&self.value, &other.value) {
            (ConstantValue::Unit, ConstantValue::Unit) => true,
            (ConstantValue::Bool(a), ConstantValue::Bool(b)) => *a == *b,
            (ConstantValue::Uint(a), ConstantValue::Uint(b)) => *a == *b,
            (ConstantValue::B256(a), ConstantValue::B256(b)) => same_word(a, b),
            (ConstantValue::String(a), ConstantValue::String(b)) => same_bytes(a, b),
            (ConstantValue::Array(a), ConstantValue::Array(b)) => {
                let same = same_constants(a, b);
                proof {
                                        let x = self@.value->Array_0;
                    let y = other@.value->Array_0;
                    if same {
                        assert(x =~= y);
                    } else if a@.len() == b@.len() {
                        let k = choose|k: int| 0 <= k < a@.len() && a@[k]@ != b@[k]@;
                        assert(x[k] == a@[k]@);
                        assert(y[k] == b@[k]@);
                    } else {
                        assert(x.len() != y.len());
                    }
                }
                same
            },
            (ConstantValue::Struct(a), ConstantValue::Struct(b)) => {
                let same = same_constants(a, b);
                proof {
                                        let x = self@.value->Struct_0;
                    let y = other@.value->Struct_0;
                    if same {
                        assert(x =~= y);
                    } else if a@.len() == b@.len() {
                        let k = choose|k: int| 0 <= k < a@.len() && a@[k]@ != b@[k]@;
                        assert(x[k] == a@[k]@);
                        assert(y[k] == b@[k]@);
                    } else {
                        assert(x.len() != y.len());
                    }
                }
                same
            },
            _ => false,
        }
    }
}

/// Whether two lists of constants agree position by position.
fn same_constants(a: &Vec<Constant>, b: &Vec<Constant>) -> (same: bool)
    ensures
        same == (a@.len() == b@.len() && forall|k: int| 0 <= k < a@.len() ==> a@[k]@ == b@[k]@),
    decreases a,
{
    if a.len() != b.len() {
        return false;
    }
    let mut i: usize = 0;
    while i < a.len()
        invariant
            i <= a@.len(),
            a@.len() == b@.len(),
            forall|k: int| 0 <= k < i ==> a@[k]@ == b@[k]@,
        decreases a@.len() - i,
    {
        if !a[i].same_as(&b[i]) {
            return false;
        }
        i += 1;
    }
    true
}

} // verus!
