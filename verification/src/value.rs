//! Values exchanged with the database engine, and the conversion of
//! caller parameters into them.

use vstd::prelude::*;

use crate::engine::{ColumnValue, ColumnView};
use crate::text::{lossy_utf8, utf8_lossy};

verus! {

/// A single SQLite value.
///
/// A real number is carried by the bit pattern of its IEEE 754 double
/// (`f64::to_bits`), so that reals can pass through verified code as
/// plain integers.
#[derive(Debug, Clone, PartialEq)]
pub enum Value {
    Null,
    Integer(i64),
    Real(u64),
    Text(String),
    Blob(Vec<u8>),
}

/// The mathematical model of a [`Value`].
pub enum ValueView {
    Null,
    Integer(i64),
    Real(u64),
    Text(Seq<char>),
    Blob(Seq<u8>),
}

impl View for Value {
    type V = ValueView;

    open spec fn view(&self) -> ValueView {
        match self {
            Value::Null => ValueView::Null,
            Value::Integer(i) => ValueView::Integer(*i),
            Value::Real(bits) => ValueView::Real(*bits),
            Value::Text(s) => ValueView::Text(s@),
            Value::Blob(b) => ValueView::Blob(b@),
        }
    }
}

impl Value {
    /// A copy of this value with the same model.
    pub fn duplicate(&self) -> (r: Value)
        ensures
            r@ == self@,
    {
        match self {
            Value::Null => Value::Null,
            Value::Integer(i) => Value::Integer(*i),
            Value::Real(bits) => Value::Real(*bits),
            Value::Text(s) => Value::Text(s.clone()),
            Value::Blob(b) => {
                let c = b.clone();
                assert(c@ =~= b@);
                Value::Blob(c)
            },
        }
    }
}

impl From<i64> for Value {
    fn from(value: i64) -> (r: Value) {
        Value::Integer(value)
    }
}

impl vstd::std_specs::convert::FromSpecImpl<i64> for Value {
    open spec fn obeys_from_spec() -> bool {
        true
    }

    open spec fn from_spec(v: i64) -> Value {
        Value::Integer(v)
    }
}

impl From<i32> for Value {
    fn from(value: i32) -> (r: Value) {
        Value::Integer(value as i64)
    }
}

impl vstd::std_specs::convert::FromSpecImpl<i32> for Value {
    open spec fn obeys_from_spec() -> bool {
        true
    }

    open spec fn from_spec(v: i32) -> Value {
        Value::Integer(v as i64)
    }
}

impl From<String> for Value {
    fn from(value: String) -> (r: Value) {
        Value::Text(value)
    }
}

impl vstd::std_specs::convert::FromSpecImpl<String> for Value {
    open spec fn obeys_from_spec() -> bool {
        true
    }

    open spec fn from_spec(v: String) -> Value {
        Value::Text(v)
    }
}

impl From<&str> for Value {
    fn from(value: &str) -> (r: Value)
        ensures
            r@ == ValueView::Text(value@),
    {
        Value::Text(value.to_owned())
    }
}

/// What `from` returns is stated on `from` itself, since no text value can be
/// built inside a specification; the generic specification is not claimed.
impl vstd::std_specs::convert::FromSpecImpl<&str> for Value {
    open spec fn obeys_from_spec() -> bool {
        false
    }

    open spec fn from_spec(v: &str) -> Value {
        Value::Null
    }
}

impl From<&[u8]> for Value {
    fn from(value: &[u8]) -> (r: Value)
        ensures
            r@ == ValueView::Blob(value@),
    {
        Value::Blob(vstd::slice::slice_to_vec(value))
    }
}

/// What `from` returns is stated on `from` itself; the generic specification
/// is not claimed.
impl vstd::std_specs::convert::FromSpecImpl<&[u8]> for Value {
    open spec fn obeys_from_spec() -> bool {
        false
    }

    open spec fn from_spec(v: &[u8]) -> Value {
        Value::Null
    }
}

impl From<Vec<u8>> for Value {
    fn from(value: Vec<u8>) -> (r: Value) {
        Value::Blob(value)
    }
}

impl vstd::std_specs::convert::FromSpecImpl<Vec<u8>> for Value {
    open spec fn obeys_from_spec() -> bool {
        true
    }

    open spec fn from_spec(v: Vec<u8>) -> Value {
        Value::Blob(v)
    }
}

/// Something that can be bound as a statement parameter.
pub trait ToParam {
    /// The value this parameter binds as.
    spec fn param_view(&self) -> ValueView;

    fn to_param(&self) -> (v: Value)
        ensures
            v@ == self.param_view(),
    ;
}

impl ToParam for Value {
    open spec fn param_view(&self) -> ValueView {
        self@
    }

    fn to_param(&self) -> (v: Value) {
        self.duplicate()
    }
}

impl ToParam for i64 {
    open spec fn param_view(&self) -> ValueView {
        ValueView::Integer(*self)
    }

    fn to_param(&self) -> (v: Value) {
        Value::Integer(*self)
    }
}

impl ToParam for i32 {
    open spec fn param_view(&self) -> ValueView {
        ValueView::Integer(*self as i64)
    }

    fn to_param(&self) -> (v: Value) {
        Value::Integer(*self as i64)
    }
}

impl ToParam for str {
    open spec fn param_view(&self) -> ValueView {
        ValueView::Text(self@)
    }

    fn to_param(&self) -> (v: Value) {
        Value::Text(self.to_owned())
    }
}

impl ToParam for String {
    open spec fn param_view(&self) -> ValueView {
        ValueView::Text(self@)
    }

    fn to_param(&self) -> (v: Value) {
        Value::Text(self.clone())
    }
}

impl ToParam for Vec<u8> {
    open spec fn param_view(&self) -> ValueView {
        ValueView::Blob(self@)
    }

    fn to_param(&self) -> (v: Value) {
        let c = self.clone();
        assert(c@ =~= self@);
        Value::Blob(c)
    }
}

impl ToParam for [u8] {
    open spec fn param_view(&self) -> ValueView {
        ValueView::Blob(self@)
    }

    fn to_param(&self) -> (v: Value) {
        Value::Blob(vstd::slice::slice_to_vec(self))
    }
}

impl<T: ToParam + ?Sized> ToParam for &T {
    open spec fn param_view(&self) -> ValueView {
        (**self).param_view()
    }

    fn to_param(&self) -> (v: Value) {
        (**self).to_param()
    }
}

/// A parameter behind a reference binds as the parameter itself, through any
/// number of references.
pub proof fn param_view_through_reference<T: ToParam + ?Sized>(x: &T)
    ensures
        <&T as ToParam>::param_view(&x) == x.param_view(),
        <&&T as ToParam>::param_view(&&x) == x.param_view(),
{
}

/// `Value::from` gives the value that the same argument binds as: an
/// integer for `i64` and `i32` (sign-extended), text for `String`, a blob
/// for `Vec<u8>`.  (For `&str` and `&[u8]` the same is stated on `from`
/// itself.)
pub proof fn from_agrees_with_to_param(i: i64, j: i32, t: String, b: Vec<u8>)
    ensures
        <Value as vstd::std_specs::convert::FromSpec<i64>>::from_spec(i)@ == i.param_view(),
        <Value as vstd::std_specs::convert::FromSpec<i32>>::from_spec(j)@ == j.param_view(),
        <Value as vstd::std_specs::convert::FromSpec<String>>::from_spec(t)@ == t.param_view(),
        <Value as vstd::std_specs::convert::FromSpec<Vec<u8>>>::from_spec(b)@ == b.param_view(),
{
}

/// The models of the values that `params` bind as, in order.
pub open spec fn param_views<P: ToParam>(params: Seq<P>) -> Seq<ValueView> {
    Seq::new(params.len(), |i: int| params[i].param_view())
}

/// The models of a sequence of values.
pub open spec fn value_views(values: Seq<Value>) -> Seq<ValueView> {
    Seq::new(values.len(), |i: int| values[i]@)
}

/// Converts every parameter into the value it binds as, keeping the order.
pub fn params_to_values<P: ToParam>(params: &[P]) -> (r: Vec<Value>)
    ensures
        value_views(r@) == param_views(params@),
{
    let mut r: Vec<Value> = Vec::new();
    let mut i: usize = 0;
    while i < params.len()
        invariant
            i <= params@.len(),
            r@.len() == i,
            forall|j: int| 0 <= j < i ==> #[trigger] r@[j]@ == params@[j].param_view(),
        decreases params@.len() - i,
    {
        let v = params[i].to_param();
        r.push(v);
        i = i + 1;
    }
    assert(value_views(r@) =~= param_views(params@));
    r
}

/// The value that an engine column value becomes: text bytes decoded as
/// UTF-8 (invalid sequences replaced), everything else unchanged.
pub open spec fn value_of_column(c: ColumnView) -> ValueView {
    match c {
        ColumnView::Null => ValueView::Null,
        ColumnView::Integer(i) => ValueView::Integer(i),
        ColumnView::Real(bits) => ValueView::Real(bits),
        ColumnView::Text(t) => ValueView::Text(lossy_utf8(t)),
        ColumnView::Blob(b) => ValueView::Blob(b),
    }
}

/// The value that the engine column value `c` becomes.
pub open spec fn column_view(c: ColumnValue) -> ValueView {
    value_of_column(c@)
}

/// The values that the engine row `row` becomes, column by column.
pub open spec fn values_of_row(row: Seq<ColumnView>) -> Seq<ValueView> {
    row.map_values(|c: ColumnView| value_of_column(c))
}

/// Turns a column value read from the engine into a [`Value`].
pub fn value_from_ref(c: ColumnValue) -> (v: Value)
    ensures
        v@ == column_view(c),
{
    match c {
        ColumnValue::Null => Value::Null,
        ColumnValue::Integer(i) => Value::Integer(i),
        ColumnValue::Real(bits) => Value::Real(bits),
        ColumnValue::Text(t) => Value::Text(utf8_lossy(t.as_slice())),
        ColumnValue::Blob(b) => Value::Blob(b),
    }
}

/// Turns the column values of one engine row into [`Value`]s, in order.
pub fn values_from_refs(row: Vec<ColumnValue>) -> (r: Vec<Value>)
    ensures
        r@.len() == row@.len(),
        forall|i: int| 0 <= i < row@.len() ==> (#[trigger] r@[i])@ == column_view(row@[i]),
{
    let mut row = row;
    let ghost all = row@;
    let mut backwards: Vec<Value> = Vec::new();
    while row.len() > 0
        invariant
            row@ == all.subrange(0, row@.len() as int),
            row@.len() + backwards@.len() == all.len(),
            forall|j: int|
                0 <= j < backwards@.len() ==> (#[trigger] backwards@[j])@ == column_view(
                    all[all.len() - 1 - j],
                ),
        decreases row@.len(),
    {
        let c = row.pop().unwrap();
        backwards.push(value_from_ref(c));
    }
    let mut r: Vec<Value> = Vec::new();
    while backwards.len() > 0
        invariant
            r@.len() + backwards@.len() == all.len(),
            forall|j: int|
                0 <= j < backwards@.len() ==> (#[trigger] backwards@[j])@ == column_view(
                    all[all.len() - 1 - j],
                ),
            forall|j: int| 0 <= j < r@.len() ==> (#[trigger] r@[j])@ == column_view(all[j]),
        decreases backwards@.len(),
    {
        let v = backwards.pop().unwrap();
        r.push(v);
    }
    r
}

} // verus!
