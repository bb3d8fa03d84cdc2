use vstd::prelude::*;

use super::emit_atom;
use crate::consume::EventConsumer;
use crate::event::{Atom, AtomModel, Text};
use crate::model::{events_of, ValueModel};
use crate::{Cursor, FoldOutcome, Serializer, Stack};

verus! {

impl Serializer for u8 {
    open spec fn model(&self) -> ValueModel {
        ValueModel::Atom(AtomModel::U64(*self as u64))
    }

    open spec fn is_byte() -> bool {
        true
    }

    open spec fn byte_value(&self) -> u8 {
        *self
    }

    fn estimate_size(&self) -> (n: usize) {
        1
    }

    fn slice_as_bytes(v: &[u8]) -> (r: Option<&[u8]>) {
        proof {
            assert(v@ =~= v@.map_values(|t: u8| t.byte_value()));
        }
        Some(v)
    }

    fn try_fold<'a, C: EventConsumer<'a>>(
        &'a self,
        stack: &mut Stack,
        cursor: Cursor,
        consumer: &mut C,
    ) -> (r: FoldOutcome) {
        emit_atom(Atom::U64(*self as u64), stack, cursor, consumer)
    }
}

impl Serializer for u16 {
    open spec fn model(&self) -> ValueModel {
        ValueModel::Atom(AtomModel::U64(*self as u64))
    }

    open spec fn is_byte() -> bool {
        false
    }

    open spec fn byte_value(&self) -> u8 {
        0
    }

    fn estimate_size(&self) -> (n: usize) {
        1
    }

    fn slice_as_bytes(v: &[u16]) -> (r: Option<&[u8]>) {
        None
    }

    fn try_fold<'a, C: EventConsumer<'a>>(
        &'a self,
        stack: &mut Stack,
        cursor: Cursor,
        consumer: &mut C,
    ) -> (r: FoldOutcome) {
        emit_atom(Atom::U64(*self as u64), stack, cursor, consumer)
    }
}

impl Serializer for u32 {
    open spec fn model(&self) -> ValueModel {
        ValueModel::Atom(AtomModel::U64(*self as u64))
    }

    open spec fn is_byte() -> bool {
        false
    }

    open spec fn byte_value(&self) -> u8 {
        0
    }

    fn estimate_size(&self) -> (n: usize) {
        1
    }

    fn slice_as_bytes(v: &[u32]) -> (r: Option<&[u8]>) {
        None
    }

    fn try_fold<'a, C: EventConsumer<'a>>(
        &'a self,
        stack: &mut Stack,
        cursor: Cursor,
        consumer: &mut C,
    ) -> (r: FoldOutcome) {
        emit_atom(Atom::U64(*self as u64), stack, cursor, consumer)
    }
}

impl Serializer for u64 {
    open spec fn model(&self) -> ValueModel {
        ValueModel::Atom(AtomModel::U64(*self))
    }

    open spec fn is_byte() -> bool {
        false
    }

    open spec fn byte_value(&self) -> u8 {
        0
    }

    fn estimate_size(&self) -> (n: usize) {
        1
    }

    fn slice_as_bytes(v: &[u64]) -> (r: Option<&[u8]>) {
        None
    }

    fn try_fold<'a, C: EventConsumer<'a>>(
        &'a self,
        stack: &mut Stack,
        cursor: Cursor,
        consumer: &mut C,
    ) -> (r: FoldOutcome) {
        emit_atom(Atom::U64(*self), stack, cursor, consumer)
    }
}

impl Serializer for usize {
    open spec fn model(&self) -> ValueModel {
        ValueModel::Atom(AtomModel::U64(*self as u64))
    }

    open spec fn is_byte() -> bool {
        false
    }

    open spec fn byte_value(&self) -> u8 {
        0
    }

    fn estimate_size(&self) -> (n: usize) {
        1
    }

    fn slice_as_bytes(v: &[usize]) -> (r: Option<&[u8]>) {
        None
    }

    fn try_fold<'a, C: EventConsumer<'a>>(
        &'a self,
        stack: &mut Stack,
        cursor: Cursor,
        consumer: &mut C,
    ) -> (r: FoldOutcome) {
        emit_atom(Atom::U64(*self as u64), stack, cursor, consumer)
    }
}

impl Serializer for i8 {
    open spec fn model(&self) -> ValueModel {
        ValueModel::Atom(AtomModel::I64(*self as i64))
    }

    open spec fn is_byte() -> bool {
        false
    }

    open spec fn byte_value(&self) -> u8 {
        0
    }

    fn estimate_size(&self) -> (n: usize) {
        1
    }

    fn slice_as_bytes(v: &[i8]) -> (r: Option<&[u8]>) {
        None
    }

    fn try_fold<'a, C: EventConsumer<'a>>(
        &'a self,
        stack: &mut Stack,
        cursor: Cursor,
        consumer: &mut C,
    ) -> (r: FoldOutcome) {
        emit_atom(Atom::I64(*self as i64), stack, cursor, consumer)
    }
}

impl Serializer for i16 {
    open spec fn model(&self) -> ValueModel {
        ValueModel::Atom(AtomModel::I64(*self as i64))
    }

    open spec fn is_byte() -> bool {
        false
    }

    open spec fn byte_value(&self) -> u8 {
        0
    }

    fn estimate_size(&self) -> (n: usize) {
        1
    }

    fn slice_as_bytes(v: &[i16]) -> (r: Option<&[u8]>) {
        None
    }

    fn try_fold<'a, C: EventConsumer<'a>>(
        &'a self,
        stack: &mut Stack,
        cursor: Cursor,
        consumer: &mut C,
    ) -> (r: FoldOutcome) {
        emit_atom(Atom::I64(*self as i64), stack, cursor, consumer)
    }
}

impl Serializer for i32 {
    open spec fn model(&self) -> ValueModel {
        ValueModel::Atom(AtomModel::I64(*self as i64))
    }

    open spec fn is_byte() -> bool {
        false
    }

    open spec fn byte_value(&self) -> u8 {
        0
    }

    fn estimate_size(&self) -> (n: usize) {
        1
    }

    fn slice_as_bytes(v: &[i32]) -> (r: Option<&[u8]>) {
        None
    }

    fn try_fold<'a, C: EventConsumer<'a>>(
        &'a self,
        stack: &mut Stack,
        cursor: Cursor,
        consumer: &mut C,
    ) -> (r: FoldOutcome) {
        emit_atom(Atom::I64(*self as i64), stack, cursor, consumer)
    }
}

impl Serializer for i64 {
    open spec fn model(&self) -> ValueModel {
        ValueModel::Atom(AtomModel::I64(*self))
    }

    open spec fn is_byte() -> bool {
        false
    }

    open spec fn byte_value(&self) -> u8 {
        0
    }

    fn estimate_size(&self) -> (n: usize) {
        1
    }

    fn slice_as_bytes(v: &[i64]) -> (r: Option<&[u8]>) {
        None
    }

    fn try_fold<'a, C: EventConsumer<'a>>(
        &'a self,
        stack: &mut Stack,
        cursor: Cursor,
        consumer: &mut C,
    ) -> (r: FoldOutcome) {
        emit_atom(Atom::I64(*self), stack, cursor, consumer)
    }
}

impl Serializer for isize {
    open spec fn model(&self) -> ValueModel {
        ValueModel::Atom(AtomModel::I64(*self as i64))
    }

    open spec fn is_byte() -> bool {
        false
    }

    open spec fn byte_value(&self) -> u8 {
        0
    }

    fn estimate_size(&self) -> (n: usize) {
        1
    }

    fn slice_as_bytes(v: &[isize]) -> (r: Option<&[u8]>) {
        None
    }

    fn try_fold<'a, C: EventConsumer<'a>>(
        &'a self,
        stack: &mut Stack,
        cursor: Cursor,
        consumer: &mut C,
    ) -> (r: FoldOutcome) {
        emit_atom(Atom::I64(*self as i64), stack, cursor, consumer)
    }
}

impl Serializer for bool {
    open spec fn model(&self) -> ValueModel {
        ValueModel::Atom(AtomModel::Bool(*self))
    }

    open spec fn is_byte() -> bool {
        false
    }

    open spec fn byte_value(&self) -> u8 {
        0
    }

    fn estimate_size(&self) -> (n: usize) {
        1
    }

    fn slice_as_bytes(v: &[bool]) -> (r: Option<&[u8]>) {
        None
    }

    fn try_fold<'a, C: EventConsumer<'a>>(
        &'a self,
        stack: &mut Stack,
        cursor: Cursor,
        consumer: &mut C,
    ) -> (r: FoldOutcome) {
        emit_atom(Atom::Bool(*self), stack, cursor, consumer)
    }
}

impl Serializer for char {
    open spec fn model(&self) -> ValueModel {
        ValueModel::Atom(AtomModel::Char(*self))
    }

    open spec fn is_byte() -> bool {
        false
    }

    open spec fn byte_value(&self) -> u8 {
        0
    }

    fn estimate_size(&self) -> (n: usize) {
        1
    }

    fn slice_as_bytes(v: &[char]) -> (r: Option<&[u8]>) {
        None
    }

    fn try_fold<'a, C: EventConsumer<'a>>(
        &'a self,
        stack: &mut Stack,
        cursor: Cursor,
        consumer: &mut C,
    ) -> (r: FoldOutcome) {
        emit_atom(Atom::Char(*self), stack, cursor, consumer)
    }
}

impl<'s> Serializer for &'s str {
    open spec fn model(&self) -> ValueModel {
        ValueModel::Atom(AtomModel::Str((*self)@))
    }

    open spec fn is_byte() -> bool {
        false
    }

    open spec fn byte_value(&self) -> u8 {
        0
    }

    fn estimate_size(&self) -> (n: usize) {
        1
    }

    fn slice_as_bytes<'x>(v: &'x [&'s str]) -> (r: Option<&'x [u8]>) {
        None
    }

    fn try_fold<'a, C: EventConsumer<'a>>(
        &'a self,
        stack: &mut Stack,
        cursor: Cursor,
        consumer: &mut C,
    ) -> (r: FoldOutcome) {
        emit_atom(Atom::Str(Text::Borrowed(*self)), stack, cursor, consumer)
    }
}

impl Serializer for String {
    open spec fn model(&self) -> ValueModel {
        ValueModel::Atom(AtomModel::Str(self@))
    }

    open spec fn is_byte() -> bool {
        false
    }

    open spec fn byte_value(&self) -> u8 {
        0
    }

    fn estimate_size(&self) -> (n: usize) {
        1
    }

    fn slice_as_bytes(v: &[String]) -> (r: Option<&[u8]>) {
        None
    }

    fn try_fold<'a, C: EventConsumer<'a>>(
        &'a self,
        stack: &mut Stack,
        cursor: Cursor,
        consumer: &mut C,
    ) -> (r: FoldOutcome) {
        emit_atom(Atom::Str(Text::Borrowed(self.as_str())), stack, cursor, consumer)
    }
}

} // verus!
