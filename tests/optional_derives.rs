use std::collections::HashMap;

use structible::{Entry, FieldsOf, Record, Slot};

#[allow(non_camel_case_types)]
#[derive(Clone, Copy, Debug, PartialEq, Eq, Hash, PartialOrd, Ord)]
enum __StructibleField_WithMutRef { Data }
#[allow(non_camel_case_types, dead_code)]
#[derive(Debug, PartialEq)]
enum __StructibleValue_WithMutRef<'a>  { Data(&'a mut i32) }
#[derive(PartialEq)]
pub struct WithMutRef<'a>  { inner: Record<HashMap<Slot<__StructibleField_WithMutRef, ()>, Entry<__StructibleValue_WithMutRef<'a>, ()>>> }
#[derive(PartialEq)]
pub struct WithMutRefFields<'a>  { inner: FieldsOf<HashMap<Slot<__StructibleField_WithMutRef, ()>, Entry<__StructibleValue_WithMutRef<'a>, ()>>> }
impl<'a> std::fmt::Debug for WithMutRef<'a>  {
    fn fmt(&self, f: &mut std::fmt::Formatter<'_>) -> std::fmt::Result {
        let mut d = f.debug_struct("WithMutRef");
        for (_, v) in self.inner.present_fields(&vec![__StructibleField_WithMutRef::Data]) { match v { __StructibleValue_WithMutRef::Data(x) => { d.field("data", x); } } }
        d.finish()
    }
}
impl<'a> std::fmt::Debug for WithMutRefFields<'a>  {
    fn fmt(&self, f: &mut std::fmt::Formatter<'_>) -> std::fmt::Result {
        let mut d = f.debug_struct("WithMutRefFields");
        for (_, v) in self.inner.present_fields(&vec![__StructibleField_WithMutRef::Data]) { match v { __StructibleValue_WithMutRef::Data(x) => { d.field("data", x); } } }
        d.finish()
    }
}
#[allow(dead_code)]
impl<'a> WithMutRef<'a>  {
    pub fn new(data: &'a mut i32) -> Self { WithMutRef { inner: Record::with_fields(vec![(__StructibleField_WithMutRef::Data, __StructibleValue_WithMutRef::Data(data))]) } }
    pub fn data(&self) -> &&'a mut i32 { match self.inner.field(&__StructibleField_WithMutRef::Data) { Some(__StructibleValue_WithMutRef::Data(v)) => v, _ => panic!("required field `data` not present") } }
    pub fn data_mut(&mut self) -> &mut &'a mut i32 { match self.inner.field_mut(&__StructibleField_WithMutRef::Data) { Some(__StructibleValue_WithMutRef::Data(v)) => v, _ => panic!("required field `data` not present") } }
    pub fn set_data(&mut self, value: &'a mut i32) { self.inner.set_field(__StructibleField_WithMutRef::Data, __StructibleValue_WithMutRef::Data(value)) }
    pub fn into_fields(self) -> WithMutRefFields<'a> { WithMutRefFields { inner: self.inner.into_fields() } }
}
#[allow(dead_code)]
impl<'a> WithMutRefFields<'a>  {
    pub fn take_data(&mut self) -> Option<&'a mut i32> { match self.inner.take_field(&__StructibleField_WithMutRef::Data) { Some(__StructibleValue_WithMutRef::Data(v)) => Some(v), _ => None } }
}
#[allow(non_camel_case_types)]
#[derive(Clone, Copy, Debug, PartialEq, Eq, Hash, PartialOrd, Ord)]
enum __StructibleField_WithNoEq { Data }
#[allow(non_camel_case_types, dead_code)]
#[derive(Debug, Clone)]
enum __StructibleValue_WithNoEq  { Data(CloneButNoEq) }
#[derive(Clone)]
pub struct WithNoEq  { inner: Record<HashMap<Slot<__StructibleField_WithNoEq, ()>, Entry<__StructibleValue_WithNoEq, ()>>> }
#[derive(Clone)]
pub struct WithNoEqFields  { inner: FieldsOf<HashMap<Slot<__StructibleField_WithNoEq, ()>, Entry<__StructibleValue_WithNoEq, ()>>> }
impl std::fmt::Debug for WithNoEq  {
    fn fmt(&self, f: &mut std::fmt::Formatter<'_>) -> std::fmt::Result {
        let mut d = f.debug_struct("WithNoEq");
        for (_, v) in self.inner.present_fields(&vec![__StructibleField_WithNoEq::Data]) { match v { __StructibleValue_WithNoEq::Data(x) => { d.field("data", x); } } }
        d.finish()
    }
}
impl std::fmt::Debug for WithNoEqFields  {
    fn fmt(&self, f: &mut std::fmt::Formatter<'_>) -> std::fmt::Result {
        let mut d = f.debug_struct("WithNoEqFields");
        for (_, v) in self.inner.present_fields(&vec![__StructibleField_WithNoEq::Data]) { match v { __StructibleValue_WithNoEq::Data(x) => { d.field("data", x); } } }
        d.finish()
    }
}
#[allow(dead_code)]
impl WithNoEq  {
    pub fn new(data: CloneButNoEq) -> Self { WithNoEq { inner: Record::with_fields(vec![(__StructibleField_WithNoEq::Data, __StructibleValue_WithNoEq::Data(data))]) } }
    pub fn data(&self) -> &CloneButNoEq { match self.inner.field(&__StructibleField_WithNoEq::Data) { Some(__StructibleValue_WithNoEq::Data(v)) => v, _ => panic!("required field `data` not present") } }
    pub fn data_mut(&mut self) -> &mut CloneButNoEq { match self.inner.field_mut(&__StructibleField_WithNoEq::Data) { Some(__StructibleValue_WithNoEq::Data(v)) => v, _ => panic!("required field `data` not present") } }
    pub fn set_data(&mut self, value: CloneButNoEq) { self.inner.set_field(__StructibleField_WithNoEq::Data, __StructibleValue_WithNoEq::Data(value)) }
    pub fn into_fields(self) -> WithNoEqFields { WithNoEqFields { inner: self.inner.into_fields() } }
}
#[allow(dead_code)]
impl WithNoEqFields  {
    pub fn take_data(&mut self) -> Option<CloneButNoEq> { match self.inner.take_field(&__StructibleField_WithNoEq::Data) { Some(__StructibleValue_WithNoEq::Data(v)) => Some(v), _ => None } }
}
#[allow(non_camel_case_types)]
#[derive(Clone, Copy, Debug, PartialEq, Eq, Hash, PartialOrd, Ord)]
enum __StructibleField_WithBoth { Data }
#[allow(non_camel_case_types, dead_code)]
#[derive(Debug)]
enum __StructibleValue_WithBoth<'a>  { Data(&'a mut i32) }
pub struct WithBoth<'a>  { inner: Record<HashMap<Slot<__StructibleField_WithBoth, ()>, Entry<__StructibleValue_WithBoth<'a>, ()>>> }
pub struct WithBothFields<'a>  { inner: FieldsOf<HashMap<Slot<__StructibleField_WithBoth, ()>, Entry<__StructibleValue_WithBoth<'a>, ()>>> }
impl<'a> std::fmt::Debug for WithBoth<'a>  {
    fn fmt(&self, f: &mut std::fmt::Formatter<'_>) -> std::fmt::Result {
        let mut d = f.debug_struct("WithBoth");
        for (_, v) in self.inner.present_fields(&vec![__StructibleField_WithBoth::Data]) { match v { __StructibleValue_WithBoth::Data(x) => { d.field("data", x); } } }
        d.finish()
    }
}
impl<'a> std::fmt::Debug for WithBothFields<'a>  {
    fn fmt(&self, f: &mut std::fmt::Formatter<'_>) -> std::fmt::Result {
        let mut d = f.debug_struct("WithBothFields");
        for (_, v) in self.inner.present_fields(&vec![__StructibleField_WithBoth::Data]) { match v { __StructibleValue_WithBoth::Data(x) => { d.field("data", x); } } }
        d.finish()
    }
}
#[allow(dead_code)]
impl<'a> WithBoth<'a>  {
    pub fn new(data: &'a mut i32) -> Self { WithBoth { inner: Record::with_fields(vec![(__StructibleField_WithBoth::Data, __StructibleValue_WithBoth::Data(data))]) } }
    pub fn data(&self) -> &&'a mut i32 { match self.inner.field(&__StructibleField_WithBoth::Data) { Some(__StructibleValue_WithBoth::Data(v)) => v, _ => panic!("required field `data` not present") } }
    pub fn data_mut(&mut self) -> &mut &'a mut i32 { match self.inner.field_mut(&__StructibleField_WithBoth::Data) { Some(__StructibleValue_WithBoth::Data(v)) => v, _ => panic!("required field `data` not present") } }
    pub fn set_data(&mut self, value: &'a mut i32) { self.inner.set_field(__StructibleField_WithBoth::Data, __StructibleValue_WithBoth::Data(value)) }
    pub fn into_fields(self) -> WithBothFields<'a> { WithBothFields { inner: self.inner.into_fields() } }
}
#[allow(dead_code)]
impl<'a> WithBothFields<'a>  {
    pub fn take_data(&mut self) -> Option<&'a mut i32> { match self.inner.take_field(&__StructibleField_WithBoth::Data) { Some(__StructibleValue_WithBoth::Data(v)) => Some(v), _ => None } }
}
#[allow(non_camel_case_types)]
#[derive(Clone, Copy, Debug, PartialEq, Eq, Hash, PartialOrd, Ord)]
enum __StructibleField_CombinedWithLen { Data, Optional }
#[allow(non_camel_case_types, dead_code)]
#[derive(Debug, PartialEq)]
enum __StructibleValue_CombinedWithLen<'a>  { Data(&'a mut i32), Optional(String) }
#[derive(PartialEq)]
pub struct CombinedWithLen<'a>  { inner: Record<HashMap<Slot<__StructibleField_CombinedWithLen, ()>, Entry<__StructibleValue_CombinedWithLen<'a>, ()>>> }
#[derive(PartialEq)]
pub struct CombinedWithLenFields<'a>  { inner: FieldsOf<HashMap<Slot<__StructibleField_CombinedWithLen, ()>, Entry<__StructibleValue_CombinedWithLen<'a>, ()>>> }
impl<'a> std::fmt::Debug for CombinedWithLen<'a>  {
    fn fmt(&self, f: &mut std::fmt::Formatter<'_>) -> std::fmt::Result {
        let mut d = f.debug_struct("CombinedWithLen");
        for (_, v) in self.inner.present_fields(&vec![__StructibleField_CombinedWithLen::Data, __StructibleField_CombinedWithLen::Optional]) { match v { __StructibleValue_CombinedWithLen::Data(x) => { d.field("data", x); } __StructibleValue_CombinedWithLen::Optional(x) => { d.field("optional", x); } } }
        d.finish()
    }
}
impl<'a> std::fmt::Debug for CombinedWithLenFields<'a>  {
    fn fmt(&self, f: &mut std::fmt::Formatter<'_>) -> std::fmt::Result {
        let mut d = f.debug_struct("CombinedWithLenFields");
        for (_, v) in self.inner.present_fields(&vec![__StructibleField_CombinedWithLen::Data, __StructibleField_CombinedWithLen::Optional]) { match v { __StructibleValue_CombinedWithLen::Data(x) => { d.field("data", x); } __StructibleValue_CombinedWithLen::Optional(x) => { d.field("optional", x); } } }
        d.finish()
    }
}
#[allow(dead_code)]
impl<'a> CombinedWithLen<'a>  {
    pub fn new(data: &'a mut i32) -> Self { CombinedWithLen { inner: Record::with_fields(vec![(__StructibleField_CombinedWithLen::Data, __StructibleValue_CombinedWithLen::Data(data))]) } }
    pub fn data(&self) -> &&'a mut i32 { match self.inner.field(&__StructibleField_CombinedWithLen::Data) { Some(__StructibleValue_CombinedWithLen::Data(v)) => v, _ => panic!("required field `data` not present") } }
    pub fn data_mut(&mut self) -> &mut &'a mut i32 { match self.inner.field_mut(&__StructibleField_CombinedWithLen::Data) { Some(__StructibleValue_CombinedWithLen::Data(v)) => v, _ => panic!("required field `data` not present") } }
    pub fn set_data(&mut self, value: &'a mut i32) { self.inner.set_field(__StructibleField_CombinedWithLen::Data, __StructibleValue_CombinedWithLen::Data(value)) }
    pub fn optional(&self) -> Option<&String> { match self.inner.field(&__StructibleField_CombinedWithLen::Optional) { Some(__StructibleValue_CombinedWithLen::Optional(v)) => Some(v), _ => None } }
    pub fn optional_mut(&mut self) -> Option<&mut String> { match self.inner.field_mut(&__StructibleField_CombinedWithLen::Optional) { Some(__StructibleValue_CombinedWithLen::Optional(v)) => Some(v), _ => None } }
    pub fn set_optional(&mut self, value: String) { self.inner.set_field(__StructibleField_CombinedWithLen::Optional, __StructibleValue_CombinedWithLen::Optional(value)) }
    pub fn remove_optional(&mut self) -> Option<String> { match self.inner.remove_field(&__StructibleField_CombinedWithLen::Optional) { Some(__StructibleValue_CombinedWithLen::Optional(v)) => Some(v), _ => None } }
    pub fn into_fields(self) -> CombinedWithLenFields<'a> { CombinedWithLenFields { inner: self.inner.into_fields() } }
    pub fn len(&self) -> usize { self.inner.len() }
    pub fn is_empty(&self) -> bool { self.inner.is_empty() }
}
#[allow(dead_code)]
impl<'a> CombinedWithLenFields<'a>  {
    pub fn take_data(&mut self) -> Option<&'a mut i32> { match self.inner.take_field(&__StructibleField_CombinedWithLen::Data) { Some(__StructibleValue_CombinedWithLen::Data(v)) => Some(v), _ => None } }
    pub fn take_optional(&mut self) -> Option<String> { match self.inner.take_field(&__StructibleField_CombinedWithLen::Optional) { Some(__StructibleValue_CombinedWithLen::Optional(v)) => Some(v), _ => None } }
}
#[allow(non_camel_case_types)]
#[derive(Clone, Copy, Debug, PartialEq, Eq, Hash, PartialOrd, Ord)]
enum __StructibleField_Normal { Value }
#[allow(non_camel_case_types, dead_code)]
#[derive(Debug, Clone, PartialEq)]
enum __StructibleValue_Normal  { Value(String) }
#[derive(Clone, PartialEq)]
pub struct Normal  { inner: Record<HashMap<Slot<__StructibleField_Normal, ()>, Entry<__StructibleValue_Normal, ()>>> }
#[derive(Clone, PartialEq)]
pub struct NormalFields  { inner: FieldsOf<HashMap<Slot<__StructibleField_Normal, ()>, Entry<__StructibleValue_Normal, ()>>> }
impl std::fmt::Debug for Normal  {
    fn fmt(&self, f: &mut std::fmt::Formatter<'_>) -> std::fmt::Result {
        let mut d = f.debug_struct("Normal");
        for (_, v) in self.inner.present_fields(&vec![__StructibleField_Normal::Value]) { match v { __StructibleValue_Normal::Value(x) => { d.field("value", x); } } }
        d.finish()
    }
}
impl std::fmt::Debug for NormalFields  {
    fn fmt(&self, f: &mut std::fmt::Formatter<'_>) -> std::fmt::Result {
        let mut d = f.debug_struct("NormalFields");
        for (_, v) in self.inner.present_fields(&vec![__StructibleField_Normal::Value]) { match v { __StructibleValue_Normal::Value(x) => { d.field("value", x); } } }
        d.finish()
    }
}
#[allow(dead_code)]
impl Normal  {
    pub fn new(value: String) -> Self { Normal { inner: Record::with_fields(vec![(__StructibleField_Normal::Value, __StructibleValue_Normal::Value(value))]) } }
    pub fn value(&self) -> &String { match self.inner.field(&__StructibleField_Normal::Value) { Some(__StructibleValue_Normal::Value(v)) => v, _ => panic!("required field `value` not present") } }
    pub fn value_mut(&mut self) -> &mut String { match self.inner.field_mut(&__StructibleField_Normal::Value) { Some(__StructibleValue_Normal::Value(v)) => v, _ => panic!("required field `value` not present") } }
    pub fn set_value(&mut self, value: String) { self.inner.set_field(__StructibleField_Normal::Value, __StructibleValue_Normal::Value(value)) }
    pub fn into_fields(self) -> NormalFields { NormalFields { inner: self.inner.into_fields() } }
}
#[allow(dead_code)]
impl NormalFields  {
    pub fn take_value(&mut self) -> Option<String> { match self.inner.take_field(&__StructibleField_Normal::Value) { Some(__StructibleValue_Normal::Value(v)) => Some(v), _ => None } }
}

// Test no_clone with a non-Clone type (mutable reference)

#[test]
fn test_no_clone_with_mut_ref() {
    let mut value = 42;
    let mut obj = WithMutRef::new(&mut value);
    // data() returns &(&mut i32), so we need **
    assert_eq!(**obj.data(), 42);
    **obj.data_mut() = 100;
    assert_eq!(**obj.data(), 100);
}

// A type that implements Clone but not PartialEq
#[derive(Clone, Debug)]
pub struct CloneButNoEq(pub i32);

// Test no_partial_eq with a type that doesn't implement PartialEq

#[test]
fn test_no_partial_eq() {
    let obj = WithNoEq::new(CloneButNoEq(42));
    assert_eq!(obj.data().0, 42);

    // Verify Clone still works when only no_partial_eq is specified
    let _cloned = obj.clone();
}

// Test both flags together

#[test]
fn test_both_flags() {
    let mut value = 10;
    let obj = WithBoth::new(&mut value);
    assert_eq!(**obj.data(), 10);
}

// Test combined with other flags

#[test]
fn test_no_clone_with_len() {
    let mut value = 5;
    let mut obj = CombinedWithLen::new(&mut value);
    assert_eq!(obj.len(), 1); // only required field
    obj.set_optional("test".into());
    assert_eq!(obj.len(), 2);
}

// Test that existing behavior is preserved (no flags = Clone + PartialEq)

#[test]
fn test_normal_is_clone_and_partial_eq() {
    let obj1 = Normal::new("hello".into());
    let obj2 = obj1.clone();
    assert_eq!(obj1, obj2);
}
