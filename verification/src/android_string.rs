//! The shared record entity: a named text resource with a translatable flag.

use vstd::prelude::*;

verus! {

/// Mathematical model of an [`AndroidString`]: its name, its text value and
/// whether it may be sent out for translation.
pub ghost struct AndroidStringV {
    pub name: Seq<char>,
    pub value: Seq<char>,
    pub translatable: bool,
}

/// One named text resource. Within a single collection names need not be
/// unique on input; every pipeline stage that groups by name converges to
/// exactly one record per name in its output.
#[derive(Debug, PartialEq, Eq)]
pub struct AndroidString {
    name: String,
    value: String,
    translatable: bool,
}

impl View for AndroidString {
    type V = AndroidStringV;

    closed spec fn view(&self) -> AndroidStringV {
        AndroidStringV { name: self.name@, value: self.value@, translatable: self.translatable }
    }
}

impl DeepView for AndroidString {
    type V = AndroidStringV;

    open spec fn deep_view(&self) -> AndroidStringV {
        self.view()
    }
}

impl Clone for AndroidString {
    fn clone(&self) -> (r: Self)
        ensures
            r == *self,
    {
        AndroidString {
            name: self.name.clone(),
            value: self.value.clone(),
            translatable: self.translatable,
        }
    }
}

impl AndroidString {
    pub fn new(name: String, value: String, translatable: bool) -> (r: AndroidString)
        ensures
            r@ == (AndroidStringV { name: name@, value: value@, translatable }),
    {
        AndroidString { name, value, translatable }
    }

    pub fn name(&self) -> (r: &str)
        ensures
            r@ == self@.name,
    {
        self.name.as_str()
    }

    pub fn value(&self) -> (r: &str)
        ensures
            r@ == self@.value,
    {
        self.value.as_str()
    }

    pub fn name_equals(&self, name: &String) -> (r: bool)
        ensures
            r == (self@.name == name@),
    {
        self.name == *name
    }

    pub fn value_equals(&self, value: &String) -> (r: bool)
        ensures
            r == (self@.value == value@),
    {
        self.value == *value
    }

    pub fn is_translatable(&self) -> (r: bool)
        ensures
            r == self@.translatable,
    {
        self.translatable
    }
}

} // verus!
