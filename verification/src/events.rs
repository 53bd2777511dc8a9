//! The structural parse events that a markup tokenizer supplies to the
//! dispatcher, and the attributes carried by element starts. The tokenizer
//! itself is an outside capability; the dispatcher consumes only these
//! plain values.

use vstd::prelude::*;

verus! {

/// Mathematical model of an [`Attribute`].
pub ghost struct AttributeV {
    pub name: Seq<char>,
    pub value: Seq<char>,
}

/// One attribute of an element start: a name and a value.
#[derive(Debug, PartialEq, Eq)]
pub struct Attribute {
    pub name: String,
    pub value: String,
}

impl View for Attribute {
    type V = AttributeV;

    open spec fn view(&self) -> AttributeV {
        AttributeV { name: self.name@, value: self.value@ }
    }
}

impl DeepView for Attribute {
    type V = AttributeV;

    open spec fn deep_view(&self) -> AttributeV {
        self.view()
    }
}

impl Clone for Attribute {
    fn clone(&self) -> (r: Self)
        ensures
            r == *self,
    {
        Attribute { name: self.name.clone(), value: self.value.clone() }
    }
}

/// Mathematical model of a [`ParseEvent`].
pub ghost enum ParseEventV {
    StartElement { tag_name: Seq<char>, attributes: Seq<AttributeV> },
    EndElement,
    Characters(Seq<char>),
    Cdata(Seq<char>),
}

/// One structural parse event: element start with its attributes, element
/// end, a plain-text run, or a literal-block (CDATA) run.
#[derive(Debug, PartialEq, Eq)]
pub enum ParseEvent {
    StartElement { tag_name: String, attributes: Vec<Attribute> },
    EndElement,
    Characters(String),
    Cdata(String),
}

impl View for ParseEvent {
    type V = ParseEventV;

    open spec fn view(&self) -> ParseEventV {
        match self {
            ParseEvent::StartElement { tag_name, attributes } => ParseEventV::StartElement {
                tag_name: tag_name@,
                attributes: attributes.deep_view(),
            },
            ParseEvent::EndElement => ParseEventV::EndElement,
            ParseEvent::Characters(text) => ParseEventV::Characters(text@),
            ParseEvent::Cdata(text) => ParseEventV::Cdata(text@),
        }
    }
}

impl DeepView for ParseEvent {
    type V = ParseEventV;

    open spec fn deep_view(&self) -> ParseEventV {
        self.view()
    }
}

/// An element-wise copy of an attribute list.
pub fn clone_attributes(attributes: &Vec<Attribute>) -> (r: Vec<Attribute>)
    ensures
        r.deep_view() == attributes.deep_view(),
{
    let mut r: Vec<Attribute> = Vec::new();
    let mut i: usize = 0;
    while i < attributes.len()
        invariant
            i <= attributes.len(),
            r@.len() == i,
            forall|k: int| 0 <= k < i ==> r@[k] == attributes@[k],
        decreases attributes.len() - i,
    {
        r.push(attributes[i].clone());
        i = i + 1;
    }
    proof {
        assert(r.deep_view() =~= attributes.deep_view());
    }
    r
}

impl Clone for ParseEvent {
    fn clone(&self) -> (r: Self)
        ensures
            r@ == self@,
    {
        match self {
            ParseEvent::StartElement { tag_name, attributes } => ParseEvent::StartElement {
                tag_name: tag_name.clone(),
                attributes: clone_attributes(attributes),
            },
            ParseEvent::EndElement => ParseEvent::EndElement,
            ParseEvent::Characters(text) => ParseEvent::Characters(text.clone()),
            ParseEvent::Cdata(text) => ParseEvent::Cdata(text.clone()),
        }
    }
}

} // verus!
