use vstd::prelude::*;

use crate::text::push_char;

verus! {

/// A name and a value, as written in a start tag.
#[derive(Debug, PartialEq, Eq)]
pub struct Attribute {
    name: String,
    value: String,
}

/// What an [`Attribute`] holds.
pub struct AttributeView {
    pub name: Seq<char>,
    pub value: Seq<char>,
}

impl View for Attribute {
    type V = AttributeView;

    closed spec fn view(&self) -> AttributeView {
        AttributeView { name: self.name@, value: self.value@ }
    }
}

impl AttributeView {
    /// The attribute after one more character of its name (`is_name`) or of
    /// its value.
    pub open spec fn with_char(self, c: char, is_name: bool) -> AttributeView {
        if is_name {
            AttributeView { name: self.name.push(c), value: self.value }
        } else {
            AttributeView { name: self.name, value: self.value.push(c) }
        }
    }

    pub open spec fn empty() -> AttributeView {
        AttributeView { name: Seq::empty(), value: Seq::empty() }
    }
}

/// The views of a sequence of attributes, in the same order.
pub open spec fn attributes_view(attributes: Seq<Attribute>) -> Seq<AttributeView> {
    attributes.map_values(|a: Attribute| a@)
}

impl Clone for Attribute {
    fn clone(&self) -> (res: Self)
        ensures
            res@ == self@,
    {
        Attribute { name: self.name.clone(), value: self.value.clone() }
    }
}

impl Attribute {
    pub fn new() -> (a: Self)
        ensures
            a@ == AttributeView::empty(),
    {
        Attribute { name: String::new(), value: String::new() }
    }

    pub fn add_char(&mut self, c: char, is_name: bool)
        ensures
            final(self)@ == old(self)@.with_char(c, is_name),
    {
        if is_name {
            push_char(&mut self.name, c);
        } else {
            push_char(&mut self.value, c);
        }
    }

    pub fn name(&self) -> (s: String)
        ensures
            s@ == self@.name,
    {
        self.name.clone()
    }

    pub fn value(&self) -> (s: String)
        ensures
            s@ == self@.value,
    {
        self.value.clone()
    }

    /// Whether the attribute's name is `name`.
    pub fn is_named(&self, name: &str) -> (r: bool)
        ensures
            r == (self@.name == name@),
    {
        crate::text::equals(self.name.as_str(), name)
    }
}

/// A copy of a list of attributes.
pub fn clone_attributes(attributes: &Vec<Attribute>) -> (res: Vec<Attribute>)
    ensures
        attributes_view(res@) == attributes_view(attributes@),
{
    let mut res: Vec<Attribute> = Vec::new();
    let mut i: usize = 0;
    while i < attributes.len()
        invariant
            i <= attributes.len(),
            res@.len() == i,
            forall|j: int| 0 <= j < i ==> res@[j]@ == attributes@[j]@,
        decreases attributes.len() - i,
    {
        res.push(attributes[i].clone());
        i += 1;
    }
    assert(attributes_view(res@) =~= attributes_view(attributes@));
    res
}

} // verus!
