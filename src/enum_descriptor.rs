use vstd::prelude::*;

verus! {

/// One named value of an enum type.
#[derive(Debug)]
pub struct EnumValue {
    pub name: String,
    pub number: i32,
}

impl View for EnumValue {
    type V = (Seq<char>, i32);

    open spec fn view(&self) -> (Seq<char>, i32) {
        (self.name@, self.number)
    }
}

impl Clone for EnumValue {
    fn clone(&self) -> (r: Self)
        ensures
            r == *self,
    {
        EnumValue { name: self.name.clone(), number: self.number }
    }
}

/// An enum type with its values, in declaration order.
#[derive(Debug)]
pub struct EnumDescriptor {
    values: Vec<EnumValue>,
}

impl View for EnumDescriptor {
    type V = Seq<(Seq<char>, i32)>;

    closed spec fn view(&self) -> Seq<(Seq<char>, i32)> {
        self.values@.map_values(|v: EnumValue| v@)
    }
}

/// Copies a sequence of enum values.
pub(crate) fn clone_values(values: &Vec<EnumValue>) -> (r: Vec<EnumValue>)
    ensures
        r@ == values@,
{
    let mut out: Vec<EnumValue> = Vec::new();
    let mut i: usize = 0;
    while i < values.len()
        invariant
            i <= values.len(),
            out@ == values@.take(i as int),
        decreases values.len() - i,
    {
        out.push(values[i].clone());
        assert(values@.take(i + 1) == values@.take(i as int).push(values@[i as int]));
        i = i + 1;
    }
    assert(values@.take(values.len() as int) == values@);
    out
}

impl Clone for EnumDescriptor {
    fn clone(&self) -> (r: Self)
        ensures
            r@ == self@,
    {
        EnumDescriptor { values: clone_values(&self.values) }
    }
}

impl EnumDescriptor {
    /// An enum with the given values, kept as they are.
    pub fn new(values: Vec<EnumValue>) -> (r: Self)
        ensures
            r@ == values@.map_values(|v: EnumValue| v@),
    {
        EnumDescriptor { values }
    }

    /// The values, in declaration order.
    pub fn get_values(&self) -> (r: Vec<EnumValue>)
        ensures
            r@.map_values(|v: EnumValue| v@) == self@,
    {
        clone_values(&self.values)
    }
}

} // verus!
