use vstd::prelude::*;
use vstd::string::*;

use crate::descriptor::{Descriptor, DescriptorView};
use crate::error::{BuildErrorView, PrutoipaBuildError, invalid_data, unit_result};
use crate::proto::FileProto;
use crate::syntax::{Syntax, syntax_of};
use crate::table::{
    entries_view,
    find_slot,
    has_name,
    insert_entry,
    insert_named,
    lemma_insert_named_has_name,
    lemma_insert_named_ordered,
    names_ordered,
};

verus! {

/// The types that one schema file declares, kept in name order.
#[derive(Debug)]
pub struct Package {
    syntax: Syntax,
    name: String,
    descriptors: Vec<(String, Descriptor)>,
}

pub struct PackageView {
    pub syntax: Syntax,
    pub name: Seq<char>,
    pub descriptors: Seq<(Seq<char>, DescriptorView)>,
}

impl View for Package {
    type V = PackageView;

    closed spec fn view(&self) -> PackageView {
        PackageView {
            syntax: self.syntax,
            name: self.name@,
            descriptors: entries_view(self.descriptors@),
        }
    }
}

/// A declared string as a character sequence.
pub open spec fn text_of(s: Option<String>) -> Option<Seq<char>> {
    match s {
        Some(t) => Some(t@),
        None => None,
    }
}

/// The dialect and package name that a file declares.
pub open spec fn package_header(f: FileProto) -> Result<(Syntax, Seq<char>), BuildErrorView> {
    match syntax_of(text_of(f.syntax)) {
        Err(e) => Err(e),
        Ok(s) => match f.package {
            None => Err(BuildErrorView::InvalidData("Expected package name."@)),
            Some(n) => Ok((s, n@)),
        },
    }
}

pub open spec fn duplicate_descriptor_msg(name: Seq<char>) -> Seq<char> {
    "Descriptor '"@ + name + "' registered more than once at the same package."@
}

/// Registers a descriptor under a local name that must not be taken yet.
pub open spec fn register_named(
    table: Seq<(Seq<char>, DescriptorView)>,
    name: Seq<char>,
    d: DescriptorView,
) -> Result<Seq<(Seq<char>, DescriptorView)>, BuildErrorView> {
    if has_name(table, name) {
        Err(BuildErrorView::InvalidData(duplicate_descriptor_msg(name)))
    } else {
        Ok(insert_named(table, name, d))
    }
}

/// Once a descriptor is registered under a name, registering another one
/// under the same name in that package fails with an error naming it.
pub proof fn lemma_descriptor_registered_twice(
    table: Seq<(Seq<char>, DescriptorView)>,
    name: Seq<char>,
    first: DescriptorView,
    second: DescriptorView,
)
    requires
        register_named(table, name, first) is Ok,
    ensures
        match register_named(table, name, first) {
            Ok(t) => register_named(t, name, second) == Err::<
                Seq<(Seq<char>, DescriptorView)>,
                BuildErrorView,
            >(BuildErrorView::InvalidData(duplicate_descriptor_msg(name))),
            Err(_) => false,
        },
{
    lemma_insert_named_has_name(table, name, first);
}

/// Copies named descriptors.
fn clone_entries(entries: &Vec<(String, Descriptor)>) -> (r: Vec<(String, Descriptor)>)
    ensures
        entries_view(r@) == entries_view(entries@),
{
    let mut out: Vec<(String, Descriptor)> = Vec::new();
    let mut i: usize = 0;
    while i < entries.len()
        invariant
            i <= entries.len(),
            entries_view(out@) == entries_view(entries@).take(i as int),
        decreases entries.len() - i,
    {
        let name = entries[i].0.clone();
        let d = entries[i].1.clone();
        let ghost before = out@;
        out.push((name, d));
        assert(entries_view(out@) =~= entries_view(before).push((name@, d@)));
        assert(entries_view(entries@).take(i + 1) =~= entries_view(entries@).take(i as int).push(
            (name@, d@),
        ));
        i = i + 1;
    }
    assert(entries_view(entries@).take(entries.len() as int) =~= entries_view(entries@));
    out
}

impl Clone for Package {
    fn clone(&self) -> (r: Self)
        ensures
            r@ == self@,
    {
        Package {
            syntax: self.syntax,
            name: self.name.clone(),
            descriptors: clone_entries(&self.descriptors),
        }
    }
}

impl Package {
    /// Whether the descriptors are in strictly ascending name order.
    pub open spec fn wf(&self) -> bool {
        names_ordered(self@.descriptors)
    }

    /// An empty package with the dialect and name that a file declares.
    pub fn new(file: &FileProto) -> (r: Result<Self, PrutoipaBuildError>)
        ensures
            match (r, package_header(*file)) {
                (Ok(p), Ok((s, n))) => p@ == PackageView {
                    syntax: s,
                    name: n,
                    descriptors: Seq::empty(),
                } && p.wf(),
                (Err(e), Err(e2)) => e@ == e2,
                _ => false,
            },
    {
        let syntax = match Syntax::get(
            match &file.syntax {
                Some(s) => Some(s.as_str()),
                None => None,
            },
        ) {
            Ok(s) => s,
            Err(e) => {
                return Err(e);
            },
        };
        let name = match &file.package {
            Some(n) => n.clone(),
            None => {
                return Err(invalid_data("Expected package name."));
            },
        };
        let p = Package { syntax, name, descriptors: Vec::new() };
        assert(p@.descriptors =~= Seq::<(Seq<char>, DescriptorView)>::empty());
        Ok(p)
    }

    pub fn get_syntax(&self) -> (r: Syntax)
        ensures
            r == self@.syntax,
    {
        self.syntax
    }

    pub fn get_name(&self) -> (r: String)
        ensures
            r@ == self@.name,
    {
        self.name.clone()
    }

    /// The named descriptors, in ascending name order.
    pub fn get_descriptors(&self) -> (r: Vec<(String, Descriptor)>)
        requires
            self.wf(),
        ensures
            entries_view(r@) == self@.descriptors,
            names_ordered(entries_view(r@)),
    {
        clone_entries(&self.descriptors)
    }

    /// Registers a descriptor under a local name that the package does not have yet.
    pub fn register_descriptor(&mut self, name: String, descriptor: Descriptor) -> (r: Result<
        (),
        PrutoipaBuildError,
    >)
        requires
            old(self).wf(),
        ensures
            final(self).wf(),
            final(self)@.syntax == old(self)@.syntax,
            final(self)@.name == old(self)@.name,
            match register_named(old(self)@.descriptors, name@, descriptor@) {
                Ok(t) => r is Ok && final(self)@.descriptors == t,
                Err(e) => unit_result(r) == Err::<(), BuildErrorView>(e) && final(self)@
                    == old(self)@,
            },
    {
        let (at, found) = find_slot(&self.descriptors, &name);
        if found {
            let mut msg = String::from_str("Descriptor '");
            msg.append(name.as_str());
            msg.append("' registered more than once at the same package.");
            return Err(PrutoipaBuildError::InvalidData(msg));
        }
        proof {
            lemma_insert_named_ordered(entries_view(self.descriptors@), name@, descriptor@);
        }
        insert_entry(&mut self.descriptors, at, name, descriptor);
        Ok(())
    }
}

} // verus!
