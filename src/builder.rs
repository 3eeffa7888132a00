use vstd::prelude::*;
use vstd::string::*;

use crate::descriptor::{Descriptor, DescriptorView};
use crate::enumeration::{enum_lines, generate_enum};
use crate::error::{BuildErrorView, PrutoipaBuildError};
use crate::generator::{lines_view, push_lines};
use crate::message::{generate_message, message_output};
use crate::package::{Package, PackageView};
use crate::package_set::{PackageSet, files_well_formed, packages_wf, register_files};
use crate::proto::FileProto;
use crate::table::entries_view;

verus! {

/// Collects schema files and renders their types as schema implementations.
#[derive(Debug)]
pub struct Builder {
    out_dir: Option<String>,
    package_set: PackageSet,
    generate_enum_values: bool,
}

pub struct BuilderView {
    pub out_dir: Option<Seq<char>>,
    pub packages: Seq<(Seq<char>, PackageView)>,
    pub generate_enum_values: bool,
}

impl View for Builder {
    type V = BuilderView;

    closed spec fn view(&self) -> BuilderView {
        BuilderView {
            out_dir: match self.out_dir {
                Some(d) => Some(d@),
                None => None,
            },
            packages: self.package_set@,
            generate_enum_values: self.generate_enum_values,
        }
    }
}

/// The schema implementation of one declared type.
pub open spec fn descriptor_output(
    package_name: Seq<char>,
    name: Seq<char>,
    d: DescriptorView,
    generate_enum_values: bool,
) -> Result<Seq<Seq<char>>, BuildErrorView> {
    match d {
        DescriptorView::Message(fs) => message_output(package_name, name, fs),
        DescriptorView::Enum(vs) => Ok(enum_lines(package_name, name, vs, generate_enum_values)),
    }
}

/// The schema implementations of the declared types, one after another, or
/// the first error.
pub open spec fn descriptors_output(
    package_name: Seq<char>,
    ds: Seq<(Seq<char>, DescriptorView)>,
    generate_enum_values: bool,
) -> Result<Seq<Seq<char>>, BuildErrorView>
    decreases ds.len(),
{
    if ds.len() == 0 {
        Ok(Seq::empty())
    } else {
        match descriptors_output(package_name, ds.drop_last(), generate_enum_values) {
            Err(e) => Err(e),
            Ok(prev) => match descriptor_output(
                package_name,
                ds.last().0,
                ds.last().1,
                generate_enum_values,
            ) {
                Err(e) => Err(e),
                Ok(lines) => Ok(prev + lines),
            },
        }
    }
}

/// The text of a package: the schema implementations of its types in name order.
pub open spec fn package_output(p: PackageView, generate_enum_values: bool) -> Result<
    Seq<Seq<char>>,
    BuildErrorView,
> {
    descriptors_output(p.name, p.descriptors, generate_enum_values)
}

/// The text of every package, in package name order, or the first error.
pub open spec fn packages_output(
    ps: Seq<(Seq<char>, PackageView)>,
    generate_enum_values: bool,
) -> Result<Seq<(Seq<char>, Seq<Seq<char>>)>, BuildErrorView>
    decreases ps.len(),
{
    if ps.len() == 0 {
        Ok(Seq::empty())
    } else {
        match packages_output(ps.drop_last(), generate_enum_values) {
            Err(e) => Err(e),
            Ok(prev) => match package_output(ps.last().1, generate_enum_values) {
                Err(e) => Err(e),
                Ok(lines) => Ok(prev.push((ps.last().0, lines))),
            },
        }
    }
}

/// Named texts with their names and lines as character sequences.
pub open spec fn outputs_view(outputs: Seq<(String, Vec<String>)>) -> Seq<
    (Seq<char>, Seq<Seq<char>>),
> {
    outputs.map_values(|o: (String, Vec<String>)| (o.0@, lines_view(o.1@)))
}

pub proof fn lemma_descriptors_output_error_persists(
    package_name: Seq<char>,
    ds: Seq<(Seq<char>, DescriptorView)>,
    generate_enum_values: bool,
    k: int,
)
    requires
        0 <= k <= ds.len(),
        descriptors_output(package_name, ds.take(k), generate_enum_values) is Err,
    ensures
        descriptors_output(package_name, ds, generate_enum_values) == descriptors_output(
            package_name,
            ds.take(k),
            generate_enum_values,
        ),
    decreases ds.len(),
{
    if k == ds.len() {
        assert(ds.take(k) == ds);
    } else {
        assert(ds.drop_last().take(k) == ds.take(k));
        lemma_descriptors_output_error_persists(
            package_name,
            ds.drop_last(),
            generate_enum_values,
            k,
        );
    }
}

pub proof fn lemma_packages_output_error_persists(
    ps: Seq<(Seq<char>, PackageView)>,
    generate_enum_values: bool,
    k: int,
)
    requires
        0 <= k <= ps.len(),
        packages_output(ps.take(k), generate_enum_values) is Err,
    ensures
        packages_output(ps, generate_enum_values) == packages_output(
            ps.take(k),
            generate_enum_values,
        ),
    decreases ps.len(),
{
    if k == ps.len() {
        assert(ps.take(k) == ps);
    } else {
        assert(ps.drop_last().take(k) == ps.take(k));
        lemma_packages_output_error_persists(ps.drop_last(), generate_enum_values, k);
    }
}

/// The name of the file that holds the text of a package.
pub open spec fn output_file_name_of(package_name: Seq<char>) -> Seq<char> {
    package_name + ".utoipa.rs"@
}

/// The name of the file that holds the text of a package.
pub fn output_file_name(package_name: &String) -> (r: String)
    ensures
        r@ == output_file_name_of(package_name@),
{
    let mut name = package_name.clone();
    name.append(".utoipa.rs");
    name
}

/// The schema implementations of the types of one package, in name order.
pub fn generate_package(package: &Package, generate_enum_values: bool) -> (r: Result<
    Vec<String>,
    PrutoipaBuildError,
>)
    requires
        package.wf(),
    ensures
        match (r, package_output(package@, generate_enum_values)) {
            (Ok(lines), Ok(expected)) => lines_view(lines@) == expected,
            (Err(e), Err(expected)) => e@ == expected,
            _ => false,
        },
{
    let package_name = package.get_name();
    let descriptors = package.get_descriptors();
    let ghost ds = package@.descriptors;
    let mut out: Vec<String> = Vec::new();
    let mut i: usize = 0;
    assert(ds.take(0) =~= Seq::<(Seq<char>, DescriptorView)>::empty());
    assert(lines_view(out@) =~= Seq::<Seq<char>>::empty());
    while i < descriptors.len()
        invariant
            i <= descriptors.len(),
            ds == package@.descriptors,
            entries_view(descriptors@) == ds,
            package_name@ == package@.name,
            descriptors_output(package_name@, ds.take(i as int), generate_enum_values) == Ok::<
                Seq<Seq<char>>,
                BuildErrorView,
            >(lines_view(out@)),
        decreases descriptors.len() - i,
    {
        let entry = &descriptors[i];
        assert(ds.take(i + 1).drop_last() =~= ds.take(i as int));
        assert(ds.take(i + 1).last() == (entry.0@, entry.1@));
        let generated = match &entry.1 {
            Descriptor::Message(message) => generate_message(
                package_name.clone(),
                entry.0.clone(),
                message.clone(),
            ),
            Descriptor::Enum(enum_descriptor) => Ok(
                generate_enum(
                    package_name.clone(),
                    entry.0.clone(),
                    enum_descriptor.clone(),
                    generate_enum_values,
                ),
            ),
        };
        match generated {
            Ok(lines) => {
                push_lines(&mut out, lines);
            },
            Err(e) => {
                proof {
                    lemma_descriptors_output_error_persists(
                        package_name@,
                        ds,
                        generate_enum_values,
                        i + 1,
                    );
                }
                return Err(e);
            },
        }
        i = i + 1;
    }
    assert(ds.take(descriptors.len() as int) =~= ds);
    Ok(out)
}

impl Default for Builder {
    fn default() -> (r: Self)
        ensures
            r@.out_dir is None,
            r@.packages == Seq::<(Seq<char>, PackageView)>::empty(),
            !r@.generate_enum_values,
            r.wf(),
    {
        Builder::new()
    }
}

impl Builder {
    /// Whether the registered packages are well formed.
    pub open spec fn wf(&self) -> bool {
        packages_wf(self@.packages)
    }

    /// A builder with no packages, no output directory, and enum value lists off.
    pub fn new() -> (r: Self)
        ensures
            r@.out_dir is None,
            r@.packages == Seq::<(Seq<char>, PackageView)>::empty(),
            !r@.generate_enum_values,
            r.wf(),
    {
        Builder { out_dir: None, package_set: PackageSet::new(), generate_enum_values: false }
    }

    /// Sets the directory that generated files are written to.
    pub fn out_dir(&mut self, path: String) -> (r: &mut Self)
        ensures
            r@.out_dir == Some(path@),
            r@.packages == old(self)@.packages,
            r@.generate_enum_values == old(self)@.generate_enum_values,
            *final(self) == *final(r),
    {
        self.out_dir = Some(path);
        self
    }

    /// Makes enum schemas also list their legal values.
    pub fn generate_enum_values(&mut self) -> (r: &mut Self)
        ensures
            r@.out_dir == old(self)@.out_dir,
            r@.packages == old(self)@.packages,
            r@.generate_enum_values,
            *final(self) == *final(r),
    {
        self.generate_enum_values = true;
        self
    }

    /// Registers the packages of schema files, in order, stopping at the first error.
    pub fn register_descriptors(&mut self, fds: Vec<FileProto>) -> (r: Result<
        &mut Self,
        PrutoipaBuildError,
    >)
        requires
            old(self).wf(),
            files_well_formed(fds@),
        ensures
            match r {
                Ok(b) => {
                    &&& register_files(old(self)@.packages, fds@).1 is Ok
                    &&& b@.packages == register_files(old(self)@.packages, fds@).0
                    &&& b@.out_dir == old(self)@.out_dir
                    &&& b@.generate_enum_values == old(self)@.generate_enum_values
                    &&& b.wf()
                    &&& *final(self) == *final(b)
                },
                Err(e) => {
                    &&& register_files(old(self)@.packages, fds@).1 == Err::<(), BuildErrorView>(e@)
                    &&& final(self)@.packages == register_files(old(self)@.packages, fds@).0
                    &&& final(self)@.out_dir == old(self)@.out_dir
                    &&& final(self)@.generate_enum_values == old(self)@.generate_enum_values
                    &&& final(self).wf()
                },
            },
    {
        match self.package_set.register_file_descriptor_set(fds) {
            Ok(()) => Ok(self),
            Err(e) => Err(e),
        }
    }

    /// The directory to write to: the configured one, else the one the
    /// environment names.
    pub fn get_out_dir(&self, env_out_dir: Option<String>) -> (r: Result<
        String,
        PrutoipaBuildError,
    >)
        ensures
            match (self@.out_dir, env_out_dir) {
                (Some(d), _) => r matches Ok(s) && s@ == d,
                (None, Some(d)) => r matches Ok(s) && s@ == d@,
                (None, None) => r matches Err(e) && e@ == BuildErrorView::OutputDirNotSet,
            },
    {
        match &self.out_dir {
            Some(d) => Ok(d.clone()),
            None => match env_out_dir {
                Some(d) => Ok(d),
                None => Err(PrutoipaBuildError::OutputDirNotSet),
            },
        }
    }

    /// Whether enum schemas list their legal values.
    pub fn get_generate_enum_values(&self) -> (r: bool)
        ensures
            r == self@.generate_enum_values,
    {
        self.generate_enum_values
    }

    /// The registered packages, in ascending name order.
    pub fn get_packages(&self) -> (r: Vec<(String, Package)>)
        requires
            self.wf(),
        ensures
            entries_view(r@) == self@.packages,
            packages_wf(entries_view(r@)),
    {
        self.package_set.get_packages()
    }

    /// The text of every package, in package name order, or the first error.
    pub fn generate(&self) -> (r: Result<Vec<(String, Vec<String>)>, PrutoipaBuildError>)
        requires
            self.wf(),
        ensures
            match (r, packages_output(self@.packages, self@.generate_enum_values)) {
                (Ok(outputs), Ok(expected)) => outputs_view(outputs@) == expected,
                (Err(e), Err(expected)) => e@ == expected,
                _ => false,
            },
    {
        let packages = self.package_set.get_packages();
        let ghost ps = self@.packages;
        let flag = self.generate_enum_values;
        let mut out: Vec<(String, Vec<String>)> = Vec::new();
        let mut i: usize = 0;
        assert(ps.take(0) =~= Seq::<(Seq<char>, PackageView)>::empty());
        assert(outputs_view(out@) =~= Seq::<(Seq<char>, Seq<Seq<char>>)>::empty());
        while i < packages.len()
            invariant
                i <= packages.len(),
                ps == self@.packages,
                flag == self@.generate_enum_values,
                entries_view(packages@) == ps,
                packages_wf(ps),
                packages_output(ps.take(i as int), flag) == Ok::<
                    Seq<(Seq<char>, Seq<Seq<char>>)>,
                    BuildErrorView,
                >(outputs_view(out@)),
            decreases packages.len() - i,
        {
            let entry = &packages[i];
            assert(ps.take(i + 1).drop_last() =~= ps.take(i as int));
            assert(ps.take(i + 1).last() == (entry.0@, entry.1@));
            assert(ps[i as int] == (entry.0@, entry.1@));
            assert(ps[i as int].1.name == ps[i as int].0);
            match generate_package(&entry.1, flag) {
                Ok(lines) => {
                    let ghost before = outputs_view(out@);
                    let ghost item = (entry.0@, lines_view(lines@));
                    out.push((entry.0.clone(), lines));
                    assert(outputs_view(out@) =~= before.push(item));
                },
                Err(e) => {
                    proof {
                        lemma_packages_output_error_persists(ps, flag, i + 1);
                    }
                    return Err(e);
                },
            }
            i = i + 1;
        }
        assert(ps.take(packages.len() as int) =~= ps);
        Ok(out)
    }
}

} // verus!
