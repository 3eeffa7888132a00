use vstd::prelude::*;
use vstd::string::*;

use crate::descriptor::{Descriptor, DescriptorView};
use crate::enum_descriptor::{EnumDescriptor, EnumValue, clone_values};
use crate::error::{BuildErrorView, PrutoipaBuildError, invalid_data, unit_result};
use crate::message_descriptor::{
    MessageDescriptor,
    fields_are_well_formed,
    fields_well_formed,
    resolve_fields,
};
use crate::package::{Package, PackageView, package_header, register_named};
use crate::proto::{EnumProto, FileProto, MessageProto};
use crate::syntax::Syntax;
use crate::table::{
    entries_view,
    find_slot,
    has_name,
    insert_entry,
    insert_named,
    lemma_insert_named_has_name,
    lemma_insert_named_ordered,
    lemma_insert_named_other_name,
    names_ordered,
};

verus! {

/// All registered packages, kept in name order.
#[derive(Debug)]
pub struct PackageSet {
    packages: Vec<(String, Package)>,
}

impl View for PackageSet {
    type V = Seq<(Seq<char>, PackageView)>;

    closed spec fn view(&self) -> Seq<(Seq<char>, PackageView)> {
        entries_view(self.packages@)
    }
}

/// Packages that are stored under their own names, in name order, each
/// with its descriptors in name order.
pub open spec fn packages_wf(s: Seq<(Seq<char>, PackageView)>) -> bool {
    &&& names_ordered(s)
    &&& forall|i: int|
        0 <= i < s.len() ==> #[trigger] s[i].1.name == s[i].0 && names_ordered(
            s[i].1.descriptors,
        )
}

/// Whether no field of any message of a file is a defect.
pub open spec fn file_well_formed(f: FileProto) -> bool {
    forall|i: int|
        0 <= i < f.message_type@.len() ==> fields_well_formed(#[trigger] f.message_type@[i].field@)
}

/// Whether no field of any message of any of the files is a defect.
pub open spec fn files_well_formed(fs: Seq<FileProto>) -> bool {
    forall|i: int| 0 <= i < fs.len() ==> file_well_formed(#[trigger] fs[i])
}

/// Whether no field of any message of any of the files is a defect: what
/// registering them asks of them.
pub fn descriptors_are_well_formed(files: &Vec<FileProto>) -> (r: bool)
    ensures
        r == files_well_formed(files@),
{
    let mut i: usize = 0;
    while i < files.len()
        invariant
            i <= files.len(),
            forall|k: int| 0 <= k < i ==> file_well_formed(#[trigger] files@[k]),
        decreases files.len() - i,
    {
        let messages = &files[i].message_type;
        let mut j: usize = 0;
        while j < messages.len()
            invariant
                i < files.len(),
                messages@ == files@[i as int].message_type@,
                j <= messages.len(),
                forall|k: int| 0 <= k < j ==> fields_well_formed(#[trigger] messages@[k].field@),
            decreases messages.len() - j,
        {
            if !fields_are_well_formed(&messages[j].field) {
                assert(!fields_well_formed(files@[i as int].message_type@[j as int].field@));
                return false;
            }
            j = j + 1;
        }
        i = i + 1;
    }
    true
}

/// The descriptor that a raw message registers, under its name.
pub open spec fn message_entry(syntax: Syntax, m: MessageProto) -> Result<
    (Seq<char>, DescriptorView),
    BuildErrorView,
> {
    match m.name {
        None => Err(BuildErrorView::InvalidData("Expected message name."@)),
        Some(n) => match resolve_fields(syntax, m.field@) {
            Err(e) => Err(e),
            Ok(fs) => Ok((n@, DescriptorView::Message(fs))),
        },
    }
}

/// The descriptor that a raw enum registers, under its name.
pub open spec fn enum_entry(e: EnumProto) -> Result<(Seq<char>, DescriptorView), BuildErrorView> {
    match e.name {
        None => Err(BuildErrorView::InvalidData("Expected enum name."@)),
        Some(n) => Ok((n@, DescriptorView::Enum(e.value@.map_values(|v: EnumValue| v@)))),
    }
}

/// Registers a named descriptor entry, or passes an earlier error on.
pub open spec fn register_entry(
    table: Seq<(Seq<char>, DescriptorView)>,
    entry: Result<(Seq<char>, DescriptorView), BuildErrorView>,
) -> Result<Seq<(Seq<char>, DescriptorView)>, BuildErrorView> {
    match entry {
        Err(e) => Err(e),
        Ok((n, d)) => register_named(table, n, d),
    }
}

/// Registers the messages of a file in order, stopping at the first error.
pub open spec fn add_messages(
    syntax: Syntax,
    table: Seq<(Seq<char>, DescriptorView)>,
    ms: Seq<MessageProto>,
) -> Result<Seq<(Seq<char>, DescriptorView)>, BuildErrorView>
    decreases ms.len(),
{
    if ms.len() == 0 {
        Ok(table)
    } else {
        match add_messages(syntax, table, ms.drop_last()) {
            Err(e) => Err(e),
            Ok(t) => register_entry(t, message_entry(syntax, ms.last())),
        }
    }
}

/// Registers the enums of a file in order, stopping at the first error.
pub open spec fn add_enums(
    table: Seq<(Seq<char>, DescriptorView)>,
    es: Seq<EnumProto>,
) -> Result<Seq<(Seq<char>, DescriptorView)>, BuildErrorView>
    decreases es.len(),
{
    if es.len() == 0 {
        Ok(table)
    } else {
        match add_enums(table, es.drop_last()) {
            Err(e) => Err(e),
            Ok(t) => register_entry(t, enum_entry(es.last())),
        }
    }
}

/// The descriptors of a file: its messages, then its enums.
pub open spec fn file_descriptors(syntax: Syntax, f: FileProto) -> Result<
    Seq<(Seq<char>, DescriptorView)>,
    BuildErrorView,
> {
    match add_messages(syntax, Seq::empty(), f.message_type@) {
        Err(e) => Err(e),
        Ok(t) => add_enums(t, f.enum_type@),
    }
}

pub open spec fn duplicate_package_msg(name: Seq<char>) -> Seq<char> {
    "Package '"@ + name + "' already defined."@
}

/// Registers the package that a file declares; a package name may be
/// declared by one file only.
pub open spec fn register_file(set: Seq<(Seq<char>, PackageView)>, f: FileProto) -> Result<
    Seq<(Seq<char>, PackageView)>,
    BuildErrorView,
> {
    match package_header(f) {
        Err(e) => Err(e),
        Ok((s, n)) => if has_name(set, n) {
            Err(BuildErrorView::InvalidData(duplicate_package_msg(n)))
        } else {
            match file_descriptors(s, f) {
                Err(e) => Err(e),
                Ok(t) => Ok(insert_named(set, n, PackageView { syntax: s, name: n, descriptors: t })),
            }
        },
    }
}

/// Registers files one after another. At the first error the files before
/// it stay registered and the rest are not looked at.
pub open spec fn register_files(set: Seq<(Seq<char>, PackageView)>, fs: Seq<FileProto>) -> (
    Seq<(Seq<char>, PackageView)>,
    Result<(), BuildErrorView>,
)
    decreases fs.len(),
{
    if fs.len() == 0 {
        (set, Ok(()))
    } else {
        let (s1, r) = register_files(set, fs.drop_last());
        match r {
            Err(e) => (s1, Err(e)),
            Ok(_) => match register_file(s1, fs.last()) {
                Err(e) => (s1, Err(e)),
                Ok(s2) => (s2, Ok(())),
            },
        }
    }
}

/// A file that declares a package name already registered is refused with
/// a package-already-defined error, whatever its messages and enums, and
/// leaves the registered packages as they were.
pub proof fn lemma_package_already_defined(set: Seq<(Seq<char>, PackageView)>, f: FileProto)
    requires
        package_header(f) is Ok,
        f.package matches Some(n) && has_name(set, n@),
    ensures
        register_file(set, f) == Err::<Seq<(Seq<char>, PackageView)>, BuildErrorView>(
            BuildErrorView::InvalidData(duplicate_package_msg(f.package->0@)),
        ),
        register_files(set, seq![f]) == (
            set,
            Err::<(), BuildErrorView>(
                BuildErrorView::InvalidData(duplicate_package_msg(f.package->0@)),
            ),
        ),
{
    assert(seq![f].drop_last() =~= Seq::<FileProto>::empty());
    assert(register_files(set, Seq::<FileProto>::empty()) == (set, Ok::<(), BuildErrorView>(())));
    assert(seq![f].last() == f);
}

/// A package name can be declared by one file only: after a file registers
/// its package, a second file that declares the same name is refused.
pub proof fn lemma_package_defined_twice(
    set: Seq<(Seq<char>, PackageView)>,
    first: FileProto,
    second: FileProto,
)
    requires
        register_file(set, first) is Ok,
        package_header(second) is Ok,
        second.package matches Some(n2) && first.package matches Some(n1) && n2@ == n1@,
    ensures
        register_files(set, seq![first, second]) == (
            register_file(set, first)->Ok_0,
            Err::<(), BuildErrorView>(
                BuildErrorView::InvalidData(duplicate_package_msg(first.package->0@)),
            ),
        ),
{
    let (s, n) = package_header(first)->Ok_0;
    let t = file_descriptors(s, first)->Ok_0;
    lemma_insert_named_has_name(set, n, PackageView { syntax: s, name: n, descriptors: t });
    let files = seq![first, second];
    assert(files.drop_last() =~= seq![first]);
    assert(seq![first].drop_last() =~= Seq::<FileProto>::empty());
    assert(register_files(set, Seq::<FileProto>::empty()) == (set, Ok::<(), BuildErrorView>(())));
    assert(register_files(set, seq![first]) == (
        register_file(set, first)->Ok_0,
        Ok::<(), BuildErrorView>(()),
    ));
}

/// The same file contents registered under two different package names both
/// succeed: a file's registration depends on the set only through its name.
pub proof fn lemma_distinct_package_names(
    set: Seq<(Seq<char>, PackageView)>,
    first: FileProto,
    second: FileProto,
)
    requires
        register_file(set, first) is Ok,
        second.syntax == first.syntax,
        second.message_type@ == first.message_type@,
        second.enum_type@ == first.enum_type@,
        second.package matches Some(n2) && first.package matches Some(n1) && n2@ != n1@
            && !has_name(set, n2@),
    ensures
        register_files(set, seq![first, second]).1 is Ok,
{
    let (s, n) = package_header(first)->Ok_0;
    let t = file_descriptors(s, first)->Ok_0;
    let n2 = second.package->0@;
    lemma_insert_named_other_name(set, n, PackageView { syntax: s, name: n, descriptors: t }, n2);
    let files = seq![first, second];
    assert(files.drop_last() =~= seq![first]);
    assert(seq![first].drop_last() =~= Seq::<FileProto>::empty());
    assert(register_files(set, Seq::<FileProto>::empty()) == (set, Ok::<(), BuildErrorView>(())));
    assert(register_files(set, seq![first]) == (
        register_file(set, first)->Ok_0,
        Ok::<(), BuildErrorView>(()),
    ));
    assert(file_descriptors(s, second) == file_descriptors(s, first));
}

/// The name a file declares for its package.
pub open spec fn declared_name(f: FileProto) -> Seq<char> {
    f.package->0@
}

/// Files that declare distinct package names, none registered yet, and that
/// each register on their own, all register together: one file's
/// registration does not depend on the others. Afterwards exactly their
/// names have been added.
pub proof fn lemma_independent_files(set: Seq<(Seq<char>, PackageView)>, fs: Seq<FileProto>)
    requires
        forall|i: int| 0 <= i < fs.len() ==> (#[trigger] register_file(set, fs[i])) is Ok,
        forall|i: int, j: int|
            0 <= i < j < fs.len() ==> declared_name(#[trigger] fs[i]) != declared_name(
                #[trigger] fs[j],
            ),
    ensures
        register_files(set, fs).1 is Ok,
        forall|i: int|
            0 <= i < fs.len() ==> has_name(register_files(set, fs).0, declared_name(#[trigger] fs[i])),
        forall|m: Seq<char>|
            !has_name(set, m) && (forall|i: int|
                0 <= i < fs.len() ==> declared_name(#[trigger] fs[i]) != m) ==> !has_name(
                #[trigger] register_files(set, fs).0,
                m,
            ),
    decreases fs.len(),
{
    if fs.len() > 0 {
        let p = fs.drop_last();
        let last = fs.len() - 1;
        let f = fs[last];
        assert forall|i: int| 0 <= i < p.len() implies (#[trigger] register_file(set, p[i])) is Ok by {
            assert(p[i] == fs[i]);
            assert(register_file(set, fs[i]) is Ok);
        }
        assert forall|i: int, j: int| 0 <= i < j < p.len() implies declared_name(#[trigger] p[i])
            != declared_name(#[trigger] p[j]) by {
            assert(p[i] == fs[i] && p[j] == fs[j]);
        }
        lemma_independent_files(set, p);
        let s1 = register_files(set, p).0;
        assert(register_file(set, fs[last]) is Ok);
        let (syn, n) = package_header(f)->Ok_0;
        assert(n == declared_name(f));
        assert(!has_name(set, n));
        assert forall|i: int| 0 <= i < p.len() implies declared_name(#[trigger] p[i]) != n by {
            assert(p[i] == fs[i]);
            assert(declared_name(fs[i]) != declared_name(fs[last]));
        }
        assert(!has_name(s1, n));
        let t = file_descriptors(syn, f)->Ok_0;
        let pv = PackageView { syntax: syn, name: n, descriptors: t };
        assert(register_file(s1, f) == Ok::<Seq<(Seq<char>, PackageView)>, BuildErrorView>(
            insert_named(s1, n, pv),
        ));
        let s2 = insert_named(s1, n, pv);
        assert(register_files(set, fs) == (s2, Ok::<(), BuildErrorView>(())));
        lemma_insert_named_has_name(s1, n, pv);
        assert forall|i: int| 0 <= i < fs.len() implies has_name(s2, declared_name(#[trigger] fs[i])) by {
            if i < last {
                assert(p[i] == fs[i]);
                assert(has_name(s1, declared_name(p[i])));
                assert(declared_name(fs[i]) != declared_name(fs[last]));
                lemma_insert_named_other_name(s1, n, pv, declared_name(fs[i]));
            }
        }
        assert forall|m: Seq<char>|
            !has_name(set, m) && (forall|i: int|
                0 <= i < fs.len() ==> declared_name(#[trigger] fs[i]) != m) implies !has_name(
            #[trigger] register_files(set, fs).0,
            m,
        ) by {
            assert forall|i: int| 0 <= i < p.len() implies declared_name(#[trigger] p[i]) != m by {
                assert(p[i] == fs[i]);
            }
            assert(!has_name(s1, m));
            assert(declared_name(fs[last]) != m);
            lemma_insert_named_other_name(s1, n, pv, m);
        }
    }
}

pub proof fn lemma_add_messages_error_persists(
    syntax: Syntax,
    table: Seq<(Seq<char>, DescriptorView)>,
    ms: Seq<MessageProto>,
    k: int,
)
    requires
        0 <= k <= ms.len(),
        add_messages(syntax, table, ms.take(k)) is Err,
    ensures
        add_messages(syntax, table, ms) == add_messages(syntax, table, ms.take(k)),
    decreases ms.len(),
{
    if k == ms.len() {
        assert(ms.take(k) == ms);
    } else {
        assert(ms.drop_last().take(k) == ms.take(k));
        lemma_add_messages_error_persists(syntax, table, ms.drop_last(), k);
    }
}

pub proof fn lemma_add_enums_error_persists(
    table: Seq<(Seq<char>, DescriptorView)>,
    es: Seq<EnumProto>,
    k: int,
)
    requires
        0 <= k <= es.len(),
        add_enums(table, es.take(k)) is Err,
    ensures
        add_enums(table, es) == add_enums(table, es.take(k)),
    decreases es.len(),
{
    if k == es.len() {
        assert(es.take(k) == es);
    } else {
        assert(es.drop_last().take(k) == es.take(k));
        lemma_add_enums_error_persists(table, es.drop_last(), k);
    }
}

pub proof fn lemma_register_files_error_persists(
    set: Seq<(Seq<char>, PackageView)>,
    fs: Seq<FileProto>,
    k: int,
)
    requires
        0 <= k <= fs.len(),
        register_files(set, fs.take(k)).1 is Err,
    ensures
        register_files(set, fs) == register_files(set, fs.take(k)),
    decreases fs.len(),
{
    if k == fs.len() {
        assert(fs.take(k) == fs);
    } else {
        assert(fs.drop_last().take(k) == fs.take(k));
        lemma_register_files_error_persists(set, fs.drop_last(), k);
    }
}

/// Copies named packages.
fn clone_packages(entries: &Vec<(String, Package)>) -> (r: Vec<(String, Package)>)
    ensures
        entries_view(r@) == entries_view(entries@),
{
    let mut out: Vec<(String, Package)> = Vec::new();
    let mut i: usize = 0;
    while i < entries.len()
        invariant
            i <= entries.len(),
            entries_view(out@) == entries_view(entries@).take(i as int),
        decreases entries.len() - i,
    {
        let name = entries[i].0.clone();
        let p = entries[i].1.clone();
        let ghost before = out@;
        out.push((name, p));
        assert(entries_view(out@) =~= entries_view(before).push((name@, p@)));
        assert(entries_view(entries@).take(i + 1) =~= entries_view(entries@).take(i as int).push(
            (name@, p@),
        ));
        i = i + 1;
    }
    assert(entries_view(entries@).take(entries.len() as int) =~= entries_view(entries@));
    out
}

impl Clone for PackageSet {
    fn clone(&self) -> (r: Self)
        ensures
            r@ == self@,
    {
        PackageSet { packages: clone_packages(&self.packages) }
    }
}

impl Default for PackageSet {
    fn default() -> (r: Self)
        ensures
            r@ == Seq::<(Seq<char>, PackageView)>::empty(),
            r.wf(),
    {
        PackageSet::new()
    }
}

impl PackageSet {
    /// Whether the packages are well formed: see `packages_wf`.
    pub open spec fn wf(&self) -> bool {
        packages_wf(self@)
    }

    /// A set without packages.
    pub fn new() -> (r: Self)
        ensures
            r@ == Seq::<(Seq<char>, PackageView)>::empty(),
            r.wf(),
    {
        let r = PackageSet { packages: Vec::new() };
        assert(r@ =~= Seq::<(Seq<char>, PackageView)>::empty());
        r
    }

    /// Registers the package of every file, in order, stopping at the first error.
    pub fn register_file_descriptor_set(&mut self, file_descriptor_set: Vec<FileProto>) -> (r:
        Result<(), PrutoipaBuildError>)
        requires
            old(self).wf(),
            files_well_formed(file_descriptor_set@),
        ensures
            final(self).wf(),
            final(self)@ == register_files(old(self)@, file_descriptor_set@).0,
            unit_result(r) == register_files(old(self)@, file_descriptor_set@).1,
    {
        let n = file_descriptor_set.len();
        let mut i: usize = 0;
        assert(file_descriptor_set@.take(0) =~= Seq::<FileProto>::empty());
        while i < n
            invariant
                n == file_descriptor_set@.len(),
                i <= n,
                files_well_formed(file_descriptor_set@),
                self.wf(),
                register_files(old(self)@, file_descriptor_set@.take(i as int)) == (
                    self@,
                    Ok::<(), BuildErrorView>(()),
                ),
            decreases n - i,
        {
            let file = &file_descriptor_set[i];
            assert(file_descriptor_set@.take(i + 1).drop_last() == file_descriptor_set@.take(
                i as int,
            ));
            assert(file_descriptor_set@.take(i + 1).last() == *file);
            match self.register_file_descriptor_proto(file) {
                Ok(()) => {},
                Err(e) => {
                    proof {
                        lemma_register_files_error_persists(
                            old(self)@,
                            file_descriptor_set@,
                            i + 1,
                        );
                    }
                    return Err(e);
                },
            }
            i = i + 1;
        }
        assert(file_descriptor_set@.take(n as int) == file_descriptor_set@);
        Ok(())
    }

    /// The registered packages, in ascending name order.
    pub fn get_packages(&self) -> (r: Vec<(String, Package)>)
        requires
            self.wf(),
        ensures
            entries_view(r@) == self@,
            packages_wf(entries_view(r@)),
    {
        clone_packages(&self.packages)
    }

    /// Registers the package that one file declares.
    fn register_file_descriptor_proto(&mut self, file: &FileProto) -> (r: Result<
        (),
        PrutoipaBuildError,
    >)
        requires
            old(self).wf(),
            file_well_formed(*file),
        ensures
            final(self).wf(),
            match register_file(old(self)@, *file) {
                Ok(s) => r is Ok && final(self)@ == s,
                Err(e) => unit_result(r) == Err::<(), BuildErrorView>(e) && final(self)@
                    == old(self)@,
            },
    {
        let mut package = match Package::new(file) {
            Ok(p) => p,
            Err(e) => {
                return Err(e);
            },
        };
        let ghost syntax = package@.syntax;
        let ghost name = package@.name;
        let package_name = package.get_name();
        let (at, found) = find_slot(&self.packages, &package_name);
        if found {
            let mut msg = String::from_str("Package '");
            msg.append(package_name.as_str());
            msg.append("' already defined.");
            return Err(PrutoipaBuildError::InvalidData(msg));
        }
        let ms = &file.message_type;
        let mut i: usize = 0;
        assert(ms@.take(0) =~= Seq::<MessageProto>::empty());
        while i < ms.len()
            invariant
                i <= ms@.len(),
                ms@ == file.message_type@,
                file_well_formed(*file),
                self@ == old(self)@,
                old(self).wf(),
                package_header(*file) == Ok::<(Syntax, Seq<char>), BuildErrorView>((syntax, name)),
                !has_name(old(self)@, name),
                package.wf(),
                package@.syntax == syntax,
                package@.name == name,
                add_messages(syntax, Seq::empty(), ms@.take(i as int)) == Ok::<
                    Seq<(Seq<char>, DescriptorView)>,
                    BuildErrorView,
                >(package@.descriptors),
            decreases ms@.len() - i,
        {
            assert(ms@.take(i + 1).drop_last() == ms@.take(i as int));
            assert(ms@.take(i + 1).last() == ms@[i as int]);
            match Self::register_message(&mut package, &ms[i]) {
                Ok(()) => {},
                Err(e) => {
                    proof {
                        lemma_add_messages_error_persists(syntax, Seq::empty(), ms@, i + 1);
                        assert(add_messages(syntax, Seq::empty(), ms@) == Err::<
                            Seq<(Seq<char>, DescriptorView)>,
                            BuildErrorView,
                        >(e@));
                        assert(file_descriptors(syntax, *file) == Err::<
                            Seq<(Seq<char>, DescriptorView)>,
                            BuildErrorView,
                        >(e@));
                        assert(register_file(old(self)@, *file) == Err::<
                            Seq<(Seq<char>, PackageView)>,
                            BuildErrorView,
                        >(e@));
                    }
                    return Err(e);
                },
            }
            i = i + 1;
        }
        assert(ms@.take(ms@.len() as int) == ms@);
        let ghost after_messages = package@.descriptors;
        assert(file_descriptors(syntax, *file) == add_enums(after_messages, file.enum_type@));
        let es = &file.enum_type;
        let mut j: usize = 0;
        assert(es@.take(0) =~= Seq::<EnumProto>::empty());
        while j < es.len()
            invariant
                j <= es@.len(),
                es@ == file.enum_type@,
                file_descriptors(syntax, *file) == add_enums(after_messages, file.enum_type@),
                self@ == old(self)@,
                old(self).wf(),
                package_header(*file) == Ok::<(Syntax, Seq<char>), BuildErrorView>((syntax, name)),
                !has_name(old(self)@, name),
                package.wf(),
                package@.syntax == syntax,
                package@.name == name,
                add_enums(after_messages, es@.take(j as int)) == Ok::<
                    Seq<(Seq<char>, DescriptorView)>,
                    BuildErrorView,
                >(package@.descriptors),
            decreases es@.len() - j,
        {
            assert(es@.take(j + 1).drop_last() == es@.take(j as int));
            assert(es@.take(j + 1).last() == es@[j as int]);
            match Self::register_enum(&mut package, &es[j]) {
                Ok(()) => {},
                Err(e) => {
                    proof {
                        lemma_add_enums_error_persists(after_messages, es@, j + 1);
                        assert(add_enums(after_messages, es@) == Err::<
                            Seq<(Seq<char>, DescriptorView)>,
                            BuildErrorView,
                        >(e@));
                        assert(register_file(old(self)@, *file) == Err::<
                            Seq<(Seq<char>, PackageView)>,
                            BuildErrorView,
                        >(e@));
                    }
                    return Err(e);
                },
            }
            j = j + 1;
        }
        assert(es@.take(es@.len() as int) == es@);
        let ghost before = self@;
        let ghost pv = package@;
        proof {
            lemma_insert_named_ordered(before, name, pv);
        }
        insert_entry(&mut self.packages, at, package_name, package);
        assert(packages_wf(self@)) by {
            let p = at as int;
            assert forall|k: int| 0 <= k < self@.len() implies #[trigger] self@[k].1.name
                == self@[k].0 && names_ordered(self@[k].1.descriptors) by {
                if k < p {
                    assert(self@[k] == before[k]);
                } else if k > p {
                    assert(self@[k] == before[k - 1]);
                } else {
                    assert(self@[k] == (name, pv));
                }
            }
        }
        Ok(())
    }

    /// Registers the message descriptor of a raw message in a package.
    fn register_message(package: &mut Package, descriptor: &MessageProto) -> (r: Result<
        (),
        PrutoipaBuildError,
    >)
        requires
            old(package).wf(),
            fields_well_formed(descriptor.field@),
        ensures
            final(package).wf(),
            final(package)@.syntax == old(package)@.syntax,
            final(package)@.name == old(package)@.name,
            match register_entry(
                old(package)@.descriptors,
                message_entry(old(package)@.syntax, *descriptor),
            ) {
                Ok(t) => r is Ok && final(package)@.descriptors == t,
                Err(e) => unit_result(r) == Err::<(), BuildErrorView>(e) && final(package)@
                    == old(package)@,
            },
    {
        let name = match &descriptor.name {
            Some(n) => n.clone(),
            None => {
                return Err(invalid_data("Expected message name."));
            },
        };
        let syntax = package.get_syntax();
        let message = match MessageDescriptor::new(syntax, descriptor) {
            Ok(m) => m,
            Err(e) => {
                return Err(e);
            },
        };
        package.register_descriptor(name, Descriptor::Message(message))
    }

    /// Registers the enum descriptor of a raw enum in a package.
    fn register_enum(package: &mut Package, descriptor: &EnumProto) -> (r: Result<
        (),
        PrutoipaBuildError,
    >)
        requires
            old(package).wf(),
        ensures
            final(package).wf(),
            final(package)@.syntax == old(package)@.syntax,
            final(package)@.name == old(package)@.name,
            match register_entry(old(package)@.descriptors, enum_entry(*descriptor)) {
                Ok(t) => r is Ok && final(package)@.descriptors == t,
                Err(e) => unit_result(r) == Err::<(), BuildErrorView>(e) && final(package)@
                    == old(package)@,
            },
    {
        let name = match &descriptor.name {
            Some(n) => n.clone(),
            None => {
                return Err(invalid_data("Expected enum name."));
            },
        };
        let values = clone_values(&descriptor.value);
        package.register_descriptor(name, Descriptor::Enum(EnumDescriptor::new(values)))
    }
}

} // verus!
