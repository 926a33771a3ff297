//! Assemblies and images, and the C#-like metadata dump of them: which
//! files a dump writes and what each one holds.

use vstd::prelude::*;
use vstd::string::*;
use crate::class::{Class, same_class};
use crate::render::class_text;
use crate::text::{contains_seq, contains_str, dec, hex_lower, push_dec, push_hex_lower};

verus! {

/// A hydrated IL2CPP image, the module backing an assembly.
#[derive(Debug)]
pub struct Image {
    /// Address of the internal IL2CPP image structure
    pub address: usize,
    /// Name of the image (e.g., "Assembly-CSharp")
    pub name: String,
    /// Filename of the image incl. extension (e.g., "Assembly-CSharp.dll")
    pub filename: String,
    /// Address of the assembly containing this image
    pub assembly: usize,
    /// Address of the entry point method (if any)
    pub entry_point: usize,
}

/// A hydrated IL2CPP assembly with its classes.
#[derive(Debug)]
pub struct Assembly {
    /// The image associated with this assembly
    pub image: Image,
    /// Address of the internal IL2CPP assembly structure
    pub address: usize,
    /// Filename of the assembly (e.g. "Assembly-CSharp.dll")
    pub file: String,
    /// Name of the assembly (e.g. "Assembly-CSharp")
    pub name: String,
    /// Classes defined in this assembly
    pub classes: Vec<Class>,
}

impl Clone for Image {
    fn clone(&self) -> (r: Self)
        ensures
            r == *self,
    {
        Image {
            address: self.address,
            name: self.name.clone(),
            filename: self.filename.clone(),
            assembly: self.assembly,
            entry_point: self.entry_point,
        }
    }
}

/// `a` and `b` hold the same assembly, with copies of the same classes.
pub open spec fn same_assembly(a: Assembly, b: Assembly) -> bool {
    &&& a.image == b.image
    &&& a.address == b.address
    &&& a.file == b.file
    &&& a.name == b.name
    &&& a.classes@.len() == b.classes@.len()
    &&& forall|i: int| 0 <= i < a.classes@.len() ==> same_class(#[trigger] a.classes@[i], b.classes@[i])
}

impl Clone for Assembly {
    fn clone(&self) -> (r: Self)
        ensures
            same_assembly(r, *self),
    {
        let mut classes: Vec<Class> = Vec::new();
        let mut i: usize = 0;
        while i < self.classes.len()
            invariant
                i <= self.classes@.len(),
                classes@.len() == i,
                forall|k: int| 0 <= k < i ==> same_class(#[trigger] classes@[k], self.classes@[k]),
            decreases self.classes.len() - i,
        {
            classes.push(self.classes[i].clone());
            i = i + 1;
        }
        Assembly {
            image: self.image.clone(),
            address: self.address,
            file: self.file.clone(),
            name: self.name.clone(),
            classes,
        }
    }
}

/// The TypeDefIndex of a class: the low 24 bits of its token.
pub open spec fn type_index(c: Class) -> u32 {
    c.token & 0xFF_FFFF
}

/// The least TypeDefIndex among `cs`, if there is a class.
pub open spec fn min_index(cs: Seq<Class>) -> Option<u32>
    decreases cs.len(),
{
    if cs.len() == 0 {
        None
    } else {
        match min_index(cs.drop_last()) {
            Some(m) => Some(if type_index(cs.last()) < m {
                type_index(cs.last())
            } else {
                m
            }),
            None => Some(type_index(cs.last())),
        }
    }
}

/// The key assemblies are ordered by in a dump: the least TypeDefIndex of
/// their classes, `u32::MAX` for one without classes.
pub open spec fn sort_key(a: Assembly) -> u32 {
    match min_index(a.classes@) {
        Some(m) => m,
        None => u32::MAX,
    }
}

/// The first TypeDefIndex of an image: its least token index less one
/// (tokens count from one), 0 for one without classes.
pub open spec fn image_start(a: Assembly) -> u32 {
    match min_index(a.classes@) {
        Some(m) => if m > 0 {
            (m - 1) as u32
        } else {
            0
        },
        None => 0,
    }
}

/// The least TypeDefIndex among `classes`.
pub fn min_type_index(classes: &Vec<Class>) -> (r: Option<u32>)
    ensures
        r == min_index(classes@),
{
    let mut r: Option<u32> = None;
    let mut i: usize = 0;
    while i < classes.len()
        invariant
            i <= classes@.len(),
            r == min_index(classes@.take(i as int)),
        decreases classes.len() - i,
    {
        let t = classes[i].token & 0xFF_FFFF;
        r = match r {
            Some(m) => Some(if t < m {
                t
            } else {
                m
            }),
            None => Some(t),
        };
        proof {
            let now = classes@.take(i + 1);
            assert(now.drop_last() =~= classes@.take(i as int));
            assert(now.last() == classes@[i as int]);
        }
        i = i + 1;
    }
    assert(classes@.take(classes@.len() as int) =~= classes@);
    r
}

fn key_of(a: &Assembly) -> (r: u32)
    ensures
        r == sort_key(*a),
{
    match min_type_index(&a.classes) {
        Some(m) => m,
        None => u32::MAX,
    }
}

/// `s` with `x` placed after every element whose key is not greater.
pub open spec fn insert_by_key(s: Seq<Assembly>, x: Assembly) -> Seq<Assembly>
    decreases s.len(),
{
    if s.len() == 0 {
        seq![x]
    } else if sort_key(s.last()) <= sort_key(x) {
        s.push(x)
    } else {
        insert_by_key(s.drop_last(), x).push(s.last())
    }
}

/// `s` stably sorted by key: assemblies with equal keys keep their order.
pub open spec fn sorted_by_key(s: Seq<Assembly>) -> Seq<Assembly>
    decreases s.len(),
{
    if s.len() == 0 {
        Seq::empty()
    } else {
        insert_by_key(sorted_by_key(s.drop_last()), s.last())
    }
}

/// Keys never decrease along `s`.
pub open spec fn keys_ascending(s: Seq<Assembly>) -> bool {
    forall|i: int, j: int| 0 <= i <= j < s.len() ==> sort_key(s[i]) <= sort_key(s[j])
}

proof fn lemma_insert_at(s: Seq<Assembly>, x: Assembly, pos: int)
    requires
        0 <= pos <= s.len(),
        forall|j: int| pos <= j < s.len() ==> sort_key(#[trigger] s[j]) > sort_key(x),
        pos > 0 ==> sort_key(s[pos - 1]) <= sort_key(x),
    ensures
        insert_by_key(s, x) == s.insert(pos, x),
    decreases s.len(),
{
    if s.len() == 0 {
        assert(s.insert(pos, x) =~= seq![x]);
    } else if pos == s.len() {
        assert(s.insert(pos, x) =~= s.push(x));
    } else {
        let d = s.drop_last();
        assert forall|j: int| pos <= j < d.len() implies sort_key(#[trigger] d[j]) > sort_key(x) by {
            assert(d[j] == s[j]);
        }
        assert(sort_key(s.last()) > sort_key(x));
        lemma_insert_at(d, x, pos);
        assert(d.insert(pos, x).push(s.last()) =~= s.insert(pos, x));
    }
}

/// The assemblies stably sorted by the least TypeDefIndex of their
/// classes, so that they come in the order of the metadata image table.
pub fn sorted_assemblies(assemblies: Vec<Assembly>) -> (r: Vec<Assembly>)
    ensures
        r@ == sorted_by_key(assemblies@),
{
    let ghost all = assemblies@;
    let total = assemblies.len();
    let mut rest = assemblies;
    let mut out: Vec<Assembly> = Vec::new();
    let mut n: usize = 0;
    while rest.len() > 0
        invariant
            n <= all.len(),
            all.len() == total,
            rest@ == all.skip(n as int),
            out@ == sorted_by_key(all.take(n as int)),
        decreases rest.len(),
    {
        let x = rest.remove(0);
        let kx = key_of(&x);
        let mut pos = out.len();
        while pos > 0 && key_of(&out[pos - 1]) > kx
            invariant
                pos <= out@.len(),
                kx == sort_key(x),
                forall|j: int| pos <= j < out@.len() ==> sort_key(#[trigger] out@[j]) > kx,
            decreases pos,
        {
            pos = pos - 1;
        }
        proof {
            lemma_insert_at(out@, x, pos as int);
            let t = all.take(n + 1);
            assert(t.drop_last() =~= all.take(n as int));
            assert(t.last() == x) by {
                assert(all.skip(n as int)[0] == all[n as int]);
            }
            assert(rest@ =~= all.skip(n + 1));
        }
        out.insert(pos, x);
        n = n + 1;
    }
    assert(all.take(all.len() as int) =~= all);
    out
}

proof fn lemma_insert_multiset(s: Seq<Assembly>, x: Assembly)
    ensures
        insert_by_key(s, x).to_multiset() =~= s.to_multiset().insert(x),
    decreases s.len(),
{
    broadcast use vstd::seq_lib::to_multiset_build;
    broadcast use vstd::multiset::group_multiset_axioms;

    if s.len() == 0 {
        assert(seq![x] =~= Seq::<Assembly>::empty().push(x));
        assert(s =~= Seq::<Assembly>::empty());
    } else if sort_key(s.last()) > sort_key(x) {
        let d = s.drop_last();
        lemma_insert_multiset(d, x);
        assert(s =~= d.push(s.last()));
    }
}

proof fn lemma_insert_bounded(s: Seq<Assembly>, x: Assembly, b: u32)
    requires
        forall|i: int| 0 <= i < s.len() ==> sort_key(#[trigger] s[i]) <= b,
        sort_key(x) <= b,
    ensures
        forall|i: int| 0 <= i < insert_by_key(s, x).len() ==> sort_key(
            #[trigger] insert_by_key(s, x)[i],
        ) <= b,
        insert_by_key(s, x).len() == s.len() + 1,
    decreases s.len(),
{
    if s.len() > 0 && sort_key(s.last()) > sort_key(x) {
        let d = s.drop_last();
        assert forall|i: int| 0 <= i < d.len() implies sort_key(#[trigger] d[i]) <= b by {
            assert(d[i] == s[i]);
        }
        lemma_insert_bounded(d, x, b);
    }
}

proof fn lemma_insert_ascending(s: Seq<Assembly>, x: Assembly)
    requires
        keys_ascending(s),
    ensures
        keys_ascending(insert_by_key(s, x)),
    decreases s.len(),
{
    if s.len() > 0 {
        let d = s.drop_last();
        if sort_key(s.last()) > sort_key(x) {
            assert(keys_ascending(d));
            lemma_insert_ascending(d, x);
            assert forall|i: int| 0 <= i < d.len() implies sort_key(#[trigger] d[i]) <= sort_key(
                s.last(),
            ) by {
                assert(d[i] == s[i]);
            }
            lemma_insert_bounded(d, x, sort_key(s.last()));
        }
    }
}

/// A dump lists the assemblies in ascending order of their least
/// TypeDefIndex.
pub proof fn lemma_sorted_ascending(s: Seq<Assembly>)
    ensures
        keys_ascending(sorted_by_key(s)),
    decreases s.len(),
{
    if s.len() > 0 {
        lemma_sorted_ascending(s.drop_last());
        lemma_insert_ascending(sorted_by_key(s.drop_last()), s.last());
    }
}

/// Sorting for a dump neither drops nor repeats an assembly.
pub proof fn lemma_sorted_permutation(s: Seq<Assembly>)
    ensures
        sorted_by_key(s).to_multiset() =~= s.to_multiset(),
    decreases s.len(),
{
    broadcast use vstd::seq_lib::to_multiset_build;

    if s.len() > 0 {
        lemma_sorted_permutation(s.drop_last());
        lemma_insert_multiset(sorted_by_key(s.drop_last()), s.last());
        assert(s =~= s.drop_last().push(s.last()));
    } else {
        assert(s =~= Seq::<Assembly>::empty());
    }
}

/// Assemblies already in ascending order of key stay as they are.
pub proof fn lemma_sorted_identity(s: Seq<Assembly>)
    requires
        keys_ascending(s),
    ensures
        sorted_by_key(s) == s,
    decreases s.len(),
{
    if s.len() > 0 {
        let d = s.drop_last();
        assert(keys_ascending(d));
        lemma_sorted_identity(d);
        if d.len() > 0 {
            assert(sort_key(d.last()) <= sort_key(s.last()));
        }
        assert(d.push(s.last()) =~= s);
    }
}

/// One line of a dump's image table.
pub open spec fn image_line(idx: nat, a: Assembly) -> Seq<char> {
    "// Image "@ + dec(idx) + ": "@ + a.file@ + " - "@ + dec(image_start(a) as nat) + "\n"@
}

/// The image table lines of `s`, numbered from 0.
pub open spec fn image_lines(s: Seq<Assembly>) -> Seq<char>
    decreases s.len(),
{
    if s.len() == 0 {
        Seq::empty()
    } else {
        image_lines(s.drop_last()) + image_line((s.len() - 1) as nat, s.last())
    }
}

/// The image table a dump file starts with, ended by an empty line.
pub open spec fn image_list_text(s: Seq<Assembly>) -> Seq<char> {
    image_lines(s) + "\n"@
}

/// Each class rendered, preceded by an empty line and ended by a newline.
pub open spec fn classes_text(cs: Seq<Class>) -> Seq<char>
    decreases cs.len(),
{
    if cs.len() == 0 {
        Seq::empty()
    } else {
        classes_text(cs.drop_last()) + "\n"@ + class_text(cs.last()) + "\n"@
    }
}

/// What a dump writes for one assembly: its classes.
pub open spec fn assembly_text(a: Assembly) -> Seq<char> {
    classes_text(a.classes@)
}

/// What a dump writes for each of `s`, one after the other.
pub open spec fn assemblies_text(s: Seq<Assembly>) -> Seq<char>
    decreases s.len(),
{
    if s.len() == 0 {
        Seq::empty()
    } else {
        assemblies_text(s.drop_last()) + assembly_text(s.last())
    }
}

/// The image table of `assemblies` (in the order given): for each, its
/// index, file and first TypeDefIndex, then an empty line.
pub fn image_list(assemblies: &Vec<Assembly>) -> (r: String)
    ensures
        r@ == image_list_text(assemblies@),
{
    let mut r = String::new();
    let mut i: usize = 0;
    while i < assemblies.len()
        invariant
            i <= assemblies@.len(),
            r@ == image_lines(assemblies@.take(i as int)),
        decreases assemblies.len() - i,
    {
        let a = &assemblies[i];
        let start = match min_type_index(&a.classes) {
            Some(m) => if m > 0 {
                m - 1
            } else {
                0
            },
            None => 0,
        };
        r.append("// Image ");
        push_dec(&mut r, i as u128);
        r.append(": ");
        r.append(a.file.as_str());
        r.append(" - ");
        push_dec(&mut r, start as u128);
        r.append("\n");
        proof {
            let now = assemblies@.take(i + 1);
            assert(now.drop_last() =~= assemblies@.take(i as int));
            assert(now.last() == assemblies@[i as int]);
            assert(r@ =~= image_lines(now));
        }
        i = i + 1;
    }
    assert(assemblies@.take(assemblies@.len() as int) =~= assemblies@);
    r.append("\n");
    r
}

/// Appends what a dump writes for `assembly`: each class rendered,
/// preceded by an empty line and ended by a newline.
pub fn write_assembly(r: &mut String, assembly: &Assembly)
    ensures
        final(r)@ == old(r)@ + assembly_text(*assembly),
{
    let ghost start = r@;
    let ghost cs = assembly.classes@;
    let mut i: usize = 0;
    while i < assembly.classes.len()
        invariant
            i <= cs.len(),
            cs == assembly.classes@,
            r@ == start + classes_text(cs.take(i as int)),
        decreases cs.len() - i,
    {
        let t = assembly.classes[i].dump_string();
        let ghost before = r@;
        r.append("\n");
        r.append(t.as_str());
        r.append("\n");
        proof {
            let now = cs.take(i + 1);
            assert(now.drop_last() =~= cs.take(i as int));
            assert(r@ =~= before + ("\n"@ + t@ + "\n"@));
        }
        i = i + 1;
    }
    assert(cs.take(cs.len() as int) =~= cs);
}

/// One file of a dump: its name in the dump directory and its text.
#[derive(Debug)]
pub struct DumpFile {
    pub name: String,
    pub contents: String,
}

/// What a dump writes: the directory under which its `dump` directory
/// goes, and the files it writes there.
#[derive(Debug)]
pub struct DumpPlan {
    pub root: String,
    pub files: Vec<DumpFile>,
}

/// The directory a dump goes under: `base_path` when given, else the
/// application's data path when it could be read, else `.`.
pub open spec fn dump_root_of(base_path: Option<Seq<char>>, data_path: Result<String, String>) -> Seq<
    char,
> {
    match base_path {
        Some(p) => p,
        None => match data_path {
            Ok(p) => p@,
            Err(_) => "."@,
        },
    }
}

/// The directory a dump goes under: `base_path` when given, else the
/// application's data path when it could be read, else `.`.
pub fn dump_root(base_path: Option<&str>, data_path: Result<String, String>) -> (r: String)
    ensures
        r@ == dump_root_of(
            match base_path {
                Some(p) => Some(p@),
                None => None,
            },
            data_path,
        ),
{
    match base_path {
        Some(p) => String::from_str(p),
        None => match data_path {
            Ok(p) => p,
            Err(_) => String::from_str("."),
        },
    }
}

/// The files of a dump to one file per assembly: `<name>.cs` for each,
/// holding the image table of all of them, then its classes.
pub open spec fn separate_files_ok(s: Seq<Assembly>, files: Seq<DumpFile>) -> bool {
    &&& files.len() == s.len()
    &&& forall|i: int|
        0 <= i < s.len() ==> {
            &&& (#[trigger] files[i]).name@ == s[i].name@ + ".cs"@
            &&& files[i].contents@ == image_list_text(s) + assembly_text(s[i])
        }
}

/// The files of a dump with one file per assembly (given in dump order).
pub fn separate_files(sorted: &Vec<Assembly>) -> (r: Vec<DumpFile>)
    ensures
        separate_files_ok(sorted@, r@),
{
    let table = image_list(sorted);
    let mut r: Vec<DumpFile> = Vec::new();
    let mut i: usize = 0;
    while i < sorted.len()
        invariant
            i <= sorted@.len(),
            table@ == image_list_text(sorted@),
            r@.len() == i,
            forall|q: int|
                0 <= q < i ==> {
                    &&& (#[trigger] r@[q]).name@ == sorted@[q].name@ + ".cs"@
                    &&& r@[q].contents@ == image_list_text(sorted@) + assembly_text(sorted@[q])
                },
        decreases sorted.len() - i,
    {
        let a = &sorted[i];
        let mut name = a.name.clone();
        name.append(".cs");
        let mut contents = table.clone();
        write_assembly(&mut contents, a);
        r.push(DumpFile { name, contents });
        i = i + 1;
    }
    r
}

/// Whether a dump restricted to `filter` takes an assembly: its name holds
/// the filter (every assembly, without one).
pub open spec fn selected(a: Assembly, filter: Option<Seq<char>>) -> bool {
    match filter {
        Some(t) => contains_seq(a.name@, t),
        None => true,
    }
}

/// What a dump writes for each of `s` that `filter` selects, in order.
pub open spec fn matching_text(s: Seq<Assembly>, filter: Option<Seq<char>>) -> Seq<char>
    decreases s.len(),
{
    if s.len() == 0 {
        Seq::empty()
    } else {
        matching_text(s.drop_last(), filter) + if selected(s.last(), filter) {
            assembly_text(s.last())
        } else {
            Seq::empty()
        }
    }
}

/// The view of an optional string.
pub open spec fn opt_str(o: Option<&str>) -> Option<Seq<char>> {
    match o {
        Some(t) => Some(t@),
        None => None,
    }
}

/// Appends what a dump writes for each of `assemblies` whose name holds
/// `filter` (every one, when `filter` is `None`).
pub fn write_matching(r: &mut String, assemblies: &Vec<Assembly>, filter: Option<&str>)
    ensures
        final(r)@ == old(r)@ + matching_text(assemblies@, opt_str(filter)),
{
    let ghost start = r@;
    let mut i: usize = 0;
    while i < assemblies.len()
        invariant
            i <= assemblies@.len(),
            r@ == start + matching_text(assemblies@.take(i as int), opt_str(filter)),
        decreases assemblies.len() - i,
    {
        let a = &assemblies[i];
        let take = match filter {
            Some(t) => contains_str(a.name.as_str(), t),
            None => true,
        };
        if take {
            write_assembly(r, a);
        }
        proof {
            let now = assemblies@.take(i + 1);
            assert(now.drop_last() =~= assemblies@.take(i as int));
            assert(now.last() == assemblies@[i as int]);
            assert(r@ =~= start + matching_text(now, opt_str(filter)));
        }
        i = i + 1;
    }
    assert(assemblies@.take(assemblies@.len() as int) =~= assemblies@);
}

/// `p` writes, under `root`, the dump of `assemblies` in the order of
/// the image table: one `<name>.cs` file per assembly, or, when `single`
/// names a file, that one file with every assembly.
pub open spec fn plan_ok(
    p: DumpPlan,
    root: Seq<char>,
    assemblies: Seq<Assembly>,
    single: Option<Seq<char>>,
) -> bool {
    let s = sorted_by_key(assemblies);
    &&& p.root@ == root
    &&& match single {
        None => separate_files_ok(s, p.files@),
        Some(f) => {
            &&& p.files@.len() == 1
            &&& p.files@[0].name@ == f
            &&& p.files@[0].contents@ == image_list_text(s) + matching_text(s, None)
        },
    }
}

fn dump_assemblies_impl(root: String, assemblies: Vec<Assembly>, single_file_name: Option<&str>) -> (r:
    DumpPlan)
    ensures
        plan_ok(r, root@, assemblies@, opt_str(single_file_name)),
{
    let sorted = sorted_assemblies(assemblies);
    match single_file_name {
        Some(file_name) => {
            let mut contents = image_list(&sorted);
            write_matching(&mut contents, &sorted, None);
            let mut files: Vec<DumpFile> = Vec::new();
            files.push(DumpFile { name: String::from_str(file_name), contents });
            DumpPlan { root, files }
        },
        None => {
            let files = separate_files(&sorted);
            DumpPlan { root, files }
        },
    }
}

/// The dump of all loaded assemblies into separate `<name>.cs` files,
/// under the application's data path (`.` when it cannot be read).
pub fn dump(assemblies: Vec<Assembly>, data_path: Result<String, String>) -> (r: DumpPlan)
    ensures
        plan_ok(r, dump_root_of(None, data_path), assemblies@, None),
{
    let root = dump_root(None, data_path);
    dump_assemblies_impl(root, assemblies, None)
}

/// The dump of all loaded assemblies into a single `dump.cs` file, under
/// the application's data path (`.` when it cannot be read).
pub fn dump_all(assemblies: Vec<Assembly>, data_path: Result<String, String>) -> (r: DumpPlan)
    ensures
        plan_ok(r, dump_root_of(None, data_path), assemblies@, Some("dump.cs"@)),
{
    let root = dump_root(None, data_path);
    dump_assemblies_impl(root, assemblies, Some("dump.cs"))
}

/// The dump of all loaded assemblies into separate `<name>.cs` files under
/// `base_path`.
pub fn dump_to(base_path: &str, assemblies: Vec<Assembly>) -> (r: DumpPlan)
    ensures
        plan_ok(r, base_path@, assemblies@, None),
{
    let root = dump_root(Some(base_path), Err(String::new()));
    dump_assemblies_impl(root, assemblies, None)
}

/// The dump of all loaded assemblies into a single `dump.cs` file under
/// `base_path`.
pub fn dump_all_to(base_path: &str, assemblies: Vec<Assembly>) -> (r: DumpPlan)
    ensures
        plan_ok(r, base_path@, assemblies@, Some("dump.cs"@)),
{
    let root = dump_root(Some(base_path), Err(String::new()));
    dump_assemblies_impl(root, assemblies, Some("dump.cs"))
}

/// The dump of the assemblies whose name holds `assembly_to_dump` into one
/// `<assembly_to_dump>.cs` file (with the image table of all of them),
/// under the application's data path; without a name, the dump of all
/// into `dump.cs` ([`dump_all`]).
pub fn dump_assembly(
    assembly_to_dump: Option<&str>,
    assemblies: Vec<Assembly>,
    data_path: Result<String, String>,
) -> (r: DumpPlan)
    ensures
        assembly_to_dump is None ==> plan_ok(
            r,
            dump_root_of(None, data_path),
            assemblies@,
            Some("dump.cs"@),
        ),
        assembly_to_dump matches Some(t) ==> {
            let s = sorted_by_key(assemblies@);
            &&& r.root@ == dump_root_of(None, data_path)
            &&& r.files@.len() == 1
            &&& r.files@[0].name@ == t@ + ".cs"@
            &&& r.files@[0].contents@ == image_list_text(s) + matching_text(s, Some(t@))
        },
{
    match assembly_to_dump {
        None => dump_all(assemblies, data_path),
        Some(target_name) => {
            let root = dump_root(None, data_path);
            let mut name = String::from_str(target_name);
            name.append(".cs");
            let sorted = sorted_assemblies(assemblies);
            let mut contents = image_list(&sorted);
            write_matching(&mut contents, &sorted, Some(target_name));
            let mut files: Vec<DumpFile> = Vec::new();
            files.push(DumpFile { name, contents });
            DumpPlan { root, files }
        },
    }
}

/// The text of an assembly: a header naming it, its file and its address
/// (as `{:?}` prints a pointer), then each class preceded by an empty line.
pub open spec fn assembly_summary(a: Assembly) -> Seq<char> {
    "// Assembly: "@ + a.name@ + " ("@ + a.file@ + ") @ 0x"@ + hex_lower(a.address as nat) + "\n"@
        + class_texts(a.classes@)
}

/// Each class rendered, preceded by an empty line.
pub open spec fn class_texts(cs: Seq<Class>) -> Seq<char>
    decreases cs.len(),
{
    if cs.len() == 0 {
        Seq::empty()
    } else {
        class_texts(cs.drop_last()) + "\n"@ + class_text(cs.last())
    }
}

impl Assembly {
    /// The assembly as text: a header with its name, file and address,
    /// then each of its classes rendered.
    pub fn to_string(&self) -> (r: String)
        ensures
            r@ == assembly_summary(*self),
    {
        let mut r = String::from_str("// Assembly: ");
        r.append(self.name.as_str());
        r.append(" (");
        r.append(self.file.as_str());
        r.append(") @ 0x");
        push_hex_lower(&mut r, self.address as u128);
        r.append("\n");
        let ghost head = r@;
        let ghost cs = self.classes@;
        let mut i: usize = 0;
        while i < self.classes.len()
            invariant
                i <= cs.len(),
                cs == self.classes@,
                r@ == head + class_texts(cs.take(i as int)),
            decreases cs.len() - i,
        {
            let t = self.classes[i].dump_string();
            let ghost before = r@;
            r.append("\n");
            r.append(t.as_str());
            proof {
                let now = cs.take(i + 1);
                assert(now.drop_last() =~= cs.take(i as int));
                assert(r@ =~= before + ("\n"@ + t@));
            }
            i = i + 1;
        }
        assert(cs.take(cs.len() as int) =~= cs);
        r
    }
}

/// The texts of `files`, each without its first `k` characters, one after
/// the other.
pub open spec fn bodies(files: Seq<DumpFile>, k: int) -> Seq<char>
    decreases files.len(),
{
    if files.len() == 0 {
        Seq::empty()
    } else {
        bodies(files.drop_last(), k) + files.last().contents@.skip(k)
    }
}

proof fn lemma_matching_all(s: Seq<Assembly>)
    ensures
        matching_text(s, None) == assemblies_text(s),
    decreases s.len(),
{
    if s.len() > 0 {
        lemma_matching_all(s.drop_last());
    }
}

proof fn lemma_bodies(s: Seq<Assembly>, files: Seq<DumpFile>, table: Seq<char>)
    requires
        files.len() == s.len(),
        forall|i: int| 0 <= i < s.len() ==> (#[trigger] files[i]).contents@ == table + assembly_text(s[i]),
    ensures
        bodies(files, table.len() as int) == assemblies_text(s),
    decreases s.len(),
{
    if s.len() > 0 {
        let fd = files.drop_last();
        let sd = s.drop_last();
        assert forall|i: int| 0 <= i < sd.len() implies (#[trigger] fd[i]).contents@ == table
            + assembly_text(sd[i]) by {
            assert(fd[i] == files[i]);
            assert(sd[i] == s[i]);
        }
        lemma_bodies(sd, fd, table);
        let last = files.last();
        assert(last.contents@ == table + assembly_text(s.last()));
        assert(last.contents@.skip(table.len() as int) =~= assembly_text(s.last()));
    }
}

/// A dump into a single file holds the image table once, then what the
/// dump into one file per assembly writes after the table in each of its
/// files, in the same order.
pub proof fn law_single_file_joins_separate_files(
    assemblies: Seq<Assembly>,
    root: Seq<char>,
    separate: DumpPlan,
    single: DumpPlan,
    name: Seq<char>,
)
    requires
        plan_ok(separate, root, assemblies, None),
        plan_ok(single, root, assemblies, Some(name)),
    ensures
        single.files@[0].contents@ == image_list_text(sorted_by_key(assemblies)) + bodies(
            separate.files@,
            image_list_text(sorted_by_key(assemblies)).len() as int,
        ),
{
    let s = sorted_by_key(assemblies);
    lemma_matching_all(s);
    lemma_bodies(s, separate.files@, image_list_text(s));
}

/// Every file of a dump into one file per assembly starts with the same
/// image table, listing all assemblies in dump order.
pub proof fn law_each_file_lists_every_image(
    assemblies: Seq<Assembly>,
    root: Seq<char>,
    plan: DumpPlan,
    i: int,
)
    requires
        plan_ok(plan, root, assemblies, None),
        0 <= i < plan.files@.len(),
    ensures
        plan.files@[i].contents@.take(image_list_text(sorted_by_key(assemblies)).len() as int)
            == image_list_text(sorted_by_key(assemblies)),
{
    let s = sorted_by_key(assemblies);
    let t = image_list_text(s);
    assert((t + assembly_text(s[i])).take(t.len() as int) =~= t);
}

} // verus!
