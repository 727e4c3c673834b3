//! Paths as the library sees them: the sequence of a path's components, of the
//! same kinds as std's `Path` splits a path into (a Windows prefix such as
//! `C:`, the root, `.`, `..`, and names), prefixes and names held as bytes.
//! Joining a name to a path appends one component.

use vstd::prelude::*;
use vstd::string::StringSliceAdditionalSpecFns;

verus! {

/// Name of the folder created next to each input to hold the decoded files.
pub const OUTPUT_DIR_NAME: &'static str = "dexor-decoded";

/// Prepended to every output file name so it's obvious it came out of here.
pub const FILENAME_PREFIX: &'static str = "dexor_";

/// Output name of a dropped file whose path has no file name.
pub const FALLBACK_FILE_NAME: &'static str = "decoded.bin";

/// Output folder name of a dropped folder whose path has no file name.
pub const FALLBACK_DIR_NAME: &'static str = "decoded";

/// How std reads a Windows path prefix.
#[derive(Debug, Clone, PartialEq, Eq, PartialOrd, Ord)]
pub enum PrefixKind {
    /// `\\?\prefix`
    Verbatim(Vec<u8>),
    /// `\\?\UNC\server\share`
    VerbatimUNC(Vec<u8>, Vec<u8>),
    /// `\\?\C:`, with the drive letter.
    VerbatimDisk(u8),
    /// `\\.\device`
    DeviceNS(Vec<u8>),
    /// `\\server\share`
    UNC(Vec<u8>, Vec<u8>),
    /// `C:`, with the drive letter.
    Disk(u8),
}

/// One component of a path.
#[derive(Debug, Clone, PartialEq, Eq, PartialOrd, Ord)]
pub enum Component {
    /// A Windows path prefix: its text as written, as bytes, and what it
    /// reads as.
    Prefix(Vec<u8>, PrefixKind),
    /// The root directory.
    RootDir,
    /// `.`
    CurDir,
    /// `..`
    ParentDir,
    /// A file or folder name, as its bytes.
    Normal(Vec<u8>),
}

/// A prefix kind, with bytes as sequences.
pub enum PrefixKindView {
    Verbatim(Seq<u8>),
    VerbatimUNC(Seq<u8>, Seq<u8>),
    VerbatimDisk(u8),
    DeviceNS(Seq<u8>),
    UNC(Seq<u8>, Seq<u8>),
    Disk(u8),
}

impl View for PrefixKind {
    type V = PrefixKindView;

    open spec fn view(&self) -> PrefixKindView {
        match self {
            PrefixKind::Verbatim(a) => PrefixKindView::Verbatim(a@),
            PrefixKind::VerbatimUNC(a, b) => PrefixKindView::VerbatimUNC(a@, b@),
            PrefixKind::VerbatimDisk(d) => PrefixKindView::VerbatimDisk(*d),
            PrefixKind::DeviceNS(a) => PrefixKindView::DeviceNS(a@),
            PrefixKind::UNC(a, b) => PrefixKindView::UNC(a@, b@),
            PrefixKind::Disk(d) => PrefixKindView::Disk(*d),
        }
    }
}

/// A component, with bytes as sequences.
pub enum ComponentView {
    Prefix(Seq<u8>, PrefixKindView),
    RootDir,
    CurDir,
    ParentDir,
    Normal(Seq<u8>),
}

impl View for Component {
    type V = ComponentView;

    open spec fn view(&self) -> ComponentView {
        match self {
            Component::Prefix(b, k) => ComponentView::Prefix(b@, k@),
            Component::RootDir => ComponentView::RootDir,
            Component::CurDir => ComponentView::CurDir,
            Component::ParentDir => ComponentView::ParentDir,
            Component::Normal(b) => ComponentView::Normal(b@),
        }
    }
}

/// The ASCII upper-case form of the byte `b`.
pub open spec fn ascii_upper(b: u8) -> u8 {
    if 0x61 <= b <= 0x7a {
        (b - 0x20) as u8
    } else {
        b
    }
}

/// Whether two prefixes read as the same, as std compares them: by kind and
/// parts, drive letters without regard to case, whatever text they were
/// written with.
pub open spec fn same_prefix(a: PrefixKindView, b: PrefixKindView) -> bool {
    match (a, b) {
        (PrefixKindView::Disk(x), PrefixKindView::Disk(y)) => ascii_upper(x) == ascii_upper(y),
        (PrefixKindView::VerbatimDisk(x), PrefixKindView::VerbatimDisk(y)) => ascii_upper(x)
            == ascii_upper(y),
        _ => a == b,
    }
}

/// Whether two components are the same, as std's `Component` equality has it.
pub open spec fn same_component(a: ComponentView, b: ComponentView) -> bool {
    match (a, b) {
        (ComponentView::Prefix(_, x), ComponentView::Prefix(_, y)) => same_prefix(x, y),
        _ => a == b,
    }
}

/// Whether two paths are the same, as std's `Path` equality has it: component
/// by component.
pub open spec fn same_path(a: Seq<ComponentView>, b: Seq<ComponentView>) -> bool {
    a.len() == b.len() && forall|i: int| 0 <= i < a.len() ==> same_component(a[i], b[i])
}

/// A path held as its components.
pub open spec fn path_view(p: Seq<Component>) -> Seq<ComponentView> {
    p.map_values(|c: Component| c@)
}

/// The bytes of `FILENAME_PREFIX`.
pub open spec fn name_prefix() -> Seq<u8> {
    seq![0x64u8, 0x65u8, 0x78u8, 0x6fu8, 0x72u8, 0x5fu8]
}

/// The bytes of `OUTPUT_DIR_NAME`.
pub open spec fn output_dir_name() -> Seq<u8> {
    seq![
        0x64u8, 0x65u8, 0x78u8, 0x6fu8, 0x72u8, 0x2du8, 0x64u8, 0x65u8, 0x63u8, 0x6fu8, 0x64u8,
        0x65u8, 0x64u8,
    ]
}

/// The bytes of `FALLBACK_FILE_NAME`.
pub open spec fn fallback_file_name() -> Seq<u8> {
    seq![0x64u8, 0x65u8, 0x63u8, 0x6fu8, 0x64u8, 0x65u8, 0x64u8, 0x2eu8, 0x62u8, 0x69u8, 0x6eu8]
}

/// The bytes of `FALLBACK_DIR_NAME`.
pub open spec fn fallback_dir_name() -> Seq<u8> {
    seq![0x64u8, 0x65u8, 0x63u8, 0x6fu8, 0x64u8, 0x65u8, 0x64u8]
}

/// The final component of `p` if it is a name, as `Path::file_name` gives it.
pub open spec fn spec_file_name(p: Seq<ComponentView>) -> Option<Seq<u8>> {
    if p.len() > 0 {
        match p.last() {
            ComponentView::Normal(n) => Some(n),
            _ => None,
        }
    } else {
        None
    }
}

/// `p` without its final component, as `Path::parent` gives it: `None` when
/// `p` is empty or ends in the root or a prefix.
pub open spec fn spec_parent(p: Seq<ComponentView>) -> Option<Seq<ComponentView>> {
    if p.len() > 0 && !(p.last() is RootDir) && !(p.last() is Prefix) {
        Some(p.drop_last())
    } else {
        None
    }
}

/// `FILENAME_PREFIX` followed by `name`.
pub open spec fn prefixed_name(name: Seq<u8>) -> Seq<u8> {
    name_prefix() + name
}

pub proof fn lemma_constant_bytes()
    ensures
        FILENAME_PREFIX.spec_bytes() == name_prefix(),
        OUTPUT_DIR_NAME.spec_bytes() == output_dir_name(),
        FALLBACK_FILE_NAME.spec_bytes() == fallback_file_name(),
        FALLBACK_DIR_NAME.spec_bytes() == fallback_dir_name(),
{
    reveal_strlit("dexor_");
    reveal_strlit("dexor-decoded");
    reveal_strlit("decoded.bin");
    reveal_strlit("decoded");
    assert(vstd::string::is_ascii(FILENAME_PREFIX));
    assert(vstd::string::is_ascii(OUTPUT_DIR_NAME));
    assert(vstd::string::is_ascii(FALLBACK_FILE_NAME));
    assert(vstd::string::is_ascii(FALLBACK_DIR_NAME));
    assert(FILENAME_PREFIX.spec_bytes() =~= name_prefix());
    assert(OUTPUT_DIR_NAME.spec_bytes() =~= output_dir_name());
    assert(FALLBACK_FILE_NAME.spec_bytes() =~= fallback_file_name());
    assert(FALLBACK_DIR_NAME.spec_bytes() =~= fallback_dir_name());
}

/// The bytes of `s`, owned.
fn str_bytes(s: &str) -> (v: Vec<u8>)
    ensures
        v@ == s.spec_bytes(),
{
    let b = s.as_bytes();
    copy_bytes(b)
}

/// A copy of the bytes `s`.
pub fn copy_bytes(s: &[u8]) -> (v: Vec<u8>)
    ensures
        v@ == s@,
{
    let mut v: Vec<u8> = Vec::new();
    let mut i: usize = 0;
    while i < s.len()
        invariant
            0 <= i <= s@.len(),
            v@ == s@.subrange(0, i as int),
        decreases s@.len() - i,
    {
        v.push(s[i]);
        i += 1;
        assert(v@ =~= s@.subrange(0, i as int));
    }
    assert(v@ =~= s@);
    v
}

/// A copy of the prefix kind `k`.
pub fn copy_prefix_kind(k: &PrefixKind) -> (c: PrefixKind)
    ensures
        c@ == k@,
{
    match k {
        PrefixKind::Verbatim(a) => PrefixKind::Verbatim(copy_bytes(a.as_slice())),
        PrefixKind::VerbatimUNC(a, b) => PrefixKind::VerbatimUNC(
            copy_bytes(a.as_slice()),
            copy_bytes(b.as_slice()),
        ),
        PrefixKind::VerbatimDisk(d) => PrefixKind::VerbatimDisk(*d),
        PrefixKind::DeviceNS(a) => PrefixKind::DeviceNS(copy_bytes(a.as_slice())),
        PrefixKind::UNC(a, b) => PrefixKind::UNC(copy_bytes(a.as_slice()), copy_bytes(b.as_slice())),
        PrefixKind::Disk(d) => PrefixKind::Disk(*d),
    }
}

/// A copy of the component `c`.
pub fn copy_component(c: &Component) -> (d: Component)
    ensures
        d@ == c@,
{
    match c {
        Component::Prefix(b, k) => Component::Prefix(copy_bytes(b.as_slice()), copy_prefix_kind(k)),
        Component::RootDir => Component::RootDir,
        Component::CurDir => Component::CurDir,
        Component::ParentDir => Component::ParentDir,
        Component::Normal(b) => Component::Normal(copy_bytes(b.as_slice())),
    }
}

/// A copy of the path `p`.
pub fn copy_path(p: &Vec<Component>) -> (q: Vec<Component>)
    ensures
        path_view(q@) == path_view(p@),
{
    let mut q: Vec<Component> = Vec::new();
    let mut i: usize = 0;
    while i < p.len()
        invariant
            0 <= i <= p@.len(),
            q@.len() == i,
            forall|j: int| 0 <= j < i ==> #[trigger] q@[j]@ == p@[j]@,
        decreases p@.len() - i,
    {
        let c = copy_component(&p[i]);
        q.push(c);
        i += 1;
    }
    assert(path_view(q@) =~= path_view(p@));
    q
}

/// The path `p` with the name `name` appended.
pub fn join(p: &Vec<Component>, name: Vec<u8>) -> (q: Vec<Component>)
    ensures
        path_view(q@) == path_view(p@).push(ComponentView::Normal(name@)),
{
    let mut q = copy_path(p);
    q.push(Component::Normal(name));
    assert(path_view(q@) =~= path_view(p@).push(ComponentView::Normal(name@)));
    q
}

fn bytes_equal(a: &[u8], b: &[u8]) -> (r: bool)
    ensures
        r == (a@ == b@),
{
    if a.len() != b.len() {
        return false;
    }
    let mut i: usize = 0;
    while i < a.len()
        invariant
            a@.len() == b@.len(),
            0 <= i <= a@.len(),
            forall|j: int| 0 <= j < i ==> a@[j] == b@[j],
        decreases a@.len() - i,
    {
        if a[i] != b[i] {
            return false;
        }
        i += 1;
    }
    assert(a@ =~= b@);
    true
}

fn upper(b: u8) -> (r: u8)
    ensures
        r == ascii_upper(b),
{
    if 0x61 <= b && b <= 0x7a {
        b - 0x20
    } else {
        b
    }
}

fn prefixes_same(a: &PrefixKind, b: &PrefixKind) -> (r: bool)
    ensures
        r == same_prefix(a@, b@),
{
    match (a, b) {
        (PrefixKind::Verbatim(x), PrefixKind::Verbatim(y)) => bytes_equal(x.as_slice(), y.as_slice()),
        (PrefixKind::VerbatimUNC(x1, x2), PrefixKind::VerbatimUNC(y1, y2)) => {
            let s1 = bytes_equal(x1.as_slice(), y1.as_slice());
            let s2 = bytes_equal(x2.as_slice(), y2.as_slice());
            s1 && s2
        },
        (PrefixKind::VerbatimDisk(x), PrefixKind::VerbatimDisk(y)) => upper(*x) == upper(*y),
        (PrefixKind::DeviceNS(x), PrefixKind::DeviceNS(y)) => bytes_equal(x.as_slice(), y.as_slice()),
        (PrefixKind::UNC(x1, x2), PrefixKind::UNC(y1, y2)) => {
            let s1 = bytes_equal(x1.as_slice(), y1.as_slice());
            let s2 = bytes_equal(x2.as_slice(), y2.as_slice());
            s1 && s2
        },
        (PrefixKind::Disk(x), PrefixKind::Disk(y)) => upper(*x) == upper(*y),
        _ => false,
    }
}

fn components_same(a: &Component, b: &Component) -> (r: bool)
    ensures
        r == same_component(a@, b@),
{
    match (a, b) {
        (Component::Prefix(_, x), Component::Prefix(_, y)) => prefixes_same(x, y),
        (Component::RootDir, Component::RootDir) => true,
        (Component::CurDir, Component::CurDir) => true,
        (Component::ParentDir, Component::ParentDir) => true,
        (Component::Normal(x), Component::Normal(y)) => bytes_equal(x.as_slice(), y.as_slice()),
        _ => false,
    }
}

/// Whether two paths are the same path, as std's `Path` equality has it.
pub fn paths_equal(a: &Vec<Component>, b: &Vec<Component>) -> (r: bool)
    ensures
        r == same_path(path_view(a@), path_view(b@)),
{
    if a.len() != b.len() {
        return false;
    }
    let mut i: usize = 0;
    while i < a.len()
        invariant
            a@.len() == b@.len(),
            0 <= i <= a@.len(),
            forall|j: int| 0 <= j < i ==> same_component(path_view(a@)[j], path_view(b@)[j]),
        decreases a@.len() - i,
    {
        if !components_same(&a[i], &b[i]) {
            assert(!same_component(path_view(a@)[i as int], path_view(b@)[i as int]));
            return false;
        }
        i += 1;
    }
    true
}

/// The final component of `p` if it is a name (not a prefix, the root, `.`
/// or `..`).
pub fn file_name(p: &Vec<Component>) -> (r: Option<Vec<u8>>)
    ensures
        r matches Some(n) ==> spec_file_name(path_view(p@)) == Some(n@),
        r is None ==> spec_file_name(path_view(p@)) is None,
{
    if p.len() == 0 {
        return None;
    }
    let last = &p[p.len() - 1];
    assert(path_view(p@).last() == last@);
    match last {
        Component::Normal(n) => Some(copy_bytes(n.as_slice())),
        _ => None,
    }
}

/// `p` without its final component, or `None` when `p` is empty or ends in the
/// root or a prefix.
pub fn parent(p: &Vec<Component>) -> (r: Option<Vec<Component>>)
    ensures
        r matches Some(q) ==> spec_parent(path_view(p@)) == Some(path_view(q@)),
        r is None ==> spec_parent(path_view(p@)) is None,
{
    if p.len() == 0 {
        return None;
    }
    let n = p.len() - 1;
    assert(path_view(p@).last() == p@[n as int]@);
    match &p[n] {
        Component::RootDir => {
            return None;
        },
        Component::Prefix(..) => {
            return None;
        },
        _ => {},
    }
    let mut q: Vec<Component> = Vec::new();
    let mut i: usize = 0;
    while i < n
        invariant
            n + 1 == p@.len(),
            0 <= i <= n,
            q@.len() == i,
            forall|j: int| 0 <= j < i ==> #[trigger] q@[j]@ == p@[j]@,
        decreases n - i,
    {
        let c = copy_component(&p[i]);
        q.push(c);
        i += 1;
    }
    assert(path_view(q@) =~= path_view(p@).drop_last());
    Some(q)
}

/// `dexor_` followed by the original file name.
pub fn prefixed(name: &[u8]) -> (r: Vec<u8>)
    ensures
        r@ == prefixed_name(name@),
        r@ == FILENAME_PREFIX.spec_bytes() + name@,
{
    proof {
        lemma_constant_bytes();
    }
    let mut r = str_bytes(FILENAME_PREFIX);
    let mut i: usize = 0;
    while i < name.len()
        invariant
            0 <= i <= name@.len(),
            r@ == name_prefix() + name@.subrange(0, i as int),
        decreases name@.len() - i,
    {
        r.push(name[i]);
        i += 1;
        assert(r@ =~= name_prefix() + name@.subrange(0, i as int));
    }
    assert(name@.subrange(0, name@.len() as int) =~= name@);
    r
}

/// The bytes of `OUTPUT_DIR_NAME`.
pub fn output_dir_name_bytes() -> (v: Vec<u8>)
    ensures
        v@ == output_dir_name(),
{
    proof {
        lemma_constant_bytes();
    }
    str_bytes(OUTPUT_DIR_NAME)
}

/// The bytes of `FALLBACK_FILE_NAME`.
pub fn fallback_file_name_bytes() -> (v: Vec<u8>)
    ensures
        v@ == fallback_file_name(),
{
    proof {
        lemma_constant_bytes();
    }
    str_bytes(FALLBACK_FILE_NAME)
}

/// The bytes of `FALLBACK_DIR_NAME`.
pub fn fallback_dir_name_bytes() -> (v: Vec<u8>)
    ensures
        v@ == fallback_dir_name(),
{
    proof {
        lemma_constant_bytes();
    }
    str_bytes(FALLBACK_DIR_NAME)
}

/// The path `.`.
pub fn current_dir_path() -> (p: Vec<Component>)
    ensures
        path_view(p@) == seq![ComponentView::CurDir],
{
    let mut p: Vec<Component> = Vec::new();
    p.push(Component::CurDir);
    assert(path_view(p@) =~= seq![ComponentView::CurDir]);
    p
}


/// An output name is the six bytes of `dexor_` followed by the original name
/// byte for byte: no byte of the name is dropped, added or changed, whatever
/// its value.
pub proof fn lemma_prefixed_name_keeps_the_name(name: Seq<u8>)
    ensures
        prefixed_name(name) == FILENAME_PREFIX.spec_bytes() + name,
        prefixed_name(name).len() == name.len() + 6,
        prefixed_name(name).subrange(0, 6) == seq![
            0x64u8,
            0x65u8,
            0x78u8,
            0x6fu8,
            0x72u8,
            0x5fu8,
        ],
        prefixed_name(name).subrange(6, 6 + name.len() as int) == name,
        forall|i: int| 0 <= i < name.len() ==> #[trigger] prefixed_name(name)[6 + i] == name[i],
{
    lemma_constant_bytes();
    let p = FILENAME_PREFIX.spec_bytes();
    assert(p.len() == 6);
    assert((p + name).subrange(0, 6) =~= p);
    assert((p + name).subrange(6, 6 + name.len() as int) =~= name);
    assert(p =~= seq![0x64u8, 0x65u8, 0x78u8, 0x6fu8, 0x72u8, 0x5fu8]);
}

/// Two paths are the same path only if they have the same length and agree at
/// every position: names byte for byte, the root, `.` and `..` as themselves,
/// prefixes as std reads them. Any path is the same path as itself.
pub proof fn lemma_same_path_compares_every_component(a: Seq<ComponentView>, b: Seq<ComponentView>)
    ensures
        same_path(a, a),
        same_path(a, b) ==> a.len() == b.len(),
        same_path(a, b) ==> forall|i: int| 0 <= i < a.len() ==> same_component(#[trigger] a[i], b[i]),
        same_path(a, b) ==> forall|i: int|
            0 <= i < a.len() && (a[i] is Normal || b[i] is Normal) ==> #[trigger] a[i] == b[i],
        same_path(a, b) ==> forall|i: int|
            0 <= i < a.len() && !(a[i] is Prefix) ==> #[trigger] a[i] == b[i],
        (a.len() == b.len() && forall|i: int| 0 <= i < a.len() ==> same_component(#[trigger] a[i], b[i]))
            ==> same_path(a, b),
{
    assert forall|i: int| 0 <= i < a.len() implies same_component(#[trigger] a[i], a[i]) by {
        match a[i] {
            ComponentView::Prefix(_, k) => {
                assert(same_prefix(k, k));
            },
            _ => {},
        }
    }
    if same_path(a, b) {
        assert forall|i: int| 0 <= i < a.len() && !(a[i] is Prefix) implies #[trigger] a[i] == b[i] by {
            assert(same_component(a[i], b[i]));
        }
        assert forall|i: int| 0 <= i < a.len() && (a[i] is Normal || b[i] is Normal) implies #[trigger] a[i]
            == b[i] by {
            assert(same_component(a[i], b[i]));
        }
    }
}

} // verus!
