use vstd::prelude::*;

use crate::formatting::{hex_min2, with_hex};

verus! {

/// A node of the virtual file system.
pub enum Inode {
    File(Vec<u8>),
    Directory,
}

/// What a node holds.
pub enum InodeView {
    File(Seq<u8>),
    Directory,
}

impl View for Inode {
    type V = InodeView;

    open spec fn view(&self) -> InodeView {
        match self {
            Inode::File(data) => InodeView::File(data@),
            Inode::Directory => InodeView::Directory,
        }
    }
}

impl Inode {
    fn duplicate(&self) -> (n: Inode)
        ensures
            n@ == self@,
    {
        match self {
            Inode::File(data) => Inode::File(data.clone()),
            Inode::Directory => Inode::Directory,
        }
    }
}

/// A path and the node stored under it.
pub struct FsEntry {
    pub path: Vec<u8>,
    pub node: Inode,
}

/// What the DOS controller holds. Paths and names are byte strings: each byte
/// is the character with that code, as the CPU writes them one byte at a time.
#[verifier::ext_equal]
pub struct DosView {
    pub port: u16,
    pub fs: Seq<(Seq<u8>, InodeView)>,
    pub cwd: Seq<u8>,
    pub arg: Seq<u8>,
    pub out: Seq<u8>,
    pub status: u8,
    pub is_open: bool,
}

/// No path occurs twice in the file system.
pub open spec fn fs_unique(fs: Seq<(Seq<u8>, InodeView)>) -> bool {
    forall|i: int, j: int| 0 <= i < j < fs.len() ==> #[trigger] fs[i].0 != #[trigger] fs[j].0
}

/// The index of `path` in the file system, if it is there.
pub open spec fn fs_find(fs: Seq<(Seq<u8>, InodeView)>, path: Seq<u8>) -> Option<int>
    decreases fs.len(),
{
    if fs.len() == 0 {
        None
    } else if fs.last().0 == path {
        Some(fs.len() - 1)
    } else {
        fs_find(fs.drop_last(), path)
    }
}

/// The node stored under `path`.
pub open spec fn fs_lookup(fs: Seq<(Seq<u8>, InodeView)>, path: Seq<u8>) -> Option<InodeView> {
    match fs_find(fs, path) {
        Some(i) => Some(fs[i].1),
        None => None,
    }
}

/// The file system after storing `node` under `path`, replacing what was there.
pub open spec fn fs_insert(fs: Seq<(Seq<u8>, InodeView)>, path: Seq<u8>, node: InodeView) -> Seq<
    (Seq<u8>, InodeView),
> {
    match fs_find(fs, path) {
        Some(i) => fs.update(i, (path, node)),
        None => fs.push((path, node)),
    }
}

/// The bytes `/`.
pub open spec fn root_path() -> Seq<u8> {
    seq![47u8]
}

/// A byte that stands for a white-space character.
pub open spec fn is_space_byte(b: u8) -> bool {
    (9 <= b <= 13) || b == 32 || b == 0x85 || b == 0xA0
}

/// The number of white-space bytes at the start of `s`.
pub open spec fn leading_space(s: Seq<u8>) -> nat
    decreases s.len(),
{
    if s.len() > 0 && is_space_byte(s[0]) {
        1 + leading_space(s.drop_first())
    } else {
        0
    }
}

/// The number of white-space bytes at the end of `s`.
pub open spec fn trailing_space(s: Seq<u8>) -> nat
    decreases s.len(),
{
    if s.len() > 0 && is_space_byte(s.last()) {
        1 + trailing_space(s.drop_last())
    } else {
        0
    }
}

/// `s` without white space at either end.
pub open spec fn trim(s: Seq<u8>) -> Seq<u8> {
    let front = s.skip(leading_space(s) as int);
    front.take(front.len() - trailing_space(front))
}

/// The path components after applying one segment of a path: empty segments
/// and `.` stay, `..` goes up one level, anything else goes down into it.
pub open spec fn apply_segment(parts: Seq<Seq<u8>>, seg: Seq<u8>) -> Seq<Seq<u8>> {
    if seg.len() == 0 || seg == seq![46u8] {
        parts
    } else if seg == seq![46u8, 46u8] {
        if parts.len() > 0 {
            parts.drop_last()
        } else {
            parts
        }
    } else {
        parts.push(seg)
    }
}

/// Walks the `/`-separated segments of `rest`, the current segment so far being `cur`.
pub open spec fn walk_path(parts: Seq<Seq<u8>>, cur: Seq<u8>, rest: Seq<u8>) -> Seq<Seq<u8>>
    decreases rest.len(),
{
    if rest.len() == 0 {
        apply_segment(parts, cur)
    } else if rest[0] == 47u8 {
        walk_path(apply_segment(parts, cur), Seq::empty(), rest.drop_first())
    } else {
        walk_path(parts, cur.push(rest[0]), rest.drop_first())
    }
}

/// The non-empty `/`-separated segments of `rest`, the current one so far being `cur`.
pub open spec fn segments_of(parts: Seq<Seq<u8>>, cur: Seq<u8>, rest: Seq<u8>) -> Seq<Seq<u8>>
    decreases rest.len(),
{
    let keep = if cur.len() > 0 {
        parts.push(cur)
    } else {
        parts
    };
    if rest.len() == 0 {
        keep
    } else if rest[0] == 47u8 {
        segments_of(keep, Seq::empty(), rest.drop_first())
    } else {
        segments_of(parts, cur.push(rest[0]), rest.drop_first())
    }
}

/// The absolute path `/a/b/...` made of the components.
pub open spec fn join_path(parts: Seq<Seq<u8>>) -> Seq<u8>
    decreases parts.len(),
{
    if parts.len() == 0 {
        Seq::empty()
    } else {
        join_path(parts.drop_last()) + seq![47u8] + parts.last()
    }
}

/// The absolute path that `path` names from the directory `cwd`: white space
/// around it is ignored, a leading `/` starts from the root, `.` and empty
/// segments are skipped, `..` goes up.
pub open spec fn resolve_path(cwd: Seq<u8>, path: Seq<u8>) -> Seq<u8> {
    let p = trim(path);
    if p == root_path() {
        root_path()
    } else {
        let start = if p.len() > 0 && p[0] == 47u8 {
            Seq::empty()
        } else {
            segments_of(Seq::empty(), Seq::empty(), cwd)
        };
        let parts = walk_path(start, Seq::empty(), p);
        if parts.len() == 0 {
            root_path()
        } else {
            join_path(parts)
        }
    }
}

/// The UTF-8 bytes of the character whose code is `b`.
pub open spec fn char_utf8(b: u8) -> Seq<u8> {
    if b < 128 {
        seq![b]
    } else {
        seq![(0xC0 + b / 64) as u8, (0x80 + b % 64) as u8]
    }
}

/// The UTF-8 bytes of a byte string read as characters.
pub open spec fn name_utf8(s: Seq<u8>) -> Seq<u8>
    decreases s.len(),
{
    if s.len() == 0 {
        Seq::empty()
    } else {
        name_utf8(s.drop_last()) + char_utf8(s.last())
    }
}

/// The directory prefix of the entries of `cwd`.
pub open spec fn dir_prefix(cwd: Seq<u8>) -> Seq<u8> {
    if cwd == root_path() {
        root_path()
    } else {
        cwd.push(47u8)
    }
}

/// The label of a listing line: `[DIR] ` or `[FILE]`.
pub open spec fn node_label(n: InodeView) -> Seq<u8> {
    match n {
        InodeView::Directory => seq![91u8, 68u8, 73u8, 82u8, 93u8, 32u8],
        InodeView::File(_) => seq![91u8, 70u8, 73u8, 76u8, 69u8, 93u8],
    }
}

/// The listing line of an entry, if it is a direct child of the directory
/// with entry prefix `prefix`: label, a space, its name, CR LF.
pub open spec fn listing_line(prefix: Seq<u8>, e: (Seq<u8>, InodeView)) -> Seq<u8> {
    let path = e.0;
    if prefix.len() <= path.len() && path.subrange(0, prefix.len() as int) == prefix {
        let rest = path.subrange(prefix.len() as int, path.len() as int);
        if rest.len() > 0 && !rest.contains(47u8) {
            node_label(e.1) + seq![32u8] + name_utf8(rest) + seq![13u8, 10u8]
        } else {
            Seq::empty()
        }
    } else {
        Seq::empty()
    }
}

/// The listing lines of the entries of `fs`.
pub open spec fn listing_lines(prefix: Seq<u8>, fs: Seq<(Seq<u8>, InodeView)>) -> Seq<u8>
    decreases fs.len(),
{
    if fs.len() == 0 {
        Seq::empty()
    } else {
        listing_lines(prefix, fs.drop_last()) + listing_line(prefix, fs.last())
    }
}

/// The text of a directory listing: one line per direct child, or `Empty`.
pub open spec fn listing(fs: Seq<(Seq<u8>, InodeView)>, cwd: Seq<u8>) -> Seq<u8> {
    let lines = listing_lines(dir_prefix(cwd), fs);
    if lines.len() == 0 {
        seq![69u8, 109u8, 112u8, 116u8, 121u8, 13u8, 10u8]
    } else {
        lines
    }
}

/// The controller after its command port receives `cmd`: 0 clears the
/// argument and the output, 1 makes a directory, 2 changes directory,
/// 3 lists the current directory, 4 reads a file; other codes do nothing.
/// Status 0 is OK, 1 an error, 2 data ready.
pub open spec fn dos_command(d: DosView, cmd: u8) -> DosView {
    if cmd == 0 {
        DosView { arg: Seq::empty(), out: Seq::empty(), status: 0, ..d }
    } else if cmd == 1 {
        DosView {
            fs: fs_insert(d.fs, resolve_path(d.cwd, d.arg), InodeView::Directory),
            status: 0,
            ..d
        }
    } else if cmd == 2 {
        let target = resolve_path(d.cwd, d.arg);
        match fs_lookup(d.fs, target) {
            Some(InodeView::Directory) => DosView { cwd: target, status: 0, ..d },
            _ => DosView { status: 1, ..d },
        }
    } else if cmd == 3 {
        let out = d.out + listing(d.fs, d.cwd);
        DosView { out, status: if out.len() == 0 { 0 } else { 2 }, ..d }
    } else if cmd == 4 {
        match fs_lookup(d.fs, resolve_path(d.cwd, d.arg)) {
            Some(InodeView::File(data)) => {
                let out = d.out + data;
                DosView { out, status: if out.len() == 0 { 0 } else { 2 }, ..d }
            },
            _ => DosView { status: 1, ..d },
        }
    } else {
        d
    }
}

/// The controller after a write to `port`, and whether it was handled: the data
/// port appends to the argument, the port above it runs a command.
pub open spec fn dos_write(d: DosView, port: u16, data: u8) -> (DosView, bool) {
    let p = port % 256;
    let base = d.port % 256;
    if p == base {
        (DosView { arg: d.arg.push(data), ..d }, true)
    } else if p == base + 1 {
        (dos_command(d, data), true)
    } else {
        (d, false)
    }
}

/// The controller after a read of `port`, and what the read returns: the data
/// port delivers the next output byte (the status returns to OK when the
/// output runs out), the port two above it gives the status.
pub open spec fn dos_read(d: DosView, port: u16) -> (DosView, Option<u8>) {
    let p = port % 256;
    let base = d.port % 256;
    if p == base {
        if d.out.len() > 0 {
            let out = d.out.drop_first();
            (DosView { out, status: if out.len() == 0 { 0 } else { d.status }, ..d }, Some(d.out[0]))
        } else {
            (d, Some(0u8))
        }
    } else if p == base + 2 {
        (d, Some(d.status))
    } else {
        (d, None)
    }
}

/// A disk operating system controller: the CPU writes a path one byte at a
/// time and then a command code; results come back through the data port.
pub struct VirtualDOS {
    port: u16,
    fs: Vec<FsEntry>,
    cwd: Vec<u8>,
    arg_buffer: Vec<u8>,
    out_queue: std::collections::VecDeque<u8>,
    status: u8,
    is_open: bool,
}

pub open spec fn fs_view(fs: Seq<FsEntry>) -> Seq<(Seq<u8>, InodeView)> {
    fs.map_values(|e: FsEntry| (e.path@, e.node@))
}

impl View for VirtualDOS {
    type V = DosView;

    closed spec fn view(&self) -> DosView {
        DosView {
            port: self.port,
            fs: fs_view(self.fs@),
            cwd: self.cwd@,
            arg: self.arg_buffer@,
            out: self.out_queue@,
            status: self.status,
            is_open: self.is_open,
        }
    }
}

fn bytes_eq(a: &Vec<u8>, b: &Vec<u8>) -> (r: bool)
    ensures
        r == (a@ == b@),
{
    if a.len() != b.len() {
        return false;
    }
    let mut i: usize = 0;
    while i < a.len()
        invariant
            a@.len() == b@.len(),
            i <= a@.len(),
            forall|j: int| 0 <= j < i ==> a@[j] == b@[j],
        decreases a@.len() - i,
    {
        if a[i] != b[i] {
            return false;
        }
        i = i + 1;
    }
    assert(a@ =~= b@);
    true
}

proof fn lemma_find_some(fs: Seq<(Seq<u8>, InodeView)>, path: Seq<u8>)
    ensures
        match fs_find(fs, path) {
            Some(i) => 0 <= i < fs.len() && fs[i].0 == path,
            None => forall|j: int| 0 <= j < fs.len() ==> fs[j].0 != path,
        },
    decreases fs.len(),
{
    if fs.len() > 0 {
        lemma_find_some(fs.drop_last(), path);
        if fs.last().0 != path {
            match fs_find(fs.drop_last(), path) {
                Some(i) => {},
                None => {
                    assert forall|j: int| 0 <= j < fs.len() implies fs[j].0 != path by {
                        if j < fs.len() - 1 {
                            assert(fs[j] == fs.drop_last()[j]);
                        }
                    }
                },
            }
        }
    }
}

proof fn lemma_find_unique(fs: Seq<(Seq<u8>, InodeView)>, path: Seq<u8>, k: int)
    requires
        fs_unique(fs),
        0 <= k < fs.len(),
        fs[k].0 == path,
    ensures
        fs_find(fs, path) == Some(k),
{
    lemma_find_some(fs, path);
    match fs_find(fs, path) {
        Some(i) => {
            if i != k {
                if i < k {
                    assert(fs[i].0 != fs[k].0);
                } else {
                    assert(fs[k].0 != fs[i].0);
                }
            }
        },
        None => {},
    }
}

impl VirtualDOS {
    /// Well-formed: each path names at most one node.
    pub open spec fn wf(&self) -> bool {
        fs_unique(self@.fs)
    }

    /// A controller on `port` whose file system holds only the root directory.
    pub fn new(port: u16) -> (d: Self)
        ensures
            d@ == (DosView {
                port,
                fs: seq![(root_path(), InodeView::Directory)],
                cwd: root_path(),
                arg: Seq::empty(),
                out: Seq::empty(),
                status: 0,
                is_open: true,
            }),
            d.wf(),
    {
        let root: Vec<u8> = vec![47u8];
        assert(root@ =~= root_path());
        let mut fs: Vec<FsEntry> = Vec::new();
        fs.push(FsEntry { path: root.clone(), node: Inode::Directory });
        let d = VirtualDOS {
            port,
            fs,
            cwd: root,
            arg_buffer: Vec::new(),
            out_queue: std::collections::VecDeque::new(),
            status: 0,
            is_open: true,
        };
        assert(d@.fs =~= seq![(root_path(), InodeView::Directory)]);
        assert(d@.cwd =~= root_path());
        d
    }

    /// The current directory.
    pub fn cwd(&self) -> (c: Vec<u8>)
        ensures
            c@ == self@.cwd,
    {
        self.cwd.clone()
    }

    /// The status code (0 OK, 1 error, 2 data ready).
    pub fn status(&self) -> (s: u8)
        ensures
            s == self@.status,
    {
        self.status
    }

    fn find(&self, path: &Vec<u8>) -> (r: Option<usize>)
        ensures
            match r {
                Some(i) => fs_find(self@.fs, path@) == Some(i as int),
                None => fs_find(self@.fs, path@) is None,
            },
    {
        let n = self.fs.len();
        let mut i: usize = n;
        assert(self@.fs.subrange(0, n as int) =~= self@.fs);
        while i > 0
            invariant
                i <= n == self.fs@.len(),
                fs_find(self@.fs, path@) == fs_find(self@.fs.subrange(0, i as int), path@),
            decreases i,
        {
            let ghost sub = self@.fs.subrange(0, i as int);
            assert(sub.last() == self@.fs[i - 1]);
            assert(sub.drop_last() =~= self@.fs.subrange(0, i - 1));
            if bytes_eq(&self.fs[i - 1].path, path) {
                return Some(i - 1);
            }
            i = i - 1;
        }
        None
    }

    fn insert(&mut self, path: Vec<u8>, node: Inode)
        requires
            old(self).wf(),
        ensures
            final(self)@ == (DosView { fs: fs_insert(old(self)@.fs, path@, node@), ..old(self)@ }),
            final(self).wf(),
    {
        let ghost p = path@;
        let ghost n = node@;
        proof {
            lemma_find_some(self@.fs, p);
        }
        match self.find(&path) {
            Some(i) => {
                self.fs.set(i, FsEntry { path, node });
                assert(self@.fs =~= old(self)@.fs.update(i as int, (p, n)));
                assert forall|a: int, b: int| 0 <= a < b < self@.fs.len() implies #[trigger] self@.fs[a].0
                    != #[trigger] self@.fs[b].0 by {
                    if a != i && b != i {
                        assert(old(self)@.fs[a].0 != old(self)@.fs[b].0);
                    } else if a == i {
                        assert(old(self)@.fs[a].0 != old(self)@.fs[b].0);
                    } else {
                        assert(old(self)@.fs[a].0 != old(self)@.fs[b].0);
                    }
                }
            },
            None => {
                self.fs.push(FsEntry { path, node });
                assert(self@.fs =~= old(self)@.fs.push((p, n)));
                assert forall|a: int, b: int| 0 <= a < b < self@.fs.len() implies #[trigger] self@.fs[a].0
                    != #[trigger] self@.fs[b].0 by {
                    if b < old(self)@.fs.len() {
                        assert(old(self)@.fs[a].0 != old(self)@.fs[b].0);
                    } else {
                        assert(self@.fs[a] == old(self)@.fs[a]);
                    }
                }
            },
        }
    }

    /// Stores a file under `path`, replacing what was there.
    pub fn add_file(&mut self, path: Vec<u8>, contents: Vec<u8>)
        requires
            old(self).wf(),
        ensures
            final(self)@ == (DosView {
                fs: fs_insert(old(self)@.fs, path@, InodeView::File(contents@)),
                ..old(self)@
            }),
            final(self).wf(),
    {
        self.insert(path, Inode::File(contents));
    }
}

} // verus!

verus! {

/// The byte strings held by a list of byte vectors.
pub open spec fn vecs_view(v: Seq<Vec<u8>>) -> Seq<Seq<u8>> {
    v.map_values(|x: Vec<u8>| x@)
}

fn is_space_byte_exec(b: u8) -> (r: bool)
    ensures
        r == is_space_byte(b),
{
    (9 <= b && b <= 13) || b == 32 || b == 0x85 || b == 0xA0
}

fn trim_bytes(s: &Vec<u8>) -> (t: Vec<u8>)
    ensures
        t@ == trim(s@),
{
    let n = s.len();
    let mut i: usize = 0;
    assert(s@.skip(0) =~= s@);
    while i < n && is_space_byte_exec(s[i])
        invariant
            i <= n == s@.len(),
            leading_space(s@) == i + leading_space(s@.skip(i as int)),
        decreases n - i,
    {
        assert(s@.skip(i as int).drop_first() =~= s@.skip(i + 1));
        i = i + 1;
    }
    assert(leading_space(s@.skip(i as int)) == 0);
    let ghost front = s@.skip(i as int);
    let mut j: usize = n;
    assert(front.take(n - i) =~= front);
    while j > i && is_space_byte_exec(s[j - 1])
        invariant
            i <= j <= n == s@.len(),
            front == s@.skip(i as int),
            trailing_space(front) == (n - j) + trailing_space(front.take(j - i)),
        decreases j,
    {
        assert(front.take(j - i).drop_last() =~= front.take(j - 1 - i));
        assert(front.take(j - i).last() == s@[j - 1]);
        j = j - 1;
    }
    assert(trailing_space(front.take(j - i)) == 0) by {
        if j > i {
            assert(front.take(j - i).last() == s@[j - 1]);
        }
    }
    let mut t: Vec<u8> = Vec::new();
    let mut k: usize = i;
    while k < j
        invariant
            i <= k <= j <= n == s@.len(),
            t@ =~= s@.subrange(i as int, k as int),
        decreases j - k,
    {
        t.push(s[k]);
        k = k + 1;
    }
    assert(front.take(front.len() - trailing_space(front)) =~= s@.subrange(i as int, j as int));
    t
}

fn apply_segment_exec(parts: &mut Vec<Vec<u8>>, seg: Vec<u8>)
    ensures
        vecs_view(final(parts)@) == apply_segment(vecs_view(old(parts)@), seg@),
{
    let ghost old_v = vecs_view(parts@);
    if seg.len() == 0 || (seg.len() == 1 && seg[0] == 46u8) {
        if seg.len() == 1 {
            assert(seg@ =~= seq![46u8]);
        }
    } else if seg.len() == 2 && seg[0] == 46u8 && seg[1] == 46u8 {
        assert(seg@ =~= seq![46u8, 46u8]);
        if parts.len() > 0 {
            parts.pop();
            assert(vecs_view(parts@) =~= old_v.drop_last());
        }
    } else {
        assert(seg@ != seq![46u8]) by {
            if seg@.len() == 1 {
                assert(seg@[0] == seq![46u8][0] ==> seg@[0] == 46u8);
            }
        }
        assert(seg@ != seq![46u8, 46u8]) by {
            if seg@.len() == 2 && seg@ == seq![46u8, 46u8] {
                assert(seg@[0] == 46u8 && seg@[1] == 46u8);
            }
        }
        parts.push(seg);
        assert(vecs_view(parts@) =~= old_v.push(seg@));
    }
}

fn walk_path_exec(start: Vec<Vec<u8>>, p: &Vec<u8>) -> (parts: Vec<Vec<u8>>)
    ensures
        vecs_view(parts@) == walk_path(vecs_view(start@), Seq::empty(), p@),
{
    let mut parts = start;
    let mut cur: Vec<u8> = Vec::new();
    let mut i: usize = 0;
    assert(p@.skip(0) =~= p@);
    while i < p.len()
        invariant
            i <= p@.len(),
            walk_path(vecs_view(parts@), cur@, p@.skip(i as int)) == walk_path(
                vecs_view(start@),
                Seq::empty(),
                p@,
            ),
        decreases p@.len() - i,
    {
        assert(p@.skip(i as int).drop_first() =~= p@.skip(i + 1));
        assert(p@.skip(i as int)[0] == p@[i as int]);
        if p[i] == 47u8 {
            let seg = cur;
            cur = Vec::new();
            apply_segment_exec(&mut parts, seg);
        } else {
            cur.push(p[i]);
        }
        i = i + 1;
    }
    assert(p@.skip(i as int).len() == 0);
    apply_segment_exec(&mut parts, cur);
    parts
}

fn segments_exec(s: &Vec<u8>) -> (parts: Vec<Vec<u8>>)
    ensures
        vecs_view(parts@) == segments_of(Seq::empty(), Seq::empty(), s@),
{
    let mut parts: Vec<Vec<u8>> = Vec::new();
    let mut cur: Vec<u8> = Vec::new();
    let mut i: usize = 0;
    assert(vecs_view(parts@) =~= Seq::<Seq<u8>>::empty());
    assert(s@.skip(0) =~= s@);
    while i < s.len()
        invariant
            i <= s@.len(),
            segments_of(vecs_view(parts@), cur@, s@.skip(i as int)) == segments_of(
                Seq::empty(),
                Seq::empty(),
                s@,
            ),
        decreases s@.len() - i,
    {
        assert(s@.skip(i as int).drop_first() =~= s@.skip(i + 1));
        assert(s@.skip(i as int)[0] == s@[i as int]);
        let ghost pv0 = vecs_view(parts@);
        let ghost cv0 = cur@;
        if s[i] == 47u8 {
            assert(segments_of(pv0, cv0, s@.skip(i as int)) == segments_of(
                if cv0.len() > 0 { pv0.push(cv0) } else { pv0 },
                Seq::empty(),
                s@.skip(i + 1),
            ));
            if cur.len() > 0 {
                let ghost pv = vecs_view(parts@);
                let seg = cur;
                cur = Vec::new();
                parts.push(seg);
                assert(vecs_view(parts@) =~= pv.push(seg@));
            } else {
                assert(cur@ =~= Seq::<u8>::empty());
            }
        } else {
            cur.push(s[i]);
        }
        i = i + 1;
    }
    if cur.len() > 0 {
        let ghost pv = vecs_view(parts@);
        let ghost cv = cur@;
        parts.push(cur);
        assert(vecs_view(parts@) =~= pv.push(cv));
    }
    parts
}

fn join_path_exec(parts: &Vec<Vec<u8>>) -> (r: Vec<u8>)
    ensures
        r@ == join_path(vecs_view(parts@)),
{
    let mut r: Vec<u8> = Vec::new();
    let mut i: usize = 0;
    while i < parts.len()
        invariant
            i <= parts@.len(),
            r@ == join_path(vecs_view(parts@).take(i as int)),
        decreases parts@.len() - i,
    {
        let ghost before = r@;
        r.push(47u8);
        let part = &parts[i];
        let mut k: usize = 0;
        while k < part.len()
            invariant
                k <= part@.len(),
                r@ == before + seq![47u8] + part@.take(k as int),
            decreases part@.len() - k,
        {
            r.push(part[k]);
            k = k + 1;
            assert(part@.take(k as int) =~= part@.take(k - 1).push(part@[k - 1]));
            assert(r@ =~= before + seq![47u8] + part@.take(k as int));
        }
        assert(part@.take(k as int) =~= part@);
        assert(vecs_view(parts@).take(i + 1).drop_last() =~= vecs_view(parts@).take(i as int));
        assert(vecs_view(parts@).take(i + 1).last() == part@);
        i = i + 1;
    }
    assert(vecs_view(parts@).take(i as int) =~= vecs_view(parts@));
    r
}

/// Resolves `path` against the directory `cwd` (see [`resolve_path`]).
pub fn resolve_path_exec(cwd: &Vec<u8>, path: &Vec<u8>) -> (r: Vec<u8>)
    ensures
        r@ == resolve_path(cwd@, path@),
{
    let p = trim_bytes(path);
    if p.len() == 1 && p[0] == 47u8 {
        assert(p@ =~= root_path());
        let r: Vec<u8> = vec![47u8];
        assert(r@ =~= root_path());
        return r;
    }
    assert(p@ != root_path()) by {
        if p@ == root_path() {
            assert(p@.len() == 1 && p@[0] == 47u8);
        }
    }
    let start = if p.len() > 0 && p[0] == 47u8 {
        let e: Vec<Vec<u8>> = Vec::new();
        assert(vecs_view(e@) =~= Seq::<Seq<u8>>::empty());
        e
    } else {
        segments_exec(cwd)
    };
    let parts = walk_path_exec(start, &p);
    if parts.len() == 0 {
        let r: Vec<u8> = vec![47u8];
        assert(r@ =~= root_path());
        r
    } else {
        join_path_exec(&parts)
    }
}

} // verus!

verus! {

fn push_name_utf8(out: &mut Vec<u8>, name: &Vec<u8>, from: usize)
    requires
        from <= name@.len(),
    ensures
        final(out)@ == old(out)@ + name_utf8(name@.subrange(from as int, name@.len() as int)),
{
    let ghost start = out@;
    let mut k: usize = from;
    assert(name@.subrange(from as int, from as int) =~= Seq::<u8>::empty());
    while k < name.len()
        invariant
            from <= k <= name@.len(),
            out@ == start + name_utf8(name@.subrange(from as int, k as int)),
        decreases name@.len() - k,
    {
        let b = name[k];
        let ghost before = out@;
        if b < 128 {
            out.push(b);
        } else {
            out.push(0xC0 + b / 64);
            out.push(0x80 + b % 64);
        }
        assert(out@ =~= before + char_utf8(b));
        let ghost sub = name@.subrange(from as int, k + 1);
        assert(sub.drop_last() =~= name@.subrange(from as int, k as int));
        assert(sub.last() == b);
        k = k + 1;
    }
}

fn has_prefix(path: &Vec<u8>, prefix: &Vec<u8>) -> (r: bool)
    ensures
        r == (prefix@.len() <= path@.len() && path@.subrange(0, prefix@.len() as int) == prefix@),
{
    if prefix.len() > path.len() {
        return false;
    }
    let mut i: usize = 0;
    while i < prefix.len()
        invariant
            prefix@.len() <= path@.len(),
            i <= prefix@.len(),
            forall|j: int| 0 <= j < i ==> path@[j] == prefix@[j],
        decreases prefix@.len() - i,
    {
        if path[i] != prefix[i] {
            assert(path@.subrange(0, prefix@.len() as int)[i as int] != prefix@[i as int]);
            return false;
        }
        i = i + 1;
    }
    assert(path@.subrange(0, prefix@.len() as int) =~= prefix@);
    true
}

fn slash_after(path: &Vec<u8>, from: usize) -> (r: bool)
    requires
        from <= path@.len(),
    ensures
        r == path@.subrange(from as int, path@.len() as int).contains(47u8),
{
    let mut i: usize = from;
    while i < path.len()
        invariant
            from <= i <= path@.len(),
            forall|j: int| from <= j < i ==> path@[j] != 47u8,
        decreases path@.len() - i,
    {
        if path[i] == 47u8 {
            assert(path@.subrange(from as int, path@.len() as int)[i - from] == 47u8);
            return true;
        }
        i = i + 1;
    }
    assert forall|j: int| 0 <= j < path@.len() - from implies path@.subrange(
        from as int,
        path@.len() as int,
    )[j] != 47u8 by {
        assert(path@.subrange(from as int, path@.len() as int)[j] == path@[from + j]);
    }
    false
}

fn push_label(out: &mut Vec<u8>, node: &Inode)
    ensures
        final(out)@ == old(out)@ + node_label(node@),
{
    let ghost before = out@;
    match node {
        Inode::Directory => {
            out.push(91u8);
            out.push(68u8);
            out.push(73u8);
            out.push(82u8);
            out.push(93u8);
            out.push(32u8);
        },
        Inode::File(_) => {
            out.push(91u8);
            out.push(70u8);
            out.push(73u8);
            out.push(76u8);
            out.push(69u8);
            out.push(93u8);
        },
    }
    assert(out@ =~= before + node_label(node@));
}

impl VirtualDOS {
    fn listing_bytes(&self) -> (r: Vec<u8>)
        ensures
            r@ == listing(self@.fs, self@.cwd),
    {
        let prefix: Vec<u8> = if self.cwd.len() == 1 && self.cwd[0] == 47u8 {
            assert(self.cwd@ =~= root_path());
            vec![47u8]
        } else {
            assert(self.cwd@ != root_path()) by {
                if self.cwd@ == root_path() {
                    assert(self.cwd@[0] == 47u8);
                }
            }
            let mut p = self.cwd.clone();
            p.push(47u8);
            p
        };
        assert(prefix@ =~= dir_prefix(self@.cwd));
        let mut out: Vec<u8> = Vec::new();
        let mut i: usize = 0;
        while i < self.fs.len()
            invariant
                i <= self.fs@.len(),
                prefix@ == dir_prefix(self@.cwd),
                out@ == listing_lines(prefix@, self@.fs.take(i as int)),
            decreases self.fs@.len() - i,
        {
            let entry = &self.fs[i];
            let ghost before = out@;
            assert(self@.fs[i as int] == (entry.path@, entry.node@));
            if has_prefix(&entry.path, &prefix) {
                let plen = prefix.len();
                if entry.path.len() > plen && !slash_after(&entry.path, plen) {
                    push_label(&mut out, &entry.node);
                    out.push(32u8);
                    push_name_utf8(&mut out, &entry.path, plen);
                    out.push(13u8);
                    out.push(10u8);
                }
            }
            assert(out@ =~= before + listing_line(prefix@, self@.fs[i as int]));
            assert(self@.fs.take(i + 1).drop_last() =~= self@.fs.take(i as int));
            i = i + 1;
        }
        assert(self@.fs.take(i as int) =~= self@.fs);
        if out.len() == 0 {
            let e: Vec<u8> = vec![69u8, 109u8, 112u8, 116u8, 121u8, 13u8, 10u8];
            assert(e@ =~= seq![69u8, 109u8, 112u8, 116u8, 121u8, 13u8, 10u8]);
            e
        } else {
            out
        }
    }

    fn lookup(&self, path: &Vec<u8>) -> (r: Option<&Inode>)
        ensures
            match r {
                Some(n) => fs_lookup(self@.fs, path@) == Some(n@),
                None => fs_lookup(self@.fs, path@) is None,
            },
    {
        proof {
            lemma_find_some(self@.fs, path@);
        }
        match self.find(path) {
            Some(i) => {
                assert(self@.fs[i as int].1 == self.fs@[i as int].node@);
                Some(&self.fs[i].node)
            },
            None => None,
        }
    }

    fn run_command(&mut self, cmd: u8)
        requires
            old(self).wf(),
        ensures
            final(self)@ == dos_command(old(self)@, cmd),
            final(self).wf(),
    {
        if cmd == 0 {
            self.arg_buffer = Vec::new();
            self.out_queue = std::collections::VecDeque::new();
            self.status = 0;
        } else if cmd == 1 {
            let target = resolve_path_exec(&self.cwd, &self.arg_buffer);
            self.insert(target, Inode::Directory);
            self.status = 0;
        } else if cmd == 2 {
            let target = resolve_path_exec(&self.cwd, &self.arg_buffer);
            let is_dir = match self.lookup(&target) {
                Some(Inode::Directory) => true,
                _ => false,
            };
            if is_dir {
                self.cwd = target;
                self.status = 0;
            } else {
                self.status = 1;
            }
        } else if cmd == 3 {
            let bytes = self.listing_bytes();
            self.extend_out(&bytes);
            self.status = if self.out_queue.len() == 0 {
                0
            } else {
                2
            };
        } else if cmd == 4 {
            let target = resolve_path_exec(&self.cwd, &self.arg_buffer);
            let data: Option<Vec<u8>> = match self.lookup(&target) {
                Some(Inode::File(d)) => Some(d.clone()),
                _ => None,
            };
            match data {
                Some(d) => {
                    self.extend_out(&d);
                    self.status = if self.out_queue.len() == 0 {
                        0
                    } else {
                        2
                    };
                },
                None => {
                    self.status = 1;
                },
            }
        }
    }

    fn extend_out(&mut self, bytes: &Vec<u8>)
        ensures
            final(self)@ == (DosView { out: old(self)@.out + bytes@, ..old(self)@ }),
            final(self).fs@ == old(self).fs@,
    {
        let mut i: usize = 0;
        while i < bytes.len()
            invariant
                i <= bytes@.len(),
                self@ == (DosView { out: old(self)@.out + bytes@.take(i as int), ..old(self)@ }),
                self.fs@ == old(self).fs@,
            decreases bytes@.len() - i,
        {
            self.out_queue.push_back(bytes[i]);
            i = i + 1;
            assert(old(self)@.out + bytes@.take(i as int) =~= (old(self)@.out + bytes@.take(i - 1)).push(
                bytes@[i - 1],
            ));
        }
        assert(bytes@.take(i as int) =~= bytes@);
    }

    /// Reads the data port (next output byte) or the status port.
    pub fn read_in(&mut self, port: u16) -> (r: Option<u8>)
        requires
            old(self).wf(),
        ensures
            (final(self)@, r) == dos_read(old(self)@, port),
            final(self).wf(),
    {
        let p = port % 256;
        let base = self.port % 256;
        if p == base {
            match self.out_queue.pop_front() {
                Some(b) => {
                    if self.out_queue.len() == 0 {
                        self.status = 0;
                    }
                    Some(b)
                },
                None => Some(0),
            }
        } else if p as u32 == base as u32 + 2 {
            Some(self.status)
        } else {
            None
        }
    }

    /// Writes the data port (argument byte) or the command port.
    pub fn write_out(&mut self, port: u16, data: u8) -> (handled: bool)
        requires
            old(self).wf(),
        ensures
            (final(self)@, handled) == dos_write(old(self)@, port, data),
            final(self).wf(),
    {
        let p = port % 256;
        let base = self.port % 256;
        if p == base {
            self.arg_buffer.push(data);
            true
        } else if p as u32 == base as u32 + 1 {
            self.run_command(data);
            true
        } else {
            false
        }
    }
}

impl VirtualDOS {
    /// The title of the controller's window.
    pub fn get_name(&self) -> (n: String)
        ensures
            n@ == "DOS Controller (Port 0x"@ + hex_min2((self@.port % 256) as nat) + ")"@,
    {
        with_hex("DOS Controller (Port 0x", self.port % 256, ")")
    }

    /// Whether the controller's window is open.
    pub fn get_window_open_state(&self) -> (b: bool)
        ensures
            b == self@.is_open,
    {
        self.is_open
    }

    /// Opens or closes the controller's window.
    pub fn set_window_open_state(&mut self, open: bool)
        requires
            old(self).wf(),
        ensures
            final(self)@ == (DosView { is_open: open, ..old(self)@ }),
            final(self).wf(),
    {
        self.is_open = open;
    }
}

} // verus!
