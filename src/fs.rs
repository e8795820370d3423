//! The filesystem: an in-memory tree of files and directories, addressed by
//! inode number.
use vstd::prelude::*;
use crate::bytes::streq;

verus! {

/// File types.
#[derive(Debug, Clone, Copy, PartialEq, Eq, Structural)]
pub enum FileType {
    File,
    Directory,
    Device,
    Pipe,
    Symlink,
}

/// Permission bits.
#[derive(Debug, Clone, Copy, PartialEq, Eq, Structural)]
pub struct FileMode(pub u32);

pub const MODE_READ: u32 = 4;

pub const MODE_WRITE: u32 = 2;

pub const MODE_EXEC: u32 = 1;

/// What `metadata` reports.
#[derive(Debug, Clone, Copy, PartialEq, Eq, Structural)]
pub struct Metadata {
    pub size: u64,
    pub mode: FileMode,
    pub file_type: FileType,
}

/// Filesystem errors.
#[derive(Debug, Clone, Copy, PartialEq, Eq, Structural)]
pub enum FsError {
    NotFound,
    PermissionDenied,
    NotADirectory,
    IsADirectory,
    IOError,
}

/// The bytes `c` after `d` is written at `off`, grown with zeros as needed.
pub open spec fn written(c: Seq<u8>, off: int, d: Seq<u8>) -> Seq<u8> {
    let n = if c.len() > off + d.len() {
        c.len() as int
    } else {
        off + d.len()
    };
    Seq::new(
        n as nat,
        |k: int|
            if off <= k < off + d.len() {
                d[k - off]
            } else if k < c.len() {
                c[k]
            } else {
                0u8
            },
    )
}

/// The bytes of `c` from `off` on, at most `count` of them.
pub open spec fn read_range(c: Seq<u8>, off: int, count: int) -> Seq<u8> {
    if off >= c.len() {
        Seq::empty()
    } else if off + count <= c.len() {
        c.subrange(off, off + count)
    } else {
        c.subrange(off, c.len() as int)
    }
}

/// The capabilities of an inode.
pub trait Inode {
    /// The bytes of a file; `None` for anything else.
    spec fn file_content(&self) -> Option<Seq<u8>>;

    /// Reads at most `count` bytes from `offset` on; nothing from a directory.
    fn read_at(&self, offset: u64, count: usize) -> (r: Vec<u8>)
        ensures
            r@ == match self.file_content() {
                Some(c) => read_range(c, offset as int, count as int),
                None => Seq::empty(),
            },
    ;

    /// Writes `buf` at `offset`, growing the file with zeros as needed, and
    /// returns the number of bytes written; writes nothing to a directory.
    fn write_at(&mut self, offset: u64, buf: &[u8]) -> (r: usize)
        ensures
            match old(self).file_content() {
                Some(c) => if offset + buf@.len() <= usize::MAX {
                    &&& r == buf@.len()
                    &&& final(self).file_content() == Some(written(c, offset as int, buf@))
                } else {
                    &&& r == 0
                    &&& final(self).file_content() == Some(c)
                },
                None => r == 0 && final(self).file_content() == old(self).file_content(),
            },
    ;

    /// Size, mode and type.
    fn metadata(&self) -> (r: Metadata)
        ensures
            match self.file_content() {
                Some(c) => r.file_type == FileType::File && r.size == c.len(),
                None => r.file_type == FileType::Directory,
            },
    ;
}

/// A node of the tree.
pub enum RamNode {
    File { content: Vec<u8> },
    /// Entries `(name, inode)`.
    Directory { children: Vec<(Vec<u8>, usize)> },
}

impl Inode for RamNode {
    open spec fn file_content(&self) -> Option<Seq<u8>> {
        match self {
            RamNode::File { content } => Some(content@),
            RamNode::Directory { .. } => None,
        }
    }

    fn read_at(&self, offset: u64, count: usize) -> (r: Vec<u8>) {
        match self {
            RamNode::File { content } => {
                let len = content.len();
                let mut out: Vec<u8> = Vec::new();
                if offset >= len as u64 {
                    return out;
                }
                let off = offset as usize;
                let end = if count <= len - off {
                    off + count
                } else {
                    len
                };
                let mut k: usize = off;
                while k < end
                    invariant
                        off <= k <= end,
                        end <= content@.len(),
                        out@ == content@.subrange(off as int, k as int),
                    decreases end - k,
                {
                    out.push(content[k]);
                    k = k + 1;
                    assert(out@ =~= content@.subrange(off as int, k as int));
                }
                out
            },
            RamNode::Directory { .. } => Vec::new(),
        }
    }

    fn write_at(&mut self, offset: u64, buf: &[u8]) -> (r: usize) {
        match self {
            RamNode::File { content } => {
                let n = buf.len();
                if offset > (usize::MAX - n) as u64 {
                    return 0;
                }
                let off = offset as usize;
                let ghost c0 = content@;
                while content.len() < off + n
                    invariant
                        off + n <= usize::MAX,
                        content@.len() == c0.len() || content@.len() <= off + n,
                        c0.len() <= content@.len(),
                        forall|k: int| 0 <= k < c0.len() ==> content@[k] == c0[k],
                        forall|k: int| c0.len() <= k < content@.len() ==> content@[k] == 0,
                    decreases off + n - content@.len(),
                {
                    content.push(0);
                }
                let ghost grown = content@;
                let mut i: usize = 0;
                while i < n
                    invariant
                        i <= n,
                        n == buf@.len(),
                        off == offset,
                        off + n <= usize::MAX,
                        off + n <= content@.len(),
                        content@.len() == grown.len(),
                        grown.len() == c0.len() || grown.len() == off + n,
                        c0.len() <= grown.len(),
                        forall|k: int| 0 <= k < c0.len() ==> grown[k] == c0[k],
                        forall|k: int| c0.len() <= k < grown.len() ==> grown[k] == 0,
                        forall|k: int|
                            0 <= k < content@.len() ==> #[trigger] content@[k] == if off <= k < off + i {
                                buf@[k - off]
                            } else {
                                grown[k]
                            },
                    decreases n - i,
                {
                    content.set(off + i, buf[i]);
                    i = i + 1;
                }
                assert(content@ =~= written(c0, off as int, buf@));
                n
            },
            RamNode::Directory { .. } => 0,
        }
    }

    fn metadata(&self) -> (r: Metadata) {
        match self {
            RamNode::File { content } => Metadata {
                size: content.len() as u64,
                mode: FileMode(MODE_READ | MODE_WRITE),
                file_type: FileType::File,
            },
            RamNode::Directory { .. } => Metadata {
                size: 0,
                mode: FileMode(MODE_READ | MODE_WRITE | MODE_EXEC),
                file_type: FileType::Directory,
            },
        }
    }
}

/// The roots of a filesystem.
pub trait FileSystem {
    /// The inode of the root directory.
    fn root_inode(&self) -> usize;
}

/// Inode number of the root directory.
pub const ROOT_INODE: usize = 0;

/// An in-memory filesystem: a table of nodes, the root directory first.
pub struct RamFS {
    pub nodes: Vec<RamNode>,
}

/// The index of the entry named `name` among `children`, if any.
pub open spec fn entry_index(children: Seq<(Vec<u8>, usize)>, name: Seq<u8>) -> Option<int> {
    if exists|i: int| 0 <= i < children.len() && (#[trigger] children[i]).0@ == name {
        Some(choose|i: int| 0 <= i < children.len() && (#[trigger] children[i]).0@ == name)
    } else {
        None
    }
}

impl FileSystem for RamFS {
    fn root_inode(&self) -> usize {
        ROOT_INODE
    }
}

impl RamFS {
    /// The root is a directory, entries name existing nodes, and the names
    /// within a directory are distinct.
    pub open spec fn wf(&self) -> bool {
        &&& self.nodes@.len() >= 1
        &&& self.nodes@[ROOT_INODE as int] is Directory
        &&& forall|n: int|
            0 <= n < self.nodes@.len() ==> match #[trigger] self.nodes@[n].file_content() {
                Some(c) => c.len() <= usize::MAX,
                None => true,
            }
        &&& forall|n: int, i: int|
            0 <= n < self.nodes@.len() && self.nodes@[n] is Directory && 0 <= i
                < self.nodes@[n]->Directory_children@.len() ==> (#[trigger] self.nodes@[n]->Directory_children@[i]).1
                < self.nodes@.len()
        &&& forall|n: int, i: int, j: int|
            0 <= n < self.nodes@.len() && self.nodes@[n] is Directory && 0 <= i < j
                < self.nodes@[n]->Directory_children@.len() ==> (#[trigger] self.nodes@[n]->Directory_children@[i]).0@
                != (#[trigger] self.nodes@[n]->Directory_children@[j]).0@
    }

    /// What `lookup(dir, name)` returns.
    pub open spec fn lookup_spec(&self, dir: int, name: Seq<u8>) -> Result<usize, FsError> {
        if !(0 <= dir < self.nodes@.len()) || !(self.nodes@[dir] is Directory) {
            Err(FsError::NotADirectory)
        } else {
            let ch = self.nodes@[dir]->Directory_children@;
            match entry_index(ch, name) {
                Some(i) => Ok(ch[i].1),
                None => Err(FsError::NotFound),
            }
        }
    }

    /// A filesystem holding only the empty root directory.
    pub fn new() -> (r: RamFS)
        ensures
            r.wf(),
            r.nodes@.len() == 1,
            r.nodes@[0]->Directory_children@.len() == 0,
    {
        let mut nodes: Vec<RamNode> = Vec::new();
        nodes.push(RamNode::Directory { children: Vec::new() });
        RamFS { nodes }
    }

    /// Looks `name` up in directory `dir`.
    pub fn lookup(&self, dir: usize, name: &[u8]) -> (r: Result<usize, FsError>)
        requires
            self.wf(),
        ensures
            r == self.lookup_spec(dir as int, name@),
            r matches Ok(n) ==> n < self.nodes@.len(),
    {
        if dir >= self.nodes.len() {
            return Err(FsError::NotADirectory);
        }
        match &self.nodes[dir] {
            RamNode::File { .. } => Err(FsError::NotADirectory),
            RamNode::Directory { children } => {
                let ghost d = dir as int;
                assert(children@ == self.nodes@[d]->Directory_children@);
                let mut i: usize = 0;
                while i < children.len()
                    invariant
                        self.wf(),
                        d == dir,
                        0 <= d < self.nodes@.len(),
                        self.nodes@[d] is Directory,
                        children@ == self.nodes@[d]->Directory_children@,
                        i <= children@.len(),
                        forall|j: int| 0 <= j < i ==> (#[trigger] children@[j]).0@ != name@,
                    decreases children@.len() - i,
                {
                    if streq(children[i].0.as_slice(), name) {
                        proof {
                            let ch = self.nodes@[d]->Directory_children@;
                            assert(ch[i as int].0@ == name@);
                            assert(exists|j: int| 0 <= j < ch.len() && (#[trigger] ch[j]).0@ == name@);
                            let c = choose|j: int| 0 <= j < ch.len() && (#[trigger] ch[j]).0@ == name@;
                            if c < i {
                                assert(children@[c].0@ != name@);
                            } else if c > i {
                                assert(ch[i as int].0@ != ch[c].0@);
                            }
                            assert(ch[i as int].1 < self.nodes@.len());
                        }
                        return Ok(children[i].1);
                    }
                    i = i + 1;
                }
                Err(FsError::NotFound)
            },
        }
    }

    /// Adds a file named `name` holding `content` to the root directory,
    /// replacing the entry of that name if there is one.
    pub fn add_file(&mut self, name: &[u8], content: Vec<u8>)
        requires
            old(self).wf(),
            old(self).nodes@.len() < usize::MAX,
        ensures
            final(self).wf(),
            final(self).nodes@.len() == old(self).nodes@.len() + 1,
            final(self).nodes@.last().file_content() == Some(content@),
            final(self).lookup_spec(ROOT_INODE as int, name@) == Ok::<usize, FsError>(
                old(self).nodes@.len() as usize,
            ),
            forall|other: Seq<u8>|
                other != name@ ==> #[trigger] final(self).lookup_spec(ROOT_INODE as int, other)
                    == old(self).lookup_spec(ROOT_INODE as int, other),
            forall|n: int|
                0 < n < old(self).nodes@.len() ==> #[trigger] final(self).nodes@[n] == old(
                    self,
                ).nodes@[n],
    {
        let id = self.nodes.len();
        let _len = content.len();
        self.nodes.push(RamNode::File { content });
        let root = self.nodes.remove(ROOT_INODE);
        let mut children = match root {
            RamNode::Directory { children } => children,
            RamNode::File { .. } => Vec::new(),
        };
        let ghost ch0 = children@;
        let mut i: usize = 0;
        let mut found = false;
        while i < children.len() && !found
            invariant
                i <= children@.len(),
                children@ == ch0,
                found ==> i < ch0.len() && ch0[i as int].0@ == name@,
                forall|j: int| 0 <= j < i ==> (#[trigger] ch0[j]).0@ != name@,
            decreases children@.len() - i + (if found {
                0int
            } else {
                1
            }),
        {
            if streq(children[i].0.as_slice(), name) {
                found = true;
            } else {
                i = i + 1;
            }
        }
        let mut key: Vec<u8> = Vec::new();
        let mut k: usize = 0;
        while k < name.len()
            invariant
                k <= name@.len(),
                key@ == name@.subrange(0, k as int),
            decreases name@.len() - k,
        {
            key.push(name[k]);
            k = k + 1;
            assert(key@ =~= name@.subrange(0, k as int));
        }
        assert(key@ =~= name@);
        let ghost slot = i as int;
        if found {
            children.set(i, (key, id));
        } else {
            children.push((key, id));
        }
        let ghost ch = children@;
        proof {
            assert(ch0 == old(self).nodes@[0]->Directory_children@);
            assert(ch[slot].0@ == name@ && ch[slot].1 == id);
            assert forall|j: int| 0 <= j < ch.len() && j != slot implies #[trigger] ch[j] == ch0[j]
                && ch0[j].0@ != name@ by {
                if found && j > slot {
                    assert(ch0[j].0@ != ch0[slot].0@);
                }
            }
        }
        self.nodes.insert(ROOT_INODE, RamNode::Directory { children });
        proof {
            let nn = self.nodes@;
            assert(nn.len() == old(self).nodes@.len() + 1);
            assert(nn[0] == RamNode::Directory { children });
            assert forall|n: int| 0 < n < old(self).nodes@.len() implies #[trigger] nn[n] == old(
                self,
            ).nodes@[n] by {}
            assert(nn[id as int] == RamNode::File { content });
            assert forall|n: int, j: int|
                0 <= n < nn.len() && nn[n] is Directory && 0 <= j < nn[n]->Directory_children@.len()
                    implies (#[trigger] nn[n]->Directory_children@[j]).1 < nn.len() by {
                if n == 0 && j != slot {
                    assert(ch[j] == ch0[j]);
                    assert(old(self).nodes@[0]->Directory_children@[j].1 < old(self).nodes@.len());
                } else if n > 0 && n < old(self).nodes@.len() {
                    assert(old(self).nodes@[n]->Directory_children@[j].1 < old(self).nodes@.len());
                }
            }
            assert forall|n: int, a: int, b: int|
                0 <= n < nn.len() && nn[n] is Directory && 0 <= a < b
                    < nn[n]->Directory_children@.len() implies (#[trigger] nn[n]->Directory_children@[a]).0@
                != (#[trigger] nn[n]->Directory_children@[b]).0@ by {
                if n == 0 {
                    if a != slot && b != slot {
                        assert(old(self).nodes@[0]->Directory_children@[a].0@ != old(
                            self,
                        ).nodes@[0]->Directory_children@[b].0@);
                    }
                } else if n < old(self).nodes@.len() {
                    assert(old(self).nodes@[n]->Directory_children@[a].0@ != old(
                        self,
                    ).nodes@[n]->Directory_children@[b].0@);
                }
            }
            assert(exists|j: int| 0 <= j < ch.len() && (#[trigger] ch[j]).0@ == name@);
            let c = choose|j: int| 0 <= j < ch.len() && (#[trigger] ch[j]).0@ == name@;
            assert(c == slot);
            assert forall|other: Seq<u8>| other != name@ implies #[trigger] self.lookup_spec(
                ROOT_INODE as int,
                other,
            ) == old(self).lookup_spec(ROOT_INODE as int, other) by {
                if exists|j: int| 0 <= j < ch0.len() && (#[trigger] ch0[j]).0@ == other {
                    let c0 = choose|j: int| 0 <= j < ch0.len() && (#[trigger] ch0[j]).0@ == other;
                    assert(c0 != slot);
                    assert(ch[c0] == ch0[c0]);
                    assert(exists|j: int| 0 <= j < ch.len() && (#[trigger] ch[j]).0@ == other);
                    let c1 = choose|j: int| 0 <= j < ch.len() && (#[trigger] ch[j]).0@ == other;
                    if c1 != c0 {
                        assert(c1 != slot);
                        assert(ch[c1] == ch0[c1]);
                        if c1 < c0 {
                            assert(old(self).nodes@[0]->Directory_children@[c1].0@ != old(
                                self,
                            ).nodes@[0]->Directory_children@[c0].0@);
                        } else {
                            assert(old(self).nodes@[0]->Directory_children@[c0].0@ != old(
                                self,
                            ).nodes@[0]->Directory_children@[c1].0@);
                        }
                    }
                } else {
                    assert forall|j: int| 0 <= j < ch.len() implies (#[trigger] ch[j]).0@ != other by {
                        if j != slot {
                            assert(ch[j] == ch0[j]);
                        }
                    }
                }
            }
        }
    }

    /// Reads at most `count` bytes of inode `ino` from `offset` on.
    pub fn read_at(&self, ino: usize, offset: u64, count: usize) -> (r: Vec<u8>)
        requires
            ino < self.nodes@.len(),
        ensures
            r@ == match self.nodes@[ino as int].file_content() {
                Some(c) => read_range(c, offset as int, count as int),
                None => Seq::empty(),
            },
    {
        self.nodes[ino].read_at(offset, count)
    }

    /// Writes `buf` to inode `ino` at `offset`; returns the bytes written.
    pub fn write_at(&mut self, ino: usize, offset: u64, buf: &[u8]) -> (r: usize)
        requires
            old(self).wf(),
            ino < old(self).nodes@.len(),
        ensures
            final(self).wf(),
            final(self).nodes@.len() == old(self).nodes@.len(),
            forall|n: int|
                0 <= n < old(self).nodes@.len() && n != ino ==> #[trigger] final(self).nodes@[n]
                    == old(self).nodes@[n],
            match old(self).nodes@[ino as int].file_content() {
                Some(c) => if offset + buf@.len() <= usize::MAX {
                    &&& r == buf@.len()
                    &&& final(self).nodes@[ino as int].file_content() == Some(
                        written(c, offset as int, buf@),
                    )
                } else {
                    &&& r == 0
                    &&& final(self).nodes@[ino as int].file_content() == Some(c)
                },
                None => r == 0 && final(self).nodes@[ino as int] == old(self).nodes@[ino as int],
            },
    {
        let mut node = self.nodes.remove(ino);
        let is_file = match &node {
            RamNode::File { .. } => true,
            RamNode::Directory { .. } => false,
        };
        if !is_file {
            self.nodes.insert(ino, node);
            assert(self.nodes@ =~= old(self).nodes@);
            return 0;
        }
        let r = node.write_at(offset, buf);
        self.nodes.insert(ino, node);
        r
    }

    /// Metadata of inode `ino`: a file is readable and writable, a directory
    /// also searchable, and a directory's size is 0.
    pub fn metadata(&self, ino: usize) -> (r: Metadata)
        requires
            ino < self.nodes@.len(),
        ensures
            match self.nodes@[ino as int].file_content() {
                Some(c) => r == (Metadata {
                    size: c.len() as u64,
                    mode: FileMode(MODE_READ | MODE_WRITE),
                    file_type: FileType::File,
                }),
                None => r == (Metadata {
                    size: 0,
                    mode: FileMode(MODE_READ | MODE_WRITE | MODE_EXEC),
                    file_type: FileType::Directory,
                }),
            },
    {
        match &self.nodes[ino] {
            RamNode::File { content } => Metadata {
                size: content.len() as u64,
                mode: FileMode(MODE_READ | MODE_WRITE),
                file_type: FileType::File,
            },
            RamNode::Directory { .. } => Metadata {
                size: 0,
                mode: FileMode(MODE_READ | MODE_WRITE | MODE_EXEC),
                file_type: FileType::Directory,
            },
        }
    }

    /// The names in directory `ino`, in the directory's order.
    pub fn poll(&self, ino: usize) -> (r: Result<Vec<Vec<u8>>, FsError>)
        requires
            ino < self.nodes@.len(),
        ensures
            match self.nodes@[ino as int] {
                RamNode::Directory { children } => r matches Ok(v) && v@.len() == children@.len()
                    && forall|i: int| 0 <= i < v@.len() ==> #[trigger] v@[i]@ == children@[i].0@,
                RamNode::File { .. } => r == Err::<Vec<Vec<u8>>, FsError>(FsError::NotADirectory),
            },
    {
        match &self.nodes[ino] {
            RamNode::File { .. } => Err(FsError::NotADirectory),
            RamNode::Directory { children } => {
                let mut names: Vec<Vec<u8>> = Vec::new();
                let mut i: usize = 0;
                while i < children.len()
                    invariant
                        i <= children@.len(),
                        names@.len() == i,
                        forall|j: int| 0 <= j < i ==> #[trigger] names@[j]@ == children@[j].0@,
                    decreases children@.len() - i,
                {
                    let src = &children[i].0;
                    let mut name: Vec<u8> = Vec::new();
                    let mut k: usize = 0;
                    while k < src.len()
                        invariant
                            k <= src@.len(),
                            name@ == src@.subrange(0, k as int),
                        decreases src@.len() - k,
                    {
                        name.push(src[k]);
                        k = k + 1;
                        assert(name@ =~= src@.subrange(0, k as int));
                    }
                    assert(name@ =~= src@);
                    names.push(name);
                    i = i + 1;
                }
                Ok(names)
            },
        }
    }
}

/// The root filesystem at boot: an empty root holding the file `init` with
/// the initial program's image.
pub fn init(init_image: Vec<u8>) -> (r: RamFS)
    ensures
        r.wf(),
        r.nodes@.len() == 2,
        r.nodes@[1].file_content() == Some(init_image@),
        r.lookup_spec(ROOT_INODE as int, seq![0x69u8, 0x6e, 0x69, 0x74]) == Ok::<usize, FsError>(1),
{
    let mut fs = RamFS::new();
    let name: Vec<u8> = vec![0x69u8, 0x6e, 0x69, 0x74];
    fs.add_file(name.as_slice(), init_image);
    assert(name@ =~= seq![0x69u8, 0x6e, 0x69, 0x74]);
    fs
}

/// Resolves `path` to an inode: `/` is the root, and `/name` or `name` is
/// looked up in the root directory.
pub fn open(fs: &RamFS, path: &[u8]) -> (r: Result<usize, FsError>)
    requires
        fs.wf(),
    ensures
        r == open_spec(fs, path@),
        r matches Ok(n) ==> n < fs.nodes@.len(),
{
    if path.len() == 1 && path[0] == 0x2f {
        assert(path@ =~= seq![0x2fu8]);
        return Ok(ROOT_INODE);
    }
    if path.len() > 0 && path[0] == 0x2f {
        let mut rest: Vec<u8> = Vec::new();
        let mut k: usize = 1;
        while k < path.len()
            invariant
                1 <= k <= path@.len(),
                rest@ == path@.subrange(1, k as int),
            decreases path@.len() - k,
        {
            rest.push(path[k]);
            k = k + 1;
            assert(rest@ =~= path@.subrange(1, k as int));
        }
        fs.lookup(ROOT_INODE, rest.as_slice())
    } else {
        fs.lookup(ROOT_INODE, path)
    }
}

/// What `open` returns for `path`.
pub open spec fn open_spec(fs: &RamFS, path: Seq<u8>) -> Result<usize, FsError> {
    if path == seq![0x2fu8] {
        Ok(ROOT_INODE)
    } else if path.len() > 0 && path[0] == 0x2f {
        fs.lookup_spec(ROOT_INODE as int, path.subrange(1, path.len() as int))
    } else {
        fs.lookup_spec(ROOT_INODE as int, path)
    }
}

} // verus!
