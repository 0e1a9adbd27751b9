use vstd::prelude::*;
use vstd::utf8::encode_utf8;

use crate::error::{FileError, FileResult};
use crate::text::{is_blank, same_text, trim};

verus! {

/// The creation time of a file is a `SystemTime`, carried and compared but
/// never looked into.
#[verifier::external_type_specification]
#[verifier::external_body]
pub struct ExSystemTime(std::time::SystemTime);

/// Relies on `SystemTime::now` for the creation time of a file; nothing is
/// claimed of the value it returns.
pub assume_specification[ std::time::SystemTime::now ]() -> std::time::SystemTime;

/// Relies on `SystemTime`'s `Clone`, which the type derives along with `Copy`:
/// the clone is the same instant.
pub assume_specification[ <std::time::SystemTime as Clone>::clone ](t: &std::time::SystemTime) -> (r: std::time::SystemTime)
    ensures
        r == *t,
;

/// The number of bytes that the UTF-8 encoding of `s` takes, as `str::len`
/// reports it.
pub open spec fn byte_len(s: Seq<char>) -> usize {
    encode_utf8(s).len() as usize
}

/// At most this many characters of content show in a preview.
pub const PREVIEW_CHARS: usize = 50;

/// `k` is the position of the last '.' in `name`.
pub open spec fn is_last_dot(name: Seq<char>, k: int) -> bool {
    &&& 0 <= k < name.len()
    &&& name[k] == '.'
    &&& forall|j: int| k < j < name.len() ==> name[j] != '.'
}

/// The extension of a file name: what follows its last '.', or nothing when it
/// has no '.'.
pub open spec fn extension_of(name: Seq<char>) -> Option<Seq<char>> {
    if exists|k: int| is_last_dot(name, k) {
        let k = choose|k: int| is_last_dot(name, k);
        Some(name.subrange(k + 1, name.len() as int))
    } else {
        None
    }
}

/// The first characters of `content` that a preview shows.
pub open spec fn preview_of(content: Seq<char>) -> Seq<char> {
    if content.len() > PREVIEW_CHARS {
        content.subrange(0, PREVIEW_CHARS as int)
    } else {
        content
    }
}

/// A file held in memory.
#[derive(Debug, Clone)]
pub struct File {
    pub id: u32,
    pub name: String,
    pub content: String,
    pub size: usize,
    pub created_at: std::time::SystemTime,
}

impl File {
    /// The size matches the content, and the name is not blank.
    pub open spec fn wf(&self) -> bool {
        &&& self.size == byte_len(self.content@)
        &&& !is_blank(self.name@)
    }

    /// Makes a file with the given identifier, name and content; the name must
    /// not be empty or whitespace only.
    pub fn new(id: u32, name: String, content: String) -> (r: FileResult<File>)
        ensures
            is_blank(name@) <==> r is Err,
            name@.len() == 0 ==> is_blank(name@),
            r matches Err(e) ==> e is InvalidInput,
            r matches Ok(f) ==> {
                &&& f.wf()
                &&& f.id == id
                &&& f.name == name
                &&& f.content == content
            },
    {
        let trimmed_name = trim(name.as_str());
        if trimmed_name.is_empty() {
            return Err(FileError::InvalidInput("File name cannot be empty".to_owned()));
        }
        let size = content.as_str().len();
        let created_at = std::time::SystemTime::now();
        Ok(File { id, name, content, size, created_at })
    }

    /// The first 50 characters of the content, or all of it when shorter.
    pub fn preview(&self) -> (r: &str)
        ensures
            r@ == preview_of(self.content@),
    {
        let n = self.content.as_str().unicode_len();
        if n > PREVIEW_CHARS {
            self.content.as_str().substring_char(0, PREVIEW_CHARS)
        } else {
            self.content.as_str()
        }
    }

    /// Whether the preview leaves part of the content out.
    pub fn is_truncated(&self) -> (r: bool)
        ensures
            r == (self.content@.len() > PREVIEW_CHARS),
    {
        self.content.as_str().unicode_len() > PREVIEW_CHARS
    }

    /// What follows the last '.' of the name, or `None` when it has none.
    pub fn extension(&self) -> (r: Option<&str>)
        ensures
            r matches Some(e) ==> extension_of(self.name@) == Some(e@),
            r is None ==> extension_of(self.name@) is None,
    {
        let name = self.name.as_str();
        let n = name.unicode_len();
        let mut i: usize = n;
        while i > 0
            invariant
                n == name@.len(),
                name@ == self.name@,
                i <= n,
                forall|j: int| i <= j < n ==> name@[j] != '.',
            decreases i,
        {
            if name.get_char(i - 1) == '.' {
                proof {
                    let k = choose|k: int| is_last_dot(name@, k);
                    assert(is_last_dot(name@, i - 1));
                    assert(k == i - 1);
                }
                return Some(name.substring_char(i, n));
            }
            i = i - 1;
        }
        None
    }

    /// Replaces the content, and the size with it.
    pub fn write_content(&mut self, content: String)
        ensures
            final(self).content == content,
            final(self).size == byte_len(content@),
            final(self).id == old(self).id,
            final(self).name == old(self).name,
            final(self).created_at == old(self).created_at,
    {
        self.size = content.as_str().len();
        self.content = content;
    }
}

/// The sum of the sizes of `files`.
pub open spec fn total_bytes(files: Seq<File>) -> int
    decreases files.len(),
{
    if files.len() == 0 {
        0
    } else {
        total_bytes(files.drop_last()) + files.last().size
    }
}

proof fn lemma_total_push(files: Seq<File>, f: File)
    ensures
        total_bytes(files.push(f)) == total_bytes(files) + f.size,
{
    assert(files.push(f).drop_last() == files);
}

proof fn lemma_total_update(files: Seq<File>, i: int, f: File)
    requires
        0 <= i < files.len(),
    ensures
        total_bytes(files.update(i, f)) == total_bytes(files) - files[i].size + f.size,
    decreases files.len(),
{
    if i == files.len() - 1 {
        assert(files.update(i, f).drop_last() == files.drop_last());
    } else {
        lemma_total_update(files.drop_last(), i, f);
        assert(files.update(i, f).drop_last() == files.drop_last().update(i, f));
    }
}

proof fn lemma_total_remove(files: Seq<File>, i: int)
    requires
        0 <= i < files.len(),
    ensures
        total_bytes(files.remove(i)) == total_bytes(files) - files[i].size,
    decreases files.len(),
{
    if i == files.len() - 1 {
        assert(files.remove(i) == files.drop_last());
    } else {
        lemma_total_remove(files.drop_last(), i);
        assert(files.remove(i).drop_last() == files.drop_last().remove(i));
    }
}

proof fn lemma_total_prefix(files: Seq<File>, n: int)
    requires
        0 <= n <= files.len(),
    ensures
        0 <= total_bytes(files.take(n)) <= total_bytes(files),
    decreases files.len(),
{
    if files.len() > 0 {
        if n == files.len() {
            assert(files.take(n) == files);
            lemma_total_prefix(files.drop_last(), n - 1);
            assert(files.drop_last().take(n - 1) == files.drop_last());
        } else {
            lemma_total_prefix(files.drop_last(), n);
            assert(files.drop_last().take(n) == files.take(n));
        }
    }
}

/// Some file in `files` has the name `name`.
pub open spec fn has_name(files: Seq<File>, name: Seq<char>) -> bool {
    exists|i: int| 0 <= i < files.len() && #[trigger] files[i].name@ == name
}

/// Some file in `files` has the identifier `id`.
pub open spec fn has_id(files: Seq<File>, id: u32) -> bool {
    exists|i: int| 0 <= i < files.len() && #[trigger] files[i].id == id
}

/// What a store holds: its files in order of creation, and the identifier
/// that the next file will get.
pub ghost struct StoreModel {
    pub files: Seq<File>,
    pub next_id: u32,
}

impl StoreModel {
    /// Every file is well formed; identifiers are at least 1, below the next
    /// one and increase along the sequence; names are unique; the sizes sum to
    /// no more than `usize::MAX`.
    pub open spec fn wf(self) -> bool {
        &&& self.next_id >= 1
        &&& forall|i: int| 0 <= i < self.files.len() ==> (#[trigger] self.files[i]).wf()
        &&& forall|i: int| 0 <= i < self.files.len() ==>
                1 <= #[trigger] self.files[i].id < self.next_id
        &&& forall|i: int, j: int| 0 <= i < j < self.files.len() ==>
                (#[trigger] self.files[i]).id < (#[trigger] self.files[j]).id
        &&& forall|i: int, j: int| 0 <= i < self.files.len() && 0 <= j < self.files.len() && i != j
                ==> (#[trigger] self.files[i]).name@ != (#[trigger] self.files[j]).name@
        &&& total_bytes(self.files) <= usize::MAX
    }
}

/// A file whose content was replaced by `content`, all else kept.
pub open spec fn rewritten(before: File, after: File, content: Seq<char>) -> bool {
    &&& after.id == before.id
    &&& after.name == before.name
    &&& after.created_at == before.created_at
    &&& after.content@ == content
    &&& after.size == byte_len(content)
}

/// What `create_file(name, content)` leaves and returns when the store was
/// `before`.
pub open spec fn create_outcome(
    before: StoreModel,
    after: StoreModel,
    name: String,
    content: String,
    r: FileResult<u32>,
) -> bool {
    &&& after.wf()
    &&& name@.len() == 0 ==> is_blank(name@)
    &&& (r is Ok <==> !has_name(before.files, name@) && !is_blank(name@))
    &&& r matches Err(e) ==> {
        &&& after == before
        &&& has_name(before.files, name@) ==> e == FileError::AlreadyExists(name)
        &&& !has_name(before.files, name@) ==> e is InvalidInput
    }
    &&& r matches Ok(id) ==> {
        let f = after.files.last();
        &&& id == before.next_id
        &&& after.next_id == before.next_id + 1
        &&& after.files.len() == before.files.len() + 1
        &&& after.files.drop_last() == before.files
        &&& f.id == id
        &&& f.name == name
        &&& f.content == content
        &&& f.size == byte_len(content@)
    }
}

/// What `write_file(name, content)` leaves and returns when the store was
/// `before`.
pub open spec fn write_outcome(
    before: StoreModel,
    after: StoreModel,
    name: Seq<char>,
    content: Seq<char>,
    r: FileResult<()>,
) -> bool {
    &&& after.wf()
    &&& after.next_id == before.next_id
    &&& (r is Ok <==> has_name(before.files, name))
    &&& r matches Err(e) ==> after == before && e.is_not_found(name)
    &&& r is Ok ==> exists|i: int|
        {
            &&& 0 <= i < before.files.len()
            &&& #[trigger] before.files[i].name@ == name
            &&& after.files.len() == before.files.len()
            &&& rewritten(before.files[i], after.files[i], content)
            &&& forall|j: int| 0 <= j < before.files.len() && j != i ==> after.files[j] == before.files[j]
        }
}

/// What `read_file(name)` returns on the store `s`.
pub open spec fn read_outcome(s: StoreModel, name: Seq<char>, r: FileResult<&str>) -> bool {
    &&& (r is Ok <==> has_name(s.files, name))
    &&& r matches Err(e) ==> e.is_not_found(name)
    &&& r matches Ok(c) ==> exists|i: int|
        0 <= i < s.files.len() && #[trigger] s.files[i].name@ == name && c@ == s.files[i].content@
}

/// What `delete_file(name)` leaves and returns when the store was `before`.
pub open spec fn delete_by_name_outcome(
    before: StoreModel,
    after: StoreModel,
    name: Seq<char>,
    r: FileResult<()>,
) -> bool {
    &&& after.wf()
    &&& after.next_id == before.next_id
    &&& (r is Ok <==> has_name(before.files, name))
    &&& r matches Err(e) ==> after == before && e.is_not_found(name)
    &&& r is Ok ==> exists|i: int|
        0 <= i < before.files.len() && #[trigger] before.files[i].name@ == name
            && after.files == before.files.remove(i)
}

/// What `get_file_by_id(id)` returns on the store `s`.
pub open spec fn get_by_id_outcome(s: StoreModel, id: u32, r: FileResult<&File>) -> bool {
    &&& (r is Ok <==> has_id(s.files, id))
    &&& r matches Err(e) ==> e == FileError::InvalidId(id)
    &&& r matches Ok(f) ==> f.id == id && s.files.contains(*f)
}

/// What `delete_file_by_id(id)` leaves and returns when the store was `before`.
pub open spec fn delete_by_id_outcome(
    before: StoreModel,
    after: StoreModel,
    id: u32,
    r: FileResult<()>,
) -> bool {
    &&& after.wf()
    &&& after.next_id == before.next_id
    &&& (r is Ok <==> has_id(before.files, id))
    &&& r matches Err(e) ==> after == before && e == FileError::InvalidId(id)
    &&& r is Ok ==> exists|i: int|
        0 <= i < before.files.len() && #[trigger] before.files[i].id == id
            && after.files == before.files.remove(i)
}

/// The in-memory store of files.
pub struct FileSystem {
    files: Vec<File>,
    next_id: u32,
}

impl View for FileSystem {
    type V = StoreModel;

    closed spec fn view(&self) -> StoreModel {
        StoreModel { files: self.files@, next_id: self.next_id }
    }
}

impl Default for FileSystem {
    fn default() -> (r: FileSystem)
        ensures
            r.wf(),
            r@.files.len() == 0,
            r@.next_id == 1,
    {
        FileSystem::new()
    }
}

impl FileSystem {
    /// The store keeps the invariant of its model.
    pub open spec fn wf(&self) -> bool {
        self@.wf()
    }

    /// An empty store whose first file will get identifier 1.
    pub fn new() -> (r: FileSystem)
        ensures
            r.wf(),
            r@.files.len() == 0,
            r@.next_id == 1,
    {
        FileSystem { files: Vec::new(), next_id: 1 }
    }

    /// Adds a file named `name` holding `content`, and returns the identifier
    /// it was given. Fails with `AlreadyExists` when the name is taken, and
    /// with `InvalidInput` when it is blank; the store is then unchanged.
    /// The caller sees to it that an identifier is left and that the sizes
    /// still sum to a `usize`.
    pub fn create_file(&mut self, name: String, content: String) -> (r: FileResult<u32>)
        requires
            old(self).wf(),
            old(self)@.next_id < u32::MAX,
            total_bytes(old(self)@.files) + byte_len(content@) <= usize::MAX,
        ensures
            create_outcome(old(self)@, final(self)@, name, content, r),
    {
        let id = self.next_id;
        let file = match File::new(id, name, content) {
            Ok(f) => f,
            Err(e) => return Err(e),
        };
        if self.position_of_name(file.name.as_str()).is_some() {
            return Err(FileError::AlreadyExists(file.name));
        }
        proof {
            lemma_total_push(self.files@, file);
        }
        self.files.push(file);
        self.next_id = self.next_id + 1;
        proof {
            let files = self.files@;
            assert(files.drop_last() == old(self)@.files);
            assert forall|i: int, j: int|
                0 <= i < files.len() && 0 <= j < files.len() && i != j
                implies (#[trigger] files[i]).name@ != (#[trigger] files[j]).name@ by {
                if j == files.len() - 1 {
                    assert(old(self)@.files[i] == files[i]);
                } else if i == files.len() - 1 {
                    assert(old(self)@.files[j] == files[j]);
                }
            }
        }
        Ok(id)
    }

    /// Replaces the content of the file named `name`. Fails with `NotFound`,
    /// leaving the store unchanged, when there is none. The caller sees to it
    /// that the sizes still sum to a `usize`.
    pub fn write_file(&mut self, name: &str, content: String) -> (r: FileResult<()>)
        requires
            old(self).wf(),
            forall|i: int| 0 <= i < old(self)@.files.len() && #[trigger] old(self)@.files[i].name@ == name@
                ==> total_bytes(old(self)@.files) - old(self)@.files[i].size + byte_len(content@) <= usize::MAX,
        ensures
            write_outcome(old(self)@, final(self)@, name@, content@, r),
    {
        match self.position_of_name(name) {
            Some(i) => {
                let mut file = self.files.remove(i);
                file.write_content(content);
                proof {
                    lemma_total_update(old(self)@.files, i as int, file);
                    assert(self.files@.insert(i as int, file) == old(self)@.files.update(i as int, file));
                }
                self.files.insert(i, file);
                Ok(())
            }
            None => Err(FileError::NotFound(name.to_owned())),
        }
    }


    /// The content of the file named `name`; `NotFound` when there is none.
    pub fn read_file(&self, name: &str) -> (r: FileResult<&str>)
        requires
            self.wf(),
        ensures
            read_outcome(self@, name@, r),
    {
        match self.position_of_name(name) {
            Some(i) => Ok(self.files[i].content.as_str()),
            None => Err(FileError::NotFound(name.to_owned())),
        }
    }

    /// The file named `name`; `NotFound` when there is none.
    pub fn get_file(&self, name: &str) -> (r: FileResult<&File>)
        requires
            self.wf(),
        ensures
            r is Ok <==> has_name(self@.files, name@),
            r matches Err(e) ==> e.is_not_found(name@),
            r matches Ok(f) ==> f.name@ == name@ && self@.files.contains(*f),
    {
        match self.position_of_name(name) {
            Some(i) => Ok(&self.files[i]),
            None => Err(FileError::NotFound(name.to_owned())),
        }
    }

    /// The file with identifier `id`; `InvalidId` when there is none.
    pub fn get_file_by_id(&self, id: u32) -> (r: FileResult<&File>)
        requires
            self.wf(),
        ensures
            get_by_id_outcome(self@, id, r),
    {
        match self.position_of_id(id) {
            Some(i) => Ok(&self.files[i]),
            None => Err(FileError::InvalidId(id)),
        }
    }

    /// All files, in the order they were created.
    pub fn list_files(&self) -> (r: &[File])
        ensures
            r@ == self@.files,
    {
        self.files.as_slice()
    }

    /// Removes the file named `name`, keeping the others in order; `NotFound`,
    /// with the store unchanged, when there is none.
    pub fn delete_file(&mut self, name: &str) -> (r: FileResult<()>)
        requires
            old(self).wf(),
        ensures
            delete_by_name_outcome(old(self)@, final(self)@, name@, r),
    {
        match self.position_of_name(name) {
            Some(i) => {
                proof {
                    lemma_total_remove(self.files@, i as int);
                }
                self.files.remove(i);
                Ok(())
            }
            None => Err(FileError::NotFound(name.to_owned())),
        }
    }

    /// Removes the file with identifier `id`, keeping the others in order;
    /// `InvalidId`, with the store unchanged, when there is none.
    pub fn delete_file_by_id(&mut self, id: u32) -> (r: FileResult<()>)
        requires
            old(self).wf(),
        ensures
            delete_by_id_outcome(old(self)@, final(self)@, id, r),
    {
        match self.position_of_id(id) {
            Some(i) => {
                proof {
                    lemma_total_remove(self.files@, i as int);
                }
                self.files.remove(i);
                Ok(())
            }
            None => Err(FileError::InvalidId(id)),
        }
    }

    /// The number of files.
    pub fn file_count(&self) -> (r: usize)
        ensures
            r == self@.files.len(),
    {
        self.files.len()
    }

    /// The sum of the sizes of all files; 0 when there are none.
    pub fn total_size(&self) -> (r: usize)
        requires
            self.wf(),
        ensures
            r == total_bytes(self@.files),
    {
        let mut sum: usize = 0;
        let mut i: usize = 0;
        while i < self.files.len()
            invariant
                self.wf(),
                i <= self.files@.len(),
                sum == total_bytes(self.files@.take(i as int)),
            decreases self.files@.len() - i,
        {
            proof {
                assert(self.files@.take(i + 1).drop_last() == self.files@.take(i as int));
                lemma_total_prefix(self.files@, i + 1);
            }
            sum = sum + self.files[i].size;
            i = i + 1;
        }
        assert(self.files@.take(i as int) == self.files@);
        sum
    }

    /// The identifier that the next file created will get.
    pub fn next_id(&self) -> (r: u32)
        ensures
            r == self@.next_id,
    {
        self.next_id
    }

    /// The position of the file named `name`, if there is one.
    fn position_of_name(&self, name: &str) -> (r: Option<usize>)
        ensures
            r matches Some(i) ==> i < self@.files.len() && self@.files[i as int].name@ == name@,
            r is None <==> !has_name(self@.files, name@),
    {
        let mut i: usize = 0;
        while i < self.files.len()
            invariant
                i <= self.files@.len(),
                forall|j: int| 0 <= j < i ==> self.files@[j].name@ != name@,
            decreases self.files@.len() - i,
        {
            if same_text(self.files[i].name.as_str(), name) {
                return Some(i);
            }
            i = i + 1;
        }
        None
    }

    /// The position of the file with identifier `id`, if there is one.
    fn position_of_id(&self, id: u32) -> (r: Option<usize>)
        ensures
            r matches Some(i) ==> i < self@.files.len() && self@.files[i as int].id == id,
            r is None <==> !has_id(self@.files, id),
    {
        let mut i: usize = 0;
        while i < self.files.len()
            invariant
                i <= self.files@.len(),
                forall|j: int| 0 <= j < i ==> self.files@[j].id != id,
            decreases self.files@.len() - i,
        {
            if self.files[i].id == id {
                return Some(i);
            }
            i = i + 1;
        }
        None
    }
}

} // verus!
