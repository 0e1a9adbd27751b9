//! Properties that span several operations on the store.
use vstd::prelude::*;

use crate::error::{FileError, FileResult};
use crate::file::{
    byte_len, total_bytes, File, create_outcome, delete_by_id_outcome, get_by_id_outcome, has_id, has_name,
    read_outcome, write_outcome, StoreModel,
};
use crate::text::is_blank;

verus! {

/// The call returned the identifier `id`.
pub open spec fn returned_id(r: FileResult<u32>, id: int) -> bool {
    r matches Ok(v) && v == id
}

proof fn lemma_create_run(
    stores: Seq<StoreModel>,
    names: Seq<String>,
    contents: Seq<String>,
    results: Seq<FileResult<u32>>,
    n: int,
)
    requires
        stores.len() == results.len() + 1,
        names.len() == results.len(),
        contents.len() == results.len(),
        stores[0].wf(),
        stores[0].files.len() == 0,
        stores[0].next_id == 1,
        forall|i: int, j: int| 0 <= i < j < names.len() ==> names[i]@ != names[j]@,
        forall|k: int| 0 <= k < names.len() ==> !is_blank(#[trigger] names[k]@),
        forall|k: int| 0 <= k < results.len() ==>
            create_outcome(stores[k], #[trigger] stores[k + 1], names[k], contents[k], results[k]),
        0 <= n <= results.len(),
    ensures
        stores[n].next_id == n + 1,
        stores[n].files.len() == n,
        forall|m: int| 0 <= m < n ==> (#[trigger] stores[n].files[m]).name@ == names[m]@,
        forall|k: int| 0 <= k < n ==> returned_id(#[trigger] results[k], k + 1),
    decreases n,
{
    if n > 0 {
        let k = n - 1;
        lemma_create_run(stores, names, contents, results, k);
        let before = stores[k];
        let after = stores[n];
        assert(create_outcome(before, after, names[k], contents[k], results[k]));
        assert(!has_name(before.files, names[k]@)) by {
            assert forall|m: int| 0 <= m < before.files.len() implies
                #[trigger] before.files[m].name@ != names[k]@ by {
                assert(names[m]@ != names[k]@);
            }
        }
        assert(!is_blank(names[k]@));
        assert forall|m: int| 0 <= m < n implies (#[trigger] after.files[m]).name@ == names[m]@ by {
            if m < k {
                assert(after.files.drop_last()[m] == after.files[m]);
            }
        }
    }
}

/// Files created one after another in a new store, under distinct names none
/// of which is blank, are all created, and the identifiers they get are
/// 1, 2, 3, ... in the order of the calls.
pub proof fn law_create_ids_count_up(
    stores: Seq<StoreModel>,
    names: Seq<String>,
    contents: Seq<String>,
    results: Seq<FileResult<u32>>,
)
    requires
        stores.len() == results.len() + 1,
        names.len() == results.len(),
        contents.len() == results.len(),
        stores[0].wf(),
        stores[0].files.len() == 0,
        stores[0].next_id == 1,
        forall|i: int, j: int| 0 <= i < j < names.len() ==> names[i]@ != names[j]@,
        forall|k: int| 0 <= k < names.len() ==> !is_blank(#[trigger] names[k]@),
        forall|k: int| 0 <= k < results.len() ==>
            create_outcome(stores[k], #[trigger] stores[k + 1], names[k], contents[k], results[k]),
    ensures
        forall|k: int| 0 <= k < results.len() ==> returned_id(#[trigger] results[k], k + 1),
{
    lemma_create_run(stores, names, contents, results, results.len() as int);
}

/// Creating a file under the name that the previous, successful create used
/// fails with `AlreadyExists` and changes nothing.
pub proof fn law_create_same_name_twice(
    s0: StoreModel,
    s1: StoreModel,
    s2: StoreModel,
    name: String,
    content: String,
    again: String,
    content2: String,
    r1: FileResult<u32>,
    r2: FileResult<u32>,
)
    requires
        create_outcome(s0, s1, name, content, r1),
        r1 is Ok,
        create_outcome(s1, s2, again, content2, r2),
        again@ == name@,
    ensures
        r2 == Err::<u32, FileError>(FileError::AlreadyExists(again)),
        s2 == s1,
{
    assert(s1.files[s1.files.len() - 1].name@ == again@);
    assert(has_name(s1.files, again@));
}

/// Creating a file with an empty name fails with `InvalidInput` and changes
/// nothing.
pub proof fn law_create_empty_name(
    s0: StoreModel,
    s1: StoreModel,
    name: String,
    content: String,
    r: FileResult<u32>,
)
    requires
        s0.wf(),
        create_outcome(s0, s1, name, content, r),
        name@.len() == 0,
    ensures
        r matches Err(e) && e is InvalidInput,
        s1 == s0,
{
    assert(!has_name(s0.files, name@)) by {
        assert forall|m: int| 0 <= m < s0.files.len() implies
            #[trigger] s0.files[m].name@ != name@ by {
            assert(s0.files[m].wf());
        }
    }
}

/// Writing `content` to a file just created makes reading it return
/// `content`; its size becomes the length of `content`, and its identifier and
/// creation time stay.
pub proof fn law_write_then_read(
    s0: StoreModel,
    s1: StoreModel,
    s2: StoreModel,
    name: String,
    first: String,
    content: Seq<char>,
    rc: FileResult<u32>,
    rw: FileResult<()>,
    rr: FileResult<&str>,
)
    requires
        create_outcome(s0, s1, name, first, rc),
        rc is Ok,
        write_outcome(s1, s2, name@, content, rw),
        read_outcome(s2, name@, rr),
    ensures
        rw is Ok,
        rr matches Ok(t) && t@ == content,
        s2.files.len() == s1.files.len(),
        s2.files.last().name@ == name@,
        s2.files.last().id == s1.files.last().id,
        s2.files.last().created_at == s1.files.last().created_at,
        s2.files.last().size == byte_len(content),
        returned_id(rc, s2.files.last().id as int),
{
    let last = s1.files.len() - 1;
    assert(s1.files[last].name@ == name@);
    assert(has_name(s1.files, name@));
    let i = choose|i: int|
        {
            &&& 0 <= i < s1.files.len()
            &&& #[trigger] s1.files[i].name@ == name@
            &&& s2.files.len() == s1.files.len()
            &&& crate::file::rewritten(s1.files[i], s2.files[i], content)
            &&& forall|j: int| 0 <= j < s1.files.len() && j != i ==> s2.files[j] == s1.files[j]
        };
    assert(i == last);
    assert(has_name(s2.files, name@));
    let t = rr->Ok_0;
    let k = choose|k: int|
        0 <= k < s2.files.len() && #[trigger] s2.files[k].name@ == name@ && t@ == s2.files[k].content@;
    assert(k == last);
}

proof fn lemma_next_id_grows(
    stores: Seq<StoreModel>,
    names: Seq<String>,
    contents: Seq<String>,
    results: Seq<FileResult<u32>>,
    n: int,
)
    requires
        stores.len() == results.len() + 1,
        names.len() == results.len(),
        contents.len() == results.len(),
        forall|k: int| 0 <= k < results.len() ==>
            create_outcome(stores[k], #[trigger] stores[k + 1], names[k], contents[k], results[k]),
        0 <= n <= results.len(),
    ensures
        stores[n].next_id >= stores[0].next_id,
        forall|k: int| 0 <= k < n ==> (#[trigger] results[k] matches Ok(fresh) ==> fresh >= stores[0].next_id),
    decreases n,
{
    if n > 0 {
        let k = n - 1;
        lemma_next_id_grows(stores, names, contents, results, k);
        assert(create_outcome(stores[k], stores[k + 1], names[k], contents[k], results[k]));
    }
}

/// After the file with identifier `id` is deleted, looking `id` up fails with
/// `InvalidId`, and no file created afterwards, in any number of creates,
/// gets `id` again.
pub proof fn law_deleted_id_retired(
    s0: StoreModel,
    id: u32,
    rd: FileResult<()>,
    rg: FileResult<&File>,
    stores: Seq<StoreModel>,
    names: Seq<String>,
    contents: Seq<String>,
    results: Seq<FileResult<u32>>,
)
    requires
        s0.wf(),
        stores.len() == results.len() + 1,
        names.len() == results.len(),
        contents.len() == results.len(),
        delete_by_id_outcome(s0, stores[0], id, rd),
        rd is Ok,
        get_by_id_outcome(stores[0], id, rg),
        forall|k: int| 0 <= k < results.len() ==>
            create_outcome(stores[k], #[trigger] stores[k + 1], names[k], contents[k], results[k]),
    ensures
        rg == Err::<&File, FileError>(FileError::InvalidId(id)),
        forall|k: int| 0 <= k < results.len() ==> (#[trigger] results[k] matches Ok(fresh) ==> fresh != id),
{
    let s1 = stores[0];
    let i = choose|i: int|
        0 <= i < s0.files.len() && #[trigger] s0.files[i].id == id && s1.files == s0.files.remove(i);
    assert(!has_id(s1.files, id)) by {
        assert forall|m: int| 0 <= m < s1.files.len() implies #[trigger] s1.files[m].id != id by {
            if m < i {
                assert(s1.files[m] == s0.files[m]);
            } else {
                assert(s1.files[m] == s0.files[m + 1]);
            }
        }
    }
    assert(s0.files[i].id < s0.next_id);
    lemma_next_id_grows(stores, names, contents, results, results.len() as int);
}

proof fn lemma_total_is_fold(files: Seq<File>)
    ensures
        total_bytes(files) == files.fold_left(0int, |acc: int, f: File| acc + f.size),
    decreases files.len(),
{
    if files.len() > 0 {
        lemma_total_is_fold(files.drop_last());
    }
}

/// On every store, the total size is the sum of the sizes of the files that
/// the listing gives, and the count is the length of that listing.
pub proof fn law_totals_match_listing(s: StoreModel, listed: Seq<File>, total: usize, count: usize)
    requires
        s.wf(),
        listed == s.files,
        total == total_bytes(s.files),
        count == s.files.len(),
    ensures
        total == listed.fold_left(0int, |acc: int, f: File| acc + f.size),
        count == listed.len(),
{
    lemma_total_is_fold(listed);
}

} // verus!
