use vstd::prelude::*;

use crate::file::{extension_of, total_bytes, File, FileSystem};
use crate::text::same_text;

verus! {

/// How many of `files` have the extension `ext` (`None`: no extension).
pub open spec fn count_with_extension(files: Seq<File>, ext: Option<Seq<char>>) -> nat
    decreases files.len(),
{
    if files.len() == 0 {
        0
    } else {
        count_with_extension(files.drop_last(), ext) + if extension_of(files.last().name@) == ext {
            1nat
        } else {
            0nat
        }
    }
}

/// The view of an optional string.
pub open spec fn key_view(k: Option<String>) -> Option<Seq<char>> {
    match k {
        Some(s) => Some(s@),
        None => None,
    }
}

/// `keys` and `counts` group `files` by extension: each extension that occurs
/// stands once in `keys`, beside the number of files that have it.
pub open spec fn groups_by_extension(
    files: Seq<File>,
    keys: Seq<Option<Seq<char>>>,
    counts: Seq<usize>,
) -> bool {
    &&& keys.len() == counts.len()
    &&& forall|i: int, j: int| 0 <= i < j < keys.len() ==> keys[i] != keys[j]
    &&& forall|i: int| 0 <= i < keys.len() ==>
            #[trigger] counts[i] == count_with_extension(files, keys[i])
    &&& forall|f: int| 0 <= f < files.len() ==>
            keys.contains(extension_of(#[trigger] files[f].name@))
}

/// `st` sums up `files`.
pub open spec fn stats_match(files: Seq<File>, st: Stats) -> bool {
    &&& st.file_count == files.len()
    &&& st.total_size == total_bytes(files)
    &&& st.average_size == if files.len() == 0 {
        None::<usize>
    } else {
        Some((total_bytes(files) / files.len() as int) as usize)
    }
    &&& groups_by_extension(files, st.extension_keys(), st.extension_counts@)
}

/// A summary of the store.
#[derive(Debug)]
pub struct Stats {
    pub file_count: usize,
    pub total_size: usize,
    /// The total size divided by the number of files, rounded down; `None`
    /// when there are no files.
    pub average_size: Option<usize>,
    /// The extensions that occur, in the order of their first file; `None`
    /// stands for the files without one.
    pub extensions: Vec<Option<String>>,
    /// The number of files with each of `extensions`.
    pub extension_counts: Vec<usize>,
}

impl Stats {
    /// The extensions, as views.
    pub open spec fn extension_keys(&self) -> Seq<Option<Seq<char>>> {
        self.extensions@.map_values(|k: Option<String>| key_view(k))
    }
}

proof fn lemma_count_bound(files: Seq<File>, ext: Option<Seq<char>>)
    ensures
        count_with_extension(files, ext) <= files.len(),
    decreases files.len(),
{
    if files.len() > 0 {
        lemma_count_bound(files.drop_last(), ext);
    }
}

proof fn lemma_count_absent(files: Seq<File>, ext: Option<Seq<char>>)
    requires
        forall|f: int| 0 <= f < files.len() ==> extension_of(#[trigger] files[f].name@) != ext,
    ensures
        count_with_extension(files, ext) == 0,
    decreases files.len(),
{
    if files.len() > 0 {
        lemma_count_absent(files.drop_last(), ext);
    }
}

/// Whether `key` names the extension `ext`.
fn same_key(key: &Option<String>, ext: Option<&str>) -> (r: bool)
    ensures
        r == (key_view(*key) == match ext {
            Some(e) => Some(e@),
            None => None::<Seq<char>>,
        }),
{
    match (key, ext) {
        (Some(k), Some(e)) => same_text(k.as_str(), e),
        (None, None) => true,
        _ => false,
    }
}

/// The number of files, their total size, the average size and how many
/// files have each extension.
pub fn stats(fs: &FileSystem) -> (r: Stats)
    requires
        fs.wf(),
    ensures
        stats_match(fs@.files, r),
{
    let files = fs.list_files();
    let file_count = fs.file_count();
    let total_size = fs.total_size();
    let average_size = if file_count == 0 {
        None
    } else {
        Some(total_size / file_count)
    };
    let mut extensions: Vec<Option<String>> = Vec::new();
    let mut extension_counts: Vec<usize> = Vec::new();
    let mut i: usize = 0;
    while i < files.len()
        invariant
            files@ == fs@.files,
            i <= files@.len(),
            groups_by_extension(
                files@.take(i as int),
                extensions@.map_values(|k: Option<String>| key_view(k)),
                extension_counts@,
            ),
        decreases files@.len() - i,
    {
        let ghost seen = files@.take(i as int);
        let ghost next = files@.take(i + 1);
        let ghost keys = extensions@.map_values(|k: Option<String>| key_view(k));
        assert(next.drop_last() == seen);
        let ext = files[i].extension();
        let ghost ext_key = extension_of(files@[i as int].name@);
        let mut j: usize = 0;
        let mut found = false;
        while j < extensions.len()
            invariant_except_break
                j <= extensions@.len(),
                forall|m: int| 0 <= m < j ==> key_view(extensions@[m]) != ext_key,
                ext_key == match ext {
                    Some(e) => Some(e@),
                    None => None::<Seq<char>>,
                },
                !found,
            ensures
                found ==> j < extensions@.len() && key_view(extensions@[j as int]) == ext_key,
                !found ==> j == extensions@.len(),
                !found ==> forall|m: int| 0 <= m < j ==> key_view(extensions@[m]) != ext_key,
            decreases extensions@.len() - j,
        {
            if same_key(&extensions[j], ext) {
                found = true;
                break;
            }
            j = j + 1;
        }
        proof {
            lemma_count_bound(seen, ext_key);
        }
        if found {
            let c = extension_counts[j];
            extension_counts.set(j, c + 1);
            proof {
                assert(keys[j as int] == ext_key);
                assert forall|f: int| 0 <= f < next.len() implies
                    keys.contains(extension_of(#[trigger] next[f].name@)) by {
                    if f == i {
                        assert(keys[j as int] == ext_key);
                    } else {
                        assert(next[f] == seen[f]);
                    }
                }
            }
        } else {
            let key = match ext {
                Some(e) => Some(e.to_owned()),
                None => None,
            };
            let ghost before = extensions@;
            extensions.push(key);
            extension_counts.push(1);
            proof {
                let new_keys = extensions@.map_values(|k: Option<String>| key_view(k));
                assert(new_keys == keys.push(ext_key));
                assert forall|m: int| 0 <= m < keys.len() implies keys[m] != ext_key by {
                    assert(key_view(before[m]) == keys[m]);
                }
                assert(!keys.contains(ext_key));
                assert forall|f: int| 0 <= f < seen.len() implies
                    extension_of(#[trigger] seen[f].name@) != ext_key by {
                    assert(keys.contains(extension_of(seen[f].name@)));
                }
                lemma_count_absent(seen, ext_key);
                assert forall|f: int| 0 <= f < next.len() implies
                    new_keys.contains(extension_of(#[trigger] next[f].name@)) by {
                    if f == i {
                        assert(new_keys[keys.len() as int] == ext_key);
                    } else {
                        assert(next[f] == seen[f]);
                        assert(keys.contains(extension_of(seen[f].name@)));
                        let m = choose|m: int| 0 <= m < keys.len() && keys[m] == extension_of(seen[f].name@);
                        assert(new_keys[m] == keys[m]);
                    }
                }
            }
        }
        i = i + 1;
    }
    assert(files@.take(i as int) == files@);
    Stats { file_count, total_size, average_size, extensions, extension_counts }
}

} // verus!
