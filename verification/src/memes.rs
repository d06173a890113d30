//! The meme library: image files grouped under keywords.

use vstd::prelude::*;
use vstd::string::*;

verus! {

/// A keyword with the files filed under it.
pub type MemeEntryView = (Seq<char>, Seq<Seq<char>>);

/// The texts of a list of strings.
pub open spec fn texts(v: Seq<String>) -> Seq<Seq<char>> {
    v.map_values(|s: String| s@)
}

/// `idx` files keyword `kw` at position `i`.
pub open spec fn files_kw_at(idx: Seq<MemeEntryView>, kw: Seq<char>, i: int) -> bool {
    0 <= i < idx.len() && idx[i].0 == kw
}

/// `idx` has an entry for keyword `kw`.
pub open spec fn has_kw(idx: Seq<MemeEntryView>, kw: Seq<char>) -> bool {
    exists|i: int| files_kw_at(idx, kw, i)
}

/// No keyword is filed twice.
pub open spec fn distinct_kws(idx: Seq<MemeEntryView>) -> bool {
    forall|i: int, j: int| 0 <= i < idx.len() && 0 <= j < idx.len() && i != j ==> idx[i].0 != idx[j].0
}

/// The position of keyword `kw` (meaningful when `idx` has it).
pub open spec fn kw_index(idx: Seq<MemeEntryView>, kw: Seq<char>) -> int {
    choose|i: int| files_kw_at(idx, kw, i)
}

/// The files filed under `kw`, if the keyword is known.
pub open spec fn lookup(idx: Seq<MemeEntryView>, kw: Seq<char>) -> Option<Seq<Seq<char>>> {
    if has_kw(idx, kw) {
        Some(idx[kw_index(idx, kw)].1)
    } else {
        None
    }
}

/// `idx` with file `path` appended under keyword `kw`.
pub open spec fn add_meme(idx: Seq<MemeEntryView>, kw: Seq<char>, path: Seq<char>) -> Seq<MemeEntryView> {
    if has_kw(idx, kw) {
        let i = kw_index(idx, kw);
        idx.update(i, (kw, idx[i].1.push(path)))
    } else {
        idx.push((kw, seq![path]))
    }
}

/// `idx` with every file of `paths` appended under `kw`, in order.
pub open spec fn add_memes(idx: Seq<MemeEntryView>, kw: Seq<char>, paths: Seq<Seq<char>>) -> Seq<MemeEntryView>
    decreases paths.len(),
{
    if paths.len() == 0 {
        idx
    } else {
        add_meme(add_memes(idx, kw, paths.drop_last()), kw, paths.last())
    }
}

/// A folder of the meme directory as the caller found it: its name, when the
/// name is valid Unicode, and the paths of the files in it.
pub struct MemeFolder {
    pub keyword: Option<String>,
    pub files: Vec<String>,
}

/// What a folder holds, as plain text.
pub open spec fn folder_view(f: MemeFolder) -> (Option<Seq<char>>, Seq<Seq<char>>) {
    (
        match f.keyword {
            Some(k) => Some(k@),
            None => None,
        },
        texts(f.files@),
    )
}

/// `idx` after filing the folders in order; a folder whose name is not valid
/// Unicode is skipped.
pub open spec fn add_folders(idx: Seq<MemeEntryView>, folders: Seq<MemeFolder>) -> Seq<MemeEntryView>
    decreases folders.len(),
{
    if folders.len() == 0 {
        idx
    } else {
        let before = add_folders(idx, folders.drop_last());
        match folder_view(folders.last()).0 {
            Some(kw) => add_memes(before, kw, folder_view(folders.last()).1),
            None => before,
        }
    }
}

/// Files grouped under keywords; a keyword is filed at most once.
pub struct MemeIndex {
    entries: Vec<(String, Vec<String>)>,
}

impl View for MemeIndex {
    type V = Seq<MemeEntryView>;

    closed spec fn view(&self) -> Seq<MemeEntryView> {
        self.entries@.map_values(|e: (String, Vec<String>)| (e.0@, texts(e.1@)))
    }
}

impl MemeIndex {
    /// No keyword is filed twice.
    pub open spec fn wf(&self) -> bool {
        distinct_kws(self@)
    }

    /// An empty library.
    pub fn new() -> (r: MemeIndex)
        ensures
            r@ == Seq::<MemeEntryView>::empty(),
            r.wf(),
    {
        let r = MemeIndex { entries: Vec::new() };
        assert(r@ =~= Seq::<MemeEntryView>::empty());
        r
    }

    /// Where keyword `kw` is filed, if it is.
    fn position(&self, kw: &String) -> (r: Option<usize>)
        requires
            self.wf(),
        ensures
            match r {
                Some(i) => files_kw_at(self@, kw@, i as int),
                None => !has_kw(self@, kw@),
            },
    {
        let n = self.entries.len();
        let mut i: usize = 0;
        while i < n
            invariant
                n == self.entries@.len(),
                n == self@.len(),
                i <= n,
                forall|j: int| 0 <= j < i ==> !files_kw_at(self@, kw@, j),
            decreases n - i,
        {
            assert(self@[i as int].0 == self.entries@[i as int].0@);
            if self.entries[i].0 == *kw {
                return Some(i);
            }
            i = i + 1;
        }
        assert forall|j: int| !files_kw_at(self@, kw@, j) by {
            if 0 <= j < n {
                assert(j < i);
            }
        }
        None
    }

    /// The files filed under `kw`, if any.
    pub fn get(&self, kw: &String) -> (r: Option<&Vec<String>>)
        requires
            self.wf(),
        ensures
            match r {
                Some(v) => lookup(self@, kw@) == Some(texts(v@)),
                None => lookup(self@, kw@) is None,
            },
    {
        match self.position(kw) {
            Some(i) => {
                proof {
                    assert(files_kw_at(self@, kw@, kw_index(self@, kw@)));
                    assert(kw_index(self@, kw@) == i as int);
                }
                Some(&self.entries[i].1)
            },
            None => None,
        }
    }

    /// Files `path` under keyword `kw`, after the files already there.
    pub fn add(&mut self, kw: String, path: String)
        requires
            old(self).wf(),
        ensures
            final(self).wf(),
            final(self)@ == add_meme(old(self)@, kw@, path@),
    {
        let ghost before = self@;
        match self.position(&kw) {
            Some(i) => {
                proof {
                    assert(files_kw_at(before, kw@, kw_index(before, kw@)));
                    assert(kw_index(before, kw@) == i as int);
                }
                let mut pair = self.entries.remove(i);
                let ghost files = pair.1@;
                pair.1.push(path);
                assert(texts(pair.1@) =~= texts(files).push(path@));
                self.entries.insert(i, pair);
                assert(self@ =~= before.update(i as int, (kw@, before[i as int].1.push(path@))));
                assert forall|j: int| 0 <= j < self@.len() implies #[trigger] self@[j].0
                    == before[j].0 by {}
            },
            None => {
                let mut files: Vec<String> = Vec::new();
                files.push(path);
                assert(texts(files@) =~= seq![path@]);
                self.entries.push((kw, files));
                assert(self@ =~= before.push((kw@, seq![path@])));
                assert forall|j: int| 0 <= j < before.len() implies #[trigger] before[j].0 != kw@ by {
                    assert(!files_kw_at(before, kw@, j));
                }
            },
        }
    }
}

/// Files every meme of every folder under the folder's name, in the order the
/// folders and their files are given; folders whose name is not valid Unicode
/// are skipped.
pub fn load(memes: MemeIndex, folders: Vec<MemeFolder>) -> (r: MemeIndex)
    requires
        memes.wf(),
    ensures
        r.wf(),
        r@ == add_folders(memes@, folders@),
{
    let ghost start = memes@;
    let mut memes = memes;
    let n = folders.len();
    let mut i: usize = 0;
    assert(folders@.take(0) =~= Seq::<MemeFolder>::empty());
    while i < n
        invariant
            n == folders@.len(),
            i <= n,
            memes.wf(),
            memes@ == add_folders(start, folders@.take(i as int)),
        decreases n - i,
    {
        let folder = &folders[i];
        let ghost base = memes@;
        assert(folders@.take(i + 1).drop_last() =~= folders@.take(i as int));
        assert(folders@.take(i + 1).last() == *folder);
        match &folder.keyword {
            Some(kw) => {
                let m = folder.files.len();
                let mut j: usize = 0;
                assert(texts(folder.files@).take(0) =~= Seq::<Seq<char>>::empty());
                while j < m
                    invariant
                        m == folder.files@.len(),
                        j <= m,
                        memes.wf(),
                        memes@ == add_memes(base, kw@, texts(folder.files@).take(j as int)),
                    decreases m - j,
                {
                    let ghost files = texts(folder.files@);
                    assert(files.take(j + 1).drop_last() =~= files.take(j as int));
                    assert(files.take(j + 1).last() == folder.files@[j as int]@);
                    memes.add(kw.clone(), folder.files[j].clone());
                    j = j + 1;
                }
                assert(texts(folder.files@).take(m as int) =~= texts(folder.files@));
            },
            None => {},
        }
        i = i + 1;
    }
    assert(folders@.take(n as int) =~= folders@);
    memes
}

} // verus!
