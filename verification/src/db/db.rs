use crate::db::cache::Cache;
use crate::db::ir::{
    files_pushed, files_wf, find_path, lemma_find_path, FileModel, MemoModel, SchemaFile,
};
use crate::lexer::lex;
use crate::parser::parser::Parsed;
use crate::parser::schema::{syntax_errors, syntax_tree};
use crate::rope::{rope_clone, rope_from_str, rope_len_bytes, rope_text};
use crate::unicode::{byte_len, str_eq};
use vstd::prelude::*;

verus! {

/// A parse that is remembered, with the version of the text it came from.
pub struct Memo {
    pub(crate) version: u64,
    pub(crate) parsed: Parsed,
}

/// What is kept of one file.
pub struct FileCell {
    pub(crate) path: String,
    pub(crate) text: ropey::Rope,
    pub(crate) version: u64,
    pub(crate) memo: Option<Memo>,
}

impl View for FileCell {
    type V = FileModel;

    closed spec fn view(&self) -> FileModel {
        FileModel {
            path: self.path@,
            text: rope_text(self.text),
            version: self.version as nat,
            memo: match self.memo {
                Some(memo) => Some(
                    MemoModel {
                        version: memo.version as nat,
                        tree: memo.parsed.tree(),
                        errors: memo.parsed.faults(),
                    },
                ),
                None => None,
            },
        }
    }
}

impl FileCell {
    fn clone(&self) -> (copy: Self)
        ensures
            copy@ == self@,
    {
        let memo = match &self.memo {
            Some(memo) => Some(Memo { version: memo.version, parsed: memo.parsed.clone() }),
            None => None,
        };
        FileCell {
            path: self.path.clone(),
            text: rope_clone(&self.text),
            version: self.version,
            memo,
        }
    }
}

/// The store of a database: its files, each with its text, its version
/// and the parse that is remembered of it.
pub struct Jar {
    pub(crate) files: Vec<FileCell>,
}

impl View for Jar {
    type V = Seq<FileModel>;

    closed spec fn view(&self) -> Seq<FileModel> {
        Seq::new(self.files@.len(), |i: int| self.files@[i]@)
    }
}

impl Jar {
    pub fn new() -> (jar: Jar)
        ensures
            jar@ == Seq::<FileModel>::empty(),
    {
        let jar = Jar { files: Vec::new() };
        assert(jar@ =~= Seq::<FileModel>::empty());
        jar
    }

    /// The index of the file with the given path, or the number of files.
    pub fn find(&self, path: &str) -> (at: usize)
        ensures
            at == find_path(self@, path@),
            at <= self@.len(),
    {
        let mut at: usize = self.files.len();
        let mut i: usize = 0;
        while i < self.files.len()
            invariant
                i <= self.files.len(),
                self@.len() == self.files.len(),
                at == self.files.len() || at < i,
                at as int == if find_path(self@.take(i as int), path@) < i {
                    find_path(self@.take(i as int), path@)
                } else {
                    self.files.len() as int
                },
            decreases self.files.len() - i,
        {
            proof {
                lemma_find_path(self@.take(i as int), path@);
                assert(self@.take(i + 1).drop_last() =~= self@.take(i as int));
                assert(self@.take(i + 1).last() == self.files@[i as int]@);
            }
            if at == self.files.len() && str_eq(self.files[i].path.as_str(), path) {
                at = i;
            }
            i = i + 1;
        }
        proof {
            assert(self@.take(i as int) =~= self@);
            lemma_find_path(self@, path@);
        }
        at
    }

    /// Keeps a text under a path: as the next version of the file with
    /// that path, or as a new file.
    pub fn push(&mut self, path: String, text: ropey::Rope) -> (file: SchemaFile)
        requires
            files_wf(old(self)@),
        ensures
            files_wf(final(self)@),
            final(self)@ == files_pushed(old(self)@, path@, rope_text(text)),
            file.index() == find_path(old(self)@, path@),
    {
        let ghost before = self@;
        let at = self.find(path.as_str());
        proof {
            lemma_find_path(before, path@);
        }
        if at < self.files.len() {
            self.set_text(at, text);
        } else {
            self.files.push(FileCell { path, text, version: 0, memo: None });
            proof {
                assert(self@ =~= before.push(FileModel::new(path@, rope_text(text))));
                assert forall|i: int, j: int| 0 <= i < j < self@.len() implies (
                #[trigger] self@[i]).path != (#[trigger] self@[j]).path by {
                    if j < before.len() {
                        assert(self@[i] == before[i]);
                        assert(self@[j] == before[j]);
                    } else {
                        assert(self@[i] == before[i]);
                    }
                }
                assert forall|i: int| 0 <= i < self@.len() implies (#[trigger] self@[i]).wf() by {
                    if i < before.len() {
                        assert(self@[i] == before[i]);
                    }
                }
            }
        }
        SchemaFile { id: at }
    }

    /// Gives the file with the given index another text.
    pub fn set_text(&mut self, at: usize, text: ropey::Rope)
        requires
            files_wf(old(self)@),
            at < old(self)@.len(),
        ensures
            files_wf(final(self)@),
            final(self)@ == old(self)@.update(
                at as int,
                old(self)@[at as int].with_text(rope_text(text)),
            ),
    {
        let ghost before = self@;
        let mut cell = self.files.remove(at);
        let ghost was = cell@;
        assert(was == before[at as int]);
        cell.text = text;
        if cell.version < u64::MAX {
            cell.version = cell.version + 1;
        } else {
            cell.memo = None;
        }
        assert(cell@ == was.with_text(rope_text(text)));
        self.files.insert(at, cell);
        proof {
            assert(self@ =~= before.update(at as int, was.with_text(rope_text(text))));
            assert forall|i: int, j: int| 0 <= i < j < self@.len() implies (
            #[trigger] self@[i]).path != (#[trigger] self@[j]).path by {
                assert(self@[i].path == before[i].path);
                assert(self@[j].path == before[j].path);
            }
            assert forall|i: int| 0 <= i < self@.len() implies (#[trigger] self@[i]).wf() by {
                if i != at {
                    assert(self@[i] == before[i]);
                }
            }
        }
    }

    /// The parse that is remembered of a file, if it is of the text as it
    /// is now.
    pub fn recall(&self, at: usize) -> (parsed: Option<Parsed>)
        requires
            at < self@.len(),
        ensures
            parsed is Some == self@[at as int].fresh(),
            parsed matches Some(p) ==> p.tree() == self@[at as int].memo->0.tree && p.faults()
                == self@[at as int].memo->0.errors,
    {
        let cell = &self.files[at];
        match &cell.memo {
            Some(memo) => {
                if memo.version == cell.version {
                    Some(memo.parsed.clone())
                } else {
                    None
                }
            },
            None => None,
        }
    }

    /// Remembers a parse of the text of a file as it is now.
    pub fn remember(&mut self, at: usize, parsed: Parsed)
        requires
            files_wf(old(self)@),
            at < old(self)@.len(),
            parsed.tree() == syntax_tree(lex(old(self)@[at as int].text)),
            parsed.faults() == syntax_errors(lex(old(self)@[at as int].text)),
        ensures
            files_wf(final(self)@),
            final(self)@ == old(self)@.update(
                at as int,
                FileModel {
                    memo: Some(
                        MemoModel {
                            version: old(self)@[at as int].version,
                            tree: parsed.tree(),
                            errors: parsed.faults(),
                        },
                    ),
                    ..old(self)@[at as int]
                },
            ),
    {
        let ghost before = self@;
        let mut cell = self.files.remove(at);
        let ghost was = cell@;
        assert(was == before[at as int]);
        cell.memo = Some(Memo { version: cell.version, parsed });
        let ghost now = cell@;
        self.files.insert(at, cell);
        proof {
            assert(self@ =~= before.update(at as int, now));
            assert forall|i: int, j: int| 0 <= i < j < self@.len() implies (
            #[trigger] self@[i]).path != (#[trigger] self@[j]).path by {
                assert(self@[i].path == before[i].path);
                assert(self@[j].path == before[j].path);
            }
            assert forall|i: int| 0 <= i < self@.len() implies (#[trigger] self@[i]).wf() by {
                if i != at {
                    assert(self@[i] == before[i]);
                }
            }
        }
    }

    /// A copy of the store, which shares the storage of texts and trees.
    pub fn clone(&self) -> (copy: Jar)
        ensures
            copy@ == self@,
    {
        let mut files: Vec<FileCell> = Vec::new();
        let mut i: usize = 0;
        while i < self.files.len()
            invariant
                i <= self.files.len(),
                files@.len() == i,
                forall|j: int| 0 <= j < i ==> files@[j]@ == self.files@[j]@,
            decreases self.files.len() - i,
        {
            files.push(self.files[i].clone());
            i = i + 1;
        }
        let copy = Jar { files };
        assert(copy@ =~= self@);
        copy
    }
}

/// What the queries of a database need from it.
pub trait Db {
    /// The store through which the trees of the database are built.
    spec fn store(&self) -> Cache;

    /// A handle on the store of shared tree storage: another handle on
    /// the store of the database.
    fn cache(&self) -> (cache: Cache)
        ensures
            cache == self.store(),
    ;
}

/// The open documents of a session, each a versioned text with the parse
/// that is remembered of it, and the store that their trees share.
pub struct Database {
    pub(crate) storage: Jar,
    pub(crate) cache: Cache,
}

impl View for Database {
    type V = Seq<FileModel>;

    closed spec fn view(&self) -> Seq<FileModel> {
        self.storage@
    }
}

impl Db for Database {
    closed spec fn store(&self) -> Cache {
        self.cache
    }

    fn cache(&self) -> (cache: Cache) {
        self.cache.clone()
    }
}

impl Database {
    pub open spec fn wf(&self) -> bool {
        files_wf(self@)
    }

    /// Whether a handle is one of this database's files.
    pub open spec fn has(&self, file: SchemaFile) -> bool {
        0 <= file.index() < self@.len()
    }

    /// A database without files.
    pub fn new() -> (db: Database)
        ensures
            db.wf(),
            db@ == Seq::<FileModel>::empty(),
    {
        Database { storage: Jar::new(), cache: Cache::new() }
    }

    /// The file that is kept under a path, if there is one.
    pub fn schema_file(&self, path: &str) -> (file: Option<SchemaFile>)
        requires
            self.wf(),
        ensures
            file is Some == (find_path(self@, path@) < self@.len()),
            file matches Some(f) ==> f.index() == find_path(self@, path@) && self.has(f)
                && self@[f.index()].path == path@,
            file is None ==> forall|i: int| 0 <= i < self@.len() ==> (#[trigger] self@[i]).path
                != path@,
    {
        proof {
            lemma_find_path(self@, path@);
        }
        let at = self.storage.find(path);
        if at < self.storage.files.len() {
            Some(SchemaFile { id: at })
        } else {
            None
        }
    }

    /// Keeps a text under a path: as the next version of the file with
    /// that path, or as a new file.
    pub fn push_file(&mut self, path: String, source: String)
        requires
            old(self).wf(),
        ensures
            final(self).wf(),
            final(self).store() == old(self).store(),
            final(self)@ == files_pushed(old(self)@, path@, source@),
    {
        let text = rope_from_str(source.as_str());
        self.storage.push(path, text);
    }

    /// Keeps several texts, each under its path, in the order given.
    pub fn push_files(&mut self, files: Vec<(String, String)>)
        requires
            old(self).wf(),
        ensures
            final(self).wf(),
            final(self).store() == old(self).store(),
            final(self)@ == files_pushed_all(
                old(self)@,
                pairs_view(files@),
                files@.len() as nat,
            ),
    {
        let ghost before = self@;
        let ghost items = files@;
        let ghost all = pairs_view(files@);
        for file in it: files
            invariant
                self.wf(),
                self.store() == old(self).store(),
                it.seq() == items,
                all == pairs_view(items),
                self@ == files_pushed_all(before, all, it.index() as nat),
        {
            assert(all[it.index() as int] == (file.0@, file.1@));
            self.push_file(file.0, file.1);
        }
    }

    /// The text of a file.
    pub fn text(&self, file: SchemaFile) -> (text: ropey::Rope)
        requires
            self.has(file),
        ensures
            rope_text(text) == self@[file.index()].text,
    {
        rope_clone(&self.storage.files[file.id].text)
    }

    /// The path of a file.
    pub fn path(&self, file: SchemaFile) -> (path: &str)
        requires
            self.has(file),
        ensures
            path@ == self@[file.index()].path,
    {
        self.storage.files[file.id].path.as_str()
    }

    /// Gives a file another text: a new version of the file.
    pub fn set_text(&mut self, file: SchemaFile, text: ropey::Rope)
        requires
            old(self).wf(),
            old(self).has(file),
        ensures
            final(self).wf(),
            final(self).store() == old(self).store(),
            final(self)@ == old(self)@.update(
                file.index(),
                old(self)@[file.index()].with_text(rope_text(text)),
            ),
    {
        self.storage.set_text(file.id, text);
    }

    /// The parse that is remembered of a file, if it is of the text as it
    /// is now.
    pub fn recall(&self, file: SchemaFile) -> (parsed: Option<Parsed>)
        requires
            self.has(file),
        ensures
            parsed is Some == self@[file.index()].fresh(),
            parsed matches Some(p) ==> p.tree() == self@[file.index()].memo->0.tree
                && p.faults() == self@[file.index()].memo->0.errors,
    {
        self.storage.recall(file.id)
    }

    /// Remembers a parse of the text of a file as it is now, in place of
    /// what was remembered of the file.
    pub fn remember(&mut self, file: SchemaFile, parsed: Parsed)
        requires
            old(self).wf(),
            old(self).has(file),
            parsed.tree() == syntax_tree(lex(old(self)@[file.index()].text)),
            parsed.faults() == syntax_errors(lex(old(self)@[file.index()].text)),
        ensures
            final(self).wf(),
            final(self).store() == old(self).store(),
            final(self)@ == old(self)@.update(
                file.index(),
                FileModel {
                    memo: Some(
                        MemoModel {
                            version: old(self)@[file.index()].version,
                            tree: parsed.tree(),
                            errors: parsed.faults(),
                        },
                    ),
                    ..old(self)@[file.index()]
                },
            ),
    {
        self.storage.remember(file.id, parsed);
    }

    /// Whether the text of a file is short enough for a tree, whose
    /// lengths are 32-bit.
    pub fn parsable(&self, file: SchemaFile) -> (fits: bool)
        requires
            self.has(file),
        ensures
            fits == (byte_len(self@[file.index()].text) <= u32::MAX),
    {
        rope_len_bytes(&self.storage.files[file.id].text) <= 0xFFFF_FFFF
    }

    /// A copy of the database as it is now, for reading while the
    /// database goes on changing. It shares the store of tree storage.
    pub fn snapshot(&self) -> (copy: Database)
        requires
            self.wf(),
        ensures
            copy.wf(),
            copy.store() == self.store(),
            copy@ == self@,
    {
        Database { storage: self.storage.clone(), cache: self.cache.clone() }
    }
}

/// What a list of paths and texts says.
pub open spec fn pairs_view(files: Seq<(String, String)>) -> Seq<(Seq<char>, Seq<char>)> {
    Seq::new(files.len(), |i: int| (files[i].0@, files[i].1@))
}

/// The files after the first `n` of a list of texts are kept, each under
/// its path, in order.
pub open spec fn files_pushed_all(
    files: Seq<FileModel>,
    pairs: Seq<(Seq<char>, Seq<char>)>,
    n: nat,
) -> Seq<FileModel>
    decreases n,
{
    if n == 0 {
        files
    } else {
        files_pushed(
            files_pushed_all(files, pairs, (n - 1) as nat),
            pairs[n - 1].0,
            pairs[n - 1].1,
        )
    }
}

} // verus!
