use crate::green::{tree_kind, tree_text, Tree};
use crate::kind::NodeKind;
use crate::lexer::lex;
use crate::parser::schema::{syntax_errors, syntax_tree};
use crate::parser::utility::error::Fault;
use crate::unicode::byte_len;
use vstd::prelude::*;

verus! {

/// A handle on a file of a database: the number under which the database
/// keeps it.
#[derive(Debug, Clone, Copy, PartialEq, Eq, Structural, Hash)]
pub struct SchemaFile {
    pub id: usize,
}

impl SchemaFile {
    /// The index of the file in the database.
    pub open spec fn index(self) -> int {
        self.id as int
    }
}

/// A parse that a database remembers, with the version of the text that
/// it is the parse of.
pub struct MemoModel {
    pub version: nat,
    pub tree: Tree,
    pub errors: Seq<Fault>,
}

/// What a database holds of a file.
pub struct FileModel {
    pub path: Seq<char>,
    pub text: Seq<char>,
    /// Counts the changes of the text, as far as a 64-bit counter goes.
    pub version: nat,
    pub memo: Option<MemoModel>,
}

impl FileModel {
    /// Whether the remembered parse is of the text as it is now.
    pub open spec fn fresh(self) -> bool {
        self.memo is Some && self.memo->0.version == self.version
    }

    /// A remembered parse is of the text as it is now or as it was
    /// before, and one of the text as it is now is what parsing the text
    /// gives.
    pub open spec fn wf(self) -> bool {
        &&& self.version <= u64::MAX
        &&& self.memo is Some ==> self.memo->0.version <= self.version
        &&& self.fresh() ==> self.memo->0.tree == syntax_tree(lex(self.text))
            && self.memo->0.errors == syntax_errors(lex(self.text))
    }

    /// Whether the text is short enough for a tree, whose lengths are
    /// 32-bit.
    pub open spec fn parsable(self) -> bool {
        byte_len(self.text) <= u32::MAX
    }

    /// The file as it is first kept.
    pub open spec fn new(path: Seq<char>, text: Seq<char>) -> FileModel {
        FileModel { path, text, version: 0, memo: None }
    }

    /// The file with another text: a new version. A counter at its limit
    /// stays, and what was remembered is forgotten instead.
    pub open spec fn with_text(self, text: Seq<char>) -> FileModel {
        if self.version < u64::MAX {
            FileModel { text, version: self.version + 1, ..self }
        } else {
            FileModel { text, memo: None, ..self }
        }
    }

    /// The file once it has been parsed: a fresh parse stays, another is
    /// replaced by the parse of the text.
    pub open spec fn parsed(self) -> FileModel {
        if self.fresh() {
            self
        } else {
            FileModel {
                memo: Some(
                    MemoModel {
                        version: self.version,
                        tree: syntax_tree(lex(self.text)),
                        errors: syntax_errors(lex(self.text)),
                    },
                ),
                ..self
            }
        }
    }
}

/// Whether a tree is a document that holds a text: its root is a `Root`
/// node, and its leaves hold the text.
pub open spec fn rooted(tree: Tree, text: Seq<char>) -> bool {
    tree is Node && tree_kind(tree) == NodeKind::Root.raw() && tree_text(tree) == text
}

/// The index of the file with the given path, or the number of files
/// where there is none.
pub open spec fn find_path(files: Seq<FileModel>, path: Seq<char>) -> int
    decreases files.len(),
{
    if files.len() == 0 {
        0
    } else if find_path(files.drop_last(), path) < files.len() - 1 {
        find_path(files.drop_last(), path)
    } else if files.last().path == path {
        files.len() - 1
    } else {
        files.len() as int
    }
}

/// Every file is well-formed, and no two files have the same path.
pub open spec fn files_wf(files: Seq<FileModel>) -> bool {
    &&& forall|i: int| 0 <= i < files.len() ==> (#[trigger] files[i]).wf()
    &&& forall|i: int, j: int|
        0 <= i < j < files.len() ==> (#[trigger] files[i]).path != (#[trigger] files[j]).path
}

/// The files after a text is kept under a path: the file with that path
/// gets the text, or a new file is added behind the others.
pub open spec fn files_pushed(files: Seq<FileModel>, path: Seq<char>, text: Seq<char>) -> Seq<
    FileModel,
> {
    let at = find_path(files, path);
    if at < files.len() {
        files.update(at, files[at].with_text(text))
    } else {
        files.push(FileModel::new(path, text))
    }
}

pub proof fn lemma_find_path(files: Seq<FileModel>, path: Seq<char>)
    ensures
        0 <= find_path(files, path) <= files.len(),
        find_path(files, path) < files.len() ==> files[find_path(files, path)].path == path,
        forall|i: int| 0 <= i < find_path(files, path) ==> (#[trigger] files[i]).path != path,
        find_path(files, path) == files.len() ==> forall|i: int|
            0 <= i < files.len() ==> (#[trigger] files[i]).path != path,
    decreases files.len(),
{
    if files.len() > 0 {
        let front = files.drop_last();
        lemma_find_path(front, path);
        assert forall|i: int| 0 <= i < files.len() - 1 implies files[i] == front[i] by {}
    }
}

/// A file that was parsed is fresh, and parsing it again changes nothing:
/// the second parse is the remembered one.
pub proof fn lemma_parse_is_remembered(file: FileModel)
    requires
        file.wf(),
    ensures
        file.parsed().wf(),
        file.parsed().fresh(),
        file.parsed().memo->0.tree == syntax_tree(lex(file.text)),
        file.parsed().memo->0.errors == syntax_errors(lex(file.text)),
        file.parsed().parsed() == file.parsed(),
{
}

/// After the text of a file has changed, the remembered parse is not
/// fresh, and the next parse is the parse of the new text.
pub proof fn lemma_parse_after_change(file: FileModel, text: Seq<char>)
    requires
        file.wf(),
    ensures
        file.with_text(text).wf(),
        !file.with_text(text).fresh(),
        file.with_text(text).parsed().memo->0.tree == syntax_tree(lex(text)),
        file.with_text(text).parsed().memo->0.errors == syntax_errors(lex(text)),
        file.with_text(text).text == text,
{
}

} // verus!
