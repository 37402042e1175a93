use crate::db::db::{Database, Db};
use crate::db::ir::{files_pushed, find_path, FileModel};
use crate::position::{
    lemma_char_of_unit, position_char, position_in_text, position_to_char, position_unit,
    position_valid, Position,
};
use crate::rope::{rope_from_str, rope_insert, rope_remove, rope_text};
use vstd::prelude::*;

verus! {

/// A stretch of a text between two positions.
#[derive(Debug, Clone, Copy, PartialEq, Eq, Structural)]
pub struct Span {
    pub start: Position,
    pub end: Position,
}

/// One change of a text, as an editor sends it: a stretch of the text and
/// what replaces it, or the whole new text where no stretch is given.
#[derive(Debug)]
pub struct ContentChange {
    pub range: Option<Span>,
    pub text: String,
}

/// What a change says.
pub struct ChangeModel {
    pub range: Option<Span>,
    pub text: Seq<char>,
}

impl View for ContentChange {
    type V = ChangeModel;

    open spec fn view(&self) -> ChangeModel {
        ChangeModel { range: self.range, text: self.text@ }
    }
}

/// Why a request to change a document was not carried out.
#[derive(Debug, Clone, Copy, PartialEq, Eq, Structural)]
pub enum EditError {
    /// The document is not open, and the request is not a single change
    /// that gives its whole text.
    NotOpen,
    /// The change with this index names a stretch that the text, as the
    /// changes before it left it, does not have.
    OutOfRange(usize),
}

/// Whether a change can be made to a text: its stretch, if it names one,
/// lies in the text and does not end before it starts.
pub open spec fn change_applies(text: Seq<char>, change: ChangeModel) -> bool {
    match change.range {
        None => true,
        Some(span) => position_valid(text, span.start) && position_valid(text, span.end)
            && position_char(text, span.start) <= position_char(text, span.end),
    }
}

/// The text after a change: the new text, where the change names no
/// stretch; else what stands before the stretch, the new text, and what
/// stands behind the stretch.
pub open spec fn change_result(text: Seq<char>, change: ChangeModel) -> Seq<char> {
    match change.range {
        None => change.text,
        Some(span) => text.take(position_char(text, span.start) as int) + change.text
            + text.skip(position_char(text, span.end) as int),
    }
}

/// The text after the first `n` changes of a list, each made to what the
/// one before it left.
pub open spec fn changes_result(text: Seq<char>, changes: Seq<ChangeModel>, n: nat) -> Seq<char>
    decreases n,
{
    if n == 0 {
        text
    } else {
        change_result(changes_result(text, changes, (n - 1) as nat), changes[n - 1])
    }
}

/// How many of the changes of a list can be made one after the other: the
/// index of the first that cannot be made, or the length of the list.
pub open spec fn changes_made(text: Seq<char>, changes: Seq<ChangeModel>, n: nat) -> nat
    decreases n,
{
    if n == 0 {
        0
    } else {
        let before = changes_made(text, changes, (n - 1) as nat);
        if before == n - 1 && change_applies(
            changes_result(text, changes, (n - 1) as nat),
            changes[n - 1],
        ) {
            n
        } else {
            before
        }
    }
}

/// What the changes of a list say.
pub open spec fn changes_view(edits: Seq<ContentChange>) -> Seq<ChangeModel> {
    Seq::new(edits.len(), |i: int| edits[i]@)
}

/// A change that gives the whole text leaves exactly that text.
pub proof fn lemma_full_replace(text: Seq<char>, replacement: Seq<char>)
    ensures
        change_applies(text, ChangeModel { range: None, text: replacement }),
        change_result(text, ChangeModel { range: None, text: replacement }) == replacement,
        changes_made(text, seq![ChangeModel { range: None, text: replacement }], 1) == 1,
        changes_result(text, seq![ChangeModel { range: None, text: replacement }], 1)
            == replacement,
{
    let changes = seq![ChangeModel { range: None, text: replacement }];
    assert(changes_result(text, changes, 0) == text);
    assert(changes_made(text, changes, 0) == 0);
}

/// A change of a stretch leaves what stood before the stretch, the new
/// text, and what stood behind the stretch: the text is as long as
/// before, less the stretch, plus the new text.
pub proof fn lemma_range_replace(text: Seq<char>, span: Span, replacement: Seq<char>)
    requires
        change_applies(text, ChangeModel { range: Some(span), text: replacement }),
    ensures
        ({
            let start = position_char(text, span.start) as int;
            let end = position_char(text, span.end) as int;
            let after = change_result(text, ChangeModel { range: Some(span), text: replacement });
            &&& 0 <= start <= end <= text.len()
            &&& after == text.subrange(0, start) + replacement + text.subrange(
                end,
                text.len() as int,
            )
            &&& after.len() == text.len() - (end - start) + replacement.len()
            &&& after.subrange(0, start) == text.subrange(0, start)
            &&& after.subrange(start, start + replacement.len()) == replacement
            &&& after.subrange(start + replacement.len(), after.len() as int) == text.subrange(
                end,
                text.len() as int,
            )
        }),
{
    let start = position_char(text, span.start) as int;
    let end = position_char(text, span.end) as int;
    lemma_char_of_unit(text, position_unit(text, span.start));
    lemma_char_of_unit(text, position_unit(text, span.end));
    let after = change_result(text, ChangeModel { range: Some(span), text: replacement });
    assert(after =~= text.subrange(0, start) + replacement + text.subrange(
        end,
        text.len() as int,
    ));
    assert(after.subrange(0, start) =~= text.subrange(0, start));
    assert(after.subrange(start, start + replacement.len()) =~= replacement);
    assert(after.subrange(start + replacement.len(), after.len() as int) =~= text.subrange(
        end,
        text.len() as int,
    ));
}

/// Makes a change to a text, if it can be made.
pub fn apply_change(buffer: &mut ropey::Rope, change: &ContentChange) -> (applied: bool)
    ensures
        applied == change_applies(rope_text(*old(buffer)), change@),
        applied ==> rope_text(*final(buffer)) == change_result(rope_text(*old(buffer)), change@),
        !applied ==> rope_text(*final(buffer)) == rope_text(*old(buffer)),
{
    match change.range {
        Some(span) => {
            if !position_in_text(buffer, span.start) || !position_in_text(buffer, span.end) {
                return false;
            }
            let start_char = position_to_char(buffer, span.start);
            let end_char = position_to_char(buffer, span.end);
            if start_char > end_char {
                return false;
            }
            let ghost text = rope_text(*buffer);
            rope_remove(buffer, start_char, end_char);
            rope_insert(buffer, start_char, change.text.as_str());
            proof {
                let cut = text.take(start_char as int) + text.skip(end_char as int);
                assert(cut.take(start_char as int) =~= text.take(start_char as int));
                assert(cut.skip(start_char as int) =~= text.skip(end_char as int));
            }
            true
        },
        None => {
            *buffer = rope_from_str(change.text.as_str());
            true
        },
    }
}

/// Makes the changes of a list to a text, one after the other, as far as
/// they can be made. The result says how many were made: all of them, or
/// those before the first that cannot be made.
pub fn apply_changes(buffer: &mut ropey::Rope, edits: &Vec<ContentChange>) -> (made: usize)
    ensures
        made == changes_made(rope_text(*old(buffer)), changes_view(edits@), edits@.len() as nat),
        made <= edits@.len(),
        rope_text(*final(buffer)) == changes_result(
            rope_text(*old(buffer)),
            changes_view(edits@),
            made as nat,
        ),
{
    let ghost text = rope_text(*buffer);
    let ghost changes = changes_view(edits@);
    let mut i: usize = 0;
    while i < edits.len()
        invariant
            i <= edits.len(),
            text == rope_text(*old(buffer)),
            changes == changes_view(edits@),
            changes_made(text, changes, i as nat) == i,
            rope_text(*buffer) == changes_result(text, changes, i as nat),
        decreases edits.len() - i,
    {
        assert(changes[i as int] == edits@[i as int]@);
        if !apply_change(buffer, &edits[i]) {
            proof {
                lemma_changes_stop(text, changes, i as nat, edits@.len() as nat);
            }
            return i;
        }
        i = i + 1;
    }
    i
}

/// Once a change cannot be made, no later one is made.
pub proof fn lemma_changes_stop(text: Seq<char>, changes: Seq<ChangeModel>, i: nat, n: nat)
    requires
        i < n,
        changes_made(text, changes, i) == i,
        !change_applies(changes_result(text, changes, i), changes[i as int]),
    ensures
        changes_made(text, changes, n) == i,
    decreases n,
{
    if n > i + 1 {
        lemma_changes_stop(text, changes, i, (n - 1) as nat);
    }
}

/// The files of a database after a request to change the document with
/// the given path.
pub open spec fn edit_result(
    files: Seq<FileModel>,
    path: Seq<char>,
    changes: Seq<ChangeModel>,
) -> Result<Seq<FileModel>, EditError> {
    let at = find_path(files, path);
    if at < files.len() {
        let made = changes_made(files[at].text, changes, changes.len());
        if made == changes.len() {
            Ok(
                files.update(
                    at,
                    files[at].with_text(changes_result(files[at].text, changes, changes.len())),
                ),
            )
        } else {
            Err(EditError::OutOfRange(made as usize))
        }
    } else if changes.len() == 1 && changes[0].range is None {
        Ok(files_pushed(files, path, changes[0].text))
    } else {
        Err(EditError::NotOpen)
    }
}

/// Changes the document with the given path.
///
/// The changes are made to its text in the order given, each to what the
/// one before it left, and the result is the next version of the document.
/// Where one of them names a stretch that the text does not have, none is
/// made. A document that is not open is opened by a single change that
/// gives its whole text, and by nothing else. A request that is not
/// carried out leaves the database as it is.
pub fn edit(db: &mut Database, path: &str, edits: Vec<ContentChange>) -> (done: Result<
    (),
    EditError,
>)
    requires
        old(db).wf(),
    ensures
        final(db).wf(),
        final(db).store() == old(db).store(),
        match edit_result(old(db)@, path@, changes_view(edits@)) {
            Ok(files) => done is Ok && final(db)@ == files,
            Err(error) => done == Err::<(), EditError>(error) && final(db)@ == old(db)@,
        },
{
    match db.schema_file(path) {
        Some(schema_file) => {
            let mut buffer = db.text(schema_file);
            let made = apply_changes(&mut buffer, &edits);
            if made == edits.len() {
                db.set_text(schema_file, buffer);
                Ok(())
            } else {
                Err(EditError::OutOfRange(made))
            }
        },
        None => {
            if edits.len() != 1 {
                return Err(EditError::NotOpen);
            }
            let mut edits = edits;
            let ghost changes = changes_view(edits@);
            assert(changes[0] == edits@[0]@);
            match edits.pop() {
                Some(change) => {
                    if change.range.is_some() {
                        Err(EditError::NotOpen)
                    } else {
                        db.push_file(string_of(path), change.text);
                        Ok(())
                    }
                },
                None => Err(EditError::NotOpen),
            }
        },
    }
}

/// Opens a document: its text is kept under its path, as the next version
/// of the document where it was open before.
pub fn open(db: &mut Database, path: &str, source: String)
    requires
        old(db).wf(),
    ensures
        final(db).wf(),
        final(db).store() == old(db).store(),
        final(db)@ == files_pushed(old(db)@, path@, source@),
{
    db.push_file(string_of(path), source);
}

fn string_of(text: &str) -> (owned: String)
    ensures
        owned@ == text@,
{
    text.to_owned()
}

} // verus!
